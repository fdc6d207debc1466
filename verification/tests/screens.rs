use algorithm_visualizer::array_manager::{ArrayData, ArrayManager};
use algorithm_visualizer::array_screens::{
    generate_random_array, ManagerAction, ManagerScreen, ManualArrayDialog, ManualOutcome,
    RandomArrayDialog, RandomOutcome,
};
use algorithm_visualizer::colors::{TermColor, VisualizerDrawer};
use algorithm_visualizer::dialog::{
    confirm_exit, confirm_reset_array, show_algorithm_info, show_array_info, show_info,
    show_loading, show_no_array_selected, show_question, show_sorting_completed, show_warning, Dialog,
    DialogKey, DialogType, ProgressDialog,
};
use algorithm_visualizer::enums::SelectionState;
use algorithm_visualizer::menu::{
    fit_description, fit_entry, get_category_for_option, get_option_description, MainMenu, MenuKey,
};
use algorithm_visualizer::runner::run_sort;
use algorithm_visualizer::settings::{
    Settings, SettingsAction, SettingsMenu, SpeedInput, SpeedOutcome,
};
use algorithm_visualizer::text::TextKey;

fn typed(dialog_keys: &[char]) -> Vec<TextKey> {
    dialog_keys.iter().map(|c| TextKey::Char(*c)).collect()
}

#[test]
fn dialog_size_follows_the_longest_line() {
    let d = Dialog::new(DialogType::Info, "Hi", "one\nthree\n\nfive5");
    assert_eq!(d.message().clone(), vec!["one", "three", "", "five5"]);
    assert_eq!(d.width(), 13);
    assert_eq!(d.height(), 13);
    assert_eq!(d.buttons().clone(), vec!["OK"]);
    assert_eq!(d.selected_button(), 0);
}

#[test]
fn dialog_width_counts_bytes_and_stops_at_sixty() {
    let d = Dialog::new(DialogType::Warning, "T", "• ab");
    assert_eq!(d.width(), 6 + 8);
    let long = "x".repeat(80);
    let d = Dialog::new(DialogType::Error, "T", &long);
    assert_eq!(d.width(), 60);
    let d = Dialog::new(DialogType::Error, "A title longer than the text", "ok");
    assert_eq!(d.width(), 28 + 8);
}

#[test]
fn dialog_lines_follow_str_lines() {
    let d = Dialog::new(DialogType::Info, "", "a\r\nb\n");
    assert_eq!(d.message().clone(), vec!["a", "b"]);
    let d = Dialog::new(DialogType::Info, "", "");
    assert!(d.message().is_empty());
    assert_eq!(d.height(), 9);
    let d = Dialog::new(DialogType::Info, "", "tail\r");
    assert_eq!(d.message().clone(), vec!["tail\r"]);
}

#[test]
fn dialog_keys_move_and_choose() {
    let mut d = show_question("Q", "Pick", vec!["Yes", "No", "Maybe"]);
    assert_eq!(d.handle_key(DialogKey::Left), None);
    assert_eq!(d.selected_button(), 2);
    assert_eq!(d.handle_key(DialogKey::Right), None);
    assert_eq!(d.selected_button(), 0);
    assert_eq!(d.handle_key(DialogKey::Tab), None);
    assert_eq!(d.handle_key(DialogKey::Enter), Some(1));
    assert_eq!(d.handle_key(DialogKey::Escape), Some(2));
    assert_eq!(d.handle_key(DialogKey::Yes), Some(0));
    assert_eq!(d.handle_key(DialogKey::No), Some(1));
    assert_eq!(d.handle_key(DialogKey::Other), None);
}

#[test]
fn quick_answers_need_matching_buttons() {
    let mut d = show_question("Q", "Go?", vec!["Start Sorting", "Go Back"]);
    assert_eq!(d.handle_key(DialogKey::Yes), None);
    assert_eq!(d.handle_key(DialogKey::No), None);
    let mut d = show_question("Q", "Go?", vec!["YES please", "nope"]);
    assert_eq!(d.handle_key(DialogKey::Yes), Some(0));
    assert_eq!(d.handle_key(DialogKey::No), Some(1));
}

#[test]
fn dialog_kinds_have_their_titles_and_colors() {
    assert_eq!(DialogType::Info.get_title(), "INFORMATION");
    assert_eq!(DialogType::Question.get_title(), "QUESTION");
    assert_eq!(DialogType::Error.get_colors(), (TermColor::Red, TermColor::DarkRed, "✖"));
    assert_eq!(DialogType::Success.get_colors(), (TermColor::Green, TermColor::DarkGreen, "✓"));
}

#[test]
fn prepared_dialogs_hold_their_texts() {
    let d = show_no_array_selected();
    assert_eq!(d.dialog_type(), DialogType::Warning);
    assert_eq!(d.title().as_str(), "No Array Selected");
    assert_eq!(d.message().len(), 4);
    let d = confirm_exit();
    assert_eq!(d.buttons().clone(), vec!["Yes", "No"]);
    assert_eq!(d.title().as_str(), "Confirm Exit");
    let d = confirm_reset_array();
    assert_eq!(d.message().clone(), vec![
        "This will reset the array to its original state.",
        "All progress will be lost.",
        "",
        "Continue?",
    ]);
    let d = show_info("Info", "text");
    assert_eq!(d.dialog_type(), DialogType::Info);
    let d = show_loading("Sorting");
    assert_eq!(d.message().clone(), vec!["Sorting..."]);
    assert_eq!(d.title().as_str(), "Please Wait");
}

#[test]
fn completed_and_array_reports_format_their_numbers() {
    let d = show_sorting_completed("Quick Sort", 12, 5, 340);
    assert_eq!(d.message().clone(), vec![
        "Algorithm: Quick Sort",
        "",
        "Statistics:",
        "• Comparisons: 12",
        "• Swaps: 5",
        "• Time: 340ms",
        "",
        "The array has been successfully sorted!",
    ]);
    let d = show_array_info("A", 10, 0, 100);
    assert_eq!(d.message()[3], "• Size: 10 elements");
    assert_eq!(d.message()[4], "• Range: 0 - 100");
}

#[test]
fn algorithm_info_picks_the_description() {
    let d = show_algorithm_info("Merge Sort");
    assert_eq!(d.title().as_str(), "Merge Sort Information");
    assert_eq!(d.message()[0], "Merge Sort divides array into halves, sorts them");
    assert_eq!(d.buttons().clone(), vec!["Start Sorting", "Go Back"]);
    let d = show_algorithm_info("Tim Sort");
    assert_eq!(d.message()[0], "Information about this algorithm");
    assert!(d.message().contains(&"Complexity information".to_string()));
}

#[test]
fn progress_dialog_records_updates() {
    let mut p = ProgressDialog::new("Work", 10);
    assert_eq!(p.current_step, 0);
    p.update(4, "halfway");
    assert_eq!(p.current_step, 4);
    assert_eq!(p.total_steps, 10);
    assert_eq!(p.current_message, "halfway");
    assert_eq!(p.title, "Work");
}

#[test]
fn state_colors() {
    assert_eq!(VisualizerDrawer::get_state_colors(SelectionState::Normal), (TermColor::Cyan, TermColor::Reset));
    assert_eq!(VisualizerDrawer::get_state_colors(SelectionState::PartitionRight), (TermColor::Blue, TermColor::DarkBlue));
}

#[test]
fn menu_categories_and_descriptions() {
    assert_eq!(get_category_for_option(5), "search");
    assert_eq!(get_category_for_option(15), "sort");
    assert_eq!(get_category_for_option(25), "games");
    assert_eq!(get_category_for_option(31), "settings");
    assert_eq!(get_category_for_option(99), "exit");
    assert_eq!(get_category_for_option(0), "unknown");
    assert_eq!(get_category_for_option(100), "unknown");
    assert_eq!(get_option_description(14), "Visualize quick sort - efficient divide and conquer sorting with pivot selection");
    assert_eq!(get_option_description(42), "Unknown option - please select a valid menu item");
}

#[test]
fn main_menu_navigation() {
    let mut m = MainMenu::new();
    assert_eq!(m.categories().len(), 4);
    assert_eq!(m.handle_key(MenuKey::Enter), Some(1));
    assert_eq!(m.handle_key(MenuKey::NextCategory), None);
    assert_eq!(m.selected_category(), 1);
    assert_eq!(m.handle_key(MenuKey::Down), None);
    assert_eq!(m.handle_key(MenuKey::Enter), Some(3));
    assert_eq!(m.handle_key(MenuKey::Down), None);
    assert_eq!(m.selected_option(), 0);
    assert_eq!(m.handle_key(MenuKey::Up), None);
    assert_eq!(m.selected_option(), 1);
    assert_eq!(m.handle_key(MenuKey::PreviousCategory), None);
    assert_eq!(m.selected_category(), 0);
    assert_eq!(m.handle_key(MenuKey::PreviousCategory), None);
    assert_eq!(m.selected_category(), 3);
    assert_eq!(m.handle_key(MenuKey::Enter), Some(31));
    assert_eq!(m.handle_key(MenuKey::Quit), Some(99));
}

#[test]
fn digit_keys_jump_to_entries() {
    let mut m = MainMenu::new();
    for d in 1..=9u32 {
        assert_eq!(m.handle_key(MenuKey::Digit(d)), None);
        assert_eq!(m.handle_key(MenuKey::Enter), Some(d));
    }
    m.handle_key(MenuKey::Digit(7));
    m.handle_key(MenuKey::Digit(0));
    assert_eq!(m.handle_key(MenuKey::Enter), Some(7));
}

#[test]
fn settings_menu_toggles_and_asks() {
    let mut settings = Settings::default();
    assert_eq!(settings.speed, 0);
    let mut menu = SettingsMenu::new();
    assert_eq!(menu.handle_key(&mut settings, TextKey::Enter), SettingsAction::ChangeSpeed);
    assert_eq!(menu.handle_key(&mut settings, TextKey::Down), SettingsAction::Continue);
    assert_eq!(menu.handle_key(&mut settings, TextKey::Enter), SettingsAction::Save);
    assert!(settings.teaching_mode);
    assert_eq!(menu.handle_key(&mut settings, TextKey::Enter), SettingsAction::Save);
    assert!(!settings.teaching_mode);
    assert_eq!(menu.handle_key(&mut settings, TextKey::Up), SettingsAction::Continue);
    assert_eq!(menu.handle_key(&mut settings, TextKey::Up), SettingsAction::Continue);
    assert_eq!(menu.selection, 2);
    assert_eq!(menu.handle_key(&mut settings, TextKey::Enter), SettingsAction::Back);
    assert_eq!(menu.handle_key(&mut settings, TextKey::Escape), SettingsAction::Back);
}

#[test]
fn speed_field_accepts_only_the_range() {
    let mut s = SpeedInput::new();
    for k in typed(&['2', 'x', '5', '0']) {
        assert_eq!(s.handle_key(k), SpeedOutcome::Editing);
    }
    assert_eq!(s.input().clone(), vec!['2', '5', '0']);
    assert_eq!(s.handle_key(TextKey::Enter), SpeedOutcome::Done(Some(250)));
    let mut s = SpeedInput::new();
    for k in typed(&['5', '0']) {
        s.handle_key(k);
    }
    assert_eq!(s.handle_key(TextKey::Enter), SpeedOutcome::Editing);
    assert!(s.input().is_empty());
    assert_eq!(s.cursor(), 0);
    assert_eq!(s.handle_key(TextKey::Enter), SpeedOutcome::Editing);
    assert_eq!(s.handle_key(TextKey::Escape), SpeedOutcome::Done(None));
}

#[test]
fn speed_field_edits_at_the_cursor() {
    let mut s = SpeedInput::new();
    for k in typed(&['1', '0']) {
        s.handle_key(k);
    }
    s.handle_key(TextKey::Left);
    s.handle_key(TextKey::Left);
    s.handle_key(TextKey::Left);
    assert_eq!(s.cursor(), 0);
    s.handle_key(TextKey::Char('5'));
    assert_eq!(s.input().clone(), vec!['5', '1', '0']);
    s.handle_key(TextKey::Right);
    s.handle_key(TextKey::Backspace);
    assert_eq!(s.input().clone(), vec!['5', '0']);
    s.handle_key(TextKey::Right);
    s.handle_key(TextKey::Right);
    assert_eq!(s.cursor(), 2);
    s.handle_key(TextKey::Char('0'));
    assert_eq!(s.handle_key(TextKey::Enter), SpeedOutcome::Done(Some(500)));
}

#[test]
fn speed_field_overflow_is_rejected() {
    let mut s = SpeedInput::new();
    for _ in 0..25 {
        s.handle_key(TextKey::Char('9'));
    }
    assert_eq!(s.handle_key(TextKey::Enter), SpeedOutcome::Editing);
    assert!(s.input().is_empty());
}

fn array(values: &[u32], name: &str) -> ArrayData {
    ArrayData::new(values.to_vec(), name.to_string())
}

#[test]
fn manager_screen_moves_and_selects() {
    let mut manager = ArrayManager::new();
    let mut screen = ManagerScreen::new();
    assert_eq!(screen.handle_key(&mut manager, TextKey::Enter), ManagerAction::GenerateRandom);
    screen.handle_key(&mut manager, TextKey::Down);
    assert_eq!(screen.handle_key(&mut manager, TextKey::Enter), ManagerAction::EnterManually);
    screen.add_array(&mut manager, array(&[1, 2], "a"));
    screen.add_array(&mut manager, array(&[3, 4], "b"));
    screen.handle_key(&mut manager, TextKey::Right);
    assert_eq!(screen.menu_selection(), 2);
    screen.handle_key(&mut manager, TextKey::Down);
    assert_eq!(screen.menu_selection(), 2);
    assert_eq!(screen.array_selection(), 1);
    assert_eq!(screen.handle_key(&mut manager, TextKey::Enter), ManagerAction::ShowSelection(1));
    assert_eq!(manager.selected_index(), Some(1));
    screen.handle_key(&mut manager, TextKey::Up);
    assert_eq!(screen.array_selection(), 0);
    screen.handle_key(&mut manager, TextKey::Up);
    assert_eq!(screen.array_selection(), 1);
    screen.handle_key(&mut manager, TextKey::Left);
    assert_eq!(screen.menu_selection(), 1);
    screen.handle_key(&mut manager, TextKey::Up);
    screen.handle_key(&mut manager, TextKey::Up);
    assert_eq!(screen.menu_selection(), 5);
    assert_eq!(screen.handle_key(&mut manager, TextKey::Enter), ManagerAction::Back);
    assert_eq!(screen.handle_key(&mut manager, TextKey::Escape), ManagerAction::Back);
}

#[test]
fn manager_screen_array_entries_need_arrays() {
    let mut manager = ArrayManager::new();
    let mut screen = ManagerScreen::new();
    screen.handle_key(&mut manager, TextKey::Down);
    screen.handle_key(&mut manager, TextKey::Down);
    screen.handle_key(&mut manager, TextKey::Down);
    assert_eq!(screen.menu_selection(), 3);
    assert_eq!(screen.handle_key(&mut manager, TextKey::Enter), ManagerAction::Continue);
    screen.add_array(&mut manager, array(&[9], "only"));
    assert_eq!(screen.handle_key(&mut manager, TextKey::Enter), ManagerAction::ShowDetails(0));
}

#[test]
fn deleting_keeps_the_highlight_in_range() {
    let mut manager = ArrayManager::new();
    let mut screen = ManagerScreen::new();
    for name in ["a", "b", "c"] {
        screen.add_array(&mut manager, array(&[1], name));
    }
    for _ in 0..4 {
        screen.handle_key(&mut manager, TextKey::Down);
    }
    assert_eq!(screen.menu_selection(), 2);
    assert_eq!(screen.array_selection(), 2);
    assert_eq!(screen.handle_key(&mut manager, TextKey::Enter), ManagerAction::ShowSelection(2));
    screen.handle_key(&mut manager, TextKey::Right);
    screen.handle_key(&mut manager, TextKey::Right);
    assert_eq!(screen.menu_selection(), 4);
    assert_eq!(screen.handle_key(&mut manager, TextKey::Enter), ManagerAction::ConfirmDelete(2));
    screen.delete_selected(&mut manager);
    assert_eq!(manager.arrays().len(), 2);
    assert_eq!(screen.array_selection(), 1);
    assert_eq!(manager.selected_index(), None);
}

#[test]
fn random_dialog_asks_for_a_valid_size() {
    let mut d = RandomArrayDialog::new();
    for k in typed(&['1', 'a']) {
        assert!(!d.key_panics(k));
        assert!(matches!(d.handle_key(k), RandomOutcome::Editing));
    }
    assert_eq!(d.size_input().clone(), vec!['1']);
    assert!(matches!(d.handle_key(TextKey::Enter), RandomOutcome::Editing));
    d.handle_key(TextKey::Char('2'));
    match d.handle_key(TextKey::Enter) {
        RandomOutcome::Generate { size, name } => {
            assert_eq!(size, 12);
            assert_eq!(name, "Array_12");
        }
        _ => panic!("expected a request"),
    }
    d.handle_key(TextKey::Tab);
    assert_eq!(d.input_mode(), 1);
    for k in typed(&[' ', 'M', 'y', ' ']) {
        d.handle_key(k);
    }
    match d.handle_key(TextKey::Enter) {
        RandomOutcome::Generate { size, name } => {
            assert_eq!(size, 12);
            assert_eq!(name, "My");
        }
        _ => panic!("expected a request"),
    }
    assert!(matches!(d.handle_key(TextKey::Escape), RandomOutcome::Cancelled));
}

#[test]
fn random_dialog_name_cursor_counts_bytes() {
    let mut d = RandomArrayDialog::new();
    d.handle_key(TextKey::Tab);
    assert!(!d.key_panics(TextKey::Char('é')));
    d.handle_key(TextKey::Char('é'));
    assert_eq!(d.cursor(), 1);
    // One byte into a two-byte character: `String::insert` would panic here.
    assert!(d.key_panics(TextKey::Char('x')));
    assert!(!d.key_panics(TextKey::Backspace));
    d.handle_key(TextKey::Backspace);
    assert!(d.name_input().is_empty());
    assert_eq!(d.cursor(), 0);
}

#[test]
fn random_arrays_have_the_size_and_range() {
    let a = generate_random_array(20, "R".to_string());
    assert_eq!(a.data.len(), 20);
    assert_eq!(a.size, 20);
    assert!(a.data.iter().all(|v| (1..=100).contains(v)));
    assert_eq!(a.min_value, *a.data.iter().min().unwrap());
    assert_eq!(a.max_value, *a.data.iter().max().unwrap());
    assert_eq!(a.name, "R");
}

#[test]
fn manual_dialog_builds_an_array() {
    let mut d = ManualArrayDialog::new();
    d.handle_key(TextKey::Char('2'));
    assert!(matches!(d.handle_key(TextKey::Enter), ManualOutcome::Editing));
    assert_eq!(d.mode(), 1);
    assert_eq!(d.array_size(), 2);
    for k in typed(&['n', '!', '_', '1']) {
        d.handle_key(k);
    }
    assert_eq!(d.input().clone(), vec!['n', '_', '1']);
    d.handle_key(TextKey::Tab);
    assert_eq!(d.mode(), 2);
    assert_eq!(d.name().clone(), vec!['n', '_', '1']);
    for k in typed(&['4', '2']) {
        d.handle_key(k);
    }
    assert!(matches!(d.handle_key(TextKey::Enter), ManualOutcome::Editing));
    assert_eq!(d.current_index(), 1);
    d.handle_key(TextKey::Enter);
    assert_eq!(d.current_index(), 1);
    d.handle_key(TextKey::Char('7'));
    match d.handle_key(TextKey::Enter) {
        ManualOutcome::Created(a) => {
            assert_eq!(a.data, vec![42, 7]);
            assert_eq!(a.name, "n_1");
            assert_eq!(a.min_value, 7);
            assert_eq!(a.max_value, 42);
        }
        _ => panic!("expected the array"),
    }
}

#[test]
fn manual_dialog_default_name_and_limits() {
    let mut d = ManualArrayDialog::new();
    for k in typed(&['5', '1']) {
        d.handle_key(k);
    }
    d.handle_key(TextKey::Enter);
    assert_eq!(d.mode(), 0);
    d.handle_key(TextKey::Backspace);
    d.handle_key(TextKey::Backspace);
    d.handle_key(TextKey::Char('3'));
    d.handle_key(TextKey::Tab);
    assert_eq!(d.mode(), 1);
    d.handle_key(TextKey::Enter);
    assert_eq!(d.name().iter().collect::<String>(), "Manual_Array_3");
    for _ in 0..12 {
        d.handle_key(TextKey::Char('9'));
    }
    assert_eq!(d.input().len(), 10);
    d.handle_key(TextKey::Enter);
    assert_eq!(d.current_index(), 0);
    assert!(matches!(d.handle_key(TextKey::Escape), ManualOutcome::Cancelled));
}

#[test]
fn run_sort_needs_a_selection() {
    let mut manager = ArrayManager::new();
    manager.add_array(array(&[3, 1], "x"));
    let mut seen = 0;
    assert!(!run_sort(&mut manager, |_a: &mut ArrayData| seen += 1));
    assert_eq!(seen, 0);
    manager.select_array(0);
    assert!(run_sort(&mut manager, |a: &mut ArrayData| {
        seen += 1;
        a.data.reverse();
    }));
    assert_eq!(seen, 1);
    assert_eq!(manager.arrays()[0].data, vec![1, 3]);
}

#[test]
fn menu_entries_and_descriptions_are_cut_to_fit() {
    assert_eq!(fit_entry("Bubble Sort", 20), "Bubble Sort");
    assert_eq!(fit_entry("Bubble Sort", 14), "Bubble Sort");
    assert_eq!(fit_entry("Bubble Sort", 13), "Bubble ...");
    assert_eq!(fit_entry("abcdefghij", 10), "abcd...");
    assert_eq!(fit_description("short", 10), "short");
    assert_eq!(fit_description("exactly ten", 11), "exactly ten");
    assert_eq!(fit_description("a longer description", 10), "a longe...");
    assert_eq!(fit_description("abcdef", 2), "...");
    assert_eq!(fit_description("héllo wörld", 8), "héll...");
}

#[test]
fn dialogs_show_their_own_title_only_when_it_differs() {
    assert!(!show_info("INFORMATION", "x").shows_custom_title());
    assert!(!show_info("", "x").shows_custom_title());
    assert!(show_info("Hello", "x").shows_custom_title());
    assert!(show_warning("INFORMATION", "x").shows_custom_title());
}

#[test]
fn the_first_button_confirms() {
    assert!(algorithm_visualizer::dialog::confirmed(0));
    assert!(!algorithm_visualizer::dialog::confirmed(1));
}

#[test]
fn no_key_needs_a_second_button() {
    let mut one = show_question("Q", "m", vec!["Nope"]);
    assert_eq!(one.handle_key(DialogKey::No), None);
    let mut two = show_question("Q", "m", vec!["Yes", "No"]);
    assert_eq!(two.handle_key(DialogKey::No), Some(1));
    assert_eq!(two.handle_key(DialogKey::Yes), Some(0));
}

#[test]
fn menu_descriptions_are_distinct() {
    let ids: Vec<u32> = (1..=18).chain([31, 99]).collect();
    let mut seen: Vec<String> = ids.iter().map(|&id| get_option_description(id)).collect();
    seen.push(get_option_description(50));
    let count = seen.len();
    seen.sort();
    seen.dedup();
    assert_eq!(seen.len(), count);
}
