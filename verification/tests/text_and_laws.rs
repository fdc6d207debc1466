use algorithm_visualizer::array_manager::{ArrayData, ArrayManager};
use algorithm_visualizer::array_text::{display_array_full, display_array_preview, padded_string};
use algorithm_visualizer::colors::VisualizerDrawer;
use algorithm_visualizer::dialog::{show_question, DialogKey};
use algorithm_visualizer::menu::{MainMenu, MenuKey};
use algorithm_visualizer::text::{
    chars_of, decimal_string, lines_of, parse_number, same_text, string_from_chars, trim_chars,
    utf8_len_of,
};

fn chars(s: &str) -> Vec<char> {
    s.chars().collect()
}

#[test]
fn parse_number_follows_str_parse() {
    assert_eq!(parse_number(&chars("42"), u64::MAX), Some(42));
    assert_eq!(parse_number(&chars("+7"), u64::MAX), Some(7));
    assert_eq!(parse_number(&chars("007"), 10), Some(7));
    assert_eq!(parse_number(&chars(""), u64::MAX), None);
    assert_eq!(parse_number(&chars("+"), u64::MAX), None);
    assert_eq!(parse_number(&chars("-1"), u64::MAX), None);
    assert_eq!(parse_number(&chars("1 2"), u64::MAX), None);
    assert_eq!(parse_number(&chars("4294967295"), u32::MAX as u64), Some(4294967295));
    assert_eq!(parse_number(&chars("4294967296"), u32::MAX as u64), None);
    assert_eq!(parse_number(&chars("18446744073709551615"), u64::MAX), Some(u64::MAX));
    assert_eq!(parse_number(&chars("18446744073709551616"), u64::MAX), None);
}

#[test]
fn trimming_and_lines() {
    assert_eq!(trim_chars(&chars("  a b \t")), chars("a b"));
    assert_eq!(trim_chars(&chars("\u{3000}x\u{a0}")), chars("x"));
    assert!(trim_chars(&chars(" \n ")).is_empty());
    assert_eq!(lines_of("x\n\ny"), vec!["x", "", "y"]);
    assert_eq!(lines_of("\n"), vec![""]);
    assert_eq!(lines_of("a\r\n\r\n"), vec!["a", ""]);
}

#[test]
fn small_string_helpers() {
    assert_eq!(decimal_string(0), "0");
    assert_eq!(decimal_string(1234567890), "1234567890");
    assert_eq!(string_from_chars(&chars("héllo")), "héllo");
    assert_eq!(chars_of("ab€"), chars("ab€"));
    assert_eq!(utf8_len_of(&chars("ab€")), 5);
    assert!(same_text("Quick Sort", "Quick Sort"));
    assert!(!same_text("Quick Sort", "Quick sort"));
    assert!(!same_text("Quick", "Quick Sort"));
}

#[test]
fn array_previews() {
    assert_eq!(padded_string(5), " 5");
    assert_eq!(padded_string(42), "42");
    assert_eq!(padded_string(100), "100");
    assert_eq!(display_array_preview(&vec![3, 14, 7]), "[ 3, 14,  7]");
    assert_eq!(display_array_preview(&vec![]), "[]");
    assert_eq!(display_array_preview(&(1..=10).collect()), "[ 1,  2,  3,  4,  5,  6, ... +4 more]");
}

#[test]
fn full_array_lines_wrap() {
    assert_eq!(display_array_full(&vec![1, 2, 3], 80), vec!["[ 1,  2,  3]"]);
    assert_eq!(display_array_full(&vec![1, 2, 3, 4], 10), vec!["[ 1,  2]", "[ 3,  4]"]);
    assert_eq!(display_array_full(&vec![100, 200], 3), vec!["[100]", "[200]"]);
    assert_eq!(display_array_full(&vec![], 10), vec!["["]);
}

#[test]
fn bar_layouts() {
    assert_eq!(VisualizerDrawer::bar_layout(80, 10), (3, 1, 20));
    assert_eq!(VisualizerDrawer::bar_layout(120, 30), (3, 1, 0));
    // Two-column bars that would overrun the screen fall back to one column.
    assert_eq!(VisualizerDrawer::bar_layout(80, 30), (1, 0, 25));
    assert_eq!(VisualizerDrawer::bar_layout(80, 50), (1, 0, 15));
    assert_eq!(VisualizerDrawer::bar_layout(20, 30), (1, 0, 0));
    assert_eq!(VisualizerDrawer::bar_layout(100, 40), (1, 0, 30));
}

#[test]
fn removing_another_array_keeps_the_selection_on_it() {
    let mut m = ArrayManager::new();
    for name in ["a", "b", "c"] {
        m.add_array(ArrayData::new(vec![1], name.to_string()));
    }
    m.select_array(2);
    m.remove_array(0);
    assert_eq!(m.selected_index(), Some(1));
    assert_eq!(m.get_selected_array().unwrap().name, "c");
    m.remove_array(1);
    assert_eq!(m.selected_index(), None);
    assert!(m.get_selected_array().is_none());
    m.remove_array(7);
    assert_eq!(m.arrays().len(), 1);
}

#[test]
fn array_data_bounds_its_values() {
    let a = ArrayData::new(vec![7, 3, 9, 3], "x".to_string());
    assert_eq!(a.min_value, 3);
    assert_eq!(a.max_value, 9);
    assert_eq!(a.size, 4);
    let empty = ArrayData::new(vec![], "e".to_string());
    assert_eq!((empty.min_value, empty.max_value, empty.size), (0, 0, 0));
}

#[test]
fn dialog_left_undoes_right() {
    let mut d = show_question("Q", "m", vec!["a", "b", "c"]);
    for _ in 0..3 {
        let before = d.selected_button();
        d.handle_key(DialogKey::Right);
        d.handle_key(DialogKey::Left);
        assert_eq!(d.selected_button(), before);
        d.handle_key(DialogKey::Right);
    }
}

#[test]
fn menu_previous_undoes_next() {
    let mut m = MainMenu::new();
    m.handle_key(MenuKey::Down);
    for _ in 0..4 {
        let before = m.selected_category();
        m.handle_key(MenuKey::NextCategory);
        m.handle_key(MenuKey::PreviousCategory);
        assert_eq!(m.selected_category(), before);
        assert_eq!(m.selected_option(), 0);
        m.handle_key(MenuKey::NextCategory);
    }
}
