use algorithm_visualizer::array_manager::ArrayData;
use algorithm_visualizer::base_visualizer::{ControlKey, SearchKeyOutcome};
use algorithm_visualizer::binary_search::{binary_search_questions, BinarySearchPhase, BinarySearchVisualizer};
use algorithm_visualizer::helper::randomize_questions;
use algorithm_visualizer::linear_search::{LinearSearchPhase, LinearSearchVisualizer};
use algorithm_visualizer::target_input::{default_target, target_prompt, TargetInput, TargetOutcome};
use algorithm_visualizer::text::TextKey;

fn data(values: &[u32]) -> ArrayData {
    ArrayData::new(values.to_vec(), "Search".to_string())
}

fn run_binary(values: &[u32], target: u32) -> BinarySearchVisualizer {
    let mut v = BinarySearchVisualizer::new(&data(values), target, 500, false);
    let mut guard = 0;
    while v.step() {
        guard += 1;
        if guard > 200 {
            break;
        }
    }
    v
}

fn run_linear(values: &[u32], target: u32) -> LinearSearchVisualizer {
    let mut v = LinearSearchVisualizer::new(&data(values), target, 500, false);
    let mut guard = 0;
    while v.step() {
        guard += 1;
        assert!(guard < 1000);
    }
    v
}

#[test]
fn binary_search_sorts_its_copy_first() {
    let v = BinarySearchVisualizer::new(&data(&[30, 10, 20]), 20, 500, false);
    assert_eq!(v.array().clone(), vec![10, 20, 30]);
    assert_eq!(v.low(), 0);
    assert_eq!(v.high(), 2);
}

#[test]
fn binary_search_finds_a_present_target() {
    let v = run_binary(&[5, 1, 9, 3, 7], 7);
    assert_eq!(v.phase(), BinarySearchPhase::Found);
    let f = v.found_index().unwrap();
    assert_eq!(v.array()[f], 7);
    assert_eq!(f, 3);
}

#[test]
fn binary_search_reports_an_absent_target_above_the_first() {
    let v = run_binary(&[2, 4, 6, 8], 5);
    assert_eq!(v.phase(), BinarySearchPhase::NotFound);
    assert_eq!(v.found_index(), None);
}

#[test]
fn binary_search_below_the_first_value_ends_not_found() {
    let v = run_binary(&[4, 6, 8], 1);
    assert_eq!(v.phase(), BinarySearchPhase::NotFound);
    assert_eq!(v.found_index(), None);
    let mut one = BinarySearchVisualizer::new(&data(&[5]), 3, 500, false);
    assert!(!one.step());
    assert_eq!(one.phase(), BinarySearchPhase::NotFound);
}

#[test]
fn binary_search_on_an_empty_array_is_completed() {
    let mut v = BinarySearchVisualizer::new(&data(&[]), 3, 500, false);
    assert!(v.state().completed);
    assert!(v.step());
}

#[test]
fn linear_search_finds_the_first_occurrence() {
    let v = run_linear(&[4, 7, 1, 7], 7);
    assert_eq!(v.phase(), LinearSearchPhase::Found);
    assert_eq!(v.found_index(), Some(1));
    assert_eq!(v.state().comparisons, 2);
}

#[test]
fn linear_search_reports_absence() {
    let v = run_linear(&[4, 7, 1], 9);
    assert_eq!(v.phase(), LinearSearchPhase::NotFound);
    assert_eq!(v.found_index(), None);
    assert_eq!(v.state().comparisons, 3);
}

#[test]
fn teaching_mode_asks_and_checks_answers() {
    // A question comes when the target is found.
    let mut v = LinearSearchVisualizer::new(&data(&[4, 7, 1]), 4, 500, true);
    assert!(v.step());
    let q = v.state().awaiting_question.expect("a question is pending");
    assert!(q < v.state().questions.len());
    // While the question is pending the search does not move.
    let before = v.current_i();
    assert!(v.step());
    assert_eq!(v.current_i(), before);
    let correct = v.state().questions[q].correct_index;
    assert_eq!(v.handle_key(ControlKey::Answer(correct)), SearchKeyOutcome::Feedback(true));
    assert!(v.state().awaiting_question.is_none());
}

#[test]
fn wrong_answer_gets_negative_feedback() {
    let mut v = BinarySearchVisualizer::new(&data(&[1, 2, 3]), 2, 500, true);
    assert!(v.step());
    let q = v.state().awaiting_question.unwrap();
    let wrong = (v.state().questions[q].correct_index + 1) % 3;
    assert_eq!(v.handle_key(ControlKey::Answer(wrong)), SearchKeyOutcome::Feedback(false));
}

#[test]
fn search_keys_report_what_to_do() {
    let mut v = LinearSearchVisualizer::new(&data(&[1, 2]), 2, 500, false);
    assert_eq!(v.handle_key(ControlKey::Teaching), SearchKeyOutcome::SettingsChanged);
    assert!(v.state().teaching_mode);
    assert_eq!(v.handle_key(ControlKey::Reset), SearchKeyOutcome::NewTarget);
    assert_eq!(v.handle_key(ControlKey::Faster), SearchKeyOutcome::SettingsChanged);
    assert_eq!(v.state().speed, 450);
    assert_eq!(v.handle_key(ControlKey::Escape), SearchKeyOutcome::Exit);
}

#[test]
fn reset_takes_a_new_target() {
    let mut v = run_linear(&[3, 8, 5], 8);
    assert_eq!(v.found_index(), Some(1));
    v.reset(5);
    assert_eq!(v.target(), 5);
    assert_eq!(v.found_index(), None);
    assert_eq!(v.phase(), LinearSearchPhase::Searching);
    while v.step() {}
    assert_eq!(v.found_index(), Some(2));
}

#[test]
fn binary_search_describes_its_steps() {
    let mut v = BinarySearchVisualizer::new(&data(&[1, 3, 5, 7, 9]), 7, 500, false);
    assert_eq!(v.get_status(), "READY");
    v.step();
    assert_eq!(v.get_current_operation(), "Binary search: low=3 mid=2(5) high=4, target=7");
    while v.step() {}
    assert_eq!(v.get_current_operation(), "Target 7 found at index 3!");
    assert!(v.get_intro_text().contains("\nTarget: 7\n"));
    assert!(v.get_intro_text().starts_with("What is Binary Search?\n\nBinary Search is an efficient"));
}

#[test]
fn binary_search_reports_a_miss() {
    let mut v = BinarySearchVisualizer::new(&data(&[2, 4]), 3, 500, false);
    while v.step() {}
    assert_eq!(v.get_current_operation(), "Target 3 not found after 2 comparisons.");
    assert_eq!(v.get_controls_text(), "SPACE: Start/Pause | S: Step | R: Reset | T: Teaching | +/-: Speed | ESC: Exit");
}

#[test]
fn linear_search_describes_its_steps() {
    let mut v = LinearSearchVisualizer::new(&data(&[4, 7]), 7, 500, false);
    assert_eq!(v.get_current_operation(), "Comparing with target");
    while v.step() {}
    assert_eq!(v.get_current_operation(), "Target found!");
    let mut w = LinearSearchVisualizer::new(&data(&[4]), 9, 500, false);
    while w.step() {}
    assert_eq!(w.get_current_operation(), "Target not found after checking all elements.");
    assert!(w.get_intro_text().contains("Target: 9"));
    assert_eq!(w.get_status(), "READY");
}

#[test]
fn search_phase_texts() {
    let b = BinarySearchVisualizer::new(&data(&[30, 10, 20]), 20, 500, false);
    assert_eq!(b.phase_text(), "Low: 0 High: 2 Mid: 0");
    let found = run_binary(&[30, 10, 20], 20);
    assert_eq!(found.phase(), BinarySearchPhase::Found);
    assert_eq!(found.phase_text(), "Found at index 1");
    let missing = run_binary(&[10, 20, 30], 25);
    assert_eq!(missing.phase_text(), "Not Found");

    let l = LinearSearchVisualizer::new(&data(&[4, 8, 15]), 8, 500, false);
    assert_eq!(l.phase_text(), "Searching");
    let found = run_linear(&[4, 8, 15], 8);
    assert_eq!(found.phase(), LinearSearchPhase::Found);
    assert_eq!(found.phase_text(), "Found at index 1");
    let missing = run_linear(&[4, 8, 15], 9);
    assert_eq!(missing.phase_text(), "Not Found");
}

#[test]
fn target_prompt_lists_the_values() {
    assert_eq!(
        target_prompt(&vec![10, 20, 30], true),
        "Enter the target value to search for (e.g., a number in the sorted array: 10, 20, 30): "
    );
    assert_eq!(
        target_prompt(&vec![7], false),
        "Enter the target value to search for (e.g., a number in the array: 7): "
    );
    assert_eq!(
        target_prompt(&vec![], false),
        "Enter the target value to search for (e.g., a number in the array: ): "
    );
}

#[test]
fn target_input_edits_and_parses() {
    let mut t = TargetInput::new();
    assert_eq!(t.handle_key(TextKey::Enter), TargetOutcome::Editing);
    assert_eq!(t.handle_key(TextKey::Char('4')), TargetOutcome::Editing);
    assert_eq!(t.handle_key(TextKey::Char('x')), TargetOutcome::Editing);
    assert_eq!(t.handle_key(TextKey::Char('2')), TargetOutcome::Editing);
    assert_eq!(t.input().clone(), vec!['4', '2']);
    assert_eq!(t.handle_key(TextKey::Backspace), TargetOutcome::Editing);
    assert_eq!(t.input().clone(), vec!['4']);
    assert_eq!(t.handle_key(TextKey::Enter), TargetOutcome::Chosen(4));
    assert_eq!(t.handle_key(TextKey::Escape), TargetOutcome::Cancelled);

    let mut big = TargetInput::new();
    for c in "4294967296".chars() {
        big.handle_key(TextKey::Char(c));
    }
    assert_eq!(big.handle_key(TextKey::Enter), TargetOutcome::Invalid);
    assert!(big.input().is_empty());
    for c in "4294967295".chars() {
        big.handle_key(TextKey::Char(c));
    }
    assert_eq!(big.handle_key(TextKey::Enter), TargetOutcome::Chosen(u32::MAX));
}

#[test]
fn default_target_is_the_middle_element() {
    assert_eq!(default_target(&vec![1, 2, 3, 4]), 3);
    assert_eq!(default_target(&vec![5]), 5);
    assert_eq!(default_target(&vec![]), 0);
}

#[test]
fn randomized_questions_keep_their_answers() {
    let before = binary_search_questions();
    let after = randomize_questions(before.clone());
    assert_eq!(after.len(), before.len());
    for q in &after {
        let original = before.iter().find(|b| b.text == q.text).expect("question kept");
        let mut got = q.options.clone();
        let mut want = original.options.clone();
        got.sort();
        want.sort();
        assert_eq!(got, want);
        assert_eq!(q.options[q.correct_index], original.options[0]);
        assert_eq!(q.explanation, original.explanation);
    }
    let mut texts: Vec<String> = after.iter().map(|q| q.text.clone()).collect();
    let mut expected: Vec<String> = before.iter().map(|q| q.text.clone()).collect();
    texts.sort();
    expected.sort();
    assert_eq!(texts, expected);
}

#[test]
fn randomized_questions_change_order() {
    let before = binary_search_questions();
    let changed = (0..20).any(|_| {
        let after = randomize_questions(before.clone());
        after.iter().zip(before.iter()).any(|(a, b)| a.text != b.text || a.options != b.options)
    });
    assert!(changed);
}

#[test]
fn binary_search_narrows_until_it_ends() {
    for target in [5, 10, 15, 20, 30, 35] {
        let mut v = BinarySearchVisualizer::new(&data(&[10, 20, 30]), target, 500, false);
        let mut span = v.high() as i64 - v.low() as i64;
        let mut steps = 0;
        while v.step() {
            steps += 1;
            if v.phase() != BinarySearchPhase::Searching {
                break;
            }
            let now = v.high() as i64 - v.low() as i64;
            assert!(now < span);
            span = now;
        }
        assert!(steps <= 3);
        assert_ne!(v.phase(), BinarySearchPhase::Searching);
    }
    // below the first element the search ends too
    let mut low = BinarySearchVisualizer::new(&data(&[10, 20, 30]), 5, 500, false);
    let mut steps = 0;
    while low.step() {
        steps += 1;
        assert!(steps <= 3);
    }
    assert_eq!(low.phase(), BinarySearchPhase::NotFound);
}

#[test]
fn linear_search_counts_its_comparisons() {
    let found = run_linear(&[4, 8, 15, 16], 15);
    assert_eq!(found.state().comparisons, 3);
    let absent = run_linear(&[4, 8, 15, 16], 7);
    assert_eq!(absent.state().comparisons, 4);
}
