use algorithm_visualizer::array_manager::ArrayData;
use algorithm_visualizer::base_visualizer::{sort_controls_text, ControlKey};
use algorithm_visualizer::enums::SelectionState;
use algorithm_visualizer::heap_sort::{HeapPhase, HeapSortVisualizer};
use algorithm_visualizer::insertion_sort::InsertionSortVisualizer;
use algorithm_visualizer::merge_sort::{MergePhase, MergeSortVisualizer};
use algorithm_visualizer::quick_sort::QuickSortVisualizer;
use algorithm_visualizer::radix_sort::{RadixPhase, RadixSortVisualizer};
use algorithm_visualizer::colors::{TermColor, VisualizerDrawer};
use algorithm_visualizer::shell_sort::ShellSortVisualizer;

fn data(values: &[u32]) -> ArrayData {
    ArrayData::new(values.to_vec(), "Test".to_string())
}

fn sorted_copy(values: &[u32]) -> Vec<u32> {
    let mut v = values.to_vec();
    v.sort();
    v
}

const INPUTS: [&[u32]; 8] = [
    &[5, 2, 4, 1, 3],
    &[3, 1, 2],
    &[4, 3, 2, 1],
    &[1, 19, 17, 23, 953],
    &[845, 432, 10, 7, 0, 456, 19],
    &[7],
    &[],
    &[2, 2, 1, 1],
];

fn run_insertion(values: &[u32]) -> Vec<u32> {
    let mut v = InsertionSortVisualizer::new(&data(values));
    let mut steps = 0;
    while v.can_step() && v.step() {
        steps += 1;
        assert!(steps < 100_000);
    }
    v.array().clone()
}

fn run_quick(values: &[u32]) -> Vec<u32> {
    let mut v = QuickSortVisualizer::new(&data(values));
    let mut steps = 0;
    while v.can_step() && v.step() {
        steps += 1;
        assert!(steps < 100_000);
    }
    v.array().clone()
}

fn run_shell(values: &[u32]) -> Vec<u32> {
    let mut v = ShellSortVisualizer::new(&data(values));
    let mut steps = 0;
    while v.can_step() && v.step() {
        steps += 1;
        assert!(steps < 100_000);
    }
    v.array().clone()
}

fn run_heap(values: &[u32]) -> Vec<u32> {
    let mut v = HeapSortVisualizer::new(&data(values));
    let mut steps = 0;
    while v.can_step() && v.step() {
        steps += 1;
        assert!(steps < 100_000);
    }
    v.array().clone()
}

fn run_merge(values: &[u32]) -> Vec<u32> {
    let mut v = MergeSortVisualizer::new(&data(values));
    let mut steps = 0;
    while v.can_step() && v.step() {
        steps += 1;
        assert!(steps < 100_000);
    }
    v.array().clone()
}

fn run_radix(values: &[u32]) -> Vec<u32> {
    let mut v = RadixSortVisualizer::new(&data(values));
    let mut steps = 0;
    while v.can_step() && v.step() {
        steps += 1;
        assert!(steps < 100_000);
    }
    v.array().clone()
}

#[test]
fn insertion_sort_sorts_every_input() {
    for input in INPUTS {
        assert_eq!(run_insertion(input), sorted_copy(input));
    }
}

#[test]
fn quick_sort_sorts_every_input() {
    for input in INPUTS {
        assert_eq!(run_quick(input), sorted_copy(input));
    }
}

#[test]
fn shell_sort_sorts_every_input() {
    for input in INPUTS {
        assert_eq!(run_shell(input), sorted_copy(input));
    }
}

#[test]
fn radix_sort_sorts_every_input() {
    for input in INPUTS {
        assert_eq!(run_radix(input), sorted_copy(input));
    }
}

#[test]
fn heap_sort_sorts_short_inputs() {
    assert_eq!(run_heap(&[3, 1, 2]), vec![1, 2, 3]);
    assert_eq!(run_heap(&[4, 3, 2, 1]), vec![1, 2, 3, 4]);
    assert_eq!(run_heap(&[5, 2, 4, 1, 3]), vec![1, 2, 3, 4, 5]);
    assert_eq!(run_heap(&[2, 2, 1, 1]), vec![1, 1, 2, 2]);
    assert_eq!(run_heap(&[7]), vec![7]);
    assert_eq!(run_heap(&[]), Vec::<u32>::new());
}

#[test]
fn heap_sort_sorts_every_input() {
    for input in INPUTS {
        assert_eq!(run_heap(input), sorted_copy(input));
    }
    assert_eq!(run_heap(&[1, 19, 17, 23, 953]), vec![1, 17, 19, 23, 953]);
    assert_eq!(run_heap(&[1, 2, 3, 4, 5, 6, 7]), vec![1, 2, 3, 4, 5, 6, 7]);
}

#[test]
fn merge_sort_sorts_every_input() {
    for input in INPUTS {
        assert_eq!(run_merge(input), sorted_copy(input));
    }
    assert_eq!(run_merge(&[7, 6, 5, 4, 3, 2, 1]), vec![1, 2, 3, 4, 5, 6, 7]);
    let long: Vec<u32> = (0..13).rev().collect();
    assert_eq!(run_merge(&long), (0..13).collect::<Vec<u32>>());
}

#[test]
fn merge_sort_sorts_power_of_two_lengths() {
    assert_eq!(run_merge(&[4, 3, 2, 1]), vec![1, 2, 3, 4]);
    assert_eq!(run_merge(&[2, 2, 1, 1]), vec![1, 1, 2, 2]);
    assert_eq!(run_merge(&[5, 2, 4, 1, 3]), vec![1, 2, 3, 4, 5]);
}

#[test]
fn merge_sort_sorts_seven_elements() {
    let input = [845, 432, 10, 7, 0, 456, 19];
    let out = run_merge(&input);
    assert_eq!(out, vec![0, 7, 10, 19, 432, 456, 845]);
}

#[test]
fn short_arrays_start_completed() {
    let v = InsertionSortVisualizer::new(&data(&[9]));
    assert!(v.is_completed());
    assert_eq!(v.states().clone(), vec![SelectionState::Sorted]);
    let mut q = QuickSortVisualizer::new(&data(&[]));
    assert!(q.is_completed());
    assert!(!q.step());
}

#[test]
fn insertion_reset_restores_the_original_array() {
    let input = [5, 2, 4, 1, 3];
    let mut v = InsertionSortVisualizer::new(&data(&input));
    for _ in 0..6 {
        v.step();
    }
    assert!(v.comparisons() > 0);
    v.reset();
    assert_eq!(v.array().clone(), input.to_vec());
    assert_eq!(v.comparisons(), 0);
    assert_eq!(v.swaps(), 0);
    assert!(!v.is_completed());
}

#[test]
fn quick_sort_space_starts_and_pauses() {
    let mut v = QuickSortVisualizer::new(&data(&[3, 1, 2]));
    assert!(!v.is_running());
    assert!(v.handle_key(ControlKey::Space));
    assert!(v.is_running());
    assert!(!v.is_paused());
    assert!(v.wants_auto_step());
    assert!(v.handle_key(ControlKey::Space));
    assert!(v.is_paused());
    assert!(!v.wants_auto_step());
    assert!(!v.handle_key(ControlKey::Escape));
}

#[test]
fn auto_steps_finish_and_mark_everything_sorted() {
    let mut v = ShellSortVisualizer::new(&data(&[9, 8, 7, 6, 5, 4]));
    v.handle_key(ControlKey::Space);
    let mut guard = 0;
    while v.wants_auto_step() {
        v.auto_step();
        guard += 1;
        assert!(guard < 10_000);
    }
    assert!(v.is_completed());
    assert_eq!(v.array().clone(), vec![4, 5, 6, 7, 8, 9]);
    assert!(v.states().iter().all(|s| *s == SelectionState::Sorted));
}

#[test]
fn speed_keys_stay_within_limits() {
    let mut v = HeapSortVisualizer::new(&data(&[3, 1, 2]));
    let start = v.speed();
    v.handle_key(ControlKey::Faster);
    assert!(v.speed() < start);
    for _ in 0..100 {
        v.handle_key(ControlKey::Faster);
    }
    let fastest = v.speed();
    for _ in 0..200 {
        v.handle_key(ControlKey::Slower);
    }
    assert!(v.speed() > fastest);
    assert!(v.speed() <= 3000);
}

#[test]
fn radix_digit_helpers() {
    assert_eq!(RadixSortVisualizer::count_digits(0), 1);
    assert_eq!(RadixSortVisualizer::count_digits(9), 1);
    assert_eq!(RadixSortVisualizer::count_digits(10), 2);
    assert_eq!(RadixSortVisualizer::count_digits(953), 3);
    let v = RadixSortVisualizer::new(&data(&[953, 1]));
    assert_eq!(v.get_digit(953, 1), 3);
    assert_eq!(v.get_digit(953, 2), 5);
    assert_eq!(v.get_digit(953, 3), 9);
    assert_eq!(v.get_digit(953, 4), 0);
    assert_eq!(v.max_digits(), 3);
}

#[test]
fn operation_lines_at_the_start() {
    let values: &[u32] = &[5, 2, 4, 1, 3];
    assert_eq!(
        InsertionSortVisualizer::new(&data(values)).get_current_operation(),
        "Step 1/4: Selecting key element 1 (value: 2)"
    );
    assert_eq!(
        QuickSortVisualizer::new(&data(values)).get_current_operation(),
        "Partition [0..4]: Choosing pivot at index 4"
    );
    assert_eq!(
        ShellSortVisualizer::new(&data(values)).get_current_operation(),
        "Starting gap-4 insertion sort for group 0"
    );
    assert_eq!(
        HeapSortVisualizer::new(&data(values)).get_current_operation(),
        "Building max heap: heapifying subtree rooted at index 1"
    );
    assert_eq!(
        MergeSortVisualizer::new(&data(values)).get_current_operation(),
        "Merging pairs of size 1"
    );
    assert_eq!(
        RadixSortVisualizer::new(&data(values)).get_current_operation(),
        "Starting sorting pass for ones place (digit position 1)"
    );
}

#[test]
fn operation_lines_once_completed() {
    let values: &[u32] = &[7];
    assert_eq!(
        InsertionSortVisualizer::new(&data(values)).get_current_operation(),
        "✓ Array is now sorted using Insertion Sort!"
    );
    assert_eq!(QuickSortVisualizer::new(&data(values)).get_current_operation(), "✓ Array is now sorted!");
    assert_eq!(
        ShellSortVisualizer::new(&data(values)).get_current_operation(),
        "✓ Array is now sorted using Shell Sort!"
    );
    assert_eq!(
        HeapSortVisualizer::new(&data(values)).get_current_operation(),
        "✓ Array is now sorted using Heap Sort!"
    );
    assert_eq!(
        RadixSortVisualizer::new(&data(values)).get_current_operation(),
        "✓ Array is now sorted using Radix Sort!"
    );
}

#[test]
fn bar_colors_follow_each_sort() {
    let values: &[u32] = &[5, 2, 4, 1, 3];
    let plain = (TermColor::Cyan, TermColor::Reset);
    assert_eq!(InsertionSortVisualizer::new(&data(values)).bar_colors(1), plain);
    assert_eq!(QuickSortVisualizer::new(&data(values)).bar_colors(1), plain);
    assert_eq!(MergeSortVisualizer::new(&data(values)).bar_colors(1), plain);
    assert_eq!(HeapSortVisualizer::new(&data(values)).bar_colors(4), plain);
    let shell = ShellSortVisualizer::new(&data(values));
    assert_eq!(shell.bar_colors(0), (TermColor::Cyan, TermColor::DarkBlue));
    assert_eq!(shell.bar_colors(4), (TermColor::Cyan, TermColor::DarkBlue));
    assert_eq!(shell.bar_colors(1), plain);
    let radix = RadixSortVisualizer::new(&data(values));
    assert_eq!(radix.bar_colors(0), (TermColor::Ansi(51), TermColor::Reset));
    assert_eq!(radix.bar_colors(3), (TermColor::Ansi(196), TermColor::Reset));
    assert_eq!(
        VisualizerDrawer::get_pointer_colors(SelectionState::PartitionRight),
        (TermColor::Ansi(208), TermColor::DarkBlue)
    );
    assert_eq!(
        VisualizerDrawer::get_pointer_colors(SelectionState::PartitionLeft),
        (TermColor::Blue, TermColor::DarkBlue)
    );
    assert_eq!(VisualizerDrawer::get_digit_color(0), TermColor::Ansi(240));
    assert_eq!(VisualizerDrawer::get_digit_color(12), TermColor::Cyan);
}

#[test]
fn heap_structure_line() {
    let v = HeapSortVisualizer::new(&data(&[5, 2, 4, 1, 3]));
    assert_eq!(
        v.heap_structure_text().unwrap(),
        "Heap Size: 5 | Current: 1 | Left Child: 0 | Right Child: 0 | Largest: 0"
    );
}

#[test]
fn shell_gap_lines_and_links() {
    let v = ShellSortVisualizer::new(&data(&[5, 2, 4, 1, 3]));
    assert_eq!(v.gap_info_text(), "Gap: 4 | Group: 0 | Current Index: 4 | Insertion Point: 0");
    assert_eq!(v.gap_sequence_text(), "Gap Sequence: [4] 1 ");
    assert_eq!(v.group_links(), vec![(0, 4)]);
    assert_eq!(v.group_color(), TermColor::Blue);
    let long = ShellSortVisualizer::new(&data(&[9, 8, 7, 6, 5, 4, 3, 2, 1, 0, 11, 12, 13, 14]));
    assert_eq!(long.gap_sequence_text(), "Gap Sequence: [13] 4 1 ");
    assert_eq!(long.group_links(), vec![(0, 13)]);
    let done = ShellSortVisualizer::new(&data(&[7]));
    assert_eq!(done.gap_sequence_text(), "Gap Sequence: ");
    assert!(done.group_links().is_empty());
}

#[test]
fn radix_pass_lines() {
    let mut v = RadixSortVisualizer::new(&data(&[5, 2, 4, 1, 3]));
    assert_eq!(v.digit_info_text(), "Current Pass: Ones Place | Element: 5 | Digit Value: 0 | Index: 0");
    assert_eq!(v.bucket_title(), "Buckets (by ones place digit):");
    assert_eq!(v.count_cell(3), "[3: 0] ");
    let mut steps = 0;
    while v.phase() != RadixPhase::CalculatingPositions {
        assert!(v.step());
        steps += 1;
        assert!(steps < 100);
    }
    assert_eq!(v.count_cell(3), "[3: 1] ");
    assert_eq!(v.count_cell(0), "[0: 0] ");
    assert_eq!(v.bucket_shown(4), (vec![4], false));

    let mut many = RadixSortVisualizer::new(&data(&[1, 11, 21, 31, 41, 51, 61]));
    while many.phase() != RadixPhase::CalculatingPositions {
        assert!(many.step());
    }
    assert_eq!(many.bucket_shown(1), (vec![1, 11, 21, 31, 41, 51], true));
    assert_eq!(many.count_cell(1), "[1: 7] ");
}

#[test]
fn sort_controls_follow_completion() {
    assert_eq!(sort_controls_text(true), "SPACE: Restart | R: Reset | ESC: Exit");
    assert_eq!(sort_controls_text(false), "SPACE: Start/Pause | S: Step | R: Reset | +/-: Speed | ESC: Exit");
}

fn is_sorted(s: &[u32]) -> bool {
    s.windows(2).all(|w| w[0] <= w[1])
}

#[test]
fn merges_of_runs_in_order_leave_their_range_in_order() {
    for values in [&[845u32, 432, 10, 7, 0, 456, 19][..], &[5, 2, 4, 1, 3, 9, 8, 7][..], &[3, 1, 2][..]] {
        let mut v = MergeSortVisualizer::new(&data(values));
        let mut pending: Option<(usize, usize, bool)> = None;
        let mut merges = 0;
        let mut steps = 0;
        loop {
            let phase_before = v.phase();
            if !v.step() {
                break;
            }
            steps += 1;
            assert!(steps < 10_000);
            match (phase_before, v.phase()) {
                (MergePhase::MergePairs, MergePhase::MergingInit) => {
                    let (low, mid, high) = (v.low(), v.mid(), v.high());
                    let a = v.array();
                    let in_order = is_sorted(&a[low..=mid]) && is_sorted(&a[mid + 1..=high]);
                    pending = Some((low, high, in_order));
                }
                (MergePhase::DoneMerge, MergePhase::MergePairs) => {
                    let (low, high, in_order) = pending.take().unwrap();
                    if in_order {
                        assert!(is_sorted(&v.array()[low..=high]));
                        merges += 1;
                    }
                }
                _ => {}
            }
        }
        assert!(merges > 0);
    }
}

fn is_max_heap(a: &[u32]) -> bool {
    (0..a.len()).all(|p| {
        let l = 2 * p + 1;
        let r = 2 * p + 2;
        (l >= a.len() || a[l] <= a[p]) && (r >= a.len() || a[r] <= a[p])
    })
}

#[test]
fn heap_build_gives_a_max_heap_and_extraction_sorts() {
    let inputs: [&[u32]; 5] = [&[3, 1, 2], &[5, 2, 4, 1, 3], &[1, 2, 3, 4, 5, 6, 7], &[9, 9, 1, 1], &[1, 19, 17, 23, 953]];
    let mut heaps = 0;
    for values in inputs {
        let mut v = HeapSortVisualizer::new(&data(values));
        let mut built_heap = None;
        let mut steps = 0;
        loop {
            let before = v.phase();
            let more = v.step();
            steps += 1;
            assert!(steps < 10_000);
            if before == HeapPhase::BuildingMaxHeap && v.phase() == HeapPhase::ExtractingMax {
                built_heap = Some(is_max_heap(v.array()));
            }
            if !more {
                break;
            }
        }
        assert_eq!(built_heap, Some(true));
        heaps += 1;
        assert!(is_sorted(v.array()));
    }
    assert_eq!(heaps, 5);
}

#[test]
fn phase_labels() {
    let values: &[u32] = &[5, 2, 4, 1, 3];
    assert_eq!(HeapSortVisualizer::new(&data(values)).phase_label(), "Building Max Heap");
    assert_eq!(ShellSortVisualizer::new(&data(values)).phase_label(), "Starting Gap");
    assert_eq!(RadixSortVisualizer::new(&data(values)).phase_label(), "Starting Digit");
    assert_eq!(HeapSortVisualizer::new(&data(&[7])).phase_label(), "Done");
}

#[test]
fn quick_sort_marks_only_final_places() {
    for input in INPUTS {
        let expected = sorted_copy(input);
        let mut v = QuickSortVisualizer::new(&data(input));
        let mut steps = 0;
        loop {
            for (i, s) in v.states().iter().enumerate() {
                if *s == SelectionState::Sorted && !v.is_completed() {
                    assert_eq!(v.array()[i], expected[i]);
                }
            }
            if !v.step() {
                break;
            }
            steps += 1;
            assert!(steps < 10_000);
        }
    }
}

#[test]
fn radix_counts_one_comparison_and_one_move_per_element_and_digit() {
    for (values, digits) in [(&[5u32, 2, 4, 1, 3][..], 1u32), (&[10, 200, 3][..], 3), (&[99, 1][..], 2)] {
        let mut v = RadixSortVisualizer::new(&data(values));
        while v.step() {}
        assert_eq!(v.max_digits(), digits);
        let expected = values.len() as u32 * digits;
        assert_eq!(v.comparisons(), expected);
        assert_eq!(v.swaps(), expected);
        assert!(is_sorted(v.array()));
    }
}

#[test]
fn quick_sort_ends_with_every_element_marked() {
    for input in INPUTS {
        let mut v = QuickSortVisualizer::new(&data(input));
        if v.is_completed() {
            continue;
        }
        while v.step() {}
        assert!(v.stack().is_empty());
        assert!(v.states().iter().all(|s| *s == SelectionState::Sorted));
    }
}

#[test]
fn insertion_sort_shifts_once_per_inversion() {
    for input in INPUTS {
        let inversions = (0..input.len())
            .flat_map(|i| (i + 1..input.len()).map(move |j| (i, j)))
            .filter(|&(i, j)| input[i] > input[j])
            .count() as u32;
        let mut v = InsertionSortVisualizer::new(&data(input));
        while v.step() {}
        assert_eq!(v.swaps(), inversions);
    }
}
