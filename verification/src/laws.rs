use vstd::prelude::*;
use crate::array_manager::{ArrayManagerView, seq_max, seq_min, selection_after_remove};
use crate::array_screens::{
    MAX_ARRAY_SIZE, MIN_ARRAY_SIZE, ManualDialogView, ManualResult, RandomDialogView,
    ManagerAction, accepted_size, after_name, manager_key, manual_key, manual_wf, random_request, screen_wf,
};
use crate::base_visualizer::{ControlKey, SearchKeyOutcome, VisualizerState, asked, faster_speed, slower_speed};
use crate::dialog::{DialogKey, DialogView, dialog_key, dialog_wf};
use crate::menu::{MainMenuView, MenuKey, main_menu_table, menu_key, menu_wf, option_description};
use crate::settings::{
    MAX_SPEED_SETTING, MIN_SPEED_SETTING, SETTINGS_OPTIONS, SpeedInputView, SpeedOutcome, accepted_speed,
    settings_key, speed_key,
};
use crate::text::{
    TextKey, all_digits, decimal_text, digit_char, digits_value, is_digit, parse_unsigned, trimmed,
    unsigned_digits,
};
use crate::linear_search::{LinearSearchPhase, LinearSearchView, linear_start};
use crate::shell_sort::ShellView;
use crate::insertion_sort::{InsertionPhase, InsertionView, insertion_start};
use crate::radix_sort::{RadixPhase, RadixView, decimal_digits, digit_at, radix_start};
use crate::quick_sort::{QuickPhase, QuickView, cut, quick_start, range_total};
use crate::enums::SelectionState;
use crate::binary_search::{BinarySearchPhase, BinarySearchView};
use crate::merge_sort::{MergePhase, MergeView, run_end, runs_sorted};
use vstd::arithmetic::div_mod::{lemma_fundamental_div_mod, lemma_mod_multiples_basic};
use crate::sequences::{permutation, lemma_place_in_order, inversions, lemma_inversions_swap, lemma_sorted_no_inversions, lex_before, sorted, swap_next, swapped};
use crate::heap_sort::{HeapPhase, HeapView, heap_but, heap_but_from, max_heap, node_ok};

verus! {

/// An array's recorded minimum and maximum bound all its values, and both occur in it.
pub proof fn law_array_bounds(data: Seq<u32>)
    requires
        data.len() > 0,
    ensures
        forall|i: int| 0 <= i < data.len() ==> seq_min(data) <= #[trigger] data[i] <= seq_max(data),
        data.contains(seq_min(data)),
        data.contains(seq_max(data)),
    decreases data.len(),
{
    if data.len() > 1 {
        let rest = data.drop_last();
        law_array_bounds(rest);
        assert forall|i: int| 0 <= i < data.len() implies seq_min(data) <= #[trigger] data[i] <= seq_max(
            data,
        ) by {
            if i < data.len() - 1 {
                assert(data[i] == rest[i]);
            }
        }
        if seq_min(data) != data.last() {
            let k = choose|k: int| 0 <= k < rest.len() && rest[k] == seq_min(rest);
            assert(data[k] == seq_min(data));
        }
        if seq_max(data) != data.last() {
            let k = choose|k: int| 0 <= k < rest.len() && rest[k] == seq_max(rest);
            assert(data[k] == seq_max(data));
        }
        assert(data[data.len() - 1] == data.last());
    } else {
        assert(data[0] == seq_min(data));
    }
}

/// Removing an array other than the selected one keeps the same array selected.
pub proof fn law_remove_keeps_selected_array(m: ArrayManagerView, index: usize, selected: usize)
    requires
        index < m.arrays.len(),
        m.selected_index == Some(selected),
        selected < m.arrays.len(),
        selected != index,
    ensures
        ({
            let after = selection_after_remove(m.selected_index, index);
            after matches Some(s) && s < m.arrays.remove(index as int).len() && m.arrays.remove(
                index as int,
            )[s as int] == m.arrays[selected as int]
        }),
{
}

/// Removing the selected array leaves nothing selected.
pub proof fn law_remove_selected_clears(m: ArrayManagerView, index: usize)
    requires
        m.selected_index == Some(index),
    ensures
        selection_after_remove(m.selected_index, index) is None,
{
}

/// Faster and slower keep a delay that lies between the two limits between them.
pub proof fn law_speed_stays_in_range(speed: u64, min_speed: u64, max_speed: u64)
    requires
        min_speed <= speed <= max_speed,
    ensures
        min_speed <= faster_speed(speed, min_speed) <= max_speed,
        min_speed <= slower_speed(speed, 50, max_speed) <= max_speed,
{
}

/// A question asked is one of the questions.
pub proof fn law_asked_question_exists(s: VisualizerState, step: int)
    requires
        step >= 0,
        s.awaiting_question is None,
    ensures
        asked(s, step).awaiting_question matches Some(q) ==> q < s.questions@.len(),
{
}

/// In a dialog with buttons, moving the highlight left undoes moving it right.
pub proof fn law_dialog_left_undoes_right(d: DialogView)
    requires
        dialog_wf(d),
        0 < d.buttons.len() <= usize::MAX,
    ensures
        dialog_key(dialog_key(d, DialogKey::Right).0, DialogKey::Left).0 == d,
        dialog_wf(dialog_key(d, DialogKey::Right).0),
{
    let n = d.buttons.len();
    let s = d.selected_button as nat;
    if s + 1 < n {
        assert((d.selected_button + 1) % (n as int) == d.selected_button + 1) by (nonlinear_arith)
            requires
                0 <= d.selected_button + 1 < n,
        ;
    } else {
        assert((d.selected_button + 1) % (n as int) == 0) by (nonlinear_arith)
            requires
                d.selected_button + 1 == n,
                n > 0,
        ;
    }
}

/// ENTER and ESC close a dialog with buttons on one of its buttons, ESC on the last; no
/// key closes it on an index past its buttons.
pub proof fn law_dialog_choice_is_a_button(d: DialogView, key: DialogKey)
    requires
        dialog_wf(d),
        d.buttons.len() > 0,
    ensures
        dialog_key(d, DialogKey::Enter).1 matches Some(b) && b < d.buttons.len(),
        dialog_key(d, DialogKey::Escape).1 == Some((d.buttons.len() - 1) as usize),
        dialog_key(d, key).1 matches Some(b) ==> b < d.buttons.len(),
{
}

/// Going to the previous group of the menu undoes going to the next one, with the
/// group's first entry highlighted.
pub proof fn law_menu_previous_undoes_next(m: MainMenuView)
    requires
        menu_wf(m),
    ensures
        menu_key(menu_key(m, MenuKey::NextCategory).0, MenuKey::PreviousCategory).0 == (MainMenuView {
            selected_option: 0,
            ..m
        }),
{
    let n = m.categories.len();
    let c = m.selected_category as nat;
    if c + 1 < n {
        vstd::arithmetic::div_mod::lemma_small_mod(c + 1, n);
    } else {
        assert((c + 1) % n == 0) by (nonlinear_arith)
            requires
                c + 1 == n,
                n > 0,
        ;
    }
}

/// In the main menu, a digit key from 1 to 9 highlights the entry with that number, so
/// that ENTER then chooses it.
pub proof fn law_menu_digit_selects_entry(m: MainMenuView, d: u32)
    requires
        m.categories == main_menu_table(),
        menu_wf(m),
        1 <= d <= 9,
    ensures
        ({
            let after = menu_key(m, MenuKey::Digit(d)).0;
            &&& menu_wf(after)
            &&& menu_key(after, MenuKey::Enter).1 == Some(d)
        }),
{
    let t = main_menu_table();
    let c: int = if d == 1 {
        0
    } else if d <= 3 {
        1
    } else {
        2
    };
    let o: int = if d == 1 {
        0
    } else if d <= 3 {
        d - 2
    } else {
        d - 4
    };
    crate::menu::lemma_first_with_id_at(t[c].1, d, o);
    assert forall|c2: int| 0 <= c2 < t.len() && c2 != c implies (#[trigger] crate::menu::first_with_id(
        t[c2].1,
        d,
    )) is None by {
        crate::menu::lemma_first_with_id_none(t[c2].1, d);
    }
    crate::menu::lemma_find_option_last(t, d);
    assert(crate::menu::find_option(t, d) == Some((c, o)));
}

/// Moving the settings highlight up undoes moving it down.
pub proof fn law_settings_up_undoes_down(selection: u32, teaching_mode: bool)
    requires
        selection < SETTINGS_OPTIONS,
    ensures
        ({
            let down = settings_key(selection, teaching_mode, TextKey::Down);
            settings_key(down.0, down.1, TextKey::Up) == (selection, teaching_mode, crate::settings::SettingsAction::Continue)
        }),
{
}

/// Choosing the teaching-mode entry twice restores the teaching mode.
pub proof fn law_teaching_toggle_twice(teaching_mode: bool)
    ensures
        ({
            let once = settings_key(1, teaching_mode, TextKey::Enter);
            settings_key(once.0, once.1, TextKey::Enter).1 == teaching_mode
        }),
{
}

/// An accepted speed is one from 100 to 3000 ms.
pub proof fn law_accepted_speed_in_range(input: Seq<char>)
    ensures
        accepted_speed(input) matches Some(s) ==> MIN_SPEED_SETTING <= s <= MAX_SPEED_SETTING,
{
}

/// A random array is asked for with a size from 2 to 50.
pub proof fn law_random_request_size(v: RandomDialogView)
    ensures
        random_request(v) matches Some((n, _)) ==> MIN_ARRAY_SIZE <= n <= MAX_ARRAY_SIZE,
{
}

/// An array typed in has as many values as the size given first, from 2 to 50.
pub proof fn law_manual_array_has_its_size(v: ManualDialogView, key: TextKey)
    requires
        manual_wf(v),
    ensures
        manual_key(v, key).1 matches ManualResult::Created(values, _) ==> values.len() == v.array_size
            && MIN_ARRAY_SIZE <= values.len() <= MAX_ARRAY_SIZE,
{
}

/// A merge starts with nothing merged yet, from runs copied out of the array: the copies
/// are in order exactly when the array's two runs were.
pub proof fn law_merge_starts_in_order(pre: MergeView, post: MergeView)
    requires
        pre.inv(),
        pre.phase == MergePhase::MergePairs,
        pre.step_to(post, true),
    ensures
        post.merged_in_order(),
        post.runs_in_order() == (sorted(pre.array.subrange(post.low, post.mid + 1)) && sorted(
            pre.array.subrange(post.mid + 1, post.high + 1),
        )),
{
    assert(post.array.subrange(post.low, post.k) =~= Seq::<u32>::empty());
    assert(post.temp.subrange(post.low, post.mid + 1) =~= pre.array.subrange(post.low, post.mid + 1));
    assert(post.temp.subrange(post.mid + 1, post.high + 1) =~= pre.array.subrange(post.mid + 1, post.high + 1));
}

/// Each step of a merge of two runs in order keeps the merged prefix in order and no value
/// in it larger than a value still left to merge.
pub proof fn law_merge_step_keeps_order(pre: MergeView, post: MergeView, ret: bool)
    requires
        pre.inv(),
        pre.phase == MergePhase::MergingInit || pre.phase == MergePhase::MergingStep,
        pre.runs_in_order(),
        pre.merged_in_order(),
        pre.step_to(post, ret),
    ensures
        post.runs_in_order(),
        post.merged_in_order(),
{
    assert(post.temp == pre.temp);
    assert(post.low == pre.low && post.mid == pre.mid && post.high == pre.high);
    if pre.phase == MergePhase::MergingStep && !(pre.i > pre.mid && pre.j > pre.high) {
        let a = pre.array;
        let t = pre.temp;
        let left = pre.temp.subrange(pre.low, pre.mid + 1);
        let right = pre.temp.subrange(pre.mid + 1, pre.high + 1);
        let from_left = pre.i <= pre.mid && (pre.j > pre.high || t[pre.i] <= t[pre.j]);
        let src = if from_left { pre.i } else { pre.j };
        assert(post.array == a.update(pre.k, t[src]));
        assert(post.k == pre.k + 1);
        assert(pre.k <= pre.high);
        // the value taken is no larger than any value left after it
        assert forall|y: int| (post.i <= y <= post.mid) || (post.j <= y <= post.high) implies t[src] <= t[y] by {
            if from_left {
                if y <= pre.mid {
                    assert(left[pre.i - pre.low] <= left[y - pre.low]);
                } else {
                    assert(right[pre.j - (pre.mid + 1)] <= right[y - (pre.mid + 1)]);
                }
            } else {
                if y <= pre.mid {
                    assert(t[pre.i] > t[pre.j]);
                    assert(left[pre.i - pre.low] <= left[y - pre.low]);
                } else {
                    assert(right[pre.j - (pre.mid + 1)] <= right[y - (pre.mid + 1)]);
                }
            }
        }
        // the merged prefix is no larger than the value taken
        assert forall|x: int| pre.low <= x < pre.k implies a[x] <= t[src] by {
            assert(a[x] <= t[src]);
        }
        let merged = post.array.subrange(post.low, post.k);
        assert forall|p: int, q: int| 0 <= p <= q < merged.len() implies merged[p] <= merged[q] by {
            let before = a.subrange(pre.low, pre.k);
            if q < merged.len() - 1 {
                assert(merged[p] == before[p] && merged[q] == before[q]);
            } else if p < q {
                assert(merged[p] == a[pre.low + p]);
                assert(merged[q] == t[src]);
            }
        }
        assert forall|x: int, y: int|
            post.low <= x < post.k && ((post.i <= y <= post.mid) || (post.j <= y <= post.high)) implies
            #[trigger] post.array[x] <= #[trigger] post.temp[y] by {
            if x < pre.k {
                assert(post.array[x] == a[x]);
                assert(a[x] <= t[y]);
            } else {
                assert(post.array[x] == t[src]);
            }
        }
    }
}

/// When the merge of two runs in order is done, the whole range it covered is in order.
pub proof fn law_finished_merge_is_sorted(pre: MergeView, post: MergeView, ret: bool)
    requires
        pre.inv(),
        pre.phase == MergePhase::DoneMerge,
        pre.runs_in_order(),
        pre.merged_in_order(),
        pre.step_to(post, ret),
    ensures
        sorted(post.array.subrange(pre.low, pre.high + 1)),
{
    assert(pre.k == pre.high + 1);
    assert(post.array == pre.array);
}

/// The root of a max heap is its largest value.
pub proof fn lemma_heap_root_max(a: Seq<u32>, h: int, x: int)
    requires
        max_heap(a, h),
        0 <= x < h,
        h <= a.len(),
    ensures
        a[x] <= a[0],
    decreases x,
{
    if x > 0 {
        let p = (x - 1) / 2;
        assert(node_ok(a, h, p));
        lemma_heap_root_max(a, h, p);
    }
}

/// The values before `h` are no larger than those from `h` on, which are in order; a swap
/// inside the first `h` positions keeps that.
proof fn lemma_suffix_after_swap(a: Seq<u32>, h: int, i: int, j: int)
    requires
        0 <= i < h,
        0 <= j < h,
        h <= a.len(),
        sorted(a.subrange(h, a.len() as int)),
        forall|x: int, y: int| 0 <= x < h <= y < a.len() ==> a[x] <= a[y],
    ensures
        sorted(swapped(a, i, j).subrange(h, a.len() as int)),
        forall|x: int, y: int| 0 <= x < h <= y < a.len() ==> swapped(a, i, j)[x] <= swapped(a, i, j)[y],
{
    let b = swapped(a, i, j);
    assert(b.subrange(h, a.len() as int) =~= a.subrange(h, a.len() as int));
    assert forall|x: int, y: int| 0 <= x < h <= y < a.len() implies b[x] <= b[y] by {
        assert(b[y] == a[y]);
        if x == i {
            assert(b[x] == a[j]);
        } else if x == j {
            assert(b[x] == a[i]);
        } else {
            assert(b[x] == a[x]);
        }
    }
}

/// A sift-down step at `c` that swaps `c` with its larger child `lg` leaves the order from
/// `b` on kept but for `lg`.
proof fn lemma_sift_swap(a: Seq<u32>, h: int, c: int, lg: int, b: int)
    requires
        h <= a.len(),
        0 <= b <= c < h,
        heap_but_from(a, h, c, b),
        lg == 2 * c + 1 || lg == 2 * c + 2,
        lg < h,
        a[lg] > a[c],
        2 * c + 1 < h ==> a[2 * c + 1] <= a[lg],
        2 * c + 2 < h ==> a[2 * c + 2] <= a[lg],
    ensures
        heap_but_from(swapped(a, c, lg), h, lg, b),
{
    let from = b;
    let b = swapped(a, c, lg);
    assert(b[c] == a[lg] && b[lg] == a[c]);
    assert forall|p: int| from <= p < h && p != lg implies #[trigger] node_ok(b, h, p) by {
        if p == c {
            if 2 * c + 1 < h {
                assert(b[2 * c + 1] <= b[c]);
            }
            if 2 * c + 2 < h {
                assert(b[2 * c + 2] <= b[c]);
            }
        } else if c > from && p == (c - 1) / 2 {
            assert(node_ok(a, h, p));
            assert(b[p] == a[p]);
            if 2 * p + 1 < h {
                if 2 * p + 1 == c {
                    assert(b[2 * p + 1] == a[lg]);
                } else {
                    assert(b[2 * p + 1] == a[2 * p + 1]);
                }
            }
            if 2 * p + 2 < h {
                if 2 * p + 2 == c {
                    assert(b[2 * p + 2] == a[lg]);
                } else {
                    assert(b[2 * p + 2] == a[2 * p + 2]);
                }
            }
        } else {
            assert(node_ok(a, h, p));
            assert(b[p] == a[p]);
            if 2 * p + 1 < h {
                assert(b[2 * p + 1] == a[2 * p + 1]);
            }
            if 2 * p + 2 < h {
                assert(b[2 * p + 2] == a[2 * p + 2]);
            }
        }
    }
    assert(node_ok(a, h, lg));
    assert((lg - 1) / 2 == c);
    if 2 * lg + 1 < h {
        assert(b[2 * lg + 1] == a[2 * lg + 1]);
    }
    if 2 * lg + 2 < h {
        assert(b[2 * lg + 2] == a[2 * lg + 2]);
    }
}

/// Once the build phase leaves a max heap of the whole array, extraction starts in order.
pub proof fn law_heap_extraction_starts(pre: HeapView, post: HeapView, ret: bool)
    requires
        pre.inv(),
        pre.phase == HeapPhase::BuildingMaxHeap,
        pre.build_heap_index < 0,
        pre.heap_size == pre.array.len(),
        max_heap(pre.array, pre.heap_size),
        pre.step_to(post, ret),
    ensures
        post.extraction_in_order(),
{
    let n = pre.array.len() as int;
    assert(post.array == pre.array && post.heap_size == n);
    assert(post.array.subrange(n, n) =~= Seq::<u32>::empty());
}

/// Every step of the extraction phase keeps it in order.
pub proof fn law_heap_extraction_step(pre: HeapView, post: HeapView, ret: bool)
    requires
        pre.inv(),
        pre.extraction_in_order(),
        pre.step_to(post, ret),
    ensures
        post.extraction_in_order(),
{
    let a = pre.array;
    let n = a.len() as int;
    let hs = pre.heap_size;
    match pre.phase {
        HeapPhase::ExtractingMax => {
            if hs <= 1 {
                assert forall|p: int, q: int| 0 <= p <= q < n implies a.subrange(0, n)[p] <= a.subrange(0, n)[q] by {
                    if p < hs {
                        assert(a[p] <= a[q] || p == q);
                    } else {
                        assert(a.subrange(hs, n)[p - hs] <= a.subrange(hs, n)[q - hs]);
                    }
                }
                assert(post.array == a);
            }
        },
        HeapPhase::SwappingRootWithLast => {
            if hs > 1 && hs <= n {
                let b = swapped(a, 0, hs - 1);
                let h = hs - 1;
                assert(post.array == b && post.heap_size == h && post.current_index == 0);
                lemma_suffix_after_swap(a, hs, 0, hs - 1);
                assert forall|x: int| 0 <= x < hs implies #[trigger] a[x] <= a[0] by {
                    lemma_heap_root_max(a, hs, x);
                }
                // the new last value of the suffix is the heap's largest
                assert forall|p: int, q: int| 0 <= p <= q < n - h implies b.subrange(h, n)[p] <= b.subrange(h, n)[q] by {
                    if p == 0 {
                        assert(b.subrange(h, n)[p] == a[0]);
                        if q > 0 {
                            assert(b.subrange(h, n)[q] == a[h + q]);
                            assert(a[0] <= a[h + q]);
                        }
                    } else {
                        assert(b.subrange(hs, n)[p - 1] <= b.subrange(hs, n)[q - 1]);
                    }
                }
                assert forall|x: int, y: int| 0 <= x < h <= y < n implies b[x] <= b[y] by {
                    if y == h {
                        assert(b[y] == a[0]);
                        if x == 0 {
                            assert(b[x] == a[hs - 1]);
                        } else {
                            assert(b[x] == a[x]);
                        }
                    }
                }
                assert forall|p: int| 0 <= p < h && p != 0 implies #[trigger] node_ok(b, h, p) by {
                    assert(node_ok(a, hs, p));
                    assert(b[p] == a[p]);
                    if 2 * p + 1 < h {
                        assert(b[2 * p + 1] == a[2 * p + 1]);
                    }
                    if 2 * p + 2 < h {
                        assert(b[2 * p + 2] == a[2 * p + 2]);
                    }
                }
            }
        },
        HeapPhase::HeapifyDown => {
            let c = pre.current_index;
            let left = 2 * c + 1;
            let right = 2 * c + 2;
            let lg1 = if left < hs && a[left] > a[c] { left } else { c };
            let lg = if right < hs && a[right] > a[lg1] { right } else { lg1 };
            if lg == c {
                assert(post.array == a);
                assert forall|p: int| 0 <= p < hs implies #[trigger] node_ok(a, hs, p) by {
                    if p != c {
                        assert(node_ok(a, hs, p));
                    }
                }
            } else {
                assert(post.array == swapped(a, c, lg));
                lemma_sift_swap(a, hs, c, lg, 0);
                lemma_suffix_after_swap(a, hs, c, lg);
                if !(2 * lg + 1 < hs) {
                    let b = swapped(a, c, lg);
                    assert forall|p: int| 0 <= p < hs implies #[trigger] node_ok(b, hs, p) by {
                        if p != lg {
                            assert(node_ok(b, hs, p));
                        }
                    }
                }
            }
        },
        _ => {},
    }
}

/// A finished extraction that stayed in order leaves the whole array in order.
pub proof fn law_heap_extraction_ends_sorted(v: HeapView)
    requires
        v.inv(),
        v.extraction_in_order(),
        v.phase == HeapPhase::Done,
    ensures
        sorted(v.array),
{
    let a = v.array;
    let n = a.len() as int;
    let h = v.heap_size;
    assert forall|p: int, q: int| 0 <= p <= q < n implies a[p] <= a[q] by {
        if p < h {
            if p < q {
                assert(a[p] <= a[q]);
            }
        } else {
            assert(a.subrange(h, n)[p - h] <= a.subrange(h, n)[q - h]);
        }
    }
}

/// `x` is `m` times `j`, so a multiple of `m`.
proof fn lemma_multiple(x: int, m: int, j: int)
    requires
        m > 0,
        x == m * j,
    ensures
        x % m == 0,
{
    lemma_mod_multiples_basic(j, m);
    assert(j * m == m * j) by (nonlinear_arith);
}

/// A multiple of `m` is `m` times its quotient.
proof fn lemma_quotient(x: int, m: int)
    requires
        m > 0,
        x % m == 0,
    ensures
        x == m * (x / m),
{
    lemma_fundamental_div_mod(x, m);
}

/// A run of `s` values that starts at a multiple of `s` below `n`, where `n` is a multiple
/// of `s`, ends by `n`.
proof fn lemma_run_fits(q: int, s: int, n: int)
    requires
        s >= 1,
        0 <= q < n,
        q % s == 0,
        n % s == 0,
    ensures
        q + s <= n,
{
    lemma_quotient(q, s);
    lemma_quotient(n, s);
    let a = q / s;
    let b = n / s;
    assert(q + s <= n) by (nonlinear_arith)
        requires
            q == s * a,
            n == s * b,
            q < n,
            s >= 1,
    ;
}

/// No multiple of `m` lies strictly between a multiple `p` and `p + m`.
proof fn lemma_no_multiple_between(p: int, q: int, m: int)
    requires
        m >= 1,
        p % m == 0,
        p < q < p + m,
    ensures
        q % m != 0,
{
    if q % m == 0 {
        lemma_quotient(p, m);
        lemma_quotient(q, m);
        let a = p / m;
        let c = q / m;
        assert(false) by (nonlinear_arith)
            requires
                p == m * a,
                q == m * c,
                p < q,
                q < p + m,
                m >= 1,
        ;
    }
}

/// A multiple `p` of `2 * s` is a multiple of `s`, so is `p + s`, and `p + 2 * s` is the
/// next multiple of `2 * s`.
proof fn lemma_halves(p: int, s: int)
    requires
        s >= 1,
        p % (2 * s) == 0,
    ensures
        p % s == 0,
        (p + s) % s == 0,
        (p + 2 * s) % (2 * s) == 0,
{
    lemma_quotient(p, 2 * s);
    let j = p / (2 * s);
    assert(p == s * (2 * j)) by (nonlinear_arith)
        requires
            p == (2 * s) * j,
    ;
    lemma_multiple(p, s, 2 * j);
    assert(p + s == s * (2 * j + 1)) by (nonlinear_arith)
        requires
            p == s * (2 * j),
    ;
    lemma_multiple(p + s, s, 2 * j + 1);
    assert(p + 2 * s == (2 * s) * (j + 1)) by (nonlinear_arith)
        requires
            p == (2 * s) * j,
    ;
    lemma_multiple(p + 2 * s, 2 * s, j + 1);
}

/// A merge step writes inside the pair only, so the runs on either side stay as they were.
proof fn lemma_runs_outside_pair(a: Seq<u32>, b: Seq<u32>, p: int, s: int, n: int, k: int)
    requires
        s >= 1,
        a.len() == n,
        b.len() == n,
        p % (2 * s) == 0,
        0 <= p <= k < p + 2 * s,
        k < n,
        forall|x: int| 0 <= x < n && x != k ==> b[x] == a[x],
        runs_sorted(a, 2 * s, 0, p),
        runs_sorted(a, s, p + 2 * s, n),
    ensures
        runs_sorted(b, 2 * s, 0, p),
        runs_sorted(b, s, p + 2 * s, n),
{
    assert forall|q: int| 0 <= q < p && q < n && q % (2 * s) == 0 implies #[trigger] sorted(
        b.subrange(q, run_end(q, 2 * s, n)),
    ) by {
        lemma_run_fits(q, 2 * s, p);
        assert(sorted(a.subrange(q, run_end(q, 2 * s, n))));
        assert(b.subrange(q, run_end(q, 2 * s, n)) =~= a.subrange(q, run_end(q, 2 * s, n)));
    }
    assert forall|q: int| p + 2 * s <= q < n && q < n && q % s == 0 implies #[trigger] sorted(
        b.subrange(q, run_end(q, s, n)),
    ) by {
        assert(sorted(a.subrange(q, run_end(q, s, n))));
        assert(b.subrange(q, run_end(q, s, n)) =~= a.subrange(q, run_end(q, s, n)));
    }
}

/// Every step of merge sort keeps its runs in order, and the step that ends the sort
/// leaves the whole array in order.
pub proof fn law_merge_pass_step(pre: MergeView, post: MergeView, ret: bool)
    requires
        pre.inv(),
        pre.pass_in_order(),
        pre.step_to(post, ret),
    ensures
        post.pass_in_order(),
        !ret ==> sorted(post.array),
{
    let a = pre.array;
    let n = a.len() as int;
    let s = pre.current_size;
    let p = pre.current_pair_start;
    lemma_halves(p, s);
    if pre.phase == MergePhase::MergePairs {
        if p + s < n {
            // the next pair of runs of this size
            assert(sorted(a.subrange(p, run_end(p, s, n))));
            assert(sorted(a.subrange(p + s, run_end(p + s, s, n))));
            assert(run_end(p, s, n) == p + s);
            assert(run_end(p + s, s, n) == run_end(p, 2 * s, n));
            assert(post.low == p && post.mid == p + s - 1 && post.high == run_end(p, 2 * s, n) - 1);
            assert(post.temp.subrange(post.low, post.mid + 1) =~= a.subrange(p, p + s));
            assert(post.temp.subrange(post.mid + 1, post.high + 1) =~= a.subrange(p + s, run_end(p, 2 * s, n)));
            law_merge_starts_in_order(pre, post);
            assert forall|q: int| p + 2 * s <= q < n && q < n && q % s == 0 implies #[trigger] sorted(
                post.array.subrange(q, run_end(q, s, n)),
            ) by {
                assert(sorted(a.subrange(q, run_end(q, s, n))));
            }
        } else {
            // the pass is over: every run of twice the size is in order
            assert forall|q: int| 0 <= q < n && q < n && q % (2 * s) == 0 implies #[trigger] sorted(
                a.subrange(q, run_end(q, 2 * s, n)),
            ) by {
                if q >= p {
                    if q > p {
                        lemma_no_multiple_between(p, q, 2 * s);
                    }
                    assert(sorted(a.subrange(p, run_end(p, s, n))));
                    assert(run_end(p, s, n) == n && run_end(p, 2 * s, n) == n);
                } else {
                    assert(sorted(a.subrange(q, run_end(q, 2 * s, n))));
                }
            }
            let big = 2 * s;
            assert(0int % (2 * big) == 0) by (nonlinear_arith)
                requires
                    big >= 1,
            ;
            if big >= n {
                if n > 0 {
                    assert(0int % big == 0) by (nonlinear_arith)
                        requires
                            big >= 1,
                    ;
                    assert(sorted(a.subrange(0, run_end(0, big, n))));
                    assert(a.subrange(0, n) =~= a);
                }
                assert(post.array == a && post.current_size == big && post.current_pair_start == 0);
            } else {
                // the first pair of runs of twice the size
                assert(0int % big == 0) by (nonlinear_arith)
                    requires
                        big >= 1,
                ;
                lemma_multiple(big, big, 1);
                assert(sorted(a.subrange(0, run_end(0, big, n))));
                assert(sorted(a.subrange(big, run_end(big, big, n))));
                assert(run_end(0, big, n) == big);
                assert(run_end(big, big, n) == run_end(0, 2 * big, n));
                assert(post.current_size == big && post.current_pair_start == 0);
                assert(post.low == 0 && post.mid == big - 1 && post.high == run_end(0, 2 * big, n) - 1);
                assert(post.temp.subrange(0, big) =~= a.subrange(0, big));
                assert(post.temp.subrange(big, post.high + 1) =~= a.subrange(big, run_end(0, 2 * big, n)));
                law_merge_starts_in_order(pre, post);
                assert forall|q: int| 0 + 2 * big <= q < n && q < n && q % big == 0 implies #[trigger] sorted(
                    post.array.subrange(q, run_end(q, big, n)),
                ) by {
                    assert(sorted(a.subrange(q, run_end(q, 2 * s, n))));
                }
            }
        }
    } else if pre.phase == MergePhase::MergingInit {
        assert(post.array == a && post.temp == pre.temp);
    } else if pre.phase == MergePhase::MergingStep {
        if pre.i > pre.mid && pre.j > pre.high {
            assert(post.array == a && post.temp == pre.temp);
        } else {
            law_merge_step_keeps_order(pre, post, ret);
            lemma_runs_outside_pair(a, post.array, p, s, n, pre.k);
        }
    } else {
        // the merge is done: the pair is one run in order
        law_finished_merge_is_sorted(pre, post, ret);
        assert(post.array == a);
        assert forall|q: int| 0 <= q < p + 2 * s && q < n && q % (2 * s) == 0 implies #[trigger] sorted(
            a.subrange(q, run_end(q, 2 * s, n)),
        ) by {
            if q < p {
                assert(sorted(a.subrange(q, run_end(q, 2 * s, n))));
            } else if q > p {
                lemma_no_multiple_between(p, q, 2 * s);
            }
        }
    }
}

/// Each step of a binary search either ends the search or at least halves a range that
/// was not empty, so every search comes to an end, found or not found, within about the
/// logarithm of the length in steps.
pub proof fn law_binary_search_narrows(pre: BinarySearchView, post: BinarySearchView, ret: bool)
    requires
        pre.inv(),
        pre.phase == BinarySearchPhase::Searching,
        !pre.state.completed,
        pre.state.awaiting_question is None,
        pre.step_to(post, ret),
    ensures
        post.phase != BinarySearchPhase::Searching || (0 <= pre.high - pre.low && post.high - post.low
            < pre.high - pre.low),
        post.phase == BinarySearchPhase::Searching ==> post.high - post.low + 1 <= (pre.high - pre.low + 1)
            / 2,
{
}

/// Each step of the build phase keeps the nodes from the one being built on in max-heap
/// order but for the node being sifted down, and the build ends with a max heap, from
/// which the extraction starts in order.
pub proof fn law_heap_build_step(pre: HeapView, post: HeapView, ret: bool)
    requires
        pre.inv(),
        pre.heap_in_order(),
        pre.phase == HeapPhase::BuildingMaxHeap,
        pre.step_to(post, ret),
    ensures
        post.heap_in_order(),
{
    let a = pre.array;
    let n = a.len() as int;
    let b = pre.build_heap_index;
    if b < 0 {
        law_heap_extraction_starts(pre, post, ret);
    } else {
        let c = pre.current_index;
        let left = 2 * c + 1;
        let right = 2 * c + 2;
        let lg1 = if left < n && a[left] > a[c] { left } else { c };
        let lg = if right < n && a[right] > a[lg1] { right } else { lg1 };
        let a2 = if lg == c { a } else { swapped(a, c, lg) };
        assert(post.array == a2);
        assert(post.heap_size == n);
        if lg != c {
            lemma_sift_swap(a, n, c, lg, b);
        }
        if lg == c || !(2 * lg + 1 < n) {
            let last = if lg == c { c } else { lg };
            assert forall|p: int| b <= p < n implies #[trigger] node_ok(a2, n, p) by {
                if p != last {
                    assert(node_ok(a2, n, p));
                }
            }
            assert(post.build_heap_index == b - 1);
            if b >= 1 {
                assert(post.current_index == b - 1);
                assert forall|p: int| b - 1 <= p < n && p != b - 1 implies #[trigger] node_ok(a2, n, p) by {
                    assert(node_ok(a2, n, p));
                }
            } else {
                assert forall|p: int| 0 <= p < n implies #[trigger] node_ok(a2, n, p) by {
                    assert(node_ok(a2, n, p));
                }
            }
        } else {
            assert(post.current_index == lg && post.build_heap_index == b);
        }
    }
}

/// Every range waiting on quick sort's stack is a range of the array, with its low end not
/// past its high end.
pub proof fn law_quick_stack_ranges(v: QuickView)
    requires
        v.inv(),
    ensures
        forall|k: int|
            0 <= k < v.stack.len() ==> (#[trigger] v.stack[k]).0 <= v.stack[k].1 < v.array.len(),
{
}

/// The positions in ranges that lie in the array, one after another, are never negative.
proof fn lemma_range_total_nonneg(stack: Seq<(usize, usize)>)
    requires
        forall|k: int| 0 <= k < stack.len() ==> (#[trigger] stack[k]).0 <= stack[k].1,
    ensures
        range_total(stack) >= 0,
    decreases stack.len(),
{
    if stack.len() > 0 {
        let rest = stack.drop_last();
        assert forall|k: int| 0 <= k < rest.len() implies (#[trigger] rest[k]).0 <= rest[k].1 by {
            assert(rest[k] == stack[k]);
        }
        lemma_range_total_nonneg(rest);
    }
}

/// Choosing the next range from a stack of ranges in the array, where that step goes on,
/// leaves fewer positions pending, or as many with a partition that has less to do than
/// the choice.
proof fn lemma_quick_choice_progresses(pre: QuickView, post: QuickView, ret: bool)
    requires
        pre.phase == QuickPhase::ChoosingPivot,
        forall|k: int| 0 <= k < pre.stack.len() ==> (#[trigger] pre.stack[k]).0 <= pre.stack[k].1 < pre.array.len(),
        pre.step_to(post, ret),
        ret,
    ensures
        post.pending() < pre.pending() || (post.pending() == pre.pending() && post.partition_progress()
            < pre.partition_progress()),
        post.pending() <= pre.pending(),
    decreases pre.stack.len(),
{
    let n = pre.array.len();
    let r = pre.stack.last();
    let rest = pre.stack.drop_last();
    assert(pre.stack[pre.stack.len() - 1] == r);
    if r.0 >= r.1 {
        let st = crate::enums::normalized(pre.states);
        let popped = QuickView {
            states: if r.0 == r.1 && r.0 < n {
                st.update(r.0 as int, SelectionState::Sorted)
            } else {
                st
            },
            stack: rest,
            low: r.0 as int,
            high: r.1 as int,
            ..QuickView { states: st, ..pre }
        };
        assert forall|k: int| 0 <= k < rest.len() implies (#[trigger] rest[k]).0 <= rest[k].1 < n by {
            assert(rest[k] == pre.stack[k]);
        }
        assert(popped.step_to(post, ret));
        lemma_quick_choice_progresses(popped, post, ret);
        assert(popped.pending() == range_total(rest));
    } else {
        lemma_range_total_nonneg_valid(rest, n as int);
        assert(post.stack == rest);
        assert(post.pending() == pre.pending());
        assert(post.partition_progress() == 4 * (r.1 - r.0) + 3);
    }
}

/// The positions in ranges of the array are never negative (ranges below `n`).
proof fn lemma_range_total_nonneg_valid(stack: Seq<(usize, usize)>, n: int)
    requires
        forall|k: int| 0 <= k < stack.len() ==> (#[trigger] stack[k]).0 <= stack[k].1 < n,
    ensures
        range_total(stack) >= 0,
{
    assert forall|k: int| 0 <= k < stack.len() implies (#[trigger] stack[k]).0 <= stack[k].1 by {}
    lemma_range_total_nonneg(stack);
}

/// Quick sort always gets on: each step that goes on leaves no more positions pending,
/// and either fewer or a partition with less to do; both measures stay at or above zero,
/// so a run comes to an end.
pub proof fn law_quick_step_progresses(pre: QuickView, post: QuickView, ret: bool)
    requires
        pre.inv(),
        pre.step_to(post, ret),
        ret,
    ensures
        post.pending() <= pre.pending(),
        post.pending() < pre.pending() || post.partition_progress() < pre.partition_progress(),
        pre.pending() >= 0,
        pre.partition_progress() >= 0,
{
    lemma_range_total_nonneg_valid(pre.stack, pre.array.len() as int);
    match pre.phase {
        QuickPhase::ChoosingPivot => {
            lemma_quick_choice_progresses(pre, post, ret);
        },
        QuickPhase::SwappingWithPivot => {
            let pos = pre.left;
            let with_right = if pos + 1 <= pre.high {
                pre.stack.push(((pos + 1) as usize, pre.high as usize))
            } else {
                pre.stack
            };
            let right_part: int = if pos + 1 <= pre.high { pre.high - pos } else { 0 };
            if pos + 1 <= pre.high {
                assert(with_right.drop_last() =~= pre.stack);
                assert(with_right.last() == ((pos + 1) as usize, pre.high as usize));
            }
            assert(range_total(with_right) == range_total(pre.stack) + right_part);
            let full = if pre.low < pos && pos > 0 {
                with_right.push((pre.low as usize, (pos - 1) as usize))
            } else {
                with_right
            };
            let left_part: int = if pre.low < pos && pos > 0 { pos - pre.low } else { 0 };
            if pre.low < pos && pos > 0 {
                assert(full.drop_last() =~= with_right);
                assert(full.last() == (pre.low as usize, (pos - 1) as usize));
            }
            assert(range_total(full) == range_total(with_right) + left_part);
            assert(post.stack == full);
            assert(post.pending() == pre.pending() - 1);
        },
        _ => {},
    }
}

/// Shell sort always gets on: each step that goes on leaves less to do, in the order that
/// compares the gaps still to start, then the groups left in the pass, then the positions
/// left in the group, then the place where the key is being inserted; no part is ever
/// below zero, so a run comes to an end.
pub proof fn law_shell_step_progresses(pre: ShellView, post: ShellView, ret: bool)
    requires
        pre.inv(),
        pre.step_to(post, ret),
        ret,
    ensures
        lex_before(post.shell_measure(), pre.shell_measure()),
        pre.shell_measure().1 >= 0,
        pre.shell_measure().2 >= 0,
        pre.shell_measure().3 >= 0,
        pre.shell_measure().0 >= 0,
{
}

/// Merge sort always gets on: each step that goes on leaves less to do, in the order that
/// compares the run sizes still to double, then the pairs left in the pass, then the
/// phase of the pair, then the values left to merge; no part is ever below zero, so a
/// run comes to an end.
pub proof fn law_merge_step_progresses(pre: MergeView, post: MergeView, ret: bool)
    requires
        pre.inv(),
        pre.step_to(post, ret),
        ret,
    ensures
        lex_before(post.merge_measure(), pre.merge_measure()),
        pre.merge_measure().0 >= 0,
        pre.merge_measure().1 >= 0,
        pre.merge_measure().2 >= 0,
        pre.merge_measure().3 >= 0,
{
}

/// Heap sort always gets on: each step that goes on leaves less to do, in the order that
/// compares whether the heap is still being built, then the nodes left to build or the
/// values left in the heap, then the phase of the extraction, then how far the sifted
/// node is from the end; no part is ever below zero, so a run comes to an end.
pub proof fn law_heap_step_progresses(pre: HeapView, post: HeapView, ret: bool)
    requires
        pre.inv(),
        pre.step_to(post, ret),
        ret,
    ensures
        lex_before(post.heap_measure(), pre.heap_measure()),
        pre.heap_measure().0 >= 0,
        pre.heap_measure().1 >= 0,
        pre.heap_measure().2 >= 0,
        pre.heap_measure().3 >= 0,
{
}

/// Insertion sort always gets on: each step that goes on leaves less to do, in the order
/// that compares the elements still to place, then the phase of the current one with the
/// positions left to search; no part is ever below zero, so a run comes to an end.
pub proof fn law_insertion_step_progresses(pre: InsertionView, post: InsertionView, ret: bool)
    requires
        pre.inv(),
        pre.step_to(post, ret),
        ret,
    ensures
        lex_before(post.insertion_measure(), pre.insertion_measure()),
        pre.insertion_measure().0 >= 0,
        pre.insertion_measure().1 >= 0,
{
}

/// Radix sort always gets on: each step that goes on leaves less to do, in the order that
/// compares the digit positions still to pass, then the phase of the pass, then the
/// elements left in it; no part is ever below zero, so a run comes to an end.
pub proof fn law_radix_step_progresses(pre: RadixView, post: RadixView, ret: bool)
    requires
        pre.inv(),
        pre.step_to(post, ret),
        ret,
    ensures
        lex_before(post.radix_measure(), pre.radix_measure()),
        pre.radix_measure().0 >= 0,
        pre.radix_measure().1 >= 0,
        pre.radix_measure().2 >= 0,
{
}

/// An element of quick sort marked sorted is in its final place: no value before it is
/// larger, no value after it is smaller, and it is the value at its position in the input
/// put in order.
pub proof fn law_quick_sorted_mark_is_final(v: QuickView, i: int, in_order: Seq<u32>)
    requires
        v.inv(),
        v.marks_outside(),
        0 <= i < v.array.len(),
        v.states[i] == SelectionState::Sorted,
        sorted(in_order),
        permutation(in_order, v.original),
    ensures
        cut(v.array, i),
        cut(v.array, i + 1),
        v.array[i] == in_order[i],
{
    assert(!v.pending_at(i));
    assert forall|k: int| 0 <= k < v.stack.len() implies !crate::quick_sort::splits(#[trigger] v.stack[k], i) by {
        if crate::quick_sort::splits(v.stack[k], i) {
            assert(v.stack[k].0 <= i <= v.stack[k].1);
        }
    }
    assert(v.unsplit(i));
    assert forall|k: int| 0 <= k < v.stack.len() implies !crate::quick_sort::splits(#[trigger] v.stack[k], i + 1) by {
        if crate::quick_sort::splits(v.stack[k], i + 1) {
            assert(v.stack[k].0 <= i <= v.stack[k].1);
        }
    }
    assert(v.unsplit(i + 1));
    assert(permutation(v.array, in_order));
    lemma_place_in_order(v.array, in_order, i);
}

/// Choosing the next range keeps the marked elements outside the ranges still to be
/// sorted.
proof fn lemma_quick_choice_keeps_marks(pre: QuickView, post: QuickView, ret: bool)
    requires
        pre.phase == QuickPhase::ChoosingPivot,
        pre.states.len() == pre.array.len(),
        forall|k: int| 0 <= k < pre.stack.len() ==> (#[trigger] pre.stack[k]).0 <= pre.stack[k].1 < pre.array.len(),
        forall|k1: int, k2: int|
            0 <= k1 < k2 < pre.stack.len() ==> #[trigger] pre.stack[k2].1 < #[trigger] pre.stack[k1].0,
        pre.marks_outside(),
        pre.marks_cover(),
        pre.step_to(post, ret),
    ensures
        post.marks_outside(),
        post.marks_cover(),
        !ret ==> post.stack.len() == 0 && post.phase == QuickPhase::ChoosingPivot,
    decreases pre.stack.len(),
{
    let n = pre.array.len();
    let st = crate::enums::normalized(pre.states);
    assert forall|i: int| 0 <= i < st.len() implies (#[trigger] st[i] == SelectionState::Sorted) == (pre.states[i]
        == SelectionState::Sorted) by {}
    if pre.stack.len() == 0 {
        assert forall|i: int| 0 <= i < post.states.len() && #[trigger] post.states[i] == SelectionState::Sorted implies !post.pending_at(i) by {
            assert(pre.states[i] == SelectionState::Sorted);
            assert(!pre.pending_at(i));
        }
        assert forall|i: int| 0 <= i < post.states.len() implies #[trigger] post.states[i] == SelectionState::Sorted
            || post.pending_at(i) by {
            assert(pre.states[i] == SelectionState::Sorted || pre.pending_at(i));
        }
    } else {
        let r = pre.stack.last();
        let rest = pre.stack.drop_last();
        let last = pre.stack.len() - 1;
        assert(pre.stack[last] == r);
        assert forall|k: int| 0 <= k < rest.len() implies #[trigger] rest[k] == pre.stack[k] by {}
        if r.0 >= r.1 {
            let states = if r.0 == r.1 && r.0 < n { st.update(r.0 as int, SelectionState::Sorted) } else { st };
            let popped = QuickView {
                states,
                stack: rest,
                low: r.0 as int,
                high: r.1 as int,
                ..QuickView { states: st, ..pre }
            };
            assert forall|k: int| 0 <= k < rest.len() implies (#[trigger] rest[k]).0 <= rest[k].1 < n by {
                assert(rest[k] == pre.stack[k]);
            }
            assert forall|k1: int, k2: int| 0 <= k1 < k2 < rest.len() implies #[trigger] rest[k2].1 < #[trigger] rest[k1].0 by {
                assert(rest[k1] == pre.stack[k1] && rest[k2] == pre.stack[k2]);
            }
            assert forall|i: int| 0 <= i < popped.states.len() && #[trigger] popped.states[i] == SelectionState::Sorted implies !popped.pending_at(i) by {
                if i == r.0 {
                    assert forall|k: int| 0 <= k < rest.len() implies !((#[trigger] rest[k]).0 <= i <= rest[k].1) by {
                        assert(pre.stack[last].1 < pre.stack[k].0);
                    }
                } else {
                    assert(pre.states[i] == SelectionState::Sorted);
                    assert(!pre.pending_at(i));
                    assert forall|k: int| 0 <= k < rest.len() implies !((#[trigger] rest[k]).0 <= i <= rest[k].1) by {
                        assert(rest[k] == pre.stack[k]);
                    }
                }
            }
            assert forall|i: int| 0 <= i < popped.states.len() implies #[trigger] popped.states[i]
                == SelectionState::Sorted || popped.pending_at(i) by {
                if i == r.0 {
                    assert(r.0 == r.1 && r.0 < n);
                    assert(popped.states[i] == SelectionState::Sorted);
                } else {
                    assert(popped.states[i] == st[i]);
                    assert(pre.states[i] == SelectionState::Sorted || pre.pending_at(i));
                    if !(pre.states[i] == SelectionState::Sorted) {
                        assert(!pre.partitioning());
                        let k = choose|k: int| 0 <= k < pre.stack.len() && (#[trigger] pre.stack[k]).0 <= i <= pre.stack[k].1;
                        assert(r.0 <= r.1);
                        assert(k != last);
                        assert(rest[k] == pre.stack[k]);
                        assert(0 <= k < popped.stack.len() && popped.stack[k].0 <= i <= popped.stack[k].1);
                        assert(popped.pending_at(i));
                    }
                }
            }
            assert(popped.step_to(post, ret));
            lemma_quick_choice_keeps_marks(popped, post, ret);
        } else {
            assert forall|i: int| 0 <= i < post.states.len() && #[trigger] post.states[i] == SelectionState::Sorted implies !post.pending_at(i) by {
                assert(i != r.1);
                assert(pre.states[i] == SelectionState::Sorted);
                assert(!pre.pending_at(i));
                assert(!(r.0 <= i <= r.1)) by {
                    assert(pre.stack[last].0 <= i <= pre.stack[last].1 ==> pre.pending_at(i));
                }
                assert forall|k: int| 0 <= k < post.stack.len() implies !((#[trigger] post.stack[k]).0 <= i <= post.stack[k].1) by {
                    assert(post.stack[k] == pre.stack[k]);
                }
            }
            assert forall|i: int| 0 <= i < post.states.len() implies #[trigger] post.states[i]
                == SelectionState::Sorted || post.pending_at(i) by {
                if !(r.0 <= i <= r.1) {
                    assert(pre.states[i] == SelectionState::Sorted || pre.pending_at(i));
                    if !(pre.states[i] == SelectionState::Sorted) {
                        let k = choose|k: int| 0 <= k < pre.stack.len() && (#[trigger] pre.stack[k]).0 <= i <= pre.stack[k].1;
                        assert(k != last);
                        assert(post.stack[k] == pre.stack[k]);
                    }
                }
            }
        }
    }
}

/// Each step of quick sort keeps the elements marked sorted exactly those outside the
/// ranges still to be sorted, so a marked element stays in its final place; and when the
/// sort ends, no range is left and every element is marked sorted.
pub proof fn law_quick_step_keeps_marks(pre: QuickView, post: QuickView, ret: bool)
    requires
        pre.inv(),
        pre.marks_outside(),
        pre.marks_cover(),
        pre.step_to(post, ret),
    ensures
        post.marks_outside(),
        post.marks_cover(),
        !ret ==> post.stack.len() == 0 && forall|i: int| 0 <= i < post.states.len() ==> #[trigger] post.states[i]
            == SelectionState::Sorted,
{
    if pre.phase == QuickPhase::ChoosingPivot {
        lemma_quick_choice_keeps_marks(pre, post, ret);
        if !ret {
            assert forall|i: int| 0 <= i < post.states.len() implies #[trigger] post.states[i]
                == SelectionState::Sorted by {
                assert(post.states[i] == SelectionState::Sorted || post.pending_at(i));
            }
        }
    } else {
        let st = crate::enums::normalized(pre.states);
        assert forall|i: int| 0 <= i < post.states.len() && #[trigger] post.states[i] == SelectionState::Sorted implies !post.pending_at(i) by {
            if pre.phase == QuickPhase::SwappingWithPivot && i == pre.left {
                let pos = pre.left;
                assert forall|k: int| 0 <= k < post.stack.len() implies !((#[trigger] post.stack[k]).0 <= i <= post.stack[k].1) by {
                    if k < pre.stack.len() {
                        assert(post.stack[k] == pre.stack[k]);
                        assert(pre.high < pre.stack[k].0);
                    }
                }
            } else {
                assert(pre.states[i] == SelectionState::Sorted);
                assert(!pre.pending_at(i));
                assert forall|k: int| 0 <= k < post.stack.len() implies !((#[trigger] post.stack[k]).0 <= i <= post.stack[k].1) by {
                    if k < pre.stack.len() {
                        assert(post.stack[k] == pre.stack[k]);
                    } else {
                        assert(pre.low <= i <= pre.high ==> pre.pending_at(i));
                    }
                }
            }
        }
        assert forall|i: int| 0 <= i < post.states.len() implies #[trigger] post.states[i]
            == SelectionState::Sorted || post.pending_at(i) by {
            assert(pre.states[i] == SelectionState::Sorted || pre.pending_at(i));
            if !(pre.states[i] == SelectionState::Sorted) {
                if pre.partitioning() && pre.low <= i <= pre.high {
                    if pre.phase == QuickPhase::SwappingWithPivot && i != pre.left {
                        let pos = pre.left;
                        if i > pos {
                            assert(post.stack[pre.stack.len() as int] == ((pos + 1) as usize, pre.high as usize));
                        } else {
                            assert(post.stack[post.stack.len() - 1] == (pre.low as usize, (pos - 1) as usize));
                        }
                    }
                } else {
                    let k = choose|k: int| 0 <= k < pre.stack.len() && (#[trigger] pre.stack[k]).0 <= i <= pre.stack[k].1;
                    assert(post.stack[k] == pre.stack[k]);
                }
            }
        }
    }
}

/// Quick sort starts with its marked elements exactly those outside the ranges still to be
/// sorted.
pub proof fn law_quick_start_marks(data: Seq<u32>)
    requires
        data.len() <= usize::MAX,
    ensures
        quick_start(data).marks_outside(),
        quick_start(data).marks_cover(),
{
    let v = quick_start(data);
    if data.len() > 1 {
        assert forall|i: int| 0 <= i < v.states.len() implies #[trigger] v.states[i] == SelectionState::Sorted
            || v.pending_at(i) by {
            assert(v.stack[0] == (0usize, (data.len() - 1) as usize));
            assert(v.stack[0].0 <= i <= v.stack[0].1);
        }
    }
}

/// A step of binary search keeps the array, and keeps a present target inside the range
/// still searched while the search goes on; a found index holds the target and a search
/// that ends without it has none.
pub proof fn law_binary_step_keeps_range(pre: BinarySearchView, post: BinarySearchView, ret: bool)
    requires
        pre.inv(),
        pre.array.len() <= usize::MAX,
        pre.step_to(post, ret),
    ensures
        post.array == pre.array,
        post.found_index matches Some(f) ==> 0 <= f < post.array.len() && post.array[f as int] == post.target,
        post.phase == BinarySearchPhase::NotFound ==> !post.array.contains(post.target),
        post.phase == BinarySearchPhase::Searching && post.array.contains(post.target) ==> exists|i: int|
            post.low <= i <= post.high && i < post.array.len() && post.array[i] == post.target,
{
    let a = pre.array;
    let n = a.len() as int;
    if pre.phase == BinarySearchPhase::NotFound || (!pre.state.completed && pre.state.awaiting_question is None
        && pre.phase == BinarySearchPhase::Searching && (pre.low > pre.high || pre.low + (pre.high - pre.low) / 2
        >= n || (pre.low + (pre.high - pre.low) / 2 == 0 && a[0] > pre.target))) {
        if post.phase == BinarySearchPhase::NotFound {
            assert forall|k: int| 0 <= k < n implies a[k] != pre.target by {
                if pre.phase == BinarySearchPhase::Searching && pre.low <= pre.high && pre.low + (pre.high - pre.low) / 2 < n {
                    assert(a[0] <= a[k]);
                }
            }
        }
    }
    if post.phase == BinarySearchPhase::Searching && post.array.contains(post.target) {
        let w = choose|w: int| 0 <= w < n && a[w] == pre.target;
        let mid = pre.low + (pre.high - pre.low) / 2;
        if post.low > w {
            if w >= pre.low {
                assert(a[w] <= a[mid]);
            }
        }
        if post.high < w {
            if w <= pre.high {
                assert(a[mid] <= a[w]);
            }
        }
        assert(post.low <= w <= post.high);
    }
}

/// Linear search starts with nothing counted.
pub proof fn law_linear_start_count(data: Seq<u32>, target: u32, state: VisualizerState)
    requires
        state.comparisons == 0,
    ensures
        linear_start(data, target, state).count_ok(),
{
}

/// Each step of linear search keeps one comparison counted for each element passed over
/// and one for the element found, so a search ends with the found index plus one
/// comparisons, or with as many as there are elements when the target is absent.
pub proof fn law_linear_step_counts(pre: LinearSearchView, post: LinearSearchView, ret: bool)
    requires
        pre.inv(),
        pre.count_ok(),
        pre.state.comparisons < u32::MAX,
        pre.step_to(post, ret),
    ensures
        post.count_ok(),
        post.phase == LinearSearchPhase::Found ==> (post.found_index matches Some(f)
            && post.state.comparisons == f + 1),
        post.phase == LinearSearchPhase::NotFound ==> post.state.comparisons == post.array.len(),
{
}

/// Radix sort starts with its counters right.
pub proof fn law_radix_start_counts(data: Seq<u32>)
    ensures
        radix_start(data).counts_ok(),
{
    let v = radix_start(data);
    if data.len() > 1 {
        assert(v.array.len() * (v.current_digit - 1) == 0) by (nonlinear_arith)
            requires
                v.current_digit == 1,
        ;
    }
}

/// Each step of radix sort keeps its counters right, so a run on two or more elements
/// ends with as many comparisons, and as many moves, as elements times digit positions.
pub proof fn law_radix_step_counts(pre: RadixView, post: RadixView, ret: bool)
    requires
        pre.inv(),
        pre.counts_ok(),
        pre.comparisons < u32::MAX,
        pre.swaps < u32::MAX,
        pre.step_to(post, ret),
    ensures
        post.counts_ok(),
        post.phase == RadixPhase::Done && post.array.len() >= 2 ==> post.comparisons == post.array.len()
            * post.max_digits && post.swaps == post.array.len() * post.max_digits,
{
    let n = pre.array.len() as int;
    let d = pre.current_digit as int;
    assert(n * d == n * (d - 1) + n) by (nonlinear_arith);
    if pre.phase == RadixPhase::NextDigit && d + 1 <= pre.max_digits {
        assert(n * (d + 1 - 1) == n * d);
    }
    if pre.phase == RadixPhase::StartingDigit && d > pre.max_digits {
        assert(d == pre.max_digits + 1);
        assert(n * (d - 1) == n * pre.max_digits);
    }
    if pre.phase == RadixPhase::NextDigit && d + 1 > pre.max_digits {
        assert(d == pre.max_digits);
    }
}

/// Insertion sort starts with no shift counted and every inversion of the input still in
/// the array.
pub proof fn law_insertion_start_shifts(data: Seq<u32>, speed: u64)
    ensures
        insertion_start(data, speed).swaps + inversions(insertion_start(data, speed).contents()) == inversions(
            data,
        ),
{
}

/// Each shift of insertion sort removes exactly one inversion, so the shifts counted and
/// the inversions left always add up to the inversions of the input, and a finished run
/// has counted exactly as many shifts as the input had inversions.
pub proof fn law_insertion_step_shifts(pre: InsertionView, post: InsertionView, ret: bool)
    requires
        pre.inv(),
        pre.swaps < u32::MAX,
        pre.comparisons < u32::MAX,
        pre.swaps + inversions(pre.contents()) == inversions(pre.original),
        pre.step_to(post, ret),
    ensures
        post.swaps + inversions(post.contents()) == inversions(post.original),
        !ret ==> post.swaps == inversions(post.original),
{
    let a = pre.array;
    let n = a.len() as int;
    let j = pre.current_j;
    if pre.phase == InsertionPhase::SelectingElement && pre.current_i < n {
        assert(post.contents() =~= pre.contents());
    } else if pre.phase == InsertionPhase::SearchingPosition {
        let c = pre.contents();
        if a[j] > pre.key {
            assert(c[j] == a[j] && c[j + 1] == pre.key);
            assert(post.contents() =~= swap_next(c, j));
            lemma_inversions_swap(c, j);
        } else {
            assert(post.contents() =~= c);
        }
    } else if pre.phase == InsertionPhase::InsertingElement {
        assert(post.contents() =~= pre.contents());
    }
    if !ret {
        let i = post.current_i;
        assert(post.array.take(n) =~= post.array);
        assert(post.contents() == post.array);
        lemma_sorted_no_inversions(post.array);
    }
}

/// The numbers of the main menu's entries: 1 to 18, the settings and the exit.
pub open spec fn menu_number(id: u32) -> bool {
    (1 <= id <= 18) || id == 31 || id == 99
}

/// Two different numbers, one of them an entry of the main menu, have different
/// descriptions.
pub proof fn law_menu_descriptions_differ(a: u32, b: u32)
    requires
        menu_number(a),
        a != b,
    ensures
        option_description(a) != option_description(b),
{
    reveal_strlit("Generate a random array of numbers for algorithm testing and visualization");
    reveal_strlit("Visualize linear search - searches elements one by one from start to end");
    reveal_strlit("Visualize binary search - efficient search in sorted arrays using divide and conquer");
    reveal_strlit("Visualize bubble sort - repeatedly swaps adjacent elements if they're in wrong order");
    reveal_strlit("Visualize bucket sort - distributes elements into buckets then sorts each bucket");
    reveal_strlit("Visualize cocktail sort - bidirectional bubble sort that sorts in both directions");
    reveal_strlit("Visualize comb sort - improved bubble sort with gap sequence shrinking");
    reveal_strlit("Visualize counting sort - counts occurrences of each element for non-comparison sorting");
    reveal_strlit("Visualize gnome sort - simple sorting algorithm similar to insertion sort");
    reveal_strlit("Visualize heap sort - uses binary heap data structure for efficient sorting");
    reveal_strlit("Visualize insertion sort - builds sorted array one element at a time");
    reveal_strlit("Visualize merge sort - divide and conquer algorithm that merges sorted subarrays");
    reveal_strlit("Visualize pancake sort - sorts by flipping prefix of array like pancakes");
    reveal_strlit("Visualize quick sort - efficient divide and conquer sorting with pivot selection");
    reveal_strlit("Visualize radix sort - sorts integers by processing individual digits");
    reveal_strlit("Visualize selection sort - finds minimum element and places it at beginning");
    reveal_strlit("Visualize shell sort - generalized insertion sort with diminishing gaps");
    reveal_strlit("Visualize tim sort - hybrid stable sorting algorithm derived from merge sort");
    reveal_strlit("Configure application settings - speed, colors, array size, and display options");
    reveal_strlit("Exit the application and return to terminal");
    reveal_strlit("Unknown option - please select a valid menu item");
    let fa = option_description(a);
    let fb = option_description(b);
    assert(fa.len() != fb.len() || fa[10] != fb[10] || fa[12] != fb[12]);
}

/// Insertion sort: R, and SPACE on a finished run, put the array back as it was given, with nothing
/// counted and the run stopped; and no key or step changes the array it was given.
pub proof fn law_insertion_reset_restores(pre: InsertionView, key: ControlKey, post: InsertionView, ret: bool)
    requires
        pre.key_to(key, post, ret),
    ensures
        post.original == pre.original,
        key == ControlKey::Reset || (key == ControlKey::Space && pre.completed) ==> {
            &&& post.array == pre.original
            &&& post.comparisons == 0
            &&& post.swaps == 0
            &&& !post.is_running
            &&& !post.is_paused
        },
{
    if key == ControlKey::Step && !pre.completed && !pre.is_running {
        let b = choose|b: bool| pre.step_to(post, b);
        law_insertion_step_keeps_input(pre, post, b);
    }
}

/// Insertion sort: a step never changes the array the visualizer was given.
pub proof fn law_insertion_step_keeps_input(pre: InsertionView, post: InsertionView, ret: bool)
    requires
        pre.step_to(post, ret),
    ensures
        post.original == pre.original,
{
}

/// Quick sort: R, and SPACE on a finished run, put the array back as it was given, with nothing
/// counted and the run stopped; and no key or step changes the array it was given.
pub proof fn law_quick_reset_restores(pre: QuickView, key: ControlKey, post: QuickView, ret: bool)
    requires
        pre.key_to(key, post, ret),
    ensures
        post.original == pre.original,
        key == ControlKey::Reset || (key == ControlKey::Space && pre.completed) ==> {
            &&& post.array == pre.original
            &&& post.comparisons == 0
            &&& post.swaps == 0
            &&& !post.is_running
            &&& !post.is_paused
        },
{
    if key == ControlKey::Step && !pre.completed && !pre.is_running {
        let b = choose|b: bool| pre.step_to(post, b);
        law_quick_step_keeps_input(pre, post, b);
    }
}

/// Quick sort: a step never changes the array the visualizer was given.
pub proof fn law_quick_step_keeps_input(pre: QuickView, post: QuickView, ret: bool)
    requires
        pre.step_to(post, ret),
    ensures
        post.original == pre.original,
        decreases pre.stack.len(),
{
    if pre.phase == QuickPhase::ChoosingPivot && pre.stack.len() > 0 && pre.stack.last().0 >= pre.stack.last().1 {
        let r = pre.stack.last();
        let st = crate::enums::normalized(pre.states);
        let n = pre.array.len();
        let popped = QuickView {
            states: if r.0 == r.1 && r.0 < n { st.update(r.0 as int, SelectionState::Sorted) } else { st },
            stack: pre.stack.drop_last(),
            low: r.0 as int,
            high: r.1 as int,
            ..QuickView { states: st, ..pre }
        };
        law_quick_step_keeps_input(popped, post, ret);
    }
}

/// Shell sort: R, and SPACE on a finished run, put the array back as it was given, with nothing
/// counted and the run stopped; and no key or step changes the array it was given.
pub proof fn law_shell_reset_restores(pre: ShellView, key: ControlKey, post: ShellView, ret: bool)
    requires
        pre.key_to(key, post, ret),
    ensures
        post.original == pre.original,
        key == ControlKey::Reset || (key == ControlKey::Space && pre.completed) ==> {
            &&& post.array == pre.original
            &&& post.comparisons == 0
            &&& post.swaps == 0
            &&& !post.is_running
            &&& !post.is_paused
        },
{
    if key == ControlKey::Step && !pre.completed && !pre.is_running {
        let b = choose|b: bool| pre.step_to(post, b);
        law_shell_step_keeps_input(pre, post, b);
    }
}

/// Shell sort: a step never changes the array the visualizer was given.
pub proof fn law_shell_step_keeps_input(pre: ShellView, post: ShellView, ret: bool)
    requires
        pre.step_to(post, ret),
    ensures
        post.original == pre.original,
{
}

/// Heap sort: R, and SPACE on a finished run, put the array back as it was given, with nothing
/// counted and the run stopped; and no key or step changes the array it was given.
pub proof fn law_heap_reset_restores(pre: HeapView, key: ControlKey, post: HeapView, ret: bool)
    requires
        pre.key_to(key, post, ret),
    ensures
        post.original == pre.original,
        key == ControlKey::Reset || (key == ControlKey::Space && pre.completed) ==> {
            &&& post.array == pre.original
            &&& post.comparisons == 0
            &&& post.swaps == 0
            &&& !post.is_running
            &&& !post.is_paused
        },
{
    if key == ControlKey::Step && !pre.completed && !pre.is_running {
        let b = choose|b: bool| pre.step_to(post, b);
        law_heap_step_keeps_input(pre, post, b);
    }
}

/// Heap sort: a step never changes the array the visualizer was given.
pub proof fn law_heap_step_keeps_input(pre: HeapView, post: HeapView, ret: bool)
    requires
        pre.step_to(post, ret),
    ensures
        post.original == pre.original,
{
}

/// Merge sort: R, and SPACE on a finished run, put the array back as it was given, with nothing
/// counted and the run stopped; and no key or step changes the array it was given.
pub proof fn law_merge_reset_restores(pre: MergeView, key: ControlKey, post: MergeView, ret: bool)
    requires
        pre.key_to(key, post, ret),
    ensures
        post.original == pre.original,
        key == ControlKey::Reset || (key == ControlKey::Space && pre.completed) ==> {
            &&& post.array == pre.original
            &&& post.comparisons == 0
            &&& post.swaps == 0
            &&& !post.is_running
            &&& !post.is_paused
        },
{
    if key == ControlKey::Step && !pre.completed && !pre.is_running {
        let b = choose|b: bool| pre.step_to(post, b);
        law_merge_step_keeps_input(pre, post, b);
    }
}

/// Merge sort: a step never changes the array the visualizer was given.
pub proof fn law_merge_step_keeps_input(pre: MergeView, post: MergeView, ret: bool)
    requires
        pre.step_to(post, ret),
    ensures
        post.original == pre.original,
{
}

/// Radix sort: R, and SPACE on a finished run, put the array back as it was given, with nothing
/// counted and the run stopped; and no key or step changes the array it was given.
pub proof fn law_radix_reset_restores(pre: RadixView, key: ControlKey, post: RadixView, ret: bool)
    requires
        pre.key_to(key, post, ret),
    ensures
        post.original == pre.original,
        key == ControlKey::Reset || (key == ControlKey::Space && pre.completed) ==> {
            &&& post.array == pre.original
            &&& post.comparisons == 0
            &&& post.swaps == 0
            &&& !post.is_running
            &&& !post.is_paused
        },
{
    if key == ControlKey::Step && !pre.completed && !pre.is_running {
        let b = choose|b: bool| pre.step_to(post, b);
        law_radix_step_keeps_input(pre, post, b);
    }
}

/// Radix sort: a step never changes the array the visualizer was given.
pub proof fn law_radix_step_keeps_input(pre: RadixView, post: RadixView, ret: bool)
    requires
        pre.step_to(post, ret),
    ensures
        post.original == pre.original,
{
}

/// A binary search under way either goes on, still searching or having found an index
/// holding the target, or ends only when the target is absent, reporting it not found.
/// With the progress law, a search for a target that the array holds ends found.
pub proof fn law_binary_search_ends_with_answer(pre: BinarySearchView, post: BinarySearchView, ret: bool)
    requires
        pre.inv(),
        pre.array.len() <= usize::MAX,
        pre.phase == BinarySearchPhase::Searching,
        !pre.state.completed,
        pre.state.awaiting_question is None,
        pre.step_to(post, ret),
    ensures
        post.array == pre.array,
        post.target == pre.target,
        !ret ==> post.phase == BinarySearchPhase::NotFound && !post.array.contains(post.target),
        ret ==> post.phase == BinarySearchPhase::Searching || (post.phase == BinarySearchPhase::Found
            && (post.found_index matches Some(f) && 0 <= f < post.array.len() && post.array[f as int]
            == post.target)),
        pre.array.contains(pre.target) ==> ret,
{
    let a = pre.array;
    let n = a.len() as int;
    if !ret {
        assert forall|k: int| 0 <= k < n implies a[k] != pre.target by {
            if pre.low <= pre.high && pre.low + (pre.high - pre.low) / 2 < n {
                assert(a[0] <= a[k]);
            }
        }
    }
}

/// A linear search under way looks at the next element: where it holds the target the
/// search has found it there, else it moves one on; it ends only after every element was
/// looked at without a match, reporting the target not found.
pub proof fn law_linear_search_scans(pre: LinearSearchView, post: LinearSearchView, ret: bool)
    requires
        pre.inv(),
        pre.array.len() <= usize::MAX,
        pre.phase == LinearSearchPhase::Searching,
        !pre.state.completed,
        pre.state.awaiting_question is None,
        pre.step_to(post, ret),
    ensures
        post.array == pre.array,
        post.target == pre.target,
        !ret ==> post.phase == LinearSearchPhase::NotFound && post.current_i == post.array.len()
            && !post.array.contains(post.target),
        ret && pre.array[pre.current_i] == pre.target ==> post.phase == LinearSearchPhase::Found
            && post.found_index == Some(pre.current_i as usize),
        ret && pre.array[pre.current_i] != pre.target ==> post.phase == LinearSearchPhase::Searching
            && post.current_i == pre.current_i + 1,
        post.found_index matches Some(f) ==> (post.array[f as int] == post.target && forall|k: int|
            0 <= k < f ==> post.array[k] != post.target),
        pre.current_i < pre.array.len() ==> ret,
{
}

/// In the values step of the typed-in array, ENTER on a field that reads as a number
/// appends that number to the values typed so far, whatever they are, clears the field and
/// moves to the next value; once the last value is in, the array is made of the values in
/// the order typed, under the name given.
pub proof fn law_manual_value_appended(v: ManualDialogView, x: u32)
    requires
        manual_wf(v),
        v.mode == 2,
        parse_unsigned(trimmed(v.input), u32::MAX as int) == Some(x as int),
    ensures
        manual_key(v, TextKey::Enter).0.values == v.values.push(x),
        manual_key(v, TextKey::Enter).0.current_index == v.current_index + 1,
        manual_key(v, TextKey::Enter).0.input.len() == 0,
        v.current_index + 1 == v.array_size ==> manual_key(v, TextKey::Enter).1 == ManualResult::Created(
            v.values.push(x),
            v.name,
        ),
        v.current_index + 1 != v.array_size ==> manual_key(v, TextKey::Enter).1 == ManualResult::Editing,
{
}

/// A speed field that reads as a number from 100 to 3000 is accepted as that very speed,
/// and ENTER on it leaves the field with it.
pub proof fn law_speed_in_range_accepted(w: SpeedInputView, v: int)
    requires
        parse_unsigned(w.input, u64::MAX as int) == Some(v),
        100 <= v <= 3000,
    ensures
        accepted_speed(w.input) == Some(v as u64),
        speed_key(w, TextKey::Enter).1 == SpeedOutcome::Done(Some(v as u64)),
{
    if w.input.len() == 0 {
        assert(crate::text::unsigned_digits(w.input).len() == 0);
    }
}

/// `+` and `-` keys: faster takes 50 ms off a delay at or above the floor, never going
/// below the floor; slower adds its step to a delay at or below the ceiling, never going
/// above the ceiling.
pub proof fn law_speed_keys_move(speed: u64, min_speed: u64, step: u64, max_speed: u64)
    ensures
        min_speed <= speed ==> min_speed <= faster_speed(speed, min_speed) <= speed,
        speed >= min_speed + 50 ==> faster_speed(speed, min_speed) == speed - 50,
        speed <= max_speed ==> speed <= slower_speed(speed, step, max_speed) <= max_speed,
        speed + step <= max_speed ==> slower_speed(speed, step, max_speed) == speed + step,
{
}

/// ENTER closes a dialog on the highlighted button; `y` closes it on the first button
/// where a label mentions yes.
pub proof fn law_dialog_enter_takes_highlight(d: DialogView)
    ensures
        dialog_key(d, DialogKey::Enter) == (d, Some(d.selected_button)),
        crate::dialog::any_mentions(d.buttons, "yes"@) ==> dialog_key(d, DialogKey::Yes).1 == Some(0usize),
{
}

/// A size field reading as a number from 2 to 50 is accepted as that size; any other
/// number is refused.
pub proof fn law_size_in_range_accepted(input: Seq<char>, n: int)
    requires
        parse_unsigned(trimmed(input), usize::MAX as int) == Some(n),
    ensures
        2 <= n <= 50 ==> accepted_size(input) == Some(n as usize),
        !(2 <= n <= 50) ==> accepted_size(input) is None,
{
}

/// A random array asked for with no name is called `Array_` and its size; a name typed
/// is kept without surrounding spaces. An array typed in with no name is called
/// `Manual_Array_` and its size.
pub proof fn law_default_names(v: RandomDialogView, w: ManualDialogView)
    ensures
        random_request(v) matches Some((n, name)) ==> (if trimmed(v.name_input).len() == 0 {
            name == "Array_"@ + decimal_text(n as nat)
        } else {
            name == trimmed(v.name_input)
        }),
        trimmed(w.input).len() == 0 ==> after_name(w).name == "Manual_Array_"@ + decimal_text(
            w.array_size as nat,
        ),
{
}

/// The decimal text of a number is made of digits only, starts with one, and reads back
/// as the number.
pub proof fn lemma_decimal_text_reads_back(x: nat)
    ensures
        decimal_text(x).len() > 0,
        all_digits(decimal_text(x)),
        is_digit(decimal_text(x)[0]),
        digits_value(decimal_text(x)) == x,
    decreases x,
{
    if x >= 10 {
        lemma_decimal_text_reads_back(x / 10);
        let t = decimal_text(x);
        assert(t.drop_last() =~= decimal_text(x / 10));
        assert(t[0] == decimal_text(x / 10)[0]);
        assert forall|k: int| 0 <= k < t.len() implies is_digit(#[trigger] t[k]) by {
            if k < t.len() - 1 {
                assert(t[k] == decimal_text(x / 10)[k]);
            }
        }
        assert(t.last() == digit_char((x % 10) as int));
        assert(crate::text::digit_value(t.last()) == x % 10);
        assert(x == (x / 10) * 10 + x % 10);
        assert(digits_value(t) == digits_value(t.drop_last()) * 10 + crate::text::digit_value(t.last()));
        assert(digits_value(t.drop_last()) == x / 10);
        assert(digits_value(t) == x) by (nonlinear_arith)
            requires
                digits_value(t) == digits_value(t.drop_last()) * 10 + crate::text::digit_value(t.last()),
                digits_value(t.drop_last()) == x / 10,
                crate::text::digit_value(t.last()) == x % 10,
                x == (x / 10) * 10 + x % 10,
        ;
    } else {
        let t = decimal_text(x);
        assert(crate::text::digit_value(t.last()) == x);
        assert(t.drop_last() =~= Seq::<char>::empty());
        assert(digits_value(t) == digits_value(t.drop_last()) * 10 + crate::text::digit_value(t.last()));
    }
}

/// A number written in decimal parses back to itself, up to any limit it is within.
pub proof fn law_parse_reads_decimal(x: nat, max: int)
    requires
        x <= max,
    ensures
        parse_unsigned(decimal_text(x), max) == Some(x as int),
{
    lemma_decimal_text_reads_back(x);
    let t = decimal_text(x);
    assert(t[0] != '+');
    assert(unsigned_digits(t) == t);
}

/// A number has as many decimal digits as its decimal text has characters.
pub proof fn law_digit_count_is_text_length(x: u32)
    ensures
        decimal_digits(x) == decimal_text(x as nat).len(),
    decreases x,
{
    if x >= 10 {
        law_digit_count_is_text_length(x / 10);
    }
}

/// The digit at the ones is the number's last decimal digit, and each position further on
/// is the position before it in the number with its last digit dropped.
pub proof fn law_digit_positions(x: u32, p: u32)
    requires
        1 <= p < 10,
    ensures
        digit_at(x, 1, 10) == x % 10,
        digit_at(x, (p + 1) as u32, 10) == digit_at(x / 10, p, 10),
{
    vstd::arithmetic::power::lemma_pow0(10);
    vstd::arithmetic::power::lemma_pow_positive(10, (p - 1) as nat);
    assert(vstd::arithmetic::power::pow(10, p as nat) == 10 * vstd::arithmetic::power::pow(10, (p - 1) as nat)) by {
        vstd::arithmetic::power::lemma_pow_adds(10, 1, (p - 1) as nat);
        vstd::arithmetic::power::lemma_pow1(10);
    }
    vstd::arithmetic::div_mod::lemma_div_denominator(x as int, 10, vstd::arithmetic::power::pow(10, (p - 1) as nat));
}

/// `n` closes a dialog on its second button where there is one and a label mentions no;
/// otherwise it leaves the dialog open.
pub proof fn law_dialog_no_takes_second(d: DialogView)
    ensures
        d.buttons.len() >= 2 && crate::dialog::any_mentions(d.buttons, "no"@) ==> dialog_key(d, DialogKey::No)
            == (d, Some(1usize)),
        d.buttons.len() < 2 ==> dialog_key(d, DialogKey::No) == (d, None::<usize>),
{
}

/// In the main menu, ENTER chooses the number of the highlighted entry, and `q` the exit.
pub proof fn law_menu_enter_chooses_highlight(m: MainMenuView)
    requires
        menu_wf(m),
    ensures
        menu_key(m, MenuKey::Enter) == (m, Some(m.categories[m.selected_category].1[m.selected_option].0)),
        menu_key(m, MenuKey::Quit).1 == Some(99u32),
{
}

/// The bars always fit on a screen at least as wide as their number: they start inside it
/// and end by its edge, and are centred.
pub proof fn law_bars_fit(width: u16, len: usize)
    requires
        0 < len <= width,
    ensures
        ({
            let (bar_width, spacing, start) = crate::colors::bar_layout_spec(width as int, len as int);
            &&& 1 <= bar_width <= 3
            &&& start + len * bar_width + (len - 1) * spacing <= width
            &&& width - (start + len * bar_width + (len - 1) * spacing) - start <= 1
        }),
{
    let (bw, sp, needed) = crate::colors::bar_sizes(width as int, len as int);
    if needed > width {
        assert(len * 1 + (len - 1) * 0 == len);
    }
}

/// In the array manager, ENTER on selecting, viewing or deleting acts on the highlighted
/// array, and on the first two entries makes a new array.
pub proof fn law_manager_enter_acts_on_highlight(menu: int, arr: int, n: int)
    requires
        screen_wf(menu, arr, n),
        n > 0,
    ensures
        menu == 0 ==> manager_key(menu, arr, n, TextKey::Enter).2 == ManagerAction::GenerateRandom,
        menu == 1 ==> manager_key(menu, arr, n, TextKey::Enter).2 == ManagerAction::EnterManually,
        menu == 2 ==> manager_key(menu, arr, n, TextKey::Enter).2 == ManagerAction::ShowSelection(arr as usize),
        menu == 3 ==> manager_key(menu, arr, n, TextKey::Enter).2 == ManagerAction::ShowDetails(arr as usize),
        menu == 4 ==> manager_key(menu, arr, n, TextKey::Enter).2 == ManagerAction::ConfirmDelete(arr as usize),
        menu == 5 ==> manager_key(menu, arr, n, TextKey::Enter).2 == ManagerAction::Back,
        manager_key(menu, arr, n, TextKey::Escape).2 == ManagerAction::Back,
{
}

/// In the array manager, while an array is being picked, moving up undoes moving down
/// among the arrays, and the entry stays.
pub proof fn law_manager_up_undoes_down(menu: int, arr: int, n: int)
    requires
        screen_wf(menu, arr, n),
        2 <= menu <= 4,
        n > 0,
    ensures
        ({
            let (m1, a1, _) = manager_key(menu, arr, n, TextKey::Down);
            let (m2, a2, _) = manager_key(m1, a1, n, TextKey::Up);
            m1 == menu && m2 == menu && a2 == arr
        }),
{
    if arr + 1 < n {
        assert((arr + 1) % n == arr + 1) by (nonlinear_arith)
            requires
                0 <= arr + 1 < n,
        ;
    } else {
        assert((arr + 1) % n == 0) by (nonlinear_arith)
            requires
                arr + 1 == n,
                n > 0,
        ;
    }
}

/// ESC leaves the speed field without a speed, and cancels the typed-in array whatever
/// was typed.
pub proof fn law_escape_cancels(w: SpeedInputView, v: ManualDialogView)
    ensures
        speed_key(w, TextKey::Escape).1 == SpeedOutcome::Done(None),
        manual_key(v, TextKey::Escape).1 == ManualResult::Cancelled,
{
}

} // verus!
