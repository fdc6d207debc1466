use vstd::prelude::*;
use vstd::string::StringExecFns;
use crate::text::{append_decimal, decimal_text};
use crate::colors::{TermColor, VisualizerDrawer, pointer_colors};
use crate::laws::{law_heap_build_step, law_heap_extraction_ends_sorted, law_heap_extraction_step};
use crate::array_manager::ArrayData;
use crate::base_visualizer::{ControlKey, faster_speed, slower_speed, lower_speed, raise_speed};
use crate::enums::{SelectionState, normalized_from, all_sorted, normalize_states_from, uniform_states, mark_states_sorted};
use crate::sequences::{sorted, permutation, swapped, lemma_swap_permutation, lemma_short_sorted, lemma_permutation_transitive};

verus! {

/// The phases of heap sort.
#[derive(Clone, Copy, PartialEq, Eq, Debug, Structural)]
pub enum HeapPhase {
    /// Building the max heap, one sift-down step at a time.
    BuildingMaxHeap,
    /// Sifting the root down after an extraction.
    HeapifyDown,
    /// Deciding whether another maximum is to be extracted.
    ExtractingMax,
    /// Swapping the root with the last element of the heap.
    SwappingRootWithLast,
    /// Sorting is complete.
    Done,
}

/// Visualizes heap sort one step at a time.
pub struct HeapSortVisualizer {
    array: Vec<u32>,
    original_array: Vec<u32>,
    states: Vec<SelectionState>,
    comparisons: u32,
    swaps: u32,
    is_running: bool,
    is_paused: bool,
    speed: u64,
    completed: bool,
    heap_size: usize,
    current_index: usize,
    left_child: usize,
    right_child: usize,
    largest: usize,
    phase: HeapPhase,
    build_heap_index: i32,
}

/// The abstract state of a [`HeapSortVisualizer`].
pub struct HeapView {
    pub array: Seq<u32>,
    pub original: Seq<u32>,
    pub states: Seq<SelectionState>,
    pub comparisons: u32,
    pub swaps: u32,
    pub is_running: bool,
    pub is_paused: bool,
    pub speed: u64,
    pub completed: bool,
    pub heap_size: int,
    pub current_index: int,
    pub left_child: int,
    pub right_child: int,
    pub largest: int,
    pub phase: HeapPhase,
    pub build_heap_index: int,
}

impl HeapView {
    /// The invariant of a visualizer state reachable from `new` and `reset`.
    pub open spec fn inv(self) -> bool {
        let n = self.array.len();
        &&& n <= i32::MAX
        &&& self.original.len() == n
        &&& self.states.len() == n
        &&& permutation(self.array, self.original)
        &&& self.speed <= 3000
        &&& 0 <= self.heap_size <= n
        &&& 0 <= self.current_index < n || (n == 0 && self.current_index == 0)
        &&& -1 <= self.build_heap_index < n
        &&& self.completed ==> n <= 1 || self.phase == HeapPhase::Done
    }

    /// One sift-down step at `current_index`, inside the first `heap_size` positions: the
    /// node and its children are compared, and the largest is swapped up. The result
    /// is the new state and whether the sift continues below.
    pub open spec fn heapify(self) -> (Self, bool) {
        let n = self.array.len() as int;
        let hs = self.heap_size;
        let a = self.array;
        let ci = self.current_index;
        let left = 2 * ci + 1;
        let right = 2 * ci + 2;
        let s1 = if ci < n { self.states.update(ci, SelectionState::CurrentMin) } else { self.states };
        let left_seen = left < hs && left < n;
        let s2 = if left_seen { s1.update(left, SelectionState::PartitionLeft) } else { s1 };
        let c1 = if left_seen { self.comparisons + 1 } else { self.comparisons as int };
        let lg1 = if left_seen && a[left] > a[ci] { left } else { ci };
        let right_seen = right < hs && right < n;
        let s3 = if right_seen { s2.update(right, SelectionState::PartitionRight) } else { s2 };
        let c2 = if right_seen { c1 + 1 } else { c1 };
        let lg = if right_seen && a[right] > a[lg1] { right } else { lg1 };
        let s4 = if lg < n { s3.update(lg, SelectionState::Selected) } else { s3 };
        let looked = HeapView {
            comparisons: c2 as u32,
            largest: lg,
            left_child: left,
            right_child: right,
            ..self
        };
        if lg != ci {
            (
                HeapView {
                    states: s4.update(ci, SelectionState::Swapping).update(lg, SelectionState::Swapping),
                    array: swapped(a, ci, lg),
                    swaps: (self.swaps + 1) as u32,
                    current_index: lg,
                    ..looked
                },
                2 * lg + 1 < hs,
            )
        } else {
            (HeapView { states: s4, ..looked }, false)
        }
    }

    /// One step of the algorithm from `self` (not completed) to `post`, returning `ret`.
    pub open spec fn step_to(self, post: Self, ret: bool) -> bool {
        let n = self.array.len() as int;
        let hs = self.heap_size;
        let same = HeapView { states: normalized_from(self.states, hs), ..self };
        match self.phase {
            HeapPhase::BuildingMaxHeap => ret && if self.build_heap_index >= 0 {
                let h = same.heapify();
                let b = self.build_heap_index;
                post == if h.1 {
                    h.0
                } else {
                    HeapView {
                        build_heap_index: b - 1,
                        current_index: if b >= 1 { b - 1 } else { h.0.current_index },
                        ..h.0
                    }
                }
            } else {
                post == HeapView { phase: HeapPhase::ExtractingMax, ..same }
            },
            HeapPhase::ExtractingMax => if hs > 1 {
                ret && post == HeapView { phase: HeapPhase::SwappingRootWithLast, ..same }
            } else if hs == 1 {
                !ret && post == HeapView {
                    states: if n > 0 { same.states.update(0, SelectionState::Sorted) } else { same.states },
                    heap_size: 0,
                    phase: HeapPhase::Done,
                    ..same
                }
            } else {
                !ret && post == HeapView { phase: HeapPhase::Done, ..same }
            },
            HeapPhase::SwappingRootWithLast => if hs > 1 && hs <= n {
                ret && post == HeapView {
                    states: same.states.update(0, SelectionState::Swapping).update(hs - 1, SelectionState::Sorted),
                    array: swapped(self.array, 0, hs - 1),
                    swaps: (self.swaps + 1) as u32,
                    heap_size: hs - 1,
                    current_index: 0,
                    phase: HeapPhase::HeapifyDown,
                    ..same
                }
            } else {
                !ret && post == HeapView { phase: HeapPhase::Done, ..same }
            },
            HeapPhase::HeapifyDown => {
                let h = same.heapify();
                ret && post == if h.1 {
                    h.0
                } else {
                    HeapView { phase: HeapPhase::ExtractingMax, ..h.0 }
                }
            },
            HeapPhase::Done => !ret && post == same,
        }
    }
}

/// The children of node `p` that lie in the first `h` positions are no larger than it.
pub open spec fn node_ok(a: Seq<u32>, h: int, p: int) -> bool {
    &&& 2 * p + 1 < h ==> a[2 * p + 1] <= a[p]
    &&& 2 * p + 2 < h ==> a[2 * p + 2] <= a[p]
}

/// The first `h` positions of `a` form a max heap.
pub open spec fn max_heap(a: Seq<u32>, h: int) -> bool {
    forall|p: int| 0 <= p < h ==> #[trigger] node_ok(a, h, p)
}

/// The nodes from `b` on in the first `h` positions keep the max-heap order but for node
/// `c`, whose children, where `c` lies past `b`, are still no larger than `c`'s parent.
pub open spec fn heap_but_from(a: Seq<u32>, h: int, c: int, b: int) -> bool {
    &&& forall|p: int| b <= p < h && p != c ==> #[trigger] node_ok(a, h, p)
    &&& c > b ==> {
        &&& 2 * c + 1 < h ==> a[2 * c + 1] <= a[(c - 1) / 2]
        &&& 2 * c + 2 < h ==> a[2 * c + 2] <= a[(c - 1) / 2]
    }
}

/// The first `h` positions form a max heap but for node `c`, whose children are still no
/// larger than `c`'s parent.
pub open spec fn heap_but(a: Seq<u32>, h: int, c: int) -> bool {
    heap_but_from(a, h, c, 0)
}

impl HeapView {
    /// What the extraction phase keeps: the positions from `heap_size` on hold the largest
    /// values, in order; before them lies a max heap, or during a sift-down a max heap but
    /// for the node being sifted; and once done, at most one value is left before them.
    pub open spec fn extraction_in_order(self) -> bool {
        let a = self.array;
        let n = a.len() as int;
        let h = self.heap_size;
        &&& 0 <= h <= n
        &&& sorted(a.subrange(h, n))
        &&& forall|x: int, y: int| 0 <= x < h <= y < n ==> a[x] <= a[y]
        &&& match self.phase {
            HeapPhase::BuildingMaxHeap => false,
            HeapPhase::ExtractingMax => max_heap(a, h),
            HeapPhase::SwappingRootWithLast => max_heap(a, h),
            HeapPhase::HeapifyDown => 0 <= self.current_index < h && heap_but(a, h, self.current_index),
            HeapPhase::Done => h <= 1,
        }
    }
}

impl HeapView {
    /// How much is left: whether the heap is still being built, the nodes left to build
    /// or the values left in the heap, the phase of the extraction, and how far the
    /// sifted node is from the end.
    pub open spec fn heap_measure(self) -> (int, int, int, int) {
        let n = self.array.len() as int;
        let building = self.phase == HeapPhase::BuildingMaxHeap;
        let rank = match self.phase {
            HeapPhase::HeapifyDown => 3int,
            HeapPhase::ExtractingMax => 2int,
            HeapPhase::SwappingRootWithLast => 1int,
            _ => 0int,
        };
        (
            if building { 1int } else { 0int },
            if building { self.build_heap_index + 1 } else { self.heap_size },
            rank,
            n - self.current_index,
        )
    }

    /// What makes heap sort sort: while building, the whole array is the heap, the nodes
    /// from `build_heap_index` on keep the max-heap order but for the node being sifted
    /// down, and once all nodes are built it is a max heap; then the extraction is in order.
    pub open spec fn heap_in_order(self) -> bool {
        let a = self.array;
        let n = a.len() as int;
        let b = self.build_heap_index;
        if self.phase == HeapPhase::BuildingMaxHeap {
            &&& self.heap_size == n
            &&& b >= 0 ==> b <= self.current_index < n && heap_but_from(a, n, self.current_index, b)
            &&& b < 0 ==> max_heap(a, n)
        } else {
            self.extraction_in_order()
        }
    }
}

/// The state to which `reset` returns a visualizer.
pub open spec fn heap_reset(pre: HeapView) -> HeapView {
    let n = pre.original.len();
    HeapView {
        array: pre.original,
        original: pre.original,
        states: if n <= 1 { all_sorted(n) } else { Seq::new(n, |k: int| SelectionState::Normal) },
        comparisons: 0,
        swaps: 0,
        is_running: false,
        is_paused: false,
        speed: pre.speed,
        completed: n <= 1,
        heap_size: n as int,
        current_index: if n <= 1 { 0 } else { n / 2 - 1 },
        left_child: 0,
        right_child: 0,
        largest: 0,
        phase: if n <= 1 { HeapPhase::Done } else { HeapPhase::BuildingMaxHeap },
        build_heap_index: if n <= 1 { -1 } else { n / 2 - 1 },
    }
}

/// The state in which a visualizer starts on `data`.
pub open spec fn heap_start(data: Seq<u32>) -> HeapView {
    let n = data.len();
    HeapView {
        array: data,
        original: data,
        states: if n <= 1 { all_sorted(n) } else { Seq::new(n, |k: int| SelectionState::Normal) },
        comparisons: 0,
        swaps: 0,
        is_running: false,
        is_paused: false,
        speed: 800,
        completed: n <= 1,
        heap_size: n as int,
        current_index: if n <= 1 { 0 } else { n / 2 - 1 },
        left_child: 0,
        right_child: 0,
        largest: 0,
        phase: if n <= 1 { HeapPhase::Done } else { HeapPhase::BuildingMaxHeap },
        build_heap_index: if n <= 1 { -1 } else { n / 2 - 1 },
    }
}

impl HeapView {
    /// What a key press does to the visualizer; `ret` is `false` when the key leaves it.
    pub open spec fn key_to(self, key: ControlKey, post: Self, ret: bool) -> bool {
        match key {
            ControlKey::Escape => !ret && post == self,
            ControlKey::Space => ret && if self.completed {
                post == heap_reset(self)
            } else if self.is_running {
                post == HeapView { is_paused: !self.is_paused, ..self }
            } else {
                post == HeapView { is_running: true, is_paused: false, ..self }
            },
            ControlKey::Reset => ret && post == heap_reset(self),
            ControlKey::Step => ret && if !self.completed && !self.is_running {
                exists|b: bool| self.step_to(post, b)
            } else {
                post == self
            },
            ControlKey::Faster => ret && post == HeapView {
                speed: faster_speed(self.speed, 100),
                ..self
            },
            ControlKey::Slower => ret && post == HeapView {
                speed: slower_speed(self.speed, 100, 3000),
                ..self
            },
            _ => ret && post == self,
        }
    }

    /// One automatic step: a step, and when it reports the end, the run stops,
    /// is marked completed and every element is marked sorted.
    pub open spec fn auto_step_to(self, post: Self) -> bool {
        if self.is_running && !self.is_paused && !self.completed {
            exists|mid: Self, b: bool| #[trigger] self.step_to(mid, b) && if b {
                post == mid
            } else {
                post == HeapView {
                    is_running: false,
                    completed: true,
                    states: all_sorted(mid.states.len()),
                    ..mid
                }
            }
        } else {
            post == self
        }
    }
}

impl View for HeapSortVisualizer {
    type V = HeapView;

    closed spec fn view(&self) -> HeapView {
        HeapView {
            array: self.array@,
            original: self.original_array@,
            states: self.states@,
            comparisons: self.comparisons,
            swaps: self.swaps,
            is_running: self.is_running,
            is_paused: self.is_paused,
            speed: self.speed,
            completed: self.completed,
            heap_size: self.heap_size as int,
            current_index: self.current_index as int,
            left_child: self.left_child as int,
            right_child: self.right_child as int,
            largest: self.largest as int,
            phase: self.phase,
            build_heap_index: self.build_heap_index as int,
        }
    }
}

/// The line that says what the sort is doing.
pub open spec fn heap_operation_text(v: HeapView) -> Seq<char> {
    if v.completed {
        "✓ Array is now sorted using Heap Sort!"@
    } else {
        match v.phase {
            HeapPhase::BuildingMaxHeap => if v.build_heap_index >= 0 {
                "Building max heap: heapifying subtree rooted at index "@ + decimal_text((v.build_heap_index) as nat)
            } else {
                "Building max heap completed"@
            },
            HeapPhase::HeapifyDown => if v.current_index < v.array.len() && v.largest < v.array.len() {
                "Heapify down from index "@ + decimal_text((v.current_index) as nat) + " (value: "@ + decimal_text((v.array[v.current_index]) as nat) + "), largest so far: "@ + decimal_text((v.largest) as nat) + " (value: "@ + decimal_text((v.array[v.largest]) as nat) + ")"@
            } else {
                "Heapifying down..."@
            },
            HeapPhase::ExtractingMax => "Extracting maximum element from heap (size: "@ + decimal_text((v.heap_size) as nat) + ")"@,
            HeapPhase::SwappingRootWithLast => if v.heap_size > 0 && v.heap_size <= v.array.len() {
                "Swapping root (max) with last heap element at index "@ + decimal_text((v.heap_size - 1) as nat)
            } else {
                "Swapping root with last element"@
            },
            HeapPhase::Done => "Heap sort completed!"@,
        }
    }
}

/// The bar colors of element `i`: elements past the heap that carry no other state are
/// dark grey; the right child is orange.
pub open spec fn heap_bar_colors(v: HeapView, i: int) -> (TermColor, TermColor) {
    if v.states[i] == SelectionState::Normal && i >= v.heap_size {
        (TermColor::DarkGrey, TermColor::Reset)
    } else {
        pointer_colors(v.states[i])
    }
}

/// An index in the line on the heap's structure: the number where it is below `bound`,
/// else `N/A`.
pub open spec fn index_or_na(index: int, bound: int) -> Seq<char> {
    if 0 <= index < bound {
        decimal_text(index as nat)
    } else {
        "N/A"@
    }
}

/// The line on the heap's structure; none once the heap is empty.
pub open spec fn heap_structure_line(v: HeapView) -> Option<Seq<char>> {
    if v.heap_size == 0 {
        None
    } else {
        Some("Heap Size: "@ + decimal_text(v.heap_size as nat) + " | Current: "@ + index_or_na(
            v.current_index,
            v.array.len() as int,
        ) + " | Left Child: "@ + index_or_na(v.left_child, v.heap_size) + " | Right Child: "@
            + index_or_na(v.right_child, v.heap_size) + " | Largest: "@ + index_or_na(
            v.largest,
            v.array.len() as int,
        ))
    }
}

/// The name of each phase in the statistics.
pub open spec fn heap_phase_label(phase: HeapPhase) -> Seq<char> {
    match phase {
        HeapPhase::BuildingMaxHeap => "Building Max Heap"@,
        HeapPhase::HeapifyDown => "Heapifying Down"@,
        HeapPhase::ExtractingMax => "Extracting Maximum"@,
        HeapPhase::SwappingRootWithLast => "Swapping Root"@,
        HeapPhase::Done => "Done"@,
    }
}

impl HeapSortVisualizer {
    /// The invariant that every state reachable from `new` keeps.
    pub open spec fn wf(&self) -> bool {
        self@.inv() && self@.heap_in_order()
    }

    /// Whether the counters leave room for another step (one step may compare twice).
    pub fn can_step(&self) -> (r: bool)
        ensures
            r == (self@.comparisons < u32::MAX - 1 && self@.swaps < u32::MAX),
    {
        self.comparisons < u32::MAX - 1 && self.swaps < u32::MAX
    }

    /// Creates a visualizer for the given array; arrays of at most one element start completed.
    pub fn new(array_data: &ArrayData) -> (r: Self)
        requires
            array_data.data@.len() <= i32::MAX,
        ensures
            r.wf(),
            r@ == heap_start(array_data.data@),
    {
        let array = array_data.data.clone();
        let len = array.len();
        proof {
            assert(array@ =~= array_data.data@);
        }
        let original_array = array.clone();
        proof {
            assert(original_array@ =~= array@);
        }
        if len <= 1 {
            let r = Self {
                original_array,
                array,
                states: uniform_states(SelectionState::Sorted, len),
                comparisons: 0,
                swaps: 0,
                is_running: false,
                is_paused: false,
                speed: 800,
                completed: true,
                heap_size: len,
                current_index: 0,
                left_child: 0,
                right_child: 0,
                largest: 0,
                phase: HeapPhase::Done,
                build_heap_index: -1,
            };
            proof {
                assert(r@.states =~= heap_start(array_data.data@).states);
            }
            r
        } else {
            let half = (len / 2) as i32;
            let r = Self {
                original_array,
                array,
                states: uniform_states(SelectionState::Normal, len),
                comparisons: 0,
                swaps: 0,
                is_running: false,
                is_paused: false,
                speed: 800,
                completed: false,
                heap_size: len,
                current_index: (half - 1) as usize,
                left_child: 0,
                right_child: 0,
                largest: 0,
                phase: HeapPhase::BuildingMaxHeap,
                build_heap_index: half - 1,
            };
            proof {
                assert(r@.states =~= heap_start(array_data.data@).states);
            }
            r
        }
    }

    /// One sift-down step at the current index; returns whether the sift continues.
    fn heapify_down_step(&mut self) -> (ret: bool)
        requires
            old(self)@.inv(),
            old(self)@.comparisons < u32::MAX - 1,
            old(self)@.swaps < u32::MAX,
        ensures
            final(self)@.inv(),
            (final(self)@, ret) == old(self)@.heapify(),
    {
        let ghost pre = self@;
        let n = self.array.len();
        let left = 2 * self.current_index + 1;
        let right = 2 * self.current_index + 2;
        if self.current_index < n {
            self.states.set(self.current_index, SelectionState::CurrentMin);
        }
        self.largest = self.current_index;
        self.left_child = left;
        self.right_child = right;
        if left < self.heap_size && left < n {
            self.states.set(left, SelectionState::PartitionLeft);
            self.comparisons = self.comparisons + 1;
            if self.array[left] > self.array[self.largest] {
                self.largest = left;
            }
        }
        if right < self.heap_size && right < n {
            self.states.set(right, SelectionState::PartitionRight);
            self.comparisons = self.comparisons + 1;
            if self.array[right] > self.array[self.largest] {
                self.largest = right;
            }
        }
        if self.largest < n {
            self.states.set(self.largest, SelectionState::Selected);
        }
        if self.largest != self.current_index {
            self.states.set(self.current_index, SelectionState::Swapping);
            self.states.set(self.largest, SelectionState::Swapping);
            let c = self.current_index;
            let l = self.largest;
            let tmp = self.array[c];
            let other = self.array[l];
            self.array.set(c, other);
            self.array.set(l, tmp);
            self.swaps = self.swaps + 1;
            self.current_index = self.largest;
            proof {
                lemma_swap_permutation(pre.array, pre.current_index, self.largest as int);
                assert(self@.array =~= swapped(pre.array, pre.current_index, self.largest as int));
                assert(self@.states =~= pre.heapify().0.states);
            }
            let next_left = 2 * self.current_index + 1;
            if next_left < self.heap_size {
                return true;
            }
            return false;
        }
        proof {
            assert(self@.states =~= pre.heapify().0.states);
        }
        false
    }

    /// Performs one step of heap sort; returns `false` once the sort is over.
    /// The array always holds the original values, and once the sort is over it is sorted.
    pub fn step(&mut self) -> (ret: bool)
        requires
            old(self).wf(),
            old(self)@.comparisons < u32::MAX - 1,
            old(self)@.swaps < u32::MAX,
        ensures
            final(self).wf(),
            old(self)@.completed ==> !ret && final(self)@ == old(self)@,
            !old(self)@.completed ==> old(self)@.step_to(final(self)@, ret),
            permutation(final(self)@.array, final(self)@.original),
            !ret ==> sorted(final(self)@.array),
    {
        let ghost pre = self@;
        let ret = self.advance();
        proof {
            if !pre.completed {
                if pre.phase == HeapPhase::BuildingMaxHeap {
                    law_heap_build_step(pre, self@, ret);
                } else {
                    law_heap_extraction_step(pre, self@, ret);
                }
            }
            if !ret {
                if self@.array.len() <= 1 {
                    lemma_short_sorted(self@.array);
                } else {
                    assert(self@.phase == HeapPhase::Done);
                    law_heap_extraction_ends_sorted(self@);
                }
            }
        }
        ret
    }

    /// One step, as `step` states it but for the extraction's order.
    fn advance(&mut self) -> (ret: bool)
        requires
            old(self)@.inv(),
            old(self)@.comparisons < u32::MAX - 1,
            old(self)@.swaps < u32::MAX,
        ensures
            final(self)@.inv(),
            old(self)@.completed ==> !ret && final(self)@ == old(self)@,
            !old(self)@.completed ==> old(self)@.step_to(final(self)@, ret),
            permutation(final(self)@.array, final(self)@.original),
    {
        if self.completed {
            return false;
        }
        let ghost pre = self@;
        normalize_states_from(&mut self.states, self.heap_size);
        let n = self.array.len();
        match self.phase {
            HeapPhase::BuildingMaxHeap => {
                if self.build_heap_index >= 0 {
                    if !self.heapify_down_step() {
                        self.build_heap_index = self.build_heap_index - 1;
                        if self.build_heap_index >= 0 {
                            self.current_index = self.build_heap_index as usize;
                        }
                    }
                    true
                } else {
                    self.phase = HeapPhase::ExtractingMax;
                    true
                }
            },
            HeapPhase::ExtractingMax => {
                if self.heap_size > 1 {
                    self.phase = HeapPhase::SwappingRootWithLast;
                    true
                } else if self.heap_size == 1 {
                    if n > 0 {
                        self.states.set(0, SelectionState::Sorted);
                    }
                    self.heap_size = 0;
                    self.phase = HeapPhase::Done;
                    false
                } else {
                    self.phase = HeapPhase::Done;
                    false
                }
            },
            HeapPhase::SwappingRootWithLast => {
                if self.heap_size > 1 && self.heap_size <= n {
                    self.states.set(0, SelectionState::Swapping);
                    self.states.set(self.heap_size - 1, SelectionState::Swapping);
                    let last = self.heap_size - 1;
                    let tmp = self.array[0];
                    let other = self.array[last];
                    self.array.set(0, other);
                    self.array.set(last, tmp);
                    self.swaps = self.swaps + 1;
                    self.states.set(self.heap_size - 1, SelectionState::Sorted);
                    self.heap_size = self.heap_size - 1;
                    self.current_index = 0;
                    self.phase = HeapPhase::HeapifyDown;
                    proof {
                        lemma_swap_permutation(pre.array, 0, last as int);
                        assert(self@.array =~= swapped(pre.array, 0, last as int));
                        assert(self@.states =~= normalized_from(pre.states, pre.heap_size).update(0, SelectionState::Swapping).update(last as int, SelectionState::Sorted));
                    }
                    true
                } else {
                    self.phase = HeapPhase::Done;
                    false
                }
            },
            HeapPhase::HeapifyDown => {
                if self.heapify_down_step() {
                    true
                } else {
                    self.phase = HeapPhase::ExtractingMax;
                    true
                }
            },
            HeapPhase::Done => false,
        }
    }

    /// Returns the visualizer to its initial state on the original array, keeping the speed.
    pub fn reset(&mut self)
        requires
            old(self).wf(),
        ensures
            final(self).wf(),
            final(self)@ == heap_reset(old(self)@),
    {
        let len = self.original_array.len();
        self.array = self.original_array.clone();
        proof {
            assert(self.array@ =~= self.original_array@);
        }
        self.states = uniform_states(SelectionState::Normal, len);
        self.comparisons = 0;
        self.swaps = 0;
        self.is_running = false;
        self.is_paused = false;
        self.completed = false;
        self.heap_size = len;
        self.current_index = 0;
        self.left_child = 0;
        self.right_child = 0;
        self.largest = 0;
        if len <= 1 {
            self.completed = true;
            self.states = uniform_states(SelectionState::Sorted, len);
            self.phase = HeapPhase::Done;
            self.build_heap_index = -1;
        } else {
            self.phase = HeapPhase::BuildingMaxHeap;
            let half = (len / 2) as i32;
            self.build_heap_index = half - 1;
            self.current_index = (half - 1) as usize;
        }
        proof {
            assert(self@.states =~= heap_reset(old(self)@).states);
        }
    }

    /// Marks every element sorted.
    pub fn mark_all_sorted(&mut self)
        requires
            old(self).wf(),
        ensures
            final(self).wf(),
            final(self)@ == (HeapView { states: all_sorted(old(self)@.states.len()), ..old(self)@ }),
    {
        let ghost pre = self@;
        mark_states_sorted(&mut self.states);
    }

    /// Handles one key press of the visualizer loop; returns `false` when the key leaves it.
    pub fn handle_key(&mut self, key: ControlKey) -> (ret: bool)
        requires
            old(self).wf(),
            old(self)@.comparisons < u32::MAX - 1,
            old(self)@.swaps < u32::MAX,
        ensures
            final(self).wf(),
            old(self)@.key_to(key, final(self)@, ret),
    {
        let ghost pre = self@;
        match key {
            ControlKey::Space => {
                if self.completed {
                    self.reset();
                } else if self.is_running {
                    self.is_paused = !self.is_paused;
                } else {
                    self.is_running = true;
                    self.is_paused = false;
                }
                true
            },
            ControlKey::Reset => {
                self.reset();
                true
            },
            ControlKey::Step => {
                if !self.completed && !self.is_running {
                    let _ = self.step();
                }
                true
            },
            ControlKey::Faster => {
                self.speed = lower_speed(self.speed, 100);
                true
            },
            ControlKey::Slower => {
                self.speed = raise_speed(self.speed, 100, 3000);
                true
            },
            ControlKey::Escape => false,
            _ => true,
        }
    }

    /// Whether the loop should wait and take an automatic step.
    pub fn wants_auto_step(&self) -> (r: bool)
        ensures
            r == (self@.is_running && !self@.is_paused && !self@.completed),
    {
        self.is_running && !self.is_paused && !self.completed
    }

    /// Takes an automatic step when running; when the step reports the end, stops the
    /// run, marks it completed and marks every element sorted.
    pub fn auto_step(&mut self)
        requires
            old(self).wf(),
            old(self)@.comparisons < u32::MAX - 1,
            old(self)@.swaps < u32::MAX,
        ensures
            final(self).wf(),
            old(self)@.auto_step_to(final(self)@),
    {
        if self.is_running && !self.is_paused && !self.completed {
            let ghost pre = self@;
            let more = self.step();
            let ghost mid = self@;
            if !more {
                self.is_running = false;
                self.completed = true;
                self.mark_all_sorted();
            }
            proof {
                assert(pre.step_to(mid, more));
            }
        }
    }

    /// The line that says what the sort is doing.
    pub fn get_current_operation(&self) -> (r: String)
        requires
            self.wf(),
        ensures
            r@ == heap_operation_text(self@),
    {
        if self.completed {
            return String::from_str("✓ Array is now sorted using Heap Sort!");
        }
        match self.phase {
            HeapPhase::BuildingMaxHeap => {
                if self.build_heap_index >= 0 {
                    let mut r = String::from_str("Building max heap: heapifying subtree rooted at index ");
                    append_decimal(&mut r, (self.build_heap_index) as u64);
                    r
                } else {
                    let mut r = String::from_str("Building max heap completed");
                    r
                }
            },
            HeapPhase::HeapifyDown => {
                if self.current_index < self.array.len() && self.largest < self.array.len() {
                    let mut r = String::from_str("Heapify down from index ");
                    append_decimal(&mut r, (self.current_index) as u64);
                    r.append(" (value: ");
                    append_decimal(&mut r, (self.array[self.current_index]) as u64);
                    r.append("), largest so far: ");
                    append_decimal(&mut r, (self.largest) as u64);
                    r.append(" (value: ");
                    append_decimal(&mut r, (self.array[self.largest]) as u64);
                    r.append(")");
                    r
                } else {
                    let mut r = String::from_str("Heapifying down...");
                    r
                }
            },
            HeapPhase::ExtractingMax => {
                let mut r = String::from_str("Extracting maximum element from heap (size: ");
                append_decimal(&mut r, (self.heap_size) as u64);
                r.append(")");
                r
            },
            HeapPhase::SwappingRootWithLast => {
                if self.heap_size > 0 && self.heap_size <= self.array.len() {
                    let mut r = String::from_str("Swapping root (max) with last heap element at index ");
                    append_decimal(&mut r, (self.heap_size - 1) as u64);
                    r
                } else {
                    let mut r = String::from_str("Swapping root with last element");
                    r
                }
            },
            HeapPhase::Done => {
                let mut r = String::from_str("Heap sort completed!");
                r
            },
        }
    }

    /// The bar colors of element `i`.
    pub fn bar_colors(&self, i: usize) -> (r: (TermColor, TermColor))
        requires
            self.wf(),
            i < self@.array.len(),
        ensures
            r == heap_bar_colors(self@, i as int),
    {
        if self.states[i] == SelectionState::Normal && i >= self.heap_size {
            (TermColor::DarkGrey, TermColor::Reset)
        } else {
            VisualizerDrawer::get_pointer_colors(self.states[i])
        }
    }

    /// The line on the heap's structure: its size and the indices in play.
    pub fn heap_structure_text(&self) -> (r: Option<String>)
        requires
            self.wf(),
        ensures
            r matches Some(t) ==> heap_structure_line(self@) == Some(t@),
            r is None ==> heap_structure_line(self@) is None,
    {
        if self.heap_size == 0 {
            return None;
        }
        let mut r = String::from_str("Heap Size: ");
        append_decimal(&mut r, self.heap_size as u64);
        r.append(" | Current: ");
        append_index_or_na(&mut r, self.current_index, self.array.len());
        r.append(" | Left Child: ");
        append_index_or_na(&mut r, self.left_child, self.heap_size);
        r.append(" | Right Child: ");
        append_index_or_na(&mut r, self.right_child, self.heap_size);
        r.append(" | Largest: ");
        append_index_or_na(&mut r, self.largest, self.array.len());
        Some(r)
    }

    /// The name of the current phase in the statistics.
    pub fn phase_label(&self) -> (r: &'static str)
        ensures
            r@ == heap_phase_label(self@.phase),
    {
        match self.phase {
            HeapPhase::BuildingMaxHeap => "Building Max Heap",
            HeapPhase::HeapifyDown => "Heapifying Down",
            HeapPhase::ExtractingMax => "Extracting Maximum",
            HeapPhase::SwappingRootWithLast => "Swapping Root",
            HeapPhase::Done => "Done",
        }
    }

    /// The array in its current order.
    pub fn array(&self) -> (r: &Vec<u32>)
        ensures
            r@ == self@.array,
    {
        &self.array
    }

    /// The visual state of each element.
    pub fn states(&self) -> (r: &Vec<SelectionState>)
        ensures
            r@ == self@.states,
    {
        &self.states
    }

    /// Number of comparisons so far.
    pub fn comparisons(&self) -> (r: u32)
        ensures
            r == self@.comparisons,
    {
        self.comparisons
    }

    /// Number of swaps or moves so far.
    pub fn swaps(&self) -> (r: u32)
        ensures
            r == self@.swaps,
    {
        self.swaps
    }

    /// Delay between automatic steps, in milliseconds.
    pub fn speed(&self) -> (r: u64)
        ensures
            r == self@.speed,
    {
        self.speed
    }

    /// Whether the run is going.
    pub fn is_running(&self) -> (r: bool)
        ensures
            r == self@.is_running,
    {
        self.is_running
    }

    /// Whether the run is paused.
    pub fn is_paused(&self) -> (r: bool)
        ensures
            r == self@.is_paused,
    {
        self.is_paused
    }

    /// Number of elements still in the heap.
    pub fn heap_size(&self) -> (r: usize)
        ensures
            r as int == self@.heap_size,
    {
        self.heap_size
    }

    /// The node being sifted down.
    pub fn current_index(&self) -> (r: usize)
        ensures
            r as int == self@.current_index,
    {
        self.current_index
    }

    /// Left child of the node last sifted.
    pub fn left_child(&self) -> (r: usize)
        ensures
            r as int == self@.left_child,
    {
        self.left_child
    }

    /// Right child of the node last sifted.
    pub fn right_child(&self) -> (r: usize)
        ensures
            r as int == self@.right_child,
    {
        self.right_child
    }

    /// The largest of the node and its children last seen.
    pub fn largest(&self) -> (r: usize)
        ensures
            r as int == self@.largest,
    {
        self.largest
    }

    /// The current phase.
    pub fn phase(&self) -> (r: HeapPhase)
        ensures
            r == self@.phase,
    {
        self.phase
    }

    /// The next node of the heap-building pass, -1 once it is over.
    pub fn build_heap_index(&self) -> (r: i32)
        ensures
            r == self@.build_heap_index,
    {
        self.build_heap_index
    }

    /// Whether the sort has completed.
    pub fn is_completed(&self) -> (r: bool)
        ensures
            r == self@.completed,
    {
        self.completed
    }
}

/// Appends `index`, or `N/A` where it is not below `bound`.
fn append_index_or_na(s: &mut String, index: usize, bound: usize)
    ensures
        final(s)@ == old(s)@ + index_or_na(index as int, bound as int),
{
    if index < bound {
        append_decimal(s, index as u64);
    } else {
        s.append("N/A");
    }
}

} // verus!
