use vstd::prelude::*;
use vstd::string::StringExecFns;
use crate::text::{append_decimal, decimal_text};
use crate::colors::{TermColor, VisualizerDrawer, pointer_colors};
use crate::array_manager::ArrayData;
use crate::base_visualizer::{ControlKey, faster_speed, slower_speed, lower_speed, raise_speed};
use crate::enums::{SelectionState, normalized, all_sorted, normalize_states, uniform_states, mark_states_sorted};
use crate::sequences::{sorted, permutation, swapped, lemma_swap_permutation, lemma_short_sorted};

verus! {

/// The phases of quick sort.
#[derive(Clone, Copy, PartialEq, Eq, Debug, Structural)]
pub enum QuickPhase {
    /// Taking the next range from the stack and choosing its pivot.
    ChoosingPivot,
    /// Moving the left pointer over values not above the pivot.
    PartitioningLeft,
    /// Moving the right pointer over values above the pivot.
    PartitioningRight,
    /// Exchanging the values at the two pointers.
    SwappingElements,
    /// Moving the pivot to its final position.
    SwappingWithPivot,
    /// Partitioning is complete.
    DonePartition,
}

/// Visualizes quick sort one step at a time, with an explicit stack of ranges.
pub struct QuickSortVisualizer {
    array: Vec<u32>,
    original_array: Vec<u32>,
    states: Vec<SelectionState>,
    comparisons: u32,
    swaps: u32,
    is_running: bool,
    is_paused: bool,
    speed: u64,
    completed: bool,
    stack: Vec<(usize, usize)>,
    low: usize,
    high: usize,
    pivot_index: usize,
    left: usize,
    right: usize,
    phase: QuickPhase,
}

/// The abstract state of a [`QuickSortVisualizer`].
pub struct QuickView {
    pub array: Seq<u32>,
    pub original: Seq<u32>,
    pub states: Seq<SelectionState>,
    pub comparisons: u32,
    pub swaps: u32,
    pub is_running: bool,
    pub is_paused: bool,
    pub speed: u64,
    pub completed: bool,
    pub stack: Seq<(usize, usize)>,
    pub low: int,
    pub high: int,
    pub pivot_index: int,
    pub left: int,
    pub right: int,
    pub phase: QuickPhase,
}

/// Every value before position `c` is at most every value from `c` on.
pub open spec fn cut(a: Seq<u32>, c: int) -> bool {
    forall|p: int, q: int| 0 <= p < c <= q < a.len() ==> #[trigger] a[p] <= #[trigger] a[q]
}

/// The range `r` holds positions on both sides of the boundary `c`.
pub open spec fn splits(r: (usize, usize), c: int) -> bool {
    r.0 < c <= r.1
}

/// The number of positions in the ranges of `stack`.
pub open spec fn range_total(stack: Seq<(usize, usize)>) -> int
    decreases stack.len(),
{
    if stack.len() == 0 {
        0
    } else {
        range_total(stack.drop_last()) + (stack.last().1 - stack.last().0 + 1)
    }
}

impl QuickView {
    /// The positions still to be placed: those of the ranges on the stack and of the
    /// range under partition.
    pub open spec fn pending(self) -> int {
        range_total(self.stack) + if self.partitioning() {
            self.high - self.low + 1
        } else {
            0
        }
    }

    /// How far the partition under way has to go: four for each position between the two
    /// pointers and a little for the phase; more than any partition when choosing the next
    /// range.
    pub open spec fn partition_progress(self) -> int {
        let gap = self.right - self.left + 1;
        match self.phase {
            QuickPhase::ChoosingPivot => 4 * (self.array.len() as int) + 20,
            QuickPhase::DonePartition => 4 * (self.array.len() as int) + 21,
            QuickPhase::PartitioningLeft => 4 * gap + 3,
            QuickPhase::PartitioningRight => 4 * gap + 2,
            QuickPhase::SwappingElements => 4 * gap + 1,
            QuickPhase::SwappingWithPivot => 0,
        }
    }

    /// Position `i` lies in a range still to be sorted: one on the stack, or the one under
    /// partition.
    pub open spec fn pending_at(self, i: int) -> bool {
        ||| exists|k: int| 0 <= k < self.stack.len() && (#[trigger] self.stack[k]).0 <= i <= self.stack[k].1
        ||| self.partitioning() && self.low <= i <= self.high
    }

    /// Every element marked sorted lies outside the ranges still to be sorted.
    pub open spec fn marks_outside(self) -> bool {
        forall|i: int|
            0 <= i < self.states.len() && #[trigger] self.states[i] == SelectionState::Sorted
                ==> !self.pending_at(i)
    }

    /// Every element is marked sorted or lies in a range still to be sorted.
    pub open spec fn marks_cover(self) -> bool {
        forall|i: int|
            0 <= i < self.states.len() ==> #[trigger] self.states[i] == SelectionState::Sorted
                || self.pending_at(i)
    }

    /// Whether a range is being partitioned.
    pub open spec fn partitioning(self) -> bool {
        ||| self.phase == QuickPhase::PartitioningLeft
        ||| self.phase == QuickPhase::PartitioningRight
        ||| self.phase == QuickPhase::SwappingElements
        ||| self.phase == QuickPhase::SwappingWithPivot
    }

    /// No pending range, neither on the stack nor under partition, splits boundary `c`.
    pub open spec fn unsplit(self, c: int) -> bool {
        &&& forall|k: int| 0 <= k < self.stack.len() ==> !splits(#[trigger] self.stack[k], c)
        &&& !(self.partitioning() && self.low < c <= self.high)
    }

    /// The invariant of a visualizer state reachable from `new` and `reset`.
    pub open spec fn inv(self) -> bool {
        let n = self.array.len();
        let a = self.array;
        let pv = self.array[self.high];
        &&& n <= usize::MAX
        &&& self.original.len() == n
        &&& self.states.len() == n
        &&& permutation(a, self.original)
        &&& self.speed <= 3000
        &&& self.completed ==> sorted(a)
        &&& forall|k: int| 0 <= k < self.stack.len() ==> #[trigger] self.stack[k].1 < n && self.stack[k].0 <= self.stack[k].1
        &&& forall|k1: int, k2: int|
            0 <= k1 < k2 < self.stack.len() ==> #[trigger] self.stack[k2].1 < #[trigger] self.stack[k1].0
        &&& forall|c: int| 0 <= c <= n && #[trigger] self.unsplit(c) ==> cut(a, c)
        &&& self.partitioning() ==> {
            &&& 0 <= self.low < self.high < n
            &&& self.pivot_index == self.high
            &&& forall|k: int| 0 <= k < self.stack.len() ==> self.high < #[trigger] self.stack[k].0
        }
        &&& (self.phase == QuickPhase::PartitioningLeft || self.phase == QuickPhase::PartitioningRight
            || self.phase == QuickPhase::SwappingElements) ==> {
            &&& self.low <= self.left <= self.right + 1
            &&& 0 <= self.right <= self.high - 1
            &&& forall|k: int| self.low <= k < self.left ==> #[trigger] a[k] <= pv
            &&& forall|k: int| self.right < k < self.high ==> #[trigger] a[k] > pv
        }
        &&& self.phase == QuickPhase::PartitioningRight ==> a[self.left] > pv
        &&& self.phase == QuickPhase::SwappingElements ==> {
            &&& self.left < self.right
            &&& a[self.left] > pv
            &&& a[self.right] <= pv
        }
        &&& self.phase == QuickPhase::SwappingWithPivot ==> {
            &&& self.low <= self.left <= self.high
            &&& forall|k: int| self.low <= k < self.left ==> #[trigger] a[k] <= pv
            &&& forall|k: int| self.left <= k < self.high ==> #[trigger] a[k] > pv
        }
    }

    /// One step of the algorithm from `self` (not completed) to `post`, returning `ret`.
    pub open spec fn step_to(self, post: Self, ret: bool) -> bool
        decreases self.stack.len(),
    {
        let n = self.array.len();
        let a = self.array;
        let st = normalized(self.states);
        let same = QuickView { states: st, ..self };
        match self.phase {
            QuickPhase::ChoosingPivot => if self.stack.len() == 0 {
                !ret && post == same
            } else {
                let r = self.stack.last();
                let popped = QuickView {
                    stack: self.stack.drop_last(),
                    low: r.0 as int,
                    high: r.1 as int,
                    ..same
                };
                if r.0 >= r.1 {
                    QuickView {
                        states: if r.0 == r.1 && r.0 < n {
                            st.update(r.0 as int, SelectionState::Sorted)
                        } else {
                            st
                        },
                        ..popped
                    }.step_to(post, ret)
                } else {
                    ret && post == QuickView {
                        pivot_index: r.1 as int,
                        states: st.update(r.1 as int, SelectionState::CurrentMin),
                        left: r.0 as int,
                        right: if r.1 > 0 { r.1 - 1 } else { 0 },
                        phase: QuickPhase::PartitioningLeft,
                        ..popped
                    }
                }
            },
            QuickPhase::PartitioningLeft => ret && if self.left <= self.right {
                if a[self.left] <= a[self.pivot_index] {
                    post == QuickView {
                        states: st.update(self.left, SelectionState::PartitionLeft),
                        comparisons: (self.comparisons + 1) as u32,
                        left: self.left + 1,
                        ..same
                    }
                } else {
                    post == QuickView {
                        states: st.update(self.left, SelectionState::PartitionLeft),
                        comparisons: (self.comparisons + 1) as u32,
                        phase: QuickPhase::PartitioningRight,
                        ..same
                    }
                }
            } else {
                post == QuickView { phase: QuickPhase::SwappingWithPivot, ..same }
            },
            QuickPhase::PartitioningRight => ret && if self.left <= self.right {
                let counted = QuickView {
                    states: st.update(self.right, SelectionState::PartitionRight),
                    comparisons: (self.comparisons + 1) as u32,
                    ..same
                };
                if a[self.right] > a[self.pivot_index] {
                    if self.right > 0 {
                        post == QuickView { right: self.right - 1, ..counted }
                    } else {
                        post == QuickView { phase: QuickPhase::SwappingWithPivot, ..counted }
                    }
                } else {
                    post == QuickView { phase: QuickPhase::SwappingElements, ..counted }
                }
            } else {
                post == QuickView { phase: QuickPhase::SwappingWithPivot, ..same }
            },
            QuickPhase::SwappingElements => ret && if self.left <= self.right {
                post == QuickView {
                    array: swapped(a, self.left, self.right),
                    states: st.update(self.left, SelectionState::Swapping).update(
                        self.right,
                        SelectionState::Swapping,
                    ),
                    swaps: (self.swaps + 1) as u32,
                    left: self.left + 1,
                    right: if self.right > 0 { self.right - 1 } else { self.right },
                    phase: QuickPhase::PartitioningLeft,
                    ..same
                }
            } else {
                post == QuickView { phase: QuickPhase::SwappingWithPivot, ..same }
            },
            QuickPhase::SwappingWithPivot => {
                let pos = self.left;
                let with_right = if pos + 1 <= self.high {
                    self.stack.push(((pos + 1) as usize, self.high as usize))
                } else {
                    self.stack
                };
                ret && post == QuickView {
                    array: if pos != self.pivot_index {
                        swapped(a, self.pivot_index, pos)
                    } else {
                        a
                    },
                    swaps: if pos != self.pivot_index {
                        (self.swaps + 1) as u32
                    } else {
                        self.swaps
                    },
                    states: st.update(self.pivot_index, SelectionState::Swapping).update(
                        pos,
                        SelectionState::Sorted,
                    ),
                    stack: if self.low < pos && pos > 0 {
                        with_right.push((self.low as usize, (pos - 1) as usize))
                    } else {
                        with_right
                    },
                    phase: QuickPhase::ChoosingPivot,
                    ..same
                }
            },
            QuickPhase::DonePartition => ret && post == QuickView {
                phase: QuickPhase::ChoosingPivot,
                ..same
            },
        }
    }
}

/// The state to which `reset` returns a visualizer.
pub open spec fn quick_reset(pre: QuickView) -> QuickView {
    let n = pre.original.len();
    QuickView {
        array: pre.original,
        original: pre.original,
        states: if n <= 1 { all_sorted(n) } else { Seq::new(n, |k: int| SelectionState::Normal) },
        comparisons: 0,
        swaps: 0,
        is_running: false,
        is_paused: false,
        speed: pre.speed,
        completed: n <= 1,
        stack: if n <= 1 { Seq::empty() } else { seq![(0usize, (n - 1) as usize)] },
        low: if n <= 1 { pre.low } else { 0 },
        high: if n <= 1 { pre.high } else { n - 1 },
        pivot_index: 0,
        left: 0,
        right: 0,
        phase: if n <= 1 { QuickPhase::DonePartition } else { QuickPhase::ChoosingPivot },
    }
}

/// The state in which a visualizer starts on `data`.
pub open spec fn quick_start(data: Seq<u32>) -> QuickView {
    let n = data.len();
    QuickView {
        array: data,
        original: data,
        states: if n <= 1 { all_sorted(n) } else { Seq::new(n, |k: int| SelectionState::Normal) },
        comparisons: 0,
        swaps: 0,
        is_running: false,
        is_paused: false,
        speed: 800,
        completed: n <= 1,
        stack: if n <= 1 { Seq::empty() } else { seq![(0usize, (n - 1) as usize)] },
        low: 0,
        high: if n <= 1 { 0 } else { n - 1 },
        pivot_index: if n <= 1 { 0 } else { n - 1 },
        left: 0,
        right: 0,
        phase: if n <= 1 { QuickPhase::DonePartition } else { QuickPhase::ChoosingPivot },
    }
}

impl QuickView {
    /// What a key press does to the visualizer; `ret` is `false` when the key leaves it.
    pub open spec fn key_to(self, key: ControlKey, post: Self, ret: bool) -> bool {
        match key {
            ControlKey::Escape => !ret && post == self,
            ControlKey::Space => ret && if self.completed {
                post == quick_reset(self)
            } else if self.is_running {
                post == QuickView { is_paused: !self.is_paused, ..self }
            } else {
                post == QuickView { is_running: true, is_paused: false, ..self }
            },
            ControlKey::Reset => ret && post == quick_reset(self),
            ControlKey::Step => ret && if !self.completed && !self.is_running {
                exists|b: bool| self.step_to(post, b)
            } else {
                post == self
            },
            ControlKey::Faster => ret && post == QuickView {
                speed: faster_speed(self.speed, 100),
                ..self
            },
            ControlKey::Slower => ret && post == QuickView {
                speed: slower_speed(self.speed, 100, 3000),
                ..self
            },
            _ => ret && post == self,
        }
    }

    /// One automatic step: a step, and when it reports the end, the run stops,
    /// is marked completed and every element is marked sorted.
    pub open spec fn auto_step_to(self, post: Self) -> bool {
        if self.is_running && !self.is_paused && !self.completed {
            exists|mid: Self, b: bool| #[trigger] self.step_to(mid, b) && if b {
                post == mid
            } else {
                post == QuickView {
                    is_running: false,
                    completed: true,
                    states: all_sorted(mid.states.len()),
                    ..mid
                }
            }
        } else {
            post == self
        }
    }
}

impl View for QuickSortVisualizer {
    type V = QuickView;

    closed spec fn view(&self) -> QuickView {
        QuickView {
            array: self.array@,
            original: self.original_array@,
            states: self.states@,
            comparisons: self.comparisons,
            swaps: self.swaps,
            is_running: self.is_running,
            is_paused: self.is_paused,
            speed: self.speed,
            completed: self.completed,
            stack: self.stack@,
            low: self.low as int,
            high: self.high as int,
            pivot_index: self.pivot_index as int,
            left: self.left as int,
            right: self.right as int,
            phase: self.phase,
        }
    }
}

/// The line that says what the sort is doing.
pub open spec fn quick_operation_text(v: QuickView) -> Seq<char> {
    if v.completed {
        "✓ Array is now sorted!"@
    } else {
        match v.phase {
            QuickPhase::ChoosingPivot => "Partition ["@ + decimal_text((v.low) as nat) + ".."@ + decimal_text((v.high) as nat) + "]: Choosing pivot at index "@ + decimal_text((v.pivot_index) as nat),
            QuickPhase::PartitioningLeft => if v.left < v.array.len() && v.pivot_index < v.array.len() {
                "Partition ["@ + decimal_text((v.low) as nat) + ".."@ + decimal_text((v.high) as nat) + "]: left="@ + decimal_text((v.left) as nat) + " ("@ + decimal_text((v.array[v.left]) as nat) + ") <= pivot "@ + decimal_text((v.array[v.pivot_index]) as nat) + "?"@
            } else {
                "Partition ["@ + decimal_text((v.low) as nat) + ".."@ + decimal_text((v.high) as nat) + "]: Moving left pointer"@
            },
            QuickPhase::PartitioningRight => if v.right < v.array.len() && v.pivot_index < v.array.len() {
                "Partition ["@ + decimal_text((v.low) as nat) + ".."@ + decimal_text((v.high) as nat) + "]: right="@ + decimal_text((v.right) as nat) + " ("@ + decimal_text((v.array[v.right]) as nat) + ") > pivot "@ + decimal_text((v.array[v.pivot_index]) as nat) + "?"@
            } else {
                "Partition ["@ + decimal_text((v.low) as nat) + ".."@ + decimal_text((v.high) as nat) + "]: Moving right pointer"@
            },
            QuickPhase::SwappingElements => if v.left < v.array.len() && v.right < v.array.len() {
                "Swapping left="@ + decimal_text((v.left) as nat) + " ("@ + decimal_text((v.array[v.left]) as nat) + ") with right="@ + decimal_text((v.right) as nat) + " ("@ + decimal_text((v.array[v.right]) as nat) + ")"@
            } else {
                "Swapping elements"@
            },
            QuickPhase::SwappingWithPivot => "Final swap: pivot at "@ + decimal_text((v.pivot_index) as nat) + " with left="@ + decimal_text((v.left) as nat),
            QuickPhase::DonePartition => "Moving to next subarray"@,
        }
    }
}

impl QuickSortVisualizer {
    /// The invariant that every state reachable from `new` keeps.
    pub open spec fn wf(&self) -> bool {
        self@.inv()
    }

    /// Whether the counters leave room for another step.
    pub fn can_step(&self) -> (r: bool)
        ensures
            r == (self@.comparisons < u32::MAX && self@.swaps < u32::MAX),
    {
        self.comparisons < u32::MAX && self.swaps < u32::MAX
    }

    /// Creates a visualizer for the given array; arrays of at most one element start completed.
    pub fn new(array_data: &ArrayData) -> (r: Self)
        ensures
            r.wf(),
            r@ == quick_start(array_data.data@),
    {
        let array = array_data.data.clone();
        let len = array.len();
        proof {
            assert(array@ =~= array_data.data@);
        }
        let original_array = array.clone();
        proof {
            assert(original_array@ =~= array@);
        }
        if len <= 1 {
            let r = Self {
                original_array,
                array,
                states: uniform_states(SelectionState::Sorted, len),
                comparisons: 0,
                swaps: 0,
                is_running: false,
                is_paused: false,
                speed: 800,
                completed: true,
                stack: Vec::new(),
                low: 0,
                high: 0,
                pivot_index: 0,
                left: 0,
                right: 0,
                phase: QuickPhase::DonePartition,
            };
            proof {
                assert(r@.states =~= quick_start(array_data.data@).states);
                assert(r@.stack =~= quick_start(array_data.data@).stack);
                lemma_short_sorted(r@.array);
                assert forall|c: int| 0 <= c <= len && #[trigger] r@.unsplit(c) implies cut(r@.array, c) by {}
            }
            r
        } else {
            let mut stack: Vec<(usize, usize)> = Vec::new();
            stack.push((0, len - 1));
            let r = Self {
                original_array,
                array,
                states: uniform_states(SelectionState::Normal, len),
                comparisons: 0,
                swaps: 0,
                is_running: false,
                is_paused: false,
                speed: 800,
                completed: false,
                stack,
                low: 0,
                high: len - 1,
                pivot_index: len - 1,
                left: 0,
                right: 0,
                phase: QuickPhase::ChoosingPivot,
            };
            proof {
                assert(r@.states =~= quick_start(array_data.data@).states);
                assert(r@.stack =~= quick_start(array_data.data@).stack);
                assert forall|c: int| 0 <= c <= len && #[trigger] r@.unsplit(c) implies cut(r@.array, c) by {
                    if 0 < c < len {
                        assert(splits(r@.stack[0], c));
                    }
                }
            }
            r
        }
    }

    /// Performs one step of quick sort; returns `false` once the sort is over.
    /// When it returns `false`, the array is sorted and holds the original values.
    pub fn step(&mut self) -> (ret: bool)
        requires
            old(self).wf(),
            old(self)@.comparisons < u32::MAX,
            old(self)@.swaps < u32::MAX,
        ensures
            final(self).wf(),
            final(self)@.comparisons >= old(self)@.comparisons,
            final(self)@.swaps >= old(self)@.swaps,
            old(self)@.completed ==> !ret && final(self)@ == old(self)@,
            !old(self)@.completed ==> old(self)@.step_to(final(self)@, ret),
            !ret ==> sorted(final(self)@.array) && permutation(final(self)@.array, final(self)@.original),
        decreases old(self)@.stack.len(),
    {
        if self.completed {
            return false;
        }
        let ghost pre = self@;
        normalize_states(&mut self.states);
        let n = self.array.len();
        match self.phase {
            QuickPhase::ChoosingPivot => {
                match self.stack.pop() {
                    Some(range) => {
                        self.low = range.0;
                        self.high = range.1;
                        if self.low >= self.high {
                            if self.low == self.high && self.low < n {
                                self.states.set(self.low, SelectionState::Sorted);
                            }
                            self.phase = QuickPhase::ChoosingPivot;
                            proof {
                                let mid = self@;
                                assert(mid.stack =~= pre.stack.drop_last());
                                assert forall|k: int| 0 <= k < mid.stack.len() implies #[trigger] mid.stack[k] == pre.stack[k] by {}
                                assert forall|c: int| 0 <= c <= n && #[trigger] mid.unsplit(c) implies cut(mid.array, c) by {
                                    assert forall|k: int| 0 <= k < pre.stack.len() implies !splits(#[trigger] pre.stack[k], c) by {
                                        if k < mid.stack.len() {
                                            assert(!splits(mid.stack[k], c));
                                        }
                                    }
                                    assert(pre.unsplit(c));
                                }
                                if pre.states.len() > 0 {
                                    let r = pre.stack.last();
                                    assert(mid.states =~= (if r.0 == r.1 && r.0 < n {
                                        normalized(pre.states).update(r.0 as int, SelectionState::Sorted)
                                    } else {
                                        normalized(pre.states)
                                    }));
                                } else {
                                    assert(mid.states =~= normalized(pre.states));
                                }
                            }
                            return self.step();
                        }
                        self.pivot_index = self.high;
                        self.states.set(self.pivot_index, SelectionState::CurrentMin);
                        self.left = self.low;
                        if self.high > 0 {
                            self.right = self.high - 1;
                        } else {
                            self.right = 0;
                        }
                        self.phase = QuickPhase::PartitioningLeft;
                        proof {
                            let post = self@;
                            assert(post.stack =~= pre.stack.drop_last());
                            assert forall|k: int| 0 <= k < post.stack.len() implies #[trigger] post.stack[k] == pre.stack[k] by {}
                            assert forall|k: int| 0 <= k < post.stack.len() implies post.high < #[trigger] post.stack[k].0 by {
                                assert(pre.stack[pre.stack.len() - 1].1 < pre.stack[k].0);
                            }
                            assert forall|c: int| 0 <= c <= n && #[trigger] post.unsplit(c) implies cut(post.array, c) by {
                                assert forall|k: int| 0 <= k < pre.stack.len() implies !splits(#[trigger] pre.stack[k], c) by {
                                    if k < post.stack.len() {
                                        assert(!splits(post.stack[k], c));
                                    }
                                }
                                assert(pre.unsplit(c));
                            }
                            assert(post.states =~= normalized(pre.states).update(post.high, SelectionState::CurrentMin));
                        }
                        true
                    },
                    None => {
                        proof {
                            assert forall|c: int| 0 <= c <= n implies cut(self@.array, c) by {
                                assert(pre.unsplit(c));
                            }
                            lemma_cuts_sorted(self@.array);
                        }
                        false
                    },
                }
            },
            QuickPhase::PartitioningLeft => {
                if self.left <= self.right {
                    self.states.set(self.left, SelectionState::PartitionLeft);
                    self.comparisons = self.comparisons + 1;
                    if self.array[self.left] <= self.array[self.pivot_index] {
                        self.left = self.left + 1;
                    } else {
                        self.phase = QuickPhase::PartitioningRight;
                    }
                } else {
                    self.phase = QuickPhase::SwappingWithPivot;
                }
                proof {
                    if pre.left <= pre.right {
                        assert(self@.states =~= normalized(pre.states).update(pre.left, SelectionState::PartitionLeft));
                    }
                    lemma_partition_step(pre, self@, true);
                }
                true
            },
            QuickPhase::PartitioningRight => {
                if self.left <= self.right {
                    self.states.set(self.right, SelectionState::PartitionRight);
                    self.comparisons = self.comparisons + 1;
                    if self.array[self.right] > self.array[self.pivot_index] {
                        if self.right > 0 {
                            self.right = self.right - 1;
                        } else {
                            self.phase = QuickPhase::SwappingWithPivot;
                        }
                    } else {
                        self.phase = QuickPhase::SwappingElements;
                    }
                } else {
                    self.phase = QuickPhase::SwappingWithPivot;
                }
                proof {
                    if pre.left <= pre.right {
                        assert(self@.states =~= normalized(pre.states).update(pre.right, SelectionState::PartitionRight));
                    }
                    lemma_partition_step(pre, self@, true);
                }
                true
            },
            QuickPhase::SwappingElements => {
                if self.left <= self.right {
                    self.states.set(self.left, SelectionState::Swapping);
                    self.states.set(self.right, SelectionState::Swapping);
                    let l = self.left;
                    let r = self.right;
                    let tmp = self.array[l];
                    let other = self.array[r];
                    self.array.set(l, other);
                    self.array.set(r, tmp);
                    self.swaps = self.swaps + 1;
                    self.left = self.left + 1;
                    if self.right > 0 {
                        self.right = self.right - 1;
                    }
                    self.phase = QuickPhase::PartitioningLeft;
                    proof {
                        assert(self@.array =~= swapped(pre.array, pre.left, pre.right));
                        assert(self@.states =~= normalized(pre.states).update(pre.left, SelectionState::Swapping).update(pre.right, SelectionState::Swapping));
                    }
                } else {
                    self.phase = QuickPhase::SwappingWithPivot;
                }
                proof {
                    lemma_partition_step(pre, self@, true);
                }
                true
            },
            QuickPhase::SwappingWithPivot => {
                self.states.set(self.pivot_index, SelectionState::Swapping);
                self.states.set(self.left, SelectionState::Swapping);
                if self.left != self.pivot_index {
                    let l = self.left;
                    let p = self.pivot_index;
                    let tmp = self.array[p];
                    let other = self.array[l];
                    self.array.set(p, other);
                    self.array.set(l, tmp);
                    self.swaps = self.swaps + 1;
                    proof {
                        assert(self@.array =~= swapped(pre.array, pre.pivot_index, pre.left));
                    }
                }
                let pivot_final_pos = self.left;
                self.states.set(pivot_final_pos, SelectionState::Sorted);
                if pivot_final_pos + 1 <= self.high {
                    self.stack.push((pivot_final_pos + 1, self.high));
                }
                if self.low < pivot_final_pos && pivot_final_pos > 0 {
                    self.stack.push((self.low, pivot_final_pos - 1));
                }
                self.phase = QuickPhase::ChoosingPivot;
                proof {
                    assert(self@.states =~= normalized(pre.states).update(pre.pivot_index, SelectionState::Swapping).update(pre.left, SelectionState::Sorted));
                    lemma_partition_step(pre, self@, true);
                }
                true
            },
            QuickPhase::DonePartition => {
                self.phase = QuickPhase::ChoosingPivot;
                proof {
                    lemma_partition_step(pre, self@, true);
                }
                true
            },
        }
    }

    /// Returns the visualizer to its initial state on the original array, keeping the speed.
    pub fn reset(&mut self)
        requires
            old(self).wf(),
        ensures
            final(self).wf(),
            final(self)@ == quick_reset(old(self)@),
    {
        let len = self.original_array.len();
        self.array = self.original_array.clone();
        proof {
            assert(self.array@ =~= self.original_array@);
        }
        self.states = uniform_states(SelectionState::Normal, len);
        self.stack = Vec::new();
        self.comparisons = 0;
        self.swaps = 0;
        self.is_running = false;
        self.is_paused = false;
        self.completed = false;
        self.pivot_index = 0;
        self.left = 0;
        self.right = 0;
        if len <= 1 {
            self.completed = true;
            self.states = uniform_states(SelectionState::Sorted, len);
            self.phase = QuickPhase::DonePartition;
            proof {
                lemma_short_sorted(self@.array);
                assert forall|c: int| 0 <= c <= len && #[trigger] self@.unsplit(c) implies cut(self@.array, c) by {}
            }
        } else {
            self.stack.push((0, len - 1));
            self.low = 0;
            self.high = len - 1;
            self.phase = QuickPhase::ChoosingPivot;
            proof {
                assert forall|c: int| 0 <= c <= len && #[trigger] self@.unsplit(c) implies cut(self@.array, c) by {
                    if 0 < c < len {
                        assert(splits(self@.stack[0], c));
                    }
                }
            }
        }
        proof {
            assert(self@.states =~= quick_reset(old(self)@).states);
            assert(self@.stack =~= quick_reset(old(self)@).stack);
        }
    }

    /// Marks every element sorted.
    pub fn mark_all_sorted(&mut self)
        requires
            old(self).wf(),
        ensures
            final(self).wf(),
            final(self)@ == (QuickView { states: all_sorted(old(self)@.states.len()), ..old(self)@ }),
    {
        let ghost pre = self@;
        mark_states_sorted(&mut self.states);
        proof { lemma_frame(pre, self@); }
    }

    /// Handles one key press of the visualizer loop; returns `false` when the key leaves it.
    pub fn handle_key(&mut self, key: ControlKey) -> (ret: bool)
        requires
            old(self).wf(),
            old(self)@.comparisons < u32::MAX,
            old(self)@.swaps < u32::MAX,
        ensures
            final(self).wf(),
            old(self)@.key_to(key, final(self)@, ret),
    {
        let ghost pre = self@;
        match key {
            ControlKey::Space => {
                if self.completed {
                    self.reset();
                } else if self.is_running {
                    self.is_paused = !self.is_paused;
                proof { lemma_frame(pre, self@); }
                } else {
                    self.is_running = true;
                    self.is_paused = false;
                proof { lemma_frame(pre, self@); }
                }
                true
            },
            ControlKey::Reset => {
                self.reset();
                true
            },
            ControlKey::Step => {
                if !self.completed && !self.is_running {
                    let _ = self.step();
                }
                true
            },
            ControlKey::Faster => {
                self.speed = lower_speed(self.speed, 100);
                proof { lemma_frame(pre, self@); }
                true
            },
            ControlKey::Slower => {
                self.speed = raise_speed(self.speed, 100, 3000);
                proof { lemma_frame(pre, self@); }
                true
            },
            ControlKey::Escape => false,
            _ => true,
        }
    }

    /// Whether the loop should wait and take an automatic step.
    pub fn wants_auto_step(&self) -> (r: bool)
        ensures
            r == (self@.is_running && !self@.is_paused && !self@.completed),
    {
        self.is_running && !self.is_paused && !self.completed
    }

    /// Takes an automatic step when running; when the step reports the end, stops the
    /// run, marks it completed and marks every element sorted.
    pub fn auto_step(&mut self)
        requires
            old(self).wf(),
            old(self)@.comparisons < u32::MAX,
            old(self)@.swaps < u32::MAX,
        ensures
            final(self).wf(),
            old(self)@.auto_step_to(final(self)@),
    {
        if self.is_running && !self.is_paused && !self.completed {
            let ghost pre = self@;
            let more = self.step();
            let ghost mid = self@;
            if !more {
                self.is_running = false;
                self.completed = true;
                proof { lemma_frame(mid, self@); }
                self.mark_all_sorted();
            }
            proof {
                assert(pre.step_to(mid, more));
            }
        }
    }

    /// The line that says what the sort is doing.
    pub fn get_current_operation(&self) -> (r: String)
        requires
            self.wf(),
        ensures
            r@ == quick_operation_text(self@),
    {
        if self.completed {
            return String::from_str("✓ Array is now sorted!");
        }
        match self.phase {
            QuickPhase::ChoosingPivot => {
                let mut r = String::from_str("Partition [");
                append_decimal(&mut r, (self.low) as u64);
                r.append("..");
                append_decimal(&mut r, (self.high) as u64);
                r.append("]: Choosing pivot at index ");
                append_decimal(&mut r, (self.pivot_index) as u64);
                r
            },
            QuickPhase::PartitioningLeft => {
                if self.left < self.array.len() && self.pivot_index < self.array.len() {
                    let mut r = String::from_str("Partition [");
                    append_decimal(&mut r, (self.low) as u64);
                    r.append("..");
                    append_decimal(&mut r, (self.high) as u64);
                    r.append("]: left=");
                    append_decimal(&mut r, (self.left) as u64);
                    r.append(" (");
                    append_decimal(&mut r, (self.array[self.left]) as u64);
                    r.append(") <= pivot ");
                    append_decimal(&mut r, (self.array[self.pivot_index]) as u64);
                    r.append("?");
                    r
                } else {
                    let mut r = String::from_str("Partition [");
                    append_decimal(&mut r, (self.low) as u64);
                    r.append("..");
                    append_decimal(&mut r, (self.high) as u64);
                    r.append("]: Moving left pointer");
                    r
                }
            },
            QuickPhase::PartitioningRight => {
                if self.right < self.array.len() && self.pivot_index < self.array.len() {
                    let mut r = String::from_str("Partition [");
                    append_decimal(&mut r, (self.low) as u64);
                    r.append("..");
                    append_decimal(&mut r, (self.high) as u64);
                    r.append("]: right=");
                    append_decimal(&mut r, (self.right) as u64);
                    r.append(" (");
                    append_decimal(&mut r, (self.array[self.right]) as u64);
                    r.append(") > pivot ");
                    append_decimal(&mut r, (self.array[self.pivot_index]) as u64);
                    r.append("?");
                    r
                } else {
                    let mut r = String::from_str("Partition [");
                    append_decimal(&mut r, (self.low) as u64);
                    r.append("..");
                    append_decimal(&mut r, (self.high) as u64);
                    r.append("]: Moving right pointer");
                    r
                }
            },
            QuickPhase::SwappingElements => {
                if self.left < self.array.len() && self.right < self.array.len() {
                    let mut r = String::from_str("Swapping left=");
                    append_decimal(&mut r, (self.left) as u64);
                    r.append(" (");
                    append_decimal(&mut r, (self.array[self.left]) as u64);
                    r.append(") with right=");
                    append_decimal(&mut r, (self.right) as u64);
                    r.append(" (");
                    append_decimal(&mut r, (self.array[self.right]) as u64);
                    r.append(")");
                    r
                } else {
                    let mut r = String::from_str("Swapping elements");
                    r
                }
            },
            QuickPhase::SwappingWithPivot => {
                let mut r = String::from_str("Final swap: pivot at ");
                append_decimal(&mut r, (self.pivot_index) as u64);
                r.append(" with left=");
                append_decimal(&mut r, (self.left) as u64);
                r
            },
            QuickPhase::DonePartition => {
                let mut r = String::from_str("Moving to next subarray");
                r
            },
        }
    }

    /// The bar colors of element `i`: the right pointer is orange.
    pub fn bar_colors(&self, i: usize) -> (r: (TermColor, TermColor))
        requires
            self.wf(),
            i < self@.array.len(),
        ensures
            r == pointer_colors(self@.states[i as int]),
    {
        VisualizerDrawer::get_pointer_colors(self.states[i])
    }

    /// The array in its current order.
    pub fn array(&self) -> (r: &Vec<u32>)
        ensures
            r@ == self@.array,
    {
        &self.array
    }

    /// The visual state of each element.
    pub fn states(&self) -> (r: &Vec<SelectionState>)
        ensures
            r@ == self@.states,
    {
        &self.states
    }

    /// The ranges still to partition.
    pub fn stack(&self) -> (r: &Vec<(usize, usize)>)
        ensures
            r@ == self@.stack,
    {
        &self.stack
    }

    /// Number of comparisons so far.
    pub fn comparisons(&self) -> (r: u32)
        ensures
            r == self@.comparisons,
    {
        self.comparisons
    }

    /// Number of swaps or moves so far.
    pub fn swaps(&self) -> (r: u32)
        ensures
            r == self@.swaps,
    {
        self.swaps
    }

    /// Delay between automatic steps, in milliseconds.
    pub fn speed(&self) -> (r: u64)
        ensures
            r == self@.speed,
    {
        self.speed
    }

    /// Whether the run is going.
    pub fn is_running(&self) -> (r: bool)
        ensures
            r == self@.is_running,
    {
        self.is_running
    }

    /// Whether the run is paused.
    pub fn is_paused(&self) -> (r: bool)
        ensures
            r == self@.is_paused,
    {
        self.is_paused
    }

    /// Lower bound of the current range.
    pub fn low(&self) -> (r: usize)
        ensures
            r as int == self@.low,
    {
        self.low
    }

    /// Upper bound of the current range.
    pub fn high(&self) -> (r: usize)
        ensures
            r as int == self@.high,
    {
        self.high
    }

    /// Position of the pivot.
    pub fn pivot_index(&self) -> (r: usize)
        ensures
            r as int == self@.pivot_index,
    {
        self.pivot_index
    }

    /// The left pointer.
    pub fn left(&self) -> (r: usize)
        ensures
            r as int == self@.left,
    {
        self.left
    }

    /// The right pointer.
    pub fn right(&self) -> (r: usize)
        ensures
            r as int == self@.right,
    {
        self.right
    }

    /// The current phase.
    pub fn phase(&self) -> (r: QuickPhase)
        ensures
            r == self@.phase,
    {
        self.phase
    }

    /// Whether the sort has completed.
    pub fn is_completed(&self) -> (r: bool)
        ensures
            r == self@.completed,
    {
        self.completed
    }
}

/// A state that differs from an invariant one only in states, flags, speed and
/// counters satisfies the invariant too.
pub proof fn lemma_frame(pre: QuickView, post: QuickView)
    requires
        pre.inv(),
        post.array == pre.array,
        post.original == pre.original,
        post.stack == pre.stack,
        post.low == pre.low,
        post.high == pre.high,
        post.pivot_index == pre.pivot_index,
        post.left == pre.left,
        post.right == pre.right,
        post.phase == pre.phase,
        post.states.len() == pre.states.len(),
        post.speed <= 3000,
        post.completed ==> sorted(post.array),
    ensures
        post.inv(),
{
    assert forall|c: int| 0 <= c <= post.array.len() && #[trigger] post.unsplit(c) implies cut(post.array, c) by {
        assert(pre.unsplit(c));
    }
}

/// Swapping two positions of one range keeps every cut outside that range.
pub proof fn lemma_cut_swap(a: Seq<u32>, x: int, y: int, lo: int, hi: int, c: int)
    requires
        0 <= lo <= x <= hi < a.len(),
        lo <= y <= hi,
        c <= lo || c > hi,
        cut(a, c),
    ensures
        cut(swapped(a, x, y), c),
{
    let b = swapped(a, x, y);
    assert forall|p: int, q: int| 0 <= p < c <= q < b.len() implies #[trigger] b[p] <= #[trigger] b[q] by {
        let pp = if p == y { x } else if p == x { y } else { p };
        let qq = if q == y { x } else if q == x { y } else { q };
        assert(b[p] == a[pp]);
        assert(b[q] == a[qq]);
        assert(pp < c <= qq);
    }
}

/// When every boundary is a cut, the sequence is sorted.
pub proof fn lemma_cuts_sorted(a: Seq<u32>)
    requires
        forall|c: int| 0 <= c <= a.len() ==> cut(a, c),
    ensures
        sorted(a),
{
    assert forall|i: int, j: int| 0 <= i <= j < a.len() implies a[i] <= a[j] by {
        if i < j {
            assert(cut(a, j));
        }
    }
}

/// The partition bookkeeping of a step keeps the invariant.
pub proof fn lemma_partition_step(pre: QuickView, post: QuickView, ret: bool)
    requires
        pre.inv(),
        !pre.completed,
        pre.partitioning() || pre.phase == QuickPhase::DonePartition,
        pre.step_to(post, ret),
    ensures
        post.inv(),
{
    let n = pre.array.len();
    let a = pre.array;
    let pv = a[pre.high];
    if pre.phase == QuickPhase::SwappingElements && pre.left <= pre.right {
        lemma_swap_permutation(a, pre.left, pre.right);
        let b = post.array;
        assert forall|c: int| 0 <= c <= n && #[trigger] post.unsplit(c) implies cut(b, c) by {
            assert(pre.unsplit(c));
            lemma_cut_swap(a, pre.left, pre.right, pre.low, pre.high, c);
        }
        assert(b[pre.high] == pv);
        assert forall|k: int| post.low <= k < post.left implies #[trigger] b[k] <= pv by {
            if k < pre.left {
                assert(b[k] == a[k]);
            }
        }
        assert forall|k: int| post.right < k < post.high implies #[trigger] b[k] > pv by {
            if k > pre.right {
                assert(b[k] == a[k]);
            }
        }
    } else if pre.phase == QuickPhase::SwappingWithPivot {
        let pos = pre.left;
        let hi = pre.high;
        let lo = pre.low;
        let b = post.array;
        if pos != hi {
            lemma_swap_permutation(a, hi, pos);
        }
        assert(b.len() == n);
        assert(pre.unsplit(lo));
        assert(pre.unsplit(hi + 1));
        assert(cut(b, lo)) by {
            if pos != hi {
                lemma_cut_swap(a, hi, pos, lo, hi, lo);
            }
        }
        assert(cut(b, hi + 1)) by {
            if pos != hi {
                lemma_cut_swap(a, hi, pos, lo, hi, hi + 1);
            }
        }
        assert(b[pos] == pv);
        assert forall|k: int| lo <= k < pos implies #[trigger] b[k] <= pv by {
            assert(b[k] == a[k]);
        }
        assert forall|k: int| pos < k <= hi implies #[trigger] b[k] > pv by {
            if k < hi {
                assert(b[k] == a[k]);
            } else {
                assert(b[k] == a[pos]);
            }
        }
        let with_right = if pos + 1 <= hi {
            pre.stack.push(((pos + 1) as usize, hi as usize))
        } else {
            pre.stack
        };
        assert forall|k: int| 0 <= k < post.stack.len() implies #[trigger] post.stack[k].1 < n by {
            if k < pre.stack.len() {
                assert(post.stack[k] == pre.stack[k]);
            }
        }
        let plen = pre.stack.len() as int;
        let rp = ((pos + 1) as usize, hi as usize);
        let lp = (lo as usize, (pos - 1) as usize);
        assert(pos + 1 <= hi ==> with_right == pre.stack.push(rp));
        assert(pos + 1 <= hi && lo < pos ==> post.stack == pre.stack.push(rp).push(lp));
        assert(pos + 1 <= hi && !(lo < pos) ==> post.stack == pre.stack.push(rp));
        assert(!(pos + 1 <= hi) && lo < pos ==> post.stack == pre.stack.push(lp));
        assert(!(pos + 1 <= hi) && !(lo < pos) ==> post.stack == pre.stack);
        assert forall|k: int| plen <= k < post.stack.len() implies #[trigger] post.stack[k].1 <= hi by {
        }
        assert forall|k1: int, k2: int| 0 <= k1 < k2 < post.stack.len() implies
            #[trigger] post.stack[k2].1 < #[trigger] post.stack[k1].0 by {
            if k2 < plen {
                assert(post.stack[k2] == pre.stack[k2]);
                assert(post.stack[k1] == pre.stack[k1]);
            } else if k1 < plen {
                assert(post.stack[k1] == pre.stack[k1]);
                assert(hi < pre.stack[k1].0);
                assert(post.stack[k2].1 <= hi);
            } else {
                if pos + 1 <= hi && lo < pos {
                    assert(k1 == plen && k2 == plen + 1);
                    assert(post.stack[k1] == rp);
                    assert(post.stack[k2] == lp);
                } else {
                    assert(post.stack.len() <= plen + 1);
                }
            }
        }
        assert forall|c: int| 0 <= c <= n && #[trigger] post.unsplit(c) implies cut(b, c) by {
            if c <= lo || c > hi {
                assert forall|k: int| 0 <= k < pre.stack.len() implies !splits(#[trigger] pre.stack[k], c) by {
                    assert(post.stack[k] == pre.stack[k]);
                    assert(!splits(post.stack[k], c));
                }
                assert(pre.unsplit(c));
                if pos != hi {
                    lemma_cut_swap(a, hi, pos, lo, hi, c);
                }
            } else {
                if pos + 1 <= hi {
                    assert(post.stack[plen] == rp);
                    assert(!splits(post.stack[plen], c));
                    assert(c <= pos + 1);
                } else {
                    assert(c <= pos);
                }
                if lo < pos {
                    let last = post.stack.len() - 1;
                    assert(post.stack[last] == lp);
                    assert(!splits(post.stack[last], c));
                    assert(c >= pos);
                } else {
                    assert(c > pos);
                }
                assert(c == pos || c == pos + 1);
                assert forall|p: int, q: int| 0 <= p < c <= q < b.len() implies #[trigger] b[p]
                    <= #[trigger] b[q] by {
                    if p < lo {
                        assert(p < lo <= q);
                    } else if q > hi {
                        assert(p < hi + 1 <= q);
                    } else {
                        assert(b[p] <= pv);
                        assert(b[q] >= pv);
                    }
                }
            }
        }
    } else {
        assert(post.array == a);
        assert forall|c: int| 0 <= c <= n && #[trigger] post.unsplit(c) implies cut(a, c) by {
            assert(pre.unsplit(c));
        }
    }
}

} // verus!
