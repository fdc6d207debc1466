use vstd::prelude::*;
use vstd::string::StringExecFns;
use crate::text::{append_decimal, decimal_text};
use crate::colors::{TermColor, VisualizerDrawer, state_colors};
use crate::array_manager::ArrayData;
use crate::enums::{SelectionState, normalized_below, all_sorted, normalize_states_below, uniform_states, mark_states_sorted};
use crate::base_visualizer::{ControlKey, faster_speed, slower_speed, lower_speed, raise_speed};
use crate::sequences::{sorted, permutation, swapped, lemma_swap_permutation, lemma_short_sorted};

verus! {

/// The phases of one insertion round.
#[derive(Clone, Copy, PartialEq, Eq, Debug, Structural)]
pub enum InsertionPhase {
    /// Selecting the next element to insert.
    SelectingElement,
    /// Comparing and shifting elements to find the key's position.
    SearchingPosition,
    /// Writing the key into its position.
    InsertingElement,
    /// Moving on to the next element.
    MoveToNext,
}

/// Visualizes insertion sort one step at a time.
pub struct InsertionSortVisualizer {
    array: Vec<u32>,
    original_array: Vec<u32>,
    states: Vec<SelectionState>,
    current_i: usize,
    current_j: usize,
    key: u32,
    comparisons: u32,
    swaps: u32,
    is_running: bool,
    is_paused: bool,
    speed: u64,
    completed: bool,
    phase: InsertionPhase,
}

/// The abstract state of an [`InsertionSortVisualizer`].
pub struct InsertionView {
    pub array: Seq<u32>,
    pub original: Seq<u32>,
    pub states: Seq<SelectionState>,
    pub current_i: int,
    pub current_j: int,
    pub key: u32,
    pub comparisons: u32,
    pub swaps: u32,
    pub is_running: bool,
    pub is_paused: bool,
    pub speed: u64,
    pub completed: bool,
    pub phase: InsertionPhase,
}

/// All values of `a` in `[0, hi]`, the one at `hole` left out, are in order.
pub open spec fn sorted_except(a: Seq<u32>, hole: int, hi: int) -> bool {
    forall|p: int, q: int|
        0 <= p < q <= hi && p != hole && q != hole ==> #[trigger] a[p] <= #[trigger] a[q]
}

impl InsertionView {
    /// The values the visualizer holds: the array, with the key put back into the
    /// slot that the current round has vacated.
    pub open spec fn contents(self) -> Seq<u32> {
        match self.phase {
            InsertionPhase::SearchingPosition => self.array.update(self.current_j + 1, self.key),
            InsertionPhase::InsertingElement => self.array.update(self.current_j, self.key),
            _ => self.array,
        }
    }

    /// Whether no round is half done, so that the array holds every value.
    pub open spec fn at_rest(self) -> bool {
        self.phase == InsertionPhase::SelectingElement || self.phase == InsertionPhase::MoveToNext
    }

    /// The invariant of a visualizer state reachable from `new` and `reset`.
    pub open spec fn inv(self) -> bool {
        let n = self.array.len();
        let i = self.current_i;
        let j = self.current_j;
        &&& self.original.len() == n
        &&& self.states.len() == n
        &&& permutation(self.contents(), self.original)
        &&& self.completed ==> self.at_rest() && sorted(self.array)
        &&& match self.phase {
            InsertionPhase::SelectingElement => 1 <= i && sorted(
                self.array.take(if i < n { i } else { n as int }),
            ),
            InsertionPhase::SearchingPosition => {
                &&& 1 <= i < n
                &&& 0 <= j < i
                &&& sorted_except(self.array, j + 1, i)
                &&& forall|q: int| j + 1 < q <= i ==> #[trigger] self.array[q] > self.key
            },
            InsertionPhase::InsertingElement => {
                &&& 1 <= i < n
                &&& 0 <= j <= i
                &&& sorted_except(self.array, j, i)
                &&& forall|q: int| j < q <= i ==> #[trigger] self.array[q] > self.key
                &&& forall|p: int| 0 <= p < j ==> #[trigger] self.array[p] <= self.key
            },
            InsertionPhase::MoveToNext => 0 <= i && sorted(
                self.array.take(if i + 1 < n { i + 1 } else { n as int }),
            ),
        }
    }

    /// How much is left: the elements still to place, then the phase of the current one,
    /// with the positions left to search.
    pub open spec fn insertion_measure(self) -> (int, int, int, int) {
        let n = self.array.len() as int;
        let rank = match self.phase {
            InsertionPhase::SelectingElement => 2 * n + 4,
            InsertionPhase::SearchingPosition => self.current_j + 3,
            InsertionPhase::InsertingElement => 2int,
            InsertionPhase::MoveToNext => 1int,
        };
        (n - self.current_i, rank, 0, 0)
    }

    /// One step of the algorithm from `self` (not completed) to `post`, returning `ret`.
    pub open spec fn step_to(self, post: Self, ret: bool) -> bool {
        let n = self.array.len();
        let i = self.current_i;
        let j = self.current_j;
        let st = normalized_below(self.states, i);
        let same = InsertionView { states: st, ..self };
        match self.phase {
            InsertionPhase::SelectingElement => if i >= n {
                !ret && post == same
            } else {
                ret && post == InsertionView {
                    key: self.array[i],
                    states: st.update(i, SelectionState::CurrentMin),
                    current_j: i - 1,
                    phase: InsertionPhase::SearchingPosition,
                    ..same
                }
            },
            InsertionPhase::SearchingPosition => ret && if self.array[j] > self.key {
                post == InsertionView {
                    array: self.array.update(j + 1, self.array[j]),
                    swaps: (self.swaps + 1) as u32,
                    comparisons: (self.comparisons + 1) as u32,
                    states: st.update(j, SelectionState::Swapping),
                    current_j: if j > 0 { j - 1 } else { j },
                    phase: if j > 0 {
                        InsertionPhase::SearchingPosition
                    } else {
                        InsertionPhase::InsertingElement
                    },
                    ..same
                }
            } else {
                post == InsertionView {
                    comparisons: (self.comparisons + 1) as u32,
                    states: st.update(j, SelectionState::Comparing),
                    current_j: j + 1,
                    phase: InsertionPhase::InsertingElement,
                    ..same
                }
            },
            InsertionPhase::InsertingElement => ret && post == InsertionView {
                array: self.array.update(j, self.key),
                states: st.update(j, SelectionState::Selected),
                phase: InsertionPhase::MoveToNext,
                ..same
            },
            InsertionPhase::MoveToNext => if i + 1 >= n {
                !ret && post == InsertionView { current_i: i + 1, ..same }
            } else {
                ret && post == InsertionView {
                    current_i: i + 1,
                    phase: InsertionPhase::SelectingElement,
                    ..same
                }
            },
        }
    }
}

/// The state to which `reset` returns a visualizer.
pub open spec fn insertion_reset(pre: InsertionView) -> InsertionView {
    let n = pre.original.len();
    InsertionView {
        array: pre.original,
        original: pre.original,
        states: Seq::new(n, |k: int| if k == 0 { SelectionState::Sorted } else { SelectionState::Normal }),
        current_i: if n <= 1 { n as int } else { 1 },
        current_j: 0,
        key: 0,
        comparisons: 0,
        swaps: 0,
        is_running: false,
        is_paused: false,
        speed: pre.speed,
        completed: n <= 1,
        phase: if n <= 1 { InsertionPhase::MoveToNext } else { InsertionPhase::SelectingElement },
    }
}

impl InsertionView {
    /// What a key press does to the visualizer; `ret` is `false` when the key leaves it.
    pub open spec fn key_to(self, key: ControlKey, post: Self, ret: bool) -> bool {
        match key {
            ControlKey::Escape => !ret && post == self,
            ControlKey::Space => ret && if self.completed {
                post == insertion_reset(self)
            } else if self.is_running {
                post == InsertionView { is_paused: !self.is_paused, ..self }
            } else {
                post == InsertionView { is_running: true, is_paused: false, ..self }
            },
            ControlKey::Reset => ret && post == insertion_reset(self),
            ControlKey::Step => ret && if !self.completed && !self.is_running {
                exists|b: bool| self.step_to(post, b)
            } else {
                post == self
            },
            ControlKey::Faster => ret && post == InsertionView {
                speed: faster_speed(self.speed, 100),
                ..self
            },
            ControlKey::Slower => ret && post == InsertionView {
                speed: slower_speed(self.speed, 100, 3000),
                ..self
            },
            _ => ret && post == self,
        }
    }

    /// One automatic step: a step, and when it reports the end, the run stops,
    /// is marked completed and every element is marked sorted.
    pub open spec fn auto_step_to(self, post: Self) -> bool {
        if self.is_running && !self.is_paused && !self.completed {
            exists|mid: Self, b: bool| #[trigger] self.step_to(mid, b) && if b {
                post == mid
            } else {
                post == InsertionView {
                    is_running: false,
                    completed: true,
                    states: all_sorted(mid.states.len()),
                    ..mid
                }
            }
        } else {
            post == self
        }
    }
}

impl View for InsertionSortVisualizer {
    type V = InsertionView;

    closed spec fn view(&self) -> InsertionView {
        InsertionView {
            array: self.array@,
            original: self.original_array@,
            states: self.states@,
            current_i: self.current_i as int,
            current_j: self.current_j as int,
            key: self.key,
            comparisons: self.comparisons,
            swaps: self.swaps,
            is_running: self.is_running,
            is_paused: self.is_paused,
            speed: self.speed,
            completed: self.completed,
            phase: self.phase,
        }
    }
}

/// The state in which a visualizer starts on `data`, and to which `reset` returns.
pub open spec fn insertion_start(data: Seq<u32>, speed: u64) -> InsertionView {
    let n = data.len();
    InsertionView {
        array: data,
        original: data,
        states: if n <= 1 {
            all_sorted(n)
        } else {
            Seq::new(n, |k: int| if k == 0 { SelectionState::Sorted } else { SelectionState::Normal })
        },
        current_i: 1,
        current_j: 0,
        key: 0,
        comparisons: 0,
        swaps: 0,
        is_running: false,
        is_paused: false,
        speed,
        completed: n <= 1,
        phase: if n <= 1 {
            InsertionPhase::MoveToNext
        } else {
            InsertionPhase::SelectingElement
        },
    }
}

/// The line that says what the sort is doing.
pub open spec fn insertion_operation_text(v: InsertionView) -> Seq<char> {
    if v.completed {
        "✓ Array is now sorted using Insertion Sort!"@
    } else {
        match v.phase {
            InsertionPhase::SelectingElement => if v.current_i < v.array.len() {
                "Step "@ + decimal_text((v.current_i) as nat) + "/"@ + decimal_text((v.array.len() - 1) as nat) + ": Selecting key element "@ + decimal_text((v.current_i) as nat) + " (value: "@ + decimal_text((v.array[v.current_i]) as nat) + ")"@
            } else {
                "Selecting element..."@
            },
            InsertionPhase::SearchingPosition => if v.current_j < v.array.len() && v.current_j + 1 < v.array.len() {
                "Comparing key "@ + decimal_text((v.key) as nat) + " with element "@ + decimal_text((v.current_j) as nat) + " (value: "@ + decimal_text((v.array[v.current_j]) as nat) + ")"@
            } else {
                "Finding correct position for key "@ + decimal_text((v.key) as nat)
            },
            InsertionPhase::InsertingElement => "Inserting key "@ + decimal_text((v.key) as nat) + " at position "@ + decimal_text((v.current_j + 1) as nat),
            InsertionPhase::MoveToNext => if v.current_i < v.array.len() {
                "Element "@ + decimal_text((v.key) as nat) + " positioned correctly, moving to next"@
            } else {
                "Insertion sort completed!"@
            },
        }
    }
}

impl InsertionSortVisualizer {
    /// The invariant that every state reachable from `new` keeps.
    pub open spec fn wf(&self) -> bool {
        &&& self@.inv()
        &&& self@.speed <= 3000
    }

    /// Whether the counters and the position leave room for another step.
    pub fn can_step(&self) -> (r: bool)
        ensures
            r == (self@.comparisons < u32::MAX && self@.swaps < u32::MAX && self@.current_i
                < usize::MAX),
    {
        self.comparisons < u32::MAX && self.swaps < u32::MAX && self.current_i < usize::MAX
    }

    /// Creates a visualizer for the given array; arrays of at most one element start completed.
    pub fn new(array_data: &ArrayData) -> (r: Self)
        ensures
            r.wf(),
            r@ == insertion_start(array_data.data@, 800),
    {
        let array = array_data.data.clone();
        let len = array.len();
        proof {
            assert(array@ =~= array_data.data@);
        }
        let original_array = array.clone();
        proof {
            assert(original_array@ =~= array@);
        }
        if len <= 1 {
            let states = uniform_states(SelectionState::Sorted, len);
            let r = Self {
                original_array,
                array,
                states,
                current_i: 1,
                current_j: 0,
                key: 0,
                comparisons: 0,
                swaps: 0,
                is_running: false,
                is_paused: false,
                speed: 800,
                completed: true,
                phase: InsertionPhase::MoveToNext,
            };
            proof {
                assert(r@.states =~= insertion_start(array_data.data@, 800).states);
                lemma_short_sorted(r@.array);
                assert(r@.array.take(if 2 < len { 2 } else { len as int }) =~= r@.array);
            }
            r
        } else {
            let mut states = uniform_states(SelectionState::Normal, len);
            states.set(0, SelectionState::Sorted);
            let r = Self {
                original_array,
                array,
                states,
                current_i: 1,
                current_j: 0,
                key: 0,
                comparisons: 0,
                swaps: 0,
                is_running: false,
                is_paused: false,
                speed: 800,
                completed: false,
                phase: InsertionPhase::SelectingElement,
            };
            proof {
                assert(r@.states =~= insertion_start(array_data.data@, 800).states);
            }
            r
        }
    }

    /// Performs one step of insertion sort; returns `false` once the sort is over.
    /// When it returns `false`, the array is sorted and holds the original values.
    pub fn step(&mut self) -> (ret: bool)
        requires
            old(self).wf(),
            old(self)@.comparisons < u32::MAX,
            old(self)@.swaps < u32::MAX,
            old(self)@.current_i < usize::MAX,
        ensures
            final(self).wf(),
            old(self)@.completed ==> !ret && final(self)@ == old(self)@,
            !old(self)@.completed ==> old(self)@.step_to(final(self)@, ret),
            !ret ==> sorted(final(self)@.array) && permutation(final(self)@.array, final(self)@.original),
    {
        if self.completed {
            return false;
        }
        let ghost pre = self@;
        normalize_states_below(&mut self.states, self.current_i);
        let n = self.array.len();
        match self.phase {
            InsertionPhase::SelectingElement => {
                if self.current_i >= n {
                    proof {
                        assert(self.array@.take(n as int) =~= self.array@);
                    }
                    return false;
                }
                self.key = self.array[self.current_i];
                self.states.set(self.current_i, SelectionState::CurrentMin);
                self.current_j = if self.current_i > 0 { self.current_i - 1 } else { 0 };
                if self.current_i == 0 {
                    self.states.set(0, SelectionState::Sorted);
                    self.current_i = self.current_i + 1;
                    return self.current_i < n;
                }
                self.phase = InsertionPhase::SearchingPosition;
                proof {
                    assert(self@.states =~= normalized_below(pre.states, pre.current_i).update(
                        pre.current_i, SelectionState::CurrentMin));
                    let a = self@.array;
                    let i = self@.current_i;
                    assert(self@.contents() =~= pre.array);
                    assert forall|p: int, q: int|
                        0 <= p < q <= i && p != i && q != i implies #[trigger] a[p] <= #[trigger] a[q] by {
                        assert(pre.array.take(i)[p] == a[p]);
                        assert(pre.array.take(i)[q] == a[q]);
                    }
                }
                true
            },
            InsertionPhase::SearchingPosition => {
                if self.current_j < n {
                    self.states.set(self.current_j, SelectionState::Comparing);
                    self.comparisons = self.comparisons + 1;
                    if self.array[self.current_j] > self.key {
                        self.states.set(self.current_j, SelectionState::Swapping);
                        if self.current_j + 1 < n {
                            let v = self.array[self.current_j];
                            self.array.set(self.current_j + 1, v);
                            self.swaps = self.swaps + 1;
                        }
                        if self.current_j > 0 {
                            self.current_j = self.current_j - 1;
                        } else {
                            self.phase = InsertionPhase::InsertingElement;
                        }
                        proof {
                            let j = pre.current_j;
                            let c = pre.contents();
                            lemma_swap_permutation(c, j, j + 1);
                            assert(self@.contents() =~= swapped(c, j, j + 1));
                            assert(self@.states =~= normalized_below(pre.states, pre.current_i).update(
                                j, SelectionState::Swapping));
                            assert(self@.array =~= pre.array.update(j + 1, pre.array[j]));
                        }
                    } else {
                        self.current_j = self.current_j + 1;
                        self.phase = InsertionPhase::InsertingElement;
                        proof {
                            assert(self@.contents() =~= pre.contents());
                            assert(self@.states =~= normalized_below(pre.states, pre.current_i).update(
                                pre.current_j, SelectionState::Comparing));
                        }
                    }
                } else {
                    self.phase = InsertionPhase::InsertingElement;
                }
                true
            },
            InsertionPhase::InsertingElement => {
                if self.current_j < n {
                    self.array.set(self.current_j, self.key);
                    self.states.set(self.current_j, SelectionState::Selected);
                }
                self.phase = InsertionPhase::MoveToNext;
                proof {
                    let a = self@.array;
                    let i = self@.current_i;
                    assert(self@.contents() =~= pre.contents());
                    let lim = if i + 1 < n { i + 1 } else { n as int };
                    assert(lim == i + 1);
                    assert forall|p: int, q: int| 0 <= p <= q < a.take(lim).len() implies
                        a.take(lim)[p] <= a.take(lim)[q] by {
                        if p < q {
                            assert(pre.array[p] == a[p] || p == pre.current_j);
                        }
                    }
                }
                true
            },
            InsertionPhase::MoveToNext => {
                self.current_i = self.current_i + 1;
                if self.current_i >= n {
                    proof {
                        assert(self.array@.take(n as int) =~= self.array@);
                    }
                    return false;
                }
                self.phase = InsertionPhase::SelectingElement;
                true
            },
        }
    }

    /// Returns the visualizer to its initial state on the original array, keeping the speed.
    pub fn reset(&mut self)
        requires
            old(self).wf(),
        ensures
            final(self).wf(),
            final(self)@ == insertion_reset(old(self)@),
    {
        let len = self.original_array.len();
        self.array = self.original_array.clone();
        proof {
            assert(self.array@ =~= self.original_array@);
        }
        self.states = uniform_states(SelectionState::Normal, len);
        if len > 0 {
            self.states.set(0, SelectionState::Sorted);
        }
        self.current_i = if len <= 1 { len } else { 1 };
        self.current_j = 0;
        self.key = 0;
        self.comparisons = 0;
        self.swaps = 0;
        self.is_running = false;
        self.is_paused = false;
        self.completed = len <= 1;
        self.phase = if len <= 1 { InsertionPhase::MoveToNext } else { InsertionPhase::SelectingElement };
        proof {
            assert(self@.states =~= insertion_reset(old(self)@).states);
            if len <= 1 {
                lemma_short_sorted(self@.array);
                assert(self@.array.take(self@.array.len() as int) =~= self@.array);
            } else {
                assert(self@.array.take(1) =~= seq![self@.array[0]]);
            }
        }
    }

    /// Marks every element sorted.
    pub fn mark_all_sorted(&mut self)
        requires
            old(self).wf(),
        ensures
            final(self).wf(),
            final(self)@ == (InsertionView { states: all_sorted(old(self)@.states.len()), ..old(self)@ }),
    {
        mark_states_sorted(&mut self.states);
    }

    /// Handles one key press of the visualizer loop; returns `false` when the key leaves it.
    pub fn handle_key(&mut self, key: ControlKey) -> (ret: bool)
        requires
            old(self).wf(),
            old(self)@.comparisons < u32::MAX,
            old(self)@.swaps < u32::MAX,
            old(self)@.current_i < usize::MAX,
        ensures
            final(self).wf(),
            old(self)@.key_to(key, final(self)@, ret),
    {
        match key {
            ControlKey::Space => {
                if self.completed {
                    self.reset();
                } else if self.is_running {
                    self.is_paused = !self.is_paused;
                } else {
                    self.is_running = true;
                    self.is_paused = false;
                }
                true
            },
            ControlKey::Reset => {
                self.reset();
                true
            },
            ControlKey::Step => {
                if !self.completed && !self.is_running {
                    let b = self.step();
                }
                true
            },
            ControlKey::Faster => {
                self.speed = lower_speed(self.speed, 100);
                true
            },
            ControlKey::Slower => {
                self.speed = raise_speed(self.speed, 100, 3000);
                true
            },
            ControlKey::Escape => false,
            _ => true,
        }
    }

    /// Whether the loop should wait and take an automatic step.
    pub fn wants_auto_step(&self) -> (r: bool)
        ensures
            r == (self@.is_running && !self@.is_paused && !self@.completed),
    {
        self.is_running && !self.is_paused && !self.completed
    }

    /// Takes an automatic step when running; when the step reports the end, stops the
    /// run, marks it completed and marks every element sorted.
    pub fn auto_step(&mut self)
        requires
            old(self).wf(),
            old(self)@.comparisons < u32::MAX,
            old(self)@.swaps < u32::MAX,
            old(self)@.current_i < usize::MAX,
        ensures
            final(self).wf(),
            old(self)@.auto_step_to(final(self)@),
    {
        if self.is_running && !self.is_paused && !self.completed {
            let ghost pre = self@;
            let more = self.step();
            let ghost mid = self@;
            if !more {
                self.is_running = false;
                self.completed = true;
                self.mark_all_sorted();
            }
            proof {
                assert(pre.step_to(mid, more));
            }
        }
    }

    /// The line that says what the sort is doing.
    pub fn get_current_operation(&self) -> (r: String)
        requires
            self.wf(),
        ensures
            r@ == insertion_operation_text(self@),
    {
        if self.completed {
            return String::from_str("✓ Array is now sorted using Insertion Sort!");
        }
        match self.phase {
            InsertionPhase::SelectingElement => {
                if self.current_i < self.array.len() {
                    let mut r = String::from_str("Step ");
                    append_decimal(&mut r, (self.current_i) as u64);
                    r.append("/");
                    append_decimal(&mut r, (self.array.len() - 1) as u64);
                    r.append(": Selecting key element ");
                    append_decimal(&mut r, (self.current_i) as u64);
                    r.append(" (value: ");
                    append_decimal(&mut r, (self.array[self.current_i]) as u64);
                    r.append(")");
                    r
                } else {
                    let mut r = String::from_str("Selecting element...");
                    r
                }
            },
            InsertionPhase::SearchingPosition => {
                if self.current_j < self.array.len() && self.current_j + 1 < self.array.len() {
                    let mut r = String::from_str("Comparing key ");
                    append_decimal(&mut r, (self.key) as u64);
                    r.append(" with element ");
                    append_decimal(&mut r, (self.current_j) as u64);
                    r.append(" (value: ");
                    append_decimal(&mut r, (self.array[self.current_j]) as u64);
                    r.append(")");
                    r
                } else {
                    let mut r = String::from_str("Finding correct position for key ");
                    append_decimal(&mut r, (self.key) as u64);
                    r
                }
            },
            InsertionPhase::InsertingElement => {
                let n = self.array.len();
                assert(self.current_j < n);
                let mut r = String::from_str("Inserting key ");
                append_decimal(&mut r, (self.key) as u64);
                r.append(" at position ");
                append_decimal(&mut r, (self.current_j + 1) as u64);
                r
            },
            InsertionPhase::MoveToNext => {
                if self.current_i < self.array.len() {
                    let mut r = String::from_str("Element ");
                    append_decimal(&mut r, (self.key) as u64);
                    r.append(" positioned correctly, moving to next");
                    r
                } else {
                    let mut r = String::from_str("Insertion sort completed!");
                    r
                }
            },
        }
    }

    /// The bar colors of element `i`.
    pub fn bar_colors(&self, i: usize) -> (r: (TermColor, TermColor))
        requires
            self.wf(),
            i < self@.array.len(),
        ensures
            r == state_colors(self@.states[i as int]),
    {
        VisualizerDrawer::get_state_colors(self.states[i])
    }

    /// The array in its current order.
    pub fn array(&self) -> (r: &Vec<u32>)
        ensures
            r@ == self@.array,
    {
        &self.array
    }

    /// The visual state of each element.
    pub fn states(&self) -> (r: &Vec<SelectionState>)
        ensures
            r@ == self@.states,
    {
        &self.states
    }

    /// Index of the element being inserted.
    pub fn current_i(&self) -> (r: usize)
        ensures
            r == self@.current_i,
    {
        self.current_i
    }

    /// Index of the element being compared.
    pub fn current_j(&self) -> (r: usize)
        ensures
            r == self@.current_j,
    {
        self.current_j
    }

    /// The key being inserted.
    pub fn key(&self) -> (r: u32)
        ensures
            r == self@.key,
    {
        self.key
    }

    /// Number of comparisons so far.
    pub fn comparisons(&self) -> (r: u32)
        ensures
            r == self@.comparisons,
    {
        self.comparisons
    }

    /// Number of shifts so far.
    pub fn swaps(&self) -> (r: u32)
        ensures
            r == self@.swaps,
    {
        self.swaps
    }

    /// Delay between automatic steps, in milliseconds.
    pub fn speed(&self) -> (r: u64)
        ensures
            r == self@.speed,
    {
        self.speed
    }

    /// Whether the run is going.
    pub fn is_running(&self) -> (r: bool)
        ensures
            r == self@.is_running,
    {
        self.is_running
    }

    /// Whether the run is paused.
    pub fn is_paused(&self) -> (r: bool)
        ensures
            r == self@.is_paused,
    {
        self.is_paused
    }

    /// Whether the sort has completed.
    pub fn is_completed(&self) -> (r: bool)
        ensures
            r == self@.completed,
    {
        self.completed
    }

    /// The current phase.
    pub fn phase(&self) -> (r: InsertionPhase)
        ensures
            r == self@.phase,
    {
        self.phase
    }
}

} // verus!
