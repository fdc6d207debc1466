use vstd::prelude::*;
use crate::array_manager::ArrayData;
use crate::base_visualizer::{get_controls_text, get_controls_text_spec, search_status, search_status_spec, ControlKey, SearchKeyOutcome, VisualizerState, asked, faster_speed, slower_speed};
use crate::enums::{SelectionState, TeachingQuestion, question, question_matches, uniform_states};
use crate::sequences::{sorted, permutation, sort_ascending};
use crate::text::{append_decimal, decimal_text};
use vstd::string::StringExecFns;

verus! {

/// The phases of binary search.
#[derive(Clone, Copy, PartialEq, Eq, Debug, Structural)]
pub enum BinarySearchPhase {
    /// Searching through the array.
    Searching,
    /// The target was found.
    Found,
    /// The target is not in the array.
    NotFound,
    /// The search is complete.
    Done,
}

/// Visualizes binary search on the sorted array, one comparison at a time.
pub struct BinarySearchVisualizer {
    array: Vec<u32>,
    original_array: Vec<u32>,
    states: Vec<SelectionState>,
    target: u32,
    low: usize,
    high: usize,
    mid: usize,
    found_index: Option<usize>,
    phase: BinarySearchPhase,
    state: VisualizerState,
}

/// The abstract state of a [`BinarySearchVisualizer`].
pub struct BinarySearchView {
    pub array: Seq<u32>,
    pub original: Seq<u32>,
    pub states: Seq<SelectionState>,
    pub target: u32,
    pub low: int,
    pub high: int,
    pub mid: int,
    pub found_index: Option<usize>,
    pub phase: BinarySearchPhase,
    pub state: VisualizerState,
}

/// Every state becomes `Normal`, except `Sorted` ones and the found element, which is `Sorted`.
pub open spec fn search_normalized(states: Seq<SelectionState>, found: Option<usize>) -> Seq<SelectionState> {
    Seq::new(
        states.len(),
        |k: int|
            if found == Some(k as usize) || states[k] == SelectionState::Sorted {
                SelectionState::Sorted
            } else {
                SelectionState::Normal
            },
    )
}

/// Applies [`search_normalized`] in place.
pub fn normalize_search_states(states: &mut Vec<SelectionState>, found: Option<usize>)
    ensures
        final(states)@ == search_normalized(old(states)@, found),
{
    let n = states.len();
    let mut k: usize = 0;
    while k < n
        invariant
            n == states@.len(),
            n == old(states)@.len(),
            k <= n,
            forall|m: int| 0 <= m < k ==> states@[m] == search_normalized(old(states)@, found)[m],
            forall|m: int| k <= m < n ==> states@[m] == old(states)@[m],
        decreases n - k,
    {
        let is_found = match found {
            Some(f) => f == k,
            None => false,
        };
        if is_found {
            states.set(k, SelectionState::Sorted);
        } else if states[k] != SelectionState::Sorted {
            states.set(k, SelectionState::Normal);
        }
        k = k + 1;
    }
    assert(states@ =~= search_normalized(old(states)@, found));
}

/// The teaching questions of binary search.
pub open spec fn binary_questions_match(q: Seq<TeachingQuestion>) -> bool {
    &&& q.len() == 3
    &&& question_matches(
        q[0],
        "What is the key requirement for Binary Search?"@,
        "The array must be sorted"@,
        "The array must be unsorted"@,
        "The array size must be prime"@,
        "Binary Search requires the array to be sorted to efficiently divide the search space in half."@,
    )
    &&& question_matches(
        q[1],
        "What is the time complexity of Binary Search?"@,
        "O(log n)"@,
        "O(n)"@,
        "O(n^2)"@,
        "Binary Search has O(log n) time complexity because it halves the search space with each comparison."@,
    )
    &&& question_matches(
        q[2],
        "In Binary Search, what happens when the middle element is greater than the target?"@,
        "Search the left half"@,
        "Search the right half"@,
        "Start over from the beginning"@,
        "If the middle element is greater than the target, the target must be in the left half, so high is set to mid - 1."@,
    )
}

/// The teaching questions of binary search, the correct option first.
pub fn binary_search_questions() -> (q: Vec<TeachingQuestion>)
    ensures
        binary_questions_match(q@),
{
    let mut q: Vec<TeachingQuestion> = Vec::new();
    q.push(question(
        "What is the key requirement for Binary Search?",
        "The array must be sorted",
        "The array must be unsorted",
        "The array size must be prime",
        "Binary Search requires the array to be sorted to efficiently divide the search space in half.",
    ));
    q.push(question(
        "What is the time complexity of Binary Search?",
        "O(log n)",
        "O(n)",
        "O(n^2)",
        "Binary Search has O(log n) time complexity because it halves the search space with each comparison.",
    ));
    q.push(question(
        "In Binary Search, what happens when the middle element is greater than the target?",
        "Search the left half",
        "Search the right half",
        "Start over from the beginning",
        "If the middle element is greater than the target, the target must be in the left half, so high is set to mid - 1.",
    ));
    q
}

impl BinarySearchView {
    /// The invariant of a visualizer state reachable from `new` and `reset`.
    pub open spec fn inv(self) -> bool {
        let n = self.array.len();
        let a = self.array;
        &&& self.states.len() == n
        &&& self.original == a
        &&& sorted(a)
        &&& 0 <= self.low
        &&& 0 <= self.high
        &&& self.high < n || self.high == 0
        &&& self.low <= n
        &&& forall|k: int| 0 <= k < self.low && k < n ==> #[trigger] a[k] < self.target
        &&& forall|k: int| self.high < k < n ==> #[trigger] a[k] > self.target
        &&& self.found_index matches Some(f) ==> f < n && a[f as int] == self.target
        &&& self.phase == BinarySearchPhase::Found ==> self.found_index is Some
        &&& self.phase == BinarySearchPhase::NotFound ==> !a.contains(self.target)
    }

    /// One step from `self` to `post`, returning `ret` (`true` when paused for a
    /// question or completed, `false` once the search has ended).
    pub open spec fn step_to(self, post: Self, ret: bool) -> bool {
        let n = self.array.len() as int;
        let a = self.array;
        let st = search_normalized(self.states, self.found_index);
        let same = BinarySearchView { states: st, ..self };
        if self.state.completed || self.state.awaiting_question is Some {
            ret && post == self
        } else {
            match self.phase {
                BinarySearchPhase::Searching => if self.low > self.high {
                    !ret && post == BinarySearchView { phase: BinarySearchPhase::NotFound, ..same }
                } else {
                    let mid = self.low + (self.high - self.low) / 2;
                    if mid >= n {
                        !ret && post == BinarySearchView { mid, phase: BinarySearchPhase::NotFound, ..same }
                    } else {
                        let s1 = if self.low < n { st.update(self.low, SelectionState::Comparing) } else { st };
                        let s2 = if self.high < n { s1.update(self.high, SelectionState::Comparing) } else { s1 };
                        let s3 = s2.update(mid, SelectionState::Comparing);
                        let counted = VisualizerState {
                            comparisons: (self.state.comparisons + 1) as u32,
                            ..self.state
                        };
                        let len = self.state.questions@.len() as int;
                        let taught = if self.state.teaching_mode && len > 0 {
                            asked(counted, counted.comparisons as int % len)
                        } else {
                            counted
                        };
                        let looked = BinarySearchView { states: s3, mid, state: taught, ..self };
                        if a[mid] == self.target {
                            ret && post == BinarySearchView {
                                found_index: Some(mid as usize),
                                phase: BinarySearchPhase::Found,
                                ..looked
                            }
                        } else if a[mid] < self.target {
                            ret && post == BinarySearchView { low: mid + 1, ..looked }
                        } else if mid >= 1 {
                            ret && post == BinarySearchView { high: mid - 1, ..looked }
                        } else {
                            !ret && post == BinarySearchView {
                                states: s3,
                                mid,
                                state: counted,
                                phase: BinarySearchPhase::NotFound,
                                ..self
                            }
                        }
                    }
                },
                _ => !ret && post == same,
            }
        }
    }
}

/// The state in which a visualizer starts on `sorted_data` with `target`.
pub open spec fn binary_start(
    sorted_data: Seq<u32>,
    target: u32,
    state: VisualizerState,
) -> BinarySearchView {
    let n = sorted_data.len();
    BinarySearchView {
        array: sorted_data,
        original: sorted_data,
        states: Seq::new(n, |k: int| SelectionState::Normal),
        target,
        low: 0,
        high: if n >= 1 { n - 1 } else { 0 },
        mid: 0,
        found_index: None,
        phase: BinarySearchPhase::Searching,
        state,
    }
}

impl View for BinarySearchVisualizer {
    type V = BinarySearchView;

    closed spec fn view(&self) -> BinarySearchView {
        BinarySearchView {
            array: self.array@,
            original: self.original_array@,
            states: self.states@,
            target: self.target,
            low: self.low as int,
            high: self.high as int,
            mid: self.mid as int,
            found_index: self.found_index,
            phase: self.phase,
            state: self.state,
        }
    }
}

impl BinarySearchView {
    /// What a key press does; `out` tells the loop what is left to do.
    pub open spec fn key_to(self, key: ControlKey, post: Self, out: SearchKeyOutcome) -> bool {
        let s = self.state;
        if s.awaiting_question is Some {
            match key {
                ControlKey::Answer(answer) => {
                    let q = s.awaiting_question->0;
                    if q < s.questions@.len() {
                        out == SearchKeyOutcome::Feedback(answer == s.questions@[q as int].correct_index)
                            && post == BinarySearchView { state: VisualizerState { awaiting_question: None, ..s }, ..self }
                    } else {
                        out == SearchKeyOutcome::Continue && post == self
                    }
                },
                _ => out == SearchKeyOutcome::Continue && post == self,
            }
        } else {
            match key {
                ControlKey::Space => if s.completed {
                    out == SearchKeyOutcome::NewTarget && post == self
                } else {
                    out == SearchKeyOutcome::Continue && post == BinarySearchView {
                        state: if s.is_running {
                            VisualizerState { is_paused: !s.is_paused, ..s }
                        } else {
                            VisualizerState { is_running: true, is_paused: false, ..s }
                        },
                        ..self
                    }
                },
                ControlKey::Reset => out == SearchKeyOutcome::NewTarget && post == self,
                ControlKey::Step => out == SearchKeyOutcome::Continue && if !s.completed && !s.is_running {
                    exists|mid: Self, b: bool| #[trigger] self.step_to(mid, b) && if b {
                        post == mid
                    } else {
                        post == BinarySearchView {
                            state: VisualizerState { is_running: false, completed: true, ..mid.state },
                            ..mid
                        }
                    }
                } else {
                    post == self
                },
                ControlKey::Teaching => out == SearchKeyOutcome::SettingsChanged && post == BinarySearchView {
                    state: VisualizerState { teaching_mode: !s.teaching_mode, ..s },
                    ..self
                },
                ControlKey::Faster => out == SearchKeyOutcome::SettingsChanged && post == BinarySearchView {
                    state: VisualizerState { speed: faster_speed(s.speed, 50), ..s },
                    ..self
                },
                ControlKey::Slower => out == SearchKeyOutcome::SettingsChanged && post == BinarySearchView {
                    state: VisualizerState { speed: slower_speed(s.speed, 50, 2000), ..s },
                    ..self
                },
                ControlKey::Escape => out == SearchKeyOutcome::Exit && post == self,
                _ => out == SearchKeyOutcome::Continue && post == self,
            }
        }
    }

    /// One automatic step: when running with no question pending, a step, and when it
    /// reports the end the run stops and is marked completed.
    pub open spec fn auto_step_to(self, post: Self) -> bool {
        let s = self.state;
        if s.is_running && !s.is_paused && !s.completed && s.awaiting_question is None {
            exists|mid: Self, b: bool| #[trigger] self.step_to(mid, b) && if b {
                post == mid
            } else {
                post == BinarySearchView {
                    state: VisualizerState { is_running: false, completed: true, ..mid.state },
                    ..mid
                }
            }
        } else {
            post == self
        }
    }
}

/// The line that says what a binary search is doing.
pub open spec fn binary_operation_text(v: BinarySearchView) -> Seq<char> {
    let t = decimal_text(v.target as nat);
    if v.state.completed {
        match v.found_index {
            Some(f) => "✓ Target "@ + t + " found at index "@ + decimal_text(f as nat) + "!"@,
            None => "✗ Target "@ + t + " not found in the array."@,
        }
    } else {
        match v.phase {
            BinarySearchPhase::Searching => if v.low <= v.high && v.mid < v.array.len() {
                "Binary search: low="@ + decimal_text(v.low as nat) + " mid="@ + decimal_text(v.mid as nat) + "("@
                    + decimal_text(v.array[v.mid as int] as nat) + ") high="@ + decimal_text(v.high as nat)
                    + ", target="@ + t
            } else {
                "Search space exhausted"@
            },
            BinarySearchPhase::Found => "Target "@ + t + " found at index "@ + decimal_text(
                v.found_index->0 as nat,
            ) + "!"@,
            BinarySearchPhase::NotFound => "Target "@ + t + " not found after "@ + decimal_text(
                v.state.comparisons as nat,
            ) + " comparisons."@,
            BinarySearchPhase::Done => "Binary search completed!"@,
        }
    }
}

/// The introduction shown before a binary search for `target`.
pub open spec fn binary_intro_text(target: u32) -> Seq<char> {
    "What is Binary Search?\n\nBinary Search is an efficient algorithm that finds the target in a sorted array by repeatedly dividing\nthe search interval in half. It starts by comparing the middle element with the target.\n\nTarget: "@
        + decimal_text(target as nat)
        + "\n\nAdvantages: O(log n) time complexity for sorted arrays.\nDisadvantages: Requires the array to be sorted first.\n\nTeaching Mode: ON (Toggle with T). Questions will be asked after each comparison.\n\nPress any key to continue..."@
}

/// The phase as the statistics show it.
pub open spec fn binary_phase_text(v: BinarySearchView) -> Seq<char> {
    match v.phase {
        BinarySearchPhase::Searching => "Low: "@ + decimal_text(v.low as nat) + " High: "@ + decimal_text(
            v.high as nat,
        ) + " Mid: "@ + decimal_text(v.mid as nat),
        BinarySearchPhase::Found => "Found at index "@ + decimal_text(v.found_index->0 as nat),
        BinarySearchPhase::NotFound => "Not Found"@,
        BinarySearchPhase::Done => "Done"@,
    }
}

impl BinarySearchVisualizer {
    /// The invariant that every state reachable from `new` keeps.
    pub open spec fn wf(&self) -> bool {
        self@.inv()
    }

    /// Creates a visualizer that searches the sorted copy of the array for `target`, with
    /// the given delay and teaching mode; an empty array starts completed.
    pub fn new(array_data: &ArrayData, target: u32, speed: u64, teaching_mode: bool) -> (r: Self)
        ensures
            r.wf(),
            sorted(r@.array),
            permutation(r@.array, array_data.data@),
            r@ == binary_start(r@.array, target, r@.state),
            binary_questions_match(r@.state.questions@),
            r@.state.speed == speed,
            r@.state.teaching_mode == teaching_mode,
            r@.state.completed == (array_data.data@.len() == 0),
            !r@.state.is_running,
            !r@.state.is_paused,
            r@.state.comparisons == 0,
            r@.state.swaps == 0,
            r@.state.awaiting_question is None,
    {
        let mut array = array_data.data.clone();
        proof {
            assert(array@ =~= array_data.data@);
        }
        let len = array.len();
        sort_ascending(&mut array);
        let questions = binary_search_questions();
        let mut state = VisualizerState::new(questions, speed);
        state.teaching_mode = teaching_mode;
        let original_array = array.clone();
        proof {
            assert(original_array@ =~= array@);
            array@.to_multiset_ensures();
            array_data.data@.to_multiset_ensures();
        }
        let mut this = Self {
            original_array,
            array,
            states: uniform_states(SelectionState::Normal, len),
            target,
            low: 0,
            high: len.saturating_sub(1),
            mid: 0,
            found_index: None,
            phase: BinarySearchPhase::Searching,
            state,
        };
        if len == 0 {
            this.state.mark_completed();
        }
        this
    }

    /// Performs one comparison of binary search; returns `true` without change while a
    /// question is pending or once completed, and `false` once the search has ended.
    /// A found index holds the target; when the search ends not found, the target is absent.
    pub fn step(&mut self) -> (ret: bool)
        requires
            old(self).wf(),
            old(self)@.state.comparisons < u32::MAX,
        ensures
            final(self).wf(),
            old(self)@.step_to(final(self)@, ret),
            final(self)@.found_index matches Some(f) ==> final(self)@.array[f as int] == final(self)@.target,
            final(self)@.phase == BinarySearchPhase::NotFound ==> !final(self)@.array.contains(final(self)@.target),
    {
        if self.state.completed || self.state.awaiting_question.is_some() {
            return true;
        }
        let ghost pre = self@;
        normalize_search_states(&mut self.states, self.found_index);
        let n = self.array.len();
        match self.phase {
            BinarySearchPhase::Searching => {
                if self.low > self.high {
                    self.phase = BinarySearchPhase::NotFound;
                    proof {
                        assert forall|k: int| 0 <= k < n implies self@.array[k] != self@.target by {
                            if k < pre.low {
                            } else {
                                assert(pre.high < k);
                            }
                        }
                    }
                    return false;
                }
                self.mid = self.low + (self.high - self.low) / 2;
                if self.mid >= n {
                    self.phase = BinarySearchPhase::NotFound;
                    proof {
                        assert(n == 0);
                    }
                    return false;
                }
                if self.low < n {
                    self.states.set(self.low, SelectionState::Comparing);
                }
                if self.high < n {
                    self.states.set(self.high, SelectionState::Comparing);
                }
                self.states.set(self.mid, SelectionState::Comparing);
                self.state.comparisons = self.state.comparisons + 1;
                let ghost counted = self.state;
                if self.array[self.mid] == self.target {
                    self.found_index = Some(self.mid);
                    self.phase = BinarySearchPhase::Found;
                    if self.state.teaching_mode && self.state.questions.len() > 0 {
                        let q_index = (self.state.comparisons as usize) % self.state.questions.len();
                        self.state.ask_question(q_index);
                    }
                    proof {
                        if counted.teaching_mode && counted.questions@.len() > 0 {
                            Self::lemma_asked_twice(counted);
                        }
                    }
                    true
                } else if self.array[self.mid] < self.target {
                    self.low = self.mid + 1;
                    if self.state.teaching_mode && self.state.questions.len() > 0 {
                        let q_index = (self.state.comparisons as usize) % self.state.questions.len();
                        self.state.ask_question(q_index);
                    }
                    proof {
                        if counted.teaching_mode && counted.questions@.len() > 0 {
                            Self::lemma_asked_twice(counted);
                        }
                        assert forall|k: int| 0 <= k < self@.low && k < n implies #[trigger] self@.array[k] < self@.target by {
                            assert(self@.array[k] <= self@.array[pre.low + (pre.high - pre.low) / 2]);
                        }
                    }
                    true
                } else if self.mid == 0 {
                    self.phase = BinarySearchPhase::NotFound;
                    proof {
                        assert forall|k: int| 0 <= k < n implies self@.array[k] != self@.target by {
                            assert(self@.array[0] <= self@.array[k]);
                        }
                    }
                    false
                } else {
                    self.high = self.mid - 1;
                    if self.state.teaching_mode && self.state.questions.len() > 0 {
                        let q_index = (self.state.comparisons as usize) % self.state.questions.len();
                        self.state.ask_question(q_index);
                    }
                    proof {
                        if counted.teaching_mode && counted.questions@.len() > 0 {
                            Self::lemma_asked_twice(counted);
                        }
                        let mid = pre.low + (pre.high - pre.low) / 2;
                        assert forall|k: int| self@.high < k < n implies #[trigger] self@.array[k] > self@.target by {
                            if k >= mid {
                                assert(self@.array[mid] <= self@.array[k]);
                            } else {
                                assert(mid == 0);
                            }
                        }
                    }
                    true
                }
            },
            _ => false,
        }
    }

    /// Asking at `c % len` after counting `c` is asking at `c`.
    proof fn lemma_asked_twice(s: VisualizerState)
        requires
            s.teaching_mode,
            s.questions@.len() > 0,
        ensures
            asked(s, s.comparisons as int % s.questions@.len() as int) == asked(s, s.comparisons as int),
    {
        let len = s.questions@.len() as int;
        let c = s.comparisons as int;
        vstd::arithmetic::div_mod::lemma_small_mod((c % len) as nat, len as nat);
    }

    /// Starts over on the sorted array with a new target, keeping speed, teaching mode and
    /// questions; an empty array is completed at once.
    pub fn reset(&mut self, target: u32)
        requires
            old(self).wf(),
        ensures
            final(self).wf(),
            final(self)@ == ({
                let s = VisualizerState {
                    is_running: false,
                    is_paused: false,
                    completed: old(self)@.array.len() == 0,
                    comparisons: 0,
                    swaps: 0,
                    awaiting_question: None,
                    ..old(self)@.state
                };
                binary_start(old(self)@.array, target, s)
            }),
    {
        let mut array = self.original_array.clone();
        proof {
            assert(array@ =~= self.original_array@);
        }
        sort_ascending(&mut array);
        proof {
            crate::sequences::lemma_sorted_permutation_equal(array@, old(self)@.array);
        }
        let len = array.len();
        self.array = array;
        self.states = uniform_states(SelectionState::Normal, len);
        self.low = 0;
        self.high = len.saturating_sub(1);
        self.mid = 0;
        self.found_index = None;
        self.phase = BinarySearchPhase::Searching;
        self.target = target;
        self.state.reset_state();
        if len == 0 {
            self.state.mark_completed();
        }
        proof {
            assert(self@.states =~= Seq::new(len as nat, |k: int| SelectionState::Normal));
        }
    }

    /// Marks the found element, if any, as found.
    pub fn mark_all_sorted(&mut self)
        requires
            old(self).wf(),
        ensures
            final(self).wf(),
            final(self)@ == (BinarySearchView {
                states: match old(self)@.found_index {
                    Some(f) => old(self)@.states.update(f as int, SelectionState::Sorted),
                    None => old(self)@.states,
                },
                ..old(self)@
            }),
    {
        if let Some(found) = self.found_index {
            self.states.set(found, SelectionState::Sorted);
        }
    }

    /// Answers the pending question `q_index` with option `answer`: when the question
    /// exists, clears it and returns whether the answer was correct.
    pub fn handle_question_answer(&mut self, q_index: usize, answer: usize) -> (r: Option<bool>)
        requires
            old(self).wf(),
        ensures
            final(self).wf(),
            q_index < old(self)@.state.questions@.len() ==> r == Some(
                answer == old(self)@.state.questions@[q_index as int].correct_index,
            ) && final(self)@ == (BinarySearchView {
                state: VisualizerState { awaiting_question: None, ..old(self)@.state },
                ..old(self)@
            }),
            q_index >= old(self)@.state.questions@.len() ==> r is None && final(self)@ == old(self)@,
    {
        if q_index < self.state.questions.len() {
            let correct = answer == self.state.questions[q_index].correct_index;
            self.state.clear_question();
            Some(correct)
        } else {
            None
        }
    }

    /// Handles one key press of the visualizer loop.
    pub fn handle_key(&mut self, key: ControlKey) -> (out: SearchKeyOutcome)
        requires
            old(self).wf(),
            old(self)@.state.comparisons < u32::MAX,
            key == ControlKey::Slower ==> old(self)@.state.speed + 50 <= u64::MAX,
        ensures
            final(self).wf(),
            old(self)@.key_to(key, final(self)@, out),
    {
        match self.state.awaiting_question {
            Some(q_index) => {
                match key {
                    ControlKey::Answer(answer) => {
                        match self.handle_question_answer(q_index, answer) {
                            Some(correct) => SearchKeyOutcome::Feedback(correct),
                            None => SearchKeyOutcome::Continue,
                        }
                    },
                    _ => SearchKeyOutcome::Continue,
                }
            },
            None => {
                match key {
                    ControlKey::Space => {
                        if self.state.completed {
                            SearchKeyOutcome::NewTarget
                        } else {
                            self.state.toggle_play_pause();
                            SearchKeyOutcome::Continue
                        }
                    },
                    ControlKey::Reset => SearchKeyOutcome::NewTarget,
                    ControlKey::Step => {
                        if !self.state.completed && !self.state.is_running {
                            let ghost pre = self@;
                            let more = self.step();
                            let ghost mid = self@;
                            if !more {
                                self.state.mark_completed();
                            }
                            proof {
                                assert(pre.step_to(mid, more));
                            }
                        }
                        SearchKeyOutcome::Continue
                    },
                    ControlKey::Teaching => {
                        self.state.toggle_teaching_mode();
                        SearchKeyOutcome::SettingsChanged
                    },
                    ControlKey::Faster => {
                        self.state.increase_speed(50);
                        SearchKeyOutcome::SettingsChanged
                    },
                    ControlKey::Slower => {
                        self.state.decrease_speed(2000);
                        SearchKeyOutcome::SettingsChanged
                    },
                    ControlKey::Escape => SearchKeyOutcome::Exit,
                    _ => SearchKeyOutcome::Continue,
                }
            },
        }
    }

    /// Whether the loop should wait and take an automatic step.
    pub fn wants_auto_step(&self) -> (r: bool)
        ensures
            r == (self@.state.is_running && !self@.state.is_paused && !self@.state.completed
                && self@.state.awaiting_question is None),
    {
        self.state.is_running && !self.state.is_paused && !self.state.completed
            && self.state.awaiting_question.is_none()
    }

    /// Takes an automatic step when running with no question pending; when the step
    /// reports the end, stops the run and marks it completed.
    pub fn auto_step(&mut self)
        requires
            old(self).wf(),
            old(self)@.state.comparisons < u32::MAX,
        ensures
            final(self).wf(),
            old(self)@.auto_step_to(final(self)@),
    {
        if self.state.is_running && !self.state.is_paused && !self.state.completed
            && self.state.awaiting_question.is_none() {
            let ghost pre = self@;
            let more = self.step();
            let ghost mid = self@;
            if !more {
                self.state.mark_completed();
            }
            proof {
                assert(pre.step_to(mid, more));
            }
        }
    }

    /// The shared run state: flags, speed, statistics and questions.
    pub fn state(&self) -> (r: &VisualizerState)
        ensures
            *r == self@.state,
    {
        &self.state
    }

    /// The array being searched.
    pub fn array(&self) -> (r: &Vec<u32>)
        ensures
            r@ == self@.array,
    {
        &self.array
    }

    /// The visual state of each element.
    pub fn states(&self) -> (r: &Vec<SelectionState>)
        ensures
            r@ == self@.states,
    {
        &self.states
    }

    /// The value searched for.
    pub fn target(&self) -> (r: u32)
        ensures
            r == self@.target,
    {
        self.target
    }

    /// Where the target was found, if it was.
    pub fn found_index(&self) -> (r: Option<usize>)
        ensures
            r == self@.found_index,
    {
        self.found_index
    }

    /// Lower bound of the search range.
    pub fn low(&self) -> (r: usize)
        ensures
            r == self@.low,
    {
        self.low
    }

    /// Upper bound of the search range.
    pub fn high(&self) -> (r: usize)
        ensures
            r == self@.high,
    {
        self.high
    }

    /// The middle index last compared.
    pub fn mid(&self) -> (r: usize)
        ensures
            r == self@.mid,
    {
        self.mid
    }

    /// The line that says what the search is doing.
    pub fn get_current_operation(&self) -> (r: String)
        requires
            self.wf(),
        ensures
            r@ == binary_operation_text(self@),
    {
        if self.state.completed {
            match self.found_index {
                Some(f) => {
                    let mut r = String::from_str("✓ Target ");
                    append_decimal(&mut r, self.target as u64);
                    r.append(" found at index ");
                    append_decimal(&mut r, f as u64);
                    r.append("!");
                    r
                },
                None => {
                    let mut r = String::from_str("✗ Target ");
                    append_decimal(&mut r, self.target as u64);
                    r.append(" not found in the array.");
                    r
                },
            }
        } else {
            match self.phase {
                BinarySearchPhase::Searching => {
                    if self.low <= self.high && self.mid < self.array.len() {
                        let mut r = String::from_str("Binary search: low=");
                        append_decimal(&mut r, self.low as u64);
                        r.append(" mid=");
                        append_decimal(&mut r, self.mid as u64);
                        r.append("(");
                        append_decimal(&mut r, self.array[self.mid] as u64);
                        r.append(") high=");
                        append_decimal(&mut r, self.high as u64);
                        r.append(", target=");
                        append_decimal(&mut r, self.target as u64);
                        r
                    } else {
                        String::from_str("Search space exhausted")
                    }
                },
                BinarySearchPhase::Found => {
                    let f = match self.found_index {
                        Some(f) => f,
                        None => 0,
                    };
                    let mut r = String::from_str("Target ");
                    append_decimal(&mut r, self.target as u64);
                    r.append(" found at index ");
                    append_decimal(&mut r, f as u64);
                    r.append("!");
                    r
                },
                BinarySearchPhase::NotFound => {
                    let mut r = String::from_str("Target ");
                    append_decimal(&mut r, self.target as u64);
                    r.append(" not found after ");
                    append_decimal(&mut r, self.state.comparisons as u64);
                    r.append(" comparisons.");
                    r
                },
                BinarySearchPhase::Done => String::from_str("Binary search completed!"),
            }
        }
    }

    /// The introduction shown before the search.
    pub fn get_intro_text(&self) -> (r: String)
        ensures
            r@ == binary_intro_text(self@.target),
    {
        let mut r = String::from_str(
            "What is Binary Search?\n\nBinary Search is an efficient algorithm that finds the target in a sorted array by repeatedly dividing\nthe search interval in half. It starts by comparing the middle element with the target.\n\nTarget: ",
        );
        append_decimal(&mut r, self.target as u64);
        r.append(
            "\n\nAdvantages: O(log n) time complexity for sorted arrays.\nDisadvantages: Requires the array to be sorted first.\n\nTeaching Mode: ON (Toggle with T). Questions will be asked after each comparison.\n\nPress any key to continue...",
        );
        r
    }

    /// The status line of this search.
    pub fn get_status(&self) -> (r: &'static str)
        ensures
            r == search_status_spec(
                self@.state.awaiting_question is Some,
                self@.state.completed,
                self@.state.is_running,
                self@.state.is_paused,
            ),
    {
        search_status(
            self.state.awaiting_question.is_some(),
            self.state.completed,
            self.state.is_running,
            self.state.is_paused,
        )
    }

    /// The control hints of this search.
    pub fn get_controls_text(&self) -> (r: &'static str)
        ensures
            r == get_controls_text_spec(self@.state.awaiting_question is Some, self@.state.completed),
    {
        get_controls_text(self.state.awaiting_question.is_some(), self.state.completed)
    }

    /// The phase as the statistics show it.
    pub fn phase_text(&self) -> (r: String)
        requires
            self.wf(),
        ensures
            r@ == binary_phase_text(self@),
    {
        match self.phase {
            BinarySearchPhase::Searching => {
                let mut r = String::from_str("Low: ");
                append_decimal(&mut r, self.low as u64);
                r.append(" High: ");
                append_decimal(&mut r, self.high as u64);
                r.append(" Mid: ");
                append_decimal(&mut r, self.mid as u64);
                r
            },
            BinarySearchPhase::Found => {
                let mut r = String::from_str("Found at index ");
                match self.found_index {
                    Some(f) => append_decimal(&mut r, f as u64),
                    None => {},
                }
                r
            },
            BinarySearchPhase::NotFound => String::from_str("Not Found"),
            BinarySearchPhase::Done => String::from_str("Done"),
        }
    }

    /// The current phase.
    pub fn phase(&self) -> (r: BinarySearchPhase)
        ensures
            r == self@.phase,
    {
        self.phase
    }
}

} // verus!
