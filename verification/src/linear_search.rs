use vstd::prelude::*;
use crate::array_manager::ArrayData;
use crate::base_visualizer::{get_controls_text, get_controls_text_spec, search_status, search_status_spec, ControlKey, SearchKeyOutcome, VisualizerState, asked, faster_speed, slower_speed};
use crate::binary_search::{search_normalized, normalize_search_states};
use crate::text::{append_decimal, decimal_text};
use vstd::string::StringExecFns;
use crate::enums::{SelectionState, TeachingQuestion, question, question_matches, uniform_states};

verus! {

/// The phases of linear search.
#[derive(Clone, Copy, PartialEq, Eq, Debug, Structural)]
pub enum LinearSearchPhase {
    /// Searching through the array.
    Searching,
    /// The target was found.
    Found,
    /// The target is not in the array.
    NotFound,
    /// The search is complete.
    Done,
}

/// Visualizes linear search, one comparison at a time.
pub struct LinearSearchVisualizer {
    array: Vec<u32>,
    original_array: Vec<u32>,
    states: Vec<SelectionState>,
    target: u32,
    current_i: usize,
    found_index: Option<usize>,
    phase: LinearSearchPhase,
    state: VisualizerState,
}

/// The abstract state of a [`LinearSearchVisualizer`].
pub struct LinearSearchView {
    pub array: Seq<u32>,
    pub original: Seq<u32>,
    pub states: Seq<SelectionState>,
    pub target: u32,
    pub current_i: int,
    pub found_index: Option<usize>,
    pub phase: LinearSearchPhase,
    pub state: VisualizerState,
}

/// The teaching questions of linear search.
pub open spec fn linear_questions_match(q: Seq<TeachingQuestion>) -> bool {
    &&& q.len() == 3
    &&& question_matches(
        q[0],
        "What is the main characteristic of Linear Search?"@,
        "It checks each element sequentially from beginning to end"@,
        "It divides the search space in half each time"@,
        "It uses a hash table for lookups"@,
        "Linear Search examines each element in the array one by one until the target is found or the end is reached."@,
    )
    &&& question_matches(
        q[1],
        "What is the time complexity of Linear Search in the worst case?"@,
        "O(n)"@,
        "O(log n)"@,
        "O(1)"@,
        "In the worst case, Linear Search must examine all n elements, resulting in O(n) time complexity."@,
    )
    &&& question_matches(
        q[2],
        "When is Linear Search most efficient?"@,
        "For small, unsorted arrays"@,
        "For large, sorted arrays"@,
        "When using parallel processing"@,
        "Linear Search is simple and efficient for small datasets or when the array is unsorted and random access is costly."@,
    )
}

/// The teaching questions of linear search, the correct option first.
pub fn linear_search_questions() -> (q: Vec<TeachingQuestion>)
    ensures
        linear_questions_match(q@),
{
    let mut q: Vec<TeachingQuestion> = Vec::new();
    q.push(question(
        "What is the main characteristic of Linear Search?",
        "It checks each element sequentially from beginning to end",
        "It divides the search space in half each time",
        "It uses a hash table for lookups",
        "Linear Search examines each element in the array one by one until the target is found or the end is reached.",
    ));
    q.push(question(
        "What is the time complexity of Linear Search in the worst case?",
        "O(n)",
        "O(log n)",
        "O(1)",
        "In the worst case, Linear Search must examine all n elements, resulting in O(n) time complexity.",
    ));
    q.push(question(
        "When is Linear Search most efficient?",
        "For small, unsorted arrays",
        "For large, sorted arrays",
        "When using parallel processing",
        "Linear Search is simple and efficient for small datasets or when the array is unsorted and random access is costly.",
    ));
    q
}

impl LinearSearchView {
    /// The invariant of a visualizer state reachable from `new` and `reset`.
    pub open spec fn inv(self) -> bool {
        let n = self.array.len();
        let a = self.array;
        &&& self.states.len() == n
        &&& self.original == a
        &&& 0 <= self.current_i <= n
        &&& forall|k: int| 0 <= k < self.current_i ==> #[trigger] a[k] != self.target
        &&& self.found_index matches Some(f) ==> f == self.current_i && f < n && a[f as int] == self.target
        &&& self.phase == LinearSearchPhase::Found ==> self.found_index is Some
        &&& self.phase == LinearSearchPhase::Searching ==> self.found_index is None
        &&& self.phase == LinearSearchPhase::NotFound ==> !a.contains(self.target)
    }

    /// The comparisons counted: one for each element passed over and one more for the
    /// element found; a search that found nothing passed over every element.
    pub open spec fn count_ok(self) -> bool {
        &&& self.state.comparisons == self.current_i + if self.phase == LinearSearchPhase::Found {
            1int
        } else {
            0int
        }
        &&& self.phase == LinearSearchPhase::NotFound ==> self.current_i == self.array.len()
    }

    /// One step from `self` to `post`, returning `ret` (`true` when paused for a
    /// question or completed, `false` once the search has ended).
    pub open spec fn step_to(self, post: Self, ret: bool) -> bool {
        let n = self.array.len() as int;
        let a = self.array;
        let i = self.current_i;
        let st = search_normalized(self.states, self.found_index);
        let same = LinearSearchView { states: st, ..self };
        let len = self.state.questions@.len() as int;
        if self.state.completed || self.state.awaiting_question is Some {
            ret && post == self
        } else {
            match self.phase {
                LinearSearchPhase::Searching => if i < n {
                    let counted = VisualizerState {
                        comparisons: (self.state.comparisons + 1) as u32,
                        ..self.state
                    };
                    let looked = LinearSearchView {
                        states: st.update(i, SelectionState::Comparing),
                        state: counted,
                        ..self
                    };
                    ret && if a[i] == self.target {
                        post == LinearSearchView {
                            found_index: Some(i as usize),
                            phase: LinearSearchPhase::Found,
                            state: if self.state.teaching_mode && len > 0 { asked(counted, i % len) } else { counted },
                            ..looked
                        }
                    } else {
                        post == LinearSearchView {
                            current_i: i + 1,
                            state: if self.state.teaching_mode && len > 0 && (i + 1) % 3 == 0 {
                                asked(counted, (i + 1) % len)
                            } else {
                                counted
                            },
                            ..looked
                        }
                    }
                } else {
                    !ret && post == LinearSearchView { phase: LinearSearchPhase::NotFound, ..same }
                },
                _ => !ret && post == same,
            }
        }
    }
}

/// The state in which a visualizer starts on `data` with `target`.
pub open spec fn linear_start(data: Seq<u32>, target: u32, state: VisualizerState) -> LinearSearchView {
    LinearSearchView {
        array: data,
        original: data,
        states: Seq::new(data.len(), |k: int| SelectionState::Normal),
        target,
        current_i: 0,
        found_index: None,
        phase: LinearSearchPhase::Searching,
        state,
    }
}

impl View for LinearSearchVisualizer {
    type V = LinearSearchView;

    closed spec fn view(&self) -> LinearSearchView {
        LinearSearchView {
            array: self.array@,
            original: self.original_array@,
            states: self.states@,
            target: self.target,
            current_i: self.current_i as int,
            found_index: self.found_index,
            phase: self.phase,
            state: self.state,
        }
    }
}

impl LinearSearchView {
    /// What a key press does; `out` tells the loop what is left to do.
    pub open spec fn key_to(self, key: ControlKey, post: Self, out: SearchKeyOutcome) -> bool {
        let s = self.state;
        if s.awaiting_question is Some {
            match key {
                ControlKey::Answer(answer) => {
                    let q = s.awaiting_question->0;
                    if q < s.questions@.len() {
                        out == SearchKeyOutcome::Feedback(answer == s.questions@[q as int].correct_index)
                            && post == LinearSearchView { state: VisualizerState { awaiting_question: None, ..s }, ..self }
                    } else {
                        out == SearchKeyOutcome::Continue && post == self
                    }
                },
                _ => out == SearchKeyOutcome::Continue && post == self,
            }
        } else {
            match key {
                ControlKey::Space => if s.completed {
                    out == SearchKeyOutcome::NewTarget && post == self
                } else {
                    out == SearchKeyOutcome::Continue && post == LinearSearchView {
                        state: if s.is_running {
                            VisualizerState { is_paused: !s.is_paused, ..s }
                        } else {
                            VisualizerState { is_running: true, is_paused: false, ..s }
                        },
                        ..self
                    }
                },
                ControlKey::Reset => out == SearchKeyOutcome::NewTarget && post == self,
                ControlKey::Step => out == SearchKeyOutcome::Continue && if !s.completed && !s.is_running {
                    exists|mid: Self, b: bool| #[trigger] self.step_to(mid, b) && if b {
                        post == mid
                    } else {
                        post == LinearSearchView {
                            state: VisualizerState { is_running: false, completed: true, ..mid.state },
                            ..mid
                        }
                    }
                } else {
                    post == self
                },
                ControlKey::Teaching => out == SearchKeyOutcome::SettingsChanged && post == LinearSearchView {
                    state: VisualizerState { teaching_mode: !s.teaching_mode, ..s },
                    ..self
                },
                ControlKey::Faster => out == SearchKeyOutcome::SettingsChanged && post == LinearSearchView {
                    state: VisualizerState { speed: faster_speed(s.speed, 50), ..s },
                    ..self
                },
                ControlKey::Slower => out == SearchKeyOutcome::SettingsChanged && post == LinearSearchView {
                    state: VisualizerState { speed: slower_speed(s.speed, 50, 2000), ..s },
                    ..self
                },
                ControlKey::Escape => out == SearchKeyOutcome::Exit && post == self,
                _ => out == SearchKeyOutcome::Continue && post == self,
            }
        }
    }

    /// One automatic step: when running with no question pending, a step, and when it
    /// reports the end the run stops and is marked completed.
    pub open spec fn auto_step_to(self, post: Self) -> bool {
        let s = self.state;
        if s.is_running && !s.is_paused && !s.completed && s.awaiting_question is None {
            exists|mid: Self, b: bool| #[trigger] self.step_to(mid, b) && if b {
                post == mid
            } else {
                post == LinearSearchView {
                    state: VisualizerState { is_running: false, completed: true, ..mid.state },
                    ..mid
                }
            }
        } else {
            post == self
        }
    }
}

/// Asking at `k % len` is asking at `k`.
pub proof fn lemma_asked_mod(s: VisualizerState, k: int)
    requires
        s.teaching_mode,
        s.questions@.len() > 0,
        k >= 0,
    ensures
        asked(s, k % s.questions@.len() as int) == asked(s, k),
{
    let len = s.questions@.len() as int;
    vstd::arithmetic::div_mod::lemma_small_mod((k % len) as nat, len as nat);
}

/// The line that says what a linear search is doing.
pub open spec fn linear_operation_text(v: LinearSearchView) -> Seq<char> {
    if v.state.completed {
        if v.found_index is Some {
            "✓ Target found at index!"@
        } else {
            "✗ Target not found in the array."@
        }
    } else {
        match v.phase {
            LinearSearchPhase::Searching => if v.current_i < v.array.len() {
                "Comparing with target"@
            } else {
                "Reached end of array"@
            },
            LinearSearchPhase::Found => "Target found!"@,
            LinearSearchPhase::NotFound => "Target not found after checking all elements."@,
            LinearSearchPhase::Done => "Linear search completed!"@,
        }
    }
}

/// The introduction shown before a linear search for `target`.
pub open spec fn linear_intro_text(target: u32) -> Seq<char> {
    "What is Linear Search?\n\nLinear Search is a simple algorithm that sequentially checks each element in an array\nuntil it finds the target value or reaches the end of the array.\n\nTarget: "@
        + decimal_text(target as nat)
        + "\n\nAdvantages: Easy to implement, works on unsorted data.\nDisadvantages: O(n) time complexity in worst case.\n\nTeaching Mode: ON (Toggle with T). Questions will be asked periodically.\n\nPress any key to continue..."@
}

/// The phase as the statistics show it.
pub open spec fn linear_phase_text(v: LinearSearchView) -> Seq<char> {
    match v.phase {
        LinearSearchPhase::Searching => "Searching"@,
        LinearSearchPhase::Found => "Found at index "@ + decimal_text(v.found_index->0 as nat),
        LinearSearchPhase::NotFound => "Not Found"@,
        LinearSearchPhase::Done => "Done"@,
    }
}

impl LinearSearchVisualizer {
    /// The invariant that every state reachable from `new` keeps.
    pub open spec fn wf(&self) -> bool {
        self@.inv()
    }

    /// Creates a visualizer that searches the array for `target`, with the given delay and
    /// teaching mode; an empty array starts completed.
    pub fn new(array_data: &ArrayData, target: u32, speed: u64, teaching_mode: bool) -> (r: Self)
        ensures
            r.wf(),
            r@ == linear_start(array_data.data@, target, r@.state),
            linear_questions_match(r@.state.questions@),
            r@.state.speed == speed,
            r@.state.teaching_mode == teaching_mode,
            r@.state.completed == (array_data.data@.len() == 0),
            !r@.state.is_running,
            !r@.state.is_paused,
            r@.state.comparisons == 0,
            r@.state.swaps == 0,
            r@.state.awaiting_question is None,
    {
        let array = array_data.data.clone();
        proof {
            assert(array@ =~= array_data.data@);
        }
        let len = array.len();
        let questions = linear_search_questions();
        let mut state = VisualizerState::new(questions, speed);
        state.teaching_mode = teaching_mode;
        let original_array = array.clone();
        proof {
            assert(original_array@ =~= array@);
        }
        let mut this = Self {
            original_array,
            array,
            states: uniform_states(SelectionState::Normal, len),
            target,
            current_i: 0,
            found_index: None,
            phase: LinearSearchPhase::Searching,
            state,
        };
        if len == 0 {
            this.state.mark_completed();
        }
        this
    }

    /// Performs one comparison of linear search; returns `true` without change while a
    /// question is pending or once completed, and `false` once the search has ended.
    /// A found index is the first position that holds the target; when the search ends not
    /// found, the target is absent.
    pub fn step(&mut self) -> (ret: bool)
        requires
            old(self).wf(),
            old(self)@.state.comparisons < u32::MAX,
        ensures
            final(self).wf(),
            old(self)@.step_to(final(self)@, ret),
            final(self)@.found_index matches Some(f) ==> final(self)@.array[f as int] == final(self)@.target
                && forall|k: int| 0 <= k < f ==> #[trigger] final(self)@.array[k] != final(self)@.target,
            final(self)@.phase == LinearSearchPhase::NotFound ==> !final(self)@.array.contains(final(self)@.target),
    {
        if self.state.completed || self.state.awaiting_question.is_some() {
            return true;
        }
        let ghost pre = self@;
        normalize_search_states(&mut self.states, self.found_index);
        let n = self.array.len();
        match self.phase {
            LinearSearchPhase::Searching => {
                if self.current_i < n {
                    self.states.set(self.current_i, SelectionState::Comparing);
                    self.state.comparisons = self.state.comparisons + 1;
                    let ghost counted = self.state;
                    if self.array[self.current_i] == self.target {
                        self.found_index = Some(self.current_i);
                        self.phase = LinearSearchPhase::Found;
                        if self.state.teaching_mode && self.state.questions.len() > 0 {
                            let q_index = self.current_i % self.state.questions.len();
                            self.state.ask_question(q_index);
                            proof {
                                lemma_asked_mod(counted, pre.current_i);
                            }
                            return true;
                        }
                        true
                    } else {
                        self.current_i = self.current_i + 1;
                        if self.state.teaching_mode && self.state.questions.len() > 0 && self.current_i % 3 == 0 {
                            let q_index = self.current_i % self.state.questions.len();
                            self.state.ask_question(q_index);
                            proof {
                                lemma_asked_mod(counted, pre.current_i + 1);
                            }
                            return true;
                        }
                        true
                    }
                } else {
                    self.phase = LinearSearchPhase::NotFound;
                    false
                }
            },
            _ => false,
        }
    }

    /// Starts over on the original array with a new target, keeping speed, teaching mode
    /// and questions; an empty array is completed at once.
    pub fn reset(&mut self, target: u32)
        requires
            old(self).wf(),
        ensures
            final(self).wf(),
            final(self)@ == ({
                let s = VisualizerState {
                    is_running: false,
                    is_paused: false,
                    completed: old(self)@.array.len() == 0,
                    comparisons: 0,
                    swaps: 0,
                    awaiting_question: None,
                    ..old(self)@.state
                };
                linear_start(old(self)@.original, target, s)
            }),
    {
        let len = self.original_array.len();
        self.array = self.original_array.clone();
        proof {
            assert(self.array@ =~= self.original_array@);
        }
        self.states = uniform_states(SelectionState::Normal, len);
        self.current_i = 0;
        self.found_index = None;
        self.phase = LinearSearchPhase::Searching;
        self.target = target;
        self.state.reset_state();
        if len == 0 {
            self.state.mark_completed();
        }
    }

    /// Marks the found element, if any, as found.
    pub fn mark_all_sorted(&mut self)
        requires
            old(self).wf(),
        ensures
            final(self).wf(),
            final(self)@ == (LinearSearchView {
                states: match old(self)@.found_index {
                    Some(f) => old(self)@.states.update(f as int, SelectionState::Sorted),
                    None => old(self)@.states,
                },
                ..old(self)@
            }),
    {
        if let Some(found) = self.found_index {
            self.states.set(found, SelectionState::Sorted);
        }
    }

    /// Answers the pending question `q_index` with option `answer`: when the question
    /// exists, clears it and returns whether the answer was correct.
    pub fn handle_question_answer(&mut self, q_index: usize, answer: usize) -> (r: Option<bool>)
        requires
            old(self).wf(),
        ensures
            final(self).wf(),
            q_index < old(self)@.state.questions@.len() ==> r == Some(
                answer == old(self)@.state.questions@[q_index as int].correct_index,
            ) && final(self)@ == (LinearSearchView {
                state: VisualizerState { awaiting_question: None, ..old(self)@.state },
                ..old(self)@
            }),
            q_index >= old(self)@.state.questions@.len() ==> r is None && final(self)@ == old(self)@,
    {
        if q_index < self.state.questions.len() {
            let correct = answer == self.state.questions[q_index].correct_index;
            self.state.clear_question();
            Some(correct)
        } else {
            None
        }
    }

    /// Handles one key press of the visualizer loop.
    pub fn handle_key(&mut self, key: ControlKey) -> (out: SearchKeyOutcome)
        requires
            old(self).wf(),
            old(self)@.state.comparisons < u32::MAX,
            key == ControlKey::Slower ==> old(self)@.state.speed + 50 <= u64::MAX,
        ensures
            final(self).wf(),
            old(self)@.key_to(key, final(self)@, out),
    {
        match self.state.awaiting_question {
            Some(q_index) => {
                match key {
                    ControlKey::Answer(answer) => {
                        match self.handle_question_answer(q_index, answer) {
                            Some(correct) => SearchKeyOutcome::Feedback(correct),
                            None => SearchKeyOutcome::Continue,
                        }
                    },
                    _ => SearchKeyOutcome::Continue,
                }
            },
            None => {
                match key {
                    ControlKey::Space => {
                        if self.state.completed {
                            SearchKeyOutcome::NewTarget
                        } else {
                            self.state.toggle_play_pause();
                            SearchKeyOutcome::Continue
                        }
                    },
                    ControlKey::Reset => SearchKeyOutcome::NewTarget,
                    ControlKey::Step => {
                        if !self.state.completed && !self.state.is_running {
                            let ghost pre = self@;
                            let more = self.step();
                            let ghost mid = self@;
                            if !more {
                                self.state.mark_completed();
                            }
                            proof {
                                assert(pre.step_to(mid, more));
                            }
                        }
                        SearchKeyOutcome::Continue
                    },
                    ControlKey::Teaching => {
                        self.state.toggle_teaching_mode();
                        SearchKeyOutcome::SettingsChanged
                    },
                    ControlKey::Faster => {
                        self.state.increase_speed(50);
                        SearchKeyOutcome::SettingsChanged
                    },
                    ControlKey::Slower => {
                        self.state.decrease_speed(2000);
                        SearchKeyOutcome::SettingsChanged
                    },
                    ControlKey::Escape => SearchKeyOutcome::Exit,
                    _ => SearchKeyOutcome::Continue,
                }
            },
        }
    }

    /// Whether the loop should wait and take an automatic step.
    pub fn wants_auto_step(&self) -> (r: bool)
        ensures
            r == (self@.state.is_running && !self@.state.is_paused && !self@.state.completed
                && self@.state.awaiting_question is None),
    {
        self.state.is_running && !self.state.is_paused && !self.state.completed
            && self.state.awaiting_question.is_none()
    }

    /// Takes an automatic step when running with no question pending; when the step
    /// reports the end, stops the run and marks it completed.
    pub fn auto_step(&mut self)
        requires
            old(self).wf(),
            old(self)@.state.comparisons < u32::MAX,
        ensures
            final(self).wf(),
            old(self)@.auto_step_to(final(self)@),
    {
        if self.state.is_running && !self.state.is_paused && !self.state.completed
            && self.state.awaiting_question.is_none() {
            let ghost pre = self@;
            let more = self.step();
            let ghost mid = self@;
            if !more {
                self.state.mark_completed();
            }
            proof {
                assert(pre.step_to(mid, more));
            }
        }
    }

    /// The shared run state: flags, speed, statistics and questions.
    pub fn state(&self) -> (r: &VisualizerState)
        ensures
            *r == self@.state,
    {
        &self.state
    }

    /// The array being searched.
    pub fn array(&self) -> (r: &Vec<u32>)
        ensures
            r@ == self@.array,
    {
        &self.array
    }

    /// The visual state of each element.
    pub fn states(&self) -> (r: &Vec<SelectionState>)
        ensures
            r@ == self@.states,
    {
        &self.states
    }

    /// The value searched for.
    pub fn target(&self) -> (r: u32)
        ensures
            r == self@.target,
    {
        self.target
    }

    /// Where the target was found, if it was.
    pub fn found_index(&self) -> (r: Option<usize>)
        ensures
            r == self@.found_index,
    {
        self.found_index
    }

    /// The next index to compare.
    pub fn current_i(&self) -> (r: usize)
        ensures
            r == self@.current_i,
    {
        self.current_i
    }

    /// The line that says what the search is doing.
    pub fn get_current_operation(&self) -> (r: &'static str)
        ensures
            r@ == linear_operation_text(self@),
    {
        if self.state.completed {
            if self.found_index.is_some() {
                "✓ Target found at index!"
            } else {
                "✗ Target not found in the array."
            }
        } else {
            match self.phase {
                LinearSearchPhase::Searching => {
                    if self.current_i < self.array.len() {
                        "Comparing with target"
                    } else {
                        "Reached end of array"
                    }
                },
                LinearSearchPhase::Found => "Target found!",
                LinearSearchPhase::NotFound => "Target not found after checking all elements.",
                LinearSearchPhase::Done => "Linear search completed!",
            }
        }
    }

    /// The introduction shown before the search.
    pub fn get_intro_text(&self) -> (r: String)
        ensures
            r@ == linear_intro_text(self@.target),
    {
        let mut r = String::from_str(
            "What is Linear Search?\n\nLinear Search is a simple algorithm that sequentially checks each element in an array\nuntil it finds the target value or reaches the end of the array.\n\nTarget: ",
        );
        append_decimal(&mut r, self.target as u64);
        r.append(
            "\n\nAdvantages: Easy to implement, works on unsorted data.\nDisadvantages: O(n) time complexity in worst case.\n\nTeaching Mode: ON (Toggle with T). Questions will be asked periodically.\n\nPress any key to continue...",
        );
        r
    }

    /// The status line of this search.
    pub fn get_status(&self) -> (r: &'static str)
        ensures
            r == search_status_spec(
                self@.state.awaiting_question is Some,
                self@.state.completed,
                self@.state.is_running,
                self@.state.is_paused,
            ),
    {
        search_status(
            self.state.awaiting_question.is_some(),
            self.state.completed,
            self.state.is_running,
            self.state.is_paused,
        )
    }

    /// The control hints of this search.
    pub fn get_controls_text(&self) -> (r: &'static str)
        ensures
            r == get_controls_text_spec(self@.state.awaiting_question is Some, self@.state.completed),
    {
        get_controls_text(self.state.awaiting_question.is_some(), self.state.completed)
    }

    /// The phase as the statistics show it.
    pub fn phase_text(&self) -> (r: String)
        requires
            self.wf(),
        ensures
            r@ == linear_phase_text(self@),
    {
        match self.phase {
            LinearSearchPhase::Searching => String::from_str("Searching"),
            LinearSearchPhase::Found => {
                let mut r = String::from_str("Found at index ");
                match self.found_index {
                    Some(f) => append_decimal(&mut r, f as u64),
                    None => {},
                }
                r
            },
            LinearSearchPhase::NotFound => String::from_str("Not Found"),
            LinearSearchPhase::Done => String::from_str("Done"),
        }
    }

    /// The current phase.
    pub fn phase(&self) -> (r: LinearSearchPhase)
        ensures
            r == self@.phase,
    {
        self.phase
    }
}

} // verus!
