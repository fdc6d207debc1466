use vstd::prelude::*;
use crate::enums::TeachingQuestion;

verus! {

/// A key press, as the visualizer loops interpret it.
#[derive(Clone, Copy, PartialEq, Eq, Debug, Structural)]
pub enum ControlKey {
    /// SPACE: start, pause, resume, or restart a finished run.
    Space,
    /// R: reset.
    Reset,
    /// S: one manual step.
    Step,
    /// T: toggle teaching mode.
    Teaching,
    /// +: shorter delay between steps.
    Faster,
    /// -: longer delay between steps.
    Slower,
    /// 1, 2, 3: an answer to the pending question (0-based).
    Answer(usize),
    /// ESC: leave the visualizer.
    Escape,
    /// Any other key.
    Other,
}

/// What a search visualizer's loop is to do after a key press.
#[derive(Clone, Copy, PartialEq, Eq, Debug, Structural)]
pub enum SearchKeyOutcome {
    /// Nothing more to do.
    Continue,
    /// Leave the visualizer (after saving the settings).
    Exit,
    /// Ask for a new target and reset with it.
    NewTarget,
    /// Save the changed teaching mode or speed.
    SettingsChanged,
    /// Show whether the answer to the pending question was correct.
    Feedback(bool),
}

/// `s` after `ask_question(step)`.
pub open spec fn asked(s: VisualizerState, step: int) -> VisualizerState {
    if s.teaching_mode && s.questions@.len() > 0 {
        VisualizerState { awaiting_question: Some((step % s.questions@.len() as int) as usize), ..s }
    } else {
        s
    }
}

/// The delay after a `Faster` key: 50 ms less, but not below `min_speed`.
pub open spec fn faster_speed(speed: u64, min_speed: u64) -> u64 {
    let lowered: u64 = if speed >= 50 { (speed - 50) as u64 } else { 0 };
    if lowered >= min_speed { lowered } else { min_speed }
}

/// The delay after a `Slower` key: `step` ms more, but not above `max_speed`.
pub open spec fn slower_speed(speed: u64, step: u64, max_speed: u64) -> u64 {
    if speed + step <= max_speed { (speed + step) as u64 } else { max_speed }
}

/// Shortens a delay by 50 ms, saturating at zero, but not below `min_speed`.
pub fn lower_speed(speed: u64, min_speed: u64) -> (r: u64)
    ensures
        r == faster_speed(speed, min_speed),
{
    let lowered = speed.saturating_sub(50);
    if lowered >= min_speed { lowered } else { min_speed }
}

/// Lengthens a delay by `step` ms, but not above `max_speed`.
pub fn raise_speed(speed: u64, step: u64, max_speed: u64) -> (r: u64)
    requires
        speed + step <= u64::MAX,
    ensures
        r == slower_speed(speed, step, max_speed),
{
    let raised = speed + step;
    if raised <= max_speed { raised } else { max_speed }
}

/// Common visualizer behaviors: run state, statistics and teaching questions.
pub struct VisualizerState {
    pub is_running: bool,
    pub is_paused: bool,
    pub completed: bool,
    pub teaching_mode: bool,
    /// Delay between automatic steps, in milliseconds.
    pub speed: u64,
    pub comparisons: u32,
    pub swaps: u32,
    pub awaiting_question: Option<usize>,
    pub questions: Vec<TeachingQuestion>,
}

impl VisualizerState {
    /// Creates a state that is stopped, in teaching mode, with no statistics yet.
    pub fn new(questions: Vec<TeachingQuestion>, default_speed: u64) -> (r: Self)
        ensures
            !r.is_running,
            !r.is_paused,
            !r.completed,
            r.teaching_mode,
            r.speed == default_speed,
            r.comparisons == 0,
            r.swaps == 0,
            r.awaiting_question.is_none(),
            r.questions@ == questions@,
    {
        Self {
            is_running: false,
            is_paused: false,
            completed: false,
            teaching_mode: true,
            speed: default_speed,
            comparisons: 0,
            swaps: 0,
            awaiting_question: None,
            questions,
        }
    }

    /// Shortens the delay by 50 ms, not below `min_speed`.
    pub fn increase_speed(&mut self, min_speed: u64)
        ensures
            final(self).speed == faster_speed(old(self).speed, min_speed),
            *final(self) == (VisualizerState { speed: final(self).speed, ..*old(self) }),
    {
        self.speed = lower_speed(self.speed, min_speed);
    }

    /// Lengthens the delay by 50 ms, not above `max_speed`.
    pub fn decrease_speed(&mut self, max_speed: u64)
        requires
            old(self).speed + 50 <= u64::MAX,
        ensures
            final(self).speed == slower_speed(old(self).speed, 50, max_speed),
            *final(self) == (VisualizerState { speed: final(self).speed, ..*old(self) }),
    {
        self.speed = raise_speed(self.speed, 50, max_speed);
    }

    /// Toggles teaching mode.
    pub fn toggle_teaching_mode(&mut self)
        ensures
            *final(self) == (VisualizerState { teaching_mode: !old(self).teaching_mode, ..*old(self) }),
    {
        self.teaching_mode = !self.teaching_mode;
    }

    /// Pauses or resumes a running visualization; starts a stopped one.
    pub fn toggle_play_pause(&mut self)
        ensures
            old(self).is_running ==> *final(self) == (VisualizerState {
                is_paused: !old(self).is_paused,
                ..*old(self)
            }),
            !old(self).is_running ==> *final(self) == (VisualizerState {
                is_running: true,
                is_paused: false,
                ..*old(self)
            }),
    {
        if self.is_running {
            self.is_paused = !self.is_paused;
        } else {
            self.is_running = true;
            self.is_paused = false;
        }
    }

    /// Stops the run and clears statistics and any pending question.
    pub fn reset_state(&mut self)
        ensures
            *final(self) == (VisualizerState {
                is_running: false,
                is_paused: false,
                completed: false,
                comparisons: 0,
                swaps: 0,
                awaiting_question: None,
                ..*old(self)
            }),
    {
        self.is_running = false;
        self.is_paused = false;
        self.completed = false;
        self.comparisons = 0;
        self.swaps = 0;
        self.awaiting_question = None;
    }

    /// Stops the run and marks it completed.
    pub fn mark_completed(&mut self)
        ensures
            *final(self) == (VisualizerState { is_running: false, completed: true, ..*old(self) }),
    {
        self.is_running = false;
        self.completed = true;
    }

    /// In teaching mode with questions available, sets the pending question to
    /// `current_step` modulo the number of questions; otherwise changes nothing.
    pub fn ask_question(&mut self, current_step: usize)
        ensures
            *final(self) == asked(*old(self), current_step as int),
    {
        if self.teaching_mode && !self.questions.is_empty() {
            let q_index = current_step % self.questions.len();
            self.awaiting_question = Some(q_index);
        }
    }

    /// Clears the pending question.
    pub fn clear_question(&mut self)
        ensures
            *final(self) == (VisualizerState { awaiting_question: None, ..*old(self) }),
    {
        self.awaiting_question = None;
    }
}

/// The status line of a visualizer.
pub open spec fn status_spec(completed: bool, running: bool, paused: bool, awaiting: bool) -> &'static str {
    if completed {
        "COMPLETED!"
    } else if running && !paused {
        "RUNNING..."
    } else if paused {
        "PAUSED"
    } else if awaiting {
        "WAITING FOR QUESTION"
    } else {
        "READY"
    }
}

/// The status line shown under a visualization.
pub fn get_status(completed: bool, running: bool, paused: bool, awaiting: bool) -> (r: &'static str)
    ensures
        r == status_spec(completed, running, paused, awaiting),
{
    if completed {
        "COMPLETED!"
    } else if running && !paused {
        "RUNNING..."
    } else if paused {
        "PAUSED"
    } else if awaiting {
        "WAITING FOR QUESTION"
    } else {
        "READY"
    }
}

/// The control hints under a visualization.
pub open spec fn get_controls_text_spec(awaiting: bool, completed: bool) -> &'static str {
    if awaiting {
        "1,2,3: Answer | ESC: Exit"
    } else if completed {
        "SPACE: Restart | R: Reset | T: Teaching Toggle | ESC: Exit"
    } else {
        "SPACE: Start/Pause | S: Step | R: Reset | T: Teaching | +/-: Speed | ESC: Exit"
    }
}

/// The control hints shown under a visualization.
pub fn get_controls_text(awaiting: bool, completed: bool) -> (r: &'static str)
    ensures
        r == get_controls_text_spec(awaiting, completed),
{
    if awaiting {
        "1,2,3: Answer | ESC: Exit"
    } else if completed {
        "SPACE: Restart | R: Reset | T: Teaching Toggle | ESC: Exit"
    } else {
        "SPACE: Start/Pause | S: Step | R: Reset | T: Teaching | +/-: Speed | ESC: Exit"
    }
}

/// The control hints under a sort.
pub open spec fn sort_controls_spec(completed: bool) -> &'static str {
    if completed {
        "SPACE: Restart | R: Reset | ESC: Exit"
    } else {
        "SPACE: Start/Pause | S: Step | R: Reset | +/-: Speed | ESC: Exit"
    }
}

/// The control hints shown under a sort.
pub fn sort_controls_text(completed: bool) -> (r: &'static str)
    ensures
        r == sort_controls_spec(completed),
{
    if completed {
        "SPACE: Restart | R: Reset | ESC: Exit"
    } else {
        "SPACE: Start/Pause | S: Step | R: Reset | +/-: Speed | ESC: Exit"
    }
}

/// The status line of a search: a pending question comes first.
pub open spec fn search_status_spec(awaiting: bool, completed: bool, running: bool, paused: bool) -> &'static str {
    if awaiting {
        "WAITING FOR QUESTION"
    } else if completed {
        "COMPLETED!"
    } else if running && !paused {
        "SEARCHING..."
    } else if paused {
        "PAUSED"
    } else {
        "READY"
    }
}

/// The status line shown under a search.
pub fn search_status(awaiting: bool, completed: bool, running: bool, paused: bool) -> (r: &'static str)
    ensures
        r == search_status_spec(awaiting, completed, running, paused),
{
    if awaiting {
        "WAITING FOR QUESTION"
    } else if completed {
        "COMPLETED!"
    } else if running && !paused {
        "SEARCHING..."
    } else if paused {
        "PAUSED"
    } else {
        "READY"
    }
}

} // verus!
