use vstd::prelude::*;
use crate::text::{TextKey, char_is_digit, digits_only, is_digit, parse_number, parse_unsigned};

verus! {

/// The settings kept between runs: the delay between steps, teaching mode, and the
/// last search visualizer used.
#[derive(Clone)]
pub struct Settings {
    /// Milliseconds between automatic steps.
    pub speed: u64,
    pub teaching_mode: bool,
    pub last_visualizer: Option<String>,
}

impl Default for Settings {
    fn default() -> (r: Self)
        ensures
            r.speed == 0,
            !r.teaching_mode,
            r.last_visualizer is None,
    {
        Settings { speed: 0, teaching_mode: false, last_visualizer: None }
    }
}

/// The least delay the speed field accepts.
pub const MIN_SPEED_SETTING: u64 = 100;

/// The largest delay the speed field accepts.
pub const MAX_SPEED_SETTING: u64 = 3000;

/// The number of entries of the settings menu: change speed, toggle teaching mode, back.
pub const SETTINGS_OPTIONS: u32 = 3;

/// What the settings screen is to do after a key press.
#[derive(Clone, Copy, PartialEq, Eq, Debug, Structural)]
pub enum SettingsAction {
    /// Nothing more to do.
    Continue,
    /// Ask for a new speed.
    ChangeSpeed,
    /// Save the changed settings.
    Save,
    /// Leave the settings screen.
    Back,
}

/// The settings menu: the highlighted entry.
pub struct SettingsMenu {
    pub selection: u32,
}

/// The highlighted entry and the settings after a key press on the settings menu, and
/// what is to be done next.
pub open spec fn settings_key(selection: u32, teaching_mode: bool, key: TextKey) -> (u32, bool, SettingsAction) {
    match key {
        TextKey::Up => (
            if selection > 0 { (selection - 1) as u32 } else { (SETTINGS_OPTIONS - 1) as u32 },
            teaching_mode,
            SettingsAction::Continue,
        ),
        TextKey::Down => (((selection + 1) % (SETTINGS_OPTIONS as int)) as u32, teaching_mode, SettingsAction::Continue),
        TextKey::Enter => if selection == 0 {
            (selection, teaching_mode, SettingsAction::ChangeSpeed)
        } else if selection == 1 {
            (selection, !teaching_mode, SettingsAction::Save)
        } else if selection == 2 {
            (selection, teaching_mode, SettingsAction::Back)
        } else {
            (selection, teaching_mode, SettingsAction::Continue)
        },
        TextKey::Escape => (selection, teaching_mode, SettingsAction::Back),
        _ => (selection, teaching_mode, SettingsAction::Continue),
    }
}

impl SettingsMenu {
    /// The menu with its first entry highlighted.
    pub fn new() -> (r: Self)
        ensures
            r.selection == 0,
    {
        SettingsMenu { selection: 0 }
    }

    /// Handles one key press: moves the highlight, toggles teaching mode, or says what
    /// is to be done next. Only the teaching mode of `settings` changes.
    pub fn handle_key(&mut self, settings: &mut Settings, key: TextKey) -> (r: SettingsAction)
        requires
            old(self).selection < SETTINGS_OPTIONS,
        ensures
            final(self).selection < SETTINGS_OPTIONS,
            (final(self).selection, final(settings).teaching_mode, r) == settings_key(
                old(self).selection,
                old(settings).teaching_mode,
                key,
            ),
            final(settings).speed == old(settings).speed,
            final(settings).last_visualizer == old(settings).last_visualizer,
    {
        match key {
            TextKey::Up => {
                if self.selection > 0 {
                    self.selection = self.selection - 1;
                } else {
                    self.selection = SETTINGS_OPTIONS - 1;
                }
                SettingsAction::Continue
            },
            TextKey::Down => {
                self.selection = (self.selection + 1) % SETTINGS_OPTIONS;
                SettingsAction::Continue
            },
            TextKey::Enter => {
                if self.selection == 0 {
                    SettingsAction::ChangeSpeed
                } else if self.selection == 1 {
                    settings.teaching_mode = !settings.teaching_mode;
                    SettingsAction::Save
                } else if self.selection == 2 {
                    SettingsAction::Back
                } else {
                    SettingsAction::Continue
                }
            },
            TextKey::Escape => SettingsAction::Back,
            _ => SettingsAction::Continue,
        }
    }
}

/// The speed field: the digits typed and the cursor among them.
pub struct SpeedInput {
    input: Vec<char>,
    cursor: usize,
}

/// The speed field as a value.
pub struct SpeedInputView {
    pub input: Seq<char>,
    pub cursor: int,
}

impl View for SpeedInput {
    type V = SpeedInputView;

    closed spec fn view(&self) -> SpeedInputView {
        SpeedInputView { input: self.input@, cursor: self.cursor as int }
    }
}

/// What a key press on the speed field gives.
#[derive(Clone, Copy, PartialEq, Eq, Debug, Structural)]
pub enum SpeedOutcome {
    /// Keep editing.
    Editing,
    /// The field was left: with the accepted speed, or with none on ESC.
    Done(Option<u64>),
}

/// Whether the cursor is in the field and the field holds digits only.
pub open spec fn speed_wf(v: SpeedInputView) -> bool {
    &&& 0 <= v.cursor <= v.input.len()
    &&& digits_only(v.input)
}

/// The speed the field holds where it is one from 100 to 3000 ms.
pub open spec fn accepted_speed(input: Seq<char>) -> Option<u64> {
    match parse_unsigned(input, u64::MAX as int) {
        Some(v) => if MIN_SPEED_SETTING <= v <= MAX_SPEED_SETTING {
            Some(v as u64)
        } else {
            None
        },
        None => None,
    }
}

/// The field after a key press, and what the press gives.
pub open spec fn speed_key(v: SpeedInputView, key: TextKey) -> (SpeedInputView, SpeedOutcome) {
    match key {
        TextKey::Char(c) => if is_digit(c) {
            (SpeedInputView { input: v.input.insert(v.cursor, c), cursor: v.cursor + 1 }, SpeedOutcome::Editing)
        } else {
            (v, SpeedOutcome::Editing)
        },
        TextKey::Backspace => if v.input.len() > 0 && v.cursor > 0 {
            (SpeedInputView { input: v.input.remove(v.cursor - 1), cursor: v.cursor - 1 }, SpeedOutcome::Editing)
        } else {
            (v, SpeedOutcome::Editing)
        },
        TextKey::Left => if v.cursor > 0 {
            (SpeedInputView { cursor: v.cursor - 1, ..v }, SpeedOutcome::Editing)
        } else {
            (v, SpeedOutcome::Editing)
        },
        TextKey::Right => if v.cursor < v.input.len() {
            (SpeedInputView { cursor: v.cursor + 1, ..v }, SpeedOutcome::Editing)
        } else {
            (v, SpeedOutcome::Editing)
        },
        TextKey::Enter => if v.input.len() == 0 {
            (v, SpeedOutcome::Editing)
        } else {
            match accepted_speed(v.input) {
                Some(speed) => (v, SpeedOutcome::Done(Some(speed))),
                None => (SpeedInputView { input: Seq::empty(), cursor: 0 }, SpeedOutcome::Editing),
            }
        },
        TextKey::Escape => (v, SpeedOutcome::Done(None)),
        _ => (v, SpeedOutcome::Editing),
    }
}

impl SpeedInput {
    /// The input's invariant.
    pub open spec fn wf(&self) -> bool {
        speed_wf(self@)
    }

    /// An empty field.
    pub fn new() -> (r: Self)
        ensures
            r@.input.len() == 0,
            r@.cursor == 0,
            r.wf(),
    {
        SpeedInput { input: Vec::new(), cursor: 0 }
    }

    /// Handles one key press: edits the field, or leaves it with the speed typed when
    /// that is one from 100 to 3000 ms.
    pub fn handle_key(&mut self, key: TextKey) -> (r: SpeedOutcome)
        requires
            old(self).wf(),
        ensures
            final(self).wf(),
            (final(self)@, r) == speed_key(old(self)@, key),
    {
        match key {
            TextKey::Char(c) => {
                if char_is_digit(c) {
                    self.input.insert(self.cursor, c);
                    let len = self.input.len();
                    assert(self.cursor < len);
                    assert(self@.input == old(self)@.input.insert(old(self)@.cursor, c));
                    self.cursor = self.cursor + 1;
                    proof {
                        assert forall|k: int| 0 <= k < self@.input.len() implies is_digit(
                            #[trigger] self@.input[k],
                        ) by {
                            if k < old(self)@.cursor {
                                assert(self@.input[k] == old(self)@.input[k]);
                            } else if k > old(self)@.cursor {
                                assert(self@.input[k] == old(self)@.input[k - 1]);
                            }
                        }
                    }
                }
                SpeedOutcome::Editing
            },
            TextKey::Backspace => {
                if self.input.len() > 0 && self.cursor > 0 {
                    self.input.remove(self.cursor - 1);
                    self.cursor = self.cursor - 1;
                    assert(self@.input == old(self)@.input.remove(old(self)@.cursor - 1));
                    proof {
                        assert forall|k: int| 0 <= k < self@.input.len() implies is_digit(
                            #[trigger] self@.input[k],
                        ) by {
                            if k < self@.cursor {
                                assert(self@.input[k] == old(self)@.input[k]);
                            } else {
                                assert(self@.input[k] == old(self)@.input[k + 1]);
                            }
                        }
                    }
                }
                SpeedOutcome::Editing
            },
            TextKey::Left => {
                if self.cursor > 0 {
                    self.cursor = self.cursor - 1;
                }
                SpeedOutcome::Editing
            },
            TextKey::Right => {
                if self.cursor < self.input.len() {
                    self.cursor = self.cursor + 1;
                }
                SpeedOutcome::Editing
            },
            TextKey::Enter => {
                if self.input.len() == 0 {
                    SpeedOutcome::Editing
                } else {
                    match parse_number(&self.input, u64::MAX) {
                        Some(speed) => {
                            if MIN_SPEED_SETTING <= speed && speed <= MAX_SPEED_SETTING {
                                SpeedOutcome::Done(Some(speed))
                            } else {
                                self.input = Vec::new();
                                self.cursor = 0;
                                assert(self@.input =~= Seq::<char>::empty());
                                SpeedOutcome::Editing
                            }
                        },
                        None => {
                            self.input = Vec::new();
                            self.cursor = 0;
                            assert(self@.input =~= Seq::<char>::empty());
                            SpeedOutcome::Editing
                        },
                    }
                }
            },
            TextKey::Escape => SpeedOutcome::Done(None),
            _ => SpeedOutcome::Editing,
        }
    }

    /// The digits typed.
    pub fn input(&self) -> (r: &Vec<char>)
        ensures
            r@ == self@.input,
    {
        &self.input
    }

    /// The cursor position.
    pub fn cursor(&self) -> (r: usize)
        ensures
            r == self@.cursor,
    {
        self.cursor
    }
}

} // verus!
