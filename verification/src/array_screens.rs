use vstd::prelude::*;
use crate::array_manager::{ArrayData, ArrayManager, ArrayManagerView, selection_after_remove};
use vstd::string::StringExecFns;
use crate::array_manager::{seq_max, seq_min};
use crate::text::{
    TextKey, at_boundary, char_index, char_is_digit, decimal_string, decimal_text, digits_only,
    find_char_index, is_digit, parse_number, parse_unsigned, string_from_chars, trim_chars,
    trimmed, utf8_len,
};

verus! {

/// The number of entries of the array manager's menu.
pub const MANAGER_OPTIONS: usize = 6;

/// What the array manager's screen is to do after a key press.
#[derive(Clone, Copy, PartialEq, Eq, Debug, Structural)]
pub enum ManagerAction {
    /// Nothing more to do.
    Continue,
    /// Open the dialog that makes a random array.
    GenerateRandom,
    /// Open the dialog that takes an array typed in.
    EnterManually,
    /// The array at this index was selected: confirm it.
    ShowSelection(usize),
    /// Show the details of the array at this index.
    ShowDetails(usize),
    /// Ask whether to delete the array at this index.
    ConfirmDelete(usize),
    /// Leave the array manager.
    Back,
}

/// The array manager's screen: the highlighted menu entry and the highlighted array.
pub struct ManagerScreen {
    menu_selection: usize,
    array_selection: usize,
}

/// Whether the highlighted menu entry is one of those that work on an array (select,
/// view, delete), where the arrows move among the arrays.
pub open spec fn picks_array(menu_selection: int) -> bool {
    2 <= menu_selection <= 4
}

/// Whether the menu entry is in range and the highlighted array is one of the `n`
/// arrays, or the first place where there are none.
pub open spec fn screen_wf(menu_selection: int, array_selection: int, n: int) -> bool {
    &&& 0 <= menu_selection < MANAGER_OPTIONS
    &&& 0 <= array_selection
    &&& (array_selection < n || array_selection == 0)
}

/// The highlighted menu entry and array after `key` with `n` arrays, and what is to be
/// done next.
pub open spec fn manager_key(menu: int, arr: int, n: int, key: TextKey) -> (int, int, ManagerAction) {
    let on_arrays = picks_array(menu) && n > 0;
    match key {
        TextKey::Up => if on_arrays {
            (menu, if arr > 0 { arr - 1 } else { n - 1 }, ManagerAction::Continue)
        } else {
            (if menu > 0 { menu - 1 } else { MANAGER_OPTIONS - 1 }, arr, ManagerAction::Continue)
        },
        TextKey::Down => if on_arrays {
            (menu, (arr + 1) % n, ManagerAction::Continue)
        } else {
            ((menu + 1) % (MANAGER_OPTIONS as int), arr, ManagerAction::Continue)
        },
        TextKey::Left => if picks_array(menu) {
            (menu - 1, arr, ManagerAction::Continue)
        } else {
            (menu, arr, ManagerAction::Continue)
        },
        TextKey::Right => ((menu + 1) % (MANAGER_OPTIONS as int), arr, ManagerAction::Continue),
        TextKey::Enter => (
            menu,
            arr,
            if menu == 0 {
                ManagerAction::GenerateRandom
            } else if menu == 1 {
                ManagerAction::EnterManually
            } else if menu == 2 && n > 0 {
                ManagerAction::ShowSelection(arr as usize)
            } else if menu == 3 && n > 0 {
                ManagerAction::ShowDetails(arr as usize)
            } else if menu == 4 && n > 0 {
                ManagerAction::ConfirmDelete(arr as usize)
            } else if menu == 5 {
                ManagerAction::Back
            } else {
                ManagerAction::Continue
            },
        ),
        TextKey::Escape => (menu, arr, ManagerAction::Back),
        _ => (menu, arr, ManagerAction::Continue),
    }
}

/// The highlighted array after the one highlighted was deleted, leaving `n` arrays: the
/// last one where it was past the end.
pub open spec fn selection_after_delete(arr: int, n: int) -> int {
    if arr >= n && n > 0 {
        n - 1
    } else {
        arr
    }
}

impl ManagerScreen {
    /// The highlighted action.
    pub closed spec fn menu_selection_spec(&self) -> int {
        self.menu_selection as int
    }

    /// The highlighted array.
    pub closed spec fn array_selection_spec(&self) -> int {
        self.array_selection as int
    }

    /// Whether the screen fits a manager with `n` arrays.
    pub open spec fn wf(&self, n: int) -> bool {
        screen_wf(self.menu_selection_spec(), self.array_selection_spec(), n)
    }

    /// The screen with the first menu entry and the first array highlighted.
    pub fn new() -> (r: Self)
        ensures
            r.menu_selection_spec() == 0,
            r.array_selection_spec() == 0,
            forall|n: int| r.wf(n),
    {
        ManagerScreen { menu_selection: 0, array_selection: 0 }
    }

    /// Handles one key press: moves the highlights, selects the highlighted array for the
    /// visualizers, or says what is to be done next.
    pub fn handle_key(&mut self, manager: &mut ArrayManager, key: TextKey) -> (r: ManagerAction)
        requires
            old(self).wf(old(manager)@.arrays.len() as int),
        ensures
            final(self).wf(final(manager)@.arrays.len() as int),
            (final(self).menu_selection_spec(), final(self).array_selection_spec(), r) == manager_key(
                old(self).menu_selection_spec(),
                old(self).array_selection_spec(),
                old(manager)@.arrays.len() as int,
                key,
            ),
            final(manager)@ == (if r is ShowSelection {
                ArrayManagerView {
                    selected_index: Some(old(self).array_selection_spec() as usize),
                    ..old(manager)@
                }
            } else {
                old(manager)@
            }),
    {
        let n = manager.arrays().len();
        let on_arrays = 2 <= self.menu_selection && self.menu_selection <= 4 && n > 0;
        match key {
            TextKey::Up => {
                if on_arrays {
                    self.array_selection = if self.array_selection > 0 {
                        self.array_selection - 1
                    } else {
                        n - 1
                    };
                } else {
                    self.menu_selection = if self.menu_selection > 0 {
                        self.menu_selection - 1
                    } else {
                        MANAGER_OPTIONS - 1
                    };
                }
                ManagerAction::Continue
            },
            TextKey::Down => {
                if on_arrays {
                    self.array_selection = (self.array_selection + 1) % n;
                } else {
                    self.menu_selection = (self.menu_selection + 1) % MANAGER_OPTIONS;
                }
                ManagerAction::Continue
            },
            TextKey::Left => {
                if 2 <= self.menu_selection && self.menu_selection <= 4 {
                    self.menu_selection = self.menu_selection - 1;
                }
                ManagerAction::Continue
            },
            TextKey::Right => {
                self.menu_selection = (self.menu_selection + 1) % MANAGER_OPTIONS;
                ManagerAction::Continue
            },
            TextKey::Enter => {
                if self.menu_selection == 0 {
                    ManagerAction::GenerateRandom
                } else if self.menu_selection == 1 {
                    ManagerAction::EnterManually
                } else if self.menu_selection == 2 && n > 0 {
                    manager.select_array(self.array_selection);
                    ManagerAction::ShowSelection(self.array_selection)
                } else if self.menu_selection == 3 && n > 0 {
                    ManagerAction::ShowDetails(self.array_selection)
                } else if self.menu_selection == 4 && n > 0 {
                    ManagerAction::ConfirmDelete(self.array_selection)
                } else if self.menu_selection == 5 {
                    ManagerAction::Back
                } else {
                    ManagerAction::Continue
                }
            },
            TextKey::Escape => ManagerAction::Back,
            _ => ManagerAction::Continue,
        }
    }

    /// Deletes the highlighted array after the deletion was confirmed, and keeps the
    /// highlight in range.
    pub fn delete_selected(&mut self, manager: &mut ArrayManager)
        requires
            old(self).wf(old(manager)@.arrays.len() as int),
            old(manager)@.arrays.len() > 0,
        ensures
            final(self).wf(final(manager)@.arrays.len() as int),
            final(manager)@ == (ArrayManagerView {
                arrays: old(manager)@.arrays.remove(old(self).array_selection_spec()),
                selected_index: selection_after_remove(
                    old(manager)@.selected_index,
                    old(self).array_selection_spec() as usize,
                ),
            }),
            final(self).menu_selection_spec() == old(self).menu_selection_spec(),
            final(self).array_selection_spec() == selection_after_delete(
                old(self).array_selection_spec(),
                old(manager)@.arrays.len() - 1,
            ),
    {
        manager.remove_array(self.array_selection);
        let n = manager.arrays().len();
        if self.array_selection >= n && n > 0 {
            self.array_selection = n - 1;
        }
    }

    /// Records an array made by one of the dialogs; the highlight stays in range.
    pub fn add_array(&mut self, manager: &mut ArrayManager, array_data: ArrayData)
        requires
            old(self).wf(old(manager)@.arrays.len() as int),
        ensures
            final(self).wf(final(manager)@.arrays.len() as int),
            final(manager)@.arrays == old(manager)@.arrays.push(array_data),
            final(manager)@.selected_index == old(manager)@.selected_index,
            final(self).menu_selection_spec() == old(self).menu_selection_spec(),
            final(self).array_selection_spec() == old(self).array_selection_spec(),
    {
        manager.add_array(array_data);
    }

    /// The highlighted menu entry.
    pub fn menu_selection(&self) -> (r: usize)
        ensures
            r == self.menu_selection_spec(),
    {
        self.menu_selection
    }

    /// The highlighted array.
    pub fn array_selection(&self) -> (r: usize)
        ensures
            r == self.array_selection_spec(),
    {
        self.array_selection
    }
}

/// A number from `low` to `high`, both included, drawn by `rand::random_range` from the
/// thread-local generator; its documentation gives a value in the range, which must not
/// be empty. Which value comes is chance.
#[verifier::external_body]
fn random_in_range(low: u32, high: u32) -> (r: u32)
    requires
        low <= high,
    ensures
        low <= r <= high,
{
    rand::random_range(low..=high)
}

/// The least value of a random array.
pub const RANDOM_LOW: u32 = 1;

/// The largest value of a random array.
pub const RANDOM_HIGH: u32 = 100;

/// The least size of a new array.
pub const MIN_ARRAY_SIZE: usize = 2;

/// The largest size of a new array.
pub const MAX_ARRAY_SIZE: usize = 50;

/// An array of `size` random values from 1 to 100, named `name`.
pub fn generate_random_array(size: usize, name: String) -> (r: ArrayData)
    ensures
        r.data@.len() == size,
        forall|i: int| 0 <= i < size ==> RANDOM_LOW <= #[trigger] r.data@[i] <= RANDOM_HIGH,
        r.name@ == name@,
        r.size == size,
        r.min_value == seq_min(r.data@),
        r.max_value == seq_max(r.data@),
{
    let mut data: Vec<u32> = Vec::new();
    let mut k: usize = 0;
    while k < size
        invariant
            k <= size,
            data@.len() == k,
            forall|i: int| 0 <= i < k ==> RANDOM_LOW <= #[trigger] data@[i] <= RANDOM_HIGH,
        decreases size - k,
    {
        data.push(random_in_range(RANDOM_LOW, RANDOM_HIGH));
        k = k + 1;
    }
    ArrayData::new(data, name)
}

/// The dialog that makes a random array: the size field, the name field, which of them
/// has the focus, and the cursor, counted in bytes as `String` counts it.
pub struct RandomArrayDialog {
    size_input: Vec<char>,
    name_input: Vec<char>,
    input_mode: u8,
    cursor: usize,
}

/// The random-array dialog as a value.
pub struct RandomDialogView {
    pub size_input: Seq<char>,
    pub name_input: Seq<char>,
    pub input_mode: int,
    pub cursor: int,
}

impl View for RandomArrayDialog {
    type V = RandomDialogView;

    closed spec fn view(&self) -> RandomDialogView {
        RandomDialogView {
            size_input: self.size_input@,
            name_input: self.name_input@,
            input_mode: self.input_mode as int,
            cursor: self.cursor as int,
        }
    }
}

/// What a key press on the random-array dialog gives.
pub enum RandomOutcome {
    /// Keep editing.
    Editing,
    /// The dialog was cancelled.
    Cancelled,
    /// Make a random array of this size with this name.
    Generate { size: usize, name: String },
}

/// The largest byte length of the name field.
pub const NAME_LIMIT: usize = 18;

/// Whether the fields hold what the dialog lets in and the cursor lies in the focused one.
pub open spec fn random_wf(v: RandomDialogView) -> bool {
    &&& v.input_mode == 0 || v.input_mode == 1
    &&& digits_only(v.size_input)
    &&& v.size_input.len() <= 2
    &&& utf8_len(v.name_input) < NAME_LIMIT + 4
    &&& 0 <= v.cursor
    &&& v.input_mode == 0 ==> v.cursor <= v.size_input.len()
    &&& v.input_mode == 1 ==> v.cursor <= utf8_len(v.name_input)
}

/// The name of a new array: the name typed without surrounding white space, or the
/// default made of `prefix` and the size where that is empty.
pub open spec fn chosen_name(typed: Seq<char>, prefix: Seq<char>, size: usize) -> Seq<char> {
    if trimmed(typed).len() == 0 {
        prefix + decimal_text(size as nat)
    } else {
        trimmed(typed)
    }
}

/// The size typed, where it is a number from 2 to 50.
pub open spec fn accepted_size(input: Seq<char>) -> Option<usize> {
    match parse_unsigned(trimmed(input), usize::MAX as int) {
        Some(n) => if MIN_ARRAY_SIZE <= n <= MAX_ARRAY_SIZE {
            Some(n as usize)
        } else {
            None
        },
        None => None,
    }
}

/// The array the random-array dialog asks for on ENTER, if the size is accepted.
pub open spec fn random_request(v: RandomDialogView) -> Option<(usize, Seq<char>)> {
    match accepted_size(v.size_input) {
        Some(n) => Some((n, chosen_name(v.name_input, "Array_"@, n))),
        None => None,
    }
}

/// Whether `key` is one the dialog cannot take: an insertion or a removal in the name
/// field at a byte offset that is not a character boundary, where `String` panics.
pub open spec fn random_key_panics(v: RandomDialogView, key: TextKey) -> bool {
    &&& v.input_mode == 1
    &&& match key {
        TextKey::Char(_) => utf8_len(v.name_input) < NAME_LIMIT && !at_boundary(v.name_input, v.cursor),
        TextKey::Backspace => v.cursor > 0 && !at_boundary(v.name_input, v.cursor - 1),
        _ => false,
    }
}

/// The dialog after `key`.
pub open spec fn random_key(v: RandomDialogView, key: TextKey) -> RandomDialogView {
    match key {
        TextKey::Tab => if v.input_mode == 0 {
            RandomDialogView { input_mode: 1, cursor: utf8_len(v.name_input) as int, ..v }
        } else {
            RandomDialogView { input_mode: 0, cursor: v.size_input.len() as int, ..v }
        },
        TextKey::Char(c) => if v.input_mode == 0 && is_digit(c) && v.size_input.len() < 2 {
            RandomDialogView { size_input: v.size_input.insert(v.cursor, c), cursor: v.cursor + 1, ..v }
        } else if v.input_mode == 1 && utf8_len(v.name_input) < NAME_LIMIT {
            RandomDialogView {
                name_input: v.name_input.insert(char_index(v.name_input, v.cursor), c),
                cursor: v.cursor + 1,
                ..v
            }
        } else {
            v
        },
        TextKey::Backspace => if v.input_mode == 0 && v.cursor > 0 {
            RandomDialogView { size_input: v.size_input.remove(v.cursor - 1), cursor: v.cursor - 1, ..v }
        } else if v.input_mode == 1 && v.cursor > 0 {
            RandomDialogView {
                name_input: v.name_input.remove(char_index(v.name_input, v.cursor - 1)),
                cursor: v.cursor - 1,
                ..v
            }
        } else {
            v
        },
        _ => v,
    }
}

impl RandomArrayDialog {
    /// The dialog's invariant.
    pub open spec fn wf(&self) -> bool {
        random_wf(self@)
    }

    /// The dialog with both fields empty and the focus on the size.
    pub fn new() -> (r: Self)
        ensures
            r@.size_input.len() == 0,
            r@.name_input.len() == 0,
            r@.input_mode == 0,
            r@.cursor == 0,
            r.wf(),
    {
        RandomArrayDialog { size_input: Vec::new(), name_input: Vec::new(), input_mode: 0, cursor: 0 }
    }

    /// Whether `key` is one on which the dialog cannot go on.
    pub fn key_panics(&self, key: TextKey) -> (r: bool)
        requires
            self.wf(),
        ensures
            r == random_key_panics(self@, key),
    {
        if self.input_mode != 1 {
            return false;
        }
        match key {
            TextKey::Char(_) => {
                let len = crate::text::utf8_len_of(&self.name_input);
                len < NAME_LIMIT && find_char_index(&self.name_input, self.cursor).is_none()
            },
            TextKey::Backspace => {
                self.cursor > 0 && find_char_index(&self.name_input, self.cursor - 1).is_none()
            },
            _ => false,
        }
    }

    /// Handles one key press: edits the focused field, switches fields, cancels, or asks
    /// for the array when the size typed is accepted.
    pub fn handle_key(&mut self, key: TextKey) -> (r: RandomOutcome)
        requires
            old(self).wf(),
            !random_key_panics(old(self)@, key),
        ensures
            final(self).wf(),
            final(self)@ == random_key(old(self)@, key),
            key == TextKey::Escape ==> r is Cancelled,
            key == TextKey::Enter ==> match random_request(old(self)@) {
                Some((n, name)) => r matches RandomOutcome::Generate { size, name: s } && size == n && s@
                    == name,
                None => r is Editing,
            },
            key != TextKey::Escape && key != TextKey::Enter ==> r is Editing,
    {
        match key {
            TextKey::Tab => {
                if self.input_mode == 0 {
                    self.input_mode = 1;
                    self.cursor = crate::text::utf8_len_of(&self.name_input);
                } else {
                    self.input_mode = 0;
                    self.cursor = self.size_input.len();
                }
                RandomOutcome::Editing
            },
            TextKey::Char(c) => {
                if self.input_mode == 0 && char_is_digit(c) && self.size_input.len() < 2 {
                    self.size_input.insert(self.cursor, c);
                    self.cursor = self.cursor + 1;
                    proof {
                        assert forall|k: int| 0 <= k < self@.size_input.len() implies is_digit(
                            #[trigger] self@.size_input[k],
                        ) by {
                            if k < old(self)@.cursor {
                                assert(self@.size_input[k] == old(self)@.size_input[k]);
                            } else if k > old(self)@.cursor {
                                assert(self@.size_input[k] == old(self)@.size_input[k - 1]);
                            }
                        }
                    }
                } else if self.input_mode == 1 && crate::text::utf8_len_of(&self.name_input) < NAME_LIMIT {
                    let k = find_char_index(&self.name_input, self.cursor).unwrap();
                    self.name_input.insert(k, c);
                    self.cursor = self.cursor + 1;
                    proof {
                        crate::text::lemma_utf8_insert(old(self)@.name_input, k as int, c);
                    }
                }
                RandomOutcome::Editing
            },
            TextKey::Backspace => {
                if self.input_mode == 0 && self.cursor > 0 {
                    self.cursor = self.cursor - 1;
                    self.size_input.remove(self.cursor);
                    proof {
                        assert forall|k: int| 0 <= k < self@.size_input.len() implies is_digit(
                            #[trigger] self@.size_input[k],
                        ) by {
                            if k < self@.cursor {
                                assert(self@.size_input[k] == old(self)@.size_input[k]);
                            } else {
                                assert(self@.size_input[k] == old(self)@.size_input[k + 1]);
                            }
                        }
                    }
                } else if self.input_mode == 1 && self.cursor > 0 {
                    self.cursor = self.cursor - 1;
                    let k = find_char_index(&self.name_input, self.cursor).unwrap();
                    proof {
                        assert(old(self)@.name_input.take(old(self)@.name_input.len() as int)
                            =~= old(self)@.name_input);
                        crate::text::lemma_utf8_remove(old(self)@.name_input, k as int);
                        let nm = old(self)@.name_input;
                        crate::text::lemma_utf8_prefix_grows(nm, k + 1, nm.len() as int);
                        assert(nm.take(k + 1).drop_last() =~= nm.take(k as int));
                        assert(utf8_len(nm.take(k as int)) == self.cursor);
                    }
                    self.name_input.remove(k);
                }
                RandomOutcome::Editing
            },
            TextKey::Enter => {
                let trimmed_size = trim_chars(&self.size_input);
                match parse_number(&trimmed_size, usize::MAX as u64) {
                    Some(n) => {
                        if 2 <= n && n <= 50 {
                            let size = n as usize;
                            let name = choose_name(&self.name_input, "Array_", size);
                            RandomOutcome::Generate { size, name }
                        } else {
                            RandomOutcome::Editing
                        }
                    },
                    None => RandomOutcome::Editing,
                }
            },
            TextKey::Escape => RandomOutcome::Cancelled,
            _ => RandomOutcome::Editing,
        }
    }

    /// The size field.
    pub fn size_input(&self) -> (r: &Vec<char>)
        ensures
            r@ == self@.size_input,
    {
        &self.size_input
    }

    /// The name field.
    pub fn name_input(&self) -> (r: &Vec<char>)
        ensures
            r@ == self@.name_input,
    {
        &self.name_input
    }

    /// Which field has the focus: 0 for the size, 1 for the name.
    pub fn input_mode(&self) -> (r: u8)
        ensures
            r == self@.input_mode,
    {
        self.input_mode
    }

    /// The cursor, in bytes into the focused field.
    pub fn cursor(&self) -> (r: usize)
        ensures
            r == self@.cursor,
    {
        self.cursor
    }
}

/// The name of a new array from the name typed, or `prefix` and the size.
fn choose_name(typed: &Vec<char>, prefix: &str, size: usize) -> (r: String)
    ensures
        r@ == chosen_name(typed@, prefix@, size),
{
    let t = trim_chars(typed);
    if t.len() == 0 {
        let mut name = String::from_str(prefix);
        let digits = decimal_string(size as u64);
        name.append(digits.as_str());
        name
    } else {
        string_from_chars(&t)
    }
}

/// Whether `c` is an ASCII letter or digit, as `char::is_ascii_alphanumeric` tells.
pub open spec fn is_ascii_alphanumeric(c: char) -> bool {
    ('a' <= c && c <= 'z') || ('A' <= c && c <= 'Z') || ('0' <= c && c <= '9')
}

/// Whether every character of `s` is ASCII.
pub open spec fn all_ascii(s: Seq<char>) -> bool {
    forall|k: int| 0 <= k < s.len() ==> (#[trigger] s[k] as u32) < 0x80
}

/// The dialog that takes an array typed in: the step (0 the size, 1 the name, 2 the
/// values), the size and name accepted so far, the values entered, the field being
/// typed and its cursor.
pub struct ManualArrayDialog {
    mode: u8,
    array_size: usize,
    name: Vec<char>,
    values: Vec<u32>,
    current_index: usize,
    input: Vec<char>,
    cursor: usize,
}

/// The manual-array dialog as a value.
pub struct ManualDialogView {
    pub mode: int,
    pub array_size: usize,
    pub name: Seq<char>,
    pub values: Seq<u32>,
    pub current_index: int,
    pub input: Seq<char>,
    pub cursor: int,
}

impl View for ManualArrayDialog {
    type V = ManualDialogView;

    closed spec fn view(&self) -> ManualDialogView {
        ManualDialogView {
            mode: self.mode as int,
            array_size: self.array_size,
            name: self.name@,
            values: self.values@,
            current_index: self.current_index as int,
            input: self.input@,
            cursor: self.cursor as int,
        }
    }
}

/// What a key press on the manual-array dialog gives, as a value.
pub enum ManualResult {
    Editing,
    Cancelled,
    /// The last value was entered: the values and the name of the new array.
    Created(Seq<u32>, Seq<char>),
}

/// What a key press on the manual-array dialog gives.
pub enum ManualOutcome {
    /// Keep editing.
    Editing,
    /// The dialog was cancelled.
    Cancelled,
    /// The array typed in.
    Created(ArrayData),
}

/// Whether the step is known, the cursor lies in the field, the field is ASCII, and the
/// values entered are counted.
pub open spec fn manual_wf(v: ManualDialogView) -> bool {
    &&& 0 <= v.mode <= 2
    &&& 0 <= v.cursor <= v.input.len()
    &&& all_ascii(v.input)
    &&& v.mode == 2 ==> v.values.len() == v.current_index
    &&& v.mode >= 1 ==> MIN_ARRAY_SIZE <= v.array_size <= MAX_ARRAY_SIZE
}

/// Whether the field of step `mode` takes `c`, holding `len` characters.
pub open spec fn manual_accepts(mode: int, c: char, len: nat) -> bool {
    if mode == 0 {
        is_digit(c) && len < 2
    } else if mode == 1 {
        (is_ascii_alphanumeric(c) || c == ' ' || c == '_') && len < NAME_LIMIT
    } else {
        is_digit(c) && len < 10
    }
}

/// The dialog once the size `n` was accepted: on to the name.
pub open spec fn after_size(v: ManualDialogView, n: usize) -> ManualDialogView {
    ManualDialogView { array_size: n, input: Seq::empty(), mode: 1, cursor: 0, ..v }
}

/// The dialog once the name was given: on to the values.
pub open spec fn after_name(v: ManualDialogView) -> ManualDialogView {
    ManualDialogView {
        name: chosen_name(v.input, "Manual_Array_"@, v.array_size),
        values: Seq::empty(),
        current_index: 0,
        input: Seq::empty(),
        mode: 2,
        cursor: 0,
        ..v
    }
}

/// The dialog after `key`, and what the press gives.
pub open spec fn manual_key(v: ManualDialogView, key: TextKey) -> (ManualDialogView, ManualResult) {
    match key {
        TextKey::Tab => if v.mode == 0 {
            match accepted_size(v.input) {
                Some(n) => (after_size(v, n), ManualResult::Editing),
                None => (ManualDialogView { cursor: v.input.len() as int, ..v }, ManualResult::Editing),
            }
        } else if v.mode == 1 {
            (after_name(v), ManualResult::Editing)
        } else {
            (ManualDialogView { cursor: v.input.len() as int, ..v }, ManualResult::Editing)
        },
        TextKey::Char(c) => if manual_accepts(v.mode, c, v.input.len()) {
            (ManualDialogView { input: v.input.insert(v.cursor, c), cursor: v.cursor + 1, ..v }, ManualResult::Editing)
        } else {
            (v, ManualResult::Editing)
        },
        TextKey::Backspace => if v.cursor > 0 {
            (ManualDialogView { input: v.input.remove(v.cursor - 1), cursor: v.cursor - 1, ..v }, ManualResult::Editing)
        } else {
            (v, ManualResult::Editing)
        },
        TextKey::Enter => if v.mode == 0 {
            match accepted_size(v.input) {
                Some(n) => (after_size(v, n), ManualResult::Editing),
                None => (v, ManualResult::Editing),
            }
        } else if v.mode == 1 {
            (after_name(v), ManualResult::Editing)
        } else {
            let cleared = ManualDialogView { input: Seq::empty(), cursor: 0, ..v };
            match parse_unsigned(trimmed(v.input), u32::MAX as int) {
                Some(x) => {
                    let next = ManualDialogView {
                        values: v.values.push(x as u32),
                        current_index: v.current_index + 1,
                        ..cleared
                    };
                    if v.current_index + 1 == v.array_size {
                        (next, ManualResult::Created(next.values, v.name))
                    } else {
                        (next, ManualResult::Editing)
                    }
                },
                None => (cleared, ManualResult::Editing),
            }
        },
        TextKey::Escape => (v, ManualResult::Cancelled),
        _ => (v, ManualResult::Editing),
    }
}

/// Whether `r` is the outcome `expected`, the array made from the values and the name.
pub open spec fn manual_outcome_is(r: ManualOutcome, expected: ManualResult) -> bool {
    match expected {
        ManualResult::Editing => r is Editing,
        ManualResult::Cancelled => r is Cancelled,
        ManualResult::Created(values, name) => match r {
            ManualOutcome::Created(a) => {
                &&& a.data@ == values
                &&& a.name@ == name
                &&& a.size == values.len()
                &&& a.min_value == seq_min(values)
                &&& a.max_value == seq_max(values)
            },
            _ => false,
        },
    }
}

/// Whether `c` is an ASCII letter or digit.
fn char_is_alphanumeric(c: char) -> (r: bool)
    ensures
        r == is_ascii_alphanumeric(c),
{
    ('a' <= c && c <= 'z') || ('A' <= c && c <= 'Z') || ('0' <= c && c <= '9')
}

impl ManualArrayDialog {
    /// The dialog's invariant.
    pub open spec fn wf(&self) -> bool {
        manual_wf(self@)
    }

    /// The dialog at its first step, with nothing typed.
    pub fn new() -> (r: Self)
        ensures
            r@.mode == 0,
            r@.array_size == 0,
            r@.name.len() == 0,
            r@.values.len() == 0,
            r@.current_index == 0,
            r@.input.len() == 0,
            r@.cursor == 0,
            r.wf(),
    {
        ManualArrayDialog {
            mode: 0,
            array_size: 0,
            name: Vec::new(),
            values: Vec::new(),
            current_index: 0,
            input: Vec::new(),
            cursor: 0,
        }
    }

    /// Moves on from the size step with the size `n`.
    fn accept_size(&mut self, n: usize)
        requires
            old(self).wf(),
            old(self)@.mode == 0,
            MIN_ARRAY_SIZE <= n <= MAX_ARRAY_SIZE,
        ensures
            final(self).wf(),
            final(self)@ == after_size(old(self)@, n),
    {
        self.array_size = n;
        self.input = Vec::new();
        self.mode = 1;
        self.cursor = 0;
    }

    /// Moves on from the name step.
    fn accept_name(&mut self)
        requires
            old(self).wf(),
            old(self)@.mode == 1,
        ensures
            final(self).wf(),
            final(self)@ == after_name(old(self)@),
    {
        self.name = name_chars(&self.input, "Manual_Array_", self.array_size);
        self.values = Vec::new();
        self.current_index = 0;
        self.input = Vec::new();
        self.mode = 2;
        self.cursor = 0;
    }

    /// Handles one key press: edits the field, moves to the next step, takes a value,
    /// and gives the array once the last value is entered.
    pub fn handle_key(&mut self, key: TextKey) -> (r: ManualOutcome)
        requires
            old(self).wf(),
        ensures
            final(self).wf(),
            final(self)@ == manual_key(old(self)@, key).0,
            manual_outcome_is(r, manual_key(old(self)@, key).1),
    {
        match key {
            TextKey::Tab => {
                if self.mode == 0 {
                    match self.accepted_size() {
                        Some(n) => self.accept_size(n),
                        None => {
                            self.cursor = self.input.len();
                        },
                    }
                } else if self.mode == 1 {
                    self.accept_name();
                } else {
                    self.cursor = self.input.len();
                }
                ManualOutcome::Editing
            },
            TextKey::Char(c) => {
                let len = self.input.len();
                let accepts = if self.mode == 0 {
                    char_is_digit(c) && len < 2
                } else if self.mode == 1 {
                    (char_is_alphanumeric(c) || c == ' ' || c == '_') && len < NAME_LIMIT
                } else {
                    char_is_digit(c) && len < 10
                };
                if accepts {
                    self.input.insert(self.cursor, c);
                    self.cursor = self.cursor + 1;
                    proof {
                        assert forall|k: int| 0 <= k < self@.input.len() implies (
                        #[trigger] self@.input[k] as u32) < 0x80 by {
                            if k < old(self)@.cursor {
                                assert(self@.input[k] == old(self)@.input[k]);
                            } else if k > old(self)@.cursor {
                                assert(self@.input[k] == old(self)@.input[k - 1]);
                            }
                        }
                    }
                }
                ManualOutcome::Editing
            },
            TextKey::Backspace => {
                if self.cursor > 0 {
                    self.cursor = self.cursor - 1;
                    self.input.remove(self.cursor);
                    proof {
                        assert forall|k: int| 0 <= k < self@.input.len() implies (
                        #[trigger] self@.input[k] as u32) < 0x80 by {
                            if k < self@.cursor {
                                assert(self@.input[k] == old(self)@.input[k]);
                            } else {
                                assert(self@.input[k] == old(self)@.input[k + 1]);
                            }
                        }
                    }
                }
                ManualOutcome::Editing
            },
            TextKey::Enter => {
                if self.mode == 0 {
                    match self.accepted_size() {
                        Some(n) => self.accept_size(n),
                        None => {},
                    }
                    ManualOutcome::Editing
                } else if self.mode == 1 {
                    self.accept_name();
                    ManualOutcome::Editing
                } else {
                    let typed = trim_chars(&self.input);
                    self.input = Vec::new();
                    self.cursor = 0;
                    match parse_number(&typed, u32::MAX as u64) {
                        Some(x) => {
                            self.values.push(x as u32);
                            let count = self.values.len();
                            assert(count == self.current_index + 1);
                            self.current_index = count;
                            if self.current_index == self.array_size {
                                let values = self.values.clone();
                                assert(values@ =~= self.values@);
                                let name = string_from_chars(&self.name);
                                ManualOutcome::Created(ArrayData::new(values, name))
                            } else {
                                ManualOutcome::Editing
                            }
                        },
                        None => ManualOutcome::Editing,
                    }
                }
            },
            TextKey::Escape => ManualOutcome::Cancelled,
            _ => ManualOutcome::Editing,
        }
    }

    /// The size typed, where it is a number from 2 to 50.
    fn accepted_size(&self) -> (r: Option<usize>)
        ensures
            r == accepted_size(self@.input),
    {
        let t = trim_chars(&self.input);
        match parse_number(&t, usize::MAX as u64) {
            Some(n) => {
                if 2 <= n && n <= 50 {
                    Some(n as usize)
                } else {
                    None
                }
            },
            None => None,
        }
    }

    /// The step: 0 the size, 1 the name, 2 the values.
    pub fn mode(&self) -> (r: u8)
        ensures
            r == self@.mode,
    {
        self.mode
    }

    /// The size accepted.
    pub fn array_size(&self) -> (r: usize)
        ensures
            r == self@.array_size,
    {
        self.array_size
    }

    /// The name accepted.
    pub fn name(&self) -> (r: &Vec<char>)
        ensures
            r@ == self@.name,
    {
        &self.name
    }

    /// The number of values entered.
    pub fn current_index(&self) -> (r: usize)
        ensures
            r == self@.current_index,
    {
        self.current_index
    }

    /// The field being typed.
    pub fn input(&self) -> (r: &Vec<char>)
        ensures
            r@ == self@.input,
    {
        &self.input
    }

    /// The cursor in the field.
    pub fn cursor(&self) -> (r: usize)
        ensures
            r == self@.cursor,
    {
        self.cursor
    }
}

/// The characters of the name of a new array from the name typed, or `prefix` and the
/// size.
fn name_chars(typed: &Vec<char>, prefix: &str, size: usize) -> (r: Vec<char>)
    ensures
        r@ == chosen_name(typed@, prefix@, size),
{
    let t = trim_chars(typed);
    if t.len() == 0 {
        let mut name = crate::text::chars_of(prefix);
        let digits = crate::text::decimal_chars(size as u64);
        let mut k: usize = 0;
        let ghost start = name@;
        while k < digits.len()
            invariant
                k <= digits@.len(),
                name@ == start + digits@.take(k as int),
            decreases digits@.len() - k,
        {
            name.push(digits[k]);
            k = k + 1;
            assert(name@ =~= start + digits@.take(k as int));
        }
        assert(digits@.take(digits@.len() as int) =~= digits@);
        name
    } else {
        t
    }
}

} // verus!
