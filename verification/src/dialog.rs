use vstd::prelude::*;
use vstd::string::StringExecFns;
use crate::colors::TermColor;
use crate::text::{
    decimal_string, same_text,
    chars_of, decimal_chars, decimal_text, lines_of, string_from_chars, string_views, text_lines,
    utf8_len, capped_utf8_len, min_nat,
};

verus! {

/// The kind of a dialog, which picks its colors, icon and heading.
#[derive(Clone, Copy, PartialEq, Eq, Debug, Structural)]
pub enum DialogType {
    Info,
    Warning,
    Error,
    Success,
    Question,
}

impl DialogType {
    /// The heading of each kind of dialog.
    pub open spec fn title_text(self) -> Seq<char> {
        match self {
            DialogType::Info => "INFORMATION"@,
            DialogType::Warning => "WARNING"@,
            DialogType::Error => "ERROR"@,
            DialogType::Success => "SUCCESS"@,
            DialogType::Question => "QUESTION"@,
        }
    }

    /// The primary and secondary colors of each kind of dialog.
    pub open spec fn colors(self) -> (TermColor, TermColor) {
        match self {
            DialogType::Info => (TermColor::Blue, TermColor::Cyan),
            DialogType::Warning => (TermColor::Yellow, TermColor::DarkYellow),
            DialogType::Error => (TermColor::Red, TermColor::DarkRed),
            DialogType::Success => (TermColor::Green, TermColor::DarkGreen),
            DialogType::Question => (TermColor::Magenta, TermColor::DarkMagenta),
        }
    }

    /// The icon of each kind of dialog.
    pub open spec fn icon_text(self) -> Seq<char> {
        match self {
            DialogType::Info => "ℹ"@,
            DialogType::Warning => "⚠"@,
            DialogType::Error => "✖"@,
            DialogType::Success => "✓"@,
            DialogType::Question => "?"@,
        }
    }

    /// The colors and the icon of this kind of dialog.
    pub fn get_colors(&self) -> (r: (TermColor, TermColor, &'static str))
        ensures
            (r.0, r.1) == self.colors(),
            r.2@ == self.icon_text(),
    {
        match self {
            DialogType::Info => (TermColor::Blue, TermColor::Cyan, "ℹ"),
            DialogType::Warning => (TermColor::Yellow, TermColor::DarkYellow, "⚠"),
            DialogType::Error => (TermColor::Red, TermColor::DarkRed, "✖"),
            DialogType::Success => (TermColor::Green, TermColor::DarkGreen, "✓"),
            DialogType::Question => (TermColor::Magenta, TermColor::DarkMagenta, "?"),
        }
    }

    /// The heading of this kind of dialog.
    pub fn get_title(&self) -> (r: &'static str)
        ensures
            r@ == self.title_text(),
    {
        match self {
            DialogType::Info => "INFORMATION",
            DialogType::Warning => "WARNING",
            DialogType::Error => "ERROR",
            DialogType::Success => "SUCCESS",
            DialogType::Question => "QUESTION",
        }
    }
}

/// A key press, as a dialog interprets it.
#[derive(Clone, Copy, PartialEq, Eq, Debug, Structural)]
pub enum DialogKey {
    Left,
    Right,
    Tab,
    Enter,
    Escape,
    /// `y` or `Y`.
    Yes,
    /// `n` or `N`: the second button, where there is one and a label mentions "no".
    No,
    Other,
}

/// A dialog box: its kind, title, message lines, buttons, the highlighted button and
/// its size on screen.
pub struct Dialog {
    dialog_type: DialogType,
    title: String,
    message: Vec<String>,
    buttons: Vec<String>,
    selected_button: usize,
    width: u16,
    height: u16,
}

/// A dialog as a value.
pub struct DialogView {
    pub dialog_type: DialogType,
    pub title: Seq<char>,
    pub message: Seq<Seq<char>>,
    pub buttons: Seq<Seq<char>>,
    pub selected_button: usize,
    pub width: u16,
    pub height: u16,
}

impl View for Dialog {
    type V = DialogView;

    closed spec fn view(&self) -> DialogView {
        DialogView {
            dialog_type: self.dialog_type,
            title: self.title@,
            message: string_views(self.message@),
            buttons: string_views(self.buttons@),
            selected_button: self.selected_button,
            width: self.width,
            height: self.height,
        }
    }
}

/// The views of the string slices `v`.
pub open spec fn str_views(v: Seq<&str>) -> Seq<Seq<char>> {
    Seq::new(v.len(), |i: int| v[i]@)
}

/// The largest UTF-8 length among `lines`, 0 for none.
pub open spec fn max_line_len(lines: Seq<Seq<char>>) -> nat
    decreases lines.len(),
{
    if lines.len() == 0 {
        0
    } else {
        let m = max_line_len(lines.drop_last());
        let l = utf8_len(lines.last());
        if l > m {
            l
        } else {
            m
        }
    }
}

/// The width of a dialog: 8 more than its longest line or title, at most 60.
pub open spec fn dialog_width(lines: Seq<Seq<char>>, title: Seq<char>) -> u16 {
    let t = utf8_len(title);
    let m = max_line_len(lines);
    let w = if t > m { t } else { m };
    if w + 8 <= 60 {
        (w + 8) as u16
    } else {
        60
    }
}

/// The height of a dialog: 9 more than its lines, kept to 16 bits.
pub open spec fn dialog_height(lines: Seq<Seq<char>>) -> u16 {
    ((lines.len() + 9) % 65536) as u16
}

/// The dialog that `Dialog::new` makes: the message cut into lines and one `OK` button.
pub open spec fn new_dialog(t: DialogType, title: Seq<char>, message: Seq<char>) -> DialogView {
    let lines = text_lines(message);
    DialogView {
        dialog_type: t,
        title,
        message: lines,
        buttons: seq!["OK"@],
        selected_button: 0,
        width: dialog_width(lines, title),
        height: dialog_height(lines),
    }
}

/// `d` with the buttons `buttons`, the first one highlighted.
pub open spec fn with_buttons_view(d: DialogView, buttons: Seq<Seq<char>>) -> DialogView {
    DialogView { buttons, selected_button: 0, ..d }
}

/// The code of the lowercase of an ASCII capital letter; other characters keep theirs.
pub open spec fn ascii_lower(c: char) -> u32 {
    if 'A' <= c && c <= 'Z' {
        ((c as u32) + 32) as u32
    } else {
        c as u32
    }
}

/// Whether `w` occurs in `b` letter by letter up to ASCII case.
///
/// For a word of lowercase ASCII letters other than `i` and `k` this is whether the
/// lowercase form of `b` contains it: no character but the ASCII capitals lowercases to
/// such a letter.
pub open spec fn mentions(b: Seq<char>, w: Seq<char>) -> bool {
    exists|i: int| 0 <= i && #[trigger] matches_at(b, w, i)
}

/// Whether `w` stands in `b` from position `i` on, up to ASCII case.
pub open spec fn matches_at(b: Seq<char>, w: Seq<char>, i: int) -> bool {
    &&& i + w.len() <= b.len()
    &&& forall|j: int| 0 <= j < w.len() ==> ascii_lower(#[trigger] b[i + j]) == w[j] as u32
}

/// Whether one of the buttons mentions `w`.
pub open spec fn any_mentions(buttons: Seq<Seq<char>>, w: Seq<char>) -> bool {
    exists|k: int| 0 <= k < buttons.len() && mentions(#[trigger] buttons[k], w)
}

/// Whether the highlighted button is one of the buttons, or the first place where
/// there are none.
pub open spec fn dialog_wf(d: DialogView) -> bool {
    if d.buttons.len() == 0 {
        d.selected_button == 0
    } else {
        d.selected_button < d.buttons.len()
    }
}

/// The dialog after `key`, and the chosen button where `key` closes it.
pub open spec fn dialog_key(d: DialogView, key: DialogKey) -> (DialogView, Option<usize>) {
    let n = d.buttons.len();
    match key {
        DialogKey::Left => (
            DialogView {
                selected_button: if d.selected_button > 0 {
                    (d.selected_button - 1) as usize
                } else {
                    (n - 1) as usize
                },
                ..d
            },
            None,
        ),
        DialogKey::Right | DialogKey::Tab => (
            DialogView { selected_button: ((d.selected_button + 1) % (n as int)) as usize, ..d },
            None,
        ),
        DialogKey::Enter => (d, Some(d.selected_button)),
        DialogKey::Escape => (d, Some(if n > 0 { (n - 1) as usize } else { 0 })),
        DialogKey::Yes => (d, if any_mentions(d.buttons, "yes"@) { Some(0) } else { None }),
        DialogKey::No => (d, if n >= 2 && any_mentions(d.buttons, "no"@) { Some(1) } else { None }),
        DialogKey::Other => (d, None),
    }
}

/// Whether `w` occurs in `b` up to ASCII case.
fn mentions_word(b: &String, w: &str) -> (r: bool)
    ensures
        r == mentions(b@, w@),
{
    let bc = chars_of(b.as_str());
    let wc = chars_of(w);
    let n = bc.len();
    let m = wc.len();
    if m > n {
        proof {
            assert forall|p: int| 0 <= p implies !#[trigger] matches_at(b@, w@, p) by {}
        }
        return false;
    }
    let mut i: usize = 0;
    while i <= n - m
        invariant
            bc@ == b@,
            wc@ == w@,
            n == b@.len(),
            m == w@.len(),
            m <= n,
            i <= n - m + 1,
            forall|p: int| 0 <= p < i ==> !#[trigger] matches_at(b@, w@, p),
        decreases n - m + 1 - i,
    {
        let mut j: usize = 0;
        let mut same = true;
        while j < m
            invariant
                bc@ == b@,
                wc@ == w@,
                n == b@.len(),
                m == w@.len(),
                i + m <= n,
                j <= m,
                same == forall|q: int| 0 <= q < j ==> ascii_lower(#[trigger] b@[i + q]) == w@[q] as u32,
            decreases m - j,
        {
            let c = bc[i + j];
            let d = wc[j];
            let matched = if 'A' <= c && c <= 'Z' {
                (c as u32) + 32 == (d as u32)
            } else {
                (c as u32) == (d as u32)
            };
            proof {
                assert(matched == (ascii_lower(b@[i + j]) == w@[j as int] as u32));
            }
            if !matched {
                same = false;
            }
            j = j + 1;
        }
        if same {
            proof {
                assert(matches_at(b@, w@, i as int));
            }
            return true;
        }
        i = i + 1;
    }
    proof {
        assert forall|p: int| 0 <= p implies !#[trigger] matches_at(b@, w@, p) by {
            if p < i {
            }
        }
    }
    false
}

impl Dialog {
    /// Whether the highlighted button is in range.
    pub open spec fn wf(&self) -> bool {
        dialog_wf(self@)
    }

    /// A dialog of kind `dialog_type` with `title`, the lines of `message` and one `OK`
    /// button.
    pub fn new(dialog_type: DialogType, title: &str, message: &str) -> (r: Self)
        ensures
            r@ == new_dialog(dialog_type, title@, message@),
            r.wf(),
    {
        let message_lines = lines_of(message);
        let title_string = String::from_str(title);
        let mut longest = capped_utf8_len(&title_string, 60);
        let mut k: usize = 0;
        while k < message_lines.len()
            invariant
                k <= message_lines@.len(),
                title_string@ == title@,
                longest == min_nat(
                    if utf8_len(title@) > max_line_len(string_views(message_lines@).take(k as int)) {
                        utf8_len(title@)
                    } else {
                        max_line_len(string_views(message_lines@).take(k as int))
                    },
                    60,
                ),
            decreases message_lines@.len() - k,
        {
            let l = capped_utf8_len(&message_lines[k], 60);
            proof {
                let views = string_views(message_lines@);
                assert(views.take(k + 1).drop_last() =~= views.take(k as int));
                assert(views.take(k + 1).last() == message_lines@[k as int]@);
            }
            if l > longest {
                longest = l;
            }
            k = k + 1;
        }
        proof {
            assert(string_views(message_lines@).take(message_lines@.len() as int)
                =~= string_views(message_lines@));
        }
        let width: u16 = if longest + 8 <= 60 {
            (longest + 8) as u16
        } else {
            60
        };
        let count = message_lines.len();
        let height: u16 = (((count % 65536) + 9) % 65536) as u16;
        proof {
            assert(((count % 65536) + 9) % 65536 == (count + 9) % 65536) by (nonlinear_arith);
        }
        let mut buttons: Vec<String> = Vec::new();
        buttons.push(String::from_str("OK"));
        proof {
            assert(string_views(buttons@) =~= seq!["OK"@]);
        }
        Dialog {
            dialog_type,
            title: title_string,
            message: message_lines,
            buttons,
            selected_button: 0,
            width,
            height,
        }
    }

    /// The dialog with the buttons `buttons`, the first one highlighted.
    pub fn with_buttons(self, buttons: Vec<&str>) -> (r: Self)
        ensures
            r@ == with_buttons_view(self@, str_views(buttons@)),
            r.wf(),
    {
        let mut strings: Vec<String> = Vec::new();
        let mut k: usize = 0;
        while k < buttons.len()
            invariant
                k <= buttons@.len(),
                string_views(strings@) == str_views(buttons@).take(k as int),
            decreases buttons@.len() - k,
        {
            let ghost before = strings@;
            strings.push(String::from_str(buttons[k]));
            proof {
                crate::text::lemma_string_views_push(before, strings@.last());
            }
            k = k + 1;
            assert(string_views(strings@) =~= str_views(buttons@).take(k as int));
        }
        assert(str_views(buttons@).take(buttons@.len() as int) =~= str_views(buttons@));
        Dialog { buttons: strings, selected_button: 0, ..self }
    }

    /// Handles one key press: moves the highlight, or gives the chosen button where the
    /// key closes the dialog.
    pub fn handle_key(&mut self, key: DialogKey) -> (r: Option<usize>)
        requires
            old(self).wf(),
            key == DialogKey::Left || key == DialogKey::Right || key == DialogKey::Tab
                ==> old(self)@.buttons.len() > 0,
        ensures
            final(self).wf(),
            (final(self)@, r) == dialog_key(old(self)@, key),
            old(self)@.buttons.len() > 0 ==> (r matches Some(c) ==> c < old(self)@.buttons.len()),
    {
        let n = self.buttons.len();
        match key {
            DialogKey::Left => {
                if self.selected_button > 0 {
                    self.selected_button = self.selected_button - 1;
                } else {
                    self.selected_button = n - 1;
                }
                None
            },
            DialogKey::Right | DialogKey::Tab => {
                self.selected_button = (self.selected_button + 1) % n;
                None
            },
            DialogKey::Enter => Some(self.selected_button),
            DialogKey::Escape => Some(n.saturating_sub(1)),
            DialogKey::Yes => {
                if self.any_button_mentions("yes") {
                    Some(0)
                } else {
                    None
                }
            },
            DialogKey::No => {
                if n >= 2 && self.any_button_mentions("no") {
                    Some(1)
                } else {
                    None
                }
            },
            DialogKey::Other => None,
        }
    }

    /// Whether one of the buttons mentions `w` up to ASCII case.
    fn any_button_mentions(&self, w: &str) -> (r: bool)
        ensures
            r == any_mentions(self@.buttons, w@),
    {
        let mut k: usize = 0;
        while k < self.buttons.len()
            invariant
                k <= self.buttons@.len(),
                forall|q: int| 0 <= q < k ==> !mentions(#[trigger] self@.buttons[q], w@),
            decreases self.buttons@.len() - k,
        {
            if mentions_word(&self.buttons[k], w) {
                assert(mentions(self@.buttons[k as int], w@));
                return true;
            }
            k = k + 1;
        }
        false
    }

    /// Whether the dialog shows its own title under the heading: one that is not empty and
    /// differs from the name of its kind.
    pub fn shows_custom_title(&self) -> (r: bool)
        ensures
            r == (self@.title.len() > 0 && self@.title != self@.dialog_type.title_text()),
    {
        let kind = self.dialog_type.get_title();
        let title = self.title.as_str();
        title.unicode_len() > 0 && !same_text(title, kind)
    }

    /// The kind of dialog.
    pub fn dialog_type(&self) -> (r: DialogType)
        ensures
            r == self@.dialog_type,
    {
        self.dialog_type
    }

    /// The title.
    pub fn title(&self) -> (r: &String)
        ensures
            r@ == self@.title,
    {
        &self.title
    }

    /// The lines of the message.
    pub fn message(&self) -> (r: &Vec<String>)
        ensures
            string_views(r@) == self@.message,
    {
        &self.message
    }

    /// The button labels.
    pub fn buttons(&self) -> (r: &Vec<String>)
        ensures
            string_views(r@) == self@.buttons,
    {
        &self.buttons
    }

    /// The highlighted button.
    pub fn selected_button(&self) -> (r: usize)
        ensures
            r == self@.selected_button,
    {
        self.selected_button
    }

    /// The width in columns.
    pub fn width(&self) -> (r: u16)
        ensures
            r == self@.width,
    {
        self.width
    }

    /// The height in rows.
    pub fn height(&self) -> (r: u16)
        ensures
            r == self@.height,
    {
        self.height
    }
}

} // verus!

verus! {

/// The dialog of kind `t` with `title` and `message` and the given buttons.
pub open spec fn question_dialog(title: Seq<char>, message: Seq<char>, buttons: Seq<Seq<char>>) -> DialogView {
    with_buttons_view(new_dialog(DialogType::Question, title, message), buttons)
}

/// An information dialog.
pub fn show_info(title: &str, message: &str) -> (d: Dialog)
    ensures
        d@ == new_dialog(DialogType::Info, title@, message@),
        d.wf(),
{
    Dialog::new(DialogType::Info, title, message)
}

/// A warning dialog.
pub fn show_warning(title: &str, message: &str) -> (d: Dialog)
    ensures
        d@ == new_dialog(DialogType::Warning, title@, message@),
        d.wf(),
{
    Dialog::new(DialogType::Warning, title, message)
}

/// An error dialog.
pub fn show_error(title: &str, message: &str) -> (d: Dialog)
    ensures
        d@ == new_dialog(DialogType::Error, title@, message@),
        d.wf(),
{
    Dialog::new(DialogType::Error, title, message)
}

/// A success dialog.
pub fn show_success(title: &str, message: &str) -> (d: Dialog)
    ensures
        d@ == new_dialog(DialogType::Success, title@, message@),
        d.wf(),
{
    Dialog::new(DialogType::Success, title, message)
}

/// A question dialog with the given buttons; showing it gives the chosen button.
pub fn show_question(title: &str, message: &str, buttons: Vec<&str>) -> (d: Dialog)
    ensures
        d@ == question_dialog(title@, message@, str_views(buttons@)),
        d.wf(),
{
    Dialog::new(DialogType::Question, title, message).with_buttons(buttons)
}

/// The warning shown when a visualizer is chosen before an array is selected.
pub fn show_no_array_selected() -> (d: Dialog)
    ensures
        d@ == new_dialog(
            DialogType::Warning,
            "No Array Selected"@,
            "Please select an array first from the Array Manager.\n\nGo to 'Generate/Select Array' option to create\nor select an array for sorting."@,
        ),
        d.wf(),
{
    show_warning(
        "No Array Selected",
        "Please select an array first from the Array Manager.\n\nGo to 'Generate/Select Array' option to create\nor select an array for sorting.",
    )
}

/// The two buttons of a yes-or-no question.
fn yes_no() -> (v: Vec<&'static str>)
    ensures
        str_views(v@) == seq!["Yes"@, "No"@],
{
    let mut v: Vec<&'static str> = Vec::new();
    v.push("Yes");
    v.push("No");
    assert(str_views(v@) =~= seq!["Yes"@, "No"@]);
    v
}

/// The answer given by the button chosen in a question whose first button confirms, such
/// as those of `confirm_exit`, `confirm_reset_array` and `show_algorithm_info`: yes exactly
/// when that first button was chosen.
pub fn confirmed(choice: usize) -> (r: bool)
    ensures
        r == (choice == 0),
{
    choice == 0
}

/// The question whether to leave the application; the first button, `Yes`, confirms.
pub fn confirm_exit() -> (d: Dialog)
    ensures
        d@ == question_dialog(
            "Confirm Exit"@,
            "Are you sure you want to exit the application?"@,
            seq!["Yes"@, "No"@],
        ),
        d.wf(),
{
    show_question("Confirm Exit", "Are you sure you want to exit the application?", yes_no())
}

/// The question whether to reset the array; the first button, `Yes`, confirms.
pub fn confirm_reset_array() -> (d: Dialog)
    ensures
        d@ == question_dialog(
            "Confirm Reset"@,
            "This will reset the array to its original state.\nAll progress will be lost.\n\nContinue?"@,
            seq!["Yes"@, "No"@],
        ),
        d.wf(),
{
    show_question(
        "Confirm Reset",
        "This will reset the array to its original state.\nAll progress will be lost.\n\nContinue?",
        yes_no(),
    )
}

/// The report of a finished sort.
pub open spec fn completed_message(algorithm: Seq<char>, comparisons: u32, swaps: u32, time_ms: u64) -> Seq<char> {
    "Algorithm: "@ + algorithm + "\n\nStatistics:\n• Comparisons: "@ + decimal_text(comparisons as nat)
        + "\n• Swaps: "@ + decimal_text(swaps as nat) + "\n• Time: "@ + decimal_text(time_ms as nat)
        + "ms\n\nThe array has been successfully sorted!"@
}

/// The success dialog after a sort, with its statistics.
pub fn show_sorting_completed(algorithm: &str, comparisons: u32, swaps: u32, time_ms: u64) -> (d: Dialog)
    ensures
        d@ == new_dialog(
            DialogType::Success,
            "Sorting Completed"@,
            completed_message(algorithm@, comparisons, swaps, time_ms),
        ),
        d.wf(),
{
    let mut message = String::from_str("Algorithm: ");
    message.append(algorithm);
    message.append("\n\nStatistics:\n• Comparisons: ");
    let c = decimal_string(comparisons as u64);
    message.append(c.as_str());
    message.append("\n• Swaps: ");
    let s = decimal_string(swaps as u64);
    message.append(s.as_str());
    message.append("\n• Time: ");
    let t = decimal_string(time_ms);
    message.append(t.as_str());
    message.append("ms\n\nThe array has been successfully sorted!");
    show_success("Sorting Completed", message.as_str())
}

/// The description of an array.
pub open spec fn array_info_message(array_name: Seq<char>, size: usize, min_val: u32, max_val: u32) -> Seq<char> {
    "Array: "@ + array_name + "\n\nDetails:\n• Size: "@ + decimal_text(size as nat) + " elements\n• Range: "@
        + decimal_text(min_val as nat) + " - "@ + decimal_text(max_val as nat) + "\n• Ready for sorting"@
}

/// The information dialog about an array.
pub fn show_array_info(array_name: &str, size: usize, min_val: u32, max_val: u32) -> (d: Dialog)
    ensures
        d@ == new_dialog(
            DialogType::Info,
            "Array Information"@,
            array_info_message(array_name@, size, min_val, max_val),
        ),
        d.wf(),
{
    let mut message = String::from_str("Array: ");
    message.append(array_name);
    message.append("\n\nDetails:\n• Size: ");
    let n = decimal_string(size as u64);
    message.append(n.as_str());
    message.append(" elements\n• Range: ");
    let lo = decimal_string(min_val as u64);
    message.append(lo.as_str());
    message.append(" - ");
    let hi = decimal_string(max_val as u64);
    message.append(hi.as_str());
    message.append("\n• Ready for sorting");
    show_info("Array Information", message.as_str())
}

/// The description and the complexity shown for an algorithm.
pub open spec fn algorithm_notes(algorithm: Seq<char>) -> (Seq<char>, Seq<char>) {
    if algorithm == "Bubble Sort"@ {
        (
            "Bubble Sort repeatedly compares adjacent elements\nand swaps them if they are in wrong order.\n\nPros: Simple to understand and implement\nCons: Inefficient for large datasets"@,
            "Time: O(n²) | Space: O(1)"@,
        )
    } else if algorithm == "Quick Sort"@ {
        (
            "Quick Sort picks a pivot element and partitions\nthe array around it, then recursively sorts.\n\nPros: Generally fast, in-place sorting\nCons: Worst case O(n²) performance"@,
            "Time: O(n log n) avg | Space: O(log n)"@,
        )
    } else if algorithm == "Merge Sort"@ {
        (
            "Merge Sort divides array into halves, sorts them\nrecursively, then merges sorted halves.\n\nPros: Stable, consistent O(n log n)\nCons: Requires additional memory"@,
            "Time: O(n log n) | Space: O(n)"@,
        )
    } else {
        (
            "Information about this algorithm\nwill be displayed here."@,
            "Complexity information"@,
        )
    }
}

/// The question whether to run an algorithm, with its description; the first button,
/// `Start Sorting`, confirms.
pub fn show_algorithm_info(algorithm: &str) -> (d: Dialog)
    ensures
        d@ == question_dialog(
            algorithm@ + " Information"@,
            algorithm_notes(algorithm@).0 + "\n\nComplexity:\n"@ + algorithm_notes(algorithm@).1
                + "\n\nWould you like to proceed with this algorithm?"@,
            seq!["Start Sorting"@, "Go Back"@],
        ),
        d.wf(),
{
    let (description, complexity) = if same_text(algorithm, "Bubble Sort") {
        (
            "Bubble Sort repeatedly compares adjacent elements\nand swaps them if they are in wrong order.\n\nPros: Simple to understand and implement\nCons: Inefficient for large datasets",
            "Time: O(n²) | Space: O(1)",
        )
    } else if same_text(algorithm, "Quick Sort") {
        (
            "Quick Sort picks a pivot element and partitions\nthe array around it, then recursively sorts.\n\nPros: Generally fast, in-place sorting\nCons: Worst case O(n²) performance",
            "Time: O(n log n) avg | Space: O(log n)",
        )
    } else if same_text(algorithm, "Merge Sort") {
        (
            "Merge Sort divides array into halves, sorts them\nrecursively, then merges sorted halves.\n\nPros: Stable, consistent O(n log n)\nCons: Requires additional memory",
            "Time: O(n log n) | Space: O(n)",
        )
    } else {
        ("Information about this algorithm\nwill be displayed here.", "Complexity information")
    };
    let mut message = String::from_str(description);
    message.append("\n\nComplexity:\n");
    message.append(complexity);
    message.append("\n\nWould you like to proceed with this algorithm?");
    let mut title = String::from_str(algorithm);
    title.append(" Information");
    let mut buttons: Vec<&str> = Vec::new();
    buttons.push("Start Sorting");
    buttons.push("Go Back");
    assert(str_views(buttons@) =~= seq!["Start Sorting"@, "Go Back"@]);
    show_question(title.as_str(), message.as_str(), buttons)
}

/// The information dialog shown while something is prepared.
pub fn show_loading(message: &str) -> (d: Dialog)
    ensures
        d@ == new_dialog(DialogType::Info, "Please Wait"@, message@ + "..."@),
        d.wf(),
{
    let mut text = String::from_str(message);
    text.append("...");
    show_info("Please Wait", text.as_str())
}

/// A progress report for a long operation: its title, the step reached out of the
/// total, and the current message.
pub struct ProgressDialog {
    pub title: String,
    pub current_step: usize,
    pub total_steps: usize,
    pub current_message: String,
}

impl ProgressDialog {
    /// A report at step 0 of `total_steps` with no message.
    pub fn new(title: &str, total_steps: usize) -> (r: Self)
        ensures
            r.title@ == title@,
            r.current_step == 0,
            r.total_steps == total_steps,
            r.current_message@ == Seq::<char>::empty(),
    {
        ProgressDialog {
            title: String::from_str(title),
            current_step: 0,
            total_steps,
            current_message: String::new(),
        }
    }

    /// Records the step reached and the current message; the title and the total stay.
    pub fn update(&mut self, step: usize, message: &str)
        ensures
            final(self).title@ == old(self).title@,
            final(self).total_steps == old(self).total_steps,
            final(self).current_step == step,
            final(self).current_message@ == message@,
    {
        self.current_step = step;
        self.current_message = String::from_str(message);
    }
}

} // verus!
