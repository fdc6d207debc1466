use vstd::prelude::*;
use vstd::string::StringExecFns;
use crate::text::{TextKey, append_decimal, char_is_digit, decimal_text, is_digit, parse_number, parse_unsigned};

verus! {

/// The values written in decimal and joined with `", "`.
pub open spec fn comma_list(values: Seq<u32>) -> Seq<char>
    decreases values.len(),
{
    if values.len() == 0 {
        Seq::empty()
    } else if values.len() == 1 {
        decimal_text(values[0] as nat)
    } else {
        comma_list(values.drop_last()) + ", "@ + decimal_text(values.last() as nat)
    }
}

/// The prompt for a search target, listing the array's values; binary search says that
/// the array is sorted.
pub open spec fn target_prompt_text(values: Seq<u32>, sorted: bool) -> Seq<char> {
    "Enter the target value to search for (e.g., a number in the "@ + (if sorted {
        "sorted "@
    } else {
        Seq::empty()
    }) + "array: "@ + comma_list(values) + "): "@
}

/// The prompt for a search target.
pub fn target_prompt(values: &Vec<u32>, sorted: bool) -> (r: String)
    ensures
        r@ == target_prompt_text(values@, sorted),
{
    let mut r = String::from_str("Enter the target value to search for (e.g., a number in the ");
    if sorted {
        r.append("sorted ");
    }
    r.append("array: ");
    let ghost head = r@;
    let mut i: usize = 0;
    while i < values.len()
        invariant
            i <= values@.len(),
            r@ == head + comma_list(values@.take(i as int)),
        decreases values.len() - i,
    {
        let ghost before = r@;
        if i > 0 {
            r.append(", ");
        }
        append_decimal(&mut r, values[i] as u64);
        proof {
            let t = values@.take(i + 1);
            assert(t.drop_last() =~= values@.take(i as int));
            assert(t.last() == values@[i as int]);
            if i == 0 {
                assert(comma_list(values@.take(0)) =~= Seq::<char>::empty());
                assert(r@ =~= head + comma_list(t));
            } else {
                assert(r@ =~= head + comma_list(t));
            }
        }
        i = i + 1;
    }
    assert(values@.take(i as int) =~= values@);
    r.append("): ");
    assert(r@ =~= target_prompt_text(values@, sorted));
    r
}

/// The target taken when the prompt is left with ESC: the middle element, or 0 for an
/// empty array.
pub open spec fn default_target_spec(values: Seq<u32>) -> u32 {
    if values.len() > 0 {
        values[values.len() as int / 2]
    } else {
        0
    }
}

/// The target taken when the prompt is left with ESC.
pub fn default_target(values: &Vec<u32>) -> (r: u32)
    ensures
        r == default_target_spec(values@),
{
    if values.len() > 0 {
        values[values.len() / 2]
    } else {
        0
    }
}

/// The digits typed at the target prompt.
pub struct TargetInput {
    input: Vec<char>,
}

impl View for TargetInput {
    type V = Seq<char>;

    closed spec fn view(&self) -> Seq<char> {
        self.input@
    }
}

/// What a key press at the target prompt gives.
#[derive(Clone, Copy, PartialEq, Eq, Debug, Structural)]
pub enum TargetOutcome {
    /// Keep editing.
    Editing,
    /// ENTER on a number too large: the input was cleared.
    Invalid,
    /// ENTER on a valid number.
    Chosen(u32),
    /// ESC: the default target is to be taken.
    Cancelled,
}

/// The input after a key press, and what the press gives: digits are appended,
/// BACKSPACE takes the last one away, ENTER on a non-empty input gives the number where it
/// fits in `u32` and clears the input otherwise, ESC cancels.
pub open spec fn target_key(input: Seq<char>, key: TextKey) -> (Seq<char>, TargetOutcome) {
    match key {
        TextKey::Char(c) => if is_digit(c) {
            (input.push(c), TargetOutcome::Editing)
        } else {
            (input, TargetOutcome::Editing)
        },
        TextKey::Backspace => if input.len() > 0 {
            (input.drop_last(), TargetOutcome::Editing)
        } else {
            (input, TargetOutcome::Editing)
        },
        TextKey::Enter => if input.len() == 0 {
            (input, TargetOutcome::Editing)
        } else {
            match parse_unsigned(input, u32::MAX as int) {
                Some(v) => (input, TargetOutcome::Chosen(v as u32)),
                None => (Seq::empty(), TargetOutcome::Invalid),
            }
        },
        TextKey::Escape => (input, TargetOutcome::Cancelled),
        _ => (input, TargetOutcome::Editing),
    }
}

impl TargetInput {
    /// An empty input.
    pub fn new() -> (r: Self)
        ensures
            r@ == Seq::<char>::empty(),
    {
        TargetInput { input: Vec::new() }
    }

    /// Handles a key press.
    pub fn handle_key(&mut self, key: TextKey) -> (r: TargetOutcome)
        requires
            old(self)@.len() < usize::MAX,
        ensures
            (final(self)@, r) == target_key(old(self)@, key),
    {
        match key {
            TextKey::Char(c) => {
                if char_is_digit(c) {
                    self.input.push(c);
                }
                TargetOutcome::Editing
            },
            TextKey::Backspace => {
                if self.input.len() > 0 {
                    self.input.pop();
                }
                TargetOutcome::Editing
            },
            TextKey::Enter => {
                if self.input.len() == 0 {
                    TargetOutcome::Editing
                } else {
                    match parse_number(&self.input, u32::MAX as u64) {
                        Some(v) => TargetOutcome::Chosen(v as u32),
                        None => {
                            self.input = Vec::new();
                            TargetOutcome::Invalid
                        },
                    }
                }
            },
            TextKey::Escape => TargetOutcome::Cancelled,
            _ => TargetOutcome::Editing,
        }
    }

    /// The digits typed so far.
    pub fn input(&self) -> (r: &Vec<char>)
        ensures
            r@ == self@,
    {
        &self.input
    }
}

} // verus!
