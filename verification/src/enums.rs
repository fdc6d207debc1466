use vstd::prelude::*;
use vstd::string::StringExecFns;

verus! {

/// Represents the visual state of an element in a visualization.
/// Each state can be used to apply different colors or styles to elements
/// while an algorithm runs, making it easier to track its progress.
#[derive(Clone, Copy, PartialEq, Eq, Debug, Structural)]
pub enum SelectionState {
    /// Default state for elements that are not involved in any operation.
    Normal,
    /// Elements that have been sorted and are in their final position.
    Sorted,
    /// The current minimum or key element.
    CurrentMin,
    /// Elements that are currently being compared.
    Comparing,
    /// The element that is currently selected or highlighted.
    Selected,
    /// Elements that are being swapped or shifted.
    Swapping,
    /// Elements on the left side of a partition.
    PartitionLeft,
    /// Elements on the right side of a partition.
    PartitionRight,
}

/// A multiple-choice question shown in teaching mode.
#[derive(Clone)]
pub struct TeachingQuestion {
    pub text: String,
    pub options: Vec<String>,
    pub correct_index: usize,
    pub explanation: String,
}

/// A question whose first option is the correct one.
pub open spec fn question_matches(
    q: TeachingQuestion,
    text: Seq<char>,
    first: Seq<char>,
    second: Seq<char>,
    third: Seq<char>,
    explanation: Seq<char>,
) -> bool {
    &&& q.text@ == text
    &&& q.options@.len() == 3
    &&& q.options@[0]@ == first
    &&& q.options@[1]@ == second
    &&& q.options@[2]@ == third
    &&& q.correct_index == 0
    &&& q.explanation@ == explanation
}

/// Builds a three-option question whose first option is the correct one.
pub fn question(text: &str, first: &str, second: &str, third: &str, explanation: &str) -> (q:
    TeachingQuestion)
    ensures
        question_matches(q, text@, first@, second@, third@, explanation@),
{
    let mut options: Vec<String> = Vec::new();
    options.push(String::from_str(first));
    options.push(String::from_str(second));
    options.push(String::from_str(third));
    TeachingQuestion {
        text: String::from_str(text),
        options,
        correct_index: 0,
        explanation: String::from_str(explanation),
    }
}

/// Every state that is not `Sorted` becomes `Normal`.
pub open spec fn normalized(states: Seq<SelectionState>) -> Seq<SelectionState> {
    Seq::new(
        states.len(),
        |k: int|
            if states[k] == SelectionState::Sorted {
                SelectionState::Sorted
            } else {
                SelectionState::Normal
            },
    )
}

/// Every state that is not `Sorted` becomes `Sorted` below `bound` and `Normal` from `bound` on.
pub open spec fn normalized_below(states: Seq<SelectionState>, bound: int) -> Seq<SelectionState> {
    Seq::new(
        states.len(),
        |k: int|
            if states[k] == SelectionState::Sorted || k < bound {
                SelectionState::Sorted
            } else {
                SelectionState::Normal
            },
    )
}

/// Every state that is not `Sorted` becomes `Sorted` from `bound` on and `Normal` below it.
pub open spec fn normalized_from(states: Seq<SelectionState>, bound: int) -> Seq<SelectionState> {
    Seq::new(
        states.len(),
        |k: int|
            if states[k] == SelectionState::Sorted || k >= bound {
                SelectionState::Sorted
            } else {
                SelectionState::Normal
            },
    )
}

/// All states `Sorted`.
pub open spec fn all_sorted(len: nat) -> Seq<SelectionState> {
    Seq::new(len, |k: int| SelectionState::Sorted)
}

/// Turns every state that is not `Sorted` into `Normal`.
pub fn normalize_states(states: &mut Vec<SelectionState>)
    ensures
        final(states)@ == normalized(old(states)@),
{
    let n = states.len();
    let mut k: usize = 0;
    while k < n
        invariant
            n == states@.len(),
            n == old(states)@.len(),
            k <= n,
            forall|m: int| 0 <= m < k ==> states@[m] == normalized(old(states)@)[m],
            forall|m: int| k <= m < n ==> states@[m] == old(states)@[m],
        decreases n - k,
    {
        if states[k] != SelectionState::Sorted {
            states.set(k, SelectionState::Normal);
        }
        k = k + 1;
    }
    assert(states@ =~= normalized(old(states)@));
}

/// Turns every state that is not `Sorted` into `Sorted` below `bound` and into `Normal` elsewhere.
pub fn normalize_states_below(states: &mut Vec<SelectionState>, bound: usize)
    ensures
        final(states)@ == normalized_below(old(states)@, bound as int),
{
    let n = states.len();
    let mut k: usize = 0;
    while k < n
        invariant
            n == states@.len(),
            n == old(states)@.len(),
            k <= n,
            forall|m: int| 0 <= m < k ==> states@[m] == normalized_below(old(states)@, bound as int)[m],
            forall|m: int| k <= m < n ==> states@[m] == old(states)@[m],
        decreases n - k,
    {
        if states[k] != SelectionState::Sorted {
            if k < bound {
                states.set(k, SelectionState::Sorted);
            } else {
                states.set(k, SelectionState::Normal);
            }
        }
        k = k + 1;
    }
    assert(states@ =~= normalized_below(old(states)@, bound as int));
}

/// Turns every state that is not `Sorted` into `Sorted` from `bound` on and into `Normal` below it.
pub fn normalize_states_from(states: &mut Vec<SelectionState>, bound: usize)
    ensures
        final(states)@ == normalized_from(old(states)@, bound as int),
{
    let n = states.len();
    let mut k: usize = 0;
    while k < n
        invariant
            n == states@.len(),
            n == old(states)@.len(),
            k <= n,
            forall|m: int| 0 <= m < k ==> states@[m] == normalized_from(old(states)@, bound as int)[m],
            forall|m: int| k <= m < n ==> states@[m] == old(states)@[m],
        decreases n - k,
    {
        if states[k] != SelectionState::Sorted {
            if k >= bound {
                states.set(k, SelectionState::Sorted);
            } else {
                states.set(k, SelectionState::Normal);
            }
        }
        k = k + 1;
    }
    assert(states@ =~= normalized_from(old(states)@, bound as int));
}

/// Marks every state `Sorted`.
pub fn mark_states_sorted(states: &mut Vec<SelectionState>)
    ensures
        final(states)@ == all_sorted(old(states)@.len()),
{
    let n = states.len();
    let mut k: usize = 0;
    while k < n
        invariant
            n == states@.len(),
            k <= n,
            forall|m: int| 0 <= m < k ==> states@[m] == SelectionState::Sorted,
        decreases n - k,
    {
        states.set(k, SelectionState::Sorted);
        k = k + 1;
    }
    assert(states@ =~= all_sorted(old(states)@.len()));
}

/// A vector of `len` copies of `state`.
pub fn uniform_states(state: SelectionState, len: usize) -> (v: Vec<SelectionState>)
    ensures
        v@ == Seq::new(len as nat, |k: int| state),
{
    let mut v: Vec<SelectionState> = Vec::new();
    let mut k: usize = 0;
    while k < len
        invariant
            k <= len,
            v@.len() == k,
            forall|m: int| 0 <= m < k ==> v@[m] == state,
        decreases len - k,
    {
        v.push(state);
        k = k + 1;
    }
    assert(v@ =~= Seq::new(len as nat, |k: int| state));
    v
}

} // verus!
