use vstd::prelude::*;
use rand::seq::SliceRandom;
use crate::enums::TeachingQuestion;
use crate::text::same_text;

verus! {

/// Shuffles `v` in place with the thread's random generator (`SliceRandom::shuffle` of
/// `rand`). It only swaps elements, so the result holds the same elements; which order
/// comes out is left to chance and not stated.
#[verifier::external_body]
fn shuffle_in_place<T>(v: &mut Vec<T>)
    ensures
        final(v)@.to_multiset() == old(v)@.to_multiset(),
{
    v.shuffle(&mut rand::rng());
}

/// `after` is `before` with its options in some order and its answer moved to the first
/// option that reads as `before`'s first option did.
pub open spec fn reshuffled(before: TeachingQuestion, after: TeachingQuestion) -> bool {
    let first = before.options@[0]@;
    &&& after.text == before.text
    &&& after.explanation == before.explanation
    &&& after.options@.to_multiset() == before.options@.to_multiset()
    &&& 0 <= after.correct_index < after.options@.len()
    &&& after.options@[after.correct_index as int]@ == first
    &&& forall|k: int| 0 <= k < after.correct_index ==> (#[trigger] after.options@[k])@ != first
}

/// Shuffles the options of each question, taking its first option as the correct one and
/// pointing its answer at where that option went, then shuffles the questions.
pub fn randomize_questions(questions: Vec<TeachingQuestion>) -> (r: Vec<TeachingQuestion>)
    requires
        forall|i: int| 0 <= i < questions@.len() ==> (#[trigger] questions@[i]).options@.len() > 0,
    ensures
        r@.len() == questions@.len(),
        exists|m: Seq<TeachingQuestion>|
            {
                &&& m.len() == questions@.len()
                &&& forall|i: int| 0 <= i < m.len() ==> reshuffled(questions@[i], #[trigger] m[i])
                &&& r@.to_multiset() == #[trigger] m.to_multiset()
            },
{
    let ghost all = questions@;
    let n = questions.len();
    let mut rest = questions;
    let mut out: Vec<TeachingQuestion> = Vec::new();
    while rest.len() > 0
        invariant
            out@.len() + rest@.len() == n,
            all.len() == n,
            rest@ == all.subrange(out@.len() as int, n as int),
            forall|i: int| 0 <= i < all.len() ==> (#[trigger] all[i]).options@.len() > 0,
            forall|i: int| 0 <= i < out@.len() ==> reshuffled(all[i], #[trigger] out@[i]),
        decreases rest.len(),
    {
        let ghost at = out@.len() as int;
        let q = rest.remove(0);
        assert(q == all[at]);
        let TeachingQuestion { text, mut options, correct_index: _, explanation } = q;
        assert(options@.len() > 0);
        let correct = options[0].clone();
        let ghost before = options@;
        shuffle_in_place(&mut options);
        proof {
            before.to_multiset_ensures();
            options@.to_multiset_ensures();
            assert(before.len() > 0);
            assert(before.contains(before[0]));
            assert(before.to_multiset().count(before[0]) > 0);
            assert(options@.to_multiset().count(before[0]) > 0);
            assert(options@.contains(before[0]));
        }
        let ghost w = choose|w: int| 0 <= w < options@.len() && options@[w] == before[0];
        let mut k: usize = 0;
        let mut found = false;
        while k < options.len() && !found
            invariant
                0 <= w < options@.len(),
                options@[w] == before[0],
                correct@ == before[0]@,
                k <= options@.len(),
                found ==> k < options@.len() && options@[k as int]@ == correct@,
                !found ==> k <= w,
                forall|j: int| 0 <= j < k ==> (#[trigger] options@[j])@ != correct@,
            decreases options.len() - k + (if found { 0int } else { 1int }),
        {
            if same_text(options[k].as_str(), correct.as_str()) {
                found = true;
            } else {
                k = k + 1;
            }
        }
        let correct_index = if found { k } else { 0 };
        let after = TeachingQuestion { text, options, correct_index, explanation };
        proof {
            assert(reshuffled(all[at], after));
        }
        let ghost prev = out@;
        out.push(after);
        proof {
            assert forall|i: int| 0 <= i < out@.len() implies reshuffled(all[i], #[trigger] out@[i]) by {
                if i < at {
                    assert(out@[i] == prev[i]);
                }
            }
        }
    }
    let ghost m = out@;
    shuffle_in_place(&mut out);
    assert(m.len() == all.len() && forall|i: int| 0 <= i < m.len() ==> reshuffled(all[i], #[trigger] m[i]));
    assert(out@.to_multiset() == m.to_multiset());
    proof {
        out@.to_multiset_ensures();
        m.to_multiset_ensures();
    }
    out
}

} // verus!
