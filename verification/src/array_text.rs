use vstd::prelude::*;
use vstd::string::StringExecFns;
use crate::text::{decimal_string, decimal_text};

verus! {

/// A number right-aligned in two columns, as `format!("{:2}", x)` writes it.
pub open spec fn padded(x: u32) -> Seq<char> {
    if x < 10 {
        seq![' '] + decimal_text(x as nat)
    } else {
        decimal_text(x as nat)
    }
}

/// The padded numbers joined with `", "`.
pub open spec fn joined(values: Seq<u32>) -> Seq<char>
    decreases values.len(),
{
    if values.len() == 0 {
        Seq::empty()
    } else if values.len() == 1 {
        padded(values[0])
    } else {
        joined(values.drop_last()) + ", "@ + padded(values.last())
    }
}

/// The preview of an array in the list: all values up to eight, else the first six and
/// how many more there are.
pub open spec fn preview_text(values: Seq<u32>) -> Seq<char> {
    if values.len() <= 8 {
        "["@ + joined(values) + "]"@
    } else {
        "["@ + joined(values.take(6)) + ", ... +"@ + decimal_text((values.len() - 6) as nat) + " more]"@
    }
}

/// The number padded to two columns.
pub fn padded_string(x: u32) -> (s: String)
    ensures
        s@ == padded(x),
{
    let digits = decimal_string(x as u64);
    if x < 10 {
        proof {
            reveal_strlit(" ");
        }
        let mut s = String::from_str(" ");
        s.append(digits.as_str());
        s
    } else {
        digits
    }
}

/// Appends the joined padded values to `s`.
fn append_joined(s: &mut String, values: &Vec<u32>, count: usize)
    requires
        count <= values@.len(),
    ensures
        final(s)@ == old(s)@ + joined(values@.take(count as int)),
{
    let ghost start = s@;
    let mut k: usize = 0;
    assert(values@.take(0) =~= Seq::<u32>::empty());
    assert(start + joined(values@.take(0)) =~= start);
    while k < count
        invariant
            k <= count <= values@.len(),
            s@ == start + joined(values@.take(k as int)),
        decreases count - k,
    {
        let piece = padded_string(values[k]);
        proof {
            assert(values@.take(k + 1).drop_last() =~= values@.take(k as int));
            assert(values@.take(k + 1).last() == values@[k as int]);
        }
        if k > 0 {
            s.append(", ");
        }
        s.append(piece.as_str());
        k = k + 1;
        proof {
            if k == 1 {
                assert(values@.take(1)[0] == values@[0]);
                assert(s@ =~= start + joined(values@.take(k as int)));
            } else {
                assert(s@ =~= start + joined(values@.take(k as int)));
            }
        }
    }
}

/// The short preview of an array shown in the list of arrays.
pub fn display_array_preview(values: &Vec<u32>) -> (s: String)
    ensures
        s@ == preview_text(values@),
{
    let mut s = String::from_str("[");
    if values.len() <= 8 {
        append_joined(&mut s, values, values.len());
        assert(values@.take(values@.len() as int) =~= values@);
        s.append("]");
    } else {
        append_joined(&mut s, values, 6);
        s.append(", ... +");
        let more = decimal_string((values.len() - 6) as u64);
        s.append(more.as_str());
        s.append(" more]");
    }
    s
}

/// The lines so far, the line being filled, and whether no value was placed yet, while
/// an array is written out in lines of at most `width` columns.
pub type WrapState = (Seq<Seq<char>>, Seq<char>, bool);

/// The state after placing `v`: it joins the current line, or the line is closed and a
/// new one starts with it where it would pass `width` and the line already has a value.
pub open spec fn wrap_value(st: WrapState, v: u32, width: int) -> WrapState {
    let val = padded(v);
    let addition = if st.2 { val } else { ", "@ + val };
    if st.1.len() + addition.len() > width && !st.2 {
        (st.0.push(st.1 + "]"@), "["@ + val, false)
    } else {
        (st.0, st.1 + addition, false)
    }
}

/// The state after placing all of `values`.
pub open spec fn wrap_state(values: Seq<u32>, width: int) -> WrapState
    decreases values.len(),
{
    if values.len() == 0 {
        (Seq::empty(), "["@, true)
    } else {
        wrap_value(wrap_state(values.drop_last(), width), values.last(), width)
    }
}

/// The full content of an array in lines of at most `width` columns, each in brackets;
/// a value longer than a line still gets one.
pub open spec fn full_lines(values: Seq<u32>, width: int) -> Seq<Seq<char>> {
    let st = wrap_state(values, width);
    st.0.push(if values.len() > 0 { st.1 + "]"@ } else { st.1 })
}

/// The decimal text of a `u32` has at most ten digits.
proof fn lemma_decimal_len(x: nat)
    requires
        x <= u32::MAX,
    ensures
        1 <= decimal_text(x).len() <= 10,
    decreases x,
{
    if x >= 10 {
        lemma_decimal_len(x / 10);
        if x / 10 >= 10 {
            assert(x / 10 / 10 < x / 10);
        }
        lemma_decimal_len_bound(x);
    }
}

/// A number below `10^k` has at most `k` digits.
proof fn lemma_decimal_len_bound(x: nat)
    ensures
        x < 10 ==> decimal_text(x).len() == 1,
        x < 100 ==> decimal_text(x).len() <= 2,
        x < 1000 ==> decimal_text(x).len() <= 3,
        x < 10000 ==> decimal_text(x).len() <= 4,
        x < 100000 ==> decimal_text(x).len() <= 5,
        x < 1000000 ==> decimal_text(x).len() <= 6,
        x < 10000000 ==> decimal_text(x).len() <= 7,
        x < 100000000 ==> decimal_text(x).len() <= 8,
        x < 1000000000 ==> decimal_text(x).len() <= 9,
        x < 10000000000 ==> decimal_text(x).len() <= 10,
        decimal_text(x).len() >= 1,
    decreases x,
{
    if x >= 10 {
        lemma_decimal_len_bound(x / 10);
    }
}

/// The full content of an array in lines of at most `max_width` columns.
pub fn display_array_full(values: &Vec<u32>, max_width: usize) -> (lines: Vec<String>)
    ensures
        crate::text::string_views(lines@) == full_lines(values@, max_width as int),
{
    proof {
        reveal_strlit("[");
        reveal_strlit("]");
        reveal_strlit(", ");
    }
    let mut lines: Vec<String> = Vec::new();
    let mut current = String::from_str("[");
    let mut current_len: usize = 1;
    let mut first = true;
    let mut k: usize = 0;
    proof {
        assert(values@.take(0) =~= Seq::<u32>::empty());
        assert(crate::text::string_views(lines@) =~= Seq::<Seq<char>>::empty());
    }
    while k < values.len()
        invariant
            k <= values@.len(),
            ({
                let st = wrap_state(values@.take(k as int), max_width as int);
                &&& crate::text::string_views(lines@) == st.0
                &&& current@ == st.1
                &&& first == st.2
            }),
            current_len == current@.len(),
            current_len <= if max_width > 11 { max_width } else { 11 },
            first ==> current_len == 1 && k == 0,
            "["@.len() == 1,
            "]"@.len() == 1,
            ", "@.len() == 2,
        decreases values@.len() - k,
    {
        let v = values[k];
        let piece = padded_string(v);
        proof {
            lemma_decimal_len_bound(v as nat);
            assert(values@.take(k + 1).drop_last() =~= values@.take(k as int));
            assert(values@.take(k + 1).last() == v);
        }
        let piece_len: usize = if v < 10 {
            2
        } else {
            crate::text::decimal_chars(v as u64).len()
        };
        proof {
            if v >= 10 {
                assert(piece@ == decimal_text(v as nat));
            }
            assert(piece_len == piece@.len());
        }
        let addition_len: usize = if first { piece_len } else { piece_len + 2 };
        if !first && (addition_len > max_width || current_len > max_width - addition_len) {
            let ghost old_lines = lines@;
            current.append("]");
            lines.push(current);
            proof {
                crate::text::lemma_string_views_push(old_lines, lines@.last());
            }
            current = String::from_str("[");
            current.append(piece.as_str());
            current_len = 1 + piece_len;
        } else {
            if !first {
                current.append(", ");
            }
            current.append(piece.as_str());
            current_len = current_len + addition_len;
        }
        first = false;
        k = k + 1;
    }
    proof {
        assert(values@.take(values@.len() as int) =~= values@);
    }
    if values.len() > 0 {
        current.append("]");
    }
    let ghost old_lines = lines@;
    lines.push(current);
    proof {
        crate::text::lemma_string_views_push(old_lines, lines@.last());
    }
    lines
}

} // verus!
