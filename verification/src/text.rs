use vstd::prelude::*;
use vstd::string::StringExecFns;
use vstd::string::StrSliceExecFns;

verus! {

/// Unicode `White_Space`, the characters that `char::is_whitespace` accepts.
pub open spec fn is_space(c: char) -> bool {
    ||| ('\u{9}' <= c && c <= '\u{d}')
    ||| c == ' '
    ||| c == '\u{85}'
    ||| c == '\u{a0}'
    ||| c == '\u{1680}'
    ||| ('\u{2000}' <= c && c <= '\u{200a}')
    ||| c == '\u{2028}'
    ||| c == '\u{2029}'
    ||| c == '\u{202f}'
    ||| c == '\u{205f}'
    ||| c == '\u{3000}'
}

/// Whether `c` is white space.
pub fn char_is_space(c: char) -> (r: bool)
    ensures
        r == is_space(c),
{
    ('\u{9}' <= c && c <= '\u{d}') || c == ' ' || c == '\u{85}' || c == '\u{a0}' || c == '\u{1680}'
        || ('\u{2000}' <= c && c <= '\u{200a}') || c == '\u{2028}' || c == '\u{2029}'
        || c == '\u{202f}' || c == '\u{205f}' || c == '\u{3000}'
}

/// `s` without its leading and trailing white space, given where the kept part starts
/// and ends.
pub open spec fn trim_bounds(s: Seq<char>, start: int, end: int) -> bool {
    &&& 0 <= start <= end <= s.len()
    &&& forall|k: int| 0 <= k < start ==> is_space(#[trigger] s[k])
    &&& forall|k: int| end <= k < s.len() ==> is_space(#[trigger] s[k])
    &&& start < end ==> !is_space(s[start]) && !is_space(s[end - 1])
}

/// `s` without leading and trailing white space, as `str::trim` gives it.
pub open spec fn trimmed(s: Seq<char>) -> Seq<char> {
    if exists|k: int| 0 <= k < s.len() && !is_space(#[trigger] s[k]) {
        let start = choose|a: int| 0 <= a < s.len() && !is_space(#[trigger] s[a]) && forall|k: int|
            0 <= k < a ==> is_space(#[trigger] s[k]);
        let end = choose|b: int|
            0 < b <= s.len() && !is_space(#[trigger] s[b - 1]) && forall|k: int|
                b <= k < s.len() ==> is_space(#[trigger] s[k]);
        s.subrange(start, end)
    } else {
        Seq::empty()
    }
}

/// Any bounds that trim `s` give [`trimmed`].
pub proof fn lemma_trim_bounds(s: Seq<char>, start: int, end: int)
    requires
        trim_bounds(s, start, end),
    ensures
        trimmed(s) == s.subrange(start, end),
{
    if start < end {
        assert(!is_space(s[start]));
        let a = choose|a: int| 0 <= a < s.len() && !is_space(#[trigger] s[a]) && forall|k: int|
            0 <= k < a ==> is_space(#[trigger] s[k]);
        let b = choose|b: int|
            0 < b <= s.len() && !is_space(#[trigger] s[b - 1]) && forall|k: int|
                b <= k < s.len() ==> is_space(#[trigger] s[k]);
        assert(0 < end <= s.len() && !is_space(s[end - 1]));
        if a < start {
            assert(is_space(s[a]));
        }
        if a > start {
            assert(is_space(s[start]));
        }
        if b < end {
            assert(is_space(s[end - 1]));
        }
        if b > end {
            assert(is_space(s[b - 1]));
        }
    } else {
        assert forall|k: int| 0 <= k < s.len() implies is_space(#[trigger] s[k]) by {
            if k < start {
            } else {
                assert(end <= k);
            }
        }
    }
}

/// `s` without leading and trailing white space.
pub fn trim_chars(s: &Vec<char>) -> (r: Vec<char>)
    ensures
        r@ == trimmed(s@),
{
    let n = s.len();
    let mut start: usize = 0;
    while start < n && char_is_space(s[start])
        invariant
            n == s@.len(),
            start <= n,
            forall|k: int| 0 <= k < start ==> is_space(#[trigger] s@[k]),
        decreases n - start,
    {
        start = start + 1;
    }
    let mut end: usize = n;
    while end > start && char_is_space(s[end - 1])
        invariant
            n == s@.len(),
            start <= end <= n,
            forall|k: int| end <= k < n ==> is_space(#[trigger] s@[k]),
        decreases end,
    {
        end = end - 1;
    }
    let mut r: Vec<char> = Vec::new();
    let mut k = start;
    while k < end
        invariant
            n == s@.len(),
            start <= k <= end <= n,
            r@ == s@.subrange(start as int, k as int),
        decreases end - k,
    {
        r.push(s[k]);
        k = k + 1;
        assert(r@ =~= s@.subrange(start as int, k as int));
    }
    proof {
        lemma_trim_bounds(s@, start as int, end as int);
    }
    r
}

/// Whether `c` is an ASCII decimal digit.
pub open spec fn is_digit(c: char) -> bool {
    '0' <= c && c <= '9'
}

/// The value of the ASCII digit `c`.
pub open spec fn digit_value(c: char) -> int {
    c as int - '0' as int
}

/// The value of the decimal digits `s`.
pub open spec fn digits_value(s: Seq<char>) -> int
    decreases s.len(),
{
    if s.len() == 0 {
        0
    } else {
        digits_value(s.drop_last()) * 10 + digit_value(s.last())
    }
}

/// Whether every character of `s` is an ASCII decimal digit.
pub open spec fn all_digits(s: Seq<char>) -> bool {
    forall|k: int| 0 <= k < s.len() ==> is_digit(#[trigger] s[k])
}

/// `s` without one leading `+`.
pub open spec fn unsigned_digits(s: Seq<char>) -> Seq<char> {
    if s.len() > 0 && s[0] == '+' {
        s.drop_first()
    } else {
        s
    }
}

/// What `str::parse` gives for an unsigned integer type whose largest value is `max`: an
/// optional `+`, then at least one ASCII digit and nothing else, with a value up to `max`.
pub open spec fn parse_unsigned(s: Seq<char>, max: int) -> Option<int> {
    let digits = unsigned_digits(s);
    if digits.len() > 0 && all_digits(digits) && digits_value(digits) <= max {
        Some(digits_value(digits))
    } else {
        None
    }
}

/// Digit values grow with each digit appended.
pub proof fn lemma_digits_value_grows(s: Seq<char>, k: int)
    requires
        0 <= k <= s.len(),
        forall|m: int| 0 <= m < s.len() ==> is_digit(#[trigger] s[m]),
    ensures
        0 <= digits_value(s.take(k)) <= digits_value(s),
    decreases s.len() - k,
{
    if k < s.len() {
        lemma_digits_value_grows(s, k + 1);
        assert(s.take(k + 1).drop_last() =~= s.take(k));
    } else {
        assert(s.take(k) =~= s);
        lemma_digits_nonneg(s);
    }
}

/// Digit values are not negative.
pub proof fn lemma_digits_nonneg(s: Seq<char>)
    requires
        forall|m: int| 0 <= m < s.len() ==> is_digit(#[trigger] s[m]),
    ensures
        0 <= digits_value(s),
    decreases s.len(),
{
    if s.len() > 0 {
        lemma_digits_nonneg(s.drop_last());
    }
}

/// Parses an unsigned number no larger than `max`, as `str::parse` does.
pub fn parse_number(s: &Vec<char>, max: u64) -> (r: Option<u64>)
    ensures
        match parse_unsigned(s@, max as int) {
            Some(v) => 0 <= v <= max && r == Some(v as u64),
            None => r is None,
        },
{
    let n = s.len();
    let first: usize = if n > 0 && s[0] == '+' { 1 } else { 0 };
    let ghost digits = unsigned_digits(s@);
    assert(digits =~= s@.subrange(first as int, n as int));
    if first >= n {
        return None;
    }
    let mut k = first;
    let mut value: u64 = 0;
    let mut fits = true;
    while k < n
        invariant
            n == s@.len(),
            first <= k <= n,
            first < n,
            digits == unsigned_digits(s@),
            digits == s@.subrange(first as int, n as int),
            forall|m: int| first <= m < k ==> is_digit(#[trigger] s@[m]),
            fits ==> value == digits_value(digits.take(k - first)) && value <= max,
            !fits ==> digits_value(digits.take(k - first)) > max,
        decreases n - k,
    {
        let c = s[k];
        if !('0' <= c && c <= '9') {
            proof {
                assert(digits[k - first] == c);
                assert(!is_digit(digits[k - first]));
            }
            return None;
        }
        let d = (c as u64) - ('0' as u64);
        let ghost prev = digits.take(k - first);
        proof {
            assert(digits.take(k - first + 1).drop_last() =~= prev);
            assert(digits.take(k - first + 1).last() == c);
            assert forall|m: int| 0 <= m < prev.len() implies is_digit(#[trigger] prev[m]) by {
                assert(prev[m] == s@[m + first]);
            }
            lemma_digits_nonneg(prev);
        }
        if fits {
            if d <= max && value <= (max - d) / 10 {
                proof {
                    assert(value * 10 + d <= max) by (nonlinear_arith)
                        requires
                            d <= max,
                            value <= (max - d) / 10,
                    ;
                }
                value = value * 10 + d;
            } else {
                proof {
                    assert(value * 10 + d > max) by (nonlinear_arith)
                        requires
                            !(d <= max && value <= (max - d) / 10),
                            d < 10,
                    ;
                }
                fits = false;
            }
        } else {
            proof {
                assert(digits_value(prev) * 10 + d > max) by (nonlinear_arith)
                    requires
                        digits_value(prev) > max,
                        d >= 0,
                ;
            }
        }
        k = k + 1;
    }
    proof {
        assert(digits.take(n - first) =~= digits);
        assert forall|m: int| 0 <= m < digits.len() implies is_digit(#[trigger] digits[m]) by {
            assert(digits[m] == s@[m + first]);
        }
        lemma_digits_nonneg(digits);
    }
    if fits {
        Some(value)
    } else {
        None
    }
}

/// The character of the digit `d`.
pub open spec fn digit_char(d: int) -> char {
    ('0' as int + d) as char
}

/// The decimal text of `x`, without leading zeros.
pub open spec fn decimal_text(x: nat) -> Seq<char>
    decreases x,
{
    if x < 10 {
        seq![digit_char(x as int)]
    } else {
        decimal_text(x / 10).push(digit_char((x % 10) as int))
    }
}

/// The character of a decimal digit.
pub fn digit_to_char(d: u64) -> (c: char)
    requires
        d < 10,
    ensures
        c == digit_char(d as int),
{
    if d == 0 { '0' }
    else if d == 1 { '1' }
    else if d == 2 { '2' }
    else if d == 3 { '3' }
    else if d == 4 { '4' }
    else if d == 5 { '5' }
    else if d == 6 { '6' }
    else if d == 7 { '7' }
    else if d == 8 { '8' }
    else { '9' }
}

/// The decimal digits of `x`.
pub fn decimal_chars(x: u64) -> (r: Vec<char>)
    ensures
        r@ == decimal_text(x as nat),
    decreases x,
{
    if x < 10 {
        let mut r: Vec<char> = Vec::new();
        r.push(digit_to_char(x));
        assert(r@ =~= decimal_text(x as nat));
        r
    } else {
        let mut r = decimal_chars(x / 10);
        r.push(digit_to_char(x % 10));
        r
    }
}

/// The one-character string of `c`, through std's `ToString` for `char`, whose
/// documentation gives the string holding `c` alone.
#[verifier::external_body]
pub(crate) fn char_to_string(c: char) -> (s: String)
    ensures
        s@ == seq![c],
{
    c.to_string()
}

/// The string of the characters `v`.
pub fn string_from_chars(v: &Vec<char>) -> (s: String)
    ensures
        s@ == v@,
{
    let mut s = String::new();
    let mut k: usize = 0;
    while k < v.len()
        invariant
            k <= v@.len(),
            s@ == v@.take(k as int),
        decreases v@.len() - k,
    {
        let one = char_to_string(v[k]);
        s.append(one.as_str());
        k = k + 1;
        assert(s@ =~= v@.take(k as int));
    }
    assert(v@.take(v@.len() as int) =~= v@);
    s
}

/// The characters of `s`.
pub fn chars_of(s: &str) -> (v: Vec<char>)
    ensures
        v@ == s@,
{
    let n = s.unicode_len();
    let mut v: Vec<char> = Vec::new();
    let mut k: usize = 0;
    while k < n
        invariant
            n == s@.len(),
            k <= n,
            v@ == s@.take(k as int),
        decreases n - k,
    {
        v.push(s.get_char(k));
        k = k + 1;
        assert(v@ =~= s@.take(k as int));
    }
    assert(s@.take(n as int) =~= s@);
    v
}

/// The views of the strings `v`.
pub open spec fn string_views(v: Seq<String>) -> Seq<Seq<char>> {
    Seq::new(v.len(), |i: int| v[i]@)
}

/// The pieces of `s` between its `\n` characters, as `str::split('\n')` gives them.
pub open spec fn split_pieces(s: Seq<char>) -> Seq<Seq<char>>
    decreases s.len(),
{
    if s.len() == 0 {
        seq![Seq::empty()]
    } else {
        let p = split_pieces(s.drop_last());
        if s.last() == '\n' {
            p.push(Seq::empty())
        } else {
            p.update(p.len() - 1, p.last().push(s.last()))
        }
    }
}

/// `l` without one trailing `\r`.
pub open spec fn strip_cr(l: Seq<char>) -> Seq<char> {
    if l.len() > 0 && l.last() == '\r' {
        l.drop_last()
    } else {
        l
    }
}

/// Each of the pieces `p` without one trailing `\r`.
pub open spec fn stripped(p: Seq<Seq<char>>) -> Seq<Seq<char>> {
    Seq::new(p.len(), |i: int| strip_cr(p[i]))
}

/// The lines of `s`, as `str::lines` gives them: the text is cut at each `\n`, a line
/// ended by `\n` loses one `\r` before it, and a final `\n` opens no further line.
pub open spec fn text_lines(s: Seq<char>) -> Seq<Seq<char>> {
    if s.len() == 0 {
        Seq::empty()
    } else if s.last() == '\n' {
        stripped(split_pieces(s.drop_last()))
    } else {
        let p = split_pieces(s);
        stripped(p.drop_last()).push(p.last())
    }
}

/// There is always at least one piece.
pub proof fn lemma_split_pieces_len(s: Seq<char>)
    ensures
        split_pieces(s).len() >= 1,
    decreases s.len(),
{
    if s.len() > 0 {
        lemma_split_pieces_len(s.drop_last());
    }
}

/// `l` without one trailing `\r`.
fn strip_cr_chars(l: &Vec<char>) -> (r: Vec<char>)
    ensures
        r@ == strip_cr(l@),
{
    let mut r = l.clone();
    assert(r@ == l@);
    if r.len() > 0 && r[r.len() - 1] == '\r' {
        r.pop();
        assert(r@ =~= l@.drop_last());
    }
    r
}

/// The lines of `s`.
pub fn lines_of(s: &str) -> (v: Vec<String>)
    ensures
        string_views(v@) == text_lines(s@),
{
    let chars = chars_of(s);
    let n = chars.len();
    let mut done: Vec<String> = Vec::new();
    let mut cur: Vec<char> = Vec::new();
    let mut k: usize = 0;
    proof {
        assert(s@.take(0) =~= Seq::<char>::empty());
        assert(string_views(done@) =~= stripped(split_pieces(s@.take(0)).drop_last()));
    }
    while k < n
        invariant
            chars@ == s@,
            n == s@.len(),
            k <= n,
            split_pieces(s@.take(k as int)).len() >= 1,
            cur@ == split_pieces(s@.take(k as int)).last(),
            string_views(done@) == stripped(split_pieces(s@.take(k as int)).drop_last()),
        decreases n - k,
    {
        let c = chars[k];
        let ghost before = s@.take(k as int);
        let ghost after = s@.take(k + 1);
        proof {
            assert(after.drop_last() =~= before);
            assert(after.last() == c);
            lemma_split_pieces_len(before);
        }
        if c == '\n' {
            let line = strip_cr_chars(&cur);
            let ghost old_done = done@;
            done.push(string_from_chars(&line));
            cur = Vec::new();
            proof {
                let p = split_pieces(before);
                assert(split_pieces(after) == p.push(Seq::empty()));
                assert(split_pieces(after).drop_last() =~= p);
                assert(done@.last()@ == strip_cr(p.last()));
                assert(string_views(old_done).len() == old_done.len());
                assert(stripped(p.drop_last()).len() == p.len() - 1);
                assert(old_done.len() == p.len() - 1);
                assert(done@ == old_done.push(done@.last()));
                assert forall|i: int| 0 <= i < p.len() - 1 implies #[trigger] done@[i]@ == strip_cr(
                    p[i],
                ) by {
                    assert(done@[i] == old_done[i]);
                    assert(string_views(old_done)[i] == stripped(p.drop_last())[i]);
                }
                assert(string_views(done@) =~= stripped(p));
                assert(cur@ =~= split_pieces(after).last());
            }
        } else {
            cur.push(c);
            proof {
                let p = split_pieces(before);
                assert(split_pieces(after) == p.update(p.len() - 1, p.last().push(c)));
                assert(split_pieces(after).drop_last() =~= p.drop_last());
                assert(cur@ =~= split_pieces(after).last());
            }
        }
        k = k + 1;
    }
    proof {
        assert(s@.take(n as int) =~= s@);
    }
    if n > 0 && chars[n - 1] != '\n' {
        let last = string_from_chars(&cur);
        done.push(last);
        proof {
            let p = split_pieces(s@);
            assert(string_views(done@) =~= stripped(p.drop_last()).push(p.last()));
        }
    } else if n > 0 {
        proof {
            assert(s@.drop_last().push(s@.last()) =~= s@);
            assert(split_pieces(s@) == split_pieces(s@.drop_last()).push(Seq::empty()));
            assert(split_pieces(s@).drop_last() =~= split_pieces(s@.drop_last()));
        }
    } else {
        proof {
            assert(string_views(done@) =~= Seq::<Seq<char>>::empty());
        }
    }
    done
}

/// The number of bytes of `c` in UTF-8, as `char::len_utf8` gives it.
pub open spec fn utf8_width(c: char) -> nat {
    if (c as u32) < 0x80 {
        1
    } else if (c as u32) < 0x800 {
        2
    } else if (c as u32) < 0x10000 {
        3
    } else {
        4
    }
}

/// The number of bytes of `s` in UTF-8, as `str::len` gives it.
pub open spec fn utf8_len(s: Seq<char>) -> nat
    decreases s.len(),
{
    if s.len() == 0 {
        0
    } else {
        utf8_len(s.drop_last()) + utf8_width(s.last())
    }
}

/// The smaller of two numbers.
pub open spec fn min_nat(a: nat, b: nat) -> nat {
    if a <= b {
        a
    } else {
        b
    }
}

/// The UTF-8 length of `s`, or `cap` where that is smaller.
pub fn capped_utf8_len(s: &String, cap: usize) -> (n: usize)
    ensures
        n == min_nat(utf8_len(s@), cap as nat),
{
    let chars = chars_of(s.as_str());
    let mut total: usize = 0;
    let mut k: usize = 0;
    while k < chars.len()
        invariant
            chars@ == s@,
            k <= chars@.len(),
            total == min_nat(utf8_len(s@.take(k as int)), cap as nat),
        decreases chars@.len() - k,
    {
        let c = chars[k];
        let w: usize = if (c as u32) < 0x80 {
            1
        } else if (c as u32) < 0x800 {
            2
        } else if (c as u32) < 0x10000 {
            3
        } else {
            4
        };
        proof {
            assert(s@.take(k + 1).drop_last() =~= s@.take(k as int));
        }
        if total < cap && w <= cap - total {
            total = total + w;
        } else {
            total = cap;
        }
        k = k + 1;
    }
    proof {
        assert(s@.take(chars@.len() as int) =~= s@);
    }
    total
}

/// The views after a push are the views before it and the view of the new string.
pub proof fn lemma_string_views_push(v: Seq<String>, x: String)
    ensures
        string_views(v.push(x)) == string_views(v).push(x@),
{
    assert(string_views(v.push(x)) =~= string_views(v).push(x@));
}

/// The decimal text of `x`.
pub fn decimal_string(x: u64) -> (s: String)
    ensures
        s@ == decimal_text(x as nat),
{
    let digits = decimal_chars(x);
    string_from_chars(&digits)
}

/// Whether two texts are equal.
pub fn same_text(a: &str, b: &str) -> (r: bool)
    ensures
        r == (a@ == b@),
{
    let ac = chars_of(a);
    let bc = chars_of(b);
    if ac.len() != bc.len() {
        return false;
    }
    let mut k: usize = 0;
    while k < ac.len()
        invariant
            ac@ == a@,
            bc@ == b@,
            ac@.len() == bc@.len(),
            k <= ac@.len(),
            forall|q: int| 0 <= q < k ==> a@[q] == b@[q],
        decreases ac@.len() - k,
    {
        if ac[k] != bc[k] {
            return false;
        }
        k = k + 1;
    }
    assert(a@ =~= b@);
    true
}

/// A key press in a screen with a text field.
#[derive(Clone, Copy, PartialEq, Eq, Debug, Structural)]
pub enum TextKey {
    Char(char),
    Backspace,
    Left,
    Right,
    Up,
    Down,
    Tab,
    Enter,
    Escape,
    Other,
}

/// Whether `c` is an ASCII decimal digit, as `char::is_ascii_digit` tells.
pub fn char_is_digit(c: char) -> (r: bool)
    ensures
        r == is_digit(c),
{
    '0' <= c && c <= '9'
}

/// Whether every character of `s` is an ASCII digit.
pub open spec fn digits_only(s: Seq<char>) -> bool {
    forall|k: int| 0 <= k < s.len() ==> is_digit(#[trigger] s[k])
}

/// A longer prefix has a longer UTF-8 encoding.
pub proof fn lemma_utf8_prefix_grows(s: Seq<char>, i: int, j: int)
    requires
        0 <= i <= j <= s.len(),
    ensures
        utf8_len(s.take(i)) + (j - i) <= utf8_len(s.take(j)),
    decreases j - i,
{
    if i < j {
        lemma_utf8_prefix_grows(s, i, j - 1);
        assert(s.take(j).drop_last() =~= s.take(j - 1));
    }
}

/// Whether `b` bytes into the UTF-8 encoding of `s` a character starts, or the text ends.
pub open spec fn at_boundary(s: Seq<char>, b: int) -> bool {
    exists|k: int| 0 <= k <= s.len() && #[trigger] utf8_len(s.take(k)) == b
}

/// The index of the character that starts `b` bytes into the UTF-8 encoding of `s`.
pub open spec fn char_index(s: Seq<char>, b: int) -> int {
    choose|k: int| 0 <= k <= s.len() && #[trigger] utf8_len(s.take(k)) == b
}

/// The character index at a boundary is the one `char_index` names.
pub proof fn lemma_char_index(s: Seq<char>, b: int, k: int)
    requires
        0 <= k <= s.len(),
        utf8_len(s.take(k)) == b,
    ensures
        at_boundary(s, b),
        char_index(s, b) == k,
{
    let c = char_index(s, b);
    if c < k {
        lemma_utf8_prefix_grows(s, c, k);
    } else if c > k {
        lemma_utf8_prefix_grows(s, k, c);
    }
}

/// The character index `b` bytes into `s`, where a character starts there or the text
/// ends.
pub fn find_char_index(s: &Vec<char>, b: usize) -> (r: Option<usize>)
    requires
        utf8_len(s@) < 1000,
    ensures
        match r {
            Some(k) => at_boundary(s@, b as int) && k == char_index(s@, b as int),
            None => !at_boundary(s@, b as int),
        },
{
    let n = s.len();
    let mut k: usize = 0;
    let mut acc: usize = 0;
    while k < n && acc < b
        invariant
            n == s@.len(),
            k <= n,
            utf8_len(s@) < 1000,
            acc == utf8_len(s@.take(k as int)),
            forall|j: int| 0 <= j < k ==> #[trigger] utf8_len(s@.take(j)) < b,
        decreases n - k,
    {
        proof {
            assert(s@.take(k + 1).drop_last() =~= s@.take(k as int));
            lemma_utf8_prefix_grows(s@, k + 1, n as int);
            assert(s@.take(n as int) =~= s@);
        }
        let c = s[k];
        let w: usize = if (c as u32) < 0x80 {
            1
        } else if (c as u32) < 0x800 {
            2
        } else if (c as u32) < 0x10000 {
            3
        } else {
            4
        };
        acc = acc + w;
        k = k + 1;
    }
    if acc == b {
        proof {
            lemma_char_index(s@, b as int, k as int);
        }
        Some(k)
    } else {
        proof {
            assert forall|j: int| 0 <= j <= s@.len() implies #[trigger] utf8_len(s@.take(j)) != b by {
                if j > k {
                    lemma_utf8_prefix_grows(s@, k as int, j);
                } else if j == k {
                } else {
                }
            }
        }
        None
    }
}

/// The UTF-8 length of `s`, for a short text.
pub fn utf8_len_of(s: &Vec<char>) -> (n: usize)
    requires
        utf8_len(s@) < 1000,
    ensures
        n == utf8_len(s@),
{
    let mut total: usize = 0;
    let mut k: usize = 0;
    while k < s.len()
        invariant
            k <= s@.len(),
            utf8_len(s@) < 1000,
            total == utf8_len(s@.take(k as int)),
        decreases s@.len() - k,
    {
        proof {
            assert(s@.take(k + 1).drop_last() =~= s@.take(k as int));
            lemma_utf8_prefix_grows(s@, k + 1, s@.len() as int);
            assert(s@.take(s@.len() as int) =~= s@);
        }
        let c = s[k];
        let w: usize = if (c as u32) < 0x80 {
            1
        } else if (c as u32) < 0x800 {
            2
        } else if (c as u32) < 0x10000 {
            3
        } else {
            4
        };
        total = total + w;
        k = k + 1;
    }
    assert(s@.take(s@.len() as int) =~= s@);
    total
}

/// The UTF-8 length of a concatenation is the sum of the lengths.
pub proof fn lemma_utf8_concat(a: Seq<char>, b: Seq<char>)
    ensures
        utf8_len(a + b) == utf8_len(a) + utf8_len(b),
    decreases b.len(),
{
    if b.len() > 0 {
        lemma_utf8_concat(a, b.drop_last());
        assert((a + b).drop_last() =~= a + b.drop_last());
    } else {
        assert(a + b =~= a);
    }
}

/// Inserting a character adds its width to the UTF-8 length.
pub proof fn lemma_utf8_insert(s: Seq<char>, k: int, c: char)
    requires
        0 <= k <= s.len(),
    ensures
        utf8_len(s.insert(k, c)) == utf8_len(s) + utf8_width(c),
{
    lemma_utf8_concat(s.take(k), s.skip(k));
    lemma_utf8_concat(s.take(k).push(c), s.skip(k));
    assert(s.take(k) + s.skip(k) =~= s);
    assert(s.take(k).push(c) + s.skip(k) =~= s.insert(k, c));
    assert(s.take(k).push(c).drop_last() =~= s.take(k));
}

/// Removing a character takes its width from the UTF-8 length.
pub proof fn lemma_utf8_remove(s: Seq<char>, k: int)
    requires
        0 <= k < s.len(),
    ensures
        utf8_len(s.remove(k)) + utf8_width(s[k]) == utf8_len(s),
{
    lemma_utf8_insert(s.remove(k), k, s[k]);
    assert(s.remove(k).insert(k, s[k]) =~= s);
}

/// Appends the decimal text of `x`.
pub fn append_decimal(s: &mut String, x: u64)
    ensures
        final(s)@ == old(s)@ + decimal_text(x as nat),
{
    let digits = decimal_string(x);
    s.append(digits.as_str());
}

/// The number of characters in the first `b` bytes of the UTF-8 encoding of `s`, where a
/// character starts there or the text ends.
pub fn chars_before_byte(s: &Vec<char>, b: usize) -> (r: usize)
    requires
        at_boundary(s@, b as int),
    ensures
        r as int == char_index(s@, b as int),
        utf8_len(s@.take(r as int)) == b,
{
    let ghost target = char_index(s@, b as int);
    let n = s.len();
    let mut k: usize = 0;
    let mut acc: usize = 0;
    while acc < b
        invariant
            n == s@.len(),
            0 <= target <= n,
            utf8_len(s@.take(target)) == b,
            k <= target,
            acc == utf8_len(s@.take(k as int)),
        decreases target - k,
    {
        proof {
            if k == target {
                assert(false);
            }
            assert(s@.take(k + 1).drop_last() =~= s@.take(k as int));
            lemma_utf8_prefix_grows(s@, k + 1, target);
        }
        let c = s[k];
        let w: usize = if (c as u32) < 0x80 {
            1
        } else if (c as u32) < 0x800 {
            2
        } else if (c as u32) < 0x10000 {
            3
        } else {
            4
        };
        acc = acc + w;
        k = k + 1;
    }
    proof {
        if k < target {
            lemma_utf8_prefix_grows(s@, k + 1, target);
            assert(s@.take(k + 1).drop_last() =~= s@.take(k as int));
        }
        lemma_char_index(s@, b as int, k as int);
    }
    k
}

/// Whether the UTF-8 encoding of `s` is longer than `limit` bytes.
pub fn utf8_longer_than(s: &Vec<char>, limit: usize) -> (r: bool)
    ensures
        r == (utf8_len(s@) > limit),
{
    let mut total: usize = 0;
    let mut k: usize = 0;
    while k < s.len()
        invariant
            k <= s@.len(),
            total <= limit,
            total == utf8_len(s@.take(k as int)),
        decreases s@.len() - k,
    {
        let c = s[k];
        let w: usize = if (c as u32) < 0x80 {
            1
        } else if (c as u32) < 0x800 {
            2
        } else if (c as u32) < 0x10000 {
            3
        } else {
            4
        };
        proof {
            assert(s@.take(k + 1).drop_last() =~= s@.take(k as int));
        }
        if w > limit - total {
            proof {
                lemma_utf8_prefix_grows(s@, k + 1, s@.len() as int);
                assert(s@.take(s@.len() as int) =~= s@);
            }
            return true;
        }
        total = total + w;
        k = k + 1;
    }
    proof {
        assert(s@.take(s@.len() as int) =~= s@);
    }
    false
}

} // verus!
