use vstd::prelude::*;
use vstd::string::StringExecFns;
use crate::text::{append_decimal, decimal_text};
use crate::colors::{TermColor, VisualizerDrawer, pointer_colors, digit_color};
use vstd::arithmetic::power::pow;
use crate::array_manager::{ArrayData, seq_max};
use crate::base_visualizer::{ControlKey, faster_speed, slower_speed, lower_speed, raise_speed};
use crate::enums::{SelectionState, normalized, all_sorted, normalize_states, uniform_states, mark_states_sorted};
use crate::merge_sort::zeros as zeros_of;
use crate::sequences::{permutation, sorted, lemma_permutation_contains, lemma_permutation_transitive};
use crate::counting::{
    bucket, bucket_end, buckets_from, key, sorted_low, lemma_assemble, lemma_bucket_concat,
    lemma_bucket_end_mono, lemma_bucket_end_total, lemma_bucket_values, lemma_buckets_from_sorted,
    lemma_buckets_permutation, lemma_key_range, lemma_sorted_from_low, lemma_sorted_low_zero,
};

verus! {

/// The phases of least-significant-digit radix sort.
#[derive(Clone, Copy, PartialEq, Eq, Debug, Structural)]
pub enum RadixPhase {
    /// Starting a pass over one digit position.
    StartingDigit,
    /// Counting how often each digit occurs.
    CountingOccurrences,
    /// Turning the counts into end positions.
    CalculatingPositions,
    /// Placing elements, from the last, at their positions in the temporary array.
    PlacingElements,
    /// Copying the temporary array back.
    CopyingBack,
    /// Moving to the next digit position.
    NextDigit,
    /// Sorting is complete.
    Done,
}

/// Visualizes radix sort one step at a time.
pub struct RadixSortVisualizer {
    array: Vec<u32>,
    original_array: Vec<u32>,
    temp_array: Vec<u32>,
    states: Vec<SelectionState>,
    comparisons: u32,
    swaps: u32,
    is_running: bool,
    is_paused: bool,
    speed: u64,
    completed: bool,
    current_digit: u32,
    max_digits: u32,
    radix: u32,
    count: Vec<u32>,
    original_count: Vec<u32>,
    current_index: usize,
    current_element: u32,
    current_digit_value: u32,
    phase: RadixPhase,
    buckets: Vec<Vec<u32>>,
}

/// The abstract state of a [`RadixSortVisualizer`].
pub struct RadixView {
    pub array: Seq<u32>,
    pub original: Seq<u32>,
    pub temp: Seq<u32>,
    pub states: Seq<SelectionState>,
    pub comparisons: u32,
    pub swaps: u32,
    pub is_running: bool,
    pub is_paused: bool,
    pub speed: u64,
    pub completed: bool,
    pub current_digit: u32,
    pub max_digits: u32,
    pub radix: u32,
    pub count: Seq<u32>,
    pub original_count: Seq<u32>,
    pub current_index: int,
    pub current_element: u32,
    pub current_digit_value: u32,
    pub phase: RadixPhase,
    pub buckets: Seq<Seq<u32>>,
}

/// The number of decimal digits of `x` (1 for 0).
pub open spec fn decimal_digits(x: u32) -> nat
    decreases x,
{
    if x < 10 {
        1
    } else {
        1 + decimal_digits(x / 10)
    }
}

/// The digit of `number` at `position` (1 for the ones) in base `radix`; 0 at position 0.
pub open spec fn digit_at(number: u32, position: u32, radix: u32) -> u32 {
    if position == 0 {
        0
    } else {
        ((number as int / pow(radix as int, (position - 1) as nat)) % (radix as int)) as u32
    }
}

/// The sum of the first `k` values of `s`.
pub open spec fn prefix_total(s: Seq<u32>, k: int) -> int
    decreases k,
{
    if k <= 0 {
        0
    } else {
        prefix_total(s, k - 1) + s[k - 1]
    }
}

/// Changing one value changes the later prefix sums by the difference.
pub proof fn lemma_prefix_total_update(s: Seq<u32>, d: int, v: u32, k: int)
    requires
        0 <= d < s.len(),
        0 <= k <= s.len(),
    ensures
        prefix_total(s.update(d, v), k) == prefix_total(s, k) + if d < k { v - s[d] } else { 0 },
    decreases k,
{
    if k > 0 {
        lemma_prefix_total_update(s, d, v, k - 1);
    }
}

/// Prefix sums of natural numbers grow.
pub proof fn lemma_prefix_total_mono(s: Seq<u32>, j: int, k: int)
    requires
        0 <= j <= k <= s.len(),
    ensures
        0 <= prefix_total(s, j) <= prefix_total(s, k),
    decreases k,
{
    if j < k {
        lemma_prefix_total_mono(s, j, k - 1);
    } else if k > 0 {
        lemma_prefix_total_mono(s, k - 1, k - 1);
    }
}

impl RadixView {
    /// The invariant of a visualizer state reachable from `new` and `reset`.
    pub open spec fn inv(self) -> bool {
        let n = self.array.len();
        &&& n <= u32::MAX
        &&& self.original.len() == n
        &&& self.states.len() == n
        &&& self.temp.len() == n
        &&& self.speed <= 3000
        &&& self.radix == 10
        &&& 1 <= self.max_digits <= 10
        &&& self.current_digit <= self.max_digits + 1
        &&& self.count.len() == 10
        &&& self.original_count.len() == 10
        &&& self.buckets.len() == 10
        &&& 0 <= self.current_index <= n
        &&& (self.phase == RadixPhase::CountingOccurrences || self.phase == RadixPhase::CalculatingPositions
            || self.phase == RadixPhase::PlacingElements || self.phase == RadixPhase::CopyingBack
            || self.phase == RadixPhase::NextDigit) ==> 1 <= self.current_digit <= self.max_digits
        &&& (self.phase == RadixPhase::StartingDigit || self.phase == RadixPhase::NextDigit) ==> 1
            <= self.current_digit
        &&& self.phase == RadixPhase::CountingOccurrences ==> {
            &&& prefix_total(self.count, 10) == self.current_index
            &&& forall|d: int| 0 <= d < 10 ==> #[trigger] self.count[d] <= self.current_index
        }
        &&& self.phase == RadixPhase::CalculatingPositions ==> prefix_total(self.count, 10) == n
    }

    /// What makes the passes sort: the values stay those of the original array; each pass
    /// starts with the array in order by the digits below its position and leaves it in
    /// order by those up to it; the counts and the temporary array follow a stable
    /// counting pass; and a finished run is in order.
    pub open spec fn sorting_inv(self) -> bool {
        let p = self.current_digit;
        let a = self.array;
        let n = a.len() as int;
        let ci = self.current_index;
        &&& forall|i: int| 0 <= i < self.original.len() ==> (#[trigger] self.original[i] as int) < pow(10, self.max_digits as nat)
        &&& self.completed ==> self.phase == RadixPhase::Done
        &&& match self.phase {
            RadixPhase::StartingDigit => permutation(a, self.original) && sorted_low(a, (p - 1) as nat),
            RadixPhase::CountingOccurrences => {
                &&& permutation(a, self.original)
                &&& sorted_low(a, (p - 1) as nat)
                &&& forall|d: int| 0 <= d < 10 ==> self.count[d] == #[trigger] bucket(a.take(ci), p, d).len()
            },
            RadixPhase::CalculatingPositions => {
                &&& permutation(a, self.original)
                &&& sorted_low(a, (p - 1) as nat)
                &&& forall|d: int| 0 <= d < 10 ==> self.count[d] == #[trigger] bucket(a, p, d).len()
            },
            RadixPhase::PlacingElements => {
                &&& permutation(a, self.original)
                &&& sorted_low(a, (p - 1) as nat)
                &&& forall|d: int|
                    0 <= d < 10 ==> self.count[d] == bucket_end(a, p, d) - (#[trigger] bucket(a.subrange(ci, n), p, d)).len()
                        && self.temp.subrange(self.count[d] as int, bucket_end(a, p, d)) == bucket(a.subrange(ci, n), p, d)
            },
            RadixPhase::CopyingBack => {
                &&& permutation(self.temp, self.original)
                &&& sorted_low(self.temp, p as nat)
                &&& a.take(ci) == self.temp.take(ci)
            },
            RadixPhase::NextDigit => permutation(a, self.original) && sorted_low(a, p as nat),
            RadixPhase::Done => permutation(a, self.original) && sorted(a),
        }
    }

    /// The counters: each pass counts one comparison per element while counting digits and
    /// one move per element while placing them, so after the passes below the current digit
    /// position each counter holds the number of elements times the number of passes.
    pub open spec fn counts_ok(self) -> bool {
        let n = self.array.len() as int;
        let done = n * (self.current_digit - 1);
        let c = self.comparisons as int;
        let m = self.swaps as int;
        match self.phase {
            RadixPhase::StartingDigit => c == done && m == done,
            RadixPhase::CountingOccurrences => c == done + self.current_index && m == done,
            RadixPhase::CalculatingPositions => c == done + n && m == done,
            RadixPhase::PlacingElements => c == done + n && m == done + (n - self.current_index),
            RadixPhase::CopyingBack => c == done + n && m == done + n,
            RadixPhase::NextDigit => c == done + n && m == done + n,
            RadixPhase::Done => (n <= 1 && c == 0 && m == 0) || (c == n * self.max_digits && m == n
                * self.max_digits),
        }
    }

    /// How much is left: the digit positions still to pass, then the phase of the pass,
    /// with the elements left in it.
    pub open spec fn radix_measure(self) -> (int, int, int, int) {
        let n = self.array.len() as int;
        let ci = self.current_index;
        let rank = match self.phase {
            RadixPhase::StartingDigit => 5int,
            RadixPhase::CountingOccurrences => 4int,
            RadixPhase::CalculatingPositions => 3int,
            RadixPhase::PlacingElements => 2int,
            RadixPhase::CopyingBack => 1int,
            _ => 0int,
        };
        let left = match self.phase {
            RadixPhase::CountingOccurrences => n - ci,
            RadixPhase::PlacingElements => ci,
            RadixPhase::CopyingBack => n - ci,
            _ => 0int,
        };
        (self.max_digits + 1 - self.current_digit, rank, left, 0)
    }

    /// One step of the algorithm from `self` (not completed) to `post`, returning `ret`.
    pub open spec fn step_to(self, post: Self, ret: bool) -> bool {
        let n = self.array.len() as int;
        let a = self.array;
        let ci = self.current_index;
        let st = normalized(self.states);
        let same = RadixView { states: st, ..self };
        match self.phase {
            RadixPhase::StartingDigit => if self.current_digit <= self.max_digits {
                ret && post == RadixView {
                    count: Seq::new(10, |d: int| 0u32),
                    original_count: Seq::new(10, |d: int| 0u32),
                    buckets: Seq::new(10, |d: int| Seq::<u32>::empty()),
                    current_index: 0,
                    phase: RadixPhase::CountingOccurrences,
                    ..same
                }
            } else {
                !ret && post == RadixView { phase: RadixPhase::Done, ..same }
            },
            RadixPhase::CountingOccurrences => ret && if ci < n {
                let d = digit_at(a[ci], self.current_digit, self.radix) as int;
                post == RadixView {
                    current_digit_value: d as u32,
                    states: st.update(ci, SelectionState::Comparing),
                    count: if d < 10 { self.count.update(d, (self.count[d] + 1) as u32) } else { self.count },
                    buckets: if d < 10 { self.buckets.update(d, self.buckets[d].push(a[ci])) } else { self.buckets },
                    comparisons: (self.comparisons + 1) as u32,
                    current_index: ci + 1,
                    ..same
                }
            } else {
                post == RadixView {
                    original_count: self.count,
                    phase: RadixPhase::CalculatingPositions,
                    ..same
                }
            },
            RadixPhase::CalculatingPositions => ret && post == RadixView {
                count: Seq::new(10, |d: int| prefix_total(self.count, d + 1) as u32),
                current_index: n,
                phase: RadixPhase::PlacingElements,
                ..same
            },
            RadixPhase::PlacingElements => ret && if ci > 0 {
                let e = a[ci - 1];
                let d = digit_at(e, self.current_digit, self.radix) as int;
                let placed = d < 10 && self.count[d] > 0;
                let pos = self.count[d] - 1;
                post == RadixView {
                    current_index: ci - 1,
                    current_element: e,
                    current_digit_value: d as u32,
                    states: st.update(ci - 1, SelectionState::Selected),
                    count: if placed { self.count.update(d, pos as u32) } else { self.count },
                    temp: if placed && pos < n { self.temp.update(pos, e) } else { self.temp },
                    swaps: (self.swaps + 1) as u32,
                    ..same
                }
            } else {
                post == RadixView { phase: RadixPhase::CopyingBack, current_index: 0, ..same }
            },
            RadixPhase::CopyingBack => ret && if ci < n {
                post == RadixView {
                    states: st.update(ci, SelectionState::Swapping),
                    array: a.update(ci, self.temp[ci]),
                    current_index: ci + 1,
                    ..same
                }
            } else {
                post == RadixView { phase: RadixPhase::NextDigit, ..same }
            },
            RadixPhase::NextDigit => {
                let next = (self.current_digit + 1) as u32;
                if next <= self.max_digits {
                    ret && post == RadixView { current_digit: next, phase: RadixPhase::StartingDigit, ..same }
                } else {
                    !ret && post == RadixView { current_digit: next, phase: RadixPhase::Done, ..same }
                }
            },
            RadixPhase::Done => !ret && post == same,
        }
    }
}

/// The state to which `reset` returns a visualizer.
pub open spec fn radix_reset(pre: RadixView) -> RadixView {
    let n = pre.original.len();
    let m = seq_max(pre.original);
    RadixView {
        array: pre.original,
        original: pre.original,
        temp: Seq::new(n, |k: int| 0u32),
        states: if n <= 1 { all_sorted(n) } else { Seq::new(n, |k: int| SelectionState::Normal) },
        comparisons: 0,
        swaps: 0,
        is_running: false,
        is_paused: false,
        speed: pre.speed,
        completed: n <= 1,
        current_digit: if n <= 1 { 0 } else { 1 },
        max_digits: if m == 0 { 1 } else { decimal_digits(m) as u32 },
        radix: pre.radix,
        count: Seq::new(pre.count.len(), |d: int| 0u32),
        original_count: Seq::new(pre.original_count.len(), |d: int| 0u32),
        current_index: 0,
        current_element: 0,
        current_digit_value: 0,
        phase: if n <= 1 { RadixPhase::Done } else { RadixPhase::StartingDigit },
        buckets: Seq::new(pre.buckets.len(), |d: int| Seq::<u32>::empty()),
    }
}

/// The state in which a visualizer starts on `data`.
pub open spec fn radix_start(data: Seq<u32>) -> RadixView {
    radix_reset(RadixView {
        original: data,
        speed: 600,
        radix: 10,
        count: Seq::new(10, |d: int| 0u32),
        original_count: Seq::new(10, |d: int| 0u32),
        buckets: Seq::new(10, |d: int| Seq::<u32>::empty()),
        ..arbitrary()
    })
}

impl RadixView {
    /// What a key press does to the visualizer; `ret` is `false` when the key leaves it.
    pub open spec fn key_to(self, key: ControlKey, post: Self, ret: bool) -> bool {
        match key {
            ControlKey::Escape => !ret && post == self,
            ControlKey::Space => ret && if self.completed {
                post == radix_reset(self)
            } else if self.is_running {
                post == RadixView { is_paused: !self.is_paused, ..self }
            } else {
                post == RadixView { is_running: true, is_paused: false, ..self }
            },
            ControlKey::Reset => ret && post == radix_reset(self),
            ControlKey::Step => ret && if !self.completed && !self.is_running {
                exists|b: bool| self.step_to(post, b)
            } else {
                post == self
            },
            ControlKey::Faster => ret && post == RadixView {
                speed: faster_speed(self.speed, 100),
                ..self
            },
            ControlKey::Slower => ret && post == RadixView {
                speed: slower_speed(self.speed, 100, 3000),
                ..self
            },
            _ => ret && post == self,
        }
    }

    /// One automatic step: a step, and when it reports the end, the run stops,
    /// is marked completed and every element is marked sorted.
    pub open spec fn auto_step_to(self, post: Self) -> bool {
        if self.is_running && !self.is_paused && !self.completed {
            exists|mid: Self, b: bool| #[trigger] self.step_to(mid, b) && if b {
                post == mid
            } else {
                post == RadixView {
                    is_running: false,
                    completed: true,
                    states: all_sorted(mid.states.len()),
                    ..mid
                }
            }
        } else {
            post == self
        }
    }
}

impl View for RadixSortVisualizer {
    type V = RadixView;

    closed spec fn view(&self) -> RadixView {
        RadixView {
            array: self.array@,
            original: self.original_array@,
            temp: self.temp_array@,
            states: self.states@,
            comparisons: self.comparisons,
            swaps: self.swaps,
            is_running: self.is_running,
            is_paused: self.is_paused,
            speed: self.speed,
            completed: self.completed,
            current_digit: self.current_digit,
            max_digits: self.max_digits,
            radix: self.radix,
            count: self.count@,
            original_count: self.original_count@,
            current_index: self.current_index as int,
            current_element: self.current_element,
            current_digit_value: self.current_digit_value,
            phase: self.phase,
            buckets: self.buckets@.map_values(|b: Vec<u32>| b@),
        }
    }
}

/// The powers of ten up to `10^10`.
pub proof fn lemma_pow10_values()
    ensures
        pow(10, 9) == 1000000000int,
        pow(10, 10) == 10000000000int,
{
    reveal(pow);
    assert(pow(10, 0) == 1);
    assert(pow(10, 1) == 10);
    assert(pow(10, 2) == 100);
    assert(pow(10, 3) == 1000);
    assert(pow(10, 4) == 10000);
    assert(pow(10, 5) == 100000);
    assert(pow(10, 6) == 1000000);
    assert(pow(10, 7) == 10000000);
    assert(pow(10, 8) == 100000000);
    assert(pow(10, 9) == 1000000000);
    assert(pow(10, 10) == 10000000000);
}

/// A number below `10^k` has at most `k` decimal digits.
pub proof fn lemma_decimal_digits_bound(x: u32, k: nat)
    requires
        k >= 1,
        x < pow(10, k),
    ensures
        decimal_digits(x) <= k,
    decreases k,
{
    reveal(pow);
    if x >= 10 {
        if k == 1 {
            assert(pow(10, 1) == 10 * pow(10, 0));
        } else {
            assert(pow(10, k) == 10 * pow(10, (k - 1) as nat));
            assert(x / 10 < pow(10, (k - 1) as nat));
            lemma_decimal_digits_bound(x / 10, (k - 1) as nat);
        }
    }
}

/// `base` to the power `exp`.
pub fn power(base: u32, exp: u32) -> (r: u32)
    requires
        base >= 1,
        pow(base as int, exp as nat) <= u32::MAX,
    ensures
        r == pow(base as int, exp as nat),
{
    let mut r: u32 = 1;
    let mut i: u32 = 0;
    proof {
        reveal(pow);
    }
    while i < exp
        invariant
            base >= 1,
            i <= exp,
            pow(base as int, exp as nat) <= u32::MAX,
            r == pow(base as int, i as nat),
        decreases exp - i,
    {
        proof {
            reveal(pow);
            vstd::arithmetic::power::lemma_pow_increases(base as nat, (i + 1) as nat, exp as nat);
            assert(pow(base as int, (i + 1) as nat) == base * pow(base as int, i as nat));
        }
        r = r * base;
        i = i + 1;
    }
    r
}

/// Fills a vector with zeros.
fn zero_fill(v: &mut Vec<u32>)
    ensures
        final(v)@ == Seq::new(old(v)@.len(), |d: int| 0u32),
{
    let n = v.len();
    let mut k: usize = 0;
    while k < n
        invariant
            n == v@.len(),
            n == old(v)@.len(),
            k <= n,
            forall|m: int| 0 <= m < k ==> v@[m] == 0u32,
        decreases n - k,
    {
        v.set(k, 0);
        k = k + 1;
    }
    assert(v@ =~= Seq::new(old(v)@.len(), |d: int| 0u32));
}

/// Empties every bucket.
fn clear_buckets(buckets: &mut Vec<Vec<u32>>)
    ensures
        final(buckets)@.map_values(|b: Vec<u32>| b@) == Seq::new(
            old(buckets)@.len(),
            |d: int| Seq::<u32>::empty(),
        ),
{
    let n = buckets.len();
    let mut k: usize = 0;
    while k < n
        invariant
            n == buckets@.len(),
            n == old(buckets)@.len(),
            k <= n,
            forall|m: int| 0 <= m < k ==> #[trigger] buckets@[m]@ == Seq::<u32>::empty(),
        decreases n - k,
    {
        buckets.set(k, Vec::new());
        k = k + 1;
    }
    assert(buckets@.map_values(|b: Vec<u32>| b@) =~= Seq::new(old(buckets)@.len(), |d: int| Seq::<u32>::empty()));
}

/// The largest value of `data`, 0 for the empty array.
fn max_value(data: &Vec<u32>) -> (m: u32)
    ensures
        m == seq_max(data@),
{
    let n = data.len();
    let mut m: u32 = 0;
    let mut k: usize = 0;
    while k < n
        invariant
            n == data@.len(),
            k <= n,
            m == seq_max(data@.take(k as int)),
        decreases n - k,
    {
        assert(data@.take(k as int + 1).drop_last() =~= data@.take(k as int));
        if k == 0 || data[k] > m {
            m = data[k];
        }
        k = k + 1;
    }
    assert(data@.take(n as int) =~= data@);
    m
}

/// The name of a digit position: ones, tens, hundreds, thousands, else `other`.
pub open spec fn place_name(position: int, other: Seq<char>) -> Seq<char> {
    if position == 1 {
        "ones"@
    } else if position == 2 {
        "tens"@
    } else if position == 3 {
        "hundreds"@
    } else if position == 4 {
        "thousands"@
    } else {
        other
    }
}

/// The name of the position after a finished one: tens, hundreds, thousands, else `next`.
pub open spec fn next_place_name(position: int) -> Seq<char> {
    if position == 2 {
        "tens"@
    } else if position == 3 {
        "hundreds"@
    } else if position == 4 {
        "thousands"@
    } else {
        "next"@
    }
}

/// The line that says what the sort is doing.
pub open spec fn radix_operation_text(v: RadixView) -> Seq<char> {
    let cd = v.current_digit as int;
    let ci = v.current_index;
    if v.completed {
        "✓ Array is now sorted using Radix Sort!"@
    } else {
        match v.phase {
            RadixPhase::StartingDigit => {
                let place = if cd == 1 {
                    "ones place"@
                } else if cd == 2 {
                    "tens place"@
                } else if cd == 3 {
                    "hundreds place"@
                } else if cd == 4 {
                    "thousands place"@
                } else {
                    "digit place"@
                };
                "Starting sorting pass for "@ + place + " (digit position "@ + decimal_text(cd as nat) + ")"@
            },
            RadixPhase::CountingOccurrences => if ci < v.array.len() {
                "Examining "@ + place_name(cd, "current"@) + " digit of "@ + decimal_text(v.array[ci] as nat)
                    + " (element "@ + decimal_text(ci as nat) + ") - found digit "@ + decimal_text(
                    v.current_digit_value as nat,
                )
            } else {
                "Finished counting all digit occurrences"@
            },
            RadixPhase::CalculatingPositions => "Converting digit counts to final positions in sorted array"@,
            RadixPhase::PlacingElements => if ci < v.array.len() {
                "Placing "@ + decimal_text(v.current_element as nat) + " (has "@ + place_name(cd, "current"@)
                    + " digit "@ + decimal_text(v.current_digit_value as nat) + ") into correct sorted position"@
            } else {
                "Placing all elements into their sorted positions"@
            },
            RadixPhase::CopyingBack => "Copying sorted element "@ + decimal_text(
                (if ci < v.temp.len() { v.temp[ci] } else { 0 }) as nat,
            ) + " back to main array at position "@ + decimal_text(ci as nat),
            RadixPhase::NextDigit => if v.current_digit <= v.max_digits {
                "Completed "@ + (if cd - 1 == 1 {
                    "ones"@
                } else if cd - 1 == 2 {
                    "tens"@
                } else if cd - 1 == 3 {
                    "hundreds"@
                } else {
                    "previous"@
                }) + " place sorting, moving to "@ + next_place_name(cd) + " place"@
            } else {
                "All digit places have been processed"@
            },
            RadixPhase::Done => "Radix sort completed! All digit places have been sorted."@,
        }
    }
}

/// The name of a digit position, else `other`.
fn place_text(position: u32, other: &'static str) -> (r: &'static str)
    ensures
        r@ == place_name(position as int, other@),
{
    if position == 1 {
        "ones"
    } else if position == 2 {
        "tens"
    } else if position == 3 {
        "hundreds"
    } else if position == 4 {
        "thousands"
    } else {
        other
    }
}

/// The bar colors of element `i`: an element that carries no other state takes the color
/// of its digit at the current position; the right pointer is orange.
pub open spec fn radix_bar_colors(v: RadixView, i: int) -> (TermColor, TermColor) {
    if v.states[i] == SelectionState::Normal {
        (digit_color(digit_at(v.array[i], v.current_digit, v.radix)), TermColor::Reset)
    } else {
        pointer_colors(v.states[i])
    }
}

/// The title-case name of a digit position, up to the ten thousands.
pub open spec fn place_title(position: int) -> Seq<char> {
    if position == 1 {
        "Ones Place"@
    } else if position == 2 {
        "Tens Place"@
    } else if position == 3 {
        "Hundreds Place"@
    } else if position == 4 {
        "Thousands Place"@
    } else if position == 5 {
        "Ten Thousands Place"@
    } else {
        "Higher Digit Place"@
    }
}

/// The lower-case name of a digit position, up to the ten thousands.
pub open spec fn place_lower(position: int) -> Seq<char> {
    if position == 1 {
        "ones place"@
    } else if position == 2 {
        "tens place"@
    } else if position == 3 {
        "hundreds place"@
    } else if position == 4 {
        "thousands place"@
    } else if position == 5 {
        "ten thousands place"@
    } else {
        "higher digit place"@
    }
}

/// The line on the current pass: the position, the element at the current index (0 past
/// the end), the digit value, and the index.
pub open spec fn digit_info_line(v: RadixView) -> Seq<char> {
    let element: u32 = if v.current_index < v.array.len() { v.array[v.current_index] } else { 0 };
    "Current Pass: "@ + place_title(v.current_digit as int) + " | Element: "@ + decimal_text(element as nat)
        + " | Digit Value: "@ + decimal_text(v.current_digit_value as nat) + " | Index: "@ + decimal_text(
        v.current_index as nat,
    )
}

/// The title over the buckets.
pub open spec fn bucket_title_line(v: RadixView) -> Seq<char> {
    "Buckets (by "@ + place_lower(v.current_digit as int) + " digit):"@
}

/// A count right-aligned in two columns.
pub open spec fn two_columns(x: u32) -> Seq<char> {
    if x < 10 {
        " "@ + decimal_text(x as nat)
    } else {
        decimal_text(x as nat)
    }
}

/// The cell of digit `d` in the line of counts.
pub open spec fn count_cell_text(v: RadixView, d: int) -> Seq<char> {
    "["@ + decimal_text(d as nat) + ":"@ + two_columns(v.count[d]) + "] "@
}

/// The most values shown of one bucket.
pub const BUCKET_SHOWN: usize = 6;

/// The name of each phase in the statistics.
pub open spec fn radix_phase_label(phase: RadixPhase) -> Seq<char> {
    match phase {
        RadixPhase::StartingDigit => "Starting Digit"@,
        RadixPhase::CountingOccurrences => "Counting"@,
        RadixPhase::CalculatingPositions => "Calculating Positions"@,
        RadixPhase::PlacingElements => "Placing Elements"@,
        RadixPhase::CopyingBack => "Copying Back"@,
        RadixPhase::NextDigit => "Next Digit"@,
        RadixPhase::Done => "Done"@,
    }
}

impl RadixSortVisualizer {
    /// The invariant that every state reachable from `new` keeps.
    pub open spec fn wf(&self) -> bool {
        self@.inv() && self@.sorting_inv()
    }

    /// Whether the counters leave room for another step.
    pub fn can_step(&self) -> (r: bool)
        ensures
            r == (self@.comparisons < u32::MAX && self@.swaps < u32::MAX),
    {
        self.comparisons < u32::MAX && self.swaps < u32::MAX
    }

    /// The number of decimal digits of `num` (1 for 0).
    pub fn count_digits(num: u32) -> (r: u32)
        ensures
            r == decimal_digits(num),
    {
        if num == 0 {
            return 1;
        }
        let mut digits: u32 = 0;
        let mut rest = num;
        proof {
            lemma_pow10_values();
            lemma_decimal_digits_bound(num, 10);
        }
        while rest > 0
            invariant
                rest <= num,
                rest > 0 ==> digits + decimal_digits(rest) == decimal_digits(num),
                rest == 0 ==> digits == decimal_digits(num),
                decimal_digits(num) <= 10,
            decreases rest,
        {
            digits = digits + 1;
            rest = rest / 10;
        }
        digits
    }

    /// The digit of `number` at `digit_position` (1 for the ones); 0 at position 0.
    pub fn get_digit(&self, number: u32, digit_position: u32) -> (r: u32)
        requires
            self@.radix == 10,
            digit_position <= 10,
        ensures
            r == digit_at(number, digit_position, self@.radix),
    {
        if digit_position == 0 {
            return 0;
        }
        proof {
            lemma_pow10_values();
            vstd::arithmetic::power::lemma_pow_increases(10, (digit_position - 1) as nat, 9);
            vstd::arithmetic::power::lemma_pow_positive(10, (digit_position - 1) as nat);
        }
        (number / power(self.radix, digit_position - 1)) % self.radix
    }

    /// Creates a visualizer for the given array; arrays of at most one element start completed.
    pub fn new(array_data: &ArrayData) -> (r: Self)
        requires
            array_data.data@.len() <= u32::MAX,
        ensures
            r.wf(),
            r@ == radix_start(array_data.data@),
    {
        let array = array_data.data.clone();
        let len = array.len();
        proof {
            assert(array@ =~= array_data.data@);
        }
        let max_num = max_value(&array);
        let max_digits = if max_num == 0 { 1 } else { Self::count_digits(max_num) };
        proof {
            lemma_pow10_values();
            lemma_decimal_digits_bound(max_num, 10);
        }
        let original_array = array.clone();
        proof {
            assert(original_array@ =~= array@);
        }
        let mut buckets: Vec<Vec<u32>> = Vec::new();
        let mut k: usize = 0;
        while k < 10
            invariant
                k <= 10,
                buckets@.len() == k,
                forall|m: int| 0 <= m < k ==> #[trigger] buckets@[m]@ == Seq::<u32>::empty(),
            decreases 10 - k,
        {
            buckets.push(Vec::new());
            k = k + 1;
        }
        let r = Self {
            original_array,
            array,
            temp_array: zeros_of(len),
            states: if len <= 1 { uniform_states(SelectionState::Sorted, len) } else { uniform_states(SelectionState::Normal, len) },
            comparisons: 0,
            swaps: 0,
            is_running: false,
            is_paused: false,
            speed: 600,
            completed: len <= 1,
            current_digit: if len <= 1 { 0 } else { 1 },
            max_digits,
            radix: 10,
            count: zeros_of(10),
            original_count: zeros_of(10),
            current_index: 0,
            current_element: 0,
            current_digit_value: 0,
            phase: if len <= 1 { RadixPhase::Done } else { RadixPhase::StartingDigit },
            buckets,
        };
        proof {
            assert(r@.buckets =~= radix_start(array_data.data@).buckets);
            assert(r@.states =~= radix_start(array_data.data@).states);
            assert(r@ =~= radix_start(array_data.data@));
            lemma_reset_sorting(RadixView {
                original: array_data.data@,
                speed: 600,
                radix: 10,
                count: Seq::new(10, |d: int| 0u32),
                original_count: Seq::new(10, |d: int| 0u32),
                buckets: Seq::new(10, |d: int| Seq::<u32>::empty()),
                ..arbitrary()
            });
        }
        r
    }

    /// Performs one step of radix sort; returns `false` once the sort is over.
    /// When it returns `false`, the array is sorted and holds the original values.
    pub fn step(&mut self) -> (ret: bool)
        requires
            old(self).wf(),
            old(self)@.comparisons < u32::MAX,
            old(self)@.swaps < u32::MAX,
        ensures
            final(self).wf(),
            old(self)@.completed ==> !ret && final(self)@ == old(self)@,
            !old(self)@.completed ==> old(self)@.step_to(final(self)@, ret),
            !ret ==> sorted(final(self)@.array) && permutation(final(self)@.array, final(self)@.original),
    {
        let ghost pre = self@;
        let ret = self.advance();
        proof {
            if !pre.completed {
                lemma_step_sorting(pre, self@, ret);
            }
        }
        ret
    }

    /// One step of the state machine.
    fn advance(&mut self) -> (ret: bool)
        requires
            old(self)@.inv(),
            old(self)@.comparisons < u32::MAX,
            old(self)@.swaps < u32::MAX,
        ensures
            final(self)@.inv(),
            old(self)@.completed ==> !ret && final(self)@ == old(self)@,
            !old(self)@.completed ==> old(self)@.step_to(final(self)@, ret),
    {
        if self.completed {
            return false;
        }
        let ghost pre = self@;
        normalize_states(&mut self.states);
        let n = self.array.len();
        match self.phase {
            RadixPhase::StartingDigit => {
                if self.current_digit <= self.max_digits {
                    zero_fill(&mut self.count);
                    zero_fill(&mut self.original_count);
                    clear_buckets(&mut self.buckets);
                    self.current_index = 0;
                    self.phase = RadixPhase::CountingOccurrences;
                    proof {
                        assert(self@.count =~= Seq::new(10, |d: int| 0u32));
                        assert(prefix_total(self@.count, 10) == 0) by {
                            reveal_with_fuel(prefix_total, 11);
                        }
                    }
                    true
                } else {
                    self.phase = RadixPhase::Done;
                    false
                }
            },
            RadixPhase::CountingOccurrences => {
                if self.current_index < n {
                    let x = self.array[self.current_index];
                    let digit = self.get_digit(x, self.current_digit);
                    self.current_digit_value = digit;
                    self.states.set(self.current_index, SelectionState::Comparing);
                    if (digit as usize) < self.count.len() {
                        let d = digit as usize;
                        let c = self.count[d];
                        self.count.set(d, c + 1);
                        if d < self.buckets.len() {
                            let mut b = self.buckets[d].clone();
                            b.push(x);
                            self.buckets.set(d, b);
                        }
                        proof {
                            lemma_prefix_total_update(pre.count, d as int, (c + 1) as u32, 10);
                            assert(self@.buckets =~= pre.buckets.update(d as int, pre.buckets[d as int].push(x)));
                        }
                    }
                    self.comparisons = self.comparisons + 1;
                    self.current_index = self.current_index + 1;
                    proof {
                        assert(self@.states =~= normalized(pre.states).update(pre.current_index, SelectionState::Comparing));
                    }
                    true
                } else {
                    self.original_count = self.count.clone();
                    self.phase = RadixPhase::CalculatingPositions;
                    proof {
                        assert(self@.original_count =~= pre.count);
                    }
                    true
                }
            },
            RadixPhase::CalculatingPositions => {
                let ghost c0 = self.count@;
                let mut i: usize = 1;
                proof {
                    lemma_prefix_total_mono(c0, 0, 10);
                }
                while i < self.count.len()
                    invariant
                        self.count@.len() == 10,
                        c0.len() == 10,
                        1 <= i <= 10,
                        prefix_total(c0, 10) <= u32::MAX,
                        forall|m: int| 0 <= m < i ==> #[trigger] self.count@[m] == prefix_total(c0, m + 1),
                        forall|m: int| i <= m < 10 ==> #[trigger] self.count@[m] == c0[m],
                        self@ == (RadixView { count: self@.count, states: normalized(pre.states), ..pre }),
                    decreases 10 - i,
                {
                    proof {
                        lemma_prefix_total_mono(c0, i as int + 1, 10);
                    }
                    let prev = self.count[i - 1];
                    let cur = self.count[i];
                    self.count.set(i, cur + prev);
                    i = i + 1;
                }
                self.current_index = n;
                self.phase = RadixPhase::PlacingElements;
                proof {
                    assert(self@.count =~= Seq::new(10, |d: int| prefix_total(c0, d + 1) as u32));
                }
                true
            },
            RadixPhase::PlacingElements => {
                if self.current_index > 0 {
                    self.current_index = self.current_index - 1;
                    let element = self.array[self.current_index];
                    let digit = self.get_digit(element, self.current_digit);
                    self.current_element = element;
                    self.current_digit_value = digit;
                    self.states.set(self.current_index, SelectionState::Selected);
                    if (digit as usize) < self.count.len() && self.count[digit as usize] > 0 {
                        let d = digit as usize;
                        let c = self.count[d];
                        self.count.set(d, c - 1);
                        let pos = (c - 1) as usize;
                        if pos < self.temp_array.len() {
                            self.temp_array.set(pos, element);
                        }
                    }
                    self.swaps = self.swaps + 1;
                    proof {
                        assert(self@.states =~= normalized(pre.states).update(pre.current_index - 1, SelectionState::Selected));
                    }
                    true
                } else {
                    self.phase = RadixPhase::CopyingBack;
                    self.current_index = 0;
                    true
                }
            },
            RadixPhase::CopyingBack => {
                if self.current_index < n {
                    self.states.set(self.current_index, SelectionState::Swapping);
                    let v = self.temp_array[self.current_index];
                    self.array.set(self.current_index, v);
                    self.current_index = self.current_index + 1;
                    proof {
                        assert(self@.states =~= normalized(pre.states).update(pre.current_index, SelectionState::Swapping));
                    }
                    true
                } else {
                    self.phase = RadixPhase::NextDigit;
                    true
                }
            },
            RadixPhase::NextDigit => {
                self.current_digit = self.current_digit + 1;
                if self.current_digit <= self.max_digits {
                    self.phase = RadixPhase::StartingDigit;
                    true
                } else {
                    self.phase = RadixPhase::Done;
                    false
                }
            },
            RadixPhase::Done => false,
        }
    }

    /// Returns the visualizer to its initial state on the original array, keeping the speed.
    pub fn reset(&mut self)
        requires
            old(self).wf(),
        ensures
            final(self).wf(),
            final(self)@ == radix_reset(old(self)@),
    {
        let len = self.original_array.len();
        self.array = self.original_array.clone();
        proof {
            assert(self.array@ =~= self.original_array@);
        }
        self.temp_array = zeros_of(len);
        self.states = uniform_states(SelectionState::Normal, len);
        self.comparisons = 0;
        self.swaps = 0;
        self.is_running = false;
        self.is_paused = false;
        self.completed = false;
        self.current_index = 0;
        self.current_element = 0;
        self.current_digit_value = 0;
        let max_num = max_value(&self.array);
        self.max_digits = if max_num == 0 { 1 } else { Self::count_digits(max_num) };
        proof {
            lemma_pow10_values();
            lemma_decimal_digits_bound(max_num, 10);
        }
        zero_fill(&mut self.count);
        zero_fill(&mut self.original_count);
        clear_buckets(&mut self.buckets);
        if len <= 1 {
            self.completed = true;
            self.states = uniform_states(SelectionState::Sorted, len);
            self.phase = RadixPhase::Done;
            self.current_digit = 0;
        } else {
            self.current_digit = 1;
            self.phase = RadixPhase::StartingDigit;
        }
        proof {
            assert(self@.states =~= radix_reset(old(self)@).states);
            assert(self@ =~= radix_reset(old(self)@));
            lemma_reset_sorting(old(self)@);
        }
    }

    /// Marks every element sorted.
    pub fn mark_all_sorted(&mut self)
        requires
            old(self).wf(),
        ensures
            final(self).wf(),
            final(self)@ == (RadixView { states: all_sorted(old(self)@.states.len()), ..old(self)@ }),
    {
        let ghost pre = self@;
        mark_states_sorted(&mut self.states);
    }

    /// Handles one key press of the visualizer loop; returns `false` when the key leaves it.
    pub fn handle_key(&mut self, key: ControlKey) -> (ret: bool)
        requires
            old(self).wf(),
            old(self)@.comparisons < u32::MAX,
            old(self)@.swaps < u32::MAX,
        ensures
            final(self).wf(),
            old(self)@.key_to(key, final(self)@, ret),
    {
        let ghost pre = self@;
        match key {
            ControlKey::Space => {
                if self.completed {
                    self.reset();
                } else if self.is_running {
                    self.is_paused = !self.is_paused;
                } else {
                    self.is_running = true;
                    self.is_paused = false;
                }
                true
            },
            ControlKey::Reset => {
                self.reset();
                true
            },
            ControlKey::Step => {
                if !self.completed && !self.is_running {
                    let _ = self.step();
                }
                true
            },
            ControlKey::Faster => {
                self.speed = lower_speed(self.speed, 100);
                true
            },
            ControlKey::Slower => {
                self.speed = raise_speed(self.speed, 100, 3000);
                true
            },
            ControlKey::Escape => false,
            _ => true,
        }
    }

    /// Whether the loop should wait and take an automatic step.
    pub fn wants_auto_step(&self) -> (r: bool)
        ensures
            r == (self@.is_running && !self@.is_paused && !self@.completed),
    {
        self.is_running && !self.is_paused && !self.completed
    }

    /// Takes an automatic step when running; when the step reports the end, stops the
    /// run, marks it completed and marks every element sorted.
    pub fn auto_step(&mut self)
        requires
            old(self).wf(),
            old(self)@.comparisons < u32::MAX,
            old(self)@.swaps < u32::MAX,
        ensures
            final(self).wf(),
            old(self)@.auto_step_to(final(self)@),
    {
        if self.is_running && !self.is_paused && !self.completed {
            let ghost pre = self@;
            let more = self.step();
            let ghost mid = self@;
            if !more {
                self.is_running = false;
                self.completed = true;
                self.mark_all_sorted();
            }
            proof {
                assert(pre.step_to(mid, more));
            }
        }
    }

    /// The line that says what the sort is doing.
    pub fn get_current_operation(&self) -> (r: String)
        requires
            self.wf(),
        ensures
            r@ == radix_operation_text(self@),
    {
        if self.completed {
            return String::from_str("✓ Array is now sorted using Radix Sort!");
        }
        let cd = self.current_digit;
        let ci = self.current_index;
        match self.phase {
            RadixPhase::StartingDigit => {
                let place = if cd == 1 {
                    "ones place"
                } else if cd == 2 {
                    "tens place"
                } else if cd == 3 {
                    "hundreds place"
                } else if cd == 4 {
                    "thousands place"
                } else {
                    "digit place"
                };
                let mut r = String::from_str("Starting sorting pass for ");
                r.append(place);
                r.append(" (digit position ");
                append_decimal(&mut r, cd as u64);
                r.append(")");
                r
            },
            RadixPhase::CountingOccurrences => {
                if ci < self.array.len() {
                    let mut r = String::from_str("Examining ");
                    r.append(place_text(cd, "current"));
                    r.append(" digit of ");
                    append_decimal(&mut r, self.array[ci] as u64);
                    r.append(" (element ");
                    append_decimal(&mut r, ci as u64);
                    r.append(") - found digit ");
                    append_decimal(&mut r, self.current_digit_value as u64);
                    r
                } else {
                    String::from_str("Finished counting all digit occurrences")
                }
            },
            RadixPhase::CalculatingPositions => {
                String::from_str("Converting digit counts to final positions in sorted array")
            },
            RadixPhase::PlacingElements => {
                if ci < self.array.len() {
                    let mut r = String::from_str("Placing ");
                    append_decimal(&mut r, self.current_element as u64);
                    r.append(" (has ");
                    r.append(place_text(cd, "current"));
                    r.append(" digit ");
                    append_decimal(&mut r, self.current_digit_value as u64);
                    r.append(") into correct sorted position");
                    r
                } else {
                    String::from_str("Placing all elements into their sorted positions")
                }
            },
            RadixPhase::CopyingBack => {
                let value = if ci < self.temp_array.len() {
                    self.temp_array[ci]
                } else {
                    0
                };
                let mut r = String::from_str("Copying sorted element ");
                append_decimal(&mut r, value as u64);
                r.append(" back to main array at position ");
                append_decimal(&mut r, ci as u64);
                r
            },
            RadixPhase::NextDigit => {
                if cd <= self.max_digits {
                    let previous = if cd - 1 == 1 {
                        "ones"
                    } else if cd - 1 == 2 {
                        "tens"
                    } else if cd - 1 == 3 {
                        "hundreds"
                    } else {
                        "previous"
                    };
                    let next = if cd == 2 {
                        "tens"
                    } else if cd == 3 {
                        "hundreds"
                    } else if cd == 4 {
                        "thousands"
                    } else {
                        "next"
                    };
                    let mut r = String::from_str("Completed ");
                    r.append(previous);
                    r.append(" place sorting, moving to ");
                    r.append(next);
                    r.append(" place");
                    r
                } else {
                    String::from_str("All digit places have been processed")
                }
            },
            RadixPhase::Done => String::from_str("Radix sort completed! All digit places have been sorted."),
        }
    }

    /// The bar colors of element `i`.
    pub fn bar_colors(&self, i: usize) -> (r: (TermColor, TermColor))
        requires
            self.wf(),
            i < self@.array.len(),
            self@.current_digit <= 10,
        ensures
            r == radix_bar_colors(self@, i as int),
    {
        if self.states[i] == SelectionState::Normal {
            let d = self.get_digit(self.array[i], self.current_digit);
            (VisualizerDrawer::get_digit_color(d), TermColor::Reset)
        } else {
            VisualizerDrawer::get_pointer_colors(self.states[i])
        }
    }

    /// The line on the current pass.
    pub fn digit_info_text(&self) -> (r: String)
        requires
            self.wf(),
        ensures
            r@ == digit_info_line(self@),
    {
        let mut r = String::from_str("Current Pass: ");
        r.append(place_title_text(self.current_digit));
        r.append(" | Element: ");
        let element: u32 = if self.current_index < self.array.len() { self.array[self.current_index] } else { 0 };
        append_decimal(&mut r, element as u64);
        r.append(" | Digit Value: ");
        append_decimal(&mut r, self.current_digit_value as u64);
        r.append(" | Index: ");
        append_decimal(&mut r, self.current_index as u64);
        r
    }

    /// The title over the buckets.
    pub fn bucket_title(&self) -> (r: String)
        ensures
            r@ == bucket_title_line(self@),
    {
        let mut r = String::from_str("Buckets (by ");
        r.append(place_lower_text(self.current_digit));
        r.append(" digit):");
        r
    }

    /// The cell of digit `d` in the line of counts.
    pub fn count_cell(&self, d: usize) -> (r: String)
        requires
            self.wf(),
            d < 10,
        ensures
            r@ == count_cell_text(self@, d as int),
    {
        let mut r = String::from_str("[");
        append_decimal(&mut r, d as u64);
        r.append(":");
        let c = self.count[d];
        if c < 10 {
            r.append(" ");
        }
        append_decimal(&mut r, c as u64);
        r.append("] ");
        r
    }

    /// The values shown of the bucket of digit `d`: its first six, and whether it holds more.
    pub fn bucket_shown(&self, d: usize) -> (r: (Vec<u32>, bool))
        requires
            self.wf(),
            d < 10,
        ensures
            r.0@ == self@.buckets[d as int].take(
                if self@.buckets[d as int].len() < BUCKET_SHOWN { self@.buckets[d as int].len() as int } else { BUCKET_SHOWN as int },
            ),
            r.1 == (self@.buckets[d as int].len() > BUCKET_SHOWN),
    {
        let bucket = &self.buckets[d];
        proof {
            assert(bucket@ == self@.buckets[d as int]);
        }
        let shown = if bucket.len() < BUCKET_SHOWN { bucket.len() } else { BUCKET_SHOWN };
        let mut r: Vec<u32> = Vec::new();
        let mut i: usize = 0;
        while i < shown
            invariant
                shown <= bucket@.len(),
                i <= shown,
                r@ == bucket@.take(i as int),
            decreases shown - i,
        {
            r.push(bucket[i]);
            proof {
                assert(bucket@.take(i + 1) =~= bucket@.take(i as int).push(bucket@[i as int]));
            }
            i = i + 1;
        }
        (r, bucket.len() > BUCKET_SHOWN)
    }

    /// The name of the current phase in the statistics.
    pub fn phase_label(&self) -> (r: &'static str)
        ensures
            r@ == radix_phase_label(self@.phase),
    {
        match self.phase {
            RadixPhase::StartingDigit => "Starting Digit",
            RadixPhase::CountingOccurrences => "Counting",
            RadixPhase::CalculatingPositions => "Calculating Positions",
            RadixPhase::PlacingElements => "Placing Elements",
            RadixPhase::CopyingBack => "Copying Back",
            RadixPhase::NextDigit => "Next Digit",
            RadixPhase::Done => "Done",
        }
    }

    /// The array in its current order.
    pub fn array(&self) -> (r: &Vec<u32>)
        ensures
            r@ == self@.array,
    {
        &self.array
    }

    /// The visual state of each element.
    pub fn states(&self) -> (r: &Vec<SelectionState>)
        ensures
            r@ == self@.states,
    {
        &self.states
    }

    /// The digit counts, or positions once computed.
    pub fn count(&self) -> (r: &Vec<u32>)
        ensures
            r@ == self@.count,
    {
        &self.count
    }

    /// The digit counts of the current pass.
    pub fn original_count(&self) -> (r: &Vec<u32>)
        ensures
            r@ == self@.original_count,
    {
        &self.original_count
    }

    /// Number of comparisons so far.
    pub fn comparisons(&self) -> (r: u32)
        ensures
            r == self@.comparisons,
    {
        self.comparisons
    }

    /// Number of swaps or moves so far.
    pub fn swaps(&self) -> (r: u32)
        ensures
            r == self@.swaps,
    {
        self.swaps
    }

    /// Delay between automatic steps, in milliseconds.
    pub fn speed(&self) -> (r: u64)
        ensures
            r == self@.speed,
    {
        self.speed
    }

    /// Whether the run is going.
    pub fn is_running(&self) -> (r: bool)
        ensures
            r == self@.is_running,
    {
        self.is_running
    }

    /// Whether the run is paused.
    pub fn is_paused(&self) -> (r: bool)
        ensures
            r == self@.is_paused,
    {
        self.is_paused
    }

    /// The digit position of the current pass (1 for the ones).
    pub fn current_digit(&self) -> (r: u32)
        ensures
            r == self@.current_digit,
    {
        self.current_digit
    }

    /// The number of digit positions to process.
    pub fn max_digits(&self) -> (r: u32)
        ensures
            r == self@.max_digits,
    {
        self.max_digits
    }

    /// The base.
    pub fn radix(&self) -> (r: u32)
        ensures
            r == self@.radix,
    {
        self.radix
    }

    /// The element being processed.
    pub fn current_index(&self) -> (r: usize)
        ensures
            r as int == self@.current_index,
    {
        self.current_index
    }

    /// The element last placed.
    pub fn current_element(&self) -> (r: u32)
        ensures
            r == self@.current_element,
    {
        self.current_element
    }

    /// The digit last read.
    pub fn current_digit_value(&self) -> (r: u32)
        ensures
            r == self@.current_digit_value,
    {
        self.current_digit_value
    }

    /// The current phase.
    pub fn phase(&self) -> (r: RadixPhase)
        ensures
            r == self@.phase,
    {
        self.phase
    }

    /// The temporary array.
    pub fn temp_array(&self) -> (r: &Vec<u32>)
        ensures
            r@ == self@.temp,
    {
        &self.temp_array
    }

    /// The elements of each digit counted in this pass.
    pub fn buckets(&self) -> (r: &Vec<Vec<u32>>)
        ensures
            r@.map_values(|b: Vec<u32>| b@) == self@.buckets,
    {
        &self.buckets
    }

    /// Whether the sort has completed.
    pub fn is_completed(&self) -> (r: bool)
        ensures
            r == self@.completed,
    {
        self.completed
    }
}

} // verus!

verus! {

/// The prefix sums of the bucket sizes are the ends of the buckets.
proof fn lemma_prefix_is_end(count: Seq<u32>, a: Seq<u32>, p: u32, k: int)
    requires
        0 <= k <= 10,
        count.len() == 10,
        forall|d: int| 0 <= d < 10 ==> count[d] == #[trigger] bucket(a, p, d).len(),
    ensures
        prefix_total(count, k) == bucket_end(a, p, k - 1),
    decreases k,
{
    if k > 0 {
        lemma_prefix_is_end(count, a, p, k - 1);
    }
}

/// The values of a permutation of `original` stay below a bound of its values.
proof fn lemma_values_below(a: Seq<u32>, original: Seq<u32>, bound: int)
    requires
        permutation(a, original),
        forall|i: int| 0 <= i < original.len() ==> (#[trigger] original[i] as int) < bound,
    ensures
        forall|i: int| 0 <= i < a.len() ==> (#[trigger] a[i] as int) < bound,
{
    assert forall|i: int| 0 <= i < a.len() implies (#[trigger] a[i] as int) < bound by {
        assert(a.contains(a[i]));
        lemma_permutation_contains(a, original, a[i]);
        let j = choose|j: int| 0 <= j < original.len() && original[j] == a[i];
        assert((original[j] as int) < bound);
    }
}

/// A number is below ten to the power of its number of digits.
proof fn lemma_below_pow_digits(x: u32)
    ensures
        (x as int) < pow(10, decimal_digits(x)),
    decreases x,
{
    reveal(pow);
    if x >= 10 {
        lemma_below_pow_digits(x / 10);
        let q = pow(10, decimal_digits(x / 10));
        assert(pow(10, decimal_digits(x)) == 10 * q);
        assert((x as int) < 10 * q) by (nonlinear_arith)
            requires
                (x / 10) as int + 1 <= q,
                x as int <= 10 * ((x / 10) as int) + 9,
        ;
    } else {
        assert(pow(10, 1) == 10 * pow(10, 0));
    }
}

/// A reset visualizer meets the sorting invariant.
pub proof fn lemma_reset_sorting(pre: RadixView)
    ensures
        radix_reset(pre).sorting_inv(),
{
    let post = radix_reset(pre);
    let o = pre.original;
    let m = seq_max(o);
    let md = post.max_digits;
    reveal(pow);
    lemma_pow10_values();
    lemma_decimal_digits_bound(m, 10);
    if o.len() > 0 {
        crate::laws::law_array_bounds(o);
        if m == 0 {
            assert(pow(10, 1) == 10 * pow(10, 0));
        } else {
            lemma_below_pow_digits(m);
        }
        assert forall|i: int| 0 <= i < o.len() implies (#[trigger] o[i] as int) < pow(10, md as nat) by {
            assert(o[i] <= m);
        }
    }
    lemma_sorted_low_zero(o);
}

/// The placing step keeps the counts and the temporary array those of a stable counting
/// pass.
proof fn lemma_placing_step(pre: RadixView, post: RadixView)
    requires
        pre.inv(),
        pre.sorting_inv(),
        pre.phase == RadixPhase::PlacingElements,
        pre.current_index > 0,
        pre.step_to(post, true),
        1 <= pre.current_digit,
    ensures
        post.sorting_inv(),
{
    let a = pre.array;
    let n = a.len() as int;
    let p = pre.current_digit;
    let ci = pre.current_index;
    let e = a[ci - 1];
    let k = key(e, p);
    let s_old = a.subrange(ci, n);
    let s_new = a.subrange(ci - 1, n);
    lemma_key_range(e, p);
    assert(s_new =~= seq![e] + s_old);
    assert(a =~= a.take(ci - 1) + s_new);
    lemma_bucket_end_total(a, p);
    assert forall|d: int| 0 <= d < 10 implies bucket(s_new, p, d) == (if d == k {
        seq![e] + bucket(s_old, p, d)
    } else {
        bucket(s_old, p, d)
    }) && bucket(s_new, p, d).len() <= bucket(a, p, d).len() by {
        lemma_bucket_concat(seq![e], s_old, p, d);
        lemma_bucket_concat(a.take(ci - 1), s_new, p, d);
        assert(seq![e].drop_last() =~= Seq::<u32>::empty());
        assert(bucket(seq![e].drop_last(), p, d) == Seq::<u32>::empty());
        assert(seq![e].last() == e);
        if d == k {
            assert(bucket(seq![e], p, d) =~= seq![e]);
        } else {
            assert(bucket(seq![e], p, d) =~= Seq::<u32>::empty());
            assert(bucket(s_old, p, d) =~= Seq::<u32>::empty() + bucket(s_old, p, d));
        }
    }
    let endk = bucket_end(a, p, k);
    let startk = bucket_end(a, p, k - 1);
    let pos = pre.count[k] - 1;
    assert(pre.count[k] == endk - bucket(s_old, p, k).len());
    assert(bucket(s_new, p, k).len() == bucket(s_old, p, k).len() + 1);
    assert(endk == startk + bucket(a, p, k).len());
    assert(pos >= startk);
    lemma_bucket_end_mono(a, p, k - 1, k);
    lemma_bucket_end_mono(a, p, k, 9);
    assert(pos < n);
    assert(post.count == pre.count.update(k, pos as u32));
    assert(post.temp == pre.temp.update(pos, e));
    assert(post.array == a && post.current_index == ci - 1);
    assert forall|d: int| 0 <= d < 10 implies post.count[d] == bucket_end(a, p, d) - (#[trigger] bucket(
        a.subrange(ci - 1, n),
        p,
        d,
    )).len() && post.temp.subrange(post.count[d] as int, bucket_end(a, p, d)) == bucket(
        a.subrange(ci - 1, n),
        p,
        d,
    ) by {
        let ed = bucket_end(a, p, d);
        if d == k {
            assert(post.temp.subrange(pos, ed) =~= seq![e] + pre.temp.subrange(pre.count[d] as int, ed));
        } else {
            assert(pre.count[d] == ed - bucket(s_old, p, d).len());
            assert(bucket_end(a, p, d) == bucket_end(a, p, d - 1) + bucket(a, p, d).len());
            if d < k {
                lemma_bucket_end_mono(a, p, d, k - 1);
            } else {
                lemma_bucket_end_mono(a, p, k, d - 1);
            }
            lemma_bucket_end_mono(a, p, d - 1, d);
            lemma_bucket_end_mono(a, p, d, 9);
            assert(bucket(s_new, p, d) == bucket(s_old, p, d));
            assert(bucket(s_new, p, d).len() <= bucket(a, p, d).len());
            assert(pre.count[d] >= bucket_end(a, p, d - 1));
            assert(ed <= n);
            assert(pos < pre.count[d] || pos >= ed);
            assert(post.temp.subrange(pre.count[d] as int, ed) =~= pre.temp.subrange(pre.count[d] as int, ed));
        }
    }
}

/// One step keeps the sorting invariant, and a step that reports the end leaves the run
/// in its final phase.
pub proof fn lemma_step_sorting(pre: RadixView, post: RadixView, ret: bool)
    requires
        pre.inv(),
        pre.sorting_inv(),
        !pre.completed,
        pre.step_to(post, ret),
        post.inv(),
    ensures
        post.sorting_inv(),
        !ret ==> post.phase == RadixPhase::Done,
{
    let a = pre.array;
    let n = a.len() as int;
    let p = pre.current_digit;
    let ci = pre.current_index;
    match pre.phase {
        RadixPhase::StartingDigit => {
            if p <= pre.max_digits {
                assert(a.take(0) =~= Seq::<u32>::empty());
                assert forall|d: int| 0 <= d < 10 implies post.count[d] == #[trigger] bucket(
                    a.take(0),
                    p,
                    d,
                ).len() by {}
            } else {
                assert(p - 1 == pre.max_digits);
                lemma_values_below(a, pre.original, pow(10, pre.max_digits as nat));
                lemma_sorted_from_low(a, pre.max_digits as nat);
            }
        },
        RadixPhase::CountingOccurrences => {
            if ci < n {
                let x = a[ci];
                let k = key(x, p);
                lemma_key_range(x, p);
                assert(a.take(ci + 1).drop_last() =~= a.take(ci));
                assert(a.take(ci + 1).last() == x);
                lemma_bucket_values(a.take(ci), p, k);
                assert(pre.radix == 10);
                assert(k == digit_at(a[ci], p, pre.radix) as int);
                assert forall|d: int| 0 <= d < 10 implies post.count[d] == #[trigger] bucket(
                    a.take(ci + 1),
                    p,
                    d,
                ).len() by {
                    assert(bucket(a.take(ci + 1), p, d) == if key(x, p) == d {
                        bucket(a.take(ci), p, d).push(x)
                    } else {
                        bucket(a.take(ci), p, d)
                    });
                }
            } else {
                assert(a.take(ci) =~= a);
            }
        },
        RadixPhase::CalculatingPositions => {
            lemma_bucket_end_total(a, p);
            assert forall|d: int| 0 <= d < 10 implies post.count[d] == bucket_end(a, p, d) - (
            #[trigger] bucket(a.subrange(n, n), p, d)).len() && post.temp.subrange(
                post.count[d] as int,
                bucket_end(a, p, d),
            ) == bucket(a.subrange(n, n), p, d) by {
                lemma_prefix_is_end(pre.count, a, p, d + 1);
                lemma_bucket_end_mono(a, p, d, 9);
                assert(a.subrange(n, n) =~= Seq::<u32>::empty());
                assert(post.temp.subrange(post.count[d] as int, bucket_end(a, p, d)) =~= Seq::<u32>::empty());
            }
        },
        RadixPhase::PlacingElements => {
            if ci > 0 {
                lemma_placing_step(pre, post);
            } else {
                lemma_bucket_end_total(a, p);
                assert forall|d: int| 0 <= d < 10 implies pre.temp.subrange(
                    bucket_end(a, p, d - 1),
                    bucket_end(a, p, d),
                ) == #[trigger] bucket(a, p, d) by {
                    assert(a.subrange(0, n) =~= a);
                }
                lemma_assemble(pre.temp, a, p, 0);
                assert(pre.temp.subrange(0, n) =~= pre.temp);
                lemma_buckets_permutation(a, p);
                lemma_permutation_transitive(pre.temp, a, pre.original);
                lemma_buckets_from_sorted(a, p, 0);
                assert(a.take(0) =~= pre.temp.take(0));
            }
        },
        RadixPhase::CopyingBack => {
            if ci < n {
                assert(post.array.take(ci + 1) =~= pre.temp.take(ci + 1));
            } else {
                assert(a =~= a.take(ci));
                assert(pre.temp =~= pre.temp.take(ci));
            }
        },
        RadixPhase::NextDigit => {
            if p + 1 > pre.max_digits {
                lemma_values_below(a, pre.original, pow(10, pre.max_digits as nat));
                lemma_sorted_from_low(a, pre.max_digits as nat);
            }
        },
        RadixPhase::Done => {},
    }
}

/// The title-case name of a digit position.
fn place_title_text(position: u32) -> (r: &'static str)
    ensures
        r@ == place_title(position as int),
{
    match position {
        1 => "Ones Place",
        2 => "Tens Place",
        3 => "Hundreds Place",
        4 => "Thousands Place",
        5 => "Ten Thousands Place",
        _ => "Higher Digit Place",
    }
}

/// The lower-case name of a digit position.
fn place_lower_text(position: u32) -> (r: &'static str)
    ensures
        r@ == place_lower(position as int),
{
    match position {
        1 => "ones place",
        2 => "tens place",
        3 => "hundreds place",
        4 => "thousands place",
        5 => "ten thousands place",
        _ => "higher digit place",
    }
}

} // verus!
