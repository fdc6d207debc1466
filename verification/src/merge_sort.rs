use vstd::prelude::*;
use vstd::string::StringExecFns;
use crate::text::{append_decimal, decimal_text};
use crate::colors::{TermColor, VisualizerDrawer, state_colors};
use vstd::multiset::Multiset;
use crate::array_manager::ArrayData;
use crate::base_visualizer::{ControlKey, faster_speed, slower_speed, lower_speed, raise_speed};
use crate::enums::{SelectionState, normalized, all_sorted, normalize_states, uniform_states, mark_states_sorted};
use crate::sequences::{permutation, sorted};
use crate::laws::law_merge_pass_step;

verus! {

/// The phases of bottom-up merge sort.
#[derive(Clone, Copy, PartialEq, Eq, Debug, Structural)]
pub enum MergePhase {
    /// Choosing the next pair of runs to merge.
    MergePairs,
    /// A merge has been set up.
    MergingInit,
    /// Moving one value into the merged run.
    MergingStep,
    /// A merge is complete.
    DoneMerge,
}

/// Visualizes bottom-up merge sort one step at a time.
pub struct MergeSortVisualizer {
    array: Vec<u32>,
    original_array: Vec<u32>,
    states: Vec<SelectionState>,
    temp: Vec<u32>,
    comparisons: u32,
    swaps: u32,
    is_running: bool,
    is_paused: bool,
    speed: u64,
    completed: bool,
    current_size: usize,
    current_pair_start: usize,
    low: usize,
    high: usize,
    mid: usize,
    i: usize,
    j: usize,
    k: usize,
    phase: MergePhase,
}

/// The abstract state of a [`MergeSortVisualizer`].
pub struct MergeView {
    pub array: Seq<u32>,
    pub original: Seq<u32>,
    pub states: Seq<SelectionState>,
    pub temp: Seq<u32>,
    pub comparisons: u32,
    pub swaps: u32,
    pub is_running: bool,
    pub is_paused: bool,
    pub speed: u64,
    pub completed: bool,
    pub current_size: int,
    pub current_pair_start: int,
    pub low: int,
    pub high: int,
    pub mid: int,
    pub i: int,
    pub j: int,
    pub k: int,
    pub phase: MergePhase,
}

/// `x - 1`, but not below zero.
pub open spec fn pred_sat(x: int) -> int {
    if x >= 1 { x - 1 } else { 0 }
}

/// The multiset of four consecutive parts is the sum of theirs.
pub proof fn lemma_four_parts(p: Seq<u32>, l: Seq<u32>, r: Seq<u32>, s: Seq<u32>)
    ensures
        (p + l + r + s).to_multiset() == p.to_multiset().add(l.to_multiset()).add(r.to_multiset()).add(
            s.to_multiset(),
        ),
{
    broadcast use vstd::seq_lib::lemma_multiset_commutative;
    assert((p + l + r + s).to_multiset() == (p + l + r).to_multiset().add(s.to_multiset()));
    assert((p + l + r).to_multiset() == (p + l).to_multiset().add(r.to_multiset()));
    assert((p + l).to_multiset() == p.to_multiset().add(l.to_multiset()));
}

/// Where a run of `size` values from `q` ends in an array of `n` values.
pub open spec fn run_end(q: int, size: int, n: int) -> int {
    if q + size < n {
        q + size
    } else {
        n
    }
}

/// The runs of `size` values (the last one cut short at the array's end) that start at
/// multiples of `size` from `from` on, below `to`, are each in order.
pub open spec fn runs_sorted(a: Seq<u32>, size: int, from: int, to: int) -> bool {
    forall|q: int|
        from <= q < to && q < a.len() && q % size == 0 ==> #[trigger] sorted(
            a.subrange(q, run_end(q, size, a.len() as int)),
        )
}

impl MergeView {
    /// What makes merge sort sort: before each pair the runs of twice the current size are
    /// in order up to the pair and the runs of the current size from it on; during a merge,
    /// the same around the pair, which covers both of its runs, and the merge of runs in
    /// order is itself in order.
    pub open spec fn pass_in_order(self) -> bool {
        let a = self.array;
        let n = a.len() as int;
        let s = self.current_size;
        let p = self.current_pair_start;
        &&& s >= 1
        &&& p % (2 * s) == 0
        &&& if self.merging() {
            &&& p + s < n
            &&& self.low == p
            &&& self.mid == p + s - 1
            &&& self.high == run_end(p, 2 * s, n) - 1
            &&& runs_sorted(a, 2 * s, 0, p)
            &&& runs_sorted(a, s, p + 2 * s, n)
            &&& self.runs_in_order()
            &&& self.merged_in_order()
        } else {
            runs_sorted(a, 2 * s, 0, p) && runs_sorted(a, s, p, n)
        }
    }

    /// How much is left: the run sizes still to double, the pairs left in the pass, the
    /// phase of the pair, and the values left to merge.
    pub open spec fn merge_measure(self) -> (int, int, int, int) {
        let n = self.array.len() as int;
        let s = self.current_size;
        let phase = match self.phase {
            MergePhase::MergePairs => 3int,
            MergePhase::MergingInit => 2int,
            MergePhase::MergingStep => 1int,
            MergePhase::DoneMerge => 0int,
        };
        let left = if self.merging() { self.high + 1 - self.k } else { 0 };
        (n - s, n + 2 * s - self.current_pair_start, phase, left)
    }

    /// The two runs being merged, as copied into the temporary array, are each in order.
    pub open spec fn runs_in_order(self) -> bool {
        &&& sorted(self.temp.subrange(self.low, self.mid + 1))
        &&& sorted(self.temp.subrange(self.mid + 1, self.high + 1))
    }

    /// The merged prefix of the range is in order, and no value in it is larger than a
    /// value still left in either run.
    pub open spec fn merged_in_order(self) -> bool {
        &&& sorted(self.array.subrange(self.low, self.k))
        &&& forall|x: int, y: int|
            self.low <= x < self.k && ((self.i <= y <= self.mid) || (self.j <= y <= self.high))
                ==> #[trigger] self.array[x] <= #[trigger] self.temp[y]
    }

    /// Whether a merge is under way.
    pub open spec fn merging(self) -> bool {
        self.phase != MergePhase::MergePairs
    }

    /// The values the visualizer holds: during a merge, the merged prefix of the range,
    /// the rest of both runs in the temporary copy, and the array outside the range.
    pub open spec fn contents(self) -> Seq<u32> {
        if self.merging() {
            self.array.subrange(0, self.k) + self.temp.subrange(self.i, self.mid + 1) + self.temp.subrange(
                self.j,
                self.high + 1,
            ) + self.array.subrange(self.high + 1, self.array.len() as int)
        } else {
            self.array
        }
    }

    /// The invariant of a visualizer state reachable from `new` and `reset`.
    pub open spec fn inv(self) -> bool {
        let n = self.array.len();
        &&& n <= usize::MAX / 4
        &&& self.original.len() == n
        &&& self.states.len() == n
        &&& self.temp.len() == n
        &&& permutation(self.contents(), self.original)
        &&& self.speed <= 3000
        &&& self.current_size >= 1
        &&& 0 <= self.current_pair_start
        &&& self.current_pair_start <= n + self.current_size
        &&& self.merging() ==> {
            &&& 0 <= self.low <= self.mid <= self.high < n
            &&& self.low <= self.i <= self.mid + 1
            &&& self.mid + 1 <= self.j <= self.high + 1
            &&& self.k == self.i + self.j - (self.mid + 1)
            &&& self.current_pair_start == self.low
            &&& self.current_pair_start + self.current_size < n
        }
        &&& self.phase == MergePhase::DoneMerge ==> self.i == self.mid + 1 && self.j == self.high + 1
    }

    /// One step of the algorithm from `self` to `post`, returning `ret`.
    pub open spec fn step_to(self, post: Self, ret: bool) -> bool {
        let n = self.array.len() as int;
        let a = self.array;
        let t = self.temp;
        let st = normalized(self.states);
        let same = MergeView { states: st, ..self };
        match self.phase {
            MergePhase::MergePairs => {
                let wrap = self.current_pair_start + self.current_size >= n;
                let size = if wrap { 2 * self.current_size } else { self.current_size };
                let ps = if wrap { 0 } else { self.current_pair_start };
                if wrap && size >= n {
                    !ret && post == MergeView { current_size: size, current_pair_start: 0, ..same }
                } else {
                    let low = ps;
                    let mid = pred_sat(ps + size);
                    let rs = ps + size;
                    let high = pred_sat(if ps + 2 * size < n { ps + 2 * size } else { n });
                    ret && post == MergeView {
                        current_size: size,
                        current_pair_start: ps,
                        low,
                        mid,
                        high,
                        i: low,
                        j: rs,
                        k: low,
                        temp: Seq::new(
                            n as nat,
                            |x: int|
                                if (low <= x <= mid) || (rs <= x <= high) {
                                    a[x]
                                } else {
                                    t[x]
                                },
                        ),
                        phase: MergePhase::MergingInit,
                        ..same
                    }
                }
            },
            MergePhase::MergingInit => ret && post == MergeView { phase: MergePhase::MergingStep, ..same },
            MergePhase::MergingStep => {
                let i = self.i;
                let j = self.j;
                let k = self.k;
                let s1 = if i <= self.mid { st.update(i, SelectionState::PartitionLeft) } else { st };
                let s2 = if j <= self.high { s1.update(j, SelectionState::PartitionRight) } else { s1 };
                let marked = MergeView { states: s2, ..self };
                ret && if i > self.mid && j > self.high {
                    post == MergeView { phase: MergePhase::DoneMerge, ..marked }
                } else if i > self.mid {
                    post == MergeView {
                        array: a.update(k, t[j]),
                        swaps: (self.swaps + 1) as u32,
                        k: k + 1,
                        j: j + 1,
                        ..marked
                    }
                } else if j > self.high {
                    post == MergeView {
                        array: a.update(k, t[i]),
                        swaps: (self.swaps + 1) as u32,
                        k: k + 1,
                        i: i + 1,
                        ..marked
                    }
                } else if t[i] <= t[j] {
                    post == MergeView {
                        array: a.update(k, t[i]),
                        comparisons: (self.comparisons + 1) as u32,
                        swaps: (self.swaps + 1) as u32,
                        k: k + 1,
                        i: i + 1,
                        ..marked
                    }
                } else {
                    post == MergeView {
                        array: a.update(k, t[j]),
                        comparisons: (self.comparisons + 1) as u32,
                        swaps: (self.swaps + 1) as u32,
                        k: k + 1,
                        j: j + 1,
                        ..marked
                    }
                }
            },
            MergePhase::DoneMerge => ret && post == MergeView {
                states: Seq::new(
                    n as nat,
                    |x: int|
                        if self.low <= x <= self.high {
                            SelectionState::Sorted
                        } else {
                            st[x]
                        },
                ),
                current_pair_start: self.current_pair_start + 2 * self.current_size,
                phase: MergePhase::MergePairs,
                ..same
            },
        }
    }
}

/// The state to which `reset` returns a visualizer.
pub open spec fn merge_reset(pre: MergeView) -> MergeView {
    let n = pre.original.len();
    MergeView {
        array: pre.original,
        original: pre.original,
        states: Seq::new(n, |k: int| SelectionState::Normal),
        temp: Seq::new(n, |k: int| 0u32),
        comparisons: 0,
        swaps: 0,
        is_running: false,
        is_paused: false,
        speed: pre.speed,
        completed: false,
        current_size: 1,
        current_pair_start: 0,
        low: 0,
        high: 0,
        mid: 0,
        i: 0,
        j: 0,
        k: 0,
        phase: MergePhase::MergePairs,
    }
}

/// The state in which a visualizer starts on `data`.
pub open spec fn merge_start(data: Seq<u32>) -> MergeView {
    MergeView { array: data, original: data, speed: 800, ..merge_reset(MergeView { original: data, ..arbitrary() }) }
}

impl MergeView {
    /// What a key press does to the visualizer; `ret` is `false` when the key leaves it.
    pub open spec fn key_to(self, key: ControlKey, post: Self, ret: bool) -> bool {
        match key {
            ControlKey::Escape => !ret && post == self,
            ControlKey::Space => ret && if self.completed {
                post == merge_reset(self)
            } else if self.is_running {
                post == MergeView { is_paused: !self.is_paused, ..self }
            } else {
                post == MergeView { is_running: true, is_paused: false, ..self }
            },
            ControlKey::Reset => ret && post == merge_reset(self),
            ControlKey::Step => ret && if !self.completed && !self.is_running {
                exists|b: bool| self.step_to(post, b)
            } else {
                post == self
            },
            ControlKey::Faster => ret && post == MergeView {
                speed: faster_speed(self.speed, 100),
                ..self
            },
            ControlKey::Slower => ret && post == MergeView {
                speed: slower_speed(self.speed, 100, 3000),
                ..self
            },
            _ => ret && post == self,
        }
    }

    /// One automatic step: a step, and when it reports the end, the run stops,
    /// is marked completed and every element is marked sorted.
    pub open spec fn auto_step_to(self, post: Self) -> bool {
        if self.is_running && !self.is_paused && !self.completed {
            exists|mid: Self, b: bool| #[trigger] self.step_to(mid, b) && if b {
                post == mid
            } else {
                post == MergeView {
                    is_running: false,
                    completed: true,
                    states: all_sorted(mid.states.len()),
                    ..mid
                }
            }
        } else {
            post == self
        }
    }
}

impl View for MergeSortVisualizer {
    type V = MergeView;

    closed spec fn view(&self) -> MergeView {
        MergeView {
            array: self.array@,
            original: self.original_array@,
            states: self.states@,
            temp: self.temp@,
            comparisons: self.comparisons,
            swaps: self.swaps,
            is_running: self.is_running,
            is_paused: self.is_paused,
            speed: self.speed,
            completed: self.completed,
            current_size: self.current_size as int,
            current_pair_start: self.current_pair_start as int,
            low: self.low as int,
            high: self.high as int,
            mid: self.mid as int,
            i: self.i as int,
            j: self.j as int,
            k: self.k as int,
            phase: self.phase,
        }
    }
}

/// A vector of `len` zeros.
pub fn zeros(len: usize) -> (v: Vec<u32>)
    ensures
        v@ == Seq::new(len as nat, |k: int| 0u32),
{
    let mut v: Vec<u32> = Vec::new();
    let mut k: usize = 0;
    while k < len
        invariant
            k <= len,
            v@.len() == k,
            forall|m: int| 0 <= m < k ==> v@[m] == 0u32,
        decreases len - k,
    {
        v.push(0);
        k = k + 1;
    }
    assert(v@ =~= Seq::new(len as nat, |k: int| 0u32));
    v
}

/// Copies `src[lo..=hi]` into the same positions of `dst`.
pub fn copy_range(dst: &mut Vec<u32>, src: &Vec<u32>, lo: usize, hi: usize)
    requires
        old(dst)@.len() == src@.len(),
        lo <= hi < src@.len(),
    ensures
        final(dst)@ == Seq::new(
            src@.len(),
            |x: int| if lo <= x <= hi { src@[x] } else { old(dst)@[x] },
        ),
{
    let n = src.len();
    let mut x = lo;
    while x <= hi
        invariant
            n == src@.len(),
            dst@.len() == src@.len(),
            hi < src@.len(),
            lo <= x <= hi + 1,
            forall|m: int| 0 <= m < src@.len() ==> #[trigger] dst@[m] == if lo <= m < x {
                src@[m]
            } else {
                old(dst)@[m]
            },
        decreases hi + 1 - x,
    {
        let v = src[x];
        dst.set(x, v);
        x = x + 1;
    }
    assert(dst@ =~= Seq::new(
        src@.len(),
        |x: int| if lo <= x <= hi { src@[x] } else { old(dst)@[x] },
    ));
}

/// Moving the front value of one remaining run to the end of the merged prefix keeps the
/// multiset of the four parts.
pub proof fn lemma_move_front(p: Seq<u32>, l: Seq<u32>, r: Seq<u32>, s: Seq<u32>, from_left: bool)
    requires
        from_left ==> l.len() > 0,
        !from_left ==> r.len() > 0,
    ensures
        from_left ==> (p.push(l[0]) + l.drop_first() + r + s).to_multiset() == (p + l + r + s).to_multiset(),
        !from_left ==> (p.push(r[0]) + l + r.drop_first() + s).to_multiset() == (p + l + r + s).to_multiset(),
{
    broadcast use vstd::multiset::group_multiset_axioms;
    broadcast use vstd::seq_lib::to_multiset_build;
    broadcast use vstd::seq_lib::to_multiset_remove;
    broadcast use vstd::seq_lib::to_multiset_contains;
    if from_left {
        assert(p.push(l[0]) + l.drop_first() =~= p + l);
        assert(p.push(l[0]) + l.drop_first() + r + s =~= p + l + r + s);
    } else {
        lemma_four_parts(p, l, r, s);
        lemma_four_parts(p.push(r[0]), l, r.drop_first(), s);
        assert(r.drop_first() =~= r.remove(0));
        assert(r.contains(r[0]));
        let x = r[0];
        assert(p.push(x).to_multiset() == p.to_multiset().insert(x));
        assert(r.drop_first().to_multiset() == r.to_multiset().remove(x));
        assert forall|y: u32|
            #[trigger] p.push(x).to_multiset().add(l.to_multiset()).add(r.drop_first().to_multiset()).count(y)
                == p.to_multiset().add(l.to_multiset()).add(r.to_multiset()).count(y) by {
            assert(r.to_multiset().count(x) > 0);
        }
        assert(p.push(x).to_multiset().add(l.to_multiset()).add(r.drop_first().to_multiset()) =~= p.to_multiset().add(l.to_multiset()).add(r.to_multiset()));
    }
}

/// The line that says what the sort is doing.
pub open spec fn merge_operation_text(v: MergeView) -> Seq<char> {
    if v.completed {
        "✓ Array is now sorted!"@
    } else {
        match v.phase {
            MergePhase::MergePairs => "Merging pairs of size "@ + decimal_text((v.current_size) as nat),
            MergePhase::MergingInit => "Initializing merge ["@ + decimal_text((v.low) as nat) + ".."@ + decimal_text((v.mid) as nat) + "] + ["@ + decimal_text((v.mid + 1) as nat) + ".."@ + decimal_text((v.high) as nat) + "]"@,
            MergePhase::MergingStep => "Merging: left["@ + decimal_text((v.i - v.low) as nat) + "]="@ + decimal_text((if v.i <= v.mid { v.temp[v.i] } else { 0 }) as nat) + " vs right["@ + decimal_text((v.j - (v.mid + 1)) as nat) + "]="@ + decimal_text((if v.j <= v.high { v.temp[v.j] } else { 0 }) as nat) + " -> pos "@ + decimal_text((v.k) as nat),
            MergePhase::DoneMerge => "Merge complete for ["@ + decimal_text((v.low) as nat) + ".."@ + decimal_text((v.high) as nat) + "]"@,
        }
    }
}

/// The bar colors of an element in `state`: the two halves being merged keep the plain
/// colors.
pub open spec fn merge_bar_colors(state: SelectionState) -> (TermColor, TermColor) {
    match state {
        SelectionState::PartitionLeft | SelectionState::PartitionRight => (TermColor::Cyan, TermColor::Reset),
        _ => state_colors(state),
    }
}

impl MergeSortVisualizer {
    /// The invariant that every state reachable from `new` keeps.
    pub open spec fn wf(&self) -> bool {
        self@.inv() && self@.pass_in_order()
    }

    /// Whether the counters and the run size leave room for another step.
    pub fn can_step(&self) -> (r: bool)
        ensures
            r == (self@.comparisons < u32::MAX && self@.swaps < u32::MAX && self@.current_size
                <= usize::MAX / 4),
    {
        self.comparisons < u32::MAX && self.swaps < u32::MAX && self.current_size <= usize::MAX / 4
    }

    /// Creates a visualizer for the given array.
    pub fn new(array_data: &ArrayData) -> (r: Self)
        requires
            array_data.data@.len() <= usize::MAX / 4,
        ensures
            r.wf(),
            r@ == merge_start(array_data.data@),
    {
        let array = array_data.data.clone();
        let len = array.len();
        proof {
            assert(array@ =~= array_data.data@);
        }
        let original_array = array.clone();
        proof {
            assert(original_array@ =~= array@);
        }
        let r = Self {
            original_array,
            array,
            temp: zeros(len),
            states: uniform_states(SelectionState::Normal, len),
            comparisons: 0,
            swaps: 0,
            is_running: false,
            is_paused: false,
            speed: 800,
            completed: false,
            current_size: 1,
            current_pair_start: 0,
            low: 0,
            high: 0,
            mid: 0,
            i: 0,
            j: 0,
            k: 0,
            phase: MergePhase::MergePairs,
        };
        proof {
            assert(r@ =~= merge_start(array_data.data@));
        }
        r
    }

    /// Performs one step of merge sort; returns `false` once the runs cover the whole
    /// array, and then the array is sorted. A pass merges each pair of runs, the last one
    /// possibly short; a lone run at the end stays for the next pass. The visualizer always
    /// holds the original values.
    pub fn step(&mut self) -> (ret: bool)
        requires
            old(self).wf(),
            old(self)@.comparisons < u32::MAX,
            old(self)@.swaps < u32::MAX,
            old(self)@.current_size <= usize::MAX / 4,
        ensures
            final(self).wf(),
            old(self)@.step_to(final(self)@, ret),
            !ret ==> permutation(final(self)@.array, final(self)@.original),
            !ret ==> sorted(final(self)@.array),
    {
        let ghost pre = self@;
        let ret = self.advance();
        proof {
            law_merge_pass_step(pre, self@, ret);
        }
        ret
    }

    /// One step, as `step` states it but for the runs' order.
    #[verifier::rlimit(60)]
    fn advance(&mut self) -> (ret: bool)
        requires
            old(self)@.inv(),
            old(self)@.comparisons < u32::MAX,
            old(self)@.swaps < u32::MAX,
            old(self)@.current_size <= usize::MAX / 4,
        ensures
            final(self)@.inv(),
            old(self)@.step_to(final(self)@, ret),
            !ret ==> permutation(final(self)@.array, final(self)@.original),
    {
        let ghost pre = self@;
        normalize_states(&mut self.states);
        let n = self.array.len();
        match self.phase {
            MergePhase::MergePairs => {
                if self.current_pair_start + self.current_size >= n {
                    self.current_size = self.current_size * 2;
                    self.current_pair_start = 0;
                    if self.current_size >= n {
                        return false;
                    }
                }
                let left = self.current_pair_start;
                self.low = left;
                self.mid = (left + self.current_size).saturating_sub(1);
                let right_start = left + self.current_size;
                let end = if left + 2 * self.current_size < n { left + 2 * self.current_size } else { n };
                self.high = end.saturating_sub(1);
                self.i = self.low;
                self.j = right_start;
                self.k = self.low;
                let ghost before = self.temp@;
                if self.low <= self.mid {
                    copy_range(&mut self.temp, &self.array, self.low, self.mid);
                }
                let ghost middle = self.temp@;
                if right_start <= self.high {
                    copy_range(&mut self.temp, &self.array, right_start, self.high);
                }
                self.phase = MergePhase::MergingInit;
                proof {
                    let v = self@;
                    assert(v.mid + 1 == right_start);
                    assert(v.temp =~= Seq::new(
                        n as nat,
                        |x: int| if (v.low <= x <= v.mid) || (right_start <= x <= v.high) { v.array[x] } else { pre.temp[x] },
                    ));
                    assert(v.temp.subrange(v.low, v.mid + 1) =~= v.array.subrange(v.low, v.mid + 1));
                    assert(v.temp.subrange(v.mid + 1, v.high + 1) =~= v.array.subrange(v.mid + 1, v.high + 1));
                    assert(v.contents() =~= v.array);
                }
                true
            },
            MergePhase::MergingInit => {
                self.phase = MergePhase::MergingStep;
                true
            },
            MergePhase::MergingStep => {
                if self.i <= self.mid {
                    self.states.set(self.i, SelectionState::PartitionLeft);
                }
                if self.j <= self.high {
                    self.states.set(self.j, SelectionState::PartitionRight);
                }
                let ghost marked = self@;
                if self.i > self.mid && self.j > self.high {
                    self.phase = MergePhase::DoneMerge;
                } else if self.i > self.mid {
                    let v = self.temp[self.j];
                    self.array.set(self.k, v);
                    self.swaps = self.swaps + 1;
                    self.k = self.k + 1;
                    self.j = self.j + 1;
                    proof { Self::lemma_took(marked, self@, false); }
                } else if self.j > self.high {
                    let v = self.temp[self.i];
                    self.array.set(self.k, v);
                    self.swaps = self.swaps + 1;
                    self.k = self.k + 1;
                    self.i = self.i + 1;
                    proof { Self::lemma_took(marked, self@, true); }
                } else {
                    self.comparisons = self.comparisons + 1;
                    if self.temp[self.i] <= self.temp[self.j] {
                        let v = self.temp[self.i];
                        self.array.set(self.k, v);
                        self.k = self.k + 1;
                        self.i = self.i + 1;
                        proof { Self::lemma_took(marked, self@, true); }
                    } else {
                        let v = self.temp[self.j];
                        self.array.set(self.k, v);
                        self.k = self.k + 1;
                        self.j = self.j + 1;
                        proof { Self::lemma_took(marked, self@, false); }
                    }
                    self.swaps = self.swaps + 1;
                }
                proof {
                    let s1 = if pre.i <= pre.mid { normalized(pre.states).update(pre.i, SelectionState::PartitionLeft) } else { normalized(pre.states) };
                    let s2 = if pre.j <= pre.high { s1.update(pre.j, SelectionState::PartitionRight) } else { s1 };
                    assert(self@.states =~= s2);
                }
                true
            },
            MergePhase::DoneMerge => {
                let ghost entry = self@;
                let next_start = self.current_pair_start + 2 * self.current_size;
                while self.i <= self.mid
                    invariant
                        self.i > self.mid,
                        self@ == entry,
                    decreases 0nat,
                {
                    let v = self.temp[self.i];
                    self.array.set(self.k, v);
                    self.swaps = self.swaps + 1;
                    self.k = self.k + 1;
                    self.i = self.i + 1;
                }
                while self.j <= self.high
                    invariant
                        self.j > self.high,
                        self@ == entry,
                    decreases 0nat,
                {
                    let v = self.temp[self.j];
                    self.array.set(self.k, v);
                    self.swaps = self.swaps + 1;
                    self.k = self.k + 1;
                    self.j = self.j + 1;
                }
                let mut idx = self.low;
                while idx <= self.high
                    invariant
                        self.states@.len() == n,
                        pre.low <= idx <= pre.high + 1,
                        self.low == pre.low,
                        self.high == pre.high,
                        pre.high < n,
                        self@ == (MergeView { states: self@.states, ..entry }),
                        forall|x: int| 0 <= x < n ==> #[trigger] self.states@[x] == if pre.low <= x < idx {
                            SelectionState::Sorted
                        } else {
                            normalized(pre.states)[x]
                        },
                    decreases pre.high + 1 - idx,
                {
                    self.states.set(idx, SelectionState::Sorted);
                    idx = idx + 1;
                }
                self.current_pair_start = next_start;
                self.phase = MergePhase::MergePairs;
                proof {
                    let v = self@;
                    assert(v.states =~= Seq::new(
                        n as nat,
                        |x: int| if pre.low <= x <= pre.high { SelectionState::Sorted } else { normalized(pre.states)[x] },
                    ));
                    assert(pre.contents() =~= pre.array.subrange(0, pre.k) + pre.array.subrange(pre.high + 1, n as int));
                    assert(pre.array =~= pre.array.subrange(0, pre.k) + pre.array.subrange(pre.high + 1, n as int));
                }
                true
            },
        }
    }

    /// Taking the front of one remaining run into the merged prefix keeps the invariant.
    proof fn lemma_took(pre: MergeView, post: MergeView, from_left: bool)
        requires
            pre.inv(),
            pre.phase == MergePhase::MergingStep,
            from_left ==> pre.i <= pre.mid,
            !from_left ==> pre.j <= pre.high,
            post == (MergeView {
                array: pre.array.update(pre.k, if from_left { pre.temp[pre.i] } else { pre.temp[pre.j] }),
                k: pre.k + 1,
                i: if from_left { pre.i + 1 } else { pre.i },
                j: if from_left { pre.j } else { pre.j + 1 },
                swaps: post.swaps,
                comparisons: post.comparisons,
                ..pre
            }),
        ensures
            permutation(post.contents(), post.original),
    {
        let n = pre.array.len() as int;
        let p = pre.array.subrange(0, pre.k);
        let l = pre.temp.subrange(pre.i, pre.mid + 1);
        let r = pre.temp.subrange(pre.j, pre.high + 1);
        let s = pre.array.subrange(pre.high + 1, n);
        lemma_move_front(p, l, r, s, from_left);
        if from_left {
            assert(post.contents() =~= p.push(l[0]) + l.drop_first() + r + s);
        } else {
            assert(post.contents() =~= p.push(r[0]) + l + r.drop_first() + s);
        }
    }

    /// Returns the visualizer to its initial state on the original array, keeping the speed.
    pub fn reset(&mut self)
        requires
            old(self).wf(),
        ensures
            final(self).wf(),
            final(self)@ == merge_reset(old(self)@),
    {
        let len = self.original_array.len();
        self.array = self.original_array.clone();
        proof {
            assert(self.array@ =~= self.original_array@);
        }
        self.temp = zeros(len);
        self.states = uniform_states(SelectionState::Normal, len);
        self.comparisons = 0;
        self.swaps = 0;
        self.is_running = false;
        self.is_paused = false;
        self.completed = false;
        self.current_size = 1;
        self.current_pair_start = 0;
        self.phase = MergePhase::MergePairs;
        self.low = 0;
        self.high = 0;
        self.mid = 0;
        self.i = 0;
        self.j = 0;
        self.k = 0;
        proof {
            assert(self@ =~= merge_reset(old(self)@));
        }
    }

    /// Marks every element sorted.
    pub fn mark_all_sorted(&mut self)
        requires
            old(self).wf(),
        ensures
            final(self).wf(),
            final(self)@ == (MergeView { states: all_sorted(old(self)@.states.len()), ..old(self)@ }),
    {
        let ghost pre = self@;
        mark_states_sorted(&mut self.states);
    }

    /// Handles one key press of the visualizer loop; returns `false` when the key leaves it.
    pub fn handle_key(&mut self, key: ControlKey) -> (ret: bool)
        requires
            old(self).wf(),
            old(self)@.comparisons < u32::MAX,
            old(self)@.swaps < u32::MAX,
            old(self)@.current_size <= usize::MAX / 4,
        ensures
            final(self).wf(),
            old(self)@.key_to(key, final(self)@, ret),
    {
        let ghost pre = self@;
        match key {
            ControlKey::Space => {
                if self.completed {
                    self.reset();
                } else if self.is_running {
                    self.is_paused = !self.is_paused;
                } else {
                    self.is_running = true;
                    self.is_paused = false;
                }
                true
            },
            ControlKey::Reset => {
                self.reset();
                true
            },
            ControlKey::Step => {
                if !self.completed && !self.is_running {
                    let _ = self.step();
                }
                true
            },
            ControlKey::Faster => {
                self.speed = lower_speed(self.speed, 100);
                true
            },
            ControlKey::Slower => {
                self.speed = raise_speed(self.speed, 100, 3000);
                true
            },
            ControlKey::Escape => false,
            _ => true,
        }
    }

    /// Whether the loop should wait and take an automatic step.
    pub fn wants_auto_step(&self) -> (r: bool)
        ensures
            r == (self@.is_running && !self@.is_paused && !self@.completed),
    {
        self.is_running && !self.is_paused && !self.completed
    }

    /// Takes an automatic step when running; when the step reports the end, stops the
    /// run, marks it completed and marks every element sorted.
    pub fn auto_step(&mut self)
        requires
            old(self).wf(),
            old(self)@.comparisons < u32::MAX,
            old(self)@.swaps < u32::MAX,
            old(self)@.current_size <= usize::MAX / 4,
        ensures
            final(self).wf(),
            old(self)@.auto_step_to(final(self)@),
    {
        if self.is_running && !self.is_paused && !self.completed {
            let ghost pre = self@;
            let more = self.step();
            let ghost mid = self@;
            if !more {
                self.is_running = false;
                self.completed = true;
                self.mark_all_sorted();
            }
            proof {
                assert(pre.step_to(mid, more));
            }
        }
    }

    /// The line that says what the sort is doing.
    pub fn get_current_operation(&self) -> (r: String)
        requires
            self.wf(),
        ensures
            r@ == merge_operation_text(self@),
    {
        if self.completed {
            return String::from_str("✓ Array is now sorted!");
        }
        match self.phase {
            MergePhase::MergePairs => {
                let mut r = String::from_str("Merging pairs of size ");
                append_decimal(&mut r, (self.current_size) as u64);
                r
            },
            MergePhase::MergingInit => {
                let mut r = String::from_str("Initializing merge [");
                append_decimal(&mut r, (self.low) as u64);
                r.append("..");
                append_decimal(&mut r, (self.mid) as u64);
                r.append("] + [");
                append_decimal(&mut r, (self.mid + 1) as u64);
                r.append("..");
                append_decimal(&mut r, (self.high) as u64);
                r.append("]");
                r
            },
            MergePhase::MergingStep => {
                let mut r = String::from_str("Merging: left[");
                append_decimal(&mut r, (self.i - self.low) as u64);
                r.append("]=");
                append_decimal(&mut r, (if self.i <= self.mid { self.temp[self.i] } else { 0 }) as u64);
                r.append(" vs right[");
                append_decimal(&mut r, (self.j - (self.mid + 1)) as u64);
                r.append("]=");
                append_decimal(&mut r, (if self.j <= self.high { self.temp[self.j] } else { 0 }) as u64);
                r.append(" -> pos ");
                append_decimal(&mut r, (self.k) as u64);
                r
            },
            MergePhase::DoneMerge => {
                let mut r = String::from_str("Merge complete for [");
                append_decimal(&mut r, (self.low) as u64);
                r.append("..");
                append_decimal(&mut r, (self.high) as u64);
                r.append("]");
                r
            },
        }
    }

    /// The bar colors of element `i`.
    pub fn bar_colors(&self, i: usize) -> (r: (TermColor, TermColor))
        requires
            self.wf(),
            i < self@.array.len(),
        ensures
            r == merge_bar_colors(self@.states[i as int]),
    {
        match self.states[i] {
            SelectionState::PartitionLeft | SelectionState::PartitionRight => (TermColor::Cyan, TermColor::Reset),
            other => VisualizerDrawer::get_state_colors(other),
        }
    }

    /// The array in its current order.
    pub fn array(&self) -> (r: &Vec<u32>)
        ensures
            r@ == self@.array,
    {
        &self.array
    }

    /// The visual state of each element.
    pub fn states(&self) -> (r: &Vec<SelectionState>)
        ensures
            r@ == self@.states,
    {
        &self.states
    }

    /// The copy of the runs being merged.
    pub fn temp(&self) -> (r: &Vec<u32>)
        ensures
            r@ == self@.temp,
    {
        &self.temp
    }

    /// Number of comparisons so far.
    pub fn comparisons(&self) -> (r: u32)
        ensures
            r == self@.comparisons,
    {
        self.comparisons
    }

    /// Number of swaps or moves so far.
    pub fn swaps(&self) -> (r: u32)
        ensures
            r == self@.swaps,
    {
        self.swaps
    }

    /// Delay between automatic steps, in milliseconds.
    pub fn speed(&self) -> (r: u64)
        ensures
            r == self@.speed,
    {
        self.speed
    }

    /// Whether the run is going.
    pub fn is_running(&self) -> (r: bool)
        ensures
            r == self@.is_running,
    {
        self.is_running
    }

    /// Whether the run is paused.
    pub fn is_paused(&self) -> (r: bool)
        ensures
            r == self@.is_paused,
    {
        self.is_paused
    }

    /// Length of the runs being merged.
    pub fn current_size(&self) -> (r: usize)
        ensures
            r as int == self@.current_size,
    {
        self.current_size
    }

    /// Start of the current pair of runs.
    pub fn current_pair_start(&self) -> (r: usize)
        ensures
            r as int == self@.current_pair_start,
    {
        self.current_pair_start
    }

    /// Start of the left run.
    pub fn low(&self) -> (r: usize)
        ensures
            r as int == self@.low,
    {
        self.low
    }

    /// End of the left run.
    pub fn mid(&self) -> (r: usize)
        ensures
            r as int == self@.mid,
    {
        self.mid
    }

    /// End of the right run.
    pub fn high(&self) -> (r: usize)
        ensures
            r as int == self@.high,
    {
        self.high
    }

    /// Next position of the left run.
    pub fn i(&self) -> (r: usize)
        ensures
            r as int == self@.i,
    {
        self.i
    }

    /// Next position of the right run.
    pub fn j(&self) -> (r: usize)
        ensures
            r as int == self@.j,
    {
        self.j
    }

    /// Next position of the merged run.
    pub fn k(&self) -> (r: usize)
        ensures
            r as int == self@.k,
    {
        self.k
    }

    /// The current phase.
    pub fn phase(&self) -> (r: MergePhase)
        ensures
            r == self@.phase,
    {
        self.phase
    }

    /// Whether the sort has completed.
    pub fn is_completed(&self) -> (r: bool)
        ensures
            r == self@.completed,
    {
        self.completed
    }
}

} // verus!
