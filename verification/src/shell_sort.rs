use vstd::prelude::*;
use vstd::string::StringExecFns;
use crate::text::{append_decimal, decimal_text};
use crate::colors::{TermColor, VisualizerDrawer, pointer_colors};
use crate::array_manager::ArrayData;
use crate::base_visualizer::{ControlKey, faster_speed, slower_speed, lower_speed, raise_speed};
use crate::enums::{SelectionState, normalized, all_sorted, normalize_states, uniform_states, mark_states_sorted};
use crate::insertion_sort::sorted_except;
use crate::sequences::{lex_before, sorted, permutation, swapped, lemma_swap_permutation, lemma_short_sorted};

verus! {

/// The phases of shell sort.
#[derive(Clone, Copy, PartialEq, Eq, Debug, Structural)]
pub enum ShellPhase {
    /// Starting a new gap.
    StartingGap,
    /// Taking the next element of the current group.
    InsertionSorting,
    /// Comparing the element one gap back with the key.
    ComparingElements,
    /// Shifting an element one gap forward.
    ShiftingElement,
    /// Writing the key into its position.
    InsertingElement,
    /// A group, or the whole gap, is done.
    GapComplete,
    /// Sorting is complete.
    Done,
}

/// Visualizes shell sort (Knuth gaps) one step at a time.
pub struct ShellSortVisualizer {
    array: Vec<u32>,
    original_array: Vec<u32>,
    states: Vec<SelectionState>,
    comparisons: u32,
    swaps: u32,
    is_running: bool,
    is_paused: bool,
    speed: u64,
    completed: bool,
    gap: usize,
    current_group: usize,
    current_index: usize,
    insertion_index: usize,
    comparing_index: usize,
    key: u32,
    phase: ShellPhase,
    gap_sequence: Vec<usize>,
    gap_sequence_index: usize,
}

/// The abstract state of a [`ShellSortVisualizer`].
pub struct ShellView {
    pub array: Seq<u32>,
    pub original: Seq<u32>,
    pub states: Seq<SelectionState>,
    pub comparisons: u32,
    pub swaps: u32,
    pub is_running: bool,
    pub is_paused: bool,
    pub speed: u64,
    pub completed: bool,
    pub gap: int,
    pub current_group: int,
    pub current_index: int,
    pub insertion_index: int,
    pub comparing_index: int,
    pub key: u32,
    pub phase: ShellPhase,
    pub gap_sequence: Seq<usize>,
    pub gap_sequence_index: int,
}

/// The gaps 1, 4, 13, 40, ... from `g` on that are below `n`, in increasing order.
pub open spec fn knuth_from(g: nat, n: nat) -> Seq<usize>
    decreases (if g < n { (n - g) as nat } else { 0nat }),
{
    if g < n && g >= 1 {
        seq![g as usize] + knuth_from(3 * g + 1, n)
    } else {
        Seq::empty()
    }
}

/// The Knuth gaps below `n`, largest first.
pub open spec fn knuth_gaps(n: nat) -> Seq<usize> {
    knuth_from(1, n).reverse()
}

/// The gaps from `g` on are at least `g`, below `n`, and after the first above `g`.
pub proof fn lemma_knuth_from(g: nat, n: nat)
    requires
        g >= 1,
        n <= usize::MAX,
    ensures
        forall|k: int| 0 <= k < knuth_from(g, n).len() ==> g <= #[trigger] knuth_from(g, n)[k] < n,
        forall|k: int| 0 < k < knuth_from(g, n).len() ==> #[trigger] knuth_from(g, n)[k] > g,
        g < n ==> knuth_from(g, n).len() >= 1 && knuth_from(g, n)[0] == g,
    decreases (if g < n { (n - g) as nat } else { 0nat }),
{
    if g < n {
        lemma_knuth_from(3 * g + 1, n);
        let rest = knuth_from(3 * g + 1, n);
        assert(knuth_from(g, n) == seq![g as usize] + rest);
        assert forall|k: int| 0 < k < knuth_from(g, n).len() implies #[trigger] knuth_from(g, n)[k] > g by {
            assert(knuth_from(g, n)[k] == rest[k - 1]);
        }
    }
}

/// The Knuth gaps below `n` lie in `[1, n)`, only the last is 1, and for `n >= 2` there is one.
pub proof fn lemma_knuth_gaps(n: nat)
    requires
        n <= usize::MAX,
    ensures
        forall|k: int| 0 <= k < knuth_gaps(n).len() ==> 1 <= #[trigger] knuth_gaps(n)[k] < n,
        forall|k: int| 0 <= k < knuth_gaps(n).len() - 1 ==> #[trigger] knuth_gaps(n)[k] > 1,
        n >= 2 ==> knuth_gaps(n).len() >= 1 && knuth_gaps(n)[knuth_gaps(n).len() - 1] == 1,
{
    lemma_knuth_from(1, n);
    let up = knuth_from(1, n);
    let len = up.len() as int;
    assert forall|k: int| 0 <= k < len implies 1 <= #[trigger] knuth_gaps(n)[k] < n by {
        assert(knuth_gaps(n)[k] == up[len - 1 - k]);
    }
    assert forall|k: int| 0 <= k < len - 1 implies #[trigger] knuth_gaps(n)[k] > 1 by {
        assert(knuth_gaps(n)[k] == up[len - 1 - k]);
    }
}

/// `k` is where the scan from `start` for the next position of group `r` (modulo `g`)
/// stops: the first such position, or the first position at or past `n`.
pub open spec fn group_scan(start: int, g: int, r: int, n: int, k: int) -> bool {
    &&& start <= k
    &&& k < n ==> k % g == r
    &&& forall|m: int| start <= m < k ==> m < n && #[trigger] (m % g) != r
}

impl ShellView {
    /// How much is left: the gaps still to start, the groups left in the pass, the
    /// positions left in the group, and the place where the key is being inserted.
    pub open spec fn shell_measure(self) -> (int, int, int, int) {
        let n = self.array.len() as int;
        let gaps = 2 * (self.gap_sequence.len() - self.gap_sequence_index) + if self.phase
            == ShellPhase::StartingGap {
            1int
        } else {
            0int
        };
        let groups = if self.in_pass() { self.gap - self.current_group } else { 0 };
        let positions = if self.phase == ShellPhase::GapComplete || !self.in_pass() {
            0
        } else if self.current_index < n {
            n + 1 - self.current_index
        } else {
            1
        };
        let insertion = match self.phase {
            ShellPhase::InsertionSorting => 2 * n + 3,
            ShellPhase::ComparingElements => 2 * self.insertion_index + 2,
            ShellPhase::ShiftingElement => 2 * self.insertion_index + 1,
            _ => 0,
        };
        (gaps, groups, positions, insertion)
    }

    /// Whether a round holds the key outside the array.
    pub open spec fn holding(self) -> bool {
        ||| self.phase == ShellPhase::ComparingElements
        ||| self.phase == ShellPhase::ShiftingElement
        ||| self.phase == ShellPhase::InsertingElement
    }

    /// Whether a gap pass is under way.
    pub open spec fn in_pass(self) -> bool {
        ||| self.phase == ShellPhase::InsertionSorting
        ||| self.holding()
        ||| self.phase == ShellPhase::GapComplete
    }

    /// The values the visualizer holds: the array with the key put back into its slot.
    pub open spec fn contents(self) -> Seq<u32> {
        if self.holding() {
            self.array.update(self.insertion_index, self.key)
        } else {
            self.array
        }
    }

    /// The invariant of a visualizer state reachable from `new` and `reset`.
    pub open spec fn inv(self) -> bool {
        let n = self.array.len();
        let a = self.array;
        let g = self.gap;
        let ci = self.current_index;
        let ii = self.insertion_index;
        let cm = self.comparing_index;
        &&& n <= usize::MAX / 4
        &&& self.original.len() == n
        &&& self.states.len() == n
        &&& permutation(self.contents(), self.original)
        &&& self.speed <= 3000
        &&& self.gap_sequence == knuth_gaps(n)
        &&& self.completed ==> !self.holding() && sorted(a)
        &&& 0 <= ci <= usize::MAX / 2
        &&& self.in_pass() ==> {
            &&& 0 <= self.gap_sequence_index < self.gap_sequence.len()
            &&& g == self.gap_sequence[self.gap_sequence_index]
            &&& 0 <= self.current_group < g
        }
        &&& self.holding() ==> 0 <= ii <= ci < n
        &&& self.phase == ShellPhase::ComparingElements ==> (ii >= g ==> cm == ii - g)
        &&& self.phase == ShellPhase::ShiftingElement ==> ii >= g && cm == ii - g
        &&& (self.phase == ShellPhase::Done || (self.phase == ShellPhase::StartingGap
            && self.gap_sequence_index >= self.gap_sequence.len())) ==> sorted(a)
        &&& (self.in_pass() && g == 1) ==> match self.phase {
            ShellPhase::InsertionSorting => ci >= 1 && sorted(a.take(if ci < n { ci } else { n as int })),
            ShellPhase::ComparingElements => {
                &&& sorted_except(a, ii, ci)
                &&& forall|q: int| ii < q <= ci ==> #[trigger] a[q] > self.key
            },
            ShellPhase::ShiftingElement => {
                &&& sorted_except(a, ii, ci)
                &&& forall|q: int| ii < q <= ci ==> #[trigger] a[q] > self.key
                &&& a[cm] > self.key
            },
            ShellPhase::InsertingElement => {
                &&& sorted_except(a, ii, ci)
                &&& forall|q: int| ii < q <= ci ==> #[trigger] a[q] > self.key
                &&& forall|p: int| 0 <= p < ii ==> #[trigger] a[p] <= self.key
            },
            _ => sorted(a),
        }
    }

    /// One step of the algorithm from `self` (not completed) to `post`, returning `ret`.
    pub open spec fn step_to(self, post: Self, ret: bool) -> bool {
        let n = self.array.len() as int;
        let a = self.array;
        let g = self.gap;
        let ci = self.current_index;
        let ii = self.insertion_index;
        let cm = self.comparing_index;
        let st = normalized(self.states);
        let same = ShellView { states: st, ..self };
        match self.phase {
            ShellPhase::StartingGap => if self.gap_sequence_index < self.gap_sequence.len() {
                let ng = self.gap_sequence[self.gap_sequence_index] as int;
                ret && post == ShellView {
                    gap: ng,
                    current_group: 0,
                    current_index: ng,
                    phase: ShellPhase::InsertionSorting,
                    ..same
                }
            } else {
                !ret && post == ShellView { phase: ShellPhase::Done, ..same }
            },
            ShellPhase::InsertionSorting => ret && if ci < n {
                let taken = ShellView {
                    key: a[ci],
                    insertion_index: ci,
                    comparing_index: if ci >= g { ci - g } else { 0 },
                    states: st.update(ci, SelectionState::CurrentMin),
                    ..same
                };
                if ci >= g {
                    post == ShellView { phase: ShellPhase::ComparingElements, ..taken }
                } else {
                    group_scan(ci + 1, g, self.current_group, n, post.current_index)
                        && post == ShellView {
                        current_index: post.current_index,
                        phase: if post.current_index >= n {
                            ShellPhase::GapComplete
                        } else {
                            ShellPhase::InsertionSorting
                        },
                        ..taken
                    }
                }
            } else {
                post == ShellView { phase: ShellPhase::GapComplete, ..same }
            },
            ShellPhase::ComparingElements => ret && if ii >= g && cm < n {
                post == ShellView {
                    states: st.update(cm, SelectionState::Comparing),
                    comparisons: (self.comparisons + 1) as u32,
                    phase: if a[cm] > self.key {
                        ShellPhase::ShiftingElement
                    } else {
                        ShellPhase::InsertingElement
                    },
                    ..same
                }
            } else {
                post == ShellView { phase: ShellPhase::InsertingElement, ..same }
            },
            ShellPhase::ShiftingElement => ret && if cm < n && ii < n {
                post == ShellView {
                    states: st.update(cm, SelectionState::Swapping).update(ii, SelectionState::Swapping),
                    array: a.update(ii, a[cm]),
                    swaps: (self.swaps + 1) as u32,
                    insertion_index: cm,
                    comparing_index: if cm >= g { cm - g } else { cm },
                    phase: if cm >= g {
                        ShellPhase::ComparingElements
                    } else {
                        ShellPhase::InsertingElement
                    },
                    ..same
                }
            } else {
                post == ShellView { phase: ShellPhase::InsertingElement, ..same }
            },
            ShellPhase::InsertingElement => ret && if ii < n {
                group_scan(ci + 1, g, self.current_group, n, post.current_index) && post == ShellView {
                    states: st.update(ii, SelectionState::Selected),
                    array: a.update(ii, self.key),
                    current_index: post.current_index,
                    phase: if post.current_index >= n {
                        ShellPhase::GapComplete
                    } else {
                        ShellPhase::InsertionSorting
                    },
                    ..same
                }
            } else {
                post == ShellView { phase: ShellPhase::GapComplete, ..same }
            },
            ShellPhase::GapComplete => if self.current_group + 1 < g {
                ret && post == ShellView {
                    current_group: self.current_group + 1,
                    current_index: self.current_group + 1 + g,
                    phase: ShellPhase::InsertionSorting,
                    ..same
                }
            } else if self.gap_sequence_index + 1 < self.gap_sequence.len() {
                ret && post == ShellView {
                    current_group: self.current_group + 1,
                    gap_sequence_index: self.gap_sequence_index + 1,
                    phase: ShellPhase::StartingGap,
                    ..same
                }
            } else {
                !ret && post == ShellView {
                    current_group: self.current_group + 1,
                    gap_sequence_index: self.gap_sequence_index + 1,
                    phase: ShellPhase::Done,
                    ..same
                }
            },
            ShellPhase::Done => !ret && post == same,
        }
    }
}

/// The state to which `reset` returns a visualizer.
pub open spec fn shell_reset(pre: ShellView) -> ShellView {
    let n = pre.original.len();
    let first = if pre.gap_sequence.len() == 0 { 1 } else { pre.gap_sequence[0] as int };
    ShellView {
        array: pre.original,
        original: pre.original,
        states: if n <= 1 { all_sorted(n) } else { Seq::new(n, |k: int| SelectionState::Normal) },
        comparisons: 0,
        swaps: 0,
        is_running: false,
        is_paused: false,
        speed: pre.speed,
        completed: n <= 1,
        gap: if n <= 1 { 1 } else { first },
        current_group: 0,
        current_index: if n <= 1 { 0 } else { first },
        insertion_index: 0,
        comparing_index: 0,
        key: 0,
        phase: if n <= 1 { ShellPhase::Done } else { ShellPhase::StartingGap },
        gap_sequence: pre.gap_sequence,
        gap_sequence_index: 0,
    }
}

/// The state in which a visualizer starts on `data`.
pub open spec fn shell_start(data: Seq<u32>) -> ShellView {
    let n = data.len();
    let gaps = knuth_gaps(n);
    let first = if gaps.len() == 0 { 1 } else { gaps[0] as int };
    ShellView {
        array: data,
        original: data,
        states: if n <= 1 { all_sorted(n) } else { Seq::new(n, |k: int| SelectionState::Normal) },
        comparisons: 0,
        swaps: 0,
        is_running: false,
        is_paused: false,
        speed: 600,
        completed: n <= 1,
        gap: if n <= 1 { 1 } else { first },
        current_group: 0,
        current_index: if n <= 1 { 0 } else { first },
        insertion_index: 0,
        comparing_index: 0,
        key: 0,
        phase: if n <= 1 { ShellPhase::Done } else { ShellPhase::StartingGap },
        gap_sequence: gaps,
        gap_sequence_index: 0,
    }
}

impl ShellView {
    /// What a key press does to the visualizer; `ret` is `false` when the key leaves it.
    pub open spec fn key_to(self, key: ControlKey, post: Self, ret: bool) -> bool {
        match key {
            ControlKey::Escape => !ret && post == self,
            ControlKey::Space => ret && if self.completed {
                post == shell_reset(self)
            } else if self.is_running {
                post == ShellView { is_paused: !self.is_paused, ..self }
            } else {
                post == ShellView { is_running: true, is_paused: false, ..self }
            },
            ControlKey::Reset => ret && post == shell_reset(self),
            ControlKey::Step => ret && if !self.completed && !self.is_running {
                exists|b: bool| self.step_to(post, b)
            } else {
                post == self
            },
            ControlKey::Faster => ret && post == ShellView {
                speed: faster_speed(self.speed, 100),
                ..self
            },
            ControlKey::Slower => ret && post == ShellView {
                speed: slower_speed(self.speed, 100, 3000),
                ..self
            },
            _ => ret && post == self,
        }
    }

    /// One automatic step: a step, and when it reports the end, the run stops,
    /// is marked completed and every element is marked sorted.
    pub open spec fn auto_step_to(self, post: Self) -> bool {
        if self.is_running && !self.is_paused && !self.completed {
            exists|mid: Self, b: bool| #[trigger] self.step_to(mid, b) && if b {
                post == mid
            } else {
                post == ShellView {
                    is_running: false,
                    completed: true,
                    states: all_sorted(mid.states.len()),
                    ..mid
                }
            }
        } else {
            post == self
        }
    }
}

impl View for ShellSortVisualizer {
    type V = ShellView;

    closed spec fn view(&self) -> ShellView {
        ShellView {
            array: self.array@,
            original: self.original_array@,
            states: self.states@,
            comparisons: self.comparisons,
            swaps: self.swaps,
            is_running: self.is_running,
            is_paused: self.is_paused,
            speed: self.speed,
            completed: self.completed,
            gap: self.gap as int,
            current_group: self.current_group as int,
            current_index: self.current_index as int,
            insertion_index: self.insertion_index as int,
            comparing_index: self.comparing_index as int,
            key: self.key,
            phase: self.phase,
            gap_sequence: self.gap_sequence@,
            gap_sequence_index: self.gap_sequence_index as int,
        }
    }
}

/// Reverses a vector in place.
pub fn reverse_in_place(v: &mut Vec<usize>)
    ensures
        final(v)@ == old(v)@.reverse(),
{
    let n = v.len();
    let mut i: usize = 0;
    while i < n / 2
        invariant
            n == v@.len(),
            n == old(v)@.len(),
            i <= n / 2,
            forall|k: int| 0 <= k < i ==> #[trigger] v@[k] == old(v)@[n - 1 - k],
            forall|k: int| 0 <= k < i ==> v@[n - 1 - k] == #[trigger] old(v)@[k],
            forall|k: int| i <= k < n - i ==> v@[k] == old(v)@[k],
        decreases n / 2 - i,
    {
        let a = v[i];
        let b = v[n - 1 - i];
        v.set(i, b);
        v.set(n - 1 - i, a);
        i = i + 1;
    }
    assert(v@ =~= old(v)@.reverse());
}

/// The Knuth gaps 1, 4, 13, ... below `len`, largest first.
pub fn knuth_gap_sequence(len: usize) -> (r: Vec<usize>)
    requires
        len <= usize::MAX / 4,
    ensures
        r@ == knuth_gaps(len as nat),
{
    let mut gap_sequence: Vec<usize> = Vec::new();
    let mut gap: usize = 1;
    while gap < len
        invariant
            gap >= 1,
            len <= usize::MAX / 4,
            gap_sequence@ + knuth_from(gap as nat, len as nat) == knuth_from(1, len as nat),
        decreases (if gap < len { len - gap } else { 0 }),
    {
        let ghost before = gap_sequence@;
        let ghost old_gap = gap;
        assert(knuth_from(gap as nat, len as nat) == seq![gap] + knuth_from(3 * gap as nat + 1, len as nat));
        gap_sequence.push(gap);
        gap = gap * 3 + 1;
        assert(gap_sequence@ + knuth_from(gap as nat, len as nat) =~= before + knuth_from(
            old_gap as nat,
            len as nat,
        ));
    }
    assert(knuth_from(gap as nat, len as nat) == Seq::<usize>::empty());
    assert(gap_sequence@ =~= knuth_from(1, len as nat));
    reverse_in_place(&mut gap_sequence);
    gap_sequence
}

/// The scan from `start` for the next position of group `r` modulo `g`.
pub fn next_in_group(start: usize, g: usize, r: usize, n: usize) -> (k: usize)
    requires
        g >= 1,
        start <= n,
    ensures
        group_scan(start as int, g as int, r as int, n as int, k as int),
        k <= n,
{
    let mut k = start;
    while k < n && k % g != r
        invariant
            g >= 1,
            start <= k <= n,
            forall|m: int| start <= m < k ==> m < n && #[trigger] (m % (g as int)) != r,
        decreases n - k,
    {
        k = k + 1;
    }
    k
}

/// The line that says what the sort is doing.
pub open spec fn shell_operation_text(v: ShellView) -> Seq<char> {
    if v.completed {
        "✓ Array is now sorted using Shell Sort!"@
    } else {
        match v.phase {
            ShellPhase::StartingGap => "Starting gap-"@ + decimal_text((v.gap) as nat) + " insertion sort for group "@ + decimal_text((v.current_group) as nat),
            ShellPhase::InsertionSorting => if v.current_index < v.array.len() {
                "Gap-"@ + decimal_text((v.gap) as nat) + " sort: processing element "@ + decimal_text((v.current_index) as nat) + " (value: "@ + decimal_text((v.array[v.current_index]) as nat) + ")"@
            } else {
                "Gap-"@ + decimal_text((v.gap) as nat) + " insertion sorting"@
            },
            ShellPhase::ComparingElements => if v.insertion_index < v.array.len() && v.comparing_index < v.array.len() {
                "Comparing key "@ + decimal_text((v.key) as nat) + " with element at "@ + decimal_text((v.comparing_index) as nat) + " (value: "@ + decimal_text((v.array[v.comparing_index]) as nat) + ")"@
            } else {
                "Comparing elements..."@
            },
            ShellPhase::ShiftingElement => if v.comparing_index < v.array.len() {
                "Shifting element "@ + decimal_text((v.comparing_index) as nat) + " (value: "@ + decimal_text((v.array[v.comparing_index]) as nat) + ") "@ + decimal_text((v.gap) as nat) + " positions right"@
            } else {
                "Shifting element..."@
            },
            ShellPhase::InsertingElement => "Inserting key "@ + decimal_text((v.key) as nat) + " at position "@ + decimal_text((v.insertion_index) as nat),
            ShellPhase::GapComplete => "Gap-"@ + decimal_text((v.gap) as nat) + " sorting completed, moving to next gap"@,
            ShellPhase::Done => "Shell sort completed!"@,
        }
    }
}

/// The bar colors of element `i`: an element of the current group under a gap above 1
/// that carries no other state has a dark blue background; the right pointer is orange.
pub open spec fn shell_bar_colors(v: ShellView, i: int) -> (TermColor, TermColor) {
    if v.states[i] == SelectionState::Normal && v.gap > 1 && i % v.gap == v.current_group {
        (TermColor::Cyan, TermColor::DarkBlue)
    } else {
        pointer_colors(v.states[i])
    }
}

/// The color of the links between the elements of a group: blue, green, red and yellow for
/// the first four groups, magenta for the others.
pub open spec fn group_color(group: int) -> TermColor {
    if group == 0 {
        TermColor::Blue
    } else if group == 1 {
        TermColor::Green
    } else if group == 2 {
        TermColor::Red
    } else if group == 3 {
        TermColor::Yellow
    } else {
        TermColor::Magenta
    }
}

/// The pairs of neighbours `(i, i + gap)` of the group that starts at `i`, for a gap above
/// 0, both below `n`.
pub open spec fn links_from(i: int, gap: int, n: int) -> Seq<(usize, usize)>
    decreases n - i,
{
    if gap > 0 && i + gap < n {
        seq![(i as usize, (i + gap) as usize)] + links_from(i + gap, gap, n)
    } else {
        Seq::empty()
    }
}

/// The links drawn between the elements of the current group: none once sorted or under a
/// gap of 1.
pub open spec fn shell_group_links(v: ShellView) -> Seq<(usize, usize)> {
    if v.gap > 1 && !v.completed {
        links_from(v.current_group, v.gap, v.array.len() as int)
    } else {
        Seq::empty()
    }
}

/// The line on the current pass: the gap, the group, and the two indices in play.
pub open spec fn gap_info_line(v: ShellView) -> Seq<char> {
    "Gap: "@ + decimal_text(v.gap as nat) + " | Group: "@ + decimal_text(v.current_group as nat)
        + " | Current Index: "@ + decimal_text(v.current_index as nat) + " | Insertion Point: "@
        + decimal_text(v.insertion_index as nat)
}

/// One gap of the sequence line, in brackets where it is the marked one.
pub open spec fn gap_item(gap: usize, marked: bool) -> Seq<char> {
    if marked {
        "["@ + decimal_text(gap as nat) + "] "@
    } else {
        decimal_text(gap as nat) + " "@
    }
}

/// The gaps of `gaps`, each followed by a space, the one at `marked` in brackets.
pub open spec fn gap_items(gaps: Seq<usize>, marked: int) -> Seq<char>
    decreases gaps.len(),
{
    if gaps.len() == 0 {
        Seq::empty()
    } else {
        gap_items(gaps.drop_last(), marked) + gap_item(gaps.last(), gaps.len() - 1 == marked)
    }
}

/// The line that lists the gap sequence, the current gap marked until the sort completes.
pub open spec fn gap_sequence_line(v: ShellView) -> Seq<char> {
    "Gap Sequence: "@ + gap_items(v.gap_sequence, if v.completed { -1 } else { v.gap_sequence_index })
}

/// The name of each phase in the statistics.
pub open spec fn shell_phase_label(phase: ShellPhase) -> Seq<char> {
    match phase {
        ShellPhase::StartingGap => "Starting Gap"@,
        ShellPhase::InsertionSorting => "Insertion Sort"@,
        ShellPhase::ComparingElements => "Comparing"@,
        ShellPhase::ShiftingElement => "Shifting"@,
        ShellPhase::InsertingElement => "Inserting"@,
        ShellPhase::GapComplete => "Gap Complete"@,
        ShellPhase::Done => "Done"@,
    }
}

impl ShellSortVisualizer {
    /// The invariant that every state reachable from `new` keeps.
    pub open spec fn wf(&self) -> bool {
        self@.inv()
    }

    /// Whether the counters leave room for another step.
    pub fn can_step(&self) -> (r: bool)
        ensures
            r == (self@.comparisons < u32::MAX && self@.swaps < u32::MAX),
    {
        self.comparisons < u32::MAX && self.swaps < u32::MAX
    }

    /// Creates a visualizer for the given array; arrays of at most one element start completed.
    pub fn new(array_data: &ArrayData) -> (r: Self)
        requires
            array_data.data@.len() <= usize::MAX / 4,
        ensures
            r.wf(),
            r@ == shell_start(array_data.data@),
    {
        let array = array_data.data.clone();
        let len = array.len();
        proof {
            assert(array@ =~= array_data.data@);
            lemma_knuth_gaps(len as nat);
        }
        let original_array = array.clone();
        proof {
            assert(original_array@ =~= array@);
        }
        let gap_sequence = knuth_gap_sequence(len);
        if len <= 1 {
            let r = Self {
                original_array,
                array,
                states: uniform_states(SelectionState::Sorted, len),
                comparisons: 0,
                swaps: 0,
                is_running: false,
                is_paused: false,
                speed: 600,
                completed: true,
                gap: 1,
                current_group: 0,
                current_index: 0,
                insertion_index: 0,
                comparing_index: 0,
                key: 0,
                phase: ShellPhase::Done,
                gap_sequence,
                gap_sequence_index: 0,
            };
            proof {
                assert(r@.states =~= shell_start(array_data.data@).states);
                lemma_short_sorted(r@.array);
            }
            r
        } else {
            let initial_gap = if gap_sequence.len() == 0 { 1 } else { gap_sequence[0] };
            let r = Self {
                original_array,
                array,
                states: uniform_states(SelectionState::Normal, len),
                comparisons: 0,
                swaps: 0,
                is_running: false,
                is_paused: false,
                speed: 600,
                completed: false,
                gap: initial_gap,
                current_group: 0,
                current_index: initial_gap,
                insertion_index: 0,
                comparing_index: 0,
                key: 0,
                phase: ShellPhase::StartingGap,
                gap_sequence,
                gap_sequence_index: 0,
            };
            proof {
                assert(r@.states =~= shell_start(array_data.data@).states);
            }
            r
        }
    }

    /// Performs one step of shell sort; returns `false` once the sort is over.
    /// When it returns `false`, the array is sorted and holds the original values.
    pub fn step(&mut self) -> (ret: bool)
        requires
            old(self).wf(),
            old(self)@.comparisons < u32::MAX,
            old(self)@.swaps < u32::MAX,
        ensures
            final(self).wf(),
            old(self)@.completed ==> !ret && final(self)@ == old(self)@,
            !old(self)@.completed ==> old(self)@.step_to(final(self)@, ret),
            !ret ==> sorted(final(self)@.array) && permutation(final(self)@.array, final(self)@.original),
    {
        if self.completed {
            return false;
        }
        let ghost pre = self@;
        proof {
            lemma_knuth_gaps(pre.array.len());
        }
        normalize_states(&mut self.states);
        let n = self.array.len();
        match self.phase {
            ShellPhase::StartingGap => {
                if self.gap_sequence_index < self.gap_sequence.len() {
                    self.gap = self.gap_sequence[self.gap_sequence_index];
                    self.current_group = 0;
                    self.current_index = self.gap;
                    self.phase = ShellPhase::InsertionSorting;
                    proof {
                        if self.gap == 1 {
                            assert(self@.array.take(1) =~= seq![self@.array[0]]);
                        }
                    }
                    true
                } else {
                    self.phase = ShellPhase::Done;
                    false
                }
            },
            ShellPhase::InsertionSorting => {
                if self.current_index < n {
                    self.key = self.array[self.current_index];
                    self.insertion_index = self.current_index;
                    self.comparing_index = if self.current_index >= self.gap {
                        self.current_index - self.gap
                    } else {
                        0
                    };
                    self.states.set(self.current_index, SelectionState::CurrentMin);
                    if self.insertion_index >= self.gap {
                        self.phase = ShellPhase::ComparingElements;
                        proof {
                            assert(self@.contents() =~= pre.array);
                            if pre.gap == 1 {
                                let a = self@.array;
                                let ci = pre.current_index;
                                assert forall|p: int, q: int| 0 <= p < q <= ci && p != ci && q != ci
                                    implies #[trigger] a[p] <= #[trigger] a[q] by {
                                    assert(a.take(ci)[p] == a[p]);
                                    assert(a.take(ci)[q] == a[q]);
                                }
                            }
                        }
                    } else {
                        let next = next_in_group(self.current_index + 1, self.gap, self.current_group, n);
                        self.current_index = next;
                        if self.current_index >= n {
                            self.phase = ShellPhase::GapComplete;
                        }
                    }
                    proof {
                        assert(self@.states =~= normalized(pre.states).update(pre.current_index, SelectionState::CurrentMin));
                    }
                } else {
                    self.phase = ShellPhase::GapComplete;
                    proof {
                        if pre.gap == 1 {
                            assert(self@.array.take(n as int) =~= self@.array);
                        }
                    }
                }
                true
            },
            ShellPhase::ComparingElements => {
                if self.insertion_index >= self.gap && self.comparing_index < n {
                    self.states.set(self.comparing_index, SelectionState::Comparing);
                    self.comparisons = self.comparisons + 1;
                    if self.array[self.comparing_index] > self.key {
                        self.phase = ShellPhase::ShiftingElement;
                    } else {
                        self.phase = ShellPhase::InsertingElement;
                    }
                    proof {
                        assert(self@.states =~= normalized(pre.states).update(pre.comparing_index, SelectionState::Comparing));
                        assert(self@.contents() =~= pre.contents());
                    }
                } else {
                    self.phase = ShellPhase::InsertingElement;
                    proof {
                        assert(self@.contents() =~= pre.contents());
                    }
                }
                true
            },
            ShellPhase::ShiftingElement => {
                if self.comparing_index < n && self.insertion_index < n {
                    self.states.set(self.comparing_index, SelectionState::Swapping);
                    self.states.set(self.insertion_index, SelectionState::Swapping);
                    let v = self.array[self.comparing_index];
                    self.array.set(self.insertion_index, v);
                    self.swaps = self.swaps + 1;
                    self.insertion_index = self.comparing_index;
                    if self.comparing_index >= self.gap {
                        self.comparing_index = self.comparing_index - self.gap;
                        self.phase = ShellPhase::ComparingElements;
                    } else {
                        self.phase = ShellPhase::InsertingElement;
                    }
                    proof {
                        let c = pre.contents();
                        lemma_swap_permutation(c, pre.insertion_index, pre.comparing_index);
                        assert(self@.contents() =~= swapped(c, pre.insertion_index, pre.comparing_index));
                        assert(self@.states =~= normalized(pre.states).update(pre.comparing_index, SelectionState::Swapping).update(pre.insertion_index, SelectionState::Swapping));
                        assert(self@.array =~= pre.array.update(pre.insertion_index, pre.array[pre.comparing_index]));
                    }
                } else {
                    self.phase = ShellPhase::InsertingElement;
                }
                true
            },
            ShellPhase::InsertingElement => {
                if self.insertion_index < n {
                    self.states.set(self.insertion_index, SelectionState::Selected);
                    self.array.set(self.insertion_index, self.key);
                    let next = next_in_group(self.current_index + 1, self.gap, self.current_group, n);
                    self.current_index = next;
                    if self.current_index >= n {
                        self.phase = ShellPhase::GapComplete;
                    } else {
                        self.phase = ShellPhase::InsertionSorting;
                    }
                    proof {
                        assert(self@.contents() =~= pre.contents());
                        assert(self@.states =~= normalized(pre.states).update(pre.insertion_index, SelectionState::Selected));
                        if pre.gap == 1 {
                            let a = self@.array;
                            let ci = self@.current_index;
                            if ci > pre.current_index + 1 {
                                assert(((pre.current_index + 1) % 1) != pre.current_group);
                            }
                            assert(ci == pre.current_index + 1);
                            let lim = if ci < n { ci } else { n as int };
                            assert(lim == ci);
                            assert forall|p: int, q: int| 0 <= p <= q < a.take(lim).len() implies
                                a.take(lim)[p] <= a.take(lim)[q] by {
                                if p < q {
                                    assert(pre.array[p] == a[p] || p == pre.insertion_index);
                                }
                            }
                            if ci >= n {
                                assert(a.take(n as int) =~= a);
                            }
                        }
                    }
                } else {
                    self.phase = ShellPhase::GapComplete;
                }
                true
            },
            ShellPhase::GapComplete => {
                self.current_group = self.current_group + 1;
                if self.current_group < self.gap {
                    self.current_index = self.current_group + self.gap;
                    self.phase = ShellPhase::InsertionSorting;
                } else {
                    let gl = self.gap_sequence.len();
                    self.gap_sequence_index = self.gap_sequence_index + 1;
                    if self.gap_sequence_index < self.gap_sequence.len() {
                        self.phase = ShellPhase::StartingGap;
                    } else {
                        self.phase = ShellPhase::Done;
                        return false;
                    }
                }
                true
            },
            ShellPhase::Done => false,
        }
    }

    /// Returns the visualizer to its initial state on the original array, keeping the speed
    /// and the gap sequence.
    pub fn reset(&mut self)
        requires
            old(self).wf(),
        ensures
            final(self).wf(),
            final(self)@ == shell_reset(old(self)@),
    {
        let len = self.original_array.len();
        self.array = self.original_array.clone();
        proof {
            assert(self.array@ =~= self.original_array@);
            lemma_knuth_gaps(len as nat);
        }
        self.states = uniform_states(SelectionState::Normal, len);
        self.comparisons = 0;
        self.swaps = 0;
        self.is_running = false;
        self.is_paused = false;
        self.completed = false;
        self.current_group = 0;
        self.current_index = 0;
        self.insertion_index = 0;
        self.comparing_index = 0;
        self.key = 0;
        self.gap_sequence_index = 0;
        if len <= 1 {
            self.completed = true;
            self.states = uniform_states(SelectionState::Sorted, len);
            self.phase = ShellPhase::Done;
            self.gap = 1;
            proof {
                lemma_short_sorted(self@.array);
            }
        } else {
            self.gap = if self.gap_sequence.len() == 0 { 1 } else { self.gap_sequence[0] };
            self.current_index = self.gap;
            self.phase = ShellPhase::StartingGap;
        }
        proof {
            assert(self@.states =~= shell_reset(old(self)@).states);
        }
    }

    /// Marks every element sorted.
    pub fn mark_all_sorted(&mut self)
        requires
            old(self).wf(),
        ensures
            final(self).wf(),
            final(self)@ == (ShellView { states: all_sorted(old(self)@.states.len()), ..old(self)@ }),
    {
        let ghost pre = self@;
        mark_states_sorted(&mut self.states);
    }

    /// Handles one key press of the visualizer loop; returns `false` when the key leaves it.
    pub fn handle_key(&mut self, key: ControlKey) -> (ret: bool)
        requires
            old(self).wf(),
            old(self)@.comparisons < u32::MAX,
            old(self)@.swaps < u32::MAX,
        ensures
            final(self).wf(),
            old(self)@.key_to(key, final(self)@, ret),
    {
        let ghost pre = self@;
        match key {
            ControlKey::Space => {
                if self.completed {
                    self.reset();
                } else if self.is_running {
                    self.is_paused = !self.is_paused;
                } else {
                    self.is_running = true;
                    self.is_paused = false;
                }
                true
            },
            ControlKey::Reset => {
                self.reset();
                true
            },
            ControlKey::Step => {
                if !self.completed && !self.is_running {
                    let _ = self.step();
                }
                true
            },
            ControlKey::Faster => {
                self.speed = lower_speed(self.speed, 100);
                true
            },
            ControlKey::Slower => {
                self.speed = raise_speed(self.speed, 100, 3000);
                true
            },
            ControlKey::Escape => false,
            _ => true,
        }
    }

    /// Whether the loop should wait and take an automatic step.
    pub fn wants_auto_step(&self) -> (r: bool)
        ensures
            r == (self@.is_running && !self@.is_paused && !self@.completed),
    {
        self.is_running && !self.is_paused && !self.completed
    }

    /// Takes an automatic step when running; when the step reports the end, stops the
    /// run, marks it completed and marks every element sorted.
    pub fn auto_step(&mut self)
        requires
            old(self).wf(),
            old(self)@.comparisons < u32::MAX,
            old(self)@.swaps < u32::MAX,
        ensures
            final(self).wf(),
            old(self)@.auto_step_to(final(self)@),
    {
        if self.is_running && !self.is_paused && !self.completed {
            let ghost pre = self@;
            let more = self.step();
            let ghost mid = self@;
            if !more {
                self.is_running = false;
                self.completed = true;
                self.mark_all_sorted();
            }
            proof {
                assert(pre.step_to(mid, more));
            }
        }
    }

    /// The line that says what the sort is doing.
    pub fn get_current_operation(&self) -> (r: String)
        requires
            self.wf(),
        ensures
            r@ == shell_operation_text(self@),
    {
        if self.completed {
            return String::from_str("✓ Array is now sorted using Shell Sort!");
        }
        match self.phase {
            ShellPhase::StartingGap => {
                let mut r = String::from_str("Starting gap-");
                append_decimal(&mut r, (self.gap) as u64);
                r.append(" insertion sort for group ");
                append_decimal(&mut r, (self.current_group) as u64);
                r
            },
            ShellPhase::InsertionSorting => {
                if self.current_index < self.array.len() {
                    let mut r = String::from_str("Gap-");
                    append_decimal(&mut r, (self.gap) as u64);
                    r.append(" sort: processing element ");
                    append_decimal(&mut r, (self.current_index) as u64);
                    r.append(" (value: ");
                    append_decimal(&mut r, (self.array[self.current_index]) as u64);
                    r.append(")");
                    r
                } else {
                    let mut r = String::from_str("Gap-");
                    append_decimal(&mut r, (self.gap) as u64);
                    r.append(" insertion sorting");
                    r
                }
            },
            ShellPhase::ComparingElements => {
                if self.insertion_index < self.array.len() && self.comparing_index < self.array.len() {
                    let mut r = String::from_str("Comparing key ");
                    append_decimal(&mut r, (self.key) as u64);
                    r.append(" with element at ");
                    append_decimal(&mut r, (self.comparing_index) as u64);
                    r.append(" (value: ");
                    append_decimal(&mut r, (self.array[self.comparing_index]) as u64);
                    r.append(")");
                    r
                } else {
                    let mut r = String::from_str("Comparing elements...");
                    r
                }
            },
            ShellPhase::ShiftingElement => {
                if self.comparing_index < self.array.len() {
                    let mut r = String::from_str("Shifting element ");
                    append_decimal(&mut r, (self.comparing_index) as u64);
                    r.append(" (value: ");
                    append_decimal(&mut r, (self.array[self.comparing_index]) as u64);
                    r.append(") ");
                    append_decimal(&mut r, (self.gap) as u64);
                    r.append(" positions right");
                    r
                } else {
                    let mut r = String::from_str("Shifting element...");
                    r
                }
            },
            ShellPhase::InsertingElement => {
                let mut r = String::from_str("Inserting key ");
                append_decimal(&mut r, (self.key) as u64);
                r.append(" at position ");
                append_decimal(&mut r, (self.insertion_index) as u64);
                r
            },
            ShellPhase::GapComplete => {
                let mut r = String::from_str("Gap-");
                append_decimal(&mut r, (self.gap) as u64);
                r.append(" sorting completed, moving to next gap");
                r
            },
            ShellPhase::Done => {
                let mut r = String::from_str("Shell sort completed!");
                r
            },
        }
    }

    /// The bar colors of element `i`.
    pub fn bar_colors(&self, i: usize) -> (r: (TermColor, TermColor))
        requires
            self.wf(),
            i < self@.array.len(),
        ensures
            r == shell_bar_colors(self@, i as int),
    {
        if self.states[i] == SelectionState::Normal && self.gap > 1 && i % self.gap == self.current_group {
            (TermColor::Cyan, TermColor::DarkBlue)
        } else {
            VisualizerDrawer::get_pointer_colors(self.states[i])
        }
    }

    /// The color of the links of the current group.
    pub fn group_color(&self) -> (r: TermColor)
        ensures
            r == group_color(self@.current_group),
    {
        match self.current_group {
            0 => TermColor::Blue,
            1 => TermColor::Green,
            2 => TermColor::Red,
            3 => TermColor::Yellow,
            _ => TermColor::Magenta,
        }
    }

    /// The links drawn between neighbouring elements of the current group.
    pub fn group_links(&self) -> (r: Vec<(usize, usize)>)
        requires
            self.wf(),
        ensures
            r@ == shell_group_links(self@),
    {
        let mut r: Vec<(usize, usize)> = Vec::new();
        if self.gap > 1 && !self.completed {
            let n = self.array.len();
            let g = self.gap;
            let mut i = self.current_group;
            while i < n && g < n - i
                invariant
                    g > 1,
                    n == self@.array.len(),
                    r@ + links_from(i as int, g as int, n as int) == links_from(
                        self@.current_group,
                        g as int,
                        n as int,
                    ),
                decreases n - i,
            {
                let ghost before = r@;
                r.push((i, i + g));
                proof {
                    let rest = links_from(i + g, g as int, n as int);
                    assert(links_from(i as int, g as int, n as int) == seq![(i, (i + g) as usize)]
                        + rest);
                    assert(r@ + rest =~= before + (seq![(i, (i + g) as usize)] + rest));
                }
                i = i + g;
            }
            assert(links_from(i as int, g as int, n as int) =~= Seq::<(usize, usize)>::empty());
            assert(r@ + Seq::<(usize, usize)>::empty() =~= r@);
        }
        r
    }

    /// The line on the current pass.
    pub fn gap_info_text(&self) -> (r: String)
        ensures
            r@ == gap_info_line(self@),
    {
        let mut r = String::from_str("Gap: ");
        append_decimal(&mut r, self.gap as u64);
        r.append(" | Group: ");
        append_decimal(&mut r, self.current_group as u64);
        r.append(" | Current Index: ");
        append_decimal(&mut r, self.current_index as u64);
        r.append(" | Insertion Point: ");
        append_decimal(&mut r, self.insertion_index as u64);
        r
    }

    /// The line that lists the gap sequence.
    pub fn gap_sequence_text(&self) -> (r: String)
        ensures
            r@ == gap_sequence_line(self@),
    {
        let mut r = String::from_str("Gap Sequence: ");
        let ghost marked: int = if self@.completed { -1 } else { self@.gap_sequence_index };
        let mut i: usize = 0;
        while i < self.gap_sequence.len()
            invariant
                i <= self.gap_sequence@.len(),
                self@.gap_sequence == self.gap_sequence@,
                marked == (if self@.completed { -1 } else { self@.gap_sequence_index }),
                r@ == "Gap Sequence: "@ + gap_items(self.gap_sequence@.take(i as int), marked),
            decreases self.gap_sequence.len() - i,
        {
            let gap = self.gap_sequence[i];
            if i == self.gap_sequence_index && !self.completed {
                r.append("[");
                append_decimal(&mut r, gap as u64);
                r.append("] ");
            } else {
                append_decimal(&mut r, gap as u64);
                r.append(" ");
            }
            proof {
                let t = self.gap_sequence@.take(i + 1);
                assert(t.drop_last() =~= self.gap_sequence@.take(i as int));
                assert(t.last() == gap);
            }
            i = i + 1;
        }
        assert(self.gap_sequence@.take(i as int) =~= self.gap_sequence@);
        r
    }

    /// The name of the current phase in the statistics.
    pub fn phase_label(&self) -> (r: &'static str)
        ensures
            r@ == shell_phase_label(self@.phase),
    {
        match self.phase {
            ShellPhase::StartingGap => "Starting Gap",
            ShellPhase::InsertionSorting => "Insertion Sort",
            ShellPhase::ComparingElements => "Comparing",
            ShellPhase::ShiftingElement => "Shifting",
            ShellPhase::InsertingElement => "Inserting",
            ShellPhase::GapComplete => "Gap Complete",
            ShellPhase::Done => "Done",
        }
    }

    /// The array in its current order.
    pub fn array(&self) -> (r: &Vec<u32>)
        ensures
            r@ == self@.array,
    {
        &self.array
    }

    /// The visual state of each element.
    pub fn states(&self) -> (r: &Vec<SelectionState>)
        ensures
            r@ == self@.states,
    {
        &self.states
    }

    /// The gaps, largest first.
    pub fn gap_sequence(&self) -> (r: &Vec<usize>)
        ensures
            r@ == self@.gap_sequence,
    {
        &self.gap_sequence
    }

    /// Number of comparisons so far.
    pub fn comparisons(&self) -> (r: u32)
        ensures
            r == self@.comparisons,
    {
        self.comparisons
    }

    /// Number of swaps or moves so far.
    pub fn swaps(&self) -> (r: u32)
        ensures
            r == self@.swaps,
    {
        self.swaps
    }

    /// Delay between automatic steps, in milliseconds.
    pub fn speed(&self) -> (r: u64)
        ensures
            r == self@.speed,
    {
        self.speed
    }

    /// Whether the run is going.
    pub fn is_running(&self) -> (r: bool)
        ensures
            r == self@.is_running,
    {
        self.is_running
    }

    /// Whether the run is paused.
    pub fn is_paused(&self) -> (r: bool)
        ensures
            r == self@.is_paused,
    {
        self.is_paused
    }

    /// The current gap.
    pub fn gap(&self) -> (r: usize)
        ensures
            r as int == self@.gap,
    {
        self.gap
    }

    /// The current group, a residue modulo the gap.
    pub fn current_group(&self) -> (r: usize)
        ensures
            r as int == self@.current_group,
    {
        self.current_group
    }

    /// The element of the group being taken.
    pub fn current_index(&self) -> (r: usize)
        ensures
            r as int == self@.current_index,
    {
        self.current_index
    }

    /// The slot that the key will fill.
    pub fn insertion_index(&self) -> (r: usize)
        ensures
            r as int == self@.insertion_index,
    {
        self.insertion_index
    }

    /// The element compared with the key.
    pub fn comparing_index(&self) -> (r: usize)
        ensures
            r as int == self@.comparing_index,
    {
        self.comparing_index
    }

    /// The key being inserted.
    pub fn key(&self) -> (r: u32)
        ensures
            r == self@.key,
    {
        self.key
    }

    /// Position of the current gap in the sequence.
    pub fn gap_sequence_index(&self) -> (r: usize)
        ensures
            r as int == self@.gap_sequence_index,
    {
        self.gap_sequence_index
    }

    /// The current phase.
    pub fn phase(&self) -> (r: ShellPhase)
        ensures
            r == self@.phase,
    {
        self.phase
    }

    /// Whether the sort has completed.
    pub fn is_completed(&self) -> (r: bool)
        ensures
            r == self@.completed,
    {
        self.completed
    }
}

} // verus!
