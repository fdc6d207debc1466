use vstd::prelude::*;
use crate::enums::SelectionState;

verus! {

/// A terminal color, as the screens pick them.
#[derive(Clone, Copy, PartialEq, Eq, Debug, Structural)]
pub enum TermColor {
    Reset,
    Black,
    Red,
    DarkRed,
    Green,
    DarkGreen,
    Yellow,
    DarkYellow,
    Blue,
    DarkBlue,
    Magenta,
    DarkMagenta,
    Cyan,
    White,
    DarkGrey,
    /// A color of the 256-color palette, by its number.
    Ansi(u8),
}

/// The palette number of orange, the color of a right-hand pointer.
pub const ORANGE: u8 = 208;

/// The bar colors of an element in each state: (foreground, background).
pub open spec fn state_colors(state: SelectionState) -> (TermColor, TermColor) {
    match state {
        SelectionState::Normal => (TermColor::Cyan, TermColor::Reset),
        SelectionState::Sorted => (TermColor::Green, TermColor::DarkGreen),
        SelectionState::CurrentMin => (TermColor::Yellow, TermColor::DarkYellow),
        SelectionState::Comparing => (TermColor::Magenta, TermColor::DarkMagenta),
        SelectionState::Selected => (TermColor::White, TermColor::DarkBlue),
        SelectionState::Swapping => (TermColor::Red, TermColor::DarkRed),
        SelectionState::PartitionLeft => (TermColor::Blue, TermColor::DarkBlue),
        SelectionState::PartitionRight => (TermColor::Blue, TermColor::DarkBlue),
    }
}

/// The bar colors of the sorts that tell the two pointers apart: as `state_colors`, but
/// orange for the right-hand pointer.
pub open spec fn pointer_colors(state: SelectionState) -> (TermColor, TermColor) {
    match state {
        SelectionState::PartitionRight => (TermColor::Ansi(ORANGE), TermColor::DarkBlue),
        _ => state_colors(state),
    }
}

/// The color of each decimal digit: dark grey, red, orange, yellow, green, cyan, blue,
/// purple, magenta and white from 0 to 9; cyan otherwise.
pub open spec fn digit_color(digit: u32) -> TermColor {
    if digit == 0 {
        TermColor::Ansi(240)
    } else if digit == 1 {
        TermColor::Ansi(196)
    } else if digit == 2 {
        TermColor::Ansi(202)
    } else if digit == 3 {
        TermColor::Ansi(226)
    } else if digit == 4 {
        TermColor::Ansi(46)
    } else if digit == 5 {
        TermColor::Ansi(51)
    } else if digit == 6 {
        TermColor::Ansi(21)
    } else if digit == 7 {
        TermColor::Ansi(93)
    } else if digit == 8 {
        TermColor::Ansi(201)
    } else if digit == 9 {
        TermColor::Ansi(255)
    } else {
        TermColor::Cyan
    }
}

/// The width of each bar, the gap between bars, and the room the bars take, for `len`
/// bars on a screen `width` columns wide: the widest bars, up to 3 columns, that fit in
/// the width less a margin of 4 columns, with a one-column gap between bars of two or
/// more columns.
pub open spec fn bar_sizes(width: int, len: int) -> (int, int, int) {
    let available: int = if width >= 4 { width - 4 } else { 0 };
    let bar_width: int = if available / len >= 3 {
        3
    } else if available / len >= 2 {
        2
    } else {
        1
    };
    let spacing: int = if bar_width >= 2 { 1 } else { 0 };
    (bar_width, spacing, len * bar_width + (len - 1) * spacing)
}

/// The bar width, the gap, and the first bar's column with the bars centered. Where the
/// widest bars that suit the width do not fit, the bars are one column wide with no gap;
/// where even those do not fit, they start at the first column and run past the edge.
pub open spec fn bar_layout_spec(width: int, len: int) -> (usize, usize, usize) {
    let (bar_width, spacing, needed) = bar_sizes(width, len);
    if needed <= width {
        (bar_width as usize, spacing as usize, ((width - needed) / 2) as usize)
    } else if len <= width {
        (1usize, 0usize, ((width - len) / 2) as usize)
    } else {
        (1usize, 0usize, 0usize)
    }
}

/// The drawing helpers shared by the visualizers.
pub struct VisualizerDrawer;

impl VisualizerDrawer {
    /// Where the bars of `len` values go on a screen `width` columns wide.
    pub fn bar_layout(width: u16, len: usize) -> (r: (usize, usize, usize))
        requires
            len > 0,
        ensures
            r == bar_layout_spec(width as int, len as int),
    {
        let available = (width as usize).saturating_sub(4);
        let per_bar = available / len;
        let bar_width: usize = if per_bar >= 3 {
            3
        } else if per_bar >= 2 {
            2
        } else {
            1
        };
        let spacing: usize = if bar_width >= 2 { 1 } else { 0 };
        proof {
            assert(per_bar * len <= available) by (nonlinear_arith)
                requires
                    per_bar == available / len,
                    len > 0,
            ;
            if bar_width >= 2 {
                assert(bar_width * len <= per_bar * len) by (nonlinear_arith)
                    requires
                        bar_width <= per_bar,
            ;
            }
        }
        let needed = len * bar_width + (len - 1) * spacing;
        if needed <= width as usize {
            (bar_width, spacing, (width as usize - needed) / 2)
        } else if len <= width as usize {
            (1, 0, (width as usize - len) / 2)
        } else {
            (1, 0, 0)
        }
    }

    /// The colors of an element in `state`.
    pub fn get_state_colors(state: SelectionState) -> (r: (TermColor, TermColor))
        ensures
            r == state_colors(state),
    {
        match state {
            SelectionState::Normal => (TermColor::Cyan, TermColor::Reset),
            SelectionState::Sorted => (TermColor::Green, TermColor::DarkGreen),
            SelectionState::CurrentMin => (TermColor::Yellow, TermColor::DarkYellow),
            SelectionState::Comparing => (TermColor::Magenta, TermColor::DarkMagenta),
            SelectionState::Selected => (TermColor::White, TermColor::DarkBlue),
            SelectionState::Swapping => (TermColor::Red, TermColor::DarkRed),
            SelectionState::PartitionLeft | SelectionState::PartitionRight => (
                TermColor::Blue,
                TermColor::DarkBlue,
            ),
        }
    }

    /// The colors of an element in `state` where the right-hand pointer is orange.
    pub fn get_pointer_colors(state: SelectionState) -> (r: (TermColor, TermColor))
        ensures
            r == pointer_colors(state),
    {
        match state {
            SelectionState::PartitionRight => (TermColor::Ansi(ORANGE), TermColor::DarkBlue),
            _ => Self::get_state_colors(state),
        }
    }

    /// The color of a decimal digit.
    pub fn get_digit_color(digit: u32) -> (r: TermColor)
        ensures
            r == digit_color(digit),
    {
        match digit {
            0 => TermColor::Ansi(240),
            1 => TermColor::Ansi(196),
            2 => TermColor::Ansi(202),
            3 => TermColor::Ansi(226),
            4 => TermColor::Ansi(46),
            5 => TermColor::Ansi(51),
            6 => TermColor::Ansi(21),
            7 => TermColor::Ansi(93),
            8 => TermColor::Ansi(201),
            9 => TermColor::Ansi(255),
            _ => TermColor::Cyan,
        }
    }
}

} // verus!
