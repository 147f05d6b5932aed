//! What one frame shows: the two regions of the screen, the window of the
//! scrollback that fits, the title, and where the cursor stands.

use crate::classify::Color;
use ratatui::layout::{Constraint, Direction, Layout};
use vstd::prelude::*;

verus! {

/// The fewest rows the log region is asked to have.
pub const LOG_MIN_ROWS: u16 = 3;

/// The rows of the input region: one line of text inside a border.
pub const INPUT_ROWS: u16 = 3;

/// A rectangle of the screen, in cells.
#[derive(Clone, Copy, Debug, PartialEq, Eq, Structural)]
pub struct Rect {
    pub x: u16,
    pub y: u16,
    pub width: u16,
    pub height: u16,
}

/// One line of the log as it is shown.
#[derive(Debug, PartialEq, Eq)]
pub struct StyledLine {
    pub text: String,
    pub color: Color,
}

/// Everything one frame shows.
#[derive(Debug, PartialEq, Eq)]
pub struct Frame {
    /// Where the log goes, border included.
    pub log_area: Rect,
    /// Where the input line goes, border included.
    pub input_area: Rect,
    /// The title of the log region.
    pub title: String,
    /// The visible lines of the log, top to bottom.
    pub items: Vec<StyledLine>,
    /// The prompt followed by the line being edited.
    pub input_text: String,
    /// The cell of the cursor, column first; `None` when it lies beyond
    /// the last cell that can be addressed.
    pub cursor: Option<(u16, u16)>,
}

/// A `Frame` as plain values.
pub struct FrameView {
    pub log_area: Rect,
    pub input_area: Rect,
    pub title: Seq<char>,
    pub items: Seq<(Seq<char>, Color)>,
    pub input_text: Seq<char>,
    pub cursor: Option<(u16, u16)>,
}

impl View for Frame {
    type V = FrameView;

    open spec fn view(&self) -> FrameView {
        FrameView {
            log_area: self.log_area,
            input_area: self.input_area,
            title: self.title@,
            items: Seq::new(self.items@.len(), |i: int| (self.items@[i].text@, self.items@[i].color)),
            input_text: self.input_text@,
            cursor: self.cursor,
        }
    }
}

/// The rows left for lines in a region of `height` rows with a border.
pub open spec fn rows_inside(height: u16) -> nat {
    if height >= 2 {
        (height - 2) as nat
    } else {
        0
    }
}

/// The scroll offset that takes effect: `scroll`, but no more than the
/// number of lines that do not fit in `rows`.
pub open spec fn clamped_scroll(total: nat, rows: nat, scroll: nat) -> nat {
    let most = if total > rows {
        (total - rows) as nat
    } else {
        0
    };
    if scroll < most {
        scroll
    } else {
        most
    }
}

/// The position of the first visible line among `total`.
pub open spec fn window_start(total: nat, rows: nat, scroll: nat) -> nat {
    if total > rows {
        (total - rows - clamped_scroll(total, rows, scroll)) as nat
    } else {
        0
    }
}

/// The position behind the last visible line among `total`.
pub open spec fn window_end(total: nat, rows: nat, scroll: nat) -> nat {
    if window_start(total, rows, scroll) + rows < total {
        window_start(total, rows, scroll) + rows
    } else {
        total
    }
}

/// The character for the digit `d`.
pub open spec fn digit_char(d: nat) -> char {
    if d == 0 {
        '0'
    } else if d == 1 {
        '1'
    } else if d == 2 {
        '2'
    } else if d == 3 {
        '3'
    } else if d == 4 {
        '4'
    } else if d == 5 {
        '5'
    } else if d == 6 {
        '6'
    } else if d == 7 {
        '7'
    } else if d == 8 {
        '8'
    } else {
        '9'
    }
}

/// `n` written in decimal, without leading zeros.
pub open spec fn decimal(n: nat) -> Seq<char>
    decreases n,
{
    if n < 10 {
        seq![digit_char(n)]
    } else {
        decimal(n / 10).push(digit_char(n % 10))
    }
}

/// The title of the log region: its name, followed while scrolled by an
/// upward arrow and the offset, in parentheses.
pub open spec fn title_for(scrolled: nat) -> Seq<char> {
    if scrolled > 0 {
        "R-Term"@ + " (\u{2191}"@ + decimal(scrolled) + ")"@
    } else {
        "R-Term"@
    }
}

/// The cell of the cursor: in the row below the top border of the input
/// region, behind its left border, the prompt and the characters before
/// the cursor.
pub open spec fn cursor_cell(input_area: Rect, prompt_len: nat, cursor: nat) -> Option<(u16, u16)> {
    let x = input_area.x + prompt_len + cursor + 1;
    let y = input_area.y + 1;
    if x <= u16::MAX && y <= u16::MAX {
        Some((x as u16, y as u16))
    } else {
        None
    }
}

/// Whether `part` is a band of `area`: it spans the columns of `area` and
/// lies within its rows.
pub open spec fn is_band_of(part: Rect, area: Rect) -> bool {
    &&& part.x == area.x
    &&& part.width == area.width
    &&& area.y <= part.y
    &&& part.y + part.height <= area.y + area.height
}

/// Splits `area` into two regions, one above the other: the upper one is
/// asked to have at least `min_rows` rows, the lower one exactly
/// `fixed_rows`.
///
/// Trusted: stands for `ratatui::layout::Layout::split` on a vertical
/// layout with the constraints `Min(min_rows)` and `Length(fixed_rows)`.
/// That function hands the rows out with a constraint solver, and how many
/// each region gets is not claimed here. What is claimed holds of every
/// outcome: each region takes its columns from `area` unchanged, and its
/// first and last row lie within `area`, which the layout demands of every
/// boundary as a constraint that the solver must meet.
#[verifier::external_body]
pub(crate) fn split_rows(area: Rect, min_rows: u16, fixed_rows: u16) -> (parts: (Rect, Rect))
    ensures
        is_band_of(parts.0, area),
        is_band_of(parts.1, area),
{
    let outer =
        ratatui::layout::Rect { x: area.x, y: area.y, width: area.width, height: area.height };
    let limits = [Constraint::Min(min_rows), Constraint::Length(fixed_rows)];
    let parts = Layout::default().direction(Direction::Vertical).constraints(limits).split(outer);
    let (a, b) = (parts[0], parts[1]);
    (
        Rect { x: a.x, y: a.y, width: a.width, height: a.height },
        Rect { x: b.x, y: b.y, width: b.width, height: b.height },
    )
}

/// Computes `rows_inside`.
pub fn inner_rows(area: Rect) -> (rows: usize)
    ensures
        rows == rows_inside(area.height),
{
    area.height.saturating_sub(2) as usize
}

/// The window of a log of `total` lines that is shown in `rows` rows when
/// scrolled up by `scroll`: where it starts, where it ends, and the
/// offset that took effect.
pub fn visible_window(total: usize, rows: usize, scroll: usize) -> (window: (usize, usize, usize))
    ensures
        window.0 == window_start(total as nat, rows as nat, scroll as nat),
        window.1 == window_end(total as nat, rows as nat, scroll as nat),
        window.2 == clamped_scroll(total as nat, rows as nat, scroll as nat),
        window.0 <= window.1 <= total,
        window.1 - window.0 <= rows,
{
    let most: usize = if total > rows {
        total - rows
    } else {
        0
    };
    let clamped: usize = if scroll < most {
        scroll
    } else {
        most
    };
    let start: usize = if total > rows {
        total - rows - clamped
    } else {
        0
    };
    let end: usize = if total - start > rows {
        start + rows
    } else {
        total
    };
    (start, end, clamped)
}

/// The character for the digit `d`.
fn digit(d: usize) -> (c: char)
    requires
        d < 10,
    ensures
        c == digit_char(d as nat),
{
    if d == 0 {
        '0'
    } else if d == 1 {
        '1'
    } else if d == 2 {
        '2'
    } else if d == 3 {
        '3'
    } else if d == 4 {
        '4'
    } else if d == 5 {
        '5'
    } else if d == 6 {
        '6'
    } else if d == 7 {
        '7'
    } else if d == 8 {
        '8'
    } else {
        '9'
    }
}

/// Appends `n` in decimal to `out`.
fn push_decimal(out: &mut String, n: usize)
    ensures
        final(out)@ == old(out)@ + decimal(n as nat),
    decreases n,
{
    if n >= 10 {
        push_decimal(out, n / 10);
    }
    crate::text::push_char(out, digit(n % 10));
    proof {
        if n >= 10 {
            assert(old(out)@ + decimal(n as nat) =~= (old(out)@ + decimal((n / 10) as nat)).push(
                digit_char((n % 10) as nat),
            ));
        } else {
            assert(old(out)@ + decimal(n as nat) =~= old(out)@.push(digit_char(n as nat)));
        }
    }
}

/// The title of the log region when scrolled up by `scrolled` lines.
pub fn title(scrolled: usize) -> (out: String)
    ensures
        out@ == title_for(scrolled as nat),
{
    let mut out = "R-Term".to_owned();
    if scrolled > 0 {
        out = out.concat(" (\u{2191}");
        push_decimal(&mut out, scrolled);
        out = out.concat(")");
    }
    out
}

/// The cell of the cursor for a prompt of `prompt_len` characters and a
/// cursor behind `cursor` characters of the line.
pub fn cursor_position(input_area: Rect, prompt_len: usize, cursor: usize) -> (cell: Option<
    (u16, u16),
>)
    ensures
        cell == cursor_cell(input_area, prompt_len as nat, cursor as nat),
{
    if prompt_len > 0xFFFF || cursor > 0xFFFF {
        return None;
    }
    let x: u64 = input_area.x as u64 + prompt_len as u64 + cursor as u64 + 1;
    let y: u64 = input_area.y as u64 + 1;
    if x <= 0xFFFF && y <= 0xFFFF {
        Some((x as u16, y as u16))
    } else {
        None
    }
}

} // verus!
