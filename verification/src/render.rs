//! The text of what is shown: a grid as a picture, a number in decimal, a
//! whole frame of the animation.

use vstd::prelude::*;
use vstd::string::StringExecFns;
use crate::grid::{Cell, Cells, Grid};

verus! {

/// The character that a cell is shown as: a dot for a dead cell, a filled
/// square for a live one.
pub open spec fn glyph(cell: Cell) -> char {
    if cell == 0 {
        '.'
    } else {
        '\u{25a0}'
    }
}

/// A row as it is shown: the glyph of each cell, a space after each.
pub open spec fn row_picture(row: Seq<Cell>) -> Seq<char>
    decreases row.len(),
{
    if row.len() == 0 {
        Seq::empty()
    } else {
        row_picture(row.drop_last()) + seq![glyph(row.last()), ' ']
    }
}

/// A grid as it is shown: its rows, a line feed after each.
pub open spec fn picture(g: Cells) -> Seq<char>
    decreases g.len(),
{
    if g.len() == 0 {
        Seq::empty()
    } else {
        picture(g.drop_last()) + row_picture(g.last()) + seq!['\n']
    }
}

/// The character of a decimal digit.
pub open spec fn digit_char(d: nat) -> char {
    if d == 0 {
        '0'
    } else if d == 1 {
        '1'
    } else if d == 2 {
        '2'
    } else if d == 3 {
        '3'
    } else if d == 4 {
        '4'
    } else if d == 5 {
        '5'
    } else if d == 6 {
        '6'
    } else if d == 7 {
        '7'
    } else if d == 8 {
        '8'
    } else {
        '9'
    }
}

/// A number in decimal, without leading zeros.
pub open spec fn decimal(n: nat) -> Seq<char>
    decreases n,
{
    if n < 10 {
        seq![digit_char(n)]
    } else {
        decimal(n / 10).push(digit_char(n % 10))
    }
}

/// The control sequence that clears the screen.
pub open spec fn clear_text() -> Seq<char> {
    seq!['\u{1b}', '[', '2', 'J']
}

/// The control sequence that moves the cursor to the top left corner.
pub open spec fn home_text() -> Seq<char> {
    seq!['\u{1b}', '[', 'H']
}

/// The words before the number in the header of a frame.
pub open spec fn header_text() -> Seq<char> {
    seq!['G', 'e', 'n', 'e', 'r', 'a', 't', 'i', 'o', 'n', ' ']
}

/// One frame of the animation: the cursor is sent home, so that the frame
/// lies over the one before; then comes a header line with the number of
/// the generation, then the grid.
pub open spec fn frame_text(generation: nat, g: Cells) -> Seq<char> {
    home_text() + header_text() + decimal(generation) + seq!['\n'] + picture(g)
}

/// The text of a decimal digit.
fn digit_str(d: u64) -> (text: &'static str)
    requires
        d < 10,
    ensures
        text@ == seq![digit_char(d as nat)],
{
    proof {
        reveal_strlit("0");
        reveal_strlit("1");
        reveal_strlit("2");
        reveal_strlit("3");
        reveal_strlit("4");
        reveal_strlit("5");
        reveal_strlit("6");
        reveal_strlit("7");
        reveal_strlit("8");
        reveal_strlit("9");
    }
    if d == 0 {
        "0"
    } else if d == 1 {
        "1"
    } else if d == 2 {
        "2"
    } else if d == 3 {
        "3"
    } else if d == 4 {
        "4"
    } else if d == 5 {
        "5"
    } else if d == 6 {
        "6"
    } else if d == 7 {
        "7"
    } else if d == 8 {
        "8"
    } else {
        "9"
    }
}

/// Appends `n` in decimal to `out`.
fn append_decimal(out: &mut String, n: u64)
    ensures
        final(out)@ == old(out)@ + decimal(n as nat),
    decreases n,
{
    if n >= 10 {
        append_decimal(out, n / 10);
    }
    out.append(digit_str(n % 10));
}

/// Writes `n` in decimal.
pub fn to_decimal(n: u64) -> (text: String)
    ensures
        text@ == decimal(n as nat),
{
    let mut text = String::new();
    append_decimal(&mut text, n);
    text
}

/// Appends the picture of `grid` to `out`.
fn append_picture(out: &mut String, grid: &Grid)
    ensures
        final(out)@ == old(out)@ + picture(grid.deep_view()),
{
    let ghost g = grid.deep_view();
    let ghost start = out@;
    proof {
        reveal_strlit(". ");
        reveal_strlit("\u{25a0} ");
        reveal_strlit("\n");
    }
    for r in 0..grid.len()
        invariant
            g == grid.deep_view(),
            out@ == start + picture(g.take(r as int)),
            ". "@ == seq!['.', ' '],
            "\u{25a0} "@ == seq!['\u{25a0}', ' '],
            "\n"@ == seq!['\n'],
    {
        let ghost before = out@;
        let width: usize = grid[r].len();
        for c in 0..width
            invariant
                g == grid.deep_view(),
                r < grid.len(),
                width == grid[r as int].len(),
                out@ == before + row_picture(g[r as int].take(c as int)),
                ". "@ == seq!['.', ' '],
                "\u{25a0} "@ == seq!['\u{25a0}', ' '],
        {
            let ghost row = g[r as int];
            proof {
                assert(row.take(c + 1).drop_last() =~= row.take(c as int));
            }
            if grid[r][c] == 0 {
                out.append(". ");
            } else {
                out.append("\u{25a0} ");
            }
        }
        out.append("\n");
        proof {
            assert(g[r as int].take(width as int) =~= g[r as int]);
            assert(g.take(r + 1).drop_last() =~= g.take(r as int));
        }
    }
    proof {
        assert(g.take(grid.len() as int) =~= g);
    }
}

/// Draws a grid: one line for each row, a dot for each dead cell and a
/// filled square for each live one, a space after each.
pub fn render_grid(grid: &Grid) -> (text: String)
    ensures
        text@ == picture(grid.deep_view()),
{
    let mut text = String::new();
    append_picture(&mut text, grid);
    text
}

/// The control sequence that clears the screen; it goes out once, before
/// the first frame.
pub fn clear_screen() -> (text: &'static str)
    ensures
        text@ == clear_text(),
{
    proof {
        reveal_strlit("\x1b[2J");
    }
    "\x1b[2J"
}

/// Draws one frame: the cursor is sent home, then come the header with the
/// number of the generation and the grid.
pub fn render_frame(generation: u64, grid: &Grid) -> (text: String)
    ensures
        text@ == frame_text(generation as nat, grid.deep_view()),
{
    proof {
        reveal_strlit("\x1b[H");
        reveal_strlit("Generation ");
        reveal_strlit("\n");
    }
    let mut text = String::new();
    text.append("\x1b[H");
    text.append("Generation ");
    append_decimal(&mut text, generation);
    text.append("\n");
    append_picture(&mut text, grid);
    text
}

} // verus!
