//! The grammar of a seed, as functions on sequences of characters.
//!
//! A seed is a sequence of lines, each ended by a line feed; the last line
//! may go without. A line is a sequence of tokens separated by white space.
//! The token `0` stands for a dead cell, the token `1` for a live one. The
//! lines up to the last one that holds a token are the rows of the grid;
//! lines without a token after it are ignored.

use vstd::prelude::*;
use crate::grid::{Cell, Cells};

verus! {

/// Why a seed text is not a grid.
#[derive(Debug, Clone, Copy, PartialEq, Eq, Structural)]
pub enum ParseError {
    /// The text has no line, or its first line has no token.
    Empty,
    /// The line with this index, counted from zero, holds a token that is
    /// neither `0` nor `1`.
    BadToken { line: usize },
    /// The line with this index, counted from zero, has another number of
    /// tokens than the first line. A line without a token that is followed
    /// by a line with one is such a line.
    RaggedRow { line: usize },
}

/// White space: the characters with the Unicode property `White_Space`.
/// The line feed and the carriage return are among them.
pub open spec fn is_space(c: char) -> bool {
    let n = c as u32;
    ||| 0x09 <= n <= 0x0d
    ||| n == 0x20
    ||| n == 0x85
    ||| n == 0xa0
    ||| n == 0x1680
    ||| 0x2000 <= n <= 0x200a
    ||| n == 0x2028
    ||| n == 0x2029
    ||| n == 0x202f
    ||| n == 0x205f
    ||| n == 0x3000
}

/// The length of the first line of `text`: the number of characters before
/// the first line feed, or all of them where there is none.
pub open spec fn line_len(text: Seq<char>) -> nat
    decreases text.len(),
{
    if text.len() == 0 || text[0] == '\n' {
        0
    } else {
        1 + line_len(text.skip(1))
    }
}

/// The lines of `text`, without the line feeds that end them. A line feed
/// at the very end of the text opens no further line.
pub open spec fn lines(text: Seq<char>) -> Seq<Seq<char>>
    decreases text.len(),
{
    if text.len() == 0 {
        Seq::empty()
    } else {
        let n = line_len(text);
        if n >= text.len() {
            seq![text]
        } else {
            seq![text.take(n as int)] + lines(text.skip(n as int + 1))
        }
    }
}

/// The length of the token at the start of `line`: the number of characters
/// before the first white space, or all of them where there is none.
pub open spec fn token_len(line: Seq<char>) -> nat
    decreases line.len(),
{
    if line.len() == 0 || is_space(line[0]) {
        0
    } else {
        1 + token_len(line.skip(1))
    }
}

/// The tokens of `line`: its longest runs of characters that are not white
/// space, in order.
pub open spec fn tokens(line: Seq<char>) -> Seq<Seq<char>>
    decreases line.len(),
{
    if line.len() == 0 {
        Seq::empty()
    } else if is_space(line[0]) {
        tokens(line.skip(1))
    } else {
        let n = token_len(line);
        if n >= line.len() {
            seq![line]
        } else {
            seq![line.take(n as int)] + tokens(line.skip(n as int))
        }
    }
}

/// The cell that a token stands for, if it stands for one.
pub open spec fn token_cell(token: Seq<char>) -> Option<Cell> {
    if token.len() == 1 && token[0] == '0' {
        Some(0)
    } else if token.len() == 1 && token[0] == '1' {
        Some(1)
    } else {
        None
    }
}

/// Whether every one of the tokens stands for a cell.
pub open spec fn all_cells(toks: Seq<Seq<char>>) -> bool {
    forall|k: int| 0 <= k < toks.len() ==> token_cell(#[trigger] toks[k]) is Some
}

/// The row of cells that `line` stands for: one cell for each token, or
/// nothing where a token is neither `0` nor `1`.
pub open spec fn row_of(line: Seq<char>) -> Option<Seq<Cell>> {
    let toks = tokens(line);
    if all_cells(toks) {
        Some(Seq::new(toks.len(), |k: int| token_cell(toks[k]).unwrap()))
    } else {
        None
    }
}

/// Whether `line` holds no token.
pub open spec fn is_blank(line: Seq<char>) -> bool {
    tokens(line).len() == 0
}

/// The number of lines that count as rows: all lines up to the last one
/// that holds a token.
pub open spec fn row_count(ls: Seq<Seq<char>>) -> nat
    decreases ls.len(),
{
    if ls.len() == 0 {
        0
    } else if !is_blank(ls.last()) {
        ls.len()
    } else {
        row_count(ls.drop_last())
    }
}

/// Whether `line` cannot be a row of a grid with `width` columns.
pub open spec fn breaks_grid(line: Seq<char>, width: nat) -> bool {
    row_of(line) is None || tokens(line).len() != width
}

/// The index of the first of the lines `0 <= k < rows` that cannot be a row
/// of a grid with `width` columns, or `rows` where each of them can.
pub open spec fn first_break(ls: Seq<Seq<char>>, width: nat, rows: nat) -> nat
    decreases rows,
{
    if rows == 0 {
        0
    } else {
        let k = first_break(ls, width, (rows - 1) as nat);
        if k < rows - 1 {
            k
        } else if breaks_grid(ls[rows - 1], width) {
            (rows - 1) as nat
        } else {
            rows
        }
    }
}

/// What a seed text stands for: the grid, or the reason why it is none.
///
/// The text is empty where it has no line or its first line holds no token.
/// Otherwise the first line gives the number of columns, and the first line
/// that cannot be a row with so many columns gives the error: a bad token
/// where it holds one, a ragged row where it does not.
pub open spec fn parse_seed(text: Seq<char>) -> Result<Cells, ParseError> {
    let ls = lines(text);
    if ls.len() == 0 || is_blank(ls[0]) {
        Err(ParseError::Empty)
    } else {
        let rows = row_count(ls);
        let k = first_break(ls, tokens(ls[0]).len(), rows);
        if k < rows {
            if row_of(ls[k as int]) is None {
                Err(ParseError::BadToken { line: k as usize })
            } else {
                Err(ParseError::RaggedRow { line: k as usize })
            }
        } else {
            Ok(Seq::new(rows, |r: int| row_of(ls[r]).unwrap()))
        }
    }
}

/// The character that a cell is written as.
pub open spec fn cell_char(cell: Cell) -> char {
    if cell == 0 {
        '0'
    } else {
        '1'
    }
}

/// A row written as a line: its cells, one space between each two.
pub open spec fn row_text(row: Seq<Cell>) -> Seq<char>
    decreases row.len(),
{
    if row.len() == 0 {
        Seq::empty()
    } else if row.len() == 1 {
        seq![cell_char(row[0])]
    } else {
        row_text(row.drop_last()) + seq![' ', cell_char(row.last())]
    }
}

/// A grid written as a seed: its rows as lines, a line feed after each.
pub open spec fn seed_text(g: Cells) -> Seq<char>
    decreases g.len(),
{
    if g.len() == 0 {
        Seq::empty()
    } else {
        seed_text(g.drop_last()) + row_text(g.last()) + seq!['\n']
    }
}

} // verus!
