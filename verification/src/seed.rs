//! Reading a seed: text of zeros and ones, one line for each row.

use vstd::prelude::*;
use vstd::string::StringExecFns;
use crate::grammar::{
    is_blank, is_space, line_len, lines, parse_seed, row_count, row_of, row_text, seed_text,
    token_len, tokens, ParseError,
};
use crate::grammar_proofs::{
    lemma_break_at, lemma_line_len_is, lemma_no_break, lemma_row_after_space,
    lemma_row_after_token, lemma_row_count_is, lemma_row_count_reaches, lemma_row_of_nothing,
    lemma_row_shape, lemma_token_len_is,
};
use crate::grid::{well_formed, Cell, Cells, Grid};

verus! {

/// Tests whether `c` is white space.
pub fn is_whitespace(c: char) -> (space: bool)
    ensures
        space == is_space(c),
{
    let n: u32 = c as u32;
    (0x09 <= n && n <= 0x0d) || n == 0x20 || n == 0x85 || n == 0xa0 || n == 0x1680 || (0x2000 <= n
        && n <= 0x200a) || n == 0x2028 || n == 0x2029 || n == 0x202f || n == 0x205f || n == 0x3000
}

/// The characters of `text`, in order.
fn characters(text: &str) -> (chars: Vec<char>)
    ensures
        chars@ == text@,
{
    let mut chars: Vec<char> = Vec::new();
    for c in it: text.chars()
        invariant
            it.seq() == text@,
            chars@ == text@.take(it.index()),
    {
        chars.push(c);
    }
    chars
}

/// The place where the line that starts at `start` ends: the place of the
/// next line feed, or the end of the text.
fn line_end(chars: &Vec<char>, start: usize) -> (end: usize)
    requires
        start <= chars.len(),
    ensures
        start <= end <= chars.len(),
        end - start == line_len(chars@.skip(start as int)),
{
    let mut end: usize = start;
    while end < chars.len() && chars[end] != '\n'
        invariant
            start <= end <= chars.len(),
            forall|k: int| start <= k < end ==> chars[k] != '\n',
        decreases chars.len() - end,
    {
        end = end + 1;
    }
    proof {
        lemma_line_len_is(chars@.skip(start as int), end - start);
    }
    end
}

/// The place where the token that starts at `start` ends: the place of the
/// next white space before `end`, or `end`.
fn token_end(chars: &Vec<char>, start: usize, end: usize) -> (stop: usize)
    requires
        start <= end <= chars.len(),
    ensures
        start <= stop <= end,
        stop - start == token_len(chars@.subrange(start as int, end as int)),
{
    let mut stop: usize = start;
    while stop < end && !is_whitespace(chars[stop])
        invariant
            start <= stop <= end <= chars.len(),
            forall|k: int| start <= k < stop ==> !is_space(chars[k]),
        decreases end - stop,
    {
        stop = stop + 1;
    }
    proof {
        lemma_token_len_is(chars@.subrange(start as int, end as int), stop - start);
    }
    stop
}

/// Reads the cells of one line, the characters from `start` to `end`:
/// one cell for each token, or nothing where a token is neither `0` nor
/// `1`.
fn line_to_cells(chars: &Vec<char>, start: usize, end: usize) -> (cells: Option<Vec<Cell>>)
    requires
        start <= end <= chars.len(),
    ensures
        match cells {
            Some(row) => row_of(chars@.subrange(start as int, end as int)) == Some(row@),
            None => row_of(chars@.subrange(start as int, end as int)) is None,
        },
{
    let ghost line = chars@.subrange(start as int, end as int);
    let mut row: Vec<Cell> = Vec::new();
    let mut i: usize = start;
    while i < end
        invariant
            start <= i <= end <= chars.len(),
            line == chars@.subrange(start as int, end as int),
            match row_of(chars@.subrange(i as int, end as int)) {
                Some(rest) => row_of(line) == Some(row@ + rest),
                None => row_of(line) is None,
            },
        decreases end - i,
    {
        let ghost tail = chars@.subrange(i as int, end as int);
        if is_whitespace(chars[i]) {
            proof {
                lemma_row_after_space(tail);
                assert(tail.skip(1) =~= chars@.subrange(i + 1, end as int));
            }
            i = i + 1;
        } else {
            let stop = token_end(chars, i, end);
            proof {
                lemma_row_after_token(tail);
                assert(tail.skip(stop - i) =~= chars@.subrange(stop as int, end as int));
            }
            let cell: Cell = if stop - i == 1 && chars[i] == '0' {
                0
            } else if stop - i == 1 && chars[i] == '1' {
                1
            } else {
                return None;
            };
            row.push(cell);
            i = stop;
        }
    }
    proof {
        lemma_row_of_nothing(chars@.subrange(i as int, end as int));
    }
    Some(row)
}

/// Reads a seed: one row for each line, one cell for each token, `0` for a
/// dead cell and `1` for a live one. Lines without a token after the last
/// row are ignored.
///
/// The result is the grid that the text stands for, or the reason why it
/// stands for none, exactly as the grammar says.
pub fn text_to_grid(text: &str) -> (result: Result<Grid, ParseError>)
    ensures
        match result {
            Ok(grid) => parse_seed(text@) == Ok::<Cells, ParseError>(grid.deep_view()),
            Err(e) => parse_seed(text@) == Err::<Cells, ParseError>(e),
        },
        result matches Ok(grid) ==> well_formed(grid.deep_view()),
{
    let chars = characters(text);
    let n: usize = chars.len();
    let ghost ls = lines(chars@);
    let mut grid: Grid = Vec::new();
    let mut width: usize = 0;
    let mut pos: usize = 0;
    let mut line_no: usize = 0;
    proof {
        assert(chars@.skip(0) =~= chars@);
    }
    while pos < n
        invariant
            n == chars.len(),
            chars@ == text@,
            ls == lines(chars@),
            pos <= n,
            line_no <= pos,
            line_no <= ls.len(),
            ls.skip(line_no as int) == lines(chars@.skip(pos as int)),
            grid.len() <= line_no,
            line_no > 0 ==> grid.len() > 0 && width == tokens(ls[0]).len() && width >= 1,
            forall|k: int|
                0 <= k < grid.len() ==> row_of(#[trigger] ls[k]) == Some(grid[k]@) && tokens(
                    ls[k],
                ).len() == width,
            forall|k: int| grid.len() <= k < line_no ==> is_blank(#[trigger] ls[k]),
        decreases n - pos,
    {
        let end = line_end(&chars, pos);
        let next_pos: usize = if end < n { end + 1 } else { n };
        let ghost line = chars@.subrange(pos as int, end as int);
        proof {
            let tail = chars@.skip(pos as int);
            let here = ls.skip(line_no as int);
            if end < n {
                assert(tail.skip(end - pos + 1) =~= chars@.skip(next_pos as int));
            }
            assert(here[0] == line);
            assert(here.skip(1) =~= lines(chars@.skip(next_pos as int)));
        }
        match line_to_cells(&chars, pos, end) {
            None => {
                proof {
                    lemma_row_count_reaches(ls, line_no as int);
                    if grid.len() < line_no {
                        lemma_break_at(ls, width as nat, row_count(ls), grid.len() as nat);
                    } else {
                        lemma_break_at(
                            ls,
                            tokens(ls[0]).len(),
                            row_count(ls),
                            line_no as nat,
                        );
                    }
                }
                if grid.len() < line_no {
                    return Err(ParseError::RaggedRow { line: grid.len() });
                }
                return Err(ParseError::BadToken { line: line_no });
            },
            Some(row) => {
                proof {
                    lemma_row_shape(line);
                }
                if row.len() == 0 {
                    if line_no == 0 {
                        return Err(ParseError::Empty);
                    }
                } else {
                    proof {
                        lemma_row_count_reaches(ls, line_no as int);
                    }
                    if grid.len() < line_no {
                        proof {
                            lemma_break_at(ls, width as nat, row_count(ls), grid.len() as nat);
                        }
                        return Err(ParseError::RaggedRow { line: grid.len() });
                    }
                    if line_no == 0 {
                        width = row.len();
                    } else if row.len() != width {
                        proof {
                            lemma_break_at(ls, width as nat, row_count(ls), line_no as nat);
                        }
                        return Err(ParseError::RaggedRow { line: line_no });
                    }
                    grid.push(row);
                }
            },
        }
        pos = next_pos;
        line_no = line_no + 1;
    }
    if grid.len() == 0 {
        return Err(ParseError::Empty);
    }
    proof {
        let rows = grid.len() as int;
        lemma_row_count_is(ls, rows);
        lemma_no_break(ls, width as nat, rows as nat);
        let parsed = Seq::new(rows as nat, |r: int| row_of(ls[r]).unwrap());
        assert forall|r: int| 0 <= r < rows implies #[trigger] grid.deep_view()[r] == parsed[r] by {}
        assert(grid.deep_view() =~= parsed);
        assert forall|r: int, c: int|
            0 <= r < rows && 0 <= c < grid.deep_view()[r].len() implies #[trigger] grid.deep_view()[r][c]
            <= 1 by {
            lemma_row_shape(ls[r]);
        }
        assert forall|r: int| 0 <= r < rows implies (#[trigger] grid.deep_view()[r]).len()
            == grid.deep_view()[0].len() by {
            lemma_row_shape(ls[r]);
            lemma_row_shape(ls[0]);
        }
    }
    Ok(grid)
}

/// Writes a grid as a seed: one line for each row, ended by a line feed,
/// the cells of a row as `0` and `1` with one space between each two.
pub fn grid_to_text(grid: &Grid) -> (text: String)
    ensures
        text@ == seed_text(grid.deep_view()),
{
    let ghost g = grid.deep_view();
    let mut text = String::new();
    proof {
        reveal_strlit(" ");
        reveal_strlit("0");
        reveal_strlit("1");
        reveal_strlit("\n");
    }
    for r in 0..grid.len()
        invariant
            g == grid.deep_view(),
            text@ == seed_text(g.take(r as int)),
            " "@ == seq![' '],
            "0"@ == seq!['0'],
            "1"@ == seq!['1'],
            "\n"@ == seq!['\n'],
    {
        let ghost before = text@;
        let width: usize = grid[r].len();
        for c in 0..width
            invariant
                g == grid.deep_view(),
                r < grid.len(),
                width == grid[r as int].len(),
                text@ == before + row_text(g[r as int].take(c as int)),
                " "@ == seq![' '],
                "0"@ == seq!['0'],
                "1"@ == seq!['1'],
        {
            let ghost row = g[r as int];
            proof {
                assert(row.take(c + 1).drop_last() =~= row.take(c as int));
            }
            if c > 0 {
                text.append(" ");
            }
            if grid[r][c] == 0 {
                text.append("0");
            } else {
                text.append("1");
            }
        }
        text.append("\n");
        proof {
            assert(g[r as int].take(width as int) =~= g[r as int]);
            assert(g.take(r + 1).drop_last() =~= g.take(r as int));
        }
    }
    proof {
        assert(g.take(grid.len() as int) =~= g);
    }
    text
}

} // verus!
