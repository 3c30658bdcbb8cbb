//! Facts about the grammar of a seed that the parser and the writer rest on.

use vstd::prelude::*;
use crate::grammar::{
    all_cells, breaks_grid, first_break, is_blank, is_space, line_len, lines, row_count, row_of,
    token_cell, token_len, tokens,
};
use crate::grid::Cell;

verus! {

/// A line is never longer than the text.
pub proof fn lemma_line_len_bound(text: Seq<char>)
    ensures
        line_len(text) <= text.len(),
        line_len(text) < text.len() ==> text[line_len(text) as int] == '\n',
        forall|k: int| 0 <= k < line_len(text) ==> text[k] != '\n',
    decreases text.len(),
{
    if text.len() > 0 && text[0] != '\n' {
        let rest = text.skip(1);
        lemma_line_len_bound(rest);
        assert forall|k: int| 0 <= k < line_len(text) implies text[k] != '\n' by {
            if k > 0 {
                assert(rest[k - 1] == text[k]);
            }
        }
    }
}

/// The first line ends at the first line feed: where the first `n`
/// characters hold none and the text ends there or goes on with one, the
/// first line has `n` characters.
pub proof fn lemma_line_len_is(text: Seq<char>, n: int)
    requires
        0 <= n <= text.len(),
        forall|k: int| 0 <= k < n ==> text[k] != '\n',
        n == text.len() || text[n] == '\n',
    ensures
        line_len(text) == n,
    decreases n,
{
    if n > 0 {
        lemma_line_len_is(text.skip(1), n - 1);
    }
}

/// A token is never longer than the line.
pub proof fn lemma_token_len_bound(line: Seq<char>)
    ensures
        token_len(line) <= line.len(),
        token_len(line) < line.len() ==> is_space(line[token_len(line) as int]),
        forall|k: int| 0 <= k < token_len(line) ==> !is_space(line[k]),
    decreases line.len(),
{
    if line.len() > 0 && !is_space(line[0]) {
        let rest = line.skip(1);
        lemma_token_len_bound(rest);
        assert forall|k: int| 0 <= k < token_len(line) implies !is_space(line[k]) by {
            if k > 0 {
                assert(rest[k - 1] == line[k]);
            }
        }
    }
}

/// The first token ends at the first white space: where the first `n`
/// characters hold none and the line ends there or goes on with one, the
/// token at the start has `n` characters.
pub proof fn lemma_token_len_is(line: Seq<char>, n: int)
    requires
        0 <= n <= line.len(),
        forall|k: int| 0 <= k < n ==> !is_space(line[k]),
        n == line.len() || is_space(line[n]),
    ensures
        token_len(line) == n,
    decreases n,
{
    if n > 0 {
        lemma_token_len_is(line.skip(1), n - 1);
    }
}

/// A line that starts with a token holds that token and then the tokens of
/// what follows it.
pub proof fn lemma_tokens_after_token(line: Seq<char>)
    requires
        line.len() > 0,
        !is_space(line[0]),
    ensures
        1 <= token_len(line) <= line.len(),
        tokens(line) == seq![line.take(token_len(line) as int)] + tokens(
            line.skip(token_len(line) as int),
        ),
{
    lemma_token_len_bound(line);
    let n = token_len(line);
    if n >= line.len() {
        assert(line.take(n as int) =~= line);
    }
}

/// The row of a line that starts with a token: the cell of that token, then
/// the row of what follows it, where both exist.
pub proof fn lemma_row_after_token(line: Seq<char>)
    requires
        line.len() > 0,
        !is_space(line[0]),
    ensures
        1 <= token_len(line) <= line.len(),
        row_of(line) == match (
            token_cell(line.take(token_len(line) as int)),
            row_of(line.skip(token_len(line) as int)),
        ) {
            (Some(cell), Some(rest)) => Some(seq![cell] + rest),
            _ => None::<Seq<Cell>>,
        },
{
    lemma_tokens_after_token(line);
    let n = token_len(line) as int;
    let later = tokens(line.skip(n));
    let toks = tokens(line);
    assert forall|k: int| 0 <= k < later.len() implies later[k] == toks[k + 1] by {}
    if all_cells(toks) {
        assert(token_cell(toks[0]) is Some);
    }
}

/// White space at the start of a line changes neither its tokens nor its
/// row.
pub proof fn lemma_row_after_space(line: Seq<char>)
    requires
        line.len() > 0,
        is_space(line[0]),
    ensures
        tokens(line) == tokens(line.skip(1)),
        row_of(line) == row_of(line.skip(1)),
{
}

/// The empty line holds no token, and its row is empty.
pub proof fn lemma_row_of_nothing(line: Seq<char>)
    requires
        line.len() == 0,
    ensures
        tokens(line) == Seq::<Seq<char>>::empty(),
        row_of(line) == Some(Seq::<Cell>::empty()),
{
}

/// Where a row exists it has one cell for each token, and each cell is `0`
/// or `1`.
pub proof fn lemma_row_shape(line: Seq<char>)
    requires
        row_of(line) is Some,
    ensures
        row_of(line).unwrap().len() == tokens(line).len(),
        forall|c: int| 0 <= c < tokens(line).len() ==> #[trigger] row_of(line).unwrap()[c] <= 1,
{
}

/// All lines from `rows` on hold no token, and the line before does: then
/// `rows` lines count as rows.
pub proof fn lemma_row_count_is(ls: Seq<Seq<char>>, rows: int)
    requires
        0 <= rows <= ls.len(),
        forall|k: int| rows <= k < ls.len() ==> is_blank(#[trigger] ls[k]),
        rows > 0 ==> !is_blank(ls[rows - 1]),
    ensures
        row_count(ls) == rows,
    decreases ls.len(),
{
    if ls.len() > rows {
        lemma_row_count_is(ls.drop_last(), rows);
    }
}

/// A line that holds a token counts as a row, and so do all lines before
/// it.
pub proof fn lemma_row_count_reaches(ls: Seq<Seq<char>>, k: int)
    requires
        0 <= k < ls.len(),
        !is_blank(ls[k]),
    ensures
        k < row_count(ls) <= ls.len(),
    decreases ls.len(),
{
    if is_blank(ls.last()) {
        lemma_row_count_reaches(ls.drop_last(), k);
    }
}

/// Where none of the first `rows` lines breaks the grid, the first break
/// is at `rows`.
pub proof fn lemma_no_break(ls: Seq<Seq<char>>, width: nat, rows: nat)
    requires
        forall|k: int| 0 <= k < rows ==> !breaks_grid(#[trigger] ls[k], width),
    ensures
        first_break(ls, width, rows) == rows,
    decreases rows,
{
    if rows > 0 {
        lemma_no_break(ls, width, (rows - 1) as nat);
    }
}

/// Where line `k` breaks the grid and no line before it does, the first
/// break is at `k`.
pub proof fn lemma_break_at(ls: Seq<Seq<char>>, width: nat, rows: nat, k: nat)
    requires
        k < rows,
        forall|i: int| 0 <= i < k ==> !breaks_grid(#[trigger] ls[i], width),
        breaks_grid(ls[k as int], width),
    ensures
        first_break(ls, width, rows) == k,
    decreases rows,
{
    if rows - 1 == k {
        lemma_no_break(ls, width, k);
    } else {
        lemma_break_at(ls, width, (rows - 1) as nat, k);
    }
}

} // verus!
