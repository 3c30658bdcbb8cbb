//! Writing a grid as a seed and reading it back gives the grid again.

use vstd::prelude::*;
use crate::grammar::{
    breaks_grid, cell_char, first_break, is_blank, is_space, line_len, lines, parse_seed,
    row_count, row_of, row_text, seed_text, token_cell, token_len, tokens, ParseError,
};
use crate::grammar_proofs::{
    lemma_line_len_bound, lemma_line_len_is, lemma_no_break, lemma_row_count_is,
    lemma_row_count_reaches, lemma_row_shape, lemma_token_len_bound, lemma_token_len_is,
    lemma_tokens_after_token,
};
use crate::grid::{inside, well_formed, Cell, Cells};

verus! {

/// The tokens of two pieces of a line set side by side are the tokens of
/// the first and then those of the second, where the second is empty or
/// starts with white space, so that no token reaches across.
pub proof fn lemma_tokens_concat(a: Seq<char>, b: Seq<char>)
    requires
        b.len() == 0 || is_space(b[0]),
    ensures
        tokens(a + b) == tokens(a) + tokens(b),
    decreases a.len(),
{
    let whole = a + b;
    if a.len() > 0 && is_space(a[0]) {
        assert(whole.skip(1) =~= a.skip(1) + b);
        lemma_tokens_concat(a.skip(1), b);
    } else if a.len() > 0 {
        lemma_token_len_bound(a);
        let n = token_len(a) as int;
        lemma_token_len_is(whole, n);
        lemma_tokens_after_token(a);
        lemma_tokens_after_token(whole);
        assert(whole.take(n) =~= a.take(n));
        assert(whole.skip(n) =~= a.skip(n) + b);
        lemma_tokens_concat(a.skip(n), b);
    }
}

/// The line of a row holds only the characters `0` and `1` and the space;
/// it starts with the first cell of the row.
pub proof fn lemma_row_text_chars(row: Seq<Cell>)
    ensures
        forall|k: int|
            0 <= k < row_text(row).len() ==> {
                let c = #[trigger] row_text(row)[k];
                c == '0' || c == '1' || c == ' '
            },
        row.len() > 0 ==> row_text(row).len() > 0 && row_text(row)[0] == cell_char(row[0]),
        row.len() == 0 ==> row_text(row).len() == 0,
    decreases row.len(),
{
    if row.len() > 1 {
        lemma_row_text_chars(row.drop_last());
    }
}

/// The tokens of the line of a row are its cells, each written as one
/// character.
pub proof fn lemma_tokens_of_row_text(row: Seq<Cell>)
    ensures
        tokens(row_text(row)) == Seq::new(row.len(), |k: int| seq![cell_char(row[k])]),
    decreases row.len(),
{
    if row.len() == 1 {
        lemma_token_len_is(row_text(row), 1);
    } else if row.len() > 1 {
        let front = row.drop_last();
        let last = seq![cell_char(row.last())];
        let tail = seq![' ', cell_char(row.last())];
        lemma_tokens_of_row_text(front);
        lemma_tokens_concat(row_text(front), tail);
        assert(tail.skip(1) =~= last);
        lemma_token_len_is(last, 1);
        assert(tokens(tail) == tokens(last));
    }
}

/// The line of a row of zeros and ones reads back as that row.
pub proof fn lemma_row_round_trip(row: Seq<Cell>)
    requires
        forall|k: int| 0 <= k < row.len() ==> #[trigger] row[k] <= 1,
    ensures
        row_of(row_text(row)) == Some(row),
        tokens(row_text(row)).len() == row.len(),
{
    lemma_tokens_of_row_text(row);
}

/// The lines of two texts set side by side are the lines of the first and
/// then those of the second, where the first is empty or ends with a line
/// feed.
pub proof fn lemma_lines_concat(a: Seq<char>, b: Seq<char>)
    requires
        a.len() == 0 || a.last() == '\n',
    ensures
        lines(a + b) == lines(a) + lines(b),
    decreases a.len(),
{
    let whole = a + b;
    if a.len() > 0 {
        lemma_line_len_bound(a);
        let n = line_len(a) as int;
        lemma_line_len_is(whole, n);
        let rest = a.skip(n + 1);
        assert(whole.take(n) =~= a.take(n));
        assert(whole.skip(n + 1) =~= rest + b);
        lemma_lines_concat(rest, b);
    }
}

/// A text without a line feed, followed by one, is a single line.
pub proof fn lemma_single_line(line: Seq<char>)
    requires
        forall|k: int| 0 <= k < line.len() ==> line[k] != '\n',
    ensures
        lines(line + seq!['\n']) == seq![line],
{
    let text = line + seq!['\n'];
    let n = line.len() as int;
    lemma_line_len_is(text, n);
    assert(text.take(n) =~= line);
    assert(lines(text.skip(n + 1)) =~= Seq::<Seq<char>>::empty());
}

/// A written grid is empty or ends with a line feed.
pub proof fn lemma_seed_text_end(g: Cells)
    ensures
        g.len() == 0 ==> seed_text(g).len() == 0,
        g.len() > 0 ==> seed_text(g).len() > 0 && seed_text(g).last() == '\n',
{
}

/// The lines of a written grid are the lines of its rows.
pub proof fn lemma_lines_of_seed_text(g: Cells)
    ensures
        lines(seed_text(g)) == Seq::new(g.len(), |r: int| row_text(g[r])),
    decreases g.len(),
{
    if g.len() > 0 {
        let front = g.drop_last();
        let line = row_text(g.last());
        lemma_lines_of_seed_text(front);
        lemma_seed_text_end(front);
        assert(seed_text(g) =~= seed_text(front) + (line + seq!['\n']));
        lemma_lines_concat(seed_text(front), line + seq!['\n']);
        lemma_row_text_chars(g.last());
        lemma_single_line(line);
    }
}

/// A well-formed grid, written as a seed, reads back as itself.
pub proof fn lemma_written_grid_reads_back(g: Cells)
    requires
        well_formed(g),
    ensures
        parse_seed(seed_text(g)) == Ok::<Cells, ParseError>(g),
{
    let ls = lines(seed_text(g));
    lemma_lines_of_seed_text(g);
    assert forall|r: int| 0 <= r < g.len() implies row_of(#[trigger] ls[r]) == Some(g[r])
        && tokens(ls[r]).len() == g[0].len() by {
        lemma_row_round_trip(g[r]);
    }
    let width = tokens(ls[0]).len();
    lemma_row_count_is(ls, ls.len() as int);
    lemma_no_break(ls, width, ls.len());
    let parsed = Seq::new(row_count(ls), |r: int| row_of(ls[r]).unwrap());
    assert(parsed =~= g);
}

/// Up to the first break no line breaks the grid, and where the first
/// break is among the rows, the line there does.
pub proof fn lemma_first_break(ls: Seq<Seq<char>>, width: nat, rows: nat)
    ensures
        first_break(ls, width, rows) <= rows,
        forall|k: int|
            0 <= k < first_break(ls, width, rows) ==> !breaks_grid(#[trigger] ls[k], width),
        first_break(ls, width, rows) < rows ==> breaks_grid(
            ls[first_break(ls, width, rows) as int],
            width,
        ),
    decreases rows,
{
    if rows > 0 {
        lemma_first_break(ls, width, (rows - 1) as nat);
    }
}

/// Whatever text reads as a grid reads as a well-formed one.
pub proof fn lemma_parsed_grid_is_well_formed(text: Seq<char>)
    requires
        parse_seed(text) is Ok,
    ensures
        well_formed(parse_seed(text)->Ok_0),
{
    let ls = lines(text);
    let g = parse_seed(text)->Ok_0;
    let rows = row_count(ls);
    let width = tokens(ls[0]).len();
    lemma_row_count_reaches(ls, 0);
    lemma_first_break(ls, width, rows);
    assert forall|r: int| 0 <= r < rows implies (#[trigger] g[r]).len() == width && (forall|
        c: int,
    |
        0 <= c < g[r].len() ==> #[trigger] g[r][c] <= 1) by {
        lemma_row_shape(ls[r]);
    }
}

/// A seed that reads as a grid, written out again from that grid and read
/// once more, gives the same grid.
pub proof fn lemma_seed_round_trip(text: Seq<char>)
    requires
        parse_seed(text) is Ok,
    ensures
        parse_seed(seed_text(parse_seed(text)->Ok_0)) == parse_seed(text),
{
    lemma_parsed_grid_is_well_formed(text);
    lemma_written_grid_reads_back(parse_seed(text)->Ok_0);
}

} // verus!
