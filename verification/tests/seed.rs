use game_of_life::{grid_to_text, is_whitespace, next_generation, text_to_grid, Grid, ParseError};

#[test]
fn reads_the_example_seed() {
    let g = text_to_grid("0 1 0 0\n1 0 0 0\n0 1 0 0\n").unwrap();
    assert_eq!(g, [[0, 1, 0, 0], [1, 0, 0, 0], [0, 1, 0, 0]]);
}

#[test]
fn last_line_may_go_without_line_feed() {
    assert_eq!(text_to_grid("1 0\n0 1"), Ok(vec![vec![1, 0], vec![0, 1]]));
    assert_eq!(text_to_grid("1"), Ok(vec![vec![1]]));
    assert_eq!(text_to_grid("0\n"), Ok(vec![vec![0]]));
}

#[test]
fn white_space_round_the_tokens_is_ignored() {
    assert_eq!(
        text_to_grid("  1   0\t1 \n\t0 0 0\n1 1 1   "),
        Ok(vec![vec![1, 0, 1], vec![0, 0, 0], vec![1, 1, 1]])
    );
    assert_eq!(text_to_grid("1 0\r\n0 1\r\n"), Ok(vec![vec![1, 0], vec![0, 1]]));
    assert_eq!(
        text_to_grid("1\u{a0}0\u{3000}1\u{2003}0\u{b}1\u{c}0\u{85}1\u{2028}0"),
        Ok(vec![vec![1, 0, 1, 0, 1, 0, 1, 0]])
    );
}

#[test]
fn trailing_blank_lines_are_ignored() {
    assert_eq!(text_to_grid("1 0\n0 1\n\n\n"), Ok(vec![vec![1, 0], vec![0, 1]]));
    assert_eq!(text_to_grid("1 0\n0 1\n  \n\t\n "), Ok(vec![vec![1, 0], vec![0, 1]]));
    assert_eq!(text_to_grid("1\n\r\n"), Ok(vec![vec![1]]));
}

#[test]
fn empty_seeds() {
    assert_eq!(text_to_grid(""), Err(ParseError::Empty));
    assert_eq!(text_to_grid("\n"), Err(ParseError::Empty));
    assert_eq!(text_to_grid("   \n \t \n"), Err(ParseError::Empty));
    assert_eq!(text_to_grid("\n1 0\n0 1\n"), Err(ParseError::Empty));
    assert_eq!(text_to_grid(" \nx\n"), Err(ParseError::Empty));
}

#[test]
fn bad_tokens() {
    assert_eq!(text_to_grid("2"), Err(ParseError::BadToken { line: 0 }));
    assert_eq!(text_to_grid("1 0\n0 x\n"), Err(ParseError::BadToken { line: 1 }));
    assert_eq!(text_to_grid("1 0\n0 1\n1 10\n"), Err(ParseError::BadToken { line: 2 }));
    assert_eq!(text_to_grid("01"), Err(ParseError::BadToken { line: 0 }));
    assert_eq!(text_to_grid("+1"), Err(ParseError::BadToken { line: 0 }));
    assert_eq!(text_to_grid("1 -0"), Err(ParseError::BadToken { line: 0 }));
    assert_eq!(text_to_grid("1,0"), Err(ParseError::BadToken { line: 0 }));
    assert_eq!(text_to_grid("1 0\n\u{25a0} ."), Err(ParseError::BadToken { line: 1 }));
    assert_eq!(text_to_grid("1 0\n1\u{feff}0"), Err(ParseError::BadToken { line: 1 }));
}

#[test]
fn ragged_rows() {
    assert_eq!(text_to_grid("1 0\n0\n"), Err(ParseError::RaggedRow { line: 1 }));
    assert_eq!(text_to_grid("1 0\n0 1 1\n"), Err(ParseError::RaggedRow { line: 1 }));
    assert_eq!(text_to_grid("1\n0\n1 1\n0\n"), Err(ParseError::RaggedRow { line: 2 }));
}

#[test]
fn blank_line_between_rows_is_a_ragged_row() {
    assert_eq!(text_to_grid("1 0\n\n0 1\n"), Err(ParseError::RaggedRow { line: 1 }));
    assert_eq!(text_to_grid("1 0\n0 1\n \n\n1 1"), Err(ParseError::RaggedRow { line: 2 }));
    assert_eq!(text_to_grid("1 0\n\nx\n"), Err(ParseError::RaggedRow { line: 1 }));
}

#[test]
fn first_offending_line_decides() {
    assert_eq!(text_to_grid("1 0\nx\n1\n"), Err(ParseError::BadToken { line: 1 }));
    assert_eq!(text_to_grid("1 0\n1\nx\n"), Err(ParseError::RaggedRow { line: 1 }));
    // A bad token counts before the length of its line.
    assert_eq!(text_to_grid("1 0\n1 0 x\n"), Err(ParseError::BadToken { line: 1 }));
    assert_eq!(text_to_grid("1 0\nx\n"), Err(ParseError::BadToken { line: 1 }));
}

#[test]
fn parsed_grid_is_rectangular() {
    let g = text_to_grid("1 0 1\n0 0 0\n").unwrap();
    assert_eq!(g.len(), 2);
    assert!(g.iter().all(|row| row.len() == 3));
    assert!(game_of_life::is_well_formed(&g));
}

#[test]
fn writes_rows_as_lines() {
    assert_eq!(grid_to_text(&vec![vec![1]]), "1\n");
    assert_eq!(
        grid_to_text(&vec![vec![0, 1, 0, 0], vec![1, 0, 0, 0], vec![0, 1, 0, 0]]),
        "0 1 0 0\n1 0 0 0\n0 1 0 0\n"
    );
    assert_eq!(grid_to_text(&Vec::new()), "");
}

#[test]
fn written_grid_reads_back() {
    for (h, w) in [(1usize, 1usize), (1, 6), (5, 1), (3, 4), (7, 7)] {
        let mut g: Grid = Vec::new();
        for r in 0..h {
            let mut row = Vec::new();
            for c in 0..w {
                row.push(((r * 5 + c * 11 + r * c) % 4 < 2) as u8);
            }
            g.push(row);
        }
        assert_eq!(text_to_grid(&grid_to_text(&g)), Ok(g.clone()));
        let next = next_generation(&g);
        assert_eq!(text_to_grid(&grid_to_text(&next)), Ok(next));
    }
}

#[test]
fn seed_round_trip() {
    for text in [
        "0 1 0 0\n1 0 0 0\n0 1 0 0",
        "  1\t0 \r\n 0   1\r\n\r\n",
        "1",
        "0 0 0\n0 1 0\n0 1 0\n0 1 0\n0 0 0\n\n\n",
    ] {
        let g = text_to_grid(text).unwrap();
        assert_eq!(text_to_grid(&grid_to_text(&g)), Ok(g));
    }
}

#[test]
fn white_space_is_what_the_standard_library_calls_so() {
    for n in 0..=0x10ffffu32 {
        if let Some(c) = char::from_u32(n) {
            assert_eq!(is_whitespace(c), c.is_whitespace());
        }
    }
}
