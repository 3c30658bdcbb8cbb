use game_of_life::{is_alive, is_well_formed, next_generation, sum_neighbors, text_to_grid, Grid};

fn grid(text: &str) -> Grid {
    text_to_grid(text).unwrap()
}

#[test]
fn test_next_generation() {
    let prev_gen = "0 1 0 0\n\
                    1 0 0 0\n\
                    0 1 0 0";
    let next_gen = next_generation(&text_to_grid(prev_gen).unwrap());
    assert_eq!(next_gen, [[0, 0, 0, 0], [1, 1, 0, 0], [0, 0, 0, 0]]);
}

#[test]
fn blinker_turns_and_returns() {
    let vertical = grid("0 0 0\n0 1 0\n0 1 0\n0 1 0\n0 0 0\n");
    let horizontal = next_generation(&vertical);
    assert_eq!(
        horizontal,
        [[0, 0, 0], [0, 0, 0], [1, 1, 1], [0, 0, 0], [0, 0, 0]]
    );
    assert_eq!(next_generation(&horizontal), vertical);
}

#[test]
fn block_is_a_still_life() {
    let block = grid("0 0 0 0\n0 1 1 0\n0 1 1 0\n0 0 0 0\n");
    assert_eq!(next_generation(&block), block);
}

#[test]
fn lone_cell_dies() {
    let lone = grid("0 0 0\n0 1 0\n0 0 0\n");
    assert_eq!(next_generation(&lone), [[0, 0, 0], [0, 0, 0], [0, 0, 0]]);
}

#[test]
fn tromino_grows_into_a_bar() {
    let tromino = grid("0 1 0 0\n1 0 0 0\n0 1 0 0\n");
    assert_eq!(
        next_generation(&tromino),
        [[0, 0, 0, 0], [1, 1, 0, 0], [0, 0, 0, 0]]
    );
}

#[test]
fn block_in_the_corner_is_a_still_life() {
    let block = grid("1 1 0\n1 1 0\n0 0 0\n");
    assert_eq!(next_generation(&block), block);
}

#[test]
fn live_cells_on_opposite_edges_do_not_meet() {
    // On a torus the cells of the first and the last column would be
    // neighbours and the middle row would survive.
    let columns = grid("1 0 0 1\n1 0 0 1\n1 0 0 1\n");
    assert_eq!(
        next_generation(&columns),
        [[0, 0, 0, 0], [1, 1, 1, 1], [0, 0, 0, 0]]
    );
    let rows = grid("1 1 1\n0 0 0\n0 0 0\n1 1 1\n");
    assert_eq!(
        next_generation(&rows),
        [[0, 1, 0], [0, 1, 0], [0, 1, 0], [0, 1, 0]]
    );
}

#[test]
fn single_cell_grid() {
    assert_eq!(next_generation(&vec![vec![1]]), [[0]]);
    assert_eq!(next_generation(&vec![vec![0]]), [[0]]);
    assert_eq!(next_generation(&next_generation(&vec![vec![1]])), [[0]]);
}

#[test]
fn single_row_and_single_column() {
    // No cell is born; a live cell between two live cells has two
    // neighbours and stays.
    assert_eq!(next_generation(&vec![vec![1, 1, 1]]), [[0, 1, 0]]);
    assert_eq!(next_generation(&vec![vec![1, 1, 0, 1]]), [[0, 0, 0, 0]]);
    assert_eq!(
        next_generation(&vec![vec![1], vec![1], vec![1], vec![1]]),
        [[0], [1], [1], [0]]
    );
    assert_eq!(next_generation(&vec![vec![1], vec![0], vec![1]]), [[0], [0], [0]]);
}

#[test]
fn shape_is_kept() {
    for (h, w) in [(1usize, 1usize), (1, 7), (6, 1), (3, 4), (5, 5), (2, 9)] {
        let mut g: Grid = Vec::new();
        for r in 0..h {
            let mut row = Vec::new();
            for c in 0..w {
                row.push(((r * 7 + c * 3 + r * c) % 3 == 0) as u8);
            }
            g.push(row);
        }
        assert!(is_well_formed(&g));
        let next = next_generation(&g);
        assert_eq!(next.len(), h);
        for row in &next {
            assert_eq!(row.len(), w);
        }
        assert!(is_well_formed(&next));
    }
}

#[test]
fn input_is_left_alone_and_equal_inputs_give_equal_outputs() {
    let g = grid("0 1 0 0\n1 0 0 0\n0 1 0 0\n");
    let copy = g.clone();
    let first = next_generation(&g);
    assert_eq!(g, copy);
    let second = next_generation(&g);
    assert_eq!(first, second);
    assert_eq!(next_generation(&copy), first);
}

#[test]
fn all_dead_is_a_fixed_point() {
    for (h, w) in [(1usize, 1usize), (1, 5), (4, 1), (3, 3), (4, 6)] {
        let g: Grid = vec![vec![0; w]; h];
        assert_eq!(next_generation(&g), g);
    }
}

fn with_dead_border(g: &Grid) -> Grid {
    let w = g[0].len();
    let mut out: Grid = vec![vec![0; w + 2]];
    for row in g {
        let mut wide = vec![0];
        wide.extend_from_slice(row);
        wide.push(0);
        out.push(wide);
    }
    out.push(vec![0; w + 2]);
    out
}

#[test]
fn outside_counts_as_dead() {
    let g = grid("1 1 0 1\n1 0 0 1\n0 1 1 1\n");
    let next = next_generation(&g);
    let framed = with_dead_border(&g);
    let framed_next = next_generation(&framed);
    for r in 0..g.len() {
        for c in 0..g[0].len() {
            assert_eq!(sum_neighbors(&framed, r + 1, c + 1), sum_neighbors(&g, r, c));
            assert_eq!(framed_next[r + 1][c + 1], next[r][c]);
        }
    }
}

#[test]
fn successor_of_a_cell_is_local() {
    let a = grid("1 1 0 0 1\n1 0 0 1 1\n0 1 1 0 0\n1 1 1 1 1\n");
    // Differs from `a` only in column 4 and in row 3.
    let b = grid("1 1 0 0 0\n1 0 0 1 0\n0 1 1 0 1\n0 0 0 0 0\n");
    let next_a = next_generation(&a);
    let next_b = next_generation(&b);
    for r in 0..2 {
        for c in 0..3 {
            assert_eq!(sum_neighbors(&a, r, c), sum_neighbors(&b, r, c));
            assert_eq!(next_a[r][c], next_b[r][c]);
        }
    }
    assert_ne!(next_a, next_b);
}

#[test]
fn neighbours_are_counted_inside_the_grid() {
    let full: Grid = vec![vec![1; 3]; 3];
    assert_eq!(sum_neighbors(&full, 0, 0), 3);
    assert_eq!(sum_neighbors(&full, 0, 2), 3);
    assert_eq!(sum_neighbors(&full, 2, 0), 3);
    assert_eq!(sum_neighbors(&full, 2, 2), 3);
    assert_eq!(sum_neighbors(&full, 0, 1), 5);
    assert_eq!(sum_neighbors(&full, 1, 0), 5);
    assert_eq!(sum_neighbors(&full, 1, 2), 5);
    assert_eq!(sum_neighbors(&full, 2, 1), 5);
    assert_eq!(sum_neighbors(&full, 1, 1), 8);
    let row: Grid = vec![vec![1; 4]];
    assert_eq!(sum_neighbors(&row, 0, 0), 1);
    assert_eq!(sum_neighbors(&row, 0, 1), 2);
    assert_eq!(sum_neighbors(&row, 0, 3), 1);
    assert_eq!(sum_neighbors(&vec![vec![1]], 0, 0), 0);
    let g = grid("0 1 0 0\n1 0 0 0\n0 1 0 0\n");
    assert_eq!(sum_neighbors(&g, 1, 1), 3);
    assert_eq!(sum_neighbors(&g, 1, 0), 2);
    assert_eq!(sum_neighbors(&g, 0, 3), 0);
    assert_eq!(next_generation(&full), [[1, 0, 1], [0, 0, 0], [1, 0, 1]]);
}

#[test]
fn rule_of_life() {
    for n in 0..=8u8 {
        assert_eq!(is_alive(1, n), n == 2 || n == 3);
        assert_eq!(is_alive(0, n), n == 3);
    }
}

#[test]
fn well_formed_grids() {
    assert!(is_well_formed(&vec![vec![0]]));
    assert!(is_well_formed(&vec![vec![0, 1], vec![1, 1]]));
    assert!(!is_well_formed(&Vec::new()));
    assert!(!is_well_formed(&vec![Vec::new()]));
    assert!(!is_well_formed(&vec![Vec::new(), Vec::new()]));
    assert!(!is_well_formed(&vec![vec![0, 1], vec![1]]));
    assert!(!is_well_formed(&vec![vec![0], vec![1, 0]]));
    assert!(!is_well_formed(&vec![vec![0, 2]]));
    assert!(!is_well_formed(&vec![vec![0, 1], vec![255, 0]]));
}
