use pz::assets::map::MapAsset;
use pz::assets::options::{ScoreDirection, Scorer};
use pz::assets::pattern::PatternColor;
use pz::components::tiles::{GameBoard, TileState, TileStyle};
use pz::game::scorer::score;

/// A board over `cells` where the cells listed in `full` are filled.
fn board(cells: &[(isize, isize)], full: &[(isize, isize)]) -> GameBoard {
    let map = MapAsset { name: String::from("test"), pattern: cells.to_vec() };
    let mut board = GameBoard::from_map(&map);
    for i in 0..board.len() {
        let t = board.tile(i);
        if full.contains(&(t.x, t.y)) {
            board.set_state(i, TileState::Full(PatternColor::Red));
        }
    }
    board
}

fn grid(w: isize, h: isize) -> Vec<(isize, isize)> {
    let mut cells = vec![];
    for x in 0..w {
        for y in 0..h {
            cells.push((x, y));
        }
    }
    cells
}

fn positions(board: &GameBoard, cells: &[usize]) -> Vec<(isize, isize)> {
    let mut out: Vec<(isize, isize)> = cells.iter().map(|i| {
        let t = board.tile(*i);
        (t.x, t.y)
    }).collect();
    out.sort();
    out
}

#[test]
fn square_full_block_is_cleared() {
    let cells = grid(5, 5);
    let full = grid(3, 3);
    let b = board(&cells, &full);
    let cleared = score(&b, Scorer::Square(3));
    let mut want = full.clone();
    want.sort();
    assert_eq!(positions(&b, &cleared), want);
}

#[test]
fn square_with_a_hole_clears_nothing() {
    let cells = grid(5, 5);
    let mut full = grid(3, 3);
    full.retain(|c| *c != (1, 1));
    let b = board(&cells, &full);
    assert!(score(&b, Scorer::Square(3)).is_empty());
}

#[test]
fn square_sparse_board_clears_nothing() {
    let cells = grid(6, 6);
    let full = vec![(0, 0), (1, 0), (2, 0), (0, 1), (2, 2), (5, 5), (4, 4), (3, 3)];
    let b = board(&cells, &full);
    assert!(score(&b, Scorer::Square(3)).is_empty());
}

#[test]
fn square_overlapping_blocks_count_each_cell_once() {
    let cells = grid(6, 6);
    // two 3x3 blocks, with corners (0,0) and (1,1): they share four cells
    let mut full = grid(3, 3);
    for x in 1..4 {
        for y in 1..4 {
            if !full.contains(&(x, y)) {
                full.push((x, y));
            }
        }
    }
    assert_eq!(full.len(), 14);
    let b = board(&cells, &full);
    let cleared = score(&b, Scorer::Square(3));
    assert_eq!(cleared.len(), 14);
    let mut want = full.clone();
    want.sort();
    assert_eq!(positions(&b, &cleared), want);
    let mut once = cleared.clone();
    once.dedup();
    assert_eq!(once.len(), cleared.len());
}

#[test]
fn square_of_side_zero_clears_nothing() {
    let cells = grid(3, 3);
    let b = board(&cells, &cells);
    assert!(score(&b, Scorer::Square(0)).is_empty());
}

#[test]
fn square_of_side_one_clears_every_full_cell() {
    let cells = grid(3, 3);
    let full = vec![(0, 0), (2, 1)];
    let b = board(&cells, &full);
    assert_eq!(positions(&b, &score(&b, Scorer::Square(1))), vec![(0, 0), (2, 1)]);
}

#[test]
fn score_gives_indices_in_rising_order() {
    let cells = grid(4, 4);
    let b = board(&cells, &cells);
    let cleared = score(&b, Scorer::Square(2));
    assert_eq!(cleared.len(), 16);
    for w in cleared.windows(2) {
        assert!(w[0] < w[1]);
    }
}

#[test]
fn line_horizontal_full_row_is_cleared() {
    let cells = grid(4, 3);
    let full = vec![(0, 1), (1, 1), (2, 1), (3, 1), (0, 0)];
    let b = board(&cells, &full);
    let cleared = score(&b, Scorer::Line(ScoreDirection::Horizontal));
    assert_eq!(positions(&b, &cleared), vec![(0, 1), (1, 1), (2, 1), (3, 1)]);
}

#[test]
fn line_horizontal_with_a_gap_clears_nothing() {
    let cells = grid(5, 1);
    let full = vec![(0, 0), (1, 0), (3, 0), (4, 0)];
    let b = board(&cells, &full);
    assert!(score(&b, Scorer::Line(ScoreDirection::Horizontal)).is_empty());
}

#[test]
fn line_vertical_does_not_clear_rows() {
    let cells = grid(4, 3);
    let full = vec![(0, 1), (1, 1), (2, 1), (3, 1)];
    let b = board(&cells, &full);
    assert!(score(&b, Scorer::Line(ScoreDirection::Vertical)).is_empty());
}

#[test]
fn line_vertical_full_column_is_cleared() {
    let cells = grid(3, 4);
    let full = vec![(2, 0), (2, 1), (2, 2), (2, 3), (0, 0)];
    let b = board(&cells, &full);
    let cleared = score(&b, Scorer::Line(ScoreDirection::Vertical));
    assert_eq!(positions(&b, &cleared), vec![(2, 0), (2, 1), (2, 2), (2, 3)]);
}

#[test]
fn line_both_is_the_union_of_rows_and_columns() {
    let cells = grid(3, 3);
    let full = vec![(0, 1), (1, 1), (2, 1), (1, 0), (1, 2)];
    let b = board(&cells, &full);
    let cleared = score(&b, Scorer::Line(ScoreDirection::Both));
    assert_eq!(cleared.len(), 5);
    assert_eq!(positions(&b, &cleared), vec![(0, 1), (1, 0), (1, 1), (1, 2), (2, 1)]);
}

#[test]
fn line_ends_where_the_board_ends() {
    // a board with a hole in it: the row is two runs, each between two edges
    let cells = vec![(0, 0), (1, 0), (3, 0), (4, 0)];
    let full = vec![(0, 0), (1, 0), (3, 0)];
    let b = board(&cells, &full);
    let cleared = score(&b, Scorer::Line(ScoreDirection::Horizontal));
    assert_eq!(positions(&b, &cleared), vec![(0, 0), (1, 0)]);
}

#[test]
fn line_at_the_largest_coordinate_is_cleared() {
    let cells = vec![(isize::MAX - 1, 0), (isize::MAX, 0)];
    let b = board(&cells, &cells);
    let cleared = score(&b, Scorer::Line(ScoreDirection::Horizontal));
    assert_eq!(cleared.len(), 2);
}

#[test]
fn board_from_map_leaves_out_a_repeated_cell() {
    let b = board(&[(0, 0), (1, 0), (0, 0)], &[]);
    assert_eq!(b.len(), 2);
    assert_eq!(b.tile(0).state, TileState::Empty);
    assert_eq!(b.tile(0).style, TileStyle::Plain);
    assert_eq!((b.tile(1).x, b.tile(1).y), (1, 0));
}
