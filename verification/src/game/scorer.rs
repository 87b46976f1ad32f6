//! Which filled cells of a board are cleared under a scoring rule.
//!
//! A cell is named by its index among the board's tiles. All positions are
//! compared as exact coordinates; no neighbour links are followed.

use crate::assets::options::{ScoreDirection, Scorer};
use crate::components::tiles::{
    at, clear_all, distinct_positions, find_tile, is_cell, is_full, GameBoard, Tile,
};
use vstd::arithmetic::div_mod::{lemma_fundamental_div_mod, lemma_mod_bound};
use vstd::prelude::*;
use vstd::set_lib::{lemma_int_range, lemma_len_subset, lemma_map_size_bound, set_int_range};

verus! {

/// Whether `(x, y)` lies in the square of side `n` whose bottom-left corner
/// is `(bx, by)`.
pub open spec fn in_block(bx: int, by: int, n: int, x: int, y: int) -> bool {
    bx <= x < bx + n && by <= y < by + n
}

/// Whether every position of that square holds a full tile.
pub open spec fn block_full(tiles: Seq<Tile>, bx: int, by: int, n: int) -> bool {
    forall|x: int, y: int| in_block(bx, by, n, x, y) ==> #[trigger] is_full(tiles, x, y)
}

/// Tile `i` is full and lies in some completely full square of side `n`.
pub open spec fn square_eligible(tiles: Seq<Tile>, n: int, i: int) -> bool {
    &&& tiles[i].state is Full
    &&& exists|bx: int, by: int| #[trigger]
        block_full(tiles, bx, by, n) && in_block(bx, by, n, tiles[i].x as int, tiles[i].y as int)
}

/// Whether `(x, y)` is one of the `m + 1` positions of the run that starts at
/// `(sx, sy)` and goes right (`horizontal`) or up.
pub open spec fn on_run(sx: int, sy: int, horizontal: bool, m: int, x: int, y: int) -> bool {
    if horizontal {
        y == sy && sx <= x <= sx + m
    } else {
        x == sx && sy <= y <= sy + m
    }
}

/// Whether the board has a cell `k` positions along the run from `(sx, sy)`.
pub open spec fn cell_along(tiles: Seq<Tile>, sx: int, sy: int, horizontal: bool, k: int) -> bool {
    if horizontal {
        is_cell(tiles, sx + k, sy)
    } else {
        is_cell(tiles, sx, sy + k)
    }
}

/// Whether all `m + 1` positions of the run hold a full tile.
pub open spec fn run_full(tiles: Seq<Tile>, sx: int, sy: int, horizontal: bool, m: int) -> bool {
    forall|x: int, y: int| on_run(sx, sy, horizontal, m, x, y) ==> #[trigger] is_full(tiles, x, y)
}

/// Whether the run of `m + 1` positions is full and the walk then leaves
/// the board.
pub open spec fn run_ends(tiles: Seq<Tile>, sx: int, sy: int, horizontal: bool, m: int) -> bool {
    run_full(tiles, sx, sy, horizontal, m) && !cell_along(tiles, sx, sy, horizontal, m + 1)
}

/// Tile `s` is a full tile at the board's edge, the `m + 1` positions from it
/// on are all full, the walk then leaves the board, and tile `i` is on it.
pub open spec fn line_from(tiles: Seq<Tile>, horizontal: bool, s: int, m: int, i: int) -> bool {
    let sx = tiles[s].x as int;
    let sy = tiles[s].y as int;
    &&& tiles[s].state is Full
    &&& !cell_along(tiles, sx, sy, horizontal, -1)
    &&& run_ends(tiles, sx, sy, horizontal, m)
    &&& on_run(sx, sy, horizontal, m, tiles[i].x as int, tiles[i].y as int)
}

/// Tile `i` is on a line that is full from one edge of the board to the other.
pub open spec fn line_eligible(tiles: Seq<Tile>, horizontal: bool, i: int) -> bool {
    exists|s: int, m: int| 0 <= s < tiles.len() && 0 <= m && #[trigger] line_from(tiles, horizontal, s, m, i)
}

/// Tile `i` is cleared under `rule`.
pub open spec fn eligible(tiles: Seq<Tile>, rule: Scorer, i: int) -> bool {
    match rule {
        Scorer::Square(n) => square_eligible(tiles, n as int, i),
        Scorer::Line(ScoreDirection::Vertical) => line_eligible(tiles, false, i),
        Scorer::Line(ScoreDirection::Horizontal) => line_eligible(tiles, true, i),
        Scorer::Line(ScoreDirection::Both) => line_eligible(tiles, false, i) || line_eligible(
            tiles,
            true,
            i,
        ),
    }
}

/// The cells that `rule` clears, as a set of tile indices.
pub open spec fn cleared(tiles: Seq<Tile>, rule: Scorer) -> Set<int> {
    Set::new(|i: int| 0 <= i < tiles.len() && eligible(tiles, rule, i))
}

/// The full tiles that lie in the square of side `n` at `(bx, by)`.
pub open spec fn full_in_block(tiles: Seq<Tile>, bx: int, by: int, n: int) -> Set<int> {
    Set::new(
        |i: int|
            0 <= i < tiles.len() && tiles[i].state is Full && in_block(
                bx,
                by,
                n,
                tiles[i].x as int,
                tiles[i].y as int,
            ),
    )
}

/// A completely full square of side `n` holds at least `n * n` full tiles.
pub proof fn lemma_full_block_count(tiles: Seq<Tile>, bx: int, by: int, n: int)
    requires
        0 <= n,
        block_full(tiles, bx, by, n),
    ensures
        full_in_block(tiles, bx, by, n).finite(),
        full_in_block(tiles, bx, by, n).len() >= n * n,
{
    let inside = full_in_block(tiles, bx, by, n);
    let all = set_int_range(0, tiles.len() as int);
    lemma_int_range(0, tiles.len() as int);
    assert(inside.subset_of(all));
    lemma_len_subset(inside, all);
    if n > 0 {
        assert(0 <= n * n) by (nonlinear_arith)
            requires
                0 <= n,
        ;
        let grid = set_int_range(0, n * n);
        lemma_int_range(0, n * n);
        let code = |i: int| (tiles[i].x - bx) * n + (tiles[i].y - by);
        let image = inside.map(code);
        lemma_map_size_bound(inside, image, code);
        assert forall|k: int| grid.contains(k) implies image.contains(k) by {
            let dx = k / n;
            let dy = k % n;
            lemma_fundamental_div_mod(k, n);
            lemma_mod_bound(k, n);
            assert(0 <= dx) by (nonlinear_arith)
                requires
                    0 <= k,
                    0 < n,
                    dx == k / n,
            ;
            assert(dx < n) by {
                if dx >= n {
                    assert(n * dx >= n * n) by (nonlinear_arith)
                        requires
                            dx >= n,
                            n > 0,
                    ;
                }
            }
            assert(in_block(bx, by, n, bx + dx, by + dy));
            assert(is_full(tiles, bx + dx, by + dy));
            let i = choose|i: int|
                0 <= i < tiles.len() && at(#[trigger] tiles[i], bx + dx, by + dy) && tiles[i].state is Full;
            assert(inside.contains(i));
            assert(code(i) == dx * n + dy);
            assert(dx * n == n * dx) by (nonlinear_arith);
            assert(code(i) == k);
        }
        assert(grid.subset_of(image));
        lemma_len_subset(grid, image);
    } else {
        assert(n * n == 0);
    }
}

/// Where every square window of side `n` holds fewer than `n * n` full
/// tiles, the square rule clears nothing.
pub proof fn lemma_sparse_board_clears_nothing(tiles: Seq<Tile>, n: int)
    requires
        0 <= n,
        forall|bx: int, by: int| (#[trigger] full_in_block(tiles, bx, by, n)).len() < n * n,
    ensures
        forall|i: int| 0 <= i < tiles.len() ==> !square_eligible(tiles, n, i),
{
    assert forall|i: int| 0 <= i < tiles.len() implies !square_eligible(tiles, n, i) by {
        if square_eligible(tiles, n, i) {
            let (bx, by) = choose|bx: int, by: int| #[trigger]
                block_full(tiles, bx, by, n) && in_block(
                    bx,
                    by,
                    n,
                    tiles[i].x as int,
                    tiles[i].y as int,
                );
            lemma_full_block_count(tiles, bx, by, n);
            assert(full_in_block(tiles, bx, by, n).len() < n * n);
        }
    }
}

/// Whether the board has a full tile `k` positions along the run from
/// `(sx, sy)`.
pub open spec fn full_along(tiles: Seq<Tile>, sx: int, sy: int, horizontal: bool, k: int) -> bool {
    if horizontal {
        is_full(tiles, sx + k, sy)
    } else {
        is_full(tiles, sx, sy + k)
    }
}

/// A gap keeps a line from scoring on both of its sides: where some cell
/// of the board that is not full lies on the line through tile `i`, `g`
/// positions from it, with nothing but cells of the board between the two,
/// tile `i` is not cleared by the line rule in that direction.
pub proof fn lemma_gap_blocks_line(tiles: Seq<Tile>, horizontal: bool, i: int, g: int)
    requires
        0 <= i < tiles.len(),
        !full_along(tiles, tiles[i].x as int, tiles[i].y as int, horizontal, g),
        forall|k: int|
            (0 <= k <= g || g <= k <= 0) ==> #[trigger] cell_along(
                tiles,
                tiles[i].x as int,
                tiles[i].y as int,
                horizontal,
                k,
            ),
    ensures
        !line_eligible(tiles, horizontal, i),
{
    let x = tiles[i].x as int;
    let y = tiles[i].y as int;
    if line_eligible(tiles, horizontal, i) {
        let (s, m) = choose|s: int, m: int|
            0 <= s < tiles.len() && 0 <= m && #[trigger] line_from(tiles, horizontal, s, m, i);
        let sx = tiles[s].x as int;
        let sy = tiles[s].y as int;
        // how far tile `i` is along the run
        let d = if horizontal {
            x - sx
        } else {
            y - sy
        };
        if g < -d {
            // the gap lies before the run: so does the step before the run
            assert(cell_along(tiles, x, y, horizontal, -d - 1));
            assert(cell_along(tiles, sx, sy, horizontal, -1));
        } else if g > m - d {
            // the gap lies behind the run: so does the step behind the run
            assert(cell_along(tiles, x, y, horizontal, m - d + 1));
            assert(cell_along(tiles, sx, sy, horizontal, m + 1));
        } else {
            // the gap lies on the run, which is full
            if horizontal {
                assert(on_run(sx, sy, horizontal, m, x + g, y));
                assert(is_full(tiles, x + g, y));
            } else {
                assert(on_run(sx, sy, horizontal, m, x, y + g));
                assert(is_full(tiles, x, y + g));
            }
        }
    }
}

/// Clearing empties tiles and moves none: a position that is full after
/// it was full before, and the board has the same cells.
proof fn lemma_clearing_only_empties(tiles: Seq<Tile>, cells: Set<int>)
    ensures
        forall|x: int, y: int| #[trigger]
            is_full(clear_all(tiles, cells), x, y) ==> is_full(tiles, x, y),
        forall|x: int, y: int| #[trigger]
            is_cell(clear_all(tiles, cells), x, y) <==> is_cell(tiles, x, y),
{
    let after = clear_all(tiles, cells);
    assert forall|x: int, y: int| #[trigger] is_full(after, x, y) implies is_full(tiles, x, y) by {
        let i = choose|i: int|
            0 <= i < after.len() && at(#[trigger] after[i], x, y) && after[i].state is Full;
        assert(at(tiles[i], x, y) && tiles[i].state is Full);
    }
    assert forall|x: int, y: int| #[trigger] is_cell(after, x, y) <==> is_cell(tiles, x, y) by {
        if is_cell(after, x, y) {
            let i = choose|i: int| 0 <= i < after.len() && at(#[trigger] after[i], x, y);
            assert(at(tiles[i], x, y));
        }
        if is_cell(tiles, x, y) {
            let i = choose|i: int| 0 <= i < tiles.len() && at(#[trigger] tiles[i], x, y);
            assert(at(after[i], x, y));
        }
    }
}

/// Once the cells that a rule clears are cleared, the rule clears nothing
/// more: scoring a board that has not changed since is of no effect.
pub proof fn lemma_cleared_board_clears_nothing(tiles: Seq<Tile>, rule: Scorer)
    requires
        distinct_positions(tiles),
    ensures
        cleared(clear_all(tiles, cleared(tiles, rule)), rule) =~= Set::<int>::empty(),
{
    let cells = cleared(tiles, rule);
    let after = clear_all(tiles, cells);
    lemma_clearing_only_empties(tiles, cells);
    assert forall|i: int| 0 <= i < after.len() implies !eligible(after, rule, i) by {
        if eligible(after, rule, i) {
            match rule {
                Scorer::Square(n) => {
                    let (bx, by) = choose|bx: int, by: int| #[trigger]
                        block_full(after, bx, by, n as int) && in_block(
                            bx,
                            by,
                            n as int,
                            after[i].x as int,
                            after[i].y as int,
                        );
                    assert forall|x: int, y: int| in_block(bx, by, n as int, x, y) implies #[trigger] is_full(
                        tiles,
                        x,
                        y,
                    ) by {
                        assert(is_full(after, x, y));
                    }
                    assert(block_full(tiles, bx, by, n as int));
                    assert(square_eligible(tiles, n as int, i));
                    assert(cells.contains(i));
                },
                Scorer::Line(direction) => {
                    let horizontal = if line_eligible(after, true, i) && !(direction
                        is Vertical) {
                        true
                    } else {
                        false
                    };
                    assert(line_eligible(after, horizontal, i));
                    let (s, m) = choose|s: int, m: int|
                        0 <= s < after.len() && 0 <= m && #[trigger] line_from(
                            after,
                            horizontal,
                            s,
                            m,
                            i,
                        );
                    let sx = after[s].x as int;
                    let sy = after[s].y as int;
                    assert forall|x: int, y: int|
                        on_run(sx, sy, horizontal, m, x, y) implies #[trigger] is_full(tiles, x, y) by {
                        assert(is_full(after, x, y));
                    }
                    assert(run_full(tiles, sx, sy, horizontal, m));
                    assert(line_from(tiles, horizontal, s, m, i));
                    assert(line_eligible(tiles, horizontal, i));
                    assert(cells.contains(i));
                    // the tile is emptied, yet its place is said to be full
                    assert(is_full(after, after[i].x as int, after[i].y as int));
                    let u = choose|u: int|
                        0 <= u < after.len() && at(
                            #[trigger] after[u],
                            after[i].x as int,
                            after[i].y as int,
                        ) && after[u].state is Full;
                    assert(tiles[u].x == tiles[i].x && tiles[u].y == tiles[i].y);
                    assert(u == i);
                },
            }
        }
    }
}

/// The first full tile at `(x, y)`, if there is one.
fn find_full_at(tiles: &Vec<Tile>, x: i128, y: i128) -> (r: Option<usize>)
    ensures
        match r {
            Some(i) => i < tiles.len() && at(tiles[i as int], x as int, y as int)
                && tiles[i as int].state is Full,
            None => !is_full(tiles@, x as int, y as int),
        },
{
    let mut i: usize = 0;
    while i < tiles.len()
        invariant
            i <= tiles.len(),
            forall|j: int|
                0 <= j < i ==> !(at(#[trigger] tiles[j], x as int, y as int)
                    && tiles[j].state is Full),
        decreases tiles.len() - i,
    {
        if tiles[i].x as i128 == x && tiles[i].y as i128 == y && tiles[i].state.is_full() {
            return Some(i);
        }
        i += 1;
    }
    None
}

/// Whether the square of side `n` with bottom-left corner `(bx, by)` is full.
fn block_is_full(tiles: &Vec<Tile>, bx: isize, by: isize, n: usize) -> (r: bool)
    ensures
        r == block_full(tiles@, bx as int, by as int, n as int),
{
    let mut dx: usize = 0;
    while dx < n
        invariant
            dx <= n,
            forall|x: int, y: int|
                bx <= x < bx + dx && by <= y < by + n ==> #[trigger] is_full(tiles@, x, y),
        decreases n - dx,
    {
        let x: i128 = bx as i128 + dx as i128;
        let mut dy: usize = 0;
        while dy < n
            invariant
                dy <= n,
                dx < n,
                x == bx + dx,
                forall|y: int| by <= y < by + dy ==> #[trigger] is_full(tiles@, x as int, y),
            decreases n - dy,
        {
            let y: i128 = by as i128 + dy as i128;
            if find_full_at(tiles, x, y).is_none() {
                assert(in_block(bx as int, by as int, n as int, x as int, y as int));
                return false;
            }
            dy += 1;
        }
        dx += 1;
    }
    true
}

/// A vector of `n` times `false`.
fn unmarked(n: usize) -> (marks: Vec<bool>)
    ensures
        marks.len() == n,
        forall|i: int| 0 <= i < n ==> !marks[i],
{
    let mut marks: Vec<bool> = Vec::new();
    while marks.len() < n
        invariant
            marks.len() <= n,
            forall|i: int| 0 <= i < marks.len() ==> !marks[i],
        decreases n - marks.len(),
    {
        marks.push(false);
    }
    marks
}

/// For each tile, whether it is cleared under the square rule of side `n`.
pub fn square_marks(tiles: &Vec<Tile>, n: usize) -> (marks: Vec<bool>)
    ensures
        marks.len() == tiles.len(),
        forall|i: int| 0 <= i < tiles.len() ==> marks[i] == square_eligible(tiles@, n as int, i),
{
    let mut marks = unmarked(tiles.len());
    let mut b: usize = 0;
    while b < tiles.len()
        invariant
            b <= tiles.len(),
            marks.len() == tiles.len(),
            forall|i: int| 0 <= i < tiles.len() && marks[i] ==> square_eligible(tiles@, n as int, i),
            forall|i: int, c: int|
                0 <= i < tiles.len() && 0 <= c < b && tiles[i].state is Full && block_full(
                    tiles@,
                    #[trigger] tiles[c].x as int,
                    tiles[c].y as int,
                    n as int,
                ) && in_block(
                    tiles[c].x as int,
                    tiles[c].y as int,
                    n as int,
                    #[trigger] tiles[i].x as int,
                    tiles[i].y as int,
                ) ==> marks[i],
        decreases tiles.len() - b,
    {
        let bx: isize = tiles[b].x;
        let by: isize = tiles[b].y;
        if block_is_full(tiles, bx, by, n) {
            let mut i: usize = 0;
            while i < tiles.len()
                invariant
                    i <= tiles.len(),
                    b < tiles.len(),
                    bx == tiles[b as int].x,
                    by == tiles[b as int].y,
                    marks.len() == tiles.len(),
                    block_full(tiles@, bx as int, by as int, n as int),
                    forall|j: int|
                        0 <= j < tiles.len() && marks[j] ==> square_eligible(tiles@, n as int, j),
                    forall|j: int, c: int|
                        0 <= j < tiles.len() && 0 <= c < b && tiles[j].state is Full && block_full(
                            tiles@,
                            #[trigger] tiles[c].x as int,
                            tiles[c].y as int,
                            n as int,
                        ) && in_block(
                            tiles[c].x as int,
                            tiles[c].y as int,
                            n as int,
                            #[trigger] tiles[j].x as int,
                            tiles[j].y as int,
                        ) ==> marks[j],
                    forall|j: int|
                        0 <= j < i && tiles[j].state is Full && in_block(
                            bx as int,
                            by as int,
                            n as int,
                            #[trigger] tiles[j].x as int,
                            tiles[j].y as int,
                        ) ==> marks[j],
                decreases tiles.len() - i,
            {
                let x: i128 = tiles[i].x as i128;
                let y: i128 = tiles[i].y as i128;
                let inside: bool = bx as i128 <= x && x < bx as i128 + n as i128 && by as i128 <= y
                    && y < by as i128 + n as i128;
                if inside && tiles[i].state.is_full() {
                    marks.set(i, true);
                }
                i += 1;
            }
        }
        b += 1;
    }
    proof {
        assert forall|i: int| 0 <= i < tiles.len() && square_eligible(tiles@, n as int, i) implies marks[i] by {
            let (bx, by) = choose|bx: int, by: int| #[trigger]
                block_full(tiles@, bx, by, n as int) && in_block(
                    bx,
                    by,
                    n as int,
                    tiles[i].x as int,
                    tiles[i].y as int,
                );
            assert(in_block(bx, by, n as int, bx, by));
            assert(is_full(tiles@, bx, by));
            let c = choose|c: int|
                0 <= c < tiles.len() && at(#[trigger] tiles@[c], bx, by) && tiles@[c].state is Full;
            assert(block_full(tiles@, tiles[c].x as int, tiles[c].y as int, n as int));
        }
    }
    marks
}


/// Walks from tile `s` along the scoring direction through full tiles. Gives
/// the number of steps taken when the walk leaves the board, and `None` when
/// it meets a cell that is not full.
fn walk(tiles: &Vec<Tile>, s: usize, horizontal: bool) -> (r: Option<u128>)
    requires
        s < tiles.len(),
        tiles[s as int].state is Full,
        distinct_positions(tiles@),
    ensures
        match r {
            Some(m) => run_ends(
                tiles@,
                tiles[s as int].x as int,
                tiles[s as int].y as int,
                horizontal,
                m as int,
            ),
            None => true,
        },
        forall|m: int|
            0 <= m && #[trigger] run_ends(
                tiles@,
                tiles[s as int].x as int,
                tiles[s as int].y as int,
                horizontal,
                m,
            ) ==> r is Some && r->0 == m,
{
    let sx: i128 = tiles[s].x as i128;
    let sy: i128 = tiles[s].y as i128;
    let mut m: u128 = 0;
    assert(run_full(tiles@, sx as int, sy as int, horizontal, 0)) by {
        assert(at(tiles@[s as int], sx as int, sy as int));
    }
    loop
        invariant
            s < tiles.len(),
            distinct_positions(tiles@),
            sx == tiles[s as int].x,
            sy == tiles[s as int].y,
            horizontal ==> sx + m <= isize::MAX,
            !horizontal ==> sy + m <= isize::MAX,
            run_full(tiles@, sx as int, sy as int, horizontal, m as int),
            forall|k: int| 0 <= k <= m ==> #[trigger] cell_along(tiles@, sx as int, sy as int, horizontal, k),
        decreases
                (if horizontal {
                    isize::MAX - sx - m
                } else {
                    isize::MAX - sy - m
                }),
    {
        let nx: i128 = if horizontal {
            sx + m as i128 + 1
        } else {
            sx
        };
        let ny: i128 = if horizontal {
            sy
        } else {
            sy + m as i128 + 1
        };
        match find_tile(tiles, nx, ny) {
            None => {
                proof {
                    assert(!cell_along(tiles@, sx as int, sy as int, horizontal, m + 1));
                    assert forall|k: int|
                        0 <= k && #[trigger] run_ends(
                            tiles@,
                            sx as int,
                            sy as int,
                            horizontal,
                            k,
                        ) implies k == m by {
                        if k < m {
                            assert(cell_along(tiles@, sx as int, sy as int, horizontal, k + 1));
                        }
                        if k > m {
                            assert(on_run(sx as int, sy as int, horizontal, k, nx as int, ny as int));
                            assert(is_full(tiles@, nx as int, ny as int));
                        }
                    }
                }
                return Some(m);
            },
            Some(t) => {
                if tiles[t].state.is_full() {
                    proof {
                        assert forall|x: int, y: int|
                            on_run(sx as int, sy as int, horizontal, m + 1, x, y) implies #[trigger] is_full(
                            tiles@,
                            x,
                            y,
                        ) by {
                            if on_run(sx as int, sy as int, horizontal, m as int, x, y) {
                            } else {
                                assert(x == nx && y == ny);
                                assert(at(tiles@[t as int], x, y));
                            }
                        }
                        assert(cell_along(tiles@, sx as int, sy as int, horizontal, m + 1)) by {
                            assert(at(tiles@[t as int], nx as int, ny as int));
                        }
                    }
                    m = m + 1;
                } else {
                    proof {
                        assert forall|k: int| 0 <= k implies !#[trigger] run_ends(
                            tiles@,
                            sx as int,
                            sy as int,
                            horizontal,
                            k,
                        ) by {
                            if k < m {
                                assert(cell_along(tiles@, sx as int, sy as int, horizontal, k + 1));
                            } else if k == m {
                                assert(at(tiles@[t as int], nx as int, ny as int));
                                assert(cell_along(tiles@, sx as int, sy as int, horizontal, k + 1));
                            } else if run_full(tiles@, sx as int, sy as int, horizontal, k) {
                                assert(on_run(sx as int, sy as int, horizontal, k, nx as int, ny as int));
                                assert(is_full(tiles@, nx as int, ny as int));
                                let u = choose|u: int|
                                    0 <= u < tiles.len() && at(#[trigger] tiles@[u], nx as int, ny as int)
                                        && tiles@[u].state is Full;
                                assert(u == t);
                            }
                        }
                    }
                    return None;
                }
            },
        }
    }
}

/// For each tile, whether it is cleared under the line rule in one direction.
pub fn line_marks(tiles: &Vec<Tile>, horizontal: bool) -> (marks: Vec<bool>)
    requires
        distinct_positions(tiles@),
    ensures
        marks.len() == tiles.len(),
        forall|i: int| 0 <= i < tiles.len() ==> marks[i] == line_eligible(tiles@, horizontal, i),
{
    let mut marks = unmarked(tiles.len());
    let mut s: usize = 0;
    while s < tiles.len()
        invariant
            s <= tiles.len(),
            marks.len() == tiles.len(),
            distinct_positions(tiles@),
            forall|i: int| 0 <= i < tiles.len() && marks[i] ==> line_eligible(tiles@, horizontal, i),
            forall|i: int, c: int, m: int|
                0 <= i < tiles.len() && 0 <= c < s && 0 <= m && #[trigger] line_from(
                    tiles@,
                    horizontal,
                    c,
                    m,
                    i,
                ) ==> marks[i],
        decreases tiles.len() - s,
    {
        let sx: i128 = tiles[s].x as i128;
        let sy: i128 = tiles[s].y as i128;
        let px: i128 = if horizontal {
            sx - 1
        } else {
            sx
        };
        let py: i128 = if horizontal {
            sy
        } else {
            sy - 1
        };
        let border: bool = find_tile(tiles, px, py).is_none();
        proof {
            assert(border == !cell_along(tiles@, sx as int, sy as int, horizontal, -1));
        }
        if tiles[s].state.is_full() && border {
            match walk(tiles, s, horizontal) {
                Some(m) => {
                    let mut i: usize = 0;
                    while i < tiles.len()
                        invariant
                            i <= tiles.len(),
                            s < tiles.len(),
                            marks.len() == tiles.len(),
                            sx == tiles[s as int].x,
                            sy == tiles[s as int].y,
                            tiles[s as int].state is Full,
                            !cell_along(tiles@, sx as int, sy as int, horizontal, -1),
                            run_ends(tiles@, sx as int, sy as int, horizontal, m as int),
                            forall|j: int|
                                0 <= j < tiles.len() && marks[j] ==> line_eligible(tiles@, horizontal, j),
                            forall|j: int, c: int, k: int|
                                0 <= j < tiles.len() && 0 <= c < s && 0 <= k && #[trigger] line_from(
                                    tiles@,
                                    horizontal,
                                    c,
                                    k,
                                    j,
                                ) ==> marks[j],
                            forall|j: int|
                                0 <= j < i && on_run(
                                    sx as int,
                                    sy as int,
                                    horizontal,
                                    m as int,
                                    #[trigger] tiles[j].x as int,
                                    tiles[j].y as int,
                                ) ==> marks[j],
                        decreases tiles.len() - i,
                    {
                        let x: i128 = tiles[i].x as i128;
                        let y: i128 = tiles[i].y as i128;
                        let on: bool = if horizontal {
                            y == sy && sx <= x && (x - sx) as u128 <= m
                        } else {
                            x == sx && sy <= y && (y - sy) as u128 <= m
                        };
                        if on {
                            proof {
                                assert(line_from(tiles@, horizontal, s as int, m as int, i as int));
                            }
                            marks.set(i, true);
                        }
                        i += 1;
                    }
                },
                None => {},
            }
        }
        proof {
            assert forall|i: int, m: int|
                0 <= i < tiles.len() && 0 <= m && #[trigger] line_from(
                    tiles@,
                    horizontal,
                    s as int,
                    m,
                    i,
                ) implies marks[i] by {
                assert(run_ends(tiles@, sx as int, sy as int, horizontal, m));
            }
        }
        s += 1;
    }
    marks
}

/// For each tile, whether it is cleared under `rule`.
pub fn marks_for(tiles: &Vec<Tile>, rule: Scorer) -> (marks: Vec<bool>)
    requires
        distinct_positions(tiles@),
    ensures
        marks.len() == tiles.len(),
        forall|i: int| 0 <= i < tiles.len() ==> marks[i] == eligible(tiles@, rule, i),
{
    match rule {
        Scorer::Square(n) => square_marks(tiles, n),
        Scorer::Line(ScoreDirection::Vertical) => line_marks(tiles, false),
        Scorer::Line(ScoreDirection::Horizontal) => line_marks(tiles, true),
        Scorer::Line(ScoreDirection::Both) => {
            let up = line_marks(tiles, false);
            let mut marks = line_marks(tiles, true);
            let mut i: usize = 0;
            while i < tiles.len()
                invariant
                    i <= tiles.len(),
                    up.len() == tiles.len(),
                    marks.len() == tiles.len(),
                    forall|j: int| 0 <= j < tiles.len() ==> up[j] == line_eligible(tiles@, false, j),
                    forall|j: int|
                        0 <= j < i ==> marks[j] == (line_eligible(tiles@, false, j) || line_eligible(
                            tiles@,
                            true,
                            j,
                        )),
                    forall|j: int| i <= j < tiles.len() ==> marks[j] == line_eligible(tiles@, true, j),
                decreases tiles.len() - i,
            {
                if up[i] {
                    marks.set(i, true);
                }
                i += 1;
            }
            marks
        },
    }
}

/// The cells of the board that `rule` clears, each once, by rising index.
pub fn score(board: &GameBoard, rule: Scorer) -> (cells: Vec<usize>)
    requires
        board.wf(),
    ensures
        forall|a: int, b: int| 0 <= a < b < cells.len() ==> cells[a] < cells[b],
        forall|a: int| 0 <= a < cells.len() ==> cells[a] < board@.len(),
        forall|i: int|
            0 <= i < board@.len() ==> (cells@.contains(i as usize) <==> eligible(board@, rule, i)),
        cells@.len() == cleared(board@, rule).len(),
{
    let tiles = board.tiles();
    let marks = marks_for(tiles, rule);
    let mut cells: Vec<usize> = Vec::new();
    let mut i: usize = 0;
    while i < tiles.len()
        invariant
            i <= tiles.len(),
            marks.len() == tiles.len(),
            forall|a: int, b: int| 0 <= a < b < cells.len() ==> cells[a] < cells[b],
            forall|a: int| 0 <= a < cells.len() ==> cells[a] < i,
            forall|j: int| 0 <= j < i ==> (cells@.contains(j as usize) <==> marks[j]),
            tiles@ == board@,
            forall|j: int| 0 <= j < tiles.len() ==> marks[j] == eligible(tiles@, rule, j),
        decreases tiles.len() - i,
    {
        if marks[i] {
            let ghost before = cells@;
            cells.push(i);
            proof {
                assert(cells@[before.len() as int] == i);
                assert forall|j: int| 0 <= j < i + 1 implies (cells@.contains(j as usize) <==> marks[j]) by {
                    if j < i {
                        if before.contains(j as usize) {
                            let k = choose|k: int| 0 <= k < before.len() && before[k] == j as usize;
                            assert(cells@[k] == j as usize);
                        }
                    }
                }
            }
        } else {
            proof {
                assert(!cells@.contains(i));
            }
        }
        i += 1;
    }
    proof {
        assert forall|j: int| 0 <= j < board@.len() implies (cells@.contains(j as usize) <==> eligible(
            board@,
            rule,
            j,
        )) by {
            assert(marks[j] == eligible(tiles@, rule, j));
        }
        let indices = cells@.map_values(|u: usize| u as int);
        assert(indices.no_duplicates());
        assert forall|j: int| indices.to_set().contains(j) <==> cleared(board@, rule).contains(j) by {
            if indices.to_set().contains(j) {
                let k = choose|k: int| 0 <= k < indices.len() && indices[k] == j;
                assert(cells@[k] == j as usize);
                assert(cells@.contains(j as usize));
            }
            if cleared(board@, rule).contains(j) {
                assert(cells@.contains(j as usize));
                let k = choose|k: int| 0 <= k < cells@.len() && cells@[k] == j as usize;
                assert(indices[k] == j);
            }
        }
        assert(indices.to_set() =~= cleared(board@, rule));
        indices.unique_seq_to_set();
    }
    cells
}

} // verus!
