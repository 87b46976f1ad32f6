//! Board tiles and the board.

use crate::assets::map::MapAsset;
use crate::assets::pattern::PatternColor;
use crate::components::active::{ActiveEntity, ActiveView};
use vstd::prelude::*;

verus! {

/// What a tile holds.
#[derive(Clone, Copy, Debug, PartialEq, Eq, Structural, Hash)]
pub enum TileState {
    /// Free for a piece.
    Empty,
    /// Filled by a committed piece of this color.
    Full(PatternColor),
    /// A cleared cell's decoration, on its way out. Never on the board.
    Scored,
}

/// How a tile relates to the active piece above it.
#[derive(Clone, Copy, Debug, PartialEq, Eq, Structural, Hash)]
pub enum TileStyle {
    /// Not under the active piece.
    Plain,
    /// Empty and under the active piece.
    Hover,
    /// Full and under the active piece.
    Invalid,
}

/// One cell, at whole board coordinates.
#[derive(Clone, Copy, Debug, PartialEq, Eq, Structural, Hash)]
pub struct Tile {
    pub x: isize,
    pub y: isize,
    pub state: TileState,
    pub style: TileStyle,
}

/// Whether `tile` lies at `(x, y)`.
pub open spec fn at(tile: Tile, x: int, y: int) -> bool {
    tile.x == x && tile.y == y
}

/// Whether some tile of `tiles` lies at `(x, y)`.
pub open spec fn is_cell(tiles: Seq<Tile>, x: int, y: int) -> bool {
    exists|i: int| 0 <= i < tiles.len() && at(#[trigger] tiles[i], x, y)
}

/// Whether some full tile of `tiles` lies at `(x, y)`.
pub open spec fn is_full(tiles: Seq<Tile>, x: int, y: int) -> bool {
    exists|i: int| 0 <= i < tiles.len() && at(#[trigger] tiles[i], x, y) && tiles[i].state is Full
}

/// Whether some empty tile of `tiles` lies at `(x, y)`.
pub open spec fn is_empty_at(tiles: Seq<Tile>, x: int, y: int) -> bool {
    exists|i: int| 0 <= i < tiles.len() && at(#[trigger] tiles[i], x, y) && tiles[i].state is Empty
}

/// The style of a tile in `state` that the active piece covers or not.
pub open spec fn style_for(state: TileState, covered: bool) -> TileStyle {
    if !covered {
        TileStyle::Plain
    } else {
        match state {
            TileState::Empty => TileStyle::Hover,
            TileState::Full(_) => TileStyle::Invalid,
            TileState::Scored => TileStyle::Plain,
        }
    }
}

/// `tile` with the style it has under `piece`.
pub open spec fn restyled(tile: Tile, piece: ActiveView) -> Tile {
    Tile { style: style_for(tile.state, piece.covers(tile.x as int, tile.y as int)), ..tile }
}

/// Every tile has the style it has under `piece`.
pub open spec fn styled(tiles: Seq<Tile>, piece: ActiveView) -> bool {
    forall|i: int| 0 <= i < tiles.len() ==> #[trigger] tiles[i] == restyled(tiles[i], piece)
}

/// The piece can be committed: its blocks lie on as many different cells
/// of the board, all of them empty.
pub open spec fn fits(tiles: Seq<Tile>, piece: ActiveView) -> bool {
    &&& forall|j: int, k: int|
        0 <= j < k < piece.pattern.blocks.len() ==> #[trigger] piece.cell(j) != #[trigger] piece.cell(k)
    &&& forall|j: int|
        0 <= j < piece.pattern.blocks.len() ==> is_empty_at(
            tiles,
            (#[trigger] piece.cell(j)).0,
            piece.cell(j).1,
        )
}

/// `tile` after the hovered tiles were filled with `color`.
pub open spec fn filled(tile: Tile, color: PatternColor) -> Tile {
    if tile.style is Hover {
        Tile { state: TileState::Full(color), style: TileStyle::Plain, ..tile }
    } else {
        tile
    }
}

/// `tile` emptied.
pub open spec fn emptied(tile: Tile) -> Tile {
    Tile { state: TileState::Empty, style: TileStyle::Plain, ..tile }
}

/// The coordinates of `tiles`, in order.
pub open spec fn positions(tiles: Seq<Tile>) -> Seq<(isize, isize)> {
    tiles.map_values(|t: Tile| (t.x, t.y))
}

/// No two tiles share their coordinates.
pub open spec fn distinct_positions(tiles: Seq<Tile>) -> bool {
    forall|i: int, j: int|
        0 <= i < tiles.len() && 0 <= j < tiles.len() && (#[trigger] tiles[i]).x == (
        #[trigger] tiles[j]).x && tiles[i].y == tiles[j].y ==> i == j
}

/// Every cell has its own coordinates and none is a decoration.
pub open spec fn board_wf(tiles: Seq<Tile>) -> bool {
    &&& distinct_positions(tiles)
    &&& forall|i: int| 0 <= i < tiles.len() ==> !((#[trigger] tiles[i]).state is Scored)
}

/// `tiles`, each with the style it has under `piece`.
pub open spec fn restyle_all(tiles: Seq<Tile>, piece: ActiveView) -> Seq<Tile> {
    Seq::new(tiles.len(), |i: int| restyled(tiles[i], piece))
}

/// `tiles` after the hovered ones were filled with `color`.
pub open spec fn fill_all(tiles: Seq<Tile>, color: PatternColor) -> Seq<Tile> {
    Seq::new(tiles.len(), |i: int| filled(tiles[i], color))
}

/// `tiles` after those with an index in `cells` were emptied.
pub open spec fn clear_all(tiles: Seq<Tile>, cells: Set<int>) -> Seq<Tile> {
    Seq::new(
        tiles.len(),
        |i: int|
            if cells.contains(i) {
                emptied(tiles[i])
            } else {
                tiles[i]
            },
    )
}

/// `cells` without the coordinates that have come before in it.
pub open spec fn first_of_each(cells: Seq<(isize, isize)>) -> Seq<(isize, isize)>
    decreases cells.len(),
{
    if cells.len() == 0 {
        Seq::empty()
    } else {
        let before = first_of_each(cells.drop_last());
        if cells.drop_last().contains(cells.last()) {
            before
        } else {
            before.push(cells.last())
        }
    }
}

/// `tiles` is the board of the map with the coordinates `cells`: one empty
/// tile for each coordinate, in the map's order, a coordinate that comes
/// again being left out.
pub open spec fn laid_out(tiles: Seq<Tile>, cells: Seq<(isize, isize)>) -> bool {
    &&& positions(tiles) == first_of_each(cells)
    &&& forall|i: int|
        0 <= i < tiles.len() ==> (#[trigger] tiles[i]).state is Empty && tiles[i].style is Plain
}

/// Whether some hovered tile of `tiles` lies at `(x, y)`.
pub open spec fn is_hovered_at(tiles: Seq<Tile>, x: int, y: int) -> bool {
    exists|i: int| 0 <= i < tiles.len() && at(#[trigger] tiles[i], x, y) && tiles[i].style is Hover
}

/// On a board styled for the piece, the piece fits exactly when the
/// hovered tiles and the piece's blocks are the same cells, as many of the
/// one as of the other: every hovered tile lies under a block, every block
/// lies on a hovered tile, and no two blocks lie on the same.
pub proof fn lemma_fits_means_hovered(tiles: Seq<Tile>, piece: ActiveView)
    requires
        styled(tiles, piece),
    ensures
        forall|i: int|
            0 <= i < tiles.len() && (#[trigger] tiles[i]).style is Hover ==> piece.covers(
                tiles[i].x as int,
                tiles[i].y as int,
            ),
        fits(tiles, piece) <==> {
            &&& forall|j: int, k: int|
                0 <= j < k < piece.pattern.blocks.len() ==> #[trigger] piece.cell(j)
                    != #[trigger] piece.cell(k)
            &&& forall|j: int|
                0 <= j < piece.pattern.blocks.len() ==> is_hovered_at(
                    tiles,
                    (#[trigger] piece.cell(j)).0,
                    piece.cell(j).1,
                )
        },
{
    assert forall|i: int| 0 <= i < tiles.len() && (#[trigger] tiles[i]).style is Hover implies piece.covers(
        tiles[i].x as int,
        tiles[i].y as int,
    ) by {
        assert(tiles[i] == restyled(tiles[i], piece));
    }
    assert forall|j: int| 0 <= j < piece.pattern.blocks.len() implies (is_hovered_at(
        tiles,
        (#[trigger] piece.cell(j)).0,
        piece.cell(j).1,
    ) <==> is_empty_at(tiles, piece.cell(j).0, piece.cell(j).1)) by {
        let x = piece.cell(j).0;
        let y = piece.cell(j).1;
        if is_hovered_at(tiles, x, y) {
            let i = choose|i: int|
                0 <= i < tiles.len() && at(#[trigger] tiles[i], x, y) && tiles[i].style is Hover;
            assert(tiles[i] == restyled(tiles[i], piece));
        }
        if is_empty_at(tiles, x, y) {
            let i = choose|i: int|
                0 <= i < tiles.len() && at(#[trigger] tiles[i], x, y) && tiles[i].state is Empty;
            assert(tiles[i] == restyled(tiles[i], piece));
            assert(piece.covers(x, y));
        }
    }
}

/// Tile `i` is the first of `tiles` that lies at `(x, y)`.
pub open spec fn is_first_at(tiles: Seq<Tile>, x: int, y: int, i: int) -> bool {
    &&& 0 <= i < tiles.len()
    &&& at(tiles[i], x, y)
    &&& forall|j: int| 0 <= j < i ==> !at(#[trigger] tiles[j], x, y)
}

/// The index of the first tile at `(x, y)`, if there is a cell there.
pub fn find_tile(tiles: &Vec<Tile>, x: i128, y: i128) -> (r: Option<usize>)
    ensures
        match r {
            Some(i) => is_first_at(tiles@, x as int, y as int, i as int),
            None => !is_cell(tiles@, x as int, y as int),
        },
{
    let mut i: usize = 0;
    while i < tiles.len()
        invariant
            i <= tiles.len(),
            forall|j: int| 0 <= j < i ==> !at(#[trigger] tiles[j], x as int, y as int),
        decreases tiles.len() - i,
    {
        if tiles[i].x as i128 == x && tiles[i].y as i128 == y {
            return Some(i);
        }
        i += 1;
    }
    None
}

impl TileState {
    /// Whether the tile is filled.
    pub fn is_full(&self) -> (b: bool)
        ensures
            b == (*self is Full),
    {
        match self {
            TileState::Full(_) => true,
            _ => false,
        }
    }
}

/// The board of a round: a fixed set of cells, each at its own coordinates.
pub struct GameBoard {
    tiles: Vec<Tile>,
}

impl View for GameBoard {
    type V = Seq<Tile>;

    closed spec fn view(&self) -> Seq<Tile> {
        self.tiles@
    }
}

impl GameBoard {
    /// The board's tiles are well formed.
    pub open spec fn wf(&self) -> bool {
        board_wf(self@)
    }

    /// The board of `map`: one empty tile for each of the map's coordinates,
    /// in the map's order, a coordinate that comes again being left out.
    pub fn from_map(map: &MapAsset) -> (board: GameBoard)
        ensures
            board.wf(),
            laid_out(board@, map.pattern@),
            forall|x: int, y: int|
                is_cell(board@, x, y) <==> exists|k: int|
                    0 <= k < map.pattern@.len() && (#[trigger] map.pattern@[k]).0 == x
                        && map.pattern@[k].1 == y,
    {
        let mut board = GameBoard { tiles: Vec::new() };
        let mut k: usize = 0;
        while k < map.pattern.len()
            invariant
                k <= map.pattern.len(),
                board.wf(),
                forall|i: int|
                    0 <= i < board@.len() ==> (#[trigger] board@[i]).state is Empty
                        && board@[i].style is Plain,
                forall|x: int, y: int|
                    is_cell(board@, x, y) <==> exists|j: int|
                        0 <= j < k && (#[trigger] map.pattern@[j]).0 == x && map.pattern@[j].1 == y,
                positions(board@) == first_of_each(map.pattern@.take(k as int)),
            decreases map.pattern.len() - k,
        {
            let x: isize = map.pattern[k].0;
            let y: isize = map.pattern[k].1;
            let ghost before = board@;
            proof {
                let seen = map.pattern@.take(k as int);
                let more = map.pattern@.take(k + 1);
                assert(more.drop_last() =~= seen);
                assert(more.last() == (x, y));
                if seen.contains((x, y)) {
                    let j = choose|j: int| 0 <= j < seen.len() && seen[j] == (x, y);
                    assert(map.pattern@[j].0 == x && map.pattern@[j].1 == y);
                }
                if is_cell(before, x as int, y as int) {
                    let j = choose|j: int|
                        0 <= j < k && (#[trigger] map.pattern@[j]).0 == x && map.pattern@[j].1 == y;
                    assert(seen[j] == (x, y));
                }
            }
            if board.find(x as i128, y as i128).is_none() {
                board.tiles.push(Tile { x, y, state: TileState::Empty, style: TileStyle::Plain });
                proof {
                    let after = board@;
                    assert(after == before.push(after[before.len() as int]));
                    assert forall|a: int, b: int|
                        is_cell(after, a, b) <==> exists|j: int|
                            0 <= j < k + 1 && (#[trigger] map.pattern@[j]).0 == a && map.pattern@[j].1
                                == b by {
                        if is_cell(after, a, b) {
                            let i = choose|i: int| 0 <= i < after.len() && at(#[trigger] after[i], a, b);
                            if i < before.len() {
                                assert(at(before[i], a, b));
                                assert(is_cell(before, a, b));
                            } else {
                                assert(map.pattern@[k as int].0 == a);
                            }
                        }
                        if exists|j: int|
                            0 <= j < k + 1 && (#[trigger] map.pattern@[j]).0 == a && map.pattern@[j].1
                                == b {
                            let j = choose|j: int|
                                0 <= j < k + 1 && (#[trigger] map.pattern@[j]).0 == a
                                    && map.pattern@[j].1 == b;
                            if j < k {
                                assert(is_cell(before, a, b));
                                let i = choose|i: int|
                                    0 <= i < before.len() && at(#[trigger] before[i], a, b);
                                assert(at(after[i], a, b));
                            } else {
                                assert(at(after[before.len() as int], a, b));
                            }
                        }
                    }
                    assert(positions(after) =~= positions(before).push((x, y)));
                }
            } else {
                proof {
                    assert(is_cell(before, x as int, y as int));
                }
            }
            k += 1;
        }
        proof {
            assert(map.pattern@.take(k as int) =~= map.pattern@);
        }
        board
    }

    /// A board without cells.
    pub fn new() -> (board: GameBoard)
        ensures
            board.wf(),
            board@.len() == 0,
    {
        GameBoard { tiles: Vec::new() }
    }

    /// Adds an empty cell at `(x, y)`, unless the board has a cell there.
    /// Says whether it did.
    pub fn place(&mut self, x: isize, y: isize) -> (added: bool)
        requires
            old(self).wf(),
        ensures
            final(self).wf(),
            added == !is_cell(old(self)@, x as int, y as int),
            final(self)@ == (if added {
                old(self)@.push(Tile { x, y, state: TileState::Empty, style: TileStyle::Plain })
            } else {
                old(self)@
            }),
    {
        if self.find(x as i128, y as i128).is_none() {
            self.tiles.push(Tile { x, y, state: TileState::Empty, style: TileStyle::Plain });
            true
        } else {
            false
        }
    }

    /// Takes the cell at `(x, y)` off the board, if there is one. Says
    /// whether there was.
    pub fn remove_at(&mut self, x: isize, y: isize) -> (removed: bool)
        requires
            old(self).wf(),
        ensures
            final(self).wf(),
            removed == is_cell(old(self)@, x as int, y as int),
            removed ==> exists|i: int|
                0 <= i < old(self)@.len() && at(#[trigger] old(self)@[i], x as int, y as int)
                    && final(self)@ == old(self)@.remove(i),
            !removed ==> final(self)@ == old(self)@,
            !is_cell(final(self)@, x as int, y as int),
    {
        match self.find(x as i128, y as i128) {
            Some(i) => {
                let ghost before = self.tiles@;
                self.tiles.remove(i);
                proof {
                    let after = self.tiles@;
                    assert(at(before[i as int], x as int, y as int));
                    if is_cell(after, x as int, y as int) {
                        let j = choose|j: int|
                            0 <= j < after.len() && at(#[trigger] after[j], x as int, y as int);
                        if j < i {
                            assert(before[j] == after[j]);
                        } else {
                            assert(before[j + 1] == after[j]);
                        }
                    }
                    assert forall|j: int, k: int|
                        0 <= j < after.len() && 0 <= k < after.len() && (#[trigger] after[j]).x == (
                        #[trigger] after[k]).x && after[j].y == after[k].y implies j == k by {
                        let jj = if j < i {
                            j
                        } else {
                            j + 1
                        };
                        let kk = if k < i {
                            k
                        } else {
                            k + 1
                        };
                        assert(before[jj] == after[j] && before[kk] == after[k]);
                    }
                    assert forall|j: int| 0 <= j < after.len() implies !((#[trigger] after[j]).state
                        is Scored) by {
                        let jj = if j < i {
                            j
                        } else {
                            j + 1
                        };
                        assert(before[jj] == after[j]);
                    }
                }
                true
            },
            None => false,
        }
    }

    /// The map called `name` with the board's cells.
    pub fn to_map(&self, name: String) -> (map: MapAsset)
        ensures
            map.name@ == name@,
            map.pattern@ == positions(self@),
    {
        let mut pattern: Vec<(isize, isize)> = Vec::new();
        let mut i: usize = 0;
        while i < self.tiles.len()
            invariant
                i <= self.tiles.len(),
                pattern@ == positions(self.tiles@.take(i as int)),
            decreases self.tiles.len() - i,
        {
            pattern.push((self.tiles[i].x, self.tiles[i].y));
            proof {
                assert(pattern@ =~= positions(self.tiles@.take(i + 1)));
            }
            i += 1;
        }
        proof {
            assert(self.tiles@.take(i as int) =~= self.tiles@);
        }
        MapAsset { name, pattern }
    }

    /// The index of the tile at `(x, y)`, if the board has a cell there.
    pub fn find(&self, x: i128, y: i128) -> (r: Option<usize>)
        ensures
            match r {
                Some(i) => is_first_at(self@, x as int, y as int, i as int),
                None => !is_cell(self@, x as int, y as int),
            },
    {
        find_tile(&self.tiles, x, y)
    }

    /// Tile `i`.
    pub fn tile(&self, i: usize) -> (t: Tile)
        requires
            i < self@.len(),
        ensures
            t == self@[i as int],
    {
        self.tiles[i]
    }

    /// Puts tile `i` in `state`, which is not that of a decoration.
    pub fn set_state(&mut self, i: usize, state: TileState)
        requires
            old(self).wf(),
            i < old(self)@.len(),
            !(state is Scored),
        ensures
            final(self).wf(),
            final(self)@ == old(self)@.update(i as int, Tile { state, ..old(self)@[i as int] }),
    {
        let t: Tile = self.tiles[i];
        self.tiles.set(i, Tile { state, ..t });
    }

    /// Gives every tile the style it has under `piece`.
    pub fn restyle(&mut self, piece: &ActiveEntity)
        requires
            piece.wf(),
        ensures
            final(self)@ == restyle_all(old(self)@, piece@),
    {
        let mut i: usize = 0;
        while i < self.tiles.len()
            invariant
                i <= self.tiles.len(),
                piece.wf(),
                self.tiles@.len() == old(self).tiles@.len(),
                forall|j: int|
                    0 <= j < i ==> #[trigger] self.tiles@[j] == restyled(old(self).tiles@[j], piece@),
                forall|j: int| i <= j < self.tiles@.len() ==> self.tiles@[j] == old(self).tiles@[j],
            decreases self.tiles.len() - i,
        {
            let t: Tile = self.tiles[i];
            let covered: bool = piece.covers(t.x, t.y);
            let style: TileStyle = if !covered {
                TileStyle::Plain
            } else {
                match t.state {
                    TileState::Empty => TileStyle::Hover,
                    TileState::Full(_) => TileStyle::Invalid,
                    TileState::Scored => TileStyle::Plain,
                }
            };
            self.tiles.set(i, Tile { style, ..t });
            i += 1;
        }
        proof {
            assert(self.tiles@ =~= restyle_all(old(self).tiles@, piece@));
        }
    }

    /// Whether `piece` can be committed where it is.
    pub fn fits(&self, piece: &ActiveEntity) -> (b: bool)
        requires
            self.wf(),
            piece.wf(),
        ensures
            b == fits(self@, piece@),
    {
        let n: usize = piece.block_count();
        let mut j: usize = 0;
        while j < n
            invariant
                j <= n,
                n == piece@.pattern.blocks.len(),
                self.wf(),
                piece.wf(),
                forall|a: int, b: int| 0 <= a < b < j ==> #[trigger] piece@.cell(a) != #[trigger] piece@.cell(b),
                forall|a: int|
                    0 <= a < j ==> is_empty_at(self@, (#[trigger] piece@.cell(a)).0, piece@.cell(a).1),
            decreases n - j,
        {
            let c = piece.cell(j);
            match self.find(c.0, c.1) {
                None => {
                    assert(!is_empty_at(self@, piece@.cell(j as int).0, piece@.cell(j as int).1));
                    return false;
                },
                Some(i) => {
                    match self.tiles[i].state {
                        TileState::Empty => {},
                        _ => {
                            assert(!is_empty_at(self@, piece@.cell(j as int).0, piece@.cell(j as int).1));
                            return false;
                        },
                    }
                },
            }
            let mut a: usize = 0;
            while a < j
                invariant
                    a <= j < n,
                    n == piece@.pattern.blocks.len(),
                    piece.wf(),
                    c.0 == piece@.cell(j as int).0,
                    c.1 == piece@.cell(j as int).1,
                    forall|b: int| 0 <= b < a ==> #[trigger] piece@.cell(b) != piece@.cell(j as int),
                decreases j - a,
            {
                let d = piece.cell(a);
                if d.0 == c.0 && d.1 == c.1 {
                    assert(piece@.cell(a as int) == piece@.cell(j as int));
                    return false;
                }
                a += 1;
            }
            j += 1;
        }
        true
    }

    /// Fills every hovered tile with `color` and takes the hover off.
    pub fn fill_hovered(&mut self, color: PatternColor)
        ensures
            final(self)@ == fill_all(old(self)@, color),
    {
        let mut i: usize = 0;
        while i < self.tiles.len()
            invariant
                i <= self.tiles.len(),
                self.tiles@.len() == old(self).tiles@.len(),
                forall|j: int| 0 <= j < i ==> #[trigger] self.tiles@[j] == filled(old(self).tiles@[j], color),
                forall|j: int| i <= j < self.tiles@.len() ==> self.tiles@[j] == old(self).tiles@[j],
            decreases self.tiles.len() - i,
        {
            let t: Tile = self.tiles[i];
            match t.style {
                TileStyle::Hover => {
                    self.tiles.set(
                        i,
                        Tile { state: TileState::Full(color), style: TileStyle::Plain, ..t },
                    );
                },
                _ => {},
            }
            i += 1;
        }
        proof {
            assert(self.tiles@ =~= fill_all(old(self).tiles@, color));
        }
    }

    /// Empties the tiles named in `cells`.
    pub fn clear(&mut self, cells: &Vec<usize>)
        requires
            forall|k: int| 0 <= k < cells@.len() ==> cells@[k] < old(self)@.len(),
        ensures
            final(self)@ == clear_all(
                old(self)@,
                Set::new(|i: int| 0 <= i < old(self)@.len() && cells@.contains(i as usize)),
            ),
    {
        let mut k: usize = 0;
        while k < cells.len()
            invariant
                k <= cells.len(),
                self.tiles@.len() == old(self).tiles@.len(),
                forall|a: int| 0 <= a < cells@.len() ==> cells@[a] < self.tiles@.len(),
                forall|i: int|
                    0 <= i < self.tiles@.len() ==> #[trigger] self.tiles@[i] == (if cells@.take(
                        k as int,
                    ).contains(i as usize) {
                        emptied(old(self).tiles@[i])
                    } else {
                        old(self).tiles@[i]
                    }),
            decreases cells.len() - k,
        {
            let i: usize = cells[k];
            let n: usize = self.tiles.len();
            let t: Tile = self.tiles[i];
            let ghost before = self.tiles@;
            self.tiles.set(i, Tile { state: TileState::Empty, style: TileStyle::Plain, ..t });
            proof {
                let seen = cells@.take(k as int);
                let more = cells@.take(k + 1);
                assert(more[k as int] == i);
                assert(forall|a: int| 0 <= a < k ==> more[a] == seen[a]);
                assert forall|j: int| 0 <= j < self.tiles@.len() implies #[trigger] self.tiles@[j] == (
                if more.contains(j as usize) {
                    emptied(old(self).tiles@[j])
                } else {
                    old(self).tiles@[j]
                }) by {
                    if j == i {
                        assert(more[k as int] == j as usize);
                        assert(more.contains(j as usize));
                        assert(before[j] == emptied(old(self).tiles@[j]) || before[j] == old(
                            self,
                        ).tiles@[j]);
                    } else {
                        assert(self.tiles@[j] == before[j]);
                        let u = j as usize;
                        assert(self.tiles@.len() == n);
                        assert(u as int == j);
                        if seen.contains(u) {
                            let a = choose|a: int| 0 <= a < seen.len() && seen[a] == u;
                            assert(more[a] == u);
                        }
                        if more.contains(u) {
                            let a = choose|a: int| 0 <= a < more.len() && more[a] == u;
                            assert(a != k);
                            assert(seen[a] == u);
                        }
                    }
                }
            }
            k += 1;
        }
        proof {
            assert(cells@.take(k as int) =~= cells@);
            assert(self.tiles@ =~= clear_all(
                old(self).tiles@,
                Set::new(|i: int| 0 <= i < old(self).tiles@.len() && cells@.contains(i as usize)),
            ));
        }
    }

    /// The board's tiles.
    pub fn tiles(&self) -> (t: &Vec<Tile>)
        ensures
            t@ == self@,
    {
        &self.tiles
    }

    /// The number of cells.
    pub fn len(&self) -> (n: usize)
        ensures
            n == self@.len(),
    {
        self.tiles.len()
    }
}

} // verus!
