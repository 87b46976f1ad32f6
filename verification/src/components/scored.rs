//! Decorations left where cells were cleared.

use crate::components::tiles::{Tile, TileState, TileStyle};
use crate::components::timer::{ticked, PlacementTimer, TimerView};
use crate::time::Span;
use vstd::prelude::*;

verus! {

/// How long a decoration stays, in nanoseconds.
pub const SCORED_FADE: u64 = 1_000_000_000;

/// A decoration at the place of a cleared cell. It shrinks while its timer
/// runs and goes when the timer has run out. It is no part of the board.
#[derive(Clone, Copy, Debug, PartialEq, Eq, Structural, Hash)]
pub struct Scored {
    pub tile: Tile,
    pub timer: PlacementTimer,
}

/// What a decoration holds.
pub struct ScoredView {
    pub tile: Tile,
    pub timer: TimerView,
}

impl View for Scored {
    type V = ScoredView;

    open spec fn view(&self) -> ScoredView {
        ScoredView { tile: self.tile, timer: self.timer@ }
    }
}

/// The views of `effects`, in order.
pub open spec fn effect_views(effects: Seq<Scored>) -> Seq<ScoredView> {
    Seq::new(effects.len(), |i: int| effects[i]@)
}

/// A new decoration at the place of `tile`.
pub open spec fn decoration(tile: Tile) -> ScoredView {
    ScoredView {
        tile: Tile { state: TileState::Scored, style: TileStyle::Plain, ..tile },
        timer: TimerView {
            duration: SCORED_FADE as nat,
            elapsed: 0,
            finished: false,
            just_finished: false,
        },
    }
}

/// New decorations at the places of the first `upto` tiles of `tiles`
/// that have an index in `cells`, in the order of the tiles.
pub open spec fn decorations(tiles: Seq<Tile>, cells: Set<int>, upto: int) -> Seq<ScoredView>
    decreases upto,
{
    if upto <= 0 {
        Seq::empty()
    } else {
        let before = decorations(tiles, cells, upto - 1);
        if cells.contains(upto - 1) {
            before.push(decoration(tiles[upto - 1]))
        } else {
            before
        }
    }
}

/// The decorations `effects` after `delta` nanoseconds: each timer has
/// run on, and those that have run out are gone.
pub open spec fn faded(effects: Seq<ScoredView>, delta: nat) -> Seq<ScoredView>
    decreases effects.len(),
{
    if effects.len() == 0 {
        Seq::empty()
    } else {
        let before = faded(effects.drop_last(), delta);
        let timer = ticked(effects.last().timer, delta);
        if timer.finished {
            before
        } else {
            before.push(ScoredView { timer, ..effects.last() })
        }
    }
}

impl Scored {
    /// A new decoration at the place of `tile`.
    pub fn new(tile: Tile) -> (s: Scored)
        ensures
            s@ == decoration(tile),
            s.timer.wf(),
    {
        Scored {
            tile: Tile { state: TileState::Scored, style: TileStyle::Plain, ..tile },
            timer: PlacementTimer::new(Span::from_nanos(SCORED_FADE)),
        }
    }
}

/// Every decoration's timer is well formed.
pub open spec fn effects_wf(effects: Seq<ScoredView>) -> bool {
    forall|i: int| 0 <= i < effects.len() ==> (#[trigger] effects[i]).timer.wf()
}

/// Lets `delta` pass on the decorations and drops those that are done.
pub fn fade(effects: &Vec<Scored>, delta: Span) -> (left: Vec<Scored>)
    requires
        effects_wf(effect_views(effects@)),
    ensures
        effect_views(left@) == faded(effect_views(effects@), delta@),
        effects_wf(effect_views(left@)),
{
    let mut left: Vec<Scored> = Vec::new();
    let mut i: usize = 0;
    let ghost all = effect_views(effects@);
    proof {
        assert(effect_views(left@) =~= faded(all.take(0), delta@));
    }
    while i < effects.len()
        invariant
            i <= effects.len(),
            all == effect_views(effects@),
            effects_wf(all),
            effect_views(left@) == faded(all.take(i as int), delta@),
            effects_wf(effect_views(left@)),
        decreases effects.len() - i,
    {
        let mut effect: Scored = effects[i];
        let ghost before = left@;
        proof {
            assert(all[i as int] == effect@);
            assert(all.take(i + 1).drop_last() =~= all.take(i as int));
            assert(all.take(i + 1).last() == all[i as int]);
        }
        effect.timer.tick(delta);
        if !effect.timer.finished() {
            left.push(effect);
            proof {
                assert(effect_views(left@) =~= effect_views(before).push(effect@));
                assert forall|k: int| 0 <= k < left@.len() implies (#[trigger] effect_views(
                    left@,
                )[k]).timer.wf() by {
                    if k < before.len() {
                        assert(effect_views(left@)[k] == effect_views(before)[k]);
                    }
                }
            }
        }
        i += 1;
    }
    proof {
        assert(all.take(i as int) =~= all);
    }
    left
}

/// Whether `i` is among `cells`.
fn holds_index(cells: &Vec<usize>, i: usize) -> (b: bool)
    ensures
        b == cells@.contains(i),
{
    let mut k: usize = 0;
    while k < cells.len()
        invariant
            k <= cells.len(),
            forall|j: int| 0 <= j < k ==> cells@[j] != i,
        decreases cells.len() - k,
    {
        if cells[k] == i {
            return true;
        }
        k += 1;
    }
    false
}

/// Adds to `effects` a new decoration at the place of each tile of `tiles`
/// that has its index among `cells`.
pub fn decorate(effects: &mut Vec<Scored>, tiles: &Vec<Tile>, cells: &Vec<usize>)
    requires
        effects_wf(effect_views(old(effects)@)),
    ensures
        effect_views(final(effects)@) == effect_views(old(effects)@) + decorations(
            tiles@,
            Set::new(|i: int| 0 <= i < tiles@.len() && cells@.contains(i as usize)),
            tiles@.len() as int,
        ),
        effects_wf(effect_views(final(effects)@)),
{
    let ghost start = effect_views(effects@);
    let ghost set = Set::new(|i: int| 0 <= i < tiles@.len() && cells@.contains(i as usize));
    let mut i: usize = 0;
    proof {
        assert(effect_views(effects@) =~= start + decorations(tiles@, set, 0));
    }
    while i < tiles.len()
        invariant
            i <= tiles.len(),
            set == Set::new(|i: int| 0 <= i < tiles@.len() && cells@.contains(i as usize)),
            effect_views(effects@) == start + decorations(tiles@, set, i as int),
            effects_wf(effect_views(effects@)),
        decreases tiles.len() - i,
    {
        let ghost before = effects@;
        if holds_index(cells, i) {
            let effect = Scored::new(tiles[i]);
            effects.push(effect);
            proof {
                assert(set.contains(i as int));
                assert(effect_views(effects@) =~= effect_views(before).push(effect@));
                assert(effect_views(effects@) =~= start + decorations(tiles@, set, i + 1));
                assert forall|k: int| 0 <= k < effects@.len() implies (#[trigger] effect_views(
                    effects@,
                )[k]).timer.wf() by {
                    if k < before.len() {
                        assert(effect_views(effects@)[k] == effect_views(before)[k]);
                    }
                }
            }
        } else {
            proof {
                assert(!set.contains(i as int));
            }
        }
        i += 1;
    }
}

} // verus!
