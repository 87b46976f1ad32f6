//! The piece bag: every pattern of the pool once, in random order, before
//! any comes again.

use crate::error::ConfigurationError;
use rand::seq::SliceRandom;
use std::collections::VecDeque;
use vstd::prelude::*;
use vstd::seq_lib::lemma_multiset_commutative;

verus! {

/// A pattern, named by its place in the round's list of patterns.
pub type PatternId = usize;

/// What a bag holds: the pool it refills from and the draws still queued.
pub struct BagView {
    pub pool: Seq<PatternId>,
    pub queue: Seq<PatternId>,
}

/// A supply of patterns that runs through the whole pool before it repeats.
pub struct Bag {
    patterns: Vec<PatternId>,
    queue: VecDeque<PatternId>,
}

impl View for Bag {
    type V = BagView;

    closed spec fn view(&self) -> BagView {
        BagView { pool: self.patterns@, queue: self.queue@ }
    }
}

/// Whether `order` holds the members of `pool`, each as often as `pool` does.
pub open spec fn reordered(pool: Seq<PatternId>, order: Seq<PatternId>) -> bool {
    order.to_multiset() == pool.to_multiset()
}

/// One draw takes a bag from `pre` to `post` and hands out `id`: the head of
/// the queue or, where the queue is empty, the head of the reshuffled pool,
/// whose rest becomes the queue.
pub open spec fn draws(pre: BagView, post: BagView, id: PatternId) -> bool {
    if pre.queue.len() > 0 {
        &&& id == pre.queue[0]
        &&& post.queue == pre.queue.skip(1)
        &&& post.pool == pre.pool
    } else {
        &&& reordered(pre.pool, post.pool)
        &&& post.pool.len() > 0
        &&& id == post.pool[0]
        &&& post.queue == post.pool.skip(1)
    }
}

/// `states` are the bag's views before, between and after the draws that
/// hand out `ids`, in order.
pub open spec fn draw_run(states: Seq<BagView>, ids: Seq<PatternId>) -> bool {
    &&& states.len() == ids.len() + 1
    &&& forall|k: int| 0 <= k < ids.len() ==> draws(#[trigger] states[k], states[k + 1], ids[k])
}

/// Puts the ids in a random order.
///
/// Calls `rand::seq::SliceRandom::shuffle` on the vector's slice with the
/// generator that `rand::thread_rng` returns. The shuffle only swaps
/// elements, so the vector holds the same ids as often as before; nothing is
/// claimed about their order. `thread_rng` panics where the system cannot
/// seed it.
#[verifier::external_body]
fn shuffle(ids: &mut Vec<PatternId>)
    ensures
        reordered(old(ids)@, final(ids)@),
{
    ids.shuffle(&mut rand::thread_rng());
}

/// Two sequences with the same members as often have the same length and
/// the same members.
pub proof fn lemma_reordered_members(pool: Seq<PatternId>, order: Seq<PatternId>)
    requires
        reordered(pool, order),
    ensures
        order.len() == pool.len(),
        forall|id: PatternId| order.contains(id) <==> pool.contains(id),
{
    broadcast use vstd::seq_lib::group_to_multiset_ensures;

    assert(order.to_multiset().len() == pool.to_multiset().len());
    assert forall|id: PatternId| order.contains(id) <==> pool.contains(id) by {
        assert(order.to_multiset().count(id) == pool.to_multiset().count(id));
    }
}

/// After `k` draws from a bag with an empty queue, `k` no more than the
/// pool's size, the ids handed out are the first `k` of the order that the
/// first draw shuffled the pool into, and the rest of it is queued.
proof fn lemma_cycle_prefix(states: Seq<BagView>, ids: Seq<PatternId>, k: int)
    requires
        draw_run(states, ids),
        states[0].queue.len() == 0,
        1 <= k <= ids.len(),
        k <= states[0].pool.len(),
    ensures
        reordered(states[0].pool, states[1].pool),
        states[k].pool == states[1].pool,
        ids.take(k) == states[1].pool.take(k),
        states[k].queue == states[1].pool.skip(k),
    decreases k,
{
    assert(draws(states[0], states[1], ids[0]));
    lemma_reordered_members(states[0].pool, states[1].pool);
    if k == 1 {
        assert(ids.take(1) =~= states[1].pool.take(1));
    } else {
        lemma_cycle_prefix(states, ids, k - 1);
        assert(draws(states[k - 1], states[k], ids[k - 1]));
        assert(states[k - 1].queue.len() > 0);
        assert(ids[k - 1] == states[1].pool[k - 1]);
        assert(ids.take(k) =~= ids.take(k - 1).push(ids[k - 1]));
        assert(states[1].pool.take(k) =~= states[1].pool.take(k - 1).push(states[1].pool[k - 1]));
        assert(states[k].queue =~= states[1].pool.skip(k));
    }
}

/// A bag with an empty queue and a pool of `n` patterns hands out, in its
/// next `n` draws, every member of the pool exactly as often as the pool
/// holds it, and is then empty again, over a pool of the same members.
pub proof fn lemma_draws_cover_pool(states: Seq<BagView>, ids: Seq<PatternId>)
    requires
        draw_run(states, ids),
        states[0].queue.len() == 0,
        states[0].pool.len() > 0,
        ids.len() == states[0].pool.len(),
    ensures
        reordered(states[0].pool, ids),
        reordered(states[0].pool, states.last().pool),
        states.last().queue.len() == 0,
{
    let n = ids.len() as int;
    lemma_cycle_prefix(states, ids, n);
    lemma_reordered_members(states[0].pool, states[1].pool);
    assert(ids.take(n) =~= ids);
    assert(states[1].pool.take(n) =~= states[1].pool);
}

/// The first `n` draws of a run are a run.
proof fn lemma_run_front(states: Seq<BagView>, ids: Seq<PatternId>, n: int)
    requires
        draw_run(states, ids),
        0 <= n <= ids.len(),
    ensures
        draw_run(states.take(n + 1), ids.take(n)),
{
    let front_states = states.take(n + 1);
    let front_ids = ids.take(n);
    assert forall|k: int| 0 <= k < front_ids.len() implies draws(
        #[trigger] front_states[k],
        front_states[k + 1],
        front_ids[k],
    ) by {
        assert(draws(states[k], states[k + 1], ids[k]));
    }
}

/// The draws of a run after its first `n` are a run.
proof fn lemma_run_back(states: Seq<BagView>, ids: Seq<PatternId>, n: int)
    requires
        draw_run(states, ids),
        0 <= n <= ids.len(),
    ensures
        draw_run(states.skip(n), ids.skip(n)),
{
    let back_states = states.skip(n);
    let back_ids = ids.skip(n);
    assert forall|k: int| 0 <= k < back_ids.len() implies draws(
        #[trigger] back_states[k],
        back_states[k + 1],
        back_ids[k],
    ) by {
        assert(draws(states[n + k], states[n + k + 1], ids[n + k]));
        assert(back_states[k] == states[n + k]);
        assert(back_states[k + 1] == states[n + k + 1]);
    }
}

/// A sequence whose first `n` and whose other members both hold the pool
/// holds every member of the pool twice as often as the pool does.
proof fn lemma_two_cycles(pool: Seq<PatternId>, ids: Seq<PatternId>, n: int)
    requires
        0 <= n <= ids.len(),
        reordered(pool, ids.take(n)),
        reordered(pool, ids.skip(n)),
    ensures
        ids.to_multiset() == pool.to_multiset().add(pool.to_multiset()),
{
    assert(ids =~= ids.take(n) + ids.skip(n));
    lemma_multiset_commutative(ids.take(n), ids.skip(n));
}

/// After the first cycle of a run the bag is empty again, over a pool of
/// the same members, and the first cycle's draws hold the pool.
proof fn lemma_first_cycle(states: Seq<BagView>, ids: Seq<PatternId>, n: int)
    requires
        draw_run(states, ids),
        states[0].queue.len() == 0,
        n == states[0].pool.len(),
        0 < n <= ids.len(),
    ensures
        reordered(states[0].pool, ids.take(n)),
        reordered(states[0].pool, states[n].pool),
        states[n].pool.len() == n,
        states[n].queue.len() == 0,
{
    lemma_run_front(states, ids, n);
    let front = states.take(n + 1);
    assert(front[0] == states[0]);
    assert(front.last() == states[n]);
    lemma_draws_cover_pool(front, ids.take(n));
    lemma_reordered_members(states[0].pool, states[n].pool);
}

/// The same bag hands out, in its next `2 * n` draws, every member of the
/// pool exactly twice as often as the pool holds it: once in each cycle.
pub proof fn lemma_draws_cover_pool_twice(states: Seq<BagView>, ids: Seq<PatternId>)
    requires
        draw_run(states, ids),
        states[0].queue.len() == 0,
        states[0].pool.len() > 0,
        ids.len() == 2 * states[0].pool.len(),
    ensures
        ids.to_multiset() == states[0].pool.to_multiset().add(states[0].pool.to_multiset()),
        reordered(states[0].pool, ids.take(states[0].pool.len() as int)),
        reordered(states[0].pool, ids.skip(states[0].pool.len() as int)),
{
    let n = states[0].pool.len() as int;
    lemma_first_cycle(states, ids, n);
    lemma_run_back(states, ids, n);
    let back = states.skip(n);
    assert(back[0] == states[n]);
    lemma_draws_cover_pool(back, ids.skip(n));
    lemma_two_cycles(states[0].pool, ids, n);
}

impl BagView {
    /// The pool is not empty and every queued id is one of the pool.
    pub open spec fn wf(self) -> bool {
        &&& self.pool.len() > 0
        &&& forall|k: int| 0 <= k < self.queue.len() ==> self.pool.contains(#[trigger] self.queue[k])
    }
}

impl Bag {
    /// The bag's view is well formed.
    pub open spec fn wf(&self) -> bool {
        self@.wf()
    }

    /// A bag over `patterns` with nothing queued yet. An empty pool is
    /// refused: nothing could ever be drawn from it.
    pub fn new(patterns: Vec<PatternId>) -> (r: Result<Bag, ConfigurationError>)
        ensures
            match r {
                Ok(bag) => patterns@.len() > 0 && bag.wf() && bag@.pool == patterns@
                    && bag@.queue.len() == 0,
                Err(e) => patterns@.len() == 0 && e == ConfigurationError::EmptyPatternPool,
            },
    {
        if patterns.len() == 0 {
            Err(ConfigurationError::EmptyPatternPool)
        } else {
            Ok(Bag { patterns, queue: VecDeque::new() })
        }
    }

    /// The number of patterns in the pool.
    pub fn pool_len(&self) -> (n: usize)
        ensures
            n == self@.pool.len(),
    {
        self.patterns.len()
    }

    /// The number of draws left before the pool is shuffled again.
    pub fn queued(&self) -> (n: usize)
        ensures
            n == self@.queue.len(),
    {
        self.queue.len()
    }

    /// Takes the next pattern. Where the queue is empty, the pool is
    /// shuffled first and queued whole.
    pub fn draw(&mut self) -> (id: PatternId)
        requires
            old(self).wf(),
        ensures
            final(self).wf(),
            draws(old(self)@, final(self)@, id),
            old(self)@.pool.contains(id),
    {
        if self.queue.len() == 0 {
            let ghost before = self.patterns@;
            shuffle(&mut self.patterns);
            proof {
                lemma_reordered_members(before, self.patterns@);
            }
            let ghost order = self.patterns@;
            assert(self.queue@ =~= order.take(0));
            let mut i: usize = 0;
            while i < self.patterns.len()
                invariant
                    i <= self.patterns.len(),
                    self.patterns@ == order,
                    self.queue@ == order.take(i as int),
                decreases self.patterns.len() - i,
            {
                let id: PatternId = self.patterns[i];
                self.queue.push_back(id);
                proof {
                    assert(self.patterns@.take(i as int).push(id) =~= self.patterns@.take(i + 1));
                }
                i += 1;
            }
            proof {
                assert(self.patterns@.take(i as int) =~= self.patterns@);
                assert forall|k: int| 0 <= k < self.queue@.len() implies self.patterns@.contains(
                    #[trigger] self.queue@[k],
                ) by {
                    assert(self.patterns@[k] == self.queue@[k]);
                }
            }
        } else {
            assert(self@.queue == self.queue@ && self@.pool == self.patterns@);
        }
        let ghost full = self.queue@;
        assert(full.len() > 0);
        assert(forall|k: int| 0 <= k < full.len() ==> self.patterns@.contains(#[trigger] full[k]));
        let id: PatternId = self.queue.pop_front().unwrap();
        proof {
            assert(self.queue@ =~= full.skip(1));
            assert forall|k: int| 0 <= k < self.queue@.len() implies self.patterns@.contains(
                #[trigger] self.queue@[k],
            ) by {
                assert(self.queue@[k] == full[k + 1]);
            }
            assert(full.contains(id));
        }
        id
    }
}

} // verus!
