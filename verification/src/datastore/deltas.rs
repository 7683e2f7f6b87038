//! What a run of deltas does to the scores, whatever order they arrive in.
//!
//! The ledger applies each delta in one step, so deltas that are handed in at
//! the same time end up in some order of their own. The laws here say that
//! the order is of no account: the score of a pair ends as what it was plus
//! the sum of the deltas given to that pair.

use vstd::prelude::*;

verus! {

/// One signed change to the score of a user in a community.
#[derive(Clone, Copy, Debug, PartialEq, Eq, Structural)]
pub struct Delta {
    /// The user whose score changes.
    pub id: u64,
    /// The community in which it changes.
    pub guild_id: u64,
    /// By how much.
    pub amount: i64,
}

/// Whether `scores` has a score for every pair.
pub open spec fn total(scores: Map<(u64, u64), int>) -> bool {
    forall|pair: (u64, u64)| scores.dom().contains(pair)
}

/// What `d` adds to the score of the pair `(id, guild_id)`.
pub open spec fn share(d: Delta, id: u64, guild_id: u64) -> int {
    if d.id == id && d.guild_id == guild_id {
        d.amount as int
    } else {
        0
    }
}

/// The scores after `d` was applied to `scores`.
pub open spec fn credited(scores: Map<(u64, u64), int>, d: Delta) -> Map<(u64, u64), int> {
    scores.insert((d.id, d.guild_id), scores[(d.id, d.guild_id)] + d.amount)
}

/// The scores after the deltas `ds` were applied to `scores`, first to last.
pub open spec fn credited_all(scores: Map<(u64, u64), int>, ds: Seq<Delta>) -> Map<(u64, u64), int>
    decreases ds.len(),
{
    if ds.len() == 0 {
        scores
    } else {
        credited(credited_all(scores, ds.drop_last()), ds.last())
    }
}

/// The sum of what the deltas `ds` add to the score of `(id, guild_id)`.
pub open spec fn sum_for(ds: Seq<Delta>, id: u64, guild_id: u64) -> int
    decreases ds.len(),
{
    if ds.len() == 0 {
        0
    } else {
        sum_for(ds.drop_last(), id, guild_id) + share(ds.last(), id, guild_id)
    }
}

/// After a run of deltas every pair still has a score, and the score of each
/// pair is what it was plus the sum of the deltas given to it: none is lost.
pub proof fn lemma_final_score_is_sum(scores: Map<(u64, u64), int>, ds: Seq<Delta>)
    requires
        total(scores),
    ensures
        total(credited_all(scores, ds)),
        forall|id: u64, guild_id: u64| #[trigger]
            credited_all(scores, ds)[(id, guild_id)] == scores[(id, guild_id)] + sum_for(
                ds,
                id,
                guild_id,
            ),
    decreases ds.len(),
{
    if ds.len() > 0 {
        lemma_final_score_is_sum(scores, ds.drop_last());
    }
}

/// Taking one delta out of a run takes its share out of the sum.
pub proof fn lemma_sum_without(ds: Seq<Delta>, i: int, id: u64, guild_id: u64)
    requires
        0 <= i < ds.len(),
    ensures
        sum_for(ds, id, guild_id) == sum_for(ds.remove(i), id, guild_id) + share(
            ds[i],
            id,
            guild_id,
        ),
    decreases ds.len(),
{
    if i == ds.len() - 1 {
        assert(ds.remove(i) =~= ds.drop_last());
    } else {
        lemma_sum_without(ds.drop_last(), i, id, guild_id);
        assert(ds.remove(i).drop_last() =~= ds.drop_last().remove(i));
        assert(ds.remove(i).last() == ds.last());
    }
}

/// Two runs that hold the same deltas, in whatever order, add the same sum
/// to every pair.
pub proof fn lemma_sum_any_order(first: Seq<Delta>, second: Seq<Delta>, id: u64, guild_id: u64)
    requires
        first.to_multiset() == second.to_multiset(),
    ensures
        sum_for(first, id, guild_id) == sum_for(second, id, guild_id),
    decreases first.len(),
{
    first.to_multiset_ensures();
    second.to_multiset_ensures();
    if first.len() > 0 {
        let d = first.last();
        let at_end = first.len() - 1;
        assert(first.contains(d)) by {
            assert(first[at_end] == d);
        }
        assert(second.to_multiset().count(d) > 0);
        assert(second.contains(d));
        let j = choose|j: int| 0 <= j < second.len() && second[j] == d;
        assert(first.remove(at_end) =~= first.drop_last());
        assert(first.drop_last().to_multiset() == second.remove(j).to_multiset());
        lemma_sum_any_order(first.drop_last(), second.remove(j), id, guild_id);
        lemma_sum_without(second, j, id, guild_id);
    } else {
        assert(second.len() == 0);
    }
}

/// Deltas that are applied in any order, as when they are handed in at the
/// same time, leave the same scores.
pub proof fn lemma_order_does_not_matter(
    scores: Map<(u64, u64), int>,
    first: Seq<Delta>,
    second: Seq<Delta>,
)
    requires
        total(scores),
        first.to_multiset() == second.to_multiset(),
    ensures
        credited_all(scores, first) == credited_all(scores, second),
{
    lemma_final_score_is_sum(scores, first);
    lemma_final_score_is_sum(scores, second);
    let a = credited_all(scores, first);
    let b = credited_all(scores, second);
    assert forall|pair: (u64, u64)| a.dom().contains(pair) && b.dom().contains(pair) && a[pair]
        == b[pair] by {
        lemma_sum_any_order(first, second, pair.0, pair.1);
        assert(a[(pair.0, pair.1)] == scores[(pair.0, pair.1)] + sum_for(first, pair.0, pair.1));
        assert(b[(pair.0, pair.1)] == scores[(pair.0, pair.1)] + sum_for(second, pair.0, pair.1));
    }
    assert(a =~= b);
}

/// A delta and the one that undoes it leave every score as it was.
pub proof fn lemma_undo_restores(scores: Map<(u64, u64), int>, d: Delta, undo: Delta)
    requires
        total(scores),
        undo.id == d.id,
        undo.guild_id == d.guild_id,
        undo.amount + d.amount == 0,
    ensures
        credited(credited(scores, d), undo) == scores,
{
    assert(credited(credited(scores, d), undo) =~= scores);
}

} // verus!
