//! The reputation ledger: one signed score for each pair of a user and a
//! community, changed only by adding a signed amount to it.
//!
//! A pair that was never given anything has the score 0, and nothing tells
//! such a pair from one whose score came back to 0.

use vstd::prelude::*;
use crate::datastore::deltas::{credited, total, Delta};

verus! {

/// One row of the ledger.
#[derive(Clone, Copy, Debug, PartialEq, Eq, Structural)]
struct ScoreRecord {
    /// The user.
    id: u64,
    /// The community.
    guild_id: u64,
    /// What the user has gathered in the community.
    score: i64,
}

/// Why the ledger could not do what was asked.
#[derive(Clone, Copy, Debug, PartialEq, Eq, Structural)]
pub enum StoreError {
    /// The ledger could not be reached.
    Unavailable,
    /// The new score would not fit in a signed 64-bit number.
    OutOfRange,
}

/// Whether row `i` of `rows` is the row of the pair `(id, guild_id)`.
spec fn is_row_of(rows: Seq<ScoreRecord>, i: int, id: u64, guild_id: u64) -> bool {
    0 <= i < rows.len() && rows[i].id == id && rows[i].guild_id == guild_id
}

/// No pair has two rows.
spec fn distinct_pairs(rows: Seq<ScoreRecord>) -> bool {
    forall|i: int, j: int|
        0 <= i < j < rows.len() ==> !(#[trigger] rows[i].id == #[trigger] rows[j].id && rows[i].guild_id
            == rows[j].guild_id)
}

/// The score that `rows` hold for the pair `(id, guild_id)`: 0 where no row
/// is about the pair.
spec fn score_in(rows: Seq<ScoreRecord>, id: u64, guild_id: u64) -> int {
    if exists|i: int| is_row_of(rows, i, id, guild_id) {
        rows[choose|i: int| is_row_of(rows, i, id, guild_id)].score as int
    } else {
        0
    }
}

/// With no pair in two rows, the row found for a pair holds its score.
proof fn lemma_score_at(rows: Seq<ScoreRecord>, i: int, id: u64, guild_id: u64)
    requires
        distinct_pairs(rows),
        is_row_of(rows, i, id, guild_id),
    ensures
        score_in(rows, id, guild_id) == rows[i].score,
{
    let j = choose|j: int| is_row_of(rows, j, id, guild_id);
    if i < j {
        assert(!(rows[i].id == rows[j].id && rows[i].guild_id == rows[j].guild_id));
    } else if j < i {
        assert(!(rows[j].id == rows[i].id && rows[j].guild_id == rows[i].guild_id));
    }
}

/// The leaderboard entry that a row gives: the user and the score.
spec fn entry_of(row: ScoreRecord) -> (u64, i64) {
    (row.id, row.score)
}

/// Whether a row belongs on the leaderboard of `guild_id`: it is a row of
/// that community and its score is above 0.
spec fn counts(row: ScoreRecord, guild_id: u64) -> bool {
    row.guild_id == guild_id && row.score > 0
}

/// Whether entry `a` stands before entry `b`: the higher score first, and of
/// two equal scores the smaller user identifier.
pub open spec fn ranks_before(a: (u64, i64), b: (u64, i64)) -> bool {
    a.1 > b.1 || (a.1 == b.1 && a.0 < b.0)
}

/// Whether every entry of `top` stands before the next one.
pub open spec fn ranked(top: Seq<(u64, i64)>) -> bool {
    forall|a: int, b: int| 0 <= a < b < top.len() ==> ranks_before(#[trigger] top[a], #[trigger] top[b])
}

/// Whether `top` has an entry for the user `id`.
pub open spec fn lists(top: Seq<(u64, i64)>, id: u64) -> bool {
    exists|a: int| 0 <= a < top.len() && (#[trigger] top[a]).0 == id
}

/// Whether one of the first `upto` rows belongs on the leaderboard of
/// `guild_id` and gives the entry `e`.
spec fn from_rows(rows: Seq<ScoreRecord>, upto: int, guild_id: u64, e: (u64, i64)) -> bool {
    exists|k: int| 0 <= k < upto && k < rows.len() && counts(#[trigger] rows[k], guild_id) && entry_of(rows[k]) == e
}

/// The ledger, held in memory.
pub struct ScoreBoard {
    rows: Vec<ScoreRecord>,
}

impl ScoreBoard {
    /// The ledger's invariant: no pair of a user and a community is kept
    /// twice.
    pub closed spec fn wf(self) -> bool {
        distinct_pairs(self.rows@)
    }

    /// The score of `id` in `guild_id`.
    pub closed spec fn score(self, id: u64, guild_id: u64) -> int {
        score_in(self.rows@, id, guild_id)
    }

    /// Every score of the ledger, by user and community.
    pub open spec fn view(self) -> Map<(u64, u64), int> {
        Map::total(|pair: (u64, u64)| self.score(pair.0, pair.1))
    }

    /// Whether `top` is the leaderboard of `guild_id` cut at `limit`:
    /// its entries are scores above 0 that the ledger holds for the
    /// community, each stands before the next, and whoever has a score above
    /// 0 and is left out stands behind a full leaderboard.
    pub open spec fn is_leaderboard(self, guild_id: u64, limit: nat, top: Seq<(u64, i64)>) -> bool {
        &&& top.len() <= limit
        &&& ranked(top)
        &&& forall|a: int|
            0 <= a < top.len() ==> (#[trigger] top[a]).1 > 0 && top[a].1 == self.score(
                top[a].0,
                guild_id,
            )
        &&& forall|id: u64| #[trigger]
            self.score(id, guild_id) > 0 ==> lists(top, id) || (top.len() == limit && forall|a: int|
                0 <= a < top.len() ==> ranks_before(
                    #[trigger] top[a],
                    (id, self.score(id, guild_id) as i64),
                ))
    }

    /// Every score fits in a signed 64-bit number.
    pub proof fn lemma_score_fits(self, id: u64, guild_id: u64)
        ensures
            i64::MIN <= self.score(id, guild_id) <= i64::MAX,
    {
    }

    /// A ledger in which every score is 0.
    pub fn new() -> (board: ScoreBoard)
        ensures
            board.wf(),
            forall|id: u64, guild_id: u64| board.score(id, guild_id) == 0,
            total(board@),
    {
        let board = ScoreBoard { rows: Vec::new() };
        assert forall|id: u64, guild_id: u64| board.score(id, guild_id) == 0 by {
            assert(!exists|i: int| is_row_of(board.rows@, i, id, guild_id));
        }
        board
    }

    /// The index of the row of the pair `(id, guild_id)`, if it has one.
    fn find(&self, id: u64, guild_id: u64) -> (found: Option<usize>)
        ensures
            match found {
                Some(i) => is_row_of(self.rows@, i as int, id, guild_id),
                None => forall|i: int| !is_row_of(self.rows@, i, id, guild_id),
            },
    {
        let mut i: usize = 0;
        while i < self.rows.len()
            invariant
                i <= self.rows.len(),
                forall|k: int| 0 <= k < i ==> !is_row_of(self.rows@, k, id, guild_id),
            decreases self.rows.len() - i,
        {
            if self.rows[i].id == id && self.rows[i].guild_id == guild_id {
                return Some(i);
            }
            i = i + 1;
        }
        None
    }

    /// Reads the score of `id` in `guild_id`; 0 where nothing was ever added.
    pub fn read(&self, id: u64, guild_id: u64) -> (score: i64)
        requires
            self.wf(),
        ensures
            score == self.score(id, guild_id),
    {
        match self.find(id, guild_id) {
            Some(i) => {
                proof {
                    lemma_score_at(self.rows@, i as int, id, guild_id);
                }
                self.rows[i].score
            },
            None => 0,
        }
    }

    /// Adds `delta` to the score of `id` in `guild_id`, in one step.
    ///
    /// Succeeds exactly when the new score fits in a signed 64-bit number.
    /// No other score changes, and on failure none does.
    pub fn apply_delta(&mut self, id: u64, guild_id: u64, delta: i64) -> (done: Result<
        (),
        StoreError,
    >)
        requires
            old(self).wf(),
        ensures
            final(self).wf(),
            done is Ok <==> i64::MIN <= old(self).score(id, guild_id) + delta <= i64::MAX,
            done is Err ==> done == Err::<(), StoreError>(StoreError::OutOfRange),
            done is Ok ==> final(self).score(id, guild_id) == old(self).score(id, guild_id) + delta,
            done is Err ==> final(self).score(id, guild_id) == old(self).score(id, guild_id),
            done is Ok ==> final(self)@ == credited(
                old(self)@,
                (Delta { id, guild_id, amount: delta }),
            ),
            done is Err ==> final(self)@ == old(self)@,
            forall|other: u64, other_guild: u64|
                !(other == id && other_guild == guild_id) ==> #[trigger] final(self).score(
                    other,
                    other_guild,
                ) == old(self).score(other, other_guild),
    {
        let ghost before = self.rows@;
        match self.find(id, guild_id) {
            Some(i) => {
                proof {
                    lemma_score_at(before, i as int, id, guild_id);
                }
                let current = self.rows[i].score;
                match current.checked_add(delta) {
                    Some(sum) => {
                        let row = ScoreRecord { id, guild_id, score: sum };
                        self.rows[i] = row;
                        proof {
                            let after = self.rows@;
                            assert(after == before.update(i as int, row));
                            assert(distinct_pairs(after)) by {
                                assert forall|a: int, b: int| 0 <= a < b < after.len() implies !(
                                #[trigger] after[a].id == #[trigger] after[b].id
                                    && after[a].guild_id == after[b].guild_id) by {
                                    assert(!(before[a].id == before[b].id && before[a].guild_id
                                        == before[b].guild_id));
                                }
                            }
                            lemma_score_at(after, i as int, id, guild_id);
                            assert forall|other: u64, other_guild: u64|
                                !(other == id && other_guild == guild_id) implies score_in(
                                after,
                                other,
                                other_guild,
                            ) == score_in(before, other, other_guild) by {
                                lemma_same_rows_same_score(before, after, other, other_guild);
                            }
                        }
                        Ok(())
                    },
                    None => Err(StoreError::OutOfRange),
                }
            },
            None => {
                let row = ScoreRecord { id, guild_id, score: delta };
                self.rows.push(row);
                proof {
                    let after = self.rows@;
                    let last = before.len() as int;
                    assert(after == before.push(row));
                    assert(!exists|k: int| is_row_of(before, k, id, guild_id));
                    assert(distinct_pairs(after)) by {
                        assert forall|a: int, b: int| 0 <= a < b < after.len() implies !(
                        #[trigger] after[a].id == #[trigger] after[b].id && after[a].guild_id
                            == after[b].guild_id) by {
                            if b < last {
                                assert(!(before[a].id == before[b].id && before[a].guild_id
                                    == before[b].guild_id));
                            } else {
                                assert(!is_row_of(before, a, id, guild_id));
                            }
                        }
                    }
                    assert(is_row_of(after, last, id, guild_id));
                    lemma_score_at(after, last, id, guild_id);
                    assert forall|other: u64, other_guild: u64|
                        !(other == id && other_guild == guild_id) implies score_in(
                        after,
                        other,
                        other_guild,
                    ) == score_in(before, other, other_guild) by {
                        lemma_same_rows_same_score(before, after, other, other_guild);
                    }
                }
                Ok(())
            },
        }
    }

    /// The leaderboard of `guild_id`: the users with a score above 0, the
    /// highest score first, at most `limit` of them.
    pub fn top_n(&self, guild_id: u64, limit: u16) -> (top: Vec<(u64, i64)>)
        requires
            self.wf(),
        ensures
            self.is_leaderboard(guild_id, limit as nat, top@),
    {
        let mut all: Vec<(u64, i64)> = Vec::new();
        let mut i: usize = 0;
        while i < self.rows.len()
            invariant
                i <= self.rows.len(),
                distinct_pairs(self.rows@),
                ranked(all@),
                forall|a: int| 0 <= a < all.len() ==> from_rows(self.rows@, i as int, guild_id, #[trigger] all[a]),
                forall|k: int|
                    0 <= k < i && counts(#[trigger] self.rows[k], guild_id) ==> all@.contains(
                        entry_of(self.rows[k]),
                    ),
            decreases self.rows.len() - i,
        {
            let row = self.rows[i];
            if row.guild_id == guild_id && row.score > 0 {
                let e = (row.id, row.score);
                let mut p: usize = 0;
                while p < all.len() && (all[p].1 > e.1 || (all[p].1 == e.1 && all[p].0 < e.0))
                    invariant
                        p <= all.len(),
                        forall|a: int| 0 <= a < p ==> ranks_before(#[trigger] all[a], e),
                    decreases all.len() - p,
                {
                    p = p + 1;
                }
                let ghost before = all@;
                proof {
                    assert forall|b: int| p <= b < before.len() implies ranks_before(
                        e,
                        #[trigger] before[b],
                    ) by {
                        assert(from_rows(self.rows@, i as int, guild_id, before[p as int]));
                        let k = choose|k: int|
                            0 <= k < i && k < self.rows@.len() && counts(
                                #[trigger] self.rows@[k],
                                guild_id,
                            ) && entry_of(self.rows@[k]) == before[p as int];
                        assert(!(self.rows@[k].id == self.rows@[i as int].id && self.rows@[k].guild_id
                            == self.rows@[i as int].guild_id));
                        assert(ranks_before(e, before[p as int]));
                        if p < b {
                            assert(ranks_before(before[p as int], before[b]));
                        }
                    }
                }
                all.insert(p, e);
                proof {
                    let after = all@;
                    assert(after == before.insert(p as int, e));
                    assert(ranked(after)) by {
                        assert forall|a: int, b: int| 0 <= a < b < after.len() implies ranks_before(
                            #[trigger] after[a],
                            #[trigger] after[b],
                        ) by {
                            if b < p {
                                assert(ranks_before(before[a], before[b]));
                            } else if b == p {
                                assert(ranks_before(before[a], e));
                            } else if a < p {
                                assert(ranks_before(before[a], before[b - 1]));
                            } else if a == p {
                                assert(ranks_before(e, before[b - 1]));
                            } else {
                                assert(ranks_before(before[a - 1], before[b - 1]));
                            }
                        }
                    }
                    assert forall|a: int| 0 <= a < after.len() implies from_rows(
                        self.rows@,
                        i + 1,
                        guild_id,
                        #[trigger] after[a],
                    ) by {
                        if a == p {
                            assert(counts(self.rows@[i as int], guild_id));
                        } else {
                            let old_a = if a < p { a } else { a - 1 };
                            assert(from_rows(self.rows@, i as int, guild_id, before[old_a]));
                        }
                    }
                    assert forall|k: int|
                        0 <= k < i + 1 && counts(#[trigger] self.rows[k], guild_id) implies after.contains(
                        entry_of(self.rows[k]),
                    ) by {
                        if k == i {
                            assert(after[p as int] == entry_of(self.rows[k]));
                        } else {
                            assert(before.contains(entry_of(self.rows[k])));
                            let a = choose|a: int| 0 <= a < before.len() && before[a] == entry_of(self.rows[k]);
                            let new_a = if a < p { a } else { a + 1 };
                            assert(after[new_a] == entry_of(self.rows[k]));
                        }
                    }
                }
            } else {
                proof {
                    assert forall|a: int| 0 <= a < all.len() implies from_rows(
                        self.rows@,
                        i + 1,
                        guild_id,
                        #[trigger] all[a],
                    ) by {
                        assert(from_rows(self.rows@, i as int, guild_id, all[a]));
                    }
                }
            }
            i = i + 1;
        }
        let ghost whole = all@;
        all.truncate(limit as usize);
        proof {
            let top = all@;
            assert(top.len() <= limit);
            assert forall|a: int| 0 <= a < top.len() implies top[a] == whole[a] by {}
            assert(ranked(top)) by {
                assert forall|a: int, b: int| 0 <= a < b < top.len() implies ranks_before(
                    #[trigger] top[a],
                    #[trigger] top[b],
                ) by {
                    assert(ranks_before(whole[a], whole[b]));
                }
            }
            assert forall|a: int| 0 <= a < top.len() implies (#[trigger] top[a]).1 > 0 && top[a].1
                == self.score(top[a].0, guild_id) by {
                assert(from_rows(self.rows@, self.rows@.len() as int, guild_id, whole[a]));
                let k = choose|k: int|
                    0 <= k < self.rows@.len() && k < self.rows@.len() && counts(
                        #[trigger] self.rows@[k],
                        guild_id,
                    ) && entry_of(self.rows@[k]) == whole[a];
                lemma_score_at(self.rows@, k, top[a].0, guild_id);
            }
            assert forall|id: u64| #[trigger] self.score(id, guild_id) > 0 implies lists(top, id) || (
            top.len() == limit && forall|a: int|
                0 <= a < top.len() ==> ranks_before(
                    #[trigger] top[a],
                    (id, self.score(id, guild_id) as i64),
                )) by {
                assert(exists|k: int| is_row_of(self.rows@, k, id, guild_id));
                let k = choose|k: int| is_row_of(self.rows@, k, id, guild_id);
                lemma_score_at(self.rows@, k, id, guild_id);
                assert(counts(self.rows[k], guild_id));
                assert(whole.contains(entry_of(self.rows[k])));
                let w = choose|w: int| 0 <= w < whole.len() && whole[w] == entry_of(self.rows[k]);
                if w < top.len() {
                    assert(top[w].0 == id);
                } else {
                    assert forall|a: int| 0 <= a < top.len() implies ranks_before(
                        #[trigger] top[a],
                        (id, self.score(id, guild_id) as i64),
                    ) by {
                        assert(ranks_before(whole[a], whole[w]));
                    }
                }
            }
        }
        all
    }
}

/// Two tables whose rows for a pair are the same rows hold the same score
/// for it.
proof fn lemma_same_rows_same_score(
    before: Seq<ScoreRecord>,
    after: Seq<ScoreRecord>,
    id: u64,
    guild_id: u64,
)
    requires
        distinct_pairs(before),
        distinct_pairs(after),
        forall|i: int|
            is_row_of(before, i, id, guild_id) ==> is_row_of(after, i, id, guild_id) && after[i]
                == before[i],
        forall|i: int| is_row_of(after, i, id, guild_id) ==> is_row_of(before, i, id, guild_id),
    ensures
        score_in(after, id, guild_id) == score_in(before, id, guild_id),
{
    if exists|i: int| is_row_of(before, i, id, guild_id) {
        let i = choose|i: int| is_row_of(before, i, id, guild_id);
        lemma_score_at(before, i, id, guild_id);
        lemma_score_at(after, i, id, guild_id);
    } else {
        assert(!exists|i: int| is_row_of(after, i, id, guild_id));
    }
}

/// An entry of one leaderboard stands at the same place in every other
/// leaderboard of the same ledger, community and limit.
pub proof fn lemma_leaderboard_entry(
    board: ScoreBoard,
    guild_id: u64,
    limit: nat,
    one: Seq<(u64, i64)>,
    other: Seq<(u64, i64)>,
    i: int,
)
    requires
        board.is_leaderboard(guild_id, limit, one),
        board.is_leaderboard(guild_id, limit, other),
        0 <= i < one.len(),
    ensures
        i < other.len(),
        other[i] == one[i],
    decreases i,
{
    let e = one[i];
    assert(board.score(e.0, guild_id) > 0);
    assert forall|m: int| 0 <= m < i implies m < other.len() && #[trigger] other[m] == one[m] by {
        lemma_leaderboard_entry(board, guild_id, limit, one, other, m);
    }
    if lists(other, e.0) {
        let k = choose|k: int| 0 <= k < other.len() && (#[trigger] other[k]).0 == e.0;
        assert(other[k] == e);
        if k < i {
            assert(ranks_before(one[k], one[i]));
        } else if k > i {
            assert(ranks_before(other[i], other[k]));
            lemma_not_ahead(board, guild_id, limit, one, other, i);
        }
    } else {
        assert(other.len() == limit);
        assert(ranks_before(other[i], e));
        lemma_not_ahead(board, guild_id, limit, one, other, i);
    }
}

/// Where two leaderboards agree up to place `i`, the entry of the second at
/// that place does not stand before that of the first.
proof fn lemma_not_ahead(
    board: ScoreBoard,
    guild_id: u64,
    limit: nat,
    one: Seq<(u64, i64)>,
    other: Seq<(u64, i64)>,
    i: int,
)
    requires
        board.is_leaderboard(guild_id, limit, one),
        board.is_leaderboard(guild_id, limit, other),
        0 <= i < one.len(),
        i < other.len(),
        forall|m: int| 0 <= m < i ==> m < other.len() && #[trigger] other[m] == one[m],
    ensures
        !ranks_before(other[i], one[i]),
{
    let f = other[i];
    assert(board.score(f.0, guild_id) > 0);
    if lists(one, f.0) {
        let m = choose|m: int| 0 <= m < one.len() && (#[trigger] one[m]).0 == f.0;
        assert(one[m] == f);
        if m > i {
            assert(ranks_before(one[i], one[m]));
        } else if m < i {
            assert(other[m] == one[m]);
            assert(ranks_before(other[m], other[i]));
        }
    } else {
        assert(ranks_before(one[i], (f.0, board.score(f.0, guild_id) as i64)));
    }
}

/// The leaderboard is determined: a ledger has one leaderboard for a
/// community and a limit, and no other.
pub proof fn lemma_leaderboard_is_unique(
    board: ScoreBoard,
    guild_id: u64,
    limit: nat,
    one: Seq<(u64, i64)>,
    other: Seq<(u64, i64)>,
)
    requires
        board.is_leaderboard(guild_id, limit, one),
        board.is_leaderboard(guild_id, limit, other),
    ensures
        one == other,
{
    assert forall|i: int| 0 <= i < one.len() implies i < other.len() && other[i]
        == #[trigger] one[i] by {
        lemma_leaderboard_entry(board, guild_id, limit, one, other, i);
    }
    if one.len() > 0 {
        lemma_leaderboard_entry(board, guild_id, limit, one, other, one.len() - 1);
    }
    if other.len() > 0 {
        lemma_leaderboard_entry(board, guild_id, limit, other, one, other.len() - 1);
    }
    assert(one =~= other);
}

/// Gets the score of the user `id` in `guild_id`. Where the ledger has no
/// record of the user, the score is 0.
pub fn get_score(board: &ScoreBoard, id: u64, guild_id: u64) -> (score: Result<i64, StoreError>)
    requires
        board.wf(),
    ensures
        score == Ok::<i64, StoreError>(board.score(id, guild_id) as i64),
        i64::MIN <= board.score(id, guild_id) <= i64::MAX,
{
    Ok(board.read(id, guild_id))
}

/// Gets the pairs of a user and a score of `guild_id` whose score is above
/// 0, sorted from the highest score down, and at most `limit` of them.
pub fn get_scores(board: &ScoreBoard, guild_id: u64, limit: u16) -> (scores: Result<
    Vec<(u64, i64)>,
    StoreError,
>)
    requires
        board.wf(),
    ensures
        scores matches Ok(top) && board.is_leaderboard(guild_id, limit as nat, top@),
{
    Ok(board.top_n(guild_id, limit))
}

/// Adds `score` to the score of the user `id` in `guild_id`. Where the
/// ledger has no record of the user, one is made.
pub fn add_score(board: &mut ScoreBoard, id: u64, guild_id: u64, score: i8) -> (done: Result<
    (),
    StoreError,
>)
    requires
        old(board).wf(),
    ensures
        final(board).wf(),
        done is Ok <==> i64::MIN <= old(board).score(id, guild_id) + score <= i64::MAX,
        done is Err ==> done == Err::<(), StoreError>(StoreError::OutOfRange) && final(board)@
            == old(board)@,
        done is Ok ==> final(board)@ == credited(
            old(board)@,
            (Delta { id, guild_id, amount: score as i64 }),
        ),
{
    board.apply_delta(id, guild_id, score as i64)
}

/// Raises the score of the user `id` in `guild_id` by 1.
pub fn increment_score(board: &mut ScoreBoard, id: u64, guild_id: u64) -> (done: Result<
    (),
    StoreError,
>)
    requires
        old(board).wf(),
    ensures
        final(board).wf(),
        done is Ok <==> old(board).score(id, guild_id) + 1 <= i64::MAX,
        done is Err ==> done == Err::<(), StoreError>(StoreError::OutOfRange) && final(board)@
            == old(board)@,
        done is Ok ==> final(board)@ == credited(old(board)@, (Delta { id, guild_id, amount: 1i64 })),
{
    proof {
        board.lemma_score_fits(id, guild_id);
    }
    add_score(board, id, guild_id, 1)
}

/// Lowers the score of the user `id` in `guild_id` by 1.
pub fn decrement_score(board: &mut ScoreBoard, id: u64, guild_id: u64) -> (done: Result<
    (),
    StoreError,
>)
    requires
        old(board).wf(),
    ensures
        final(board).wf(),
        done is Ok <==> i64::MIN <= old(board).score(id, guild_id) - 1,
        done is Err ==> done == Err::<(), StoreError>(StoreError::OutOfRange) && final(board)@
            == old(board)@,
        done is Ok ==> final(board)@ == credited(old(board)@, (Delta { id, guild_id, amount: -1i64 })),
{
    proof {
        board.lemma_score_fits(id, guild_id);
    }
    add_score(board, id, guild_id, -1)
}

} // verus!
