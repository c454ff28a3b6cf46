//! Arithmetic over the vote ledger: the net sum a post's counter must
//! equal, the number of rows a post has, and the bound that keeps the
//! counter far from overflow — rows of one post carry distinct 32-bit user
//! ids, so a post can never have more than 2^32 of them.

use vstd::prelude::*;
use vstd::set_lib::{lemma_int_range, lemma_len_subset, set_int_range};

use crate::store::Vote;

verus! {

/// What one ledger row contributes to post `p`.
pub open spec fn weight(v: Vote, p: u32) -> int {
    if v.post_id == p {
        if v.up {
            1
        } else {
            -1
        }
    } else {
        0
    }
}

/// The net sum of the rows on post `p`: what the post's counter denotes.
pub open spec fn net(votes: Seq<Vote>, p: u32) -> int
    decreases votes.len(),
{
    if votes.len() == 0 {
        0
    } else {
        net(votes.drop_last(), p) + weight(votes.last(), p)
    }
}

/// How many rows post `p` has.
pub open spec fn rows_on(votes: Seq<Vote>, p: u32) -> int
    decreases votes.len(),
{
    if votes.len() == 0 {
        0
    } else {
        rows_on(votes.drop_last(), p) + if votes.last().post_id == p {
            1int
        } else {
            0
        }
    }
}

/// The user ids that have a row on post `p`.
pub open spec fn voters_on(votes: Seq<Vote>, p: u32) -> Set<int>
    decreases votes.len(),
{
    if votes.len() == 0 {
        Set::<int>::empty()
    } else {
        let rest = voters_on(votes.drop_last(), p);
        if votes.last().post_id == p {
            rest.insert(votes.last().user_id as int)
        } else {
            rest
        }
    }
}

/// How many rows the (user `u`, post `p`) pair has.
pub open spec fn pair_count(votes: Seq<Vote>, u: u32, p: u32) -> int
    decreases votes.len(),
{
    if votes.len() == 0 {
        0
    } else {
        pair_count(votes.drop_last(), u, p) + if votes.last().user_id == u && votes.last().post_id
            == p {
            1int
        } else {
            0
        }
    }
}

/// At most one ledger row per (user, post) pair.
pub open spec fn pair_unique(votes: Seq<Vote>) -> bool {
    forall|i: int, j: int|
        0 <= i < j < votes.len() ==> !((#[trigger] votes[i]).user_id == (
        #[trigger] votes[j]).user_id && votes[i].post_id == votes[j].post_id)
}

pub open spec fn has_vote(votes: Seq<Vote>, u: u32, p: u32) -> bool {
    exists|i: int|
        0 <= i < votes.len() && (#[trigger] votes[i]).user_id == u && votes[i].post_id == p
}

/// The index of the (user `u`, post `p`) row, when one exists.
pub open spec fn vote_index(votes: Seq<Vote>, u: u32, p: u32) -> int {
    choose|i: int|
        0 <= i < votes.len() && (#[trigger] votes[i]).user_id == u && votes[i].post_id == p
}

/// The stored direction of the (user `u`, post `p`) row.
pub open spec fn vote_dir(votes: Seq<Vote>, u: u32, p: u32) -> bool {
    votes[vote_index(votes, u, p)].up
}

/// The net sum is bounded by the row count, which the sequence bounds.
pub proof fn lemma_net_le_rows(votes: Seq<Vote>, p: u32)
    ensures
        0 <= rows_on(votes, p) <= votes.len(),
        -rows_on(votes, p) <= net(votes, p) <= rows_on(votes, p),
    decreases votes.len(),
{
    if votes.len() > 0 {
        lemma_net_le_rows(votes.drop_last(), p);
    }
}

/// The voters of a post are exactly the users its rows carry; when the
/// ledger holds one row per pair, they number its rows.
pub proof fn lemma_voters_on(votes: Seq<Vote>, p: u32)
    ensures
        voters_on(votes, p).finite(),
        voters_on(votes, p).len() <= rows_on(votes, p),
        forall|x: int|
            #[trigger] voters_on(votes, p).contains(x) ==> exists|i: int|
                0 <= i < votes.len() && (#[trigger] votes[i]).post_id == p && votes[i].user_id
                    as int == x,
        forall|i: int|
            0 <= i < votes.len() && (#[trigger] votes[i]).post_id == p ==> voters_on(
                votes,
                p,
            ).contains(votes[i].user_id as int),
        pair_unique(votes) ==> voters_on(votes, p).len() == rows_on(votes, p),
    decreases votes.len(),
{
    if votes.len() > 0 {
        let prefix = votes.drop_last();
        let last = votes.last();
        lemma_voters_on(prefix, p);
        assert forall|i: int|
            0 <= i < votes.len() && (#[trigger] votes[i]).post_id == p implies voters_on(
            votes,
            p,
        ).contains(votes[i].user_id as int) by {
            if i < votes.len() - 1 {
                assert(prefix[i] == votes[i]);
            }
        }
        if pair_unique(votes) {
            assert(pair_unique(prefix)) by {
                assert forall|i: int, j: int| 0 <= i < j < prefix.len() implies !((
                #[trigger] prefix[i]).user_id == (#[trigger] prefix[j]).user_id && prefix[i].post_id
                    == prefix[j].post_id) by {
                    assert(prefix[i] == votes[i] && prefix[j] == votes[j]);
                }
            }
            if last.post_id == p {
                assert(!voters_on(prefix, p).contains(last.user_id as int)) by {
                    if voters_on(prefix, p).contains(last.user_id as int) {
                        let i = choose|i: int|
                            0 <= i < prefix.len() && (#[trigger] prefix[i]).post_id == p
                                && prefix[i].user_id as int == last.user_id as int;
                        assert(votes[i] == prefix[i]);
                        assert(votes[i].user_id == votes[votes.len() - 1].user_id);
                    }
                }
            }
        }
    }
}

/// Rows of one post carry distinct 32-bit user ids, so there are at most
/// 2^32 of them; with `lemma_net_le_rows` the counter stays far inside i64.
pub proof fn lemma_rows_bounded(votes: Seq<Vote>, p: u32)
    requires
        pair_unique(votes),
    ensures
        rows_on(votes, p) <= 0x1_0000_0000,
        -0x1_0000_0000 <= net(votes, p) <= 0x1_0000_0000,
{
    lemma_voters_on(votes, p);
    lemma_net_le_rows(votes, p);
    let voters = voters_on(votes, p);
    let ids = set_int_range(0, 0x1_0000_0000);
    assert(voters.subset_of(ids)) by {
        assert forall|x: int| voters.contains(x) implies ids.contains(x) by {
            let i = choose|i: int|
                0 <= i < votes.len() && (#[trigger] votes[i]).post_id == p && votes[i].user_id
                    as int == x;
            assert((votes[i].user_id as int) >= 0 && (votes[i].user_id as int) < 0x1_0000_0000);
        }
    }
    lemma_int_range(0, 0x1_0000_0000);
    lemma_len_subset(voters, ids);
}

/// Appending a row moves every post's net by the row's weight.
pub proof fn lemma_push(votes: Seq<Vote>, v: Vote, p: u32, u: u32)
    ensures
        net(votes.push(v), p) == net(votes, p) + weight(v, p),
        rows_on(votes.push(v), p) == rows_on(votes, p) + if v.post_id == p {
            1int
        } else {
            0
        },
        pair_count(votes.push(v), u, p) == pair_count(votes, u, p) + if v.user_id == u && v.post_id
            == p {
            1int
        } else {
            0
        },
{
    assert(votes.push(v).drop_last() =~= votes);
    assert(votes.push(v).last() == v);
}

/// Replacing a row moves every post's net by the difference of the weights.
pub proof fn lemma_update(votes: Seq<Vote>, i: int, v: Vote, p: u32, u: u32)
    requires
        0 <= i < votes.len(),
    ensures
        net(votes.update(i, v), p) == net(votes, p) - weight(votes[i], p) + weight(v, p),
        rows_on(votes.update(i, v), p) == rows_on(votes, p) - (if votes[i].post_id == p {
            1int
        } else {
            0
        }) + (if v.post_id == p {
            1int
        } else {
            0
        }),
        pair_count(votes.update(i, v), u, p) == pair_count(votes, u, p) - (if votes[i].user_id == u
            && votes[i].post_id == p {
            1int
        } else {
            0
        }) + (if v.user_id == u && v.post_id == p {
            1int
        } else {
            0
        }),
    decreases votes.len(),
{
    let s2 = votes.update(i, v);
    if i == votes.len() - 1 {
        assert(s2.drop_last() =~= votes.drop_last());
        assert(s2.last() == v);
    } else {
        assert(s2.drop_last() =~= votes.drop_last().update(i, v));
        assert(s2.last() == votes.last());
        lemma_update(votes.drop_last(), i, v, p, u);
    }
}

/// A post with no row on it has net zero.
pub proof fn lemma_net_absent(votes: Seq<Vote>, p: u32)
    requires
        forall|i: int| 0 <= i < votes.len() ==> (#[trigger] votes[i]).post_id != p,
    ensures
        net(votes, p) == 0,
        rows_on(votes, p) == 0,
    decreases votes.len(),
{
    if votes.len() > 0 {
        let prefix = votes.drop_last();
        assert(forall|i: int| 0 <= i < prefix.len() ==> (#[trigger] prefix[i]).post_id != p)
            by {
            assert(forall|i: int| 0 <= i < prefix.len() ==> prefix[i] == votes[i]);
        }
        lemma_net_absent(prefix, p);
    }
}

/// A pair has a row exactly when its count is positive; one row per pair
/// keeps every count at most one.
pub proof fn lemma_pair_count(votes: Seq<Vote>, u: u32, p: u32)
    ensures
        0 <= pair_count(votes, u, p) <= votes.len(),
        pair_count(votes, u, p) > 0 <==> has_vote(votes, u, p),
        pair_unique(votes) ==> pair_count(votes, u, p) <= 1,
    decreases votes.len(),
{
    if votes.len() > 0 {
        let prefix = votes.drop_last();
        let last = votes.last();
        lemma_pair_count(prefix, u, p);
        assert(forall|i: int| 0 <= i < prefix.len() ==> prefix[i] == votes[i]);
        if pair_count(votes, u, p) > 0 {
            if last.user_id == u && last.post_id == p {
                assert(has_vote(votes, u, p)) by {
                    assert(votes[votes.len() - 1].user_id == u);
                }
            } else {
                let i = choose|i: int|
                    0 <= i < prefix.len() && (#[trigger] prefix[i]).user_id == u
                        && prefix[i].post_id == p;
                assert(votes[i].user_id == u && votes[i].post_id == p);
            }
        }
        if has_vote(votes, u, p) {
            let i = choose|i: int|
                0 <= i < votes.len() && (#[trigger] votes[i]).user_id == u && votes[i].post_id
                    == p;
            if i < votes.len() - 1 {
                assert(prefix[i].user_id == u && prefix[i].post_id == p);
            }
        }
        if pair_unique(votes) {
            assert(pair_unique(prefix)) by {
                assert forall|i: int, j: int| 0 <= i < j < prefix.len() implies !((
                #[trigger] prefix[i]).user_id == (#[trigger] prefix[j]).user_id && prefix[i].post_id
                    == prefix[j].post_id) by {
                    assert(prefix[i] == votes[i] && prefix[j] == votes[j]);
                }
            }
            if last.user_id == u && last.post_id == p && pair_count(prefix, u, p) > 0 {
                let i = choose|i: int|
                    0 <= i < prefix.len() && (#[trigger] prefix[i]).user_id == u
                        && prefix[i].post_id == p;
                assert(votes[i].user_id == votes[votes.len() - 1].user_id && votes[i].post_id
                    == votes[votes.len() - 1].post_id);
            }
        }
    }
}

} // verus!
