//! The library's stated laws, proved over the spec-level views and
//! transitions that the public contracts speak of.

use vstd::prelude::*;

use crate::crypto::argon2_verify;
use crate::store::{
    cast_vote_next, cast_vote_out, email_taken, login_next, login_out, register_success,
    token_taken, token_user, user_with_email, wf_v, LoginError, StoreV, VoteError,
};
use crate::tally::{
    has_vote, lemma_net_le_rows, lemma_pair_count, lemma_push, lemma_rows_bounded, lemma_update,
    net, pair_count, rows_on, vote_dir, vote_index,
};
use crate::store::Vote;
use crate::validate::{valid_email, valid_password};

verus! {

/// A successful registration takes its email: on the resulting store the
/// email is in use, so a second registration with it is refused with
/// EmailInUse and writes nothing (the register contract's EmailInUse arm).
pub proof fn lemma_register_takes_email(
    s0: StoreV,
    s1: StoreV,
    email: Seq<char>,
    username: Seq<char>,
    password: Seq<char>,
    token: Seq<char>,
    now: u64,
)
    requires
        register_success(s0, s1, email, username, password, token, now),
    ensures
        email_taken(s1.users, email),
{
    assert(s1.users[s1.users.len() - 1].email@ == email);
}

/// Logging in with the password a user registered with returns exactly the
/// token registration issued: login does not rotate it.
pub proof fn lemma_login_returns_registered_token(
    s0: StoreV,
    s1: StoreV,
    email: Seq<char>,
    username: Seq<char>,
    password: Seq<char>,
    token: Seq<char>,
    now: u64,
)
    requires
        wf_v(s0),
        register_success(s0, s1, email, username, password, token, now),
    ensures
        login_out(s1, email, password) == Ok::<Seq<char>, LoginError>(token),
{
    let n = s0.users.len() as int;
    assert(s1.users[n].email@ == email);
    assert(email_taken(s1.users, email));
    let i = user_with_email(s1.users, email);
    assert(0 <= i < s1.users.len() && s1.users[i].email@ == email);
    if i < n {
        assert(s1.users[i] == s0.users[i]);
        assert(email_taken(s0.users, email));
    }
    assert(i == n);
}

/// Logging in with a password that does not verify against the stored hash
/// is refused with IncorrectPassword and alters nothing.
pub proof fn lemma_login_wrong_password(
    s: StoreV,
    email: Seq<char>,
    password: Seq<char>,
    now: u64,
)
    requires
        valid_email(email),
        valid_password(password),
        email_taken(s.users, email),
        argon2_verify(s.users[user_with_email(s.users, email)].password_hash@, password) == Some(
            false,
        ),
    ensures
        login_out(s, email, password) == Err::<Seq<char>, LoginError>(
            LoginError::IncorrectPassword,
        ),
        login_next(s, email, password, now) == s,
{
}

/// A token issued by registration resolves to the registered user's id.
pub proof fn lemma_resolve_registered_token(
    s0: StoreV,
    s1: StoreV,
    email: Seq<char>,
    username: Seq<char>,
    password: Seq<char>,
    token: Seq<char>,
    now: u64,
)
    requires
        wf_v(s0),
        register_success(s0, s1, email, username, password, token, now),
    ensures
        token_user(s1.users, token) == Some((s0.users.len() as u32)),
{
    let n = s0.users.len() as int;
    assert(s1.users[n].token@ == token);
    assert(token_taken(s1.users, token));
    let i = crate::store::user_with_token(s1.users, token);
    assert(0 <= i < s1.users.len() && s1.users[i].token@ == token);
    if i < n {
        assert(s1.users[i] == s0.users[i]);
        assert(token_taken(s0.users, token));
    }
    assert(i == n);
}

/// A token never issued resolves to nobody.
pub proof fn lemma_resolve_unknown_token(s: StoreV, token: Seq<char>)
    requires
        !token_taken(s.users, token),
    ensures
        token_user(s.users, token) is None,
{
}

/// One cast_vote step preserves well-formedness and never touches the
/// users or the number of posts.
pub proof fn lemma_cast_vote_preserves(
    s: StoreV,
    user_id: u32,
    post_id: u32,
    is_upvote: bool,
    allow_toggle: bool,
)
    requires
        wf_v(s),
    ensures
        ({
            let s1 = cast_vote_next(s, user_id, post_id, is_upvote, allow_toggle);
            &&& wf_v(s1)
            &&& s1.users == s.users
            &&& s1.posts.len() == s.posts.len()
        }),
{
    let s1 = cast_vote_next(s, user_id, post_id, is_upvote, allow_toggle);
    lemma_rows_bounded(s.votes, post_id);
    lemma_net_le_rows(s.votes, post_id);
    if !has_vote(s.votes, user_id, post_id) {
        if (post_id as int) < s.posts.len() {
            let v = Vote { user_id, post_id, up: is_upvote };
            assert forall|q: int| 0 <= q < s1.posts.len() implies (#[trigger] s1.posts[q]) as int
                == net(s1.votes, q as u32) by {
                lemma_push(s.votes, v, q as u32, user_id);
            }
            assert forall|i: int, j: int| 0 <= i < j < s1.votes.len() implies !((
            #[trigger] s1.votes[i]).user_id == (#[trigger] s1.votes[j]).user_id && s1.votes[i].post_id
                == s1.votes[j].post_id) by {
                if j == s1.votes.len() - 1 {
                    assert(s1.votes[i] == s.votes[i]);
                    if s1.votes[i].user_id == user_id && s1.votes[i].post_id == post_id {
                        assert(has_vote(s.votes, user_id, post_id));
                    }
                } else {
                    assert(s1.votes[i] == s.votes[i] && s1.votes[j] == s.votes[j]);
                }
            }
        }
    } else if allow_toggle && vote_dir(s.votes, user_id, post_id) != is_upvote {
        let vi = vote_index(s.votes, user_id, post_id);
        assert(0 <= vi < s.votes.len() && s.votes[vi].user_id == user_id && s.votes[vi].post_id
            == post_id);
        assert(s.votes[vi].post_id < s.posts.len());
        if (post_id as int) < s.posts.len() {
            let v = Vote { user_id, post_id, up: is_upvote };
            assert forall|q: int| 0 <= q < s1.posts.len() implies (#[trigger] s1.posts[q]) as int
                == net(s1.votes, q as u32) by {
                lemma_update(s.votes, vi, v, q as u32, user_id);
            }
            assert forall|a: int, b: int| 0 <= a < b < s1.votes.len() implies !((
            #[trigger] s1.votes[a]).user_id == (#[trigger] s1.votes[b]).user_id && s1.votes[a].post_id
                == s1.votes[b].post_id) by {
                assert(s.votes[a].user_id == s1.votes[a].user_id && s.votes[a].post_id
                    == s1.votes[a].post_id);
                assert(s.votes[b].user_id == s1.votes[b].user_id && s.votes[b].post_id
                    == s1.votes[b].post_id);
            }
        }
    }
}

/// A first vote moves the counter by one in its direction; a repeat by the
/// same user without toggling is refused with AlreadyVoted and moves
/// nothing.
pub proof fn lemma_first_vote_then_repeat(s: StoreV, user_id: u32, post_id: u32, second_up: bool)
    requires
        wf_v(s),
        (post_id as int) < s.posts.len(),
        !has_vote(s.votes, user_id, post_id),
    ensures
        ({
            let v0 = (s.posts[post_id as int]) as int;
            let s1 = cast_vote_next(s, user_id, post_id, true, false);
            &&& cast_vote_out(s, user_id, post_id, true, false) == Ok::<i64, VoteError>(
                (v0 + 1) as i64,
            )
            &&& (s1.posts[post_id as int]) as int == v0 + 1
            &&& cast_vote_out(s1, user_id, post_id, second_up, false) == Err::<i64, VoteError>(
                VoteError::AlreadyVoted,
            )
            &&& cast_vote_next(s1, user_id, post_id, second_up, false) == s1
        }),
{
    lemma_rows_bounded(s.votes, post_id);
    lemma_net_le_rows(s.votes, post_id);
    let s1 = cast_vote_next(s, user_id, post_id, true, false);
    assert(has_vote(s1.votes, user_id, post_id)) by {
        assert(s1.votes[s1.votes.len() - 1].user_id == user_id);
    }
}

/// Toggling flips: after an upvote, the same user's downvote with toggling
/// allowed lands the counter one below where it began, and the pair still
/// holds exactly one ledger row.
pub proof fn lemma_toggle_flips(s: StoreV, user_id: u32, post_id: u32)
    requires
        wf_v(s),
        (post_id as int) < s.posts.len(),
        !has_vote(s.votes, user_id, post_id),
    ensures
        ({
            let v0 = (s.posts[post_id as int]) as int;
            let s1 = cast_vote_next(s, user_id, post_id, true, false);
            let s2 = cast_vote_next(s1, user_id, post_id, false, true);
            &&& cast_vote_out(s1, user_id, post_id, false, true) == Ok::<i64, VoteError>(
                (v0 - 1) as i64,
            )
            &&& (s2.posts[post_id as int]) as int == v0 - 1
            &&& pair_count(s2.votes, user_id, post_id) == 1
        }),
{
    lemma_rows_bounded(s.votes, post_id);
    lemma_net_le_rows(s.votes, post_id);
    let v0 = (s.posts[post_id as int]) as int;
    let s1 = cast_vote_next(s, user_id, post_id, true, false);
    let n = s.votes.len() as int;
    let v_up = Vote { user_id, post_id, up: true };
    assert(s1.votes == s.votes.push(v_up));
    assert(has_vote(s1.votes, user_id, post_id)) by {
        assert(s1.votes[n].user_id == user_id);
    }
    let vi = vote_index(s1.votes, user_id, post_id);
    assert(0 <= vi < s1.votes.len() && s1.votes[vi].user_id == user_id && s1.votes[vi].post_id
        == post_id);
    if vi < n {
        assert(s1.votes[vi] == s.votes[vi]);
        assert(has_vote(s.votes, user_id, post_id));
    }
    assert(vi == n);
    assert(vote_dir(s1.votes, user_id, post_id) == true);
    assert((s1.posts[post_id as int]) as int == v0 + 1);
    let s2 = cast_vote_next(s1, user_id, post_id, false, true);
    assert((s2.posts[post_id as int]) as int == v0 - 1);
    lemma_pair_count(s.votes, user_id, post_id);
    lemma_push(s.votes, v_up, post_id, user_id);
    assert(pair_count(s1.votes, user_id, post_id) == 1);
    let v_down = Vote { user_id, post_id, up: false };
    lemma_update(s1.votes, n, v_down, post_id, user_id);
    assert(pair_count(s2.votes, user_id, post_id) == 1);
}

/// The order in which the storage engine serializes concurrent first-time
/// upvotes on one post.
pub open spec fn upvote_all(s: StoreV, post_id: u32, voters: Seq<u32>) -> StoreV
    decreases voters.len(),
{
    if voters.len() == 0 {
        s
    } else {
        upvote_all(
            cast_vote_next(s, voters[0], post_id, true, false),
            post_id,
            voters.drop_first(),
        )
    }
}

/// No lost updates: however many first-time upvotes by distinct users are
/// serialized on one post, the counter gains exactly one per caller and
/// the ledger exactly one row per caller.
pub proof fn lemma_distinct_upvotes(s: StoreV, post_id: u32, voters: Seq<u32>)
    requires
        wf_v(s),
        (post_id as int) < s.posts.len(),
        forall|k: int| 0 <= k < voters.len() ==> !has_vote(s.votes, #[trigger] voters[k], post_id),
        forall|k: int, l: int| 0 <= k < l < voters.len() ==> voters[k] != voters[l],
    ensures
        ({
            let s2 = upvote_all(s, post_id, voters);
            &&& wf_v(s2)
            &&& s2.users == s.users
            &&& s2.posts.len() == s.posts.len()
            &&& (s2.posts[post_id as int]) as int == (s.posts[post_id as int]) as int
                + voters.len()
            &&& rows_on(s2.votes, post_id) == rows_on(s.votes, post_id) + voters.len()
        }),
    decreases voters.len(),
{
    if voters.len() > 0 {
        let u0 = voters[0];
        let v = Vote { user_id: u0, post_id, up: true };
        let s1 = cast_vote_next(s, u0, post_id, true, false);
        lemma_rows_bounded(s.votes, post_id);
        lemma_net_le_rows(s.votes, post_id);
        lemma_cast_vote_preserves(s, u0, post_id, true, false);
        assert(s1.votes == s.votes.push(v));
        assert((s1.posts[post_id as int]) as int == (s.posts[post_id as int]) as int + 1);
        lemma_push(s.votes, v, post_id, u0);
        let rest = voters.drop_first();
        assert forall|k: int| 0 <= k < rest.len() implies !has_vote(
            s1.votes,
            #[trigger] rest[k],
            post_id,
        ) by {
            assert(rest[k] == voters[k + 1]);
            assert(voters[k + 1] != u0);
            if has_vote(s1.votes, rest[k], post_id) {
                let i = choose|i: int|
                    0 <= i < s1.votes.len() && (#[trigger] s1.votes[i]).user_id == rest[k]
                        && s1.votes[i].post_id == post_id;
                if i < s.votes.len() {
                    assert(s1.votes[i] == s.votes[i]);
                    assert(has_vote(s.votes, voters[k + 1], post_id));
                } else {
                    assert(s1.votes[i] == v);
                }
            }
        }
        assert(forall|k: int, l: int| 0 <= k < l < rest.len() ==> rest[k] != rest[l]) by {
            assert(forall|k: int, l: int|
                0 <= k < l < rest.len() ==> rest[k] == voters[k + 1] && rest[l] == voters[l + 1]);
        }
        lemma_distinct_upvotes(s1, post_id, rest);
        assert(upvote_all(s, post_id, voters) == upvote_all(s1, post_id, rest));
    }
}

} // verus!
