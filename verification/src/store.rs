//! The store: users with credentials and session tokens, the vote ledger,
//! and the per-post counters, under one well-formedness invariant.
//!
//! `MainDatabase` plays the role of the transactional storage engine the
//! design leans on: every method is one atomic step, emails and tokens are
//! unique across users, at most one vote row exists per (user, post) pair,
//! and each post's counter equals the net sum of its ledger rows.

use vstd::prelude::*;

use crate::crypto;
use crate::crypto::{argon2_hash, argon2_verify, base64_url};
use crate::tally::{
    has_vote, lemma_net_absent, lemma_push, lemma_rows_bounded, lemma_update, net, pair_unique,
    vote_dir, vote_index,
};
use crate::validate::{valid_email, valid_password, valid_username};

verus! {

#[derive(Clone, Copy, Debug, PartialEq, Eq, Structural)]
pub enum UserRole {
    Banned,
    Unverified,
    User,
    Moderator,
    Admin,
}

impl Default for UserRole {
    /// New accounts start as plain users.
    fn default() -> (r: Self)
        ensures
            r == UserRole::User,
    {
        UserRole::User
    }
}

/// One user row: unique id, unique email and username, the encoded password
/// hash (salt and parameters embedded), the one active session token, role,
/// and the two activity timestamps (seconds).
#[derive(Debug)]
pub struct User {
    pub user_id: u32,
    pub username: String,
    pub email: String,
    pub password_hash: String,
    pub created_on: u64,
    pub last_activity: u64,
    pub user_role: UserRole,
    pub token: String,
}

impl Clone for User {
    fn clone(&self) -> (r: Self)
        ensures
            r == *self,
    {
        User {
            user_id: self.user_id,
            username: self.username.clone(),
            email: self.email.clone(),
            password_hash: self.password_hash.clone(),
            created_on: self.created_on,
            last_activity: self.last_activity,
            user_role: self.user_role,
            token: self.token.clone(),
        }
    }
}

/// One ledger row: a user's directional vote on a post.
#[derive(Clone, Copy, Debug, PartialEq, Eq, Structural)]
pub struct Vote {
    pub user_id: u32,
    pub post_id: u32,
    pub up: bool,
}

/// A vote request as a form hands it over.
#[derive(Clone, Copy, Debug, PartialEq, Eq, Structural)]
pub struct VoteData {
    pub allow_toggle: bool,
    pub is_upvote: bool,
    pub id: u32,
}

#[derive(Clone, Copy, Debug, PartialEq, Eq, Structural)]
pub enum RegisterError {
    InvalidEmail,
    InvalidUsername,
    InvalidPassword,
    EmailInUse,
    /// A broken runtime dependency: the hash could not be produced, the
    /// drawn token collided, or the user table is at capacity. Nothing was
    /// written.
    Internal,
}

#[derive(Clone, Copy, Debug, PartialEq, Eq, Structural)]
pub enum LoginError {
    InvalidEmail,
    InvalidPassword,
    UserNotFound,
    IncorrectPassword,
    /// The stored hash did not parse: a broken runtime dependency, not a
    /// user error. Nothing was written.
    Internal,
}

#[derive(Clone, Copy, Debug, PartialEq, Eq, Structural)]
pub enum VoteError {
    AlreadyVoted,
    PostNotFound,
}

/// The store's mathematical shape: the contracts all speak of this view.
pub ghost struct StoreV {
    pub users: Seq<User>,
    pub votes: Seq<Vote>,
    /// `posts[p]` is the denormalized net vote counter of post `p`.
    pub posts: Seq<i64>,
}

pub struct MainDatabase {
    users: Vec<User>,
    votes: Vec<Vote>,
    posts: Vec<i64>,
}

impl View for MainDatabase {
    type V = StoreV;

    closed spec fn view(&self) -> StoreV {
        StoreV { users: self.users@, votes: self.votes@, posts: self.posts@ }
    }
}

pub open spec fn email_taken(users: Seq<User>, email: Seq<char>) -> bool {
    exists|i: int| 0 <= i < users.len() && (#[trigger] users[i]).email@ == email
}

pub open spec fn token_taken(users: Seq<User>, token: Seq<char>) -> bool {
    exists|i: int| 0 <= i < users.len() && (#[trigger] users[i]).token@ == token
}

/// The row index holding `email`, when one does.
pub open spec fn user_with_email(users: Seq<User>, email: Seq<char>) -> int {
    choose|i: int| 0 <= i < users.len() && (#[trigger] users[i]).email@ == email
}

/// The row index holding `token`, when one does.
pub open spec fn user_with_token(users: Seq<User>, token: Seq<char>) -> int {
    choose|i: int| 0 <= i < users.len() && (#[trigger] users[i]).token@ == token
}

/// Well-formedness: ids are row indices; emails and tokens are unique;
/// at most one vote row per (user, post) pair; every vote names an existing
/// post; every counter equals the net sum of its ledger rows.
pub open spec fn wf_v(s: StoreV) -> bool {
    &&& s.users.len() <= 0x1_0000_0000
    &&& s.posts.len() <= 0x1_0000_0000
    &&& (forall|i: int| 0 <= i < s.users.len() ==> (#[trigger] s.users[i]).user_id == i as u32)
    &&& (forall|i: int, j: int|
        0 <= i < j < s.users.len() ==> (#[trigger] s.users[i]).email@ != (
        #[trigger] s.users[j]).email@)
    &&& (forall|i: int, j: int|
        0 <= i < j < s.users.len() ==> (#[trigger] s.users[i]).token@ != (
        #[trigger] s.users[j]).token@)
    &&& pair_unique(s.votes)
    &&& (forall|i: int|
        0 <= i < s.votes.len() ==> (#[trigger] s.votes[i]).post_id < s.posts.len())
    &&& (forall|p: int|
        0 <= p < s.posts.len() ==> (#[trigger] s.posts[p]) as int == net(s.votes, p as u32))
}

/// Character-for-character string equality.
fn str_eq(a: &str, b: &str) -> (r: bool)
    ensures
        r == (a@ == b@),
{
    let la = a.unicode_len();
    let lb = b.unicode_len();
    if la != lb {
        return false;
    }
    let mut i: usize = 0;
    while i < la
        invariant
            la == a@.len(),
            la == b@.len(),
            i <= la,
            forall|j: int| 0 <= j < i ==> a@[j] == b@[j],
        decreases la - i,
    {
        if a.get_char(i) != b.get_char(i) {
            return false;
        }
        i += 1;
    }
    proof {
        assert(a@ =~= b@);
    }
    true
}

/// The first row holding `email`, if any.
fn find_email_idx(users: &Vec<User>, email: &str) -> (r: Option<usize>)
    ensures
        (match r {
            Some(i) => i < users@.len() && users@[i as int].email@ == email@,
            None => !email_taken(users@, email@),
        }),
{
    let mut i: usize = 0;
    while i < users.len()
        invariant
            i <= users@.len(),
            forall|j: int| 0 <= j < i ==> (#[trigger] users@[j]).email@ != email@,
        decreases users@.len() - i,
    {
        if str_eq(users[i].email.as_str(), email) {
            return Some(i);
        }
        i += 1;
    }
    None
}

/// The first row holding `token`, if any.
fn find_token_idx(users: &Vec<User>, token: &str) -> (r: Option<usize>)
    ensures
        (match r {
            Some(i) => i < users@.len() && users@[i as int].token@ == token@,
            None => !token_taken(users@, token@),
        }),
{
    let mut i: usize = 0;
    while i < users.len()
        invariant
            i <= users@.len(),
            forall|j: int| 0 <= j < i ==> (#[trigger] users@[j]).token@ != token@,
        decreases users@.len() - i,
    {
        if str_eq(users[i].token.as_str(), token) {
            return Some(i);
        }
        i += 1;
    }
    None
}

/// The ledger row of the (user, post) pair, if any.
fn find_vote_idx(votes: &Vec<Vote>, user_id: u32, post_id: u32) -> (r: Option<usize>)
    ensures
        (match r {
            Some(i) => i < votes@.len() && votes@[i as int].user_id == user_id
                && votes@[i as int].post_id == post_id,
            None => !has_vote(votes@, user_id, post_id),
        }),
{
    let mut i: usize = 0;
    while i < votes.len()
        invariant
            i <= votes@.len(),
            forall|j: int|
                0 <= j < i ==> !((#[trigger] votes@[j]).user_id == user_id && votes@[j].post_id
                    == post_id),
        decreases votes@.len() - i,
    {
        if votes[i].user_id == user_id && votes[i].post_id == post_id {
            return Some(i);
        }
        i += 1;
    }
    None
}

/// What a successful registration did: exactly one user row was appended,
/// carrying the given email and username, a fresh 24-character token, a
/// salted hash that verifies against the registered password, the default
/// role, and the registration time; nothing else moved.
pub open spec fn register_success(
    s0: StoreV,
    s1: StoreV,
    email: Seq<char>,
    username: Seq<char>,
    password: Seq<char>,
    token: Seq<char>,
    now: u64,
) -> bool {
    &&& valid_email(email) && valid_username(username) && valid_password(password)
    &&& !email_taken(s0.users, email)
    &&& !token_taken(s0.users, token)
    &&& s0.users.len() < 0x1_0000_0000
    &&& s1.votes == s0.votes && s1.posts == s0.posts
    &&& s1.users == s0.users.push(s1.users.last())
    &&& ({
        let u = s1.users.last();
        &&& u.user_id as int == s0.users.len()
        &&& u.email@ == email
        &&& u.username@ == username
        &&& u.token@ == token
        &&& token.len() == 24
        &&& argon2_verify(u.password_hash@, password) == Some(true)
        &&& (exists|salt: Seq<u8>|
            salt.len() == 16 && u.password_hash@ == argon2_hash(password, salt))
        &&& (exists|tb: Seq<u8>| tb.len() == 16 && token == base64_url(tb))
        &&& u.user_role == UserRole::User
        &&& u.created_on == now
        &&& u.last_activity == now
    })
}

/// The outcome login owes on a given store: each rejection comes exactly on
/// its own condition, and the token returned is the stored one — login does
/// not rotate it.
pub open spec fn login_out(s: StoreV, email: Seq<char>, password: Seq<char>) -> Result<
    Seq<char>,
    LoginError,
> {
    if !valid_email(email) {
        Err(LoginError::InvalidEmail)
    } else if !valid_password(password) {
        Err(LoginError::InvalidPassword)
    } else if !email_taken(s.users, email) {
        Err(LoginError::UserNotFound)
    } else {
        let u = s.users[user_with_email(s.users, email)];
        match argon2_verify(u.password_hash@, password) {
            Some(true) => Ok(u.token@),
            Some(false) => Err(LoginError::IncorrectPassword),
            None => Err(LoginError::Internal),
        }
    }
}

/// The store after login: on success the matched user's last activity is
/// stamped; on any rejection nothing moves.
pub open spec fn login_next(s: StoreV, email: Seq<char>, password: Seq<char>, now: u64) -> StoreV {
    if login_out(s, email, password) is Ok {
        let i = user_with_email(s.users, email);
        StoreV {
            users: s.users.update(i, User { last_activity: now, ..s.users[i] }),
            votes: s.votes,
            posts: s.posts,
        }
    } else {
        s
    }
}

/// What a vote adds to a counter.
pub open spec fn vote_delta(up: bool) -> int {
    if up {
        1int
    } else {
        -1int
    }
}

/// The outcome cast_vote owes: a first vote moves the counter one step in
/// its direction; a repeat without toggling — or repeating the stored
/// direction — is `AlreadyVoted`; a toggle that flips the stored direction
/// moves the counter two steps; a missing post is `PostNotFound`.
pub open spec fn cast_vote_out(
    s: StoreV,
    user_id: u32,
    post_id: u32,
    is_upvote: bool,
    allow_toggle: bool,
) -> Result<i64, VoteError> {
    if !has_vote(s.votes, user_id, post_id) {
        if (post_id as int) < s.posts.len() {
            Ok((((s.posts[post_id as int]) as int) + vote_delta(is_upvote)) as i64)
        } else {
            Err(VoteError::PostNotFound)
        }
    } else if !allow_toggle || vote_dir(s.votes, user_id, post_id) == is_upvote {
        Err(VoteError::AlreadyVoted)
    } else if (post_id as int) < s.posts.len() {
        Ok((((s.posts[post_id as int]) as int) + 2 * vote_delta(is_upvote)) as i64)
    } else {
        Err(VoteError::PostNotFound)
    }
}

/// The store after cast_vote: ledger row and counter move together in one
/// step — a first vote appends its one row, a toggle replaces the existing
/// row in place, and every rejection leaves the store unchanged.
pub open spec fn cast_vote_next(
    s: StoreV,
    user_id: u32,
    post_id: u32,
    is_upvote: bool,
    allow_toggle: bool,
) -> StoreV {
    if !has_vote(s.votes, user_id, post_id) {
        if (post_id as int) < s.posts.len() {
            StoreV {
                users: s.users,
                votes: s.votes.push(Vote { user_id, post_id, up: is_upvote }),
                posts: s.posts.update(
                    post_id as int,
                    (((s.posts[post_id as int]) as int) + vote_delta(is_upvote)) as i64,
                ),
            }
        } else {
            s
        }
    } else if !allow_toggle || vote_dir(s.votes, user_id, post_id) == is_upvote {
        s
    } else if (post_id as int) < s.posts.len() {
        StoreV {
            users: s.users,
            votes: s.votes.update(
                vote_index(s.votes, user_id, post_id),
                Vote { user_id, post_id, up: is_upvote },
            ),
            posts: s.posts.update(
                post_id as int,
                (((s.posts[post_id as int]) as int) + 2 * vote_delta(is_upvote)) as i64,
            ),
        }
    } else {
        s
    }
}

/// Who holds `token`: its user's id, or `None` for a token never issued.
pub open spec fn token_user(users: Seq<User>, token: Seq<char>) -> Option<u32> {
    if token_taken(users, token) {
        Some(users[user_with_token(users, token)].user_id)
    } else {
        None
    }
}

impl MainDatabase {
    pub open spec fn wf(&self) -> bool {
        wf_v(self@)
    }

    /// An empty store.
    pub fn new() -> (r: Self)
        ensures
            r@.users =~= Seq::<User>::empty(),
            r@.votes =~= Seq::<Vote>::empty(),
            r@.posts =~= Seq::<i64>::empty(),
            r.wf(),
    {
        MainDatabase { users: Vec::new(), votes: Vec::new(), posts: Vec::new() }
    }

    /// Registers a new user and returns their session token.
    ///
    /// The inputs are validated before any other work, each rejection on
    /// exactly its own condition; a taken email is refused with `EmailInUse`
    /// and writes nothing. On success exactly one user row is appended
    /// (`register_success`). `Internal` covers only the fatal cases — the
    /// hash could not be produced, the freshly drawn token collided, or the
    /// table is at capacity — and also writes nothing.
    pub fn register(&mut self, email: &str, username: &str, password: &str, now: u64) -> (r:
        Result<String, RegisterError>)
        requires
            old(self).wf(),
        ensures
            final(self).wf(),
            ({
                let s0 = old(self)@;
                let s1 = final(self)@;
                match r {
                    Ok(t) => register_success(s0, s1, email@, username@, password@, t@, now),
                    Err(RegisterError::InvalidEmail) => !valid_email(email@) && s1 == s0,
                    Err(RegisterError::InvalidUsername) => valid_email(email@) && !valid_username(
                        username@,
                    ) && s1 == s0,
                    Err(RegisterError::InvalidPassword) => valid_email(email@) && valid_username(
                        username@,
                    ) && !valid_password(password@) && s1 == s0,
                    Err(RegisterError::EmailInUse) => valid_email(email@) && valid_username(
                        username@,
                    ) && valid_password(password@) && email_taken(s0.users, email@) && s1 == s0,
                    Err(RegisterError::Internal) => valid_email(email@) && valid_username(
                        username@,
                    ) && valid_password(password@) && !email_taken(s0.users, email@) && s1 == s0,
                }
            }),
    {
        if !crate::validate::check_email(email) {
            return Err(RegisterError::InvalidEmail);
        }
        if !crate::validate::check_username(username) {
            return Err(RegisterError::InvalidUsername);
        }
        if !crate::validate::check_password(password) {
            return Err(RegisterError::InvalidPassword);
        }
        if find_email_idx(&self.users, email).is_some() {
            return Err(RegisterError::EmailInUse);
        }
        if self.users.len() > (u32::MAX as usize) {
            return Err(RegisterError::Internal);
        }
        let salt = crypto::random_bytes();
        let hashed = match crypto::hash_password(password, &salt) {
            Some(h) => h,
            None => {
                return Err(RegisterError::Internal);
            },
        };
        let tok_bytes = crypto::random_bytes();
        let token = crypto::encode_token(&tok_bytes);
        if find_token_idx(&self.users, token.as_str()).is_some() {
            return Err(RegisterError::Internal);
        }
        let user = User {
            user_id: self.users.len() as u32,
            username: username.to_owned(),
            email: email.to_owned(),
            password_hash: hashed,
            created_on: now,
            last_activity: now,
            user_role: UserRole::User,
            token: token.clone(),
        };
        self.users.push(user);
        proof {
            let s0 = old(self)@;
            let s1 = self@;
            assert(s1.users.last() == s1.users[s0.users.len() as int]);
            assert(salt@.len() == 16 && s1.users.last().password_hash@ == argon2_hash(
                password@,
                salt@,
            ));
            assert(tok_bytes@.len() == 16 && token@ == base64_url(tok_bytes@));
            assert forall|i: int, j: int| 0 <= i < j < s1.users.len() implies (
            #[trigger] s1.users[i]).email@ != (#[trigger] s1.users[j]).email@ by {
                if j == s1.users.len() - 1 {
                    assert(s1.users[i] == s0.users[i]);
                }
            }
            assert forall|i: int, j: int| 0 <= i < j < s1.users.len() implies (
            #[trigger] s1.users[i]).token@ != (#[trigger] s1.users[j]).token@ by {
                if j == s1.users.len() - 1 {
                    assert(s1.users[i] == s0.users[i]);
                }
            }
            assert(register_success(s0, s1, email@, username@, password@, token@, now));
        }
        Ok(token)
    }

    /// Logs a user in: the stored token is returned (never rotated) when
    /// the password verifies against the stored hash, and the user's last
    /// activity is stamped; every rejection leaves the store unchanged.
    pub fn login(&mut self, email: &str, password: &str, now: u64) -> (r: Result<
        String,
        LoginError,
    >)
        requires
            old(self).wf(),
        ensures
            final(self).wf(),
            final(self)@ == login_next(old(self)@, email@, password@, now),
            (match r {
                Ok(t) => login_out(old(self)@, email@, password@) == Ok::<Seq<char>, LoginError>(
                    t@,
                ),
                Err(e) => login_out(old(self)@, email@, password@) == Err::<Seq<char>, LoginError>(
                    e,
                ),
            }),
    {
        if !crate::validate::check_email(email) {
            return Err(LoginError::InvalidEmail);
        }
        if !crate::validate::check_password(password) {
            return Err(LoginError::InvalidPassword);
        }
        let idx = match find_email_idx(&self.users, email) {
            Some(i) => i,
            None => {
                return Err(LoginError::UserNotFound);
            },
        };
        proof {
            let j = user_with_email(self@.users, email@);
            assert(self@.users[j].email@ == email@);
            assert(j == idx as int);
        }
        let outcome = crypto::verify_password(self.users[idx].password_hash.as_str(), password);
        match outcome {
            Some(true) => {
                let mut u = self.users[idx].clone();
                let token = u.token.clone();
                u.last_activity = now;
                let ghost s0 = self@;
                self.users.set(idx, u);
                proof {
                    let i = idx as int;
                    assert(self@.users =~= s0.users.update(
                        i,
                        User { last_activity: now, ..s0.users[i] },
                    ));
                    assert(self@ == login_next(s0, email@, password@, now));
                    assert forall|a: int, b: int| 0 <= a < b < self@.users.len() implies (
                    #[trigger] self@.users[a]).email@ != (#[trigger] self@.users[b]).email@ by {
                        assert(self@.users[a].email@ == s0.users[a].email@);
                        assert(self@.users[b].email@ == s0.users[b].email@);
                    }
                    assert forall|a: int, b: int| 0 <= a < b < self@.users.len() implies (
                    #[trigger] self@.users[a]).token@ != (#[trigger] self@.users[b]).token@ by {
                        assert(self@.users[a].token@ == s0.users[a].token@);
                        assert(self@.users[b].token@ == s0.users[b].token@);
                    }
                }
                Ok(token)
            },
            Some(false) => Err(LoginError::IncorrectPassword),
            None => Err(LoginError::Internal),
        }
    }

    /// Resolves a presented token to the id of the user it was issued to;
    /// `None` means the caller is unauthenticated.
    pub fn get_token_user(&self, token: &str) -> (r: Option<u32>)
        requires
            self.wf(),
        ensures
            r == token_user(self@.users, token@),
    {
        match find_token_idx(&self.users, token) {
            Some(i) => {
                proof {
                    assert(token_taken(self@.users, token@));
                    let j = user_with_token(self@.users, token@);
                    assert(self@.users[j].token@ == token@);
                    assert(j == i as int);
                }
                Some(self.users[i].user_id)
            },
            None => None,
        }
    }

    /// The user row with the given id, if it exists.
    pub fn get_user(&self, user_id: u32) -> (r: Option<User>)
        requires
            self.wf(),
        ensures
            (match r {
                Some(u) => (user_id as int) < self@.users.len() && u == self@.users[user_id as int],
                None => (user_id as int) >= self@.users.len(),
            }),
    {
        let idx = user_id as usize;
        if idx < self.users.len() {
            Some(self.users[idx].clone())
        } else {
            None
        }
    }

    /// The user row holding the presented token, if any.
    pub fn get_user_by_token(&self, token: &str) -> (r: Option<User>)
        requires
            self.wf(),
        ensures
            (match r {
                Some(u) => token_taken(self@.users, token@) && u == self@.users[user_with_token(
                    self@.users,
                    token@,
                )],
                None => !token_taken(self@.users, token@),
            }),
    {
        match find_token_idx(&self.users, token) {
            Some(i) => {
                proof {
                    let j = user_with_token(self@.users, token@);
                    assert(self@.users[j].token@ == token@);
                    assert(j == i as int);
                }
                Some(self.users[i].clone())
            },
            None => None,
        }
    }

    /// Creates a post with a zeroed counter and returns its id; `None` only
    /// when the table is at capacity.
    pub fn create_post(&mut self) -> (r: Option<u32>)
        requires
            old(self).wf(),
        ensures
            final(self).wf(),
            (match r {
                Some(pid) => {
                    &&& pid as int == old(self)@.posts.len()
                    &&& final(self)@.posts =~= old(self)@.posts.push(0i64)
                    &&& final(self)@.users == old(self)@.users
                    &&& final(self)@.votes == old(self)@.votes
                },
                None => final(self)@ == old(self)@ && old(self)@.posts.len() > 0xFFFF_FFFF,
            }),
    {
        if self.posts.len() > (u32::MAX as usize) {
            return None;
        }
        let pid = self.posts.len() as u32;
        self.posts.push(0i64);
        proof {
            let s1 = self@;
            assert forall|p: int| 0 <= p < s1.posts.len() implies (#[trigger] s1.posts[p]) as int
                == net(s1.votes, p as u32) by {
                if p == s1.posts.len() - 1 {
                    lemma_net_absent(s1.votes, p as u32);
                }
            }
        }
        Some(pid)
    }

    /// Records a user's vote on a post and returns the post's updated
    /// counter. Checking the existing vote state, writing the ledger row
    /// and moving the counter are one atomic step; the counter moves only
    /// by the ledger's delta, so it always equals the net sum of the rows.
    pub fn cast_vote(&mut self, user_id: u32, post_id: u32, is_upvote: bool, allow_toggle: bool)
        -> (r: Result<i64, VoteError>)
        requires
            old(self).wf(),
        ensures
            final(self).wf(),
            final(self)@ == cast_vote_next(old(self)@, user_id, post_id, is_upvote, allow_toggle),
            r == cast_vote_out(old(self)@, user_id, post_id, is_upvote, allow_toggle),
    {
        let found = find_vote_idx(&self.votes, user_id, post_id);
        let p_idx = post_id as usize;
        match found {
            None => {
                if p_idx < self.posts.len() {
                    let ghost s0 = self@;
                    let cur = self.posts[p_idx];
                    proof {
                        lemma_rows_bounded(s0.votes, post_id);
                        crate::tally::lemma_net_le_rows(s0.votes, post_id);
                    }
                    let newv = if is_upvote {
                        cur + 1
                    } else {
                        cur - 1
                    };
                    self.votes.push(Vote { user_id, post_id, up: is_upvote });
                    self.posts.set(p_idx, newv);
                    proof {
                        let v = Vote { user_id, post_id, up: is_upvote };
                        let s1 = self@;
                        assert forall|q: int| 0 <= q < s1.posts.len() implies (
                        #[trigger] s1.posts[q]) as int == net(s1.votes, q as u32) by {
                            lemma_push(s0.votes, v, q as u32, user_id);
                        }
                        assert forall|i: int, j: int| 0 <= i < j < s1.votes.len() implies !((
                        #[trigger] s1.votes[i]).user_id == (#[trigger] s1.votes[j]).user_id
                            && s1.votes[i].post_id == s1.votes[j].post_id) by {
                            if j == s1.votes.len() - 1 {
                                assert(s1.votes[i] == s0.votes[i]);
                                if s1.votes[i].user_id == user_id && s1.votes[i].post_id
                                    == post_id {
                                    assert(has_vote(s0.votes, user_id, post_id));
                                }
                            } else {
                                assert(s1.votes[i] == s0.votes[i] && s1.votes[j] == s0.votes[j]);
                            }
                        }
                        assert(s1 == cast_vote_next(s0, user_id, post_id, is_upvote, allow_toggle));
                    }
                    Ok(newv)
                } else {
                    Err(VoteError::PostNotFound)
                }
            },
            Some(i) => {
                proof {
                    assert(has_vote(self@.votes, user_id, post_id)) by {
                        assert(self@.votes[i as int].user_id == user_id && self@.votes[
                            i as int
                        ].post_id == post_id);
                    }
                    let vi = vote_index(self@.votes, user_id, post_id);
                    assert(0 <= vi < self@.votes.len() && self@.votes[vi].user_id == user_id
                        && self@.votes[vi].post_id == post_id);
                    assert(vi == i as int);
                }
                if !allow_toggle {
                    return Err(VoteError::AlreadyVoted);
                }
                let stored_up = self.votes[i].up;
                if stored_up == is_upvote {
                    return Err(VoteError::AlreadyVoted);
                }
                proof {
                    assert(self@.votes[i as int].post_id < self@.posts.len());
                }
                let ghost s0 = self@;
                let cur = self.posts[p_idx];
                proof {
                    lemma_rows_bounded(s0.votes, post_id);
                    crate::tally::lemma_net_le_rows(s0.votes, post_id);
                }
                let newv = if is_upvote {
                    cur + 2
                } else {
                    cur - 2
                };
                self.votes.set(i, Vote { user_id, post_id, up: is_upvote });
                self.posts.set(p_idx, newv);
                proof {
                    let v = Vote { user_id, post_id, up: is_upvote };
                    let s1 = self@;
                    assert forall|q: int| 0 <= q < s1.posts.len() implies (
                    #[trigger] s1.posts[q]) as int == net(s1.votes, q as u32) by {
                        lemma_update(s0.votes, i as int, v, q as u32, user_id);
                    }
                    assert forall|a: int, b: int| 0 <= a < b < s1.votes.len() implies !((
                    #[trigger] s1.votes[a]).user_id == (#[trigger] s1.votes[b]).user_id
                        && s1.votes[a].post_id == s1.votes[b].post_id) by {
                        assert(s0.votes[a].user_id == s1.votes[a].user_id && s0.votes[a].post_id
                            == s1.votes[a].post_id);
                        assert(s0.votes[b].user_id == s1.votes[b].user_id && s0.votes[b].post_id
                            == s1.votes[b].post_id);
                    }
                    assert(s1 == cast_vote_next(s0, user_id, post_id, is_upvote, allow_toggle));
                }
                Ok(newv)
            },
        }
    }

    /// The ledger step for a vote request as a form hands it over.
    pub fn vote(&mut self, user_id: u32, data: &VoteData) -> (r: Result<i64, VoteError>)
        requires
            old(self).wf(),
        ensures
            final(self).wf(),
            final(self)@ == cast_vote_next(
                old(self)@,
                user_id,
                data.id,
                data.is_upvote,
                data.allow_toggle,
            ),
            r == cast_vote_out(old(self)@, user_id, data.id, data.is_upvote, data.allow_toggle),
    {
        self.cast_vote(user_id, data.id, data.is_upvote, data.allow_toggle)
    }

    /// The current counter of a post.
    pub fn get_post_votes(&self, post_id: u32) -> (r: Option<i64>)
        ensures
            (match r {
                Some(c) => (post_id as int) < self@.posts.len() && c == self@.posts[post_id as int],
                None => (post_id as int) >= self@.posts.len(),
            }),
    {
        let idx = post_id as usize;
        if idx < self.posts.len() {
            Some(self.posts[idx])
        } else {
            None
        }
    }
}

} // verus!
