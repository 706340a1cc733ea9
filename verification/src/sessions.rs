//! The session store: opaque tokens mapped to an authenticated user,
//! with a sliding one-day inactivity expiry.
//!
//! A session is bound to the hash of its user's password at login time,
//! so a password change makes every existing session of that user
//! resolve as expired.

use vstd::prelude::*;
use crate::users::{find_by_id, User, UserStore, UserView};

verus! {

/// The inactivity window: one day, in seconds.
pub const SESSION_TTL_SECS: i64 = 86400;

/// One live session record.
pub struct Session {
    pub token: u64,
    pub user_id: u64,
    pub expires_at: i64,
    pub auth_hash: String,
}

/// Mathematical image of a session record.
pub struct SessionView {
    pub token: u64,
    pub user_id: u64,
    pub expires_at: i64,
    pub auth_hash: Seq<char>,
}

impl View for Session {
    type V = SessionView;

    open spec fn view(&self) -> SessionView {
        SessionView {
            token: self.token,
            user_id: self.user_id,
            expires_at: self.expires_at,
            auth_hash: self.auth_hash@,
        }
    }
}

impl Clone for Session {
    fn clone(&self) -> (r: Self)
        ensures
            r@ == self@,
    {
        Session {
            token: self.token,
            user_id: self.user_id,
            expires_at: self.expires_at,
            auth_hash: self.auth_hash.clone(),
        }
    }
}

/// No two sessions share a token.
pub open spec fn tokens_unique(s: Seq<SessionView>) -> bool {
    forall|i: int, j: int| 0 <= i < j < s.len() ==> s[i].token != s[j].token
}

/// With unique tokens, two positions holding the same token are one.
pub proof fn lemma_token_at_one_index(s: Seq<SessionView>, a: int, b: int)
    requires
        tokens_unique(s),
        0 <= a < s.len(),
        0 <= b < s.len(),
        s[a].token == s[b].token,
    ensures
        a == b,
{
    if a < b {
        assert(s[a].token != s[b].token);
    } else if b < a {
        assert(s[b].token != s[a].token);
    }
}

pub open spec fn has_token(s: Seq<SessionView>, token: u64) -> bool {
    exists|i: int| 0 <= i < s.len() && s[i].token == token
}

pub open spec fn token_index(s: Seq<SessionView>, token: u64) -> int {
    choose|i: int| 0 <= i < s.len() && s[i].token == token
}

/// The record a token lookup returns.
pub open spec fn session_for(s: Seq<SessionView>, token: u64) -> SessionView {
    s[token_index(s, token)]
}

/// A session resolves to its user only while it has not expired and its
/// bound hash still equals the user's current password hash.
pub open spec fn session_valid(sess: SessionView, users: Seq<UserView>, now: i64) -> bool {
    &&& now < sess.expires_at
    &&& match find_by_id(users, sess.user_id) {
        Some(u) => u.password_hash == sess.auth_hash,
        None => false,
    }
}

/// The store after a successful resolve at `now`: the addressed
/// session's expiry slides forward, every other record is unchanged.
pub open spec fn refreshed(s: Seq<SessionView>, token: u64, now: i64) -> Seq<SessionView> {
    Seq::new(
        s.len(),
        |i: int|
            if s[i].token == token {
                SessionView {
                    token: s[i].token,
                    user_id: s[i].user_id,
                    expires_at: (now + SESSION_TTL_SECS) as i64,
                    auth_hash: s[i].auth_hash,
                }
            } else {
                s[i]
            },
    )
}

/// The store after a logout of `token`: every record with another token
/// survives in order.
pub open spec fn without_token(s: Seq<SessionView>, token: u64) -> Seq<SessionView>
    decreases s.len(),
{
    if s.len() == 0 {
        Seq::empty()
    } else {
        let rest = without_token(s.drop_last(), token);
        if s.last().token == token {
            rest
        } else {
            rest.push(s.last())
        }
    }
}

/// The session store, with the counter the next token is drawn from.
pub struct SessionStore {
    pub sessions: Vec<Session>,
    pub next_token: u64,
}

impl View for SessionStore {
    type V = Seq<SessionView>;

    open spec fn view(&self) -> Seq<SessionView> {
        self.sessions@.map_values(|s: Session| s@)
    }
}

impl SessionStore {
    /// Well-formedness: unique tokens, all below the token counter.
    pub open spec fn wf(&self) -> bool {
        &&& tokens_unique(self@)
        &&& forall|i: int| 0 <= i < self@.len() ==> (#[trigger] self@[i]).token < self.next_token
    }

    pub fn new() -> (s: Self)
        ensures
            s@ == Seq::<SessionView>::empty(),
            s.next_token == 0,
            s.wf(),
    {
        let s = SessionStore { sessions: Vec::new(), next_token: 0 };
        proof {
            assert(s@ =~= Seq::<SessionView>::empty());
        }
        s
    }

    /// Create a session for an authenticated user: a fresh token, bound
    /// to the given auth hash, expiring one day from `now`.
    pub fn login(&mut self, user_id: u64, auth_hash: &str, now: i64) -> (token: u64)
        requires
            old(self).wf(),
            old(self).next_token < u64::MAX,
            now <= i64::MAX - SESSION_TTL_SECS,
        ensures
            final(self).wf(),
            !has_token(old(self)@, token),
            final(self)@ == old(self)@.push(
                (SessionView {
                    token: token,
                    user_id: user_id,
                    expires_at: (now + SESSION_TTL_SECS) as i64,
                    auth_hash: auth_hash@,
                }),
            ),
    {
        let token = self.next_token;
        let sess = Session {
            token,
            user_id,
            expires_at: now + SESSION_TTL_SECS,
            auth_hash: auth_hash.to_owned(),
        };
        let ghost sv = sess@;
        self.sessions.push(sess);
        self.next_token = self.next_token + 1;
        proof {
            assert(self@ =~= old(self)@.push(sv));
        }
        token
    }

    /// The position of the session a token names.
    fn find_token(&self, token: u64) -> (r: Option<usize>)
        requires
            self.wf(),
        ensures
            (match r {
                Some(i) => i < self@.len() && self@[i as int].token == token && token_index(
                    self@,
                    token,
                ) == i as int,
                None => !has_token(self@, token),
            }),
    {
        let ghost vs = self@;
        let n = self.sessions.len();
        let mut i: usize = 0;
        while i < n
            invariant
                n == self.sessions.len(),
                vs == self@,
                n == vs.len(),
                tokens_unique(vs),
                0 <= i <= n,
                forall|j: int| 0 <= j < i ==> (#[trigger] vs[j]).token != token,
            decreases n - i,
        {
            proof {
                assert(vs[i as int] == self.sessions@[i as int]@);
            }
            if self.sessions[i].token == token {
                proof {
                    assert(vs[i as int].token == token);
                    assert(has_token(vs, token));
                    let j = token_index(vs, token);
                    assert(0 <= j < vs.len() && vs[j].token == token);
                    lemma_token_at_one_index(vs, j, i as int);
                }
                return Some(i);
            }
            i = i + 1;
        }
        None
    }

    /// Slide the expiry of the session a token names forward to one day
    /// from `now`.
    fn refresh(&mut self, token: u64, now: i64)
        requires
            old(self).wf(),
            now <= i64::MAX - SESSION_TTL_SECS,
        ensures
            final(self).wf(),
            final(self)@ == refreshed(old(self)@, token, now),
    {
        let ghost vs = self@;
        let mut out: Vec<Session> = Vec::new();
        let n = self.sessions.len();
        let mut i: usize = 0;
        while i < n
            invariant
                n == self.sessions.len(),
                vs == self@,
                n == vs.len(),
                0 <= i <= n,
                now <= i64::MAX - SESSION_TTL_SECS,
                out@.len() == i,
                forall|j: int| 0 <= j < i ==> (#[trigger] out@[j])@ == refreshed(vs, token, now)[j],
            decreases n - i,
        {
            proof {
                assert(vs[i as int] == self.sessions@[i as int]@);
            }
            if self.sessions[i].token == token {
                let mut copy = self.sessions[i].clone();
                copy.expires_at = now + SESSION_TTL_SECS;
                out.push(copy);
            } else {
                out.push(self.sessions[i].clone());
            }
            i = i + 1;
        }
        self.sessions = out;
        proof {
            assert(self@ =~= refreshed(vs, token, now));
            assert(forall|a: int| 0 <= a < vs.len()
                ==> (#[trigger] refreshed(vs, token, now)[a]).token == vs[a].token);
        }
    }

    /// Resolve a token against the credential store at `now`.  A live,
    /// hash-consistent session yields its user and slides its expiry
    /// forward; an unknown token, an elapsed window or a stale hash
    /// yields `None`, the caller is anonymous, and nothing changes.
    pub fn resolve(&mut self, token: u64, users: &UserStore, now: i64) -> (r: Option<User>)
        requires
            old(self).wf(),
            users.wf(),
            now <= i64::MAX - SESSION_TTL_SECS,
        ensures
            final(self).wf(),
            (match r {
                Some(u) => {
                    &&& has_token(old(self)@, token)
                    &&& session_valid(session_for(old(self)@, token), users@, now)
                    &&& find_by_id(users@, session_for(old(self)@, token).user_id) == Some(u@)
                    &&& final(self)@ == refreshed(old(self)@, token, now)
                },
                None => {
                    &&& !(has_token(old(self)@, token) && session_valid(
                        session_for(old(self)@, token),
                        users@,
                        now,
                    ))
                    &&& final(self)@ == old(self)@
                },
            }),
    {
        let ghost vs = self@;
        match self.find_token(token) {
            None => None,
            Some(i) => {
                proof {
                    assert(vs[i as int] == self.sessions@[i as int]@);
                }
                if !(now < self.sessions[i].expires_at) {
                    return None;
                }
                let sess_user = self.sessions[i].user_id;
                match users.get_user(sess_user) {
                    None => None,
                    Some(u) => {
                        if self.sessions[i].auth_hash == *u.session_auth_hash() {
                            self.refresh(token, now);
                            Some(u)
                        } else {
                            None
                        }
                    },
                }
            },
        }
    }

    /// Destroy the session a token names.  Logging out twice, or with a
    /// token that was never issued, is not an error and changes nothing.
    pub fn logout(&mut self, token: u64)
        requires
            old(self).wf(),
        ensures
            final(self).wf(),
            !has_token(final(self)@, token),
            final(self)@ == without_token(old(self)@, token),
    {
        let ghost vs = self@;
        let mut out: Vec<Session> = Vec::new();
        let n = self.sessions.len();
        let mut i: usize = 0;
        while i < n
            invariant
                n == self.sessions.len(),
                vs == self@,
                n == vs.len(),
                0 <= i <= n,
                out@.map_values(|s: Session| s@) == without_token(vs.subrange(0, i as int), token),
            decreases n - i,
        {
            let ghost pre = out@.map_values(|s: Session| s@);
            proof {
                assert(vs[i as int] == self.sessions@[i as int]@);
            }
            if self.sessions[i].token == token {
            } else {
                let copy = self.sessions[i].clone();
                out.push(copy);
                proof {
                    assert(out@.map_values(|s: Session| s@) =~= pre.push(vs[i as int]));
                }
            }
            proof {
                assert(vs.subrange(0, i as int + 1).drop_last() =~= vs.subrange(0, i as int));
                assert(vs.subrange(0, i as int + 1).last() == vs[i as int]);
            }
            i = i + 1;
        }
        self.sessions = out;
        proof {
            assert(vs.subrange(0, n as int) =~= vs);
            lemma_without_token_facts(vs, token);
            assert forall|a: int| 0 <= a < self@.len() implies (#[trigger] self@[a]).token
                < self.next_token by {
                let w = without_token(vs, token);
                let k = choose|k: int| 0 <= k < vs.len() && vs[k] == w[a];
                assert(vs[k].token < self.next_token);
            }
        }
    }
}

/// Every record surviving a logout comes from the original store, no
/// surviving record bears the logged-out token, and token uniqueness is
/// preserved.
pub proof fn lemma_without_token_facts(s: Seq<SessionView>, token: u64)
    ensures
        forall|a: int| 0 <= a < without_token(s, token).len()
            ==> s.contains(#[trigger] without_token(s, token)[a])
                && without_token(s, token)[a].token != token,
        tokens_unique(s) ==> tokens_unique(without_token(s, token)),
    decreases s.len(),
{
    if s.len() > 0 {
        lemma_without_token_facts(s.drop_last(), token);
        let rest = without_token(s.drop_last(), token);
        let w = without_token(s, token);
        assert forall|a: int| 0 <= a < w.len() implies s.contains(#[trigger] w[a]) && w[a].token
            != token by {
            if a < rest.len() {
                let x = rest[a];
                assert(s.drop_last().contains(x));
                let i = choose|i: int| 0 <= i < s.drop_last().len() && s.drop_last()[i] == x;
                assert(s[i] == x);
            } else {
                assert(w[a] == s.last());
                assert(s[s.len() - 1] == s.last());
            }
        }
        if tokens_unique(s) && s.last().token != token {
            assert forall|i: int, j: int| 0 <= i < j < w.len() implies w[i].token != w[j].token by {
                if j == rest.len() {
                    let x = rest[i];
                    assert(s.drop_last().contains(x));
                    let k = choose|k: int| 0 <= k < s.drop_last().len() && s.drop_last()[k] == x;
                    assert(s[k].token != s[s.len() - 1].token);
                }
            }
        }
    }
}

/// A logout addressed to no session leaves the store unchanged, which
/// is why logging out is idempotent.
pub proof fn lemma_without_token_absent(s: Seq<SessionView>, token: u64)
    requires
        !has_token(s, token),
    ensures
        without_token(s, token) == s,
    decreases s.len(),
{
    if s.len() > 0 {
        assert(forall|i: int| 0 <= i < s.drop_last().len()
            ==> (#[trigger] s.drop_last()[i]).token != token);
        lemma_without_token_absent(s.drop_last(), token);
        assert(s[s.len() - 1].token != token);
        assert(without_token(s, token) =~= s);
    }
}

/// A session that has outlived its inactivity window never resolves:
/// the caller is anonymous from then on.
pub proof fn lemma_expired_session_anonymous(sess: SessionView, users: Seq<UserView>, now: i64)
    requires
        now >= sess.expires_at,
    ensures
        !session_valid(sess, users, now),
{
}

/// A session bound to a hash that no longer equals its user's password
/// hash is treated as expired, forcing a fresh login.
pub proof fn lemma_stale_hash_expires(sess: SessionView, users: Seq<UserView>, now: i64)
    requires
        (match find_by_id(users, sess.user_id) {
            Some(u) => u.password_hash != sess.auth_hash,
            None => true,
        }),
    ensures
        !session_valid(sess, users, now),
{
}

/// The sliding window: a resolve just before the deadline pushes the
/// deadline forward, so a second request after the original deadline
/// but within the refreshed window still finds a valid session.
pub proof fn lemma_sliding_expiry(
    s: Seq<SessionView>,
    users: Seq<UserView>,
    token: u64,
    t1: i64,
    t2: i64,
)
    requires
        tokens_unique(s),
        has_token(s, token),
        session_valid(session_for(s, token), users, t1),
        t1 <= t2,
        t2 < t1 + SESSION_TTL_SECS,
        t1 <= i64::MAX - SESSION_TTL_SECS,
    ensures
        has_token(refreshed(s, token, t1), token),
        session_valid(session_for(refreshed(s, token, t1), token), users, t2),
{
    let i = token_index(s, token);
    let r = refreshed(s, token, t1);
    assert(r[i].token == token);
    assert(has_token(r, token));
    let j = token_index(r, token);
    if j != i {
        assert(s[j].token == r[j].token);
        assert(s[j].token != s[i].token);
    }
    assert(session_for(r, token) == r[i]);
}

} // verus!
