//! The credential store: user records keyed by a unique id and a unique
//! email, each carrying a salted password hash, never the password.

use vstd::prelude::*;
use crate::password::{hash_password, verify_ok, verify_password, HASH_MAX_PASSWORD_CHARS};
use crate::text::str_eq;

verus! {

/// One row of the users table.  The password hash is kept private so
/// that no caller can read it back by accident; contracts speak of it
/// through the view.
pub struct User {
    pub user_id: u64,
    pub email: String,
    password: String,
    pub created_at: i64,
}

/// Mathematical image of a user row.
pub struct UserView {
    pub user_id: u64,
    pub email: Seq<char>,
    pub password_hash: Seq<char>,
    pub created_at: i64,
}

impl View for User {
    type V = UserView;

    closed spec fn view(&self) -> UserView {
        UserView {
            user_id: self.user_id,
            email: self.email@,
            password_hash: self.password@,
            created_at: self.created_at,
        }
    }
}

impl Clone for User {
    fn clone(&self) -> (r: Self)
        ensures
            r@ == self@,
    {
        User {
            user_id: self.user_id,
            email: self.email.clone(),
            password: self.password.clone(),
            created_at: self.created_at,
        }
    }
}

impl User {
    /// The user's identity.
    pub fn id(&self) -> (r: u64)
        ensures
            r == self@.user_id,
    {
        self.user_id
    }

    /// The hash a session is bound to at login.  It is the password
    /// hash, so a later password change invalidates the session.
    pub fn session_auth_hash(&self) -> (r: &String)
        ensures
            r@ == self@.password_hash,
    {
        &self.password
    }
}

/// An email and password pair as submitted by a login form, with the
/// optional path to return to afterwards.
pub struct Credentials {
    pub email: String,
    pub password: String,
    pub next: Option<String>,
}

/// No two users share an email.
pub open spec fn emails_unique(s: Seq<UserView>) -> bool {
    forall|i: int, j: int| 0 <= i < j < s.len() ==> s[i].email != s[j].email
}

/// No two users share an id.
pub open spec fn user_ids_unique(s: Seq<UserView>) -> bool {
    forall|i: int, j: int| 0 <= i < j < s.len() ==> s[i].user_id != s[j].user_id
}

/// With unique emails, two positions holding the same email are one.
pub proof fn lemma_email_at_one_index(s: Seq<UserView>, a: int, b: int)
    requires
        emails_unique(s),
        0 <= a < s.len(),
        0 <= b < s.len(),
        s[a].email == s[b].email,
    ensures
        a == b,
{
    if a < b {
        assert(s[a].email != s[b].email);
    } else if b < a {
        assert(s[b].email != s[a].email);
    }
}

/// With unique ids, two positions holding the same id are one.
pub proof fn lemma_user_id_at_one_index(s: Seq<UserView>, a: int, b: int)
    requires
        user_ids_unique(s),
        0 <= a < s.len(),
        0 <= b < s.len(),
        s[a].user_id == s[b].user_id,
    ensures
        a == b,
{
    if a < b {
        assert(s[a].user_id != s[b].user_id);
    } else if b < a {
        assert(s[b].user_id != s[a].user_id);
    }
}

pub open spec fn has_email(s: Seq<UserView>, email: Seq<char>) -> bool {
    exists|i: int| 0 <= i < s.len() && s[i].email == email
}

pub open spec fn email_index(s: Seq<UserView>, email: Seq<char>) -> int {
    choose|i: int| 0 <= i < s.len() && s[i].email == email
}

/// The user a case-sensitive exact email lookup returns.
pub open spec fn find_by_email(s: Seq<UserView>, email: Seq<char>) -> Option<UserView> {
    if has_email(s, email) {
        Some(s[email_index(s, email)])
    } else {
        None
    }
}

pub open spec fn has_user_id(s: Seq<UserView>, user_id: u64) -> bool {
    exists|i: int| 0 <= i < s.len() && s[i].user_id == user_id
}

pub open spec fn user_id_index(s: Seq<UserView>, user_id: u64) -> int {
    choose|i: int| 0 <= i < s.len() && s[i].user_id == user_id
}

/// The user an id lookup returns.
pub open spec fn find_by_id(s: Seq<UserView>, user_id: u64) -> Option<UserView> {
    if has_user_id(s, user_id) {
        Some(s[user_id_index(s, user_id)])
    } else {
        None
    }
}

/// The users table, with the id and clock state the server assigns from.
pub struct UserStore {
    pub rows: Vec<User>,
    pub next_id: u64,
    pub last_time: i64,
}

impl View for UserStore {
    type V = Seq<UserView>;

    open spec fn view(&self) -> Seq<UserView> {
        self.rows@.map_values(|u: User| u@)
    }
}

impl UserStore {
    /// Well-formedness: unique ids and emails, ids below the id counter,
    /// creation times bounded by the last assigned time.
    pub open spec fn wf(&self) -> bool {
        &&& emails_unique(self@)
        &&& user_ids_unique(self@)
        &&& forall|i: int| 0 <= i < self@.len() ==> (#[trigger] self@[i]).user_id < self.next_id
        &&& forall|i: int| 0 <= i < self@.len() ==> (#[trigger] self@[i]).created_at <= self.last_time
    }

    pub fn new() -> (s: Self)
        ensures
            s@ == Seq::<UserView>::empty(),
            s.next_id == 0,
            s.last_time == i64::MIN,
            s.wf(),
    {
        let s = UserStore { rows: Vec::new(), next_id: 0, last_time: i64::MIN };
        proof {
            assert(s@ =~= Seq::<UserView>::empty());
        }
        s
    }

    /// The user with the given id, if any.
    pub fn get_user(&self, user_id: u64) -> (r: Option<User>)
        requires
            self.wf(),
        ensures
            (match r {
                Some(u) => find_by_id(self@, user_id) == Some(u@),
                None => find_by_id(self@, user_id) is None,
            }),
    {
        let ghost vs = self@;
        let n = self.rows.len();
        let mut i: usize = 0;
        while i < n
            invariant
                n == self.rows.len(),
                vs == self@,
                n == vs.len(),
                user_ids_unique(vs),
                0 <= i <= n,
                forall|j: int| 0 <= j < i ==> (#[trigger] vs[j]).user_id != user_id,
            decreases n - i,
        {
            proof {
                assert(vs[i as int] == self.rows@[i as int]@);
            }
            if self.rows[i].user_id == user_id {
                let copy = self.rows[i].clone();
                proof {
                    assert(vs[i as int].user_id == user_id);
                    assert(has_user_id(vs, user_id));
                    let j = user_id_index(vs, user_id);
                    assert(0 <= j < vs.len() && vs[j].user_id == user_id);
                    lemma_user_id_at_one_index(vs, j, i as int);
                }
                return Some(copy);
            }
            i = i + 1;
        }
        None
    }

    /// The user with the given email, if any; the lookup is exact and
    /// case-sensitive.
    pub fn get_user_by_email(&self, email: &str) -> (r: Option<User>)
        requires
            self.wf(),
        ensures
            (match r {
                Some(u) => find_by_email(self@, email@) == Some(u@),
                None => find_by_email(self@, email@) is None,
            }),
    {
        let ghost vs = self@;
        let n = self.rows.len();
        let mut i: usize = 0;
        while i < n
            invariant
                n == self.rows.len(),
                vs == self@,
                n == vs.len(),
                emails_unique(vs),
                0 <= i <= n,
                forall|j: int| 0 <= j < i ==> (#[trigger] vs[j]).email != email@,
            decreases n - i,
        {
            proof {
                assert(vs[i as int] == self.rows@[i as int]@);
            }
            if str_eq(self.rows[i].email.as_str(), email) {
                let copy = self.rows[i].clone();
                proof {
                    assert(vs[i as int].email == email@);
                    assert(has_email(vs, email@));
                    let j = email_index(vs, email@);
                    assert(0 <= j < vs.len() && vs[j].email == email@);
                    lemma_email_at_one_index(vs, j, i as int);
                }
                return Some(copy);
            }
            i = i + 1;
        }
        None
    }

    /// Sign a user up: hash the password, never storing it, and insert
    /// the record under a fresh id — unless the email is already taken,
    /// which leaves the store unchanged.
    pub fn create_user(&mut self, email: &str, password: &str, now: i64) -> (r: Result<
        User,
        CreateUserError,
    >)
        requires
            old(self).wf(),
            old(self).next_id < u64::MAX,
            password@.len() <= HASH_MAX_PASSWORD_CHARS,
        ensures
            final(self).wf(),
            (match r {
                Ok(u) => {
                    &&& !has_email(old(self)@, email@)
                    &&& u@.email == email@
                    &&& verify_ok(password@, u@.password_hash)
                    &&& (u@.created_at == if now > old(self).last_time {
                        now
                    } else {
                        old(self).last_time
                    })
                    &&& forall|i: int| 0 <= i < old(self)@.len()
                        ==> (#[trigger] old(self)@[i]).user_id != u@.user_id
                    &&& final(self)@ == old(self)@.push(u@)
                },
                Err(e) => {
                    &&& e == CreateUserError::EmailTaken
                    &&& has_email(old(self)@, email@)
                    &&& final(self)@ == old(self)@
                },
            }),
    {
        let ghost vs = self@;
        if let Some(_existing) = self.get_user_by_email(email) {
            return Err(CreateUserError::EmailTaken);
        }
        let hash = hash_password(password);
        let stamp = if now > self.last_time {
            now
        } else {
            self.last_time
        };
        let u = User {
            user_id: self.next_id,
            email: email.to_owned(),
            password: hash,
            created_at: stamp,
        };
        let copy = u.clone();
        self.rows.push(u);
        self.next_id = self.next_id + 1;
        self.last_time = stamp;
        proof {
            assert(self@ =~= vs.push(copy@));
        }
        Ok(copy)
    }

    /// Authenticate a submitted email and password pair.  An unknown
    /// email and a failed password check end the same way, `None`,
    /// so the outcome never tells which of the two was wrong.
    pub fn authenticate(&self, creds: &Credentials) -> (r: Option<User>)
        requires
            self.wf(),
        ensures
            (match r {
                Some(u) => spec_authenticate(self@, creds.email@, creds.password@) == Some(u@),
                None => spec_authenticate(self@, creds.email@, creds.password@) is None,
            }),
    {
        match self.get_user_by_email(creds.email.as_str()) {
            None => None,
            Some(u) => {
                if verify_password(creds.password.as_str(), u.session_auth_hash().as_str()) {
                    Some(u)
                } else {
                    None
                }
            },
        }
    }
}

/// Why the credential store refused a signup.
#[derive(Debug, PartialEq, Eq, Structural)]
pub enum CreateUserError {
    EmailTaken,
}

/// The user that authentication yields: the one the email names, and
/// only if the password verifies against that user's stored hash.
pub open spec fn spec_authenticate(
    s: Seq<UserView>,
    email: Seq<char>,
    password: Seq<char>,
) -> Option<UserView> {
    match find_by_email(s, email) {
        Some(u) => if verify_ok(password, u.password_hash) {
            Some(u)
        } else {
            None
        },
        None => None,
    }
}

/// Signing up establishes a working login: once a user whose stored
/// hash verifies the password stands in the store under a fresh email,
/// authenticating with that email and password yields that user.
pub proof fn lemma_signup_then_login(users: Seq<UserView>, u: UserView, password: Seq<char>)
    requires
        !has_email(users, u.email),
        verify_ok(password, u.password_hash),
    ensures
        spec_authenticate(users.push(u), u.email, password) == Some(u),
{
    let s = users.push(u);
    assert(s[s.len() - 1].email == u.email);
    assert(has_email(s, u.email));
    let j = email_index(s, u.email);
    assert(0 <= j < s.len() && s[j].email == u.email);
    if j < s.len() - 1 {
        assert(users[j].email == u.email);
    }
    assert(s[j] == u);
}

/// A rejected login reveals nothing: an email the store does not know
/// and a password its user's hash does not verify both end in `None`,
/// the same outcome.
pub proof fn lemma_login_rejection_uniform(
    users: Seq<UserView>,
    email: Seq<char>,
    password: Seq<char>,
)
    requires
        (match find_by_email(users, email) {
            Some(u) => !verify_ok(password, u.password_hash),
            None => true,
        }),
    ensures
        spec_authenticate(users, email, password) is None,
{
}

} // verus!
