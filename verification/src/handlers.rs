//! The decision core of each request handler: boundary validation and
//! the store operation it guards.  I/O, rendering and routing stay with
//! the caller, which hands in plain values and takes plain values back.

use vstd::prelude::*;
use crate::items::{Item, ItemStore};
use crate::sessions::{has_token, SessionStore, SessionView, SESSION_TTL_SECS};
use crate::todos::{has_row, rewritten, row_matches, toggled, Todo, TodoStore};
use crate::users::{
    has_email, spec_authenticate, CreateUserError, Credentials, User, UserStore,
};
use crate::validate::{
    content_len_ok, email_ok, password_len_ok, signup_ok, validate_signup, validate_todo_content,
    FormError,
};

verus! {

/// Why a signup was turned away.
#[derive(Debug, PartialEq, Eq, Structural)]
pub enum SignupError {
    InvalidEmail,
    InvalidPassword,
    EmailTaken,
}

/// How a login attempt ended: a fresh session token, or a uniform
/// rejection that never tells email and password apart.
#[derive(Debug, PartialEq, Eq, Structural)]
pub enum LoginOutcome {
    Success(u64),
    Rejected,
}

/// Sign a user up: the form is validated at this boundary, then the
/// credential store inserts the record with a hashed password; a taken
/// email is refused there.
pub fn handle_signup_post(
    users: &mut UserStore,
    email: &str,
    password: &str,
    now: i64,
) -> (r: Result<User, SignupError>)
    requires
        old(users).wf(),
        old(users).next_id < u64::MAX,
    ensures
        final(users).wf(),
        (match r {
            Ok(u) => {
                &&& signup_ok(email@, password@)
                &&& !has_email(old(users)@, email@)
                &&& u@.email == email@
                &&& crate::password::verify_ok(password@, u@.password_hash)
                &&& final(users)@ == old(users)@.push(u@)
            },
            Err(SignupError::InvalidEmail) => !email_ok(email@) && final(users)@ == old(users)@,
            Err(SignupError::InvalidPassword) => email_ok(email@) && !password_len_ok(password@)
                && final(users)@ == old(users)@,
            Err(SignupError::EmailTaken) => signup_ok(email@, password@) && has_email(
                old(users)@,
                email@,
            ) && final(users)@ == old(users)@,
        }),
{
    match validate_signup(email, password) {
        Err(FormError::InvalidEmail) => Err(SignupError::InvalidEmail),
        Err(_) => Err(SignupError::InvalidPassword),
        Ok(()) => match users.create_user(email, password, now) {
            Ok(u) => Ok(u),
            Err(CreateUserError::EmailTaken) => Err(SignupError::EmailTaken),
        },
    }
}

/// Log a user in: authenticate the submitted credentials, and on a
/// match open a session bound to the user's current password hash.  A
/// failed attempt changes nothing and is rejected uniformly.
pub fn handle_login_post(
    users: &UserStore,
    sessions: &mut SessionStore,
    creds: &Credentials,
    now: i64,
) -> (r: LoginOutcome)
    requires
        users.wf(),
        old(sessions).wf(),
        old(sessions).next_token < u64::MAX,
        now <= i64::MAX - SESSION_TTL_SECS,
    ensures
        final(sessions).wf(),
        (match r {
            LoginOutcome::Success(token) => (match spec_authenticate(
                users@,
                creds.email@,
                creds.password@,
            ) {
                Some(u) => {
                    &&& !has_token(old(sessions)@, token)
                    &&& final(sessions)@ == old(sessions)@.push(
                        (SessionView {
                            token: token,
                            user_id: u.user_id,
                            expires_at: (now + SESSION_TTL_SECS) as i64,
                            auth_hash: u.password_hash,
                        }),
                    )
                },
                None => false,
            }),
            LoginOutcome::Rejected => spec_authenticate(users@, creds.email@, creds.password@)
                is None && final(sessions)@ == old(sessions)@,
        }),
{
    match users.authenticate(creds) {
        None => LoginOutcome::Rejected,
        Some(u) => {
            let user_id = u.id();
            let token = sessions.login(user_id, u.session_auth_hash().as_str(), now);
            LoginOutcome::Success(token)
        },
    }
}

/// Create a to-do for the authenticated caller: content is validated at
/// this boundary, then inserted with `done` false.
pub fn handle_create_todo(
    todos: &mut TodoStore,
    user_id: u64,
    content: String,
    now: i64,
) -> (r: Result<Todo, FormError>)
    requires
        old(todos).wf(),
        old(todos).next_id < u64::MAX,
    ensures
        final(todos).wf(),
        (match r {
            Ok(t) => {
                &&& content_len_ok(content@)
                &&& t@.user_id == user_id
                &&& t@.content == content@
                &&& t@.done == false
                &&& forall|i: int| 0 <= i < old(todos)@.len()
                    ==> (#[trigger] old(todos)@[i]).todo_id != t@.todo_id
                &&& final(todos)@ == old(todos)@.push(t@)
            },
            Err(e) => {
                &&& e == FormError::InvalidContent
                &&& !content_len_ok(content@)
                &&& final(todos)@ == old(todos)@
            },
        }),
{
    if !validate_todo_content(content.as_str()) {
        return Err(FormError::InvalidContent);
    }
    Ok(todos.create_todo(user_id, content, now))
}

/// Rewrite a to-do of the authenticated caller: content is validated at
/// this boundary; the updated row is read back, and an id the caller
/// does not own reads back as absent.
pub fn handle_update_todo(
    todos: &mut TodoStore,
    user_id: u64,
    todo_id: u64,
    content: String,
) -> (r: Result<Option<Todo>, FormError>)
    requires
        old(todos).wf(),
    ensures
        final(todos).wf(),
        (match r {
            Ok(found) => {
                &&& content_len_ok(content@)
                &&& final(todos)@ == rewritten(old(todos)@, user_id, todo_id, content@)
                &&& (match found {
                    Some(t) => has_row(old(todos)@, user_id, todo_id) && row_matches(
                        t@,
                        user_id,
                        todo_id,
                    ) && t@.content == content@ && final(todos)@.contains(t@),
                    None => !has_row(old(todos)@, user_id, todo_id),
                })
            },
            Err(e) => {
                &&& e == FormError::InvalidContent
                &&& !content_len_ok(content@)
                &&& final(todos)@ == old(todos)@
            },
        }),
{
    if !validate_todo_content(content.as_str()) {
        return Err(FormError::InvalidContent);
    }
    let ghost before = todos@;
    let hit = todos.update_todo_by_id(user_id, todo_id, content);
    if hit {
        proof {
            let i = choose|i: int| 0 <= i < before.len() && row_matches(before[i], user_id, todo_id);
            assert(row_matches(todos@[i], user_id, todo_id));
            assert(has_row(todos@, user_id, todo_id));
        }
        let read_back = todos.get_todo_by_id(user_id, todo_id);
        proof {
            if read_back is Some {
                let t = read_back->Some_0;
                let j = choose|j: int| 0 <= j < todos@.len() && todos@[j] == t@;
                assert(row_matches(before[j], user_id, todo_id));
            }
        }
        Ok(read_back)
    } else {
        Ok(None)
    }
}

/// Flip the completion flag of a to-do of the authenticated caller and
/// read the row back; an id the caller does not own reads back as
/// absent and nothing is flipped.
pub fn handle_toggle_todo(todos: &mut TodoStore, user_id: u64, todo_id: u64) -> (r: Option<Todo>)
    requires
        old(todos).wf(),
    ensures
        final(todos).wf(),
        final(todos)@ == toggled(old(todos)@, user_id, todo_id),
        (match r {
            Some(t) => has_row(old(todos)@, user_id, todo_id) && row_matches(t@, user_id, todo_id)
                && final(todos)@.contains(t@),
            None => !has_row(old(todos)@, user_id, todo_id),
        }),
{
    let ghost before = todos@;
    let hit = todos.toggle_todo_by_id(user_id, todo_id);
    if hit {
        proof {
            let i = choose|i: int| 0 <= i < before.len() && row_matches(before[i], user_id, todo_id);
            assert(row_matches(todos@[i], user_id, todo_id));
            assert(has_row(todos@, user_id, todo_id));
        }
        todos.get_todo_by_id(user_id, todo_id)
    } else {
        None
    }
}

/// Create a shared item: content is validated at this boundary, then
/// inserted.
pub fn handle_create_item(items: &mut ItemStore, content: String, now: i64) -> (r: Result<
    Item,
    FormError,
>)
    requires
        old(items).wf(),
        old(items).next_id < u64::MAX,
    ensures
        final(items).wf(),
        (match r {
            Ok(t) => {
                &&& content_len_ok(content@)
                &&& t@.content == content@
                &&& final(items)@ == old(items)@.push(t@)
            },
            Err(e) => {
                &&& e == FormError::InvalidContent
                &&& !content_len_ok(content@)
                &&& final(items)@ == old(items)@
            },
        }),
{
    if !validate_todo_content(content.as_str()) {
        return Err(FormError::InvalidContent);
    }
    Ok(items.create_item(content, now))
}

} // verus!
