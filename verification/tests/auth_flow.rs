//! Signup, login and session behaviour, exercised end to end against
//! the real password hasher and email validator.

use todolist::handlers::{handle_login_post, handle_signup_post, LoginOutcome, SignupError};
use todolist::sessions::{SessionStore, SESSION_TTL_SECS};
use todolist::users::{Credentials, UserStore};

fn creds(email: &str, password: &str) -> Credentials {
    Credentials { email: email.to_string(), password: password.to_string(), next: None }
}

#[test]
fn signup_then_login_succeeds() {
    let mut users = UserStore::new();
    let mut sessions = SessionStore::new();
    let u = handle_signup_post(&mut users, "a@x.com", "Abc12345!", 10).expect("signup");
    assert_eq!(u.email, "a@x.com");
    match handle_login_post(&users, &mut sessions, &creds("a@x.com", "Abc12345!"), 20) {
        LoginOutcome::Success(_token) => {}
        LoginOutcome::Rejected => panic!("login after signup must succeed"),
    }
}

#[test]
fn wrong_password_rejected_like_unknown_email() {
    let mut users = UserStore::new();
    let mut sessions = SessionStore::new();
    handle_signup_post(&mut users, "a@x.com", "Abc12345!", 10).expect("signup");
    let wrong_password = handle_login_post(&users, &mut sessions, &creds("a@x.com", "Abc12345?"), 20);
    let unknown_email = handle_login_post(&users, &mut sessions, &creds("b@x.com", "Abc12345!"), 20);
    assert!(matches!(wrong_password, LoginOutcome::Rejected));
    assert!(matches!(unknown_email, LoginOutcome::Rejected));
    assert_eq!(sessions.sessions.len(), 0);
}

#[test]
fn signup_rejects_bad_email() {
    let mut users = UserStore::new();
    match handle_signup_post(&mut users, "not-an-email", "Abc12345!", 10) {
        Err(SignupError::InvalidEmail) => {}
        _ => panic!("malformed email must be rejected as such"),
    }
    assert_eq!(users.rows.len(), 0);
}

#[test]
fn signup_rejects_empty_password() {
    let mut users = UserStore::new();
    match handle_signup_post(&mut users, "a@x.com", "", 10) {
        Err(SignupError::InvalidPassword) => {}
        _ => panic!("empty password must be rejected as such"),
    }
}

#[test]
fn signup_rejects_taken_email() {
    let mut users = UserStore::new();
    handle_signup_post(&mut users, "a@x.com", "Abc12345!", 10).expect("signup");
    match handle_signup_post(&mut users, "a@x.com", "Other1234!", 20) {
        Err(SignupError::EmailTaken) => {}
        _ => panic!("second signup under one email must be refused"),
    }
    assert_eq!(users.rows.len(), 1);
}

#[test]
fn session_expires_after_inactivity_window() {
    let mut users = UserStore::new();
    let mut sessions = SessionStore::new();
    handle_signup_post(&mut users, "a@x.com", "Abc12345!", 0).expect("signup");
    let token = match handle_login_post(&users, &mut sessions, &creds("a@x.com", "Abc12345!"), 100)
    {
        LoginOutcome::Success(token) => token,
        LoginOutcome::Rejected => panic!("login"),
    };
    let at_deadline = sessions.resolve(token, &users, 100 + SESSION_TTL_SECS);
    assert!(at_deadline.is_none());
}

#[test]
fn sliding_expiry_extends_the_window() {
    let mut users = UserStore::new();
    let mut sessions = SessionStore::new();
    handle_signup_post(&mut users, "a@x.com", "Abc12345!", 0).expect("signup");
    let token = match handle_login_post(&users, &mut sessions, &creds("a@x.com", "Abc12345!"), 100)
    {
        LoginOutcome::Success(token) => token,
        LoginOutcome::Rejected => panic!("login"),
    };
    // Just before the deadline: still valid, and the window slides.
    let just_before = 100 + SESSION_TTL_SECS - 1;
    let resolved = sessions.resolve(token, &users, just_before);
    assert!(resolved.is_some());
    // After the original deadline but within the refreshed window.
    let after_original = 100 + SESSION_TTL_SECS + 50;
    let resolved_again = sessions.resolve(token, &users, after_original);
    assert!(resolved_again.is_some());
    assert_eq!(resolved_again.unwrap().email, "a@x.com");
}

#[test]
fn logout_is_idempotent() {
    let mut users = UserStore::new();
    let mut sessions = SessionStore::new();
    handle_signup_post(&mut users, "a@x.com", "Abc12345!", 0).expect("signup");
    let token = match handle_login_post(&users, &mut sessions, &creds("a@x.com", "Abc12345!"), 100)
    {
        LoginOutcome::Success(token) => token,
        LoginOutcome::Rejected => panic!("login"),
    };
    sessions.logout(token);
    assert!(sessions.resolve(token, &users, 101).is_none());
    sessions.logout(token);
    sessions.logout(9999);
    assert_eq!(sessions.sessions.len(), 0);
}
