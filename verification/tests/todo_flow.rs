//! Owner-scoped to-do behaviour: ordering, toggling, cross-user
//! isolation, and the end-to-end signup-to-delete scenario.

use todolist::handlers::{
    handle_create_todo, handle_login_post, handle_signup_post, handle_toggle_todo,
    handle_update_todo, LoginOutcome,
};
use todolist::todos::TodoStore;
use todolist::users::UserStore;
use todolist::sessions::SessionStore;
use todolist::users::Credentials;
use todolist::validate::FormError;

#[test]
fn listing_keeps_creation_order() {
    let mut todos = TodoStore::new();
    let owner = 7;
    let a = todos.create_todo(owner, "first".to_string(), 10);
    let b = todos.create_todo(owner, "second".to_string(), 20);
    let c = todos.create_todo(owner, "third".to_string(), 30);
    let listed = todos.get_todos(owner);
    assert_eq!(listed.len(), 3);
    assert_eq!(listed[0].content, "first");
    assert_eq!(listed[1].content, "second");
    assert_eq!(listed[2].content, "third");
    assert!(listed[0].created_at <= listed[1].created_at);
    assert!(listed[1].created_at <= listed[2].created_at);
    assert_ne!(a.todo_id, b.todo_id);
    assert_ne!(b.todo_id, c.todo_id);
}

#[test]
fn creation_time_never_runs_backwards() {
    let mut todos = TodoStore::new();
    let owner = 7;
    todos.create_todo(owner, "first".to_string(), 50);
    // The caller's clock stepped back; the stored order must not.
    todos.create_todo(owner, "second".to_string(), 40);
    let listed = todos.get_todos(owner);
    assert_eq!(listed.len(), 2);
    assert!(listed[0].created_at <= listed[1].created_at);
    assert_eq!(listed[0].content, "first");
    assert_eq!(listed[1].content, "second");
}

#[test]
fn toggle_twice_restores_the_flag() {
    let mut todos = TodoStore::new();
    let owner = 7;
    let t = todos.create_todo(owner, "buy milk".to_string(), 10);
    assert!(!t.done);
    assert!(todos.toggle_todo_by_id(owner, t.todo_id));
    assert!(todos.get_todo_by_id(owner, t.todo_id).unwrap().done);
    assert!(todos.toggle_todo_by_id(owner, t.todo_id));
    assert!(!todos.get_todo_by_id(owner, t.todo_id).unwrap().done);
}

#[test]
fn other_users_cannot_reach_a_row() {
    let mut todos = TodoStore::new();
    let owner = 1;
    let intruder = 2;
    let t = todos.create_todo(owner, "private".to_string(), 10);
    assert!(todos.get_todo_by_id(intruder, t.todo_id).is_none());
    assert!(!todos.toggle_todo_by_id(intruder, t.todo_id));
    assert!(!todos.update_todo_by_id(intruder, t.todo_id, "defaced".to_string()));
    assert!(!todos.delete_todo_by_id(intruder, t.todo_id));
    let row = todos.get_todo_by_id(owner, t.todo_id).expect("row must survive");
    assert_eq!(row.content, "private");
    assert!(!row.done);
    assert_eq!(todos.get_todos(owner).len(), 1);
    assert_eq!(todos.get_todos(intruder).len(), 0);
}

#[test]
fn update_rewrites_only_the_addressed_row() {
    let mut todos = TodoStore::new();
    let owner = 1;
    let a = todos.create_todo(owner, "one".to_string(), 10);
    let b = todos.create_todo(owner, "two".to_string(), 20);
    let updated = handle_update_todo(&mut todos, owner, b.todo_id, "two, edited".to_string())
        .expect("valid content");
    assert_eq!(updated.unwrap().content, "two, edited");
    assert_eq!(todos.get_todo_by_id(owner, a.todo_id).unwrap().content, "one");
}

#[test]
fn update_of_a_missing_row_reads_back_absent() {
    let mut todos = TodoStore::new();
    let owner = 1;
    let updated = handle_update_todo(&mut todos, owner, 99, "anything".to_string())
        .expect("valid content");
    assert!(updated.is_none());
}

#[test]
fn oversized_content_is_rejected() {
    let mut todos = TodoStore::new();
    let owner = 1;
    let too_long = "x".repeat(1001);
    match handle_create_todo(&mut todos, owner, too_long, 10) {
        Err(FormError::InvalidContent) => {}
        _ => panic!("oversized content must be rejected"),
    }
    match handle_create_todo(&mut todos, owner, String::new(), 10) {
        Err(FormError::InvalidContent) => {}
        _ => panic!("empty content must be rejected"),
    }
    assert_eq!(todos.get_todos(owner).len(), 0);
    let just_fits = "x".repeat(1000);
    assert!(handle_create_todo(&mut todos, owner, just_fits, 10).is_ok());
}

#[test]
fn toggle_through_handler_reads_back_the_row() {
    let mut todos = TodoStore::new();
    let owner = 1;
    let t = todos.create_todo(owner, "task".to_string(), 10);
    let toggled = handle_toggle_todo(&mut todos, owner, t.todo_id).expect("row exists");
    assert!(toggled.done);
    assert_eq!(toggled.content, "task");
    assert!(handle_toggle_todo(&mut todos, owner, 999).is_none());
}

#[test]
fn end_to_end_signup_login_create_toggle_delete() {
    let mut users = UserStore::new();
    let mut sessions = SessionStore::new();
    let mut todos = TodoStore::new();

    // Signup, then login with the same credentials.
    handle_signup_post(&mut users, "a@x.com", "Abc12345!", 0).expect("signup");
    let creds = Credentials {
        email: "a@x.com".to_string(),
        password: "Abc12345!".to_string(),
        next: None,
    };
    let token = match handle_login_post(&users, &mut sessions, &creds, 5) {
        LoginOutcome::Success(token) => token,
        LoginOutcome::Rejected => panic!("login must succeed"),
    };

    // The session resolves to the signed-up user.
    let user = sessions.resolve(token, &users, 6).expect("session must resolve");

    // Create a todo; the list holds one open item.
    let t = handle_create_todo(&mut todos, user.user_id, "buy milk".to_string(), 7)
        .expect("valid content");
    let listed = todos.get_todos(user.user_id);
    assert_eq!(listed.len(), 1);
    assert_eq!(listed[0].content, "buy milk");
    assert!(!listed[0].done);

    // Toggle it done.
    let toggled = handle_toggle_todo(&mut todos, user.user_id, t.todo_id).expect("row exists");
    assert!(toggled.done);

    // Delete it; the list is empty again.
    assert!(todos.delete_todo_by_id(user.user_id, t.todo_id));
    assert_eq!(todos.get_todos(user.user_id).len(), 0);
}
