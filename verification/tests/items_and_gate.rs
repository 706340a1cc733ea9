//! The shared item list and the authorization gate.

use todolist::gate::{authorize, handle_index, Destination, GateDecision};
use todolist::handlers::handle_create_item;
use todolist::items::ItemStore;
use todolist::users::UserStore;
use todolist::validate::FormError;

#[test]
fn items_list_in_creation_order() {
    let mut items = ItemStore::new();
    items.create_item("one".to_string(), 10);
    items.create_item("two".to_string(), 20);
    let listed = items.get_items();
    assert_eq!(listed.len(), 2);
    assert_eq!(listed[0].content, "one");
    assert_eq!(listed[1].content, "two");
    assert!(listed[0].created_at <= listed[1].created_at);
}

#[test]
fn item_content_is_validated_at_the_boundary() {
    let mut items = ItemStore::new();
    match handle_create_item(&mut items, String::new(), 10) {
        Err(FormError::InvalidContent) => {}
        _ => panic!("empty item content must be rejected"),
    }
    assert!(handle_create_item(&mut items, "fine".to_string(), 10).is_ok());
    assert_eq!(items.get_items().len(), 1);
}

#[test]
fn gate_blocks_anonymous_callers() {
    let mut users = UserStore::new();
    let u = users.create_user("a@x.com", "Abc12345!", 0).expect("signup");

    match authorize(Some(u), false) {
        GateDecision::Dispatch(user) => assert_eq!(user.email, "a@x.com"),
        _ => panic!("an authenticated caller must be dispatched"),
    }
    assert!(matches!(authorize(None, false), GateDecision::RedirectToLogin));
    assert!(matches!(authorize(None, true), GateDecision::Unauthorized));
}

#[test]
fn index_redirects_by_authentication() {
    assert!(matches!(handle_index(true), Destination::TodoList));
    assert!(matches!(handle_index(false), Destination::Login));
}
