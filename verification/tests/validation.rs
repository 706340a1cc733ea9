//! Form validation: email syntax, password length and the hardened
//! strength policy, checked on exact inputs.

use todolist::validate::{
    password_meets_policy, validate_login, validate_signup, validate_signup_hardened,
    validate_todo_content, FormError,
};

#[test]
fn email_syntax_decides_signup() {
    assert!(validate_signup("a@x.com", "pw").is_ok());
    assert_eq!(validate_signup("not-an-email", "pw"), Err(FormError::InvalidEmail));
    assert_eq!(validate_signup("", "pw"), Err(FormError::InvalidEmail));
    assert_eq!(validate_signup("a@", "pw"), Err(FormError::InvalidEmail));
}

#[test]
fn signup_password_must_be_one_to_a_thousand_chars() {
    assert_eq!(validate_signup("a@x.com", ""), Err(FormError::InvalidPassword));
    assert!(validate_signup("a@x.com", &"p".repeat(1000)).is_ok());
    assert_eq!(
        validate_signup("a@x.com", &"p".repeat(1001)),
        Err(FormError::InvalidPassword)
    );
}

#[test]
fn login_validation_is_looser() {
    // A password the hardened policy would refuse still passes here.
    assert!(validate_login("a@x.com", "pw").is_ok());
    assert_eq!(validate_login("a@x.com", ""), Err(FormError::InvalidPassword));
    assert_eq!(validate_login("nope", "pw"), Err(FormError::InvalidEmail));
}

#[test]
fn hardened_policy_needs_all_four_classes() {
    assert!(password_meets_policy("Abc12345!"));
    assert!(!password_meets_policy("Ab1!")); // too short
    assert!(!password_meets_policy("abc12345!")); // no uppercase
    assert!(!password_meets_policy("ABC12345!")); // no lowercase
    assert!(!password_meets_policy("Abcdefgh!")); // no digit
    assert!(!password_meets_policy("Abc123456")); // no special
}

#[test]
fn hardened_signup_applies_the_policy() {
    assert!(validate_signup_hardened("a@x.com", "Abc12345!").is_ok());
    assert_eq!(
        validate_signup_hardened("a@x.com", "weakpassword"),
        Err(FormError::InvalidPassword)
    );
    assert_eq!(
        validate_signup_hardened("nope", "Abc12345!"),
        Err(FormError::InvalidEmail)
    );
}

#[test]
fn content_bounds_are_exact() {
    assert!(!validate_todo_content(""));
    assert!(validate_todo_content("x"));
    assert!(validate_todo_content(&"x".repeat(1000)));
    assert!(!validate_todo_content(&"x".repeat(1001)));
}
