//! Boundary validation of form fields: to-do content length and the
//! password strength policy of the hardened signup variant.

use vstd::prelude::*;
use vstd::string::StrSliceExecFns;

verus! {

/// A form field the boundary turned away; the originating form is
/// re-rendered, never a server fault.
#[derive(Debug, PartialEq, Eq, Structural)]
pub enum FormError {
    InvalidEmail,
    InvalidPassword,
    InvalidContent,
}

/// Longest accepted content or password, counted in characters.
pub const FIELD_MAX_CHARS: usize = 1000;

/// Whether the validator crate accepts the string as an email address.
/// The check reads the characters alone.
pub uninterp spec fn email_ok(s: Seq<char>) -> bool;

/// Relies on the validator crate's email check, the one its
/// `#[validate(email)]` rule applies.
#[verifier::external_body]
pub(crate) fn check_email(email: &str) -> (r: bool)
    ensures
        r == email_ok(email@),
{
    validator::ValidateEmail::validate_email(&email)
}

/// A signup password must be 1 to 1000 characters.
pub open spec fn password_len_ok(s: Seq<char>) -> bool {
    1 <= s.len() <= FIELD_MAX_CHARS
}

/// What the signup form accepts: a well-formed email and a password of
/// 1 to 1000 characters.
pub open spec fn signup_ok(email: Seq<char>, password: Seq<char>) -> bool {
    email_ok(email) && password_len_ok(password)
}

/// What the login form accepts: a well-formed email and a password that
/// is present at all; the real check is the credential match.
pub open spec fn login_ok(email: Seq<char>, password: Seq<char>) -> bool {
    email_ok(email) && password.len() >= 1
}

/// Validate the signup form: the email first, then the password length.
pub fn validate_signup(email: &str, password: &str) -> (r: Result<(), FormError>)
    ensures
        r is Ok <==> signup_ok(email@, password@),
        r == Err::<(), FormError>(FormError::InvalidEmail) <==> !email_ok(email@),
        r == Err::<(), FormError>(FormError::InvalidPassword) <==> email_ok(email@)
            && !password_len_ok(password@),
{
    if !check_email(email) {
        return Err(FormError::InvalidEmail);
    }
    let n = password.unicode_len();
    if 1 <= n && n <= FIELD_MAX_CHARS {
        Ok(())
    } else {
        Err(FormError::InvalidPassword)
    }
}

/// Validate the login form: the email must be well-formed and the
/// password present; nothing more is decided here.
pub fn validate_login(email: &str, password: &str) -> (r: Result<(), FormError>)
    ensures
        r is Ok <==> login_ok(email@, password@),
        r == Err::<(), FormError>(FormError::InvalidEmail) <==> !email_ok(email@),
        r == Err::<(), FormError>(FormError::InvalidPassword) <==> email_ok(email@)
            && password@.len() == 0,
{
    if !check_email(email) {
        return Err(FormError::InvalidEmail);
    }
    if password.unicode_len() >= 1 {
        Ok(())
    } else {
        Err(FormError::InvalidPassword)
    }
}

/// To-do content must be 1 to 1000 characters.
pub open spec fn content_len_ok(s: Seq<char>) -> bool {
    1 <= s.len() <= FIELD_MAX_CHARS
}

/// True exactly when `content` is 1 to 1000 characters long.
pub fn validate_todo_content(content: &str) -> (r: bool)
    ensures
        r == content_len_ok(content@),
{
    let n = content.unicode_len();
    1 <= n && n <= FIELD_MAX_CHARS
}

pub open spec fn spec_is_digit(c: char) -> bool {
    48 <= c as u32 <= 57
}

pub open spec fn spec_is_uppercase(c: char) -> bool {
    65 <= c as u32 <= 90
}

pub open spec fn spec_is_lowercase(c: char) -> bool {
    97 <= c as u32 <= 122
}

/// A printable ASCII character that is neither a letter nor a digit.
pub open spec fn spec_is_special(c: char) -> bool {
    33 <= c as u32 <= 126 && !spec_is_digit(c) && !spec_is_uppercase(c) && !spec_is_lowercase(c)
}

/// The hardened password policy: at least eight characters, with a digit,
/// an uppercase letter, a lowercase letter and a special character.
pub open spec fn password_policy_ok(s: Seq<char>) -> bool {
    &&& s.len() >= 8
    &&& exists|i: int| 0 <= i < s.len() && spec_is_digit(s[i])
    &&& exists|i: int| 0 <= i < s.len() && spec_is_uppercase(s[i])
    &&& exists|i: int| 0 <= i < s.len() && spec_is_lowercase(s[i])
    &&& exists|i: int| 0 <= i < s.len() && spec_is_special(s[i])
}

/// Validate the signup form in its hardened variant: on top of
/// [`validate_signup`], the password must satisfy the strength policy.
pub fn validate_signup_hardened(email: &str, password: &str) -> (r: Result<(), FormError>)
    ensures
        r is Ok <==> signup_ok(email@, password@) && password_policy_ok(password@),
        r == Err::<(), FormError>(FormError::InvalidEmail) <==> !email_ok(email@),
        r == Err::<(), FormError>(FormError::InvalidPassword) <==> email_ok(email@) && !(
        password_len_ok(password@) && password_policy_ok(password@)),
{
    match validate_signup(email, password) {
        Err(e) => Err(e),
        Ok(()) => if password_meets_policy(password) {
            Ok(())
        } else {
            Err(FormError::InvalidPassword)
        },
    }
}

/// True exactly when `password` satisfies the hardened policy.
pub fn password_meets_policy(password: &str) -> (r: bool)
    ensures
        r == password_policy_ok(password@),
{
    let n = password.unicode_len();
    let mut has_digit = false;
    let mut has_upper = false;
    let mut has_lower = false;
    let mut has_special = false;
    let mut i: usize = 0;
    while i < n
        invariant
            n == password@.len(),
            0 <= i <= n,
            has_digit == exists|j: int| 0 <= j < i && spec_is_digit(password@[j]),
            has_upper == exists|j: int| 0 <= j < i && spec_is_uppercase(password@[j]),
            has_lower == exists|j: int| 0 <= j < i && spec_is_lowercase(password@[j]),
            has_special == exists|j: int| 0 <= j < i && spec_is_special(password@[j]),
        decreases n - i,
    {
        let c = password.get_char(i);
        let code = c as u32;
        if 48 <= code && code <= 57 {
            has_digit = true;
        } else if 65 <= code && code <= 90 {
            has_upper = true;
        } else if 97 <= code && code <= 122 {
            has_lower = true;
        } else if 33 <= code && code <= 126 {
            has_special = true;
        }
        i = i + 1;
    }
    n >= 8 && has_digit && has_upper && has_lower && has_special
}

} // verus!
