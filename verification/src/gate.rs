//! The authorization gate: the pass-or-fail filter in front of every
//! protected route, and the landing decision for the index route.

use vstd::prelude::*;
use crate::users::User;

verus! {

/// The outcome of filtering a request to a protected route.
pub enum GateDecision {
    /// The caller is authenticated: dispatch to the handler with the
    /// resolved identity attached.
    Dispatch(User),
    /// Anonymous full-page request: send the caller to the login page.
    RedirectToLogin,
    /// Anonymous partial-page request: answer with an unauthorized
    /// status instead of a redirect.
    Unauthorized,
}

/// Gate a request to a protected route on the outcome of session
/// resolution.  Anonymous callers never reach the handler.
pub fn authorize(resolved: Option<User>, partial_request: bool) -> (d: GateDecision)
    ensures
        (match d {
            GateDecision::Dispatch(u) => resolved == Some(u),
            GateDecision::RedirectToLogin => resolved is None && !partial_request,
            GateDecision::Unauthorized => resolved is None && partial_request,
        }),
{
    match resolved {
        Some(u) => GateDecision::Dispatch(u),
        None => if partial_request {
            GateDecision::Unauthorized
        } else {
            GateDecision::RedirectToLogin
        },
    }
}

/// Where the index route sends a caller.
pub enum Destination {
    TodoList,
    Login,
}

/// The index route redirects an authenticated caller to the todo list
/// and everyone else to the login page.
pub fn handle_index(authenticated: bool) -> (d: Destination)
    ensures
        d == (if authenticated {
            Destination::TodoList
        } else {
            Destination::Login
        }),
{
    if authenticated {
        Destination::TodoList
    } else {
        Destination::Login
    }
}

} // verus!
