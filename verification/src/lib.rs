//! Core of a session-backed to-do list service: form validation,
//! password-based authentication, sliding-expiry sessions, and
//! owner-scoped storage of to-do entries.

pub mod gate;
pub mod handlers;
pub mod items;
pub mod password;
pub mod sessions;
pub mod text;
pub mod todos;
pub mod users;
pub mod validate;
