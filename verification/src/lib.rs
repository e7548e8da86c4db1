//! Core logic of a portal watcher: an authenticated single-sign-on session
//! manager, a poller that recovers once from session expiry, a differ that
//! finds newly published entries, and a fanout that plans delivery over
//! independent notification backends.

pub mod client;
pub mod data;
pub mod login;
pub mod notice_adapter;
pub mod text;
