//! Decision core of a chat-room relay: which invitations to accept and how to
//! retry them, which messages deserve a reply, and how a room's history turns
//! into the conversation handed to a completion provider.
//!
//! Nothing here performs I/O. The caller owns the session and the provider,
//! carries out the actions this crate asks for and reports back what happened.

pub mod auth;
pub mod backoff;
pub mod context;
pub mod dispatch;
pub mod invite;
pub mod nesting;
pub mod reply;
pub mod room;
pub mod text;
