//! Verified core of a blogging-platform backend: users, articles, comments,
//! favorites and follow relationships, with the storage contract that keeps
//! their invariants.

pub mod api;
pub mod ascii;
pub mod auth;
pub mod domain;
pub mod errors;
pub mod laws;
pub mod password;
pub mod slug;
pub mod store;
pub mod user;
