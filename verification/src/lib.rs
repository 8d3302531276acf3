//! Authentication and synchronisation core of a terminal chat client.
//!
//! The crate holds the rules of the client: when a credential counts as
//! expired, how the authorisation flows react to the server's answers, how
//! cached collections are shown and replaced, and how incremental changes are
//! merged into the visible message list.
pub mod app;
pub mod auth;
pub mod callback;
pub mod client;
pub mod clipboard;
pub mod config;
pub mod cursor;
pub mod delta;
pub mod models;
pub mod richtext;
mod secret;
pub mod text;
pub mod urlcode;
