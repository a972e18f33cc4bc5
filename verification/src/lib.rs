//! A long-poll relay bot library: interprets poll responses from a remote
//! notification endpoint, decides session refreshes and backoff, composes the
//! chat messages to relay, and keeps the session record that survives restarts.

use vstd::prelude::*;

pub mod backoff;
pub mod config;
pub mod dispatch;
pub mod envelope;
pub mod errors;
pub mod jsontext;
pub mod mask_secret;
pub mod numtext;
pub mod parse;
pub mod protocol;
pub mod session;
pub mod store;
pub mod text;
pub mod worker;
