//! Core of a desktop assistant client: an encrypted-at-rest secret store for
//! an API credential and a preferred-model choice, and a streaming session
//! that turns an upstream token stream into a terminating event sequence.
//!
//! The store never performs file or environment I/O itself: callers hand it
//! the environment override and the stored blob as plain values and write the
//! blob it returns. Encryption, hashing and base64 are done by outside crates
//! behind small trusted wrappers; everything around them is verified.

use vstd::prelude::*;

pub mod config;
pub mod crypto;
pub mod error;
pub mod record;
pub mod stream;

verus! {

/// Identity of one model offered by the remote catalog.
#[derive(Clone)]
pub struct ModelInfo {
    pub id: String,
    pub display_name: String,
    pub organization: String,
}

/// An error as reported across the UI boundary.
pub struct ApiError {
    pub message: String,
    pub code: Option<String>,
}

/// Payload of one content event delivered to the UI boundary.
pub struct ChatStreamPayload {
    pub content: String,
}

/// Payload of the terminal error event delivered to the UI boundary.
pub struct ChatErrorPayload {
    pub error: String,
}

} // verus!
