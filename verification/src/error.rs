//! The failure taxonomy of the core: every error reported to a caller is one
//! kind together with a human-readable cause. Tag-verification failure and
//! wrong-key failure are collapsed into the single `CryptoFailure` kind, so
//! user-facing messages cannot act as a padding or key oracle.

use vstd::prelude::*;

verus! {

/// The kind of a failure.
#[derive(Clone, Copy, PartialEq, Eq, Structural, Debug)]
pub enum ErrorKind {
    /// The platform has no configuration directory.
    ConfigDirectoryUnavailable,
    /// Reading or writing the backing file failed.
    StorageIO,
    /// The decrypted record could not be parsed (or a field was not UTF-8).
    Serialization,
    /// Encryption failed, or the stored blob did not decrypt and authenticate.
    CryptoFailure,
    /// A stream relay was requested without a configured credential.
    PreconditionFailed,
    /// The upstream completion API failed during an active stream.
    UpstreamTransport,
}

/// A failure: its kind, and a human-readable cause for display.
#[derive(Debug)]
pub struct ConfigError {
    pub kind: ErrorKind,
    pub message: String,
}

impl ConfigError {
    pub fn new(kind: ErrorKind, message: String) -> (r: ConfigError)
        ensures
            r.kind == kind,
            r.message@ == message@,
    {
        ConfigError { kind, message }
    }

    pub fn kind(&self) -> (k: ErrorKind)
        ensures
            k == self.kind,
    {
        self.kind
    }

    /// The human-readable cause.
    pub fn message(&self) -> (m: &String)
        ensures
            m@ == self.message@,
    {
        &self.message
    }
}

} // verus!
