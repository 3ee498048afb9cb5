//! The error taxonomy of the library.

use vstd::prelude::*;

verus! {

/// Every failure a caller can see, by kind.
///
/// Failures during connect and allocate abort the operation and surface as
/// one of these; failures inside background forwarding work are contained
/// by the runtime around the library and never reach a caller.
#[derive(Debug, Clone, PartialEq, Eq)]
pub enum DadbodError {
    /// An unknown connection name, an unknown tunnel target, or a
    /// descriptor the library cannot serve.
    ConfigError(String),
    /// An SSH or database dial or authentication failure.
    ConnectError(String),
    /// No free port is left in the fixed tunnel port range.
    ResourceExhausted,
    /// The server's host key is not trusted by the known-hosts store.
    VerificationFailed,
    /// A query failed; the engine's own message when it gave one.
    DatabaseError(Option<String>),
    /// A trust-store or workspace access failure.
    IoError(String),
}

} // verus!
