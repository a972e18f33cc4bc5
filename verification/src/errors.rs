//! The error taxonomy of the loop: every kind is recoverable at the cycle
//! level; none aborts the process.

use vstd::prelude::*;

verus! {

/// Why a poll cycle failed before it produced an outcome. The kinds are told
/// apart only for logging; each one triggers backoff and a retry.
#[derive(Debug, PartialEq)]
pub enum ProtocolError {
    /// The request itself failed (connection, timeout); carries the
    /// transport's own description.
    Transport { detail: String },
    /// The response came back with a non-success HTTP status.
    BadStatus { status: u16 },
    /// The body was not valid JSON, or matched neither response shape.
    Malformed,
}

/// Why a collaborator call (session issuing, user lookup, relay send) failed.
#[derive(Debug, PartialEq)]
pub enum UpstreamError {
    /// The request itself failed; carries the transport's own description.
    Transport { detail: String },
    /// The response came back with a non-success HTTP status.
    BadStatus { status: u16 },
    /// The body was not valid JSON or not the envelope shape.
    Malformed,
    /// The envelope carried an explicit error payload.
    Api { code: u64, message: String },
    /// The envelope carried neither an error nor the expected payload.
    MissingPayload,
}

/// Why a user lookup did not yield exactly one user.
#[derive(Debug, PartialEq, Eq, Structural)]
pub enum LookupError {
    /// The lookup list was empty: no such user.
    NotFound,
    /// The lookup list held more than one entry: an upstream inconsistency.
    Ambiguous,
}

} // verus!
