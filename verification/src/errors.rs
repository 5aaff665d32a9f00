//! Error taxonomy of the bridge.
//!
//! Every precondition of an operation is checked before any mutation; the
//! first failing check aborts the whole operation with no partial state
//! change, and the failure is reported synchronously to the caller.

use vstd::prelude::*;

verus! {

/// Why a bridge or registry operation refused to run.
#[derive(Clone, Copy, Debug, PartialEq, Eq, Structural)]
pub enum BridgeError {
    /// A mint supplied an identifier that is stale (below the watermark) or
    /// already carried by a record.
    IdentifierConflict,
    /// The caller is not the owner of the record it tried to act on.
    NotOwner,
    /// The record is burned; no further transition is defined for it.
    AlreadyBurned,
    /// The operation is not legal for the record's current status.
    InvalidState,
    /// A gateway-only entry point was invoked by a caller that is not the
    /// pinned gateway identity.
    Unauthorized,
    /// An inbound payload did not decode as a transfer message.
    MalformedMessage,
    /// No record carries the given token identifier.
    InvalidTokenId,
}

} // verus!
