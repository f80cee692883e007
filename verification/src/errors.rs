//! The error taxonomy of the coordination core.

use vstd::prelude::*;

use crate::types::DomainId;

verus! {

/// Failure of a lock-manager operation: the path is held by a
/// different domain than the caller.
#[derive(Debug)]
pub enum LockError {
    LockConflict { path: String, holder: DomainId },
}

/// Failure of one `route` call. Every variant aborts the route and
/// leaves the message file in the source outbox.
#[derive(Debug)]
pub enum RouteError {
    /// The message file could not be read (it does not exist).
    IoError,
    /// The file does not split into header and body, or the header is
    /// not a well-formed flat key/value document with the required fields.
    MalformedMessage,
    /// The file does not lie in any configured domain's outbox.
    UnknownSource,
    /// The header's `from` field differs from the domain whose outbox
    /// the file was actually found in.
    SpoofedSender { declared: DomainId, actual: DomainId },
    /// The header's `to` field names no configured domain.
    UnknownTarget { target: DomainId },
    /// An artifact listed in the message could not be retrieved from
    /// the source domain or stored to the destination domain.
    ArtifactTransferFailed { name: String },
}

} // verus!
