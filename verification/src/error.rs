//! What can go wrong while an image is examined.

use vstd::prelude::*;

verus! {

/// Why a registry answer was turned down.
#[derive(Debug, Clone, Copy, PartialEq, Eq, Structural)]
pub enum Cause {
    /// The answer carried this status, which is outside `200..=299`.
    Status(u16),
    /// The status was fine but the body did not have the expected shape.
    Body,
}

/// The failures of a pull, one variant per stage.
#[derive(Debug, Clone, Copy, PartialEq, Eq, Structural)]
pub enum Error {
    /// The token exchange failed.
    Auth(Cause),
    /// The manifest could not be had or understood.
    Manifest(Cause),
    /// The blob request was answered with this non-success status.
    Transport(u16),
    /// The layer is not a well-framed gzip-compressed tar archive.
    Archive,
    /// No layer, or no history entry, satisfies the selection policy.
    NotFound,
}

} // verus!
