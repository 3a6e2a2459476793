//! The ways in which a run can fail.

use vstd::prelude::*;

verus! {

/// Why a run stopped before every tracker was drained.
#[derive(Debug, Clone, Copy, PartialEq, Eq, Structural)]
pub enum SyncError {
    /// The request could not be carried to the remote service.
    Transport,
    /// A header or a field of the request could not be written.
    Protocol,
    /// The sample table could not be read or updated.
    Storage,
}

} // verus!
