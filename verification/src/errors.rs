//! Failure taxonomy of the synchronizer.

use vstd::prelude::*;

verus! {

/// One recoverable or fatal failure of a synchronizer operation.
///
/// - `IoFailure`: a file could not be read or written.
/// - `PermissionDenied`: an I/O failure that needs elevated privilege
///   to resolve; surfaced distinctly so the operator can act on it.
/// - `NetworkFailure`: connecting to or sending to one peer failed;
///   never fatal to propagation as a whole.
/// - `ProtocolFailure`: a message body could not be decoded.
/// - `PathSafetyViolation`: a relative path would escape the sync root
///   (or is not in canonical slash-separated relative form).
#[derive(Debug, Clone)]
pub enum SyncError {
    IoFailure,
    PermissionDenied,
    NetworkFailure,
    ProtocolFailure,
    PathSafetyViolation,
}

impl SyncError {
    /// Short description of the failure, for operator-facing logs.
    pub fn describe(&self) -> (r: &'static str)
        ensures
            r@ == self.spec_describe(),
    {
        match self {
            SyncError::IoFailure => "file could not be read or written",
            SyncError::PermissionDenied => "permission denied; elevated privilege required",
            SyncError::NetworkFailure => "peer could not be reached",
            SyncError::ProtocolFailure => "message body could not be decoded",
            SyncError::PathSafetyViolation => "path would escape the sync root",
        }
    }

    /// What `describe` returns for each failure kind.
    pub open spec fn spec_describe(&self) -> Seq<char> {
        match self {
            SyncError::IoFailure => "file could not be read or written"@,
            SyncError::PermissionDenied => "permission denied; elevated privilege required"@,
            SyncError::NetworkFailure => "peer could not be reached"@,
            SyncError::ProtocolFailure => "message body could not be decoded"@,
            SyncError::PathSafetyViolation => "path would escape the sync root"@,
        }
    }
}

} // verus!
