//! Failure taxonomy of the control core.

use vstd::prelude::*;

verus! {

/// Every failure the core can report.
///
/// `Timeout` is expected and retryable; `IoError` reports a transport
/// failure; `ProtocolMismatch` means a reply decoded but did not have the
/// shape the request expects; `OutOfRange` is a registry index misuse;
/// `DeviceUnreachable` is the composite failure of a multi-request command
/// whose sub-requests did not all succeed.
#[derive(Clone, Copy, Debug, PartialEq, Eq, Structural)]
pub enum LifxError {
    Timeout,
    IoError,
    ProtocolMismatch,
    OutOfRange,
    DeviceUnreachable,
}

} // verus!
