use vstd::prelude::*;

verus! {

/// The error taxonomy of the capture pipeline.
///
/// `WouldBlock` is internal to the readiness-driven read protocol and is
/// never surfaced past it; every other variant is fatal to the capture loop.
#[derive(Clone, Copy, Debug, PartialEq, Eq, Structural)]
pub enum CapError {
    /// A bad configuration value, such as an interface name that exceeds
    /// the platform's maximum length.
    ConfigError,
    /// A failed operating-system call, carrying the raw error code.
    OsError(i32),
    /// No data was queued on a non-blocking descriptor; expected, retried.
    WouldBlock,
    /// A captured buffer shorter than the fixed link-layer header.
    TruncatedInput,
    /// The external lease source could not be read.
    LeaseSourceError,
}

} // verus!
