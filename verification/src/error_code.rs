//! Error codes that drivers hand to the kernel.
use vstd::prelude::*;

verus! {

/// The kernel error codes that the drivers of this library report.
#[derive(Debug, Copy, Clone, PartialEq, Eq, Structural)]
pub enum ErrorCode {
    /// Generic failure condition.
    FAIL,
    /// Underlying system is busy; retry.
    BUSY,
    /// The state requested is already set.
    ALREADY,
    /// The component is powered down.
    OFF,
    /// Reservation required before use.
    RESERVE,
    /// An invalid parameter was passed.
    INVAL,
    /// Memory required not available.
    NOMEM,
    /// Operation is not supported.
    NOSUPPORT,
}

} // verus!
