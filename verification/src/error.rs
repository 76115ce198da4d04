//! Errors of the PMP drivers.
use vstd::prelude::*;

verus! {

/// Why an operation of the PMP drivers failed.
#[derive(Clone, Copy, Debug, PartialEq, Eq, Structural)]
pub enum PmpError {
    /// The firmware sent a message the driver does not understand (`EIO`).
    Io,
    /// A computation of the IOMMU initialisation plan left the 64-bit range.
    Overflow,
    /// The kernel refused a request with the given negative errno.
    Errno(i32),
}

} // verus!
