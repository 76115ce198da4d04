//! The interface between the report-entry driver and the PMP driver.
use vstd::prelude::*;
use crate::error::PmpError;

verus! {

/// Allows report-entry drivers to send power on/off messages through RTKit.
pub trait DevPwrBridge: Send + Sync {
    /// Sends a device power state request.
    fn send_devpwr(&self, dev: u64, enable: bool) -> Result<(), PmpError>;

    /// Waits for the bridge to be ready to accept requests.
    fn ready(&self) -> bool;
}

} // verus!
