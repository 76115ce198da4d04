//! Logic of the PMP power-state reporting driver: each report entry is a
//! generic power domain whose power-on and power-off requests are forwarded
//! to the PMP firmware through a `DevPwrBridge`. A power-state change asks
//! the bridge whether it is ready, sends what `set_state_request` gives, and
//! reports what `set_state_outcome` makes of a successful send; a failed
//! send stops the driver.
use vstd::prelude::*;
use crate::error::PmpError;

verus! {

/// Status returned to the power-domain core when the bridge is not ready.
/// It is the plain value 1: no errno has been chosen for this case yet.
pub const SET_STATE_NOT_READY: i32 = 1;

/// Status returned to the power-domain core when the request was sent.
pub const SET_STATE_DONE: i32 = 0;

/// Largest number of arguments of a device-tree phandle reference.
pub const MAX_PHANDLE_ARGS: usize = 16;

/// Power-domain flag: keep the domain on while a device in it may wake the system.
pub const GENPD_FLAG_ACTIVE_WAKEUP: u32 = 8;

/// The status of a power-state change, given what was sent: `None` when the
/// bridge was not ready and nothing was sent, `Some(Ok(()))` when the request
/// went out. A failed send has no status: the driver stops there.
pub open spec fn spec_set_state_outcome(sent: Option<Result<(), PmpError>>) -> i32 {
    match sent {
        None => SET_STATE_NOT_READY,
        Some(_) => SET_STATE_DONE,
    }
}

/// The status of a power-state change, given what was sent; a failed send is
/// not accepted.
pub fn set_state_outcome(sent: Option<Result<(), PmpError>>) -> (r: i32)
    requires
        !(sent matches Some(Err(_))),
    ensures
        r == spec_set_state_outcome(sent),
{
    match sent {
        None => SET_STATE_NOT_READY,
        Some(_) => SET_STATE_DONE,
    }
}

/// The request to send for a power-state change of report entry `id`, once
/// the bridge has said whether it is ready: none when it is not, else exactly
/// one, for device `id` and state `enable`.
pub fn set_state_request(ready: bool, id: u32, enable: bool) -> (r: Option<(u64, bool)>)
    ensures
        r == (if ready { Some((id as u64, enable)) } else { None::<(u64, bool)> }),
{
    if ready {
        Some((id as u64, enable))
    } else {
        None
    }
}

/// The flags of a report entry's power domain: `flags`, with
/// `GENPD_FLAG_ACTIVE_WAKEUP` added for an always-on entry.
pub fn genpd_flags(flags: u32, always_on: bool) -> (r: u32)
    ensures
        r == (if always_on { flags | GENPD_FLAG_ACTIVE_WAKEUP } else { flags }),
{
    if always_on {
        flags | GENPD_FLAG_ACTIVE_WAKEUP
    } else {
        flags
    }
}

/// The argument array and argument count of a parent power-domain reference
/// with arguments `args`: the arguments in order, then zeros.
pub fn pack_phandle_args(args: &[u64]) -> (r: ([u32; 16], i32))
    requires
        args@.len() <= MAX_PHANDLE_ARGS,
        forall|i: int| 0 <= i < args@.len() ==> #[trigger] args@[i] <= u32::MAX,
    ensures
        r.1 == args@.len(),
        forall|i: int| 0 <= i < 16 ==> #[trigger] r.0@[i] == (if i < args@.len() { args@[i] as u32 } else { 0u32 }),
{
    let mut out: [u32; 16] = [0u32; 16];
    let n = args.len();
    let mut k: usize = 0;
    while k < n
        invariant
            n == args@.len(),
            n <= 16,
            k <= n,
            forall|i: int| 0 <= i < args@.len() ==> #[trigger] args@[i] <= u32::MAX,
            out@.len() == 16,
            forall|i: int| 0 <= i < 16 ==> #[trigger] out@[i] == (if i < k { args@[i] as u32 } else { 0u32 }),
        decreases n - k,
    {
        out[k] = args[k] as u32;
        k = k + 1;
    }
    (out, n as i32)
}

/// `-ENOENT`: the lookup of a parent power-domain reference ran past the last one.
pub const ENOENT_ERRNO: i32 = -2;

/// What to do with the outcome of looking up a parent power-domain reference:
/// on `-ENOENT` stop (`Ok(None)`), on any other failure give up with it, and
/// on arguments `args` add the entry to that parent with `args` packed.
pub fn parent_domain_step(lookup: Result<&[u64], PmpError>) -> (r: Result<Option<([u32; 16], i32)>, PmpError>)
    requires
        lookup matches Ok(args) ==> args@.len() <= MAX_PHANDLE_ARGS
            && forall|i: int| 0 <= i < args@.len() ==> #[trigger] args@[i] <= u32::MAX,
    ensures
        match lookup {
            Err(e) => if e == PmpError::Errno(ENOENT_ERRNO) {
                r == Ok::<Option<([u32; 16], i32)>, PmpError>(None)
            } else {
                r == Err::<Option<([u32; 16], i32)>, PmpError>(e)
            },
            Ok(args) => r matches Ok(Some(packed)) && packed.1 == args@.len() && forall|i: int|
                0 <= i < 16 ==> #[trigger] packed.0@[i] == (if i < args@.len() { args@[i] as u32 } else { 0u32 }),
        },
{
    match lookup {
        Err(e) => {
            if e == PmpError::Errno(ENOENT_ERRNO) {
                Ok(None)
            } else {
                Err(e)
            }
        },
        Ok(args) => Ok(Some(pack_phandle_args(args))),
    }
}

} // verus!
