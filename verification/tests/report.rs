use std::sync::Mutex;

use apple_pmp::bridge::DevPwrBridge;
use apple_pmp::error::PmpError;
use apple_pmp::report::{
    genpd_flags, pack_phandle_args, parent_domain_step, set_state_outcome, set_state_request,
    ENOENT_ERRNO, GENPD_FLAG_ACTIVE_WAKEUP,
};

struct MockBridge {
    ready: bool,
    fail: Option<PmpError>,
    sent: Mutex<Vec<(u64, bool)>>,
}

impl DevPwrBridge for MockBridge {
    fn send_devpwr(&self, dev: u64, enable: bool) -> Result<(), PmpError> {
        self.sent.lock().unwrap().push((dev, enable));
        match self.fail {
            Some(e) => Err(e),
            None => Ok(()),
        }
    }

    fn ready(&self) -> bool {
        self.ready
    }
}

fn bridge(ready: bool, fail: Option<PmpError>) -> MockBridge {
    MockBridge { ready, fail, sent: Mutex::new(Vec::new()) }
}

/// One power-state change through `b`, composed from the library's steps;
/// `Err` stands for the stop on a failed send.
fn set_state(b: &dyn DevPwrBridge, id: u32, enable: bool) -> Result<i32, PmpError> {
    let sent = set_state_request(b.ready(), id, enable).map(|(dev, on)| b.send_devpwr(dev, on));
    match sent {
        Some(Err(e)) => Err(e),
        _ => Ok(set_state_outcome(sent)),
    }
}

#[test]
fn request_only_when_ready() {
    assert_eq!(set_state_request(false, 7, true), None);
    assert_eq!(set_state_request(true, 7, true), Some((7, true)));
    assert_eq!(set_state_request(true, 0xffff_ffff, false), Some((0xffff_ffff, false)));
}

#[test]
fn not_ready_sends_nothing() {
    let b = bridge(false, None);
    assert_eq!(set_state(&b, 7, true), Ok(1));
    assert!(b.sent.lock().unwrap().is_empty());
}

#[test]
fn ready_sends_request() {
    let b = bridge(true, None);
    assert_eq!(set_state(&b, 7, true), Ok(0));
    assert_eq!(set_state(&b, 0xffff_ffff, false), Ok(0));
    assert_eq!(*b.sent.lock().unwrap(), vec![(7, true), (0xffff_ffff, false)]);
}

#[test]
fn failed_send_stops_before_a_status() {
    let b = bridge(true, Some(PmpError::Errno(-5)));
    assert_eq!(set_state(&b, 3, false), Err(PmpError::Errno(-5)));
    assert_eq!(*b.sent.lock().unwrap(), vec![(3, false)]);
}

#[test]
fn outcome_table() {
    assert_eq!(set_state_outcome(None), 1);
    assert_eq!(set_state_outcome(Some(Ok(()))), 0);
}

#[test]
fn always_on_sets_active_wakeup() {
    assert_eq!(GENPD_FLAG_ACTIVE_WAKEUP, 1 << 3);
    assert_eq!(genpd_flags(0, true), 8);
    assert_eq!(genpd_flags(0, false), 0);
    assert_eq!(genpd_flags(0x5, true), 0xd);
    assert_eq!(genpd_flags(0x8, true), 0x8);
}

#[test]
fn phandle_args_are_packed_then_zeroed() {
    let (args, count) = pack_phandle_args(&[3, 0xffff_ffff]);
    assert_eq!(count, 2);
    assert_eq!(args[0], 3);
    assert_eq!(args[1], 0xffff_ffff);
    assert!(args[2..].iter().all(|a| *a == 0));
    let (args, count) = pack_phandle_args(&[]);
    assert_eq!(count, 0);
    assert_eq!(args, [0u32; 16]);
    let full: Vec<u64> = (1..=16).collect();
    let (args, count) = pack_phandle_args(&full);
    assert_eq!(count, 16);
    assert_eq!(args[15], 16);
}

#[test]
fn parent_lookup_steps() {
    assert_eq!(parent_domain_step(Err(PmpError::Errno(ENOENT_ERRNO))), Ok(None));
    assert_eq!(parent_domain_step(Err(PmpError::Errno(-22))), Err(PmpError::Errno(-22)));
    let args: [u64; 1] = [4];
    let step = parent_domain_step(Ok(&args[..])).unwrap().unwrap();
    assert_eq!(step.1, 1);
    assert_eq!(step.0[0], 4);
    assert!(step.0[1..].iter().all(|a| *a == 0));
}
