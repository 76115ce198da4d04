use apple_pmp::error::PmpError;
use apple_pmp::message::{configure_message, init1_message, init2_message};
use apple_pmp::protocol::PmpProtocol;

#[test]
fn handshake_runs_to_ready() {
    let mut p = PmpProtocol::new(0xdead_0000);
    assert!(!p.is_ready());
    assert_eq!(p.recv_message(0), Ok(Some(configure_message(0xdead_0000))));
    assert!(!p.is_ready());
    assert_eq!(p.recv_message(0x20 << 44), Ok(Some(init1_message())));
    assert!(!p.is_ready());
    assert_eq!(p.recv_message(0x201 << 44), Ok(Some(init2_message())));
    assert!(!p.is_ready());
    assert_eq!(p.recv_message(0x203 << 44), Ok(None));
    assert!(p.is_ready());
    assert_eq!(p.dma_handle(), 0xdead_0000);
}

#[test]
fn startup_reply_is_configure() {
    let p = PmpProtocol::new(0x8000);
    assert_eq!(p.startup(), 0x1_0000_0000_8000);
}

#[test]
fn payload_bits_do_not_change_the_opcode() {
    let mut p = PmpProtocol::new(0x4000);
    assert_eq!(p.recv_message((0x20 << 44) | 0xabc), Ok(Some(init1_message())));
    assert_eq!(p.recv_message(0x1234), Ok(Some(configure_message(0x4000))));
}

#[test]
fn notification_is_accepted_silently() {
    let mut p = PmpProtocol::new(0x4000);
    assert_eq!(p.recv_message(0x110 << 44), Ok(None));
    assert!(!p.is_ready());
}

#[test]
fn unknown_message_is_refused() {
    let mut p = PmpProtocol::new(0x4000);
    assert_eq!(p.recv_message(0x10 << 44), Err(PmpError::Io));
    assert_eq!(p.recv_message(0x20e << 44), Err(PmpError::Io));
    assert!(!p.is_ready());
    p.recv_message(0x203 << 44).unwrap();
    assert_eq!(p.recv_message(0xfffff << 44), Err(PmpError::Io));
    assert!(p.is_ready());
}

#[test]
fn ready_stays_ready() {
    let mut p = PmpProtocol::new(0);
    p.recv_message(0x203 << 44).unwrap();
    p.recv_message(0).unwrap();
    p.recv_message(0x110 << 44).unwrap();
    assert!(p.is_ready());
}
