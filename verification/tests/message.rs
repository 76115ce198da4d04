use apple_pmp::message::{
    checked_devpwr_message, configure_message, devpwr_message, init1_message, init2_message,
    opcode_of, OPC_CONFIGURE, OPC_DEVPWR, OPC_INIT1, OPC_INIT2, PAYLOAD_MASK,
};

#[test]
fn configure_message_carries_buffer_address() {
    let msg = configure_message(0x1234_5000);
    assert_eq!(msg, 0x1_0000_1234_5000);
    assert_eq!(opcode_of(msg), OPC_CONFIGURE);
    assert_eq!(msg & PAYLOAD_MASK, 0x1234_5000);
}

#[test]
fn configure_message_of_zero_address_is_not_zero() {
    assert_eq!(configure_message(0), 0x1_0000_0000_0000);
}

#[test]
fn init_messages_have_fixed_values() {
    assert_eq!(init1_message(), 0x20_0000_0001_0003);
    assert_eq!(init2_message(), 0x20_2000_0001_0000);
    assert_eq!(opcode_of(init1_message()), OPC_INIT1);
    assert_eq!(opcode_of(init2_message()), OPC_INIT2);
}

#[test]
fn opcode_is_top_twenty_bits() {
    assert_eq!(opcode_of(0x203 << 44), 0x203);
    assert_eq!(opcode_of(0xffff_ffff_ffff_ffff), 0xfffff);
    assert_eq!(opcode_of(0xfff_ffff_ffff), 0);
}

#[test]
fn devpwr_message_layout() {
    assert_eq!(devpwr_message(5, true), 0x20_e000_0005_0001);
    assert_eq!(devpwr_message(0x1234, false), 0x20_e000_1234_0000);
    let msg = devpwr_message(0xfff_ffff, true);
    assert_eq!(opcode_of(msg), OPC_DEVPWR);
    assert_eq!((msg >> 16) & 0xfff_ffff, 0xfff_ffff);
    assert_eq!(msg & 1, 1);
}

#[test]
fn devpwr_message_for_largest_u32_id() {
    assert_eq!(devpwr_message(u32::MAX as u64, true), 0x20_e000_0000_0000 + (0xffff_ffffu64 << 16) + 1);
}

#[test]
fn checked_devpwr_message_matches_and_refuses_overflow() {
    assert_eq!(checked_devpwr_message(5, true), Some(0x20_e000_0005_0001));
    assert_eq!(checked_devpwr_message(u64::MAX, false), None);
    // The shift drops the high bits of the id, as the driver's arithmetic does.
    assert_eq!(checked_devpwr_message(1u64 << 48, true), Some(0x20_e000_0000_0001));
}
