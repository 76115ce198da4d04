//! Layout of the 64-bit mailbox messages exchanged with the PMP firmware.
//!
//! A message carries its opcode in bits 44 and up; the remaining low bits
//! carry the opcode's payload.
use vstd::prelude::*;

verus! {

/// RTKit endpoint on which the PMP firmware listens.
pub const PMP_ENDPOINT: u8 = 0x20;

/// Firmware announces that it has started.
pub const OPC_STARTUP: u64 = 0;

/// Driver hands the firmware the address of the shared-memory buffer.
pub const OPC_CONFIGURE: u64 = 0x10;

/// Firmware acknowledges `OPC_CONFIGURE`.
pub const OPC_CONFIGURE_ACK: u64 = 0x20;

/// First initialisation request of the driver.
pub const OPC_INIT1: u64 = 0x200;

/// Firmware acknowledges `OPC_INIT1`.
pub const OPC_INIT1_ACK: u64 = 0x201;

/// Second initialisation request of the driver.
pub const OPC_INIT2: u64 = 0x202;

/// Firmware acknowledges `OPC_INIT2`; the firmware is then ready.
pub const OPC_INIT2_ACK: u64 = 0x203;

/// A firmware notification that the driver accepts without a reply.
pub const OPC_NOTIFY: u64 = 0x110;

/// Driver requests a device power-state change.
pub const OPC_DEVPWR: u64 = 0x20e;

/// Bit position of the opcode in a message.
pub const OPC_SHIFT: u64 = 44;

/// Payload of the `OPC_INIT1` request.
pub const INIT1_PAYLOAD: u64 = 0x10003;

/// Payload of the `OPC_INIT2` request.
pub const INIT2_PAYLOAD: u64 = 0x10000;

/// Mask of the payload bits below the opcode.
pub const PAYLOAD_MASK: u64 = 0xfff_ffff_ffff;

/// Mask of the device-id field of a power-state request (bits 16..44).
pub const DEVPWR_DEV_MASK: u64 = 0xfff_ffff;

/// The opcode of `msg`.
pub open spec fn spec_opcode(msg: u64) -> u64 {
    msg >> 44u64
}

/// The `OPC_CONFIGURE` message that announces a shared buffer at `dma_handle`.
pub open spec fn spec_configure_message(dma_handle: u64) -> u64 {
    (OPC_CONFIGURE << 44u64) | dma_handle
}

/// The `OPC_INIT1` request.
pub open spec fn spec_init1_message() -> u64 {
    (OPC_INIT1 << 44u64) | INIT1_PAYLOAD
}

/// The `OPC_INIT2` request.
pub open spec fn spec_init2_message() -> u64 {
    (OPC_INIT2 << 44u64) | INIT2_PAYLOAD
}

/// A power-state request for `dev` fits in 64 bits: the sum that builds it
/// does not overflow (`dev << 16` keeps only the low 64 bits, as in Rust).
pub open spec fn devpwr_fits(dev: u64, enable: bool) -> bool {
    (OPC_DEVPWR << 44u64) + (dev << 16u64) + (if enable { 1int } else { 0int }) <= u64::MAX
}

/// The `OPC_DEVPWR` request that switches device `dev` on or off.
pub open spec fn spec_devpwr_message(dev: u64, enable: bool) -> int {
    (OPC_DEVPWR << 44u64) + (dev << 16u64) + (if enable { 1int } else { 0int })
}

/// The opcode carried by `msg`.
pub fn opcode_of(msg: u64) -> (opc: u64)
    ensures
        opc == spec_opcode(msg),
        opc < 0x100000,
{
    assert(msg >> 44u64 < 0x100000) by (bit_vector);
    msg >> OPC_SHIFT
}

/// The message that tells the firmware where the shared buffer lives.
pub fn configure_message(dma_handle: u64) -> (msg: u64)
    ensures
        msg == spec_configure_message(dma_handle),
        msg != 0,
{
    assert(((0x10u64 << 44u64) | dma_handle) != 0) by (bit_vector);
    (OPC_CONFIGURE << OPC_SHIFT) | dma_handle
}

/// The first initialisation request, sent in reply to `OPC_CONFIGURE_ACK`.
pub fn init1_message() -> (msg: u64)
    ensures
        msg == spec_init1_message(),
        msg == 0x20_0000_0001_0003u64,
{
    assert(((0x200u64 << 44u64) | 0x10003u64) == 0x20_0000_0001_0003u64) by (bit_vector);
    (OPC_INIT1 << OPC_SHIFT) | INIT1_PAYLOAD
}

/// The second initialisation request, sent in reply to `OPC_INIT1_ACK`.
pub fn init2_message() -> (msg: u64)
    ensures
        msg == spec_init2_message(),
        msg == 0x20_2000_0001_0000u64,
{
    assert(((0x202u64 << 44u64) | 0x10000u64) == 0x20_2000_0001_0000u64) by (bit_vector);
    (OPC_INIT2 << OPC_SHIFT) | INIT2_PAYLOAD
}

/// The request that switches device `dev` on (`enable`) or off.
pub fn devpwr_message(dev: u64, enable: bool) -> (msg: u64)
    requires
        devpwr_fits(dev, enable),
    ensures
        msg == spec_devpwr_message(dev, enable),
{
    assert(0x20eu64 << 44u64 == 0x20_e000_0000_0000u64) by (bit_vector);
    let bit: u64 = if enable { 1 } else { 0 };
    (OPC_DEVPWR << OPC_SHIFT) + (dev << 16u64) + bit
}

/// The power-state request for `dev`, or `None` where building it overflows.
pub fn checked_devpwr_message(dev: u64, enable: bool) -> (r: Option<u64>)
    ensures
        match r {
            Some(msg) => devpwr_fits(dev, enable) && msg == spec_devpwr_message(dev, enable),
            None => !devpwr_fits(dev, enable),
        },
{
    assert(0x20eu64 << 44u64 == 0x20_e000_0000_0000u64) by (bit_vector);
    let bit: u64 = if enable { 1 } else { 0 };
    let shifted: u64 = dev << 16u64;
    match (OPC_DEVPWR << OPC_SHIFT).checked_add(shifted) {
        Some(partial) => match partial.checked_add(bit) {
            Some(msg) => Some(msg),
            None => None,
        },
        None => None,
    }
}

/// A power-state request for any 32-bit device id builds without overflow.
pub proof fn lemma_devpwr_fits_u32(dev: u64, enable: bool)
    requires
        dev <= u32::MAX,
    ensures
        devpwr_fits(dev, enable),
{
    assert(dev <= 0xffff_ffffu64 ==> (0x20eu64 << 44u64) + (dev << 16u64) + 1 <= 0xffff_ffff_ffff_ffffu64)
        by (bit_vector);
}

/// A configure message carries `OPC_CONFIGURE` as its opcode and gives back
/// the buffer address in its payload, for every address that fits the payload.
pub proof fn lemma_configure_message_decodes(dma_handle: u64)
    requires
        dma_handle <= PAYLOAD_MASK,
    ensures
        spec_opcode(spec_configure_message(dma_handle)) == OPC_CONFIGURE,
        spec_configure_message(dma_handle) & PAYLOAD_MASK == dma_handle,
{
    assert(dma_handle <= 0xfff_ffff_ffffu64 ==> ((0x10u64 << 44u64) | dma_handle) >> 44u64 == 0x10u64
        && ((0x10u64 << 44u64) | dma_handle) & 0xfff_ffff_ffffu64 == dma_handle) by (bit_vector);
}

/// The two initialisation requests carry their opcodes and their payloads.
pub proof fn lemma_init_messages_decode()
    ensures
        spec_opcode(spec_init1_message()) == OPC_INIT1,
        spec_init1_message() & PAYLOAD_MASK == INIT1_PAYLOAD,
        spec_opcode(spec_init2_message()) == OPC_INIT2,
        spec_init2_message() & PAYLOAD_MASK == INIT2_PAYLOAD,
{
    assert(((0x200u64 << 44u64) | 0x10003u64) >> 44u64 == 0x200u64) by (bit_vector);
    assert(((0x200u64 << 44u64) | 0x10003u64) & 0xfff_ffff_ffffu64 == 0x10003u64) by (bit_vector);
    assert(((0x202u64 << 44u64) | 0x10000u64) >> 44u64 == 0x202u64) by (bit_vector);
    assert(((0x202u64 << 44u64) | 0x10000u64) & 0xfff_ffff_ffffu64 == 0x10000u64) by (bit_vector);
}

/// For a device id that fits its 28-bit field, the power-state request can be
/// built without overflow, and its opcode, device id and on/off bit read back
/// as given.
pub proof fn lemma_devpwr_message_decodes(dev: u64, enable: bool)
    requires
        dev <= DEVPWR_DEV_MASK,
    ensures
        devpwr_fits(dev, enable),
        spec_opcode(spec_devpwr_message(dev, enable) as u64) == OPC_DEVPWR,
        (spec_devpwr_message(dev, enable) as u64 >> 16u64) & DEVPWR_DEV_MASK == dev,
        spec_devpwr_message(dev, enable) as u64 & 1u64 == (if enable { 1u64 } else { 0u64 }),
{
    let b: u64 = if enable { 1 } else { 0 };
    assert(dev <= 0xfff_ffffu64 && b <= 1 ==> {
        &&& dev << 16u64 == dev * 0x10000
        &&& (0x20eu64 << 44u64) + (dev << 16u64) + b <= 0xffff_ffff_ffff_ffffu64
        &&& (((0x20eu64 << 44u64) + (dev << 16u64) + b) as u64) >> 44u64 == 0x20eu64
        &&& ((((0x20eu64 << 44u64) + (dev << 16u64) + b) as u64) >> 16u64) & 0xfff_ffffu64 == dev
        &&& (((0x20eu64 << 44u64) + (dev << 16u64) + b) as u64) & 1u64 == b
    }) by (bit_vector);
}

} // verus!
