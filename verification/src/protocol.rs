//! The driver side of the PMP start-up handshake.
//!
//! The firmware announces itself with `OPC_STARTUP`; the driver answers with
//! the shared-buffer address, and then the two initialisation requests, each
//! sent in reply to the firmware's acknowledgement of the previous one. Once
//! `OPC_INIT2` is acknowledged the firmware accepts power-state requests.
use vstd::prelude::*;
use crate::error::PmpError;
use crate::message::{
    configure_message, init1_message, init2_message, opcode_of, spec_configure_message,
    spec_init1_message, spec_init2_message, spec_opcode, OPC_CONFIGURE_ACK, OPC_INIT1_ACK,
    OPC_INIT2_ACK, OPC_NOTIFY, OPC_STARTUP,
};

verus! {

/// The reply that the driver owes to the firmware message `msg`: `Ok(Some(m))`
/// to send `m`, `Ok(None)` to send nothing, `Err` for an unknown opcode.
pub open spec fn spec_reply(dma_handle: u64, msg: u64) -> Result<Option<u64>, PmpError> {
    let opc = spec_opcode(msg);
    if opc == OPC_STARTUP {
        Ok(Some(spec_configure_message(dma_handle)))
    } else if opc == OPC_CONFIGURE_ACK {
        Ok(Some(spec_init1_message()))
    } else if opc == OPC_INIT1_ACK {
        Ok(Some(spec_init2_message()))
    } else if opc == OPC_INIT2_ACK || opc == OPC_NOTIFY {
        Ok(None)
    } else {
        Err(PmpError::Io)
    }
}

/// Whether the firmware is ready after the message `msg`, given whether it
/// was ready before.
pub open spec fn spec_ready_after(ready: bool, msg: u64) -> bool {
    ready || spec_opcode(msg) == OPC_INIT2_ACK
}

/// Whether the firmware is ready after the messages `msgs`, in order.
pub open spec fn spec_run_ready(ready: bool, msgs: Seq<u64>) -> bool
    decreases msgs.len(),
{
    if msgs.len() == 0 {
        ready
    } else {
        spec_ready_after(spec_run_ready(ready, msgs.drop_last()), msgs.last())
    }
}

/// Whether some message of `msgs` acknowledges `OPC_INIT2`.
pub open spec fn has_init2_ack(msgs: Seq<u64>) -> bool {
    exists|i: int| 0 <= i < msgs.len() && spec_opcode(#[trigger] msgs[i]) == OPC_INIT2_ACK
}

/// Handshake state of one PMP instance.
pub struct PmpProtocol {
    dma_handle: u64,
    ready: bool,
}

impl PmpProtocol {
    /// Bus address of the shared buffer announced to the firmware.
    pub closed spec fn spec_dma_handle(&self) -> u64 {
        self.dma_handle
    }

    /// Whether the firmware has acknowledged the last initialisation request.
    pub closed spec fn spec_ready(&self) -> bool {
        self.ready
    }

    /// A handshake that has not started, for a shared buffer at `dma_handle`.
    pub fn new(dma_handle: u64) -> (p: Self)
        ensures
            p.spec_dma_handle() == dma_handle,
            !p.spec_ready(),
    {
        PmpProtocol { dma_handle, ready: false }
    }

    /// Bus address of the shared buffer.
    pub fn dma_handle(&self) -> (h: u64)
        ensures
            h == self.spec_dma_handle(),
    {
        self.dma_handle
    }

    /// Whether the firmware has acknowledged the last initialisation request.
    pub fn is_ready(&self) -> (r: bool)
        ensures
            r == self.spec_ready(),
    {
        self.ready
    }

    /// The reply to the firmware's start-up announcement.
    pub fn startup(&self) -> (msg: u64)
        ensures
            msg == spec_configure_message(self.spec_dma_handle()),
            msg != 0,
    {
        configure_message(self.dma_handle)
    }

    /// Handles the firmware message `msg`: returns the reply to send, if any,
    /// and records readiness when `OPC_INIT2` is acknowledged. An unknown
    /// opcode is refused with `PmpError::Io` and changes nothing.
    pub fn recv_message(&mut self, msg: u64) -> (r: Result<Option<u64>, PmpError>)
        ensures
            r == spec_reply(old(self).spec_dma_handle(), msg),
            final(self).spec_dma_handle() == old(self).spec_dma_handle(),
            final(self).spec_ready() == spec_ready_after(old(self).spec_ready(), msg),
    {
        let opc = opcode_of(msg);
        let reply: u64 = if opc == OPC_STARTUP {
            self.startup()
        } else if opc == OPC_CONFIGURE_ACK {
            init1_message()
        } else if opc == OPC_INIT1_ACK {
            init2_message()
        } else if opc == OPC_INIT2_ACK {
            self.ready = true;
            0
        } else if opc == OPC_NOTIFY {
            0
        } else {
            return Err(PmpError::Io);
        };
        if reply != 0 {
            Ok(Some(reply))
        } else {
            Ok(None)
        }
    }
}

/// Readiness only ever changes from not ready to ready, and it does so
/// exactly when an `OPC_INIT2` acknowledgement arrives.
pub proof fn lemma_ready_iff_init2_ack(ready: bool, msgs: Seq<u64>)
    ensures
        spec_run_ready(ready, msgs) == (ready || has_init2_ack(msgs)),
    decreases msgs.len(),
{
    if msgs.len() > 0 {
        let prefix = msgs.drop_last();
        lemma_ready_iff_init2_ack(ready, prefix);
        if has_init2_ack(prefix) {
            let i = choose|i: int| 0 <= i < prefix.len() && spec_opcode(#[trigger] prefix[i]) == OPC_INIT2_ACK;
            assert(msgs[i] == prefix[i]);
        }
        if has_init2_ack(msgs) {
            let i = choose|i: int| 0 <= i < msgs.len() && spec_opcode(#[trigger] msgs[i]) == OPC_INIT2_ACK;
            if i < msgs.len() - 1 {
                assert(prefix[i] == msgs[i]);
            }
        }
        if spec_opcode(msgs.last()) == OPC_INIT2_ACK {
            assert(spec_opcode(msgs[msgs.len() - 1]) == OPC_INIT2_ACK);
        }
    }
}

/// The full handshake: the firmware's start-up announcement and its three
/// acknowledgements are answered with the configure message and the two
/// initialisation requests, and the firmware is ready after the last one and
/// not before.
pub proof fn lemma_handshake(dma_handle: u64, m0: u64, m1: u64, m2: u64, m3: u64)
    requires
        spec_opcode(m0) == OPC_STARTUP,
        spec_opcode(m1) == OPC_CONFIGURE_ACK,
        spec_opcode(m2) == OPC_INIT1_ACK,
        spec_opcode(m3) == OPC_INIT2_ACK,
    ensures
        spec_reply(dma_handle, m0) == Ok::<Option<u64>, PmpError>(Some(spec_configure_message(dma_handle))),
        spec_reply(dma_handle, m1) == Ok::<Option<u64>, PmpError>(Some(spec_init1_message())),
        spec_reply(dma_handle, m2) == Ok::<Option<u64>, PmpError>(Some(spec_init2_message())),
        spec_reply(dma_handle, m3) == Ok::<Option<u64>, PmpError>(None),
        !spec_run_ready(false, seq![m0, m1, m2]),
        spec_run_ready(false, seq![m0, m1, m2, m3]),
{
    let first3 = seq![m0, m1, m2];
    let all4 = seq![m0, m1, m2, m3];
    lemma_ready_iff_init2_ack(false, first3);
    lemma_ready_iff_init2_ack(false, all4);
    assert(all4[3] == m3);
    if has_init2_ack(first3) {
        let i = choose|i: int| 0 <= i < first3.len() && spec_opcode(#[trigger] first3[i]) == OPC_INIT2_ACK;
        assert(first3[0] == m0);
        assert(first3[1] == m1);
        assert(first3[2] == m2);
    }
}

/// A message with an opcode outside the handshake is refused with
/// `PmpError::Io` and leaves readiness as it was.
pub proof fn lemma_unknown_message_refused(dma_handle: u64, ready: bool, msg: u64)
    requires
        spec_opcode(msg) != OPC_STARTUP,
        spec_opcode(msg) != OPC_CONFIGURE_ACK,
        spec_opcode(msg) != OPC_INIT1_ACK,
        spec_opcode(msg) != OPC_INIT2_ACK,
        spec_opcode(msg) != OPC_NOTIFY,
    ensures
        spec_reply(dma_handle, msg) == Err::<Option<u64>, PmpError>(PmpError::Io),
        spec_ready_after(ready, msg) == ready,
{
}

/// The reply to a message, and what it does to readiness, depend on the
/// message's top 20 bits alone: two messages that agree there are answered
/// alike, whatever their payloads.
pub proof fn lemma_reply_depends_on_opcode_only(dma_handle: u64, ready: bool, m1: u64, m2: u64)
    requires
        m1 >> 44u64 == m2 >> 44u64,
    ensures
        spec_reply(dma_handle, m1) == spec_reply(dma_handle, m2),
        spec_ready_after(ready, m1) == spec_ready_after(ready, m2),
{
}

/// A firmware notification (opcode 0x110), whatever its payload, is accepted
/// without a reply and leaves readiness as it was.
pub proof fn lemma_notification_accepted(dma_handle: u64, ready: bool, msg: u64)
    requires
        msg >> 44u64 == 0x110u64,
    ensures
        spec_reply(dma_handle, msg) == Ok::<Option<u64>, PmpError>(None),
        spec_ready_after(ready, msg) == ready,
{
}

} // verus!
