//! The VideoCore mailbox: tags, channels, and the message word that hands a buffer to the GPU.
use vstd::prelude::*;

verus! {

pub const MBOX_TAG_SETPOWER: usize = 0x28001;
pub const MBOX_TAG_SETCLKRATE: usize = 0x38002;
pub const MBOX_TAG_SETPHYWH: usize = 0x48003;
pub const MBOX_TAG_SETVIRTWH: usize = 0x48004;
pub const MBOX_TAG_SETVIRTOFF: usize = 0x48009;
pub const MBOX_TAG_SETDEPTH: usize = 0x48005;
pub const MBOX_TAG_SETPXLORDR: usize = 0x48006;
pub const MBOX_TAG_GETFB: usize = 0x40001;
pub const MBOX_TAG_GETPITCH: usize = 0x40008;
pub const MBOX_TAG_LAST: usize = 0;

pub const MBOX_CH_POWER: usize = 0x0;
pub const MBOX_CH_FB: usize = 0x1;
pub const MBOX_CH_VUART: usize = 0x2;
pub const MBOX_CH_VCHIQ: usize = 0x3;
pub const MBOX_CH_LEDS: usize = 0x4;
pub const MBOX_CH_BTNS: usize = 0x5;
pub const MBOX_CH_TOUCH: usize = 0x6;
pub const MBOX_CH_COUNT: usize = 0x7;
/// Request from ARM for response by VideoCore
pub const MBOX_CH_PROP: usize = 0x8;

pub const MBOX_REQUEST: usize = 0x0;

/// The status bit that says the mailbox cannot take a message.
pub const MBOX_FULL: usize = 0x80000000;
/// The status bit that says the mailbox holds no reply.
pub const MBOX_EMPTY: usize = 0x40000000;
/// The response code of a request that succeeded.
pub const MBOX_RESPONSE: usize = 0x80000000;

/// The word that hands the buffer at `buffer` to `channel`: the buffer address with its low
/// four bits replaced by the low four bits of the channel.
pub open spec fn message_word(buffer: usize, channel: usize) -> usize {
    (buffer & !0xFusize) | (channel & 0xFusize)
}

/// The word written to the mailbox to send the buffer at `buffer` on `channel`.
pub fn mailbox_message(buffer: usize, channel: usize) -> (m: usize)
    ensures
        m == message_word(buffer, channel),
{
    buffer & !0xF | channel & 0xF
}

/// A mailbox message keeps its channel in the low four bits and the 16-byte aligned buffer
/// address in the others: both can be read back from it.
pub proof fn lemma_message_fields(buffer: usize, channel: usize)
    requires
        channel < 16,
        buffer % 16 == 0,
    ensures
        message_word(buffer, channel) & 0xFusize == channel,
        message_word(buffer, channel) & !0xFusize == buffer,
{
    assert(buffer % 16 == 0 ==> buffer & 0xFusize == 0) by (bit_vector);
    assert(channel < 16 ==> buffer & 0xFusize == 0 ==> ((buffer & !0xFusize) | (channel & 0xFusize)) & 0xFusize == channel) by (bit_vector);
    assert(channel < 16 ==> buffer & 0xFusize == 0 ==> ((buffer & !0xFusize) | (channel & 0xFusize)) & !0xFusize == buffer) by (bit_vector);
}

/// Where a mailbox call stands.
#[derive(Debug, Clone, Copy, PartialEq, Eq)]
pub enum MailboxPhase {
    /// Waiting until the mailbox can take the message.
    WaitWritable,
    /// The message is to be written.
    Writing,
    /// Waiting until the mailbox holds a reply.
    WaitReply,
    /// A reply is to be read.
    Reading,
    /// The reply was ours: the response code is to be read.
    Checking,
    /// The call is over; it succeeded or not.
    Done(bool),
}

/// What a mailbox call asks its driver to do next.
#[derive(Debug, Clone, Copy, PartialEq, Eq)]
pub enum MailboxAction {
    /// Read the status register and report it.
    ReadStatus,
    /// Write this word to the write register and report that it was written.
    Write(usize),
    /// Read the read register and report the word.
    ReadReply,
    /// Read the response code of the buffer (its second word) and report it.
    ReadResponse,
    /// The call is over, with this result.
    Finish(bool),
}

/// What the driver of a mailbox call reports.
#[derive(Debug, Clone, Copy, PartialEq, Eq)]
pub enum MailboxEvent {
    /// The status register holds this value.
    Status(usize),
    /// The message was written.
    Written,
    /// The read register held this word.
    Reply(usize),
    /// The buffer's response code is this value.
    Response(usize),
}

/// A mailbox call in progress: it waits until the mailbox can take the message, writes it,
/// then reads replies until one is the message itself, and succeeds when the buffer's response
/// code then says so.
pub struct MailboxCall {
    /// The word that is sent.
    pub message: usize,
    /// Where the call stands.
    pub phase: MailboxPhase,
}

/// The action that goes with a phase.
pub open spec fn phase_action(message: usize, phase: MailboxPhase) -> MailboxAction {
    match phase {
        MailboxPhase::WaitWritable => MailboxAction::ReadStatus,
        MailboxPhase::Writing => MailboxAction::Write(message),
        MailboxPhase::WaitReply => MailboxAction::ReadStatus,
        MailboxPhase::Reading => MailboxAction::ReadReply,
        MailboxPhase::Checking => MailboxAction::ReadResponse,
        MailboxPhase::Done(ok) => MailboxAction::Finish(ok),
    }
}

/// The phase that follows `phase` on `event`. An event that does not answer the phase's
/// action leaves the phase as it is.
pub open spec fn next_phase(message: usize, phase: MailboxPhase, event: MailboxEvent) -> MailboxPhase {
    match (phase, event) {
        (MailboxPhase::WaitWritable, MailboxEvent::Status(s)) =>
            if s & MBOX_FULL != 0 { MailboxPhase::WaitWritable } else { MailboxPhase::Writing },
        (MailboxPhase::Writing, MailboxEvent::Written) => MailboxPhase::WaitReply,
        (MailboxPhase::WaitReply, MailboxEvent::Status(s)) =>
            if s & MBOX_EMPTY != 0 { MailboxPhase::WaitReply } else { MailboxPhase::Reading },
        (MailboxPhase::Reading, MailboxEvent::Reply(w)) =>
            if w == message { MailboxPhase::Checking } else { MailboxPhase::WaitReply },
        (MailboxPhase::Checking, MailboxEvent::Response(code)) =>
            MailboxPhase::Done(code == MBOX_RESPONSE),
        _ => phase,
    }
}

impl MailboxCall {
    /// Starts a call that sends the buffer at `buffer` on `channel`; the first action is to
    /// read the status.
    pub fn new(buffer: usize, channel: usize) -> (r: (MailboxCall, MailboxAction))
        ensures
            r.0.message == message_word(buffer, channel),
            r.0.phase == MailboxPhase::WaitWritable,
            r.1 == MailboxAction::ReadStatus,
    {
        (MailboxCall { message: mailbox_message(buffer, channel), phase: MailboxPhase::WaitWritable },
            MailboxAction::ReadStatus)
    }

    /// Takes in what the driver reports and says what it is to do next.
    pub fn step(&mut self, event: MailboxEvent) -> (action: MailboxAction)
        ensures
            final(self).message == old(self).message,
            final(self).phase == next_phase(old(self).message, old(self).phase, event),
            action == phase_action(final(self).message, final(self).phase),
    {
        let phase = match (self.phase, event) {
            (MailboxPhase::WaitWritable, MailboxEvent::Status(s)) => {
                if s & MBOX_FULL != 0 {
                    MailboxPhase::WaitWritable
                } else {
                    MailboxPhase::Writing
                }
            },
            (MailboxPhase::Writing, MailboxEvent::Written) => MailboxPhase::WaitReply,
            (MailboxPhase::WaitReply, MailboxEvent::Status(s)) => {
                if s & MBOX_EMPTY != 0 {
                    MailboxPhase::WaitReply
                } else {
                    MailboxPhase::Reading
                }
            },
            (MailboxPhase::Reading, MailboxEvent::Reply(w)) => {
                if w == self.message {
                    MailboxPhase::Checking
                } else {
                    MailboxPhase::WaitReply
                }
            },
            (MailboxPhase::Checking, MailboxEvent::Response(code)) => MailboxPhase::Done(
                code == MBOX_RESPONSE,
            ),
            (p, _) => p,
        };
        self.phase = phase;
        match phase {
            MailboxPhase::WaitWritable => MailboxAction::ReadStatus,
            MailboxPhase::Writing => MailboxAction::Write(self.message),
            MailboxPhase::WaitReply => MailboxAction::ReadStatus,
            MailboxPhase::Reading => MailboxAction::ReadReply,
            MailboxPhase::Checking => MailboxAction::ReadResponse,
            MailboxPhase::Done(ok) => MailboxAction::Finish(ok),
        }
    }
}

/// A mailbox call writes only its own message, and only after a status without the full bit;
/// it reads the response code only after a reply equal to its message, and goes back to waiting
/// after any other reply; it ends only on a response code; and once over it stays over with the
/// same result, whatever is reported.
pub proof fn lemma_mailbox_protocol(message: usize, phase: MailboxPhase, event: MailboxEvent)
    ensures
        next_phase(message, phase, event) == MailboxPhase::Writing ==> (phase
            == MailboxPhase::Writing || (phase == MailboxPhase::WaitWritable && (event matches MailboxEvent::Status(s) && s & MBOX_FULL == 0))),
        phase_action(message, MailboxPhase::Writing) == MailboxAction::Write(message),
        next_phase(message, phase, event) == MailboxPhase::Checking ==> (phase
            == MailboxPhase::Checking || (phase == MailboxPhase::Reading && event == MailboxEvent::Reply(message))),
        phase matches MailboxPhase::Done(ok) ==> next_phase(message, phase, event) == phase,
        next_phase(message, phase, event) matches MailboxPhase::Done(true) ==> (phase == MailboxPhase::Done(true)
            || (phase == MailboxPhase::Checking && event == MailboxEvent::Response(MBOX_RESPONSE))),
        next_phase(message, phase, event) is Done ==> (phase is Done || (phase == MailboxPhase::Checking
            && event is Response)),
        event matches MailboxEvent::Reply(w) && w != message && phase == MailboxPhase::Reading
            ==> next_phase(message, phase, event) == MailboxPhase::WaitReply,
{
}

/// Each phase asks for what it waits for: the status while waiting to write or for a reply,
/// the write of the call's own message, the reply word, the response code, and at the end the
/// result; a call starts by reading the status and ends only through a response code, with
/// success exactly when that code is `MBOX_RESPONSE` (0x80000000).
pub proof fn lemma_mailbox_actions(message: usize, ok: bool, code: usize)
    ensures
        phase_action(message, MailboxPhase::WaitWritable) == MailboxAction::ReadStatus,
        phase_action(message, MailboxPhase::Writing) == MailboxAction::Write(message),
        phase_action(message, MailboxPhase::WaitReply) == MailboxAction::ReadStatus,
        phase_action(message, MailboxPhase::Reading) == MailboxAction::ReadReply,
        phase_action(message, MailboxPhase::Checking) == MailboxAction::ReadResponse,
        phase_action(message, MailboxPhase::Done(ok)) == MailboxAction::Finish(ok),
        next_phase(message, MailboxPhase::Checking, MailboxEvent::Response(code))
            == MailboxPhase::Done(code == 0x80000000usize),
        next_phase(message, MailboxPhase::Writing, MailboxEvent::Written) == MailboxPhase::WaitReply,
        next_phase(message, MailboxPhase::WaitWritable, MailboxEvent::Status(0)) == MailboxPhase::Writing,
        next_phase(message, MailboxPhase::WaitWritable, MailboxEvent::Status(0x80000000)) == MailboxPhase::WaitWritable,
        next_phase(message, MailboxPhase::WaitReply, MailboxEvent::Status(0)) == MailboxPhase::Reading,
        next_phase(message, MailboxPhase::WaitReply, MailboxEvent::Status(0x40000000)) == MailboxPhase::WaitReply,
        next_phase(message, MailboxPhase::Reading, MailboxEvent::Reply(message)) == MailboxPhase::Checking,
{
    assert(0usize & 0x80000000usize == 0) by (bit_vector);
    assert(0usize & 0x40000000usize == 0) by (bit_vector);
    assert(0x80000000usize & 0x80000000usize != 0) by (bit_vector);
    assert(0x40000000usize & 0x40000000usize != 0) by (bit_vector);
}

} // verus!
