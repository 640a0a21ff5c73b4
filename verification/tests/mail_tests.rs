use libkernel::mail::{
    mailbox_message, MailboxAction, MailboxCall, MailboxEvent, MailboxPhase, MBOX_CH_PROP,
    MBOX_EMPTY, MBOX_FULL, MBOX_RESPONSE,
};

#[test]
fn message_keeps_channel_in_low_bits() {
    let m = mailbox_message(0x8_0000, MBOX_CH_PROP);
    assert_eq!(m, 0x8_0008);
    assert_eq!(m & 0xF, MBOX_CH_PROP);
    assert_eq!(m & !0xF, 0x8_0000);
    assert_eq!(mailbox_message(0x1234_5677, 0x13), 0x1234_5673);
}

#[test]
fn mailbox_call_succeeds() {
    let (mut call, a) = MailboxCall::new(0x8_0000, MBOX_CH_PROP);
    assert_eq!(a, MailboxAction::ReadStatus);
    assert_eq!(call.step(MailboxEvent::Status(MBOX_FULL)), MailboxAction::ReadStatus);
    assert_eq!(call.step(MailboxEvent::Status(0)), MailboxAction::Write(0x8_0008));
    assert_eq!(call.step(MailboxEvent::Written), MailboxAction::ReadStatus);
    assert_eq!(call.step(MailboxEvent::Status(MBOX_EMPTY)), MailboxAction::ReadStatus);
    assert_eq!(call.step(MailboxEvent::Status(0)), MailboxAction::ReadReply);
    // Another channel's reply: wait for the next one.
    assert_eq!(call.step(MailboxEvent::Reply(0x9_0001)), MailboxAction::ReadStatus);
    assert_eq!(call.step(MailboxEvent::Status(0)), MailboxAction::ReadReply);
    assert_eq!(call.step(MailboxEvent::Reply(0x8_0008)), MailboxAction::ReadResponse);
    assert_eq!(call.step(MailboxEvent::Response(MBOX_RESPONSE)), MailboxAction::Finish(true));
    assert_eq!(call.phase, MailboxPhase::Done(true));
    assert_eq!(call.step(MailboxEvent::Status(0)), MailboxAction::Finish(true));
}

#[test]
fn mailbox_call_fails_on_error_code() {
    let (mut call, _) = MailboxCall::new(0x8_0000, MBOX_CH_PROP);
    call.step(MailboxEvent::Status(0));
    call.step(MailboxEvent::Written);
    call.step(MailboxEvent::Status(0));
    call.step(MailboxEvent::Reply(0x8_0008));
    assert_eq!(call.step(MailboxEvent::Response(0x8000_0001)), MailboxAction::Finish(false));
}

#[test]
fn mailbox_ignores_out_of_turn_events() {
    let (mut call, _) = MailboxCall::new(0x8_0000, MBOX_CH_PROP);
    assert_eq!(call.step(MailboxEvent::Reply(0x8_0008)), MailboxAction::ReadStatus);
    assert_eq!(call.phase, MailboxPhase::WaitWritable);
}
