use session_wire::{
    client, FrameError, Sender, SenderAction, SenderEvent, SenderStage, SessionError, SetupError,
};

fn write_failure(last_sent: Option<usize>) -> SenderAction {
    SenderAction::Abort { error: SessionError::Frame(FrameError::WriteFailure), last_sent }
}

#[test]
fn sender_begins_by_connecting() {
    let (sender, action) = Sender::start(3);
    assert_eq!(action, SenderAction::Connect);
    assert_eq!(sender.stage(), SenderStage::Connecting);
    assert_eq!(sender.total(), 3);
}

#[test]
fn refused_connection_aborts_with_nothing_sent() {
    let (sender, _) = Sender::start(3);
    let (sender, action) = client(sender, SenderEvent::ConnectFailed);
    let error = SessionError::Setup(SetupError::ConnectFailure);
    assert_eq!(action, SenderAction::Abort { error, last_sent: None });
    assert_eq!(sender.stage(), SenderStage::Aborted { error, last_sent: None });
}

#[test]
fn nothing_to_send_finishes_at_once() {
    let (sender, _) = Sender::start(0);
    let (sender, action) = client(sender, SenderEvent::Connected);
    assert_eq!(action, SenderAction::Finish { sent: 0 });
    assert_eq!(sender.stage(), SenderStage::Finished);
}

#[test]
fn entries_are_framed_and_sent_in_order() {
    let (sender, _) = Sender::start(2);
    let (sender, action) = client(sender, SenderEvent::Connected);
    assert_eq!(action, SenderAction::Encode { index: 0 });
    assert_eq!(sender.stage(), SenderStage::Encoding { index: 0 });
    let (sender, action) = client(sender, SenderEvent::Encoded(b"{}".to_vec()));
    assert_eq!(action, SenderAction::Write(vec![0, 0, 0, 2, b'{', b'}']));
    assert_eq!(sender.stage(), SenderStage::Writing { index: 0 });
    let (sender, action) = client(sender, SenderEvent::Written);
    assert_eq!(action, SenderAction::Encode { index: 1 });
    let (sender, action) = client(sender, SenderEvent::Encoded(b"[1]".to_vec()));
    assert_eq!(action, SenderAction::Write(vec![0, 0, 0, 3, b'[', b'1', b']']));
    let (sender, action) = client(sender, SenderEvent::Written);
    assert_eq!(action, SenderAction::Finish { sent: 2 });
    assert_eq!(sender.stage(), SenderStage::Finished);
}

#[test]
fn failed_first_write_names_no_entry() {
    let (sender, _) = Sender::start(2);
    let (sender, _) = client(sender, SenderEvent::Connected);
    let (sender, _) = client(sender, SenderEvent::Encoded(b"{}".to_vec()));
    let (sender, action) = client(sender, SenderEvent::WriteFailed);
    assert_eq!(action, write_failure(None));
    assert_eq!(
        sender.stage(),
        SenderStage::Aborted {
            error: SessionError::Frame(FrameError::WriteFailure),
            last_sent: None
        }
    );
}

#[test]
fn failed_later_write_names_the_entry_before_it() {
    let (sender, _) = Sender::start(5);
    let (mut sender, mut action) = client(sender, SenderEvent::Connected);
    for index in 0..3usize {
        assert_eq!(action, SenderAction::Encode { index });
        let (next, _) = client(sender, SenderEvent::Encoded(vec![b'0' + index as u8]));
        let (next, handed) = client(next, SenderEvent::Written);
        sender = next;
        action = handed;
    }
    assert_eq!(action, SenderAction::Encode { index: 3 });
    let (sender, _) = client(sender, SenderEvent::Encoded(b"3".to_vec()));
    let (sender, action) = client(sender, SenderEvent::WriteFailed);
    assert_eq!(action, write_failure(Some(2)));
    let (_, action) = client(sender, SenderEvent::Written);
    assert_eq!(action, write_failure(Some(2)));
}

#[test]
fn finished_session_stays_finished() {
    let (sender, _) = Sender::start(1);
    let (sender, _) = client(sender, SenderEvent::Connected);
    let (sender, _) = client(sender, SenderEvent::Encoded(vec![]));
    let (sender, action) = client(sender, SenderEvent::Written);
    assert_eq!(action, SenderAction::Finish { sent: 1 });
    let (sender, action) = client(sender, SenderEvent::WriteFailed);
    assert_eq!(action, SenderAction::Finish { sent: 1 });
    let (sender, action) = client(sender, SenderEvent::Encoded(b"again".to_vec()));
    assert_eq!(action, SenderAction::Finish { sent: 1 });
    assert_eq!(sender.stage(), SenderStage::Finished);
}

#[test]
fn sender_ignores_what_it_does_not_await() {
    let (sender, _) = Sender::start(1);
    let (sender, action) = client(sender, SenderEvent::Written);
    assert_eq!(action, SenderAction::Nothing);
    assert_eq!(sender.stage(), SenderStage::Connecting);
    let (sender, _) = client(sender, SenderEvent::Connected);
    let (sender, action) = client(sender, SenderEvent::Written);
    assert_eq!(action, SenderAction::Nothing);
    let (sender, action) = client(sender, SenderEvent::WriteFailed);
    assert_eq!(action, SenderAction::Nothing);
    assert_eq!(sender.stage(), SenderStage::Encoding { index: 0 });
    let (sender, _) = client(sender, SenderEvent::Encoded(b"x".to_vec()));
    let (sender, action) = client(sender, SenderEvent::Encoded(b"y".to_vec()));
    assert_eq!(action, SenderAction::Nothing);
    let (sender, action) = client(sender, SenderEvent::Connected);
    assert_eq!(action, SenderAction::Nothing);
    assert_eq!(sender.stage(), SenderStage::Writing { index: 0 });
}

#[test]
fn empty_encoding_is_framed_as_an_empty_payload() {
    let (sender, _) = Sender::start(1);
    let (sender, _) = client(sender, SenderEvent::Connected);
    let (_, action) = client(sender, SenderEvent::Encoded(vec![]));
    assert_eq!(action, SenderAction::Write(vec![0, 0, 0, 0]));
}
