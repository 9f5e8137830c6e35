use session_wire::{
    client, server, status_line, Entry, Listener, ListenerAction, ListenerEvent, ModelData,
    ParamData, Sender, SenderAction, SenderEvent,
};

fn entry(found: bool, sequence: u32, params: Vec<ParamData>) -> Entry {
    Entry {
        Ver: 1,
        Time: 1_700_000_000_000,
        Type: 1,
        Command: 2,
        found,
        Fwd: 0,
        USB: 1,
        Data: params,
        ModelData: ModelData {
            PacketID: sequence,
            Final: true,
            SessionUUID: String::from("0e8a3c52"),
            TotalFolders: 0,
            TotalFiles: 0,
            TotalFileSize: 0,
            TotalFileSizeMegabyte: 0,
            TotalPacketCount: 1,
            ModelName: String::from("tower"),
            ModelBasePath: String::from("/srv/tower"),
            OrderedDirsToCreate: vec![],
            OrderedRelativeFiles: vec![],
            OrderedAbsoluteFiles: vec![],
            OrderedAbsoluteFileSizes: vec![],
            OrderedNumberOfPayloadsPerFile: vec![],
            Sequence: sequence,
            DataLength: 0,
            DataName: String::new(),
            Data: String::new(),
        },
    }
}

/// Stands in for the JSON text of an entry: the tests need a text per
/// entry, not its schema.
fn text_for(entry: &Entry) -> String {
    format!("{{\"found\":{},\"Sequence\":{}}}", entry.found, entry.ModelData.Sequence)
}

/// Runs a sender over `entries` and returns the bytes it put on the stream.
fn send(entries: &[Entry]) -> Vec<u8> {
    let mut stream = Vec::new();
    let (mut sender, mut action) = Sender::start(entries.len());
    loop {
        let event = match action {
            SenderAction::Connect => SenderEvent::Connected,
            SenderAction::Encode { index } => SenderEvent::Encoded(text_for(&entries[index]).into_bytes()),
            SenderAction::Write(frame) => {
                stream.extend(frame);
                SenderEvent::Written
            }
            SenderAction::Finish { sent } => {
                assert_eq!(sent, entries.len());
                return stream;
            }
            other => panic!("the sender asked for {:?}", other),
        };
        let (next, handed) = client(sender, event);
        sender = next;
        action = handed;
    }
}

/// Runs a listener over `stream`, handing it `piece` bytes at a time at
/// most, and returns the status lines it reported and how it halted.
fn listen(stream: &[u8], piece: usize, entries: &[Entry]) -> (Vec<String>, ListenerAction) {
    let mut lines = Vec::new();
    let mut at = 0;
    let (mut listener, mut action) = Listener::start();
    loop {
        let event = match action {
            ListenerAction::Bind => ListenerEvent::Bound,
            ListenerAction::Accept => ListenerEvent::Accepted,
            ListenerAction::Read { at_most } => {
                let count = piece.min(at_most).min(stream.len() - at);
                at += count;
                if count == 0 {
                    ListenerEvent::Closed
                } else {
                    ListenerEvent::Received(stream[at - count..at].to_vec())
                }
            }
            ListenerAction::Parse(text) => match entries.iter().find(|e| text_for(e) == text) {
                Some(entry) => ListenerEvent::Parsed(entry.clone()),
                None => ListenerEvent::Rejected,
            },
            ListenerAction::Report { found } => {
                lines.push(String::from(status_line(found)));
                ListenerEvent::Reported
            }
            halt => return (lines, halt),
        };
        let (next, handed) = server(listener, event);
        listener = next;
        action = handed;
    }
}

#[test]
fn one_found_entry_is_reported_found() {
    let entries = [entry(true, 1, vec![])];
    let stream = send(&entries);
    let (lines, _) = listen(&stream, usize::MAX, &entries);
    assert_eq!(lines, vec![String::from("Model found")]);
}

#[test]
fn one_missing_entry_is_reported_not_found() {
    let entries = [entry(false, 1, vec![])];
    let stream = send(&entries);
    let (lines, _) = listen(&stream, usize::MAX, &entries);
    assert_eq!(lines, vec![String::from("Model not found")]);
}

#[test]
fn two_entries_back_to_back_are_reported_in_order() {
    let entries = [
        entry(false, 1, vec![ParamData { p: 1, v: 0.25f64.to_bits() }]),
        entry(true, 2, vec![]),
    ];
    let stream = send(&entries);
    for piece in [1usize, 3, 17, usize::MAX] {
        let (lines, _) = listen(&stream, piece, &entries);
        assert_eq!(lines, vec![String::from("Model not found"), String::from("Model found")]);
    }
}

#[test]
fn session_ends_when_the_sender_is_gone() {
    let entries = [entry(true, 1, vec![])];
    let stream = send(&entries);
    let (lines, halt) = listen(&stream, 5, &entries);
    assert_eq!(lines.len(), 1);
    assert_eq!(
        halt,
        ListenerAction::Halt {
            error: session_wire::SessionError::Frame(
                session_wire::FrameError::TruncatedLengthPrefix
            )
        }
    );
}

#[test]
fn stream_is_the_frames_one_after_the_other() {
    let entries = [entry(true, 7, vec![]), entry(false, 8, vec![]), entry(true, 9, vec![])];
    let stream = send(&entries);
    let mut expected = Vec::new();
    for entry in &entries {
        let text = text_for(entry);
        expected.extend((text.len() as u32).to_be_bytes());
        expected.extend(text.into_bytes());
    }
    assert_eq!(stream, expected);
}

#[test]
fn frame_cut_short_reports_what_came_before() {
    let entries = [entry(true, 1, vec![]), entry(false, 2, vec![])];
    let stream = send(&entries);
    let cut = &stream[..stream.len() - 1];
    let (lines, halt) = listen(cut, 4, &entries);
    assert_eq!(lines, vec![String::from("Model found")]);
    assert_eq!(
        halt,
        ListenerAction::Halt {
            error: session_wire::SessionError::Frame(session_wire::FrameError::TruncatedPayload)
        }
    );
}
