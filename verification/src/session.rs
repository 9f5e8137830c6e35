//! Whole sessions: what a listener reports for the stream it is served, and
//! that this is what the sender on the other end put there.

use vstd::prelude::*;
use crate::entry::EntryView;
use crate::error::{DecodeError, FrameError, SessionError};
use crate::frame::{all_fit, lemma_frames_in_order, parse_frame, stream_of};
use crate::listener::{ListenerActionView, ListenerEventView, ListenerView};
use crate::text::text_of;
use crate::sender::{SenderEventView, SenderStage, SenderView};
use crate::transport::{
    lemma_reading_is_exact, lemma_sends_in_order, read_on, send_on, Reading, Sending,
};

verus! {

/// How a session went on the listener's side.
#[verifier::ext_equal]
pub ghost struct Outcome {
    /// The `found` flag of each entry that was reported, in order.
    pub reports: Seq<bool>,
    /// The error that ended the session.
    pub error: SessionError,
}

impl Outcome {
    /// A session that ends with `error` and without another report.
    pub open spec fn ended(error: SessionError) -> Outcome {
        Outcome { reports: Seq::empty(), error }
    }

    /// A session that reports `found` and then goes as `self` does.
    pub open spec fn after(self, found: bool) -> Outcome {
        Outcome { reports: seq![found] + self.reports, error: self.error }
    }
}

/// What `stream` calls for, read frame by frame from its front: each
/// frame's payload is read as text, the text is parsed, and the entry is
/// reported, until a frame is cut short, a payload is not text, or a text
/// is not an entry. A session has no other end: the stream's end, even
/// between two frames, cuts the next prefix short.
pub open spec fn session_of(stream: Seq<u8>, parser: spec_fn(Seq<char>) -> Option<EntryView>) -> Outcome
    decreases stream.len(),
{
    match parse_frame(stream) {
        Err(error) => Outcome::ended(SessionError::Frame(error)),
        Ok((payload, consumed)) => match text_of(payload) {
            Err(error) => Outcome::ended(SessionError::Decode(error)),
            Ok(text) => match parser(text) {
                None => Outcome::ended(SessionError::Decode(DecodeError::SchemaMismatch)),
                Some(entry) => session_of(stream.skip(consumed as int), parser).after(entry.found),
            },
        },
    }
}

/// What the parser's verdict on a text is as an event.
pub open spec fn verdict(parsed: Option<EntryView>) -> ListenerEventView {
    match parsed {
        Some(entry) => ListenerEventView::Parsed(entry),
        None => ListenerEventView::Rejected,
    }
}

/// A listener with its connection is driven to the end of its session. The
/// transport holds `stream` and hands it over as `offers` has it, where
/// `offers(n, k)` is what it offers to the read number `k` of the frame
/// number `n`; texts go to `parser`, and status lines are written. What
/// the listener asks for is what it is given: the branches for a listener
/// that asks otherwise are never taken, and say nothing.
pub open spec fn listen_on(
    stream: Seq<u8>,
    offers: spec_fn(nat, nat) -> nat,
    parser: spec_fn(Seq<char>) -> Option<EntryView>,
    frame: nat,
) -> Outcome
    decreases stream.len(),
{
    let read = read_on(
        Reading {
            listener: ListenerView::between_frames(),
            action: ListenerActionView::Read { at_most: 4 },
            rest: stream,
        },
        |turn: nat| offers(frame, turn),
        0,
    );
    match read.action {
        ListenerActionView::Parse(text) => {
            let (decoded, asked) = read.listener.step(verdict(parser(text)));
            match asked {
                ListenerActionView::Report { found } => {
                    if decoded.step(ListenerEventView::Reported).0 == ListenerView::between_frames()
                        && read.rest.len() < stream.len() {
                        listen_on(read.rest, offers, parser, frame + 1).after(found)
                    } else {
                        Outcome { reports: seq![found], error: arbitrary() }
                    }
                },
                ListenerActionView::Halt { error } => Outcome::ended(error),
                _ => Outcome::ended(arbitrary()),
            }
        },
        ListenerActionView::Halt { error } => Outcome::ended(error),
        _ => Outcome::ended(arbitrary()),
    }
}

/// The listener does what the stream calls for.
///
/// Whatever the stream holds, however the transport cuts it up and whatever
/// the parser accepts, a listener that is driven to the end of its session
/// reports the entries of the whole frames in the order in which they lie
/// on the stream, each from the bytes of its own frame alone, and ends with
/// the error of the first frame that is no entry.
pub proof fn lemma_listener_follows_the_stream(
    stream: Seq<u8>,
    offers: spec_fn(nat, nat) -> nat,
    parser: spec_fn(Seq<char>) -> Option<EntryView>,
    frame: nat,
)
    ensures
        listen_on(stream, offers, parser, frame) == session_of(stream, parser),
    decreases stream.len(),
{
    lemma_reading_is_exact(
        ListenerActionView::Read { at_most: 4 },
        stream,
        |turn: nat| offers(frame, turn),
    );
    if let Ok((payload, consumed)) = parse_frame(stream) {
        if let Ok(text) = text_of(payload) {
            if parser(text) is Some {
                lemma_listener_follows_the_stream(stream.skip(consumed as int), offers, parser, frame + 1);
            }
        }
    }
}

/// The `found` flags of `entries`, in order.
pub open spec fn found_flags(entries: Seq<EntryView>) -> Seq<bool> {
    Seq::new(entries.len(), |i: int| entries[i].found)
}

/// The parser reads `encodings[i]` as `entries[i]`, for every `i`.
pub open spec fn decodes_to(
    parser: spec_fn(Seq<char>) -> Option<EntryView>,
    encodings: Seq<Seq<u8>>,
    entries: Seq<EntryView>,
) -> bool {
    &&& encodings.len() == entries.len()
    &&& forall|i: int|
        0 <= i < encodings.len() ==> text_of(#[trigger] encodings[i]) is Ok && parser(
            text_of(encodings[i])->Ok_0,
        ) == Some(entries[i])
}

/// What is sent is what is reported.
///
/// Where the stream is the frames of the encodings of `entries`, one after
/// the other, and the parser reads each encoding as its entry, the session
/// it calls for reports every entry, in the order in which they were sent,
/// and ends where the stream ends: before the prefix of a further frame.
pub proof fn lemma_sent_entries_are_reported(
    entries: Seq<EntryView>,
    encodings: Seq<Seq<u8>>,
    parser: spec_fn(Seq<char>) -> Option<EntryView>,
)
    requires
        all_fit(encodings),
        decodes_to(parser, encodings, entries),
    ensures
        session_of(stream_of(encodings), parser) == (Outcome {
            reports: found_flags(entries),
            error: SessionError::Frame(FrameError::TruncatedLengthPrefix),
        }),
    decreases entries.len(),
{
    if entries.len() == 0 {
        assert(stream_of(encodings) =~= Seq::<u8>::empty());
        assert(found_flags(entries) =~= Seq::<bool>::empty());
    } else {
        let stream = stream_of(encodings);
        lemma_frames_in_order(encodings, Seq::empty());
        assert(stream + Seq::<u8>::empty() =~= stream);
        assert(stream_of(encodings.drop_first()) + Seq::<u8>::empty() =~= stream_of(
            encodings.drop_first(),
        ));
        let later = entries.drop_first();
        assert(decodes_to(parser, encodings.drop_first(), later)) by {
            assert forall|i: int| 0 <= i < encodings.drop_first().len() implies text_of(
                #[trigger] encodings.drop_first()[i],
            ) is Ok && parser(text_of(encodings.drop_first()[i])->Ok_0) == Some(later[i]) by {
                assert(encodings.drop_first()[i] == encodings[i + 1]);
            }
        }
        lemma_sent_entries_are_reported(later, encodings.drop_first(), parser);
        assert(encodings[0] == encodings.first());
        assert(found_flags(entries) =~= seq![entries[0].found] + found_flags(later));
    }
}

/// A session from end to end.
///
/// A sender connects and sends the encodings of `entries`, and every write
/// succeeds; a listener is served the bytes that the sender wrote, cut up
/// in any way, and its parser reads each encoding as its entry. Then the
/// listener reports every entry, in the order in which the sender was given
/// them, and its session ends where the stream ends.
pub proof fn lemma_session_end_to_end(
    entries: Seq<EntryView>,
    encodings: Seq<Seq<u8>>,
    parser: spec_fn(Seq<char>) -> Option<EntryView>,
    offers: spec_fn(nat, nat) -> nat,
)
    requires
        entries.len() <= usize::MAX,
        all_fit(encodings),
        decodes_to(parser, encodings, entries),
    ensures
        ({
            let begun = SenderView { stage: SenderStage::Connecting, total: entries.len() as usize };
            let (sender, action) = begun.step(SenderEventView::Connected);
            let sent = send_on(Sending { sender, action, written: Seq::empty() }, encodings, None);
            &&& sent.sender.stage == SenderStage::Finished
            &&& listen_on(sent.written, offers, parser, 0) == (Outcome {
                reports: found_flags(entries),
                error: SessionError::Frame(FrameError::TruncatedLengthPrefix),
            })
        }),
{
    lemma_sends_in_order(entries.len() as usize, encodings, None);
    lemma_sent_entries_are_reported(entries, encodings, parser);
    lemma_listener_follows_the_stream(stream_of(encodings), offers, parser, 0);
}

} // verus!
