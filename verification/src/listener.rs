//! The receiving side of a session, as a state machine.
//!
//! The machine decides; its driver acts. The driver performs the action it
//! is handed (bind, accept, read, parse, report) and hands back what came of
//! it as the next event.

use vstd::prelude::*;
use crate::entry::{Entry, EntryView};
use crate::error::{DecodeError, FrameError, SessionError, SetupError};
use crate::frame::{be_u32, declared_length, lemma_prefix_round_trip, PREFIX_LEN};
use crate::text::{payload_text, text_of};

verus! {

/// Where a listener stands in its session.
#[derive(Clone, Copy, Debug, PartialEq, Eq, Structural)]
pub enum ListenerStage {
    /// Nothing is bound yet.
    Idle,
    /// The address is bound and the one peer is awaited.
    AwaitingConnection,
    /// Serving: the length prefix of the next frame is being read.
    ReadingPrefix,
    /// Serving: a payload of `length` bytes is being read.
    ReadingPayload { length: u32 },
    /// Serving: a payload's text is with the parser.
    Decoding,
    /// Serving: the status line of an entry is being written.
    Reporting,
    /// The session is over.
    Failed { error: SessionError },
}

/// What a listener awaits from its driver.
#[derive(Debug, PartialEq, Eq)]
pub enum ListenerEvent {
    /// The address was bound.
    Bound,
    /// The address could not be bound.
    BindFailed,
    /// The peer has connected.
    Accepted,
    /// No peer could be accepted.
    AcceptFailed,
    /// The stream delivered these bytes.
    Received(Vec<u8>),
    /// The stream ended.
    Closed,
    /// The parser read the text as this entry.
    Parsed(Entry),
    /// The parser found no entry in the text.
    Rejected,
    /// The status line was written.
    Reported,
}

/// What a listener asks of its driver.
#[derive(Debug, PartialEq, Eq)]
pub enum ListenerAction {
    /// Bind the listening address.
    Bind,
    /// Wait for the one peer.
    Accept,
    /// Read from the stream: at least one byte, and `at_most` at most.
    Read { at_most: usize },
    /// Parse this text as the JSON of an entry.
    Parse(String),
    /// Write the status line for this value of the `found` flag.
    Report { found: bool },
    /// End the session with this error.
    Halt { error: SessionError },
    /// The event was not awaited: carry on with the action handed out before.
    Nothing,
}

/// A listener as contracts see it.
#[verifier::ext_equal]
pub ghost struct ListenerView {
    pub stage: ListenerStage,
    /// The bytes read so far of the part of the frame that is being read.
    pub buffer: Seq<u8>,
}

/// An event as contracts see it.
#[verifier::ext_equal]
pub ghost enum ListenerEventView {
    Bound,
    BindFailed,
    Accepted,
    AcceptFailed,
    Received(Seq<u8>),
    Closed,
    Parsed(EntryView),
    Rejected,
    Reported,
}

/// An action as contracts see it.
#[verifier::ext_equal]
pub ghost enum ListenerActionView {
    Bind,
    Accept,
    Read { at_most: nat },
    Parse(Seq<char>),
    Report { found: bool },
    Halt { error: SessionError },
    Nothing,
}

impl View for ListenerEvent {
    type V = ListenerEventView;

    open spec fn view(&self) -> ListenerEventView {
        match self {
            ListenerEvent::Bound => ListenerEventView::Bound,
            ListenerEvent::BindFailed => ListenerEventView::BindFailed,
            ListenerEvent::Accepted => ListenerEventView::Accepted,
            ListenerEvent::AcceptFailed => ListenerEventView::AcceptFailed,
            ListenerEvent::Received(bytes) => ListenerEventView::Received(bytes@),
            ListenerEvent::Closed => ListenerEventView::Closed,
            ListenerEvent::Parsed(entry) => ListenerEventView::Parsed(entry@),
            ListenerEvent::Rejected => ListenerEventView::Rejected,
            ListenerEvent::Reported => ListenerEventView::Reported,
        }
    }
}

impl View for ListenerAction {
    type V = ListenerActionView;

    open spec fn view(&self) -> ListenerActionView {
        match self {
            ListenerAction::Bind => ListenerActionView::Bind,
            ListenerAction::Accept => ListenerActionView::Accept,
            ListenerAction::Read { at_most } => ListenerActionView::Read { at_most: *at_most as nat },
            ListenerAction::Parse(text) => ListenerActionView::Parse(text@),
            ListenerAction::Report { found } => ListenerActionView::Report { found: *found },
            ListenerAction::Halt { error } => ListenerActionView::Halt { error: *error },
            ListenerAction::Nothing => ListenerActionView::Nothing,
        }
    }
}

impl ListenerView {
    /// A listener that has a connection and no byte of the next frame.
    pub open spec fn between_frames() -> ListenerView {
        ListenerView { stage: ListenerStage::ReadingPrefix, buffer: Seq::empty() }
    }

    /// A listener at `stage` that holds no bytes.
    pub open spec fn at(stage: ListenerStage) -> ListenerView {
        ListenerView { stage, buffer: Seq::empty() }
    }

    /// The number of bytes that are still missing from the part of the
    /// frame that is being read. It is zero where the listener is not reading.
    pub open spec fn wanted(self) -> nat {
        match self.stage {
            ListenerStage::ReadingPrefix => (4 - self.buffer.len()) as nat,
            ListenerStage::ReadingPayload { length } => (length - self.buffer.len()) as nat,
            _ => 0,
        }
    }

    /// While a part of a frame is being read, at least one byte of it is
    /// missing; at other times no bytes are held.
    pub open spec fn well_formed(self) -> bool {
        match self.stage {
            ListenerStage::ReadingPrefix => self.buffer.len() < 4,
            ListenerStage::ReadingPayload { length } => self.buffer.len() < length,
            _ => self.buffer.len() == 0,
        }
    }

    /// The session ends with `error`.
    pub open spec fn fail(error: SessionError) -> (ListenerView, ListenerActionView) {
        (
            ListenerView::at(ListenerStage::Failed { error }),
            ListenerActionView::Halt { error },
        )
    }

    /// A whole payload has arrived: its text goes to the parser, or, if it
    /// is not text, the session ends.
    pub open spec fn deliver(payload: Seq<u8>) -> (ListenerView, ListenerActionView) {
        match text_of(payload) {
            Ok(text) => (ListenerView::at(ListenerStage::Decoding), ListenerActionView::Parse(text)),
            Err(error) => ListenerView::fail(SessionError::Decode(error)),
        }
    }

    /// The listener goes on reading the part of the frame that it is at.
    pub open spec fn keep_reading(self, got: Seq<u8>) -> (ListenerView, ListenerActionView) {
        let next = ListenerView { stage: self.stage, buffer: got };
        (next, ListenerActionView::Read { at_most: next.wanted() })
    }

    /// The bytes `chunk` arrive while a part of a frame is being read and
    /// `chunk` holds no more than is missing from it.
    pub open spec fn receive(self, chunk: Seq<u8>) -> (ListenerView, ListenerActionView) {
        let got = self.buffer + chunk;
        match self.stage {
            ListenerStage::ReadingPrefix => if got.len() < 4 {
                self.keep_reading(got)
            } else if declared_length(got) == 0 {
                ListenerView::deliver(Seq::empty())
            } else {
                ListenerView::at(
                    ListenerStage::ReadingPayload { length: declared_length(got) as u32 },
                ).keep_reading(Seq::empty())
            },
            ListenerStage::ReadingPayload { length } => if got.len() < length {
                self.keep_reading(got)
            } else {
                ListenerView::deliver(got)
            },
            _ => (self, ListenerActionView::Nothing),
        }
    }

    /// The listener's transition function: the state that follows and the
    /// action that the driver is to perform, for every state and event.
    ///
    /// An event that the state does not await changes nothing. Bytes are
    /// awaited only while a frame is being read, and then only as many as
    /// are missing: a delivery that is empty or longer is not awaited.
    pub open spec fn step(self, event: ListenerEventView) -> (ListenerView, ListenerActionView) {
        match (self.stage, event) {
            (ListenerStage::Failed { error }, _) => (self, ListenerActionView::Halt { error }),
            (ListenerStage::Idle, ListenerEventView::Bound) => (
                ListenerView::at(ListenerStage::AwaitingConnection),
                ListenerActionView::Accept,
            ),
            (ListenerStage::Idle, ListenerEventView::BindFailed) => ListenerView::fail(
                SessionError::Setup(SetupError::BindFailure),
            ),
            (ListenerStage::AwaitingConnection, ListenerEventView::Accepted) => (
                ListenerView::between_frames(),
                ListenerActionView::Read { at_most: 4 },
            ),
            (ListenerStage::AwaitingConnection, ListenerEventView::AcceptFailed) => ListenerView::fail(
                SessionError::Setup(SetupError::AcceptFailure),
            ),
            (ListenerStage::ReadingPrefix, ListenerEventView::Closed) => ListenerView::fail(
                SessionError::Frame(FrameError::TruncatedLengthPrefix),
            ),
            (ListenerStage::ReadingPayload { .. }, ListenerEventView::Closed) => ListenerView::fail(
                SessionError::Frame(FrameError::TruncatedPayload),
            ),
            (_, ListenerEventView::Received(chunk)) => if 1 <= chunk.len() <= self.wanted() {
                self.receive(chunk)
            } else {
                (self, ListenerActionView::Nothing)
            },
            (ListenerStage::Decoding, ListenerEventView::Parsed(entry)) => (
                ListenerView::at(ListenerStage::Reporting),
                ListenerActionView::Report { found: entry.found },
            ),
            (ListenerStage::Decoding, ListenerEventView::Rejected) => ListenerView::fail(
                SessionError::Decode(DecodeError::SchemaMismatch),
            ),
            (ListenerStage::Reporting, ListenerEventView::Reported) => (
                ListenerView::between_frames(),
                ListenerActionView::Read { at_most: 4 },
            ),
            _ => (self, ListenerActionView::Nothing),
        }
    }
}

impl ListenerStage {
    /// The listener has its connection and is serving it.
    pub open spec fn serving(self) -> bool {
        self is ReadingPrefix || self is ReadingPayload || self is Decoding || self is Reporting
    }
}

/// Every step leaves a well-formed listener well formed.
pub proof fn lemma_step_keeps_well_formed(listener: ListenerView, event: ListenerEventView)
    requires
        listener.well_formed(),
    ensures
        listener.step(event).0.well_formed(),
{
    if let ListenerEventView::Received(chunk) = event {
        if 1 <= chunk.len() <= listener.wanted() && listener.stage is ReadingPrefix && (
        listener.buffer + chunk).len() == 4 {
            let got = listener.buffer + chunk;
            lemma_prefix_round_trip(got[0], got[1], got[2], got[3]);
        }
    }
}

/// A listener serves one connection and no other.
///
/// It asks to accept once, when its address has been bound, and never asks
/// to bind: that is done before its first event. Once it serves its
/// connection it goes on serving until the session fails, and a failed
/// session stays failed with its error.
pub proof fn lemma_one_connection(listener: ListenerView, event: ListenerEventView)
    ensures
        !(listener.step(event).1 is Bind),
        listener.step(event).1 is Accept ==> listener.stage is Idle,
        listener.stage.serving() ==> listener.step(event).0.stage.serving() || listener.step(
            event,
        ).0.stage is Failed,
        listener.stage is Failed ==> listener.step(event).0 == listener,
{
}

/// A session fails only for a reason: every step into failure is taken on
/// an event that reports one, or on the bytes that complete a payload that
/// is not text, and it asks the driver to halt with the error the listener
/// then holds. No step that fails hands anything to the parser or reports
/// an entry.
pub proof fn lemma_failure_has_a_cause(listener: ListenerView, event: ListenerEventView)
    requires
        !(listener.stage is Failed),
        listener.step(event).0.stage is Failed,
    ensures
        listener.step(event).1 == (ListenerActionView::Halt {
            error: listener.step(event).0.stage->error,
        }),
        match listener.step(event).0.stage->error {
            SessionError::Setup(SetupError::BindFailure) => listener.stage is Idle
                && event is BindFailed,
            SessionError::Setup(SetupError::AcceptFailure) => listener.stage is AwaitingConnection
                && event is AcceptFailed,
            SessionError::Frame(FrameError::TruncatedLengthPrefix) => listener.stage
                is ReadingPrefix && event is Closed,
            SessionError::Frame(FrameError::TruncatedPayload) => listener.stage is ReadingPayload
                && event is Closed,
            SessionError::Decode(DecodeError::InvalidEncoding) => event is Received,
            SessionError::Decode(DecodeError::SchemaMismatch) => listener.stage is Decoding
                && event is Rejected,
            _ => false,
        },
{
}

/// The receiving side of one session.
pub struct Listener {
    stage: ListenerStage,
    buffer: Vec<u8>,
}

impl View for Listener {
    type V = ListenerView;

    closed spec fn view(&self) -> ListenerView {
        ListenerView { stage: self.stage, buffer: self.buffer@ }
    }
}

impl Listener {
    #[verifier::type_invariant]
    spec fn holds_a_proper_part(&self) -> bool {
        self@.well_formed()
    }

    /// A listener before its session, and the first thing to do: bind.
    pub fn start() -> (res: (Listener, ListenerAction))
        ensures
            res.0@ == ListenerView::at(ListenerStage::Idle),
            res.1@ == ListenerActionView::Bind,
    {
        (Listener { stage: ListenerStage::Idle, buffer: Vec::new() }, ListenerAction::Bind)
    }

    /// Where the listener stands.
    pub fn stage(&self) -> (stage: ListenerStage)
        ensures
            stage == self@.stage,
    {
        self.stage
    }

}

/// Advances the listener by one event: returns the listener as it then
/// stands and the action that its driver is to perform next.
pub fn server(listener: Listener, event: ListenerEvent) -> (res: (Listener, ListenerAction))
    ensures
        listener@.well_formed(),
        res.0@.well_formed(),
        res.0@ == listener@.step(event@).0,
        res.1@ == listener@.step(event@).1,
{
    proof {
        use_type_invariant(&listener);
    }
    let Listener { stage, buffer } = listener;
    match (stage, event) {
        (ListenerStage::Failed { error }, _) => (
            Listener { stage, buffer },
            ListenerAction::Halt { error },
        ),
        (ListenerStage::Idle, ListenerEvent::Bound) => (
            Listener { stage: ListenerStage::AwaitingConnection, buffer },
            ListenerAction::Accept,
        ),
        (ListenerStage::Idle, ListenerEvent::BindFailed) => halt(
            SessionError::Setup(SetupError::BindFailure),
        ),
        (ListenerStage::AwaitingConnection, ListenerEvent::Accepted) => (
            Listener { stage: ListenerStage::ReadingPrefix, buffer },
            ListenerAction::Read { at_most: PREFIX_LEN },
        ),
        (ListenerStage::AwaitingConnection, ListenerEvent::AcceptFailed) => halt(
            SessionError::Setup(SetupError::AcceptFailure),
        ),
        (ListenerStage::ReadingPrefix, ListenerEvent::Closed) => halt(
            SessionError::Frame(FrameError::TruncatedLengthPrefix),
        ),
        (ListenerStage::ReadingPayload { .. }, ListenerEvent::Closed) => halt(
            SessionError::Frame(FrameError::TruncatedPayload),
        ),
        (ListenerStage::ReadingPrefix, ListenerEvent::Received(chunk)) => {
            if chunk.len() < 1 || chunk.len() > PREFIX_LEN - buffer.len() {
                return (Listener { stage, buffer }, ListenerAction::Nothing);
            }
            let got = joined(buffer, chunk);
            if got.len() < PREFIX_LEN {
                let at_most = PREFIX_LEN - got.len();
                return (Listener { stage, buffer: got }, ListenerAction::Read { at_most });
            }
            let length = be_u32(got[0], got[1], got[2], got[3]);
            if length == 0 {
                deliver(Vec::new())
            } else {
                (
                    Listener { stage: ListenerStage::ReadingPayload { length }, buffer: Vec::new() },
                    ListenerAction::Read { at_most: length as usize },
                )
            }
        },
        (ListenerStage::ReadingPayload { length }, ListenerEvent::Received(chunk)) => {
            if chunk.len() < 1 || chunk.len() > length as usize - buffer.len() {
                return (Listener { stage, buffer }, ListenerAction::Nothing);
            }
            let got = joined(buffer, chunk);
            if got.len() < length as usize {
                let at_most = length as usize - got.len();
                return (Listener { stage, buffer: got }, ListenerAction::Read { at_most });
            }
            deliver(got)
        },
        (ListenerStage::Decoding, ListenerEvent::Parsed(entry)) => (
            Listener { stage: ListenerStage::Reporting, buffer },
            ListenerAction::Report { found: entry.found },
        ),
        (ListenerStage::Decoding, ListenerEvent::Rejected) => halt(
            SessionError::Decode(DecodeError::SchemaMismatch),
        ),
        (ListenerStage::Reporting, ListenerEvent::Reported) => (
            Listener { stage: ListenerStage::ReadingPrefix, buffer },
            ListenerAction::Read { at_most: PREFIX_LEN },
        ),
        (stage, _) => (Listener { stage, buffer }, ListenerAction::Nothing),
    }
}

/// The bytes of `head` followed by those of `tail`.
fn joined(head: Vec<u8>, tail: Vec<u8>) -> (all: Vec<u8>)
    ensures
        all@ == head@ + tail@,
{
    let mut all = head;
    let mut tail = tail;
    all.append(&mut tail);
    all
}

/// Ends the session with `error`.
fn halt(error: SessionError) -> (res: (Listener, ListenerAction))
    ensures
        res.0@ == ListenerView::fail(error).0,
        res.1@ == ListenerView::fail(error).1,
{
    (
        Listener { stage: ListenerStage::Failed { error }, buffer: Vec::new() },
        ListenerAction::Halt { error },
    )
}

/// Hands a whole payload on: as text to the parser, or, if it is not
/// text, to the end of the session.
fn deliver(payload: Vec<u8>) -> (res: (Listener, ListenerAction))
    ensures
        res.0@ == ListenerView::deliver(payload@).0,
        res.1@ == ListenerView::deliver(payload@).1,
{
    match payload_text(payload) {
        Ok(text) => (
            Listener { stage: ListenerStage::Decoding, buffer: Vec::new() },
            ListenerAction::Parse(text),
        ),
        Err(error) => halt(SessionError::Decode(error)),
    }
}

} // verus!
