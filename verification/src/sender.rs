//! The sending side of a session, as a state machine.
//!
//! The driver connects, encodes the entry it is asked for, writes the frame
//! it is handed, and reports back each time. Entries go out in the order of
//! their indices, one frame each, and the first failure ends the session.

use vstd::prelude::*;
use crate::error::{FrameError, SessionError, SetupError};
use crate::frame::{frame_of, write_frame};

verus! {

/// Where a sender stands in its session.
#[derive(Clone, Copy, Debug, PartialEq, Eq, Structural)]
pub enum SenderStage {
    /// The connection is being opened.
    Connecting,
    /// The entry at `index` is being encoded.
    Encoding { index: usize },
    /// The frame of the entry at `index` is being written.
    Writing { index: usize },
    /// Every entry was sent.
    Finished,
    /// The session failed. `last_sent` is the index of the last entry that
    /// was sent in full, if there is one.
    Aborted { error: SessionError, last_sent: Option<usize> },
}

/// What a sender awaits from its driver.
#[derive(Debug, PartialEq, Eq)]
pub enum SenderEvent {
    /// The connection is open.
    Connected,
    /// The listener could not be reached.
    ConnectFailed,
    /// The entry that was asked for, as the bytes of its JSON text.
    Encoded(Vec<u8>),
    /// The frame was written in full.
    Written,
    /// The stream failed before the frame was written in full.
    WriteFailed,
}

/// What a sender asks of its driver.
#[derive(Debug, PartialEq, Eq)]
pub enum SenderAction {
    /// Open the connection.
    Connect,
    /// Encode the entry at `index`.
    Encode { index: usize },
    /// Write these bytes, all of them, before reporting success.
    Write(Vec<u8>),
    /// All `sent` entries are out: the session is done.
    Finish { sent: usize },
    /// Give up and tell the caller the error and the last entry sent.
    Abort { error: SessionError, last_sent: Option<usize> },
    /// The event was not awaited: carry on with the action handed out before.
    Nothing,
}

/// A sender as contracts see it.
pub ghost struct SenderView {
    pub stage: SenderStage,
    /// The number of entries to send.
    pub total: usize,
}

/// An event as contracts see it.
#[verifier::ext_equal]
pub ghost enum SenderEventView {
    Connected,
    ConnectFailed,
    Encoded(Seq<u8>),
    Written,
    WriteFailed,
}

/// An action as contracts see it.
#[verifier::ext_equal]
pub ghost enum SenderActionView {
    Connect,
    Encode { index: usize },
    Write(Seq<u8>),
    Finish { sent: usize },
    Abort { error: SessionError, last_sent: Option<usize> },
    Nothing,
}

impl View for SenderEvent {
    type V = SenderEventView;

    open spec fn view(&self) -> SenderEventView {
        match self {
            SenderEvent::Connected => SenderEventView::Connected,
            SenderEvent::ConnectFailed => SenderEventView::ConnectFailed,
            SenderEvent::Encoded(payload) => SenderEventView::Encoded(payload@),
            SenderEvent::Written => SenderEventView::Written,
            SenderEvent::WriteFailed => SenderEventView::WriteFailed,
        }
    }
}

impl View for SenderAction {
    type V = SenderActionView;

    open spec fn view(&self) -> SenderActionView {
        match self {
            SenderAction::Connect => SenderActionView::Connect,
            SenderAction::Encode { index } => SenderActionView::Encode { index: *index },
            SenderAction::Write(frame) => SenderActionView::Write(frame@),
            SenderAction::Finish { sent } => SenderActionView::Finish { sent: *sent },
            SenderAction::Abort { error, last_sent } => SenderActionView::Abort {
                error: *error,
                last_sent: *last_sent,
            },
            SenderAction::Nothing => SenderActionView::Nothing,
        }
    }
}

/// The index of the entry before the one at `index`, if there is one.
pub open spec fn entry_before(index: usize) -> Option<usize> {
    if index == 0 {
        None
    } else {
        Some((index - 1) as usize)
    }
}

impl SenderView {
    /// The entry that is being encoded or written is one of the `total`.
    pub open spec fn well_formed(self) -> bool {
        match self.stage {
            SenderStage::Encoding { index } => index < self.total,
            SenderStage::Writing { index } => index < self.total,
            _ => true,
        }
    }

    /// The same sender at another stage.
    pub open spec fn at(self, stage: SenderStage) -> SenderView {
        SenderView { stage, total: self.total }
    }

    /// The entries before `index` are out: the one at `index` is next, or,
    /// if there is none, the session is done.
    pub open spec fn proceed(self, index: usize) -> (SenderView, SenderActionView) {
        if index < self.total {
            (self.at(SenderStage::Encoding { index }), SenderActionView::Encode { index })
        } else {
            (self.at(SenderStage::Finished), SenderActionView::Finish { sent: self.total })
        }
    }

    /// The session fails with `error`, and `last_sent` is the last entry
    /// that went out whole.
    pub open spec fn abort(self, error: SessionError, last_sent: Option<usize>) -> (
        SenderView,
        SenderActionView,
    ) {
        (
            self.at(SenderStage::Aborted { error, last_sent }),
            SenderActionView::Abort { error, last_sent },
        )
    }

    /// The sender's transition function: the state that follows and the
    /// action that the driver is to perform, for every state and event.
    ///
    /// An event that the state does not await changes nothing. An entry
    /// whose encoding is too long for a frame cannot be written, and fails
    /// as a write does.
    pub open spec fn step(self, event: SenderEventView) -> (SenderView, SenderActionView) {
        match (self.stage, event) {
            (SenderStage::Finished, _) => (self, SenderActionView::Finish { sent: self.total }),
            (SenderStage::Aborted { error, last_sent }, _) => (
                self,
                SenderActionView::Abort { error, last_sent },
            ),
            (SenderStage::Connecting, SenderEventView::Connected) => self.proceed(0),
            (SenderStage::Connecting, SenderEventView::ConnectFailed) => self.abort(
                SessionError::Setup(SetupError::ConnectFailure),
                None,
            ),
            (SenderStage::Encoding { index }, SenderEventView::Encoded(payload)) => if payload.len()
                <= u32::MAX {
                (self.at(SenderStage::Writing { index }), SenderActionView::Write(frame_of(payload)))
            } else {
                self.abort(SessionError::Frame(FrameError::WriteFailure), entry_before(index))
            },
            (SenderStage::Writing { index }, SenderEventView::Written) => self.proceed(
                (index + 1) as usize,
            ),
            (SenderStage::Writing { index }, SenderEventView::WriteFailed) => self.abort(
                SessionError::Frame(FrameError::WriteFailure),
                entry_before(index),
            ),
            _ => (self, SenderActionView::Nothing),
        }
    }
}

/// The sending side of one session.
pub struct Sender {
    stage: SenderStage,
    total: usize,
}

impl View for Sender {
    type V = SenderView;

    closed spec fn view(&self) -> SenderView {
        SenderView { stage: self.stage, total: self.total }
    }
}

impl Sender {
    #[verifier::type_invariant]
    spec fn entry_in_hand_exists(&self) -> bool {
        self@.well_formed()
    }

    /// A sender with `total` entries to send, and the first thing to do: connect.
    pub fn start(total: usize) -> (res: (Sender, SenderAction))
        ensures
            res.0@ == (SenderView { stage: SenderStage::Connecting, total }),
            res.1@ == SenderActionView::Connect,
    {
        (Sender { stage: SenderStage::Connecting, total }, SenderAction::Connect)
    }

    /// Where the sender stands.
    pub fn stage(&self) -> (stage: SenderStage)
        ensures
            stage == self@.stage,
    {
        self.stage
    }

    /// The number of entries to send.
    pub fn total(&self) -> (total: usize)
        ensures
            total == self@.total,
    {
        self.total
    }

    /// Goes on to the entry at `index`, or finishes if there is none.
    fn proceed(self, index: usize) -> (res: (Sender, SenderAction))
        ensures
            res.0@ == self@.proceed(index).0,
            res.1@ == self@.proceed(index).1,
    {
        let total = self.total;
        if index < total {
            (Sender { stage: SenderStage::Encoding { index }, total }, SenderAction::Encode { index })
        } else {
            (Sender { stage: SenderStage::Finished, total }, SenderAction::Finish { sent: total })
        }
    }

    /// Fails with `error`.
    fn abort(self, error: SessionError, last_sent: Option<usize>) -> (res: (Sender, SenderAction))
        ensures
            res.0@ == self@.abort(error, last_sent).0,
            res.1@ == self@.abort(error, last_sent).1,
    {
        (
            Sender { stage: SenderStage::Aborted { error, last_sent }, total: self.total },
            SenderAction::Abort { error, last_sent },
        )
    }
}

/// The index before `index`, if there is one.
fn before(index: usize) -> (last: Option<usize>)
    ensures
        last == entry_before(index),
{
    if index == 0 {
        None
    } else {
        Some(index - 1)
    }
}

/// Advances the sender by one event: returns the sender as it then stands
/// and the action that its driver is to perform next.
pub fn client(sender: Sender, event: SenderEvent) -> (res: (Sender, SenderAction))
    ensures
        sender@.well_formed(),
        res.0@.well_formed(),
        res.0@ == sender@.step(event@).0,
        res.1@ == sender@.step(event@).1,
{
    proof {
        use_type_invariant(&sender);
    }
    let stage = sender.stage;
    let total = sender.total;
    match (stage, event) {
        (SenderStage::Finished, _) => (sender, SenderAction::Finish { sent: total }),
        (SenderStage::Aborted { error, last_sent }, _) => (
            sender,
            SenderAction::Abort { error, last_sent },
        ),
        (SenderStage::Connecting, SenderEvent::Connected) => sender.proceed(0),
        (SenderStage::Connecting, SenderEvent::ConnectFailed) => sender.abort(
            SessionError::Setup(SetupError::ConnectFailure),
            None,
        ),
        (SenderStage::Encoding { index }, SenderEvent::Encoded(payload)) => {
            match write_frame(payload.as_slice()) {
                Some(frame) => (
                    Sender { stage: SenderStage::Writing { index }, total },
                    SenderAction::Write(frame),
                ),
                None => sender.abort(SessionError::Frame(FrameError::WriteFailure), before(index)),
            }
        },
        (SenderStage::Writing { index }, SenderEvent::Written) => sender.proceed(index + 1),
        (SenderStage::Writing { index }, SenderEvent::WriteFailed) => sender.abort(
            SessionError::Frame(FrameError::WriteFailure),
            before(index),
        ),
        _ => (sender, SenderAction::Nothing),
    }
}

} // verus!
