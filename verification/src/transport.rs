//! A model of the byte stream between a sender and a listener, and what
//! the two state machines are proved to do on it.
//!
//! On the reading side a transport holds the bytes that are still to come.
//! Each read hands the listener a piece from their front: never more than
//! the listener asked for, and at least one byte while any are left. How
//! long each piece is beyond that is the transport's choice, given here as
//! `offers`. The listener takes frames off the stream exactly, however the
//! stream is cut up.
//!
//! On the writing side a transport takes each frame whole or fails. The
//! sender puts its entries on the stream in order, a frame each, and stops
//! at the first failure.

use vstd::prelude::*;
use crate::error::{FrameError, SessionError};
use crate::frame::{
    all_fit, declared_length, frame_of, length_prefix, lemma_length_round_trip,
    lemma_frames_in_order, lemma_prefix_round_trip, lemma_read_what_was_written, parse_frame,
    stream_of,
};
use crate::listener::{ListenerActionView, ListenerEventView, ListenerStage, ListenerView};
use crate::sender::{entry_before, SenderActionView, SenderEventView, SenderStage, SenderView};

verus! {

/// A listener at work on a transport.
#[verifier::ext_equal]
pub ghost struct Reading {
    /// The listener as it stands.
    pub listener: ListenerView,
    /// The action that it handed out last.
    pub action: ListenerActionView,
    /// The bytes that the transport has not handed over.
    pub rest: Seq<u8>,
}

/// The number of bytes that one read hands over, where the transport
/// offers `offer`, the listener asked for `wanted` and `left` are left: as
/// many as are offered, but no more than were asked for or are left. A
/// read hands over a byte at least while one is left, so an offer of
/// nothing counts as an offer of one byte.
pub open spec fn delivered(offer: nat, wanted: nat, left: nat) -> nat {
    let limit = if wanted <= left {
        wanted
    } else {
        left
    };
    if offer < 1 {
        if limit < 1 {
            limit
        } else {
            1
        }
    } else if offer <= limit {
        offer
    } else {
        limit
    }
}

/// The listener reads from the transport until it no longer asks for bytes:
/// until a payload is complete or the stream has ended. The read number
/// `turn + k` is offered `offers(turn + k)` bytes.
pub open spec fn read_on(reading: Reading, offers: spec_fn(nat) -> nat, turn: nat) -> Reading
    decreases reading.rest.len(),
{
    let Reading { listener, action, rest } = reading;
    if listener.wanted() == 0 {
        reading
    } else if rest.len() == 0 {
        let (next, action) = listener.step(ListenerEventView::Closed);
        Reading { listener: next, action, rest }
    } else {
        let count = delivered(offers(turn), listener.wanted(), rest.len());
        let (next, action) = listener.step(ListenerEventView::Received(rest.take(count as int)));
        read_on(Reading { listener: next, action, rest: rest.skip(count as int) }, offers, turn + 1)
    }
}

/// How reading one frame off `stream` must end: with the payload handed on
/// and the bytes behind the frame untouched, or, where the stream ends
/// inside the frame, with the session failed and nothing left.
pub open spec fn frame_read(stream: Seq<u8>) -> Reading {
    match parse_frame(stream) {
        Ok((payload, consumed)) => Reading {
            listener: ListenerView::deliver(payload).0,
            action: ListenerView::deliver(payload).1,
            rest: stream.skip(consumed as int),
        },
        Err(error) => Reading {
            listener: ListenerView::fail(SessionError::Frame(error)).0,
            action: ListenerView::fail(SessionError::Frame(error)).1,
            rest: Seq::empty(),
        },
    }
}

/// The bytes of the frame in hand that the listener has taken so far.
pub open spec fn taken(listener: ListenerView) -> Seq<u8> {
    match listener.stage {
        ListenerStage::ReadingPayload { length } => length_prefix(length as nat) + listener.buffer,
        _ => listener.buffer,
    }
}

/// The stage at which a listener reads a frame.
pub open spec fn reading_a_frame(listener: ListenerView) -> bool {
    &&& listener.well_formed()
    &&& listener.stage is ReadingPrefix || listener.stage is ReadingPayload
}

/// Where the stream ends while a frame is being read, the session fails
/// as reading the bytes taken so far fails.
proof fn lemma_closed(listener: ListenerView)
    requires
        reading_a_frame(listener),
    ensures
        frame_read(taken(listener)) == (Reading {
            listener: listener.step(ListenerEventView::Closed).0,
            action: listener.step(ListenerEventView::Closed).1,
            rest: Seq::empty(),
        }),
{
    if let ListenerStage::ReadingPayload { length } = listener.stage {
        lemma_length_round_trip(length as nat);
        assert(declared_length(taken(listener)) == length);
    }
}

/// The bytes `got` complete the prefix of a frame with a payload.
proof fn lemma_prefix_complete(got: Seq<u8>)
    requires
        got.len() == 4,
    ensures
        declared_length(got) <= u32::MAX,
        length_prefix(declared_length(got)) == got,
{
    lemma_prefix_round_trip(got[0], got[1], got[2], got[3]);
    assert(length_prefix(declared_length(got)) =~= got);
}

/// One delivery either leaves the listener partway through the frame,
/// with the delivered bytes taken, or completes the frame.
proof fn lemma_received(listener: ListenerView, chunk: Seq<u8>, rest: Seq<u8>)
    requires
        reading_a_frame(listener),
        1 <= chunk.len() <= listener.wanted(),
    ensures
        ({
            let (next, action) = listener.step(ListenerEventView::Received(chunk));
            if next.wanted() > 0 {
                reading_a_frame(next) && taken(next) == taken(listener) + chunk
            } else {
                frame_read(taken(listener) + chunk + rest) == (Reading { listener: next, action, rest })
            }
        }),
{
    let (next, action) = listener.step(ListenerEventView::Received(chunk));
    let got = listener.buffer + chunk;
    let whole = taken(listener) + chunk + rest;
    match listener.stage {
        ListenerStage::ReadingPrefix => {
            if got.len() < 4 {
                assert(taken(next) =~= taken(listener) + chunk);
            } else {
                lemma_prefix_complete(got);
                assert(whole =~= got + rest);
                assert(declared_length(whole) == declared_length(got));
                if declared_length(got) == 0 {
                    assert(whole.subrange(4, 4) =~= Seq::<u8>::empty());
                    assert(whole.skip(4) =~= rest);
                } else {
                    assert(taken(next) =~= taken(listener) + chunk);
                }
            }
        },
        ListenerStage::ReadingPayload { length } => {
            if got.len() < length {
                assert(taken(next) =~= taken(listener) + chunk);
            } else {
                assert(whole =~= frame_of(got) + rest);
                lemma_read_what_was_written(got, rest);
                assert(whole.skip(4 + length) =~= rest);
            }
        },
        _ => {},
    }
}

/// A listener that is partway through a frame ends as if the bytes it has
/// taken were still at the front of the stream.
proof fn lemma_read_on(reading: Reading, offers: spec_fn(nat) -> nat, turn: nat)
    requires
        reading_a_frame(reading.listener),
    ensures
        read_on(reading, offers, turn) == frame_read(taken(reading.listener) + reading.rest),
    decreases reading.rest.len(),
{
    let Reading { listener, action, rest } = reading;
    if rest.len() == 0 {
        lemma_closed(listener);
        assert(taken(listener) + rest =~= taken(listener));
    } else {
        let count = delivered(offers(turn), listener.wanted(), rest.len());
        let chunk = rest.take(count as int);
        let (next, handed) = listener.step(ListenerEventView::Received(chunk));
        let after = Reading { listener: next, action: handed, rest: rest.skip(count as int) };
        assert(read_on(reading, offers, turn) == read_on(after, offers, turn + 1));
        lemma_received(listener, chunk, after.rest);
        assert(taken(listener) + chunk + after.rest =~= taken(listener) + rest);
        if next.wanted() > 0 {
            lemma_read_on(after, offers, turn + 1);
        }
    }
}

/// Reading a frame is exact, however the stream is cut up.
///
/// A listener that stands between two frames and reads from a transport
/// ends in the same way for every choice of `offers`, one byte at a time
/// or all at once. Where `stream` begins with a whole frame, the listener
/// takes exactly the frame's bytes, four more than the prefix declares,
/// hands on exactly its payload and leaves the rest of the stream
/// untouched. Where the stream ends inside the prefix, the session fails
/// with `TruncatedLengthPrefix`; where it ends behind the prefix and
/// inside the payload, with `TruncatedPayload`.
pub proof fn lemma_reading_is_exact(
    action: ListenerActionView,
    stream: Seq<u8>,
    offers: spec_fn(nat) -> nat,
)
    ensures
        ({
            let end = read_on(
                Reading { listener: ListenerView::between_frames(), action, rest: stream },
                offers,
                0,
            );
            &&& end == frame_read(stream)
            &&& parse_frame(stream) is Ok ==> stream.len() - end.rest.len() == 4 + declared_length(
                stream,
            )
            &&& stream.len() < 4 ==> end.action == (ListenerActionView::Halt {
                error: SessionError::Frame(FrameError::TruncatedLengthPrefix),
            })
            &&& 4 <= stream.len() < 4 + declared_length(stream) ==> end.action == (
            ListenerActionView::Halt {
                error: SessionError::Frame(FrameError::TruncatedPayload),
            })
        }),
{
    let reading = Reading { listener: ListenerView::between_frames(), action, rest: stream };
    assert(taken(reading.listener) + stream =~= stream);
    lemma_read_on(reading, offers, 0);
}

/// What was framed is what is read: a listener that reads the stream of
/// `payloads`, cut up in any way, is handed the first payload whole and
/// leaves the frames of the others, and whatever follows them, untouched.
pub proof fn lemma_reads_what_was_framed(
    action: ListenerActionView,
    payloads: Seq<Seq<u8>>,
    more: Seq<u8>,
    offers: spec_fn(nat) -> nat,
)
    requires
        payloads.len() > 0,
        all_fit(payloads),
    ensures
        read_on(
            Reading {
                listener: ListenerView::between_frames(),
                action,
                rest: stream_of(payloads) + more,
            },
            offers,
            0,
        ) == (Reading {
            listener: ListenerView::deliver(payloads.first()).0,
            action: ListenerView::deliver(payloads.first()).1,
            rest: stream_of(payloads.drop_first()) + more,
        }),
{
    lemma_frames_in_order(payloads, more);
    lemma_reading_is_exact(action, stream_of(payloads) + more, offers);
}

/// A sender at work on a transport.
#[verifier::ext_equal]
pub ghost struct Sending {
    /// The sender as it stands.
    pub sender: SenderView,
    /// The action that it handed out last.
    pub action: SenderActionView,
    /// The bytes that the transport has taken.
    pub written: Seq<u8>,
}

/// The number of events that a sender is from the end of a session in
/// which nothing fails.
pub open spec fn events_left(sender: SenderView) -> nat {
    match sender.stage {
        SenderStage::Encoding { index } => if index < sender.total {
            (2 * (sender.total - index)) as nat
        } else {
            0
        },
        SenderStage::Writing { index } => if index < sender.total {
            (2 * (sender.total - index) - 1) as nat
        } else {
            0
        },
        _ => 0,
    }
}

/// The bytes that an action asks to have written.
pub open spec fn frame_in_hand(action: SenderActionView) -> Seq<u8> {
    match action {
        SenderActionView::Write(frame) => frame,
        _ => Seq::empty(),
    }
}

/// A connected sender is served until its session is over. Asked for the
/// entry at `i`, the driver hands in `encodings[i]`. The transport takes
/// every frame but that of the entry at `breaks_at`, on which it fails.
pub open spec fn send_on(sending: Sending, encodings: Seq<Seq<u8>>, breaks_at: Option<nat>) -> Sending
    decreases events_left(sending.sender),
{
    let Sending { sender, action, written } = sending;
    match sender.stage {
        SenderStage::Encoding { index } => if index < sender.total {
            let (next, action) = sender.step(SenderEventView::Encoded(encodings[index as int]));
            send_on(Sending { sender: next, action, written }, encodings, breaks_at)
        } else {
            sending
        },
        SenderStage::Writing { index } => if index < sender.total {
            if breaks_at == Some(index as nat) {
                let (next, action) = sender.step(SenderEventView::WriteFailed);
                send_on(Sending { sender: next, action, written }, encodings, breaks_at)
            } else {
                let (next, handed) = sender.step(SenderEventView::Written);
                send_on(
                    Sending { sender: next, action: handed, written: written + frame_in_hand(action) },
                    encodings,
                    breaks_at,
                )
            }
        } else {
            sending
        },
        _ => sending,
    }
}

/// How a session of `total` entries must end: with all of them on the
/// stream, or, where the write of the entry at `breaks_at` fails, with
/// those before it on the stream and the last of them named.
pub open spec fn session_sent(total: usize, encodings: Seq<Seq<u8>>, breaks_at: Option<nat>) -> Sending {
    let begun = SenderView { stage: SenderStage::Connecting, total };
    if breaks_at is Some && breaks_at->Some_0 < total {
        let index = breaks_at->Some_0 as usize;
        let error = SessionError::Frame(FrameError::WriteFailure);
        Sending {
            sender: begun.abort(error, entry_before(index)).0,
            action: begun.abort(error, entry_before(index)).1,
            written: stream_of(encodings.take(index as int)),
        }
    } else {
        Sending {
            sender: begun.at(SenderStage::Finished),
            action: SenderActionView::Finish { sent: total },
            written: stream_of(encodings),
        }
    }
}

/// A sender that has the entries before `index` on the stream ends its
/// session as it must.
proof fn lemma_send_on(total: usize, index: usize, encodings: Seq<Seq<u8>>, breaks_at: Option<nat>)
    requires
        encodings.len() == total,
        all_fit(encodings),
        index <= total,
        breaks_at is Some ==> index <= breaks_at->Some_0,
    ensures
        send_on(
            Sending {
                sender: (SenderView { stage: SenderStage::Connecting, total }).proceed(index).0,
                action: (SenderView { stage: SenderStage::Connecting, total }).proceed(index).1,
                written: stream_of(encodings.take(index as int)),
            },
            encodings,
            breaks_at,
        ) == session_sent(total, encodings, breaks_at),
    decreases total - index,
{
    let begun = SenderView { stage: SenderStage::Connecting, total };
    let written = stream_of(encodings.take(index as int));
    let start = Sending { sender: begun.proceed(index).0, action: begun.proceed(index).1, written };
    if index < total {
        let payload = encodings[index as int];
        let writing = Sending {
            sender: begun.at(SenderStage::Writing { index }),
            action: SenderActionView::Write(frame_of(payload)),
            written,
        };
        assert(send_on(start, encodings, breaks_at) == send_on(writing, encodings, breaks_at));
        if breaks_at == Some(index as nat) {
            let aborted = session_sent(total, encodings, breaks_at);
            assert(send_on(writing, encodings, breaks_at) == send_on(
                aborted,
                encodings,
                breaks_at,
            ));
        } else {
            let next = (index + 1) as usize;
            let onward = Sending {
                sender: begun.proceed(next).0,
                action: begun.proceed(next).1,
                written: written + frame_of(payload),
            };
            assert(send_on(writing, encodings, breaks_at) == send_on(onward, encodings, breaks_at));
            assert(stream_of(encodings.take(next as int)) == onward.written) by {
                assert(encodings.take(next as int).drop_last() =~= encodings.take(index as int));
                assert(encodings.take(next as int).last() == payload);
            }
            lemma_send_on(total, next, encodings, breaks_at);
        }
    } else {
        assert(encodings.take(index as int) =~= encodings);
    }
}

/// Entries go out in order, a frame each, and the first failure ends the
/// session.
///
/// A sender of `total` entries that connects and is handed `encodings[i]`
/// for the entry at `i` puts the frames of the entries on the stream in the
/// order of their indices and finishes. Where the write of the entry at
/// `breaks_at` fails, the frames of the entries before it are on the
/// stream, no byte of a later one is, and the session is aborted with
/// `WriteFailure` and the index of the last entry sent.
pub proof fn lemma_sends_in_order(total: usize, encodings: Seq<Seq<u8>>, breaks_at: Option<nat>)
    requires
        encodings.len() == total,
        all_fit(encodings),
    ensures
        ({
            let begun = SenderView { stage: SenderStage::Connecting, total };
            let (sender, action) = begun.step(SenderEventView::Connected);
            send_on(Sending { sender, action, written: Seq::empty() }, encodings, breaks_at)
                == session_sent(total, encodings, breaks_at)
        }),
{
    assert(encodings.take(0) =~= Seq::<Seq<u8>>::empty());
    lemma_send_on(total, 0, encodings, breaks_at);
}

} // verus!
