//! The frame codec: a 4-byte big-endian length, then that many payload bytes.

use vstd::prelude::*;
use vstd::arithmetic::div_mod::lemma_fundamental_div_mod_converse;
use vstd::slice::{slice_subrange, slice_to_vec};
use crate::error::FrameError;

verus! {

/// The number of bytes in a length prefix.
pub const PREFIX_LEN: usize = 4;

/// The number that four bytes spell when read most significant byte first.
pub open spec fn be_value(b0: u8, b1: u8, b2: u8, b3: u8) -> nat {
    (b0 * 0x100_0000 + b1 * 0x1_0000 + b2 * 0x100 + b3) as nat
}

/// The length that the first four bytes of `bytes` declare.
pub open spec fn declared_length(bytes: Seq<u8>) -> nat
    recommends
        bytes.len() >= 4,
{
    be_value(bytes[0], bytes[1], bytes[2], bytes[3])
}

/// The four bytes that spell `n`, most significant byte first.
pub open spec fn length_prefix(n: nat) -> Seq<u8>
    recommends
        n <= u32::MAX,
{
    seq![
        (n / 0x100_0000) as u8,
        ((n / 0x1_0000) % 0x100) as u8,
        ((n / 0x100) % 0x100) as u8,
        (n % 0x100) as u8,
    ]
}

/// The bytes of the frame that carries `payload`.
pub open spec fn frame_of(payload: Seq<u8>) -> Seq<u8>
    recommends
        payload.len() <= u32::MAX,
{
    length_prefix(payload.len()) + payload
}

/// What reading one frame off the front of `stream` yields: the payload and
/// the number of bytes the frame occupied, or the reason no frame is there.
pub open spec fn parse_frame(stream: Seq<u8>) -> Result<(Seq<u8>, nat), FrameError> {
    if stream.len() < 4 {
        Err(FrameError::TruncatedLengthPrefix)
    } else if stream.len() < 4 + declared_length(stream) {
        Err(FrameError::TruncatedPayload)
    } else {
        Ok((stream.subrange(4, 4 + declared_length(stream) as int), 4 + declared_length(stream)))
    }
}

/// Reading back the prefix written for `n` gives `n`.
pub proof fn lemma_length_round_trip(n: nat)
    requires
        n <= u32::MAX,
    ensures
        length_prefix(n).len() == 4,
        declared_length(length_prefix(n)) == n,
{
    let q1 = n as int / 0x100;
    let q2 = q1 / 0x100;
    let q3 = q2 / 0x100;
    lemma_fundamental_div_mod_converse(n as int, 0x1_0000, q2, (q1 % 0x100) * 0x100 + n % 0x100);
    lemma_fundamental_div_mod_converse(
        n as int,
        0x100_0000,
        q3,
        (q2 % 0x100) * 0x1_0000 + (q1 % 0x100) * 0x100 + n % 0x100,
    );
    assert(q3 < 0x100);
}

/// Writing the prefix for the number that four bytes spell gives those bytes back.
pub proof fn lemma_prefix_round_trip(b0: u8, b1: u8, b2: u8, b3: u8)
    ensures
        0 <= be_value(b0, b1, b2, b3) <= u32::MAX,
        length_prefix(be_value(b0, b1, b2, b3)) == seq![b0, b1, b2, b3],
{
    let n = be_value(b0, b1, b2, b3) as int;
    lemma_fundamental_div_mod_converse(n, 0x100, b0 * 0x1_0000 + b1 * 0x100 + b2, b3 as int);
    lemma_fundamental_div_mod_converse(n / 0x100, 0x100, b0 * 0x100 + b1, b2 as int);
    lemma_fundamental_div_mod_converse(n, 0x1_0000, b0 * 0x100 + b1, b2 * 0x100 + b3);
    lemma_fundamental_div_mod_converse(n / 0x1_0000, 0x100, b0 as int, b1 as int);
    lemma_fundamental_div_mod_converse(
        n,
        0x100_0000,
        b0 as int,
        b1 * 0x1_0000 + b2 * 0x100 + b3,
    );
    assert(length_prefix(n as nat) =~= seq![b0, b1, b2, b3]);
}

/// A frame is four bytes longer than its payload.
pub proof fn lemma_frame_length(payload: Seq<u8>)
    ensures
        frame_of(payload).len() == 4 + payload.len(),
        frame_of(payload).skip(4) == payload,
{
    assert(frame_of(payload).skip(4) =~= payload);
}

/// A frame that was written is read back as it was: the payload comes out
/// unchanged, the frame is found to occupy four bytes more than the payload,
/// and whatever follows it in the stream plays no part.
pub proof fn lemma_read_what_was_written(payload: Seq<u8>, rest: Seq<u8>)
    requires
        payload.len() <= u32::MAX,
    ensures
        parse_frame(frame_of(payload) + rest) == Ok::<(Seq<u8>, nat), FrameError>(
            (payload, 4 + payload.len()),
        ),
{
    let stream = frame_of(payload) + rest;
    lemma_length_round_trip(payload.len());
    assert(stream.subrange(4, 4 + payload.len() as int) =~= payload);
}

/// A frame occupies exactly four bytes more than its prefix declares, and
/// reading it depends on those bytes alone: appending to a stream that
/// holds a whole frame changes neither the payload nor the count.
pub proof fn lemma_frame_is_exact(stream: Seq<u8>, more: Seq<u8>)
    requires
        parse_frame(stream) is Ok,
    ensures
        parse_frame(stream)->Ok_0.1 == 4 + declared_length(stream),
        parse_frame(stream)->Ok_0.0.len() == declared_length(stream),
        parse_frame(stream)->Ok_0.0 + stream.skip(parse_frame(stream)->Ok_0.1 as int) == stream.skip(4),
        parse_frame(stream + more) == parse_frame(stream),
{
    let length = declared_length(stream) as int;
    let longer = stream + more;
    assert(longer.subrange(4, 4 + length) =~= stream.subrange(4, 4 + length));
    assert(stream.subrange(4, 4 + length) + stream.skip(4 + length) =~= stream.skip(4));
}

/// A stream that ends inside a frame is told apart by where it ends: inside
/// the prefix, or behind the prefix and before the last payload byte.
pub proof fn lemma_truncation(stream: Seq<u8>)
    ensures
        stream.len() < 4 <==> parse_frame(stream) == Err::<(Seq<u8>, nat), FrameError>(
            FrameError::TruncatedLengthPrefix,
        ),
        4 <= stream.len() < 4 + declared_length(stream) <==> parse_frame(stream) == Err::<
            (Seq<u8>, nat),
            FrameError,
        >(FrameError::TruncatedPayload),
        parse_frame(stream) != Err::<(Seq<u8>, nat), FrameError>(FrameError::WriteFailure),
{
}

/// The stream that carries `payloads` one after the other, a frame each.
pub open spec fn stream_of(payloads: Seq<Seq<u8>>) -> Seq<u8>
    decreases payloads.len(),
{
    if payloads.len() == 0 {
        Seq::empty()
    } else {
        stream_of(payloads.drop_last()) + frame_of(payloads.last())
    }
}

/// Every payload fits a frame.
pub open spec fn all_fit(payloads: Seq<Seq<u8>>) -> bool {
    forall|i: int| 0 <= i < payloads.len() ==> (#[trigger] payloads[i]).len() <= u32::MAX
}

/// The stream of a non-empty list of payloads is the frame of the first
/// followed by the stream of the others.
pub proof fn lemma_stream_unfolds(payloads: Seq<Seq<u8>>)
    requires
        payloads.len() > 0,
    ensures
        stream_of(payloads) == frame_of(payloads.first()) + stream_of(payloads.drop_first()),
    decreases payloads.len(),
{
    if payloads.len() == 1 {
        assert(payloads.drop_last() =~= Seq::<Seq<u8>>::empty());
        assert(payloads.drop_first() =~= Seq::<Seq<u8>>::empty());
        assert(stream_of(payloads) =~= frame_of(payloads.first()) + stream_of(
            payloads.drop_first(),
        ));
    } else {
        let front = payloads.drop_last();
        lemma_stream_unfolds(front);
        assert(front.drop_first() =~= payloads.drop_first().drop_last());
        assert(payloads.drop_first().last() == payloads.last());
        assert(front.first() == payloads.first());
        assert(stream_of(payloads) =~= frame_of(payloads.first()) + stream_of(
            payloads.drop_first(),
        ));
    }
}

/// Frames that follow one another are read in the order in which they were
/// written, and no byte of one is taken for another: the first read of the
/// stream of `payloads` yields the first payload and leaves the stream of
/// the others, with whatever came behind.
pub proof fn lemma_frames_in_order(payloads: Seq<Seq<u8>>, more: Seq<u8>)
    requires
        payloads.len() > 0,
        all_fit(payloads),
    ensures
        parse_frame(stream_of(payloads) + more) == Ok::<(Seq<u8>, nat), FrameError>(
            (payloads.first(), 4 + payloads.first().len()),
        ),
        (stream_of(payloads) + more).skip(4 + payloads.first().len() as int) == stream_of(
            payloads.drop_first(),
        ) + more,
{
    let first = payloads.first();
    let rest = stream_of(payloads.drop_first()) + more;
    let frame = frame_of(first);
    lemma_stream_unfolds(payloads);
    lemma_read_what_was_written(first, rest);
    lemma_frame_length(first);
    assert(stream_of(payloads) + more == frame + rest) by {
        assert((frame + stream_of(payloads.drop_first())) + more =~= frame + rest);
    }
    assert((frame + rest).skip(frame.len() as int) =~= rest);
}

/// Reads four prefix bytes as the payload length they declare.
pub fn decode_length(prefix: [u8; 4]) -> (length: u32)
    ensures
        length == declared_length(prefix@),
{
    be_u32(prefix[0], prefix[1], prefix[2], prefix[3])
}

/// The number that four bytes spell, most significant first.
pub(crate) fn be_u32(b0: u8, b1: u8, b2: u8, b3: u8) -> (n: u32)
    ensures
        n == be_value(b0, b1, b2, b3),
{
    (b0 as u32) * 0x100_0000 + (b1 as u32) * 0x1_0000 + (b2 as u32) * 0x100 + (b3 as u32)
}

/// The prefix that declares a payload of `length` bytes.
pub fn encode_length(length: u32) -> (prefix: [u8; 4])
    ensures
        prefix@ == length_prefix(length as nat),
{
    [
        (length / 0x100_0000) as u8,
        ((length / 0x1_0000) % 0x100) as u8,
        ((length / 0x100) % 0x100) as u8,
        (length % 0x100) as u8,
    ]
}

/// The frame that carries `payload`, or nothing where the payload is longer
/// than a length prefix can declare.
pub fn write_frame(payload: &[u8]) -> (frame: Option<Vec<u8>>)
    ensures
        match frame {
            Some(bytes) => payload@.len() <= u32::MAX && bytes@ == frame_of(payload@),
            None => payload@.len() > u32::MAX,
        },
{
    if payload.len() > u32::MAX as usize {
        return None;
    }
    let prefix = encode_length(payload.len() as u32);
    let mut bytes: Vec<u8> = Vec::new();
    bytes.push(prefix[0]);
    bytes.push(prefix[1]);
    bytes.push(prefix[2]);
    bytes.push(prefix[3]);
    bytes.extend_from_slice(payload);
    assert(bytes@ =~= frame_of(payload@));
    Some(bytes)
}

/// Reads one frame off the front of `stream`: its payload and the number of
/// bytes it occupied, which is four more than the payload's length. Bytes
/// behind the frame are left alone.
pub fn read_frame(stream: &[u8]) -> (res: Result<(Vec<u8>, usize), FrameError>)
    ensures
        match res {
            Ok((payload, consumed)) => parse_frame(stream@) == Ok::<(Seq<u8>, nat), FrameError>(
                (payload@, consumed as nat),
            ),
            Err(e) => parse_frame(stream@) == Err::<(Seq<u8>, nat), FrameError>(e),
        },
{
    if stream.len() < PREFIX_LEN {
        return Err(FrameError::TruncatedLengthPrefix);
    }
    let length = be_u32(stream[0], stream[1], stream[2], stream[3]) as usize;
    if stream.len() - PREFIX_LEN < length {
        return Err(FrameError::TruncatedPayload);
    }
    let end = PREFIX_LEN + length;
    let payload = slice_to_vec(slice_subrange(stream, PREFIX_LEN, end));
    Ok((payload, end))
}

} // verus!
