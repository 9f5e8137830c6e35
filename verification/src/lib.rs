//! A length-prefixed wire protocol for session entries.
//!
//! One frame is a 4-byte big-endian length followed by that many payload
//! bytes; the payload is the UTF-8 JSON text of one entry. A session is one
//! connection, on which frames flow from the sender to the listener.
//!
//! - [`frame`] is the codec: frames to bytes and back.
//! - [`text`] tells the payloads that are text from those that are not.
//! - [`entry`] holds the records that a payload carries.
//! - [`listener`] and [`sender`] are the two ends of a session, each a state
//!   machine that its driver advances with [`server`] and [`client`]. The
//!   machines do no input and no output and know no JSON: the driver reads,
//!   writes, and turns text into entries and entries into text.
//! - [`transport`] and [`session`] state and prove what the machines do on a
//!   stream: frames are read exactly however the stream is cut up, entries
//!   go out and come in in order, and a session ends with the first error.

use vstd::prelude::*;

pub mod entry;
pub mod error;
pub mod frame;
pub mod listener;
pub mod sender;
pub mod session;
pub mod text;
pub mod transport;

pub use crate::entry::{status_line, Entry, ModelData, ParamData};
pub use crate::error::{DecodeError, FrameError, SessionError, SetupError};
pub use crate::frame::{decode_length, encode_length, read_frame, write_frame};
pub use crate::listener::{server, Listener, ListenerAction, ListenerEvent, ListenerStage};
pub use crate::sender::{client, Sender, SenderAction, SenderEvent, SenderStage};
pub use crate::text::payload_text;

verus! {

/// A buffer of `len` zero bytes, ready to be read into.
pub fn zeros(len: usize) -> (buffer: Vec<u8>)
    ensures
        buffer@ == Seq::new(len as nat, |i: int| 0u8),
{
    let mut buffer: Vec<u8> = Vec::new();
    let mut filled: usize = 0;
    while filled < len
        invariant
            filled <= len,
            buffer@ == Seq::new(filled as nat, |i: int| 0u8),
        decreases len - filled,
    {
        buffer.push(0u8);
        filled = filled + 1;
    }
    buffer
}

} // verus!
