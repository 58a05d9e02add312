//! Wire framing: every envelope travels as a four-byte big-endian length
//! followed by exactly that many bytes of payload.

use vstd::prelude::*;

verus! {

/// The number of bytes of the length prefix.
pub const PREFIX_LEN: usize = 4;

/// The longest payload that a frame may carry.
pub const MAX_MESSAGE_LEN: usize = 10000000;

/// Why a message could not be read or written. Each of these ends the
/// connection it happened on.
#[derive(Debug, Clone, Copy, PartialEq, Eq, Structural)]
pub enum ProtocolError {
    /// The length prefix that was read is zero or above `MAX_MESSAGE_LEN`,
    /// or the payload to write is longer than a prefix can spell.
    InvalidLength,
    /// The stream ended before the prefix or the payload was complete.
    Truncated,
    /// The payload is not a serialised envelope.
    Malformed,
    /// Reading from or writing to the stream failed.
    Io,
}

/// Whether a frame may carry a payload of `len` bytes.
pub open spec fn valid_length(len: int) -> bool {
    1 <= len <= MAX_MESSAGE_LEN
}

/// The four bytes of `value`, most significant first.
pub open spec fn be_bytes(value: u32) -> Seq<u8> {
    seq![
        (value / 16777216) as u8,
        ((value / 65536) % 256) as u8,
        ((value / 256) % 256) as u8,
        (value % 256) as u8,
    ]
}

/// The number that four bytes spell, most significant first.
pub open spec fn be_value(prefix: Seq<u8>) -> int {
    prefix[0] * 16777216 + prefix[1] * 65536 + prefix[2] * 256 + prefix[3]
}

/// The frame that carries `payload`.
pub open spec fn framed(payload: Seq<u8>) -> Seq<u8> {
    be_bytes(payload.len() as u32) + payload
}

/// What reading one frame from the front of `stream` gives: the payload, or
/// the reason why there is none.
pub open spec fn parsed(stream: Seq<u8>) -> Result<Seq<u8>, ProtocolError> {
    if stream.len() < PREFIX_LEN {
        Err(ProtocolError::Truncated)
    } else if !valid_length(be_value(stream.take(PREFIX_LEN as int))) {
        Err(ProtocolError::InvalidLength)
    } else if stream.len() < PREFIX_LEN + be_value(stream.take(PREFIX_LEN as int)) {
        Err(ProtocolError::Truncated)
    } else {
        Ok(
            stream.subrange(
                PREFIX_LEN as int,
                PREFIX_LEN + be_value(stream.take(PREFIX_LEN as int)),
            ),
        )
    }
}

/// How many bytes reading one frame from the front of `stream` takes from
/// it: the whole frame where there is one, no more than the prefix where the
/// length is refused, and all there is where the stream ends early.
pub open spec fn consumed(stream: Seq<u8>) -> int {
    if stream.len() < PREFIX_LEN {
        stream.len() as int
    } else if !valid_length(be_value(stream.take(PREFIX_LEN as int))) {
        PREFIX_LEN as int
    } else if stream.len() < PREFIX_LEN + be_value(stream.take(PREFIX_LEN as int)) {
        stream.len() as int
    } else {
        PREFIX_LEN + be_value(stream.take(PREFIX_LEN as int))
    }
}

/// Writes the length prefix for a payload of `len` bytes.
pub fn encode_length(len: u32) -> (prefix: [u8; 4])
    ensures
        prefix@ == be_bytes(len),
{
    let prefix = [
        (len / 16777216) as u8,
        ((len / 65536) % 256) as u8,
        ((len / 256) % 256) as u8,
        (len % 256) as u8,
    ];
    assert(prefix@ =~= be_bytes(len));
    prefix
}

/// Reads a length prefix. Only the prefix is looked at: a length of zero or
/// above `MAX_MESSAGE_LEN` is refused before any payload byte is asked for.
pub fn decode_length(prefix: &[u8; 4]) -> (len: Result<usize, ProtocolError>)
    ensures
        match len {
            Ok(n) => valid_length(n as int) && n == be_value(prefix@),
            Err(error) => !valid_length(be_value(prefix@)) && error
                == ProtocolError::InvalidLength,
        },
{
    let value = (prefix[0] as u32) * 16777216 + (prefix[1] as u32) * 65536 + (prefix[2] as u32)
        * 256 + (prefix[3] as u32);
    if value == 0 || value > MAX_MESSAGE_LEN as u32 {
        Err(ProtocolError::InvalidLength)
    } else {
        Ok(value as usize)
    }
}

/// Builds the frame that carries `payload`, whatever its length: the cap
/// on lengths is the reader's. Only a payload whose length four bytes cannot
/// spell has no frame.
pub fn encode_frame(payload: &[u8]) -> (frame: Result<Vec<u8>, ProtocolError>)
    ensures
        match frame {
            Ok(bytes) => payload@.len() <= u32::MAX && bytes@ == framed(payload@),
            Err(error) => payload@.len() > u32::MAX && error == ProtocolError::InvalidLength,
        },
{
    if payload.len() > u32::MAX as usize {
        return Err(ProtocolError::InvalidLength);
    }
    let prefix = encode_length(payload.len() as u32);
    let mut frame: Vec<u8> = Vec::new();
    frame.push(prefix[0]);
    frame.push(prefix[1]);
    frame.push(prefix[2]);
    frame.push(prefix[3]);
    frame.extend_from_slice(payload);
    assert(frame@ =~= framed(payload@));
    Ok(frame)
}

/// How one read from, or write to, the stream of a connection ended.
#[derive(Debug, Clone, Copy, PartialEq, Eq, Structural)]
pub enum StreamOutcome {
    /// All bytes that were asked for were read, or all were written.
    Complete,
    /// The stream closed before that.
    Closed,
    /// The operating system reported an error.
    Failed,
}

/// The error, if any, that ends a read of a prefix or of a payload.
pub open spec fn read_error(outcome: StreamOutcome) -> Option<ProtocolError> {
    match outcome {
        StreamOutcome::Complete => None,
        StreamOutcome::Closed => Some(ProtocolError::Truncated),
        StreamOutcome::Failed => Some(ProtocolError::Io),
    }
}

/// The error, if any, that ends a write or a flush: whatever went wrong, the
/// connection is broken.
pub open spec fn write_error(outcome: StreamOutcome) -> Option<ProtocolError> {
    match outcome {
        StreamOutcome::Complete => None,
        _ => Some(ProtocolError::Io),
    }
}

/// Judges a read of a prefix or of a payload.
pub fn check_read(outcome: StreamOutcome) -> (checked: Result<(), ProtocolError>)
    ensures
        match checked {
            Ok(_) => read_error(outcome).is_none(),
            Err(error) => read_error(outcome) == Some(error),
        },
{
    match outcome {
        StreamOutcome::Complete => Ok(()),
        StreamOutcome::Closed => Err(ProtocolError::Truncated),
        StreamOutcome::Failed => Err(ProtocolError::Io),
    }
}

/// Judges a write or a flush.
pub fn check_write(outcome: StreamOutcome) -> (checked: Result<(), ProtocolError>)
    ensures
        match checked {
            Ok(_) => write_error(outcome).is_none(),
            Err(error) => write_error(outcome) == Some(error),
        },
{
    match outcome {
        StreamOutcome::Complete => Ok(()),
        _ => Err(ProtocolError::Io),
    }
}

/// Judges what deserialising a payload gave: a payload that is no envelope
/// is `Malformed`.
pub fn check_payload<T>(decoded: Option<T>) -> (checked: Result<T, ProtocolError>)
    ensures
        match decoded {
            Some(value) => checked == Ok::<T, ProtocolError>(value),
            None => checked == Err::<T, ProtocolError>(ProtocolError::Malformed),
        },
{
    match decoded {
        Some(value) => Ok(value),
        None => Err(ProtocolError::Malformed),
    }
}

/// The outcome of reading one frame from a buffer.
#[derive(Debug)]
pub struct FrameRead {
    /// The payload, or why there is none.
    pub payload: Result<Vec<u8>, ProtocolError>,
    /// How many bytes of the buffer the read has taken.
    pub consumed: usize,
}

/// Reads one frame from the front of `stream`.
pub fn decode_frame(stream: &[u8]) -> (read: FrameRead)
    ensures
        read.consumed == consumed(stream@),
        read.consumed <= stream@.len(),
        match read.payload {
            Ok(payload) => parsed(stream@) == Ok::<Seq<u8>, ProtocolError>(payload@),
            Err(error) => parsed(stream@) == Err::<Seq<u8>, ProtocolError>(error),
        },
{
    if stream.len() < PREFIX_LEN {
        return FrameRead { payload: Err(ProtocolError::Truncated), consumed: stream.len() };
    }
    let prefix = [stream[0], stream[1], stream[2], stream[3]];
    assert(prefix@ =~= stream@.take(PREFIX_LEN as int));
    let len = match decode_length(&prefix) {
        Ok(len) => len,
        Err(error) => {
            return FrameRead { payload: Err(error), consumed: PREFIX_LEN };
        },
    };
    if stream.len() - PREFIX_LEN < len {
        return FrameRead { payload: Err(ProtocolError::Truncated), consumed: stream.len() };
    }
    let mut payload: Vec<u8> = Vec::new();
    let mut i: usize = 0;
    while i < len
        invariant
            i <= len <= MAX_MESSAGE_LEN,
            PREFIX_LEN + len <= stream@.len(),
            payload@ == stream@.subrange(PREFIX_LEN as int, PREFIX_LEN + i),
        decreases len - i,
    {
        payload.push(stream[PREFIX_LEN + i]);
        assert(payload@ =~= stream@.subrange(PREFIX_LEN as int, PREFIX_LEN + i + 1));
        i += 1;
    }
    FrameRead { payload: Ok(payload), consumed: PREFIX_LEN + len }
}

/// The prefix that is written for a length reads back as that length.
pub proof fn lemma_length_round_trip(len: int)
    requires
        0 <= len <= u32::MAX,
    ensures
        be_bytes(len as u32).len() == PREFIX_LEN,
        be_value(be_bytes(len as u32)) == len,
{
}

/// Framing round-trips: reading the frame of a valid payload gives the
/// payload back and takes exactly the frame, also when more frames follow
/// it on the stream.
pub proof fn lemma_frame_round_trip(payload: Seq<u8>, rest: Seq<u8>)
    requires
        valid_length(payload.len() as int),
    ensures
        parsed(framed(payload) + rest) == Ok::<Seq<u8>, ProtocolError>(payload),
        consumed(framed(payload) + rest) == PREFIX_LEN + payload.len(),
        (framed(payload) + rest).skip(consumed(framed(payload) + rest)) == rest,
{
    let stream = framed(payload) + rest;
    lemma_length_round_trip(payload.len() as int);
    assert(stream.take(PREFIX_LEN as int) =~= be_bytes(payload.len() as u32));
    assert(stream.subrange(PREFIX_LEN as int, PREFIX_LEN + payload.len()) =~= payload);
    assert(stream.skip(PREFIX_LEN + payload.len()) =~= rest);
}

/// A stream that advertises a length of zero or above the ceiling is refused
/// as `InvalidLength`, and no more than its prefix is taken.
pub proof fn lemma_invalid_length_stops_at_prefix(stream: Seq<u8>)
    requires
        stream.len() >= PREFIX_LEN,
        !valid_length(be_value(stream.take(PREFIX_LEN as int))),
    ensures
        parsed(stream) == Err::<Seq<u8>, ProtocolError>(ProtocolError::InvalidLength),
        consumed(stream) == PREFIX_LEN,
{
}

} // verus!
