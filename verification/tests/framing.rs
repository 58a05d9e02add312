use copi::protocol::{
    check_payload, check_read, check_write, decode_frame, decode_length, encode_frame,
    encode_length, ProtocolError, StreamOutcome, MAX_MESSAGE_LEN, PREFIX_LEN,
};

#[test]
fn prefix_is_big_endian() {
    assert_eq!(encode_length(1), [0, 0, 0, 1]);
    assert_eq!(encode_length(258), [0, 0, 1, 2]);
    assert_eq!(encode_length(10_000_000), [0x00, 0x98, 0x96, 0x80]);
    assert_eq!(encode_length(0), [0, 0, 0, 0]);
    assert_eq!(encode_length(u32::MAX), [0xff, 0xff, 0xff, 0xff]);
    assert_eq!(decode_length(&[0, 0, 1, 2]), Ok(258));
    assert_eq!(decode_length(&[0x00, 0x98, 0x96, 0x80]), Ok(10_000_000));
}

#[test]
fn frame_of_hello_is_bit_exact() {
    let frame = encode_frame(b"hello").unwrap();
    assert_eq!(frame, vec![0, 0, 0, 5, b'h', b'e', b'l', b'l', b'o']);
}

#[test]
fn frame_round_trips() {
    let payload = br#"{"content":{"text":"hello"},"timestamp":1700000000,"client_id":"linux-1"}"#;
    let frame = encode_frame(payload).unwrap();
    let read = decode_frame(&frame);
    assert_eq!(read.payload, Ok(payload.to_vec()));
    assert_eq!(read.consumed, PREFIX_LEN + payload.len());
}

#[test]
fn frames_follow_each_other_on_a_stream() {
    let mut stream = encode_frame(b"first").unwrap();
    stream.extend_from_slice(&encode_frame(b"second!").unwrap());
    let one = decode_frame(&stream);
    assert_eq!(one.payload, Ok(b"first".to_vec()));
    let two = decode_frame(&stream[one.consumed..]);
    assert_eq!(two.payload, Ok(b"second!".to_vec()));
    assert_eq!(one.consumed + two.consumed, stream.len());
}

#[test]
fn largest_payload_round_trips() {
    let payload = vec![7u8; MAX_MESSAGE_LEN];
    let frame = encode_frame(&payload).unwrap();
    assert_eq!(frame.len(), PREFIX_LEN + MAX_MESSAGE_LEN);
    let read = decode_frame(&frame);
    assert_eq!(read.payload, Ok(payload));
    assert_eq!(read.consumed, frame.len());
}

#[test]
fn zero_length_is_refused_at_the_prefix() {
    assert_eq!(decode_length(&[0, 0, 0, 0]), Err(ProtocolError::InvalidLength));
    let read = decode_frame(&[0, 0, 0, 0, 1, 2, 3]);
    assert_eq!(read.payload, Err(ProtocolError::InvalidLength));
    assert_eq!(read.consumed, 4);
}

#[test]
fn length_above_the_ceiling_is_refused_at_the_prefix() {
    // 10_000_001
    assert_eq!(decode_length(&[0x00, 0x98, 0x96, 0x81]), Err(ProtocolError::InvalidLength));
    assert_eq!(decode_length(&[0xff, 0xff, 0xff, 0xff]), Err(ProtocolError::InvalidLength));
    let mut stream = vec![0x00, 0x98, 0x96, 0x81];
    stream.extend_from_slice(&[0u8; 64]);
    let read = decode_frame(&stream);
    assert_eq!(read.payload, Err(ProtocolError::InvalidLength));
    assert_eq!(read.consumed, 4);
}

#[test]
fn writer_frames_every_length_and_the_reader_holds_the_cap() {
    assert_eq!(encode_frame(b""), Ok(vec![0, 0, 0, 0]));
    assert_eq!(decode_frame(&[0, 0, 0, 0]).payload, Err(ProtocolError::InvalidLength));
    let payload = vec![3u8; MAX_MESSAGE_LEN + 1];
    let frame = encode_frame(&payload).unwrap();
    assert_eq!(&frame[..4], &[0x00, 0x98, 0x96, 0x81]);
    assert_eq!(frame.len(), PREFIX_LEN + MAX_MESSAGE_LEN + 1);
    assert_eq!(&frame[4..], &payload[..]);
    let read = decode_frame(&frame);
    assert_eq!(read.payload, Err(ProtocolError::InvalidLength));
    assert_eq!(read.consumed, 4);
}

#[test]
fn short_stream_is_truncated() {
    let read = decode_frame(&[0, 0]);
    assert_eq!(read.payload, Err(ProtocolError::Truncated));
    assert_eq!(read.consumed, 2);
    let read = decode_frame(&[0, 0, 0, 5, b'h', b'e']);
    assert_eq!(read.payload, Err(ProtocolError::Truncated));
    assert_eq!(read.consumed, 6);
    let read = decode_frame(&[]);
    assert_eq!(read.payload, Err(ProtocolError::Truncated));
    assert_eq!(read.consumed, 0);
}

#[test]
fn stream_outcomes_map_to_errors() {
    assert_eq!(check_read(StreamOutcome::Complete), Ok(()));
    assert_eq!(check_read(StreamOutcome::Closed), Err(ProtocolError::Truncated));
    assert_eq!(check_read(StreamOutcome::Failed), Err(ProtocolError::Io));
    assert_eq!(check_write(StreamOutcome::Complete), Ok(()));
    assert_eq!(check_write(StreamOutcome::Closed), Err(ProtocolError::Io));
    assert_eq!(check_write(StreamOutcome::Failed), Err(ProtocolError::Io));
}

#[test]
fn payload_that_is_no_envelope_is_malformed() {
    assert_eq!(check_payload(Some(3u8)), Ok(3u8));
    assert_eq!(check_payload::<u8>(None), Err(ProtocolError::Malformed));
}
