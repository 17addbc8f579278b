//! Framing over a byte stream.

use sinrana::error::FrameError;
use sinrana::frame::{decode_frame, encode_frame, FrameCodec, LEN_PREFIX, MAX_FRAME};
use sinrana::TransportError;

#[test]
fn round_trips_a_single_frame() {
    let payload = b"hello sinrana".to_vec();
    let wire = encode_frame(&payload);
    let (consumed, decoded) = decode_frame(&wire).unwrap().unwrap();
    assert_eq!(consumed, wire.len());
    assert_eq!(decoded, payload);
}

#[test]
fn decode_waits_for_partial_frame() {
    let payload = b"0123456789".to_vec();
    let wire = encode_frame(&payload);
    // One byte short of a whole frame.
    let partial = &wire[..wire.len() - 1];
    assert!(decode_frame(partial).unwrap().is_none());
    assert!(decode_frame(&wire).unwrap().is_some());
}

#[test]
fn codec_handles_multiple_frames_and_sticky_reads() {
    let mut codec = FrameCodec::new();
    let a = encode_frame(b"first");
    let b = encode_frame(b"second");
    codec.push(&a).unwrap();
    codec.push(&b).unwrap();
    let frames = codec.drain_all().unwrap();
    assert_eq!(frames, vec![b"first".to_vec(), b"second".to_vec()]);
    assert_eq!(codec.buffered(), 0);
}

#[test]
fn codec_splits_one_byte_stream_across_pushes() {
    let mut codec = FrameCodec::new();
    let wire = encode_frame(b"split-across-reads");
    // One byte at a time.
    for byte in &wire {
        codec.push(std::slice::from_ref(byte)).unwrap();
    }
    let frames = codec.drain_all().unwrap();
    assert_eq!(frames, vec![b"split-across-reads".to_vec()]);
}

#[test]
fn rejects_oversized_frame() {
    let big = (MAX_FRAME + 1) as u32;
    let mut buf = Vec::new();
    buf.extend_from_slice(&big.to_be_bytes());
    buf.extend_from_slice(&[0u8; 4]);
    assert!(decode_frame(&buf).is_err());
}

#[test]
fn the_prefix_is_big_endian() {
    assert_eq!(encode_frame(b"abc"), vec![0, 0, 0, 3, b'a', b'b', b'c']);
    assert_eq!(encode_frame(&vec![7u8; 258])[..LEN_PREFIX], [0, 0, 1, 2]);
    assert_eq!(encode_frame(b""), vec![0, 0, 0, 0]);
}

#[test]
fn an_empty_frame_is_a_frame() {
    let mut codec = FrameCodec::default();
    codec.push(&encode_frame(b"")).unwrap();
    assert_eq!(codec.try_pop().unwrap(), Some(Vec::new()));
    assert_eq!(codec.try_pop().unwrap(), None);
}

#[test]
fn the_largest_length_is_not_too_long() {
    let mut buf = Vec::new();
    buf.extend_from_slice(&(MAX_FRAME as u32).to_be_bytes());
    assert!(decode_frame(&buf).unwrap().is_none());
}

#[test]
fn the_error_names_the_length_and_the_limit() {
    let buf = [0xffu8; 4];
    let err = decode_frame(&buf).unwrap_err();
    assert_eq!(err, FrameError { len: u32::MAX, max: MAX_FRAME as u32 });
    assert_eq!(err.message(), "frame length 4294967295 exceeds max 16777216");
}

#[test]
fn a_bad_frame_behind_good_ones_stops_the_codec() {
    let mut codec = FrameCodec::new();
    codec.push(&encode_frame(b"good")).unwrap();
    codec.push(&[0xff, 0, 0, 0]).unwrap();
    let err = codec.drain_all().unwrap_err();
    assert_eq!(err.len, 0xff00_0000);
    assert_eq!(codec.buffered(), 4);
    assert!(codec.try_pop().is_err());
}

#[test]
fn what_is_incomplete_stays_buffered() {
    let mut codec = FrameCodec::new();
    let wire = encode_frame(b"one");
    codec.push(&wire).unwrap();
    codec.push(&wire[..5]).unwrap();
    assert_eq!(codec.drain_all().unwrap(), vec![b"one".to_vec()]);
    assert_eq!(codec.buffered(), 5);
    codec.push(&wire[5..]).unwrap();
    assert_eq!(codec.try_pop().unwrap(), Some(b"one".to_vec()));
    assert_eq!(codec.buffered(), 0);
}

#[test]
fn the_end_of_the_stream_closes() {
    let mut codec = FrameCodec::new();
    assert_eq!(codec.feed(None), Err(TransportError::Closed));
    assert_eq!(codec.feed(Some(&[])), Err(TransportError::Closed));
    assert_eq!(codec.feed(Some(&[0, 0])), Ok(()));
    assert_eq!(codec.buffered(), 2);
}
