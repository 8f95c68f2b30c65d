use bytes::BytesMut;

use ws_uring::frame::decode;
use ws_uring::frame::DecodeOutcome;
use ws_uring::frame::Frame;
use ws_uring::frame::OpCode;
use ws_uring::is_control;

fn encode(frame: &mut Frame) -> Vec<u8> {
    let mut out = BytesMut::new();
    frame.write(&mut out);
    out.to_vec()
}

fn round_trip(fin: bool, opcode: OpCode, payload: Vec<u8>) {
    let mut frame = Frame::new(fin, opcode, BytesMut::from(&payload[..]));
    let encoded = encode(&mut frame);
    match decode(&encoded, encoded.len()) {
        DecodeOutcome::Complete(decoded) => {
            assert_eq!(decoded.fin, fin);
            assert_eq!(decoded.opcode, opcode);
            assert_eq!(&decoded.payload[..], &payload[..]);
        }
        _ => panic!("a complete encoded frame must decode"),
    }
}

#[test]
fn round_trip_all_length_branches() {
    for len in [0usize, 1, 125, 126, 65535, 65536] {
        let payload: Vec<u8> = (0..len).map(|i| (i % 251) as u8).collect();
        round_trip(true, OpCode::Binary, payload);
    }
}

#[test]
fn round_trip_opcodes_and_fin() {
    round_trip(false, OpCode::Continuation, vec![1, 2, 3]);
    round_trip(true, OpCode::Text, b"Hello!".to_vec());
    round_trip(false, OpCode::Binary, vec![]);
    round_trip(true, OpCode::Close, vec![3, 232]);
    round_trip(true, OpCode::Ping, vec![0xFF]);
    round_trip(false, OpCode::Pong, vec![0; 200]);
}

#[test]
fn header_bytes_small_length() {
    let mut frame = Frame::new(true, OpCode::Text, BytesMut::from(&b"Hi"[..]));
    let encoded = encode(&mut frame);
    assert_eq!(encoded, vec![0x81, 0x02, b'H', b'i']);
}

#[test]
fn header_bytes_two_byte_length() {
    let mut frame = Frame::new(true, OpCode::Binary, BytesMut::from(&vec![7u8; 300][..]));
    let encoded = encode(&mut frame);
    assert_eq!(&encoded[..4], &[0x82, 126, 0x01, 0x2C]);
    assert_eq!(encoded.len(), 4 + 300);
}

#[test]
fn header_bytes_eight_byte_length() {
    let mut frame = Frame::new(false, OpCode::Binary, BytesMut::from(&vec![7u8; 65536][..]));
    let encoded = encode(&mut frame);
    assert_eq!(&encoded[..10], &[0x02, 127, 0, 0, 0, 0, 0, 1, 0, 0]);
    assert_eq!(encoded.len(), 10 + 65536);
}

#[test]
fn partial_delivery_needs_more_until_last_chunk() {
    let payload: Vec<u8> = (0..300).map(|i| (i % 256) as u8).collect();
    let mut frame = Frame::new(true, OpCode::Binary, BytesMut::from(&payload[..]));
    let encoded = encode(&mut frame);

    // deliver the header first, then the payload in two chunks
    let splits = [1, 3, 4, 150, encoded.len() - 1];
    let mut accumulated: Vec<u8> = Vec::new();
    let mut start = 0usize;
    for &end in &splits {
        accumulated.extend_from_slice(&encoded[start..end]);
        start = end;
        match decode(&accumulated, accumulated.len()) {
            DecodeOutcome::NeedMore => {}
            _ => panic!("a strict prefix must only ask for more bytes"),
        }
    }
    accumulated.extend_from_slice(&encoded[start..]);
    match decode(&accumulated, accumulated.len()) {
        DecodeOutcome::Complete(decoded) => {
            assert!(decoded.fin);
            assert_eq!(decoded.opcode, OpCode::Binary);
            assert_eq!(&decoded.payload[..], &payload[..]);
        }
        _ => panic!("the final chunk completes the frame"),
    }
}

#[test]
fn decode_rejects_foreign_forms() {
    // reserved bits set
    assert!(matches!(decode(&[0xC1, 0x00], 2), DecodeOutcome::Invalid));
    // unknown opcode nibble
    assert!(matches!(decode(&[0x83, 0x00], 2), DecodeOutcome::Invalid));
    // masked length byte: this codec carries unmasked frames only
    assert!(matches!(decode(&[0x81, 0x82], 2), DecodeOutcome::Invalid));
}

#[test]
fn decode_empty_and_tiny_spans_need_more() {
    assert!(matches!(decode(&[], 0), DecodeOutcome::NeedMore));
    assert!(matches!(decode(&[0x81], 1), DecodeOutcome::NeedMore));
    assert!(matches!(decode(&[0x81, 126, 0x01], 3), DecodeOutcome::NeedMore));
}

#[test]
fn close_frame_carries_code_then_reason() {
    let frame = Frame::close(1000, b"bye");
    assert!(frame.fin);
    assert_eq!(frame.opcode, OpCode::Close);
    assert_eq!(&frame.payload[..], &[0x03, 0xE8, b'b', b'y', b'e']);
}

#[test]
fn convenience_constructors() {
    let binary = Frame::binary(BytesMut::from(&[9u8, 8, 7][..]));
    assert!(binary.fin);
    assert_eq!(binary.opcode, OpCode::Binary);
    assert_eq!(&binary.payload[..], &[9, 8, 7]);

    let pong = Frame::pong(BytesMut::from(&b"p"[..]));
    assert!(pong.fin);
    assert_eq!(pong.opcode, OpCode::Pong);
    assert_eq!(&pong.payload[..], &b"p"[..]);

    let close_raw = Frame::close_raw(BytesMut::from(&[3u8, 232][..]));
    assert!(close_raw.fin);
    assert_eq!(close_raw.opcode, OpCode::Close);

    let frame = Frame::new(false, OpCode::Continuation, BytesMut::new());
    assert!(!frame.fin);
    assert_eq!(frame.opcode, OpCode::Continuation);
    assert_eq!(frame.payload.len(), 0);
}

#[test]
fn utf8_validation() {
    let text = Frame::new(true, OpCode::Text, BytesMut::from(&b"hej du"[..]));
    assert!(text.is_utf8());
    let broken = Frame::new(true, OpCode::Text, BytesMut::from(&[0xFF, 0xFE][..]));
    assert!(!broken.is_utf8());
}

#[test]
fn control_opcodes() {
    assert!(is_control(OpCode::Close));
    assert!(is_control(OpCode::Ping));
    assert!(is_control(OpCode::Pong));
    assert!(!is_control(OpCode::Continuation));
    assert!(!is_control(OpCode::Text));
    assert!(!is_control(OpCode::Binary));
}
