use finance_app::websockets::frame::mask_payload;
use finance_app::websockets::{Frame, OpCode, WebSocketError};

fn payload_of(len: usize) -> Vec<u8> {
    (0..len).map(|i| (i % 251) as u8).collect()
}

fn masked(op_code: OpCode, key: [u8; 4], payload: Vec<u8>) -> Frame {
    Frame {
        fin: true,
        op_code,
        mask: true,
        payload_len: payload.len() as u64,
        mask_key: Some(key),
        payload,
    }
}

const SIZES: [usize; 6] = [0, 1, 125, 126, 65535, 65536];

const OPCODES: [OpCode; 5] =
    [OpCode::Text, OpCode::Binary, OpCode::Ping, OpCode::Pong, OpCode::ConnectionClosed];

#[test]
fn unmasked_frames_round_trip() {
    for op_code in OPCODES {
        for size in SIZES {
            let frame = Frame::new(op_code, payload_of(size));
            let bytes = frame.to_bytes();
            assert_eq!(Frame::decode(&bytes), Ok((frame, bytes.len())));
        }
    }
}

#[test]
fn masked_frames_round_trip() {
    for op_code in OPCODES {
        for size in SIZES {
            let frame = masked(op_code, [0x37, 0xFA, 0x21, 0x3D], payload_of(size));
            let bytes = frame.to_bytes();
            assert_eq!(Frame::decode(&bytes), Ok((frame, bytes.len())));
        }
    }
}

#[test]
fn continuation_and_unfinished_frames_round_trip() {
    let mut frame = Frame::new(OpCode::Continuation, payload_of(10));
    frame.fin = false;
    let bytes = frame.to_bytes();
    assert_eq!(bytes[0], 0x00);
    assert_eq!(Frame::decode(&bytes), Ok((frame, bytes.len())));
}

#[test]
fn decoding_leaves_what_follows_the_frame() {
    let frame = Frame::new(OpCode::Text, b"one".to_vec());
    let mut bytes = frame.to_bytes();
    bytes.extend_from_slice(&Frame::new(OpCode::Text, b"two".to_vec()).to_bytes());
    assert_eq!(Frame::decode(&bytes), Ok((frame, 5)));
    assert_eq!(Frame::decode(&bytes[5..]), Ok((Frame::new(OpCode::Text, b"two".to_vec()), 5)));
}

#[test]
fn masking_twice_gives_the_payload_back() {
    let key = [0xDE, 0xAD, 0xBE, 0xEF];
    for size in [0usize, 1, 3, 4, 5, 1000] {
        let payload = payload_of(size);
        let once = mask_payload(&payload, &key);
        assert_eq!(once.len(), payload.len());
        assert_eq!(mask_payload(&once, &key), payload);
    }
}

#[test]
fn masking_uses_the_key_byte_by_position() {
    assert_eq!(
        mask_payload(b"ping", &[0x37, 0xFA, 0x21, 0x3D]),
        vec![0x47, 0x93, 0x4F, 0x5A]
    );
    assert_eq!(
        mask_payload(&[0, 0, 0, 0, 0, 0], &[1, 2, 3, 4]),
        vec![1, 2, 3, 4, 1, 2]
    );
}

#[test]
fn unmasked_text_frame_bytes() {
    let frame = Frame::new(OpCode::Text, b"Hello".to_vec());
    assert_eq!(frame.to_bytes(), vec![0x81, 0x05, 0x48, 0x65, 0x6C, 0x6C, 0x6F]);
}

#[test]
fn masked_text_frame_bytes() {
    let frame = masked(OpCode::Text, [0x37, 0xFA, 0x21, 0x3D], b"Hello".to_vec());
    assert_eq!(
        frame.to_bytes(),
        vec![0x81, 0x85, 0x37, 0xFA, 0x21, 0x3D, 0x7F, 0x9F, 0x4D, 0x51, 0x58]
    );
}

#[test]
fn first_byte_holds_fin_and_opcode() {
    assert_eq!(Frame::new(OpCode::Continuation, vec![]).to_bytes(), vec![0x80, 0x00]);
    assert_eq!(Frame::new(OpCode::Text, vec![]).to_bytes(), vec![0x81, 0x00]);
    assert_eq!(Frame::new(OpCode::Binary, vec![]).to_bytes(), vec![0x82, 0x00]);
    assert_eq!(Frame::new(OpCode::ConnectionClosed, vec![]).to_bytes(), vec![0x88, 0x00]);
    assert_eq!(Frame::new(OpCode::Ping, vec![]).to_bytes(), vec![0x89, 0x00]);
    assert_eq!(Frame::new(OpCode::Pong, vec![]).to_bytes(), vec![0x8A, 0x00]);
    let mut frame = Frame::new(OpCode::Binary, vec![]);
    frame.fin = false;
    assert_eq!(frame.to_bytes(), vec![0x02, 0x00]);
}

#[test]
fn length_forms() {
    let bytes = Frame::new(OpCode::Binary, payload_of(125)).to_bytes();
    assert_eq!(&bytes[..2], &[0x82, 125]);
    assert_eq!(bytes.len(), 2 + 125);

    let bytes = Frame::new(OpCode::Binary, payload_of(126)).to_bytes();
    assert_eq!(&bytes[..4], &[0x82, 126, 0x00, 0x7E]);
    assert_eq!(bytes.len(), 4 + 126);

    let bytes = Frame::new(OpCode::Binary, payload_of(256)).to_bytes();
    assert_eq!(&bytes[..4], &[0x82, 126, 0x01, 0x00]);

    let bytes = Frame::new(OpCode::Binary, payload_of(65535)).to_bytes();
    assert_eq!(&bytes[..4], &[0x82, 126, 0xFF, 0xFF]);
    assert_eq!(bytes.len(), 4 + 65535);

    let bytes = Frame::new(OpCode::Binary, payload_of(65536)).to_bytes();
    assert_eq!(&bytes[..10], &[0x82, 127, 0, 0, 0, 0, 0, 1, 0, 0]);
    assert_eq!(bytes.len(), 10 + 65536);

    let bytes = masked(OpCode::Binary, [9, 8, 7, 6], payload_of(126)).to_bytes();
    assert_eq!(&bytes[..8], &[0x82, 0xFE, 0x00, 0x7E, 9, 8, 7, 6]);
    assert_eq!(bytes.len(), 8 + 126);
}

#[test]
fn new_frame_is_final_and_unmasked() {
    let frame = Frame::new(OpCode::Ping, vec![1, 2, 3]);
    assert_eq!(
        frame,
        Frame {
            fin: true,
            op_code: OpCode::Ping,
            mask: false,
            payload_len: 3,
            mask_key: None,
            payload: vec![1, 2, 3],
        }
    );
}

#[test]
fn parse_keeps_the_header_fields() {
    assert_eq!(
        Frame::parse(false, OpCode::Binary, true, 126),
        Ok(Frame {
            fin: false,
            op_code: OpCode::Binary,
            mask: true,
            payload_len: 126,
            mask_key: None,
            payload: vec![],
        })
    );
}

#[test]
fn opcodes_map_to_their_codes() {
    let table = [
        (OpCode::Continuation, 0x0u8),
        (OpCode::Text, 0x1),
        (OpCode::Binary, 0x2),
        (OpCode::ConnectionClosed, 0x8),
        (OpCode::Ping, 0x9),
        (OpCode::Pong, 0xA),
    ];
    for (op_code, code) in table {
        assert_eq!(op_code.to_u8(), code);
        assert_eq!(OpCode::from_u8(code), Some(op_code));
    }
    for code in [0x3u8, 0x4, 0x5, 0x6, 0x7, 0xB, 0xC, 0xD, 0xE, 0xF, 0x10, 0x81, 0xFF] {
        assert_eq!(OpCode::from_u8(code), None);
    }
}

#[test]
fn undefined_opcode_is_invalid() {
    for code in [0x3u8, 0x4, 0x5, 0x6, 0x7, 0xB, 0xC, 0xD, 0xE, 0xF] {
        assert_eq!(Frame::decode(&[0x80 | code, 0x00]), Err(WebSocketError::InvalidOpcode));
        assert_eq!(Frame::missing(&[code, 0x00]), Err(WebSocketError::InvalidOpcode));
        // The opcode is looked at before the rest of the header.
        assert_eq!(Frame::decode(&[code, 0xFF]), Err(WebSocketError::InvalidOpcode));
    }
}

#[test]
fn short_input_is_unexpected_eof() {
    for frame in [
        Frame::new(OpCode::Text, payload_of(5)),
        Frame::new(OpCode::Text, payload_of(300)),
        Frame::new(OpCode::Text, payload_of(65536)),
        masked(OpCode::Text, [1, 2, 3, 4], payload_of(5)),
        masked(OpCode::Text, [1, 2, 3, 4], payload_of(300)),
    ] {
        let bytes = frame.to_bytes();
        for len in (0..15.min(bytes.len())).chain([bytes.len() - 1]) {
            assert_eq!(Frame::decode(&bytes[..len]), Err(WebSocketError::UnexpectedEof));
        }
    }
    // A single byte is too short even with an undefined opcode.
    assert_eq!(Frame::decode(&[0x83]), Err(WebSocketError::UnexpectedEof));
}

#[test]
fn missing_follows_the_reads_of_a_frame() {
    let frame = masked(OpCode::Binary, [1, 2, 3, 4], payload_of(300));
    let bytes = frame.to_bytes();
    assert_eq!(Frame::missing(&[]), Ok(2));
    assert_eq!(Frame::missing(&bytes[..1]), Ok(1));
    assert_eq!(Frame::missing(&bytes[..2]), Ok(6));
    assert_eq!(Frame::missing(&bytes[..5]), Ok(3));
    assert_eq!(Frame::missing(&bytes[..8]), Ok(300));
    assert_eq!(Frame::missing(&bytes[..108]), Ok(200));
    assert_eq!(Frame::missing(&bytes), Ok(0));

    let bytes = Frame::new(OpCode::Text, payload_of(5)).to_bytes();
    assert_eq!(Frame::missing(&bytes[..2]), Ok(5));
    assert_eq!(Frame::missing(&bytes), Ok(0));

    let bytes = Frame::new(OpCode::Text, payload_of(65536)).to_bytes();
    assert_eq!(Frame::missing(&bytes[..2]), Ok(8));
    assert_eq!(Frame::missing(&bytes[..10]), Ok(65536));

    // Eight bytes of length can declare more than any buffer holds.
    let huge = [0x82, 0x7F, 0xFF, 0xFF, 0xFF, 0xFF, 0xFF, 0xFF, 0xFF, 0xFF, 0xAA];
    assert_eq!(Frame::missing(&huge), Ok(u64::MAX - 1));
    assert_eq!(Frame::decode(&huge), Err(WebSocketError::UnexpectedEof));
}

#[test]
fn reading_by_plan_ends_in_a_frame() {
    let frame = masked(OpCode::Text, [0x37, 0xFA, 0x21, 0x3D], payload_of(70000));
    let wire = frame.to_bytes();
    let mut read: Vec<u8> = Vec::new();
    let mut rounds = 0;
    loop {
        let count = Frame::missing(&read).unwrap() as usize;
        if count == 0 {
            break;
        }
        let from = read.len();
        read.extend_from_slice(&wire[from..from + count]);
        rounds += 1;
    }
    assert_eq!(rounds, 3);
    assert_eq!(Frame::decode(&read), Ok((frame, wire.len())));
}

#[test]
fn decoding_accepts_longer_length_forms() {
    // Five bytes declared in the two-byte form.
    let bytes = [0x81, 126, 0x00, 0x05, b'H', b'e', b'l', b'l', b'o'];
    let (frame, taken) = Frame::decode(&bytes).unwrap();
    assert_eq!(taken, 9);
    assert_eq!(frame.payload_len, 5);
    assert_eq!(frame.payload, b"Hello".to_vec());
}

#[test]
fn frames_outside_the_invariant_encode_field_by_field() {
    // An unmasked frame with a key: the key travels, the payload is plain.
    let mut frame = Frame::new(OpCode::Text, b"ab".to_vec());
    frame.mask_key = Some([1, 2, 3, 4]);
    assert_eq!(frame.to_bytes(), vec![0x81, 0x02, 1, 2, 3, 4, b'a', b'b']);
    // A masked frame without a key carries no payload.
    let mut frame = Frame::new(OpCode::Text, b"ab".to_vec());
    frame.mask = true;
    assert_eq!(frame.to_bytes(), vec![0x81, 0x82]);
    // The declared length is written as declared.
    let mut frame = Frame::new(OpCode::Text, b"ab".to_vec());
    frame.payload_len = 300;
    assert_eq!(frame.to_bytes(), vec![0x81, 126, 0x01, 0x2C, b'a', b'b']);
}
