//! Single WebSocket frames: the header with its three length forms, the
//! optional masking key, and the payload.
//!
//! Frames are not reassembled into messages: each one is encoded and decoded
//! by itself, with its own FIN bit.

use crate::websockets::error::{WebSocketError, WebSocketErrorView};
use crate::wire::{
    be16, be16_bytes, be64, be64_bytes, bit_value, lemma_be16_round_trip, lemma_be64_round_trip,
    push_all, push_u16, u16_from_be, u64_from_be, u64_to_be,
};
use vstd::prelude::*;
use vstd::slice::slice_to_vec;

verus! {

/// The kind of a frame.
#[derive(Debug, Clone, Copy, PartialEq, Eq, Structural)]
pub enum OpCode {
    /// 0x0: more of a fragmented message.
    Continuation,
    /// 0x1: text.
    Text,
    /// 0x2: binary data.
    Binary,
    /// 0x8: the connection is being closed.
    ConnectionClosed,
    /// 0x9: a ping.
    Ping,
    /// 0xA: the answer to a ping.
    Pong,
}

/// One frame.
#[derive(Debug, Clone, PartialEq, Eq)]
pub struct Frame {
    /// Whether this frame ends its message.
    pub fin: bool,
    /// The kind of the frame.
    pub op_code: OpCode,
    /// Whether the payload travels masked.
    pub mask: bool,
    /// The payload length as declared on the wire.
    pub payload_len: u64,
    /// The masking key; present exactly in masked frames.
    pub mask_key: Option<[u8; 4]>,
    /// The payload, unmasked.
    pub payload: Vec<u8>,
}

/// What a [`Frame`] stands for in contracts.
pub struct FrameView {
    pub fin: bool,
    pub op_code: OpCode,
    pub mask: bool,
    pub payload_len: u64,
    pub mask_key: Option<[u8; 4]>,
    pub payload: Seq<u8>,
}

impl View for Frame {
    type V = FrameView;

    open spec fn view(&self) -> FrameView {
        FrameView {
            fin: self.fin,
            op_code: self.op_code,
            mask: self.mask,
            payload_len: self.payload_len,
            mask_key: self.mask_key,
            payload: self.payload@,
        }
    }
}

/// `payload` with every byte XORed against the key byte at its position,
/// the key repeating as often as needed.
pub open spec fn spec_mask(payload: Seq<u8>, key: Seq<u8>) -> Seq<u8> {
    Seq::new(payload.len(), |i: int| payload[i] ^ key[i % (key.len() as int)])
}

/// Masking is its own inverse: the same key applied twice gives the
/// payload back.
pub proof fn lemma_mask_involution(payload: Seq<u8>, key: Seq<u8>)
    requires
        key.len() > 0,
    ensures
        spec_mask(spec_mask(payload, key), key) == payload,
{
    assert forall|i: int| 0 <= i < payload.len() implies spec_mask(spec_mask(payload, key), key)[i]
        == payload[i] by {
        let p = payload[i];
        let k = key[i % (key.len() as int)];
        assert((p ^ k) ^ k == p) by (bit_vector);
    }
    assert(spec_mask(spec_mask(payload, key), key) =~= payload);
}

/// Masks or unmasks `payload` with `key`; the two are the same operation.
pub fn mask_payload(payload: &[u8], key: &[u8; 4]) -> (masked: Vec<u8>)
    ensures
        masked@ == spec_mask(payload@, key@),
{
    let mut masked: Vec<u8> = Vec::with_capacity(payload.len());
    let mut i: usize = 0;
    while i < payload.len()
        invariant
            i <= payload@.len(),
            masked@ == spec_mask(payload@, key@).take(i as int),
        decreases payload@.len() - i,
    {
        masked.push(payload[i] ^ key[i % 4]);
        assert(masked@ =~= spec_mask(payload@, key@).take(i + 1));
        i += 1;
    }
    assert(masked@ =~= spec_mask(payload@, key@));
    masked
}

impl OpCode {
    /// The four-bit code of the opcode on the wire.
    pub open spec fn spec_to_u8(self) -> u8 {
        match self {
            OpCode::Continuation => 0x0,
            OpCode::Text => 0x1,
            OpCode::Binary => 0x2,
            OpCode::ConnectionClosed => 0x8,
            OpCode::Ping => 0x9,
            OpCode::Pong => 0xA,
        }
    }

    /// The opcode that a four-bit code stands for, if the protocol defines
    /// one.
    pub open spec fn spec_from_u8(code: u8) -> Option<OpCode> {
        if code == 0x0 {
            Some(OpCode::Continuation)
        } else if code == 0x1 {
            Some(OpCode::Text)
        } else if code == 0x2 {
            Some(OpCode::Binary)
        } else if code == 0x8 {
            Some(OpCode::ConnectionClosed)
        } else if code == 0x9 {
            Some(OpCode::Ping)
        } else if code == 0xA {
            Some(OpCode::Pong)
        } else {
            None
        }
    }

    /// The four-bit code of the opcode on the wire.
    pub fn to_u8(self) -> (code: u8)
        ensures
            code == self.spec_to_u8(),
            code < 0x10,
            Self::spec_from_u8(code) == Some(self),
    {
        match self {
            OpCode::Continuation => 0x0,
            OpCode::Text => 0x1,
            OpCode::Binary => 0x2,
            OpCode::ConnectionClosed => 0x8,
            OpCode::Ping => 0x9,
            OpCode::Pong => 0xA,
        }
    }

    /// The opcode that a four-bit code stands for; `None` for a code that
    /// the protocol does not define.
    pub fn from_u8(code: u8) -> (op_code: Option<OpCode>)
        ensures
            op_code == Self::spec_from_u8(code),
    {
        match code {
            0x0 => Some(OpCode::Continuation),
            0x1 => Some(OpCode::Text),
            0x2 => Some(OpCode::Binary),
            0x8 => Some(OpCode::ConnectionClosed),
            0x9 => Some(OpCode::Ping),
            0xA => Some(OpCode::Pong),
            _ => None,
        }
    }
}

/// How many bytes of extended length follow a second header byte.
pub open spec fn spec_ext_len(second: u8) -> nat {
    if second % 0x80 == 126 {
        2
    } else if second % 0x80 == 127 {
        8
    } else {
        0
    }
}

/// How long the header is that starts with the second byte `second`: two
/// bytes, the extended length, and the masking key if the MASK bit is set.
pub open spec fn spec_header_len(second: u8) -> nat {
    2 + spec_ext_len(second) + if second >= 0x80 {
        4nat
    } else {
        0nat
    }
}

/// The payload length that a header declares. `bytes` must hold the first
/// two bytes and the extended length.
pub open spec fn spec_declared_len(bytes: Seq<u8>) -> u64 {
    if bytes[1] % 0x80 == 126 {
        be16(bytes[2], bytes[3]) as u64
    } else if bytes[1] % 0x80 == 127 {
        be64(bytes.subrange(2, 10))
    } else {
        (bytes[1] % 0x80) as u64
    }
}

/// What decoding the front of `bytes` gives: the frame and the number of
/// bytes it took, or why there is none.
pub open spec fn spec_decode(bytes: Seq<u8>) -> Result<(FrameView, nat), WebSocketErrorView> {
    if bytes.len() < 2 {
        Err(WebSocketErrorView::UnexpectedEof)
    } else if OpCode::spec_from_u8(bytes[0] % 0x10) is None {
        Err(WebSocketErrorView::InvalidOpcode)
    } else if bytes.len() < spec_header_len(bytes[1]) {
        Err(WebSocketErrorView::UnexpectedEof)
    } else if bytes.len() < spec_header_len(bytes[1]) + spec_declared_len(bytes) {
        Err(WebSocketErrorView::UnexpectedEof)
    } else {
        let header_len = spec_header_len(bytes[1]) as int;
        let payload_len = spec_declared_len(bytes);
        let mask = bytes[1] >= 0x80;
        let raw = bytes.subrange(header_len, header_len + payload_len);
        let key = [
            bytes[header_len - 4],
            bytes[header_len - 3],
            bytes[header_len - 2],
            bytes[header_len - 1],
        ];
        Ok(
            (
                FrameView {
                    fin: bytes[0] >= 0x80,
                    op_code: OpCode::spec_from_u8(bytes[0] % 0x10)->0,
                    mask,
                    payload_len,
                    mask_key: if mask {
                        Some(key)
                    } else {
                        None
                    },
                    payload: if mask {
                        spec_mask(raw, key@)
                    } else {
                        raw
                    },
                },
                (header_len + payload_len) as nat,
            ),
        )
    }
}

/// How many bytes are still to be read after `bytes` before the next
/// decision on a frame can be taken: the rest of the first two bytes, then
/// the rest of the header, then the rest of the payload. Zero means that
/// `bytes` holds a whole frame.
pub open spec fn spec_missing(bytes: Seq<u8>) -> Result<u64, WebSocketErrorView> {
    if bytes.len() < 2 {
        Ok((2 - bytes.len()) as u64)
    } else if OpCode::spec_from_u8(bytes[0] % 0x10) is None {
        Err(WebSocketErrorView::InvalidOpcode)
    } else if bytes.len() < spec_header_len(bytes[1]) {
        Ok((spec_header_len(bytes[1]) - bytes.len()) as u64)
    } else if bytes.len() < spec_header_len(bytes[1]) + spec_declared_len(bytes) {
        Ok((spec_header_len(bytes[1]) + spec_declared_len(bytes) - bytes.len()) as u64)
    } else {
        Ok(0)
    }
}

impl FrameView {
    /// A frame is well formed when its payload is as long as declared and
    /// it has a masking key exactly if it is masked.
    pub open spec fn wf(self) -> bool {
        &&& self.payload.len() == self.payload_len
        &&& self.mask_key is Some <==> self.mask
    }

    /// The unmasked final frame that [`Frame::new`] builds.
    pub open spec fn spec_new(op_code: OpCode, payload: Seq<u8>) -> FrameView {
        FrameView {
            fin: true,
            op_code,
            mask: false,
            payload_len: payload.len() as u64,
            mask_key: None,
            payload,
        }
    }

    /// The second header byte and the extended length after it.
    pub open spec fn spec_length_field(self) -> Seq<u8> {
        if self.payload_len <= 125 {
            seq![(bit_value(self.mask, 0x80) + self.payload_len) as u8]
        } else if self.payload_len <= 65535 {
            seq![(bit_value(self.mask, 0x80) + 126) as u8] + be16_bytes(self.payload_len as u16)
        } else {
            seq![(bit_value(self.mask, 0x80) + 127) as u8] + be64_bytes(self.payload_len)
        }
    }

    /// The masking key as it travels: its four bytes, or nothing.
    pub open spec fn spec_key_field(self) -> Seq<u8> {
        match self.mask_key {
            Some(key) => key@,
            None => Seq::empty(),
        }
    }

    /// The payload as it travels: masked with the key in a masked frame,
    /// as it is in an unmasked one. A masked frame without a key carries
    /// no payload bytes.
    pub open spec fn spec_payload_field(self) -> Seq<u8> {
        if self.mask {
            match self.mask_key {
                Some(key) => spec_mask(self.payload, key@),
                None => Seq::empty(),
            }
        } else {
            self.payload
        }
    }

    /// The bytes of the frame on the wire.
    pub open spec fn spec_to_bytes(self) -> Seq<u8> {
        seq![(bit_value(self.fin, 0x80) + self.op_code.spec_to_u8()) as u8]
            + self.spec_length_field() + self.spec_key_field() + self.spec_payload_field()
    }

    /// The header of a well-formed frame reads back as it was written: the
    /// first two bytes, the header length and the declared payload length.
    pub proof fn lemma_header_reads_back(self, rest: Seq<u8>)
        requires
            self.wf(),
        ensures
            ({
                let bytes = self.spec_to_bytes() + rest;
                let header_len = (1 + self.spec_length_field().len()
                    + self.spec_key_field().len()) as int;
                &&& bytes.len() >= header_len + self.payload_len
                &&& bytes[0] == bit_value(self.fin, 0x80) + self.op_code.spec_to_u8()
                &&& (bytes[1] >= 0x80) == self.mask
                &&& spec_header_len(bytes[1]) == header_len
                &&& spec_declared_len(bytes) == self.payload_len
                &&& bytes.subrange(header_len, header_len + self.payload_len)
                    == self.spec_payload_field()
                &&& self.spec_to_bytes().len() == header_len + self.payload_len
            }),
    {
        let bytes = self.spec_to_bytes() + rest;
        let field = self.spec_length_field();
        let key_field = self.spec_key_field();
        let header_len = (1 + field.len() + key_field.len()) as int;
        assert(bytes[0] == self.spec_to_bytes()[0]);
        assert(bytes[1] == field[0]);
        if self.payload_len <= 125 {
            assert(field.len() == 1);
        } else if self.payload_len <= 65535 {
            assert(field.len() == 3);
            assert(bytes[2] == be16_bytes(self.payload_len as u16)[0]);
            assert(bytes[3] == be16_bytes(self.payload_len as u16)[1]);
            lemma_be16_round_trip(self.payload_len as u16);
        } else {
            assert(field.len() == 9);
            assert(bytes.subrange(2, 10) =~= be64_bytes(self.payload_len));
            lemma_be64_round_trip(self.payload_len);
        }
        match self.mask_key {
            Some(key) => {
                assert(key_field.len() == 4);
            },
            None => {
                assert(key_field.len() == 0);
            },
        }
        assert(self.spec_payload_field().len() == self.payload_len);
        assert(bytes.subrange(header_len, header_len + self.payload_len)
            =~= self.spec_payload_field());
    }

    /// Decoding undoes encoding: a well-formed frame comes back unchanged
    /// from its own bytes, whatever follows them, and the count of bytes
    /// taken is the length of its encoding.
    pub proof fn lemma_round_trip(self, rest: Seq<u8>)
        requires
            self.wf(),
        ensures
            spec_decode(self.spec_to_bytes() + rest) == Ok::<
                (FrameView, nat),
                WebSocketErrorView,
            >((self, self.spec_to_bytes().len())),
    {
        let bytes = self.spec_to_bytes() + rest;
        let header_len = (1 + self.spec_length_field().len() + self.spec_key_field().len()) as int;
        self.lemma_header_reads_back(rest);
        let code = self.op_code.spec_to_u8();
        assert(bytes[0] % 0x10 == code);
        assert(OpCode::spec_from_u8(code) == Some(self.op_code));
        assert((bytes[0] >= 0x80) == self.fin);
        match self.mask_key {
            Some(key) => {
                let back = [
                    bytes[header_len - 4],
                    bytes[header_len - 3],
                    bytes[header_len - 2],
                    bytes[header_len - 1],
                ];
                assert(forall|i: int|
                    0 <= i < 4 ==> bytes[header_len - 4 + i] == self.spec_key_field()[i]);
                assert(back =~= key);
                lemma_mask_involution(self.payload, key@);
            },
            None => {},
        }
        let decoded = spec_decode(bytes)->Ok_0;
        assert(decoded.0.payload =~= self.payload);
    }
}

/// The reading plan and the decoder agree: nothing is missing exactly when
/// a frame decodes, an invalid opcode is reported by both, and bytes that
/// are missing mean that decoding stops for lack of input.
pub proof fn lemma_missing_agrees_with_decode(bytes: Seq<u8>)
    ensures
        spec_missing(bytes) == Ok::<u64, WebSocketErrorView>(0) <==> spec_decode(bytes) is Ok,
        spec_missing(bytes) is Err <==> spec_decode(bytes) == Err::<
            (FrameView, nat),
            WebSocketErrorView,
        >(WebSocketErrorView::InvalidOpcode),
        (spec_missing(bytes) matches Ok(n) && n > 0) <==> spec_decode(bytes) == Err::<
            (FrameView, nat),
            WebSocketErrorView,
        >(WebSocketErrorView::UnexpectedEof),
{
}

/// Reads the header fields that both [`Frame::decode`] and
/// [`Frame::missing`] start from: the header length and the declared
/// payload length. `None` while the header itself is incomplete.
fn read_lengths(bytes: &[u8]) -> (lengths: Option<(usize, u64)>)
    requires
        bytes@.len() >= 2,
    ensures
        lengths is None <==> bytes@.len() < spec_header_len(bytes@[1]),
        lengths matches Some((header_len, payload_len)) ==> header_len == spec_header_len(
            bytes@[1],
        ) && payload_len == spec_declared_len(bytes@) && header_len <= 14,
{
    let second = bytes[1];
    assert(second & 0x7F == second % 0x80) by (bit_vector);
    assert((second & 0x80 != 0) == (second >= 0x80)) by (bit_vector);
    let base = second & 0x7F;
    let ext: usize = if base == 126 {
        2
    } else if base == 127 {
        8
    } else {
        0
    };
    let key_len: usize = if (second & 0x80) != 0 {
        4
    } else {
        0
    };
    let header_len: usize = 2 + ext + key_len;
    if bytes.len() < header_len {
        return None;
    }
    let payload_len: u64 = if base == 126 {
        u16_from_be(bytes[2], bytes[3]) as u64
    } else if base == 127 {
        let be: [u8; 8] = [
            bytes[2],
            bytes[3],
            bytes[4],
            bytes[5],
            bytes[6],
            bytes[7],
            bytes[8],
            bytes[9],
        ];
        assert(be@ =~= bytes@.subrange(2, 10));
        u64_from_be(be)
    } else {
        base as u64
    };
    Some((header_len, payload_len))
}

impl Frame {
    /// A final, unmasked frame around `payload`.
    pub fn new(opcode: OpCode, payload: Vec<u8>) -> (frame: Frame)
        ensures
            frame@ == FrameView::spec_new(opcode, payload@),
            frame@.wf(),
    {
        Frame {
            fin: true,
            op_code: opcode,
            mask: false,
            payload_len: payload.len() as u64,
            mask_key: None,
            payload,
        }
    }

    /// The frame that the first two header bytes describe: flags, opcode
    /// and declared length, with neither key nor payload yet.
    pub fn parse(fin: bool, opcode: OpCode, masked: bool, payload_len: u64) -> (result: Result<
        Frame,
        WebSocketError,
    >)
        ensures
            result matches Ok(frame) && frame@ == (FrameView {
                fin,
                op_code: opcode,
                mask: masked,
                payload_len,
                mask_key: None,
                payload: Seq::empty(),
            }),
    {
        Ok(
            Frame {
                fin,
                op_code: opcode,
                mask: masked,
                payload_len,
                mask_key: None,
                payload: Vec::new(),
            },
        )
    }

    /// Encodes the frame.
    ///
    /// Byte 0 holds the FIN bit and the opcode. Byte 1 holds the MASK bit
    /// and the length: the length itself up to 125, else 126 and two more
    /// bytes for lengths up to 65535, else 127 and eight more bytes. Then
    /// comes the masking key if there is one, then the payload, masked if
    /// the frame is.
    pub fn to_bytes(&self) -> (bytes: Vec<u8>)
        ensures
            bytes@ == self@.spec_to_bytes(),
    {
        let mut bytes: Vec<u8> = Vec::new();
        let fin_bit: u8 = if self.fin { 0x80 } else { 0x00 };
        let code = self.op_code.to_u8();
        assert(fin_bit | code == fin_bit + code) by (bit_vector)
            requires
                code < 0x10,
                fin_bit == 0 || fin_bit == 0x80,
        ;
        bytes.push(fin_bit | code);
        let mask_bit: u8 = if self.mask { 0x80 } else { 0x00 };
        if self.payload_len <= 125 {
            let length = self.payload_len as u8;
            assert(mask_bit | length == mask_bit + length) by (bit_vector)
                requires
                    length < 0x80,
                    mask_bit == 0 || mask_bit == 0x80,
            ;
            bytes.push(mask_bit | length);
        } else if self.payload_len <= 65535 {
            assert(mask_bit | 126 == mask_bit + 126) by (bit_vector)
                requires
                    mask_bit == 0 || mask_bit == 0x80,
            ;
            bytes.push(mask_bit | 126);
            push_u16(&mut bytes, self.payload_len as u16);
        } else {
            assert(mask_bit | 127 == mask_bit + 127) by (bit_vector)
                requires
                    mask_bit == 0 || mask_bit == 0x80,
            ;
            bytes.push(mask_bit | 127);
            let be = u64_to_be(self.payload_len);
            push_all(&mut bytes, be.as_slice());
        }
        assert(bytes@ =~= seq![(bit_value(self.fin, 0x80) + self.op_code.spec_to_u8()) as u8]
            + self@.spec_length_field());
        match self.mask_key {
            Some(key) => {
                push_all(&mut bytes, key.as_slice());
            },
            None => {},
        }
        if self.mask {
            match self.mask_key {
                Some(key) => {
                    let masked = mask_payload(self.payload.as_slice(), &key);
                    push_all(&mut bytes, masked.as_slice());
                },
                None => {},
            }
        } else {
            push_all(&mut bytes, self.payload.as_slice());
        }
        assert(bytes@ =~= self@.spec_to_bytes());
        bytes
    }

    /// Decodes one frame from the front of `bytes` and says how many bytes
    /// it took.
    ///
    /// Fails with [`WebSocketError::UnexpectedEof`] when `bytes` ends before
    /// the first two bytes, the header or the payload are complete, and
    /// with [`WebSocketError::InvalidOpcode`] when the opcode is none of
    /// 0x0, 0x1, 0x2, 0x8, 0x9, 0xA. A masked payload comes back unmasked.
    pub fn decode(bytes: &[u8]) -> (result: Result<(Frame, usize), WebSocketError>)
        ensures
            match result {
                Ok((frame, taken)) => spec_decode(bytes@) == Ok::<
                    (FrameView, nat),
                    WebSocketErrorView,
                >((frame@, taken as nat)) && frame@.wf(),
                Err(e) => spec_decode(bytes@) == Err::<(FrameView, nat), WebSocketErrorView>(e@),
            },
    {
        let len = bytes.len();
        if len < 2 {
            return Err(WebSocketError::UnexpectedEof);
        }
        let first = bytes[0];
        let second = bytes[1];
        assert(first & 0x0F == first % 0x10) by (bit_vector);
        assert((first & 0x80 != 0) == (first >= 0x80)) by (bit_vector);
        assert((second & 0x80 != 0) == (second >= 0x80)) by (bit_vector);
        let op_code = match OpCode::from_u8(first & 0x0F) {
            Some(op_code) => op_code,
            None => {
                return Err(WebSocketError::InvalidOpcode);
            },
        };
        let (header_len, payload_len) = match read_lengths(bytes) {
            Some(lengths) => lengths,
            None => {
                return Err(WebSocketError::UnexpectedEof);
            },
        };
        if ((len - header_len) as u64) < payload_len {
            return Err(WebSocketError::UnexpectedEof);
        }
        let end: usize = header_len + payload_len as usize;
        let raw = &bytes[header_len..end];
        let mask = (second & 0x80) != 0;
        if mask {
            let key: [u8; 4] = [
                bytes[header_len - 4],
                bytes[header_len - 3],
                bytes[header_len - 2],
                bytes[header_len - 1],
            ];
            let payload = mask_payload(raw, &key);
            Ok(
                (
                    Frame {
                        fin: (first & 0x80) != 0,
                        op_code,
                        mask,
                        payload_len,
                        mask_key: Some(key),
                        payload,
                    },
                    end,
                ),
            )
        } else {
            Ok(
                (
                    Frame {
                        fin: (first & 0x80) != 0,
                        op_code,
                        mask,
                        payload_len,
                        mask_key: None,
                        payload: slice_to_vec(raw),
                    },
                    end,
                ),
            )
        }
    }

    /// Says how many bytes to read next while a frame comes in piece by
    /// piece: given what was read of it so far, the rest of the first two
    /// bytes, then the rest of the header, then the rest of the payload.
    /// Zero means that `bytes` holds the whole frame and
    /// [`Frame::decode`] will succeed.
    ///
    /// Fails with [`WebSocketError::InvalidOpcode`] as soon as the first
    /// byte shows an opcode that the protocol does not define.
    pub fn missing(bytes: &[u8]) -> (result: Result<u64, WebSocketError>)
        ensures
            match result {
                Ok(count) => spec_missing(bytes@) == Ok::<u64, WebSocketErrorView>(count),
                Err(e) => spec_missing(bytes@) == Err::<u64, WebSocketErrorView>(e@),
            },
    {
        let len = bytes.len();
        if len < 2 {
            return Ok((2 - len) as u64);
        }
        let first = bytes[0];
        assert(first & 0x0F == first % 0x10) by (bit_vector);
        if OpCode::from_u8(first & 0x0F).is_none() {
            return Err(WebSocketError::InvalidOpcode);
        }
        match read_lengths(bytes) {
            None => {
                let second = bytes[1];
                assert(second & 0x7F == second % 0x80) by (bit_vector);
                assert((second & 0x80 != 0) == (second >= 0x80)) by (bit_vector);
                let base = second & 0x7F;
                let ext: usize = if base == 126 {
                    2
                } else if base == 127 {
                    8
                } else {
                    0
                };
                let key_len: usize = if (second & 0x80) != 0 {
                    4
                } else {
                    0
                };
                Ok((2 + ext + key_len - len) as u64)
            },
            Some((header_len, payload_len)) => {
                let have = (len - header_len) as u64;
                if have < payload_len {
                    Ok(payload_len - have)
                } else {
                    Ok(0)
                }
            },
        }
    }
}

} // verus!
