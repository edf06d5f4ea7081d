//! Messages a connection sends and their wire form as single WebSocket
//! frames, ready to be shared between all subscribers of a room.

use vstd::prelude::*;
use vstd::slice::slice_to_vec;
use vstd::utf8::encode_utf8;

use crate::common::utils::random_byte;

verus! {

/// Frame type of a text message.
pub const OPCODE_TEXT: u8 = 1;

/// Frame type of a binary message.
pub const OPCODE_BINARY: u8 = 2;

/// Frame type of a close message.
pub const OPCODE_CLOSE: u8 = 8;

/// Why a connection is closed.
#[derive(Clone, Copy, Debug, PartialEq, Eq, Structural)]
pub enum CloseCode {
    /// The purpose of the connection was fulfilled.
    Normal,
    /// The endpoint goes away.
    Away,
    /// The peer broke the protocol.
    Protocol,
    /// The server met a condition that keeps it from serving the request.
    Error,
    /// Any other status code.
    Other(u16),
}

impl CloseCode {
    /// The status code that goes over the wire.
    pub open spec fn spec_code(self) -> u16 {
        match self {
            CloseCode::Normal => 1000,
            CloseCode::Away => 1001,
            CloseCode::Protocol => 1002,
            CloseCode::Error => 1011,
            CloseCode::Other(code) => code,
        }
    }

    #[verifier::when_used_as_spec(spec_code)]
    pub fn code(self) -> (code: u16)
        ensures
            code == self.spec_code(),
    {
        match self {
            CloseCode::Normal => 1000,
            CloseCode::Away => 1001,
            CloseCode::Protocol => 1002,
            CloseCode::Error => 1011,
            CloseCode::Other(code) => code,
        }
    }
}

/// The status and the reason that a close message carries.
pub struct CloseFrame {
    pub code: CloseCode,
    pub reason: String,
}

/// A message for one connection.
pub enum WebSocketMessage {
    Text(String),
    Binary(Vec<u8>),
    Close(Option<CloseFrame>),
}

/// The `width` low-order bytes of `n`, most significant first.
pub open spec fn be_bytes(n: nat, width: nat) -> Seq<u8>
    decreases width,
{
    if width == 0 {
        Seq::<u8>::empty()
    } else {
        be_bytes(n / 256, (width - 1) as nat).push((n % 256) as u8)
    }
}

/// How a frame announces a payload of `len` bytes: lengths below 126 in one
/// byte, lengths below 65536 as the byte 126 and two length bytes, longer
/// ones as the byte 127 and eight length bytes. `mask_bit` is 128 for a
/// masked frame and 0 for an unmasked one.
pub open spec fn length_bytes(len: nat, mask_bit: u8) -> Seq<u8> {
    if len < 126 {
        seq![(len + mask_bit) as u8]
    } else if len < 65536 {
        seq![(126 + mask_bit) as u8] + be_bytes(len, 2)
    } else {
        seq![(127 + mask_bit) as u8] + be_bytes(len, 8)
    }
}

/// The payload with each byte combined, by exclusive or, with the mask byte
/// at its index modulo four.
pub open spec fn masked(payload: Seq<u8>, mask: Seq<u8>) -> Seq<u8>
    recommends
        mask.len() == 4,
{
    Seq::new(payload.len(), |i: int| payload[i] ^ mask[i % 4])
}

/// A final, unfragmented frame as a server sends it: the type with the
/// final bit, the length, the payload as it is.
pub open spec fn server_frame(opcode: u8, payload: Seq<u8>) -> Seq<u8> {
    seq![(128 + opcode) as u8] + length_bytes(payload.len(), 0) + payload
}

/// A final, unfragmented frame as a client sends it: the type with the
/// final bit, the length with the mask bit, the four mask bytes, the masked
/// payload.
pub open spec fn client_frame(opcode: u8, payload: Seq<u8>, mask: Seq<u8>) -> Seq<u8> {
    seq![(128 + opcode) as u8] + length_bytes(payload.len(), 128) + mask + masked(payload, mask)
}

/// The payload of a close message: nothing, or the status code in two bytes
/// followed by the reason.
pub open spec fn close_payload(frame: Option<CloseFrame>) -> Seq<u8> {
    match frame {
        None => Seq::<u8>::empty(),
        Some(frame) => be_bytes(frame.code.spec_code() as nat, 2) + encode_utf8(frame.reason@),
    }
}


impl WebSocketMessage {
    /// The frame type of the message.
    pub open spec fn opcode(self) -> u8 {
        match self {
            WebSocketMessage::Text(_) => OPCODE_TEXT,
            WebSocketMessage::Binary(_) => OPCODE_BINARY,
            WebSocketMessage::Close(_) => OPCODE_CLOSE,
        }
    }

    /// The bytes the message carries: a text in UTF-8, binary data as it
    /// is, a close status as `close_payload` gives it.
    pub open spec fn payload(self) -> Seq<u8> {
        match self {
            WebSocketMessage::Text(text) => encode_utf8(text@),
            WebSocketMessage::Binary(data) => data@,
            WebSocketMessage::Close(frame) => close_payload(frame),
        }
    }

    /// Takes the message apart into frame type and payload.
    fn into_parts(self) -> (parts: (u8, Vec<u8>))
        ensures
            parts.0 == self.opcode(),
            parts.1@ == self.payload(),
    {
        match self {
            WebSocketMessage::Text(text) => (OPCODE_TEXT, slice_to_vec(text.as_str().as_bytes())),
            WebSocketMessage::Binary(data) => (OPCODE_BINARY, data),
            WebSocketMessage::Close(None) => (OPCODE_CLOSE, Vec::new()),
            WebSocketMessage::Close(Some(frame)) => {
                let mut payload: Vec<u8> = Vec::new();
                push_be(&mut payload, frame.code.code() as u64, 2);
                let reason = frame.reason.as_str().as_bytes();
                let mut i: usize = 0;
                let ghost head = payload@;
                while i < reason.len()
                    invariant
                        i <= reason.len(),
                        payload@ == head + reason@.take(i as int),
                    decreases reason.len() - i,
                {
                    payload.push(reason[i]);
                    i = i + 1;
                }
                (OPCODE_CLOSE, payload)
            },
        }
    }

    /// The message as one unmasked frame, the form in which a server sends
    /// it. The bytes are final: they can be handed to every subscriber and
    /// written to a socket as they are.
    pub fn into_server_shared_bytes(self) -> (bytes: Vec<u8>)
        ensures
            bytes@ == server_frame(self.opcode(), self.payload()),
    {
        let (opcode, payload) = self.into_parts();
        let mut bytes: Vec<u8> = Vec::new();
        bytes.push(128 + opcode);
        push_length(&mut bytes, payload.len(), 0);
        let ghost head = bytes@;
        let mut i: usize = 0;
        while i < payload.len()
            invariant
                i <= payload.len(),
                bytes@ == head + payload@.take(i as int),
            decreases payload.len() - i,
        {
            bytes.push(payload[i]);
            i = i + 1;
        }
        bytes
    }

    /// The message as one frame masked with `mask`, the form in which a
    /// client sends it.
    pub fn into_client_shared_bytes_with(self, mask: [u8; 4]) -> (bytes: Vec<u8>)
        ensures
            bytes@ == client_frame(self.opcode(), self.payload(), mask@),
    {
        let (opcode, payload) = self.into_parts();
        let mut bytes: Vec<u8> = Vec::new();
        bytes.push(128 + opcode);
        push_length(&mut bytes, payload.len(), 128);
        bytes.push(mask[0]);
        bytes.push(mask[1]);
        bytes.push(mask[2]);
        bytes.push(mask[3]);
        let ghost head = bytes@;
        let mut i: usize = 0;
        while i < payload.len()
            invariant
                i <= payload.len(),
                bytes@ == head + masked(payload@, mask@).take(i as int),
            decreases payload.len() - i,
        {
            bytes.push(payload[i] ^ mask[i % 4]);
            i = i + 1;
        }
        bytes
    }

    /// The message as one frame masked with four bytes drawn at random, the
    /// form in which a client sends it.
    pub fn into_client_shared_bytes(self) -> (bytes: Vec<u8>)
        ensures
            exists|mask: Seq<u8>|
                mask.len() == 4 && bytes@ == #[trigger] client_frame(
                    self.opcode(),
                    self.payload(),
                    mask,
                ),
    {
        let mask: [u8; 4] = [random_byte(), random_byte(), random_byte(), random_byte()];
        self.into_client_shared_bytes_with(mask)
    }
}

/// Appends the `width` low-order bytes of `n`, most significant first.
fn push_be(out: &mut Vec<u8>, n: u64, width: usize)
    ensures
        final(out)@ == old(out)@ + be_bytes(n as nat, width as nat),
    decreases width,
{
    if width > 0 {
        push_be(out, n / 256, (width - 1) as usize);
        out.push((n % 256) as u8);
    }
}

/// Appends the length field of a frame.
fn push_length(out: &mut Vec<u8>, len: usize, mask_bit: u8)
    requires
        mask_bit == 0 || mask_bit == 128,
    ensures
        final(out)@ == old(out)@ + length_bytes(len as nat, mask_bit),
{
    if len < 126 {
        out.push(len as u8 + mask_bit);
    } else if len < 65536 {
        out.push(126 + mask_bit);
        push_be(out, len as u64, 2);
    } else {
        out.push(127 + mask_bit);
        push_be(out, len as u64, 8);
    }
}

/// Masking is its own inverse: masking a masked payload with the same mask
/// gives back the payload.
pub proof fn lemma_mask_twice(payload: Seq<u8>, mask: Seq<u8>)
    requires
        mask.len() == 4,
    ensures
        masked(masked(payload, mask), mask) == payload,
{
    assert forall|i: int| 0 <= i < payload.len() implies masked(masked(payload, mask), mask)[i]
        == payload[i] by {
        let p = payload[i];
        let m = mask[i % 4];
        assert((p ^ m) ^ m == p) by (bit_vector);
    }
}

} // verus!
