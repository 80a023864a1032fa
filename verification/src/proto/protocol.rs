//! Single-packet layout of the protocol: every packet is one unit on the wire,
//! with its flag and its typed payload.
//!
//! ```text
//! 0                  16      24        32 bit
//! |       Magic Number       | Version |
//! |  Payload Length  |  Flag |  Type   |
//! |         Payload (variable)         |
//! ```
use crate::proto::error::{Error, ErrorView};
pub use crate::proto::frame::Flag;
use crate::proto::frame::{
    bad_flag, check_header, decoded_frame, flag_of_byte, frame_bytes, header_bytes, header_fault,
    lemma_frame_layout, malformed, malformed_error, FrameView, HEADER_SIZE_BYTE, MAGIC_NUMBER,
    VERSION,
};
use crate::text::{decimal, push_decimal};
use crate::wire::{
    be16_at, be32, be32_at, copy_range, law_big_endian, lemma_be32_read_back,
    lemma_be32_write_back, push_be16, push_be32, push_bytes, read_be16, read_be32,
};
use vstd::prelude::*;
use vstd::slice::slice_subrange;

verus! {

/// A single packet of the Network Character Device Protocol.
#[derive(Debug)]
pub struct Packet {
    pub flag: Flag,
    pub typed_payload: TypedPayload,
}

/// What a packet carries.
#[derive(Debug)]
pub enum TypedPayload {
    ControlHello,
    ControlClose,
    ControlKeepAlive,
    ControlPing { id: u32 },
    ControlPong { id: u32 },
    Data(Vec<u8>),
}

/// The mathematical content of a [`TypedPayload`].
#[verifier::ext_equal]
pub enum PayloadView {
    ControlHello,
    ControlClose,
    ControlKeepAlive,
    ControlPing { id: u32 },
    ControlPong { id: u32 },
    Data(Seq<u8>),
}

impl View for TypedPayload {
    type V = PayloadView;

    open spec fn view(&self) -> PayloadView {
        match self {
            TypedPayload::ControlHello => PayloadView::ControlHello,
            TypedPayload::ControlClose => PayloadView::ControlClose,
            TypedPayload::ControlKeepAlive => PayloadView::ControlKeepAlive,
            TypedPayload::ControlPing { id } => PayloadView::ControlPing { id: *id },
            TypedPayload::ControlPong { id } => PayloadView::ControlPong { id: *id },
            TypedPayload::Data(data) => PayloadView::Data(data@),
        }
    }
}

/// The type byte of a payload.
pub open spec fn payload_tag(p: PayloadView) -> u8 {
    match p {
        PayloadView::ControlHello => 1,
        PayloadView::ControlClose => 2,
        PayloadView::ControlKeepAlive => 3,
        PayloadView::ControlPing { .. } => 4,
        PayloadView::ControlPong { .. } => 5,
        PayloadView::Data(_) => 6,
    }
}

/// The bytes of a payload.
pub open spec fn payload_body(p: PayloadView) -> Seq<u8> {
    match p {
        PayloadView::ControlHello => Seq::empty(),
        PayloadView::ControlClose => Seq::empty(),
        PayloadView::ControlKeepAlive => Seq::empty(),
        PayloadView::ControlPing { id } => be32(id),
        PayloadView::ControlPong { id } => be32(id),
        PayloadView::Data(data) => data,
    }
}

/// What a type byte and some bytes read as.
pub open spec fn decoded_body(tag: u8, src: Seq<u8>) -> Result<PayloadView, ErrorView> {
    if tag == 1 {
        Ok(PayloadView::ControlHello)
    } else if tag == 2 {
        Ok(PayloadView::ControlClose)
    } else if tag == 3 {
        Ok(PayloadView::ControlKeepAlive)
    } else if tag == 4 {
        if src.len() != 4 {
            Err(malformed("Source data is too short for ControlPing"@))
        } else {
            Ok(PayloadView::ControlPing { id: be32_at(src, 0) as u32 })
        }
    } else if tag == 5 {
        if src.len() != 4 {
            Err(malformed("Source data is too short for ControlPong"@))
        } else {
            Ok(PayloadView::ControlPong { id: be32_at(src, 0) as u32 })
        }
    } else if tag == 6 {
        Ok(PayloadView::Data(src))
    } else {
        Err(malformed("Unknown tag: "@ + decimal(tag as nat)))
    }
}

/// The frame whose bytes are those of a packet.
pub open spec fn packet_frame(flag: Flag, p: PayloadView) -> FrameView {
    FrameView { flag, ty: payload_tag(p), payload: payload_body(p) }
}

/// What the start of `src` reads as.
pub open spec fn decoded(src: Seq<u8>) -> Result<(Flag, PayloadView), ErrorView> {
    if src.len() < HEADER_SIZE_BYTE {
        Err(malformed("Source data is too short"@))
    } else if let Some(e) = header_fault(src) {
        Err(e)
    } else if src.len() < HEADER_SIZE_BYTE + be16_at(src, 4) {
        Err(malformed("Source data is too short for payload"@))
    } else {
        match decoded_body(
            src[7],
            src.subrange(HEADER_SIZE_BYTE as int, HEADER_SIZE_BYTE + be16_at(src, 4) as int),
        ) {
            Err(e) => Err(e),
            Ok(p) => match flag_of_byte(src[6]) {
                Some(flag) => Ok((flag, p)),
                None => Err(bad_flag(src[6])),
            },
        }
    }
}

impl TypedPayload {
    /// The type byte of this payload.
    pub fn tag(&self) -> (r: u8)
        ensures
            r == payload_tag(self@),
    {
        match self {
            TypedPayload::ControlHello => 0x01,
            TypedPayload::ControlClose => 0x02,
            TypedPayload::ControlKeepAlive => 0x03,
            TypedPayload::ControlPing { .. } => 0x04,
            TypedPayload::ControlPong { .. } => 0x05,
            TypedPayload::Data(_) => 0x06,
        }
    }

    /// The bytes of this payload.
    pub fn encode_body(&self) -> (r: Vec<u8>)
        ensures
            r@ == payload_body(self@),
    {
        let mut out: Vec<u8> = Vec::new();
        match self {
            TypedPayload::ControlHello
            | TypedPayload::ControlClose
            | TypedPayload::ControlKeepAlive => {},
            TypedPayload::ControlPing { id } => {
                push_be32(&mut out, *id);
            },
            TypedPayload::ControlPong { id } => {
                push_be32(&mut out, *id);
            },
            TypedPayload::Data(data) => {
                push_bytes(&mut out, data.as_slice());
            },
        }
        assert(out@ =~= payload_body(self@));
        out
    }

    /// Reads a payload from its type byte and its bytes.
    pub fn decode_body(tag: u8, src: &[u8]) -> (r: Result<TypedPayload, Error>)
        ensures
            match r {
                Ok(p) => decoded_body(tag, src@) == Ok::<PayloadView, ErrorView>(p@),
                Err(e) => decoded_body(tag, src@) == Err::<PayloadView, ErrorView>(e@),
            },
    {
        match tag {
            0x01 => Ok(TypedPayload::ControlHello),
            0x02 => Ok(TypedPayload::ControlClose),
            0x03 => Ok(TypedPayload::ControlKeepAlive),
            0x04 => {
                if src.len() != 4 {
                    return Err(
                        malformed_error("Source data is too short for ControlPing".to_owned()),
                    );
                }
                Ok(TypedPayload::ControlPing { id: read_be32(src, 0) })
            },
            0x05 => {
                if src.len() != 4 {
                    return Err(
                        malformed_error("Source data is too short for ControlPong".to_owned()),
                    );
                }
                Ok(TypedPayload::ControlPong { id: read_be32(src, 0) })
            },
            0x06 => {
                let data = copy_range(src, 0, src.len());
                assert(data@ =~= src@);
                Ok(TypedPayload::Data(data))
            },
            _ => {
                let mut text = "Unknown tag: ".to_owned();
                push_decimal(&mut text, tag as u64);
                Err(malformed_error(text))
            },
        }
    }

    /// The number of bytes of this payload.
    pub fn length(&self) -> (r: usize)
        ensures
            r == payload_body(self@).len(),
    {
        match self {
            TypedPayload::ControlHello
            | TypedPayload::ControlClose
            | TypedPayload::ControlKeepAlive => 0,
            TypedPayload::ControlPing { .. } | TypedPayload::ControlPong { .. } => 4,
            TypedPayload::Data(data) => data.len(),
        }
    }
}

impl Packet {
    /// The packet as it stands on the wire. Its payload has to fit the 16 bit
    /// length field.
    pub fn encode(&self) -> (r: Vec<u8>)
        requires
            payload_body(self.typed_payload@).len() <= u16::MAX,
        ensures
            r@ == frame_bytes(packet_frame(self.flag, self.typed_payload@)),
    {
        let length: usize = self.typed_payload.length();
        let mut buf: Vec<u8> = Vec::with_capacity(HEADER_SIZE_BYTE + length);
        push_bytes(&mut buf, MAGIC_NUMBER.as_slice());
        buf.push(VERSION);
        push_be16(&mut buf, length as u16);
        buf.push(self.flag.to_byte());
        buf.push(self.typed_payload.tag());
        assert(buf@ =~= header_bytes(packet_frame(self.flag, self.typed_payload@)));
        let body = self.typed_payload.encode_body();
        push_bytes(&mut buf, body.as_slice());
        buf
    }

    /// Reads the packet at the start of `src`.
    pub fn decode(src: &[u8]) -> (r: Result<Packet, Error>)
        ensures
            match r {
                Ok(p) => decoded(src@) == Ok::<(Flag, PayloadView), ErrorView>(
                    (p.flag, p.typed_payload@),
                ),
                Err(e) => decoded(src@) == Err::<(Flag, PayloadView), ErrorView>(e@),
            },
    {
        if src.len() < HEADER_SIZE_BYTE {
            return Err(malformed_error("Source data is too short".to_owned()));
        }
        match check_header(src) {
            Ok(()) => {},
            Err(e) => {
                return Err(e);
            },
        }
        let length: usize = read_be16(src, 4) as usize;
        if src.len() < HEADER_SIZE_BYTE + length {
            return Err(malformed_error("Source data is too short for payload".to_owned()));
        }
        let payload = slice_subrange(src, HEADER_SIZE_BYTE, HEADER_SIZE_BYTE + length);
        match TypedPayload::decode_body(src[7], payload) {
            Err(e) => Err(e),
            Ok(typed_payload) => match Flag::from_byte(src[6]) {
                Ok(flag) => Ok(Packet { flag, typed_payload }),
                Err(e) => Err(e),
            },
        }
    }
}

/// A packet whose payload fits is read back unchanged from its own bytes,
/// whatever follows them.
pub proof fn law_protocol_roundtrip(flag: Flag, p: PayloadView, rest: Seq<u8>)
    requires
        payload_body(p).len() <= u16::MAX,
    ensures
        decoded(frame_bytes(packet_frame(flag, p)) + rest) == Ok::<(Flag, PayloadView), ErrorView>(
            (flag, p),
        ),
{
    let f = packet_frame(flag, p);
    let src = frame_bytes(f) + rest;
    let body = payload_body(p);
    assert(frame_bytes(f) =~= src.subrange(0, frame_bytes(f).len() as int));
    lemma_frame_layout(f, src);
    match p {
        PayloadView::ControlPing { id } => {
            assert(body.subrange(0, 4) =~= body);
            lemma_be32_read_back(id, body, 0);
        },
        PayloadView::ControlPong { id } => {
            assert(body.subrange(0, 4) =~= body);
            lemma_be32_read_back(id, body, 0);
        },
        _ => {},
    }
}

/// How payloads stand on the wire: each kind has its number; pings carry one
/// number of four bytes, data carries itself, and the others carry nothing.
pub proof fn law_payload_layout(flag: Flag, p: PayloadView)
    ensures
        payload_tag(p) == match p {
            PayloadView::ControlHello => 1u8,
            PayloadView::ControlClose => 2u8,
            PayloadView::ControlKeepAlive => 3u8,
            PayloadView::ControlPing { .. } => 4u8,
            PayloadView::ControlPong { .. } => 5u8,
            PayloadView::Data(_) => 6u8,
        },
        ({
            let b = payload_body(p);
            let number = b[0] * 16777216 + b[1] * 65536 + b[2] * 256 + b[3];
            match p {
                PayloadView::ControlPing { id } => b.len() == 4 && number == id,
                PayloadView::ControlPong { id } => b.len() == 4 && number == id,
                PayloadView::Data(data) => b == data,
                _ => b.len() == 0,
            }
        }),
        packet_frame(flag, p).flag == flag,
        packet_frame(flag, p).ty == payload_tag(p),
        packet_frame(flag, p).payload == payload_body(p),
{
    match p {
        PayloadView::ControlPing { id } => {
            law_big_endian(0, id, Seq::empty(), 0);
        },
        PayloadView::ControlPong { id } => {
            law_big_endian(0, id, Seq::empty(), 0);
        },
        _ => {},
    }
}

/// Bytes start with a packet exactly if they start with a frame whose type is
/// known and whose payload, if that is a ping, has four bytes. The packet has
/// the flag of the frame.
pub proof fn law_what_is_a_single_packet(src: Seq<u8>)
    ensures
        decoded(src) is Ok <==> (decoded_frame(src) matches Ok(f) && 1 <= f.ty <= 6 && (f.ty == 4
            || f.ty == 5 ==> f.payload.len() == 4)),
        decoded(src) matches Ok((flag, p)) ==> (decoded_frame(src) matches Ok(f) && f.flag == flag
            && payload_tag(p) == f.ty && (f.ty >= 4 ==> payload_body(p) == f.payload)),
{
    if let Ok(f) = decoded_frame(src) {
        if f.payload.len() == 4 {
            lemma_be32_write_back(f.payload);
        }
    }
}

} // verus!
