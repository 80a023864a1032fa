//! Packets: what one peer tells the other.
use crate::proto::error::{
    hex_tag, push_hex_tag, Error, ErrorView, PacketDecodeError, PacketDecodeErrorView,
};
use crate::wire::{
    be32, be32_at, copy_range, law_big_endian, lemma_be32_read_back, lemma_be32_write_back,
    push_be32, push_bytes, read_be32,
};
use vstd::prelude::*;

verus! {

pub const CONTROL_HELLO_TAG: u8 = 0x01;

pub const CONTROL_HELLO_ACK_TAG: u8 = 0x02;

pub const CONTROL_CLOSE_TAG: u8 = 0x03;

pub const CONTROL_KEEP_ALIVE_TAG: u8 = 0x04;

pub const CONTROL_PING_TAG: u8 = 0x05;

pub const CONTROL_PONG_TAG: u8 = 0x06;

pub const DATA_TAG: u8 = 0x07;

/// A complete message of the protocol.
#[derive(Debug, PartialEq, Eq)]
pub enum Packet {
    /// Opens a handshake and announces how often the sender shows life.
    ControlHello { keep_alive_interval_ms: u32 },
    /// Answers a `ControlHello`.
    ControlHelloAck { keep_alive_interval_ms: u32 },
    /// Ends the connection.
    ControlClose,
    /// Shows that the sender is alive.
    ControlKeepAlive,
    /// Asks for a `ControlPong` with the same id.
    ControlPing { id: u32 },
    /// Answers a `ControlPing`.
    ControlPong { id: u32 },
    /// Bytes of the user.
    Data(Vec<u8>),
}

/// The mathematical content of a [`Packet`].
#[verifier::ext_equal]
pub enum PacketView {
    ControlHello { keep_alive_interval_ms: u32 },
    ControlHelloAck { keep_alive_interval_ms: u32 },
    ControlClose,
    ControlKeepAlive,
    ControlPing { id: u32 },
    ControlPong { id: u32 },
    Data(Seq<u8>),
}

impl View for Packet {
    type V = PacketView;

    open spec fn view(&self) -> PacketView {
        match self {
            Packet::ControlHello { keep_alive_interval_ms } => PacketView::ControlHello {
                keep_alive_interval_ms: *keep_alive_interval_ms,
            },
            Packet::ControlHelloAck { keep_alive_interval_ms } => PacketView::ControlHelloAck {
                keep_alive_interval_ms: *keep_alive_interval_ms,
            },
            Packet::ControlClose => PacketView::ControlClose,
            Packet::ControlKeepAlive => PacketView::ControlKeepAlive,
            Packet::ControlPing { id } => PacketView::ControlPing { id: *id },
            Packet::ControlPong { id } => PacketView::ControlPong { id: *id },
            Packet::Data(data) => PacketView::Data(data@),
        }
    }
}

/// The type byte of a packet.
pub open spec fn packet_tag(p: PacketView) -> u8 {
    match p {
        PacketView::ControlHello { .. } => CONTROL_HELLO_TAG,
        PacketView::ControlHelloAck { .. } => CONTROL_HELLO_ACK_TAG,
        PacketView::ControlClose => CONTROL_CLOSE_TAG,
        PacketView::ControlKeepAlive => CONTROL_KEEP_ALIVE_TAG,
        PacketView::ControlPing { .. } => CONTROL_PING_TAG,
        PacketView::ControlPong { .. } => CONTROL_PONG_TAG,
        PacketView::Data(_) => DATA_TAG,
    }
}

/// The payload of a packet.
pub open spec fn packet_body(p: PacketView) -> Seq<u8> {
    match p {
        PacketView::ControlHello { keep_alive_interval_ms } => be32(keep_alive_interval_ms),
        PacketView::ControlHelloAck { keep_alive_interval_ms } => be32(keep_alive_interval_ms),
        PacketView::ControlClose => Seq::empty(),
        PacketView::ControlKeepAlive => Seq::empty(),
        PacketView::ControlPing { id } => be32(id),
        PacketView::ControlPong { id } => be32(id),
        PacketView::Data(data) => data,
    }
}

/// The payload length that a control tag prescribes.
pub open spec fn fixed_body_length(tag: u8) -> Option<usize> {
    if tag == CONTROL_CLOSE_TAG || tag == CONTROL_KEEP_ALIVE_TAG {
        Some(0)
    } else if tag == CONTROL_HELLO_TAG || tag == CONTROL_HELLO_ACK_TAG || tag == CONTROL_PING_TAG
        || tag == CONTROL_PONG_TAG {
        Some(4)
    } else {
        None
    }
}

/// What a tag and a payload read as.
pub open spec fn decoded_packet(tag: u8, src: Seq<u8>) -> Result<PacketView, ErrorView> {
    if fixed_body_length(tag) is Some && src.len() != fixed_body_length(tag)->0 {
        Err(
            ErrorView::PacketDecodeError(
                PacketDecodeErrorView::DataLengthMismatch {
                    expected: fixed_body_length(tag)->0 as nat,
                    got: src.len(),
                    details: "Source data length mismatch for tag "@ + hex_tag(tag),
                },
            ),
        )
    } else if tag == CONTROL_HELLO_TAG {
        Ok(PacketView::ControlHello { keep_alive_interval_ms: be32_at(src, 0) as u32 })
    } else if tag == CONTROL_HELLO_ACK_TAG {
        Ok(PacketView::ControlHelloAck { keep_alive_interval_ms: be32_at(src, 0) as u32 })
    } else if tag == CONTROL_CLOSE_TAG {
        Ok(PacketView::ControlClose)
    } else if tag == CONTROL_KEEP_ALIVE_TAG {
        Ok(PacketView::ControlKeepAlive)
    } else if tag == CONTROL_PING_TAG {
        Ok(PacketView::ControlPing { id: be32_at(src, 0) as u32 })
    } else if tag == CONTROL_PONG_TAG {
        Ok(PacketView::ControlPong { id: be32_at(src, 0) as u32 })
    } else if tag == DATA_TAG {
        Ok(PacketView::Data(src))
    } else {
        Err(ErrorView::PacketDecodeError(PacketDecodeErrorView::UnknownTag(tag)))
    }
}

impl Packet {
    /// The type byte of this packet.
    pub fn tag(&self) -> (r: u8)
        ensures
            r == packet_tag(self@),
    {
        match self {
            Packet::ControlHello { .. } => CONTROL_HELLO_TAG,
            Packet::ControlHelloAck { .. } => CONTROL_HELLO_ACK_TAG,
            Packet::ControlClose => CONTROL_CLOSE_TAG,
            Packet::ControlKeepAlive => CONTROL_KEEP_ALIVE_TAG,
            Packet::ControlPing { .. } => CONTROL_PING_TAG,
            Packet::ControlPong { .. } => CONTROL_PONG_TAG,
            Packet::Data(_) => DATA_TAG,
        }
    }

    /// The payload length that a control tag prescribes.
    pub fn fixed_length(tag: u8) -> (r: Option<usize>)
        ensures
            r == fixed_body_length(tag),
    {
        if tag == CONTROL_CLOSE_TAG || tag == CONTROL_KEEP_ALIVE_TAG {
            Some(0)
        } else if tag == CONTROL_HELLO_TAG || tag == CONTROL_HELLO_ACK_TAG || tag
            == CONTROL_PING_TAG || tag == CONTROL_PONG_TAG {
            Some(4)
        } else {
            None
        }
    }

    /// The payload length of this packet.
    pub fn length(&self) -> (r: usize)
        ensures
            r == packet_body(self@).len(),
    {
        match self {
            Packet::ControlClose | Packet::ControlKeepAlive => 0,
            Packet::ControlHello { .. }
            | Packet::ControlHelloAck { .. }
            | Packet::ControlPing { .. }
            | Packet::ControlPong { .. } => 4,
            Packet::Data(data) => data.len(),
        }
    }

    /// The type byte and the payload of this packet.
    pub fn encode(&self) -> (r: (u8, Vec<u8>))
        ensures
            r.0 == packet_tag(self@),
            r.1@ == packet_body(self@),
    {
        let tag: u8 = self.tag();
        let mut payload: Vec<u8> = Vec::new();
        match self {
            Packet::ControlHello { keep_alive_interval_ms } => {
                push_be32(&mut payload, *keep_alive_interval_ms);
            },
            Packet::ControlHelloAck { keep_alive_interval_ms } => {
                push_be32(&mut payload, *keep_alive_interval_ms);
            },
            Packet::ControlClose | Packet::ControlKeepAlive => {},
            Packet::ControlPing { id } => {
                push_be32(&mut payload, *id);
            },
            Packet::ControlPong { id } => {
                push_be32(&mut payload, *id);
            },
            Packet::Data(data) => {
                push_bytes(&mut payload, data.as_slice());
            },
        }
        assert(payload@ =~= packet_body(self@));
        (tag, payload)
    }

    /// Reads a packet from its type byte and its payload.
    pub fn decode(tag: u8, src: &[u8]) -> (r: Result<Packet, Error>)
        ensures
            match r {
                Ok(p) => decoded_packet(tag, src@) == Ok::<PacketView, ErrorView>(p@),
                Err(e) => decoded_packet(tag, src@) == Err::<PacketView, ErrorView>(e@),
            },
    {
        if let Some(expected) = Packet::fixed_length(tag) {
            if src.len() != expected {
                let mut details = "Source data length mismatch for tag ".to_owned();
                push_hex_tag(&mut details, tag);
                return Err(
                    Error::from(
                        PacketDecodeError::DataLengthMismatch { expected, got: src.len(), details },
                    ),
                );
            }
        }
        if tag == CONTROL_HELLO_TAG {
            Ok(Packet::ControlHello { keep_alive_interval_ms: read_be32(src, 0) })
        } else if tag == CONTROL_HELLO_ACK_TAG {
            Ok(Packet::ControlHelloAck { keep_alive_interval_ms: read_be32(src, 0) })
        } else if tag == CONTROL_CLOSE_TAG {
            Ok(Packet::ControlClose)
        } else if tag == CONTROL_KEEP_ALIVE_TAG {
            Ok(Packet::ControlKeepAlive)
        } else if tag == CONTROL_PING_TAG {
            Ok(Packet::ControlPing { id: read_be32(src, 0) })
        } else if tag == CONTROL_PONG_TAG {
            Ok(Packet::ControlPong { id: read_be32(src, 0) })
        } else if tag == DATA_TAG {
            let data = copy_range(src, 0, src.len());
            assert(data@ =~= src@);
            Ok(Packet::Data(data))
        } else {
            Err(Error::from(PacketDecodeError::UnknownTag(tag)))
        }
    }
}

/// Every packet is read back unchanged from its type byte and its payload.
pub proof fn law_packet_roundtrip(p: PacketView)
    ensures
        decoded_packet(packet_tag(p), packet_body(p)) == Ok::<PacketView, ErrorView>(p),
{
    let body = packet_body(p);
    match p {
        PacketView::ControlHello { keep_alive_interval_ms } => {
            assert(body.subrange(0, 4) =~= body);
            lemma_be32_read_back(keep_alive_interval_ms, body, 0);
        },
        PacketView::ControlHelloAck { keep_alive_interval_ms } => {
            assert(body.subrange(0, 4) =~= body);
            lemma_be32_read_back(keep_alive_interval_ms, body, 0);
        },
        PacketView::ControlPing { id } => {
            assert(body.subrange(0, 4) =~= body);
            lemma_be32_read_back(id, body, 0);
        },
        PacketView::ControlPong { id } => {
            assert(body.subrange(0, 4) =~= body);
            lemma_be32_read_back(id, body, 0);
        },
        _ => {},
    }
}

/// How packets stand on the wire: each kind has its number. Greetings and pings
/// carry one number of four bytes, data carries itself, and the others carry
/// nothing.
pub proof fn law_packet_layout(p: PacketView)
    ensures
        packet_tag(p) == match p {
            PacketView::ControlHello { .. } => 1u8,
            PacketView::ControlHelloAck { .. } => 2u8,
            PacketView::ControlClose => 3u8,
            PacketView::ControlKeepAlive => 4u8,
            PacketView::ControlPing { .. } => 5u8,
            PacketView::ControlPong { .. } => 6u8,
            PacketView::Data(_) => 7u8,
        },
        ({
            let b = packet_body(p);
            let number = b[0] * 16777216 + b[1] * 65536 + b[2] * 256 + b[3];
            match p {
                PacketView::ControlHello { keep_alive_interval_ms } => b.len() == 4 && number
                    == keep_alive_interval_ms,
                PacketView::ControlHelloAck { keep_alive_interval_ms } => b.len() == 4 && number
                    == keep_alive_interval_ms,
                PacketView::ControlClose => b.len() == 0,
                PacketView::ControlKeepAlive => b.len() == 0,
                PacketView::ControlPing { id } => b.len() == 4 && number == id,
                PacketView::ControlPong { id } => b.len() == 4 && number == id,
                PacketView::Data(data) => b == data,
            }
        }),
{
    match p {
        PacketView::ControlHello { keep_alive_interval_ms } => {
            law_big_endian(0, keep_alive_interval_ms, Seq::empty(), 0);
        },
        PacketView::ControlHelloAck { keep_alive_interval_ms } => {
            law_big_endian(0, keep_alive_interval_ms, Seq::empty(), 0);
        },
        PacketView::ControlPing { id } => {
            law_big_endian(0, id, Seq::empty(), 0);
        },
        PacketView::ControlPong { id } => {
            law_big_endian(0, id, Seq::empty(), 0);
        },
        _ => {},
    }
}

/// Any bytes are data. A greeting or a ping is read from four bytes, a goodbye
/// or a sign of life from none, and other lengths are refused with the length
/// that was expected. A number that no kind of packet has is refused.
pub proof fn law_what_is_a_packet(tag: u8, src: Seq<u8>)
    ensures
        ({
            let numbered = tag == 1 || tag == 2 || tag == 5 || tag == 6;
            let bare = tag == 3 || tag == 4;
            let r = decoded_packet(tag, src);
            &&& r is Ok <==> numbered && src.len() == 4 || bare && src.len() == 0 || tag == 7
            &&& r matches Ok(p) ==> packet_tag(p) == tag && packet_body(p) == src
            &&& tag == 0 || tag > 7 ==> r == Err::<PacketView, ErrorView>(
                ErrorView::PacketDecodeError(PacketDecodeErrorView::UnknownTag(tag)),
            )
            &&& numbered || bare ==> (r matches Err(e) ==> e matches ErrorView::PacketDecodeError(
                PacketDecodeErrorView::DataLengthMismatch { expected, got, details: _ },
            ) && got == src.len() && expected == if numbered {
                4nat
            } else {
                0nat
            })
        }),
{
    if src.len() == 4 {
        lemma_be32_write_back(src);
    }
    if src.len() == 0 {
        assert(src =~= Seq::<u8>::empty());
    }
}

} // verus!
