//! Frames: the units that travel over a connection.
use crate::proto::error::{byte_list, push_byte_list, Error, ErrorView, PacketDecodeError, PacketDecodeErrorView};
use crate::text::{decimal, push_decimal};
use crate::wire::{be16, be16_at, copy_range, push_be16, push_bytes, read_be16};
use vstd::prelude::*;
use vstd::slice::slice_subrange;

verus! {

/// The three bytes every frame starts with: `NCD`.
pub const MAGIC_NUMBER: [u8; 3] = [0x4E, 0x43, 0x44];

/// The protocol version in every frame.
pub const VERSION: u8 = 1;

/// Largest payload of one frame, in bytes.
pub const DEFAULT_MAX_PAYLOAD_SIZE: usize = 65535;

/// Length of the header in front of a payload, in bytes.
pub const HEADER_SIZE_BYTE: usize = 8;

/// A single frame of the Network Character Device Protocol.
///
/// ```text
/// 0                  16      24        32 bit
/// |       Magic Number       | Version |
/// |  Payload Length  |  Flag |  Type   |
/// |         Payload (variable)         |
/// ```
///
/// Magic number and version are the same in every frame and stand only on the
/// wire.
#[derive(Debug, PartialEq, Eq)]
pub struct Frame {
    pub flag: Flag,
    pub ty: u8,
    pub payload: Vec<u8>,
}

/// Whether a frame is the last one of its packet.
///
/// A packet larger than the maximum payload size is split into several frames:
/// all but the last carry `More`, the last carries `End`.
#[derive(Debug, Clone, Copy, PartialEq, Eq, Structural)]
pub enum Flag {
    End,
    More,
}

/// The mathematical content of a [`Frame`].
#[verifier::ext_equal]
pub struct FrameView {
    pub flag: Flag,
    pub ty: u8,
    pub payload: Seq<u8>,
}

impl View for Frame {
    type V = FrameView;

    open spec fn view(&self) -> FrameView {
        FrameView { flag: self.flag, ty: self.ty, payload: self.payload@ }
    }
}

/// The byte that stands for a flag.
pub open spec fn flag_byte(flag: Flag) -> u8 {
    match flag {
        Flag::End => 0,
        Flag::More => 1,
    }
}

/// The flag that a byte stands for.
pub open spec fn flag_of_byte(v: u8) -> Option<Flag> {
    if v == 0 {
        Some(Flag::End)
    } else if v == 1 {
        Some(Flag::More)
    } else {
        None
    }
}

/// The failure for bytes that break the layout, with its text.
pub open spec fn malformed(text: Seq<char>) -> ErrorView {
    ErrorView::PacketDecodeError(PacketDecodeErrorView::Malformed(text))
}

/// The failure for a byte that is no flag.
pub open spec fn bad_flag(v: u8) -> ErrorView {
    malformed("Invalid flag value: "@ + decimal(v as nat))
}

/// A frame can travel when its payload is not too long for the length field.
pub open spec fn frame_fits(f: FrameView) -> bool {
    f.payload.len() <= DEFAULT_MAX_PAYLOAD_SIZE
}

/// The header in front of a payload.
pub open spec fn header_bytes(f: FrameView) -> Seq<u8> {
    MAGIC_NUMBER@ + seq![VERSION] + be16(f.payload.len() as u16) + seq![flag_byte(f.flag), f.ty]
}

/// A frame as it stands on the wire.
pub open spec fn frame_bytes(f: FrameView) -> Seq<u8> {
    header_bytes(f) + f.payload
}

/// What is wrong with the magic number and the version of a complete header.
pub open spec fn header_fault(src: Seq<u8>) -> Option<ErrorView> {
    if src.subrange(0, 3) != MAGIC_NUMBER@ {
        Some(malformed("Invalid magic number: "@ + byte_list(src.subrange(0, 3))))
    } else if src[3] != VERSION {
        Some(malformed("Invalid version: "@ + decimal(src[3] as nat)))
    } else {
        None
    }
}

/// What the start of `src` reads as: the first frame in it, or why there is none.
pub open spec fn decoded_frame(src: Seq<u8>) -> Result<FrameView, ErrorView> {
    if src.len() < HEADER_SIZE_BYTE {
        Err(malformed("Source data is too short"@))
    } else if let Some(e) = header_fault(src) {
        Err(e)
    } else if src.len() < HEADER_SIZE_BYTE + be16_at(src, 4) {
        Err(malformed("Source data is too short for payload"@))
    } else if let Some(flag) = flag_of_byte(src[6]) {
        Ok(
            FrameView {
                flag,
                ty: src[7],
                payload: src.subrange(
                    HEADER_SIZE_BYTE as int,
                    HEADER_SIZE_BYTE + be16_at(src, 4) as int,
                ),
            },
        )
    } else {
        Err(bad_flag(src[6]))
    }
}

/// What the header at the start of `src` says: type, flag and payload length,
/// or `None` while the header is incomplete.
pub open spec fn peeked_head(src: Seq<u8>) -> Result<Option<(u8, Flag, nat)>, ErrorView> {
    if src.len() < HEADER_SIZE_BYTE {
        Ok(None)
    } else if let Some(e) = header_fault(src) {
        Err(e)
    } else if let Some(flag) = flag_of_byte(src[6]) {
        Ok(Some((src[7], flag, be16_at(src, 4))))
    } else {
        Err(bad_flag(src[6]))
    }
}

/// An error that says how bytes break the layout.
pub fn malformed_error(text: String) -> (r: Error)
    ensures
        r@ == malformed(text@),
{
    Error::PacketDecodeError(PacketDecodeError::Malformed(text))
}

/// Tests magic number and version of a complete header.
pub fn check_header(src: &[u8]) -> (r: Result<(), Error>)
    requires
        src@.len() >= HEADER_SIZE_BYTE,
    ensures
        match r {
            Ok(()) => header_fault(src@) is None,
            Err(e) => header_fault(src@) == Some(e@),
        },
{
    let magic = slice_subrange(src, 0, 3);
    if magic[0] != MAGIC_NUMBER[0] || magic[1] != MAGIC_NUMBER[1] || magic[2] != MAGIC_NUMBER[2] {
        let mut text = "Invalid magic number: ".to_owned();
        push_byte_list(&mut text, magic);
        assert(src@.subrange(0, 3) != MAGIC_NUMBER@);
        return Err(malformed_error(text));
    }
    assert(src@.subrange(0, 3) =~= MAGIC_NUMBER@);
    let version: u8 = src[3];
    if version != VERSION {
        let mut text = "Invalid version: ".to_owned();
        push_decimal(&mut text, version as u64);
        return Err(malformed_error(text));
    }
    Ok(())
}

impl Flag {
    /// The flag that a byte stands for; other bytes are refused.
    pub fn from_byte(v: u8) -> (r: Result<Flag, Error>)
        ensures
            match r {
                Ok(flag) => flag_of_byte(v) == Some(flag),
                Err(e) => flag_of_byte(v) is None && e@ == bad_flag(v),
            },
    {
        match v {
            0 => Ok(Flag::End),
            1 => Ok(Flag::More),
            _ => {
                let mut text = "Invalid flag value: ".to_owned();
                push_decimal(&mut text, v as u64);
                Err(malformed_error(text))
            },
        }
    }

    /// The byte that stands for this flag.
    pub fn to_byte(self) -> (r: u8)
        ensures
            r == flag_byte(self),
    {
        match self {
            Flag::End => 0,
            Flag::More => 1,
        }
    }
}

impl TryFrom<u8> for Flag {
    type Error = Error;

    fn try_from(v: u8) -> (r: Result<Flag, Error>)
        ensures
            match r {
                Ok(flag) => flag_of_byte(v) == Some(flag),
                Err(e) => flag_of_byte(v) is None && e@ == bad_flag(v),
            },
    {
        Flag::from_byte(v)
    }
}

impl vstd::std_specs::convert::TryFromSpecImpl<u8> for Flag {
    open spec fn obeys_try_from_spec() -> bool {
        false
    }

    open spec fn try_from_spec(v: u8) -> Result<Flag, Error> {
        match flag_of_byte(v) {
            Some(flag) => Ok(flag),
            None => Err(arbitrary()),
        }
    }
}

impl Frame {
    /// The frame as it stands on the wire.
    pub fn encode(&self) -> (r: Vec<u8>)
        requires
            frame_fits(self@),
        ensures
            r@ == frame_bytes(self@),
            r@.len() == HEADER_SIZE_BYTE + self.payload@.len(),
    {
        let mut buf: Vec<u8> = Vec::with_capacity(HEADER_SIZE_BYTE + self.payload.len());
        push_bytes(&mut buf, MAGIC_NUMBER.as_slice());
        buf.push(VERSION);
        push_be16(&mut buf, self.payload.len() as u16);
        buf.push(self.flag.to_byte());
        buf.push(self.ty);
        assert(buf@ =~= header_bytes(self@));
        push_bytes(&mut buf, self.payload.as_slice());
        buf
    }

    /// Reads the frame at the start of `src`.
    pub fn decode(src: &[u8]) -> (r: Result<Frame, Error>)
        ensures
            match r {
                Ok(f) => decoded_frame(src@) == Ok::<FrameView, ErrorView>(f@),
                Err(e) => decoded_frame(src@) == Err::<FrameView, ErrorView>(e@),
            },
    {
        if src.len() < HEADER_SIZE_BYTE {
            return Err(malformed_error("Source data is too short".to_owned()));
        }
        match check_header(src) {
            Ok(()) => {},
            Err(e) => {
                return Err(e);
            },
        }
        let length: usize = read_be16(src, 4) as usize;
        if src.len() < HEADER_SIZE_BYTE + length {
            return Err(malformed_error("Source data is too short for payload".to_owned()));
        }
        let payload = copy_range(src, HEADER_SIZE_BYTE, HEADER_SIZE_BYTE + length);
        match Flag::from_byte(src[6]) {
            Ok(flag) => Ok(Frame { flag, ty: src[7], payload }),
            Err(e) => Err(e),
        }
    }

    /// Reads the header at the start of `src`: type, flag and payload length.
    /// An incomplete header gives `None`.
    pub fn peek_head(src: &[u8]) -> (r: Result<Option<(u8, Flag, usize)>, Error>)
        ensures
            match r {
                Ok(None) => peeked_head(src@) == Ok::<Option<(u8, Flag, nat)>, ErrorView>(None),
                Ok(Some((ty, flag, length))) => peeked_head(src@) == Ok::<
                    Option<(u8, Flag, nat)>,
                    ErrorView,
                >(Some((ty, flag, length as nat))),
                Err(e) => peeked_head(src@) == Err::<Option<(u8, Flag, nat)>, ErrorView>(e@),
            },
    {
        if src.len() < HEADER_SIZE_BYTE {
            return Ok(None);
        }
        match check_header(src) {
            Ok(()) => {},
            Err(e) => {
                return Err(e);
            },
        }
        let length: usize = read_be16(src, 4) as usize;
        match Flag::from_byte(src[6]) {
            Ok(flag) => Ok(Some((src[7], flag, length))),
            Err(e) => Err(e),
        }
    }
}

/// Where the parts of a frame stand when `src` starts with that frame.
pub proof fn lemma_frame_layout(f: FrameView, src: Seq<u8>)
    requires
        frame_fits(f),
        frame_bytes(f).is_prefix_of(src),
    ensures
        frame_bytes(f).len() == HEADER_SIZE_BYTE + f.payload.len(),
        src.len() >= HEADER_SIZE_BYTE + f.payload.len(),
        header_fault(src) is None,
        be16_at(src, 4) == f.payload.len(),
        src[6] == flag_byte(f.flag),
        src[7] == f.ty,
        src.subrange(HEADER_SIZE_BYTE as int, HEADER_SIZE_BYTE + f.payload.len() as int)
            == f.payload,
{
    let b = frame_bytes(f);
    assert(MAGIC_NUMBER@.len() == 3);
    assert(header_bytes(f).len() == 8);
    assert forall|i: int| 0 <= i < b.len() implies src[i] == b[i] by {
        assert(b =~= src.subrange(0, b.len() as int));
    }
    assert(src.subrange(0, 3) =~= MAGIC_NUMBER@);
    assert(src.subrange(8, 8 + f.payload.len() as int) =~= f.payload);
}

/// A frame that fits is read back unchanged from its own bytes, whatever
/// follows them.
pub proof fn law_frame_roundtrip(f: FrameView, rest: Seq<u8>)
    requires
        frame_fits(f),
    ensures
        decoded_frame(frame_bytes(f) + rest) == Ok::<FrameView, ErrorView>(f),
{
    let src = frame_bytes(f) + rest;
    assert(frame_bytes(f) =~= src.subrange(0, frame_bytes(f).len() as int));
    lemma_frame_layout(f, src);
    assert(f =~= FrameView { flag: f.flag, ty: f.ty, payload: f.payload });
}

/// The header of an encoded frame announces that frame's type, flag and
/// payload length, as soon as the header is there.
pub proof fn law_peek_agrees_with_encode(f: FrameView, n: nat)
    requires
        frame_fits(f),
        HEADER_SIZE_BYTE <= n <= frame_bytes(f).len(),
    ensures
        peeked_head(frame_bytes(f).take(n as int)) == Ok::<Option<(u8, Flag, nat)>, ErrorView>(
            Some((f.ty, f.flag, f.payload.len())),
        ),
{
    let b = frame_bytes(f);
    assert(b =~= b.subrange(0, b.len() as int));
    lemma_frame_layout(f, b);
    let s = b.take(n as int);
    assert(s.subrange(0, 3) =~= b.subrange(0, 3));
}

/// A frame is read from `src` exactly when the header can be peeked at and
/// announces no more bytes than there are.
pub proof fn law_decode_agrees_with_peek(src: Seq<u8>)
    ensures
        decoded_frame(src) is Ok <==> (peeked_head(src) matches Ok(Some((_, _, n)))
            && HEADER_SIZE_BYTE + n <= src.len()),
        decoded_frame(src) matches Ok(f) ==> peeked_head(src) == Ok::<
            Option<(u8, Flag, nat)>,
            ErrorView,
        >(Some((f.ty, f.flag, f.payload.len()))),
{
}

/// Where everything stands in a frame: the letters `NCD`, the version, the
/// length of the payload, whether more frames follow, the type, and the
/// payload.
pub proof fn law_frame_layout(f: FrameView, i: int)
    requires
        f.payload.len() <= 65535,
    ensures
        ({
            let b = frame_bytes(f);
            &&& b.len() == 8 + f.payload.len()
            &&& b[0] == 0x4E && b[1] == 0x43 && b[2] == 0x44
            &&& b[3] == 1
            &&& b[4] * 256 + b[5] == f.payload.len()
            &&& b[6] == if f.flag == Flag::More {
                1u8
            } else {
                0u8
            }
            &&& b[7] == f.ty
            &&& 0 <= i < f.payload.len() ==> b[8 + i] == f.payload[i]
        }),
{
    assert(MAGIC_NUMBER@ =~= seq![0x4Eu8, 0x43u8, 0x44u8]);
}

/// Bytes start with a frame exactly if the letters, the version and the flag
/// are right and the whole payload is there. The frame is then what stands
/// there. Otherwise the first thing that is wrong is told.
pub proof fn law_what_is_a_frame(src: Seq<u8>)
    ensures
        ({
            let letters = src.len() >= 8 && src[0] == 0x4E && src[1] == 0x43 && src[2] == 0x44;
            let version = src.len() >= 8 && src[3] == 1;
            let length = src[4] * 256 + src[5];
            let whole = src.len() >= 8 + length;
            let flag = src[6] == 0 || src[6] == 1;
            let told = |text: Seq<char>|
                Err::<FrameView, ErrorView>(
                    ErrorView::PacketDecodeError(PacketDecodeErrorView::Malformed(text)),
                );
            &&& src.len() < 8 ==> decoded_frame(src) == told("Source data is too short"@)
            &&& src.len() >= 8 && !letters ==> decoded_frame(src) == told(
                "Invalid magic number: "@ + byte_list(seq![src[0], src[1], src[2]]),
            )
            &&& letters && !version ==> decoded_frame(src) == told(
                "Invalid version: "@ + decimal(src[3] as nat),
            )
            &&& letters && version && !whole ==> decoded_frame(src) == told(
                "Source data is too short for payload"@,
            )
            &&& letters && version && whole && !flag ==> decoded_frame(src) == told(
                "Invalid flag value: "@ + decimal(src[6] as nat),
            )
            &&& letters && version && whole && flag ==> decoded_frame(src) is Ok
            &&& decoded_frame(src) matches Ok(f) ==> {
                &&& f.flag == Flag::End <==> src[6] == 0
                &&& f.ty == src[7]
                &&& f.payload.len() == length
                &&& forall|i: int| 0 <= i < length ==> #[trigger] f.payload[i] == src[8 + i]
            }
        }),
{
    assert(MAGIC_NUMBER@ =~= seq![0x4Eu8, 0x43u8, 0x44u8]);
    if src.len() >= 8 {
        assert(src.subrange(0, 3) =~= seq![src[0], src[1], src[2]]);
        let head = seq![src[0], src[1], src[2]];
        if head == MAGIC_NUMBER@ {
            assert(head[0] == 0x4E && head[1] == 0x43 && head[2] == 0x44);
        }
    }
}

/// A header is not looked at before it is complete, and then it says type, flag
/// and length, unless letters, version or flag are wrong. The payload does not
/// matter.
pub proof fn law_what_is_a_header(src: Seq<u8>)
    ensures
        ({
            let right = src[0] == 0x4E && src[1] == 0x43 && src[2] == 0x44 && src[3] == 1 && src[6]
                <= 1;
            &&& src.len() < 8 <==> peeked_head(src) == Ok::<Option<(u8, Flag, nat)>, ErrorView>(None)
            &&& src.len() >= 8 && !right <==> peeked_head(src) is Err
            &&& src.len() >= 8 && right ==> peeked_head(src) == Ok::<
                Option<(u8, Flag, nat)>,
                ErrorView,
            >(
                Some(
                    (
                        src[7],
                        if src[6] == 0 {
                            Flag::End
                        } else {
                            Flag::More
                        },
                        (src[4] * 256 + src[5]) as nat,
                    ),
                ),
            )
        }),
{
    law_what_is_a_frame(src);
    assert(MAGIC_NUMBER@ =~= seq![0x4Eu8, 0x43u8, 0x44u8]);
    if src.len() >= 8 {
        assert(src.subrange(0, 3) =~= seq![src[0], src[1], src[2]]);
        let head = seq![src[0], src[1], src[2]];
        if head == MAGIC_NUMBER@ {
            assert(head[0] == 0x4E && head[1] == 0x43 && head[2] == 0x44);
        }
    }
}

} // verus!
