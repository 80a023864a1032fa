//! What can go wrong while frames and packets are taken apart.
use crate::text::{
    contains_text, decimal, hex_byte, occurs_in, push_decimal, push_hex_byte,
};
use vstd::prelude::*;

verus! {

/// A failure of the protocol layer.
#[derive(Debug, Clone)]
pub enum Error {
    PacketDecodeError(PacketDecodeError),
    FrameDecodeError(FrameDecodeError),
    AssemblePacketError(AssemblePacketError),
}

/// Why bytes could not be read as a packet.
#[derive(Debug, Clone)]
pub enum PacketDecodeError {
    /// The payload of a control packet has the wrong length.
    DataLengthMismatch { expected: usize, got: usize, details: String },
    /// No packet has this tag.
    UnknownTag(u8),
    /// The bytes break the layout; the text says how.
    Malformed(String),
}

/// Why bytes could not be read as a frame.
#[derive(Debug, Clone, Copy)]
pub enum FrameDecodeError {
    InvalidFlag(u8),
    InvalidMagicNumber { expected: [u8; 3], actual: [u8; 3] },
    InvalidVersion { expected: u8, actual: u8 },
    DataShorterThanHeader { expected: usize, got: usize },
    DataTooShort { expected: usize, got: usize },
}

/// Why frames could not be put together to a packet.
#[derive(Debug, Clone, Copy, PartialEq, Eq, Structural)]
pub enum AssemblePacketError {
    MismatchedTypes { first_frame_type: u8, frame_type: u8 },
}

/// The mathematical content of a [`PacketDecodeError`].
pub enum PacketDecodeErrorView {
    DataLengthMismatch { expected: nat, got: nat, details: Seq<char> },
    UnknownTag(u8),
    Malformed(Seq<char>),
}

/// The mathematical content of an [`Error`].
pub enum ErrorView {
    PacketDecodeError(PacketDecodeErrorView),
    FrameDecodeError(FrameDecodeError),
    AssemblePacketError(AssemblePacketError),
}

impl View for PacketDecodeError {
    type V = PacketDecodeErrorView;

    open spec fn view(&self) -> PacketDecodeErrorView {
        match self {
            PacketDecodeError::DataLengthMismatch { expected, got, details } =>
                PacketDecodeErrorView::DataLengthMismatch {
                    expected: *expected as nat,
                    got: *got as nat,
                    details: details@,
                },
            PacketDecodeError::UnknownTag(t) => PacketDecodeErrorView::UnknownTag(*t),
            PacketDecodeError::Malformed(m) => PacketDecodeErrorView::Malformed(m@),
        }
    }
}

impl View for Error {
    type V = ErrorView;

    open spec fn view(&self) -> ErrorView {
        match self {
            Error::PacketDecodeError(e) => ErrorView::PacketDecodeError(e@),
            Error::FrameDecodeError(e) => ErrorView::FrameDecodeError(*e),
            Error::AssemblePacketError(e) => ErrorView::AssemblePacketError(*e),
        }
    }
}

impl From<PacketDecodeError> for Error {
    fn from(e: PacketDecodeError) -> (r: Error) {
        Error::PacketDecodeError(e)
    }
}

impl vstd::std_specs::convert::FromSpecImpl<PacketDecodeError> for Error {
    open spec fn obeys_from_spec() -> bool {
        true
    }

    open spec fn from_spec(e: PacketDecodeError) -> Error {
        Error::PacketDecodeError(e)
    }
}

impl From<FrameDecodeError> for Error {
    fn from(e: FrameDecodeError) -> (r: Error) {
        Error::FrameDecodeError(e)
    }
}

impl vstd::std_specs::convert::FromSpecImpl<FrameDecodeError> for Error {
    open spec fn obeys_from_spec() -> bool {
        true
    }

    open spec fn from_spec(e: FrameDecodeError) -> Error {
        Error::FrameDecodeError(e)
    }
}

impl From<AssemblePacketError> for Error {
    fn from(e: AssemblePacketError) -> (r: Error) {
        Error::AssemblePacketError(e)
    }
}

impl vstd::std_specs::convert::FromSpecImpl<AssemblePacketError> for Error {
    open spec fn obeys_from_spec() -> bool {
        true
    }

    open spec fn from_spec(e: AssemblePacketError) -> Error {
        Error::AssemblePacketError(e)
    }
}

/// `0x` and the two hexadecimal digits of a byte.
pub open spec fn hex_tag(b: u8) -> Seq<char> {
    "0x"@ + hex_byte(b)
}

/// A list of three bytes in square brackets.
pub open spec fn byte_list(b: Seq<u8>) -> Seq<char> {
    "["@ + decimal(b[0] as nat) + ", "@ + decimal(b[1] as nat) + ", "@ + decimal(b[2] as nat)
        + "]"@
}

/// The text of a packet decoding failure.
pub open spec fn packet_decode_message(e: PacketDecodeErrorView) -> Seq<char> {
    match e {
        PacketDecodeErrorView::DataLengthMismatch { expected, got, details } =>
            "Packet data length mismatch: expected "@ + decimal(expected) + ", got "@ + decimal(got)
                + ". "@ + details,
        PacketDecodeErrorView::UnknownTag(tag) => "Unknown packet tag: "@ + hex_tag(tag),
        PacketDecodeErrorView::Malformed(text) => text,
    }
}

/// The text of a frame decoding failure.
pub open spec fn frame_decode_message(e: FrameDecodeError) -> Seq<char> {
    match e {
        FrameDecodeError::InvalidFlag(flag) => "Invalid flag value: "@ + hex_tag(flag),
        FrameDecodeError::InvalidMagicNumber { expected, actual } =>
            "Invalid magic number: expected "@ + byte_list(expected@) + ", got "@ + byte_list(
                actual@,
            ),
        FrameDecodeError::InvalidVersion { expected, actual } => "Invalid version: expected "@
            + decimal(expected as nat) + ", got "@ + decimal(actual as nat),
        FrameDecodeError::DataShorterThanHeader { expected, got } =>
            "Data length shorter than header size: expected at least "@ + decimal(expected as nat)
                + ", got "@ + decimal(got as nat),
        FrameDecodeError::DataTooShort { expected, got } =>
            "Data length shorter than total length: expected at least "@ + decimal(expected as nat)
                + ", got "@ + decimal(got as nat),
    }
}

/// The text of any protocol failure.
pub open spec fn error_message(e: ErrorView) -> Seq<char> {
    match e {
        ErrorView::PacketDecodeError(p) => packet_decode_message(p),
        ErrorView::FrameDecodeError(f) => frame_decode_message(f),
        ErrorView::AssemblePacketError(_) => "Mismatched types in frames"@,
    }
}

/// Appends `0x` and the two hexadecimal digits of `b`.
pub fn push_hex_tag(out: &mut String, b: u8)
    ensures
        final(out)@ == old(out)@ + hex_tag(b),
{
    let ghost before = out@;
    out.push_str("0x");
    push_hex_byte(out, b);
    assert(out@ =~= before + hex_tag(b));
}

/// Appends three bytes as a bracketed list.
pub fn push_byte_list(out: &mut String, b: &[u8])
    requires
        b@.len() == 3,
    ensures
        final(out)@ == old(out)@ + byte_list(b@),
{
    let ghost before = out@;
    out.push_str("[");
    push_decimal(out, b[0] as u64);
    out.push_str(", ");
    push_decimal(out, b[1] as u64);
    out.push_str(", ");
    push_decimal(out, b[2] as u64);
    out.push_str("]");
    assert(out@ =~= before + byte_list(b@));
}

impl PacketDecodeError {
    /// The text shown to a person.
    pub fn message(&self) -> (r: String)
        ensures
            r@ == packet_decode_message(self@),
    {
        match self {
            PacketDecodeError::DataLengthMismatch { expected, got, details } => {
                let mut out = "Packet data length mismatch: expected ".to_owned();
                push_decimal(&mut out, *expected as u64);
                out.push_str(", got ");
                push_decimal(&mut out, *got as u64);
                out.push_str(". ");
                out.push_str(details.as_str());
                out
            },
            PacketDecodeError::UnknownTag(tag) => {
                let mut out = "Unknown packet tag: ".to_owned();
                push_hex_tag(&mut out, *tag);
                out
            },
            PacketDecodeError::Malformed(text) => text.clone(),
        }
    }

    /// Whether the text shown to a person contains `needle`.
    pub fn contains(&self, needle: &str) -> (r: bool)
        ensures
            r == occurs_in(needle@, packet_decode_message(self@)),
    {
        let text = self.message();
        contains_text(text.as_str(), needle)
    }
}

impl FrameDecodeError {
    /// The text shown to a person.
    pub fn message(&self) -> (r: String)
        ensures
            r@ == frame_decode_message(*self),
    {
        match self {
            FrameDecodeError::InvalidFlag(flag) => {
                let mut out = "Invalid flag value: ".to_owned();
                push_hex_tag(&mut out, *flag);
                out
            },
            FrameDecodeError::InvalidMagicNumber { expected, actual } => {
                let mut out = "Invalid magic number: expected ".to_owned();
                push_byte_list(&mut out, expected.as_slice());
                out.push_str(", got ");
                push_byte_list(&mut out, actual.as_slice());
                out
            },
            FrameDecodeError::InvalidVersion { expected, actual } => {
                let mut out = "Invalid version: expected ".to_owned();
                push_decimal(&mut out, *expected as u64);
                out.push_str(", got ");
                push_decimal(&mut out, *actual as u64);
                out
            },
            FrameDecodeError::DataShorterThanHeader { expected, got } => {
                let mut out = "Data length shorter than header size: expected at least ".to_owned();
                push_decimal(&mut out, *expected as u64);
                out.push_str(", got ");
                push_decimal(&mut out, *got as u64);
                out
            },
            FrameDecodeError::DataTooShort { expected, got } => {
                let mut out =
                    "Data length shorter than total length: expected at least ".to_owned();
                push_decimal(&mut out, *expected as u64);
                out.push_str(", got ");
                push_decimal(&mut out, *got as u64);
                out
            },
        }
    }
}

impl Error {
    /// The same failure once more.
    pub fn duplicate(&self) -> (r: Error)
        ensures
            r@ == self@,
    {
        match self {
            Error::PacketDecodeError(e) => Error::PacketDecodeError(
                match e {
                    PacketDecodeError::DataLengthMismatch { expected, got, details } =>
                        PacketDecodeError::DataLengthMismatch {
                            expected: *expected,
                            got: *got,
                            details: details.clone(),
                        },
                    PacketDecodeError::UnknownTag(tag) => PacketDecodeError::UnknownTag(*tag),
                    PacketDecodeError::Malformed(text) => PacketDecodeError::Malformed(
                        text.clone(),
                    ),
                },
            ),
            Error::FrameDecodeError(e) => Error::FrameDecodeError(*e),
            Error::AssemblePacketError(e) => Error::AssemblePacketError(*e),
        }
    }

    /// The text shown to a person.
    pub fn message(&self) -> (r: String)
        ensures
            r@ == error_message(self@),
    {
        match self {
            Error::PacketDecodeError(e) => e.message(),
            Error::FrameDecodeError(e) => e.message(),
            Error::AssemblePacketError(_) => "Mismatched types in frames".to_owned(),
        }
    }
}

/// The texts of failures say what was found: lengths and versions in decimal,
/// type bytes and flags in hexadecimal, and magic numbers byte by byte.
pub proof fn law_failures_say_what_was_found(
    n: nat,
    m: nat,
    details: Seq<char>,
    tag: u8,
    a: AssemblePacketError,
)
    ensures
        hex_tag(tag) == "0x"@ + hex_byte(tag),
        packet_decode_message(
            PacketDecodeErrorView::DataLengthMismatch { expected: n, got: m, details },
        ) == "Packet data length mismatch: expected "@ + decimal(n) + ", got "@ + decimal(m) + ". "@
            + details,
        packet_decode_message(PacketDecodeErrorView::UnknownTag(tag)) == "Unknown packet tag: "@
            + hex_tag(tag),
        packet_decode_message(PacketDecodeErrorView::Malformed(details)) == details,
        frame_decode_message(FrameDecodeError::InvalidFlag(tag)) == "Invalid flag value: "@
            + hex_tag(tag),
        error_message(
            ErrorView::PacketDecodeError(PacketDecodeErrorView::Malformed(details)),
        ) == details,
        error_message(ErrorView::AssemblePacketError(a)) == "Mismatched types in frames"@,
        byte_list(seq![tag, tag, tag]) == "["@ + decimal(tag as nat) + ", "@ + decimal(tag as nat)
            + ", "@ + decimal(tag as nat) + "]"@,
{
}

} // verus!
