//! A byte stream that carries packets: what is written for a packet, and how
//! packets are found again in bytes that arrive in arbitrary pieces.
use crate::proto::codec::{
    assembled, first_end, fragment_packet, frame_views, law_fragments, packet_fragments,
    try_assemble_packet,
};
use crate::proto::error::{Error, ErrorView};
use crate::proto::frame::{
    decoded_frame, frame_bytes, frame_fits, law_decode_agrees_with_peek, peeked_head, Frame,
    FrameView, DEFAULT_MAX_PAYLOAD_SIZE, HEADER_SIZE_BYTE,
};
use crate::proto::packet::{packet_body, packet_tag, Packet, PacketView};
use crate::wire::push_bytes;
use bytes::{Buf, BytesMut};
use std::collections::VecDeque;
use vstd::prelude::*;

verus! {

/// `bytes::BytesMut`, a growable byte buffer that can be consumed from the front.
#[verifier::external_type_specification]
#[verifier::external_body]
pub struct ExBytesMut(BytesMut);

/// The bytes in a buffer that were appended and not yet consumed, oldest first.
pub uninterp spec fn buffered(b: BytesMut) -> Seq<u8>;

/// As many bytes as a buffer can hold without exceeding what can be allocated
/// while it grows.
pub open spec fn buffer_limit() -> int {
    isize::MAX as int / 4
}

/// `BytesMut::new` gives a buffer that holds nothing.
#[verifier::external_body]
fn new_buffer() -> (r: BytesMut)
    ensures
        buffered(r) == Seq::<u8>::empty(),
{
    BytesMut::new()
}

/// `BytesMut::extend_from_slice` appends the given bytes.
#[verifier::external_body]
fn append_to_buffer(b: &mut BytesMut, more: &[u8])
    requires
        buffered(*old(b)).len() + more@.len() <= buffer_limit(),
    ensures
        buffered(*final(b)) == buffered(*old(b)) + more@,
{
    b.extend_from_slice(more)
}

/// `Buf::advance` of a `BytesMut` removes the first `n` bytes. It panics when
/// there are fewer.
#[verifier::external_body]
fn consume_from_buffer(b: &mut BytesMut, n: usize)
    requires
        n <= buffered(*old(b)).len(),
    ensures
        buffered(*final(b)) == buffered(*old(b)).skip(n as int),
{
    b.advance(n)
}

/// `BytesMut` dereferences to the bytes it holds.
#[verifier::external_body]
fn buffer_bytes(b: &BytesMut) -> (r: &[u8])
    ensures
        r@ == buffered(*b),
{
    &b[..]
}

/// The bytes of a run of frames, one after another.
pub open spec fn frames_wire(frames: Seq<FrameView>) -> Seq<u8>
    decreases frames.len(),
{
    if frames.len() == 0 {
        Seq::empty()
    } else {
        frames_wire(frames.drop_last()) + frame_bytes(frames.last())
    }
}

/// What is written to the stream for a packet.
pub open spec fn packet_wire(p: PacketView) -> Seq<u8> {
    frames_wire(packet_fragments(p))
}

/// What is written to the stream for several packets.
pub open spec fn packets_wire(packets: Seq<PacketView>) -> Seq<u8>
    decreases packets.len(),
{
    if packets.len() == 0 {
        Seq::empty()
    } else {
        packets_wire(packets.drop_last()) + packet_wire(packets.last())
    }
}

/// The bytes to write to the stream for a packet.
pub fn encode_packet(packet: Packet) -> (r: Vec<u8>)
    ensures
        r@ == packet_wire(packet@),
{
    let mut frames: Vec<Frame> = Vec::new();
    let ghost p = packet@;
    fragment_packet(packet, &mut frames);
    let ghost views = frame_views(frames@);
    proof {
        law_fragments(packet_tag(p), packet_body(p));
    }
    let mut out: Vec<u8> = Vec::new();
    let mut i: usize = 0;
    while i < frames.len()
        invariant
            i <= frames.len(),
            views == frame_views(frames@),
            views == packet_fragments(p),
            forall|k: int| 0 <= k < views.len() ==> frame_fits(#[trigger] views[k]),
            out@ == frames_wire(views.take(i as int)),
        decreases frames.len() - i,
    {
        assert(frame_fits(views[i as int]));
        let bytes = frames[i].encode();
        push_bytes(&mut out, bytes.as_slice());
        proof {
            assert(views.take(i as int + 1).drop_last() =~= views.take(i as int));
        }
        i = i + 1;
    }
    proof {
        assert(views.take(views.len() as int) =~= views);
    }
    out
}

/// Complete frames at the start of some bytes, the bytes behind them, and
/// whether those cannot start a frame.
#[verifier::ext_equal]
pub struct FrameSplit {
    pub frames: Seq<FrameView>,
    pub rest: Seq<u8>,
    pub fault: Option<ErrorView>,
}

/// Splits bytes into the complete frames at their start and the rest.
pub open spec fn split_frames(bytes: Seq<u8>) -> FrameSplit
    decreases bytes.len(),
{
    match decoded_frame(bytes) {
        Ok(f) => {
            let tail = split_frames(bytes.skip(HEADER_SIZE_BYTE + f.payload.len() as int));
            FrameSplit { frames: seq![f] + tail.frames, rest: tail.rest, fault: tail.fault }
        },
        Err(_) => FrameSplit {
            frames: Seq::empty(),
            rest: bytes,
            fault: match peeked_head(bytes) {
                Ok(_) => None,
                Err(e) => Some(e),
            },
        },
    }
}

/// Complete packets at the start of some frames, the frames behind them, and
/// why those make no packet.
#[verifier::ext_equal]
pub struct PacketSplit {
    pub packets: Seq<PacketView>,
    pub rest: Seq<FrameView>,
    pub fault: Option<ErrorView>,
}

/// Splits frames into the complete packets at their start and the rest.
pub open spec fn split_packets(frames: Seq<FrameView>) -> PacketSplit
    decreases frames.len(),
    via split_packets_shrinks
{
    match assembled(frames) {
        Ok(Some((used, p))) => {
            let tail = split_packets(frames.skip(used as int));
            PacketSplit { packets: seq![p] + tail.packets, rest: tail.rest, fault: tail.fault }
        },
        Ok(None) => PacketSplit { packets: Seq::empty(), rest: frames, fault: None },
        Err(e) => PacketSplit { packets: Seq::empty(), rest: frames, fault: Some(e) },
    }
}

#[via_fn]
proof fn split_packets_shrinks(frames: Seq<FrameView>) {
    lemma_first_end_inside(frames);
}

/// The last frame of the first packet is one of the frames.
pub proof fn lemma_first_end_inside(frames: Seq<FrameView>)
    ensures
        first_end(frames) matches Some(end) ==> end < frames.len(),
    decreases frames.len(),
{
    if frames.len() > 0 {
        lemma_first_end_inside(frames.skip(1));
    }
}

/// What a receiver holds: bytes that make no complete frame yet, frames that
/// make no complete packet yet, and packets nobody has taken yet.
#[verifier::ext_equal]
pub struct IoView {
    pub bytes: Seq<u8>,
    pub frames: Seq<FrameView>,
    pub packets: Seq<PacketView>,
}

/// What a new receiver holds.
pub open spec fn empty_io() -> IoView {
    IoView { bytes: Seq::empty(), frames: Seq::empty(), packets: Seq::empty() }
}

/// What a receiver holds after more bytes arrived, and the failure if there
/// is one.
#[verifier::opaque]
pub open spec fn received(io: IoView, input: Seq<u8>) -> (IoView, Option<ErrorView>) {
    let s = split_frames(io.bytes + input);
    let frames = io.frames + s.frames;
    if s.fault is Some {
        (IoView { bytes: s.rest, frames, packets: io.packets }, s.fault)
    } else {
        let t = split_packets(frames);
        (IoView { bytes: s.rest, frames: t.rest, packets: io.packets + t.packets }, t.fault)
    }
}

/// The longest run of bytes that can wait for the end of a frame.
pub open spec fn longest_partial_frame() -> int {
    HEADER_SIZE_BYTE + DEFAULT_MAX_PAYLOAD_SIZE as int
}

/// The receiving side of a connection.
pub struct IoState {
    byte_buffer: BytesMut,
    frame_buffer: Vec<Frame>,
    packet_buffer: VecDeque<Packet>,
}

/// The contents of a queue of packets.
pub open spec fn packet_views(packets: Seq<Packet>) -> Seq<PacketView> {
    Seq::new(packets.len(), |i: int| packets[i]@)
}

impl View for IoState {
    type V = IoView;

    closed spec fn view(&self) -> IoView {
        IoView {
            bytes: buffered(self.byte_buffer),
            frames: frame_views(self.frame_buffer@),
            packets: packet_views(self.packet_buffer@),
        }
    }
}

impl IoState {
    /// No complete frame waits among the bytes.
    pub open spec fn wf(&self) -> bool {
        self@.bytes.len() < longest_partial_frame()
    }

    /// A receiver that holds nothing.
    pub fn new() -> (r: IoState)
        ensures
            r@ == empty_io(),
            r.wf(),
    {
        let r = IoState {
            byte_buffer: new_buffer(),
            frame_buffer: Vec::new(),
            packet_buffer: VecDeque::new(),
        };
        assert(r@ =~= empty_io());
        r
    }

    /// Takes the oldest complete packet.
    pub fn next_packet(&mut self) -> (r: Option<Packet>)
        ensures
            final(self)@.bytes == old(self)@.bytes,
            final(self)@.frames == old(self)@.frames,
            old(self).wf() ==> final(self).wf(),
            match r {
                Some(p) => old(self)@.packets.len() > 0 && p@ == old(self)@.packets[0]
                    && final(self)@.packets == old(self)@.packets.skip(1),
                None => old(self)@.packets.len() == 0 && final(self)@ == old(self)@,
            },
    {
        let ghost before = self.packet_buffer@;
        let r = self.packet_buffer.pop_front();
        proof {
            if before.len() > 0 {
                assert(packet_views(self.packet_buffer@) =~= packet_views(before).skip(1));
            } else {
                assert(self@ =~= old(self)@);
            }
        }
        r
    }

    /// Takes bytes that arrived: complete frames among them are put together
    /// to packets, the rest waits.
    pub fn receive(&mut self, input: &[u8]) -> (r: Result<(), Error>)
        requires
            old(self).wf(),
            input@.len() + longest_partial_frame() <= buffer_limit(),
        ensures
            final(self)@ == received(old(self)@, input@).0,
            match r {
                Ok(()) => received(old(self)@, input@).1 is None && final(self).wf(),
                Err(e) => received(old(self)@, input@).1 == Some(e@),
            },
    {
        proof {
            reveal(received);
        }
        append_to_buffer(&mut self.byte_buffer, input);
        match self.take_frames() {
            Ok(()) => self.take_packets(),
            Err(e) => Err(e),
        }
    }

    /// Moves the complete frames at the start of the bytes to the frames.
    fn take_frames(&mut self) -> (r: Result<(), Error>)
        ensures
            final(self)@ == (IoView {
                bytes: split_frames(old(self)@.bytes).rest,
                frames: old(self)@.frames + split_frames(old(self)@.bytes).frames,
                packets: old(self)@.packets,
            }),
            match r {
                Ok(()) => split_frames(old(self)@.bytes).fault is None && final(self).wf(),
                Err(e) => split_frames(old(self)@.bytes).fault == Some(e@),
            },
    {
        let ghost start = self@.bytes;
        let ghost before = self@.frames;
        let ghost packets = self@.packets;
        proof {
            assert(before + split_frames(start).frames =~= self@.frames + split_frames(
                self@.bytes,
            ).frames);
        }
        loop
            invariant
                self@.packets == packets,
                split_frames(start).rest == split_frames(self@.bytes).rest,
                split_frames(start).fault == split_frames(self@.bytes).fault,
                before + split_frames(start).frames == self@.frames + split_frames(
                    self@.bytes,
                ).frames,
                packets == old(self)@.packets,
                before == old(self)@.frames,
                start == old(self)@.bytes,
            decreases self@.bytes.len(),
        {
            let ghost bytes = self@.bytes;
            let ghost frames = self@.frames;
            let available = buffer_bytes(&self.byte_buffer);
            proof {
                law_decode_agrees_with_peek(bytes);
            }
            let length: usize = match Frame::peek_head(available) {
                Err(e) => {
                    assert(self@ =~= IoView {
                        bytes: split_frames(start).rest,
                        frames: before + split_frames(start).frames,
                        packets,
                    }) by {
                        assert(frames + Seq::<FrameView>::empty() =~= frames);
                    }
                    return Err(e);
                },
                Ok(head) => match head {
                    Some((_, _, n)) => HEADER_SIZE_BYTE + n,
                    None => HEADER_SIZE_BYTE,
                },
            };
            if available.len() < length {
                assert(decoded_frame(bytes) is Err);
                assert(self@ =~= IoView {
                    bytes: split_frames(start).rest,
                    frames: before + split_frames(start).frames,
                    packets,
                }) by {
                    assert(frames + Seq::<FrameView>::empty() =~= frames);
                }
                return Ok(());
            }
            match Frame::decode(available) {
                Ok(frame) => {
                    let ghost f = frame@;
                    let ghost old_buffer = self.frame_buffer@;
                    self.frame_buffer.push(frame);
                    consume_from_buffer(&mut self.byte_buffer, length);
                    proof {
                        assert(frame_views(self.frame_buffer@) =~= frame_views(old_buffer).push(f));
                        let tail = split_frames(bytes.skip(length as int)).frames;
                        assert(frames + (seq![f] + tail) =~= frames.push(f) + tail);
                    }
                },
                Err(e) => {
                    // The header is sound and the payload is there.
                    assert(false);
                    return Err(e);
                },
            }
        }
    }

    /// Moves the complete packets at the start of the frames to the packets.
    fn take_packets(&mut self) -> (r: Result<(), Error>)
        ensures
            final(self)@ == (IoView {
                bytes: old(self)@.bytes,
                frames: split_packets(old(self)@.frames).rest,
                packets: old(self)@.packets + split_packets(old(self)@.frames).packets,
            }),
            match r {
                Ok(()) => split_packets(old(self)@.frames).fault is None,
                Err(e) => split_packets(old(self)@.frames).fault == Some(e@),
            },
    {
        let ghost start = self@.frames;
        let ghost before = self@.packets;
        let ghost bytes = self@.bytes;
        loop
            invariant
                self@.bytes == bytes,
                split_packets(start).rest == split_packets(self@.frames).rest,
                split_packets(start).fault == split_packets(self@.frames).fault,
                before + split_packets(start).packets == self@.packets + split_packets(
                    self@.frames,
                ).packets,
                before == old(self)@.packets,
                start == old(self)@.frames,
                bytes == old(self)@.bytes,
            decreases self@.frames.len(),
        {
            let ghost frames = self@.frames;
            let ghost packets = self@.packets;
            proof {
                lemma_first_end_inside(frames);
            }
            match try_assemble_packet(self.frame_buffer.as_slice()) {
                Ok(Some((used, packet))) => {
                    let ghost p = packet@;
                    let ghost old_frames = self.frame_buffer@;
                    let ghost old_packets = self.packet_buffer@;
                    let rest = self.frame_buffer.split_off(used);
                    self.frame_buffer = rest;
                    self.packet_buffer.push_back(packet);
                    proof {
                        assert(frame_views(self.frame_buffer@) =~= frame_views(old_frames).skip(
                            used as int,
                        ));
                        assert(packet_views(self.packet_buffer@) =~= packet_views(old_packets).push(
                            p,
                        ));
                        let tail = split_packets(frames.skip(used as int)).packets;
                        assert(packets + (seq![p] + tail) =~= packets.push(p) + tail);
                    }
                },
                Ok(None) => {
                    assert(packets + Seq::<PacketView>::empty() =~= packets);
                    assert(self@ =~= IoView {
                        bytes,
                        frames: split_packets(start).rest,
                        packets: before + split_packets(start).packets,
                    });
                    return Ok(());
                },
                Err(e) => {
                    assert(packets + Seq::<PacketView>::empty() =~= packets);
                    assert(self@ =~= IoView {
                        bytes,
                        frames: split_packets(start).rest,
                        packets: before + split_packets(start).packets,
                    });
                    return Err(e);
                },
            }
        }
    }
}

} // verus!
