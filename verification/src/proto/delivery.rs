//! Delivery: packets written to a stream come out at the other end, in order
//! and one for one, however the stream cuts their bytes into pieces.
use crate::proto::codec::{
    assembled, first_end, law_fragment_assemble, law_fragments, packet_fragments,
};
use crate::proto::error::ErrorView;
use crate::proto::frame::{
    decoded_frame, frame_bytes, frame_fits, law_decode_agrees_with_peek, law_frame_roundtrip,
    law_peek_agrees_with_encode, law_what_is_a_frame, law_what_is_a_header, lemma_frame_layout,
    peeked_head, FrameView, HEADER_SIZE_BYTE,
};
use crate::proto::packet::{packet_body, packet_tag, PacketView};
use crate::proto::stream::{
    empty_io, frames_wire, lemma_first_end_inside, packet_wire, packets_wire, received,
    split_frames, split_packets, FrameSplit, IoView, PacketSplit,
};
use crate::wire::be16_at;
use vstd::prelude::*;

verus! {

/// What a receiver holds after several pieces arrived one after another, and
/// the first failure. Nothing is taken in after a failure.
pub open spec fn received_all(io: IoView, pieces: Seq<Seq<u8>>) -> (IoView, Option<ErrorView>)
    decreases pieces.len(),
{
    if pieces.len() == 0 {
        (io, None)
    } else {
        let (next, fault) = received_all(io, pieces.drop_last());
        if fault is Some {
            (next, fault)
        } else {
            received(next, pieces.last())
        }
    }
}

/// The pieces one after another.
pub open spec fn concatenated(pieces: Seq<Seq<u8>>) -> Seq<u8>
    decreases pieces.len(),
{
    if pieces.len() == 0 {
        Seq::empty()
    } else {
        concatenated(pieces.drop_last()) + pieces.last()
    }
}

/// A frame at the start of some bytes is still there when more bytes follow.
proof fn lemma_decode_extends(a: Seq<u8>, b: Seq<u8>)
    ensures
        decoded_frame(a) is Ok ==> decoded_frame(a + b) == decoded_frame(a),
        peeked_head(a) is Err ==> peeked_head(a + b) == peeked_head(a) && decoded_frame(
            a + b,
        ) is Err,
{
    if a.len() >= HEADER_SIZE_BYTE {
        let ab = a + b;
        assert(ab.subrange(0, 3) =~= a.subrange(0, 3));
        assert(be16_at(ab, 4) == be16_at(a, 4));
        if let Ok(f) = decoded_frame(a) {
            assert(ab.subrange(8, 8 + be16_at(a, 4) as int) =~= a.subrange(
                8,
                8 + be16_at(a, 4) as int,
            ));
        }
        law_decode_agrees_with_peek(ab);
    }
}

/// Splitting bytes into frames can stop after `a` and go on with what was
/// left over, and a failure in `a` stays one.
proof fn lemma_split_frames_extends(a: Seq<u8>, b: Seq<u8>)
    ensures
        split_frames(a).fault is None ==> split_frames(a + b) == (FrameSplit {
            frames: split_frames(a).frames + split_frames(split_frames(a).rest + b).frames,
            rest: split_frames(split_frames(a).rest + b).rest,
            fault: split_frames(split_frames(a).rest + b).fault,
        }),
        split_frames(a).fault is Some ==> split_frames(a + b).fault is Some,
    decreases a.len(),
{
    lemma_decode_extends(a, b);
    match decoded_frame(a) {
        Ok(f) => {
            let n = HEADER_SIZE_BYTE + f.payload.len() as int;
            lemma_split_frames_extends(a.skip(n), b);
            assert((a + b).skip(n) =~= a.skip(n) + b);
            if split_frames(a).fault is None {
                let mid = split_frames(a.skip(n));
                let end = split_frames(mid.rest + b);
                assert(seq![f] + (mid.frames + end.frames) =~= (seq![f] + mid.frames) + end.frames);
            }
        },
        Err(_) => {
            if split_frames(a).fault is None {
                assert(split_frames(a).frames + split_frames(a + b).frames =~= split_frames(
                    a + b,
                ).frames);
            }
        },
    }
}

/// The first packet of some frames stays the same when more frames follow.
proof fn lemma_assembled_extends(a: Seq<FrameView>, b: Seq<FrameView>)
    ensures
        assembled(a) != Ok::<Option<(nat, PacketView)>, ErrorView>(None) ==> assembled(a + b)
            == assembled(a),
{
    lemma_first_end_extends(a, b);
    lemma_first_end_inside(a);
    if let Some(end) = first_end(a) {
        assert((a + b).take(end as int + 1) =~= a.take(end as int + 1));
    }
}

proof fn lemma_first_end_extends(a: Seq<FrameView>, b: Seq<FrameView>)
    ensures
        first_end(a) is Some ==> first_end(a + b) == first_end(a),
    decreases a.len(),
{
    if a.len() > 0 {
        lemma_first_end_extends(a.skip(1), b);
        assert((a + b).skip(1) =~= a.skip(1) + b);
    }
}

/// Splitting frames into packets can stop after `a` and go on with what was
/// left over, and a failure in `a` stays one.
proof fn lemma_split_packets_extends(a: Seq<FrameView>, b: Seq<FrameView>)
    ensures
        split_packets(a).fault is None ==> split_packets(a + b) == (PacketSplit {
            packets: split_packets(a).packets + split_packets(split_packets(a).rest + b).packets,
            rest: split_packets(split_packets(a).rest + b).rest,
            fault: split_packets(split_packets(a).rest + b).fault,
        }),
        split_packets(a).fault is Some ==> split_packets(a + b).fault is Some,
    decreases a.len(),
{
    lemma_assembled_extends(a, b);
    lemma_first_end_inside(a);
    match assembled(a) {
        Ok(Some((used, p))) => {
            let n = used as int;
            lemma_split_packets_extends(a.skip(n), b);
            assert((a + b).skip(n) =~= a.skip(n) + b);
            if split_packets(a).fault is None {
                let mid = split_packets(a.skip(n));
                let end = split_packets(mid.rest + b);
                assert(seq![p] + (mid.packets + end.packets) =~= (seq![p] + mid.packets)
                    + end.packets);
            }
        },
        Ok(None) => {
            assert(split_packets(a).packets + split_packets(a + b).packets =~= split_packets(
                a + b,
            ).packets);
        },
        Err(_) => {},
    }
}

/// Two pieces that arrive one after the other, the first without a failure, do
/// what they do in one piece: they fail with the same error, or leave the
/// receiver with the same contents.
pub proof fn law_pieces_join(io: IoView, a: Seq<u8>, b: Seq<u8>)
    requires
        received(io, a).1 is None,
    ensures
        received(received(io, a).0, b).1 == received(io, a + b).1,
        received(io, a + b).1 is None ==> received(received(io, a).0, b) == received(io, a + b),
{
    reveal(received);
    lemma_split_frames_extends(io.bytes + a, b);
    assert(io.bytes + (a + b) =~= (io.bytes + a) + b);
    let s = split_frames(io.bytes + a);
    let frames = io.frames + s.frames;
    let t = split_packets(frames);
    let s2 = split_frames(s.rest + b);
    assert(frames + s2.frames =~= io.frames + (s.frames + s2.frames));
    lemma_split_packets_extends(frames, s2.frames);
    let t2 = split_packets(t.rest + s2.frames);
    assert((io.packets + t.packets) + t2.packets =~= io.packets + (t.packets + t2.packets));
}

/// A failure stays one whatever arrives behind it.
pub proof fn law_failure_stays(io: IoView, a: Seq<u8>, b: Seq<u8>)
    requires
        received(io, a).1 is Some,
    ensures
        received(io, a + b).1 is Some,
{
    reveal(received);
    lemma_split_frames_extends(io.bytes + a, b);
    assert(io.bytes + (a + b) =~= (io.bytes + a) + b);
    let s = split_frames(io.bytes + a);
    if s.fault is None {
        let frames = io.frames + s.frames;
        let s2 = split_frames(s.rest + b);
        assert(frames + s2.frames =~= io.frames + (s.frames + s2.frames));
        lemma_split_packets_extends(frames, s2.frames);
    }
}

/// Nothing arrives, nothing changes, in a receiver without leftovers.
proof fn lemma_receive_nothing(packets: Seq<PacketView>)
    ensures
        received(idle_io(packets), Seq::empty()) == (idle_io(packets), None::<ErrorView>),
{
    reveal(received);
    let io = idle_io(packets);
    assert(io.bytes + Seq::<u8>::empty() =~= Seq::<u8>::empty());
    assert(split_frames(Seq::empty()) =~= FrameSplit {
        frames: Seq::empty(),
        rest: Seq::empty(),
        fault: None,
    });
    assert(io.frames + Seq::<FrameView>::empty() =~= Seq::<FrameView>::empty());
    assert(packets + Seq::<PacketView>::empty() =~= packets);
}

/// A receiver that has taken in everything that arrived, with these packets
/// not yet taken out.
pub open spec fn idle_io(packets: Seq<PacketView>) -> IoView {
    IoView { bytes: Seq::empty(), frames: Seq::empty(), packets }
}

/// However bytes without a failure are cut into pieces, the receiver ends with
/// the same contents as if they had arrived at once.
pub proof fn law_cutting_is_invisible(packets: Seq<PacketView>, pieces: Seq<Seq<u8>>)
    requires
        received(idle_io(packets), concatenated(pieces)).1 is None,
    ensures
        received_all(idle_io(packets), pieces) == received(
            idle_io(packets),
            concatenated(pieces),
        ),
    decreases pieces.len(),
{
    let io = idle_io(packets);
    if pieces.len() == 0 {
        lemma_receive_nothing(packets);
    } else {
        let a = concatenated(pieces.drop_last());
        let b = pieces.last();
        if received(io, a).1 is Some {
            law_failure_stays(io, a, b);
        }
        law_cutting_is_invisible(packets, pieces.drop_last());
        law_pieces_join(io, a, b);
    }
}

/// The bytes of frames that fit split into exactly those frames.
proof fn lemma_split_frames_wire(frames: Seq<FrameView>)
    requires
        forall|i: int| 0 <= i < frames.len() ==> frame_fits(#[trigger] frames[i]),
    ensures
        split_frames(frames_wire(frames)) == (FrameSplit {
            frames,
            rest: Seq::empty(),
            fault: None,
        }),
    decreases frames.len(),
{
    if frames.len() == 0 {
        assert(split_frames(Seq::empty()) =~= FrameSplit {
            frames,
            rest: Seq::empty(),
            fault: None,
        });
    } else {
        let head = frames.drop_last();
        let f = frames.last();
        assert(frame_fits(f)) by {
            assert(frame_fits(frames[frames.len() - 1]));
        }
        assert forall|i: int| 0 <= i < head.len() implies frame_fits(#[trigger] head[i]) by {
            assert(frame_fits(frames[i]));
        }
        lemma_split_frames_wire(head);
        let own = frame_bytes(f);
        lemma_split_frames_extends(frames_wire(head), own);
        assert(Seq::<u8>::empty() + own =~= own);
        law_frame_roundtrip(f, Seq::empty());
        assert(own + Seq::<u8>::empty() =~= own);
        assert(own =~= own.subrange(0, own.len() as int));
        lemma_frame_layout(f, own);
        assert(own.skip(HEADER_SIZE_BYTE + f.payload.len() as int) =~= Seq::<u8>::empty());
        assert(split_frames(Seq::empty()).frames =~= Seq::<FrameView>::empty());
        assert(split_frames(own) =~= FrameSplit {
            frames: seq![f],
            rest: Seq::empty(),
            fault: None,
        });
        assert(head + seq![f] =~= frames);
    }
}

/// The frames of one packet split into exactly that packet.
proof fn lemma_split_own_packet(p: PacketView)
    ensures
        split_packets(packet_fragments(p)) == (PacketSplit {
            packets: seq![p],
            rest: Seq::empty(),
            fault: None,
        }),
{
    let own = packet_fragments(p);
    law_fragment_assemble(p, Seq::empty());
    assert(own + Seq::<FrameView>::empty() =~= own);
    assert(own.skip(own.len() as int) =~= Seq::<FrameView>::empty());
    assert(split_packets(Seq::empty()) =~= PacketSplit {
        packets: Seq::empty(),
        rest: Seq::empty(),
        fault: None,
    });
    assert(seq![p] + Seq::<PacketView>::empty() =~= seq![p]);
}

/// The bytes written for a packet give a receiver without leftovers exactly
/// that packet.
pub proof fn law_one_packet_arrives(packets: Seq<PacketView>, p: PacketView)
    ensures
        received(idle_io(packets), packet_wire(p)) == (
            idle_io(packets.push(p)),
            None::<ErrorView>,
        ),
{
    reveal(received);
    let own = packet_fragments(p);
    law_fragments(packet_tag(p), packet_body(p));
    lemma_split_frames_wire(own);
    lemma_split_own_packet(p);
    assert(Seq::<u8>::empty() + packet_wire(p) =~= packet_wire(p));
    assert(Seq::<FrameView>::empty() + own =~= own);
    assert(packets + seq![p] =~= packets.push(p));
}

/// The bytes written for several packets give a receiver without leftovers
/// exactly those packets, in the order they were written.
proof fn lemma_packets_arrive(earlier: Seq<PacketView>, packets: Seq<PacketView>)
    ensures
        received(idle_io(earlier), packets_wire(packets)) == (
            idle_io(earlier + packets),
            None::<ErrorView>,
        ),
    decreases packets.len(),
{
    if packets.len() == 0 {
        lemma_receive_nothing(earlier);
        assert(earlier + packets =~= earlier);
    } else {
        let head = packets.drop_last();
        lemma_packets_arrive(earlier, head);
        law_one_packet_arrives(earlier + head, packets.last());
        law_pieces_join(idle_io(earlier), packets_wire(head), packet_wire(packets.last()));
        assert((earlier + head).push(packets.last()) =~= earlier + packets);
    }
}

/// Packets that one peer writes are received by the other one for one and in
/// order, however the stream cuts the bytes into pieces; nothing is left over.
pub proof fn law_delivery(packets: Seq<PacketView>, pieces: Seq<Seq<u8>>)
    requires
        concatenated(pieces) == packets_wire(packets),
    ensures
        received_all(empty_io(), pieces) == (idle_io(packets), None::<ErrorView>),
{
    let none = Seq::<PacketView>::empty();
    lemma_packets_arrive(none, packets);
    assert(none + packets =~= packets);
    law_cutting_is_invisible(none, pieces);
    assert(empty_io() == idle_io(none));
}

/// Bytes that cannot start a frame are refused as soon as there is a whole
/// header of them; before that they wait.
pub proof fn law_garbage_is_refused(packets: Seq<PacketView>, input: Seq<u8>)
    ensures
        input.len() < 8 ==> received(idle_io(packets), input) == (
            IoView { bytes: input, frames: Seq::empty(), packets },
            None::<ErrorView>,
        ),
        input.len() >= 8 && (input[0] != 0x4E || input[1] != 0x43 || input[2] != 0x44 || input[3]
            != 1 || input[6] > 1) ==> received(idle_io(packets), input).1 is Some,
{
    reveal(received);
    assert(Seq::<u8>::empty() + input =~= input);
    law_what_is_a_frame(input);
    law_what_is_a_header(input);
    if input.len() < 8 {
        let none = Seq::<FrameView>::empty();
        assert(none + none =~= none);
        assert(first_end(none) is None);
        assert(packets + Seq::<PacketView>::empty() =~= packets);
        assert(split_packets(none) =~= PacketSplit {
            packets: Seq::empty(),
            rest: none,
            fault: None,
        });
    }
}

/// Until the last byte of a packet has arrived, the packet does not come out,
/// and no failure comes either.
pub proof fn law_part_of_a_frame_waits(packets: Seq<PacketView>, f: FrameView, n: nat)
    requires
        frame_fits(f),
        n < frame_bytes(f).len(),
    ensures
        received(idle_io(packets), frame_bytes(f).take(n as int)) == (
            IoView { bytes: frame_bytes(f).take(n as int), frames: Seq::empty(), packets },
            None::<ErrorView>,
        ),
{
    reveal(received);
    let part = frame_bytes(f).take(n as int);
    assert(Seq::<u8>::empty() + part =~= part);
    let own = frame_bytes(f);
    assert(own =~= own.subrange(0, own.len() as int));
    lemma_frame_layout(f, own);
    if n >= HEADER_SIZE_BYTE {
        law_peek_agrees_with_encode(f, n);
    } else {
        law_what_is_a_header(part);
    }
    law_decode_agrees_with_peek(part);
    let none = Seq::<FrameView>::empty();
    assert(none + none =~= none);
    assert(packets + Seq::<PacketView>::empty() =~= packets);
    assert(split_packets(none) =~= PacketSplit { packets: Seq::empty(), rest: none, fault: None });
}

} // verus!
