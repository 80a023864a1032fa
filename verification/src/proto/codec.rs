//! Packets cut into frames, and frames put together to packets.
use crate::proto::error::{AssemblePacketError, Error, ErrorView};
use crate::proto::frame::{frame_fits, Flag, Frame, FrameView, DEFAULT_MAX_PAYLOAD_SIZE};
use crate::proto::packet::{
    decoded_packet, law_packet_roundtrip, packet_body, packet_tag, Packet, PacketView,
};
use crate::wire::{copy_range, push_bytes};
use vstd::prelude::*;

verus! {

/// Largest payload of one frame, in bytes.
pub const MAX_PAYLOAD_SIZE: usize = DEFAULT_MAX_PAYLOAD_SIZE;

/// The contents of a run of frames.
pub open spec fn frame_views(frames: Seq<Frame>) -> Seq<FrameView> {
    Seq::new(frames.len(), |i: int| frames[i]@)
}

/// The frames that carry a payload of type `ty`: full ones with `More`, then
/// the remainder with `End`.
pub open spec fn fragments(ty: u8, body: Seq<u8>) -> Seq<FrameView>
    decreases body.len(),
{
    if body.len() <= MAX_PAYLOAD_SIZE {
        seq![FrameView { flag: Flag::End, ty, payload: body }]
    } else {
        seq![FrameView { flag: Flag::More, ty, payload: body.take(MAX_PAYLOAD_SIZE as int) }]
            + fragments(ty, body.skip(MAX_PAYLOAD_SIZE as int))
    }
}

/// The frames that carry a packet.
pub open spec fn packet_fragments(p: PacketView) -> Seq<FrameView> {
    fragments(packet_tag(p), packet_body(p))
}

/// The position of the first frame that ends a packet.
pub open spec fn first_end(frames: Seq<FrameView>) -> Option<nat>
    decreases frames.len(),
{
    if frames.len() == 0 {
        None
    } else if frames[0].flag == Flag::End {
        Some(0)
    } else {
        match first_end(frames.skip(1)) {
            Some(i) => Some(i + 1),
            None => None,
        }
    }
}

/// The payloads of a run of frames, one after another.
pub open spec fn joined(frames: Seq<FrameView>) -> Seq<u8>
    decreases frames.len(),
{
    if frames.len() == 0 {
        Seq::empty()
    } else {
        joined(frames.drop_last()) + frames.last().payload
    }
}

/// The type of the first frame whose type is not `ty`.
pub open spec fn first_stranger(frames: Seq<FrameView>, ty: u8) -> Option<u8>
    decreases frames.len(),
{
    if frames.len() == 0 {
        None
    } else if frames[0].ty != ty {
        Some(frames[0].ty)
    } else {
        first_stranger(frames.skip(1), ty)
    }
}

/// What a run of frames starts with: the number of frames of the first packet
/// and that packet, `None` while its last frame is missing, or why these
/// frames make no packet.
pub open spec fn assembled(frames: Seq<FrameView>) -> Result<
    Option<(nat, PacketView)>,
    ErrorView,
> {
    match first_end(frames) {
        None => Ok(None),
        Some(end) => {
            let used = frames.take(end as int + 1);
            let ty = used[0].ty;
            match first_stranger(used, ty) {
                Some(other) => Err(
                    ErrorView::AssemblePacketError(
                        AssemblePacketError::MismatchedTypes {
                            first_frame_type: ty,
                            frame_type: other,
                        },
                    ),
                ),
                None => match decoded_packet(ty, joined(used)) {
                    Ok(p) => Ok(Some((end + 1, p))),
                    Err(e) => Err(e),
                },
            }
        },
    }
}

/// Cuts a packet into frames that fit. `buf` is replaced by those frames.
pub fn fragment_packet(packet: Packet, buf: &mut Vec<Frame>)
    ensures
        frame_views(final(buf)@) == packet_fragments(packet@),
{
    buf.clear();
    let (ty, bytes) = packet.encode();
    let ghost body = bytes@;
    let mut start: usize = 0;
    proof {
        assert(body.skip(0) =~= body);
        assert(frame_views(buf@) =~= Seq::<FrameView>::empty());
        assert(frame_views(buf@) + fragments(ty, body) =~= fragments(ty, body));
    }
    while bytes.len() - start > MAX_PAYLOAD_SIZE
        invariant
            start <= bytes.len(),
            bytes@ == body,
            frame_views(buf@) + fragments(ty, body.skip(start as int)) == fragments(ty, body),
        decreases bytes.len() - start,
    {
        let payload = copy_range(bytes.as_slice(), start, start + MAX_PAYLOAD_SIZE);
        let ghost before = frame_views(buf@);
        let ghost rest = body.skip(start as int);
        let frame = Frame { flag: Flag::More, ty, payload };
        let ghost head = frame@;
        buf.push(frame);
        proof {
            assert(rest.take(MAX_PAYLOAD_SIZE as int) =~= payload@);
            assert(rest.skip(MAX_PAYLOAD_SIZE as int) =~= body.skip(start + MAX_PAYLOAD_SIZE));
            assert(frame_views(buf@) =~= before.push(head));
            assert(before.push(head) + fragments(ty, rest.skip(MAX_PAYLOAD_SIZE as int)) =~= before
                + (seq![head] + fragments(ty, rest.skip(MAX_PAYLOAD_SIZE as int))));
        }
        start = start + MAX_PAYLOAD_SIZE;
    }
    let payload = copy_range(bytes.as_slice(), start, bytes.len());
    let ghost before = frame_views(buf@);
    let frame = Frame { flag: Flag::End, ty, payload };
    let ghost head = frame@;
    buf.push(frame);
    proof {
        assert(body.skip(start as int) =~= payload@);
        assert(frame_views(buf@) =~= before.push(head));
        assert(before.push(head) =~= before + seq![head]);
    }
}

/// Puts the first packet of a run of frames together. Gives the number of
/// frames it takes up and the packet.
pub fn try_assemble_packet(frames: &[Frame]) -> (r: Result<Option<(usize, Packet)>, Error>)
    ensures
        match r {
            Ok(None) => assembled(frame_views(frames@)) == Ok::<
                Option<(nat, PacketView)>,
                ErrorView,
            >(None),
            Ok(Some((used, p))) => assembled(frame_views(frames@)) == Ok::<
                Option<(nat, PacketView)>,
                ErrorView,
            >(Some((used as nat, p@))),
            Err(e) => assembled(frame_views(frames@)) == Err::<
                Option<(nat, PacketView)>,
                ErrorView,
            >(e@),
        },
{
    let ghost views = frame_views(frames@);
    let mut end: usize = 0;
    while end < frames.len() && frames[end].flag == Flag::More
        invariant
            end <= frames.len(),
            views == frame_views(frames@),
            forall|i: int| 0 <= i < end ==> views[i].flag == Flag::More,
        decreases frames.len() - end,
    {
        end = end + 1;
    }
    proof {
        lemma_first_end(views, end as nat);
    }
    if end == frames.len() {
        return Ok(None);
    }
    let ghost used = views.take(end as int + 1);
    let ty: u8 = frames[0].ty;
    let mut payload: Vec<u8> = Vec::new();
    let mut i: usize = 0;
    while i <= end
        invariant
            i <= end + 1,
            end < frames.len(),
            views == frame_views(frames@),
            used == views.take(end as int + 1),
            ty == used[0].ty,
            first_end(views) == Some(end as nat),
            forall|k: int| 0 <= k < i ==> views[k].ty == ty,
            payload@ == joined(used.take(i as int)),
        decreases end + 1 - i,
    {
        if frames[i].ty != ty {
            proof {
                lemma_first_stranger(used, ty, i as nat);
            }
            return Err(
                Error::from(
                    AssemblePacketError::MismatchedTypes {
                        first_frame_type: ty,
                        frame_type: frames[i].ty,
                    },
                ),
            );
        }
        push_bytes(&mut payload, frames[i].payload.as_slice());
        proof {
            assert(used.take(i as int + 1).drop_last() =~= used.take(i as int));
        }
        i = i + 1;
    }
    proof {
        lemma_first_stranger(used, ty, end as nat + 1);
        assert(used.take(end as int + 1) =~= used);
    }
    match Packet::decode(ty, payload.as_slice()) {
        Ok(p) => Ok(Some((end + 1, p))),
        Err(e) => Err(e),
    }
}

/// Frames that all carry `More` up to position `n` end there or nowhere.
proof fn lemma_first_end(frames: Seq<FrameView>, n: nat)
    requires
        n <= frames.len(),
        forall|i: int| 0 <= i < n ==> frames[i].flag == Flag::More,
        n < frames.len() ==> frames[n as int].flag == Flag::End,
    ensures
        first_end(frames) == if n < frames.len() {
            Some(n)
        } else {
            None
        },
    decreases n,
{
    if n > 0 {
        lemma_first_end(frames.skip(1), (n - 1) as nat);
    }
}

/// Frames that all have type `ty` up to position `n` meet the first stranger
/// there or nowhere.
proof fn lemma_first_stranger(frames: Seq<FrameView>, ty: u8, n: nat)
    requires
        n <= frames.len(),
        forall|i: int| 0 <= i < n ==> frames[i].ty == ty,
        n < frames.len() ==> frames[n as int].ty != ty,
    ensures
        first_stranger(frames, ty) == if n < frames.len() {
            Some(frames[n as int].ty)
        } else {
            None
        },
    decreases n,
{
    if n > 0 {
        lemma_first_stranger(frames.skip(1), ty, (n - 1) as nat);
    }
}

/// The payload of a run of frames with one more frame in front.
proof fn lemma_joined_push_front(head: FrameView, frames: Seq<FrameView>)
    ensures
        joined(seq![head] + frames) == head.payload + joined(frames),
    decreases frames.len(),
{
    let all = seq![head] + frames;
    if frames.len() == 0 {
        assert(all.drop_last() =~= Seq::<FrameView>::empty());
        assert(joined(all.drop_last()) =~= Seq::<u8>::empty());
        assert(all.last() == head);
        assert(joined(all) =~= head.payload + joined(frames));
    } else {
        lemma_joined_push_front(head, frames.drop_last());
        assert(all.drop_last() =~= seq![head] + frames.drop_last());
        assert(joined(all) =~= head.payload + joined(frames));
    }
}

/// A packet is cut into at least one frame. Each fits, has the packet's type,
/// and carries `End` exactly if it is the last. Together they carry the
/// payload.
pub proof fn law_fragments(ty: u8, body: Seq<u8>)
    ensures
        fragments(ty, body).len() >= 1,
        forall|i: int|
            0 <= i < fragments(ty, body).len() ==> {
                let f = #[trigger] fragments(ty, body)[i];
                &&& frame_fits(f)
                &&& f.ty == ty
                &&& (f.flag == Flag::End <==> i == fragments(ty, body).len() - 1)
            },
        joined(fragments(ty, body)) == body,
    decreases body.len(),
{
    let max = MAX_PAYLOAD_SIZE as int;
    let all = fragments(ty, body);
    if body.len() <= max {
        assert(all.drop_last() =~= Seq::<FrameView>::empty());
        assert(joined(all.drop_last()) =~= Seq::<u8>::empty());
        assert(joined(all) =~= body);
    } else {
        let head = FrameView { flag: Flag::More, ty, payload: body.take(max) };
        let tail = fragments(ty, body.skip(max));
        law_fragments(ty, body.skip(max));
        lemma_joined_push_front(head, tail);
        assert(body.take(max) + body.skip(max) =~= body);
        assert forall|i: int| 0 <= i < all.len() implies {
            let f = #[trigger] all[i];
            &&& frame_fits(f)
            &&& f.ty == ty
            &&& (f.flag == Flag::End <==> i == all.len() - 1)
        } by {
            if i > 0 {
                assert(all[i] == tail[i - 1]);
            }
        }
    }
}

/// The number of frames is what the payload length needs: one for every full
/// payload and one for the remainder, and one for an empty payload.
pub proof fn law_fragment_count(ty: u8, body: Seq<u8>)
    ensures
        body.len() <= MAX_PAYLOAD_SIZE ==> fragments(ty, body).len() == 1,
        body.len() > 0 ==> fragments(ty, body).len() == (body.len() + MAX_PAYLOAD_SIZE - 1) / (
        MAX_PAYLOAD_SIZE as int),
    decreases body.len(),
{
    if body.len() > MAX_PAYLOAD_SIZE {
        law_fragment_count(ty, body.skip(MAX_PAYLOAD_SIZE as int));
    }
}

/// A packet that was cut into frames is put together again from them, whatever
/// frames follow, and takes up exactly its own frames.
pub proof fn law_fragment_assemble(p: PacketView, rest: Seq<FrameView>)
    ensures
        assembled(packet_fragments(p) + rest) == Ok::<Option<(nat, PacketView)>, ErrorView>(
            Some((packet_fragments(p).len(), p)),
        ),
{
    let ty = packet_tag(p);
    let own = packet_fragments(p);
    let all = own + rest;
    law_fragments(ty, packet_body(p));
    let n = (own.len() - 1) as nat;
    assert forall|i: int| 0 <= i < n implies all[i].flag == Flag::More by {
        assert(all[i] == own[i]);
    }
    assert(all[n as int] == own[n as int]);
    lemma_first_end(all, n);
    assert(all.take(n as int + 1) =~= own);
    lemma_first_stranger(own, ty, own.len());
    law_packet_roundtrip(p);
}

/// While only some of a packet's frames are there, no packet comes out.
pub proof fn law_partial_fragments(p: PacketView, n: nat)
    requires
        n < packet_fragments(p).len(),
    ensures
        assembled(packet_fragments(p).take(n as int)) == Ok::<Option<(nat, PacketView)>, ErrorView>(
            None,
        ),
{
    let own = packet_fragments(p);
    law_fragments(packet_tag(p), packet_body(p));
    assert forall|i: int| 0 <= i < n implies own.take(n as int)[i].flag == Flag::More by {
        assert(own.take(n as int)[i] == own[i]);
    }
    lemma_first_end(own.take(n as int), n);
}

/// Every frame of a packet but the last is full, with 65535 bytes, and the last
/// holds what remains; a payload that fits travels in one frame.
pub proof fn law_frames_are_full(ty: u8, body: Seq<u8>, i: int)
    requires
        0 <= i < fragments(ty, body).len(),
    ensures
        i < fragments(ty, body).len() - 1 ==> fragments(ty, body)[i].payload == body.subrange(
            65535 * i,
            65535 * (i + 1),
        ) && 65535 * (i + 1) < body.len(),
        i == fragments(ty, body).len() - 1 ==> fragments(ty, body)[i].payload == body.skip(65535 * i)
            && 65535 * i <= body.len() <= 65535 * (i + 1),
    decreases body.len(),
{
    if body.len() <= MAX_PAYLOAD_SIZE {
        assert(body.skip(0) =~= body);
    } else {
        let rest = body.skip(65535);
        law_fragments(ty, rest);
        if i == 0 {
            assert(body.take(65535) =~= body.subrange(0, 65535));
        } else {
            law_frames_are_full(ty, rest, i - 1);
            if i < fragments(ty, body).len() - 1 {
                assert(rest.subrange(65535 * (i - 1), 65535 * i) =~= body.subrange(
                    65535 * i,
                    65535 * (i + 1),
                ));
            } else {
                assert(rest.skip(65535 * (i - 1)) =~= body.skip(65535 * i));
            }
        }
    }
}

/// Frames make a packet once one of them ends it: nothing comes out before;
/// frames of another type among them are refused; and else what the payloads
/// together read as comes out, and the number of the frames.
pub proof fn law_what_frames_make(frames: Seq<FrameView>, n: nat)
    requires
        n < frames.len(),
        forall|i: int| 0 <= i < n ==> frames[i].flag == Flag::More,
    ensures
        assembled(frames.take(n as int)) == Ok::<Option<(nat, PacketView)>, ErrorView>(None),
        frames[n as int].flag == Flag::End ==> {
            let own = frames.take(n as int + 1);
            let ty = frames[0].ty;
            &&& (forall|i: int| 0 <= i <= n ==> (#[trigger] frames[i]).ty == ty) ==> match decoded_packet(
                ty,
                joined(own),
            ) {
                Ok(p) => assembled(frames) == Ok::<Option<(nat, PacketView)>, ErrorView>(
                    Some((n + 1, p)),
                ),
                Err(e) => assembled(frames) == Err::<Option<(nat, PacketView)>, ErrorView>(e),
            }
            &&& forall|k: int|
                0 < k <= n && (#[trigger] frames[k]).ty != ty && (forall|i: int|
                    0 <= i < k ==> (#[trigger] frames[i]).ty == ty) ==> assembled(frames) == Err::<
                    Option<(nat, PacketView)>,
                    ErrorView,
                >(
                    ErrorView::AssemblePacketError(
                        AssemblePacketError::MismatchedTypes {
                            first_frame_type: ty,
                            frame_type: frames[k].ty,
                        },
                    ),
                )
        },
{
    assert forall|i: int| 0 <= i < n implies frames.take(n as int)[i].flag == Flag::More by {
        assert(frames.take(n as int)[i] == frames[i]);
    }
    lemma_first_end(frames.take(n as int), n);
    if frames[n as int].flag == Flag::End {
        lemma_first_end(frames, n);
        let own = frames.take(n as int + 1);
        let ty = frames[0].ty;
        assert(own[0] == frames[0]);
        if forall|i: int| 0 <= i <= n ==> (#[trigger] frames[i]).ty == ty {
            assert forall|i: int| 0 <= i < own.len() implies own[i].ty == ty by {
                assert(own[i] == frames[i]);
            }
            lemma_first_stranger(own, ty, own.len());
        }
        assert forall|k: int|
            0 < k <= n && (#[trigger] frames[k]).ty != ty && (forall|i: int|
                0 <= i < k ==> (#[trigger] frames[i]).ty == ty) implies assembled(frames) == Err::<
            Option<(nat, PacketView)>,
            ErrorView,
        >(
            ErrorView::AssemblePacketError(
                AssemblePacketError::MismatchedTypes {
                    first_frame_type: ty,
                    frame_type: frames[k].ty,
                },
            ),
        ) by {
            assert forall|i: int| 0 <= i < k implies own[i].ty == ty by {
                assert(own[i] == frames[i]);
            }
            assert(own[k] == frames[k]);
            lemma_first_stranger(own, ty, k as nat);
        }
    }
}

/// The payloads of frames are put together in the order of the frames.
pub proof fn law_payloads_join(frames: Seq<FrameView>, last: FrameView)
    ensures
        joined(Seq::empty()).len() == 0,
        joined(frames.push(last)) == joined(frames) + last.payload,
{
    assert(frames.push(last).drop_last() =~= frames);
}

} // verus!
