//! What holds of every connection.
use crate::proto::delivery::{concatenated, idle_io, law_delivery, received_all};
use crate::proto::error::ErrorView;
use crate::proto::packet::PacketView;
use crate::proto::stream::{empty_io, packets_wire};
use crate::runtime::connection::{
    consistent, due_kind, established, finish, fresh, goodbye, greeted, nanos, opening, stepped,
    ticked, ActionView, CloseCause, ConnRole, ConnState, ConnStatus, ConnView, EventView, Phase,
    RequestView, Timer, TimerKind,
};
use crate::runtime::connection_error::{ConnectionCreateErrorView, ConnectionErrorView};
use crate::runtime::net::SocketAddress;
use vstd::prelude::*;

verus! {

/// A ping is answered at once by a pong with the same id, and by nothing else.
pub proof fn law_ping_is_answered(v: ConnView, id: u32, now: u64)
    requires
        v.phase == Phase::Running,
    ensures
        stepped(v, EventView::Arrived(PacketView::ControlPing { id }), now).1 == seq![
            ActionView::Send(PacketView::ControlPong { id }),
        ],
{
}

/// The answer to a ping gives the round-trip time, and the ping counts as
/// answered.
pub proof fn law_round_trip_time(v: ConnView, id: u32, sent: u64, answered: u64)
    requires
        due_kind(v, sent) == Some(TimerKind::PeerQuery),
        sent <= answered,
    ensures
        ({
            let asked = ticked(v, sent, id);
            let after = stepped(
                asked.0,
                EventView::Arrived(PacketView::ControlPong { id }),
                answered,
            ).0;
            &&& asked.1 == seq![ActionView::Send(PacketView::ControlPing { id })]
            &&& after.latest_rtt == Some((answered - sent) as u64)
            &&& !after.ping_timers.contains_key(id)
        }),
{
}

/// A pong that answers no ping changes nothing but the timers.
pub proof fn law_stray_pong(v: ConnView, id: u32, now: u64)
    requires
        v.phase == Phase::Running,
        !v.ping_timers.contains_key(id),
    ensures
        ({
            let after = stepped(v, EventView::Arrived(PacketView::ControlPong { id }), now);
            &&& after.1 == Seq::<ActionView>::empty()
            &&& after.0.latest_rtt == v.latest_rtt
            &&& after.0.ping_timers == v.ping_timers
            &&& after.0.phase == v.phase
            &&& after.0.state == v.state
        }),
{
}

/// Whatever packet arrives, the peer is not given up before a whole timeout
/// has passed since.
pub proof fn law_life_postpones_timeout(v: ConnView, p: PacketView, now: u64, then: u64)
    requires
        consistent(v),
        v.phase == Phase::Running,
        v.peer_active_timeout_timer->0.period == nanos(v.timeout_ms as int),
        then < now + nanos(v.timeout_ms as int),
    ensures
        due_kind(stepped(v, EventView::Arrived(p), now).0, then) != Some(TimerKind::PeerTimeout),
{
}

/// The periods of the timers stay what the handshake made them.
pub proof fn law_timeout_period_stays(v: ConnView, event: EventView, now: u64, id: u32)
    requires
        consistent(v),
        v.state == ConnState::Connected,
        v.peer_active_timeout_timer->0.period == nanos(v.timeout_ms as int),
    ensures
        ({
            let a = stepped(v, event, now).0;
            let b = ticked(v, now, id).0;
            &&& a.timeout_ms == v.timeout_ms && b.timeout_ms == v.timeout_ms
            &&& a.peer_active_timeout_timer matches Some(t) ==> t.period == nanos(
                v.timeout_ms as int,
            )
            &&& b.peer_active_timeout_timer matches Some(t) ==> t.period == nanos(
                v.timeout_ms as int,
            )
        }),
{
}

/// A device and a host that greet each other are both connected afterwards,
/// and each shows life as often as the other one asked for.
pub proof fn law_handshake(device: ConnView, host: ConnView, now: u64)
    requires
        device.role == ConnRole::Device,
        host.role == ConnRole::Host,
    ensures
        opening(host) is None,
        ({
            let hello = opening(device);
            let ack = PacketView::ControlHelloAck {
                keep_alive_interval_ms: host.keep_alive_interval_ms,
            };
            let d = established(device, host.keep_alive_interval_ms, now);
            let h = established(host, device.keep_alive_interval_ms, now);
            &&& greeted(host, hello) == Ok::<
                (Option<PacketView>, u32),
                ConnectionCreateErrorView,
            >((Some(ack), device.keep_alive_interval_ms))
            &&& greeted(device, Some(ack)) == Ok::<
                (Option<PacketView>, u32),
                ConnectionCreateErrorView,
            >((None, host.keep_alive_interval_ms))
            &&& d.state == ConnState::Connected && h.state == ConnState::Connected
            &&& d.keep_alive_timer->0.period == nanos(host.keep_alive_interval_ms as int)
            &&& h.keep_alive_timer->0.period == nanos(device.keep_alive_interval_ms as int)
        }),
{
}

/// No timer is due right after the handshake, unless its period is zero.
pub proof fn law_timers_start_late(v: ConnView, peer_interval_ms: u32, now: u64)
    requires
        peer_interval_ms > 0,
        v.timeout_ms > 0,
        v.keep_alive_interval_ms + v.timeout_ms >= 2,
        v.keep_alive_interval_ms + v.timeout_ms <= u32::MAX,
        now < u64::MAX,
    ensures
        due_kind(established(v, peer_interval_ms, now), now) is None,
{
    let half = (v.keep_alive_interval_ms + v.timeout_ms) / 2;
    assert(half * 1_000_000 <= u64::MAX);
    assert(nanos(half) > 0);
    assert(nanos(peer_interval_ms as int) > 0);
    assert(nanos(v.timeout_ms as int) > 0);
}

/// One side is asked to close, the other one has no request waiting: both say
/// goodbye once, both end closed, the first one without a failure and the
/// second one because its peer closed.
pub proof fn law_close(a: ConnView, b: ConnView, now: u64)
    requires
        a.phase == Phase::Running,
        b.phase == Phase::Running,
    ensures
        ({
            let close = EventView::Arrived(PacketView::ControlClose);
            let a1 = stepped(a, EventView::Requested(RequestView::Close), now);
            let b1 = stepped(b, close, now);
            let b2 = stepped(b1.0, EventView::NoRequest, now);
            let a2 = stepped(a1.0, close, now);
            let b3 = stepped(b2.0, EventView::StreamEnded, now);
            &&& a1.1 == goodbye()
            &&& b1.1 == Seq::<ActionView>::empty()
            &&& b2.1 == goodbye()
            &&& a2.1 == finish(Ok(()))
            &&& b3.1 == finish(Err(ConnectionErrorView::PeerClosed))
            &&& a2.0.state == ConnState::Closed
            &&& b3.0.state == ConnState::Closed
        }),
{
}

/// A closed connection has no timers, and nothing makes it act again.
pub proof fn law_closed_is_final(v: ConnView, event: EventView, now: u64, id: u32)
    requires
        consistent(v),
        v.state == ConnState::Closed,
    ensures
        v.keep_alive_timer is None,
        v.peer_query_active_timer is None,
        v.peer_active_timeout_timer is None,
        stepped(v, event, now) == (v, Seq::<ActionView>::empty()),
        ticked(v, now, id) == (v, Seq::<ActionView>::empty()),
{
}

/// Whatever happens, the invariant is kept.
pub proof fn law_consistency_is_kept(
    v: ConnView,
    event: EventView,
    peer_interval_ms: u32,
    now: u64,
    id: u32,
)
    requires
        consistent(v),
    ensures
        consistent(stepped(v, event, now).0),
        consistent(ticked(v, now, id).0),
        v.state == ConnState::Connecting ==> consistent(established(v, peer_interval_ms, now)),
{
}

/// The user hears of the end exactly when the connection stops, and only once.
pub proof fn law_end_is_told_once(v: ConnView, event: EventView, now: u64)
    ensures
        ({
            let after = stepped(v, event, now);
            (exists|i: int| 0 <= i < after.1.len() && #[trigger] after.1[i] is Finish) <==> (v.phase
                != Phase::Finished && after.0.phase == Phase::Finished)
        }),
{
    let after = stepped(v, event, now);
    if v.phase != Phase::Finished && after.0.phase == Phase::Finished {
        assert(after.1[0] is Finish);
    }
}

/// Bytes of the peer reach the user unchanged while the connection runs and
/// while this side waits for the peer's goodbye.
pub proof fn law_data_is_delivered(v: ConnView, data: Seq<u8>, now: u64)
    requires
        v.phase == Phase::Running || v.phase is Closing,
    ensures
        stepped(v, EventView::Arrived(PacketView::Data(data)), now).1 == seq![
            ActionView::Deliver(data),
        ],
{
}

/// What requests that wait when the peer says goodbye lead to, one after
/// another, until none waits any more.
pub open spec fn drained(v: ConnView, waiting: Seq<RequestView>, now: u64) -> (
    ConnView,
    Seq<ActionView>,
)
    decreases waiting.len(),
{
    if waiting.len() == 0 {
        stepped(v, EventView::NoRequest, now)
    } else {
        let first = stepped(v, EventView::Requested(waiting[0]), now);
        if first.0.phase == Phase::Draining {
            let rest = drained(first.0, waiting.skip(1), now);
            (rest.0, first.1 + rest.1)
        } else {
            first
        }
    }
}

/// When the peer says goodbye, every packet that waits to be sent is still
/// sent, in order, before this side says goodbye.
pub proof fn law_waiting_packets_are_sent(v: ConnView, waiting: Seq<PacketView>, now: u64)
    requires
        v.phase == Phase::Draining,
    ensures
        drained(
            v,
            Seq::new(waiting.len(), |i: int| RequestView::Send(waiting[i])),
            now,
        ).1 == Seq::new(waiting.len(), |i: int| ActionView::Send(waiting[i])) + goodbye(),
        drained(
            v,
            Seq::new(waiting.len(), |i: int| RequestView::Send(waiting[i])),
            now,
        ).0.phase == Phase::AwaitEnd,
    decreases waiting.len(),
{
    let requests = Seq::new(waiting.len(), |i: int| RequestView::Send(waiting[i]));
    let sends = Seq::new(waiting.len(), |i: int| ActionView::Send(waiting[i]));
    if waiting.len() == 0 {
        assert(sends + goodbye() =~= goodbye());
    } else {
        let rest = waiting.skip(1);
        law_waiting_packets_are_sent(v, rest, now);
        let rest_requests = Seq::new(rest.len(), |i: int| RequestView::Send(rest[i]));
        let rest_sends = Seq::new(rest.len(), |i: int| ActionView::Send(rest[i]));
        assert(requests.skip(1) =~= rest_requests);
        assert(seq![ActionView::Send(waiting[0])] + (rest_sends + goodbye()) =~= sends
            + goodbye());
    }
}

/// Both sides are asked to close at the same time: both end closed and
/// without a failure.
pub proof fn law_both_close(a: ConnView, b: ConnView, now: u64)
    requires
        a.phase == Phase::Running,
        b.phase == Phase::Running,
    ensures
        ({
            let close = EventView::Arrived(PacketView::ControlClose);
            let a1 = stepped(a, EventView::Requested(RequestView::Close), now);
            let b1 = stepped(b, EventView::Requested(RequestView::Close), now);
            let a2 = stepped(a1.0, close, now);
            let b2 = stepped(b1.0, close, now);
            &&& a1.1 == goodbye() && b1.1 == goodbye()
            &&& a2.1 == finish(Ok(())) && b2.1 == finish(Ok(()))
            &&& a2.0.state == ConnState::Closed && b2.0.state == ConnState::Closed
        }),
{
}

/// What packets that arrive one after another lead to.
pub open spec fn arrived_all(v: ConnView, packets: Seq<PacketView>, now: u64) -> (
    ConnView,
    Seq<ActionView>,
)
    decreases packets.len(),
{
    if packets.len() == 0 {
        (v, Seq::empty())
    } else {
        let earlier = arrived_all(v, packets.drop_last(), now);
        let last = stepped(earlier.0, EventView::Arrived(packets.last()), now);
        (last.0, earlier.1 + last.1)
    }
}

/// Messages as data packets.
pub open spec fn data_packets(messages: Seq<Seq<u8>>) -> Seq<PacketView> {
    Seq::new(messages.len(), |i: int| PacketView::Data(messages[i]))
}

/// Messages that one side writes are read by the other side, one for one,
/// unchanged and in order: each is sent as one packet; the packets are found
/// again however the stream cuts their bytes into pieces; and each is handed
/// over as one message.
pub proof fn law_messages_arrive(
    writer: ConnView,
    reader: ConnView,
    messages: Seq<Seq<u8>>,
    pieces: Seq<Seq<u8>>,
    now: u64,
)
    requires
        writer.phase == Phase::Running,
        reader.phase == Phase::Running,
        concatenated(pieces) == packets_wire(data_packets(messages)),
    ensures
        forall|i: int|
            0 <= i < messages.len() ==> stepped(
                writer,
                EventView::Requested(RequestView::Send(PacketView::Data(#[trigger] messages[i]))),
                now,
            ) == (writer, seq![ActionView::Send(PacketView::Data(messages[i]))]),
        received_all(empty_io(), pieces) == (
            idle_io(data_packets(messages)),
            None::<ErrorView>,
        ),
        arrived_all(reader, data_packets(messages), now).1 == Seq::new(
            messages.len(),
            |i: int| ActionView::Deliver(messages[i]),
        ),
        arrived_all(reader, data_packets(messages), now).0.phase == Phase::Running,
{
    law_delivery(data_packets(messages), pieces);
    lemma_data_is_handed_over(reader, messages, now);
}

proof fn lemma_data_is_handed_over(reader: ConnView, messages: Seq<Seq<u8>>, now: u64)
    requires
        reader.phase == Phase::Running,
    ensures
        arrived_all(reader, data_packets(messages), now).1 == Seq::new(
            messages.len(),
            |i: int| ActionView::Deliver(messages[i]),
        ),
        arrived_all(reader, data_packets(messages), now).0.phase == Phase::Running,
    decreases messages.len(),
{
    let packets = data_packets(messages);
    let delivered = Seq::new(messages.len(), |i: int| ActionView::Deliver(messages[i]));
    if messages.len() == 0 {
        assert(delivered =~= Seq::<ActionView>::empty());
    } else {
        let front = messages.drop_last();
        lemma_data_is_handed_over(reader, front, now);
        assert(packets.drop_last() =~= data_packets(front));
        let earlier = Seq::new(front.len(), |i: int| ActionView::Deliver(front[i]));
        assert(earlier + seq![ActionView::Deliver(messages.last())] =~= delivered);
    }
}

/// A connection after the clock was looked at so many times at one moment.
pub open spec fn ticked_times(v: ConnView, now: u64, id: u32, n: nat) -> ConnView
    decreases n,
{
    if n == 0 {
        v
    } else {
        ticked_times(ticked(v, now, id).0, now, id, (n - 1) as nat)
    }
}

/// How far a timer lags behind.
pub open spec fn lag(t: Option<Timer>, now: u64) -> nat {
    match t {
        Some(t) => if t.due <= now {
            (now - t.due + 1) as nat
        } else {
            0
        },
        None => 0,
    }
}

/// A peer that is silent until the timeout is given up: once the timers that
/// are due have been served, this side says goodbye.
pub proof fn law_silent_peer_is_given_up(v: ConnView, now: u64, id: u32)
    requires
        consistent(v),
        v.phase == Phase::Running,
        v.keep_alive_timer->0.period > 0,
        v.peer_query_active_timer->0.period > 0,
        v.peer_active_timeout_timer->0.due <= now,
        now < u64::MAX,
    ensures
        exists|n: nat|
            (#[trigger] ticked_times(v, now, id, n)).phase == Phase::Closing(CloseCause::Inactive),
    decreases lag(v.keep_alive_timer, now) + lag(v.peer_query_active_timer, now),
{
    let next = ticked(v, now, id).0;
    if due_kind(v, now) == Some(TimerKind::PeerTimeout) {
        assert(ticked_times(next, now, id, 0) == next);
        assert(ticked_times(v, now, id, 1).phase == Phase::Closing(CloseCause::Inactive));
    } else {
        law_silent_peer_is_given_up(next, now, id);
        let n = choose|n: nat|
            (#[trigger] ticked_times(next, now, id, n)).phase == Phase::Closing(
                CloseCause::Inactive,
            );
        assert(ticked_times(v, now, id, n + 1) == ticked_times(next, now, id, n));
    }
}

/// Signs of life go out one period after another, whenever they are asked for.
pub proof fn law_signs_of_life(v: ConnView, now: u64, id: u32)
    requires
        due_kind(v, now) == Some(TimerKind::KeepAlive),
        v.keep_alive_timer->0.due + v.keep_alive_timer->0.period <= u64::MAX,
    ensures
        ticked(v, now, id).1 == seq![ActionView::Send(PacketView::ControlKeepAlive)],
        ticked(v, now, id).0.keep_alive_timer->0.due == v.keep_alive_timer->0.due
            + v.keep_alive_timer->0.period,
        ticked(v, now, id).0.keep_alive_timer->0.period == v.keep_alive_timer->0.period,
{
}

/// Whatever packet arrives while the connection runs, the peer counts as alive
/// from then on: the question and the timeout are due one whole period later,
/// and the signs of life of this side go on as before.
pub proof fn law_timers_after_a_packet(v: ConnView, p: PacketView, now: u64)
    requires
        v.phase == Phase::Running,
        v.peer_query_active_timer is Some,
        v.peer_active_timeout_timer is Some,
    ensures
        ({
            let w = stepped(v, EventView::Arrived(p), now).0;
            let q = v.peer_query_active_timer->0;
            let t = v.peer_active_timeout_timer->0;
            &&& w.keep_alive_timer == v.keep_alive_timer
            &&& w.peer_query_active_timer is Some && w.peer_query_active_timer->0.period
                == q.period
            &&& w.peer_active_timeout_timer is Some && w.peer_active_timeout_timer->0.period
                == t.period
            &&& now + q.period <= u64::MAX ==> w.peer_query_active_timer->0.due == now + q.period
            &&& now + q.period > u64::MAX ==> w.peer_query_active_timer->0.due == u64::MAX
            &&& now + t.period <= u64::MAX ==> w.peer_active_timeout_timer->0.due == now + t.period
            &&& now + t.period > u64::MAX ==> w.peer_active_timeout_timer->0.due == u64::MAX
        }),
{
}

/// Whatever a user asks for and whatever else happens without a packet, the
/// timers of a running connection go on as before.
pub proof fn law_only_packets_reset_timers(v: ConnView, event: EventView, now: u64)
    requires
        v.phase == Phase::Running,
        !(event is Arrived),
    ensures
        ({
            let w = stepped(v, event, now).0;
            &&& w.keep_alive_timer == v.keep_alive_timer
            &&& w.peer_query_active_timer == v.peer_query_active_timer
            &&& w.peer_active_timeout_timer == v.peer_active_timeout_timer
            &&& w.ping_timers == v.ping_timers && w.latest_rtt == v.latest_rtt
        }),
{
}

/// A peer that sends a packet and then falls silent is given up once the
/// timeout has passed since that packet, and not before: this side says
/// goodbye, and whether the peer answers or not, the connection fails because
/// the peer was inactive or did not close in time.
pub proof fn law_silence_after_a_packet(v: ConnView, p: PacketView, now: u64, then: u64, id: u32)
    requires
        consistent(v),
        v.phase == Phase::Running,
        !(p is ControlClose),
        v.keep_alive_timer->0.period > 0,
        v.peer_query_active_timer->0.period > 0,
        v.peer_active_timeout_timer->0.period == v.timeout_ms * 1_000_000,
        now + v.timeout_ms * 1_000_000 <= then < u64::MAX,
    ensures
        ({
            let w = stepped(v, EventView::Arrived(p), now).0;
            &&& exists|n: nat|
                (#[trigger] ticked_times(w, then, id, n)).phase == Phase::Closing(
                    CloseCause::Inactive,
                )
            &&& forall|early: u64|
                early < now + v.timeout_ms * 1_000_000 ==> !(#[trigger] ticked(
                    w,
                    early,
                    id,
                ).0.phase is Closing)
        }),
{
    let w = stepped(v, EventView::Arrived(p), now).0;
    law_timers_after_a_packet(v, p, now);
    law_silent_peer_is_given_up(w, then, id);
}

/// Giving up a peer: goodbye is said and the stream is shut down. Then the
/// peer's goodbye ends the connection closed, and so does a broken stream;
/// without either it ends at the close timeout, or with the stream.
pub proof fn law_how_a_peer_is_given_up(v: ConnView, now: u64, id: u32, e: ConnectionErrorView)
    requires
        v.phase == Phase::Running,
        v.keep_alive_timer matches Some(t) && t.due > now,
        v.peer_query_active_timer matches Some(t) && t.due > now,
        v.peer_active_timeout_timer matches Some(t) && t.due <= now,
    ensures
        ({
            let (w, actions) = ticked(v, now, id);
            let inactive = seq![
                ActionView::Finish(Err(ConnectionErrorView::PeerInactiveTimeout)),
            ];
            let answered = stepped(w, EventView::Arrived(PacketView::ControlClose), now);
            let broken = stepped(w, EventView::StreamFailed(e), now);
            let late = stepped(w, EventView::CloseTimedOut, now);
            let ended = stepped(w, EventView::Eof, now);
            &&& actions == seq![ActionView::Send(PacketView::ControlClose), ActionView::Shutdown]
            &&& answered.1 == inactive && answered.0.state == ConnState::Closed
            &&& broken.1 == inactive && broken.0.state == ConnState::Closed
            &&& late.1 == seq![ActionView::Finish(Err(ConnectionErrorView::CloseTimeout))]
            &&& ended.1 == seq![ActionView::Finish(Err(ConnectionErrorView::UnexpectedEOF))]
            &&& answered.0.phase == Phase::Finished && broken.0.phase == Phase::Finished
            &&& late.0 == (ConnView { phase: Phase::Finished, ..w }) && ended.0 == late.0
        }),
{
}

/// A close that a user asked for: goodbye is said and the stream is shut down.
/// The peer's goodbye or a broken stream then ends the connection without a
/// failure; without either it fails at the close timeout, or with the stream.
pub proof fn law_how_a_close_ends(v: ConnView, now: u64, e: ConnectionErrorView)
    requires
        v.phase == Phase::Running,
    ensures
        ({
            let (w, actions) = stepped(v, EventView::Requested(RequestView::Close), now);
            let answered = stepped(w, EventView::Arrived(PacketView::ControlClose), now);
            let broken = stepped(w, EventView::StreamFailed(e), now);
            let late = stepped(w, EventView::CloseTimedOut, now);
            let ended = stepped(w, EventView::Eof, now);
            &&& actions == seq![ActionView::Send(PacketView::ControlClose), ActionView::Shutdown]
            &&& w.state == v.state && w.phase is Closing
            &&& answered.1 == seq![ActionView::Finish(Ok(()))]
            &&& answered.0.state == ConnState::Closed && answered.0.phase == Phase::Finished
            &&& broken.1 == seq![ActionView::Finish(Ok(()))]
            &&& broken.0.state == ConnState::Closed && broken.0.phase == Phase::Finished
            &&& late.1 == seq![ActionView::Finish(Err(ConnectionErrorView::CloseTimeout))]
            &&& ended.1 == seq![ActionView::Finish(Err(ConnectionErrorView::UnexpectedEOF))]
            &&& late.0 == (ConnView { phase: Phase::Finished, ..w }) && ended.0 == late.0
        }),
{
}

/// While this side waits for the peer's goodbye, nothing but data, the goodbye
/// and the end of the wait or the stream matters: all else is passed over, and
/// no timer fires.
pub proof fn law_waiting_for_goodbye(v: ConnView, event: EventView, now: u64, id: u32)
    requires
        v.phase is Closing,
    ensures
        ticked(v, now, id) == (v, Seq::<ActionView>::empty()),
        event is Requested || event is NoRequest || event is StreamEnded ==> stepped(v, event, now)
            == (v, Seq::<ActionView>::empty()),
        event matches EventView::Arrived(p) && !(p is ControlClose) && !(p is Data) ==> stepped(
            v,
            event,
            now,
        ) == (v, Seq::<ActionView>::empty()),
        event matches EventView::Arrived(PacketView::Data(d)) ==> stepped(v, event, now).0 == v,
{
}

/// The peer says goodbye first: this side ends because its peer closed, after
/// it served the requests that wait, of which a close is one no more.
pub proof fn law_peer_closes_first(v: ConnView, now: u64, e: ConnectionErrorView)
    requires
        v.phase == Phase::Running,
    ensures
        ({
            let w = stepped(v, EventView::Arrived(PacketView::ControlClose), now);
            let status = stepped(w.0, EventView::Requested(RequestView::GetStatus), now);
            let none = stepped(w.0, EventView::NoRequest, now);
            let close = stepped(w.0, EventView::Requested(RequestView::Close), now);
            let ended = stepped(none.0, EventView::StreamEnded, now);
            let broken = stepped(none.0, EventView::StreamFailed(e), now);
            let bye = seq![ActionView::Send(PacketView::ControlClose), ActionView::Shutdown];
            &&& w.1.len() == 0 && w.0.phase == Phase::Draining && w.0.state == v.state
            &&& status.0 == w.0 && status.1 == seq![
                ActionView::Report(
                    ConnStatus {
                        state: v.state,
                        latest_rtt: v.latest_rtt,
                        peer_addr: v.peer_addr,
                        role: v.role,
                    },
                ),
            ]
            &&& none.1 == bye && close == none
            &&& ended.1 == seq![ActionView::Finish(Err(ConnectionErrorView::PeerClosed))]
            &&& ended.0.state == ConnState::Closed && ended.0.phase == Phase::Finished
            &&& broken.1 == seq![ActionView::Finish(Err(e))]
            &&& broken.0 == (ConnView { phase: Phase::Finished, ..none.0 })
        }),
{
}

/// A stream that ends or fails while the connection runs ends the connection
/// with that failure, and nothing more is sent.
pub proof fn law_broken_stream(v: ConnView, now: u64, e: ConnectionErrorView)
    requires
        v.phase == Phase::Running,
    ensures
        stepped(v, EventView::Eof, now).1 == seq![
            ActionView::Finish(Err(ConnectionErrorView::UnexpectedEOF)),
        ],
        stepped(v, EventView::Eof, now).0 == (ConnView { phase: Phase::Finished, ..v }),
        stepped(v, EventView::StreamFailed(e), now).1 == seq![ActionView::Finish(Err(e))],
        stepped(v, EventView::StreamFailed(e), now).0 == (ConnView { phase: Phase::Finished, ..v }),
{
}

/// A running connection serves every request at once and is the same
/// afterwards: a packet is sent as it is, and a status request is answered
/// with the state, the last round-trip time, and the peer.
pub proof fn law_requests_while_running(v: ConnView, p: PacketView, now: u64)
    requires
        v.phase == Phase::Running,
    ensures
        stepped(v, EventView::Requested(RequestView::Send(p)), now) == (
            v,
            seq![ActionView::Send(p)],
        ),
        stepped(v, EventView::Requested(RequestView::GetStatus), now) == (
            v,
            seq![
                ActionView::Report(
                    ConnStatus {
                        state: v.state,
                        latest_rtt: v.latest_rtt,
                        peer_addr: v.peer_addr,
                        role: v.role,
                    },
                ),
            ],
        ),
{
}

/// What a packet does besides the timers. Data and signs of life leave
/// everything else as it was, and so does a ping.
pub proof fn law_what_packets_change(v: ConnView, p: PacketView, now: u64)
    requires
        v.phase == Phase::Running,
    ensures
        ({
            let (w, actions) = stepped(v, EventView::Arrived(p), now);
            &&& w.state == v.state && w.role == v.role && w.peer_addr == v.peer_addr
            &&& w.timeout_ms == v.timeout_ms && w.close_timeout_ms == v.close_timeout_ms
                && w.keep_alive_interval_ms == v.keep_alive_interval_ms
            &&& w.phase == if p is ControlClose {
                Phase::Draining
            } else {
                Phase::Running
            }
            &&& !(p is ControlPong) ==> w.latest_rtt == v.latest_rtt && w.ping_timers
                == v.ping_timers
            &&& actions.len() == if p is ControlPing || p is Data {
                1nat
            } else {
                0nat
            }
            &&& p matches PacketView::ControlPong { id } ==> w.ping_timers == v.ping_timers.remove(
                id,
            ) && (v.ping_timers.contains_key(id) && v.ping_timers[id] <= now ==> w.latest_rtt
                == Some((now - v.ping_timers[id]) as u64)) && (v.ping_timers.contains_key(id)
                && v.ping_timers[id] > now ==> w.latest_rtt == Some(0u64)) && (!v.ping_timers.contains_key(id)
                ==> w.latest_rtt == v.latest_rtt)
        }),
{
    if let PacketView::ControlPong { id } = p {
        if !v.ping_timers.contains_key(id) {
            assert(v.ping_timers.remove(id) =~= v.ping_timers);
        }
    }
}

/// After the handshake every timer runs from that moment: the signs of life in
/// the interval that the peer asked for, the question halfway between the own
/// interval and the timeout, and the timeout. All else is as it was.
pub proof fn law_timers_of_a_new_connection(v: ConnView, peer_interval_ms: u32, now: u64)
    requires
        now + u32::MAX * 1_000_000 <= u64::MAX,
        v.keep_alive_interval_ms + v.timeout_ms <= u32::MAX,
    ensures
        ({
            let w = established(v, peer_interval_ms, now);
            let half = (v.keep_alive_interval_ms + v.timeout_ms) / 2;
            &&& w.keep_alive_timer matches Some(t) && t.period == peer_interval_ms * 1_000_000
                && t.due == now + peer_interval_ms * 1_000_000
            &&& w.peer_query_active_timer matches Some(t) && t.period == half * 1_000_000 && t.due
                == now + half * 1_000_000
            &&& w.peer_active_timeout_timer matches Some(t) && t.period == v.timeout_ms * 1_000_000
                && t.due == now + v.timeout_ms * 1_000_000
            &&& w.phase == Phase::Running && w.state == ConnState::Connected
            &&& w.ping_timers == v.ping_timers && w.latest_rtt == v.latest_rtt
            &&& w.timeout_ms == v.timeout_ms && w.close_timeout_ms == v.close_timeout_ms
            &&& w.keep_alive_interval_ms == v.keep_alive_interval_ms
            &&& w.peer_addr == v.peer_addr && w.role == v.role
        }),
{
}

/// A timer that fires is due again one period after it was due, so that none
/// is lost and none comes twice; the other timers stay as they are.
pub proof fn law_firing_timers_go_on(v: ConnView, now: u64, id: u32)
    requires
        v.phase == Phase::Running,
    ensures
        ({
            let (w, actions) = ticked(v, now, id);
            let keeps = v.keep_alive_timer matches Some(t) && t.due <= now;
            let asks = v.peer_query_active_timer matches Some(t) && t.due <= now;
            let gives_up = v.peer_active_timeout_timer matches Some(t) && t.due <= now;
            &&& !keeps && !asks && !gives_up ==> w == v && actions.len() == 0
            &&& keeps ==> actions == seq![ActionView::Send(PacketView::ControlKeepAlive)]
            &&& keeps && v.keep_alive_timer->0.due + v.keep_alive_timer->0.period <= u64::MAX ==> w
                == (ConnView {
                keep_alive_timer: Some(
                    Timer {
                        period: v.keep_alive_timer->0.period,
                        due: (v.keep_alive_timer->0.due + v.keep_alive_timer->0.period) as u64,
                    },
                ),
                ..v
            })
            &&& !keeps && asks ==> actions == seq![ActionView::Send(PacketView::ControlPing { id })]
            &&& !keeps && asks && v.peer_query_active_timer->0.due
                + v.peer_query_active_timer->0.period <= u64::MAX ==> w == (ConnView {
                peer_query_active_timer: Some(
                    Timer {
                        period: v.peer_query_active_timer->0.period,
                        due: (v.peer_query_active_timer->0.due
                            + v.peer_query_active_timer->0.period) as u64,
                    },
                ),
                ping_timers: v.ping_timers.insert(id, now),
                ..v
            })
            &&& !keeps && !asks && gives_up ==> w.phase == Phase::Closing(CloseCause::Inactive)
                && w.state == v.state
        }),
{
}

/// A first packet of the peer that is not the greeting this side waits for
/// fails the handshake, and so does a stream that ends before it.
pub proof fn law_wrong_greetings_fail(v: ConnView, p: PacketView)
    ensures
        greeted(v, None) == Err::<(Option<PacketView>, u32), ConnectionCreateErrorView>(
            ConnectionCreateErrorView::PacketTransferError(ConnectionErrorView::UnexpectedEOF),
        ),
        greeted(v, Some(p)) is Ok <==> (v.role == ConnRole::Device && p is ControlHelloAck
            || v.role == ConnRole::Host && p is ControlHello),
        greeted(v, Some(p)) matches Err(e) ==> e is HandshakeError,
{
}

/// A new connection waits for its handshake, with what it was made with and
/// nothing else: no timer runs, no ping is open, and nothing was measured.
pub proof fn law_fresh_connection(
    peer_addr: SocketAddress,
    timeout_ms: u32,
    close_timeout_ms: u32,
    keep_alive_interval_ms: u32,
    role: ConnRole,
    id: u32,
)
    ensures
        ({
            let v = fresh(peer_addr, timeout_ms, close_timeout_ms, keep_alive_interval_ms, role);
            &&& v.phase == Phase::Handshaking && v.state == ConnState::Connecting
            &&& v.keep_alive_timer is None && v.peer_query_active_timer is None
                && v.peer_active_timeout_timer is None
            &&& !v.ping_timers.contains_key(id) && v.latest_rtt is None
            &&& v.timeout_ms == timeout_ms && v.close_timeout_ms == close_timeout_ms
                && v.keep_alive_interval_ms == keep_alive_interval_ms
            &&& v.peer_addr == peer_addr && v.role == role
        }),
{
}

} // verus!
