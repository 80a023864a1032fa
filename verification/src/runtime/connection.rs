//! The life of one connection, as a machine without input and output of its
//! own: what arrives is handed in as events, what has to be done comes out as
//! actions.
use crate::runtime::connection_error::{
    result_view, ConnectionCreateError, ConnectionCreateErrorView, ConnectionError,
    ConnectionErrorView,
};
use crate::runtime::net::SocketAddress;
use crate::proto::packet::{Packet, PacketView};
use std::collections::HashMap;
use vstd::prelude::*;

verus! {

broadcast use vstd::std_specs::hash::group_hash_axioms;

/// Nanoseconds in a millisecond. Points in time are nanoseconds on a clock
/// that never runs backwards.
pub const NANOS_PER_MS: u64 = 1_000_000;

#[derive(Debug, Clone, Copy, PartialEq, Eq, Structural)]
pub enum ConnRole {
    /// Host endpoint of the protocol, listening for connections.
    Host,
    /// Device endpoint of the protocol, connecting to a remote host.
    Device,
}

#[derive(Debug, Clone, Copy, PartialEq, Eq, Structural)]
pub enum ConnState {
    /// The stream is there, the handshake is not done.
    Connecting,
    /// The handshake is done.
    Connected,
    /// The connection is closed; what was delivered can still be read.
    Closed,
}

/// What a user learns about a connection.
#[derive(Debug, Clone, Copy, PartialEq, Eq, Structural)]
pub struct ConnStatus {
    pub state: ConnState,
    /// Nanoseconds between the latest answered ping and its answer.
    pub latest_rtt: Option<u64>,
    pub peer_addr: SocketAddress,
    pub role: ConnRole,
}

/// What a user asks of a connection.
#[derive(Debug)]
pub enum Request {
    Close,
    Send(Packet),
    GetStatus,
}

/// A timer that fires again and again.
#[derive(Debug, Clone, Copy, PartialEq, Eq, Structural)]
pub struct Timer {
    pub period: u64,
    pub due: u64,
}

/// Which timer fires.
#[derive(Debug, Clone, Copy, PartialEq, Eq, Structural)]
pub enum TimerKind {
    KeepAlive,
    PeerQuery,
    PeerTimeout,
}

/// Why this side closes the connection.
#[derive(Debug, Clone, Copy, PartialEq, Eq, Structural)]
pub enum CloseCause {
    Requested,
    Inactive,
}

/// What a connection is doing.
#[derive(Debug, Clone, Copy, PartialEq, Eq, Structural)]
pub enum Phase {
    /// The handshake is not done.
    Handshaking,
    /// Packets, requests and timers are served.
    Running,
    /// This side said goodbye and waits for the peer to do so.
    Closing(CloseCause),
    /// The peer said goodbye; requests that already wait are served.
    Draining,
    /// Both sides said goodbye; the stream has to end.
    AwaitEnd,
    /// Nothing is done any more.
    Finished,
}

/// Something that happened.
#[derive(Debug)]
pub enum Event {
    /// A packet arrived.
    Arrived(Packet),
    /// The stream ended where a packet was expected.
    Eof,
    /// The stream could not be read.
    StreamFailed(ConnectionError),
    /// The user asks for something.
    Requested(Request),
    /// No request waits.
    NoRequest,
    /// The peer did not say goodbye in time.
    CloseTimedOut,
    /// The stream ended after both sides said goodbye.
    StreamEnded,
}

/// Something to do.
#[derive(Debug)]
pub enum Action {
    /// Write a packet to the stream.
    Send(Packet),
    /// Hand bytes to the user.
    Deliver(Vec<u8>),
    /// Tell the user the status.
    Report(ConnStatus),
    /// Flush the stream and close it for writing.
    Shutdown,
    /// Stop, with this result.
    Finish(Result<(), ConnectionError>),
}

/// The mathematical content of a [`Request`].
pub enum RequestView {
    Close,
    Send(PacketView),
    GetStatus,
}

/// The mathematical content of an [`Event`].
pub enum EventView {
    Arrived(PacketView),
    Eof,
    StreamFailed(ConnectionErrorView),
    Requested(RequestView),
    NoRequest,
    CloseTimedOut,
    StreamEnded,
}

/// The mathematical content of an [`Action`].
#[verifier::ext_equal]
pub enum ActionView {
    Send(PacketView),
    Deliver(Seq<u8>),
    Report(ConnStatus),
    Shutdown,
    Finish(Result<(), ConnectionErrorView>),
}

impl View for Request {
    type V = RequestView;

    open spec fn view(&self) -> RequestView {
        match self {
            Request::Close => RequestView::Close,
            Request::Send(p) => RequestView::Send(p@),
            Request::GetStatus => RequestView::GetStatus,
        }
    }
}

impl View for Event {
    type V = EventView;

    open spec fn view(&self) -> EventView {
        match self {
            Event::Arrived(p) => EventView::Arrived(p@),
            Event::Eof => EventView::Eof,
            Event::StreamFailed(e) => EventView::StreamFailed(e@),
            Event::Requested(r) => EventView::Requested(r@),
            Event::NoRequest => EventView::NoRequest,
            Event::CloseTimedOut => EventView::CloseTimedOut,
            Event::StreamEnded => EventView::StreamEnded,
        }
    }
}

impl View for Action {
    type V = ActionView;

    open spec fn view(&self) -> ActionView {
        match self {
            Action::Send(p) => ActionView::Send(p@),
            Action::Deliver(data) => ActionView::Deliver(data@),
            Action::Report(status) => ActionView::Report(*status),
            Action::Shutdown => ActionView::Shutdown,
            Action::Finish(r) => ActionView::Finish(result_view(*r)),
        }
    }
}

/// The contents of a list of actions.
pub open spec fn action_views(actions: Seq<Action>) -> Seq<ActionView> {
    Seq::new(actions.len(), |i: int| actions[i]@)
}

/// Everything a connection knows.
#[verifier::ext_equal]
pub struct ConnView {
    pub phase: Phase,
    pub state: ConnState,
    pub keep_alive_timer: Option<Timer>,
    pub peer_query_active_timer: Option<Timer>,
    pub peer_active_timeout_timer: Option<Timer>,
    /// Pings without an answer, with the time they were sent.
    pub ping_timers: Map<u32, u64>,
    pub latest_rtt: Option<u64>,
    pub timeout_ms: u32,
    pub keep_alive_interval_ms: u32,
    pub close_timeout_ms: u32,
    pub peer_addr: SocketAddress,
    pub role: ConnRole,
}

/// The sum of two points in time, or the end of time.
pub open spec fn later(now: u64, period: u64) -> u64 {
    if now + period > u64::MAX {
        u64::MAX
    } else {
        (now + period) as u64
    }
}

/// A timer that fires one period from now.
pub open spec fn timer_from(period: u64, now: u64) -> Timer {
    Timer { period, due: later(now, period) }
}

/// A timer that just fired, set for the next time.
pub open spec fn timer_after(t: Timer) -> Timer {
    Timer { period: t.period, due: later(t.due, t.period) }
}

/// A timer that starts over, if there is one.
pub open spec fn timer_reset(t: Option<Timer>, now: u64) -> Option<Timer> {
    match t {
        Some(t) => Some(timer_from(t.period, now)),
        None => None,
    }
}

/// Whether a timer is there and due.
pub open spec fn is_due(t: Option<Timer>, now: u64) -> bool {
    t matches Some(t) && t.due <= now
}

/// Nanoseconds in `ms` milliseconds.
pub open spec fn nanos(ms: int) -> u64 {
    (ms * NANOS_PER_MS) as u64
}

/// The timers exist exactly while the connection is up, and the phase fits the
/// state.
pub open spec fn consistent(v: ConnView) -> bool {
    &&& v.keep_alive_timer is Some <==> v.state == ConnState::Connected
    &&& v.peer_query_active_timer is Some <==> v.state == ConnState::Connected
    &&& v.peer_active_timeout_timer is Some <==> v.state == ConnState::Connected
    &&& v.phase == Phase::Handshaking <==> v.state == ConnState::Connecting
    &&& v.state == ConnState::Closed ==> v.phase == Phase::Finished
}

/// What a status request is answered with.
pub open spec fn status_of(v: ConnView) -> ConnStatus {
    ConnStatus {
        state: v.state,
        latest_rtt: v.latest_rtt,
        peer_addr: v.peer_addr,
        role: v.role,
    }
}

/// A new connection.
pub open spec fn fresh(
    peer_addr: SocketAddress,
    timeout_ms: u32,
    close_timeout_ms: u32,
    keep_alive_interval_ms: u32,
    role: ConnRole,
) -> ConnView {
    ConnView {
        phase: Phase::Handshaking,
        state: ConnState::Connecting,
        keep_alive_timer: None,
        peer_query_active_timer: None,
        peer_active_timeout_timer: None,
        ping_timers: Map::empty(),
        latest_rtt: None,
        timeout_ms,
        keep_alive_interval_ms,
        close_timeout_ms,
        peer_addr,
        role,
    }
}

/// The packet this side opens the handshake with: a device says hello.
pub open spec fn opening(v: ConnView) -> Option<PacketView> {
    match v.role {
        ConnRole::Device => Some(
            PacketView::ControlHello { keep_alive_interval_ms: v.keep_alive_interval_ms },
        ),
        ConnRole::Host => None,
    }
}

/// What the first packet of the peer leads to: the answer to it, if one is
/// owed, and how often the peer wants a sign of life.
pub open spec fn greeted(v: ConnView, first: Option<PacketView>) -> Result<
    (Option<PacketView>, u32),
    ConnectionCreateErrorView,
> {
    match first {
        None => Err(
            ConnectionCreateErrorView::PacketTransferError(ConnectionErrorView::UnexpectedEOF),
        ),
        Some(p) => match v.role {
            ConnRole::Device => match p {
                PacketView::ControlHelloAck { keep_alive_interval_ms } => Ok(
                    (None, keep_alive_interval_ms),
                ),
                _ => Err(wrong_greeting()),
            },
            ConnRole::Host => match p {
                PacketView::ControlHello { keep_alive_interval_ms } => Ok(
                    (
                        Some(
                            PacketView::ControlHelloAck {
                                keep_alive_interval_ms: v.keep_alive_interval_ms,
                            },
                        ),
                        keep_alive_interval_ms,
                    ),
                ),
                _ => Err(wrong_greeting()),
            },
        },
    }
}

pub open spec fn wrong_greeting() -> ConnectionCreateErrorView {
    ConnectionCreateErrorView::HandshakeError(
        "Expected ControlHello packet, received different packet"@,
    )
}

/// A connection whose handshake is done: signs of life go out as often as the
/// peer wants them; a silent peer is asked halfway between the interval it was
/// told and the timeout, and given up at the timeout.
pub open spec fn established(v: ConnView, peer_interval_ms: u32, now: u64) -> ConnView {
    ConnView {
        phase: Phase::Running,
        state: ConnState::Connected,
        keep_alive_timer: Some(timer_from(nanos(peer_interval_ms as int), now)),
        peer_query_active_timer: Some(
            timer_from(nanos((v.keep_alive_interval_ms + v.timeout_ms) / 2), now),
        ),
        peer_active_timeout_timer: Some(timer_from(nanos(v.timeout_ms as int), now)),
        ..v
    }
}

/// A closed connection.
pub open spec fn closed(v: ConnView) -> ConnView {
    ConnView {
        phase: Phase::Finished,
        state: ConnState::Closed,
        keep_alive_timer: None,
        peer_query_active_timer: None,
        peer_active_timeout_timer: None,
        ..v
    }
}

/// A connection that stops without having been closed.
pub open spec fn stopped(v: ConnView) -> ConnView {
    ConnView { phase: Phase::Finished, ..v }
}

/// The end of a connection with this result.
pub open spec fn finish(r: Result<(), ConnectionErrorView>) -> Seq<ActionView> {
    seq![ActionView::Finish(r)]
}

/// Saying goodbye.
pub open spec fn goodbye() -> Seq<ActionView> {
    seq![ActionView::Send(PacketView::ControlClose), ActionView::Shutdown]
}

/// The result of a close that this side began.
pub open spec fn close_result(cause: CloseCause) -> Result<(), ConnectionErrorView> {
    match cause {
        CloseCause::Requested => Ok(()),
        CloseCause::Inactive => Err(ConnectionErrorView::PeerInactiveTimeout),
    }
}

/// The first timer that is due, signs of life before questions before giving
/// up.
pub open spec fn due_kind(v: ConnView, now: u64) -> Option<TimerKind> {
    if v.phase != Phase::Running {
        None
    } else if is_due(v.keep_alive_timer, now) {
        Some(TimerKind::KeepAlive)
    } else if is_due(v.peer_query_active_timer, now) {
        Some(TimerKind::PeerQuery)
    } else if is_due(v.peer_active_timeout_timer, now) {
        Some(TimerKind::PeerTimeout)
    } else {
        None
    }
}

/// What a look at the clock leads to; `id` names a ping that goes out.
pub open spec fn ticked(v: ConnView, now: u64, id: u32) -> (ConnView, Seq<ActionView>) {
    match due_kind(v, now) {
        None => (v, Seq::empty()),
        Some(TimerKind::KeepAlive) => (
            ConnView { keep_alive_timer: Some(timer_after(v.keep_alive_timer->0)), ..v },
            seq![ActionView::Send(PacketView::ControlKeepAlive)],
        ),
        Some(TimerKind::PeerQuery) => (
            ConnView {
                peer_query_active_timer: Some(timer_after(v.peer_query_active_timer->0)),
                ping_timers: v.ping_timers.insert(id, now),
                ..v
            },
            seq![ActionView::Send(PacketView::ControlPing { id })],
        ),
        Some(TimerKind::PeerTimeout) => (
            ConnView {
                peer_active_timeout_timer: Some(timer_after(v.peer_active_timeout_timer->0)),
                phase: Phase::Closing(CloseCause::Inactive),
                ..v
            },
            goodbye(),
        ),
    }
}

/// The peer showed life.
pub open spec fn revived(v: ConnView, now: u64) -> ConnView {
    ConnView {
        peer_query_active_timer: timer_reset(v.peer_query_active_timer, now),
        peer_active_timeout_timer: timer_reset(v.peer_active_timeout_timer, now),
        ..v
    }
}

/// What a packet leads to while the connection runs.
pub open spec fn handled(v: ConnView, p: PacketView, now: u64) -> (ConnView, Seq<ActionView>) {
    let v = revived(v, now);
    match p {
        PacketView::ControlPing { id } => (
            v,
            seq![ActionView::Send(PacketView::ControlPong { id })],
        ),
        PacketView::ControlPong { id } => (
            if v.ping_timers.contains_key(id) {
                ConnView {
                    ping_timers: v.ping_timers.remove(id),
                    latest_rtt: Some(elapsed(v.ping_timers[id], now)),
                    ..v
                }
            } else {
                v
            },
            Seq::empty(),
        ),
        PacketView::ControlClose => (ConnView { phase: Phase::Draining, ..v }, Seq::empty()),
        PacketView::Data(data) => (v, seq![ActionView::Deliver(data)]),
        _ => (v, Seq::empty()),
    }
}

/// The time that passed since `then`.
pub open spec fn elapsed(then: u64, now: u64) -> u64 {
    if now >= then {
        (now - then) as u64
    } else {
        0
    }
}

/// What an event leads to. Events that do not belong to the phase are passed
/// over.
pub open spec fn stepped(v: ConnView, event: EventView, now: u64) -> (ConnView, Seq<ActionView>) {
    match v.phase {
        Phase::Running => match event {
            EventView::Arrived(p) => handled(v, p, now),
            EventView::Eof => (
                stopped(v),
                finish(Err(ConnectionErrorView::UnexpectedEOF)),
            ),
            EventView::StreamFailed(e) => (stopped(v), finish(Err(e))),
            EventView::Requested(RequestView::Close) => (
                ConnView { phase: Phase::Closing(CloseCause::Requested), ..v },
                goodbye(),
            ),
            EventView::Requested(RequestView::Send(p)) => (v, seq![ActionView::Send(p)]),
            EventView::Requested(RequestView::GetStatus) => (
                v,
                seq![ActionView::Report(status_of(v))],
            ),
            _ => (v, Seq::empty()),
        },
        Phase::Closing(cause) => match event {
            EventView::Arrived(PacketView::ControlClose) => (
                closed(v),
                finish(close_result(cause)),
            ),
            EventView::Arrived(PacketView::Data(data)) => (v, seq![ActionView::Deliver(data)]),
            EventView::Eof => (
                stopped(v),
                finish(Err(ConnectionErrorView::UnexpectedEOF)),
            ),
            EventView::StreamFailed(_) => (closed(v), finish(close_result(cause))),
            EventView::CloseTimedOut => (
                stopped(v),
                finish(Err(ConnectionErrorView::CloseTimeout)),
            ),
            _ => (v, Seq::empty()),
        },
        Phase::Draining => match event {
            EventView::Requested(RequestView::Send(p)) => (v, seq![ActionView::Send(p)]),
            EventView::Requested(RequestView::GetStatus) => (
                v,
                seq![ActionView::Report(status_of(v))],
            ),
            EventView::Requested(RequestView::Close) => (
                ConnView { phase: Phase::AwaitEnd, ..v },
                goodbye(),
            ),
            EventView::NoRequest => (ConnView { phase: Phase::AwaitEnd, ..v }, goodbye()),
            _ => (v, Seq::empty()),
        },
        Phase::AwaitEnd => match event {
            EventView::StreamEnded => (
                closed(v),
                finish(Err(ConnectionErrorView::PeerClosed)),
            ),
            EventView::StreamFailed(e) => (stopped(v), finish(Err(e))),
            _ => (v, Seq::empty()),
        },
        Phase::Handshaking => (v, Seq::empty()),
        Phase::Finished => (v, Seq::empty()),
    }
}

/// A greeting has no place once the connection runs.
pub open spec fn acceptable(v: ConnView, event: EventView) -> bool {
    v.phase == Phase::Running ==> !(event matches EventView::Arrived(
        PacketView::ControlHello { .. },
    )) && !(event matches EventView::Arrived(PacketView::ControlHelloAck { .. }))
}

/// A connection between this side and a peer.
pub struct Connection {
    phase: Phase,
    state: ConnState,
    keep_alive_timer: Option<Timer>,
    peer_query_active_timer: Option<Timer>,
    peer_active_timeout_timer: Option<Timer>,
    ping_timers: HashMap<u32, u64>,
    latest_rtt: Option<u64>,
    timeout_ms: u32,
    keep_alive_interval_ms: u32,
    close_timeout_ms: u32,
    peer_addr: SocketAddress,
    role: ConnRole,
}

impl View for Connection {
    type V = ConnView;

    closed spec fn view(&self) -> ConnView {
        ConnView {
            phase: self.phase,
            state: self.state,
            keep_alive_timer: self.keep_alive_timer,
            peer_query_active_timer: self.peer_query_active_timer,
            peer_active_timeout_timer: self.peer_active_timeout_timer,
            ping_timers: self.ping_timers@,
            latest_rtt: self.latest_rtt,
            timeout_ms: self.timeout_ms,
            keep_alive_interval_ms: self.keep_alive_interval_ms,
            close_timeout_ms: self.close_timeout_ms,
            peer_addr: self.peer_addr,
            role: self.role,
        }
    }
}

impl Timer {
    /// A timer that fires one period from now.
    pub fn starting(period: u64, now: u64) -> (r: Timer)
        ensures
            r == timer_from(period, now),
    {
        Timer { period, due: now.saturating_add(period) }
    }

    /// Sets a timer that just fired for the next time.
    pub fn fired(self) -> (r: Timer)
        ensures
            r == timer_after(self),
    {
        Timer { period: self.period, due: self.due.saturating_add(self.period) }
    }
}

/// A random number to name a ping with, from `rand::random`. Any number can
/// come out; which one is left open. The generator is seeded by the system.
#[verifier::external_body]
fn random_id() -> (r: u32) {
    rand::random::<u32>()
}

fn reset_timer(t: Option<Timer>, now: u64) -> (r: Option<Timer>)
    ensures
        r == timer_reset(t, now),
{
    match t {
        Some(t) => Some(Timer::starting(t.period, now)),
        None => None,
    }
}

fn timer_due(t: Option<Timer>, now: u64) -> (r: bool)
    ensures
        r == is_due(t, now),
{
    match t {
        Some(t) => t.due <= now,
        None => false,
    }
}

/// The result of a close that this side began.
fn result_of_close(cause: CloseCause) -> (r: Result<(), ConnectionError>)
    ensures
        result_view(r) == close_result(cause),
{
    match cause {
        CloseCause::Requested => Ok(()),
        CloseCause::Inactive => Err(ConnectionError::PeerInactiveTimeout),
    }
}

/// A list of one action.
fn one(action: Action) -> (r: Vec<Action>)
    ensures
        action_views(r@) == seq![action@],
{
    let mut out: Vec<Action> = Vec::new();
    out.push(action);
    assert(action_views(out@) =~= seq![action@]);
    out
}

/// An empty list of actions.
fn nothing() -> (r: Vec<Action>)
    ensures
        action_views(r@) == Seq::<ActionView>::empty(),
{
    let out: Vec<Action> = Vec::new();
    assert(action_views(out@) =~= Seq::<ActionView>::empty());
    out
}

/// Saying goodbye.
fn say_goodbye() -> (r: Vec<Action>)
    ensures
        action_views(r@) == goodbye(),
{
    let mut out: Vec<Action> = Vec::new();
    out.push(Action::Send(Packet::ControlClose));
    out.push(Action::Shutdown);
    assert(action_views(out@) =~= goodbye());
    out
}

impl Connection {
    /// The invariant of a connection.
    pub open spec fn wf(&self) -> bool {
        consistent(self@)
    }

    /// A connection whose handshake is still to come. Signs of life are asked
    /// of the peer every `keep_alive_interval_ms`.
    pub fn new(
        peer_addr: SocketAddress,
        timeout_ms: u32,
        close_timeout_ms: u32,
        keep_alive_interval_ms: u32,
        role: ConnRole,
    ) -> (r: Connection)
        ensures
            r@ == fresh(peer_addr, timeout_ms, close_timeout_ms, keep_alive_interval_ms, role),
            r.wf(),
    {
        let r = Connection {
            phase: Phase::Handshaking,
            state: ConnState::Connecting,
            keep_alive_timer: None,
            peer_query_active_timer: None,
            peer_active_timeout_timer: None,
            ping_timers: HashMap::new(),
            latest_rtt: None,
            timeout_ms,
            keep_alive_interval_ms,
            close_timeout_ms,
            peer_addr,
            role,
        };
        assert(r@.ping_timers =~= Map::empty());
        r
    }

    /// What a status request is answered with.
    pub fn status(&self) -> (r: ConnStatus)
        ensures
            r == status_of(self@),
    {
        ConnStatus {
            state: self.state,
            latest_rtt: self.latest_rtt,
            peer_addr: self.peer_addr,
            role: self.role,
        }
    }

    /// What the connection is doing.
    pub fn phase(&self) -> (r: Phase)
        ensures
            r == self@.phase,
    {
        self.phase
    }

    /// How long this side waits for the peer's goodbye, in milliseconds.
    pub fn close_timeout_ms(&self) -> (r: u32)
        ensures
            r == self@.close_timeout_ms,
    {
        self.close_timeout_ms
    }

    /// The packet that opens the handshake on this side.
    pub fn handshake_opening(&self) -> (r: Option<Packet>)
        ensures
            match r {
                Some(p) => opening(self@) == Some(p@),
                None => opening(self@) is None,
            },
    {
        match self.role {
            ConnRole::Device => Some(
                Packet::ControlHello { keep_alive_interval_ms: self.keep_alive_interval_ms },
            ),
            ConnRole::Host => None,
        }
    }

    /// Judges the first packet of the peer, or the end of the stream in its
    /// place: gives the answer that is owed and the interval the peer wants.
    pub fn handshake_reply(&self, first: Option<Packet>) -> (r: Result<
        (Option<Packet>, u32),
        ConnectionCreateError,
    >)
        ensures
            ({
                let first_view = match first {
                    Some(p) => Some(p@),
                    None => None,
                };
                match r {
                    Ok((Some(reply), interval)) => greeted(self@, first_view) == Ok::<
                        (Option<PacketView>, u32),
                        ConnectionCreateErrorView,
                    >((Some(reply@), interval)),
                    Ok((None, interval)) => greeted(self@, first_view) == Ok::<
                        (Option<PacketView>, u32),
                        ConnectionCreateErrorView,
                    >((None, interval)),
                    Err(e) => greeted(self@, first_view) == Err::<
                        (Option<PacketView>, u32),
                        ConnectionCreateErrorView,
                    >(e@),
                }
            }),
    {
        let packet = match first {
            Some(packet) => packet,
            None => {
                return Err(
                    ConnectionCreateError::PacketTransferError(ConnectionError::UnexpectedEOF),
                );
            },
        };
        match self.role {
            ConnRole::Device => {
                if let Packet::ControlHelloAck { keep_alive_interval_ms } = packet {
                    return Ok((None, keep_alive_interval_ms));
                }
            },
            ConnRole::Host => {
                if let Packet::ControlHello { keep_alive_interval_ms } = packet {
                    let reply = Packet::ControlHelloAck {
                        keep_alive_interval_ms: self.keep_alive_interval_ms,
                    };
                    return Ok((Some(reply), keep_alive_interval_ms));
                }
            },
        }
        Err(
            ConnectionCreateError::HandshakeError(
                "Expected ControlHello packet, received different packet".to_owned(),
            ),
        )
    }

    /// Ends the handshake: the timers start and the connection runs. A timer
    /// has no use for a period of zero.
    pub fn establish(&mut self, peer_interval_ms: u32, now: u64)
        requires
            old(self).wf(),
            old(self)@.state == ConnState::Connecting,
            peer_interval_ms > 0,
            old(self)@.timeout_ms > 0,
            2 <= old(self)@.keep_alive_interval_ms + old(self)@.timeout_ms <= u32::MAX,
        ensures
            final(self)@ == established(old(self)@, peer_interval_ms, now),
            final(self).wf(),
    {
        let query_ms: u64 = (self.keep_alive_interval_ms + self.timeout_ms) as u64 / 2;
        self.keep_alive_timer = Some(Timer::starting(peer_interval_ms as u64 * NANOS_PER_MS, now));
        self.peer_query_active_timer = Some(Timer::starting(query_ms * NANOS_PER_MS, now));
        self.peer_active_timeout_timer = Some(
            Timer::starting(self.timeout_ms as u64 * NANOS_PER_MS, now),
        );
        self.phase = Phase::Running;
        self.switch_to(ConnState::Connected);
    }

    /// Enters the connected or the closed state. A closed connection has no
    /// timers.
    fn switch_to(&mut self, state: ConnState)
        requires
            state != ConnState::Connecting,
            state == ConnState::Connected ==> old(self)@.keep_alive_timer is Some && old(
                self,
            )@.peer_query_active_timer is Some && old(self)@.peer_active_timeout_timer is Some,
        ensures
            state == ConnState::Connected ==> final(self)@ == (ConnView { state, ..old(self)@ }),
            state == ConnState::Closed ==> final(self)@ == (ConnView {
                state,
                keep_alive_timer: None,
                peer_query_active_timer: None,
                peer_active_timeout_timer: None,
                ..old(self)@
            }),
    {
        if state == ConnState::Closed {
            self.keep_alive_timer = None;
            self.peer_query_active_timer = None;
            self.peer_active_timeout_timer = None;
        }
        self.state = state;
    }

    /// Closes the connection with this result.
    fn close_with(&mut self, result: Result<(), ConnectionError>) -> (r: Vec<Action>)
        ensures
            final(self)@ == closed(old(self)@),
            action_views(r@) == finish(result_view(result)),
    {
        self.phase = Phase::Finished;
        self.switch_to(ConnState::Closed);
        one(Action::Finish(result))
    }

    /// Stops with a failure and leaves the state as it is.
    fn stop_with(&mut self, error: ConnectionError) -> (r: Vec<Action>)
        ensures
            final(self)@ == stopped(old(self)@),
            action_views(r@) == finish(Err(error@)),
    {
        self.phase = Phase::Finished;
        one(Action::Finish(Err(error)))
    }

    /// When the next timer is due.
    pub fn next_deadline(&self) -> (r: Option<u64>)
        ensures
            match r {
                None => forall|now: u64| due_kind(self@, now) is None,
                Some(t) => forall|now: u64| due_kind(self@, now) is Some <==> now >= t,
            },
    {
        if self.phase != Phase::Running {
            return None;
        }
        let mut first: Option<u64> = None;
        if let Some(t) = self.keep_alive_timer {
            first = Some(t.due);
        }
        if let Some(t) = self.peer_query_active_timer {
            first = earlier(first, t.due);
        }
        if let Some(t) = self.peer_active_timeout_timer {
            first = earlier(first, t.due);
        }
        first
    }

    /// Which timer is due.
    pub fn due_timer(&self, now: u64) -> (r: Option<TimerKind>)
        ensures
            r == due_kind(self@, now),
    {
        if self.phase != Phase::Running {
            None
        } else if timer_due(self.keep_alive_timer, now) {
            Some(TimerKind::KeepAlive)
        } else if timer_due(self.peer_query_active_timer, now) {
            Some(TimerKind::PeerQuery)
        } else if timer_due(self.peer_active_timeout_timer, now) {
            Some(TimerKind::PeerTimeout)
        } else {
            None
        }
    }

    /// Serves the first timer that is due; `id` names a ping that goes out.
    pub fn tick_with_id(&mut self, now: u64, id: u32) -> (r: Vec<Action>)
        requires
            old(self).wf(),
        ensures
            final(self)@ == ticked(old(self)@, now, id).0,
            action_views(r@) == ticked(old(self)@, now, id).1,
            final(self).wf(),
    {
        match self.due_timer(now) {
            None => nothing(),
            Some(TimerKind::KeepAlive) => {
                if let Some(t) = self.keep_alive_timer {
                    self.keep_alive_timer = Some(t.fired());
                }
                one(Action::Send(Packet::ControlKeepAlive))
            },
            Some(TimerKind::PeerQuery) => {
                if let Some(t) = self.peer_query_active_timer {
                    self.peer_query_active_timer = Some(t.fired());
                }
                self.ping_timers.insert(id, now);
                one(Action::Send(Packet::ControlPing { id }))
            },
            Some(TimerKind::PeerTimeout) => {
                if let Some(t) = self.peer_active_timeout_timer {
                    self.peer_active_timeout_timer = Some(t.fired());
                }
                self.phase = Phase::Closing(CloseCause::Inactive);
                say_goodbye()
            },
        }
    }

    /// Serves the first timer that is due; a ping that goes out is named at
    /// random.
    pub fn tick(&mut self, now: u64) -> (r: Vec<Action>)
        requires
            old(self).wf(),
        ensures
            exists|id: u32|
                final(self)@ == (#[trigger] ticked(old(self)@, now, id)).0 && action_views(r@)
                    == ticked(old(self)@, now, id).1,
            final(self).wf(),
    {
        let id: u32 = random_id();
        self.tick_with_id(now, id)
    }

    /// Serves a packet while the connection runs. A greeting has no place
    /// there.
    pub fn handle_packet(&mut self, packet: Packet, now: u64) -> (r: Vec<Action>)
        requires
            old(self).wf(),
            old(self)@.phase == Phase::Running,
            acceptable(old(self)@, EventView::Arrived(packet@)),
        ensures
            final(self)@ == handled(old(self)@, packet@, now).0,
            action_views(r@) == handled(old(self)@, packet@, now).1,
            final(self).wf(),
    {
        self.peer_active_timeout_timer = reset_timer(self.peer_active_timeout_timer, now);
        self.peer_query_active_timer = reset_timer(self.peer_query_active_timer, now);
        match packet {
            Packet::ControlPing { id } => one(Action::Send(Packet::ControlPong { id })),
            Packet::ControlPong { id } => {
                let ghost before = self.ping_timers@;
                match self.ping_timers.remove(&id) {
                    Some(sent) => {
                        self.latest_rtt = Some(now.saturating_sub(sent));
                    },
                    None => {
                        assert(before.remove(id) =~= before);
                    },
                }
                nothing()
            },
            Packet::ControlClose => {
                self.phase = Phase::Draining;
                nothing()
            },
            Packet::Data(data) => one(Action::Deliver(data)),
            Packet::ControlKeepAlive
            | Packet::ControlHello { .. }
            | Packet::ControlHelloAck { .. } => nothing(),
        }
    }

    /// Serves a request of the user while the connection runs.
    pub fn handle_request(&mut self, request: Request, now: u64) -> (r: Vec<Action>)
        requires
            old(self).wf(),
            old(self)@.phase == Phase::Running,
        ensures
            final(self)@ == stepped(old(self)@, EventView::Requested(request@), now).0,
            action_views(r@) == stepped(old(self)@, EventView::Requested(request@), now).1,
            final(self).wf(),
    {
        match request {
            Request::Close => {
                self.phase = Phase::Closing(CloseCause::Requested);
                say_goodbye()
            },
            Request::Send(packet) => one(Action::Send(packet)),
            Request::GetStatus => one(Action::Report(self.status())),
        }
    }

    /// Goes on with a close, whichever side began it.
    pub fn close_step(&mut self, event: Event, now: u64) -> (r: Vec<Action>)
        requires
            old(self).wf(),
            old(self)@.phase is Closing || old(self)@.phase is Draining || old(self)@.phase is AwaitEnd,
        ensures
            final(self)@ == stepped(old(self)@, event@, now).0,
            action_views(r@) == stepped(old(self)@, event@, now).1,
            final(self).wf(),
    {
        match self.phase {
            Phase::Closing(cause) => match event {
                Event::Arrived(Packet::ControlClose) => self.close_with(result_of_close(cause)),
                Event::Arrived(Packet::Data(data)) => one(Action::Deliver(data)),
                Event::Eof => self.stop_with(ConnectionError::UnexpectedEOF),
                Event::StreamFailed(_) => self.close_with(result_of_close(cause)),
                Event::CloseTimedOut => self.stop_with(ConnectionError::CloseTimeout),
                _ => nothing(),
            },
            Phase::Draining => match event {
                Event::Requested(Request::Send(packet)) => one(Action::Send(packet)),
                Event::Requested(Request::GetStatus) => one(Action::Report(self.status())),
                Event::Requested(Request::Close) | Event::NoRequest => {
                    self.phase = Phase::AwaitEnd;
                    say_goodbye()
                },
                _ => nothing(),
            },
            Phase::AwaitEnd => match event {
                Event::StreamEnded => self.close_with(Err(ConnectionError::PeerClosed)),
                Event::StreamFailed(e) => self.stop_with(e),
                _ => nothing(),
            },
            _ => nothing(),
        }
    }

    /// Serves an event.
    pub fn step(&mut self, event: Event, now: u64) -> (r: Vec<Action>)
        requires
            old(self).wf(),
            acceptable(old(self)@, event@),
        ensures
            final(self)@ == stepped(old(self)@, event@, now).0,
            action_views(r@) == stepped(old(self)@, event@, now).1,
            final(self).wf(),
    {
        match self.phase {
            Phase::Running => match event {
                Event::Arrived(packet) => self.handle_packet(packet, now),
                Event::Eof => self.stop_with(ConnectionError::UnexpectedEOF),
                Event::StreamFailed(e) => self.stop_with(e),
                Event::Requested(request) => self.handle_request(request, now),
                Event::NoRequest | Event::CloseTimedOut | Event::StreamEnded => nothing(),
            },
            Phase::Closing(_) | Phase::Draining | Phase::AwaitEnd => self.close_step(event, now),
            Phase::Handshaking | Phase::Finished => nothing(),
        }
    }
}

/// The earlier of two points in time, the first of which may be missing.
fn earlier(first: Option<u64>, due: u64) -> (r: Option<u64>)
    ensures
        r == match first {
            Some(t) => if t <= due {
                Some(t)
            } else {
                Some(due)
            },
            None => Some(due),
        },
{
    match first {
        Some(t) => if t <= due {
            Some(t)
        } else {
            Some(due)
        },
        None => Some(due),
    }
}

} // verus!
