//! The host at work: every configured device waits for a peer, and an adapter
//! carries data between the peer and the device.
use crate::host::config::{
    copy_options, default_option, option_default, option_views, DeviceEntry, HostConfig,
};
use crate::runtime::connection_error::{
    connection_closed_message, connection_error_message, ConnectionClosed, ConnectionClosedView,
};
use crate::ncdd::start::chunk_views;
use crate::text::{decimal, decimal_string, push_decimal};
use crate::wire::copy_range;
use vstd::prelude::*;

verus! {

/// A failure of the host.
#[derive(Debug)]
pub enum RuntimeError {
    /// No device is configured.
    NoDevices,
    /// What an adapter said.
    Adapter(String),
    /// What a connection said.
    Ncd(String),
}

/// The mathematical content of a [`RuntimeError`].
pub enum RuntimeErrorView {
    NoDevices,
    Adapter(Seq<char>),
    Ncd(Seq<char>),
}

impl View for RuntimeError {
    type V = RuntimeErrorView;

    open spec fn view(&self) -> RuntimeErrorView {
        match self {
            RuntimeError::NoDevices => RuntimeErrorView::NoDevices,
            RuntimeError::Adapter(text) => RuntimeErrorView::Adapter(text@),
            RuntimeError::Ncd(text) => RuntimeErrorView::Ncd(text@),
        }
    }
}

/// The text of a failure.
pub open spec fn runtime_error_message(e: RuntimeErrorView) -> Seq<char> {
    match e {
        RuntimeErrorView::NoDevices => "No devices configured"@,
        RuntimeErrorView::Adapter(text) => "Adapter error: "@ + text,
        RuntimeErrorView::Ncd(text) => "NCD connection error: "@ + text,
    }
}

impl RuntimeError {
    /// The text shown to a person.
    pub fn message(&self) -> (r: String)
        ensures
            r@ == runtime_error_message(self@),
    {
        match self {
            RuntimeError::NoDevices => "No devices configured".to_owned(),
            RuntimeError::Adapter(text) => {
                let mut out = "Adapter error: ".to_owned();
                out.push_str(text.as_str());
                out
            },
            RuntimeError::Ncd(text) => {
                let mut out = "NCD connection error: ".to_owned();
                out.push_str(text.as_str());
                out
            },
        }
    }
}

/// Whether the host has something to do.
pub fn check_config(config: &HostConfig) -> (r: Result<(), RuntimeError>)
    ensures
        match r {
            Ok(()) => config@.len() > 0,
            Err(e) => config@.len() == 0 && e@ == RuntimeErrorView::NoDevices,
        },
{
    if config.device.len() == 0 {
        Err(RuntimeError::NoDevices)
    } else {
        Ok(())
    }
}

/// How the log names a device: its driver and its port.
pub fn actor_name(entry: &DeviceEntry) -> (r: String)
    ensures
        r@ == entry@.driver + ":"@ + decimal(entry@.port as nat),
{
    let mut out = entry.driver.clone();
    out.push_str(":");
    push_decimal(&mut out, entry.port as u64);
    out
}

/// The options for the adapter of a device: those that are configured, and the
/// port unless it is among them.
pub fn adapter_options(entry: &DeviceEntry) -> (r: Vec<(String, String)>)
    ensures
        option_views(r@) == option_default(
            entry@.options,
            "port"@,
            decimal(entry@.port as nat),
        ),
{
    let mut options = copy_options(entry.options.as_slice());
    let port = decimal_string(entry.port as u64);
    default_option(&mut options, "port", port.as_str());
    options
}

/// Something that happened while data is carried.
#[derive(Debug)]
pub enum BridgeEvent {
    /// The adapter ended, with or without success; how that is shown.
    AdapterExited { success: bool, status: String },
    /// Data came from the peer.
    PeerData(Vec<u8>),
    /// The connection is closed.
    PeerClosed(ConnectionClosed),
    /// Data came from the adapter.
    AdapterData(Vec<u8>),
    /// The adapter gives no data any more.
    AdapterSilent,
    /// The adapter took no data, and why.
    AdapterWriteFailed(String),
    /// The peer took no data, and why.
    PeerWriteFailed(String),
}

/// Something to do while data is carried.
#[derive(Debug)]
pub enum BridgeAction {
    ToAdapter(Vec<u8>),
    ToPeer(Vec<u8>),
    /// Stop carrying data, with this line in the log.
    Stop(String),
    /// Write a line to the log.
    Log(String),
    /// Wait so many milliseconds.
    Pause(u64),
}

/// The mathematical content of a [`BridgeEvent`].
pub enum BridgeEventView {
    AdapterExited { success: bool, status: Seq<char> },
    PeerData(Seq<u8>),
    PeerClosed(ConnectionClosedView),
    AdapterData(Seq<u8>),
    AdapterSilent,
    AdapterWriteFailed(Seq<char>),
    PeerWriteFailed(Seq<char>),
}

/// The mathematical content of a [`BridgeAction`].
pub enum BridgeActionView {
    ToAdapter(Seq<u8>),
    ToPeer(Seq<u8>),
    Stop(Seq<char>),
    Log(Seq<char>),
    Pause(u64),
}

impl View for BridgeEvent {
    type V = BridgeEventView;

    open spec fn view(&self) -> BridgeEventView {
        match self {
            BridgeEvent::AdapterExited { success, status } => BridgeEventView::AdapterExited {
                success: *success,
                status: status@,
            },
            BridgeEvent::PeerData(b) => BridgeEventView::PeerData(b@),
            BridgeEvent::PeerClosed(c) => BridgeEventView::PeerClosed(c@),
            BridgeEvent::AdapterData(b) => BridgeEventView::AdapterData(b@),
            BridgeEvent::AdapterSilent => BridgeEventView::AdapterSilent,
            BridgeEvent::AdapterWriteFailed(text) => BridgeEventView::AdapterWriteFailed(text@),
            BridgeEvent::PeerWriteFailed(text) => BridgeEventView::PeerWriteFailed(text@),
        }
    }
}

impl View for BridgeAction {
    type V = BridgeActionView;

    open spec fn view(&self) -> BridgeActionView {
        match self {
            BridgeAction::ToAdapter(b) => BridgeActionView::ToAdapter(b@),
            BridgeAction::ToPeer(b) => BridgeActionView::ToPeer(b@),
            BridgeAction::Stop(text) => BridgeActionView::Stop(text@),
            BridgeAction::Log(text) => BridgeActionView::Log(text@),
            BridgeAction::Pause(ms) => BridgeActionView::Pause(*ms),
        }
    }
}

/// A line in the log for a device.
pub open spec fn device_line(name: Seq<char>, text: Seq<char>) -> Seq<char> {
    "["@ + name + "] "@ + text
}

/// What an event leads to.
pub open spec fn bridged(name: Seq<char>, event: BridgeEventView) -> BridgeActionView {
    match event {
        BridgeEventView::PeerData(b) => BridgeActionView::ToAdapter(b),
        BridgeEventView::AdapterData(b) => BridgeActionView::ToPeer(b),
        BridgeEventView::AdapterExited { success, status } => BridgeActionView::Stop(
            device_line(
                name,
                if success {
                    "Adapter exited normally"@
                } else {
                    "Adapter exited with "@ + status
                },
            ),
        ),
        BridgeEventView::PeerClosed(c) => BridgeActionView::Stop(
            device_line(
                name,
                match c {
                    ConnectionClosedView::Normal => "NCD peer disconnected"@,
                    ConnectionClosedView::Error(e) => "NCD read error: "@
                        + connection_error_message(e),
                    ConnectionClosedView::Unknown(_) => "NCD connection closed: "@
                        + connection_closed_message(c),
                },
            ),
        ),
        BridgeEventView::AdapterSilent => BridgeActionView::Stop(
            device_line(name, "Adapter stdout closed"@),
        ),
        BridgeEventView::AdapterWriteFailed(text) => BridgeActionView::Stop(
            device_line(name, "Write to adapter failed: "@ + text),
        ),
        BridgeEventView::PeerWriteFailed(text) => BridgeActionView::Stop(
            device_line(name, "NCD write error: "@ + text),
        ),
    }
}

/// A line in the log for a device.
pub fn log_for(name: &str, text: &str) -> (r: String)
    ensures
        r@ == device_line(name@, text@),
{
    let mut out = "[".to_owned();
    out.push_str(name);
    out.push_str("] ");
    out.push_str(text);
    out
}

fn with_detail(text: &str, detail: &str) -> (r: String)
    ensures
        r@ == text@ + detail@,
{
    let mut out = text.to_owned();
    out.push_str(detail);
    out
}

/// Serves an event while data is carried between the peer and the adapter of a
/// device.
pub fn handle_connection(name: &str, event: BridgeEvent) -> (r: BridgeAction)
    ensures
        r@ == bridged(name@, event@),
{
    let text = match event {
        BridgeEvent::PeerData(b) => {
            return BridgeAction::ToAdapter(b);
        },
        BridgeEvent::AdapterData(b) => {
            return BridgeAction::ToPeer(b);
        },
        BridgeEvent::AdapterExited { success, status } => if success {
            "Adapter exited normally".to_owned()
        } else {
            with_detail("Adapter exited with ", status.as_str())
        },
        BridgeEvent::PeerClosed(c) => match &c {
            ConnectionClosed::Normal => "NCD peer disconnected".to_owned(),
            ConnectionClosed::Error(e) => with_detail("NCD read error: ", e.message().as_str()),
            ConnectionClosed::Unknown(_) => with_detail(
                "NCD connection closed: ",
                c.message().as_str(),
            ),
        },
        BridgeEvent::AdapterSilent => "Adapter stdout closed".to_owned(),
        BridgeEvent::AdapterWriteFailed(text) => with_detail(
            "Write to adapter failed: ",
            text.as_str(),
        ),
        BridgeEvent::PeerWriteFailed(text) => with_detail("NCD write error: ", text.as_str()),
    };
    BridgeAction::Stop(log_for(name, text.as_str()))
}

/// Data is carried unchanged, each way to the other side, and nothing else is
/// carried.
pub proof fn law_bridge_carries(name: Seq<char>, event: BridgeEventView, data: Seq<u8>)
    ensures
        bridged(name, event) == BridgeActionView::ToAdapter(data) <==> event
            == BridgeEventView::PeerData(data),
        bridged(name, event) == BridgeActionView::ToPeer(data) <==> event
            == BridgeEventView::AdapterData(data),
{
}

/// Milliseconds that an adapter gets to serve what was unread.
pub const UNREAD_PAUSE_MS: u64 = 100;

/// The actions as mathematical values.
pub open spec fn bridge_action_views(actions: Seq<BridgeAction>) -> Seq<BridgeActionView> {
    Seq::new(actions.len(), |i: int| actions[i]@)
}

/// The first `n` messages, each handed to the adapter.
pub open spec fn handed_to_adapter(unread: Seq<Seq<u8>>, n: nat) -> Seq<BridgeActionView> {
    Seq::new(n, |i: int| BridgeActionView::ToAdapter(unread[i]))
}

/// What is done with messages that were unread when the connection was closed:
/// the log says how many there are, the adapter gets each of them in order,
/// and some time to serve them.
pub open spec fn unread_actions(name: Seq<char>, unread: Seq<Seq<u8>>) -> Seq<BridgeActionView> {
    if unread.len() == 0 {
        Seq::empty()
    } else {
        seq![
            BridgeActionView::Log(
                device_line(name, decimal(unread.len()) + " unread messages delivered on close"@),
            ),
        ] + handed_to_adapter(unread, unread.len()) + seq![
            BridgeActionView::Pause(UNREAD_PAUSE_MS),
        ]
    }
}

/// What to do with messages that were unread when the connection was closed.
pub fn unread_on_close(name: &str, unread: &[Vec<u8>]) -> (r: Vec<BridgeAction>)
    ensures
        bridge_action_views(r@) == unread_actions(name@, chunk_views(unread@)),
{
    let mut actions: Vec<BridgeAction> = Vec::new();
    if unread.len() == 0 {
        assert(bridge_action_views(actions@) =~= Seq::<BridgeActionView>::empty());
        return actions;
    }
    let mut text = decimal_string(unread.len() as u64);
    text.push_str(" unread messages delivered on close");
    actions.push(BridgeAction::Log(log_for(name, text.as_str())));
    let ghost messages = chunk_views(unread@);
    let ghost first = actions[0]@;
    let mut i: usize = 0;
    while i < unread.len()
        invariant
            i <= unread.len(),
            messages == chunk_views(unread@),
            bridge_action_views(actions@) =~= seq![first] + handed_to_adapter(messages, i as nat),
        decreases unread.len() - i,
    {
        let data = copy_range(unread[i].as_slice(), 0, unread[i].len());
        assert(data@ =~= messages[i as int]);
        let ghost before = bridge_action_views(actions@);
        actions.push(BridgeAction::ToAdapter(data));
        i = i + 1;
        assert(bridge_action_views(actions@) =~= before.push(
            BridgeActionView::ToAdapter(messages[i - 1]),
        ));
    }
    let ghost before = bridge_action_views(actions@);
    actions.push(BridgeAction::Pause(UNREAD_PAUSE_MS));
    assert(bridge_action_views(actions@) =~= before.push(BridgeActionView::Pause(UNREAD_PAUSE_MS)));
    assert(bridge_action_views(actions@) =~= unread_actions(name@, messages));
    actions
}

/// What to do where the adapter took one of these messages no more: the others
/// are not handed to it.
pub fn unread_failed(name: &str, error: &str) -> (r: Vec<BridgeAction>)
    ensures
        bridge_action_views(r@) == seq![
            BridgeActionView::Log(
                device_line(name@, "Write remaining data to adapter failed: "@ + error@),
            ),
            BridgeActionView::Pause(UNREAD_PAUSE_MS),
        ],
{
    let mut actions: Vec<BridgeAction> = Vec::new();
    let text = with_detail("Write remaining data to adapter failed: ", error);
    actions.push(BridgeAction::Log(log_for(name, text.as_str())));
    actions.push(BridgeAction::Pause(UNREAD_PAUSE_MS));
    assert(bridge_action_views(actions@) =~= seq![actions@[0]@, actions@[1]@]);
    actions
}

/// Every message that was unread is handed to the adapter, unchanged and in
/// order, and nothing is sent to the peer any more.
pub proof fn law_unread_is_delivered(name: Seq<char>, unread: Seq<Seq<u8>>, i: int)
    requires
        0 <= i < unread_actions(name, unread).len(),
    ensures
        unread_actions(name, unread).len() == unread.len() + 2,
        unread_actions(name, unread)[i] is ToAdapter <==> 0 < i <= unread.len(),
        0 < i <= unread.len() ==> unread_actions(name, unread)[i] == BridgeActionView::ToAdapter(
            unread[i - 1],
        ),
        !(unread_actions(name, unread)[i] is ToPeer),
{
}

/// What a device does after a peer could not be waited for, after an adapter
/// could not be started, and after a peer is gone: it waits a second in the
/// first two cases, and waits for another peer in every case.
#[derive(Debug, Clone, Copy, PartialEq, Eq, Structural)]
pub enum ActorEvent {
    AcceptFailed,
    AdapterFailed,
    PeerGone,
}

/// The seconds that a device waits before it listens again.
pub fn pause_seconds(event: ActorEvent) -> (r: u64)
    ensures
        r == match event {
            ActorEvent::AcceptFailed => 1u64,
            ActorEvent::AdapterFailed => 1u64,
            ActorEvent::PeerGone => 0u64,
        },
{
    match event {
        ActorEvent::AcceptFailed | ActorEvent::AdapterFailed => 1,
        ActorEvent::PeerGone => 0,
    }
}

/// Carrying data stops exactly when something else happens than data, and the
/// line in the log starts with the name of the device.
pub proof fn law_when_carrying_stops(name: Seq<char>, event: BridgeEventView, text: Seq<char>)
    ensures
        bridged(name, event) is Stop <==> !(event is PeerData) && !(event is AdapterData),
        !(bridged(name, event) is Log) && !(bridged(name, event) is Pause),
        device_line(name, text) == seq!['['] + name + seq![']', ' '] + text,
        bridged(name, BridgeEventView::AdapterWriteFailed(text)) == BridgeActionView::Stop(
            device_line(name, "Write to adapter failed: "@ + text),
        ),
        bridged(name, BridgeEventView::PeerWriteFailed(text)) == BridgeActionView::Stop(
            device_line(name, "NCD write error: "@ + text),
        ),
        bridged(name, BridgeEventView::AdapterSilent) == BridgeActionView::Stop(
            device_line(name, "Adapter stdout closed"@),
        ),
        bridged(
            name,
            BridgeEventView::AdapterExited { success: true, status: text },
        ) == BridgeActionView::Stop(device_line(name, "Adapter exited normally"@)),
        bridged(
            name,
            BridgeEventView::AdapterExited { success: false, status: text },
        ) == BridgeActionView::Stop(device_line(name, "Adapter exited with "@ + text)),
        bridged(
            name,
            BridgeEventView::PeerClosed(ConnectionClosedView::Normal),
        ) == BridgeActionView::Stop(device_line(name, "NCD peer disconnected"@)),
{
    reveal_strlit("[");
    reveal_strlit("] ");
    assert("["@ =~= seq!['[']);
    assert("] "@ =~= seq![']', ' ']);
}

/// A failure of the host says what the adapter or the connection said.
pub proof fn law_host_failures(text: Seq<char>)
    ensures
        runtime_error_message(RuntimeErrorView::NoDevices) == "No devices configured"@,
        runtime_error_message(RuntimeErrorView::Adapter(text)) == "Adapter error: "@ + text,
        runtime_error_message(RuntimeErrorView::Ncd(text)) == "NCD connection error: "@ + text,
{
}

} // verus!
