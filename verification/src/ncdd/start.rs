//! The main loop of the daemon: what messages of the driver and data of the
//! remote devices lead to, and how fast data may flow into the kernel.
use crate::ncdd::netlink::{
    NCD_MSG_CLOSE_REQ, NCD_MSG_DATA, NCD_MSG_KFIFO_AVAILABLE, NCD_MSG_KFIFO_FULL, NCD_MSG_OPEN_REQ,
};
use crate::wire::copy_range;
use std::collections::VecDeque;
use vstd::prelude::*;

verus! {

/// Bytes that the queue of a device holds in the kernel: 4 KiB, which is what
/// the driver makes it. A message of the driver has more room,
/// [`RECV_BUF_SIZE`](crate::ncdd::netlink::RECV_BUF_SIZE).
pub const FIFO_SIZE: usize = 4096;

/// With more bytes than this on their way, no more are sent.
pub const FIFO_HIGH_WATERMARK: usize = FIFO_SIZE * 80 / 100;

/// Below this the kernel says that there is room again.
pub const FIFO_LOW_WATERMARK: usize = FIFO_SIZE * 20 / 100;

/// Largest piece that is sent to the kernel at once.
pub const SHARD_SIZE: usize = FIFO_LOW_WATERMARK;

/// Data cut into pieces for the kernel: full ones and the remainder.
pub open spec fn shards(data: Seq<u8>) -> Seq<Seq<u8>>
    decreases data.len(),
{
    if data.len() == 0 {
        Seq::empty()
    } else if data.len() <= SHARD_SIZE {
        seq![data]
    } else {
        seq![data.take(SHARD_SIZE as int)] + shards(data.skip(SHARD_SIZE as int))
    }
}

/// Pieces put together again.
pub open spec fn joined_chunks(chunks: Seq<Seq<u8>>) -> Seq<u8>
    decreases chunks.len(),
{
    if chunks.len() == 0 {
        Seq::empty()
    } else {
        chunks[0] + joined_chunks(chunks.skip(1))
    }
}

/// Pieces that can be sent to the kernel.
pub open spec fn sendable(chunks: Seq<Seq<u8>>) -> bool {
    forall|i: int|
        0 <= i < chunks.len() ==> 1 <= (#[trigger] chunks[i]).len() && chunks[i].len()
            <= SHARD_SIZE
}

/// The contents of a queue of pieces.
pub open spec fn chunk_views(chunks: Seq<Vec<u8>>) -> Seq<Seq<u8>> {
    Seq::new(chunks.len(), |i: int| chunks[i]@)
}

/// How data flows from one remote device into the kernel.
#[verifier::ext_equal]
pub struct FlowView {
    /// The kernel asked to stop sending.
    pub paused: bool,
    /// Bytes sent since the kernel last said that there is room.
    pub inflight: nat,
    /// Nothing is read from the remote device.
    pub read_paused: bool,
    /// Pieces that wait to be sent, first one first.
    pub pending: Seq<Seq<u8>>,
}

/// The flow of a device that was just opened or closed.
pub open spec fn idle_flow() -> FlowView {
    FlowView { paused: false, inflight: 0, read_paused: false, pending: Seq::empty() }
}

/// Whether the next piece may be sent.
pub open spec fn may_send(f: FlowView) -> bool {
    !f.paused && f.pending.len() > 0 && f.inflight <= FIFO_HIGH_WATERMARK
}

/// Reading from the remote device should rest while the kernel has no room or
/// pieces still wait.
pub open spec fn should_rest(f: FlowView) -> bool {
    f.paused || f.pending.len() > 0
}

/// How data flows from one remote device into the kernel.
pub struct DeviceFlow {
    paused: bool,
    inflight: usize,
    read_paused: bool,
    pending: VecDeque<Vec<u8>>,
}

impl View for DeviceFlow {
    type V = FlowView;

    closed spec fn view(&self) -> FlowView {
        FlowView {
            paused: self.paused,
            inflight: self.inflight as nat,
            read_paused: self.read_paused,
            pending: chunk_views(self.pending@),
        }
    }
}

impl DeviceFlow {
    /// What waits can be sent, and no more bytes are on their way than the
    /// queue in the kernel holds.
    pub open spec fn wf(&self) -> bool {
        sendable(self@.pending) && self@.inflight <= FIFO_HIGH_WATERMARK + SHARD_SIZE
            && self@.inflight <= FIFO_SIZE
    }

    /// The flow of a new device.
    pub fn new() -> (r: DeviceFlow)
        ensures
            r@ == idle_flow(),
            r.wf(),
    {
        let r = DeviceFlow {
            paused: false,
            inflight: 0,
            read_paused: false,
            pending: VecDeque::new(),
        };
        assert(r@ =~= idle_flow());
        r
    }

    /// Starts over.
    pub fn reset(&mut self)
        ensures
            final(self)@ == idle_flow(),
            final(self).wf(),
    {
        self.paused = false;
        self.inflight = 0;
        self.read_paused = false;
        self.pending.clear();
        assert(self@ =~= idle_flow());
    }

    /// How many pieces wait.
    pub fn waiting(&self) -> (r: usize)
        ensures
            r == self@.pending.len(),
    {
        self.pending.len()
    }

    /// Whether the kernel asked to stop sending.
    pub fn is_paused(&self) -> (r: bool)
        ensures
            r == self@.paused,
    {
        self.paused
    }

    /// Cuts data into pieces that wait behind the others.
    pub fn queue_shards(&mut self, data: &[u8])
        requires
            old(self).wf(),
        ensures
            final(self)@ == (FlowView {
                pending: old(self)@.pending + shards(data@),
                ..old(self)@
            }),
            final(self).wf(),
    {
        let ghost before = self@.pending;
        let ghost flow = self@;
        let mut start: usize = 0;
        proof {
            assert(data@.skip(0) =~= data@);
            assert(self@.pending + shards(data@) =~= before + shards(data@));
        }
        while start < data.len()
            invariant
                start <= data.len(),
                self@.pending + shards(data@.skip(start as int)) == before + shards(data@),
                self@ == (FlowView { pending: self@.pending, ..flow }),
                sendable(self@.pending),
            decreases data.len() - start,
        {
            let end: usize = if data.len() - start <= SHARD_SIZE {
                data.len()
            } else {
                start + SHARD_SIZE
            };
            let chunk = copy_range(data, start, end);
            let ghost c = chunk@;
            let ghost views = self@.pending;
            self.pending.push_back(chunk);
            proof {
                let rest = data@.skip(start as int);
                assert(chunk_views(self.pending@) =~= views.push(c));
                assert(data@.skip(end as int) =~= rest.skip(end - start));
                if rest.len() <= SHARD_SIZE {
                    assert(c =~= rest);
                    assert(shards(data@.skip(end as int)) =~= Seq::<Seq<u8>>::empty());
                    assert(views + seq![c] =~= views.push(c) + shards(data@.skip(end as int)));
                } else {
                    assert(c =~= rest.take(SHARD_SIZE as int));
                    let tail = shards(data@.skip(end as int));
                    assert(views + (seq![c] + tail) =~= views.push(c) + tail);
                }
            }
            start = end;
        }
        proof {
            assert(data@.skip(start as int) =~= Seq::<u8>::empty());
            assert(self@.pending + shards(data@.skip(start as int)) =~= self@.pending);
        }
    }

    /// Takes the piece that is to be sent now. Nothing is sent while the
    /// kernel has no room, or when so much is on its way that it soon will
    /// have none.
    pub fn next_chunk(&mut self) -> (r: Option<Vec<u8>>)
        requires
            old(self).wf(),
        ensures
            final(self).wf(),
            match r {
                Some(chunk) => may_send(old(self)@) && chunk@ == old(self)@.pending[0]
                    && final(self)@ == (FlowView {
                    pending: old(self)@.pending.skip(1),
                    ..old(self)@
                }),
                None => !may_send(old(self)@) && final(self)@ == old(self)@,
            },
    {
        if self.paused || self.inflight > FIFO_HIGH_WATERMARK {
            return None;
        }
        let ghost queue = self.pending@;
        let ghost views = self@.pending;
        let r = self.pending.pop_front();
        proof {
            if queue.len() > 0 {
                assert(chunk_views(self.pending@) =~= views.skip(1));
            } else {
                assert(self@ =~= old(self)@);
            }
        }
        r
    }

    /// The piece was sent.
    pub fn chunk_sent(&mut self, length: usize)
        requires
            old(self).wf(),
            old(self)@.inflight <= FIFO_HIGH_WATERMARK,
            length <= SHARD_SIZE,
        ensures
            final(self).wf(),
            final(self)@ == (FlowView {
                inflight: (old(self)@.inflight + length) as nat,
                ..old(self)@
            }),
    {
        self.inflight = self.inflight + length;
    }

    /// The piece could not be sent: it is the next one again.
    pub fn chunk_failed(&mut self, chunk: Vec<u8>)
        requires
            old(self).wf(),
            1 <= chunk@.len() <= SHARD_SIZE,
        ensures
            final(self).wf(),
            final(self)@ == (FlowView {
                pending: seq![chunk@] + old(self)@.pending,
                ..old(self)@
            }),
    {
        let ghost views = self@.pending;
        let ghost c = chunk@;
        self.pending.push_front(chunk);
        assert(chunk_views(self.pending@) =~= seq![c] + views);
    }

    /// The kernel has no room.
    pub fn kernel_full(&mut self)
        requires
            old(self).wf(),
        ensures
            final(self).wf(),
            final(self)@ == (FlowView { paused: true, ..old(self)@ }),
    {
        self.paused = true;
    }

    /// The kernel has room again.
    pub fn kernel_available(&mut self)
        requires
            old(self).wf(),
        ensures
            final(self).wf(),
            final(self)@ == (FlowView { paused: false, inflight: 0, ..old(self)@ }),
    {
        self.paused = false;
        self.inflight = 0;
    }

    /// Whether reading from the remote device has to stop (`true`), to go on
    /// (`false`), or nothing has to change.
    pub fn reading_change(&self) -> (r: Option<bool>)
        ensures
            r == if self@.read_paused == should_rest(self@) {
                None
            } else {
                Some(should_rest(self@))
            },
    {
        let should_pause = self.paused || self.pending.len() > 0;
        if self.read_paused == should_pause {
            None
        } else {
            Some(should_pause)
        }
    }

    /// Reading was stopped or went on.
    pub fn reading_changed(&mut self, read_paused: bool)
        requires
            old(self).wf(),
        ensures
            final(self).wf(),
            final(self)@ == (FlowView { read_paused, ..old(self)@ }),
    {
        self.read_paused = read_paused;
    }
}

/// What the driver asks for; the number names the device.
#[derive(Debug, PartialEq, Eq)]
pub enum KernelRequest {
    Open(u8),
    Data(u8, Vec<u8>),
    Close(u8),
    FifoFull(u8),
    FifoAvailable(u8),
}

/// The mathematical content of a [`KernelRequest`].
pub enum KernelRequestView {
    Open(u8),
    Data(u8, Seq<u8>),
    Close(u8),
    FifoFull(u8),
    FifoAvailable(u8),
}

impl View for KernelRequest {
    type V = KernelRequestView;

    open spec fn view(&self) -> KernelRequestView {
        match self {
            KernelRequest::Open(m) => KernelRequestView::Open(*m),
            KernelRequest::Data(m, data) => KernelRequestView::Data(*m, data@),
            KernelRequest::Close(m) => KernelRequestView::Close(*m),
            KernelRequest::FifoFull(m) => KernelRequestView::FifoFull(*m),
            KernelRequest::FifoAvailable(m) => KernelRequestView::FifoAvailable(*m),
        }
    }
}

/// Whether a message of this type concerns a device.
pub open spec fn is_request(msg_type: u16) -> bool {
    msg_type == NCD_MSG_OPEN_REQ || msg_type == NCD_MSG_DATA || msg_type == NCD_MSG_CLOSE_REQ
        || msg_type == NCD_MSG_KFIFO_FULL || msg_type == NCD_MSG_KFIFO_AVAILABLE
}

/// Whether a message of this type concerns a device.
pub fn is_device_message(msg_type: u16) -> (r: bool)
    ensures
        r == is_request(msg_type),
{
    msg_type == NCD_MSG_OPEN_REQ || msg_type == NCD_MSG_DATA || msg_type == NCD_MSG_CLOSE_REQ
        || msg_type == NCD_MSG_KFIFO_FULL || msg_type == NCD_MSG_KFIFO_AVAILABLE
}

/// What a message of the driver asks for. Its first byte names the device.
pub open spec fn requested(msg_type: u16, payload: Seq<u8>) -> Option<KernelRequestView> {
    if msg_type == NCD_MSG_OPEN_REQ {
        Some(KernelRequestView::Open(payload[0]))
    } else if msg_type == NCD_MSG_DATA {
        Some(KernelRequestView::Data(payload[0], payload.skip(1)))
    } else if msg_type == NCD_MSG_CLOSE_REQ {
        Some(KernelRequestView::Close(payload[0]))
    } else if msg_type == NCD_MSG_KFIFO_FULL {
        Some(KernelRequestView::FifoFull(payload[0]))
    } else if msg_type == NCD_MSG_KFIFO_AVAILABLE {
        Some(KernelRequestView::FifoAvailable(payload[0]))
    } else {
        None
    }
}

/// Reads what a message of the driver asks for. A message that concerns a
/// device names it.
pub fn kernel_request(msg_type: u16, payload: &[u8]) -> (r: Option<KernelRequest>)
    requires
        is_request(msg_type) ==> payload@.len() >= 1,
    ensures
        match r {
            Some(q) => requested(msg_type, payload@) == Some(q@),
            None => requested(msg_type, payload@) is None,
        },
{
    if msg_type == NCD_MSG_OPEN_REQ {
        Some(KernelRequest::Open(payload[0]))
    } else if msg_type == NCD_MSG_DATA {
        let data = copy_range(payload, 1, payload.len());
        assert(data@ =~= payload@.skip(1));
        Some(KernelRequest::Data(payload[0], data))
    } else if msg_type == NCD_MSG_CLOSE_REQ {
        Some(KernelRequest::Close(payload[0]))
    } else if msg_type == NCD_MSG_KFIFO_FULL {
        Some(KernelRequest::FifoFull(payload[0]))
    } else if msg_type == NCD_MSG_KFIFO_AVAILABLE {
        Some(KernelRequest::FifoAvailable(payload[0]))
    } else {
        None
    }
}

/// Something the main loop has to do.
#[derive(Debug, PartialEq, Eq)]
pub enum DaemonAction {
    /// Connect the device and tell the driver how that went.
    Open(u8),
    /// Send data to the remote device.
    Write(u8, Vec<u8>),
    /// Close the connection of the device.
    Close(u8),
    /// Send pieces to the kernel until no more may be sent.
    Flush(u8),
    /// Stop reading from the remote device or go on, as the flow says.
    SyncReading(u8),
}

/// The mathematical content of a [`DaemonAction`].
#[verifier::ext_equal]
pub enum DaemonActionView {
    Open(u8),
    Write(u8, Seq<u8>),
    Close(u8),
    Flush(u8),
    SyncReading(u8),
}

impl View for DaemonAction {
    type V = DaemonActionView;

    open spec fn view(&self) -> DaemonActionView {
        match self {
            DaemonAction::Open(m) => DaemonActionView::Open(*m),
            DaemonAction::Write(m, data) => DaemonActionView::Write(*m, data@),
            DaemonAction::Close(m) => DaemonActionView::Close(*m),
            DaemonAction::Flush(m) => DaemonActionView::Flush(*m),
            DaemonAction::SyncReading(m) => DaemonActionView::SyncReading(*m),
        }
    }
}

/// The contents of a list of actions.
pub open spec fn daemon_action_views(actions: Seq<DaemonAction>) -> Seq<DaemonActionView> {
    Seq::new(actions.len(), |i: int| actions[i]@)
}

/// The device that a request names.
pub open spec fn request_minor(q: KernelRequestView) -> u8 {
    match q {
        KernelRequestView::Open(m) => m,
        KernelRequestView::Data(m, _) => m,
        KernelRequestView::Close(m) => m,
        KernelRequestView::FifoFull(m) => m,
        KernelRequestView::FifoAvailable(m) => m,
    }
}

/// What a request does to the flow of its device.
pub open spec fn flow_after(f: FlowView, q: KernelRequestView) -> FlowView {
    match q {
        KernelRequestView::Open(_) => idle_flow(),
        KernelRequestView::Data(_, _) => f,
        KernelRequestView::Close(_) => idle_flow(),
        KernelRequestView::FifoFull(_) => FlowView { paused: true, ..f },
        KernelRequestView::FifoAvailable(_) => FlowView { paused: false, inflight: 0, ..f },
    }
}

/// What a request makes the main loop do.
pub open spec fn request_actions(q: KernelRequestView) -> Seq<DaemonActionView> {
    match q {
        KernelRequestView::Open(m) => seq![DaemonActionView::Open(m)],
        KernelRequestView::Data(m, data) => seq![DaemonActionView::Write(m, data)],
        KernelRequestView::Close(m) => seq![DaemonActionView::Close(m)],
        KernelRequestView::FifoFull(m) => seq![DaemonActionView::SyncReading(m)],
        KernelRequestView::FifoAvailable(m) => seq![
            DaemonActionView::Flush(m),
            DaemonActionView::SyncReading(m),
        ],
    }
}

/// The flows of all devices.
pub struct Daemon {
    flows: Vec<DeviceFlow>,
}

impl View for Daemon {
    type V = Seq<FlowView>;

    closed spec fn view(&self) -> Seq<FlowView> {
        Seq::new(self.flows@.len(), |i: int| self.flows@[i]@)
    }
}

impl Daemon {
    /// Every flow keeps its invariant.
    pub closed spec fn wf(&self) -> bool {
        forall|i: int| 0 <= i < self.flows@.len() ==> (#[trigger] self.flows@[i]).wf()
    }

    /// Whatever happened, every piece that waits can be sent, and no more bytes
    /// are on their way to a device than its queue in the kernel holds.
    pub proof fn law_flows_are_bounded(&self, i: int)
        requires
            self.wf(),
            0 <= i < self@.len(),
        ensures
            sendable(self@[i].pending),
            self@[i].inflight <= FIFO_SIZE,
    {
        assert(self.flows@[i].wf());
    }

    /// The flows of so many devices, numbered from zero.
    pub fn new(devices: usize) -> (r: Daemon)
        ensures
            r.wf(),
            r@ == Seq::new(devices as nat, |i: int| idle_flow()),
    {
        let mut flows: Vec<DeviceFlow> = Vec::new();
        while flows.len() < devices
            invariant
                flows@.len() <= devices,
                forall|i: int|
                    0 <= i < flows@.len() ==> (#[trigger] flows@[i])@ == idle_flow()
                        && flows@[i].wf(),
            decreases devices - flows.len(),
        {
            flows.push(DeviceFlow::new());
        }
        let r = Daemon { flows };
        assert(r@ =~= Seq::new(devices as nat, |i: int| idle_flow()));
        r
    }

    /// How many devices there are.
    pub fn devices(&self) -> (r: usize)
        ensures
            r == self@.len(),
    {
        self.flows.len()
    }

    /// The flow of a device.
    pub fn flow(&self, minor: u8) -> (r: &DeviceFlow)
        requires
            minor < self@.len(),
            self.wf(),
        ensures
            r@ == self@[minor as int],
            r.wf(),
    {
        &self.flows[minor as usize]
    }

    /// The flow of a device, to be changed.
    pub fn flow_mut(&mut self, minor: u8) -> (r: &mut DeviceFlow)
        requires
            minor < old(self)@.len(),
            old(self).wf(),
        ensures
            r@ == old(self)@[minor as int],
            r.wf(),
            final(self)@ == old(self)@.update(minor as int, final(r)@),
            final(r).wf() ==> final(self).wf(),
    {
        let r = &mut self.flows[minor as usize];
        r
    }

    /// Serves a request of the driver for one of the devices.
    pub fn on_request(&mut self, request: KernelRequest) -> (r: Vec<DaemonAction>)
        requires
            old(self).wf(),
            request_minor(request@) < old(self)@.len(),
        ensures
            final(self).wf(),
            final(self)@ == old(self)@.update(
                request_minor(request@) as int,
                flow_after(old(self)@[request_minor(request@) as int], request@),
            ),
            daemon_action_views(r@) == request_actions(request@),
    {
        let ghost before = self@;
        let mut out: Vec<DaemonAction> = Vec::new();
        let ghost q = request@;
        match request {
            KernelRequest::Open(minor) => {
                self.flow_mut(minor).reset();
                out.push(DaemonAction::Open(minor));
            },
            KernelRequest::Data(minor, data) => {
                out.push(DaemonAction::Write(minor, data));
                assert(self@ =~= before.update(minor as int, before[minor as int]));
            },
            KernelRequest::Close(minor) => {
                self.flow_mut(minor).reset();
                out.push(DaemonAction::Close(minor));
            },
            KernelRequest::FifoFull(minor) => {
                self.flow_mut(minor).kernel_full();
                out.push(DaemonAction::SyncReading(minor));
            },
            KernelRequest::FifoAvailable(minor) => {
                self.flow_mut(minor).kernel_available();
                out.push(DaemonAction::Flush(minor));
                out.push(DaemonAction::SyncReading(minor));
            },
        }
        assert(daemon_action_views(out@) =~= request_actions(q));
        out
    }

    /// Takes in data of a remote device.
    pub fn on_remote_data(&mut self, minor: u8, data: &[u8]) -> (r: Vec<DaemonAction>)
        requires
            old(self).wf(),
            minor < old(self)@.len(),
        ensures
            final(self).wf(),
            final(self)@ == old(self)@.update(
                minor as int,
                FlowView {
                    pending: old(self)@[minor as int].pending + shards(data@),
                    ..old(self)@[minor as int]
                },
            ),
            daemon_action_views(r@) == seq![
                DaemonActionView::Flush(minor),
                DaemonActionView::SyncReading(minor),
            ],
    {
        self.flow_mut(minor).queue_shards(data);
        let mut out: Vec<DaemonAction> = Vec::new();
        out.push(DaemonAction::Flush(minor));
        out.push(DaemonAction::SyncReading(minor));
        assert(daemon_action_views(out@) =~= seq![
            DaemonActionView::Flush(minor),
            DaemonActionView::SyncReading(minor),
        ]);
        out
    }
}

/// Pieces carry the bytes of both runs one after another.
pub proof fn law_chunks_join(a: Seq<Seq<u8>>, b: Seq<Seq<u8>>)
    ensures
        joined_chunks(a + b) == joined_chunks(a) + joined_chunks(b),
    decreases a.len(),
{
    if a.len() == 0 {
        assert(a + b =~= b);
        assert(Seq::<u8>::empty() + joined_chunks(b) =~= joined_chunks(b));
    } else {
        law_chunks_join(a.skip(1), b);
        assert((a + b).skip(1) =~= a.skip(1) + b);
        assert((a + b)[0] == a[0]);
        assert(a[0] + (joined_chunks(a.skip(1)) + joined_chunks(b)) =~= joined_chunks(a)
            + joined_chunks(b));
    }
}

/// Cutting loses nothing: the pieces put together are the data, and each can
/// be sent.
pub proof fn law_shards(data: Seq<u8>)
    ensures
        joined_chunks(shards(data)) == data,
        sendable(shards(data)),
    decreases data.len(),
{
    if data.len() == 0 {
    } else if data.len() <= SHARD_SIZE {
        assert(shards(data).skip(1) =~= Seq::<Seq<u8>>::empty());
        assert(joined_chunks(shards(data).skip(1)) =~= Seq::<u8>::empty());
        assert(data + Seq::<u8>::empty() =~= data);
    } else {
        let head = data.take(SHARD_SIZE as int);
        let tail = shards(data.skip(SHARD_SIZE as int));
        law_shards(data.skip(SHARD_SIZE as int));
        assert(shards(data).skip(1) =~= tail);
        assert(head + data.skip(SHARD_SIZE as int) =~= data);
        assert forall|i: int| 0 <= i < shards(data).len() implies 1 <= (#[trigger] shards(
            data,
        )[i]).len() && shards(data)[i].len() <= SHARD_SIZE by {
            if i > 0 {
                assert(shards(data)[i] == tail[i - 1]);
            }
        }
    }
}

/// Data that is queued waits behind everything that waited before.
pub proof fn law_queued_data_waits(pending: Seq<Seq<u8>>, data: Seq<u8>)
    ensures
        joined_chunks(pending + shards(data)) == joined_chunks(pending) + data,
{
    law_chunks_join(pending, shards(data));
    law_shards(data);
}

/// A piece that was taken and could not be sent is in its place again.
pub proof fn law_failed_send_loses_nothing(f: FlowView)
    requires
        f.pending.len() > 0,
    ensures
        seq![f.pending[0]] + f.pending.skip(1) == f.pending,
{
    assert(seq![f.pending[0]] + f.pending.skip(1) =~= f.pending);
}

/// A flow after the next piece was sent.
pub open spec fn sent_one(f: FlowView) -> FlowView {
    FlowView {
        pending: f.pending.skip(1),
        inflight: f.inflight + f.pending[0].len(),
        ..f
    }
}

/// A flow after as many pieces were sent as may be, and those pieces.
pub open spec fn flushed(f: FlowView) -> (FlowView, Seq<Seq<u8>>)
    decreases f.pending.len(),
{
    if may_send(f) {
        let rest = flushed(sent_one(f));
        (rest.0, seq![f.pending[0]] + rest.1)
    } else {
        (f, Seq::empty())
    }
}

/// Flushing keeps every byte and their order: what was sent and what still
/// waits is what waited before. No more bytes get on their way than the queue
/// in the kernel holds, nothing is sent while the kernel has no room, and
/// afterwards nothing more may be sent.
pub proof fn law_flush(f: FlowView)
    requires
        sendable(f.pending),
        f.inflight <= FIFO_HIGH_WATERMARK + SHARD_SIZE,
    ensures
        joined_chunks(flushed(f).1) + joined_chunks(flushed(f).0.pending) == joined_chunks(
            f.pending,
        ),
        flushed(f).0.inflight == f.inflight + joined_chunks(flushed(f).1).len(),
        flushed(f).0.inflight <= FIFO_SIZE,
        f.paused ==> flushed(f).1.len() == 0,
        !may_send(flushed(f).0),
    decreases f.pending.len(),
{
    if may_send(f) {
        let next = sent_one(f);
        assert(f.pending[0].len() <= SHARD_SIZE);
        assert(sendable(next.pending)) by {
            assert forall|i: int| 0 <= i < next.pending.len() implies 1 <= (
            #[trigger] next.pending[i]).len() && next.pending[i].len() <= SHARD_SIZE by {
                assert(next.pending[i] == f.pending[i + 1]);
            }
        }
        law_flush(next);
        let rest = flushed(next);
        let sent = seq![f.pending[0]] + rest.1;
        assert(sent.skip(1) =~= rest.1);
        assert(joined_chunks(sent) == f.pending[0] + joined_chunks(rest.1));
        assert((f.pending[0] + joined_chunks(rest.1)) + joined_chunks(rest.0.pending)
            =~= f.pending[0] + (joined_chunks(rest.1) + joined_chunks(rest.0.pending)));
    } else {
        assert(Seq::<u8>::empty() + joined_chunks(f.pending) =~= joined_chunks(f.pending));
    }
}

/// Once reading follows the flow, it rests exactly while the kernel has no
/// room or pieces wait, and nothing has to change.
pub proof fn law_reading_follows(f: FlowView)
    ensures
        ({
            let g = FlowView { read_paused: should_rest(f), ..f };
            g.read_paused == (g.paused || g.pending.len() > 0) && g.read_paused == should_rest(g)
        }),
{
}

/// A device that is opened or closed starts over; the flows of the others stay
/// as they are.
pub proof fn law_devices_are_apart(flows: Seq<FlowView>, q: KernelRequestView, other: int)
    requires
        request_minor(q) < flows.len(),
        0 <= other < flows.len(),
        other != request_minor(q),
    ensures
        flows.update(
            request_minor(q) as int,
            flow_after(flows[request_minor(q) as int], q),
        )[other] == flows[other],
{
}

/// Opening a device and closing it both start its flow over, whatever went on
/// before: the kernel has room, nothing is on its way, reading goes on, and
/// nothing waits.
pub proof fn law_open_and_close_start_over(f: FlowView, minor: u8)
    ensures
        forall|q: KernelRequestView|
            q == KernelRequestView::Open(minor) || q == KernelRequestView::Close(minor) ==> {
                let g = #[trigger] flow_after(f, q);
                !g.paused && g.inflight == 0 && !g.read_paused && g.pending.len() == 0
            },
{
}

/// Data that comes after a device was opened goes to the kernel at once, from
/// its first byte on, and all of it if it fits below the mark.
pub proof fn law_data_flows_after_open(f: FlowView, minor: u8, data: Seq<u8>)
    requires
        data.len() > 0,
    ensures
        ({
            let opened = flow_after(f, KernelRequestView::Open(minor));
            let g = FlowView { pending: opened.pending + shards(data), ..opened };
            &&& may_send(g)
            &&& g.pending[0].len() > 0 && g.pending[0] == data.take(g.pending[0].len() as int)
            &&& flushed(g).1.len() > 0
            &&& data.len() <= 3276 ==> joined_chunks(flushed(g).1) == data
        }),
{
    let opened = flow_after(f, KernelRequestView::Open(minor));
    let g = FlowView { pending: opened.pending + shards(data), ..opened };
    assert(g.pending =~= shards(data));
    law_shards(data);
    law_flush(g);
    assert(joined_chunks(g.pending) == g.pending[0] + joined_chunks(g.pending.skip(1)));
    assert(g.pending[0] =~= data.take(g.pending[0].len() as int));
    if data.len() <= 3276 {
        let rest = flushed(g).0;
        lemma_flush_only_sends(g);
        if rest.pending.len() > 0 {
            lemma_joined_covers(rest.pending);
        }
        assert(joined_chunks(flushed(g).1) + Seq::<u8>::empty() =~= joined_chunks(flushed(g).1));
    }
}

proof fn lemma_flush_only_sends(f: FlowView)
    requires
        sendable(f.pending),
    ensures
        flushed(f).0.paused == f.paused,
        flushed(f).0.read_paused == f.read_paused,
        sendable(flushed(f).0.pending),
    decreases f.pending.len(),
{
    if may_send(f) {
        let next = sent_one(f);
        assert forall|i: int| 0 <= i < next.pending.len() implies 1 <= (
        #[trigger] next.pending[i]).len() && next.pending[i].len() <= SHARD_SIZE by {
            assert(next.pending[i] == f.pending[i + 1]);
        }
        lemma_flush_only_sends(next);
    }
}

proof fn lemma_joined_covers(chunks: Seq<Seq<u8>>)
    requires
        chunks.len() > 0,
        sendable(chunks),
    ensures
        joined_chunks(chunks).len() >= chunks[0].len(),
        joined_chunks(chunks).len() >= 1,
{
}

/// The kernel stops the flow of a device and lets it go on: in between nothing
/// is sent and everything waits; afterwards as much may be on its way as
/// before the first byte.
pub proof fn law_full_then_available(f: FlowView, minor: u8)
    ensures
        ({
            let full = flow_after(f, KernelRequestView::FifoFull(minor));
            let again = flow_after(full, KernelRequestView::FifoAvailable(minor));
            &&& full.paused && full.pending == f.pending && full.inflight == f.inflight
                && full.read_paused == f.read_paused
            &&& flushed(full) == (full, Seq::<Seq<u8>>::empty())
            &&& !again.paused && again.inflight == 0 && again.pending == f.pending
                && again.read_paused == f.read_paused
            &&& f.pending.len() > 0 ==> may_send(again)
        }),
{
}

/// Data of the user goes to the remote device and leaves the flow from it
/// alone.
pub proof fn law_writes_leave_flow(f: FlowView, minor: u8, data: Seq<u8>)
    ensures
        flow_after(f, KernelRequestView::Data(minor, data)) == f,
        request_actions(KernelRequestView::Data(minor, data)) == seq![
            DaemonActionView::Write(minor, data),
        ],
{
}

/// Every request is served for the device that it names and no other: opening
/// connects it, closing closes it, and whenever the room in the kernel
/// changes, reading is made to follow, after what waits was sent.
pub proof fn law_requests_are_served(minor: u8, data: Seq<u8>)
    ensures
        request_actions(KernelRequestView::Open(minor)) == seq![DaemonActionView::Open(minor)],
        request_actions(KernelRequestView::Close(minor)) == seq![DaemonActionView::Close(minor)],
        request_actions(KernelRequestView::FifoFull(minor)).last()
            == DaemonActionView::SyncReading(minor),
        request_actions(KernelRequestView::FifoFull(minor)).len() == 1,
        request_actions(KernelRequestView::FifoAvailable(minor)) == seq![
            DaemonActionView::Flush(minor),
            DaemonActionView::SyncReading(minor),
        ],
        request_minor(KernelRequestView::Open(minor)) == minor,
        request_minor(KernelRequestView::Close(minor)) == minor,
        request_minor(KernelRequestView::FifoFull(minor)) == minor,
        request_minor(KernelRequestView::FifoAvailable(minor)) == minor,
        request_minor(KernelRequestView::Data(minor, data)) == minor,
{
}

/// A message of the driver is read by its type; its first byte names the
/// device, the others are the data, and what is no request is none.
pub proof fn law_messages_are_requests(msg_type: u16, minor: u8, data: Seq<u8>)
    ensures
        ({
            let q = requested(msg_type, seq![minor] + data);
            &&& msg_type == 1 <==> q == Some(KernelRequestView::Open(minor))
            &&& msg_type == 3 <==> q == Some(KernelRequestView::Data(minor, data))
            &&& msg_type == 4 <==> q == Some(KernelRequestView::Close(minor))
            &&& msg_type == 7 <==> q == Some(KernelRequestView::FifoFull(minor))
            &&& msg_type == 8 <==> q == Some(KernelRequestView::FifoAvailable(minor))
            &&& q is None <==> !is_request(msg_type)
            &&& is_request(msg_type) <==> msg_type == 1 || msg_type == 3 || msg_type == 4
                || msg_type == 7 || msg_type == 8
        }),
{
    assert((seq![minor] + data).skip(1) =~= data);
}

/// Reading from the remote device rests exactly while the kernel has no room
/// or something waits.
pub proof fn law_when_reading_rests(f: FlowView)
    ensures
        f.paused ==> should_rest(f),
        joined_chunks(f.pending).len() > 0 ==> should_rest(f),
        !f.paused && f.pending.len() == 0 ==> !should_rest(f),
{
}

/// Sending goes on until the mark is passed: what stops it is the kernel, a
/// queue that is four fifths full, or that nothing waits.
pub proof fn law_what_stops_a_flush(f: FlowView)
    requires
        sendable(f.pending),
    ensures
        ({
            let g = flushed(f).0;
            &&& g.paused || g.inflight > 3276 || g.pending.len() == 0
            &&& g.paused == f.paused && g.read_paused == f.read_paused
            &&& !f.paused && f.inflight <= 3276 && f.pending.len() > 0 ==> flushed(f).1.len() > 0
                && flushed(f).1[0] == f.pending[0]
            &&& f.inflight > 3276 ==> flushed(f).1.len() == 0
        }),
    decreases f.pending.len(),
{
    lemma_flush_only_sends(f);
    lemma_flush_stops(f);
}

proof fn lemma_flush_stops(f: FlowView)
    ensures
        !may_send(flushed(f).0),
    decreases f.pending.len(),
{
    if may_send(f) {
        lemma_flush_stops(sent_one(f));
    }
}

/// Data is cut into as few pieces as can be: every piece but the last is as
/// long as a piece may be, a fifth of the queue.
pub proof fn law_pieces_are_full(data: Seq<u8>, i: int)
    requires
        0 <= i < shards(data).len(),
    ensures
        i + 1 < shards(data).len() ==> shards(data)[i].len() == 819,
        shards(data).len() == (data.len() + 818) / 819,
    decreases data.len(),
{
    if data.len() > SHARD_SIZE {
        let rest = data.skip(SHARD_SIZE as int);
        if i > 0 {
            law_pieces_are_full(rest, i - 1);
        } else {
            law_pieces_are_full(rest, 0);
        }
    }
}

} // verus!
