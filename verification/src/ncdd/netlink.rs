//! Messages between the daemon and the kernel driver.
//!
//! A message is a header of sixteen bytes, a payload, and padding up to a
//! multiple of four bytes. The numbers in the header stand in the byte order
//! of the machine.
use crate::wire::{copy_range, push_bytes};
use vstd::prelude::*;
use vstd::utf8::encode_utf8;

verus! {

/// Daemon to driver: here I am.
pub const NCD_MSG_REGISTER: u16 = 0;

/// Driver to daemon: a device is opened, connect it.
pub const NCD_MSG_OPEN_REQ: u16 = 1;

/// Daemon to driver: whether the device could be connected.
pub const NCD_MSG_CONN_RES: u16 = 2;

/// Both ways: data.
pub const NCD_MSG_DATA: u16 = 3;

/// Driver to daemon: a device is closed.
pub const NCD_MSG_CLOSE_REQ: u16 = 4;

/// Daemon to driver: create a device.
pub const NCD_MSG_CREATE_DEV: u16 = 5;

/// Daemon to driver: destroy a device.
pub const NCD_MSG_DESTROY_DEV: u16 = 6;

/// Driver to daemon: the queue of a device is full, stop sending.
pub const NCD_MSG_KFIFO_FULL: u16 = 7;

/// Driver to daemon: the queue of a device has room again.
pub const NCD_MSG_KFIFO_AVAILABLE: u16 = 8;

/// Length of the header, in bytes.
pub const NLMSG_HDRLEN: usize = 16;

/// Room for a message of the driver, in bytes.
pub const RECV_BUF_SIZE: usize = 64 * 1024 + 1024;

/// The byte order of a machine.
#[derive(Debug, Clone, Copy, PartialEq, Eq, Structural)]
pub enum ByteOrder {
    Little,
    Big,
}

/// A message to the driver.
#[derive(Debug, PartialEq, Eq)]
pub struct KernelMessage {
    pub msg_type: u16,
    pub payload: Vec<u8>,
}

/// Why bytes of the driver are no message.
#[derive(Debug, Clone, Copy, PartialEq, Eq, Structural)]
pub enum NetlinkError {
    /// The message was longer than the room for it.
    Truncated,
    /// There is no complete header.
    Short,
    /// The header claims less than its own length.
    BogusLength,
}

/// The text of a failure.
pub open spec fn netlink_message(e: NetlinkError) -> Seq<char> {
    match e {
        NetlinkError::Truncated => "truncated netlink message"@,
        NetlinkError::Short => "short netlink message"@,
        NetlinkError::BogusLength => "bogus nlmsg_len"@,
    }
}

impl NetlinkError {
    /// The text shown to a person.
    pub fn message(self) -> (r: String)
        ensures
            r@ == netlink_message(self),
    {
        match self {
            NetlinkError::Truncated => "truncated netlink message".to_owned(),
            NetlinkError::Short => "short netlink message".to_owned(),
            NetlinkError::BogusLength => "bogus nlmsg_len".to_owned(),
        }
    }
}

/// The bytes of a 16 bit number.
pub open spec fn bytes16(order: ByteOrder, v: u16) -> Seq<u8> {
    match order {
        ByteOrder::Little => seq![(v % 256) as u8, (v / 256) as u8],
        ByteOrder::Big => seq![(v / 256) as u8, (v % 256) as u8],
    }
}

/// The bytes of a 32 bit number.
pub open spec fn bytes32(order: ByteOrder, v: u32) -> Seq<u8> {
    let low = (v % 0x1_0000) as u16;
    let high = (v / 0x1_0000) as u16;
    match order {
        ByteOrder::Little => bytes16(order, low) + bytes16(order, high),
        ByteOrder::Big => bytes16(order, high) + bytes16(order, low),
    }
}

/// The 16 bit number at `at`.
pub open spec fn number16(order: ByteOrder, s: Seq<u8>, at: int) -> nat {
    match order {
        ByteOrder::Little => s[at] as nat + 256 * (s[at + 1] as nat),
        ByteOrder::Big => 256 * (s[at] as nat) + s[at + 1] as nat,
    }
}

/// The 32 bit number at `at`.
pub open spec fn number32(order: ByteOrder, s: Seq<u8>, at: int) -> nat {
    match order {
        ByteOrder::Little => number16(order, s, at) + 0x1_0000 * number16(order, s, at + 2),
        ByteOrder::Big => 0x1_0000 * number16(order, s, at) + number16(order, s, at + 2),
    }
}

/// The next multiple of four.
pub open spec fn aligned(n: nat) -> nat {
    ((n + 3) / 4 * 4) as nat
}

/// The header of a message of this length, type and sender.
pub open spec fn netlink_header(order: ByteOrder, length: u32, msg_type: u16, pid: u32) -> Seq<u8> {
    bytes32(order, length) + bytes16(order, msg_type) + bytes16(order, 0) + bytes32(order, 0)
        + bytes32(order, pid)
}

/// So many zero bytes.
pub open spec fn zeros(n: nat) -> Seq<u8> {
    Seq::new(n, |i: int| 0u8)
}

/// A message as it is sent.
pub open spec fn netlink_bytes(order: ByteOrder, msg_type: u16, payload: Seq<u8>, pid: u32) -> Seq<
    u8,
> {
    let length = NLMSG_HDRLEN as nat + payload.len();
    netlink_header(order, length as u32, msg_type, pid) + payload + zeros(
        (aligned(length) - length) as nat,
    )
}

/// What bytes of the driver mean: the type of the message and its payload. A
/// payload that did not arrive whole counts as empty.
pub open spec fn netlink_parsed(order: ByteOrder, received: Seq<u8>, truncated: bool) -> Result<
    (u16, Seq<u8>),
    NetlinkError,
> {
    if truncated {
        Err(NetlinkError::Truncated)
    } else if received.len() < NLMSG_HDRLEN {
        Err(NetlinkError::Short)
    } else if number32(order, received, 0) < NLMSG_HDRLEN {
        Err(NetlinkError::BogusLength)
    } else {
        let length = number32(order, received, 0) as int;
        Ok(
            (
                number16(order, received, 4) as u16,
                if length <= received.len() {
                    received.subrange(NLMSG_HDRLEN as int, length)
                } else {
                    Seq::empty()
                },
            ),
        )
    }
}

/// The next multiple of four.
pub fn nlmsg_align(len: usize) -> (r: usize)
    requires
        len + 3 <= usize::MAX,
    ensures
        r == aligned(len as nat),
{
    (len + 3) / 4 * 4
}

fn push16(buf: &mut Vec<u8>, order: ByteOrder, v: u16)
    ensures
        final(buf)@ == old(buf)@ + bytes16(order, v),
{
    let ghost before = buf@;
    let low: u8 = (v % 256) as u8;
    let high: u8 = (v / 256) as u8;
    match order {
        ByteOrder::Little => {
            buf.push(low);
            buf.push(high);
        },
        ByteOrder::Big => {
            buf.push(high);
            buf.push(low);
        },
    }
    assert(buf@ =~= before + bytes16(order, v));
}

fn push32(buf: &mut Vec<u8>, order: ByteOrder, v: u32)
    ensures
        final(buf)@ == old(buf)@ + bytes32(order, v),
{
    let ghost before = buf@;
    let low: u16 = (v % 0x1_0000) as u16;
    let high: u16 = (v / 0x1_0000) as u16;
    match order {
        ByteOrder::Little => {
            push16(buf, order, low);
            push16(buf, order, high);
        },
        ByteOrder::Big => {
            push16(buf, order, high);
            push16(buf, order, low);
        },
    }
    assert(buf@ =~= before + bytes32(order, v));
}

fn read16(src: &[u8], order: ByteOrder, at: usize) -> (r: u16)
    requires
        at + 2 <= src.len(),
    ensures
        r as nat == number16(order, src@, at as int),
{
    match order {
        ByteOrder::Little => src[at] as u16 + 256 * (src[at + 1] as u16),
        ByteOrder::Big => 256 * (src[at] as u16) + src[at + 1] as u16,
    }
}

fn read32(src: &[u8], order: ByteOrder, at: usize) -> (r: u32)
    requires
        at + 4 <= src.len(),
    ensures
        r as nat == number32(order, src@, at as int),
{
    let first: u32 = read16(src, order, at) as u32;
    let second: u32 = read16(src, order, at + 2) as u32;
    match order {
        ByteOrder::Little => first + 0x1_0000 * second,
        ByteOrder::Big => 0x1_0000 * first + second,
    }
}

/// Builds the bytes of a message; `pid` names the sender.
pub fn build_message(order: ByteOrder, msg_type: u16, payload: &[u8], pid: u32) -> (r: Vec<u8>)
    requires
        payload@.len() + NLMSG_HDRLEN + 3 <= u32::MAX,
    ensures
        r@ == netlink_bytes(order, msg_type, payload@, pid),
        r@.len() % 4 == 0,
{
    let data_len: usize = NLMSG_HDRLEN + payload.len();
    let aligned_len: usize = nlmsg_align(data_len);
    let mut buf: Vec<u8> = Vec::with_capacity(aligned_len);
    push32(&mut buf, order, data_len as u32);
    push16(&mut buf, order, msg_type);
    push16(&mut buf, order, 0);
    push32(&mut buf, order, 0);
    push32(&mut buf, order, pid);
    assert(buf@ =~= netlink_header(order, data_len as u32, msg_type, pid));
    push_bytes(&mut buf, payload);
    let ghost front = buf@;
    assert(front.len() == data_len);
    while buf.len() < aligned_len
        invariant
            data_len <= buf@.len() <= aligned_len,
            data_len == front.len(),
            buf@ == front + zeros((buf@.len() - data_len) as nat),
        decreases aligned_len - buf.len(),
    {
        buf.push(0);
        assert(buf@ =~= front + zeros((buf@.len() - data_len) as nat));
    }
    buf
}

/// Reads a message of the driver. `truncated` says that it was longer than the
/// room for it.
pub fn parse_message(order: ByteOrder, received: &[u8], truncated: bool) -> (r: Result<
    (u16, Vec<u8>),
    NetlinkError,
>)
    ensures
        match r {
            Ok((msg_type, payload)) => netlink_parsed(order, received@, truncated) == Ok::<
                (u16, Seq<u8>),
                NetlinkError,
            >((msg_type, payload@)),
            Err(e) => netlink_parsed(order, received@, truncated) == Err::<
                (u16, Seq<u8>),
                NetlinkError,
            >(e),
        },
{
    if truncated {
        return Err(NetlinkError::Truncated);
    }
    if received.len() < NLMSG_HDRLEN {
        return Err(NetlinkError::Short);
    }
    let length: u32 = read32(received, order, 0);
    if length < NLMSG_HDRLEN as u32 {
        return Err(NetlinkError::BogusLength);
    }
    let msg_type: u16 = read16(received, order, 4);
    let payload: Vec<u8> = if length as u64 <= received.len() as u64 {
        copy_range(received, NLMSG_HDRLEN, length as usize)
    } else {
        Vec::new()
    };
    Ok((msg_type, payload))
}

/// The message that registers the daemon with the driver. It comes first.
pub fn register() -> (r: KernelMessage)
    ensures
        r.msg_type == NCD_MSG_REGISTER,
        r.payload@ == Seq::<u8>::empty(),
{
    KernelMessage { msg_type: NCD_MSG_REGISTER, payload: Vec::new() }
}

/// The message that asks the driver for a device node of this name.
pub fn create_device(name: &str) -> (r: KernelMessage)
    ensures
        r.msg_type == NCD_MSG_CREATE_DEV,
        r.payload@ == encode_utf8(name@),
{
    KernelMessage { msg_type: NCD_MSG_CREATE_DEV, payload: name.as_bytes_vec() }
}

/// The message that asks the driver to destroy a device node.
pub fn destroy_device(minor: u8) -> (r: KernelMessage)
    ensures
        r.msg_type == NCD_MSG_DESTROY_DEV,
        r.payload@ == seq![minor],
{
    let payload: Vec<u8> = vec![minor];
    assert(payload@ =~= seq![minor]);
    KernelMessage { msg_type: NCD_MSG_DESTROY_DEV, payload }
}

/// The message that tells the driver whether a device is connected.
pub fn conn_result(minor: u8, success: bool) -> (r: KernelMessage)
    ensures
        r.msg_type == NCD_MSG_CONN_RES,
        r.payload@ == seq![
            minor,
            if success {
                '1' as u8
            } else {
                '0' as u8
            },
        ],
{
    let answer: u8 = if success {
        0x31
    } else {
        0x30
    };
    let payload: Vec<u8> = vec![minor, answer];
    assert(payload@ =~= seq![minor, answer]);
    KernelMessage { msg_type: NCD_MSG_CONN_RES, payload }
}

/// The message that hands data to the driver.
pub fn data_message(minor: u8, data: &[u8]) -> (r: KernelMessage)
    ensures
        r.msg_type == NCD_MSG_DATA,
        r.payload@ == seq![minor] + data@,
{
    let mut payload: Vec<u8> = Vec::new();
    payload.push(minor);
    assert(payload@ =~= seq![minor]);
    push_bytes(&mut payload, data);
    KernelMessage { msg_type: NCD_MSG_DATA, payload }
}

/// A message that is built in one byte order is read back in it: type and
/// payload come out as they went in.
pub proof fn law_netlink_roundtrip(order: ByteOrder, msg_type: u16, payload: Seq<u8>, pid: u32)
    requires
        payload.len() + NLMSG_HDRLEN + 3 <= u32::MAX,
    ensures
        netlink_parsed(order, netlink_bytes(order, msg_type, payload, pid), false) == Ok::<
            (u16, Seq<u8>),
            NetlinkError,
        >((msg_type, payload)),
{
    let length = NLMSG_HDRLEN as nat + payload.len();
    let header = netlink_header(order, length as u32, msg_type, pid);
    let b = netlink_bytes(order, msg_type, payload, pid);
    assert(header.len() == 16);
    assert forall|i: int| 0 <= i < 4 implies b[i] == bytes32(order, length as u32)[i] by {}
    assert forall|i: int| 0 <= i < 2 implies b[4 + i] == bytes16(order, msg_type)[i] by {}
    assert(b.subrange(16, length as int) =~= payload);
    assert(b[0] == bytes32(order, length as u32)[0]);
    assert(b[1] == bytes32(order, length as u32)[1]);
    assert(b[2] == bytes32(order, length as u32)[2]);
    assert(b[3] == bytes32(order, length as u32)[3]);
    assert(b[4] == bytes16(order, msg_type)[0]);
    assert(b[5] == bytes16(order, msg_type)[1]);
    assert(number32(order, b, 0) == length);
    assert(number16(order, b, 4) == msg_type);
}

/// Where everything stands in a message, in the byte order of the machine: the
/// length without padding in the first four bytes, the type in the two behind,
/// then zeros up to the sender, and then the payload. Zeros pad the message to
/// a multiple of four bytes.
pub proof fn law_message_layout(msg_type: u16, payload: Seq<u8>, pid: u32, i: int)
    requires
        payload.len() + 19 <= u32::MAX,
    ensures
        ({
            let le = netlink_bytes(ByteOrder::Little, msg_type, payload, pid);
            let be = netlink_bytes(ByteOrder::Big, msg_type, payload, pid);
            let total = 16 + payload.len();
            &&& le.len() % 4 == 0 && total <= le.len() < total + 4 && be.len() == le.len()
            &&& le[0] + 256 * (le[1] + 256 * (le[2] + 256 * le[3])) == total
            &&& be[3] + 256 * (be[2] + 256 * (be[1] + 256 * be[0])) == total
            &&& le[4] + 256 * le[5] == msg_type
            &&& be[5] + 256 * be[4] == msg_type
            &&& le[12] + 256 * (le[13] + 256 * (le[14] + 256 * le[15])) == pid
            &&& be[15] + 256 * (be[14] + 256 * (be[13] + 256 * be[12])) == pid
            &&& 6 <= i < 12 ==> le[i] == 0 && be[i] == 0
            &&& 0 <= i < payload.len() ==> le[16 + i] == payload[i] && be[16 + i] == payload[i]
            &&& total <= i < le.len() ==> le[i] == 0 && be[i] == 0
        }),
{
    let length = (16 + payload.len()) as u32;
    lemma_bytes_of_number(length);
    lemma_bytes_of_number(pid);
    lemma_bytes_of_number(0);
    assert(aligned((16 + payload.len()) as nat) - (16 + payload.len()) < 4);
    lemma_header_positions(ByteOrder::Little, length, msg_type, pid);
    lemma_header_positions(ByteOrder::Big, length, msg_type, pid);
    let le = netlink_bytes(ByteOrder::Little, msg_type, payload, pid);
    let be = netlink_bytes(ByteOrder::Big, msg_type, payload, pid);
    let hl = netlink_header(ByteOrder::Little, length, msg_type, pid);
    let hb = netlink_header(ByteOrder::Big, length, msg_type, pid);
    assert(forall|k: int| 0 <= k < 16 ==> le[k] == hl[k] && be[k] == hb[k]);
}

proof fn lemma_header_positions(order: ByteOrder, length: u32, msg_type: u16, pid: u32)
    ensures
        ({
            let h = netlink_header(order, length, msg_type, pid);
            &&& h.len() == 16
            &&& forall|k: int| 0 <= k < 4 ==> #[trigger] h[k] == bytes32(order, length)[k]
            &&& h[4] == bytes16(order, msg_type)[0] && h[5] == bytes16(order, msg_type)[1]
            &&& forall|k: int| 6 <= k < 12 ==> #[trigger] h[k] == 0
            &&& forall|k: int| 12 <= k < 16 ==> #[trigger] h[k] == bytes32(order, pid)[k - 12]
        }),
{
}

proof fn lemma_bytes_of_number(v: u32)
    ensures
        ({
            let le = bytes32(ByteOrder::Little, v);
            let be = bytes32(ByteOrder::Big, v);
            &&& le.len() == 4 && be.len() == 4
            &&& le[0] + 256 * (le[1] + 256 * (le[2] + 256 * le[3])) == v
            &&& be[3] + 256 * (be[2] + 256 * (be[1] + 256 * be[0])) == v
        }),
{
    let low = (v % 0x1_0000) as u16;
    let high = (v / 0x1_0000) as u16;
    let le = bytes32(ByteOrder::Little, v);
    let be = bytes32(ByteOrder::Big, v);
    assert(le[0] == (low % 256) as u8 && le[1] == (low / 256) as u8);
    assert(le[2] == (high % 256) as u8 && le[3] == (high / 256) as u8);
    assert(be[0] == (high / 256) as u8 && be[1] == (high % 256) as u8);
    assert(be[2] == (low / 256) as u8 && be[3] == (low % 256) as u8);
    assert(le[0] + 256 * le[1] == low);
    assert(le[2] + 256 * le[3] == high);
    assert(be[3] + 256 * be[2] == low);
    assert(be[1] + 256 * be[0] == high);
    assert(v == low + 0x1_0000 * high);
}

/// Which bytes are a message: a whole header whose length is at least its own.
/// The type stands behind the length. A payload that did not come whole counts
/// as empty. A message that was cut off is refused, and so is one without a
/// whole header or with a length that cannot be.
pub proof fn law_what_is_a_message(received: Seq<u8>, truncated: bool)
    ensures
        ({
            let r = netlink_parsed(ByteOrder::Little, received, truncated);
            let length = received[0] + 256 * (received[1] + 256 * (received[2] + 256
                * received[3]));
            &&& truncated ==> r == Err::<(u16, Seq<u8>), NetlinkError>(NetlinkError::Truncated)
            &&& !truncated && received.len() < 16 ==> r == Err::<(u16, Seq<u8>), NetlinkError>(
                NetlinkError::Short,
            )
            &&& !truncated && received.len() >= 16 && length < 16 ==> r == Err::<
                (u16, Seq<u8>),
                NetlinkError,
            >(NetlinkError::BogusLength)
            &&& !truncated && received.len() >= 16 && length >= 16 ==> {
                &&& r is Ok
                &&& r->Ok_0.0 == received[4] + 256 * received[5]
                &&& length <= received.len() ==> r->Ok_0.1 == received.subrange(16, length as int)
                &&& length > received.len() ==> r->Ok_0.1.len() == 0
            }
        }),
{
    let n = number32(ByteOrder::Little, received, 0);
    assert(n == received[0] + 256 * (received[1] + 256 * (received[2] + 256 * received[3])));
}

/// Each failure has a text of its own.
pub proof fn law_texts_differ(a: NetlinkError, b: NetlinkError)
    ensures
        netlink_message(a) == netlink_message(b) ==> a == b,
{
    reveal_strlit("truncated netlink message");
    reveal_strlit("short netlink message");
    reveal_strlit("bogus nlmsg_len");
    assert("truncated netlink message"@.len() == 25);
    assert("short netlink message"@.len() == 21);
    assert("bogus nlmsg_len"@.len() == 15);
}

} // verus!
