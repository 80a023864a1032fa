use ncd::ncdd::config::get_config_path;
use ncd::ncdd::device::{
    Device, DeviceOperationError, DeviceTask, TaskAction, TaskEvent, WriteCommand,
};
use ncd::ncdd::driver::{module_loaded, LoadStep};
use ncd::ncdd::netlink::{
    build_message, conn_result, create_device, data_message, destroy_device, nlmsg_align,
    parse_message, register, ByteOrder, KernelMessage, NetlinkError, NCD_MSG_CLOSE_REQ,
    NCD_MSG_CONN_RES, NCD_MSG_CREATE_DEV, NCD_MSG_DATA, NCD_MSG_DESTROY_DEV,
    NCD_MSG_KFIFO_AVAILABLE, NCD_MSG_KFIFO_FULL, NCD_MSG_OPEN_REQ, NCD_MSG_REGISTER,
};
use ncd::ncdd::start::{
    kernel_request, Daemon, DaemonAction, DeviceFlow, KernelRequest, FIFO_HIGH_WATERMARK,
    FIFO_LOW_WATERMARK, FIFO_SIZE, SHARD_SIZE,
};
use ncd::runtime::net::IpAddress;

#[test]
fn watermarks() {
    assert_eq!((FIFO_SIZE, FIFO_HIGH_WATERMARK), (4096, 3276));
    assert_eq!((FIFO_LOW_WATERMARK, SHARD_SIZE), (819, 819));
}

#[test]
fn data_is_cut_into_shards() {
    let mut flow = DeviceFlow::new();
    let data: Vec<u8> = (0..2000u32).map(|i| i as u8).collect();
    flow.queue_shards(&data);
    assert_eq!(flow.waiting(), 3);
    let mut joined = vec![];
    let mut sizes = vec![];
    while let Some(chunk) = flow.next_chunk() {
        flow.chunk_sent(chunk.len());
        sizes.push(chunk.len());
        joined.extend(chunk);
    }
    assert_eq!(sizes, vec![819, 819, 362]);
    assert_eq!(joined, data);
    flow.queue_shards(&[]);
    assert_eq!(flow.waiting(), 0);
}

#[test]
fn flushing_stops_above_the_high_watermark() {
    let mut flow = DeviceFlow::new();
    flow.queue_shards(&vec![7; 10 * SHARD_SIZE]);
    let mut sent = 0;
    while let Some(chunk) = flow.next_chunk() {
        flow.chunk_sent(chunk.len());
        sent += chunk.len();
    }
    // Four pieces make 3276 bytes, which is not above the watermark yet.
    assert_eq!(sent, 5 * SHARD_SIZE);
    assert!(sent <= FIFO_SIZE);
    assert_eq!(flow.waiting(), 5);
    flow.kernel_available();
    assert!(flow.next_chunk().is_some());
}

#[test]
fn a_piece_that_could_not_be_sent_is_next_again() {
    let mut flow = DeviceFlow::new();
    flow.queue_shards(b"abc");
    flow.queue_shards(b"def");
    let chunk = flow.next_chunk().unwrap();
    flow.chunk_failed(chunk);
    assert_eq!(flow.next_chunk().unwrap(), b"abc");
    assert_eq!(flow.next_chunk().unwrap(), b"def");
}

#[test]
fn reading_rests_while_the_kernel_has_no_room() {
    let mut flow = DeviceFlow::new();
    assert_eq!(flow.reading_change(), None);
    flow.kernel_full();
    assert!(flow.is_paused());
    assert_eq!(flow.reading_change(), Some(true));
    flow.reading_changed(true);
    assert_eq!(flow.reading_change(), None);
    flow.queue_shards(b"x");
    assert!(flow.next_chunk().is_none());
    flow.kernel_available();
    assert_eq!(flow.reading_change(), None); // a piece still waits
    flow.next_chunk().unwrap();
    assert_eq!(flow.reading_change(), Some(false));
    flow.reading_changed(false);
    assert_eq!(flow.reading_change(), None);
}

#[test]
fn daemon_serves_requests_of_the_driver() {
    let mut daemon = Daemon::new(2);
    assert_eq!(daemon.devices(), 2);
    let ask = |t: u16, p: &[u8]| kernel_request(t, p).unwrap();
    assert_eq!(
        daemon.on_request(ask(NCD_MSG_OPEN_REQ, &[1])),
        vec![DaemonAction::Open(1)]
    );
    assert_eq!(
        daemon.on_request(ask(NCD_MSG_DATA, &[1, 5, 6])),
        vec![DaemonAction::Write(1, vec![5, 6])]
    );
    assert_eq!(
        daemon.on_request(ask(NCD_MSG_KFIFO_FULL, &[1])),
        vec![DaemonAction::SyncReading(1)]
    );
    assert_eq!(
        daemon.on_remote_data(1, b"abc"),
        vec![DaemonAction::Flush(1), DaemonAction::SyncReading(1)]
    );
    assert!(daemon.flow(1).is_paused());
    assert!(!daemon.flow(0).is_paused());
    assert!(daemon.flow_mut(1).next_chunk().is_none());
    assert_eq!(
        daemon.on_request(ask(NCD_MSG_KFIFO_AVAILABLE, &[1])),
        vec![DaemonAction::Flush(1), DaemonAction::SyncReading(1)]
    );
    assert_eq!(daemon.flow_mut(1).next_chunk().unwrap(), b"abc");
    daemon.on_remote_data(1, b"left over");
    assert_eq!(
        daemon.on_request(ask(NCD_MSG_CLOSE_REQ, &[1])),
        vec![DaemonAction::Close(1)]
    );
    assert_eq!(daemon.flow(1).waiting(), 0);
}

#[test]
fn other_messages_ask_for_nothing() {
    assert!(kernel_request(NCD_MSG_REGISTER, &[]).is_none());
    assert!(kernel_request(99, &[1]).is_none());
    assert_eq!(kernel_request(NCD_MSG_DATA, &[3]), Some(KernelRequest::Data(3, vec![])));
}

#[test]
fn netlink_layout() {
    let bytes = build_message(ByteOrder::Little, NCD_MSG_DATA, &[0xAA], 0x0102_0304);
    assert_eq!(
        bytes,
        vec![17, 0, 0, 0, 3, 0, 0, 0, 0, 0, 0, 0, 4, 3, 2, 1, 0xAA, 0, 0, 0]
    );
    let bytes = build_message(ByteOrder::Big, NCD_MSG_REGISTER, &[], 5);
    assert_eq!(bytes, vec![0, 0, 0, 16, 0, 0, 0, 0, 0, 0, 0, 0, 0, 0, 0, 5]);
}

#[test]
fn netlink_roundtrip() {
    for order in [ByteOrder::Little, ByteOrder::Big] {
        for n in [0usize, 1, 4, 1000] {
            let payload: Vec<u8> = (0..n).map(|i| i as u8).collect();
            let bytes = build_message(order, 0x0102, &payload, 77);
            assert_eq!(bytes.len() % 4, 0);
            assert_eq!(parse_message(order, &bytes, false), Ok((0x0102, payload)));
        }
    }
}

#[test]
fn netlink_refuses() {
    let good = build_message(ByteOrder::Little, 1, &[1, 2, 3], 0);
    assert_eq!(parse_message(ByteOrder::Little, &good, true), Err(NetlinkError::Truncated));
    assert_eq!(parse_message(ByteOrder::Little, &good[..15], false), Err(NetlinkError::Short));
    let mut bogus = good.clone();
    bogus[0] = 15;
    assert_eq!(parse_message(ByteOrder::Little, &bogus, false), Err(NetlinkError::BogusLength));
    // A payload that did not arrive whole counts as empty.
    assert_eq!(parse_message(ByteOrder::Little, &good[..18], false), Ok((1, vec![])));
    assert_eq!(NetlinkError::Short.message(), "short netlink message");
    assert_eq!(NetlinkError::BogusLength.message(), "bogus nlmsg_len");
    assert_eq!(NetlinkError::Truncated.message(), "truncated netlink message");
}

#[test]
fn netlink_messages() {
    let m = |msg_type: u16, payload: &[u8]| KernelMessage { msg_type, payload: payload.to_vec() };
    assert_eq!(register(), m(NCD_MSG_REGISTER, &[]));
    assert_eq!(create_device("ncd01"), m(NCD_MSG_CREATE_DEV, b"ncd01"));
    assert_eq!(destroy_device(3), m(NCD_MSG_DESTROY_DEV, &[3]));
    assert_eq!(conn_result(2, true), m(NCD_MSG_CONN_RES, &[2, b'1']));
    assert_eq!(conn_result(2, false), m(NCD_MSG_CONN_RES, &[2, b'0']));
    assert_eq!(data_message(1, b"hi"), m(NCD_MSG_DATA, &[1, b'h', b'i']));
    assert_eq!(nlmsg_align(17), 20);
    assert_eq!(nlmsg_align(20), 20);
}

#[test]
fn device_commands_need_an_open_device() {
    let mut d = Device::new(1, "ncd01".to_string(), IpAddress::V4(1), 9000);
    assert!(matches!(d.write(vec![1]), Err(DeviceOperationError::NotOpen)));
    assert!(matches!(d.pause_reading(), Err(DeviceOperationError::NotOpen)));
    assert!(d.close().is_none());
    d.opened();
    assert_eq!(d.write(vec![1]).unwrap(), WriteCommand::Data(vec![1]));
    assert_eq!(d.pause_reading().unwrap(), WriteCommand::PauseRead);
    assert_eq!(d.resume_reading().unwrap(), WriteCommand::ResumeRead);
    assert_eq!(d.close(), Some(WriteCommand::Close));
    assert!(d.close().is_none());
}

#[test]
fn device_task_pauses_and_resumes() {
    let mut t = DeviceTask::new();
    assert!(!t.read_paused);
    assert!(matches!(t.step(TaskEvent::Command(WriteCommand::PauseRead)), TaskAction::Nothing));
    assert!(t.read_paused);
    t.step(TaskEvent::Command(WriteCommand::ResumeRead));
    assert!(!t.read_paused);
    assert!(matches!(t.step(TaskEvent::Read(vec![1])), TaskAction::Forward(d) if d == vec![1]));
    let data = TaskEvent::Command(WriteCommand::Data(vec![2]));
    assert!(matches!(t.step(data), TaskAction::Write(d) if d == vec![2]));
    assert!(matches!(
        t.step(TaskEvent::Command(WriteCommand::Close)),
        TaskAction::Close
    ));
    let unread = vec![vec![3], vec![], vec![4, 5]];
    assert!(matches!(
        t.step(TaskEvent::Closed(unread.clone())),
        TaskAction::ForwardAndEnd(all) if all == unread
    ));
    assert!(matches!(t.step(TaskEvent::CloseFailed), TaskAction::End));
    assert!(matches!(t.step(TaskEvent::ReadFailed), TaskAction::End));
    assert!(matches!(t.step(TaskEvent::MainLoopGone), TaskAction::End));
}

#[test]
fn loaded_modules() {
    let modules = "nfs 1 0\nncd_core 2 1\nusb 3 0\n";
    assert!(module_loaded(Some(modules), "ncd"));
    assert!(module_loaded(Some(modules), "usb"));
    assert!(!module_loaded(Some(modules), "fs"));
    assert!(!module_loaded(Some(""), "ncd"));
    assert!(!module_loaded(None, "ncd"));
}

fn load(goes: &dyn Fn(LoadStep) -> bool) -> (bool, Vec<LoadStep>) {
    let mut steps = vec![];
    let mut step = LoadStep::first();
    loop {
        if let LoadStep::Done(loaded) = step {
            return (loaded, steps);
        }
        steps.push(step);
        step = step.next(goes(step));
    }
}

#[test]
fn driver_loading() {
    let (loaded, steps) = load(&|_| true);
    assert!(loaded);
    assert_eq!(
        steps,
        vec![LoadStep::LookForOld, LoadStep::Unload, LoadStep::LoadInstalled]
    );
    let (loaded, steps) = load(&|s| s != LoadStep::LoadInstalled && s != LoadStep::LookForOld);
    assert!(loaded);
    assert_eq!(steps.len(), 7);
    let (loaded, steps) = load(&|s| s != LoadStep::LoadInstalled && s != LoadStep::Build);
    assert!(!loaded);
    assert_eq!(*steps.last().unwrap(), LoadStep::Build);
}

#[test]
fn configuration_path() {
    assert_eq!(get_config_path(true).unwrap(), "/etc/ncd/config.toml");
    assert!(get_config_path(false).is_none());
}
