use ncd::proto::codec::{fragment_packet, try_assemble_packet, MAX_PAYLOAD_SIZE};
use ncd::proto::error::{AssemblePacketError, Error};
use ncd::proto::frame::{Flag, Frame};
use ncd::proto::packet::Packet;

#[test]
fn frames_to_packet_incomplete_returns_none() {
    let frames = vec![Frame {
        flag: Flag::More, // no End — need more data
        ty: 0x06,
        payload: b"partial".to_vec(),
    }];
    assert!(try_assemble_packet(&frames).unwrap().is_none());
}

#[test]
fn frames_to_packet_empty_returns_none() {
    assert!(try_assemble_packet(&[]).unwrap().is_none());
}

#[test]
fn frames_to_packet_type_mismatch() {
    let frames = vec![
        Frame {
            flag: Flag::More,
            ty: 0x01,
            payload: vec![],
        },
        Frame {
            flag: Flag::End,
            ty: 0x06,
            payload: b"data".to_vec(),
        },
    ];
    assert!(matches!(
        try_assemble_packet(&frames).unwrap_err(),
        Error::AssemblePacketError(AssemblePacketError::MismatchedTypes {
            first_frame_type: 0x01,
            frame_type: 0x06,
        })
    ));
}

#[test]
fn fragment_replaces_the_buffer() {
    let mut frames = vec![Frame { flag: Flag::More, ty: 9, payload: vec![1] }];
    fragment_packet(Packet::ControlPing { id: 7 }, &mut frames);
    assert_eq!(frames, vec![Frame { flag: Flag::End, ty: 5, payload: vec![0, 0, 0, 7] }]);
}

#[test]
fn fragment_empty_data_is_one_frame() {
    let mut frames = vec![];
    fragment_packet(Packet::Data(vec![]), &mut frames);
    assert_eq!(frames, vec![Frame { flag: Flag::End, ty: 7, payload: vec![] }]);
}

#[test]
fn fragment_at_the_limit() {
    let mut frames = vec![];
    fragment_packet(Packet::Data(vec![1; MAX_PAYLOAD_SIZE]), &mut frames);
    assert_eq!(frames.len(), 1);
    fragment_packet(Packet::Data(vec![1; MAX_PAYLOAD_SIZE + 1]), &mut frames);
    assert_eq!(frames.len(), 2);
    assert_eq!((frames[0].flag, frames[0].payload.len()), (Flag::More, MAX_PAYLOAD_SIZE));
    assert_eq!((frames[1].flag, frames[1].payload.len()), (Flag::End, 1));
}

#[test]
fn fragments_assemble_again() {
    let data: Vec<u8> = (0..200_000u32).map(|i| (i % 251) as u8).collect();
    let mut frames = vec![];
    fragment_packet(Packet::Data(data.clone()), &mut frames);
    assert_eq!(frames.len(), 4);
    frames.push(Frame { flag: Flag::End, ty: 4, payload: vec![] });
    let (used, packet) = try_assemble_packet(&frames).unwrap().unwrap();
    assert_eq!(used, 4);
    assert_eq!(packet, Packet::Data(data));
}

#[test]
fn assemble_reports_unknown_type() {
    let frames = vec![Frame { flag: Flag::End, ty: 0x77, payload: vec![] }];
    let err = try_assemble_packet(&frames).unwrap_err();
    assert_eq!(err.message(), "Unknown packet tag: 0x77");
}

#[test]
fn mismatch_text() {
    let frames = vec![
        Frame { flag: Flag::More, ty: 1, payload: vec![] },
        Frame { flag: Flag::End, ty: 2, payload: vec![] },
    ];
    assert_eq!(
        try_assemble_packet(&frames).unwrap_err().message(),
        "Mismatched types in frames"
    );
}
