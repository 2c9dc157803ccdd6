use protobuf::Message as ProtobufMessage;
use raft::eraftpb;
use raftmeta::proto::{
    ConfState, Entry, EntryType, MessageType, RaftMessage, Snapshot, SnapshotMetadata,
};
use raftmeta::transport::{
    encode_frame, receive, DropReason, FrameError, FrameEvent, FrameReader, LocalLoopback,
    SendPlan, TcpTransport, FRAME_MAGIC, FRAME_MAX_LEN, FRAME_VERSION,
};

fn to(target: u64) -> RaftMessage {
    let mut m = RaftMessage::default();
    m.to = target;
    m
}

#[test]
fn loopback_routes_by_target_id() {
    let mut loop_ = LocalLoopback::new();
    loop_.register(1, "in1");
    loop_.register(2, "in2");
    assert_eq!(loop_.send(&to(2)), Some(&"in2"));
    assert_eq!(loop_.send(&to(1)), Some(&"in1"));
}

#[test]
fn loopback_drops_messages_for_unregistered_peer() {
    let mut loop_ = LocalLoopback::new();
    loop_.register(1, "in1");
    assert_eq!(loop_.send(&to(99)), None);
}

#[test]
fn unregister_simulates_partition() {
    let mut loop_ = LocalLoopback::new();
    loop_.register(1, "in1");
    assert!(loop_.send(&to(1)).is_some());
    loop_.unregister(1);
    assert!(loop_.send(&to(1)).is_none(), "after unregister no delivery");
}

#[test]
fn a_partitioned_replica_neither_receives_nor_sends() {
    let mut loop_ = LocalLoopback::new();
    loop_.register(1, "in1");
    loop_.register(2, "in2");
    loop_.unregister(1);
    let mut m = to(2);
    m.from = 1;
    assert_eq!(loop_.send(&m), None);
    m.from = 3;
    assert_eq!(loop_.send(&m), Some(&"in2"));
    loop_.register(1, "back");
    m.from = 1;
    assert_eq!(loop_.send(&m), Some(&"in2"));
    assert_eq!(loop_.route(2, 1), Some(&"back"));
}

fn sample_msg(from: u64, to: u64, term: u64) -> RaftMessage {
    let mut m = RaftMessage::default();
    m.msg_type = MessageType::MsgAppend;
    m.from = from;
    m.to = to;
    m.term = term;
    m.commit = 7;
    m
}

/// Reads frames out of a stream of bytes, as a connection hands them over.
fn read_all(mut bytes: &[u8]) -> (Vec<Vec<u8>>, Result<(), FrameError>) {
    let mut reader = FrameReader::new();
    let mut frames = Vec::new();
    loop {
        let n = reader.wanted();
        if bytes.len() < n {
            return (frames, reader.eof());
        }
        match reader.feed(bytes[..n].to_vec()) {
            Ok(FrameEvent::More) => {}
            Ok(FrameEvent::Frame(payload)) => frames.push(payload),
            Err(e) => return (frames, Err(e)),
        }
        bytes = &bytes[n..];
        if bytes.is_empty() && reader == FrameReader::Magic {
            return (frames, reader.eof());
        }
    }
}

#[test]
fn tcp_transport_round_trip_localhost() {
    let mut transport = TcpTransport::new();
    transport.set_peer(2, "addr");
    let msg = sample_msg(1, 2, 42);
    let payload = match transport.send(&msg) {
        SendPlan::Send { conn, payload } => {
            assert_eq!(*conn, "addr");
            payload
        }
        SendPlan::Drop(reason) => panic!("dropped: {:?}", reason),
    };
    let (frames, end) = read_all(&encode_frame(&payload).unwrap());
    assert_eq!(end, Ok(()));
    assert_eq!(frames.len(), 1);
    let received = receive(&frames[0]).unwrap();
    assert_eq!(received.from, 1);
    assert_eq!(received.to, 2);
    assert_eq!(received.term, 42);
    assert_eq!(received.commit, 7);
    assert_eq!(received.msg_type, MessageType::MsgAppend);
    assert_eq!(received, msg);
}

#[test]
fn tcp_transport_drops_unknown_peer_silently() {
    let transport: TcpTransport<u8> = TcpTransport::new();
    assert!(matches!(
        transport.send(&sample_msg(1, 99, 1)),
        SendPlan::Drop(DropReason::UnknownPeer)
    ));
    assert!(matches!(
        transport.send(&sample_msg(1, 0, 1)),
        SendPlan::Drop(DropReason::NoTarget)
    ));
}

#[test]
fn tcp_transport_rejects_bad_magic() {
    let mut bytes = 0xDEAD_BEEFu32.to_be_bytes().to_vec();
    bytes.extend_from_slice(&1u32.to_be_bytes());
    bytes.extend_from_slice(&0u32.to_be_bytes());
    let (frames, end) = read_all(&bytes);
    assert!(frames.is_empty(), "inbound must not receive on bad magic");
    assert_eq!(end, Err(FrameError::BadMagic(0xDEAD_BEEF)));
    assert_eq!(end.unwrap_err().message(), "bad raft frame magic 0xDEADBEEF");
}

#[test]
fn a_removed_peer_is_unknown() {
    let mut transport = TcpTransport::new();
    transport.set_peer(2, 1);
    transport.set_peer(2, 5);
    assert!(matches!(
        transport.send(&sample_msg(1, 2, 1)),
        SendPlan::Send { conn: 5, .. }
    ));
    transport.remove_peer(2);
    assert!(matches!(
        transport.send(&sample_msg(1, 2, 1)),
        SendPlan::Drop(DropReason::UnknownPeer)
    ));
}

#[test]
fn a_frame_is_laid_out_as_documented() {
    assert_eq!(FRAME_MAGIC, 0xC8EA_AF01);
    assert_eq!(FRAME_VERSION, 1);
    assert_eq!(FRAME_MAX_LEN, 16 * 1024 * 1024);
    assert_eq!(
        encode_frame(&[5, 6]).unwrap(),
        vec![0xC8, 0xEA, 0xAF, 0x01, 0, 0, 0, 1, 0, 0, 0, 2, 5, 6]
    );
}

#[test]
fn frames_follow_each_other() {
    let mut bytes = encode_frame(b"one").unwrap();
    bytes.extend(encode_frame(b"").unwrap());
    bytes.extend(encode_frame(b"three").unwrap());
    let (frames, end) = read_all(&bytes);
    assert_eq!(end, Ok(()));
    assert_eq!(frames, vec![b"one".to_vec(), vec![], b"three".to_vec()]);
}

#[test]
fn frames_that_are_cut_off_or_foreign_are_refused() {
    let whole = encode_frame(b"payload").unwrap();
    for n in 0..4 {
        assert_eq!(read_all(&whole[..n]).1, Ok(()));
    }
    for n in 4..whole.len() {
        assert_eq!(read_all(&whole[..n]).1, Err(FrameError::UnexpectedEof));
    }
    let mut other = whole.clone();
    other[7] = 2;
    let err = read_all(&other).1.unwrap_err();
    assert_eq!(err, FrameError::BadVersion(2));
    assert_eq!(err.message(), "raft frame version mismatch: got 2, want 1");
    let mut long = whole.clone();
    long[8..12].copy_from_slice(&(FRAME_MAX_LEN + 1).to_be_bytes());
    let err = read_all(&long).1.unwrap_err();
    assert_eq!(err, FrameError::TooLarge(16 * 1024 * 1024 + 1));
    assert_eq!(err.message(), "raft frame too large: 16777217 bytes");
}

#[test]
fn a_payload_over_the_cap_is_not_framed() {
    let big = vec![0u8; FRAME_MAX_LEN as usize + 1];
    assert_eq!(encode_frame(&big), Err(FrameError::TooLarge(FRAME_MAX_LEN as u64 + 1)));
    assert!(encode_frame(&big[1..]).is_ok());
}

#[test]
fn bytes_that_are_no_message_are_refused() {
    assert!(receive(&[0xFF, 0xFF]).is_err());
    assert_eq!(receive(&[]).unwrap(), RaftMessage::default());
}

fn full_msg() -> RaftMessage {
    RaftMessage {
        msg_type: MessageType::MsgSnapshot,
        to: 2,
        from: 1,
        term: 3,
        log_term: 4,
        index: 5,
        entries: vec![
            Entry { index: 6, term: 3, data: vec![1, 2], context: vec![3], ..Entry::default() },
            Entry { entry_type: EntryType::ConfChangeV2, sync_log: true, ..Entry::default() },
        ],
        commit: 7,
        commit_term: 8,
        snapshot: Some(Snapshot {
            data: vec![9; 300],
            metadata: SnapshotMetadata {
                conf_state: ConfState {
                    voters: vec![1, 2, u64::MAX],
                    learners: vec![4],
                    voters_outgoing: vec![5, 6],
                    learners_next: vec![7],
                    auto_leave: true,
                },
                index: 10,
                term: 11,
            },
        }),
        request_snapshot: 12,
        reject: true,
        reject_hint: 13,
        context: vec![14],
        deprecated_priority: 15,
        priority: -16,
    }
}

fn payload_of(msg: &RaftMessage) -> Vec<u8> {
    let mut transport = TcpTransport::new();
    transport.set_peer(msg.to, ());
    match transport.send(msg) {
        SendPlan::Send { payload, .. } => payload,
        SendPlan::Drop(reason) => panic!("dropped: {:?}", reason),
    }
}

#[test]
fn every_field_of_a_message_arrives() {
    let payload = payload_of(&full_msg());
    assert_eq!(receive(&payload).unwrap(), full_msg());
    let outside = eraftpb::Message::parse_from_bytes(&payload).unwrap();
    assert_eq!(outside.msg_type, eraftpb::MessageType::MsgSnapshot);
    assert_eq!((outside.to, outside.from, outside.term), (2, 1, 3));
    assert_eq!((outside.log_term, outside.index), (4, 5));
    assert_eq!((outside.commit, outside.commit_term), (7, 8));
    assert_eq!((outside.request_snapshot, outside.reject_hint), (12, 13));
    assert!(outside.reject);
    assert_eq!((outside.deprecated_priority, outside.priority), (15, -16));
    assert_eq!(outside.context.to_vec(), vec![14]);
    assert_eq!(outside.entries.len(), 2);
    assert_eq!(outside.entries[0].data.to_vec(), vec![1, 2]);
    assert_eq!(outside.entries[1].entry_type, eraftpb::EntryType::EntryConfChangeV2);
    assert_eq!(outside.get_snapshot().data.to_vec(), vec![9; 300]);
    assert_eq!(outside.get_snapshot().get_metadata().term, 11);
    assert_eq!(outside.write_to_bytes().unwrap(), payload);
}

#[test]
fn every_kind_of_message_arrives() {
    for n in 0..19 {
        let msg_type = MessageType::from_number(n).unwrap();
        assert_eq!(msg_type.number(), n);
        let msg = RaftMessage { msg_type, to: 1, ..RaftMessage::default() };
        assert_eq!(receive(&payload_of(&msg)).unwrap(), msg);
    }
    assert_eq!(MessageType::from_number(19), None);
    assert_eq!(MessageType::from_number(-1), None);
}

#[test]
fn a_field_that_is_not_known_is_passed_over() {
    let mut outside = eraftpb::Message::default();
    outside.to = 2;
    outside.mut_unknown_fields().add_varint(99, 7);
    let payload = outside.write_to_bytes().unwrap();
    let expected = RaftMessage { to: 2, ..RaftMessage::default() };
    assert_eq!(receive(&payload).unwrap(), expected);
}

#[test]
fn an_ordinary_message_is_short_enough_to_be_written() {
    assert!(full_msg().fits());
    assert!(RaftMessage::default().fits());
}
