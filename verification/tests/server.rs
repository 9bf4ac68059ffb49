//! The server's session and its memory.

use rdows::connection;
use rdows::error::{ErrorCode, RdowsError};
use rdows::frame::RdowsHeader;
use rdows::memory::{AccessFlags, LKey, ProtectionDomain, RKey};
use rdows::message::{
    AtomicType, ConnectPayload, CreditUpdatePayload, DataPayload, MrRegPayload, RdowsMessage,
    ReadReqPayload, SendPayload,
};
use rdows::opcode::Opcode;
use rdows::server::memory_store::MemoryStore;
use rdows::server::session::{Session, SessionEvent, SessionState};
use rdows::server::ServerConfig;
use rdows::subprotocol::{check_subprotocol, names_subprotocol};

fn connect(max_msg_size: u32, version: u8) -> RdowsMessage {
    let mut header = RdowsHeader::new(Opcode::Connect, 77, 0, 0);
    header.version = version;
    RdowsMessage::Connect(
        header,
        ConnectPayload { pd: ProtectionDomain(5), capability_flags: 9, max_msg_size, icc: 3 },
    )
}

fn open_session(max_msg_size: u32) -> Session {
    let mut session = Session::new(ServerConfig::default().recv_queue_depth);
    session.handle_message(connect(max_msg_size, 1)).unwrap();
    session
}

fn error_of(replies: &[RdowsMessage]) -> (ErrorCode, u32, String) {
    assert_eq!(replies.len(), 1);
    match &replies[0] {
        RdowsMessage::Error(_, p) => (p.error_code, p.failing_seq, p.description.clone()),
        other => panic!("expected ERROR, got: {other:?}"),
    }
}

#[test]
fn default_receive_queue() {
    assert_eq!(ServerConfig::default().recv_queue_depth, 128);
}

#[test]
fn connect_is_acknowledged() {
    let mut session = Session::new(2);
    assert_eq!(session.state, SessionState::AwaitingConnect);
    let replies = session.handle_message(connect(1000, 1)).unwrap();
    match &replies[..] {
        [RdowsMessage::ConnectAck(header, ack)] => {
            assert_eq!(header.session_id, 77);
            assert_eq!(header.sequence, 0);
            assert_eq!(ack.max_msg_size, 1000);
            assert_eq!(ack.pd, ProtectionDomain(5));
            assert_eq!(ack.capability_flags, 0);
            assert_eq!(ack.icc, 65_535);
        }
        other => panic!("expected CONNECT_ACK, got: {other:?}"),
    }
    assert_eq!(session.state, SessionState::Ready);
    assert_eq!(session.max_msg_size, 1000);
}

#[test]
fn negotiated_size_is_the_smaller() {
    assert_eq!(open_session(10).max_msg_size, 10);
    assert_eq!(open_session(u32::MAX).max_msg_size, 16_777_216);
}

#[test]
fn client_and_server_agree_after_the_handshake() {
    let mut session = Session::new(1);
    let frame = connection::connect_frame(42);
    let ack = session.handle_message(frame).unwrap().pop().unwrap();
    let params = connection::connect_complete(42, ack).unwrap();
    assert_eq!(params.session_id, 42);
    assert_eq!(params.pd, ProtectionDomain(1));
    assert_eq!(params.max_msg_size, 16_777_216);
    assert_eq!(params.initial_remote_seq, session.next_seq);
    assert_eq!(params.icc, 65_535);
    assert_eq!(session.expected_remote_seq, Some(1));
}

#[test]
fn other_version_is_refused() {
    let mut session = Session::new(1);
    let replies = session.handle_message(connect(1000, 2)).unwrap();
    assert_eq!(
        error_of(&replies),
        (ErrorCode::ErrProtoVersion, 0, "unsupported protocol version".to_string())
    );
    assert_eq!(session.state, SessionState::Closed);
}

#[test]
fn first_frame_must_be_connect() {
    let mut session = Session::new(1);
    let frame = RdowsMessage::Disconnect(RdowsHeader::new(Opcode::Disconnect, 1, 0, 0));
    match session.handle_message(frame) {
        Err(RdowsError::UnexpectedMessage { expected, got }) => {
            assert_eq!(expected, "CONNECT");
            assert_eq!(got, Opcode::Disconnect);
        }
        _ => panic!("expected an error"),
    }
}

#[test]
fn oversized_payload_is_refused() {
    let mut session = open_session(100);
    let mut header = RdowsHeader::new(Opcode::SendData, 77, 1, 0);
    header.payload_length = 101;
    let replies = session
        .handle_message(RdowsMessage::SendData(header, DataPayload::new(vec![0; 101])))
        .unwrap();
    assert_eq!(
        error_of(&replies),
        (
            ErrorCode::ErrPayloadSize,
            1,
            "payload exceeds negotiated maximum message size".to_string()
        )
    );
    assert_eq!(session.state, SessionState::Ready);
}

#[test]
fn data_without_announcement_is_refused() {
    let mut session = open_session(100);
    let header = RdowsHeader::new(Opcode::SendData, 77, 1, 0);
    let data = DataPayload::new(vec![1]);
    let replies = session.handle_message(RdowsMessage::SendData(header, data)).unwrap();
    assert_eq!(
        error_of(&replies),
        (ErrorCode::ErrInternal, 1, "unexpected SEND_DATA without preceding SEND".to_string())
    );
    let header = RdowsHeader::new(Opcode::WriteData, 77, 2, 0);
    let data = DataPayload::new(vec![1]);
    let replies = session.handle_message(RdowsMessage::WriteData(header, data)).unwrap();
    assert_eq!(
        error_of(&replies),
        (ErrorCode::ErrInternal, 2, "unexpected WRITE_DATA without preceding WRITE".to_string())
    );
}

#[test]
fn refused_send_drops_its_data() {
    let mut session = open_session(100);
    session.recv_queue_depth = 0;
    let send = RdowsMessage::Send(
        RdowsHeader::new(Opcode::Send, 77, 1, 6),
        SendPayload { sg_list: Vec::new() },
    );
    let replies = session.handle_message(send).unwrap();
    assert_eq!(error_of(&replies), (ErrorCode::ErrRnr, 1, "ERR_RNR".to_string()));
    let data = RdowsMessage::SendData(
        RdowsHeader::new(Opcode::SendData, 77, 2, 6),
        DataPayload::new(vec![1, 2, 3]),
    );
    assert!(session.handle_message(data).unwrap().is_empty());
    assert_eq!(session.state, SessionState::Ready);
}

#[test]
fn credit_update_and_disconnect_are_silent() {
    let mut session = open_session(100);
    let grant = RdowsMessage::CreditUpdate(
        RdowsHeader::new(Opcode::CreditUpdate, 77, 1, 0),
        CreditUpdatePayload { credit_increment: 4 },
    );
    assert!(session.handle_message(grant).unwrap().is_empty());
    assert_eq!(session.state, SessionState::Ready);
    let bye = RdowsMessage::Disconnect(RdowsHeader::new(Opcode::Disconnect, 77, 2, 0));
    assert!(session.handle_message(bye).unwrap().is_empty());
    assert_eq!(session.state, SessionState::Closed);
}

#[test]
fn stray_message_is_refused() {
    let mut session = open_session(100);
    let stray = RdowsMessage::Ack(RdowsHeader::new(Opcode::Ack, 77, 1, 0));
    let replies = session.handle_message(stray).unwrap();
    assert_eq!(error_of(&replies).0, ErrorCode::ErrUnknownOpcode);
}

#[test]
fn region_of_another_domain_is_refused() {
    let mut session = open_session(100);
    let request = RdowsMessage::MrReg(
        RdowsHeader::new(Opcode::MrReg, 77, 1, 0),
        MrRegPayload {
            pd: ProtectionDomain(6),
            access_flags: AccessFlags::remote_read(),
            region_len: 8,
            suggested_lkey: None,
        },
    );
    let replies = session.handle_message(request).unwrap();
    match &replies[..] {
        [RdowsMessage::MrRegAck(_, ack)] => {
            assert_eq!(ack.status, u16::from(ErrorCode::ErrInvalidPd));
        }
        other => panic!("expected MR_REG_ACK, got: {other:?}"),
    }
}

#[test]
fn session_loop_events() {
    let mut session = Session::new(1);
    let step = session.on_event(SessionEvent::Frame(connect(100, 1)));
    assert!(step.go_on);
    assert_eq!(step.frames.len(), 1);
    let step = session.on_event(SessionEvent::Other);
    assert!(step.go_on);
    assert!(step.frames.is_empty());
    assert!(!session.on_event(SessionEvent::Undecodable).go_on);
    assert!(!session.on_event(SessionEvent::Close).go_on);
    assert!(!session.on_event(SessionEvent::Ended).go_on);
    let bye = RdowsMessage::Disconnect(RdowsHeader::new(Opcode::Disconnect, 77, 1, 0));
    let step = session.on_event(SessionEvent::Frame(bye));
    assert!(!step.go_on);
    assert!(step.frames.is_empty());
    let mut fresh = Session::new(1);
    let bye = RdowsMessage::Disconnect(RdowsHeader::new(Opcode::Disconnect, 77, 0, 0));
    assert!(!fresh.on_event(SessionEvent::Frame(bye)).go_on);
}

#[test]
fn sequence_numbers_wrap() {
    let mut session = open_session(100);
    session.expected_remote_seq = Some(u32::MAX);
    session.next_seq = u32::MAX;
    let read = |seq: u32| {
        RdowsMessage::ReadReq(
            RdowsHeader::new(Opcode::ReadReq, 77, seq, 0),
            ReadReqPayload {
                rkey: RKey(1),
                remote_va: 0,
                read_len: 1,
                local_lkey: LKey(1),
                local_va: 0,
            },
        )
    };
    let replies = session.handle_message(read(u32::MAX)).unwrap();
    assert_eq!(replies[0].header().sequence, u32::MAX);
    let replies = session.handle_message(read(0)).unwrap();
    assert_eq!(replies[0].header().sequence, 0);
    assert_eq!(error_of(&replies).0, ErrorCode::ErrInvalidMkey);
}

#[test]
fn store_never_hands_out_a_key_twice() {
    let mut store = MemoryStore::new();
    let access = AccessFlags::remote_read();
    let (l1, r1) = store.register(access, 4, 0).unwrap();
    // Zero is no key; the next number is.
    assert_eq!((l1, r1), (LKey(1), RKey(1)));
    let (l2, r2) = store.register(access, 4, u32::MAX).unwrap();
    assert_eq!((l2, r2), (LKey(2), RKey(u32::MAX)));
    assert!(store.deregister(l1));
    assert!(!store.deregister(l1));
    // Both draws lead past the keys already used, and past zero.
    assert_eq!(store.register(access, 4, 1).unwrap().1, RKey(2));
    assert_eq!(store.register(access, 4, u32::MAX).unwrap().1, RKey(3));
    assert_eq!(store.read(r1, 0, 1).unwrap_err(), ErrorCode::ErrInvalidMkey);
    assert_eq!(store.read(r2, 0, 4).unwrap(), vec![0; 4]);
    assert_eq!(store.register(access, u64::MAX, 9), None);
}

#[test]
fn store_keeps_words_in_network_byte_order() {
    let mut store = MemoryStore::new();
    let access =
        AccessFlags::remote_atomic() | AccessFlags::remote_write() | AccessFlags::remote_read();
    let (_, rkey) = store.register(access, 16, 5).unwrap();
    store.write(rkey, 8, &[0, 0, 0, 0, 0, 0, 1, 2]).unwrap();
    let before = store.atomic(rkey, 8, AtomicType::FetchAndAdd, 0x100, 0).unwrap();
    assert_eq!(before, 0x0102);
    assert_eq!(store.read(rkey, 8, 8).unwrap(), vec![0, 0, 0, 0, 0, 0, 2, 2]);
    let before = store.atomic(rkey, 8, AtomicType::CompareAndSwap, 0x0202, u64::MAX).unwrap();
    assert_eq!(before, 0x0202);
    assert_eq!(store.read(rkey, 7, 9).unwrap(), vec![0, 255, 255, 255, 255, 255, 255, 255, 255]);
    assert_eq!(
        store.atomic(rkey, 8, AtomicType::CompareAndSwap, 7, 7).unwrap(),
        u64::MAX
    );
}

#[test]
fn subprotocol_offers() {
    assert!(names_subprotocol(b"rdows.v1"));
    assert!(names_subprotocol(b"chat, \trdows.v1 ,other"));
    assert!(names_subprotocol(b"chat,rdows.v1"));
    assert!(!names_subprotocol(b"rdows.v10"));
    assert!(!names_subprotocol(b"chat rdows.v1"));
    assert!(!names_subprotocol(b""));
    assert!(!names_subprotocol(b"RDOWS.V1"));
    // A field that is not text names nothing.
    assert!(!names_subprotocol(b"rdows.v1,\xff"));
    assert!(!names_subprotocol(b"rdows.v1,\n"));
    assert!(check_subprotocol(&[b"chat".to_vec(), b" rdows.v1".to_vec()]));
    assert!(!check_subprotocol(&[b"chat".to_vec()]));
    assert!(!check_subprotocol(&[]));
}
