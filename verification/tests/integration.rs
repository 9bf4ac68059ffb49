//! A client and a server that talk to each other, frame by frame.

use std::collections::VecDeque;

use rdows::client::verbs::MemoryRegionHandle;
use rdows::client::{ConnectConfig, RdowsConnection};
use rdows::connection;
use rdows::error::{ErrorCode, RdowsError};
use rdows::memory::{AccessFlags, LKey, RKey};
use rdows::message::RdowsMessage;
use rdows::queue::{CompletionQueueEntry, ScatterGatherEntry};
use rdows::server::session::{Session, SessionState};
use rdows::server::ServerConfig;

/// A client's connection, with the server's session at its other end.
struct Link {
    conn: RdowsConnection,
    session: Session,
    inbox: VecDeque<RdowsMessage>,
}

impl Link {
    fn start() -> Self {
        Self::start_with_config(ServerConfig::default())
    }

    fn start_with_config(config: ServerConfig) -> Self {
        Self::start_with(config, ConnectConfig::default())
    }

    fn start_with(config: ServerConfig, client: ConnectConfig) -> Self {
        let mut session = Session::new(config.recv_queue_depth);
        let (session_id, connect) = connection::open_session();
        let mut replies = session.handle_message(connect).unwrap();
        assert_eq!(replies.len(), 1);
        let ack = replies.pop().unwrap();
        let params = connection::connect_complete(session_id, ack).unwrap();
        Link {
            conn: RdowsConnection::connect_with_config(params, client),
            session,
            inbox: VecDeque::new(),
        }
    }

    fn send(&mut self, frame: RdowsMessage) {
        let replies = self.session.handle_message(frame).unwrap();
        self.inbox.extend(replies);
    }

    fn recv(&mut self) -> Result<RdowsMessage, RdowsError> {
        loop {
            let frame = self.inbox.pop_front().expect("a reply");
            if let Some(reply) = self.conn.recv_app_message(frame)? {
                return Ok(reply);
            }
        }
    }

    fn reg_mr(&mut self, access: AccessFlags, len: u64) -> Result<MemoryRegionHandle, RdowsError> {
        let frame = self.conn.reg_mr(access, len);
        self.send(frame);
        let reply = self.recv()?;
        self.conn.reg_mr_complete(len, reply)
    }

    fn dereg_mr(&mut self, lkey: LKey) -> Result<(), RdowsError> {
        let frame = self.conn.dereg_mr(lkey);
        self.send(frame);
        let reply = self.recv()?;
        self.conn.dereg_mr_complete(lkey, reply)
    }

    fn post_send(&mut self, wrid: u64, sg: &[ScatterGatherEntry]) -> Result<(), RdowsError> {
        let posted = self.conn.post_send(wrid, sg)?;
        self.send(posted.request);
        self.send(posted.data);
        let reply = self.recv()?;
        self.conn.post_send_complete(wrid, posted.byte_count, reply)
    }

    fn rdma_write(
        &mut self,
        wrid: u64,
        rkey: RKey,
        remote_va: u64,
        sg: &[ScatterGatherEntry],
    ) -> Result<(), RdowsError> {
        let posted = self.conn.rdma_write(wrid, rkey, remote_va, sg)?;
        self.send(posted.request);
        self.send(posted.data);
        let reply = self.recv()?;
        self.conn.rdma_write_complete(wrid, posted.byte_count, reply)
    }

    fn rdma_read(
        &mut self,
        wrid: u64,
        rkey: RKey,
        remote_va: u64,
        read_len: u64,
        local_lkey: LKey,
        local_va: u64,
    ) -> Result<(), RdowsError> {
        let frame = self.conn.rdma_read(wrid, rkey, remote_va, read_len, local_lkey, local_va)?;
        self.send(frame);
        let reply = self.recv()?;
        self.conn.rdma_read_complete(wrid, local_lkey, local_va, reply)
    }

    fn atomic_cas(
        &mut self,
        wrid: u64,
        rkey: RKey,
        remote_va: u64,
        compare: u64,
        swap: u64,
    ) -> Result<u64, RdowsError> {
        let frame = self.conn.atomic_cas(wrid, rkey, remote_va, compare, swap)?;
        self.send(frame);
        let reply = self.recv()?;
        self.conn.atomic_complete(wrid, reply)
    }

    fn atomic_faa(
        &mut self,
        wrid: u64,
        rkey: RKey,
        remote_va: u64,
        addend: u64,
    ) -> Result<u64, RdowsError> {
        let frame = self.conn.atomic_faa(wrid, rkey, remote_va, addend)?;
        self.send(frame);
        let reply = self.recv()?;
        self.conn.atomic_complete(wrid, reply)
    }

    fn write_local_mr(&mut self, lkey: LKey, offset: usize, data: &[u8]) -> Result<(), RdowsError> {
        self.conn.write_local_mr(lkey, offset, data)
    }

    fn read_local_mr(&self, lkey: LKey, offset: usize, len: usize) -> Result<Vec<u8>, RdowsError> {
        self.conn.read_local_mr(lkey, offset, len)
    }

    fn poll_cq(&mut self, max: usize) -> Vec<CompletionQueueEntry> {
        self.conn.poll_cq(max)
    }

    fn disconnect(mut self) {
        let frame = self.conn.disconnect();
        let replies = self.session.handle_message(frame).unwrap();
        assert!(replies.is_empty());
        assert_eq!(self.session.state, SessionState::Closed);
    }
}

fn stretch(lkey: LKey, length: u32) -> ScatterGatherEntry {
    ScatterGatherEntry { lkey, offset: 0, length }
}

fn protocol_code<T>(result: Result<T, RdowsError>) -> ErrorCode {
    match result {
        Ok(_) => panic!("expected an error"),
        Err(RdowsError::Protocol(code)) => code,
        Err(other) => panic!("expected Protocol error, got: {}", other.to_string()),
    }
}

// ---------------------------------------------------------------------------
// Connection
// ---------------------------------------------------------------------------

#[test]
fn connect_and_disconnect() {
    let link = Link::start();
    assert_ne!(link.conn.session_id(), 0);
    assert_eq!(link.conn.session_id(), link.session.session_id);
    link.disconnect();
}

#[test]
fn reject_ws_url() {
    let err = connection::connect("ws://localhost:1234/rdows");
    assert!(err.is_err());
    let msg = err.err().unwrap().to_string();
    assert!(msg.contains("TLS required"), "got: {msg}");
}

// ---------------------------------------------------------------------------
// Memory regions
// ---------------------------------------------------------------------------

#[test]
fn register_and_deregister_mr() {
    let mut link = Link::start();
    let mr = link
        .reg_mr(AccessFlags::remote_write() | AccessFlags::remote_read(), 4096)
        .unwrap();
    assert_ne!(mr.rkey.0, 0);
    assert_ne!(mr.lkey.0, 0);
    assert_eq!(mr.len, 4096);
    assert_eq!(mr.local_buf, vec![0u8; 4096]);
    let lkey = mr.lkey;
    link.dereg_mr(lkey).unwrap();
    link.disconnect();
}

#[test]
fn unique_rkeys() {
    let mut link = Link::start();
    let mr1 = link.reg_mr(AccessFlags::remote_read(), 64).unwrap();
    let mr2 = link.reg_mr(AccessFlags::remote_read(), 64).unwrap();
    let mr3 = link.reg_mr(AccessFlags::remote_read(), 64).unwrap();
    assert_ne!(mr1.rkey, mr2.rkey);
    assert_ne!(mr2.rkey, mr3.rkey);
    assert_ne!(mr1.rkey, mr3.rkey);
    link.disconnect();
}

#[test]
fn deregistered_region_is_gone_on_both_sides() {
    let mut link = Link::start();
    let access = AccessFlags::remote_write() | AccessFlags::remote_read();
    let mr = link.reg_mr(access, 16).unwrap();
    let local = link.reg_mr(AccessFlags::local_write(), 16).unwrap();
    link.dereg_mr(mr.lkey).unwrap();
    assert_eq!(protocol_code(link.read_local_mr(mr.lkey, 0, 1)), ErrorCode::ErrInvalidLkey);
    assert_eq!(
        protocol_code(link.rdma_read(1, mr.rkey, 0, 1, local.lkey, 0)),
        ErrorCode::ErrInvalidMkey
    );
    assert_eq!(protocol_code(link.dereg_mr(mr.lkey)), ErrorCode::ErrInvalidLkey);
}

// ---------------------------------------------------------------------------
// SEND/RECV
// ---------------------------------------------------------------------------

#[test]
fn post_send() {
    let mut link = Link::start();
    let mr = link.reg_mr(AccessFlags::local_write(), 256).unwrap();
    let lkey = mr.lkey;
    link.write_local_mr(lkey, 0, b"Hello, RDoWS!").unwrap();
    link.post_send(1, &[stretch(lkey, 13)]).unwrap();

    let cqes = link.poll_cq(10);
    assert_eq!(cqes.len(), 1);
    assert_eq!(cqes[0].wrid.0, 1);
    assert_eq!(cqes[0].status, 0);
    assert_eq!(cqes[0].byte_count, 13);
    assert_eq!(cqes[0].qp_number, link.conn.session_id());
    link.disconnect();
}

// ---------------------------------------------------------------------------
// RDMA Write + Read
// ---------------------------------------------------------------------------

#[test]
fn rdma_write_and_read() {
    let mut link = Link::start();
    let remote_mr = link
        .reg_mr(AccessFlags::remote_write() | AccessFlags::remote_read(), 1024)
        .unwrap();
    let remote_rkey = remote_mr.rkey;
    let local_mr = link.reg_mr(AccessFlags::local_write(), 1024).unwrap();
    let local_lkey = local_mr.lkey;

    let test_data = b"The CPU never saw this coming";
    link.write_local_mr(local_lkey, 0, test_data).unwrap();

    link.rdma_write(10, remote_rkey, 100, &[stretch(local_lkey, test_data.len() as u32)])
        .unwrap();
    let cqes = link.poll_cq(10);
    assert_eq!(cqes.len(), 1);
    assert_eq!(cqes[0].wrid.0, 10);
    assert_eq!(cqes[0].status, 0);

    let read_mr = link.reg_mr(AccessFlags::local_write(), 1024).unwrap();
    let read_lkey = read_mr.lkey;
    link.rdma_read(20, remote_rkey, 100, test_data.len() as u64, read_lkey, 0)
        .unwrap();
    let cqes = link.poll_cq(10);
    assert_eq!(cqes.len(), 1);
    assert_eq!(cqes[0].wrid.0, 20);
    assert_eq!(cqes[0].status, 0);

    let read_back = link.read_local_mr(read_lkey, 0, test_data.len()).unwrap();
    assert_eq!(&read_back, test_data);

    // Around the place written to, the region still holds zeros.
    link.rdma_read(21, remote_rkey, 99, 1, read_lkey, 0).unwrap();
    assert_eq!(link.read_local_mr(read_lkey, 0, 1).unwrap(), vec![0]);
    link.rdma_read(22, remote_rkey, 129, 1, read_lkey, 0).unwrap();
    assert_eq!(link.read_local_mr(read_lkey, 0, 1).unwrap(), vec![0]);
    link.disconnect();
}

#[test]
fn scattered_stretches_are_written_in_turn() {
    let mut link = Link::start();
    let access = AccessFlags::remote_write() | AccessFlags::remote_read();
    let remote = link.reg_mr(access, 16).unwrap();
    let a = link.reg_mr(AccessFlags::local_write(), 8).unwrap();
    let b = link.reg_mr(AccessFlags::local_write(), 8).unwrap();
    link.write_local_mr(a.lkey, 0, b"01234567").unwrap();
    link.write_local_mr(b.lkey, 0, b"abcdefgh").unwrap();
    let sg = [
        ScatterGatherEntry { lkey: b.lkey, offset: 6, length: 2 },
        ScatterGatherEntry { lkey: a.lkey, offset: 0, length: 3 },
        ScatterGatherEntry { lkey: b.lkey, offset: 0, length: 1 },
    ];
    link.rdma_write(1, remote.rkey, 2, &sg).unwrap();
    assert_eq!(link.poll_cq(1)[0].byte_count, 6);
    link.rdma_read(2, remote.rkey, 0, 10, a.lkey, 0).map(|_| ()).unwrap_err();
    let sink = link.reg_mr(AccessFlags::local_write(), 10).unwrap();
    link.rdma_read(3, remote.rkey, 0, 10, sink.lkey, 0).unwrap();
    assert_eq!(link.read_local_mr(sink.lkey, 0, 10).unwrap(), b"\0\0gh012a\0\0");
}

#[test]
fn rdma_write_access_denied() {
    let mut link = Link::start();
    let mr = link.reg_mr(AccessFlags::remote_read(), 256).unwrap();
    let local_mr = link.reg_mr(AccessFlags::local_write(), 256).unwrap();
    link.write_local_mr(local_mr.lkey, 0, b"data").unwrap();
    let err = link.rdma_write(1, mr.rkey, 0, &[stretch(local_mr.lkey, 4)]);
    assert!(err.is_err());
    assert_eq!(protocol_code(err), ErrorCode::ErrAccessDenied);
    link.disconnect();
}

#[test]
fn rdma_write_bounds_error() {
    let mut link = Link::start();
    let mr = link.reg_mr(AccessFlags::remote_write(), 64).unwrap();
    let local_mr = link.reg_mr(AccessFlags::local_write(), 256).unwrap();
    link.write_local_mr(local_mr.lkey, 0, &[0xAA; 128]).unwrap();

    // 128 bytes do not fit into a region of 64.
    let err = link.rdma_write(1, mr.rkey, 0, &[stretch(local_mr.lkey, 128)]);
    assert!(err.is_err());
    assert_eq!(protocol_code(err), ErrorCode::ErrBounds);
    let cqes = link.poll_cq(10);
    assert_eq!(cqes.len(), 1);
    assert_eq!(cqes[0].status, 0x0007);
    link.disconnect();
}

#[test]
fn rdma_read_invalid_rkey() {
    let mut link = Link::start();
    let local_mr = link.reg_mr(AccessFlags::local_write(), 256).unwrap();
    let err = link.rdma_read(1, RKey(0xDEADBEEF), 0, 64, local_mr.lkey, 0);
    assert!(err.is_err());
    assert_eq!(protocol_code(err), ErrorCode::ErrInvalidMkey);
    link.disconnect();
}

#[test]
fn rdma_read_without_the_right() {
    let mut link = Link::start();
    let mr = link.reg_mr(AccessFlags::remote_write(), 64).unwrap();
    let local = link.reg_mr(AccessFlags::local_write(), 64).unwrap();
    assert_eq!(
        protocol_code(link.rdma_read(1, mr.rkey, 0, 8, local.lkey, 0)),
        ErrorCode::ErrAccessDenied
    );
    let readable = link.reg_mr(AccessFlags::remote_read(), 64).unwrap();
    assert_eq!(
        protocol_code(link.rdma_read(2, readable.rkey, 60, 8, local.lkey, 0)),
        ErrorCode::ErrBounds
    );
    assert_eq!(
        protocol_code(link.rdma_read(3, readable.rkey, u64::MAX, 8, local.lkey, 0)),
        ErrorCode::ErrBounds
    );
    link.rdma_read(4, readable.rkey, 56, 8, local.lkey, 56).unwrap();
}

// ---------------------------------------------------------------------------
// Atomics
// ---------------------------------------------------------------------------

fn write_remote_u64(link: &mut Link, rkey: RKey, offset: u64, value: u64) {
    let local_mr = link.reg_mr(AccessFlags::local_write(), 8).unwrap();
    link.write_local_mr(local_mr.lkey, 0, &value.to_be_bytes()).unwrap();
    link.rdma_write(0, rkey, offset, &[stretch(local_mr.lkey, 8)]).unwrap();
    link.poll_cq(10);
}

fn read_remote_u64(link: &mut Link, rkey: RKey, offset: u64) -> u64 {
    let local_mr = link.reg_mr(AccessFlags::local_write(), 8).unwrap();
    link.rdma_read(0, rkey, offset, 8, local_mr.lkey, 0).unwrap();
    link.poll_cq(10);
    let data = link.read_local_mr(local_mr.lkey, 0, 8).unwrap();
    u64::from_be_bytes(data.try_into().unwrap())
}

fn atomic_region(link: &mut Link) -> MemoryRegionHandle {
    let access =
        AccessFlags::remote_atomic() | AccessFlags::remote_write() | AccessFlags::remote_read();
    link.reg_mr(access, 64).unwrap()
}

#[test]
fn atomic_cas_success() {
    let mut link = Link::start();
    let mr = atomic_region(&mut link);
    write_remote_u64(&mut link, mr.rkey, 0, 0xDEADBEEF);

    let original = link.atomic_cas(1, mr.rkey, 0, 0xDEADBEEF, 0xCAFEBABE).unwrap();
    assert_eq!(original, 0xDEADBEEF);

    let cqes = link.poll_cq(10);
    assert_eq!(cqes.len(), 1);
    assert_eq!(cqes[0].wrid.0, 1);
    assert_eq!(cqes[0].status, 0);
    assert_eq!(cqes[0].byte_count, 8);

    let readback = read_remote_u64(&mut link, mr.rkey, 0);
    assert_eq!(readback, 0xCAFEBABE);
    link.disconnect();
}

#[test]
fn atomic_cas_no_match() {
    let mut link = Link::start();
    let mr = atomic_region(&mut link);
    write_remote_u64(&mut link, mr.rkey, 0, 0xDEADBEEF);

    let original = link.atomic_cas(1, mr.rkey, 0, 0x1111, 0xCAFE).unwrap();
    assert_eq!(original, 0xDEADBEEF);

    let readback = read_remote_u64(&mut link, mr.rkey, 0);
    assert_eq!(readback, 0xDEADBEEF);
    link.disconnect();
}

#[test]
fn atomic_faa() {
    let mut link = Link::start();
    let mr = atomic_region(&mut link);
    write_remote_u64(&mut link, mr.rkey, 0, 100);

    let original = link.atomic_faa(1, mr.rkey, 0, 50).unwrap();
    assert_eq!(original, 100);

    let readback = read_remote_u64(&mut link, mr.rkey, 0);
    assert_eq!(readback, 150);
    link.disconnect();
}

#[test]
fn atomic_faa_wraps() {
    let mut link = Link::start();
    let mr = atomic_region(&mut link);
    write_remote_u64(&mut link, mr.rkey, 8, u64::MAX);
    assert_eq!(link.atomic_faa(1, mr.rkey, 8, 3).unwrap(), u64::MAX);
    assert_eq!(read_remote_u64(&mut link, mr.rkey, 8), 2);
    assert_eq!(read_remote_u64(&mut link, mr.rkey, 0), 0);
    assert_eq!(read_remote_u64(&mut link, mr.rkey, 16), 0);
}

#[test]
fn atomic_alignment_error() {
    let mut link = Link::start();
    let mr = link.reg_mr(AccessFlags::remote_atomic(), 64).unwrap();
    let err = link.atomic_cas(1, mr.rkey, 3, 0, 0);
    assert!(err.is_err());
    assert_eq!(protocol_code(err), ErrorCode::ErrAlignment);
    link.disconnect();
}

#[test]
fn atomic_access_denied() {
    let mut link = Link::start();
    let mr = link.reg_mr(AccessFlags::remote_write(), 64).unwrap();
    let err = link.atomic_cas(1, mr.rkey, 0, 0, 0);
    assert!(err.is_err());
    assert_eq!(protocol_code(err), ErrorCode::ErrAccessDenied);
    link.disconnect();
}

#[test]
fn atomic_bounds_error() {
    let mut link = Link::start();
    let mr = link.reg_mr(AccessFlags::remote_atomic(), 16).unwrap();

    // A word at 16 needs bytes 16 to 24 of a region of 16.
    let err = link.atomic_cas(1, mr.rkey, 16, 0, 0);
    assert!(err.is_err());
    assert_eq!(protocol_code(err), ErrorCode::ErrBounds);
    link.disconnect();
}

// ---------------------------------------------------------------------------
// Posted receives
// ---------------------------------------------------------------------------

#[test]
fn send_exhausts_recv_queue() {
    let mut link = Link::start_with_config(ServerConfig { recv_queue_depth: 3 });
    let mr = link.reg_mr(AccessFlags::local_write(), 256).unwrap();
    link.write_local_mr(mr.lkey, 0, b"hello").unwrap();
    let sg = vec![stretch(mr.lkey, 5)];

    for i in 1..=3u64 {
        link.post_send(i, &sg).unwrap();
        let cqes = link.poll_cq(10);
        assert_eq!(cqes.len(), 1);
        assert_eq!(cqes[0].status, 0);
    }

    let err = link.post_send(4, &sg);
    assert!(err.is_err());
    assert_eq!(protocol_code(err), ErrorCode::ErrRnr);
    let cqes = link.poll_cq(10);
    assert_eq!(cqes.len(), 1);
    assert_eq!(cqes[0].status, u16::from(ErrorCode::ErrRnr));

    // The session is still open: a write works.
    let remote_mr = link.reg_mr(AccessFlags::remote_write(), 64).unwrap();
    link.write_local_mr(mr.lkey, 0, b"alive").unwrap();
    link.rdma_write(10, remote_mr.rkey, 0, &[stretch(mr.lkey, 5)]).unwrap();
    let cqes = link.poll_cq(10);
    assert_eq!(cqes.len(), 1);
    assert_eq!(cqes[0].status, 0);
    link.disconnect();
}

#[test]
fn receives_run_out_among_other_requests() {
    let mut link = Link::start_with_config(ServerConfig { recv_queue_depth: 2 });
    let remote = atomic_region(&mut link);
    let local = link.reg_mr(AccessFlags::local_write(), 16).unwrap();
    let sg = [stretch(local.lkey, 8)];
    let mut accepted = 0;
    for wrid in 0..4u64 {
        link.rdma_write(10 + wrid, remote.rkey, 0, &sg).unwrap();
        match link.post_send(wrid, &sg) {
            Ok(()) => accepted += 1,
            Err(e) => assert_eq!(e.to_string(), "protocol error: ERR_RNR"),
        }
        link.rdma_read(20 + wrid, remote.rkey, 0, 8, local.lkey, 0).unwrap();
        link.atomic_faa(30 + wrid, remote.rkey, 8, 1).unwrap();
        assert_eq!(link.session.recv_queue_depth, 2 - accepted);
    }
    assert_eq!(accepted, 2);
    assert_eq!(link.session.state, SessionState::Ready);
    assert_eq!(read_remote_u64(&mut link, remote.rkey, 8), 4);
}

#[test]
fn send_recv_queue_depth_one() {
    let mut link = Link::start_with_config(ServerConfig { recv_queue_depth: 1 });
    let mr = link.reg_mr(AccessFlags::local_write(), 256).unwrap();
    link.write_local_mr(mr.lkey, 0, b"data").unwrap();
    let sg = vec![stretch(mr.lkey, 4)];

    link.post_send(1, &sg).unwrap();
    let cqes = link.poll_cq(10);
    assert_eq!(cqes.len(), 1);
    assert_eq!(cqes[0].status, 0);

    let err = link.post_send(2, &sg);
    assert!(err.is_err());
    assert_eq!(protocol_code(err), ErrorCode::ErrRnr);
    link.disconnect();
}

#[test]
fn send_recv_queue_depth_zero() {
    let mut link = Link::start_with_config(ServerConfig { recv_queue_depth: 0 });
    let mr = link.reg_mr(AccessFlags::local_write(), 256).unwrap();
    link.write_local_mr(mr.lkey, 0, b"data").unwrap();
    let sg = vec![stretch(mr.lkey, 4)];

    let err = link.post_send(1, &sg);
    assert!(err.is_err());
    assert_eq!(protocol_code(err), ErrorCode::ErrRnr);
    link.disconnect();
}

#[test]
fn err_rnr_does_not_close_connection() {
    let mut link = Link::start_with_config(ServerConfig { recv_queue_depth: 0 });
    let mr = link.reg_mr(AccessFlags::local_write(), 256).unwrap();
    link.write_local_mr(mr.lkey, 0, b"data").unwrap();
    let sg = vec![stretch(mr.lkey, 4)];

    let err = link.post_send(1, &sg);
    assert!(err.is_err());
    link.poll_cq(10);

    let remote_mr = link
        .reg_mr(AccessFlags::remote_write() | AccessFlags::remote_read(), 256)
        .unwrap();
    link.write_local_mr(mr.lkey, 0, b"test").unwrap();
    link.rdma_write(10, remote_mr.rkey, 0, &[stretch(mr.lkey, 4)]).unwrap();
    let cqes = link.poll_cq(10);
    assert_eq!(cqes.len(), 1);
    assert_eq!(cqes[0].status, 0);

    let read_mr = link.reg_mr(AccessFlags::local_write(), 256).unwrap();
    link.rdma_read(20, remote_mr.rkey, 0, 4, read_mr.lkey, 0).unwrap();
    let cqes = link.poll_cq(10);
    assert_eq!(cqes.len(), 1);
    assert_eq!(cqes[0].status, 0);
    let read_back = link.read_local_mr(read_mr.lkey, 0, 4).unwrap();
    assert_eq!(&read_back, b"test");
    link.disconnect();
}

// ---------------------------------------------------------------------------
// Completion queue, credits and sequence numbers
// ---------------------------------------------------------------------------

#[test]
fn cq_overflow() {
    let mut link = Link::start_with(ServerConfig::default(), ConnectConfig { cq_capacity: 2 });
    let access = AccessFlags::remote_write()
        | AccessFlags::remote_read()
        | AccessFlags::remote_atomic();
    let remote = link.reg_mr(access, 64).unwrap();
    let local = link.reg_mr(AccessFlags::local_write(), 64).unwrap();
    let sg = [stretch(local.lkey, 8)];
    link.rdma_write(1, remote.rkey, 0, &sg).unwrap();
    link.rdma_read(2, remote.rkey, 0, 8, local.lkey, 0).unwrap();

    // The queue is full: nothing is sent any more.
    let seen = link.session.expected_remote_seq;
    assert_eq!(protocol_code(link.post_send(3, &sg)), ErrorCode::ErrCqOverflow);
    assert_eq!(protocol_code(link.rdma_write(3, remote.rkey, 0, &sg)), ErrorCode::ErrCqOverflow);
    assert_eq!(
        protocol_code(link.rdma_read(3, remote.rkey, 0, 8, local.lkey, 0)),
        ErrorCode::ErrCqOverflow
    );
    assert_eq!(protocol_code(link.atomic_faa(3, remote.rkey, 0, 1)), ErrorCode::ErrCqOverflow);
    assert_eq!(
        protocol_code(link.atomic_cas(3, remote.rkey, 0, 1, 2)),
        ErrorCode::ErrCqOverflow
    );
    assert_eq!(link.session.expected_remote_seq, seen);

    // Polling makes room, oldest first.
    assert_eq!(link.poll_cq(1)[0].wrid.0, 1);
    link.atomic_faa(4, remote.rkey, 0, 1).unwrap();
    let wrids: Vec<u64> = link.poll_cq(10).iter().map(|c| c.wrid.0).collect();
    assert_eq!(wrids, vec![2, 4]);
}

#[test]
fn send_credits_exhausted() {
    let mut link = Link::start();
    assert_eq!(link.conn.send_credits(), 65_535);
    let mr = link.reg_mr(AccessFlags::local_write(), 16).unwrap();
    let sg = [stretch(mr.lkey, 4)];
    link.conn.set_send_credits(2);
    link.post_send(1, &sg).unwrap();
    link.post_send(2, &sg).unwrap();
    assert_eq!(link.conn.send_credits(), 0);

    let seen = link.session.expected_remote_seq;
    let err = link.post_send(3, &sg).unwrap_err();
    assert!(matches!(err, RdowsError::SendCreditsExhausted));
    assert_eq!(err.to_string(), "send credits exhausted");
    assert_eq!(link.session.expected_remote_seq, seen);
    assert_eq!(link.poll_cq(10).len(), 2);

    // One-sided operations need no credit.
    let remote = link.reg_mr(AccessFlags::remote_write(), 16).unwrap();
    link.rdma_write(4, remote.rkey, 0, &sg).unwrap();
}

#[test]
fn refused_send_costs_no_credit() {
    let mut link = Link::start_with_config(ServerConfig { recv_queue_depth: 0 });
    let mr = link.reg_mr(AccessFlags::local_write(), 16).unwrap();
    assert_eq!(protocol_code(link.post_send(1, &[stretch(mr.lkey, 4)])), ErrorCode::ErrRnr);
    assert_eq!(link.conn.send_credits(), 65_535);
}

#[test]
fn credits_are_granted_back() {
    let mut link = Link::start();
    link.session.icc = 8;
    let mr = link.reg_mr(AccessFlags::local_write(), 16).unwrap();
    let sg = [stretch(mr.lkey, 4)];
    link.conn.set_send_credits(3);
    link.post_send(1, &sg).unwrap();
    assert_eq!(link.conn.send_credits(), 2);
    // The second message makes a quarter of the initial credits.
    link.post_send(2, &sg).unwrap();
    assert_eq!(link.conn.send_credits(), 1);
    assert_eq!(link.inbox.len(), 1);
    // The grant is taken in before the next reply.
    link.post_send(3, &sg).unwrap();
    assert_eq!(link.conn.send_credits(), 2);
    assert!(link.inbox.is_empty());
}

#[test]
fn sequence_validation_normal() {
    let mut link = Link::start();
    assert_eq!(link.session.expected_remote_seq, Some(1));
    let mr = link.reg_mr(AccessFlags::local_write(), 16).unwrap();
    assert_eq!(link.session.expected_remote_seq, Some(2));
    link.post_send(1, &[stretch(mr.lkey, 4)]).unwrap();
    assert_eq!(link.session.expected_remote_seq, Some(4));
    link.dereg_mr(mr.lkey).unwrap();
    assert_eq!(link.session.expected_remote_seq, Some(5));
    assert_eq!(link.session.next_seq, 4);
}

#[test]
fn sequence_gap_detected() {
    let mut link = Link::start();
    // A frame that the server never sees.
    let _ = link.conn.reg_mr(AccessFlags::local_write(), 16);
    let frame = link.conn.reg_mr(AccessFlags::local_write(), 16);
    link.send(frame);
    assert_eq!(link.session.state, SessionState::Closed);
    match link.inbox.pop_front() {
        Some(RdowsMessage::Error(_, err)) => {
            assert_eq!(err.error_code, ErrorCode::ErrSeqGap);
            assert_eq!(err.failing_seq, 2);
        }
        other => panic!("expected ERROR, got: {other:?}"),
    }
    // A closed session does nothing any more.
    let frame = link.conn.reg_mr(AccessFlags::local_write(), 16);
    link.send(frame);
    assert!(link.inbox.is_empty());
}

#[test]
fn client_detects_a_gap() {
    let mut link = Link::start();
    let frame = link.conn.reg_mr(AccessFlags::local_write(), 16);
    link.send(frame);
    link.inbox.clear();
    let frame = link.conn.reg_mr(AccessFlags::local_write(), 16);
    link.send(frame);
    assert_eq!(protocol_code(link.recv()), ErrorCode::ErrSeqGap);
}

#[test]
fn replies_of_another_kind_are_errors() {
    let mut link = Link::start();
    let local = link.reg_mr(AccessFlags::local_write(), 16).unwrap();
    let sg = [stretch(local.lkey, 4)];
    // A reply to a registration is none to a write.
    let frame = link.conn.reg_mr(AccessFlags::local_write(), 16);
    link.send(frame);
    let reply = link.recv().unwrap();
    let posted = link.conn.rdma_write(1, RKey(1), 0, &sg).unwrap();
    let err = link.conn.rdma_write_complete(1, posted.byte_count, reply).unwrap_err();
    assert_eq!(err.to_string(), "unexpected message: expected WRITE_COMP, got MrRegAck");
    assert!(link.poll_cq(1).is_empty());
}

#[test]
fn gathering_stops_at_the_first_bad_stretch() {
    let mut link = Link::start();
    let local = link.reg_mr(AccessFlags::local_write(), 16).unwrap();
    let good = stretch(local.lkey, 16);
    let long = stretch(local.lkey, 17);
    let unknown = stretch(LKey(999), 1);
    assert_eq!(protocol_code(link.post_send(1, &[good, long, unknown])), ErrorCode::ErrBounds);
    assert_eq!(
        protocol_code(link.post_send(1, &[good, unknown, long])),
        ErrorCode::ErrInvalidLkey
    );
    assert!(link.conn.sg_addressable(&[good, long]));
    let far = ScatterGatherEntry { lkey: local.lkey, offset: u64::MAX, length: 1 };
    assert!(!link.conn.sg_addressable(&[far]));
    assert!(link.conn.sg_addressable(&[unknown, far]));
}

#[test]
fn local_buffers() {
    let mut link = Link::start();
    let mr = link.reg_mr(AccessFlags::local_write(), 4).unwrap();
    link.write_local_mr(mr.lkey, 1, b"xy").unwrap();
    assert_eq!(link.read_local_mr(mr.lkey, 0, 4).unwrap(), b"\0xy\0");
    assert_eq!(protocol_code(link.write_local_mr(mr.lkey, 3, b"xy")), ErrorCode::ErrBounds);
    assert_eq!(protocol_code(link.read_local_mr(mr.lkey, 3, 2)), ErrorCode::ErrBounds);
    assert_eq!(protocol_code(link.write_local_mr(LKey(77), 0, b"")), ErrorCode::ErrInvalidLkey);
}
