//! The completion queue, and the texts of errors.

use rdows::completion::CompletionQueue;
use rdows::error::{status_code, ErrorCode, InvalidErrorCode, RdowsError};
use rdows::kv::KvError;
use rdows::opcode::Opcode;
use rdows::queue::{CompletionQueueEntry, WorkRequestId};

fn entry(wrid: u64) -> CompletionQueueEntry {
    CompletionQueueEntry {
        wrid: WorkRequestId(wrid),
        status: 0,
        opcode: Opcode::Send,
        vendor_error: 0,
        byte_count: 0,
        qp_number: 0,
    }
}

#[test]
fn queue_is_first_in_first_out() {
    let mut cq = CompletionQueue::new(3);
    assert!(cq.is_empty());
    assert!(!cq.is_full());
    for i in 0..3 {
        assert!(cq.push(entry(i)));
    }
    assert!(cq.is_full());
    assert_eq!(cq.len(), 3);
    assert!(!cq.push(entry(3)));
    let first: Vec<u64> = cq.poll_cq(2).iter().map(|c| c.wrid.0).collect();
    assert_eq!(first, vec![0, 1]);
    assert!(cq.push(entry(4)));
    let rest: Vec<u64> = cq.poll_cq(10).iter().map(|c| c.wrid.0).collect();
    assert_eq!(rest, vec![2, 4]);
    assert!(cq.is_empty());
    assert!(cq.poll_cq(1).is_empty());
}

#[test]
fn queue_without_room() {
    let mut cq = CompletionQueue::new(0);
    assert!(cq.is_full());
    assert!(cq.is_empty());
    assert!(!cq.push(entry(1)));
    assert_eq!(cq.len(), 0);
}

#[test]
fn status_field() {
    assert_eq!(status_code(0x0006), ErrorCode::ErrAccessDenied);
    assert_eq!(status_code(0x1234), ErrorCode::ErrInternal);
    assert_eq!(ErrorCode::try_from(0x1234), Err(InvalidErrorCode(0x1234)));
}

#[test]
fn error_texts() {
    assert_eq!(ErrorCode::ErrUnknownOpcode.to_string(), "ERR_UNKNOWN_OPCODE");
    assert_eq!(InvalidErrorCode(0xAB).to_string(), "invalid RDoWS error code: 0x00AB");
    assert_eq!(
        RdowsError::InvalidVersion(0x2).to_string(),
        "invalid protocol version: 0x02"
    );
    assert_eq!(RdowsError::InvalidOpcode(0xF3).to_string(), "invalid opcode: 0xF3");
    assert_eq!(
        RdowsError::PayloadTooShort { expected: 120, got: 0 }.to_string(),
        "payload too short: expected at least 120 bytes, got 0"
    );
    assert_eq!(
        RdowsError::HeaderTooShort(9).to_string(),
        "header too short: need 24 bytes, got 9"
    );
    assert_eq!(
        RdowsError::Protocol(ErrorCode::ErrTimeout).to_string(),
        "protocol error: ERR_TIMEOUT"
    );
    assert_eq!(
        RdowsError::ConnectionRejected("x".to_string()).to_string(),
        "connection rejected: x"
    );
    assert_eq!(RdowsError::SessionNotReady.to_string(), "session not ready");
    assert_eq!(RdowsError::SessionClosed.to_string(), "session closed");
    assert_eq!(RdowsError::Tls("x".to_string()).to_string(), "tls error: x");
    let io = std::io::Error::new(std::io::ErrorKind::Other, "boom");
    let io = RdowsError::from(io);
    assert_eq!(io.to_string(), "io error: boom");
    assert_eq!(io.to_string_with("bang"), "io error: bang");
    assert_eq!(RdowsError::SessionClosed.to_string_with("bang"), "session closed");
}

#[test]
fn store_error_texts() {
    assert_eq!(KvError::TableFull.to_string(), "hash table full");
    assert_eq!(KvError::KeyTooLong.to_string(), "key exceeds 255 bytes");
    assert_eq!(KvError::ValueTooLong.to_string(), "value exceeds 764 bytes");
    let e = KvError::from(RdowsError::SessionClosed);
    assert_eq!(e.to_string(), "RDMA error: session closed");
    let io = std::io::Error::new(std::io::ErrorKind::Other, "boom");
    let e = KvError::from(RdowsError::from(io));
    assert_eq!(e.to_string(), "RDMA error: io error: boom");
    assert_eq!(e.to_string_with("bang"), "RDMA error: io error: bang");
}
