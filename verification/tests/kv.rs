//! The key-value store over a session.

use std::collections::VecDeque;

use rdows::client::{ConnectConfig, RdowsConnection};
use rdows::connection;
use rdows::error::RdowsError;
use rdows::kv::probe::{DeleteStep, GetStep, PutStep};
use rdows::kv::slot::{
    cleared_slot, decode_slot, encode_slot, hash_key, hex_dump_region, slot_hex_lines,
    slot_readable,
};
use rdows::kv::{
    DeleteResult, GetResult, KvError, KvStore, PutResult, SlotInfo, MR_SIZE, SLOT_SIZE,
};
use rdows::memory::{AccessFlags, LKey, RKey};
use rdows::message::RdowsMessage;
use rdows::server::session::Session;

struct Store {
    kv: KvStore,
    session: Session,
    inbox: VecDeque<RdowsMessage>,
}

fn reply_to(
    conn: &mut RdowsConnection,
    session: &mut Session,
    frame: RdowsMessage,
) -> RdowsMessage {
    let mut replies = session.handle_message(frame).unwrap();
    assert_eq!(replies.len(), 1);
    conn.recv_app_message(replies.pop().unwrap()).unwrap().unwrap()
}

fn keys() -> (RdowsConnection, Session, RKey, LKey) {
    let mut session = Session::new(0);
    let (session_id, frame) = connection::open_session();
    let ack = session.handle_message(frame).unwrap().pop().unwrap();
    let params = connection::connect_complete(session_id, ack).unwrap();
    let mut conn =
        RdowsConnection::connect_with_config(params, ConnectConfig { cq_capacity: 1 });
    let access = AccessFlags::remote_write() | AccessFlags::remote_read();
    let frame = conn.reg_mr(access, MR_SIZE);
    let reply = reply_to(&mut conn, &mut session, frame);
    let table = conn.reg_mr_complete(MR_SIZE, reply).unwrap();
    let frame = conn.reg_mr(AccessFlags::local_write(), SLOT_SIZE as u64);
    let reply = reply_to(&mut conn, &mut session, frame);
    let buffer = conn.reg_mr_complete(SLOT_SIZE as u64, reply).unwrap();
    (conn, session, table.rkey, buffer.lkey)
}

impl Store {
    fn start() -> Self {
        let (conn, session, rkey, lkey) = keys();
        let session_id = conn.session_id();
        let kv = KvStore::new(conn, session_id, rkey, lkey);
        assert_eq!(kv.remote_rkey_value, rkey.0);
        assert_eq!(kv.session_id, session_id);
        Store { kv, session, inbox: VecDeque::new() }
    }

    fn send(&mut self, frame: RdowsMessage) {
        self.inbox.extend(self.session.handle_message(frame).unwrap());
    }

    fn recv(&mut self) -> Result<RdowsMessage, RdowsError> {
        loop {
            let frame = self.inbox.pop_front().expect("a reply");
            if let Some(reply) = self.kv.recv_app_message(frame)? {
                return Ok(reply);
            }
        }
    }

    fn read(&mut self, index: usize) -> Result<[u8; SLOT_SIZE], KvError> {
        let read = self.kv.read_slot(index)?;
        self.send(read.frame);
        let reply = self.recv()?;
        let slot = self.kv.read_slot_complete(read.wrid, reply)?;
        assert!(slot_readable(&slot));
        Ok(slot)
    }

    fn write(&mut self, index: usize, data: &[u8; SLOT_SIZE]) -> Result<(), KvError> {
        let write = self.kv.write_slot(index, data)?;
        self.send(write.posted.request);
        self.send(write.posted.data);
        let reply = self.recv()?;
        self.kv.write_slot_complete(write.wrid, write.posted.byte_count, reply)
    }

    fn put(&mut self, key: &str, value: &str) -> Result<PutResult, KvError> {
        let mut op = self.kv.put(key, value)?;
        loop {
            let slot = self.read(op.probe.slot_index())?;
            match op.step(&slot)? {
                PutStep::Write(index, data, result) => {
                    self.write(index, &data)?;
                    return Ok(result);
                }
                PutStep::Next(next) => op = next,
            }
        }
    }

    fn get(&mut self, key: &str) -> Result<Option<GetResult>, KvError> {
        let mut op = self.kv.get(key);
        loop {
            let slot = self.read(op.slot_index())?;
            match op.get_step(&slot) {
                GetStep::Done(found) => return Ok(found),
                GetStep::Next(next) => op = next,
            }
        }
    }

    fn delete(&mut self, key: &str) -> Result<DeleteResult, KvError> {
        let mut op = self.kv.delete(key);
        loop {
            let slot = self.read(op.slot_index())?;
            match op.delete_step(&slot) {
                DeleteStep::Write(index, data, result) => {
                    self.write(index, &data)?;
                    return Ok(result);
                }
                DeleteStep::Done(result) => return Ok(result),
                DeleteStep::Next(next) => op = next,
            }
        }
    }

    fn dump(&mut self) -> Result<Vec<SlotInfo>, KvError> {
        let mut op = self.kv.dump_slots();
        while let Some(index) = op.slot_index() {
            let slot = self.read(index)?;
            op = op.step(&slot);
        }
        Ok(op.slots)
    }

    fn value(&mut self, key: &str) -> Option<String> {
        self.get(key).unwrap().map(|r| r.value)
    }
}

/// Keys that all begin at the slot of "a".
fn colliding(n: usize) -> Vec<String> {
    let home = hash_key(b"a");
    (0..)
        .map(|i| format!("key{i}"))
        .filter(|k| hash_key(k.as_bytes()) == home)
        .take(n)
        .collect()
}

#[test]
fn hash_values() {
    // FNV-1a: 0x811C9DC5 of nothing, 0xE40C292C of "a", 0xBF9CF968 of "foobar".
    assert_eq!(hash_key(b""), 0x811C9DC5usize % 64);
    assert_eq!(hash_key(b"a"), 0xE40C292Cusize % 64);
    assert_eq!(hash_key(b"foobar"), 0xBF9CF968usize % 64);
}

#[test]
fn slot_layout() {
    let slot = encode_slot("key", "hello");
    assert_eq!(&slot[..8], &[1, 0, 3, 0, 5, b'k', b'e', b'y']);
    assert!(slot[8..260].iter().all(|b| *b == 0));
    assert_eq!(&slot[260..265], b"hello");
    assert!(slot[265..].iter().all(|b| *b == 0));
}

#[test]
fn slot_round_trip() {
    let key = "\u{fc}".repeat(127);
    let value = "v".repeat(764);
    let slot = encode_slot(&key, &value);
    assert_eq!(&slot[1..5], &[0, 254, 2, 252]);
    assert_eq!(decode_slot(&slot), Some((key, value)));
    assert_eq!(decode_slot(&encode_slot("", "")), Some((String::new(), String::new())));
    assert_eq!(decode_slot(&cleared_slot()), None);
    assert_eq!(cleared_slot(), [0u8; SLOT_SIZE]);
}

#[test]
fn slot_with_bytes_that_are_no_text() {
    let mut slot = encode_slot("ab", "c");
    slot[5] = 0xff;
    assert_eq!(decode_slot(&slot), Some(("\u{fffd}b".to_string(), "c".to_string())));
}

#[test]
fn unreadable_slots() {
    let mut slot = cleared_slot();
    assert!(slot_readable(&slot));
    slot[0] = 1;
    assert!(slot_readable(&slot));
    slot[3] = 2;
    slot[4] = 252;
    assert!(slot_readable(&slot));
    slot[4] = 253;
    assert!(!slot_readable(&slot));
    slot[4] = 0;
    slot[1] = 4;
    assert!(!slot_readable(&slot));
    slot[0] = 0;
    assert!(slot_readable(&slot));
}

#[test]
fn hex_dump_lines() {
    let data: Vec<u8> = (0x1E..0x30).collect();
    let lines = hex_dump_region(&data, 5, 3);
    assert_eq!(
        lines,
        vec![
            "0005  1E 1F 20 21 22 23 24 25 26 27 28 29 2A 2B 2C 2D   .. !\"#$%&'()*+,-",
            "0015  2E 2F                                             ./",
        ]
    );
    assert_eq!(hex_dump_region(&data, 0x1FFFF, 1)[0].len(), 5 + 2 + 48 + 2 + 16);
    assert!(hex_dump_region(&data, 0, 0).is_empty());
    assert!(hex_dump_region(&[], 0, 9).is_empty());
}

#[test]
fn slot_dump() {
    let lines = slot_hex_lines(&encode_slot("key", "hello"));
    assert_eq!(lines[0], "--- header (status, key_len, val_len) ---");
    assert_eq!(lines[1], format!("0000  01 00 03 00 05{}  .....", " ".repeat(34)));
    assert_eq!(lines[2], "--- key data (3 bytes) ---");
    assert!(lines[3].starts_with("0005  6B 65 79 00"));
    assert!(lines[3].ends_with("key............."));
    assert!(lines[4].starts_with("0015  00 00"));
    assert_eq!(lines[5], "--- value data (5 bytes) ---");
    assert!(lines[6].starts_with("0104  68 65 6C 6C 6F 00"));
    assert!(lines[7].starts_with("0114  00"));
    assert_eq!(lines.len(), 8);
    let lines = slot_hex_lines(&encode_slot(&"k".repeat(255), &"v".repeat(764)));
    assert_eq!(lines.len(), 3 + 1 + 16 + 48);
}

#[test]
fn put_then_get() {
    let mut store = Store::start();
    let put = store.put("name", "Ada").unwrap();
    let home = hash_key(b"name");
    assert_eq!(put.operation, "RDMA_WRITE");
    assert_eq!(put.slot, home);
    assert_eq!(put.offset, format!("0x{:04X}", home * 1024));
    assert_eq!(put.bytes, 1024);
    assert_eq!(put.key, "name");
    assert_eq!(put.value, "Ada");
    assert_eq!(put.probes, 1);
    assert!(!put.update);

    let got = store.get("name").unwrap().unwrap();
    assert_eq!(got.operation, "RDMA_READ");
    assert_eq!(got.slot, home);
    assert_eq!(got.offset, put.offset);
    assert_eq!(got.bytes, 1024);
    assert_eq!(got.key, "name");
    assert_eq!(got.value, "Ada");
    assert_eq!(got.probes, 1);
    assert_eq!(got.raw_hex, slot_hex_lines(&encode_slot("name", "Ada")));
    assert!(store.get("other").unwrap().is_none());
}

#[test]
fn put_updates_in_place() {
    let mut store = Store::start();
    let first = store.put("k", "1").unwrap();
    let second = store.put("k", "2").unwrap();
    assert_eq!(second.slot, first.slot);
    assert!(second.update);
    assert_eq!(store.value("k"), Some("2".to_string()));
    assert_eq!(store.dump().unwrap().iter().filter(|s| s.occupied).count(), 1);
}

#[test]
fn delete_then_get() {
    let mut store = Store::start();
    store.put("k", "1").unwrap();
    let deleted = store.delete("k").unwrap();
    assert!(deleted.found);
    assert_eq!(deleted.operation, "RDMA_WRITE");
    assert_eq!(deleted.slot, hash_key(b"k"));
    assert_eq!(deleted.probes, 1);
    assert_eq!(deleted.bytes, 1024);
    assert_eq!(store.value("k"), None);
    let again = store.delete("k").unwrap();
    assert!(!again.found);
    assert_eq!(again.operation, "RDMA_WRITE");
    assert_eq!(again.key, "k");
}

#[test]
fn collisions_go_to_the_next_slots() {
    let mut store = Store::start();
    let keys = colliding(3);
    let home = hash_key(b"a");
    for (i, key) in keys.iter().enumerate() {
        let put = store.put(key, "v").unwrap();
        assert_eq!(put.slot, (home + i) % 64);
        assert_eq!(put.probes, i + 1);
    }
    // Putting one key leaves the entries of the others.
    store.put(&keys[0], "w").unwrap();
    assert_eq!(store.value(&keys[0]), Some("w".to_string()));
    assert_eq!(store.value(&keys[1]), Some("v".to_string()));
    assert_eq!(store.value(&keys[2]), Some("v".to_string()));
    // A cleared slot ends the search: what lies beyond it is out of sight.
    store.delete(&keys[1]).unwrap();
    assert_eq!(store.value(&keys[0]), Some("w".to_string()));
    assert_eq!(store.value(&keys[2]), None);
}

#[test]
fn full_table() {
    let mut store = Store::start();
    let mut i = 0;
    let mut stored = 0;
    while stored < 64 {
        let key = format!("k{i}");
        if !store.put(&key, "v").unwrap().update {
            stored += 1;
        }
        i += 1;
    }
    assert!(store.dump().unwrap().iter().all(|s| s.occupied));
    assert!(matches!(store.put("one more", "v"), Err(KvError::TableFull)));
    assert!(store.get("one more").unwrap().is_none());
    let missing = store.delete("one more").unwrap();
    assert!(!missing.found);
    assert_eq!(missing.operation, "RDMA_READ");
    assert_eq!(missing.probes, 64);
    assert_eq!(missing.slot, hash_key(b"one more"));
    assert!(store.put("k0", "w").unwrap().update);
}

#[test]
fn too_long() {
    let mut store = Store::start();
    assert!(matches!(store.put(&"k".repeat(256), "v"), Err(KvError::KeyTooLong)));
    assert!(matches!(store.put("k", &"v".repeat(765)), Err(KvError::ValueTooLong)));
    assert!(matches!(
        store.put(&"k".repeat(256), &"v".repeat(765)),
        Err(KvError::KeyTooLong)
    ));
    // The limits count bytes, not characters.
    assert!(matches!(store.put(&"\u{fc}".repeat(128), "v"), Err(KvError::KeyTooLong)));
    let key = "k".repeat(255);
    let value = "v".repeat(764);
    store.put(&key, &value).unwrap();
    assert_eq!(store.value(&key), Some(value));
}

#[test]
fn dump_lists_every_slot() {
    let mut store = Store::start();
    store.put("k", "v").unwrap();
    let slots = store.dump().unwrap();
    assert_eq!(slots.len(), 64);
    for (i, slot) in slots.iter().enumerate() {
        assert_eq!(slot.index, i);
        assert_eq!(slot.offset, format!("0x{:04X}", i * 1024));
        assert_eq!(slot.occupied, i == hash_key(b"k"));
    }
    let slot = &slots[hash_key(b"k")];
    assert_eq!(slot.key.as_deref(), Some("k"));
    assert_eq!(slot.value.as_deref(), Some("v"));
    assert!(slots[(hash_key(b"k") + 1) % 64].key.is_none());
}

#[test]
fn errors_of_the_session_come_through() {
    let (conn, session, rkey, _) = keys();
    let session_id = conn.session_id();
    let mut store = Store {
        kv: KvStore::new(conn, session_id, rkey, LKey(999)),
        session,
        inbox: VecDeque::new(),
    };
    match store.get("k") {
        Err(e) => assert_eq!(e.to_string(), "RDMA error: protocol error: ERR_INVALID_LKEY"),
        Ok(_) => panic!("expected an error"),
    }
    assert_eq!(store.kv.wrid(), 2);
    let (conn, session, _, lkey) = keys();
    let session_id = conn.session_id();
    let mut store = Store {
        kv: KvStore::new(conn, session_id, RKey(0), lkey),
        session,
        inbox: VecDeque::new(),
    };
    match store.get("k") {
        Err(e) => assert_eq!(e.to_string(), "RDMA error: protocol error: ERR_INVALID_MKEY"),
        Ok(_) => panic!("expected an error"),
    }
    // The completion of the failed read was left in the queue, which is full now.
    match store.get("k") {
        Err(e) => assert_eq!(e.to_string(), "RDMA error: protocol error: ERR_CQ_OVERFLOW"),
        Ok(_) => panic!("expected an error"),
    }
}
