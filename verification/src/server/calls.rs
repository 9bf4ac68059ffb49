//! What the calls of the server's memory and sessions promise their callers.
use vstd::prelude::*;

use super::effects;
use super::memory_store::{MemoryStore, StoreModel};
use super::session;
use super::session::{Session, SessionAction, SessionEvent, SessionModel};
use crate::error::{ErrorCode, RdowsError};
use crate::frame::RdowsHeader;
use crate::memory::{AccessFlags, LKey, RKey};
use crate::message::{AtomicType, MessageModel, RdowsMessage};
use crate::opcode::Opcode;

verus! {

/// `MemoryStore::new` makes a store without regions that handed out no key.
pub proof fn law_new_store(r: MemoryStore, k: u32)
    requires
        call_ensures(MemoryStore::new, (), r),
    ensures
        !r@.regions.contains_key(k),
        !r@.rkeys.contains_key(k),
        !r@.issued.contains(k),
        r@.last_lkey == 0,
{
}

/// `write` puts the data at its place in a region that may be written and has
/// room for it, and changes no other byte of any region; otherwise it says what
/// failed first and changes nothing.
pub proof fn law_write(
    m: &mut MemoryStore,
    rkey: RKey,
    va: u64,
    data: &[u8],
    r: Result<(), ErrorCode>,
)
    requires
        call_ensures(MemoryStore::write, (m, rkey, va, data), r),
    ensures
        ({
            let region = old(m)@.regions[rkey.0];
            let refused = |code: ErrorCode|
                r == Err::<(), ErrorCode>(code) && final(m)@ == old(m)@;
            if !old(m)@.regions.contains_key(rkey.0) {
                refused(ErrorCode::ErrInvalidMkey)
            } else if !region.access.remote_write {
                refused(ErrorCode::ErrAccessDenied)
            } else if va + data@.len() > region.bytes.len() {
                refused(ErrorCode::ErrBounds)
            } else {
                &&& r == Ok::<(), ErrorCode>(())
                &&& effects::same_but_bytes_of(old(m)@, final(m)@, rkey.0)
                &&& forall|i: int|
                    0 <= i < region.bytes.len() ==> #[trigger] final(m)@.regions[rkey.0].bytes[i]
                        == if va <= i < va + data@.len() {
                        data@[i - va]
                    } else {
                        region.bytes[i]
                    }
            }
        }),
{
    effects::law_store_write(old(m)@, rkey, va, data@);
}

/// `read` gives the bytes asked for as they lie in a region that may be read and
/// holds them all; otherwise it says what failed first.
pub proof fn law_read(
    m: &MemoryStore,
    rkey: RKey,
    va: u64,
    len: u64,
    r: Result<Vec<u8>, ErrorCode>,
)
    requires
        call_ensures(MemoryStore::read, (m, rkey, va, len), r),
    ensures
        ({
            let region = m@.regions[rkey.0];
            if !m@.regions.contains_key(rkey.0) {
                r == Err::<Vec<u8>, ErrorCode>(ErrorCode::ErrInvalidMkey)
            } else if !region.access.remote_read {
                r == Err::<Vec<u8>, ErrorCode>(ErrorCode::ErrAccessDenied)
            } else if va + len > region.bytes.len() {
                r == Err::<Vec<u8>, ErrorCode>(ErrorCode::ErrBounds)
            } else {
                &&& r matches Ok(v)
                &&& v@.len() == len
                &&& forall|i: int| 0 <= i < len ==> #[trigger] v@[i] == region.bytes[va + i]
            }
        }),
{
}

/// `atomic` gives the word from before it and leaves the sum or the swapped word,
/// in a region that allows it; no byte outside the word, no other region, no
/// length and no key changed. Otherwise it says what failed first and changes
/// nothing.
pub proof fn law_atomic(
    m: &mut MemoryStore,
    rkey: RKey,
    va: u64,
    atomic_type: AtomicType,
    operand1: u64,
    operand2: u64,
    r: Result<u64, ErrorCode>,
)
    requires
        call_ensures(MemoryStore::atomic, (m, rkey, va, atomic_type, operand1, operand2), r),
    ensures
        ({
            let region = old(m)@.regions[rkey.0];
            let refused = |code: ErrorCode|
                r == Err::<u64, ErrorCode>(code) && final(m)@ == old(m)@;
            if !old(m)@.regions.contains_key(rkey.0) {
                refused(ErrorCode::ErrInvalidMkey)
            } else if !region.access.remote_atomic {
                refused(ErrorCode::ErrAccessDenied)
            } else if va % 8 != 0 {
                refused(ErrorCode::ErrAlignment)
            } else if va + 8 > region.bytes.len() {
                refused(ErrorCode::ErrBounds)
            } else {
                &&& r matches Ok(word)
                &&& word == effects::word_at(region.bytes, va as int)
                &&& effects::word_at(final(m)@.regions[rkey.0].bytes, va as int)
                    == match atomic_type {
                    AtomicType::FetchAndAdd => (word + operand1) % 0x1_0000_0000_0000_0000,
                    AtomicType::CompareAndSwap => if word == operand1 {
                        operand2 as int
                    } else {
                        word as int
                    },
                }
                &&& effects::same_but_bytes_of(old(m)@, final(m)@, rkey.0)
                &&& forall|i: int|
                    0 <= i < region.bytes.len() && !(va <= i < va + 8)
                        ==> #[trigger] final(m)@.regions[rkey.0].bytes[i] == region.bytes[i]
            }
        }),
{
    effects::law_store_atomic(old(m)@, rkey, va, atomic_type, operand1, operand2);
}

/// `register` adds a region of zeros, with the length and the rights asked for,
/// under the next local key and a remote key that was never handed out; every
/// other region and key is as it was. It fails only where the region cannot be
/// addressed or no key is left, and then changes nothing.
pub proof fn law_register(
    m: &mut MemoryStore,
    access: AccessFlags,
    region_len: u64,
    draw: u32,
    r: Option<(LKey, RKey)>,
    k: u32,
)
    requires
        call_ensures(MemoryStore::register, (m, access, region_len, draw), r),
    ensures
        match r {
            None => {
                &&& final(m)@ == old(m)@
                &&& region_len > isize::MAX || old(m)@.last_lkey == u32::MAX || k == 0
                    || old(m)@.issued.contains(k)
            },
            Some((lkey, rkey)) => {
                let new = final(m)@.regions[rkey.0];
                &&& region_len <= isize::MAX
                &&& lkey.0 == old(m)@.last_lkey + 1
                &&& final(m)@.last_lkey == lkey.0
                &&& rkey.0 != 0
                &&& !old(m)@.issued.contains(rkey.0)
                &&& draw != 0 && !old(m)@.issued.contains(draw) ==> rkey.0 == draw
                &&& final(m)@.regions.contains_key(rkey.0)
                &&& new.lkey == lkey
                &&& new.access == access
                &&& new.bytes.len() == region_len
                &&& forall|i: int| 0 <= i < region_len ==> #[trigger] new.bytes[i] == 0
                &&& final(m)@.rkeys.contains_key(lkey.0) && final(m)@.rkeys[lkey.0] == rkey.0
                &&& final(m)@.issued.contains(k) <==> old(m)@.issued.contains(k) || k == rkey.0
                &&& k != rkey.0 ==> final(m)@.regions.contains_key(k)
                    == old(m)@.regions.contains_key(k)
                &&& k != rkey.0 && old(m)@.regions.contains_key(k) ==> final(m)@.regions[k]
                    == old(m)@.regions[k]
                &&& k != lkey.0 ==> final(m)@.rkeys.contains_key(k) == old(m)@.rkeys.contains_key(k)
                &&& k != lkey.0 && old(m)@.rkeys.contains_key(k) ==> final(m)@.rkeys[k]
                    == old(m)@.rkeys[k]
            },
        },
{
    effects::law_store_registration(old(m)@, access, region_len, draw, k);
}

/// `deregister` gives up the region under the local key, if there is one, and
/// says whether there was; every other region and key is as it was, and the
/// remote key stays handed out.
pub proof fn law_deregister(m: &mut MemoryStore, lkey: LKey, r: bool, k: u32)
    requires
        old(m)@.wf(),
        call_ensures(MemoryStore::deregister, (m, lkey), r),
    ensures
        r <==> old(m)@.rkeys.contains_key(lkey.0),
        !r ==> final(m)@ == old(m)@,
        r ==> {
            let gone = old(m)@.rkeys[lkey.0];
            &&& !final(m)@.regions.contains_key(gone)
            &&& !final(m)@.rkeys.contains_key(lkey.0)
            &&& k != gone ==> final(m)@.regions.contains_key(k) == old(m)@.regions.contains_key(k)
            &&& k != gone && old(m)@.regions.contains_key(k) ==> final(m)@.regions[k]
                == old(m)@.regions[k]
            &&& k != lkey.0 ==> final(m)@.rkeys.contains_key(k) == old(m)@.rkeys.contains_key(k)
            &&& k != lkey.0 && old(m)@.rkeys.contains_key(k) ==> final(m)@.rkeys[k]
                == old(m)@.rkeys[k]
            &&& final(m)@.issued == old(m)@.issued
            &&& final(m)@.last_lkey == old(m)@.last_lkey
        },
{
}

/// `Session::new` makes a session that waits for its CONNECT frame.
pub proof fn law_new_session(recv_queue_depth: u32, r: Session)
    requires
        call_ensures(Session::new, (recv_queue_depth,), r),
    ensures
        r.state is AwaitingConnect,
        r.next_seq == 0,
        r.expected_remote_seq is None,
        r.memory_store@ == StoreModel::empty(),
        r.pending_op is Idle,
        r.recv_queue_depth == recv_queue_depth,
        r.sends_since_last_credit == 0,
        r.icc == 65_535,
        r.max_msg_size == 0x100_0000,
{
}

/// `next_header` numbers a frame.
pub proof fn law_next_header(s: &mut Session, opcode: Opcode, wrid: u64, r: RdowsHeader)
    requires
        call_ensures(Session::next_header, (s, opcode, wrid), r),
    ensures
        r == effects::sent_header(old(s)@, 0, opcode, wrid),
        final(s)@ == (SessionModel {
            next_seq: ((old(s)@.next_seq + 1) % 0x1_0000_0000) as u32,
            ..old(s)@
        }),
{
}

/// `handle_message_with` moves the session on as its model does and gives the
/// model's frames, each in its turn, or the model's error.
pub proof fn law_handle_message_with(
    s: &mut Session,
    msg: RdowsMessage,
    draw: u32,
    r: Result<Vec<RdowsMessage>, RdowsError>,
)
    requires
        call_ensures(Session::handle_message_with, (s, msg, draw), r),
    ensures
        final(s)@ == old(s)@.handled(msg@, draw).0,
        match old(s)@.handled(msg@, draw).1 {
            Ok(replies) => {
                &&& r matches Ok(list)
                &&& list@.len() == replies.len()
                &&& forall|i: int|
                    0 <= i < replies.len() ==> (#[trigger] list@[i])@ == replies[i]
            },
            Err(e) => r == Err::<Vec<RdowsMessage>, RdowsError>(e),
        },
{
    if let Ok(replies) = old(s)@.handled(msg@, draw).1 {
        let list = r->Ok_0@;
        let seen = crate::message::messages(list);
        assert(seen.len() == list.len());
        assert forall|i: int| 0 <= i < replies.len() implies (#[trigger] list[i])@
            == replies[i] by {
            assert(seen[i] == list[i]@);
        }
    }
}

/// `handle_message` does what `handle_message_with` does with some number.
pub proof fn law_handle_message(
    s: &mut Session,
    msg: RdowsMessage,
    r: Result<Vec<RdowsMessage>, RdowsError>,
)
    requires
        call_ensures(Session::handle_message, (s, msg), r),
    ensures
        exists|draw: u32|
            {
                let (next, model) = #[trigger] old(s)@.handled(msg@, draw);
                &&& final(s)@ == next
                &&& match model {
                    Ok(replies) => r matches Ok(list) && list@.len() == replies.len() && forall|
                        i: int,
                    |
                        0 <= i < replies.len() ==> (#[trigger] list@[i])@ == replies[i],
                    Err(e) => r == Err::<Vec<RdowsMessage>, RdowsError>(e),
                }
            },
{
    let draw = choose|draw: u32|
        {
            let (next, model) = #[trigger] old(s)@.handled(msg@, draw);
            final(s)@ == next && session::step_result(r, model)
        };
    if let Ok(replies) = old(s)@.handled(msg@, draw).1 {
        let list = r->Ok_0@;
        let seen = crate::message::messages(list);
        assert(seen.len() == list.len());
        assert forall|i: int| 0 <= i < replies.len() implies (#[trigger] list[i])@
            == replies[i] by {
            assert(seen[i] == list[i]@);
        }
    }
}

/// The session's loop goes on after anything but a frame without changing the
/// session or sending anything; it ends after a close, the end of the socket and
/// what is no frame. After a frame it ends exactly where the session is closed.
pub proof fn law_on_event(s: &mut Session, event: SessionEvent, r: SessionAction)
    requires
        call_ensures(Session::on_event, (s, event), r),
    ensures
        !(event is Frame) ==> final(s)@ == old(s)@ && r.frames@.len() == 0,
        event is Other ==> r.go_on,
        event is Close || event is Ended || event is Undecodable ==> !r.go_on,
        event is Frame && r.go_on ==> !(final(s)@.state is Closed),
        event is Frame && final(s)@.state is Ready && old(s)@.state is Ready ==> r.go_on,
{
}

/// An ERROR frame says what failed and which frame; it takes the next number.
pub proof fn law_send_error(
    s: &mut Session,
    code: ErrorCode,
    failing_seq: u32,
    description: &str,
    r: RdowsMessage,
)
    requires
        call_ensures(session::send_error, (s, code, failing_seq, description), r),
    ensures
        r@ == MessageModel::Error(
            effects::sent_header(old(s)@, 0, Opcode::Error, 0),
            code,
            failing_seq,
            description@,
        ),
        final(s)@ == (SessionModel {
            next_seq: ((old(s)@.next_seq + 1) % 0x1_0000_0000) as u32,
            ..old(s)@
        }),
{
}

/// After a frame the session's loop sends the frames of the session's model, each
/// in its turn, and goes on unless the session is closed; where the session ends
/// with an error it sends nothing and ends.
pub proof fn law_on_frame(s: &mut Session, msg: RdowsMessage, r: SessionAction)
    requires
        call_ensures(Session::on_event, (s, SessionEvent::Frame(msg)), r),
    ensures
        exists|draw: u32|
            {
                let (next, model) = #[trigger] old(s)@.handled(msg@, draw);
                &&& final(s)@ == next
                &&& match model {
                    Ok(replies) => {
                        &&& r.go_on <==> !(next.state is Closed)
                        &&& r.frames@.len() == replies.len()
                        &&& forall|i: int|
                            0 <= i < replies.len() ==> (#[trigger] r.frames@[i])@ == replies[i]
                    },
                    Err(_) => r.frames@.len() == 0 && !r.go_on,
                }
            },
{
    let draw = choose|draw: u32|
        {
            let (next, model) = #[trigger] old(s)@.handled(msg@, draw);
            &&& final(s)@ == next
            &&& match model {
                Ok(replies) => {
                    &&& crate::message::messages(r.frames@) == replies
                    &&& r.go_on == !(next.state is Closed)
                },
                Err(_) => r.frames@.len() == 0 && !r.go_on,
            }
        };
    if let Ok(replies) = old(s)@.handled(msg@, draw).1 {
        let list = r.frames@;
        let seen = crate::message::messages(list);
        assert(seen.len() == list.len());
        assert forall|i: int| 0 <= i < replies.len() implies (#[trigger] list[i])@
            == replies[i] by {
            assert(seen[i] == list[i]@);
        }
    }
}

} // verus!
