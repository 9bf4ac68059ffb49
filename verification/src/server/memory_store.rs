//! The memory regions that a session has registered on the server.
use std::collections::{HashMap, HashSet};

use vstd::prelude::*;

use crate::buffer;
use crate::buffer::{be_u64_bytes, copy_into, copy_range, read_be_u64, zeroed};
use crate::error::ErrorCode;
use crate::frame;
use crate::memory::{AccessFlags, LKey, RKey};
use crate::message::AtomicType;

verus! {

broadcast use vstd::std_specs::hash::group_hash_axioms;

/// A region of the server's memory.
pub struct StoredRegion {
    pub lkey: LKey,
    pub access: AccessFlags,
    pub bytes: Vec<u8>,
}

/// A region, with its bytes as a sequence.
#[verifier::ext_equal]
pub struct StoredModel {
    pub lkey: LKey,
    pub access: AccessFlags,
    pub bytes: Seq<u8>,
}

impl View for StoredRegion {
    type V = StoredModel;

    open spec fn view(&self) -> StoredModel {
        StoredModel { lkey: self.lkey, access: self.access, bytes: self.bytes@ }
    }
}

/// The regions by remote key, the remote keys by local key, every remote key
/// that was ever handed out, and the local key handed out last.
#[verifier::ext_equal]
pub struct StoreModel {
    pub regions: Map<u32, StoredModel>,
    pub rkeys: Map<u32, u32>,
    pub issued: Set<u32>,
    pub last_lkey: u32,
}

/// The remote key `k` can be handed out: it is not zero and never was.
pub open spec fn key_free(issued: Set<u32>, k: u32) -> bool {
    k != 0 && !issued.contains(k)
}

/// The first key that can be handed out among the `count` keys from `draw` on.
pub open spec fn first_free(issued: Set<u32>, draw: u32, count: nat) -> Option<u32>
    decreases count,
{
    if count == 0 {
        None
    } else if key_free(issued, draw) {
        Some(draw)
    } else {
        first_free(issued, frame::next_sequence(draw), (count - 1) as nat)
    }
}

/// The key that a draw of `draw` leads to: itself, or the next one that can be
/// handed out, counting round from the largest key to zero.
pub open spec fn offered_key(issued: Set<u32>, draw: u32) -> Option<u32> {
    first_free(issued, draw, 0x1_0000_0000)
}

proof fn lemma_first_free(issued: Set<u32>, draw: u32, count: nat, j: nat)
    ensures
        match first_free(issued, draw, count) {
            Some(k) => key_free(issued, k),
            None => j < count ==> !key_free(issued, frame::sequence_after(draw, j)),
        },
    decreases count,
{
    if count > 0 && !key_free(issued, draw) {
        let next = frame::next_sequence(draw);
        let j1 = if j > 0 {
            (j - 1) as nat
        } else {
            0
        };
        lemma_first_free(issued, next, (count - 1) as nat, j1);
        if j > 0 {
            frame::law_sequence_counts(draw, j);
            frame::law_sequence_counts(next, j1);
        }
    }
}

/// A key that is offered was never handed out before and is not zero; one is
/// offered as long as there is one.
pub proof fn law_offered_key_is_fresh(issued: Set<u32>, draw: u32, k: u32)
    ensures
        match offered_key(issued, draw) {
            Some(offered) => offered != 0 && !issued.contains(offered),
            None => k == 0 || issued.contains(k),
        },
{
    let j = (if k >= draw {
        k - draw
    } else {
        k - draw + 0x1_0000_0000
    }) as nat;
    lemma_first_free(issued, draw, 0x1_0000_0000, j);
    frame::law_sequence_counts(draw, j);
}

impl StoreModel {
    /// The two indexes agree, no two regions share a key, every key in use was
    /// handed out, and zero never was.
    pub open spec fn wf(self) -> bool {
        &&& self.regions.dom().finite()
        &&& forall|r: u32| #[trigger]
            self.regions.contains_key(r) ==> {
                &&& self.issued.contains(r)
                &&& self.rkeys.contains_key(self.regions[r].lkey.0)
                &&& self.rkeys[self.regions[r].lkey.0] == r
            }
        &&& forall|l: u32| #[trigger]
            self.rkeys.contains_key(l) ==> {
                &&& 0 < l <= self.last_lkey
                &&& self.regions.contains_key(self.rkeys[l])
                &&& self.regions[self.rkeys[l]].lkey.0 == l
            }
        &&& !self.issued.contains(0)
    }

    /// A store without regions.
    pub open spec fn empty() -> StoreModel {
        StoreModel {
            regions: Map::empty(),
            rkeys: Map::empty(),
            issued: Set::empty(),
            last_lkey: 0,
        }
    }

    /// The store with a new region of `region_len` zeros, under the next local
    /// key and the remote key that `draw` leads to; nothing where the machine
    /// cannot address the region or no key is left.
    pub open spec fn registered(self, access: AccessFlags, region_len: u64, draw: u32) -> Option<
        (StoreModel, LKey, RKey),
    > {
        if region_len > isize::MAX || self.last_lkey == u32::MAX {
            None
        } else {
            match offered_key(self.issued, draw) {
                None => None,
                Some(rkey) => {
                    let lkey = LKey((self.last_lkey + 1) as u32);
                    let bytes = Seq::new(region_len as nat, |i: int| 0u8);
                    let store = StoreModel {
                        regions: self.regions.insert(rkey, StoredModel { lkey, access, bytes }),
                        rkeys: self.rkeys.insert(lkey.0, rkey),
                        issued: self.issued.insert(rkey),
                        last_lkey: lkey.0,
                    };
                    Some((store, lkey, RKey(rkey)))
                },
            }
        }
    }

    /// The store without the region under the local key `lkey`, if there is
    /// one. Its remote key stays handed out.
    pub open spec fn deregistered(self, lkey: LKey) -> Option<StoreModel> {
        if self.rkeys.contains_key(lkey.0) {
            Some(
                StoreModel {
                    regions: self.regions.remove(self.rkeys[lkey.0]),
                    rkeys: self.rkeys.remove(lkey.0),
                    ..self
                },
            )
        } else {
            None
        }
    }

    /// Bytes `va` to `va + len` lie in the region under `rkey`.
    pub open spec fn in_bounds(self, rkey: RKey, va: u64, len: int) -> bool {
        va + len <= self.regions[rkey.0].bytes.len()
    }

    /// The store with the bytes of the region under `rkey` replaced.
    pub open spec fn with_bytes(self, rkey: RKey, bytes: Seq<u8>) -> StoreModel {
        StoreModel {
            regions: self.regions.insert(
                rkey.0,
                StoredModel { bytes, ..self.regions[rkey.0] },
            ),
            ..self
        }
    }

    /// Writing `data` at `va` of the region under `rkey`.
    pub open spec fn written(self, rkey: RKey, va: u64, data: Seq<u8>) -> Result<
        StoreModel,
        ErrorCode,
    > {
        if !self.regions.contains_key(rkey.0) {
            Err(ErrorCode::ErrInvalidMkey)
        } else if !self.regions[rkey.0].access.remote_write {
            Err(ErrorCode::ErrAccessDenied)
        } else if !self.in_bounds(rkey, va, data.len() as int) {
            Err(ErrorCode::ErrBounds)
        } else {
            Ok(
                self.with_bytes(
                    rkey,
                    buffer::splice(self.regions[rkey.0].bytes, va as int, data),
                ),
            )
        }
    }

    /// Reading `len` bytes from `va` on of the region under `rkey`.
    pub open spec fn read(self, rkey: RKey, va: u64, len: u64) -> Result<Seq<u8>, ErrorCode> {
        if !self.regions.contains_key(rkey.0) {
            Err(ErrorCode::ErrInvalidMkey)
        } else if !self.regions[rkey.0].access.remote_read {
            Err(ErrorCode::ErrAccessDenied)
        } else if !self.in_bounds(rkey, va, len as int) {
            Err(ErrorCode::ErrBounds)
        } else {
            Ok(self.regions[rkey.0].bytes.subrange(va as int, va + len))
        }
    }

    /// The 64-bit word at `va` of the region under `rkey`.
    pub open spec fn word(self, rkey: RKey, va: u64) -> u64 {
        buffer::be_value(
            self.regions[rkey.0].bytes.subrange(va as int, va + 8),
        ) as u64
    }

    /// An atomic operation on the word at `va` of the region under `rkey`: the
    /// store after it, and the word from before it.
    pub open spec fn atomic(
        self,
        rkey: RKey,
        va: u64,
        atomic_type: AtomicType,
        operand1: u64,
        operand2: u64,
    ) -> Result<(StoreModel, u64), ErrorCode> {
        if !self.regions.contains_key(rkey.0) {
            Err(ErrorCode::ErrInvalidMkey)
        } else if !self.regions[rkey.0].access.remote_atomic {
            Err(ErrorCode::ErrAccessDenied)
        } else if va % 8 != 0 {
            Err(ErrorCode::ErrAlignment)
        } else if !self.in_bounds(rkey, va, 8) {
            Err(ErrorCode::ErrBounds)
        } else {
            let before = self.word(rkey, va);
            let after = atomic_result(atomic_type, before, operand1, operand2);
            let bytes = buffer::splice(
                self.regions[rkey.0].bytes,
                va as int,
                buffer::be_bytes(after as nat, 8),
            );
            Ok((self.with_bytes(rkey, bytes), before))
        }
    }
}

/// The word that an atomic operation leaves behind: compare-and-swap puts the
/// second operand in place of a word equal to the first; fetch-and-add adds the
/// first, modulo the size of the word.
pub open spec fn atomic_result(
    atomic_type: AtomicType,
    before: u64,
    operand1: u64,
    operand2: u64,
) -> u64 {
    match atomic_type {
        AtomicType::CompareAndSwap => if before == operand1 {
            operand2
        } else {
            before
        },
        AtomicType::FetchAndAdd => ((before + operand1) % 0x1_0000_0000_0000_0000) as u64,
    }
}

/// The regions that a session has registered.
pub struct MemoryStore {
    regions: HashMap<u32, StoredRegion>,
    rkeys: HashMap<u32, u32>,
    issued: HashSet<u32>,
    last_lkey: u32,
}

impl View for MemoryStore {
    type V = StoreModel;

    closed spec fn view(&self) -> StoreModel {
        StoreModel {
            regions: self.regions@.map_values(|r: StoredRegion| r@),
            rkeys: self.rkeys@,
            issued: self.issued@,
            last_lkey: self.last_lkey,
        }
    }
}

impl MemoryStore {
    /// A store without regions.
    pub fn new() -> (r: MemoryStore)
        ensures
            r@ == StoreModel::empty(),
            r@.wf(),
    {
        let r = MemoryStore {
            regions: HashMap::new(),
            rkeys: HashMap::new(),
            issued: HashSet::new(),
            last_lkey: 0,
        };
        proof {
            assert(r@ =~= StoreModel::empty());
        }
        r
    }

    fn free_key(&self, draw: u32) -> (r: Option<u32>)
        ensures
            r == offered_key(self@.issued, draw),
    {
        let mut key: u32 = draw;
        let mut left: u64 = 0x1_0000_0000;
        while left > 0
            invariant
                left <= 0x1_0000_0000,
                first_free(self@.issued, draw, 0x1_0000_0000) == first_free(
                    self@.issued,
                    key,
                    left as nat,
                ),
            decreases left,
        {
            if key != 0 && !self.issued.contains(&key) {
                return Some(key);
            }
            key = key.wrapping_add(1);
            left = left - 1;
        }
        None
    }

    /// Registers a region of `region_len` zeros; `draw` is the random number
    /// from which the remote key comes.
    pub fn register(&mut self, access: AccessFlags, region_len: u64, draw: u32) -> (r: Option<
        (LKey, RKey),
    >)
        requires
            old(self)@.wf(),
        ensures
            final(self)@.wf(),
            match old(self)@.registered(access, region_len, draw) {
                Some((store, lkey, rkey)) => {
                    &&& r == Some((lkey, rkey))
                    &&& final(self)@ == store
                },
                None => {
                    &&& r == None::<(LKey, RKey)>
                    &&& final(self)@ == old(self)@
                },
            },
    {
        if region_len > isize::MAX as u64 || self.last_lkey == u32::MAX {
            return None;
        }
        match self.free_key(draw) {
            None => None,
            Some(rkey) => {
                proof {
                    law_offered_key_is_fresh(self@.issued, draw, rkey);
                }
                let lkey: u32 = self.last_lkey + 1;
                let bytes = zeroed(region_len as usize);
                self.regions.insert(rkey, StoredRegion { lkey: LKey(lkey), access, bytes });
                self.rkeys.insert(lkey, rkey);
                self.issued.insert(rkey);
                self.last_lkey = lkey;
                proof {
                    let (store, _, _) = old(self)@.registered(access, region_len, draw)->0;
                    assert(self@.regions =~= store.regions);
                    assert(self@ =~= store);
                }
                Some((LKey(lkey), RKey(rkey)))
            },
        }
    }

    /// Gives up the region under the local key `lkey`; says whether there was one.
    pub fn deregister(&mut self, lkey: LKey) -> (r: bool)
        requires
            old(self)@.wf(),
        ensures
            final(self)@.wf(),
            match old(self)@.deregistered(lkey) {
                Some(store) => r && final(self)@ == store,
                None => !r && final(self)@ == old(self)@,
            },
    {
        match self.rkeys.remove(&lkey.0) {
            None => {
                proof {
                    assert(self@ =~= old(self)@);
                }
                false
            },
            Some(rkey) => {
                self.regions.remove(&rkey);
                proof {
                    let store = old(self)@.deregistered(lkey)->0;
                    assert(self@.regions =~= store.regions);
                    assert(self@ =~= store);
                }
                true
            },
        }
    }

    fn replace_bytes(&mut self, rkey: u32, at: usize, data: &[u8])
        requires
            old(self)@.wf(),
            old(self)@.regions.contains_key(rkey),
            at + data@.len() <= old(self)@.regions[rkey].bytes.len(),
        ensures
            final(self)@.wf(),
            final(self)@ == old(self)@.with_bytes(
                RKey(rkey),
                buffer::splice(old(self)@.regions[rkey].bytes, at as int, data@),
            ),
    {
        if let Some(region) = self.regions.remove(&rkey) {
            let mut region = region;
            copy_into(&mut region.bytes, at, data);
            self.regions.insert(rkey, region);
        }
        proof {
            let bytes = buffer::splice(old(self)@.regions[rkey].bytes, at as int, data@);
            assert(self@.regions =~= old(self)@.with_bytes(RKey(rkey), bytes).regions);
        }
    }

    /// Writes `data` at `va` of the region under `rkey`.
    pub fn write(&mut self, rkey: RKey, va: u64, data: &[u8]) -> (r: Result<(), ErrorCode>)
        requires
            old(self)@.wf(),
        ensures
            final(self)@.wf(),
            match old(self)@.written(rkey, va, data@) {
                Ok(store) => r == Ok::<(), ErrorCode>(()) && final(self)@ == store,
                Err(code) => r == Err::<(), ErrorCode>(code) && final(self)@ == old(self)@,
            },
    {
        match self.regions.get(&rkey.0) {
            None => {
                return Err(ErrorCode::ErrInvalidMkey);
            },
            Some(region) => {
                if !region.access.remote_write {
                    return Err(ErrorCode::ErrAccessDenied);
                }
                if !range_in(va, data.len() as u64, region.bytes.len()) {
                    return Err(ErrorCode::ErrBounds);
                }
            },
        }
        self.replace_bytes(rkey.0, va as usize, data);
        Ok(())
    }

    /// Reads `len` bytes from `va` on of the region under `rkey`.
    pub fn read(&self, rkey: RKey, va: u64, len: u64) -> (r: Result<Vec<u8>, ErrorCode>)
        ensures
            match self@.read(rkey, va, len) {
                Ok(bytes) => r matches Ok(v) && v@ == bytes,
                Err(code) => r == Err::<Vec<u8>, ErrorCode>(code),
            },
    {
        match self.regions.get(&rkey.0) {
            None => Err(ErrorCode::ErrInvalidMkey),
            Some(region) => {
                if !region.access.remote_read {
                    return Err(ErrorCode::ErrAccessDenied);
                }
                if !range_in(va, len, region.bytes.len()) {
                    return Err(ErrorCode::ErrBounds);
                }
                Ok(
                    copy_range(
                        region.bytes.as_slice(),
                        va as usize,
                        va as usize + len as usize,
                    ),
                )
            },
        }
    }

    /// Performs an atomic operation on the word at `va` of the region under
    /// `rkey`; gives the word from before it.
    pub fn atomic(
        &mut self,
        rkey: RKey,
        va: u64,
        atomic_type: AtomicType,
        operand1: u64,
        operand2: u64,
    ) -> (r: Result<u64, ErrorCode>)
        requires
            old(self)@.wf(),
        ensures
            final(self)@.wf(),
            match old(self)@.atomic(rkey, va, atomic_type, operand1, operand2) {
                Ok((store, before)) => r == Ok::<u64, ErrorCode>(before) && final(self)@ == store,
                Err(code) => r == Err::<u64, ErrorCode>(code) && final(self)@ == old(self)@,
            },
    {
        let before: u64 = match self.regions.get(&rkey.0) {
            None => {
                return Err(ErrorCode::ErrInvalidMkey);
            },
            Some(region) => {
                if !region.access.remote_atomic {
                    return Err(ErrorCode::ErrAccessDenied);
                }
                if va % 8 != 0 {
                    return Err(ErrorCode::ErrAlignment);
                }
                if !range_in(va, 8, region.bytes.len()) {
                    return Err(ErrorCode::ErrBounds);
                }
                read_be_u64(region.bytes.as_slice(), va as usize)
            },
        };
        let after: u64 = match atomic_type {
            AtomicType::CompareAndSwap => if before == operand1 {
                operand2
            } else {
                before
            },
            AtomicType::FetchAndAdd => before.wrapping_add(operand1),
        };
        let word = be_u64_bytes(after);
        proof {
            buffer::lemma_be_bytes_len(after as nat, 8);
        }
        self.replace_bytes(rkey.0, va as usize, word.as_slice());
        Ok(before)
    }
}

/// Whether bytes `va` to `va + len` lie in a buffer of `size` bytes.
fn range_in(va: u64, len: u64, size: usize) -> (r: bool)
    ensures
        r == (va + len <= size),
{
    len <= size as u64 && va <= size as u64 - len
}

} // verus!
