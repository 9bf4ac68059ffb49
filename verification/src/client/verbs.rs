//! The verbs: memory regions, messages, one-sided reads and writes, atomics.
//!
//! A verb that talks to the remote side comes in two halves. The first checks
//! the request and numbers the frames to send; the second takes the reply that
//! `recv_app_message` hands out and completes the request.
use vstd::prelude::*;

use super::model;
use super::model::{PostedModel, RegionModel};
use super::RdowsConnection;
use crate::buffer;
use crate::buffer::{copy_into, copy_range, zeroed};
use crate::error::{status_code, ErrorCode, RdowsError};
use crate::memory::{AccessFlags, LKey, RKey};
use crate::message::{
    AtomicReqPayload, AtomicType, DataPayload, MessageModel, MrDeregPayload, MrRegPayload,
    RdowsMessage, ReadReqPayload, SendPayload, WritePayload,
};
use crate::opcode::Opcode;
use crate::queue::ScatterGatherEntry;

verus! {

broadcast use vstd::std_specs::hash::group_hash_axioms;

/// A registered memory region, with its local buffer.
pub struct MemoryRegionHandle {
    pub lkey: LKey,
    pub rkey: RKey,
    pub len: u64,
    pub local_buf: Vec<u8>,
}

impl View for MemoryRegionHandle {
    type V = RegionModel;

    open spec fn view(&self) -> RegionModel {
        RegionModel { lkey: self.lkey, rkey: self.rkey, len: self.len, bytes: self.local_buf@ }
    }
}

/// A request that takes two frames, in the order in which they are sent.
pub struct PostedRequest {
    pub request: RdowsMessage,
    pub data: RdowsMessage,
    /// Length of the data, as a completion reports it.
    pub byte_count: u32,
}

impl View for PostedRequest {
    type V = PostedModel;

    open spec fn view(&self) -> PostedModel {
        PostedModel {
            request: self.request@,
            data: self.data@,
            byte_count: self.byte_count,
        }
    }
}

/// Once a stretch fails, gathering has failed whatever follows.
proof fn lemma_gathered_prefix(
    regions: Map<u32, RegionModel>,
    sg_list: Seq<ScatterGatherEntry>,
    n: int,
)
    requires
        0 <= n <= sg_list.len(),
    ensures
        ({
            let head = sg_list.take(n);
            let failed = model::gathered(regions, head) is Err;
            let all = model::gather_addressable(regions, sg_list);
            &&& failed ==> model::gathered(regions, sg_list) == model::gathered(regions, head)
            &&& all ==> model::gather_addressable(regions, head)
            &&& failed && model::gather_addressable(regions, head) ==> all
        }),
    decreases sg_list.len() - n,
{
    if n == sg_list.len() {
        assert(sg_list.take(n) =~= sg_list);
    } else {
        lemma_gathered_prefix(regions, sg_list, n + 1);
        assert(sg_list.take(n + 1).drop_last() =~= sg_list.take(n));
    }
}

/// `r` is the posted request that the model gives.
pub open spec fn posted_result(
    r: Result<PostedRequest, RdowsError>,
    model: Result<PostedModel, RdowsError>,
) -> bool {
    match model {
        Ok(m) => r matches Ok(posted) && posted@ == m,
        Err(e) => r == Err::<PostedRequest, RdowsError>(e),
    }
}

/// `r` is the frame that the model gives.
pub open spec fn frame_result(
    r: Result<RdowsMessage, RdowsError>,
    model: Result<MessageModel, RdowsError>,
) -> bool {
    match model {
        Ok(m) => r matches Ok(frame) && frame@ == m,
        Err(e) => r == Err::<RdowsMessage, RdowsError>(e),
    }
}

impl RdowsConnection {
    // -----------------------------------------------------------------------
    // Memory regions
    // -----------------------------------------------------------------------

    /// Asks the remote side for a region of `region_len` bytes.
    pub fn reg_mr(&mut self, access_flags: AccessFlags, region_len: u64) -> (r: RdowsMessage)
        ensures
            final(self)@ == old(self)@.numbered(),
            r@ == old(self)@.register_request(access_flags, region_len),
    {
        let header = self.next_header(Opcode::MrReg, 0);
        let payload = MrRegPayload { pd: self.pd, access_flags, region_len, suggested_lkey: None };
        RdowsMessage::MrReg(header, payload)
    }

    /// Completes `reg_mr`: on success the region is known under the local key
    /// that the remote side chose, and holds zeros.
    pub fn reg_mr_complete(&mut self, region_len: u64, resp: RdowsMessage) -> (r: Result<
        MemoryRegionHandle,
        RdowsError,
    >)
        requires
            old(self)@.wf(),
            resp matches RdowsMessage::MrRegAck(_, ack) ==> ack.status == 0 ==> region_len as usize
                <= isize::MAX,
        ensures
            final(self)@.wf(),
            final(self)@ == old(self)@.registered(region_len, resp@).0,
            match old(self)@.registered(region_len, resp@).1 {
                Ok(region) => r matches Ok(handle) && handle@ == region,
                Err(e) => r == Err::<MemoryRegionHandle, RdowsError>(e),
            },
    {
        match resp {
            RdowsMessage::MrRegAck(_, ack) => {
                if ack.status != 0 {
                    return Err(RdowsError::Protocol(status_code(ack.status)));
                }
                self.local_mrs.insert(
                    ack.lkey.0,
                    MemoryRegionHandle {
                        lkey: ack.lkey,
                        rkey: ack.rkey,
                        len: region_len,
                        local_buf: zeroed(region_len as usize),
                    },
                );
                proof {
                    assert(self@.regions =~= old(self)@.regions.insert(
                        ack.lkey.0,
                        model::new_region(ack.lkey, ack.rkey, region_len),
                    ));
                }
                Ok(
                    MemoryRegionHandle {
                        lkey: ack.lkey,
                        rkey: ack.rkey,
                        len: region_len,
                        local_buf: zeroed(region_len as usize),
                    },
                )
            },
            RdowsMessage::Error(_, err) => Err(RdowsError::Protocol(err.error_code)),
            other => Err(
                RdowsError::UnexpectedMessage {
                    expected: "MR_REG_ACK",
                    got: other.header().opcode,
                },
            ),
        }
    }

    /// Asks the remote side to give up the region with the local key `lkey`.
    pub fn dereg_mr(&mut self, lkey: LKey) -> (r: RdowsMessage)
        ensures
            final(self)@ == old(self)@.numbered(),
            r@ == old(self)@.deregister_request(lkey),
    {
        let header = self.next_header(Opcode::MrDereg, 0);
        let payload = MrDeregPayload { pd: self.pd, lkey };
        RdowsMessage::MrDereg(header, payload)
    }

    /// Completes `dereg_mr`: on success the region is forgotten.
    pub fn dereg_mr_complete(&mut self, lkey: LKey, resp: RdowsMessage) -> (r: Result<
        (),
        RdowsError,
    >)
        requires
            old(self)@.wf(),
        ensures
            final(self)@.wf(),
            (final(self)@, r) == old(self)@.deregistered(lkey, resp@),
    {
        match resp {
            RdowsMessage::MrDeregAck(_, ack) => {
                if ack.status != 0 {
                    return Err(RdowsError::Protocol(status_code(ack.status)));
                }
                self.local_mrs.remove(&lkey.0);
                proof {
                    assert(self@.regions =~= old(self)@.regions.remove(lkey.0));
                }
                Ok(())
            },
            RdowsMessage::Error(_, err) => Err(RdowsError::Protocol(err.error_code)),
            other => Err(
                RdowsError::UnexpectedMessage {
                    expected: "MR_DEREG_ACK",
                    got: other.header().opcode,
                },
            ),
        }
    }

    // -----------------------------------------------------------------------
    // Local buffers
    // -----------------------------------------------------------------------

    /// Gathers the bytes that the stretches of `sg_list` name.
    pub fn gather_sg_data(&self, sg_list: &[ScatterGatherEntry]) -> (r: Result<
        Vec<u8>,
        RdowsError,
    >)
        requires
            model::gather_addressable(self@.regions, sg_list@),
        ensures
            match model::gathered(self@.regions, sg_list@) {
                Ok(bytes) => r matches Ok(v) && v@ == bytes,
                Err(code) => r == Err::<Vec<u8>, RdowsError>(RdowsError::Protocol(code)),
            },
    {
        let mut result: Vec<u8> = Vec::new();
        let mut i: usize = 0;
        while i < sg_list.len()
            invariant
                i <= sg_list@.len(),
                model::gather_addressable(self@.regions, sg_list@),
                model::gathered(self@.regions, sg_list@.take(i as int)) == Ok::<Seq<u8>, ErrorCode>(
                    result@,
                ),
            decreases sg_list@.len() - i,
        {
            let sg = sg_list[i];
            proof {
                lemma_gathered_prefix(self@.regions, sg_list@, i as int);
                lemma_gathered_prefix(self@.regions, sg_list@, i + 1);
                assert(sg_list@.take(i + 1).drop_last() =~= sg_list@.take(i as int));
            }
            match self.local_mrs.get(&sg.lkey.0) {
                None => {
                    return Err(RdowsError::Protocol(ErrorCode::ErrInvalidLkey));
                },
                Some(mr) => {
                    let start: usize = sg.offset as usize;
                    let end: usize = start + sg.length as usize;
                    if end > mr.local_buf.len() {
                        return Err(RdowsError::Protocol(ErrorCode::ErrBounds));
                    }
                    let mut piece = copy_range(mr.local_buf.as_slice(), start, end);
                    result.append(&mut piece);
                },
            }
            i += 1;
        }
        proof {
            assert(sg_list@.take(sg_list@.len() as int) =~= sg_list@);
        }
        Ok(result)
    }

    /// Whether `gather_sg_data` can be asked for `sg_list`.
    pub fn sg_addressable(&self, sg_list: &[ScatterGatherEntry]) -> (r: bool)
        ensures
            r == model::gather_addressable(self@.regions, sg_list@),
    {
        let mut i: usize = 0;
        while i < sg_list.len()
            invariant
                i <= sg_list@.len(),
                model::gathered(self@.regions, sg_list@.take(i as int)) is Ok,
                model::gather_addressable(self@.regions, sg_list@.take(i as int)),
            decreases sg_list@.len() - i,
        {
            let sg = sg_list[i];
            proof {
                lemma_gathered_prefix(self@.regions, sg_list@, i + 1);
                assert(sg_list@.take(i + 1).drop_last() =~= sg_list@.take(i as int));
            }
            match self.local_mrs.get(&sg.lkey.0) {
                None => {
                    return true;
                },
                Some(mr) => {
                    let start: usize = sg.offset as usize;
                    match start.checked_add(sg.length as usize) {
                        None => {
                            return false;
                        },
                        Some(end) => {
                            if end > mr.local_buf.len() {
                                return true;
                            }
                        },
                    }
                },
            }
            i += 1;
        }
        proof {
            assert(sg_list@.take(sg_list@.len() as int) =~= sg_list@);
        }
        true
    }

    /// Writes `data` into the local buffer of a region.
    pub fn write_local_mr(&mut self, lkey: LKey, offset: usize, data: &[u8]) -> (r: Result<
        (),
        RdowsError,
    >)
        requires
            old(self)@.wf(),
            old(self)@.regions.contains_key(lkey.0) ==> offset + data@.len() <= usize::MAX,
        ensures
            final(self)@.wf(),
            (final(self)@, r) == old(self)@.local_written(lkey.0, offset as int, data@),
    {
        match self.local_mrs.get(&lkey.0) {
            None => {
                return Err(RdowsError::Protocol(ErrorCode::ErrInvalidLkey));
            },
            Some(mr) => {
                let end: usize = offset + data.len();
                if end > mr.local_buf.len() {
                    return Err(RdowsError::Protocol(ErrorCode::ErrBounds));
                }
            },
        }
        self.fill_region(lkey.0, offset, data);
        Ok(())
    }

    fn fill_region(&mut self, k: u32, offset: usize, data: &[u8])
        requires
            old(self)@.wf(),
            old(self)@.regions.contains_key(k),
            offset + data@.len() <= old(self)@.regions[k].bytes.len(),
        ensures
            final(self)@.wf(),
            final(self)@ == old(self)@.with_bytes(
                k,
                buffer::splice(old(self)@.regions[k].bytes, offset as int, data@),
            ),
    {
        if let Some(mr) = self.local_mrs.remove(&k) {
            let mut mr = mr;
            copy_into(&mut mr.local_buf, offset, data);
            self.local_mrs.insert(k, mr);
        }
        proof {
            let bytes = buffer::splice(
                old(self)@.regions[k].bytes,
                offset as int,
                data@,
            );
            assert(self@.regions =~= old(self)@.with_bytes(k, bytes).regions);
        }
    }

    /// Reads `len` bytes from the local buffer of a region.
    pub fn read_local_mr(&self, lkey: LKey, offset: usize, len: usize) -> (r: Result<
        Vec<u8>,
        RdowsError,
    >)
        requires
            self@.regions.contains_key(lkey.0) ==> offset + len <= usize::MAX,
        ensures
            match self@.local_read(lkey.0, offset as int, len as int) {
                Ok(bytes) => r matches Ok(v) && v@ == bytes,
                Err(e) => r == Err::<Vec<u8>, RdowsError>(e),
            },
    {
        match self.local_mrs.get(&lkey.0) {
            None => Err(RdowsError::Protocol(ErrorCode::ErrInvalidLkey)),
            Some(mr) => {
                let end: usize = offset + len;
                if end > mr.local_buf.len() {
                    return Err(RdowsError::Protocol(ErrorCode::ErrBounds));
                }
                Ok(copy_range(mr.local_buf.as_slice(), offset, end))
            },
        }
    }

    // -----------------------------------------------------------------------
    // Two-sided: SEND
    // -----------------------------------------------------------------------

    /// Posts a message made of the stretches of `sg_list`.
    ///
    /// Nothing is sent, and nothing changes, where the completion would find no
    /// room, no credit is left, or the stretches cannot be gathered.
    pub fn post_send(&mut self, wrid: u64, sg_list: &[ScatterGatherEntry]) -> (r: Result<
        PostedRequest,
        RdowsError,
    >)
        requires
            old(self)@.wf(),
            old(self)@.cq_full() || old(self)@.send_credits == 0 || model::gather_addressable(
                old(self)@.regions,
                sg_list@,
            ),
        ensures
            final(self)@.wf(),
            final(self)@ == old(self)@.send_posted(wrid, sg_list@).0,
            posted_result(r, old(self)@.send_posted(wrid, sg_list@).1),
    {
        if self.cq.is_full() {
            return Err(RdowsError::Protocol(ErrorCode::ErrCqOverflow));
        }
        if self.send_credits == 0 {
            return Err(RdowsError::SendCreditsExhausted);
        }
        let data = match self.gather_sg_data(sg_list) {
            Ok(data) => data,
            Err(e) => {
                return Err(e);
            },
        };
        let byte_count: u32 = data.len() as u32;
        let header = self.next_header(Opcode::Send, wrid);
        let payload = SendPayload { sg_list: vstd::slice::slice_to_vec(sg_list) };
        let data_header = self.next_header(Opcode::SendData, wrid);
        Ok(
            PostedRequest {
                request: RdowsMessage::Send(header, payload),
                data: RdowsMessage::SendData(data_header, DataPayload::new(data)),
                byte_count,
            },
        )
    }

    /// Completes `post_send`. A message that the remote side received costs one
    /// credit; one that it refused completes with the error.
    pub fn post_send_complete(
        &mut self,
        wrid: u64,
        byte_count: u32,
        resp: RdowsMessage,
    ) -> (r: Result<(), RdowsError>)
        requires
            old(self)@.wf(),
            resp is RecvComp ==> old(self)@.send_credits > 0,
        ensures
            final(self)@.wf(),
            (final(self)@, r) == old(self)@.send_completed(wrid, byte_count, resp@),
    {
        match resp {
            RdowsMessage::RecvComp(_) => {
                self.send_credits = self.send_credits - 1;
                self.complete(wrid, 0, Opcode::Send, byte_count);
                Ok(())
            },
            RdowsMessage::Error(_, err) => {
                self.complete(wrid, u16::from(err.error_code), Opcode::Send, 0);
                Err(RdowsError::Protocol(err.error_code))
            },
            other => Err(
                RdowsError::UnexpectedMessage { expected: "RECV_COMP", got: other.header().opcode },
            ),
        }
    }

    // -----------------------------------------------------------------------
    // One-sided: RDMA Write
    // -----------------------------------------------------------------------

    /// Posts a write of the stretches of `sg_list` to the remote region `rkey`
    /// at `remote_va`. No credit is needed.
    pub fn rdma_write(
        &mut self,
        wrid: u64,
        rkey: RKey,
        remote_va: u64,
        sg_list: &[ScatterGatherEntry],
    ) -> (r: Result<PostedRequest, RdowsError>)
        requires
            old(self)@.wf(),
            old(self)@.cq_full() || model::gather_addressable(old(self)@.regions, sg_list@),
        ensures
            final(self)@.wf(),
            final(self)@ == old(self)@.write_posted(wrid, rkey, remote_va, sg_list@).0,
            posted_result(r, old(self)@.write_posted(wrid, rkey, remote_va, sg_list@).1),
    {
        if self.cq.is_full() {
            return Err(RdowsError::Protocol(ErrorCode::ErrCqOverflow));
        }
        let data = match self.gather_sg_data(sg_list) {
            Ok(data) => data,
            Err(e) => {
                return Err(e);
            },
        };
        let total_len: u64 = data.len() as u64;
        let byte_count: u32 = total_len as u32;
        let header = self.next_header(Opcode::Write, wrid);
        let payload = WritePayload {
            rkey,
            remote_va,
            length: total_len,
            sg_list: vstd::slice::slice_to_vec(sg_list),
        };
        let data_header = self.next_header(Opcode::WriteData, wrid);
        Ok(
            PostedRequest {
                request: RdowsMessage::Write(header, payload),
                data: RdowsMessage::WriteData(data_header, DataPayload::new(data)),
                byte_count,
            },
        )
    }

    /// Completes `rdma_write`.
    pub fn rdma_write_complete(
        &mut self,
        wrid: u64,
        byte_count: u32,
        resp: RdowsMessage,
    ) -> (r: Result<(), RdowsError>)
        requires
            old(self)@.wf(),
        ensures
            final(self)@.wf(),
            (final(self)@, r) == old(self)@.write_completed(wrid, byte_count, resp@),
    {
        match resp {
            RdowsMessage::WriteComp(_) => {
                self.complete(wrid, 0, Opcode::Write, byte_count);
                Ok(())
            },
            RdowsMessage::Error(_, err) => {
                self.complete(wrid, u16::from(err.error_code), Opcode::Write, 0);
                Err(RdowsError::Protocol(err.error_code))
            },
            other => Err(
                RdowsError::UnexpectedMessage {
                    expected: "WRITE_COMP",
                    got: other.header().opcode,
                },
            ),
        }
    }

    // -----------------------------------------------------------------------
    // One-sided: RDMA Read
    // -----------------------------------------------------------------------

    /// Posts a read of `read_len` bytes of the remote region `rkey` from
    /// `remote_va` on, into the local region `local_lkey` at `local_va`.
    pub fn rdma_read(
        &mut self,
        wrid: u64,
        rkey: RKey,
        remote_va: u64,
        read_len: u64,
        local_lkey: LKey,
        local_va: u64,
    ) -> (r: Result<RdowsMessage, RdowsError>)
        requires
            old(self)@.wf(),
        ensures
            final(self)@.wf(),
            ({
                let payload = ReadReqPayload { rkey, remote_va, read_len, local_lkey, local_va };
                &&& final(self)@ == old(self)@.read_posted(wrid, payload).0
                &&& frame_result(r, old(self)@.read_posted(wrid, payload).1)
            }),
    {
        if self.cq.is_full() {
            return Err(RdowsError::Protocol(ErrorCode::ErrCqOverflow));
        }
        let header = self.next_header(Opcode::ReadReq, wrid);
        let payload = ReadReqPayload { rkey, remote_va, read_len, local_lkey, local_va };
        Ok(RdowsMessage::ReadReq(header, payload))
    }

    /// Completes `rdma_read`: copies what was read into the local region.
    pub fn rdma_read_complete(
        &mut self,
        wrid: u64,
        local_lkey: LKey,
        local_va: u64,
        resp: RdowsMessage,
    ) -> (r: Result<(), RdowsError>)
        requires
            old(self)@.wf(),
            resp matches RdowsMessage::ReadResp(_, payload) ==> old(self)@.regions.contains_key(
                local_lkey.0,
            ) ==> local_va as usize + payload@.len() <= usize::MAX,
        ensures
            final(self)@.wf(),
            (final(self)@, r) == old(self)@.read_completed(wrid, local_lkey, local_va, resp@),
    {
        match resp {
            RdowsMessage::ReadResp(_, payload) => {
                let data = payload.as_slice();
                let start: usize = local_va as usize;
                match self.local_mrs.get(&local_lkey.0) {
                    None => {
                        return Err(RdowsError::Protocol(ErrorCode::ErrInvalidLkey));
                    },
                    Some(mr) => {
                        let end: usize = start + data.len();
                        if end > mr.local_buf.len() {
                            return Err(RdowsError::Protocol(ErrorCode::ErrBounds));
                        }
                    },
                }
                self.fill_region(local_lkey.0, start, data);
                self.complete(wrid, 0, Opcode::ReadReq, data.len() as u32);
                Ok(())
            },
            RdowsMessage::Error(_, err) => {
                self.complete(wrid, u16::from(err.error_code), Opcode::ReadReq, 0);
                Err(RdowsError::Protocol(err.error_code))
            },
            other => Err(
                RdowsError::UnexpectedMessage { expected: "READ_RESP", got: other.header().opcode },
            ),
        }
    }

    // -----------------------------------------------------------------------
    // One-sided: atomics
    // -----------------------------------------------------------------------

    /// Posts a compare-and-swap of the remote word at `remote_va`.
    pub fn atomic_cas(
        &mut self,
        wrid: u64,
        rkey: RKey,
        remote_va: u64,
        compare: u64,
        swap: u64,
    ) -> (r: Result<RdowsMessage, RdowsError>)
        requires
            old(self)@.wf(),
        ensures
            final(self)@.wf(),
            ({
                let payload = AtomicReqPayload {
                    rkey,
                    atomic_type: AtomicType::CompareAndSwap,
                    remote_va,
                    operand1: compare,
                    operand2: swap,
                };
                &&& final(self)@ == old(self)@.atomic_posted(wrid, payload).0
                &&& frame_result(r, old(self)@.atomic_posted(wrid, payload).1)
            }),
    {
        self.post_atomic(wrid, rkey, remote_va, AtomicType::CompareAndSwap, compare, swap)
    }

    /// Posts a fetch-and-add on the remote word at `remote_va`.
    pub fn atomic_faa(&mut self, wrid: u64, rkey: RKey, remote_va: u64, addend: u64) -> (r: Result<
        RdowsMessage,
        RdowsError,
    >)
        requires
            old(self)@.wf(),
        ensures
            final(self)@.wf(),
            ({
                let payload = AtomicReqPayload {
                    rkey,
                    atomic_type: AtomicType::FetchAndAdd,
                    remote_va,
                    operand1: addend,
                    operand2: 0,
                };
                &&& final(self)@ == old(self)@.atomic_posted(wrid, payload).0
                &&& frame_result(r, old(self)@.atomic_posted(wrid, payload).1)
            }),
    {
        self.post_atomic(wrid, rkey, remote_va, AtomicType::FetchAndAdd, addend, 0)
    }

    fn post_atomic(
        &mut self,
        wrid: u64,
        rkey: RKey,
        remote_va: u64,
        atomic_type: AtomicType,
        operand1: u64,
        operand2: u64,
    ) -> (r: Result<RdowsMessage, RdowsError>)
        requires
            old(self)@.wf(),
        ensures
            final(self)@.wf(),
            ({
                let payload = AtomicReqPayload {
                    rkey,
                    atomic_type,
                    remote_va,
                    operand1,
                    operand2,
                };
                &&& final(self)@ == old(self)@.atomic_posted(wrid, payload).0
                &&& frame_result(r, old(self)@.atomic_posted(wrid, payload).1)
            }),
    {
        if self.cq.is_full() {
            return Err(RdowsError::Protocol(ErrorCode::ErrCqOverflow));
        }
        let header = self.next_header(Opcode::AtomicReq, wrid);
        let payload = AtomicReqPayload { rkey, atomic_type, remote_va, operand1, operand2 };
        Ok(RdowsMessage::AtomicReq(header, payload))
    }

    /// Completes `atomic_cas` or `atomic_faa`: gives the word's value from
    /// before the operation.
    pub fn atomic_complete(&mut self, wrid: u64, resp: RdowsMessage) -> (r: Result<
        u64,
        RdowsError,
    >)
        requires
            old(self)@.wf(),
        ensures
            final(self)@.wf(),
            (final(self)@, r) == old(self)@.atomic_completed(wrid, resp@),
    {
        match resp {
            RdowsMessage::AtomicResp(_, payload) => {
                self.complete(wrid, 0, Opcode::AtomicReq, 8);
                Ok(payload.original_value)
            },
            RdowsMessage::Error(_, err) => {
                self.complete(wrid, u16::from(err.error_code), Opcode::AtomicReq, 0);
                Err(RdowsError::Protocol(err.error_code))
            },
            other => Err(
                RdowsError::UnexpectedMessage {
                    expected: "ATOMIC_RESP",
                    got: other.header().opcode,
                },
            ),
        }
    }
}

} // verus!
