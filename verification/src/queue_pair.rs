//! The queue pair: what the other side must know of it, the attributes that
//! carry it from reset to ready to send, and the work requests posted to it.
//!
//! The numbers are those of the verbs interface.

use crate::completion_queue::{WCError, WorkCompletion, WorkRequestId};
use crate::gid::Gid;
use crate::memory_region::{LocalMemoryRegion, MemoryRegionError, RemoteMemoryRegion};
use crate::{RdmaLocalMemory, RdmaMemory, RdmaRemoteMemory};
use vstd::prelude::*;

verus! {

/// What the other side must know of a queue pair in order to connect to it.
#[derive(Clone, Copy, Debug, PartialEq, Eq)]
pub struct QueuePairEndpoint {
    pub qp_num: u32,
    pub lid: u16,
    pub gid: Gid,
}

/// How many bytes the record of an endpoint has on the wire.
pub const ENDPOINT_RECORD_LEN: usize = 22;

/// The four bytes of a number, least significant byte first.
pub open spec fn le_bytes_u32(x: u32) -> Seq<u8> {
    seq![
        (x % 0x100) as u8,
        ((x / 0x100) % 0x100) as u8,
        ((x / 0x1_0000) % 0x100) as u8,
        (x / 0x100_0000) as u8,
    ]
}

/// The two bytes of a number, least significant byte first.
pub open spec fn le_bytes_u16(x: u16) -> Seq<u8> {
    seq![(x % 0x100) as u8, (x / 0x100) as u8]
}

/// The record of an endpoint on the wire: the queue pair number and the
/// local identifier, each least significant byte first, then the sixteen
/// bytes of the global identifier.
pub open spec fn endpoint_record(endpoint: QueuePairEndpoint) -> Seq<u8> {
    le_bytes_u32(endpoint.qp_num) + le_bytes_u16(endpoint.lid) + endpoint.gid@
}

/// An endpoint that is written to the wire and read again is the same
/// endpoint: `from_bytes` answers `to_bytes` with an endpoint that has the
/// same record, and two endpoints with the same record are the same.
pub proof fn lemma_endpoint_round_trip(a: QueuePairEndpoint, b: QueuePairEndpoint)
    requires
        endpoint_record(a) == endpoint_record(b),
    ensures
        a == b,
{
    a.gid.lemma_len();
    b.gid.lemma_len();
    let ra = endpoint_record(a);
    let rb = endpoint_record(b);
    assert(ra[0] == rb[0] && ra[1] == rb[1] && ra[2] == rb[2] && ra[3] == rb[3]);
    assert(ra[4] == rb[4] && ra[5] == rb[5]);
    assert(a.qp_num == b.qp_num);
    assert(a.lid == b.lid);
    assert(a.gid@ =~= b.gid@) by {
        assert forall|i: int| 0 <= i < 16 implies a.gid@[i] == b.gid@[i] by {
            assert(ra[i + 6] == a.gid@[i]);
            assert(rb[i + 6] == b.gid@[i]);
        }
    }
    a.gid.lemma_same_bytes(b.gid);
}

/// The bytes of the number that four bytes spell, least significant byte
/// first, are those four bytes.
pub proof fn lemma_le_bytes_u32(b0: u8, b1: u8, b2: u8, b3: u8)
    ensures
        b0 + b1 * 0x100 + b2 * 0x1_0000 + b3 * 0x100_0000 <= u32::MAX,
        le_bytes_u32((b0 + b1 * 0x100 + b2 * 0x1_0000 + b3 * 0x100_0000) as u32) == seq![
            b0,
            b1,
            b2,
            b3,
        ],
{
    let x: int = b0 + b1 * 0x100 + b2 * 0x1_0000 + b3 * 0x100_0000;
    assert(x % 0x100 == b0);
    assert(x / 0x100 == b1 + b2 * 0x100 + b3 * 0x1_0000);
    assert((x / 0x100) % 0x100 == b1);
    assert(x / 0x1_0000 == b2 + b3 * 0x100);
    assert((x / 0x1_0000) % 0x100 == b2);
    assert(x / 0x100_0000 == b3);
    assert(le_bytes_u32(x as u32) =~= seq![b0, b1, b2, b3]);
}

/// The bytes of the number that two bytes spell, least significant byte
/// first, are those two bytes.
pub proof fn lemma_le_bytes_u16(b0: u8, b1: u8)
    ensures
        b0 + b1 * 0x100 <= u16::MAX,
        le_bytes_u16((b0 + b1 * 0x100) as u16) == seq![b0, b1],
{
    let x: int = b0 + b1 * 0x100;
    assert(x % 0x100 == b0);
    assert(x / 0x100 == b1);
    assert(le_bytes_u16(x as u16) =~= seq![b0, b1]);
}

impl QueuePairEndpoint {
    /// The record of the endpoint on the wire.
    pub fn to_bytes(&self) -> (bytes: Vec<u8>)
        ensures
            bytes@ == endpoint_record(*self),
            bytes@.len() == ENDPOINT_RECORD_LEN,
    {
        let raw = self.gid.raw();
        let mut bytes: Vec<u8> = Vec::new();
        bytes.push((self.qp_num % 0x100) as u8);
        bytes.push(((self.qp_num / 0x100) % 0x100) as u8);
        bytes.push(((self.qp_num / 0x1_0000) % 0x100) as u8);
        bytes.push((self.qp_num / 0x100_0000) as u8);
        bytes.push((self.lid % 0x100) as u8);
        bytes.push((self.lid / 0x100) as u8);
        let mut i: usize = 0;
        while i < 16
            invariant
                i <= 16,
                raw@ == self.gid@,
                raw@.len() == 16,
                bytes@ == le_bytes_u32(self.qp_num) + le_bytes_u16(self.lid) + raw@.take(i as int),
            decreases 16 - i,
        {
            bytes.push(raw[i]);
            proof {
                assert(raw@.take(i + 1) =~= raw@.take(i as int).push(raw@[i as int]));
            }
            i += 1;
        }
        proof {
            assert(raw@.take(16) =~= raw@);
        }
        bytes
    }

    /// The endpoint that a record tells; none where the bytes are not as
    /// many as a record has.
    pub fn from_bytes(bytes: &[u8]) -> (endpoint: Option<QueuePairEndpoint>)
        ensures
            match endpoint {
                Some(e) => bytes@ == endpoint_record(e),
                None => bytes@.len() != ENDPOINT_RECORD_LEN,
            },
    {
        if bytes.len() != ENDPOINT_RECORD_LEN {
            return None;
        }
        let b0: u32 = bytes[0] as u32;
        let b1: u32 = bytes[1] as u32;
        let b2: u32 = bytes[2] as u32;
        let b3: u32 = bytes[3] as u32;
        let qp_num: u32 = b0 + b1 * 0x100 + b2 * 0x1_0000 + b3 * 0x100_0000;
        let c0: u16 = bytes[4] as u16;
        let c1: u16 = bytes[5] as u16;
        let lid: u16 = c0 + c1 * 0x100;
        let gid = Gid::new(
            [
                bytes[6],
                bytes[7],
                bytes[8],
                bytes[9],
                bytes[10],
                bytes[11],
                bytes[12],
                bytes[13],
                bytes[14],
                bytes[15],
                bytes[16],
                bytes[17],
                bytes[18],
                bytes[19],
                bytes[20],
                bytes[21],
            ],
        );
        let endpoint = QueuePairEndpoint { qp_num, lid, gid };
        proof {
            gid.lemma_len();
            lemma_le_bytes_u32(bytes[0], bytes[1], bytes[2], bytes[3]);
            lemma_le_bytes_u16(bytes[4], bytes[5]);
            let head = le_bytes_u32(qp_num) + le_bytes_u16(lid);
            assert(head =~= bytes@.subrange(0, 6));
            assert(gid@ =~= bytes@.subrange(6, 22));
            assert(bytes@ =~= bytes@.subrange(0, 6) + bytes@.subrange(6, 22));
        }
        Some(endpoint)
    }
}

/// The states that a queue pair goes through, and the one it ends in when a
/// step fails.
#[derive(Clone, Copy, Debug, PartialEq, Eq, Structural)]
pub enum QueuePairState {
    Reset,
    Init,
    ReadyToReceive,
    ReadyToSend,
    Error,
}

impl QueuePairState {
    /// The number that the device knows the state by.
    pub open spec fn code_of(self) -> u32 {
        match self {
            QueuePairState::Reset => 0,
            QueuePairState::Init => 1,
            QueuePairState::ReadyToReceive => 2,
            QueuePairState::ReadyToSend => 3,
            QueuePairState::Error => 6,
        }
    }

    /// The number that the device knows the state by.
    pub fn code(&self) -> (code: u32)
        ensures
            code == self.code_of(),
    {
        match self {
            QueuePairState::Reset => 0,
            QueuePairState::Init => 1,
            QueuePairState::ReadyToReceive => 2,
            QueuePairState::ReadyToSend => 3,
            QueuePairState::Error => 6,
        }
    }
}

/// The mask bit of the state.
pub const IBV_QP_STATE: u32 = 0x1;

/// The mask bit of the access flags.
pub const IBV_QP_ACCESS_FLAGS: u32 = 0x8;

/// The mask bit of the partition key index.
pub const IBV_QP_PKEY_INDEX: u32 = 0x10;

/// The mask bit of the port number.
pub const IBV_QP_PORT: u32 = 0x20;

/// The mask bit of the route to the other side.
pub const IBV_QP_AV: u32 = 0x80;

/// The mask bit of the transfer unit of the path.
pub const IBV_QP_PATH_MTU: u32 = 0x100;

/// The mask bit of the acknowledgement timeout.
pub const IBV_QP_TIMEOUT: u32 = 0x200;

/// The mask bit of the retry count.
pub const IBV_QP_RETRY_CNT: u32 = 0x400;

/// The mask bit of the retry count after "receiver not ready".
pub const IBV_QP_RNR_RETRY: u32 = 0x800;

/// The mask bit of the first sequence number that is received.
pub const IBV_QP_RQ_PSN: u32 = 0x1000;

/// The mask bit of the reads and atomics outstanding as initiator.
pub const IBV_QP_MAX_QP_RD_ATOMIC: u32 = 0x2000;

/// The mask bit of the shortest wait after "receiver not ready".
pub const IBV_QP_MIN_RNR_TIMER: u32 = 0x8000;

/// The mask bit of the first sequence number that is sent.
pub const IBV_QP_SQ_PSN: u32 = 0x1_0000;

/// The mask bit of the reads and atomics outstanding as target.
pub const IBV_QP_MAX_DEST_RD_ATOMIC: u32 = 0x2_0000;

/// The mask bit of the number of the queue pair on the other side.
pub const IBV_QP_DEST_QPN: u32 = 0x10_0000;

/// The device may write the memory.
pub const IBV_ACCESS_LOCAL_WRITE: u32 = 0x1;

/// The other side may write the memory.
pub const IBV_ACCESS_REMOTE_WRITE: u32 = 0x2;

/// The other side may read the memory.
pub const IBV_ACCESS_REMOTE_READ: u32 = 0x4;

/// The other side may work atomically on the memory.
pub const IBV_ACCESS_REMOTE_ATOMIC: u32 = 0x8;

/// The work request asks for a completion.
pub const IBV_SEND_SIGNALED: u32 = 0x2;

/// The port that every queue pair uses.
pub const PORT_NUM: u8 = 1;

/// The index of the source identifier in the port's table.
pub const SGID_INDEX: u8 = 1;

/// The attributes that are set on the way to the init state.
pub open spec fn init_mask() -> u32 {
    IBV_QP_PKEY_INDEX | IBV_QP_STATE | IBV_QP_PORT | IBV_QP_ACCESS_FLAGS
}

/// The attributes that are set on the way to ready to receive.
pub open spec fn rtr_mask() -> u32 {
    IBV_QP_STATE | IBV_QP_AV | IBV_QP_PATH_MTU | IBV_QP_DEST_QPN | IBV_QP_RQ_PSN
        | IBV_QP_MAX_DEST_RD_ATOMIC | IBV_QP_MIN_RNR_TIMER
}

/// The attributes that are set on the way to ready to send.
pub open spec fn rts_mask() -> u32 {
    IBV_QP_STATE | IBV_QP_TIMEOUT | IBV_QP_RETRY_CNT | IBV_QP_RNR_RETRY | IBV_QP_SQ_PSN
        | IBV_QP_MAX_QP_RD_ATOMIC
}

/// The access that a region or a queue pair gets unless told otherwise:
/// local write, remote write, remote read and remote atomic.
pub open spec fn full_access() -> u32 {
    IBV_ACCESS_LOCAL_WRITE | IBV_ACCESS_REMOTE_WRITE | IBV_ACCESS_REMOTE_READ
        | IBV_ACCESS_REMOTE_ATOMIC
}

/// The masks and the full access as plain numbers.
pub proof fn lemma_masks()
    ensures
        init_mask() == 0x39,
        rtr_mask() == 0x12_9181,
        rts_mask() == 0x1_2e01,
        full_access() == 0xf,
{
    assert(0x10u32 | 0x1u32 | 0x20u32 | 0x8u32 == 0x39u32) by (bit_vector);
    assert(0x1u32 | 0x80u32 | 0x100u32 | 0x10_0000u32 | 0x1000u32 | 0x2_0000u32 | 0x8000u32
        == 0x12_9181u32) by (bit_vector);
    assert(0x1u32 | 0x200u32 | 0x400u32 | 0x800u32 | 0x1_0000u32 | 0x2000u32 == 0x1_2e01u32)
        by (bit_vector);
    assert(0x1u32 | 0x2u32 | 0x4u32 | 0x8u32 == 0xfu32) by (bit_vector);
}

/// The access that a region or a queue pair gets unless told otherwise.
pub fn default_access() -> (access: u32)
    ensures
        access == full_access(),
        access == 0xf,
{
    proof {
        lemma_masks();
    }
    IBV_ACCESS_LOCAL_WRITE | IBV_ACCESS_REMOTE_WRITE | IBV_ACCESS_REMOTE_READ
        | IBV_ACCESS_REMOTE_ATOMIC
}

/// The kind of queue pair that the library makes: reliable connected.
pub const IBV_QPT_RC: u32 = 2;

/// How many work requests, and how many pieces of memory in each, either
/// queue of a queue pair takes unless told otherwise.
pub const DEFAULT_QUEUE_DEPTH: u32 = 10;

/// What a queue pair is made with.
#[derive(Clone, Copy, Debug, PartialEq, Eq, Structural)]
pub struct QueuePairInitAttr {
    pub max_send_wr: u32,
    pub max_recv_wr: u32,
    pub max_send_sge: u32,
    pub max_recv_sge: u32,
    pub max_inline_data: u32,
    pub qp_type: u32,
    pub sq_sig_all: i32,
}

impl Default for QueuePairInitAttr {
    /// A reliable connected queue pair whose queues take
    /// `DEFAULT_QUEUE_DEPTH` work requests of as many pieces each, without
    /// inline data, and in which only the work requests that ask for a
    /// completion get one.
    fn default() -> (attr: Self)
        ensures
            attr == (QueuePairInitAttr {
                max_send_wr: DEFAULT_QUEUE_DEPTH,
                max_recv_wr: DEFAULT_QUEUE_DEPTH,
                max_send_sge: DEFAULT_QUEUE_DEPTH,
                max_recv_sge: DEFAULT_QUEUE_DEPTH,
                max_inline_data: 0,
                qp_type: IBV_QPT_RC,
                sq_sig_all: 0,
            }),
    {
        QueuePairInitAttr {
            max_send_wr: DEFAULT_QUEUE_DEPTH,
            max_recv_wr: DEFAULT_QUEUE_DEPTH,
            max_send_sge: DEFAULT_QUEUE_DEPTH,
            max_recv_sge: DEFAULT_QUEUE_DEPTH,
            max_inline_data: 0,
            qp_type: IBV_QPT_RC,
            sq_sig_all: 0,
        }
    }
}

/// The global part of the route to the other side.
#[derive(Clone, Copy, Debug, PartialEq, Eq)]
pub struct GlobalRoute {
    pub dgid: Gid,
    pub hop_limit: u8,
    pub sgid_index: u8,
}

/// The route to the other side.
#[derive(Clone, Copy, Debug, PartialEq, Eq)]
pub struct AddressHandle {
    pub dlid: u16,
    pub sl: u8,
    pub src_path_bits: u8,
    pub is_global: u8,
    pub port_num: u8,
    pub grh: GlobalRoute,
}

/// The attributes of a queue pair that one step sets, and the mask that says
/// which of them count. The others are zero.
#[derive(Clone, Copy, Debug, PartialEq, Eq)]
pub struct QueuePairAttr {
    pub mask: u32,
    pub qp_state: QueuePairState,
    pub pkey_index: u16,
    pub port_num: u8,
    pub qp_access_flags: u32,
    pub path_mtu: u32,
    pub dest_qp_num: u32,
    pub rq_psn: u32,
    pub max_dest_rd_atomic: u8,
    pub min_rnr_timer: u8,
    pub ah_attr: AddressHandle,
    pub timeout: u8,
    pub retry_cnt: u8,
    pub rnr_retry: u8,
    pub sq_psn: u32,
    pub max_rd_atomic: u8,
}

impl QueuePairAttr {
    /// The attributes that are all zero, with an empty mask.
    pub open spec fn zeroed_spec() -> QueuePairAttr {
        QueuePairAttr {
            mask: 0,
            qp_state: QueuePairState::Reset,
            pkey_index: 0,
            port_num: 0,
            qp_access_flags: 0,
            path_mtu: 0,
            dest_qp_num: 0,
            rq_psn: 0,
            max_dest_rd_atomic: 0,
            min_rnr_timer: 0,
            ah_attr: AddressHandle {
                dlid: 0,
                sl: 0,
                src_path_bits: 0,
                is_global: 0,
                port_num: 0,
                grh: GlobalRoute { dgid: Gid::zero(), hop_limit: 0, sgid_index: 0 },
            },
            timeout: 0,
            retry_cnt: 0,
            rnr_retry: 0,
            sq_psn: 0,
            max_rd_atomic: 0,
        }
    }

    /// The attributes that are all zero, with an empty mask.
    pub fn zeroed() -> (attr: Self)
        ensures
            attr == Self::zeroed_spec(),
    {
        QueuePairAttr {
            mask: 0,
            qp_state: QueuePairState::Reset,
            pkey_index: 0,
            port_num: 0,
            qp_access_flags: 0,
            path_mtu: 0,
            dest_qp_num: 0,
            rq_psn: 0,
            max_dest_rd_atomic: 0,
            min_rnr_timer: 0,
            ah_attr: AddressHandle {
                dlid: 0,
                sl: 0,
                src_path_bits: 0,
                is_global: 0,
                port_num: 0,
                grh: GlobalRoute { dgid: Gid::default(), hop_limit: 0, sgid_index: 0 },
            },
            timeout: 0,
            retry_cnt: 0,
            rnr_retry: 0,
            sq_psn: 0,
            max_rd_atomic: 0,
        }
    }

    /// What takes a queue pair from reset to init.
    pub open spec fn init(flag: u32) -> QueuePairAttr {
        QueuePairAttr {
            mask: init_mask(),
            qp_state: QueuePairState::Init,
            pkey_index: 0,
            port_num: PORT_NUM,
            qp_access_flags: flag,
            ..Self::zeroed_spec()
        }
    }

    /// What takes a queue pair from init to ready to receive.
    pub open spec fn rtr(
        path_mtu: u32,
        remote: QueuePairEndpoint,
        start_psn: u32,
        max_dest_rd_atomic: u8,
        min_rnr_timer: u8,
    ) -> QueuePairAttr {
        QueuePairAttr {
            mask: rtr_mask(),
            qp_state: QueuePairState::ReadyToReceive,
            path_mtu,
            dest_qp_num: remote.qp_num,
            rq_psn: start_psn,
            max_dest_rd_atomic,
            min_rnr_timer,
            ah_attr: AddressHandle {
                dlid: remote.lid,
                sl: 0,
                src_path_bits: 0,
                is_global: 1,
                port_num: PORT_NUM,
                grh: GlobalRoute { dgid: remote.gid, hop_limit: 0xff, sgid_index: SGID_INDEX },
            },
            ..Self::zeroed_spec()
        }
    }

    /// What takes a queue pair from ready to receive to ready to send.
    pub open spec fn rts(
        timeout: u8,
        retry_cnt: u8,
        rnr_retry: u8,
        start_psn: u32,
        max_rd_atomic: u8,
    ) -> QueuePairAttr {
        QueuePairAttr {
            mask: rts_mask(),
            qp_state: QueuePairState::ReadyToSend,
            timeout,
            retry_cnt,
            rnr_retry,
            sq_psn: start_psn,
            max_rd_atomic,
            ..Self::zeroed_spec()
        }
    }
}

/// Why a step of a queue pair failed.
#[derive(Clone, Copy, Debug, PartialEq, Eq, Structural)]
pub enum QueuePairError {
    /// The step does not start from the state that the queue pair is in.
    WrongState(QueuePairState),
    /// The device refused, with this error number.
    Os(i32),
}

/// Why a transfer did not do what was asked.
#[derive(Clone, Copy, Debug, PartialEq, Eq, Structural)]
pub enum TransferError {
    /// The work request failed.
    Completion(WCError),
    /// The work request succeeded but moved another number of bytes than the
    /// local region holds.
    Length { expected: usize, transferred: usize },
}

/// One piece of local memory that a work request reads or fills.
#[derive(Clone, Copy, Debug, PartialEq, Eq, Structural)]
pub struct Sge {
    pub addr: usize,
    pub length: usize,
    pub lkey: u32,
}

/// What a work request on the send queue does.
#[derive(Clone, Copy, Debug, PartialEq, Eq, Structural)]
pub enum Opcode {
    Send,
    RdmaWrite,
    RdmaRead,
}

impl Opcode {
    /// The number that the device knows the operation by.
    pub open spec fn code_of(self) -> u32 {
        match self {
            Opcode::RdmaWrite => 0,
            Opcode::Send => 2,
            Opcode::RdmaRead => 4,
        }
    }

    /// The number that the device knows the operation by.
    pub fn code(&self) -> (code: u32)
        ensures
            code == self.code_of(),
    {
        match self {
            Opcode::RdmaWrite => 0,
            Opcode::Send => 2,
            Opcode::RdmaRead => 4,
        }
    }
}

/// The piece that stands for one local memory.
pub open spec fn sge_of<LM: RdmaLocalMemory>(lm: &LM) -> Sge {
    Sge { addr: lm.addr_of(), length: lm.length_of(), lkey: lm.lkey_of() }
}

/// The pieces that stand for a list of local memories, in order.
pub open spec fn sges_of<LM: RdmaLocalMemory>(lms: Seq<&LM>) -> Seq<Sge> {
    Seq::new(lms.len(), |i: int| sge_of(lms[i]))
}

/// Every memory of the list can serve as a buffer.
pub open spec fn all_leaves<LM: RdmaLocalMemory>(lms: Seq<&LM>) -> bool {
    forall|i: int| 0 <= i < lms.len() ==> (#[trigger] lms[i]).leaf()
}

/// The pieces that stand for a list of local memories, in order. Each of them
/// must be able to serve as a buffer.
pub fn gather<LM: RdmaLocalMemory>(lms: &Vec<&LM>) -> (sg_list: Vec<Sge>)
    requires
        all_leaves(lms@),
    ensures
        sg_list@ == sges_of(lms@),
{
    let mut sg_list: Vec<Sge> = Vec::new();
    let mut i: usize = 0;
    while i < lms.len()
        invariant
            all_leaves(lms@),
            i <= lms@.len(),
            sg_list@ == sges_of(lms@.take(i as int)),
        decreases lms@.len() - i,
    {
        let lm = lms[i];
        sg_list.push(Sge { addr: lm.addr(), length: lm.length(), lkey: lm.lkey() });
        proof {
            assert(sg_list@ =~= sges_of(lms@.take(i + 1)));
        }
        i += 1;
    }
    proof {
        assert(lms@.take(lms@.len() as int) =~= lms@);
    }
    sg_list
}

/// A work request for the send queue.
#[derive(Debug, PartialEq, Eq)]
pub struct SendWr {
    pub wr_id: u64,
    pub opcode: Opcode,
    pub send_flags: u32,
    pub sg_list: Vec<Sge>,
    pub remote_addr: usize,
    pub rkey: u32,
}

/// A work request for the receive queue.
#[derive(Debug, PartialEq, Eq)]
pub struct RecvWr {
    pub wr_id: u64,
    pub sg_list: Vec<Sge>,
}

/// A send work request as contracts see it.
pub struct SendWrView {
    pub wr_id: u64,
    pub opcode: Opcode,
    pub send_flags: u32,
    pub sg_list: Seq<Sge>,
    pub remote_addr: usize,
    pub rkey: u32,
}

impl View for SendWr {
    type V = SendWrView;

    open spec fn view(&self) -> SendWrView {
        SendWrView {
            wr_id: self.wr_id,
            opcode: self.opcode,
            send_flags: self.send_flags,
            sg_list: self.sg_list@,
            remote_addr: self.remote_addr,
            rkey: self.rkey,
        }
    }
}

impl SendWr {
    /// The request that sends what `lms` hold, and asks for a completion.
    pub fn new_send<LM: RdmaLocalMemory>(lms: &Vec<&LM>, wr_id: WorkRequestId) -> (wr: Self)
        requires
            all_leaves(lms@),
        ensures
            wr@ == (SendWrView {
                wr_id: wr_id.0,
                opcode: Opcode::Send,
                send_flags: IBV_SEND_SIGNALED,
                sg_list: sges_of(lms@),
                remote_addr: 0,
                rkey: 0,
            }),
    {
        SendWr {
            wr_id: wr_id.0,
            opcode: Opcode::Send,
            send_flags: IBV_SEND_SIGNALED,
            sg_list: gather(lms),
            remote_addr: 0,
            rkey: 0,
        }
    }

    /// The request that reads the remote memory `rm` into `lms`, and asks for
    /// a completion.
    pub fn new_read<LM: RdmaLocalMemory, RM: RdmaRemoteMemory>(
        lms: &Vec<&LM>,
        wr_id: WorkRequestId,
        rm: &RM,
    ) -> (wr: Self)
        requires
            all_leaves(lms@),
            rm.leaf(),
        ensures
            wr@ == (SendWrView {
                wr_id: wr_id.0,
                opcode: Opcode::RdmaRead,
                send_flags: IBV_SEND_SIGNALED,
                sg_list: sges_of(lms@),
                remote_addr: rm.addr_of(),
                rkey: rm.rkey_of(),
            }),
    {
        SendWr {
            wr_id: wr_id.0,
            opcode: Opcode::RdmaRead,
            send_flags: IBV_SEND_SIGNALED,
            sg_list: gather(lms),
            remote_addr: rm.addr(),
            rkey: rm.rkey(),
        }
    }

    /// The request that writes what `lms` hold into the remote memory `rm`,
    /// and asks for a completion.
    pub fn new_write<LM: RdmaLocalMemory, RM: RdmaRemoteMemory>(
        lms: &Vec<&LM>,
        wr_id: WorkRequestId,
        rm: &RM,
    ) -> (wr: Self)
        requires
            all_leaves(lms@),
            rm.leaf(),
        ensures
            wr@ == (SendWrView {
                wr_id: wr_id.0,
                opcode: Opcode::RdmaWrite,
                send_flags: IBV_SEND_SIGNALED,
                sg_list: sges_of(lms@),
                remote_addr: rm.addr_of(),
                rkey: rm.rkey_of(),
            }),
    {
        SendWr {
            wr_id: wr_id.0,
            opcode: Opcode::RdmaWrite,
            send_flags: IBV_SEND_SIGNALED,
            sg_list: gather(lms),
            remote_addr: rm.addr(),
            rkey: rm.rkey(),
        }
    }
}

impl RecvWr {
    /// The request that receives into `lms`.
    pub fn new_recv<LM: RdmaLocalMemory>(lms: &Vec<&LM>, wr_id: WorkRequestId) -> (wr: Self)
        requires
            all_leaves(lms@),
        ensures
            wr.wr_id == wr_id.0,
            wr.sg_list@ == sges_of(lms@),
    {
        RecvWr { wr_id: wr_id.0, sg_list: gather(lms) }
    }
}

/// The request for a one-sided operation between the whole of a local region
/// and a remote region: it names the local region as its one piece of
/// memory, and the remote region by its address and key.
pub open spec fn one_sided(
    opcode: Opcode,
    lm: &LocalMemoryRegion,
    rm: &RemoteMemoryRegion,
    wr_id: WorkRequestId,
) -> SendWrView {
    SendWrView {
        wr_id: wr_id.0,
        opcode,
        send_flags: IBV_SEND_SIGNALED,
        sg_list: seq![sge_of(lm)],
        remote_addr: rm@.addr,
        rkey: rm@.token().rkey,
    }
}

/// A write from one local region and a read into another of the same length
/// name the same bytes of the remote region: the same address, under the same
/// key, and as many of them.
pub proof fn lemma_read_names_what_was_written(
    written: &LocalMemoryRegion,
    read: &LocalMemoryRegion,
    rm: &RemoteMemoryRegion,
    write_id: WorkRequestId,
    read_id: WorkRequestId,
)
    requires
        written@.len == read@.len,
    ensures
        one_sided(Opcode::RdmaRead, read, rm, read_id).remote_addr == one_sided(
            Opcode::RdmaWrite,
            written,
            rm,
            write_id,
        ).remote_addr,
        one_sided(Opcode::RdmaRead, read, rm, read_id).rkey == one_sided(
            Opcode::RdmaWrite,
            written,
            rm,
            write_id,
        ).rkey,
        one_sided(Opcode::RdmaRead, read, rm, read_id).sg_list.len() == 1,
        one_sided(Opcode::RdmaWrite, written, rm, write_id).sg_list.len() == 1,
        one_sided(Opcode::RdmaRead, read, rm, read_id).sg_list[0].length == one_sided(
            Opcode::RdmaWrite,
            written,
            rm,
            write_id,
        ).sg_list[0].length,
{
}

/// A queue pair as the library knows it: its number, the port's local
/// identifier, global identifier and active transfer unit, and the state that
/// the device last confirmed.
#[derive(Clone, Copy, Debug, PartialEq, Eq)]
pub struct QueuePair {
    qp_num: u32,
    lid: u16,
    gid: Gid,
    active_mtu: u32,
    state: QueuePairState,
}

/// A queue pair as contracts see it.
pub struct QueuePairView {
    pub qp_num: u32,
    pub lid: u16,
    pub gid: Gid,
    pub active_mtu: u32,
    pub state: QueuePairState,
}

impl View for QueuePair {
    type V = QueuePairView;

    closed spec fn view(&self) -> QueuePairView {
        QueuePairView {
            qp_num: self.qp_num,
            lid: self.lid,
            gid: self.gid,
            active_mtu: self.active_mtu,
            state: self.state,
        }
    }
}

/// The psn at which both directions start.
pub const START_PSN: u32 = 0;

/// How many reads and atomics may be outstanding, in each direction.
pub const MAX_RD_ATOMIC: u8 = 1;

/// The shortest wait before the other side may try again after "receiver not
/// ready".
pub const MIN_RNR_TIMER: u8 = 0x12;

/// How long the device waits for an acknowledgement.
pub const TIMEOUT: u8 = 0x12;

/// How often the device tries again after a timeout.
pub const RETRY_CNT: u8 = 6;

/// How often the device tries again after "receiver not ready".
pub const RNR_RETRY: u8 = 0;

impl QueuePair {
    /// A queue pair that the device has just made: it is in the reset state.
    pub fn new(qp_num: u32, lid: u16, gid: Gid, active_mtu: u32) -> (qp: Self)
        ensures
            qp@ == (QueuePairView { qp_num, lid, gid, active_mtu, state: QueuePairState::Reset }),
    {
        QueuePair { qp_num, lid, gid, active_mtu, state: QueuePairState::Reset }
    }

    /// The state that the device last confirmed.
    pub fn state(&self) -> (state: QueuePairState)
        ensures
            state == self@.state,
    {
        self.state
    }

    /// What the other side must know in order to connect to this queue pair.
    pub fn endpoint(&self) -> (endpoint: QueuePairEndpoint)
        ensures
            endpoint == (QueuePairEndpoint {
                qp_num: self@.qp_num,
                lid: self@.lid,
                gid: self@.gid,
            }),
    {
        QueuePairEndpoint { qp_num: self.qp_num, lid: self.lid, gid: self.gid }
    }

    /// The attributes to hand to the device in order to go from reset to
    /// init, with the access that `flag` grants.
    pub fn modify_to_init(&self, flag: u32) -> (result: Result<QueuePairAttr, QueuePairError>)
        ensures
            result == if self@.state == QueuePairState::Reset {
                Ok::<QueuePairAttr, QueuePairError>(QueuePairAttr::init(flag))
            } else {
                Err(QueuePairError::WrongState(self@.state))
            },
    {
        if !matches!(self.state, QueuePairState::Reset) {
            return Err(QueuePairError::WrongState(self.state));
        }
        let mut attr = QueuePairAttr::zeroed();
        attr.pkey_index = 0;
        attr.port_num = PORT_NUM;
        attr.qp_state = QueuePairState::Init;
        attr.qp_access_flags = flag;
        attr.mask = IBV_QP_PKEY_INDEX | IBV_QP_STATE | IBV_QP_PORT | IBV_QP_ACCESS_FLAGS;
        Ok(attr)
    }

    /// The attributes to hand to the device in order to go from init to ready
    /// to receive from `remote`.
    pub fn modify_to_rtr(
        &self,
        remote: QueuePairEndpoint,
        start_psn: u32,
        max_dest_rd_atomic: u8,
        min_rnr_timer: u8,
    ) -> (result: Result<QueuePairAttr, QueuePairError>)
        ensures
            result == if self@.state == QueuePairState::Init {
                Ok::<QueuePairAttr, QueuePairError>(
                    QueuePairAttr::rtr(
                        self@.active_mtu,
                        remote,
                        start_psn,
                        max_dest_rd_atomic,
                        min_rnr_timer,
                    ),
                )
            } else {
                Err(QueuePairError::WrongState(self@.state))
            },
    {
        if !matches!(self.state, QueuePairState::Init) {
            return Err(QueuePairError::WrongState(self.state));
        }
        let mut attr = QueuePairAttr::zeroed();
        attr.qp_state = QueuePairState::ReadyToReceive;
        attr.path_mtu = self.active_mtu;
        attr.dest_qp_num = remote.qp_num;
        attr.rq_psn = start_psn;
        attr.max_dest_rd_atomic = max_dest_rd_atomic;
        attr.min_rnr_timer = min_rnr_timer;
        attr.ah_attr = AddressHandle {
            dlid: remote.lid,
            sl: 0,
            src_path_bits: 0,
            is_global: 1,
            port_num: PORT_NUM,
            grh: GlobalRoute { dgid: remote.gid, hop_limit: 0xff, sgid_index: SGID_INDEX },
        };
        attr.mask = IBV_QP_STATE | IBV_QP_AV | IBV_QP_PATH_MTU | IBV_QP_DEST_QPN | IBV_QP_RQ_PSN
            | IBV_QP_MAX_DEST_RD_ATOMIC | IBV_QP_MIN_RNR_TIMER;
        Ok(attr)
    }

    /// The attributes to hand to the device in order to go from ready to
    /// receive to ready to send.
    pub fn modify_to_rts(
        &self,
        timeout: u8,
        retry_cnt: u8,
        rnr_retry: u8,
        start_psn: u32,
        max_rd_atomic: u8,
    ) -> (result: Result<QueuePairAttr, QueuePairError>)
        ensures
            result == if self@.state == QueuePairState::ReadyToReceive {
                Ok::<QueuePairAttr, QueuePairError>(
                    QueuePairAttr::rts(timeout, retry_cnt, rnr_retry, start_psn, max_rd_atomic),
                )
            } else {
                Err(QueuePairError::WrongState(self@.state))
            },
    {
        if !matches!(self.state, QueuePairState::ReadyToReceive) {
            return Err(QueuePairError::WrongState(self.state));
        }
        let mut attr = QueuePairAttr::zeroed();
        attr.qp_state = QueuePairState::ReadyToSend;
        attr.timeout = timeout;
        attr.retry_cnt = retry_cnt;
        attr.rnr_retry = rnr_retry;
        attr.sq_psn = start_psn;
        attr.max_rd_atomic = max_rd_atomic;
        attr.mask = IBV_QP_STATE | IBV_QP_TIMEOUT | IBV_QP_RETRY_CNT | IBV_QP_RNR_RETRY
            | IBV_QP_SQ_PSN | IBV_QP_MAX_QP_RD_ATOMIC;
        Ok(attr)
    }

    /// Takes note of the device's answer to the attributes `attr`: on zero
    /// the queue pair is in the state that they asked for; on anything else
    /// the step failed with that error number, and the queue pair is of no
    /// more use.
    pub fn modified(&mut self, attr: &QueuePairAttr, errno: i32) -> (result: Result<
        (),
        QueuePairError,
    >)
        ensures
            result == if errno == 0 {
                Ok::<(), QueuePairError>(())
            } else {
                Err(QueuePairError::Os(errno))
            },
            final(self)@ == (QueuePairView {
                state: if errno == 0 {
                    attr.qp_state
                } else {
                    QueuePairState::Error
                },
                ..old(self)@
            }),
    {
        if errno != 0 {
            self.state = QueuePairState::Error;
            return Err(QueuePairError::Os(errno));
        }
        self.state = attr.qp_state;
        Ok(())
    }

    /// The first half of the handshake: the attributes that make the queue
    /// pair ready to receive from `remote`.
    pub fn handshake_rtr(&self, remote: QueuePairEndpoint) -> (result: Result<
        QueuePairAttr,
        QueuePairError,
    >)
        ensures
            result == if self@.state == QueuePairState::Init {
                Ok::<QueuePairAttr, QueuePairError>(
                    QueuePairAttr::rtr(
                        self@.active_mtu,
                        remote,
                        START_PSN,
                        MAX_RD_ATOMIC,
                        MIN_RNR_TIMER,
                    ),
                )
            } else {
                Err(QueuePairError::WrongState(self@.state))
            },
    {
        self.modify_to_rtr(remote, START_PSN, MAX_RD_ATOMIC, MIN_RNR_TIMER)
    }

    /// The second half of the handshake: the attributes that make the queue
    /// pair ready to send.
    pub fn handshake_rts(&self) -> (result: Result<QueuePairAttr, QueuePairError>)
        ensures
            result == if self@.state == QueuePairState::ReadyToReceive {
                Ok::<QueuePairAttr, QueuePairError>(
                    QueuePairAttr::rts(TIMEOUT, RETRY_CNT, RNR_RETRY, START_PSN, MAX_RD_ATOMIC),
                )
            } else {
                Err(QueuePairError::WrongState(self@.state))
            },
    {
        self.modify_to_rts(TIMEOUT, RETRY_CNT, RNR_RETRY, START_PSN, MAX_RD_ATOMIC)
    }

    /// The work request that sends what the local region holds. A region
    /// with ranges reserved inside it cannot serve as a buffer.
    pub fn send(lm: &LocalMemoryRegion, wr_id: WorkRequestId) -> (result: Result<
        SendWr,
        MemoryRegionError,
    >)
        ensures
            match result {
                Ok(wr) => lm@.reserved.len() == 0 && wr@ == (SendWrView {
                    wr_id: wr_id.0,
                    opcode: Opcode::Send,
                    send_flags: IBV_SEND_SIGNALED,
                    sg_list: seq![sge_of(lm)],
                    remote_addr: 0,
                    rkey: 0,
                }),
                Err(e) => lm@.reserved.len() > 0 && e == MemoryRegionError::NotLeaf,
            },
    {
        if !lm.is_leaf() {
            return Err(MemoryRegionError::NotLeaf);
        }
        let mut lms: Vec<&LocalMemoryRegion> = Vec::new();
        lms.push(lm);
        let wr = SendWr::new_send(&lms, wr_id);
        proof {
            assert(wr.sg_list@ =~= seq![sge_of(lm)]);
        }
        Ok(wr)
    }

    /// The work request that receives into the local region. A region with
    /// ranges reserved inside it cannot serve as a buffer.
    pub fn receive(lm: &LocalMemoryRegion, wr_id: WorkRequestId) -> (result: Result<
        RecvWr,
        MemoryRegionError,
    >)
        ensures
            match result {
                Ok(wr) => lm@.reserved.len() == 0 && wr.wr_id == wr_id.0 && wr.sg_list@
                    == seq![sge_of(lm)],
                Err(e) => lm@.reserved.len() > 0 && e == MemoryRegionError::NotLeaf,
            },
    {
        if !lm.is_leaf() {
            return Err(MemoryRegionError::NotLeaf);
        }
        let mut lms: Vec<&LocalMemoryRegion> = Vec::new();
        lms.push(lm);
        let wr = RecvWr::new_recv(&lms, wr_id);
        proof {
            assert(wr.sg_list@ =~= seq![sge_of(lm)]);
        }
        Ok(wr)
    }

    /// The work request that reads the remote region into the local one.
    /// Neither region may have ranges reserved inside it.
    pub fn read(lm: &LocalMemoryRegion, rm: &RemoteMemoryRegion, wr_id: WorkRequestId) -> (result:
        Result<SendWr, MemoryRegionError>)
        ensures
            match result {
                Ok(wr) => lm@.reserved.len() == 0 && rm@.reserved.len() == 0 && wr@ == one_sided(
                    Opcode::RdmaRead,
                    lm,
                    rm,
                    wr_id,
                ),
                Err(e) => (lm@.reserved.len() > 0 || rm@.reserved.len() > 0) && e
                    == MemoryRegionError::NotLeaf,
            },
    {
        if !lm.is_leaf() || !rm.is_leaf() {
            return Err(MemoryRegionError::NotLeaf);
        }
        let mut lms: Vec<&LocalMemoryRegion> = Vec::new();
        lms.push(lm);
        let wr = SendWr::new_read(&lms, wr_id, rm);
        proof {
            assert(wr.sg_list@ =~= seq![sge_of(lm)]);
        }
        Ok(wr)
    }

    /// The work request that writes what the local region holds into the
    /// remote one. Neither region may have ranges reserved inside it.
    pub fn write(lm: &LocalMemoryRegion, rm: &RemoteMemoryRegion, wr_id: WorkRequestId) -> (result:
        Result<SendWr, MemoryRegionError>)
        ensures
            match result {
                Ok(wr) => lm@.reserved.len() == 0 && rm@.reserved.len() == 0 && wr@ == one_sided(
                    Opcode::RdmaWrite,
                    lm,
                    rm,
                    wr_id,
                ),
                Err(e) => (lm@.reserved.len() > 0 || rm@.reserved.len() > 0) && e
                    == MemoryRegionError::NotLeaf,
            },
    {
        if !lm.is_leaf() || !rm.is_leaf() {
            return Err(MemoryRegionError::NotLeaf);
        }
        let mut lms: Vec<&LocalMemoryRegion> = Vec::new();
        lms.push(lm);
        let wr = SendWr::new_write(&lms, wr_id, rm);
        proof {
            assert(wr.sg_list@ =~= seq![sge_of(lm)]);
        }
        Ok(wr)
    }

    /// What a transfer of the whole of a local region of `expected` bytes
    /// came to, given its work completion.
    pub open spec fn transfer_outcome(wc: WorkCompletion, expected: usize) -> Result<
        (),
        TransferError,
    > {
        match wc.outcome() {
            Err(e) => Err(TransferError::Completion(e)),
            Ok(transferred) => if transferred == expected {
                Ok(())
            } else {
                Err(TransferError::Length { expected, transferred })
            },
        }
    }

    /// What a send, a read or a write of the local region came to, given its
    /// work completion: success means that the whole region was moved.
    pub fn transferred(lm: &LocalMemoryRegion, wc: &WorkCompletion) -> (result: Result<
        (),
        TransferError,
    >)
        requires
            lm@.reserved.len() == 0,
        ensures
            result == Self::transfer_outcome(*wc, lm@.len),
    {
        match wc.err() {
            Err(e) => Err(TransferError::Completion(e)),
            Ok(transferred) => {
                let expected = lm.length();
                if transferred == expected {
                    Ok(())
                } else {
                    Err(TransferError::Length { expected, transferred })
                }
            },
        }
    }

    /// What a receive came to, given its work completion: the number of bytes
    /// received, or the error.
    pub fn received(wc: &WorkCompletion) -> (result: Result<usize, WCError>)
        ensures
            result == wc.outcome(),
    {
        wc.err()
    }
}

} // verus!
