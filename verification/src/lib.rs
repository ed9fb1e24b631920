//! The core of an RDMA connection over reliable connected queue pairs: the
//! tree of memory regions, the registry that brings each work completion to
//! the one who waits for it, the steps of a queue pair from reset to ready to
//! send, and the agent through which the two sides lend memory to each other.
//!
//! Nothing here talks to a device or a socket. The caller does, and hands the
//! library what came back.

use std::alloc::Layout;
use vstd::prelude::*;

pub mod agent;
pub mod completion_queue;
pub mod event_listener;
pub mod gid;
pub mod layout;
pub mod memory_region;
pub mod queue_pair;
mod random;
pub mod rdma;
pub mod rdma_box;
pub mod region_tree;
pub mod token_map;

pub use agent::{
    Agent, AllocMRRequest, AllocMRResponse, Answered, Handled, Listened, Message, ProtocolError,
    Received, ReleaseMRRequest, ReleaseMRResponse, Request, RequestId, RequestKind, Response,
    ResponseKind, SendMRKind, SendMRRequest, SendMRResponse,
};
pub use completion_queue::{
    CompletionQueue, CompletionQueueError, PollOutcome, WCError, WCErrorKind, WorkCompletion,
    WorkRequestId,
};
pub use event_listener::{Dispatch, Event, EventListener, Phase, Step};
pub use gid::Gid;
pub use memory_region::{
    Local, LocalMemoryRegion, LocalRemoteMR, MemoryRegion, MemoryRegionError, MemoryRegionKind,
    MemoryRegionToken, Node, Remote, RemoteMemoryRegion,
};
pub use queue_pair::{
    AddressHandle, GlobalRoute, Opcode, QueuePair, QueuePairAttr, QueuePairEndpoint,
    QueuePairError, QueuePairInitAttr, QueuePairState, RecvWr, SendWr, Sge, TransferError,
};
pub use rdma::{BringUp, Posted, Rdma, RdmaBuilder, RdmaError, Side};
pub use rdma_box::{RdmaLocalBox, RdmaRemoteBox};

verus! {

/// Memory that the device can reach: where it starts and how long it is.
pub trait RdmaMemory {
    /// The address, as contracts speak of it.
    spec fn addr_of(&self) -> usize;

    /// The length, as contracts speak of it.
    spec fn length_of(&self) -> usize;

    /// Whether no part of the memory is reserved for another. Only then has
    /// it an address and a length to look at, and can serve as a buffer.
    spec fn leaf(&self) -> bool;

    /// Whether no part of the memory is reserved for another.
    fn is_leaf(&self) -> (leaf: bool)
        ensures
            leaf == self.leaf(),
    ;

    /// The address at which the memory starts.
    fn addr(&self) -> (addr: usize)
        requires
            self.leaf(),
        ensures
            addr == self.addr_of(),
    ;

    /// The number of bytes.
    fn length(&self) -> (len: usize)
        requires
            self.leaf(),
        ensures
            len == self.length_of(),
    ;
}

/// Memory registered on this side, which work requests name by its local key.
pub trait RdmaLocalMemory: RdmaMemory {
    /// The local key, as contracts speak of it.
    spec fn lkey_of(&self) -> u32;

    /// The local key.
    fn lkey(&self) -> (key: u32)
        ensures
            key == self.lkey_of(),
    ;
}

/// Memory registered on the other side, which one-sided work requests name by
/// its remote key.
pub trait RdmaRemoteMemory: RdmaMemory {
    /// The remote key, as contracts speak of it.
    spec fn rkey_of(&self) -> u32;

    /// The remote key.
    fn rkey(&self) -> (key: u32)
        ensures
            key == self.rkey_of(),
    ;
}

/// Memory whose layout is known from its type alone, so that it can be made
/// ready before anything is received into it.
pub trait SizedLayout {
    /// The layout of such memory.
    fn layout() -> Layout;
}

} // verus!
