//! One connection: its queue pair, its registry of work requests and, once
//! the two sides have shaken hands, its agent.

use crate::agent::{
    send_mr_request, starts, Agent, AllocMRRequest, ReleaseMRRequest, Request, RequestKind,
    ResponseReceiver, ResponseSender,
};
use crate::completion_queue::{PollOutcome, WorkCompletion, WorkRequestId};
use crate::event_listener::{
    next_phase, nobody, Dispatch, Event, EventListener, Phase, Responder, Step,
};
use crate::layout::{layout_align, layout_size};
use crate::memory_region::{
    LocalMemoryRegion, MemoryRegionError, MemoryRegionToken, RemoteMemoryRegion,
};
use crate::queue_pair::{
    default_access, full_access, one_sided, sge_of, Opcode, QueuePair, QueuePairAttr,
    QueuePairEndpoint, QueuePairError, QueuePairState, RecvWr, SendWr, SendWrView,
    IBV_SEND_SIGNALED, MAX_RD_ATOMIC, MIN_RNR_TIMER, RETRY_CNT, RNR_RETRY, START_PSN, TIMEOUT,
};
use std::alloc::Layout;
use tokio::sync::mpsc::Receiver;
use vstd::prelude::*;

verus! {

/// How many entries a completion queue has unless told otherwise.
pub const DEFAULT_CQ_SIZE: u32 = 16;

/// What a connection is made with.
pub struct RdmaBuilder {
    dev_name: Option<String>,
    access: u32,
    cq_size: u32,
}

/// The options as contracts see them.
pub struct RdmaBuilderView {
    pub dev_name: Option<Seq<char>>,
    pub access: u32,
    pub cq_size: u32,
}

impl View for RdmaBuilder {
    type V = RdmaBuilderView;

    closed spec fn view(&self) -> RdmaBuilderView {
        RdmaBuilderView {
            dev_name: match self.dev_name {
                Some(name) => Some(name@),
                None => None,
            },
            access: self.access,
            cq_size: self.cq_size,
        }
    }
}

impl RdmaBuilder {
    /// Names the device to open.
    pub fn set_dev(&mut self, dev: &str)
        ensures
            final(self)@ == (RdmaBuilderView { dev_name: Some(dev@), ..old(self)@ }),
    {
        self.dev_name = Some(dev.to_owned());
    }

    /// Sets the number of entries of the completion queue.
    pub fn set_cq_size(&mut self, cq_size: u32)
        ensures
            final(self)@ == (RdmaBuilderView { cq_size, ..old(self)@ }),
    {
        self.cq_size = cq_size
    }

    /// The device to open; none for the first one found.
    pub fn dev_name(&self) -> (name: Option<&str>)
        ensures
            match name {
                Some(name) => self@.dev_name == Some(name@),
                None => self@.dev_name is None,
            },
    {
        match &self.dev_name {
            Some(name) => Some(name.as_str()),
            None => None,
        }
    }

    /// The access that the queue pair grants.
    pub fn access(&self) -> (access: u32)
        ensures
            access == self@.access,
    {
        self.access
    }

    /// The number of entries of the completion queue.
    pub fn cq_size(&self) -> (cq_size: u32)
        ensures
            cq_size == self@.cq_size,
    {
        self.cq_size
    }
}

impl Default for RdmaBuilder {
    /// The first device found, full access, and a completion queue of
    /// `DEFAULT_CQ_SIZE` entries.
    fn default() -> (builder: Self)
        ensures
            builder@ == (RdmaBuilderView {
                dev_name: None,
                access: full_access(),
                cq_size: DEFAULT_CQ_SIZE,
            }),
    {
        RdmaBuilder { dev_name: None, access: default_access(), cq_size: DEFAULT_CQ_SIZE }
    }
}

/// Which side of a connection this is.
#[derive(Clone, Copy, Debug, PartialEq, Eq, Structural)]
pub enum Side {
    /// The side that connects.
    Client,
    /// The side that accepts.
    Server,
}

/// One step of bringing a connection up.
#[derive(Clone, Copy, Debug, PartialEq, Eq, Structural)]
pub enum BringUp {
    /// Write the record of the own endpoint to the stream.
    SendEndpoint,
    /// Read the record of the other side's endpoint from the stream.
    ReceiveEndpoint,
    /// Make the queue pair ready to receive.
    ToReadyToReceive,
    /// Make the queue pair ready to send.
    ToReadyToSend,
    /// Start the agent on the stream.
    StartAgent,
    /// Nothing is left to do.
    Done,
}

impl Side {
    /// The steps that bring a connection up, in order. The client writes its
    /// endpoint and then reads; the server reads and then writes.
    pub open spec fn plan(self) -> Seq<BringUp> {
        match self {
            Side::Client => seq![
                BringUp::SendEndpoint,
                BringUp::ReceiveEndpoint,
                BringUp::ToReadyToReceive,
                BringUp::ToReadyToSend,
                BringUp::StartAgent,
            ],
            Side::Server => seq![
                BringUp::ReceiveEndpoint,
                BringUp::SendEndpoint,
                BringUp::ToReadyToReceive,
                BringUp::ToReadyToSend,
                BringUp::StartAgent,
            ],
        }
    }

    /// The step to take after `done` steps have succeeded.
    pub fn next_step(&self, done: usize) -> (step: BringUp)
        ensures
            step == if done < self.plan().len() {
                self.plan()[done as int]
            } else {
                BringUp::Done
            },
    {
        match (self, done) {
            (Side::Client, 0) => BringUp::SendEndpoint,
            (Side::Client, 1) => BringUp::ReceiveEndpoint,
            (Side::Server, 0) => BringUp::ReceiveEndpoint,
            (Side::Server, 1) => BringUp::SendEndpoint,
            (_, 2) => BringUp::ToReadyToReceive,
            (_, 3) => BringUp::ToReadyToSend,
            (_, 4) => BringUp::StartAgent,
            _ => BringUp::Done,
        }
    }
}

/// Why an operation on a connection was refused.
#[derive(Clone, Copy, Debug, PartialEq, Eq, Structural)]
pub enum RdmaError {
    /// A region cannot serve as asked.
    Region(MemoryRegionError),
    /// Every identifier drawn was in flight already.
    NoIdentifier,
    /// The agent has not been started yet.
    NotConnected,
}

/// A work request that is ready to be posted, and the end on which its
/// completion will arrive.
pub struct Posted<W> {
    pub request: W,
    pub completion: Receiver<WorkCompletion>,
}

/// A connection. `M` is whatever keeps a local region registered.
pub struct Rdma<M> {
    qp: QueuePair,
    event_listener: EventListener,
    agent: Option<Agent<M>>,
}

impl<M> Rdma<M> {
    /// The queue pair, as contracts speak of it.
    pub closed spec fn queue_pair(&self) -> QueuePair {
        self.qp
    }

    /// For each work request in flight, the sending end of the channel on
    /// which its completion is awaited.
    pub closed spec fn waiters(&self) -> Map<u64, Responder> {
        self.event_listener.waiters()
    }

    /// The identifiers of the work requests in flight.
    pub open spec fn in_flight(&self) -> Set<u64> {
        self.waiters().dom()
    }

    /// No work request is in flight.
    pub open spec fn idle(&self) -> bool {
        forall|id: u64| !self.in_flight().contains(id)
    }

    /// Whether the agent has been started.
    pub closed spec fn connected(&self) -> bool {
        self.agent is Some
    }

    /// For each request of the agent in flight, the end on which its
    /// response is handed over; none while there is no agent.
    pub closed spec fn waits(&self) -> Map<u64, ResponseSender> {
        match self.agent {
            Some(agent) => agent.waits(),
            None => Map::empty(),
        }
    }

    /// No request of the agent is in flight; so it is while there is no
    /// agent.
    pub open spec fn agent_idle(&self) -> bool {
        forall|id: u64| !self.waits().contains_key(id)
    }

    /// The local regions that the agent holds for the other side; none while
    /// there is no agent.
    pub closed spec fn owned(&self) -> Map<MemoryRegionToken, M> {
        match self.agent {
            Some(agent) => agent.owned(),
            None => Map::empty(),
        }
    }

    /// The connection is valid.
    pub closed spec fn wf(&self) -> bool {
        match self.agent {
            Some(agent) => agent.wf(),
            None => true,
        }
    }

    /// A connection without work requests in flight has an idle registry,
    /// and one whose agent has no requests in flight has an idle agent.
    proof fn lemma_idle(&self)
        ensures
            self.idle() ==> self.event_listener.idle(),
            self.agent_idle() ==> (self.agent matches Some(agent) ==> agent.idle()),
    {
        if self.idle() {
            assert forall|id: u64| !self.event_listener.registered().contains(id) by {
                assert(!self.in_flight().contains(id));
            }
        }
        if self.agent_idle() {
            match self.agent {
                Some(agent) => {
                    assert forall|id: u64| !agent.waits().contains_key(id) by {
                        assert(!self.waits().contains_key(id));
                    }
                },
                None => {},
            }
        }
    }

    /// A connection around a queue pair that the device has just made: no
    /// work request is in flight, and there is no agent.
    pub fn new(qp: QueuePair) -> (rdma: Self)
        ensures
            rdma.wf(),
            rdma.queue_pair() == qp,
            rdma.waiters() == nobody(),
            rdma.waits() == Map::<u64, ResponseSender>::empty(),
            rdma.owned() == Map::<MemoryRegionToken, M>::empty(),
            rdma.phase_of() == Phase::Arm,
            !rdma.connected(),
    {
        Rdma { qp, event_listener: EventListener::new(), agent: None }
    }

    /// What the other side must know in order to connect to this one.
    pub fn endpoint(&self) -> (endpoint: QueuePairEndpoint)
        ensures
            endpoint == (QueuePairEndpoint {
                qp_num: self.queue_pair()@.qp_num,
                lid: self.queue_pair()@.lid,
                gid: self.queue_pair()@.gid,
            }),
    {
        self.qp.endpoint()
    }

    /// The attributes that take the queue pair to init with the access that
    /// `flag` grants, to ready to receive from `remote`, and to ready to
    /// send, as the state of the queue pair asks next; none once it is ready
    /// to send or has failed.
    pub fn next_attr(&self, flag: u32, remote: QueuePairEndpoint) -> (attr: Option<QueuePairAttr>)
        ensures
            attr == match self.queue_pair()@.state {
                QueuePairState::Reset => Some(QueuePairAttr::init(flag)),
                QueuePairState::Init => Some(
                    QueuePairAttr::rtr(
                        self.queue_pair()@.active_mtu,
                        remote,
                        START_PSN,
                        MAX_RD_ATOMIC,
                        MIN_RNR_TIMER,
                    ),
                ),
                QueuePairState::ReadyToReceive => Some(
                    QueuePairAttr::rts(TIMEOUT, RETRY_CNT, RNR_RETRY, START_PSN, MAX_RD_ATOMIC),
                ),
                _ => None,
            },
    {
        let result = match self.qp.state() {
            QueuePairState::Reset => self.qp.modify_to_init(flag),
            QueuePairState::Init => self.qp.handshake_rtr(remote),
            QueuePairState::ReadyToReceive => self.qp.handshake_rts(),
            _ => {
                return None;
            },
        };
        match result {
            Ok(attr) => Some(attr),
            Err(_) => None,
        }
    }

    /// Takes note of the device's answer to the attributes `attr`.
    pub fn modified(&mut self, attr: &QueuePairAttr, errno: i32) -> (result: Result<
        (),
        QueuePairError,
    >)
        requires
            old(self).wf(),
        ensures
            final(self).wf(),
            result == if errno == 0 {
                Ok::<(), QueuePairError>(())
            } else {
                Err(QueuePairError::Os(errno))
            },
            final(self).queue_pair()@.state == if errno == 0 {
                attr.qp_state
            } else {
                QueuePairState::Error
            },
            final(self).waiters() == old(self).waiters(),
            final(self).phase_of() == old(self).phase_of(),
            final(self).connected() == old(self).connected(),
            final(self).waits() == old(self).waits(),
            final(self).owned() == old(self).owned(),
    {
        self.qp.modified(attr, errno)
    }

    /// Starts the agent, unless it has been started already.
    pub fn start_agent(&mut self)
        requires
            old(self).wf(),
        ensures
            final(self).wf(),
            final(self).connected(),
            final(self).waits() == old(self).waits(),
            final(self).queue_pair() == old(self).queue_pair(),
            final(self).phase_of() == old(self).phase_of(),
            final(self).waiters() == old(self).waiters(),
            final(self).owned() == old(self).owned(),
    {
        if self.agent.is_none() {
            self.agent = Some(Agent::new());
        }
    }

    /// Takes the agent out of the connection, for the task that listens on
    /// the control stream; none if it has not been started or was taken
    /// already.
    pub fn take_agent(&mut self) -> (agent: Option<Agent<M>>)
        requires
            old(self).wf(),
        ensures
            final(self).wf(),
            !final(self).connected(),
            final(self).queue_pair() == old(self).queue_pair(),
            final(self).phase_of() == old(self).phase_of(),
            final(self).waiters() == old(self).waiters(),
            final(self).waits() == Map::<u64, ResponseSender>::empty(),
            final(self).owned() == Map::<MemoryRegionToken, M>::empty(),
            agent.is_some() == old(self).connected(),
            agent matches Some(a) ==> a.wf() && a.owned() == old(self).owned() && a.waits() == old(
                self,
            ).waits(),
    {
        self.agent.take()
    }

    /// Registers a work request and returns the request that sends what the
    /// local region holds, with the end on which its completion will arrive.
    /// A region with ranges reserved inside it is refused before anything is
    /// registered.
    pub fn send(&mut self, lm: &LocalMemoryRegion) -> (result: Result<Posted<SendWr>, RdmaError>)
        requires
            old(self).wf(),
        ensures
            final(self).wf(),
            final(self).queue_pair() == old(self).queue_pair(),
            final(self).phase_of() == old(self).phase_of(),
            final(self).connected() == old(self).connected(),
            final(self).waits() == old(self).waits(),
            final(self).owned() == old(self).owned(),
            lm@.reserved.len() == 0 && old(self).idle() ==> result is Ok,
            match result {
                Ok(posted) => {
                    &&& lm@.reserved.len() == 0
                    &&& !old(self).in_flight().contains(posted.request.wr_id)
                    &&& final(self).waiters().contains_key(posted.request.wr_id)
                    &&& final(self).waiters() == old(self).waiters().insert(
                        posted.request.wr_id,
                        final(self).waiters()[posted.request.wr_id],
                    )
                    &&& posted.request@ == (SendWrView {
                        wr_id: posted.request.wr_id,
                        opcode: Opcode::Send,
                        send_flags: IBV_SEND_SIGNALED,
                        sg_list: seq![sge_of(lm)],
                        remote_addr: 0,
                        rkey: 0,
                    })
                },
                Err(e) => {
                    &&& final(self).waiters() == old(self).waiters()
                    &&& if lm@.reserved.len() > 0 {
                        e == RdmaError::Region(MemoryRegionError::NotLeaf)
                    } else {
                        e == RdmaError::NoIdentifier
                    }
                },
            },
    {
        if !lm.is_leaf() {
            return Err(RdmaError::Region(MemoryRegionError::NotLeaf));
        }
        proof {
            self.lemma_idle();
        }
        match self.event_listener.register() {
            None => Err(RdmaError::NoIdentifier),
            Some((wr_id, completion)) => match QueuePair::send(lm, wr_id) {
                Ok(request) => Ok(Posted { request, completion }),
                Err(e) => Err(RdmaError::Region(e)),
            },
        }
    }

    /// Registers a work request and returns the request that receives into
    /// the local region, with the end on which its completion will arrive. A
    /// region with ranges reserved inside it is refused before anything is
    /// registered.
    pub fn receive(&mut self, lm: &LocalMemoryRegion) -> (result: Result<Posted<RecvWr>, RdmaError>)
        requires
            old(self).wf(),
        ensures
            final(self).wf(),
            final(self).queue_pair() == old(self).queue_pair(),
            final(self).phase_of() == old(self).phase_of(),
            final(self).connected() == old(self).connected(),
            final(self).waits() == old(self).waits(),
            final(self).owned() == old(self).owned(),
            lm@.reserved.len() == 0 && old(self).idle() ==> result is Ok,
            match result {
                Ok(posted) => {
                    &&& lm@.reserved.len() == 0
                    &&& !old(self).in_flight().contains(posted.request.wr_id)
                    &&& final(self).waiters().contains_key(posted.request.wr_id)
                    &&& final(self).waiters() == old(self).waiters().insert(
                        posted.request.wr_id,
                        final(self).waiters()[posted.request.wr_id],
                    )
                    &&& posted.request.sg_list@ == seq![sge_of(lm)]
                },
                Err(e) => {
                    &&& final(self).waiters() == old(self).waiters()
                    &&& if lm@.reserved.len() > 0 {
                        e == RdmaError::Region(MemoryRegionError::NotLeaf)
                    } else {
                        e == RdmaError::NoIdentifier
                    }
                },
            },
    {
        if !lm.is_leaf() {
            return Err(RdmaError::Region(MemoryRegionError::NotLeaf));
        }
        proof {
            self.lemma_idle();
        }
        match self.event_listener.register() {
            None => Err(RdmaError::NoIdentifier),
            Some((wr_id, completion)) => match QueuePair::receive(lm, wr_id) {
                Ok(request) => Ok(Posted { request, completion }),
                Err(e) => Err(RdmaError::Region(e)),
            },
        }
    }

    /// Registers a work request and returns the request that reads the remote
    /// region into the local one, with the end on which its completion will
    /// arrive. Regions with ranges reserved inside them are refused before
    /// anything is registered.
    pub fn read(&mut self, lm: &LocalMemoryRegion, rm: &RemoteMemoryRegion) -> (result: Result<
        Posted<SendWr>,
        RdmaError,
    >)
        requires
            old(self).wf(),
        ensures
            final(self).wf(),
            final(self).queue_pair() == old(self).queue_pair(),
            final(self).phase_of() == old(self).phase_of(),
            final(self).connected() == old(self).connected(),
            final(self).waits() == old(self).waits(),
            final(self).owned() == old(self).owned(),
            lm@.reserved.len() == 0 && rm@.reserved.len() == 0 && old(self).idle()
                ==> result is Ok,
            match result {
                Ok(posted) => {
                    &&& lm@.reserved.len() == 0
                    &&& rm@.reserved.len() == 0
                    &&& !old(self).in_flight().contains(posted.request.wr_id)
                    &&& final(self).waiters().contains_key(posted.request.wr_id)
                    &&& final(self).waiters() == old(self).waiters().insert(
                        posted.request.wr_id,
                        final(self).waiters()[posted.request.wr_id],
                    )
                    &&& posted.request@ == one_sided(
                        Opcode::RdmaRead,
                        lm,
                        rm,
                        WorkRequestId(posted.request.wr_id),
                    )
                },
                Err(e) => {
                    &&& final(self).waiters() == old(self).waiters()
                    &&& if lm@.reserved.len() > 0 || rm@.reserved.len() > 0 {
                        e == RdmaError::Region(MemoryRegionError::NotLeaf)
                    } else {
                        e == RdmaError::NoIdentifier
                    }
                },
            },
    {
        if !lm.is_leaf() || !rm.is_leaf() {
            return Err(RdmaError::Region(MemoryRegionError::NotLeaf));
        }
        proof {
            self.lemma_idle();
        }
        match self.event_listener.register() {
            None => Err(RdmaError::NoIdentifier),
            Some((wr_id, completion)) => match QueuePair::read(lm, rm, wr_id) {
                Ok(request) => Ok(Posted { request, completion }),
                Err(e) => Err(RdmaError::Region(e)),
            },
        }
    }

    /// Registers a work request and returns the request that writes what the
    /// local region holds into the remote one, with the end on which its
    /// completion will arrive. Regions with ranges reserved inside them are
    /// refused before anything is registered.
    pub fn write(&mut self, lm: &LocalMemoryRegion, rm: &RemoteMemoryRegion) -> (result: Result<
        Posted<SendWr>,
        RdmaError,
    >)
        requires
            old(self).wf(),
        ensures
            final(self).wf(),
            final(self).queue_pair() == old(self).queue_pair(),
            final(self).phase_of() == old(self).phase_of(),
            final(self).connected() == old(self).connected(),
            final(self).waits() == old(self).waits(),
            final(self).owned() == old(self).owned(),
            lm@.reserved.len() == 0 && rm@.reserved.len() == 0 && old(self).idle()
                ==> result is Ok,
            match result {
                Ok(posted) => {
                    &&& lm@.reserved.len() == 0
                    &&& rm@.reserved.len() == 0
                    &&& !old(self).in_flight().contains(posted.request.wr_id)
                    &&& final(self).waiters().contains_key(posted.request.wr_id)
                    &&& final(self).waiters() == old(self).waiters().insert(
                        posted.request.wr_id,
                        final(self).waiters()[posted.request.wr_id],
                    )
                    &&& posted.request@ == one_sided(
                        Opcode::RdmaWrite,
                        lm,
                        rm,
                        WorkRequestId(posted.request.wr_id),
                    )
                },
                Err(e) => {
                    &&& final(self).waiters() == old(self).waiters()
                    &&& if lm@.reserved.len() > 0 || rm@.reserved.len() > 0 {
                        e == RdmaError::Region(MemoryRegionError::NotLeaf)
                    } else {
                        e == RdmaError::NoIdentifier
                    }
                },
            },
    {
        if !lm.is_leaf() || !rm.is_leaf() {
            return Err(RdmaError::Region(MemoryRegionError::NotLeaf));
        }
        proof {
            self.lemma_idle();
        }
        match self.event_listener.register() {
            None => Err(RdmaError::NoIdentifier),
            Some((wr_id, completion)) => match QueuePair::write(lm, rm, wr_id) {
                Ok(request) => Ok(Posted { request, completion }),
                Err(e) => Err(RdmaError::Region(e)),
            },
        }
    }

    /// What the dispatcher does next.
    pub closed spec fn phase_of(&self) -> Phase {
        self.event_listener.phase_of()
    }

    /// What the dispatcher does next.
    pub fn phase(&self) -> (phase: Phase)
        ensures
            phase == self.phase_of(),
    {
        self.event_listener.phase()
    }

    /// One step of the dispatcher; see `EventListener::step`.
    pub fn step(&mut self, event: Event) -> (step: Step)
        requires
            old(self).wf(),
        ensures
            final(self).wf(),
            final(self).queue_pair() == old(self).queue_pair(),
            final(self).connected() == old(self).connected(),
            final(self).waits() == old(self).waits(),
            final(self).owned() == old(self).owned(),
            final(self).phase_of() == next_phase(old(self).phase_of(), event),
            match (old(self).phase_of(), event) {
                (Phase::Drain, Event::Polled(PollOutcome::Completion(wc))) => {
                    &&& step matches Step::Dispatched(dispatch)
                    &&& dispatch == Dispatch::Unknown <==> !old(self).in_flight().contains(
                        wc.wr_id,
                    )
                    &&& final(self).waiters() == old(self).waiters().remove(wc.wr_id)
                },
                (Phase::Drain, Event::Polled(PollOutcome::Error)) => step == Step::PollFailed
                    && final(self).waiters() == old(self).waiters(),
                (Phase::Arm, Event::Armed) | (Phase::Wait, Event::Readable) | (
                    Phase::Drain,
                    Event::Polled(PollOutcome::Empty),
                ) => step == Step::Advanced && final(self).waiters() == old(self).waiters(),
                _ => step == Step::Ignored && final(self).waiters() == old(self).waiters(),
            },
    {
        let step = self.event_listener.step(event);
        step
    }

    /// Takes a work request out of flight whose posting failed, so that no
    /// completion is awaited for it. Returns whether it was in flight.
    pub fn cancel(&mut self, wr_id: WorkRequestId) -> (cancelled: bool)
        requires
            old(self).wf(),
        ensures
            final(self).wf(),
            final(self).queue_pair() == old(self).queue_pair(),
            final(self).phase_of() == old(self).phase_of(),
            final(self).connected() == old(self).connected(),
            final(self).waits() == old(self).waits(),
            final(self).owned() == old(self).owned(),
            cancelled == old(self).in_flight().contains(wr_id.0),
            final(self).waiters() == old(self).waiters().remove(wr_id.0),
    {
        let waiter = self.event_listener.take(wr_id);
        waiter.is_some()
    }

    /// Brings a work completion to the one who waits for it.
    pub fn complete(&mut self, wc: WorkCompletion) -> (dispatch: Dispatch)
        requires
            old(self).wf(),
        ensures
            final(self).wf(),
            final(self).queue_pair() == old(self).queue_pair(),
            final(self).phase_of() == old(self).phase_of(),
            final(self).connected() == old(self).connected(),
            final(self).waits() == old(self).waits(),
            final(self).owned() == old(self).owned(),
            dispatch == Dispatch::Unknown <==> !old(self).in_flight().contains(wc.wr_id),
            final(self).waiters() == old(self).waiters().remove(wc.wr_id),
    {
        let dispatch = self.event_listener.complete(wc);
        dispatch
    }

    /// Starts the request that asks the other side to register a region of
    /// this layout. Refused while there is no agent.
    pub fn alloc_remote_mr(&mut self, layout: Layout) -> (result: Result<
        (Request, ResponseReceiver),
        RdmaError,
    >)
        requires
            old(self).wf(),
        ensures
            final(self).wf(),
            final(self).queue_pair() == old(self).queue_pair(),
            final(self).phase_of() == old(self).phase_of(),
            final(self).waiters() == old(self).waiters(),
            final(self).connected() == old(self).connected(),
            final(self).owned() == old(self).owned(),
            old(self).connected() && old(self).agent_idle() ==> result is Ok,
            match result {
                Ok((request, _)) => {
                    &&& old(self).connected()
                    &&& request.kind == RequestKind::AllocMR(
                        AllocMRRequest { size: layout_size(layout), align: layout_align(layout) },
                    )
                    &&& starts(old(self).waits(), request, final(self).waits())
                },
                Err(e) => {
                    &&& final(self).waits() == old(self).waits()
                    &&& if old(self).connected() {
                        e == RdmaError::NoIdentifier
                    } else {
                        e == RdmaError::NotConnected
                    }
                },
            },
    {
        proof {
            self.lemma_idle();
        }
        match self.agent.take() {
            None => Err(RdmaError::NotConnected),
            Some(mut agent) => {
                let started = agent.alloc_mr(layout);
                self.agent = Some(agent);
                match started {
                    Some(started) => Ok(started),
                    None => Err(RdmaError::NoIdentifier),
                }
            },
        }
    }

    /// Starts the request that gives a token back to the other side. Refused
    /// while there is no agent.
    pub fn release_mr(&mut self, token: MemoryRegionToken) -> (result: Result<
        (Request, ResponseReceiver),
        RdmaError,
    >)
        requires
            old(self).wf(),
        ensures
            final(self).wf(),
            final(self).queue_pair() == old(self).queue_pair(),
            final(self).phase_of() == old(self).phase_of(),
            final(self).waiters() == old(self).waiters(),
            final(self).connected() == old(self).connected(),
            final(self).owned() == old(self).owned(),
            old(self).connected() && old(self).agent_idle() ==> result is Ok,
            match result {
                Ok((request, _)) => {
                    &&& old(self).connected()
                    &&& request.kind == RequestKind::ReleaseMR(ReleaseMRRequest { token })
                    &&& starts(old(self).waits(), request, final(self).waits())
                },
                Err(e) => {
                    &&& final(self).waits() == old(self).waits()
                    &&& if old(self).connected() {
                        e == RdmaError::NoIdentifier
                    } else {
                        e == RdmaError::NotConnected
                    }
                },
            },
    {
        proof {
            self.lemma_idle();
        }
        match self.agent.take() {
            None => Err(RdmaError::NotConnected),
            Some(mut agent) => {
                let started = agent.release_mr(token);
                self.agent = Some(agent);
                match started {
                    Some(started) => Ok(started),
                    None => Err(RdmaError::NoIdentifier),
                }
            },
        }
    }

    /// Starts the request that hands the region named by `token` over to the
    /// other side; see `Agent::send_mr`. Refused while there is no agent.
    pub fn send_mr(&mut self, token: MemoryRegionToken, local: Option<M>) -> (result: Result<
        (Request, ResponseReceiver),
        RdmaError,
    >)
        requires
            old(self).wf(),
        ensures
            final(self).wf(),
            final(self).queue_pair() == old(self).queue_pair(),
            final(self).phase_of() == old(self).phase_of(),
            final(self).waiters() == old(self).waiters(),
            final(self).connected() == old(self).connected(),
            old(self).connected() && old(self).agent_idle() ==> result is Ok,
            match result {
                Ok((request, _)) => {
                    &&& old(self).connected()
                    &&& request.kind == send_mr_request(token, local.is_some())
                    &&& final(self).owned() == match local {
                        Some(mr) => old(self).owned().insert(token, mr),
                        None => old(self).owned(),
                    }
                    &&& starts(old(self).waits(), request, final(self).waits())
                },
                Err(e) => {
                    &&& final(self).owned() == old(self).owned()
                    &&& final(self).waits() == old(self).waits()
                    &&& if old(self).connected() {
                        e == RdmaError::NoIdentifier
                    } else {
                        e == RdmaError::NotConnected
                    }
                },
            },
    {
        proof {
            self.lemma_idle();
        }
        match self.agent.take() {
            None => Err(RdmaError::NotConnected),
            Some(mut agent) => {
                let started = agent.send_mr(token, local);
                self.agent = Some(agent);
                match started {
                    Some(started) => Ok(started),
                    None => Err(RdmaError::NoIdentifier),
                }
            },
        }
    }
}

} // verus!
