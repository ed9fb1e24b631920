//! The agent: the requests and responses by which the two sides of a
//! connection lend memory regions to each other, and the state that each side
//! keeps for them.
//!
//! Each side runs one agent. It remembers who waits for which response, and
//! holds on to every local region that the other side has a token for, until
//! the other side gives the token back.

use crate::layout::{align_of_layout, layout_align, layout_size, size_of_layout};
use crate::memory_region::{remote_root, MemoryRegion, MemoryRegionToken, RemoteMemoryRegion};
use crate::random::random_u64;
use crate::token_map::TokenMap;
use std::alloc::Layout;
use std::collections::HashMap;
use tokio::sync::oneshot::error::RecvError;
use tokio::sync::oneshot::{channel, Receiver, Sender};
use vstd::prelude::*;

verus! {

broadcast use vstd::std_specs::hash::group_hash_axioms;

/// The identifier that ties a response to its request.
#[derive(Clone, Copy, Debug, PartialEq, Eq, Hash, Structural)]
pub struct RequestId(pub u64);

impl RequestId {
    /// An identifier drawn at random.
    pub fn new() -> Self {
        RequestId(random_u64())
    }
}

/// Asks the other side to register a region of this layout.
#[derive(Clone, Copy, Debug, PartialEq, Eq, Structural)]
pub struct AllocMRRequest {
    pub size: usize,
    pub align: usize,
}

/// Names the region that was registered.
#[derive(Clone, Copy, Debug, PartialEq, Eq, Structural)]
pub struct AllocMRResponse {
    pub token: MemoryRegionToken,
}

/// Gives a token back, so that the other side may let go of the region.
#[derive(Clone, Copy, Debug, PartialEq, Eq, Structural)]
pub struct ReleaseMRRequest {
    pub token: MemoryRegionToken,
}

/// Confirms that the region was let go. The status is zero.
#[derive(Clone, Copy, Debug, PartialEq, Eq, Structural)]
pub struct ReleaseMRResponse {
    pub status: usize,
}

/// On whose side a region that is handed over is registered, seen from the
/// side that hands it over.
#[derive(Clone, Copy, Debug, PartialEq, Eq, Structural)]
pub enum SendMRKind {
    Local(MemoryRegionToken),
    Remote(MemoryRegionToken),
}

/// Hands a region over to the other side.
#[derive(Clone, Copy, Debug, PartialEq, Eq, Structural)]
pub struct SendMRRequest {
    pub kind: SendMRKind,
}

/// Confirms that the region was taken.
#[derive(Clone, Copy, Debug, PartialEq, Eq, Structural)]
pub struct SendMRResponse {}

/// What a request asks for. The last three kinds are set aside for later use.
#[derive(Clone, Copy, Debug, PartialEq, Eq, Structural)]
pub enum RequestKind {
    AllocMR(AllocMRRequest),
    ReleaseMR(ReleaseMRRequest),
    SendMR(SendMRRequest),
    ReceiveMR,
    SendData,
    ReceiveData,
}

/// A request.
#[derive(Clone, Copy, Debug, PartialEq, Eq, Structural)]
pub struct Request {
    pub request_id: RequestId,
    pub kind: RequestKind,
}

/// What a response answers. The last three kinds are set aside for later use.
#[derive(Clone, Copy, Debug, PartialEq, Eq, Structural)]
pub enum ResponseKind {
    AllocMR(AllocMRResponse),
    ReleaseMR(ReleaseMRResponse),
    SendMR(SendMRResponse),
    ReceiveMR,
    SendData,
    ReceiveData,
}

/// A response.
#[derive(Clone, Copy, Debug, PartialEq, Eq, Structural)]
pub struct Response {
    pub request_id: RequestId,
    pub kind: ResponseKind,
}

/// What travels on the control stream.
#[derive(Clone, Copy, Debug, PartialEq, Eq, Structural)]
pub enum Message {
    Request(Request),
    Response(Response),
}

/// How the other side broke the protocol.
#[derive(Clone, Copy, Debug, PartialEq, Eq, Structural)]
pub enum ProtocolError {
    /// It gave back a token that this side does not hold a region for.
    DoubleRelease(MemoryRegionToken),
    /// It handed back a region that this side does not hold.
    UnknownToken(MemoryRegionToken),
    /// It named a region that ends behind the address space.
    InvalidToken(MemoryRegionToken),
    /// It asked for something that is set aside for later use.
    Unsupported,
    /// It answered with another kind of response than the request asked for.
    UnexpectedResponse,
}

#[verifier::external_type_specification]
#[verifier::external_body]
#[verifier::reject_recursive_types(T)]
pub struct ExSender<T>(Sender<T>);

#[verifier::external_type_specification]
#[verifier::external_body]
#[verifier::reject_recursive_types(T)]
pub struct ExReceiver<T>(Receiver<T>);

/// What the receiving end yields once the sending end is gone. The agent
/// never looks at one; the receiving end's own interface names the type.
#[verifier::external_type_specification]
#[verifier::external_body]
pub struct ExRecvError(RecvError);

/// The end on which the listener hands a response to the one who waits for
/// it.
pub type ResponseSender = Sender<ResponseKind>;

/// The end on which the one who made a request waits for its response.
pub type ResponseReceiver = Receiver<ResponseKind>;

/// `tokio::sync::oneshot::channel`: the two ends of a new channel for one
/// response.
#[verifier::external_body]
fn response_channel() -> (ends: (ResponseSender, ResponseReceiver)) {
    channel()
}

/// `Sender::send` of tokio's oneshot channel: whether the response went into
/// the channel. It does not where the receiving end is gone, so nothing is
/// promised of the answer.
#[verifier::external_body]
fn answer(waiter: ResponseSender, kind: ResponseKind) -> (sent: bool) {
    waiter.send(kind).is_ok()
}

/// How many identifiers a request draws before it gives up.
pub const REQUEST_DRAWS: usize = 64;

/// What became of a response.
#[derive(Clone, Copy, Debug, PartialEq, Eq, Structural)]
pub enum Answered {
    /// It went to the one who waits for it.
    Delivered,
    /// Somebody made the request, but waits no more; the response was
    /// dropped.
    Abandoned,
    /// No request in flight has its identifier.
    Unknown,
}

/// A region that came in from the other side.
pub enum Received<M> {
    /// A region registered on the other side.
    Remote(RemoteMemoryRegion),
    /// A region registered on this side, which the other side hands back.
    Owned(M),
}

/// What a request asks this side to do.
pub enum Handled<M> {
    /// Register a region of this layout, then call `registered`.
    Register { request_id: RequestId, size: usize, align: usize },
    /// Put `deliver` into the queue of received regions, if there is one; let
    /// go of `released`, if there is one; then send `response`.
    Reply { response: Response, deliver: Option<Received<M>>, released: Option<M> },
    /// End the connection: the other side broke the protocol.
    Violation(ProtocolError),
}

/// What the listener did with a message.
pub enum Listened<M> {
    /// The message was a request, and this is what it asks for.
    Request(Handled<M>),
    /// The message was a response, and this is what became of it.
    Response(Answered),
}

/// The token names a region that ends inside the address space.
pub open spec fn valid_token(token: MemoryRegionToken) -> bool {
    token.addr + token.len <= usize::MAX
}

/// The regions held for the other side, after a region with this token was
/// registered for it or handed over to it.
pub open spec fn after_lending<M>(
    owned: Map<MemoryRegionToken, M>,
    token: MemoryRegionToken,
    mr: M,
) -> Map<MemoryRegionToken, M> {
    owned.insert(token, mr)
}

/// The regions held for the other side, after it gave this token back.
pub open spec fn after_release<M>(owned: Map<MemoryRegionToken, M>, token: MemoryRegionToken)
    -> Map<MemoryRegionToken, M> {
    owned.remove(token)
}

/// Whether `handled` is what `request` asks of a side that holds the regions
/// `owned`, and `after` the regions that it holds then.
pub open spec fn handled_as<M: Clone>(
    owned: Map<MemoryRegionToken, M>,
    request: Request,
    handled: Handled<M>,
    after: Map<MemoryRegionToken, M>,
) -> bool {
    match request.kind {
        RequestKind::AllocMR(layout) => {
            &&& handled matches Handled::Register { request_id, size, align }
            &&& request_id == request.request_id
            &&& size == layout.size
            &&& align == layout.align
            &&& after =~= owned
        },
        RequestKind::ReleaseMR(given_back) => if owned.contains_key(
            given_back.token,
        ) {
            &&& handled matches Handled::Reply { response, deliver, released }
            &&& response == (Response {
                request_id: request.request_id,
                kind: ResponseKind::ReleaseMR(ReleaseMRResponse { status: 0 }),
            })
            &&& deliver is None
            &&& released == Some(owned[given_back.token])
            &&& after =~= after_release(owned, given_back.token)
        } else {
            &&& handled matches Handled::Violation(e)
            &&& e == ProtocolError::DoubleRelease(given_back.token)
            &&& after =~= owned
        },
        RequestKind::SendMR(sent) => {
            &&& after =~= owned
            &&& match sent.kind {
                SendMRKind::Local(token) => if valid_token(token) {
                    &&& handled matches Handled::Reply { response, deliver, released }
                    &&& response == (Response {
                        request_id: request.request_id,
                        kind: ResponseKind::SendMR(SendMRResponse {  }),
                    })
                    &&& released is None
                    &&& deliver matches Some(Received::Remote(region))
                    &&& region.wf()
                    &&& region@ == remote_root(token, region@.tree_id)
                } else {
                    &&& handled matches Handled::Violation(e)
                    &&& e == ProtocolError::InvalidToken(token)
                },
                SendMRKind::Remote(token) => if owned.contains_key(token) {
                    &&& handled matches Handled::Reply { response, deliver, released }
                    &&& response == (Response {
                        request_id: request.request_id,
                        kind: ResponseKind::SendMR(SendMRResponse {  }),
                    })
                    &&& released is None
                    &&& deliver matches Some(Received::Owned(mr))
                    &&& cloned(owned[token], mr)
                } else {
                    &&& handled matches Handled::Violation(e)
                    &&& e == ProtocolError::UnknownToken(token)
                },
            }
        },
        _ => {
            &&& handled matches Handled::Violation(e)
            &&& e == ProtocolError::Unsupported
            &&& after =~= owned
        },
    }
}

/// Whether `after` is `before` with one more request in flight: `request`,
/// whose identifier was free.
pub open spec fn starts(
    before: Map<u64, ResponseSender>,
    request: Request,
    after: Map<u64, ResponseSender>,
) -> bool {
    &&& !before.contains_key(request.request_id.0)
    &&& after.contains_key(request.request_id.0)
    &&& after == before.insert(request.request_id.0, after[request.request_id.0])
}

/// What asks the other side to take the region named by `token`: as a region
/// of the sender where the sender hands over what keeps it registered, as a
/// region of the receiver otherwise.
pub open spec fn send_mr_request(token: MemoryRegionToken, local: bool) -> RequestKind {
    RequestKind::SendMR(
        SendMRRequest {
            kind: if local {
                SendMRKind::Local(token)
            } else {
                SendMRKind::Remote(token)
            },
        },
    )
}

/// One side's agent. `M` is whatever keeps a local region registered: the
/// agent holds one for every token that the other side has.
pub struct Agent<M> {
    response_waits: HashMap<u64, ResponseSender>,
    mr_own: TokenMap<M>,
}

impl<M> Agent<M> {
    /// For each request in flight, the end on which its response is handed
    /// over.
    pub closed spec fn waits(&self) -> Map<u64, ResponseSender> {
        self.response_waits@
    }

    /// The local regions that are held for the other side, by token.
    pub closed spec fn owned(&self) -> Map<MemoryRegionToken, M> {
        self.mr_own@
    }

    /// The agent is valid.
    pub closed spec fn wf(&self) -> bool {
        self.mr_own.wf()
    }

    /// No request is in flight.
    pub open spec fn idle(&self) -> bool {
        forall|id: u64| !self.waits().contains_key(id)
    }

    /// A valid agent holds finitely many regions.
    pub proof fn lemma_owned_finite(&self)
        requires
            self.wf(),
        ensures
            self.owned().dom().finite(),
    {
        self.mr_own.lemma_finite();
    }

    /// An agent without requests in flight that holds no regions.
    pub fn new() -> (agent: Self)
        ensures
            agent.wf(),
            agent.waits() == Map::<u64, ResponseSender>::empty(),
            agent.owned() == Map::<MemoryRegionToken, M>::empty(),
    {
        Agent { response_waits: HashMap::new(), mr_own: TokenMap::new() }
    }

    /// How many regions are held for the other side.
    pub fn owned_len(&self) -> (len: usize)
        requires
            self.wf(),
        ensures
            len == self.owned().dom().len(),
    {
        self.mr_own.len()
    }

    /// Whether a region is held under this token.
    pub fn is_owned(&self, token: MemoryRegionToken) -> (held: bool)
        requires
            self.wf(),
        ensures
            held == self.owned().contains_key(token),
    {
        self.mr_own.contains_key(token)
    }

    /// How many requests are in flight.
    pub fn waiting_len(&self) -> (len: usize)
        ensures
            len == self.waits().dom().len(),
    {
        self.response_waits.len()
    }

    /// Starts a request under the identifier `request_id`: returns the
    /// request to send and the end on which its response will arrive. Nothing
    /// is started, and nothing changes, if a request in flight has that
    /// identifier already.
    pub fn begin_request_as(&mut self, request_id: RequestId, kind: RequestKind) -> (started:
        Option<(Request, ResponseReceiver)>)
        requires
            old(self).wf(),
        ensures
            final(self).wf(),
            final(self).owned() == old(self).owned(),
            started.is_some() == !old(self).waits().contains_key(request_id.0),
            match started {
                Some((request, _)) => {
                    &&& request == (Request { request_id, kind })
                    &&& starts(old(self).waits(), request, final(self).waits())
                },
                None => final(self).waits() == old(self).waits(),
            },
    {
        if self.response_waits.contains_key(&request_id.0) {
            return None;
        }
        let (tx, rx) = response_channel();
        self.response_waits.insert(request_id.0, tx);
        Some((Request { request_id, kind }, rx))
    }

    /// Starts a request under an identifier drawn at random, drawing again
    /// while the identifier is in flight already, up to `REQUEST_DRAWS`
    /// times. Nothing is started, and nothing changes, if every draw was in
    /// flight. While no request is in flight the first draw is free, so the
    /// request is started whatever is drawn.
    pub fn begin_request(&mut self, kind: RequestKind) -> (started: Option<
        (Request, ResponseReceiver),
    >)
        requires
            old(self).wf(),
        ensures
            final(self).wf(),
            final(self).owned() == old(self).owned(),
            old(self).idle() ==> started is Some,
            match started {
                Some((request, _)) => {
                    &&& request.kind == kind
                    &&& starts(old(self).waits(), request, final(self).waits())
                },
                None => final(self).waits() == old(self).waits(),
            },
    {
        let mut draws: usize = 0;
        while draws < REQUEST_DRAWS
            invariant
                self.wf(),
                self.waits() == old(self).waits(),
                self.owned() == old(self).owned(),
                draws > 0 ==> !old(self).idle(),
            decreases REQUEST_DRAWS - draws,
        {
            let request_id = RequestId::new();
            let started = self.begin_request_as(request_id, kind);
            if started.is_some() {
                return started;
            }
            proof {
                assert(old(self).waits().contains_key(request_id.0));
            }
            draws += 1;
        }
        None
    }

    /// Starts the request that asks the other side to register a region of
    /// this layout. It is started whenever `begin_request` finds an
    /// identifier, which it does at least while no request is in flight.
    pub fn alloc_mr(&mut self, layout: Layout) -> (started: Option<(Request, ResponseReceiver)>)
        requires
            old(self).wf(),
        ensures
            final(self).wf(),
            final(self).owned() == old(self).owned(),
            old(self).idle() ==> started is Some,
            match started {
                Some((request, _)) => {
                    &&& request.kind == RequestKind::AllocMR(
                        AllocMRRequest { size: layout_size(layout), align: layout_align(layout) },
                    )
                    &&& starts(old(self).waits(), request, final(self).waits())
                },
                None => final(self).waits() == old(self).waits(),
            },
    {
        let kind = Self::alloc_mr_request(size_of_layout(&layout), align_of_layout(&layout));
        self.begin_request(kind)
    }

    /// What asks the other side to register a region of `size` bytes aligned
    /// to `align`.
    pub fn alloc_mr_request(size: usize, align: usize) -> (kind: RequestKind)
        ensures
            kind == RequestKind::AllocMR(AllocMRRequest { size, align }),
    {
        RequestKind::AllocMR(AllocMRRequest { size, align })
    }

    /// The remote region that the response to an alloc request names.
    pub fn allocated(response: ResponseKind) -> (result: Result<RemoteMemoryRegion, ProtocolError>)
        ensures
            match result {
                Ok(region) => {
                    &&& response matches ResponseKind::AllocMR(named)
                    &&& valid_token(named.token)
                    &&& region.wf()
                    &&& region@ == remote_root(named.token, region@.tree_id)
                },
                Err(e) => match response {
                    ResponseKind::AllocMR(named) => !valid_token(named.token) && e
                        == ProtocolError::InvalidToken(named.token),
                    _ => e == ProtocolError::UnexpectedResponse,
                },
            },
    {
        match response {
            ResponseKind::AllocMR(named) => {
                if named.token.len > usize::MAX - named.token.addr {
                    return Err(ProtocolError::InvalidToken(named.token));
                }
                Ok(MemoryRegion::new_from_token(named.token))
            },
            _ => Err(ProtocolError::UnexpectedResponse),
        }
    }

    /// Starts the request that gives a token back to the other side. It is
    /// started whenever `begin_request` finds an identifier, which it does at
    /// least while no request is in flight.
    pub fn release_mr(&mut self, token: MemoryRegionToken) -> (started: Option<
        (Request, ResponseReceiver),
    >)
        requires
            old(self).wf(),
        ensures
            final(self).wf(),
            final(self).owned() == old(self).owned(),
            old(self).idle() ==> started is Some,
            match started {
                Some((request, _)) => {
                    &&& request.kind == RequestKind::ReleaseMR(ReleaseMRRequest { token })
                    &&& starts(old(self).waits(), request, final(self).waits())
                },
                None => final(self).waits() == old(self).waits(),
            },
    {
        self.begin_request(RequestKind::ReleaseMR(ReleaseMRRequest { token }))
    }

    /// Starts the request that hands the region named by `token` over to the
    /// other side, under the identifier `request_id`. A region registered on
    /// this side comes with what keeps it registered, and is held from now
    /// on; a region registered on the other side comes with nothing. Nothing
    /// is started, and nothing changes, if a request in flight has that
    /// identifier already.
    pub fn send_mr_as(
        &mut self,
        request_id: RequestId,
        token: MemoryRegionToken,
        local: Option<M>,
    ) -> (started: Option<(Request, ResponseReceiver)>)
        requires
            old(self).wf(),
        ensures
            final(self).wf(),
            started.is_some() == !old(self).waits().contains_key(request_id.0),
            match started {
                Some((request, _)) => {
                    &&& request == (Request {
                        request_id,
                        kind: send_mr_request(token, local.is_some()),
                    })
                    &&& final(self).owned() == match local {
                        Some(mr) => after_lending(old(self).owned(), token, mr),
                        None => old(self).owned(),
                    }
                    &&& starts(old(self).waits(), request, final(self).waits())
                },
                None => final(self).waits() == old(self).waits() && final(self).owned() == old(
                    self,
                ).owned(),
            },
    {
        let started = self.begin_request_as(request_id, Self::send_mr_kind(token, local.is_some()));
        if started.is_some() {
            self.lend(token, local);
        }
        started
    }

    /// Starts the request that hands the region named by `token` over to the
    /// other side: `send_mr_as` under an identifier drawn at random. Where no
    /// request could be started, nothing changes. The request is started
    /// whenever `begin_request` finds an identifier, which it does at least
    /// while no request is in flight.
    pub fn send_mr(&mut self, token: MemoryRegionToken, local: Option<M>) -> (started: Option<
        (Request, ResponseReceiver),
    >)
        requires
            old(self).wf(),
        ensures
            final(self).wf(),
            old(self).idle() ==> started is Some,
            match started {
                Some((request, _)) => {
                    &&& request.kind == send_mr_request(token, local.is_some())
                    &&& final(self).owned() == match local {
                        Some(mr) => after_lending(old(self).owned(), token, mr),
                        None => old(self).owned(),
                    }
                    &&& starts(old(self).waits(), request, final(self).waits())
                },
                None => final(self).waits() == old(self).waits() && final(self).owned() == old(
                    self,
                ).owned(),
            },
    {
        let started = self.begin_request(Self::send_mr_kind(token, local.is_some()));
        if started.is_some() {
            self.lend(token, local);
        }
        started
    }

    /// What asks the other side to take the region named by `token`.
    pub fn send_mr_kind(token: MemoryRegionToken, local: bool) -> (kind: RequestKind)
        ensures
            kind == send_mr_request(token, local),
    {
        let kind = if local {
            SendMRKind::Local(token)
        } else {
            SendMRKind::Remote(token)
        };
        RequestKind::SendMR(SendMRRequest { kind })
    }

    /// Holds on to what keeps a region registered that is handed over, if
    /// anything came with it.
    fn lend(&mut self, token: MemoryRegionToken, local: Option<M>)
        requires
            old(self).wf(),
        ensures
            final(self).wf(),
            final(self).waits() == old(self).waits(),
            final(self).owned() == match local {
                Some(mr) => after_lending(old(self).owned(), token, mr),
                None => old(self).owned(),
            },
    {
        match local {
            Some(mr) => {
                self.mr_own.insert(token, mr);
            },
            None => {},
        }
    }

    /// Takes the request with this identifier out of flight and returns the
    /// end on which its response is handed over; nothing if there is none.
    pub fn take(&mut self, request_id: RequestId) -> (waiter: Option<ResponseSender>)
        requires
            old(self).wf(),
        ensures
            final(self).wf(),
            final(self).owned() == old(self).owned(),
            final(self).waits() == old(self).waits().remove(request_id.0),
            match waiter {
                Some(tx) => old(self).waits().contains_key(request_id.0) && tx == old(
                    self,
                ).waits()[request_id.0],
                None => !old(self).waits().contains_key(request_id.0),
            },
    {
        self.response_waits.remove(&request_id.0)
    }

    /// Brings a response to the one who waits for it. Its request is in
    /// flight no more, so a second response with the same identifier finds
    /// nobody.
    pub fn handle_response(&mut self, response: Response) -> (answered: Answered)
        requires
            old(self).wf(),
        ensures
            final(self).wf(),
            final(self).owned() == old(self).owned(),
            final(self).waits() == old(self).waits().remove(response.request_id.0),
            answered == Answered::Unknown <==> !old(self).waits().contains_key(
                response.request_id.0,
            ),
    {
        match self.take(response.request_id) {
            Some(waiter) => Self::answered(answer(waiter, response.kind)),
            None => Answered::Unknown,
        }
    }

    /// What became of a response, given whether its channel took it.
    pub fn answered(sent: bool) -> (answered: Answered)
        ensures
            answered == if sent {
                Answered::Delivered
            } else {
                Answered::Abandoned
            },
    {
        if sent {
            Answered::Delivered
        } else {
            Answered::Abandoned
        }
    }

    /// Takes note that the region which an alloc request asked for is
    /// registered: holds on to it under its token, and returns the response
    /// that names it.
    pub fn registered(
        &mut self,
        request_id: RequestId,
        token: MemoryRegionToken,
        mr: M,
    ) -> (response: Response)
        requires
            old(self).wf(),
        ensures
            final(self).wf(),
            final(self).waits() == old(self).waits(),
            final(self).owned() == after_lending(old(self).owned(), token, mr),
            response == (Response {
                request_id,
                kind: ResponseKind::AllocMR(AllocMRResponse { token }),
            }),
    {
        self.mr_own.insert(token, mr);
        Response { request_id, kind: ResponseKind::AllocMR(AllocMRResponse { token }) }
    }
}

impl<M: Clone> Agent<M> {
    /// Decides what a request from the other side asks this side to do.
    ///
    /// An alloc request asks the caller to register a region. A release
    /// request lets go of the region held under its token, and breaks the
    /// protocol if there is none. A region handed over that is registered on
    /// the other side comes in as a remote region; one that is registered on
    /// this side comes in as a clone of what is held under its token, and
    /// breaks the protocol if nothing is. The kinds set aside for later use
    /// break the protocol.
    pub fn handle_request(&mut self, request: Request) -> (handled: Handled<M>)
        requires
            old(self).wf(),
        ensures
            final(self).wf(),
            final(self).waits() == old(self).waits(),
            handled_as(old(self).owned(), request, handled, final(self).owned()),
    {
        match request.kind {
            RequestKind::AllocMR(layout) => Handled::Register {
                request_id: request.request_id,
                size: layout.size,
                align: layout.align,
            },
            RequestKind::ReleaseMR(given_back) => match self.mr_own.remove(given_back.token) {
                Some(mr) => Handled::Reply {
                    response: Response {
                        request_id: request.request_id,
                        kind: ResponseKind::ReleaseMR(ReleaseMRResponse { status: 0 }),
                    },
                    deliver: None,
                    released: Some(mr),
                },
                None => Handled::Violation(ProtocolError::DoubleRelease(given_back.token)),
            },
            RequestKind::SendMR(sent) => match sent.kind {
                SendMRKind::Local(token) => {
                    if token.len > usize::MAX - token.addr {
                        return Handled::Violation(ProtocolError::InvalidToken(token));
                    }
                    Handled::Reply {
                        response: Response {
                            request_id: request.request_id,
                            kind: ResponseKind::SendMR(SendMRResponse {  }),
                        },
                        deliver: Some(Received::Remote(MemoryRegion::new_from_token(token))),
                        released: None,
                    }
                },
                SendMRKind::Remote(token) => match self.mr_own.get(token) {
                    Some(mr) => Handled::Reply {
                        response: Response {
                            request_id: request.request_id,
                            kind: ResponseKind::SendMR(SendMRResponse {  }),
                        },
                        deliver: Some(Received::Owned(mr.clone())),
                        released: None,
                    },
                    None => Handled::Violation(ProtocolError::UnknownToken(token)),
                },
            },
            _ => Handled::Violation(ProtocolError::Unsupported),
        }
    }
}

impl<M: Clone> Agent<M> {
    /// What the listener does with one message from the control stream: a
    /// request is decided on, a response is brought to the one who waits for
    /// it.
    pub fn handle_message(&mut self, message: Message) -> (listened: Listened<M>)
        requires
            old(self).wf(),
        ensures
            final(self).wf(),
            match message {
                Message::Request(request) => {
                    &&& listened matches Listened::Request(handled)
                    &&& handled_as(old(self).owned(), request, handled, final(self).owned())
                    &&& final(self).waits() == old(self).waits()
                },
                Message::Response(response) => {
                    &&& listened matches Listened::Response(answered)
                    &&& answered == Answered::Unknown <==> !old(self).waits().contains_key(
                        response.request_id.0,
                    )
                    &&& final(self).waits() == old(self).waits().remove(response.request_id.0)
                    &&& final(self).owned() == old(self).owned()
                },
            },
    {
        match message {
            Message::Request(request) => Listened::Request(self.handle_request(request)),
            Message::Response(response) => Listened::Response(self.handle_response(response)),
        }
    }
}

/// Release symmetry: a region that is registered for the other side under a
/// token that was not held is held under that token, one more than before;
/// and once the other side gives the token back, the held regions are as they
/// were, and as many as they were. The request that gives the token back is
/// answered with the region to let go of, and a second one breaks the
/// protocol.
pub proof fn lemma_release_symmetry<M: Clone>(
    owned: Map<MemoryRegionToken, M>,
    token: MemoryRegionToken,
    mr: M,
    release: Request,
    handled: Handled<M>,
    after: Map<MemoryRegionToken, M>,
    again: Handled<M>,
    at_last: Map<MemoryRegionToken, M>,
)
    requires
        owned.dom().finite(),
        !owned.contains_key(token),
        release.kind == RequestKind::ReleaseMR(ReleaseMRRequest { token }),
        handled_as(after_lending(owned, token, mr), release, handled, after),
        handled_as(after, release, again, at_last),
    ensures
        after_lending(owned, token, mr).dom().len() == owned.dom().len() + 1,
        after_lending(owned, token, mr).contains_key(token),
        after_lending(owned, token, mr)[token] == mr,
        handled matches Handled::Reply { released, .. } && released == Some(mr),
        after == owned,
        after == after_release(after_lending(owned, token, mr), token),
        after.dom().len() == owned.dom().len(),
        again == Handled::<M>::Violation(ProtocolError::DoubleRelease(token)),
        at_last == owned,
{
    assert(owned.insert(token, mr).remove(token) =~= owned);
}

/// Handing one local region over twice: this side holds it once, under its
/// token; the other side, handling the two requests one after the other,
/// answers each and gets each time the remote root that the token names,
/// while the regions that it holds itself stay as they were.
pub proof fn lemma_send_twice<M, N: Clone>(
    owned: Map<MemoryRegionToken, M>,
    token: MemoryRegionToken,
    mr: M,
    held: Map<MemoryRegionToken, N>,
    first: Request,
    second: Request,
    handled_first: Handled<N>,
    between: Map<MemoryRegionToken, N>,
    handled_second: Handled<N>,
    after: Map<MemoryRegionToken, N>,
)
    requires
        owned.dom().finite(),
        valid_token(token),
        first.kind == send_mr_request(token, true),
        second.kind == send_mr_request(token, true),
        handled_as(held, first, handled_first, between),
        handled_as(between, second, handled_second, after),
    ensures
        after_lending(after_lending(owned, token, mr), token, mr) == after_lending(
            owned,
            token,
            mr,
        ),
        after_lending(after_lending(owned, token, mr), token, mr).dom().len() == after_lending(
            owned,
            token,
            mr,
        ).dom().len(),
        after_lending(owned, token, mr).contains_key(token),
        brings(handled_first, first.request_id, token),
        brings(handled_second, second.request_id, token),
        between == held,
        after == held,
{
    assert(owned.insert(token, mr).insert(token, mr) =~= owned.insert(token, mr));
}

/// Whether `handled` answers the request `request_id` that handed over a
/// region of the sender, and brings the remote root that `token` names.
pub open spec fn brings<N>(handled: Handled<N>, request_id: RequestId, token: MemoryRegionToken)
    -> bool {
    &&& handled matches Handled::Reply { response, deliver, released }
    &&& response == (Response { request_id, kind: ResponseKind::SendMR(SendMRResponse {  }) })
    &&& released is None
    &&& deliver matches Some(Received::Remote(region))
    &&& region.wf()
    &&& region@ == remote_root(token, region@.tree_id)
}

/// Two requests under different identifiers can be in flight together: the
/// second is started whenever its identifier was free before the first.
pub proof fn lemma_second_request(
    waits: Map<u64, ResponseSender>,
    first: Request,
    between: Map<u64, ResponseSender>,
    second: RequestId,
)
    requires
        starts(waits, first, between),
        !waits.contains_key(second.0),
        second != first.request_id,
    ensures
        !between.contains_key(second.0),
{
}

} // verus!
