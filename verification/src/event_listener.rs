//! Who waits for which work request, and the loop that brings each work
//! completion to the one who waits for it.

use crate::completion_queue::{PollOutcome, WorkCompletion, WorkRequestId};
use std::collections::HashMap;
use tokio::sync::mpsc::{channel, Receiver, Sender};
use vstd::prelude::*;

verus! {

broadcast use vstd::std_specs::hash::group_hash_axioms;

#[verifier::external_type_specification]
#[verifier::external_body]
#[verifier::reject_recursive_types(T)]
pub struct ExSender<T>(Sender<T>);

#[verifier::external_type_specification]
#[verifier::external_body]
#[verifier::reject_recursive_types(T)]
pub struct ExReceiver<T>(Receiver<T>);

/// The sending end of the channel on which one work request waits for its
/// completion.
pub type Responder = Sender<WorkCompletion>;

/// The registry's contents while no work request is in flight.
pub open spec fn nobody() -> Map<u64, Responder> {
    Map::empty()
}

/// The largest number of completions that a channel can be made to hold.
pub const MAX_CHANNEL_BUFFER: usize = usize::MAX / 8;

/// `tokio::sync::mpsc::channel`: the two ends of a new channel that holds up
/// to `buffer` completions. It panics on a buffer of zero or of more than
/// `MAX_CHANNEL_BUFFER`, which the contract leaves out.
#[verifier::external_body]
fn completion_channel(buffer: usize) -> (ends: (Responder, Receiver<WorkCompletion>))
    requires
        0 < buffer <= MAX_CHANNEL_BUFFER,
{
    channel(buffer)
}

/// `Sender::try_send` of tokio's mpsc channel: whether the completion went
/// into the channel. It does not where the receiving end is gone or the
/// channel is full, so nothing is promised of the answer.
#[verifier::external_body]
fn try_send(waiter: &Responder, wc: WorkCompletion) -> (sent: bool) {
    waiter.try_send(wc).is_ok()
}

/// How many completions the channel of one work request can hold.
pub const WAITER_BUFFER: usize = 2;

/// How many identifiers `register` draws before it gives up.
pub const REGISTER_DRAWS: usize = 64;

/// What became of a work completion.
#[derive(Clone, Copy, Debug, PartialEq, Eq, Structural)]
pub enum Dispatch {
    /// It went to the one who waits for it.
    Delivered,
    /// Its work request was registered, but nobody takes the completion any
    /// more; it was dropped.
    Discarded,
    /// No work request was registered under its identifier; it was dropped.
    Unknown,
}

/// What the dispatcher does next.
#[derive(Clone, Copy, Debug, PartialEq, Eq, Structural)]
pub enum Phase {
    /// Arm the completion queue, for all completions.
    Arm,
    /// Wait until the queue's file descriptor is readable.
    Wait,
    /// Poll the queue for one completion.
    Drain,
}

/// What happened since the dispatcher was last asked.
#[derive(Clone, Copy, Debug, PartialEq, Eq, Structural)]
pub enum Event {
    /// The queue was armed.
    Armed,
    /// The queue's file descriptor became readable.
    Readable,
    /// The queue was polled for one completion.
    Polled(PollOutcome),
}

/// What one step of the dispatcher did.
#[derive(Clone, Copy, Debug, PartialEq, Eq, Structural)]
pub enum Step {
    /// The event was the one awaited, and no completion came with it.
    Advanced,
    /// A completion came and was dispatched.
    Dispatched(Dispatch),
    /// Polling failed. The dispatcher goes on polling.
    PollFailed,
    /// The event was not the one awaited. Nothing changed.
    Ignored,
}

/// The phase that follows `phase` on `event`.
pub open spec fn next_phase(phase: Phase, event: Event) -> Phase {
    match (phase, event) {
        (Phase::Arm, Event::Armed) => Phase::Wait,
        (Phase::Wait, Event::Readable) => Phase::Drain,
        (Phase::Drain, Event::Polled(PollOutcome::Empty)) => Phase::Arm,
        _ => phase,
    }
}

/// The registry of work requests in flight, with the dispatcher's phase.
pub struct EventListener {
    req_map: HashMap<u64, Responder>,
    phase: Phase,
}

impl EventListener {
    /// For each registered identifier, the sending end of its channel.
    pub closed spec fn waiters(&self) -> Map<u64, Responder> {
        self.req_map@
    }

    /// The identifiers of the work requests in flight. Being a set, it holds
    /// each of them once.
    pub open spec fn registered(&self) -> Set<u64> {
        self.waiters().dom()
    }

    /// No work request is in flight.
    pub open spec fn idle(&self) -> bool {
        forall|id: u64| !self.registered().contains(id)
    }

    /// What the dispatcher does next.
    pub closed spec fn phase_of(&self) -> Phase {
        self.phase
    }

    /// A registry without work requests, whose dispatcher has to arm the
    /// queue first.
    pub fn new() -> (listener: Self)
        ensures
            listener.waiters() == nobody(),
            listener.phase_of() == Phase::Arm,
    {
        EventListener { req_map: HashMap::new(), phase: Phase::Arm }
    }

    /// What the dispatcher does next.
    pub fn phase(&self) -> (phase: Phase)
        ensures
            phase == self.phase_of(),
    {
        self.phase
    }

    /// Registers a work request under `wr_id` and returns the receiving end
    /// of its channel, unless a work request in flight has that identifier
    /// already: then nothing changes.
    pub fn register_as(&mut self, wr_id: WorkRequestId) -> (receiver: Option<
        Receiver<WorkCompletion>,
    >)
        ensures
            receiver.is_some() == !old(self).registered().contains(wr_id.0),
            final(self).phase_of() == old(self).phase_of(),
            match receiver {
                Some(_) => final(self).registered().contains(wr_id.0) && final(self).waiters()
                    == old(self).waiters().insert(wr_id.0, final(self).waiters()[wr_id.0]),
                None => final(self).waiters() == old(self).waiters(),
            },
    {
        if self.req_map.contains_key(&wr_id.0) {
            return None;
        }
        let (tx, rx) = completion_channel(WAITER_BUFFER);
        self.req_map.insert(wr_id.0, tx);
        Some(rx)
    }

    /// Registers a work request under an identifier drawn at random, drawing
    /// again while the identifier is in flight already, up to
    /// `REGISTER_DRAWS` times. Returns the identifier and the receiving end
    /// of its channel; nothing, and changes nothing, if every draw was in
    /// flight. While no work request is in flight the first draw is free, so
    /// the registration succeeds whatever is drawn.
    pub fn register(&mut self) -> (registration: Option<(WorkRequestId, Receiver<WorkCompletion>)>)
        ensures
            final(self).phase_of() == old(self).phase_of(),
            old(self).idle() ==> registration is Some,
            match registration {
                Some((wr_id, _)) => {
                    &&& !old(self).registered().contains(wr_id.0)
                    &&& final(self).registered() == old(self).registered().insert(wr_id.0)
                    &&& final(self).waiters() == old(self).waiters().insert(
                        wr_id.0,
                        final(self).waiters()[wr_id.0],
                    )
                },
                None => final(self).waiters() == old(self).waiters(),
            },
    {
        let mut draws: usize = 0;
        while draws < REGISTER_DRAWS
            invariant
                self.waiters() == old(self).waiters(),
                self.phase_of() == old(self).phase_of(),
                draws > 0 ==> !old(self).idle(),
            decreases REGISTER_DRAWS - draws,
        {
            let wr_id = WorkRequestId::new();
            match self.register_as(wr_id) {
                Some(rx) => {
                    proof {
                        assert(self.registered() =~= old(self).registered().insert(wr_id.0));
                    }
                    return Some((wr_id, rx));
                },
                None => {
                    proof {
                        assert(old(self).registered().contains(wr_id.0));
                    }
                },
            }
            draws += 1;
        }
        None
    }

    /// Takes the work request with this identifier out of the registry and
    /// returns the sending end of its channel; nothing if there is none.
    pub fn take(&mut self, wr_id: WorkRequestId) -> (waiter: Option<Responder>)
        ensures
            waiter.is_some() == old(self).registered().contains(wr_id.0),
            waiter matches Some(tx) ==> tx == old(self).waiters()[wr_id.0],
            final(self).waiters() == old(self).waiters().remove(wr_id.0),
            final(self).phase_of() == old(self).phase_of(),
    {
        self.req_map.remove(&wr_id.0)
    }

    /// Brings a work completion to the one who waits for it. Its work request
    /// leaves the registry, so a second completion with the same identifier
    /// finds nobody.
    pub fn complete(&mut self, wc: WorkCompletion) -> (dispatch: Dispatch)
        ensures
            dispatch == Dispatch::Unknown <==> !old(self).registered().contains(wc.wr_id),
            final(self).waiters() == old(self).waiters().remove(wc.wr_id),
            final(self).phase_of() == old(self).phase_of(),
    {
        match self.take(wc.wr_id()) {
            Some(waiter) => Self::deliver(&waiter, wc),
            None => Dispatch::Unknown,
        }
    }

    /// Hands a work completion to the channel of its work request.
    pub fn deliver(waiter: &Responder, wc: WorkCompletion) -> (dispatch: Dispatch)
        ensures
            dispatch == Dispatch::Delivered || dispatch == Dispatch::Discarded,
    {
        Self::delivered(try_send(waiter, wc))
    }

    /// What became of a completion, given whether its channel took it.
    pub fn delivered(sent: bool) -> (dispatch: Dispatch)
        ensures
            dispatch == if sent {
                Dispatch::Delivered
            } else {
                Dispatch::Discarded
            },
    {
        if sent {
            Dispatch::Delivered
        } else {
            Dispatch::Discarded
        }
    }

    /// One step of the dispatcher: takes note of what happened and says what
    /// it did. A completion that was polled is dispatched; the caller then
    /// does what `phase` asks for and comes back with the event.
    pub fn step(&mut self, event: Event) -> (step: Step)
        ensures
            final(self).phase_of() == next_phase(old(self).phase_of(), event),
            match (old(self).phase_of(), event) {
                (Phase::Arm, Event::Armed) | (Phase::Wait, Event::Readable) | (
                    Phase::Drain,
                    Event::Polled(PollOutcome::Empty),
                ) => step == Step::Advanced && final(self).waiters() == old(self).waiters(),
                (Phase::Drain, Event::Polled(PollOutcome::Completion(wc))) => {
                    &&& step matches Step::Dispatched(dispatch)
                    &&& dispatch == Dispatch::Unknown <==> !old(self).registered().contains(
                        wc.wr_id,
                    )
                    &&& final(self).waiters() == old(self).waiters().remove(wc.wr_id)
                },
                (Phase::Drain, Event::Polled(PollOutcome::Error)) => step == Step::PollFailed
                    && final(self).waiters() == old(self).waiters(),
                _ => step == Step::Ignored && final(self).waiters() == old(self).waiters(),
            },
    {
        match (self.phase, event) {
            (Phase::Arm, Event::Armed) => {
                self.phase = Phase::Wait;
                Step::Advanced
            },
            (Phase::Wait, Event::Readable) => {
                self.phase = Phase::Drain;
                Step::Advanced
            },
            (Phase::Drain, Event::Polled(PollOutcome::Empty)) => {
                self.phase = Phase::Arm;
                Step::Advanced
            },
            (Phase::Drain, Event::Polled(PollOutcome::Completion(wc))) => {
                Step::Dispatched(self.complete(wc))
            },
            (Phase::Drain, Event::Polled(PollOutcome::Error)) => Step::PollFailed,
            _ => Step::Ignored,
        }
    }
}

} // verus!
