//! Monitor mode: one producer reads lines, a bounded relay passes them on, and
//! a fixed pool of workers records what becomes of each.
//!
//! `producer_step` and `worker_step` are the decisions of the two roles. Each
//! maps what just happened to what the role does next, so the state of a role
//! is the action it is about to take. `Relay` is the bounded queue between
//! them.

use vstd::prelude::*;
use vstd::string::*;

verus! {

/// Slots of the relay between the producer and the workers.
pub const RELAY_CAPACITY: usize = 4;

/// Workers that take lines from the relay.
pub const WORKERS: usize = 4;

/// What just happened to the producer.
#[derive(Debug, PartialEq, Eq)]
pub enum ProducerEvent {
    /// The producer was started.
    Started,
    /// The input gave a line.
    Line(String),
    /// The input has ended.
    EndOfInput,
    /// The relay took the line.
    Pushed,
    /// The relay refused the line because every worker is gone.
    Refused,
}

/// What the producer does next.
#[derive(Debug, PartialEq, Eq)]
pub enum ProducerAction {
    /// Read the next line of the input.
    Read,
    /// Push this line into the relay, waiting while the relay is full.
    Push(String),
    /// Stop, which closes the relay.
    Stop,
}

/// What just happened to a worker.
#[derive(Debug, PartialEq, Eq)]
pub enum WorkerEvent {
    /// The worker was started.
    Started,
    /// The relay gave a line.
    Got(String),
    /// The relay is closed and empty.
    Drained,
    /// The outcome of the line was recorded.
    Recorded,
    /// The outcome of the line could not be recorded.
    Failed,
}

/// What a worker does next.
#[derive(Debug, PartialEq, Eq)]
pub enum WorkerAction {
    /// Take the next line from the relay, waiting while it is empty and open.
    Take,
    /// Run the command on this line and record the outcome.
    Run(String),
    /// Stop.
    Stop,
}

/// The producer's rule: read until the input ends, pushing every line, and
/// stop early only when the relay refuses a line.
pub open spec fn producer_rule(event: ProducerEvent) -> ProducerAction {
    match event {
        ProducerEvent::Started => ProducerAction::Read,
        ProducerEvent::Line(line) => ProducerAction::Push(line),
        ProducerEvent::EndOfInput => ProducerAction::Stop,
        ProducerEvent::Pushed => ProducerAction::Read,
        ProducerEvent::Refused => ProducerAction::Stop,
    }
}

/// The worker's rule: take lines until the relay is drained, running each. An
/// outcome that cannot be recorded costs the line it was about and nothing
/// more: the worker goes on with the next line.
pub open spec fn worker_rule(event: WorkerEvent) -> WorkerAction {
    match event {
        WorkerEvent::Started => WorkerAction::Take,
        WorkerEvent::Got(line) => WorkerAction::Run(line),
        WorkerEvent::Drained => WorkerAction::Stop,
        WorkerEvent::Recorded => WorkerAction::Take,
        WorkerEvent::Failed => WorkerAction::Take,
    }
}

/// What the producer does after `event`.
pub fn producer_step(event: ProducerEvent) -> (action: ProducerAction)
    ensures
        action == producer_rule(event),
{
    match event {
        ProducerEvent::Started => ProducerAction::Read,
        ProducerEvent::Line(line) => ProducerAction::Push(line),
        ProducerEvent::EndOfInput => ProducerAction::Stop,
        ProducerEvent::Pushed => ProducerAction::Read,
        ProducerEvent::Refused => ProducerAction::Stop,
    }
}

/// What a worker does after `event`.
pub fn worker_step(event: WorkerEvent) -> (action: WorkerAction)
    ensures
        action == worker_rule(event),
{
    match event {
        WorkerEvent::Started => WorkerAction::Take,
        WorkerEvent::Got(line) => WorkerAction::Run(line),
        WorkerEvent::Drained => WorkerAction::Stop,
        WorkerEvent::Recorded => WorkerAction::Take,
        WorkerEvent::Failed => WorkerAction::Take,
    }
}

/// A bounded first-in, first-out queue of lines.
#[derive(Debug)]
pub struct Relay {
    slots: Vec<String>,
    capacity: usize,
}

impl View for Relay {
    type V = Seq<Seq<char>>;

    /// The lines in the relay, oldest first.
    closed spec fn view(&self) -> Seq<Seq<char>> {
        self.slots.deep_view()
    }
}

impl Relay {
    /// The most lines the relay holds at once.
    pub closed spec fn limit(&self) -> nat {
        self.capacity as nat
    }

    /// The relay never holds more lines than its capacity.
    pub open spec fn wf(&self) -> bool {
        self@.len() <= self.limit()
    }

    /// An empty relay with room for `capacity` lines.
    pub fn new(capacity: usize) -> (relay: Relay)
        ensures
            relay.wf(),
            relay@ == Seq::<Seq<char>>::empty(),
            relay.limit() == capacity,
    {
        let slots: Vec<String> = Vec::new();
        assert(slots.deep_view() =~= Seq::<Seq<char>>::empty());
        Relay { slots, capacity }
    }

    /// How many lines the relay holds.
    pub fn len(&self) -> (n: usize)
        ensures
            n == self@.len(),
    {
        self.slots.len()
    }

    /// The most lines the relay holds at once.
    pub fn capacity(&self) -> (n: usize)
        ensures
            n == self.limit(),
    {
        self.capacity
    }

    /// Appends `line` where there is room. A full relay hands the line back
    /// and stays as it is: the producer has to wait.
    pub fn push(&mut self, line: String) -> (refused: Option<String>)
        requires
            old(self).wf(),
        ensures
            final(self).wf(),
            final(self).limit() == old(self).limit(),
            old(self)@.len() < old(self).limit() ==> refused is None && final(self)@ == old(
                self
            )@.push(line@),
            old(self)@.len() >= old(self).limit() ==> refused == Some(line) && final(self)@
                == old(self)@,
    {
        if self.slots.len() < self.capacity {
            let ghost before = self.slots.deep_view();
            self.slots.push(line);
            assert(self.slots.deep_view() =~= before.push(line@));
            None
        } else {
            Some(line)
        }
    }

    /// Removes the oldest line, if there is one.
    pub fn take(&mut self) -> (line: Option<String>)
        requires
            old(self).wf(),
        ensures
            final(self).wf(),
            final(self).limit() == old(self).limit(),
            old(self)@.len() == 0 ==> line is None && final(self)@ == old(self)@,
            old(self)@.len() > 0 ==> line is Some && line->0@ == old(self)@[0] && final(self)@
                == old(self)@.remove(0),
    {
        if self.slots.len() == 0 {
            None
        } else {
            let ghost before = self.slots.deep_view();
            let line = self.slots.remove(0);
            assert(self.slots.deep_view() =~= before.remove(0));
            assert(line@ == before[0]);
            Some(line)
        }
    }
}

} // verus!
