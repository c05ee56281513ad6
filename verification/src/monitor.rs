//! A whole monitoring session over a store held in memory.
//!
//! `Monitor` puts one producer, a relay and a pool of workers around a store
//! and lets the caller choose who moves next. Whatever the order of the
//! moves, no line is lost and none is recorded twice, the producer is never
//! more than the relay's capacity ahead, and the session ends after a number
//! of moves that the input and the pool fix.

use crate::batch::{records, Batch};
use crate::dispatch::{
    producer_rule, producer_step, worker_rule, worker_step, ProducerAction, ProducerEvent, Relay,
    WorkerAction, WorkerEvent,
};
use crate::executor::{ExecutorError, Output};
use crate::laws::{lemma_filter_add, lemma_filter_all, lemma_filter_disjoint};
use crate::rows::ResultRow;
use crate::store::{in_batch, Store, Tables};
use vstd::multiset::*;
use vstd::prelude::*;
use vstd::string::*;

verus! {

/// The line that the producer holds while it waits for room in the relay.
pub open spec fn pushing(producer: ProducerAction) -> Multiset<Seq<char>> {
    match producer {
        ProducerAction::Push(line) => Multiset::singleton(line@),
        _ => Multiset::empty(),
    }
}

/// The line that a worker is running.
pub open spec fn held(worker: WorkerAction) -> Multiset<Seq<char>> {
    match worker {
        WorkerAction::Run(line) => Multiset::singleton(line@),
        _ => Multiset::empty(),
    }
}

/// The lines that the workers are running.
pub open spec fn running(workers: Seq<WorkerAction>) -> Multiset<Seq<char>>
    decreases workers.len(),
{
    if workers.len() == 0 {
        Multiset::empty()
    } else {
        running(workers.drop_last()).add(held(workers.last()))
    }
}

/// The input records of result rows, in the order of the rows.
pub open spec fn inputs(rows: Seq<ResultRow>) -> Seq<Seq<char>> {
    rows.map_values(|row: ResultRow| row.input@)
}

/// An empty sequence holds nothing.
pub proof fn lemma_multiset_of_empty<A>()
    ensures
        Seq::<A>::empty().to_multiset() == Multiset::<A>::empty(),
{
    Seq::<A>::empty().to_multiset_ensures();
    lemma_multiset_empty_len(Seq::<A>::empty().to_multiset());
}

/// Appending a value adds it once.
pub proof fn lemma_multiset_of_push<A>(s: Seq<A>, a: A)
    ensures
        s.push(a).to_multiset() == s.to_multiset().insert(a),
{
    s.to_multiset_ensures();
}

/// A non-empty sequence holds its first value and what is behind it.
pub proof fn lemma_multiset_of_first<A>(s: Seq<A>)
    requires
        s.len() > 0,
    ensures
        s.to_multiset() == s.remove(0).to_multiset().insert(s[0]),
{
    s.to_multiset_ensures();
    assert(s.contains(s[0]));
    assert(s.remove(0).to_multiset() =~= s.to_multiset().remove(s[0]));
    assert(s.to_multiset() =~= s.to_multiset().remove(s[0]).insert(s[0]));
}

/// Giving one worker another action swaps the line it held for the line it
/// holds now, and touches no other worker's line.
pub proof fn lemma_running_update(workers: Seq<WorkerAction>, w: int, action: WorkerAction)
    requires
        0 <= w < workers.len(),
    ensures
        running(workers.update(w, action)).add(held(workers[w])) == running(workers).add(
            held(action),
        ),
    decreases workers.len(),
{
    let changed = workers.update(w, action);
    if w == workers.len() - 1 {
        assert(changed.drop_last() =~= workers.drop_last());
        assert(running(changed).add(held(workers[w])) =~= running(workers).add(held(action)));
    } else {
        lemma_running_update(workers.drop_last(), w, action);
        assert(changed.drop_last() =~= workers.drop_last().update(w, action));
        assert(changed.last() == workers.last());
        assert(running(changed).add(held(workers[w])) =~= running(
            workers.drop_last().update(w, action),
        ).add(held(workers[w])).add(held(workers.last())));
        assert(running(changed).add(held(workers[w])) =~= running(workers).add(held(action)));
    }
}

/// Workers of which none runs a line hold no line.
pub proof fn lemma_running_idle(workers: Seq<WorkerAction>)
    requires
        forall|w: int| 0 <= w < workers.len() ==> !(#[trigger] workers[w] is Run),
    ensures
        running(workers) == Multiset::<Seq<char>>::empty(),
    decreases workers.len(),
{
    if workers.len() > 0 {
        assert forall|w: int| 0 <= w < workers.drop_last().len() implies !(
        #[trigger] workers.drop_last()[w] is Run) by {
            assert(workers.drop_last()[w] == workers[w]);
        }
        lemma_running_idle(workers.drop_last());
        assert(!(workers[workers.len() - 1] is Run));
        assert(running(workers) =~= Multiset::<Seq<char>>::empty());
    }
}

/// How many workers have not stopped.
pub open spec fn alive(workers: Seq<WorkerAction>) -> nat
    decreases workers.len(),
{
    if workers.len() == 0 {
        0
    } else {
        alive(workers.drop_last()) + unstopped(workers.last())
    }
}

/// One for a worker that has not stopped, zero for one that has.
pub open spec fn unstopped(worker: WorkerAction) -> nat {
    if worker is Stop {
        0
    } else {
        1
    }
}

/// Giving one worker another action counts it anew and no other worker.
pub proof fn lemma_alive_update(workers: Seq<WorkerAction>, w: int, action: WorkerAction)
    requires
        0 <= w < workers.len(),
    ensures
        alive(workers.update(w, action)) + unstopped(workers[w]) == alive(workers) + unstopped(
            action,
        ),
    decreases workers.len(),
{
    let changed = workers.update(w, action);
    if w == workers.len() - 1 {
        assert(changed.drop_last() =~= workers.drop_last());
    } else {
        lemma_alive_update(workers.drop_last(), w, action);
        assert(changed.drop_last() =~= workers.drop_last().update(w, action));
        assert(changed.last() == workers.last());
    }
}

/// No worker is counted exactly when every worker has stopped.
pub proof fn lemma_alive_none(workers: Seq<WorkerAction>)
    ensures
        alive(workers) == 0 <==> forall|w: int|
            0 <= w < workers.len() ==> #[trigger] workers[w] is Stop,
    decreases workers.len(),
{
    if workers.len() > 0 {
        lemma_alive_none(workers.drop_last());
        if alive(workers) == 0 {
            assert forall|w: int| 0 <= w < workers.len() implies #[trigger] workers[w] is Stop by {
                if w < workers.len() - 1 {
                    assert(workers.drop_last()[w] == workers[w]);
                }
            }
        } else if forall|w: int| 0 <= w < workers.len() ==> #[trigger] workers[w] is Stop {
            assert forall|w: int| 0 <= w < workers.drop_last().len() implies (
            #[trigger] workers.drop_last()[w]) is Stop by {
                assert(workers.drop_last()[w] == workers[w]);
            }
            assert(workers[workers.len() - 1] is Stop);
        }
    }
}

/// Workers that were all just started are all alive and run nothing.
pub proof fn lemma_started(n: nat)
    ensures
        alive(Seq::new(n, |w: int| worker_rule(WorkerEvent::Started))) == n,
        running(Seq::new(n, |w: int| worker_rule(WorkerEvent::Started))) == Multiset::<
            Seq<char>,
        >::empty(),
    decreases n,
{
    let all = Seq::new(n, |w: int| worker_rule(WorkerEvent::Started));
    if n > 0 {
        lemma_started((n - 1) as nat);
        assert(all.drop_last() =~= Seq::new(
            (n - 1) as nat,
            |w: int| worker_rule(WorkerEvent::Started),
        ));
        assert(running(all) =~= Multiset::<Seq<char>>::empty());
    }
}

/// A monitoring session over a store held in memory: the input, the relay,
/// the producer, the workers, and the batch that the outcomes go to. The
/// caller decides who moves next, and so plays the scheduler. Waiting shows
/// as a move that is not made: a producer at a full relay and a worker at an
/// empty one stay as they are. The relay of a session never refuses a line,
/// because no worker stops before the producer has.
pub struct Monitor {
    batch: Batch,
    store: Store,
    relay: Relay,
    lines: Vec<String>,
    cursor: usize,
    producer: ProducerAction,
    workers: Vec<WorkerAction>,
    runs: usize,
    start: Ghost<Tables>,
}

impl Monitor {
    /// The identifier that the outcomes are recorded under.
    pub closed spec fn batch_id(&self) -> u64 {
        self.batch.id()
    }

    /// The tables as the session found them.
    pub closed spec fn start(&self) -> Tables {
        self.start@
    }

    /// The tables as they are.
    pub closed spec fn tables(&self) -> Tables {
        self.store@
    }

    /// Every line of the input, read or not.
    pub closed spec fn input(&self) -> Seq<Seq<char>> {
        self.lines.deep_view()
    }

    /// How many lines the producer has read.
    pub closed spec fn consumed(&self) -> nat {
        self.cursor as nat
    }

    /// The lines in the relay, oldest first.
    pub closed spec fn relayed(&self) -> Seq<Seq<char>> {
        self.relay@
    }

    /// The capacity of the relay.
    pub closed spec fn limit(&self) -> nat {
        self.relay.limit()
    }

    /// What the producer does next.
    pub closed spec fn producer(&self) -> ProducerAction {
        self.producer
    }

    /// What each worker does next.
    pub closed spec fn workers(&self) -> Seq<WorkerAction> {
        self.workers@
    }

    /// How many invocations the workers have finished.
    pub closed spec fn ran(&self) -> nat {
        self.runs as nat
    }

    /// The lines that the producer has read, in input order.
    pub open spec fn read(&self) -> Seq<Seq<char>> {
        self.input().take(self.consumed() as int)
    }

    /// The result rows written since the session began, in stored order.
    pub open spec fn recorded(&self) -> Seq<ResultRow> {
        self.tables().results.skip(self.start().results.len() as int)
    }

    /// The lines that were read and are not recorded yet: the one the
    /// producer holds, those in the relay, and those that workers run.
    pub open spec fn in_flight(&self) -> Multiset<Seq<char>> {
        pushing(self.producer()).add(self.relayed().to_multiset()).add(running(self.workers()))
    }

    /// What holds in every state of a session. The relay is within its
    /// capacity. The session has only appended to `RESULT`, only rows of its
    /// own batch, and one row for each invocation that a worker finished. The
    /// producer stops only at the end of the input, and no worker stops
    /// before the producer has stopped and the relay is empty. Every line
    /// read is recorded or in flight, once.
    pub open spec fn wf(&self) -> bool {
        &&& self.consumed() <= self.input().len()
        &&& self.ran() == self.recorded().len()
        &&& self.relayed().len() <= self.limit()
        &&& self.tables().batches == self.start().batches
        &&& self.tables().results == self.start().results + self.recorded()
        &&& self.start().results.len() <= self.tables().results.len()
        &&& forall|i: int|
            0 <= i < self.recorded().len() ==> (#[trigger] self.recorded()[i]).batch_id
                == self.batch_id()
        &&& self.producer() is Stop ==> self.consumed() == self.input().len()
        &&& !(self.producer() is Stop) ==> forall|w: int|
            0 <= w < self.workers().len() ==> !(#[trigger] self.workers()[w] is Stop)
        &&& self.relayed().len() > 0 ==> forall|w: int|
            0 <= w < self.workers().len() ==> !(#[trigger] self.workers()[w] is Stop)
        &&& self.read().to_multiset() == inputs(self.recorded()).to_multiset().add(
            self.in_flight(),
        )
    }

    /// How many moves are left until the session is done, whatever the order
    /// of the moves. A line that is still unread costs four: it is read,
    /// pushed, taken and recorded. The producer's stop and the stop of each
    /// worker cost one each.
    pub open spec fn remaining(&self) -> int {
        4 * (self.input().len() - self.consumed()) + (match self.producer() {
            ProducerAction::Read => 1int,
            ProducerAction::Push(_) => 4int,
            ProducerAction::Stop => 0int,
        }) + 2 * self.relayed().len() + running(self.workers()).len() + alive(self.workers())
    }

    /// Whether the producer can move: it is about to read, or it holds a line
    /// and the relay has room.
    pub open spec fn can_produce(&self) -> bool {
        self.producer() is Read || (self.producer() is Push && self.relayed().len()
            < self.limit())
    }

    /// Whether worker `w` can take: it is about to, and the relay holds a
    /// line or will never hold one again.
    pub open spec fn can_take(&self, w: int) -> bool {
        &&& 0 <= w < self.workers().len()
        &&& self.workers()[w] is Take
        &&& self.relayed().len() > 0 || self.producer() is Stop
    }

    /// Whether worker `w` can finish: it is running a line.
    pub open spec fn can_finish(&self, w: int) -> bool {
        0 <= w < self.workers().len() && self.workers()[w] is Run
    }

    /// What no step changes: the batch, the input, the relay's capacity, the
    /// number of workers, and the tables the session began with.
    pub open spec fn same_session(&self, other: &Monitor) -> bool {
        &&& self.batch_id() == other.batch_id()
        &&& self.input() == other.input()
        &&& self.limit() == other.limit()
        &&& self.workers().len() == other.workers().len()
        &&& self.start() == other.start()
    }

    /// Whether nothing is left to do: the producer has stopped, the relay is
    /// empty and every worker has stopped.
    pub open spec fn done(&self) -> bool {
        &&& self.producer() is Stop
        &&& self.relayed().len() == 0
        &&& forall|w: int| 0 <= w < self.workers().len() ==> #[trigger] self.workers()[w] is Stop
    }

    /// A session that is about to start: nothing is read, the relay is
    /// empty, and the producer and every worker take their first action.
    pub fn new(batch: Batch, store: Store, input: Vec<String>, capacity: usize, workers: usize) -> (
        monitor: Monitor
    )
        ensures
            monitor.wf(),
            monitor.batch_id() == batch.id(),
            monitor.start() == store@,
            monitor.tables() == store@,
            monitor.input() == input.deep_view(),
            monitor.consumed() == 0,
            monitor.ran() == 0,
            monitor.relayed() == Seq::<Seq<char>>::empty(),
            monitor.limit() == capacity,
            monitor.producer() == producer_rule(ProducerEvent::Started),
            monitor.workers() == Seq::new(
                workers as nat,
                |w: int| worker_rule(WorkerEvent::Started),
            ),
            monitor.remaining() == 4 * input.len() + 1 + workers,
    {
        let mut pool: Vec<WorkerAction> = Vec::new();
        let mut w: usize = 0;
        while w < workers
            invariant
                w <= workers,
                pool@ == Seq::new(w as nat, |k: int| worker_rule(WorkerEvent::Started)),
            decreases workers - w,
        {
            pool.push(worker_step(WorkerEvent::Started));
            w += 1;
            assert(pool@ =~= Seq::new(w as nat, |k: int| worker_rule(WorkerEvent::Started)));
        }
        let ghost start = store@;
        let monitor = Monitor {
            batch,
            store,
            relay: Relay::new(capacity),
            lines: input,
            cursor: 0,
            producer: producer_step(ProducerEvent::Started),
            workers: pool,
            runs: 0,
            start: Ghost(start),
        };
        proof {
            assert(monitor.recorded() =~= Seq::<ResultRow>::empty());
            assert(monitor.tables().results =~= monitor.start().results + monitor.recorded());
            assert(monitor.read() =~= Seq::<Seq<char>>::empty());
            assert(inputs(monitor.recorded()) =~= Seq::<Seq<char>>::empty());
            lemma_multiset_of_empty::<Seq<char>>();
            lemma_running_idle(monitor.workers());
            lemma_started(workers as nat);
            assert(monitor.relayed().len() == 0);
            assert(monitor.read().to_multiset() =~= inputs(monitor.recorded()).to_multiset().add(
                monitor.in_flight(),
            ));
        }
        monitor
    }

    /// What the producer does next.
    pub fn next_producer(&self) -> (action: &ProducerAction)
        ensures
            *action == self.producer(),
    {
        &self.producer
    }

    /// What worker `w` does next, if there is such a worker.
    pub fn next_worker(&self, w: usize) -> (action: Option<&WorkerAction>)
        ensures
            w < self.workers().len() ==> action == Some(&self.workers()[w as int]),
            w >= self.workers().len() ==> action is None,
    {
        if w < self.workers.len() {
            Some(&self.workers[w])
        } else {
            None
        }
    }

    /// How many invocations the workers have finished.
    pub fn runs(&self) -> (n: usize)
        ensures
            n == self.ran(),
    {
        self.runs
    }

    /// How many lines wait in the relay.
    pub fn relay_len(&self) -> (n: usize)
        ensures
            n == self.relayed().len(),
    {
        self.relay.len()
    }

    /// The store as the session has left it so far.
    pub fn store(&self) -> (store: &Store)
        ensures
            store@ == self.tables(),
    {
        &self.store
    }

    /// Ends the session and hands the store back.
    pub fn into_store(self) -> (store: Store)
        ensures
            store@ == self.tables(),
    {
        self.store
    }

    /// Whether nothing is left to do.
    pub fn is_done(&self) -> (done: bool)
        ensures
            done == self.done(),
    {
        match &self.producer {
            ProducerAction::Stop => {},
            _ => {
                return false;
            },
        }
        if self.relay.len() != 0 {
            return false;
        }
        let mut w: usize = 0;
        while w < self.workers.len()
            invariant
                w <= self.workers.len(),
                forall|k: int| 0 <= k < w ==> #[trigger] self.workers@[k] is Stop,
            decreases self.workers.len() - w,
        {
            match &self.workers[w] {
                WorkerAction::Stop => {},
                _ => {
                    return false;
                },
            }
            w += 1;
        }
        true
    }

    /// Lets the producer move. About to read, it reads the next line, or
    /// stops at the end of the input. Holding a line, it pushes the line if
    /// the relay has room; if the relay is full it waits, and nothing
    /// changes. The result says whether the producer moved.
    pub fn produce(&mut self) -> (moved: bool)
        requires
            old(self).wf(),
        ensures
            final(self).wf(),
            final(self).same_session(old(self)),
            final(self).tables() == old(self).tables(),
            final(self).workers() == old(self).workers(),
            final(self).ran() == old(self).ran(),
            moved == old(self).can_produce(),
            moved ==> final(self).remaining() == old(self).remaining() - 1,
            match old(self).producer() {
                ProducerAction::Read => {
                    &&& moved
                    &&& final(self).relayed() == old(self).relayed()
                    &&& if old(self).consumed() < old(self).input().len() {
                        &&& final(self).consumed() == old(self).consumed() + 1
                        &&& final(self).producer() matches ProducerAction::Push(line) && line@
                            == old(self).input()[old(self).consumed() as int]
                    } else {
                        &&& final(self).consumed() == old(self).consumed()
                        &&& final(self).producer() is Stop
                    }
                },
                ProducerAction::Push(line) => {
                    &&& final(self).consumed() == old(self).consumed()
                    &&& if old(self).relayed().len() < old(self).limit() {
                        &&& moved
                        &&& final(self).relayed() == old(self).relayed().push(line@)
                        &&& final(self).producer() is Read
                    } else {
                        &&& !moved
                        &&& final(self).relayed() == old(self).relayed()
                        &&& final(self).producer() == old(self).producer()
                    }
                },
                ProducerAction::Stop => {
                    &&& !moved
                    &&& final(self).consumed() == old(self).consumed()
                    &&& final(self).relayed() == old(self).relayed()
                    &&& final(self).producer() == old(self).producer()
                },
            },
    {
        let ghost before = *self;
        let mut pending = ProducerAction::Stop;
        core::mem::swap(&mut pending, &mut self.producer);
        match pending {
            ProducerAction::Read => {
                if self.cursor < self.lines.len() {
                    let line = self.lines[self.cursor].clone();
                    self.cursor = self.cursor + 1;
                    self.producer = producer_step(ProducerEvent::Line(line));
                    proof {
                        assert(self.read() =~= before.read().push(line@));
                        lemma_multiset_of_push(before.read(), line@);
                        assert(self.read().to_multiset() =~= inputs(
                            self.recorded(),
                        ).to_multiset().add(self.in_flight()));
                    }
                } else {
                    self.producer = producer_step(ProducerEvent::EndOfInput);
                    proof {
                        assert(self.read().to_multiset() =~= inputs(
                            self.recorded(),
                        ).to_multiset().add(self.in_flight()));
                    }
                }
                true
            },
            ProducerAction::Push(line) => {
                match self.relay.push(line) {
                    None => {
                        self.producer = producer_step(ProducerEvent::Pushed);
                        proof {
                            lemma_multiset_of_push(before.relayed(), line@);
                            assert(self.read().to_multiset() =~= inputs(
                                self.recorded(),
                            ).to_multiset().add(self.in_flight()));
                        }
                        true
                    },
                    Some(back) => {
                        self.producer = ProducerAction::Push(back);
                        false
                    },
                }
            },
            ProducerAction::Stop => {
                self.producer = ProducerAction::Stop;
                false
            },
        }
    }

    /// Lets worker `w` take from the relay. About to take, it gets the
    /// oldest line and will run it; with the relay empty it stops if the
    /// producer has stopped, and waits otherwise. A worker that is running a
    /// line or has stopped does not move, nor does one that does not exist.
    pub fn take(&mut self, w: usize) -> (moved: bool)
        requires
            old(self).wf(),
        ensures
            final(self).wf(),
            final(self).same_session(old(self)),
            final(self).tables() == old(self).tables(),
            final(self).consumed() == old(self).consumed(),
            final(self).producer() == old(self).producer(),
            final(self).ran() == old(self).ran(),
            moved == old(self).can_take(w as int),
            moved ==> final(self).remaining() == old(self).remaining() - 1,
            if w < old(self).workers().len() && old(self).workers()[w as int] is Take {
                if old(self).relayed().len() > 0 {
                    &&& moved
                    &&& final(self).relayed() == old(self).relayed().remove(0)
                    &&& final(self).workers()[w as int] matches WorkerAction::Run(line) && line@
                        == old(self).relayed()[0]
                    &&& forall|k: int|
                        0 <= k < old(self).workers().len() && k != w ==> final(self).workers()[k]
                            == old(self).workers()[k]
                } else if old(self).producer() is Stop {
                    &&& moved
                    &&& final(self).relayed() == old(self).relayed()
                    &&& final(self).workers() == old(self).workers().update(
                        w as int,
                        WorkerAction::Stop,
                    )
                } else {
                    &&& !moved
                    &&& final(self).relayed() == old(self).relayed()
                    &&& final(self).workers() == old(self).workers()
                }
            } else {
                &&& !moved
                &&& final(self).relayed() == old(self).relayed()
                &&& final(self).workers() == old(self).workers()
            },
    {
        let ghost before = *self;
        if w >= self.workers.len() {
            return false;
        }
        match &self.workers[w] {
            WorkerAction::Take => {},
            _ => {
                return false;
            },
        }
        match self.relay.take() {
            Some(line) => {
                self.workers.set(w, worker_step(WorkerEvent::Got(line)));
                proof {
                    lemma_alive_update(before.workers(), w as int, WorkerAction::Run(line));
                    lemma_running_update(before.workers(), w as int, WorkerAction::Run(line));
                    lemma_multiset_of_first(before.relayed());
                    assert(self.workers() =~= before.workers().update(
                        w as int,
                        WorkerAction::Run(line),
                    ));
                    assert(held(before.workers()[w as int]) =~= Multiset::<Seq<char>>::empty());
                    assert(running(self.workers()) =~= running(before.workers()).insert(line@));
                    assert(before.relayed().to_multiset() =~= self.relayed().to_multiset().insert(
                        line@,
                    ));
                    assert(self.in_flight() =~= before.in_flight());
                    assert(self.read().to_multiset() =~= inputs(
                        self.recorded(),
                    ).to_multiset().add(self.in_flight()));
                }
                true
            },
            None => {
                match &self.producer {
                    ProducerAction::Stop => {
                        self.workers.set(w, worker_step(WorkerEvent::Drained));
                        proof {
                            lemma_alive_update(before.workers(), w as int, WorkerAction::Stop);
                            lemma_running_update(before.workers(), w as int, WorkerAction::Stop);
                            assert(self.workers() =~= before.workers().update(
                                w as int,
                                WorkerAction::Stop,
                            ));
                            assert(held(before.workers()[w as int]) =~= Multiset::<
                                Seq<char>,
                            >::empty());
                            assert(held(WorkerAction::Stop) =~= Multiset::<Seq<char>>::empty());
                            assert(running(self.workers()).add(Multiset::empty()) =~= running(
                                self.workers(),
                            ));
                            assert(running(before.workers()).add(Multiset::empty()) =~= running(
                                before.workers(),
                            ));
                            assert(running(self.workers()) =~= running(before.workers()));
                            assert(self.in_flight() =~= before.in_flight());
                            assert(self.read().to_multiset() =~= inputs(
                                self.recorded(),
                            ).to_multiset().add(self.in_flight()));
                        }
                        true
                    },
                    _ => false,
                }
            },
        }
    }

    /// Lets worker `w` record the outcome of the line it is running: one
    /// result row is appended for this batch, and the worker will take
    /// again. A worker that is not running a line does not move, and
    /// nothing is recorded.
    pub fn finish(&mut self, w: usize, outcome: Result<Output, ExecutorError>) -> (moved: bool)
        requires
            old(self).wf(),
        ensures
            final(self).wf(),
            final(self).same_session(old(self)),
            final(self).consumed() == old(self).consumed(),
            final(self).producer() == old(self).producer(),
            final(self).relayed() == old(self).relayed(),
            final(self).tables().batches == old(self).tables().batches,
            moved == old(self).can_finish(w as int),
            moved ==> final(self).remaining() == old(self).remaining() - 1,
            if w < old(self).workers().len() && old(self).workers()[w as int] is Run {
                &&& moved
                &&& final(self).ran() == old(self).ran() + 1
                &&& final(self).workers() == old(self).workers().update(
                    w as int,
                    WorkerAction::Take,
                )
                &&& final(self).tables().results.len() == old(self).tables().results.len() + 1
                &&& final(self).tables().results.drop_last() == old(self).tables().results
                &&& records(
                    final(self).tables().results.last(),
                    old(self).batch_id(),
                    old(self).workers()[w as int]->Run_0@,
                    outcome,
                )
            } else {
                &&& !moved
                &&& final(self).ran() == old(self).ran()
                &&& final(self).tables() == old(self).tables()
                &&& final(self).workers() == old(self).workers()
            },
    {
        let ghost before = *self;
        if w >= self.workers.len() {
            return false;
        }
        let line = match &self.workers[w] {
            WorkerAction::Run(line) => line.clone(),
            _ => {
                return false;
            },
        };
        let statement = self.batch.run(line, outcome);
        let ghost row = statement->InsertResult_0;
        let answer = self.store.execute(statement);
        let event = match answer {
            Ok(_) => WorkerEvent::Recorded,
            Err(_) => WorkerEvent::Failed,
        };
        self.workers.set(w, worker_step(event));
        let total = self.store.results().len();
        proof {
            assert(self.tables().results == before.tables().results.push(row));
            assert(self.recorded() =~= before.recorded().push(row));
            assert(before.ran() + 1 == self.recorded().len() <= total);
        }
        self.runs = self.runs + 1;
        proof {
            assert(self.tables().results == before.tables().results.push(row));
            assert(self.tables().results.drop_last() =~= before.tables().results);
            assert(self.recorded() =~= before.recorded().push(row));
            assert(self.tables().results =~= self.start().results + self.recorded());
            assert(inputs(self.recorded()) =~= inputs(before.recorded()).push(line@));
            lemma_multiset_of_push(inputs(before.recorded()), line@);
            lemma_alive_update(before.workers(), w as int, WorkerAction::Take);
            lemma_running_update(before.workers(), w as int, WorkerAction::Take);
            assert(self.workers() =~= before.workers().update(w as int, WorkerAction::Take));
            assert(held(before.workers()[w as int]) =~= Multiset::singleton(line@));
            assert(running(before.workers()) =~= running(self.workers()).insert(line@));
            assert(before.in_flight() =~= self.in_flight().insert(line@));
            assert(inputs(self.recorded()).to_multiset() =~= inputs(
                before.recorded(),
            ).to_multiset().insert(line@));
            assert(self.read().to_multiset() =~= inputs(self.recorded()).to_multiset().add(
                self.in_flight(),
            ));
        }
        true
    }
}

/// When a session is done, every line of the input has been recorded once:
/// the recorded inputs are the input lines, in some order, and the batch has
/// one row more for each.
pub proof fn lemma_all_recorded(monitor: &Monitor)
    requires
        monitor.wf(),
        monitor.done(),
    ensures
        inputs(monitor.recorded()).to_multiset() == monitor.input().to_multiset(),
        monitor.recorded().len() == monitor.input().len(),
        monitor.ran() == monitor.input().len(),
{
    assert(monitor.read() =~= monitor.input());
    assert forall|w: int| 0 <= w < monitor.workers().len() implies !(
    #[trigger] monitor.workers()[w] is Run) by {
        assert(monitor.workers()[w] is Stop);
    }
    lemma_running_idle(monitor.workers());
    assert(monitor.relayed() =~= Seq::<Seq<char>>::empty());
    lemma_multiset_of_empty::<Seq<char>>();
    assert(monitor.in_flight() =~= Multiset::<Seq<char>>::empty());
    assert(inputs(monitor.recorded()).to_multiset() =~= monitor.input().to_multiset());
    inputs(monitor.recorded()).to_multiset_ensures();
    monitor.input().to_multiset_ensures();
}

/// A session that is not done can go on, given a worker and a slot in the
/// relay: the producer can move, or some worker can take or finish.
pub proof fn lemma_progress(monitor: &Monitor)
    requires
        monitor.wf(),
        !monitor.done(),
        monitor.workers().len() > 0,
        monitor.limit() > 0,
    ensures
        monitor.can_produce() || exists|w: int|
            #[trigger] monitor.can_take(w) || monitor.can_finish(w),
{
    if !monitor.can_produce() {
        if monitor.producer() is Push {
            assert(monitor.relayed().len() > 0);
            assert(!(monitor.workers()[0] is Stop));
            assert(monitor.can_take(0) || monitor.can_finish(0));
        } else {
            if monitor.relayed().len() > 0 {
                assert(!(monitor.workers()[0] is Stop));
                assert(monitor.can_take(0) || monitor.can_finish(0));
            } else {
                let w = choose|w: int|
                    0 <= w < monitor.workers().len() && !(#[trigger] monitor.workers()[w] is Stop);
                assert(monitor.can_take(w) || monitor.can_finish(w));
            }
        }
    }
}

/// A session is done exactly when no move is left. Every move takes one off
/// what is left, so a session over `n` lines with `k` workers is done after
/// `4 * n + k + 1` moves, in whatever order they are made.
pub proof fn lemma_done(monitor: &Monitor)
    requires
        monitor.wf(),
    ensures
        monitor.remaining() >= 0,
        monitor.done() <==> monitor.remaining() == 0,
{
    lemma_alive_none(monitor.workers());
    if monitor.done() {
        assert forall|w: int| 0 <= w < monitor.workers().len() implies !(
        #[trigger] monitor.workers()[w] is Run) by {
            assert(monitor.workers()[w] is Stop);
        }
        lemma_running_idle(monitor.workers());
    }
}

/// A session leaves in the store one row of its batch for each invocation
/// that its workers finished, behind the rows that the batch had before and
/// in the order in which the invocations finished. It leaves the rows of
/// every other batch as they were.
pub proof fn lemma_session_rows(monitor: &Monitor, other: u64)
    requires
        monitor.wf(),
        other != monitor.batch_id(),
    ensures
        monitor.tables().results_of(monitor.batch_id()) == monitor.start().results_of(
            monitor.batch_id(),
        ) + monitor.recorded(),
        monitor.tables().results_of(monitor.batch_id()).len() == monitor.start().results_of(
            monitor.batch_id(),
        ).len() + monitor.ran(),
        monitor.tables().results_of(other) == monitor.start().results_of(other),
{
    let id = monitor.batch_id();
    let rows = monitor.recorded();
    lemma_filter_add(monitor.start().results, rows, in_batch(id));
    lemma_filter_add(monitor.start().results, rows, in_batch(other));
    lemma_filter_all(rows, in_batch(id));
    lemma_filter_disjoint(rows, in_batch(id), in_batch(other));
    assert(rows.filter(in_batch(other)) =~= Seq::<ResultRow>::empty());
    assert(monitor.start().results_of(other) + Seq::<ResultRow>::empty()
        =~= monitor.start().results_of(other));
}

/// The producer never runs ahead of the workers by more than the relay
/// holds, plus the one line it waits to push: every line read is recorded,
/// run by a worker, in the relay, or in the producer's hand, and the relay is
/// never over its capacity.
pub proof fn lemma_backpressure(monitor: &Monitor)
    requires
        monitor.wf(),
    ensures
        monitor.relayed().len() <= monitor.limit(),
        pushing(monitor.producer()).len() <= 1,
        monitor.consumed() == monitor.recorded().len() + running(monitor.workers()).len()
            + monitor.relayed().len() + pushing(monitor.producer()).len(),
{
    monitor.read().to_multiset_ensures();
    inputs(monitor.recorded()).to_multiset_ensures();
    monitor.relayed().to_multiset_ensures();
    assert(monitor.read().len() == monitor.consumed());
}

} // verus!
