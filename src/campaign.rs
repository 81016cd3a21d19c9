use vstd::prelude::*;

use crate::corpus::{inserted, CorpusStore, TestCase};
use crate::coverage::{merged, novel, SeenMap};
use crate::feedback::{classify, fault_key, reported, CrashRecord, CrashStore, Outcome};
use crate::mutator::{mutate, mutate_spec};
use crate::scheduler::Scheduler;

verus! {

/// Setup-class failures: the campaign does not start.
#[derive(Clone, Copy, PartialEq, Eq, Structural, Debug)]
pub enum SetupError {
    EmptySeedCorpus,
    MapSizeMismatch,
    TracePercentOutOfRange,
}

/// Settings fixed for the whole campaign and shared by every worker.
pub struct CampaignConfig {
    pub map_size: usize,
    pub timeout_ms: u64,
    /// Percentage of accepted inputs that get the comparison-tracing pass.
    pub trace_percent: u64,
}

/// Validates a worker's view of the campaign before the loop starts.
pub fn check_setup(config: &CampaignConfig, worker_map_size: usize, seed_count: usize) -> (r: Result<
    (),
    SetupError,
>)
    ensures
        r == if seed_count == 0 {
            Err(SetupError::EmptySeedCorpus)
        } else if worker_map_size != config.map_size {
            Err(SetupError::MapSizeMismatch)
        } else if config.trace_percent > 100 {
            Err(SetupError::TracePercentOutOfRange)
        } else {
            Ok::<(), SetupError>(())
        },
{
    if seed_count == 0 {
        Err(SetupError::EmptySeedCorpus)
    } else if worker_map_size != config.map_size {
        Err(SetupError::MapSizeMismatch)
    } else if config.trace_percent > 100 {
        Err(SetupError::TracePercentOutOfRange)
    } else {
        Ok(())
    }
}

/// What a worker process knows of itself; rebuilt on every restart.
#[derive(Clone, Copy, PartialEq, Eq, Structural, Debug)]
pub struct WorkerState {
    pub id: u32,
    pub generation: u64,
    pub restarts: u64,
}

impl WorkerState {
    pub fn new(id: u32, generation: u64) -> (r: WorkerState)
        ensures
            r == (WorkerState { id, generation, restarts: 0 }),
    {
        WorkerState { id, generation, restarts: 0 }
    }

    /// The state a replacement worker starts with after this one died.
    pub fn relaunched(&self) -> (r: WorkerState)
        ensures
            r.id == self.id,
            r.generation == self.generation,
            r.restarts == if self.restarts == u64::MAX {
                u64::MAX
            } else {
                (self.restarts + 1) as u64
            },
    {
        WorkerState {
            id: self.id,
            generation: self.generation,
            restarts: if self.restarts == u64::MAX {
                u64::MAX
            } else {
                self.restarts + 1
            },
        }
    }
}

/// Whether a worker last heard from at `last_seen` has gone silent for longer
/// than `interval` at time `now`.
pub fn heartbeat_missed(last_seen: u64, now: u64, interval: u64) -> (r: bool)
    ensures
        r == (now > last_seen && now - last_seen > interval),
{
    now > last_seen && now - last_seen > interval
}

/// Per-worker restart bookkeeping of the campaign manager.
pub struct Manager {
    pub workers: Vec<WorkerState>,
    pub stopping: bool,
}

impl Manager {
    /// A manager for `count` workers with ids `0..count`.
    pub fn new(count: u32) -> (r: Manager)
        ensures
            !r.stopping,
            r.workers@.len() == count,
            forall|i: int| 0 <= i < count ==> #[trigger] r.workers@[i] == (WorkerState {
                id: i as u32,
                generation: 0,
                restarts: 0,
            }),
    {
        let mut workers: Vec<WorkerState> = Vec::new();
        let mut i: u32 = 0;
        while i < count
            invariant
                i <= count,
                workers@.len() == i,
                forall|k: int| 0 <= k < i ==> #[trigger] workers@[k] == (WorkerState {
                    id: k as u32,
                    generation: 0,
                    restarts: 0,
                }),
            decreases count - i,
        {
            workers.push(WorkerState::new(i, 0));
            i = i + 1;
        }
        Manager { workers, stopping: false }
    }

    /// An external stop signal: no worker is relaunched afterwards.
    pub fn request_stop(&mut self)
        ensures
            final(self).stopping,
            final(self).workers@ == old(self).workers@,
    {
        self.stopping = true;
    }

    /// Handles the exit of worker `id`: returns the state to relaunch it with,
    /// or `None` when the campaign is stopping or the id is unknown.
    pub fn on_worker_exit(&mut self, id: usize) -> (r: Option<WorkerState>)
        ensures
            final(self).stopping == old(self).stopping,
            final(self).workers@.len() == old(self).workers@.len(),
            match r {
                None => (old(self).stopping || id >= old(self).workers@.len())
                    && final(self).workers@ == old(self).workers@,
                Some(w) => {
                    let prev = old(self).workers@[id as int];
                    &&& !old(self).stopping
                    &&& id < old(self).workers@.len()
                    &&& w.id == prev.id
                    &&& w.generation == prev.generation
                    &&& w.restarts == if prev.restarts == u64::MAX {
                        u64::MAX
                    } else {
                        (prev.restarts + 1) as u64
                    }
                    &&& final(self).workers@ == old(self).workers@.update(id as int, w)
                },
            },
    {
        if self.stopping || id >= self.workers.len() {
            return None;
        }
        let w = self.workers[id].relaunched();
        self.workers.set(id, w);
        Some(w)
    }
}

/// Messages on the cross-process bus.
pub enum EventMessage {
    NewCoverage(TestCase),
    NewCrash(CrashRecord),
    Stats { executions: u64 },
    Heartbeat { worker: u32 },
}

/// A bounded first-in first-out channel. A full bus hands the message back to
/// the producer, which retries: messages are never dropped.
pub struct EventBus {
    pub queue: Vec<EventMessage>,
    pub capacity: usize,
}

impl EventBus {
    pub fn new(capacity: usize) -> (r: EventBus)
        ensures
            r.queue@.len() == 0,
            r.capacity == capacity,
    {
        EventBus { queue: Vec::new(), capacity }
    }

    /// Enqueues `msg`, or returns it unchanged when the bus is full.
    pub fn push(&mut self, msg: EventMessage) -> (r: Result<(), EventMessage>)
        ensures
            final(self).capacity == old(self).capacity,
            old(self).queue@.len() < old(self).capacity ==> r is Ok && final(self).queue@ == old(self).queue@.push(msg),
            old(self).queue@.len() >= old(self).capacity ==> r == Err::<(), EventMessage>(msg)
                && final(self).queue@ == old(self).queue@,
    {
        if self.queue.len() < self.capacity {
            self.queue.push(msg);
            Ok(())
        } else {
            Err(msg)
        }
    }

    /// Dequeues the oldest message.
    pub fn pop(&mut self) -> (r: Option<EventMessage>)
        ensures
            final(self).capacity == old(self).capacity,
            old(self).queue@.len() == 0 ==> r is None && final(self).queue@ == old(self).queue@,
            old(self).queue@.len() > 0 ==> r == Some(old(self).queue@[0]) && final(self).queue@
                == old(self).queue@.subrange(1, old(self).queue@.len() as int),
    {
        if self.queue.len() == 0 {
            None
        } else {
            Some(self.queue.remove(0))
        }
    }
}

/// The long-lived owner of the campaign's knowledge: the seen-map, the corpus
/// and the crash records. Workers propose; the broker commits.
pub struct Broker {
    pub seen: SeenMap,
    pub corpus: CorpusStore,
    pub crashes: CrashStore,
    pub executions: u64,
}

impl Broker {
    pub open spec fn wf(&self) -> bool {
        self.corpus.wf() && self.crashes.wf()
    }

    pub fn new(map_size: usize) -> (r: Broker)
        ensures
            r.wf(),
            r.seen@ == Seq::new(map_size as nat, |i: int| 0u8),
            r.corpus@.len() == 0,
            r.crashes.keys().len() == 0,
            r.executions == 0,
    {
        Broker {
            seen: SeenMap::new(map_size),
            corpus: CorpusStore::new(),
            crashes: CrashStore::new(),
            executions: 0,
        }
    }

    /// Commits one message. New coverage is kept only if it is novel against
    /// the seen-map, which then absorbs it; a coverage snapshot of the wrong
    /// size is a configuration error and changes nothing. Returns whether
    /// durable state (corpus or crash records) changed.
    pub fn handle(&mut self, msg: EventMessage) -> (r: Result<bool, SetupError>)
        requires
            old(self).wf(),
        ensures
            final(self).wf(),
            forall|i: int|
                0 <= i < old(self).seen@.len() ==> #[trigger] final(self).seen@[i] >= old(self).seen@[i],
            final(self).seen@.len() == old(self).seen@.len(),
            match msg {
                EventMessage::NewCoverage(t) => if t.coverage@.len() != old(self).seen@.len() {
                    r == Err::<bool, SetupError>(SetupError::MapSizeMismatch) && final(self).seen@
                        == old(self).seen@ && final(self).corpus@ == old(self).corpus@
                } else if novel(old(self).seen@, t.coverage@) {
                    r == Ok::<bool, SetupError>(true) && final(self).seen@ == merged(
                        old(self).seen@,
                        t.coverage@,
                    ) && final(self).corpus@ == inserted(old(self).corpus@, t@).0
                } else {
                    r == Ok::<bool, SetupError>(false) && final(self).seen@ == old(self).seen@
                        && final(self).corpus@ == old(self).corpus@
                },
                EventMessage::NewCrash(c) => r == Ok::<bool, SetupError>(
                    !old(self).crashes.keys().contains(c.key),
                ) && final(self).crashes.keys() == reported(old(self).crashes.keys(), c.key)
                    && final(self).seen@ == old(self).seen@ && final(self).corpus@ == old(self).corpus@,
                EventMessage::Stats { executions } => r == Ok::<bool, SetupError>(false)
                    && final(self).executions == if old(self).executions + executions
                    > u64::MAX {
                    u64::MAX
                } else {
                    (old(self).executions + executions) as u64
                } && final(self).seen@ == old(self).seen@ && final(self).corpus@ == old(self).corpus@,
                EventMessage::Heartbeat { .. } => r == Ok::<bool, SetupError>(false) && final(self).seen@ == old(self).seen@ && final(self).corpus@ == old(self).corpus@,
            },
    {
        match msg {
            EventMessage::NewCoverage(t) => {
                if t.coverage.len() != self.seen.len() {
                    return Err(SetupError::MapSizeMismatch);
                }
                if self.seen.is_novel(&t.coverage) {
                    self.seen.merge(&t.coverage);
                    self.corpus.insert(t);
                    Ok(true)
                } else {
                    Ok(false)
                }
            },
            EventMessage::NewCrash(c) => Ok(self.crashes.report(c)),
            EventMessage::Stats { executions } => {
                self.executions = self.executions.saturating_add(executions);
                Ok(false)
            },
            EventMessage::Heartbeat { .. } => Ok(false),
        }
    }
}

/// One worker proposal: the parent chosen by the scheduler and the child
/// mutated from it under `seed`. `None` only for an empty corpus.
pub fn propose(corpus: &CorpusStore, scheduler: &mut Scheduler, seed: u64) -> (r: Option<
    (usize, Vec<u8>),
>)
    ensures
        r is None <==> corpus@.len() == 0,
        match r {
            None => true,
            Some((id, child)) => id < corpus@.len() && child@ == mutate_spec(
                corpus@[id as int].bytes,
                seed,
            ),
        },
{
    match scheduler.next(corpus) {
        None => None,
        Some(id) => {
            assert(corpus@[id as int] == corpus.entries@[id as int]@);
            let child = mutate(&corpus.entries[id].bytes, seed);
            Some((id, child))
        },
    }
}

/// What a worker reports after running `child`: a crash record for a fault,
/// a new corpus candidate for novel coverage, nothing otherwise. A coverage
/// snapshot of the wrong size is never reported.
pub fn evaluate(
    seen: &SeenMap,
    outcome: Outcome,
    child: Vec<u8>,
    exec_time: u64,
    generation: u64,
    worker: u32,
) -> (r: Option<EventMessage>)
    ensures
        fault_key(outcome) is Some ==> (r matches Some(EventMessage::NewCrash(c)) && Some(c.key)
            == fault_key(outcome) && c.input@ == child@ && c.worker == worker),
        fault_key(outcome) is None ==> match outcome {
            Outcome::Normal { coverage } => if coverage@.len() == seen@.len() && novel(
                seen@,
                coverage@,
            ) {
                r matches Some(EventMessage::NewCoverage(t)) && t@.bytes == child@
                    && t@.coverage == coverage@ && t@.exec_time == exec_time && t@.generation
                    == generation && !t@.favored
            } else {
                r is None
            },
            _ => true,
        },
{
    match classify(&outcome, &child, worker) {
        Some(c) => Some(EventMessage::NewCrash(c)),
        None => match outcome {
            Outcome::Normal { coverage } => {
                if coverage.len() == seen.len() && seen.is_novel(&coverage) {
                    Some(EventMessage::NewCoverage(TestCase::new(child, coverage, exec_time, generation)))
                } else {
                    None
                }
            },
            _ => None,
        },
    }
}

} // verus!
