//! The simulation kernel: the owner of the processes, the event queue, the
//! clock and the random source.
//!
//! The kernel decides; it runs no application code. Each call of `step`
//! takes the next event from the queue and says what is to be done with it.
//! The caller invokes the operation or the application's hook and hands the
//! outcome back through the scheduling functions.

use vstd::prelude::*;
use vstd::multiset::*;
use rand_xorshift::XorShiftRng;
use crate::event::{ChurnKind, Event, EventKind, ProcessId, Time, churn_event, end_event, save_event};
use crate::process::{Pool, Process, ProcessState, in_pool, lemma_pool_ids, pool_ids};
use crate::queue::{EventQueue, is_least, lemma_least_is_earliest};
use crate::rng::{draw_ids, duplicate, rng_state, seed_state, seeded};

verus! {

/// The state of a process after it joined: alive, in its first incarnation.
pub open spec fn joined(s: ProcessState) -> ProcessState {
    ProcessState { up: true, process: Process { generation: 1, ..s.process } }
}

/// The state of a process after it recovered: alive, in its next incarnation.
pub open spec fn recovered(s: ProcessState) -> ProcessState {
    ProcessState {
        up: true,
        process: Process { generation: (s.process.generation + 1) as u16, ..s.process },
    }
}

/// The state of a process after it left or failed.
pub open spec fn downed(s: ProcessState) -> ProcessState {
    ProcessState { up: false, ..s }
}

/// Process `i` has id `i`, and the ids fit their type.
pub open spec fn dense(states: Seq<ProcessState>) -> bool {
    &&& states.len() <= u32::MAX + 1
    &&& forall|i: int| 0 <= i < states.len() ==> (#[trigger] states[i]).process.id == i
}

/// Whether process `id` exists and is alive.
pub open spec fn is_up(states: Seq<ProcessState>, id: ProcessId) -> bool {
    id < states.len() && states[id as int].up
}

/// No event of `pending` lies before `now`.
pub open spec fn none_before(pending: Multiset<Event>, now: Time) -> bool {
    forall|x: Event| #[trigger] pending.contains(x) ==> now <= x.ts
}

/// The pool that a churn action picks from.
pub open spec fn churn_pool(kind: ChurnKind) -> Pool {
    match kind {
        ChurnKind::Join { .. } => Pool::NotJoined,
        ChurnKind::Recover { .. } | ChurnKind::RecoverId { .. } => Pool::Down,
        _ => Pool::Up,
    }
}

/// `ids` is a draw of `num` processes from `pool` without replacement, or of
/// the whole pool where it holds fewer.
pub open spec fn is_draw(pool: Seq<ProcessId>, num: ProcessId, ids: Seq<ProcessId>) -> bool {
    &&& ids.len() == if num <= pool.len() {
        num as int
    } else {
        pool.len() as int
    }
    &&& ids.no_duplicates()
    &&& forall|i: int| 0 <= i < ids.len() ==> pool.contains(#[trigger] ids[i])
}

/// `ids` are processes that a churn action may act on: for an action with a
/// number, a draw of that many from the action's pool; for an action with an
/// id, that process where it is in the action's pool, else none.
pub open spec fn is_churn_choice(states: Seq<ProcessState>, kind: ChurnKind, ids: Seq<ProcessId>) -> bool {
    match kind {
        ChurnKind::Join { num_proc }
        | ChurnKind::Leave { num_proc }
        | ChurnKind::Fail { num_proc }
        | ChurnKind::Recover { num_proc } => is_draw(
            pool_ids(states, churn_pool(kind), states.len()),
            num_proc,
            ids,
        ),
        ChurnKind::LeaveId { id } | ChurnKind::FailId { id } | ChurnKind::RecoverId { id } => ids
            == if id < states.len() && in_pool(churn_pool(kind), states[id as int]) {
            seq![id]
        } else {
            Seq::<ProcessId>::empty()
        },
        ChurnKind::End => ids == Seq::<ProcessId>::empty(),
    }
}

/// What is to be done with a dispatched event.
#[derive(Debug)]
pub enum Action {
    /// The run ends.
    End,
    /// The churn action of the event is to be applied to these processes,
    /// one after the other.
    Churn(Vec<ProcessId>),
    /// A snapshot is to be taken; `stop` says whether the run ends with it.
    Save { stop: bool },
    /// The event is discarded: its target is down, or it is a timer of an
    /// earlier incarnation of its target.
    Drop,
    /// The operation of the event is to be invoked on its target.
    Deliver,
}

/// An event that left the queue, and what is to be done with it.
#[derive(Debug)]
pub struct Dispatched {
    pub event: Event,
    pub action: Action,
}

/// Whether an event with this action counts as processed. The event that
/// ends the run does not, nor does one that is discarded.
pub open spec fn counted(action: Action) -> bool {
    match action {
        Action::End | Action::Drop => false,
        Action::Save { stop } => !stop,
        _ => true,
    }
}

/// `action` is what is to be done with `event` while the processes are in
/// `states`.
pub open spec fn fits(states: Seq<ProcessState>, event: Event, save_and_stop: bool, action: Action) -> bool {
    match event.kind {
        EventKind::Churn(ChurnKind::End) => action is End,
        EventKind::Churn(kind) => action matches Action::Churn(ids) && is_churn_choice(
            states,
            kind,
            ids@,
        ),
        EventKind::Save => action matches Action::Save { stop } && stop == save_and_stop,
        EventKind::Message => if is_up(states, event.target) {
            action is Deliver
        } else {
            action is Drop
        },
        EventKind::Local(generation, _, _) => if is_up(states, event.target)
            && states[event.target as int].process.generation == generation {
            action is Deliver
        } else {
            action is Drop
        },
    }
}

/// The whole state of a kernel as plain values, from which the run can be
/// taken up again.
pub struct Snapshot {
    /// The state of every process, by id.
    pub processes: Vec<ProcessState>,
    /// The waiting events, in no particular order.
    pub events: Vec<Event>,
    /// The virtual time.
    pub current_ts: Time,
    /// The number of events processed so far.
    pub events_processed: u64,
    /// The random source.
    pub rng: XorShiftRng,
}

/// The kernel of a simulation.
pub struct SimulationKernel {
    processes: Vec<ProcessState>,
    queue: EventQueue,
    current_ts: Time,
    events_processed: u64,
    /// The random source of the run.
    pub rng: XorShiftRng,
}

impl SimulationKernel {
    /// The state of every process, by id.
    pub closed spec fn states(&self) -> Seq<ProcessState> {
        self.processes@
    }

    /// The events that wait to be dispatched.
    pub closed spec fn pending(&self) -> Multiset<Event> {
        self.queue@
    }

    /// The virtual time.
    pub closed spec fn now(&self) -> Time {
        self.current_ts
    }

    /// The number of events processed so far.
    pub closed spec fn processed(&self) -> nat {
        self.events_processed as nat
    }

    /// The state of the random source.
    pub closed spec fn random(&self) -> Seq<u32> {
        rng_state(&self.rng)
    }

    /// The kernel's invariant: the queue is sound and the ids are dense.
    pub closed spec fn wf(&self) -> bool {
        &&& self.queue.wf()
        &&& dense(self.processes@)
    }

    /// In a sound kernel the ids are dense.
    pub proof fn lemma_dense(&self)
        requires
            self.wf(),
        ensures
            dense(self.states()),
    {
    }

    /// A kernel without processes or events, at time zero, with the random
    /// source of the given seed.
    pub fn new(seed: u64) -> (kernel: SimulationKernel)
        ensures
            kernel.wf(),
            kernel.states() == Seq::<ProcessState>::empty(),
            kernel.pending() == Multiset::<Event>::empty(),
            kernel.now() == 0,
            kernel.processed() == 0,
            kernel.random() == seed_state(seed),
    {
        SimulationKernel {
            processes: Vec::new(),
            queue: EventQueue::new(),
            current_ts: 0,
            events_processed: 0,
            rng: seeded(seed),
        }
    }

    /// Adds the next process, which is down and has not joined. Its id is the
    /// number of processes so far.
    pub fn add_process(&mut self, id: ProcessId, op_duration: Time)
        requires
            old(self).wf(),
            id == old(self).states().len(),
        ensures
            final(self).wf(),
            final(self).states() == old(self).states().push(
                ProcessState { up: false, process: Process { id, generation: 0, op_duration, simulation_stops: false } },
            ),
            final(self).pending() == old(self).pending(),
            final(self).now() == old(self).now(),
            final(self).processed() == old(self).processed(),
            final(self).random() == old(self).random(),
    {
        self.processes.push(ProcessState { up: false, process: Process::new(id, op_duration) });
    }

    /// The number of processes.
    pub fn len(&self) -> (n: usize)
        ensures
            n == self.states().len(),
    {
        self.processes.len()
    }

    /// The virtual time.
    pub fn get_time(&self) -> (ts: Time)
        ensures
            ts == self.now(),
    {
        self.current_ts
    }

    /// The number of events processed so far.
    pub fn events_processed(&self) -> (count: u64)
        ensures
            count == self.processed(),
    {
        self.events_processed
    }

    /// The number of events that wait.
    pub fn events_pending(&self) -> (count: usize)
        requires
            self.wf(),
        ensures
            count == self.pending().len(),
    {
        self.queue.len()
    }

    /// Whether a process of this id exists.
    pub fn id_in_use(&self, id: ProcessId) -> (r: bool)
        ensures
            r == (id < self.states().len()),
    {
        (id as usize) < self.processes.len()
    }

    /// Whether process `id` exists and is alive.
    pub fn is_process_up(&self, id: ProcessId) -> (r: bool)
        ensures
            r == is_up(self.states(), id),
    {
        if self.id_in_use(id) {
            self.processes[id as usize].up
        } else {
            false
        }
    }

    /// The handle of process `id`, where it exists.
    pub fn get_process(&self, id: ProcessId) -> (r: Option<Process>)
        ensures
            r == if id < self.states().len() {
                Some(self.states()[id as int].process)
            } else {
                None
            },
    {
        if self.id_in_use(id) {
            Some(self.processes[id as usize].process)
        } else {
            None
        }
    }

    /// Whether process `id` exists and has joined at least once.
    pub fn has_process_joined(&self, id: ProcessId) -> (r: bool)
        ensures
            r == (id < self.states().len() && self.states()[id as int].process.generation > 0),
    {
        match self.get_process(id) {
            Some(p) => p.generation > 0,
            None => false,
        }
    }

    /// The ids of the processes of a pool, in increasing order.
    pub fn get_processes_ids(&self, pool: Pool) -> (ids: Vec<ProcessId>)
        requires
            self.wf(),
        ensures
            ids@ == pool_ids(self.states(), pool, self.states().len()),
    {
        let mut v: Vec<ProcessId> = Vec::new();
        let mut i: usize = 0;
        while i < self.processes.len()
            invariant
                self.wf(),
                i <= self.processes@.len(),
                v@ == pool_ids(self.processes@, pool, i as nat),
            decreases self.processes.len() - i,
        {
            let state = self.processes[i];
            let belongs = match pool {
                Pool::Up => state.up,
                Pool::Down => !state.up && state.process.generation > 0,
                Pool::NotJoined => !state.up && state.process.generation == 0,
            };
            if belongs {
                v.push(i as ProcessId);
            }
            i += 1;
        }
        v
    }

    /// The ids of the processes that are alive.
    pub fn get_processes_ids_up(&self) -> (ids: Vec<ProcessId>)
        requires
            self.wf(),
        ensures
            ids@ == pool_ids(self.states(), Pool::Up, self.states().len()),
    {
        self.get_processes_ids(Pool::Up)
    }

    /// The ids of the processes that joined once and are down.
    pub fn get_processes_ids_down(&self) -> (ids: Vec<ProcessId>)
        requires
            self.wf(),
        ensures
            ids@ == pool_ids(self.states(), Pool::Down, self.states().len()),
    {
        self.get_processes_ids(Pool::Down)
    }

    /// The ids of the processes that never joined.
    pub fn get_processes_ids_not_joined(&self) -> (ids: Vec<ProcessId>)
        requires
            self.wf(),
        ensures
            ids@ == pool_ids(self.states(), Pool::NotJoined, self.states().len()),
    {
        self.get_processes_ids(Pool::NotJoined)
    }

    /// The handles of all processes, by id.
    pub fn get_processes(&self) -> (v: Vec<Process>)
        ensures
            v@.len() == self.states().len(),
            forall|i: int| 0 <= i < v@.len() ==> #[trigger] v@[i] == self.states()[i].process,
    {
        let mut v: Vec<Process> = Vec::new();
        let mut i: usize = 0;
        while i < self.processes.len()
            invariant
                i <= self.processes@.len(),
                v@.len() == i,
                forall|k: int| 0 <= k < i ==> #[trigger] v@[k] == self.processes@[k].process,
            decreases self.processes.len() - i,
        {
            v.push(self.processes[i].process);
            i += 1;
        }
        v
    }

    /// The handles of the processes that are alive, by id.
    pub fn get_processes_up(&self) -> (v: Vec<Process>)
        requires
            self.wf(),
        ensures
            v@.len() == pool_ids(self.states(), Pool::Up, self.states().len()).len(),
            forall|i: int|
                0 <= i < v@.len() ==> #[trigger] v@[i] == self.states()[pool_ids(
                    self.states(),
                    Pool::Up,
                    self.states().len(),
                )[i] as int].process,
    {
        let ids = self.get_processes_ids(Pool::Up);
        proof {
            lemma_pool_ids(self.states(), Pool::Up, self.states().len());
            assert forall|k: int| 0 <= k < ids@.len() implies (#[trigger] ids@[k])
                < self.processes@.len() by {
                assert(ids@.contains(ids@[k]));
            }
        }
        let mut v: Vec<Process> = Vec::new();
        let mut i: usize = 0;
        while i < ids.len()
            invariant
                i <= ids@.len(),
                v@.len() == i,
                forall|k: int| 0 <= k < ids@.len() ==> (#[trigger] ids@[k]) < self.processes@.len(),
                forall|k: int| 0 <= k < i ==> #[trigger] v@[k] == self.processes@[ids@[k] as int].process,
            decreases ids.len() - i,
        {
            v.push(self.processes[ids[i] as usize].process);
            i += 1;
        }
        v
    }

    /// Tells every process whether the run has an event that ends it.
    pub fn update_process_simulation_stops(&mut self, simulation_stops: bool)
        requires
            old(self).wf(),
        ensures
            final(self).wf(),
            final(self).states().len() == old(self).states().len(),
            forall|i: int|
                0 <= i < old(self).states().len() ==> #[trigger] final(self).states()[i] == (
                ProcessState {
                    process: Process { simulation_stops, ..old(self).states()[i].process },
                    ..old(self).states()[i]
                }),
            final(self).pending() == old(self).pending(),
            final(self).now() == old(self).now(),
            final(self).processed() == old(self).processed(),
            final(self).random() == old(self).random(),
    {
        let mut i: usize = 0;
        while i < self.processes.len()
            invariant
                i <= self.processes@.len(),
                self.processes@.len() == old(self).processes@.len(),
                self.queue == old(self).queue,
                self.current_ts == old(self).current_ts,
                self.events_processed == old(self).events_processed,
                self.rng == old(self).rng,
                forall|k: int|
                    0 <= k < i ==> #[trigger] self.processes@[k] == (ProcessState {
                        process: Process { simulation_stops, ..old(self).processes@[k].process },
                        ..old(self).processes@[k]
                    }),
                forall|k: int|
                    i <= k < self.processes@.len() ==> #[trigger] self.processes@[k] == old(
                        self,
                    ).processes@[k],
            decreases self.processes.len() - i,
        {
            let mut state = self.processes[i];
            state.process.set_simulation_stops(simulation_stops);
            self.processes.set(i, state);
            i += 1;
        }
    }

    /// Adds an event to the queue.
    pub fn add_event(&mut self, event: Event)
        requires
            old(self).wf(),
        ensures
            final(self).wf(),
            final(self).pending() == old(self).pending().insert(event),
            final(self).states() == old(self).states(),
            final(self).now() == old(self).now(),
            final(self).processed() == old(self).processed(),
            final(self).random() == old(self).random(),
    {
        self.queue.add_event(event);
    }

    /// Adds events to the queue.
    pub fn add_events(&mut self, events: Vec<Event>)
        requires
            old(self).wf(),
        ensures
            final(self).wf(),
            final(self).pending() == old(self).pending().add(events@.to_multiset()),
            final(self).states() == old(self).states(),
            final(self).now() == old(self).now(),
            final(self).processed() == old(self).processed(),
            final(self).random() == old(self).random(),
    {
        self.queue.add_events(events);
    }

    /// Schedules a churn action of the kernel.
    pub fn add_churn_event(&mut self, ts: Time, kind: ChurnKind)
        requires
            old(self).wf(),
        ensures
            final(self).wf(),
            final(self).pending() == old(self).pending().insert(churn_event(ts, kind)),
            final(self).states() == old(self).states(),
            final(self).now() == old(self).now(),
            final(self).processed() == old(self).processed(),
            final(self).random() == old(self).random(),
    {
        self.add_event(Event::new_churn(ts, kind));
    }

    /// Schedules the end of the run.
    pub fn add_end_event(&mut self, ts: Time)
        requires
            old(self).wf(),
        ensures
            final(self).wf(),
            final(self).pending() == old(self).pending().insert(end_event(ts)),
            final(self).states() == old(self).states(),
            final(self).now() == old(self).now(),
            final(self).processed() == old(self).processed(),
            final(self).random() == old(self).random(),
    {
        self.add_event(Event::new_end(ts));
    }

    /// Schedules a snapshot.
    pub fn add_save_event(&mut self, ts: Time)
        requires
            old(self).wf(),
        ensures
            final(self).wf(),
            final(self).pending() == old(self).pending().insert(save_event(ts)),
            final(self).states() == old(self).states(),
            final(self).now() == old(self).now(),
            final(self).processed() == old(self).processed(),
            final(self).random() == old(self).random(),
    {
        self.add_event(Event::new_save(ts));
    }

    /// Lets process `id` join at time `ts`, where it exists and never joined:
    /// it is then alive in its first incarnation, and the clock shows `ts`.
    /// Says whether it did; where it did not, nothing changes.
    pub fn join_process(&mut self, ts: Time, id: ProcessId) -> (done: bool)
        requires
            old(self).wf(),
        ensures
            final(self).wf(),
            done == (id < old(self).states().len() && in_pool(
                Pool::NotJoined,
                old(self).states()[id as int],
            )),
            done ==> final(self).states() == old(self).states().update(
                id as int,
                joined(old(self).states()[id as int]),
            ) && final(self).now() == ts,
            !done ==> final(self).states() == old(self).states() && final(self).now() == old(
                self,
            ).now(),
            final(self).pending() == old(self).pending(),
            final(self).processed() == old(self).processed(),
            final(self).random() == old(self).random(),
    {
        if !self.id_in_use(id) {
            return false;
        }
        let mut state = self.processes[id as usize];
        if state.up || state.process.generation != 0 {
            return false;
        }
        state.process.generation = 1;
        state.up = true;
        self.processes.set(id as usize, state);
        self.current_ts = ts;
        true
    }

    /// Takes process `id` down after it left, where it exists and is alive.
    /// Says whether it did; where it did not, nothing changes.
    pub fn leave_process(&mut self, ts: Time, id: ProcessId) -> (done: bool)
        requires
            old(self).wf(),
        ensures
            final(self).wf(),
            done == is_up(old(self).states(), id),
            done ==> final(self).states() == old(self).states().update(
                id as int,
                downed(old(self).states()[id as int]),
            ),
            !done ==> final(self).states() == old(self).states(),
            final(self).now() == old(self).now(),
            final(self).pending() == old(self).pending(),
            final(self).processed() == old(self).processed(),
            final(self).random() == old(self).random(),
    {
        self.fail_process(ts, id)
    }

    /// Takes process `id` down, where it exists and is alive. Says whether it
    /// did; where it did not, nothing changes.
    pub fn fail_process(&mut self, ts: Time, id: ProcessId) -> (done: bool)
        requires
            old(self).wf(),
        ensures
            final(self).wf(),
            done == is_up(old(self).states(), id),
            done ==> final(self).states() == old(self).states().update(
                id as int,
                downed(old(self).states()[id as int]),
            ),
            !done ==> final(self).states() == old(self).states(),
            final(self).now() == old(self).now(),
            final(self).pending() == old(self).pending(),
            final(self).processed() == old(self).processed(),
            final(self).random() == old(self).random(),
    {
        if !self.is_process_up(id) {
            return false;
        }
        let mut state = self.processes[id as usize];
        state.up = false;
        self.processes.set(id as usize, state);
        true
    }

    /// Lets process `id` recover at time `ts`, where it exists, joined once,
    /// is down and has an incarnation left: it is then alive in its next
    /// incarnation, and the clock shows `ts`. Says whether it did; where it
    /// did not, nothing changes.
    pub fn recover_process(&mut self, ts: Time, id: ProcessId) -> (done: bool)
        requires
            old(self).wf(),
        ensures
            final(self).wf(),
            done == (id < old(self).states().len() && in_pool(
                Pool::Down,
                old(self).states()[id as int],
            ) && old(self).states()[id as int].process.generation < u16::MAX),
            done ==> final(self).states() == old(self).states().update(
                id as int,
                recovered(old(self).states()[id as int]),
            ) && final(self).now() == ts,
            !done ==> final(self).states() == old(self).states() && final(self).now() == old(
                self,
            ).now(),
            final(self).pending() == old(self).pending(),
            final(self).processed() == old(self).processed(),
            final(self).random() == old(self).random(),
    {
        if !self.id_in_use(id) {
            return false;
        }
        let mut state = self.processes[id as usize];
        if state.up || state.process.generation == 0 || state.process.generation == u16::MAX {
            return false;
        }
        state.process.generation = state.process.generation + 1;
        state.up = true;
        self.processes.set(id as usize, state);
        self.current_ts = ts;
        true
    }

    /// Picks the processes that a churn action is to act on. An action with a
    /// number draws that many at random from its pool: `join` from the
    /// processes that never joined, `leave` and `fail` from those alive,
    /// `recover` from those that are down. An action with an id picks that
    /// process where it is in the pool. Nothing but the random source changes.
    pub fn handle_churn_event(&mut self, kind: ChurnKind) -> (ids: Vec<ProcessId>)
        requires
            old(self).wf(),
        ensures
            final(self).wf(),
            is_churn_choice(old(self).states(), kind, ids@),
            final(self).states() == old(self).states(),
            final(self).pending() == old(self).pending(),
            final(self).now() == old(self).now(),
            final(self).processed() == old(self).processed(),
            !(kind is Join || kind is Leave || kind is Fail || kind is Recover) ==> final(self).random()
                == old(self).random(),
    {
        proof {
            lemma_pool_ids(self.states(), churn_pool(kind), self.states().len());
        }
        match kind {
            ChurnKind::Join { num_proc } => {
                let pool = self.get_processes_ids(Pool::NotJoined);
                draw_ids(&mut self.rng, &pool, num_proc)
            },
            ChurnKind::Leave { num_proc } => {
                let pool = self.get_processes_ids(Pool::Up);
                draw_ids(&mut self.rng, &pool, num_proc)
            },
            ChurnKind::Fail { num_proc } => {
                let pool = self.get_processes_ids(Pool::Up);
                draw_ids(&mut self.rng, &pool, num_proc)
            },
            ChurnKind::Recover { num_proc } => {
                let pool = self.get_processes_ids(Pool::Down);
                draw_ids(&mut self.rng, &pool, num_proc)
            },
            ChurnKind::LeaveId { id } | ChurnKind::FailId { id } => {
                let mut ids: Vec<ProcessId> = Vec::new();
                if self.is_process_up(id) {
                    ids.push(id);
                    assert(ids@ =~= seq![id]);
                }
                ids
            },
            ChurnKind::RecoverId { id } => {
                let mut ids: Vec<ProcessId> = Vec::new();
                if !self.is_process_up(id) && self.has_process_joined(id) {
                    ids.push(id);
                    assert(ids@ =~= seq![id]);
                }
                ids
            },
            ChurnKind::End => Vec::new(),
        }
    }

    /// Dispatches the next event. From an empty queue there is none and
    /// nothing changes. Else the least waiting event leaves the queue, the
    /// clock shows its timestamp, and the result says what is to be done
    /// with it: a message is delivered to a target that is alive, a timer
    /// moreover only to the incarnation that set it. The states of the
    /// processes do not change.
    pub fn step(&mut self, save_and_stop: bool) -> (r: Option<Dispatched>)
        requires
            old(self).wf(),
        ensures
            final(self).wf(),
            final(self).states() == old(self).states(),
            !(r matches Some(d) && d.event.kind matches EventKind::Churn(kind) && (kind is Join
                || kind is Leave || kind is Fail || kind is Recover)) ==> final(self).random()
                == old(self).random(),
            match r {
                None => {
                    &&& old(self).pending().len() == 0
                    &&& final(self).pending() == old(self).pending()
                    &&& final(self).now() == old(self).now()
                    &&& final(self).processed() == old(self).processed()
                },
                Some(d) => {
                    &&& is_least(old(self).pending(), d.event)
                    &&& final(self).pending() == old(self).pending().remove(d.event)
                    &&& final(self).now() == d.event.ts
                    &&& fits(old(self).states(), d.event, save_and_stop, d.action)
                    &&& final(self).processed() == if counted(d.action) && old(self).processed()
                        < u64::MAX {
                        old(self).processed() + 1
                    } else {
                        old(self).processed()
                    }
                    &&& d.action is Deliver ==> is_up(old(self).states(), d.event.target)
                    &&& d.action is Deliver ==> (d.event.kind matches EventKind::Local(g, _, _)
                        ==> old(self).states()[d.event.target as int].process.generation == g)
                    &&& none_before(old(self).pending(), old(self).now()) ==> old(self).now()
                        <= d.event.ts && none_before(final(self).pending(), final(self).now())
                },
            },
    {
        broadcast use group_multiset_axioms, group_multiset_properties;

        let event = match self.queue.next_event() {
            None => {
                return None;
            },
            Some(event) => event,
        };
        proof {
            assert forall|x: Event| #[trigger] self.queue@.contains(x) implies event.ts <= x.ts by {
                assert(old(self).queue@.contains(x));
                lemma_least_is_earliest(old(self).queue@, event, x);
            }
        }
        self.current_ts = event.ts;
        let action = match event.kind {
            EventKind::Churn(ChurnKind::End) => Action::End,
            EventKind::Churn(kind) => Action::Churn(self.handle_churn_event(kind)),
            EventKind::Save => Action::Save { stop: save_and_stop },
            EventKind::Message => {
                if self.is_process_up(event.target) {
                    Action::Deliver
                } else {
                    Action::Drop
                }
            },
            EventKind::Local(generation, _, _) => {
                if self.is_process_up(event.target) && self.processes[event.target as usize].process.generation
                    == generation {
                    Action::Deliver
                } else {
                    Action::Drop
                }
            },
        };
        let counts = match action {
            Action::End | Action::Drop => false,
            Action::Save { stop } => !stop,
            _ => true,
        };
        if counts && self.events_processed < u64::MAX {
            self.events_processed = self.events_processed + 1;
        }
        Some(Dispatched { event, action })
    }

    /// `snapshot` holds the state of this kernel: its processes, its waiting
    /// events, its clock, its count of events and its random source.
    pub open spec fn is_captured_by(&self, snapshot: &Snapshot) -> bool {
        &&& snapshot.processes@ == self.states()
        &&& snapshot.events@.to_multiset() == self.pending()
        &&& snapshot.current_ts == self.now()
        &&& snapshot.events_processed == self.processed()
        &&& rng_state(&snapshot.rng) == self.random()
    }

    /// The state of the kernel as plain values. The kernel stays as it is.
    pub fn snapshot(&self) -> (snapshot: Snapshot)
        requires
            self.wf(),
        ensures
            self.is_captured_by(&snapshot),
            dense(snapshot.processes@),
    {
        Snapshot {
            processes: self.processes.clone(),
            events: self.queue.events(),
            current_ts: self.current_ts,
            events_processed: self.events_processed,
            rng: duplicate(&self.rng),
        }
    }

    /// The kernel of a snapshot, where the ids of its processes are dense.
    /// It goes on with the random source of the snapshot, or with that of
    /// `new_seed` where one is given.
    pub fn load_state(snapshot: Snapshot, new_seed: Option<u64>) -> (r: Option<SimulationKernel>)
        ensures
            r is Some == dense(snapshot.processes@),
            r matches Some(kernel) ==> {
                &&& kernel.wf()
                &&& kernel.states() == snapshot.processes@
                &&& kernel.pending() == snapshot.events@.to_multiset()
                &&& kernel.now() == snapshot.current_ts
                &&& kernel.processed() == snapshot.events_processed
                &&& kernel.random() == match new_seed {
                    Some(seed) => seed_state(seed),
                    None => rng_state(&snapshot.rng),
                }
            },
    {
        let Snapshot { processes, events, current_ts, events_processed, rng } = snapshot;
        if processes.len() as u64 > u32::MAX as u64 + 1 {
            return None;
        }
        let mut i: usize = 0;
        while i < processes.len()
            invariant
                i <= processes@.len() <= u32::MAX + 1,
                processes@ == snapshot.processes@,
                forall|k: int| 0 <= k < i ==> (#[trigger] processes@[k]).process.id == k,
            decreases processes.len() - i,
        {
            if processes[i].process.id as u64 != i as u64 {
                proof {
                    assert(snapshot.processes@[i as int].process.id != i);
                    assert(!dense(snapshot.processes@));
                }
                return None;
            }
            i += 1;
        }
        let mut queue = EventQueue::new();
        queue.add_events(events);
        proof {
            assert(Multiset::<Event>::empty().add(events@.to_multiset()) =~= events@.to_multiset()) by {
                broadcast use group_multiset_axioms;

            }
        }
        let rng = match new_seed {
            Some(seed) => seeded(seed),
            None => rng,
        };
        Some(SimulationKernel { processes, queue, current_ts, events_processed, rng })
    }
}

/// A kernel taken up from a snapshot is in the state of the kernel that the
/// snapshot was taken of, random source included, and dispatches the same
/// event next.
pub proof fn lemma_resumed_run_continues(
    first: &SimulationKernel,
    snapshot: &Snapshot,
    resumed: &SimulationKernel,
    next: Event,
)
    requires
        first.is_captured_by(snapshot),
        resumed.is_captured_by(snapshot),
    ensures
        resumed.states() == first.states(),
        resumed.pending() == first.pending(),
        resumed.now() == first.now(),
        resumed.processed() == first.processed(),
        resumed.random() == first.random(),
        is_least(first.pending(), next) <==> is_least(resumed.pending(), next),
{
}

/// What is done with an event is decided by the event and the states of
/// the processes; only which processes a churn action draws is left to the
/// random source.
pub proof fn lemma_dispatch_is_decided(
    states: Seq<ProcessState>,
    event: Event,
    save_and_stop: bool,
    one: Action,
    other: Action,
)
    requires
        fits(states, event, save_and_stop, one),
        fits(states, event, save_and_stop, other),
    ensures
        one is End == other is End,
        one is Drop == other is Drop,
        one is Deliver == other is Deliver,
        one is Churn == other is Churn,
        one matches Action::Save { stop: a } ==> other matches Action::Save { stop: b } && a == b,
        counted(one) == counted(other),
        event.kind matches EventKind::Churn(kind) && (kind is LeaveId || kind is FailId
            || kind is RecoverId) ==> one->Churn_0@ == other->Churn_0@,
{
}

/// A process that is down is handed no event, whatever waits for it.
pub proof fn lemma_down_process_gets_nothing(
    states: Seq<ProcessState>,
    event: Event,
    save_and_stop: bool,
    action: Action,
)
    requires
        fits(states, event, save_and_stop, action),
        event.kind is Message || event.kind is Local,
        !is_up(states, event.target),
    ensures
        action is Drop,
{
}

/// A timer is handed only to the incarnation that set it.
pub proof fn lemma_stale_timer_is_dropped(
    states: Seq<ProcessState>,
    event: Event,
    save_and_stop: bool,
    action: Action,
)
    requires
        fits(states, event, save_and_stop, action),
        event.kind matches EventKind::Local(generation, _, _) && event.target < states.len()
            && states[event.target as int].process.generation != generation,
    ensures
        action is Drop,
{
}

/// No change of status lowers the incarnation of a process: joining makes
/// it the first, recovering the next, and going down leaves it.
pub proof fn lemma_generation_never_falls(s: ProcessState)
    ensures
        in_pool(Pool::NotJoined, s) ==> joined(s).process.generation == 1 && joined(s).up,
        in_pool(Pool::Down, s) && s.process.generation < u16::MAX ==> recovered(
            s,
        ).process.generation == s.process.generation + 1 && recovered(s).up,
        downed(s).process.generation == s.process.generation && !downed(s).up,
{
}

} // verus!
