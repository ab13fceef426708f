//! Processes: the handle that an application works through, and the state
//! that the kernel keeps of each process.

use vstd::prelude::*;
use vstd::multiset::*;
use crate::event::{Event, EventKind, OpId, ProcessId, Time};
use crate::kernel::{SimulationKernel, none_before};

verus! {

/// The handle of a process: what an application needs to know of the
/// process it runs on. It is a copy; the kernel keeps its own.
#[derive(Clone, Copy, Debug, PartialEq, Eq, Structural)]
pub struct Process {
    /// The index of the process.
    pub id: ProcessId,
    /// The incarnation of the process: `0` before it first joins, then `1`,
    /// and one more after each recovery.
    pub generation: u16,
    /// The duration that the offsets of local timers are scaled by.
    pub op_duration: Time,
    /// Whether the run has an event that ends it.
    pub simulation_stops: bool,
}

/// What the kernel keeps of a process.
#[derive(Clone, Copy, Debug, PartialEq, Eq, Structural)]
pub struct ProcessState {
    /// Whether the process is alive.
    pub up: bool,
    pub process: Process,
}

/// The groups that churn actions pick processes from.
#[derive(Clone, Copy, Debug, PartialEq, Eq, Structural)]
pub enum Pool {
    /// The processes that are alive.
    Up,
    /// The processes that joined once and are down.
    Down,
    /// The processes that never joined.
    NotJoined,
}

/// Whether a process belongs to a pool.
pub open spec fn in_pool(pool: Pool, state: ProcessState) -> bool {
    match pool {
        Pool::Up => state.up,
        Pool::Down => !state.up && state.process.generation > 0,
        Pool::NotJoined => !state.up && state.process.generation == 0,
    }
}

/// The ids below `upto` of the processes that belong to a pool, in
/// increasing order.
pub open spec fn pool_ids(states: Seq<ProcessState>, pool: Pool, upto: nat) -> Seq<ProcessId>
    decreases upto,
{
    if upto == 0 {
        Seq::empty()
    } else {
        let rest = pool_ids(states, pool, (upto - 1) as nat);
        if in_pool(pool, states[upto - 1]) {
            rest.push((upto - 1) as ProcessId)
        } else {
            rest
        }
    }
}

/// The ids of a pool are exactly the processes that belong to it, each once.
pub proof fn lemma_pool_ids(states: Seq<ProcessState>, pool: Pool, upto: nat)
    requires
        upto <= states.len() <= u32::MAX + 1,
    ensures
        pool_ids(states, pool, upto).no_duplicates(),
        pool_ids(states, pool, upto).len() <= upto,
        forall|id: ProcessId|
            #[trigger] pool_ids(states, pool, upto).contains(id) <==> (id < upto && in_pool(
                pool,
                states[id as int],
            )),
    decreases upto,
{
    if upto > 0 {
        let rest = pool_ids(states, pool, (upto - 1) as nat);
        let all = pool_ids(states, pool, upto);
        lemma_pool_ids(states, pool, (upto - 1) as nat);
        let last = (upto - 1) as ProcessId;
        if in_pool(pool, states[upto - 1]) {
            assert(all == rest.push(last));
            assert(!rest.contains(last));
            assert forall|id: ProcessId| #[trigger] all.contains(id) <==> (id < upto && in_pool(
                pool,
                states[id as int],
            )) by {
                if all.contains(id) {
                    let k = choose|k: int| 0 <= k < all.len() && all[k] == id;
                    if k < rest.len() {
                        assert(rest[k] == id);
                        assert(rest.contains(id));
                    }
                }
                if id < upto && in_pool(pool, states[id as int]) {
                    if id == last {
                        assert(all[rest.len() as int] == id);
                    } else {
                        assert(rest.contains(id));
                        let k = choose|k: int| 0 <= k < rest.len() && rest[k] == id;
                        assert(all[k] == id);
                    }
                }
            }
            assert forall|i: int, j: int| 0 <= i < all.len() && 0 <= j < all.len() && i != j implies all[i] != all[j] by {
                if i < rest.len() && j < rest.len() {
                } else if i < rest.len() {
                    assert(rest.contains(rest[i]));
                } else if j < rest.len() {
                    assert(rest.contains(rest[j]));
                }
            }
        } else {
            assert(all == rest);
        }
    }
}

impl Process {
    /// The handle of a process that has not joined yet.
    pub fn new(id: ProcessId, op_duration: Time) -> (p: Process)
        ensures
            p == (Process { id, generation: 0, op_duration, simulation_stops: false }),
    {
        Process { id, generation: 0, op_duration, simulation_stops: false }
    }

    pub fn get_id(&self) -> (id: ProcessId)
        ensures
            id == self.id,
    {
        self.id
    }

    pub fn get_generation(&self) -> (generation: u16)
        ensures
            generation == self.generation,
    {
        self.generation
    }

    /// Says whether the run has an event that ends it.
    pub fn set_simulation_stops(&mut self, simulation_stops: bool)
        ensures
            *final(self) == (Process { simulation_stops, ..*old(self) }),
    {
        self.simulation_stops = simulation_stops;
    }
}

/// Why an event was not scheduled.
#[derive(Clone, Copy, Debug, PartialEq, Eq, Structural)]
pub enum ScheduleError {
    /// A timer that repeats forever was asked for in a run that nothing ends.
    UnboundedPeriodic,
    /// The timestamp of the event lies beyond the range of the clock.
    TimeOverflow,
}

/// Whether `t` is a time that the clock can show.
pub open spec fn is_time(t: int) -> bool {
    Time::MIN <= t <= Time::MAX
}

/// The message that arrives `latency` after `now`.
pub open spec fn message_event(now: Time, latency: Time, target: ProcessId, op: OpId) -> Event {
    Event { ts: (now + latency) as Time, target, op, kind: EventKind::Message }
}

/// The timer that process `p` sets at `now` to fire after `delta`, shifted
/// by `offset`, with `count` firings to go.
pub open spec fn timer_event(p: Process, now: Time, delta: Time, offset: Time, op: OpId, count: u16) -> Event {
    Event {
        ts: (now + delta + offset) as Time,
        target: p.id,
        op,
        kind: EventKind::Local(p.generation, delta, count),
    }
}

/// The firings that remain after one of a timer with `count` to go, where
/// `0` stands for "forever".
pub open spec fn remaining(count: u16) -> u16 {
    if count == 0 {
        0
    } else {
        (count - 1) as u16
    }
}

/// The kernel `after` is the kernel `before` but for the waiting events.
pub open spec fn same_but_pending(before: &SimulationKernel, after: &SimulationKernel) -> bool {
    &&& after.states() == before.states()
    &&& after.now() == before.now()
    &&& after.processed() == before.processed()
    &&& after.random() == before.random()
}

impl Process {
    /// Sends the operation `op` to `target`. `latency` is the answer of the
    /// network oracle for this message: where it is `None` the message is
    /// lost and nothing happens; else the message is delivered that much
    /// later. Nothing is added to the latency here.
    pub fn send(&self, kernel: &mut SimulationKernel, op: OpId, target: ProcessId, latency: Option<Time>) -> (r: Result<(), ScheduleError>)
        requires
            old(kernel).wf(),
        ensures
            final(kernel).wf(),
            same_but_pending(old(kernel), final(kernel)),
            match latency {
                None => r is Ok && final(kernel).pending() == old(kernel).pending(),
                Some(l) => if is_time(old(kernel).now() + l) {
                    r is Ok && final(kernel).pending() == old(kernel).pending().insert(
                        message_event(old(kernel).now(), l, target, op),
                    )
                } else {
                    r == Err::<(), ScheduleError>(ScheduleError::TimeOverflow) && final(kernel).pending() == old(
                        kernel,
                    ).pending()
                },
            },
            (latency matches Some(l) ==> l >= 0) && none_before(
                old(kernel).pending(),
                old(kernel).now(),
            ) ==> none_before(final(kernel).pending(), final(kernel).now()),
    {
        broadcast use group_multiset_axioms, group_multiset_properties;

        match latency {
            None => Ok(()),
            Some(l) => {
                let ts: i64 = kernel.get_time() as i64 + l as i64;
                if ts < Time::MIN as i64 || ts > Time::MAX as i64 {
                    return Err(ScheduleError::TimeOverflow);
                }
                let event = Event { ts: ts as Time, target, op, kind: EventKind::Message };
                kernel.add_event(event);
                proof {
                    if l >= 0 && none_before(old(kernel).pending(), old(kernel).now()) {
                        assert forall|x: Event| #[trigger]
                            kernel.pending().contains(x) implies kernel.now() <= x.ts by {
                            if x != event {
                                assert(old(kernel).pending().contains(x));
                            }
                        }
                    }
                }
                Ok(())
            },
        }
    }

    /// Schedules `op` on this process once, `delta` from now, shifted by
    /// the offset drawn for it.
    pub fn call(&self, kernel: &mut SimulationKernel, op: OpId, delta: Time, async_offset: Time) -> (r: Result<(), ScheduleError>)
        requires
            old(kernel).wf(),
        ensures
            final(kernel).wf(),
            same_but_pending(old(kernel), final(kernel)),
            if is_time(old(kernel).now() + delta + async_offset) {
                r is Ok && final(kernel).pending() == old(kernel).pending().insert(
                    timer_event(*self, old(kernel).now(), delta, async_offset, op, 1),
                )
            } else {
                r == Err::<(), ScheduleError>(ScheduleError::TimeOverflow) && final(kernel).pending() == old(
                    kernel,
                ).pending()
            },
    {
        self.periodic(kernel, op, delta, 1, async_offset)
    }

    /// Schedules `op` on this process `count` times, `delta` apart, the
    /// first time `delta` from now, shifted by the offset drawn for it. A
    /// `count` of zero stands for "forever" and is refused where nothing
    /// ends the run. The timer belongs to the incarnation of this handle.
    pub fn periodic(&self, kernel: &mut SimulationKernel, op: OpId, delta: Time, count: u16, async_offset: Time) -> (r: Result<(), ScheduleError>)
        requires
            old(kernel).wf(),
        ensures
            final(kernel).wf(),
            same_but_pending(old(kernel), final(kernel)),
            if count == 0 && !self.simulation_stops {
                r == Err::<(), ScheduleError>(ScheduleError::UnboundedPeriodic) && final(kernel).pending() == old(
                    kernel,
                ).pending()
            } else if is_time(old(kernel).now() + delta + async_offset) {
                r is Ok && final(kernel).pending() == old(kernel).pending().insert(
                    timer_event(*self, old(kernel).now(), delta, async_offset, op, count),
                )
            } else {
                r == Err::<(), ScheduleError>(ScheduleError::TimeOverflow) && final(kernel).pending() == old(
                    kernel,
                ).pending()
            },
            delta + async_offset >= 0 && none_before(old(kernel).pending(), old(kernel).now())
                ==> none_before(final(kernel).pending(), final(kernel).now()),
    {
        if !self.simulation_stops && count == 0 {
            return Err(ScheduleError::UnboundedPeriodic);
        }
        self.schedule_timer(kernel, op, delta, count, async_offset)
    }

    /// Adds the timer of this process to the queue, where its timestamp
    /// fits the clock.
    fn schedule_timer(&self, kernel: &mut SimulationKernel, op: OpId, delta: Time, count: u16, async_offset: Time) -> (r: Result<(), ScheduleError>)
        requires
            old(kernel).wf(),
        ensures
            final(kernel).wf(),
            same_but_pending(old(kernel), final(kernel)),
            if is_time(old(kernel).now() + delta + async_offset) {
                r is Ok && final(kernel).pending() == old(kernel).pending().insert(
                    timer_event(*self, old(kernel).now(), delta, async_offset, op, count),
                )
            } else {
                r == Err::<(), ScheduleError>(ScheduleError::TimeOverflow) && final(kernel).pending() == old(
                    kernel,
                ).pending()
            },
            delta + async_offset >= 0 && none_before(old(kernel).pending(), old(kernel).now())
                ==> none_before(final(kernel).pending(), final(kernel).now()),
    {
        broadcast use group_multiset_axioms, group_multiset_properties;

        let ts: i64 = kernel.get_time() as i64 + delta as i64 + async_offset as i64;
        if ts < Time::MIN as i64 || ts > Time::MAX as i64 {
            return Err(ScheduleError::TimeOverflow);
        }
        let event = Event {
            ts: ts as Time,
            target: self.id,
            op,
            kind: EventKind::Local(self.generation, delta, count),
        };
        kernel.add_event(event);
        proof {
            if delta + async_offset >= 0 && none_before(old(kernel).pending(), old(kernel).now()) {
                assert forall|x: Event| #[trigger]
                    kernel.pending().contains(x) implies kernel.now() <= x.ts by {
                    if x != event {
                        assert(old(kernel).pending().contains(x));
                    }
                }
            }
        }
        Ok(())
    }

    /// Schedules the next firing of a timer that has just fired with `count`
    /// firings to go: none after the last one, else one `delta` from now,
    /// shifted by the offset drawn for it, with one firing less to go. A
    /// timer that repeats forever stays one.
    pub fn reschedule_periodic(&self, kernel: &mut SimulationKernel, op: OpId, delta: Time, count: u16, async_offset: Time) -> (r: Result<(), ScheduleError>)
        requires
            old(kernel).wf(),
        ensures
            final(kernel).wf(),
            same_but_pending(old(kernel), final(kernel)),
            if count == 1 {
                r is Ok && final(kernel).pending() == old(kernel).pending()
            } else if is_time(old(kernel).now() + delta + async_offset) {
                r is Ok && final(kernel).pending() == old(kernel).pending().insert(
                    timer_event(*self, old(kernel).now(), delta, async_offset, op, remaining(count)),
                )
            } else {
                r == Err::<(), ScheduleError>(ScheduleError::TimeOverflow) && final(kernel).pending() == old(
                    kernel,
                ).pending()
            },
            delta + async_offset >= 0 && none_before(old(kernel).pending(), old(kernel).now())
                ==> none_before(final(kernel).pending(), final(kernel).now()),
    {
        if count == 1 {
            return Ok(());
        }
        let new_count = if count == 0 {
            count
        } else {
            count - 1
        };
        self.schedule_timer(kernel, op, delta, new_count, async_offset)
    }

    /// What follows the invocation of a delivered event: a timer is
    /// scheduled again as `reschedule_periodic` says; after a message
    /// nothing is to be done.
    pub fn receive(&self, kernel: &mut SimulationKernel, event: Event, async_offset: Time) -> (r: Result<(), ScheduleError>)
        requires
            old(kernel).wf(),
        ensures
            final(kernel).wf(),
            same_but_pending(old(kernel), final(kernel)),
            match event.kind {
                EventKind::Local(_, delta, count) => if count == 1 {
                    r is Ok && final(kernel).pending() == old(kernel).pending()
                } else if is_time(old(kernel).now() + delta + async_offset) {
                    r is Ok && final(kernel).pending() == old(kernel).pending().insert(
                        timer_event(
                            *self,
                            old(kernel).now(),
                            delta,
                            async_offset,
                            event.op,
                            remaining(count),
                        ),
                    )
                } else {
                    r == Err::<(), ScheduleError>(ScheduleError::TimeOverflow) && final(kernel).pending() == old(
                        kernel,
                    ).pending()
                },
                _ => r is Ok && final(kernel).pending() == old(kernel).pending(),
            },
    {
        match event.kind {
            EventKind::Local(_, delta, count) => self.reschedule_periodic(
                kernel,
                event.op,
                delta,
                count,
                async_offset,
            ),
            _ => Ok(()),
        }
    }

    /// The virtual time.
    pub fn get_time(&self, kernel: &SimulationKernel) -> (ts: Time)
        ensures
            ts == kernel.now(),
    {
        kernel.get_time()
    }

    /// The handles of the processes that are alive, by id.
    pub fn get_global_view(&self, kernel: &SimulationKernel) -> (v: Vec<Process>)
        requires
            kernel.wf(),
        ensures
            v@.len() == pool_ids(kernel.states(), Pool::Up, kernel.states().len()).len(),
            forall|i: int|
                0 <= i < v@.len() ==> #[trigger] v@[i] == kernel.states()[pool_ids(
                    kernel.states(),
                    Pool::Up,
                    kernel.states().len(),
                )[i] as int].process,
    {
        kernel.get_processes_up()
    }

    /// Whether process `id`, which must exist, is alive.
    pub fn is_process_up(&self, kernel: &SimulationKernel, id: ProcessId) -> (up: bool)
        requires
            id < kernel.states().len(),
        ensures
            up == kernel.states()[id as int].up,
    {
        kernel.is_process_up(id)
    }
}

} // verus!
