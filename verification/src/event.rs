//! The event model: timestamps, process identifiers, event kinds and the
//! order in which events leave the queue.

use vstd::prelude::*;

verus! {

/// Virtual time. Advances only when an event is dispatched.
pub type Time = i32;

/// Dense index of a process, `0..n`.
pub type ProcessId = u32;

/// Handle of an operation. The code that runs an operation is kept by the
/// application; the kernel only carries the handle along with the event.
pub type OpId = u64;

/// The handle carried by events that the kernel schedules for itself.
pub const KERNEL_OP: OpId = 0;

/// A scheduled change of the up/down status of processes.
#[derive(Clone, Copy, Debug, PartialEq, Eq, Structural)]
pub enum ChurnKind {
    /// `num_proc` processes that never joined become alive.
    Join { num_proc: ProcessId },
    /// `num_proc` live processes leave gracefully.
    Leave { num_proc: ProcessId },
    /// `num_proc` live processes fail without warning.
    Fail { num_proc: ProcessId },
    /// `num_proc` processes that are down become alive again.
    Recover { num_proc: ProcessId },
    /// Like `Leave`, for one given process.
    LeaveId { id: ProcessId },
    /// Like `Fail`, for one given process.
    FailId { id: ProcessId },
    /// Like `Recover`, for one given process.
    RecoverId { id: ProcessId },
    /// Ends the simulation.
    End,
}

/// What an event is.
#[derive(Clone, Copy, Debug, PartialEq, Eq, Structural)]
pub enum EventKind {
    /// A local timer: the generation of the process that set it, the period
    /// and the number of firings that remain (`0` stands for "forever").
    Local(u16, Time, u16),
    /// A message from another process.
    Message,
    /// A churn action of the kernel.
    Churn(ChurnKind),
    /// A snapshot of the kernel.
    Save,
}

/// A unit of work on the timeline.
#[derive(Clone, Copy, Debug, PartialEq, Eq, Structural)]
pub struct Event {
    pub ts: Time,
    pub target: ProcessId,
    pub op: OpId,
    pub kind: EventKind,
}

/// The effect of a churn action on the number of live processes:
/// `1` where it brings processes up, `-1` where it takes them down, `0` for `End`.
pub open spec fn churn_sign(kind: ChurnKind) -> int {
    match kind {
        ChurnKind::Join { .. } | ChurnKind::Recover { .. } | ChurnKind::RecoverId { .. } => 1,
        ChurnKind::Leave { .. } | ChurnKind::LeaveId { .. } => -1,
        ChurnKind::Fail { .. } | ChurnKind::FailId { .. } => -1,
        ChurnKind::End => 0,
    }
}

/// The name under which a churn action is logged.
pub open spec fn churn_name(kind: ChurnKind) -> Seq<char> {
    match kind {
        ChurnKind::Join { .. } => "join"@,
        ChurnKind::Leave { .. } | ChurnKind::LeaveId { .. } => "leave"@,
        ChurnKind::Fail { .. } | ChurnKind::FailId { .. } => "fail"@,
        ChurnKind::Recover { .. } | ChurnKind::RecoverId { .. } => "recover"@,
        ChurnKind::End => "end"@,
    }
}

/// The name under which an event kind is logged.
pub open spec fn kind_name(kind: EventKind) -> Seq<char> {
    match kind {
        EventKind::Local(_, _, _) => "local"@,
        EventKind::Message => "message"@,
        EventKind::Churn(k) => churn_name(k),
        EventKind::Save => "save"@,
    }
}

/// `1` for the event that ends the run, `0` for every other one: among
/// events with one timestamp the end comes last.
pub open spec fn priority(kind: EventKind) -> int {
    if kind == EventKind::Churn(ChurnKind::End) { 1 } else { 0 }
}

/// `a` leaves the queue strictly before `b`, as far as the timeline decides:
/// by timestamp, then by priority.
pub open spec fn dispatched_before(a: Event, b: Event) -> bool {
    a.ts < b.ts || (a.ts == b.ts && priority(a.kind) < priority(b.kind))
}

/// The churn event of the kernel at `ts`.
pub open spec fn churn_event(ts: Time, kind: ChurnKind) -> Event {
    Event { ts, target: 0, op: KERNEL_OP, kind: EventKind::Churn(kind) }
}

/// The snapshot event at `ts`.
pub open spec fn save_event(ts: Time) -> Event {
    Event { ts, target: 0, op: KERNEL_OP, kind: EventKind::Save }
}

/// The event that ends the run at `ts`.
pub open spec fn end_event(ts: Time) -> Event {
    churn_event(ts, ChurnKind::End)
}

impl ChurnKind {
    /// The sign of the action's effect on the number of live processes.
    pub fn to_int(&self) -> (r: i32)
        ensures
            r == churn_sign(*self),
    {
        match self {
            ChurnKind::Join { .. } => 1,
            ChurnKind::Leave { .. } | ChurnKind::LeaveId { .. } => -1,
            ChurnKind::Fail { .. } | ChurnKind::FailId { .. } => -1,
            ChurnKind::Recover { .. } | ChurnKind::RecoverId { .. } => 1,
            ChurnKind::End => 0,
        }
    }

    /// The action's name: `join`, `leave`, `fail`, `recover` or `end`.
    pub fn name(&self) -> (r: String)
        ensures
            r@ == churn_name(*self),
    {
        match self {
            ChurnKind::Join { .. } => "join".to_string(),
            ChurnKind::Leave { .. } | ChurnKind::LeaveId { .. } => "leave".to_string(),
            ChurnKind::Fail { .. } | ChurnKind::FailId { .. } => "fail".to_string(),
            ChurnKind::Recover { .. } | ChurnKind::RecoverId { .. } => "recover".to_string(),
            ChurnKind::End => "end".to_string(),
        }
    }
}

impl EventKind {
    /// The kind's name: `local`, `message`, `save` or the churn action's name.
    pub fn name(&self) -> (r: String)
        ensures
            r@ == kind_name(*self),
    {
        match self {
            EventKind::Local(_, _, _) => "local".to_string(),
            EventKind::Message => "message".to_string(),
            EventKind::Churn(k) => k.name(),
            EventKind::Save => "save".to_string(),
        }
    }

    /// Whether this is the event that ends the run.
    pub fn is_end(&self) -> (r: bool)
        ensures
            r == (priority(*self) == 1),
    {
        match self {
            EventKind::Churn(ChurnKind::End) => true,
            _ => false,
        }
    }
}

impl Event {
    /// A churn event of the kernel at `ts`.
    pub fn new_churn(ts: Time, churn_kind: ChurnKind) -> (e: Event)
        ensures
            e == churn_event(ts, churn_kind),
    {
        Event { ts, target: 0, op: KERNEL_OP, kind: EventKind::Churn(churn_kind) }
    }

    /// A snapshot event at `ts`.
    pub fn new_save(ts: Time) -> (e: Event)
        ensures
            e == save_event(ts),
    {
        Event { ts, target: 0, op: KERNEL_OP, kind: EventKind::Save }
    }

    /// The event that ends the run at `ts`.
    pub fn new_end(ts: Time) -> (e: Event)
        ensures
            e == end_event(ts),
    {
        Event { ts, target: 0, op: KERNEL_OP, kind: EventKind::Churn(ChurnKind::End) }
    }

    /// Whether `self` is dispatched strictly before `other` by timestamp and
    /// priority.
    pub fn before(&self, other: &Event) -> (r: bool)
        ensures
            r == dispatched_before(*self, *other),
    {
        if self.ts != other.ts {
            self.ts < other.ts
        } else {
            !self.kind.is_end() && other.kind.is_end()
        }
    }
}

} // verus!
