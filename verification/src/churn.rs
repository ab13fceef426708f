//! The churn schedule: the declared joins, leaves, failures and recoveries
//! of a run, and the events that they become.

use vstd::prelude::*;
use crate::event::{ChurnKind, Event, ProcessId, Time, churn_event};

verus! {

/// The actions that a churn schedule can name.
#[derive(Clone, Copy, Debug, PartialEq, Eq, Structural)]
pub enum ChurnAction {
    Join,
    Leave,
    Fail,
    Recover,
    LeaveId,
    FailId,
    RecoverId,
    End,
}

/// One line of a churn schedule: a time, the name of an action and its
/// number, which is a count of processes, or a process id for the actions
/// that end in `-id`, and without meaning for `end`.
#[derive(Clone, Debug)]
pub struct ChurnEntry {
    pub time: Time,
    pub action: String,
    pub num: ProcessId,
}

/// The action of a name, for the names that stand for one.
pub open spec fn action_named(name: Seq<char>) -> Option<ChurnAction> {
    if name == "join"@ {
        Some(ChurnAction::Join)
    } else if name == "leave"@ {
        Some(ChurnAction::Leave)
    } else if name == "fail"@ {
        Some(ChurnAction::Fail)
    } else if name == "recover"@ {
        Some(ChurnAction::Recover)
    } else if name == "leave-id"@ {
        Some(ChurnAction::LeaveId)
    } else if name == "fail-id"@ {
        Some(ChurnAction::FailId)
    } else if name == "recover-id"@ {
        Some(ChurnAction::RecoverId)
    } else if name == "end"@ {
        Some(ChurnAction::End)
    } else {
        None
    }
}

/// The churn action of the kernel for a named action and its number.
pub open spec fn kind_of(action: ChurnAction, num: ProcessId) -> ChurnKind {
    match action {
        ChurnAction::Join => ChurnKind::Join { num_proc: num },
        ChurnAction::Leave => ChurnKind::Leave { num_proc: num },
        ChurnAction::Fail => ChurnKind::Fail { num_proc: num },
        ChurnAction::Recover => ChurnKind::Recover { num_proc: num },
        ChurnAction::LeaveId => ChurnKind::LeaveId { id: num },
        ChurnAction::FailId => ChurnKind::FailId { id: num },
        ChurnAction::RecoverId => ChurnKind::RecoverId { id: num },
        ChurnAction::End => ChurnKind::End,
    }
}

/// Whether an entry names an action.
pub open spec fn is_known(entry: ChurnEntry) -> bool {
    action_named(entry.action@) is Some
}

/// The event of an entry that names an action.
pub open spec fn entry_event(entry: ChurnEntry) -> Event {
    churn_event(entry.time, kind_of(action_named(entry.action@)->0, entry.num))
}

/// Whether every entry names an action.
pub open spec fn all_known(entries: Seq<ChurnEntry>) -> bool {
    forall|i: int| 0 <= i < entries.len() ==> is_known(#[trigger] entries[i])
}

/// The events of a schedule whose entries all name an action, in order.
pub open spec fn schedule_of(entries: Seq<ChurnEntry>) -> Seq<Event> {
    entries.map_values(|entry: ChurnEntry| entry_event(entry))
}

/// Whether a schedule ends the run.
pub open spec fn has_end(entries: Seq<ChurnEntry>) -> bool {
    exists|i: int|
        0 <= i < entries.len() && action_named((#[trigger] entries[i]).action@) == Some(
            ChurnAction::End,
        )
}

/// The action that a name stands for, if it stands for one.
pub fn parse_action(name: &String) -> (r: Option<ChurnAction>)
    ensures
        r == action_named(name@),
{
    if *name == "join".to_string() {
        Some(ChurnAction::Join)
    } else if *name == "leave".to_string() {
        Some(ChurnAction::Leave)
    } else if *name == "fail".to_string() {
        Some(ChurnAction::Fail)
    } else if *name == "recover".to_string() {
        Some(ChurnAction::Recover)
    } else if *name == "leave-id".to_string() {
        Some(ChurnAction::LeaveId)
    } else if *name == "fail-id".to_string() {
        Some(ChurnAction::FailId)
    } else if *name == "recover-id".to_string() {
        Some(ChurnAction::RecoverId)
    } else if *name == "end".to_string() {
        Some(ChurnAction::End)
    } else {
        None
    }
}

/// The churn action of the kernel for a named action and its number.
pub fn churn_kind(action: ChurnAction, num: ProcessId) -> (kind: ChurnKind)
    ensures
        kind == kind_of(action, num),
{
    match action {
        ChurnAction::Join => ChurnKind::Join { num_proc: num },
        ChurnAction::Leave => ChurnKind::Leave { num_proc: num },
        ChurnAction::Fail => ChurnKind::Fail { num_proc: num },
        ChurnAction::Recover => ChurnKind::Recover { num_proc: num },
        ChurnAction::LeaveId => ChurnKind::LeaveId { id: num },
        ChurnAction::FailId => ChurnKind::FailId { id: num },
        ChurnAction::RecoverId => ChurnKind::RecoverId { id: num },
        ChurnAction::End => ChurnKind::End,
    }
}

/// What a schedule asks for: its events in order, and whether one of them
/// ends the run.
pub struct Schedule {
    pub events: Vec<Event>,
    pub exists_end: bool,
}

/// Reads a schedule. Where every entry names an action, the result holds
/// their events; else it is the place of the first entry that names none.
pub fn read_schedule(entries: &Vec<ChurnEntry>) -> (r: Result<Schedule, usize>)
    ensures
        match r {
            Ok(schedule) => {
                &&& all_known(entries@)
                &&& schedule.events@ == schedule_of(entries@)
                &&& schedule.exists_end == has_end(entries@)
            },
            Err(place) => {
                &&& place < entries@.len()
                &&& !is_known(entries@[place as int])
                &&& all_known(entries@.take(place as int))
            },
        },
{
    let mut events: Vec<Event> = Vec::new();
    let mut exists_end = false;
    let mut i: usize = 0;
    while i < entries.len()
        invariant
            i <= entries@.len(),
            all_known(entries@.take(i as int)),
            events@ == schedule_of(entries@.take(i as int)),
            exists_end == has_end(entries@.take(i as int)),
        decreases entries.len() - i,
    {
        let entry = &entries[i];
        let ghost before = entries@.take(i as int);
        let ghost upto = entries@.take(i + 1);
        match parse_action(&entry.action) {
            None => {
                return Err(i);
            },
            Some(action) => {
                events.push(Event::new_churn(entry.time, churn_kind(action, entry.num)));
                proof {
                    assert(upto =~= before.push(*entry));
                    assert(schedule_of(upto) =~= schedule_of(before).push(entry_event(*entry)));
                    assert forall|k: int| 0 <= k < upto.len() implies is_known(
                        #[trigger] upto[k],
                    ) by {
                        if k < i {
                            assert(upto[k] == before[k]);
                        }
                    }
                    if has_end(before) {
                        let k = choose|k: int|
                            0 <= k < before.len() && action_named((#[trigger] before[k]).action@)
                                == Some(ChurnAction::End);
                        assert(upto[k] == before[k]);
                    }
                    if action == ChurnAction::End {
                        assert(upto[i as int] == *entry);
                    }
                    if has_end(upto) && action != ChurnAction::End {
                        let k = choose|k: int|
                            0 <= k < upto.len() && action_named((#[trigger] upto[k]).action@)
                                == Some(ChurnAction::End);
                        assert(k < i);
                        assert(before[k] == upto[k]);
                    }
                }
                if let ChurnAction::End = action {
                    exists_end = true;
                }
            },
        }
        i += 1;
    }
    proof {
        assert(entries@.take(i as int) =~= entries@);
    }
    Ok(Schedule { events, exists_end })
}

} // verus!
