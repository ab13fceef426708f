use corten::event::{ChurnKind, Event, EventKind};
use corten::kernel::{Action, SimulationKernel};
use corten::process::{Pool, Process, ProcessState, ScheduleError};
use corten::queue::EventQueue;
use corten::rng::draw_ids;
use rand::Rng;

fn kernel_of(n: u32, seed: u64) -> SimulationKernel {
    let mut kernel = SimulationKernel::new(seed);
    for id in 0..n {
        kernel.add_process(id, 0);
    }
    kernel
}

fn churn(kernel: &mut SimulationKernel, ts: i32, kind: ChurnKind) -> Vec<u32> {
    kernel.add_churn_event(ts, kind);
    let d = kernel.step(false).unwrap();
    assert_eq!(d.event, Event::new_churn(ts, kind));
    match d.action {
        Action::Churn(ids) => ids,
        other => panic!("a churn event gives churn, not {:?}", other),
    }
}

#[test]
fn new_kernel_is_empty() {
    let kernel = SimulationKernel::new(3);
    assert_eq!(kernel.len(), 0);
    assert_eq!(kernel.get_time(), 0);
    assert_eq!(kernel.events_processed(), 0);
    assert_eq!(kernel.events_pending(), 0);
    assert!(!kernel.id_in_use(0));
    assert!(!kernel.is_process_up(0));
    assert_eq!(kernel.get_process(0), None);
    assert!(kernel.get_processes().is_empty());
}

#[test]
fn added_processes_are_down_and_dense() {
    let mut kernel = SimulationKernel::new(0);
    kernel.add_process(0, 5);
    kernel.add_process(1, 6);
    assert_eq!(kernel.len(), 2);
    assert_eq!(
        kernel.get_processes(),
        vec![
            Process { id: 0, generation: 0, op_duration: 5, simulation_stops: false },
            Process { id: 1, generation: 0, op_duration: 6, simulation_stops: false },
        ]
    );
    assert!(kernel.id_in_use(1));
    assert!(!kernel.id_in_use(2));
    assert!(!kernel.is_process_up(1));
    assert!(!kernel.has_process_joined(1));
    assert_eq!(kernel.get_processes_ids_not_joined(), vec![0, 1]);
    assert!(kernel.get_processes_ids_up().is_empty());
    assert!(kernel.get_processes_ids_down().is_empty());
    assert_eq!(kernel.get_processes_ids(Pool::NotJoined), vec![0, 1]);
}

#[test]
fn lifecycle_of_one_process() {
    let mut kernel = kernel_of(3, 0);
    assert!(!kernel.recover_process(5, 1));
    assert!(!kernel.fail_process(5, 1));
    assert!(!kernel.leave_process(5, 1));
    assert_eq!(kernel.get_time(), 0);
    assert!(kernel.join_process(10, 1));
    assert_eq!(kernel.get_time(), 10);
    assert!(kernel.is_process_up(1));
    assert_eq!(kernel.get_process(1).unwrap().generation, 1);
    assert!(!kernel.join_process(11, 1));
    assert!(!kernel.recover_process(11, 1));
    assert_eq!(kernel.get_time(), 10);
    assert!(kernel.fail_process(20, 1));
    assert!(!kernel.is_process_up(1));
    assert!(kernel.has_process_joined(1));
    assert_eq!(kernel.get_process(1).unwrap().generation, 1);
    assert_eq!(kernel.get_processes_ids_down(), vec![1]);
    assert_eq!(kernel.get_processes_ids_not_joined(), vec![0, 2]);
    assert!(!kernel.join_process(25, 1));
    assert!(kernel.recover_process(30, 1));
    assert_eq!(kernel.get_time(), 30);
    assert_eq!(kernel.get_process(1).unwrap().generation, 2);
    assert!(kernel.leave_process(40, 1));
    assert!(kernel.recover_process(50, 1));
    assert_eq!(kernel.get_process(1).unwrap().generation, 3);
    assert!(!kernel.join_process(60, 3));
    assert!(!kernel.recover_process(60, 3));
    assert!(!kernel.fail_process(60, 3));
    assert_eq!(kernel.get_processes_up(), vec![kernel.get_process(1).unwrap()]);
}

#[test]
fn churn_draws_from_the_right_pool() {
    let mut kernel = kernel_of(10, 42);
    let joined = churn(&mut kernel, 0, ChurnKind::Join { num_proc: 6 });
    assert_eq!(joined.len(), 6);
    let mut distinct = joined.clone();
    distinct.sort();
    distinct.dedup();
    assert_eq!(distinct.len(), 6);
    assert!(joined.iter().all(|id| *id < 10));
    // The draw is a choice, not the head of the pool in every run.
    let mut other = kernel_of(10, 43);
    let elsewhere = churn(&mut other, 0, ChurnKind::Join { num_proc: 6 });
    let mut again = kernel_of(10, 42);
    assert_eq!(churn(&mut again, 0, ChurnKind::Join { num_proc: 6 }), joined);
    assert!(joined != vec![0, 1, 2, 3, 4, 5] || elsewhere != vec![0, 1, 2, 3, 4, 5]);
    for id in &joined {
        assert!(kernel.join_process(0, *id));
    }
    // Nothing was applied by the draw itself.
    assert_eq!(kernel.get_processes_ids_up().len(), 6);

    let failing = churn(&mut kernel, 5, ChurnKind::Fail { num_proc: 2 });
    assert_eq!(failing.len(), 2);
    assert!(failing.iter().all(|id| joined.contains(id)));
    for id in &failing {
        assert!(kernel.fail_process(5, *id));
    }
    let leaving = churn(&mut kernel, 6, ChurnKind::Leave { num_proc: 100 });
    assert_eq!(leaving.len(), 4);
    assert!(leaving.iter().all(|id| joined.contains(id) && !failing.contains(id)));
    let recovering = churn(&mut kernel, 7, ChurnKind::Recover { num_proc: 5 });
    let mut recovering_sorted = recovering.clone();
    recovering_sorted.sort();
    let mut failing_sorted = failing.clone();
    failing_sorted.sort();
    assert_eq!(recovering_sorted, failing_sorted);
    let more = churn(&mut kernel, 8, ChurnKind::Join { num_proc: 10 });
    assert_eq!(more.len(), 4);
    assert!(more.iter().all(|id| !joined.contains(id)));
    assert!(churn(&mut kernel, 9, ChurnKind::Join { num_proc: 0 }).is_empty());
    assert_eq!(kernel.events_processed(), 6);
}

#[test]
fn churn_by_id_picks_only_who_is_eligible() {
    let mut kernel = kernel_of(3, 0);
    assert!(churn(&mut kernel, 0, ChurnKind::FailId { id: 1 }).is_empty());
    assert!(churn(&mut kernel, 0, ChurnKind::LeaveId { id: 1 }).is_empty());
    assert!(churn(&mut kernel, 0, ChurnKind::RecoverId { id: 1 }).is_empty());
    assert!(kernel.join_process(0, 1));
    assert_eq!(churn(&mut kernel, 1, ChurnKind::LeaveId { id: 1 }), vec![1]);
    assert_eq!(churn(&mut kernel, 1, ChurnKind::FailId { id: 1 }), vec![1]);
    assert!(churn(&mut kernel, 1, ChurnKind::RecoverId { id: 1 }).is_empty());
    assert!(kernel.fail_process(1, 1));
    assert_eq!(churn(&mut kernel, 2, ChurnKind::RecoverId { id: 1 }), vec![1]);
    assert!(churn(&mut kernel, 2, ChurnKind::FailId { id: 1 }).is_empty());
    assert!(churn(&mut kernel, 2, ChurnKind::FailId { id: 7 }).is_empty());
    assert!(churn(&mut kernel, 2, ChurnKind::RecoverId { id: 7 }).is_empty());
}

#[test]
fn draw_takes_distinct_members() {
    let mut kernel = SimulationKernel::new(11);
    let pool = vec![3, 5, 8, 13, 21, 34, 55];
    for num in 0..10u32 {
        let chosen = draw_ids(&mut kernel.rng, &pool, num);
        assert_eq!(chosen.len(), (num as usize).min(pool.len()));
        let mut distinct = chosen.clone();
        distinct.sort();
        distinct.dedup();
        assert_eq!(distinct.len(), chosen.len());
        assert!(chosen.iter().all(|id| pool.contains(id)));
    }
    assert!(draw_ids(&mut kernel.rng, &Vec::new(), 3).is_empty());
}

#[test]
fn seeds_decide_the_random_source() {
    let mut a = SimulationKernel::new(5);
    let mut b = SimulationKernel::new(5);
    let mut c = SimulationKernel::new(6);
    let xs: Vec<u64> = (0..8).map(|_| a.rng.gen()).collect();
    let ys: Vec<u64> = (0..8).map(|_| b.rng.gen()).collect();
    let zs: Vec<u64> = (0..8).map(|_| c.rng.gen()).collect();
    assert_eq!(xs, ys);
    assert_ne!(xs, zs);
    let mut copy = a.snapshot().rng;
    let next: u64 = a.rng.gen();
    let same: u64 = copy.gen();
    assert_eq!(next, same);
}

#[test]
fn messages_reach_only_processes_that_are_up() {
    let mut kernel = kernel_of(2, 0);
    assert!(kernel.join_process(0, 0));
    kernel.add_event(Event { ts: 5, target: 1, op: 1, kind: EventKind::Message });
    kernel.add_event(Event { ts: 6, target: 0, op: 2, kind: EventKind::Message });
    kernel.add_event(Event { ts: 7, target: 9, op: 3, kind: EventKind::Message });
    let d = kernel.step(false).unwrap();
    assert!(matches!(d.action, Action::Drop));
    assert_eq!(kernel.events_processed(), 0);
    assert_eq!(kernel.get_time(), 5);
    let d = kernel.step(false).unwrap();
    assert!(matches!(d.action, Action::Deliver));
    assert_eq!(d.event.op, 2);
    assert_eq!(kernel.events_processed(), 1);
    let d = kernel.step(false).unwrap();
    assert!(matches!(d.action, Action::Drop));
    assert_eq!(kernel.get_time(), 7);
    assert!(kernel.step(false).is_none());
    assert_eq!(kernel.get_time(), 7);
}

#[test]
fn timers_reach_only_the_incarnation_that_set_them() {
    let mut kernel = kernel_of(1, 0);
    assert!(kernel.join_process(0, 0));
    let first = kernel.get_process(0).unwrap();
    assert_eq!(first.call(&mut kernel, 1, 10, 0), Ok(()));
    assert_eq!(first.call(&mut kernel, 2, 40, 0), Ok(()));
    let d = kernel.step(false).unwrap();
    assert_eq!(d.event, Event { ts: 10, target: 0, op: 1, kind: EventKind::Local(1, 10, 1) });
    assert!(matches!(d.action, Action::Deliver));
    assert!(kernel.fail_process(20, 0));
    assert!(kernel.recover_process(30, 0));
    let second = kernel.get_process(0).unwrap();
    assert_eq!(second.generation, 2);
    assert_eq!(second.call(&mut kernel, 3, 15, 0), Ok(()));
    let d = kernel.step(false).unwrap();
    assert_eq!(d.event.op, 2);
    assert!(matches!(d.action, Action::Drop));
    let d = kernel.step(false).unwrap();
    assert_eq!(d.event, Event { ts: 45, target: 0, op: 3, kind: EventKind::Local(2, 15, 1) });
    assert!(matches!(d.action, Action::Deliver));
    assert_eq!(kernel.events_processed(), 2);
}

#[test]
fn save_event_says_whether_the_run_stops() {
    let mut kernel = kernel_of(1, 0);
    kernel.add_save_event(10);
    kernel.add_save_event(20);
    let d = kernel.step(false).unwrap();
    assert_eq!(d.event, Event::new_save(10));
    assert!(matches!(d.action, Action::Save { stop: false }));
    assert_eq!(kernel.events_processed(), 1);
    let d = kernel.step(true).unwrap();
    assert!(matches!(d.action, Action::Save { stop: true }));
    assert_eq!(kernel.events_processed(), 1);
    assert_eq!(kernel.get_time(), 20);
}

#[test]
fn send_schedules_a_message_after_the_latency() {
    let mut kernel = kernel_of(2, 0);
    assert!(kernel.join_process(100, 0));
    let p = kernel.get_process(0).unwrap();
    assert_eq!(p.send(&mut kernel, 7, 1, None), Ok(()));
    assert_eq!(kernel.events_pending(), 0);
    assert_eq!(p.send(&mut kernel, 7, 1, Some(25)), Ok(()));
    assert_eq!(kernel.events_pending(), 1);
    assert_eq!(p.send(&mut kernel, 8, 1, Some(i32::MAX)), Err(ScheduleError::TimeOverflow));
    assert_eq!(kernel.events_pending(), 1);
    let d = kernel.step(false).unwrap();
    assert_eq!(d.event, Event { ts: 125, target: 1, op: 7, kind: EventKind::Message });
    assert_eq!(p.get_time(&kernel), 125);
    assert!(p.is_process_up(&kernel, 0));
    assert!(!p.is_process_up(&kernel, 1));
    assert_eq!(p.get_global_view(&kernel), vec![p]);
}

#[test]
fn periodic_timers_count_down() {
    let mut kernel = kernel_of(1, 0);
    assert!(kernel.join_process(0, 0));
    let p = kernel.get_process(0).unwrap();
    assert_eq!(p.periodic(&mut kernel, 4, 10, 3, 2), Ok(()));
    let mut fired = Vec::new();
    while let Some(d) = kernel.step(false) {
        assert!(matches!(d.action, Action::Deliver));
        fired.push(d.event);
        assert_eq!(p.receive(&mut kernel, d.event, -1), Ok(()));
    }
    assert_eq!(
        fired,
        vec![
            Event { ts: 12, target: 0, op: 4, kind: EventKind::Local(1, 10, 3) },
            Event { ts: 21, target: 0, op: 4, kind: EventKind::Local(1, 10, 2) },
            Event { ts: 30, target: 0, op: 4, kind: EventKind::Local(1, 10, 1) },
        ]
    );
    assert_eq!(p.reschedule_periodic(&mut kernel, 4, 10, 1, 0), Ok(()));
    assert_eq!(kernel.events_pending(), 0);
    assert_eq!(p.reschedule_periodic(&mut kernel, 4, 10, 0, 0), Ok(()));
    let d = kernel.step(false).unwrap();
    assert_eq!(d.event.kind, EventKind::Local(1, 10, 0));
    assert_eq!(p.periodic(&mut kernel, 4, i32::MAX, 3, 0), Err(ScheduleError::TimeOverflow));
    assert_eq!(p.call(&mut kernel, 4, i32::MIN, i32::MIN), Err(ScheduleError::TimeOverflow));
    let message = Event { ts: 40, target: 0, op: 5, kind: EventKind::Message };
    assert_eq!(p.receive(&mut kernel, message, 0), Ok(()));
    assert_eq!(kernel.events_pending(), 0);
}

#[test]
fn stops_flag_reaches_every_process() {
    let mut kernel = kernel_of(3, 0);
    assert!(kernel.join_process(0, 2));
    kernel.update_process_simulation_stops(true);
    let handles = kernel.get_processes();
    assert!(handles.iter().all(|p| p.simulation_stops));
    assert_eq!(handles[2].generation, 1);
    assert!(kernel.is_process_up(2));
    kernel.update_process_simulation_stops(false);
    assert!(kernel.get_processes().iter().all(|p| !p.simulation_stops));
}

#[test]
fn snapshot_holds_the_whole_state() {
    let mut kernel = kernel_of(3, 9);
    assert!(kernel.join_process(4, 1));
    kernel.add_end_event(90);
    kernel.add_event(Event { ts: 50, target: 1, op: 3, kind: EventKind::Local(1, 7, 0) });
    kernel.add_event(Event { ts: 50, target: 1, op: 3, kind: EventKind::Local(1, 7, 0) });
    kernel.add_event(Event { ts: 20, target: 1, op: 6, kind: EventKind::Message });
    kernel.step(false).unwrap();
    let snapshot = kernel.snapshot();
    assert_eq!(snapshot.current_ts, 20);
    assert_eq!(snapshot.events_processed, 1);
    assert_eq!(snapshot.events.len(), 3);
    assert_eq!(
        snapshot.processes[1],
        ProcessState { up: true, process: Process { id: 1, generation: 1, op_duration: 0, simulation_stops: false } }
    );
    let mut resumed = SimulationKernel::load_state(snapshot, None).unwrap();
    assert_eq!(resumed.get_processes(), kernel.get_processes());
    assert_eq!(resumed.get_processes_ids_up(), vec![1]);
    assert_eq!(resumed.get_time(), 20);
    assert_eq!(resumed.events_processed(), 1);
    let a: u64 = kernel.rng.gen();
    let b: u64 = resumed.rng.gen();
    assert_eq!(a, b);
    loop {
        let x = kernel.step(false);
        let y = resumed.step(false);
        match (x, y) {
            (None, None) => break,
            (Some(x), Some(y)) => assert_eq!(x.event, y.event),
            _ => panic!("one run ended before the other"),
        }
    }
    assert_eq!(resumed.get_time(), 90);
}

#[test]
fn snapshot_with_ids_out_of_place_is_refused() {
    let kernel = kernel_of(2, 0);
    let mut snapshot = kernel.snapshot();
    snapshot.processes.swap(0, 1);
    assert!(SimulationKernel::load_state(snapshot, None).is_none());
    let mut reseeded = SimulationKernel::load_state(kernel.snapshot(), Some(77)).unwrap();
    let mut expected = SimulationKernel::new(77);
    let a: u64 = reseeded.rng.gen();
    let b: u64 = expected.rng.gen();
    assert_eq!(a, b);
}

#[test]
fn test_serde_event_queue() {
    let mut queue = EventQueue::new();
    queue.add_event(Event::new_churn(0, ChurnKind::Join { num_proc: 8 }));
    queue.add_event(Event::new_churn(140, ChurnKind::LeaveId { id: 1 }));

    let flat: Vec<(i32, u32, u64, String, u32)> = queue
        .events()
        .iter()
        .map(|e| match e.kind {
            EventKind::Churn(ChurnKind::Join { num_proc }) => (e.ts, e.target, e.op, "join".to_string(), num_proc),
            EventKind::Churn(ChurnKind::LeaveId { id }) => (e.ts, e.target, e.op, "leave-id".to_string(), id),
            _ => panic!("no such event was added"),
        })
        .collect();
    let encoded: Vec<u8> = bincode::serialize(&flat).unwrap();
    let decoded: Vec<(i32, u32, u64, String, u32)> = bincode::deserialize(&encoded[..]).unwrap();
    assert_eq!(decoded, flat);

    let mut restored = EventQueue::new();
    for (ts, _, _, action, num) in decoded {
        let kind = if action == "join" { ChurnKind::Join { num_proc: num } } else { ChurnKind::LeaveId { id: num } };
        restored.add_event(Event::new_churn(ts, kind));
    }
    assert_eq!(restored.len(), 2);
    assert_eq!(restored.next_event(), queue.next_event());
    assert_eq!(restored.next_event(), queue.next_event());
    assert_eq!(restored.next_event(), None);
}

#[test]
fn test_serde_process() {
    let id = 0;
    let process = Process::new(id, 0);

    let flat = (process.id, process.generation, process.op_duration, process.simulation_stops);
    let serialized = serde_yaml::to_string(&flat).unwrap();
    let from_yaml: (u32, u16, i32, bool) = serde_yaml::from_str(&serialized).unwrap();
    assert_eq!(from_yaml, flat);

    let encoded: Vec<u8> = bincode::serialize(&flat).unwrap();
    let decoded: (u32, u16, i32, bool) = bincode::deserialize(&encoded[..]).unwrap();
    let restored = Process { id: decoded.0, generation: decoded.1, op_duration: decoded.2, simulation_stops: decoded.3 };
    assert_eq!(restored, process);

    println!("{:?}", process);
}
