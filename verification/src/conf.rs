//! The configuration of a run, and how a kernel is set up from it.

use vstd::prelude::*;
use vstd::multiset::*;
use crate::asynchrony::{AsynchronyKind, OpDurationError, get_op_duration, op_duration_of};
use crate::churn::{ChurnEntry, all_known, has_end, is_known, read_schedule, schedule_of};
use crate::event::{Event, ProcessId, Time, save_event};
use crate::kernel::{SimulationKernel, Snapshot, dense, joined};
use crate::rng::{rng_state, seed_state};
use crate::process::{Pool, Process, ProcessState, in_pool, pool_ids};

verus! {

/// The configuration of a run.
#[derive(Clone, Debug)]
pub struct Conf {
    /// The number of processes.
    pub n: ProcessId,
    /// The kind of asynchrony of local clocks.
    pub asynchrony: AsynchronyKind,
    /// The duration of an operation, which asynchrony scales.
    pub op_duration: Option<Time>,
    /// The file of the churn schedule, if there is one.
    pub churn_file: Option<String>,
    /// The seed of the random source.
    pub seed: u64,
    /// The time at which a snapshot is taken, if one is.
    pub save: Option<Time>,
    /// Whether the run ends with the snapshot.
    pub save_and_stop: bool,
    /// The file that the snapshot is written to.
    pub save_filename: String,
    /// The file of the snapshot that the run resumes from, if it does.
    pub load: Option<String>,
    /// The seed of a new random source for a resumed run.
    pub new_seed: Option<u64>,
}

/// Why a kernel could not be set up.
#[derive(Clone, Copy, Debug, PartialEq, Eq, Structural)]
pub enum ConfigError {
    /// The number of applications differs from the configured number of
    /// processes.
    AppCountMismatch,
    /// Asynchrony is enabled without a usable duration of an operation.
    OpDuration(OpDurationError),
    /// The entry at this place of the churn schedule names no action.
    UnknownAction(usize),
    /// The snapshot that the run resumes from is missing or unsound.
    BadSnapshot,
}

/// What setting up a kernel found out.
#[derive(Debug)]
pub struct Configured {
    /// Whether an event ends the run: the end of a churn schedule, or a
    /// snapshot that stops it.
    pub simulation_stops: bool,
    /// The processes that were started and whose applications are to be
    /// initialised, in increasing order.
    pub started: Vec<ProcessId>,
}

/// The states of the processes after each one that never joined has joined.
pub open spec fn all_joined(states: Seq<ProcessState>) -> Seq<ProcessState> {
    Seq::new(
        states.len(),
        |i: int|
            if in_pool(Pool::NotJoined, states[i]) {
                joined(states[i])
            } else {
                states[i]
            },
    )
}

/// The events of a churn schedule, if there is one.
pub open spec fn churn_events(churn: Option<Seq<ChurnEntry>>) -> Multiset<Event> {
    match churn {
        None => Multiset::empty(),
        Some(entries) => schedule_of(entries).to_multiset(),
    }
}

/// The snapshot event of a configuration, if it asks for one.
pub open spec fn save_events(save: Option<Time>) -> Multiset<Event> {
    match save {
        None => Multiset::empty(),
        Some(ts) => Multiset::singleton(save_event(ts)),
    }
}

/// The entries behind an optional reference to a schedule.
pub open spec fn entries_of(churn: Option<&Vec<ChurnEntry>>) -> Option<Seq<ChurnEntry>> {
    match churn {
        None => None,
        Some(entries) => Some(entries@),
    }
}

/// `place` is the place of the first entry that names no action.
pub open spec fn is_first_unknown(entries: Seq<ChurnEntry>, place: int) -> bool {
    &&& 0 <= place < entries.len()
    &&& !is_known(entries[place])
    &&& all_known(entries.take(place))
}

impl Conf {
    /// The configuration of `n` processes with the default of every other
    /// setting: no asynchrony, no churn, seed zero, no snapshot.
    pub fn new(n: ProcessId) -> (conf: Conf)
        ensures
            conf.n == n,
            conf.asynchrony == AsynchronyKind::NoAsynchrony,
            conf.op_duration is None,
            conf.churn_file is None,
            conf.seed == 0,
            conf.save is None,
            !conf.save_and_stop,
            conf.save_filename@ == "state.bin"@,
            conf.load is None,
            conf.new_seed is None,
    {
        Conf {
            n,
            asynchrony: AsynchronyKind::NoAsynchrony,
            op_duration: None,
            churn_file: None,
            seed: 0,
            save: None,
            save_and_stop: false,
            save_filename: "state.bin".to_string(),
            load: None,
            new_seed: None,
        }
    }
}

impl SimulationKernel {
    /// Starts a run without a churn schedule: every process that never
    /// joined joins now, and the result names them. In a run that resumes
    /// from a snapshot nothing is started.
    pub fn no_churn_specified(&mut self, loaded: bool) -> (started: Vec<ProcessId>)
        requires
            old(self).wf(),
        ensures
            final(self).wf(),
            final(self).pending() == old(self).pending(),
            final(self).now() == old(self).now(),
            final(self).processed() == old(self).processed(),
            final(self).random() == old(self).random(),
            loaded ==> final(self).states() == old(self).states() && started@ == Seq::<
                ProcessId,
            >::empty(),
            !loaded ==> final(self).states() == all_joined(old(self).states()) && started@
                == pool_ids(old(self).states(), Pool::NotJoined, old(self).states().len()),
    {
        let mut started: Vec<ProcessId> = Vec::new();
        if loaded {
            return started;
        }
        proof {
            self.lemma_dense();
        }
        let now = self.get_time();
        let n = self.len();
        let mut i: usize = 0;
        while i < n
            invariant
                i <= n,
                n == old(self).states().len(),
                n <= u32::MAX + 1,
                self.wf(),
                self.states().len() == n,
                self.pending() == old(self).pending(),
                self.now() == old(self).now(),
                now == old(self).now(),
                self.processed() == old(self).processed(),
                self.random() == old(self).random(),
                forall|k: int| 0 <= k < i ==> #[trigger] self.states()[k] == all_joined(old(self).states())[k],
                forall|k: int| i <= k < n ==> #[trigger] self.states()[k] == old(self).states()[k],
                started@ == pool_ids(old(self).states(), Pool::NotJoined, i as nat),
            decreases n - i,
        {
            if self.join_process(now, i as ProcessId) {
                started.push(i as ProcessId);
            }
            i += 1;
        }
        proof {
            assert(self.states() =~= all_joined(old(self).states()));
        }
        started
    }

    /// Schedules the events of a churn schedule, or starts every process
    /// where there is none. A schedule in which an entry names no action is
    /// refused, and nothing changes. Says whether the schedule ends the run.
    pub fn config_churn(&mut self, churn: Option<&Vec<ChurnEntry>>, loaded: bool) -> (r: Result<Configured, ConfigError>)
        requires
            old(self).wf(),
        ensures
            final(self).wf(),
            final(self).now() == old(self).now(),
            final(self).processed() == old(self).processed(),
            final(self).random() == old(self).random(),
            match r {
                Ok(c) => match churn {
                    None => {
                        &&& !c.simulation_stops
                        &&& final(self).pending() == old(self).pending()
                        &&& loaded ==> final(self).states() == old(self).states() && c.started@
                            == Seq::<ProcessId>::empty()
                        &&& !loaded ==> final(self).states() == all_joined(old(self).states())
                            && c.started@ == pool_ids(
                            old(self).states(),
                            Pool::NotJoined,
                            old(self).states().len(),
                        )
                    },
                    Some(entries) => {
                        &&& all_known(entries@)
                        &&& c.simulation_stops == has_end(entries@)
                        &&& c.started@ == Seq::<ProcessId>::empty()
                        &&& final(self).states() == old(self).states()
                        &&& final(self).pending() == old(self).pending().add(
                            schedule_of(entries@).to_multiset(),
                        )
                    },
                },
                Err(e) => {
                    &&& churn matches Some(entries)
                    &&& e matches ConfigError::UnknownAction(place)
                    &&& is_first_unknown(entries@, place as int)
                    &&& final(self).states() == old(self).states()
                    &&& final(self).pending() == old(self).pending()
                },
            },
    {
        match churn {
            None => {
                let started = self.no_churn_specified(loaded);
                Ok(Configured { simulation_stops: false, started })
            },
            Some(entries) => match read_schedule(entries) {
                Err(place) => Err(ConfigError::UnknownAction(place)),
                Ok(schedule) => {
                    let exists_end = schedule.exists_end;
                    self.add_events(schedule.events);
                    Ok(Configured { simulation_stops: exists_end, started: Vec::new() })
                },
            },
        }
    }

    /// Schedules the snapshot that a configuration asks for, if it asks for
    /// one. Says whether the run ends with the snapshot.
    pub fn config_save(&mut self, save: Option<Time>, save_and_stop: bool) -> (stops: bool)
        requires
            old(self).wf(),
        ensures
            final(self).wf(),
            stops == save_and_stop,
            final(self).pending() == old(self).pending().add(save_events(save)),
            final(self).states() == old(self).states(),
            final(self).now() == old(self).now(),
            final(self).processed() == old(self).processed(),
            final(self).random() == old(self).random(),
    {
        broadcast use group_multiset_axioms, group_multiset_properties;

        match save {
            Some(ts) => {
                self.add_save_event(ts);
                proof {
                    assert(self.pending() =~= old(self).pending().add(save_events(save)));
                }
            },
            None => {
                proof {
                    assert(self.pending() =~= old(self).pending().add(save_events(save)));
                }
            },
        }
        save_and_stop
    }

    /// Sets the kernel up for a run: the churn schedule first, then the
    /// snapshot. A schedule in which an entry names no action is refused, and
    /// nothing changes. Says whether an event ends the run.
    pub fn config(&mut self, conf: &Conf, churn: Option<&Vec<ChurnEntry>>) -> (r: Result<Configured, ConfigError>)
        requires
            old(self).wf(),
        ensures
            final(self).wf(),
            final(self).now() == old(self).now(),
            final(self).processed() == old(self).processed(),
            final(self).random() == old(self).random(),
            match r {
                Ok(c) => {
                    &&& churn matches Some(entries) ==> all_known(entries@)
                    &&& c.simulation_stops == (conf.save_and_stop || (churn matches Some(entries)
                        && has_end(entries@)))
                    &&& final(self).pending() == old(self).pending().add(
                        churn_events(entries_of(churn)),
                    ).add(save_events(conf.save))
                    &&& final(self).states() == if churn is None && conf.load is None {
                        all_joined(old(self).states())
                    } else {
                        old(self).states()
                    }
                    &&& c.started@ == if churn is None && conf.load is None {
                        pool_ids(old(self).states(), Pool::NotJoined, old(self).states().len())
                    } else {
                        Seq::<ProcessId>::empty()
                    }
                },
                Err(e) => {
                    &&& churn matches Some(entries)
                    &&& e matches ConfigError::UnknownAction(place)
                    &&& is_first_unknown(entries@, place as int)
                    &&& final(self).states() == old(self).states()
                    &&& final(self).pending() == old(self).pending()
                },
            },
    {
        broadcast use group_multiset_axioms, group_multiset_properties;

        let loaded = conf.load.is_some();
        match self.config_churn(churn, loaded) {
            Err(e) => Err(e),
            Ok(c) => {
                proof {
                    assert(self.pending() =~= old(self).pending().add(
                        churn_events(entries_of(churn)),
                    ));
                }
                let stops = self.config_save(conf.save, conf.save_and_stop);
                Ok(Configured { simulation_stops: c.simulation_stops || stops, started: c.started })
            },
        }
    }
}

/// The states of `n` processes that were added and have not joined.
pub open spec fn fresh_states(n: nat, op_duration: Time) -> Seq<ProcessState> {
    Seq::new(
        n,
        |i: int|
            ProcessState {
                up: false,
                process: Process {
                    id: i as ProcessId,
                    generation: 0,
                    op_duration,
                    simulation_stops: false,
                },
            },
    )
}

/// The states `states` with every process told whether the run stops.
pub open spec fn with_stops(states: Seq<ProcessState>, simulation_stops: bool) -> Seq<ProcessState> {
    Seq::new(
        states.len(),
        |i: int|
            ProcessState {
                process: Process { simulation_stops, ..states[i].process },
                ..states[i]
            },
    )
}

/// Whether a kernel can be made before the churn schedule is read: for a
/// resumed run, from a sound snapshot; else, for as many processes as there
/// are applications, with a usable duration of an operation.
pub open spec fn can_start(apps_len: usize, conf: &Conf, snapshot: &Option<Snapshot>) -> bool {
    if conf.load is Some {
        snapshot matches Some(s) && dense(s.processes@)
    } else {
        conf.n == apps_len && op_duration_of(conf.asynchrony, conf.op_duration) is Ok
    }
}

/// The states of the processes before the churn schedule is read.
pub open spec fn starting_states(conf: &Conf, snapshot: &Option<Snapshot>) -> Seq<ProcessState> {
    if conf.load is Some {
        snapshot->0.processes@
    } else {
        fresh_states(conf.n as nat, op_duration_of(conf.asynchrony, conf.op_duration)->Ok_0)
    }
}

/// The events that wait before the churn schedule is read.
pub open spec fn starting_events(conf: &Conf, snapshot: &Option<Snapshot>) -> Multiset<Event> {
    if conf.load is Some {
        snapshot->0.events@.to_multiset()
    } else {
        Multiset::empty()
    }
}

/// Makes the kernel of a run and sets it up. A run that resumes takes the
/// state of its snapshot; any other run gets `conf.n` processes, which must
/// be as many as there are applications. Then the churn schedule and the
/// snapshot event are scheduled, and every process is told whether an event
/// ends the run.
pub fn init(apps_len: usize, conf: &Conf, churn: Option<&Vec<ChurnEntry>>, snapshot: Option<Snapshot>) -> (r: Result<(SimulationKernel, Configured), ConfigError>)
    ensures
        match r {
            Ok((kernel, c)) => {
                &&& can_start(apps_len, conf, &snapshot)
                &&& churn matches Some(entries) ==> all_known(entries@)
                &&& kernel.wf()
                &&& c.simulation_stops == (conf.save_and_stop || (churn matches Some(entries)
                    && has_end(entries@)))
                &&& kernel.pending() == starting_events(conf, &snapshot).add(
                    churn_events(entries_of(churn)),
                ).add(save_events(conf.save))
                &&& kernel.states() == with_stops(
                    if churn is None && conf.load is None {
                        all_joined(starting_states(conf, &snapshot))
                    } else {
                        starting_states(conf, &snapshot)
                    },
                    c.simulation_stops,
                )
                &&& c.started@ == if churn is None && conf.load is None {
                    pool_ids(
                        starting_states(conf, &snapshot),
                        Pool::NotJoined,
                        starting_states(conf, &snapshot).len(),
                    )
                } else {
                    Seq::<ProcessId>::empty()
                }
                &&& kernel.now() == if conf.load is Some {
                    snapshot->0.current_ts
                } else {
                    0
                }
                &&& kernel.processed() == if conf.load is Some {
                    snapshot->0.events_processed as nat
                } else {
                    0
                }
                &&& kernel.random() == if conf.load is None {
                    seed_state(conf.seed)
                } else {
                    match conf.new_seed {
                        Some(seed) => seed_state(seed),
                        None => rng_state(&snapshot->0.rng),
                    }
                }
            },
            Err(ConfigError::BadSnapshot) => conf.load is Some && !can_start(
                apps_len,
                conf,
                &snapshot,
            ),
            Err(ConfigError::AppCountMismatch) => conf.load is None && conf.n != apps_len,
            Err(ConfigError::OpDuration(e)) => conf.load is None && conf.n == apps_len
                && op_duration_of(conf.asynchrony, conf.op_duration) == Err::<Time, OpDurationError>(e),
            Err(ConfigError::UnknownAction(place)) => can_start(apps_len, conf, &snapshot) && (
            churn matches Some(entries) && is_first_unknown(entries@, place as int)),
        },
{
    let mut kernel = if conf.load.is_some() {
        match snapshot {
            None => {
                return Err(ConfigError::BadSnapshot);
            },
            Some(s) => match SimulationKernel::load_state(s, conf.new_seed) {
                None => {
                    return Err(ConfigError::BadSnapshot);
                },
                Some(kernel) => kernel,
            },
        }
    } else {
        if conf.n as u64 != apps_len as u64 {
            return Err(ConfigError::AppCountMismatch);
        }
        let op_duration = match get_op_duration(conf.asynchrony, conf.op_duration) {
            Err(e) => {
                return Err(ConfigError::OpDuration(e));
            },
            Ok(d) => d,
        };
        let mut kernel = SimulationKernel::new(conf.seed);
        let mut i: ProcessId = 0;
        while i < conf.n
            invariant
                i <= conf.n,
                kernel.wf(),
                kernel.states() == fresh_states(i as nat, op_duration),
                kernel.pending() == Multiset::<Event>::empty(),
                kernel.now() == 0,
                kernel.processed() == 0,
                kernel.random() == seed_state(conf.seed),
            decreases conf.n - i,
        {
            kernel.add_process(i, op_duration);
            proof {
                assert(kernel.states() =~= fresh_states((i + 1) as nat, op_duration));
            }
            i += 1;
        }
        kernel
    };
    proof {
        assert(kernel.states() == starting_states(conf, &snapshot));
        assert(kernel.pending() == starting_events(conf, &snapshot));
    }
    let c = match kernel.config(conf, churn) {
        Err(e) => {
            return Err(e);
        },
        Ok(c) => c,
    };
    let ghost configured = kernel.states();
    kernel.update_process_simulation_stops(c.simulation_stops);
    proof {
        assert(kernel.states() =~= with_stops(configured, c.simulation_stops));
    }
    Ok((kernel, c))
}

} // verus!
