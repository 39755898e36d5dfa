//! The schedules of the manager, by name.
//!
//! The registry keeps each schedule and whether it runs; the task that runs
//! a schedule's jobs is the caller's, which starts and stops it when the
//! registry says so.

use crate::data_core::manager_api::{JobId, JobSchedule, ScheduleData};
use crate::manager::scan_jobs::worker_manager::{
    executor_check, validate_executor, WorkerManagerError,
};
use vstd::prelude::*;

verus! {

/// Why a schedule request was refused.
#[derive(Debug, PartialEq, Eq)]
pub enum ScheduleManagerError {
    ScheduleNameNotFound(String),
    DuplicateScheduleName(String),
    WorkerManagerError(WorkerManagerError),
}

impl ScheduleManagerError {
    /// The HTTP status the API answers the error with: not found, conflict,
    /// or the worker manager's.
    pub fn status_code(&self) -> (r: u16)
        ensures
            self is ScheduleNameNotFound ==> r == 404,
            self is DuplicateScheduleName ==> r == 409,
            self matches ScheduleManagerError::WorkerManagerError(e) ==> (e is WorkerNotFound
                ==> r == 404) && (!(e is WorkerNotFound) ==> r == 500),
    {
        match self {
            ScheduleManagerError::ScheduleNameNotFound(_) => 404,
            ScheduleManagerError::DuplicateScheduleName(_) => 409,
            ScheduleManagerError::WorkerManagerError(e) => e.status_code(),
        }
    }
}

/// A schedule and whether its task runs.
#[derive(Debug)]
pub struct ScheduleEntry {
    pub info: ScheduleData,
    pub running: bool,
}

/// No name occurs twice.
pub open spec fn distinct_schedule_names(s: Seq<ScheduleEntry>) -> bool {
    forall|i: int, j: int|
        0 <= i < s.len() && 0 <= j < s.len() && i != j ==> (#[trigger] s[i]).info.name@ != (
        #[trigger] s[j]).info.name@
}

/// Where the schedule named `name` is, if anywhere.
pub open spec fn schedule_index(s: Seq<ScheduleEntry>, name: Seq<char>) -> Option<int> {
    if exists|i: int| 0 <= i < s.len() && (#[trigger] s[i]).info.name@ == name {
        Some(choose|i: int| 0 <= i < s.len() && (#[trigger] s[i]).info.name@ == name)
    } else {
        None
    }
}

/// A schedule added under a new name is found under it, at the end, and
/// the names stay distinct.
pub proof fn lemma_added_schedule_found(entries: Seq<ScheduleEntry>, e: ScheduleEntry)
    requires
        distinct_schedule_names(entries),
        schedule_index(entries, e.info.name@) is None,
    ensures
        schedule_index(entries.push(e), e.info.name@) == Some(entries.len() as int),
        distinct_schedule_names(entries.push(e)),
{
    let after = entries.push(e);
    assert(after[entries.len() as int] == e);
    assert forall|i: int| 0 <= i < after.len() && (#[trigger] after[i]).info.name@ == e.info.name@
        implies i == entries.len() as int by {
        if i < entries.len() {
            assert(after[i] == entries[i]);
        }
    }
    assert forall|a: int, b: int|
        0 <= a < after.len() && 0 <= b < after.len() && a != b implies (
        #[trigger] after[a]).info.name@ != (#[trigger] after[b]).info.name@ by {
        if a < entries.len() && b < entries.len() {
            assert(after[a] == entries[a] && after[b] == entries[b]);
        } else if a < entries.len() {
            assert(after[a] == entries[a]);
        } else {
            assert(after[b] == entries[b]);
        }
    }
}

/// What an accepted add puts in is what a get finds: after a schedule is
/// added under a name that was free, the schedule under that name is the
/// one added, not running.
pub proof fn lemma_add_then_get(before: Seq<ScheduleEntry>, after: Seq<ScheduleEntry>, data: ScheduleData)
    requires
        schedule_index(before, data.name@) is None,
        after == before.push(ScheduleEntry { info: data, running: false }),
    ensures
        schedule_index(after, data.name@) == Some(before.len() as int),
        after[before.len() as int].info == data,
        !after[before.len() as int].running,
{
    assert(after[before.len() as int].info.name@ == data.name@);
    assert forall|i: int| 0 <= i < after.len() && (#[trigger] after[i]).info.name@ == data.name@
        implies i == before.len() as int by {
        if i < before.len() {
            assert(after[i] == before[i]);
        }
    }
}

/// The schedules, by name.
pub struct ScheduleRegistry {
    entries: Vec<ScheduleEntry>,
}

impl ScheduleRegistry {
    #[verifier::type_invariant]
    spec fn inv(self) -> bool {
        distinct_schedule_names(self.entries@)
    }

    /// The schedules, in the order they were added.
    pub closed spec fn entries(&self) -> Seq<ScheduleEntry> {
        self.entries@
    }

    /// An empty registry.
    pub fn new() -> (r: ScheduleRegistry)
        ensures
            r.entries().len() == 0,
    {
        ScheduleRegistry { entries: Vec::new() }
    }

    /// Where the schedule named `name` is.
    fn find(&self, name: &str) -> (r: Option<usize>)
        ensures
            match schedule_index(self.entries(), name@) {
                None => r is None,
                Some(i) => r matches Some(k) && k as int == i,
            },
            r matches Some(i) ==> i < self.entries().len() && self.entries()[i as int].info.name@
                == name@,
    {
        proof {
            use_type_invariant(self);
        }
        let wanted = name.to_owned();
        let mut i: usize = 0;
        while i < self.entries.len()
            invariant
                i <= self.entries@.len(),
                wanted@ == name@,
                distinct_schedule_names(self.entries@),
                forall|j: int| 0 <= j < i ==> (#[trigger] self.entries@[j]).info.name@ != name@,
            decreases self.entries@.len() - i,
        {
            if self.entries[i].info.name == wanted {
                proof {
                    let s = self.entries@;
                    let k = choose|k: int| 0 <= k < s.len() && (#[trigger] s[k]).info.name@ == name@;
                    assert(s[k].info.name@ == s[i as int].info.name@);
                    assert(k == i as int);
                }
                return Some(i);
            }
            i = i + 1;
        }
        None
    }

    /// The schedule named `name`.
    pub fn get_schedule(&self, name: &str) -> (r: Result<&ScheduleData, ScheduleManagerError>)
        ensures
            match schedule_index(self.entries(), name@) {
                None => r matches Err(ScheduleManagerError::ScheduleNameNotFound(n)) && n@ == name@,
                Some(i) => r matches Ok(d) && *d == self.entries()[i].info,
            },
    {
        match self.find(name) {
            None => Err(ScheduleManagerError::ScheduleNameNotFound(name.to_owned())),
            Some(i) => {
                let e = &self.entries[i];
                assert(*e == self.entries@[i as int]);
                Ok(&e.info)
            },
        }
    }

    /// All the schedules, in the order they were added.
    pub fn get_all_schedules(&self) -> (r: &Vec<ScheduleEntry>)
        ensures
            r@ == self.entries(),
    {
        &self.entries
    }

    /// Adds a schedule, not running. Refused when its name is taken, or
    /// when it names a worker that is not among `known_workers`.
    pub fn add_schedule(&mut self, schedule_data: ScheduleData, known_workers: &Vec<String>) -> (r:
        Result<(), ScheduleManagerError>)
        ensures
            schedule_index(old(self).entries(), schedule_data.name@) is Some ==> {
                &&& r matches Err(ScheduleManagerError::DuplicateScheduleName(n)) && n@
                    == schedule_data.name@
                &&& final(self).entries() == old(self).entries()
            },
            schedule_index(old(self).entries(), schedule_data.name@) is None ==> match executor_check(
                known_workers@,
                schedule_data.executor,
            ) {
                None => r is Ok && final(self).entries() == old(self).entries().push(
                    ScheduleEntry { info: schedule_data, running: false },
                ),
                Some(missing) => final(self).entries() == old(self).entries() && (r matches Err(
                    ScheduleManagerError::WorkerManagerError(WorkerManagerError::WorkerNotFound(n)),
                ) && n@ == missing),
            },
    {
        proof {
            use_type_invariant(&*self);
        }
        if self.find(schedule_data.name.as_str()).is_some() {
            return Err(ScheduleManagerError::DuplicateScheduleName(schedule_data.name.clone()));
        }
        if let Err(e) = validate_executor(known_workers, &schedule_data.executor) {
            return Err(ScheduleManagerError::WorkerManagerError(e));
        }
        let mut entries: Vec<ScheduleEntry> = Vec::new();
        std::mem::swap(&mut entries, &mut self.entries);
        let ghost before = entries@;
        entries.push(ScheduleEntry { info: schedule_data, running: false });
        proof {
            let after = entries@;
            assert forall|i: int, j: int|
                0 <= i < after.len() && 0 <= j < after.len() && i != j implies (
                #[trigger] after[i]).info.name@ != (#[trigger] after[j]).info.name@ by {
                if i < before.len() && j < before.len() {
                    assert(after[i] == before[i] && after[j] == before[j]);
                } else if i < before.len() {
                    assert(after[i] == before[i]);
                } else {
                    assert(after[j] == before[j]);
                }
            }
        }
        self.entries = entries;
        Ok(())
    }

    /// Removes the schedule named `name`; its task is to be stopped.
    pub fn remove_schedule(&mut self, name: &str) -> (r: Result<ScheduleEntry, ScheduleManagerError>)
        ensures
            match schedule_index(old(self).entries(), name@) {
                None => r matches Err(ScheduleManagerError::ScheduleNameNotFound(n)) && n@ == name@
                    && final(self).entries() == old(self).entries(),
                Some(i) => r matches Ok(e) && e == old(self).entries()[i] && final(self).entries()
                    == old(self).entries().remove(i),
            },
            schedule_index(final(self).entries(), name@) is None,
    {
        proof {
            use_type_invariant(&*self);
        }
        match self.find(name) {
            None => Err(ScheduleManagerError::ScheduleNameNotFound(name.to_owned())),
            Some(i) => {
                let mut entries: Vec<ScheduleEntry> = Vec::new();
                std::mem::swap(&mut entries, &mut self.entries);
                let ghost before = entries@;
                let e = entries.remove(i);
                proof {
                    let after = entries@;
                    assert(after == before.remove(i as int));
                    assert forall|a: int, b: int|
                        0 <= a < after.len() && 0 <= b < after.len() && a != b implies (
                        #[trigger] after[a]).info.name@ != (#[trigger] after[b]).info.name@ by {
                        let a2 = if a < i { a } else { a + 1 };
                        let b2 = if b < i { b } else { b + 1 };
                        assert(after[a] == before[a2] && after[b] == before[b2]);
                    }
                    if exists|k: int| 0 <= k < after.len() && (#[trigger] after[k]).info.name@ == name@ {
                        let k = choose|k: int| 0 <= k < after.len() && (#[trigger] after[k]).info.name@ == name@;
                        let k2 = if k < i { k } else { k + 1 };
                        assert(after[k] == before[k2]);
                        assert(before[i as int].info.name@ == name@);
                    }
                }
                self.entries = entries;
                Ok(e)
            },
        }
    }

    /// Marks the schedule named `name` as not running; its task is to be
    /// stopped.
    pub fn stop_schedule(&mut self, name: &str) -> (r: Result<(), ScheduleManagerError>)
        ensures
            match schedule_index(old(self).entries(), name@) {
                None => r matches Err(ScheduleManagerError::ScheduleNameNotFound(n)) && n@ == name@
                    && final(self).entries() == old(self).entries(),
                Some(i) => r is Ok && final(self).entries().len() == old(self).entries().len()
                    && final(self).entries()[i].info == old(self).entries()[i].info
                    && !final(self).entries()[i].running && forall|j: int|
                    0 <= j < old(self).entries().len() && j != i ==> final(self).entries()[j]
                        == old(self).entries()[j],
            },
    {
        self.set_running(name, false)
    }

    /// Marks the schedule named `name` as running, once its task is
    /// started; the previous task is to be stopped first.
    pub fn run_schedule(&mut self, name: &str) -> (r: Result<(), ScheduleManagerError>)
        ensures
            match schedule_index(old(self).entries(), name@) {
                None => r matches Err(ScheduleManagerError::ScheduleNameNotFound(n)) && n@ == name@
                    && final(self).entries() == old(self).entries(),
                Some(i) => r is Ok && final(self).entries().len() == old(self).entries().len()
                    && final(self).entries()[i].info == old(self).entries()[i].info
                    && final(self).entries()[i].running && forall|j: int|
                    0 <= j < old(self).entries().len() && j != i ==> final(self).entries()[j]
                        == old(self).entries()[j],
            },
    {
        self.set_running(name, true)
    }

    fn set_running(&mut self, name: &str, running: bool) -> (r: Result<(), ScheduleManagerError>)
        ensures
            match schedule_index(old(self).entries(), name@) {
                None => r matches Err(ScheduleManagerError::ScheduleNameNotFound(n)) && n@ == name@
                    && final(self).entries() == old(self).entries(),
                Some(i) => r is Ok && final(self).entries().len() == old(self).entries().len()
                    && final(self).entries()[i].info == old(self).entries()[i].info
                    && final(self).entries()[i].running == running && forall|j: int|
                    0 <= j < old(self).entries().len() && j != i ==> final(self).entries()[j]
                        == old(self).entries()[j],
            },
    {
        proof {
            use_type_invariant(&*self);
        }
        match self.find(name) {
            None => Err(ScheduleManagerError::ScheduleNameNotFound(name.to_owned())),
            Some(i) => {
                let mut entries: Vec<ScheduleEntry> = Vec::new();
                std::mem::swap(&mut entries, &mut self.entries);
                let ghost before = entries@;
                let mut e = entries.remove(i);
                e.running = running;
                entries.insert(i, e);
                proof {
                    let after = entries@;
                    assert forall|j: int| 0 <= j < before.len() && j != i implies after[j] == before[j] by {
                        assert(before.remove(i as int).insert(i as int, after[i as int])[j] == before[j]);
                    }
                    assert forall|a: int, b: int|
                        0 <= a < after.len() && 0 <= b < after.len() && a != b implies (
                        #[trigger] after[a]).info.name@ != (#[trigger] after[b]).info.name@ by {
                        assert(after[a].info == before[a].info);
                        assert(after[b].info == before[b].info);
                    }
                }
                self.entries = entries;
                Ok(())
            },
        }
    }
}

/// Where the task that runs a schedule's jobs stands.
#[derive(Clone, Copy, Debug, PartialEq, Eq, Structural)]
pub enum ScheduleTaskState {
    /// The job is being started.
    Starting,
    /// The job `0` runs; the task waits for it to end.
    Watching(JobId),
    /// The job could not be started; the task waits before resting.
    BackingOff,
    /// The task rests between two runs.
    Resting,
    /// The task waits for the next time of its cron schedule.
    WaitingForTime,
    /// The cron schedule has no time left: the task is over.
    Ended,
}

/// What the task is told of what it asked for.
#[derive(Clone, Copy, Debug, PartialEq, Eq, Structural)]
pub enum ScheduleEvent {
    /// The job was started under this id, or refused (`None`).
    JobStarted(Option<JobId>),
    /// Whether the watched job still runs.
    JobActive(bool),
    /// A wait is over: the sleep ended, or the next cron time came.
    Woke,
    /// The cron schedule has no upcoming time.
    NoUpcomingTime,
}

/// What the task asks for next.
#[derive(Clone, Copy, Debug, PartialEq, Eq, Structural)]
pub enum ScheduleAction {
    /// Start the schedule's job; answer `JobStarted`.
    RunJob,
    /// After `after_secs` seconds, ask whether the job `id` still runs;
    /// answer `JobActive`.
    CheckJob { id: JobId, after_secs: u64 },
    /// Sleep this many seconds; answer `Woke`.
    Sleep(u64),
    /// Wait for the next time of the cron schedule; answer `Woke`, or
    /// `NoUpcomingTime` when there is none.
    WaitForNextTime,
}

/// The seconds between two checks of a running job, and the pause after a
/// job could not be started.
pub const SCHEDULE_POLL_SECS: u64 = 5;

/// The task's next state and action on an event. A schedule that always
/// runs starts its job, checks every few seconds until it has ended (at once
/// the first time), rests `wait_secs` and starts again; after a refused
/// start it waits a few seconds more before resting. A cron schedule waits
/// for each of its times and starts its job then, refused or not, until no
/// time is left.
pub open spec fn schedule_transition(cron: bool, wait_secs: u64, v: ScheduleTaskState, e: ScheduleEvent) -> (
    ScheduleTaskState,
    Option<ScheduleAction>,
) {
    match (v, e) {
        (ScheduleTaskState::Starting, ScheduleEvent::JobStarted(started)) => if cron {
            (ScheduleTaskState::WaitingForTime, Some(ScheduleAction::WaitForNextTime))
        } else {
            match started {
                Some(id) => (
                    ScheduleTaskState::Watching(id),
                    Some(ScheduleAction::CheckJob { id, after_secs: 0 }),
                ),
                None => (ScheduleTaskState::BackingOff, Some(ScheduleAction::Sleep(SCHEDULE_POLL_SECS))),
            }
        },
        (ScheduleTaskState::Watching(id), ScheduleEvent::JobActive(active)) => if active {
            (
                ScheduleTaskState::Watching(id),
                Some(ScheduleAction::CheckJob { id, after_secs: SCHEDULE_POLL_SECS }),
            )
        } else {
            (ScheduleTaskState::Resting, Some(ScheduleAction::Sleep(wait_secs)))
        },
        (ScheduleTaskState::BackingOff, ScheduleEvent::Woke) => (
            ScheduleTaskState::Resting,
            Some(ScheduleAction::Sleep(wait_secs)),
        ),
        (ScheduleTaskState::Resting, ScheduleEvent::Woke) => (
            ScheduleTaskState::Starting,
            Some(ScheduleAction::RunJob),
        ),
        (ScheduleTaskState::WaitingForTime, ScheduleEvent::Woke) => (
            ScheduleTaskState::Starting,
            Some(ScheduleAction::RunJob),
        ),
        (ScheduleTaskState::WaitingForTime, ScheduleEvent::NoUpcomingTime) => (
            ScheduleTaskState::Ended,
            None,
        ),
        _ => (v, None),
    }
}

/// The task that runs one schedule's jobs, as decisions: the caller performs
/// each action and reports what came of it.
#[derive(Debug)]
pub struct ScheduleTask {
    cron: bool,
    wait_secs: u64,
    state: ScheduleTaskState,
}

impl ScheduleTask {
    /// Whether the schedule follows cron times.
    pub closed spec fn is_cron(&self) -> bool {
        self.cron
    }

    /// The rest between two runs of an always-running schedule, in seconds.
    pub closed spec fn spec_wait_secs(&self) -> u64 {
        self.wait_secs
    }

    /// Where the task stands.
    pub closed spec fn state(&self) -> ScheduleTaskState {
        self.state
    }

    /// The task of a schedule, and its first action: an always-running
    /// schedule starts its job at once, a cron schedule waits for its next
    /// time.
    pub fn new(data: &ScheduleData) -> (r: (ScheduleTask, ScheduleAction))
        ensures
            r.0.is_cron() == (data.schedule is Cron),
            r.0.spec_wait_secs() == data.wait_secs,
            data.schedule is Cron ==> r.0.state() == ScheduleTaskState::WaitingForTime
                && r.1 == ScheduleAction::WaitForNextTime,
            !(data.schedule is Cron) ==> r.0.state() == ScheduleTaskState::Starting && r.1
                == ScheduleAction::RunJob,
    {
        match &data.schedule {
            JobSchedule::Cron(_) => (
                ScheduleTask {
                    cron: true,
                    wait_secs: data.wait_secs,
                    state: ScheduleTaskState::WaitingForTime,
                },
                ScheduleAction::WaitForNextTime,
            ),
            JobSchedule::Always => (
                ScheduleTask { cron: false, wait_secs: data.wait_secs, state: ScheduleTaskState::Starting },
                ScheduleAction::RunJob,
            ),
        }
    }

    /// Takes in what came of the last action and gives the next one, or
    /// `None` when the event was not awaited or the task is over (see
    /// [`schedule_transition`]).
    pub fn step(&mut self, event: ScheduleEvent) -> (r: Option<ScheduleAction>)
        ensures
            (final(self).state(), r) == schedule_transition(
                old(self).is_cron(),
                old(self).spec_wait_secs(),
                old(self).state(),
                event,
            ),
            final(self).is_cron() == old(self).is_cron(),
            final(self).spec_wait_secs() == old(self).spec_wait_secs(),
    {
        let (next, action) = match (self.state, event) {
            (ScheduleTaskState::Starting, ScheduleEvent::JobStarted(started)) => {
                if self.cron {
                    (ScheduleTaskState::WaitingForTime, Some(ScheduleAction::WaitForNextTime))
                } else {
                    match started {
                        Some(id) => (
                            ScheduleTaskState::Watching(id),
                            Some(ScheduleAction::CheckJob { id, after_secs: 0 }),
                        ),
                        None => (
                            ScheduleTaskState::BackingOff,
                            Some(ScheduleAction::Sleep(SCHEDULE_POLL_SECS)),
                        ),
                    }
                }
            },
            (ScheduleTaskState::Watching(id), ScheduleEvent::JobActive(active)) => {
                if active {
                    (
                        ScheduleTaskState::Watching(id),
                        Some(ScheduleAction::CheckJob { id, after_secs: SCHEDULE_POLL_SECS }),
                    )
                } else {
                    (ScheduleTaskState::Resting, Some(ScheduleAction::Sleep(self.wait_secs)))
                }
            },
            (ScheduleTaskState::BackingOff, ScheduleEvent::Woke) => (
                ScheduleTaskState::Resting,
                Some(ScheduleAction::Sleep(self.wait_secs)),
            ),
            (ScheduleTaskState::Resting, ScheduleEvent::Woke) => (
                ScheduleTaskState::Starting,
                Some(ScheduleAction::RunJob),
            ),
            (ScheduleTaskState::WaitingForTime, ScheduleEvent::Woke) => (
                ScheduleTaskState::Starting,
                Some(ScheduleAction::RunJob),
            ),
            (ScheduleTaskState::WaitingForTime, ScheduleEvent::NoUpcomingTime) => (
                ScheduleTaskState::Ended,
                None,
            ),
            (state, _) => (state, None),
        };
        self.state = next;
        action
    }
}

/// A cron schedule follows its times alone: it never watches a job, never
/// sleeps and never backs off. From starting, waiting for a time or its end
/// it only ever starts the job, waits for the next time or ends, and once
/// a job was started, whether or not it was refused, it waits for the next
/// time.
pub proof fn lemma_cron_follows_times(wait_secs: u64, v: ScheduleTaskState, e: ScheduleEvent)
    requires
        v == ScheduleTaskState::Starting || v == ScheduleTaskState::WaitingForTime || v
            == ScheduleTaskState::Ended,
    ensures
        ({
            let (next, action) = schedule_transition(true, wait_secs, v, e);
            &&& next == ScheduleTaskState::Starting || next == ScheduleTaskState::WaitingForTime
                || next == ScheduleTaskState::Ended
            &&& action is None || action == Some(ScheduleAction::RunJob) || action == Some(
                ScheduleAction::WaitForNextTime,
            )
            &&& (v == ScheduleTaskState::Starting && e is JobStarted) ==> (next
                == ScheduleTaskState::WaitingForTime && action == Some(
                ScheduleAction::WaitForNextTime,
            ))
            &&& (v == ScheduleTaskState::WaitingForTime && e == ScheduleEvent::Woke) ==> (next
                == ScheduleTaskState::Starting && action == Some(ScheduleAction::RunJob))
        }),
{
}

/// An always-running schedule watches the job it started, from at once,
/// and backs off when the job could not be started.
pub proof fn lemma_always_watches_started_job(wait_secs: u64, started: Option<JobId>)
    ensures
        schedule_transition(
            false,
            wait_secs,
            ScheduleTaskState::Starting,
            ScheduleEvent::JobStarted(started),
        ) == match started {
            Some(id) => (
                ScheduleTaskState::Watching(id),
                Some(ScheduleAction::CheckJob { id, after_secs: 0 }),
            ),
            None => (ScheduleTaskState::BackingOff, Some(ScheduleAction::Sleep(5))),
        },
{
}

/// An always-running schedule never ends and never waits for a cron time:
/// from a state that is neither, no event leads to either.
pub proof fn lemma_always_never_ends(wait_secs: u64, v: ScheduleTaskState, e: ScheduleEvent)
    requires
        v != ScheduleTaskState::Ended,
        v != ScheduleTaskState::WaitingForTime,
    ensures
        schedule_transition(false, wait_secs, v, e).0 != ScheduleTaskState::Ended,
        schedule_transition(false, wait_secs, v, e).0 != ScheduleTaskState::WaitingForTime,
{
}

/// A job that was started is watched until it is seen to have ended, and
/// only then does the always-running task rest: a report that the job runs
/// keeps the task on that job.
pub proof fn lemma_watch_until_ended(wait_secs: u64, id: JobId, active: bool)
    ensures
        active ==> schedule_transition(
            false,
            wait_secs,
            ScheduleTaskState::Watching(id),
            ScheduleEvent::JobActive(active),
        ).0 == ScheduleTaskState::Watching(id),
        !active ==> schedule_transition(
            false,
            wait_secs,
            ScheduleTaskState::Watching(id),
            ScheduleEvent::JobActive(active),
        ) == (ScheduleTaskState::Resting, Some(ScheduleAction::Sleep(wait_secs))),
{
}

} // verus!
