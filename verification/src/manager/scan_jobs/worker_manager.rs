//! Which workers a job goes to.

use crate::data_core::manager_api::{JobExecutor, JobId, ManagerJobReq};
use crate::manager::scan_jobs::worker::select_less_loaded_worker;
use vstd::prelude::*;

verus! {

/// Why the manager could not run a job.
#[derive(Debug, PartialEq, Eq)]
pub enum WorkerManagerError {
    WorkerNotFound(String),
    WorkerError,
    DatabaseError,
}

impl WorkerManagerError {
    /// The HTTP status the API answers the error with: not found for an
    /// unknown worker, an internal error otherwise.
    pub fn status_code(&self) -> (r: u16)
        ensures
            self is WorkerNotFound ==> r == 404,
            !(self is WorkerNotFound) ==> r == 500,
    {
        match self {
            WorkerManagerError::WorkerNotFound(_) => 404,
            _ => 500,
        }
    }
}

/// Whether `name` is one of `known`.
pub open spec fn known_name(known: Seq<String>, name: Seq<char>) -> bool {
    exists|i: int| 0 <= i < known.len() && (#[trigger] known[i])@ == name
}

/// The first of `names` that is not known, if any.
pub open spec fn first_unknown(known: Seq<String>, names: Seq<String>) -> Option<int> {
    if exists|k: int| 0 <= k < names.len() && !known_name(known, (#[trigger] names[k])@) {
        Some(
            choose|k: int|
                0 <= k < names.len() && !known_name(known, (#[trigger] names[k])@) && forall|j: int|
                    0 <= j < k ==> known_name(known, (#[trigger] names[j])@),
        )
    } else {
        None
    }
}

/// The worker that a job names and that is not among `known`, if any:
/// for a list, the first such in the list's order.
pub open spec fn executor_check(known: Seq<String>, executor: JobExecutor) -> Option<Seq<char>> {
    match executor {
        JobExecutor::Worker { name } => if known_name(known, name@) {
            None
        } else {
            Some(name@)
        },
        JobExecutor::LeastLoadedSpecified { worker_names } | JobExecutor::BalanceSpecified {
            worker_names,
        } => match first_unknown(known, worker_names@) {
            None => None,
            Some(k) => Some(worker_names@[k]@),
        },
        _ => None,
    }
}

/// Whether `name` is one of `known`.
fn is_known(known: &Vec<String>, name: &String) -> (r: bool)
    ensures
        r == known_name(known@, name@),
{
    let mut i: usize = 0;
    while i < known.len()
        invariant
            i <= known@.len(),
            forall|j: int| 0 <= j < i ==> known@[j]@ != name@,
        decreases known@.len() - i,
    {
        if known[i] == *name {
            return true;
        }
        i = i + 1;
    }
    false
}

/// The first of `names` that is not known, if any.
fn find_unknown(known: &Vec<String>, names: &Vec<String>) -> (r: Option<usize>)
    ensures
        match first_unknown(known@, names@) {
            None => r is None,
            Some(k) => r matches Some(j) && j as int == k,
        },
        r matches Some(j) ==> j < names@.len(),
{
    let mut i: usize = 0;
    while i < names.len()
        invariant
            i <= names@.len(),
            forall|j: int| 0 <= j < i ==> known_name(known@, (#[trigger] names@[j])@),
        decreases names@.len() - i,
    {
        if !is_known(known, &names[i]) {
            proof {
                let k = choose|k: int|
                    0 <= k < names@.len() && !known_name(known@, (#[trigger] names@[k])@) && forall|
                        j: int,
                    | 0 <= j < k ==> known_name(known@, (#[trigger] names@[j])@);
                assert(k == i as int) by {
                    if k < i {
                        assert(known_name(known@, names@[k]@));
                    } else if k > i {
                        assert(known_name(known@, names@[i as int]@));
                    }
                }
            }
            return Some(i);
        }
        i = i + 1;
    }
    None
}

/// Checks that the workers a job names are known: `known` are the names
/// of the manager's workers. A missing one is named in the error, the
/// first in the list's order; jobs that take any worker pass.
pub fn validate_executor(known: &Vec<String>, executor: &JobExecutor) -> (r: Result<
    (),
    WorkerManagerError,
>)
    ensures
        match executor_check(known@, *executor) {
            None => r is Ok,
            Some(name) => r matches Err(WorkerManagerError::WorkerNotFound(n)) && n@ == name,
        },
{
    match executor {
        JobExecutor::Worker { name } => {
            if is_known(known, name) {
                Ok(())
            } else {
                Err(WorkerManagerError::WorkerNotFound(name.clone()))
            }
        },
        JobExecutor::LeastLoadedSpecified { worker_names } | JobExecutor::BalanceSpecified {
            worker_names,
        } => match find_unknown(known, worker_names) {
            None => Ok(()),
            Some(k) => Err(WorkerManagerError::WorkerNotFound(worker_names[k].clone())),
        },
        _ => Ok(()),
    }
}

/// Picks the known workers that a job names, as their places in `known`,
/// in order, each place once however often its name is listed; fails with
/// the first name that is not known.
pub fn get_specified_workers(known: &Vec<String>, worker_names: &Vec<String>) -> (r: Result<
    Vec<usize>,
    WorkerManagerError,
>)
    ensures
        match first_unknown(known@, worker_names@) {
            Some(k) => r matches Err(WorkerManagerError::WorkerNotFound(n)) && n@
                == worker_names@[k]@,
            None => r matches Ok(idx) && (forall|j: int|
                0 <= j < idx@.len() ==> (#[trigger] idx@[j]) < known@.len() && known_name(
                    worker_names@,
                    known@[idx@[j] as int]@,
                )) && (forall|i: int|
                0 <= i < known@.len() && known_name(worker_names@, (#[trigger] known@[i])@)
                    ==> exists|j: int| 0 <= j < idx@.len() && idx@[j] == i) && (forall|a: int, b: int|
                0 <= a < b < idx@.len() ==> idx@[a] < idx@[b]),
        },
{
    if let Some(k) = find_unknown(known, worker_names) {
        return Err(WorkerManagerError::WorkerNotFound(worker_names[k].clone()));
    }
    let mut idx: Vec<usize> = Vec::new();
    let mut i: usize = 0;
    while i < known.len()
        invariant
            i <= known@.len(),
            forall|j: int|
                0 <= j < idx@.len() ==> (#[trigger] idx@[j]) < i && known_name(
                    worker_names@,
                    known@[idx@[j] as int]@,
                ),
            forall|m: int|
                0 <= m < i && known_name(worker_names@, (#[trigger] known@[m])@) ==> exists|j: int|
                    0 <= j < idx@.len() && idx@[j] == m,
            forall|a: int, b: int| 0 <= a < b < idx@.len() ==> idx@[a] < idx@[b],
        decreases known@.len() - i,
    {
        if is_known(worker_names, &known[i]) {
            let ghost before = idx@;
            idx.push(i);
            proof {
                assert forall|m: int|
                    0 <= m < i + 1 && known_name(worker_names@, (#[trigger] known@[m])@) implies exists|
                        j: int,
                    | 0 <= j < idx@.len() && idx@[j] == m by {
                    if m == i as int {
                        assert(idx@[before.len() as int] == m);
                    } else {
                        let j = choose|j: int| 0 <= j < before.len() && before[j] == m;
                        assert(idx@[j] == m);
                    }
                }
            }
        }
        i = i + 1;
    }
    Ok(idx)
}

/// The places of the known workers that a list of names picks: in
/// increasing order, each named, and every named known worker among them.
pub open spec fn picks(known: Seq<String>, names: Seq<String>, p: Seq<usize>) -> bool {
    &&& forall|j: int|
        0 <= j < p.len() ==> (#[trigger] p[j]) < known.len() && known_name(names, known[p[j] as int]@)
    &&& forall|i: int|
        0 <= i < known.len() && known_name(names, (#[trigger] known[i])@) ==> exists|j: int|
            0 <= j < p.len() && p[j] == i
    &&& forall|a: int, b: int| 0 <= a < b < p.len() ==> p[a] < p[b]
}

/// Every place of the workers, in order.
pub open spec fn all_places(n: nat) -> Seq<usize> {
    Seq::new(n, |i: int| i as usize)
}

/// `i` is the least loaded of the places `p`: the first, in the order of
/// `p`, of those with the smallest load.
pub open spec fn least_loaded_of(loads: Seq<u64>, p: Seq<usize>, i: usize) -> bool {
    exists|k: int|
        0 <= k < p.len() && p[k] == i && (forall|j: int|
            0 <= j < p.len() ==> loads[i as int] <= loads[(#[trigger] p[j]) as int]) && (forall|j: int|
            0 <= j < k ==> loads[i as int] < loads[(#[trigger] p[j]) as int])
}

/// `i` is the least loaded of the known workers that `names` names: the
/// first in the list of those with the smallest load.
pub open spec fn least_loaded_named(known: Seq<String>, loads: Seq<u64>, names: Seq<String>, i: usize) -> bool {
    &&& i < known.len() && known_name(names, known[i as int]@)
    &&& forall|j: int|
        0 <= j < known.len() && known_name(names, (#[trigger] known[j])@) ==> loads[i as int]
            <= loads[j]
    &&& forall|j: int|
        0 <= j < i && known_name(names, (#[trigger] known[j])@) ==> loads[i as int] < loads[j]
}

/// `i` is the least loaded worker: the first of those with the smallest
/// load.
pub open spec fn least_loaded_all(loads: Seq<u64>, i: usize) -> bool {
    &&& i < loads.len()
    &&& forall|j: int| 0 <= j < loads.len() ==> loads[i as int] <= #[trigger] loads[j]
    &&& forall|j: int| 0 <= j < i ==> loads[i as int] < #[trigger] loads[j]
}

/// A job that runs on one worker has one to run on.
pub open spec fn has_candidate(known: Seq<String>, executor: JobExecutor) -> bool {
    match executor {
        JobExecutor::LeastLoadedSpecified { worker_names } => exists|i: int|
            0 <= i < known.len() && known_name(worker_names@, (#[trigger] known[i])@),
        JobExecutor::LeastLoadedAll => known.len() > 0,
        _ => true,
    }
}

/// The workers a job goes to: one, or several to balance it between, as
/// places in the list of workers.
#[derive(Debug, PartialEq, Eq)]
pub enum WorkerChoice {
    One(usize),
    Balance(Vec<usize>),
}

/// Where `name` first stands in `known`, if anywhere.
fn position_of(known: &Vec<String>, name: &String) -> (r: Option<usize>)
    ensures
        r matches Some(i) ==> i < known.len() && known@[i as int]@ == name@ && forall|j: int|
            0 <= j < i ==> (#[trigger] known@[j])@ != name@,
        r is None ==> !known_name(known@, name@),
{
    let mut i: usize = 0;
    while i < known.len()
        invariant
            i <= known.len(),
            forall|j: int| 0 <= j < i ==> (#[trigger] known@[j])@ != name@,
        decreases known.len() - i,
    {
        if known[i] == *name {
            return Some(i);
        }
        i = i + 1;
    }
    None
}

/// The least loaded of the known workers that `names` names, given their
/// places.
fn least_named(known: &Vec<String>, worker_names: &Vec<String>, places: &Vec<usize>, loads: &Vec<u64>) -> (r: usize)
    requires
        loads.len() == known.len(),
        places.len() > 0,
        picks(known@, worker_names@, places@),
    ensures
        least_loaded_named(known@, loads@, worker_names@, r),
{
    let r = least_of(places, loads);
    proof {
        let k = choose|k: int|
            0 <= k < places@.len() && places@[k] == r && (forall|j: int|
                0 <= j < places@.len() ==> loads@[r as int] <= loads@[(
                #[trigger] places@[j]) as int]) && (forall|j: int|
                0 <= j < k ==> loads@[r as int] < loads@[(#[trigger] places@[j]) as int]);
        assert forall|j: int|
            0 <= j < known.len() && known_name(worker_names@, (#[trigger] known@[j])@) implies loads@[
            r as int] <= loads@[j] by {
            let m = choose|m: int| 0 <= m < places@.len() && places@[m] == j;
            assert(loads@[r as int] <= loads@[places@[m] as int]);
        }
        assert forall|j: int|
            0 <= j < r && known_name(worker_names@, (#[trigger] known@[j])@) implies loads@[
            r as int] < loads@[j] by {
            let m = choose|m: int| 0 <= m < places@.len() && places@[m] == j;
            if m > k {
                assert(places@[k] < places@[m]);
            }
            assert(loads@[r as int] < loads@[places@[m] as int]);
        }
    }
    r
}

/// `c` is the choice of workers for a job with this executor: the named
/// worker (the first of that name), the least loaded of those named or of
/// all, or those named or all to balance the job between.
pub open spec fn chosen_right(known: Seq<String>, loads: Seq<u64>, executor: JobExecutor, c: WorkerChoice) -> bool {
    match executor {
        JobExecutor::Worker { name } => c matches WorkerChoice::One(i) && i < known.len()
            && known[i as int]@ == name@ && forall|j: int|
            0 <= j < i ==> (#[trigger] known[j])@ != name@,
        JobExecutor::LeastLoadedSpecified { worker_names } => c matches WorkerChoice::One(i)
            && least_loaded_named(known, loads, worker_names@, i),
        JobExecutor::LeastLoadedAll => c matches WorkerChoice::One(i) && least_loaded_all(loads, i),
        JobExecutor::BalanceSpecified { worker_names } => c matches WorkerChoice::Balance(p)
            && picks(known, worker_names@, p@),
        JobExecutor::BalanceAll => c matches WorkerChoice::Balance(p) && p@ == all_places(
            known.len(),
        ),
    }
}

/// The least loaded of the places `places`.
fn least_of(places: &Vec<usize>, loads: &Vec<u64>) -> (r: usize)
    requires
        places.len() > 0,
        forall|j: int| 0 <= j < places.len() ==> (#[trigger] places@[j]) < loads.len(),
    ensures
        least_loaded_of(loads@, places@, r),
{
    let mut sub: Vec<u64> = Vec::new();
    let mut k: usize = 0;
    while k < places.len()
        invariant
            k <= places.len(),
            sub.len() == k,
            forall|j: int| 0 <= j < places.len() ==> (#[trigger] places@[j]) < loads.len(),
            forall|j: int| 0 <= j < k ==> sub@[j] == loads@[(#[trigger] places@[j]) as int],
        decreases places.len() - k,
    {
        sub.push(loads[places[k]]);
        k = k + 1;
    }
    let b = select_less_loaded_worker(&sub);
    let r = places[b];
    proof {
        assert(forall|j: int| 0 <= j < sub.len() ==> sub@[j] == #[trigger] sub[j]);
        assert forall|j: int| 0 <= j < places.len() implies loads@[r as int] <= loads@[(
        #[trigger] places@[j]) as int] by {
            assert(sub[b as int] <= sub[j]);
        }
        assert forall|j: int| 0 <= j < b implies loads@[r as int] < loads@[(
        #[trigger] places@[j]) as int] by {
            assert(sub[b as int] < sub[j]);
        }
        assert(places@[b as int] == r);
    }
    r
}

/// Which workers a job goes to: the named worker, the least loaded of those
/// named or of all (the first such in the list), or those named or all to
/// balance it between; refused with the first named worker that is not
/// known. `loads` are the workers' loads, in the order of `known`.
pub fn choose_workers(executor: &JobExecutor, known: &Vec<String>, loads: &Vec<u64>) -> (r: Result<
    WorkerChoice,
    WorkerManagerError,
>)
    requires
        loads.len() == known.len(),
        executor_check(known@, *executor) is None ==> has_candidate(known@, *executor),
    ensures
        executor_check(known@, *executor) matches Some(n) ==> (r matches Err(
            WorkerManagerError::WorkerNotFound(m),
        ) && m@ == n),
        executor_check(known@, *executor) is None ==> (r matches Ok(c) && chosen_right(
            known@,
            loads@,
            *executor,
            c,
        )),
{
    if let Err(e) = validate_executor(known, executor) {
        return Err(e);
    }
    match executor {
        JobExecutor::Worker { name } => match position_of(known, name) {
            Some(i) => {
                let c = WorkerChoice::One(i);
                assert(chosen_right(known@, loads@, *executor, c));
                Ok(c)
            },
            None => Err(WorkerManagerError::WorkerNotFound(name.clone())),
        },
        JobExecutor::LeastLoadedSpecified { worker_names } => match get_specified_workers(
            known,
            worker_names,
        ) {
            Ok(places) => {
                proof {
                    assert(picks(known@, worker_names@, places@));
                    let i = choose|i: int|
                        0 <= i < known.len() && known_name(worker_names@, (#[trigger] known@[i])@);
                    let j = choose|j: int| 0 <= j < places@.len() && places@[j] == i;
                }
                let r = least_named(known, worker_names, &places, loads);
                let c = WorkerChoice::One(r);
                proof {
                    assert(least_loaded_named(known@, loads@, worker_names@, r));
                    assert(chosen_right(known@, loads@, *executor, c));
                }
                Ok(c)
            },
            Err(e) => Err(e),
        },
        JobExecutor::LeastLoadedAll => {
            let r = select_less_loaded_worker(loads);
            let c = WorkerChoice::One(r);
            assert(chosen_right(known@, loads@, *executor, c));
            Ok(c)
        },
        JobExecutor::BalanceSpecified { worker_names } => match get_specified_workers(
            known,
            worker_names,
        ) {
            Ok(places) => {
                let c = WorkerChoice::Balance(places);
                assert(chosen_right(known@, loads@, *executor, c));
                Ok(c)
            },
            Err(e) => Err(e),
        },
        JobExecutor::BalanceAll => {
            let mut all: Vec<usize> = Vec::new();
            let mut i: usize = 0;
            while i < known.len()
                invariant
                    i <= known.len(),
                    all@ == all_places(i as nat),
                decreases known.len() - i,
            {
                all.push(i);
                i = i + 1;
                assert(all@ =~= all_places(i as nat));
            }
            let c = WorkerChoice::Balance(all);
            assert(chosen_right(known@, loads@, *executor, c));
            Ok(c)
        },
    }
}

/// The jobs of a list, by id.
pub open spec fn job_map(s: Seq<(JobId, ManagerJobReq)>) -> Map<JobId, ManagerJobReq> {
    Map::new(
        |id: JobId| exists|i: int| 0 <= i < s.len() && (#[trigger] s[i]).0 == id,
        |id: JobId| s[choose|i: int| 0 <= i < s.len() && (#[trigger] s[i]).0 == id].1,
    )
}

/// No id occurs twice in the list, and every id is below `next`.
pub open spec fn jobs_wf(s: Seq<(JobId, ManagerJobReq)>, next: u64) -> bool {
    &&& forall|i: int, j: int|
        0 <= i < s.len() && 0 <= j < s.len() && i != j ==> (#[trigger] s[i]).0 != (#[trigger] s[j]).0
    &&& forall|i: int| 0 <= i < s.len() ==> (#[trigger] s[i]).0.0 < next
}

/// In a list without repeated ids, the job at a place is the job of its id.
proof fn lemma_job_map_at(s: Seq<(JobId, ManagerJobReq)>, next: u64, i: int)
    requires
        jobs_wf(s, next),
        0 <= i < s.len(),
    ensures
        job_map(s).contains_key(s[i].0),
        job_map(s)[s[i].0] == s[i].1,
{
    let id = s[i].0;
    assert(exists|k: int| 0 <= k < s.len() && (#[trigger] s[k]).0 == id);
    let j = choose|k: int| 0 <= k < s.len() && (#[trigger] s[k]).0 == id;
    if j != i {
        assert(s[i].0 != s[j].0);
    }
}

/// The jobs the manager runs, by id, and the id that the next job gets.
pub struct JobTable {
    next_id: u64,
    jobs: Vec<(JobId, ManagerJobReq)>,
}

impl JobTable {
    #[verifier::type_invariant]
    spec fn inv(self) -> bool {
        jobs_wf(self.jobs@, self.next_id)
    }

    /// The running jobs, by id.
    pub closed spec fn jobs(&self) -> Map<JobId, ManagerJobReq> {
        job_map(self.jobs@)
    }

    /// The id the next job gets.
    pub closed spec fn next_id(&self) -> u64 {
        self.next_id
    }

    /// No jobs; the first job gets id 1.
    pub fn new() -> (r: JobTable)
        ensures
            r.jobs() == Map::<JobId, ManagerJobReq>::empty(),
            r.next_id() == 1,
    {
        let r = JobTable { next_id: 1, jobs: Vec::new() };
        assert(r.jobs() =~= Map::<JobId, ManagerJobReq>::empty());
        r
    }

    /// Starts a job: refused with the first worker it names that is not
    /// among `known`, else recorded under the next id, which is returned.
    pub fn start_job(&mut self, req: ManagerJobReq, known: &Vec<String>) -> (r: Result<
        JobId,
        WorkerManagerError,
    >)
        requires
            old(self).next_id() < u64::MAX,
        ensures
            executor_check(known@, req.executor) matches Some(n) ==> {
                &&& r matches Err(WorkerManagerError::WorkerNotFound(m)) && m@ == n
                &&& final(self).jobs() == old(self).jobs()
                &&& final(self).next_id() == old(self).next_id()
            },
            executor_check(known@, req.executor) is None ==> {
                &&& r == Ok::<JobId, WorkerManagerError>(JobId(old(self).next_id()))
                &&& final(self).next_id() == old(self).next_id() + 1
                &&& final(self).jobs() == old(self).jobs().insert(JobId(old(self).next_id()), req)
            },
    {
        proof {
            use_type_invariant(&*self);
        }
        match validate_executor(known, &req.executor) {
            Err(e) => {
                return Err(e);
            },
            Ok(()) => {},
        }
        let id = JobId(self.next_id);
        let ghost before = self.jobs@;
        let ghost next = self.next_id;
        let mut jobs: Vec<(JobId, ManagerJobReq)> = Vec::new();
        std::mem::swap(&mut jobs, &mut self.jobs);
        jobs.push((id, req));
        proof {
            let after = jobs@;
            assert(jobs_wf(after, (next + 1) as u64));
            assert forall|k: JobId| #[trigger] job_map(after).contains_key(k) <==> job_map(
                before,
            ).insert(id, req).contains_key(k) by {
                if job_map(before).contains_key(k) {
                    let i = choose|i: int| 0 <= i < before.len() && (#[trigger] before[i]).0 == k;
                    assert(after[i] == before[i]);
                }
                if k == id {
                    assert(after[before.len() as int].0 == id);
                }
                if job_map(after).contains_key(k) && k != id {
                    let i = choose|i: int| 0 <= i < after.len() && (#[trigger] after[i]).0 == k;
                    assert(before[i] == after[i]);
                }
            }
            assert forall|k: JobId| #[trigger] job_map(after).contains_key(k) implies job_map(after)[k]
                == job_map(before).insert(id, req)[k] by {
                if k == id {
                    lemma_job_map_at(after, (next + 1) as u64, before.len() as int);
                } else {
                    let i = choose|i: int| 0 <= i < after.len() && (#[trigger] after[i]).0 == k;
                    assert(before[i] == after[i]);
                    lemma_job_map_at(after, (next + 1) as u64, i);
                    lemma_job_map_at(before, next, i);
                }
            }
            assert(job_map(after) =~= job_map(before).insert(id, req));
        }
        self.next_id = self.next_id + 1;
        self.jobs = jobs;
        Ok(id)
    }

    /// The ids of the running jobs, in the order they were started.
    pub fn job_ids(&self) -> (r: Vec<JobId>)
        ensures
            forall|id: JobId| r@.contains(id) <==> self.jobs().dom().contains(id),
    {
        let mut ids: Vec<JobId> = Vec::new();
        let mut i: usize = 0;
        while i < self.jobs.len()
            invariant
                i <= self.jobs@.len(),
                ids@.len() == i,
                forall|j: int| 0 <= j < i ==> ids@[j] == (#[trigger] self.jobs@[j]).0,
            decreases self.jobs@.len() - i,
        {
            ids.push(self.jobs[i].0);
            i = i + 1;
        }
        proof {
            assert forall|id: JobId| ids@.contains(id) <==> self.jobs().dom().contains(id) by {
                if ids@.contains(id) {
                    let j = choose|j: int| 0 <= j < ids@.len() && ids@[j] == id;
                    assert(self.jobs@[j].0 == id);
                }
                if self.jobs().dom().contains(id) {
                    let j = choose|j: int| 0 <= j < self.jobs@.len() && (#[trigger] self.jobs@[j]).0 == id;
                    assert(ids@[j] == id);
                }
            }
        }
        ids
    }

    /// Whether another job can be given an id.
    pub fn has_room(&self) -> (r: bool)
        ensures
            r == (self.next_id() < u64::MAX),
    {
        self.next_id < u64::MAX
    }

    /// Whether the job `id` is still running.
    pub fn is_job_active(&self, id: JobId) -> (r: bool)
        ensures
            r == self.jobs().dom().contains(id),
    {
        proof {
            use_type_invariant(self);
        }
        self.find(id).is_some()
    }

    /// The request of the job `id`, while it runs.
    pub fn get_job(&self, id: JobId) -> (r: Option<&ManagerJobReq>)
        ensures
            self.jobs().dom().contains(id) ==> r == Some(&self.jobs()[id]),
            !self.jobs().dom().contains(id) ==> r is None,
    {
        proof {
            use_type_invariant(self);
        }
        match self.find(id) {
            Some(i) => {
                proof {
                    lemma_job_map_at(self.jobs@, self.next_id, i as int);
                }
                Some(&self.jobs[i].1)
            },
            None => None,
        }
    }

    /// The place of the job `id` in the list, if it is there.
    fn find(&self, id: JobId) -> (r: Option<usize>)
        ensures
            r matches Some(i) ==> i < self.jobs@.len() && self.jobs@[i as int].0 == id,
            r is None ==> !self.jobs().dom().contains(id),
    {
        let mut i: usize = 0;
        while i < self.jobs.len()
            invariant
                i <= self.jobs@.len(),
                forall|j: int| 0 <= j < i ==> (#[trigger] self.jobs@[j]).0 != id,
            decreases self.jobs@.len() - i,
        {
            if self.jobs[i].0 == id {
                return Some(i);
            }
            i = i + 1;
        }
        None
    }

    /// Forgets the job `id`, once it has ended.
    pub fn finish_job(&mut self, id: JobId)
        ensures
            final(self).jobs() == old(self).jobs().remove(id),
            final(self).next_id() == old(self).next_id(),
    {
        proof {
            use_type_invariant(&*self);
        }
        match self.find(id) {
            None => {
                assert(self.jobs().remove(id) =~= self.jobs());
            },
            Some(i) => {
                let ghost before = self.jobs@;
                let ghost next = self.next_id;
                let mut jobs: Vec<(JobId, ManagerJobReq)> = Vec::new();
                std::mem::swap(&mut jobs, &mut self.jobs);
                jobs.remove(i);
                proof {
                    let after = jobs@;
                    assert(after =~= before.remove(i as int));
                    assert(jobs_wf(after, next)) by {
                        assert forall|a: int, b: int|
                            0 <= a < after.len() && 0 <= b < after.len() && a != b implies (
                            #[trigger] after[a]).0 != (#[trigger] after[b]).0 by {
                            let a0 = if a < i { a } else { a + 1 };
                            let b0 = if b < i { b } else { b + 1 };
                            assert(after[a] == before[a0]);
                            assert(after[b] == before[b0]);
                        }
                        assert forall|a: int| 0 <= a < after.len() implies (#[trigger] after[a]).0.0
                            < next by {
                            let a0 = if a < i { a } else { a + 1 };
                            assert(after[a] == before[a0]);
                        }
                    }
                    assert forall|k: JobId| #[trigger] job_map(after).contains_key(k) <==> job_map(
                        before,
                    ).remove(id).contains_key(k) by {
                        if job_map(after).contains_key(k) {
                            let a = choose|a: int| 0 <= a < after.len() && (#[trigger] after[a]).0 == k;
                            let a0 = if a < i { a } else { a + 1 };
                            assert(after[a] == before[a0]);
                            assert(before[i as int].0 == id);
                            assert(a0 != i);
                        }
                        if job_map(before).contains_key(k) && k != id {
                            let b = choose|b: int| 0 <= b < before.len() && (#[trigger] before[b]).0 == k;
                            assert(b != i);
                            let b1 = if b < i { b } else { b - 1 };
                            assert(after[b1] == before[b]);
                        }
                    }
                    assert forall|k: JobId| #[trigger] job_map(after).contains_key(k) implies job_map(
                        after,
                    )[k] == job_map(before).remove(id)[k] by {
                        let a = choose|a: int| 0 <= a < after.len() && (#[trigger] after[a]).0 == k;
                        let a0 = if a < i { a } else { a + 1 };
                        assert(after[a] == before[a0]);
                        lemma_job_map_at(after, next, a);
                        lemma_job_map_at(before, next, a0);
                    }
                    assert(job_map(after) =~= job_map(before).remove(id));
                }
                self.jobs = jobs;
            },
        }
    }
}

} // verus!
