//! What the manager does with each message a worker streams back while it
//! runs a job: which results go to the database, what progress to report,
//! and which job to cancel when asked to stop.

use crate::data_core::manager_api::{RescanJobProgress, WorkerJobReq};
use crate::data_core::proto::scanner as pb;
use crate::manager::database::data_parsing::{sql_parse_error, sql_parsed, SqlParsePbDataError};
use crate::manager::database::ParsedForSqlServerData;
use vstd::prelude::*;

verus! {

/// A result to store, made of the server data a message carries: refused
/// as [`ParsedForSqlServerData::try_parse`] says.
pub open spec fn stored_result(
    data: pb::McServerData,
    r: Result<ParsedForSqlServerData, SqlParsePbDataError>,
) -> bool {
    match sql_parse_error(data) {
        Some(e) => r == Err::<ParsedForSqlServerData, SqlParsePbDataError>(e),
        None => r matches Ok(p) && sql_parsed(data, p.new_server.time, p),
    }
}

/// The state of a rescan on one worker: how many targets it was given, how
/// many answered, and the worker's id of the job once known.
pub struct RescanTracker {
    pub all: usize,
    pub successful: usize,
    pub work_id: Option<u32>,
}

impl RescanTracker {
    /// A rescan of `all` targets, nothing heard yet.
    pub fn new(all: usize) -> (r: RescanTracker)
        ensures
            r.all == all,
            r.successful == 0,
            r.work_id is None,
    {
        RescanTracker { all, successful: 0, work_id: None }
    }

    /// Takes a message of the worker: its job id, the targets checked so
    /// far, and the data of a server that answered, if one did. Gives the
    /// result to store, if any, and the progress to report.
    pub fn on_message(&mut self, job_id: u32, checked: usize, server_data: Option<pb::McServerData>) -> (r: (
        Option<Result<ParsedForSqlServerData, SqlParsePbDataError>>,
        RescanJobProgress,
    ))
        ensures
            final(self).work_id == Some(job_id),
            final(self).all == old(self).all,
            final(self).successful == if server_data is Some {
                if old(self).successful < usize::MAX {
                    (old(self).successful + 1) as usize
                } else {
                    0
                }
            } else {
                old(self).successful
            },
            server_data is None <==> r.0 is None,
            server_data matches Some(d) ==> (r.0 matches Some(res) && stored_result(d, res)),
            r.1 == (RescanJobProgress {
                all: old(self).all,
                checked,
                successful: final(self).successful,
            }),
    {
        self.work_id = Some(job_id);
        let stored = match server_data {
            None => None,
            Some(data) => {
                self.successful = if self.successful < usize::MAX {
                    self.successful + 1
                } else {
                    0
                };
                Some(ParsedForSqlServerData::try_parse(data))
            },
        };
        (stored, RescanJobProgress { all: self.all, checked, successful: self.successful })
    }

    /// The job to cancel on the worker when the rescan is asked to stop:
    /// the worker's id of the job, once one was received, else none.
    pub fn job_to_cancel(&self) -> (r: Option<u32>)
        ensures
            r == self.work_id,
    {
        self.work_id
    }
}

/// The state of a discovery on one worker: the worker's id of the job,
/// once a message with statistics gave it.
pub struct DiscoverTracker {
    pub work_id: Option<u32>,
}

impl DiscoverTracker {
    /// A discovery, nothing heard yet.
    pub fn new() -> (r: DiscoverTracker)
        ensures
            r.work_id is None,
    {
        DiscoverTracker { work_id: None }
    }

    /// Takes a message of the worker: its job id, whether it carries
    /// statistics, and the data of a server found, if any. Gives the result
    /// to store, if any. The job id is kept from messages with statistics.
    pub fn on_message(&mut self, job_id: u32, has_stats: bool, server_data: Option<pb::McServerData>) -> (r:
        Option<Result<ParsedForSqlServerData, SqlParsePbDataError>>)
        ensures
            final(self).work_id == if has_stats {
                Some(job_id)
            } else {
                old(self).work_id
            },
            server_data is None <==> r is None,
            server_data matches Some(d) ==> (r matches Some(res) && stored_result(d, res)),
    {
        if has_stats {
            self.work_id = Some(job_id);
        }
        match server_data {
            None => None,
            Some(data) => Some(ParsedForSqlServerData::try_parse(data)),
        }
    }

    /// The job to cancel on the worker when the discovery is asked to stop:
    /// the worker's id of the job, once one was received, else none.
    pub fn job_to_cancel(&self) -> (r: Option<u32>)
        ensures
            r == self.work_id,
    {
        self.work_id
    }
}

/// The load after `amount` more, held at the largest `u64`.
pub open spec fn load_added(load: u64, amount: u64) -> u64 {
    if load + amount <= u64::MAX {
        (load + amount) as u64
    } else {
        u64::MAX
    }
}

/// The load after `amount` less, never below zero.
pub open spec fn load_removed(load: u64, amount: u64) -> u64 {
    if load >= amount {
        (load - amount) as u64
    } else {
        0
    }
}

/// What a job weighs on a worker while it runs: its rate.
pub open spec fn job_weight(req: WorkerJobReq) -> u64 {
    match req {
        WorkerJobReq::Discover(d) => d.rate as u64,
        WorkerJobReq::Rescan(r) => r.rate as u64,
    }
}

/// How loaded a worker is: the rates of the jobs it runs, summed, and one
/// for each single server it scans.
#[derive(Debug)]
pub struct WorkerLoad {
    current: u64,
}

impl WorkerLoad {
    /// The load.
    pub closed spec fn load(&self) -> u64 {
        self.current
    }

    /// No load.
    pub fn new() -> (r: WorkerLoad)
        ensures
            r.load() == 0,
    {
        WorkerLoad { current: 0 }
    }

    /// The load now.
    pub fn get_load(&self) -> (r: u64)
        ensures
            r == self.load(),
    {
        self.current
    }

    /// Counts `amount` more, while a job runs.
    pub fn add_load(&mut self, amount: u64)
        ensures
            final(self).load() == load_added(old(self).load(), amount),
    {
        self.current = self.current.saturating_add(amount);
    }

    /// Counts `amount` less, once a job has ended; the load stays at zero
    /// or above.
    pub fn remove_load(&mut self, amount: u64)
        ensures
            final(self).load() == load_removed(old(self).load(), amount),
    {
        self.current = self.current.saturating_sub(amount);
    }

    /// Counts a job in, by its rate; the returned amount is what to count
    /// out when the job ends.
    pub fn start_job(&mut self, req: &WorkerJobReq) -> (r: u64)
        ensures
            r == job_weight(*req),
            final(self).load() == load_added(old(self).load(), r),
    {
        let weight: u64 = match req {
            WorkerJobReq::Discover(d) => d.rate as u64,
            WorkerJobReq::Rescan(q) => q.rate as u64,
        };
        self.add_load(weight);
        weight
    }
}

/// A job's load comes off again when it ends: counting an amount in and
/// then out gives back the load from before, unless the sum passed the
/// largest `u64`.
pub proof fn lemma_load_restored(load: u64, amount: u64)
    requires
        load + amount <= u64::MAX,
    ensures
        load_removed(load_added(load, amount), amount) == load,
{
}

/// The least loaded worker: the first of the smallest loads. There must
/// be at least one worker.
pub fn select_less_loaded_worker(loads: &Vec<u64>) -> (r: usize)
    requires
        loads.len() > 0,
    ensures
        r < loads.len(),
        forall|j: int| 0 <= j < loads.len() ==> loads[r as int] <= #[trigger] loads[j],
        forall|j: int| 0 <= j < r ==> loads[r as int] < #[trigger] loads[j],
{
    let mut best: usize = 0;
    let mut i: usize = 1;
    while i < loads.len()
        invariant
            1 <= i <= loads.len(),
            best < i,
            forall|j: int| 0 <= j < i ==> loads[best as int] <= #[trigger] loads[j],
            forall|j: int| 0 <= j < best ==> loads[best as int] < #[trigger] loads[j],
        decreases loads.len() - i,
    {
        if loads[i] < loads[best] {
            best = i;
        }
        i = i + 1;
    }
    best
}

} // verus!
