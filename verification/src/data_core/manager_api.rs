//! Requests, jobs and progress reports of the manager's API.

use crate::data_core::proto::scanner::ScanMethod;
use crate::ids::Uuid;
use crate::net::{IpAddr, IpNetwork};
use crate::time::Timestamp;
use vstd::prelude::*;

verus! {

#[verifier::external_type_specification]
#[verifier::external_body]
pub struct ExUrl(url::Url);

#[verifier::external_type_specification]
#[verifier::external_body]
pub struct ExCronSchedule(cron::Schedule);

#[verifier::external_type_specification]
#[verifier::external_body]
pub struct ExCronError(cron::error::Error);

/// The text `str::to_lowercase` makes of `s`: each character by its
/// Unicode lower case mapping.
pub uninterp spec fn lowercased(s: Seq<char>) -> Seq<char>;

/// Whether the `cron` crate reads `expr` as a schedule.
pub uninterp spec fn cron_accepts(expr: Seq<char>) -> bool;

/// Calls `str::to_lowercase`. The result is named, not described.
#[verifier::external_body]
fn to_lowercase(s: &str) -> (r: String)
    ensures
        r@ == lowercased(s@),
{
    s.to_lowercase()
}

/// The text that a cron schedule displays as: the source expression it
/// was parsed from.
pub uninterp spec fn cron_text(s: cron::Schedule) -> Seq<char>;

/// Calls `cron::Schedule::try_from(&str)`, which parses the expression and
/// keeps it as the schedule's source. Whether it is accepted is named; an
/// accepted schedule displays as the expression.
#[verifier::external_body]
fn parse_cron(expr: &str) -> (r: Result<cron::Schedule, cron::error::Error>)
    ensures
        r is Ok <==> cron_accepts(expr@),
        r matches Ok(s) ==> cron_text(s) == expr@,
{
    cron::Schedule::try_from(expr)
}

/// Calls `to_string` on a cron schedule, which writes its source through
/// `Display`.
#[verifier::external_body]
fn cron_to_string(s: &cron::Schedule) -> (r: String)
    ensures
        r@ == cron_text(*s),
{
    s.to_string()
}

/// Identifier of a running job.
#[derive(Clone, Copy, Debug, PartialEq, Eq, Hash, Structural)]
pub struct JobId(pub u64);

/// A request to look for servers in some networks.
#[derive(Clone, Debug)]
pub struct DiscoverRequest {
    pub targets: Vec<IpNetwork>,
    pub excludes: Vec<IpNetwork>,
    pub ports: Vec<u16>,
    pub port_ranges: Vec<PortRange>,
    pub rate: u32,
    pub method: ScanMethod,
}

/// An inclusive range of ports.
#[derive(Clone, Copy, Debug, PartialEq, Eq, Structural)]
pub struct PortRange {
    pub min: u16,
    pub max: u16,
}

/// A request to scan known servers again.
#[derive(Clone, Debug)]
pub struct RescanRequest {
    pub method: ScanMethod,
    pub rate: u32,
    pub targets: Vec<RescanTarget>,
}

/// One known server, with the nick last used to join it.
#[derive(Clone, Debug)]
pub struct RescanTarget {
    pub ip: IpAddr,
    pub port: u16,
    pub player_name: Option<String>,
}

/// The work that one worker is asked to do.
#[derive(Clone, Debug)]
pub enum WorkerJobReq {
    Discover(DiscoverRequest),
    Rescan(RescanRequest),
}

/// A named job, and who should run it.
#[derive(Clone, Debug)]
pub struct ManagerJobReq {
    pub name: String,
    pub executor: JobExecutor,
    pub job_request: WorkerJobReq,
}

#[derive(Clone, Copy, Debug, PartialEq, Eq, Structural)]
pub enum JobType {
    Discover,
    Rescan,
}

/// Progress of a rescan: targets in all, targets checked, servers answered.
#[derive(Clone, Copy, Debug, PartialEq, Eq, Default, Structural)]
pub struct RescanJobProgress {
    pub all: usize,
    pub checked: usize,
    pub successful: usize,
}

/// Which workers run a job. A list of worker names is read as a set: a name
/// listed twice counts once.
#[derive(Clone, Debug)]
pub enum JobExecutor {
    Worker { name: String },
    LeastLoadedSpecified { worker_names: Vec<String> },
    LeastLoadedAll,
    BalanceSpecified { worker_names: Vec<String> },
    BalanceAll,
}

/// A worker, by name and address.
#[derive(Debug)]
pub struct WorkerInfo {
    pub name: String,
    pub url: url::Url,
}

/// When a scheduled job runs: again as soon as it ends, or by a cron
/// expression.
#[derive(Debug)]
pub enum JobSchedule {
    Always,
    Cron(cron::Schedule),
}

impl JobSchedule {
    /// Reads a schedule, case aside: `always`, or a cron expression, which
    /// is kept in lower case.
    pub fn try_from(value: String) -> (r: Result<JobSchedule, cron::error::Error>)
        ensures
            lowercased(value@) == "always"@ ==> r matches Ok(JobSchedule::Always),
            lowercased(value@) != "always"@ ==> {
                &&& r is Ok <==> cron_accepts(lowercased(value@))
                &&& r matches Ok(s) ==> (s matches JobSchedule::Cron(c) && cron_text(c) == lowercased(
                    value@,
                ))
            },
    {
        let lower = to_lowercase(value.as_str());
        let always = "always".to_string();
        proof {
            broadcast use vstd::string::to_string_from_display_ensures_for_str;
        }
        if lower == always {
            return Ok(JobSchedule::Always);
        }
        match parse_cron(lower.as_str()) {
            Ok(schedule) => Ok(JobSchedule::Cron(schedule)),
            Err(e) => Err(e),
        }
    }

    /// The schedule as text: `always`, or the cron expression.
    pub fn into_string(self) -> (r: String)
        ensures
            self matches JobSchedule::Always ==> r@ == "always"@,
            self matches JobSchedule::Cron(c) ==> r@ == cron_text(c),
    {
        proof {
            broadcast use vstd::string::to_string_from_display_ensures_for_str;
        }
        match self {
            JobSchedule::Always => "always".to_string(),
            JobSchedule::Cron(c) => cron_to_string(&c),
        }
    }
}

/// The job a schedule starts.
#[derive(Clone, Debug)]
pub enum ScheduleJobData {
    Discover(DiscoverRequest),
    RescanDb { method: ScanMethod, rate: u32 },
}

/// A named schedule: who runs the job, when, how long to wait between
/// runs, and the job.
#[derive(Debug)]
pub struct ScheduleData {
    pub name: String,
    pub executor: JobExecutor,
    pub schedule: JobSchedule,
    pub wait_secs: u64,
    pub job_data: ScheduleJobData,
}

/// A webhook, by address and name.
#[derive(Debug)]
pub struct WebhookInfo {
    pub url: url::Url,
    pub webhook_name: String,
}

/// What is known of a tracked player: who, when the webhook last heard of
/// them, and where they were seen.
#[derive(Clone, Debug)]
pub struct PlayerTrackInfo {
    pub name: Option<String>,
    pub uuid: Option<Uuid>,
    pub last_send: Option<Timestamp>,
    pub last_server_ip: Option<IpAddr>,
    pub last_server_port: Option<u16>,
}

/// A player named by nick, by UUID, or by both.
#[derive(Clone, Debug)]
pub struct PlayerTrackIdent {
    pub name: Option<String>,
    pub uuid: Option<Uuid>,
}

impl PlayerTrackIdent {
    /// Accepts an identification that gives a name or a UUID.
    pub fn try_from(name: Option<String>, uuid: Option<Uuid>) -> (r: Result<
        PlayerTrackIdent,
        &'static str,
    >)
        ensures
            name is None && uuid is None ==> r == Err::<PlayerTrackIdent, &'static str>(
                "At least one of 'name' or 'uuid' must be provided",
            ),
            !(name is None && uuid is None) ==> (r matches Ok(ident) && ident.name == name
                && ident.uuid == uuid),
    {
        if name.is_none() && uuid.is_none() {
            return Err("At least one of 'name' or 'uuid' must be provided");
        }
        Ok(PlayerTrackIdent { name, uuid })
    }
}

} // verus!
