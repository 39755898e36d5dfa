use server_seeker::data_core::manager_api::{
    DiscoverRequest, JobExecutor, JobId, JobSchedule, ManagerJobReq, RescanRequest,
    ScheduleData, ScheduleJobData, WorkerJobReq,
};
use server_seeker::data_core::proto::scanner::ScanMethod;
use server_seeker::manager::scan_jobs::schedule::{
    ScheduleAction, ScheduleEvent, ScheduleTask, ScheduleTaskState,
};
use server_seeker::manager::scan_jobs::worker::{
    select_less_loaded_worker, DiscoverTracker, RescanTracker, WorkerLoad,
};
use server_seeker::manager::scan_jobs::balancing::{
    sum_updates, DiscoverCounts, ProgressReport, SummedProgress,
};
use server_seeker::data_core::manager_api::RescanJobProgress;
use server_seeker::manager::scan_jobs::worker_manager::{
    choose_workers, JobTable, WorkerChoice, WorkerManagerError,
};

fn discover_job(rate: u32) -> WorkerJobReq {
    WorkerJobReq::Discover(DiscoverRequest {
        targets: vec![],
        excludes: vec![],
        ports: vec![25565],
        port_ranges: vec![],
        rate,
        method: ScanMethod::OnlyHandshake,
    })
}

fn job(name: &str, executor: JobExecutor) -> ManagerJobReq {
    ManagerJobReq { name: name.to_string(), executor, job_request: discover_job(100) }
}

#[test]
fn jobs_get_increasing_ids_and_end() {
    let known = vec!["w1".to_string(), "w2".to_string()];
    let mut t = JobTable::new();
    assert_eq!(t.start_job(job("a", JobExecutor::BalanceAll), &known), Ok(JobId(1)));
    assert_eq!(
        t.start_job(job("b", JobExecutor::Worker { name: "w2".to_string() }), &known),
        Ok(JobId(2))
    );
    assert!(t.is_job_active(JobId(1)));
    assert_eq!(t.get_job(JobId(2)).unwrap().name, "b");
    t.finish_job(JobId(1));
    assert!(!t.is_job_active(JobId(1)));
    assert!(t.is_job_active(JobId(2)));
    assert!(t.get_job(JobId(1)).is_none());
}

#[test]
fn job_with_unknown_worker_is_refused() {
    let known = vec!["w1".to_string()];
    let mut t = JobTable::new();
    let names = vec!["w1".to_string(), "ghost".to_string(), "other".to_string()];
    assert_eq!(
        t.start_job(job("a", JobExecutor::BalanceSpecified { worker_names: names }), &known),
        Err(WorkerManagerError::WorkerNotFound("ghost".to_string()))
    );
    assert!(!t.is_job_active(JobId(1)));
    assert_eq!(t.start_job(job("b", JobExecutor::LeastLoadedAll), &known), Ok(JobId(1)));
}

fn schedule(schedule: JobSchedule, wait_secs: u64) -> ScheduleData {
    ScheduleData {
        name: "s".to_string(),
        executor: JobExecutor::BalanceAll,
        schedule,
        wait_secs,
        job_data: ScheduleJobData::RescanDb { rate: 10, method: ScanMethod::OnlyHandshake },
    }
}

#[test]
fn always_schedule_runs_watches_and_rests() {
    let (mut t, first) = ScheduleTask::new(&schedule(JobSchedule::Always, 60));
    assert_eq!(first, ScheduleAction::RunJob);
    assert_eq!(
        t.step(ScheduleEvent::JobStarted(Some(JobId(4)))),
        Some(ScheduleAction::CheckJob { id: JobId(4), after_secs: 0 })
    );
    assert_eq!(
        t.step(ScheduleEvent::JobActive(true)),
        Some(ScheduleAction::CheckJob { id: JobId(4), after_secs: 5 })
    );
    assert_eq!(t.step(ScheduleEvent::JobActive(false)), Some(ScheduleAction::Sleep(60)));
    assert_eq!(t.step(ScheduleEvent::Woke), Some(ScheduleAction::RunJob));
    assert_eq!(t.step(ScheduleEvent::JobStarted(None)), Some(ScheduleAction::Sleep(5)));
    assert_eq!(t.step(ScheduleEvent::Woke), Some(ScheduleAction::Sleep(60)));
    assert_eq!(t.step(ScheduleEvent::NoUpcomingTime), None);
    assert_eq!(t.step(ScheduleEvent::Woke), Some(ScheduleAction::RunJob));
}

#[test]
fn cron_schedule_waits_for_each_time() {
    let cron = JobSchedule::try_from("0 0 * * * * *".to_string()).unwrap();
    let (mut t, first) = ScheduleTask::new(&schedule(cron, 0));
    assert_eq!(first, ScheduleAction::WaitForNextTime);
    assert_eq!(t.step(ScheduleEvent::Woke), Some(ScheduleAction::RunJob));
    assert_eq!(t.step(ScheduleEvent::JobStarted(None)), Some(ScheduleAction::WaitForNextTime));
    assert_eq!(t.step(ScheduleEvent::NoUpcomingTime), None);
    assert_eq!(t.step(ScheduleEvent::Woke), None);
    let _ = ScheduleTaskState::Ended;
}

#[test]
fn worker_load_rises_and_falls() {
    let mut l = WorkerLoad::new();
    let w = l.start_job(&discover_job(300));
    assert_eq!(w, 300);
    assert_eq!(l.get_load(), 300);
    l.add_load(1);
    assert_eq!(l.get_load(), 301);
    l.remove_load(w);
    assert_eq!(l.get_load(), 1);
    l.remove_load(5);
    assert_eq!(l.get_load(), 0);
    let rescan = WorkerJobReq::Rescan(RescanRequest { method: ScanMethod::OnlyHandshake, rate: 7, targets: vec![] });
    assert_eq!(l.start_job(&rescan), 7);
}

#[test]
fn least_loaded_is_the_first_minimum() {
    assert_eq!(select_less_loaded_worker(&vec![5, 2, 9, 2]), 1);
    assert_eq!(select_less_loaded_worker(&vec![0]), 0);
}

#[test]
fn cancel_only_after_a_job_id() {
    let mut r = RescanTracker::new(3);
    assert_eq!(r.job_to_cancel(), None);
    r.on_message(42, 1, None);
    assert_eq!(r.job_to_cancel(), Some(42));
    let mut d = DiscoverTracker::new();
    d.on_message(9, false, None);
    assert_eq!(d.job_to_cancel(), None);
    d.on_message(9, true, None);
    assert_eq!(d.job_to_cancel(), Some(9));
}

#[test]
fn cron_schedule_displays_its_lower_cased_source() {
    let s = JobSchedule::try_from("0 30 9 * * * *".to_string()).unwrap();
    assert_eq!(s.into_string(), "0 30 9 * * * *");
    let s = JobSchedule::try_from("0 0 12 * JAN * *".to_string()).unwrap();
    assert_eq!(s.into_string(), "0 0 12 * jan * *");
    assert_eq!(JobSchedule::try_from("Always".to_string()).unwrap().into_string(), "always");
}

#[test]
fn reports_are_summed_by_kind() {
    assert!(matches!(sum_updates(&vec![ProgressReport::NoData]), SummedProgress::NoData));
    let d = |f, p, s| ProgressReport::Discover(DiscoverCounts { founded: f, parsing_now: p, successful: s });
    match sum_updates(&vec![ProgressReport::NoData, d(3, 1, 2), d(4, 0, 1)]) {
        SummedProgress::Discover { counts, places } => {
            assert_eq!(counts, DiscoverCounts { founded: 7, parsing_now: 1, successful: 3 });
            assert_eq!(places, vec![1, 2]);
        }
        other => panic!("unexpected {:?}", other),
    }
    let r = |a, c, s| ProgressReport::Rescan(RescanJobProgress { all: a, checked: c, successful: s });
    match sum_updates(&vec![r(10, 4, 1), ProgressReport::NoData, r(99, 3, 2)]) {
        SummedProgress::Rescan(p) => assert_eq!(p, RescanJobProgress { all: 10, checked: 7, successful: 3 }),
        other => panic!("unexpected {:?}", other),
    }
}

#[test]
fn workers_are_chosen_by_executor() {
    let known = vec!["a".to_string(), "b".to_string(), "c".to_string()];
    let loads = vec![5, 2, 2];
    assert_eq!(
        choose_workers(&JobExecutor::Worker { name: "c".to_string() }, &known, &loads),
        Ok(WorkerChoice::One(2))
    );
    assert_eq!(choose_workers(&JobExecutor::LeastLoadedAll, &known, &loads), Ok(WorkerChoice::One(1)));
    let named = vec!["c".to_string(), "a".to_string()];
    assert_eq!(
        choose_workers(&JobExecutor::LeastLoadedSpecified { worker_names: named.clone() }, &known, &loads),
        Ok(WorkerChoice::One(2))
    );
    assert_eq!(
        choose_workers(&JobExecutor::BalanceSpecified { worker_names: named }, &known, &loads),
        Ok(WorkerChoice::Balance(vec![0, 2]))
    );
    assert_eq!(choose_workers(&JobExecutor::BalanceAll, &known, &loads), Ok(WorkerChoice::Balance(vec![0, 1, 2])));
    assert_eq!(
        choose_workers(&JobExecutor::Worker { name: "z".to_string() }, &known, &loads),
        Err(WorkerManagerError::WorkerNotFound("z".to_string()))
    );
}
