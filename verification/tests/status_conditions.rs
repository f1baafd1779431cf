use ansible_operator::conditions::{upsert_condition, Condition};
use ansible_operator::fingerprint::ExecutionHash;
use ansible_operator::model::{HostStatus, PlaybookPlanCondition, PlaybookPlanStatus};
use ansible_operator::status_eval::{
    all_jobs_finished, count_successful, evaluate_per_host_status,
    evaluate_playbookplan_conditions, JobCondition, ObservedJob,
};

fn job(host: Option<&str>, cond_type: &str, cond_status: &str) -> ObservedJob {
    let mut labels = Vec::new();
    if let Some(h) = host {
        labels.push(("playbookplan.host".to_string(), h.to_string()));
    }
    ObservedJob {
        name: Some(format!("job-{}", host.unwrap_or("unlabelled"))),
        labels,
        conditions: vec![JobCondition {
            type_: cond_type.to_string(),
            status: cond_status.to_string(),
        }],
    }
}

fn successful(host: &str) -> ObservedJob {
    job(Some(host), "SuccessCriteriaMet", "True")
}

fn failed(host: &str) -> ObservedJob {
    job(Some(host), "Failed", "True")
}

fn running(host: &str) -> ObservedJob {
    job(Some(host), "Ready", "False")
}

fn lookup<'a>(status: &'a PlaybookPlanStatus, host: &str) -> Option<&'a HostStatus> {
    status
        .hosts_status
        .as_ref()
        .and_then(|hs| hs.iter().find(|(h, _)| h == host).map(|(_, st)| st))
}

#[test]
fn test_status_roll_forward() {
    let hash = ExecutionHash(2);
    let jobs = vec![successful("h1"), failed("h2")];
    let mut status = PlaybookPlanStatus::empty();
    status.hosts_status = Some(vec![(
        "h2".to_string(),
        HostStatus {
            last_applied_hash: "old".to_string(),
        },
    )]);

    evaluate_per_host_status(&jobs, &hash, &mut status);

    assert_eq!(lookup(&status, "h1").unwrap().last_applied_hash, "2");
    assert_eq!(lookup(&status, "h2").unwrap().last_applied_hash, "old");
}

#[test]
fn test_roll_forward_skips_unlabelled_jobs() {
    let hash = ExecutionHash(7);
    let jobs = vec![job(None, "SuccessCriteriaMet", "True")];
    let mut status = PlaybookPlanStatus::empty();

    evaluate_per_host_status(&jobs, &hash, &mut status);

    // The record list is created, but no host entry is written.
    assert_eq!(status.hosts_status.as_ref().unwrap().len(), 0);
}

#[test]
fn test_roll_forward_without_success_leaves_status_absent() {
    let hash = ExecutionHash(7);
    let jobs = vec![failed("h1")];
    let mut status = PlaybookPlanStatus::empty();

    evaluate_per_host_status(&jobs, &hash, &mut status);

    assert!(status.hosts_status.is_none());
}

fn find_condition<'a>(status: &'a PlaybookPlanStatus, t: &str) -> &'a PlaybookPlanCondition {
    status.conditions.iter().find(|c| c.type_ == t).unwrap()
}

#[test]
fn test_conditions_while_jobs_run() {
    let jobs = vec![successful("h1"), running("h2")];
    let mut status = PlaybookPlanStatus::empty();

    evaluate_playbookplan_conditions(&jobs, &mut status, 100);

    let running_cond = find_condition(&status, "Running");
    assert_eq!(running_cond.status, "True");
    assert_eq!(running_cond.reason.as_deref(), Some("JobsRunning"));
    assert_eq!(
        running_cond.message.as_deref(),
        Some("1 jobs are currently running")
    );
    let ready = find_condition(&status, "Ready");
    assert_eq!(ready.status, "False");
    assert_eq!(ready.reason.as_deref(), Some("AwaitingJobResults"));
}

#[test]
fn test_conditions_when_all_succeeded() {
    let jobs = vec![successful("h1"), successful("h2")];
    let mut status = PlaybookPlanStatus::empty();

    evaluate_playbookplan_conditions(&jobs, &mut status, 100);

    let running_cond = find_condition(&status, "Running");
    assert_eq!(running_cond.status, "False");
    assert!(running_cond.reason.is_none());
    let ready = find_condition(&status, "Ready");
    assert_eq!(ready.status, "True");
    assert_eq!(ready.reason.as_deref(), Some("AllJobsSucceeded"));
    assert_eq!(
        ready.message.as_deref(),
        Some("2/2 jobs completed successfully")
    );
}

#[test]
fn test_conditions_on_failure() {
    let jobs = vec![successful("h1"), failed("h2")];
    let mut status = PlaybookPlanStatus::empty();

    evaluate_playbookplan_conditions(&jobs, &mut status, 100);

    let ready = find_condition(&status, "Ready");
    assert_eq!(ready.status, "False");
    assert_eq!(ready.reason.as_deref(), Some("SomeOrAllJobsFailed"));
    assert_eq!(ready.message.as_deref(), Some("1/2 jobs have failed"));
}

#[test]
fn test_ready_not_true_without_jobs() {
    let jobs: Vec<ObservedJob> = Vec::new();
    let mut status = PlaybookPlanStatus::empty();

    evaluate_playbookplan_conditions(&jobs, &mut status, 100);

    let ready = find_condition(&status, "Ready");
    assert_eq!(ready.status, "False");
    assert_eq!(ready.reason.as_deref(), Some("AwaitingJobResults"));
}

#[test]
fn test_condition_upsert_stability() {
    // Two passes over the identical job population must not move any
    // transition timestamp.
    let jobs = vec![successful("h1"), running("h2")];
    let mut status = PlaybookPlanStatus::empty();

    evaluate_playbookplan_conditions(&jobs, &mut status, 100);
    let first: Vec<(String, String, Option<i64>)> = status
        .conditions
        .iter()
        .map(|c| (c.type_.clone(), c.status.clone(), c.last_transition_time))
        .collect();

    evaluate_playbookplan_conditions(&jobs, &mut status, 200);
    let second: Vec<(String, String, Option<i64>)> = status
        .conditions
        .iter()
        .map(|c| (c.type_.clone(), c.status.clone(), c.last_transition_time))
        .collect();

    assert_eq!(first, second);
}

#[test]
fn test_condition_upsert_replaces_on_transition() {
    let mut conditions = vec![PlaybookPlanCondition {
        type_: "Ready".to_string(),
        status: "False".to_string(),
        reason: Some("AwaitingJobResults".to_string()),
        message: None,
        last_transition_time: Some(100),
    }];
    upsert_condition(
        &mut conditions,
        PlaybookPlanCondition {
            type_: "Ready".to_string(),
            status: "True".to_string(),
            reason: Some("AllJobsSucceeded".to_string()),
            message: None,
            last_transition_time: Some(200),
        },
    );
    assert_eq!(conditions.len(), 1);
    assert_eq!(conditions[0].status, "True");
    assert_eq!(conditions[0].last_transition_time, Some(200));
}

#[test]
fn test_condition_accessors() {
    let c = PlaybookPlanCondition {
        type_: "Ready".to_string(),
        status: "True".to_string(),
        reason: Some("AllJobsSucceeded".to_string()),
        message: None,
        last_transition_time: None,
    };
    assert_eq!(c.type_(), "Ready");
    assert_eq!(c.status(), "True");
    assert_eq!(c.reason(), Some("AllJobsSucceeded"));
}

#[test]
fn test_all_jobs_finished() {
    assert!(all_jobs_finished(&Vec::new()));
    assert!(all_jobs_finished(&vec![successful("h1"), failed("h2")]));
    assert!(!all_jobs_finished(&vec![successful("h1"), running("h2")]));
}

#[test]
fn test_count_successful() {
    let jobs = vec![successful("h1"), failed("h2"), successful("h3")];
    assert_eq!(count_successful(&jobs), 2);
}
