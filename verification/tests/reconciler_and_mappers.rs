use ansible_operator::errors::ReconcileError;
use ansible_operator::fingerprint::{calculate_execution_hash, SecretData};
use ansible_operator::mappers::{node_to_playbookplans, secret_to_playbookplans, PlanEntry};
use ansible_operator::model::{
    ConnectionStrategy, ExecutionMode, Hosts, Inventory, Node, NodeSelectorTerm, Phase, PlanMeta,
    PlaybookPlanSpec, PlaybookPlanStatus, PlaybookTemplate, PlaybookVariableSource, SecretRef,
    SshConfig,
};
use ansible_operator::reconciler::{
    check_preconditions, reconcile_finish, reconcile_prepare, should_await_change,
};
use ansible_operator::schedule::parse_rfc3339_secs;
use ansible_operator::status_eval::{JobCondition, ObservedJob};
use ansible_operator::workspace::is_outdated;

fn meta() -> PlanMeta {
    PlanMeta {
        name: Some("plan".to_string()),
        namespace: Some("default".to_string()),
        uid: Some("uid-1".to_string()),
        generation: Some(3),
        deletion_timestamp: None,
    }
}

fn spec(mode: ExecutionMode, schedule: Option<&str>) -> PlaybookPlanSpec {
    PlaybookPlanSpec {
        image: "registry.tld/ansible:1.0.0".to_string(),
        mode,
        schedule: schedule.map(|s| s.to_string()),
        time_zone: None,
        inventory: vec![Inventory {
            name: "static".to_string(),
            hosts: Hosts::FromStaticList {
                from_list: vec!["h1".to_string(), "h2".to_string()],
            },
        }],
        connection_strategy: ConnectionStrategy::Ssh {
            ssh: SshConfig {
                user: "root".to_string(),
                secret_ref: SecretRef {
                    name: "ssh-key".to_string(),
                },
            },
        },
        template: PlaybookTemplate {
            playbook: "- hosts: all\n".to_string(),
            variables: None,
            files: None,
            requirements: None,
        },
    }
}

fn successful_job(host: &str) -> ObservedJob {
    ObservedJob {
        name: Some(format!("job-{host}")),
        labels: vec![("playbookplan.host".to_string(), host.to_string())],
        conditions: vec![JobCondition {
            type_: "SuccessCriteriaMet".to_string(),
            status: "True".to_string(),
        }],
    }
}

#[test]
fn test_preconditions() {
    assert!(check_preconditions(&meta()).is_ok());
    let mut m = meta();
    m.generation = None;
    assert!(matches!(
        check_preconditions(&m),
        Err(ReconcileError::PreconditionFailed(_))
    ));
}

#[test]
fn test_deletion_awaits_change() {
    let mut m = meta();
    assert!(!should_await_change(&m));
    m.deletion_timestamp = Some("2025-08-12T20:00:00Z".to_string());
    assert!(should_await_change(&m));
}

#[test]
fn test_workspace_staleness() {
    let m = meta();
    let mut status = PlaybookPlanStatus::empty();
    assert!(is_outdated(&m, &status));
    status.last_rendered_generation = Some(2);
    assert!(is_outdated(&m, &status));
    status.last_rendered_generation = Some(3);
    assert!(!is_outdated(&m, &status));
}

#[test]
fn test_prepare_dispatches_one_job_per_host() {
    let now = parse_rfc3339_secs("2025-08-12T19:59:00Z").unwrap();
    let secrets: Vec<SecretData> = Vec::new();
    let p = reconcile_prepare(
        &meta(),
        &spec(ExecutionMode::OneShot, None),
        PlaybookPlanStatus::empty(),
        &Vec::new(),
        false,
        &secrets,
        now,
    )
    .unwrap();

    assert!(p.workspace.is_some());
    assert_eq!(p.status.eligible_hosts_count, Some(2));
    assert_eq!(p.status.last_rendered_generation, Some(3));
    assert_eq!(p.jobs_to_create.len(), 2);
    assert!(p.jobs_to_create[0].name.ends_with("-on-h1"));
    assert!(p.jobs_to_create[1].name.ends_with("-on-h2"));
    assert_eq!(p.requeue_secs, 3600);

    // Reconciling twice computes the same job names, so at most one job per
    // host is ever created.
    let p2 = reconcile_prepare(
        &meta(),
        &spec(ExecutionMode::OneShot, None),
        PlaybookPlanStatus::empty(),
        &Vec::new(),
        false,
        &secrets,
        now,
    )
    .unwrap();
    assert_eq!(p.jobs_to_create[0].name, p2.jobs_to_create[0].name);
    assert_eq!(p.jobs_to_create[1].name, p2.jobs_to_create[1].name);
}

#[test]
fn test_prepare_delays_before_the_window() {
    let now = parse_rfc3339_secs("2025-08-12T19:30:00Z").unwrap();
    let until = parse_rfc3339_secs("2025-08-12T20:00:00Z").unwrap();
    let p = reconcile_prepare(
        &meta(),
        &spec(ExecutionMode::Recurring, Some("0 20 * * *")),
        PlaybookPlanStatus::empty(),
        &Vec::new(),
        false,
        &Vec::new(),
        now,
    )
    .unwrap();
    assert_eq!(p.jobs_to_create.len(), 0);
    assert_eq!(p.status.phase, Some(Phase::Scheduled));
    assert_eq!(p.status.next_run, Some(until));
    assert_eq!(p.requeue_secs, (until - now) as u64);
}

#[test]
fn test_prepare_rejects_invalid_schedule() {
    let now = parse_rfc3339_secs("2025-08-12T19:30:00Z").unwrap();
    let r = reconcile_prepare(
        &meta(),
        &spec(ExecutionMode::Recurring, Some("not a cron")),
        PlaybookPlanStatus::empty(),
        &Vec::new(),
        false,
        &Vec::new(),
        now,
    );
    assert!(matches!(r, Err(ReconcileError::PreconditionFailed(_))));
}

#[test]
fn test_prepare_rejects_incomplete_metadata() {
    let now = parse_rfc3339_secs("2025-08-12T19:30:00Z").unwrap();
    let mut m = meta();
    m.name = None;
    let r = reconcile_prepare(
        &m,
        &spec(ExecutionMode::OneShot, None),
        PlaybookPlanStatus::empty(),
        &Vec::new(),
        false,
        &Vec::new(),
        now,
    );
    assert!(matches!(r, Err(ReconcileError::PreconditionFailed(_))));
}

#[test]
fn test_prepare_propagates_render_error() {
    let now = parse_rfc3339_secs("2025-08-12T19:30:00Z").unwrap();
    let mut s = spec(ExecutionMode::OneShot, None);
    s.template.playbook = "key: [unclosed".to_string();
    let r = reconcile_prepare(
        &meta(),
        &s,
        PlaybookPlanStatus::empty(),
        &Vec::new(),
        false,
        &Vec::new(),
        now,
    );
    assert!(matches!(r, Err(ReconcileError::RenderError(_))));
}

#[test]
fn test_recurring_cycle() {
    // After all jobs of a recurring plan finish, the plan is scheduled
    // again: nextRun is the next hour boundary and the requeue delay is
    // exactly nextRun - now.
    let now = parse_rfc3339_secs("2025-08-12T19:59:00Z").unwrap();
    let next_hour = parse_rfc3339_secs("2025-08-12T20:00:00Z").unwrap();
    let secrets: Vec<SecretData> = Vec::new();
    let hash = calculate_execution_hash("- hosts: all\n", &secrets);

    let mut status = PlaybookPlanStatus::empty();
    status.eligible_hosts = Some(vec![("static".to_string(), vec!["h1".to_string()])]);

    let jobs = vec![successful_job("h1")];
    let (st, requeue) = reconcile_finish(
        status,
        &jobs,
        &hash,
        ExecutionMode::Recurring,
        Some("0 * * * *"),
        "UTC",
        now,
        false,
    )
    .unwrap();

    assert_eq!(st.phase, Some(Phase::Scheduled));
    assert_eq!(st.next_run, Some(next_hour));
    assert_eq!(requeue, Some((next_hour - now) as u64));
}

#[test]
fn test_oneshot_finishes_when_no_host_is_outdated() {
    let now = parse_rfc3339_secs("2025-08-12T19:59:00Z").unwrap();
    let secrets: Vec<SecretData> = Vec::new();
    let hash = calculate_execution_hash("- hosts: all\n", &secrets);

    let mut status = PlaybookPlanStatus::empty();
    status.eligible_hosts = Some(vec![("static".to_string(), vec!["h1".to_string()])]);

    // The successful job rolls h1 forward to the current fingerprint, so no
    // outdated host remains and the plan finishes.
    let jobs = vec![successful_job("h1")];
    let (st, requeue) = reconcile_finish(
        status,
        &jobs,
        &hash,
        ExecutionMode::OneShot,
        None,
        "UTC",
        now,
        true,
    )
    .unwrap();

    assert_eq!(st.phase, Some(Phase::Finished));
    assert!(st.next_run.is_none());
    assert!(requeue.is_none());
}

#[test]
fn test_created_jobs_mark_the_plan_applying() {
    let now = parse_rfc3339_secs("2025-08-12T19:59:00Z").unwrap();
    let secrets: Vec<SecretData> = Vec::new();
    let hash = calculate_execution_hash("- hosts: all\n", &secrets);

    let mut status = PlaybookPlanStatus::empty();
    status.eligible_hosts = Some(vec![("static".to_string(), vec!["h1".to_string()])]);

    // No job result yet: the pass that created jobs reports Applying.
    let (st, requeue) = reconcile_finish(
        status,
        &Vec::new(),
        &hash,
        ExecutionMode::Recurring,
        None,
        "UTC",
        now,
        true,
    )
    .unwrap();
    assert_eq!(st.phase, Some(Phase::Applying));
    assert!(st.next_run.is_none());
    assert!(requeue.is_none());
}

fn plan_entry(name: &str, namespace: &str, spec_: PlaybookPlanSpec) -> PlanEntry {
    PlanEntry {
        name: name.to_string(),
        namespace: Some(namespace.to_string()),
        spec: spec_,
    }
}

#[test]
fn test_node_mapper_selects_node_backed_plans() {
    let mut node_backed = spec(ExecutionMode::OneShot, None);
    node_backed.inventory = vec![Inventory {
        name: "workers".to_string(),
        hosts: Hosts::FromClusterNodes {
            from_nodes: NodeSelectorTerm::MatchLabels { labels: Vec::new() },
        },
    }];
    let plans = vec![
        plan_entry("static-plan", "default", spec(ExecutionMode::OneShot, None)),
        plan_entry("node-plan", "default", node_backed),
    ];
    let refs = node_to_playbookplans(&plans);
    assert_eq!(refs.len(), 1);
    assert_eq!(refs[0].name, "node-plan");
}

#[test]
fn test_secret_mapper_matches_namespace_and_reference() {
    let mut with_vars = spec(ExecutionMode::OneShot, None);
    with_vars.template.variables = Some(vec![PlaybookVariableSource::SecretRef {
        secret_ref: SecretRef {
            name: "shared-secret".to_string(),
        },
    }]);
    let plans = vec![
        plan_entry("uses-it", "default", with_vars.clone()),
        plan_entry("wrong-namespace", "other", with_vars),
        plan_entry("ignores-it", "default", spec(ExecutionMode::OneShot, None)),
    ];
    let refs = secret_to_playbookplans(
        &plans,
        &Some("default".to_string()),
        &"shared-secret".to_string(),
    );
    assert_eq!(refs.len(), 1);
    assert_eq!(refs[0].name, "uses-it");

    let none = secret_to_playbookplans(
        &plans,
        &Some("default".to_string()),
        &"unrelated".to_string(),
    );
    assert_eq!(none.len(), 0);
}

#[test]
fn test_unused_node_list_does_not_affect_static_resolution() {
    // Inventory resolution purity: static lists ignore the node set.
    let now = parse_rfc3339_secs("2025-08-12T19:59:00Z").unwrap();
    let nodes = vec![Node {
        name: "w1".to_string(),
        labels: Vec::new(),
    }];
    let p1 = reconcile_prepare(
        &meta(),
        &spec(ExecutionMode::OneShot, None),
        PlaybookPlanStatus::empty(),
        &nodes,
        false,
        &Vec::new(),
        now,
    )
    .unwrap();
    let p2 = reconcile_prepare(
        &meta(),
        &spec(ExecutionMode::OneShot, None),
        PlaybookPlanStatus::empty(),
        &Vec::new(),
        false,
        &Vec::new(),
        now,
    )
    .unwrap();
    assert_eq!(p1.status.eligible_hosts, p2.status.eligible_hosts);
}
