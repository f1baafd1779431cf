//! The reconciliation state machine: one pass is split into a pure
//! preparation step (resolve, render, fingerprint, schedule gate, job
//! candidates) and a pure finishing step (status fold, phase and requeue).
//! The caller performs the cluster I/O between and around the two.

use vstd::prelude::*;
use crate::errors::ReconcileError;
use crate::execution::{find_all_hosts, find_outdated_hosts, spec_all_hosts, spec_outdated_hosts};
use crate::fingerprint::{calculate_execution_hash, spec_execution_hash, ExecutionHash};
use crate::inventory::{count_unique_hosts, resolve, resolve_post, spec_unique_host_count};
use crate::job::{create_job_for_host, job_post, JobModel};
use crate::model::{
    ExecutionMode, Phase, PlanMeta, PlaybookPlanSpec, PlaybookPlanStatus,
};
use crate::schedule::{
    evaluate_schedule, forecast_next_run, spec_evaluate_schedule, spec_forecast_next_run,
    Timing, MAX_SCHEDULE_INSTANT,
};
use crate::status_eval::{
    all_jobs_finished, evaluate_per_host_status, evaluate_playbookplan_conditions,
    spec_all_jobs_finished, spec_count_successful, spec_evaluate_conditions, spec_roll_forward,
    ObservedJob,
};
use crate::strutil::{hex_str, str_to_string};
use crate::workspace::{render_secret, spec_is_outdated, is_outdated, WorkspaceModel};
use crate::fingerprint::SecretData;
use crate::conditions::{conds_views, opt_str_view};
use crate::execution::all_hosts;
use crate::status_eval::hs_views;

verus! {

/// The window, in seconds, within which a cron firing counts as `now`.
pub const FIRING_WINDOW: i64 = 15;

/// The lookback, in seconds, of the post-run forecast; negative so the
/// firing that just ran is not returned again.
pub const FORECAST_LOOKBACK: i64 = -5;

/// The default requeue interval, in seconds, when nothing overrides it.
pub const DEFAULT_REQUEUE_SECS: u64 = 3600;

/// A requeue delay clamped into `u64` seconds.
pub open spec fn clamp_secs(d: int) -> u64 {
    if d > u64::MAX {
        u64::MAX
    } else if d < 0 {
        0u64
    } else {
        d as u64
    }
}

/// Clamps an instant difference into `u64` seconds.
fn secs_between(later: i64, earlier: i64) -> (r: u64)
    ensures
        r == clamp_secs(later - earlier),
{
    let d: i128 = later as i128 - earlier as i128;
    if d > u64::MAX as i128 {
        u64::MAX
    } else if d < 0 {
        0
    } else {
        d as u64
    }
}

/// A plan being deleted is left alone: the pass becomes a no-op awaiting
/// further change.
pub fn should_await_change(meta: &PlanMeta) -> (r: bool)
    ensures
        r == (meta.deletion_timestamp is Some),
{
    match &meta.deletion_timestamp {
        Some(_) => true,
        None => false,
    }
}

/// The observed object must carry namespace, name, generation and uid
/// before a pass can do anything with it.
pub open spec fn meta_complete(meta: &PlanMeta) -> bool {
    meta.name is Some && meta.namespace is Some && meta.generation is Some && meta.uid is Some
}

/// Checks the pass preconditions, failing with a descriptive message.
pub fn check_preconditions(meta: &PlanMeta) -> (r: Result<(), ReconcileError>)
    ensures
        r is Ok <==> meta_complete(meta),
        !meta_complete(meta) ==> r matches Err(ReconcileError::PreconditionFailed(_)),
{
    if meta.name.is_none() {
        return Err(ReconcileError::PreconditionFailed(str_to_string("name not set")));
    }
    if meta.namespace.is_none() {
        return Err(ReconcileError::PreconditionFailed(str_to_string("namespace not set")));
    }
    if meta.generation.is_none() {
        return Err(ReconcileError::PreconditionFailed(str_to_string("generation not set")));
    }
    if meta.uid.is_none() {
        return Err(ReconcileError::PreconditionFailed(str_to_string("uid not set")));
    }
    Ok(())
}

/// Everything one preparation step decides: the updated status, the
/// workspace to store (when stale), the fingerprint, the jobs to create
/// where none with the same name exists, and the requeue delay so far.
pub struct PassPlan {
    pub status: PlaybookPlanStatus,
    pub workspace: Option<WorkspaceModel>,
    pub hash: ExecutionHash,
    pub jobs_to_create: Vec<JobModel>,
    pub requeue_secs: u64,
}

/// The IANA zone the schedule is evaluated in: the plan's, defaulting to
/// UTC.
pub open spec fn plan_tz(spec_: &PlaybookPlanSpec) -> Seq<char> {
    match spec_.time_zone {
        Some(tz) => tz@,
        None => "UTC"@,
    }
}

/// Whether the workspace must be (re)rendered this pass.
pub open spec fn needs_render(
    workspace_exists: bool,
    generation: i64,
    status: &PlaybookPlanStatus,
) -> bool {
    !workspace_exists || spec_is_outdated(generation, status)
}

/// The start-time argument handed to the job builder: the firing instant
/// under a schedule, nothing for an immediate run.
pub open spec fn dispatch_start(spec_: &PlaybookPlanSpec, start: i64) -> Option<i64> {
    match spec_.schedule {
        Some(_) => Some(start),
        None => None,
    }
}

/// What the preparation step promises.  The status is rewritten with the
/// resolved hosts, their deduplicated count, the fingerprint and, when the
/// workspace was rendered, the rendered generation; the schedule gate then
/// decides between waiting (`Delayed`), dispatching jobs (`Now`), or
/// finishing when nothing is outdated.
pub open spec fn prepare_post(
    p: PassPlan,
    meta: &PlanMeta,
    spec_: &PlaybookPlanSpec,
    old_status: &PlaybookPlanStatus,
    nodes: Seq<crate::model::Node>,
    workspace_exists: bool,
    secrets: Seq<Seq<(Seq<char>, Seq<u8>)>>,
    now: i64,
) -> bool {
    let generation = meta.generation->0;
    let render = needs_render(workspace_exists, generation, old_status);
    let hash = spec_execution_hash(spec_.template.playbook@, secrets);
    let timing = spec_evaluate_schedule(opt_str_view(spec_.schedule), plan_tz(spec_), now, FIRING_WINDOW as i64)->0;
    let outdated = spec_outdated_hosts(&p.status, hash);
    &&& p.status.eligible_hosts matches Some(groups) && resolve_post(
        spec_.inventory@,
        nodes,
        groups@,
    )
    &&& p.status.eligible_hosts_count == Some(
        spec_unique_host_count(all_hosts(p.status.eligible_hosts->0@)) as usize,
    )
    &&& p.hash.0 == hash
    &&& opt_str_view(p.status.current_hash) == Some(hex_str(hash as nat))
    &&& (render <==> p.workspace is Some)
    &&& (p.workspace matches Some(w) ==> {
        &&& Some(w.name@) == opt_str_view(meta.name)
        &&& Some(w.namespace@) == opt_str_view(meta.namespace)
        &&& Some(crate::model::pairs_views(w.string_data@)) == crate::workspace::spec_workspace_data(
            spec_,
            crate::workspace::groups_views(p.status.eligible_hosts->0@),
        )
    })
    &&& p.status.last_rendered_generation == (if render {
        Some(generation)
    } else {
        old_status.last_rendered_generation
    })
    &&& p.status.hosts_status == old_status.hosts_status
    &&& p.status.conditions == old_status.conditions
    &&& (outdated.len() == 0 || old_status.phase == Some(Phase::Finished) ==> {
        &&& p.jobs_to_create@.len() == 0
        &&& p.status.phase == old_status.phase
        &&& p.status.next_run == old_status.next_run
        &&& p.requeue_secs == DEFAULT_REQUEUE_SECS
    })
    &&& (!(outdated.len() == 0 || old_status.phase == Some(Phase::Finished)) ==> (match timing {
        Timing::Delayed(until) => {
            &&& p.jobs_to_create@.len() == 0
            &&& p.status.phase == Some(Phase::Scheduled)
            &&& p.status.next_run == Some(until)
            &&& p.requeue_secs == clamp_secs(until - now)
        },
        Timing::Now(start) => {
            let dispatch = if spec_.mode == ExecutionMode::OneShot {
                outdated
            } else {
                spec_all_hosts(&p.status)
            };
            &&& (dispatch.len() == 0 ==> {
                &&& p.jobs_to_create@.len() == 0
                &&& p.status.phase == Some(Phase::Finished)
                &&& p.status.next_run is None
            })
            &&& (dispatch.len() > 0 ==> {
                &&& p.jobs_to_create@.len() == dispatch.len()
                &&& (forall|i: int|
                    0 <= i < dispatch.len() ==> job_post(
                        #[trigger] p.jobs_to_create@[i],
                        dispatch[i]@,
                        hash,
                        dispatch_start(spec_, start),
                        meta,
                        spec_,
                    ))
                &&& p.status.phase == old_status.phase
                &&& p.status.next_run == old_status.next_run
            })
            &&& p.requeue_secs == DEFAULT_REQUEUE_SECS
        },
    }))
}

/// The preparation step of one pass: resolves the inventories, renders the
/// workspace when stale, fingerprints the inputs, gates on the schedule and
/// lists the jobs to create.  Succeeds exactly when the metadata is
/// complete, the playbook renders (when a render is due), and the schedule
/// and zone evaluate.
pub fn reconcile_prepare(
    meta: &PlanMeta,
    spec_: &PlaybookPlanSpec,
    status: PlaybookPlanStatus,
    nodes: &Vec<crate::model::Node>,
    workspace_exists: bool,
    secrets: &Vec<SecretData>,
    now: i64,
) -> (r: Result<PassPlan, ReconcileError>)
    requires
        i64::MIN + 16 <= now <= MAX_SCHEDULE_INSTANT - 16,
    ensures
        r is Ok <==> (meta_complete(meta) && (needs_render(
            workspace_exists,
            meta.generation->0,
            &status,
        ) ==> crate::workspace::playbook_norm(spec_.template.playbook@) is Some)
            && spec_evaluate_schedule(
            opt_str_view(spec_.schedule),
            plan_tz(spec_),
            now,
            FIRING_WINDOW as i64,
        ) is Some),
        !meta_complete(meta) ==> r matches Err(ReconcileError::PreconditionFailed(_)),
        (meta_complete(meta) && needs_render(workspace_exists, meta.generation->0, &status)
            && crate::workspace::playbook_norm(spec_.template.playbook@) is None) ==> r matches Err(
            ReconcileError::RenderError(_),
        ),
        (meta_complete(meta) && (needs_render(workspace_exists, meta.generation->0, &status)
            ==> crate::workspace::playbook_norm(spec_.template.playbook@) is Some)
            && spec_evaluate_schedule(
            opt_str_view(spec_.schedule),
            plan_tz(spec_),
            now,
            FIRING_WINDOW as i64,
        ) is None) ==> r matches Err(ReconcileError::PreconditionFailed(_)),
        r matches Ok(p) ==> prepare_post(
            p,
            meta,
            spec_,
            &status,
            nodes@,
            workspace_exists,
            secrets.deep_view(),
            now,
        ),
{
    match check_preconditions(meta) {
        Ok(_) => {},
        Err(e) => {
            return Err(e);
        },
    }
    let generation = match &meta.generation {
        Some(g) => *g,
        None => {
            proof {
                assert(false);
            }
            0
        },
    };

    let mut st = status;
    let groups = resolve(&spec_.inventory, nodes);
    let flat = crate::execution::flatten_hosts(&groups);
    let count = count_unique_hosts(&flat);
    st.eligible_hosts_count = Some(count);
    let render = !workspace_exists || is_outdated(meta, &st);
    st.eligible_hosts = Some(groups);

    let mut workspace: Option<WorkspaceModel> = None;
    if render {
        let rendered = match &st.eligible_hosts {
            Some(g) => render_secret(meta, spec_, g),
            None => {
                proof {
                    assert(false);
                }
                return Err(ReconcileError::PreconditionFailed(str_to_string("unreachable")));
            },
        };
        match rendered {
            Ok(w) => {
                workspace = Some(w);
            },
            Err(e) => {
                return Err(e);
            },
        }
        st.last_rendered_generation = Some(generation);
    }

    let hash = calculate_execution_hash(spec_.template.playbook.as_str(), secrets);
    st.current_hash = Some(hash.hex_string());

    let tz: &str = match &spec_.time_zone {
        Some(t) => t.as_str(),
        None => "UTC",
    };
    let sched: Option<&str> = match &spec_.schedule {
        Some(s) => Some(s.as_str()),
        None => None,
    };
    let timing = match evaluate_schedule(sched, tz, now, FIRING_WINDOW) {
        Some(t) => t,
        None => {
            return Err(
                ReconcileError::PreconditionFailed(
                    str_to_string("schedule or time zone cannot be evaluated"),
                ),
            );
        },
    };

    let outdated = match find_outdated_hosts(&st, &hash) {
        Ok(v) => v,
        Err(e) => {
            proof {
                assert(false);
            }
            return Err(e);
        },
    };

    let mut requeue: u64 = DEFAULT_REQUEUE_SECS;
    let mut jobs: Vec<JobModel> = Vec::new();
    let phase_finished = match &st.phase {
        Some(Phase::Finished) => true,
        _ => false,
    };
    if outdated.len() > 0 && !phase_finished {
        match timing {
            Timing::Delayed(until) => {
                requeue = secs_between(until, now);
                st.phase = Some(Phase::Scheduled);
                st.next_run = Some(until);
            },
            Timing::Now(start) => {
                let dispatch = match spec_.mode {
                    ExecutionMode::OneShot => outdated,
                    ExecutionMode::Recurring => find_all_hosts(&st),
                };
                if dispatch.len() == 0 {
                    st.phase = Some(Phase::Finished);
                    st.next_run = None;
                } else {
                    let start_opt: Option<i64> = match &spec_.schedule {
                        Some(_) => Some(start),
                        None => None,
                    };
                    let mut i: usize = 0;
                    while i < dispatch.len()
                        invariant
                            i <= dispatch@.len(),
                            jobs@.len() == i,
                            meta_complete(meta),
                            start_opt == dispatch_start(spec_, start),
                            hash.0 == spec_execution_hash(
                                spec_.template.playbook@,
                                secrets.deep_view(),
                            ),
                            forall|j: int|
                                0 <= j < i ==> job_post(
                                    #[trigger] jobs@[j],
                                    dispatch@[j]@,
                                    hash.0,
                                    start_opt,
                                    meta,
                                    spec_,
                                ),
                        decreases dispatch@.len() - i,
                    {
                        match create_job_for_host(
                            dispatch[i].as_str(),
                            &hash,
                            start_opt,
                            meta,
                            spec_,
                        ) {
                            Ok(j) => {
                                jobs.push(j);
                            },
                            Err(e) => {
                                proof {
                                    assert(false);
                                }
                                return Err(e);
                            },
                        }
                        i += 1;
                    }
                }
            },
        }
    }

    Ok(PassPlan { status: st, workspace, hash, jobs_to_create: jobs, requeue_secs: requeue })
}

/// The finishing step of one pass: folds the observed jobs into the
/// conditions and the per-host record, then decides phase, next run and the
/// requeue override.  For a recurring plan whose jobs have all finished,
/// the phase becomes `Scheduled`, the next firing is forecast with a small
/// lookback and the pass requeues exactly at that firing; a one-shot plan
/// with no outdated host left finishes.  Fails exactly when that forecast
/// finds no future firing.
pub fn reconcile_finish(
    status: PlaybookPlanStatus,
    jobs: &Vec<ObservedJob>,
    hash: &ExecutionHash,
    mode: ExecutionMode,
    schedule: Option<&str>,
    tz: &str,
    now: i64,
    created_any: bool,
) -> (r: Result<(PlaybookPlanStatus, Option<u64>), ReconcileError>)
    requires
        i64::MIN + 16 <= now <= MAX_SCHEDULE_INSTANT - 16,
    ensures
        r is Err ==> r matches Err(ReconcileError::PreconditionFailed(_)),
        r is Ok <==> ((mode == ExecutionMode::Recurring && spec_all_jobs_finished(jobs@)
            && schedule is Some) ==> spec_forecast_next_run(
            schedule->0@,
            tz@,
            now,
            FORECAST_LOOKBACK as i64,
        ) is Some),
        r matches Ok(pair) ==> ({
            let st = pair.0;
            let ov = pair.1;
            let recurring_done = mode == ExecutionMode::Recurring && spec_all_jobs_finished(jobs@)
                && schedule is Some;
            let oneshot_done = mode == ExecutionMode::OneShot && spec_outdated_hosts(
                &st,
                hash.0,
            ).len() == 0;
            &&& st.eligible_hosts == status.eligible_hosts
            &&& st.eligible_hosts_count == status.eligible_hosts_count
            &&& st.last_rendered_generation == status.last_rendered_generation
            &&& st.current_hash == status.current_hash
            &&& conds_views(st.conditions@) == spec_evaluate_conditions(
                conds_views(status.conditions@),
                jobs@,
                now,
            )
            &&& ({
                let oldv = match status.hosts_status {
                    Some(v) => hs_views(v@),
                    None => Seq::empty(),
                };
                match st.hosts_status {
                    Some(v) => hs_views(v@) == spec_roll_forward(
                        oldv,
                        jobs@,
                        hex_str(hash.0 as nat),
                    ) && (status.hosts_status is Some || spec_count_successful(jobs@) > 0),
                    None => status.hosts_status is None && spec_count_successful(jobs@) == 0,
                }
            })
            &&& (recurring_done ==> {
                &&& st.phase == Some(Phase::Scheduled)
                &&& spec_forecast_next_run(schedule->0@, tz@, now, FORECAST_LOOKBACK as i64)
                    matches Some(n) && st.next_run == Some(n) && ov == Some(clamp_secs(n - now))
            })
            &&& (oneshot_done ==> st.phase == Some(Phase::Finished) && st.next_run is None)
            &&& (!recurring_done && !oneshot_done ==> {
                &&& st.phase == (if created_any {
                    Some(Phase::Applying)
                } else {
                    status.phase
                })
                &&& st.next_run == (if created_any {
                    None
                } else {
                    status.next_run
                })
                &&& ov is None
            })
            &&& (!recurring_done ==> ov is None)
        }),
{
    let mut st = status;
    if created_any {
        st.phase = Some(Phase::Applying);
        st.next_run = None;
    }

    evaluate_playbookplan_conditions(jobs, &mut st, now);
    evaluate_per_host_status(jobs, hash, &mut st);

    let mut requeue_override: Option<u64> = None;
    let recurring = match mode {
        ExecutionMode::Recurring => true,
        ExecutionMode::OneShot => false,
    };
    if recurring && all_jobs_finished(jobs) {
        match schedule {
            Some(cron) => {
                st.phase = Some(Phase::Scheduled);
                match forecast_next_run(cron, tz, now, FORECAST_LOOKBACK) {
                    Some(next) => {
                        requeue_override = Some(secs_between(next, now));
                        st.next_run = Some(next);
                    },
                    None => {
                        return Err(
                            ReconcileError::PreconditionFailed(
                                str_to_string("schedule has no future firing"),
                            ),
                        );
                    },
                }
            },
            None => {},
        }
    }

    if !recurring {
        let remaining = match find_outdated_hosts(&st, hash) {
            Ok(v) => v,
            Err(e) => {
                proof {
                    assert(false);
                }
                return Err(e);
            },
        };
        if remaining.len() == 0 {
            st.next_run = None;
            st.phase = Some(Phase::Finished);
        }
    }

    Ok((st, requeue_override))
}

} // verus!
