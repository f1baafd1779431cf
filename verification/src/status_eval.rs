//! The status evaluator: folds observed jobs into summary conditions and the
//! per-host success record.

use vstd::prelude::*;
use crate::conditions::{
    cond_view, conds_views, spec_upsert_condition, upsert_condition, CondView,
    lemma_upsert_condition_stable, lemma_cond_index_props, lemma_cond_index_of_first, cond_index,
};
use crate::fingerprint::ExecutionHash;
use crate::model::{label_get, LabelMap, HostStatus, PlaybookPlanCondition, PlaybookPlanStatus};
use crate::strutil::{dec_str, hex_str, str_to_string, string_eq_str, u64_to_dec};

verus! {

/// One condition of an observed job, as the cluster reports it.
#[derive(Clone, Debug)]
pub struct JobCondition {
    pub type_: String,
    pub status: String,
}

/// An observed job: its name, its labels and its reported conditions.  A job
/// whose status carries no conditions is modelled with an empty list.
#[derive(Clone, Debug)]
pub struct ObservedJob {
    pub name: Option<String>,
    pub labels: LabelMap,
    pub conditions: Vec<JobCondition>,
}

/// Whether a job reports a condition of type `t` with status `s`.
pub open spec fn job_has_cond(j: ObservedJob, t: Seq<char>, s: Seq<char>) -> bool {
    exists|k: int|
        0 <= k < j.conditions@.len() && j.conditions@[k].type_@ == t && j.conditions@[k].status@
            == s
}

/// A job counts as successful when `SuccessCriteriaMet` is `True`.
pub open spec fn job_successful(j: ObservedJob) -> bool {
    job_has_cond(j, "SuccessCriteriaMet"@, "True"@)
}

/// A job counts as failed when `Failed` is `True`.
pub open spec fn job_failed(j: ObservedJob) -> bool {
    job_has_cond(j, "Failed"@, "True"@)
}

/// A job is finished once it succeeded or failed.
pub open spec fn job_finished(j: ObservedJob) -> bool {
    job_successful(j) || job_failed(j)
}

/// Does `job` report a condition of type `t` with status `s`?
fn has_condition(job: &ObservedJob, t: &str, s: &str) -> (r: bool)
    ensures
        r == job_has_cond(*job, t@, s@),
{
    let mut k: usize = 0;
    while k < job.conditions.len()
        invariant
            k <= job.conditions@.len(),
            forall|m: int|
                0 <= m < k ==> !(job.conditions@[m].type_@ == t@ && job.conditions@[m].status@
                    == s@),
        decreases job.conditions@.len() - k,
    {
        if string_eq_str(&job.conditions[k].type_, t) && string_eq_str(
            &job.conditions[k].status,
            s,
        ) {
            return true;
        }
        k += 1;
    }
    false
}

/// How many of the jobs are successful.
pub open spec fn spec_count_successful(jobs: Seq<ObservedJob>) -> nat
    decreases jobs.len(),
{
    if jobs.len() == 0 {
        0
    } else {
        (if job_successful(jobs[0]) {
            1nat
        } else {
            0nat
        }) + spec_count_successful(jobs.drop_first())
    }
}

/// How many of the jobs are failed.
pub open spec fn spec_count_failed(jobs: Seq<ObservedJob>) -> nat
    decreases jobs.len(),
{
    if jobs.len() == 0 {
        0
    } else {
        (if job_failed(jobs[0]) {
            1nat
        } else {
            0nat
        }) + spec_count_failed(jobs.drop_first())
    }
}

/// Counts the jobs that report `SuccessCriteriaMet = True`.
pub fn count_successful(jobs: &Vec<ObservedJob>) -> (r: usize)
    ensures
        r == spec_count_successful(jobs@),
{
    proof {
        assert(jobs@.skip(0) =~= jobs@);
    }
    let mut r: usize = 0;
    let mut i: usize = 0;
    while i < jobs.len()
        invariant
            i <= jobs@.len(),
            r <= i,
            r + spec_count_successful(jobs@.skip(i as int)) == spec_count_successful(jobs@),
        decreases jobs@.len() - i,
    {
        proof {
            assert(jobs@.skip(i as int)[0] == jobs@[i as int]);
            assert(jobs@.skip(i as int).drop_first() =~= jobs@.skip(i + 1));
        }
        if has_condition(&jobs[i], "SuccessCriteriaMet", "True") {
            r += 1;
        }
        i += 1;
    }
    proof {
        assert(jobs@.skip(jobs@.len() as int) =~= Seq::<ObservedJob>::empty());
    }
    r
}

/// Counts the jobs that report `Failed = True`.
fn count_failed(jobs: &Vec<ObservedJob>) -> (r: usize)
    ensures
        r == spec_count_failed(jobs@),
{
    proof {
        assert(jobs@.skip(0) =~= jobs@);
    }
    let mut r: usize = 0;
    let mut i: usize = 0;
    while i < jobs.len()
        invariant
            i <= jobs@.len(),
            r <= i,
            r + spec_count_failed(jobs@.skip(i as int)) == spec_count_failed(jobs@),
        decreases jobs@.len() - i,
    {
        proof {
            assert(jobs@.skip(i as int)[0] == jobs@[i as int]);
            assert(jobs@.skip(i as int).drop_first() =~= jobs@.skip(i + 1));
        }
        if has_condition(&jobs[i], "Failed", "True") {
            r += 1;
        }
        i += 1;
    }
    proof {
        assert(jobs@.skip(jobs@.len() as int) =~= Seq::<ObservedJob>::empty());
    }
    r
}

/// Every observed job is finished (vacuously true of no jobs).
pub open spec fn spec_all_jobs_finished(jobs: Seq<ObservedJob>) -> bool {
    forall|i: int| 0 <= i < jobs.len() ==> job_finished(jobs[i])
}

/// True when every observed job has either succeeded or failed.
pub fn all_jobs_finished(jobs: &Vec<ObservedJob>) -> (r: bool)
    ensures
        r == spec_all_jobs_finished(jobs@),
{
    let mut i: usize = 0;
    while i < jobs.len()
        invariant
            i <= jobs@.len(),
            forall|j: int| 0 <= j < i ==> job_finished(jobs@[j]),
        decreases jobs@.len() - i,
    {
        let finished = has_condition(&jobs[i], "Failed", "True") || has_condition(
            &jobs[i],
            "SuccessCriteriaMet",
            "True",
        );
        if !finished {
            return false;
        }
        i += 1;
    }
    true
}

/// Jobs still running: total minus finished, floored at zero.
pub open spec fn spec_count_running(jobs: Seq<ObservedJob>) -> nat {
    let fin = spec_count_successful(jobs) + spec_count_failed(jobs);
    if fin <= jobs.len() {
        (jobs.len() - fin) as nat
    } else {
        0
    }
}

/// The `Running` condition derived from the observed jobs: `True` with
/// reason `JobsRunning` while any job is unfinished, else `False` with no
/// reason.
pub open spec fn spec_running_condition(jobs: Seq<ObservedJob>, now: i64) -> CondView {
    let fin = spec_count_successful(jobs) + spec_count_failed(jobs);
    if fin < jobs.len() {
        CondView {
            type_: "Running"@,
            status: "True"@,
            reason: Some("JobsRunning"@),
            message: Some(dec_str(spec_count_running(jobs)) + " jobs are currently running"@),
            last_transition_time: Some(now),
        }
    } else {
        CondView {
            type_: "Running"@,
            status: "False"@,
            reason: None,
            message: None,
            last_transition_time: Some(now),
        }
    }
}

/// The `Ready` condition derived from the observed jobs: `True` only when
/// every job succeeded and there was at least one; `False` with reason
/// `SomeOrAllJobsFailed` on any failure, else `False` awaiting results.
pub open spec fn spec_ready_condition(jobs: Seq<ObservedJob>, now: i64) -> CondView {
    let s = spec_count_successful(jobs);
    let f = spec_count_failed(jobs);
    if s == jobs.len() && jobs.len() > 0 {
        CondView {
            type_: "Ready"@,
            status: "True"@,
            reason: Some("AllJobsSucceeded"@),
            message: Some(
                dec_str(s) + "/"@ + dec_str(jobs.len()) + " jobs completed successfully"@,
            ),
            last_transition_time: Some(now),
        }
    } else if f > 0 {
        CondView {
            type_: "Ready"@,
            status: "False"@,
            reason: Some("SomeOrAllJobsFailed"@),
            message: Some(dec_str(f) + "/"@ + dec_str(jobs.len()) + " jobs have failed"@),
            last_transition_time: Some(now),
        }
    } else {
        CondView {
            type_: "Ready"@,
            status: "False"@,
            reason: Some("AwaitingJobResults"@),
            message: Some(dec_str(spec_count_running(jobs)) + " jobs are running"@),
            last_transition_time: Some(now),
        }
    }
}

/// What one conditions pass leaves behind: the `Running` and then the
/// `Ready` condition upserted into the list.
pub open spec fn spec_evaluate_conditions(conds: Seq<CondView>, jobs: Seq<ObservedJob>, now: i64) -> Seq<CondView> {
    spec_upsert_condition(
        spec_upsert_condition(conds, spec_running_condition(jobs, now)),
        spec_ready_condition(jobs, now),
    )
}

/// Updates the conditions of `status` to reflect the observed jobs, at
/// instant `now`; every other status field stays untouched.
pub fn evaluate_playbookplan_conditions(
    jobs: &Vec<ObservedJob>,
    status: &mut PlaybookPlanStatus,
    now: i64,
)
    ensures
        conds_views(final(status).conditions@) == spec_evaluate_conditions(
            conds_views(old(status).conditions@),
            jobs@,
            now,
        ),
        final(status).eligible_hosts == old(status).eligible_hosts,
        final(status).eligible_hosts_count == old(status).eligible_hosts_count,
        final(status).last_rendered_generation == old(status).last_rendered_generation,
        final(status).hosts_status == old(status).hosts_status,
        final(status).next_run == old(status).next_run,
        final(status).phase == old(status).phase,
        final(status).current_hash == old(status).current_hash,
{
    let num_total = jobs.len();
    let num_successful = count_successful(jobs);
    let num_failed = count_failed(jobs);
    let num_finished = if num_failed <= usize::MAX - num_successful {
        num_failed + num_successful
    } else {
        usize::MAX
    };
    let num_running = if num_finished <= num_total {
        num_total - num_finished
    } else {
        0
    };
    proof {
        assert(num_running == spec_count_running(jobs@));
    }

    let running_condition = if num_finished < num_total {
        let mut message = u64_to_dec(num_running as u64);
        message.append(" jobs are currently running");
        PlaybookPlanCondition {
            type_: str_to_string("Running"),
            status: str_to_string("True"),
            reason: Some(str_to_string("JobsRunning")),
            message: Some(message),
            last_transition_time: Some(now),
        }
    } else {
        PlaybookPlanCondition {
            type_: str_to_string("Running"),
            status: str_to_string("False"),
            reason: None,
            message: None,
            last_transition_time: Some(now),
        }
    };
    proof {
        assert(cond_view(running_condition) == spec_running_condition(jobs@, now));
    }

    let ready_condition = if num_successful == num_total && num_total > 0 {
        let mut message = u64_to_dec(num_successful as u64);
        message.append("/");
        let total_str = u64_to_dec(num_total as u64);
        message.append(total_str.as_str());
        message.append(" jobs completed successfully");
        PlaybookPlanCondition {
            type_: str_to_string("Ready"),
            status: str_to_string("True"),
            reason: Some(str_to_string("AllJobsSucceeded")),
            message: Some(message),
            last_transition_time: Some(now),
        }
    } else if num_failed > 0 {
        let mut message = u64_to_dec(num_failed as u64);
        message.append("/");
        let total_str = u64_to_dec(num_total as u64);
        message.append(total_str.as_str());
        message.append(" jobs have failed");
        PlaybookPlanCondition {
            type_: str_to_string("Ready"),
            status: str_to_string("False"),
            reason: Some(str_to_string("SomeOrAllJobsFailed")),
            message: Some(message),
            last_transition_time: Some(now),
        }
    } else {
        let mut message = u64_to_dec(num_running as u64);
        message.append(" jobs are running");
        PlaybookPlanCondition {
            type_: str_to_string("Ready"),
            status: str_to_string("False"),
            reason: Some(str_to_string("AwaitingJobResults")),
            message: Some(message),
            last_transition_time: Some(now),
        }
    };
    proof {
        assert(cond_view(ready_condition) == spec_ready_condition(jobs@, now));
    }

    upsert_condition(&mut status.conditions, running_condition);
    upsert_condition(&mut status.conditions, ready_condition);
}

/// Two passes over identical job populations leave the conditions exactly as
/// the first pass left them: statuses and reasons repeat, so neither upsert
/// replaces anything and no `last_transition_time` churns.
pub proof fn lemma_conditions_stable_across_passes(
    conds: Seq<CondView>,
    jobs: Seq<ObservedJob>,
    t1: i64,
    t2: i64,
)
    ensures
        spec_evaluate_conditions(spec_evaluate_conditions(conds, jobs, t1), jobs, t2)
            == spec_evaluate_conditions(conds, jobs, t1),
{
    reveal_strlit("Running");
    reveal_strlit("Ready");
    assert("Running"@.len() == 7 && "Ready"@.len() == 5);
    let run1 = spec_running_condition(jobs, t1);
    let run2 = spec_running_condition(jobs, t2);
    let ready1 = spec_ready_condition(jobs, t1);
    let ready2 = spec_ready_condition(jobs, t2);
    let s2 = spec_upsert_condition(conds, run1);
    let s3 = spec_upsert_condition(s2, ready1);

    // The first pass leaves a Running entry whose status and reason match.
    lemma_upsert_establishes(conds, run1);
    let ir = cond_index(s2, run1.type_);
    // Upserting the Ready condition does not disturb that entry.
    lemma_upsert_keeps_first_of_other(s2, ready1, run1.type_);
    assert(cond_index(s3, run2.type_) == ir);
    assert(s3[ir].status == run2.status && s3[ir].reason == run2.reason);
    assert(spec_upsert_condition(s3, run2) == s3);
    // The repeated Ready upsert is absorbed by the first.
    lemma_upsert_condition_stable(s2, ready1, ready2);
}

/// After an upsert, the first entry of the inserted type exists and carries
/// the inserted status and reason.
proof fn lemma_upsert_establishes(conds: Seq<CondView>, c: CondView)
    ensures
        ({
            let s = spec_upsert_condition(conds, c);
            let i = cond_index(s, c.type_);
            &&& i != -1
            &&& 0 <= i < s.len()
            &&& s[i].status == c.status
            &&& s[i].reason == c.reason
        }),
{
    let t = c.type_;
    lemma_cond_index_props(conds, t);
    let i = cond_index(conds, t);
    let s = spec_upsert_condition(conds, c);
    if i == -1 {
        assert(s == conds.push(c));
        assert(s[conds.len() as int] == c);
        lemma_cond_index_of_first(s, t, conds.len() as int);
    } else if conds[i].status == c.status && conds[i].reason == c.reason {
        assert(s == conds);
    } else {
        assert(s == conds.update(i, c));
        assert forall|j: int| 0 <= j < i implies s[j].type_ != t by {
            assert(s[j] == conds[j]);
        }
        assert(s[i] == c);
        lemma_cond_index_of_first(s, t, i);
    }
}

/// Views of the per-host status list: `(host, last_applied_hash)` pairs.
pub open spec fn hs_views(hs: Seq<(String, HostStatus)>) -> Seq<(Seq<char>, Seq<char>)> {
    hs.map_values(|p: (String, HostStatus)| (p.0@, p.1.last_applied_hash@))
}

/// Index of the first record for host `h`, or `-1`.
pub open spec fn host_view_index(hs: Seq<(Seq<char>, Seq<char>)>, h: Seq<char>) -> int
    decreases hs.len(),
{
    if hs.len() == 0 {
        -1
    } else if hs[0].0 == h {
        0
    } else {
        let r = host_view_index(hs.drop_first(), h);
        if r == -1 {
            -1
        } else {
            r + 1
        }
    }
}

/// The hash recorded for host `h`, or `None`.
pub open spec fn host_view_get(hs: Seq<(Seq<char>, Seq<char>)>, h: Seq<char>) -> Option<Seq<char>>
    decreases hs.len(),
{
    if hs.len() == 0 {
        None
    } else if hs[0].0 == h {
        Some(hs[0].1)
    } else {
        host_view_get(hs.drop_first(), h)
    }
}

/// `host_view_index` finds exactly the first record of `h`, and
/// `host_view_get` reads through it.
proof fn lemma_host_view_index_props(hs: Seq<(Seq<char>, Seq<char>)>, h: Seq<char>)
    ensures
        host_view_index(hs, h) == -1 ==> (forall|j: int| 0 <= j < hs.len() ==> hs[j].0 != h)
            && host_view_get(hs, h) is None,
        host_view_index(hs, h) != -1 ==> {
            &&& 0 <= host_view_index(hs, h) < hs.len()
            &&& hs[host_view_index(hs, h)].0 == h
            &&& forall|j: int| 0 <= j < host_view_index(hs, h) ==> hs[j].0 != h
            &&& host_view_get(hs, h) == Some(hs[host_view_index(hs, h)].1)
        },
    decreases hs.len(),
{
    if hs.len() == 0 {
    } else if hs[0].0 == h {
    } else {
        lemma_host_view_index_props(hs.drop_first(), h);
        let r = host_view_index(hs.drop_first(), h);
        if r == -1 {
            assert forall|j: int| 0 <= j < hs.len() implies hs[j].0 != h by {
                if j > 0 {
                    assert(hs.drop_first()[j - 1] == hs[j]);
                }
            }
        } else {
            assert(hs.drop_first()[r] == hs[r + 1]);
            assert forall|j: int| 0 <= j < r + 1 implies hs[j].0 != h by {
                if j > 0 {
                    assert(hs.drop_first()[j - 1] == hs[j]);
                }
            }
        }
    }
}

/// If position `i` is the first record of `h`, the index function returns it.
proof fn lemma_host_view_index_of_first(hs: Seq<(Seq<char>, Seq<char>)>, h: Seq<char>, i: int)
    requires
        0 <= i < hs.len(),
        hs[i].0 == h,
        forall|j: int| 0 <= j < i ==> hs[j].0 != h,
    ensures
        host_view_index(hs, h) == i,
{
    lemma_host_view_index_props(hs, h);
}

/// Sets host `h`'s record to `hex`, appending a record when none exists.
pub open spec fn upsert_host(hs: Seq<(Seq<char>, Seq<char>)>, h: Seq<char>, hex: Seq<char>) -> Seq<
    (Seq<char>, Seq<char>),
> {
    let i = host_view_index(hs, h);
    if i == -1 {
        hs.push((h, hex))
    } else {
        hs.update(i, (h, hex))
    }
}

/// The host a job targets, read from its `playbookplan.host` label.
pub open spec fn job_target_host(j: ObservedJob) -> Option<Seq<char>> {
    label_get(j.labels@, "playbookplan.host"@)
}

/// What one job contributes to the per-host record: successful jobs with a
/// target host set that host to `hex`; everything else changes nothing.
pub open spec fn roll_step(hs: Seq<(Seq<char>, Seq<char>)>, j: ObservedJob, hex: Seq<char>) -> Seq<
    (Seq<char>, Seq<char>),
> {
    if job_successful(j) {
        match job_target_host(j) {
            Some(h) => upsert_host(hs, h, hex),
            None => hs,
        }
    } else {
        hs
    }
}

/// The per-host record after folding every observed job, in order.
pub open spec fn spec_roll_forward(
    hs: Seq<(Seq<char>, Seq<char>)>,
    jobs: Seq<ObservedJob>,
    hex: Seq<char>,
) -> Seq<(Seq<char>, Seq<char>)>
    decreases jobs.len(),
{
    if jobs.len() == 0 {
        hs
    } else {
        spec_roll_forward(roll_step(hs, jobs[0], hex), jobs.drop_first(), hex)
    }
}

/// Finds the position of host `h`'s record.
fn find_host_index(hs: &Vec<(String, HostStatus)>, h: &String) -> (r: Option<usize>)
    ensures
        match r {
            Some(i) => i < hs@.len() && host_view_index(hs_views(hs@), h@) == i as int,
            None => host_view_index(hs_views(hs@), h@) == -1,
        },
{
    let mut i: usize = 0;
    while i < hs.len()
        invariant
            i <= hs@.len(),
            forall|j: int| 0 <= j < i ==> hs_views(hs@)[j].0 != h@,
        decreases hs@.len() - i,
    {
        let hit = hs[i].0 == *h;
        proof {
            assert(hs_views(hs@)[i as int] == (hs@[i as int].0@, hs@[i as int].1.last_applied_hash@));
        }
        if hit {
            proof {
                lemma_host_view_index_of_first(hs_views(hs@), h@, i as int);
            }
            return Some(i);
        }
        i += 1;
    }
    proof {
        lemma_host_view_index_props(hs_views(hs@), h@);
        if host_view_index(hs_views(hs@), h@) != -1 {
            assert(hs_views(hs@)[host_view_index(hs_views(hs@), h@)].0 == h@);
        }
    }
    None
}

/// Updates the per-host status from the observed jobs: every successful job
/// with a `playbookplan.host` label rolls that host's recorded hash forward
/// to the current fingerprint; failed or unlabelled jobs roll nothing.  The
/// record list is created on the first successful job.
pub fn evaluate_per_host_status(
    jobs: &Vec<ObservedJob>,
    hash: &ExecutionHash,
    status: &mut PlaybookPlanStatus,
)
    ensures
        final(status).eligible_hosts == old(status).eligible_hosts,
        final(status).eligible_hosts_count == old(status).eligible_hosts_count,
        final(status).last_rendered_generation == old(status).last_rendered_generation,
        final(status).conditions == old(status).conditions,
        final(status).next_run == old(status).next_run,
        final(status).phase == old(status).phase,
        final(status).current_hash == old(status).current_hash,
        ({
            let oldv = match old(status).hosts_status {
                Some(v) => hs_views(v@),
                None => Seq::empty(),
            };
            match final(status).hosts_status {
                Some(v) => hs_views(v@) == spec_roll_forward(oldv, jobs@, hex_str(hash.0 as nat))
                    && (old(status).hosts_status is Some || spec_count_successful(jobs@) > 0),
                None => old(status).hosts_status is None && spec_count_successful(jobs@) == 0,
            }
        }),
{
    let ghost oldv = match old(status).hosts_status {
        Some(v) => hs_views(v@),
        None => Seq::<(Seq<char>, Seq<char>)>::empty(),
    };
    let any_success = count_successful(jobs) > 0;
    if status.hosts_status.is_none() {
        if !any_success {
            proof {
                lemma_roll_forward_no_success(oldv, jobs@, hex_str(hash.0 as nat));
            }
            return ;
        }
        status.hosts_status = Some(Vec::new());
    }
    let hex = hash.hex_string();
    let host_key = str_to_string("playbookplan.host");
    match &mut status.hosts_status {
        None => {
            proof {
                assert(false);
            }
        },
        Some(hs) => {
            proof {
                assert(hs_views(hs@) =~= oldv);
                assert(jobs@.skip(0) =~= jobs@);
            }
            let mut i: usize = 0;
            while i < jobs.len()
                invariant
                    i <= jobs@.len(),
                    hex@ == hex_str(hash.0 as nat),
                    host_key@ == "playbookplan.host"@,
                    spec_roll_forward(hs_views(hs@), jobs@.skip(i as int), hex@)
                        == spec_roll_forward(oldv, jobs@, hex@),
                decreases jobs@.len() - i,
            {
                proof {
                    assert(jobs@.skip(i as int)[0] == jobs@[i as int]);
                    assert(jobs@.skip(i as int).drop_first() =~= jobs@.skip(i + 1));
                }
                let ghost before = hs_views(hs@);
                if has_condition(&jobs[i], "SuccessCriteriaMet", "True") {
                    match crate::model::label_lookup(&jobs[i].labels, &host_key) {
                        Some(target) => {
                            let target = target.clone();
                            match find_host_index(hs, &target) {
                                Some(idx) => {
                                    let name = hs[idx].0.clone();
                                    hs.set(
                                        idx,
                                        (name, HostStatus { last_applied_hash: hex.clone() }),
                                    );
                                    proof {
                                        lemma_host_view_index_props(before, target@);
                                        assert(before[idx as int].0 == target@);
                                        assert(hs_views(hs@) =~= upsert_host(
                                            before,
                                            target@,
                                            hex@,
                                        ));
                                    }
                                },
                                None => {
                                    hs.push(
                                        (
                                            target.clone(),
                                            HostStatus { last_applied_hash: hex.clone() },
                                        ),
                                    );
                                    proof {
                                        assert(hs_views(hs@) =~= upsert_host(
                                            before,
                                            target@,
                                            hex@,
                                        ));
                                    }
                                },
                            }
                            proof {
                                assert(hs_views(hs@) == roll_step(before, jobs@[i as int], hex@));
                            }
                        },
                        None => {
                            proof {
                                assert(hs_views(hs@) == roll_step(before, jobs@[i as int], hex@));
                            }
                        },
                    }
                } else {
                    proof {
                        assert(hs_views(hs@) == roll_step(before, jobs@[i as int], hex@));
                    }
                }
                i += 1;
            }
            proof {
                assert(jobs@.skip(jobs@.len() as int) =~= Seq::<ObservedJob>::empty());
            }
        },
    }
}

/// With no successful job the roll-forward changes nothing.
proof fn lemma_roll_forward_no_success(
    hs: Seq<(Seq<char>, Seq<char>)>,
    jobs: Seq<ObservedJob>,
    hex: Seq<char>,
)
    requires
        spec_count_successful(jobs) == 0,
    ensures
        spec_roll_forward(hs, jobs, hex) == hs,
    decreases jobs.len(),
{
    if jobs.len() == 0 {
    } else {
        assert(!job_successful(jobs[0]));
        lemma_roll_forward_no_success(hs, jobs.drop_first(), hex);
    }
}

/// Appending a record for another host does not change what `h2` reads.
proof fn lemma_host_view_get_push_other(
    hs: Seq<(Seq<char>, Seq<char>)>,
    p: (Seq<char>, Seq<char>),
    h2: Seq<char>,
)
    requires
        p.0 != h2,
    ensures
        host_view_get(hs.push(p), h2) == host_view_get(hs, h2),
    decreases hs.len(),
{
    if hs.len() == 0 {
        assert(hs.push(p)[0] == p);
        assert(hs.push(p).drop_first() =~= Seq::<(Seq<char>, Seq<char>)>::empty());
    } else {
        assert(hs.push(p)[0] == hs[0]);
        assert(hs.push(p).drop_first() =~= hs.drop_first().push(p));
        lemma_host_view_get_push_other(hs.drop_first(), p, h2);
    }
}

/// Updating another host's record does not change what `h2` reads.
proof fn lemma_host_view_get_update_other(
    hs: Seq<(Seq<char>, Seq<char>)>,
    i: int,
    p: (Seq<char>, Seq<char>),
    h2: Seq<char>,
)
    requires
        0 <= i < hs.len(),
        hs[i].0 != h2,
        p.0 != h2,
    ensures
        host_view_get(hs.update(i, p), h2) == host_view_get(hs, h2),
    decreases hs.len(),
{
    if i == 0 {
        assert(hs.update(0, p)[0] == p);
        assert(hs.update(0, p).drop_first() =~= hs.drop_first());
    } else {
        assert(hs.update(i, p)[0] == hs[0]);
        assert(hs.update(i, p).drop_first() =~= hs.drop_first().update(i - 1, p));
        if hs[0].0 != h2 {
            lemma_host_view_get_update_other(hs.drop_first(), i - 1, p, h2);
        }
    }
}

/// After `upsert_host`, host `h` reads exactly `hex`.
proof fn lemma_upsert_host_get_same(hs: Seq<(Seq<char>, Seq<char>)>, h: Seq<char>, hex: Seq<char>)
    ensures
        host_view_get(upsert_host(hs, h, hex), h) == Some(hex),
{
    lemma_host_view_index_props(hs, h);
    let i = host_view_index(hs, h);
    let s = upsert_host(hs, h, hex);
    if i == -1 {
        assert(s == hs.push((h, hex)));
        assert(s[hs.len() as int] == (h, hex));
        assert forall|j: int| 0 <= j < hs.len() implies s[j].0 != h by {
            assert(s[j] == hs[j]);
        }
        lemma_host_view_index_of_first(s, h, hs.len() as int);
        lemma_host_view_index_props(s, h);
    } else {
        assert(s == hs.update(i, (h, hex)));
        assert forall|j: int| 0 <= j < i implies s[j].0 != h by {
            assert(s[j] == hs[j]);
        }
        assert(s[i] == (h, hex));
        lemma_host_view_index_of_first(s, h, i);
        lemma_host_view_index_props(s, h);
    }
}

/// `upsert_host` for one host leaves every other host's record unchanged.
proof fn lemma_upsert_host_get_other(
    hs: Seq<(Seq<char>, Seq<char>)>,
    h: Seq<char>,
    hex: Seq<char>,
    h2: Seq<char>,
)
    requires
        h2 != h,
    ensures
        host_view_get(upsert_host(hs, h, hex), h2) == host_view_get(hs, h2),
{
    lemma_host_view_index_props(hs, h);
    let i = host_view_index(hs, h);
    if i == -1 {
        lemma_host_view_get_push_other(hs, (h, hex), h2);
    } else {
        lemma_host_view_get_update_other(hs, i, (h, hex), h2);
    }
}

/// Once a host reads the current fingerprint, further jobs keep it there.
proof fn lemma_roll_forward_keeps(
    hs: Seq<(Seq<char>, Seq<char>)>,
    jobs: Seq<ObservedJob>,
    hex: Seq<char>,
    h: Seq<char>,
)
    requires
        host_view_get(hs, h) == Some(hex),
    ensures
        host_view_get(spec_roll_forward(hs, jobs, hex), h) == Some(hex),
    decreases jobs.len(),
{
    if jobs.len() == 0 {
    } else {
        let stepped = roll_step(hs, jobs[0], hex);
        if job_successful(jobs[0]) {
            match job_target_host(jobs[0]) {
                Some(ht) => {
                    if ht == h {
                        lemma_upsert_host_get_same(hs, ht, hex);
                    } else {
                        lemma_upsert_host_get_other(hs, ht, hex, h);
                    }
                },
                None => {},
            }
        }
        lemma_roll_forward_keeps(stepped, jobs.drop_first(), hex, h);
    }
}

/// Status roll-forward, success direction: a successful job labelled with
/// host `h` leaves `h`'s recorded hash equal to the current fingerprint.
pub proof fn lemma_roll_forward_success(
    hs: Seq<(Seq<char>, Seq<char>)>,
    jobs: Seq<ObservedJob>,
    hex: Seq<char>,
    jx: int,
    h: Seq<char>,
)
    requires
        0 <= jx < jobs.len(),
        job_successful(jobs[jx]),
        job_target_host(jobs[jx]) == Some(h),
    ensures
        host_view_get(spec_roll_forward(hs, jobs, hex), h) == Some(hex),
    decreases jx,
{
    let stepped = roll_step(hs, jobs[0], hex);
    if jx == 0 {
        lemma_upsert_host_get_same(hs, h, hex);
        lemma_roll_forward_keeps(stepped, jobs.drop_first(), hex, h);
    } else {
        assert(jobs.drop_first()[jx - 1] == jobs[jx]);
        lemma_roll_forward_success(stepped, jobs.drop_first(), hex, jx - 1, h);
    }
}

/// Status roll-forward, skip direction: a host no successful job points at
/// keeps its previous record; failed jobs roll nothing forward.
pub proof fn lemma_roll_forward_skips(
    hs: Seq<(Seq<char>, Seq<char>)>,
    jobs: Seq<ObservedJob>,
    hex: Seq<char>,
    h2: Seq<char>,
)
    requires
        forall|jx: int|
            0 <= jx < jobs.len() ==> !(job_successful(jobs[jx]) && job_target_host(jobs[jx])
                == Some(h2)),
    ensures
        host_view_get(spec_roll_forward(hs, jobs, hex), h2) == host_view_get(hs, h2),
    decreases jobs.len(),
{
    if jobs.len() == 0 {
    } else {
        let stepped = roll_step(hs, jobs[0], hex);
        if job_successful(jobs[0]) {
            match job_target_host(jobs[0]) {
                Some(ht) => {
                    assert(ht != h2);
                    lemma_upsert_host_get_other(hs, ht, hex, h2);
                },
                None => {},
            }
        }
        assert forall|jx: int|
            0 <= jx < jobs.drop_first().len() implies !(job_successful(jobs.drop_first()[jx])
            && job_target_host(jobs.drop_first()[jx]) == Some(h2)) by {
            assert(jobs.drop_first()[jx] == jobs[jx + 1]);
        }
        lemma_roll_forward_skips(stepped, jobs.drop_first(), hex, h2);
    }
}

/// Upserting a condition of one type leaves the first entry of any other
/// type where it was, unchanged.
proof fn lemma_upsert_keeps_first_of_other(conds: Seq<CondView>, c: CondView, t: Seq<char>)
    requires
        t != c.type_,
        cond_index(conds, t) != -1,
    ensures
        cond_index(spec_upsert_condition(conds, c), t) == cond_index(conds, t),
        spec_upsert_condition(conds, c)[cond_index(conds, t)] == conds[cond_index(conds, t)],
{
    lemma_cond_index_props(conds, t);
    lemma_cond_index_props(conds, c.type_);
    let i = cond_index(conds, t);
    let j = cond_index(conds, c.type_);
    let s = spec_upsert_condition(conds, c);
    if j == -1 {
        assert(s == conds.push(c));
        assert forall|k: int| 0 <= k < i implies s[k].type_ != t by {
            assert(s[k] == conds[k]);
        }
        assert(s[i] == conds[i]);
        lemma_cond_index_of_first(s, t, i);
    } else if conds[j].status == c.status && conds[j].reason == c.reason {
        assert(s == conds);
    } else {
        assert(s == conds.update(j, c));
        assert(i != j);
        assert forall|k: int| 0 <= k < i implies s[k].type_ != t by {
            if k == j {
                assert(s[k] == c);
            } else {
                assert(s[k] == conds[k]);
            }
        }
        assert(s[i] == conds[i]);
        lemma_cond_index_of_first(s, t, i);
    }
}

} // verus!
