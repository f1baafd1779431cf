//! Data model of a `PlaybookPlan`: its desired state, its observed status and
//! the plain label maps both are built from.

use vstd::prelude::*;

verus! {

/// An ordered list of `key = value` label pairs, as the cluster returned them.
/// Keys are unique in every map the cluster hands out; lookups take the first
/// match so they are total on any list.
pub type LabelMap = Vec<(String, String)>;

/// The character sequences of a pair list.
pub open spec fn pairs_views(m: Seq<(String, String)>) -> Seq<(Seq<char>, Seq<char>)> {
    m.map_values(|p: (String, String)| (p.0@, p.1@))
}

/// First value stored under key `k`, or `None` when no pair carries `k`.
pub open spec fn label_get(m: Seq<(String, String)>, k: Seq<char>) -> Option<Seq<char>>
    decreases m.len(),
{
    if m.len() == 0 {
        None
    } else if m[0].0@ == k {
        Some(m[0].1@)
    } else {
        label_get(m.drop_first(), k)
    }
}

proof fn lemma_label_get_skip(m: Seq<(String, String)>, k: Seq<char>, i: int)
    requires
        0 <= i < m.len(),
        m[i].0@ != k,
        label_get(m, k) == label_get(m.skip(i), k),
    ensures
        label_get(m, k) == label_get(m.skip(i + 1), k),
{
    assert(m.skip(i).drop_first() =~= m.skip(i + 1));
}

/// Looks `k` up in a label map, reporting exactly what `label_get` says.
pub fn label_lookup<'a>(m: &'a LabelMap, k: &String) -> (r: Option<&'a String>)
    ensures
        match r {
            Some(v) => label_get(m@, k@) == Some(v@),
            None => label_get(m@, k@) is None,
        },
{
    proof {
        assert(m@.skip(0) =~= m@);
    }
    let mut i: usize = 0;
    while i < m.len()
        invariant
            i <= m@.len(),
            label_get(m@, k@) == label_get(m@.skip(i as int), k@),
        decreases m@.len() - i,
    {
        let hit = m[i].0 == *k;
        proof {
            assert(m@.skip(i as int)[0] == m@[i as int]);
        }
        if hit {
            return Some(&m[i].1);
        }
        proof {
            lemma_label_get_skip(m@, k@, i as int);
        }
        i += 1;
    }
    proof {
        assert(m@.skip(m@.len() as int) =~= Seq::<(String, String)>::empty());
    }
    None
}

/// A cluster node as the resolver sees it: its name and its labels.
#[derive(Clone, Debug)]
pub struct Node {
    pub name: String,
    pub labels: LabelMap,
}

/// Selects nodes by their labels; every listed pair must be present verbatim.
#[derive(Clone, Debug)]
pub enum NodeSelectorTerm {
    MatchLabels { labels: LabelMap },
}

/// Where an inventory group's hosts come from.
#[derive(Clone, Debug)]
pub enum Hosts {
    FromClusterNodes { from_nodes: NodeSelectorTerm },
    FromStaticList { from_list: Vec<String> },
}

/// One named host group of the plan.
#[derive(Clone, Debug)]
pub struct Inventory {
    pub name: String,
    pub hosts: Hosts,
}

/// Names a secret in the plan's namespace.
#[derive(Clone, Debug)]
pub struct SecretRef {
    pub name: String,
}

/// Connection settings for reaching hosts over SSH.
#[derive(Clone, Debug)]
pub struct SshConfig {
    pub user: String,
    pub secret_ref: SecretRef,
}

/// How the runner connects to a host.
#[derive(Clone, Debug)]
pub enum ConnectionStrategy {
    Ssh { ssh: SshConfig },
    Chroot {},
}

/// Whether the plan runs once or on every firing of its schedule.
#[derive(Clone, Copy, Debug, PartialEq, Eq, Structural)]
pub enum ExecutionMode {
    OneShot,
    Recurring,
}

/// One source of playbook variables: either a secret holding
/// `variables.yaml`, or an inline mapping carried as serialized YAML text.
#[derive(Clone, Debug)]
pub enum PlaybookVariableSource {
    SecretRef { secret_ref: SecretRef },
    Inline { inline: String },
}

/// One source of extra files: a secret, or an arbitrary volume kept as the
/// serialized JSON of its unknown keys.
#[derive(Clone, Debug)]
pub enum FilesSource {
    Secret { name: String, secret_ref: SecretRef },
    Other { name: String, extra: String },
}

/// The playbook itself plus its variables, files and runtime requirements.
#[derive(Clone, Debug)]
pub struct PlaybookTemplate {
    pub playbook: String,
    pub variables: Option<Vec<PlaybookVariableSource>>,
    pub files: Option<Vec<FilesSource>>,
    pub requirements: Option<String>,
}

/// Desired state of one plan.
#[derive(Clone, Debug)]
pub struct PlaybookPlanSpec {
    pub image: String,
    pub mode: ExecutionMode,
    pub schedule: Option<String>,
    pub time_zone: Option<String>,
    pub inventory: Vec<Inventory>,
    pub connection_strategy: ConnectionStrategy,
    pub template: PlaybookTemplate,
}

/// Cron triggers of an earlier resource revision, kept for compatibility.
#[derive(Clone, Debug)]
pub struct ExecutionTriggers {
    pub delayed_until: Option<String>,
    pub schedule: Option<String>,
    pub time_zone: Option<String>,
}

/// Where the plan currently sits in its lifecycle.
#[derive(Clone, Copy, Debug, PartialEq, Eq, Structural)]
pub enum Phase {
    Pending,
    Delayed,
    Applying,
    Scheduled,
    Finished,
}

/// Result of the last confirmed application on one host.
#[derive(Clone, Debug)]
pub struct HostStatus {
    pub last_applied_hash: String,
}

/// A tri-valued flag on the plan's status; `last_transition_time` is seconds
/// since the Unix epoch and moves only on real transitions.
#[derive(Clone, Debug)]
pub struct PlaybookPlanCondition {
    pub type_: String,
    pub status: String,
    pub reason: Option<String>,
    pub message: Option<String>,
    pub last_transition_time: Option<i64>,
}

/// Observed state of one plan.  `eligible_hosts` keeps inventory order and
/// `next_run` is seconds since the Unix epoch.
#[derive(Clone, Debug)]
pub struct PlaybookPlanStatus {
    pub eligible_hosts: Option<Vec<(String, Vec<String>)>>,
    pub eligible_hosts_count: Option<usize>,
    pub last_rendered_generation: Option<i64>,
    pub conditions: Vec<PlaybookPlanCondition>,
    pub hosts_status: Option<Vec<(String, HostStatus)>>,
    pub next_run: Option<i64>,
    pub phase: Option<Phase>,
    pub current_hash: Option<String>,
}

impl PlaybookPlanStatus {
    /// A status with nothing observed yet.
    pub fn empty() -> (r: PlaybookPlanStatus)
        ensures
            r.eligible_hosts is None,
            r.eligible_hosts_count is None,
            r.last_rendered_generation is None,
            r.conditions@ =~= Seq::<PlaybookPlanCondition>::empty(),
            r.hosts_status is None,
            r.next_run is None,
            r.phase is None,
            r.current_hash is None,
    {
        PlaybookPlanStatus {
            eligible_hosts: None,
            eligible_hosts_count: None,
            last_rendered_generation: None,
            conditions: Vec::new(),
            hosts_status: None,
            next_run: None,
            phase: None,
            current_hash: None,
        }
    }
}

/// Object metadata of the plan as far as the reconciler reads it.
#[derive(Clone, Debug)]
pub struct PlanMeta {
    pub name: Option<String>,
    pub namespace: Option<String>,
    pub uid: Option<String>,
    pub generation: Option<i64>,
    pub deletion_timestamp: Option<String>,
}

} // verus!
