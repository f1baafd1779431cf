//! The job builder: one single-shot cluster job per `(host, fingerprint)`,
//! with deterministic name, labels, volumes, mounts and command line.

use vstd::prelude::*;
use crate::command::{plan_variables, render_ansible_command, spec_ansible_command};
use crate::conditions::opt_str_view;
use crate::errors::ReconcileError;
use crate::fingerprint::{hash_timestamp, xx_time, ExecutionHash};
use crate::model::{
    ConnectionStrategy, FilesSource, LabelMap, PlanMeta, PlaybookPlanSpec, PlaybookVariableSource,
    SshConfig,
};
use crate::strutil::{hex_str, spec_generate_id, str_to_string, str_views, generate_id};

verus! {

/// Owner reference pinning a child object to its plan.
#[derive(Clone, Debug)]
pub struct OwnerRef {
    pub api_version: String,
    pub kind: String,
    pub name: String,
    pub uid: String,
}

/// A pod volume as far as the job builder shapes one.
#[derive(Clone, Debug)]
pub enum VolumeModel {
    /// Backed by a named secret.
    Secret {
        name: String,
        secret_name: String,
        default_mode: Option<u32>,
        /// `(key, path)` projections; empty exposes every key.
        items: Vec<(String, String)>,
    },
    /// A scratch directory living as long as the pod.
    EmptyDir { name: String },
    /// A directory of the node's filesystem.
    HostPath { name: String, path: String, type_: String },
    /// A user-supplied volume carried verbatim as the JSON of its keys.
    Other { name: String, extra: String },
}

/// Mounts one volume into a container.
#[derive(Clone, Debug)]
pub struct MountModel {
    pub name: String,
    pub mount_path: String,
}

/// One container of the job's pod.
#[derive(Clone, Debug)]
pub struct ContainerModel {
    pub name: String,
    pub image: String,
    pub working_dir: String,
    pub command: Vec<String>,
    pub volume_mounts: Vec<MountModel>,
    pub privileged: bool,
}

/// The job definition the reconciler submits for one host.
#[derive(Clone, Debug)]
pub struct JobModel {
    pub name: String,
    pub namespace: String,
    pub labels: LabelMap,
    pub owner: OwnerRef,
    pub backoff_limit: i32,
    pub restart_policy: String,
    pub volumes: Vec<VolumeModel>,
    pub init_containers: Vec<ContainerModel>,
    pub container: ContainerModel,
    pub host_ipc: bool,
    pub host_network: bool,
    pub host_pid: bool,
    pub host_users: bool,
    pub node_selector: Vec<(String, String)>,
}

/// View of one volume: the name plus exactly one populated backing.
#[verifier::ext_equal]
pub ghost struct VolView {
    pub name: Seq<char>,
    pub secret_name: Option<Seq<char>>,
    pub default_mode: Option<u32>,
    pub items: Seq<(Seq<char>, Seq<char>)>,
    pub empty_dir: bool,
    pub host_path: Option<(Seq<char>, Seq<char>)>,
    pub other_extra: Option<Seq<char>>,
}

/// The view of one volume value.
pub open spec fn vol_view(v: VolumeModel) -> VolView {
    match v {
        VolumeModel::Secret { name, secret_name, default_mode, items } => VolView {
            name: name@,
            secret_name: Some(secret_name@),
            default_mode,
            items: items@.map_values(|p: (String, String)| (p.0@, p.1@)),
            empty_dir: false,
            host_path: None,
            other_extra: None,
        },
        VolumeModel::EmptyDir { name } => VolView {
            name: name@,
            secret_name: None,
            default_mode: None,
            items: Seq::empty(),
            empty_dir: true,
            host_path: None,
            other_extra: None,
        },
        VolumeModel::HostPath { name, path, type_ } => VolView {
            name: name@,
            secret_name: None,
            default_mode: None,
            items: Seq::empty(),
            empty_dir: false,
            host_path: Some((path@, type_@)),
            other_extra: None,
        },
        VolumeModel::Other { name, extra } => VolView {
            name: name@,
            secret_name: None,
            default_mode: None,
            items: Seq::empty(),
            empty_dir: false,
            host_path: None,
            other_extra: Some(extra@),
        },
    }
}

/// Views of a volume list.
pub open spec fn vols_views(vs: Seq<VolumeModel>) -> Seq<VolView> {
    vs.map_values(|v: VolumeModel| vol_view(v))
}

/// Views of a mount list: `(volume name, mount path)`.
pub open spec fn mounts_views(ms: Seq<MountModel>) -> Seq<(Seq<char>, Seq<char>)> {
    ms.map_values(|m: MountModel| (m.name@, m.mount_path@))
}

/// The workspace volume: the plan's rendered secret, named `playbook`.
pub open spec fn workspace_vol(plan_name: Seq<char>) -> VolView {
    VolView {
        name: "playbook"@,
        secret_name: Some(plan_name),
        default_mode: None,
        items: Seq::empty(),
        empty_dir: false,
        host_path: None,
        other_extra: None,
    }
}

/// A projected variables volume for one referenced secret: only the key
/// `variables.yaml`, mounted read-only for the owner.
pub open spec fn var_vol(secret: Seq<char>) -> VolView {
    VolView {
        name: secret,
        secret_name: Some(secret),
        default_mode: Some(0x100u32),
        items: seq![("variables.yaml"@, "variables.yaml"@)],
        empty_dir: false,
        host_path: None,
        other_extra: None,
    }
}

/// The volumes of the variable-source secrets, in order.
pub open spec fn var_vols(secrets: Seq<Seq<char>>) -> Seq<VolView> {
    secrets.map_values(|s: Seq<char>| var_vol(s))
}

/// The view of one file-source volume: a secret-backed volume for a
/// secret-ref entry, the user's JSON carried verbatim otherwise.
pub open spec fn file_vol(f: FilesSource) -> VolView {
    match f {
        FilesSource::Secret { name, secret_ref } => VolView {
            name: name@,
            secret_name: Some(secret_ref.name@),
            default_mode: None,
            items: Seq::empty(),
            empty_dir: false,
            host_path: None,
            other_extra: None,
        },
        FilesSource::Other { name, extra } => VolView {
            name: name@,
            secret_name: None,
            default_mode: None,
            items: Seq::empty(),
            empty_dir: false,
            host_path: None,
            other_extra: Some(extra@),
        },
    }
}

/// The volumes of the file sources, in order.
pub open spec fn file_vols(files: Seq<FilesSource>) -> Seq<VolView> {
    files.map_values(|f: FilesSource| file_vol(f))
}

/// The scratch volume collections are installed into.
pub open spec fn collections_vol() -> VolView {
    VolView {
        name: "collections"@,
        secret_name: None,
        default_mode: None,
        items: Seq::empty(),
        empty_dir: true,
        host_path: None,
        other_extra: None,
    }
}

/// The file sources of a plan, empty when none are given.
pub open spec fn plan_files(spec_: &PlaybookPlanSpec) -> Seq<FilesSource> {
    match spec_.template.files {
        Some(f) => f@,
        None => Seq::empty(),
    }
}

/// Names of the secrets referenced by the plan's variable sources, in order.
pub open spec fn spec_variable_secret_names(vars: Seq<PlaybookVariableSource>) -> Seq<Seq<char>>
    decreases vars.len(),
{
    if vars.len() == 0 {
        Seq::empty()
    } else {
        match vars[0] {
            PlaybookVariableSource::SecretRef { secret_ref } => seq![secret_ref.name@]
                + spec_variable_secret_names(vars.drop_first()),
            PlaybookVariableSource::Inline { .. } => spec_variable_secret_names(vars.drop_first()),
        }
    }
}

proof fn lemma_variable_secret_names_snoc(
    vars: Seq<PlaybookVariableSource>,
    v: PlaybookVariableSource,
)
    ensures
        spec_variable_secret_names(vars.push(v)) == (match v {
            PlaybookVariableSource::SecretRef { secret_ref } => spec_variable_secret_names(
                vars,
            ).push(secret_ref.name@),
            PlaybookVariableSource::Inline { .. } => spec_variable_secret_names(vars),
        }),
    decreases vars.len(),
{
    let p = vars.push(v);
    if vars.len() == 0 {
        assert(p[0] == v);
        assert(p.drop_first() =~= Seq::<PlaybookVariableSource>::empty());
        assert(spec_variable_secret_names(p.drop_first()) =~= Seq::<Seq<char>>::empty());
        assert(spec_variable_secret_names(vars) =~= Seq::<Seq<char>>::empty());
        match v {
            PlaybookVariableSource::SecretRef { secret_ref } => {
                assert(seq![secret_ref.name@] + spec_variable_secret_names(p.drop_first())
                    =~= spec_variable_secret_names(vars).push(secret_ref.name@));
            },
            PlaybookVariableSource::Inline { .. } => {},
        }
    } else {
        assert(p[0] == vars[0]);
        assert(p.drop_first() =~= vars.drop_first().push(v));
        lemma_variable_secret_names_snoc(vars.drop_first(), v);
        match vars[0] {
            PlaybookVariableSource::SecretRef { secret_ref } => {
                match v {
                    PlaybookVariableSource::SecretRef { secret_ref: sr2 } => {
                        assert(seq![secret_ref.name@] + spec_variable_secret_names(
                            vars.drop_first(),
                        ).push(sr2.name@) =~= (seq![secret_ref.name@]
                            + spec_variable_secret_names(vars.drop_first())).push(sr2.name@));
                    },
                    PlaybookVariableSource::Inline { .. } => {},
                }
            },
            PlaybookVariableSource::Inline { .. } => {},
        }
    }
}

/// Names of the secrets referenced by the plan's file sources, in order.
pub open spec fn spec_file_secret_names(files: Seq<FilesSource>) -> Seq<Seq<char>>
    decreases files.len(),
{
    if files.len() == 0 {
        Seq::empty()
    } else {
        match files[0] {
            FilesSource::Secret { secret_ref, .. } => seq![secret_ref.name@]
                + spec_file_secret_names(files.drop_first()),
            FilesSource::Other { .. } => spec_file_secret_names(files.drop_first()),
        }
    }
}

proof fn lemma_file_secret_names_snoc(files: Seq<FilesSource>, f: FilesSource)
    ensures
        spec_file_secret_names(files.push(f)) == (match f {
            FilesSource::Secret { secret_ref, .. } => spec_file_secret_names(files).push(
                secret_ref.name@,
            ),
            FilesSource::Other { .. } => spec_file_secret_names(files),
        }),
    decreases files.len(),
{
    let p = files.push(f);
    if files.len() == 0 {
        assert(p[0] == f);
        assert(p.drop_first() =~= Seq::<FilesSource>::empty());
        assert(spec_file_secret_names(p.drop_first()) =~= Seq::<Seq<char>>::empty());
        assert(spec_file_secret_names(files) =~= Seq::<Seq<char>>::empty());
        match f {
            FilesSource::Secret { secret_ref, .. } => {
                assert(seq![secret_ref.name@] + spec_file_secret_names(p.drop_first())
                    =~= spec_file_secret_names(files).push(secret_ref.name@));
            },
            FilesSource::Other { .. } => {},
        }
    } else {
        assert(p[0] == files[0]);
        assert(p.drop_first() =~= files.drop_first().push(f));
        lemma_file_secret_names_snoc(files.drop_first(), f);
        match files[0] {
            FilesSource::Secret { secret_ref, .. } => {
                match f {
                    FilesSource::Secret { secret_ref: sr2, .. } => {
                        assert(seq![secret_ref.name@] + spec_file_secret_names(
                            files.drop_first(),
                        ).push(sr2.name@) =~= (seq![secret_ref.name@] + spec_file_secret_names(
                            files.drop_first(),
                        )).push(sr2.name@));
                    },
                    FilesSource::Other { .. } => {},
                }
            },
            FilesSource::Other { .. } => {},
        }
    }
}

/// Names of every secret the plan's variables reference, in spec order.
pub fn extract_secret_names_for_variables(spec_: &PlaybookPlanSpec) -> (r: Vec<String>)
    ensures
        str_views(r@) == spec_variable_secret_names(plan_variables(spec_)),
{
    let mut r: Vec<String> = Vec::new();
    let vars = match &spec_.template.variables {
        Some(v) => v,
        None => {
            proof {
                assert(str_views(r@) =~= spec_variable_secret_names(plan_variables(spec_)));
            }
            return r;
        },
    };
    proof {
        assert(vars@.take(0) =~= Seq::<PlaybookVariableSource>::empty());
        assert(str_views(r@) =~= spec_variable_secret_names(vars@.take(0)));
    }
    let mut i: usize = 0;
    while i < vars.len()
        invariant
            i <= vars@.len(),
            str_views(r@) == spec_variable_secret_names(vars@.take(i as int)),
            vars@ == plan_variables(spec_),
        decreases vars@.len() - i,
    {
        proof {
            assert(vars@.take(i + 1) =~= vars@.take(i as int).push(vars@[i as int]));
            lemma_variable_secret_names_snoc(vars@.take(i as int), vars@[i as int]);
        }
        match &vars[i] {
            PlaybookVariableSource::SecretRef { secret_ref } => {
                let name = secret_ref.name.clone();
                proof {
                    assert(str_views(r@.push(name)) =~= str_views(r@).push(name@));
                }
                r.push(name);
            },
            PlaybookVariableSource::Inline { .. } => {},
        }
        i += 1;
    }
    proof {
        assert(vars@.take(vars@.len() as int) =~= vars@);
    }
    r
}

/// Names of every secret the plan's file sources reference, in spec order.
pub fn extract_secret_names_for_files(spec_: &PlaybookPlanSpec) -> (r: Vec<String>)
    ensures
        str_views(r@) == spec_file_secret_names(plan_files(spec_)),
{
    let mut r: Vec<String> = Vec::new();
    let files = match &spec_.template.files {
        Some(f) => f,
        None => {
            proof {
                assert(str_views(r@) =~= spec_file_secret_names(plan_files(spec_)));
            }
            return r;
        },
    };
    proof {
        assert(files@.take(0) =~= Seq::<FilesSource>::empty());
        assert(str_views(r@) =~= spec_file_secret_names(files@.take(0)));
    }
    let mut i: usize = 0;
    while i < files.len()
        invariant
            i <= files@.len(),
            str_views(r@) == spec_file_secret_names(files@.take(i as int)),
            files@ == plan_files(spec_),
        decreases files@.len() - i,
    {
        proof {
            assert(files@.take(i + 1) =~= files@.take(i as int).push(files@[i as int]));
            lemma_file_secret_names_snoc(files@.take(i as int), files@[i as int]);
        }
        match &files[i] {
            FilesSource::Secret { secret_ref, .. } => {
                let name = secret_ref.name.clone();
                proof {
                    assert(str_views(r@.push(name)) =~= str_views(r@).push(name@));
                }
                r.push(name);
            },
            FilesSource::Other { .. } => {},
        }
        i += 1;
    }
    proof {
        assert(files@.take(files@.len() as int) =~= files@);
    }
    r
}

/// Names of every secret the plan references, variables first, then files.
pub fn get_related_secrets(spec_: &PlaybookPlanSpec) -> (r: Vec<String>)
    ensures
        str_views(r@) == spec_variable_secret_names(plan_variables(spec_))
            + spec_file_secret_names(plan_files(spec_)),
{
    let mut r = extract_secret_names_for_variables(spec_);
    let from_files = extract_secret_names_for_files(spec_);
    let ghost before = str_views(r@);
    let mut i: usize = 0;
    while i < from_files.len()
        invariant
            i <= from_files@.len(),
            str_views(r@) == before + str_views(from_files@).take(i as int),
        decreases from_files@.len() - i,
    {
        let name = from_files[i].clone();
        proof {
            assert(str_views(r@.push(name)) =~= str_views(r@).push(name@));
            assert(str_views(from_files@).take(i + 1) =~= str_views(from_files@).take(
                i as int,
            ).push(from_files@[i as int]@));
            assert(before + str_views(from_files@).take(i + 1) =~= (before + str_views(
                from_files@,
            ).take(i as int)).push(from_files@[i as int]@));
        }
        r.push(name);
        i += 1;
    }
    proof {
        assert(str_views(from_files@).take(from_files@.len() as int) =~= str_views(from_files@));
    }
    r
}

/// The hash the start time contributes to a job's id: a fixed `1` for an
/// unscheduled run.
pub open spec fn start_time_hash(start: Option<i64>) -> u64 {
    match start {
        Some(t) => xx_time(t),
        None => 1u64,
    }
}

/// The deterministic job name for `(plan, fingerprint, host, start)`.
pub open spec fn spec_job_name(
    plan_name: Seq<char>,
    host: Seq<char>,
    hash: u64,
    start: Option<i64>,
) -> Seq<char> {
    "apply-"@ + plan_name + "-"@ + spec_generate_id(hash ^ start_time_hash(start)) + "-on-"@ + host
}

/// The name under which a file source is mounted.
pub open spec fn file_name(f: FilesSource) -> Seq<char> {
    match f {
        FilesSource::Secret { name, .. } => name@,
        FilesSource::Other { name, .. } => name@,
    }
}

/// Mounts of the variable-source secrets, each under `vars/<secret>`.
pub open spec fn var_mounts(secrets: Seq<Seq<char>>) -> Seq<(Seq<char>, Seq<char>)> {
    secrets.map_values(|s: Seq<char>| (s, "/run/ansible-operator/vars/"@ + s))
}

/// Mounts of the file sources, each under `files/<name>`.
pub open spec fn file_mounts(files: Seq<FilesSource>) -> Seq<(Seq<char>, Seq<char>)> {
    files.map_values(|f: FilesSource| (file_name(f), "/run/ansible-operator/files/"@ + file_name(f)))
}

/// Every volume the job skeleton carries, in build order: the workspace,
/// one projected volume per variable secret, the file sources, and the
/// collections scratch space when requirements are installed.
pub open spec fn base_volumes(spec_: &PlaybookPlanSpec, plan_name: Seq<char>, req: bool) -> Seq<
    VolView,
> {
    seq![workspace_vol(plan_name)] + var_vols(spec_variable_secret_names(plan_variables(spec_)))
        + file_vols(plan_files(spec_)) + if req {
        seq![collections_vol()]
    } else {
        Seq::empty()
    }
}

/// Every mount of the skeleton's containers, matching `base_volumes`.
pub open spec fn base_mounts(spec_: &PlaybookPlanSpec, req: bool) -> Seq<(Seq<char>, Seq<char>)> {
    seq![("playbook"@, "/run/ansible-operator"@)] + var_mounts(
        spec_variable_secret_names(plan_variables(spec_)),
    ) + file_mounts(plan_files(spec_)) + if req {
        seq![("collections"@, "/etc/ansible/collections"@)]
    } else {
        Seq::empty()
    }
}

/// The SSH key volume.
pub open spec fn ssh_vol(secret: Seq<char>) -> VolView {
    VolView {
        name: "ssh"@,
        secret_name: Some(secret),
        default_mode: Some(0x100u32),
        items: Seq::empty(),
        empty_dir: false,
        host_path: None,
        other_extra: None,
    }
}

/// The node's root filesystem, mounted for chroot runs.
pub open spec fn rootfs_vol() -> VolView {
    VolView {
        name: "rootfs"@,
        secret_name: None,
        default_mode: None,
        items: Seq::empty(),
        empty_dir: false,
        host_path: Some(("/"@, "Directory"@)),
        other_extra: None,
    }
}

/// Copies a mount list, mount for mount.
fn clone_mounts(ms: &Vec<MountModel>) -> (r: Vec<MountModel>)
    ensures
        mounts_views(r@) == mounts_views(ms@),
{
    let mut r: Vec<MountModel> = Vec::new();
    let mut i: usize = 0;
    while i < ms.len()
        invariant
            i <= ms@.len(),
            mounts_views(r@) == mounts_views(ms@).take(i as int),
        decreases ms@.len() - i,
    {
        let m = MountModel { name: ms[i].name.clone(), mount_path: ms[i].mount_path.clone() };
        proof {
            assert(mounts_views(r@.push(m)) =~= mounts_views(r@).push(
                (ms@[i as int].name@, ms@[i as int].mount_path@),
            ));
            assert(mounts_views(ms@).take(i + 1) =~= mounts_views(ms@).take(i as int).push(
                mounts_views(ms@)[i as int],
            ));
        }
        r.push(m);
        i += 1;
    }
    proof {
        assert(mounts_views(ms@).take(ms@.len() as int) =~= mounts_views(ms@));
    }
    r
}

/// What the skeleton guarantees for the built job, before connection
/// specifics, name and labels are added.
pub open spec fn skeleton_post(
    j: JobModel,
    host: Seq<char>,
    meta: &PlanMeta,
    spec_: &PlaybookPlanSpec,
    req: bool,
) -> bool {
    &&& j.owner.api_version@ == "ansible.cloudbending.dev/v1beta1"@
    &&& j.owner.kind@ == "PlaybookPlan"@
    &&& Some(j.owner.name@) == opt_str_view(meta.name)
    &&& Some(j.owner.uid@) == opt_str_view(meta.uid)
    &&& j.backoff_limit == 0
    &&& j.restart_policy@ == "Never"@
    &&& vols_views(j.volumes@) == base_volumes(spec_, j.owner.name@, req)
    &&& mounts_views(j.container.volume_mounts@) == base_mounts(spec_, req)
    &&& j.container.name@ == "ansible-playbook"@
    &&& j.container.image@ == spec_.image@
    &&& j.container.working_dir@ == "/run/ansible-operator"@
    &&& !j.container.privileged
    &&& str_views(j.container.command@) == spec_ansible_command(
        spec_,
        host,
        spec_variable_secret_names(plan_variables(spec_)),
    )
    &&& (req ==> j.init_containers@.len() == 1 && {
        let c = j.init_containers@[0];
        &&& c.name@ == "download-collections"@
        &&& c.image@ == spec_.image@
        &&& c.working_dir@ == "/run/ansible-operator"@
        &&& str_views(c.command@) == seq!["ansible-galaxy"@, "install"@, "-r"@, "requirements.yml"@]
        &&& mounts_views(c.volume_mounts@) == base_mounts(spec_, req)
        &&& !c.privileged
    })
    &&& (!req ==> j.init_containers@.len() == 0)
    &&& !j.host_ipc
    &&& !j.host_network
    &&& !j.host_pid
    &&& !j.host_users
    &&& j.node_selector@.len() == 0
}

/// Builds the connection-agnostic job: the workspace and variable mounts,
/// the optional collections installer, and the main `ansible-playbook`
/// container.  Fails exactly when the plan lacks a name or uid.
fn create_job_skeleton(
    host: &str,
    meta: &PlanMeta,
    spec_: &PlaybookPlanSpec,
    with_requirements: bool,
) -> (r: Result<JobModel, ReconcileError>)
    ensures
        r is Ok <==> (meta.name is Some && meta.uid is Some),
        r matches Ok(j) ==> skeleton_post(j, host@, meta, spec_, with_requirements),
{
    let pb_name = match &meta.name {
        Some(n) => n,
        None => {
            return Err(
                ReconcileError::PreconditionFailed(
                    str_to_string("expected .metadata.name in PlaybookPlan"),
                ),
            );
        },
    };
    let pb_uid = match &meta.uid {
        Some(u) => u,
        None => {
            return Err(
                ReconcileError::PreconditionFailed(
                    str_to_string("expected .metadata.uid in PlaybookPlan"),
                ),
            );
        },
    };

    let var_secret_names = extract_secret_names_for_variables(spec_);

    let mut volumes: Vec<VolumeModel> = Vec::new();
    let ws = VolumeModel::Secret {
        name: str_to_string("playbook"),
        secret_name: pb_name.clone(),
        default_mode: None,
        items: Vec::new(),
    };
    proof {
        assert(vol_view(ws) =~~= workspace_vol(pb_name@));
    }
    volumes.push(ws);
    proof {
        assert(vols_views(volumes@) =~~= seq![workspace_vol(pb_name@)]);
    }

    let mut mounts: Vec<MountModel> = Vec::new();
    mounts.push(
        MountModel {
            name: str_to_string("playbook"),
            mount_path: str_to_string("/run/ansible-operator"),
        },
    );
    proof {
        assert(mounts_views(mounts@) =~= seq![("playbook"@, "/run/ansible-operator"@)]);
    }

    let ghost vhead = seq![workspace_vol(pb_name@)];
    let ghost mhead = seq![("playbook"@, "/run/ansible-operator"@)];
    let ghost svnames = str_views(var_secret_names@);
    proof {
        assert(svnames.take(0) =~= Seq::<Seq<char>>::empty());
        assert(vols_views(volumes@) =~~= vhead + var_vols(svnames.take(0)));
        assert(mounts_views(mounts@) =~= mhead + var_mounts(svnames.take(0)));
    }
    let mut i: usize = 0;
    while i < var_secret_names.len()
        invariant
            i <= var_secret_names@.len(),
            svnames == str_views(var_secret_names@),
            vols_views(volumes@) == vhead + var_vols(svnames.take(i as int)),
            mounts_views(mounts@) == mhead + var_mounts(svnames.take(i as int)),
        decreases var_secret_names@.len() - i,
    {
        let mut items: Vec<(String, String)> = Vec::new();
        items.push((str_to_string("variables.yaml"), str_to_string("variables.yaml")));
        let vol = VolumeModel::Secret {
            name: var_secret_names[i].clone(),
            secret_name: var_secret_names[i].clone(),
            default_mode: Some(0x100u32),
            items,
        };
        proof {
            assert(vol_view(vol).items =~= seq![("variables.yaml"@, "variables.yaml"@)]);
            assert(vol_view(vol) =~~= var_vol(svnames[i as int]));
            assert(vols_views(volumes@.push(vol)) =~~= vols_views(volumes@).push(vol_view(vol)));
            assert(svnames.take(i + 1) =~= svnames.take(i as int).push(svnames[i as int]));
            assert(vhead + var_vols(svnames.take(i + 1)) =~~= (vhead + var_vols(
                svnames.take(i as int),
            )).push(var_vol(svnames[i as int])));
        }
        volumes.push(vol);
        let mut path = str_to_string("/run/ansible-operator/vars/");
        path.append(var_secret_names[i].as_str());
        let m = MountModel { name: var_secret_names[i].clone(), mount_path: path };
        proof {
            assert(mounts_views(mounts@.push(m)) =~= mounts_views(mounts@).push(
                (svnames[i as int], "/run/ansible-operator/vars/"@ + svnames[i as int]),
            ));
            assert(mhead + var_mounts(svnames.take(i + 1)) =~= (mhead + var_mounts(
                svnames.take(i as int),
            )).push((svnames[i as int], "/run/ansible-operator/vars/"@ + svnames[i as int])));
        }
        mounts.push(m);
        i += 1;
    }
    proof {
        assert(svnames.take(svnames.len() as int) =~= svnames);
    }

    let ghost vhead2 = vhead + var_vols(spec_variable_secret_names(plan_variables(spec_)));
    let ghost mhead2 = mhead + var_mounts(spec_variable_secret_names(plan_variables(spec_)));
    match &spec_.template.files {
        None => {
            proof {
                assert(file_vols(plan_files(spec_)) =~~= Seq::<VolView>::empty());
                assert(file_mounts(plan_files(spec_)) =~= Seq::<(Seq<char>, Seq<char>)>::empty());
                assert(vols_views(volumes@) =~~= vhead2 + file_vols(plan_files(spec_)));
                assert(mounts_views(mounts@) =~= mhead2 + file_mounts(plan_files(spec_)));
            }
        },
        Some(files) => {
            proof {
                assert(files@.take(0) =~= Seq::<FilesSource>::empty());
                assert(vols_views(volumes@) =~~= vhead2 + file_vols(files@.take(0)));
                assert(mounts_views(mounts@) =~= mhead2 + file_mounts(files@.take(0)));
            }
            let mut k: usize = 0;
            while k < files.len()
                invariant
                    k <= files@.len(),
                    files@ == plan_files(spec_),
                    vhead2 == seq![workspace_vol(spec_job_owner_name(meta))] + var_vols(
                        spec_variable_secret_names(plan_variables(spec_)),
                    ),
                    mhead2 == seq![("playbook"@, "/run/ansible-operator"@)] + var_mounts(
                        spec_variable_secret_names(plan_variables(spec_)),
                    ),
                    vols_views(volumes@) == vhead2 + file_vols(files@.take(k as int)),
                    mounts_views(mounts@) == mhead2 + file_mounts(files@.take(k as int)),
                decreases files@.len() - k,
            {
                proof {
                    assert(files@.take(k + 1) =~= files@.take(k as int).push(files@[k as int]));
                }
                let fname: &String;
                let vol: VolumeModel;
                match &files[k] {
                    FilesSource::Secret { name, secret_ref } => {
                        fname = name;
                        vol = VolumeModel::Secret {
                            name: name.clone(),
                            secret_name: secret_ref.name.clone(),
                            default_mode: None,
                            items: Vec::new(),
                        };
                    },
                    FilesSource::Other { name, extra } => {
                        fname = name;
                        vol = VolumeModel::Other { name: name.clone(), extra: extra.clone() };
                    },
                }
                proof {
                    assert(vol_view(vol).items =~= Seq::<(Seq<char>, Seq<char>)>::empty());
                    assert(vol_view(vol) =~~= file_vol(files@[k as int]));
                    assert(vols_views(volumes@.push(vol)) =~~= vols_views(volumes@).push(
                        vol_view(vol),
                    ));
                    assert(vhead2 + file_vols(files@.take(k + 1)) =~~= (vhead2 + file_vols(
                        files@.take(k as int),
                    )).push(file_vol(files@[k as int])));
                }
                volumes.push(vol);
                let mut path = str_to_string("/run/ansible-operator/files/");
                path.append(fname.as_str());
                let m = MountModel { name: fname.clone(), mount_path: path };
                proof {
                    assert(mounts_views(mounts@.push(m)) =~= mounts_views(mounts@).push(
                        (
                            file_name(files@[k as int]),
                            "/run/ansible-operator/files/"@ + file_name(files@[k as int]),
                        ),
                    ));
                    assert(mhead2 + file_mounts(files@.take(k + 1)) =~= (mhead2 + file_mounts(
                        files@.take(k as int),
                    )).push(
                        (
                            file_name(files@[k as int]),
                            "/run/ansible-operator/files/"@ + file_name(files@[k as int]),
                        ),
                    ));
                }
                mounts.push(m);
                k += 1;
            }
            proof {
                assert(files@.take(files@.len() as int) =~= files@);
            }
        },
    }

    let mut init_containers: Vec<ContainerModel> = Vec::new();
    if with_requirements {
        let cv = VolumeModel::EmptyDir { name: str_to_string("collections") };
        proof {
            assert(vol_view(cv) =~~= collections_vol());
            assert(vols_views(volumes@.push(cv)) =~~= vols_views(volumes@).push(collections_vol()));
            assert((vhead2 + file_vols(plan_files(spec_))).push(collections_vol()) =~~= base_volumes(
                spec_,
                spec_job_owner_name(meta),
                true,
            ));
        }
        volumes.push(cv);
        let cm = MountModel {
            name: str_to_string("collections"),
            mount_path: str_to_string("/etc/ansible/collections"),
        };
        proof {
            assert(mounts_views(mounts@.push(cm)) =~= mounts_views(mounts@).push(
                ("collections"@, "/etc/ansible/collections"@),
            ));
            assert((mhead2 + file_mounts(plan_files(spec_))).push(
                ("collections"@, "/etc/ansible/collections"@),
            ) =~= base_mounts(spec_, true));
        }
        mounts.push(cm);

        let mut galaxy_cmd: Vec<String> = Vec::new();
        galaxy_cmd.push(str_to_string("ansible-galaxy"));
        galaxy_cmd.push(str_to_string("install"));
        galaxy_cmd.push(str_to_string("-r"));
        galaxy_cmd.push(str_to_string("requirements.yml"));
        proof {
            assert(str_views(galaxy_cmd@) =~= seq![
                "ansible-galaxy"@,
                "install"@,
                "-r"@,
                "requirements.yml"@,
            ]);
        }
        let installer = ContainerModel {
            name: str_to_string("download-collections"),
            image: spec_.image.clone(),
            working_dir: str_to_string("/run/ansible-operator"),
            command: galaxy_cmd,
            volume_mounts: clone_mounts(&mounts),
            privileged: false,
        };
        init_containers.push(installer);
    } else {
        proof {
            assert(base_volumes(spec_, spec_job_owner_name(meta), false) =~~= vhead2 + file_vols(
                plan_files(spec_),
            ));
            assert(base_mounts(spec_, false) =~= mhead2 + file_mounts(plan_files(spec_)));
        }
    }

    let command = render_ansible_command(spec_, host, &var_secret_names);
    let container = ContainerModel {
        name: str_to_string("ansible-playbook"),
        image: spec_.image.clone(),
        working_dir: str_to_string("/run/ansible-operator"),
        command,
        volume_mounts: mounts,
        privileged: false,
    };

    Ok(
        JobModel {
            name: String::new(),
            namespace: String::new(),
            labels: Vec::new(),
            owner: OwnerRef {
                api_version: str_to_string("ansible.cloudbending.dev/v1beta1"),
                kind: str_to_string("PlaybookPlan"),
                name: pb_name.clone(),
                uid: pb_uid.clone(),
            },
            backoff_limit: 0,
            restart_policy: str_to_string("Never"),
            volumes,
            init_containers,
            container,
            host_ipc: false,
            host_network: false,
            host_pid: false,
            host_users: false,
            node_selector: Vec::new(),
        },
    )
}

/// The plan name a built job is owned by (meaningful when the name is set).
pub open spec fn spec_job_owner_name(meta: &PlanMeta) -> Seq<char> {
    match meta.name {
        Some(n) => n@,
        None => Seq::empty(),
    }
}

/// Configures a job to run over SSH: mounts the key secret read-only at
/// `/ssh`; everything else stays as the skeleton built it.
fn configure_job_for_ssh(job: &mut JobModel, ssh_config: &SshConfig)
    ensures
        vols_views(final(job).volumes@) == vols_views(old(job).volumes@).push(
            ssh_vol(ssh_config.secret_ref.name@),
        ),
        mounts_views(final(job).container.volume_mounts@) == mounts_views(
            old(job).container.volume_mounts@,
        ).push(("ssh"@, "/ssh"@)),
        final(job).name == old(job).name,
        final(job).namespace == old(job).namespace,
        final(job).labels == old(job).labels,
        final(job).owner == old(job).owner,
        final(job).backoff_limit == old(job).backoff_limit,
        final(job).restart_policy == old(job).restart_policy,
        final(job).init_containers == old(job).init_containers,
        final(job).container.name == old(job).container.name,
        final(job).container.image == old(job).container.image,
        final(job).container.working_dir == old(job).container.working_dir,
        final(job).container.command == old(job).container.command,
        final(job).container.privileged == old(job).container.privileged,
        final(job).host_ipc == old(job).host_ipc,
        final(job).host_network == old(job).host_network,
        final(job).host_pid == old(job).host_pid,
        final(job).host_users == old(job).host_users,
        final(job).node_selector == old(job).node_selector,
{
    let vol = VolumeModel::Secret {
        name: str_to_string("ssh"),
        secret_name: ssh_config.secret_ref.name.clone(),
        default_mode: Some(0x100u32),
        items: Vec::new(),
    };
    proof {
        assert(vol_view(vol) =~~= ssh_vol(ssh_config.secret_ref.name@));
        assert(vols_views(job.volumes@.push(vol)) =~~= vols_views(job.volumes@).push(
            vol_view(vol),
        ));
    }
    job.volumes.push(vol);
    let m = MountModel { name: str_to_string("ssh"), mount_path: str_to_string("/ssh") };
    proof {
        assert(mounts_views(job.container.volume_mounts@.push(m)) =~= mounts_views(
            job.container.volume_mounts@,
        ).push(("ssh"@, "/ssh"@)));
    }
    job.container.volume_mounts.push(m);
}

/// Configures a job to run in a chroot of the node's root filesystem: mounts
/// `/` at `/mnt/rootfs`, grants the host namespaces and privilege, and pins
/// the pod to the targeted node.
fn configure_job_for_chroot(job: &mut JobModel, node_name: &str)
    ensures
        vols_views(final(job).volumes@) == vols_views(old(job).volumes@).push(rootfs_vol()),
        mounts_views(final(job).container.volume_mounts@) == mounts_views(
            old(job).container.volume_mounts@,
        ).push(("rootfs"@, "/mnt/rootfs"@)),
        final(job).host_ipc && final(job).host_network,
        final(job).host_pid && final(job).host_users,
        final(job).container.privileged,
        crate::model::pairs_views(final(job).node_selector@) == seq![
            ("kubernetes.io/hostname"@, node_name@),
        ],
        final(job).name == old(job).name,
        final(job).namespace == old(job).namespace,
        final(job).labels == old(job).labels,
        final(job).owner == old(job).owner,
        final(job).backoff_limit == old(job).backoff_limit,
        final(job).restart_policy == old(job).restart_policy,
        final(job).init_containers == old(job).init_containers,
        final(job).container.name == old(job).container.name,
        final(job).container.image == old(job).container.image,
        final(job).container.working_dir == old(job).container.working_dir,
        final(job).container.command == old(job).container.command,
{
    let vol = VolumeModel::HostPath {
        name: str_to_string("rootfs"),
        path: str_to_string("/"),
        type_: str_to_string("Directory"),
    };
    proof {
        assert(vol_view(vol) =~~= rootfs_vol());
        assert(vols_views(job.volumes@.push(vol)) =~~= vols_views(job.volumes@).push(
            vol_view(vol),
        ));
    }
    job.volumes.push(vol);
    let m = MountModel { name: str_to_string("rootfs"), mount_path: str_to_string("/mnt/rootfs") };
    proof {
        assert(mounts_views(job.container.volume_mounts@.push(m)) =~= mounts_views(
            job.container.volume_mounts@,
        ).push(("rootfs"@, "/mnt/rootfs"@)));
    }
    job.container.volume_mounts.push(m);
    job.host_ipc = true;
    job.host_network = true;
    job.host_pid = true;
    job.host_users = true;
    job.container.privileged = true;
    let mut sel: Vec<(String, String)> = Vec::new();
    sel.push((str_to_string("kubernetes.io/hostname"), str_to_string(node_name)));
    proof {
        assert(crate::model::pairs_views(sel@) =~= seq![("kubernetes.io/hostname"@, node_name@)]);
    }
    job.node_selector = sel;
}

/// The volumes a finished job carries: the skeleton's plus the connection
/// strategy's own.
pub open spec fn job_volumes(
    spec_: &PlaybookPlanSpec,
    plan_name: Seq<char>,
    req: bool,
) -> Seq<VolView> {
    match spec_.connection_strategy {
        ConnectionStrategy::Ssh { ssh } => base_volumes(spec_, plan_name, req).push(
            ssh_vol(ssh.secret_ref.name@),
        ),
        ConnectionStrategy::Chroot {  } => base_volumes(spec_, plan_name, req).push(rootfs_vol()),
    }
}

/// The main container's mounts in a finished job.
pub open spec fn job_mounts(spec_: &PlaybookPlanSpec, req: bool) -> Seq<(Seq<char>, Seq<char>)> {
    match spec_.connection_strategy {
        ConnectionStrategy::Ssh { .. } => base_mounts(spec_, req).push(("ssh"@, "/ssh"@)),
        ConnectionStrategy::Chroot {  } => base_mounts(spec_, req).push(
            ("rootfs"@, "/mnt/rootfs"@),
        ),
    }
}

/// Everything `create_job_for_host` promises of a built job.
pub open spec fn job_post(
    j: JobModel,
    host: Seq<char>,
    hash: u64,
    start: Option<i64>,
    meta: &PlanMeta,
    spec_: &PlaybookPlanSpec,
) -> bool {
    let req = spec_.template.requirements is Some;
    &&& j.name@ == spec_job_name(spec_job_owner_name(meta), host, hash, start)
    &&& Some(j.namespace@) == opt_str_view(meta.namespace)
    &&& crate::model::pairs_views(j.labels@) == seq![
        ("playbookplan.name"@, spec_job_owner_name(meta)),
        ("playbookplan.hash"@, hex_str(hash as nat)),
        ("playbookplan.host"@, host),
    ]
    &&& j.owner.api_version@ == "ansible.cloudbending.dev/v1beta1"@
    &&& j.owner.kind@ == "PlaybookPlan"@
    &&& Some(j.owner.name@) == opt_str_view(meta.name)
    &&& Some(j.owner.uid@) == opt_str_view(meta.uid)
    &&& j.backoff_limit == 0
    &&& j.restart_policy@ == "Never"@
    &&& vols_views(j.volumes@) == job_volumes(spec_, spec_job_owner_name(meta), req)
    &&& mounts_views(j.container.volume_mounts@) == job_mounts(spec_, req)
    &&& j.container.name@ == "ansible-playbook"@
    &&& j.container.image@ == spec_.image@
    &&& j.container.working_dir@ == "/run/ansible-operator"@
    &&& str_views(j.container.command@) == spec_ansible_command(
        spec_,
        host,
        spec_variable_secret_names(plan_variables(spec_)),
    )
    &&& (req ==> j.init_containers@.len() == 1 && {
        let c = j.init_containers@[0];
        &&& c.name@ == "download-collections"@
        &&& c.image@ == spec_.image@
        &&& c.working_dir@ == "/run/ansible-operator"@
        &&& str_views(c.command@) == seq!["ansible-galaxy"@, "install"@, "-r"@, "requirements.yml"@]
        &&& mounts_views(c.volume_mounts@) == base_mounts(spec_, req)
    })
    &&& (!req ==> j.init_containers@.len() == 0)
    &&& (match spec_.connection_strategy {
        ConnectionStrategy::Ssh { .. } => !j.container.privileged && !j.host_ipc && !j.host_network
            && !j.host_pid && !j.host_users && j.node_selector@.len() == 0,
        ConnectionStrategy::Chroot {  } => j.container.privileged && j.host_ipc && j.host_network
            && j.host_pid && j.host_users && crate::model::pairs_views(j.node_selector@) == seq![
            ("kubernetes.io/hostname"@, host),
        ],
    })
}

/// Builds the job that applies the plan's playbook to one host under one
/// fingerprint: deterministic name, the three plan labels, an owner
/// reference to the plan, no retries, and the connection-specific mounts.
/// Fails exactly when the plan lacks its name, namespace or uid.
pub fn create_job_for_host(
    host: &str,
    hash: &ExecutionHash,
    start: Option<i64>,
    meta: &PlanMeta,
    spec_: &PlaybookPlanSpec,
) -> (r: Result<JobModel, ReconcileError>)
    ensures
        r is Ok <==> (meta.name is Some && meta.namespace is Some && meta.uid is Some),
        r matches Ok(j) ==> job_post(j, host@, hash.0, start, meta, spec_),
{
    let pb_namespace = match &meta.namespace {
        Some(ns) => ns,
        None => {
            return Err(
                ReconcileError::PreconditionFailed(
                    str_to_string("expected .metadata.namespace in PlaybookPlan"),
                ),
            );
        },
    };
    let with_requirements = match &spec_.template.requirements {
        Some(_) => true,
        None => false,
    };
    let mut job = match create_job_skeleton(host, meta, spec_, with_requirements) {
        Ok(job) => job,
        Err(e) => {
            return Err(e);
        },
    };

    match &spec_.connection_strategy {
        ConnectionStrategy::Ssh { ssh } => configure_job_for_ssh(&mut job, ssh),
        ConnectionStrategy::Chroot {  } => configure_job_for_chroot(&mut job, host),
    }

    job.namespace = pb_namespace.clone();

    let start_hash: u64 = match start {
        Some(t) => hash_timestamp(t),
        None => 1,
    };
    let id = generate_id(hash.value() ^ start_hash);
    let mut name = str_to_string("apply-");
    name.append(job.owner.name.as_str());
    name.append("-");
    name.append(id.as_str());
    name.append("-on-");
    name.append(host);
    proof {
        assert(name@ == spec_job_name(spec_job_owner_name(meta), host@, hash.0, start));
    }
    job.name = name;

    let mut labels: Vec<(String, String)> = Vec::new();
    labels.push((str_to_string("playbookplan.name"), job.owner.name.clone()));
    labels.push((str_to_string("playbookplan.hash"), hash.hex_string()));
    labels.push((str_to_string("playbookplan.host"), str_to_string(host)));
    proof {
        assert(crate::model::pairs_views(labels@) =~= seq![
            ("playbookplan.name"@, spec_job_owner_name(meta)),
            ("playbookplan.hash"@, hex_str(hash.0 as nat)),
            ("playbookplan.host"@, host@),
        ]);
    }
    job.labels = labels;

    Ok(job)
}

/// Job-name idempotence: the job builder names jobs purely from the plan
/// name, the host, the fingerprint and the start time, so two builds from
/// the same inputs collide on one name and at most one job is ever created.
pub proof fn lemma_job_name_idempotent(
    plan_name: Seq<char>,
    host: Seq<char>,
    hash: u64,
    start: Option<i64>,
    n1: Seq<char>,
    n2: Seq<char>,
)
    requires
        n1 == spec_job_name(plan_name, host, hash, start),
        n2 == spec_job_name(plan_name, host, hash, start),
    ensures
        n1 == n2,
{
}

} // verus!
