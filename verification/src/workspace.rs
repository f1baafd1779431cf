//! The workspace renderer: the blob set any host's container mounts and
//! executes against, rendered host-agnostically from the plan.

use vstd::prelude::*;
use crate::command::{count_inline, plan_variables, svar_name};
use crate::errors::{ReconcileError, RenderError};
use crate::job::OwnerRef;
use crate::model::{pairs_views, PlanMeta, PlaybookPlanSpec, PlaybookPlanStatus, PlaybookVariableSource};
use crate::strutil::{push_char, str_to_string, u64_to_dec};

verus! {

/// Whether the stored workspace lags the desired state: true when nothing
/// was rendered yet or the rendered revision is older than the current one.
pub open spec fn spec_is_outdated(generation: i64, status: &PlaybookPlanStatus) -> bool {
    match status.last_rendered_generation {
        Some(g) => g < generation,
        None => true,
    }
}

/// True when the workspace must be rendered again for this revision.
pub fn is_outdated(meta: &PlanMeta, status: &PlaybookPlanStatus) -> (r: bool)
    requires
        meta.generation is Some,
    ensures
        r == spec_is_outdated(meta.generation->0, status),
{
    let generation = match &meta.generation {
        Some(g) => *g,
        None => {
            proof {
                assert(false);
            }
            0
        },
    };
    match &status.last_rendered_generation {
        Some(g) => *g < generation,
        None => true,
    }
}

/// Characters of `s` with `\` and `"` escaped for a double-quoted scalar.
pub open spec fn dq_escaped(s: Seq<char>) -> Seq<char>
    decreases s.len(),
{
    if s.len() == 0 {
        Seq::empty()
    } else {
        (if s[0] == '"' || s[0] == '\\' {
            seq!['\\', s[0]]
        } else {
            seq![s[0]]
        }) + dq_escaped(s.drop_first())
    }
}

proof fn lemma_dq_escaped_snoc(s: Seq<char>, c: char)
    ensures
        dq_escaped(s.push(c)) == dq_escaped(s) + (if c == '"' || c == '\\' {
            seq!['\\', c]
        } else {
            seq![c]
        }),
    decreases s.len(),
{
    let p = s.push(c);
    let tail = if c == '"' || c == '\\' {
        seq!['\\', c]
    } else {
        seq![c]
    };
    if s.len() == 0 {
        assert(p[0] == c);
        assert(p.drop_first() =~= Seq::<char>::empty());
        assert(dq_escaped(p.drop_first()) =~= Seq::<char>::empty());
        assert(dq_escaped(s) =~= Seq::<char>::empty());
        assert(tail + dq_escaped(p.drop_first()) =~= dq_escaped(s) + tail);
    } else {
        assert(p[0] == s[0]);
        assert(p.drop_first() =~= s.drop_first().push(c));
        lemma_dq_escaped_snoc(s.drop_first(), c);
        let head = if s[0] == '"' || s[0] == '\\' {
            seq!['\\', s[0]]
        } else {
            seq![s[0]]
        };
        assert(head + (dq_escaped(s.drop_first()) + tail) =~= (head + dq_escaped(s.drop_first()))
            + tail);
    }
}

/// A double-quoted YAML scalar holding exactly the characters of `s`, so
/// names such as `123` or `true` stay strings when parsed back.
pub open spec fn dquoted(s: Seq<char>) -> Seq<char> {
    seq!['"'] + dq_escaped(s) + seq!['"']
}

/// Appends `s` as a double-quoted scalar.
fn append_dquoted(out: &mut String, s: &str)
    ensures
        final(out)@ == old(out)@ + dquoted(s@),
{
    let ghost base = out@;
    push_char(out, '"');
    let len = s.unicode_len();
    let mut i: usize = 0;
    while i < len
        invariant
            i <= s@.len(),
            len == s@.len(),
            base == old(out)@,
            out@ == base + seq!['"'] + dq_escaped(s@.take(i as int)),
        decreases len - i,
    {
        let c = s.get_char(i);
        proof {
            assert(s@.take(i + 1) =~= s@.take(i as int).push(s@[i as int]));
            lemma_dq_escaped_snoc(s@.take(i as int), s@[i as int]);
        }
        if c == '"' || c == '\\' {
            push_char(out, '\\');
        }
        push_char(out, c);
        proof {
            assert(out@ =~= base + seq!['"'] + dq_escaped(s@.take(i + 1)));
        }
        i += 1;
    }
    proof {
        assert(s@.take(s@.len() as int) =~= s@);
    }
    push_char(out, '"');
    proof {
        assert(out@ =~= base + dquoted(s@));
    }
}

/// One line per host of a group, indented under `hosts:`.
pub open spec fn hosts_lines(hosts: Seq<Seq<char>>) -> Seq<char>
    decreases hosts.len(),
{
    if hosts.len() == 0 {
        Seq::empty()
    } else {
        "    "@ + dquoted(hosts[0]) + ": {}\n"@ + hosts_lines(hosts.drop_first())
    }
}

proof fn lemma_hosts_lines_snoc(hosts: Seq<Seq<char>>, h: Seq<char>)
    ensures
        hosts_lines(hosts.push(h)) == hosts_lines(hosts) + ("    "@ + dquoted(h) + ": {}\n"@),
    decreases hosts.len(),
{
    let p = hosts.push(h);
    if hosts.len() == 0 {
        assert(p[0] == h);
        assert(p.drop_first() =~= Seq::<Seq<char>>::empty());
        assert(hosts_lines(p.drop_first()) =~= Seq::<char>::empty());
        assert(hosts_lines(hosts) =~= Seq::<char>::empty());
        assert("    "@ + dquoted(h) + ": {}\n"@ + hosts_lines(p.drop_first()) =~= hosts_lines(
            hosts,
        ) + ("    "@ + dquoted(h) + ": {}\n"@));
    } else {
        assert(p[0] == hosts[0]);
        assert(p.drop_first() =~= hosts.drop_first().push(h));
        lemma_hosts_lines_snoc(hosts.drop_first(), h);
        assert("    "@ + dquoted(hosts[0]) + ": {}\n"@ + (hosts_lines(hosts.drop_first()) + (
        "    "@ + dquoted(h) + ": {}\n"@)) =~= ("    "@ + dquoted(hosts[0]) + ": {}\n"@
            + hosts_lines(hosts.drop_first())) + ("    "@ + dquoted(h) + ": {}\n"@));
    }
}

/// The YAML text of one inventory group: the quoted group name, then its
/// hosts as empty mappings; a group without hosts holds an inline empty
/// mapping.
pub open spec fn group_text(name: Seq<char>, hosts: Seq<Seq<char>>) -> Seq<char> {
    dquoted(name) + ":\n  hosts:"@ + (if hosts.len() == 0 {
        " {}\n"@
    } else {
        "\n"@ + hosts_lines(hosts)
    })
}

/// The whole `inventory.yml` text: one group after another, in spec order.
pub open spec fn inventory_yaml(groups: Seq<(Seq<char>, Seq<Seq<char>>)>) -> Seq<char>
    decreases groups.len(),
{
    if groups.len() == 0 {
        Seq::empty()
    } else {
        group_text(groups[0].0, groups[0].1) + inventory_yaml(groups.drop_first())
    }
}

proof fn lemma_inventory_yaml_snoc(
    groups: Seq<(Seq<char>, Seq<Seq<char>>)>,
    g: (Seq<char>, Seq<Seq<char>>),
)
    ensures
        inventory_yaml(groups.push(g)) == inventory_yaml(groups) + group_text(g.0, g.1),
    decreases groups.len(),
{
    let p = groups.push(g);
    if groups.len() == 0 {
        assert(p[0] == g);
        assert(p.drop_first() =~= Seq::<(Seq<char>, Seq<Seq<char>>)>::empty());
        assert(inventory_yaml(p.drop_first()) =~= Seq::<char>::empty());
        assert(inventory_yaml(groups) =~= Seq::<char>::empty());
        assert(group_text(g.0, g.1) + inventory_yaml(p.drop_first()) =~= inventory_yaml(groups)
            + group_text(g.0, g.1));
    } else {
        assert(p[0] == groups[0]);
        assert(p.drop_first() =~= groups.drop_first().push(g));
        lemma_inventory_yaml_snoc(groups.drop_first(), g);
        assert(group_text(groups[0].0, groups[0].1) + (inventory_yaml(groups.drop_first())
            + group_text(g.0, g.1)) =~= (group_text(groups[0].0, groups[0].1) + inventory_yaml(
            groups.drop_first(),
        )) + group_text(g.0, g.1));
    }
}

/// Views of resolved inventory groups.
pub open spec fn groups_views(groups: Seq<(String, Vec<String>)>) -> Seq<
    (Seq<char>, Seq<Seq<char>>),
> {
    groups.map_values(|g: (String, Vec<String>)| (g.0@, crate::strutil::str_views(g.1@)))
}

/// Renders `inventory.yml`: a YAML mapping from group name to its hosts,
/// each host an empty mapping, groups and hosts in resolver order.  Names
/// are emitted as double-quoted scalars so a name that YAML would otherwise
/// read as a number or boolean stays a string.  The `Result` mirrors the
/// call sites' shape; rendering itself cannot fail.
pub fn render_inventory(groups: &Vec<(String, Vec<String>)>) -> (r: Result<String, RenderError>)
    ensures
        r is Ok,
        r matches Ok(s) ==> s@ == inventory_yaml(groups_views(groups@)),
{
    let mut out = String::new();
    let ghost gv = groups_views(groups@);
    proof {
        assert(gv.take(0) =~= Seq::<(Seq<char>, Seq<Seq<char>>)>::empty());
        assert(out@ =~= inventory_yaml(gv.take(0)));
    }
    let mut i: usize = 0;
    while i < groups.len()
        invariant
            i <= groups@.len(),
            gv == groups_views(groups@),
            out@ == inventory_yaml(gv.take(i as int)),
        decreases groups@.len() - i,
    {
        proof {
            assert(gv.take(i + 1) =~= gv.take(i as int).push(gv[i as int]));
            lemma_inventory_yaml_snoc(gv.take(i as int), gv[i as int]);
        }
        append_dquoted(&mut out, groups[i].0.as_str());
        out.append(":\n  hosts:");
        let hosts = &groups[i].1;
        if hosts.len() == 0 {
            out.append(" {}\n");
            proof {
                assert(out@ =~= inventory_yaml(gv.take(i as int)) + group_text(
                    gv[i as int].0,
                    gv[i as int].1,
                ));
            }
        } else {
            out.append("\n");
            let ghost hv = crate::strutil::str_views(hosts@);
            let ghost base = inventory_yaml(gv.take(i as int)) + dquoted(gv[i as int].0)
                + ":\n  hosts:"@ + "\n"@;
            proof {
                assert(hv.take(0) =~= Seq::<Seq<char>>::empty());
                assert(hosts_lines(hv.take(0)) =~= Seq::<char>::empty());
                assert(out@ =~= base + hosts_lines(hv.take(0)));
            }
            let mut h: usize = 0;
            while h < hosts.len()
                invariant
                    h <= hosts@.len(),
                    hv == crate::strutil::str_views(hosts@),
                    out@ == base + hosts_lines(hv.take(h as int)),
                decreases hosts@.len() - h,
            {
                proof {
                    assert(hv.take(h + 1) =~= hv.take(h as int).push(hv[h as int]));
                    lemma_hosts_lines_snoc(hv.take(h as int), hv[h as int]);
                }
                out.append("    ");
                append_dquoted(&mut out, hosts[h].as_str());
                out.append(": {}\n");
                proof {
                    assert(out@ =~= base + (hosts_lines(hv.take(h as int)) + ("    "@ + dquoted(
                        hv[h as int],
                    ) + ": {}\n"@)));
                }
                h += 1;
            }
            proof {
                assert(hv.take(hv.len() as int) =~= hv);
                assert(gv[i as int].1 == hv);
                assert(out@ =~= inventory_yaml(gv.take(i as int)) + group_text(
                    gv[i as int].0,
                    gv[i as int].1,
                ));
            }
        }
        i += 1;
    }
    proof {
        assert(gv.take(gv.len() as int) =~= gv);
    }
    Ok(out)
}

/// What normalizing a playbook yields: the text parsed as a YAML sequence of
/// plays and re-emitted, or `None` for invalid YAML.
pub uninterp spec fn playbook_norm(text: Seq<char>) -> Option<Seq<char>>;

/// Relies on `serde_yaml`: parses the text as a YAML sequence and re-emits
/// it, a deterministic function of the text alone.
#[verifier::external_body]
fn normalize_playbook(text: &str) -> (r: Result<String, String>)
    ensures
        r matches Ok(s) ==> playbook_norm(text@) == Some(s@),
        r is Err ==> playbook_norm(text@) is None,
{
    let plays: serde_yaml::Sequence = match serde_yaml::from_str(text) {
        Ok(p) => p,
        Err(e) => return Err(e.to_string()),
    };
    match serde_yaml::to_string(&plays) {
        Ok(s) => Ok(s),
        Err(e) => Err(e.to_string()),
    }
}

/// Normalizes the plan's playbook: parsed as a YAML sequence of plays and
/// re-emitted; invalid YAML fails rendering.
pub fn render_playbook(spec_: &PlaybookPlanSpec) -> (r: Result<String, RenderError>)
    ensures
        r matches Ok(s) ==> playbook_norm(spec_.template.playbook@) == Some(s@),
        r is Err <==> playbook_norm(spec_.template.playbook@) is None,
{
    match normalize_playbook(spec_.template.playbook.as_str()) {
        Ok(s) => Ok(s),
        Err(e) => Err(RenderError::SerializationError(e)),
    }
}

/// The serialized inline variable sets, densely numbered in spec order,
/// skipping secret references; numbering matches the command line's
/// `--extra-vars` file names.
pub open spec fn inline_entries(vars: Seq<PlaybookVariableSource>, next: nat) -> Seq<
    (Seq<char>, Seq<char>),
>
    decreases vars.len(),
{
    if vars.len() == 0 {
        Seq::empty()
    } else {
        match vars[0] {
            PlaybookVariableSource::Inline { inline } => seq![(svar_name(next), inline@)]
                + inline_entries(vars.drop_first(), next + 1),
            PlaybookVariableSource::SecretRef { .. } => inline_entries(vars.drop_first(), next),
        }
    }
}

proof fn lemma_inline_entries_snoc(
    vars: Seq<PlaybookVariableSource>,
    v: PlaybookVariableSource,
    next: nat,
)
    ensures
        inline_entries(vars.push(v), next) == (match v {
            PlaybookVariableSource::Inline { inline } => inline_entries(vars, next).push(
                (svar_name(next + count_inline(vars)), inline@),
            ),
            PlaybookVariableSource::SecretRef { .. } => inline_entries(vars, next),
        }),
    decreases vars.len(),
{
    let p = vars.push(v);
    if vars.len() == 0 {
        assert(p[0] == v);
        assert(p.drop_first() =~= Seq::<PlaybookVariableSource>::empty());
        match v {
            PlaybookVariableSource::Inline { inline } => {
                assert(inline_entries(p.drop_first(), next + 1) =~= Seq::<
                    (Seq<char>, Seq<char>),
                >::empty());
                assert(inline_entries(vars, next) =~= Seq::<(Seq<char>, Seq<char>)>::empty());
                assert(seq![(svar_name(next), inline@)] + inline_entries(p.drop_first(), next + 1)
                    =~= inline_entries(vars, next).push((svar_name(next), inline@)));
            },
            PlaybookVariableSource::SecretRef { .. } => {
                assert(inline_entries(p, next) == inline_entries(p.drop_first(), next));
            },
        }
    } else {
        assert(p[0] == vars[0]);
        assert(p.drop_first() =~= vars.drop_first().push(v));
        match vars[0] {
            PlaybookVariableSource::Inline { inline } => {
                lemma_inline_entries_snoc(vars.drop_first(), v, next + 1);
                match v {
                    PlaybookVariableSource::Inline { inline: in2 } => {
                        assert(seq![(svar_name(next), inline@)] + inline_entries(
                            vars.drop_first(),
                            next + 1,
                        ).push((svar_name(next + 1 + count_inline(vars.drop_first())), in2@)) =~= (
                        seq![(svar_name(next), inline@)] + inline_entries(
                            vars.drop_first(),
                            next + 1,
                        )).push((svar_name(next + count_inline(vars)), in2@)));
                    },
                    PlaybookVariableSource::SecretRef { .. } => {},
                }
            },
            PlaybookVariableSource::SecretRef { .. } => {
                lemma_inline_entries_snoc(vars.drop_first(), v, next);
            },
        }
    }
}

/// The rendered workspace: named and namespaced like the plan, owner-ref'd
/// to it, holding the blob set as `(file name, content)` pairs.
#[derive(Clone, Debug)]
pub struct WorkspaceModel {
    pub name: String,
    pub namespace: String,
    pub owner: OwnerRef,
    pub string_data: Vec<(String, String)>,
}

/// The blob set of a rendered workspace: the normalized playbook, the
/// inventory, the verbatim requirements when set, and one file per inline
/// variable set; `None` when the playbook is invalid YAML.
pub open spec fn spec_workspace_data(
    spec_: &PlaybookPlanSpec,
    groups: Seq<(Seq<char>, Seq<Seq<char>>)>,
) -> Option<Seq<(Seq<char>, Seq<char>)>> {
    match playbook_norm(spec_.template.playbook@) {
        None => None,
        Some(pb) => Some(
            seq![("playbook.yml"@, pb), ("inventory.yml"@, inventory_yaml(groups))] + (
            match spec_.template.requirements {
                Some(req) => seq![("requirements.yml"@, req@)],
                None => Seq::empty(),
            }) + inline_entries(plan_variables(spec_), 0),
        ),
    }
}

/// Renders the workspace secret's content for a plan: `playbook.yml`,
/// `inventory.yml`, optional `requirements.yml` and the densely numbered
/// inline variable files, named and owned like the plan.  Fails with a
/// precondition error when the plan lacks name, namespace or uid, and with a
/// render error exactly when the playbook is invalid YAML.
pub fn render_secret(
    meta: &PlanMeta,
    spec_: &PlaybookPlanSpec,
    inventories: &Vec<(String, Vec<String>)>,
) -> (r: Result<WorkspaceModel, ReconcileError>)
    ensures
        r is Ok <==> (meta.name is Some && meta.namespace is Some && meta.uid is Some
            && playbook_norm(spec_.template.playbook@) is Some),
        r matches Ok(w) ==> {
            &&& Some(w.name@) == crate::conditions::opt_str_view(meta.name)
            &&& Some(w.namespace@) == crate::conditions::opt_str_view(meta.namespace)
            &&& w.owner.api_version@ == "ansible.cloudbending.dev/v1beta1"@
            &&& w.owner.kind@ == "PlaybookPlan"@
            &&& Some(w.owner.name@) == crate::conditions::opt_str_view(meta.name)
            &&& Some(w.owner.uid@) == crate::conditions::opt_str_view(meta.uid)
            &&& Some(pairs_views(w.string_data@)) == spec_workspace_data(
                spec_,
                groups_views(inventories@),
            )
        },
        (meta.name is Some && meta.namespace is Some && meta.uid is Some && playbook_norm(
            spec_.template.playbook@,
        ) is None) ==> r matches Err(ReconcileError::RenderError(_)),
        !(meta.name is Some && meta.namespace is Some && meta.uid is Some) ==> r matches Err(
            ReconcileError::PreconditionFailed(_),
        ),
{
    let pb_name = match &meta.name {
        Some(n) => n,
        None => {
            return Err(
                ReconcileError::PreconditionFailed(
                    str_to_string("expected .metadata.name in PlaybookPlan"),
                ),
            );
        },
    };
    let pb_namespace = match &meta.namespace {
        Some(ns) => ns,
        None => {
            return Err(
                ReconcileError::PreconditionFailed(
                    str_to_string("expected .metadata.namespace in PlaybookPlan"),
                ),
            );
        },
    };
    let pb_uid = match &meta.uid {
        Some(u) => u,
        None => {
            return Err(
                ReconcileError::PreconditionFailed(
                    str_to_string("expected .metadata.uid in PlaybookPlan"),
                ),
            );
        },
    };

    let rendered_playbook = match render_playbook(spec_) {
        Ok(s) => s,
        Err(e) => {
            return Err(ReconcileError::RenderError(e));
        },
    };
    let rendered_inventory = match render_inventory(inventories) {
        Ok(s) => s,
        Err(e) => {
            return Err(ReconcileError::RenderError(e));
        },
    };

    let mut string_data: Vec<(String, String)> = Vec::new();
    string_data.push((str_to_string("playbook.yml"), rendered_playbook));
    string_data.push((str_to_string("inventory.yml"), rendered_inventory));
    let ghost head = seq![
        ("playbook.yml"@, playbook_norm(spec_.template.playbook@)->0),
        ("inventory.yml"@, inventory_yaml(groups_views(inventories@))),
    ];
    proof {
        assert(pairs_views(string_data@) =~= head);
    }
    match &spec_.template.requirements {
        Some(req) => {
            let entry = (str_to_string("requirements.yml"), req.clone());
            proof {
                assert(pairs_views(string_data@.push(entry)) =~= pairs_views(string_data@).push(
                    ("requirements.yml"@, req@),
                ));
                assert(head.push(("requirements.yml"@, req@)) =~= head + seq![
                    ("requirements.yml"@, req@),
                ]);
            }
            string_data.push(entry);
        },
        None => {
            proof {
                assert(head + Seq::<(Seq<char>, Seq<char>)>::empty() =~= head);
            }
        },
    }
    let ghost head2 = head + (match &spec_.template.requirements {
        Some(req) => seq![("requirements.yml"@, req@)],
        None => Seq::empty(),
    });

    match &spec_.template.variables {
        None => {
            proof {
                assert(inline_entries(plan_variables(spec_), 0) =~= Seq::<
                    (Seq<char>, Seq<char>),
                >::empty());
                assert(pairs_views(string_data@) =~= head2 + inline_entries(
                    plan_variables(spec_),
                    0,
                ));
            }
        },
        Some(vars) => {
            proof {
                assert(vars@.take(0) =~= Seq::<PlaybookVariableSource>::empty());
                assert(inline_entries(vars@.take(0), 0) =~= Seq::<(Seq<char>, Seq<char>)>::empty());
                assert(pairs_views(string_data@) =~= head2 + inline_entries(vars@.take(0), 0));
            }
            let mut i: usize = 0;
            let mut k: usize = 0;
            while i < vars.len()
                invariant
                    i <= vars@.len(),
                    k <= i,
                    k == count_inline(vars@.take(i as int)),
                    vars@ == plan_variables(spec_),
                    pairs_views(string_data@) == head2 + inline_entries(vars@.take(i as int), 0),
                decreases vars@.len() - i,
            {
                proof {
                    assert(vars@.take(i + 1) =~= vars@.take(i as int).push(vars@[i as int]));
                    lemma_inline_entries_snoc(vars@.take(i as int), vars@[i as int], 0);
                    crate::command::lemma_count_inline_snoc(vars@.take(i as int), vars@[i as int]);
                }
                match &vars[i] {
                    PlaybookVariableSource::Inline { inline } => {
                        let mut name = str_to_string("static-variables-");
                        let num = u64_to_dec(k as u64);
                        name.append(num.as_str());
                        name.append(".yml");
                        let entry = (name, inline.clone());
                        proof {
                            assert(entry.0@ == svar_name(k as nat));
                            assert(pairs_views(string_data@.push(entry)) =~= pairs_views(
                                string_data@,
                            ).push((svar_name(k as nat), inline@)));
                        }
                        string_data.push(entry);
                        k += 1;
                    },
                    PlaybookVariableSource::SecretRef { .. } => {},
                }
                i += 1;
            }
            proof {
                assert(vars@.take(vars@.len() as int) =~= vars@);
            }
        },
    }

    Ok(
        WorkspaceModel {
            name: pb_name.clone(),
            namespace: pb_namespace.clone(),
            owner: OwnerRef {
                api_version: str_to_string("ansible.cloudbending.dev/v1beta1"),
                kind: str_to_string("PlaybookPlan"),
                name: pb_name.clone(),
                uid: pb_uid.clone(),
            },
            string_data,
        },
    )
}

} // verus!
