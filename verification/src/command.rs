//! Renders the `ansible-playbook` command line a job's main container runs.

use vstd::prelude::*;
use crate::model::{ConnectionStrategy, PlaybookPlanSpec, PlaybookVariableSource};
use crate::strutil::{dec_str, str_to_string, str_views, u64_to_dec};

verus! {

/// File name of the `i`-th rendered inline variable set.
pub open spec fn svar_name(i: nat) -> Seq<char> {
    "static-variables-"@ + dec_str(i) + ".yml"@
}

/// How many variable sources are inline.
pub open spec fn count_inline(vars: Seq<PlaybookVariableSource>) -> nat
    decreases vars.len(),
{
    if vars.len() == 0 {
        0
    } else {
        (match vars[0] {
            PlaybookVariableSource::Inline { .. } => 1nat,
            PlaybookVariableSource::SecretRef { .. } => 0nat,
        }) + count_inline(vars.drop_first())
    }
}

/// File names of the rendered inline variable sets, densely numbered from
/// `next` over the kept entries, skipping secret references.
pub open spec fn static_var_names(vars: Seq<PlaybookVariableSource>, next: nat) -> Seq<Seq<char>>
    decreases vars.len(),
{
    if vars.len() == 0 {
        Seq::empty()
    } else {
        match vars[0] {
            PlaybookVariableSource::Inline { .. } => seq![svar_name(next)] + static_var_names(
                vars.drop_first(),
                next + 1,
            ),
            PlaybookVariableSource::SecretRef { .. } => static_var_names(vars.drop_first(), next),
        }
    }
}

proof fn lemma_static_var_names_snoc(
    vars: Seq<PlaybookVariableSource>,
    v: PlaybookVariableSource,
    next: nat,
)
    ensures
        static_var_names(vars.push(v), next) == (match v {
            PlaybookVariableSource::Inline { .. } => static_var_names(vars, next).push(
                svar_name(next + count_inline(vars)),
            ),
            PlaybookVariableSource::SecretRef { .. } => static_var_names(vars, next),
        }),
    decreases vars.len(),
{
    let p = vars.push(v);
    if vars.len() == 0 {
        assert(p[0] == v);
        assert(p.drop_first() =~= Seq::<PlaybookVariableSource>::empty());
        match v {
            PlaybookVariableSource::Inline { .. } => {
                assert(static_var_names(p.drop_first(), next + 1) =~= Seq::<Seq<char>>::empty());
                assert(static_var_names(vars, next) =~= Seq::<Seq<char>>::empty());
                assert(seq![svar_name(next)] + static_var_names(p.drop_first(), next + 1)
                    =~= static_var_names(vars, next).push(svar_name(next)));
            },
            PlaybookVariableSource::SecretRef { .. } => {
                assert(static_var_names(p, next) == static_var_names(p.drop_first(), next));
            },
        }
    } else {
        assert(p.drop_first() =~= vars.drop_first().push(v));
        assert(p[0] == vars[0]);
        match vars[0] {
            PlaybookVariableSource::Inline { .. } => {
                lemma_static_var_names_snoc(vars.drop_first(), v, next + 1);
                match v {
                    PlaybookVariableSource::Inline { .. } => {
                        assert(seq![svar_name(next)] + static_var_names(
                            vars.drop_first(),
                            next + 1,
                        ).push(svar_name(next + 1 + count_inline(vars.drop_first()))) =~= (seq![
                            svar_name(next),
                        ] + static_var_names(vars.drop_first(), next + 1)).push(
                            svar_name(next + count_inline(vars)),
                        ));
                    },
                    PlaybookVariableSource::SecretRef { .. } => {},
                }
            },
            PlaybookVariableSource::SecretRef { .. } => {
                lemma_static_var_names_snoc(vars.drop_first(), v, next);
            },
        }
    }
}

/// `--extra-vars @<name>` for each rendered variable file, in order.
pub open spec fn extra_vars_args(names: Seq<Seq<char>>) -> Seq<Seq<char>>
    decreases names.len(),
{
    if names.len() == 0 {
        Seq::empty()
    } else {
        seq!["--extra-vars"@, "@"@ + names[0]] + extra_vars_args(names.drop_first())
    }
}

proof fn lemma_extra_vars_args_snoc(names: Seq<Seq<char>>, x: Seq<char>)
    ensures
        extra_vars_args(names.push(x)) == extra_vars_args(names) + seq!["--extra-vars"@, "@"@ + x],
    decreases names.len(),
{
    let p = names.push(x);
    if names.len() == 0 {
        assert(p[0] == x);
        assert(p.drop_first() =~= Seq::<Seq<char>>::empty());
        assert(extra_vars_args(p.drop_first()) =~= Seq::<Seq<char>>::empty());
        assert(extra_vars_args(names) =~= Seq::<Seq<char>>::empty());
        assert(seq!["--extra-vars"@, "@"@ + x] + extra_vars_args(p.drop_first())
            =~= extra_vars_args(names) + seq!["--extra-vars"@, "@"@ + x]);
    } else {
        assert(p[0] == names[0]);
        assert(p.drop_first() =~= names.drop_first().push(x));
        lemma_extra_vars_args_snoc(names.drop_first(), x);
        assert(seq!["--extra-vars"@, "@"@ + names[0]] + (extra_vars_args(names.drop_first())
            + seq!["--extra-vars"@, "@"@ + x]) =~= (seq!["--extra-vars"@, "@"@ + names[0]]
            + extra_vars_args(names.drop_first())) + seq!["--extra-vars"@, "@"@ + x]);
    }
}

/// `--extra-vars @/run/ansible-operator/vars/<secret>/variables.yaml` for
/// each secret-sourced variable set, in order.
pub open spec fn secret_vars_args(paths: Seq<Seq<char>>) -> Seq<Seq<char>>
    decreases paths.len(),
{
    if paths.len() == 0 {
        Seq::empty()
    } else {
        seq![
            "--extra-vars"@,
            "@/run/ansible-operator/vars/"@ + paths[0] + "/variables.yaml"@,
        ] + secret_vars_args(paths.drop_first())
    }
}

proof fn lemma_secret_vars_args_snoc(paths: Seq<Seq<char>>, x: Seq<char>)
    ensures
        secret_vars_args(paths.push(x)) == secret_vars_args(paths) + seq![
            "--extra-vars"@,
            "@/run/ansible-operator/vars/"@ + x + "/variables.yaml"@,
        ],
    decreases paths.len(),
{
    let p = paths.push(x);
    let tail = seq!["--extra-vars"@, "@/run/ansible-operator/vars/"@ + x + "/variables.yaml"@];
    if paths.len() == 0 {
        assert(p[0] == x);
        assert(p.drop_first() =~= Seq::<Seq<char>>::empty());
        assert(secret_vars_args(p.drop_first()) =~= Seq::<Seq<char>>::empty());
        assert(secret_vars_args(paths) =~= Seq::<Seq<char>>::empty());
        assert(tail + secret_vars_args(p.drop_first()) =~= secret_vars_args(paths) + tail);
    } else {
        assert(p[0] == paths[0]);
        assert(p.drop_first() =~= paths.drop_first().push(x));
        lemma_secret_vars_args_snoc(paths.drop_first(), x);
        let head = seq![
            "--extra-vars"@,
            "@/run/ansible-operator/vars/"@ + paths[0] + "/variables.yaml"@,
        ];
        assert(head + (secret_vars_args(paths.drop_first()) + tail) =~= (head + secret_vars_args(
            paths.drop_first(),
        )) + tail);
    }
}

/// The connection arguments: chroot pins the runner to the node's root
/// filesystem; SSH names the key, the user and limits the run to the host.
pub open spec fn connection_args(strategy: &ConnectionStrategy, hostname: Seq<char>) -> Seq<
    Seq<char>,
> {
    match strategy {
        ConnectionStrategy::Chroot {  } => seq![
            "-c"@,
            "community.general.chroot"@,
            "-i"@,
            "/mnt/rootfs,"@,
        ],
        ConnectionStrategy::Ssh { ssh } => seq![
            "--ssh-common-args='-o UserKnownHostsFile=/ssh/known_hosts'"@,
            "--private-key"@,
            "/ssh/id_rsa"@,
            "--user"@,
            ssh.user@,
            "-i"@,
            "inventory.yml"@,
            "-l"@,
            hostname + ","@,
        ],
    }
}

/// The variable sources of a plan, empty when none are given.
pub open spec fn plan_variables(spec_: &PlaybookPlanSpec) -> Seq<PlaybookVariableSource> {
    match spec_.template.variables {
        Some(v) => v@,
        None => Seq::empty(),
    }
}

/// The full command line: `ansible-playbook`, the rendered variable files,
/// the secret-sourced variable files, the connection arguments, and the
/// playbook itself.
pub open spec fn spec_ansible_command(
    spec_: &PlaybookPlanSpec,
    hostname: Seq<char>,
    extra_vars_filepaths: Seq<Seq<char>>,
) -> Seq<Seq<char>> {
    seq!["ansible-playbook"@] + extra_vars_args(static_var_names(plan_variables(spec_), 0))
        + secret_vars_args(extra_vars_filepaths) + connection_args(
        &spec_.connection_strategy,
        hostname,
    ) + seq!["playbook.yml"@]
}

/// File names of the rendered inline variable sets of a plan, densely
/// numbered in spec order.
pub fn render_static_var_names(spec_: &PlaybookPlanSpec) -> (r: Vec<String>)
    ensures
        str_views(r@) == static_var_names(plan_variables(spec_), 0),
{
    let mut names: Vec<String> = Vec::new();
    let vars = match &spec_.template.variables {
        Some(v) => v,
        None => {
            proof {
                assert(str_views(names@) =~= static_var_names(plan_variables(spec_), 0));
            }
            return names;
        },
    };
    proof {
        assert(vars@.take(0) =~= Seq::<PlaybookVariableSource>::empty());
        assert(str_views(names@) =~= static_var_names(vars@.take(0), 0));
    }
    let mut i: usize = 0;
    let mut k: usize = 0;
    while i < vars.len()
        invariant
            i <= vars@.len(),
            k <= i,
            k == count_inline(vars@.take(i as int)),
            str_views(names@) == static_var_names(vars@.take(i as int), 0),
            vars@ == plan_variables(spec_),
        decreases vars@.len() - i,
    {
        proof {
            assert(vars@.take(i + 1) =~= vars@.take(i as int).push(vars@[i as int]));
            lemma_static_var_names_snoc(vars@.take(i as int), vars@[i as int], 0);
            lemma_count_inline_snoc(vars@.take(i as int), vars@[i as int]);
        }
        match &vars[i] {
            PlaybookVariableSource::Inline { .. } => {
                let mut name = str_to_string("static-variables-");
                let num = u64_to_dec(k as u64);
                name.append(num.as_str());
                name.append(".yml");
                proof {
                    assert(name@ == svar_name(k as nat));
                    assert(str_views(names@.push(name)) =~= str_views(names@).push(name@));
                }
                names.push(name);
                k += 1;
            },
            PlaybookVariableSource::SecretRef { .. } => {},
        }
        i += 1;
    }
    proof {
        assert(vars@.take(vars@.len() as int) =~= vars@);
    }
    names
}

pub proof fn lemma_count_inline_snoc(vars: Seq<PlaybookVariableSource>, v: PlaybookVariableSource)
    ensures
        count_inline(vars.push(v)) == count_inline(vars) + (match v {
            PlaybookVariableSource::Inline { .. } => 1nat,
            PlaybookVariableSource::SecretRef { .. } => 0nat,
        }),
    decreases vars.len(),
{
    let p = vars.push(v);
    if vars.len() == 0 {
        assert(p[0] == v);
        assert(p.drop_first() =~= Seq::<PlaybookVariableSource>::empty());
        assert(count_inline(p.drop_first()) == 0);
        assert(count_inline(p) == (match v {
            PlaybookVariableSource::Inline { .. } => 1nat,
            PlaybookVariableSource::SecretRef { .. } => 0nat,
        }) + count_inline(p.drop_first()));
    } else {
        assert(p[0] == vars[0]);
        assert(p.drop_first() =~= vars.drop_first().push(v));
        lemma_count_inline_snoc(vars.drop_first(), v);
    }
}

/// Renders the `ansible-playbook` invocation for one host: extra-vars flags
/// for every rendered variable file and secret-sourced variable path, then
/// the connection arguments, then the playbook.
pub fn render_ansible_command(
    spec_: &PlaybookPlanSpec,
    hostname: &str,
    extra_vars_filepaths: &Vec<String>,
) -> (r: Vec<String>)
    ensures
        str_views(r@) == spec_ansible_command(spec_, hostname@, str_views(extra_vars_filepaths@)),
{
    let mut cmd: Vec<String> = Vec::new();
    cmd.push(str_to_string("ansible-playbook"));
    proof {
        assert(str_views(cmd@) =~= seq!["ansible-playbook"@]);
    }

    let names = render_static_var_names(spec_);
    let ghost head = seq!["ansible-playbook"@];
    proof {
        assert(str_views(names@).take(0) =~= Seq::<Seq<char>>::empty());
        assert(extra_vars_args(str_views(names@).take(0)) =~= Seq::<Seq<char>>::empty());
        assert(str_views(cmd@) =~= head + extra_vars_args(str_views(names@).take(0)));
    }
    let mut i: usize = 0;
    while i < names.len()
        invariant
            i <= names@.len(),
            head == seq!["ansible-playbook"@],
            str_views(cmd@) == head + extra_vars_args(str_views(names@).take(i as int)),
        decreases names@.len() - i,
    {
        proof {
            assert(str_views(names@).take(i + 1) =~= str_views(names@).take(i as int).push(
                names@[i as int]@,
            ));
            lemma_extra_vars_args_snoc(str_views(names@).take(i as int), names@[i as int]@);
        }
        let flag = str_to_string("--extra-vars");
        proof {
            assert(str_views(cmd@.push(flag)) =~= str_views(cmd@).push(flag@));
        }
        cmd.push(flag);
        let mut arg = str_to_string("@");
        arg.append(names[i].as_str());
        proof {
            assert(str_views(cmd@.push(arg)) =~= str_views(cmd@).push(arg@));
            assert(head + extra_vars_args(str_views(names@).take(i + 1)) =~= (head
                + extra_vars_args(str_views(names@).take(i as int))).push("--extra-vars"@).push(
                "@"@ + names@[i as int]@,
            ));
        }
        cmd.push(arg);
        i += 1;
    }
    proof {
        assert(str_views(names@).take(names@.len() as int) =~= str_views(names@));
    }

    let ghost head2 = head + extra_vars_args(static_var_names(plan_variables(spec_), 0));
    proof {
        assert(str_views(extra_vars_filepaths@).take(0) =~= Seq::<Seq<char>>::empty());
        assert(secret_vars_args(str_views(extra_vars_filepaths@).take(0)) =~= Seq::<
            Seq<char>,
        >::empty());
        assert(str_views(cmd@) =~= head2 + secret_vars_args(
            str_views(extra_vars_filepaths@).take(0),
        ));
    }
    let mut j: usize = 0;
    while j < extra_vars_filepaths.len()
        invariant
            j <= extra_vars_filepaths@.len(),
            head2 == seq!["ansible-playbook"@] + extra_vars_args(
                static_var_names(plan_variables(spec_), 0),
            ),
            str_views(cmd@) == head2 + secret_vars_args(
                str_views(extra_vars_filepaths@).take(j as int),
            ),
        decreases extra_vars_filepaths@.len() - j,
    {
        proof {
            assert(str_views(extra_vars_filepaths@).take(j + 1) =~= str_views(
                extra_vars_filepaths@,
            ).take(j as int).push(extra_vars_filepaths@[j as int]@));
            lemma_secret_vars_args_snoc(
                str_views(extra_vars_filepaths@).take(j as int),
                extra_vars_filepaths@[j as int]@,
            );
        }
        let flag = str_to_string("--extra-vars");
        proof {
            assert(str_views(cmd@.push(flag)) =~= str_views(cmd@).push(flag@));
        }
        cmd.push(flag);
        let mut arg = str_to_string("@/run/ansible-operator/vars/");
        arg.append(extra_vars_filepaths[j].as_str());
        arg.append("/variables.yaml");
        proof {
            assert(str_views(cmd@.push(arg)) =~= str_views(cmd@).push(arg@));
            assert(head2 + secret_vars_args(str_views(extra_vars_filepaths@).take(j + 1)) =~= (
            head2 + secret_vars_args(str_views(extra_vars_filepaths@).take(j as int))).push(
                "--extra-vars"@,
            ).push("@/run/ansible-operator/vars/"@ + extra_vars_filepaths@[j as int]@
                + "/variables.yaml"@));
        }
        cmd.push(arg);
        j += 1;
    }
    proof {
        assert(str_views(extra_vars_filepaths@).take(extra_vars_filepaths@.len() as int)
            =~= str_views(extra_vars_filepaths@));
    }

    let ghost head3 = head2 + secret_vars_args(str_views(extra_vars_filepaths@));
    match &spec_.connection_strategy {
        ConnectionStrategy::Chroot {  } => {
            let a0 = str_to_string("-c");
            proof {
                assert(str_views(cmd@.push(a0)) =~= str_views(cmd@).push(a0@));
            }
            cmd.push(a0);
            let a1 = str_to_string("community.general.chroot");
            proof {
                assert(str_views(cmd@.push(a1)) =~= str_views(cmd@).push(a1@));
            }
            cmd.push(a1);
            let a2 = str_to_string("-i");
            proof {
                assert(str_views(cmd@.push(a2)) =~= str_views(cmd@).push(a2@));
            }
            cmd.push(a2);
            let a3 = str_to_string("/mnt/rootfs,");
            proof {
                assert(str_views(cmd@.push(a3)) =~= str_views(cmd@).push(a3@));
            }
            cmd.push(a3);
            proof {
                assert(str_views(cmd@) =~= head3 + connection_args(
                    &spec_.connection_strategy,
                    hostname@,
                ));
            }
        },
        ConnectionStrategy::Ssh { ssh } => {
            let a0 = str_to_string("--ssh-common-args='-o UserKnownHostsFile=/ssh/known_hosts'");
            proof {
                assert(str_views(cmd@.push(a0)) =~= str_views(cmd@).push(a0@));
            }
            cmd.push(a0);
            let a1 = str_to_string("--private-key");
            proof {
                assert(str_views(cmd@.push(a1)) =~= str_views(cmd@).push(a1@));
            }
            cmd.push(a1);
            let a2 = str_to_string("/ssh/id_rsa");
            proof {
                assert(str_views(cmd@.push(a2)) =~= str_views(cmd@).push(a2@));
            }
            cmd.push(a2);
            let a3 = str_to_string("--user");
            proof {
                assert(str_views(cmd@.push(a3)) =~= str_views(cmd@).push(a3@));
            }
            cmd.push(a3);
            let a4 = ssh.user.clone();
            proof {
                assert(str_views(cmd@.push(a4)) =~= str_views(cmd@).push(a4@));
            }
            cmd.push(a4);
            let a5 = str_to_string("-i");
            proof {
                assert(str_views(cmd@.push(a5)) =~= str_views(cmd@).push(a5@));
            }
            cmd.push(a5);
            let a6 = str_to_string("inventory.yml");
            proof {
                assert(str_views(cmd@.push(a6)) =~= str_views(cmd@).push(a6@));
            }
            cmd.push(a6);
            let a7 = str_to_string("-l");
            proof {
                assert(str_views(cmd@.push(a7)) =~= str_views(cmd@).push(a7@));
            }
            cmd.push(a7);
            let mut a8 = str_to_string(hostname);
            a8.append(",");
            proof {
                assert(str_views(cmd@.push(a8)) =~= str_views(cmd@).push(a8@));
            }
            cmd.push(a8);
            proof {
                assert(str_views(cmd@) =~= head3 + connection_args(
                    &spec_.connection_strategy,
                    hostname@,
                ));
            }
        },
    }

    let last = str_to_string("playbook.yml");
    proof {
        assert(str_views(cmd@.push(last)) =~= str_views(cmd@).push(last@));
        assert((head3 + connection_args(&spec_.connection_strategy, hostname@)).push(
            "playbook.yml"@,
        ) =~= spec_ansible_command(spec_, hostname@, str_views(extra_vars_filepaths@)));
    }
    cmd.push(last);
    cmd
}

} // verus!
