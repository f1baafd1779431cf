//! Cross-resource mappers: given a changed node or secret, which plans must
//! be reconciled again.  Pure over a snapshot of the known plans.

use vstd::prelude::*;
use crate::conditions::opt_str_view;
use crate::model::{FilesSource, Hosts, PlaybookPlanSpec, PlaybookVariableSource};

verus! {

/// One plan of the shared index: its object identity and its desired state.
#[derive(Clone, Debug)]
pub struct PlanEntry {
    pub name: String,
    pub namespace: Option<String>,
    pub spec: PlaybookPlanSpec,
}

/// A reference to a plan that should be requeued.
#[derive(Clone, Debug)]
pub struct PlanRef {
    pub name: String,
    pub namespace: Option<String>,
}

/// The reference a plan entry maps to.
pub open spec fn ref_of(p: PlanEntry) -> PlanRef {
    PlanRef { name: p.name, namespace: p.namespace }
}

/// Whether any inventory of the plan resolves hosts from cluster nodes, so
/// a node change might change its resolution.
pub open spec fn plan_watches_nodes(p: PlanEntry) -> bool {
    exists|i: int|
        0 <= i < p.spec.inventory@.len() && (#[trigger] p.spec.inventory@[i].hosts matches
        Hosts::FromClusterNodes { .. })
}

/// The plans a node event fans out to, in index order.
pub open spec fn spec_node_to_plans(plans: Seq<PlanEntry>) -> Seq<PlanRef>
    decreases plans.len(),
{
    if plans.len() == 0 {
        Seq::empty()
    } else {
        let rest = spec_node_to_plans(plans.drop_first());
        if plan_watches_nodes(plans[0]) {
            seq![ref_of(plans[0])] + rest
        } else {
            rest
        }
    }
}

proof fn lemma_node_to_plans_snoc(plans: Seq<PlanEntry>, p: PlanEntry)
    ensures
        spec_node_to_plans(plans.push(p)) == if plan_watches_nodes(p) {
            spec_node_to_plans(plans).push(ref_of(p))
        } else {
            spec_node_to_plans(plans)
        },
    decreases plans.len(),
{
    let q = plans.push(p);
    if plans.len() == 0 {
        assert(q[0] == p);
        assert(q.drop_first() =~= Seq::<PlanEntry>::empty());
        assert(spec_node_to_plans(q.drop_first()) =~= Seq::<PlanRef>::empty());
        assert(spec_node_to_plans(plans) =~= Seq::<PlanRef>::empty());
        if plan_watches_nodes(p) {
            assert(seq![ref_of(p)] + spec_node_to_plans(q.drop_first()) =~= spec_node_to_plans(
                plans,
            ).push(ref_of(p)));
        }
    } else {
        assert(q[0] == plans[0]);
        assert(q.drop_first() =~= plans.drop_first().push(p));
        lemma_node_to_plans_snoc(plans.drop_first(), p);
        if plan_watches_nodes(plans[0]) && plan_watches_nodes(p) {
            assert(seq![ref_of(plans[0])] + spec_node_to_plans(plans.drop_first()).push(ref_of(p))
                =~= (seq![ref_of(plans[0])] + spec_node_to_plans(plans.drop_first())).push(
                ref_of(p),
            ));
        }
    }
}

/// Copies a plan entry's identity.
fn make_ref(p: &PlanEntry) -> (r: PlanRef)
    ensures
        r == ref_of(*p),
{
    PlanRef {
        name: p.name.clone(),
        namespace: match &p.namespace {
            Some(ns) => Some(ns.clone()),
            None => None,
        },
    }
}

/// Whether this plan reads hosts from cluster nodes.
fn watches_nodes(p: &PlanEntry) -> (r: bool)
    ensures
        r == plan_watches_nodes(*p),
{
    let inv = &p.spec.inventory;
    let mut i: usize = 0;
    while i < inv.len()
        invariant
            i <= inv@.len(),
            inv == &p.spec.inventory,
            forall|j: int|
                0 <= j < i ==> !(#[trigger] inv@[j].hosts matches Hosts::FromClusterNodes { .. }),
        decreases inv@.len() - i,
    {
        match &inv[i].hosts {
            Hosts::FromClusterNodes { .. } => {
                return true;
            },
            Hosts::FromStaticList { .. } => {},
        }
        i += 1;
    }
    false
}

/// Maps a changed node to every plan whose inventory reads cluster nodes:
/// any node mutation might change label-based resolution.
pub fn node_to_playbookplans(plans: &Vec<PlanEntry>) -> (r: Vec<PlanRef>)
    ensures
        r@ == spec_node_to_plans(plans@),
{
    let mut r: Vec<PlanRef> = Vec::new();
    proof {
        assert(plans@.take(0) =~= Seq::<PlanEntry>::empty());
        assert(r@ =~= spec_node_to_plans(plans@.take(0)));
    }
    let mut i: usize = 0;
    while i < plans.len()
        invariant
            i <= plans@.len(),
            r@ == spec_node_to_plans(plans@.take(i as int)),
        decreases plans@.len() - i,
    {
        proof {
            assert(plans@.take(i + 1) =~= plans@.take(i as int).push(plans@[i as int]));
            lemma_node_to_plans_snoc(plans@.take(i as int), plans@[i as int]);
        }
        if watches_nodes(&plans[i]) {
            r.push(make_ref(&plans[i]));
        }
        i += 1;
    }
    proof {
        assert(plans@.take(plans@.len() as int) =~= plans@);
    }
    r
}

/// Whether the plan references the named secret in its variable or file
/// sources.
pub open spec fn plan_references_secret(spec_: &PlaybookPlanSpec, secret: Seq<char>) -> bool {
    ||| (match spec_.template.variables {
        Some(vars) => exists|i: int|
            0 <= i < vars@.len() && (#[trigger] vars@[i] matches PlaybookVariableSource::SecretRef {
                secret_ref,
            } && secret_ref.name@ == secret),
        None => false,
    })
    ||| (match spec_.template.files {
        Some(files) => exists|i: int|
            0 <= i < files@.len() && (#[trigger] files@[i] matches FilesSource::Secret { secret_ref, .. }
                && secret_ref.name@ == secret),
        None => false,
    })
}

/// Whether this plan references the named secret.
fn references_secret(p: &PlanEntry, secret_name: &String) -> (r: bool)
    ensures
        r == plan_references_secret(&p.spec, secret_name@),
{
    match &p.spec.template.variables {
        Some(vars) => {
            let mut i: usize = 0;
            while i < vars.len()
                invariant
                    i <= vars@.len(),
                    p.spec.template.variables == Some(*vars),
                    forall|j: int|
                        0 <= j < i ==> !(#[trigger] vars@[j] matches PlaybookVariableSource::SecretRef {
                            secret_ref,
                        } && secret_ref.name@ == secret_name@),
                decreases vars@.len() - i,
            {
                match &vars[i] {
                    PlaybookVariableSource::SecretRef { secret_ref } => {
                        if secret_ref.name == *secret_name {
                            proof {
                                assert(p.spec.template.variables == Some(*vars));
                                assert(vars@[i as int] matches PlaybookVariableSource::SecretRef {
                                    secret_ref: sr,
                                } && sr.name@ == secret_name@);
                                assert(plan_references_secret(&p.spec, secret_name@));
                            }
                            return true;
                        }
                    },
                    PlaybookVariableSource::Inline { .. } => {},
                }
                i += 1;
            }
        },
        None => {},
    }
    match &p.spec.template.files {
        Some(files) => {
            let mut i: usize = 0;
            while i < files.len()
                invariant
                    i <= files@.len(),
                    p.spec.template.files == Some(*files),
                    forall|j: int|
                        0 <= j < i ==> !(#[trigger] files@[j] matches FilesSource::Secret {
                            secret_ref,
                            ..
                        } && secret_ref.name@ == secret_name@),
                decreases files@.len() - i,
            {
                match &files[i] {
                    FilesSource::Secret { secret_ref, .. } => {
                        if secret_ref.name == *secret_name {
                            proof {
                                assert(p.spec.template.files == Some(*files));
                                assert(files@[i as int] matches FilesSource::Secret {
                                    secret_ref: sr,
                                    ..
                                } && sr.name@ == secret_name@);
                                assert(plan_references_secret(&p.spec, secret_name@));
                            }
                            return true;
                        }
                    },
                    FilesSource::Other { .. } => {},
                }
                i += 1;
            }
        },
        None => {},
    }
    false
}

/// Whether a plan entry lives in the secret's namespace and references it.
pub open spec fn plan_mapped_by_secret(
    p: PlanEntry,
    secret_namespace: Option<String>,
    secret: Seq<char>,
) -> bool {
    opt_str_view(p.namespace) == opt_str_view(secret_namespace) && plan_references_secret(
        &p.spec,
        secret,
    )
}

/// The plans a secret event fans out to, in index order.
pub open spec fn spec_secret_to_plans(
    plans: Seq<PlanEntry>,
    secret_namespace: Option<String>,
    secret: Seq<char>,
) -> Seq<PlanRef>
    decreases plans.len(),
{
    if plans.len() == 0 {
        Seq::empty()
    } else {
        let rest = spec_secret_to_plans(plans.drop_first(), secret_namespace, secret);
        if plan_mapped_by_secret(plans[0], secret_namespace, secret) {
            seq![ref_of(plans[0])] + rest
        } else {
            rest
        }
    }
}

proof fn lemma_secret_to_plans_snoc(
    plans: Seq<PlanEntry>,
    p: PlanEntry,
    secret_namespace: Option<String>,
    secret: Seq<char>,
)
    ensures
        spec_secret_to_plans(plans.push(p), secret_namespace, secret) == if plan_mapped_by_secret(
            p,
            secret_namespace,
            secret,
        ) {
            spec_secret_to_plans(plans, secret_namespace, secret).push(ref_of(p))
        } else {
            spec_secret_to_plans(plans, secret_namespace, secret)
        },
    decreases plans.len(),
{
    let q = plans.push(p);
    if plans.len() == 0 {
        assert(q[0] == p);
        assert(q.drop_first() =~= Seq::<PlanEntry>::empty());
        assert(spec_secret_to_plans(q.drop_first(), secret_namespace, secret) =~= Seq::<
            PlanRef,
        >::empty());
        assert(spec_secret_to_plans(plans, secret_namespace, secret) =~= Seq::<PlanRef>::empty());
        if plan_mapped_by_secret(p, secret_namespace, secret) {
            assert(seq![ref_of(p)] + spec_secret_to_plans(q.drop_first(), secret_namespace, secret)
                =~= spec_secret_to_plans(plans, secret_namespace, secret).push(ref_of(p)));
        }
    } else {
        assert(q[0] == plans[0]);
        assert(q.drop_first() =~= plans.drop_first().push(p));
        lemma_secret_to_plans_snoc(plans.drop_first(), p, secret_namespace, secret);
        if plan_mapped_by_secret(plans[0], secret_namespace, secret) && plan_mapped_by_secret(
            p,
            secret_namespace,
            secret,
        ) {
            assert(seq![ref_of(plans[0])] + spec_secret_to_plans(
                plans.drop_first(),
                secret_namespace,
                secret,
            ).push(ref_of(p)) =~= (seq![ref_of(plans[0])] + spec_secret_to_plans(
                plans.drop_first(),
                secret_namespace,
                secret,
            )).push(ref_of(p)));
        }
    }
}

/// Maps a changed secret to every plan in its namespace that references it
/// by name in a variable or file source.
pub fn secret_to_playbookplans(
    plans: &Vec<PlanEntry>,
    secret_namespace: &Option<String>,
    secret_name: &String,
) -> (r: Vec<PlanRef>)
    ensures
        r@ == spec_secret_to_plans(plans@, *secret_namespace, secret_name@),
{
    let mut r: Vec<PlanRef> = Vec::new();
    proof {
        assert(plans@.take(0) =~= Seq::<PlanEntry>::empty());
        assert(r@ =~= spec_secret_to_plans(plans@.take(0), *secret_namespace, secret_name@));
    }
    let mut i: usize = 0;
    while i < plans.len()
        invariant
            i <= plans@.len(),
            r@ == spec_secret_to_plans(plans@.take(i as int), *secret_namespace, secret_name@),
        decreases plans@.len() - i,
    {
        proof {
            assert(plans@.take(i + 1) =~= plans@.take(i as int).push(plans@[i as int]));
            lemma_secret_to_plans_snoc(
                plans@.take(i as int),
                plans@[i as int],
                *secret_namespace,
                secret_name@,
            );
        }
        let same_namespace = match (&plans[i].namespace, secret_namespace) {
            (Some(a), Some(b)) => *a == *b,
            (None, None) => true,
            _ => false,
        };
        if same_namespace && references_secret(&plans[i], secret_name) {
            r.push(make_ref(&plans[i]));
        }
        i += 1;
    }
    proof {
        assert(plans@.take(plans@.len() as int) =~= plans@);
    }
    r
}

} // verus!
