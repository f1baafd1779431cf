//! The outdated-host evaluator: which eligible hosts still need the current
//! fingerprint applied.

use vstd::prelude::*;
use crate::errors::ReconcileError;
use crate::fingerprint::ExecutionHash;
use crate::model::{HostStatus, PlaybookPlanStatus};
use crate::strutil::hex_str;

verus! {

/// First host record stored under hostname `h`, or `None`.
pub open spec fn host_status_get(hs: Seq<(String, HostStatus)>, h: Seq<char>) -> Option<HostStatus>
    decreases hs.len(),
{
    if hs.len() == 0 {
        None
    } else if hs[0].0@ == h {
        Some(hs[0].1)
    } else {
        host_status_get(hs.drop_first(), h)
    }
}

proof fn lemma_host_status_get_skip(hs: Seq<(String, HostStatus)>, h: Seq<char>, i: int)
    requires
        0 <= i < hs.len(),
        hs[i].0@ != h,
        host_status_get(hs, h) == host_status_get(hs.skip(i), h),
    ensures
        host_status_get(hs, h) == host_status_get(hs.skip(i + 1), h),
{
    assert(hs.skip(i).drop_first() =~= hs.skip(i + 1));
}

/// Looks a hostname up in the per-host status list.
pub fn host_status_lookup<'a>(hs: &'a Vec<(String, HostStatus)>, h: &String) -> (r: Option<
    &'a HostStatus,
>)
    ensures
        match r {
            Some(st) => host_status_get(hs@, h@) == Some(*st),
            None => host_status_get(hs@, h@) is None,
        },
{
    proof {
        assert(hs@.skip(0) =~= hs@);
    }
    let mut i: usize = 0;
    while i < hs.len()
        invariant
            i <= hs@.len(),
            host_status_get(hs@, h@) == host_status_get(hs@.skip(i as int), h@),
        decreases hs@.len() - i,
    {
        let hit = hs[i].0 == *h;
        proof {
            assert(hs@.skip(i as int)[0] == hs@[i as int]);
        }
        if hit {
            return Some(&hs[i].1);
        }
        proof {
            lemma_host_status_get_skip(hs@, h@, i as int);
        }
        i += 1;
    }
    proof {
        assert(hs@.skip(hs@.len() as int) =~= Seq::<(String, HostStatus)>::empty());
    }
    None
}

/// All hosts of the eligible-host groups, in inventory order and then host
/// order; a host that appears in several groups appears once per appearance.
pub open spec fn all_hosts(groups: Seq<(String, Vec<String>)>) -> Seq<String>
    decreases groups.len(),
{
    if groups.len() == 0 {
        Seq::empty()
    } else {
        groups[0].1@ + all_hosts(groups.drop_first())
    }
}

proof fn lemma_all_hosts_snoc(groups: Seq<(String, Vec<String>)>, g: (String, Vec<String>))
    ensures
        all_hosts(groups.push(g)) == all_hosts(groups) + g.1@,
    decreases groups.len(),
{
    if groups.len() == 0 {
        let p = groups.push(g);
        assert(p.drop_first() =~= Seq::<(String, Vec<String>)>::empty());
        assert(p[0] == g);
        assert(all_hosts(p.drop_first()) =~= Seq::<String>::empty());
        assert(all_hosts(p) == p[0].1@ + all_hosts(p.drop_first()));
        assert(p[0].1@ + all_hosts(p.drop_first()) =~= g.1@);
        assert(all_hosts(groups) + g.1@ =~= g.1@);
    } else {
        assert(groups.push(g).drop_first() =~= groups.drop_first().push(g));
        lemma_all_hosts_snoc(groups.drop_first(), g);
        assert(groups.push(g)[0] == groups[0]);
        assert(groups[0].1@ + (all_hosts(groups.drop_first()) + g.1@) =~= (groups[0].1@
            + all_hosts(groups.drop_first())) + g.1@);
    }
}

/// Flattens host groups into one host list, preserving order.
pub(crate) fn flatten_hosts(groups: &Vec<(String, Vec<String>)>) -> (r: Vec<String>)
    ensures
        r@ == all_hosts(groups@),
{
    let mut r: Vec<String> = Vec::new();
    proof {
        assert(groups@.take(0) =~= Seq::<(String, Vec<String>)>::empty());
        assert(r@ =~= all_hosts(groups@.take(0)));
    }
    let mut g: usize = 0;
    while g < groups.len()
        invariant
            g <= groups@.len(),
            r@ == all_hosts(groups@.take(g as int)),
        decreases groups@.len() - g,
    {
        let hosts = &groups[g].1;
        let mut h: usize = 0;
        while h < hosts.len()
            invariant
                g < groups@.len(),
                h <= hosts@.len(),
                hosts == &groups@[g as int].1,
                r@ == all_hosts(groups@.take(g as int)) + hosts@.take(h as int),
            decreases hosts@.len() - h,
        {
            r.push(hosts[h].clone());
            proof {
                assert(hosts@.take(h + 1) =~= hosts@.take(h as int).push(hosts@[h as int]));
                assert(all_hosts(groups@.take(g as int)) + hosts@.take(h + 1) =~= (all_hosts(
                    groups@.take(g as int),
                ) + hosts@.take(h as int)).push(hosts@[h as int]));
            }
            h += 1;
        }
        proof {
            assert(hosts@.take(hosts@.len() as int) =~= hosts@);
            lemma_all_hosts_snoc(groups@.take(g as int), groups@[g as int]);
            assert(groups@.take(g as int).push(groups@[g as int]) =~= groups@.take(g + 1));
        }
        g += 1;
    }
    proof {
        assert(groups@.take(groups@.len() as int) =~= groups@);
    }
    r
}

/// A host is outdated when it has no recorded status, or its recorded
/// `last_applied_hash` is not the current fingerprint's hex form.
pub open spec fn host_is_outdated(hs: Seq<(String, HostStatus)>, h: String, hex: Seq<char>) -> bool {
    match host_status_get(hs, h@) {
        None => true,
        Some(st) => st.last_applied_hash@ != hex,
    }
}

/// The outdated hosts among `hosts`, in order.
pub open spec fn outdated_list(hosts: Seq<String>, hs: Seq<(String, HostStatus)>, hex: Seq<char>) -> Seq<String>
    decreases hosts.len(),
{
    if hosts.len() == 0 {
        Seq::empty()
    } else {
        let rest = outdated_list(hosts.drop_first(), hs, hex);
        if host_is_outdated(hs, hosts[0], hex) {
            seq![hosts[0]] + rest
        } else {
            rest
        }
    }
}

proof fn lemma_outdated_list_snoc(
    hosts: Seq<String>,
    x: String,
    hs: Seq<(String, HostStatus)>,
    hex: Seq<char>,
)
    ensures
        outdated_list(hosts.push(x), hs, hex) == if host_is_outdated(hs, x, hex) {
            outdated_list(hosts, hs, hex).push(x)
        } else {
            outdated_list(hosts, hs, hex)
        },
    decreases hosts.len(),
{
    let p = hosts.push(x);
    if hosts.len() == 0 {
        assert(p.drop_first() =~= Seq::<String>::empty());
        assert(p[0] == x);
        assert(outdated_list(p.drop_first(), hs, hex) =~= Seq::<String>::empty());
        assert(outdated_list(hosts, hs, hex) =~= Seq::<String>::empty());
        if host_is_outdated(hs, x, hex) {
            assert(outdated_list(p, hs, hex) == seq![x] + outdated_list(p.drop_first(), hs, hex));
            assert(seq![x] + outdated_list(p.drop_first(), hs, hex) =~= outdated_list(
                hosts,
                hs,
                hex,
            ).push(x));
        } else {
            assert(outdated_list(p, hs, hex) == outdated_list(p.drop_first(), hs, hex));
        }
    } else {
        assert(p.drop_first() =~= hosts.drop_first().push(x));
        lemma_outdated_list_snoc(hosts.drop_first(), x, hs, hex);
        assert(p[0] == hosts[0]);
        if host_is_outdated(hs, hosts[0], hex) {
            if host_is_outdated(hs, x, hex) {
                assert(seq![hosts[0]] + outdated_list(hosts.drop_first(), hs, hex).push(x)
                    =~= (seq![hosts[0]] + outdated_list(hosts.drop_first(), hs, hex)).push(x));
            }
        }
    }
}

/// What `find_outdated_hosts` returns for a status and a fingerprint: empty
/// when there are no eligible hosts; every eligible host when no per-host
/// status exists yet; otherwise the eligible hosts whose recorded hash is
/// not the current one, preserving enumeration order.
pub open spec fn spec_outdated_hosts(status: &PlaybookPlanStatus, hash: u64) -> Seq<String> {
    match status.eligible_hosts {
        None => Seq::empty(),
        Some(groups) => match status.hosts_status {
            None => all_hosts(groups@),
            Some(hs) => outdated_list(all_hosts(groups@), hs@, hex_str(hash as nat)),
        },
    }
}

/// Returns the hosts where the plan needs to be (re)applied: those whose
/// recorded `last_applied_hash` differs from the current fingerprint, or that
/// have none.  Never fails; the `Result` mirrors the call sites' shape.
pub fn find_outdated_hosts(status: &PlaybookPlanStatus, execution_hash: &ExecutionHash) -> (r:
    Result<Vec<String>, ReconcileError>)
    ensures
        r is Ok,
        r->Ok_0@ == spec_outdated_hosts(status, execution_hash.0),
{
    let groups = match &status.eligible_hosts {
        None => {
            return Ok(Vec::new());
        },
        Some(groups) => groups,
    };
    let flat = flatten_hosts(groups);
    let hs = match &status.hosts_status {
        None => {
            return Ok(flat);
        },
        Some(hs) => hs,
    };
    let hex = execution_hash.hex_string();
    let mut r: Vec<String> = Vec::new();
    proof {
        assert(flat@.take(0) =~= Seq::<String>::empty());
        assert(r@ =~= outdated_list(flat@.take(0), hs@, hex@));
    }
    let mut i: usize = 0;
    while i < flat.len()
        invariant
            i <= flat@.len(),
            hex@ == hex_str(execution_hash.0 as nat),
            r@ == outdated_list(flat@.take(i as int), hs@, hex@),
        decreases flat@.len() - i,
    {
        let outdated = match host_status_lookup(hs, &flat[i]) {
            None => true,
            Some(st) => !(st.last_applied_hash == hex),
        };
        proof {
            lemma_outdated_list_snoc(flat@.take(i as int), flat@[i as int], hs@, hex@);
            assert(flat@.take(i + 1) =~= flat@.take(i as int).push(flat@[i as int]));
        }
        if outdated {
            r.push(flat[i].clone());
        }
        i += 1;
    }
    proof {
        assert(flat@.take(flat@.len() as int) =~= flat@);
    }
    Ok(r)
}

/// Outdated-host law: while no per-host record exists, every eligible host
/// is outdated, in enumeration order.
pub proof fn lemma_outdated_without_records(status: &PlaybookPlanStatus, hash: u64)
    requires
        status.eligible_hosts is Some,
        status.hosts_status is None,
    ensures
        spec_outdated_hosts(status, hash) == all_hosts(status.eligible_hosts->0@),
{
}

/// Every eligible host of the status, flattened in enumeration order; empty
/// when no eligible hosts were recorded.
pub open spec fn spec_all_hosts(status: &PlaybookPlanStatus) -> Seq<String> {
    match status.eligible_hosts {
        None => Seq::empty(),
        Some(groups) => all_hosts(groups@),
    }
}

/// All hosts of every inventory, in order.
pub fn find_all_hosts(status: &PlaybookPlanStatus) -> (r: Vec<String>)
    ensures
        r@ == spec_all_hosts(status),
{
    match &status.eligible_hosts {
        None => Vec::new(),
        Some(groups) => flatten_hosts(groups),
    }
}

} // verus!
