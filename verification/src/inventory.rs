//! The inventory resolver: expands host-group specs to concrete hostnames by
//! reading node labels, purely over the handed-in node list.

use vstd::prelude::*;
use crate::model::{Hosts, Inventory, Node};
use crate::model::NodeSelectorTerm;
use crate::nodeselector::{node_matches, spec_node_matches};

verus! {

/// Names of the nodes that satisfy `sel`, in node-list order.
pub open spec fn matching_node_names(nodes: Seq<Node>, sel: &NodeSelectorTerm) -> Seq<String>
    decreases nodes.len(),
{
    if nodes.len() == 0 {
        Seq::empty()
    } else {
        let rest = matching_node_names(nodes.drop_first(), sel);
        if spec_node_matches(&nodes[0], sel) {
            seq![nodes[0].name] + rest
        } else {
            rest
        }
    }
}

proof fn lemma_matching_node_names_snoc(nodes: Seq<Node>, n: Node, sel: &NodeSelectorTerm)
    ensures
        matching_node_names(nodes.push(n), sel) == if spec_node_matches(&n, sel) {
            matching_node_names(nodes, sel).push(n.name)
        } else {
            matching_node_names(nodes, sel)
        },
    decreases nodes.len(),
{
    let p = nodes.push(n);
    if nodes.len() == 0 {
        assert(p.drop_first() =~= Seq::<Node>::empty());
        assert(p[0] == n);
        assert(matching_node_names(p.drop_first(), sel) =~= Seq::<String>::empty());
        assert(matching_node_names(nodes, sel) =~= Seq::<String>::empty());
        if spec_node_matches(&n, sel) {
            assert(matching_node_names(p, sel) == seq![n.name] + matching_node_names(
                p.drop_first(),
                sel,
            ));
            assert(seq![n.name] + matching_node_names(p.drop_first(), sel) =~= matching_node_names(
                nodes,
                sel,
            ).push(n.name));
        } else {
            assert(matching_node_names(p, sel) == matching_node_names(p.drop_first(), sel));
        }
    } else {
        assert(p.drop_first() =~= nodes.drop_first().push(n));
        lemma_matching_node_names_snoc(nodes.drop_first(), n, sel);
        assert(p[0] == nodes[0]);
        if spec_node_matches(&nodes[0], sel) {
            if spec_node_matches(&n, sel) {
                assert(seq![nodes[0].name] + matching_node_names(nodes.drop_first(), sel).push(
                    n.name,
                ) =~= (seq![nodes[0].name] + matching_node_names(nodes.drop_first(), sel)).push(
                    n.name,
                ));
            }
        }
    }
}

/// What resolving one host source yields: a static list verbatim, or the
/// names of every node whose labels satisfy the selector.
pub open spec fn spec_resolve_hosts(hosts: &Hosts, nodes: Seq<Node>) -> Seq<String> {
    match hosts {
        Hosts::FromStaticList { from_list } => from_list@,
        Hosts::FromClusterNodes { from_nodes } => matching_node_names(nodes, from_nodes),
    }
}

/// Resolves one host source against the node list.
pub fn resolve_hosts(hosts: &Hosts, nodes: &Vec<Node>) -> (r: Vec<String>)
    ensures
        r@ == spec_resolve_hosts(hosts, nodes@),
{
    match hosts {
        Hosts::FromStaticList { from_list } => {
            let mut r: Vec<String> = Vec::new();
            proof {
                assert(r@ =~= from_list@.take(0));
            }
            let mut i: usize = 0;
            while i < from_list.len()
                invariant
                    i <= from_list@.len(),
                    r@ == from_list@.take(i as int),
                decreases from_list@.len() - i,
            {
                r.push(from_list[i].clone());
                proof {
                    assert(from_list@.take(i + 1) =~= from_list@.take(i as int).push(
                        from_list@[i as int],
                    ));
                }
                i += 1;
            }
            proof {
                assert(from_list@.take(from_list@.len() as int) =~= from_list@);
            }
            r
        },
        Hosts::FromClusterNodes { from_nodes } => {
            let mut r: Vec<String> = Vec::new();
            proof {
                assert(nodes@.take(0) =~= Seq::<Node>::empty());
                assert(r@ =~= matching_node_names(nodes@.take(0), from_nodes));
            }
            let mut i: usize = 0;
            while i < nodes.len()
                invariant
                    i <= nodes@.len(),
                    r@ == matching_node_names(nodes@.take(i as int), from_nodes),
                decreases nodes@.len() - i,
            {
                proof {
                    lemma_matching_node_names_snoc(
                        nodes@.take(i as int),
                        nodes@[i as int],
                        from_nodes,
                    );
                    assert(nodes@.take(i + 1) =~= nodes@.take(i as int).push(nodes@[i as int]));
                }
                if node_matches(&nodes[i], from_nodes) {
                    r.push(nodes[i].name.clone());
                }
                i += 1;
            }
            proof {
                assert(nodes@.take(nodes@.len() as int) =~= nodes@);
            }
            r
        },
    }
}

/// The resolver's whole contract: one output group per inventory, in spec
/// order, named like the inventory, holding exactly the resolved hosts.
pub open spec fn resolve_post(
    inventories: Seq<Inventory>,
    nodes: Seq<Node>,
    r: Seq<(String, Vec<String>)>,
) -> bool {
    &&& r.len() == inventories.len()
    &&& forall|i: int|
        0 <= i < inventories.len() ==> #[trigger] r[i].0 == inventories[i].name && r[i].1@
            == spec_resolve_hosts(&inventories[i].hosts, nodes)
}

/// Expands every inventory spec to concrete hostnames, preserving spec
/// order; label selectors see exactly the handed-in node list.
pub fn resolve(inventories: &Vec<Inventory>, nodes: &Vec<Node>) -> (r: Vec<(String, Vec<String>)>)
    ensures
        resolve_post(inventories@, nodes@, r@),
{
    let mut r: Vec<(String, Vec<String>)> = Vec::new();
    let mut i: usize = 0;
    while i < inventories.len()
        invariant
            i <= inventories@.len(),
            r@.len() == i,
            forall|j: int|
                0 <= j < i ==> #[trigger] r@[j].0 == inventories@[j].name && r@[j].1@
                    == spec_resolve_hosts(&inventories@[j].hosts, nodes@),
        decreases inventories@.len() - i,
    {
        let hosts = resolve_hosts(&inventories[i].hosts, nodes);
        r.push((inventories[i].name.clone(), hosts));
        i += 1;
    }
    r
}

/// Inventory resolution is pure: two results that both satisfy the
/// resolver's contract for the same inventories and nodes are identical,
/// group for group and host for host, including order.
pub proof fn lemma_inventory_resolution_pure(
    inventories: Seq<Inventory>,
    nodes: Seq<Node>,
    r1: Seq<(String, Vec<String>)>,
    r2: Seq<(String, Vec<String>)>,
)
    requires
        resolve_post(inventories, nodes, r1),
        resolve_post(inventories, nodes, r2),
    ensures
        r1.len() == r2.len(),
        forall|i: int| 0 <= i < r1.len() ==> #[trigger] r1[i].0 == r2[i].0 && r1[i].1@ == r2[i].1@,
{
}

/// The character sequences of a host list.
pub open spec fn host_views(v: Seq<String>) -> Seq<Seq<char>> {
    v.map_values(|s: String| s@)
}

/// The number of distinct hostnames in a host list.
pub open spec fn spec_unique_host_count(hosts: Seq<String>) -> nat {
    host_views(hosts).to_set().len()
}

/// Whether `v` holds a string whose characters equal `h`'s.
fn contains_string(v: &Vec<String>, h: &String) -> (r: bool)
    ensures
        r == host_views(v@).contains(h@),
{
    let mut i: usize = 0;
    while i < v.len()
        invariant
            i <= v@.len(),
            forall|j: int| 0 <= j < i ==> (#[trigger] v@[j])@ != h@,
        decreases v@.len() - i,
    {
        let hit = v[i] == *h;
        proof {
            assert(host_views(v@)[i as int] == v@[i as int]@);
        }
        if hit {
            return true;
        }
        i += 1;
    }
    proof {
        let m = host_views(v@);
        if m.contains(h@) {
            let k = choose|k: int| 0 <= k < m.len() && m[k] == h@;
            assert(m[k] == v@[k]@);
        }
    }
    false
}

/// Counts the distinct hostnames in a host list: a host that appears in
/// several inventories is counted once.
pub fn count_unique_hosts(hosts: &Vec<String>) -> (r: usize)
    ensures
        r == spec_unique_host_count(hosts@),
{
    let mut seen: Vec<String> = Vec::new();
    proof {
        assert(host_views(seen@) =~= Seq::<Seq<char>>::empty());
        assert(host_views(hosts@.take(0)).to_set() =~= Set::<Seq<char>>::empty());
        assert(host_views(seen@).to_set() =~= Set::<Seq<char>>::empty());
    }
    let mut i: usize = 0;
    while i < hosts.len()
        invariant
            i <= hosts@.len(),
            host_views(seen@).no_duplicates(),
            host_views(seen@).to_set() == host_views(hosts@.take(i as int)).to_set(),
        decreases hosts@.len() - i,
    {
        let ghost seen_views = host_views(seen@);
        let ghost prefix_views = host_views(hosts@.take(i as int));
        proof {
            assert(hosts@.take(i + 1) =~= hosts@.take(i as int).push(hosts@[i as int]));
            assert(host_views(hosts@.take(i + 1)) =~= prefix_views.push(hosts@[i as int]@));
            prefix_views.lemma_push_to_set_commute(hosts@[i as int]@);
        }
        if !contains_string(&seen, &hosts[i]) {
            seen.push(hosts[i].clone());
            proof {
                assert(host_views(seen@) =~= seen_views.push(hosts@[i as int]@));
                seen_views.lemma_push_to_set_commute(hosts@[i as int]@);
                assert(!seen_views.contains(hosts@[i as int]@));
                let x = hosts@[i as int]@;
                let pushed = seen_views.push(x);
                assert forall|a: int, b: int|
                    0 <= a < b < pushed.len() implies pushed[a] != pushed[b] by {
                    if b == seen_views.len() {
                        assert(pushed[a] == seen_views[a]);
                        assert(seen_views[a] != x);
                    } else {
                        assert(pushed[a] == seen_views[a]);
                        assert(pushed[b] == seen_views[b]);
                    }
                }
                assert(host_views(seen@).no_duplicates());
            }
        } else {
            proof {
                assert(seen_views.to_set().contains(hosts@[i as int]@));
                assert(seen_views.to_set().insert(hosts@[i as int]@) =~= seen_views.to_set());
            }
        }
        i += 1;
    }
    proof {
        assert(hosts@.take(hosts@.len() as int) =~= hosts@);
        host_views(seen@).unique_seq_to_set();
    }
    seen.len()
}

} // verus!
