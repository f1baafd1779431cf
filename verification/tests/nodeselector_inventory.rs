use ansible_operator::inventory::{count_unique_hosts, resolve, resolve_hosts};
use ansible_operator::model::{Hosts, Inventory, Node, NodeSelectorTerm};
use ansible_operator::nodeselector::{node_matches, node_matches_match_labels};

fn labels(pairs: &[(&str, &str)]) -> Vec<(String, String)> {
    pairs
        .iter()
        .map(|(k, v)| (k.to_string(), v.to_string()))
        .collect()
}

#[test]
fn test_node_matches_match_labels() {
    // Given
    let node = Node {
        name: "node-1".to_string(),
        labels: labels(&[
            ("key-a", "value-a"),
            ("key-b", "value-b"),
            ("key-c", "value-c"),
        ]),
    };

    // When
    let selector1 = labels(&[("key-a", "value-a")]);
    let selector2 = labels(&[("key-z", "value-z")]);

    let selector1_matches = node_matches_match_labels(&node, &selector1);
    let selector2_matches = node_matches_match_labels(&node, &selector2);

    // Then
    assert!(selector1_matches);
    assert!(!selector2_matches);
}

#[test]
fn test_node_matcher_is_conjunctive() {
    let node = Node {
        name: "db-node".to_string(),
        labels: labels(&[("role", "db"), ("zone", "eu")]),
    };
    let matching = NodeSelectorTerm::MatchLabels {
        labels: labels(&[("role", "db")]),
    };
    let mismatching = NodeSelectorTerm::MatchLabels {
        labels: labels(&[("role", "db"), ("zone", "us")]),
    };
    let empty = NodeSelectorTerm::MatchLabels { labels: Vec::new() };

    assert!(node_matches(&node, &matching));
    assert!(!node_matches(&node, &mismatching));
    assert!(node_matches(&node, &empty));
}

fn sample_inventories() -> Vec<Inventory> {
    vec![
        Inventory {
            name: "static".to_string(),
            hosts: Hosts::FromStaticList {
                from_list: vec!["ext-1".to_string(), "ext-2".to_string()],
            },
        },
        Inventory {
            name: "workers".to_string(),
            hosts: Hosts::FromClusterNodes {
                from_nodes: NodeSelectorTerm::MatchLabels {
                    labels: labels(&[("role", "worker")]),
                },
            },
        },
    ]
}

fn sample_nodes() -> Vec<Node> {
    vec![
        Node {
            name: "w1".to_string(),
            labels: labels(&[("role", "worker")]),
        },
        Node {
            name: "cp1".to_string(),
            labels: labels(&[("role", "controlplane")]),
        },
        Node {
            name: "w2".to_string(),
            labels: labels(&[("role", "worker"), ("zone", "eu")]),
        },
    ]
}

#[test]
fn test_resolve_static_list_is_verbatim() {
    let nodes = sample_nodes();
    let hosts = resolve_hosts(
        &Hosts::FromStaticList {
            from_list: vec!["a".to_string(), "a".to_string(), "b".to_string()],
        },
        &nodes,
    );
    assert_eq!(hosts, vec!["a".to_string(), "a".to_string(), "b".to_string()]);
}

#[test]
fn test_resolve_selects_matching_nodes_in_order() {
    let resolved = resolve(&sample_inventories(), &sample_nodes());
    assert_eq!(resolved.len(), 2);
    assert_eq!(resolved[0].0, "static");
    assert_eq!(resolved[0].1, vec!["ext-1".to_string(), "ext-2".to_string()]);
    assert_eq!(resolved[1].0, "workers");
    assert_eq!(resolved[1].1, vec!["w1".to_string(), "w2".to_string()]);
}

#[test]
fn test_resolution_is_pure() {
    let inventories = sample_inventories();
    let nodes = sample_nodes();
    let r1 = resolve(&inventories, &nodes);
    let r2 = resolve(&inventories, &nodes);
    assert_eq!(r1.len(), r2.len());
    for (a, b) in r1.iter().zip(r2.iter()) {
        assert_eq!(a.0, b.0);
        assert_eq!(a.1, b.1);
    }
}

#[test]
fn test_count_unique_hosts_deduplicates() {
    let hosts = vec![
        "a".to_string(),
        "b".to_string(),
        "a".to_string(),
        "c".to_string(),
        "b".to_string(),
    ];
    assert_eq!(count_unique_hosts(&hosts), 3);
    assert_eq!(count_unique_hosts(&Vec::new()), 0);
}
