//! The node-selector matcher: does a node's label set satisfy a selector?

use vstd::prelude::*;
use crate::model::{label_get, LabelMap, Node, NodeSelectorTerm};

verus! {

/// A label set satisfies a `matchLabels` selector when every selector pair is
/// present verbatim: a missing key fails the match, extra node labels are
/// irrelevant, and the empty selector matches everything.
pub open spec fn spec_labels_match(node_labels: Seq<(String, String)>, sel: Seq<(String, String)>) -> bool {
    forall|i: int|
        0 <= i < sel.len() ==> label_get(node_labels, sel[i].0@) == Some(sel[i].1@)
}

/// What `node_matches` decides for each selector shape.
pub open spec fn spec_node_matches(node: &Node, selector: &NodeSelectorTerm) -> bool {
    match selector {
        NodeSelectorTerm::MatchLabels { labels } => spec_labels_match(node.labels@, labels@),
    }
}

/// Pure predicate: does `node` satisfy `selector`?
pub fn node_matches(node: &Node, selector: &NodeSelectorTerm) -> (r: bool)
    ensures
        r == spec_node_matches(node, selector),
{
    match selector {
        NodeSelectorTerm::MatchLabels { labels } => node_matches_match_labels(node, labels),
    }
}

/// The `matchLabels` case: every `(key, value)` pair of the selector must
/// appear in the node's labels.
pub fn node_matches_match_labels(node: &Node, labels: &LabelMap) -> (r: bool)
    ensures
        r == spec_labels_match(node.labels@, labels@),
{
    let mut i: usize = 0;
    while i < labels.len()
        invariant
            i <= labels@.len(),
            forall|j: int|
                0 <= j < i ==> label_get(node.labels@, labels@[j].0@) == Some(labels@[j].1@),
        decreases labels@.len() - i,
    {
        let ok = match crate::model::label_lookup(&node.labels, &labels[i].0) {
            Some(v) => *v == labels[i].1,
            None => false,
        };
        if !ok {
            return false;
        }
        i += 1;
    }
    true
}

/// An empty selector matches every label set.
pub proof fn lemma_empty_selector_matches(node_labels: Seq<(String, String)>)
    ensures
        spec_labels_match(node_labels, Seq::<(String, String)>::empty()),
{
}

/// The matcher is conjunctive: a label set satisfies the concatenation of
/// two selectors exactly when it satisfies each of them.
pub proof fn lemma_labels_match_conjunctive(
    node_labels: Seq<(String, String)>,
    s1: Seq<(String, String)>,
    s2: Seq<(String, String)>,
)
    ensures
        spec_labels_match(node_labels, s1 + s2) <==> (spec_labels_match(node_labels, s1)
            && spec_labels_match(node_labels, s2)),
{
    if spec_labels_match(node_labels, s1 + s2) {
        assert forall|i: int|
            0 <= i < s1.len() implies label_get(node_labels, s1[i].0@) == Some(s1[i].1@) by {
            assert((s1 + s2)[i] == s1[i]);
        }
        assert forall|i: int|
            0 <= i < s2.len() implies label_get(node_labels, s2[i].0@) == Some(s2[i].1@) by {
            assert((s1 + s2)[s1.len() + i] == s2[i]);
        }
    }
    if spec_labels_match(node_labels, s1) && spec_labels_match(node_labels, s2) {
        assert forall|i: int|
            0 <= i < (s1 + s2).len() implies label_get(node_labels, (s1 + s2)[i].0@) == Some(
            (s1 + s2)[i].1@,
        ) by {
            if i < s1.len() {
                assert((s1 + s2)[i] == s1[i]);
            } else {
                assert((s1 + s2)[i] == s2[i - s1.len()]);
            }
        }
    }
}

} // verus!
