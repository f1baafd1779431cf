//! Status conditions and their upsert policy: a condition of the same type
//! is replaced only when its status or reason differs, so transition
//! timestamps move only on real transitions.

use vstd::prelude::*;
use crate::model::PlaybookPlanCondition;

verus! {

/// Anything shaped like a status condition.
pub trait Condition {
    fn type_(&self) -> &str;

    fn status(&self) -> &str;

    fn reason(&self) -> Option<&str>;
}

impl Condition for PlaybookPlanCondition {
    fn type_(&self) -> &str {
        self.type_.as_str()
    }

    fn status(&self) -> &str {
        self.status.as_str()
    }

    fn reason(&self) -> Option<&str> {
        match &self.reason {
            Some(r) => Some(r.as_str()),
            None => None,
        }
    }
}

/// The mathematical content of a condition: every field at view level.
pub ghost struct CondView {
    pub type_: Seq<char>,
    pub status: Seq<char>,
    pub reason: Option<Seq<char>>,
    pub message: Option<Seq<char>>,
    pub last_transition_time: Option<i64>,
}

/// View of an optional owned string.
pub open spec fn opt_str_view(o: Option<String>) -> Option<Seq<char>> {
    match o {
        None => None,
        Some(s) => Some(s@),
    }
}

/// The view of one condition value.
pub open spec fn cond_view(c: PlaybookPlanCondition) -> CondView {
    CondView {
        type_: c.type_@,
        status: c.status@,
        reason: opt_str_view(c.reason),
        message: opt_str_view(c.message),
        last_transition_time: c.last_transition_time,
    }
}

/// Views of a whole condition list.
pub open spec fn conds_views(s: Seq<PlaybookPlanCondition>) -> Seq<CondView> {
    s.map_values(|c: PlaybookPlanCondition| cond_view(c))
}

/// Index of the first condition with type `t`, or `-1`.
pub open spec fn cond_index(conds: Seq<CondView>, t: Seq<char>) -> int
    decreases conds.len(),
{
    if conds.len() == 0 {
        -1
    } else if conds[0].type_ == t {
        0
    } else {
        let r = cond_index(conds.drop_first(), t);
        if r == -1 {
            -1
        } else {
            r + 1
        }
    }
}

/// `cond_index` finds exactly the first index whose type is `t`.
pub proof fn lemma_cond_index_props(conds: Seq<CondView>, t: Seq<char>)
    ensures
        cond_index(conds, t) == -1 ==> forall|j: int|
            0 <= j < conds.len() ==> conds[j].type_ != t,
        cond_index(conds, t) != -1 ==> {
            &&& 0 <= cond_index(conds, t) < conds.len()
            &&& conds[cond_index(conds, t)].type_ == t
            &&& forall|j: int| 0 <= j < cond_index(conds, t) ==> conds[j].type_ != t
        },
    decreases conds.len(),
{
    if conds.len() == 0 {
    } else if conds[0].type_ == t {
    } else {
        lemma_cond_index_props(conds.drop_first(), t);
        let r = cond_index(conds.drop_first(), t);
        if r == -1 {
            assert forall|j: int| 0 <= j < conds.len() implies conds[j].type_ != t by {
                if j > 0 {
                    assert(conds.drop_first()[j - 1] == conds[j]);
                }
            }
        } else {
            assert(conds.drop_first()[r] == conds[r + 1]);
            assert forall|j: int| 0 <= j < r + 1 implies conds[j].type_ != t by {
                if j > 0 {
                    assert(conds.drop_first()[j - 1] == conds[j]);
                }
            }
        }
    }
}

/// If position `i` is the first match for `t`, `cond_index` returns it.
pub proof fn lemma_cond_index_of_first(conds: Seq<CondView>, t: Seq<char>, i: int)
    requires
        0 <= i < conds.len(),
        conds[i].type_ == t,
        forall|j: int| 0 <= j < i ==> conds[j].type_ != t,
    ensures
        cond_index(conds, t) == i,
{
    lemma_cond_index_props(conds, t);
    let r = cond_index(conds, t);
    if r == -1 {
    } else if r < i {
    } else if r > i {
    }
}

/// The upsert policy: replace the first condition of the same type only when
/// its status or reason differs; append when the type is new; otherwise
/// leave the list untouched.
pub open spec fn spec_upsert_condition(conds: Seq<CondView>, nc: CondView) -> Seq<CondView> {
    let i = cond_index(conds, nc.type_);
    if i == -1 {
        conds.push(nc)
    } else if conds[i].status == nc.status && conds[i].reason == nc.reason {
        conds
    } else {
        conds.update(i, nc)
    }
}

/// Inserts or replaces the condition of `new_condition`'s type, leaving the
/// list untouched when status and reason are unchanged.
pub fn upsert_condition(
    conditions: &mut Vec<PlaybookPlanCondition>,
    new_condition: PlaybookPlanCondition,
)
    ensures
        conds_views(final(conditions)@) == spec_upsert_condition(
            conds_views(old(conditions)@),
            cond_view(new_condition),
        ),
{
    let ghost ov = conds_views(old(conditions)@);
    let ghost nv = cond_view(new_condition);
    let mut i: usize = 0;
    while i < conditions.len()
        invariant
            i <= conditions@.len(),
            conditions@ == old(conditions)@,
            ov == conds_views(old(conditions)@),
            nv == cond_view(new_condition),
            forall|j: int| 0 <= j < i ==> conds_views(conditions@)[j].type_ != nv.type_,
        decreases conditions@.len() - i,
    {
        let same_type = conditions[i].type_ == new_condition.type_;
        proof {
            assert(ov.len() == old(conditions)@.len());
            assert(conds_views(conditions@)[i as int] == cond_view(conditions@[i as int]));
        }
        if same_type {
            proof {
                lemma_cond_index_of_first(ov, nv.type_, i as int);
            }
            let same_status = conditions[i].status == new_condition.status;
            let same_reason = match (&conditions[i].reason, &new_condition.reason) {
                (None, None) => true,
                (Some(a), Some(b)) => *a == *b,
                _ => false,
            };
            if same_status && same_reason {
                return ;
            }
            conditions.set(i, new_condition);
            proof {
                assert(conds_views(conditions@) =~= ov.update(i as int, nv));
            }
            return ;
        }
        i += 1;
    }
    proof {
        lemma_cond_index_props(ov, nv.type_);
        if cond_index(ov, nv.type_) != -1 {
            assert(ov[cond_index(ov, nv.type_)].type_ == nv.type_);
        }
    }
    conditions.push(new_condition);
    proof {
        assert(conds_views(conditions@) =~= ov.push(nv));
    }
}

/// Upserting a condition twice with the same type, status and reason leaves
/// the list exactly as one upsert left it: the second pass changes nothing,
/// so transition timestamps do not churn.
pub proof fn lemma_upsert_condition_stable(conds: Seq<CondView>, c1: CondView, c2: CondView)
    requires
        c2.type_ == c1.type_,
        c2.status == c1.status,
        c2.reason == c1.reason,
    ensures
        spec_upsert_condition(spec_upsert_condition(conds, c1), c2) == spec_upsert_condition(
            conds,
            c1,
        ),
{
    let t = c1.type_;
    lemma_cond_index_props(conds, t);
    let i = cond_index(conds, t);
    let cs1 = spec_upsert_condition(conds, c1);
    if i == -1 {
        assert(cs1 == conds.push(c1));
        lemma_cond_index_of_first(cs1, t, conds.len() as int);
        assert(cs1[conds.len() as int] == c1);
    } else if conds[i].status == c1.status && conds[i].reason == c1.reason {
        assert(cs1 == conds);
    } else {
        assert(cs1 == conds.update(i, c1));
        assert forall|j: int| 0 <= j < i implies cs1[j].type_ != t by {
            assert(cs1[j] == conds[j]);
        }
        lemma_cond_index_of_first(cs1, t, i);
        assert(cs1[i] == c1);
    }
}

} // verus!
