//! Which labels metrics may have. What identifies a single zone, process or
//! request belongs in events; a metric with such a label would have a series for
//! each.

use vstd::prelude::*;

use crate::evidence::error::EvidenceError;
use crate::ordered;
use crate::ordered::OrderedSet;
use crate::text::same;

verus! {

/// Whether a label would give a metric too many series.
pub open spec fn forbidden(label: Seq<char>) -> bool {
    ||| label == "zone.id"@
    ||| label == "container.id"@
    ||| label == "actor.id"@
    ||| label == "inode"@
    ||| label == "pid"@
    ||| label == "connection.id"@
    ||| label == "trace_id"@
}

/// The first of the labels that is forbidden.
pub open spec fn first_forbidden(labels: Seq<&str>) -> Option<Seq<char>>
    decreases labels.len(),
{
    if labels.len() == 0 {
        None
    } else if forbidden(labels[0]@) {
        Some(labels[0]@)
    } else {
        first_forbidden(labels.skip(1))
    }
}

fn is_forbidden(label: &str) -> (res: bool)
    ensures
        res == forbidden(label@),
{
    same(label, "zone.id") || same(label, "container.id") || same(label, "actor.id") || same(
        label,
        "inode",
    ) || same(label, "pid") || same(label, "connection.id") || same(label, "trace_id")
}

/// Accepts labels none of which is forbidden, and else names the first that is.
pub fn validate_metric_labels(labels: &[&str]) -> (res: Result<(), EvidenceError>)
    ensures
        match res {
            Ok(_) => first_forbidden(labels@) is None,
            Err(e) => e matches EvidenceError::HighCardinalityMetricLabel(label)
                && first_forbidden(labels@) == Some(label@),
        },
{
    let mut i: usize = 0;
    assert(labels@.skip(0) == labels@);
    while i < labels.len()
        invariant
            i <= labels@.len(),
            first_forbidden(labels@) == first_forbidden(labels@.skip(i as int)),
        decreases labels@.len() - i,
    {
        let label = labels[i];
        if is_forbidden(label) {
            return Err(EvidenceError::HighCardinalityMetricLabel(label.to_owned()));
        }
        assert(labels@.skip(i as int).skip(1) == labels@.skip(i + 1));
        i = i + 1;
    }
    Ok(())
}

/// Whether a text is one of the labels.
pub open spec fn is_among(labels: Seq<&str>, label: Seq<char>) -> bool {
    exists|i: int| 0 <= i < labels.len() && (#[trigger] labels[i])@ == label
}

/// The labels, in order, each once; or the first that is forbidden.
pub fn metric_label_set(labels: &[&str]) -> (res: Result<OrderedSet, EvidenceError>)
    ensures
        match res {
            Ok(set) => {
                &&& first_forbidden(labels@) is None
                &&& ordered::in_order(set@)
                &&& forall|t: Seq<char>| #[trigger] set@.contains(t) <==> is_among(labels@, t)
            },
            Err(e) => e matches EvidenceError::HighCardinalityMetricLabel(label)
                && first_forbidden(labels@) == Some(label@),
        },
{
    match validate_metric_labels(labels) {
        Ok(_) => {},
        Err(e) => {
            return Err(e);
        },
    }
    let mut set = OrderedSet::new();
    let mut i: usize = 0;
    while i < labels.len()
        invariant
            i <= labels@.len(),
            ordered::in_order(set@),
            forall|t: Seq<char>| #[trigger]
                set@.contains(t) <==> is_among(labels@.take(i as int), t),
        decreases labels@.len() - i,
    {
        let label = labels[i];
        set.insert(label.to_owned());
        proof {
            let had = labels@.take(i as int);
            let has = labels@.take(i + 1);
            assert forall|t: Seq<char>| #[trigger] set@.contains(t) <==> is_among(has, t) by {
                if is_among(had, t) {
                    let k = choose|k: int| 0 <= k < had.len() && (#[trigger] had[k])@ == t;
                    assert(has[k] == had[k]);
                }
                assert(has[i as int]@ == label@);
                if is_among(has, t) && t != label@ {
                    let k = choose|k: int| 0 <= k < has.len() && (#[trigger] has[k])@ == t;
                    assert(had[k] == has[k]);
                }
            }
        }
        i = i + 1;
    }
    assert(labels@.take(labels@.len() as int) == labels@);
    Ok(set)
}

/// Labels are accepted exactly where none of them is forbidden.
pub proof fn law_accepted_labels_are_bounded(labels: Seq<&str>)
    ensures
        first_forbidden(labels) is None <==> forall|i: int|
            0 <= i < labels.len() ==> !forbidden((#[trigger] labels[i])@),
    decreases labels.len(),
{
    if labels.len() > 0 {
        let rest = labels.skip(1);
        law_accepted_labels_are_bounded(rest);
        if !forbidden(labels[0]@) {
            if first_forbidden(rest) is None {
                assert forall|i: int| 0 <= i < labels.len() implies !forbidden(
                    (#[trigger] labels[i])@,
                ) by {
                    if i > 0 {
                        assert(!forbidden(rest[i - 1]@));
                    }
                }
            } else {
                let i = choose|i: int| 0 <= i < rest.len() && forbidden((#[trigger] rest[i])@);
                assert(labels[i + 1] == rest[i]);
            }
        }
    }
}

/// The labels that are forbidden are these, and no others.
pub proof fn law_forbidden_labels_are_these(label: Seq<char>)
    ensures
        forbidden(label) <==> (label == "zone.id"@ || label == "container.id"@ || label
            == "actor.id"@ || label == "inode"@ || label == "pid"@ || label == "connection.id"@
            || label == "trace_id"@),
{
}

/// The label that a refusal names is forbidden, is one of those given, and none before it is
/// forbidden.
pub proof fn law_first_forbidden_is_named(labels: Seq<&str>) -> (k: int)
    requires
        first_forbidden(labels) is Some,
    ensures
        0 <= k < labels.len(),
        first_forbidden(labels) == Some(labels[k]@),
        forbidden(labels[k]@),
        forall|j: int| 0 <= j < k ==> !forbidden((#[trigger] labels[j])@),
    decreases labels.len(),
{
    if forbidden(labels[0]@) {
        0
    } else {
        let rest = labels.skip(1);
        let k = law_first_forbidden_is_named(rest);
        assert(labels[k + 1] == rest[k]);
        assert forall|j: int| 0 <= j < k + 1 implies !forbidden((#[trigger] labels[j])@) by {
            if j > 0 {
                assert(!forbidden(rest[j - 1]@));
            }
        }
        k + 1
    }
}

} // verus!
