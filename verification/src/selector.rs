//! The rule that decides which pods are supervised.

use crate::arg::texts;
use crate::ctime::CTime;
use crate::utc_time::UtcTime;
use crate::pod::PodIdentity;
use crate::text::{contains, is_substring};
use vstd::prelude::*;

verus! {

/// One of the patterns stands in `name`.
pub open spec fn name_matches(name: Seq<char>, patterns: Seq<Seq<char>>) -> bool {
    exists|i: int| 0 <= i < patterns.len() && is_substring(#[trigger] patterns[i], name)
}

/// The creation time passes: no predicate is set, or the time is known and
/// the predicate admits it.
pub open spec fn age_passes(created_at: Option<UtcTime>, ctime: Option<CTime>) -> bool {
    match ctime {
        None => true,
        Some(predicate) => created_at is Some && predicate.admits(created_at->0),
    }
}

/// A pod is eligible where one of the patterns stands in its name and its
/// creation time passes.
pub open spec fn eligible(
    name: Seq<char>,
    created_at: Option<UtcTime>,
    patterns: Seq<Seq<char>>,
    ctime: Option<CTime>,
) -> bool {
    name_matches(name, patterns) && age_passes(created_at, ctime)
}

/// Where a predicate is set, a pod whose creation time is not known is not
/// eligible, whatever its name; where none is set, the name alone decides.
pub proof fn law_unknown_age_is_not_eligible(
    name: Seq<char>,
    patterns: Seq<Seq<char>>,
    predicate: CTime,
    created_at: Option<UtcTime>,
)
    ensures
        !eligible(name, None, patterns, Some(predicate)),
        eligible(name, created_at, patterns, None) == name_matches(name, patterns),
{
}

/// Whether the creation time passes.
fn check_age(created_at: &Option<UtcTime>, ctime: Option<&CTime>) -> (b: bool)
    ensures
        b == age_passes(
            *created_at,
            match ctime {
                Some(p) => Some(*p),
                None => None,
            },
        ),
{
    match ctime {
        None => true,
        Some(predicate) => match created_at {
            Some(t) => predicate.is_valid(t),
            None => false,
        },
    }
}

/// Whether one of `patterns` stands in `text`.
pub fn matches_any(text: &str, patterns: &[String]) -> (b: bool)
    ensures
        b == name_matches(text@, texts(patterns@)),
{
    let ghost wanted = texts(patterns@);
    let mut i: usize = 0;
    while i < patterns.len()
        invariant
            i <= patterns.len(),
            wanted == texts(patterns@),
            forall|j: int| 0 <= j < i ==> !is_substring(#[trigger] wanted[j], text@),
        decreases patterns.len() - i,
    {
        if contains(text, patterns[i].as_str()) {
            assert(is_substring(wanted[i as int], text@));
            return true;
        }
        i += 1;
    }
    false
}

/// Whether `pod` is to be supervised: one of `supervised_pod_labels` stands
/// in its name, and its creation time satisfies `ctime` where one is given.
/// A pod whose creation time is not known is not supervised where `ctime` is
/// given.
pub fn is_supervised_pod(
    pod: &PodIdentity,
    supervised_pod_labels: &[String],
    ctime: Option<&CTime>,
) -> (b: bool)
    ensures
        b == eligible(
            pod.name@,
            pod.created_at,
            texts(supervised_pod_labels@),
            match ctime {
                Some(p) => Some(*p),
                None => None,
            },
        ),
{
    matches_any(pod.name.as_str(), supervised_pod_labels) && check_age(&pod.created_at, ctime)
}

} // verus!
