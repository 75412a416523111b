//! Contract history: pure diffing of two immutable scan results.
//!
//! The ledger itself is the orchestrator's append-only `HistoryEntry` list;
//! what lives here is the comparison: which findings appeared, which were
//! fixed, how the score and each metric moved. A diff reads its two results
//! and changes neither.

use vstd::prelude::*;

use crate::benchmark::{Metric, MetricName};
use crate::detector::Finding;
use crate::orchestrator::ScanResult;
use crate::scoring::metric_value;

verus! {

/// How one measured quantity moved between two results.
#[derive(Clone, Copy, PartialEq, Eq, Structural, Debug)]
pub struct MetricDelta {
    pub name: MetricName,
    pub before: u64,
    pub after: u64,
}

/// What changed between two scan results of the same contract.
#[derive(Clone, PartialEq, Eq, Debug)]
pub struct ScanDiff {
    /// Later value less earlier value: positive when the score improved.
    pub score_delta: i32,
    /// Findings present in the later result only.
    pub findings_added: Vec<Finding>,
    /// Findings present in the earlier result only — what was fixed.
    pub findings_removed: Vec<Finding>,
    /// One row per metric of the earlier result, paired with the later
    /// value under the same name.
    pub metric_deltas: Vec<MetricDelta>,
}

/// Whether the findings at or after `i` include `f`.
pub open spec fn has_finding(s: Seq<Finding>, f: Finding, i: int) -> bool
    decreases s.len() - i,
{
    if i < 0 || i >= s.len() {
        false
    } else {
        s[i] == f || has_finding(s, f, i + 1)
    }
}

/// The findings of `src` at or after `i` that `other` does not hold.
pub open spec fn missing_from(src: Seq<Finding>, other: Seq<Finding>, i: int) -> Seq<Finding>
    decreases src.len() - i,
{
    if i < 0 || i >= src.len() {
        Seq::empty()
    } else if !has_finding(other, src[i], 0) {
        seq![src[i]] + missing_from(src, other, i + 1)
    } else {
        missing_from(src, other, i + 1)
    }
}

/// One delta row per metric of `a` at or after `i`, against `b`.
pub open spec fn spec_deltas(a: Seq<Metric>, b: Seq<Metric>, i: int) -> Seq<MetricDelta>
    decreases a.len() - i,
{
    if i < 0 || i >= a.len() {
        Seq::empty()
    } else {
        seq![
            MetricDelta { name: a[i].name, before: a[i].value, after: metric_value(b, a[i].name) },
        ] + spec_deltas(a, b, i + 1)
    }
}

fn has_finding_exec(s: &Vec<Finding>, f: Finding, i: usize) -> (r: bool)
    requires
        i <= s@.len(),
    ensures
        r == has_finding(s@, f, i as int),
    decreases s@.len() - i,
{
    if i == s.len() {
        false
    } else if s[i] == f {
        true
    } else {
        has_finding_exec(s, f, i + 1)
    }
}

fn missing_from_exec(src: &Vec<Finding>, other: &Vec<Finding>, i: usize) -> (r: Vec<Finding>)
    requires
        i <= src@.len(),
    ensures
        r@ == missing_from(src@, other@, i as int),
    decreases src@.len() - i,
{
    if i == src.len() {
        Vec::new()
    } else {
        let mut rest = missing_from_exec(src, other, i + 1);
        let f = src[i];
        if !has_finding_exec(other, f, 0) {
            rest.insert(0, f);
            proof {
                assert(rest@ =~= seq![f] + rest@.subrange(1, rest@.len() as int));
            }
        }
        rest
    }
}

fn metric_lookup(metrics: &Vec<Metric>, name: MetricName, i: usize) -> (r: u64)
    requires
        i <= metrics@.len(),
    ensures
        r == metric_value(metrics@.subrange(i as int, metrics@.len() as int), name),
    decreases metrics@.len() - i,
{
    if i == metrics.len() {
        proof {
            assert(metrics@.subrange(i as int, metrics@.len() as int) =~= Seq::<Metric>::empty());
        }
        0
    } else {
        proof {
            let suffix = metrics@.subrange(i as int, metrics@.len() as int);
            assert(suffix[0] == metrics@[i as int]);
            assert(suffix.drop_first() =~= metrics@.subrange(i + 1, metrics@.len() as int));
        }
        let m = metrics[i];
        if m.name == name {
            m.value
        } else {
            metric_lookup(metrics, name, i + 1)
        }
    }
}

fn deltas_exec(a: &Vec<Metric>, b: &Vec<Metric>, i: usize) -> (r: Vec<MetricDelta>)
    requires
        i <= a@.len(),
    ensures
        r@ == spec_deltas(a@, b@, i as int),
    decreases a@.len() - i,
{
    if i == a.len() {
        Vec::new()
    } else {
        let mut rest = deltas_exec(a, b, i + 1);
        let m = a[i];
        let after = metric_lookup(b, m.name, 0);
        proof {
            assert(b@.subrange(0, b@.len() as int) =~= b@);
        }
        let row = MetricDelta { name: m.name, before: m.value, after };
        rest.insert(0, row);
        proof {
            assert(rest@ =~= seq![row] + rest@.subrange(1, rest@.len() as int));
        }
        rest
    }
}

/// Compare two immutable scan results: the score movement, the findings
/// that appeared in `b`, the findings of `a` that were fixed, and each of
/// `a`'s metrics against its value in `b`. Pure: neither result changes,
/// and equal inputs give the equal diff.
pub fn diff(a: &ScanResult, b: &ScanResult) -> (d: ScanDiff)
    requires
        a.score.value <= 100,
        b.score.value <= 100,
    ensures
        d.score_delta == b.score.value as int - a.score.value as int,
        d.findings_added@ == missing_from(b.findings@, a.findings@, 0),
        d.findings_removed@ == missing_from(a.findings@, b.findings@, 0),
        d.metric_deltas@ == spec_deltas(a.metrics@, b.metrics@, 0),
{
    ScanDiff {
        score_delta: b.score.value as i32 - a.score.value as i32,
        findings_added: missing_from_exec(&b.findings, &a.findings, 0),
        findings_removed: missing_from_exec(&a.findings, &b.findings, 0),
        metric_deltas: deltas_exec(&a.metrics, &b.metrics, 0),
    }
}

} // verus!
