//! The scoring engine: a pure function from findings, metrics and the rule
//! set active at scan time to a composite score.
//!
//! Each category's subscore is 100 less the severity weights of its
//! violation findings, capped at 100; `RuleTimeout` findings are
//! informational and deduct nothing. The resource subscore normalizes the
//! measured metrics against configured ceilings and drops to 0 outright when
//! the run exceeded its budget. The overall value is a fixed weighted mean
//! of the subscores, and the grade a fixed threshold ladder over the value.

use vstd::prelude::*;

use crate::benchmark::{Metric, MetricName};
use crate::checklist::{Category, ChecklistRule};
use crate::detector::{Finding, FindingKind};

verus! {

/// Percentage weights of the three categories in the overall value; they
/// sum to 100.
pub const SAFETY_WEIGHT_PCT: u32 = 40;

pub const DETERMINISM_WEIGHT_PCT: u32 = 20;

pub const RESOURCE_WEIGHT_PCT: u32 = 40;

/// The fixed grade ladder over the overall value.
#[derive(Clone, Copy, PartialEq, Eq, Structural, Debug)]
pub enum Grade {
    A,
    B,
    C,
    D,
    F,
}

/// Subscores per category, each in 0..=100.
#[derive(Clone, Copy, PartialEq, Eq, Structural, Debug)]
pub struct Breakdown {
    pub safety: u32,
    pub determinism: u32,
    pub resource: u32,
}

/// The composite score: a deterministic function of findings, metrics and
/// the checklist weights active at scan time.
#[derive(Clone, Copy, PartialEq, Eq, Structural, Debug)]
pub struct Score {
    /// In 0..=100.
    pub value: u32,
    pub grade: Grade,
    pub breakdown: Breakdown,
}

/// Normalization ceilings the resource subscore measures metrics against.
#[derive(Clone, Copy, PartialEq, Eq, Structural, Debug)]
pub struct Ceilings {
    pub instruction_ceiling: u64,
    pub memory_ceiling: u64,
}

/// The first rule with this id, if any — findings name rules by id.
pub open spec fn spec_lookup(rules: Seq<ChecklistRule>, id: u64) -> Option<ChecklistRule>
    decreases rules.len(),
{
    if rules.len() == 0 {
        Option::None
    } else if rules[0].id == id {
        Option::Some(rules[0])
    } else {
        spec_lookup(rules.drop_first(), id)
    }
}

/// What one finding deducts from the given category: its rule's severity
/// weight when the finding is a violation charged to that category.
pub open spec fn deduction_of(f: Finding, rules: Seq<ChecklistRule>, cat: Category) -> int {
    if f.kind is Violation {
        match spec_lookup(rules, f.rule_id) {
            Option::Some(r) => if r.category == cat {
                r.severity_weight as int
            } else {
                0
            },
            Option::None => 0,
        }
    } else {
        0
    }
}

/// The raw deduction the findings at or after `i` charge to a category.
pub open spec fn deductions_from(
    findings: Seq<Finding>,
    rules: Seq<ChecklistRule>,
    cat: Category,
    i: int,
) -> int
    decreases findings.len() - i,
{
    if i < 0 || i >= findings.len() {
        0
    } else {
        deduction_of(findings[i], rules, cat) + deductions_from(findings, rules, cat, i + 1)
    }
}

/// A deduction never exceeds 100 points.
pub open spec fn capped(x: int) -> int {
    if x > 100 {
        100
    } else {
        x
    }
}

proof fn lemma_deductions_nonneg(
    findings: Seq<Finding>,
    rules: Seq<ChecklistRule>,
    cat: Category,
    i: int,
)
    ensures
        deductions_from(findings, rules, cat, i) >= 0,
    decreases findings.len() - i,
{
    if 0 <= i < findings.len() {
        lemma_deductions_nonneg(findings, rules, cat, i + 1);
    }
}

/// One category's subscore: 100 less its capped deduction.
pub open spec fn subscore_spec(
    findings: Seq<Finding>,
    rules: Seq<ChecklistRule>,
    cat: Category,
) -> int {
    100 - capped(deductions_from(findings, rules, cat, 0))
}

/// The value of the first metric with this name, or 0 when none was
/// reported.
pub open spec fn metric_value(metrics: Seq<Metric>, name: MetricName) -> u64
    decreases metrics.len(),
{
    if metrics.len() == 0 {
        0
    } else if metrics[0].name == name {
        metrics[0].value
    } else {
        metric_value(metrics.drop_first(), name)
    }
}

/// How far a measured value overruns its ceiling, as a percentage of the
/// ceiling, capped at 100; 0 at or under the ceiling.
pub open spec fn overage(v: u64, ceiling: u64) -> int {
    if v <= ceiling {
        0
    } else {
        capped((v - ceiling) * 100 / (ceiling as int))
    }
}

/// The resource subscore: 0 when the run exceeded its budget — an exhausted
/// budget is the strongest resource signal — else 100 less the capped
/// overages of the measured instruction count and memory peak.
pub open spec fn resource_subscore_spec(
    metrics: Seq<Metric>,
    budget_exceeded: bool,
    ceil: Ceilings,
) -> int {
    if budget_exceeded {
        0
    } else {
        100 - capped(
            overage(metric_value(metrics, MetricName::InstructionCount), ceil.instruction_ceiling)
                + overage(metric_value(metrics, MetricName::PeakMemoryBytes), ceil.memory_ceiling),
        )
    }
}

/// The overall value: the weighted mean of the three subscores.
pub open spec fn value_spec(safety: int, determinism: int, resource: int) -> int {
    (safety * SAFETY_WEIGHT_PCT + determinism * DETERMINISM_WEIGHT_PCT + resource
        * RESOURCE_WEIGHT_PCT) / 100
}

/// The fixed grade ladder.
pub open spec fn grade_of(value: int) -> Grade {
    if value >= 90 {
        Grade::A
    } else if value >= 75 {
        Grade::B
    } else if value >= 60 {
        Grade::C
    } else if value >= 40 {
        Grade::D
    } else {
        Grade::F
    }
}

/// The score as a function of findings, metrics and rules — no hidden
/// state; this determinism carries the history diff feature.
pub open spec fn spec_score(
    findings: Seq<Finding>,
    metrics: Seq<Metric>,
    budget_exceeded: bool,
    rules: Seq<ChecklistRule>,
    ceil: Ceilings,
) -> Score {
    let s = subscore_spec(findings, rules, Category::Safety);
    let d = subscore_spec(findings, rules, Category::Determinism);
    let r = resource_subscore_spec(metrics, budget_exceeded, ceil);
    Score {
        value: value_spec(s, d, r) as u32,
        grade: grade_of(value_spec(s, d, r)),
        breakdown: Breakdown { safety: s as u32, determinism: d as u32, resource: r as u32 },
    }
}

fn lookup_rule(rules: &Vec<ChecklistRule>, id: u64, i: usize) -> (r: Option<ChecklistRule>)
    requires
        i <= rules@.len(),
    ensures
        r == spec_lookup(rules@.subrange(i as int, rules@.len() as int), id),
    decreases rules@.len() - i,
{
    if i == rules.len() {
        proof {
            assert(rules@.subrange(i as int, rules@.len() as int) =~= Seq::<ChecklistRule>::empty());
        }
        Option::None
    } else {
        let suffix_head = rules[i];
        proof {
            let suffix = rules@.subrange(i as int, rules@.len() as int);
            assert(suffix[0] == rules@[i as int]);
            assert(suffix.drop_first() =~= rules@.subrange(i + 1, rules@.len() as int));
        }
        if suffix_head.id == id {
            Option::Some(suffix_head)
        } else {
            lookup_rule(rules, id, i + 1)
        }
    }
}

fn capped_deductions(
    findings: &Vec<Finding>,
    rules: &Vec<ChecklistRule>,
    cat: Category,
    i: usize,
) -> (r: u32)
    requires
        i <= findings@.len(),
    ensures
        r as int == capped(deductions_from(findings@, rules@, cat, i as int)),
    decreases findings@.len() - i,
{
    if i == findings.len() {
        0
    } else {
        let rest = capped_deductions(findings, rules, cat, i + 1);
        let f = findings[i];
        let c: u32 = if matches!(f.kind, FindingKind::Violation) {
            match lookup_rule(rules, f.rule_id, 0) {
                Option::Some(rule) => {
                    proof {
                        assert(rules@.subrange(0, rules@.len() as int) =~= rules@);
                    }
                    if rule.category == cat {
                        rule.severity_weight
                    } else {
                        0
                    }
                },
                Option::None => {
                    proof {
                        assert(rules@.subrange(0, rules@.len() as int) =~= rules@);
                    }
                    0
                },
            }
        } else {
            0
        };
        proof {
            lemma_deductions_nonneg(findings@, rules@, cat, i + 1);
        }
        let total: u64 = c as u64 + rest as u64;
        if total > 100 {
            100
        } else {
            total as u32
        }
    }
}

fn metric_value_exec(metrics: &Vec<Metric>, name: MetricName, i: usize) -> (r: u64)
    requires
        i <= metrics@.len(),
    ensures
        r == metric_value(metrics@.subrange(i as int, metrics@.len() as int), name),
    decreases metrics@.len() - i,
{
    if i == metrics.len() {
        proof {
            assert(metrics@.subrange(i as int, metrics@.len() as int) =~= Seq::<Metric>::empty());
        }
        0
    } else {
        proof {
            let suffix = metrics@.subrange(i as int, metrics@.len() as int);
            assert(suffix[0] == metrics@[i as int]);
            assert(suffix.drop_first() =~= metrics@.subrange(i + 1, metrics@.len() as int));
        }
        let m = metrics[i];
        if m.name == name {
            m.value
        } else {
            metric_value_exec(metrics, name, i + 1)
        }
    }
}

fn overage_exec(v: u64, ceiling: u64) -> (r: u32)
    requires
        ceiling > 0,
    ensures
        r as int == overage(v, ceiling),
{
    if v <= ceiling {
        0
    } else {
        let wide: u128 = ((v - ceiling) as u128) * 100 / (ceiling as u128);
        if wide > 100 {
            100
        } else {
            wide as u32
        }
    }
}

/// Combine findings, metrics and the rules active at scan time into the
/// score. Identical inputs always yield an identical score: the result is
/// pinned to `spec_score`, which has no state besides its arguments.
pub fn score(
    findings: &Vec<Finding>,
    metrics: &Vec<Metric>,
    budget_exceeded: bool,
    rules: &Vec<ChecklistRule>,
    ceil: &Ceilings,
) -> (s: Score)
    requires
        ceil.instruction_ceiling > 0,
        ceil.memory_ceiling > 0,
    ensures
        s == spec_score(findings@, metrics@, budget_exceeded, rules@, *ceil),
{
    let safety_ded = capped_deductions(findings, rules, Category::Safety, 0);
    let det_ded = capped_deductions(findings, rules, Category::Determinism, 0);
    let safety: u32 = 100 - safety_ded;
    let determinism: u32 = 100 - det_ded;
    let resource: u32 = if budget_exceeded {
        0
    } else {
        proof {
            assert(metrics@.subrange(0, metrics@.len() as int) =~= metrics@);
        }
        let ic = metric_value_exec(metrics, MetricName::InstructionCount, 0);
        let pm = metric_value_exec(metrics, MetricName::PeakMemoryBytes, 0);
        let o1 = overage_exec(ic, ceil.instruction_ceiling);
        let o2 = overage_exec(pm, ceil.memory_ceiling);
        let total = o1 + o2;
        if total > 100 {
            0
        } else {
            100 - total
        }
    };
    let value: u32 = (safety * SAFETY_WEIGHT_PCT + determinism * DETERMINISM_WEIGHT_PCT + resource
        * RESOURCE_WEIGHT_PCT) / 100;
    let grade = if value >= 90 {
        Grade::A
    } else if value >= 75 {
        Grade::B
    } else if value >= 60 {
        Grade::C
    } else if value >= 40 {
        Grade::D
    } else {
        Grade::F
    };
    Score { value, grade, breakdown: Breakdown { safety, determinism, resource } }
}

} // verus!
