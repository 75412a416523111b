//! The detector: static rule evaluation over a parsed artifact.
//!
//! Each checklist rule is a pure function of the program alone; evaluation
//! never executes the artifact. Rules form a closed set keyed by `id`, each
//! yielding zero or more findings, so evaluation is exhaustive and
//! order-independent by construction. A per-rule step budget bounds
//! pathological inputs: a rule whose scan would overrun it yields a single
//! `RuleTimeout` finding instead of blocking the scan.

use vstd::prelude::*;

use crate::artifact::{spec_parse, Instr};
use crate::artifact;
use crate::checklist::ChecklistRule;
use crate::errors::ScanError;

verus! {

/// Rule ids of the closed rule set.
pub const RULE_BACKWARD_JUMP: u64 = 1;
pub const RULE_STACK_UNDERFLOW: u64 = 2;
pub const RULE_UNCHECKED_EXT_CALL: u64 = 3;
pub const RULE_TIME_DEPENDENCE: u64 = 4;
pub const RULE_MISSING_TERMINATOR: u64 = 5;

/// What a finding records: a rule violation proper, or the rule's own scan
/// overrunning its step budget.
#[derive(Clone, Copy, PartialEq, Eq, Structural, Debug)]
pub enum FindingKind {
    Violation,
    RuleTimeout,
}

/// One static-analysis finding: produced fresh per scan, never mutated.
#[derive(Clone, Copy, PartialEq, Eq, Structural, Debug)]
pub struct Finding {
    pub rule_id: u64,
    pub kind: FindingKind,
    /// The instruction index the finding points at.
    pub location: u64,
    /// How certain the rule is, in percent.
    pub confidence: u32,
}

/// The per-rule evaluation budget: how many instructions one rule may
/// examine before its scan is cut off as a `RuleTimeout` finding.
#[derive(Clone, Copy, PartialEq, Eq, Structural, Debug)]
pub struct EvalBudget {
    pub max_steps: u64,
}

/// A violation finding of `rule` at instruction `loc`.
pub open spec fn violation(rule_id: u64, loc: int, confidence: u32) -> Finding {
    Finding { rule_id, kind: FindingKind::Violation, location: loc as u64, confidence }
}

/// Whether the instruction at `i` transfers control to `i` or earlier — the
/// shape of a potentially unbounded loop.
pub open spec fn is_backward_at(p: Seq<Instr>, i: int) -> bool {
    match artifact::instr_target(p[i]) {
        Option::Some(t) => t as int <= i,
        Option::None => false,
    }
}

/// Findings of the backward-jump rule at or after index `i`.
pub open spec fn backward_from(p: Seq<Instr>, i: int) -> Seq<Finding>
    decreases p.len() - i,
{
    if i < 0 || i >= p.len() {
        Seq::empty()
    } else if is_backward_at(p, i) {
        seq![violation(RULE_BACKWARD_JUMP, i, 100)] + backward_from(p, i + 1)
    } else {
        backward_from(p, i + 1)
    }
}

/// How many operand bytes an instruction pops from the data stack.
pub open spec fn pops_of(i: Instr) -> int {
    match i {
        Instr::Pop => 1,
        Instr::Add => 2,
        Instr::JumpIfZero(_) => 1,
        Instr::ExtCall(_) => 1,
        _ => 0,
    }
}

/// How many bytes an instruction pushes onto the data stack.
pub open spec fn pushes_of(i: Instr) -> int {
    match i {
        Instr::Push(_) => 1,
        Instr::Add => 1,
        Instr::ExtCall(_) => 1,
        Instr::Time => 1,
        _ => 0,
    }
}

/// Findings of the stack-underflow heuristic at or after `i`, given the
/// stack depth a straight-line reading guarantees so far. The reading
/// ignores control flow, hence the reduced confidence; after an underflow
/// the depth restarts from what the faulting instruction itself pushed.
pub open spec fn underflow_from(p: Seq<Instr>, i: int, depth: int) -> Seq<Finding>
    decreases p.len() - i,
{
    if i < 0 || i >= p.len() {
        Seq::empty()
    } else if depth < pops_of(p[i]) {
        seq![violation(RULE_STACK_UNDERFLOW, i, 60)] + underflow_from(p, i + 1, pushes_of(p[i]))
    } else {
        underflow_from(p, i + 1, depth - pops_of(p[i]) + pushes_of(p[i]))
    }
}

/// Whether the external call at `i` leaves its status byte untested: the
/// next instruction is not a conditional jump.
pub open spec fn is_unchecked_ext_call_at(p: Seq<Instr>, i: int) -> bool {
    p[i] is ExtCall && !(i + 1 < p.len() && p[i + 1] is JumpIfZero)
}

/// Findings of the unchecked-external-call rule at or after `i`.
pub open spec fn unchecked_from(p: Seq<Instr>, i: int) -> Seq<Finding>
    decreases p.len() - i,
{
    if i < 0 || i >= p.len() {
        Seq::empty()
    } else if is_unchecked_ext_call_at(p, i) {
        seq![violation(RULE_UNCHECKED_EXT_CALL, i, 80)] + unchecked_from(p, i + 1)
    } else {
        unchecked_from(p, i + 1)
    }
}

/// Findings of the time-dependence rule at or after `i`: every `Time`
/// instruction is a nondeterminism source.
pub open spec fn time_from(p: Seq<Instr>, i: int) -> Seq<Finding>
    decreases p.len() - i,
{
    if i < 0 || i >= p.len() {
        Seq::empty()
    } else if p[i] is Time {
        seq![violation(RULE_TIME_DEPENDENCE, i, 100)] + time_from(p, i + 1)
    } else {
        time_from(p, i + 1)
    }
}

/// Whether an instruction may legitimately end a program.
pub open spec fn is_terminator(i: Instr) -> bool {
    i is Halt || i is Jump || i is Ret
}

/// Findings of the missing-terminator rule: a program that can fall off its
/// end yields one finding at its last instruction.
pub open spec fn terminator_findings(p: Seq<Instr>) -> Seq<Finding> {
    if p.len() == 0 {
        seq![violation(RULE_MISSING_TERMINATOR, 0, 90)]
    } else if !is_terminator(p[p.len() - 1]) {
        seq![violation(RULE_MISSING_TERMINATOR, p.len() - 1, 90)]
    } else {
        Seq::empty()
    }
}

/// Whether `id` names a rule of the closed set.
pub open spec fn known_rule(id: u64) -> bool {
    RULE_BACKWARD_JUMP <= id <= RULE_MISSING_TERMINATOR
}

/// What one rule's scan of the whole program costs, in steps.
pub open spec fn rule_cost(p: Seq<Instr>) -> int {
    p.len() as int
}

/// All findings one rule yields on a program under a step budget: its
/// violations, or a single `RuleTimeout` finding when the scan would
/// overrun the budget, or nothing for an id outside the closed set.
pub open spec fn rule_findings(p: Seq<Instr>, id: u64, budget: EvalBudget) -> Seq<Finding> {
    if !known_rule(id) {
        Seq::empty()
    } else if rule_cost(p) > budget.max_steps {
        seq![Finding { rule_id: id, kind: FindingKind::RuleTimeout, location: 0, confidence: 100 }]
    } else if id == RULE_BACKWARD_JUMP {
        backward_from(p, 0)
    } else if id == RULE_STACK_UNDERFLOW {
        underflow_from(p, 0, 0)
    } else if id == RULE_UNCHECKED_EXT_CALL {
        unchecked_from(p, 0)
    } else if id == RULE_TIME_DEPENDENCE {
        time_from(p, 0)
    } else {
        terminator_findings(p)
    }
}

/// The findings of a rule list evaluated in order: each rule's findings in
/// turn. Which order the detector walks the list does not matter — see
/// `lemma_order_independent`.
pub open spec fn findings_of_rules(p: Seq<Instr>, rules: Seq<ChecklistRule>, budget: EvalBudget)
    -> Seq<Finding>
    decreases rules.len(),
{
    if rules.len() == 0 {
        Seq::empty()
    } else {
        rule_findings(p, rules[0].id, budget) + findings_of_rules(p, rules.drop_first(), budget)
    }
}

/// Removing one rule from the list removes exactly its findings, as
/// multisets: the remaining findings are the remaining rules' findings.
proof fn lemma_findings_remove(p: Seq<Instr>, rules: Seq<ChecklistRule>, i: int, budget: EvalBudget)
    requires
        0 <= i < rules.len(),
    ensures
        findings_of_rules(p, rules, budget).to_multiset() == rule_findings(
            p,
            rules[i].id,
            budget,
        ).to_multiset().add(findings_of_rules(p, rules.remove(i), budget).to_multiset()),
    decreases i,
{
    vstd::seq_lib::lemma_multiset_commutative(
        rule_findings(p, rules[0].id, budget),
        findings_of_rules(p, rules.drop_first(), budget),
    );
    if i == 0 {
        assert(rules.remove(0) =~= rules.drop_first());
    } else {
        let rest = rules.drop_first();
        lemma_findings_remove(p, rest, i - 1, budget);
        assert(rules.remove(i).drop_first() =~= rest.remove(i - 1));
        assert(rules.remove(i)[0] == rules[0]);
        vstd::seq_lib::lemma_multiset_commutative(
            rule_findings(p, rules.remove(i)[0].id, budget),
            findings_of_rules(p, rules.remove(i).drop_first(), budget),
        );
        let rf0 = rule_findings(p, rules[0].id, budget).to_multiset();
        let rfi = rule_findings(p, rules[i].id, budget).to_multiset();
        let frest = findings_of_rules(p, rest.remove(i - 1), budget).to_multiset();
        assert(rf0.add(rfi.add(frest)) =~= rfi.add(rf0.add(frest)));
    }
}

/// Order-independence: the detector's finding set never depends on the
/// order rules are evaluated in. Two rule lists holding the same rules,
/// however arranged, yield the same findings as multisets.
pub proof fn lemma_order_independent(
    p: Seq<Instr>,
    rules1: Seq<ChecklistRule>,
    rules2: Seq<ChecklistRule>,
    budget: EvalBudget,
)
    requires
        rules1.to_multiset() == rules2.to_multiset(),
    ensures
        findings_of_rules(p, rules1, budget).to_multiset() == findings_of_rules(
            p,
            rules2,
            budget,
        ).to_multiset(),
    decreases rules1.len(),
{
    rules1.to_multiset_ensures();
    rules2.to_multiset_ensures();
    if rules1.len() == 0 {
        assert(rules2.len() == 0);
    } else {
        let r = rules1[0];
        assert(rules1.contains(r));
        assert(rules2.to_multiset().count(r) > 0);
        assert(rules2.contains(r));
        let i = choose|i: int| 0 <= i < rules2.len() && rules2[i] == r;
        let rest1 = rules1.drop_first();
        let rest2 = rules2.remove(i);
        assert(rules1.remove(0) =~= rest1);
        assert(rest1.to_multiset() == rules1.to_multiset().remove(r));
        assert(rest2.to_multiset() == rules2.to_multiset().remove(r));
        lemma_order_independent(p, rest1, rest2, budget);
        lemma_findings_remove(p, rules2, i, budget);
        vstd::seq_lib::lemma_multiset_commutative(
            rule_findings(p, r.id, budget),
            findings_of_rules(p, rest1, budget),
        );
    }
}

/// What evaluating an artifact against a rule list yields: its parsed
/// program's findings, or nothing when the artifact does not parse.
pub open spec fn spec_evaluate(
    artifact_bytes: Seq<u8>,
    rules: Seq<ChecklistRule>,
    budget: EvalBudget,
) -> Option<Seq<Finding>> {
    match spec_parse(artifact_bytes) {
        Option::Some(p) => Option::Some(findings_of_rules(p, rules, budget)),
        Option::None => Option::None,
    }
}

fn backward_exec(p: &Vec<Instr>, i: usize) -> (r: Vec<Finding>)
    requires
        i <= p@.len(),
    ensures
        r@ == backward_from(p@, i as int),
    decreases p@.len() - i,
{
    if i == p.len() {
        Vec::new()
    } else {
        let mut rest = backward_exec(p, i + 1);
        let hit = match p[i] {
            Instr::Jump(t) => (t as usize) <= i,
            Instr::JumpIfZero(t) => (t as usize) <= i,
            Instr::Call(t) => (t as usize) <= i,
            _ => false,
        };
        if hit {
            let f = Finding {
                rule_id: RULE_BACKWARD_JUMP,
                kind: FindingKind::Violation,
                location: i as u64,
                confidence: 100,
            };
            rest.insert(0, f);
            proof {
                assert(rest@ =~= seq![f] + rest@.subrange(1, rest@.len() as int));
            }
        }
        rest
    }
}

fn pops_exec(i: Instr) -> (n: u8)
    ensures
        n as int == pops_of(i),
{
    match i {
        Instr::Pop => 1,
        Instr::Add => 2,
        Instr::JumpIfZero(_) => 1,
        Instr::ExtCall(_) => 1,
        _ => 0,
    }
}

fn pushes_exec(i: Instr) -> (n: u8)
    ensures
        n as int == pushes_of(i),
{
    match i {
        Instr::Push(_) => 1,
        Instr::Add => 1,
        Instr::ExtCall(_) => 1,
        Instr::Time => 1,
        _ => 0,
    }
}

fn underflow_exec(p: &Vec<Instr>, i: usize, depth: u64) -> (r: Vec<Finding>)
    requires
        i <= p@.len(),
        depth <= i,
    ensures
        r@ == underflow_from(p@, i as int, depth as int),
    decreases p@.len() - i,
{
    if i == p.len() {
        Vec::new()
    } else {
        let instr = p[i];
        let need = pops_exec(instr);
        let give = pushes_exec(instr);
        if depth < need as u64 {
            let mut rest = underflow_exec(p, i + 1, give as u64);
            let f = Finding {
                rule_id: RULE_STACK_UNDERFLOW,
                kind: FindingKind::Violation,
                location: i as u64,
                confidence: 60,
            };
            rest.insert(0, f);
            proof {
                assert(rest@ =~= seq![f] + rest@.subrange(1, rest@.len() as int));
            }
            rest
        } else {
            let next_depth = depth - need as u64 + give as u64;
            underflow_exec(p, i + 1, next_depth)
        }
    }
}

fn unchecked_exec(p: &Vec<Instr>, i: usize) -> (r: Vec<Finding>)
    requires
        i <= p@.len(),
    ensures
        r@ == unchecked_from(p@, i as int),
    decreases p@.len() - i,
{
    if i == p.len() {
        Vec::new()
    } else {
        let mut rest = unchecked_exec(p, i + 1);
        let is_ext = matches!(p[i], Instr::ExtCall(_));
        let checked = i + 1 < p.len() && matches!(p[i + 1], Instr::JumpIfZero(_));
        if is_ext && !checked {
            let f = Finding {
                rule_id: RULE_UNCHECKED_EXT_CALL,
                kind: FindingKind::Violation,
                location: i as u64,
                confidence: 80,
            };
            rest.insert(0, f);
            proof {
                assert(rest@ =~= seq![f] + rest@.subrange(1, rest@.len() as int));
            }
        }
        rest
    }
}

fn time_exec(p: &Vec<Instr>, i: usize) -> (r: Vec<Finding>)
    requires
        i <= p@.len(),
    ensures
        r@ == time_from(p@, i as int),
    decreases p@.len() - i,
{
    if i == p.len() {
        Vec::new()
    } else {
        let mut rest = time_exec(p, i + 1);
        if matches!(p[i], Instr::Time) {
            let f = Finding {
                rule_id: RULE_TIME_DEPENDENCE,
                kind: FindingKind::Violation,
                location: i as u64,
                confidence: 100,
            };
            rest.insert(0, f);
            proof {
                assert(rest@ =~= seq![f] + rest@.subrange(1, rest@.len() as int));
            }
        }
        rest
    }
}

fn terminator_exec(p: &Vec<Instr>) -> (r: Vec<Finding>)
    ensures
        r@ == terminator_findings(p@),
{
    let mut out: Vec<Finding> = Vec::new();
    if p.len() == 0 {
        out.push(Finding {
            rule_id: RULE_MISSING_TERMINATOR,
            kind: FindingKind::Violation,
            location: 0,
            confidence: 90,
        });
    } else {
        let last = p[p.len() - 1];
        let ends = matches!(last, Instr::Halt) || matches!(last, Instr::Jump(_)) || matches!(
            last,
            Instr::Ret,
        );
        if !ends {
            out.push(Finding {
                rule_id: RULE_MISSING_TERMINATOR,
                kind: FindingKind::Violation,
                location: (p.len() - 1) as u64,
                confidence: 90,
            });
        }
    }
    proof {
        assert(out@ =~= terminator_findings(p@));
    }
    out
}

/// All findings one rule yields on the parsed program under the step budget.
fn eval_rule(p: &Vec<Instr>, id: u64, budget: &EvalBudget) -> (r: Vec<Finding>)
    ensures
        r@ == rule_findings(p@, id, *budget),
{
    if id < RULE_BACKWARD_JUMP || id > RULE_MISSING_TERMINATOR {
        Vec::new()
    } else if p.len() as u64 > budget.max_steps {
        let mut out: Vec<Finding> = Vec::new();
        out.push(Finding { rule_id: id, kind: FindingKind::RuleTimeout, location: 0, confidence: 100 });
        proof {
            assert(out@ =~= rule_findings(p@, id, *budget));
        }
        out
    } else if id == RULE_BACKWARD_JUMP {
        backward_exec(p, 0)
    } else if id == RULE_STACK_UNDERFLOW {
        underflow_exec(p, 0, 0)
    } else if id == RULE_UNCHECKED_EXT_CALL {
        unchecked_exec(p, 0)
    } else if id == RULE_TIME_DEPENDENCE {
        time_exec(p, 0)
    } else {
        terminator_exec(p)
    }
}

fn eval_rules_from(p: &Vec<Instr>, rules: &Vec<ChecklistRule>, budget: &EvalBudget, i: usize) -> (r:
    Vec<Finding>)
    requires
        i <= rules@.len(),
    ensures
        r@ == findings_of_rules(p@, rules@.subrange(i as int, rules@.len() as int), *budget),
    decreases rules@.len() - i,
{
    if i == rules.len() {
        let r: Vec<Finding> = Vec::new();
        proof {
            assert(rules@.subrange(i as int, rules@.len() as int) =~= Seq::<ChecklistRule>::empty());
        }
        r
    } else {
        let mut head = eval_rule(p, rules[i].id, budget);
        let tail = eval_rules_from(p, rules, budget, i + 1);
        let ghost head_snap = head@;
        let mut k: usize = 0;
        while k < tail.len()
            invariant
                k <= tail@.len(),
                head@ == head_snap + tail@.subrange(0, k as int),
            decreases tail@.len() - k,
        {
            head.push(tail[k]);
            proof {
                assert(head_snap + tail@.subrange(0, k + 1) =~= (head_snap + tail@.subrange(
                    0,
                    k as int,
                )).push(tail@[k as int]));
            }
            k += 1;
        }
        proof {
            let suffix = rules@.subrange(i as int, rules@.len() as int);
            assert(suffix.drop_first() =~= rules@.subrange(i + 1, rules@.len() as int));
            assert(tail@.subrange(0, tail@.len() as int) =~= tail@);
        }
        head
    }
}

/// Evaluate an already parsed program against the given rules: every
/// rule's pure scan, in list order.
pub fn evaluate_program(p: &Vec<Instr>, rules: &Vec<ChecklistRule>, budget: &EvalBudget) -> (r: Vec<
    Finding,
>)
    ensures
        r@ == findings_of_rules(p@, rules@, *budget),
{
    let fs = eval_rules_from(p, rules, budget, 0);
    proof {
        assert(rules@.subrange(0, rules@.len() as int) =~= rules@);
    }
    fs
}

/// Evaluate the artifact against the given rules: parse it once, then run
/// every rule's pure scan. Malformed input fails whole with
/// `ArtifactInvalid` — partial static findings would be a misleading
/// security signal — and on success the finding list is exactly the one the
/// rule set determines, independent of anything but the bytes and the rules.
pub fn evaluate(artifact_bytes: &Vec<u8>, rules: &Vec<ChecklistRule>, budget: &EvalBudget) -> (r:
    Result<Vec<Finding>, ScanError>)
    ensures
        match r {
            Result::Ok(fs) => spec_evaluate(artifact_bytes@, rules@, *budget) == Option::Some(fs@),
            Result::Err(e) => {
                &&& spec_evaluate(artifact_bytes@, rules@, *budget) is None
                &&& e == ScanError::ArtifactInvalid
            },
        },
{
    match artifact::parse(artifact_bytes) {
        Result::Err(e) => Result::Err(e),
        Result::Ok(p) => {
            let fs = eval_rules_from(&p, rules, budget, 0);
            proof {
                assert(rules@.subrange(0, rules@.len() as int) =~= rules@);
            }
            Result::Ok(fs)
        },
    }
}

} // verus!
