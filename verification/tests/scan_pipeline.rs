use scanreg::aggregate::Aggregator;
use scanreg::artifact;
use scanreg::benchmark::{measure, Budget, MetricName};
use scanreg::checklist::{Category, ChecklistRule, Registry};
use scanreg::detector::{evaluate, EvalBudget};
use scanreg::errors::{FailReason, ScanError};
use scanreg::history::diff;
use scanreg::orchestrator::{JobState, Orchestrator};
use scanreg::scoring::{score, Ceilings, Grade};

const VER: u8 = 1;
const OP_HALT: u8 = 0x00;
const OP_PUSH: u8 = 0x01;
const OP_POP: u8 = 0x02;
const OP_JUMP: u8 = 0x04;
const OP_JUMP_IF_ZERO: u8 = 0x05;
const OP_EXT_CALL: u8 = 0x08;

fn rule(id: u64, category: Category, weight: u32, enabled: bool) -> ChecklistRule {
    ChecklistRule { id, category, severity_weight: weight, enabled, version: 0 }
}

fn full_checklist() -> Vec<ChecklistRule> {
    vec![
        rule(1, Category::Safety, 30, true),
        rule(2, Category::Safety, 10, true),
        rule(3, Category::Safety, 5, true),
        rule(4, Category::Determinism, 20, true),
        rule(5, Category::Safety, 15, true),
    ]
}

fn clean_artifact() -> Vec<u8> {
    vec![VER, OP_PUSH, 5, OP_POP, OP_HALT]
}

fn eval_budget() -> EvalBudget {
    EvalBudget { max_steps: 1000 }
}

fn bench_budget() -> Budget {
    Budget { max_instructions: 1000, max_memory: 1000 }
}

#[test]
fn clean_artifact_scores_perfect() {
    let mut reg = Registry::new();
    reg.publish(full_checklist());
    let mut orch = Orchestrator::new(10_000);
    let bytes = clean_artifact();
    let id = orch.submit(1, 1, &bytes, 0).unwrap();
    let state = orch.run_job(id, &bytes, &reg, &eval_budget(), &bench_budget(), 10).unwrap();
    assert_eq!(state, JobState::Completed);
    let job = orch.get_job(id).unwrap();
    assert_eq!(job.state, JobState::Completed);
    let rr = job.result_ref.unwrap();
    let result = orch.get_result(rr).unwrap();
    assert!(result.findings.is_empty());
    assert_eq!(result.score.value, 100);
    assert_eq!(result.score.grade, Grade::A);
    assert!(!result.budget_exceeded);
    assert_eq!(result.checklist_version, 1);
    let contract = orch.get_contract(1, 1).unwrap();
    assert_eq!(contract.latest_result_ref, Some(rr));
}

#[test]
fn two_findings_same_category_reduce_subscore() {
    let mut reg = Registry::new();
    reg.publish(vec![
        rule(1, Category::Safety, 30, true),
        rule(3, Category::Safety, 5, true),
    ]);
    let mut orch = Orchestrator::new(10_000);
    // a backward conditional jump (rule 1) and an untested external call
    // status (rule 3) in the same category
    let bytes = vec![
        VER, OP_PUSH, 2, OP_JUMP_IF_ZERO, 0, OP_PUSH, 1, OP_EXT_CALL, 7, OP_HALT,
    ];
    let id = orch.submit(2, 1, &bytes, 0).unwrap();
    let state = orch.run_job(id, &bytes, &reg, &eval_budget(), &bench_budget(), 1).unwrap();
    assert_eq!(state, JobState::Completed);
    let result = orch.get_result(orch.get_job(id).unwrap().result_ref.unwrap()).unwrap();
    assert_eq!(result.findings.len(), 2);
    assert_eq!(result.score.breakdown.safety, 65);
    assert_eq!(result.score.breakdown.determinism, 100);
    assert_eq!(result.score.breakdown.resource, 100);
    // overall: safety carries 40% of the value
    assert_eq!(result.score.value, 86);
    assert_eq!(result.score.grade, Grade::B);
}

#[test]
fn budget_exhaustion_completes_with_zero_resource_subscore() {
    let mut reg = Registry::new();
    reg.publish(Vec::new());
    let mut orch = Orchestrator::new(10_000);
    let bytes = vec![VER, OP_JUMP, 0];
    let id = orch.submit(3, 1, &bytes, 0).unwrap();
    let budget = Budget { max_instructions: 50, max_memory: 1000 };
    let state = orch.run_job(id, &bytes, &reg, &eval_budget(), &budget, 1).unwrap();
    assert_eq!(state, JobState::Completed);
    let result = orch.get_result(orch.get_job(id).unwrap().result_ref.unwrap()).unwrap();
    assert!(result.budget_exceeded);
    assert_eq!(result.score.breakdown.resource, 0);
    assert_eq!(result.score.value, 60);
    let count = result
        .metrics
        .iter()
        .find(|m| m.name == MetricName::InstructionCount)
        .unwrap()
        .value;
    assert_eq!(count, 50);
}

#[test]
fn unparsable_artifact_fails_without_result() {
    let mut reg = Registry::new();
    reg.publish(full_checklist());
    let mut orch = Orchestrator::new(10_000);
    let bytes = vec![0xFF];
    let id = orch.submit(4, 1, &bytes, 0).unwrap();
    let state = orch.run_job(id, &bytes, &reg, &eval_budget(), &bench_budget(), 1).unwrap();
    assert_eq!(state, JobState::Failed);
    let job = orch.get_job(id).unwrap();
    assert_eq!(job.state, JobState::Failed);
    assert_eq!(job.fail_reason, Some(FailReason::ArtifactInvalid));
    assert_eq!(job.result_ref, None);
    assert_eq!(orch.all_results().len(), 0);
    assert_eq!(orch.get_contract(4, 1).unwrap().latest_result_ref, None);
}

#[test]
fn duplicate_submission_is_rejected_then_admitted_after_completion() {
    let mut reg = Registry::new();
    reg.publish(full_checklist());
    let mut orch = Orchestrator::new(10_000);
    let bytes = clean_artifact();
    let id = orch.submit(5, 1, &bytes, 0).unwrap();
    assert_eq!(orch.submit(5, 1, &bytes, 1), Err(ScanError::ScanInProgress));
    orch.run_job(id, &bytes, &reg, &eval_budget(), &bench_budget(), 2).unwrap();
    assert_eq!(orch.all_results().len(), 1);
    // the lock is free immediately after the terminal transition
    assert!(orch.submit(5, 1, &bytes, 3).is_ok());
}

#[test]
fn lock_released_after_failure_and_cancel() {
    let mut reg = Registry::new();
    reg.publish(full_checklist());
    let mut orch = Orchestrator::new(10_000);
    let bad = vec![0xFF];
    let id = orch.submit(6, 1, &bad, 0).unwrap();
    orch.run_job(id, &bad, &reg, &eval_budget(), &bench_budget(), 1).unwrap();
    let id2 = orch.submit(6, 1, &bad, 2).unwrap();
    assert!(orch.cancel(id2, 3).is_ok());
    let job2 = orch.get_job(id2).unwrap();
    assert_eq!(job2.state, JobState::Failed);
    assert_eq!(job2.fail_reason, Some(FailReason::Cancelled));
    assert!(orch.submit(6, 1, &bad, 4).is_ok());
}

#[test]
fn diff_reports_fixed_finding_and_positive_delta() {
    let mut reg = Registry::new();
    reg.publish(vec![rule(1, Category::Safety, 30, true)]);
    let mut orch = Orchestrator::new(10_000);
    // version 1 loops backward; version 2 is clean
    let v1 = vec![VER, OP_PUSH, 2, OP_JUMP_IF_ZERO, 0, OP_HALT];
    let v2 = clean_artifact();
    let id1 = orch.submit(7, 1, &v1, 0).unwrap();
    orch.run_job(id1, &v1, &reg, &eval_budget(), &bench_budget(), 1).unwrap();
    let id2 = orch.submit(7, 2, &v2, 2).unwrap();
    orch.run_job(id2, &v2, &reg, &eval_budget(), &bench_budget(), 3).unwrap();
    let r1 = orch.get_result(orch.get_job(id1).unwrap().result_ref.unwrap()).unwrap().clone();
    let r2 = orch.get_result(orch.get_job(id2).unwrap().result_ref.unwrap()).unwrap().clone();
    let d = diff(&r1, &r2);
    assert_eq!(d.findings_removed.len(), 1);
    assert_eq!(d.findings_removed[0].rule_id, 1);
    assert!(d.findings_added.is_empty());
    assert!(d.score_delta > 0);
    assert_eq!(orch.history_entries().len(), 2);
}

#[test]
fn pipeline_is_deterministic_on_repeat_runs() {
    let bytes = vec![VER, OP_PUSH, 2, OP_JUMP_IF_ZERO, 0, OP_PUSH, 1, OP_EXT_CALL, 7, OP_HALT];
    let rules = full_checklist();
    let f1 = evaluate(&bytes, &rules, &eval_budget()).unwrap();
    let f2 = evaluate(&bytes, &rules, &eval_budget()).unwrap();
    assert_eq!(f1, f2);
    let p = artifact::parse(&bytes).unwrap();
    let m1 = measure(&p, &bench_budget());
    let m2 = measure(&p, &bench_budget());
    assert_eq!(m1.metrics, m2.metrics);
    assert_eq!(m1.budget_exceeded, m2.budget_exceeded);
    let ceil = Ceilings { instruction_ceiling: 1000, memory_ceiling: 1000 };
    let s1 = score(&f1, &m1.metrics, m1.budget_exceeded, &rules, &ceil);
    let s2 = score(&f2, &m2.metrics, m2.budget_exceeded, &rules, &ceil);
    assert_eq!(s1, s2);
}

#[test]
fn rule_order_does_not_change_findings() {
    let bytes = vec![VER, OP_PUSH, 2, OP_JUMP_IF_ZERO, 0, OP_PUSH, 1, OP_EXT_CALL, 7, OP_HALT];
    let forward = vec![
        rule(1, Category::Safety, 30, true),
        rule(3, Category::Safety, 5, true),
    ];
    let backward = vec![
        rule(3, Category::Safety, 5, true),
        rule(1, Category::Safety, 30, true),
    ];
    let f1 = evaluate(&bytes, &forward, &eval_budget()).unwrap();
    let f2 = evaluate(&bytes, &backward, &eval_budget()).unwrap();
    assert_eq!(f1.len(), f2.len());
    for f in &f1 {
        assert!(f2.contains(f));
    }
    for f in &f2 {
        assert!(f1.contains(f));
    }
}

#[test]
fn old_version_scores_survive_registry_evolution() {
    let mut reg = Registry::new();
    let v1 = reg.publish(vec![rule(1, Category::Safety, 30, true)]);
    let bytes = vec![VER, OP_PUSH, 2, OP_JUMP_IF_ZERO, 0, OP_HALT];
    let rules_then = reg.get(v1).unwrap();
    let findings = evaluate(&bytes, &rules_then, &eval_budget()).unwrap();
    let p = artifact::parse(&bytes).unwrap();
    let report = measure(&p, &bench_budget());
    let ceil = Ceilings { instruction_ceiling: 1000, memory_ceiling: 1000 };
    let s_then = score(&findings, &report.metrics, report.budget_exceeded, &rules_then, &ceil);
    // re-weight and disable the rule in a newer version
    reg.publish(vec![rule(1, Category::Safety, 90, false)]);
    let rules_again = reg.get(v1).unwrap();
    assert_eq!(rules_again, rules_then);
    let s_again = score(&findings, &report.metrics, report.budget_exceeded, &rules_again, &ceil);
    assert_eq!(s_again, s_then);
}

#[test]
fn aggregate_snapshot_is_replaced_whole() {
    let mut reg = Registry::new();
    reg.publish(full_checklist());
    let mut orch = Orchestrator::new(10_000);
    let bytes = clean_artifact();
    let id = orch.submit(9, 1, &bytes, 0).unwrap();
    orch.run_job(id, &bytes, &reg, &eval_budget(), &bench_budget(), 1).unwrap();
    let mut agg = Aggregator::new();
    assert!(agg.read_snapshot().is_none());
    agg.run_once(orch.all_results(), &contracts_of(&orch, &[(9, 1)]), 100);
    let first = agg.read_snapshot().unwrap().clone();
    assert_eq!(first.avg_score_centi, 10_000);
    assert_eq!(first.contract_count, 1);
    assert_eq!(first.computed_at, 100);
    assert_eq!(first.distribution.len(), 10);
    assert_eq!(first.distribution[9], 1);
    assert_eq!(first.distribution.iter().sum::<u64>(), 1);
    // a second cycle over a grown store replaces the snapshot wholesale
    let id2 = orch.submit(9, 2, &vec![VER, OP_JUMP, 0], 2).unwrap();
    let tight = Budget { max_instructions: 50, max_memory: 1000 };
    orch.run_job(id2, &vec![VER, OP_JUMP, 0], &reg, &eval_budget(), &tight, 3).unwrap();
    agg.run_once(orch.all_results(), &contracts_of(&orch, &[(9, 1), (9, 2)]), 200);
    let second = agg.read_snapshot().unwrap().clone();
    assert_eq!(second.computed_at, 200);
    assert_eq!(second.contract_count, 2);
    // scores 100 and 48 (backward jump plus exhausted budget) -> mean 74.00
    assert_eq!(second.avg_score_centi, 7_400);
    assert_eq!(second.distribution[9], 1);
    assert_eq!(second.distribution[4], 1);
}

#[test]
fn per_publisher_rollups_use_only_that_publishers_results() {
    let mut reg = Registry::new();
    reg.publish(full_checklist());
    let mut orch = Orchestrator::new(10_000);
    // one publisher's contract scores 100, another's scores 48
    let clean = clean_artifact();
    let id_a = orch.submit(20, 1, &clean, 0).unwrap();
    orch.run_job(id_a, &clean, &reg, &eval_budget(), &bench_budget(), 1).unwrap();
    let looping = vec![VER, OP_JUMP, 0];
    let id_b = orch.submit(21, 1, &looping, 2).unwrap();
    let tight = Budget { max_instructions: 50, max_memory: 1000 };
    orch.run_job(id_b, &looping, &reg, &eval_budget(), &tight, 3).unwrap();
    let r_a = orch.get_result(orch.get_job(id_a).unwrap().result_ref.unwrap()).unwrap().clone();
    let r_b = orch.get_result(orch.get_job(id_b).unwrap().result_ref.unwrap()).unwrap().clone();
    let snap_a = scanreg::aggregate::rollup_snapshot(
        &vec![r_a.clone()],
        &contracts_of(&orch, &[(20, 1)]),
        50,
    );
    assert_eq!(snap_a.avg_score_centi, 10_000);
    assert_eq!(snap_a.contract_count, 1);
    let snap_b = scanreg::aggregate::rollup_snapshot(
        &vec![r_b.clone()],
        &contracts_of(&orch, &[(21, 1)]),
        50,
    );
    assert_eq!(snap_b.avg_score_centi, 4_800);
    assert_eq!(snap_b.contract_count, 1);
    let global = scanreg::aggregate::rollup_snapshot(
        &vec![r_a, r_b],
        &contracts_of(&orch, &[(20, 1), (21, 1)]),
        50,
    );
    assert_eq!(global.avg_score_centi, 7_400);
    assert_eq!(global.contract_count, 2);
    assert_eq!(global.computed_at, 50);
}

fn contracts_of(
    orch: &Orchestrator,
    pairs: &[(u64, u64)],
) -> Vec<scanreg::orchestrator::ContractVersion> {
    pairs.iter().map(|&(c, v)| orch.get_contract(c, v).unwrap()).collect()
}
