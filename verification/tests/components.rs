use scanreg::artifact::{parse, Instr};
use scanreg::benchmark::{measure, Budget, MetricName};
use scanreg::checklist::{Category, ChecklistRule, Registry};
use scanreg::detector::{evaluate, EvalBudget, FindingKind};
use scanreg::errors::{FailReason, ScanError};
use scanreg::orchestrator::{JobState, Orchestrator};
use scanreg::scoring::{score, Ceilings, Grade};

const VER: u8 = 1;
const OP_HALT: u8 = 0x00;
const OP_PUSH: u8 = 0x01;
const OP_CALL: u8 = 0x06;
const OP_RET: u8 = 0x07;
const OP_TIME: u8 = 0x09;

fn rule(id: u64, category: Category, weight: u32) -> ChecklistRule {
    ChecklistRule { id, category, severity_weight: weight, enabled: true, version: 0 }
}

#[test]
fn parse_rejects_malformed_artifacts() {
    assert_eq!(parse(&vec![]), Err(ScanError::ArtifactInvalid));
    assert_eq!(parse(&vec![2, OP_HALT]), Err(ScanError::ArtifactInvalid));
    assert_eq!(parse(&vec![VER, 0x42]), Err(ScanError::ArtifactInvalid));
    assert_eq!(parse(&vec![VER, OP_PUSH]), Err(ScanError::ArtifactInvalid));
    // a jump target past the last instruction
    assert_eq!(parse(&vec![VER, 0x04, 9]), Err(ScanError::ArtifactInvalid));
}

#[test]
fn parse_decodes_instructions_in_order() {
    let p = parse(&vec![VER, OP_PUSH, 7, OP_TIME, OP_HALT]).unwrap();
    assert_eq!(p, vec![Instr::Push(7), Instr::Time, Instr::Halt]);
}

#[test]
fn empty_program_parses_and_is_flagged_by_terminator_rule() {
    let bytes = vec![VER];
    assert_eq!(parse(&bytes).unwrap(), vec![]);
    let rules = vec![rule(5, Category::Safety, 15)];
    let fs = evaluate(&bytes, &rules, &EvalBudget { max_steps: 10 }).unwrap();
    assert_eq!(fs.len(), 1);
    assert_eq!(fs[0].rule_id, 5);
    assert_eq!(fs[0].kind, FindingKind::Violation);
}

#[test]
fn time_opcode_yields_determinism_finding() {
    let bytes = vec![VER, OP_TIME, OP_HALT];
    let rules = vec![rule(4, Category::Determinism, 20)];
    let fs = evaluate(&bytes, &rules, &EvalBudget { max_steps: 10 }).unwrap();
    assert_eq!(fs.len(), 1);
    assert_eq!(fs[0].rule_id, 4);
    assert_eq!(fs[0].location, 0);
}

#[test]
fn stack_underflow_heuristic_flags_missing_operand() {
    // Pop with nothing on the stack
    let bytes = vec![VER, 0x02, OP_HALT];
    let rules = vec![rule(2, Category::Safety, 10)];
    let fs = evaluate(&bytes, &rules, &EvalBudget { max_steps: 10 }).unwrap();
    assert_eq!(fs.len(), 1);
    assert_eq!(fs[0].rule_id, 2);
    assert_eq!(fs[0].confidence, 60);
}

#[test]
fn exhausted_rule_budget_degrades_to_timeout_finding() {
    let bytes = vec![VER, OP_PUSH, 1, OP_HALT];
    let rules = vec![rule(1, Category::Safety, 30)];
    // two instructions, but the rule may examine none
    let fs = evaluate(&bytes, &rules, &EvalBudget { max_steps: 1 }).unwrap();
    assert_eq!(fs.len(), 1);
    assert_eq!(fs[0].kind, FindingKind::RuleTimeout);
    // a timeout finding is informational: it deducts nothing
    let report = measure(&parse(&bytes).unwrap(), &Budget { max_instructions: 100, max_memory: 100 });
    let ceil = Ceilings { instruction_ceiling: 100, memory_ceiling: 100 };
    let s = score(&fs, &report.metrics, report.budget_exceeded, &rules, &ceil);
    assert_eq!(s.value, 100);
}

#[test]
fn benchmark_reports_exact_metrics() {
    // Call into a subroutine that returns, then halt
    let bytes = vec![VER, OP_CALL, 2, OP_HALT, OP_RET];
    let p = parse(&bytes).unwrap();
    let report = measure(&p, &Budget { max_instructions: 100, max_memory: 100 });
    assert!(!report.budget_exceeded);
    let get = |name: MetricName| report.metrics.iter().find(|m| m.name == name).unwrap().value;
    assert_eq!(get(MetricName::InstructionCount), 3);
    assert_eq!(get(MetricName::MaxCallDepth), 1);
    assert_eq!(get(MetricName::PeakMemoryBytes), 1);
}

#[test]
fn addition_wraps_modulo_256() {
    // 255 + 1 wraps to 0, so the conditional jump skips the Time
    // instruction and the run halts after five instructions
    let bytes = vec![VER, OP_PUSH, 255, OP_PUSH, 1, 0x03, 0x05, 5, OP_TIME, OP_HALT];
    let p = parse(&bytes).unwrap();
    let report = measure(&p, &Budget { max_instructions: 100, max_memory: 100 });
    let count = report
        .metrics
        .iter()
        .find(|m| m.name == MetricName::InstructionCount)
        .unwrap()
        .value;
    assert_eq!(count, 5);
}

#[test]
fn memory_budget_cuts_off_unbounded_growth() {
    // push in a loop: 0: Push 1, 1: Jump 0
    let bytes = vec![VER, OP_PUSH, 1, 0x04, 0];
    let p = parse(&bytes).unwrap();
    let report = measure(&p, &Budget { max_instructions: 1000, max_memory: 8 });
    assert!(report.budget_exceeded);
}

#[test]
fn grade_ladder_thresholds() {
    let bytes = vec![VER, OP_HALT];
    let p = parse(&bytes).unwrap();
    let report = measure(&p, &Budget { max_instructions: 100, max_memory: 100 });
    let ceil = Ceilings { instruction_ceiling: 100, memory_ceiling: 100 };
    let graded = |weight: u32| {
        let rules = vec![rule(1, Category::Safety, weight)];
        // one backward jump finding against a rule of the given weight
        let looping = vec![VER, 0x04, 0];
        let fs = evaluate(&looping, &rules, &EvalBudget { max_steps: 10 }).unwrap();
        assert_eq!(fs.len(), 1);
        score(&fs, &report.metrics, report.budget_exceeded, &rules, &ceil)
    };
    assert_eq!(graded(10).value, 96);
    assert_eq!(graded(10).grade, Grade::A);
    assert_eq!(graded(40).value, 84);
    assert_eq!(graded(40).grade, Grade::B);
    assert_eq!(graded(90).value, 64);
    assert_eq!(graded(90).grade, Grade::C);
    assert_eq!(graded(200).value, 60);
    assert_eq!(graded(200).grade, Grade::C);
}

#[test]
fn failing_grades_need_deductions_in_every_category() {
    let rules = vec![rule(1, Category::Safety, 100), rule(4, Category::Determinism, 100)];
    // backward jump and a Time instruction, measured over budget
    let bytes = vec![VER, OP_TIME, 0x04, 0];
    let fs = evaluate(&bytes, &rules, &EvalBudget { max_steps: 10 }).unwrap();
    let p = parse(&bytes).unwrap();
    let report = measure(&p, &Budget { max_instructions: 5, max_memory: 100 });
    assert!(report.budget_exceeded);
    let ceil = Ceilings { instruction_ceiling: 5, memory_ceiling: 100 };
    let s = score(&fs, &report.metrics, report.budget_exceeded, &rules, &ceil);
    assert_eq!(s.value, 0);
    assert_eq!(s.grade, Grade::F);
}

#[test]
fn registry_versions_are_immutable_and_complete() {
    let mut reg = Registry::new();
    assert_eq!(reg.current().unwrap_err(), ScanError::NotFound);
    assert_eq!(reg.get(0).unwrap_err(), ScanError::NotFound);
    let v1 = reg.publish(vec![
        rule(1, Category::Safety, 30),
        ChecklistRule { id: 2, category: Category::Safety, severity_weight: 10, enabled: false, version: 0 },
    ]);
    assert_eq!(v1, 1);
    assert_eq!(reg.get(2).unwrap_err(), ScanError::NotFound);
    // current() filters to enabled rules; get() keeps the full list
    let (cv, current_rules) = reg.current().unwrap();
    assert_eq!(cv, 1);
    assert_eq!(current_rules.len(), 1);
    assert_eq!(current_rules[0].id, 1);
    assert_eq!(current_rules[0].version, 1);
    let all = reg.get(1).unwrap();
    assert_eq!(all.len(), 2);
    assert!(!all[1].enabled);
}

#[test]
fn deadline_forces_failure_and_frees_the_lock() {
    let mut reg = Registry::new();
    reg.publish(vec![rule(1, Category::Safety, 30)]);
    let mut orch = Orchestrator::new(5);
    let bytes = vec![VER, OP_HALT];
    let id = orch.submit(11, 1, &bytes, 0).unwrap();
    let state = orch
        .run_job(id, &bytes, &reg, &EvalBudget { max_steps: 10 }, &Budget { max_instructions: 10, max_memory: 10 }, 100)
        .unwrap();
    assert_eq!(state, JobState::Failed);
    let job = orch.get_job(id).unwrap();
    assert_eq!(job.fail_reason, Some(FailReason::DeadlineExceeded));
    assert_eq!(orch.all_results().len(), 0);
    assert!(orch.submit(11, 1, &bytes, 101).is_ok());
}

#[test]
fn empty_registry_fails_the_job() {
    let reg = Registry::new();
    let mut orch = Orchestrator::new(10_000);
    let bytes = vec![VER, OP_HALT];
    let id = orch.submit(12, 1, &bytes, 0).unwrap();
    let state = orch
        .run_job(id, &bytes, &reg, &EvalBudget { max_steps: 10 }, &Budget { max_instructions: 10, max_memory: 10 }, 1)
        .unwrap();
    assert_eq!(state, JobState::Failed);
    assert_eq!(orch.get_job(id).unwrap().fail_reason, Some(FailReason::RegistryUnavailable));
}

#[test]
fn unknown_job_ids_are_not_found() {
    let reg = Registry::new();
    let mut orch = Orchestrator::new(10_000);
    let bytes = vec![VER, OP_HALT];
    assert_eq!(orch.cancel(0, 1), Err(ScanError::NotFound));
    assert_eq!(
        orch.run_job(7, &bytes, &reg, &EvalBudget { max_steps: 10 }, &Budget { max_instructions: 10, max_memory: 10 }, 1),
        Err(ScanError::NotFound)
    );
    let id = orch.submit(13, 1, &bytes, 0).unwrap();
    assert!(orch.cancel(id, 1).is_ok());
    // a terminal job can be neither run nor cancelled again
    assert_eq!(orch.cancel(id, 2), Err(ScanError::NotFound));
    assert_eq!(
        orch.run_job(id, &bytes, &reg, &EvalBudget { max_steps: 10 }, &Budget { max_instructions: 10, max_memory: 10 }, 2),
        Err(ScanError::NotFound)
    );
}
