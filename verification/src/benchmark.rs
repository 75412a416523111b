//! The benchmark engine: bounded, deterministic execution measurement.
//!
//! The artifact runs in an in-process sandbox: a stack machine with no
//! ambient state, so a run is a pure function of `(program, budget)` and
//! repeat runs measure identically. The budget caps both the instruction
//! count and the memory footprint (data stack plus call stack); exceeding
//! either stops execution and flags the report rather than failing it — an
//! exhausted budget is itself a scorable signal. The step counter doubles as
//! the sandbox clock, so the wall-time bound is the instruction bound.

use vstd::prelude::*;

use crate::artifact::Instr;

verus! {

/// Resource caps for one measured run.
#[derive(Clone, Copy, PartialEq, Eq, Structural, Debug)]
pub struct Budget {
    /// How many instructions may execute.
    pub max_instructions: u64,
    /// How many bytes of machine state (data stack plus call stack) may be
    /// live at once.
    pub max_memory: u64,
}

/// Why the machine is no longer running, if it is not.
#[derive(Clone, Copy, PartialEq, Eq, Structural, Debug)]
pub enum RunStatus {
    Running,
    /// The program ended by `Halt`, a top-level `Ret`, or running past its
    /// last instruction.
    Halted,
    /// A runtime fault: an operand was missing from the data stack.
    Faulted,
    /// A resource budget was exhausted.
    OutOfBudget,
}

/// Names of the measured quantities.
#[derive(Clone, Copy, PartialEq, Eq, Structural, Debug)]
pub enum MetricName {
    InstructionCount,
    PeakMemoryBytes,
    MaxCallDepth,
}

/// The unit a metric value is expressed in.
#[derive(Clone, Copy, PartialEq, Eq, Structural, Debug)]
pub enum MetricUnit {
    Count,
    Bytes,
}

/// One measured runtime resource quantity.
#[derive(Clone, Copy, PartialEq, Eq, Structural, Debug)]
pub struct Metric {
    pub name: MetricName,
    pub value: u64,
    pub unit: MetricUnit,
}

/// What one measured run reports.
#[derive(Clone, PartialEq, Eq, Debug)]
pub struct BenchReport {
    pub metrics: Vec<Metric>,
    /// Whether a resource budget cut the run short.
    pub budget_exceeded: bool,
}

/// The sandbox machine.
pub struct Machine {
    pub pc: usize,
    pub stack: Vec<u8>,
    pub rets: Vec<usize>,
    pub executed: u64,
    pub peak: u64,
    pub depth_max: u64,
    pub status: RunStatus,
}

/// The machine as its mathematical model.
#[verifier::ext_equal]
pub ghost struct MachineModel {
    pub pc: int,
    pub stack: Seq<u8>,
    pub rets: Seq<int>,
    pub executed: int,
    pub peak: int,
    pub depth_max: int,
    pub status: RunStatus,
}

impl View for Machine {
    type V = MachineModel;

    open spec fn view(&self) -> MachineModel {
        MachineModel {
            pc: self.pc as int,
            stack: self.stack@,
            rets: self.rets@.map_values(|x: usize| x as int),
            executed: self.executed as int,
            peak: self.peak as int,
            depth_max: self.depth_max as int,
            status: self.status,
        }
    }
}

/// Bytes of machine state currently live.
pub open spec fn mem_in_use(m: MachineModel) -> int {
    m.stack.len() as int + m.rets.len() as int
}

/// The machine before the first instruction.
pub open spec fn init_machine() -> MachineModel {
    MachineModel {
        pc: 0,
        stack: Seq::empty(),
        rets: Seq::empty(),
        executed: 0,
        peak: 0,
        depth_max: 0,
        status: RunStatus::Running,
    }
}

/// The bookkeeping every executed instruction shares: count it, track the
/// memory and call-depth peaks, and cut the run off when the memory budget
/// is exceeded (a status already terminal stays).
pub open spec fn bump(m: MachineModel, b: Budget) -> MachineModel {
    let used = mem_in_use(m);
    MachineModel {
        executed: m.executed + 1,
        peak: if used > m.peak {
            used
        } else {
            m.peak
        },
        depth_max: if m.rets.len() > m.depth_max {
            m.rets.len() as int
        } else {
            m.depth_max
        },
        status: if m.status is Running && used > b.max_memory {
            RunStatus::OutOfBudget
        } else {
            m.status
        },
        ..m
    }
}

/// One machine step. A machine that is not running stays put; one whose
/// instruction budget is spent is cut off; otherwise the instruction at `pc`
/// executes. Every outcome is a function of the arguments alone — the
/// sandbox has no other input, which is what makes measurement reproducible.
pub open spec fn spec_step(p: Seq<Instr>, b: Budget, m: MachineModel) -> MachineModel {
    if !(m.status is Running) {
        m
    } else if m.executed >= b.max_instructions {
        MachineModel { status: RunStatus::OutOfBudget, ..m }
    } else if m.pc < 0 || m.pc >= p.len() {
        MachineModel { status: RunStatus::Halted, ..m }
    } else {
        match p[m.pc] {
            Instr::Halt => bump(MachineModel { status: RunStatus::Halted, ..m }, b),
            Instr::Push(v) => bump(MachineModel { pc: m.pc + 1, stack: m.stack.push(v), ..m }, b),
            Instr::Pop => if m.stack.len() < 1 {
                bump(MachineModel { status: RunStatus::Faulted, ..m }, b)
            } else {
                bump(MachineModel { pc: m.pc + 1, stack: m.stack.drop_last(), ..m }, b)
            },
            Instr::Add => if m.stack.len() < 2 {
                bump(MachineModel { status: RunStatus::Faulted, ..m }, b)
            } else {
                bump(
                    MachineModel {
                        pc: m.pc + 1,
                        stack: m.stack.drop_last().drop_last().push(
                            ((m.stack[m.stack.len() - 1] + m.stack[m.stack.len() - 2]) % 256) as u8,
                        ),
                        ..m
                    },
                    b,
                )
            },
            Instr::Jump(t) => bump(MachineModel { pc: t as int, ..m }, b),
            Instr::JumpIfZero(t) => if m.stack.len() < 1 {
                bump(MachineModel { status: RunStatus::Faulted, ..m }, b)
            } else {
                bump(
                    MachineModel {
                        pc: if m.stack[m.stack.len() - 1] == 0 {
                            t as int
                        } else {
                            m.pc + 1
                        },
                        stack: m.stack.drop_last(),
                        ..m
                    },
                    b,
                )
            },
            Instr::Call(t) => bump(
                MachineModel { pc: t as int, rets: m.rets.push(m.pc + 1), ..m },
                b,
            ),
            Instr::Ret => if m.rets.len() == 0 {
                bump(MachineModel { status: RunStatus::Halted, ..m }, b)
            } else {
                bump(
                    MachineModel {
                        pc: m.rets[m.rets.len() - 1],
                        rets: m.rets.drop_last(),
                        ..m
                    },
                    b,
                )
            },
            Instr::ExtCall(_) => if m.stack.len() < 1 {
                bump(MachineModel { status: RunStatus::Faulted, ..m }, b)
            } else {
                bump(
                    MachineModel { pc: m.pc + 1, stack: m.stack.drop_last().push(0), ..m },
                    b,
                )
            },
            Instr::Time => bump(
                MachineModel {
                    pc: m.pc + 1,
                    stack: m.stack.push((m.executed % 256) as u8),
                    ..m
                },
                b,
            ),
        }
    }
}

/// The machine after `k` steps.
pub open spec fn spec_run(p: Seq<Instr>, b: Budget, m: MachineModel, k: nat) -> MachineModel
    decreases k,
{
    if k == 0 {
        m
    } else {
        spec_step(p, b, spec_run(p, b, m, (k - 1) as nat))
    }
}

/// Enough steps for any run to reach a terminal status.
pub open spec fn fuel_of(b: Budget) -> nat {
    (b.max_instructions + 2) as nat
}

/// The machine a measured run ends in.
pub open spec fn spec_final(p: Seq<Instr>, b: Budget) -> MachineModel {
    spec_run(p, b, init_machine(), fuel_of(b))
}

/// A machine that has stopped no longer moves, however many steps follow.
proof fn lemma_run_extend(p: Seq<Instr>, b: Budget, m: MachineModel, k1: nat, k2: nat)
    requires
        k1 <= k2,
        !(spec_run(p, b, m, k1).status is Running),
    ensures
        spec_run(p, b, m, k2) == spec_run(p, b, m, k1),
    decreases k2,
{
    if k2 > k1 {
        lemma_run_extend(p, b, m, k1, (k2 - 1) as nat);
    }
}

/// The state bounds every reachable machine obeys: live memory never
/// outruns the step count, and the step count never outruns its budget.
pub open spec fn machine_inv(m: MachineModel, b: Budget) -> bool {
    &&& mem_in_use(m) <= m.executed
    &&& m.executed <= b.max_instructions
    &&& 0 <= m.pc
    &&& 0 <= m.peak
    &&& 0 <= m.depth_max
}

fn step(p: &Vec<Instr>, b: &Budget, m: &mut Machine)
    requires
        old(m)@.status is Running,
        machine_inv(old(m)@, *b),
    ensures
        final(m)@ == spec_step(p@, *b, old(m)@),
        machine_inv(final(m)@, *b),
        final(m)@.status is Running ==> final(m)@.executed == old(m)@.executed + 1,
{
    if m.executed >= b.max_instructions {
        m.status = RunStatus::OutOfBudget;
        proof {
            assert(m@ =~= spec_step(p@, *b, old(m)@));
        }
        return;
    }
    if m.pc >= p.len() {
        m.status = RunStatus::Halted;
        proof {
            assert(m@ =~= spec_step(p@, *b, old(m)@));
        }
        return;
    }
    let instr = p[m.pc];
    match instr {
        Instr::Halt => {
            m.status = RunStatus::Halted;
        },
        Instr::Push(v) => {
            m.stack.push(v);
            m.pc = m.pc + 1;
        },
        Instr::Pop => {
            if m.stack.len() < 1 {
                m.status = RunStatus::Faulted;
            } else {
                let _ = m.stack.pop();
                m.pc = m.pc + 1;
            }
        },
        Instr::Add => {
            if m.stack.len() < 2 {
                m.status = RunStatus::Faulted;
            } else {
                let a = match m.stack.pop() {
                    Option::Some(x) => x,
                    Option::None => 0,
                };
                let b2 = match m.stack.pop() {
                    Option::Some(x) => x,
                    Option::None => 0,
                };
                let sum16: u16 = (a as u16 + b2 as u16) % 256;
                m.stack.push(sum16 as u8);
                m.pc = m.pc + 1;
                proof {
                    assert(m.stack@ =~= old(m).stack@.drop_last().drop_last().push(
                        ((old(m)@.stack[old(m)@.stack.len() - 1] + old(m)@.stack[old(
                            m,
                        )@.stack.len() - 2]) % 256) as u8,
                    ));
                }
            }
        },
        Instr::Jump(t) => {
            m.pc = t as usize;
        },
        Instr::JumpIfZero(t) => {
            if m.stack.len() < 1 {
                m.status = RunStatus::Faulted;
            } else {
                let v = match m.stack.pop() {
                    Option::Some(x) => x,
                    Option::None => 0,
                };
                if v == 0 {
                    m.pc = t as usize;
                } else {
                    m.pc = m.pc + 1;
                }
            }
        },
        Instr::Call(t) => {
            let ret = m.pc + 1;
            m.rets.push(ret);
            m.pc = t as usize;
            proof {
                assert(m.rets@.map_values(|x: usize| x as int) =~= old(m).rets@.map_values(
                    |x: usize| x as int,
                ).push(old(m)@.pc + 1));
            }
        },
        Instr::Ret => {
            if m.rets.len() == 0 {
                m.status = RunStatus::Halted;
            } else {
                let r = match m.rets.pop() {
                    Option::Some(x) => x,
                    Option::None => 0,
                };
                m.pc = r;
                proof {
                    assert(m.rets@.map_values(|x: usize| x as int) =~= old(m)@.rets.drop_last());
                    assert(old(m)@.rets[old(m)@.rets.len() - 1] == r as int);
                }
            }
        },
        Instr::ExtCall(_) => {
            if m.stack.len() < 1 {
                m.status = RunStatus::Faulted;
            } else {
                let _ = m.stack.pop();
                m.stack.push(0);
                m.pc = m.pc + 1;
            }
        },
        Instr::Time => {
            let v = (m.executed % 256) as u8;
            m.stack.push(v);
            m.pc = m.pc + 1;
        },
    }
    let used: u64 = m.stack.len() as u64 + m.rets.len() as u64;
    if used > m.peak {
        m.peak = used;
    }
    let depth: u64 = m.rets.len() as u64;
    if depth > m.depth_max {
        m.depth_max = depth;
    }
    if matches!(m.status, RunStatus::Running) && used > b.max_memory {
        m.status = RunStatus::OutOfBudget;
    }
    m.executed = m.executed + 1;
    proof {
        assert(m@ =~= spec_step(p@, *b, old(m)@));
    }
}

/// Run the machine from its initial state to a terminal status.
pub fn run_machine(p: &Vec<Instr>, b: &Budget) -> (m: Machine)
    ensures
        m@ == spec_final(p@, *b),
        !(m@.status is Running),
{
    let mut m = Machine {
        pc: 0,
        stack: Vec::new(),
        rets: Vec::new(),
        executed: 0,
        peak: 0,
        depth_max: 0,
        status: RunStatus::Running,
    };
    proof {
        assert(m@ =~= init_machine());
    }
    let ghost mut k: int = 0;
    while matches!(m.status, RunStatus::Running)
        invariant
            0 <= k,
            m@ == spec_run(p@, *b, init_machine(), k as nat),
            machine_inv(m@, *b),
            m@.status is Running ==> m@.executed == k,
            k <= b.max_instructions + 1,
        decreases b.max_instructions - m.executed, (if matches!(m.status, RunStatus::Running) {
            1int
        } else {
            0int
        }),
    {
        step(p, b, &mut m);
        proof {
            k = k + 1;
        }
    }
    proof {
        lemma_run_extend(p@, *b, init_machine(), k as nat, fuel_of(*b));
    }
    m
}

/// What one measured run reports, as a function of program and budget.
pub open spec fn spec_metrics(p: Seq<Instr>, b: Budget) -> Seq<Metric> {
    let f = spec_final(p, b);
    seq![
        Metric { name: MetricName::InstructionCount, value: f.executed as u64, unit: MetricUnit::Count },
        Metric { name: MetricName::PeakMemoryBytes, value: f.peak as u64, unit: MetricUnit::Bytes },
        Metric { name: MetricName::MaxCallDepth, value: f.depth_max as u64, unit: MetricUnit::Count },
    ]
}

/// Whether the run was cut short by its budget.
pub open spec fn spec_exceeded(p: Seq<Instr>, b: Budget) -> bool {
    spec_final(p, b).status is OutOfBudget
}

/// Execute the program under the budget and report what it cost. The report
/// is a pure function of `(program, budget)`: repeat runs are bit-identical,
/// and an exhausted budget yields the partial metrics plus the
/// `budget_exceeded` flag, never an error.
pub fn measure(p: &Vec<Instr>, b: &Budget) -> (r: BenchReport)
    ensures
        r.metrics@ == spec_metrics(p@, *b),
        r.budget_exceeded == spec_exceeded(p@, *b),
{
    let m = run_machine(p, b);
    let mut metrics: Vec<Metric> = Vec::new();
    metrics.push(
        Metric { name: MetricName::InstructionCount, value: m.executed, unit: MetricUnit::Count },
    );
    metrics.push(
        Metric { name: MetricName::PeakMemoryBytes, value: m.peak, unit: MetricUnit::Bytes },
    );
    metrics.push(
        Metric { name: MetricName::MaxCallDepth, value: m.depth_max, unit: MetricUnit::Count },
    );
    let budget_exceeded = matches!(m.status, RunStatus::OutOfBudget);
    proof {
        assert(metrics@ =~= spec_metrics(p@, *b));
    }
    BenchReport { metrics, budget_exceeded }
}

} // verus!
