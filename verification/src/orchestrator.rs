//! The scanner orchestrator: the scan-job state machine, its per-version
//! mutual exclusion, and the persisted scan state.
//!
//! Jobs move `Pending -> Running -> {Completed, Failed}` and never back. A
//! submission is admitted only while no non-terminal job exists for its
//! `(contract_id, version)`; the exclusive per-version lock *is* that
//! liveness, so no exit path can leave it dangling: a job's terminal row
//! releases the pair by construction. The synchronous runner drives one
//! admitted job from `Pending` through `Running` to its terminal state
//! within one call; overlapping jobs for different versions are the
//! caller's scheduling, which this state machine admits freely.

use vstd::prelude::*;
use vstd::pervasive::VecAdditionalExecFns;

use crate::artifact;
use crate::artifact::spec_parse;
use crate::benchmark;
use crate::benchmark::{Budget, Metric};
use crate::checklist::{enabled_only, ChecklistRule, Registry};
use crate::detector;
use crate::detector::{EvalBudget, Finding};
use crate::errors::{FailReason, ScanError};
use crate::scoring;
use crate::scoring::{spec_score, Ceilings, Score};

verus! {

/// The lifecycle of one scan attempt.
#[derive(Clone, Copy, PartialEq, Eq, Structural, Debug)]
pub enum JobState {
    Pending,
    Running,
    Completed,
    Failed,
}

/// Whether a state is one a job can never leave.
pub open spec fn is_terminal(s: JobState) -> bool {
    s is Completed || s is Failed
}

/// One scan attempt's record.
#[derive(Clone, Copy, PartialEq, Eq, Debug)]
pub struct ScanJob {
    pub id: u64,
    pub contract_id: u64,
    pub version: u64,
    pub state: JobState,
    pub submitted_at: u64,
    pub started_at: Option<u64>,
    pub finished_at: Option<u64>,
    pub fail_reason: Option<FailReason>,
    /// Index into the result store; set exactly when the job completed.
    pub result_ref: Option<u64>,
}

/// The immutable output of one completed scan.
#[derive(Clone, PartialEq, Eq, Debug)]
pub struct ScanResult {
    pub job_id: u64,
    pub findings: Vec<Finding>,
    pub metrics: Vec<Metric>,
    pub budget_exceeded: bool,
    pub score: Score,
    /// Pins the exact rule set used, so re-reading this result never
    /// reinterprets it under newer rules.
    pub checklist_version: u64,
}

/// One submitted contract version and its latest completed result.
#[derive(Clone, Copy, PartialEq, Eq, Debug)]
pub struct ContractVersion {
    pub contract_id: u64,
    pub version: u64,
    pub artifact_hash: u64,
    pub latest_result_ref: Option<u64>,
}

/// One line of the append-only scan ledger.
#[derive(Clone, Copy, PartialEq, Eq, Structural, Debug)]
pub struct HistoryEntry {
    pub contract_id: u64,
    pub version: u64,
    pub result_ref: u64,
}

/// A small deterministic digest of the artifact bytes, recorded so a stored
/// version can be matched against a resubmission.
pub open spec fn hash_step(h: int, b: u8) -> int {
    (h % 0x1000000) * 31 + b
}

/// The digest of the bytes at or after `i`, folded left to right.
pub open spec fn hash_from(bytes: Seq<u8>, i: int, h: int) -> int
    decreases bytes.len() - i,
{
    if i < 0 || i >= bytes.len() {
        h
    } else {
        hash_from(bytes, i + 1, hash_step(h, bytes[i]))
    }
}

pub open spec fn spec_hash(bytes: Seq<u8>) -> int {
    hash_from(bytes, 0, 0)
}

/// Whether this job row holds the per-version lock for `(c, v)`.
pub open spec fn active_for(j: ScanJob, c: u64, v: u64) -> bool {
    j.contract_id == c && j.version == v && !is_terminal(j.state)
}

/// The first stored entry for `(c, v)` at or after `i`.
pub open spec fn contract_at(s: Seq<ContractVersion>, c: u64, v: u64, i: int) -> Option<
    ContractVersion,
>
    decreases s.len() - i,
{
    if i < 0 || i >= s.len() {
        Option::None
    } else if s[i].contract_id == c && s[i].version == v {
        Option::Some(s[i])
    } else {
        contract_at(s, c, v, i + 1)
    }
}

/// A pair that the walk from `i` does not find is on no later row.
proof fn lemma_contract_at_none(s: Seq<ContractVersion>, c: u64, v: u64, i: int)
    requires
        0 <= i,
        contract_at(s, c, v, i) is None,
    ensures
        forall|k: int|
            i <= k < s.len() ==> !((#[trigger] s[k]).contract_id == c && s[k].version == v),
    decreases s.len() - i,
{
    if 0 <= i < s.len() {
        lemma_contract_at_none(s, c, v, i + 1);
    }
}

/// Updating the unique row of a pair in place: the pair's own lookup finds
/// the new row, every other pair's lookup is untouched.
proof fn lemma_contract_at_update(
    s: Seq<ContractVersion>,
    k: int,
    e: ContractVersion,
    c: u64,
    v: u64,
    c2: u64,
    v2: u64,
    i: int,
)
    requires
        0 <= i <= s.len(),
        0 <= k < s.len(),
        s[k].contract_id == c && s[k].version == v,
        e.contract_id == c && e.version == v,
        forall|j: int|
            0 <= j < s.len() && j != k ==> !((#[trigger] s[j]).contract_id == c && s[j].version
                == v),
    ensures
        !(c2 == c && v2 == v) ==> contract_at(s.update(k, e), c2, v2, i) == contract_at(
            s,
            c2,
            v2,
            i,
        ),
        (c2 == c && v2 == v) ==> contract_at(s.update(k, e), c, v, i) == if i <= k {
            Option::Some(e)
        } else {
            Option::<ContractVersion>::None
        },
    decreases s.len() - i,
{
    if i < s.len() {
        lemma_contract_at_update(s, k, e, c, v, c2, v2, i + 1);
    }
}

/// Appending a row for another pair leaves every lookup unchanged, and a
/// lookup that found nothing then finds exactly the appended row.
proof fn lemma_contract_at_push(s: Seq<ContractVersion>, e: ContractVersion, c: u64, v: u64, i: int)
    requires
        0 <= i <= s.len(),
    ensures
        contract_at(s.push(e), c, v, i) == match contract_at(s, c, v, i) {
            Option::Some(x) => Option::Some(x),
            Option::None => if e.contract_id == c && e.version == v {
                Option::Some(e)
            } else {
                Option::None
            },
        },
    decreases s.len() - i,
{
    if i < s.len() {
        lemma_contract_at_push(s, e, c, v, i + 1);
    } else {
        assert(contract_at(s.push(e), c, v, i + 1) is None);
    }
}

/// The fresh row a submission creates.
pub open spec fn pending_job(id: u64, c: u64, v: u64, now: u64) -> ScanJob {
    ScanJob {
        id,
        contract_id: c,
        version: v,
        state: JobState::Pending,
        submitted_at: now,
        started_at: Option::None,
        finished_at: Option::None,
        fail_reason: Option::None,
        result_ref: Option::None,
    }
}

/// The row of a job that ran to completion at `now`.
pub open spec fn completed_job(j: ScanJob, now: u64, rr: u64) -> ScanJob {
    ScanJob {
        state: JobState::Completed,
        started_at: Option::Some(now),
        finished_at: Option::Some(now),
        fail_reason: Option::None,
        result_ref: Option::Some(rr),
        ..j
    }
}

/// The row of a job that reached `Failed` at `now`; `started` says whether
/// it got past admission before failing.
pub open spec fn failed_job(j: ScanJob, now: u64, reason: FailReason, started: bool) -> ScanJob {
    ScanJob {
        state: JobState::Failed,
        started_at: if started {
            Option::Some(now)
        } else {
            Option::None
        },
        finished_at: Option::Some(now),
        fail_reason: Option::Some(reason),
        result_ref: Option::None,
        ..j
    }
}

/// The normalization ceilings scoring derives from the measurement budget:
/// within budget means no resource deduction.
pub open spec fn ceilings_of(b: Budget) -> Ceilings {
    Ceilings { instruction_ceiling: b.max_instructions, memory_ceiling: b.max_memory }
}

/// Everything one admitted scan determines, as a function of the artifact
/// bytes, the rules active at scan time and the two budgets: the findings,
/// the metrics, the budget flag and the score — or nothing when the
/// artifact does not parse.
pub open spec fn spec_scan_outcome(
    bytes: Seq<u8>,
    rules: Seq<ChecklistRule>,
    eb: EvalBudget,
    b: Budget,
) -> Option<(Seq<Finding>, Seq<Metric>, bool, Score)> {
    match spec_parse(bytes) {
        Option::None => Option::None,
        Option::Some(p) => {
            let findings = detector::findings_of_rules(p, rules, eb);
            let metrics = benchmark::spec_metrics(p, b);
            let exceeded = benchmark::spec_exceeded(p, b);
            Option::Some(
                (findings, metrics, exceeded, spec_score(
                    findings,
                    metrics,
                    exceeded,
                    rules,
                    ceilings_of(b),
                )),
            )
        },
    }
}

/// Determinism of the pipeline: one scan's whole outcome — findings,
/// metrics, budget flag and score — is a function of the artifact bytes,
/// the rule list and the two budgets alone. Two scans of identical inputs
/// are bit-identical.
pub proof fn lemma_scan_deterministic(
    bytes: Seq<u8>,
    rules: Seq<ChecklistRule>,
    eb: EvalBudget,
    b: Budget,
    o1: (Seq<Finding>, Seq<Metric>, bool, Score),
    o2: (Seq<Finding>, Seq<Metric>, bool, Score),
)
    requires
        spec_scan_outcome(bytes, rules, eb, b) == Option::Some(o1),
        spec_scan_outcome(bytes, rules, eb, b) == Option::Some(o2),
    ensures
        o1 == o2,
{
}

/// Reproducibility under registry evolution: whatever a later registry
/// publishes — rules disabled, re-weighted, or whole new versions — the
/// score recomputed under a version an old result is pinned to is the
/// score it had. The premise is exactly what `Registry::publish` ensures
/// of every already published version.
pub proof fn lemma_score_reproducible(
    before: Registry,
    later: Registry,
    pinned: u64,
    findings: Seq<Finding>,
    metrics: Seq<Metric>,
    exceeded: bool,
    ceil: Ceilings,
)
    requires
        before.spec_has_version(pinned),
        forall|w: u64|
            before.spec_has_version(w) ==> #[trigger] later.spec_rules_of(w)
                == before.spec_rules_of(w),
    ensures
        spec_score(findings, metrics, exceeded, later.spec_rules_of(pinned), ceil) == spec_score(
            findings,
            metrics,
            exceeded,
            before.spec_rules_of(pinned),
            ceil,
        ),
{
    assert(later.spec_rules_of(pinned) == before.spec_rules_of(pinned));
}

/// The orchestrator: the only writer of scan state.
pub struct Orchestrator {
    jobs: Vec<ScanJob>,
    results: Vec<ScanResult>,
    contracts: Vec<ContractVersion>,
    history: Vec<HistoryEntry>,
    deadline_ms: u64,
}

impl Orchestrator {
    pub closed spec fn spec_jobs(self) -> Seq<ScanJob> {
        self.jobs@
    }

    pub closed spec fn spec_results(self) -> Seq<ScanResult> {
        self.results@
    }

    pub closed spec fn spec_contracts(self) -> Seq<ContractVersion> {
        self.contracts@
    }

    pub closed spec fn spec_history(self) -> Seq<HistoryEntry> {
        self.history@
    }

    pub closed spec fn spec_deadline(self) -> u64 {
        self.deadline_ms
    }

    /// The stored entry for one contract version.
    pub open spec fn spec_contract(self, c: u64, v: u64) -> Option<ContractVersion> {
        contract_at(self.spec_contracts(), c, v, 0)
    }

    /// Whether the per-version lock for `(c, v)` is held: some job row for
    /// the pair is still non-terminal.
    pub open spec fn spec_locked(self, c: u64, v: u64) -> bool {
        exists|j: int|
            0 <= j < self.spec_jobs().len() && active_for(#[trigger] self.spec_jobs()[j], c, v)
    }

    /// The state-machine invariant: job ids are their row indexes; at most
    /// one non-terminal job exists per `(contract_id, version)`; a job row
    /// points into the result store exactly when it completed, at a result
    /// that names it; contract rows are unique per pair and
    /// their latest references are in range, as are the ledger's.
    pub closed spec fn wf(self) -> bool {
        &&& forall|j: int|
            0 <= j < self.jobs@.len() ==> (#[trigger] self.jobs@[j]).id == j
        &&& forall|j1: int, j2: int|
            0 <= j1 < self.jobs@.len() && 0 <= j2 < self.jobs@.len() && !is_terminal(
                (#[trigger] self.jobs@[j1]).state,
            ) && !is_terminal((#[trigger] self.jobs@[j2]).state)
                && self.jobs@[j1].contract_id == self.jobs@[j2].contract_id
                && self.jobs@[j1].version == self.jobs@[j2].version ==> j1 == j2
        &&& forall|j: int|
            0 <= j < self.jobs@.len() ==> match (#[trigger] self.jobs@[j]).result_ref {
                Option::Some(rr) => {
                    &&& self.jobs@[j].state is Completed
                    &&& rr < self.results@.len()
                    &&& self.results@[rr as int].job_id == j
                },
                Option::None => !(self.jobs@[j].state is Completed),
            }
        &&& forall|k1: int, k2: int|
            0 <= k1 < self.contracts@.len() && 0 <= k2 < self.contracts@.len()
                && (#[trigger] self.contracts@[k1]).contract_id
                == (#[trigger] self.contracts@[k2]).contract_id && self.contracts@[k1].version
                == self.contracts@[k2].version ==> k1 == k2
        &&& forall|k: int|
            0 <= k < self.contracts@.len() ==> match (
            #[trigger] self.contracts@[k]).latest_result_ref {
                Option::Some(rr) => rr < self.results@.len(),
                Option::None => true,
            }
        &&& forall|h: int|
            0 <= h < self.history@.len() ==> (#[trigger] self.history@[h]).result_ref
                < self.results@.len()
    }

    /// At most one job holds the `(c, v)` lock: two non-terminal rows for
    /// the same pair are the same row.
    pub proof fn lemma_at_most_one_active(self, j1: int, j2: int, c: u64, v: u64)
        requires
            self.wf(),
            0 <= j1 < self.spec_jobs().len(),
            0 <= j2 < self.spec_jobs().len(),
            active_for(self.spec_jobs()[j1], c, v),
            active_for(self.spec_jobs()[j2], c, v),
        ensures
            j1 == j2,
    {
    }

    /// A fresh orchestrator with the given overall per-job deadline.
    pub fn new(deadline_ms: u64) -> (r: Orchestrator)
        ensures
            r.wf(),
            r.spec_jobs().len() == 0,
            r.spec_results().len() == 0,
            r.spec_contracts().len() == 0,
            r.spec_history().len() == 0,
            r.spec_deadline() == deadline_ms,
    {
        Orchestrator {
            jobs: Vec::new(),
            results: Vec::new(),
            contracts: Vec::new(),
            history: Vec::new(),
            deadline_ms,
        }
    }

    /// The job row with this id, if any.
    pub fn get_job(&self, job_id: u64) -> (r: Option<ScanJob>)
        ensures
            match r {
                Option::Some(j) => {
                    &&& job_id < self.spec_jobs().len()
                    &&& j == self.spec_jobs()[job_id as int]
                },
                Option::None => job_id >= self.spec_jobs().len(),
            },
    {
        if job_id < self.jobs.len() as u64 {
            Option::Some(self.jobs[job_id as usize])
        } else {
            Option::None
        }
    }

    /// The stored result a reference points at, if in range.
    pub fn get_result(&self, rr: u64) -> (r: Option<&ScanResult>)
        ensures
            match r {
                Option::Some(res) => {
                    &&& rr < self.spec_results().len()
                    &&& *res == self.spec_results()[rr as int]
                },
                Option::None => rr >= self.spec_results().len(),
            },
    {
        if rr < self.results.len() as u64 {
            Option::Some(&self.results[rr as usize])
        } else {
            Option::None
        }
    }

    /// Every stored result, oldest first.
    pub fn all_results(&self) -> (r: &Vec<ScanResult>)
        ensures
            r@ == self.spec_results(),
    {
        &self.results
    }

    /// The append-only scan ledger, oldest first.
    pub fn history_entries(&self) -> (r: &Vec<HistoryEntry>)
        ensures
            r@ == self.spec_history(),
    {
        &self.history
    }

    /// The stored row of one contract version.
    pub fn get_contract(&self, c: u64, v: u64) -> (r: Option<ContractVersion>)
        ensures
            r == self.spec_contract(c, v),
    {
        let mut k: usize = 0;
        let n = self.contracts.len();
        while k < n
            invariant
                k <= n,
                n == self.contracts@.len(),
                contract_at(self.contracts@, c, v, 0) == contract_at(
                    self.contracts@,
                    c,
                    v,
                    k as int,
                ),
            decreases n - k,
        {
            let e = self.contracts[k];
            if e.contract_id == c && e.version == v {
                return Option::Some(e);
            }
            k += 1;
        }
        Option::None
    }

    /// Whether the per-version lock for `(c, v)` is held.
    pub fn is_locked(&self, c: u64, v: u64) -> (r: bool)
        ensures
            r == self.spec_locked(c, v),
    {
        let mut j: usize = 0;
        let n = self.jobs.len();
        let mut found = false;
        while j < n
            invariant
                j <= n,
                n == self.jobs@.len(),
                found == exists|k: int|
                    0 <= k < j && active_for(#[trigger] self.jobs@[k], c, v),
            decreases n - j,
        {
            let row = self.jobs[j];
            let row_active = row.contract_id == c && row.version == v && (matches!(
                row.state,
                JobState::Pending,
            ) || matches!(row.state, JobState::Running));
            proof {
                if row_active {
                    assert(active_for(self.jobs@[j as int], c, v));
                }
            }
            found = found || row_active;
            j += 1;
            proof {
                if row_active {
                    assert(exists|k: int|
                        0 <= k < j && active_for(#[trigger] self.jobs@[k], c, v));
                }
            }
        }
        proof {
            if found {
                let k = choose|k: int| 0 <= k < n && active_for(#[trigger] self.jobs@[k], c, v);
                assert(active_for(self.spec_jobs()[k], c, v));
            } else {
                assert forall|j2: int|
                    0 <= j2 < self.spec_jobs().len() implies !active_for(
                    self.spec_jobs()[j2],
                    c,
                    v,
                ) by {
                    assert(!(exists|k: int|
                        0 <= k < n && active_for(#[trigger] self.jobs@[k], c, v)));
                }
            }
        }
        found
    }

    fn hash_bytes(bytes: &Vec<u8>, i: usize, h: u64) -> (r: u64)
        requires
            i <= bytes@.len(),
            h < 0x80000000,
        ensures
            r == hash_from(bytes@, i as int, h as int),
            r < 0x80000000,
        decreases bytes@.len() - i,
    {
        if i == bytes.len() {
            h
        } else {
            Self::hash_bytes(bytes, i + 1, (h % 0x1000000) * 31 + bytes[i] as u64)
        }
    }

    fn push_pending(&mut self, contract_id: u64, version: u64, now: u64) -> (id: u64)
        requires
            old(self).wf(),
            !old(self).spec_locked(contract_id, version),
        ensures
            final(self).wf(),
            id == old(self).spec_jobs().len() as u64,
            final(self).spec_jobs() == old(self).spec_jobs().push(
                pending_job(id, contract_id, version, now),
            ),
            final(self).spec_results() == old(self).spec_results(),
            final(self).spec_contracts() == old(self).spec_contracts(),
            final(self).spec_history() == old(self).spec_history(),
            final(self).spec_deadline() == old(self).spec_deadline(),
            final(self).spec_locked(contract_id, version),
    {
        let id = self.jobs.len() as u64;
        let job = ScanJob {
            id,
            contract_id,
            version,
            state: JobState::Pending,
            submitted_at: now,
            started_at: Option::None,
            finished_at: Option::None,
            fail_reason: Option::None,
            result_ref: Option::None,
        };
        self.jobs.push(job);
        proof {
            assert(self.jobs@[self.jobs@.len() - 1] == pending_job(id, contract_id, version, now));
            assert(active_for(self.jobs@[self.jobs@.len() - 1], contract_id, version));
            let jobs2 = self.jobs@;
            let n = old(self).jobs@.len() as int;
            assert forall|j1: int, j2: int|
                0 <= j1 < jobs2.len() && 0 <= j2 < jobs2.len() && !is_terminal(
                    (#[trigger] jobs2[j1]).state,
                ) && !is_terminal((#[trigger] jobs2[j2]).state) && jobs2[j1].contract_id
                    == jobs2[j2].contract_id && jobs2[j1].version == jobs2[j2].version implies j1
                == j2 by {
                if 0 <= j1 < n {
                    assert(jobs2[j1] == old(self).jobs@[j1]);
                }
                if 0 <= j2 < n {
                    assert(jobs2[j2] == old(self).jobs@[j2]);
                }
                if j1 == n && 0 <= j2 < n {
                    assert(active_for(old(self).spec_jobs()[j2], contract_id, version));
                    assert(old(self).spec_locked(contract_id, version));
                }
                if j2 == n && 0 <= j1 < n {
                    assert(active_for(old(self).spec_jobs()[j1], contract_id, version));
                    assert(old(self).spec_locked(contract_id, version));
                }
            }
        }
        id
    }

    fn ensure_contract(&mut self, contract_id: u64, version: u64, artifact_bytes: &Vec<u8>)
        requires
            old(self).wf(),
        ensures
            final(self).wf(),
            final(self).spec_jobs() == old(self).spec_jobs(),
            final(self).spec_results() == old(self).spec_results(),
            final(self).spec_history() == old(self).spec_history(),
            final(self).spec_deadline() == old(self).spec_deadline(),
            match old(self).spec_contract(contract_id, version) {
                Option::Some(_) => final(self).spec_contracts() == old(self).spec_contracts(),
                Option::None => final(self).spec_contracts() == old(self).spec_contracts().push(
                    ContractVersion {
                        contract_id,
                        version,
                        artifact_hash: spec_hash(artifact_bytes@) as u64,
                        latest_result_ref: Option::None,
                    },
                ),
            },
    {
        if matches!(self.get_contract(contract_id, version), Option::None) {
            let h = Self::hash_bytes(artifact_bytes, 0, 0);
            let entry = ContractVersion {
                contract_id,
                version,
                artifact_hash: h,
                latest_result_ref: Option::None,
            };
            proof {
                lemma_contract_at_none(self.contracts@, contract_id, version, 0);
            }
            self.contracts.push(entry);
        }
    }

    /// Admit a scan for `(contract_id, version)` of the given artifact: at
    /// most one non-terminal job may exist per pair, so while one does the
    /// submission is rejected with `ScanInProgress` and nothing changes;
    /// otherwise a `Pending` job is appended, the pair's lock is thereby
    /// taken, and the contract version is registered if new.
    pub fn submit(
        &mut self,
        contract_id: u64,
        version: u64,
        artifact_bytes: &Vec<u8>,
        now: u64,
    ) -> (r: Result<u64, ScanError>)
        requires
            old(self).wf(),
        ensures
            final(self).wf(),
            final(self).spec_deadline() == old(self).spec_deadline(),
            old(self).spec_locked(contract_id, version) ==> {
                &&& r == Result::<u64, ScanError>::Err(ScanError::ScanInProgress)
                &&& *final(self) == *old(self)
            },
            !old(self).spec_locked(contract_id, version) ==> {
                &&& r == Result::<u64, ScanError>::Ok(old(self).spec_jobs().len() as u64)
                &&& final(self).spec_jobs() == old(self).spec_jobs().push(
                    pending_job(
                        old(self).spec_jobs().len() as u64,
                        contract_id,
                        version,
                        now,
                    ),
                )
                &&& final(self).spec_results() == old(self).spec_results()
                &&& final(self).spec_history() == old(self).spec_history()
                &&& final(self).spec_locked(contract_id, version)
                &&& match old(self).spec_contract(contract_id, version) {
                    Option::Some(_) => final(self).spec_contracts() == old(self).spec_contracts(),
                    Option::None => final(self).spec_contracts() == old(self).spec_contracts().push(
                        ContractVersion {
                            contract_id,
                            version,
                            artifact_hash: spec_hash(artifact_bytes@) as u64,
                            latest_result_ref: Option::None,
                        },
                    ),
                }
            },
    {
        if self.is_locked(contract_id, version) {
            return Result::Err(ScanError::ScanInProgress);
        }
        let ghost pre = *self;
        let id = self.push_pending(contract_id, version, now);
        proof {
            assert(self.spec_contract(contract_id, version) == pre.spec_contract(
                contract_id,
                version,
            ));
        }
        self.ensure_contract(contract_id, version, artifact_bytes);
        Result::Ok(id)
    }

    fn finish_failed(&mut self, idx: usize, reason: FailReason, started: bool, now: u64)
        requires
            old(self).wf(),
            idx < old(self).spec_jobs().len(),
            !is_terminal(old(self).spec_jobs()[idx as int].state),
        ensures
            final(self).wf(),
            final(self).spec_jobs() == old(self).spec_jobs().update(
                idx as int,
                failed_job(old(self).spec_jobs()[idx as int], now, reason, started),
            ),
            final(self).spec_results() == old(self).spec_results(),
            final(self).spec_contracts() == old(self).spec_contracts(),
            final(self).spec_history() == old(self).spec_history(),
            final(self).spec_deadline() == old(self).spec_deadline(),
            !final(self).spec_locked(
                old(self).spec_jobs()[idx as int].contract_id,
                old(self).spec_jobs()[idx as int].version,
            ),
    {
        let job = self.jobs[idx];
        let row = ScanJob {
            state: JobState::Failed,
            started_at: if started {
                Option::Some(now)
            } else {
                Option::None
            },
            finished_at: Option::Some(now),
            fail_reason: Option::Some(reason),
            result_ref: Option::None,
            ..job
        };
        self.jobs.set(idx, row);
        proof {
            let c = old(self).spec_jobs()[idx as int].contract_id;
            let v = old(self).spec_jobs()[idx as int].version;
            if self.spec_locked(c, v) {
                let j = choose|j: int|
                    0 <= j < self.spec_jobs().len() && active_for(
                        #[trigger] self.spec_jobs()[j],
                        c,
                        v,
                    );
                assert(j != idx);
                assert(old(self).spec_jobs()[j] == self.spec_jobs()[j]);
                assert(active_for(old(self).jobs@[j], c, v));
                assert(active_for(old(self).jobs@[idx as int], c, v));
                assert(false);
            }
        }
    }

    fn finish_completed(&mut self, idx: usize, result: ScanResult, now: u64) -> (rr: u64)
        requires
            old(self).wf(),
            idx < old(self).spec_jobs().len(),
            !is_terminal(old(self).spec_jobs()[idx as int].state),
            result.job_id == idx as u64,
            old(self).spec_contract(
                old(self).spec_jobs()[idx as int].contract_id,
                old(self).spec_jobs()[idx as int].version,
            ) is Some,
        ensures
            final(self).wf(),
            rr == old(self).spec_results().len(),
            final(self).spec_results() == old(self).spec_results().push(result),
            final(self).spec_jobs() == old(self).spec_jobs().update(
                idx as int,
                completed_job(old(self).spec_jobs()[idx as int], now, rr),
            ),
            final(self).spec_history() == old(self).spec_history().push(
                HistoryEntry {
                    contract_id: old(self).spec_jobs()[idx as int].contract_id,
                    version: old(self).spec_jobs()[idx as int].version,
                    result_ref: rr,
                },
            ),
            final(self).spec_deadline() == old(self).spec_deadline(),
            final(self).spec_contract(
                old(self).spec_jobs()[idx as int].contract_id,
                old(self).spec_jobs()[idx as int].version,
            ) == match old(self).spec_contract(
                old(self).spec_jobs()[idx as int].contract_id,
                old(self).spec_jobs()[idx as int].version,
            ) {
                Option::Some(e) => Option::Some(
                    ContractVersion { latest_result_ref: Option::Some(rr), ..e },
                ),
                Option::None => Option::<ContractVersion>::None,
            },
            forall|c2: u64, v2: u64|
                !(c2 == old(self).spec_jobs()[idx as int].contract_id && v2 == old(self).spec_jobs()[idx as int].version) ==> #[trigger] final(self).spec_contract(c2, v2)
                    == old(self).spec_contract(c2, v2),
            !final(self).spec_locked(
                old(self).spec_jobs()[idx as int].contract_id,
                old(self).spec_jobs()[idx as int].version,
            ),
    {
        let job = self.jobs[idx];
        let rr = self.results.len() as u64;
        self.results.push(result);
        let row = ScanJob {
            state: JobState::Completed,
            started_at: Option::Some(now),
            finished_at: Option::Some(now),
            fail_reason: Option::None,
            result_ref: Option::Some(rr),
            ..job
        };
        self.jobs.set(idx, row);
        self.history.push(
            HistoryEntry { contract_id: job.contract_id, version: job.version, result_ref: rr },
        );
        let n = self.contracts.len();
        let mut k: usize = 0;
        let mut found = false;
        while k < n && !found
            invariant
                k <= n,
                n == self.contracts@.len(),
                contract_at(self.contracts@, job.contract_id, job.version, 0) == contract_at(
                    self.contracts@,
                    job.contract_id,
                    job.version,
                    k as int,
                ),
                found ==> k < n && self.contracts@[k as int].contract_id == job.contract_id
                    && self.contracts@[k as int].version == job.version,
            decreases n - k, (if found { 0int } else { 1int }),
        {
            let e = self.contracts[k];
            if e.contract_id == job.contract_id && e.version == job.version {
                found = true;
            } else {
                k += 1;
            }
        }
        proof {
            if !found {
                assert(contract_at(self.contracts@, job.contract_id, job.version, n as int)
                    is None);
                assert(false);
            }
        }
        let entry = self.contracts[k];
        let updated = ContractVersion { latest_result_ref: Option::Some(rr), ..entry };
        proof {
            assert forall|j: int|
                0 <= j < self.contracts@.len() && j != k ==> !((
                #[trigger] self.contracts@[j]).contract_id == job.contract_id
                    && self.contracts@[j].version == job.version) by {}
        }
        self.contracts.set(k, updated);
        proof {
            let pre = old(self).contracts@;
            let c = job.contract_id;
            let v = job.version;
            assert forall|c2: u64, v2: u64| true implies #[trigger] contract_at(
                self.contracts@,
                c2,
                v2,
                0,
            ) == if c2 == c && v2 == v {
                Option::Some(updated)
            } else {
                contract_at(pre, c2, v2, 0)
            } by {
                lemma_contract_at_update(pre, k as int, updated, c, v, c2, v2, 0);
            }
            if self.spec_locked(c, v) {
                let j = choose|j: int|
                    0 <= j < self.spec_jobs().len() && active_for(
                        #[trigger] self.spec_jobs()[j],
                        c,
                        v,
                    );
                assert(j != idx);
                assert(active_for(old(self).jobs@[j], c, v));
                assert(active_for(old(self).jobs@[idx as int], c, v));
                assert(false);
            }
        }
        rr
    }

    /// Run one admitted job to its terminal state: check the overall
    /// deadline, read the current checklist, evaluate the artifact
    /// statically, measure it under the budget, score the two outputs
    /// against the rules, and persist the outcome. Whatever happens, the
    /// job ends terminal and the pair's lock is free on return; a job id
    /// that names no `Pending` row is refused with `NotFound` and nothing
    /// changes. An unparsable artifact fails the job with
    /// `ArtifactInvalid`: no result is stored and the contract's latest
    /// reference is untouched.
    pub fn run_job(
        &mut self,
        job_id: u64,
        artifact_bytes: &Vec<u8>,
        registry: &Registry,
        eval_budget: &EvalBudget,
        budget: &Budget,
        now: u64,
    ) -> (r: Result<JobState, ScanError>)
        requires
            old(self).wf(),
            budget.max_instructions > 0,
            budget.max_memory > 0,
        ensures
            final(self).wf(),
            final(self).spec_deadline() == old(self).spec_deadline(),
            (job_id >= old(self).spec_jobs().len() || !(old(self).spec_jobs()[job_id as int].state
                is Pending)) ==> {
                &&& r == Result::<JobState, ScanError>::Err(ScanError::NotFound)
                &&& *final(self) == *old(self)
            },
            (job_id < old(self).spec_jobs().len() && old(self).spec_jobs()[job_id as int].state
                is Pending) ==> {
                let job = old(self).spec_jobs()[job_id as int];
                &&& !final(self).spec_locked(job.contract_id, job.version)
                &&& is_terminal(final(self).spec_jobs()[job_id as int].state)
                &&& final(self).spec_jobs().len() == old(self).spec_jobs().len()
                &&& forall|j: int|
                    0 <= j < old(self).spec_jobs().len() && j != job_id ==> final(self).spec_jobs()[j] == old(self).spec_jobs()[j]
                &&& if now >= job.submitted_at && now - job.submitted_at > old(self).spec_deadline() {
                    &&& r == Result::<JobState, ScanError>::Ok(JobState::Failed)
                    &&& final(self).spec_jobs()[job_id as int] == failed_job(
                        job,
                        now,
                        FailReason::DeadlineExceeded,
                        false,
                    )
                    &&& final(self).spec_results() == old(self).spec_results()
                    &&& final(self).spec_contracts() == old(self).spec_contracts()
                    &&& final(self).spec_history() == old(self).spec_history()
                } else if registry.spec_version_count() == 0 {
                    &&& r == Result::<JobState, ScanError>::Ok(JobState::Failed)
                    &&& final(self).spec_jobs()[job_id as int] == failed_job(
                        job,
                        now,
                        FailReason::RegistryUnavailable,
                        true,
                    )
                    &&& final(self).spec_results() == old(self).spec_results()
                    &&& final(self).spec_contracts() == old(self).spec_contracts()
                    &&& final(self).spec_history() == old(self).spec_history()
                } else {
                    let rules = enabled_only(
                        registry.spec_rules_of(registry.spec_version_count() as u64),
                    );
                    match spec_scan_outcome(artifact_bytes@, rules, *eval_budget, *budget) {
                        Option::None => {
                            &&& r == Result::<JobState, ScanError>::Ok(JobState::Failed)
                            &&& final(self).spec_jobs()[job_id as int] == failed_job(
                                job,
                                now,
                                FailReason::ArtifactInvalid,
                                true,
                            )
                            &&& final(self).spec_results() == old(self).spec_results()
                            &&& final(self).spec_contracts() == old(self).spec_contracts()
                            &&& final(self).spec_history() == old(self).spec_history()
                        },
                        Option::Some(outcome) => {
                            let rr = old(self).spec_results().len() as u64;
                            let stored = final(self).spec_results()[rr as int];
                            &&& r == Result::<JobState, ScanError>::Ok(JobState::Completed)
                            &&& final(self).spec_results().len() == old(self).spec_results().len()
                                + 1
                            &&& forall|i: int|
                                0 <= i < old(self).spec_results().len() ==> final(self).spec_results()[i] == old(self).spec_results()[i]
                            &&& stored.job_id == job_id
                            &&& stored.findings@ == outcome.0
                            &&& stored.metrics@ == outcome.1
                            &&& stored.budget_exceeded == outcome.2
                            &&& stored.score == outcome.3
                            &&& stored.checklist_version == registry.spec_version_count() as u64
                            &&& final(self).spec_jobs()[job_id as int] == completed_job(
                                job,
                                now,
                                rr,
                            )
                            &&& final(self).spec_history() == old(self).spec_history().push(
                                HistoryEntry {
                                    contract_id: job.contract_id,
                                    version: job.version,
                                    result_ref: rr,
                                },
                            )
                            &&& match final(self).spec_contract(job.contract_id, job.version) {
                                Option::Some(e) => e.latest_result_ref == Option::Some(rr),
                                Option::None => false,
                            }
                            &&& forall|c2: u64, v2: u64|
                                !(c2 == job.contract_id && v2 == job.version)
                                    ==> #[trigger] final(self).spec_contract(c2, v2) == old(self).spec_contract(c2, v2)
                        },
                    }
                }
            },
    {
        if job_id >= self.jobs.len() as u64 {
            return Result::Err(ScanError::NotFound);
        }
        let idx = job_id as usize;
        let job = self.jobs[idx];
        if !matches!(job.state, JobState::Pending) {
            return Result::Err(ScanError::NotFound);
        }
        if now >= job.submitted_at && now - job.submitted_at > self.deadline_ms {
            self.finish_failed(idx, FailReason::DeadlineExceeded, false, now);
            return Result::Ok(JobState::Failed);
        }
        let running = ScanJob { state: JobState::Running, started_at: Option::Some(now), ..job };
        let ghost pre_running = *self;
        self.jobs.set(idx, running);
        proof {
            let jobs2 = self.jobs@;
            assert forall|j1: int, j2: int|
                0 <= j1 < jobs2.len() && 0 <= j2 < jobs2.len() && !is_terminal(
                    (#[trigger] jobs2[j1]).state,
                ) && !is_terminal((#[trigger] jobs2[j2]).state) && jobs2[j1].contract_id
                    == jobs2[j2].contract_id && jobs2[j1].version == jobs2[j2].version implies j1
                == j2 by {
                assert(!is_terminal(pre_running.jobs@[j1].state));
                assert(!is_terminal(pre_running.jobs@[j2].state));
                assert(pre_running.jobs@[j1].contract_id == jobs2[j1].contract_id);
                assert(pre_running.jobs@[j2].contract_id == jobs2[j2].contract_id);
            }
            assert(self.wf());
        }
        let current = registry.current();
        let (checklist_version, rules) = match current {
            Result::Err(_) => {
                self.finish_failed(idx, FailReason::RegistryUnavailable, true, now);
                return Result::Ok(JobState::Failed);
            },
            Result::Ok(p) => p,
        };
        let program = match artifact::parse(artifact_bytes) {
            Result::Err(_) => {
                self.finish_failed(idx, FailReason::ArtifactInvalid, true, now);
                return Result::Ok(JobState::Failed);
            },
            Result::Ok(p) => p,
        };
        let findings = detector::evaluate_program(&program, &rules, eval_budget);
        let report = benchmark::measure(&program, budget);
        let ceil = Ceilings {
            instruction_ceiling: budget.max_instructions,
            memory_ceiling: budget.max_memory,
        };
        let sc = scoring::score(&findings, &report.metrics, report.budget_exceeded, &rules, &ceil);
        let result = ScanResult {
            job_id,
            findings,
            metrics: report.metrics,
            budget_exceeded: report.budget_exceeded,
            score: sc,
            checklist_version,
        };
        let ghost pre_contract = *self;
        self.ensure_contract(job.contract_id, job.version, artifact_bytes);
        proof {
            if pre_contract.spec_contract(job.contract_id, job.version) is None {
                let e = ContractVersion {
                    contract_id: job.contract_id,
                    version: job.version,
                    artifact_hash: spec_hash(artifact_bytes@) as u64,
                    latest_result_ref: Option::None,
                };
                lemma_contract_at_push(
                    pre_contract.contracts@,
                    e,
                    job.contract_id,
                    job.version,
                    0,
                );
            }
        }
        let rr = self.finish_completed(idx, result, now);
        proof {
            let c = job.contract_id;
            let v = job.version;
            assert forall|c2: u64, v2: u64| !(c2 == c && v2 == v) implies #[trigger] self
                .spec_contract(c2, v2) == old(self).spec_contract(c2, v2) by {
                if pre_contract.spec_contract(c, v) is None {
                    let e = ContractVersion {
                        contract_id: c,
                        version: v,
                        artifact_hash: spec_hash(artifact_bytes@) as u64,
                        latest_result_ref: Option::None,
                    };
                    lemma_contract_at_push(pre_contract.contracts@, e, c2, v2, 0);
                }
            }
        }
        Result::Ok(JobState::Completed)
    }

    /// Cancel a job that is still `Pending`: it moves to `Failed` with
    /// reason `Cancelled` and its pair's lock is free on return. A job id
    /// that names no `Pending` row is refused with `NotFound` — a job past
    /// admission runs to its own terminal state so the lock is never left
    /// ambiguous.
    pub fn cancel(&mut self, job_id: u64, now: u64) -> (r: Result<(), ScanError>)
        requires
            old(self).wf(),
        ensures
            final(self).wf(),
            final(self).spec_deadline() == old(self).spec_deadline(),
            (job_id >= old(self).spec_jobs().len() || !(old(self).spec_jobs()[job_id as int].state
                is Pending)) ==> {
                &&& r == Result::<(), ScanError>::Err(ScanError::NotFound)
                &&& *final(self) == *old(self)
            },
            (job_id < old(self).spec_jobs().len() && old(self).spec_jobs()[job_id as int].state
                is Pending) ==> {
                let job = old(self).spec_jobs()[job_id as int];
                &&& r == Result::<(), ScanError>::Ok(())
                &&& final(self).spec_jobs() == old(self).spec_jobs().update(
                    job_id as int,
                    failed_job(job, now, FailReason::Cancelled, false),
                )
                &&& final(self).spec_results() == old(self).spec_results()
                &&& final(self).spec_contracts() == old(self).spec_contracts()
                &&& final(self).spec_history() == old(self).spec_history()
                &&& !final(self).spec_locked(job.contract_id, job.version)
            },
    {
        if job_id >= self.jobs.len() as u64 {
            return Result::Err(ScanError::NotFound);
        }
        let idx = job_id as usize;
        if !matches!(self.jobs[idx].state, JobState::Pending) {
            return Result::Err(ScanError::NotFound);
        }
        self.finish_failed(idx, FailReason::Cancelled, false, now);
        Result::Ok(())
    }
}

} // verus!
