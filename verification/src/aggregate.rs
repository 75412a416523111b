//! The aggregation task: registry-wide rollups, rebuilt off the request
//! path and replaced whole.
//!
//! `run_once` folds every scan result not yet processed into running sums,
//! then replaces the published snapshot with one value computed from that
//! single basis. A reader therefore sees a snapshot whose every field comes
//! from one rebuild — never a mix of two — and a failed or skipped cycle
//! simply leaves the previous snapshot standing.

use vstd::prelude::*;
use vstd::pervasive::VecAdditionalExecFns;

use crate::orchestrator::{ContractVersion, ScanResult};

verus! {

/// The registry-wide rollup one aggregation cycle publishes.
#[derive(Clone, PartialEq, Eq, Debug)]
pub struct AggregateSnapshot {
    /// Mean score across all results, in hundredths of a point.
    pub avg_score_centi: u64,
    /// How many results scored in each decile: index `w` counts values in
    /// `[10 * w, 10 * w + 9]`, with 100 counted in the top decile.
    pub distribution: Vec<u64>,
    /// How many contract versions have a completed scan.
    pub contract_count: u64,
    pub computed_at: u64,
}

/// The sum of all score values in the results.
pub open spec fn sum_scores(rs: Seq<ScanResult>) -> int
    decreases rs.len(),
{
    if rs.len() == 0 {
        0
    } else {
        sum_scores(rs.drop_last()) + rs.last().score.value as int
    }
}

/// Which decile a score value falls in.
pub open spec fn bucket_of(v: u32) -> int {
    if v >= 100 {
        9
    } else {
        v as int / 10
    }
}

/// How many results score in decile `w`.
pub open spec fn bucket_count(rs: Seq<ScanResult>, w: int) -> int
    decreases rs.len(),
{
    if rs.len() == 0 {
        0
    } else {
        bucket_count(rs.drop_last(), w) + if bucket_of(rs.last().score.value) == w {
            1int
        } else {
            0int
        }
    }
}

/// How many contract versions point at a completed result.
pub open spec fn count_completed(cs: Seq<ContractVersion>) -> int
    decreases cs.len(),
{
    if cs.len() == 0 {
        0
    } else {
        count_completed(cs.drop_last()) + if cs.last().latest_result_ref is Some {
            1int
        } else {
            0int
        }
    }
}

/// The mean score in hundredths of a point; 0 over no results.
pub open spec fn spec_avg_centi(rs: Seq<ScanResult>) -> int {
    if rs.len() == 0 {
        0
    } else {
        sum_scores(rs) * 100 / (rs.len() as int)
    }
}

/// Whether a snapshot value is exactly the rollup of one basis — every
/// field from the same results and contracts, read at the same instant.
pub open spec fn snapshot_of(
    s: AggregateSnapshot,
    rs: Seq<ScanResult>,
    cs: Seq<ContractVersion>,
    at: u64,
) -> bool {
    &&& s.avg_score_centi == spec_avg_centi(rs)
    &&& s.distribution@.len() == 10
    &&& forall|w: int| 0 <= w < 10 ==> #[trigger] s.distribution@[w] == bucket_count(rs, w)
    &&& s.contract_count == count_completed(cs)
    &&& s.computed_at == at
}

proof fn lemma_sum_bound(rs: Seq<ScanResult>)
    ensures
        0 <= sum_scores(rs) <= rs.len() * (u32::MAX as int),
    decreases rs.len(),
{
    if rs.len() > 0 {
        lemma_sum_bound(rs.drop_last());
        assert((rs.len() - 1) * (u32::MAX as int) + (u32::MAX as int) == rs.len() * (
        u32::MAX as int)) by (nonlinear_arith);
    }
}

proof fn lemma_bucket_bound(rs: Seq<ScanResult>, w: int)
    ensures
        0 <= bucket_count(rs, w) <= rs.len(),
    decreases rs.len(),
{
    if rs.len() > 0 {
        lemma_bucket_bound(rs.drop_last(), w);
    }
}

/// One full rebuild, stateless: the whole rollup of the given results and
/// contract rows. This is the per-publisher path — the caller hands in one
/// publisher's results and contract versions (or everything, for the
/// global snapshot) and receives a snapshot computed wholly from that one
/// basis.
pub fn rollup_snapshot(
    results: &Vec<ScanResult>,
    contracts: &Vec<ContractVersion>,
    now: u64,
) -> (s: AggregateSnapshot)
    ensures
        snapshot_of(s, results@, contracts@, now),
{
    let mut sum: u128 = 0;
    let mut buckets: Vec<u64> = Vec::new();
    let mut w: usize = 0;
    while w < 10
        invariant
            w <= 10,
            buckets@.len() == w,
            forall|k: int| 0 <= k < w ==> #[trigger] buckets@[k] == 0,
        decreases 10 - w,
    {
        buckets.push(0);
        w += 1;
    }
    let mut i: usize = 0;
    while i < results.len()
        invariant
            i <= results@.len(),
            buckets@.len() == 10,
            sum == sum_scores(results@.take(i as int)),
            forall|k: int|
                0 <= k < 10 ==> #[trigger] buckets@[k] == bucket_count(results@.take(i as int), k),
        decreases results@.len() - i,
    {
        let v = results[i].score.value;
        proof {
            assert(results@.take(i + 1).drop_last() =~= results@.take(i as int));
            assert(results@.take(i + 1).last() == results@[i as int]);
            lemma_sum_bound(results@.take(i as int));
            lemma_bucket_bound(results@.take(i as int), bucket_of(v));
        }
        sum = sum + v as u128;
        let b: usize = if v >= 100 {
            9
        } else {
            (v / 10) as usize
        };
        let cur = buckets[b];
        buckets.set(b, cur + 1);
        i += 1;
    }
    proof {
        assert(results@.take(results@.len() as int) =~= results@);
    }
    let mut completed: u64 = 0;
    let mut k: usize = 0;
    while k < contracts.len()
        invariant
            k <= contracts@.len(),
            completed == count_completed(contracts@.take(k as int)),
            completed <= k,
        decreases contracts@.len() - k,
    {
        proof {
            assert(contracts@.take(k + 1).drop_last() =~= contracts@.take(k as int));
            assert(contracts@.take(k + 1).last() == contracts@[k as int]);
        }
        if matches!(contracts[k].latest_result_ref, Option::Some(_)) {
            completed = completed + 1;
        }
        k += 1;
    }
    proof {
        assert(contracts@.take(contracts@.len() as int) =~= contracts@);
    }
    let avg: u64 = if results.len() == 0 {
        0
    } else {
        proof {
            lemma_sum_bound(results@);
            assert((sum as int) * 100 <= (u128::MAX as int) && (sum as int) * 100 / (
            results@.len() as int) <= 100 * (u32::MAX as int)) by (nonlinear_arith)
                requires
                    (sum as int) <= (results@.len() as int) * (u32::MAX as int),
                    1 <= results@.len() as int <= 0x1_0000_0000_0000_0000,
            ;
        }
        (sum * 100 / (results.len() as u128)) as u64
    };
    AggregateSnapshot {
        avg_score_centi: avg,
        distribution: buckets,
        contract_count: completed,
        computed_at: now,
    }
}

/// The background aggregation state: running sums over the prefix of the
/// append-only result store already folded in, plus the last published
/// snapshot and the ghost basis it was computed from.
pub struct Aggregator {
    processed: usize,
    sum: u128,
    buckets: Vec<u64>,
    snapshot: Option<AggregateSnapshot>,
    basis: Ghost<(Seq<ScanResult>, Seq<ContractVersion>, u64)>,
}

impl Aggregator {
    /// The prefix length of the result store already folded in.
    pub closed spec fn spec_processed(self) -> int {
        self.processed as int
    }

    /// The published snapshot, if a cycle has run.
    pub closed spec fn spec_snapshot(self) -> Option<AggregateSnapshot> {
        self.snapshot
    }

    /// The basis the published snapshot was computed from.
    pub closed spec fn spec_basis(self) -> (Seq<ScanResult>, Seq<ContractVersion>, u64) {
        self.basis@
    }

    /// The folded prefix of the result store this state stands for.
    pub closed spec fn spec_prefix(self) -> Seq<ScanResult> {
        self.basis@.0
    }

    /// The aggregation invariant: the running sums equal the rollup of the
    /// folded prefix, and the published snapshot, if any, is the whole
    /// rollup of its one recorded basis.
    pub closed spec fn wf(self) -> bool {
        &&& self.buckets@.len() == 10
        &&& self.basis@.0.len() == self.processed
        &&& self.sum == sum_scores(self.basis@.0)
        &&& forall|w: int|
            0 <= w < 10 ==> #[trigger] self.buckets@[w] == bucket_count(self.basis@.0, w)
        &&& match self.snapshot {
            Option::Some(s) => snapshot_of(s, self.basis@.0, self.basis@.1, self.basis@.2),
            Option::None => true,
        }
    }

    /// A reader of a well-formed aggregator never observes a mixed
    /// snapshot: every field of the value it reads is the rollup of the one
    /// basis the last completed rebuild recorded.
    pub proof fn lemma_snapshot_atomic(self)
        requires
            self.wf(),
        ensures
            match self.spec_snapshot() {
                Option::Some(s) => snapshot_of(
                    s,
                    self.spec_basis().0,
                    self.spec_basis().1,
                    self.spec_basis().2,
                ),
                Option::None => true,
            },
    {
    }

    /// A fresh aggregator: nothing folded, nothing published.
    pub fn new() -> (r: Aggregator)
        ensures
            r.wf(),
            r.spec_processed() == 0,
            r.spec_snapshot() is None,
            r.spec_prefix() == Seq::<ScanResult>::empty(),
    {
        let mut buckets: Vec<u64> = Vec::new();
        let mut w: usize = 0;
        while w < 10
            invariant
                w <= 10,
                buckets@.len() == w,
                forall|k: int| 0 <= k < w ==> #[trigger] buckets@[k] == 0,
            decreases 10 - w,
        {
            buckets.push(0);
            w += 1;
        }
        let r = Aggregator {
            processed: 0,
            sum: 0,
            buckets,
            snapshot: Option::None,
            basis: Ghost((Seq::empty(), Seq::empty(), 0)),
        };
        proof {
            assert(r.basis@.0.len() == 0);
        }
        r
    }

    /// The last published snapshot, whole; a rebuild in progress never
    /// shows through, because publication is one replace-on-write below.
    pub fn read_snapshot(&self) -> (r: Option<&AggregateSnapshot>)
        ensures
            match r {
                Option::Some(s) => self.spec_snapshot() == Option::Some(*s),
                Option::None => self.spec_snapshot() is None,
            },
    {
        match &self.snapshot {
            Option::Some(s) => Option::Some(s),
            Option::None => Option::None,
        }
    }

    /// One aggregation cycle: fold every result not yet processed into the
    /// running sums, recount completed contract versions, and publish one
    /// snapshot computed wholly from that basis. The result store is
    /// append-only, so the folded prefix must still be a prefix of what is
    /// passed in; the task runs on its own schedule and neither blocks nor
    /// is blocked by scan submission.
    pub fn run_once(
        &mut self,
        results: &Vec<ScanResult>,
        contracts: &Vec<ContractVersion>,
        now: u64,
    )
        requires
            old(self).wf(),
            old(self).spec_prefix() == results@.take(old(self).spec_processed()),
            old(self).spec_processed() <= results@.len(),
        ensures
            final(self).wf(),
            final(self).spec_processed() == results@.len(),
            final(self).spec_prefix() == results@,
            final(self).spec_basis() == (results@, contracts@, now),
            match final(self).spec_snapshot() {
                Option::Some(s) => snapshot_of(s, results@, contracts@, now),
                Option::None => false,
            },
    {
        let mut i: usize = self.processed;
        while i < results.len()
            invariant
                self.processed <= i <= results@.len(),
                self.buckets@.len() == 10,
                self.sum == sum_scores(results@.take(i as int)),
                forall|w: int|
                    0 <= w < 10 ==> #[trigger] self.buckets@[w] == bucket_count(
                        results@.take(i as int),
                        w,
                    ),
            decreases results@.len() - i,
        {
            let v = results[i].score.value;
            proof {
                assert(results@.take(i + 1).drop_last() =~= results@.take(i as int));
                assert(results@.take(i + 1).last() == results@[i as int]);
                lemma_sum_bound(results@.take(i as int));
                lemma_bucket_bound(results@.take(i as int), bucket_of(v));
            }
            self.sum = self.sum + v as u128;
            let w: usize = if v >= 100 {
                9
            } else {
                (v / 10) as usize
            };
            let b = self.buckets[w];
            self.buckets.set(w, b + 1);
            i += 1;
        }
        proof {
            assert(results@.take(results@.len() as int) =~= results@);
        }
        self.processed = i;
        let mut completed: u64 = 0;
        let mut k: usize = 0;
        while k < contracts.len()
            invariant
                k <= contracts@.len(),
                completed == count_completed(contracts@.take(k as int)),
                completed <= k,
            decreases contracts@.len() - k,
        {
            proof {
                assert(contracts@.take(k + 1).drop_last() =~= contracts@.take(k as int));
                assert(contracts@.take(k + 1).last() == contracts@[k as int]);
            }
            if matches!(contracts[k].latest_result_ref, Option::Some(_)) {
                completed = completed + 1;
            }
            k += 1;
        }
        proof {
            assert(contracts@.take(contracts@.len() as int) =~= contracts@);
        }
        let avg: u64 = if results.len() == 0 {
            0
        } else {
            proof {
                lemma_sum_bound(results@);
                assert((self.sum as int) * 100 <= (u128::MAX as int) && (self.sum as int) * 100 / (
                results@.len() as int) <= 100 * (u32::MAX as int)) by (nonlinear_arith)
                    requires
                        (self.sum as int) <= (results@.len() as int) * (u32::MAX as int),
                        1 <= results@.len() as int <= 0x1_0000_0000_0000_0000,
                ;
            }
            (self.sum * 100 / (results.len() as u128)) as u64
        };
        let mut distribution: Vec<u64> = Vec::new();
        let mut w: usize = 0;
        while w < 10
            invariant
                w <= 10,
                self.buckets@.len() == 10,
                distribution@.len() == w,
                forall|j: int| 0 <= j < w ==> #[trigger] distribution@[j] == self.buckets@[j],
            decreases 10 - w,
        {
            distribution.push(self.buckets[w]);
            w += 1;
        }
        self.snapshot = Option::Some(
            AggregateSnapshot {
                avg_score_centi: avg,
                distribution,
                contract_count: completed,
                computed_at: now,
            },
        );
        proof {
            self.basis@ = (results@, contracts@, now);
        }
    }
}

} // verus!
