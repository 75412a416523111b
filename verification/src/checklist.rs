//! The checklist registry: immutable, versioned rule definitions.
//!
//! Versions are the integers 1, 2, 3, ... in order of publication; version
//! `v` lives at index `v - 1`. Publication is append-only: a new version
//! never mutates a prior one, which is what keeps historical scores
//! reproducible indefinitely.

use vstd::prelude::*;

use crate::errors::ScanError;

verus! {

/// The rule category a deduction is charged to.
#[derive(Clone, Copy, PartialEq, Eq, Structural, Debug)]
pub enum Category {
    Safety,
    Determinism,
    Resource,
}

/// One detector rule as published: immutable under a given registry version
/// and identified by `(id, version)`.
#[derive(Clone, Copy, PartialEq, Eq, Structural, Debug)]
pub struct ChecklistRule {
    pub id: u64,
    pub category: Category,
    /// Score points deducted per finding of this rule.
    pub severity_weight: u32,
    pub enabled: bool,
    /// The registry version this rule was published under.
    pub version: u64,
}

/// The enabled rules at or after index `i`, in publication order.
pub open spec fn enabled_from(rules: Seq<ChecklistRule>, i: int) -> Seq<ChecklistRule>
    decreases rules.len() - i,
{
    if i < 0 || i >= rules.len() {
        Seq::empty()
    } else if rules[i].enabled {
        seq![rules[i]] + enabled_from(rules, i + 1)
    } else {
        enabled_from(rules, i + 1)
    }
}

/// Which rules of a version are handed to the detector for a fresh scan:
/// the enabled ones, in publication order.
pub open spec fn enabled_only(rules: Seq<ChecklistRule>) -> Seq<ChecklistRule> {
    enabled_from(rules, 0)
}

fn collect_enabled(stored: &Vec<ChecklistRule>, i: usize) -> (r: Vec<ChecklistRule>)
    requires
        i <= stored@.len(),
    ensures
        r@ == enabled_from(stored@, i as int),
    decreases stored@.len() - i,
{
    if i == stored.len() {
        Vec::new()
    } else {
        let mut rest = collect_enabled(stored, i + 1);
        if stored[i].enabled {
            let head = stored[i];
            rest.insert(0, head);
            proof {
                assert(rest@ =~= seq![head] + rest@.subrange(1, rest@.len() as int));
            }
        }
        rest
    }
}

fn copy_rules(stored: &Vec<ChecklistRule>, i: usize) -> (r: Vec<ChecklistRule>)
    requires
        i <= stored@.len(),
    ensures
        r@ == stored@.subrange(i as int, stored@.len() as int),
    decreases stored@.len() - i,
{
    if i == stored.len() {
        let r: Vec<ChecklistRule> = Vec::new();
        proof {
            assert(r@ =~= stored@.subrange(i as int, stored@.len() as int));
        }
        r
    } else {
        let mut rest = copy_rules(stored, i + 1);
        let head = stored[i];
        rest.insert(0, head);
        proof {
            assert(rest@ =~= stored@.subrange(i as int, stored@.len() as int));
        }
        rest
    }
}

/// The append-only store of checklist versions.
pub struct Registry {
    versions: Vec<Vec<ChecklistRule>>,
}

impl Registry {
    /// How many versions have been published.
    pub closed spec fn spec_version_count(self) -> int {
        self.versions@.len() as int
    }

    /// Whether `v` names a published version.
    pub closed spec fn spec_has_version(self, v: u64) -> bool {
        1 <= v <= self.versions@.len()
    }

    /// The full rule list of a published version, disabled rules included.
    pub closed spec fn spec_rules_of(self, v: u64) -> Seq<ChecklistRule> {
        self.versions@[v - 1]@
    }

    /// Every stored rule carries the version it was published under.
    pub closed spec fn wf(self) -> bool {
        forall|v: int, j: int|
            0 <= v < self.versions@.len() && 0 <= j < self.versions@[v]@.len()
                ==> (#[trigger] self.versions@[v]@[j]).version == v + 1
    }

    /// An empty registry: no version published yet.
    pub fn new() -> (r: Registry)
        ensures
            r.wf(),
            r.spec_version_count() == 0,
    {
        Registry { versions: Vec::new() }
    }

    /// How many versions have been published.
    pub fn version_count(&self) -> (n: u64)
        ensures
            n == self.spec_version_count(),
    {
        self.versions.len() as u64
    }

    /// Publish a new checklist version from the given rule bodies; the
    /// stored copies carry the fresh version number. Prior versions are
    /// left untouched — the reproducibility guarantee rests on this clause.
    pub fn publish(&mut self, rules: Vec<ChecklistRule>) -> (v: u64)
        requires
            old(self).wf(),
            old(self).spec_version_count() < u64::MAX,
        ensures
            final(self).wf(),
            v == old(self).spec_version_count() + 1,
            final(self).spec_version_count() == old(self).spec_version_count() + 1,
            final(self).spec_rules_of(v).len() == rules@.len(),
            forall|j: int| 0 <= j < rules@.len()
                ==> #[trigger] final(self).spec_rules_of(v)[j]
                    == (ChecklistRule { version: v, ..rules@[j] }),
            forall|w: u64| old(self).spec_has_version(w)
                ==> #[trigger] final(self).spec_rules_of(w) == old(self).spec_rules_of(w),
    {
        let v: u64 = self.versions.len() as u64 + 1;
        let mut stamped: Vec<ChecklistRule> = Vec::new();
        let mut i: usize = 0;
        while i < rules.len()
            invariant
                i <= rules@.len(),
                stamped@.len() == i,
                forall|j: int| 0 <= j < i
                    ==> #[trigger] stamped@[j] == (ChecklistRule { version: v, ..rules@[j] }),
            decreases rules@.len() - i,
        {
            let r = rules[i];
            stamped.push(ChecklistRule { version: v, ..r });
            i += 1;
        }
        self.versions.push(stamped);
        v
    }

    /// The full rule list of a version, disabled rules included, so that an
    /// old score can be reproduced exactly; `NotFound` when the version was
    /// never published.
    pub fn get(&self, v: u64) -> (r: Result<Vec<ChecklistRule>, ScanError>)
        ensures
            match r {
                Result::Ok(rs) => self.spec_has_version(v) && rs@ == self.spec_rules_of(v),
                Result::Err(e) => !self.spec_has_version(v) && e == ScanError::NotFound,
            },
    {
        let count = self.versions.len();
        if v == 0 || v > count as u64 {
            return Result::Err(ScanError::NotFound);
        }
        let idx = (v - 1) as usize;
        let stored = &self.versions[idx];
        let out = copy_rules(stored, 0);
        proof {
            assert(out@ =~= stored@);
        }
        Result::Ok(out)
    }

    /// The newest version together with only its enabled rules — what a
    /// fresh scan evaluates; `NotFound` while nothing has been published.
    pub fn current(&self) -> (r: Result<(u64, Vec<ChecklistRule>), ScanError>)
        ensures
            match r {
                Result::Ok(p) => {
                    &&& self.spec_version_count() > 0
                    &&& p.0 == self.spec_version_count()
                    &&& p.1@ == enabled_only(self.spec_rules_of(p.0))
                },
                Result::Err(e) => self.spec_version_count() == 0 && e == ScanError::NotFound,
            },
    {
        let n = self.versions.len();
        if n == 0 {
            return Result::Err(ScanError::NotFound);
        }
        let v = n as u64;
        let stored = &self.versions[n - 1];
        let out = collect_enabled(stored, 0);
        Result::Ok((v, out))
    }
}

} // verus!
