//! Registry and security-assessment core for deployed contract artifacts.
//!
//! Publishers submit contract bytecode; the pipeline statically evaluates it
//! against a versioned rule checklist, measures its runtime cost under a
//! resource budget, and folds both into a deterministic composite score.
//! Every step is specified and verified: parsing, rule evaluation, bounded
//! execution, scoring, the scan-job state machine, history diffing, and the
//! aggregate rollup.

pub mod aggregate;
pub mod artifact;
pub mod benchmark;
pub mod checklist;
pub mod detector;
pub mod errors;
pub mod history;
pub mod orchestrator;
pub mod scoring;
