//! Scaffolding core for standardized project layouts.
//!
//! The heart of the crate is the env reconciler: a line-oriented merge that
//! keeps every line a user wrote and refreshes only the configuration keys
//! this tool owns for the current run. Around it sit the managed-key ledger
//! (which keys are owned, given an optional prefix), the directory scaffold
//! plan, the write-once provenance rule, and the template placeholder fill.
//!
//! The guarantees of the merge are stated and proved where the pieces live:
//! idempotence, foreign preservation, owned replacement, and output order in
//! `reconcile` (generically) and `env` (for the run's concrete key set); the
//! non-destruction of scaffolding in `scaffold`; the write-once rule in
//! `provenance`.

pub mod chars;
pub mod classify;
pub mod env;
pub mod ledger;
pub mod lines;
pub mod messages;
pub mod provenance;
pub mod reconcile;
pub mod scaffold;
pub mod strutil;
pub mod template;
pub mod validate;
