//! Submission event hub of a contest judging backend: the aggregated
//! per-submission snapshot, the reducer that folds judge events into it,
//! the registry of live subscribers that snapshots are fanned out to, and
//! the routing of snapshot reads and writes to the store's workers.

pub mod config;
pub mod hub;
pub mod laws;
pub mod model;
pub mod reducer;
pub mod registry;
pub mod store;
pub mod tasks;

pub use config::{Config, General, Host, Redis, Web};
pub use hub::{fold_stored, Dispatch, JudgeService};
pub use model::{Submission, SubmissionState, SubmissionView, TestCase, TestState};
pub use reducer::JudgeState;
pub use registry::Registry;
pub use store::{route, shard_of, KeyDbMessage, KeyDbResponse};
pub use tasks::{Statement, StatementFormat, Stub};
