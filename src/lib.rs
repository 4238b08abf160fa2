//! Desired-state rollout of cluster changes: the decisions that turn a
//! declarative descriptor into an ordered sequence of remote operations.
//!
//! - `tag`: substitution of the run tag for the placeholder in names.
//! - `authz`: universal scopes and the check of targeted scopes.
//! - `refmap`: the write-once map from reference names to image identifiers.
//! - `poller`: the bounded watch of one remote build job.
//! - `descriptor`: the descriptor of a run and the checks made before it.
//! - `document`: reading a descriptor out of a tree of plain values.
//! - `pipeline`: the run itself, as a state machine fed with remote replies.

pub mod authz;
pub mod descriptor;
pub mod document;
pub mod pipeline;
pub mod poller;
pub mod refmap;
pub mod tag;
