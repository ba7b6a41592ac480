//! What is remembered of a worker's outcome.

use vstd::prelude::*;

verus! {

/// How a piece of work ended.
#[derive(Debug, Clone, Copy, PartialEq, Eq, Structural)]
pub enum Outcome {
    Success,
    Failure,
    Cancelled,
    Aborted,
}

/// What an outcome is put down to.
pub struct Attribution {
    pub goal_id: Option<String>,
    pub plan_id: Option<String>,
    pub step_id: Option<String>,
    pub input_keys: Vec<String>,
    pub error: Option<String>,
}

/// An outcome under the key that makes its record unique.
pub struct ExperienceRecord {
    pub key: String,
    pub worker: String,
    pub outcome: Outcome,
    pub attribution: Attribution,
}

} // verus!
