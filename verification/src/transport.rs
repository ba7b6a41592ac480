//! What is handed to a transport that runs tasks on other nodes, and what it
//! reports back.

use crate::json::Json;
use crate::text::copy_str;
use vstd::prelude::*;

verus! {

/// A task for a worker on another node.
pub struct TransportTask {
    pub task_id: String,
    pub worker: String,
    pub correlation_id: String,
    pub input: Json,
    pub lineage: Vec<String>,
    pub approval_required: bool,
}

impl TransportTask {
    /// A task without lineage that needs no approval.
    pub fn new(task_id: &str, worker: &str, correlation_id: &str, input: Json) -> (r: TransportTask)
        ensures
            r.task_id@ == task_id@,
            r.worker@ == worker@,
            r.correlation_id@ == correlation_id@,
            r.input == input,
            r.lineage@.len() == 0,
            !r.approval_required,
    {
        TransportTask {
            task_id: copy_str(task_id),
            worker: copy_str(worker),
            correlation_id: copy_str(correlation_id),
            input,
            lineage: Vec::new(),
            approval_required: false,
        }
    }
}

/// How far a task is.
#[derive(Debug, Clone, Copy, PartialEq, Eq, Structural)]
pub enum TransportStatus {
    Queued,
    Running,
    AwaitingApproval,
    Succeeded,
    Failed,
    Cancelled,
}

/// What an event of a task reports.
#[derive(Debug, Clone, Copy, PartialEq, Eq, Structural)]
pub enum TransportEventKind {
    Progress,
    ApprovalRequested,
    Result,
    Cancelled,
}

/// An event of a task.
pub struct TransportEvent {
    pub task_id: String,
    pub kind: TransportEventKind,
    pub correlation_id: String,
    pub payload: Json,
    pub lineage: Vec<String>,
}

} // verus!
