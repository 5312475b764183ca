//! The data model of the engine: input tasks, execution outcomes, and the
//! per-task result records, together with the explicit mapping from a record
//! to the delimited-text fields it is emitted as.

use vstd::prelude::*;
use crate::digits::decimal_digits;
use crate::digits::u64_to_decimal;

verus! {

/// The final status of one task, as it appears in the output.
#[derive(Clone, Copy, Debug, PartialEq, Eq, Structural)]
pub enum TaskStatus {
    Completed,
    Failed,
}

impl TaskStatus {
    /// The literal output label of this status.
    pub open spec fn spec_label(self) -> Seq<char> {
        match self {
            TaskStatus::Completed => "Completed"@,
            TaskStatus::Failed => "Failed"@,
        }
    }

    /// The deliberate mapping of the status to its two output strings; the
    /// serialized form never depends on how the variants are named.
    pub fn label(&self) -> (s: &'static str)
        ensures
            s@ == self.spec_label(),
    {
        match self {
            TaskStatus::Completed => "Completed",
            TaskStatus::Failed => "Failed",
        }
    }
}

/// One input row: a task identifier and a free-text task type, which the
/// engine accepts but does not use.
#[derive(Clone, Debug)]
pub struct InputTask {
    pub task_id: u64,
    pub task_type: String,
}

/// The result of one remote operation invocation: success, or a failure that
/// carries a human-readable diagnostic.
#[derive(Debug)]
pub enum ExecutionOutcome {
    Success,
    Failure(String),
}

impl ExecutionOutcome {
    /// A well-formed outcome: a failure always carries a non-empty
    /// diagnostic.
    pub open spec fn wf(self) -> bool {
        match self {
            ExecutionOutcome::Success => true,
            ExecutionOutcome::Failure(m) => m@.len() > 0,
        }
    }
}

/// The mathematical model of one output record.
#[verifier::ext_equal]
pub struct RecordModel {
    pub task_id: u64,
    pub status: TaskStatus,
    pub error_info: Seq<char>,
}

impl RecordModel {
    /// The status/error-info coupling: a completed record carries no
    /// diagnostic, a failed record always carries one.
    pub open spec fn coupled(self) -> bool {
        &&& self.status is Completed ==> self.error_info.len() == 0
        &&& self.status is Failed ==> self.error_info.len() > 0
    }
}

/// One output record: the task identifier, its final status, and the
/// diagnostic (empty on success).
#[derive(Debug)]
pub struct TaskResult {
    pub task_id: u64,
    pub final_status: TaskStatus,
    pub error_info: String,
}

impl View for TaskResult {
    type V = RecordModel;

    open spec fn view(&self) -> RecordModel {
        RecordModel {
            task_id: self.task_id,
            status: self.final_status,
            error_info: self.error_info@,
        }
    }
}

/// The record that a given outcome of a given task folds into.
pub open spec fn record_for(id: u64, o: ExecutionOutcome) -> RecordModel {
    match o {
        ExecutionOutcome::Success => RecordModel {
            task_id: id,
            status: TaskStatus::Completed,
            error_info: Seq::empty(),
        },
        ExecutionOutcome::Failure(m) => RecordModel {
            task_id: id,
            status: TaskStatus::Failed,
            error_info: m@,
        },
    }
}

/// Folds one outcome into its output record: success becomes `Completed`
/// with an empty diagnostic, failure becomes `Failed` carrying its
/// diagnostic.
pub fn record_of_outcome(task_id: u64, outcome: ExecutionOutcome) -> (r: TaskResult)
    ensures
        r@ == record_for(task_id, outcome),
{
    match outcome {
        ExecutionOutcome::Success => {
            let r = TaskResult {
                task_id,
                final_status: TaskStatus::Completed,
                error_info: String::new(),
            };
            proof {
                assert(r@ =~= record_for(task_id, ExecutionOutcome::Success));
            }
            r
        },
        ExecutionOutcome::Failure(m) => TaskResult {
            task_id,
            final_status: TaskStatus::Failed,
            error_info: m,
        },
    }
}

/// The header fields of the output, in emission order.
pub fn output_header() -> (h: (&'static str, &'static str, &'static str))
    ensures
        h.0@ == "task_id"@,
        h.1@ == "final_status"@,
        h.2@ == "error_info"@,
{
    ("task_id", "final_status", "error_info")
}

impl TaskResult {
    /// The three output fields of this record, in emission order: the task
    /// identifier in decimal, the status label, and the diagnostic.
    pub fn output_fields(&self) -> (f: (String, String, String))
        ensures
            f.0@ == decimal_digits(self.task_id as nat),
            f.1@ == self.final_status.spec_label(),
            f.2@ == self.error_info@,
    {
        let id_field = u64_to_decimal(self.task_id);
        let status_field = self.final_status.label().to_owned();
        let error_field = self.error_info.clone();
        (id_field, status_field, error_field)
    }
}

} // verus!
