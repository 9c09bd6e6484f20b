//! The ways in which an approval operation fails.

use vstd::prelude::*;

verus! {

/// What was wrong with a request before the ledger was looked at.
#[derive(Clone, Copy, Debug, PartialEq, Eq, Structural)]
pub enum ValidationIssue {
    /// No approver was named.
    EmptyApproverList,
    /// The required number of approvals was zero or negative.
    NonPositiveRequiredCount,
}

#[derive(Clone, Copy, Debug, PartialEq, Eq, Structural)]
pub enum ApprovalError {
    /// The plan or approval does not exist, or the plan is not the caller's.
    NotFound,
    ValidationError(ValidationIssue),
    /// The plan was never put under multi-signature approval.
    MultiSignatureNotEnabled,
    /// Execution was asked for with the threshold not met.
    InsufficientApprovals { required: i32, current: i32 },
    /// An insert of the new approver set failed. Nothing was changed.
    TransactionAborted,
}

impl ApprovalError {
    /// What the caller is told: a fixed text for each kind of failure, with
    /// nothing of the ledger's content in it.
    pub open spec fn message_text(self) -> Seq<char> {
        match self {
            ApprovalError::NotFound => "Not found"@,
            ApprovalError::ValidationError(ValidationIssue::EmptyApproverList) =>
                "At least one approver is required"@,
            ApprovalError::ValidationError(ValidationIssue::NonPositiveRequiredCount) =>
                "Required approvals must be a positive integer"@,
            ApprovalError::MultiSignatureNotEnabled =>
                "Multi-signature approval not enabled for this plan"@,
            ApprovalError::InsufficientApprovals { .. } => "Insufficient approvals to execute plan"@,
            ApprovalError::TransactionAborted => "Failed to create approval request"@,
        }
    }

    pub fn message(&self) -> (text: String)
        ensures
            text@ == self.message_text(),
    {
        match self {
            ApprovalError::NotFound => "Not found".to_owned(),
            ApprovalError::ValidationError(ValidationIssue::EmptyApproverList) => {
                "At least one approver is required".to_owned()
            },
            ApprovalError::ValidationError(ValidationIssue::NonPositiveRequiredCount) => {
                "Required approvals must be a positive integer".to_owned()
            },
            ApprovalError::MultiSignatureNotEnabled => {
                "Multi-signature approval not enabled for this plan".to_owned()
            },
            ApprovalError::InsufficientApprovals { .. } => {
                "Insufficient approvals to execute plan".to_owned()
            },
            ApprovalError::TransactionAborted => "Failed to create approval request".to_owned(),
        }
    }
}

} // verus!
