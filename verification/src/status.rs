//! Decision and lifecycle tags, and the text each is stored under.

use vstd::prelude::*;
use crate::text::same_text;

verus! {

/// One approver's decision on a plan.
#[derive(Clone, Copy, Debug, PartialEq, Eq, Structural)]
pub enum ApprovalStatus {
    Pending,
    Approved,
    Rejected,
}

/// Where a plan stands on its way to execution.
#[derive(Clone, Copy, Debug, PartialEq, Eq, Structural)]
pub enum PlanStatus {
    /// Not gated and not executed.
    Created,
    /// Gated, with fewer approvals than required.
    AwaitingApproval,
    /// Gated, with the threshold met.
    Executable,
    /// Executed; terminal.
    Executed,
}

impl PlanStatus {
    /// The text under which a lifecycle tag is stored.
    pub open spec fn text(self) -> Seq<char> {
        match self {
            PlanStatus::Created => "created"@,
            PlanStatus::AwaitingApproval => "awaiting_approval"@,
            PlanStatus::Executable => "executable"@,
            PlanStatus::Executed => "executed"@,
        }
    }

    pub fn to_string(&self) -> (s: String)
        ensures
            s@ == self.text(),
    {
        match self {
            PlanStatus::Created => "created".to_owned(),
            PlanStatus::AwaitingApproval => "awaiting_approval".to_owned(),
            PlanStatus::Executable => "executable".to_owned(),
            PlanStatus::Executed => "executed".to_owned(),
        }
    }
}

impl ApprovalStatus {
    /// The text under which a decision is stored and reported.
    pub open spec fn text(self) -> Seq<char> {
        match self {
            ApprovalStatus::Pending => "pending"@,
            ApprovalStatus::Approved => "approved"@,
            ApprovalStatus::Rejected => "rejected"@,
        }
    }

    /// The decision that a stored text stands for. Text that names no
    /// decision reads as `Pending`.
    pub open spec fn of_text(s: Seq<char>) -> ApprovalStatus {
        if s == "approved"@ {
            ApprovalStatus::Approved
        } else if s == "rejected"@ {
            ApprovalStatus::Rejected
        } else {
            ApprovalStatus::Pending
        }
    }

    /// The decision that a submitted vote records.
    pub open spec fn of_vote(approve: bool) -> ApprovalStatus {
        if approve {
            ApprovalStatus::Approved
        } else {
            ApprovalStatus::Rejected
        }
    }

    pub fn from_vote(approve: bool) -> (status: ApprovalStatus)
        ensures
            status == Self::of_vote(approve),
    {
        if approve {
            ApprovalStatus::Approved
        } else {
            ApprovalStatus::Rejected
        }
    }

    pub fn to_string(&self) -> (s: String)
        ensures
            s@ == self.text(),
    {
        match self {
            ApprovalStatus::Pending => "pending".to_owned(),
            ApprovalStatus::Approved => "approved".to_owned(),
            ApprovalStatus::Rejected => "rejected".to_owned(),
        }
    }

    pub fn from_text(s: &str) -> (status: ApprovalStatus)
        ensures
            status == Self::of_text(s@),
    {
        if same_text(s, "approved") {
            ApprovalStatus::Approved
        } else if same_text(s, "rejected") {
            ApprovalStatus::Rejected
        } else {
            ApprovalStatus::Pending
        }
    }
}

/// The three decision texts are pairwise different, so reading back a
/// written decision gives the decision.
pub proof fn lemma_status_text_round_trip(status: ApprovalStatus)
    ensures
        ApprovalStatus::of_text(status.text()) == status,
{
    reveal_strlit("pending");
    reveal_strlit("approved");
    reveal_strlit("rejected");
    assert("pending"@.len() == 7);
    assert("approved"@[0] == 'a');
    assert("rejected"@[0] == 'r');
    assert("pending"@[0] == 'p');
}

} // verus!
