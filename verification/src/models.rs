//! Plans, approvals and the values that the approval operations take and
//! return.
//!
//! Identifiers are 128-bit numbers and instants are microseconds since the
//! Unix epoch. Each type that holds text has a view in which the text is a
//! sequence of characters; contracts speak of the views.

use vstd::prelude::*;
use crate::status::{ApprovalStatus, PlanStatus};

verus! {

/// A unit of work that may need sign-off before it is executed.
#[derive(Debug, PartialEq, Eq)]
pub struct Plan {
    pub id: u128,
    /// The user who requested the plan.
    pub owner: u128,
    pub name: String,
    pub description: String,
    /// Whether the execution gate looks at approvals at all.
    pub multi_signature_approval: bool,
    pub required_approvals: i32,
    /// The number of approvals of this plan whose decision is `Approved`.
    pub current_approvals: i32,
    pub status: PlanStatus,
    /// Set once, when the plan is executed.
    pub executed_at: Option<i64>,
}

pub ghost struct PlanView {
    pub id: u128,
    pub owner: u128,
    pub name: Seq<char>,
    pub description: Seq<char>,
    pub multi_signature_approval: bool,
    pub required_approvals: i32,
    pub current_approvals: i32,
    pub status: PlanStatus,
    pub executed_at: Option<i64>,
}

impl View for Plan {
    type V = PlanView;

    open spec fn view(&self) -> PlanView {
        PlanView {
            id: self.id,
            owner: self.owner,
            name: self.name@,
            description: self.description@,
            multi_signature_approval: self.multi_signature_approval,
            required_approvals: self.required_approvals,
            current_approvals: self.current_approvals,
            status: self.status,
            executed_at: self.executed_at,
        }
    }
}

impl DeepView for Plan {
    type V = PlanView;

    open spec fn deep_view(&self) -> PlanView {
        self@
    }
}

impl Clone for Plan {
    fn clone(&self) -> (copy: Plan)
        ensures
            copy == *self,
    {
        Plan {
            id: self.id,
            owner: self.owner,
            name: self.name.clone(),
            description: self.description.clone(),
            multi_signature_approval: self.multi_signature_approval,
            required_approvals: self.required_approvals,
            current_approvals: self.current_approvals,
            status: self.status,
            executed_at: self.executed_at,
        }
    }
}

impl PlanView {
    /// Whether the plan may be executed: always when it is not gated, and
    /// once the threshold is met when it is.
    pub open spec fn can_execute(self) -> bool {
        !self.multi_signature_approval || self.current_approvals >= self.required_approvals
    }

    /// The lifecycle tag that the other fields determine.
    pub open spec fn stage(self) -> PlanStatus {
        if self.executed_at is Some {
            PlanStatus::Executed
        } else if !self.multi_signature_approval {
            PlanStatus::Created
        } else if self.current_approvals >= self.required_approvals {
            PlanStatus::Executable
        } else {
            PlanStatus::AwaitingApproval
        }
    }

    /// What every stored plan satisfies by itself.
    pub open spec fn valid(self) -> bool {
        &&& self.required_approvals >= 0
        &&& self.current_approvals >= 0
        &&& self.status == self.stage()
    }
}

/// One approver's decision, pending or made, on one plan.
#[derive(Debug, PartialEq, Eq)]
pub struct Approval {
    pub id: u128,
    pub plan_id: u128,
    /// The approver's identity, once resolved.
    pub approver_id: Option<u128>,
    pub approver_email: String,
    pub status: ApprovalStatus,
    /// When the decision was last submitted.
    pub approved_at: Option<i64>,
    pub created_at: i64,
    pub updated_at: i64,
}

pub ghost struct ApprovalView {
    pub id: u128,
    pub plan_id: u128,
    pub approver_id: Option<u128>,
    pub approver_email: Seq<char>,
    pub status: ApprovalStatus,
    pub approved_at: Option<i64>,
    pub created_at: i64,
    pub updated_at: i64,
}

impl View for Approval {
    type V = ApprovalView;

    open spec fn view(&self) -> ApprovalView {
        ApprovalView {
            id: self.id,
            plan_id: self.plan_id,
            approver_id: self.approver_id,
            approver_email: self.approver_email@,
            status: self.status,
            approved_at: self.approved_at,
            created_at: self.created_at,
            updated_at: self.updated_at,
        }
    }
}

impl DeepView for Approval {
    type V = ApprovalView;

    open spec fn deep_view(&self) -> ApprovalView {
        self@
    }
}

impl Clone for Approval {
    fn clone(&self) -> (copy: Approval)
        ensures
            copy == *self,
    {
        Approval {
            id: self.id,
            plan_id: self.plan_id,
            approver_id: self.approver_id,
            approver_email: self.approver_email.clone(),
            status: self.status,
            approved_at: self.approved_at,
            created_at: self.created_at,
            updated_at: self.updated_at,
        }
    }
}

impl ApprovalView {
    /// The row that a new invitation starts as.
    pub open spec fn pending(id: u128, plan_id: u128, email: Seq<char>, now: i64) -> ApprovalView {
        ApprovalView {
            id,
            plan_id,
            approver_id: None,
            approver_email: email,
            status: ApprovalStatus::Pending,
            approved_at: None,
            created_at: now,
            updated_at: now,
        }
    }

    /// The row after a vote is recorded on it.
    pub open spec fn decided(self, approve: bool, now: i64) -> ApprovalView {
        ApprovalView {
            status: ApprovalStatus::of_vote(approve),
            approved_at: Some(now),
            updated_at: now,
            ..self
        }
    }
}

impl PlanView {
    /// The plan with its lifecycle tag brought in line with its other fields.
    pub open spec fn restaged(self) -> PlanView {
        PlanView { status: self.stage(), ..self }
    }
}

impl Plan {
    /// The lifecycle tag that the plan's other fields determine.
    pub fn stage(&self) -> (stage: PlanStatus)
        ensures
            stage == self@.stage(),
    {
        if self.executed_at.is_some() {
            PlanStatus::Executed
        } else if !self.multi_signature_approval {
            PlanStatus::Created
        } else if self.current_approvals >= self.required_approvals {
            PlanStatus::Executable
        } else {
            PlanStatus::AwaitingApproval
        }
    }

    /// Whether the execution gate lets the plan pass.
    pub fn can_execute(&self) -> (pass: bool)
        ensures
            pass == self@.can_execute(),
    {
        !self.multi_signature_approval || self.current_approvals >= self.required_approvals
    }
}

/// An approver to invite, with the id that the approval will carry.
#[derive(Debug, PartialEq, Eq)]
pub struct Invitation {
    pub id: u128,
    pub email: String,
}

pub ghost struct InvitationView {
    pub id: u128,
    pub email: Seq<char>,
}

impl View for Invitation {
    type V = InvitationView;

    open spec fn view(&self) -> InvitationView {
        InvitationView { id: self.id, email: self.email@ }
    }
}

impl DeepView for Invitation {
    type V = InvitationView;

    open spec fn deep_view(&self) -> InvitationView {
        self@
    }
}

/// A request to put a plan under approval by the named approvers.
#[derive(Debug, PartialEq, Eq)]
pub struct ApprovalRequest {
    pub plan_id: u128,
    pub approver_emails: Vec<String>,
    pub required_approvals: i32,
}

/// One approver to add.
#[derive(Debug, PartialEq, Eq)]
pub struct CreateApproverRequest {
    pub email: String,
}

impl Invitation {
    /// The invitation of an approver under the id given.
    pub fn for_approver(id: u128, approver: CreateApproverRequest) -> (invitation: Invitation)
        ensures
            invitation@ == (InvitationView { id, email: approver.email@ }),
    {
        Invitation { id, email: approver.email }
    }
}

/// What a granted approval request reports.
#[derive(Clone, Copy, Debug, PartialEq, Eq, Structural)]
pub struct ApprovalReceipt {
    pub plan_id: u128,
    pub required_approvals: i32,
    pub approver_count: usize,
}

/// A vote on an approval.
#[derive(Clone, Copy, Debug, PartialEq, Eq, Structural)]
pub struct SubmitApprovalRequest {
    pub approval_id: u128,
    pub approve: bool,
}

/// What a recorded vote reports.
#[derive(Clone, Copy, Debug, PartialEq, Eq, Structural)]
pub struct SubmitReceipt {
    pub approval_id: u128,
    pub plan_id: u128,
    pub status: ApprovalStatus,
}

/// An approval as it is shown to its approver.
#[derive(Debug, PartialEq, Eq)]
pub struct ApprovalResponse {
    pub id: u128,
    pub plan_id: u128,
    pub approver_email: String,
    pub status: ApprovalStatus,
    pub approved_at: Option<i64>,
    pub created_at: i64,
}

pub ghost struct ApprovalResponseView {
    pub id: u128,
    pub plan_id: u128,
    pub approver_email: Seq<char>,
    pub status: ApprovalStatus,
    pub approved_at: Option<i64>,
    pub created_at: i64,
}

impl View for ApprovalResponse {
    type V = ApprovalResponseView;

    open spec fn view(&self) -> ApprovalResponseView {
        ApprovalResponseView {
            id: self.id,
            plan_id: self.plan_id,
            approver_email: self.approver_email@,
            status: self.status,
            approved_at: self.approved_at,
            created_at: self.created_at,
        }
    }
}

impl ApprovalView {
    pub open spec fn response(self) -> ApprovalResponseView {
        ApprovalResponseView {
            id: self.id,
            plan_id: self.plan_id,
            approver_email: self.approver_email,
            status: self.status,
            approved_at: self.approved_at,
            created_at: self.created_at,
        }
    }

    pub open spec fn approver_status(self) -> ApproverStatusView {
        ApproverStatusView {
            email: self.approver_email,
            status: self.status,
            approved_at: self.approved_at,
        }
    }
}

/// The part of a plan that an approver is shown.
#[derive(Debug, PartialEq, Eq)]
pub struct PlanSummary {
    pub name: String,
    pub description: String,
}

pub ghost struct PlanSummaryView {
    pub name: Seq<char>,
    pub description: Seq<char>,
}

impl View for PlanSummary {
    type V = PlanSummaryView;

    open spec fn view(&self) -> PlanSummaryView {
        PlanSummaryView { name: self.name@, description: self.description@ }
    }
}

impl PlanView {
    pub open spec fn summary(self) -> PlanSummaryView {
        PlanSummaryView { name: self.name, description: self.description }
    }
}

/// An approval together with the plan that it is about.
#[derive(Debug, PartialEq, Eq)]
pub struct ApprovalDetails {
    pub approval: ApprovalResponse,
    pub plan: PlanSummary,
}

pub ghost struct ApprovalDetailsView {
    pub approval: ApprovalResponseView,
    pub plan: PlanSummaryView,
}

impl View for ApprovalDetails {
    type V = ApprovalDetailsView;

    open spec fn view(&self) -> ApprovalDetailsView {
        ApprovalDetailsView { approval: self.approval@, plan: self.plan@ }
    }
}

/// One approver of a plan and where their decision stands.
#[derive(Debug, PartialEq, Eq)]
pub struct ApproverStatus {
    pub email: String,
    pub status: ApprovalStatus,
    pub approved_at: Option<i64>,
}

pub ghost struct ApproverStatusView {
    pub email: Seq<char>,
    pub status: ApprovalStatus,
    pub approved_at: Option<i64>,
}

impl View for ApproverStatus {
    type V = ApproverStatusView;

    open spec fn view(&self) -> ApproverStatusView {
        ApproverStatusView { email: self.email@, status: self.status, approved_at: self.approved_at }
    }
}

impl DeepView for ApproverStatus {
    type V = ApproverStatusView;

    open spec fn deep_view(&self) -> ApproverStatusView {
        self@
    }
}

/// Where a plan's approval stands.
#[derive(Debug, PartialEq, Eq)]
pub struct ApprovalStatusResponse {
    pub plan_id: u128,
    pub required_approvals: i32,
    pub current_approvals: i32,
    pub approvers: Vec<ApproverStatus>,
    pub can_execute: bool,
}

pub ghost struct ApprovalStatusResponseView {
    pub plan_id: u128,
    pub required_approvals: i32,
    pub current_approvals: i32,
    pub approvers: Seq<ApproverStatusView>,
    pub can_execute: bool,
}

impl View for ApprovalStatusResponse {
    type V = ApprovalStatusResponseView;

    open spec fn view(&self) -> ApprovalStatusResponseView {
        ApprovalStatusResponseView {
            plan_id: self.plan_id,
            required_approvals: self.required_approvals,
            current_approvals: self.current_approvals,
            approvers: self.approvers.deep_view(),
            can_execute: self.can_execute,
        }
    }
}

/// A request to execute a plan.
#[derive(Clone, Copy, Debug, PartialEq, Eq, Structural)]
pub struct ExecutePlanRequest {
    pub plan_id: u128,
}

/// What a passed execution gate reports.
#[derive(Clone, Copy, Debug, PartialEq, Eq, Structural)]
pub struct ExecutionReceipt {
    pub executed: bool,
    /// When the plan was executed: now, or earlier if it already was.
    pub executed_at: i64,
}

} // verus!
