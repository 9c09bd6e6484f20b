use inheritx_backend::approval::{
    get_approval, get_approval_status, request_approvals, request_approvals_with, submit_approval,
    submit_approval_at,
};
use inheritx_backend::errors::{ApprovalError, ValidationIssue};
use inheritx_backend::ledger::{count_approved, find_approval, find_plan, Ledger};
use inheritx_backend::models::{
    ApprovalRequest, ExecutePlanRequest, Invitation, SubmitApprovalRequest,
};
use inheritx_backend::plan::{
    create_plan, create_plan_with, execute_plan, execute_plan_at, get_all_plans, get_plan_by_id,
};
use inheritx_backend::status::{ApprovalStatus, PlanStatus};

const OWNER: u128 = 7;
const PLAN: u128 = 100;

fn invite(pairs: &[(u128, &str)]) -> Vec<Invitation> {
    pairs.iter().map(|(id, email)| Invitation { id: *id, email: email.to_string() }).collect()
}

fn ledger_with_plan() -> Ledger {
    let mut ledger = Ledger::new();
    let made = create_plan_with(&mut ledger, PLAN, OWNER, "Test Plan".to_string(), "".to_string());
    assert!(made.is_some());
    ledger
}

fn abc() -> Vec<Invitation> {
    invite(&[(1, "a@example.com"), (2, "b@example.com"), (3, "c@example.com")])
}

#[test]
fn test_create_approval_request() {
    let mut ledger = Ledger::new();
    let plan = create_plan(&mut ledger, OWNER, "Test Plan".to_string(), String::new()).unwrap();
    assert!(!plan.multi_signature_approval);
    let req = ApprovalRequest {
        plan_id: plan.id,
        approver_emails: vec![
            "approver1@example.com".to_string(),
            "approver2@example.com".to_string(),
        ],
        required_approvals: 2,
    };
    let receipt = request_approvals(&mut ledger, OWNER, &req).unwrap();
    assert_eq!(receipt.plan_id, plan.id);
    assert_eq!(receipt.required_approvals, 2);
    assert_eq!(receipt.approver_count, 2);

    let stored = get_plan_by_id(&ledger, plan.id).unwrap();
    assert!(stored.multi_signature_approval);
    assert_eq!(stored.required_approvals, 2);
}

#[test]
fn request_creates_one_pending_row_per_approver() {
    let mut ledger = ledger_with_plan();
    let receipt = request_approvals_with(&mut ledger, OWNER, PLAN, 2, &abc(), 50).unwrap();
    assert_eq!(receipt.approver_count, 3);
    let rows = ledger.approvals();
    assert_eq!(rows.len(), 3);
    for (row, (id, email)) in rows.iter().zip([(1u128, "a@example.com"), (2, "b@example.com"), (3, "c@example.com")]) {
        assert_eq!(row.id, id);
        assert_eq!(row.plan_id, PLAN);
        assert_eq!(row.approver_id, None);
        assert_eq!(row.approver_email, email);
        assert_eq!(row.status, ApprovalStatus::Pending);
        assert_eq!(row.approved_at, None);
        assert_eq!(row.created_at, 50);
        assert_eq!(row.updated_at, 50);
    }
    let plan = get_plan_by_id(&ledger, PLAN).unwrap();
    assert_eq!(plan.current_approvals, 0);
    assert_eq!(plan.status, PlanStatus::AwaitingApproval);
}

#[test]
fn two_of_three_approve_and_plan_executes() {
    let mut ledger = ledger_with_plan();
    request_approvals_with(&mut ledger, OWNER, PLAN, 2, &abc(), 50).unwrap();

    let a = submit_approval_at(&mut ledger, 1, true, 60).unwrap();
    assert_eq!(a.plan_id, PLAN);
    assert_eq!(a.status, ApprovalStatus::Approved);
    assert_eq!(a.status.to_string(), "approved");
    let b = submit_approval_at(&mut ledger, 2, false, 61).unwrap();
    assert_eq!(b.status, ApprovalStatus::Rejected);
    assert_eq!(b.status.to_string(), "rejected");
    submit_approval_at(&mut ledger, 3, true, 62).unwrap();

    let plan = get_plan_by_id(&ledger, PLAN).unwrap();
    assert_eq!(plan.current_approvals, 2);
    assert_eq!(plan.status, PlanStatus::Executable);

    let report = get_approval_status(&ledger, OWNER, PLAN).unwrap();
    assert_eq!(report.plan_id, PLAN);
    assert_eq!(report.required_approvals, 2);
    assert_eq!(report.current_approvals, 2);
    assert!(report.can_execute);
    assert_eq!(report.approvers.len(), 3);
    assert_eq!(report.approvers[0].email, "a@example.com");
    assert_eq!(report.approvers[0].status, ApprovalStatus::Approved);
    assert_eq!(report.approvers[0].approved_at, Some(60));
    assert_eq!(report.approvers[1].email, "b@example.com");
    assert_eq!(report.approvers[1].status, ApprovalStatus::Rejected);
    assert_eq!(report.approvers[1].approved_at, Some(61));
    assert_eq!(report.approvers[2].status, ApprovalStatus::Approved);

    let receipt = execute_plan_at(&mut ledger, OWNER, PLAN, 70).unwrap();
    assert!(receipt.executed);
    assert_eq!(receipt.executed_at, 70);
    let plan = get_plan_by_id(&ledger, PLAN).unwrap();
    assert_eq!(plan.status, PlanStatus::Executed);
    assert_eq!(plan.executed_at, Some(70));
}

#[test]
fn one_of_two_required_is_insufficient() {
    let mut ledger = ledger_with_plan();
    request_approvals_with(&mut ledger, OWNER, PLAN, 2, &abc(), 50).unwrap();
    submit_approval_at(&mut ledger, 1, true, 60).unwrap();

    assert_eq!(get_plan_by_id(&ledger, PLAN).unwrap().current_approvals, 1);
    let report = get_approval_status(&ledger, OWNER, PLAN).unwrap();
    assert_eq!(report.current_approvals, 1);
    assert!(!report.can_execute);

    let refused = execute_plan_at(&mut ledger, OWNER, PLAN, 70);
    assert_eq!(refused, Err(ApprovalError::InsufficientApprovals { required: 2, current: 1 }));
    let plan = get_plan_by_id(&ledger, PLAN).unwrap();
    assert_eq!(plan.executed_at, None);
    assert_eq!(plan.status, PlanStatus::AwaitingApproval);
}

#[test]
fn empty_approver_list_is_rejected_before_any_change() {
    let mut ledger = ledger_with_plan();
    request_approvals_with(&mut ledger, OWNER, PLAN, 1, &abc(), 50).unwrap();
    submit_approval_at(&mut ledger, 1, true, 60).unwrap();

    let refused = request_approvals_with(&mut ledger, OWNER, PLAN, 2, &Vec::new(), 70);
    assert_eq!(refused, Err(ApprovalError::ValidationError(ValidationIssue::EmptyApproverList)));
    let plan = get_plan_by_id(&ledger, PLAN).unwrap();
    assert_eq!(plan.required_approvals, 1);
    assert_eq!(plan.current_approvals, 1);
    assert_eq!(ledger.approvals().len(), 3);

    let req = ApprovalRequest { plan_id: PLAN, approver_emails: Vec::new(), required_approvals: 2 };
    assert_eq!(
        request_approvals(&mut ledger, OWNER, &req),
        Err(ApprovalError::ValidationError(ValidationIssue::EmptyApproverList))
    );
    // An empty list is refused even for a plan that does not exist.
    assert_eq!(
        request_approvals_with(&mut ledger, OWNER, 999, 2, &Vec::new(), 70),
        Err(ApprovalError::ValidationError(ValidationIssue::EmptyApproverList))
    );
}

#[test]
fn non_positive_required_count_is_rejected() {
    let mut ledger = ledger_with_plan();
    for required in [0, -1, i32::MIN] {
        assert_eq!(
            request_approvals_with(&mut ledger, OWNER, PLAN, required, &abc(), 50),
            Err(ApprovalError::ValidationError(ValidationIssue::NonPositiveRequiredCount))
        );
    }
    assert!(ledger.approvals().is_empty());
    assert!(!get_plan_by_id(&ledger, PLAN).unwrap().multi_signature_approval);
}

#[test]
fn request_for_missing_or_foreign_plan_is_not_found() {
    let mut ledger = ledger_with_plan();
    assert_eq!(
        request_approvals_with(&mut ledger, OWNER, 101, 1, &abc(), 50),
        Err(ApprovalError::NotFound)
    );
    assert_eq!(
        request_approvals_with(&mut ledger, OWNER + 1, PLAN, 1, &abc(), 50),
        Err(ApprovalError::NotFound)
    );
    assert!(ledger.approvals().is_empty());
}

#[test]
fn failed_insert_rolls_the_whole_request_back() {
    let mut ledger = ledger_with_plan();
    request_approvals_with(&mut ledger, OWNER, PLAN, 1, &abc(), 50).unwrap();
    submit_approval_at(&mut ledger, 2, true, 60).unwrap();

    // The same approver twice.
    let twice = invite(&[(10, "x@example.com"), (11, "x@example.com")]);
    assert_eq!(
        request_approvals_with(&mut ledger, OWNER, PLAN, 2, &twice, 70),
        Err(ApprovalError::TransactionAborted)
    );
    // The same id twice.
    let same_id = invite(&[(10, "x@example.com"), (10, "y@example.com")]);
    assert_eq!(
        request_approvals_with(&mut ledger, OWNER, PLAN, 2, &same_id, 70),
        Err(ApprovalError::TransactionAborted)
    );
    // An id that another plan's approval holds.
    create_plan_with(&mut ledger, 200, OWNER, "Other".to_string(), String::new()).unwrap();
    let taken = invite(&[(2, "z@example.com")]);
    assert_eq!(
        request_approvals_with(&mut ledger, OWNER, 200, 1, &taken, 70),
        Err(ApprovalError::TransactionAborted)
    );

    let plan = get_plan_by_id(&ledger, PLAN).unwrap();
    assert_eq!(plan.required_approvals, 1);
    assert_eq!(plan.current_approvals, 1);
    let rows = ledger.approvals();
    assert_eq!(rows.len(), 3);
    assert_eq!(rows[1].status, ApprovalStatus::Approved);
    assert!(!get_plan_by_id(&ledger, 200).unwrap().multi_signature_approval);
}

#[test]
fn request_may_reuse_the_ids_it_replaces() {
    let mut ledger = ledger_with_plan();
    request_approvals_with(&mut ledger, OWNER, PLAN, 1, &abc(), 50).unwrap();
    let receipt = request_approvals_with(&mut ledger, OWNER, PLAN, 3, &abc(), 51).unwrap();
    assert_eq!(receipt.required_approvals, 3);
    assert_eq!(ledger.approvals().len(), 3);
    assert_eq!(ledger.approvals()[0].created_at, 51);
}

#[test]
fn second_request_discards_earlier_decisions() {
    let mut ledger = ledger_with_plan();
    request_approvals_with(&mut ledger, OWNER, PLAN, 2, &abc(), 50).unwrap();
    submit_approval_at(&mut ledger, 1, true, 60).unwrap();
    submit_approval_at(&mut ledger, 2, true, 61).unwrap();
    assert_eq!(get_plan_by_id(&ledger, PLAN).unwrap().current_approvals, 2);

    let again = invite(&[(4, "a@example.com"), (5, "d@example.com")]);
    request_approvals_with(&mut ledger, OWNER, PLAN, 1, &again, 70).unwrap();
    let plan = get_plan_by_id(&ledger, PLAN).unwrap();
    assert_eq!(plan.current_approvals, 0);
    assert_eq!(plan.required_approvals, 1);
    assert_eq!(plan.status, PlanStatus::AwaitingApproval);
    let rows = ledger.approvals();
    assert_eq!(rows.len(), 2);
    assert!(rows.iter().all(|r| r.status == ApprovalStatus::Pending && r.approved_at.is_none()));
    assert_eq!(count_approved(rows, PLAN), 0);
    let report = get_approval_status(&ledger, OWNER, PLAN).unwrap();
    assert_eq!(report.current_approvals, 0);
    assert!(!report.can_execute);
}

#[test]
fn vote_on_replaced_approval_is_not_found() {
    let mut ledger = ledger_with_plan();
    request_approvals_with(&mut ledger, OWNER, PLAN, 2, &abc(), 50).unwrap();
    let again = invite(&[(4, "a@example.com"), (5, "b@example.com")]);
    request_approvals_with(&mut ledger, OWNER, PLAN, 2, &again, 70).unwrap();

    assert_eq!(submit_approval_at(&mut ledger, 1, true, 80), Err(ApprovalError::NotFound));
    let rows = ledger.approvals();
    assert_eq!(rows.len(), 2);
    assert!(rows.iter().all(|r| r.status == ApprovalStatus::Pending));
    assert_eq!(get_plan_by_id(&ledger, PLAN).unwrap().current_approvals, 0);
}

#[test]
fn vote_on_unknown_approval_is_not_found() {
    let mut ledger = Ledger::new();
    assert_eq!(submit_approval_at(&mut ledger, 1, true, 5), Err(ApprovalError::NotFound));
    let req = SubmitApprovalRequest { approval_id: 1, approve: false };
    assert_eq!(submit_approval(&mut ledger, &req), Err(ApprovalError::NotFound));
}

#[test]
fn resubmitting_overwrites_and_the_counter_follows() {
    let mut ledger = ledger_with_plan();
    request_approvals_with(&mut ledger, OWNER, PLAN, 1, &abc(), 50).unwrap();
    submit_approval_at(&mut ledger, 1, true, 60).unwrap();
    assert_eq!(get_plan_by_id(&ledger, PLAN).unwrap().current_approvals, 1);
    assert_eq!(get_plan_by_id(&ledger, PLAN).unwrap().status, PlanStatus::Executable);

    submit_approval_at(&mut ledger, 1, false, 61).unwrap();
    let plan = get_plan_by_id(&ledger, PLAN).unwrap();
    assert_eq!(plan.current_approvals, 0);
    assert_eq!(plan.status, PlanStatus::AwaitingApproval);
    assert_eq!(count_approved(ledger.approvals(), PLAN), 0);
    let row = &ledger.approvals()[0];
    assert_eq!(row.status, ApprovalStatus::Rejected);
    assert_eq!(row.approved_at, Some(61));
    assert_eq!(row.updated_at, 61);
    assert_eq!(row.created_at, 50);

    submit_approval_at(&mut ledger, 1, true, 62).unwrap();
    submit_approval_at(&mut ledger, 1, true, 63).unwrap();
    assert_eq!(get_plan_by_id(&ledger, PLAN).unwrap().current_approvals, 1);
}

#[test]
fn counter_counts_only_the_plans_own_approvals() {
    let mut ledger = ledger_with_plan();
    create_plan_with(&mut ledger, 200, OWNER, "Other".to_string(), String::new()).unwrap();
    request_approvals_with(&mut ledger, OWNER, PLAN, 2, &abc(), 50).unwrap();
    let others = invite(&[(11, "a@example.com"), (12, "b@example.com")]);
    request_approvals_with(&mut ledger, OWNER, 200, 1, &others, 51).unwrap();

    submit_approval_at(&mut ledger, 11, true, 60).unwrap();
    submit_approval_at(&mut ledger, 1, true, 61).unwrap();
    submit_approval_at(&mut ledger, 12, true, 62).unwrap();
    assert_eq!(get_plan_by_id(&ledger, PLAN).unwrap().current_approvals, 1);
    assert_eq!(get_plan_by_id(&ledger, 200).unwrap().current_approvals, 2);
    for plan in ledger.plans() {
        assert_eq!(plan.current_approvals as usize, count_approved(ledger.approvals(), plan.id));
    }
}

#[test]
fn status_report_errors() {
    let mut ledger = ledger_with_plan();
    assert_eq!(
        get_approval_status(&ledger, OWNER, PLAN).err(),
        Some(ApprovalError::MultiSignatureNotEnabled)
    );
    assert_eq!(get_approval_status(&ledger, OWNER, 5).err(), Some(ApprovalError::NotFound));
    assert_eq!(get_approval_status(&ledger, OWNER + 1, PLAN).err(), Some(ApprovalError::NotFound));
    request_approvals_with(&mut ledger, OWNER, PLAN, 2, &abc(), 50).unwrap();
    assert_eq!(get_approval_status(&ledger, OWNER + 1, PLAN).err(), Some(ApprovalError::NotFound));
    let report = get_approval_status(&ledger, OWNER, PLAN).unwrap();
    assert_eq!(report.current_approvals, 0);
    assert!(report.approvers.iter().all(|a| a.status == ApprovalStatus::Pending));
}

#[test]
fn approval_is_shown_with_its_plan() {
    let mut ledger = Ledger::new();
    create_plan_with(&mut ledger, PLAN, OWNER, "Estate".to_string(), "Split the estate".to_string())
        .unwrap();
    request_approvals_with(&mut ledger, OWNER, PLAN, 2, &abc(), 50).unwrap();
    submit_approval_at(&mut ledger, 2, true, 60).unwrap();

    let details = get_approval(&ledger, 2).unwrap();
    assert_eq!(details.approval.id, 2);
    assert_eq!(details.approval.plan_id, PLAN);
    assert_eq!(details.approval.approver_email, "b@example.com");
    assert_eq!(details.approval.status, ApprovalStatus::Approved);
    assert_eq!(details.approval.approved_at, Some(60));
    assert_eq!(details.approval.created_at, 50);
    assert_eq!(details.plan.name, "Estate");
    assert_eq!(details.plan.description, "Split the estate");
    assert_eq!(get_approval(&ledger, 9).err(), Some(ApprovalError::NotFound));
}

#[test]
fn ungated_plan_executes_at_once() {
    let mut ledger = ledger_with_plan();
    assert_eq!(get_plan_by_id(&ledger, PLAN).unwrap().status, PlanStatus::Created);
    let receipt = execute_plan_at(&mut ledger, OWNER, PLAN, 70).unwrap();
    assert!(receipt.executed);
    assert_eq!(get_plan_by_id(&ledger, PLAN).unwrap().status, PlanStatus::Executed);
}

#[test]
fn execute_for_missing_or_foreign_plan_is_not_found() {
    let mut ledger = ledger_with_plan();
    assert_eq!(execute_plan_at(&mut ledger, OWNER, 5, 70), Err(ApprovalError::NotFound));
    assert_eq!(execute_plan_at(&mut ledger, OWNER + 1, PLAN, 70), Err(ApprovalError::NotFound));
    let req = ExecutePlanRequest { plan_id: 5 };
    assert_eq!(execute_plan(&mut ledger, OWNER, &req), Err(ApprovalError::NotFound));
    assert_eq!(get_plan_by_id(&ledger, PLAN).unwrap().executed_at, None);
}

#[test]
fn executed_plan_keeps_its_first_stamp() {
    let mut ledger = ledger_with_plan();
    execute_plan_at(&mut ledger, OWNER, PLAN, 70).unwrap();
    let again = execute_plan_at(&mut ledger, OWNER, PLAN, 90).unwrap();
    assert!(again.executed);
    assert_eq!(again.executed_at, 70);
    assert_eq!(get_plan_by_id(&ledger, PLAN).unwrap().executed_at, Some(70));
}

#[test]
fn gate_applies_again_after_a_new_request() {
    let mut ledger = ledger_with_plan();
    execute_plan_at(&mut ledger, OWNER, PLAN, 70).unwrap();
    request_approvals_with(&mut ledger, OWNER, PLAN, 1, &abc(), 80).unwrap();
    assert_eq!(get_plan_by_id(&ledger, PLAN).unwrap().status, PlanStatus::Executed);
    assert_eq!(
        execute_plan_at(&mut ledger, OWNER, PLAN, 90),
        Err(ApprovalError::InsufficientApprovals { required: 1, current: 0 })
    );
}

#[test]
fn drawn_ids_are_random_uuids_and_the_clock_is_read() {
    let mut ledger = Ledger::new();
    let plan = create_plan(&mut ledger, OWNER, "P".to_string(), String::new()).unwrap();
    assert_eq!(uuid::Uuid::from_u128(plan.id).get_version_num(), 4);
    let req = ApprovalRequest {
        plan_id: plan.id,
        approver_emails: vec!["a@example.com".to_string(), "b@example.com".to_string()],
        required_approvals: 1,
    };
    let before = chrono::Utc::now().timestamp_micros();
    request_approvals(&mut ledger, OWNER, &req).unwrap();
    let rows = ledger.approvals();
    assert_eq!(rows.len(), 2);
    assert_ne!(rows[0].id, rows[1].id);
    for row in rows.iter() {
        assert_eq!(uuid::Uuid::from_u128(row.id).get_version_num(), 4);
        assert_eq!(uuid::Uuid::from_u128(row.id).get_variant(), uuid::Variant::RFC4122);
        assert!(row.created_at >= before);
        assert_eq!(row.created_at, row.updated_at);
    }
    let first = rows[0].id;
    let receipt =
        submit_approval(&mut ledger, &SubmitApprovalRequest { approval_id: first, approve: true })
            .unwrap();
    assert_eq!(receipt.approval_id, first);
    assert_eq!(receipt.plan_id, plan.id);
    assert!(ledger.approvals()[0].approved_at.unwrap() >= before);
    let done = execute_plan(&mut ledger, OWNER, &ExecutePlanRequest { plan_id: plan.id }).unwrap();
    assert!(done.executed_at >= before);
}

#[test]
fn each_failure_has_its_fixed_message() {
    assert_eq!(ApprovalError::NotFound.message(), "Not found");
    assert_eq!(
        ApprovalError::ValidationError(ValidationIssue::EmptyApproverList).message(),
        "At least one approver is required"
    );
    assert_eq!(
        ApprovalError::ValidationError(ValidationIssue::NonPositiveRequiredCount).message(),
        "Required approvals must be a positive integer"
    );
    assert_eq!(
        ApprovalError::MultiSignatureNotEnabled.message(),
        "Multi-signature approval not enabled for this plan"
    );
    assert_eq!(
        ApprovalError::InsufficientApprovals { required: 2, current: 1 }.message(),
        "Insufficient approvals to execute plan"
    );
    assert_eq!(ApprovalError::TransactionAborted.message(), "Failed to create approval request");
}

#[test]
fn lookups_find_the_first_row_with_the_id() {
    let mut ledger = ledger_with_plan();
    create_plan_with(&mut ledger, 200, OWNER, "Other".to_string(), String::new()).unwrap();
    request_approvals_with(&mut ledger, OWNER, 200, 1, &abc(), 50).unwrap();
    assert_eq!(find_plan(ledger.plans(), PLAN), Some(0));
    assert_eq!(find_plan(ledger.plans(), 200), Some(1));
    assert_eq!(find_plan(ledger.plans(), 300), None);
    assert_eq!(find_approval(ledger.approvals(), 3), Some(2));
    assert_eq!(find_approval(ledger.approvals(), 4), None);
    let mut twice = get_all_plans(&ledger);
    twice.extend(get_all_plans(&ledger));
    assert_eq!(find_plan(&twice, 200), Some(1));
    assert_eq!(count_approved(ledger.approvals(), 200), 0);
}
