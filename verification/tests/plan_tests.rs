use inheritx_backend::approval::{request_approvals_with, submit_approval_at};
use inheritx_backend::ledger::{well_formed, Ledger};
use inheritx_backend::models::{Approval, CreateApproverRequest, Invitation, Plan};
use inheritx_backend::plan::{
    create_plan, create_plan_with, delete_plan, get_all_plans, get_plan_by_id, update_plan,
};
use inheritx_backend::status::{ApprovalStatus, PlanStatus};

fn plan_row(id: u128) -> Plan {
    Plan {
        id,
        owner: 7,
        name: format!("plan {}", id),
        description: String::new(),
        multi_signature_approval: false,
        required_approvals: 0,
        current_approvals: 0,
        status: PlanStatus::Created,
        executed_at: None,
    }
}

fn approval_row(id: u128, plan_id: u128, email: &str, status: ApprovalStatus) -> Approval {
    Approval {
        id,
        plan_id,
        approver_id: None,
        approver_email: email.to_string(),
        status,
        approved_at: None,
        created_at: 1,
        updated_at: 1,
    }
}

#[test]
fn test_create_and_get_plan() {
    let mut ledger = Ledger::new();
    let plan =
        create_plan(&mut ledger, 7, "Test Plan".to_string(), "This is a test".to_string()).unwrap();
    assert_eq!(plan.name, "Test Plan");
    assert_eq!(plan.description, "This is a test");
    assert_eq!(plan.owner, 7);
    assert!(!plan.multi_signature_approval);
    assert_eq!(plan.required_approvals, 0);
    assert_eq!(plan.current_approvals, 0);
    assert_eq!(plan.status, PlanStatus::Created);
    assert_eq!(plan.executed_at, None);

    let found = get_plan_by_id(&ledger, plan.id).unwrap();
    assert_eq!(found.id, plan.id);
    assert_eq!(found.name, "Test Plan");
    assert_eq!(found.description, "This is a test");
    assert!(get_plan_by_id(&ledger, plan.id ^ 1).is_none());
}

#[test]
fn test_update_and_delete_plan() {
    let mut ledger = Ledger::new();
    let plan =
        create_plan(&mut ledger, 7, "To Update".to_string(), "Will update soon".to_string())
            .unwrap();

    let updated = update_plan(
        &mut ledger,
        plan.id,
        "Updated Plan".to_string(),
        "Updated description".to_string(),
    )
    .unwrap();
    assert_eq!(updated.id, plan.id);
    assert_eq!(updated.name, "Updated Plan");
    assert_eq!(updated.description, "Updated description");
    assert_eq!(get_plan_by_id(&ledger, plan.id).unwrap().name, "Updated Plan");

    assert!(delete_plan(&mut ledger, plan.id));
    assert!(get_plan_by_id(&ledger, plan.id).is_none());
    assert!(!delete_plan(&mut ledger, plan.id));
    assert!(update_plan(&mut ledger, plan.id, "x".to_string(), "y".to_string()).is_none());
}

#[test]
fn taken_id_creates_nothing() {
    let mut ledger = Ledger::new();
    assert!(create_plan_with(&mut ledger, 1, 7, "first".to_string(), String::new()).is_some());
    assert!(create_plan_with(&mut ledger, 1, 8, "second".to_string(), String::new()).is_none());
    let plans = get_all_plans(&ledger);
    assert_eq!(plans.len(), 1);
    assert_eq!(plans[0].name, "first");
    assert_eq!(plans[0].owner, 7);
}

#[test]
fn all_plans_come_oldest_first() {
    let mut ledger = Ledger::new();
    assert!(get_all_plans(&ledger).is_empty());
    for id in [3u128, 1, 2] {
        create_plan_with(&mut ledger, id, 7, format!("plan {}", id), String::new()).unwrap();
    }
    let ids: Vec<u128> = get_all_plans(&ledger).iter().map(|p| p.id).collect();
    assert_eq!(ids, vec![3, 1, 2]);
    assert_eq!(ledger.plans().len(), 3);
}

#[test]
fn update_keeps_the_approval_state() {
    let mut ledger = Ledger::new();
    create_plan_with(&mut ledger, 1, 7, "a".to_string(), String::new()).unwrap();
    let invitations = vec![
        Invitation::for_approver(10, CreateApproverRequest { email: "a@example.com".to_string() }),
        Invitation::for_approver(11, CreateApproverRequest { email: "b@example.com".to_string() }),
    ];
    assert_eq!(invitations[0].id, 10);
    assert_eq!(invitations[0].email, "a@example.com");
    request_approvals_with(&mut ledger, 7, 1, 1, &invitations, 5).unwrap();
    submit_approval_at(&mut ledger, 10, true, 6).unwrap();
    let updated = update_plan(&mut ledger, 1, "b".to_string(), "c".to_string()).unwrap();
    assert!(updated.multi_signature_approval);
    assert_eq!(updated.required_approvals, 1);
    assert_eq!(updated.current_approvals, 1);
    assert_eq!(updated.status, PlanStatus::Executable);
    assert_eq!(ledger.approvals().len(), 2);
}

#[test]
fn delete_takes_the_plans_approvals_along() {
    let mut ledger = Ledger::new();
    create_plan_with(&mut ledger, 1, 7, "a".to_string(), String::new()).unwrap();
    create_plan_with(&mut ledger, 2, 7, "b".to_string(), String::new()).unwrap();
    let first = vec![Invitation { id: 10, email: "a@example.com".to_string() }];
    let second = vec![
        Invitation { id: 20, email: "a@example.com".to_string() },
        Invitation { id: 21, email: "b@example.com".to_string() },
    ];
    request_approvals_with(&mut ledger, 7, 1, 1, &first, 5).unwrap();
    request_approvals_with(&mut ledger, 7, 2, 1, &second, 5).unwrap();
    submit_approval_at(&mut ledger, 21, true, 6).unwrap();

    assert!(delete_plan(&mut ledger, 1));
    let ids: Vec<u128> = ledger.approvals().iter().map(|a| a.id).collect();
    assert_eq!(ids, vec![20, 21]);
    assert_eq!(get_plan_by_id(&ledger, 2).unwrap().current_approvals, 1);
    // The id is free again, and nothing of the old plan comes back with it.
    let again = create_plan_with(&mut ledger, 1, 7, "a".to_string(), String::new()).unwrap();
    assert_eq!(again.current_approvals, 0);
    assert!(well_formed(ledger.plans(), ledger.approvals()));
}

#[test]
fn stage_follows_the_fields() {
    let mut plan = plan_row(1);
    assert_eq!(plan.stage(), PlanStatus::Created);
    assert!(plan.can_execute());
    plan.multi_signature_approval = true;
    plan.required_approvals = 2;
    plan.current_approvals = 1;
    assert_eq!(plan.stage(), PlanStatus::AwaitingApproval);
    assert!(!plan.can_execute());
    plan.current_approvals = 2;
    assert_eq!(plan.stage(), PlanStatus::Executable);
    assert!(plan.can_execute());
    plan.executed_at = Some(9);
    assert_eq!(plan.stage(), PlanStatus::Executed);
    plan.current_approvals = 0;
    assert_eq!(plan.stage(), PlanStatus::Executed);
    assert!(!plan.can_execute());
}

#[test]
fn ledger_is_built_from_consistent_rows_only() {
    let mut gated = plan_row(1);
    gated.multi_signature_approval = true;
    gated.required_approvals = 2;
    gated.current_approvals = 1;
    gated.status = PlanStatus::AwaitingApproval;
    let rows = vec![
        approval_row(10, 1, "a@example.com", ApprovalStatus::Approved),
        approval_row(11, 1, "b@example.com", ApprovalStatus::Rejected),
    ];
    assert!(well_formed(&vec![gated.clone(), plan_row(2)], &rows));
    let ledger = Ledger::from_parts(vec![gated.clone(), plan_row(2)], rows.clone()).unwrap();
    assert_eq!(ledger.plans().len(), 2);
    assert_eq!(ledger.approvals().len(), 2);
    assert!(Ledger::from_parts(Vec::new(), Vec::new()).is_some());

    // Two plans with one id.
    assert!(Ledger::from_parts(vec![plan_row(2), plan_row(2)], Vec::new()).is_none());
    // Two approvals with one id.
    let same_id = vec![
        approval_row(10, 1, "a@example.com", ApprovalStatus::Approved),
        approval_row(10, 1, "b@example.com", ApprovalStatus::Pending),
    ];
    assert!(Ledger::from_parts(vec![gated.clone()], same_id).is_none());
    // One approver twice in a plan.
    let twice = vec![
        approval_row(10, 1, "a@example.com", ApprovalStatus::Approved),
        approval_row(11, 1, "a@example.com", ApprovalStatus::Pending),
    ];
    assert!(Ledger::from_parts(vec![gated.clone()], twice).is_none());
    // The same approver in two plans is fine.
    let mut other = plan_row(2);
    other.multi_signature_approval = true;
    other.required_approvals = 1;
    other.status = PlanStatus::AwaitingApproval;
    let shared = vec![
        approval_row(10, 1, "a@example.com", ApprovalStatus::Approved),
        approval_row(11, 2, "a@example.com", ApprovalStatus::Pending),
    ];
    assert!(Ledger::from_parts(vec![gated.clone(), other], shared).is_some());
    // An approval of no plan.
    assert!(Ledger::from_parts(vec![plan_row(2)], rows.clone()).is_none());
    // A counter that is not the count.
    let mut drifted = gated.clone();
    drifted.current_approvals = 2;
    drifted.status = PlanStatus::Executable;
    assert!(Ledger::from_parts(vec![drifted], rows.clone()).is_none());
    // A tag that is not the stage.
    let mut mistagged = gated.clone();
    mistagged.status = PlanStatus::Executable;
    assert!(Ledger::from_parts(vec![mistagged], rows.clone()).is_none());
    // A negative threshold.
    let mut negative = plan_row(3);
    negative.required_approvals = -1;
    assert!(Ledger::from_parts(vec![negative], Vec::new()).is_none());
}

#[test]
fn ledger_from_rows_counts_anew() {
    let mut stale = plan_row(1);
    stale.multi_signature_approval = true;
    stale.required_approvals = 2;
    stale.current_approvals = 40;
    stale.status = PlanStatus::Created;
    let rows = vec![
        approval_row(10, 1, "a@example.com", ApprovalStatus::Approved),
        approval_row(11, 1, "b@example.com", ApprovalStatus::Approved),
        approval_row(12, 1, "c@example.com", ApprovalStatus::Pending),
    ];
    assert!(Ledger::from_parts(vec![stale.clone()], rows.clone()).is_none());
    let ledger = Ledger::from_rows(vec![stale.clone(), plan_row(2)], rows.clone()).unwrap();
    let plan = &ledger.plans()[0];
    assert_eq!(plan.current_approvals, 2);
    assert_eq!(plan.status, PlanStatus::Executable);
    assert_eq!(plan.required_approvals, 2);
    assert_eq!(ledger.plans()[1].current_approvals, 0);
    assert_eq!(ledger.plans()[1].status, PlanStatus::Created);
    assert_eq!(ledger.approvals().len(), 3);
    // What counting cannot mend is still refused.
    assert!(Ledger::from_rows(vec![plan_row(2)], rows.clone()).is_none());
    assert!(Ledger::from_rows(vec![stale.clone(), stale], rows).is_none());
}
