//! What holds of the approval workflow as a whole, proved from the
//! operations' outcomes.

use vstd::prelude::*;
use crate::approval::{
    fresh_rows, lemma_request_keeps_wf, lemma_submit_keeps_wf, request_outcome, status_outcome,
    submit_outcome,
};
use crate::errors::ApprovalError;
use crate::ledger::{
    approved_for, distinct_approval_ids, distinct_plan_ids, of_other_plans, of_plan, LedgerView,
};
use crate::models::{ApprovalView, InvitationView, PlanView, SubmitReceipt};
use crate::plan::{
    create_outcome, delete_outcome, execute_outcome, lemma_create_keeps_wf, lemma_delete_keeps_wf,
    lemma_execute_keeps_wf, lemma_replace_plan_keeps_wf, update_outcome,
};
use crate::seqs::{lemma_filter_all, lemma_filter_members, lemma_filter_none, pairwise};
use crate::status::ApprovalStatus;

verus! {

/// One call on the ledger, with everything that it is given.
pub ghost enum Operation {
    Create { id: u128, owner: u128, name: Seq<char>, description: Seq<char> },
    Update { id: u128, name: Seq<char>, description: Seq<char> },
    Delete { id: u128 },
    Request {
        user_id: u128,
        plan_id: u128,
        required_approvals: i32,
        invitations: Seq<InvitationView>,
        now: i64,
    },
    Submit { approval_id: u128, approve: bool, now: i64 },
    Execute { user_id: u128, plan_id: u128, now: i64 },
}

/// The ledger after one call.
pub open spec fn step(s: LedgerView, op: Operation) -> LedgerView {
    match op {
        Operation::Create { id, owner, name, description } => create_outcome(
            s,
            id,
            owner,
            name,
            description,
        ).0,
        Operation::Update { id, name, description } => update_outcome(s, id, name, description).0,
        Operation::Delete { id } => delete_outcome(s, id).0,
        Operation::Request { user_id, plan_id, required_approvals, invitations, now } => request_outcome(
            s,
            user_id,
            plan_id,
            required_approvals,
            invitations,
            now,
        ).0,
        Operation::Submit { approval_id, approve, now } => submit_outcome(
            s,
            approval_id,
            approve,
            now,
        ).0,
        Operation::Execute { user_id, plan_id, now } => execute_outcome(s, user_id, plan_id, now).0,
    }
}

/// The ledger after a run of calls, in order.
pub open spec fn run(s: LedgerView, ops: Seq<Operation>) -> LedgerView
    decreases ops.len(),
{
    if ops.len() == 0 {
        s
    } else {
        step(run(s, ops.drop_last()), ops.last())
    }
}

/// Every call leaves a well-formed ledger well-formed.
pub proof fn law_step_keeps_wf(s: LedgerView, op: Operation)
    requires
        s.wf(),
    ensures
        step(s, op).wf(),
{
    match op {
        Operation::Create { id, owner, name, description } => {
            lemma_create_keeps_wf(s, id, owner, name, description);
        },
        Operation::Update { id, name, description } => {
            if s.has_plan(id) {
                let j = s.plan_at(id);
                assert(0 <= j < s.plans.len() && s.plans[j].id == id);
                assert(s.plans[j].valid());
                lemma_replace_plan_keeps_wf(s, j, s.plans[j].renamed(name, description));
            }
        },
        Operation::Delete { id } => {
            lemma_delete_keeps_wf(s, id);
        },
        Operation::Request { user_id, plan_id, required_approvals, invitations, now } => {
            lemma_request_keeps_wf(s, user_id, plan_id, required_approvals, invitations, now);
        },
        Operation::Submit { approval_id, approve, now } => {
            lemma_submit_keeps_wf(s, approval_id, approve, now);
        },
        Operation::Execute { user_id, plan_id, now } => {
            lemma_execute_keeps_wf(s, user_id, plan_id, now);
        },
    }
}

/// After any run of calls, in any order and with any arguments, every
/// plan's counter is the number of its approvals in the ledger whose
/// decision is `Approved`.
pub proof fn law_counter_never_drifts(s: LedgerView, ops: Seq<Operation>, plan_id: u128)
    requires
        s.wf(),
        run(s, ops).has_plan(plan_id),
    ensures
        run(s, ops).wf(),
        run(s, ops).plan(plan_id).current_approvals == run(s, ops).approved_count(plan_id),
{
    law_run_keeps_wf(s, ops);
    let t = run(s, ops);
    let j = t.plan_at(plan_id);
    assert(0 <= j < t.plans.len() && t.plans[j].id == plan_id);
}

/// Any run of calls leaves a well-formed ledger well-formed; the empty
/// ledger is well-formed.
pub proof fn law_run_keeps_wf(s: LedgerView, ops: Seq<Operation>)
    requires
        s.wf(),
    ensures
        run(s, ops).wf(),
        LedgerView::empty().wf(),
    decreases ops.len(),
{
    if ops.len() > 0 {
        law_run_keeps_wf(s, ops.drop_last());
        law_step_keeps_wf(run(s, ops.drop_last()), ops.last());
    }
    lemma_filter_none(Seq::<ApprovalView>::empty(), approved_for(0));
}

/// A granted request for approvals starts the vote anew, whatever was
/// decided before: the plan's counter is zero, and its approvals are the
/// fresh rows, one per invitation, each of them pending.
pub proof fn law_request_restarts_vote(
    s: LedgerView,
    user_id: u128,
    plan_id: u128,
    required_approvals: i32,
    invitations: Seq<InvitationView>,
    now: i64,
)
    requires
        s.wf(),
        request_outcome(s, user_id, plan_id, required_approvals, invitations, now).1 is Ok,
    ensures
        ({
            let t = request_outcome(s, user_id, plan_id, required_approvals, invitations, now).0;
            &&& t.has_plan(plan_id)
            &&& t.plan(plan_id).multi_signature_approval
            &&& t.plan(plan_id).required_approvals == required_approvals
            &&& t.plan(plan_id).current_approvals == 0
            &&& t.approved_count(plan_id) == 0
            &&& t.approvals_of(plan_id) == fresh_rows(plan_id, invitations, now)
            &&& forall|i: int|
                0 <= i < t.approvals_of(plan_id).len() ==> (#[trigger] t.approvals_of(
                    plan_id,
                )[i]).status == ApprovalStatus::Pending
        }),
{
    let t = request_outcome(s, user_id, plan_id, required_approvals, invitations, now).0;
    let kept = s.approvals.filter(of_other_plans(plan_id));
    let fresh = fresh_rows(plan_id, invitations, now);
    let j = s.plan_at(plan_id);
    assert(0 <= j < s.plans.len() && s.plans[j].id == plan_id);
    lemma_request_keeps_wf(s, user_id, plan_id, required_approvals, invitations, now);
    assert(t.plans[j].id == plan_id);
    t.lemma_plan_at(j);
    lemma_filter_members(s.approvals, of_other_plans(plan_id));
    Seq::filter_distributes_over_add(kept, fresh, of_plan(plan_id));
    assert forall|k: int| 0 <= k < kept.len() implies !of_plan(plan_id)(#[trigger] kept[k]) by {
        assert(of_other_plans(plan_id)(kept[k]));
    }
    lemma_filter_none(kept, of_plan(plan_id));
    assert forall|k: int| 0 <= k < fresh.len() implies of_plan(plan_id)(#[trigger] fresh[k]) by {}
    lemma_filter_all(fresh, of_plan(plan_id));
    assert(t.approvals_of(plan_id) =~= fresh);
}

/// A granted request for approvals touches its own plan only: every other
/// plan, and the approvals of every other plan, are as they were.
pub proof fn law_request_leaves_other_plans(
    s: LedgerView,
    user_id: u128,
    plan_id: u128,
    required_approvals: i32,
    invitations: Seq<InvitationView>,
    now: i64,
    other: u128,
)
    requires
        s.wf(),
        other != plan_id,
    ensures
        ({
            let t = request_outcome(s, user_id, plan_id, required_approvals, invitations, now).0;
            &&& t.approvals_of(other) == s.approvals_of(other)
            &&& t.has_plan(other) == s.has_plan(other)
            &&& s.has_plan(other) ==> t.plan(other) == s.plan(other)
        }),
{
    let (t, result) = request_outcome(s, user_id, plan_id, required_approvals, invitations, now);
    if result is Ok {
        let kept = s.approvals.filter(of_other_plans(plan_id));
        let fresh = fresh_rows(plan_id, invitations, now);
        Seq::filter_distributes_over_add(kept, fresh, of_plan(other));
        assert forall|k: int| 0 <= k < fresh.len() implies !of_plan(other)(#[trigger] fresh[k]) by {}
        lemma_filter_none(fresh, of_plan(other));
        assert forall|x: ApprovalView| #[trigger] of_plan(other)(x) implies of_other_plans(plan_id)(
            x,
        ) by {}
        crate::seqs::lemma_filter_twice(s.approvals, of_other_plans(plan_id), of_plan(other));
        assert(kept.filter(of_plan(other)) + Seq::<ApprovalView>::empty() =~= kept.filter(
            of_plan(other),
        ));
        let k = s.plan_at(plan_id);
        assert(0 <= k < s.plans.len() && s.plans[k].id == plan_id);
        if s.has_plan(other) {
            lemma_plan_after_update(s, t, k, t.plans[k], other);
        } else if t.has_plan(other) {
            let m = t.plan_at(other);
            assert(0 <= m < t.plans.len() && t.plans[m].id == other);
            assert(s.plans[m].id == other);
        }
    }
}

/// The execution gate: a gated plan with fewer approvals than required is
/// refused with both counts and left as it was; a plan that is not gated
/// passes; and in general a plan of the caller's passes exactly if it is not
/// gated or its threshold is met.
pub proof fn law_gate(s: LedgerView, user_id: u128, plan_id: u128, now: i64)
    requires
        s.wf(),
        s.owned_by(plan_id, user_id),
    ensures
        ({
            let plan = s.plan(plan_id);
            let (t, result) = execute_outcome(s, user_id, plan_id, now);
            &&& plan.multi_signature_approval && plan.current_approvals < plan.required_approvals
                ==> t == s && result == Err::<crate::models::ExecutionReceipt, ApprovalError>(
                    ApprovalError::InsufficientApprovals {
                    required: plan.required_approvals,
                    current: plan.current_approvals,
                })
            &&& !plan.multi_signature_approval ==> result is Ok
            &&& result is Ok <==> plan.can_execute()
            &&& result is Ok ==> t.has_plan(plan_id) && t.plan(plan_id).executed_at is Some
                && t.plan(plan_id).status == crate::status::PlanStatus::Executed
        }),
{
    let j = s.plan_at(plan_id);
    assert(0 <= j < s.plans.len() && s.plans[j].id == plan_id);
    assert(s.plans[j].valid());
    let (t, result) = execute_outcome(s, user_id, plan_id, now);
    if result is Ok {
        lemma_execute_keeps_wf(s, user_id, plan_id, now);
        assert(t.plans[j].id == plan_id);
        t.lemma_plan_at(j);
    }
}

/// The status report and the execution gate agree: the count that the
/// report gives is the plan's counter, and the report says that the plan
/// can be executed exactly if a request to execute it would pass.
pub proof fn law_report_agrees_with_gate(s: LedgerView, user_id: u128, plan_id: u128, now: i64)
    requires
        s.wf(),
        status_outcome(s, user_id, plan_id) is Ok,
    ensures
        ({
            let report = status_outcome(s, user_id, plan_id)->Ok_0;
            &&& report.required_approvals == s.plan(plan_id).required_approvals
            &&& report.current_approvals == s.plan(plan_id).current_approvals
            &&& report.can_execute <==> execute_outcome(s, user_id, plan_id, now).1 is Ok
        }),
{
    let j = s.plan_at(plan_id);
    assert(0 <= j < s.plans.len() && s.plans[j].id == plan_id);
    assert(s.plans[j].valid());
}

/// A vote on an approval that a later request for approvals replaced is
/// refused with `NotFound` and changes nothing in the new approver set.
///
/// The approval belonged to the plan before the request, the request was
/// granted, and the approval's id was not given out again by it.
pub proof fn law_vote_on_replaced_approval(
    s: LedgerView,
    user_id: u128,
    plan_id: u128,
    required_approvals: i32,
    invitations: Seq<InvitationView>,
    requested_at: i64,
    approval_id: u128,
    approve: bool,
    now: i64,
)
    requires
        s.wf(),
        s.has_approval(approval_id),
        s.approval(approval_id).plan_id == plan_id,
        request_outcome(s, user_id, plan_id, required_approvals, invitations, requested_at).1 is Ok,
        forall|i: int| 0 <= i < invitations.len() ==> (#[trigger] invitations[i]).id != approval_id,
    ensures
        ({
            let t = request_outcome(
                s,
                user_id,
                plan_id,
                required_approvals,
                invitations,
                requested_at,
            ).0;
            submit_outcome(t, approval_id, approve, now) == (
                t,
                Err::<SubmitReceipt, ApprovalError>(ApprovalError::NotFound),
            )
        }),
{
    let t = request_outcome(s, user_id, plan_id, required_approvals, invitations, requested_at).0;
    let kept = s.approvals.filter(of_other_plans(plan_id));
    let fresh = fresh_rows(plan_id, invitations, requested_at);
    let i0 = s.approval_at(approval_id);
    assert(0 <= i0 < s.approvals.len() && s.approvals[i0].id == approval_id);
    lemma_filter_members(s.approvals, of_other_plans(plan_id));
    assert forall|k: int| 0 <= k < t.approvals.len() implies (#[trigger] t.approvals[k]).id
        != approval_id by {
        if k < kept.len() {
            let a = kept[k];
            assert(t.approvals[k] == a);
            assert(of_other_plans(plan_id)(a));
            assert(s.approvals.contains(a));
            let k0 = choose|k0: int| 0 <= k0 < s.approvals.len() && s.approvals[k0] == a;
            if k0 < i0 {
                assert(distinct_approval_ids()(s.approvals[k0], s.approvals[i0]));
            } else if i0 < k0 {
                assert(distinct_approval_ids()(s.approvals[i0], s.approvals[k0]));
            }
        } else {
            assert(t.approvals[k] == fresh[k - kept.len()]);
        }
    }
}

/// Whether a call is the one that executes the plan: a request to execute
/// it, by its owner, that finds it fit to execute and not yet executed.
pub open spec fn executes(s: LedgerView, op: Operation, plan_id: u128) -> bool {
    op matches Operation::Execute { user_id, plan_id: asked, now: _ } && asked == plan_id
        && s.owned_by(plan_id, user_id) && s.plan(plan_id).can_execute() && s.plan(
        plan_id,
    ).executed_at is None
}

/// Where one plan of a ledger is replaced by a plan with the same id, every
/// id names the plan that it named, but the replaced one.
proof fn lemma_plan_after_update(s: LedgerView, t: LedgerView, k: int, q: PlanView, plan_id: u128)
    requires
        pairwise(s.plans, distinct_plan_ids()),
        0 <= k < s.plans.len(),
        q.id == s.plans[k].id,
        t.plans == s.plans.update(k, q),
        s.has_plan(plan_id),
    ensures
        t.has_plan(plan_id),
        t.plan(plan_id) == (if plan_id == q.id {
            q
        } else {
            s.plan(plan_id)
        }),
{
    let j = s.plan_at(plan_id);
    assert(0 <= j < s.plans.len() && s.plans[j].id == plan_id);
    s.lemma_plan_at(k);
    assert(pairwise(t.plans, distinct_plan_ids())) by {
        assert forall|a: int, b: int| 0 <= a < b < t.plans.len() implies distinct_plan_ids()(
            #[trigger] t.plans[a],
            #[trigger] t.plans[b],
        ) by {
            assert(distinct_plan_ids()(s.plans[a], s.plans[b]));
        }
    }
    assert(t.plans[j].id == plan_id);
    t.lemma_plan_at(j);
}

/// Where a plan is removed from a ledger, every other id names the plan
/// that it named, and the removed id names none.
proof fn lemma_plan_after_remove(s: LedgerView, t: LedgerView, k: int, plan_id: u128)
    requires
        pairwise(s.plans, distinct_plan_ids()),
        0 <= k < s.plans.len(),
        t.plans == s.plans.remove(k),
        s.has_plan(plan_id),
    ensures
        t.has_plan(plan_id) <==> plan_id != s.plans[k].id,
        t.has_plan(plan_id) ==> t.plan(plan_id) == s.plan(plan_id),
{
    let j = s.plan_at(plan_id);
    assert(0 <= j < s.plans.len() && s.plans[j].id == plan_id);
    s.lemma_plan_at(k);
    let from = |m: int| if m < k { m } else { m + 1 };
    assert forall|m: int| 0 <= m < t.plans.len() implies #[trigger] t.plans[m] == s.plans[from(m)]
        && t.plans[m].id != s.plans[k].id by {
        if from(m) < k {
            assert(distinct_plan_ids()(s.plans[from(m)], s.plans[k]));
        } else {
            assert(distinct_plan_ids()(s.plans[k], s.plans[from(m)]));
        }
    }
    assert(pairwise(t.plans, distinct_plan_ids())) by {
        assert forall|a: int, b: int| 0 <= a < b < t.plans.len() implies distinct_plan_ids()(
            #[trigger] t.plans[a],
            #[trigger] t.plans[b],
        ) by {
            assert(t.plans[a] == s.plans[from(a)] && t.plans[b] == s.plans[from(b)]);
            assert(distinct_plan_ids()(s.plans[from(a)], s.plans[from(b)]));
        }
    }
    if j != k {
        let j1 = if j < k { j } else { j - 1 };
        assert(t.plans[j1] == s.plans[from(j1)]);
        t.lemma_plan_at(j1);
    } else if t.has_plan(plan_id) {
        let m = t.plan_at(plan_id);
        assert(0 <= m < t.plans.len() && t.plans[m].id == plan_id);
    }
}

/// Where a plan with a new id is added to a ledger, every id names the plan
/// that it named.
proof fn lemma_plan_after_push(s: LedgerView, t: LedgerView, q: PlanView, plan_id: u128)
    requires
        pairwise(s.plans, distinct_plan_ids()),
        !s.has_plan(q.id),
        t.plans == s.plans.push(q),
        s.has_plan(plan_id),
    ensures
        t.has_plan(plan_id),
        t.plan(plan_id) == s.plan(plan_id),
{
    let j = s.plan_at(plan_id);
    assert(0 <= j < s.plans.len() && s.plans[j].id == plan_id);
    assert(pairwise(t.plans, distinct_plan_ids())) by {
        assert forall|a: int, b: int| 0 <= a < b < t.plans.len() implies distinct_plan_ids()(
            #[trigger] t.plans[a],
            #[trigger] t.plans[b],
        ) by {
            if b < s.plans.len() {
                assert(distinct_plan_ids()(s.plans[a], s.plans[b]));
            } else {
                assert(s.plans[a].id != q.id);
            }
        }
    }
    assert(t.plans[j] == s.plans[j]);
    t.lemma_plan_at(j);
}

/// What a call other than the executing one leaves of a plan: its owner and
/// its stamp, and the tag `Executed` if it was executed.
pub open spec fn carried(before: PlanView, after: PlanView) -> bool {
    &&& after.owner == before.owner
    &&& after.executed_at == before.executed_at
    &&& before.executed_at is Some ==> after.status == crate::status::PlanStatus::Executed
}

proof fn lemma_request_carries(
    s: LedgerView,
    user_id: u128,
    asked: u128,
    required_approvals: i32,
    invitations: Seq<InvitationView>,
    now: i64,
    plan_id: u128,
)
    requires
        s.wf(),
        s.has_plan(plan_id),
    ensures
        ({
            let t = request_outcome(s, user_id, asked, required_approvals, invitations, now).0;
            t.has_plan(plan_id) && carried(s.plan(plan_id), t.plan(plan_id))
        }),
{
    let (t, result) = request_outcome(s, user_id, asked, required_approvals, invitations, now);
    let j = s.plan_at(plan_id);
    assert(0 <= j < s.plans.len() && s.plans[j].id == plan_id && s.plans[j].valid());
    if result is Ok {
        let k = s.plan_at(asked);
        assert(0 <= k < s.plans.len() && s.plans[k].id == asked);
        lemma_plan_after_update(s, t, k, t.plans[k], plan_id);
        s.lemma_plan_at(k);
    }
}

proof fn lemma_submit_carries(
    s: LedgerView,
    approval_id: u128,
    approve: bool,
    now: i64,
    plan_id: u128,
)
    requires
        s.wf(),
        s.has_plan(plan_id),
    ensures
        ({
            let t = submit_outcome(s, approval_id, approve, now).0;
            t.has_plan(plan_id) && carried(s.plan(plan_id), t.plan(plan_id))
        }),
{
    let t = submit_outcome(s, approval_id, approve, now).0;
    let j = s.plan_at(plan_id);
    assert(0 <= j < s.plans.len() && s.plans[j].id == plan_id && s.plans[j].valid());
    if s.has_approval(approval_id) {
        let i = s.approval_at(approval_id);
        assert(0 <= i < s.approvals.len() && s.approvals[i].id == approval_id);
        let voted = s.approvals[i].plan_id;
        assert(s.has_plan(voted));
        let k = s.plan_at(voted);
        assert(0 <= k < s.plans.len() && s.plans[k].id == voted);
        lemma_plan_after_update(s, t, k, t.plans[k], plan_id);
        s.lemma_plan_at(k);
    }
}

proof fn lemma_execute_carries(s: LedgerView, user_id: u128, asked: u128, now: i64, plan_id: u128)
    requires
        s.wf(),
        s.has_plan(plan_id),
    ensures
        ({
            let t = execute_outcome(s, user_id, asked, now).0;
            let op = Operation::Execute { user_id, plan_id: asked, now };
            &&& t.has_plan(plan_id)
            &&& t.plan(plan_id).owner == s.plan(plan_id).owner
            &&& executes(s, op, plan_id) ==> t.plan(plan_id) == s.plan(plan_id).executed(now)
            &&& !executes(s, op, plan_id) ==> carried(s.plan(plan_id), t.plan(plan_id))
        }),
{
    let t = execute_outcome(s, user_id, asked, now).0;
    let j = s.plan_at(plan_id);
    assert(0 <= j < s.plans.len() && s.plans[j].id == plan_id && s.plans[j].valid());
    if s.owned_by(asked, user_id) && s.plan(asked).can_execute() && s.plan(asked).executed_at
        is None {
        let k = s.plan_at(asked);
        assert(0 <= k < s.plans.len() && s.plans[k].id == asked);
        lemma_plan_after_update(s, t, k, s.plans[k].executed(now), plan_id);
        s.lemma_plan_at(k);
    }
}

/// A plan is executed through the execution gate and in no other way, and
/// its stamp is set once: across any call that leaves the plan in the
/// ledger, the plan keeps its owner and its stamp, and stays executed if it
/// was, unless the call is the one that executes it, which stamps it with
/// the call's time and changes nothing else of it.
pub proof fn law_only_the_gate_executes(s: LedgerView, op: Operation, plan_id: u128)
    requires
        s.wf(),
        s.has_plan(plan_id),
        step(s, op).has_plan(plan_id),
    ensures
        executes(s, op, plan_id) ==> (op matches Operation::Execute { now, .. } && step(
            s,
            op,
        ).plan(plan_id) == s.plan(plan_id).executed(now)),
        !executes(s, op, plan_id) ==> carried(s.plan(plan_id), step(s, op).plan(plan_id)),
{
    let t = step(s, op);
    let j = s.plan_at(plan_id);
    assert(0 <= j < s.plans.len() && s.plans[j].id == plan_id && s.plans[j].valid());
    match op {
        Operation::Create { id, owner, name, description } => {
            if !s.has_plan(id) {
                lemma_plan_after_push(
                    s,
                    t,
                    PlanView::created(id, owner, name, description),
                    plan_id,
                );
            }
        },
        Operation::Update { id, name, description } => {
            if s.has_plan(id) {
                let k = s.plan_at(id);
                assert(0 <= k < s.plans.len() && s.plans[k].id == id);
                lemma_plan_after_update(s, t, k, s.plans[k].renamed(name, description), plan_id);
                s.lemma_plan_at(k);
            }
        },
        Operation::Delete { id } => {
            if s.has_plan(id) {
                let k = s.plan_at(id);
                assert(0 <= k < s.plans.len() && s.plans[k].id == id);
                lemma_plan_after_remove(s, t, k, plan_id);
            }
        },
        Operation::Request { user_id, plan_id: asked, required_approvals, invitations, now } => {
            lemma_request_carries(s, user_id, asked, required_approvals, invitations, now, plan_id);
        },
        Operation::Submit { approval_id, approve, now } => {
            lemma_submit_carries(s, approval_id, approve, now, plan_id);
        },
        Operation::Execute { user_id, plan_id: asked, now } => {
            lemma_execute_carries(s, user_id, asked, now, plan_id);
        },
    }
}

/// A recorded vote is a decision: the approval is approved or rejected, as
/// was voted, stamped with the time of the vote, and its plan's counter is
/// the number of the plan's approved approvals after the vote.
pub proof fn law_vote_is_recorded(s: LedgerView, approval_id: u128, approve: bool, now: i64)
    requires
        s.wf(),
        s.has_approval(approval_id),
    ensures
        ({
            let (t, result) = submit_outcome(s, approval_id, approve, now);
            let plan_id = s.approval(approval_id).plan_id;
            &&& result == Ok::<SubmitReceipt, ApprovalError>(
                SubmitReceipt { approval_id, plan_id, status: ApprovalStatus::of_vote(approve) },
            )
            &&& t.has_approval(approval_id)
            &&& t.approval(approval_id) == s.approval(approval_id).decided(approve, now)
            &&& t.approval(approval_id).status != ApprovalStatus::Pending
            &&& t.approvals.len() == s.approvals.len()
            &&& t.has_plan(plan_id)
            &&& t.plan(plan_id).current_approvals == t.approved_count(plan_id)
        }),
{
    let (t, result) = submit_outcome(s, approval_id, approve, now);
    let i = s.approval_at(approval_id);
    assert(0 <= i < s.approvals.len() && s.approvals[i].id == approval_id);
    let plan_id = s.approvals[i].plan_id;
    assert(s.has_plan(plan_id));
    let j = s.plan_at(plan_id);
    assert(0 <= j < s.plans.len() && s.plans[j].id == plan_id);
    lemma_submit_keeps_wf(s, approval_id, approve, now);
    assert(t.approvals[i].id == approval_id);
    t.lemma_approval_at(i);
    assert(t.plans[j].id == plan_id);
    t.lemma_plan_at(j);
}

} // verus!
