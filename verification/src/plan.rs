//! Keeping plans, and the execution gate.

use vstd::prelude::*;
use crate::errors::ApprovalError;
use crate::ledger::{
    approved_for, distinct_approval_ids, distinct_approvers, distinct_plan_ids, find_plan,
    keep_other_plans, of_other_plans, Ledger, LedgerView,
};
use crate::models::{ApprovalView, ExecutePlanRequest, ExecutionReceipt, Plan, PlanView};
use crate::seqs::{
    lemma_filter_members, lemma_filter_none, lemma_filter_pairwise, lemma_filter_twice,
};
use crate::sources::{is_random_uuid, new_id, now_micros};
use crate::status::PlanStatus;

verus! {

impl PlanView {
    /// A plan as it is created: not gated, nothing counted, not executed.
    pub open spec fn created(id: u128, owner: u128, name: Seq<char>, description: Seq<char>) -> PlanView {
        PlanView {
            id,
            owner,
            name,
            description,
            multi_signature_approval: false,
            required_approvals: 0,
            current_approvals: 0,
            status: PlanStatus::Created,
            executed_at: None,
        }
    }

    /// The plan once it is executed at `now`.
    pub open spec fn executed(self, now: i64) -> PlanView {
        PlanView { executed_at: Some(now), status: PlanStatus::Executed, ..self }
    }

    pub open spec fn renamed(self, name: Seq<char>, description: Seq<char>) -> PlanView {
        PlanView { name, description, ..self }
    }
}

/// The ledger after a plan is created under `id`, and the plan. An id that
/// is taken creates nothing.
pub open spec fn create_outcome(
    s: LedgerView,
    id: u128,
    owner: u128,
    name: Seq<char>,
    description: Seq<char>,
) -> (LedgerView, Option<PlanView>) {
    if s.has_plan(id) {
        (s, None)
    } else {
        let plan = PlanView::created(id, owner, name, description);
        (LedgerView { plans: s.plans.push(plan), ..s }, Some(plan))
    }
}

pub proof fn lemma_create_keeps_wf(
    s: LedgerView,
    id: u128,
    owner: u128,
    name: Seq<char>,
    description: Seq<char>,
)
    requires
        s.wf(),
    ensures
        create_outcome(s, id, owner, name, description).0.wf(),
{
    let (t, made) = create_outcome(s, id, owner, name, description);
    if made is Some {
        let n = s.plans.len() as int;
        assert forall|a: int, b: int| 0 <= a < b < t.plans.len() implies distinct_plan_ids()(
            #[trigger] t.plans[a],
            #[trigger] t.plans[b],
        ) by {
            if b < n {
                assert(distinct_plan_ids()(s.plans[a], s.plans[b]));
            } else {
                assert(s.plans[a].id != id);
            }
        }
        assert forall|k: int| 0 <= k < t.approvals.len() implies t.has_plan(
            (#[trigger] t.approvals[k]).plan_id,
        ) by {
            assert(s.has_plan(s.approvals[k].plan_id));
            let m = s.plan_at(s.approvals[k].plan_id);
            assert(t.plans[m].id == s.approvals[k].plan_id);
        }
        assert forall|k: int| 0 <= k < t.plans.len() implies (#[trigger] t.plans[k]).valid()
            && t.plans[k].current_approvals == t.approved_count(t.plans[k].id) by {
            if k < n {
                assert(s.plans[k].valid());
            } else {
                assert forall|m: int| 0 <= m < s.approvals.len() implies !approved_for(id)(
                    #[trigger] s.approvals[m],
                ) by {
                    assert(s.has_plan(s.approvals[m].plan_id));
                }
                lemma_filter_none(s.approvals, approved_for(id));
            }
        }
    }
}

/// Creates a plan under the id given. Returns the plan, or `None` with the
/// ledger unchanged where the id is taken.
pub fn create_plan_with(
    ledger: &mut Ledger,
    id: u128,
    owner: u128,
    name: String,
    description: String,
) -> (made: Option<Plan>)
    ensures
        (final(ledger)@, made.deep_view()) == create_outcome(
            old(ledger)@,
            id,
            owner,
            name@,
            description@,
        ),
        final(ledger)@.wf(),
{
    let ghost s = ledger@;
    let (mut plans, approvals) = ledger.take();
    if let Some(j) = find_plan(&plans, id) {
        proof {
            s.lemma_plan_at(j as int);
        }
        ledger.put(plans, approvals);
        return None;
    }
    let plan = Plan {
        id,
        owner,
        name,
        description,
        multi_signature_approval: false,
        required_approvals: 0,
        current_approvals: 0,
        status: PlanStatus::Created,
        executed_at: None,
    };
    let copy = plan.clone();
    plans.push(plan);
    proof {
        lemma_create_keeps_wf(s, id, owner, name@, description@);
        assert(plans.deep_view() =~= s.plans.push(copy@));
    }
    ledger.put(plans, approvals);
    Some(copy)
}

/// Creates a plan under a freshly drawn id.
///
/// Whatever id is drawn, the ledger and the result are [`create_outcome`]
/// for it; a drawn id that is taken creates nothing.
pub fn create_plan(ledger: &mut Ledger, owner: u128, name: String, description: String) -> (made:
    Option<Plan>)
    ensures
        exists|id: u128|
            is_random_uuid(id) && (final(ledger)@, made.deep_view()) == #[trigger] create_outcome(
                old(ledger)@,
                id,
                owner,
                name@,
                description@,
            ),
        final(ledger)@.wf(),
{
    let id = new_id();
    create_plan_with(ledger, id, owner, name, description)
}

/// The plan with this id, if the ledger holds one.
pub fn get_plan_by_id(ledger: &Ledger, id: u128) -> (found: Option<Plan>)
    ensures
        match found {
            Some(plan) => ledger@.has_plan(id) && plan@ == ledger@.plan(id),
            None => !ledger@.has_plan(id),
        },
{
    proof {
        use_type_invariant(ledger);
        ledger.view_def();
    }
    match find_plan(&ledger.plans, id) {
        Some(j) => {
            proof {
                ledger@.lemma_plan_at(j as int);
            }
            Some(ledger.plans[j].clone())
        },
        None => None,
    }
}

/// All plans, oldest first.
pub fn get_all_plans(ledger: &Ledger) -> (plans: Vec<Plan>)
    ensures
        plans.deep_view() == ledger@.plans,
{
    proof {
        ledger.view_def();
    }
    let mut plans: Vec<Plan> = Vec::new();
    let mut i: usize = 0;
    while i < ledger.plans.len()
        invariant
            i <= ledger.plans.len(),
            plans.len() == i,
            forall|k: int| 0 <= k < i ==> (#[trigger] plans[k]) == ledger.plans[k],
        decreases ledger.plans.len() - i,
    {
        plans.push(ledger.plans[i].clone());
        i += 1;
    }
    proof {
        assert(plans.deep_view() =~= ledger.plans.deep_view());
    }
    plans
}

/// The ledger after a plan's name and description are replaced, and the
/// plan as it then is. An id that names no plan changes nothing.
pub open spec fn update_outcome(s: LedgerView, id: u128, name: Seq<char>, description: Seq<char>) -> (
    LedgerView,
    Option<PlanView>,
) {
    if !s.has_plan(id) {
        (s, None)
    } else {
        let plan = s.plan(id).renamed(name, description);
        (LedgerView { plans: s.plans.update(s.plan_at(id), plan), ..s }, Some(plan))
    }
}

/// Replacing one plan by another with the same id, counters, gate and
/// stamp leaves the ledger well-formed.
pub proof fn lemma_replace_plan_keeps_wf(s: LedgerView, j: int, plan: PlanView)
    requires
        s.wf(),
        0 <= j < s.plans.len(),
        plan.id == s.plans[j].id,
        plan.current_approvals == s.plans[j].current_approvals,
        plan.valid(),
    ensures
        (LedgerView { plans: s.plans.update(j, plan), ..s }).wf(),
{
    let t = LedgerView { plans: s.plans.update(j, plan), ..s };
    assert forall|a: int, b: int| 0 <= a < b < t.plans.len() implies distinct_plan_ids()(
        #[trigger] t.plans[a],
        #[trigger] t.plans[b],
    ) by {
        assert(distinct_plan_ids()(s.plans[a], s.plans[b]));
    }
    assert forall|k: int| 0 <= k < t.approvals.len() implies t.has_plan(
        (#[trigger] t.approvals[k]).plan_id,
    ) by {
        assert(s.has_plan(s.approvals[k].plan_id));
        let m = s.plan_at(s.approvals[k].plan_id);
        assert(t.plans[m].id == s.approvals[k].plan_id);
    }
    assert forall|k: int| 0 <= k < t.plans.len() implies (#[trigger] t.plans[k]).valid()
        && t.plans[k].current_approvals == t.approved_count(t.plans[k].id) by {
        assert(s.plans[k].valid());
    }
}

/// Replaces a plan's name and description.
pub fn update_plan(ledger: &mut Ledger, id: u128, name: String, description: String) -> (updated:
    Option<Plan>)
    ensures
        (final(ledger)@, updated.deep_view()) == update_outcome(
            old(ledger)@,
            id,
            name@,
            description@,
        ),
        final(ledger)@.wf(),
{
    let ghost s = ledger@;
    let (mut plans, approvals) = ledger.take();
    let j = match find_plan(&plans, id) {
        Some(j) => j,
        None => {
            ledger.put(plans, approvals);
            return None;
        },
    };
    proof {
        s.lemma_plan_at(j as int);
    }
    plans[j].name = name;
    plans[j].description = description;
    let copy = plans[j].clone();
    proof {
        lemma_replace_plan_keeps_wf(s, j as int, copy@);
        assert(plans.deep_view() =~= s.plans.update(j as int, copy@));
    }
    ledger.put(plans, approvals);
    Some(copy)
}

/// The ledger after a plan is deleted together with its approvals, and
/// whether there was such a plan.
pub open spec fn delete_outcome(s: LedgerView, id: u128) -> (LedgerView, bool) {
    if !s.has_plan(id) {
        (s, false)
    } else {
        (
            LedgerView {
                plans: s.plans.remove(s.plan_at(id)),
                approvals: s.approvals.filter(of_other_plans(id)),
            },
            true,
        )
    }
}

pub proof fn lemma_delete_keeps_wf(s: LedgerView, id: u128)
    requires
        s.wf(),
    ensures
        delete_outcome(s, id).0.wf(),
{
    let (t, deleted) = delete_outcome(s, id);
    if deleted {
        let j = s.plan_at(id);
        assert(0 <= j < s.plans.len() && s.plans[j].id == id);
        let from = |k: int| if k < j { k } else { k + 1 };
        assert forall|k: int| 0 <= k < t.plans.len() implies #[trigger] t.plans[k] == s.plans[from(k)]
            && t.plans[k].id != id by {
            if from(k) < j {
                assert(distinct_plan_ids()(s.plans[from(k)], s.plans[j]));
            } else {
                assert(distinct_plan_ids()(s.plans[j], s.plans[from(k)]));
            }
        }
        assert forall|a: int, b: int| 0 <= a < b < t.plans.len() implies distinct_plan_ids()(
            #[trigger] t.plans[a],
            #[trigger] t.plans[b],
        ) by {
            assert(t.plans[a] == s.plans[from(a)] && t.plans[b] == s.plans[from(b)]);
            assert(distinct_plan_ids()(s.plans[from(a)], s.plans[from(b)]));
        }
        lemma_filter_members(s.approvals, of_other_plans(id));
        lemma_filter_pairwise(s.approvals, of_other_plans(id), distinct_approval_ids());
        lemma_filter_pairwise(s.approvals, of_other_plans(id), distinct_approvers());
        s.approvals.lemma_filter_len(of_other_plans(id));
        assert forall|k: int| 0 <= k < t.approvals.len() implies t.has_plan(
            (#[trigger] t.approvals[k]).plan_id,
        ) by {
            let a = t.approvals[k];
            assert(of_other_plans(id)(a));
            assert(s.approvals.contains(a));
            let k0 = choose|k0: int| 0 <= k0 < s.approvals.len() && s.approvals[k0] == a;
            assert(s.has_plan(s.approvals[k0].plan_id));
            let m = s.plan_at(a.plan_id);
            assert(0 <= m < s.plans.len() && s.plans[m].id == a.plan_id);
            let m1 = if m < j { m } else { m - 1 };
            assert(t.plans[m1] == s.plans[from(m1)]);
        }
        assert forall|k: int| 0 <= k < t.plans.len() implies (#[trigger] t.plans[k]).valid()
            && t.plans[k].current_approvals == t.approved_count(t.plans[k].id) by {
            let q = t.plans[k].id;
            assert(t.plans[k] == s.plans[from(k)]);
            assert(s.plans[from(k)].valid());
            assert forall|x: ApprovalView| #[trigger] approved_for(q)(x) implies of_other_plans(
                id,
            )(x) by {}
            lemma_filter_twice(s.approvals, of_other_plans(id), approved_for(q));
        }
    }
}

/// Deletes a plan and its approvals. Returns whether there was such a plan.
pub fn delete_plan(ledger: &mut Ledger, id: u128) -> (deleted: bool)
    ensures
        (final(ledger)@, deleted) == delete_outcome(old(ledger)@, id),
        final(ledger)@.wf(),
{
    let ghost s = ledger@;
    let (mut plans, approvals) = ledger.take();
    let j = match find_plan(&plans, id) {
        Some(j) => j,
        None => {
            ledger.put(plans, approvals);
            return false;
        },
    };
    proof {
        s.lemma_plan_at(j as int);
    }
    plans.remove(j);
    let kept = keep_other_plans(&approvals, id);
    proof {
        lemma_delete_keeps_wf(s, id);
        assert(plans.deep_view() =~= s.plans.remove(j as int));
    }
    ledger.put(plans, kept);
    true
}

/// The ledger after a request to execute a plan, and what the request
/// returns.
///
/// The plan must exist and be the caller's. A gated plan with fewer
/// approvals than required is refused, with both counts. Otherwise the plan
/// passes: it is stamped with `now` and marked executed, unless it already
/// was, in which case it keeps its first stamp.
pub open spec fn execute_outcome(s: LedgerView, user_id: u128, plan_id: u128, now: i64) -> (
    LedgerView,
    Result<ExecutionReceipt, ApprovalError>,
) {
    if !s.owned_by(plan_id, user_id) {
        (s, Err(ApprovalError::NotFound))
    } else {
        let plan = s.plan(plan_id);
        if !plan.can_execute() {
            (
                s,
                Err(
                    ApprovalError::InsufficientApprovals {
                        required: plan.required_approvals,
                        current: plan.current_approvals,
                    },
                ),
            )
        } else {
            match plan.executed_at {
                Some(first) => (s, Ok(ExecutionReceipt { executed: true, executed_at: first })),
                None => (
                    LedgerView {
                        plans: s.plans.update(s.plan_at(plan_id), plan.executed(now)),
                        ..s
                    },
                    Ok(ExecutionReceipt { executed: true, executed_at: now }),
                ),
            }
        }
    }
}

pub proof fn lemma_execute_keeps_wf(s: LedgerView, user_id: u128, plan_id: u128, now: i64)
    requires
        s.wf(),
    ensures
        execute_outcome(s, user_id, plan_id, now).0.wf(),
{
    if s.owned_by(plan_id, user_id) {
        let j = s.plan_at(plan_id);
        assert(0 <= j < s.plans.len() && s.plans[j].id == plan_id);
        assert(s.plans[j].valid());
        if s.plans[j].can_execute() && s.plans[j].executed_at is None {
            lemma_replace_plan_keeps_wf(s, j, s.plans[j].executed(now));
        }
    }
}

/// Passes one of the caller's plans through the execution gate at the time
/// given.
pub fn execute_plan_at(ledger: &mut Ledger, user_id: u128, plan_id: u128, now: i64) -> (result:
    Result<ExecutionReceipt, ApprovalError>)
    ensures
        (final(ledger)@, result) == execute_outcome(old(ledger)@, user_id, plan_id, now),
        final(ledger)@.wf(),
{
    let ghost s = ledger@;
    let (mut plans, approvals) = ledger.take();
    let j = match find_plan(&plans, plan_id) {
        Some(j) => j,
        None => {
            ledger.put(plans, approvals);
            return Err(ApprovalError::NotFound);
        },
    };
    proof {
        s.lemma_plan_at(j as int);
    }
    if plans[j].owner != user_id {
        ledger.put(plans, approvals);
        return Err(ApprovalError::NotFound);
    }
    if !plans[j].can_execute() {
        let refusal = ApprovalError::InsufficientApprovals {
            required: plans[j].required_approvals,
            current: plans[j].current_approvals,
        };
        ledger.put(plans, approvals);
        return Err(refusal);
    }
    if let Some(first) = plans[j].executed_at {
        ledger.put(plans, approvals);
        return Ok(ExecutionReceipt { executed: true, executed_at: first });
    }
    plans[j].executed_at = Some(now);
    plans[j].status = PlanStatus::Executed;
    proof {
        lemma_execute_keeps_wf(s, user_id, plan_id, now);
        assert(plans.deep_view() =~= s.plans.update(j as int, s.plans[j as int].executed(now)));
    }
    ledger.put(plans, approvals);
    Ok(ExecutionReceipt { executed: true, executed_at: now })
}

/// Passes one of the caller's plans through the execution gate, now.
///
/// Whatever the clock reads, the ledger and the result are
/// [`execute_outcome`] at that time.
pub fn execute_plan(ledger: &mut Ledger, user_id: u128, req: &ExecutePlanRequest) -> (result: Result<
    ExecutionReceipt,
    ApprovalError,
>)
    ensures
        exists|now: i64|
            (final(ledger)@, result) == #[trigger] execute_outcome(
                old(ledger)@,
                user_id,
                req.plan_id,
                now,
            ),
        final(ledger)@.wf(),
{
    let now = now_micros();
    execute_plan_at(ledger, user_id, req.plan_id, now)
}

} // verus!
