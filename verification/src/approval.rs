//! Requesting approvals, voting, and reading where a plan's approval stands.

use vstd::prelude::*;
use crate::errors::{ApprovalError, ValidationIssue};
use crate::ledger::{
    approved_for, count_approved, distinct_approval_ids, distinct_approvers, distinct_plan_ids,
    find_approval, find_plan, id_among, invited_among, keep_other_plans, of_other_plans, of_plan,
    Ledger, LedgerView, MAX_APPROVALS,
};
use crate::models::{
    Approval, ApprovalDetails, ApprovalDetailsView, ApprovalReceipt, ApprovalRequest,
    ApprovalResponse, ApprovalStatusResponse, ApprovalStatusResponseView, ApprovalView,
    ApproverStatus, ApproverStatusView, Invitation, InvitationView, PlanSummary, PlanView,
    SubmitApprovalRequest, SubmitReceipt,
};
use crate::seqs::{
    across, lemma_concat_pairwise, lemma_filter_len_agree, lemma_filter_members,
    lemma_filter_none, lemma_filter_pairwise, lemma_filter_twice, pairwise,
};
use crate::sources::{is_random_uuid, new_id, now_micros};
use crate::status::ApprovalStatus;

verus! {

/// The rows that a round of invitations starts with: one pending approval
/// per invitation, in order.
pub open spec fn fresh_rows(plan_id: u128, invitations: Seq<InvitationView>, now: i64) -> Seq<
    ApprovalView,
> {
    Seq::new(
        invitations.len(),
        |i: int| ApprovalView::pending(invitations[i].id, plan_id, invitations[i].email, now),
    )
}

/// Whether the ledger takes `fresh` beside `kept`: no id is used twice, no
/// approver is invited twice, and there is room.
pub open spec fn insertable(kept: Seq<ApprovalView>, fresh: Seq<ApprovalView>) -> bool {
    &&& pairwise(fresh, distinct_approval_ids())
    &&& pairwise(fresh, distinct_approvers())
    &&& across(kept, fresh, distinct_approval_ids())
    &&& kept.len() + fresh.len() <= MAX_APPROVALS
}

/// The ledger after a request for approvals, and what the request returns.
///
/// The request is refused unchanged if it names no approver or a required
/// count below one, if the plan is missing or another user's, or if an
/// insert fails. Otherwise the plan is gated with the new threshold and a
/// counter of zero, and its approvals are replaced by the fresh rows.
pub open spec fn request_outcome(
    s: LedgerView,
    user_id: u128,
    plan_id: u128,
    required_approvals: i32,
    invitations: Seq<InvitationView>,
    now: i64,
) -> (LedgerView, Result<ApprovalReceipt, ApprovalError>) {
    let kept = s.approvals.filter(of_other_plans(plan_id));
    let fresh = fresh_rows(plan_id, invitations, now);
    if invitations.len() == 0 {
        (s, Err(ApprovalError::ValidationError(ValidationIssue::EmptyApproverList)))
    } else if required_approvals <= 0 {
        (s, Err(ApprovalError::ValidationError(ValidationIssue::NonPositiveRequiredCount)))
    } else if !s.owned_by(plan_id, user_id) {
        (s, Err(ApprovalError::NotFound))
    } else if !insertable(kept, fresh) {
        (s, Err(ApprovalError::TransactionAborted))
    } else {
        let gated = (PlanView {
            multi_signature_approval: true,
            required_approvals,
            current_approvals: 0,
            ..s.plan(plan_id)
        }).restaged();
        (
            LedgerView { plans: s.plans.update(s.plan_at(plan_id), gated), approvals: kept + fresh },
            Ok(
                ApprovalReceipt {
                    plan_id,
                    required_approvals,
                    approver_count: invitations.len() as usize,
                },
            ),
        )
    }
}

/// A request for approvals leaves the ledger well-formed.
pub proof fn lemma_request_keeps_wf(
    s: LedgerView,
    user_id: u128,
    plan_id: u128,
    required_approvals: i32,
    invitations: Seq<InvitationView>,
    now: i64,
)
    requires
        s.wf(),
    ensures
        request_outcome(s, user_id, plan_id, required_approvals, invitations, now).0.wf(),
{
    let (t, result) = request_outcome(s, user_id, plan_id, required_approvals, invitations, now);
    if result is Ok {
        let kept = s.approvals.filter(of_other_plans(plan_id));
        let fresh = fresh_rows(plan_id, invitations, now);
        let j = s.plan_at(plan_id);
        assert(0 <= j < s.plans.len() && s.plans[j].id == plan_id);
        lemma_filter_members(s.approvals, of_other_plans(plan_id));
        lemma_filter_pairwise(s.approvals, of_other_plans(plan_id), distinct_approval_ids());
        lemma_filter_pairwise(s.approvals, of_other_plans(plan_id), distinct_approvers());
        assert(across(kept, fresh, distinct_approvers())) by {
            assert forall|i: int, k: int|
                0 <= i < kept.len() && 0 <= k < fresh.len() implies distinct_approvers()(
                #[trigger] kept[i],
                #[trigger] fresh[k],
            ) by {
                assert(of_other_plans(plan_id)(kept[i]));
            }
        }
        lemma_concat_pairwise(kept, fresh, distinct_approval_ids());
        lemma_concat_pairwise(kept, fresh, distinct_approvers());
        assert(pairwise(t.plans, distinct_plan_ids())) by {
            assert forall|i: int, k: int| 0 <= i < k < t.plans.len() implies distinct_plan_ids()(
                #[trigger] t.plans[i],
                #[trigger] t.plans[k],
            ) by {
                assert(distinct_plan_ids()(s.plans[i], s.plans[k]));
            }
        }
        assert forall|i: int| 0 <= i < t.approvals.len() implies t.has_plan(
            (#[trigger] t.approvals[i]).plan_id,
        ) by {
            let a = t.approvals[i];
            if i < kept.len() {
                assert(a == kept[i]);
                assert(s.approvals.contains(a));
                let i0 = choose|i0: int| 0 <= i0 < s.approvals.len() && s.approvals[i0] == a;
                assert(s.has_plan(s.approvals[i0].plan_id));
                let k = s.plan_at(a.plan_id);
                assert(t.plans[k].id == a.plan_id);
            } else {
                assert(a == fresh[i - kept.len()]);
                assert(t.plans[j].id == plan_id);
            }
        }
        assert forall|i: int| 0 <= i < t.plans.len() implies (#[trigger] t.plans[i]).valid()
            && t.plans[i].current_approvals == t.approved_count(t.plans[i].id) by {
            let q = t.plans[i].id;
            assert(s.plans[i].valid());
            Seq::filter_distributes_over_add(kept, fresh, approved_for(q));
            assert forall|k: int| 0 <= k < fresh.len() implies !approved_for(q)(
                #[trigger] fresh[k],
            ) by {}
            lemma_filter_none(fresh, approved_for(q));
            if i == j {
                assert forall|k: int| 0 <= k < kept.len() implies !approved_for(q)(
                    #[trigger] kept[k],
                ) by {
                    assert(of_other_plans(plan_id)(kept[k]));
                }
                lemma_filter_none(kept, approved_for(q));
            } else {
                if i < j {
                    assert(distinct_plan_ids()(s.plans[i], s.plans[j]));
                } else {
                    assert(distinct_plan_ids()(s.plans[j], s.plans[i]));
                }
                assert forall|x: ApprovalView| #[trigger]
                    approved_for(q)(x) implies of_other_plans(plan_id)(x) by {}
                lemma_filter_twice(s.approvals, of_other_plans(plan_id), approved_for(q));
            }
        }
    }
}

/// Builds one pending approval per invitation.
fn pending_rows(plan_id: u128, invitations: &Vec<Invitation>, now: i64) -> (fresh: Vec<Approval>)
    ensures
        fresh.deep_view() == fresh_rows(plan_id, invitations.deep_view(), now),
{
    let mut fresh: Vec<Approval> = Vec::new();
    let mut i: usize = 0;
    while i < invitations.len()
        invariant
            i <= invitations.len(),
            fresh.len() == i,
            forall|k: int|
                0 <= k < i ==> (#[trigger] fresh[k])@ == ApprovalView::pending(
                    invitations[k].id,
                    plan_id,
                    invitations[k].email@,
                    now,
                ),
        decreases invitations.len() - i,
    {
        fresh.push(
            Approval {
                id: invitations[i].id,
                plan_id,
                approver_id: None,
                approver_email: invitations[i].email.clone(),
                status: ApprovalStatus::Pending,
                approved_at: None,
                created_at: now,
                updated_at: now,
            },
        );
        i += 1;
    }
    proof {
        assert(fresh.deep_view() =~= fresh_rows(plan_id, invitations.deep_view(), now));
    }
    fresh
}

/// Decides whether the ledger takes `fresh` beside `kept`.
fn can_insert(kept: &Vec<Approval>, fresh: &Vec<Approval>) -> (ok: bool)
    ensures
        ok == insertable(kept.deep_view(), fresh.deep_view()),
{
    let ghost kv = kept.deep_view();
    let ghost fv = fresh.deep_view();
    if fresh.len() > MAX_APPROVALS || kept.len() > MAX_APPROVALS - fresh.len() {
        return false;
    }
    let mut j: usize = 0;
    while j < fresh.len()
        invariant
            j <= fresh.len(),
            kv == kept.deep_view(),
            fv == fresh.deep_view(),
            pairwise(fv.take(j as int), distinct_approval_ids()),
            pairwise(fv.take(j as int), distinct_approvers()),
            across(kv, fv.take(j as int), distinct_approval_ids()),
        decreases fresh.len() - j,
    {
        let row = &fresh[j];
        let ghost head = fv.take(j as int);
        if id_among(fresh, j, row.id) {
            proof {
                let k = choose|k: int| 0 <= k < j && (#[trigger] fresh[k]).id == row.id;
                assert(!distinct_approval_ids()(fv[k], fv[j as int]));
            }
            return false;
        }
        if invited_among(fresh, j, row.plan_id, &row.approver_email) {
            proof {
                let k = choose|k: int|
                    0 <= k < j && (#[trigger] fresh[k]).plan_id == row.plan_id
                        && fresh[k].approver_email@ == row.approver_email@;
                assert(!distinct_approvers()(fv[k], fv[j as int]));
            }
            return false;
        }
        if id_among(kept, kept.len(), row.id) {
            proof {
                let k = choose|k: int| 0 <= k < kept.len() && (#[trigger] kept[k]).id == row.id;
                assert(!distinct_approval_ids()(kv[k], fv[j as int]));
            }
            return false;
        }
        proof {
            let next = fv.take(j + 1);
            assert forall|a: int, b: int| 0 <= a < b < next.len() implies distinct_approval_ids()(
                #[trigger] next[a],
                #[trigger] next[b],
            ) && distinct_approvers()(next[a], next[b]) by {
                if b < j {
                    assert(distinct_approval_ids()(head[a], head[b]));
                    assert(distinct_approvers()(head[a], head[b]));
                } else {
                    assert(fresh[a].id != row.id);
                    assert(!(fresh[a].plan_id == row.plan_id && fresh[a].approver_email@
                        == row.approver_email@));
                }
            }
            assert forall|a: int, b: int|
                0 <= a < kv.len() && 0 <= b < next.len() implies distinct_approval_ids()(
                #[trigger] kv[a],
                #[trigger] next[b],
            ) by {
                if b < j {
                    assert(distinct_approval_ids()(kv[a], head[b]));
                } else {
                    assert(kept[a].id != row.id);
                }
            }
        }
        j += 1;
    }
    proof {
        assert(fv.take(j as int) =~= fv);
    }
    true
}

/// Puts a plan under approval by the invited approvers, with the ids and the
/// time given.
///
/// The whole request takes effect or none of it: the contract gives the
/// ledger and the result as [`request_outcome`] of the ledger before.
pub fn request_approvals_with(
    ledger: &mut Ledger,
    user_id: u128,
    plan_id: u128,
    required_approvals: i32,
    invitations: &Vec<Invitation>,
    now: i64,
) -> (result: Result<ApprovalReceipt, ApprovalError>)
    ensures
        (final(ledger)@, result) == request_outcome(
            old(ledger)@,
            user_id,
            plan_id,
            required_approvals,
            invitations.deep_view(),
            now,
        ),
        final(ledger)@.wf(),
{
    proof {
        use_type_invariant(&*ledger);
        ledger.view_def();
    }
    let ghost s = ledger@;
    if invitations.len() == 0 {
        return Err(ApprovalError::ValidationError(ValidationIssue::EmptyApproverList));
    }
    if required_approvals <= 0 {
        return Err(ApprovalError::ValidationError(ValidationIssue::NonPositiveRequiredCount));
    }
    let j = match find_plan(&ledger.plans, plan_id) {
        Some(j) => j,
        None => {
            return Err(ApprovalError::NotFound);
        },
    };
    proof {
        s.lemma_plan_at(j as int);
    }
    if ledger.plans[j].owner != user_id {
        return Err(ApprovalError::NotFound);
    }
    let kept = keep_other_plans(&ledger.approvals, plan_id);
    let mut fresh = pending_rows(plan_id, invitations, now);
    if !can_insert(&kept, &fresh) {
        return Err(ApprovalError::TransactionAborted);
    }
    let ghost kept_view = kept.deep_view();
    let ghost fresh_view = fresh.deep_view();
    let (mut plans, _) = ledger.take();
    let mut approvals = kept;
    approvals.append(&mut fresh);
    plans[j].multi_signature_approval = true;
    plans[j].required_approvals = required_approvals;
    plans[j].current_approvals = 0;
    let stage = plans[j].stage();
    plans[j].status = stage;
    proof {
        lemma_request_keeps_wf(s, user_id, plan_id, required_approvals, invitations.deep_view(), now);
        assert(approvals.deep_view() =~= kept_view + fresh_view);
        assert(plans.deep_view() =~= s.plans.update(j as int, plans[j as int]@));
    }
    ledger.put(plans, approvals);
    Ok(ApprovalReceipt { plan_id, required_approvals, approver_count: invitations.len() })
}

/// The ledger after a vote on an approval, and what the vote returns.
///
/// A vote on an approval that does not exist is refused unchanged. Otherwise
/// the approval takes the decision and the time, whatever it held before,
/// and its plan's counter is counted anew from the ledger.
pub open spec fn submit_outcome(s: LedgerView, approval_id: u128, approve: bool, now: i64) -> (
    LedgerView,
    Result<SubmitReceipt, ApprovalError>,
) {
    if !s.has_approval(approval_id) {
        (s, Err(ApprovalError::NotFound))
    } else {
        let i = s.approval_at(approval_id);
        let decided = s.approvals[i].decided(approve, now);
        let approvals = s.approvals.update(i, decided);
        let plan_id = decided.plan_id;
        let count = approvals.filter(approved_for(plan_id)).len();
        let plan = (PlanView { current_approvals: count as i32, ..s.plan(plan_id) }).restaged();
        (
            LedgerView { plans: s.plans.update(s.plan_at(plan_id), plan), approvals },
            Ok(SubmitReceipt { approval_id, plan_id, status: ApprovalStatus::of_vote(approve) }),
        )
    }
}

/// A vote leaves the ledger well-formed.
pub proof fn lemma_submit_keeps_wf(s: LedgerView, approval_id: u128, approve: bool, now: i64)
    requires
        s.wf(),
    ensures
        submit_outcome(s, approval_id, approve, now).0.wf(),
{
    let (t, result) = submit_outcome(s, approval_id, approve, now);
    if result is Ok {
        let i = s.approval_at(approval_id);
        assert(0 <= i < s.approvals.len() && s.approvals[i].id == approval_id);
        let plan_id = s.approvals[i].plan_id;
        assert(s.has_plan(plan_id));
        let j = s.plan_at(plan_id);
        assert(0 <= j < s.plans.len() && s.plans[j].id == plan_id);
        assert(pairwise(t.plans, distinct_plan_ids())) by {
            assert forall|a: int, b: int| 0 <= a < b < t.plans.len() implies distinct_plan_ids()(
                #[trigger] t.plans[a],
                #[trigger] t.plans[b],
            ) by {
                assert(distinct_plan_ids()(s.plans[a], s.plans[b]));
            }
        }
        assert(pairwise(t.approvals, distinct_approval_ids()) && pairwise(
            t.approvals,
            distinct_approvers(),
        )) by {
            assert forall|a: int, b: int|
                0 <= a < b < t.approvals.len() implies distinct_approval_ids()(
                #[trigger] t.approvals[a],
                #[trigger] t.approvals[b],
            ) && distinct_approvers()(t.approvals[a], t.approvals[b]) by {
                assert(distinct_approval_ids()(s.approvals[a], s.approvals[b]));
                assert(distinct_approvers()(s.approvals[a], s.approvals[b]));
            }
        }
        assert forall|k: int| 0 <= k < t.approvals.len() implies t.has_plan(
            (#[trigger] t.approvals[k]).plan_id,
        ) by {
            assert(s.has_plan(s.approvals[k].plan_id));
            let m = s.plan_at(s.approvals[k].plan_id);
            assert(t.plans[m].id == s.approvals[k].plan_id);
        }
        s.approvals.update(i, s.approvals[i].decided(approve, now)).lemma_filter_len(
            approved_for(plan_id),
        );
        assert forall|k: int| 0 <= k < t.plans.len() implies (#[trigger] t.plans[k]).valid()
            && t.plans[k].current_approvals == t.approved_count(t.plans[k].id) by {
            let q = t.plans[k].id;
            assert(s.plans[k].valid());
            if k != j {
                if k < j {
                    assert(distinct_plan_ids()(s.plans[k], s.plans[j]));
                } else {
                    assert(distinct_plan_ids()(s.plans[j], s.plans[k]));
                }
                lemma_filter_len_agree(
                    s.approvals,
                    t.approvals,
                    approved_for(q),
                    approved_for(q),
                );
            }
        }
    }
}

/// Records a vote on an approval at the time given.
pub fn submit_approval_at(ledger: &mut Ledger, approval_id: u128, approve: bool, now: i64) -> (result:
    Result<SubmitReceipt, ApprovalError>)
    ensures
        (final(ledger)@, result) == submit_outcome(old(ledger)@, approval_id, approve, now),
        final(ledger)@.wf(),
{
    proof {
        use_type_invariant(&*ledger);
        ledger.view_def();
    }
    let ghost s = ledger@;
    let i = match find_approval(&ledger.approvals, approval_id) {
        Some(i) => i,
        None => {
            return Err(ApprovalError::NotFound);
        },
    };
    proof {
        s.lemma_approval_at(i as int);
    }
    let plan_id = ledger.approvals[i].plan_id;
    let j = match find_plan(&ledger.plans, plan_id) {
        Some(j) => j,
        None => {
            proof {
                assert(s.has_plan(s.approvals[i as int].plan_id));
                let m = s.plan_at(plan_id);
                assert(ledger.plans[m].id == plan_id);
            }
            vstd::pervasive::unreached()
        },
    };
    proof {
        s.lemma_plan_at(j as int);
    }
    let (mut plans, mut approvals) = ledger.take();
    approvals[i].status = ApprovalStatus::from_vote(approve);
    approvals[i].approved_at = Some(now);
    approvals[i].updated_at = now;
    proof {
        assert(approvals.deep_view() =~= s.approvals.update(
            i as int,
            s.approvals[i as int].decided(approve, now),
        ));
        approvals.deep_view().lemma_filter_len(approved_for(plan_id));
    }
    let count = count_approved(&approvals, plan_id);
    plans[j].current_approvals = count as i32;
    let stage = plans[j].stage();
    plans[j].status = stage;
    proof {
        lemma_submit_keeps_wf(s, approval_id, approve, now);
        assert(plans.deep_view() =~= s.plans.update(j as int, plans[j as int]@));
    }
    ledger.put(plans, approvals);
    Ok(SubmitReceipt { approval_id, plan_id, status: ApprovalStatus::from_vote(approve) })
}

/// Records a vote on an approval, now.
///
/// Whatever the clock reads, the ledger and the result are
/// [`submit_outcome`] at that time.
pub fn submit_approval(ledger: &mut Ledger, req: &SubmitApprovalRequest) -> (result: Result<
    SubmitReceipt,
    ApprovalError,
>)
    ensures
        exists|now: i64|
            (final(ledger)@, result) == #[trigger] submit_outcome(
                old(ledger)@,
                req.approval_id,
                req.approve,
                now,
            ),
        final(ledger)@.wf(),
{
    let now = now_micros();
    submit_approval_at(ledger, req.approval_id, req.approve, now)
}

/// What an approver's row shows in a status report.
pub open spec fn to_approver_status() -> spec_fn(ApprovalView) -> ApproverStatusView {
    |a: ApprovalView| a.approver_status()
}

/// Where a plan's approval stands, as its owner is told.
///
/// The plan must exist, be the caller's and be under multi-signature
/// approval. The report counts the approved approvals in the ledger, lists
/// every approver of the plan in the order of invitation, and says whether
/// the threshold is met.
pub open spec fn status_outcome(s: LedgerView, user_id: u128, plan_id: u128) -> Result<
    ApprovalStatusResponseView,
    ApprovalError,
> {
    if !s.owned_by(plan_id, user_id) {
        Err(ApprovalError::NotFound)
    } else if !s.plan(plan_id).multi_signature_approval {
        Err(ApprovalError::MultiSignatureNotEnabled)
    } else {
        let required = s.plan(plan_id).required_approvals;
        let current = s.approved_count(plan_id) as i32;
        Ok(
            ApprovalStatusResponseView {
                plan_id,
                required_approvals: required,
                current_approvals: current,
                approvers: s.approvals_of(plan_id).map_values(to_approver_status()),
                can_execute: current >= required,
            },
        )
    }
}

/// Lists the approvers of a plan with their decisions.
fn approver_statuses(approvals: &Vec<Approval>, plan_id: u128) -> (approvers: Vec<ApproverStatus>)
    ensures
        approvers.deep_view() == approvals.deep_view().filter(of_plan(plan_id)).map_values(
            to_approver_status(),
        ),
{
    let ghost all = approvals.deep_view();
    let mut approvers: Vec<ApproverStatus> = Vec::new();
    let mut i: usize = 0;
    proof {
        assert(all.take(0) =~= Seq::<ApprovalView>::empty());
        lemma_filter_none(all.take(0), of_plan(plan_id));
        assert(approvers.deep_view() =~= Seq::<ApprovalView>::empty().map_values(
            to_approver_status(),
        ));
    }
    while i < approvals.len()
        invariant
            i <= approvals.len(),
            all == approvals.deep_view(),
            approvers.deep_view() == all.take(i as int).filter(of_plan(plan_id)).map_values(
                to_approver_status(),
            ),
        decreases approvals.len() - i,
    {
        let ghost before = approvers.deep_view();
        let ghost listed = all.take(i as int).filter(of_plan(plan_id));
        proof {
            assert(all.take(i + 1) =~= all.take(i as int).push(all[i as int]));
            all.take(i as int).lemma_filter_push(all[i as int], of_plan(plan_id));
        }
        let a = &approvals[i];
        if a.plan_id == plan_id {
            approvers.push(
                ApproverStatus {
                    email: a.approver_email.clone(),
                    status: a.status,
                    approved_at: a.approved_at,
                },
            );
            proof {
                assert(approvers.deep_view() =~= before.push(all[i as int].approver_status()));
                assert(listed.push(all[i as int]).map_values(to_approver_status()) =~= before.push(
                    all[i as int].approver_status(),
                ));
            }
        }
        i += 1;
    }
    proof {
        assert(all.take(i as int) =~= all);
    }
    approvers
}

/// Reports where the approval of one of the caller's plans stands.
pub fn get_approval_status(ledger: &Ledger, user_id: u128, plan_id: u128) -> (result: Result<
    ApprovalStatusResponse,
    ApprovalError,
>)
    ensures
        match result {
            Ok(report) => status_outcome(ledger@, user_id, plan_id) == Ok::<
                ApprovalStatusResponseView,
                ApprovalError,
            >(report@),
            Err(e) => status_outcome(ledger@, user_id, plan_id) == Err::<
                ApprovalStatusResponseView,
                ApprovalError,
            >(e),
        },
{
    proof {
        use_type_invariant(ledger);
        ledger.view_def();
    }
    let ghost s = ledger@;
    let j = match find_plan(&ledger.plans, plan_id) {
        Some(j) => j,
        None => {
            return Err(ApprovalError::NotFound);
        },
    };
    proof {
        s.lemma_plan_at(j as int);
    }
    let plan = &ledger.plans[j];
    if plan.owner != user_id {
        return Err(ApprovalError::NotFound);
    }
    if !plan.multi_signature_approval {
        return Err(ApprovalError::MultiSignatureNotEnabled);
    }
    proof {
        s.approvals.lemma_filter_len(approved_for(plan_id));
    }
    let current = count_approved(&ledger.approvals, plan_id) as i32;
    let approvers = approver_statuses(&ledger.approvals, plan_id);
    Ok(
        ApprovalStatusResponse {
            plan_id,
            required_approvals: plan.required_approvals,
            current_approvals: current,
            approvers,
            can_execute: current >= plan.required_approvals,
        },
    )
}

/// An approval with the name and description of its plan, as its approver
/// is shown them. There is none for an id that names no approval.
pub open spec fn approval_outcome(s: LedgerView, approval_id: u128) -> Result<
    ApprovalDetailsView,
    ApprovalError,
> {
    if !s.has_approval(approval_id) {
        Err(ApprovalError::NotFound)
    } else {
        let a = s.approval(approval_id);
        Ok(ApprovalDetailsView { approval: a.response(), plan: s.plan(a.plan_id).summary() })
    }
}

/// Looks up an approval for its approver.
pub fn get_approval(ledger: &Ledger, approval_id: u128) -> (result: Result<
    ApprovalDetails,
    ApprovalError,
>)
    ensures
        match result {
            Ok(details) => approval_outcome(ledger@, approval_id) == Ok::<
                ApprovalDetailsView,
                ApprovalError,
            >(details@),
            Err(e) => approval_outcome(ledger@, approval_id) == Err::<
                ApprovalDetailsView,
                ApprovalError,
            >(e),
        },
{
    proof {
        use_type_invariant(ledger);
        ledger.view_def();
    }
    let ghost s = ledger@;
    let i = match find_approval(&ledger.approvals, approval_id) {
        Some(i) => i,
        None => {
            return Err(ApprovalError::NotFound);
        },
    };
    proof {
        s.lemma_approval_at(i as int);
    }
    let a = &ledger.approvals[i];
    let j = match find_plan(&ledger.plans, a.plan_id) {
        Some(j) => j,
        None => {
            proof {
                assert(s.has_plan(s.approvals[i as int].plan_id));
                let m = s.plan_at(a.plan_id);
                assert(ledger.plans[m].id == a.plan_id);
            }
            vstd::pervasive::unreached()
        },
    };
    proof {
        s.lemma_plan_at(j as int);
    }
    let plan = &ledger.plans[j];
    Ok(
        ApprovalDetails {
            approval: ApprovalResponse {
                id: a.id,
                plan_id: a.plan_id,
                approver_email: a.approver_email.clone(),
                status: a.status,
                approved_at: a.approved_at,
                created_at: a.created_at,
            },
            plan: PlanSummary { name: plan.name.clone(), description: plan.description.clone() },
        },
    )
}

/// Whether `invitations` names the approvers of `emails`, one each and in
/// order, each under an id that was drawn at random.
pub open spec fn invites(invitations: Seq<InvitationView>, emails: Seq<Seq<char>>) -> bool {
    &&& invitations.len() == emails.len()
    &&& forall|i: int|
        0 <= i < emails.len() ==> (#[trigger] invitations[i]).email == emails[i]
            && is_random_uuid(invitations[i].id)
}

/// Puts a plan under approval by the approvers named, giving each approval
/// a freshly drawn id and stamping the rows with the current time.
///
/// Whatever ids are drawn and whatever the clock reads, the ledger and the
/// result are [`request_outcome`] for them. Two drawn ids may collide,
/// among themselves or with a stored approval: the request is then refused
/// with `TransactionAborted`, as it is for an approver named twice.
pub fn request_approvals(ledger: &mut Ledger, user_id: u128, req: &ApprovalRequest) -> (result:
    Result<ApprovalReceipt, ApprovalError>)
    ensures
        exists|invitations: Seq<InvitationView>, now: i64|
            invites(invitations, req.approver_emails.deep_view()) && (final(ledger)@, result)
                == #[trigger] request_outcome(
                old(ledger)@,
                user_id,
                req.plan_id,
                req.required_approvals,
                invitations,
                now,
            ),
        final(ledger)@.wf(),
{
    let mut invitations: Vec<Invitation> = Vec::new();
    let mut i: usize = 0;
    while i < req.approver_emails.len()
        invariant
            i <= req.approver_emails.len(),
            invitations.len() == i,
            forall|k: int|
                0 <= k < i ==> (#[trigger] invitations[k]).email@ == req.approver_emails[k]@
                    && is_random_uuid(invitations[k].id),
        decreases req.approver_emails.len() - i,
    {
        invitations.push(Invitation { id: new_id(), email: req.approver_emails[i].clone() });
        i += 1;
    }
    let now = now_micros();
    proof {
        assert(invites(invitations.deep_view(), req.approver_emails.deep_view()));
    }
    request_approvals_with(
        ledger,
        user_id,
        req.plan_id,
        req.required_approvals,
        &invitations,
        now,
    )
}

} // verus!
