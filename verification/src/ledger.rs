//! The approval ledger and the plan records, as one value.
//!
//! [`LedgerView`] is the mathematical model: the plans and the approvals, in
//! the order in which they were stored. [`LedgerView::wf`] says what holds of
//! every stored state; [`Ledger`] keeps it as its type invariant, so no
//! operation asks its caller for it.

use vstd::prelude::*;
use crate::models::{Approval, ApprovalView, Plan, PlanView};
use crate::seqs::pairwise;
use crate::status::ApprovalStatus;

verus! {

/// The ledger holds no more approvals than a plan's counter can count.
pub const MAX_APPROVALS: usize = 0x7fff_ffff;

/// The approvals of one plan.
pub open spec fn of_plan(plan_id: u128) -> spec_fn(ApprovalView) -> bool {
    |a: ApprovalView| a.plan_id == plan_id
}

/// The approvals of all plans but one.
pub open spec fn of_other_plans(plan_id: u128) -> spec_fn(ApprovalView) -> bool {
    |a: ApprovalView| a.plan_id != plan_id
}

/// The approvals of one plan whose decision is `Approved`.
pub open spec fn approved_for(plan_id: u128) -> spec_fn(ApprovalView) -> bool {
    |a: ApprovalView| a.plan_id == plan_id && a.status == ApprovalStatus::Approved
}

pub open spec fn distinct_plan_ids() -> spec_fn(PlanView, PlanView) -> bool {
    |p: PlanView, q: PlanView| p.id != q.id
}

pub open spec fn distinct_approval_ids() -> spec_fn(ApprovalView, ApprovalView) -> bool {
    |a: ApprovalView, b: ApprovalView| a.id != b.id
}

/// Within one plan no approver is invited twice.
pub open spec fn distinct_approvers() -> spec_fn(ApprovalView, ApprovalView) -> bool {
    |a: ApprovalView, b: ApprovalView| a.plan_id == b.plan_id ==> a.approver_email != b.approver_email
}

pub ghost struct LedgerView {
    pub plans: Seq<PlanView>,
    pub approvals: Seq<ApprovalView>,
}

impl LedgerView {
    pub open spec fn empty() -> LedgerView {
        LedgerView { plans: Seq::empty(), approvals: Seq::empty() }
    }

    pub open spec fn has_plan(self, id: u128) -> bool {
        exists|i: int| 0 <= i < self.plans.len() && (#[trigger] self.plans[i]).id == id
    }

    /// Where the plan with this id stands, if there is one.
    pub open spec fn plan_at(self, id: u128) -> int {
        choose|i: int| 0 <= i < self.plans.len() && (#[trigger] self.plans[i]).id == id
    }

    pub open spec fn plan(self, id: u128) -> PlanView {
        self.plans[self.plan_at(id)]
    }

    /// Whether the plan exists and belongs to `user`.
    pub open spec fn owned_by(self, id: u128, user: u128) -> bool {
        self.has_plan(id) && self.plan(id).owner == user
    }

    pub open spec fn has_approval(self, id: u128) -> bool {
        exists|i: int| 0 <= i < self.approvals.len() && (#[trigger] self.approvals[i]).id == id
    }

    /// Where the approval with this id stands, if there is one.
    pub open spec fn approval_at(self, id: u128) -> int {
        choose|i: int| 0 <= i < self.approvals.len() && (#[trigger] self.approvals[i]).id == id
    }

    pub open spec fn approval(self, id: u128) -> ApprovalView {
        self.approvals[self.approval_at(id)]
    }

    /// The approvals of a plan, in the order in which they were invited.
    pub open spec fn approvals_of(self, plan_id: u128) -> Seq<ApprovalView> {
        self.approvals.filter(of_plan(plan_id))
    }

    /// The number of approvals of a plan whose decision is `Approved`.
    pub open spec fn approved_count(self, plan_id: u128) -> nat {
        self.approvals.filter(approved_for(plan_id)).len()
    }

    /// What holds of every stored state: ids are unique, an approver is
    /// invited once per plan, every approval belongs to a stored plan, and
    /// each plan's counter is the number of its approved approvals.
    pub open spec fn wf(self) -> bool {
        &&& pairwise(self.plans, distinct_plan_ids())
        &&& pairwise(self.approvals, distinct_approval_ids())
        &&& pairwise(self.approvals, distinct_approvers())
        &&& forall|i: int|
            0 <= i < self.approvals.len() ==> self.has_plan((#[trigger] self.approvals[i]).plan_id)
        &&& forall|i: int|
            0 <= i < self.plans.len() ==> (#[trigger] self.plans[i]).valid()
                && self.plans[i].current_approvals == self.approved_count(self.plans[i].id)
        &&& self.approvals.len() <= MAX_APPROVALS
    }

    /// In a well-formed ledger an id names one place.
    pub proof fn lemma_plan_at(self, i: int)
        requires
            pairwise(self.plans, distinct_plan_ids()),
            0 <= i < self.plans.len(),
        ensures
            self.has_plan(self.plans[i].id),
            self.plan_at(self.plans[i].id) == i,
            self.plan(self.plans[i].id) == self.plans[i],
    {
        let id = self.plans[i].id;
        let j = self.plan_at(id);
        assert(0 <= j < self.plans.len() && self.plans[j].id == id);
        if i < j {
            assert(distinct_plan_ids()(self.plans[i], self.plans[j]));
        } else if j < i {
            assert(distinct_plan_ids()(self.plans[j], self.plans[i]));
        }
    }

    pub proof fn lemma_approval_at(self, i: int)
        requires
            pairwise(self.approvals, distinct_approval_ids()),
            0 <= i < self.approvals.len(),
        ensures
            self.has_approval(self.approvals[i].id),
            self.approval_at(self.approvals[i].id) == i,
            self.approval(self.approvals[i].id) == self.approvals[i],
    {
        let id = self.approvals[i].id;
        let j = self.approval_at(id);
        assert(0 <= j < self.approvals.len() && self.approvals[j].id == id);
        if i < j {
            assert(distinct_approval_ids()(self.approvals[i], self.approvals[j]));
        } else if j < i {
            assert(distinct_approval_ids()(self.approvals[j], self.approvals[i]));
        }
    }
}

/// The plans with each counter counted from the approvals and each
/// lifecycle tag set to match.
pub open spec fn recounted(plans: Seq<PlanView>, approvals: Seq<ApprovalView>) -> Seq<PlanView> {
    Seq::new(
        plans.len(),
        |i: int|
            (PlanView {
                current_approvals: approvals.filter(approved_for(plans[i].id)).len() as i32,
                ..plans[i]
            }).restaged(),
    )
}

/// The plans and approvals of the service.
pub struct Ledger {
    pub(crate) plans: Vec<Plan>,
    pub(crate) approvals: Vec<Approval>,
}

impl View for Ledger {
    type V = LedgerView;

    closed spec fn view(&self) -> LedgerView {
        LedgerView { plans: self.plans.deep_view(), approvals: self.approvals.deep_view() }
    }
}

impl Ledger {
    #[verifier::type_invariant]
    pub(crate) open spec fn inv(&self) -> bool {
        LedgerView { plans: self.plans.deep_view(), approvals: self.approvals.deep_view() }.wf()
    }

    pub(crate) proof fn view_def(&self)
        ensures
            self@ == (LedgerView {
                plans: self.plans.deep_view(),
                approvals: self.approvals.deep_view(),
            }),
    {
    }

    /// A ledger with no plan and no approval.
    pub fn new() -> (ledger: Ledger)
        ensures
            ledger@ == LedgerView::empty(),
            ledger@.wf(),
    {
        let ledger = Ledger { plans: Vec::new(), approvals: Vec::new() };
        proof {
            assert(ledger.plans.deep_view() =~= Seq::<PlanView>::empty());
            assert(ledger.approvals.deep_view() =~= Seq::<ApprovalView>::empty());
            crate::seqs::lemma_filter_none(Seq::<ApprovalView>::empty(), approved_for(0));
        }
        ledger
    }

    /// The ledger that holds these plans and approvals, if they make a
    /// well-formed one.
    pub fn from_parts(plans: Vec<Plan>, approvals: Vec<Approval>) -> (ledger: Option<Ledger>)
        ensures
            match ledger {
                Some(l) => l@ == (LedgerView {
                    plans: plans.deep_view(),
                    approvals: approvals.deep_view(),
                }) && l@.wf(),
                None => !(LedgerView {
                    plans: plans.deep_view(),
                    approvals: approvals.deep_view(),
                }).wf(),
            },
    {
        if !well_formed(&plans, &approvals) {
            return None;
        }
        let ledger = Ledger { plans, approvals };
        proof {
            ledger.view_def();
        }
        Some(ledger)
    }

    /// The ledger that holds these approvals and these plans, each plan with
    /// its counter counted from the approvals and its lifecycle tag set to
    /// match, if that makes a well-formed ledger.
    pub fn from_rows(plans: Vec<Plan>, approvals: Vec<Approval>) -> (ledger: Option<Ledger>)
        ensures
            match ledger {
                Some(l) => l@ == (LedgerView {
                    plans: recounted(plans.deep_view(), approvals.deep_view()),
                    approvals: approvals.deep_view(),
                }) && l@.wf(),
                None => !(LedgerView {
                    plans: recounted(plans.deep_view(), approvals.deep_view()),
                    approvals: approvals.deep_view(),
                }).wf(),
            },
    {
        if approvals.len() > MAX_APPROVALS {
            return None;
        }
        let ghost given = plans.deep_view();
        let ghost rows = approvals.deep_view();
        let mut plans = plans;
        let mut i: usize = 0;
        while i < plans.len()
            invariant
                i <= plans.len(),
                plans.len() == given.len(),
                rows == approvals.deep_view(),
                approvals.len() <= MAX_APPROVALS,
                forall|k: int| 0 <= k < i ==> (#[trigger] plans[k])@ == recounted(given, rows)[k],
                forall|k: int| i <= k < plans.len() ==> (#[trigger] plans[k])@ == given[k],
            decreases plans.len() - i,
        {
            proof {
                rows.lemma_filter_len(approved_for(plans[i as int].id));
            }
            let count = count_approved(&approvals, plans[i].id);
            plans[i].current_approvals = count as i32;
            let stage = plans[i].stage();
            plans[i].status = stage;
            i += 1;
        }
        proof {
            assert(plans.deep_view() =~= recounted(given, rows));
        }
        Ledger::from_parts(plans, approvals)
    }

    /// Takes the plans and approvals out, leaving the ledger empty.
    pub(crate) fn take(&mut self) -> (parts: (Vec<Plan>, Vec<Approval>))
        ensures
            parts.0.deep_view() == old(self)@.plans,
            parts.1.deep_view() == old(self)@.approvals,
            old(self)@.wf(),
    {
        proof {
            use_type_invariant(&*self);
            self.view_def();
        }
        let mut taken = Ledger::new();
        std::mem::swap(self, &mut taken);
        let Ledger { plans, approvals } = taken;
        (plans, approvals)
    }

    /// Stores plans and approvals that make a well-formed ledger.
    pub(crate) fn put(&mut self, plans: Vec<Plan>, approvals: Vec<Approval>)
        requires
            (LedgerView { plans: plans.deep_view(), approvals: approvals.deep_view() }).wf(),
        ensures
            final(self)@ == (LedgerView {
                plans: plans.deep_view(),
                approvals: approvals.deep_view(),
            }),
            final(self)@.wf(),
    {
        *self = Ledger { plans, approvals };
        proof {
            self.view_def();
        }
    }

    /// The stored plans, oldest first.
    pub fn plans(&self) -> (plans: &Vec<Plan>)
        ensures
            plans.deep_view() == self@.plans,
            self@.wf(),
    {
        proof {
            use_type_invariant(self);
        }
        &self.plans
    }

    /// The stored approvals, oldest first.
    pub fn approvals(&self) -> (approvals: &Vec<Approval>)
        ensures
            approvals.deep_view() == self@.approvals,
            self@.wf(),
    {
        proof {
            use_type_invariant(self);
        }
        &self.approvals
    }
}

/// The place of the first plan with this id among `plans`.
pub fn find_plan(plans: &Vec<Plan>, id: u128) -> (found: Option<usize>)
    ensures
        match found {
            Some(i) => i < plans.len() && plans[i as int].id == id && forall|k: int|
                0 <= k < i ==> plans[k].id != id,
            None => forall|k: int| 0 <= k < plans.len() ==> plans[k].id != id,
        },
{
    let mut i: usize = 0;
    while i < plans.len()
        invariant
            i <= plans.len(),
            forall|k: int| 0 <= k < i ==> plans[k].id != id,
        decreases plans.len() - i,
    {
        if plans[i].id == id {
            return Some(i);
        }
        i += 1;
    }
    None
}

/// The place of the first approval with this id among `approvals`.
pub fn find_approval(approvals: &Vec<Approval>, id: u128) -> (found: Option<usize>)
    ensures
        match found {
            Some(i) => i < approvals.len() && approvals[i as int].id == id && forall|k: int|
                0 <= k < i ==> approvals[k].id != id,
            None => forall|k: int| 0 <= k < approvals.len() ==> approvals[k].id != id,
        },
{
    let mut i: usize = 0;
    while i < approvals.len()
        invariant
            i <= approvals.len(),
            forall|k: int| 0 <= k < i ==> approvals[k].id != id,
        decreases approvals.len() - i,
    {
        if approvals[i].id == id {
            return Some(i);
        }
        i += 1;
    }
    None
}

/// Counts the approvals of a plan whose decision is `Approved`.
pub fn count_approved(approvals: &Vec<Approval>, plan_id: u128) -> (count: usize)
    ensures
        count == approvals.deep_view().filter(approved_for(plan_id)).len(),
{
    let ghost all = approvals.deep_view();
    let mut count: usize = 0;
    let mut i: usize = 0;
    proof {
        assert(all.take(0) =~= Seq::<ApprovalView>::empty());
        crate::seqs::lemma_filter_none(all.take(0), approved_for(plan_id));
    }
    while i < approvals.len()
        invariant
            i <= approvals.len(),
            all == approvals.deep_view(),
            count == all.take(i as int).filter(approved_for(plan_id)).len(),
            count <= i,
        decreases approvals.len() - i,
    {
        proof {
            assert(all.take(i + 1) =~= all.take(i as int).push(all[i as int]));
            all.take(i as int).lemma_filter_len_push(approved_for(plan_id), all[i as int]);
        }
        let a = &approvals[i];
        if a.plan_id == plan_id && a.status == ApprovalStatus::Approved {
            count += 1;
        }
        i += 1;
    }
    proof {
        assert(all.take(i as int) =~= all);
    }
    count
}

/// Copies the approvals of all plans but `plan_id`.
pub(crate) fn keep_other_plans(approvals: &Vec<Approval>, plan_id: u128) -> (kept: Vec<Approval>)
    ensures
        kept.deep_view() == approvals.deep_view().filter(of_other_plans(plan_id)),
{
    let ghost all = approvals.deep_view();
    let mut kept: Vec<Approval> = Vec::new();
    let mut i: usize = 0;
    proof {
        assert(all.take(0) =~= Seq::<ApprovalView>::empty());
        crate::seqs::lemma_filter_none(all.take(0), of_other_plans(plan_id));
        assert(kept.deep_view() =~= Seq::<ApprovalView>::empty());
    }
    while i < approvals.len()
        invariant
            i <= approvals.len(),
            all == approvals.deep_view(),
            kept.deep_view() == all.take(i as int).filter(of_other_plans(plan_id)),
        decreases approvals.len() - i,
    {
        let ghost before = kept.deep_view();
        proof {
            assert(all.take(i + 1) =~= all.take(i as int).push(all[i as int]));
            all.take(i as int).lemma_filter_push(all[i as int], of_other_plans(plan_id));
        }
        if approvals[i].plan_id != plan_id {
            kept.push(approvals[i].clone());
            proof {
                assert(kept.deep_view() =~= before.push(all[i as int]));
            }
        }
        i += 1;
    }
    proof {
        assert(all.take(i as int) =~= all);
    }
    kept
}

/// Whether one of the first `n` rows carries `id`.
pub(crate) fn id_among(rows: &Vec<Approval>, n: usize, id: u128) -> (found: bool)
    requires
        n <= rows.len(),
    ensures
        found == exists|k: int| 0 <= k < n && (#[trigger] rows[k]).id == id,
{
    let mut k: usize = 0;
    while k < n
        invariant
            k <= n <= rows.len(),
            forall|m: int| 0 <= m < k ==> (#[trigger] rows[m]).id != id,
        decreases n - k,
    {
        if rows[k].id == id {
            return true;
        }
        k += 1;
    }
    false
}

/// Whether one of the first `n` rows invites `email` to `plan_id`.
pub(crate) fn invited_among(rows: &Vec<Approval>, n: usize, plan_id: u128, email: &String) -> (found: bool)
    requires
        n <= rows.len(),
    ensures
        found == exists|k: int|
            0 <= k < n && (#[trigger] rows[k]).plan_id == plan_id && rows[k].approver_email@
                == email@,
{
    let mut k: usize = 0;
    while k < n
        invariant
            k <= n <= rows.len(),
            forall|m: int|
                0 <= m < k ==> !((#[trigger] rows[m]).plan_id == plan_id
                    && rows[m].approver_email@ == email@),
        decreases n - k,
    {
        if rows[k].plan_id == plan_id && rows[k].approver_email == *email {
            return true;
        }
        k += 1;
    }
    false
}

/// Whether no two plans share an id.
fn plan_ids_distinct(plans: &Vec<Plan>) -> (ok: bool)
    ensures
        ok == pairwise(plans.deep_view(), distinct_plan_ids()),
{
    let ghost pv = plans.deep_view();
    let mut j: usize = 0;
    while j < plans.len()
        invariant
            j <= plans.len(),
            pv == plans.deep_view(),
            pairwise(pv.take(j as int), distinct_plan_ids()),
        decreases plans.len() - j,
    {
        let ghost head = pv.take(j as int);
        let mut k: usize = 0;
        while k < j
            invariant
                k <= j < plans.len(),
                pv == plans.deep_view(),
                forall|m: int| 0 <= m < k ==> (#[trigger] plans[m]).id != plans[j as int].id,
            decreases j - k,
        {
            if plans[k].id == plans[j].id {
                proof {
                    assert(!distinct_plan_ids()(pv[k as int], pv[j as int]));
                }
                return false;
            }
            k += 1;
        }
        proof {
            let next = pv.take(j + 1);
            assert forall|a: int, b: int| 0 <= a < b < next.len() implies distinct_plan_ids()(
                #[trigger] next[a],
                #[trigger] next[b],
            ) by {
                if b < j {
                    assert(distinct_plan_ids()(head[a], head[b]));
                } else {
                    assert(plans[a].id != plans[j as int].id);
                }
            }
        }
        j += 1;
    }
    proof {
        assert(pv.take(j as int) =~= pv);
    }
    true
}

/// Whether no two approvals share an id and no plan has an approver twice.
fn approvals_distinct(approvals: &Vec<Approval>) -> (ok: bool)
    ensures
        ok == (pairwise(approvals.deep_view(), distinct_approval_ids()) && pairwise(
            approvals.deep_view(),
            distinct_approvers(),
        )),
{
    let ghost av = approvals.deep_view();
    let mut j: usize = 0;
    while j < approvals.len()
        invariant
            j <= approvals.len(),
            av == approvals.deep_view(),
            pairwise(av.take(j as int), distinct_approval_ids()),
            pairwise(av.take(j as int), distinct_approvers()),
        decreases approvals.len() - j,
    {
        let row = &approvals[j];
        let ghost head = av.take(j as int);
        if id_among(approvals, j, row.id) {
            proof {
                let k = choose|k: int| 0 <= k < j && (#[trigger] approvals[k]).id == row.id;
                assert(!distinct_approval_ids()(av[k], av[j as int]));
            }
            return false;
        }
        if invited_among(approvals, j, row.plan_id, &row.approver_email) {
            proof {
                let k = choose|k: int|
                    0 <= k < j && (#[trigger] approvals[k]).plan_id == row.plan_id
                        && approvals[k].approver_email@ == row.approver_email@;
                assert(!distinct_approvers()(av[k], av[j as int]));
            }
            return false;
        }
        proof {
            let next = av.take(j + 1);
            assert forall|a: int, b: int| 0 <= a < b < next.len() implies distinct_approval_ids()(
                #[trigger] next[a],
                #[trigger] next[b],
            ) && distinct_approvers()(next[a], next[b]) by {
                if b < j {
                    assert(distinct_approval_ids()(head[a], head[b]));
                    assert(distinct_approvers()(head[a], head[b]));
                } else {
                    assert(approvals[a].id != row.id);
                    assert(!(approvals[a].plan_id == row.plan_id && approvals[a].approver_email@
                        == row.approver_email@));
                }
            }
        }
        j += 1;
    }
    proof {
        assert(av.take(j as int) =~= av);
    }
    true
}

/// Whether one of the plans carries `id`.
pub open spec fn plan_known(plans: Seq<Plan>, id: u128) -> bool {
    exists|k: int| 0 <= k < plans.len() && (#[trigger] plans[k]).id == id
}

/// Whether every approval belongs to one of the plans.
fn approvals_belong(plans: &Vec<Plan>, approvals: &Vec<Approval>) -> (ok: bool)
    ensures
        ok == (forall|i: int|
            0 <= i < approvals.len() ==> plan_known(plans@, (#[trigger] approvals[i]).plan_id)),
{
    let mut i: usize = 0;
    while i < approvals.len()
        invariant
            i <= approvals.len(),
            forall|m: int|
                0 <= m < i ==> plan_known(plans@, (#[trigger] approvals[m]).plan_id),
        decreases approvals.len() - i,
    {
        match find_plan(plans, approvals[i].plan_id) {
            Some(k) => {
                assert(plans@[k as int].id == approvals[i as int].plan_id);
            },
            None => {
                return false;
            },
        }
        i += 1;
    }
    true
}

/// Whether every plan is valid by itself and its counter is the number of
/// its approved approvals.
fn counters_match(plans: &Vec<Plan>, approvals: &Vec<Approval>) -> (ok: bool)
    ensures
        ok == (forall|i: int|
            0 <= i < plans.len() ==> (#[trigger] plans[i])@.valid() && plans[i].current_approvals
                == approvals.deep_view().filter(approved_for(plans[i].id)).len()),
{
    let mut i: usize = 0;
    while i < plans.len()
        invariant
            i <= plans.len(),
            forall|m: int|
                0 <= m < i ==> (#[trigger] plans[m])@.valid() && plans[m].current_approvals
                    == approvals.deep_view().filter(approved_for(plans[m].id)).len(),
        decreases plans.len() - i,
    {
        let plan = &plans[i];
        if plan.required_approvals < 0 || plan.current_approvals < 0 || plan.status
            != plan.stage() {
            return false;
        }
        let count = count_approved(approvals, plan.id);
        if count > MAX_APPROVALS || plan.current_approvals != count as i32 {
            return false;
        }
        i += 1;
    }
    true
}

/// Decides whether plans and approvals make a well-formed ledger.
pub fn well_formed(plans: &Vec<Plan>, approvals: &Vec<Approval>) -> (ok: bool)
    ensures
        ok == (LedgerView { plans: plans.deep_view(), approvals: approvals.deep_view() }).wf(),
{
    let ghost s = LedgerView { plans: plans.deep_view(), approvals: approvals.deep_view() };
    if approvals.len() > MAX_APPROVALS {
        return false;
    }
    if !plan_ids_distinct(plans) {
        return false;
    }
    if !approvals_distinct(approvals) {
        return false;
    }
    if !approvals_belong(plans, approvals) {
        proof {
            if s.wf() {
                assert forall|i: int| 0 <= i < approvals.len() implies plan_known(
                    plans@,
                    (#[trigger] approvals[i]).plan_id,
                ) by {
                    assert(s.has_plan(s.approvals[i].plan_id));
                    let k = s.plan_at(s.approvals[i].plan_id);
                    assert(plans@[k].id == approvals[i].plan_id);
                }
            }
        }
        return false;
    }
    if !counters_match(plans, approvals) {
        proof {
            if s.wf() {
                assert forall|i: int| 0 <= i < plans.len() implies (#[trigger] plans[i])@.valid()
                    && plans[i].current_approvals == approvals.deep_view().filter(
                    approved_for(plans[i].id),
                ).len() by {
                    assert(s.plans[i].valid());
                }
            }
        }
        return false;
    }
    proof {
        assert forall|i: int| 0 <= i < s.approvals.len() implies s.has_plan(
            (#[trigger] s.approvals[i]).plan_id,
        ) by {
            assert(plan_known(plans@, approvals[i].plan_id));
            let k = choose|k: int|
                0 <= k < plans.len() && (#[trigger] plans@[k]).id == approvals[i].plan_id;
            assert(s.plans[k].id == s.approvals[i].plan_id);
        }
        assert forall|i: int| 0 <= i < s.plans.len() implies (#[trigger] s.plans[i]).valid()
            && s.plans[i].current_approvals == s.approved_count(s.plans[i].id) by {
            assert(plans[i]@.valid());
        }
    }
    true
}

} // verus!
