//! Withdrawal records as they are reported, and who may withdraw.

use vstd::prelude::*;
use crate::dates::{day_month_year, format_day_month_year};
use crate::kyc::{is_kyc_verified, KycRecord};
use crate::pagination::Page;
use crate::text::{parse_i32, parsed_i32};

verus! {

/// One recorded withdrawal.
#[derive(Debug, PartialEq, Eq)]
pub struct WithdrawalRecord {
    pub id: i64,
    pub plan_id: String,
    pub wallet_id: String,
    pub amount: i64,
    pub payer_name: String,
    pub created_at: i64,
}

pub ghost struct WithdrawalRecordView {
    pub id: i64,
    pub plan_id: Seq<char>,
    pub wallet_id: Seq<char>,
    pub amount: i64,
    pub payer_name: Seq<char>,
    pub created_at: i64,
}

impl View for WithdrawalRecord {
    type V = WithdrawalRecordView;

    open spec fn view(&self) -> WithdrawalRecordView {
        WithdrawalRecordView {
            id: self.id,
            plan_id: self.plan_id@,
            wallet_id: self.wallet_id@,
            amount: self.amount,
            payer_name: self.payer_name@,
            created_at: self.created_at,
        }
    }
}

impl DeepView for WithdrawalRecord {
    type V = WithdrawalRecordView;

    open spec fn deep_view(&self) -> WithdrawalRecordView {
        self@
    }
}

/// A request to record a withdrawal.
#[derive(Debug, PartialEq, Eq)]
pub struct CreateWithdrawalRecordRequest {
    pub user_id: String,
    pub activity_type: String,
    pub details: String,
    pub action_type: String,
    pub action_link: Option<String>,
}

/// A withdrawal as it is reported, with its date as `dd-mm-yyyy`.
#[derive(Debug, PartialEq, Eq)]
pub struct WithdrawalRecordResponse {
    pub id: i64,
    pub plan_id: String,
    pub wallet_id: String,
    pub amount: i64,
    pub payer_name: String,
    pub created_at: String,
}

pub ghost struct WithdrawalRecordResponseView {
    pub id: i64,
    pub plan_id: Seq<char>,
    pub wallet_id: Seq<char>,
    pub amount: i64,
    pub payer_name: Seq<char>,
    pub created_at: Seq<char>,
}

impl View for WithdrawalRecordResponse {
    type V = WithdrawalRecordResponseView;

    open spec fn view(&self) -> WithdrawalRecordResponseView {
        WithdrawalRecordResponseView {
            id: self.id,
            plan_id: self.plan_id@,
            wallet_id: self.wallet_id@,
            amount: self.amount,
            payer_name: self.payer_name@,
            created_at: self.created_at@,
        }
    }
}

impl DeepView for WithdrawalRecordResponse {
    type V = WithdrawalRecordResponseView;

    open spec fn deep_view(&self) -> WithdrawalRecordResponseView {
        self@
    }
}

/// One page of the withdrawal history.
#[derive(Debug, PartialEq, Eq)]
pub struct WithdrawalRecordsResponse {
    pub records: Vec<WithdrawalRecordResponse>,
    pub total: i64,
    pub page: i64,
    pub page_size: i64,
}

pub ghost struct WithdrawalRecordsResponseView {
    pub records: Seq<WithdrawalRecordResponseView>,
    pub total: i64,
    pub page: i64,
    pub page_size: i64,
}

impl View for WithdrawalRecordsResponse {
    type V = WithdrawalRecordsResponseView;

    open spec fn view(&self) -> WithdrawalRecordsResponseView {
        WithdrawalRecordsResponseView {
            records: self.records.deep_view(),
            total: self.total,
            page: self.page,
            page_size: self.page_size,
        }
    }
}

/// Why a withdrawal is refused.
#[derive(Clone, Copy, Debug, PartialEq, Eq, Structural)]
pub enum WithdrawalError {
    /// The user has no identity check that came out as verified.
    KycRequired,
}

/// The user id that a request's text stands for: the number read from it,
/// or 0 where none is read.
pub open spec fn user_id_of(parsed: Option<i32>) -> i32 {
    match parsed {
        Some(id) => id,
        None => 0,
    }
}

/// The user id for a text from which `parsed` was read.
pub fn user_id_or_zero(parsed: Option<i32>) -> (id: i32)
    ensures
        id == user_id_of(parsed),
{
    match parsed {
        Some(id) => id,
        None => 0,
    }
}

/// The id of the user whose identity check gates the withdrawal.
pub fn kyc_user_id(request: &CreateWithdrawalRecordRequest) -> (id: i32)
    ensures
        id == user_id_of(parsed_i32(request.user_id@)),
{
    user_id_or_zero(parse_i32(request.user_id.as_str()))
}

/// Decides whether a user may withdraw, given their identity check if they
/// have one. Only a user whose check came out as verified may.
pub fn authorize_withdrawal(kyc: Option<&KycRecord>) -> (result: Result<(), WithdrawalError>)
    ensures
        result is Ok <==> (kyc matches Some(record) && record@.verified()),
        result is Err ==> result == Err::<(), WithdrawalError>(WithdrawalError::KycRequired),
{
    if is_kyc_verified(kyc) {
        Ok(())
    } else {
        Err(WithdrawalError::KycRequired)
    }
}

impl WithdrawalRecordView {
    /// The record as it is reported, given its date as text.
    pub open spec fn response(self, created_at: Seq<char>) -> WithdrawalRecordResponseView {
        WithdrawalRecordResponseView {
            id: self.id,
            plan_id: self.plan_id,
            wallet_id: self.wallet_id,
            amount: self.amount,
            payer_name: self.payer_name,
            created_at,
        }
    }

    /// The record as it is reported, if the calendar reaches its date.
    pub open spec fn shown(self) -> Option<WithdrawalRecordResponseView> {
        match day_month_year(self.created_at) {
            Some(created) => Some(self.response(created)),
            None => None,
        }
    }
}

/// A page of records as it is reported, if the calendar reaches the date of
/// each of them.
pub open spec fn shown_page(records: Seq<WithdrawalRecordView>, total: i64, page: Page) -> Option<
    WithdrawalRecordsResponseView,
> {
    if forall|i: int| 0 <= i < records.len() ==> (#[trigger] records[i]).shown() is Some {
        Some(
            WithdrawalRecordsResponseView {
                records: Seq::new(records.len(), |i: int| records[i].shown()->0),
                total,
                page: page.page,
                page_size: page.page_size,
            },
        )
    } else {
        None
    }
}

impl WithdrawalRecord {
    /// The record as it is reported, given its date as text.
    pub fn response_with(&self, created_at: String) -> (response: WithdrawalRecordResponse)
        ensures
            response@ == self@.response(created_at@),
    {
        WithdrawalRecordResponse {
            id: self.id,
            plan_id: self.plan_id.clone(),
            wallet_id: self.wallet_id.clone(),
            amount: self.amount,
            payer_name: self.payer_name.clone(),
            created_at,
        }
    }

    /// The record as it is reported, with its date as `dd-mm-yyyy`; `None`
    /// where the calendar does not reach it.
    pub fn to_response(&self) -> (response: Option<WithdrawalRecordResponse>)
        ensures
            response.deep_view() == self@.shown(),
    {
        match format_day_month_year(self.created_at) {
            Some(created) => Some(self.response_with(created)),
            None => None,
        }
    }
}

/// Reports one page of the withdrawal history: the records in order, the
/// total and the page as they were given. `None` where the calendar does not
/// reach the date of one of the records.
pub fn page_response(records: &Vec<WithdrawalRecord>, total: i64, page: Page) -> (response: Option<
    WithdrawalRecordsResponse,
>)
    ensures
        match response {
            Some(r) => shown_page(records.deep_view(), total, page) == Some(r@),
            None => shown_page(records.deep_view(), total, page) is None,
        },
{
    let mut shown: Vec<WithdrawalRecordResponse> = Vec::new();
    let mut i: usize = 0;
    while i < records.len()
        invariant
            i <= records.len(),
            shown.len() == i,
            forall|k: int| 0 <= k < i ==> (#[trigger] records[k])@.shown() == Some(shown[k]@),
        decreases records.len() - i,
    {
        match records[i].to_response() {
            Some(r) => {
                shown.push(r);
            },
            None => {
                proof {
                    assert(records.deep_view()[i as int].shown() is None);
                }
                return None;
            },
        }
        i += 1;
    }
    let response = WithdrawalRecordsResponse {
        records: shown,
        total,
        page: page.page,
        page_size: page.page_size,
    };
    proof {
        let rv = records.deep_view();
        assert forall|k: int| 0 <= k < rv.len() implies (#[trigger] rv[k]).shown() is Some by {
            assert(records[k]@.shown() == Some(shown[k]@));
        }
        assert(response@.records =~= Seq::new(rv.len(), |k: int| rv[k].shown()->0)) by {
            assert forall|k: int| 0 <= k < rv.len() implies response@.records[k] == rv[k].shown()->0 by {
                assert(records[k]@.shown() == Some(shown[k]@));
            }
        }
    }
    Some(response)
}

} // verus!
