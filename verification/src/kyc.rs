//! Identity-check records and the test that gates withdrawals.

use vstd::prelude::*;
use crate::dates::{day_month_year, format_day_month_year, format_optional, shown_optional};

verus! {

/// The identity check of one user.
#[derive(Debug, PartialEq, Eq)]
pub struct KycRecord {
    pub id: i32,
    pub user_id: i32,
    pub full_name: String,
    pub date_of_birth: String,
    pub id_type: String,
    pub id_number: String,
    pub address: String,
    pub verification_status: String,
    pub created_at: i64,
    pub updated_at: Option<i64>,
}

pub ghost struct KycRecordView {
    pub id: i32,
    pub user_id: i32,
    pub full_name: Seq<char>,
    pub date_of_birth: Seq<char>,
    pub id_type: Seq<char>,
    pub id_number: Seq<char>,
    pub address: Seq<char>,
    pub verification_status: Seq<char>,
    pub created_at: i64,
    pub updated_at: Option<i64>,
}

impl View for KycRecord {
    type V = KycRecordView;

    open spec fn view(&self) -> KycRecordView {
        KycRecordView {
            id: self.id,
            user_id: self.user_id,
            full_name: self.full_name@,
            date_of_birth: self.date_of_birth@,
            id_type: self.id_type@,
            id_number: self.id_number@,
            address: self.address@,
            verification_status: self.verification_status@,
            created_at: self.created_at,
            updated_at: self.updated_at,
        }
    }
}

/// What a user hands in for their identity check.
#[derive(Debug, PartialEq, Eq)]
pub struct CreateKycRequest {
    pub user_id: i32,
    pub full_name: String,
    pub date_of_birth: String,
    pub id_type: String,
    pub id_number: String,
    pub address: String,
}

pub ghost struct CreateKycRequestView {
    pub user_id: i32,
    pub full_name: Seq<char>,
    pub date_of_birth: Seq<char>,
    pub id_type: Seq<char>,
    pub id_number: Seq<char>,
    pub address: Seq<char>,
}

impl View for CreateKycRequest {
    type V = CreateKycRequestView;

    open spec fn view(&self) -> CreateKycRequestView {
        CreateKycRequestView {
            user_id: self.user_id,
            full_name: self.full_name@,
            date_of_birth: self.date_of_birth@,
            id_type: self.id_type@,
            id_number: self.id_number@,
            address: self.address@,
        }
    }
}

/// An identity check as it is reported, with its dates as `dd-mm-yyyy`.
#[derive(Debug, PartialEq, Eq)]
pub struct KycRecordResponse {
    pub id: i32,
    pub user_id: i32,
    pub full_name: String,
    pub date_of_birth: String,
    pub id_type: String,
    pub id_number: String,
    pub address: String,
    pub verification_status: String,
    pub created_at: String,
    pub updated_at: Option<String>,
}

pub ghost struct KycRecordResponseView {
    pub id: i32,
    pub user_id: i32,
    pub full_name: Seq<char>,
    pub date_of_birth: Seq<char>,
    pub id_type: Seq<char>,
    pub id_number: Seq<char>,
    pub address: Seq<char>,
    pub verification_status: Seq<char>,
    pub created_at: Seq<char>,
    pub updated_at: Option<Seq<char>>,
}

impl View for KycRecordResponse {
    type V = KycRecordResponseView;

    open spec fn view(&self) -> KycRecordResponseView {
        KycRecordResponseView {
            id: self.id,
            user_id: self.user_id,
            full_name: self.full_name@,
            date_of_birth: self.date_of_birth@,
            id_type: self.id_type@,
            id_number: self.id_number@,
            address: self.address@,
            verification_status: self.verification_status@,
            created_at: self.created_at@,
            updated_at: self.updated_at.deep_view(),
        }
    }
}

/// The outcome of an identity check, as the verifying party reports it.
#[derive(Debug, PartialEq, Eq)]
pub struct KycVerificationRequest {
    pub id: i32,
    pub verification_status: String,
}

impl KycRecordView {
    /// Whether the check has come out as verified.
    pub open spec fn verified(self) -> bool {
        self.verification_status == "verified"@
    }

    /// The record that a request starts as: pending, created at `now`,
    /// never updated.
    pub open spec fn pending(id: i32, request: CreateKycRequestView, now: i64) -> KycRecordView {
        KycRecordView {
            id,
            user_id: request.user_id,
            full_name: request.full_name,
            date_of_birth: request.date_of_birth,
            id_type: request.id_type,
            id_number: request.id_number,
            address: request.address,
            verification_status: "pending"@,
            created_at: now,
            updated_at: None,
        }
    }

    /// The record as it is reported, given its dates as text.
    pub open spec fn response(self, created_at: Seq<char>, updated_at: Option<Seq<char>>) -> KycRecordResponseView {
        KycRecordResponseView {
            id: self.id,
            user_id: self.user_id,
            full_name: self.full_name,
            date_of_birth: self.date_of_birth,
            id_type: self.id_type,
            id_number: self.id_number,
            address: self.address,
            verification_status: self.verification_status,
            created_at,
            updated_at,
        }
    }

    /// The record as it is reported, if the calendar reaches its dates.
    pub open spec fn shown(self) -> Option<KycRecordResponseView> {
        match (day_month_year(self.created_at), shown_optional(self.updated_at)) {
            (Some(created), Ok(updated)) => Some(self.response(created, updated)),
            _ => None,
        }
    }
}

/// Whether a user may be treated as verified, given their identity check if
/// they have one: the check must exist and have come out as `verified`.
pub fn is_kyc_verified(record: Option<&KycRecord>) -> (verified: bool)
    ensures
        verified == (match record {
            Some(record) => record@.verified(),
            None => false,
        }),
{
    match record {
        Some(record) => record.verification_status == "verified".to_owned(),
        None => false,
    }
}

impl KycRecord {
    /// The record that a request starts as under the id given.
    pub fn pending(id: i32, request: CreateKycRequest, now: i64) -> (record: KycRecord)
        ensures
            record@ == KycRecordView::pending(id, request@, now),
    {
        KycRecord {
            id,
            user_id: request.user_id,
            full_name: request.full_name,
            date_of_birth: request.date_of_birth,
            id_type: request.id_type,
            id_number: request.id_number,
            address: request.address,
            verification_status: "pending".to_owned(),
            created_at: now,
            updated_at: None,
        }
    }

    /// Records the outcome of the check, if the report is about this
    /// record. Returns whether it is.
    pub fn apply_verification(&mut self, report: &KycVerificationRequest, now: i64) -> (applied: bool)
        ensures
            applied == (report.id == old(self).id),
            applied ==> final(self)@ == (KycRecordView {
                verification_status: report.verification_status@,
                updated_at: Some(now),
                ..old(self)@
            }),
            !applied ==> final(self)@ == old(self)@,
    {
        if report.id != self.id {
            return false;
        }
        self.verification_status = report.verification_status.clone();
        self.updated_at = Some(now);
        true
    }

    /// The record as it is reported, given its dates as text.
    pub fn response_with(&self, created_at: String, updated_at: Option<String>) -> (response:
        KycRecordResponse)
        ensures
            response@ == self@.response(created_at@, updated_at.deep_view()),
    {
        KycRecordResponse {
            id: self.id,
            user_id: self.user_id,
            full_name: self.full_name.clone(),
            date_of_birth: self.date_of_birth.clone(),
            id_type: self.id_type.clone(),
            id_number: self.id_number.clone(),
            address: self.address.clone(),
            verification_status: self.verification_status.clone(),
            created_at,
            updated_at,
        }
    }

    /// The record as it is reported, with its dates as `dd-mm-yyyy`; `None`
    /// where the calendar does not reach one of them.
    pub fn to_response(&self) -> (response: Option<KycRecordResponse>)
        ensures
            match response {
                Some(r) => self@.shown() == Some(r@),
                None => self@.shown() is None,
            },
    {
        let created = match format_day_month_year(self.created_at) {
            Some(text) => text,
            None => {
                return None;
            },
        };
        let updated = match format_optional(self.updated_at) {
            Ok(text) => text,
            Err(_) => {
                return None;
            },
        };
        Some(self.response_with(created, updated))
    }
}

} // verus!
