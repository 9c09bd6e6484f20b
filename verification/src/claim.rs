//! The status of a claim and the texts it is written as.

use vstd::prelude::*;
use crate::text::{lowercase, same_text, to_lowercase};

verus! {

#[derive(Clone, Copy, Debug, PartialEq, Eq, Structural)]
pub enum ClaimStatus {
    Pending,
    Approved,
    Rejected,
}

impl ClaimStatus {
    /// The text under which the status is stored.
    pub open spec fn text(self) -> Seq<char> {
        match self {
            ClaimStatus::Pending => "pending"@,
            ClaimStatus::Approved => "approved"@,
            ClaimStatus::Rejected => "rejected"@,
        }
    }

    /// The status that a stored text is, if it is one.
    pub open spec fn of_text(s: Seq<char>) -> Option<ClaimStatus> {
        if s == "pending"@ {
            Some(ClaimStatus::Pending)
        } else if s == "approved"@ {
            Some(ClaimStatus::Approved)
        } else if s == "rejected"@ {
            Some(ClaimStatus::Rejected)
        } else {
            None
        }
    }

    pub fn as_str(&self) -> (s: &'static str)
        ensures
            s@ == self.text(),
    {
        match self {
            ClaimStatus::Pending => "pending",
            ClaimStatus::Approved => "approved",
            ClaimStatus::Rejected => "rejected",
        }
    }

    pub fn to_string(&self) -> (s: String)
        ensures
            s@ == self.text(),
    {
        self.as_str().to_owned()
    }

    /// Reads a stored status. Only the three texts, letter for letter, are
    /// statuses.
    pub fn parse(s: &str) -> (status: Option<ClaimStatus>)
        ensures
            status == Self::of_text(s@),
    {
        if same_text(s, "pending") {
            Some(ClaimStatus::Pending)
        } else if same_text(s, "approved") {
            Some(ClaimStatus::Approved)
        } else if same_text(s, "rejected") {
            Some(ClaimStatus::Rejected)
        } else {
            None
        }
    }

    /// Reads the status that a request path names, in any letter case: the
    /// status that the path's lowercase text is.
    pub fn from_path(path: &str) -> (status: Option<ClaimStatus>)
        ensures
            status == Self::of_text(lowercase(path@)),
    {
        let lower = to_lowercase(path);
        Self::parse(lower.as_str())
    }
}

/// Reading back a written status gives the status.
pub proof fn lemma_claim_status_round_trip(status: ClaimStatus)
    ensures
        ClaimStatus::of_text(status.text()) == Some(status),
{
    reveal_strlit("pending");
    reveal_strlit("approved");
    reveal_strlit("rejected");
    assert("pending"@[0] == 'p');
    assert("approved"@[0] == 'a');
    assert("rejected"@[0] == 'r');
}

/// The changes that an update of a claim asks for; a field left out stays.
#[derive(Debug, PartialEq, Eq)]
pub struct UpdateClaim {
    pub status: Option<ClaimStatus>,
    pub description: Option<String>,
}

impl UpdateClaim {
    /// The status and description of a claim after the update: each is the
    /// one that the update names, or else the one that the claim had.
    pub fn apply(self, status: ClaimStatus, description: String) -> (updated: (ClaimStatus, String))
        ensures
            updated.0 == (match self.status {
                Some(named) => named,
                None => status,
            }),
            updated.1@ == (match self.description {
                Some(named) => named@,
                None => description@,
            }),
    {
        let status = match self.status {
            Some(named) => named,
            None => status,
        };
        let description = match self.description {
            Some(named) => named,
            None => description,
        };
        (status, description)
    }
}

} // verus!
