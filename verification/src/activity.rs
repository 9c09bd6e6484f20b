//! User activities as they are reported.

use vstd::prelude::*;
use crate::dates::{day_month_year, format_day_month_year};
use crate::pagination::Page;

verus! {

/// One thing that a user did.
#[derive(Debug, PartialEq, Eq)]
pub struct UserActivity {
    pub id: i32,
    pub user_id: String,
    pub date: i64,
    pub activity_type: String,
    pub details: String,
    pub action_type: String,
    pub action_link: Option<String>,
    pub created_at: i64,
}

pub ghost struct UserActivityView {
    pub id: i32,
    pub user_id: Seq<char>,
    pub date: i64,
    pub activity_type: Seq<char>,
    pub details: Seq<char>,
    pub action_type: Seq<char>,
    pub action_link: Option<Seq<char>>,
    pub created_at: i64,
}

impl View for UserActivity {
    type V = UserActivityView;

    open spec fn view(&self) -> UserActivityView {
        UserActivityView {
            id: self.id,
            user_id: self.user_id@,
            date: self.date,
            activity_type: self.activity_type@,
            details: self.details@,
            action_type: self.action_type@,
            action_link: self.action_link.deep_view(),
            created_at: self.created_at,
        }
    }
}

impl DeepView for UserActivity {
    type V = UserActivityView;

    open spec fn deep_view(&self) -> UserActivityView {
        self@
    }
}

/// An activity as it is reported, with its date as `dd-mm-yyyy`.
#[derive(Debug, PartialEq, Eq)]
pub struct UserActivityResponse {
    pub id: i32,
    pub user_id: String,
    pub date: String,
    pub activity_type: String,
    pub details: String,
    pub action_type: String,
    pub action_link: Option<String>,
}

pub ghost struct UserActivityResponseView {
    pub id: i32,
    pub user_id: Seq<char>,
    pub date: Seq<char>,
    pub activity_type: Seq<char>,
    pub details: Seq<char>,
    pub action_type: Seq<char>,
    pub action_link: Option<Seq<char>>,
}

impl View for UserActivityResponse {
    type V = UserActivityResponseView;

    open spec fn view(&self) -> UserActivityResponseView {
        UserActivityResponseView {
            id: self.id,
            user_id: self.user_id@,
            date: self.date@,
            activity_type: self.activity_type@,
            details: self.details@,
            action_type: self.action_type@,
            action_link: self.action_link.deep_view(),
        }
    }
}

impl DeepView for UserActivityResponse {
    type V = UserActivityResponseView;

    open spec fn deep_view(&self) -> UserActivityResponseView {
        self@
    }
}

/// One page of a user's activities.
#[derive(Debug, PartialEq, Eq)]
pub struct UserActivitiesResponse {
    pub activities: Vec<UserActivityResponse>,
    pub total: i64,
    pub page: i64,
    pub page_size: i64,
}

pub ghost struct UserActivitiesResponseView {
    pub activities: Seq<UserActivityResponseView>,
    pub total: i64,
    pub page: i64,
    pub page_size: i64,
}

impl View for UserActivitiesResponse {
    type V = UserActivitiesResponseView;

    open spec fn view(&self) -> UserActivitiesResponseView {
        UserActivitiesResponseView {
            activities: self.activities.deep_view(),
            total: self.total,
            page: self.page,
            page_size: self.page_size,
        }
    }
}

impl UserActivityView {
    /// The activity as it is reported, given its date as text.
    pub open spec fn response(self, date: Seq<char>) -> UserActivityResponseView {
        UserActivityResponseView {
            id: self.id,
            user_id: self.user_id,
            date,
            activity_type: self.activity_type,
            details: self.details,
            action_type: self.action_type,
            action_link: self.action_link,
        }
    }

    /// The activity as it is reported, if the calendar reaches its date.
    pub open spec fn shown(self) -> Option<UserActivityResponseView> {
        match day_month_year(self.date) {
            Some(date) => Some(self.response(date)),
            None => None,
        }
    }
}

/// A page of activities as it is reported, if the calendar reaches the date
/// of each of them.
pub open spec fn shown_page(activities: Seq<UserActivityView>, total: i64, page: Page) -> Option<
    UserActivitiesResponseView,
> {
    if forall|i: int| 0 <= i < activities.len() ==> (#[trigger] activities[i]).shown() is Some {
        Some(
            UserActivitiesResponseView {
                activities: Seq::new(activities.len(), |i: int| activities[i].shown()->0),
                total,
                page: page.page,
                page_size: page.page_size,
            },
        )
    } else {
        None
    }
}

/// Copies a text that may be missing.
fn copy_optional(text: &Option<String>) -> (copy: Option<String>)
    ensures
        copy.deep_view() == text.deep_view(),
{
    match text {
        Some(t) => Some(t.clone()),
        None => None,
    }
}

impl UserActivity {
    /// The activity as it is reported, given its date as text.
    pub fn response_with(&self, date: String) -> (response: UserActivityResponse)
        ensures
            response@ == self@.response(date@),
    {
        UserActivityResponse {
            id: self.id,
            user_id: self.user_id.clone(),
            date,
            activity_type: self.activity_type.clone(),
            details: self.details.clone(),
            action_type: self.action_type.clone(),
            action_link: copy_optional(&self.action_link),
        }
    }

    /// The activity as it is reported, with its date as `dd-mm-yyyy`;
    /// `None` where the calendar does not reach it.
    pub fn to_response(&self) -> (response: Option<UserActivityResponse>)
        ensures
            response.deep_view() == self@.shown(),
    {
        match format_day_month_year(self.date) {
            Some(date) => Some(self.response_with(date)),
            None => None,
        }
    }
}

/// Reports one page of a user's activities: the activities in order, the
/// total and the page as they were given. `None` where the calendar does not
/// reach the date of one of the activities.
pub fn page_response(activities: &Vec<UserActivity>, total: i64, page: Page) -> (response: Option<
    UserActivitiesResponse,
>)
    ensures
        match response {
            Some(r) => shown_page(activities.deep_view(), total, page) == Some(r@),
            None => shown_page(activities.deep_view(), total, page) is None,
        },
{
    let mut shown: Vec<UserActivityResponse> = Vec::new();
    let mut i: usize = 0;
    while i < activities.len()
        invariant
            i <= activities.len(),
            shown.len() == i,
            forall|k: int| 0 <= k < i ==> (#[trigger] activities[k])@.shown() == Some(shown[k]@),
        decreases activities.len() - i,
    {
        match activities[i].to_response() {
            Some(r) => {
                shown.push(r);
            },
            None => {
                proof {
                    assert(activities.deep_view()[i as int].shown() is None);
                }
                return None;
            },
        }
        i += 1;
    }
    let response = UserActivitiesResponse {
        activities: shown,
        total,
        page: page.page,
        page_size: page.page_size,
    };
    proof {
        let av = activities.deep_view();
        assert forall|k: int| 0 <= k < av.len() implies (#[trigger] av[k]).shown() is Some by {
            assert(activities[k]@.shown() == Some(shown[k]@));
        }
        assert(response@.activities =~= Seq::new(av.len(), |k: int| av[k].shown()->0)) by {
            assert forall|k: int| 0 <= k < av.len() implies response@.activities[k] == av[k].shown()->0 by {
                assert(activities[k]@.shown() == Some(shown[k]@));
            }
        }
    }
    Some(response)
}

} // verus!
