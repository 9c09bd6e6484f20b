//! The audit log: a list of entries kept in memory.

use vstd::prelude::*;
use crate::seqs::lemma_filter_none;

verus! {

/// One entry of the audit log.
#[derive(Debug, PartialEq, Eq)]
pub struct ActivityLog {
    pub id: u32,
    pub user_id: String,
    pub action: String,
    pub timestamp: i64,
    pub details: String,
}

pub ghost struct ActivityLogView {
    pub id: u32,
    pub user_id: Seq<char>,
    pub action: Seq<char>,
    pub timestamp: i64,
    pub details: Seq<char>,
}

impl View for ActivityLog {
    type V = ActivityLogView;

    open spec fn view(&self) -> ActivityLogView {
        ActivityLogView {
            id: self.id,
            user_id: self.user_id@,
            action: self.action@,
            timestamp: self.timestamp,
            details: self.details@,
        }
    }
}

impl DeepView for ActivityLog {
    type V = ActivityLogView;

    open spec fn deep_view(&self) -> ActivityLogView {
        self@
    }
}

impl Clone for ActivityLog {
    fn clone(&self) -> (copy: ActivityLog)
        ensures
            copy == *self,
    {
        ActivityLog {
            id: self.id,
            user_id: self.user_id.clone(),
            action: self.action.clone(),
            timestamp: self.timestamp,
            details: self.details.clone(),
        }
    }
}

/// Whether `i` is the place of the first entry with this id.
pub open spec fn first_with_id(logs: Seq<ActivityLogView>, id: u32, i: int) -> bool {
    &&& 0 <= i < logs.len()
    &&& logs[i].id == id
    &&& forall|k: int| 0 <= k < i ==> (#[trigger] logs[k]).id != id
}

/// The entries with another id.
pub open spec fn with_other_id(id: u32) -> spec_fn(ActivityLogView) -> bool {
    |log: ActivityLogView| log.id != id
}

/// Adds an entry at the end of the log.
pub fn create(logs: &mut Vec<ActivityLog>, log: ActivityLog)
    ensures
        final(logs).deep_view() == old(logs).deep_view().push(log@),
{
    let ghost before = logs.deep_view();
    logs.push(log);
    proof {
        assert(logs.deep_view() =~= before.push(log@));
    }
}

/// Replaces the first entry that has this id by `log`. Returns whether
/// there was one; the log is unchanged if not.
pub fn update(logs: &mut Vec<ActivityLog>, id: u32, log: ActivityLog) -> (found: bool)
    ensures
        found ==> exists|i: int|
            #[trigger] first_with_id(old(logs).deep_view(), id, i) && final(logs).deep_view()
                == old(logs).deep_view().update(i, log@),
        !found ==> final(logs).deep_view() == old(logs).deep_view() && forall|k: int|
            0 <= k < old(logs).len() ==> (#[trigger] old(logs).deep_view()[k]).id != id,
{
    let ghost before = logs.deep_view();
    let mut i: usize = 0;
    while i < logs.len()
        invariant
            i <= logs.len(),
            logs.deep_view() == before,
            *logs == *old(logs),
            forall|k: int| 0 <= k < i ==> (#[trigger] before[k]).id != id,
        decreases logs.len() - i,
    {
        if logs[i].id == id {
            logs.set(i, log);
            proof {
                assert(first_with_id(before, id, i as int));
                assert(logs.deep_view() =~= before.update(i as int, log@));
            }
            return true;
        }
        i += 1;
    }
    false
}

/// Removes every entry that has this id. Returns whether there was one.
pub fn delete(logs: &mut Vec<ActivityLog>, id: u32) -> (found: bool)
    ensures
        final(logs).deep_view() == old(logs).deep_view().filter(with_other_id(id)),
        found == exists|k: int|
            0 <= k < old(logs).len() && (#[trigger] old(logs).deep_view()[k]).id == id,
{
    let ghost all = logs.deep_view();
    let mut kept: Vec<ActivityLog> = Vec::new();
    let mut found = false;
    let mut i: usize = 0;
    proof {
        assert(all.take(0) =~= Seq::<ActivityLogView>::empty());
        lemma_filter_none(all.take(0), with_other_id(id));
        assert(kept.deep_view() =~= Seq::<ActivityLogView>::empty());
    }
    while i < logs.len()
        invariant
            i <= logs.len(),
            all == logs.deep_view(),
            *logs == *old(logs),
            kept.deep_view() == all.take(i as int).filter(with_other_id(id)),
            found == exists|k: int| 0 <= k < i && (#[trigger] all[k]).id == id,
        decreases logs.len() - i,
    {
        let ghost before = kept.deep_view();
        proof {
            assert(all.take(i + 1) =~= all.take(i as int).push(all[i as int]));
            all.take(i as int).lemma_filter_push(all[i as int], with_other_id(id));
        }
        if logs[i].id != id {
            kept.push(logs[i].clone());
            proof {
                assert(kept.deep_view() =~= before.push(all[i as int]));
            }
        } else {
            found = true;
        }
        i += 1;
    }
    proof {
        assert(all.take(i as int) =~= all);
    }
    *logs = kept;
    found
}

} // verus!
