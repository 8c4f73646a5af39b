//! The end of sessions: which are due, what goes with them, and the count of it.
use vstd::prelude::*;

verus! {

/// What a purge removed.
#[derive(Debug, Clone, Copy, PartialEq, Eq, Structural)]
pub struct LifecycleReport {
    pub sessions_deleted: u64,
    pub projects_deleted: u64,
    pub posts_deleted: u64,
    pub post_files_deleted: u64,
    pub support_assets_deleted: u64,
    pub blob_references_deleted: u64,
    pub blobs_queued: u64,
    pub blobs_deleted: u64,
}

/// The report of a purge that removed nothing.
pub open spec fn empty_report() -> LifecycleReport {
    LifecycleReport {
        sessions_deleted: 0,
        projects_deleted: 0,
        posts_deleted: 0,
        post_files_deleted: 0,
        support_assets_deleted: 0,
        blob_references_deleted: 0,
        blobs_queued: 0,
        blobs_deleted: 0,
    }
}

impl Default for LifecycleReport {
    fn default() -> (report: Self)
        ensures
            report == empty_report(),
    {
        LifecycleReport {
            sessions_deleted: 0,
            projects_deleted: 0,
            posts_deleted: 0,
            post_files_deleted: 0,
            support_assets_deleted: 0,
            blob_references_deleted: 0,
            blobs_queued: 0,
            blobs_deleted: 0,
        }
    }
}

/// A session and the time of its latest activity.
#[derive(Debug, Clone, Copy, PartialEq, Eq, Structural)]
pub struct SessionActivity {
    pub id: i64,
    pub last_activity_at: i64,
}

/// Whether a session is due for purge: its latest activity is at the cutoff or before it.
pub open spec fn is_due(last_activity_at: i64, cutoff: i64) -> bool {
    last_activity_at <= cutoff
}

/// The numbers of the sessions that are due, in the given order.
pub open spec fn due(sessions: Seq<SessionActivity>, cutoff: i64) -> Seq<i64>
    decreases sessions.len(),
{
    if sessions.len() == 0 {
        Seq::empty()
    } else {
        let before = due(sessions.drop_last(), cutoff);
        if is_due(sessions.last().last_activity_at, cutoff) {
            before.push(sessions.last().id)
        } else {
            before
        }
    }
}

/// The numbers of the sessions that are due, in the given order.
pub fn due_sessions(sessions: &[SessionActivity], cutoff: i64) -> (ids: Vec<i64>)
    ensures
        ids@ == due(sessions@, cutoff),
{
    let mut ids: Vec<i64> = Vec::new();
    let mut i: usize = 0;
    while i < sessions.len()
        invariant
            i <= sessions.len(),
            ids@ == due(sessions@.take(i as int), cutoff),
        decreases sessions.len() - i,
    {
        assert(sessions@.take(i + 1).drop_last() =~= sessions@.take(i as int));
        if sessions[i].last_activity_at <= cutoff {
            ids.push(sessions[i].id);
        }
        i += 1;
    }
    assert(sessions@.take(sessions@.len() as int) =~= sessions@);
    ids
}

/// How many of the sessions are active and how many are due.
pub fn count_sessions(sessions: &[SessionActivity], cutoff: i64) -> (counts: (u64, u64))
    ensures
        counts.1 == due(sessions@, cutoff).len(),
        counts.0 + counts.1 == sessions@.len(),
{
    let mut active: u64 = 0;
    let mut overdue: u64 = 0;
    let mut i: usize = 0;
    while i < sessions.len()
        invariant
            i <= sessions.len(),
            overdue == due(sessions@.take(i as int), cutoff).len(),
            active + overdue == i,
        decreases sessions.len() - i,
    {
        assert(sessions@.take(i + 1).drop_last() =~= sessions@.take(i as int));
        if sessions[i].last_activity_at <= cutoff {
            overdue += 1;
        } else {
            active += 1;
        }
        i += 1;
    }
    assert(sessions@.take(sessions@.len() as int) =~= sessions@);
    (active, overdue)
}

/// What belongs to one session: its project, the number of its posts and of what they hold, and
/// the digests of the blobs that they refer to.
#[derive(Debug)]
pub struct SessionContents {
    pub project_id: i64,
    pub posts: u64,
    pub post_files: u64,
    pub support_assets: u64,
    pub blob_references: u64,
    pub blob_hashes: Vec<String>,
}

/// Every session is either active or due, and a session whose latest activity is exactly at the
/// cutoff is due.
pub proof fn law_due_sessions(sessions: Seq<SessionActivity>, cutoff: i64, i: int)
    requires
        0 <= i < sessions.len(),
    ensures
        sessions[i].last_activity_at <= cutoff ==> due(sessions, cutoff).contains(sessions[i].id),
        due(sessions, cutoff).len() <= sessions.len(),
        is_due(cutoff, cutoff),
    decreases sessions.len(),
{
    let before = sessions.drop_last();
    let ids = due(before, cutoff);
    let all = due(sessions, cutoff);
    if before.len() > 0 {
        law_due_sessions(
            before,
            cutoff,
            if i < before.len() {
                i
            } else {
                0
            },
        );
    }
    if i < before.len() {
        assert(before[i] == sessions[i]);
        if sessions[i].last_activity_at <= cutoff {
            let k = choose|k: int| 0 <= k < ids.len() && ids[k] == sessions[i].id;
            assert(all[k] == sessions[i].id);
        }
    } else if sessions[i].last_activity_at <= cutoff {
        assert(all[all.len() - 1] == sessions[i].id);
    }
}

/// Only sessions that are due are purged.
pub proof fn law_active_sessions_stay(sessions: Seq<SessionActivity>, cutoff: i64, k: int)
    requires
        0 <= k < due(sessions, cutoff).len(),
    ensures
        exists|i: int|
            0 <= i < sessions.len() && (#[trigger] sessions[i]).id == due(sessions, cutoff)[k]
                && sessions[i].last_activity_at <= cutoff,
    decreases sessions.len(),
{
    let before = sessions.drop_last();
    let ids = due(before, cutoff);
    if k < ids.len() {
        law_active_sessions_stay(before, cutoff, k);
        let i = choose|i: int|
            0 <= i < before.len() && (#[trigger] before[i]).id == ids[k]
                && before[i].last_activity_at <= cutoff;
        assert(sessions[i] == before[i]);
    } else {
        assert(sessions[sessions.len() - 1].id == due(sessions, cutoff)[k]);
    }
}

/// The sessions that are left once those with the numbers are removed, in their order.
pub open spec fn left_after(sessions: Seq<SessionActivity>, removed: Seq<i64>) -> Seq<
    SessionActivity,
>
    decreases sessions.len(),
{
    if sessions.len() == 0 {
        sessions
    } else {
        let before = left_after(sessions.drop_last(), removed);
        if removed.contains(sessions.last().id) {
            before
        } else {
            before.push(sessions.last())
        }
    }
}

/// Whether no two sessions have the same number.
pub open spec fn numbers_differ(sessions: Seq<SessionActivity>) -> bool {
    forall|i: int, j: int|
        0 <= i < j < sessions.len() ==> (#[trigger] sessions[i]).id != (
        #[trigger] sessions[j]).id
}

proof fn lemma_left(all: Seq<SessionActivity>, cutoff: i64, n: int)
    requires
        numbers_differ(all),
        0 <= n <= all.len(),
    ensures
        ({
            let some = all.take(n);
            let left = left_after(some, due(all, cutoff));
            &&& due(left, cutoff).len() == 0
            &&& left.len() + due(some, cutoff).len() == n
            &&& forall|i: int| 0 <= i < left.len() ==> (#[trigger] left[i]).last_activity_at
                > cutoff
        }),
    decreases n,
{
    if n > 0 {
        lemma_left(all, cutoff, n - 1);
        let some = all.take(n);
        assert(some.drop_last() =~= all.take(n - 1));
        let session = all[n - 1];
        assert(some.last() == session);
        let before = left_after(all.take(n - 1), due(all, cutoff));
        law_due_sessions(all, cutoff, n - 1);
        if session.last_activity_at > cutoff {
            if due(all, cutoff).contains(session.id) {
                let k = choose|k: int|
                    0 <= k < due(all, cutoff).len() && due(all, cutoff)[k] == session.id;
                law_active_sessions_stay(all, cutoff, k);
                let i = choose|i: int|
                    0 <= i < all.len() && (#[trigger] all[i]).id == due(all, cutoff)[k]
                        && all[i].last_activity_at <= cutoff;
                if i < n - 1 {
                    assert(all[i].id != all[n - 1].id);
                } else if i > n - 1 {
                    assert(all[n - 1].id != all[i].id);
                }
            }
            assert(before.push(session).drop_last() =~= before);
        }
    }
}

/// Once the sessions that were due are removed, none is due at the same cutoff, and all that are
/// left are active.
pub proof fn law_a_purge_leaves_none_due(sessions: Seq<SessionActivity>, cutoff: i64)
    requires
        numbers_differ(sessions),
    ensures
        ({
            let left = left_after(sessions, due(sessions, cutoff));
            &&& due(left, cutoff).len() == 0
            &&& left.len() == sessions.len() - due(sessions, cutoff).len()
            &&& forall|i: int| 0 <= i < left.len() ==> (#[trigger] left[i]).last_activity_at
                > cutoff
        }),
{
    lemma_left(sessions, cutoff, sessions.len() as int);
    assert(sessions.take(sessions.len() as int) =~= sessions);
}

} // verus!
