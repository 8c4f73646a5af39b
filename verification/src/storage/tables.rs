//! The rows of the database as contracts speak of them, and what the end of sessions does to them.
//!
//! The database itself is asked by the caller. Here stands what its tables hold, as maps from row
//! numbers, and what becomes of them; the laws say what follows from the library's decisions where
//! every step does to the tables what it says.
use vstd::prelude::*;
use crate::api::paths;
use crate::storage::lifecycle;

verus! {

pub struct ProjectRow {
    pub label: Seq<char>,
    pub working_directory: Seq<char>,
}

pub struct SessionRow {
    pub public_id: Seq<char>,
    pub integration_namespace: Seq<char>,
    pub external_key: Seq<char>,
    pub project_id: i64,
    pub created_at: i64,
    pub last_activity_at: i64,
}

pub struct PostRow {
    pub session_id: i64,
    pub title: Seq<char>,
    pub commentary: Seq<char>,
    pub predecessor_post_id: Option<i64>,
    pub published_at: i64,
    pub git: Option<(Seq<char>, Option<Seq<char>>, Option<Seq<char>>)>,
}

pub struct ReferenceRow {
    pub post_id: i64,
    pub hash: Seq<char>,
}

pub struct FileRow {
    pub post_id: i64,
    pub reference_id: i64,
    pub position: int,
    pub filename: Seq<char>,
    pub caption: Option<Seq<char>>,
    pub media_type: Seq<char>,
    pub renderer: Seq<char>,
}

pub struct AssetRow {
    pub post_id: i64,
    pub entry_id: i64,
    pub reference_id: i64,
    pub position: int,
    pub relative_path: Seq<char>,
}

/// The tables: rows by their numbers, the recorded sizes of blobs by their digests, and the
/// digests that are queued for deletion.
#[verifier::ext_equal]
pub struct Tables {
    pub projects: Map<i64, ProjectRow>,
    pub sessions: Map<i64, SessionRow>,
    pub posts: Map<i64, PostRow>,
    pub references: Map<i64, ReferenceRow>,
    pub files: Map<i64, FileRow>,
    pub assets: Map<i64, AssetRow>,
    pub blobs: Map<Seq<char>, int>,
    pub queue: Set<Seq<char>>,
}

/// Whether no two projects have the same working directory.
pub open spec fn directories_differ(t: Tables) -> bool {
    forall|a: i64, b: i64|
        #![trigger t.projects[a], t.projects[b]]
        t.projects.contains_key(a) && t.projects.contains_key(b) && t.projects[a].working_directory
            == t.projects[b].working_directory ==> a == b
}

/// Whether no two sessions have the same public identifier.
pub open spec fn public_ids_differ(t: Tables) -> bool {
    forall|a: i64, b: i64|
        #![trigger t.sessions[a], t.sessions[b]]
        t.sessions.contains_key(a) && t.sessions.contains_key(b) && t.sessions[a].public_id
            == t.sessions[b].public_id ==> a == b
}

/// Whether no two sessions of a project have the same namespace and key.
pub open spec fn identities_differ(t: Tables) -> bool {
    forall|a: i64, b: i64|
        #![trigger t.sessions[a], t.sessions[b]]
        t.sessions.contains_key(a) && t.sessions.contains_key(b)
            && t.sessions[a].integration_namespace == t.sessions[b].integration_namespace
            && t.sessions[a].external_key == t.sessions[b].external_key
            && t.sessions[a].project_id == t.sessions[b].project_id ==> a == b
}

/// Whether every session has a public identifier of six or more characters of Base58.
pub open spec fn public_ids_are_proper(t: Tables) -> bool {
    forall|id: i64| #[trigger]
        t.sessions.contains_key(id) ==> paths::names_session_page(t.sessions[id].public_id)
}

/// What the tables' own constraints keep.
pub open spec fn well_kept(t: Tables) -> bool {
    directories_differ(t) && public_ids_differ(t) && identities_differ(t)
}

// ---- the end of sessions ----

/// Whether the session with the number is there and has the public identifier.
pub open spec fn is_session(t: Tables, id: i64, public_id: Seq<char>) -> bool {
    t.sessions.contains_key(id) && t.sessions[id].public_id == public_id
}

/// The number of the session with the public identifier.
pub open spec fn session_named(t: Tables, public_id: Seq<char>) -> Option<i64> {
    if exists|id: i64| is_session(t, id, public_id) {
        Some(choose|id: i64| is_session(t, id, public_id))
    } else {
        None
    }
}

/// The sessions that go.
pub open spec fn gone_sessions(t: Tables, ids: Set<i64>) -> Set<i64> {
    t.sessions.dom().intersect(ids)
}

/// Whether a session of the project goes.
pub open spec fn loses_session(t: Tables, ids: Set<i64>, project_id: i64) -> bool {
    exists|id: i64| #[trigger]
        gone_sessions(t, ids).contains(id) && t.sessions[id].project_id == project_id
}

/// Whether a session of the project stays.
pub open spec fn keeps_session(t: Tables, ids: Set<i64>, project_id: i64) -> bool {
    exists|id: i64| #[trigger]
        t.sessions.contains_key(id) && !ids.contains(id) && t.sessions[id].project_id == project_id
}

/// The projects that go: those of sessions that go, where no session stays.
pub open spec fn gone_projects(t: Tables, ids: Set<i64>) -> Set<i64> {
    t.projects.dom().filter(
        |id: i64| loses_session(t, ids, id) && !keeps_session(t, ids, id),
    )
}

/// The posts that go: those of sessions that go.
pub open spec fn gone_posts(t: Tables, ids: Set<i64>) -> Set<i64> {
    t.posts.dom().filter(|id: i64| ids.contains(t.posts[id].session_id))
}

/// The blob references that go: those of posts that go.
pub open spec fn gone_references(t: Tables, ids: Set<i64>) -> Set<i64> {
    t.references.dom().filter(|id: i64| gone_posts(t, ids).contains(t.references[id].post_id))
}

/// The files that go: those of posts that go.
pub open spec fn gone_files(t: Tables, ids: Set<i64>) -> Set<i64> {
    t.files.dom().filter(|id: i64| gone_posts(t, ids).contains(t.files[id].post_id))
}

/// The support assets that go: those of posts that go.
pub open spec fn gone_assets(t: Tables, ids: Set<i64>) -> Set<i64> {
    t.assets.dom().filter(|id: i64| gone_posts(t, ids).contains(t.assets[id].post_id))
}

/// Whether a reference to the blob goes.
pub open spec fn loses_reference(t: Tables, ids: Set<i64>, hash: Seq<char>) -> bool {
    exists|id: i64| #[trigger]
        gone_references(t, ids).contains(id) && t.references[id].hash == hash
}

/// Whether a reference to the blob stays.
pub open spec fn keeps_reference(t: Tables, ids: Set<i64>, hash: Seq<char>) -> bool {
    exists|id: i64| #[trigger]
        t.references.contains_key(id) && !gone_references(t, ids).contains(id)
            && t.references[id].hash == hash
}

/// The tables after a purge of the sessions with these numbers: they go with all that is theirs,
/// and blobs that nothing refers to any more are queued for deletion.
pub open spec fn purged(t: Tables, ids: Set<i64>) -> Tables {
    Tables {
        projects: t.projects.remove_keys(gone_projects(t, ids)),
        sessions: t.sessions.remove_keys(gone_sessions(t, ids)),
        posts: t.posts.remove_keys(gone_posts(t, ids)),
        references: t.references.remove_keys(gone_references(t, ids)),
        files: t.files.remove_keys(gone_files(t, ids)),
        assets: t.assets.remove_keys(gone_assets(t, ids)),
        queue: t.queue.union(
            Set::new(
                |hash: Seq<char>| loses_reference(t, ids, hash) && !keeps_reference(t, ids, hash),
            ),
        ),
        ..t
    }
}

/// The numbers of the sessions that are purged when the session with a public identifier is
/// closed.
pub open spec fn closing(found: Option<i64>) -> Seq<i64> {
    match found {
        Some(id) => seq![id],
        None => Seq::empty(),
    }
}

/// The tables after the session with the public identifier was closed.
pub open spec fn closed(t: Tables, public_id: Seq<char>) -> Tables {
    purged(t, closing(session_named(t, public_id)).to_set())
}

/// The numbers of the sessions that are purged when a session is closed: its own, where it is
/// there, and none where it is not.
pub fn closing_targets(found: Option<i64>) -> (ids: Vec<i64>)
    ensures
        ids@ == closing(found),
{
    match found {
        Some(id) => vec![id],
        None => Vec::new(),
    }
}

/// A purge of no session removes nothing and queues nothing.
pub proof fn law_an_empty_purge_changes_nothing(t: Tables)
    ensures
        purged(t, Set::empty()) == t,
        gone_sessions(t, Set::empty()) == Set::<i64>::empty(),
        gone_projects(t, Set::empty()) == Set::<i64>::empty(),
        gone_posts(t, Set::empty()) == Set::<i64>::empty(),
        gone_files(t, Set::empty()) == Set::<i64>::empty(),
        gone_assets(t, Set::empty()) == Set::<i64>::empty(),
        gone_references(t, Set::empty()) == Set::<i64>::empty(),
{
    let none = Set::<i64>::empty();
    assert(gone_sessions(t, none) =~= none);
    assert(gone_projects(t, none) =~= none);
    assert(gone_posts(t, none) =~= none);
    assert(gone_files(t, none) =~= none);
    assert(gone_assets(t, none) =~= none);
    assert(gone_references(t, none) =~= none);
    assert(purged(t, none).queue =~= t.queue);
    assert(purged(t, none) =~= t);
}

/// Closing a session a second time finds nothing: no session has its identifier any more, nothing
/// goes, and the tables stay as they are.
pub proof fn law_a_second_closing_removes_nothing(t: Tables, public_id: Seq<char>)
    requires
        public_ids_differ(t),
    ensures
        session_named(closed(t, public_id), public_id) is None,
        closing(session_named(closed(t, public_id), public_id)).len() == 0,
        closed(closed(t, public_id), public_id) == closed(t, public_id),
        gone_sessions(
            closed(t, public_id),
            closing(session_named(closed(t, public_id), public_id)).to_set(),
        ) == Set::<i64>::empty(),
{
    let found = session_named(t, public_id);
    let ids = closing(found).to_set();
    let after = closed(t, public_id);
    match found {
        Some(id) => {
            assert(is_session(t, id, public_id));
            assert(seq![id][0] == id);
            assert(seq![id].contains(id));
            assert forall|other: i64| !is_session(after, other, public_id) by {
                if is_session(after, other, public_id) {
                    assert(t.sessions.contains_key(other));
                    assert(t.sessions[other].public_id == t.sessions[id].public_id);
                }
            }
        },
        None => {
            assert forall|other: i64| !is_session(after, other, public_id) by {
                if is_session(after, other, public_id) {
                    assert(is_session(t, other, public_id));
                }
            }
        },
    }
    assert(session_named(after, public_id) is None);
    assert(Seq::<i64>::empty().to_set() =~= Set::<i64>::empty());
    law_an_empty_purge_changes_nothing(after);
}

/// A purge of the sessions that are due leaves none that is due at the same cutoff, and leaves
/// every other session as it was.
pub proof fn law_purged_tables_hold_no_due_session(t: Tables, ids: Set<i64>, cutoff: i64)
    requires
        forall|id: i64| #[trigger]
            t.sessions.contains_key(id) ==> (ids.contains(id) <==> lifecycle::is_due(
                t.sessions[id].last_activity_at,
                cutoff,
            )),
    ensures
        forall|id: i64| #[trigger]
            purged(t, ids).sessions.contains_key(id) ==> !lifecycle::is_due(
                purged(t, ids).sessions[id].last_activity_at,
                cutoff,
            ),
        forall|id: i64|
            t.sessions.contains_key(id) && !ids.contains(id) ==> (#[trigger] purged(
                t,
                ids,
            ).sessions.contains_key(id)) && purged(t, ids).sessions[id] == t.sessions[id],
{
}

} // verus!
