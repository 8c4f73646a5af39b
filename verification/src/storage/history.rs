//! What the store keeps over any number of changes: of its tables, of sessions, of posts, and of the
//! files of their blobs.
use vstd::prelude::*;
use crate::api::paths;
use crate::storage::blob::BlobRecord;
use crate::storage::draining;
use crate::storage::draining::{DrainAnswer, DrainModel, Shelf};
use crate::storage::effects;
use crate::storage::effects::{Publication, World};
use crate::storage::error::StoreError;
use crate::storage::finalizing::{FinalAnswer, FinalModel};
use crate::storage::keeping;
use crate::storage::keeping::Kept;
use crate::storage::permanence;
use crate::storage::publication::PostRecord;
use crate::storage::publishing::{PublishAnswer, PublishPlan, PublishState};
use crate::storage::purging;
use crate::storage::purging::{PurgeAnswer, PurgeModel};
use crate::storage::read;
use crate::storage::read::{PostRead, RawFile, RawPost};
use crate::storage::readback;
use crate::storage::resolving;
use crate::storage::resolving::{Identity, ResolveAnswer, Resolving};
use crate::storage::rows;
use crate::storage::tables;
use crate::storage::tables::{SessionRow, Tables};

verus! {

/// One change of the tables, with the run that makes it.
pub enum Change {
    /// A post is published, or is not.
    Publish {
        p: Publication,
        plan: PublishPlan,
        states: Seq<PublishState>,
        answers: Seq<PublishAnswer>,
        worlds: Seq<World>,
    },
    /// A session is resolved, or is not.
    Resolve {
        who: Identity,
        runs: Seq<Resolving>,
        answers: Seq<ResolveAnswer>,
        all: Seq<Tables>,
    },
    /// The latest activity of a session is raised.
    Touch { session_id: i64, at: i64 },
    /// Sessions are removed, or are not.
    Purge {
        targets: Seq<i64>,
        runs: Seq<PurgeModel>,
        answers: Seq<PurgeAnswer>,
        all: Seq<Tables>,
    },
    /// Queued blobs are deleted, as far as it works.
    Drain { runs: Seq<DrainModel>, answers: Seq<DrainAnswer>, all: Seq<Shelf> },
    /// A blob is stored on its own, or is not.
    Store {
        staged: Seq<u8>,
        blob: BlobRecord,
        runs: Seq<FinalModel>,
        answers: Seq<FinalAnswer>,
        all: Seq<Kept>,
    },
    /// A blob is recorded with its size, unless it is.
    Record { hash: Seq<char>, byte_size: int },
    /// The file of a blob that is not recorded is removed.
    Forget { hash: Seq<char> },
}

/// Whether the change leads from one state of the tables and the blob files to the other. A run
/// that fails is undone: its transaction is rolled back.
pub open spec fn leads(change: Change, before: World, after: World) -> bool {
    let t = before.tables;
    match change {
        Change::Publish { p, plan, states, answers, worlds } => {
            &&& effects::publishes(p, plan, states, answers, worlds)
            &&& worlds[0] == before
            &&& worlds.last() == after
            &&& match states.last().outcome {
                Some(Ok(_)) => true,
                Some(Err(_)) => effects::undoes_well(states, answers),
                None => false,
            }
        },
        Change::Resolve { who, runs, answers, all } => {
            &&& resolving::resolves(who, runs, answers, all)
            &&& all[0] == t
            &&& if runs.last().step is Resolved {
                after == effects::with_tables(before, all.last())
            } else {
                runs.last().step is Unresolved && after == before
            }
        },
        Change::Touch { session_id, at } => after == effects::with_tables(
            before,
            effects::touched(t, session_id, at),
        ),
        Change::Purge { targets, runs, answers, all } => {
            &&& purging::purges(targets, runs, answers, all)
            &&& targets.no_duplicates()
            &&& all[0] == t
            &&& if runs.last().step is Purged {
                after == effects::with_tables(before, all.last())
            } else {
                runs.last().step is NotPurged && after == before
            }
        },
        Change::Drain { runs, answers, all } => {
            &&& draining::drains(runs, answers, all)
            &&& all[0].tables == t
            &&& all[0].files == before.files
            &&& after == (World { tables: all.last().tables, files: all.last().files })
        },
        Change::Store { staged, blob, runs, answers, all } => {
            &&& keeping::stores(staged, blob, runs, answers, all)
            &&& all[0].blobs == t.blobs
            &&& all[0].files.dom() == before.files
            &&& after == (World {
                tables: Tables { blobs: all.last().blobs, ..t },
                files: all.last().files.dom(),
            })
            &&& runs.last().step is Stored || runs.last().step is NotStored && keeping::undoes_well(
                runs,
                answers,
            )
        },
        Change::Record { hash, byte_size } => after == effects::with_tables(
            before,
            if t.blobs.contains_key(hash) {
                t
            } else {
                Tables { blobs: t.blobs.insert(hash, byte_size), ..t }
            },
        ),
        Change::Forget { hash } => !t.blobs.contains_key(hash) && after == (World {
            files: before.files.remove(hash),
            ..before
        }),
    }
}

/// Whether each change leads from one state of the tables and the blob files to the next.
pub open spec fn is_history(changes: Seq<Change>, all: Seq<World>) -> bool {
    &&& all.len() == changes.len() + 1
    &&& forall|k: int|
        0 <= k < changes.len() ==> leads(#[trigger] changes[k], all[k], all[k + 1])
}

/// What holds of the tables at all times: the constraints, the references, and the form of the
/// public identifiers.
pub open spec fn well_formed(t: Tables) -> bool {
    tables::well_kept(t) && permanence::linked(t) && tables::public_ids_are_proper(t)
}

/// Whether the session is there as it was, but for its latest activity, and its project has the
/// working directory that it had.
pub open spec fn keeps_session(before: Tables, after: Tables, id: i64) -> bool {
    let project_id = before.sessions[id].project_id;
    &&& before.sessions.contains_key(id)
    &&& after.sessions.contains_key(id)
    &&& after.sessions[id] == (SessionRow {
        last_activity_at: after.sessions[id].last_activity_at,
        ..before.sessions[id]
    })
    &&& before.projects.contains_key(project_id) ==> after.projects.contains_key(project_id)
        && after.projects[project_id].working_directory
        == before.projects[project_id].working_directory
}

/// Whether the tables have the same rows but for the blobs, the queue and the latest activity of
/// sessions.
spec fn same_rows(before: Tables, after: Tables) -> bool {
    &&& after == (Tables {
        sessions: after.sessions,
        blobs: after.blobs,
        queue: after.queue,
        ..before
    })
    &&& after.sessions.dom() == before.sessions.dom()
    &&& forall|id: i64| #[trigger]
        before.sessions.contains_key(id) ==> after.sessions[id] == (SessionRow {
            last_activity_at: after.sessions[id].last_activity_at,
            ..before.sessions[id]
        })
    &&& forall|id: i64| #[trigger]
        before.references.contains_key(id) && before.blobs.contains_key(before.references[id].hash)
            ==> after.blobs.contains_key(before.references[id].hash)
            && after.blobs[before.references[id].hash] == before.blobs[before.references[id].hash]
}

proof fn lemma_same_rows(before: Tables, after: Tables)
    requires
        well_formed(before),
        same_rows(before, after),
    ensures
        well_formed(after),
        forall|id: i64| #[trigger]
            before.sessions.contains_key(id) ==> keeps_session(before, after, id),
        forall|post_id: i64| #[trigger]
            before.posts.contains_key(post_id) ==> permanence::keeps_post(before, after, post_id),
{
    assert forall|id: i64| after.sessions.contains_key(id) == #[trigger]
        before.sessions.contains_key(id) by {
        assert(after.sessions.dom().contains(id) == before.sessions.dom().contains(id));
    }
    assert forall|id: i64| #[trigger] after.sessions.contains_key(id) implies
        before.sessions.contains_key(id) by {
        assert(before.sessions.dom().contains(id));
    }
    assert forall|a: i64, b: i64|
        #![trigger after.sessions[a], after.sessions[b]]
        after.sessions.contains_key(a) && after.sessions.contains_key(b) && (
        after.sessions[a].public_id == after.sessions[b].public_id || (
        after.sessions[a].integration_namespace == after.sessions[b].integration_namespace
            && after.sessions[a].external_key == after.sessions[b].external_key
            && after.sessions[a].project_id == after.sessions[b].project_id)) implies a == b by {
        assert(before.sessions.contains_key(a) && before.sessions.contains_key(b));
        let one = before.sessions[a];
        let other = before.sessions[b];
    }
}

proof fn lemma_publish(
    p: Publication,
    plan: PublishPlan,
    states: Seq<PublishState>,
    answers: Seq<PublishAnswer>,
    worlds: Seq<World>,
)
    requires
        effects::publishes(p, plan, states, answers, worlds),
        well_formed(worlds[0].tables),
    ensures
        well_formed(worlds.last().tables),
        forall|id: i64| #[trigger]
            worlds[0].tables.sessions.contains_key(id) ==> keeps_session(
                worlds[0].tables,
                worlds.last().tables,
                id,
            ),
        forall|post_id: i64| #[trigger]
            worlds[0].tables.posts.contains_key(post_id) ==> permanence::keeps_post(
                worlds[0].tables,
                worlds.last().tables,
                post_id,
            ),
{
    let before = worlds[0].tables;
    let after = worlds.last().tables;
    let end = worlds.len() - 1;
    permanence::lemma_linked(before);
    permanence::lemma_publication_extends(p, plan, states, answers, worlds, end);
    permanence::law_publications_keep_references_in_order(p, plan, states, answers, worlds, end);
    assert forall|post_id: i64| #[trigger] before.posts.contains_key(post_id) implies
        permanence::keeps_post(before, after, post_id) by {
        permanence::law_publications_keep_earlier_posts(
            p,
            plan,
            states,
            answers,
            worlds,
            post_id,
            end,
        );
    }
    let shown = Tables { sessions: after.sessions, ..before };
    lemma_same_rows(before, shown);
    assert(after.projects == shown.projects);
}

proof fn lemma_resolve(
    who: Identity,
    runs: Seq<Resolving>,
    answers: Seq<ResolveAnswer>,
    all: Seq<Tables>,
)
    requires
        resolving::resolves(who, runs, answers, all),
        well_formed(all[0]),
        runs.last().step is Resolved,
    ensures
        well_formed(all.last()),
        forall|id: i64| #[trigger]
            all[0].sessions.contains_key(id) ==> keeps_session(all[0], all.last(), id),
        forall|post_id: i64| #[trigger]
            all[0].posts.contains_key(post_id) ==> permanence::keeps_post(
                all[0],
                all.last(),
                post_id,
            ),
{
    let end = all.len() - 1;
    resolving::law_resolved_sessions_are_recorded(who, runs, answers, all);
    resolving::law_public_ids_stay_proper(who, runs, answers, all, end);
    let session = runs.last().session->0;
    assert(resolving::finished(who, all[0], session, all.last()));
    assert forall|post_id: i64| #[trigger] all[0].posts.contains_key(post_id) implies
        permanence::keeps_post(all[0], all.last(), post_id) by {
        permanence::law_resolving_keeps_posts(who, runs, answers, all, post_id, end);
    }
}

proof fn lemma_purge(t: Tables, ids: Set<i64>)
    requires
        well_formed(t),
    ensures
        well_formed(tables::purged(t, ids)),
        forall|id: i64| #[trigger]
            t.sessions.contains_key(id) && !ids.contains(id) ==> keeps_session(
                t,
                tables::purged(t, ids),
                id,
            ),
        forall|post_id: i64| #[trigger]
            t.posts.contains_key(post_id) && !ids.contains(t.posts[post_id].session_id)
                ==> permanence::keeps_post(t, tables::purged(t, ids), post_id),
{
    let after = tables::purged(t, ids);
    permanence::law_purges_keep_references_in_order(t, ids);
    assert forall|post_id: i64| #[trigger]
        t.posts.contains_key(post_id) && !ids.contains(t.posts[post_id].session_id) implies
        permanence::keeps_post(t, after, post_id) by {
        permanence::law_purges_keep_other_posts(t, ids, post_id);
    }
    assert forall|id: i64| #[trigger] t.sessions.contains_key(id) && !ids.contains(id) implies
        keeps_session(t, after, id) by {
        assert(tables::keeps_session(t, ids, t.sessions[id].project_id));
    }
    assert forall|a: i64, b: i64|
        #![trigger after.projects[a], after.projects[b]]
        after.projects.contains_key(a) && after.projects.contains_key(b)
            && after.projects[a].working_directory
            == after.projects[b].working_directory implies a == b by {
        assert(t.projects[a].working_directory == t.projects[b].working_directory);
    }
    assert forall|a: i64, b: i64|
        #![trigger after.sessions[a], after.sessions[b]]
        after.sessions.contains_key(a) && after.sessions.contains_key(b) && (
        after.sessions[a].public_id == after.sessions[b].public_id || (
        after.sessions[a].integration_namespace == after.sessions[b].integration_namespace
            && after.sessions[a].external_key == after.sessions[b].external_key
            && after.sessions[a].project_id == after.sessions[b].project_id)) implies a == b by {
        let one = t.sessions[a];
        let other = t.sessions[b];
    }
}

/// One change keeps the tables well-formed, every session that is there after it as well, and the
/// posts of these.
pub proof fn law_changes_keep_sessions_and_posts(change: Change, first: World, then: World)
    requires
        leads(change, first, then),
        well_formed(first.tables),
    ensures
        well_formed(then.tables),
        forall|id: i64| #[trigger]
            first.tables.sessions.contains_key(id) && then.tables.sessions.contains_key(id)
                ==> keeps_session(first.tables, then.tables, id),
        forall|post_id: i64| #[trigger]
            first.tables.posts.contains_key(post_id) && then.tables.sessions.contains_key(
                first.tables.posts[post_id].session_id,
            ) ==> permanence::keeps_post(first.tables, then.tables, post_id),
{
    let before = first.tables;
    let after = then.tables;
    match change {
        Change::Publish { p, plan, states, answers, worlds } => {
            lemma_publish(p, plan, states, answers, worlds);
        },
        Change::Resolve { who, runs, answers, all } => {
            if runs.last().step is Resolved {
                lemma_resolve(who, runs, answers, all);
            } else {
                lemma_same_rows(before, after);
            }
        },
        Change::Touch { session_id, at } => {
            assert(after.sessions.dom() =~= before.sessions.dom());
            lemma_same_rows(before, after);
        },
        Change::Purge { targets, runs, answers, all } => {
            if runs.last().step is Purged {
                purging::law_a_purge_leaves_the_rest(targets, runs, answers, all);
                lemma_purge(before, targets.to_set());
            } else {
                lemma_same_rows(before, after);
            }
        },
        Change::Drain { runs, answers, all } => {
            let end = all.len() - 1;
            assert forall|id: i64| #[trigger] before.references.contains_key(id) implies
                after.blobs.contains_key(before.references[id].hash)
                && after.blobs[before.references[id].hash]
                == before.blobs[before.references[id].hash] by {
                let hash = before.references[id].hash;
                assert(purging::is_referred(before, hash));
                draining::law_referred_blobs_stay(runs, answers, all, hash, end);
            }
            draining::lemma_other_rows_stay(runs, answers, all, end);
            lemma_same_rows(before, after);
        },
        Change::Store { staged, blob, runs, answers, all } => {
            assert forall|hash: Seq<char>| #[trigger] before.blobs.contains_key(hash) implies
                after.blobs.contains_key(hash) && after.blobs[hash] == before.blobs[hash] by {
                keeping::law_storing_keeps_rows(staged, blob, runs, answers, all, hash);
            }
            lemma_same_rows(before, after);
        },
        Change::Record { .. } => {
            lemma_same_rows(before, after);
        },
        Change::Forget { .. } => {
            lemma_same_rows(before, after);
        },
    }
}

/// One change leaves every blob that a post refers to with its file.
pub proof fn law_changes_keep_files(change: Change, first: World, then: World)
    requires
        leads(change, first, then),
        well_formed(first.tables),
        permanence::files_are_there(first),
    ensures
        permanence::files_are_there(then),
{
    let before = first.tables;
    match change {
        Change::Publish { p, plan, states, answers, worlds } => {
            permanence::lemma_linked(before);
            permanence::law_published_blobs_have_files(p, plan, states, answers, worlds);
        },
        Change::Resolve { who, runs, answers, all } => {
            permanence::lemma_resolving_extends(who, runs, answers, all, all.len() - 1);
        },
        Change::Purge { targets, runs, answers, all } => {
            if runs.last().step is Purged {
                purging::law_a_purge_leaves_the_rest(targets, runs, answers, all);
            }
        },
        Change::Drain { runs, answers, all } => {
            let end = all.len() - 1;
            draining::lemma_other_rows_stay(runs, answers, all, end);
            assert forall|id: i64| #[trigger] before.references.contains_key(id) implies
                then.files.contains(before.references[id].hash) by {
                let hash = before.references[id].hash;
                assert(purging::is_referred(before, hash));
                draining::law_referred_blobs_stay(runs, answers, all, hash, end);
            }
        },
        Change::Store { staged, blob, runs, answers, all } => {
            assert forall|hash: Seq<char>| #[trigger] first.files.contains(hash) implies
                then.files.contains(hash) by {
                assert(all[0].files.dom().contains(hash));
                keeping::law_storing_keeps_files(staged, blob, runs, answers, all, hash);
            }
        },
        _ => {},
    }
}

/// Whether the session is there all the while, up to the state with the number.
pub open spec fn stays(all: Seq<World>, session_id: i64, k: int) -> bool {
    forall|i: int| 0 <= i <= k ==> (#[trigger] all[i]).tables.sessions.contains_key(session_id)
}

/// The tables are well-formed at all times.
pub proof fn law_tables_stay_well_formed(changes: Seq<Change>, all: Seq<World>, k: int)
    requires
        is_history(changes, all),
        well_formed(all[0].tables),
        0 <= k < all.len(),
    ensures
        well_formed(all[k].tables),
    decreases k,
{
    if k > 0 {
        law_tables_stay_well_formed(changes, all, k - 1);
        assert(leads(changes[k - 1], all[k - 1], all[k]));
        law_changes_keep_sessions_and_posts(changes[k - 1], all[k - 1], all[k]);
    }
}

/// A session keeps its public identifier, its identity and its project for as long as it is there.
pub proof fn law_sessions_stay_the_same(
    changes: Seq<Change>,
    all: Seq<World>,
    session_id: i64,
    k: int,
)
    requires
        is_history(changes, all),
        well_formed(all[0].tables),
        0 <= k < all.len(),
        stays(all, session_id, k),
    ensures
        keeps_session(all[0].tables, all[k].tables, session_id),
    decreases k,
{
    assert(all[0].tables.sessions.contains_key(session_id));
    if k > 0 {
        law_sessions_stay_the_same(changes, all, session_id, k - 1);
        law_tables_stay_well_formed(changes, all, k - 1);
        assert(leads(changes[k - 1], all[k - 1], all[k]));
        assert(all[k].tables.sessions.contains_key(session_id));
        law_changes_keep_sessions_and_posts(changes[k - 1], all[k - 1], all[k]);
    }
}

/// Publications are immutable: whatever the store does, a post keeps its row, its files, their
/// support assets, its blob references and the recorded sizes of its blobs, and gets no others, for
/// as long as its session is there.
pub proof fn law_publications_are_immutable(
    changes: Seq<Change>,
    all: Seq<World>,
    post_id: i64,
    k: int,
)
    requires
        is_history(changes, all),
        well_formed(all[0].tables),
        0 <= k < all.len(),
        all[0].tables.posts.contains_key(post_id),
        stays(all, all[0].tables.posts[post_id].session_id, k),
    ensures
        permanence::keeps_post(all[0].tables, all[k].tables, post_id),
    decreases k,
{
    if k > 0 {
        law_publications_are_immutable(changes, all, post_id, k - 1);
        law_tables_stay_well_formed(changes, all, k - 1);
        assert(leads(changes[k - 1], all[k - 1], all[k]));
        assert(all[k].tables.sessions.contains_key(all[0].tables.posts[post_id].session_id));
        law_changes_keep_sessions_and_posts(changes[k - 1], all[k - 1], all[k]);
        assert(all[k - 1].tables.posts.contains_key(post_id));
        permanence::law_keeping_goes_on(
            all[0].tables,
            all[k - 1].tables,
            all[k].tables,
            post_id,
        );
    } else {
        permanence::lemma_unchanged_keeps(all[0].tables, post_id);
    }
}

/// Every blob that a post refers to has its file, at all times: for as long as the session of a post
/// is there, the blobs of its files and of their support assets are recorded and on disk.
pub proof fn law_published_blobs_stay(
    changes: Seq<Change>,
    all: Seq<World>,
    post_id: i64,
    reference_id: i64,
    k: int,
)
    requires
        is_history(changes, all),
        well_formed(all[0].tables),
        permanence::files_are_there(all[0]),
        0 <= k < all.len(),
        all[0].tables.posts.contains_key(post_id),
        permanence::is_reference(all[0].tables, post_id, reference_id),
        stays(all, all[0].tables.posts[post_id].session_id, k),
    ensures
        readback::has_blob(all[k].tables, post_id, reference_id),
        all[k].tables.references[reference_id] == all[0].tables.references[reference_id],
        all[k].files.contains(all[0].tables.references[reference_id].hash),
{
    law_publications_are_immutable(changes, all, post_id, k);
    law_tables_stay_well_formed(changes, all, k);
    lemma_files_stay(changes, all, k);
    assert(permanence::is_reference(all[k].tables, post_id, reference_id));
}

proof fn lemma_files_stay(changes: Seq<Change>, all: Seq<World>, k: int)
    requires
        is_history(changes, all),
        well_formed(all[0].tables),
        permanence::files_are_there(all[0]),
        0 <= k < all.len(),
    ensures
        permanence::files_are_there(all[k]),
    decreases k,
{
    if k > 0 {
        lemma_files_stay(changes, all, k - 1);
        law_tables_stay_well_formed(changes, all, k - 1);
        assert(leads(changes[k - 1], all[k - 1], all[k]));
        law_changes_keep_files(changes[k - 1], all[k - 1], all[k]);
    }
}

/// What was published can be read back for as long as its session is there: a post that was
/// published, and is read after any number of changes, is assembled without a fault and is the one
/// that was requested.
pub proof fn law_published_posts_are_read_back_later(
    p: Publication,
    plan: PublishPlan,
    states: Seq<PublishState>,
    answers: Seq<PublishAnswer>,
    worlds: Seq<World>,
    record: PostRecord,
    changes: Seq<Change>,
    all: Seq<World>,
    raw: RawPost,
    raw_files: Seq<RawFile>,
    ids: Seq<i64>,
    asset_ids: Seq<Seq<i64>>,
)
    requires
        effects::publishes(p, plan, states, answers, worlds),
        well_formed(worlds[0].tables),
        states.last().outcome == Some(Ok::<PostRecord, StoreError>(record)),
        is_history(changes, all),
        all[0] == worlds.last(),
        stays(all, record.session_id, all.len() - 1),
        readback::loads(all.last().tables, record.id, raw, raw_files, ids, asset_ids),
        p.request.files@.len() <= u32::MAX,
        rows::git_is_valid(p.request),
    ensures
        read::git_fits(raw),
        read::files_fault(raw_files, 0) is None,
        forall|post: PostRead|
            #![trigger rows::reads_back(post, p.request, record, p.classes)]
            read::post_is(post, raw, raw_files) ==> rows::reads_back(
                post,
                p.request,
                record,
                p.classes,
            ),
{
    permanence::lemma_linked(worlds[0].tables);
    lemma_publish(p, plan, states, answers, worlds);
    readback::lemma_goes_well(p, plan, states, answers, worlds, states.len() - 1);
    assert(all[0].tables.posts[record.id].session_id == record.session_id);
    law_publications_are_immutable(changes, all, record.id, all.len() - 1);
    readback::law_a_published_post_is_read_as_requested(
        p,
        plan,
        states,
        answers,
        worlds,
        record,
        all.last().tables,
        raw,
        raw_files,
        ids,
        asset_ids,
    );
}

/// Resolving a session later, after any number of changes and while it is there, gives the same
/// session, whatever label is given; the label of its project is then the later one, and no session
/// changes. Its public identifier has six or more characters of Base58.
pub proof fn law_resolving_later_gives_the_same_session(
    who: Identity,
    runs: Seq<Resolving>,
    answers: Seq<ResolveAnswer>,
    first: Seq<Tables>,
    changes: Seq<Change>,
    all: Seq<World>,
    later: Identity,
    later_runs: Seq<Resolving>,
    later_answers: Seq<ResolveAnswer>,
    last: Seq<Tables>,
)
    requires
        resolving::resolves(who, runs, answers, first),
        well_formed(first[0]),
        runs.last().step is Resolved,
        is_history(changes, all),
        all[0].tables == first.last(),
        stays(all, runs.last().session->0.id, all.len() - 1),
        later.integration_namespace == who.integration_namespace,
        later.external_key == who.external_key,
        later.working_directory == who.working_directory,
        resolving::resolves(later, later_runs, later_answers, last),
        last[0] == all.last().tables,
        later_runs.last().step is Resolved,
    ensures
        runs.last().session matches Some(session) && later_runs.last().session matches Some(again)
            && again.id == session.id && again.public_id@ == session.public_id@ && again.project_id
            == session.project_id && paths::names_session_page(session.public_id@),
        last.last().sessions == last[0].sessions,
        last.last().projects == last[0].projects.insert(
            runs.last().session->0.project_id,
            resolving::project_row(later),
        ),
{
    resolving::law_resolved_sessions_are_recorded(who, runs, answers, first);
    resolving::law_resolved_public_ids_are_proper(who, runs, answers, first);
    lemma_resolve(who, runs, answers, first);
    let session = runs.last().session->0;
    let end = all.len() - 1;
    law_sessions_stay_the_same(changes, all, session.id, end);
    law_tables_stay_well_formed(changes, all, end);
    resolving::law_resolving_again_gives_the_same_session(
        later,
        session,
        later_runs,
        later_answers,
        last,
    );
}

} // verus!
