//! What is published stays as it was for as long as its session is there.
use vstd::prelude::*;
use crate::storage::blob::BlobRecord;
use crate::storage::effects;
use crate::storage::effects::{Publication, World};
use crate::storage::publication;
use crate::storage::publishing;
use crate::storage::publishing::{PublishAnswer, PublishPlan, PublishState, PublishStep};
use crate::storage::readback;
use crate::storage::resolving;
use crate::storage::resolving::{Identity, ResolveAnswer, Resolving};
use crate::storage::tables;
use crate::storage::tables::Tables;

verus! {

/// Whether the row is a blob reference of the post.
pub open spec fn is_reference(t: Tables, post_id: i64, id: i64) -> bool {
    t.references.contains_key(id) && t.references[id].post_id == post_id
}

/// Whether the row of the post is as it was, and so is the public identifier of its session.
pub open spec fn keeps_row(before: Tables, after: Tables, post_id: i64) -> bool {
    let session_id = before.posts[post_id].session_id;
    &&& before.posts.contains_key(post_id)
    &&& after.posts.contains_key(post_id)
    &&& after.posts[post_id] == before.posts[post_id]
    &&& before.sessions.contains_key(session_id) ==> tables::is_session(
        after,
        session_id,
        before.sessions[session_id].public_id,
    )
}

/// Whether the post has the files that it had, and no others.
pub open spec fn keeps_files(before: Tables, after: Tables, post_id: i64) -> bool {
    &&& forall|id: i64| #[trigger]
        readback::is_file(before, post_id, id) ==> readback::is_file(after, post_id, id)
            && after.files[id] == before.files[id]
    &&& forall|id: i64| #[trigger]
        readback::is_file(after, post_id, id) ==> readback::is_file(before, post_id, id)
}

/// Whether the file has the support assets that it had, and no others.
pub open spec fn keeps_assets(before: Tables, after: Tables, entry_id: i64) -> bool {
    &&& forall|id: i64| #[trigger]
        readback::is_asset(before, entry_id, id) ==> readback::is_asset(after, entry_id, id)
            && after.assets[id] == before.assets[id]
    &&& forall|id: i64| #[trigger]
        readback::is_asset(after, entry_id, id) ==> readback::is_asset(before, entry_id, id)
}

/// Whether the post has the blob references that it had, and no others.
pub open spec fn keeps_references(before: Tables, after: Tables, post_id: i64) -> bool {
    &&& forall|id: i64| #[trigger]
        is_reference(before, post_id, id) ==> is_reference(after, post_id, id)
            && after.references[id] == before.references[id]
    &&& forall|id: i64| #[trigger]
        is_reference(after, post_id, id) ==> is_reference(before, post_id, id)
}

/// Whether the blobs that the post refers to are recorded with the sizes that they had.
pub open spec fn keeps_sizes(before: Tables, after: Tables, post_id: i64) -> bool {
    forall|id: i64| #[trigger]
        is_reference(before, post_id, id) && before.blobs.contains_key(before.references[id].hash)
            ==> after.blobs.contains_key(before.references[id].hash)
            && after.blobs[before.references[id].hash] == before.blobs[before.references[id].hash]
}

/// The post's row, its session's identifier, its file, asset and reference rows and the recorded
/// sizes of its blobs are as they were, and it has no others.
pub open spec fn keeps_post(before: Tables, after: Tables, post_id: i64) -> bool {
    &&& keeps_row(before, after, post_id)
    &&& keeps_files(before, after, post_id)
    &&& forall|entry_id: i64| #[trigger]
        readback::is_file(before, post_id, entry_id) ==> keeps_assets(before, after, entry_id)
    &&& keeps_references(before, after, post_id)
    &&& keeps_sizes(before, after, post_id)
}

/// What the tables' references keep: the project of every session, the session of every post, the
/// post and the blob of every blob reference, and of every file and support asset its owner and
/// its blob reference, which are of the same post.
pub open spec fn linked(t: Tables) -> bool {
    &&& forall|id: i64| #[trigger]
        t.sessions.contains_key(id) ==> t.projects.contains_key(t.sessions[id].project_id)
    &&& forall|id: i64| #[trigger]
        t.posts.contains_key(id) ==> t.sessions.contains_key(t.posts[id].session_id)
    &&& forall|id: i64| #[trigger]
        t.references.contains_key(id) ==> t.posts.contains_key(t.references[id].post_id)
            && t.blobs.contains_key(t.references[id].hash)
    &&& forall|id: i64| #[trigger]
        t.files.contains_key(id) ==> is_reference(t, t.files[id].post_id, t.files[id].reference_id)
    &&& forall|id: i64| #[trigger]
        t.assets.contains_key(id) ==> {
            &&& readback::is_file(t, t.assets[id].post_id, t.assets[id].entry_id)
            &&& is_reference(t, t.assets[id].post_id, t.assets[id].reference_id)
        }
}

pub proof fn lemma_linked(t: Tables)
    requires
        linked(t),
    ensures
        readback::owners_are_there(t),
{
}

// ---- from one change to the next ----

/// A post that is kept by one change and by the next is kept by both together.
pub proof fn law_keeping_goes_on(first: Tables, then: Tables, last: Tables, post_id: i64)
    requires
        keeps_post(first, then, post_id),
        keeps_post(then, last, post_id),
    ensures
        keeps_post(first, last, post_id),
{
    assert forall|entry_id: i64| #[trigger] readback::is_file(first, post_id, entry_id) implies
        keeps_assets(first, last, entry_id) by {
        assert(readback::is_file(then, post_id, entry_id));
        assert(keeps_assets(first, then, entry_id));
        assert(keeps_assets(then, last, entry_id));
    }
    assert forall|id: i64| #[trigger]
        is_reference(first, post_id, id) && first.blobs.contains_key(
            first.references[id].hash,
        ) implies last.blobs.contains_key(first.references[id].hash)
        && last.blobs[first.references[id].hash] == first.blobs[first.references[id].hash] by {
        assert(is_reference(then, post_id, id));
    }
}

/// Where nothing changes, every post is kept.
pub proof fn lemma_unchanged_keeps(t: Tables, post_id: i64)
    requires
        t.posts.contains_key(post_id),
    ensures
        keeps_post(t, t, post_id),
{
}

// ---- a publication ----

/// Whether the tables hold all that was there at first, but for the latest activity of sessions;
/// and what is new is of posts and files that are new.
pub open spec fn extends(first: Tables, t: Tables) -> bool {
    &&& t.projects == first.projects
    &&& t.sessions.dom() == first.sessions.dom()
    &&& forall|id: i64| #[trigger]
        first.sessions.contains_key(id) ==> t.sessions[id] == (tables::SessionRow {
            last_activity_at: t.sessions[id].last_activity_at,
            ..first.sessions[id]
        })
    &&& forall|id: i64| #[trigger]
        first.posts.contains_key(id) ==> t.posts.contains_key(id) && t.posts[id] == first.posts[id]
    &&& forall|id: i64| #[trigger]
        first.references.contains_key(id) ==> t.references.contains_key(id) && t.references[id]
            == first.references[id]
    &&& forall|id: i64| #[trigger]
        t.references.contains_key(id) && !first.references.contains_key(id)
            ==> !first.posts.contains_key(t.references[id].post_id)
    &&& forall|id: i64| #[trigger]
        first.files.contains_key(id) ==> t.files.contains_key(id) && t.files[id] == first.files[id]
    &&& forall|id: i64| #[trigger]
        t.files.contains_key(id) && !first.files.contains_key(id) ==> !first.posts.contains_key(
            t.files[id].post_id,
        )
    &&& forall|id: i64| #[trigger]
        first.assets.contains_key(id) ==> t.assets.contains_key(id) && t.assets[id]
            == first.assets[id]
    &&& forall|id: i64| #[trigger]
        t.assets.contains_key(id) && !first.assets.contains_key(id) ==> !first.files.contains_key(
            t.assets[id].entry_id,
        )
    &&& forall|hash: Seq<char>| #[trigger]
        first.blobs.contains_key(hash) ==> t.blobs.contains_key(hash) && t.blobs[hash]
            == first.blobs[hash]
}

proof fn lemma_extending_keeps(first: Tables, t: Tables, post_id: i64)
    requires
        extends(first, t),
        first.posts.contains_key(post_id),
    ensures
        keeps_post(first, t, post_id),
{
    let session_id = first.posts[post_id].session_id;
    if first.sessions.contains_key(session_id) {
        assert(t.sessions.dom().contains(session_id));
    }
    assert forall|id: i64| #[trigger] readback::is_file(t, post_id, id) implies readback::is_file(
        first,
        post_id,
        id,
    ) by {
        assert(first.files.contains_key(id));
    }
    assert forall|id: i64| #[trigger] is_reference(t, post_id, id) implies is_reference(
        first,
        post_id,
        id,
    ) by {
        assert(first.references.contains_key(id));
    }
    assert forall|entry_id: i64| #[trigger] readback::is_file(first, post_id, entry_id) implies
        keeps_assets(first, t, entry_id) by {
        assert forall|id: i64| #[trigger] readback::is_asset(t, entry_id, id) implies
            readback::is_asset(first, entry_id, id) by {
            assert(first.assets.contains_key(id));
        }
    }
}

#[verifier::rlimit(60)]
proof fn lemma_step_extends(
    p: Publication,
    plan: PublishPlan,
    first: World,
    s: PublishState,
    answer: PublishAnswer,
    w: World,
)
    requires
        readback::owners_are_there(first.tables),
        publishing::consistent(plan, s),
        effects::answered(p, s, answer, w),
        readback::goes_well(p, plan, first.tables, s, w.tables),
        extends(first.tables, w.tables),
    ensures
        extends(first.tables, effects::effect(p, first, s, answer, w).tables),
{
    let t = w.tables;
    let now = effects::effect(p, first, s, answer, w).tables;
    match (s.step, answer) {
        (PublishStep::Record { blob, .. }, PublishAnswer::Done) => {
            assert(readback::agrees(t, s, blob as int));
        },
        (PublishStep::InsertAsset { entry_id, .. }, PublishAnswer::Id(id)) => {
            if first.tables.files.contains_key(entry_id) {
                assert(t.files[entry_id] == first.tables.files[entry_id]);
            }
        },
        (PublishStep::Touch { session_id, .. }, PublishAnswer::Done) => {
            assert(now.sessions.dom() =~= t.sessions.dom());
        },
        _ => {},
    }
}

pub proof fn lemma_publication_extends(
    p: Publication,
    plan: PublishPlan,
    states: Seq<PublishState>,
    answers: Seq<PublishAnswer>,
    worlds: Seq<World>,
    k: int,
)
    requires
        effects::publishes(p, plan, states, answers, worlds),
        readback::owners_are_there(worlds[0].tables),
        0 <= k < worlds.len(),
    ensures
        extends(worlds[0].tables, worlds[k].tables),
    decreases k,
{
    if k > 0 {
        lemma_publication_extends(p, plan, states, answers, worlds, k - 1);
        readback::lemma_goes_well(p, plan, states, answers, worlds, k - 1);
        assert(publishing::consistent(plan, states[k - 1]));
        assert(publishing::answers(states[k - 1].step, answers[k - 1]));
        lemma_step_extends(p, plan, worlds[0], states[k - 1], answers[k - 1], worlds[k - 1]);
    }
}

/// A publication keeps every post that was there before it, at each of its steps, whether it
/// succeeds or fails.
pub proof fn law_publications_keep_earlier_posts(
    p: Publication,
    plan: PublishPlan,
    states: Seq<PublishState>,
    answers: Seq<PublishAnswer>,
    worlds: Seq<World>,
    post_id: i64,
    k: int,
)
    requires
        effects::publishes(p, plan, states, answers, worlds),
        readback::owners_are_there(worlds[0].tables),
        worlds[0].tables.posts.contains_key(post_id),
        0 <= k < worlds.len(),
    ensures
        keeps_post(worlds[0].tables, worlds[k].tables, post_id),
{
    lemma_publication_extends(p, plan, states, answers, worlds, k);
    lemma_extending_keeps(worlds[0].tables, worlds[k].tables, post_id);
}

// ---- sessions ----

pub proof fn lemma_resolving_extends(
    who: Identity,
    runs: Seq<Resolving>,
    answers: Seq<ResolveAnswer>,
    all: Seq<Tables>,
    k: int,
)
    requires
        resolving::resolves(who, runs, answers, all),
        0 <= k < all.len(),
    ensures
        all[k] == (Tables { projects: all[k].projects, sessions: all[k].sessions, ..all[0] }),
        forall|id: i64| #[trigger]
            all[0].sessions.contains_key(id) ==> all[k].sessions.contains_key(id)
                && all[k].sessions[id] == all[0].sessions[id],
        forall|id: i64| #[trigger]
            all[0].projects.contains_key(id) ==> all[k].projects.contains_key(id),
    decreases k,
{
    if k > 0 {
        lemma_resolving_extends(who, runs, answers, all, k - 1);
        assert(resolving::performed(who, runs[k - 1].step, answers[k - 1], all[k - 1], all[k]));
    }
}

/// Resolving a session keeps every post, at each of its steps.
pub proof fn law_resolving_keeps_posts(
    who: Identity,
    runs: Seq<Resolving>,
    answers: Seq<ResolveAnswer>,
    all: Seq<Tables>,
    post_id: i64,
    k: int,
)
    requires
        resolving::resolves(who, runs, answers, all),
        all[0].posts.contains_key(post_id),
        0 <= k < all.len(),
    ensures
        keeps_post(all[0], all[k], post_id),
{
    lemma_resolving_extends(who, runs, answers, all, k);
}

/// Raising the latest activity of a session keeps every post.
pub proof fn law_activity_keeps_posts(t: Tables, session_id: i64, at: i64, post_id: i64)
    requires
        t.posts.contains_key(post_id),
    ensures
        keeps_post(t, effects::touched(t, session_id, at), post_id),
{
}

/// A purge keeps every post whose session it does not remove.
pub proof fn law_purges_keep_other_posts(t: Tables, ids: Set<i64>, post_id: i64)
    requires
        linked(t),
        t.posts.contains_key(post_id),
        !ids.contains(t.posts[post_id].session_id),
    ensures
        keeps_post(t, tables::purged(t, ids), post_id),
{
    let after = tables::purged(t, ids);
    assert(!tables::gone_posts(t, ids).contains(post_id));
    assert forall|id: i64| #[trigger] readback::is_file(t, post_id, id) implies readback::is_file(
        after,
        post_id,
        id,
    ) && after.files[id] == t.files[id] by {
        assert(!tables::gone_files(t, ids).contains(id));
    }
    assert forall|entry_id: i64| #[trigger] readback::is_file(t, post_id, entry_id) implies
        keeps_assets(t, after, entry_id) by {
        assert forall|id: i64| #[trigger] readback::is_asset(t, entry_id, id) implies
            readback::is_asset(after, entry_id, id) && after.assets[id] == t.assets[id] by {
            assert(t.assets[id].post_id == post_id);
            assert(!tables::gone_assets(t, ids).contains(id));
        }
    }
    assert forall|id: i64| #[trigger] is_reference(t, post_id, id) implies is_reference(
        after,
        post_id,
        id,
    ) && after.references[id] == t.references[id] by {
        assert(!tables::gone_references(t, ids).contains(id));
    }
}

// ---- the tables' references ----

#[verifier::rlimit(60)]
proof fn lemma_step_linked(
    p: Publication,
    plan: PublishPlan,
    first: World,
    s: PublishState,
    answer: PublishAnswer,
    w: World,
)
    requires
        effects::is_planned(p, plan),
        linked(first.tables),
        publishing::consistent(plan, s),
        effects::answered(p, s, answer, w),
        readback::goes_well(p, plan, first.tables, s, w.tables),
        linked(w.tables),
    ensures
        linked(effects::effect(p, first, s, answer, w).tables),
{
    let t = w.tables;
    let now = effects::effect(p, first, s, answer, w).tables;
    let files = p.request.files@;
    match (s.step, answer) {
        (PublishStep::ReferFile { file, .. }, PublishAnswer::Id(id)) => {
            readback::lemma_file_occurs(files, file as int);
            readback::lemma_record_sized(t, s, plan.occurrences, files[file as int].blob.record);
        },
        (PublishStep::ReferAsset { file, asset, .. }, PublishAnswer::Id(id)) => {
            assert(files[file as int].support_assets.len() == plan.asset_counts[file as int]);
            readback::lemma_file_occurs(files, file as int);
            readback::lemma_record_sized(
                t,
                s,
                plan.occurrences,
                files[file as int].support_assets@[asset as int].blob.record,
            );
        },
        (PublishStep::Touch { session_id, .. }, PublishAnswer::Done) => {
            assert(now.sessions.dom() =~= t.sessions.dom());
        },
        _ => {},
    }
}

/// Where the tables' references are in order, they are so at each step of a publication.
pub proof fn law_publications_keep_references_in_order(
    p: Publication,
    plan: PublishPlan,
    states: Seq<PublishState>,
    answers: Seq<PublishAnswer>,
    worlds: Seq<World>,
    k: int,
)
    requires
        effects::publishes(p, plan, states, answers, worlds),
        linked(worlds[0].tables),
        0 <= k < worlds.len(),
    ensures
        linked(worlds[k].tables),
    decreases k,
{
    if k > 0 {
        law_publications_keep_references_in_order(p, plan, states, answers, worlds, k - 1);
        lemma_linked(worlds[0].tables);
        readback::lemma_goes_well(p, plan, states, answers, worlds, k - 1);
        assert(publishing::consistent(plan, states[k - 1]));
        assert(publishing::answers(states[k - 1].step, answers[k - 1]));
        lemma_step_linked(p, plan, worlds[0], states[k - 1], answers[k - 1], worlds[k - 1]);
    }
}

/// Where the tables' references are in order, they are so after a purge.
pub proof fn law_purges_keep_references_in_order(t: Tables, ids: Set<i64>)
    requires
        linked(t),
    ensures
        linked(tables::purged(t, ids)),
{
    let after = tables::purged(t, ids);
    assert forall|id: i64| #[trigger] after.sessions.contains_key(id) implies
        after.projects.contains_key(after.sessions[id].project_id) by {
        assert(t.sessions.contains_key(id) && !ids.contains(id));
        assert(tables::keeps_session(t, ids, t.sessions[id].project_id));
    }
    assert forall|id: i64| #[trigger] after.posts.contains_key(id) implies
        after.sessions.contains_key(after.posts[id].session_id) by {
        assert(t.posts.contains_key(id) && !tables::gone_posts(t, ids).contains(id));
    }
    assert forall|id: i64| #[trigger] after.references.contains_key(id) implies
        after.posts.contains_key(after.references[id].post_id) && after.blobs.contains_key(
        after.references[id].hash,
    ) by {
        assert(t.references.contains_key(id) && !tables::gone_references(t, ids).contains(id));
    }
    assert forall|id: i64| #[trigger] after.files.contains_key(id) implies is_reference(
        after,
        after.files[id].post_id,
        after.files[id].reference_id,
    ) by {
        assert(t.files.contains_key(id) && !tables::gone_files(t, ids).contains(id));
        assert(t.references.contains_key(t.files[id].reference_id));
    }
    assert forall|id: i64| #[trigger] after.assets.contains_key(id) implies {
        &&& readback::is_file(after, after.assets[id].post_id, after.assets[id].entry_id)
        &&& is_reference(after, after.assets[id].post_id, after.assets[id].reference_id)
    } by {
        assert(t.assets.contains_key(id) && !tables::gone_assets(t, ids).contains(id));
        assert(t.files.contains_key(t.assets[id].entry_id));
        assert(t.references.contains_key(t.assets[id].reference_id));
    }
}

// ---- the files of blobs ----

/// Whether every blob that a post refers to has its file.
pub open spec fn files_are_there(w: World) -> bool {
    forall|id: i64| #[trigger]
        w.tables.references.contains_key(id) ==> w.files.contains(w.tables.references[id].hash)
}

/// Whether the first `n` blobs of a publication have their files.
pub open spec fn is_filed(s: PublishState, w: World, n: int) -> bool {
    forall|i: int| 0 <= i < n ==> w.files.contains(#[trigger] effects::hash_of(s, i))
}

/// What holds of the files at every step of a publication that has not failed.
pub open spec fn files_go_well(first: World, s: PublishState, w: World) -> bool {
    let all = s.blobs.len() as int;
    match s.step {
        PublishStep::AskTransaction | PublishStep::Unlink { .. } | PublishStep::RollBack => true,
        PublishStep::Finished => s.outcome matches Some(Ok(_)) ==> files_are_there(w)
            && first.files.subset_of(w.files),
        _ => {
            &&& files_are_there(w)
            &&& first.files.subset_of(w.files)
            &&& match s.step {
                PublishStep::CheckRecorded { blob, .. } | PublishStep::MarkFinalizing {
                    blob,
                    ..
                } | PublishStep::Record { blob, .. } | PublishStep::Unqueue { blob, .. }
                | PublishStep::Link { blob, .. } => is_filed(s, w, blob as int),
                PublishStep::SyncLink { blob, .. } | PublishStep::VerifyLink { blob, .. } => {
                    is_filed(s, w, blob + 1)
                },
                PublishStep::FindSession | PublishStep::FindPredecessor { .. }
                | PublishStep::Measure { .. } | PublishStep::LookUp { .. } => true,
                _ => is_filed(s, w, all),
            }
        },
    }
}

proof fn lemma_record_filed(
    s: PublishState,
    w: World,
    blobs: Seq<BlobRecord>,
    record: BlobRecord,
)
    requires
        is_filed(s, w, s.blobs.len() as int),
        publication::distinct(blobs) == Some(s.blobs),
        blobs.contains(record),
    ensures
        w.files.contains(record@.0),
{
    let i = choose|i: int| 0 <= i < blobs.len() && blobs[i] == record;
    readback::lemma_occurs(blobs, i);
    let k = choose|k: int|
        0 <= k < publication::distinct(blobs)->0.len() && (#[trigger] (publication::distinct(
            blobs,
        )->0)[k])@ == blobs[i]@;
    assert(s.blobs[k]@ == record@);
    assert(w.files.contains(effects::hash_of(s, k)));
}

proof fn lemma_still_filed(s: PublishState, next: PublishState, w: World, after: World, n: int)
    requires
        is_filed(s, w, n),
        next.blobs == s.blobs,
        w.files.subset_of(after.files),
    ensures
        is_filed(next, after, n),
{
    assert forall|i: int| 0 <= i < n implies after.files.contains(
        #[trigger] effects::hash_of(next, i),
    ) by {
        assert(w.files.contains(effects::hash_of(s, i)));
    }
}

#[verifier::rlimit(60)]
proof fn lemma_step_files(
    p: Publication,
    plan: PublishPlan,
    first: World,
    s: PublishState,
    answer: PublishAnswer,
    next: PublishState,
    w: World,
)
    requires
        effects::is_planned(p, plan),
        publishing::consistent(plan, s),
        s.blobs.len() <= usize::MAX,
        publishing::answers(s.step, answer),
        publishing::follows(plan, s, answer, next),
        effects::answered(p, s, answer, w),
        readback::goes_well(p, plan, first.tables, s, w.tables),
        files_go_well(first, s, w),
    ensures
        files_go_well(first, next, effects::effect(p, first, s, answer, w)),
{
    let t = w.tables;
    let after = effects::effect(p, first, s, answer, w);
    let files = p.request.files@;
    let all = s.blobs.len() as int;
    match (s.step, answer) {
        (PublishStep::CheckRecorded { blob, .. }, PublishAnswer::Flag(_)) => {
            lemma_still_filed(s, next, w, after, blob as int);
        },
        (PublishStep::MarkFinalizing { blob, .. }, PublishAnswer::Done) => {
            if next.step is Record {
                lemma_still_filed(s, next, w, after, blob as int);
            }
        },
        (PublishStep::Record { blob, .. }, PublishAnswer::Done) => {
            lemma_still_filed(s, next, w, after, blob as int);
        },
        (PublishStep::Unqueue { blob, .. }, PublishAnswer::Done) => {
            lemma_still_filed(s, next, w, after, blob as int);
        },
        (PublishStep::Link { blob, .. }, PublishAnswer::Flag(_)) => {
            lemma_still_filed(s, next, w, after, blob as int);
            assert(after.files.contains(effects::hash_of(next, blob as int)));
        },
        (PublishStep::SyncLink { blob, .. }, PublishAnswer::Done) => {
            lemma_still_filed(s, next, w, after, blob + 1);
        },
        (PublishStep::VerifyLink { blob, .. }, PublishAnswer::Done) => {
            lemma_still_filed(s, next, w, after, blob + 1);
        },
        (PublishStep::InsertPost { .. }, PublishAnswer::Id(_)) => {
            lemma_still_filed(s, next, w, after, all);
        },
        (PublishStep::ReferFile { file, .. }, PublishAnswer::Id(_)) => {
            lemma_still_filed(s, next, w, after, all);
            readback::lemma_file_occurs(files, file as int);
            lemma_record_filed(s, w, plan.occurrences, files[file as int].blob.record);
        },
        (PublishStep::InsertFile { .. }, PublishAnswer::Id(_)) => {
            lemma_still_filed(s, next, w, after, all);
        },
        (PublishStep::ReferAsset { file, asset, .. }, PublishAnswer::Id(_)) => {
            lemma_still_filed(s, next, w, after, all);
            assert(files[file as int].support_assets.len() == plan.asset_counts[file as int]);
            readback::lemma_file_occurs(files, file as int);
            lemma_record_filed(
                s,
                w,
                plan.occurrences,
                files[file as int].support_assets@[asset as int].blob.record,
            );
        },
        (PublishStep::InsertAsset { .. }, PublishAnswer::Id(_)) => {
            lemma_still_filed(s, next, w, after, all);
        },
        (PublishStep::Touch { .. }, PublishAnswer::Done) => {
            lemma_still_filed(s, next, w, after, all);
        },
        _ => {},
    }
}

proof fn lemma_files_go_well(
    p: Publication,
    plan: PublishPlan,
    states: Seq<PublishState>,
    answers: Seq<PublishAnswer>,
    worlds: Seq<World>,
    k: int,
)
    requires
        effects::publishes(p, plan, states, answers, worlds),
        readback::owners_are_there(worlds[0].tables),
        files_are_there(worlds[0]),
        0 <= k < worlds.len(),
    ensures
        files_go_well(worlds[0], states[k], worlds[k]),
    decreases k,
{
    if k > 0 {
        lemma_files_go_well(p, plan, states, answers, worlds, k - 1);
        readback::lemma_goes_well(p, plan, states, answers, worlds, k - 1);
        assert(publishing::consistent(plan, states[k - 1]));
        assert(publishing::answers(states[k - 1].step, answers[k - 1]));
        lemma_step_files(
            p,
            plan,
            worlds[0],
            states[k - 1],
            answers[k - 1],
            states[k],
            worlds[k - 1],
        );
    }
}

/// Where every blob that a post refers to has its file, a publication that succeeds, or fails and is
/// undone, leaves it so: the blobs of the new post have their files, and no file is gone.
pub proof fn law_published_blobs_have_files(
    p: Publication,
    plan: PublishPlan,
    states: Seq<PublishState>,
    answers: Seq<PublishAnswer>,
    worlds: Seq<World>,
)
    requires
        effects::publishes(p, plan, states, answers, worlds),
        readback::owners_are_there(worlds[0].tables),
        files_are_there(worlds[0]),
        match states.last().outcome {
            Some(Ok(_)) => true,
            Some(Err(_)) => effects::undoes_well(states, answers),
            None => false,
        },
    ensures
        files_are_there(worlds.last()),
        worlds[0].files.subset_of(worlds.last().files),
{
    let end = worlds.len() - 1;
    lemma_files_go_well(p, plan, states, answers, worlds, end);
    assert(publishing::consistent(plan, states[end]));
    if states.last().outcome matches Some(Err(_)) {
        effects::law_failed_publications_leave_nothing(p, plan, states, answers, worlds);
    }
}

} // verus!
