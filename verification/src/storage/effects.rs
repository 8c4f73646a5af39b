//! What a publication does to the rows and the blob files, where every step does what it says; and
//! what is left of it where it fails.
use vstd::prelude::*;
use crate::storage::classification::FileClassification;
use crate::storage::publication::PublicationRequest;
use crate::storage::publishing;
use crate::storage::publishing::{PublishAnswer, PublishPlan, PublishState, PublishStep};
use crate::storage::read;
use crate::storage::tables;
use crate::storage::tables::{AssetRow, FileRow, PostRow, ReferenceRow, SessionRow, Tables};
use crate::text;

verus! {

/// The tables, and the digests of the blob files that are there.
#[verifier::ext_equal]
pub struct World {
    pub tables: Tables,
    pub files: Set<Seq<char>>,
}

/// The world with other tables.
pub open spec fn with_tables(w: World, tables: Tables) -> World {
    World { tables, ..w }
}

/// What is published: the request, the class of each of its files, and when.
pub struct Publication {
    pub request: PublicationRequest,
    pub classes: Seq<FileClassification>,
    pub published_at: i64,
}

/// The row of the post.
pub open spec fn post_row(p: Publication, session_id: i64) -> PostRow {
    PostRow {
        session_id,
        title: p.request.title@,
        commentary: p.request.commentary@,
        predecessor_post_id: p.request.predecessor_post_id,
        published_at: p.published_at,
        git: read::git_parts(p.request.git),
    }
}

/// The row of the file at a place.
pub open spec fn file_row(p: Publication, post_id: i64, position: int, reference_id: i64) -> FileRow {
    let file = p.request.files@[position];
    FileRow {
        post_id,
        reference_id,
        position,
        filename: file.filename@,
        caption: text::optional(file.caption),
        media_type: p.classes[position].media_type@,
        renderer: read::renderer_text(p.classes[position].renderer),
    }
}

/// The row of a support asset at a place of a file.
pub open spec fn asset_row(
    p: Publication,
    post_id: i64,
    entry_id: i64,
    file: int,
    position: int,
    reference_id: i64,
) -> AssetRow {
    AssetRow {
        post_id,
        entry_id,
        reference_id,
        position,
        relative_path: p.request.files@[file].support_assets@[position].relative_path@,
    }
}

/// The digest of the blob with a number.
pub open spec fn hash_of(s: PublishState, blob: int) -> Seq<char> {
    s.blobs[blob]@.0
}

/// The digest of the blob of a new link.
pub open spec fn link_hash(s: PublishState, link: int) -> Seq<char> {
    hash_of(s, s.links[link] as int)
}

/// Whether the size is the recorded one.
pub open spec fn is_recorded(t: Tables, hash: Seq<char>, found: Option<i64>) -> bool {
    match found {
        Some(size) => t.blobs.contains_key(hash) && t.blobs[hash] == size,
        None => !t.blobs.contains_key(hash),
    }
}

/// The tables with the session's latest activity raised to the time of publication.
pub open spec fn touched(t: Tables, session_id: i64, at: i64) -> Tables {
    if t.sessions.contains_key(session_id) && t.sessions[session_id].last_activity_at < at {
        Tables {
            sessions: t.sessions.insert(
                session_id,
                SessionRow { last_activity_at: at, ..t.sessions[session_id] },
            ),
            ..t
        }
    } else {
        t
    }
}

/// Whether a step that looks at the tables or the files was answered as they are.
pub open spec fn answered(
    p: Publication,
    s: PublishState,
    answer: PublishAnswer,
    w: World,
) -> bool {
    let t = w.tables;
    match (s.step, answer) {
        (PublishStep::FindSession, PublishAnswer::Found(Some(id))) => tables::is_session(
            t,
            id,
            p.request.session_public_id@,
        ),
        (PublishStep::FindSession, PublishAnswer::Found(None)) => tables::session_named(
            t,
            p.request.session_public_id@,
        ) is None,
        (PublishStep::FindPredecessor { post_id, .. }, PublishAnswer::Found(Some(session_id))) => {
            t.posts.contains_key(post_id) && t.posts[post_id].session_id == session_id
        },
        (PublishStep::FindPredecessor { post_id, .. }, PublishAnswer::Found(None)) => {
            !t.posts.contains_key(post_id)
        },
        (PublishStep::LookUp { blob, .. }, PublishAnswer::Found(size)) => is_recorded(
            t,
            hash_of(s, blob as int),
            size,
        ),
        (PublishStep::CheckRecorded { blob, .. }, PublishAnswer::Flag(recorded)) => recorded
            == t.blobs.contains_key(hash_of(s, blob as int)),
        (PublishStep::Link { blob, .. }, PublishAnswer::Flag(new)) => new == !w.files.contains(
            hash_of(s, blob as int),
        ),
        (PublishStep::InsertPost { .. }, PublishAnswer::Id(id)) => !t.posts.contains_key(id),
        (PublishStep::ReferFile { .. }, PublishAnswer::Id(id)) => !t.references.contains_key(id),
        (PublishStep::InsertFile { .. }, PublishAnswer::Id(id)) => !t.files.contains_key(id),
        (PublishStep::ReferAsset { .. }, PublishAnswer::Id(id)) => !t.references.contains_key(id),
        (PublishStep::InsertAsset { .. }, PublishAnswer::Id(id)) => !t.assets.contains_key(id),
        _ => true,
    }
}

/// The world after a step: what the step says that it does, and nothing where it failed. `first`
/// is the world when the transaction began.
pub open spec fn effect(
    p: Publication,
    first: World,
    s: PublishState,
    answer: PublishAnswer,
    w: World,
) -> World {
    let t = w.tables;
    match (s.step, answer) {
        (PublishStep::Record { blob, byte_size, .. }, PublishAnswer::Done) => with_tables(
            w,
            Tables { blobs: t.blobs.insert(hash_of(s, blob as int), byte_size as int), ..t },
        ),
        (PublishStep::Unqueue { blob, .. }, PublishAnswer::Done) => with_tables(
            w,
            Tables { queue: t.queue.remove(hash_of(s, blob as int)), ..t },
        ),
        (PublishStep::Link { blob, .. }, PublishAnswer::Flag(new)) => if new {
            World { files: w.files.insert(hash_of(s, blob as int)), ..w }
        } else {
            w
        },
        (PublishStep::InsertPost { session_id }, PublishAnswer::Id(id)) => with_tables(
            w,
            Tables { posts: t.posts.insert(id, post_row(p, session_id)), ..t },
        ),
        (PublishStep::ReferFile { post_id, file, .. }, PublishAnswer::Id(id)) => with_tables(
            w,
            Tables {
                references: t.references.insert(
                    id,
                    ReferenceRow {
                        post_id,
                        hash: p.request.files@[file as int].blob.record@.0,
                    },
                ),
                ..t
            },
        ),
        (
            PublishStep::InsertFile { post_id, file, reference_id, .. },
            PublishAnswer::Id(id),
        ) => with_tables(
            w,
            Tables {
                files: t.files.insert(id, file_row(p, post_id, file as int, reference_id)),
                ..t
            },
        ),
        (PublishStep::ReferAsset { post_id, file, asset, .. }, PublishAnswer::Id(id)) => {
            with_tables(
                w,
                Tables {
                    references: t.references.insert(
                        id,
                        ReferenceRow {
                            post_id,
                            hash: p.request.files@[file as int].support_assets@[asset as int]
                                .blob.record@.0,
                        },
                    ),
                    ..t
                },
            )
        },
        (
            PublishStep::InsertAsset { post_id, file, entry_id, asset, reference_id, .. },
            PublishAnswer::Id(id),
        ) => with_tables(
            w,
            Tables {
                assets: t.assets.insert(
                    id,
                    asset_row(p, post_id, entry_id, file as int, asset as int, reference_id),
                ),
                ..t
            },
        ),
        (PublishStep::Touch { session_id, .. }, PublishAnswer::Done) => with_tables(
            w,
            touched(t, session_id, p.published_at),
        ),
        (PublishStep::Unlink { link }, PublishAnswer::Done) => World {
            files: w.files.remove(link_hash(s, link as int)),
            ..w
        },
        (PublishStep::RollBack, PublishAnswer::Done) => with_tables(w, first.tables),
        _ => w,
    }
}

/// Whether the plan is that of the publication.
pub open spec fn is_planned(p: Publication, plan: PublishPlan) -> bool {
    &&& plan.session_public_id@ == p.request.session_public_id@
    &&& plan.predecessor_post_id == p.request.predecessor_post_id
    &&& plan.published_at == p.published_at
    &&& plan.occurrences == crate::storage::publication::file_blobs(p.request.files@)
    &&& plan.asset_counts == p.request.files@.map_values(
        |file: crate::storage::publication::PublicationFile|
            file.support_assets@.len() as usize,
    )
    &&& p.classes.len() == p.request.files@.len()
    &&& p.request.files@.len() <= usize::MAX
}

/// Whether these are the states, the answers and the worlds of one publication, step by step.
pub open spec fn publishes(
    p: Publication,
    plan: PublishPlan,
    states: Seq<PublishState>,
    answers: Seq<PublishAnswer>,
    worlds: Seq<World>,
) -> bool {
    &&& is_planned(p, plan)
    &&& states.len() == answers.len() + 1
    &&& worlds.len() == states.len()
    &&& states[0] == publishing::first_state()
    &&& forall|k: int|
        0 <= k < states.len() ==> {
            &&& publishing::consistent(plan, #[trigger] states[k])
            &&& states[k].blobs.len() <= usize::MAX
            &&& states[k].links.len() <= usize::MAX
        }
    &&& forall|k: int|
        0 <= k < answers.len() ==> {
            &&& publishing::answers(states[k].step, #[trigger] answers[k])
            &&& publishing::follows(plan, states[k], answers[k], states[k + 1])
            &&& answered(p, states[k], answers[k], worlds[k])
            &&& worlds[k + 1] == effect(p, worlds[0], states[k], answers[k], worlds[k])
        }
}

// ---- a publication that fails ----

/// Whether undoing goes well: the transaction is still open, and no step of undoing fails.
pub open spec fn undoes_well(states: Seq<PublishState>, answers: Seq<PublishAnswer>) -> bool {
    forall|k: int|
        0 <= k < answers.len() ==> {
            &&& states[k].step is AskTransaction ==> (#[trigger] answers[k]) == PublishAnswer::Flag(
                true,
            )
            &&& states[k].step is Unlink || states[k].step is RollBack ==> answers[k] is Done
        }
}

/// The digests of the new links from number `from` on.
pub open spec fn linked_from(s: PublishState, from: int) -> Set<Seq<char>> {
    Set::new(|hash: Seq<char>| exists|i: int| from <= i < s.links.len() && link_hash(s, i) == hash)
}

/// Whether every new link made a file that was not there before, and no two the same.
pub open spec fn links_are_new(first: World, s: PublishState) -> bool {
    &&& forall|i: int|
        0 <= i < s.links.len() ==> !first.files.contains(#[trigger] link_hash(s, i))
    &&& forall|i: int, j: int|
        0 <= i < j < s.links.len() ==> #[trigger] link_hash(s, i) != #[trigger] link_hash(s, j)
}

/// The number of the first new link whose file is still there.
pub open spec fn still_linked(s: PublishState) -> int {
    match s.step {
        PublishStep::Unlink { link } => link as int,
        PublishStep::RollBack => s.links.len() as int,
        _ => 0,
    }
}

/// What holds of the files at every step of a publication: those that were there, and those of the
/// links that it made and did not undo. A failed one that is over left the world as it was.
pub open spec fn can_be_undone(first: World, s: PublishState, w: World) -> bool {
    &&& links_are_new(first, s)
    &&& s.step is Finished ==> (s.outcome matches Some(Err(_)) ==> w == first)
    &&& !(s.step is Finished) ==> w.files == first.files.union(linked_from(s, still_linked(s)))
}

proof fn lemma_more_links(s: PublishState, next: PublishState, blob: usize)
    requires
        next.links == s.links.push(blob),
        next.blobs == s.blobs,
    ensures
        linked_from(next, 0) == linked_from(s, 0).insert(hash_of(s, blob as int)),
        forall|i: int| 0 <= i < s.links.len() ==> link_hash(next, i) == #[trigger] link_hash(s, i),
        link_hash(next, s.links.len() as int) == hash_of(s, blob as int),
{
    assert forall|hash: Seq<char>|
        linked_from(next, 0).contains(hash) <==> linked_from(s, 0).insert(
            hash_of(s, blob as int),
        ).contains(hash) by {
        if linked_from(next, 0).contains(hash) {
            let i = choose|i: int| 0 <= i < next.links.len() && link_hash(next, i) == hash;
            if i < s.links.len() {
                assert(link_hash(s, i) == hash);
            }
        }
        if linked_from(s, 0).contains(hash) {
            let i = choose|i: int| 0 <= i < s.links.len() && link_hash(s, i) == hash;
            assert(link_hash(next, i) == hash);
        }
        assert(link_hash(next, s.links.len() as int) == hash_of(s, blob as int));
    }
    assert(linked_from(next, 0) =~= linked_from(s, 0).insert(hash_of(s, blob as int)));
}

proof fn lemma_fewer_links(first: World, s: PublishState, link: int)
    requires
        links_are_new(first, s),
        0 <= link < s.links.len(),
    ensures
        first.files.union(linked_from(s, link)).remove(link_hash(s, link)) == first.files.union(
            linked_from(s, link + 1),
        ),
{
    let before = first.files.union(linked_from(s, link)).remove(link_hash(s, link));
    let after = first.files.union(linked_from(s, link + 1));
    assert forall|hash: Seq<char>| before.contains(hash) <==> after.contains(hash) by {
        if linked_from(s, link).contains(hash) && hash != link_hash(s, link) {
            let i = choose|i: int| link <= i < s.links.len() && link_hash(s, i) == hash;
            assert(link + 1 <= i < s.links.len() && link_hash(s, i) == hash);
        }
        if linked_from(s, link + 1).contains(hash) {
            let i = choose|i: int| link + 1 <= i < s.links.len() && link_hash(s, i) == hash;
            assert(link <= i < s.links.len() && link_hash(s, i) == hash);
            assert(link_hash(s, link) != link_hash(s, i));
        }
        assert(!first.files.contains(link_hash(s, link)));
    }
    assert(before =~= after);
}

proof fn lemma_same_links(first: World, s: PublishState, next: PublishState)
    requires
        next.links == s.links,
        next.blobs == s.blobs || s.links.len() == 0,
    ensures
        links_are_new(first, s) ==> links_are_new(first, next),
        forall|from: int| 0 <= from ==> #[trigger] linked_from(next, from) == linked_from(s, from),
{
    assert forall|i: int| 0 <= i < s.links.len() implies link_hash(next, i) == #[trigger] link_hash(
        s,
        i,
    ) by {}
    if links_are_new(first, s) {
        assert forall|i: int| 0 <= i < next.links.len() implies !first.files.contains(
            #[trigger] link_hash(next, i),
        ) by {
            assert(link_hash(next, i) == link_hash(s, i));
        }
        assert forall|i: int, j: int| 0 <= i < j < next.links.len() implies #[trigger] link_hash(
            next,
            i,
        ) != #[trigger] link_hash(next, j) by {
            assert(link_hash(next, i) == link_hash(s, i));
            assert(link_hash(next, j) == link_hash(s, j));
        }
    }
    assert forall|from: int| 0 <= from implies #[trigger] linked_from(next, from) == linked_from(
        s,
        from,
    ) by {
        assert forall|hash: Seq<char>|
            linked_from(next, from).contains(hash) <==> linked_from(s, from).contains(hash) by {
            if linked_from(next, from).contains(hash) {
                let i = choose|i: int| from <= i < next.links.len() && link_hash(next, i) == hash;
                assert(link_hash(s, i) == hash);
            }
            if linked_from(s, from).contains(hash) {
                let i = choose|i: int| from <= i < s.links.len() && link_hash(s, i) == hash;
                assert(link_hash(next, i) == hash);
            }
        }
        assert(linked_from(next, from) =~= linked_from(s, from));
    }
}

#[verifier::rlimit(40)]
proof fn lemma_undoable(
    p: Publication,
    plan: PublishPlan,
    first: World,
    s: PublishState,
    answer: PublishAnswer,
    next: PublishState,
    w: World,
)
    requires
        publishing::consistent(plan, s),
        s.blobs.len() <= usize::MAX,
        s.links.len() <= usize::MAX,
        publishing::answers(s.step, answer),
        publishing::follows(plan, s, answer, next),
        answered(p, s, answer, w),
        can_be_undone(first, s, w),
        s.step is AskTransaction ==> answer == PublishAnswer::Flag(true),
        s.step is Unlink || s.step is RollBack ==> answer is Done,
    ensures
        can_be_undone(first, next, effect(p, first, s, answer, w)),
{
    let after = effect(p, first, s, answer, w);
    match (s.step, answer) {
        (PublishStep::Link { blob, .. }, PublishAnswer::Flag(new)) => {
            if new {
                lemma_more_links(s, next, blob);
                assert(!linked_from(s, 0).contains(hash_of(s, blob as int)));
                assert forall|i: int| 0 <= i < next.links.len() implies !first.files.contains(
                    #[trigger] link_hash(next, i),
                ) by {
                    if i < s.links.len() {
                        assert(link_hash(next, i) == link_hash(s, i));
                    }
                }
                assert forall|i: int, j: int| 0 <= i < j < next.links.len() implies
                    #[trigger] link_hash(next, i) != #[trigger] link_hash(next, j) by {
                    assert(link_hash(next, i) == link_hash(s, i));
                    if j < s.links.len() {
                        assert(link_hash(next, j) == link_hash(s, j));
                    } else {
                        assert(linked_from(s, 0).contains(link_hash(s, i)));
                    }
                }
                assert(after.files =~= first.files.union(linked_from(next, 0)));
            } else {
                lemma_same_links(first, s, next);
            }
        },
        (PublishStep::Unlink { link }, PublishAnswer::Done) => {
            lemma_fewer_links(first, s, link as int);
            lemma_same_links(first, s, next);
        },
        (PublishStep::RollBack, PublishAnswer::Done) => {
            lemma_same_links(first, s, next);
            assert(linked_from(s, s.links.len() as int) =~= Set::<Seq<char>>::empty());
            assert(after.files =~= first.files);
            assert(after =~= first);
        },
        _ => {
            assert(next.links == s.links);
            lemma_same_links(first, s, next);
        },
    }
}

proof fn lemma_all_undoable(
    p: Publication,
    plan: PublishPlan,
    states: Seq<PublishState>,
    answers: Seq<PublishAnswer>,
    worlds: Seq<World>,
    k: int,
)
    requires
        publishes(p, plan, states, answers, worlds),
        undoes_well(states, answers),
        0 <= k < states.len(),
    ensures
        can_be_undone(worlds[0], states[k], worlds[k]),
    decreases k,
{
    if k > 0 {
        lemma_all_undoable(p, plan, states, answers, worlds, k - 1);
        assert(publishing::consistent(plan, states[k - 1]));
        assert(publishing::answers(states[k - 1].step, answers[k - 1]));
        lemma_undoable(
            p,
            plan,
            worlds[0],
            states[k - 1],
            answers[k - 1],
            states[k],
            worlds[k - 1],
        );
    } else {
        assert(linked_from(states[0], 0) =~= Set::<Seq<char>>::empty());
        assert(worlds[0].files =~= worlds[0].files.union(linked_from(states[0], 0)));
    }
}

/// A publication that fails, and whose undoing goes well, leaves every row and every blob file as
/// it was: no row is changed, no file that was there is gone, and no file that it linked remains.
pub proof fn law_failed_publications_leave_nothing(
    p: Publication,
    plan: PublishPlan,
    states: Seq<PublishState>,
    answers: Seq<PublishAnswer>,
    worlds: Seq<World>,
)
    requires
        publishes(p, plan, states, answers, worlds),
        undoes_well(states, answers),
        states.last().outcome matches Some(Err(_)),
    ensures
        worlds.last() == worlds[0],
{
    lemma_all_undoable(p, plan, states, answers, worlds, states.len() - 1);
    assert(publishing::consistent(plan, states[states.len() - 1]));
}

} // verus!
