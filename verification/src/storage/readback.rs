//! What a publication that succeeds leaves in the tables, and that the post reads back from them.
use vstd::prelude::*;
use crate::storage::blob::BlobRecord;
use crate::storage::effects;
use crate::storage::effects::{Publication, World};
use crate::storage::error::StoreError;
use crate::storage::permanence;
use crate::storage::publication;
use crate::storage::publication::{PostRecord, PublicationFile};
use crate::storage::publishing;
use crate::storage::publishing::{PublishAnswer, PublishPlan, PublishState, PublishStep};
use crate::storage::read;
use crate::storage::read::{PostRead, RawAsset, RawFile, RawPost};
use crate::storage::rows;
use crate::storage::tables;
use crate::storage::tables::{ReferenceRow, Tables};
use crate::text;

verus! {

/// What the tables' references keep: the post of every file and the file of every support asset is
/// there.
pub open spec fn owners_are_there(t: Tables) -> bool {
    &&& forall|id: i64| #[trigger]
        t.files.contains_key(id) ==> t.posts.contains_key(t.files[id].post_id)
    &&& forall|id: i64| #[trigger]
        t.assets.contains_key(id) ==> t.files.contains_key(t.assets[id].entry_id)
}

/// Whether the blob with the number is recorded with its size.
pub open spec fn is_sized(t: Tables, s: PublishState, blob: int) -> bool {
    &&& t.blobs.contains_key(effects::hash_of(s, blob))
    &&& t.blobs[effects::hash_of(s, blob)] == s.blobs[blob]@.1
}

/// Whether the blob with the number is not recorded with another size.
pub open spec fn agrees(t: Tables, s: PublishState, blob: int) -> bool {
    t.blobs.contains_key(effects::hash_of(s, blob)) ==> is_sized(t, s, blob)
}

/// Whether the tables differ at most by blobs and the deletion queue.
pub open spec fn rows_are_same(first: Tables, t: Tables) -> bool {
    t == (Tables { blobs: t.blobs, queue: t.queue, ..first })
}

/// Whether the blob reference of the post is there.
pub open spec fn refers(t: Tables, id: i64, post_id: i64, hash: Seq<char>) -> bool {
    t.references.contains_key(id) && t.references[id] == (ReferenceRow { post_id, hash })
}

/// Whether the row is a file of the post.
pub open spec fn is_file(t: Tables, post_id: i64, id: i64) -> bool {
    t.files.contains_key(id) && t.files[id].post_id == post_id
}

/// Whether the row is the file of the post at the place.
pub open spec fn is_file_at(t: Tables, post_id: i64, position: int, id: i64) -> bool {
    is_file(t, post_id, id) && t.files[id].position == position
}

/// Whether the post has a file at the place.
pub open spec fn has_file_at(t: Tables, post_id: i64, position: int) -> bool {
    exists|id: i64| is_file_at(t, post_id, position, id)
}

/// Whether the row of a file holds what was requested at its place, among the first `n`.
pub open spec fn file_holds(p: Publication, t: Tables, post_id: i64, n: int, id: i64) -> bool {
    let row = t.files[id];
    &&& 0 <= row.position < n
    &&& row == effects::file_row(p, post_id, row.position, row.reference_id)
    &&& refers(t, row.reference_id, post_id, p.request.files@[row.position].blob.record@.0)
}

/// Whether the files of the post are the first `n` of the request, each at its place.
pub open spec fn files_written(p: Publication, t: Tables, post_id: i64, n: int) -> bool {
    &&& forall|id: i64| #[trigger] is_file(t, post_id, id) ==> file_holds(p, t, post_id, n, id)
    &&& forall|a: i64, b: i64| #[trigger]
        is_file(t, post_id, a) && #[trigger] is_file(t, post_id, b) && t.files[a].position
            == t.files[b].position ==> a == b
    &&& forall|i: int|
        0 <= i < n ==> #[trigger] has_file_at(t, post_id, i)
}

/// Whether the row is a support asset of the file.
pub open spec fn is_asset(t: Tables, entry_id: i64, id: i64) -> bool {
    t.assets.contains_key(id) && t.assets[id].entry_id == entry_id
}

/// Whether the row is the support asset of the file at the place.
pub open spec fn is_asset_at(t: Tables, entry_id: i64, position: int, id: i64) -> bool {
    is_asset(t, entry_id, id) && t.assets[id].position == position
}

/// Whether the file has a support asset at the place.
pub open spec fn has_asset_at(t: Tables, entry_id: i64, position: int) -> bool {
    exists|id: i64| is_asset_at(t, entry_id, position, id)
}

/// Whether the row of a support asset holds what was requested at its place, among the first `m`.
pub open spec fn asset_holds(
    p: Publication,
    t: Tables,
    post_id: i64,
    entry_id: i64,
    file: int,
    m: int,
    id: i64,
) -> bool {
    let row = t.assets[id];
    &&& 0 <= row.position < m
    &&& row == effects::asset_row(p, post_id, entry_id, file, row.position, row.reference_id)
    &&& refers(
        t,
        row.reference_id,
        post_id,
        p.request.files@[file].support_assets@[row.position].blob.record@.0,
    )
}

/// Whether the support assets of a file are the first `m` of the request, each at its place.
pub open spec fn assets_written(
    p: Publication,
    t: Tables,
    post_id: i64,
    entry_id: i64,
    file: int,
    m: int,
) -> bool {
    &&& forall|id: i64| #[trigger]
        is_asset(t, entry_id, id) ==> asset_holds(p, t, post_id, entry_id, file, m, id)
    &&& forall|a: i64, b: i64| #[trigger]
        is_asset(t, entry_id, a) && #[trigger] is_asset(t, entry_id, b) && t.assets[a].position
            == t.assets[b].position ==> a == b
    &&& forall|j: int|
        0 <= j < m ==> #[trigger] has_asset_at(t, entry_id, j)
}

/// How many support assets of the file at a place are written, where those of the files before
/// `f` are, and `m` of file `f`.
pub open spec fn assets_of(p: Publication, position: int, f: int, m: int) -> int {
    if position < f {
        p.request.files@[position].support_assets@.len() as int
    } else {
        m
    }
}

/// Whether the post, its first `n` files and the support assets of these are written.
pub open spec fn is_written(
    p: Publication,
    first: Tables,
    t: Tables,
    session_id: i64,
    post_id: i64,
    n: int,
    f: int,
    m: int,
) -> bool {
    &&& !first.posts.contains_key(post_id)
    &&& t.posts == first.posts.insert(post_id, effects::post_row(p, session_id))
    &&& tables::is_session(t, session_id, p.request.session_public_id@)
    &&& files_written(p, t, post_id, n)
    &&& forall|id: i64| #[trigger]
        is_file(t, post_id, id) ==> assets_written(
            p,
            t,
            post_id,
            id,
            t.files[id].position,
            assets_of(p, t.files[id].position, f, m),
        )
    &&& forall|id: i64| #[trigger]
        t.assets.contains_key(id) ==> t.files.contains_key(t.assets[id].entry_id)
}

/// Whether all blobs of the publication are recorded with their sizes.
pub open spec fn all_sized(t: Tables, s: PublishState) -> bool {
    forall|i: int| 0 <= i < s.blobs.len() ==> #[trigger] is_sized(t, s, i)
}

/// Whether no blob of the publication is recorded with another size.
pub open spec fn all_agree(t: Tables, s: PublishState) -> bool {
    forall|i: int| 0 <= i < s.blobs.len() ==> #[trigger] agrees(t, s, i)
}

/// What holds before the post is inserted, once the blobs are known and the first `n` of them are
/// recorded.
pub open spec fn installs(
    p: Publication,
    plan: PublishPlan,
    first: Tables,
    s: PublishState,
    t: Tables,
    session_id: i64,
    n: int,
) -> bool {
    &&& rows_are_same(first, t)
    &&& publication::distinct(plan.occurrences) == Some(s.blobs)
    &&& tables::is_session(t, session_id, p.request.session_public_id@)
    &&& all_agree(t, s)
    &&& forall|i: int| 0 <= i < n ==> #[trigger] is_sized(t, s, i)
}

/// What holds once the post is inserted.
pub open spec fn writes(
    p: Publication,
    plan: PublishPlan,
    first: Tables,
    s: PublishState,
    t: Tables,
    session_id: i64,
    post_id: i64,
    n: int,
    f: int,
    m: int,
) -> bool {
    &&& is_written(p, first, t, session_id, post_id, n, f, m)
    &&& publication::distinct(plan.occurrences) == Some(s.blobs)
    &&& all_sized(t, s)
}

/// What holds of the tables at every step of a publication that has not failed.
pub open spec fn goes_well(
    p: Publication,
    plan: PublishPlan,
    first: Tables,
    s: PublishState,
    t: Tables,
) -> bool {
    let all = p.request.files@.len() as int;
    match s.step {
        PublishStep::FindSession => t == first,
        PublishStep::FindPredecessor { session_id, .. } => t == first && tables::is_session(
            t,
            session_id,
            p.request.session_public_id@,
        ),
        PublishStep::Measure { session_id } => {
            &&& t == first
            &&& tables::is_session(t, session_id, p.request.session_public_id@)
            &&& publication::distinct(plan.occurrences) == Some(s.blobs)
        },
        PublishStep::LookUp { session_id, blob } => {
            &&& t == first
            &&& tables::is_session(t, session_id, p.request.session_public_id@)
            &&& publication::distinct(plan.occurrences) == Some(s.blobs)
            &&& forall|i: int| 0 <= i < blob ==> #[trigger] agrees(t, s, i)
        },
        PublishStep::CheckRecorded { session_id, blob }
        | PublishStep::MarkFinalizing { session_id, blob } => installs(
            p,
            plan,
            first,
            s,
            t,
            session_id,
            blob as int,
        ),
        PublishStep::Record { session_id, blob, byte_size } => byte_size == s.blobs[blob as int]@.1
            && installs(p, plan, first, s, t, session_id, blob as int),
        PublishStep::Unqueue { session_id, blob } | PublishStep::Link { session_id, blob }
        | PublishStep::SyncLink { session_id, blob }
        | PublishStep::VerifyLink { session_id, blob } => installs(
            p,
            plan,
            first,
            s,
            t,
            session_id,
            blob + 1,
        ),
        PublishStep::InsertPost { session_id } => installs(
            p,
            plan,
            first,
            s,
            t,
            session_id,
            s.blobs.len() as int,
        ),
        PublishStep::ReferFile { session_id, post_id, file } => writes(
            p,
            plan,
            first,
            s,
            t,
            session_id,
            post_id,
            file as int,
            file as int,
            0,
        ),
        PublishStep::InsertFile { session_id, post_id, file, reference_id } => {
            &&& writes(
                p,
                plan,
                first,
                s,
                t,
                session_id,
                post_id,
                file as int,
                file as int,
                0,
            )
            &&& refers(t, reference_id, post_id, p.request.files@[file as int].blob.record@.0)
        },
        PublishStep::ReferAsset { session_id, post_id, file, entry_id, asset } => {
            &&& writes(
                p,
                plan,
                first,
                s,
                t,
                session_id,
                post_id,
                file + 1,
                file as int,
                asset as int,
            )
            &&& is_file_at(t, post_id, file as int, entry_id)
        },
        PublishStep::InsertAsset { session_id, post_id, file, entry_id, asset, reference_id } => {
            &&& writes(
                p,
                plan,
                first,
                s,
                t,
                session_id,
                post_id,
                file + 1,
                file as int,
                asset as int,
            )
            &&& is_file_at(t, post_id, file as int, entry_id)
            &&& refers(
                t,
                reference_id,
                post_id,
                p.request.files@[file as int].support_assets@[asset as int].blob.record@.0,
            )
        },
        PublishStep::Touch { session_id, post_id } | PublishStep::Commit { session_id, post_id } => {
            writes(p, plan, first, s, t, session_id, post_id, all, all, 0)
        },
        PublishStep::Finished => s.outcome matches Some(Ok(record)) ==> {
            &&& writes(p, plan, first, s, t, record.session_id, record.id, all, all, 0)
            &&& record.session_public_id@ == p.request.session_public_id@
            &&& record.published_at == p.published_at
        },
        _ => true,
    }
}

// ---- one step after another ----

proof fn lemma_post_inserted(
    p: Publication,
    first: Tables,
    t: Tables,
    session_id: i64,
    post_id: i64,
)
    requires
        owners_are_there(first),
        rows_are_same(first, t),
        tables::is_session(t, session_id, p.request.session_public_id@),
        !t.posts.contains_key(post_id),
    ensures
        is_written(
            p,
            first,
            Tables { posts: t.posts.insert(post_id, effects::post_row(p, session_id)), ..t },
            session_id,
            post_id,
            0,
            0,
            0,
        ),
{
    let now = Tables { posts: t.posts.insert(post_id, effects::post_row(p, session_id)), ..t };
    assert forall|id: i64| !(#[trigger] is_file(now, post_id, id)) by {
        if is_file(now, post_id, id) {
            assert(first.files.contains_key(id));
        }
    }
    assert forall|id: i64| #[trigger]
        now.assets.contains_key(id) implies now.files.contains_key(now.assets[id].entry_id) by {
        assert(first.assets.contains_key(id));
    }
}

proof fn lemma_referred(
    p: Publication,
    first: Tables,
    t: Tables,
    session_id: i64,
    post_id: i64,
    n: int,
    f: int,
    m: int,
    id: i64,
    row: ReferenceRow,
)
    requires
        is_written(p, first, t, session_id, post_id, n, f, m),
        !t.references.contains_key(id),
    ensures
        is_written(
            p,
            first,
            Tables { references: t.references.insert(id, row), ..t },
            session_id,
            post_id,
            n,
            f,
            m,
        ),
{
    let now = Tables { references: t.references.insert(id, row), ..t };
    assert forall|e: i64| #[trigger] is_file(now, post_id, e) implies file_holds(
        p,
        now,
        post_id,
        n,
        e,
    ) by {
        assert(is_file(t, post_id, e));
        assert(file_holds(p, t, post_id, n, e));
    }
    assert forall|a: i64, b: i64| #[trigger]
        is_file(now, post_id, a) && #[trigger] is_file(now, post_id, b) && now.files[a].position
            == now.files[b].position implies a == b by {
        assert(is_file(t, post_id, a) && is_file(t, post_id, b));
    }
    assert forall|i: int| 0 <= i < n implies #[trigger] has_file_at(now, post_id, i) by {
        assert(has_file_at(t, post_id, i));
        let e = choose|e: i64| is_file_at(t, post_id, i, e);
        assert(is_file_at(now, post_id, i, e));
    }
    assert forall|e: i64| #[trigger] is_file(now, post_id, e) implies assets_written(
        p,
        now,
        post_id,
        e,
        now.files[e].position,
        assets_of(p, now.files[e].position, f, m),
    ) by {
        assert(is_file(t, post_id, e));
        lemma_assets_same(
            p,
            t,
            now,
            post_id,
            e,
            t.files[e].position,
            assets_of(p, t.files[e].position, f, m),
        );
    }
}

/// The support assets of a file stay written where their rows stay and no reference goes.
proof fn lemma_assets_same(
    p: Publication,
    t: Tables,
    now: Tables,
    post_id: i64,
    entry_id: i64,
    file: int,
    m: int,
)
    requires
        assets_written(p, t, post_id, entry_id, file, m),
        forall|id: i64| #[trigger] is_asset(now, entry_id, id) <==> is_asset(t, entry_id, id),
        forall|id: i64| #[trigger]
            is_asset(now, entry_id, id) ==> now.assets[id] == t.assets[id],
        forall|id: i64| #[trigger]
            t.references.contains_key(id) ==> now.references.contains_key(id)
                && now.references[id] == t.references[id],
    ensures
        assets_written(p, now, post_id, entry_id, file, m),
{
    assert forall|id: i64| #[trigger] is_asset(now, entry_id, id) implies asset_holds(
        p,
        now,
        post_id,
        entry_id,
        file,
        m,
        id,
    ) by {
        assert(is_asset(t, entry_id, id));
        assert(asset_holds(p, t, post_id, entry_id, file, m, id));
        assert(t.references.contains_key(t.assets[id].reference_id));
    }
    assert forall|a: i64, b: i64| #[trigger]
        is_asset(now, entry_id, a) && #[trigger] is_asset(now, entry_id, b)
            && now.assets[a].position == now.assets[b].position implies a == b by {
        assert(is_asset(t, entry_id, a) && is_asset(t, entry_id, b));
    }
    assert forall|j: int| 0 <= j < m implies #[trigger] has_asset_at(now, entry_id, j) by {
        assert(has_asset_at(t, entry_id, j));
        let id = choose|id: i64| is_asset_at(t, entry_id, j, id);
        assert(is_asset(now, entry_id, id));
        assert(is_asset_at(now, entry_id, j, id));
    }
}

proof fn lemma_file_inserted(
    p: Publication,
    first: Tables,
    t: Tables,
    session_id: i64,
    post_id: i64,
    file: int,
    reference_id: i64,
    id: i64,
)
    requires
        is_written(p, first, t, session_id, post_id, file, file, 0),
        0 <= file < p.request.files@.len(),
        refers(t, reference_id, post_id, p.request.files@[file].blob.record@.0),
        !t.files.contains_key(id),
    ensures
        is_written(
            p,
            first,
            Tables {
                files: t.files.insert(id, effects::file_row(p, post_id, file, reference_id)),
                ..t
            },
            session_id,
            post_id,
            file + 1,
            file,
            0,
        ),
        is_file_at(
            Tables {
                files: t.files.insert(id, effects::file_row(p, post_id, file, reference_id)),
                ..t
            },
            post_id,
            file,
            id,
        ),
{
    let row = effects::file_row(p, post_id, file, reference_id);
    let now = Tables { files: t.files.insert(id, row), ..t };
    assert(is_file_at(now, post_id, file, id));
    assert forall|e: i64| #[trigger] is_file(now, post_id, e) implies file_holds(
        p,
        now,
        post_id,
        file + 1,
        e,
    ) by {
        if e != id {
            assert(is_file(t, post_id, e));
            assert(file_holds(p, t, post_id, file, e));
        }
    }
    assert forall|a: i64, b: i64| #[trigger]
        is_file(now, post_id, a) && #[trigger] is_file(now, post_id, b) && now.files[a].position
            == now.files[b].position implies a == b by {
        if a != id {
            assert(is_file(t, post_id, a));
            assert(file_holds(p, t, post_id, file, a));
        }
        if b != id {
            assert(is_file(t, post_id, b));
            assert(file_holds(p, t, post_id, file, b));
        }
    }
    assert forall|i: int| 0 <= i < file + 1 implies #[trigger] has_file_at(now, post_id, i) by {
        if i < file {
            assert(has_file_at(t, post_id, i));
            let e = choose|e: i64| is_file_at(t, post_id, i, e);
            assert(is_file_at(now, post_id, i, e));
        } else {
            assert(is_file_at(now, post_id, i, id));
        }
    }
    assert forall|e: i64| #[trigger] is_file(now, post_id, e) implies assets_written(
        p,
        now,
        post_id,
        e,
        now.files[e].position,
        assets_of(p, now.files[e].position, file, 0),
    ) by {
        if e != id {
            assert(is_file(t, post_id, e));
            lemma_assets_same(
                p,
                t,
                now,
                post_id,
                e,
                t.files[e].position,
                assets_of(p, t.files[e].position, file, 0),
            );
        } else {
            assert forall|a: i64| !(#[trigger] is_asset(now, id, a)) by {
                if is_asset(now, id, a) {
                    assert(t.assets.contains_key(a));
                }
            }
        }
    }
    assert forall|a: i64| #[trigger]
        now.assets.contains_key(a) implies now.files.contains_key(now.assets[a].entry_id) by {
        assert(t.assets.contains_key(a));
    }
}

proof fn lemma_asset_inserted(
    p: Publication,
    first: Tables,
    t: Tables,
    session_id: i64,
    post_id: i64,
    file: int,
    entry_id: i64,
    asset: int,
    reference_id: i64,
    id: i64,
)
    requires
        is_written(p, first, t, session_id, post_id, file + 1, file, asset),
        is_file_at(t, post_id, file, entry_id),
        0 <= file < p.request.files@.len(),
        0 <= asset < p.request.files@[file].support_assets@.len(),
        refers(
            t,
            reference_id,
            post_id,
            p.request.files@[file].support_assets@[asset].blob.record@.0,
        ),
        !t.assets.contains_key(id),
    ensures
        is_written(
            p,
            first,
            Tables {
                assets: t.assets.insert(
                    id,
                    effects::asset_row(p, post_id, entry_id, file, asset, reference_id),
                ),
                ..t
            },
            session_id,
            post_id,
            file + 1,
            file,
            asset + 1,
        ),
{
    let row = effects::asset_row(p, post_id, entry_id, file, asset, reference_id);
    let now = Tables { assets: t.assets.insert(id, row), ..t };
    assert(is_file(t, post_id, entry_id));
    assert forall|e: i64| #[trigger] is_file(now, post_id, e) implies file_holds(
        p,
        now,
        post_id,
        file + 1,
        e,
    ) by {
        assert(is_file(t, post_id, e));
        assert(file_holds(p, t, post_id, file + 1, e));
    }
    assert forall|a: i64, b: i64| #[trigger]
        is_file(now, post_id, a) && #[trigger] is_file(now, post_id, b) && now.files[a].position
            == now.files[b].position implies a == b by {
        assert(is_file(t, post_id, a) && is_file(t, post_id, b));
    }
    assert forall|i: int| 0 <= i < file + 1 implies #[trigger] has_file_at(now, post_id, i) by {
        assert(has_file_at(t, post_id, i));
        let e = choose|e: i64| is_file_at(t, post_id, i, e);
        assert(is_file_at(now, post_id, i, e));
    }
    assert forall|e: i64| #[trigger] is_file(now, post_id, e) implies assets_written(
        p,
        now,
        post_id,
        e,
        now.files[e].position,
        assets_of(p, now.files[e].position, file, asset + 1),
    ) by {
        assert(is_file(t, post_id, e));
        assert(file_holds(p, t, post_id, file + 1, e));
        if e == entry_id {
            lemma_asset_added(p, t, now, post_id, entry_id, file, asset, id);
        } else {
            assert(t.files[e].position != file);
            lemma_assets_same(
                p,
                t,
                now,
                post_id,
                e,
                t.files[e].position,
                assets_of(p, t.files[e].position, file, asset),
            );
        }
    }
    assert forall|a: i64| #[trigger]
        now.assets.contains_key(a) implies now.files.contains_key(now.assets[a].entry_id) by {
        if a != id {
            assert(t.assets.contains_key(a));
        }
    }
}

proof fn lemma_asset_added(
    p: Publication,
    t: Tables,
    now: Tables,
    post_id: i64,
    entry_id: i64,
    file: int,
    asset: int,
    id: i64,
)
    requires
        assets_written(p, t, post_id, entry_id, file, asset),
        0 <= asset,
        !t.assets.contains_key(id),
        now.references == t.references,
        now.assets == t.assets.insert(id, now.assets[id]),
        now.assets[id].position == asset,
        now.assets[id].entry_id == entry_id,
        asset_holds(p, now, post_id, entry_id, file, asset + 1, id),
    ensures
        assets_written(p, now, post_id, entry_id, file, asset + 1),
{
    assert forall|a: i64| #[trigger] is_asset(now, entry_id, a) implies asset_holds(
        p,
        now,
        post_id,
        entry_id,
        file,
        asset + 1,
        a,
    ) by {
        if a != id {
            assert(is_asset(t, entry_id, a));
            assert(asset_holds(p, t, post_id, entry_id, file, asset, a));
        }
    }
    assert forall|a: i64, b: i64| #[trigger]
        is_asset(now, entry_id, a) && #[trigger] is_asset(now, entry_id, b)
            && now.assets[a].position == now.assets[b].position implies a == b by {
        if a != id {
            assert(is_asset(t, entry_id, a));
            assert(asset_holds(p, t, post_id, entry_id, file, asset, a));
        }
        if b != id {
            assert(is_asset(t, entry_id, b));
            assert(asset_holds(p, t, post_id, entry_id, file, asset, b));
        }
    }
    assert forall|j: int| 0 <= j < asset + 1 implies #[trigger] has_asset_at(now, entry_id, j) by {
        if j < asset {
            assert(has_asset_at(t, entry_id, j));
            let a = choose|a: i64| is_asset_at(t, entry_id, j, a);
            assert(is_asset_at(now, entry_id, j, a));
        } else {
            assert(is_asset_at(now, entry_id, j, id));
        }
    }
}

/// All support assets of a file are written: the next file is at hand.
proof fn lemma_file_done(
    p: Publication,
    first: Tables,
    t: Tables,
    session_id: i64,
    post_id: i64,
    file: int,
    asset: int,
)
    requires
        is_written(p, first, t, session_id, post_id, file + 1, file, asset),
        0 <= file < p.request.files@.len(),
        asset == p.request.files@[file].support_assets@.len(),
    ensures
        is_written(p, first, t, session_id, post_id, file + 1, file + 1, 0),
{
    assert forall|e: i64| #[trigger] is_file(t, post_id, e) implies assets_written(
        p,
        t,
        post_id,
        e,
        t.files[e].position,
        assets_of(p, t.files[e].position, file + 1, 0),
    ) by {
        assert(file_holds(p, t, post_id, file + 1, e));
    }
}

proof fn lemma_touched(
    p: Publication,
    first: Tables,
    t: Tables,
    session_id: i64,
    post_id: i64,
    n: int,
    f: int,
    m: int,
    at: i64,
)
    requires
        is_written(p, first, t, session_id, post_id, n, f, m),
    ensures
        is_written(
            p,
            first,
            effects::touched(t, session_id, at),
            session_id,
            post_id,
            n,
            f,
            m,
        ),
{
    let now = effects::touched(t, session_id, at);
    assert forall|e: i64| #[trigger] is_file(now, post_id, e) implies file_holds(
        p,
        now,
        post_id,
        n,
        e,
    ) && assets_written(
        p,
        now,
        post_id,
        e,
        now.files[e].position,
        assets_of(p, now.files[e].position, f, m),
    ) by {
        assert(is_file(t, post_id, e));
        assert(file_holds(p, t, post_id, n, e));
        lemma_assets_same(
            p,
            t,
            now,
            post_id,
            e,
            t.files[e].position,
            assets_of(p, t.files[e].position, f, m),
        );
    }
    assert forall|a: i64, b: i64| #[trigger]
        is_file(now, post_id, a) && #[trigger] is_file(now, post_id, b) && now.files[a].position
            == now.files[b].position implies a == b by {
        assert(is_file(t, post_id, a) && is_file(t, post_id, b));
    }
    assert forall|i: int| 0 <= i < n implies #[trigger] has_file_at(now, post_id, i) by {
        assert(has_file_at(t, post_id, i));
        let e = choose|e: i64| is_file_at(t, post_id, i, e);
        assert(is_file_at(now, post_id, i, e));
    }
    assert forall|a: i64| #[trigger]
        now.assets.contains_key(a) implies now.files.contains_key(now.assets[a].entry_id) by {
        assert(t.assets.contains_key(a));
    }
}

proof fn lemma_recorded(
    p: Publication,
    plan: PublishPlan,
    first: Tables,
    s: PublishState,
    t: Tables,
    session_id: i64,
    blob: int,
)
    requires
        installs(p, plan, first, s, t, session_id, blob),
        0 <= blob < s.blobs.len(),
    ensures
        installs(
            p,
            plan,
            first,
            s,
            Tables {
                blobs: t.blobs.insert(effects::hash_of(s, blob), s.blobs[blob]@.1 as int),
                ..t
            },
            session_id,
            blob + 1,
        ),
{
    publication::law_blobs_are_distinct(plan.occurrences);
    let listed = publication::distinct(plan.occurrences)->0;
    assert forall|i: int, j: int| 0 <= i < j < s.blobs.len() implies (#[trigger] s.blobs[i])@.0 != (
    #[trigger] s.blobs[j])@.0 by {
        assert(listed[i]@.0 != listed[j]@.0);
    }
    let now = Tables {
        blobs: t.blobs.insert(effects::hash_of(s, blob), s.blobs[blob]@.1 as int),
        ..t
    };
    assert forall|i: int| 0 <= i < s.blobs.len() implies #[trigger] agrees(now, s, i) by {
        assert(agrees(t, s, i));
        if i < blob {
            assert(s.blobs[i]@.0 != s.blobs[blob]@.0);
        } else if i > blob {
            assert(s.blobs[blob]@.0 != s.blobs[i]@.0);
        }
    }
    assert forall|i: int| 0 <= i < blob + 1 implies #[trigger] is_sized(now, s, i) by {
        if i < blob {
            assert(is_sized(t, s, i));
            assert(s.blobs[i]@.0 != s.blobs[blob]@.0);
        }
    }
}

proof fn lemma_other_state(
    p: Publication,
    plan: PublishPlan,
    first: Tables,
    s: PublishState,
    next: PublishState,
    t: Tables,
    now: Tables,
    session_id: i64,
    n: int,
)
    requires
        installs(p, plan, first, s, t, session_id, n),
        next.blobs == s.blobs,
        now == (Tables { queue: now.queue, ..t }),
    ensures
        installs(p, plan, first, next, now, session_id, n),
{
    assert forall|i: int| 0 <= i < next.blobs.len() implies #[trigger] agrees(now, next, i) by {
        assert(agrees(t, s, i));
    }
    assert forall|i: int| 0 <= i < n implies #[trigger] is_sized(now, next, i) by {
        assert(is_sized(t, s, i));
    }
}

proof fn lemma_sizes_same(s: PublishState, next: PublishState, t: Tables, now: Tables)
    requires
        all_sized(t, s),
        next.blobs == s.blobs,
        now.blobs == t.blobs,
    ensures
        all_sized(now, next),
{
    assert forall|i: int| 0 <= i < next.blobs.len() implies #[trigger] is_sized(now, next, i) by {
        assert(is_sized(t, s, i));
    }
}

#[verifier::rlimit(60)]
proof fn lemma_before_the_post(
    p: Publication,
    plan: PublishPlan,
    first: World,
    s: PublishState,
    answer: PublishAnswer,
    next: PublishState,
    w: World,
)
    requires
        effects::is_planned(p, plan),
        owners_are_there(first.tables),
        publishing::consistent(plan, s),
        s.blobs.len() <= usize::MAX,
        publishing::answers(s.step, answer),
        publishing::follows(plan, s, answer, next),
        effects::answered(p, s, answer, w),
        goes_well(p, plan, first.tables, s, w.tables),
        publishing::is_reading(s.step) || publishing::blob_of(s.step) is Some,
    ensures
        goes_well(
            p,
            plan,
            first.tables,
            next,
            effects::effect(p, first, s, answer, w).tables,
        ),
{
    let t = w.tables;
    let now = effects::effect(p, first, s, answer, w).tables;
    match (s.step, answer) {
        (PublishStep::Measure { session_id }, PublishAnswer::Bytes(_)) => {
            if next.step is CheckRecorded || next.step is InsertPost {
                assert(s.blobs.len() == 0);
            }
        },
        (PublishStep::LookUp { session_id, blob }, PublishAnswer::Found(found)) => {
            if !(next.step is AskTransaction) {
                assert(agrees(t, s, blob as int));
                assert forall|i: int| 0 <= i < blob + 1 implies #[trigger] agrees(now, next, i) by {
                    assert(agrees(t, s, i));
                }
                if !(next.step is LookUp) {
                    assert(blob + 1 == s.blobs.len());
                }
            }
        },
        (PublishStep::CheckRecorded { session_id, blob }, PublishAnswer::Flag(recorded)) => {
            assert(agrees(t, s, blob as int));
            lemma_other_state(p, plan, first.tables, s, next, t, now, session_id, blob as int);
            if recorded {
                assert(is_sized(now, next, blob as int));
            }
        },
        (PublishStep::MarkFinalizing { session_id, blob }, PublishAnswer::Done) => {
            if !(next.step is AskTransaction) {
                lemma_other_state(p, plan, first.tables, s, next, t, now, session_id, blob as int);
            }
        },
        (PublishStep::Record { session_id, blob, byte_size }, PublishAnswer::Done) => {
            lemma_recorded(p, plan, first.tables, s, t, session_id, blob as int);
            lemma_other_state(p, plan, first.tables, s, next, now, now, session_id, blob + 1);
        },
        (PublishStep::Unqueue { session_id, blob }, PublishAnswer::Done) => {
            lemma_other_state(p, plan, first.tables, s, next, t, now, session_id, blob + 1);
        },
        (PublishStep::Link { session_id, blob }, PublishAnswer::Flag(_)) => {
            lemma_other_state(p, plan, first.tables, s, next, t, now, session_id, blob + 1);
        },
        (PublishStep::SyncLink { session_id, blob }, PublishAnswer::Done) => {
            lemma_other_state(p, plan, first.tables, s, next, t, now, session_id, blob + 1);
        },
        (PublishStep::VerifyLink { session_id, blob }, PublishAnswer::Done) => {
            lemma_other_state(p, plan, first.tables, s, next, t, now, session_id, blob + 1);
        },
        _ => {},
    }
}

#[verifier::rlimit(60)]
proof fn lemma_from_the_post_on(
    p: Publication,
    plan: PublishPlan,
    first: World,
    s: PublishState,
    answer: PublishAnswer,
    next: PublishState,
    w: World,
)
    requires
        effects::is_planned(p, plan),
        owners_are_there(first.tables),
        publishing::consistent(plan, s),
        publishing::answers(s.step, answer),
        publishing::follows(plan, s, answer, next),
        effects::answered(p, s, answer, w),
        goes_well(p, plan, first.tables, s, w.tables),
        !(publishing::is_reading(s.step) || publishing::blob_of(s.step) is Some),
    ensures
        goes_well(
            p,
            plan,
            first.tables,
            next,
            effects::effect(p, first, s, answer, w).tables,
        ),
{
    let t = w.tables;
    let now = effects::effect(p, first, s, answer, w).tables;
    assert forall|i: int| 0 <= i < p.request.files@.len() implies #[trigger] plan.asset_counts[i]
        == p.request.files@[i].support_assets@.len() by {
        assert(p.request.files@[i].support_assets.len() == p.request.files@[i].support_assets@.len());
    }
    match (s.step, answer) {
        (PublishStep::InsertPost { session_id }, PublishAnswer::Id(id)) => {
            lemma_post_inserted(p, first.tables, t, session_id, id);
            lemma_sizes_same(s, next, t, now);
        },
        (PublishStep::ReferFile { session_id, post_id, file }, PublishAnswer::Id(id)) => {
            lemma_referred(
                p,
                first.tables,
                t,
                session_id,
                post_id,
                file as int,
                file as int,
                0,
                id,
                ReferenceRow { post_id, hash: p.request.files@[file as int].blob.record@.0 },
            );
            lemma_sizes_same(s, next, t, now);
        },
        (
            PublishStep::InsertFile { session_id, post_id, file, reference_id },
            PublishAnswer::Id(id),
        ) => {
            lemma_file_inserted(
                p,
                first.tables,
                t,
                session_id,
                post_id,
                file as int,
                reference_id,
                id,
            );
            lemma_sizes_same(s, next, t, now);
            if plan.asset_counts[file as int] == 0 {
                lemma_file_done(p, first.tables, now, session_id, post_id, file as int, 0);
            }
        },
        (
            PublishStep::ReferAsset { session_id, post_id, file, entry_id, asset },
            PublishAnswer::Id(id),
        ) => {
            lemma_referred(
                p,
                first.tables,
                t,
                session_id,
                post_id,
                file + 1,
                file as int,
                asset as int,
                id,
                ReferenceRow {
                    post_id,
                    hash: p.request.files@[file as int].support_assets@[asset as int].blob.record@.0,
                },
            );
            lemma_sizes_same(s, next, t, now);
        },
        (
            PublishStep::InsertAsset { session_id, post_id, file, entry_id, asset, reference_id },
            PublishAnswer::Id(id),
        ) => {
            lemma_asset_inserted(
                p,
                first.tables,
                t,
                session_id,
                post_id,
                file as int,
                entry_id,
                asset as int,
                reference_id,
                id,
            );
            lemma_sizes_same(s, next, t, now);
            if asset + 1 == plan.asset_counts[file as int] {
                lemma_file_done(p, first.tables, now, session_id, post_id, file as int, asset + 1);
            }
        },
        (PublishStep::Touch { session_id, post_id }, PublishAnswer::Done) => {
            let all = p.request.files@.len() as int;
            lemma_touched(
                p,
                first.tables,
                t,
                session_id,
                post_id,
                all,
                all,
                0,
                p.published_at,
            );
            lemma_sizes_same(s, next, t, now);
        },
        (PublishStep::Commit { .. }, PublishAnswer::Done) => {
            lemma_sizes_same(s, next, t, now);
        },
        _ => {},
    }
}

pub proof fn lemma_goes_well(
    p: Publication,
    plan: PublishPlan,
    states: Seq<PublishState>,
    answers: Seq<PublishAnswer>,
    worlds: Seq<World>,
    k: int,
)
    requires
        effects::publishes(p, plan, states, answers, worlds),
        owners_are_there(worlds[0].tables),
        0 <= k < states.len(),
    ensures
        goes_well(p, plan, worlds[0].tables, states[k], worlds[k].tables),
    decreases k,
{
    if k > 0 {
        lemma_goes_well(p, plan, states, answers, worlds, k - 1);
        let s = states[k - 1];
        let answer = answers[k - 1];
        assert(publishing::consistent(plan, s));
        assert(publishing::answers(s.step, answer));
        if publishing::is_reading(s.step) || publishing::blob_of(s.step) is Some {
            lemma_before_the_post(p, plan, worlds[0], s, answer, states[k], worlds[k - 1]);
        } else {
            lemma_from_the_post_on(p, plan, worlds[0], s, answer, states[k], worlds[k - 1]);
        }
    }
}

// ---- the sizes of the blobs ----

proof fn lemma_position(blobs: Seq<BlobRecord>, digest: Seq<char>)
    ensures
        publication::position_of(blobs, digest) matches Some(i) ==> 0 <= i < blobs.len()
            && blobs[i]@.0 == digest,
    decreases blobs.len(),
{
    if blobs.len() > 0 {
        lemma_position(blobs.drop_last(), digest);
    }
}

/// Every blob that occurs is among the distinct ones, with its size.
pub proof fn lemma_occurs(blobs: Seq<BlobRecord>, i: int)
    requires
        publication::distinct(blobs) is Some,
        0 <= i < blobs.len(),
    ensures
        exists|k: int|
            0 <= k < publication::distinct(blobs)->0.len() && (#[trigger] (publication::distinct(
                blobs,
            )->0)[k])@ == blobs[i]@,
    decreases blobs.len(),
{
    let earlier = blobs.drop_last();
    let before = publication::distinct(earlier)->0;
    let all = publication::distinct(blobs)->0;
    lemma_position(before, blobs.last()@.0);
    if i < earlier.len() {
        lemma_occurs(earlier, i);
        let k = choose|k: int| 0 <= k < before.len() && (#[trigger] before[k])@ == earlier[i]@;
        assert(all[k] == before[k]);
    } else {
        match publication::position_of(before, blobs.last()@.0) {
            Some(k) => {
                assert(all[k] == before[k]);
            },
            None => {
                assert(all[all.len() - 1] == blobs.last());
            },
        }
    }
}

/// Where the blob of a file occurs among the blobs of all files.
pub proof fn lemma_file_occurs(files: Seq<PublicationFile>, f: int)
    requires
        0 <= f < files.len(),
    ensures
        publication::file_blobs(files).contains(files[f].blob.record),
        forall|j: int|
            0 <= j < files[f].support_assets@.len() ==> publication::file_blobs(files).contains(
                (#[trigger] files[f].support_assets@[j]).blob.record,
            ),
    decreases files.len(),
{
    let earlier = publication::file_blobs(files.drop_last());
    let all = publication::file_blobs(files);
    let own = publication::asset_blobs(files.last().support_assets@);
    if f < files.len() - 1 {
        lemma_file_occurs(files.drop_last(), f);
        assert forall|record: BlobRecord| #[trigger] earlier.contains(record) implies all.contains(
            record,
        ) by {
            let k = choose|k: int| 0 <= k < earlier.len() && earlier[k] == record;
            assert(all[k] == record);
        }
        assert(files.drop_last()[f] == files[f]);
    } else {
        assert(all[earlier.len() as int] == files[f].blob.record);
        assert forall|j: int| 0 <= j < files[f].support_assets@.len() implies all.contains(
            (#[trigger] files[f].support_assets@[j]).blob.record,
        ) by {
            assert(own[j] == files[f].support_assets@[j].blob.record);
            assert(all[earlier.len() + 1 + j] == own[j]);
        }
    }
}

pub proof fn lemma_record_sized(t: Tables, s: PublishState, blobs: Seq<BlobRecord>, record: BlobRecord)
    requires
        all_sized(t, s),
        publication::distinct(blobs) == Some(s.blobs),
        blobs.contains(record),
    ensures
        t.blobs.contains_key(record@.0),
        t.blobs[record@.0] == record@.1,
{
    let i = choose|i: int| 0 <= i < blobs.len() && blobs[i] == record;
    lemma_occurs(blobs, i);
    let k = choose|k: int|
        0 <= k < publication::distinct(blobs)->0.len() && (#[trigger] (publication::distinct(
            blobs,
        )->0)[k])@ == blobs[i]@;
    assert(s.blobs[k]@ == record@);
    assert(is_sized(t, s, k));
}

// ---- reading the tables ----

/// Whether the numbers are those of the files of the post, in the order of their places.
pub open spec fn lists_files(t: Tables, post_id: i64, ids: Seq<i64>) -> bool {
    &&& forall|id: i64| #[trigger] is_file(t, post_id, id) <==> ids.contains(id)
    &&& forall|i: int, j: int|
        0 <= i < j < ids.len() ==> t.files[#[trigger] ids[i]].position
            < t.files[#[trigger] ids[j]].position
}

/// Whether the numbers are those of the support assets of the file, in the order of their places.
pub open spec fn lists_assets(t: Tables, entry_id: i64, ids: Seq<i64>) -> bool {
    &&& forall|id: i64| #[trigger] is_asset(t, entry_id, id) <==> ids.contains(id)
    &&& forall|i: int, j: int|
        0 <= i < j < ids.len() ==> t.assets[#[trigger] ids[i]].position
            < t.assets[#[trigger] ids[j]].position
}

/// Whether the digest and the size are those of the blob that the reference names.
pub open spec fn reads_blob(t: Tables, reference_id: i64, hash: Seq<char>, byte_size: i64) -> bool {
    &&& t.references.contains_key(reference_id)
    &&& hash == t.references[reference_id].hash
    &&& t.blobs.contains_key(hash)
    &&& byte_size == t.blobs[hash]
}

/// Whether a support asset was read from its rows.
pub open spec fn reads_asset(t: Tables, raw: RawAsset, id: i64) -> bool {
    &&& raw.relative_path@ == t.assets[id].relative_path
    &&& reads_blob(t, t.assets[id].reference_id, raw.hash@, raw.byte_size)
}

/// Whether a file was read from its rows, with its support assets.
pub open spec fn reads_file(t: Tables, raw: RawFile, id: i64, asset_ids: Seq<i64>) -> bool {
    let row = t.files[id];
    &&& raw.position == row.position
    &&& raw.filename@ == row.filename
    &&& text::optional(raw.caption) == row.caption
    &&& raw.media_type@ == row.media_type
    &&& raw.renderer@ == row.renderer
    &&& reads_blob(t, row.reference_id, raw.hash@, raw.byte_size)
    &&& lists_assets(t, id, asset_ids)
    &&& raw.support_assets@.len() == asset_ids.len()
    &&& forall|j: int|
        0 <= j < asset_ids.len() ==> reads_asset(
            t,
            #[trigger] raw.support_assets@[j],
            asset_ids[j],
        )
}

/// Whether a post was read from its row and that of its session.
pub open spec fn reads_post(t: Tables, raw: RawPost, post_id: i64) -> bool {
    let row = t.posts[post_id];
    &&& t.posts.contains_key(post_id)
    &&& raw.id == post_id
    &&& raw.session_id == row.session_id
    &&& t.sessions.contains_key(row.session_id)
    &&& raw.session_public_id@ == t.sessions[row.session_id].public_id
    &&& raw.title@ == row.title
    &&& raw.commentary@ == row.commentary
    &&& raw.predecessor_post_id == row.predecessor_post_id
    &&& raw.published_at == row.published_at
    &&& match row.git {
        Some((root, branch, commit)) => {
            &&& raw.git_root matches Some(found) && found@ == root
            &&& text::optional(raw.git_branch) == branch
            &&& text::optional(raw.git_commit) == commit
        },
        None => raw.git_root is None && raw.git_branch is None && raw.git_commit is None,
    }
}

/// Whether a post and its files were read from the tables, the files in the order of their places.
pub open spec fn loads(
    t: Tables,
    post_id: i64,
    raw: RawPost,
    raw_files: Seq<RawFile>,
    ids: Seq<i64>,
    asset_ids: Seq<Seq<i64>>,
) -> bool {
    &&& reads_post(t, raw, post_id)
    &&& lists_files(t, post_id, ids)
    &&& raw_files.len() == ids.len()
    &&& asset_ids.len() == ids.len()
    &&& forall|i: int|
        0 <= i < ids.len() ==> reads_file(t, #[trigger] raw_files[i], ids[i], asset_ids[i])
}

/// Whether one of the numbers has the place.
spec fn is_taken(ids: Seq<i64>, place: spec_fn(i64) -> int, i: int) -> bool {
    exists|j: int| 0 <= j < ids.len() && #[trigger] place(ids[j]) == i
}

/// Numbers in the order of their places, which are those below `n`, stand each at its place.
proof fn lemma_in_place(ids: Seq<i64>, place: spec_fn(i64) -> int, n: int, k: int)
    requires
        0 <= n,
        0 <= k < n,
        forall|i: int| 0 <= i < ids.len() ==> 0 <= #[trigger] place(ids[i]) < n,
        forall|i: int, j: int|
            0 <= i < j < ids.len() ==> #[trigger] place(ids[i]) < #[trigger] place(ids[j]),
        forall|i: int| 0 <= i < n ==> #[trigger] is_taken(ids, place, i),
    ensures
        k < ids.len(),
        place(ids[k]) == k,
    decreases k,
{
    if k > 0 {
        lemma_in_place(ids, place, n, k - 1);
    }
    assert(is_taken(ids, place, k));
    let j = choose|j: int| 0 <= j < ids.len() && #[trigger] place(ids[j]) == k;
    if j < k {
        lemma_in_place(ids, place, n, j);
    } else if j > k {
        let q = place(ids[k]);
        assert(place(ids[k]) < place(ids[j]));
        lemma_in_place(ids, place, n, q);
        assert(place(ids[q]) < place(ids[k]));
    }
}

proof fn lemma_all_in_place(ids: Seq<i64>, place: spec_fn(i64) -> int, n: int)
    requires
        0 <= n,
        forall|i: int| 0 <= i < ids.len() ==> 0 <= #[trigger] place(ids[i]) < n,
        forall|i: int, j: int|
            0 <= i < j < ids.len() ==> #[trigger] place(ids[i]) < #[trigger] place(ids[j]),
        forall|i: int| 0 <= i < n ==> #[trigger] is_taken(ids, place, i),
    ensures
        ids.len() == n,
        forall|k: int| 0 <= k < n ==> #[trigger] place(ids[k]) == k,
{
    if n > 0 {
        lemma_in_place(ids, place, n, n - 1);
    }
    if ids.len() > n {
        if n > 0 {
            assert(place(ids[n - 1]) < place(ids[n]));
        }
        assert(0 <= place(ids[n]) < n);
    }
    assert forall|k: int| 0 <= k < n implies #[trigger] place(ids[k]) == k by {
        lemma_in_place(ids, place, n, k);
    }
}

proof fn lemma_assets_read(
    p: Publication,
    t: Tables,
    s: PublishState,
    blobs: Seq<BlobRecord>,
    post_id: i64,
    entry_id: i64,
    file: int,
    raw: RawFile,
    ids: Seq<i64>,
)
    requires
        0 <= file < p.request.files@.len(),
        assets_written(
            p,
            t,
            post_id,
            entry_id,
            file,
            p.request.files@[file].support_assets@.len() as int,
        ),
        all_sized(t, s),
        publication::distinct(blobs) == Some(s.blobs),
        blobs == publication::file_blobs(p.request.files@),
        reads_file(t, raw, entry_id, ids),
    ensures
        raw.support_assets@.len() == p.request.files@[file].support_assets@.len(),
        forall|j: int|
            0 <= j < raw.support_assets@.len() ==> rows::is_asset_row_of(
                #[trigger] raw.support_assets@[j],
                p.request.files@[file].support_assets@[j],
            ),
{
    let assets = p.request.files@[file].support_assets@;
    let place = |id: i64| t.assets[id].position;
    assert forall|i: int| 0 <= i < ids.len() implies 0 <= #[trigger] place(ids[i])
        < assets.len() by {
        assert(ids.contains(ids[i]));
        assert(is_asset(t, entry_id, ids[i]));
        assert(asset_holds(p, t, post_id, entry_id, file, assets.len() as int, ids[i]));
    }
    assert forall|i: int| 0 <= i < assets.len() implies #[trigger] is_taken(ids, place, i) by {
        assert(has_asset_at(t, entry_id, i));
        let id = choose|id: i64| is_asset_at(t, entry_id, i, id);
        assert(is_asset(t, entry_id, id));
        assert(ids.contains(id));
        let j = choose|j: int| 0 <= j < ids.len() && ids[j] == id;
        assert(place(ids[j]) == i);
    }
    lemma_all_in_place(ids, place, assets.len() as int);
    assert forall|j: int| 0 <= j < raw.support_assets@.len() implies rows::is_asset_row_of(
        #[trigger] raw.support_assets@[j],
        assets[j],
    ) by {
        assert(reads_asset(t, raw.support_assets@[j], ids[j]));
        assert(place(ids[j]) == j);
        assert(ids.contains(ids[j]));
        assert(is_asset(t, entry_id, ids[j]));
        assert(asset_holds(p, t, post_id, entry_id, file, assets.len() as int, ids[j]));
        lemma_file_occurs(p.request.files@, file);
        lemma_record_sized(t, s, blobs, assets[j].blob.record);
    }
}

proof fn lemma_files_read(
    p: Publication,
    plan: PublishPlan,
    first: Tables,
    s: PublishState,
    t: Tables,
    session_id: i64,
    post_id: i64,
    raw_files: Seq<RawFile>,
    ids: Seq<i64>,
    asset_ids: Seq<Seq<i64>>,
    raw: RawPost,
)
    requires
        effects::is_planned(p, plan),
        writes(
            p,
            plan,
            first,
            s,
            t,
            session_id,
            post_id,
            p.request.files@.len() as int,
            p.request.files@.len() as int,
            0,
        ),
        loads(t, post_id, raw, raw_files, ids, asset_ids),
    ensures
        rows::are_file_rows_of(raw_files, p.request, p.classes),
{
    let files = p.request.files@;
    let all = files.len() as int;
    let place = |id: i64| t.files[id].position;
    assert forall|i: int| 0 <= i < ids.len() implies 0 <= #[trigger] place(ids[i]) < all by {
        assert(ids.contains(ids[i]));
        assert(is_file(t, post_id, ids[i]));
        assert(file_holds(p, t, post_id, all, ids[i]));
    }
    assert forall|i: int| 0 <= i < all implies #[trigger] is_taken(ids, place, i) by {
        assert(has_file_at(t, post_id, i));
        let id = choose|id: i64| is_file_at(t, post_id, i, id);
        assert(is_file(t, post_id, id));
        assert(ids.contains(id));
        let j = choose|j: int| 0 <= j < ids.len() && ids[j] == id;
        assert(place(ids[j]) == i);
    }
    lemma_all_in_place(ids, place, all);
    assert forall|i: int| 0 <= i < raw_files.len() implies rows::is_file_row_of(
        #[trigger] raw_files[i],
        files[i],
        i,
        p.classes[i],
    ) by {
        assert(reads_file(t, raw_files[i], ids[i], asset_ids[i]));
        assert(place(ids[i]) == i);
        assert(ids.contains(ids[i]));
        assert(is_file(t, post_id, ids[i]));
        assert(file_holds(p, t, post_id, all, ids[i]));
        lemma_file_occurs(files, i);
        lemma_record_sized(t, s, plan.occurrences, files[i].blob.record);
        lemma_assets_read(
            p,
            t,
            s,
            plan.occurrences,
            post_id,
            ids[i],
            i,
            raw_files[i],
            asset_ids[i],
        );
    }
}

// ---- reading later ----

/// Whether the post has the blob reference, and its blob is recorded.
pub open spec fn has_blob(t: Tables, post_id: i64, reference_id: i64) -> bool {
    permanence::is_reference(t, post_id, reference_id) && t.blobs.contains_key(
        t.references[reference_id].hash,
    )
}

/// Whether all that a post consists of is there: its session, and the blobs of its files and of
/// their support assets.
pub open spec fn is_whole(t: Tables, post_id: i64) -> bool {
    &&& t.posts.contains_key(post_id)
    &&& t.sessions.contains_key(t.posts[post_id].session_id)
    &&& forall|id: i64| #[trigger]
        is_file(t, post_id, id) ==> has_blob(t, post_id, t.files[id].reference_id)
    &&& forall|entry_id: i64, id: i64| #[trigger]
        is_file(t, post_id, entry_id) && #[trigger] is_asset(t, entry_id, id) ==> has_blob(
            t,
            post_id,
            t.assets[id].reference_id,
        )
}

/// Tables whose references are in order hold every post whole.
pub proof fn lemma_linked_is_whole(t: Tables, post_id: i64)
    requires
        permanence::linked(t),
        t.posts.contains_key(post_id),
    ensures
        is_whole(t, post_id),
{
    assert forall|id: i64| #[trigger] is_file(t, post_id, id) implies has_blob(
        t,
        post_id,
        t.files[id].reference_id,
    ) by {
        assert(t.references.contains_key(t.files[id].reference_id));
    }
    assert forall|entry_id: i64, id: i64| #[trigger]
        is_file(t, post_id, entry_id) && #[trigger] is_asset(t, entry_id, id) implies has_blob(
        t,
        post_id,
        t.assets[id].reference_id,
    ) by {
        assert(t.references.contains_key(t.assets[id].reference_id));
    }
}

/// A post that is kept is read as it was.
proof fn lemma_read_as_before(
    before: Tables,
    later: Tables,
    post_id: i64,
    raw: RawPost,
    raw_files: Seq<RawFile>,
    ids: Seq<i64>,
    asset_ids: Seq<Seq<i64>>,
)
    requires
        is_whole(before, post_id),
        permanence::keeps_post(before, later, post_id),
        loads(later, post_id, raw, raw_files, ids, asset_ids),
    ensures
        loads(before, post_id, raw, raw_files, ids, asset_ids),
{
    assert forall|i: int| 0 <= i < ids.len() implies is_file(before, post_id, #[trigger] ids[i])
        && later.files[ids[i]] == before.files[ids[i]] by {
        assert(ids.contains(ids[i]));
        assert(is_file(later, post_id, ids[i]));
    }
    assert(lists_files(before, post_id, ids)) by {
        assert forall|id: i64| #[trigger] is_file(before, post_id, id) <==> ids.contains(id) by {
            assert(is_file(later, post_id, id) <==> ids.contains(id));
        }
    }
    assert forall|i: int| 0 <= i < ids.len() implies reads_file(
        before,
        #[trigger] raw_files[i],
        ids[i],
        asset_ids[i],
    ) by {
        let raw_file = raw_files[i];
        let entry_id = ids[i];
        let own = asset_ids[i];
        assert(reads_file(later, raw_file, entry_id, own));
        assert(is_file(before, post_id, entry_id));
        assert(has_blob(before, post_id, before.files[entry_id].reference_id));
        assert(permanence::keeps_assets(before, later, entry_id));
        assert forall|j: int| 0 <= j < own.len() implies is_asset(
            before,
            entry_id,
            #[trigger] own[j],
        ) && later.assets[own[j]] == before.assets[own[j]] by {
            assert(own.contains(own[j]));
            assert(is_asset(later, entry_id, own[j]));
        }
        assert(lists_assets(before, entry_id, own)) by {
            assert forall|id: i64| #[trigger] is_asset(before, entry_id, id) <==> own.contains(
                id,
            ) by {
                assert(is_asset(later, entry_id, id) <==> own.contains(id));
            }
        }
        assert forall|j: int| 0 <= j < own.len() implies reads_asset(
            before,
            #[trigger] raw_file.support_assets@[j],
            own[j],
        ) by {
            assert(reads_asset(later, raw_file.support_assets@[j], own[j]));
            assert(is_asset(before, entry_id, own[j]));
            assert(has_blob(before, post_id, before.assets[own[j]].reference_id));
        }
    }
}

proof fn lemma_written_is_whole(
    p: Publication,
    plan: PublishPlan,
    first: Tables,
    s: PublishState,
    t: Tables,
    session_id: i64,
    post_id: i64,
)
    requires
        effects::is_planned(p, plan),
        writes(
            p,
            plan,
            first,
            s,
            t,
            session_id,
            post_id,
            p.request.files@.len() as int,
            p.request.files@.len() as int,
            0,
        ),
    ensures
        is_whole(t, post_id),
{
    let files = p.request.files@;
    let all = files.len() as int;
    assert forall|id: i64| #[trigger] is_file(t, post_id, id) implies has_blob(
        t,
        post_id,
        t.files[id].reference_id,
    ) by {
        assert(file_holds(p, t, post_id, all, id));
        lemma_file_occurs(files, t.files[id].position);
        lemma_record_sized(t, s, plan.occurrences, files[t.files[id].position].blob.record);
    }
    assert forall|entry_id: i64, id: i64| #[trigger]
        is_file(t, post_id, entry_id) && #[trigger] is_asset(t, entry_id, id) implies has_blob(
        t,
        post_id,
        t.assets[id].reference_id,
    ) by {
        let f = t.files[entry_id].position;
        assert(file_holds(p, t, post_id, all, entry_id));
        assert(assets_written(p, t, post_id, entry_id, f, assets_of(p, f, all, 0)));
        assert(asset_holds(p, t, post_id, entry_id, f, assets_of(p, f, all, 0), id));
        lemma_file_occurs(files, f);
        lemma_record_sized(
            t,
            s,
            plan.occurrences,
            files[f].support_assets@[t.assets[id].position].blob.record,
        );
    }
}

/// A post that was published, and is read from tables that keep it as the publication left it, is
/// the one that was requested: it is assembled without a fault, with the title, the commentary, the
/// predecessor, the time and the provenance of the request, and with its files and their support
/// assets, each at its place with its digest and its size.
pub proof fn law_a_published_post_is_read_as_requested(
    p: Publication,
    plan: PublishPlan,
    states: Seq<PublishState>,
    answers: Seq<PublishAnswer>,
    worlds: Seq<World>,
    record: PostRecord,
    later: Tables,
    raw: RawPost,
    raw_files: Seq<RawFile>,
    ids: Seq<i64>,
    asset_ids: Seq<Seq<i64>>,
)
    requires
        effects::publishes(p, plan, states, answers, worlds),
        owners_are_there(worlds[0].tables),
        states.last().outcome == Some(Ok::<PostRecord, StoreError>(record)),
        permanence::keeps_post(worlds.last().tables, later, record.id),
        loads(later, record.id, raw, raw_files, ids, asset_ids),
        p.request.files@.len() <= u32::MAX,
        rows::git_is_valid(p.request),
    ensures
        read::git_fits(raw),
        read::files_fault(raw_files, 0) is None,
        forall|post: PostRead|
            #![trigger rows::reads_back(post, p.request, record, p.classes)]
            read::post_is(post, raw, raw_files) ==> rows::reads_back(
                post,
                p.request,
                record,
                p.classes,
            ),
{
    let end = states.len() - 1;
    let t = worlds.last().tables;
    lemma_goes_well(p, plan, states, answers, worlds, end);
    assert(publishing::consistent(plan, states[end]));
    let all = p.request.files@.len() as int;
    let first = worlds[0].tables;
    let s = states[end];
    assert(writes(p, plan, first, s, t, record.session_id, record.id, all, all, 0));
    lemma_written_is_whole(p, plan, first, s, t, record.session_id, record.id);
    lemma_read_as_before(t, later, record.id, raw, raw_files, ids, asset_ids);
    lemma_files_read(
        p,
        plan,
        first,
        s,
        t,
        record.session_id,
        record.id,
        raw_files,
        ids,
        asset_ids,
        raw,
    );
    assert(rows::is_row_of(raw, p.request, record));
    rows::law_requested_rows_read_back(p.request, record, p.classes, raw, raw_files);
}

} // verus!
