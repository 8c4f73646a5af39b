//! What is promised of the files that are collected.
use vstd::prelude::*;
use crate::api::paths;
use crate::cli::assets::collection;
use crate::cli::assets::collection::{CollectAnswer, CollectionModel, PendingModel, StepModel};
use crate::cli::assets::css;
use crate::cli::assets::html;
use crate::cli::assets::reference;
use crate::text;

verus! {

/// Whether a directory is the document's own or that of a support path.
pub open spec fn is_support_directory(base: Seq<char>) -> bool {
    base.len() == 0 || paths::is_support_path(base)
}

/// The support path at hand, where there is one.
pub open spec fn at_hand(step: StepModel) -> Option<Seq<char>> {
    match step {
        StepModel::Resolve(location) => Some(location),
        StepModel::Open(location) => Some(location),
        StepModel::ReadCss(location) => Some(location),
        _ => None,
    }
}

/// What holds of the references that are still to be followed.
pub open spec fn has_sound_pending(pending: Seq<PendingModel>) -> bool {
    forall|i: int|
        0 <= i < pending.len() ==> is_support_directory((#[trigger] pending[i]).base)
            && pending[i].depth <= collection::MAX_CSS_RECURSION_DEPTH
}

/// What holds of the files that were collected.
pub open spec fn has_sound_assets(assets: Seq<Seq<char>>, seen: Seq<Seq<char>>) -> bool {
    &&& assets.len() <= collection::MAX_SUPPORT_ASSETS
    &&& assets.no_duplicates()
    &&& forall|i: int|
        0 <= i < assets.len() ==> seen.contains(#[trigger] assets[i]) && paths::is_support_path(
            assets[i],
        ) && collection::is_supported(assets[i])
}

/// What holds of a collection throughout.
pub open spec fn is_sound(state: CollectionModel) -> bool {
    &&& has_sound_pending(state.pending)
    &&& has_sound_assets(state.assets, state.seen)
    &&& state.step is Failed || state.followed <= html::MAX_REFERENCES
    &&& at_hand(state.step) matches Some(location) ==> {
        &&& paths::is_support_path(location)
        &&& collection::is_supported(location)
        &&& state.seen.contains(location)
        &&& !state.assets.contains(location)
        &&& state.assets.len() < collection::MAX_SUPPORT_ASSETS
    }
    &&& state.step is ReadCss ==> state.depth < collection::MAX_CSS_RECURSION_DEPTH
}

proof fn lemma_push_contains<T>(s: Seq<T>, added: T, x: T)
    requires
        s.contains(x),
    ensures
        s.push(added).contains(x),
{
    let k = choose|k: int| 0 <= k < s.len() && s[k] == x;
    assert(s.push(added)[k] == x);
}

proof fn lemma_seen_more(assets: Seq<Seq<char>>, seen: Seq<Seq<char>>, location: Seq<char>)
    requires
        has_sound_assets(assets, seen),
    ensures
        has_sound_assets(assets, seen.push(location)),
{
    let more = seen.push(location);
    assert forall|i: int| 0 <= i < assets.len() implies more.contains(#[trigger] assets[i])
        && paths::is_support_path(assets[i]) && collection::is_supported(assets[i]) by {
        lemma_push_contains(seen, location, assets[i]);
    }
}

proof fn lemma_settled(state: CollectionModel)
    requires
        has_sound_pending(state.pending),
        has_sound_assets(state.assets, state.seen),
        state.followed <= html::MAX_REFERENCES,
    ensures
        is_sound(collection::settled(state)),
    decreases state.pending.len(),
{
    if state.pending.len() > 0 {
        let item = state.pending.last();
        assert(is_support_directory(state.pending[state.pending.len() - 1].base));
        let taken = CollectionModel {
            pending: state.pending.drop_last(),
            followed: state.followed + 1,
            depth: item.depth,
            ..state
        };
        assert(has_sound_pending(taken.pending)) by {
            assert forall|i: int| 0 <= i < taken.pending.len() implies is_support_directory(
                (#[trigger] taken.pending[i]).base,
            ) && taken.pending[i].depth <= collection::MAX_CSS_RECURSION_DEPTH by {
                assert(taken.pending[i] == state.pending[i]);
            }
        }
        if taken.followed <= html::MAX_REFERENCES {
            match reference::normalized(item.reference, item.base) {
                Err(_) => {},
                Ok(None) => {
                    lemma_settled(taken);
                },
                Ok(Some(location)) => {
                    if taken.seen.contains(location) {
                        lemma_settled(taken);
                    } else {
                        reference::law_references_stay_below(item.reference, item.base);
                        lemma_seen_more(state.assets, state.seen, location);
                        let more = state.seen.push(location);
                        assert(more[more.len() - 1] == location);
                        if state.assets.contains(location) {
                            let k = choose|k: int|
                                0 <= k < state.assets.len() && state.assets[k] == location;
                            assert(state.seen.contains(state.assets[k]));
                        }
                    }
                },
            }
        }
    }
}

proof fn lemma_with_asset(assets: Seq<Seq<char>>, seen: Seq<Seq<char>>, location: Seq<char>)
    requires
        has_sound_assets(assets, seen),
        paths::is_support_path(location),
        collection::is_supported(location),
        seen.contains(location),
        !assets.contains(location),
        assets.len() < collection::MAX_SUPPORT_ASSETS,
    ensures
        has_sound_assets(assets.push(location), seen),
{
    let more = assets.push(location);
    assert forall|a: int, b: int| 0 <= a < more.len() && 0 <= b < more.len() && a != b implies more[a]
        != more[b] by {
        if a == assets.len() {
            assert(assets[b] == more[b]);
        } else if b == assets.len() {
            assert(assets[a] == more[a]);
        }
    }
    assert forall|i: int| 0 <= i < more.len() implies seen.contains(#[trigger] more[i])
        && paths::is_support_path(more[i]) && collection::is_supported(more[i]) by {
        if i < assets.len() {
            assert(more[i] == assets[i]);
        }
    }
}

proof fn lemma_last_separator(s: Seq<char>)
    ensures
        match collection::last_separator(s) {
            Some(at) => 0 <= at < s.len() && s[at] == '/' && !s.skip(at + 1).contains('/'),
            None => !s.contains('/'),
        },
    decreases s.len(),
{
    if s.len() > 0 {
        if s.last() == '/' {
            assert(s.skip(s.len() as int).len() == 0);
        } else {
            let shorter = s.drop_last();
            lemma_last_separator(shorter);
            match collection::last_separator(shorter) {
                Some(at) => {
                    let tail = s.skip(at + 1);
                    if tail.contains('/') {
                        let k = choose|k: int| 0 <= k < tail.len() && tail[k] == '/';
                        if k < tail.len() - 1 {
                            assert(shorter.skip(at + 1)[k] == '/');
                        }
                    }
                },
                None => {
                    if s.contains('/') {
                        let k = choose|k: int| 0 <= k < s.len() && s[k] == '/';
                        assert(shorter[k] == '/');
                    }
                },
            }
        }
    }
}

proof fn lemma_directory(location: Seq<char>)
    requires
        paths::is_support_path(location),
    ensures
        is_support_directory(collection::directory_of(location)),
{
    lemma_last_separator(location);
    if let Some(at) = collection::last_separator(location) {
        let head = location.take(at);
        let tail = location.skip(at + 1);
        assert(location =~= head + seq!['/'] + tail);
        reference::lemma_split_after(head, tail);
        let parts = text::split(head, '/');
        let whole = text::split(location, '/');
        if paths::has_idle_part(parts) {
            let i = choose|i: int|
                0 <= i < parts.len() && ((#[trigger] parts[i]).len() == 0 || parts[i] == "."@
                    || parts[i] == ".."@);
            assert(whole[i] == parts[i]);
        }
        if head.contains('\\') {
            let k = choose|k: int| 0 <= k < head.len() && head[k] == '\\';
            assert(location[k] == '\\');
        }
        if text::has_control(head) {
            let k = choose|k: int| 0 <= k < head.len() && text::is_control(#[trigger] head[k]);
            assert(text::is_control(location[k]));
        }
    }
}

/// A collection starts sound and stays so with every step. The files that it collects are 255 at
/// most, no one twice, each of a supported type and under a support path that the daemon serves,
/// whatever the documents refer to; no more than 512 references are followed, and CSS is read no
/// more than eight imports deep.
pub proof fn law_collection_stays_sound(
    root: Seq<u8>,
    references: Seq<Seq<char>>,
    state: CollectionModel,
    answer: CollectAnswer,
)
    requires
        is_sound(state),
    ensures
        is_sound(collection::collection_start(root, references)),
        is_sound(collection::collection_after(state, answer)),
{
    let first = collection::stacked(references, Seq::empty(), 0);
    assert(has_sound_pending(first));
    lemma_settled(
        CollectionModel {
            root,
            pending: first,
            seen: Seq::empty(),
            assets: Seq::empty(),
            followed: 0,
            depth: 0,
            step: StepModel::Done,
        },
    );
    match (state.step, answer) {
        (StepModel::Open(location), CollectAnswer::Opened(opened)) => {
            if collection::open_fault(location, opened) is None && !collection::is_css(location) {
                lemma_with_asset(state.assets, state.seen, location);
                lemma_settled(collection::with_asset(state, location));
            }
        },
        (StepModel::ReadCss(location), CollectAnswer::Css(Ok(tokens))) => {
            let models = css::token_models(tokens@);
            if let Ok(found) = css::token_references(models) {
                lemma_with_asset(state.assets, state.seen, location);
                lemma_directory(location);
                let added = collection::stacked(
                    found,
                    collection::directory_of(location),
                    (state.depth + 1) as usize,
                );
                let next = CollectionModel {
                    pending: state.pending + added,
                    ..collection::with_asset(state, location)
                };
                assert forall|i: int| 0 <= i < next.pending.len() implies is_support_directory(
                    (#[trigger] next.pending[i]).base,
                ) && next.pending[i].depth <= collection::MAX_CSS_RECURSION_DEPTH by {
                    if i < state.pending.len() {
                        assert(next.pending[i] == state.pending[i]);
                    } else {
                        assert(next.pending[i] == added[i - state.pending.len()]);
                    }
                }
                lemma_settled(next);
            }
        },
        _ => {},
    }
}

} // verus!
