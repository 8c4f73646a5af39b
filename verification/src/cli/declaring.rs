//! What is declared of a publication that is ready: what was asked for, and what was found.
use vstd::prelude::*;
use vstd::utf8::*;
use crate::api::manifest::PublicationManifest;
use crate::cli::flags::InputModel;
use crate::cli::publication;
use crate::cli::publication::{OpenAnswer, PreparationModel, PrepareAnswer, PrepareModel};
use crate::path;
use crate::storage::read;
use crate::storage::read::GitProvenance;
use crate::text;

verus! {

/// Whether these are the states and the answers of one preparation of the input, step by step.
pub open spec fn prepares(
    input: InputModel,
    states: Seq<PreparationModel>,
    answers: Seq<PrepareAnswer>,
) -> bool {
    &&& states.len() == answers.len() + 1
    &&& states[0] == publication::prepare_start(input)
    &&& forall|k: int|
        0 <= k < answers.len() ==> states[k + 1] == publication::prepare_after(
            states[k],
            #[trigger] answers[k],
        )
}

/// Whether the answer says where the working directory is.
pub open spec fn places(answer: PrepareAnswer, directory: Seq<u8>) -> bool {
    answer matches PrepareAnswer::Directory(Ok((found, is_directory))) && is_directory && found@
        == directory
}

/// Whether one of the first `n` answers says where the working directory is.
pub open spec fn is_placed(answers: Seq<PrepareAnswer>, n: int, directory: Seq<u8>) -> bool {
    exists|k: int| 0 <= k < n && places(#[trigger] answers[k], directory)
}

/// Whether the answer says what Git knows.
pub open spec fn tells_git(
    answer: PrepareAnswer,
    git: Option<(Seq<char>, Option<Seq<char>>, Option<Seq<char>>)>,
) -> bool {
    answer matches PrepareAnswer::Git(Ok(found)) && git_is(found, git)
}

/// Whether the provenance has these parts.
pub open spec fn git_is(
    found: Option<GitProvenance>,
    git: Option<(Seq<char>, Option<Seq<char>>, Option<Seq<char>>)>,
) -> bool {
    match (found, git) {
        (None, None) => true,
        (Some(provenance), Some((root, branch, commit))) => {
            &&& provenance.root@ == root
            &&& match (provenance.branch, branch) {
                (None, None) => true,
                (Some(name), Some(model)) => name@ == model,
                _ => false,
            }
            &&& match (provenance.commit, commit) {
                (None, None) => true,
                (Some(name), Some(model)) => name@ == model,
                _ => false,
            }
        },
        _ => false,
    }
}

/// Whether one of the first `n` answers says what Git knows.
pub open spec fn git_is_told(
    answers: Seq<PrepareAnswer>,
    n: int,
    git: Option<(Seq<char>, Option<Seq<char>>, Option<Seq<char>>)>,
) -> bool {
    exists|k: int| 0 <= k < n && tells_git(#[trigger] answers[k], git)
}

/// Whether the answer gives the path of a file.
pub open spec fn finds(answer: PrepareAnswer, canonical: Seq<u8>) -> bool {
    answer matches PrepareAnswer::Source(Ok(found)) && found@ == canonical
}

/// Whether one of the first `n` answers gives the path of a file.
pub open spec fn is_found(answers: Seq<PrepareAnswer>, n: int, canonical: Seq<u8>) -> bool {
    exists|k: int| 0 <= k < n && finds(#[trigger] answers[k], canonical)
}

/// Whether the answer gives the size of a regular file.
pub open spec fn measures(answer: PrepareAnswer, size: u64) -> bool {
    answer matches PrepareAnswer::Opened(OpenAnswer::Opened { regular, byte_size }) && regular
        && byte_size == size
}

/// Whether one of the first `n` answers gives the size of a regular file.
pub open spec fn is_measured(answers: Seq<PrepareAnswer>, n: int, size: u64) -> bool {
    exists|k: int| 0 <= k < n && measures(#[trigger] answers[k], size)
}

/// Whether the answer gives the paths of what a file depends on.
pub open spec fn collects(answer: PrepareAnswer, assets: Seq<Seq<char>>) -> bool {
    answer matches PrepareAnswer::Assets(Ok(found)) && found@.len() == assets.len() && forall|j: int|
        0 <= j < assets.len() ==> found@[j]@ == #[trigger] assets[j]
}

/// Whether one of the first `n` answers gives the paths of what a file depends on.
pub open spec fn are_collected(answers: Seq<PrepareAnswer>, n: int, assets: Seq<Seq<char>>) -> bool {
    exists|k: int| 0 <= k < n && collects(#[trigger] answers[k], assets)
}

/// What holds of the prepared file at a place after `n` answers.
spec fn is_faithful(
    input: InputModel,
    state: PreparationModel,
    answers: Seq<PrepareAnswer>,
    n: int,
    i: int,
) -> bool {
    let file = state.files[i];
    let source = input.files[i];
    &&& file.caption == source.caption
    &&& file.media_type == source.media_type
    &&& source.published_filename matches Some(name) ==> file.filename == name
    &&& source.published_filename is None ==> is_own_name(state.seen[i], file.filename)
    &&& is_measured(answers, n, file.byte_size)
    &&& !source.collect_assets ==> file.assets.len() == 0
    &&& source.collect_assets ==> are_collected(answers, n, file.assets)
}

/// Whether the name is the last part of the path, where that is text, and no name where it is not.
pub open spec fn is_own_name(canonical: Seq<u8>, name: Seq<char>) -> bool {
    match path::byte_name(canonical) {
        Some(own) => if valid_utf8(own) {
            name == decode_utf8(own)
        } else {
            name.len() == 0
        },
        None => name.len() == 0,
    }
}

/// What holds of the name and the size of the file at hand.
spec fn hand_is_faithful(
    input: InputModel,
    state: PreparationModel,
    answers: Seq<PrepareAnswer>,
    n: int,
) -> bool {
    let source = input.files[state.files.len() as int];
    &&& source.collect_assets
    &&& source.published_filename matches Some(name) ==> state.name == name
    &&& source.published_filename is None ==> is_own_name(state.seen.last(), state.name)
    &&& is_measured(answers, n, state.byte_size)
}

spec fn faithful(
    input: InputModel,
    state: PreparationModel,
    answers: Seq<PrepareAnswer>,
    n: int,
) -> bool {
    &&& state.input == input
    &&& state.files.len() <= input.files.len()
    &&& forall|i: int| 0 <= i < state.files.len() ==> #[trigger] is_faithful(input, state, answers, n, i)
    &&& forall|i: int| 0 <= i < state.seen.len() ==> is_found(answers, n, #[trigger] state.seen[i])
    &&& match state.step {
        PrepareModel::ResolveDirectory => state.files.len() == 0 && state.seen.len() == 0
            && input.files.len() > 0,
        PrepareModel::ResolveSource => {
            &&& is_placed(answers, n, state.directory)
            &&& state.files.len() < input.files.len()
            &&& state.seen.len() == state.files.len()
        },
        PrepareModel::OpenSource => {
            &&& is_placed(answers, n, state.directory)
            &&& state.files.len() < input.files.len()
            &&& state.seen.len() == state.files.len() + 1
        },
        PrepareModel::CollectAssets => {
            &&& is_placed(answers, n, state.directory)
            &&& state.files.len() < input.files.len()
            &&& state.seen.len() == state.files.len() + 1
            &&& hand_is_faithful(input, state, answers, n)
        },
        PrepareModel::CollectGit => {
            &&& is_placed(answers, n, state.directory)
            &&& state.files.len() == input.files.len()
            &&& state.seen.len() == state.files.len()
        },
        PrepareModel::Ready => {
            &&& is_placed(answers, n, state.directory)
            &&& state.files.len() == input.files.len()
            &&& state.seen.len() == state.files.len()
            &&& git_is_told(answers, n, state.git)
            &&& valid_utf8(state.directory)
        },
        PrepareModel::Failed(_) => true,
    }
}

proof fn lemma_longer(
    input: InputModel,
    state: PreparationModel,
    answers: Seq<PrepareAnswer>,
    n: int,
)
    requires
        0 <= n < answers.len(),
        faithful(input, state, answers, n),
    ensures
        faithful(input, state, answers, n + 1),
{
    let m = n + 1;
    assert forall|i: int| 0 <= i < state.files.len() implies #[trigger] is_faithful(
        input,
        state,
        answers,
        m,
        i,
    ) by {
        assert(is_faithful(input, state, answers, n, i));
    }
}

proof fn lemma_file_added(
    input: InputModel,
    state: PreparationModel,
    answers: Seq<PrepareAnswer>,
    n: int,
    assets: Seq<Seq<char>>,
)
    requires
        0 <= n <= answers.len(),
        state.input == input,
        state.files.len() < input.files.len(),
        state.seen.len() == state.files.len() + 1,
        is_placed(answers, n, state.directory),
        forall|i: int| 0 <= i < state.files.len() ==> #[trigger] is_faithful(input, state, answers, n, i),
        forall|i: int| 0 <= i < state.seen.len() ==> is_found(answers, n, #[trigger] state.seen[i]),
        ({
            let source = input.files[state.files.len() as int];
            &&& source.published_filename matches Some(name) ==> state.name == name
            &&& source.published_filename is None ==> is_own_name(state.seen.last(), state.name)
            &&& is_measured(answers, n, state.byte_size)
            &&& !source.collect_assets ==> assets.len() == 0
            &&& source.collect_assets ==> are_collected(answers, n, assets)
        }),
    ensures
        faithful(input, publication::with_file(state, assets), answers, n),
{
    let next = publication::with_file(state, assets);
    assert forall|i: int| 0 <= i < next.files.len() implies #[trigger] is_faithful(
        input,
        next,
        answers,
        n,
        i,
    ) by {
        if i < state.files.len() {
            assert(next.files[i] == state.files[i]);
            assert(is_faithful(input, state, answers, n, i));
        }
    }
}

proof fn lemma_git_is(found: Option<GitProvenance>)
    ensures
        git_is(found, read::git_parts(found)),
{
}

proof fn lemma_step(
    input: InputModel,
    state: PreparationModel,
    answers: Seq<PrepareAnswer>,
    n: int,
)
    requires
        0 <= n < answers.len(),
        faithful(input, state, answers, n),
    ensures
        faithful(input, publication::prepare_after(state, answers[n]), answers, n + 1),
{
    lemma_longer(input, state, answers, n);
    let m = n + 1;
    let next = publication::prepare_after(state, answers[n]);
    match (state.step, answers[n]) {
        (PrepareModel::ResolveDirectory, PrepareAnswer::Directory(Ok((found, is_directory)))) => {
            if is_directory {
                assert(places(answers[n], found@));
            }
        },
        (PrepareModel::ResolveSource, PrepareAnswer::Source(Ok(canonical))) => {
            assert(finds(answers[n], canonical@));
            assert forall|i: int| 0 <= i < next.files.len() implies #[trigger] is_faithful(
                input,
                next,
                answers,
                m,
                i,
            ) by {
                assert(is_faithful(input, state, answers, m, i));
            }
        },
        (
            PrepareModel::OpenSource,
            PrepareAnswer::Opened(OpenAnswer::Opened { regular, byte_size }),
        ) => {
            let source = publication::file_at_hand(state);
            let name = publication::chosen_name(source, state.seen.last());
            if regular && publication::source_fault(source, name) is None {
                assert(measures(answers[n], byte_size));
                reveal_strlit("");
                let named = PreparationModel { name, byte_size, ..state };
                assert forall|i: int| 0 <= i < named.files.len() implies #[trigger] is_faithful(
                    input,
                    named,
                    answers,
                    m,
                    i,
                ) by {
                    assert(is_faithful(input, state, answers, m, i));
                }
                if !source.collect_assets {
                    lemma_file_added(input, named, answers, m, Seq::empty());
                } else {
                    assert forall|i: int| 0 <= i < next.files.len() implies #[trigger] is_faithful(
                        input,
                        next,
                        answers,
                        m,
                        i,
                    ) by {
                        assert(is_faithful(input, named, answers, m, i));
                    }
                }
            }
        },
        (PrepareModel::CollectAssets, PrepareAnswer::Assets(Ok(assets))) => {
            assert(collects(answers[n], text::texts(assets@)));
            lemma_file_added(input, state, answers, m, text::texts(assets@));
        },
        (PrepareModel::CollectGit, PrepareAnswer::Git(Ok(git))) => {
            if next.step is Ready {
                lemma_git_is(git);
                assert(tells_git(answers[n], next.git));
            }
        },
        _ => {},
    }
    if next.files == state.files {
        assert forall|i: int| 0 <= i < next.files.len() implies #[trigger] is_faithful(
            input,
            next,
            answers,
            m,
            i,
        ) by {
            assert(is_faithful(input, state, answers, m, i));
        }
    }
}

proof fn lemma_run(
    input: InputModel,
    states: Seq<PreparationModel>,
    answers: Seq<PrepareAnswer>,
    n: int,
)
    requires
        prepares(input, states, answers),
        0 <= n < states.len(),
    ensures
        faithful(input, states[n], answers, n),
    decreases n,
{
    if n > 0 {
        lemma_run(input, states, answers, n - 1);
        lemma_step(input, states[n - 1], answers, n - 1);
        assert(states[n] == publication::prepare_after(states[n - 1], answers[n - 1]));
    }
}

/// The manifest of a publication that is ready declares what was asked for: its session, its
/// project, its title, its commentary and its predecessor; the working directory that was found;
/// and the provenance that Git told.
pub proof fn law_manifests_declare_the_input(
    input: InputModel,
    states: Seq<PreparationModel>,
    answers: Seq<PrepareAnswer>,
    declared: PublicationManifest,
    git: Option<(Seq<char>, Option<Seq<char>>, Option<Seq<char>>)>,
)
    requires
        prepares(input, states, answers),
        states.last().step is Ready,
        publication::describes(declared, states.last()),
        git_is(declared.git, git),
    ensures
        declared.integration_namespace@ == input.integration_namespace,
        declared.external_key@ == input.external_key,
        declared.project_label@ == input.project_label,
        declared.title@ == input.title,
        declared.commentary@ == input.commentary,
        declared.predecessor_post_id == input.predecessor_post_id,
        exists|directory: Seq<u8>|
            valid_utf8(directory) && declared.working_directory@ == decode_utf8(directory)
                && #[trigger] is_placed(answers, answers.len() as int, directory),
        git_is_told(answers, answers.len() as int, git),
{
    lemma_run(input, states, answers, states.len() - 1);
    let state = states.last();
    assert(is_placed(answers, answers.len() as int, state.directory));
    lemma_git_parts(declared.git, git);
    assert(state.git == git);
}

proof fn lemma_git_parts(
    found: Option<GitProvenance>,
    git: Option<(Seq<char>, Option<Seq<char>>, Option<Seq<char>>)>,
)
    requires
        git_is(found, git),
    ensures
        read::git_parts(found) == git,
{
}

/// The manifest of a publication that is ready declares the files that were asked for, all of them
/// and in their order: each under the name that was requested, or else under its own; with its
/// caption and its media type; and with what it depends on, where that was to be collected. No two
/// of them are the same file, and what is announced of each is its size.
pub proof fn law_manifests_declare_the_files(
    input: InputModel,
    states: Seq<PreparationModel>,
    answers: Seq<PrepareAnswer>,
    declared: PublicationManifest,
    i: int,
)
    requires
        prepares(input, states, answers),
        states.last().step is Ready,
        publication::describes(declared, states.last()),
        0 <= i < input.files.len(),
    ensures
        declared.files@.len() == input.files.len(),
        match (declared.files@[i].caption, input.files[i].caption) {
            (Some(caption), Some(asked)) => caption@ == asked,
            (None, None) => true,
            _ => false,
        },
        match (declared.files@[i].media_type, input.files[i].media_type) {
            (Some(media_type), Some(asked)) => media_type@ == asked,
            (None, None) => true,
            _ => false,
        },
        input.files[i].published_filename matches Some(name) ==> declared.files@[i].filename@
            == name,
        input.files[i].published_filename is None ==> exists|canonical: Seq<u8>| #[trigger]
            is_found(answers, answers.len() as int, canonical) && is_own_name(
                canonical,
                declared.files@[i].filename@,
            ),
        !input.files[i].collect_assets ==> declared.files@[i].support_assets@.len() == 0,
        input.files[i].collect_assets ==> exists|assets: Seq<Seq<char>>| #[trigger]
            are_collected(answers, answers.len() as int, assets)
                && declared.files@[i].support_assets@.len() == assets.len() && forall|j: int|
                0 <= j < assets.len() ==> (
                #[trigger] declared.files@[i].support_assets@[j]).relative_path@ == assets[j],
        is_measured(answers, answers.len() as int, states.last().files[i].byte_size),
{
    lemma_run(input, states, answers, states.len() - 1);
    let state = states.last();
    let n = answers.len() as int;
    assert(is_faithful(input, state, answers, n, i));
    assert(publication::describes_file(declared.files@[i], state.files[i], i));
    if input.files[i].published_filename is None {
        assert(is_found(answers, n, state.seen[i]));
    }
    if input.files[i].collect_assets {
        assert(are_collected(answers, n, state.files[i].assets));
    }
}

} // verus!
