//! What whole runs of the command line come to, from what they are given to what they give back.
use vstd::prelude::*;
use crate::api::manifest::PublicationManifest;
use crate::cli::assets::collection;
use crate::cli::assets::collection::{AssetCollection, CollectAnswer};
use crate::cli::assets::coverage;
use crate::cli::assets::html;
use crate::cli::assets::html::HtmlElement;
use crate::cli::declaring;
use crate::cli::flags::PublicationInput;
use crate::cli::publication;
use crate::cli::publication::{Preparation, PrepareAnswer};
use crate::text;

verus! {

/// Whether two optional texts say the same.
pub open spec fn same(one: Option<String>, other: Option<String>) -> bool {
    match (one, other) {
        (Some(a), Some(b)) => a@ == b@,
        (None, None) => true,
        _ => false,
    }
}

/// Whether these are the values that a publication of the input goes through, answer by answer.
pub open spec fn is_prepared(
    input: PublicationInput,
    runs: Seq<Preparation>,
    answers: Seq<PrepareAnswer>,
) -> bool {
    &&& runs.len() == answers.len() + 1
    &&& call_ensures(Preparation::start, (input,), runs[0])
    &&& forall|k: int|
        0 <= k < answers.len() ==> call_ensures(
            Preparation::advance,
            (runs[k], #[trigger] answers[k]),
            runs[k + 1],
        )
}

/// However a publication was prepared, its manifest declares what it was asked to publish: the session,
/// the project, the title, the commentary, the predecessor, and every file in its place with its caption
/// and its media type.
pub proof fn law_what_is_asked_is_declared(
    input: PublicationInput,
    runs: Seq<Preparation>,
    answers: Seq<PrepareAnswer>,
    result: Option<PublicationManifest>,
    i: int,
)
    requires
        is_prepared(input, runs, answers),
        call_ensures(Preparation::manifest, (&runs.last(),), result),
        result is Some,
    ensures
        result->0.integration_namespace@ == input.integration_namespace@,
        result->0.external_key@ == input.external_key@,
        result->0.project_label@ == input.project_label@,
        result->0.title@ == input.title@,
        result->0.commentary@ == input.commentary@,
        result->0.predecessor_post_id == input.predecessor_post_id,
        input.files@.len() > 0 ==> result->0.files@.len() == input.files@.len(),
        0 <= i < input.files@.len() ==> {
            &&& same(result->0.files@[i].caption, input.files@[i].caption)
            &&& same(result->0.files@[i].media_type, input.files@[i].media_type)
            &&& input.files@[i].published_filename is Some ==> result->0.files@[i].filename@
                == input.files@[i].published_filename->0@
            &&& !input.files@[i].collect_assets ==> result->0.files@[i].support_assets@.len() == 0
        },
{
    let states = Seq::new(runs.len(), |k: int| runs[k]@);
    assert forall|k: int| 0 <= k < answers.len() implies states[k + 1] == publication::prepare_after(
        states[k],
        #[trigger] answers[k],
    ) by {
        assert(call_ensures(Preparation::advance, (runs[k], answers[k]), runs[k + 1]));
    }
    assert(declaring::prepares(input@, states, answers));
    assert(states.last() == runs.last()@);
    let declared = result->0;
    let git = crate::storage::read::git_parts(declared.git);
    declaring::law_manifests_declare_the_input(input@, states, answers, declared, git);
    assert(input@.files.len() == input.files@.len());
    if 0 <= i < input.files@.len() {
        assert(input@.files[i] == input.files@[i]@);
        declaring::law_manifests_declare_the_files(input@, states, answers, declared, i);
    } else if input.files@.len() > 0 {
        declaring::law_manifests_declare_the_files(input@, states, answers, declared, 0);
    }
}

/// However the files of a document were collected, once that is done every local file that the document
/// refers to is among them.
pub proof fn law_what_is_referred_to_is_collected(
    root: Vec<u8>,
    references: &[String],
    runs: Seq<AssetCollection>,
    answers: Seq<CollectAnswer>,
    assets: &Vec<String>,
    i: int,
)
    requires
        runs.len() == answers.len() + 1,
        call_ensures(AssetCollection::start, (root, references), runs[0]),
        forall|k: int|
            0 <= k < answers.len() ==> call_ensures(
                AssetCollection::advance,
                (runs[k], #[trigger] answers[k]),
                runs[k + 1],
            ),
        runs.last()@.step is Done,
        call_ensures(AssetCollection::assets, (&runs.last(),), assets),
        0 <= i < references@.len(),
    ensures
        coverage::is_served(text::texts(assets@), references@[i]@, Seq::empty()),
{
    let states = Seq::new(runs.len(), |k: int| runs[k]@);
    let given = text::texts(references@);
    assert forall|k: int| 0 <= k < answers.len() implies states[k + 1] == collection::collection_after(
        states[k],
        #[trigger] answers[k],
    ) by {
        assert(call_ensures(AssetCollection::advance, (runs[k], answers[k]), runs[k + 1]));
    }
    assert(coverage::is_collected(root@, given, states, answers));
    assert(states.last() == runs.last()@);
    assert(given.len() == references@.len());
    assert(given[i] == references@[i]@);
    coverage::law_local_references_are_collected(root@, given, states, answers, i);
}

/// Where the references of a document are found, what its images, scripts, frames, players and forms
/// load is among them.
pub proof fn law_what_pages_load_is_found(
    elements: &Option<Vec<HtmlElement>>,
    result: Result<Vec<String>, String>,
    i: int,
)
    requires
        call_ensures(html::html_references_from, (elements,), result),
        *elements is Some,
        result is Ok,
        0 <= i < (*elements)->0@.len(),
    ensures
        ({
            let element = (*elements)->0@[i];
            let found = text::texts(result->Ok_0@);
            &&& (element.name@ == "img"@ || element.name@ == "script"@ || element.name@ == "source"@
                || element.name@ == "video"@ || element.name@ == "audio"@ || element.name@ == "track"@
                || element.name@ == "iframe"@ || element.name@ == "input"@) && element.src is Some
                ==> found.contains(element.src->0@)
            &&& element.name@ == "video"@ && element.poster is Some ==> found.contains(
                element.poster->0@,
            )
            &&& element.name@ == "link"@ && element.href is Some && element.rel is Some
                && coverage::names_style_or_icon(element.rel->0@) ==> found.contains(element.href->0@)
        }),
{
    let list = (*elements)->0@;
    let models = html::element_models(list);
    let found = text::texts(result->Ok_0@);
    assert(models[i] == list[i]@);
    assert(html::document_references(Some(models)) == Ok::<Seq<Seq<char>>, Seq<char>>(found));
    if list[i].src is Some {
        coverage::law_documents_refer_to_what_they_load(models, found, i, list[i].src->0@);
    }
    if list[i].poster is Some {
        coverage::law_documents_refer_to_what_they_load(models, found, i, list[i].poster->0@);
    }
    if list[i].href is Some {
        coverage::law_documents_refer_to_what_they_load(models, found, i, list[i].href->0@);
    }
}

} // verus!
