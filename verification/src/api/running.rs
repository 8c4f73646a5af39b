//! What a whole reception comes to, from what arrives to what is published.
use vstd::prelude::*;
use crate::api::manifest::PublicationManifest;
use crate::api::receiving;
use crate::api::reception;
use crate::api::reception::{ReceiveAnswer, Reception};
use crate::storage::publication::PublicationRequest;
use crate::storage::publishing::Publishing;
use crate::storage::read;
use crate::text;

verus! {

/// Whether this manifest was read where one was to be.
pub open spec fn is_read(
    runs: Seq<Reception>,
    answers: Seq<ReceiveAnswer>,
    declared: PublicationManifest,
) -> bool {
    exists|k: int|
        0 <= k < answers.len() && (#[trigger] runs[k])@.step is ParseManifest && answers[k]
            == ReceiveAnswer::Parsed(Some(declared))
}

/// However a publication was received, what is asked of the store is what the manifest that was read
/// declares: its title, its commentary, its predecessor, its provenance, and every file in its place under
/// its name and with its caption; in the session that it was received for.
pub proof fn law_what_is_declared_is_requested(
    runs: Seq<Reception>,
    answers: Seq<ReceiveAnswer>,
    session_public_id: &str,
    result: Option<PublicationRequest>,
    i: int,
)
    requires
        runs.len() == answers.len() + 1,
        call_ensures(Reception::start, (), runs[0]),
        forall|k: int|
            0 <= k < answers.len() ==> call_ensures(
                Reception::advance,
                (runs[k], #[trigger] answers[k]),
                runs[k + 1],
            ),
        call_ensures(Reception::request, (&runs.last(), session_public_id), result),
        result is Some,
    ensures
        exists|declared: PublicationManifest|
            {
                &&& #[trigger] is_read(runs, answers, declared)
                &&& result->0.session_public_id@ == session_public_id@
                &&& result->0.title@ == declared.title@
                &&& result->0.commentary@ == declared.commentary@
                &&& result->0.predecessor_post_id == declared.predecessor_post_id
                &&& read::git_parts(result->0.git) == read::git_parts(declared.git)
                &&& result->0.files@.len() == declared.files@.len()
                &&& 0 <= i < declared.files@.len() ==> result->0.files@[i].filename@
                    == declared.files@[i].filename@ && text::optional(result->0.files@[i].caption)
                    == text::optional(declared.files@[i].caption)
                    && result->0.files@[i].support_assets@.len()
                    == declared.files@[i].support_assets@.len()
            },
{
    let states = Seq::new(runs.len(), |k: int| runs[k]@);
    assert forall|k: int| 0 <= k < answers.len() implies states[k + 1] == reception::received(
        states[k],
        #[trigger] answers[k],
    ) by {
        assert(call_ensures(Reception::advance, (runs[k], answers[k]), runs[k + 1]));
    }
    assert(receiving::is_received(states, answers));
    let n = answers.len() as int;
    assert(states[n] == runs.last()@);
    receiving::law_the_read_manifest_is_kept(states, answers, n);
    let declared = states[n].manifest->0;
    let k = choose|k: int|
        0 <= k < n && (#[trigger] states[k]).step is ParseManifest && answers[k]
            == ReceiveAnswer::Parsed(Some(declared));
    assert(runs[k]@.step is ParseManifest);
    assert(is_read(runs, answers, declared));
    if 0 <= i < declared.files@.len() {
        assert(crate::api::manifest::file_matches(
            result->0.files@[i],
            declared.files@[i],
            states[n].staged,
            states[n].blobs,
        ));
    }
}

/// A publication is planned as it was requested: in its session, after its predecessor, at its time and
/// within the budget, with the sources of its files and the number of their support files.
pub proof fn law_what_is_requested_is_planned(
    request: &PublicationRequest,
    published_at: i64,
    budget: u64,
    run: Publishing,
    i: int,
)
    requires
        call_ensures(Publishing::start, (request, published_at, budget), run),
    ensures
        run.plan().session_public_id@ == request.session_public_id@,
        run.plan().predecessor_post_id == request.predecessor_post_id,
        run.plan().published_at == published_at,
        run.plan().budget == budget,
        run.plan().asset_counts.len() == request.files@.len(),
        0 <= i < request.files@.len() ==> run.plan().asset_counts[i]
            == request.files@[i].support_assets@.len() as usize,
        run@.links.len() == 0,
        run@.additional == 0,
        run@.failure is None,
        run@.outcome is None,
        run@.step is FindSession,
{
}

} // verus!
