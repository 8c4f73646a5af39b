//! A publication as it is received: what arrives is what is kept, in the order in which it arrives.
use vstd::prelude::*;
use vstd::utf8::*;
use crate::api::manifest;
use crate::api::manifest::PublicationManifest;
use crate::api::reception;
use crate::api::reception::{
    FieldAnswer,
    PieceAnswer,
    ReceiveAnswer,
    ReceiveModel,
    ReceptionModel,
    StageAnswer,
};
use crate::storage::publication::StagedPublicationBlob;

verus! {

/// Whether these are the states and the answers of one reception, step by step.
pub open spec fn is_received(states: Seq<ReceptionModel>, answers: Seq<ReceiveAnswer>) -> bool {
    &&& states.len() == answers.len() + 1
    &&& states[0] == reception::expectant()
    &&& forall|k: int|
        0 <= k < answers.len() ==> states[k + 1] == reception::received(
            states[k],
            #[trigger] answers[k],
        )
}

/// The bytes of the manifest that came in the first `k` answers.
pub open spec fn manifest_bytes(
    states: Seq<ReceptionModel>,
    answers: Seq<ReceiveAnswer>,
    k: int,
) -> Seq<u8>
    decreases k,
{
    if k <= 0 {
        Seq::empty()
    } else {
        let before = manifest_bytes(states, answers, k - 1);
        match (states[k - 1].step, answers[k - 1]) {
            (ReceiveModel::ReadManifest, ReceiveAnswer::Piece(PieceAnswer::Piece(bytes))) => before
                + bytes@,
            _ => before,
        }
    }
}

/// The parts that were staged by the first `k` answers: their names and their blobs.
pub open spec fn staged_parts(
    states: Seq<ReceptionModel>,
    answers: Seq<ReceiveAnswer>,
    k: int,
) -> Seq<(Seq<char>, StagedPublicationBlob)>
    decreases k,
{
    if k <= 0 {
        Seq::empty()
    } else {
        let before = staged_parts(states, answers, k - 1);
        match (states[k - 1].step, answers[k - 1]) {
            (ReceiveModel::StagePart(name), ReceiveAnswer::Staged(StageAnswer::Staged(blob))) => {
                before.push((name, blob))
            },
            _ => before,
        }
    }
}

/// What is kept while a publication is received: the manifest's bytes as they came, all of them and in
/// order; the text that they are, when it is to be read; and each part that was staged, under its name
/// and in order.
pub proof fn law_what_arrives_is_kept(
    states: Seq<ReceptionModel>,
    answers: Seq<ReceiveAnswer>,
    k: int,
)
    requires
        is_received(states, answers),
        0 <= k < states.len(),
    ensures
        !(states[k].step is Failed) ==> states[k].bytes == manifest_bytes(states, answers, k),
        states[k].step matches ReceiveModel::ParseManifest(source) ==> valid_utf8(
            manifest_bytes(states, answers, k),
        ) && source == decode_utf8(manifest_bytes(states, answers, k)),
        states[k].staged.len() == staged_parts(states, answers, k).len(),
        states[k].blobs.len() == staged_parts(states, answers, k).len(),
        forall|i: int|
            0 <= i < states[k].staged.len() ==> (#[trigger] states[k].staged[i], states[k].blobs[i])
                == staged_parts(states, answers, k)[i],
    decreases k,
{
    if k > 0 {
        law_what_arrives_is_kept(states, answers, k - 1);
        let before = states[k - 1];
        assert(states[k - 1 + 1] == reception::received(before, answers[k - 1]));
        assert(states[k] == reception::received(before, answers[k - 1]));
    }
}

/// Whether an answer gave this manifest where one was to be read.
pub open spec fn gave(
    states: Seq<ReceptionModel>,
    answers: Seq<ReceiveAnswer>,
    k: int,
    found: PublicationManifest,
) -> bool {
    exists|j: int|
        0 <= j < k && (#[trigger] states[j]).step is ParseManifest && answers[j]
            == ReceiveAnswer::Parsed(Some(found))
}

/// The manifest that is kept is the one that was read, and its parts are those that it declares.
pub proof fn law_the_read_manifest_is_kept(
    states: Seq<ReceptionModel>,
    answers: Seq<ReceiveAnswer>,
    k: int,
)
    requires
        is_received(states, answers),
        0 <= k < states.len(),
    ensures
        states[k].manifest matches Some(found) ==> gave(states, answers, k, found)
            && manifest::declared_parts(found) == Ok::<Seq<Seq<char>>, crate::api::error::ErrorModel>(
            states[k].declared,
        ),
        states[k].step is AwaitPart || states[k].step is StagePart || states[k].step is Ready
            ==> states[k].manifest is Some,
    decreases k,
{
    if k > 0 {
        law_the_read_manifest_is_kept(states, answers, k - 1);
        let before = states[k - 1];
        assert(states[k - 1 + 1] == reception::received(before, answers[k - 1]));
        if let Some(found) = states[k].manifest {
            if before.manifest == Some(found) {
                let j = choose|j: int|
                    0 <= j < k - 1 && (#[trigger] states[j]).step is ParseManifest && answers[j]
                        == ReceiveAnswer::Parsed(Some(found));
                assert(0 <= j < k && states[j].step is ParseManifest);
            } else {
                assert(states[k - 1].step is ParseManifest && answers[k - 1] == ReceiveAnswer::Parsed(
                    Some(found),
                ));
            }
        }
    }
}

/// Whether the reception ended with this status and code.
pub open spec fn ends_with(state: ReceptionModel, status: u16, code: Seq<char>) -> bool {
    state.step matches ReceiveModel::Failed(answer) && answer.status == status && answer.code == code
}

/// How a reception goes on: the manifest comes first; it is read to its end unless it is longer than 64
/// KiB; it must be text and JSON; and when all parts have come the publication is ready, and before that
/// it is not.
pub proof fn law_how_a_reception_goes_on(state: ReceptionModel, answer: ReceiveAnswer)
    ensures
        ({
            let next = reception::received(state, answer);
            &&& state.step is AwaitManifest ==> {
                &&& answer matches ReceiveAnswer::Field(FieldAnswer::Part(Some(name))) ==> {
                    &&& name@ == "manifest"@ ==> next.step is ReadManifest
                    &&& name@ != "manifest"@ ==> ends_with(next, 400, "manifest_must_be_first"@)
                }
                &&& answer == ReceiveAnswer::Field(FieldAnswer::Part(None)) || answer
                    == ReceiveAnswer::Field(FieldAnswer::End) ==> ends_with(
                    next,
                    400,
                    "manifest_must_be_first"@,
                )
                &&& answer == ReceiveAnswer::Field(FieldAnswer::Interrupted) ==> ends_with(
                    next,
                    400,
                    "multipart_stream_error"@,
                )
            }
            &&& state.step is ReadManifest ==> {
                &&& answer matches ReceiveAnswer::Piece(PieceAnswer::Piece(bytes)) ==> {
                    &&& state.bytes.len() + bytes@.len() <= 64 * 1024 ==> next.step is ReadManifest
                        && next.bytes == state.bytes + bytes@
                    &&& state.bytes.len() + bytes@.len() > 64 * 1024 ==> ends_with(
                        next,
                        413,
                        "manifest_too_large"@,
                    )
                }
                &&& answer == ReceiveAnswer::Piece(PieceAnswer::End) ==> {
                    &&& valid_utf8(state.bytes) ==> next.step == ReceiveModel::ParseManifest(
                        decode_utf8(state.bytes),
                    )
                    &&& !valid_utf8(state.bytes) ==> ends_with(next, 400, "manifest_not_utf8"@)
                }
                &&& answer == ReceiveAnswer::Piece(PieceAnswer::Interrupted) ==> ends_with(
                    next,
                    400,
                    "multipart_stream_error"@,
                )
            }
            &&& state.step is ParseManifest && answer == ReceiveAnswer::Parsed(None) ==> ends_with(
                next,
                400,
                "malformed_manifest"@,
            )
            &&& state.step is AwaitPart ==> {
                &&& answer == ReceiveAnswer::Field(FieldAnswer::End) ==> {
                    &&& state.staged.len() == state.declared.len() ==> next.step is Ready
                    &&& state.staged.len() != state.declared.len() ==> ends_with(
                        next,
                        422,
                        "missing_part"@,
                    )
                }
                &&& answer == ReceiveAnswer::Field(FieldAnswer::Interrupted) ==> ends_with(
                    next,
                    400,
                    "multipart_stream_error"@,
                )
                &&& answer matches ReceiveAnswer::Field(FieldAnswer::Part(Some(name))) ==> (
                name@.len() > 0 && name@ != "manifest"@ && state.declared.contains(name@)
                    && !state.staged.contains(name@) ==> next.step == ReceiveModel::StagePart(name@))
            }
            &&& state.step is StagePart ==> {
                &&& answer matches ReceiveAnswer::Staged(StageAnswer::Staged(blob)) ==> next.step
                    is AwaitPart && next.staged == state.staged.push(state.step->StagePart_0)
                    && next.blobs == state.blobs.push(blob)
                &&& answer matches ReceiveAnswer::Staged(StageAnswer::Refused(refusal)) ==> next.step
                    == ReceiveModel::Failed(refusal@)
                &&& answer == ReceiveAnswer::Staged(StageAnswer::Interrupted) ==> ends_with(
                    next,
                    400,
                    "multipart_stream_error"@,
                )
            }
        }),
{
}

} // verus!
