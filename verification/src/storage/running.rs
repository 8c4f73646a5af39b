//! What files are taken for, and what stages come to, from what they are given to what they give back.
use vstd::prelude::*;
use crate::digest;
use crate::storage::blob::BlobRecord;
use crate::storage::classification;
use crate::storage::classification::{ArtifactRenderer, FileClassification};
use crate::storage::error::StoreError;
use crate::storage::rendering;
use crate::storage::staging;
use crate::storage::staging::{StageAnswer, StageFault, StageKind, Staging};

verus! {

/// Whether this is the type and the way to show it.
pub open spec fn is_class(
    class: FileClassification,
    media_type: Seq<char>,
    renderer: ArtifactRenderer,
) -> bool {
    class.media_type@ == media_type && class.renderer == renderer
}

/// Bytes that start with the mark of a kind of image or of a document are taken for it.
pub proof fn law_marked_bytes_are_recognized(data: &[u8], result: Option<FileClassification>)
    requires
        call_ensures(classification::strong_signature, (data,), result),
    ensures
        rendering::starts(data@, seq![0x89u8, 0x50, 0x4e, 0x47, 0x0d, 0x0a, 0x1a, 0x0a]) ==> result is Some
            && is_class(result->0, "image/png"@, ArtifactRenderer::Image),
        rendering::starts(data@, seq![0xffu8, 0xd8, 0xff]) ==> result is Some && is_class(
            result->0,
            "image/jpeg"@,
            ArtifactRenderer::Image,
        ),
        rendering::starts(data@, seq![0x47u8, 0x49, 0x46, 0x38, 0x37, 0x61]) || rendering::starts(
            data@,
            seq![0x47u8, 0x49, 0x46, 0x38, 0x39, 0x61],
        ) ==> result is Some && is_class(result->0, "image/gif"@, ArtifactRenderer::Image),
        rendering::starts(data@, seq![0x25u8, 0x50, 0x44, 0x46, 0x2d]) ==> result is Some && is_class(
            result->0,
            "application/pdf"@,
            ArtifactRenderer::Pdf,
        ),
{
    rendering::law_marks_tell_the_type(data@);
}

/// A file that is taken is shown as its type is: images as images, sound and video in players, pages as
/// pages, and what may be anything as a download alone.
pub proof fn law_files_are_shown_as_their_type(
    prefix: &[u8],
    truncated: bool,
    filename: &str,
    declared: Option<&str>,
    result: Result<FileClassification, StoreError>,
)
    requires
        call_ensures(
            classification::classify_visible_prefix,
            (prefix, truncated, filename, declared),
            result,
        ),
    ensures
        result matches Ok(class) ==> {
            &&& class.renderer == ArtifactRenderer::Image <==> class.media_type@ == "image/png"@
                || class.media_type@ == "image/jpeg"@ || class.media_type@ == "image/gif"@
                || class.media_type@ == "image/webp"@
            &&& class.renderer == ArtifactRenderer::Svg <==> class.media_type@ == "image/svg+xml"@
            &&& class.renderer == ArtifactRenderer::Pdf <==> class.media_type@ == "application/pdf"@
            &&& class.renderer == ArtifactRenderer::Video <==> class.media_type@ == "video/mp4"@
                || class.media_type@ == "video/webm"@
            &&& class.renderer == ArtifactRenderer::Html <==> class.media_type@
                == "text/html; charset=utf-8"@
            &&& class.renderer == ArtifactRenderer::Markdown <==> class.media_type@
                == "text/markdown; charset=utf-8"@
            &&& class.renderer == ArtifactRenderer::Download <==> class.media_type@
                == "application/octet-stream"@
        },
        result matches Ok(class) ==> (classification::lower_extension(filename@) matches Some(e) ==> {
            &&& e == "png"@ ==> is_class(class, "image/png"@, ArtifactRenderer::Image)
            &&& e == "jpg"@ || e == "jpeg"@ ==> is_class(class, "image/jpeg"@, ArtifactRenderer::Image)
            &&& e == "md"@ ==> is_class(
                class,
                "text/markdown; charset=utf-8"@,
                ArtifactRenderer::Markdown,
            )
            &&& e == "html"@ ==> is_class(class, "text/html; charset=utf-8"@, ArtifactRenderer::Html)
        }),
{
    if let Ok(class) = result {
        let said = match declared {
            Some(value) => Some(value@),
            None => None,
        };
        let verdict = classification::verdict_on(prefix@, truncated);
        rendering::law_renderers_follow_media_types(
            prefix@,
            truncated,
            filename@,
            said,
            verdict,
            class.media_type@,
            class.renderer,
        );
        if let Some(e) = classification::lower_extension(filename@) {
            rendering::law_names_are_kept(prefix@, truncated, filename@, said, verdict, e, class@);
        }
    }
}

proof fn lemma_staged(
    kind: StageKind,
    limit: u64,
    runs: Seq<Staging>,
    answers: Seq<StageAnswer>,
    n: int,
)
    requires
        runs.len() == answers.len() + 1,
        call_ensures(Staging::start, (kind, limit), runs[0]),
        forall|k: int|
            0 <= k < answers.len() ==> call_ensures(
                Staging::advance,
                (runs[k], #[trigger] answers[k]),
                runs[k + 1],
            ),
        0 <= n < runs.len(),
    ensures
        staging::sound(runs[n]@),
        runs[n]@.taken == pieces(runs, answers, n),
        runs[n]@.limit == limit,
    decreases n,
{
    if n > 0 {
        lemma_staged(kind, limit, runs, answers, n - 1);
        assert(call_ensures(Staging::advance, (runs[n - 1], answers[n - 1]), runs[n - 1 + 1]));
        staging::law_stages_stay_sound(runs[n - 1]@, answers[n - 1], kind, limit);
    } else {
        staging::law_stages_stay_sound(staging::unstaged(kind, limit), StageAnswer::Done, kind, limit);
    }
}

/// The bytes that were read and written, in order, in the first steps.
pub open spec fn pieces(runs: Seq<Staging>, answers: Seq<StageAnswer>, n: int) -> Seq<u8>
    decreases n,
{
    if n <= 0 {
        Seq::empty()
    } else {
        match (runs[n - 1]@.step, answers[n - 1], runs[n]@.step) {
            (
                staging::StepModel::Read,
                StageAnswer::Piece(piece),
                staging::StepModel::Write(_),
            ) => pieces(runs, answers, n - 1) + piece@,
            _ => pieces(runs, answers, n - 1),
        }
    }
}

/// However bytes were staged, what is recorded of them is the digest and the number of the bytes that
/// were read, and there are no more of them than allowed.
pub proof fn law_staged_bytes_are_recorded(
    kind: StageKind,
    limit: u64,
    runs: Seq<Staging>,
    answers: Seq<StageAnswer>,
    outcome: Option<Result<BlobRecord, StageFault>>,
)
    requires
        runs.len() == answers.len() + 1,
        call_ensures(Staging::start, (kind, limit), runs[0]),
        forall|k: int|
            0 <= k < answers.len() ==> call_ensures(
                Staging::advance,
                (runs[k], #[trigger] answers[k]),
                runs[k + 1],
            ),
        call_ensures(Staging::into_outcome, (runs.last(),), outcome),
    ensures
        outcome matches Some(Ok(record)) ==> ({
            let read = pieces(runs, answers, answers.len() as int);
            record@.0 == digest::sha256_hex(read) && record@.1 == read.len() && read.len() <= limit
        }),
{
    lemma_staged(kind, limit, runs, answers, answers.len() as int);
}

} // verus!
