//! What the viewer makes of an artifact: the renderer follows from the media type, and the media
//! type from the bytes, the name and the declaration.
use vstd::prelude::*;
use vstd::utf8::*;
use crate::bytes;
use crate::storage::classification;
use crate::storage::classification::{ArtifactRenderer, JsonVerdict};
use crate::text;

verus! {

proof fn lemma_types_differ()
    ensures
        "image/png"@.len() == 9 && "image/png"@[0] == 'i' && "image/png"@[6] == 'p',
        "image/jpeg"@.len() == 10 && "image/jpeg"@[0] == 'i' && "image/jpeg"@[6] == 'j',
        "image/gif"@.len() == 9 && "image/gif"@[0] == 'i' && "image/gif"@[6] == 'g',
        "image/webp"@.len() == 10 && "image/webp"@[0] == 'i' && "image/webp"@[6] == 'w',
        "image/svg+xml"@.len() == 13,
        "application/pdf"@.len() == 15,
        "video/mp4"@.len() == 9 && "video/mp4"@[0] == 'v',
        "video/webm"@.len() == 10 && "video/webm"@[0] == 'v',
        "audio/mp4"@.len() == 9 && "audio/mp4"@[0] == 'a' && "audio/mp4"@[6] == 'm',
        "audio/mpeg"@.len() == 10 && "audio/mpeg"@[0] == 'a' && "audio/mpeg"@[6] == 'm',
        "audio/wav"@.len() == 9 && "audio/wav"@[0] == 'a' && "audio/wav"@[6] == 'w',
        "audio/ogg"@.len() == 9 && "audio/ogg"@[0] == 'a' && "audio/ogg"@[6] == 'o',
        "audio/flac"@.len() == 10 && "audio/flac"@[0] == 'a' && "audio/flac"@[6] == 'f',
        "text/markdown; charset=utf-8"@.len() == 28,
        "text/plain; charset=utf-8"@.len() == 25,
        "application/json"@.len() == 16,
        "text/csv; charset=utf-8"@.len() == 23,
        "text/html; charset=utf-8"@.len() == 24 && "text/html; charset=utf-8"@[0] == 't',
        "application/octet-stream"@.len() == 24 && "application/octet-stream"@[0] == 'a',
{
    reveal_strlit("image/png");
    reveal_strlit("image/jpeg");
    reveal_strlit("image/gif");
    reveal_strlit("image/webp");
    reveal_strlit("image/svg+xml");
    reveal_strlit("application/pdf");
    reveal_strlit("video/mp4");
    reveal_strlit("video/webm");
    reveal_strlit("audio/mp4");
    reveal_strlit("audio/mpeg");
    reveal_strlit("audio/wav");
    reveal_strlit("audio/ogg");
    reveal_strlit("audio/flac");
    reveal_strlit("text/markdown; charset=utf-8");
    reveal_strlit("text/plain; charset=utf-8");
    reveal_strlit("application/json");
    reveal_strlit("text/csv; charset=utf-8");
    reveal_strlit("text/html; charset=utf-8");
    reveal_strlit("application/octet-stream");
}

/// The renderer that shows artifacts of a media type.
pub open spec fn shows(media_type: Seq<char>, renderer: ArtifactRenderer) -> bool {
    match renderer {
        ArtifactRenderer::Image => media_type == "image/png"@ || media_type == "image/jpeg"@ || media_type == "image/gif"@ || media_type == "image/webp"@,
        ArtifactRenderer::Svg => media_type == "image/svg+xml"@,
        ArtifactRenderer::Pdf => media_type == "application/pdf"@,
        ArtifactRenderer::Video => media_type == "video/mp4"@ || media_type == "video/webm"@,
        ArtifactRenderer::Audio => media_type == "audio/mp4"@ || media_type == "audio/mpeg"@ || media_type == "audio/wav"@ || media_type == "audio/ogg"@ || media_type == "audio/flac"@,
        ArtifactRenderer::Markdown => media_type == "text/markdown; charset=utf-8"@,
        ArtifactRenderer::Text => media_type == "text/plain; charset=utf-8"@,
        ArtifactRenderer::Json => media_type == "application/json"@,
        ArtifactRenderer::Csv => media_type == "text/csv; charset=utf-8"@,
        ArtifactRenderer::Html => media_type == "text/html; charset=utf-8"@,
        ArtifactRenderer::Download => media_type == "application/octet-stream"@,
    }
}

proof fn lemma_shown_once(media_type: Seq<char>, one: ArtifactRenderer, other: ArtifactRenderer)
    requires
        shows(media_type, one),
        shows(media_type, other),
    ensures
        one == other,
{
    lemma_types_differ();
}

/// The renderer of an accepted artifact follows from its media type: images, SVG, PDF, video, audio,
/// Markdown, plain text, JSON, CSV and HTML are each shown as what they are, and only what is of no
/// known type is offered as a download.
pub proof fn law_renderers_follow_media_types(
    prefix: Seq<u8>,
    truncated: bool,
    filename: Seq<char>,
    declared: Option<Seq<char>>,
    verdict: JsonVerdict,
    media_type: Seq<char>,
    renderer: ArtifactRenderer,
)
    requires
        classification::visible_class(prefix, truncated, filename, declared, verdict) == Some(
            (media_type, renderer),
        ),
    ensures
        media_type == "image/png"@ || media_type == "image/jpeg"@ || media_type == "image/gif"@ || media_type == "image/webp"@ <==> renderer == ArtifactRenderer::Image,
        media_type == "image/svg+xml"@ <==> renderer == ArtifactRenderer::Svg,
        media_type == "application/pdf"@ <==> renderer == ArtifactRenderer::Pdf,
        media_type == "video/mp4"@ || media_type == "video/webm"@ <==> renderer == ArtifactRenderer::Video,
        media_type == "audio/mp4"@ || media_type == "audio/mpeg"@ || media_type == "audio/wav"@ || media_type == "audio/ogg"@ || media_type == "audio/flac"@ <==> renderer == ArtifactRenderer::Audio,
        media_type == "text/markdown; charset=utf-8"@ <==> renderer == ArtifactRenderer::Markdown,
        media_type == "text/plain; charset=utf-8"@ <==> renderer == ArtifactRenderer::Text,
        media_type == "application/json"@ <==> renderer == ArtifactRenderer::Json,
        media_type == "text/csv; charset=utf-8"@ <==> renderer == ArtifactRenderer::Csv,
        media_type == "text/html; charset=utf-8"@ <==> renderer == ArtifactRenderer::Html,
        media_type == "application/octet-stream"@ <==> renderer == ArtifactRenderer::Download,
{
    assert(shows(media_type, renderer));
    if media_type == "image/png"@ || media_type == "image/jpeg"@ || media_type == "image/gif"@ || media_type == "image/webp"@ {
        lemma_shown_once(media_type, renderer, ArtifactRenderer::Image);
    }
    if media_type == "image/svg+xml"@ {
        lemma_shown_once(media_type, renderer, ArtifactRenderer::Svg);
    }
    if media_type == "application/pdf"@ {
        lemma_shown_once(media_type, renderer, ArtifactRenderer::Pdf);
    }
    if media_type == "video/mp4"@ || media_type == "video/webm"@ {
        lemma_shown_once(media_type, renderer, ArtifactRenderer::Video);
    }
    if media_type == "audio/mp4"@ || media_type == "audio/mpeg"@ || media_type == "audio/wav"@ || media_type == "audio/ogg"@ || media_type == "audio/flac"@ {
        lemma_shown_once(media_type, renderer, ArtifactRenderer::Audio);
    }
    if media_type == "text/markdown; charset=utf-8"@ {
        lemma_shown_once(media_type, renderer, ArtifactRenderer::Markdown);
    }
    if media_type == "text/plain; charset=utf-8"@ {
        lemma_shown_once(media_type, renderer, ArtifactRenderer::Text);
    }
    if media_type == "application/json"@ {
        lemma_shown_once(media_type, renderer, ArtifactRenderer::Json);
    }
    if media_type == "text/csv; charset=utf-8"@ {
        lemma_shown_once(media_type, renderer, ArtifactRenderer::Csv);
    }
    if media_type == "text/html; charset=utf-8"@ {
        lemma_shown_once(media_type, renderer, ArtifactRenderer::Html);
    }
    if media_type == "application/octet-stream"@ {
        lemma_shown_once(media_type, renderer, ArtifactRenderer::Download);
    }
}

/// A declared media type is read in any case and with white space around it, and stands for the
/// renderer that shows it.
pub proof fn law_declarations_name_renderers(value: Seq<char>)
    ensures
        text::lowercase(text::trimmed(value)) == "image/png"@ ==> classification::declared_class(value)
            == Some(("image/png"@, ArtifactRenderer::Image)),
        text::lowercase(text::trimmed(value)) == "image/jpeg"@ ==> classification::declared_class(value)
            == Some(("image/jpeg"@, ArtifactRenderer::Image)),
        text::lowercase(text::trimmed(value)) == "image/gif"@ ==> classification::declared_class(value)
            == Some(("image/gif"@, ArtifactRenderer::Image)),
        text::lowercase(text::trimmed(value)) == "image/webp"@ ==> classification::declared_class(value)
            == Some(("image/webp"@, ArtifactRenderer::Image)),
        text::lowercase(text::trimmed(value)) == "image/svg+xml"@ ==> classification::declared_class(value)
            == Some(("image/svg+xml"@, ArtifactRenderer::Svg)),
        text::lowercase(text::trimmed(value)) == "application/pdf"@ ==> classification::declared_class(value)
            == Some(("application/pdf"@, ArtifactRenderer::Pdf)),
        text::lowercase(text::trimmed(value)) == "video/mp4"@ ==> classification::declared_class(value)
            == Some(("video/mp4"@, ArtifactRenderer::Video)),
        text::lowercase(text::trimmed(value)) == "video/webm"@ ==> classification::declared_class(value)
            == Some(("video/webm"@, ArtifactRenderer::Video)),
        text::lowercase(text::trimmed(value)) == "audio/mp4"@ ==> classification::declared_class(value)
            == Some(("audio/mp4"@, ArtifactRenderer::Audio)),
        text::lowercase(text::trimmed(value)) == "audio/mpeg"@ ==> classification::declared_class(value)
            == Some(("audio/mpeg"@, ArtifactRenderer::Audio)),
        text::lowercase(text::trimmed(value)) == "audio/wav"@ ==> classification::declared_class(value)
            == Some(("audio/wav"@, ArtifactRenderer::Audio)),
        text::lowercase(text::trimmed(value)) == "audio/ogg"@ ==> classification::declared_class(value)
            == Some(("audio/ogg"@, ArtifactRenderer::Audio)),
        text::lowercase(text::trimmed(value)) == "audio/flac"@ ==> classification::declared_class(value)
            == Some(("audio/flac"@, ArtifactRenderer::Audio)),
        text::lowercase(text::trimmed(value)) == "text/markdown"@ ==> classification::declared_class(value)
            == Some(("text/markdown; charset=utf-8"@, ArtifactRenderer::Markdown)),
        text::lowercase(text::trimmed(value)) == "text/plain"@ ==> classification::declared_class(value)
            == Some(("text/plain; charset=utf-8"@, ArtifactRenderer::Text)),
        text::lowercase(text::trimmed(value)) == "application/json"@ ==> classification::declared_class(value)
            == Some(("application/json"@, ArtifactRenderer::Json)),
        text::lowercase(text::trimmed(value)) == "text/csv"@ ==> classification::declared_class(value)
            == Some(("text/csv; charset=utf-8"@, ArtifactRenderer::Csv)),
        text::lowercase(text::trimmed(value)) == "text/html"@ ==> classification::declared_class(value)
            == Some(("text/html; charset=utf-8"@, ArtifactRenderer::Html)),
        classification::declared_class(value) matches Some(class) ==> shows(class.0, class.1)
            && class.1 != ArtifactRenderer::Download,
{
    lemma_declarations_differ();
    lemma_types_differ();
}

proof fn lemma_declarations_differ()
    ensures
        "image/png"@.len() == 9 && "image/png"@[0] == 'i' && "image/png"@[6] == 'p',
        "image/jpeg"@.len() == 10 && "image/jpeg"@[0] == 'i' && "image/jpeg"@[6] == 'j',
        "image/gif"@.len() == 9 && "image/gif"@[0] == 'i' && "image/gif"@[6] == 'g',
        "image/webp"@.len() == 10 && "image/webp"@[0] == 'i' && "image/webp"@[6] == 'w',
        "image/svg+xml"@.len() == 13 && "image/svg+xml"@[0] == 'i',
        "application/pdf"@.len() == 15,
        "video/mp4"@.len() == 9 && "video/mp4"@[0] == 'v',
        "video/webm"@.len() == 10 && "video/webm"@[0] == 'v',
        "audio/mp4"@.len() == 9 && "audio/mp4"@[0] == 'a' && "audio/mp4"@[6] == 'm',
        "audio/mpeg"@.len() == 10 && "audio/mpeg"@[0] == 'a' && "audio/mpeg"@[6] == 'm',
        "audio/wav"@.len() == 9 && "audio/wav"@[0] == 'a' && "audio/wav"@[6] == 'w',
        "audio/ogg"@.len() == 9 && "audio/ogg"@[0] == 'a' && "audio/ogg"@[6] == 'o',
        "audio/flac"@.len() == 10 && "audio/flac"@[0] == 'a' && "audio/flac"@[6] == 'f',
        "text/markdown"@.len() == 13 && "text/markdown"@[0] == 't',
        "text/plain"@.len() == 10 && "text/plain"@[0] == 't',
        "application/json"@.len() == 16,
        "text/csv"@.len() == 8,
        "text/html"@.len() == 9 && "text/html"@[0] == 't',
{
    reveal_strlit("image/png");
    reveal_strlit("image/jpeg");
    reveal_strlit("image/gif");
    reveal_strlit("image/webp");
    reveal_strlit("image/svg+xml");
    reveal_strlit("application/pdf");
    reveal_strlit("video/mp4");
    reveal_strlit("video/webm");
    reveal_strlit("audio/mp4");
    reveal_strlit("audio/mpeg");
    reveal_strlit("audio/wav");
    reveal_strlit("audio/ogg");
    reveal_strlit("audio/flac");
    reveal_strlit("text/markdown");
    reveal_strlit("text/plain");
    reveal_strlit("application/json");
    reveal_strlit("text/csv");
    reveal_strlit("text/html");
}

/// The bytes of the names that signatures use.
proof fn lemma_encodings()
    ensures
        encode_utf8("GIF87a"@) == seq![0x47u8, 0x49, 0x46, 0x38, 0x37, 0x61],
        encode_utf8("GIF89a"@) == seq![0x47u8, 0x49, 0x46, 0x38, 0x39, 0x61],
        encode_utf8("RIFF"@) == seq![0x52u8, 0x49, 0x46, 0x46],
        encode_utf8("WEBP"@) == seq![0x57u8, 0x45, 0x42, 0x50],
        encode_utf8("WAVE"@) == seq![0x57u8, 0x41, 0x56, 0x45],
        encode_utf8("%PDF-"@) == seq![0x25u8, 0x50, 0x44, 0x46, 0x2d],
        encode_utf8("ftyp"@) == seq![0x66u8, 0x74, 0x79, 0x70],
        encode_utf8("M4A "@) == seq![0x4du8, 0x34, 0x41, 0x20],
        encode_utf8("M4B "@) == seq![0x4du8, 0x34, 0x42, 0x20],
        encode_utf8("isom"@) == seq![0x69u8, 0x73, 0x6f, 0x6d],
        encode_utf8("iso2"@) == seq![0x69u8, 0x73, 0x6f, 0x32],
        encode_utf8("mp41"@) == seq![0x6du8, 0x70, 0x34, 0x31],
        encode_utf8("mp42"@) == seq![0x6du8, 0x70, 0x34, 0x32],
        encode_utf8("avc1"@) == seq![0x61u8, 0x76, 0x63, 0x31],
        encode_utf8("dash"@) == seq![0x64u8, 0x61, 0x73, 0x68],
        encode_utf8("ID3"@) == seq![0x49u8, 0x44, 0x33],
        encode_utf8("OggS"@) == seq![0x4fu8, 0x67, 0x67, 0x53],
        encode_utf8("OpusHead"@) == seq![0x4fu8, 0x70, 0x75, 0x73, 0x48, 0x65, 0x61, 0x64],
        encode_utf8("fLaC"@) == seq![0x66u8, 0x4c, 0x61, 0x43],
        encode_utf8("\u{1}vorbis"@) == seq![0x01u8, 0x76, 0x6f, 0x72, 0x62, 0x69, 0x73],
        encode_utf8("wOFF"@) == seq![0x77u8, 0x4f, 0x46, 0x46],
        encode_utf8("wOF2"@) == seq![0x77u8, 0x4f, 0x46, 0x32],
        encode_utf8("OTTO"@) == seq![0x4fu8, 0x54, 0x54, 0x4f],
{
    reveal_strlit("GIF87a");
    assert("GIF87a"@ =~= seq!['G', 'I', 'F', '8', '7', 'a']);
    is_ascii_chars_encode_utf8("GIF87a"@);
    assert(encode_utf8("GIF87a"@) =~= seq![0x47u8, 0x49, 0x46, 0x38, 0x37, 0x61]);
    reveal_strlit("GIF89a");
    assert("GIF89a"@ =~= seq!['G', 'I', 'F', '8', '9', 'a']);
    is_ascii_chars_encode_utf8("GIF89a"@);
    assert(encode_utf8("GIF89a"@) =~= seq![0x47u8, 0x49, 0x46, 0x38, 0x39, 0x61]);
    reveal_strlit("RIFF");
    assert("RIFF"@ =~= seq!['R', 'I', 'F', 'F']);
    is_ascii_chars_encode_utf8("RIFF"@);
    assert(encode_utf8("RIFF"@) =~= seq![0x52u8, 0x49, 0x46, 0x46]);
    reveal_strlit("WEBP");
    assert("WEBP"@ =~= seq!['W', 'E', 'B', 'P']);
    is_ascii_chars_encode_utf8("WEBP"@);
    assert(encode_utf8("WEBP"@) =~= seq![0x57u8, 0x45, 0x42, 0x50]);
    reveal_strlit("WAVE");
    assert("WAVE"@ =~= seq!['W', 'A', 'V', 'E']);
    is_ascii_chars_encode_utf8("WAVE"@);
    assert(encode_utf8("WAVE"@) =~= seq![0x57u8, 0x41, 0x56, 0x45]);
    reveal_strlit("%PDF-");
    assert("%PDF-"@ =~= seq!['%', 'P', 'D', 'F', '-']);
    is_ascii_chars_encode_utf8("%PDF-"@);
    assert(encode_utf8("%PDF-"@) =~= seq![0x25u8, 0x50, 0x44, 0x46, 0x2d]);
    reveal_strlit("ftyp");
    assert("ftyp"@ =~= seq!['f', 't', 'y', 'p']);
    is_ascii_chars_encode_utf8("ftyp"@);
    assert(encode_utf8("ftyp"@) =~= seq![0x66u8, 0x74, 0x79, 0x70]);
    reveal_strlit("M4A ");
    assert("M4A "@ =~= seq!['M', '4', 'A', ' ']);
    is_ascii_chars_encode_utf8("M4A "@);
    assert(encode_utf8("M4A "@) =~= seq![0x4du8, 0x34, 0x41, 0x20]);
    reveal_strlit("M4B ");
    assert("M4B "@ =~= seq!['M', '4', 'B', ' ']);
    is_ascii_chars_encode_utf8("M4B "@);
    assert(encode_utf8("M4B "@) =~= seq![0x4du8, 0x34, 0x42, 0x20]);
    reveal_strlit("isom");
    assert("isom"@ =~= seq!['i', 's', 'o', 'm']);
    is_ascii_chars_encode_utf8("isom"@);
    assert(encode_utf8("isom"@) =~= seq![0x69u8, 0x73, 0x6f, 0x6d]);
    reveal_strlit("iso2");
    assert("iso2"@ =~= seq!['i', 's', 'o', '2']);
    is_ascii_chars_encode_utf8("iso2"@);
    assert(encode_utf8("iso2"@) =~= seq![0x69u8, 0x73, 0x6f, 0x32]);
    reveal_strlit("mp41");
    assert("mp41"@ =~= seq!['m', 'p', '4', '1']);
    is_ascii_chars_encode_utf8("mp41"@);
    assert(encode_utf8("mp41"@) =~= seq![0x6du8, 0x70, 0x34, 0x31]);
    reveal_strlit("mp42");
    assert("mp42"@ =~= seq!['m', 'p', '4', '2']);
    is_ascii_chars_encode_utf8("mp42"@);
    assert(encode_utf8("mp42"@) =~= seq![0x6du8, 0x70, 0x34, 0x32]);
    reveal_strlit("avc1");
    assert("avc1"@ =~= seq!['a', 'v', 'c', '1']);
    is_ascii_chars_encode_utf8("avc1"@);
    assert(encode_utf8("avc1"@) =~= seq![0x61u8, 0x76, 0x63, 0x31]);
    reveal_strlit("dash");
    assert("dash"@ =~= seq!['d', 'a', 's', 'h']);
    is_ascii_chars_encode_utf8("dash"@);
    assert(encode_utf8("dash"@) =~= seq![0x64u8, 0x61, 0x73, 0x68]);
    reveal_strlit("ID3");
    assert("ID3"@ =~= seq!['I', 'D', '3']);
    is_ascii_chars_encode_utf8("ID3"@);
    assert(encode_utf8("ID3"@) =~= seq![0x49u8, 0x44, 0x33]);
    reveal_strlit("OggS");
    assert("OggS"@ =~= seq!['O', 'g', 'g', 'S']);
    is_ascii_chars_encode_utf8("OggS"@);
    assert(encode_utf8("OggS"@) =~= seq![0x4fu8, 0x67, 0x67, 0x53]);
    reveal_strlit("OpusHead");
    assert("OpusHead"@ =~= seq!['O', 'p', 'u', 's', 'H', 'e', 'a', 'd']);
    is_ascii_chars_encode_utf8("OpusHead"@);
    assert(encode_utf8("OpusHead"@) =~= seq![0x4fu8, 0x70, 0x75, 0x73, 0x48, 0x65, 0x61, 0x64]);
    reveal_strlit("fLaC");
    assert("fLaC"@ =~= seq!['f', 'L', 'a', 'C']);
    is_ascii_chars_encode_utf8("fLaC"@);
    assert(encode_utf8("fLaC"@) =~= seq![0x66u8, 0x4c, 0x61, 0x43]);
    reveal_strlit("\u{1}vorbis");
    assert("\u{1}vorbis"@ =~= seq!['\u{1}', 'v', 'o', 'r', 'b', 'i', 's']);
    is_ascii_chars_encode_utf8("\u{1}vorbis"@);
    assert(encode_utf8("\u{1}vorbis"@) =~= seq![0x01u8, 0x76, 0x6f, 0x72, 0x62, 0x69, 0x73]);
    reveal_strlit("wOFF");
    assert("wOFF"@ =~= seq!['w', 'O', 'F', 'F']);
    is_ascii_chars_encode_utf8("wOFF"@);
    assert(encode_utf8("wOFF"@) =~= seq![0x77u8, 0x4f, 0x46, 0x46]);
    reveal_strlit("wOF2");
    assert("wOF2"@ =~= seq!['w', 'O', 'F', '2']);
    is_ascii_chars_encode_utf8("wOF2"@);
    assert(encode_utf8("wOF2"@) =~= seq![0x77u8, 0x4f, 0x46, 0x32]);
    reveal_strlit("OTTO");
    assert("OTTO"@ =~= seq!['O', 'T', 'T', 'O']);
    is_ascii_chars_encode_utf8("OTTO"@);
    assert(encode_utf8("OTTO"@) =~= seq![0x4fu8, 0x54, 0x54, 0x4f]);
}

/// Whether the bytes start with these.
pub open spec fn starts(b: Seq<u8>, pattern: Seq<u8>) -> bool {
    stands(b, pattern, 0)
}

/// Whether these stand in the bytes at the place.
pub open spec fn stands(b: Seq<u8>, pattern: Seq<u8>, at: int) -> bool {
    0 <= at && at + pattern.len() <= b.len() && forall|i: int|
        0 <= i < pattern.len() ==> b[at + i] == #[trigger] pattern[i]
}

proof fn lemma_stands(b: Seq<u8>, pattern: Seq<u8>, at: int)
    requires
        0 <= at,
    ensures
        stands(b, pattern, at) <==> bytes::stands_at(b, pattern, at),
{
    if stands(b, pattern, at) {
        assert(b.subrange(at, at + pattern.len()) =~= pattern);
    }
    if bytes::stands_at(b, pattern, at) {
        assert forall|i: int| 0 <= i < pattern.len() implies b[at + i] == #[trigger] pattern[i] by {
            assert(b.subrange(at, at + pattern.len())[i] == pattern[i]);
        }
    }
}

proof fn lemma_starts(b: Seq<u8>)
    ensures
        starts(b, seq![0x89u8, 0x50, 0x4e, 0x47, 0x0d, 0x0a, 0x1a, 0x0a]) <==> bytes::has_prefix(b, seq![0x89u8, 0x50, 0x4e, 0x47, 0x0d, 0x0a, 0x1a, 0x0a]),
        starts(b, seq![0xffu8, 0xd8, 0xff]) <==> bytes::has_prefix(b, seq![0xffu8, 0xd8, 0xff]),
        starts(b, seq![0x47u8, 0x49, 0x46, 0x38, 0x37, 0x61]) <==> bytes::has_prefix(b, seq![0x47u8, 0x49, 0x46, 0x38, 0x37, 0x61]),
        starts(b, seq![0x47u8, 0x49, 0x46, 0x38, 0x39, 0x61]) <==> bytes::has_prefix(b, seq![0x47u8, 0x49, 0x46, 0x38, 0x39, 0x61]),
        starts(b, seq![0x52u8, 0x49, 0x46, 0x46]) <==> bytes::has_prefix(b, seq![0x52u8, 0x49, 0x46, 0x46]),
        starts(b, seq![0x25u8, 0x50, 0x44, 0x46, 0x2d]) <==> bytes::has_prefix(b, seq![0x25u8, 0x50, 0x44, 0x46, 0x2d]),
        starts(b, seq![0x1au8, 0x45, 0xdf, 0xa3]) <==> bytes::has_prefix(b, seq![0x1au8, 0x45, 0xdf, 0xa3]),
        starts(b, seq![0x49u8, 0x44, 0x33]) <==> bytes::has_prefix(b, seq![0x49u8, 0x44, 0x33]),
        starts(b, seq![0x4fu8, 0x67, 0x67, 0x53]) <==> bytes::has_prefix(b, seq![0x4fu8, 0x67, 0x67, 0x53]),
        starts(b, seq![0x66u8, 0x4c, 0x61, 0x43]) <==> bytes::has_prefix(b, seq![0x66u8, 0x4c, 0x61, 0x43]),
        stands(b, seq![0x57u8, 0x45, 0x42, 0x50], 8) <==> bytes::stands_at(b, seq![0x57u8, 0x45, 0x42, 0x50], 8),
        stands(b, seq![0x57u8, 0x41, 0x56, 0x45], 8) <==> bytes::stands_at(b, seq![0x57u8, 0x41, 0x56, 0x45], 8),
        stands(b, seq![0x66u8, 0x74, 0x79, 0x70], 4) <==> bytes::stands_at(b, seq![0x66u8, 0x74, 0x79, 0x70], 4),
{
    lemma_stands(b, seq![0x89u8, 0x50, 0x4e, 0x47, 0x0d, 0x0a, 0x1a, 0x0a], 0);
    lemma_stands(b, seq![0xffu8, 0xd8, 0xff], 0);
    lemma_stands(b, seq![0x47u8, 0x49, 0x46, 0x38, 0x37, 0x61], 0);
    lemma_stands(b, seq![0x47u8, 0x49, 0x46, 0x38, 0x39, 0x61], 0);
    lemma_stands(b, seq![0x52u8, 0x49, 0x46, 0x46], 0);
    lemma_stands(b, seq![0x25u8, 0x50, 0x44, 0x46, 0x2d], 0);
    lemma_stands(b, seq![0x1au8, 0x45, 0xdf, 0xa3], 0);
    lemma_stands(b, seq![0x49u8, 0x44, 0x33], 0);
    lemma_stands(b, seq![0x4fu8, 0x67, 0x67, 0x53], 0);
    lemma_stands(b, seq![0x66u8, 0x4c, 0x61, 0x43], 0);
    lemma_stands(b, seq![0x57u8, 0x45, 0x42, 0x50], 8);
    lemma_stands(b, seq![0x57u8, 0x41, 0x56, 0x45], 8);
    lemma_stands(b, seq![0x66u8, 0x74, 0x79, 0x70], 4);
}

/// What the first bytes say, whatever the name: a PNG, JPEG, GIF or WebP image, a PDF document, and
/// MP3, WAVE and FLAC sound are known by their marks.
pub proof fn law_marks_tell_the_type(b: Seq<u8>)
    ensures
        (starts(b, seq![0x89u8, 0x50, 0x4e, 0x47, 0x0d, 0x0a, 0x1a, 0x0a])) ==> classification::signature(b) == Some(
            ("image/png"@, ArtifactRenderer::Image),
        ),
        (starts(b, seq![0xffu8, 0xd8, 0xff])) ==> classification::signature(b) == Some(
            ("image/jpeg"@, ArtifactRenderer::Image),
        ),
        (starts(b, seq![0x47u8, 0x49, 0x46, 0x38, 0x37, 0x61]) || starts(b, seq![0x47u8, 0x49, 0x46, 0x38, 0x39, 0x61])) ==> classification::signature(b) == Some(
            ("image/gif"@, ArtifactRenderer::Image),
        ),
        (starts(b, seq![0x52u8, 0x49, 0x46, 0x46]) && stands(b, seq![0x57u8, 0x45, 0x42, 0x50], 8)) ==> classification::signature(b) == Some(
            ("image/webp"@, ArtifactRenderer::Image),
        ),
        (starts(b, seq![0x25u8, 0x50, 0x44, 0x46, 0x2d])) ==> classification::signature(b) == Some(
            ("application/pdf"@, ArtifactRenderer::Pdf),
        ),
        (starts(b, seq![0x49u8, 0x44, 0x33]) && !stands(b, seq![0x66u8, 0x74, 0x79, 0x70], 4)) ==> classification::signature(b) == Some(
            ("audio/mpeg"@, ArtifactRenderer::Audio),
        ),
        (starts(b, seq![0x52u8, 0x49, 0x46, 0x46]) && stands(b, seq![0x57u8, 0x41, 0x56, 0x45], 8) && !stands(b, seq![0x66u8, 0x74, 0x79, 0x70], 4)) ==> classification::signature(b) == Some(
            ("audio/wav"@, ArtifactRenderer::Audio),
        ),
        (starts(b, seq![0x66u8, 0x4c, 0x61, 0x43]) && !stands(b, seq![0x66u8, 0x74, 0x79, 0x70], 4)) ==> classification::signature(b) == Some(
            ("audio/flac"@, ArtifactRenderer::Audio),
        ),
{
    lemma_encodings();
    lemma_starts(b);
    lemma_first_bytes(b);
}

/// Two marks with different first bytes do not both start the bytes.
proof fn lemma_first_bytes(b: Seq<u8>)
    ensures
        starts(b, seq![0x89u8, 0x50, 0x4e, 0x47, 0x0d, 0x0a, 0x1a, 0x0a]) ==> b[0] == 0x89 && b.len() > 0,
        starts(b, seq![0xffu8, 0xd8, 0xff]) ==> b[0] == 0xff && b.len() > 0,
        starts(b, seq![0x47u8, 0x49, 0x46, 0x38, 0x37, 0x61]) ==> b[0] == 0x47 && b.len() > 0,
        starts(b, seq![0x47u8, 0x49, 0x46, 0x38, 0x39, 0x61]) ==> b[0] == 0x47 && b.len() > 0,
        starts(b, seq![0x52u8, 0x49, 0x46, 0x46]) ==> b[0] == 0x52 && b.len() > 0,
        starts(b, seq![0x25u8, 0x50, 0x44, 0x46, 0x2d]) ==> b[0] == 0x25 && b.len() > 0,
        starts(b, seq![0x1au8, 0x45, 0xdf, 0xa3]) ==> b[0] == 0x1a && b.len() > 0,
        starts(b, seq![0x49u8, 0x44, 0x33]) ==> b[0] == 0x49 && b.len() > 0,
        starts(b, seq![0x4fu8, 0x67, 0x67, 0x53]) ==> b[0] == 0x4f && b.len() > 0,
        starts(b, seq![0x66u8, 0x4c, 0x61, 0x43]) ==> b[0] == 0x66 && b.len() > 0,
        starts(b, seq![0xffu8, 0xd8, 0xff]) ==> b[1] == 0xd8,
        stands(b, seq![0x57u8, 0x45, 0x42, 0x50], 8) ==> b[9] == 0x45,
        stands(b, seq![0x57u8, 0x41, 0x56, 0x45], 8) ==> b[9] == 0x41,
        stands(b, seq![0x57u8, 0x45, 0x42, 0x50], 8) || stands(b, seq![0x57u8, 0x41, 0x56, 0x45], 8) ==> b.len() >= 12,
{
    assert((seq![0x89u8, 0x50, 0x4e, 0x47, 0x0d, 0x0a, 0x1a, 0x0a])[0] == 0x89);
    assert((seq![0xffu8, 0xd8, 0xff])[0] == 0xff);
    assert((seq![0x47u8, 0x49, 0x46, 0x38, 0x37, 0x61])[0] == 0x47);
    assert((seq![0x47u8, 0x49, 0x46, 0x38, 0x39, 0x61])[0] == 0x47);
    assert((seq![0x52u8, 0x49, 0x46, 0x46])[0] == 0x52);
    assert((seq![0x25u8, 0x50, 0x44, 0x46, 0x2d])[0] == 0x25);
    assert((seq![0x1au8, 0x45, 0xdf, 0xa3])[0] == 0x1a);
    assert((seq![0x49u8, 0x44, 0x33])[0] == 0x49);
    assert((seq![0x4fu8, 0x67, 0x67, 0x53])[0] == 0x4f);
    assert((seq![0x66u8, 0x4c, 0x61, 0x43])[0] == 0x66);
    assert((seq![0xffu8, 0xd8, 0xff])[1] == 0xd8);
    assert((seq![0x57u8, 0x45, 0x42, 0x50])[1] == 0x45);
    assert((seq![0x57u8, 0x41, 0x56, 0x45])[1] == 0x41);
}

/// How long the first box of an ISO base media file says it is.
pub open spec fn box_length(b: Seq<u8>) -> int {
    b[0] * 0x100_0000 + b[1] * 0x1_0000 + b[2] * 0x100 + b[3]
}

/// An ISO base media file is sound where a brand of its first box is one of sound, and video where
/// one is of video and none of sound.
pub proof fn law_brands_tell_sound_from_video(b: Seq<u8>, k: int)
    requires
        b.len() >= 16,
        b[0] == 0,
        stands(b, seq![0x66u8, 0x74, 0x79, 0x70], 4),
        box_length(b) >= 16,
        0 <= k,
    ensures
        stands(b, seq![0x4du8, 0x34, 0x41, 0x20], 8) || stands(b, seq![0x4du8, 0x34, 0x42, 0x20], 8) ==> classification::signature(b)
            == Some(("audio/mp4"@, ArtifactRenderer::Audio)),
        20 + 4 * k <= box_length(b) && (stands(b, seq![0x4du8, 0x34, 0x41, 0x20], 16 + 4 * k) || stands(
            b,
            seq![0x4du8, 0x34, 0x42, 0x20],
            16 + 4 * k,
        )) ==> classification::signature(b) == Some(("audio/mp4"@, ArtifactRenderer::Audio)),
        (stands(b, seq![0x69u8, 0x73, 0x6f, 0x6d], 8) || stands(b, seq![0x69u8, 0x73, 0x6f, 0x32], 8) || stands(b, seq![0x6du8, 0x70, 0x34, 0x31], 8) || stands(b, seq![0x6du8, 0x70, 0x34, 0x32], 8) || stands(b, seq![0x61u8, 0x76, 0x63, 0x31], 8) || stands(b, seq![0x64u8, 0x61, 0x73, 0x68], 8)) && !stands_beyond(b, seq![0x4du8, 0x34, 0x41, 0x20], 8) && !stands_beyond(b, seq![0x4du8, 0x34, 0x42, 0x20], 8)
            ==> classification::signature(b) == Some(("video/mp4"@, ArtifactRenderer::Video)),
        20 + 4 * k <= box_length(b) && (stands(b, seq![0x69u8, 0x73, 0x6f, 0x6d], 16 + 4 * k) || stands(b, seq![0x69u8, 0x73, 0x6f, 0x32], 16 + 4 * k) || stands(b, seq![0x6du8, 0x70, 0x34, 0x31], 16 + 4 * k) || stands(b, seq![0x6du8, 0x70, 0x34, 0x32], 16 + 4 * k) || stands(b, seq![0x61u8, 0x76, 0x63, 0x31], 16 + 4 * k) || stands(b, seq![0x64u8, 0x61, 0x73, 0x68], 16 + 4 * k)) && !stands_beyond(b, seq![0x4du8, 0x34, 0x41, 0x20], 8) && !stands_beyond(b, seq![0x4du8, 0x34, 0x42, 0x20], 8)
            ==> classification::signature(b) == Some(("video/mp4"@, ArtifactRenderer::Video)),
{
    lemma_encodings();
    lemma_starts(b);
    lemma_first_bytes(b);
    let end = if box_length(b) < b.len() {
        box_length(b)
    } else {
        b.len() as int
    };
    let major = b.subrange(8, 12);
    let compatible = b.subrange(16, end);
    assert(classification::brands(b) == Some((major, compatible)));
    let sound = |brand: Seq<u8>| classification::is_audio_brand(brand);
    let video = |brand: Seq<u8>| classification::is_video_brand(brand);
    lemma_brand_at(b, 8);
    if 16 + 4 * k + 4 <= end {
        lemma_brand_at(b, 16 + 4 * k);
        assert(compatible.subrange(4 * k, 4 * k + 4) =~= b.subrange(16 + 4 * k, 20 + 4 * k));
        if classification::is_audio_brand(b.subrange(16 + 4 * k, 20 + 4 * k)) {
            assert(sound(compatible.subrange(4 * k, 4 * k + 4)));
            assert(classification::mp4_audio(b));
        }
        if classification::is_video_brand(b.subrange(16 + 4 * k, 20 + 4 * k)) {
            assert(video(compatible.subrange(4 * k, 4 * k + 4)));
            assert(classification::mp4_video(b));
        }
    }
    if !stands_beyond(b, seq![0x4du8, 0x34, 0x41, 0x20], 8) && !stands_beyond(b, seq![0x4du8, 0x34, 0x42, 0x20], 8) {
        assert forall|j: int| 0 <= j && 4 * j + 4 <= compatible.len() implies !sound(
            #[trigger] compatible.subrange(4 * j, 4 * j + 4),
        ) by {
            lemma_brand_at(b, 16 + 4 * j);
            assert(compatible.subrange(4 * j, 4 * j + 4) =~= b.subrange(16 + 4 * j, 20 + 4 * j));
        }
        assert(!classification::mp4_audio(b));
    }
}

/// Whether these stand anywhere in the bytes at the place or after it.
pub open spec fn stands_beyond(b: Seq<u8>, pattern: Seq<u8>, from: int) -> bool {
    exists|at: int| from <= at && #[trigger] stands(b, pattern, at)
}

proof fn lemma_brand_at(b: Seq<u8>, at: int)
    requires
        0 <= at,
        at + 4 <= b.len(),
    ensures
        classification::is_audio_brand(b.subrange(at, at + 4)) <==> (stands(b, seq![0x4du8, 0x34, 0x41, 0x20], at)
            || stands(b, seq![0x4du8, 0x34, 0x42, 0x20], at)),
        classification::is_video_brand(b.subrange(at, at + 4)) <==> (stands(b, seq![0x69u8, 0x73, 0x6f, 0x6d], at) || stands(b, seq![0x69u8, 0x73, 0x6f, 0x32], at) || stands(b, seq![0x6du8, 0x70, 0x34, 0x31], at) || stands(b, seq![0x6du8, 0x70, 0x34, 0x32], at) || stands(b, seq![0x61u8, 0x76, 0x63, 0x31], at) || stands(b, seq![0x64u8, 0x61, 0x73, 0x68], at)),
{
    lemma_encodings();
    lemma_stands(b, seq![0x4du8, 0x34, 0x41, 0x20], at);
    lemma_stands(b, seq![0x4du8, 0x34, 0x42, 0x20], at);
    lemma_stands(b, seq![0x69u8, 0x73, 0x6f, 0x6d], at);
    lemma_stands(b, seq![0x69u8, 0x73, 0x6f, 0x32], at);
    lemma_stands(b, seq![0x6du8, 0x70, 0x34, 0x31], at);
    lemma_stands(b, seq![0x6du8, 0x70, 0x34, 0x32], at);
    lemma_stands(b, seq![0x61u8, 0x76, 0x63, 0x31], at);
    lemma_stands(b, seq![0x64u8, 0x61, 0x73, 0x68], at);
}

/// A file that starts with an EBML header and names the document type `webm` is WebM video; one
/// that starts an Ogg stream and holds the head of an Opus, Vorbis or FLAC stream is Ogg sound; and a
/// frame header of MPEG sound, of any version, layer, bit rate and sample rate that there are, is
/// MPEG sound.
pub proof fn law_streams_tell_the_type(b: Seq<u8>, at: int)
    requires
        !stands(b, seq![0x66u8, 0x74, 0x79, 0x70], 4),
    ensures
        starts(b, seq![0x1au8, 0x45, 0xdf, 0xa3]) && stands(b, seq![0x42u8, 0x82, 0x84, 0x77, 0x65, 0x62, 0x6d], at) ==> classification::signature(b) == Some(
            ("video/webm"@, ArtifactRenderer::Video),
        ),
        starts(b, seq![0x4fu8, 0x67, 0x67, 0x53]) && (stands(b, seq![0x4fu8, 0x70, 0x75, 0x73, 0x48, 0x65, 0x61, 0x64], at) || stands(b, seq![0x01u8, 0x76, 0x6f, 0x72, 0x62, 0x69, 0x73], at)
            || stands(b, seq![0x66u8, 0x4c, 0x61, 0x43], at)) ==> classification::signature(b) == Some(
            ("audio/ogg"@, ArtifactRenderer::Audio),
        ),
        b.len() >= 4 && b[0] == 0xff && (b[1] == 0xfb || b[1] == 0xfa || b[1] == 0xf3 || b[1] == 0xf2
            || b[1] == 0xe3) && 0x10 <= b[2] < 0xf0 && (b[2] % 16 < 12) ==> classification::signature(b)
            == Some(("audio/mpeg"@, ArtifactRenderer::Audio)),
{
    lemma_encodings();
    lemma_starts(b);
    lemma_first_bytes(b);
    if starts(b, seq![0x1au8, 0x45, 0xdf, 0xa3]) && stands(b, seq![0x42u8, 0x82, 0x84, 0x77, 0x65, 0x62, 0x6d], at) {
        let pattern = seq![0x42u8, 0x82, 0x84, 0x77, 0x65, 0x62, 0x6d];
        assert(pattern[0] == b[at + 0] && pattern[1] == b[at + 1] && pattern[2] == b[at + 2]
            && pattern[3] == b[at + 3] && pattern[4] == b[at + 4] && pattern[5] == b[at + 5]
            && pattern[6] == b[at + 6]);
        assert(classification::names_webm(b, at));
    }
    if starts(b, seq![0x4fu8, 0x67, 0x67, 0x53]) && at >= 0 {
        lemma_stands(b, seq![0x4fu8, 0x70, 0x75, 0x73, 0x48, 0x65, 0x61, 0x64], at);
        lemma_stands(b, seq![0x01u8, 0x76, 0x6f, 0x72, 0x62, 0x69, 0x73], at);
        lemma_stands(b, seq![0x66u8, 0x4c, 0x61, 0x43], at);
    }
}

/// Bytes that start with none of the marks have no type of their own.
pub proof fn law_other_bytes_have_no_type(b: Seq<u8>)
    requires
        !stands(b, seq![0x66u8, 0x74, 0x79, 0x70], 4),
        b.len() == 0 || b[0] != 0x89 && b[0] != 0xff && b[0] != 0x47 && b[0] != 0x52 && b[0] != 0x25
            && b[0] != 0x1a && b[0] != 0x49 && b[0] != 0x4f && b[0] != 0x66,
    ensures
        classification::signature(b) is None,
{
    lemma_encodings();
    lemma_starts(b);
    lemma_first_bytes(b);
}

proof fn lemma_extensions_differ()
    ensures
        "png"@.len() == 3 && "png"@[0] == 'p' && "png"@[1] == 'n',
        "jpg"@.len() == 3 && "jpg"@[0] == 'j' && "jpg"@[1] == 'p',
        "jpeg"@.len() == 4 && "jpeg"@[0] == 'j' && "jpeg"@[1] == 'p',
        "gif"@.len() == 3 && "gif"@[0] == 'g',
        "webp"@.len() == 4 && "webp"@[0] == 'w' && "webp"@[3] == 'p',
        "svg"@.len() == 3 && "svg"@[0] == 's',
        "pdf"@.len() == 3 && "pdf"@[0] == 'p' && "pdf"@[1] == 'd',
        "mp4"@.len() == 3 && "mp4"@[0] == 'm' && "mp4"@[1] == 'p' && "mp4"@[2] == '4',
        "webm"@.len() == 4 && "webm"@[0] == 'w' && "webm"@[3] == 'm',
        "m4a"@.len() == 3 && "m4a"@[0] == 'm' && "m4a"@[1] == '4' && "m4a"@[2] == 'a',
        "m4b"@.len() == 3 && "m4b"@[0] == 'm' && "m4b"@[1] == '4' && "m4b"@[2] == 'b',
        "mp3"@.len() == 3 && "mp3"@[0] == 'm' && "mp3"@[1] == 'p' && "mp3"@[2] == '3',
        "wav"@.len() == 3 && "wav"@[0] == 'w',
        "ogg"@.len() == 3 && "ogg"@[0] == 'o' && "ogg"@[2] == 'g',
        "oga"@.len() == 3 && "oga"@[0] == 'o' && "oga"@[2] == 'a',
        "flac"@.len() == 4 && "flac"@[0] == 'f',
        "md"@.len() == 2 && "md"@[0] == 'm',
        "markdown"@.len() == 8,
        "json"@.len() == 4 && "json"@[0] == 'j' && "json"@[1] == 's',
        "csv"@.len() == 3 && "csv"@[0] == 'c' && "csv"@[1] == 's' && "csv"@[2] == 'v',
        "html"@.len() == 4 && "html"@[0] == 'h',
        "htm"@.len() == 3 && "htm"@[0] == 'h',
        "txt"@.len() == 3 && "txt"@[0] == 't' && "txt"@[1] == 'x',
        "rs"@.len() == 2 && "rs"@[0] == 'r',
        "py"@.len() == 2 && "py"@[0] == 'p',
        "js"@.len() == 2 && "js"@[0] == 'j',
        "ts"@.len() == 2 && "ts"@[0] == 't',
        "tsx"@.len() == 3 && "tsx"@[0] == 't' && "tsx"@[1] == 's',
        "jsx"@.len() == 3 && "jsx"@[0] == 'j' && "jsx"@[1] == 's',
        "css"@.len() == 3 && "css"@[0] == 'c' && "css"@[1] == 's' && "css"@[2] == 's',
        "toml"@.len() == 4 && "toml"@[0] == 't',
        "yaml"@.len() == 4 && "yaml"@[0] == 'y',
        "yml"@.len() == 3 && "yml"@[0] == 'y',
        "xml"@.len() == 3 && "xml"@[0] == 'x',
        "sh"@.len() == 2 && "sh"@[0] == 's',
        "c"@.len() == 1 && "c"@[0] == 'c',
        "h"@.len() == 1 && "h"@[0] == 'h',
        "cpp"@.len() == 3 && "cpp"@[0] == 'c' && "cpp"@[1] == 'p',
        "java"@.len() == 4 && "java"@[0] == 'j' && "java"@[1] == 'a',
        "r"@.len() == 1 && "r"@[0] == 'r',
        "m"@.len() == 1 && "m"@[0] == 'm',
{
    reveal_strlit("png");
    reveal_strlit("jpg");
    reveal_strlit("jpeg");
    reveal_strlit("gif");
    reveal_strlit("webp");
    reveal_strlit("svg");
    reveal_strlit("pdf");
    reveal_strlit("mp4");
    reveal_strlit("webm");
    reveal_strlit("m4a");
    reveal_strlit("m4b");
    reveal_strlit("mp3");
    reveal_strlit("wav");
    reveal_strlit("ogg");
    reveal_strlit("oga");
    reveal_strlit("flac");
    reveal_strlit("md");
    reveal_strlit("markdown");
    reveal_strlit("json");
    reveal_strlit("csv");
    reveal_strlit("html");
    reveal_strlit("htm");
    reveal_strlit("txt");
    reveal_strlit("rs");
    reveal_strlit("py");
    reveal_strlit("js");
    reveal_strlit("ts");
    reveal_strlit("tsx");
    reveal_strlit("jsx");
    reveal_strlit("css");
    reveal_strlit("toml");
    reveal_strlit("yaml");
    reveal_strlit("yml");
    reveal_strlit("xml");
    reveal_strlit("sh");
    reveal_strlit("c");
    reveal_strlit("h");
    reveal_strlit("cpp");
    reveal_strlit("java");
    reveal_strlit("r");
    reveal_strlit("m");
}

/// A file name's extension is kept: an accepted artifact whose name promises a type is of that type
/// and shown as such, and one whose name promises plain text is plain text or, where it is not
/// text, a download.
pub proof fn law_names_are_kept(
    prefix: Seq<u8>,
    truncated: bool,
    filename: Seq<char>,
    declared: Option<Seq<char>>,
    verdict: JsonVerdict,
    e: Seq<char>,
    class: (Seq<char>, ArtifactRenderer),
)
    requires
        classification::visible_class(prefix, truncated, filename, declared, verdict) == Some(class),
        classification::lower_extension(filename) == Some(e),
    ensures
        e == "png"@ ==> class == ("image/png"@, ArtifactRenderer::Image),
        e == "jpg"@ ==> class == ("image/jpeg"@, ArtifactRenderer::Image),
        e == "jpeg"@ ==> class == ("image/jpeg"@, ArtifactRenderer::Image),
        e == "gif"@ ==> class == ("image/gif"@, ArtifactRenderer::Image),
        e == "webp"@ ==> class == ("image/webp"@, ArtifactRenderer::Image),
        e == "svg"@ ==> class == ("image/svg+xml"@, ArtifactRenderer::Svg),
        e == "pdf"@ ==> class == ("application/pdf"@, ArtifactRenderer::Pdf),
        e == "mp4"@ ==> class == ("video/mp4"@, ArtifactRenderer::Video),
        e == "webm"@ ==> class == ("video/webm"@, ArtifactRenderer::Video),
        e == "m4a"@ ==> class == ("audio/mp4"@, ArtifactRenderer::Audio),
        e == "m4b"@ ==> class == ("audio/mp4"@, ArtifactRenderer::Audio),
        e == "mp3"@ ==> class == ("audio/mpeg"@, ArtifactRenderer::Audio),
        e == "wav"@ ==> class == ("audio/wav"@, ArtifactRenderer::Audio),
        e == "ogg"@ ==> class == ("audio/ogg"@, ArtifactRenderer::Audio),
        e == "oga"@ ==> class == ("audio/ogg"@, ArtifactRenderer::Audio),
        e == "flac"@ ==> class == ("audio/flac"@, ArtifactRenderer::Audio),
        e == "md"@ ==> class == ("text/markdown; charset=utf-8"@, ArtifactRenderer::Markdown),
        e == "markdown"@ ==> class == ("text/markdown; charset=utf-8"@, ArtifactRenderer::Markdown),
        e == "json"@ ==> class == ("application/json"@, ArtifactRenderer::Json),
        e == "csv"@ ==> class == ("text/csv; charset=utf-8"@, ArtifactRenderer::Csv),
        e == "html"@ ==> class == ("text/html; charset=utf-8"@, ArtifactRenderer::Html),
        e == "htm"@ ==> class == ("text/html; charset=utf-8"@, ArtifactRenderer::Html),
        e == "txt"@ ==> class == ("text/plain; charset=utf-8"@, ArtifactRenderer::Text) || class == ("application/octet-stream"@, ArtifactRenderer::Download),
        e == "rs"@ ==> class == ("text/plain; charset=utf-8"@, ArtifactRenderer::Text) || class == ("application/octet-stream"@, ArtifactRenderer::Download),
        e == "py"@ ==> class == ("text/plain; charset=utf-8"@, ArtifactRenderer::Text) || class == ("application/octet-stream"@, ArtifactRenderer::Download),
        e == "js"@ ==> class == ("text/plain; charset=utf-8"@, ArtifactRenderer::Text) || class == ("application/octet-stream"@, ArtifactRenderer::Download),
        e == "ts"@ ==> class == ("text/plain; charset=utf-8"@, ArtifactRenderer::Text) || class == ("application/octet-stream"@, ArtifactRenderer::Download),
        e == "tsx"@ ==> class == ("text/plain; charset=utf-8"@, ArtifactRenderer::Text) || class == ("application/octet-stream"@, ArtifactRenderer::Download),
        e == "jsx"@ ==> class == ("text/plain; charset=utf-8"@, ArtifactRenderer::Text) || class == ("application/octet-stream"@, ArtifactRenderer::Download),
        e == "css"@ ==> class == ("text/plain; charset=utf-8"@, ArtifactRenderer::Text) || class == ("application/octet-stream"@, ArtifactRenderer::Download),
        e == "toml"@ ==> class == ("text/plain; charset=utf-8"@, ArtifactRenderer::Text) || class == ("application/octet-stream"@, ArtifactRenderer::Download),
        e == "yaml"@ ==> class == ("text/plain; charset=utf-8"@, ArtifactRenderer::Text) || class == ("application/octet-stream"@, ArtifactRenderer::Download),
        e == "yml"@ ==> class == ("text/plain; charset=utf-8"@, ArtifactRenderer::Text) || class == ("application/octet-stream"@, ArtifactRenderer::Download),
        e == "xml"@ ==> class == ("text/plain; charset=utf-8"@, ArtifactRenderer::Text) || class == ("application/octet-stream"@, ArtifactRenderer::Download),
        e == "sh"@ ==> class == ("text/plain; charset=utf-8"@, ArtifactRenderer::Text) || class == ("application/octet-stream"@, ArtifactRenderer::Download),
        e == "c"@ ==> class == ("text/plain; charset=utf-8"@, ArtifactRenderer::Text) || class == ("application/octet-stream"@, ArtifactRenderer::Download),
        e == "h"@ ==> class == ("text/plain; charset=utf-8"@, ArtifactRenderer::Text) || class == ("application/octet-stream"@, ArtifactRenderer::Download),
        e == "cpp"@ ==> class == ("text/plain; charset=utf-8"@, ArtifactRenderer::Text) || class == ("application/octet-stream"@, ArtifactRenderer::Download),
        e == "java"@ ==> class == ("text/plain; charset=utf-8"@, ArtifactRenderer::Text) || class == ("application/octet-stream"@, ArtifactRenderer::Download),
        e == "r"@ ==> class == ("text/plain; charset=utf-8"@, ArtifactRenderer::Text) || class == ("application/octet-stream"@, ArtifactRenderer::Download),
        e == "m"@ ==> class == ("text/plain; charset=utf-8"@, ArtifactRenderer::Text) || class == ("application/octet-stream"@, ArtifactRenderer::Download),
{
    lemma_extensions_differ();
    lemma_types_differ();
    law_renderers_follow_media_types(prefix, truncated, filename, declared, verdict, class.0, class.1);
}

/// Text without a mark is shown by its name: each known extension gives its type, an SVG or JSON
/// extension where the text is such, and a name without an extension gives plain text.
pub proof fn law_text_is_shown_by_its_name(
    prefix: Seq<u8>,
    truncated: bool,
    filename: Seq<char>,
    verdict: JsonVerdict,
    document: Seq<char>,
)
    requires
        classification::signature(prefix) is None,
        classification::readable_text(prefix, truncated) == Some(document),
    ensures
        classification::lower_extension(filename) is None ==> classification::visible_class(
            prefix,
            truncated,
            filename,
            None,
            verdict,
        ) == Some(("text/plain; charset=utf-8"@, ArtifactRenderer::Text)),
        ({
            let e = classification::lower_extension(filename)->0;
            let found = classification::visible_class(prefix, truncated, filename, None, verdict);
            classification::lower_extension(filename) is Some ==> {
                &&& e == "md"@ ==> found == Some(("text/markdown; charset=utf-8"@, ArtifactRenderer::Markdown))
                &&& e == "markdown"@ ==> found == Some(("text/markdown; charset=utf-8"@, ArtifactRenderer::Markdown))
                &&& e == "csv"@ ==> found == Some(("text/csv; charset=utf-8"@, ArtifactRenderer::Csv))
                &&& e == "html"@ ==> found == Some(("text/html; charset=utf-8"@, ArtifactRenderer::Html))
                &&& e == "htm"@ ==> found == Some(("text/html; charset=utf-8"@, ArtifactRenderer::Html))
                &&& e == "txt"@ ==> found == Some(("text/plain; charset=utf-8"@, ArtifactRenderer::Text))
                &&& e == "rs"@ ==> found == Some(("text/plain; charset=utf-8"@, ArtifactRenderer::Text))
                &&& e == "py"@ ==> found == Some(("text/plain; charset=utf-8"@, ArtifactRenderer::Text))
                &&& e == "js"@ ==> found == Some(("text/plain; charset=utf-8"@, ArtifactRenderer::Text))
                &&& e == "ts"@ ==> found == Some(("text/plain; charset=utf-8"@, ArtifactRenderer::Text))
                &&& e == "tsx"@ ==> found == Some(("text/plain; charset=utf-8"@, ArtifactRenderer::Text))
                &&& e == "jsx"@ ==> found == Some(("text/plain; charset=utf-8"@, ArtifactRenderer::Text))
                &&& e == "css"@ ==> found == Some(("text/plain; charset=utf-8"@, ArtifactRenderer::Text))
                &&& e == "toml"@ ==> found == Some(("text/plain; charset=utf-8"@, ArtifactRenderer::Text))
                &&& e == "yaml"@ ==> found == Some(("text/plain; charset=utf-8"@, ArtifactRenderer::Text))
                &&& e == "yml"@ ==> found == Some(("text/plain; charset=utf-8"@, ArtifactRenderer::Text))
                &&& e == "xml"@ ==> found == Some(("text/plain; charset=utf-8"@, ArtifactRenderer::Text))
                &&& e == "sh"@ ==> found == Some(("text/plain; charset=utf-8"@, ArtifactRenderer::Text))
                &&& e == "c"@ ==> found == Some(("text/plain; charset=utf-8"@, ArtifactRenderer::Text))
                &&& e == "h"@ ==> found == Some(("text/plain; charset=utf-8"@, ArtifactRenderer::Text))
                &&& e == "cpp"@ ==> found == Some(("text/plain; charset=utf-8"@, ArtifactRenderer::Text))
                &&& e == "java"@ ==> found == Some(("text/plain; charset=utf-8"@, ArtifactRenderer::Text))
                &&& e == "r"@ ==> found == Some(("text/plain; charset=utf-8"@, ArtifactRenderer::Text))
                &&& e == "m"@ ==> found == Some(("text/plain; charset=utf-8"@, ArtifactRenderer::Text))
                &&& e == "svg"@ && classification::is_svg(document) ==> found == Some(
                    ("image/svg+xml"@, ArtifactRenderer::Svg),
                )
                &&& e == "svg"@ && !classification::is_svg(document) ==> found is None
                &&& e == "json"@ && verdict == JsonVerdict::Complete ==> found == Some(
                    ("application/json"@, ArtifactRenderer::Json),
                )
                &&& e == "json"@ && verdict == JsonVerdict::Unfinished && truncated ==> found == Some(
                    ("application/json"@, ArtifactRenderer::Json),
                )
                &&& e == "json"@ && verdict == JsonVerdict::Malformed ==> found is None
                &&& e == "json"@ && verdict == JsonVerdict::Unfinished && !truncated ==> found is None
                &&& e == "png"@ ==> found is None
                &&& e == "jpg"@ ==> found is None
                &&& e == "jpeg"@ ==> found is None
                &&& e == "gif"@ ==> found is None
                &&& e == "webp"@ ==> found is None
                &&& e == "pdf"@ ==> found is None
                &&& e == "mp4"@ ==> found is None
                &&& e == "webm"@ ==> found is None
                &&& e == "m4a"@ ==> found is None
                &&& e == "m4b"@ ==> found is None
                &&& e == "mp3"@ ==> found is None
                &&& e == "wav"@ ==> found is None
                &&& e == "ogg"@ ==> found is None
                &&& e == "oga"@ ==> found is None
                &&& e == "flac"@ ==> found is None
            }
        }),
{
    lemma_extensions_differ();
    lemma_types_differ();
}

/// Bytes that are neither text nor of a known type are a download under any name that promises
/// nothing, and bytes with a mark are what the mark says under any such name.
pub proof fn law_names_that_promise_nothing(
    prefix: Seq<u8>,
    truncated: bool,
    filename: Seq<char>,
    verdict: JsonVerdict,
)
    requires
        classification::lower_extension(filename) matches Some(e) ==> {
            true
                && e != "png"@
                && e != "jpg"@
                && e != "jpeg"@
                && e != "gif"@
                && e != "webp"@
                && e != "svg"@
                && e != "pdf"@
                && e != "mp4"@
                && e != "webm"@
                && e != "m4a"@
                && e != "m4b"@
                && e != "mp3"@
                && e != "wav"@
                && e != "ogg"@
                && e != "oga"@
                && e != "flac"@
                && e != "md"@
                && e != "markdown"@
                && e != "json"@
                && e != "csv"@
                && e != "html"@
                && e != "htm"@
                && e != "txt"@
                && e != "rs"@
                && e != "py"@
                && e != "js"@
                && e != "ts"@
                && e != "tsx"@
                && e != "jsx"@
                && e != "css"@
                && e != "toml"@
                && e != "yaml"@
                && e != "yml"@
                && e != "xml"@
                && e != "sh"@
                && e != "c"@
                && e != "h"@
                && e != "cpp"@
                && e != "java"@
                && e != "r"@
                && e != "m"@
        },
    ensures
        classification::signature(prefix) is None && (classification::readable_text(prefix, truncated)
            is None || classification::lower_extension(filename) is Some)
            ==> classification::visible_class(prefix, truncated, filename, None, verdict) == Some(
            ("application/octet-stream"@, ArtifactRenderer::Download),
        ),
        classification::signature(prefix) is Some ==> classification::visible_class(
            prefix,
            truncated,
            filename,
            None,
            verdict,
        ) == classification::signature(prefix),
{
}

/// A declared media type decides nothing: an artifact is accepted with it exactly where it is
/// accepted without it as that very type.
pub proof fn law_declarations_only_confirm(
    prefix: Seq<u8>,
    truncated: bool,
    filename: Seq<char>,
    value: Seq<char>,
    verdict: JsonVerdict,
)
    ensures
        ({
            let alone = classification::visible_class(prefix, truncated, filename, None, verdict);
            let with = classification::visible_class(
                prefix,
                truncated,
                filename,
                Some(value),
                verdict,
            );
            &&& with is Some ==> with == alone
            &&& with is Some <==> (alone matches Some(class) && (classification::declared_class(value)
                matches Some(wanted) && wanted.0 == class.0))
        }),
{
}

proof fn lemma_support_extensions_differ()
    ensures
        "css"@.len() == 3 && "css"@[0] == 'c' && "css"@[1] == 's',
        "js"@.len() == 2,
        "mjs"@.len() == 3 && "mjs"@[0] == 'm',
        "cjs"@.len() == 3 && "cjs"@[0] == 'c' && "cjs"@[1] == 'j',
        "json"@.len() == 4 && "json"@[0] == 'j',
        "svg"@.len() == 3 && "svg"@[0] == 's',
        "wasm"@.len() == 4 && "wasm"@[0] == 'w' && "wasm"@[1] == 'a',
        "woff"@.len() == 4 && "woff"@[0] == 'w' && "woff"@[1] == 'o',
        "woff2"@.len() == 5,
        "ttf"@.len() == 3 && "ttf"@[0] == 't',
        "otf"@.len() == 3 && "otf"@[0] == 'o',
{
    reveal_strlit("css");
    reveal_strlit("js");
    reveal_strlit("mjs");
    reveal_strlit("cjs");
    reveal_strlit("json");
    reveal_strlit("svg");
    reveal_strlit("wasm");
    reveal_strlit("woff");
    reveal_strlit("woff2");
    reveal_strlit("ttf");
    reveal_strlit("otf");
}

proof fn lemma_support_types_differ()
    ensures
        "text/css; charset=utf-8"@.len() == 23,
        "application/javascript; charset=utf-8"@.len() == 37,
        "application/json"@.len() == 16 && "application/json"@[12] == 'j',
        "image/svg+xml"@.len() == 13,
        "application/wasm"@.len() == 16 && "application/wasm"@[12] == 'w',
        "font/woff"@.len() == 9,
        "font/woff2"@.len() == 10,
        "font/ttf"@.len() == 8 && "font/ttf"@[5] == 't',
        "font/otf"@.len() == 8 && "font/otf"@[5] == 'o',
{
    reveal_strlit("text/css; charset=utf-8");
    reveal_strlit("application/javascript; charset=utf-8");
    reveal_strlit("application/json");
    reveal_strlit("image/svg+xml");
    reveal_strlit("application/wasm");
    reveal_strlit("font/woff");
    reveal_strlit("font/woff2");
    reveal_strlit("font/ttf");
    reveal_strlit("font/otf");
}

/// A support file without a mark is served by its name: styles, scripts, JSON and SVG where it is
/// such text, and WebAssembly and fonts where it starts as they do; any other is not known safe.
pub proof fn law_support_files_are_served_by_name(
    prefix: Seq<u8>,
    truncated: bool,
    filename: Seq<char>,
    verdict: JsonVerdict,
    e: Seq<char>,
)
    requires
        classification::signature(prefix) is None,
        classification::lower_extension(filename) == Some(e),
    ensures
        ({
            let found = classification::support_type(prefix, truncated, filename, verdict);
            let document = classification::readable_text(prefix, truncated);
            &&& e == "css"@ ==> found == served("text/css; charset=utf-8"@, document is Some)
            &&& e == "js"@ || e == "mjs"@ || e == "cjs"@ ==> found == served("application/javascript; charset=utf-8"@, document is Some)
            &&& e == "json"@ ==> found == served(
                "application/json"@,
                document is Some && (verdict == JsonVerdict::Complete || truncated && verdict
                    == JsonVerdict::Unfinished),
            )
            &&& e == "svg"@ ==> found == served(
                "image/svg+xml"@,
                document is Some && classification::is_svg(document->0),
            )
            &&& e == "wasm"@ ==> found == served("application/wasm"@, starts(prefix, seq![0x00u8, 0x61, 0x73, 0x6d, 0x01, 0x00, 0x00, 0x00]))
            &&& e == "woff"@ ==> found == served("font/woff"@, starts(prefix, seq![0x77u8, 0x4f, 0x46, 0x46]))
            &&& e == "woff2"@ ==> found == served("font/woff2"@, starts(prefix, seq![0x77u8, 0x4f, 0x46, 0x32]))
            &&& e == "ttf"@ ==> found == served("font/ttf"@, starts(prefix, seq![0x00u8, 0x01, 0x00, 0x00]))
            &&& e == "otf"@ ==> found == served("font/otf"@, starts(prefix, seq![0x4fu8, 0x54, 0x54, 0x4f]))
            &&& found is Some ==> (e == "css"@ || e == "js"@ || e == "mjs"@ || e == "cjs"@ || e == "json"@ || e == "svg"@ || e == "wasm"@ || e == "woff"@ || e == "woff2"@ || e == "ttf"@ || e == "otf"@)
        }),
{
    lemma_support_extensions_differ();
    lemma_encodings();
    lemma_stands(prefix, seq![0x00u8, 0x61, 0x73, 0x6d, 0x01, 0x00, 0x00, 0x00], 0);
    lemma_stands(prefix, seq![0x00u8, 0x01, 0x00, 0x00], 0);
    lemma_stands(prefix, seq![0x77u8, 0x4f, 0x46, 0x46], 0);
    lemma_stands(prefix, seq![0x77u8, 0x4f, 0x46, 0x32], 0);
    lemma_stands(prefix, seq![0x4fu8, 0x54, 0x54, 0x4f], 0);
}

/// The media type under which a file is served, where it may be.
pub open spec fn served(media_type: Seq<char>, may: bool) -> Option<Seq<char>> {
    if may {
        Some(media_type)
    } else {
        None
    }
}

/// A support file with a mark is served as what the mark says, unless its name promises otherwise;
/// without a mark and without an extension it is not known safe.
pub proof fn law_marked_support_files(
    prefix: Seq<u8>,
    truncated: bool,
    filename: Seq<char>,
    verdict: JsonVerdict,
)
    ensures
        ({
            let found = classification::support_type(prefix, truncated, filename, verdict);
            let shown = classification::visible_class(prefix, truncated, filename, None, verdict);
            &&& classification::signature(prefix) is Some ==> (shown matches Some(class) ==> found == Some(
                class.0,
            ))
            &&& classification::signature(prefix) is Some && shown is None ==> found is None
            &&& classification::signature(prefix) is None && classification::lower_extension(filename)
                is None ==> found is None
        }),
{
}

/// A document whose first element is `svg`, in any case, behind white space or behind an XML declaration,
/// is SVG; one whose declaration never ends is not.
pub proof fn law_svg_documents_start_with_svg(
    before: Seq<char>,
    inner: Seq<char>,
    between: Seq<char>,
    element: Seq<char>,
    rest: Seq<char>,
)
    requires
        text::is_blank(before),
        text::is_blank(between),
        !inner.contains('?'),
        element.len() == 4,
        text::lowercase(element) == seq!['<', 's', 'v', 'g'],
    ensures
        classification::is_svg(before + (element + rest)),
        classification::is_svg(
            before + ("<?xml"@ + inner + "?>"@ + (between + (element + rest))),
        ),
        !classification::is_svg(before + ("<?xml"@ + inner)),
{
    reveal_strlit("<?xml");
    reveal_strlit("?>");
    let body = element + rest;
    assert(element[0] == '<' && element[1] != '?') by {
        assert(text::lowercase(element)[0] == text::lower(element[0]));
        assert(text::lowercase(element)[1] == text::lower(element[1]));
    }
    assert(body[0] == '<' && body[1] == element[1]);
    assert(body.take(4) =~= element);
    lemma_behind_white_space(before, body);
    if text::has_prefix(body, "<?xml"@) {
        assert(body.take(5)[1] == "<?xml"@[1]);
    }
    assert(classification::is_svg(before + body));
    let declaration = "<?xml"@ + inner + "?>"@ + (between + body);
    lemma_behind_white_space(before, declaration);
    assert(declaration.take(5) =~= "<?xml"@);
    let end: int = 5 + inner.len() as int;
    lemma_end_of_declaration(inner, between + body, 0);
    assert(declaration.skip(end + 2) =~= between + body);
    lemma_behind_white_space(between, body);
    let open = "<?xml"@ + inner;
    lemma_behind_white_space(before, open);
    assert(open.take(5) =~= "<?xml"@);
    lemma_no_end(inner, 0);
}

proof fn lemma_behind_white_space(white: Seq<char>, body: Seq<char>)
    requires
        text::is_blank(white),
        body.len() > 0,
        body[0] == '<',
    ensures
        text::trimmed_start(white + body) == body,
    decreases white.len(),
{
    let whole = white + body;
    if white.len() > 0 {
        assert(whole[0] == white[0]);
        assert(whole.drop_first() =~= white.drop_first() + body);
        assert(text::is_blank(white.drop_first()));
        lemma_behind_white_space(white.drop_first(), body);
    } else {
        assert(whole =~= body);
    }
}

proof fn lemma_end_of_declaration(inner: Seq<char>, rest: Seq<char>, start: int)
    requires
        !inner.contains('?'),
        0 <= start <= 5 + inner.len(),
    ensures
        text::found_from("<?xml"@ + inner + "?>"@ + rest, "?>"@, start) == Some(5 + inner.len() as int),
    decreases 5 + inner.len() - start,
{
    reveal_strlit("<?xml");
    reveal_strlit("?>");
    let whole = "<?xml"@ + inner + "?>"@ + rest;
    if start < 5 + inner.len() {
        let part = whole.subrange(start, start + 2);
        assert(part[0] == whole[start] && part[1] == whole[start + 1]);
        if start >= 5 {
            assert(whole[start] == inner[start - 5]);
            assert(inner.contains(inner[start - 5]));
        } else {
            assert(whole[start] == "<?xml"@[start]);
            if start < 4 {
                assert(whole[start + 1] == "<?xml"@[start + 1]);
            }
        }
        assert("?>"@[0] == '?' && "?>"@[1] == '>');
        lemma_end_of_declaration(inner, rest, start + 1);
    } else {
        assert(whole.subrange(start, start + 2) =~= "?>"@);
    }
}

proof fn lemma_no_end(inner: Seq<char>, start: int)
    requires
        !inner.contains('?'),
        0 <= start,
    ensures
        text::found_from("<?xml"@ + inner, "?>"@, start) is None,
    decreases 6 + inner.len() - start,
{
    reveal_strlit("<?xml");
    reveal_strlit("?>");
    let whole = "<?xml"@ + inner;
    if start + 2 <= whole.len() {
        let part = whole.subrange(start, start + 2);
        assert(part[0] == whole[start] && part[1] == whole[start + 1]);
        if start >= 5 {
            assert(whole[start] == inner[start - 5]);
            assert(inner.contains(inner[start - 5]));
        } else {
            assert(whole[start] == "<?xml"@[start]);
            if start < 4 {
                assert(whole[start + 1] == "<?xml"@[start + 1]);
            }
        }
        assert("?>"@[0] == '?' && "?>"@[1] == '>');
        lemma_no_end(inner, start + 1);
    }
}

/// What starts with no element is no SVG.
pub proof fn law_other_documents_are_no_svg(before: Seq<char>, body: Seq<char>)
    requires
        text::is_blank(before),
        body.len() > 0,
        body[0] != '<',
        !text::is_white_space(body[0]),
    ensures
        !classification::is_svg(before + body),
    decreases before.len(),
{
    let whole = before + body;
    if before.len() > 0 {
        assert(whole[0] == before[0]);
        assert(whole.drop_first() =~= before.drop_first() + body);
        assert(text::is_blank(before.drop_first()));
        law_other_documents_are_no_svg(before.drop_first(), body);
    } else {
        assert(whole =~= body);
        reveal_strlit("<?xml");
        if text::has_prefix(body, "<?xml"@) {
            assert(body.take(5)[0] == '<');
        }
        if body.len() >= 4 {
            assert(text::lowercase(body.take(4))[0] == text::lower(body[0]));
        }
    }
}

} // verus!
