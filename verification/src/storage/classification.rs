//! What an artifact is, from its first bytes, its file name and its declared media type.
use vstd::prelude::*;
use vstd::utf8::*;
use crate::bytes;
use crate::path;
use crate::storage::error::StoreError;
use crate::text;

verus! {

/// How much of an artifact is looked at, in bytes.
pub const PREFIX_LIMIT: u64 = 65_536;

/// How the viewer shows an artifact.
#[derive(Debug, Clone, Copy, PartialEq, Eq, Structural)]
pub enum ArtifactRenderer {
    Image,
    Svg,
    Pdf,
    Video,
    Audio,
    Markdown,
    Text,
    Json,
    Csv,
    Html,
    Download,
}

/// The media type and the renderer of an artifact.
#[derive(Debug, PartialEq, Eq)]
pub struct FileClassification {
    pub media_type: String,
    pub renderer: ArtifactRenderer,
}

/// The model of a classification: its media type and its renderer.
pub type Class = (Seq<char>, ArtifactRenderer);

impl View for FileClassification {
    type V = (Seq<char>, ArtifactRenderer);

    open spec fn view(&self) -> (Seq<char>, ArtifactRenderer) {
        (self.media_type@, self.renderer)
    }
}

fn c(media_type: &str, renderer: ArtifactRenderer) -> (class: FileClassification)
    ensures
        class@ == (media_type@, renderer),
{
    FileClassification { media_type: text::copy_of(media_type), renderer }
}

// ---- signatures ----

/// The major brand and the compatible brands of an ISO base media file.
pub open spec fn brands(b: Seq<u8>) -> Option<(Seq<u8>, Seq<u8>)> {
    if b.len() < 16 || !bytes::stands_at(b, encode_utf8("ftyp"@), 4) {
        None
    } else {
        let declared = b[0] * 0x100_0000 + b[1] * 0x1_0000 + b[2] * 0x100 + b[3];
        let end = if declared < b.len() {
            declared
        } else {
            b.len() as int
        };
        if declared < 16 {
            None
        } else {
            Some((b.subrange(8, 12), b.subrange(16, end)))
        }
    }
}

/// Whether the brand is one of the compatible brands, which take four bytes each.
pub open spec fn lists_brand(compatible: Seq<u8>, accepted: spec_fn(Seq<u8>) -> bool) -> bool {
    exists|k: int|
        0 <= k && 4 * k + 4 <= compatible.len() && accepted(
            #[trigger] compatible.subrange(4 * k, 4 * k + 4),
        )
}

pub open spec fn is_audio_brand(brand: Seq<u8>) -> bool {
    brand == encode_utf8("M4A "@) || brand == encode_utf8("M4B "@)
}

pub open spec fn is_video_brand(brand: Seq<u8>) -> bool {
    ||| brand == encode_utf8("isom"@)
    ||| brand == encode_utf8("iso2"@)
    ||| brand == encode_utf8("mp41"@)
    ||| brand == encode_utf8("mp42"@)
    ||| brand == encode_utf8("avc1"@)
    ||| brand == encode_utf8("dash"@)
}

/// Whether the bytes start an MPEG-4 audio file.
pub open spec fn mp4_audio(b: Seq<u8>) -> bool {
    brands(b) matches Some((major, compatible)) && (is_audio_brand(major) || lists_brand(
        compatible,
        |brand: Seq<u8>| is_audio_brand(brand),
    ))
}

/// Whether the bytes start an MPEG-4 video file.
pub open spec fn mp4_video(b: Seq<u8>) -> bool {
    brands(b) matches Some((major, compatible)) && (is_video_brand(major) || lists_brand(
        compatible,
        |brand: Seq<u8>| is_video_brand(brand),
    ))
}


/// Whether the bytes start a WebM file: an EBML header that names the document type `webm`.
pub open spec fn webm(b: Seq<u8>) -> bool {
    &&& bytes::has_prefix(b, seq![0x1au8, 0x45, 0xdf, 0xa3])
    &&& exists|i: int| #[trigger] names_webm(b, i)
}

/// Whether the document type `webm`, in any case, stands at position `i`.
pub open spec fn names_webm(b: Seq<u8>, i: int) -> bool {
    &&& 0 <= i && i + 7 <= b.len()
    &&& b[i] == 0x42 && b[i + 1] == 0x82 && b[i + 2] == 0x84
    &&& bytes::lower_byte(b[i + 3]) == 0x77 && bytes::lower_byte(b[i + 4]) == 0x65
    &&& bytes::lower_byte(b[i + 5]) == 0x62 && bytes::lower_byte(b[i + 6]) == 0x6d
}

/// Whether the bytes start an Ogg file with Opus, Vorbis or FLAC audio.
pub open spec fn ogg_audio(b: Seq<u8>) -> bool {
    bytes::has_prefix(b, encode_utf8("OggS"@)) && (bytes::holds(b, encode_utf8("OpusHead"@))
        || bytes::holds(b, encode_utf8("\u{1}vorbis"@)) || bytes::holds(b, encode_utf8("fLaC"@)))
}

/// Whether the bytes start an MP3 file: an ID3 tag, or a frame header with a known version, a
/// layer, a bit rate and a sample rate.
pub open spec fn mp3(b: Seq<u8>) -> bool {
    ||| bytes::has_prefix(b, encode_utf8("ID3"@))
    ||| {
        &&& b.len() >= 4
        &&& b[0] == 0xff
        &&& b[1] >= 0xe0
        &&& (b[1] / 8) % 4 != 1
        &&& (b[1] / 2) % 4 != 0
        &&& b[2] / 16 != 0
        &&& b[2] / 16 != 15
        &&& (b[2] / 4) % 4 != 3
    }
}

/// Whether a RIFF container of the given form type starts the bytes.
pub open spec fn riff(b: Seq<u8>, form: Seq<u8>) -> bool {
    b.len() >= 12 && bytes::has_prefix(b, encode_utf8("RIFF"@)) && bytes::stands_at(b, form, 8)
}

/// What the bytes themselves say the artifact is, where they carry a known signature.
pub open spec fn signature(b: Seq<u8>) -> Option<(Seq<char>, ArtifactRenderer)> {
    if bytes::has_prefix(b, seq![0x89u8, 0x50, 0x4e, 0x47, 0x0d, 0x0a, 0x1a, 0x0a]) {
        Some(("image/png"@, ArtifactRenderer::Image))
    } else if bytes::has_prefix(b, seq![0xffu8, 0xd8, 0xff]) {
        Some(("image/jpeg"@, ArtifactRenderer::Image))
    } else if bytes::has_prefix(b, encode_utf8("GIF87a"@)) || bytes::has_prefix(
        b,
        encode_utf8("GIF89a"@),
    ) {
        Some(("image/gif"@, ArtifactRenderer::Image))
    } else if riff(b, encode_utf8("WEBP"@)) {
        Some(("image/webp"@, ArtifactRenderer::Image))
    } else if bytes::has_prefix(b, encode_utf8("%PDF-"@)) {
        Some(("application/pdf"@, ArtifactRenderer::Pdf))
    } else if mp4_audio(b) {
        Some(("audio/mp4"@, ArtifactRenderer::Audio))
    } else if mp4_video(b) {
        Some(("video/mp4"@, ArtifactRenderer::Video))
    } else if webm(b) {
        Some(("video/webm"@, ArtifactRenderer::Video))
    } else if mp3(b) {
        Some(("audio/mpeg"@, ArtifactRenderer::Audio))
    } else if riff(b, encode_utf8("WAVE"@)) {
        Some(("audio/wav"@, ArtifactRenderer::Audio))
    } else if ogg_audio(b) {
        Some(("audio/ogg"@, ArtifactRenderer::Audio))
    } else if bytes::has_prefix(b, encode_utf8("fLaC"@)) {
        Some(("audio/flac"@, ArtifactRenderer::Audio))
    } else {
        None
    }
}

fn bmff_brands(data: &[u8]) -> (result: Option<(&[u8], &[u8])>)
    ensures
        match result {
            Some((major, compatible)) => brands(data@) == Some((major@, compatible@)),
            None => brands(data@) is None,
        },
{
    if data.len() < 16 || !bytes::pattern_at(data, "ftyp".as_bytes(), 4) {
        return None;
    }
    let declared: u64 = (data[0] as u64) * 0x100_0000 + (data[1] as u64) * 0x1_0000 + (
    data[2] as u64) * 0x100 + (data[3] as u64);
    if declared < 16 {
        return None;
    }
    let end: usize = if declared < data.len() as u64 {
        declared as usize
    } else {
        data.len()
    };
    Some(
        (
            vstd::slice::slice_subrange(data, 8, 12),
            vstd::slice::slice_subrange(data, 16, end),
        ),
    )
}

fn audio_brand(brand: &[u8]) -> (yes: bool)
    ensures
        yes == is_audio_brand(brand@),
{
    text::same_bytes(brand, "M4A ".as_bytes()) || text::same_bytes(brand, "M4B ".as_bytes())
}

fn video_brand(brand: &[u8]) -> (yes: bool)
    ensures
        yes == is_video_brand(brand@),
{
    text::same_bytes(brand, "isom".as_bytes()) || text::same_bytes(brand, "iso2".as_bytes())
        || text::same_bytes(brand, "mp41".as_bytes()) || text::same_bytes(
        brand,
        "mp42".as_bytes(),
    ) || text::same_bytes(brand, "avc1".as_bytes()) || text::same_bytes(brand, "dash".as_bytes())
}

fn is_mp4_audio(data: &[u8]) -> (yes: bool)
    ensures
        yes == mp4_audio(data@),
{
    match bmff_brands(data) {
        None => false,
        Some((major, compatible)) => {
            if audio_brand(major) {
                return true;
            }
            let ghost accepted = |brand: Seq<u8>| is_audio_brand(brand);
            let mut i: usize = 0;
            while compatible.len() - i >= 4
                invariant
                    i <= compatible.len(),
                    brands(data@) == Some((major@, compatible@)),
                    i % 4 == 0,
                    accepted == |brand: Seq<u8>| is_audio_brand(brand),
                    forall|k: int|
                        0 <= k && 4 * k < i ==> !is_audio_brand(
                            #[trigger] compatible@.subrange(4 * k, 4 * k + 4),
                        ),
                decreases compatible.len() - i,
            {
                let ghost k = i as int / 4;
                assert(4 * k == i);
                if audio_brand(vstd::slice::slice_subrange(compatible, i, i + 4)) {
                    assert(accepted(compatible@.subrange(4 * k, 4 * k + 4)));
                    return true;
                }
                i += 4;
            }
            false
        },
    }
}

fn is_mp4_video(data: &[u8]) -> (yes: bool)
    ensures
        yes == mp4_video(data@),
{
    match bmff_brands(data) {
        None => false,
        Some((major, compatible)) => {
            if video_brand(major) {
                return true;
            }
            let ghost accepted = |brand: Seq<u8>| is_video_brand(brand);
            let mut i: usize = 0;
            while compatible.len() - i >= 4
                invariant
                    i <= compatible.len(),
                    brands(data@) == Some((major@, compatible@)),
                    i % 4 == 0,
                    accepted == |brand: Seq<u8>| is_video_brand(brand),
                    forall|k: int|
                        0 <= k && 4 * k < i ==> !is_video_brand(
                            #[trigger] compatible@.subrange(4 * k, 4 * k + 4),
                        ),
                decreases compatible.len() - i,
            {
                let ghost k = i as int / 4;
                assert(4 * k == i);
                if video_brand(vstd::slice::slice_subrange(compatible, i, i + 4)) {
                    assert(accepted(compatible@.subrange(4 * k, 4 * k + 4)));
                    return true;
                }
                i += 4;
            }
            false
        },
    }
}

fn is_webm(data: &[u8]) -> (yes: bool)
    ensures
        yes == webm(data@),
{
    let header: &[u8] = &[0x1au8, 0x45, 0xdf, 0xa3];
    assert(header@ =~= seq![0x1au8, 0x45, 0xdf, 0xa3]);
    if !bytes::starts_with(data, header) {
        return false;
    }
    let mut i: usize = 0;
    while data.len() - i >= 7
        invariant
            i <= data.len(),
            bytes::has_prefix(data@, seq![0x1au8, 0x45, 0xdf, 0xa3]),
            forall|j: int| 0 <= j < i ==> !#[trigger] names_webm(data@, j),
        decreases data.len() - i,
    {
        if data[i] == 0x42 && data[i + 1] == 0x82 && data[i + 2] == 0x84 && bytes::to_lower_byte(
            data[i + 3],
        ) == 0x77 && bytes::to_lower_byte(data[i + 4]) == 0x65 && bytes::to_lower_byte(data[i + 5])
            == 0x62 && bytes::to_lower_byte(data[i + 6]) == 0x6d {
            assert(names_webm(data@, i as int));
            return true;
        }
        i += 1;
    }
    false
}

fn is_supported_ogg_audio(data: &[u8]) -> (yes: bool)
    ensures
        yes == ogg_audio(data@),
{
    bytes::starts_with(data, "OggS".as_bytes()) && (bytes::contains(data, "OpusHead".as_bytes())
        || bytes::contains(data, "\u{1}vorbis".as_bytes()) || bytes::contains(
        data,
        "fLaC".as_bytes(),
    ))
}

fn is_mp3(data: &[u8]) -> (yes: bool)
    ensures
        yes == mp3(data@),
{
    if bytes::starts_with(data, "ID3".as_bytes()) {
        return true;
    }
    if data.len() < 4 || data[0] != 0xff || data[1] < 0xe0 {
        return false;
    }
    let version: u8 = (data[1] / 8) % 4;
    let layer: u8 = (data[1] / 2) % 4;
    let bitrate: u8 = data[2] / 16;
    let sample_rate: u8 = (data[2] / 4) % 4;
    version != 1 && layer != 0 && bitrate != 0 && bitrate != 15 && sample_rate != 3
}

/// What the bytes themselves say the artifact is.
pub fn strong_signature(data: &[u8]) -> (result: Option<FileClassification>)
    ensures
        match result {
            Some(class) => signature(data@) == Some(class@),
            None => signature(data@) is None,
        },
{
    let png: &[u8] = &[0x89u8, 0x50, 0x4e, 0x47, 0x0d, 0x0a, 0x1a, 0x0a];
    let jpeg: &[u8] = &[0xffu8, 0xd8, 0xff];
    assert(png@ =~= seq![0x89u8, 0x50, 0x4e, 0x47, 0x0d, 0x0a, 0x1a, 0x0a]);
    assert(jpeg@ =~= seq![0xffu8, 0xd8, 0xff]);
    if bytes::starts_with(data, png) {
        Some(c("image/png", ArtifactRenderer::Image))
    } else if bytes::starts_with(data, jpeg) {
        Some(c("image/jpeg", ArtifactRenderer::Image))
    } else if bytes::starts_with(data, "GIF87a".as_bytes()) || bytes::starts_with(
        data,
        "GIF89a".as_bytes(),
    ) {
        Some(c("image/gif", ArtifactRenderer::Image))
    } else if data.len() >= 12 && bytes::starts_with(data, "RIFF".as_bytes()) && bytes::pattern_at(
        data,
        "WEBP".as_bytes(),
        8,
    ) {
        Some(c("image/webp", ArtifactRenderer::Image))
    } else if bytes::starts_with(data, "%PDF-".as_bytes()) {
        Some(c("application/pdf", ArtifactRenderer::Pdf))
    } else if is_mp4_audio(data) {
        Some(c("audio/mp4", ArtifactRenderer::Audio))
    } else if is_mp4_video(data) {
        Some(c("video/mp4", ArtifactRenderer::Video))
    } else if is_webm(data) {
        Some(c("video/webm", ArtifactRenderer::Video))
    } else if is_mp3(data) {
        Some(c("audio/mpeg", ArtifactRenderer::Audio))
    } else if data.len() >= 12 && bytes::starts_with(data, "RIFF".as_bytes()) && bytes::pattern_at(
        data,
        "WAVE".as_bytes(),
        8,
    ) {
        Some(c("audio/wav", ArtifactRenderer::Audio))
    } else if is_supported_ogg_audio(data) {
        Some(c("audio/ogg", ArtifactRenderer::Audio))
    } else if bytes::starts_with(data, "fLaC".as_bytes()) {
        Some(c("audio/flac", ArtifactRenderer::Audio))
    } else {
        None
    }
}

// ---- text ----

/// Whether the bytes begin a character of UTF-8 and lack its end.
pub open spec fn begins_character(tail: Seq<u8>) -> bool {
    let second_fits = {
        ||| tail[0] == 0xe0 && 0xa0 <= tail[1] <= 0xbf
        ||| 0xe1 <= tail[0] <= 0xec && 0x80 <= tail[1] <= 0xbf
        ||| tail[0] == 0xed && 0x80 <= tail[1] <= 0x9f
        ||| 0xee <= tail[0] <= 0xef && 0x80 <= tail[1] <= 0xbf
        ||| tail[0] == 0xf0 && 0x90 <= tail[1] <= 0xbf
        ||| 0xf1 <= tail[0] <= 0xf3 && 0x80 <= tail[1] <= 0xbf
        ||| tail[0] == 0xf4 && 0x80 <= tail[1] <= 0x8f
    };
    ||| tail.len() == 1 && 0xc2 <= tail[0] <= 0xf4
    ||| tail.len() == 2 && second_fits
    ||| tail.len() == 3 && tail[0] >= 0xf0 && second_fits && 0x80 <= tail[2] <= 0xbf
}

/// Whether the bytes are text but for the last `cut` of them, which begin a character.
pub open spec fn text_but_for(b: Seq<u8>, cut: int) -> bool {
    &&& cut <= b.len()
    &&& valid_utf8(b.take(b.len() - cut))
    &&& begins_character(b.skip(b.len() - cut))
}

/// The text that the bytes hold: UTF-8 without the zero byte. Where the bytes are the start of a
/// longer whole, a character that is cut off at their end is left out.
pub open spec fn readable_text(b: Seq<u8>, truncated: bool) -> Option<Seq<char>> {
    if b.contains(0) {
        None
    } else if valid_utf8(b) {
        Some(decode_utf8(b))
    } else if truncated && text_but_for(b, 1) {
        Some(decode_utf8(b.take(b.len() - 1)))
    } else if truncated && text_but_for(b, 2) {
        Some(decode_utf8(b.take(b.len() - 2)))
    } else if truncated && text_but_for(b, 3) {
        Some(decode_utf8(b.take(b.len() - 3)))
    } else {
        None
    }
}

fn cut_character(tail: &[u8]) -> (yes: bool)
    ensures
        yes == begins_character(tail@),
{
    if tail.len() == 0 || tail.len() > 3 {
        return false;
    }
    let first: u8 = tail[0];
    if tail.len() == 1 {
        return 0xc2 <= first && first <= 0xf4;
    }
    let second: u8 = tail[1];
    let second_fits = (first == 0xe0 && 0xa0 <= second && second <= 0xbf) || (0xe1 <= first
        && first <= 0xec && 0x80 <= second && second <= 0xbf) || (first == 0xed && 0x80 <= second
        && second <= 0x9f) || (0xee <= first && first <= 0xef && 0x80 <= second && second <= 0xbf)
        || (first == 0xf0 && 0x90 <= second && second <= 0xbf) || (0xf1 <= first && first <= 0xf3
        && 0x80 <= second && second <= 0xbf) || (first == 0xf4 && 0x80 <= second && second <= 0x8f);
    if tail.len() == 2 {
        return second_fits;
    }
    first >= 0xf0 && second_fits && 0x80 <= tail[2] && tail[2] <= 0xbf
}

fn text_before_cut(data: &[u8], cut: usize) -> (result: Option<&str>)
    requires
        cut <= 3,
    ensures
        match result {
            Some(value) => text_but_for(data@, cut as int) && value@ == decode_utf8(
                data@.take(data@.len() - cut),
            ),
            None => !text_but_for(data@, cut as int),
        },
{
    if cut > data.len() {
        return None;
    }
    let keep: usize = data.len() - cut;
    let head = vstd::slice::slice_subrange(data, 0, keep);
    let tail = vstd::slice::slice_subrange(data, keep, data.len());
    assert(head@ =~= data@.take(data@.len() - cut));
    assert(tail@ =~= data@.skip(data@.len() - cut));
    if cut_character(tail) {
        text::utf8_text(head)
    } else {
        None
    }
}

fn bounded_utf8_text(data: &[u8], truncated: bool) -> (result: Option<&str>)
    ensures
        match result {
            Some(value) => readable_text(data@, truncated) == Some(value@),
            None => readable_text(data@, truncated) is None,
        },
{
    let mut i: usize = 0;
    while i < data.len()
        invariant
            i <= data.len(),
            forall|j: int| 0 <= j < i ==> #[trigger] data@[j] != 0,
        decreases data.len() - i,
    {
        if data[i] == 0 {
            assert(data@.contains(0));
            return None;
        }
        i += 1;
    }
    assert(!data@.contains(0));
    match text::utf8_text(data) {
        Some(value) => Some(value),
        None => {
            if !truncated {
                return None;
            }
            match text_before_cut(data, 1) {
                Some(value) => Some(value),
                None => match text_before_cut(data, 2) {
                    Some(value) => Some(value),
                    None => text_before_cut(data, 3),
                },
            }
        },
    }
}

/// The text that remains of a document after an XML declaration, where it starts with one that
/// ends.
pub open spec fn after_declaration(document: Seq<char>) -> Option<Seq<char>> {
    let start = text::trimmed_start(document);
    if text::has_prefix(start, "<?xml"@) {
        match text::found(start, "?>"@) {
            Some(end) => Some(text::trimmed_start(start.skip(end + 2))),
            None => None,
        }
    } else {
        Some(start)
    }
}

/// Whether a document starts, after white space and an XML declaration, with an `svg` element.
pub open spec fn is_svg(document: Seq<char>) -> bool {
    after_declaration(document) matches Some(rest) && rest.len() >= 4 && text::lowercase(
        rest.take(4),
    ) == seq!['<', 's', 'v', 'g']
}

fn looks_svg(document: &str) -> (yes: bool)
    ensures
        yes == is_svg(document@),
{
    let chars = text::chars_of(document);
    let mut rest = text::trim_start(&chars);
    if text::starts_with(&rest, &text::chars_of("<?xml")) {
        let close = text::chars_of("?>");
        match text::find(&rest, &close) {
            None => {
                return false;
            },
            Some(end) => {
                let total: usize = rest.len();
                proof {
                    reveal_strlit("?>");
                    text::lemma_found_fits(rest@, close@, 0);
                    assert(text::occurs_at(rest@, close@, end as int));
                    assert(close@.len() == 2);
                }
                let tail = vstd::slice::slice_subrange(rest.as_slice(), end + 2, total);
                assert(tail@ =~= rest@.skip(end + 2));
                rest = text::trim_start(tail);
            },
        }
    }
    if rest.len() < 4 {
        return false;
    }
    let yes = text::to_lower(rest[0]) == '<' && text::to_lower(rest[1]) == 's' && text::to_lower(
        rest[2],
    ) == 'v' && text::to_lower(rest[3]) == 'g';
    proof {
        let head = text::lowercase(rest@.take(4));
        assert(head.len() == 4);
        if yes {
            assert(head =~= seq!['<', 's', 'v', 'g']);
        } else if head == seq!['<', 's', 'v', 'g'] {
            assert(head[0] == '<' && head[1] == 's' && head[2] == 'v' && head[3] == 'g');
        }
    }
    yes
}

/// What a JSON parser says of a text.
#[derive(Debug, Clone, Copy, PartialEq, Eq, Structural)]
pub enum JsonVerdict {
    /// It is one JSON value.
    Complete,
    /// It ends before a JSON value ends.
    Unfinished,
    /// It cannot be, or start, one JSON value.
    Malformed,
}

/// What `serde_json::from_slice` says of the bytes when it reads them as any JSON value.
pub uninterp spec fn json_syntax(b: Seq<u8>) -> JsonVerdict;

/// `serde_json::from_slice` reads one JSON value, and nothing after it, from the bytes; its error
/// is of the category `Eof` where the bytes end too early.
#[verifier::external_body]
fn json_verdict(data: &[u8]) -> (verdict: JsonVerdict)
    ensures
        verdict == json_syntax(data@),
{
    match serde_json::from_slice::<serde_json::Value>(data) {
        Ok(_) => JsonVerdict::Complete,
        Err(error) => match error.classify() {
            serde_json::error::Category::Eof => JsonVerdict::Unfinished,
            serde_json::error::Category::Syntax => JsonVerdict::Malformed,
            serde_json::error::Category::Data => JsonVerdict::Malformed,
            serde_json::error::Category::Io => JsonVerdict::Malformed,
        },
    }
}

/// Whether bytes with this verdict can be JSON: the start of a longer whole may end early.
pub open spec fn is_plausible_json(verdict: JsonVerdict, truncated: bool) -> bool {
    verdict == JsonVerdict::Complete || truncated && verdict == JsonVerdict::Unfinished
}

fn plausible_json(verdict: JsonVerdict, truncated: bool) -> (yes: bool)
    ensures
        yes == is_plausible_json(verdict, truncated),
{
    verdict == JsonVerdict::Complete || (truncated && verdict == JsonVerdict::Unfinished)
}

// ---- file names and declarations ----

/// Whether files with this extension are shown as plain text.
pub open spec fn is_text_extension(ext: Seq<char>) -> bool {
    ||| ext == "txt"@
    ||| ext == "rs"@
    ||| ext == "py"@
    ||| ext == "js"@
    ||| ext == "ts"@
    ||| ext == "tsx"@
    ||| ext == "jsx"@
    ||| ext == "css"@
    ||| ext == "toml"@
    ||| ext == "yaml"@
    ||| ext == "yml"@
    ||| ext == "xml"@
    ||| ext == "sh"@
    ||| ext == "c"@
    ||| ext == "h"@
    ||| ext == "cpp"@
    ||| ext == "java"@
    ||| ext == "r"@
    ||| ext == "m"@
}

fn is_safe_text_extension(ext: &str) -> (yes: bool)
    ensures
        yes == is_text_extension(ext@),
{
    text::same_text(ext, "txt") || text::same_text(ext, "rs") || text::same_text(ext, "py") || text::same_text(ext, "js") || text::same_text(ext, "ts") || text::same_text(ext, "tsx") || text::same_text(ext, "jsx") || text::same_text(ext, "css") || text::same_text(ext, "toml") || text::same_text(ext, "yaml") || text::same_text(ext, "yml") || text::same_text(ext, "xml") || text::same_text(ext, "sh") || text::same_text(ext, "c") || text::same_text(ext, "h") || text::same_text(ext, "cpp") || text::same_text(ext, "java") || text::same_text(ext, "r") || text::same_text(ext, "m")
}

#[derive(Clone, Copy)]
struct FilenameExpectation {
    media_type: &'static str,
    specialized: bool,
}

/// The media type that an extension promises, and whether the bytes must bear it out.
pub open spec fn expectation(ext: Seq<char>) -> Option<(Seq<char>, bool)> {
    if ext == "png"@ {
        Some(("image/png"@, true))
    } else if ext == "jpg"@ || ext == "jpeg"@ {
        Some(("image/jpeg"@, true))
    } else if ext == "gif"@ {
        Some(("image/gif"@, true))
    } else if ext == "webp"@ {
        Some(("image/webp"@, true))
    } else if ext == "svg"@ {
        Some(("image/svg+xml"@, true))
    } else if ext == "pdf"@ {
        Some(("application/pdf"@, true))
    } else if ext == "mp4"@ {
        Some(("video/mp4"@, true))
    } else if ext == "m4a"@ || ext == "m4b"@ {
        Some(("audio/mp4"@, true))
    } else if ext == "webm"@ {
        Some(("video/webm"@, true))
    } else if ext == "mp3"@ {
        Some(("audio/mpeg"@, true))
    } else if ext == "wav"@ {
        Some(("audio/wav"@, true))
    } else if ext == "ogg"@ || ext == "oga"@ {
        Some(("audio/ogg"@, true))
    } else if ext == "flac"@ {
        Some(("audio/flac"@, true))
    } else if ext == "md"@ || ext == "markdown"@ {
        Some(("text/markdown; charset=utf-8"@, true))
    } else if ext == "json"@ {
        Some(("application/json"@, true))
    } else if ext == "csv"@ {
        Some(("text/csv; charset=utf-8"@, true))
    } else if ext == "html"@ || ext == "htm"@ {
        Some(("text/html; charset=utf-8"@, true))
    } else if is_text_extension(ext) {
        Some(("text/plain; charset=utf-8"@, false))
    } else {
        None
    }
}

fn filename_expectation(ext: &str) -> (result: Option<FilenameExpectation>)
    ensures
        match result {
            Some(value) => expectation(ext@) == Some((value.media_type@, value.specialized)),
            None => expectation(ext@) is None,
        },
{
    if text::same_text(ext, "png") {
        Some(FilenameExpectation { media_type: "image/png", specialized: true })
    } else if text::same_text(ext, "jpg") || text::same_text(ext, "jpeg") {
        Some(FilenameExpectation { media_type: "image/jpeg", specialized: true })
    } else if text::same_text(ext, "gif") {
        Some(FilenameExpectation { media_type: "image/gif", specialized: true })
    } else if text::same_text(ext, "webp") {
        Some(FilenameExpectation { media_type: "image/webp", specialized: true })
    } else if text::same_text(ext, "svg") {
        Some(FilenameExpectation { media_type: "image/svg+xml", specialized: true })
    } else if text::same_text(ext, "pdf") {
        Some(FilenameExpectation { media_type: "application/pdf", specialized: true })
    } else if text::same_text(ext, "mp4") {
        Some(FilenameExpectation { media_type: "video/mp4", specialized: true })
    } else if text::same_text(ext, "m4a") || text::same_text(ext, "m4b") {
        Some(FilenameExpectation { media_type: "audio/mp4", specialized: true })
    } else if text::same_text(ext, "webm") {
        Some(FilenameExpectation { media_type: "video/webm", specialized: true })
    } else if text::same_text(ext, "mp3") {
        Some(FilenameExpectation { media_type: "audio/mpeg", specialized: true })
    } else if text::same_text(ext, "wav") {
        Some(FilenameExpectation { media_type: "audio/wav", specialized: true })
    } else if text::same_text(ext, "ogg") || text::same_text(ext, "oga") {
        Some(FilenameExpectation { media_type: "audio/ogg", specialized: true })
    } else if text::same_text(ext, "flac") {
        Some(FilenameExpectation { media_type: "audio/flac", specialized: true })
    } else if text::same_text(ext, "md") || text::same_text(ext, "markdown") {
        Some(FilenameExpectation { media_type: "text/markdown; charset=utf-8", specialized: true })
    } else if text::same_text(ext, "json") {
        Some(FilenameExpectation { media_type: "application/json", specialized: true })
    } else if text::same_text(ext, "csv") {
        Some(FilenameExpectation { media_type: "text/csv; charset=utf-8", specialized: true })
    } else if text::same_text(ext, "html") || text::same_text(ext, "htm") {
        Some(FilenameExpectation { media_type: "text/html; charset=utf-8", specialized: true })
    } else if is_safe_text_extension(ext) {
        Some(FilenameExpectation { media_type: "text/plain; charset=utf-8", specialized: false })
    } else {
        None
    }
}

/// The classification that a declared media type stands for: a known type, in any case, with
/// white space around it.
pub open spec fn declared_class(value: Seq<char>) -> Option<(Seq<char>, ArtifactRenderer)> {
    let name = text::lowercase(text::trimmed(value));
    if name == "image/png"@ {
        Some(("image/png"@, ArtifactRenderer::Image))
    } else if name == "image/jpeg"@ {
        Some(("image/jpeg"@, ArtifactRenderer::Image))
    } else if name == "image/gif"@ {
        Some(("image/gif"@, ArtifactRenderer::Image))
    } else if name == "image/webp"@ {
        Some(("image/webp"@, ArtifactRenderer::Image))
    } else if name == "image/svg+xml"@ {
        Some(("image/svg+xml"@, ArtifactRenderer::Svg))
    } else if name == "application/pdf"@ {
        Some(("application/pdf"@, ArtifactRenderer::Pdf))
    } else if name == "video/mp4"@ {
        Some(("video/mp4"@, ArtifactRenderer::Video))
    } else if name == "video/webm"@ {
        Some(("video/webm"@, ArtifactRenderer::Video))
    } else if name == "audio/mp4"@ {
        Some(("audio/mp4"@, ArtifactRenderer::Audio))
    } else if name == "audio/mpeg"@ {
        Some(("audio/mpeg"@, ArtifactRenderer::Audio))
    } else if name == "audio/wav"@ {
        Some(("audio/wav"@, ArtifactRenderer::Audio))
    } else if name == "audio/ogg"@ {
        Some(("audio/ogg"@, ArtifactRenderer::Audio))
    } else if name == "audio/flac"@ {
        Some(("audio/flac"@, ArtifactRenderer::Audio))
    } else if name == "text/markdown"@ {
        Some(("text/markdown; charset=utf-8"@, ArtifactRenderer::Markdown))
    } else if name == "text/plain"@ {
        Some(("text/plain; charset=utf-8"@, ArtifactRenderer::Text))
    } else if name == "application/json"@ {
        Some(("application/json"@, ArtifactRenderer::Json))
    } else if name == "text/csv"@ {
        Some(("text/csv; charset=utf-8"@, ArtifactRenderer::Csv))
    } else if name == "text/html"@ {
        Some(("text/html; charset=utf-8"@, ArtifactRenderer::Html))
    } else {
        None
    }
}

/// Reads a declared media type.
pub fn normalize_declared(value: &str) -> (result: Result<FileClassification, StoreError>)
    ensures
        match result {
            Ok(class) => declared_class(value@) == Some(class@),
            Err(error) => declared_class(value@) is None && error
                == StoreError::ArtifactClassificationFailed,
        },
{
    let middle = text::trim(value);
    let name = text::to_lowercase(middle.as_str());
    if text::same_text(name.as_str(), "image/png") {
        Ok(c("image/png", ArtifactRenderer::Image))
    } else if text::same_text(name.as_str(), "image/jpeg") {
        Ok(c("image/jpeg", ArtifactRenderer::Image))
    } else if text::same_text(name.as_str(), "image/gif") {
        Ok(c("image/gif", ArtifactRenderer::Image))
    } else if text::same_text(name.as_str(), "image/webp") {
        Ok(c("image/webp", ArtifactRenderer::Image))
    } else if text::same_text(name.as_str(), "image/svg+xml") {
        Ok(c("image/svg+xml", ArtifactRenderer::Svg))
    } else if text::same_text(name.as_str(), "application/pdf") {
        Ok(c("application/pdf", ArtifactRenderer::Pdf))
    } else if text::same_text(name.as_str(), "video/mp4") {
        Ok(c("video/mp4", ArtifactRenderer::Video))
    } else if text::same_text(name.as_str(), "video/webm") {
        Ok(c("video/webm", ArtifactRenderer::Video))
    } else if text::same_text(name.as_str(), "audio/mp4") {
        Ok(c("audio/mp4", ArtifactRenderer::Audio))
    } else if text::same_text(name.as_str(), "audio/mpeg") {
        Ok(c("audio/mpeg", ArtifactRenderer::Audio))
    } else if text::same_text(name.as_str(), "audio/wav") {
        Ok(c("audio/wav", ArtifactRenderer::Audio))
    } else if text::same_text(name.as_str(), "audio/ogg") {
        Ok(c("audio/ogg", ArtifactRenderer::Audio))
    } else if text::same_text(name.as_str(), "audio/flac") {
        Ok(c("audio/flac", ArtifactRenderer::Audio))
    } else if text::same_text(name.as_str(), "text/markdown") {
        Ok(c("text/markdown; charset=utf-8", ArtifactRenderer::Markdown))
    } else if text::same_text(name.as_str(), "text/plain") {
        Ok(c("text/plain; charset=utf-8", ArtifactRenderer::Text))
    } else if text::same_text(name.as_str(), "application/json") {
        Ok(c("application/json", ArtifactRenderer::Json))
    } else if text::same_text(name.as_str(), "text/csv") {
        Ok(c("text/csv; charset=utf-8", ArtifactRenderer::Csv))
    } else if text::same_text(name.as_str(), "text/html") {
        Ok(c("text/html; charset=utf-8", ArtifactRenderer::Html))
    } else {
        Err(StoreError::ArtifactClassificationFailed)
    }
}

// ---- classification ----

/// The extension of a file name, in lower case.
pub open spec fn lower_extension(filename: Seq<char>) -> Option<Seq<char>> {
    match path::extension(filename) {
        Some(ext) => Some(text::lowercase(ext)),
        None => None,
    }
}

/// What an artifact without a known signature is, from its extension, its text and whether that
/// text can be JSON.
pub open spec fn class_by_name(
    ext: Option<Seq<char>>,
    document: Option<Seq<char>>,
    json: bool,
) -> (Seq<char>, ArtifactRenderer) {
    match (ext, document) {
        (Some(e), Some(value)) => {
            if e == "svg"@ && is_svg(value) {
                ("image/svg+xml"@, ArtifactRenderer::Svg)
            } else if e == "json"@ && json {
                ("application/json"@, ArtifactRenderer::Json)
            } else if e == "html"@ || e == "htm"@ {
                ("text/html; charset=utf-8"@, ArtifactRenderer::Html)
            } else if e == "md"@ || e == "markdown"@ {
                ("text/markdown; charset=utf-8"@, ArtifactRenderer::Markdown)
            } else if e == "csv"@ {
                ("text/csv; charset=utf-8"@, ArtifactRenderer::Csv)
            } else if is_text_extension(e) {
                ("text/plain; charset=utf-8"@, ArtifactRenderer::Text)
            } else {
                ("application/octet-stream"@, ArtifactRenderer::Download)
            }
        },
        (None, Some(_)) => ("text/plain; charset=utf-8"@, ArtifactRenderer::Text),
        _ => ("application/octet-stream"@, ArtifactRenderer::Download),
    }
}

/// The classification of a visible artifact; none where its bytes, its file name and its declared
/// media type contradict each other, or the declared one is unknown.
pub open spec fn visible_class(
    prefix: Seq<u8>,
    truncated: bool,
    filename: Seq<char>,
    declared: Option<Seq<char>>,
    verdict: JsonVerdict,
) -> Option<(Seq<char>, ArtifactRenderer)> {
    let ext = lower_extension(filename);
    let expected = match ext {
        Some(e) => expectation(e),
        None => None,
    };
    let wanted = match declared {
        Some(value) => declared_class(value),
        None => None,
    };
    if declared is Some && wanted is None {
        None
    } else {
        let (class, bound) = match signature(prefix) {
            Some(strong) => (strong, true),
            None => (
                class_by_name(
                    ext,
                    readable_text(prefix, truncated),
                    is_plausible_json(verdict, truncated),
                ),
                false,
            ),
        };
        if (expected matches Some((media_type, specialized)) && (bound || specialized)
            && media_type != class.0) || (wanted matches Some(other) && other.0 != class.0) {
            None
        } else {
            Some(class)
        }
    }
}

fn name_class(ext: &Option<String>, document: Option<&str>, json: bool) -> (class:
    FileClassification)
    ensures
        class@ == class_by_name(
            match ext {
                Some(value) => Some(value@),
                None => None,
            },
            match document {
                Some(value) => Some(value@),
                None => None,
            },
            json,
        ),
{
    match (ext, document) {
        (Some(value), Some(content)) => {
            let e = value.as_str();
            if text::same_text(e, "svg") && looks_svg(content) {
                c("image/svg+xml", ArtifactRenderer::Svg)
            } else if text::same_text(e, "json") && json {
                c("application/json", ArtifactRenderer::Json)
            } else if text::same_text(e, "html") || text::same_text(e, "htm") {
                c("text/html; charset=utf-8", ArtifactRenderer::Html)
            } else if text::same_text(e, "md") || text::same_text(e, "markdown") {
                c("text/markdown; charset=utf-8", ArtifactRenderer::Markdown)
            } else if text::same_text(e, "csv") {
                c("text/csv; charset=utf-8", ArtifactRenderer::Csv)
            } else if is_safe_text_extension(e) {
                c("text/plain; charset=utf-8", ArtifactRenderer::Text)
            } else {
                c("application/octet-stream", ArtifactRenderer::Download)
            }
        },
        (None, Some(_)) => c("text/plain; charset=utf-8", ArtifactRenderer::Text),
        _ => c("application/octet-stream", ArtifactRenderer::Download),
    }
}

/// Classifies a visible artifact, given what a JSON parser says of its text.
pub fn classify_visible(
    prefix: &[u8],
    truncated: bool,
    filename: &str,
    declared: Option<&str>,
    verdict: JsonVerdict,
) -> (result: Result<FileClassification, StoreError>)
    ensures
        match result {
            Ok(class) => visible_class(
                prefix@,
                truncated,
                filename@,
                match declared {
                    Some(value) => Some(value@),
                    None => None,
                },
                verdict,
            ) == Some(class@),
            Err(error) => visible_class(
                prefix@,
                truncated,
                filename@,
                match declared {
                    Some(value) => Some(value@),
                    None => None,
                },
                verdict,
            ) is None && error == StoreError::ArtifactClassificationFailed,
        },
{
    let ext = path::lowercase_extension(filename);
    let expected = match &ext {
        Some(value) => filename_expectation(value.as_str()),
        None => None,
    };
    let wanted = match declared {
        Some(value) => match normalize_declared(value) {
            Ok(class) => Some(class),
            Err(error) => {
                return Err(error);
            },
        },
        None => None,
    };
    let (class, bound) = match strong_signature(prefix) {
        Some(strong) => (strong, true),
        None => (
            name_class(
                &ext,
                bounded_utf8_text(prefix, truncated),
                plausible_json(verdict, truncated),
            ),
            false,
        ),
    };
    if let Some(value) = expected {
        if (bound || value.specialized) && !text::same_text(
            value.media_type,
            class.media_type.as_str(),
        ) {
            return Err(StoreError::ArtifactClassificationFailed);
        }
    }
    if let Some(other) = wanted {
        if !text::same_text(other.media_type.as_str(), class.media_type.as_str()) {
            return Err(StoreError::ArtifactClassificationFailed);
        }
    }
    Ok(class)
}

/// What a JSON parser says of the text that the bytes hold, where they hold text.
pub open spec fn verdict_on(prefix: Seq<u8>, truncated: bool) -> JsonVerdict {
    match readable_text(prefix, truncated) {
        Some(value) => json_syntax(encode_utf8(value)),
        None => JsonVerdict::Malformed,
    }
}

fn text_verdict(prefix: &[u8], truncated: bool) -> (verdict: JsonVerdict)
    ensures
        verdict == verdict_on(prefix@, truncated),
{
    match bounded_utf8_text(prefix, truncated) {
        Some(value) => json_verdict(value.as_bytes()),
        None => JsonVerdict::Malformed,
    }
}

/// Classifies a visible artifact from its first bytes, which are all of them unless `truncated`.
pub fn classify_visible_prefix(
    prefix: &[u8],
    truncated: bool,
    filename: &str,
    declared: Option<&str>,
) -> (result: Result<FileClassification, StoreError>)
    ensures
        match result {
            Ok(class) => visible_class(
                prefix@,
                truncated,
                filename@,
                match declared {
                    Some(value) => Some(value@),
                    None => None,
                },
                verdict_on(prefix@, truncated),
            ) == Some(class@),
            Err(error) => visible_class(
                prefix@,
                truncated,
                filename@,
                match declared {
                    Some(value) => Some(value@),
                    None => None,
                },
                verdict_on(prefix@, truncated),
            ) is None && error == StoreError::ArtifactClassificationFailed,
        },
{
    classify_visible(prefix, truncated, filename, declared, text_verdict(prefix, truncated))
}

/// The media type under which a support file is served, where it is known to be safe to serve.
pub open spec fn support_type(
    prefix: Seq<u8>,
    truncated: bool,
    filename: Seq<char>,
    verdict: JsonVerdict,
) -> Option<Seq<char>> {
    let ext = lower_extension(filename);
    let document = readable_text(prefix, truncated);
    match signature(prefix) {
        Some(strong) => {
            if ext matches Some(e) && expectation(e) matches Some((media_type, _)) && media_type
                != strong.0 {
                None
            } else {
                Some(strong.0)
            }
        },
        None => match ext {
            None => None,
            Some(e) => {
                if e == "css"@ && document is Some {
                    Some("text/css; charset=utf-8"@)
                } else if (e == "js"@ || e == "mjs"@ || e == "cjs"@) && document is Some {
                    Some("application/javascript; charset=utf-8"@)
                } else if e == "json"@ && document is Some && is_plausible_json(
                    verdict,
                    truncated,
                ) {
                    Some("application/json"@)
                } else if e == "svg"@ && (document matches Some(value) && is_svg(value)) {
                    Some("image/svg+xml"@)
                } else if e == "wasm"@ && bytes::has_prefix(
                    prefix,
                    seq![0x00u8, 0x61, 0x73, 0x6d, 0x01, 0x00, 0x00, 0x00],
                ) {
                    Some("application/wasm"@)
                } else if e == "woff"@ && bytes::has_prefix(prefix, encode_utf8("wOFF"@)) {
                    Some("font/woff"@)
                } else if e == "woff2"@ && bytes::has_prefix(prefix, encode_utf8("wOF2"@)) {
                    Some("font/woff2"@)
                } else if e == "ttf"@ && bytes::has_prefix(
                    prefix,
                    seq![0x00u8, 0x01, 0x00, 0x00],
                ) {
                    Some("font/ttf"@)
                } else if e == "otf"@ && bytes::has_prefix(prefix, encode_utf8("OTTO"@)) {
                    Some("font/otf"@)
                } else {
                    None
                }
            },
        },
    }
}

/// Classifies a support file, given what a JSON parser says of its text.
pub fn classify_support(
    prefix: &[u8],
    truncated: bool,
    filename: &str,
    verdict: JsonVerdict,
) -> (result: Option<String>)
    ensures
        match result {
            Some(value) => support_type(prefix@, truncated, filename@, verdict) == Some(value@),
            None => support_type(prefix@, truncated, filename@, verdict) is None,
        },
{
    let ext = path::lowercase_extension(filename);
    if let Some(strong) = strong_signature(prefix) {
        if let Some(value) = &ext {
            if let Some(expected) = filename_expectation(value.as_str()) {
                if !text::same_text(expected.media_type, strong.media_type.as_str()) {
                    return None;
                }
            }
        }
        return Some(strong.media_type);
    }
    let value = match ext {
        Some(value) => value,
        None => {
            return None;
        },
    };
    let e = value.as_str();
    let document = bounded_utf8_text(prefix, truncated);
    let wasm: &[u8] = &[0x00u8, 0x61, 0x73, 0x6d, 0x01, 0x00, 0x00, 0x00];
    let ttf: &[u8] = &[0x00u8, 0x01, 0x00, 0x00];
    assert(wasm@ =~= seq![0x00u8, 0x61, 0x73, 0x6d, 0x01, 0x00, 0x00, 0x00]);
    assert(ttf@ =~= seq![0x00u8, 0x01, 0x00, 0x00]);
    let svg = match document {
        Some(content) => text::same_text(e, "svg") && looks_svg(content),
        None => false,
    };
    if text::same_text(e, "css") && document.is_some() {
        Some(text::copy_of("text/css; charset=utf-8"))
    } else if (text::same_text(e, "js") || text::same_text(e, "mjs") || text::same_text(e, "cjs"))
        && document.is_some() {
        Some(text::copy_of("application/javascript; charset=utf-8"))
    } else if text::same_text(e, "json") && document.is_some() && plausible_json(
        verdict,
        truncated,
    ) {
        Some(text::copy_of("application/json"))
    } else if svg {
        Some(text::copy_of("image/svg+xml"))
    } else if text::same_text(e, "wasm") && bytes::starts_with(prefix, wasm) {
        Some(text::copy_of("application/wasm"))
    } else if text::same_text(e, "woff") && bytes::starts_with(prefix, "wOFF".as_bytes()) {
        Some(text::copy_of("font/woff"))
    } else if text::same_text(e, "woff2") && bytes::starts_with(prefix, "wOF2".as_bytes()) {
        Some(text::copy_of("font/woff2"))
    } else if text::same_text(e, "ttf") && bytes::starts_with(prefix, ttf) {
        Some(text::copy_of("font/ttf"))
    } else if text::same_text(e, "otf") && bytes::starts_with(prefix, "OTTO".as_bytes()) {
        Some(text::copy_of("font/otf"))
    } else {
        None
    }
}

/// Classifies a support file from its first bytes.
pub fn classify_support_prefix(prefix: &[u8], truncated: bool, filename: &str) -> (result: Option<
    String,
>)
    ensures
        match result {
            Some(value) => support_type(
                prefix@,
                truncated,
                filename@,
                verdict_on(prefix@, truncated),
            ) == Some(value@),
            None => support_type(
                prefix@,
                truncated,
                filename@,
                verdict_on(prefix@, truncated),
            ) is None,
        },
{
    classify_support(prefix, truncated, filename, text_verdict(prefix, truncated))
}

/// The media type under which a support file is served: a download where it is not known safe.
pub fn safe_support_media_type(prefix: &[u8], truncated: bool, filename: &str) -> (media_type:
    String)
    ensures
        media_type@ == match support_type(
            prefix@,
            truncated,
            filename@,
            verdict_on(prefix@, truncated),
        ) {
            Some(value) => value,
            None => "application/octet-stream"@,
        },
{
    match classify_support_prefix(prefix, truncated, filename) {
        Some(value) => value,
        None => text::copy_of("application/octet-stream"),
    }
}

/// An accepted artifact never contradicts what is known of it: its media type is the one of its
/// signature where it has one, the one it was declared with where it was, and the one that a
/// specialized extension promises.
pub proof fn law_accepted_artifacts_agree(
    prefix: Seq<u8>,
    truncated: bool,
    filename: Seq<char>,
    declared: Option<Seq<char>>,
    verdict: JsonVerdict,
)
    requires
        visible_class(prefix, truncated, filename, declared, verdict) is Some,
    ensures
        ({
            let class = visible_class(prefix, truncated, filename, declared, verdict)->0;
            &&& signature(prefix) matches Some(strong) ==> class == strong
            &&& declared matches Some(value) ==> (declared_class(value) matches Some(other)
                && other.0 == class.0)
            &&& lower_extension(filename) matches Some(e) ==> (expectation(e) matches Some(promise)
                ==> (promise.1 ==> promise.0 == class.0))
        }),
{
}

} // verus!
