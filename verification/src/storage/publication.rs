//! Publications: what a request must hold, the blobs it brings, and the journal of its staging.
use vstd::prelude::*;
use crate::number;
use crate::storage::blob;
use crate::storage::blob::{BlobHash, BlobRecord, LockState};
use crate::storage::error::StoreError;
use crate::storage::read::GitProvenance;
use crate::text;

verus! {

/// One source of a publication, staged below the root of a store: its digest and its size.
#[derive(Debug, PartialEq, Eq)]
pub struct StagedPublicationBlob {
    pub root: Vec<u8>,
    pub record: BlobRecord,
}

#[derive(Debug, PartialEq, Eq)]
pub struct PublicationSupportAsset {
    pub relative_path: String,
    pub blob: StagedPublicationBlob,
}

#[derive(Debug, PartialEq, Eq)]
pub struct PublicationFile {
    pub filename: String,
    pub caption: Option<String>,
    pub blob: StagedPublicationBlob,
    pub support_assets: Vec<PublicationSupportAsset>,
}

#[derive(Debug, PartialEq, Eq)]
pub struct PublicationRequest {
    pub session_public_id: String,
    pub title: String,
    pub commentary: String,
    pub predecessor_post_id: Option<i64>,
    pub git: Option<GitProvenance>,
    pub files: Vec<PublicationFile>,
}

/// A post as the store knows it.
#[derive(Debug, PartialEq, Eq)]
pub struct PostRecord {
    pub id: i64,
    pub session_id: i64,
    pub session_public_id: String,
    pub predecessor_post_id: Option<i64>,
    pub published_at: i64,
}

// ---- what a request must hold ----

/// The failure of a staged source: it belongs to another store, or it is larger than an upload
/// may be.
pub open spec fn staged_fault(
    staged: StagedPublicationBlob,
    root: Seq<u8>,
    max_upload_bytes: u64,
) -> Option<StoreError> {
    if staged.root@ != root {
        Some(StoreError::PublicationStagingStoreMismatch)
    } else if staged.record@.1 > max_upload_bytes {
        Some(
            StoreError::UploadLimitExceeded {
                limit: max_upload_bytes,
                attempted: staged.record@.1,
            },
        )
    } else {
        None
    }
}

/// Whether the asset's path is that of an earlier asset of the same file.
pub open spec fn repeats_path(assets: Seq<PublicationSupportAsset>, i: int) -> bool {
    exists|j: int|
        0 <= j < i && (#[trigger] assets[j]).relative_path@ == assets[i].relative_path@
}

/// The first failure of a file's support assets from asset `i` on.
pub open spec fn assets_fault(
    assets: Seq<PublicationSupportAsset>,
    root: Seq<u8>,
    max_upload_bytes: u64,
    i: int,
) -> Option<StoreError>
    decreases assets.len() - i,
{
    if i < 0 || i >= assets.len() {
        None
    } else if staged_fault(assets[i].blob, root, max_upload_bytes) is Some {
        staged_fault(assets[i].blob, root, max_upload_bytes)
    } else if repeats_path(assets, i) {
        Some(StoreError::DuplicateSupportPath { relative_path: assets[i].relative_path })
    } else {
        assets_fault(assets, root, max_upload_bytes, i + 1)
    }
}

/// The first failure of the files from file `i` on.
pub open spec fn files_fault(
    files: Seq<PublicationFile>,
    root: Seq<u8>,
    max_upload_bytes: u64,
    i: int,
) -> Option<StoreError>
    decreases files.len() - i,
{
    if i < 0 || i >= files.len() {
        None
    } else if staged_fault(files[i].blob, root, max_upload_bytes) is Some {
        staged_fault(files[i].blob, root, max_upload_bytes)
    } else if assets_fault(files[i].support_assets@, root, max_upload_bytes, 0) is Some {
        assets_fault(files[i].support_assets@, root, max_upload_bytes, 0)
    } else {
        files_fault(files, root, max_upload_bytes, i + 1)
    }
}

/// The first failure of a request: a blank title, a blank commentary, no file, or a fault of one
/// of its files.
pub open spec fn request_fault(
    request: PublicationRequest,
    root: Seq<u8>,
    max_upload_bytes: u64,
) -> Option<StoreError> {
    if text::is_blank(request.title@) {
        Some(StoreError::BlankPublicationTitle)
    } else if text::is_blank(request.commentary@) {
        Some(StoreError::BlankPublicationCommentary)
    } else if request.files@.len() == 0 {
        Some(StoreError::PublicationRequiresFile)
    } else {
        files_fault(request.files@, root, max_upload_bytes, 0)
    }
}

fn validate_staged_blob(
    staged: &StagedPublicationBlob,
    root: &[u8],
    max_upload_bytes: u64,
) -> (result: Result<(), StoreError>)
    ensures
        match result {
            Ok(_) => staged_fault(*staged, root@, max_upload_bytes) is None,
            Err(error) => staged_fault(*staged, root@, max_upload_bytes) == Some(error),
        },
{
    if !text::same_bytes(&staged.root, root) {
        return Err(StoreError::PublicationStagingStoreMismatch);
    }
    if staged.record.byte_size() > max_upload_bytes {
        return Err(
            StoreError::UploadLimitExceeded {
                limit: max_upload_bytes,
                attempted: staged.record.byte_size(),
            },
        );
    }
    Ok(())
}

fn validate_assets(
    assets: &[PublicationSupportAsset],
    root: &[u8],
    max_upload_bytes: u64,
) -> (result: Result<(), StoreError>)
    ensures
        match result {
            Ok(_) => assets_fault(assets@, root@, max_upload_bytes, 0) is None,
            Err(error) => assets_fault(assets@, root@, max_upload_bytes, 0) == Some(error),
        },
{
    let mut i: usize = 0;
    while i < assets.len()
        invariant
            i <= assets.len(),
            assets_fault(assets@, root@, max_upload_bytes, 0) == assets_fault(
                assets@,
                root@,
                max_upload_bytes,
                i as int,
            ),
        decreases assets.len() - i,
    {
        match validate_staged_blob(&assets[i].blob, root, max_upload_bytes) {
            Ok(_) => {},
            Err(error) => {
                return Err(error);
            },
        }
        let mut j: usize = 0;
        while j < i
            invariant
                j <= i < assets.len(),
                assets_fault(assets@, root@, max_upload_bytes, 0) == assets_fault(
                    assets@,
                    root@,
                    max_upload_bytes,
                    i as int,
                ),
                staged_fault(assets@[i as int].blob, root@, max_upload_bytes) is None,
                forall|k: int|
                    0 <= k < j ==> (#[trigger] assets@[k]).relative_path@
                        != assets@[i as int].relative_path@,
            decreases i - j,
        {
            if text::same_text(assets[j].relative_path.as_str(), assets[i].relative_path.as_str()) {
                assert(repeats_path(assets@, i as int)) by {
                    assert(assets@[j as int].relative_path@ == assets@[i as int].relative_path@);
                }
                return Err(
                    StoreError::DuplicateSupportPath {
                        relative_path: assets[i].relative_path.clone(),
                    },
                );
            }
            j += 1;
        }
        assert(!repeats_path(assets@, i as int));
        i += 1;
    }
    Ok(())
}

/// Checks a request before anything is written: the first of its failures is returned.
pub fn validate_request(request: &PublicationRequest, root: &[u8], max_upload_bytes: u64) -> (result:
    Result<(), StoreError>)
    ensures
        match result {
            Ok(_) => request_fault(*request, root@, max_upload_bytes) is None,
            Err(error) => request_fault(*request, root@, max_upload_bytes) == Some(error),
        },
{
    if text::blank(request.title.as_str()) {
        return Err(StoreError::BlankPublicationTitle);
    }
    if text::blank(request.commentary.as_str()) {
        return Err(StoreError::BlankPublicationCommentary);
    }
    if request.files.len() == 0 {
        return Err(StoreError::PublicationRequiresFile);
    }
    let files = &request.files;
    let mut i: usize = 0;
    while i < files.len()
        invariant
            i <= files.len(),
            request_fault(*request, root@, max_upload_bytes) == files_fault(
                files@,
                root@,
                max_upload_bytes,
                i as int,
            ),
        decreases files.len() - i,
    {
        match validate_staged_blob(&files[i].blob, root, max_upload_bytes) {
            Ok(_) => {},
            Err(error) => {
                return Err(error);
            },
        }
        match validate_assets(&files[i].support_assets, root, max_upload_bytes) {
            Ok(_) => {},
            Err(error) => {
                return Err(error);
            },
        }
        i += 1;
    }
    Ok(())
}

/// The failure of a predecessor: it is not there, or it belongs to another session.
pub open spec fn predecessor_fault(
    predecessor: i64,
    predecessor_session: Option<i64>,
    session_id: i64,
) -> Option<StoreError> {
    match predecessor_session {
        None => Some(StoreError::PredecessorNotFound { post_id: predecessor }),
        Some(found) => if found != session_id {
            Some(StoreError::CrossSessionPredecessor { post_id: predecessor })
        } else {
            None
        },
    }
}

/// Checks a predecessor against the session that it was found in, if it was found.
pub fn validate_predecessor(
    predecessor: i64,
    predecessor_session: Option<i64>,
    session_id: i64,
) -> (result: Result<(), StoreError>)
    ensures
        match result {
            Ok(_) => predecessor_fault(predecessor, predecessor_session, session_id) is None,
            Err(error) => predecessor_fault(predecessor, predecessor_session, session_id) == Some(
                error,
            ),
        },
{
    match predecessor_session {
        None => Err(StoreError::PredecessorNotFound { post_id: predecessor }),
        Some(found) => {
            if found != session_id {
                Err(StoreError::CrossSessionPredecessor { post_id: predecessor })
            } else {
                Ok(())
            }
        },
    }
}

// ---- the blobs of a request ----

/// The blobs of support assets, in order.
pub open spec fn asset_blobs(assets: Seq<PublicationSupportAsset>) -> Seq<BlobRecord> {
    assets.map_values(|asset: PublicationSupportAsset| asset.blob.record)
}

/// The blobs of files, each followed by those of its support assets.
pub open spec fn file_blobs(files: Seq<PublicationFile>) -> Seq<BlobRecord>
    decreases files.len(),
{
    if files.len() == 0 {
        Seq::empty()
    } else {
        file_blobs(files.drop_last()).push(files.last().blob.record) + asset_blobs(
            files.last().support_assets@,
        )
    }
}

/// The blobs of a request in the order in which they occur, repetitions and all.
pub fn occurrences(request: &PublicationRequest) -> (blobs: Vec<BlobRecord>)
    ensures
        blobs@ == file_blobs(request.files@),
{
    let mut blobs: Vec<BlobRecord> = Vec::new();
    let files = &request.files;
    let mut i: usize = 0;
    while i < files.len()
        invariant
            i <= files.len(),
            blobs@ == file_blobs(files@.take(i as int)),
        decreases files.len() - i,
    {
        let assets = &files[i].support_assets;
        blobs.push(files[i].blob.record.clone());
        let ghost start = blobs@;
        let mut j: usize = 0;
        while j < assets.len()
            invariant
                j <= assets.len(),
                blobs@ == start + asset_blobs(assets@.take(j as int)),
            decreases assets.len() - j,
        {
            blobs.push(assets[j].blob.record.clone());
            proof {
                assert(asset_blobs(assets@.take(j + 1)) =~= asset_blobs(
                    assets@.take(j as int),
                ).push(assets@[j as int].blob.record));
                assert(blobs@ =~= start + asset_blobs(assets@.take(j + 1)));
            }
            j += 1;
        }
        proof {
            assert(assets@.take(assets@.len() as int) =~= assets@);
            assert(files@.take(i + 1).drop_last() =~= files@.take(i as int));
            assert(files@.take(i + 1).last() == files@[i as int]);
        }
        i += 1;
    }
    assert(files@.take(files@.len() as int) =~= files@);
    blobs
}

/// The position of the first blob with the given digest.
pub open spec fn position_of(blobs: Seq<BlobRecord>, digest: Seq<char>) -> Option<int>
    decreases blobs.len(),
{
    if blobs.len() == 0 {
        None
    } else if position_of(blobs.drop_last(), digest) is Some {
        position_of(blobs.drop_last(), digest)
    } else if blobs.last()@.0 == digest {
        Some(blobs.len() - 1)
    } else {
        None
    }
}

/// Each blob once, at its first occurrence; none of it where one digest occurs with two sizes.
pub open spec fn distinct(blobs: Seq<BlobRecord>) -> Option<Seq<BlobRecord>>
    decreases blobs.len(),
{
    if blobs.len() == 0 {
        Some(Seq::empty())
    } else {
        match distinct(blobs.drop_last()) {
            None => None,
            Some(before) => match position_of(before, blobs.last()@.0) {
                None => Some(before.push(blobs.last())),
                Some(i) => if before[i]@.1 == blobs.last()@.1 {
                    Some(before)
                } else {
                    None
                },
            },
        }
    }
}

/// The failure of the first blob whose digest occurred before with another size.
pub open spec fn clash(blobs: Seq<BlobRecord>) -> Option<StoreError>
    decreases blobs.len(),
{
    if blobs.len() == 0 {
        None
    } else if clash(blobs.drop_last()) is Some {
        clash(blobs.drop_last())
    } else {
        match distinct(blobs.drop_last()) {
            None => None,
            Some(before) => match position_of(before, blobs.last()@.0) {
                Some(i) => if before[i]@.1 != blobs.last()@.1 {
                    Some(
                        StoreError::Integrity(
                            blob::BlobIntegrityError::SizeMismatch {
                                hash: blobs.last().digest(),
                                recorded: before[i]@.1,
                                actual: blobs.last()@.1,
                            },
                        ),
                    )
                } else {
                    None
                },
                None => None,
            },
        }
    }
}

/// There is a failure exactly where the blobs cannot be made distinct.
pub proof fn lemma_clash(blobs: Seq<BlobRecord>)
    ensures
        clash(blobs) is Some <==> distinct(blobs) is None,
    decreases blobs.len(),
{
    if blobs.len() > 0 {
        lemma_clash(blobs.drop_last());
    }
}

proof fn lemma_clash_stays(blobs: Seq<BlobRecord>, i: int)
    requires
        0 <= i <= blobs.len(),
        clash(blobs.take(i)) is Some,
    ensures
        clash(blobs) == clash(blobs.take(i)),
    decreases blobs.len(),
{
    if i == blobs.len() {
        assert(blobs.take(i) =~= blobs);
    } else {
        assert(blobs.drop_last().take(i) =~= blobs.take(i));
        lemma_clash_stays(blobs.drop_last(), i);
    }
}

fn find_blob(blobs: &[BlobRecord], hash: &BlobHash) -> (position: Option<usize>)
    ensures
        match position {
            Some(i) => position_of(blobs@, hash@) == Some(i as int) && i < blobs.len(),
            None => position_of(blobs@, hash@) is None,
        },
{
    let mut i: usize = 0;
    while i < blobs.len()
        invariant
            i <= blobs.len(),
            position_of(blobs@.take(i as int), hash@) is None,
        decreases blobs.len() - i,
    {
        assert(blobs@.take(i + 1).drop_last() =~= blobs@.take(i as int));
        if blobs[i].hash().same(hash) {
            proof {
                lemma_position_stays(blobs@, hash@, i + 1);
            }
            return Some(i);
        }
        i += 1;
    }
    assert(blobs@.take(blobs@.len() as int) =~= blobs@);
    None
}

proof fn lemma_position_stays(blobs: Seq<BlobRecord>, digest: Seq<char>, i: int)
    requires
        0 <= i <= blobs.len(),
        position_of(blobs.take(i), digest) is Some,
    ensures
        position_of(blobs, digest) == position_of(blobs.take(i), digest),
    decreases blobs.len(),
{
    if i == blobs.len() {
        assert(blobs.take(i) =~= blobs);
    } else {
        assert(blobs.drop_last().take(i) =~= blobs.take(i));
        lemma_position_stays(blobs.drop_last(), digest, i);
    }
}

/// Each blob of the list once. One digest with two sizes is an error.
pub fn unique_blobs(blobs: &[BlobRecord]) -> (result: Result<Vec<BlobRecord>, StoreError>)
    ensures
        match result {
            Ok(unique) => distinct(blobs@) == Some(unique@),
            Err(error) => clash(blobs@) == Some(error),
        },
{
    let mut unique: Vec<BlobRecord> = Vec::new();
    let mut i: usize = 0;
    while i < blobs.len()
        invariant
            i <= blobs.len(),
            distinct(blobs@.take(i as int)) == Some(unique@),
        decreases blobs.len() - i,
    {
        proof {
            assert(blobs@.take(i + 1).drop_last() =~= blobs@.take(i as int));
            lemma_clash(blobs@.take(i as int));
        }
        match find_blob(&unique, blobs[i].hash()) {
            Some(k) => {
                let recorded: u64 = unique[k].byte_size();
                if recorded != blobs[i].byte_size() {
                    proof {
                        lemma_clash_stays(blobs@, i + 1);
                    }
                    return Err(
                        blob::size_mismatch(blobs[i].hash(), recorded, blobs[i].byte_size()),
                    );
                }
            },
            None => {
                unique.push(blobs[i].clone());
            },
        }
        i += 1;
    }
    assert(blobs@.take(blobs@.len() as int) =~= blobs@);
    Ok(unique)
}

/// A digest is charged once: after a request's blobs were made distinct, no digest occurs twice.
pub proof fn law_blobs_are_distinct(blobs: Seq<BlobRecord>)
    requires
        distinct(blobs) is Some,
    ensures
        forall|i: int, j: int|
            0 <= i < j < distinct(blobs)->0.len() ==> (#[trigger] (distinct(blobs)->0)[i])@.0 != (
            #[trigger] (distinct(blobs)->0)[j])@.0,
    decreases blobs.len(),
{
    if blobs.len() > 0 {
        law_blobs_are_distinct(blobs.drop_last());
        let before = distinct(blobs.drop_last())->0;
        if position_of(before, blobs.last()@.0) is None {
            let whole = before.push(blobs.last());
            assert forall|i: int, j: int| 0 <= i < j < whole.len() implies (#[trigger] whole[i])@.0
                != (#[trigger] whole[j])@.0 by {
                if j < before.len() {
                    assert(before[i]@.0 != before[j]@.0);
                } else {
                    lemma_position_none(before, blobs.last()@.0, i);
                }
            }
        }
    }
}

proof fn lemma_position_none(blobs: Seq<BlobRecord>, digest: Seq<char>, i: int)
    requires
        position_of(blobs, digest) is None,
        0 <= i < blobs.len(),
    ensures
        blobs[i]@.0 != digest,
    decreases blobs.len(),
{
    if i < blobs.len() - 1 {
        lemma_position_none(blobs.drop_last(), digest, i);
    }
}

// ---- the staging journal ----

/// Whether a staged source is only staged, or on its way to its final place.
#[derive(Debug, Clone, Copy, PartialEq, Eq, Structural)]
pub enum JournalState {
    Staged,
    Finalizing,
}

/// The word for a journal state.
pub open spec fn journal_word(state: JournalState) -> Seq<char> {
    match state {
        JournalState::Staged => "staged"@,
        JournalState::Finalizing => "finalizing"@,
    }
}

/// The line of a journal: the state, the digest and the size.
pub open spec fn journal_text(state: JournalState, hash: Seq<char>, byte_size: u64) -> Seq<char> {
    journal_word(state) + " "@ + hash + " "@ + number::decimal(byte_size as nat) + "\n"@
}

/// Writes the line of a journal.
pub fn journal_line(state: JournalState, record: &BlobRecord) -> (line: String)
    ensures
        line@ == journal_text(state, record@.0, record@.1),
{
    let word = match state {
        JournalState::Staged => "staged",
        JournalState::Finalizing => "finalizing",
    };
    let mut line = text::joined3(word, " ", record.hash().as_str());
    line.append(" ");
    line.append(number::format_u64(record.byte_size()).as_str());
    line.append("\n");
    line
}

/// The number of characters before the first white space.
pub open spec fn word_len(s: Seq<char>) -> nat
    decreases s.len(),
{
    if s.len() == 0 || text::is_white_space(s[0]) {
        0
    } else {
        1 + word_len(s.drop_first())
    }
}

/// The first word of the text.
pub open spec fn first_word(s: Seq<char>) -> Seq<char> {
    text::trimmed_start(s).take(word_len(text::trimmed_start(s)) as int)
}

/// The text after its first word.
pub open spec fn after_word(s: Seq<char>) -> Seq<char> {
    text::trimmed_start(s).skip(word_len(text::trimmed_start(s)) as int)
}

fn word_length(chars: &[char]) -> (len: usize)
    ensures
        len == word_len(chars@),
        len <= chars.len(),
{
    let mut i: usize = 0;
    assert(chars@.skip(0) =~= chars@);
    while i < chars.len() && !text::white_space(chars[i])
        invariant
            i <= chars.len(),
            word_len(chars@) == i + word_len(chars@.skip(i as int)),
        decreases chars.len() - i,
    {
        assert(chars@.skip(i as int).drop_first() =~= chars@.skip(i + 1));
        i += 1;
    }
    i
}

/// Cuts the first word off the text.
pub fn take_word(chars: &[char]) -> (result: (Vec<char>, Vec<char>))
    ensures
        result.0@ == first_word(chars@),
        result.1@ == after_word(chars@),
{
    let start = text::trim_start(chars);
    let len: usize = word_length(&start);
    let word = vstd::slice::slice_to_vec(vstd::slice::slice_subrange(start.as_slice(), 0, len));
    let rest = vstd::slice::slice_to_vec(
        vstd::slice::slice_subrange(start.as_slice(), len, start.len()),
    );
    assert(word@ =~= first_word(chars@));
    assert(rest@ =~= after_word(chars@));
    (word, rest)
}

/// What a journal says: whether its source was on its way to its final place, and the digest.
#[derive(Debug)]
pub struct JournalEntry {
    pub finalizing: bool,
    pub hash: BlobHash,
}

/// Reads a journal: its first word is the state and its second the digest.
pub fn read_journal(journal: &str) -> (result: Result<JournalEntry, StoreError>)
    ensures
        match result {
            Ok(entry) => {
                &&& blob::is_blob_hash(first_word(after_word(journal@)))
                &&& entry.hash@ == first_word(after_word(journal@))
                &&& entry.finalizing == (first_word(journal@) == "finalizing"@)
            },
            Err(error) => {
                &&& !blob::is_blob_hash(first_word(after_word(journal@)))
                &&& error matches StoreError::Io(cause)
                &&& cause@ == (if first_word(after_word(journal@)).len() == 0 {
                    "invalid publication journal"@
                } else {
                    "blob hash must be 64 lowercase hexadecimal SHA-256 characters"@
                })
            },
        },
{
    let chars = text::chars_of(journal);
    let (state, rest) = take_word(&chars);
    let (digest, _) = take_word(&rest);
    if digest.len() == 0 {
        return Err(StoreError::Io(text::copy_of("invalid publication journal")));
    }
    let finalizing = text::same_text(text::string_of(&state).as_str(), "finalizing");
    match BlobHash::parse(text::string_of(&digest).as_str()) {
        Ok(hash) => Ok(JournalEntry { finalizing, hash }),
        Err(invalid) => Err(StoreError::Io(invalid.message())),
    }
}

proof fn lemma_word_then_space(word: Seq<char>, rest: Seq<char>)
    requires
        word.len() > 0,
        forall|i: int| 0 <= i < word.len() ==> !text::is_white_space(#[trigger] word[i]),
        rest.len() > 0,
        text::is_white_space(rest[0]),
    ensures
        first_word(word + rest) == word,
        after_word(word + rest) == rest,
{
    let whole = word + rest;
    assert(whole[0] == word[0]);
    assert(text::trimmed_start(whole) == whole);
    lemma_word_len(word, rest);
    assert(whole.take(word.len() as int) =~= word);
    assert(whole.skip(word.len() as int) =~= rest);
}

proof fn lemma_word_len(word: Seq<char>, rest: Seq<char>)
    requires
        forall|i: int| 0 <= i < word.len() ==> !text::is_white_space(#[trigger] word[i]),
        rest.len() > 0,
        text::is_white_space(rest[0]),
    ensures
        word_len(word + rest) == word.len(),
    decreases word.len(),
{
    if word.len() == 0 {
        assert(word + rest =~= rest);
    } else {
        let tail = word.drop_first();
        assert forall|i: int| 0 <= i < tail.len() implies !text::is_white_space(
            #[trigger] tail[i],
        ) by {
            assert(tail[i] == word[i + 1]);
        }
        lemma_word_len(tail, rest);
        assert((word + rest).drop_first() =~= tail + rest);
        assert((word + rest)[0] == word[0]);
    }
}

/// A journal that was written is read back with the same state and digest.
pub proof fn law_journal_reads_back(state: JournalState, hash: Seq<char>, byte_size: u64)
    requires
        blob::is_blob_hash(hash),
    ensures
        ({
            let line = journal_text(state, hash, byte_size);
            &&& first_word(line) == journal_word(state)
            &&& first_word(after_word(line)) == hash
            &&& (first_word(line) == "finalizing"@) == (state == JournalState::Finalizing)
        }),
{
    reveal_strlit("staged");
    reveal_strlit("finalizing");
    reveal_strlit(" ");
    reveal_strlit("\n");
    let word = journal_word(state);
    let end = " "@ + number::decimal(byte_size as nat) + "\n"@;
    let rest = " "@ + hash + end;
    let line = journal_text(state, hash, byte_size);
    assert(line =~= word + rest);
    assert(end[0] == ' ');
    assert(rest[0] == ' ');
    assert forall|i: int| 0 <= i < word.len() implies !text::is_white_space(#[trigger] word[i]) by {
        assert(word[i] >= 'a');
    }
    lemma_word_then_space(word, rest);
    assert(after_word(line) == rest);
    assert(rest.drop_first() =~= hash + end);
    assert forall|i: int| 0 <= i < hash.len() implies !text::is_white_space(#[trigger] hash[i]) by {
        assert(crate::hex::is_lower_hex(hash[i]));
    }
    lemma_word_then_space(hash, end);
    let tail = hash + end;
    assert(tail[0] == hash[0]);
    assert(text::trimmed_start(tail) == tail);
    assert(text::trimmed_start(rest) == text::trimmed_start(rest.drop_first()));
    assert(first_word(rest) == first_word(tail));
    assert("staged"@.len() != "finalizing"@.len());
}

// ---- recovery of abandoned staging ----

/// What is looked for on a walk over the staging directory.
#[derive(Debug, Clone, Copy, PartialEq, Eq, Structural)]
pub enum RecoveryPass {
    Journals,
    Data,
    Locks,
}

/// What recovery does with a file of the staging directory.
#[derive(Debug, Clone, Copy, PartialEq, Eq, Structural)]
pub enum RecoveryAction {
    /// Leave it.
    Leave,
    /// Read the journal, undo what it says was under way, and remove the whole stage.
    ReadJournal,
    /// Remove the whole stage: data, next journal, journal and lock.
    RemoveStage,
    /// Remove the data file alone.
    RemoveData,
    /// Remove the data file, the next journal and the lock.
    RemoveAbandoned,
    /// Remove the lock file alone.
    RemoveLock,
}

/// What recovery does with a file, by its extension, what stands beside it, and its lock.
pub open spec fn recovery(
    pass: RecoveryPass,
    extension: Seq<char>,
    has_data: bool,
    has_journal: bool,
    lock: LockState,
) -> RecoveryAction {
    if lock == LockState::Held {
        RecoveryAction::Leave
    } else {
        match pass {
            RecoveryPass::Journals => if extension != "journal"@ {
                RecoveryAction::Leave
            } else if lock == LockState::Absent {
                RecoveryAction::RemoveStage
            } else {
                RecoveryAction::ReadJournal
            },
            RecoveryPass::Data => if extension != "part"@ || has_journal {
                RecoveryAction::Leave
            } else if lock == LockState::Absent {
                RecoveryAction::RemoveData
            } else {
                RecoveryAction::RemoveAbandoned
            },
            RecoveryPass::Locks => if extension != "lock"@ || has_data || has_journal {
                RecoveryAction::Leave
            } else if lock == LockState::Absent {
                RecoveryAction::Leave
            } else {
                RecoveryAction::RemoveLock
            },
        }
    }
}

/// What recovery does with a file of the staging directory. A writer's files are never touched.
pub fn recovery_action(
    pass: RecoveryPass,
    extension: &str,
    has_data: bool,
    has_journal: bool,
    lock: LockState,
) -> (action: RecoveryAction)
    ensures
        action == recovery(pass, extension@, has_data, has_journal, lock),
{
    match lock {
        LockState::Held => RecoveryAction::Leave,
        LockState::Absent => match pass {
            RecoveryPass::Journals => {
                if text::same_text(extension, "journal") {
                    RecoveryAction::RemoveStage
                } else {
                    RecoveryAction::Leave
                }
            },
            RecoveryPass::Data => {
                if text::same_text(extension, "part") && !has_journal {
                    RecoveryAction::RemoveData
                } else {
                    RecoveryAction::Leave
                }
            },
            RecoveryPass::Locks => RecoveryAction::Leave,
        },
        LockState::Free => match pass {
            RecoveryPass::Journals => {
                if text::same_text(extension, "journal") {
                    RecoveryAction::ReadJournal
                } else {
                    RecoveryAction::Leave
                }
            },
            RecoveryPass::Data => {
                if text::same_text(extension, "part") && !has_journal {
                    RecoveryAction::RemoveAbandoned
                } else {
                    RecoveryAction::Leave
                }
            },
            RecoveryPass::Locks => {
                if text::same_text(extension, "lock") && !has_data && !has_journal {
                    RecoveryAction::RemoveLock
                } else {
                    RecoveryAction::Leave
                }
            },
        },
    }
}

/// The extensions of the files that an action removes, in the order of removal.
pub fn removed_extensions(action: RecoveryAction) -> (extensions: Vec<&'static str>)
    ensures
        extensions@ == match action {
            RecoveryAction::Leave => Seq::<&'static str>::empty(),
            RecoveryAction::ReadJournal => seq!["part", "next", "journal", "lock"],
            RecoveryAction::RemoveStage => seq!["part", "next", "journal", "lock"],
            RecoveryAction::RemoveData => seq!["part"],
            RecoveryAction::RemoveAbandoned => seq!["part", "next", "lock"],
            RecoveryAction::RemoveLock => seq!["lock"],
        },
{
    let mut extensions: Vec<&'static str> = Vec::new();
    match action {
        RecoveryAction::Leave => {},
        RecoveryAction::ReadJournal => {
            extensions.push("part");
            extensions.push("next");
            extensions.push("journal");
            extensions.push("lock");
        },
        RecoveryAction::RemoveStage => {
            extensions.push("part");
            extensions.push("next");
            extensions.push("journal");
            extensions.push("lock");
        },
        RecoveryAction::RemoveData => {
            extensions.push("part");
        },
        RecoveryAction::RemoveAbandoned => {
            extensions.push("part");
            extensions.push("next");
            extensions.push("lock");
        },
        RecoveryAction::RemoveLock => {
            extensions.push("lock");
        },
    }
    extensions
}

/// Whether recovery removes the final file of a journal's blob: the publication was linking it,
/// and the database does not know the blob, so the publication never committed.
pub fn removes_final_file(entry: &JournalEntry, recorded: bool) -> (yes: bool)
    ensures
        yes == (entry.finalizing && !recorded),
{
    entry.finalizing && !recorded
}

/// Whatever a writer holds the lock of is left alone by the recovery of both staging directories.
pub proof fn law_active_stages_are_left_alone(
    pass: RecoveryPass,
    extension: Seq<char>,
    has_data: bool,
    has_journal: bool,
)
    ensures
        recovery(pass, extension, has_data, has_journal, LockState::Held) == RecoveryAction::Leave,
        crate::storage::blob::staging(extension, LockState::Held, has_data)
            == crate::storage::blob::StagingAction::Leave,
{
}

} // verus!
