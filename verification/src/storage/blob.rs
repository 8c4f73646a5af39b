//! Content-addressed blobs: their names, sizes, integrity and recovery.
use vstd::prelude::*;
use vstd::utf8::*;
use crate::digest;
use crate::digest::Sha256Stream;
use crate::hex;
use crate::number;
use crate::path;
use crate::random;
use crate::storage::error::StoreError;
use crate::text;

verus! {

/// A validated, canonical lowercase SHA-256 digest.
#[derive(Debug, PartialEq, Eq, Hash)]
pub struct BlobHash {
    digits: String,
}

/// Whether the text is a canonical SHA-256 digest: 64 lowercase hexadecimal characters.
pub open spec fn is_blob_hash(s: Seq<char>) -> bool {
    hex::is_lower_hex_text(s, 64)
}

/// A text that is no canonical SHA-256 digest.
#[derive(Debug, Clone, Copy, PartialEq, Eq)]
pub struct InvalidBlobHash;

impl InvalidBlobHash {
    /// What a canonical digest looks like.
    pub fn message(&self) -> (message: String)
        ensures
            message@ == "blob hash must be 64 lowercase hexadecimal SHA-256 characters"@,
    {
        text::copy_of("blob hash must be 64 lowercase hexadecimal SHA-256 characters")
    }
}

impl View for BlobHash {
    type V = Seq<char>;

    closed spec fn view(&self) -> Seq<char> {
        self.digits@
    }
}

impl Clone for BlobHash {
    fn clone(&self) -> (copy: Self)
        ensures
            copy == *self,
    {
        proof {
            use_type_invariant(self);
        }
        BlobHash { digits: self.digits.clone() }
    }
}

impl BlobHash {
    #[verifier::type_invariant]
    spec fn canonical(self) -> bool {
        is_blob_hash(self.digits@)
    }

    /// Reads a digest; only the canonical form is accepted.
    pub fn parse(value: &str) -> (result: Result<Self, InvalidBlobHash>)
        ensures
            result is Ok <==> is_blob_hash(value@),
            result matches Ok(hash) ==> hash@ == value@,
    {
        if hex::lower_hex_text(value, 64) {
            Ok(BlobHash { digits: text::copy_of(value) })
        } else {
            Err(InvalidBlobHash)
        }
    }

    /// The digest's characters.
    pub fn as_str(&self) -> (digits: &str)
        ensures
            digits@ == self@,
            is_blob_hash(digits@),
    {
        proof {
            use_type_invariant(self);
        }
        self.digits.as_str()
    }

    /// Whether two digests are the same.
    pub fn same(&self, other: &Self) -> (yes: bool)
        ensures
            yes == (self@ == other@),
    {
        text::same_text(self.digits.as_str(), other.digits.as_str())
    }
}

/// A blob that the store holds: its digest and its exact number of bytes.
#[derive(Debug, PartialEq, Eq)]
pub struct BlobRecord {
    hash: BlobHash,
    byte_size: u64,
}

impl View for BlobRecord {
    type V = (Seq<char>, u64);

    open spec fn view(&self) -> (Seq<char>, u64) {
        (self.digest()@, self.size())
    }
}

impl Clone for BlobRecord {
    fn clone(&self) -> (copy: Self)
        ensures
            copy == *self,
    {
        BlobRecord { hash: self.hash.clone(), byte_size: self.byte_size }
    }
}

impl BlobRecord {
    /// The digest, in contracts.
    pub closed spec fn digest(self) -> BlobHash {
        self.hash
    }

    /// The number of bytes, in contracts.
    pub closed spec fn size(self) -> u64 {
        self.byte_size
    }

    /// The record of a blob with the given digest and size.
    pub fn from_parts(hash: BlobHash, byte_size: u64) -> (record: Self)
        ensures
            record@ == (hash@, byte_size),
    {
        BlobRecord { hash, byte_size }
    }

    /// The digest.
    pub fn hash(&self) -> (hash: &BlobHash)
        ensures
            *hash == self.digest(),
            hash@ == self@.0,
    {
        &self.hash
    }

    /// The number of bytes.
    pub fn byte_size(&self) -> (byte_size: u64)
        ensures
            byte_size == self@.1,
    {
        self.byte_size
    }
}

/// How the files and the metadata of a blob disagree.
#[allow(inconsistent_fields)]
#[derive(Debug, PartialEq, Eq)]
pub enum BlobIntegrityError {
    Missing { hash: BlobHash },
    MissingMetadata { hash: BlobHash },
    SizeMismatch { hash: BlobHash, recorded: u64, actual: u64 },
    HashMismatch { expected: BlobHash, actual: BlobHash },
    NotAFile { hash: BlobHash },
}

/// The message of a disagreement.
pub open spec fn integrity_error_text(error: BlobIntegrityError) -> Seq<char> {
    match error {
        BlobIntegrityError::Missing { hash } => "recorded blob "@ + hash@ + " is missing"@,
        BlobIntegrityError::MissingMetadata { hash } => "blob "@ + hash@
            + " has no metadata record"@,
        BlobIntegrityError::SizeMismatch { hash, recorded, actual } => "blob "@ + hash@
            + " size disagrees with metadata: recorded "@ + number::decimal(recorded as nat)
            + ", actual "@ + number::decimal(actual as nat),
        BlobIntegrityError::HashMismatch { expected, actual } =>
            "blob content hash disagrees with its path: expected "@ + expected@ + ", actual "@
            + actual@,
        BlobIntegrityError::NotAFile { hash } => "blob "@ + hash@ + " is not a regular file"@,
    }
}

impl BlobIntegrityError {
    /// The message of this disagreement.
    pub fn message(&self) -> (message: String)
        ensures
            message@ == integrity_error_text(*self),
    {
        match self {
            BlobIntegrityError::Missing { hash } => {
                text::joined3("recorded blob ", hash.as_str(), " is missing")
            },
            BlobIntegrityError::MissingMetadata { hash } => {
                text::joined3("blob ", hash.as_str(), " has no metadata record")
            },
            BlobIntegrityError::SizeMismatch { hash, recorded, actual } => {
                let start = text::joined3(
                    "blob ",
                    hash.as_str(),
                    " size disagrees with metadata: recorded ",
                );
                let middle = text::joined3(
                    start.as_str(),
                    number::format_u64(*recorded).as_str(),
                    ", actual ",
                );
                text::joined(middle.as_str(), number::format_u64(*actual).as_str())
            },
            BlobIntegrityError::HashMismatch { expected, actual } => {
                let start = text::joined3(
                    "blob content hash disagrees with its path: expected ",
                    expected.as_str(),
                    ", actual ",
                );
                text::joined(start.as_str(), actual.as_str())
            },
            BlobIntegrityError::NotAFile { hash } => {
                text::joined3("blob ", hash.as_str(), " is not a regular file")
            },
        }
    }
}

/// Whether the failure says that the recorded and the actual size of a blob differ.
pub open spec fn is_size_mismatch(
    error: StoreError,
    hash: Seq<char>,
    recorded: u64,
    actual: u64,
) -> bool {
    error matches StoreError::Integrity(cause) && cause matches BlobIntegrityError::SizeMismatch {
        hash: found_hash,
        recorded: found_recorded,
        actual: found_actual,
    } && found_hash@ == hash && found_recorded == recorded && found_actual == actual
}

/// The failure that says that the recorded and the actual size of a blob differ.
pub fn size_mismatch(hash: &BlobHash, recorded: u64, actual: u64) -> (error: StoreError)
    ensures
        error == StoreError::Integrity(
            BlobIntegrityError::SizeMismatch { hash: *hash, recorded, actual },
        ),
        is_size_mismatch(error, hash@, recorded, actual),
{
    StoreError::Integrity(
        BlobIntegrityError::SizeMismatch { hash: hash.clone(), recorded, actual },
    )
}

/// Bytes on their way into the store: their digest so far and how many there are.
pub struct BlobStream {
    hasher: Sha256Stream,
    byte_size: u64,
}

impl View for BlobStream {
    type V = Seq<u8>;

    closed spec fn view(&self) -> Seq<u8> {
        digest::absorbed(self.hasher)
    }
}

impl BlobStream {
    #[verifier::type_invariant]
    spec fn counted(self) -> bool {
        self.byte_size == digest::absorbed(self.hasher).len()
    }

    /// A stream that holds nothing yet.
    pub fn start() -> (stream: Self)
        ensures
            stream@ == Seq::<u8>::empty(),
    {
        BlobStream { hasher: Sha256Stream::start(), byte_size: 0 }
    }

    /// Takes in the next piece, unless the whole would then be longer than `max_upload_bytes` or
    /// than a `u64` can count; then the stream is as it was.
    pub fn absorb(&mut self, piece: &[u8], max_upload_bytes: u64) -> (result: Result<
        (),
        StoreError,
    >)
        ensures
            match result {
                Ok(_) => {
                    &&& old(self)@.len() + piece@.len() <= max_upload_bytes
                    &&& final(self)@ == old(self)@ + piece@
                },
                Err(error) => {
                    &&& final(self)@ == old(self)@
                    &&& old(self)@.len() + piece@.len() > max_upload_bytes
                    &&& old(self)@.len() + piece@.len() <= u64::MAX ==> error
                        == (StoreError::UploadLimitExceeded {
                        limit: max_upload_bytes,
                        attempted: (old(self)@.len() + piece@.len()) as u64,
                    })
                    &&& old(self)@.len() + piece@.len() > u64::MAX ==> {
                        error matches StoreError::Io(cause) && cause@
                            == "blob byte count overflow"@
                    }
                },
            },
    {
        proof {
            use_type_invariant(&*self);
        }
        let attempted: u64 = match self.byte_size.checked_add(piece.len() as u64) {
            Some(total) => total,
            None => {
                return Err(StoreError::Io(text::copy_of("blob byte count overflow")));
            },
        };
        if attempted > max_upload_bytes {
            return Err(StoreError::UploadLimitExceeded { limit: max_upload_bytes, attempted });
        }
        let mut next = BlobStream::start();
        std::mem::swap(self, &mut next);
        let BlobStream { mut hasher, byte_size: _ } = next;
        hasher.feed(piece);
        *self = BlobStream { hasher, byte_size: attempted };
        Ok(())
    }

    /// The number of bytes taken in so far.
    pub fn byte_size(&self) -> (byte_size: u64)
        ensures
            byte_size == self@.len(),
    {
        proof {
            use_type_invariant(self);
        }
        self.byte_size
    }

    /// The record of the bytes taken in: their SHA-256 digest and their number.
    pub fn finish(self) -> (record: BlobRecord)
        ensures
            record@.0 == digest::sha256_hex(self@),
            record@.1 == self@.len(),
    {
        proof {
            use_type_invariant(&self);
        }
        let BlobStream { hasher, byte_size } = self;
        BlobRecord { hash: BlobHash { digits: hasher.finish() }, byte_size }
    }
}

/// Where a blob's file stands: `blobs/HH/HH/<sha256>` below the store root, with the digest's
/// first and second pair of digits as directories.
pub open spec fn blob_location(root: Seq<u8>, hash: Seq<char>) -> Seq<u8> {
    let blobs = path::below(root, encode_utf8("blobs"@));
    let first = path::below(blobs, encode_utf8(hash.subrange(0, 2)));
    let second = path::below(first, encode_utf8(hash.subrange(2, 4)));
    path::below(second, encode_utf8(hash))
}

/// The path of a blob's file below the store root.
pub fn blob_path(root: &[u8], hash: &BlobHash) -> (location: Vec<u8>)
    ensures
        location@ == blob_location(root@, hash@),
{
    let digits = text::chars_of(hash.as_str());
    let first = text::string_of(vstd::slice::slice_subrange(digits.as_slice(), 0, 2));
    let second = text::string_of(vstd::slice::slice_subrange(digits.as_slice(), 2, 4));
    let mut location = path::joined_path(root, "blobs");
    path::push_name(&mut location, first.as_str());
    path::push_name(&mut location, second.as_str());
    path::push_name(&mut location, hash.as_str());
    location
}

/// A random token for the names of staging files: 32 lowercase hexadecimal digits.
pub fn random_hex_token() -> (token: Result<String, StoreError>)
    ensures
        match token {
            Ok(value) => hex::is_lower_hex_text(value@, 32),
            Err(error) => error is Random,
        },
{
    match random::random_hex(16) {
        Ok(token) => Ok(token),
        Err(cause) => Err(StoreError::Random(cause)),
    }
}

/// A blob's size as the database's signed integer, where it fits.
pub fn sqlite_byte_size(byte_size: u64) -> (result: Result<i64, StoreError>)
    ensures
        match result {
            Ok(value) => value == byte_size,
            Err(error) => byte_size > i64::MAX && (error matches StoreError::Io(cause) && cause@
                == "blob exceeds SQLite's maximum byte count"@),
        },
{
    if byte_size <= 0x7fff_ffff_ffff_ffff {
        Ok(byte_size as i64)
    } else {
        Err(StoreError::Io(text::copy_of("blob exceeds SQLite's maximum byte count")))
    }
}

/// The record of a blob from the size that the database holds for it, if any.
pub fn recorded_blob(hash: &BlobHash, byte_size: Option<i64>) -> (result: Result<
    Option<BlobRecord>,
    StoreError,
>)
    ensures
        match result {
            Ok(None) => byte_size is None,
            Ok(Some(record)) => byte_size matches Some(size) && size >= 0 && record@ == (
                hash@,
                size as u64,
            ),
            Err(error) => byte_size matches Some(size) && size < 0 && is_size_mismatch(
                error,
                hash@,
                0,
                0,
            ),
        },
{
    match byte_size {
        None => Ok(None),
        Some(size) => {
            if size >= 0 {
                Ok(Some(BlobRecord::from_parts(hash.clone(), size as u64)))
            } else {
                Err(size_mismatch(hash, 0, 0))
            }
        },
    }
}

/// Checks a blob that is to be opened against what the database records of it.
pub fn check_recorded(blob: &BlobRecord, recorded: &Option<BlobRecord>) -> (result: Result<
    (),
    StoreError,
>)
    ensures
        match result {
            Ok(_) => recorded matches Some(record) && record@.1 == blob@.1,
            Err(error) => match recorded {
                None => error matches StoreError::Integrity(cause) && cause matches
                    BlobIntegrityError::MissingMetadata { hash } && hash@ == blob@.0,
                Some(record) => record@.1 != blob@.1 && is_size_mismatch(
                    error,
                    blob@.0,
                    record@.1,
                    blob@.1,
                ),
            },
        },
{
    match recorded {
        None => Err(
            StoreError::Integrity(BlobIntegrityError::MissingMetadata { hash: blob.hash().clone() }),
        ),
        Some(record) => {
            if record.byte_size() != blob.byte_size() {
                Err(size_mismatch(blob.hash(), record.byte_size(), blob.byte_size()))
            } else {
                Ok(())
            }
        },
    }
}

/// What stands at a blob's path.
#[derive(Debug, Clone, Copy, PartialEq, Eq, Structural)]
pub enum FileState {
    Missing,
    NotAFile,
    File { byte_size: u64 },
}

/// Checks what stands at a blob's path against its recorded size.
pub fn check_file(hash: &BlobHash, recorded: u64, state: FileState) -> (result: Result<
    (),
    StoreError,
>)
    ensures
        match result {
            Ok(_) => state == (FileState::File { byte_size: recorded }),
            Err(error) => match state {
                FileState::Missing => error matches StoreError::Integrity(cause) && cause matches
                    BlobIntegrityError::Missing { hash: missing } && missing@ == hash@,
                FileState::NotAFile => error matches StoreError::Integrity(cause) && cause matches
                    BlobIntegrityError::NotAFile { hash: found } && found@ == hash@,
                FileState::File { byte_size } => byte_size != recorded && is_size_mismatch(
                    error,
                    hash@,
                    recorded,
                    byte_size,
                ),
            },
        },
{
    match state {
        FileState::Missing => Err(
            StoreError::Integrity(BlobIntegrityError::Missing { hash: hash.clone() }),
        ),
        FileState::NotAFile => Err(
            StoreError::Integrity(BlobIntegrityError::NotAFile { hash: hash.clone() }),
        ),
        FileState::File { byte_size } => {
            if byte_size != recorded {
                Err(size_mismatch(hash, recorded, byte_size))
            } else {
                Ok(())
            }
        },
    }
}

/// Checks the digest of a file's bytes against the digest in its name.
pub fn check_contents(expected: &BlobHash, actual: &BlobHash) -> (result: Result<(), StoreError>)
    ensures
        match result {
            Ok(_) => expected@ == actual@,
            Err(error) => expected@ != actual@ && (error matches StoreError::Integrity(cause)
                && cause matches BlobIntegrityError::HashMismatch {
                expected: wanted,
                actual: found,
            } && wanted@ == expected@ && found@ == actual@),
        },
{
    if expected.same(actual) {
        Ok(())
    } else {
        Err(
            StoreError::Integrity(
                BlobIntegrityError::HashMismatch {
                    expected: expected.clone(),
                    actual: actual.clone(),
                },
            ),
        )
    }
}

/// Checks the size that the database holds after a blob's row was inserted or left as it was.
pub fn check_inserted(hash: &BlobHash, byte_size: u64, recorded: i64) -> (result: Result<
    BlobRecord,
    StoreError,
>)
    ensures
        match result {
            Ok(record) => recorded == byte_size && record@ == (hash@, byte_size),
            Err(error) => recorded != byte_size && is_size_mismatch(
                error,
                hash@,
                if recorded < 0 {
                    0
                } else {
                    recorded as u64
                },
                byte_size,
            ),
        },
{
    if recorded < 0 {
        return Err(size_mismatch(hash, 0, byte_size));
    }
    if recorded as u64 != byte_size {
        return Err(size_mismatch(hash, recorded as u64, byte_size));
    }
    Ok(BlobRecord::from_parts(hash.clone(), byte_size))
}

/// Whether the database holds exactly this size for a blob. A size that the database cannot hold
/// matches the absence of a row.
pub open spec fn records_size(recorded: Option<i64>, byte_size: u64) -> bool {
    match recorded {
        Some(size) => size == byte_size,
        None => byte_size > i64::MAX,
    }
}

/// Whether the database holds exactly this size for a blob.
pub fn blob_metadata_matches(recorded: Option<i64>, byte_size: u64) -> (yes: bool)
    ensures
        yes == records_size(recorded, byte_size),
{
    match recorded {
        Some(size) => size >= 0 && size as u64 == byte_size,
        None => byte_size > 0x7fff_ffff_ffff_ffff,
    }
}

/// Whether a failed finalization removes the file it linked: it does unless the transaction had
/// already ended with this blob accepted.
pub fn removes_installed_file(
    installed: bool,
    transaction_was_active: bool,
    metadata_matches: bool,
) -> (yes: bool)
    ensures
        yes == (installed && (transaction_was_active || !metadata_matches)),
{
    let accepted_after_commit = !transaction_was_active && metadata_matches;
    installed && !accepted_after_commit
}

/// The state of the lock beside a staging file.
#[derive(Debug, Clone, Copy, PartialEq, Eq, Structural)]
pub enum LockState {
    Absent,
    /// Nobody holds it: whoever staged the file is gone.
    Free,
    /// A writer holds it.
    Held,
}

/// What recovery does with a staging file.
#[derive(Debug, Clone, Copy, PartialEq, Eq, Structural)]
pub enum StagingAction {
    /// Another kind of file, or an active writer's: leave it.
    Leave,
    /// Remove this file alone.
    RemoveFile,
    /// Recover what the stage left behind, then remove the stage.
    Recover,
}

/// What recovery does with a file, by its extension, its lock and whether a data file stands
/// beside a lock file.
pub open spec fn staging(extension: Seq<char>, lock: LockState, has_part: bool) -> StagingAction {
    if extension == "part"@ {
        match lock {
            LockState::Absent => StagingAction::RemoveFile,
            LockState::Free => StagingAction::Recover,
            LockState::Held => StagingAction::Leave,
        }
    } else if extension == "lock"@ && !has_part && lock == LockState::Free {
        StagingAction::RemoveFile
    } else {
        StagingAction::Leave
    }
}

/// What recovery does with a file of the blob staging directory. Only `.part` files and lone
/// `.lock` files are touched, and never where a writer holds the lock.
pub fn staging_action(extension: &str, lock: LockState, has_part: bool) -> (action: StagingAction)
    ensures
        action == staging(extension@, lock, has_part),
{
    if text::same_text(extension, "part") {
        match lock {
            LockState::Absent => StagingAction::RemoveFile,
            LockState::Free => StagingAction::Recover,
            LockState::Held => StagingAction::Leave,
        }
    } else if text::same_text(extension, "lock") && !has_part {
        match lock {
            LockState::Free => StagingAction::RemoveFile,
            _ => StagingAction::Leave,
        }
    } else {
        StagingAction::Leave
    }
}

/// Two different blobs never share a path.
pub proof fn law_blob_paths_differ(root: Seq<u8>, one: Seq<char>, other: Seq<char>)
    requires
        is_blob_hash(one),
        is_blob_hash(other),
        blob_location(root, one) == blob_location(root, other),
    ensures
        one == other,
{
    let first = blob_location(root, one);
    assert(is_ascii_chars(one)) by {
        assert forall|i: int| 0 <= i < one.len() implies '\0' <= #[trigger] one[i] <= '\u{7f}' by {
            assert(hex::is_lower_hex(one[i]));
        }
    }
    assert(is_ascii_chars(other)) by {
        assert forall|i: int| 0 <= i < other.len() implies '\0' <= #[trigger] other[i] <= '\u{7f}' by {
            assert(hex::is_lower_hex(other[i]));
        }
    }
    is_ascii_chars_encode_utf8(one);
    is_ascii_chars_encode_utf8(other);
    let cut = first.len() - 64;
    assert(first.skip(cut) =~= encode_utf8(one));
    assert(blob_location(root, other).skip(cut) =~= encode_utf8(other));
    encode_utf8_decode_utf8(one);
    encode_utf8_decode_utf8(other);
}

} // verus!
