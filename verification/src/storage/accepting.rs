//! Which publications the store takes, what its journal says, and what recovery does with what was
//! left behind.
use vstd::prelude::*;
use crate::number;
use crate::storage::blob::LockState;
use crate::storage::error::StoreError;
use crate::storage::publication;
use crate::storage::publication::{
    JournalState,
    PublicationFile,
    PublicationRequest,
    PublicationSupportAsset,
    RecoveryAction,
    RecoveryPass,
    StagedPublicationBlob,
};
use crate::text;

verus! {

/// Whether a staged source is this store's own and not larger than an upload may be.
pub open spec fn is_taken(staged: StagedPublicationBlob, root: Seq<u8>, max_upload_bytes: u64) -> bool {
    staged.root@ == root && staged.record@.1 <= max_upload_bytes
}

/// Whether the assets of a file are all taken, each under a path of its own.
pub open spec fn assets_are_taken(
    assets: Seq<PublicationSupportAsset>,
    root: Seq<u8>,
    max_upload_bytes: u64,
) -> bool {
    &&& forall|i: int|
        0 <= i < assets.len() ==> is_taken((#[trigger] assets[i]).blob, root, max_upload_bytes)
    &&& forall|i: int, j: int|
        0 <= i < j < assets.len() ==> (#[trigger] assets[i]).relative_path@ != (
        #[trigger] assets[j]).relative_path@
}

/// Whether a file and its assets are taken.
pub open spec fn file_is_taken(file: PublicationFile, root: Seq<u8>, max_upload_bytes: u64) -> bool {
    is_taken(file.blob, root, max_upload_bytes) && assets_are_taken(
        file.support_assets@,
        root,
        max_upload_bytes,
    )
}

proof fn lemma_assets(
    assets: Seq<PublicationSupportAsset>,
    root: Seq<u8>,
    max_upload_bytes: u64,
    i: int,
)
    requires
        0 <= i <= assets.len(),
        forall|k: int|
            0 <= k < i ==> is_taken((#[trigger] assets[k]).blob, root, max_upload_bytes),
        forall|j: int, k: int|
            0 <= j < k < i ==> (#[trigger] assets[j]).relative_path@ != (
            #[trigger] assets[k]).relative_path@,
    ensures
        publication::assets_fault(assets, root, max_upload_bytes, i) is None <==> assets_are_taken(
            assets,
            root,
            max_upload_bytes,
        ),
    decreases assets.len() - i,
{
    if i < assets.len() {
        if publication::staged_fault(assets[i].blob, root, max_upload_bytes) is None
            && !publication::repeats_path(assets, i) {
            lemma_assets(assets, root, max_upload_bytes, i + 1);
        } else if publication::staged_fault(assets[i].blob, root, max_upload_bytes) is Some {
            assert(!is_taken(assets[i].blob, root, max_upload_bytes));
        } else {
            let j = choose|j: int|
                0 <= j < i && (#[trigger] assets[j]).relative_path@ == assets[i].relative_path@;
            assert(assets[j].relative_path@ == assets[i].relative_path@);
        }
    }
}

proof fn lemma_files(
    files: Seq<PublicationFile>,
    root: Seq<u8>,
    max_upload_bytes: u64,
    i: int,
)
    requires
        0 <= i <= files.len(),
        forall|k: int| 0 <= k < i ==> file_is_taken(#[trigger] files[k], root, max_upload_bytes),
    ensures
        publication::files_fault(files, root, max_upload_bytes, i) is None <==> forall|k: int|
            0 <= k < files.len() ==> file_is_taken(#[trigger] files[k], root, max_upload_bytes),
    decreases files.len() - i,
{
    if i < files.len() {
        lemma_assets(files[i].support_assets@, root, max_upload_bytes, 0);
        if file_is_taken(files[i], root, max_upload_bytes) {
            lemma_files(files, root, max_upload_bytes, i + 1);
        } else {
            assert(!file_is_taken(files[i], root, max_upload_bytes));
        }
    }
}

/// A request is taken exactly where it has a title, a commentary and a file, every source of it is this
/// store's own and no larger than an upload may be, and no two assets of a file share a path.
pub proof fn law_which_requests_are_taken(
    request: PublicationRequest,
    root: Seq<u8>,
    max_upload_bytes: u64,
)
    ensures
        publication::request_fault(request, root, max_upload_bytes) is None <==> {
            &&& !text::is_blank(request.title@)
            &&& !text::is_blank(request.commentary@)
            &&& request.files@.len() > 0
            &&& forall|k: int|
                0 <= k < request.files@.len() ==> file_is_taken(
                    #[trigger] request.files@[k],
                    root,
                    max_upload_bytes,
                )
        },
        text::is_blank(request.title@) ==> publication::request_fault(request, root, max_upload_bytes)
            == Some(StoreError::BlankPublicationTitle),
        !text::is_blank(request.title@) && text::is_blank(request.commentary@)
            ==> publication::request_fault(request, root, max_upload_bytes) == Some(
            StoreError::BlankPublicationCommentary,
        ),
{
    lemma_files(request.files@, root, max_upload_bytes, 0);
}

/// A source that is not taken is refused for what it is: for the store that it belongs to, or for its
/// size with the limit before the size.
pub proof fn law_refused_sources_are_told(
    staged: StagedPublicationBlob,
    root: Seq<u8>,
    max_upload_bytes: u64,
)
    ensures
        publication::staged_fault(staged, root, max_upload_bytes) is None <==> is_taken(
            staged,
            root,
            max_upload_bytes,
        ),
        staged.root@ != root ==> publication::staged_fault(staged, root, max_upload_bytes) == Some(
            StoreError::PublicationStagingStoreMismatch,
        ),
        staged.root@ == root && staged.record@.1 > max_upload_bytes ==> publication::staged_fault(
            staged,
            root,
            max_upload_bytes,
        ) == Some(
            StoreError::UploadLimitExceeded {
                limit: max_upload_bytes,
                attempted: staged.record@.1,
            },
        ),
{
}

/// A post may follow only a post of its own session.
pub proof fn law_posts_follow_in_their_session(
    predecessor: i64,
    found_in: Option<i64>,
    session_id: i64,
)
    ensures
        publication::predecessor_fault(predecessor, found_in, session_id) is None <==> found_in == Some(
            session_id,
        ),
        found_in is None ==> publication::predecessor_fault(predecessor, found_in, session_id) == Some(
            StoreError::PredecessorNotFound { post_id: predecessor },
        ),
        found_in is Some && found_in->0 != session_id ==> publication::predecessor_fault(
            predecessor,
            found_in,
            session_id,
        ) == Some(StoreError::CrossSessionPredecessor { post_id: predecessor }),
{
}

/// A journal says in one line whether its source is staged or on its way to its place, its digest and
/// its size.
pub proof fn law_journals_say_how_far_it_came(hash: Seq<char>, byte_size: u64)
    ensures
        publication::journal_text(JournalState::Staged, hash, byte_size) == "staged"@ + " "@ + hash
            + " "@ + number::decimal(byte_size as nat) + "\n"@,
        publication::journal_text(JournalState::Finalizing, hash, byte_size) == "finalizing"@ + " "@
            + hash + " "@ + number::decimal(byte_size as nat) + "\n"@,
{
}

/// Recovery reads the journals of writers that are gone, removes stages that have no lock and what has
/// no journal, and leaves all else.
pub proof fn law_recovery_takes_what_was_left(
    extension: Seq<char>,
    has_data: bool,
    has_journal: bool,
)
    ensures
        ({
            let journals = |lock: LockState|
                publication::recovery(
                    RecoveryPass::Journals,
                    extension,
                    has_data,
                    has_journal,
                    lock,
                );
            let data = |lock: LockState|
                publication::recovery(RecoveryPass::Data, extension, has_data, has_journal, lock);
            let locks = |lock: LockState|
                publication::recovery(RecoveryPass::Locks, extension, has_data, has_journal, lock);
            &&& extension == "journal"@ ==> journals(LockState::Free) == RecoveryAction::ReadJournal
            &&& extension == "journal"@ ==> journals(LockState::Absent) == RecoveryAction::RemoveStage
            &&& extension != "journal"@ ==> journals(LockState::Free) == RecoveryAction::Leave
                && journals(LockState::Absent) == RecoveryAction::Leave
            &&& extension == "part"@ && !has_journal ==> data(LockState::Absent)
                == RecoveryAction::RemoveData && data(LockState::Free)
                == RecoveryAction::RemoveAbandoned
            &&& extension != "part"@ || has_journal ==> data(LockState::Absent)
                == RecoveryAction::Leave && data(LockState::Free) == RecoveryAction::Leave
            &&& extension == "lock"@ && !has_data && !has_journal ==> locks(LockState::Free)
                == RecoveryAction::RemoveLock
            &&& extension != "lock"@ || has_data || has_journal ==> locks(LockState::Free)
                == RecoveryAction::Leave
            &&& locks(LockState::Absent) == RecoveryAction::Leave
        }),
{
}

} // verus!
