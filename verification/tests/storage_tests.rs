use glim::random::Supply;
use glim::storage::blob::{
    blob_metadata_matches, blob_path, check_contents, check_file, check_inserted, check_recorded,
    random_hex_token, recorded_blob, removes_installed_file, sqlite_byte_size, staging_action,
    BlobHash, BlobIntegrityError, BlobRecord, BlobStream, FileState, LockState, StagingAction,
};
use glim::storage::classification::{
    classify_support_prefix, classify_visible, classify_visible_prefix, normalize_declared,
    safe_support_media_type, strong_signature, ArtifactRenderer, FileClassification, JsonVerdict,
};
use glim::storage::draining::{DrainAnswer, DrainStep, Draining};
use glim::storage::error::StoreError;
use glim::storage::lifecycle::{count_sessions, due_sessions, SessionActivity, SessionContents};
use glim::storage::publication::{
    journal_line, occurrences, read_journal, recovery_action, removed_extensions,
    removes_final_file, unique_blobs, validate_predecessor, validate_request, JournalState,
    PublicationFile, PublicationRequest, PublicationSupportAsset, RecoveryAction, RecoveryPass,
    StagedPublicationBlob,
};
use glim::storage::publishing::{PublishAnswer, PublishStep, Publishing};
use glim::storage::purging::{PurgeAnswer, PurgeStep, Purging};
use glim::storage::read::{
    assemble_post, associated_blob, finish_page, format_cursor, parse_cursor, parse_renderer,
    plan_page, renderer_name, Cursor, GitProvenance, PageRequest, RawAsset, RawFile, RawPost,
};
use glim::storage::rows::{asset_values, file_values, post_values};
use glim::storage::session::{
    check_schema_version, first_pending, generate_public_id_with_fill, PublicIdDraft,
    record_activity, unix_seconds, validate_migration_plan, validate_migration_plan_to,
    CandidateOutcome, CandidateSearch, Migration,
};
use glim::storage::status::{nonnegative, status_snapshot, StoreLimits};
use rusqlite::Connection;

const EMPTY_HASH: &str = "e3b0c44298fc1c149afbf4c8996fb92427ae41e4649b934ca495991b7852b855";
const ABC_HASH: &str = "ba7816bf8f01cfea414140de5dae2223b00361a396177a9cb410ff61f20015ad";

#[test]
fn every_character_stands_for_four_bytes() {
    let mut source = Supply::of((0..=255).collect(), "over".to_owned());
    let public_id = generate_public_id_with_fill(232, &mut source).unwrap();
    for character in "123456789ABCDEFGHJKLMNPQRSTUVWXYZabcdefghijkmnopqrstuvwxyz".chars() {
        assert_eq!(public_id.chars().filter(|found| *found == character).count(), 4);
    }
    assert_eq!(source.remaining(), &(232..=255).collect::<Vec<u8>>());
    let mut empty = Supply::of(Vec::new(), "no entropy".to_owned());
    assert!(matches!(
        generate_public_id_with_fill(1, &mut empty),
        Err(StoreError::Random(message)) if message == "no entropy"
    ));
    assert_eq!(generate_public_id_with_fill(0, &mut empty).unwrap(), "");
    assert_eq!(empty.requests(), &vec![1]);
}

fn random_public_id(length: usize) -> String {
    let mut draft = PublicIdDraft::start(length);
    while draft.wanted() > 0 {
        draft = draft.draw().unwrap();
    }
    draft.into_text()
}

#[test]
fn drafts_take_what_their_bytes_stand_for() {
    let draft = PublicIdDraft::start(4).take(&[232, 255, 0, 57]);
    assert_eq!(draft.wanted(), 2);
    let draft = draft.take(&[58, 231]);
    assert_eq!(draft.wanted(), 0);
    assert_eq!(draft.into_text(), "1z1z");
    assert_eq!(PublicIdDraft::start(0).draw().unwrap().into_text(), "");
}

#[test]
fn generated_identifiers_name_pages_and_sessions() {
    let public_id = random_public_id(6);
    assert!(glim::api::paths::is_session_page(&public_id));
    assert!(glim::cli::arguments::session_public_id(&public_id).is_ok());
}

fn generation_rejects_biased_bytes() {
    let mut source = Supply::of(vec![232, 255, 0, 57, 58, 231], "over".to_owned());
    let public_id = generate_public_id_with_fill(4, &mut source).unwrap();
    assert_eq!(public_id, "1z1z");
    assert_eq!(public_id.len(), 4);
    assert_eq!(source.requests(), &vec![4, 2]);
    assert!(source.remaining().is_empty());
}

#[test]
fn storage_public_id_generation_rejects_biased_bytes_and_refills_to_requested_length() {
    generation_rejects_biased_bytes();
}

#[test]
fn mod_public_id_generation_rejects_biased_bytes_and_refills_to_requested_length() {
    generation_rejects_biased_bytes();
}

fn collision_increases_the_length() {
    let connection = Connection::open_in_memory().unwrap();
    connection
        .execute_batch(
            "CREATE TABLE sessions (public_id TEXT NOT NULL UNIQUE);
             INSERT INTO sessions (public_id) VALUES ('111111');",
        )
        .unwrap();
    let mut search = CandidateSearch::start();
    let mut requested_lengths: Vec<usize> = Vec::new();
    let mut accepted = None;
    while accepted.is_none() {
        requested_lengths.push(search.length);
        let candidate = if search.length == 6 { "111111" } else { "2222222" };
        let inserted = connection
            .execute("INSERT OR IGNORE INTO sessions (public_id) VALUES (?1)", [candidate])
            .unwrap();
        match search.offered(candidate.to_owned(), inserted, 9, 3).unwrap() {
            CandidateOutcome::Accepted(session) => accepted = Some(session),
            CandidateOutcome::Collided => {}
        }
    }
    let session = accepted.unwrap();
    assert_eq!(requested_lengths, [6, 7]);
    assert_eq!(session.public_id, "2222222");
    assert_eq!(session.id, 9);
    assert_eq!(session.project_id, 3);
}

#[test]
fn storage_public_id_collision_increases_the_next_candidate_length() {
    collision_increases_the_length();
}

#[test]
fn mod_public_id_collision_increases_the_next_candidate_length() {
    collision_increases_the_length();
}

#[test]
fn a_candidate_that_cannot_grow_exhausts_the_search() {
    let mut search = CandidateSearch { length: usize::MAX };
    assert!(matches!(
        search.offered("x".to_owned(), 0, 1, 1),
        Err(StoreError::PublicIdExhausted)
    ));
}

#[test]
fn public_ids_come_from_the_operating_system() {
    let one = random_public_id(12);
    let other = random_public_id(12);
    assert_eq!(one.len(), 12);
    assert_ne!(one, other);
    for c in one.chars() {
        assert!(c.is_ascii_alphanumeric() && !"0OIl".contains(c));
    }
}

fn plan_error(migrations: &[Migration], current: u32) -> (u32, u32) {
    match validate_migration_plan_to(migrations, current) {
        Err(StoreError::InvalidMigrationPlan { expected, found }) => (expected, found),
        _ => panic!("the plan was accepted"),
    }
}

fn apply(connection: &Connection, migrations: &[Migration], current: u32) -> bool {
    if validate_migration_plan_to(migrations, current).is_err() {
        return false;
    }
    for migration in migrations {
        connection.execute_batch(migration.sql).unwrap();
    }
    true
}

fn table_count(connection: &Connection, query: &str) -> i64 {
    connection.query_row(query, [], |row| row.get::<_, i64>(0)).unwrap()
}

fn plan_with_a_gap(current: u32) {
    let connection = Connection::open_in_memory().unwrap();
    let migrations = [Migration {
        version: 2,
        sql: "CREATE TABLE skipped_version (id INTEGER PRIMARY KEY);",
    }];
    assert_eq!(plan_error(&migrations, current), (1, 2));
    assert!(!apply(&connection, &migrations, current));
    assert_eq!(
        table_count(
            &connection,
            "SELECT COUNT(*) FROM sqlite_schema WHERE name = 'skipped_version'"
        ),
        0
    );
}

fn plan_with_a_duplicate(current: u32) {
    let connection = Connection::open_in_memory().unwrap();
    let migrations = [
        Migration { version: 1, sql: "CREATE TABLE first (id INTEGER PRIMARY KEY);" },
        Migration { version: 1, sql: "CREATE TABLE duplicate (id INTEGER PRIMARY KEY);" },
    ];
    assert_eq!(plan_error(&migrations, current), (2, 1));
    assert!(!apply(&connection, &migrations, current));
    assert_eq!(
        table_count(
            &connection,
            "SELECT COUNT(*) FROM sqlite_schema WHERE name IN ('first', 'duplicate')"
        ),
        0
    );
}

#[test]
fn storage_invalid_migration_plan_must_end_at_current_schema_version() {
    assert_eq!(plan_error(&[], 1), (1, 0));
}

#[test]
fn storage_invalid_migration_plan_rejects_a_version_gap_without_applying_it() {
    plan_with_a_gap(1);
}

#[test]
fn storage_invalid_migration_plan_rejects_an_adjacent_duplicate() {
    plan_with_a_duplicate(1);
}

#[test]
fn mod_invalid_migration_plan_must_end_at_current_schema_version() {
    assert!(matches!(
        validate_migration_plan(&[]),
        Err(StoreError::InvalidMigrationPlan { expected: 5, found: 0 })
    ));
}

#[test]
fn mod_invalid_migration_plan_rejects_a_version_gap_without_applying_it() {
    plan_with_a_gap(5);
}

#[test]
fn mod_invalid_migration_plan_rejects_an_adjacent_duplicate() {
    plan_with_a_duplicate(5);
}

#[test]
fn complete_plans_are_accepted_and_pick_up_where_the_store_is() {
    let plan: Vec<Migration> =
        (1..=5).map(|version| Migration { version, sql: "SELECT 1;" }).collect();
    assert!(validate_migration_plan(&plan).is_ok());
    assert_eq!(first_pending(&plan, 0), 0);
    assert_eq!(first_pending(&plan, 3), 3);
    assert_eq!(first_pending(&plan, 5), 5);
    assert!(check_schema_version(5).is_ok());
    assert!(matches!(
        check_schema_version(6),
        Err(StoreError::SchemaTooNew { found: 6, supported: 5 })
    ));
}

#[test]
fn io_error_message_is_context_neutral() {
    let error = StoreError::Io(std::io::Error::other("disk unavailable").to_string());
    assert_eq!(error.message(), "storage I/O error: disk unavailable");
}

#[test]
fn randomness_error_message_is_context_neutral() {
    let source = getrandom::Error::UNSUPPORTED;
    let error = StoreError::Random(source.to_string());
    assert_eq!(error.message(), format!("operating-system randomness error: {source}"));
}

#[test]
fn activity_only_moves_forward() {
    let report = record_activity("abc", Some(100), 90).unwrap();
    assert!(!report.updated);
    assert_eq!(report.last_activity_at, 100);
    let report = record_activity("abc", Some(100), 110).unwrap();
    assert!(report.updated);
    assert_eq!(report.last_activity_at, 110);
    assert!(matches!(
        record_activity("abc", None, 110),
        Err(StoreError::SessionNotFound { public_id }) if public_id == "abc"
    ));
    assert_eq!(unix_seconds(Some(7)).unwrap(), 7);
    assert!(unix_seconds(None).is_err());
    assert!(unix_seconds(Some(u64::MAX)).is_err());
}

// ---- blobs ----

fn record(hash: &str, byte_size: u64) -> BlobRecord {
    BlobRecord::from_parts(BlobHash::parse(hash).unwrap(), byte_size)
}

#[test]
fn hashes_are_sixty_four_lowercase_hexadecimal_characters() {
    assert_eq!(BlobHash::parse(EMPTY_HASH).unwrap().as_str(), EMPTY_HASH);
    assert!(BlobHash::parse(&EMPTY_HASH.to_uppercase()).is_err());
    assert!(BlobHash::parse(&EMPTY_HASH[1..]).is_err());
    assert!(BlobHash::parse("").is_err());
    let message = BlobHash::parse("x").unwrap_err().message();
    assert!(!message.is_empty());
}

#[test]
fn streams_hash_and_count_what_they_absorb() {
    let empty = BlobStream::start().finish();
    assert_eq!(empty.hash().as_str(), EMPTY_HASH);
    assert_eq!(empty.byte_size(), 0);
    let mut stream = BlobStream::start();
    stream.absorb(b"a", 10).unwrap();
    stream.absorb(b"bc", 10).unwrap();
    assert_eq!(stream.byte_size(), 3);
    let abc = stream.finish();
    assert_eq!(abc.hash().as_str(), ABC_HASH);
    assert_eq!(abc.byte_size(), 3);
}

#[test]
fn streams_refuse_more_than_the_upload_limit() {
    let mut stream = BlobStream::start();
    stream.absorb(b"abc", 4).unwrap();
    assert!(matches!(
        stream.absorb(b"de", 4),
        Err(StoreError::UploadLimitExceeded { limit: 4, attempted: 5 })
    ));
}

#[test]
fn blob_paths_fan_out_by_the_hash() {
    let hash = BlobHash::parse(ABC_HASH).unwrap();
    let path = String::from_utf8(blob_path(b"/store", &hash)).unwrap();
    assert_eq!(path, format!("/store/blobs/ba/78/{ABC_HASH}"));
    let other = BlobHash::parse(EMPTY_HASH).unwrap();
    assert_ne!(blob_path(b"/store", &hash), blob_path(b"/store", &other));
    assert!(hash.same(&BlobHash::parse(ABC_HASH).unwrap()));
    assert!(!hash.same(&other));
}

#[test]
fn random_tokens_are_hexadecimal_and_differ() {
    let one = random_hex_token().unwrap();
    let other = random_hex_token().unwrap();
    assert_ne!(one, other);
    assert!(one.chars().all(|c| c.is_ascii_hexdigit() && !c.is_ascii_uppercase()));
}

#[test]
fn blob_integrity_is_checked_at_every_step() {
    let blob = record(ABC_HASH, 3);
    let hash = blob.hash();
    assert_eq!(sqlite_byte_size(3).unwrap(), 3);
    assert!(sqlite_byte_size(u64::MAX).is_err());
    assert!(recorded_blob(hash, None).unwrap().is_none());
    assert_eq!(recorded_blob(hash, Some(3)).unwrap().unwrap().byte_size(), 3);
    assert!(recorded_blob(hash, Some(-1)).is_err());
    assert!(check_recorded(&blob, &Some(record(ABC_HASH, 3))).is_ok());
    assert!(matches!(
        check_recorded(&blob, &None),
        Err(StoreError::Integrity(BlobIntegrityError::MissingMetadata { .. }))
    ));
    assert!(matches!(
        check_recorded(&blob, &Some(record(ABC_HASH, 4))),
        Err(StoreError::Integrity(BlobIntegrityError::SizeMismatch { .. }))
    ));
    assert!(check_file(hash, 3, FileState::File { byte_size: 3 }).is_ok());
    assert!(matches!(
        check_file(hash, 3, FileState::Missing),
        Err(StoreError::Integrity(BlobIntegrityError::Missing { .. }))
    ));
    assert!(matches!(
        check_file(hash, 3, FileState::NotAFile),
        Err(StoreError::Integrity(BlobIntegrityError::NotAFile { .. }))
    ));
    assert!(matches!(
        check_file(hash, 3, FileState::File { byte_size: 2 }),
        Err(StoreError::Integrity(BlobIntegrityError::SizeMismatch {
            recorded: 3,
            actual: 2,
            ..
        }))
    ));
    assert!(check_contents(hash, &BlobHash::parse(ABC_HASH).unwrap()).is_ok());
    assert!(matches!(
        check_contents(hash, &BlobHash::parse(EMPTY_HASH).unwrap()),
        Err(StoreError::Integrity(BlobIntegrityError::HashMismatch { .. }))
    ));
    assert!(check_inserted(hash, 3, 3).is_ok());
    assert!(check_inserted(hash, 3, 4).is_err());
    assert!(blob_metadata_matches(Some(3), 3));
    assert!(!blob_metadata_matches(None, 3));
    assert!(!blob_metadata_matches(Some(-3), 3));
}

#[test]
fn integrity_messages_name_the_hash() {
    let hash = BlobHash::parse(ABC_HASH).unwrap();
    for error in [
        BlobIntegrityError::Missing { hash: hash.clone() },
        BlobIntegrityError::MissingMetadata { hash: hash.clone() },
        BlobIntegrityError::SizeMismatch { hash: hash.clone(), recorded: 1, actual: 2 },
        BlobIntegrityError::NotAFile { hash: hash.clone() },
        BlobIntegrityError::HashMismatch { expected: hash.clone(), actual: hash.clone() },
    ] {
        assert!(error.message().contains(ABC_HASH));
    }
}

#[test]
fn installed_files_stay_only_when_they_were_accepted() {
    assert!(removes_installed_file(true, true, true));
    assert!(removes_installed_file(true, false, false));
    assert!(!removes_installed_file(true, false, true));
    assert!(!removes_installed_file(false, true, false));
}

#[test]
fn active_stages_are_left_alone() {
    assert_eq!(staging_action("part", LockState::Held, true), StagingAction::Leave);
    assert_eq!(staging_action("part", LockState::Free, true), StagingAction::Recover);
    assert_eq!(staging_action("part", LockState::Absent, true), StagingAction::RemoveFile);
    assert_eq!(staging_action("lock", LockState::Free, false), StagingAction::RemoveFile);
    assert_eq!(staging_action("lock", LockState::Free, true), StagingAction::Leave);
    assert_eq!(staging_action("txt", LockState::Absent, true), StagingAction::Leave);
}

// ---- classification ----

const PNG: &[u8] = &[0x89, 0x50, 0x4e, 0x47, 0x0d, 0x0a, 0x1a, 0x0a, 0, 0];

#[test]
fn strong_signatures_are_recognised() {
    let png = strong_signature(PNG).unwrap();
    assert_eq!(png.media_type, "image/png");
    assert_eq!(png.renderer, ArtifactRenderer::Image);
    assert_eq!(strong_signature(b"%PDF-1.7").unwrap().renderer, ArtifactRenderer::Pdf);
    assert!(strong_signature(b"plain text").is_none());
}

#[test]
fn visible_files_are_classified_by_bytes_and_name() {
    let markdown = classify_visible_prefix(b"# Title\n", false, "notes.md", None).unwrap();
    assert_eq!(markdown.renderer, ArtifactRenderer::Markdown);
    let json = classify_visible_prefix(b"{\"a\": 1}", false, "data.json", None).unwrap();
    assert_eq!(json.renderer, ArtifactRenderer::Json);
    let html = classify_visible_prefix(b"<p>hi</p>", false, "page.html", None).unwrap();
    assert_eq!(html.renderer, ArtifactRenderer::Html);
    assert!(matches!(
        classify_visible_prefix(PNG, false, "page.html", None),
        Err(StoreError::ArtifactClassificationFailed)
    ));
    assert!(classify_visible_prefix(b"{\"a\": ", false, "data.json", None).is_err());
    assert!(classify_visible_prefix(b"{\"a\": ", true, "data.json", None).is_ok());
}

#[test]
fn the_json_verdict_decides_on_json_names() {
    let ok = classify_visible(b"[1]", false, "a.json", None, JsonVerdict::Complete).unwrap();
    assert_eq!(ok.renderer, ArtifactRenderer::Json);
    assert!(classify_visible(b"[1]", false, "a.json", None, JsonVerdict::Malformed).is_err());
    assert!(classify_visible(b"[1]", true, "a.json", None, JsonVerdict::Unfinished).is_ok());
    assert!(classify_visible(b"[1]", false, "a.json", None, JsonVerdict::Unfinished).is_err());
}

#[test]
fn declared_types_must_agree() {
    assert_eq!(normalize_declared("image/png").unwrap().renderer, ArtifactRenderer::Image);
    assert!(normalize_declared("nonsense").is_err());
    assert!(classify_visible_prefix(PNG, false, "a.png", Some("image/png")).is_ok());
    assert!(classify_visible_prefix(PNG, false, "a.png", Some("application/pdf")).is_err());
}

#[test]
fn support_files_get_safe_types() {
    assert_eq!(
        classify_support_prefix(b"body {}", false, "site.css").as_deref(),
        Some("text/css; charset=utf-8")
    );
    assert_eq!(
        safe_support_media_type(b"body {}", false, "site.css"),
        "text/css; charset=utf-8"
    );
    assert_eq!(
        safe_support_media_type(&[0xff, 0xfe, 0x00], false, "thing.unknown"),
        "application/octet-stream"
    );
}

// ---- lifecycle and status ----

#[test]
fn sessions_are_due_at_the_cutoff() {
    let sessions = [
        SessionActivity { id: 3, last_activity_at: 50 },
        SessionActivity { id: 1, last_activity_at: 100 },
        SessionActivity { id: 2, last_activity_at: 101 },
    ];
    let mut due = due_sessions(&sessions, 100);
    due.sort();
    assert_eq!(due, [1, 3]);
    assert_eq!(count_sessions(&sessions, 100), (1, 2));
}

fn contents(project_id: i64, posts: u64, hashes: &[&str]) -> SessionContents {
    SessionContents {
        project_id,
        posts,
        post_files: posts + 1,
        support_assets: 1,
        blob_references: posts + 2,
        blob_hashes: hashes.iter().map(|hash| (*hash).to_owned()).collect(),
    }
}

#[test]
fn purges_look_at_all_sessions_before_the_first_goes() {
    let mut run = Purging::start(vec![7, 9]);
    assert_eq!(run.step, PurgeStep::LookAt { target: 0, session_id: 7 });
    run = run.advance(PurgeAnswer::Contents(contents(4, 2, &["b", "a"])));
    assert_eq!(run.step, PurgeStep::LookAt { target: 1, session_id: 9 });
    run = run.advance(PurgeAnswer::Contents(contents(3, 1, &["a", "c"])));
    assert_eq!(run.project_ids, [3, 4]);
    assert_eq!(run.blob_hashes, ["a", "b", "c"]);
    assert_eq!(run.step, PurgeStep::RemoveSession { target: 0, session_id: 7 });
    run = run.advance(PurgeAnswer::Rows(1));
    assert_eq!(run.step, PurgeStep::RemoveSession { target: 1, session_id: 9 });
    run = run.advance(PurgeAnswer::Rows(1));
    assert_eq!(run.step, PurgeStep::RemoveProject { project: 0, project_id: 3 });
    run = run.advance(PurgeAnswer::Rows(1));
    assert_eq!(run.step, PurgeStep::RemoveProject { project: 1, project_id: 4 });
    run = run.advance(PurgeAnswer::Rows(0));
    for blob in 0..3 {
        assert_eq!(run.step, PurgeStep::Queue { blob });
        run = run.advance(PurgeAnswer::Rows(if blob == 1 { 0 } else { 1 }));
    }
    assert_eq!(run.step, PurgeStep::Commit);
    run = run.advance(PurgeAnswer::Done);
    assert_eq!(run.step, PurgeStep::Purged);
    let report = run.into_outcome().unwrap().unwrap();
    assert_eq!(report.sessions_deleted, 2);
    assert_eq!(report.projects_deleted, 1);
    assert_eq!(report.posts_deleted, 3);
    assert_eq!(report.post_files_deleted, 5);
    assert_eq!(report.support_assets_deleted, 2);
    assert_eq!(report.blob_references_deleted, 7);
    assert_eq!(report.blobs_queued, 2);
    assert_eq!(report.blobs_deleted, 0);
}

#[test]
fn purges_of_nothing_only_commit() {
    let run = Purging::start(Vec::new());
    assert_eq!(run.step, PurgeStep::Commit);
    let report = run.advance(PurgeAnswer::Done).into_outcome().unwrap().unwrap();
    assert_eq!(report.sessions_deleted, 0);
    assert_eq!(report.blobs_queued, 0);
}

#[test]
fn purges_give_up_where_a_step_fails() {
    let run = Purging::start(vec![7]);
    let run = run.advance(PurgeAnswer::Failed(StoreError::PublicIdExhausted));
    assert_eq!(run.step, PurgeStep::NotPurged);
    assert!(matches!(run.into_outcome(), Some(Err(StoreError::PublicIdExhausted))));
}

#[test]
fn queued_blobs_go_row_first_and_then_their_file() {
    let one = "a".repeat(64);
    let other = "b".repeat(64);
    let mut run = Draining::start();
    assert_eq!(run.step, DrainStep::List);
    run = run.advance(DrainAnswer::Queued(vec![one, other]));
    assert_eq!(run.step, DrainStep::Begin { blob: 0 });
    run = run.advance(DrainAnswer::Done);
    assert_eq!(run.step, DrainStep::RemoveRow { blob: 0 });
    run = run.advance(DrainAnswer::Rows(1));
    assert_eq!(run.step, DrainStep::Unqueue { blob: 0, removed: true });
    run = run.advance(DrainAnswer::Done);
    assert_eq!(run.step, DrainStep::RemoveFile { blob: 0 });
    run = run.advance(DrainAnswer::Done);
    assert_eq!(run.step, DrainStep::SyncDirectory { blob: 0 });
    run = run.advance(DrainAnswer::Done);
    assert_eq!(run.step, DrainStep::Commit { blob: 0, removed: true });
    run = run.advance(DrainAnswer::Done);
    assert_eq!(run.step, DrainStep::Begin { blob: 1 });
    run = run.advance(DrainAnswer::Done);
    run = run.advance(DrainAnswer::Rows(0));
    assert_eq!(run.step, DrainStep::Unqueue { blob: 1, removed: false });
    run = run.advance(DrainAnswer::Done);
    assert_eq!(run.step, DrainStep::Commit { blob: 1, removed: false });
    run = run.advance(DrainAnswer::Done);
    assert_eq!(run.step, DrainStep::Drained);
    assert!(matches!(run.into_outcome(), Some(Ok(1))));
}

#[test]
fn deletions_that_fail_are_rolled_back() {
    let mut run = Draining::start().advance(DrainAnswer::Queued(vec!["c".repeat(64)]));
    run = run.advance(DrainAnswer::Done);
    run = run.advance(DrainAnswer::Failed(StoreError::Io("disk".to_owned())));
    assert_eq!(run.step, DrainStep::AskTransaction);
    run = run.advance(DrainAnswer::Flag(true));
    assert_eq!(run.step, DrainStep::RollBack);
    run = run.advance(DrainAnswer::Done);
    assert_eq!(run.step, DrainStep::NotDrained);
    let error = run.into_outcome().unwrap().unwrap_err().into_error();
    assert_eq!(error, StoreError::Io("disk".to_owned()));
}

#[test]
fn what_is_no_digest_stops_a_deletion() {
    let run = Draining::start().advance(DrainAnswer::Queued(vec!["short".to_owned()]));
    assert_eq!(run.step, DrainStep::NotDrained);
    let error = run.into_outcome().unwrap().unwrap_err().into_error();
    let message = "blob hash must be 64 lowercase hexadecimal SHA-256 characters";
    assert_eq!(error, StoreError::Io(message.to_owned()));
}

const SMALL_SCHEMA: &str = "
    PRAGMA foreign_keys = ON;
    CREATE TABLE projects (id INTEGER PRIMARY KEY);
    CREATE TABLE sessions (
        id INTEGER PRIMARY KEY,
        project_id INTEGER NOT NULL REFERENCES projects(id) ON DELETE CASCADE
    );
    CREATE TABLE posts (
        id INTEGER PRIMARY KEY,
        session_id INTEGER NOT NULL REFERENCES sessions(id) ON DELETE CASCADE,
        title TEXT NOT NULL
    );
    CREATE TABLE blobs (hash TEXT PRIMARY KEY, byte_size INTEGER NOT NULL);
    CREATE TABLE blob_references (
        id INTEGER PRIMARY KEY,
        post_id INTEGER NOT NULL REFERENCES posts(id) ON DELETE CASCADE,
        blob_hash TEXT NOT NULL REFERENCES blobs(hash)
    );
    CREATE TABLE blob_deletion_queue (
        blob_hash TEXT PRIMARY KEY REFERENCES blobs(hash) ON DELETE CASCADE
    );";

fn small_store(own: &str, shared: &str) -> Connection {
    let connection = Connection::open_in_memory().unwrap();
    connection.execute_batch(SMALL_SCHEMA).unwrap();
    connection
        .execute_batch(&format!(
            "INSERT INTO projects VALUES (1), (2);
             INSERT INTO sessions VALUES (7, 1), (8, 1), (9, 2);
             INSERT INTO posts VALUES (20, 7, 'goes'), (21, 8, 'stays'), (22, 9, 'goes too');
             INSERT INTO blobs VALUES ('{own}', 5), ('{shared}', 6);
             INSERT INTO blob_references VALUES (30, 20, '{own}'), (31, 20, '{shared}'),
                 (32, 21, '{shared}'), (33, 22, '{own}');"
        ))
        .unwrap();
    connection
}

fn looked_at(connection: &Connection, session_id: i64) -> SessionContents {
    let ask = |sql: &str| -> i64 {
        connection.query_row(sql, [session_id], |row| row.get(0)).unwrap()
    };
    let hashes = connection
        .prepare(
            "SELECT DISTINCT blob_hash FROM blob_references
             WHERE post_id IN (SELECT id FROM posts WHERE session_id = ?1)",
        )
        .unwrap()
        .query_map([session_id], |row| row.get(0))
        .unwrap()
        .collect::<Result<Vec<String>, _>>()
        .unwrap();
    SessionContents {
        project_id: ask("SELECT project_id FROM sessions WHERE id = ?1"),
        posts: ask("SELECT COUNT(*) FROM posts WHERE session_id = ?1") as u64,
        post_files: 0,
        support_assets: 0,
        blob_references: ask(
            "SELECT COUNT(*) FROM blob_references
             WHERE post_id IN (SELECT id FROM posts WHERE session_id = ?1)",
        ) as u64,
        blob_hashes: hashes,
    }
}

fn purge_all(connection: &Connection, targets: Vec<i64>) -> Purging {
    let rows = |changed: rusqlite::Result<usize>| PurgeAnswer::Rows(changed.unwrap() as u64);
    let mut run = Purging::start(targets);
    while run.step != PurgeStep::Purged {
        let answer = match run.step {
            PurgeStep::LookAt { session_id, .. } => {
                PurgeAnswer::Contents(looked_at(connection, session_id))
            }
            PurgeStep::RemoveSession { session_id, .. } => {
                rows(connection.execute("DELETE FROM sessions WHERE id = ?1", [session_id]))
            }
            PurgeStep::RemoveProject { project_id, .. } => rows(connection.execute(
                "DELETE FROM projects WHERE id = ?1
                 AND NOT EXISTS (SELECT 1 FROM sessions WHERE project_id = ?1)",
                [project_id],
            )),
            PurgeStep::Queue { blob } => rows(connection.execute(
                "INSERT INTO blob_deletion_queue SELECT ?1 WHERE NOT EXISTS (
                     SELECT 1 FROM blob_references WHERE blob_hash = ?1
                 ) ON CONFLICT(blob_hash) DO NOTHING",
                [&run.blob_hashes[blob]],
            )),
            _ => PurgeAnswer::Done,
        };
        run = run.advance(answer);
    }
    run
}

fn listed(connection: &Connection, sql: &str) -> Vec<String> {
    connection
        .prepare(sql)
        .unwrap()
        .query_map([], |row| row.get(0))
        .unwrap()
        .collect::<Result<Vec<String>, _>>()
        .unwrap()
}

#[test]
fn a_purge_leaves_other_sessions_with_their_posts_and_blobs() {
    let own = "a".repeat(64);
    let shared = "b".repeat(64);
    let connection = small_store(&own, &shared);
    let report = purge_all(&connection, vec![7, 9]).into_outcome().unwrap().unwrap();
    assert_eq!(report.sessions_deleted, 2);
    assert_eq!(report.projects_deleted, 1);
    assert_eq!(report.posts_deleted, 2);
    assert_eq!(report.blob_references_deleted, 3);
    assert_eq!(report.blobs_queued, 1);
    assert_eq!(listed(&connection, "SELECT title FROM posts"), ["stays"]);
    assert_eq!(table_count(&connection, "SELECT COUNT(*) FROM sessions WHERE id = 8"), 1);
    assert_eq!(table_count(&connection, "SELECT COUNT(*) FROM projects WHERE id = 1"), 1);
    assert_eq!(table_count(&connection, "SELECT COUNT(*) FROM projects"), 1);
    assert_eq!(listed(&connection, "SELECT blob_hash FROM blob_deletion_queue"), [own]);
    assert_eq!(listed(&connection, "SELECT blob_hash FROM blob_references"), [shared]);
}

#[test]
fn a_blob_that_a_post_refers_to_is_not_deleted() {
    let own = "a".repeat(64);
    let shared = "b".repeat(64);
    let connection = small_store(&own, &shared);
    purge_all(&connection, vec![7, 9]);
    connection
        .execute("INSERT INTO blob_deletion_queue VALUES (?1)", [&shared])
        .unwrap();
    let mut removed: Vec<String> = Vec::new();
    let mut run = Draining::start();
    while run.step != DrainStep::Drained {
        let answer = match run.step {
            DrainStep::List => DrainAnswer::Queued(listed(
                &connection,
                "SELECT blob_hash FROM blob_deletion_queue ORDER BY blob_hash",
            )),
            DrainStep::RemoveRow { blob } => DrainAnswer::Rows(
                connection
                    .execute(
                        "DELETE FROM blobs WHERE hash = ?1
                         AND EXISTS (SELECT 1 FROM blob_deletion_queue WHERE blob_hash = ?1)
                         AND NOT EXISTS (SELECT 1 FROM blob_references WHERE blob_hash = ?1)",
                        [&run.queued[blob]],
                    )
                    .unwrap() as u64,
            ),
            DrainStep::Unqueue { blob, .. } => {
                connection
                    .execute(
                        "DELETE FROM blob_deletion_queue WHERE blob_hash = ?1",
                        [&run.queued[blob]],
                    )
                    .unwrap();
                DrainAnswer::Done
            }
            DrainStep::RemoveFile { blob } => {
                removed.push(run.queued[blob].clone());
                DrainAnswer::Done
            }
            _ => DrainAnswer::Done,
        };
        run = run.advance(answer);
    }
    assert!(matches!(run.into_outcome(), Some(Ok(1))));
    assert_eq!(removed, [own]);
    assert_eq!(listed(&connection, "SELECT hash FROM blobs"), [shared]);
    assert_eq!(table_count(&connection, "SELECT COUNT(*) FROM blob_deletion_queue"), 0);
}

#[test]
fn status_values_are_never_negative() {
    assert_eq!(nonnegative("x", 4).unwrap(), 4);
    assert!(matches!(
        nonnegative("x", -4),
        Err(StoreError::InvalidStatusValue { field: "x", value: -4 })
    ));
    let limits = StoreLimits { max_upload_bytes: 5, max_finalized_blob_bytes: 9 };
    let snapshot = status_snapshot(7, 2, 1, 3, limits).unwrap();
    assert_eq!(snapshot.finalized_unique_blob_bytes, 7);
    assert_eq!(snapshot.active_sessions, 2);
    assert_eq!(snapshot.sessions_due_for_purge, 1);
    assert_eq!(snapshot.queued_blob_deletions, 3);
    assert!(status_snapshot(-7, 2, 1, 3, StoreLimits::unlimited()).is_err());
    assert_eq!(StoreLimits::unlimited().max_upload_bytes, u64::MAX);
}

// ---- reading ----

#[test]
fn cursors_read_back() {
    let cursor = Cursor { published_at: -5, post_id: 17 };
    let text = format_cursor(cursor);
    assert_eq!(parse_cursor(&text).unwrap(), cursor);
    assert!(matches!(parse_cursor("nonsense"), Err(StoreError::InvalidPageCursor)));
}

#[test]
fn pages_have_bounded_limits() {
    let plan = plan_page(&PageRequest { limit: None, cursor: None }).unwrap();
    assert_eq!(plan.limit, 20);
    assert_eq!(plan.fetch, 21);
    assert!(plan_page(&PageRequest { limit: Some(100), cursor: None }).is_ok());
    assert!(matches!(
        plan_page(&PageRequest { limit: Some(0), cursor: None }),
        Err(StoreError::InvalidPageLimit { limit: 0, maximum: 100 })
    ));
    assert!(matches!(
        plan_page(&PageRequest { limit: Some(101), cursor: None }),
        Err(StoreError::InvalidPageLimit { limit: 101, maximum: 100 })
    ));
}

#[test]
fn a_page_with_more_behind_it_names_its_last_post() {
    let fetched: Vec<Cursor> =
        (0..3).map(|i| Cursor { published_at: 10 - i, post_id: 30 - i }).collect();
    let (page, next) = finish_page(2, fetched);
    assert_eq!(page.len(), 2);
    assert_eq!(parse_cursor(&next.unwrap()).unwrap(), page[1]);
    let (page, next) = finish_page(2, vec![Cursor { published_at: 1, post_id: 2 }]);
    assert_eq!(page.len(), 1);
    assert!(next.is_none());
}

#[test]
fn renderer_names_read_back() {
    for renderer in [
        ArtifactRenderer::Image,
        ArtifactRenderer::Svg,
        ArtifactRenderer::Pdf,
        ArtifactRenderer::Video,
        ArtifactRenderer::Audio,
        ArtifactRenderer::Markdown,
        ArtifactRenderer::Text,
        ArtifactRenderer::Json,
        ArtifactRenderer::Csv,
        ArtifactRenderer::Html,
        ArtifactRenderer::Download,
    ] {
        assert_eq!(parse_renderer(renderer_name(renderer)), Some(renderer));
    }
    assert_eq!(parse_renderer("unknown"), None);
}

fn raw_post() -> RawPost {
    RawPost {
        id: 1,
        session_id: 2,
        session_public_id: "abcdef".to_owned(),
        title: "Title".to_owned(),
        commentary: "Words".to_owned(),
        predecessor_post_id: None,
        published_at: 9,
        git_root: Some("/work".to_owned()),
        git_branch: Some("main".to_owned()),
        git_commit: None,
    }
}

fn raw_file() -> RawFile {
    RawFile {
        position: 0,
        filename: "a.md".to_owned(),
        caption: None,
        media_type: "text/markdown".to_owned(),
        renderer: "markdown".to_owned(),
        hash: ABC_HASH.to_owned(),
        byte_size: 3,
        support_assets: vec![RawAsset {
            relative_path: "a.png".to_owned(),
            hash: EMPTY_HASH.to_owned(),
            byte_size: 0,
        }],
    }
}

#[test]
fn posts_are_assembled_from_valid_rows_only() {
    let post = assemble_post(&raw_post(), &[raw_file()]).unwrap();
    assert_eq!(post.title, "Title");
    assert_eq!(post.files.len(), 1);
    assert_eq!(post.files[0].renderer, ArtifactRenderer::Markdown);
    assert_eq!(post.files[0].support_assets[0].relative_path, "a.png");
    assert_eq!(post.git.unwrap().root, "/work");
    let mut negative = raw_file();
    negative.byte_size = -1;
    assert!(assemble_post(&raw_post(), &[negative]).is_err());
    let mut unknown = raw_file();
    unknown.renderer = "unknown".to_owned();
    assert!(matches!(
        assemble_post(&raw_post(), &[unknown]),
        Err(StoreError::Io(message)) if message == "invalid persisted file renderer"
    ));
    assert!(associated_blob(ABC_HASH, 3).is_ok());
    assert!(associated_blob("short", 3).is_err());
    assert!(associated_blob(ABC_HASH, -3).is_err());
}

// ---- publishing ----

fn staged(hash: &str, byte_size: u64) -> StagedPublicationBlob {
    StagedPublicationBlob { root: b"/store".to_vec(), record: record(hash, byte_size) }
}

fn request() -> PublicationRequest {
    PublicationRequest {
        session_public_id: "abcdef".to_owned(),
        title: "Title".to_owned(),
        commentary: "Words".to_owned(),
        predecessor_post_id: None,
        git: None,
        files: vec![PublicationFile {
            filename: "a.md".to_owned(),
            caption: None,
            blob: staged(ABC_HASH, 3),
            support_assets: vec![PublicationSupportAsset {
                relative_path: "a.png".to_owned(),
                blob: staged(EMPTY_HASH, 0),
            }],
        }],
    }
}

#[test]
fn published_rows_read_back() {
    let mut asked = request();
    asked.predecessor_post_id = Some(5);
    asked.git = Some(GitProvenance {
        root: "/work".to_owned(),
        branch: Some("main".to_owned()),
        commit: None,
    });
    let class =
        FileClassification { media_type: "text/markdown".to_owned(), renderer: ArtifactRenderer::Markdown };
    let post = post_values(&asked, 90);
    let file = file_values(&asked, 0, &class).unwrap();
    let asset = asset_values(&asked.files[0], 0).unwrap();
    assert!(file_values(&asked, 1, &class).is_none());
    assert!(asset_values(&asked.files[0], 1).is_none());
    let raw = RawPost {
        id: 11,
        session_id: 2,
        session_public_id: "abcdef".to_owned(),
        title: post.title,
        commentary: post.commentary,
        predecessor_post_id: post.predecessor_post_id,
        published_at: post.published_at,
        git_root: post.git_root,
        git_branch: post.git_branch,
        git_commit: post.git_commit,
    };
    let files = vec![RawFile {
        position: file.position,
        filename: file.filename,
        caption: file.caption,
        media_type: file.media_type,
        renderer: file.renderer,
        hash: file.hash,
        byte_size: 3,
        support_assets: vec![RawAsset {
            relative_path: asset.relative_path,
            hash: asset.hash,
            byte_size: 0,
        }],
    }];
    let read = assemble_post(&raw, &files).unwrap();
    assert_eq!((read.title.as_str(), read.commentary.as_str()), ("Title", "Words"));
    assert_eq!((read.predecessor_post_id, read.published_at), (Some(5), 90));
    assert_eq!(read.git, asked.git);
    assert_eq!((read.files[0].position, read.files[0].filename.as_str()), (0, "a.md"));
    assert_eq!(read.files[0].renderer, ArtifactRenderer::Markdown);
    assert_eq!((read.files[0].blob.hash.as_str(), read.files[0].blob.byte_size), (ABC_HASH, 3));
    assert_eq!(read.files[0].support_assets[0].relative_path, "a.png");
}

#[test]
fn pages_together_are_all_posts() {
    let posts: Vec<Cursor> =
        (0..7).map(|number| Cursor { published_at: 100 - number / 2, post_id: 50 - number }).collect();
    let mut seen = Vec::new();
    let mut cursor = None;
    loop {
        let plan = plan_page(&PageRequest { limit: Some(3), cursor }).unwrap();
        let fetched: Vec<Cursor> = posts
            .iter()
            .filter(|post| {
                plan.cursor.is_none_or(|last| {
                    (post.published_at, post.post_id) < (last.published_at, last.post_id)
                })
            })
            .take(plan.fetch as usize)
            .copied()
            .collect();
        let (shown, next) = finish_page(plan.limit, fetched);
        assert!(shown.len() <= 3);
        seen.extend(shown);
        cursor = next;
        if cursor.is_none() {
            break;
        }
    }
    assert_eq!(seen, posts);
}

#[test]
fn publication_requests_are_validated() {
    assert!(validate_request(&request(), b"/store", 10).is_ok());
    let mut blank = request();
    blank.title = "  ".to_owned();
    assert!(matches!(
        validate_request(&blank, b"/store", 10),
        Err(StoreError::BlankPublicationTitle)
    ));
    let mut silent = request();
    silent.commentary = "\n".to_owned();
    assert!(matches!(
        validate_request(&silent, b"/store", 10),
        Err(StoreError::BlankPublicationCommentary)
    ));
    let mut empty = request();
    empty.files.clear();
    assert!(matches!(
        validate_request(&empty, b"/store", 10),
        Err(StoreError::PublicationRequiresFile)
    ));
    assert!(matches!(
        validate_request(&request(), b"/store", 2),
        Err(StoreError::UploadLimitExceeded { limit: 2, attempted: 3 })
    ));
    assert!(matches!(
        validate_request(&request(), b"/elsewhere", 10),
        Err(StoreError::PublicationStagingStoreMismatch)
    ));
    let mut twice = request();
    twice.files[0].support_assets.push(PublicationSupportAsset {
        relative_path: "a.png".to_owned(),
        blob: staged(EMPTY_HASH, 0),
    });
    assert!(matches!(
        validate_request(&twice, b"/store", 10),
        Err(StoreError::DuplicateSupportPath { relative_path }) if relative_path == "a.png"
    ));
    assert!(validate_predecessor(7, Some(2), 2).is_ok());
    assert!(matches!(
        validate_predecessor(7, None, 2),
        Err(StoreError::PredecessorNotFound { post_id: 7 })
    ));
    assert!(matches!(
        validate_predecessor(7, Some(3), 2),
        Err(StoreError::CrossSessionPredecessor { post_id: 7 })
    ));
}

#[test]
fn blobs_of_a_request_are_listed_once() {
    let all = occurrences(&request());
    assert_eq!(all.len(), 2);
    let mut doubled = request();
    doubled.files[0].support_assets[0].blob = staged(ABC_HASH, 3);
    let all = occurrences(&doubled);
    assert_eq!(unique_blobs(&all).unwrap().len(), 1);
    let mut odd = request();
    odd.files[0].support_assets[0].blob = staged(ABC_HASH, 4);
    assert!(unique_blobs(&occurrences(&odd)).is_err());
}

#[test]
fn journals_read_back() {
    let blob = record(ABC_HASH, 3);
    let staged_entry = read_journal(&journal_line(JournalState::Staged, &blob)).unwrap();
    assert!(!staged_entry.finalizing);
    assert_eq!(staged_entry.hash.as_str(), ABC_HASH);
    let entry = read_journal(&journal_line(JournalState::Finalizing, &blob)).unwrap();
    assert!(entry.finalizing);
    assert!(removes_final_file(&entry, false));
    assert!(!removes_final_file(&entry, true));
    assert!(!removes_final_file(&staged_entry, false));
    assert!(read_journal("").is_err());
}

#[test]
fn recovery_leaves_active_stages() {
    assert_eq!(
        recovery_action(RecoveryPass::Journals, "journal", true, true, LockState::Held),
        RecoveryAction::Leave
    );
    assert_eq!(
        recovery_action(RecoveryPass::Journals, "journal", true, true, LockState::Free),
        RecoveryAction::ReadJournal
    );
    assert!(removed_extensions(RecoveryAction::Leave).is_empty());
    assert_eq!(removed_extensions(RecoveryAction::RemoveLock), ["lock"]);
}

fn publish_until_inserted(budget: u64) -> Publishing {
    let mut run = Publishing::start(&request(), 50, budget);
    assert_eq!(run.step(), PublishStep::FindSession);
    run.advance(PublishAnswer::Found(Some(2)));
    assert_eq!(run.step(), PublishStep::Measure { session_id: 2 });
    run.advance(PublishAnswer::Bytes(10));
    run
}

#[test]
fn publishing_a_request_takes_every_step() {
    let mut run = publish_until_inserted(100);
    let mut ids = 20;
    let mut touched = false;
    let mut links = 0;
    loop {
        let answer = match run.step() {
            PublishStep::LookUp { .. } => PublishAnswer::Found(None),
            PublishStep::CheckRecorded { .. } => PublishAnswer::Flag(false),
            PublishStep::Link { .. } => {
                links += 1;
                PublishAnswer::Flag(true)
            }
            PublishStep::InsertPost { .. }
            | PublishStep::ReferFile { .. }
            | PublishStep::InsertFile { .. }
            | PublishStep::ReferAsset { .. }
            | PublishStep::InsertAsset { .. } => {
                ids += 1;
                PublishAnswer::Id(ids)
            }
            PublishStep::Touch { .. } => {
                touched = true;
                PublishAnswer::Done
            }
            PublishStep::Finished => break,
            _ => PublishAnswer::Done,
        };
        run.advance(answer);
    }
    assert!(touched);
    assert_eq!(links, 2);
    let post = run.into_outcome().unwrap().unwrap();
    assert_eq!(post.session_id, 2);
    assert_eq!(post.session_public_id, "abcdef");
    assert_eq!(post.published_at, 50);
    assert_eq!(post.id, 21);
}

#[test]
fn publishing_stops_at_the_budget() {
    let mut run = publish_until_inserted(12);
    loop {
        let answer = match run.step() {
            PublishStep::LookUp { .. } => PublishAnswer::Found(None),
            PublishStep::AskTransaction => PublishAnswer::Flag(true),
            PublishStep::Finished => break,
            _ => PublishAnswer::Done,
        };
        run.advance(answer);
    }
    assert!(matches!(
        run.into_outcome().unwrap(),
        Err(StoreError::GlobalBlobBudgetExceeded { limit: 12, current: 10, additional: 3 })
    ));
}

#[test]
fn a_missing_session_fails_the_publication() {
    let mut run = Publishing::start(&request(), 50, 100);
    run.advance(PublishAnswer::Found(None));
    loop {
        let answer = match run.step() {
            PublishStep::AskTransaction => PublishAnswer::Flag(true),
            PublishStep::Finished => break,
            _ => PublishAnswer::Done,
        };
        run.advance(answer);
    }
    assert!(matches!(
        run.into_outcome().unwrap(),
        Err(StoreError::SessionNotFound { public_id }) if public_id == "abcdef"
    ));
}

#[test]
fn provenance_has_bounded_parts() {
    let good = GitProvenance {
        root: "/work".to_owned(),
        branch: Some("main".to_owned()),
        commit: Some("abc".to_owned()),
    };
    assert!(good.is_valid());
    let empty = GitProvenance { root: "".to_owned(), branch: None, commit: None };
    assert!(!empty.is_valid());
    let long = GitProvenance { root: "/".to_owned(), branch: Some("b".repeat(1025)), commit: None };
    assert!(!long.is_valid());
}
