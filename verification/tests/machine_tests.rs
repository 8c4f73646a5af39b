use glim::api::error::ApiError;
use glim::api::manifest::{ManifestFile, ManifestSupportAsset, PublicationManifest};
use glim::api::reception::{
    FieldAnswer, PieceAnswer, ReceiveAnswer, ReceiveStep, Reception, StageAnswer as PartAnswer,
};
use glim::daemon::credential::{TokenAnswer, TokenStep, TOKEN_FILE_MODE};
use glim::daemon::token::AccessToken;
use glim::storage::blob::{BlobHash, BlobRecord};
use glim::storage::error::StoreError;
use glim::storage::finalizing::{FinalAnswer, FinalStep, Finalizing};
use glim::storage::publication::StagedPublicationBlob;
use glim::storage::resolving::{ResolveAnswer, ResolveStep, Resolving};
use glim::storage::session::SessionRecord;
use glim::storage::staging::{
    stage_extensions, StageAnswer, StageFault, StageKind, StageStep, Staging,
};
use glim::storage::tables::closing_targets;

const ABC_HASH: &str = "ba7816bf8f01cfea414140de5dae2223b00361a396177a9cb410ff61f20015ad";

fn io(message: &str) -> StoreError {
    StoreError::Io(message.to_owned())
}

// ---- receiving a publication ----

fn part(name: &str) -> ReceiveAnswer {
    ReceiveAnswer::Field(FieldAnswer::Part(Some(name.to_owned())))
}

fn piece(bytes: &[u8]) -> ReceiveAnswer {
    ReceiveAnswer::Piece(PieceAnswer::Piece(bytes.to_vec()))
}

fn manifest() -> PublicationManifest {
    PublicationManifest {
        integration_namespace: "pi".to_owned(),
        external_key: "one".to_owned(),
        project_label: "analysis".to_owned(),
        working_directory: "/work".to_owned(),
        title: "Title".to_owned(),
        commentary: "Comment".to_owned(),
        predecessor_post_id: None,
        git: None,
        files: vec![ManifestFile {
            part: "file-0".to_owned(),
            filename: "a.html".to_owned(),
            caption: None,
            media_type: None,
            support_assets: vec![ManifestSupportAsset {
                part: "asset-0-0".to_owned(),
                relative_path: "a.css".to_owned(),
            }],
        }],
    }
}

fn staged(digit: &str) -> PartAnswer {
    PartAnswer::Staged(StagedPublicationBlob {
        root: b"/store".to_vec(),
        record: BlobRecord::from_parts(BlobHash::parse(&digit.repeat(64)).unwrap(), 3),
    })
}

fn answered(reception: &Reception) -> (u16, &str) {
    match reception.step() {
        ReceiveStep::Failed(answer) => (answer.status, &answer.body.error.code),
        _ => panic!("the reception failed"),
    }
}

fn with_manifest() -> Reception {
    Reception::start()
        .advance(part("manifest"))
        .advance(piece(b"{}"))
        .advance(ReceiveAnswer::Piece(PieceAnswer::End))
        .advance(ReceiveAnswer::Parsed(Some(manifest())))
}

#[test]
fn publications_are_received_part_by_part() {
    let run = Reception::start();
    assert!(matches!(run.step(), ReceiveStep::AwaitManifest));
    let run = run.advance(part("manifest"));
    assert!(matches!(run.step(), ReceiveStep::ReadManifest));
    let run = run.advance(piece(b"{\"a\"")).advance(piece(b":1}"));
    let run = run.advance(ReceiveAnswer::Piece(PieceAnswer::End));
    assert!(matches!(run.step(), ReceiveStep::ParseManifest(text) if text == "{\"a\":1}"));
    let run = run.advance(ReceiveAnswer::Parsed(Some(manifest())));
    assert!(matches!(run.step(), ReceiveStep::AwaitPart));
    let run = run.advance(part("asset-0-0"));
    assert!(matches!(run.step(), ReceiveStep::StagePart(name) if name == "asset-0-0"));
    let run = run.advance(ReceiveAnswer::Staged(staged("a"))).advance(part("file-0"));
    assert!(run.request("s").is_none());
    let run = run
        .advance(ReceiveAnswer::Staged(staged("b")))
        .advance(ReceiveAnswer::Field(FieldAnswer::End));
    assert!(matches!(run.step(), ReceiveStep::Ready));
    let request = run.request("sess11").unwrap();
    assert_eq!(request.session_public_id, "sess11");
    assert_eq!(request.files[0].blob.record.hash().as_str(), "b".repeat(64));
    assert_eq!(
        request.files[0].support_assets[0].blob.record.hash().as_str(),
        "a".repeat(64)
    );
    assert_eq!(run.manifest().unwrap().title, "Title");
}

#[test]
fn broken_bodies_are_answered() {
    let end = || ReceiveAnswer::Field(FieldAnswer::End);
    let broken = || ReceiveAnswer::Field(FieldAnswer::Interrupted);
    assert_eq!(
        answered(&Reception::start().advance(part("file-0"))),
        (400, "manifest_must_be_first")
    );
    assert_eq!(answered(&Reception::start().advance(end())), (400, "manifest_must_be_first"));
    assert_eq!(answered(&Reception::start().advance(broken())), (400, "multipart_stream_error"));
    let reading = || Reception::start().advance(part("manifest"));
    assert_eq!(
        answered(&reading().advance(piece(&vec![b' '; 65_537]))),
        (413, "manifest_too_large")
    );
    assert_eq!(
        answered(&reading().advance(ReceiveAnswer::Piece(PieceAnswer::Interrupted))),
        (400, "multipart_stream_error")
    );
    let unreadable =
        reading().advance(piece(&[0xff])).advance(ReceiveAnswer::Piece(PieceAnswer::End));
    assert_eq!(answered(&unreadable), (400, "manifest_not_utf8"));
    let unparsed = reading()
        .advance(ReceiveAnswer::Piece(PieceAnswer::End))
        .advance(ReceiveAnswer::Parsed(None));
    assert_eq!(answered(&unparsed), (400, "malformed_manifest"));
    let mut blank = manifest();
    blank.title.clear();
    let refused = reading()
        .advance(ReceiveAnswer::Piece(PieceAnswer::End))
        .advance(ReceiveAnswer::Parsed(Some(blank)));
    assert_eq!(answered(&refused), (422, "validation_failed"));
    assert_eq!(answered(&with_manifest().advance(end())), (422, "missing_part"));
    assert_eq!(answered(&with_manifest().advance(broken())), (400, "multipart_stream_error"));
    assert_eq!(answered(&with_manifest().advance(part("other"))), (422, "unexpected_part"));
    assert_eq!(
        answered(&with_manifest().advance(ReceiveAnswer::Field(FieldAnswer::Part(None)))),
        (422, "invalid_part_name")
    );
    let staging = || with_manifest().advance(part("file-0"));
    assert_eq!(
        answered(&staging().advance(ReceiveAnswer::Staged(staged("a"))).advance(part("file-0"))),
        (422, "duplicate_part")
    );
    assert_eq!(
        answered(&staging().advance(ReceiveAnswer::Staged(PartAnswer::Interrupted))),
        (400, "multipart_stream_error")
    );
    assert_eq!(
        answered(
            &staging().advance(ReceiveAnswer::Staged(PartAnswer::Refused(ApiError::unavailable())))
        ),
        (503, "storage_unavailable")
    );
}

// ---- staging ----

fn named(kind: StageKind, limit: u64) -> Staging {
    Staging::start(kind, limit)
        .advance(StageAnswer::Done)
        .advance(StageAnswer::Name("token".to_owned()))
}

fn reading(kind: StageKind, limit: u64) -> Staging {
    named(kind, limit)
        .advance(StageAnswer::Done)
        .advance(StageAnswer::Done)
        .advance(StageAnswer::Done)
}

#[test]
fn sources_are_staged_with_a_journal() {
    let run = Staging::start(StageKind::Publication, 3);
    assert!(matches!(run.step(), StageStep::MakeDirectory));
    let run = run.advance(StageAnswer::Done);
    assert!(matches!(run.step(), StageStep::PickName));
    let run = run.advance(StageAnswer::Name("token".to_owned()));
    assert!(matches!(run.step(), StageStep::CreateLock));
    assert_eq!(run.name(), "token");
    let run = run.advance(StageAnswer::Exists);
    assert!(matches!(run.step(), StageStep::PickName));
    let run = run.advance(StageAnswer::Name("other".to_owned())).advance(StageAnswer::Done);
    assert!(matches!(run.step(), StageStep::TakeLock));
    let run = run.advance(StageAnswer::Done);
    assert!(matches!(run.step(), StageStep::CreateData));
    let run = run.advance(StageAnswer::Done);
    assert!(matches!(run.step(), StageStep::Read));
    let run = run.advance(StageAnswer::Piece(b"ab".to_vec()));
    assert!(matches!(run.step(), StageStep::Write(piece) if piece == b"ab"));
    let run = run
        .advance(StageAnswer::Done)
        .advance(StageAnswer::Piece(b"c".to_vec()))
        .advance(StageAnswer::Done)
        .advance(StageAnswer::Ended);
    assert!(matches!(run.step(), StageStep::SyncData));
    let run = run.advance(StageAnswer::Done);
    let line = format!("staged {ABC_HASH} 3\n");
    assert!(matches!(run.step(), StageStep::WriteJournal(written) if *written == line));
    let run = run.advance(StageAnswer::Done);
    assert!(matches!(run.step(), StageStep::Staged));
    let record = run.into_outcome().unwrap().unwrap();
    assert_eq!((record.hash().as_str(), record.byte_size()), (ABC_HASH, 3));
}

#[test]
fn failed_stages_are_cleaned_up() {
    let run = reading(StageKind::Publication, 2).advance(StageAnswer::Piece(b"abc".to_vec()));
    assert!(matches!(run.step(), StageStep::CleanUp));
    let run = run.advance(StageAnswer::Failed(io("no matter")));
    assert!(matches!(run.step(), StageStep::Failed));
    let fault = run.into_outcome().unwrap().unwrap_err();
    assert_eq!(fault.into_error(), StoreError::UploadLimitExceeded { limit: 2, attempted: 3 });
    let run = reading(StageKind::Blob, u64::MAX).advance(StageAnswer::Failed(io("gone")));
    assert!(matches!(run.step(), StageStep::CleanUp));
    let fault = run.advance(StageAnswer::Done).into_outcome().unwrap().unwrap_err();
    assert_eq!(fault.into_error(), io("gone"));
    let locked = named(StageKind::Blob, 1).advance(StageAnswer::Done).advance(StageAnswer::Done);
    let run = locked.advance(StageAnswer::Failed(io("full")));
    assert!(matches!(run.step(), StageStep::RemoveLock));
    let early = named(StageKind::Blob, 1).advance(StageAnswer::Failed(io("denied")));
    assert!(matches!(early.step(), StageStep::Failed));
    assert_eq!(StageFault::ByteCountOverflow.into_error(), io("blob byte count overflow"));
    assert_eq!(stage_extensions(StageKind::Blob), ["part", "lock"]);
    assert_eq!(stage_extensions(StageKind::Publication), ["part", "next", "journal", "lock"]);
}

#[test]
fn blobs_try_sixteen_names() {
    let mut run = named(StageKind::Blob, u64::MAX);
    for _ in 0..15 {
        run = run.advance(StageAnswer::Exists).advance(StageAnswer::Name("next".to_owned()));
    }
    assert!(matches!(run.step(), StageStep::CreateLock));
    let run = run.advance(StageAnswer::Exists);
    let fault = run.into_outcome().unwrap().unwrap_err();
    assert_eq!(fault.into_error(), io("could not allocate unique blob staging file"));
    let run = reading(StageKind::Blob, u64::MAX).advance(StageAnswer::Ended);
    let run = run.advance(StageAnswer::Done);
    assert!(matches!(run.step(), StageStep::SyncDirectory));
    let record = run.advance(StageAnswer::Done).into_outcome().unwrap().unwrap();
    assert_eq!(record.byte_size(), 0);
}

// ---- storing a blob ----

fn storing() -> Finalizing {
    Finalizing::start(BlobRecord::from_parts(BlobHash::parse(ABC_HASH).unwrap(), 3))
}

fn told(run: Finalizing, answers: Vec<FinalAnswer>) -> Finalizing {
    answers.into_iter().fold(run, |run, answer| run.advance(answer))
}

#[test]
fn blobs_are_stored_in_one_transaction() {
    let run = storing();
    assert_eq!(run.step(), FinalStep::Begin);
    let run = run.advance(FinalAnswer::Done);
    assert_eq!(run.step(), FinalStep::Insert { byte_size: 3 });
    let run = told(run, vec![FinalAnswer::Done, FinalAnswer::Size(Some(3)), FinalAnswer::Done]);
    assert_eq!(run.step(), FinalStep::Link);
    let run = told(run, vec![FinalAnswer::Done, FinalAnswer::Done]);
    assert_eq!(run.step(), FinalStep::Commit);
    let run = run.advance(FinalAnswer::Done);
    assert_eq!(run.step(), FinalStep::Stored);
    assert_eq!(run.into_outcome().unwrap().unwrap().hash().as_str(), ABC_HASH);
}

fn linked() -> Finalizing {
    told(
        storing(),
        vec![
            FinalAnswer::Done,
            FinalAnswer::Done,
            FinalAnswer::Size(Some(3)),
            FinalAnswer::Done,
            FinalAnswer::Done,
        ],
    )
}

#[test]
fn failed_storing_removes_the_new_file() {
    let run = told(linked(), vec![FinalAnswer::Failed(io("sync")), FinalAnswer::Flag(true)]);
    assert_eq!(run.step(), FinalStep::Unlink);
    let run = told(run, vec![FinalAnswer::Done, FinalAnswer::Done]);
    assert_eq!(run.into_outcome().unwrap().unwrap_err(), io("sync"));
    let run = told(
        linked(),
        vec![
            FinalAnswer::Done,
            FinalAnswer::Failed(io("commit")),
            FinalAnswer::Flag(false),
            FinalAnswer::Done,
            FinalAnswer::Size(Some(3)),
        ],
    );
    assert_eq!(run.step(), FinalStep::RollBack);
    let run = told(
        linked(),
        vec![
            FinalAnswer::Done,
            FinalAnswer::Failed(io("commit")),
            FinalAnswer::Flag(false),
            FinalAnswer::Done,
            FinalAnswer::Size(None),
        ],
    );
    assert_eq!(run.step(), FinalStep::Unlink);
    let run = told(run, vec![FinalAnswer::Failed(io("unlink")), FinalAnswer::Failed(io("back"))]);
    assert_eq!(run.into_outcome().unwrap().unwrap_err(), io("unlink"));
}

#[test]
fn other_sizes_are_not_accepted() {
    let run = told(
        storing(),
        vec![
            FinalAnswer::Done,
            FinalAnswer::Done,
            FinalAnswer::Size(Some(4)),
            FinalAnswer::Flag(true),
        ],
    );
    assert_eq!(run.step(), FinalStep::RollBack);
    let error = run.advance(FinalAnswer::Done).into_outcome().unwrap().unwrap_err();
    assert_eq!(
        error.message(),
        format!(
            "blob integrity error: blob {ABC_HASH} size disagrees with metadata: recorded 4, actual 3"
        )
    );
    let large = Finalizing::start(BlobRecord::from_parts(
        BlobHash::parse(ABC_HASH).unwrap(),
        u64::MAX,
    ));
    let run = told(large, vec![FinalAnswer::Done, FinalAnswer::Flag(true), FinalAnswer::Done]);
    assert_eq!(
        run.into_outcome().unwrap().unwrap_err(),
        io("blob exceeds SQLite's maximum byte count")
    );
    let run = storing().advance(FinalAnswer::Failed(io("busy")));
    assert_eq!(run.into_outcome().unwrap().unwrap_err(), io("busy"));
}

/// The state of a small blob store: recorded sizes, files, and the files of the stage.
#[derive(Default)]
struct SmallStore {
    sizes: Vec<(String, u64)>,
    files: Vec<(String, Vec<u8>)>,
    part: Option<Vec<u8>>,
    lock: bool,
}

impl SmallStore {
    fn stage(&mut self, pieces: &[&[u8]]) -> BlobRecord {
        let mut left = pieces.iter();
        let mut run = Staging::start(StageKind::Blob, u64::MAX);
        loop {
            let answer = match run.step() {
                StageStep::PickName => StageAnswer::Name("name".to_owned()),
                StageStep::CreateLock => {
                    self.lock = true;
                    StageAnswer::Done
                }
                StageStep::CreateData => {
                    self.part = Some(Vec::new());
                    StageAnswer::Done
                }
                StageStep::Read => match left.next() {
                    Some(piece) => StageAnswer::Piece(piece.to_vec()),
                    None => StageAnswer::Ended,
                },
                StageStep::Write(piece) => {
                    self.part.as_mut().unwrap().extend_from_slice(piece);
                    StageAnswer::Done
                }
                StageStep::Staged => break,
                _ => StageAnswer::Done,
            };
            run = run.advance(answer);
        }
        run.into_outcome().unwrap().ok().unwrap()
    }

    fn store(&mut self, pieces: &[&[u8]]) -> BlobRecord {
        let record = self.stage(pieces);
        let hash = record.hash().as_str().to_owned();
        let mut run = Finalizing::start(record);
        loop {
            let known = self.sizes.iter().find(|(found, _)| *found == hash).map(|(_, size)| *size);
            let answer = match run.step() {
                FinalStep::Insert { byte_size } => {
                    if known.is_none() {
                        self.sizes.push((hash.clone(), byte_size as u64));
                    }
                    FinalAnswer::Done
                }
                FinalStep::AskSize => FinalAnswer::Size(known.map(|size| size as i64)),
                FinalStep::Link if self.files.iter().any(|(found, _)| *found == hash) => {
                    FinalAnswer::Exists
                }
                FinalStep::Link => {
                    self.files.push((hash.clone(), self.part.clone().unwrap()));
                    FinalAnswer::Done
                }
                FinalStep::Stored => break,
                _ => FinalAnswer::Done,
            };
            run = run.advance(answer);
        }
        for extension in stage_extensions(StageKind::Blob) {
            match extension {
                "part" => self.part = None,
                _ => self.lock = false,
            }
        }
        run.into_outcome().unwrap().unwrap()
    }
}

#[test]
fn bytes_are_stored_once_under_their_digest() {
    let mut store = SmallStore::default();
    let record = store.store(&[b"a", b"bc"]);
    assert_eq!(record.hash().as_str(), ABC_HASH);
    assert_eq!(record.byte_size(), 3);
    assert_eq!(store.sizes, [(ABC_HASH.to_owned(), 3)]);
    assert_eq!(store.files, [(ABC_HASH.to_owned(), b"abc".to_vec())]);
    assert!(store.part.is_none() && !store.lock);
    let again = store.store(&[b"abc"]);
    assert_eq!(again.hash().as_str(), ABC_HASH);
    assert_eq!(again.byte_size(), 3);
    assert_eq!(store.sizes.len(), 1);
    assert_eq!(store.files, [(ABC_HASH.to_owned(), b"abc".to_vec())]);
}

// ---- the token file ----

fn after(step: TokenStep, answers: Vec<TokenAnswer>) -> TokenStep {
    answers.into_iter().fold(step, |step, answer| step.after(answer))
}

fn why(step: TokenStep) -> String {
    match step {
        TokenStep::Failed(message) => message,
        _ => panic!("there is no token"),
    }
}

#[test]
fn a_token_that_was_written_is_the_one_that_is_read() {
    let mut file: Option<(u32, String)> = None;
    let mut run = || {
        let mut step = TokenStep::load_or_create();
        loop {
            let answer = match &step {
                TokenStep::Ready(token) => return token.expose().to_owned(),
                TokenStep::Inspect if file.is_some() => TokenAnswer::Found,
                TokenStep::Inspect => TokenAnswer::Missing,
                TokenStep::Generate => TokenAnswer::Token(AccessToken::generate().unwrap()),
                TokenStep::Create(_) => {
                    file = Some((TOKEN_FILE_MODE, String::new()));
                    TokenAnswer::Done
                }
                TokenStep::Write(token) => {
                    file.as_mut().unwrap().1.push_str(token.expose());
                    TokenAnswer::Done
                }
                TokenStep::Check => {
                    TokenAnswer::Kind { regular: true, mode: file.as_ref().unwrap().0 }
                }
                TokenStep::Read => TokenAnswer::Content(file.as_ref().unwrap().1.clone()),
                TokenStep::Failed(message) => panic!("{message}"),
                _ => TokenAnswer::Done,
            };
            step = step.after(answer);
        }
    };
    let first = run();
    assert_eq!(run(), first);
    assert_eq!(file, Some((0o600, first)));
}

#[test]
fn access_token_is_private_persistent_and_strictly_validated() {
    let made = AccessToken::generate().unwrap();
    assert_eq!(made.expose().len(), 64);
    assert!(made.expose().bytes().all(|byte| byte.is_ascii_hexdigit()));
    let digits = made.expose().to_owned();
    let step = after(
        TokenStep::load_or_create(),
        vec![TokenAnswer::Missing, TokenAnswer::Done, TokenAnswer::Token(made)],
    );
    assert!(matches!(&step, TokenStep::Create(token) if token.expose() == digits));
    let step = after(step, vec![TokenAnswer::Done, TokenAnswer::Done]);
    assert!(matches!(step, TokenStep::Ready(token) if token.expose() == digits));
    let loaded = after(
        TokenStep::load(),
        vec![
            TokenAnswer::Done,
            TokenAnswer::Kind { regular: true, mode: 0o100600 },
            TokenAnswer::Content(digits.clone()),
        ],
    );
    assert!(matches!(loaded, TokenStep::Ready(token) if token.expose() == digits));
    let opened = || after(TokenStep::load_or_create(), vec![TokenAnswer::Found, TokenAnswer::Done]);
    assert_eq!(
        why(opened().after(TokenAnswer::Kind { regular: true, mode: 0o100644 })),
        "access token file permissions must not grant group or other access"
    );
    let private = TokenAnswer::Kind { regular: true, mode: 0o100600 };
    assert_eq!(
        why(opened().after(private).after(TokenAnswer::Content("short".to_owned()))),
        "access token file must contain exactly 64 lowercase hexadecimal characters"
    );
    assert_eq!(
        why(opened().after(TokenAnswer::Kind { regular: false, mode: 0o120777 })),
        "access token path must be a regular non-symlink file"
    );
}

#[test]
fn token_file_faults_are_told() {
    let failed = || TokenAnswer::Failed("denied".to_owned());
    assert_eq!(
        why(TokenStep::load_or_create().after(failed())),
        "could not inspect access token file: denied"
    );
    assert_eq!(
        why(TokenStep::load().after(failed())),
        "could not open access token file: denied"
    );
    let missing = || TokenStep::load_or_create().after(TokenAnswer::Missing);
    assert_eq!(
        why(missing().after(TokenAnswer::NoDirectory)),
        "access token file has no parent directory"
    );
    assert_eq!(
        why(missing().after(failed())),
        "could not create access token directory: denied"
    );
    let token = || AccessToken::parse(&"a".repeat(64)).unwrap();
    let creating = || missing().after(TokenAnswer::Done).after(TokenAnswer::Token(token()));
    assert_eq!(
        why(creating().after(failed())),
        "could not create access token file: denied"
    );
    assert!(matches!(creating().after(TokenAnswer::Found), TokenStep::Open));
    let unwritten = creating().after(TokenAnswer::Done).after(failed());
    assert!(matches!(&unwritten, TokenStep::Remove(_)));
    assert_eq!(
        why(unwritten.after(TokenAnswer::Done)),
        "could not persist access token: denied"
    );
}

// ---- resolving a session ----

fn record(id: i64, public_id: &str) -> SessionRecord {
    SessionRecord { id, public_id: public_id.to_owned(), project_id: 7 }
}

fn offered(candidate: &str, inserted: usize) -> ResolveAnswer {
    ResolveAnswer::Offered { candidate: candidate.to_owned(), inserted, session_id: 3 }
}

#[test]
fn known_sessions_are_resolved_as_they_are() {
    let run = Resolving::start().advance(ResolveAnswer::Done);
    assert_eq!(run.step, ResolveStep::FindProject);
    let run = run.advance(ResolveAnswer::Project(7));
    assert_eq!(run.step, ResolveStep::FindSession { project_id: 7 });
    let run = run.advance(ResolveAnswer::Session(Some(record(2, "abcdef"))));
    assert_eq!(run.step, ResolveStep::Commit);
    let run = run.advance(ResolveAnswer::Done);
    assert_eq!(run.into_outcome().unwrap().unwrap(), record(2, "abcdef"));
}

#[test]
fn new_sessions_get_the_first_free_identifier() {
    let find = || Resolving::start().advance(ResolveAnswer::Done).advance(ResolveAnswer::Project(7));
    let run = find().advance(ResolveAnswer::Session(None));
    assert_eq!(run.step, ResolveStep::Offer { project_id: 7, length: 6 });
    let run = run.advance(offered("aaaaaa", 0));
    assert_eq!(run.step, ResolveStep::Offer { project_id: 7, length: 7 });
    let run = run.advance(offered("aaaaaaa", 1)).advance(ResolveAnswer::Done);
    assert_eq!(run.into_outcome().unwrap().unwrap(), record(3, "aaaaaaa"));
    let run = find().advance(ResolveAnswer::Failed(io("gone")));
    assert_eq!(run.step, ResolveStep::Unresolved);
    assert!(matches!(run.into_outcome(), Some(Err(StoreError::Io(cause))) if cause == "gone"));
    assert!(find().into_outcome().is_none());
    let last = Resolving {
        step: ResolveStep::Offer { project_id: 7, length: usize::MAX },
        session: None,
        fault: None,
    };
    assert!(matches!(
        last.advance(offered("a", 0)).into_outcome(),
        Some(Err(StoreError::PublicIdExhausted))
    ));
}

#[test]
fn closing_purges_the_session_that_is_there() {
    assert_eq!(closing_targets(Some(4)), vec![4]);
    assert!(closing_targets(None).is_empty());
}
