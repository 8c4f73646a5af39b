//! A publication's body, received part by part.
use vstd::prelude::*;
use vstd::utf8::*;
use crate::api::error;
use crate::api::error::{ApiError, ErrorModel};
use crate::api::manifest;
use crate::api::manifest::{PartLedger, PublicationManifest, MAX_MANIFEST_BYTES};
use crate::storage::publication::{PublicationRequest, StagedPublicationBlob};
use crate::text;

verus! {

/// What comes next of a body.
#[derive(Debug)]
pub enum FieldAnswer {
    /// The body broke off.
    Interrupted,
    /// The body ended.
    End,
    /// A part starts, under this name if it has one.
    Part(Option<String>),
}

/// What comes next of the manifest part.
#[derive(Debug)]
pub enum PieceAnswer {
    Interrupted,
    End,
    Piece(Vec<u8>),
}

/// What became of a part's bytes.
#[derive(Debug)]
pub enum StageAnswer {
    Interrupted,
    Staged(StagedPublicationBlob),
    Refused(ApiError),
}

/// What the reception waits for.
#[derive(Debug)]
pub enum ReceiveStep {
    /// The first part.
    AwaitManifest,
    /// The next piece of the manifest.
    ReadManifest,
    /// The manifest that this text holds as JSON.
    ParseManifest(String),
    /// The next part, or the end.
    AwaitPart,
    /// The staging of the part with this name.
    StagePart(String),
    /// Everything arrived.
    Ready,
    Failed(ApiError),
}

/// The model of what the reception waits for.
pub enum ReceiveModel {
    AwaitManifest,
    ReadManifest,
    ParseManifest(Seq<char>),
    AwaitPart,
    StagePart(Seq<char>),
    Ready,
    Failed(ErrorModel),
}

impl View for ReceiveStep {
    type V = ReceiveModel;

    open spec fn view(&self) -> ReceiveModel {
        match self {
            ReceiveStep::AwaitManifest => ReceiveModel::AwaitManifest,
            ReceiveStep::ReadManifest => ReceiveModel::ReadManifest,
            ReceiveStep::ParseManifest(content) => ReceiveModel::ParseManifest(content@),
            ReceiveStep::AwaitPart => ReceiveModel::AwaitPart,
            ReceiveStep::StagePart(name) => ReceiveModel::StagePart(name@),
            ReceiveStep::Ready => ReceiveModel::Ready,
            ReceiveStep::Failed(answer) => ReceiveModel::Failed(answer@),
        }
    }
}

/// What the reception is told.
#[derive(Debug)]
pub enum ReceiveAnswer {
    Field(FieldAnswer),
    Piece(PieceAnswer),
    /// The manifest, where the text is a JSON object of the known fields.
    Parsed(Option<PublicationManifest>),
    Staged(StageAnswer),
}

/// The model of a reception.
pub struct ReceptionModel {
    /// The bytes of the manifest so far.
    pub bytes: Seq<u8>,
    pub manifest: Option<PublicationManifest>,
    /// The names of the declared parts.
    pub declared: Seq<Seq<char>>,
    /// The names of the parts that arrived, in order.
    pub staged: Seq<Seq<char>>,
    /// What was staged, in the same order.
    pub blobs: Seq<StagedPublicationBlob>,
    pub step: ReceiveModel,
}

/// The answer to a body that broke off.
pub open spec fn interrupted() -> ErrorModel {
    error::plain(400, "multipart_stream_error"@, "Multipart request stream was interrupted"@)
}

/// The answer to a body that does not start with the manifest.
pub open spec fn no_manifest_first() -> ErrorModel {
    error::plain(400, "manifest_must_be_first"@, "The first multipart part must be manifest"@)
}

/// The answer to a manifest that is too long.
pub open spec fn manifest_too_large() -> ErrorModel {
    error::plain(413, "manifest_too_large"@, "Publication manifest exceeds 64 KiB"@)
}

/// The answer to a manifest that is not UTF-8.
pub open spec fn manifest_not_utf8() -> ErrorModel {
    error::plain(400, "manifest_not_utf8"@, "Publication manifest must be UTF-8"@)
}

/// The answer to a manifest that is no JSON object of the known fields.
pub open spec fn manifest_malformed() -> ErrorModel {
    error::plain(
        400,
        "malformed_manifest"@,
        "Publication manifest JSON is malformed or contains unknown fields"@,
    )
}

/// The answer to a body that ends before all declared parts arrived.
pub open spec fn part_missing() -> ErrorModel {
    error::plain(422, "missing_part"@, "One or more declared artifact parts are missing"@)
}

/// A reception before anything arrived.
pub open spec fn expectant() -> ReceptionModel {
    ReceptionModel {
        bytes: Seq::empty(),
        manifest: None,
        declared: Seq::empty(),
        staged: Seq::empty(),
        blobs: Seq::empty(),
        step: ReceiveModel::AwaitManifest,
    }
}

/// The reception with another thing to wait for.
pub open spec fn at(reception: ReceptionModel, step: ReceiveModel) -> ReceptionModel {
    ReceptionModel { step, ..reception }
}

/// What the reception waits for after the first part came.
pub open spec fn after_first(field: FieldAnswer) -> ReceiveModel {
    match field {
        FieldAnswer::Interrupted => ReceiveModel::Failed(interrupted()),
        FieldAnswer::Part(Some(name)) => if name@ == "manifest"@ {
            ReceiveModel::ReadManifest
        } else {
            ReceiveModel::Failed(no_manifest_first())
        },
        _ => ReceiveModel::Failed(no_manifest_first()),
    }
}

/// What the reception waits for after the manifest ended.
pub open spec fn after_manifest(bytes: Seq<u8>) -> ReceiveModel {
    if valid_utf8(bytes) {
        ReceiveModel::ParseManifest(decode_utf8(bytes))
    } else {
        ReceiveModel::Failed(manifest_not_utf8())
    }
}

/// What the reception waits for after the next part came.
pub open spec fn after_part(
    declared: Seq<Seq<char>>,
    staged: Seq<Seq<char>>,
    field: FieldAnswer,
) -> ReceiveModel {
    match field {
        FieldAnswer::Interrupted => ReceiveModel::Failed(interrupted()),
        FieldAnswer::End => if staged.len() == declared.len() {
            ReceiveModel::Ready
        } else {
            ReceiveModel::Failed(part_missing())
        },
        FieldAnswer::Part(name) => match manifest::fault_of_part(
            declared,
            staged,
            text::optional(name),
        ) {
            Some(answer) => ReceiveModel::Failed(answer),
            None => ReceiveModel::StagePart(name->0@),
        },
    }
}

/// The reception after what it was told; unchanged where that is not what it waits for.
pub open spec fn received(reception: ReceptionModel, answer: ReceiveAnswer) -> ReceptionModel {
    match (reception.step, answer) {
        (ReceiveModel::AwaitManifest, ReceiveAnswer::Field(field)) => at(
            reception,
            after_first(field),
        ),
        (ReceiveModel::ReadManifest, ReceiveAnswer::Piece(piece)) => match piece {
            PieceAnswer::Interrupted => at(reception, ReceiveModel::Failed(interrupted())),
            PieceAnswer::End => at(reception, after_manifest(reception.bytes)),
            PieceAnswer::Piece(bytes) => if reception.bytes.len() + bytes@.len()
                > MAX_MANIFEST_BYTES {
                at(reception, ReceiveModel::Failed(manifest_too_large()))
            } else {
                ReceptionModel { bytes: reception.bytes + bytes@, ..reception }
            },
        },
        (ReceiveModel::ParseManifest(_), ReceiveAnswer::Parsed(parsed)) => match parsed {
            None => at(reception, ReceiveModel::Failed(manifest_malformed())),
            Some(found) => match manifest::declared_parts(found) {
                Err(answer) => at(reception, ReceiveModel::Failed(answer)),
                Ok(names) => ReceptionModel {
                    manifest: Some(found),
                    declared: names,
                    step: ReceiveModel::AwaitPart,
                    ..reception
                },
            },
        },
        (ReceiveModel::AwaitPart, ReceiveAnswer::Field(field)) => at(
            reception,
            after_part(reception.declared, reception.staged, field),
        ),
        (ReceiveModel::StagePart(name), ReceiveAnswer::Staged(staged)) => match staged {
            StageAnswer::Interrupted => at(reception, ReceiveModel::Failed(interrupted())),
            StageAnswer::Refused(answer) => at(reception, ReceiveModel::Failed(answer@)),
            StageAnswer::Staged(blob) => ReceptionModel {
                staged: reception.staged.push(name),
                blobs: reception.blobs.push(blob),
                step: ReceiveModel::AwaitPart,
                ..reception
            },
        },
        _ => reception,
    }
}

/// Whether no more of the manifest is held than a manifest may have, every part that arrived was
/// declared by an accepted manifest, arrived once, and was staged; and, where everything arrived,
/// whether nothing is missing.
pub open spec fn sound(reception: ReceptionModel) -> bool {
    &&& reception.bytes.len() <= MAX_MANIFEST_BYTES
    &&& reception.declared.no_duplicates()
    &&& reception.staged.no_duplicates()
    &&& forall|i: int|
        0 <= i < reception.staged.len() ==> reception.declared.contains(
            #[trigger] reception.staged[i],
        )
    &&& reception.blobs.len() == reception.staged.len()
    &&& reception.manifest matches Some(found) ==> manifest::declared_parts(found) == Ok::<
        Seq<Seq<char>>,
        ErrorModel,
    >(reception.declared)
    &&& reception.manifest is None ==> reception.declared.len() == 0
    &&& reception.step is AwaitPart || reception.step is StagePart || reception.step is Ready
        ==> reception.manifest is Some
    &&& reception.step matches ReceiveModel::StagePart(name) ==> manifest::fault_of_part(
        reception.declared,
        reception.staged,
        Some(name),
    ) is None
    &&& reception.step is AwaitManifest || reception.step is ReadManifest || reception.step
        is ParseManifest ==> reception.staged.len() == 0 && reception.manifest is None
    &&& reception.step is Ready ==> reception.staged.len() == reception.declared.len()
}

/// Whatever arrives, no more is held of the manifest than a manifest may have, only declared parts
/// are staged, and each of them once.
pub proof fn law_receptions_stay_sound(reception: ReceptionModel, answer: ReceiveAnswer)
    requires
        sound(reception),
    ensures
        sound(expectant()),
        sound(received(reception, answer)),
{
    let after = received(reception, answer);
    match (reception.step, answer) {
        (ReceiveModel::ParseManifest(_), ReceiveAnswer::Parsed(Some(found))) => {
            if manifest::declared_parts(found) is Ok {
                manifest::law_declared_parts_are_unique(found);
            }
        },
        (ReceiveModel::StagePart(name), ReceiveAnswer::Staged(StageAnswer::Staged(blob))) => {
            let before = reception.staged;
            assert forall|a: int, b: int|
                0 <= a < after.staged.len() && 0 <= b < after.staged.len() && a
                    != b implies after.staged[a] != after.staged[b] by {
                if a == before.len() {
                    assert(before.contains(before[b]));
                } else if b == before.len() {
                    assert(before.contains(before[a]));
                }
            }
        },
        _ => {},
    }
}

/// A reception that is ready has every part that its manifest names: the request can be made.
pub proof fn law_ready_receptions_are_complete(reception: ReceptionModel)
    requires
        sound(reception),
        reception.step is Ready,
    ensures
        reception.manifest matches Some(found) && manifest::names_all(
            found.files@,
            reception.staged,
        ),
        forall|name: Seq<char>|
            #![trigger reception.staged.contains(name)]
            reception.staged.contains(name) <==> reception.declared.contains(name),
{
    let found = reception.manifest->0;
    manifest::law_complete_publications_assemble(found, reception.declared, reception.staged);
    assert forall|name: Seq<char>| #![trigger reception.staged.contains(name)]
        reception.staged.contains(name) <==> reception.declared.contains(name) by {
        manifest::lemma_complete_lists(reception.declared, reception.staged, name);
    }
}

/// The reception of one publication.
#[derive(Debug)]
pub struct Reception {
    bytes: Vec<u8>,
    manifest: Option<PublicationManifest>,
    ledger: PartLedger,
    blobs: Vec<StagedPublicationBlob>,
    step: ReceiveStep,
}

impl View for Reception {
    type V = ReceptionModel;

    closed spec fn view(&self) -> ReceptionModel {
        ReceptionModel {
            bytes: self.bytes@,
            manifest: self.manifest,
            declared: self.ledger.declared(),
            staged: self.ledger.staged(),
            blobs: self.blobs@,
            step: self.step@,
        }
    }
}

impl Reception {
    #[verifier::type_invariant]
    spec fn holds(self) -> bool {
        sound(self@)
    }

    /// Starts to receive a publication.
    pub fn start() -> (reception: Self)
        ensures
            reception@ == expectant(),
    {
        let ledger = PartLedger::open(Vec::new());
        proof {
            assert(ledger.declared() =~= Seq::<Seq<char>>::empty());
        }
        Reception {
            bytes: Vec::new(),
            manifest: None,
            ledger,
            blobs: Vec::new(),
            step: ReceiveStep::AwaitManifest,
        }
    }

    /// What the reception waits for.
    pub fn step(&self) -> (step: &ReceiveStep)
        ensures
            step@ == self@.step,
    {
        &self.step
    }

    /// The manifest, once it was accepted.
    pub fn manifest(&self) -> (found: Option<&PublicationManifest>)
        ensures
            match found {
                Some(found) => self@.manifest == Some(*found),
                None => self@.manifest is None,
            },
    {
        match &self.manifest {
            Some(found) => Some(found),
            None => None,
        }
    }

    fn first(field: FieldAnswer) -> (step: ReceiveStep)
        ensures
            step@ == after_first(field),
    {
        let checked = match &field {
            FieldAnswer::Interrupted => {
                return ReceiveStep::Failed(manifest::interrupted_multipart());
            },
            FieldAnswer::End => manifest::check_first_part(false, None),
            FieldAnswer::Part(name) => match name {
                Some(value) => manifest::check_first_part(true, Some(value.as_str())),
                None => manifest::check_first_part(true, None),
            },
        };
        match checked {
            Ok(_) => ReceiveStep::ReadManifest,
            Err(answer) => ReceiveStep::Failed(answer),
        }
    }

    fn next(ledger: &PartLedger, field: FieldAnswer) -> (step: ReceiveStep)
        ensures
            step@ == after_part(ledger.declared(), ledger.staged(), field),
    {
        match field {
            FieldAnswer::Interrupted => ReceiveStep::Failed(manifest::interrupted_multipart()),
            FieldAnswer::End => match ledger.check_complete() {
                Ok(_) => ReceiveStep::Ready,
                Err(answer) => ReceiveStep::Failed(answer),
            },
            FieldAnswer::Part(name) => match name {
                Some(value) => match ledger.check_part(Some(value.as_str())) {
                    Ok(_) => ReceiveStep::StagePart(value),
                    Err(answer) => ReceiveStep::Failed(answer),
                },
                None => match ledger.check_part(None) {
                    Ok(_) => ReceiveStep::AwaitPart,
                    Err(answer) => ReceiveStep::Failed(answer),
                },
            },
        }
    }

    /// The reception after what it was told.
    pub fn advance(self, answer: ReceiveAnswer) -> (next: Self)
        ensures
            next@ == received(self@, answer),
    {
        proof {
            use_type_invariant(&self);
            law_receptions_stay_sound(self@, answer);
        }
        let ghost before = self@;
        let Reception { mut bytes, manifest: known, mut ledger, mut blobs, step } = self;
        match (step, answer) {
            (ReceiveStep::AwaitManifest, ReceiveAnswer::Field(field)) => {
                let step = Self::first(field);
                Reception { bytes, manifest: known, ledger, blobs, step }
            },
            (ReceiveStep::ReadManifest, ReceiveAnswer::Piece(piece)) => {
                let step = match piece {
                    PieceAnswer::Interrupted => ReceiveStep::Failed(
                        manifest::interrupted_multipart(),
                    ),
                    PieceAnswer::End => match manifest::manifest_text(&bytes) {
                        Ok(content) => ReceiveStep::ParseManifest(content),
                        Err(answer) => ReceiveStep::Failed(answer),
                    },
                    PieceAnswer::Piece(more) => match manifest::extend_manifest(&mut bytes, &more) {
                        Ok(_) => ReceiveStep::ReadManifest,
                        Err(answer) => ReceiveStep::Failed(answer),
                    },
                };
                Reception { bytes, manifest: known, ledger, blobs, step }
            },
            (ReceiveStep::ParseManifest(_), ReceiveAnswer::Parsed(parsed)) => match parsed {
                None => {
                    let step = ReceiveStep::Failed(manifest::malformed_manifest());
                    Reception { bytes, manifest: known, ledger, blobs, step }
                },
                Some(found) => match manifest::validate_manifest(&found) {
                    Err(answer) => Reception {
                        bytes,
                        manifest: known,
                        ledger,
                        blobs,
                        step: ReceiveStep::Failed(answer),
                    },
                    Ok(names) => {
                        proof {
                            manifest::law_declared_parts_are_unique(found);
                            assert(ledger.staged() =~= Seq::<Seq<char>>::empty());
                        }
                        Reception {
                            bytes,
                            manifest: Some(found),
                            ledger: PartLedger::open(names),
                            blobs,
                            step: ReceiveStep::AwaitPart,
                        }
                    },
                },
            },
            (ReceiveStep::AwaitPart, ReceiveAnswer::Field(field)) => {
                let step = Self::next(&ledger, field);
                Reception { bytes, manifest: known, ledger, blobs, step }
            },
            (ReceiveStep::StagePart(name), ReceiveAnswer::Staged(staged)) => match staged {
                StageAnswer::Interrupted => Reception {
                    bytes,
                    manifest: known,
                    ledger,
                    blobs,
                    step: ReceiveStep::Failed(manifest::interrupted_multipart()),
                },
                StageAnswer::Refused(answer) => Reception {
                    bytes,
                    manifest: known,
                    ledger,
                    blobs,
                    step: ReceiveStep::Failed(answer),
                },
                StageAnswer::Staged(blob) => {
                    ledger.stage(name.as_str());
                    blobs.push(blob);
                    Reception {
                        bytes,
                        manifest: known,
                        ledger,
                        blobs,
                        step: ReceiveStep::AwaitPart,
                    }
                },
            },
            (step, _) => Reception { bytes, manifest: known, ledger, blobs, step },
        }
    }

    /// The request that the publication makes for a session, once everything arrived.
    pub fn request(&self, session_public_id: &str) -> (result: Option<PublicationRequest>)
        ensures
            result is Some <==> self@.step is Ready,
            result matches Some(request) ==> manifest::request_matches(
                request,
                session_public_id@,
                self@.manifest->0,
                self@.staged,
                self@.blobs,
            ),
    {
        proof {
            use_type_invariant(self);
        }
        match (&self.step, &self.manifest) {
            (ReceiveStep::Ready, Some(found)) => {
                proof {
                    law_ready_receptions_are_complete(self@);
                }
                manifest::assemble_request(found, &self.ledger, &self.blobs, session_public_id)
            },
            _ => None,
        }
    }
}

} // verus!
