//! Resolving a session: finding it by its identity, or making it under a free public identifier.
use vstd::prelude::*;
use crate::api::paths;
use crate::storage::error::StoreError;
use crate::storage::session;
use crate::storage::session::{CandidateOutcome, CandidateSearch, SessionRecord};
use crate::storage::tables;
use crate::storage::tables::{ProjectRow, SessionRow, Tables};

verus! {

/// What is to be done next, inside one immediate transaction. Where nothing else is said, the
/// answer is `Done` or `Failed`.
#[derive(Debug, Clone, Copy, PartialEq, Eq, Structural)]
pub enum ResolveStep {
    /// Insert the project of the working directory with its label, or replace the label of the one
    /// that is there.
    KeepProject,
    /// Find the project of the working directory; answer `Project`.
    FindProject,
    /// Find the session of the namespace, the key and the project; answer `Session`.
    FindSession { project_id: i64 },
    /// Make an identifier of this length and insert a session under it, unless one has it; answer
    /// `Offered`.
    Offer { project_id: i64, length: usize },
    /// Commit the transaction.
    Commit,
    /// Nothing: the session is resolved.
    Resolved,
    /// Nothing but to roll the transaction back.
    Unresolved,
}

/// What came of a step.
#[derive(Debug)]
pub enum ResolveAnswer {
    Done,
    Project(i64),
    Session(Option<SessionRecord>),
    /// The identifier that was offered, how many rows were inserted, and the number of the row.
    Offered { candidate: String, inserted: usize, session_id: i64 },
    Failed(StoreError),
}

/// The resolving of one session: the next step, the session once it is known, and why there is
/// none.
#[derive(Debug)]
pub struct Resolving {
    pub step: ResolveStep,
    pub session: Option<SessionRecord>,
    pub fault: Option<StoreError>,
}

/// The resolving before its first step.
pub open spec fn unresolved() -> Resolving {
    Resolving { step: ResolveStep::KeepProject, session: None, fault: None }
}

/// The resolving at another step.
pub open spec fn at(run: Resolving, step: ResolveStep) -> Resolving {
    Resolving { step, ..run }
}

/// The resolving once the session is known.
pub open spec fn with_session(run: Resolving, session: SessionRecord) -> Resolving {
    Resolving { step: ResolveStep::Commit, session: Some(session), ..run }
}

/// The resolving after a failure.
pub open spec fn failed(run: Resolving, error: StoreError) -> Resolving {
    Resolving { step: ResolveStep::Unresolved, fault: Some(error), ..run }
}

/// The resolving after the answer to its step; unchanged where that is not one to the step. A
/// session that is there is taken as it is. Otherwise identifiers are offered, each one character
/// longer than the one before, until one is free.
pub open spec fn resolve_after(run: Resolving, answer: ResolveAnswer) -> Resolving {
    match (run.step, answer) {
        (ResolveStep::Resolved, _) => run,
        (ResolveStep::Unresolved, _) => run,
        (_, ResolveAnswer::Failed(error)) => failed(run, error),
        (ResolveStep::KeepProject, ResolveAnswer::Done) => at(run, ResolveStep::FindProject),
        (ResolveStep::FindProject, ResolveAnswer::Project(project_id)) => at(
            run,
            ResolveStep::FindSession { project_id },
        ),
        (ResolveStep::FindSession { project_id }, ResolveAnswer::Session(found)) => match found {
            Some(session) => with_session(run, session),
            None => at(
                run,
                ResolveStep::Offer { project_id, length: session::INITIAL_PUBLIC_ID_LENGTH },
            ),
        },
        (
            ResolveStep::Offer { project_id, length },
            ResolveAnswer::Offered { candidate, inserted, session_id },
        ) => if inserted == 1 {
            with_session(
                run,
                SessionRecord { id: session_id, public_id: candidate, project_id },
            )
        } else if length == usize::MAX {
            failed(run, StoreError::PublicIdExhausted)
        } else {
            at(run, ResolveStep::Offer { project_id, length: (length + 1) as usize })
        },
        (ResolveStep::Commit, ResolveAnswer::Done) => at(run, ResolveStep::Resolved),
        _ => run,
    }
}

impl Resolving {
    /// Starts to resolve a session.
    pub fn start() -> (run: Self)
        ensures
            run == unresolved(),
    {
        Resolving { step: ResolveStep::KeepProject, session: None, fault: None }
    }

    /// The resolving after the answer to its step.
    pub fn advance(self, answer: ResolveAnswer) -> (next: Self)
        ensures
            next == resolve_after(self, answer),
    {
        let Resolving { step, session, fault } = self;
        match (step, answer) {
            (ResolveStep::Resolved, _) => Resolving { step, session, fault },
            (ResolveStep::Unresolved, _) => Resolving { step, session, fault },
            (_, ResolveAnswer::Failed(error)) => Resolving {
                step: ResolveStep::Unresolved,
                session,
                fault: Some(error),
            },
            (ResolveStep::KeepProject, ResolveAnswer::Done) => Resolving {
                step: ResolveStep::FindProject,
                session,
                fault,
            },
            (ResolveStep::FindProject, ResolveAnswer::Project(project_id)) => Resolving {
                step: ResolveStep::FindSession { project_id },
                session,
                fault,
            },
            (ResolveStep::FindSession { project_id }, ResolveAnswer::Session(found)) => {
                match found {
                    Some(known) => Resolving {
                        step: ResolveStep::Commit,
                        session: Some(known),
                        fault,
                    },
                    None => Resolving {
                        step: ResolveStep::Offer {
                            project_id,
                            length: session::INITIAL_PUBLIC_ID_LENGTH,
                        },
                        session,
                        fault,
                    },
                }
            },
            (
                ResolveStep::Offer { project_id, length },
                ResolveAnswer::Offered { candidate, inserted, session_id },
            ) => {
                let mut search = CandidateSearch { length };
                match search.offered(candidate, inserted, session_id, project_id) {
                    Ok(CandidateOutcome::Accepted(known)) => Resolving {
                        step: ResolveStep::Commit,
                        session: Some(known),
                        fault,
                    },
                    Ok(CandidateOutcome::Collided) => Resolving {
                        step: ResolveStep::Offer { project_id, length: search.length },
                        session,
                        fault,
                    },
                    Err(error) => Resolving {
                        step: ResolveStep::Unresolved,
                        session,
                        fault: Some(error),
                    },
                }
            },
            (ResolveStep::Commit, ResolveAnswer::Done) => Resolving {
                step: ResolveStep::Resolved,
                session,
                fault,
            },
            _ => Resolving { step, session, fault },
        }
    }

    /// The session, once it is resolved; or why it is not. None while the resolving goes on.
    pub fn into_outcome(self) -> (outcome: Option<Result<SessionRecord, StoreError>>)
        ensures
            outcome == (match (self.step, self.session, self.fault) {
                (ResolveStep::Resolved, Some(session), _) => Some(Ok(session)),
                (ResolveStep::Unresolved, _, Some(error)) => Some(Err(error)),
                _ => None,
            }),
    {
        match (self.step, self.session, self.fault) {
            (ResolveStep::Resolved, Some(session), _) => Some(Ok(session)),
            (ResolveStep::Unresolved, _, Some(error)) => Some(Err(error)),
            _ => None,
        }
    }
}

// ---- what it does to the tables ----

/// Which session is resolved, under which label of its project, and when.
pub struct Identity {
    pub integration_namespace: Seq<char>,
    pub external_key: Seq<char>,
    pub project_label: Seq<char>,
    pub working_directory: Seq<char>,
    pub created_at: i64,
}

/// The row of the project.
pub open spec fn project_row(who: Identity) -> ProjectRow {
    ProjectRow { label: who.project_label, working_directory: who.working_directory }
}

/// Whether the row is that of the session of the project.
pub open spec fn is_identity(row: SessionRow, who: Identity, project_id: i64) -> bool {
    &&& row.integration_namespace == who.integration_namespace
    &&& row.external_key == who.external_key
    &&& row.project_id == project_id
}

/// Whether the project with the number was inserted, or had its label replaced.
pub open spec fn project_kept(before: Tables, after: Tables, who: Identity, id: i64) -> bool {
    &&& after == (Tables { projects: before.projects.insert(id, project_row(who)), ..before })
    &&& before.projects.contains_key(id) ==> before.projects[id].working_directory
        == who.working_directory
    &&& forall|other: i64| #[trigger]
        before.projects.contains_key(other) && before.projects[other].working_directory
            == who.working_directory ==> other == id
}

/// Whether the session's row is there, as the record says.
pub open spec fn records(t: Tables, who: Identity, session: SessionRecord) -> bool {
    &&& t.sessions.contains_key(session.id)
    &&& t.sessions[session.id].public_id == session.public_id@
    &&& is_identity(t.sessions[session.id], who, session.project_id)
}

/// Whether the step did to the tables what it says, and was answered accordingly.
pub open spec fn performed(
    who: Identity,
    step: ResolveStep,
    answer: ResolveAnswer,
    before: Tables,
    after: Tables,
) -> bool {
    match (step, answer) {
        (ResolveStep::KeepProject, ResolveAnswer::Done) => exists|id: i64| #[trigger]
            project_kept(before, after, who, id),
        (ResolveStep::FindProject, ResolveAnswer::Project(id)) => {
            &&& after == before
            &&& before.projects.contains_key(id)
            &&& before.projects[id].working_directory == who.working_directory
        },
        (ResolveStep::FindSession { project_id }, ResolveAnswer::Session(found)) => {
            &&& after == before
            &&& match found {
                Some(session) => session.project_id == project_id && records(before, who, session),
                None => forall|id: i64| #[trigger]
                    before.sessions.contains_key(id) ==> !is_identity(
                        before.sessions[id],
                        who,
                        project_id,
                    ),
            }
        },
        (
            ResolveStep::Offer { project_id, length },
            ResolveAnswer::Offered { candidate, inserted, session_id },
        ) => {
            &&& candidate@.len() == length
            &&& session::is_public_id(candidate@)
            &&& if inserted == 1 {
                &&& !before.sessions.contains_key(session_id)
                &&& forall|id: i64| #[trigger]
                    before.sessions.contains_key(id) ==> before.sessions[id].public_id != candidate@
                &&& after == (Tables {
                    sessions: before.sessions.insert(
                        session_id,
                        SessionRow {
                            public_id: candidate@,
                            integration_namespace: who.integration_namespace,
                            external_key: who.external_key,
                            project_id,
                            created_at: who.created_at,
                            last_activity_at: who.created_at,
                        },
                    ),
                    ..before
                })
            } else {
                after == before
            }
        },
        _ => after == before,
    }
}

/// Whether these are the runs, the answers and the tables of one resolving, step by step.
pub open spec fn resolves(
    who: Identity,
    runs: Seq<Resolving>,
    answers: Seq<ResolveAnswer>,
    all: Seq<Tables>,
) -> bool {
    &&& runs.len() == answers.len() + 1
    &&& all.len() == runs.len()
    &&& runs[0] == unresolved()
    &&& forall|k: int|
        0 <= k < answers.len() ==> {
            &&& runs[k + 1] == resolve_after(runs[k], #[trigger] answers[k])
            &&& performed(who, runs[k].step, answers[k], all[k], all[k + 1])
        }
}

/// What holds at every step of a resolving that has not failed: the project's label is the new
/// one, and the session is the one that was there, or a new one.
pub open spec fn under_way(who: Identity, first: Tables, run: Resolving, now: Tables) -> bool {
    match run.step {
        ResolveStep::KeepProject => now == first && run.session is None,
        ResolveStep::FindProject => {
            &&& run.session is None
            &&& exists|id: i64| #[trigger] project_kept(first, now, who, id)
        },
        ResolveStep::FindSession { project_id } => {
            &&& run.session is None
            &&& project_kept(first, now, who, project_id)
        },
        ResolveStep::Offer { project_id, length } => {
            &&& run.session is None
            &&& length >= session::INITIAL_PUBLIC_ID_LENGTH
            &&& project_kept(first, now, who, project_id)
            &&& forall|id: i64| #[trigger]
                now.sessions.contains_key(id) ==> !is_identity(now.sessions[id], who, project_id)
        },
        ResolveStep::Commit | ResolveStep::Resolved => {
            &&& run.session matches Some(session)
            &&& finished(who, first, session, now)
        },
        ResolveStep::Unresolved => true,
    }
}

/// What a resolving leaves behind: the project with the new label, and the session, which was
/// there before or is new under an identifier of six or more characters. Nothing else changes.
pub open spec fn finished(who: Identity, first: Tables, session: SessionRecord, now: Tables) -> bool {
    &&& records(now, who, session)
    &&& now.projects == first.projects.insert(session.project_id, project_row(who))
    &&& first.projects.contains_key(session.project_id)
        ==> first.projects[session.project_id].working_directory == who.working_directory
    &&& forall|other: i64| #[trigger]
        first.projects.contains_key(other) && first.projects[other].working_directory
            == who.working_directory ==> other == session.project_id
    &&& first.sessions.contains_key(session.id) ==> now.sessions == first.sessions
    &&& !first.sessions.contains_key(session.id) ==> {
        &&& now.sessions == first.sessions.insert(session.id, now.sessions[session.id])
        &&& paths::names_session_page(session.public_id@)
        &&& forall|id: i64| #[trigger]
            first.sessions.contains_key(id) ==> first.sessions[id].public_id != session.public_id@
                && !is_identity(first.sessions[id], who, session.project_id)
    }
    &&& now == (Tables { projects: now.projects, sessions: now.sessions, ..first })
}

proof fn lemma_step(
    who: Identity,
    first: Tables,
    run: Resolving,
    answer: ResolveAnswer,
    before: Tables,
    after: Tables,
)
    requires
        tables::directories_differ(first),
        under_way(who, first, run, before),
        performed(who, run.step, answer, before, after),
    ensures
        under_way(who, first, resolve_after(run, answer), after),
{
    match (run.step, answer) {
        (ResolveStep::FindProject, ResolveAnswer::Project(found)) => {
            let id = choose|id: i64| #[trigger] project_kept(first, before, who, id);
            if found != id {
                assert(first.projects.contains_key(found));
            }
        },
        _ => {},
    }
}

proof fn lemma_run(
    who: Identity,
    runs: Seq<Resolving>,
    answers: Seq<ResolveAnswer>,
    all: Seq<Tables>,
    k: int,
)
    requires
        resolves(who, runs, answers, all),
        tables::directories_differ(all[0]),
        0 <= k < runs.len(),
    ensures
        under_way(who, all[0], runs[k], all[k]),
    decreases k,
{
    if k > 0 {
        lemma_run(who, runs, answers, all, k - 1);
        lemma_step(who, all[0], runs[k - 1], answers[k - 1], all[k - 1], all[k]);
    }
}

/// A session that was resolved is recorded under its identity in the project of its working
/// directory, whose label is the one that was given. A new session has a public identifier of six
/// or more characters of Base58 that no other session has; no other session changes.
pub proof fn law_resolved_sessions_are_recorded(
    who: Identity,
    runs: Seq<Resolving>,
    answers: Seq<ResolveAnswer>,
    all: Seq<Tables>,
)
    requires
        resolves(who, runs, answers, all),
        tables::well_kept(all[0]),
        runs.last().step is Resolved,
    ensures
        runs.last().session matches Some(session) && finished(who, all[0], session, all.last()),
        tables::well_kept(all.last()),
{
    lemma_run(who, runs, answers, all, runs.len() - 1);
    let first = all[0];
    let now = all.last();
    let session = runs.last().session->0;
    assert(finished(who, first, session, now));
    assert(tables::directories_differ(now)) by {
        assert forall|a: i64, b: i64|
            #![trigger now.projects[a], now.projects[b]]
            now.projects.contains_key(a) && now.projects.contains_key(b)
                && now.projects[a].working_directory
                == now.projects[b].working_directory implies a == b by {
            if a != session.project_id && b != session.project_id {
                assert(first.projects[a] == now.projects[a]);
                assert(first.projects[b] == now.projects[b]);
            } else if a != session.project_id {
                assert(first.projects.contains_key(a));
            } else if b != session.project_id {
                assert(first.projects.contains_key(b));
            }
        }
    }
    if !first.sessions.contains_key(session.id) {
        assert forall|a: i64, b: i64|
            #![trigger now.sessions[a], now.sessions[b]]
            now.sessions.contains_key(a) && now.sessions.contains_key(b) && (
            now.sessions[a].public_id == now.sessions[b].public_id || (
            now.sessions[a].integration_namespace == now.sessions[b].integration_namespace
                && now.sessions[a].external_key == now.sessions[b].external_key
                && now.sessions[a].project_id == now.sessions[b].project_id)) implies a == b by {
            if a != session.id && b != session.id {
                assert(first.sessions[a] == now.sessions[a]);
                assert(first.sessions[b] == now.sessions[b]);
            } else if a != session.id {
                assert(first.sessions.contains_key(a));
            } else if b != session.id {
                assert(first.sessions.contains_key(b));
            }
        }
    }
}

/// Resolving a session again, while it is there, gives the same session; the label of its project
/// is the later one, and no session changes.
pub proof fn law_resolving_again_gives_the_same_session(
    who: Identity,
    known: SessionRecord,
    runs: Seq<Resolving>,
    answers: Seq<ResolveAnswer>,
    all: Seq<Tables>,
)
    requires
        resolves(who, runs, answers, all),
        tables::well_kept(all[0]),
        records(all[0], who, known),
        all[0].projects.contains_key(known.project_id),
        all[0].projects[known.project_id].working_directory == who.working_directory,
        runs.last().step is Resolved,
    ensures
        runs.last().session matches Some(session) && session.id == known.id && session.public_id@
            == known.public_id@ && session.project_id == known.project_id,
        all.last().sessions == all[0].sessions,
        all.last().projects == all[0].projects.insert(known.project_id, project_row(who)),
{
    lemma_run(who, runs, answers, all, runs.len() - 1);
    let first = all[0];
    let session = runs.last().session->0;
    assert(finished(who, first, session, all.last()));
    assert(session.project_id == known.project_id);
    assert(first.sessions.contains_key(known.id));
    if !first.sessions.contains_key(session.id) {
        assert(!is_identity(first.sessions[known.id], who, session.project_id));
    }
    assert(is_identity(first.sessions[session.id], who, known.project_id));
    assert(first.sessions[session.id].integration_namespace
        == first.sessions[known.id].integration_namespace);
}

/// Where every session has a public identifier of six or more characters of Base58, every session
/// has one at each step of a resolving.
pub proof fn law_public_ids_stay_proper(
    who: Identity,
    runs: Seq<Resolving>,
    answers: Seq<ResolveAnswer>,
    all: Seq<Tables>,
    k: int,
)
    requires
        resolves(who, runs, answers, all),
        tables::directories_differ(all[0]),
        tables::public_ids_are_proper(all[0]),
        0 <= k < all.len(),
    ensures
        tables::public_ids_are_proper(all[k]),
    decreases k,
{
    if k > 0 {
        law_public_ids_stay_proper(who, runs, answers, all, k - 1);
        lemma_run(who, runs, answers, all, k - 1);
        assert(performed(who, runs[k - 1].step, answers[k - 1], all[k - 1], all[k]));
    }
}

/// The session that a resolving gives has a public identifier of six or more characters of Base58,
/// whether it was there before or is new.
pub proof fn law_resolved_public_ids_are_proper(
    who: Identity,
    runs: Seq<Resolving>,
    answers: Seq<ResolveAnswer>,
    all: Seq<Tables>,
)
    requires
        resolves(who, runs, answers, all),
        tables::directories_differ(all[0]),
        tables::public_ids_are_proper(all[0]),
        runs.last().step is Resolved,
    ensures
        runs.last().session matches Some(session) && paths::names_session_page(session.public_id@),
{
    law_public_ids_stay_proper(who, runs, answers, all, runs.len() - 1);
    lemma_run(who, runs, answers, all, runs.len() - 1);
}

} // verus!
