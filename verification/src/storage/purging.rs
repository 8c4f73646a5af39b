//! The removal of sessions with all that is theirs: which rows go, in which order, and the count
//! of them.
use vstd::prelude::*;
use crate::storage::error::StoreError;
use crate::storage::lifecycle;
use crate::storage::lifecycle::{LifecycleReport, SessionContents};
use crate::storage::order;
use crate::storage::tables;
use crate::storage::tables::Tables;
use crate::text;

verus! {

/// What is to be done next, inside one immediate transaction. Where nothing else is said, the
/// answer is `Rows`, with the number of rows that changed, or `Failed`.
#[derive(Debug, Clone, Copy, PartialEq, Eq, Structural)]
pub enum PurgeStep {
    /// Look at what belongs to the session; answer `Contents` or `Failed`.
    LookAt { target: usize, session_id: i64 },
    /// Remove the session, and with it its posts and all that is theirs.
    RemoveSession { target: usize, session_id: i64 },
    /// Remove the project, unless it has a session.
    RemoveProject { project: usize, project_id: i64 },
    /// Queue the blob with this number for deletion, unless it is queued or something refers to
    /// it.
    Queue { blob: usize },
    /// Commit the transaction; answer `Done` or `Failed`.
    Commit,
    /// Nothing: the sessions are removed.
    Purged,
    /// Nothing but to roll the transaction back.
    NotPurged,
}

/// What came of a step.
#[derive(Debug)]
pub enum PurgeAnswer {
    Contents(SessionContents),
    Rows(u64),
    Done,
    Failed(StoreError),
}

/// The removal of sessions: their numbers, the report so far, the projects and blobs that may be
/// left over, each once and in order, the next step, and why it failed.
#[derive(Debug)]
pub struct Purging {
    pub targets: Vec<i64>,
    pub report: LifecycleReport,
    pub project_ids: Vec<i64>,
    pub blob_hashes: Vec<String>,
    pub step: PurgeStep,
    pub fault: Option<StoreError>,
}

/// The model of a purge.
pub struct PurgeModel {
    pub targets: Seq<i64>,
    pub report: LifecycleReport,
    pub project_ids: Seq<i64>,
    pub blob_hashes: Seq<Seq<char>>,
    pub step: PurgeStep,
    pub fault: Option<StoreError>,
}

impl View for Purging {
    type V = PurgeModel;

    open spec fn view(&self) -> PurgeModel {
        PurgeModel {
            targets: self.targets@,
            report: self.report,
            project_ids: self.project_ids@,
            blob_hashes: text::texts(self.blob_hashes@),
            step: self.step,
            fault: self.fault,
        }
    }
}

/// The queueing of blob number `i`, or the commit after the last.
pub open spec fn queue_from(m: PurgeModel, i: int) -> PurgeStep {
    if i < m.blob_hashes.len() {
        PurgeStep::Queue { blob: i as usize }
    } else {
        PurgeStep::Commit
    }
}

/// The removal of project number `i`, or what comes after the last.
pub open spec fn projects_from(m: PurgeModel, i: int) -> PurgeStep {
    if i < m.project_ids.len() {
        PurgeStep::RemoveProject { project: i as usize, project_id: m.project_ids[i] }
    } else {
        queue_from(m, 0)
    }
}

/// The removal of session number `i`, or what comes after the last.
pub open spec fn sessions_from(m: PurgeModel, i: int) -> PurgeStep {
    if i < m.targets.len() {
        PurgeStep::RemoveSession { target: i as usize, session_id: m.targets[i] }
    } else {
        projects_from(m, 0)
    }
}

/// The look at session number `i`, or what comes after the last.
pub open spec fn look_from(m: PurgeModel, i: int) -> PurgeStep {
    if i < m.targets.len() {
        PurgeStep::LookAt { target: i as usize, session_id: m.targets[i] }
    } else {
        sessions_from(m, 0)
    }
}

/// A purge before its first step.
pub open spec fn unpurged(targets: Seq<i64>) -> PurgeModel {
    let m = PurgeModel {
        targets,
        report: lifecycle::empty_report(),
        project_ids: Seq::empty(),
        blob_hashes: Seq::empty(),
        step: PurgeStep::Commit,
        fault: None,
    };
    PurgeModel { step: look_from(m, 0), ..m }
}

/// Whether the parts of a purge agree: what may be left over is listed in order and each once, and
/// the step speaks of what is there.
pub open spec fn sound(m: PurgeModel) -> bool {
    &&& order::ascends(m.project_ids)
    &&& order::texts_ascend(m.blob_hashes)
    &&& match m.step {
        PurgeStep::LookAt { target, session_id } | PurgeStep::RemoveSession {
            target,
            session_id,
        } => target < m.targets.len() && session_id == m.targets[target as int],
        PurgeStep::RemoveProject { project, project_id } => project < m.project_ids.len()
            && project_id == m.project_ids[project as int],
        PurgeStep::Queue { blob } => blob < m.blob_hashes.len(),
        _ => true,
    }
}

/// Whether the answer can still be counted.
pub open spec fn has_room(m: PurgeModel, answer: PurgeAnswer) -> bool {
    let report = m.report;
    match (m.step, answer) {
        (PurgeStep::LookAt { .. }, PurgeAnswer::Contents(contents)) => {
            &&& report.posts_deleted + contents.posts <= u64::MAX
            &&& report.post_files_deleted + contents.post_files <= u64::MAX
            &&& report.support_assets_deleted + contents.support_assets <= u64::MAX
            &&& report.blob_references_deleted + contents.blob_references <= u64::MAX
        },
        (PurgeStep::RemoveSession { .. }, PurgeAnswer::Rows(rows)) => report.sessions_deleted + rows
            <= u64::MAX,
        (PurgeStep::RemoveProject { .. }, PurgeAnswer::Rows(rows)) => report.projects_deleted + rows
            <= u64::MAX,
        (PurgeStep::Queue { .. }, PurgeAnswer::Rows(rows)) => report.blobs_queued + rows
            <= u64::MAX,
        _ => true,
    }
}

/// The report with what belongs to one more session.
pub open spec fn counted(report: LifecycleReport, contents: SessionContents) -> LifecycleReport {
    LifecycleReport {
        posts_deleted: (report.posts_deleted + contents.posts) as u64,
        post_files_deleted: (report.post_files_deleted + contents.post_files) as u64,
        support_assets_deleted: (report.support_assets_deleted + contents.support_assets) as u64,
        blob_references_deleted: (report.blob_references_deleted + contents.blob_references) as u64,
        ..report
    }
}

/// Whether `next` is the purge after the answer to its step; unchanged where that is not one to
/// the step. All sessions are looked at before the first one goes; then the projects that lost a
/// session go where none is left, and the blobs that lost a reference are queued.
pub open spec fn follows(m: PurgeModel, answer: PurgeAnswer, next: PurgeModel) -> bool {
    let report = m.report;
    match (m.step, answer) {
        (PurgeStep::Purged, _) => next == m,
        (PurgeStep::NotPurged, _) => next == m,
        (_, PurgeAnswer::Failed(error)) => next == (PurgeModel {
            step: PurgeStep::NotPurged,
            fault: Some(error),
            ..m
        }),
        (PurgeStep::LookAt { target, .. }, PurgeAnswer::Contents(contents)) => {
            &&& next == (PurgeModel {
                report: counted(report, contents),
                project_ids: next.project_ids,
                blob_hashes: next.blob_hashes,
                step: look_from(next, target + 1),
                ..m
            })
            &&& order::ascends(next.project_ids)
            &&& next.project_ids.to_set() == m.project_ids.to_set().insert(contents.project_id)
            &&& order::texts_ascend(next.blob_hashes)
            &&& next.blob_hashes.to_set() == m.blob_hashes.to_set().union(
                text::texts(contents.blob_hashes@).to_set(),
            )
        },
        (PurgeStep::RemoveSession { target, .. }, PurgeAnswer::Rows(rows)) => next == (PurgeModel {
            report: LifecycleReport {
                sessions_deleted: (report.sessions_deleted + rows) as u64,
                ..report
            },
            step: sessions_from(m, target + 1),
            ..m
        }),
        (PurgeStep::RemoveProject { project, .. }, PurgeAnswer::Rows(rows)) => next == (PurgeModel {
            report: LifecycleReport {
                projects_deleted: (report.projects_deleted + rows) as u64,
                ..report
            },
            step: projects_from(m, project + 1),
            ..m
        }),
        (PurgeStep::Queue { blob }, PurgeAnswer::Rows(rows)) => next == (PurgeModel {
            report: LifecycleReport { blobs_queued: (report.blobs_queued + rows) as u64, ..report },
            step: queue_from(m, blob + 1),
            ..m
        }),
        (PurgeStep::Commit, PurgeAnswer::Done) => next == (PurgeModel {
            step: PurgeStep::Purged,
            ..m
        }),
        _ => next == m,
    }
}

/// Puts texts in their places in an ordered list, each once.
fn insert_texts(list: &mut Vec<String>, values: &Vec<String>)
    requires
        order::texts_ascend(text::texts(old(list)@)),
    ensures
        order::texts_ascend(text::texts(final(list)@)),
        text::texts(final(list)@).to_set() == text::texts(old(list)@).to_set().union(
            text::texts(values@).to_set(),
        ),
{
    let ghost texts = text::texts(values@);
    let ghost before = text::texts(list@).to_set();
    let mut i: usize = 0;
    assert(texts.take(0).to_set() =~= Set::<Seq<char>>::empty());
    while i < values.len()
        invariant
            i <= values.len(),
            texts == text::texts(values@),
            order::texts_ascend(text::texts(list@)),
            text::texts(list@).to_set() == before.union(texts.take(i as int).to_set()),
        decreases values.len() - i,
    {
        order::insert_text(list, values[i].as_str());
        proof {
            lemma_one_more(texts, i as int);
            assert(text::texts(list@).to_set() =~= before.union(texts.take(i + 1).to_set()));
        }
        i += 1;
    }
    assert(texts.take(texts.len() as int) =~= texts);
}

pub proof fn lemma_one_more<T>(s: Seq<T>, i: int)
    requires
        0 <= i < s.len(),
    ensures
        s.take(i + 1).to_set() == s.take(i).to_set().insert(s[i]),
{
    let next = s.take(i + 1);
    assert forall|x: T|
        next.to_set().contains(x) == s.take(i).to_set().insert(s[i]).contains(x) by {
        if next.contains(x) {
            let k = choose|k: int| 0 <= k < next.len() && next[k] == x;
            if k < i {
                assert(s.take(i)[k] == x);
            }
        }
        if s.take(i).contains(x) {
            let k = choose|k: int| 0 <= k < i && s.take(i)[k] == x;
            assert(next[k] == x);
        }
        assert(next[i] == s[i]);
    }
    assert(next.to_set() =~= s.take(i).to_set().insert(s[i]));
}

impl Purging {
    /// Starts to remove the sessions with these numbers.
    pub fn start(targets: Vec<i64>) -> (run: Self)
        ensures
            run@ == unpurged(targets@),
            sound(run@),
    {
        let run = Purging {
            targets,
            report: LifecycleReport::default(),
            project_ids: Vec::new(),
            blob_hashes: Vec::new(),
            step: PurgeStep::Commit,
            fault: None,
        };
        assert(run@.blob_hashes =~= Seq::<Seq<char>>::empty());
        let step = run.look_step(0);
        Purging { step, ..run }
    }

    fn queue_step(&self, i: usize) -> (step: PurgeStep)
        ensures
            step == queue_from(self@, i as int),
    {
        if i < self.blob_hashes.len() {
            PurgeStep::Queue { blob: i }
        } else {
            PurgeStep::Commit
        }
    }

    fn projects_step(&self, i: usize) -> (step: PurgeStep)
        ensures
            step == projects_from(self@, i as int),
    {
        if i < self.project_ids.len() {
            PurgeStep::RemoveProject { project: i, project_id: self.project_ids[i] }
        } else {
            self.queue_step(0)
        }
    }

    fn sessions_step(&self, i: usize) -> (step: PurgeStep)
        ensures
            step == sessions_from(self@, i as int),
    {
        if i < self.targets.len() {
            PurgeStep::RemoveSession { target: i, session_id: self.targets[i] }
        } else {
            self.projects_step(0)
        }
    }

    fn look_step(&self, i: usize) -> (step: PurgeStep)
        ensures
            step == look_from(self@, i as int),
    {
        if i < self.targets.len() {
            PurgeStep::LookAt { target: i, session_id: self.targets[i] }
        } else {
            self.sessions_step(0)
        }
    }

    /// The purge after the answer to its step.
    pub fn advance(self, answer: PurgeAnswer) -> (next: Self)
        requires
            sound(self@),
            has_room(self@, answer),
        ensures
            follows(self@, answer, next@),
            sound(next@),
    {
        let mut run = self;
        match (run.step, answer) {
            (PurgeStep::Purged, _) => {},
            (PurgeStep::NotPurged, _) => {},
            (_, PurgeAnswer::Failed(error)) => {
                run.step = PurgeStep::NotPurged;
                run.fault = Some(error);
            },
            (PurgeStep::LookAt { target, .. }, PurgeAnswer::Contents(contents)) => {
                run.report.posts_deleted = run.report.posts_deleted + contents.posts;
                run.report.post_files_deleted = run.report.post_files_deleted + contents.post_files;
                run.report.support_assets_deleted = run.report.support_assets_deleted
                    + contents.support_assets;
                run.report.blob_references_deleted = run.report.blob_references_deleted
                    + contents.blob_references;
                order::insert_number(&mut run.project_ids, contents.project_id);
                insert_texts(&mut run.blob_hashes, &contents.blob_hashes);
                assert(target < run.targets.len());
                run.step = run.look_step(target + 1);
            },
            (PurgeStep::RemoveSession { target, .. }, PurgeAnswer::Rows(rows)) => {
                run.report.sessions_deleted = run.report.sessions_deleted + rows;
                assert(target < run.targets.len());
                run.step = run.sessions_step(target + 1);
            },
            (PurgeStep::RemoveProject { project, .. }, PurgeAnswer::Rows(rows)) => {
                run.report.projects_deleted = run.report.projects_deleted + rows;
                assert(project < run.project_ids.len());
                run.step = run.projects_step(project + 1);
            },
            (PurgeStep::Queue { blob }, PurgeAnswer::Rows(rows)) => {
                run.report.blobs_queued = run.report.blobs_queued + rows;
                assert(blob < run.blob_hashes.len());
                run.step = run.queue_step(blob + 1);
            },
            (PurgeStep::Commit, PurgeAnswer::Done) => {
                run.step = PurgeStep::Purged;
            },
            _ => {},
        }
        run
    }

    /// The report, once the sessions are removed; or why they are not. None while the purge goes
    /// on.
    pub fn into_outcome(self) -> (outcome: Option<Result<LifecycleReport, StoreError>>)
        ensures
            outcome == (match (self.step, self.fault) {
                (PurgeStep::Purged, _) => Some(Ok(self.report)),
                (PurgeStep::NotPurged, Some(error)) => Some(Err(error)),
                _ => None,
            }),
    {
        match (self.step, self.fault) {
            (PurgeStep::Purged, _) => Some(Ok(self.report)),
            (PurgeStep::NotPurged, Some(error)) => Some(Err(error)),
            _ => None,
        }
    }
}

// ---- what it does to the tables ----

/// The tables without the sessions with these numbers and all that is theirs.
pub open spec fn removed(t: Tables, ids: Set<i64>) -> Tables {
    Tables {
        sessions: t.sessions.remove_keys(tables::gone_sessions(t, ids)),
        posts: t.posts.remove_keys(tables::gone_posts(t, ids)),
        references: t.references.remove_keys(tables::gone_references(t, ids)),
        files: t.files.remove_keys(tables::gone_files(t, ids)),
        assets: t.assets.remove_keys(tables::gone_assets(t, ids)),
        ..t
    }
}

/// Whether the number is that of the rows.
pub open spec fn is_count(n: int, rows: Set<i64>) -> bool {
    rows.finite() && rows.len() == n
}

/// The digests of the blobs that lose a reference.
pub open spec fn losing(t: Tables, ids: Set<i64>) -> Set<Seq<char>> {
    Set::new(|hash: Seq<char>| tables::loses_reference(t, ids, hash))
}

/// The projects that lose a session.
pub open spec fn left(t: Tables, ids: Set<i64>) -> Set<i64> {
    Set::new(|id: i64| tables::loses_session(t, ids, id))
}

/// Whether this is what belongs to the session.
pub open spec fn describes(t: Tables, session_id: i64, contents: SessionContents) -> bool {
    let own = set![session_id];
    &&& t.sessions.contains_key(session_id)
    &&& contents.project_id == t.sessions[session_id].project_id
    &&& is_count(contents.posts as int, tables::gone_posts(t, own))
    &&& is_count(contents.post_files as int, tables::gone_files(t, own))
    &&& is_count(contents.support_assets as int, tables::gone_assets(t, own))
    &&& is_count(contents.blob_references as int, tables::gone_references(t, own))
    &&& text::texts(contents.blob_hashes@).to_set() == losing(t, own)
}

/// Whether the project has a session.
pub open spec fn has_session(t: Tables, project_id: i64) -> bool {
    exists|id: i64| #[trigger]
        t.sessions.contains_key(id) && t.sessions[id].project_id == project_id
}

/// Whether something refers to the blob.
pub open spec fn is_referred(t: Tables, hash: Seq<char>) -> bool {
    exists|id: i64| #[trigger] t.references.contains_key(id) && t.references[id].hash == hash
}

/// Whether the step did to the tables what it says, and was answered accordingly.
pub open spec fn performed(m: PurgeModel, answer: PurgeAnswer, before: Tables, after: Tables) -> bool {
    match (m.step, answer) {
        (PurgeStep::LookAt { session_id, .. }, PurgeAnswer::Contents(contents)) => after == before
            && describes(before, session_id, contents),
        (PurgeStep::RemoveSession { session_id, .. }, PurgeAnswer::Rows(rows)) => {
            &&& after == removed(before, set![session_id])
            &&& rows == (if before.sessions.contains_key(session_id) {
                1int
            } else {
                0
            })
        },
        (PurgeStep::RemoveProject { project_id, .. }, PurgeAnswer::Rows(rows)) => {
            if before.projects.contains_key(project_id) && !has_session(before, project_id) {
                rows == 1 && after == (Tables {
                    projects: before.projects.remove(project_id),
                    ..before
                })
            } else {
                rows == 0 && after == before
            }
        },
        (PurgeStep::Queue { blob }, PurgeAnswer::Rows(rows)) => {
            let hash = m.blob_hashes[blob as int];
            if !is_referred(before, hash) && !before.queue.contains(hash) {
                rows == 1 && after == (Tables { queue: before.queue.insert(hash), ..before })
            } else {
                rows == 0 && after == before
            }
        },
        _ => after == before,
    }
}

/// Whether these are the runs, the answers and the tables of one purge, step by step.
pub open spec fn purges(
    targets: Seq<i64>,
    runs: Seq<PurgeModel>,
    answers: Seq<PurgeAnswer>,
    all: Seq<Tables>,
) -> bool {
    &&& runs.len() == answers.len() + 1
    &&& all.len() == runs.len()
    &&& targets.len() <= usize::MAX
    &&& runs[0] == unpurged(targets)
    &&& forall|k: int|
        0 <= k < runs.len() ==> {
            &&& (#[trigger] runs[k]).project_ids.len() <= usize::MAX
            &&& runs[k].blob_hashes.len() <= usize::MAX
        }
    &&& forall|k: int|
        0 <= k < answers.len() ==> {
            &&& has_room(runs[k], #[trigger] answers[k])
            &&& follows(runs[k], answers[k], runs[k + 1])
            &&& performed(runs[k], answers[k], all[k], all[k + 1])
        }
}

proof fn lemma_disjoint_count(a: Set<i64>, b: Set<i64>, m: int, n: int)
    requires
        is_count(m, a),
        is_count(n, b),
        a.disjoint(b),
    ensures
        is_count(m + n, a.union(b)),
{
    vstd::set_lib::lemma_set_disjoint_lens(a, b);
}

/// What goes with one session more.
proof fn lemma_gone_with_one_more(t: Tables, ids: Set<i64>, id: i64)
    requires
        !ids.contains(id),
    ensures
        tables::gone_posts(t, ids.insert(id)) == tables::gone_posts(t, ids).union(
            tables::gone_posts(t, set![id]),
        ),
        tables::gone_posts(t, ids).disjoint(tables::gone_posts(t, set![id])),
        tables::gone_files(t, ids.insert(id)) == tables::gone_files(t, ids).union(
            tables::gone_files(t, set![id]),
        ),
        tables::gone_files(t, ids).disjoint(tables::gone_files(t, set![id])),
        tables::gone_assets(t, ids.insert(id)) == tables::gone_assets(t, ids).union(
            tables::gone_assets(t, set![id]),
        ),
        tables::gone_assets(t, ids).disjoint(tables::gone_assets(t, set![id])),
        tables::gone_references(t, ids.insert(id)) == tables::gone_references(t, ids).union(
            tables::gone_references(t, set![id]),
        ),
        tables::gone_references(t, ids).disjoint(tables::gone_references(t, set![id])),
        losing(t, ids.insert(id)) == losing(t, ids).union(losing(t, set![id])),
        t.sessions.contains_key(id) ==> left(t, ids.insert(id)) == left(t, ids).insert(
            t.sessions[id].project_id,
        ),
{
    let more = ids.insert(id);
    let one = set![id];
    assert(tables::gone_posts(t, more) =~= tables::gone_posts(t, ids).union(
        tables::gone_posts(t, one),
    ));
    assert(tables::gone_files(t, more) =~= tables::gone_files(t, ids).union(
        tables::gone_files(t, one),
    ));
    assert(tables::gone_assets(t, more) =~= tables::gone_assets(t, ids).union(
        tables::gone_assets(t, one),
    ));
    assert(tables::gone_references(t, more) =~= tables::gone_references(t, ids).union(
        tables::gone_references(t, one),
    ));
    assert forall|hash: Seq<char>|
        tables::loses_reference(t, more, hash) == (tables::loses_reference(t, ids, hash)
            || tables::loses_reference(t, one, hash)) by {
        if tables::loses_reference(t, more, hash) {
            let r = choose|r: i64| #[trigger]
                tables::gone_references(t, more).contains(r) && t.references[r].hash == hash;
            assert(tables::gone_references(t, ids).contains(r) || tables::gone_references(
                t,
                one,
            ).contains(r));
        }
        if tables::loses_reference(t, ids, hash) {
            let r = choose|r: i64| #[trigger]
                tables::gone_references(t, ids).contains(r) && t.references[r].hash == hash;
            assert(tables::gone_references(t, more).contains(r));
        }
        if tables::loses_reference(t, one, hash) {
            let r = choose|r: i64| #[trigger]
                tables::gone_references(t, one).contains(r) && t.references[r].hash == hash;
            assert(tables::gone_references(t, more).contains(r));
        }
    }
    assert(losing(t, more) =~= losing(t, ids).union(losing(t, one)));
    if t.sessions.contains_key(id) {
        assert forall|project_id: i64|
            tables::loses_session(t, more, project_id) == (tables::loses_session(
                t,
                ids,
                project_id,
            ) || project_id == t.sessions[id].project_id) by {
            if tables::loses_session(t, more, project_id) {
                let s = choose|s: i64| #[trigger]
                    tables::gone_sessions(t, more).contains(s) && t.sessions[s].project_id
                        == project_id;
                if s != id {
                    assert(tables::gone_sessions(t, ids).contains(s));
                }
            }
            if tables::loses_session(t, ids, project_id) {
                let s = choose|s: i64| #[trigger]
                    tables::gone_sessions(t, ids).contains(s) && t.sessions[s].project_id
                        == project_id;
                assert(tables::gone_sessions(t, more).contains(s));
            }
            assert(tables::gone_sessions(t, more).contains(id));
        }
        assert(left(t, more) =~= left(t, ids).insert(t.sessions[id].project_id));
    }
}

proof fn lemma_removed_one_more(t: Tables, ids: Set<i64>, id: i64)
    ensures
        removed(removed(t, ids), set![id]) == removed(t, ids.insert(id)),
{
    let then = removed(t, ids);
    let both = removed(t, ids.insert(id));
    let one = set![id];
    assert(removed(then, one).sessions =~= both.sessions);
    assert(removed(then, one).posts =~= both.posts);
    assert(removed(then, one).references =~= both.references);
    assert(removed(then, one).files =~= both.files);
    assert(removed(then, one).assets =~= both.assets);
}

/// The counts of what goes with the sessions, but for the projects and the queue.
pub open spec fn counts_rows(t: Tables, ids: Set<i64>, report: LifecycleReport) -> bool {
    &&& is_count(report.posts_deleted as int, tables::gone_posts(t, ids))
    &&& is_count(report.post_files_deleted as int, tables::gone_files(t, ids))
    &&& is_count(report.support_assets_deleted as int, tables::gone_assets(t, ids))
    &&& is_count(report.blob_references_deleted as int, tables::gone_references(t, ids))
    &&& report.blobs_deleted == 0
}

/// The tables once the sessions and the first `n` projects that may be left over are gone.
pub open spec fn without_projects(t: Tables, ids: Set<i64>, projects: Set<i64>) -> Tables {
    Tables {
        projects: t.projects.remove_keys(tables::gone_projects(t, ids).intersect(projects)),
        ..removed(t, ids)
    }
}

/// The digests of the blobs that lose their last reference.
pub open spec fn unreferred(t: Tables, ids: Set<i64>) -> Set<Seq<char>> {
    Set::new(
        |hash: Seq<char>|
            tables::loses_reference(t, ids, hash) && !tables::keeps_reference(t, ids, hash),
    )
}

/// The tables once these blobs that may be left over are queued too.
pub open spec fn with_queued(t: Tables, ids: Set<i64>, blobs: Set<Seq<char>>) -> Tables {
    Tables {
        queue: t.queue.union(unreferred(t, ids).intersect(blobs)),
        ..without_projects(t, ids, left(t, ids))
    }
}

/// Whether the sessions are there.
pub open spec fn all_there(t: Tables, ids: Seq<i64>) -> bool {
    forall|i: int| 0 <= i < ids.len() ==> t.sessions.contains_key(#[trigger] ids[i])
}

/// What holds once the first `n` sessions were looked at: `t` are the tables when the purge began.
pub open spec fn looked(t: Tables, m: PurgeModel, now: Tables, n: int) -> bool {
    let some = m.targets.take(n).to_set();
    &&& now == t
    &&& all_there(t, m.targets.take(n))
    &&& counts_rows(t, some, m.report)
    &&& m.report.sessions_deleted == 0
    &&& m.report.projects_deleted == 0
    &&& m.report.blobs_queued == 0
    &&& m.project_ids.to_set() == left(t, some)
    &&& m.blob_hashes.to_set() == losing(t, some)
}

/// What holds once the first `n` sessions are gone.
pub open spec fn sessions_gone(t: Tables, m: PurgeModel, now: Tables, n: int) -> bool {
    let ids = m.targets.to_set();
    &&& now == removed(t, m.targets.take(n).to_set())
    &&& all_there(t, m.targets)
    &&& counts_rows(t, ids, m.report)
    &&& m.report.sessions_deleted == n
    &&& m.report.projects_deleted == 0
    &&& m.report.blobs_queued == 0
    &&& m.project_ids.to_set() == left(t, ids)
    &&& m.blob_hashes.to_set() == losing(t, ids)
}

/// What holds once the first `n` projects that may be left over are gone, or have a session.
pub open spec fn projects_gone(t: Tables, m: PurgeModel, now: Tables, n: int) -> bool {
    let ids = m.targets.to_set();
    let some = m.project_ids.take(n).to_set();
    &&& now == without_projects(t, ids, some)
    &&& all_there(t, m.targets)
    &&& counts_rows(t, ids, m.report)
    &&& m.report.sessions_deleted == m.targets.len()
    &&& is_count(m.report.projects_deleted as int, tables::gone_projects(t, ids).intersect(some))
    &&& m.report.blobs_queued == 0
    &&& m.project_ids.to_set() == left(t, ids)
    &&& m.blob_hashes.to_set() == losing(t, ids)
}

/// What holds once the first `n` blobs that may be left over are queued, or something refers to
/// them.
pub open spec fn blobs_queued(t: Tables, m: PurgeModel, now: Tables, n: int) -> bool {
    let ids = m.targets.to_set();
    let some = m.blob_hashes.take(n).to_set();
    let new = unreferred(t, ids).intersect(some).difference(t.queue);
    &&& now == with_queued(t, ids, some)
    &&& all_there(t, m.targets)
    &&& counts_rows(t, ids, m.report)
    &&& m.report.sessions_deleted == m.targets.len()
    &&& is_count(m.report.projects_deleted as int, tables::gone_projects(t, ids))
    &&& new.finite()
    &&& m.report.blobs_queued == new.len()
    &&& m.blob_hashes.to_set() == losing(t, ids)
}

/// What a purge leaves: the tables without the sessions, and the count of all that went.
pub open spec fn is_purged(
    t: Tables,
    targets: Seq<i64>,
    report: LifecycleReport,
    now: Tables,
) -> bool {
    let ids = targets.to_set();
    let new = tables::purged(t, ids).queue.difference(t.queue);
    &&& now == tables::purged(t, ids)
    &&& all_there(t, targets)
    &&& counts_rows(t, ids, report)
    &&& is_count(report.sessions_deleted as int, tables::gone_sessions(t, ids))
    &&& is_count(report.projects_deleted as int, tables::gone_projects(t, ids))
    &&& new.finite()
    &&& report.blobs_queued == new.len()
}

/// What holds at every step of a purge that has not failed.
pub open spec fn under_way(t: Tables, m: PurgeModel, now: Tables) -> bool {
    match m.step {
        PurgeStep::LookAt { target, .. } => looked(t, m, now, target as int),
        PurgeStep::RemoveSession { target, .. } => sessions_gone(t, m, now, target as int),
        PurgeStep::RemoveProject { project, .. } => projects_gone(t, m, now, project as int),
        PurgeStep::Queue { blob } => blobs_queued(t, m, now, blob as int),
        PurgeStep::Commit | PurgeStep::Purged => is_purged(t, m.targets, m.report, now),
        PurgeStep::NotPurged => true,
    }
}

proof fn lemma_at_queue(t: Tables, m: PurgeModel, now: Tables, n: int)
    requires
        m.blob_hashes.len() <= usize::MAX,
        m.targets.no_duplicates(),
        0 <= n <= m.blob_hashes.len(),
        m.step == queue_from(m, n),
        blobs_queued(t, m, now, n),
    ensures
        under_way(t, m, now),
{
    if n == m.blob_hashes.len() {
        let ids = m.targets.to_set();
        assert(m.blob_hashes.take(n) =~= m.blob_hashes);
        assert(unreferred(t, ids).intersect(losing(t, ids)) =~= unreferred(t, ids));
        assert(tables::gone_projects(t, ids).intersect(left(t, ids)) =~= tables::gone_projects(
            t,
            ids,
        ));
        assert(now =~= tables::purged(t, ids));
        assert(tables::purged(t, ids).queue.difference(t.queue) =~= unreferred(t, ids).difference(
            t.queue,
        ));
        assert(tables::gone_sessions(t, ids) =~= ids) by {
            assert forall|id: i64| ids.contains(id) implies t.sessions.contains_key(id) by {
                let i = choose|i: int| 0 <= i < m.targets.len() && m.targets[i] == id;
                assert(t.sessions.contains_key(m.targets[i]));
            }
        }
        m.targets.unique_seq_to_set();
        assert(ids.finite());
    }
}

proof fn lemma_at_projects(t: Tables, m: PurgeModel, now: Tables, n: int)
    requires
        m.project_ids.len() <= usize::MAX,
        m.blob_hashes.len() <= usize::MAX,
        m.targets.no_duplicates(),
        0 <= n <= m.project_ids.len(),
        m.step == projects_from(m, n),
        projects_gone(t, m, now, n),
    ensures
        under_way(t, m, now),
{
    if n == m.project_ids.len() {
        let ids = m.targets.to_set();
        assert(m.project_ids.take(n) =~= m.project_ids);
        assert(tables::gone_projects(t, ids).intersect(left(t, ids)) =~= tables::gone_projects(
            t,
            ids,
        ));
        assert(m.blob_hashes.take(0).to_set() =~= Set::<Seq<char>>::empty());
        assert(unreferred(t, ids).intersect(Set::empty()) =~= Set::<Seq<char>>::empty());
        assert(t.queue.union(Set::empty()) =~= t.queue);
        assert(Set::<Seq<char>>::empty().difference(t.queue) =~= Set::<Seq<char>>::empty());
        assert(now == with_queued(t, ids, m.blob_hashes.take(0).to_set()));
        lemma_at_queue(t, m, now, 0);
    }
}

proof fn lemma_at_sessions(t: Tables, m: PurgeModel, now: Tables, n: int)
    requires
        m.targets.len() <= usize::MAX,
        m.project_ids.len() <= usize::MAX,
        m.blob_hashes.len() <= usize::MAX,
        m.targets.no_duplicates(),
        0 <= n <= m.targets.len(),
        m.step == sessions_from(m, n),
        sessions_gone(t, m, now, n),
    ensures
        under_way(t, m, now),
{
    if n == m.targets.len() {
        let ids = m.targets.to_set();
        assert(m.targets.take(n) =~= m.targets);
        assert(m.project_ids.take(0).to_set() =~= Set::<i64>::empty());
        assert(tables::gone_projects(t, ids).intersect(Set::empty()) =~= Set::<i64>::empty());
        assert(t.projects.remove_keys(Set::empty()) =~= t.projects);
        lemma_at_projects(t, m, now, 0);
    }
}

proof fn lemma_at_look(t: Tables, m: PurgeModel, now: Tables, n: int)
    requires
        m.targets.len() <= usize::MAX,
        m.project_ids.len() <= usize::MAX,
        m.blob_hashes.len() <= usize::MAX,
        m.targets.no_duplicates(),
        0 <= n <= m.targets.len(),
        m.step == look_from(m, n),
        looked(t, m, now, n),
    ensures
        under_way(t, m, now),
{
    if n == m.targets.len() {
        assert(m.targets.take(n) =~= m.targets);
        assert(m.targets.take(0).to_set() =~= Set::<i64>::empty());
        lemma_removed_nothing(t);
        lemma_at_sessions(t, m, now, 0);
    }
}

proof fn lemma_removed_nothing(t: Tables)
    ensures
        removed(t, Set::empty()) == t,
{
    tables::law_an_empty_purge_changes_nothing(t);
    assert(removed(t, Set::empty()) =~= t);
}

proof fn lemma_start(t: Tables, targets: Seq<i64>)
    requires
        targets.len() <= usize::MAX,
        targets.no_duplicates(),
    ensures
        under_way(t, unpurged(targets), t),
        sound(unpurged(targets)),
{
    let m = unpurged(targets);
    assert(targets.take(0).to_set() =~= Set::<i64>::empty());
    tables::law_an_empty_purge_changes_nothing(t);
    assert(m.project_ids.to_set() =~= Set::<i64>::empty());
    assert(m.blob_hashes.to_set() =~= Set::<Seq<char>>::empty());
    assert(left(t, Set::empty()) =~= Set::<i64>::empty());
    assert(losing(t, Set::empty()) =~= Set::<Seq<char>>::empty());
    lemma_at_look(t, m, t, 0);
}

proof fn lemma_looked_at_one_more(
    t: Tables,
    m: PurgeModel,
    contents: SessionContents,
    next: PurgeModel,
    now: Tables,
    n: int,
)
    requires
        m.targets.no_duplicates(),
        0 <= n < m.targets.len(),
        looked(t, m, now, n),
        describes(t, m.targets[n], contents),
        next.targets == m.targets,
        next.report == counted(m.report, contents),
        m.report.posts_deleted + contents.posts <= u64::MAX,
        m.report.post_files_deleted + contents.post_files <= u64::MAX,
        m.report.support_assets_deleted + contents.support_assets <= u64::MAX,
        m.report.blob_references_deleted + contents.blob_references <= u64::MAX,
        next.project_ids.to_set() == m.project_ids.to_set().insert(contents.project_id),
        next.blob_hashes.to_set() == m.blob_hashes.to_set().union(
            text::texts(contents.blob_hashes@).to_set(),
        ),
    ensures
        looked(t, next, now, n + 1),
{
    let id = m.targets[n];
    let some = m.targets.take(n).to_set();
    lemma_one_more(m.targets, n);
    if some.contains(id) {
        let i = choose|i: int| 0 <= i < n && m.targets.take(n)[i] == id;
        assert(m.targets[i] == m.targets[n]);
    }
    lemma_gone_with_one_more(t, some, id);
    let own = set![id];
    lemma_disjoint_count(
        tables::gone_posts(t, some),
        tables::gone_posts(t, own),
        m.report.posts_deleted as int,
        contents.posts as int,
    );
    lemma_disjoint_count(
        tables::gone_files(t, some),
        tables::gone_files(t, own),
        m.report.post_files_deleted as int,
        contents.post_files as int,
    );
    lemma_disjoint_count(
        tables::gone_assets(t, some),
        tables::gone_assets(t, own),
        m.report.support_assets_deleted as int,
        contents.support_assets as int,
    );
    lemma_disjoint_count(
        tables::gone_references(t, some),
        tables::gone_references(t, own),
        m.report.blob_references_deleted as int,
        contents.blob_references as int,
    );
    assert forall|i: int| 0 <= i < n + 1 implies t.sessions.contains_key(
        #[trigger] m.targets.take(n + 1)[i],
    ) by {
        if i < n {
            assert(t.sessions.contains_key(m.targets.take(n)[i]));
        }
    }
}

proof fn lemma_project_gone(t: Tables, m: PurgeModel, now: Tables, after: Tables, rows: u64, n: int)
    requires
        order::ascends(m.project_ids),
        0 <= n < m.project_ids.len(),
        projects_gone(t, m, now, n),
        m.step == (PurgeStep::RemoveProject {
            project: n as usize,
            project_id: m.project_ids[n],
        }),
        performed(m, PurgeAnswer::Rows(rows), now, after),
        m.report.projects_deleted + rows <= u64::MAX,
    ensures
        projects_gone(
            t,
            PurgeModel {
                report: LifecycleReport {
                    projects_deleted: (m.report.projects_deleted + rows) as u64,
                    ..m.report
                },
                ..m
            },
            after,
            n + 1,
        ),
{
    let ids = m.targets.to_set();
    let project_id = m.project_ids[n];
    let some = m.project_ids.take(n).to_set();
    let gone = tables::gone_projects(t, ids);
    lemma_one_more(m.project_ids, n);
    assert(m.project_ids.contains(project_id));
    assert(left(t, ids).contains(project_id));
    if some.contains(project_id) {
        let i = choose|i: int| 0 <= i < n && m.project_ids.take(n)[i] == project_id;
        assert(m.project_ids[i] < m.project_ids[n]);
    }
    assert(has_session(now, project_id) == tables::keeps_session(t, ids, project_id)) by {
        if has_session(now, project_id) {
            let id = choose|id: i64| #[trigger]
                now.sessions.contains_key(id) && now.sessions[id].project_id == project_id;
            assert(t.sessions.contains_key(id) && !ids.contains(id));
        }
        if tables::keeps_session(t, ids, project_id) {
            let id = choose|id: i64| #[trigger]
                t.sessions.contains_key(id) && !ids.contains(id) && t.sessions[id].project_id
                    == project_id;
            assert(now.sessions.contains_key(id));
        }
    }
    if gone.contains(project_id) {
        assert(gone.intersect(some.insert(project_id)) =~= gone.intersect(some).insert(project_id));
        assert(after.projects =~= without_projects(t, ids, some.insert(project_id)).projects);
    } else {
        assert(gone.intersect(some.insert(project_id)) =~= gone.intersect(some));
    }
}

proof fn lemma_blob_queued(t: Tables, m: PurgeModel, now: Tables, after: Tables, rows: u64, n: int)
    requires
        order::texts_ascend(m.blob_hashes),
        m.blob_hashes.len() <= usize::MAX,
        0 <= n < m.blob_hashes.len(),
        blobs_queued(t, m, now, n),
        m.step == (PurgeStep::Queue { blob: n as usize }),
        performed(m, PurgeAnswer::Rows(rows), now, after),
        m.report.blobs_queued + rows <= u64::MAX,
    ensures
        blobs_queued(
            t,
            PurgeModel {
                report: LifecycleReport {
                    blobs_queued: (m.report.blobs_queued + rows) as u64,
                    ..m.report
                },
                ..m
            },
            after,
            n + 1,
        ),
{
    let ids = m.targets.to_set();
    let hash = m.blob_hashes[n];
    let some = m.blob_hashes.take(n).to_set();
    let gone = unreferred(t, ids);
    lemma_one_more(m.blob_hashes, n);
    assert(m.blob_hashes.contains(hash));
    assert(losing(t, ids).contains(hash));
    if some.contains(hash) {
        let i = choose|i: int| 0 <= i < n && m.blob_hashes.take(n)[i] == hash;
        order::lemma_texts_differ(m.blob_hashes, i, n);
    }
    assert(is_referred(now, hash) == tables::keeps_reference(t, ids, hash)) by {
        if is_referred(now, hash) {
            let id = choose|id: i64| #[trigger]
                now.references.contains_key(id) && now.references[id].hash == hash;
            assert(t.references.contains_key(id) && !tables::gone_references(t, ids).contains(id));
        }
        if tables::keeps_reference(t, ids, hash) {
            let id = choose|id: i64| #[trigger]
                t.references.contains_key(id) && !tables::gone_references(t, ids).contains(id)
                    && t.references[id].hash == hash;
            assert(now.references.contains_key(id));
        }
    }
    let more = some.insert(hash);
    if gone.contains(hash) {
        assert(gone.intersect(more) =~= gone.intersect(some).insert(hash));
        if t.queue.contains(hash) {
            assert(t.queue.union(gone.intersect(more)) =~= t.queue.union(gone.intersect(some)));
            assert(gone.intersect(more).difference(t.queue) =~= gone.intersect(some).difference(
                t.queue,
            ));
        } else {
            assert(t.queue.union(gone.intersect(more)) =~= t.queue.union(
                gone.intersect(some),
            ).insert(hash));
            assert(gone.intersect(more).difference(t.queue) =~= gone.intersect(some).difference(
                t.queue,
            ).insert(hash));
        }
    } else {
        assert(gone.intersect(more) =~= gone.intersect(some));
    }
}

proof fn lemma_step(
    t: Tables,
    m: PurgeModel,
    answer: PurgeAnswer,
    next: PurgeModel,
    now: Tables,
    after: Tables,
)
    requires
        m.targets.len() <= usize::MAX,
        m.targets.no_duplicates(),
        sound(m),
        m.project_ids.len() <= usize::MAX,
        m.blob_hashes.len() <= usize::MAX,
        next.project_ids.len() <= usize::MAX,
        next.blob_hashes.len() <= usize::MAX,
        has_room(m, answer),
        follows(m, answer, next),
        performed(m, answer, now, after),
        under_way(t, m, now),
    ensures
        under_way(t, next, after),
        sound(next),
{
    match (m.step, answer) {
        (PurgeStep::LookAt { target, .. }, PurgeAnswer::Contents(contents)) => {
            lemma_looked_at_one_more(t, m, contents, next, now, target as int);
            lemma_at_look(t, next, after, target + 1);
        },
        (PurgeStep::RemoveSession { target, session_id }, PurgeAnswer::Rows(rows)) => {
            let some = m.targets.take(target as int).to_set();
            lemma_one_more(m.targets, target as int);
            lemma_removed_one_more(t, some, session_id);
            if some.contains(session_id) {
                let i = choose|i: int|
                    0 <= i < target && m.targets.take(target as int)[i] == session_id;
                assert(m.targets[i] == m.targets[target as int]);
            }
            assert(t.sessions.contains_key(m.targets[target as int]));
            assert(now.sessions.contains_key(session_id));
            lemma_at_sessions(t, next, after, target + 1);
        },
        (PurgeStep::RemoveProject { project, .. }, PurgeAnswer::Rows(rows)) => {
            lemma_project_gone(t, m, now, after, rows, project as int);
            lemma_at_projects(t, next, after, project + 1);
        },
        (PurgeStep::Queue { blob }, PurgeAnswer::Rows(rows)) => {
            lemma_blob_queued(t, m, now, after, rows, blob as int);
            lemma_at_queue(t, next, after, blob + 1);
        },
        _ => {},
    }
}

proof fn lemma_run(
    targets: Seq<i64>,
    runs: Seq<PurgeModel>,
    answers: Seq<PurgeAnswer>,
    all: Seq<Tables>,
    k: int,
)
    requires
        purges(targets, runs, answers, all),
        targets.no_duplicates(),
        0 <= k < runs.len(),
    ensures
        runs[k].targets == targets,
        sound(runs[k]),
        under_way(all[0], runs[k], all[k]),
    decreases k,
{
    if k > 0 {
        lemma_run(targets, runs, answers, all, k - 1);
        assert(runs[k - 1].project_ids.len() <= usize::MAX);
        assert(runs[k].project_ids.len() <= usize::MAX);
        assert(has_room(runs[k - 1], answers[k - 1]));
        lemma_step(all[0], runs[k - 1], answers[k - 1], runs[k], all[k - 1], all[k]);
    } else {
        lemma_start(all[0], targets);
    }
}

/// A purge that ends well removes exactly the sessions that it was given, all of which were there,
/// with their posts and all that is theirs; the projects that lost a session and have none left;
/// and no other. A blob is newly queued exactly where a reference to it went, none is left, and it
/// was not queued before. The report counts all of these, and no deleted blob.
pub proof fn law_a_purge_leaves_the_rest(
    targets: Seq<i64>,
    runs: Seq<PurgeModel>,
    answers: Seq<PurgeAnswer>,
    all: Seq<Tables>,
)
    requires
        purges(targets, runs, answers, all),
        targets.no_duplicates(),
        runs.last().step is Purged,
    ensures
        all.last() == tables::purged(all[0], targets.to_set()),
        is_purged(all[0], targets, runs.last().report, all.last()),
{
    lemma_run(targets, runs, answers, all, runs.len() - 1);
}

/// A purge gives up only where a step failed.
pub proof fn law_faultless_purges_go_on(
    targets: Seq<i64>,
    runs: Seq<PurgeModel>,
    answers: Seq<PurgeAnswer>,
    all: Seq<Tables>,
    k: int,
)
    requires
        purges(targets, runs, answers, all),
        forall|i: int| 0 <= i < answers.len() ==> !((#[trigger] answers[i]) is Failed),
        0 <= k < runs.len(),
    ensures
        !(runs[k].step is NotPurged),
        runs[k].fault is None,
    decreases k,
{
    if k > 0 {
        law_faultless_purges_go_on(targets, runs, answers, all, k - 1);
        assert(has_room(runs[k - 1], answers[k - 1]));
        assert(!(answers[k - 1] is Failed));
    }
}

} // verus!
