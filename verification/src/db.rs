//! The research queue: runs, the artifacts of their phases, and the phase log.
//!
//! A `Db` holds the rows of three tables:
//! - runs: one state machine per research run
//! - sessions: per run, what its phases produced (plan, sources, texts)
//! - events: the phase log, an audit trail

use vstd::prelude::*;

use crate::clock;
use crate::order;
use crate::slug;
use crate::text;

verus! {

/// The states of a run.
pub const RUN_STATUSES: [&'static str; 6] = [
    "queued",
    "running",
    "complete",
    "failed",
    "blocked",
    "cancelled",
];

/// The phases of a run, in order.
pub const PHASES: [&'static str; 8] = [
    "planning",
    "searching",
    "fetching",
    "drafting",
    "citing",
    "debating",
    "reviewing",
    "delivering",
];

/// A research run.
#[derive(Debug)]
pub struct ResearchRun {
    pub id: String,
    pub topic: String,
    pub slug: String,
    pub status: String,
    pub phase: String,
    pub progress: i64,
    pub error: Option<String>,
    pub report_path: Option<String>,
    pub provenance_path: Option<String>,
    pub batch_id: Option<String>,
    pub priority: i64,
    pub attempt: i64,
    pub created_at: String,
    pub updated_at: String,
    pub started_at: Option<String>,
    pub completed_at: Option<String>,
}

/// A run with its texts as sequences of characters.
pub struct RunState {
    pub id: Seq<char>,
    pub topic: Seq<char>,
    pub slug: Seq<char>,
    pub status: Seq<char>,
    pub phase: Seq<char>,
    pub progress: i64,
    pub error: Option<Seq<char>>,
    pub report_path: Option<Seq<char>>,
    pub provenance_path: Option<Seq<char>>,
    pub batch_id: Option<Seq<char>>,
    pub priority: i64,
    pub attempt: i64,
    pub created_at: Seq<char>,
    pub updated_at: Seq<char>,
    pub started_at: Option<Seq<char>>,
    pub completed_at: Option<Seq<char>>,
}

impl View for ResearchRun {
    type V = RunState;

    open spec fn view(&self) -> RunState {
        RunState {
            id: self.id@,
            topic: self.topic@,
            slug: self.slug@,
            status: self.status@,
            phase: self.phase@,
            progress: self.progress,
            error: text::option_view(self.error),
            report_path: text::option_view(self.report_path),
            provenance_path: text::option_view(self.provenance_path),
            batch_id: text::option_view(self.batch_id),
            priority: self.priority,
            attempt: self.attempt,
            created_at: self.created_at@,
            updated_at: self.updated_at@,
            started_at: text::option_view(self.started_at),
            completed_at: text::option_view(self.completed_at),
        }
    }
}

impl Clone for ResearchRun {
    fn clone(&self) -> (copy: Self)
        ensures
            copy == *self,
    {
        ResearchRun {
            id: self.id.clone(),
            topic: self.topic.clone(),
            slug: self.slug.clone(),
            status: self.status.clone(),
            phase: self.phase.clone(),
            progress: self.progress,
            error: text::copy_option(&self.error),
            report_path: text::copy_option(&self.report_path),
            provenance_path: text::copy_option(&self.provenance_path),
            batch_id: text::copy_option(&self.batch_id),
            priority: self.priority,
            attempt: self.attempt,
            created_at: self.created_at.clone(),
            updated_at: self.updated_at.clone(),
            started_at: text::copy_option(&self.started_at),
            completed_at: text::copy_option(&self.completed_at),
        }
    }
}

/// What the phases of a run have produced so far.
#[derive(Debug)]
pub struct SessionData {
    pub plan_json: Option<String>,
    pub sources_json: Option<String>,
    pub draft_text: Option<String>,
    pub cited_text: Option<String>,
    pub debate_text: Option<String>,
    pub review_text: Option<String>,
}

/// Session data with its texts as sequences of characters.
pub struct SessionState {
    pub plan_json: Option<Seq<char>>,
    pub sources_json: Option<Seq<char>>,
    pub draft_text: Option<Seq<char>>,
    pub cited_text: Option<Seq<char>>,
    pub debate_text: Option<Seq<char>>,
    pub review_text: Option<Seq<char>>,
}

impl View for SessionData {
    type V = SessionState;

    open spec fn view(&self) -> SessionState {
        SessionState {
            plan_json: text::option_view(self.plan_json),
            sources_json: text::option_view(self.sources_json),
            draft_text: text::option_view(self.draft_text),
            cited_text: text::option_view(self.cited_text),
            debate_text: text::option_view(self.debate_text),
            review_text: text::option_view(self.review_text),
        }
    }
}

impl Clone for SessionData {
    fn clone(&self) -> (copy: Self)
        ensures
            copy == *self,
    {
        SessionData {
            plan_json: text::copy_option(&self.plan_json),
            sources_json: text::copy_option(&self.sources_json),
            draft_text: text::copy_option(&self.draft_text),
            cited_text: text::copy_option(&self.cited_text),
            debate_text: text::copy_option(&self.debate_text),
            review_text: text::copy_option(&self.review_text),
        }
    }
}

/// A session in which no phase has produced anything.
pub open spec fn blank_session() -> SessionState {
    SessionState {
        plan_json: None,
        sources_json: None,
        draft_text: None,
        cited_text: None,
        debate_text: None,
        review_text: None,
    }
}

impl Default for SessionData {
    fn default() -> (r: Self)
        ensures
            r@ == blank_session(),
    {
        SessionData {
            plan_json: None,
            sources_json: None,
            draft_text: None,
            cited_text: None,
            debate_text: None,
            review_text: None,
        }
    }
}

/// The new value where there is one, else the old.
pub open spec fn newest<T>(new: Option<T>, old: Option<T>) -> Option<T> {
    if new is Some {
        new
    } else {
        old
    }
}

/// A session with what `new` brings written over it.
pub open spec fn merged(old: SessionState, new: SessionState) -> SessionState {
    SessionState {
        plan_json: newest(new.plan_json, old.plan_json),
        sources_json: newest(new.sources_json, old.sources_json),
        draft_text: newest(new.draft_text, old.draft_text),
        cited_text: newest(new.cited_text, old.cited_text),
        debate_text: newest(new.debate_text, old.debate_text),
        review_text: newest(new.review_text, old.review_text),
    }
}

fn pick(new: &Option<String>, old: &Option<String>) -> (r: Option<String>)
    ensures
        text::option_view(r) == newest(text::option_view(*new), text::option_view(*old)),
{
    if new.is_some() {
        text::copy_option(new)
    } else {
        text::copy_option(old)
    }
}

impl SessionData {
    /// The session with what `new` brings written over it.
    pub fn merge(&self, new: &SessionData) -> (r: SessionData)
        ensures
            r@ == merged(self@, new@),
    {
        SessionData {
            plan_json: pick(&new.plan_json, &self.plan_json),
            sources_json: pick(&new.sources_json, &self.sources_json),
            draft_text: pick(&new.draft_text, &self.draft_text),
            cited_text: pick(&new.cited_text, &self.cited_text),
            debate_text: pick(&new.debate_text, &self.debate_text),
            review_text: pick(&new.review_text, &self.review_text),
        }
    }
}

/// An entry of the phase log.
#[derive(Debug)]
pub struct PhaseEvent {
    pub id: i64,
    pub run_id: String,
    pub phase: String,
    pub status: String,
    pub message: String,
    pub created_at: String,
}

/// A log entry with its texts as sequences of characters.
pub struct EventState {
    pub id: i64,
    pub run_id: Seq<char>,
    pub phase: Seq<char>,
    pub status: Seq<char>,
    pub message: Seq<char>,
    pub created_at: Seq<char>,
}

impl View for PhaseEvent {
    type V = EventState;

    open spec fn view(&self) -> EventState {
        EventState {
            id: self.id,
            run_id: self.run_id@,
            phase: self.phase@,
            status: self.status@,
            message: self.message@,
            created_at: self.created_at@,
        }
    }
}

impl Clone for PhaseEvent {
    fn clone(&self) -> (copy: Self)
        ensures
            copy == *self,
    {
        PhaseEvent {
            id: self.id,
            run_id: self.run_id.clone(),
            phase: self.phase.clone(),
            status: self.status.clone(),
            message: self.message.clone(),
            created_at: self.created_at.clone(),
        }
    }
}

/// The session of one run.
#[derive(Debug)]
pub struct SessionRow {
    pub run_id: String,
    pub data: SessionData,
}

impl View for SessionRow {
    type V = (Seq<char>, SessionState);

    open spec fn view(&self) -> (Seq<char>, SessionState) {
        (self.run_id@, self.data@)
    }
}

/// Why a change to the queue is refused.
#[derive(Debug, Clone, Copy, PartialEq, Eq, Structural)]
pub enum DbError {
    /// A run with this identifier exists.
    DuplicateRun,
    /// No run has this identifier.
    UnknownRun,
    /// A counter is at its largest value.
    CounterFull,
}

/// The rows of the queue's tables.
#[derive(Debug)]
pub struct Db {
    runs: Vec<ResearchRun>,
    sessions: Vec<SessionRow>,
    events: Vec<PhaseEvent>,
    last_event: i64,
}

/// The contents of the queue's tables.
pub struct Tables {
    pub runs: Seq<RunState>,
    pub sessions: Seq<(Seq<char>, SessionState)>,
    pub events: Seq<EventState>,
    /// The largest identifier that a log entry has ever had.
    pub last_event: int,
}

impl View for Db {
    type V = Tables;

    closed spec fn view(&self) -> Tables {
        Tables {
            runs: text::views(self.runs@),
            sessions: text::views(self.sessions@),
            events: text::views(self.events@),
            last_event: self.last_event as int,
        }
    }
}

// ── the meaning of each change ──────────────────────────────────────

/// Some run has this identifier.
pub open spec fn has_run(runs: Seq<RunState>, id: Seq<char>) -> bool {
    exists|i: int| 0 <= i < runs.len() && #[trigger] runs[i].id == id
}

/// The first run with this identifier.
pub open spec fn run_with(runs: Seq<RunState>, id: Seq<char>) -> Option<RunState>
    decreases runs.len(),
{
    if runs.len() == 0 {
        None
    } else if runs[0].id == id {
        Some(runs[0])
    } else {
        run_with(runs.drop_first(), id)
    }
}

/// The slugs in use.
pub open spec fn slugs(runs: Seq<RunState>) -> Seq<Seq<char>> {
    runs.map_values(|run: RunState| run.slug)
}

/// A run as it is created: queued, at the start of its first phase.
pub open spec fn fresh_run(
    id: Seq<char>,
    topic: Seq<char>,
    slug: Seq<char>,
    batch_id: Option<Seq<char>>,
    priority: i64,
    now: Seq<char>,
) -> RunState {
    RunState {
        id,
        topic,
        slug,
        status: "queued"@,
        phase: "planning"@,
        progress: 0,
        error: None,
        report_path: None,
        provenance_path: None,
        batch_id,
        priority,
        attempt: 1,
        created_at: now,
        updated_at: now,
        started_at: None,
        completed_at: None,
    }
}

/// A status that ends a run.
pub open spec fn is_final(status: Seq<char>) -> bool {
    ||| status == "complete"@
    ||| status == "failed"@
    ||| status == "blocked"@
    ||| status == "cancelled"@
}

/// A run with a new status. The first start time stays; an end time is set by a status
/// that ends the run.
pub open spec fn with_status(
    run: RunState,
    status: Seq<char>,
    phase: Seq<char>,
    progress: i64,
    error: Option<Seq<char>>,
    now: Seq<char>,
) -> RunState {
    RunState {
        status,
        phase,
        progress,
        error,
        updated_at: now,
        started_at: newest(run.started_at, Some(now)),
        completed_at: if is_final(status) {
            Some(now)
        } else {
            run.completed_at
        },
        ..run
    }
}

/// A run that a worker has picked up.
pub open spec fn as_started(run: RunState, now: Seq<char>) -> RunState {
    RunState {
        status: "running"@,
        started_at: newest(run.started_at, Some(now)),
        updated_at: now,
        ..run
    }
}

/// A run that has delivered its report.
pub open spec fn as_complete(
    run: RunState,
    report_path: Seq<char>,
    provenance_path: Seq<char>,
    now: Seq<char>,
) -> RunState {
    RunState {
        status: "complete"@,
        phase: "delivering"@,
        progress: 100,
        error: None,
        report_path: Some(report_path),
        provenance_path: Some(provenance_path),
        completed_at: Some(now),
        updated_at: now,
        ..run
    }
}

/// A run that was left running by a process that died, back in the queue.
pub open spec fn recovered(run: RunState, now: Seq<char>) -> RunState {
    if run.status == "running"@ {
        RunState { status: "queued"@, updated_at: now, ..run }
    } else {
        run
    }
}

/// A run that is put back in the queue from the start, as on its first attempt.
pub open spec fn requeued(run: RunState, now: Seq<char>) -> RunState {
    RunState { attempt: 1, ..with_status(run, "queued"@, "planning"@, 0, None, now) }
}

/// A run on its next attempt.
pub open spec fn attempted_again(run: RunState, now: Seq<char>) -> RunState {
    RunState { attempt: (run.attempt + 1) as i64, updated_at: now, ..run }
}

/// The runs with `change` made to each that has the identifier.
pub open spec fn changed(
    runs: Seq<RunState>,
    id: Seq<char>,
    change: spec_fn(RunState) -> RunState,
) -> Seq<RunState> {
    runs.map_values(
        |run: RunState|
            if run.id == id {
                change(run)
            } else {
                run
            },
    )
}

/// `a` is served before `b`: by priority, then by age.
pub open spec fn served_before(a: RunState, b: RunState) -> bool {
    a.priority > b.priority || (a.priority == b.priority && order::before(
        a.created_at,
        b.created_at,
    ))
}

/// A run that waits, in the given batch when one is given.
pub open spec fn waits(run: RunState, batch: Option<Seq<char>>) -> bool {
    run.status == "queued"@ && (batch is None || run.batch_id == batch)
}

/// The run at `i` is the next to serve: it waits, no waiting run is served before it, and
/// it is the first such run.
pub open spec fn is_next(runs: Seq<RunState>, batch: Option<Seq<char>>, i: int) -> bool {
    &&& 0 <= i < runs.len()
    &&& waits(runs[i], batch)
    &&& forall|j: int|
        0 <= j < runs.len() && waits(#[trigger] runs[j], batch) ==> !served_before(runs[j], runs[i])
    &&& forall|j: int|
        0 <= j < i && waits(#[trigger] runs[j], batch) ==> served_before(runs[i], runs[j])
}

/// No run waits.
pub open spec fn none_waits(runs: Seq<RunState>, batch: Option<Seq<char>>) -> bool {
    forall|j: int| 0 <= j < runs.len() ==> !waits(#[trigger] runs[j], batch)
}

/// The runs in `sorted`, newest first, with `run` put behind those that are not older.
pub open spec fn placed(sorted: Seq<RunState>, run: RunState) -> Seq<RunState>
    decreases sorted.len(),
{
    if sorted.len() > 0 && order::before(sorted.last().created_at, run.created_at) {
        placed(sorted.drop_last(), run).push(sorted.last())
    } else {
        sorted.push(run)
    }
}

/// The runs, newest first; those of one moment stay in their order.
pub open spec fn newest_first(runs: Seq<RunState>) -> Seq<RunState>
    decreases runs.len(),
{
    if runs.len() == 0 {
        runs
    } else {
        placed(newest_first(runs.drop_last()), runs.last())
    }
}

/// The stretch of a list that a page shows; a negative limit is none, a negative offset 0.
pub open spec fn page<T>(items: Seq<T>, limit: int, offset: int) -> Seq<T> {
    let from = if offset < 0 {
        0
    } else if offset > items.len() {
        items.len() as int
    } else {
        offset
    };
    let rest = items.skip(from);
    if limit < 0 || limit > rest.len() {
        rest
    } else {
        rest.take(limit)
    }
}

/// A run that a status filter lets through.
pub open spec fn in_status(run: RunState, status: Option<Seq<char>>) -> bool {
    status is None || status == Some(run.status)
}

/// The session of a run.
pub open spec fn session_of(
    sessions: Seq<(Seq<char>, SessionState)>,
    run_id: Seq<char>,
) -> Option<SessionState>
    decreases sessions.len(),
{
    if sessions.len() == 0 {
        None
    } else if sessions[0].0 == run_id {
        Some(sessions[0].1)
    } else {
        session_of(sessions.drop_first(), run_id)
    }
}

/// The sessions with `data` merged into that of the run, which is added when it is missing.
pub open spec fn session_saved(
    sessions: Seq<(Seq<char>, SessionState)>,
    run_id: Seq<char>,
    data: SessionState,
) -> Seq<(Seq<char>, SessionState)>
    decreases sessions.len(),
{
    if sessions.len() == 0 {
        seq![(run_id, data)]
    } else if sessions[0].0 == run_id {
        seq![(run_id, merged(sessions[0].1, data))] + sessions.drop_first()
    } else {
        seq![sessions[0]] + session_saved(sessions.drop_first(), run_id, data)
    }
}

/// The log entries of a run.
pub open spec fn log_of(events: Seq<EventState>, run_id: Seq<char>) -> Seq<EventState> {
    events.filter(|event: EventState| event.run_id == run_id)
}

impl Tables {
    /// The tables after a run is given a new status.
    pub open spec fn status_updated(
        self,
        id: Seq<char>,
        status: Seq<char>,
        phase: Seq<char>,
        progress: i64,
        error: Option<Seq<char>>,
        now: Seq<char>,
    ) -> Tables {
        Tables {
            runs: changed(
                self.runs,
                id,
                |run: RunState| with_status(run, status, phase, progress, error, now),
            ),
            ..self
        }
    }

    /// The tables after a run is picked up by a worker.
    pub open spec fn run_started(self, id: Seq<char>, now: Seq<char>) -> Tables {
        Tables { runs: changed(self.runs, id, |run: RunState| as_started(run, now)), ..self }
    }

    /// The tables after a run has delivered its report.
    pub open spec fn run_completed(
        self,
        id: Seq<char>,
        report_path: Seq<char>,
        provenance_path: Seq<char>,
        now: Seq<char>,
    ) -> Tables {
        Tables {
            runs: changed(
                self.runs,
                id,
                |run: RunState| as_complete(run, report_path, provenance_path, now),
            ),
            ..self
        }
    }

    /// The tables after a run is put back in the queue from the start.
    pub open spec fn run_requeued(self, id: Seq<char>, now: Seq<char>) -> Tables {
        Tables { runs: changed(self.runs, id, |run: RunState| requeued(run, now)), ..self }
    }

    /// The tables after a run has begun its next attempt.
    pub open spec fn run_attempted(self, id: Seq<char>, now: Seq<char>) -> Tables {
        Tables { runs: changed(self.runs, id, |run: RunState| attempted_again(run, now)), ..self }
    }

    /// The tables after every run left running is back in the queue.
    pub open spec fn stale_recovered(self, now: Seq<char>) -> Tables {
        Tables { runs: self.runs.map_values(|run: RunState| recovered(run, now)), ..self }
    }

    /// The tables with an entry added to the phase log.
    pub open spec fn phase_logged(
        self,
        run_id: Seq<char>,
        phase: Seq<char>,
        status: Seq<char>,
        message: Seq<char>,
        now: Seq<char>,
    ) -> Tables {
        let event = EventState {
            id: (self.last_event + 1) as i64,
            run_id,
            phase,
            status,
            message,
            created_at: now,
        };
        Tables { events: self.events.push(event), last_event: self.last_event + 1, ..self }
    }

    /// The tables after a run is created under `id` at `now`. Its slug is the first free
    /// name of the slug asked for.
    pub open spec fn run_created(
        self,
        after: Tables,
        id: Seq<char>,
        topic: Seq<char>,
        slug: Seq<char>,
        batch_id: Option<Seq<char>>,
        priority: i64,
        now: Seq<char>,
    ) -> bool {
        &&& after.runs.len() == self.runs.len() + 1
        &&& after.runs.drop_last() == self.runs
        &&& after.runs.last() == fresh_run(
            id,
            topic,
            after.runs.last().slug,
            batch_id,
            priority,
            now,
        )
        &&& slug::is_first_free(after.runs.last().slug, slug, slugs(self.runs))
        &&& after.sessions == self.sessions
        &&& after.events == self.events
        &&& after.last_event == self.last_event
    }

    /// Identifiers name one row each, sessions and log entries belong to runs, and the log
    /// is in the order of its identifiers.
    pub open spec fn wf(self) -> bool {
        &&& forall|i: int, j: int|
            0 <= i < j < self.runs.len() ==> #[trigger] self.runs[i].id != #[trigger] self.runs[j].id
        &&& forall|i: int, j: int|
            0 <= i < j < self.sessions.len() ==> #[trigger] self.sessions[i].0
                != #[trigger] self.sessions[j].0
        &&& forall|i: int|
            0 <= i < self.sessions.len() ==> has_run(self.runs, #[trigger] self.sessions[i].0)
        &&& forall|i: int|
            0 <= i < self.events.len() ==> has_run(self.runs, (#[trigger] self.events[i]).run_id)
        &&& forall|i: int|
            0 <= i < self.events.len() ==> (#[trigger] self.events[i]).id <= self.last_event
        &&& forall|i: int, j: int|
            0 <= i < j < self.events.len() ==> (#[trigger] self.events[i]).id < (
            #[trigger] self.events[j]).id
    }
}

/// Runs keep their identifiers, so sessions and log entries keep their runs.
proof fn wf_is_kept(before: Tables, after: Tables)
    requires
        before.wf(),
        after.runs.len() == before.runs.len(),
        forall|i: int| 0 <= i < before.runs.len() ==> (#[trigger] after.runs[i]).id == before.runs[i].id,
        after.sessions == before.sessions,
        after.events == before.events,
        after.last_event == before.last_event,
    ensures
        after.wf(),
{
    assert forall|id: Seq<char>| has_run(before.runs, id) implies #[trigger] has_run(
        after.runs,
        id,
    ) by {
        let i = choose|i: int| 0 <= i < before.runs.len() && #[trigger] before.runs[i].id == id;
        assert(after.runs[i].id == id);
    }
    assert forall|i: int, j: int| 0 <= i < j < after.runs.len() implies #[trigger] after.runs[i].id
        != #[trigger] after.runs[j].id by {
        assert(before.runs[i].id != before.runs[j].id);
    }
}

proof fn found_iff_held(runs: Seq<RunState>, id: Seq<char>)
    ensures
        has_run(runs, id) == (run_with(runs, id) is Some),
    decreases runs.len(),
{
    if runs.len() > 0 {
        found_iff_held(runs.drop_first(), id);
        if runs[0].id != id {
            if has_run(runs, id) {
                let i = choose|i: int| 0 <= i < runs.len() && #[trigger] runs[i].id == id;
                assert(runs.drop_first()[i - 1].id == id);
            }
            if has_run(runs.drop_first(), id) {
                let i = choose|i: int|
                    0 <= i < runs.drop_first().len() && #[trigger] runs.drop_first()[i].id == id;
                assert(runs[i + 1].id == id);
            }
        }
    }
}

// ── rows ────────────────────────────────────────────────────────────

/// A change to one run.
enum Change<'a> {
    Status { status: &'a str, phase: &'a str, progress: i64, error: Option<&'a str> },
    Start,
    Complete { report_path: &'a str, provenance_path: &'a str },
    Requeue,
    Attempt,
}

/// The characters of an optional text.
pub open spec fn str_view(item: Option<&str>) -> Option<Seq<char>> {
    match item {
        Some(value) => Some(value@),
        None => None,
    }
}

fn owned(item: Option<&str>) -> (r: Option<String>)
    ensures
        text::option_view(r) == str_view(item),
{
    match item {
        Some(value) => Some(value.to_owned()),
        None => None,
    }
}

impl<'a> Change<'a> {
    spec fn made(self, run: RunState, now: Seq<char>) -> RunState {
        match self {
            Change::Status { status, phase, progress, error } => with_status(
                run,
                status@,
                phase@,
                progress,
                str_view(error),
                now,
            ),
            Change::Start => as_started(run, now),
            Change::Complete { report_path, provenance_path } => as_complete(
                run,
                report_path@,
                provenance_path@,
                now,
            ),
            Change::Requeue => requeued(run, now),
            Change::Attempt => attempted_again(run, now),
        }
    }
}

fn final_status(status: &str) -> (r: bool)
    ensures
        r == is_final(status@),
{
    text::same(status, "complete") || text::same(status, "failed") || text::same(status, "blocked")
        || text::same(status, "cancelled")
}

impl ResearchRun {
    /// The run with a new status. The first start time stays; an end time is set by a
    /// status that ends the run.
    pub fn with_status(
        &self,
        status: &str,
        phase: &str,
        progress: i64,
        error: Option<&str>,
        now: &str,
    ) -> (r: ResearchRun)
        ensures
            r@ == with_status(
                self@,
                status@,
                phase@,
                progress,
                str_view(error),
                now@,
            ),
    {
        let mut run = self.clone();
        run.status = status.to_owned();
        run.phase = phase.to_owned();
        run.progress = progress;
        run.error = owned(error);
        run.updated_at = now.to_owned();
        if run.started_at.is_none() {
            run.started_at = Some(now.to_owned());
        }
        if final_status(status) {
            run.completed_at = Some(now.to_owned());
        }
        run
    }

    fn with(&self, change: &Change<'_>, now: &str) -> (r: ResearchRun)
        requires
            *change is Attempt ==> self.attempt < i64::MAX,
        ensures
            r@ == change.made(self@, now@),
    {
        match change {
            Change::Status { status, phase, progress, error } => self.with_status(
                status,
                phase,
                *progress,
                *error,
                now,
            ),
            Change::Start => {
                let mut run = self.clone();
                run.status = "running".to_owned();
                run.updated_at = now.to_owned();
                if run.started_at.is_none() {
                    run.started_at = Some(now.to_owned());
                }
                run
            },
            Change::Complete { report_path, provenance_path } => {
                let mut run = self.clone();
                run.status = "complete".to_owned();
                run.phase = "delivering".to_owned();
                run.progress = 100;
                run.error = None;
                run.report_path = Some((*report_path).to_owned());
                run.provenance_path = Some((*provenance_path).to_owned());
                run.completed_at = Some(now.to_owned());
                run.updated_at = now.to_owned();
                run
            },
            Change::Requeue => {
                let mut run = self.with_status("queued", "planning", 0, None, now);
                run.attempt = 1;
                run
            },
            Change::Attempt => {
                let mut run = self.clone();
                run.attempt = run.attempt + 1;
                run.updated_at = now.to_owned();
                run
            },
        }
    }
}

impl Db {
    /// An empty queue.
    pub fn new() -> (db: Db)
        ensures
            db@.runs == Seq::<RunState>::empty(),
            db@.sessions == Seq::<(Seq<char>, SessionState)>::empty(),
            db@.events == Seq::<EventState>::empty(),
            db@.last_event == 0,
            db@.wf(),
    {
        let db = Db { runs: Vec::new(), sessions: Vec::new(), events: Vec::new(), last_event: 0 };
        assert(db@.runs =~= Seq::<RunState>::empty());
        assert(db@.sessions =~= Seq::<(Seq<char>, SessionState)>::empty());
        assert(db@.events =~= Seq::<EventState>::empty());
        db
    }

    /// The queue whose tables hold these rows.
    pub fn from_rows(
        runs: Vec<ResearchRun>,
        sessions: Vec<SessionRow>,
        events: Vec<PhaseEvent>,
        last_event: i64,
    ) -> (db: Db)
        ensures
            db@.runs == text::views(runs@),
            db@.sessions == text::views(sessions@),
            db@.events == text::views(events@),
            db@.last_event == last_event,
    {
        Db { runs, sessions, events, last_event }
    }

    /// The rows of the runs.
    pub fn runs(&self) -> (r: &Vec<ResearchRun>)
        ensures
            text::views(r@) == self@.runs,
    {
        &self.runs
    }

    /// The rows of the sessions.
    pub fn sessions(&self) -> (r: &Vec<SessionRow>)
        ensures
            text::views(r@) == self@.sessions,
    {
        &self.sessions
    }

    /// The rows of the phase log.
    pub fn events(&self) -> (r: &Vec<PhaseEvent>)
        ensures
            text::views(r@) == self@.events,
    {
        &self.events
    }

    /// The largest identifier that a log entry has ever had.
    pub fn last_event_id(&self) -> (r: i64)
        ensures
            r == self@.last_event,
    {
        self.last_event
    }

    /// The time now, in RFC 3339 notation.
    pub fn now() -> (r: String)
        ensures
            clock::is_timestamp(r@),
    {
        clock::utc_now()
    }

    fn change(&mut self, id: &str, change: Change<'_>, now: &str)
        requires
            change is Attempt ==> forall|i: int|
                0 <= i < old(self)@.runs.len() && (#[trigger] old(self)@.runs[i]).id == id@
                    ==> old(self)@.runs[i].attempt < i64::MAX,
        ensures
            final(self)@ == (Tables {
                runs: changed(old(self)@.runs, id@, |run: RunState| change.made(run, now@)),
                ..old(self)@
            }),
    {
        let ghost before = self@;
        let ghost after = changed(before.runs, id@, |run: RunState| change.made(run, now@));
        let count: usize = self.runs.len();
        for i in 0..count
            invariant
                count == before.runs.len(),
                self@.sessions == before.sessions,
                self@.events == before.events,
                self@.last_event == before.last_event,
                self.runs@.len() == before.runs.len(),
                after == changed(before.runs, id@, |run: RunState| change.made(run, now@)),
                forall|j: int| 0 <= j < i ==> (#[trigger] self.runs@[j])@ == after[j],
                forall|j: int|
                    i <= j < self.runs@.len() ==> (#[trigger] self.runs@[j])@ == before.runs[j],
                change is Attempt ==> forall|j: int|
                    0 <= j < before.runs.len() && (#[trigger] before.runs[j]).id == id@
                        ==> before.runs[j].attempt < i64::MAX,
        {
            assert(self.runs@[i as int]@ == before.runs[i as int]);
            if text::same(self.runs[i].id.as_str(), id) {
                let run = self.runs[i].with(&change, now);
                self.runs[i] = run;
            }
        }
        assert(self@.runs =~= after);
    }
}

impl Db {
    fn position(&self, id: &str) -> (r: Option<usize>)
        ensures
            match r {
                Some(i) => i < self.runs@.len() && run_with(self@.runs, id@) == Some(
                    self.runs@[i as int]@,
                ) && self@.runs[i as int].id == id@,
                None => run_with(self@.runs, id@) is None,
            },
            has_run(self@.runs, id@) == (r is Some),
    {
        let ghost all = self@.runs;
        proof {
            found_iff_held(all, id@);
            assert(all.skip(0) == all);
        }
        for i in 0..self.runs.len()
            invariant
                all == self@.runs,
                all.len() == self.runs@.len(),
                has_run(all, id@) == (run_with(all, id@) is Some),
                run_with(all, id@) == run_with(all.skip(i as int), id@),
        {
            assert(all.skip(i as int)[0] == self.runs@[i as int]@);
            assert(all.skip(i as int).drop_first() == all.skip(i + 1));
            if text::same(self.runs[i].id.as_str(), id) {
                return Some(i);
            }
        }
        None
    }

    /// The slugs in use.
    fn taken_slugs(&self) -> (r: Vec<String>)
        ensures
            text::views(r@) == slugs(self@.runs),
    {
        let mut taken: Vec<String> = Vec::new();
        for i in 0..self.runs.len()
            invariant
                text::views(taken@) == slugs(self@.runs).take(i as int),
                self@.runs.len() == self.runs@.len(),
        {
            let ghost before = taken@;
            taken.push(self.runs[i].slug.clone());
            assert(text::views(taken@) =~= text::views(before).push(self.runs@[i as int].slug@));
            assert(slugs(self@.runs).take(i + 1) =~= slugs(self@.runs).take(i as int).push(
                self.runs@[i as int].slug@,
            ));
        }
        assert(slugs(self@.runs).take(self.runs@.len() as int) =~= slugs(self@.runs));
        taken
    }

    // ── runs ────────────────────────────────────────────────────────

    /// Create a run under the identifier `id` at the time `now`.
    pub fn create_run_at(
        &mut self,
        topic: &str,
        slug: &str,
        batch_id: Option<&str>,
        priority: i64,
        id: &str,
        now: &str,
    ) -> (r: Result<ResearchRun, DbError>)
        ensures
            match r {
                Ok(run) => {
                    &&& !has_run(old(self)@.runs, id@)
                    &&& old(self)@.run_created(
                        final(self)@,
                        id@,
                        topic@,
                        slug@,
                        str_view(batch_id),
                        priority,
                        now@,
                    )
                    &&& run@ == final(self)@.runs.last()
                    &&& run_with(final(self)@.runs, id@) == Some(run@)
                },
                Err(error) => {
                    &&& error == DbError::DuplicateRun
                    &&& has_run(old(self)@.runs, id@)
                    &&& final(self)@ == old(self)@
                },
            },
            old(self)@.wf() ==> final(self)@.wf(),
    {
        if self.position(id).is_some() {
            return Err(DbError::DuplicateRun);
        }
        let taken = self.taken_slugs();
        let run = ResearchRun {
            id: id.to_owned(),
            topic: topic.to_owned(),
            slug: slug::free_slug(slug, &taken),
            status: "queued".to_owned(),
            phase: "planning".to_owned(),
            progress: 0,
            error: None,
            report_path: None,
            provenance_path: None,
            batch_id: owned(batch_id),
            priority,
            attempt: 1,
            created_at: now.to_owned(),
            updated_at: now.to_owned(),
            started_at: None,
            completed_at: None,
        };
        let ghost before = self@;
        self.runs.push(run.clone());
        proof {
            assert(self@.runs =~= before.runs.push(run@));
            assert(self@.runs.drop_last() =~= before.runs);
            appended_is_found(before.runs, run@);
            if before.wf() {
                grown_is_wf(before, self@, run@);
            }
        }
        Ok(run)
    }

    /// Create a run. Its identifier and its time are fresh.
    pub fn create_run(
        &mut self,
        topic: &str,
        slug: &str,
        batch_id: Option<&str>,
        priority: i64,
    ) -> (r: Result<ResearchRun, DbError>)
        ensures
            match r {
                Ok(run) => {
                    &&& clock::is_uuid(run@.id)
                    &&& clock::is_timestamp(run@.created_at)
                    &&& !has_run(old(self)@.runs, run@.id)
                    &&& old(self)@.run_created(
                        final(self)@,
                        run@.id,
                        topic@,
                        slug@,
                        str_view(batch_id),
                        priority,
                        run@.created_at,
                    )
                    &&& run@ == final(self)@.runs.last()
                    &&& run_with(final(self)@.runs, run@.id) == Some(run@)
                },
                Err(error) => {
                    &&& error == DbError::DuplicateRun
                    &&& exists|id: Seq<char>| clock::is_uuid(id) && #[trigger] has_run(old(self)@.runs, id)
                    &&& final(self)@ == old(self)@
                },
            },
            old(self)@.wf() ==> final(self)@.wf(),
    {
        let id = clock::fresh_uuid();
        let now = Db::now();
        self.create_run_at(topic, slug, batch_id, priority, id.as_str(), now.as_str())
    }

    /// The run with an identifier.
    pub fn get_run(&self, id: &str) -> (r: Option<ResearchRun>)
        ensures
            text::option_view(r) == run_with(self@.runs, id@),
    {
        match self.position(id) {
            Some(i) => Some(self.runs[i].clone()),
            None => None,
        }
    }

    /// Give a run a new status at the time `now`.
    pub fn update_status_at(
        &mut self,
        id: &str,
        status: &str,
        phase: &str,
        progress: i64,
        error: Option<&str>,
        now: &str,
    )
        ensures
            final(self)@ == old(self)@.status_updated(
                id@,
                status@,
                phase@,
                progress,
                str_view(error),
                now@,
            ),
            old(self)@.wf() ==> final(self)@.wf(),
    {
        let ghost before = self@;
        self.change(id, Change::Status { status, phase, progress, error }, now);
        proof {
            assert(self@.runs =~= before.status_updated(
                id@,
                status@,
                phase@,
                progress,
                str_view(error),
                now@,
            ).runs);
            if before.wf() {
                wf_is_kept(before, self@);
            }
        }
    }

    /// Give a run a new status.
    pub fn update_status(
        &mut self,
        id: &str,
        status: &str,
        phase: &str,
        progress: i64,
        error: Option<&str>,
    )
        ensures
            exists|now: Seq<char>|
                clock::is_timestamp(now) && final(self)@ == #[trigger] old(self)@.status_updated(
                    id@,
                    status@,
                    phase@,
                    progress,
                    str_view(error),
                    now,
                ),
            old(self)@.wf() ==> final(self)@.wf(),
    {
        let now = Db::now();
        self.update_status_at(id, status, phase, progress, error, now.as_str());
    }

    /// Mark a run as picked up by a worker at the time `now`.
    pub fn set_run_started_at(&mut self, id: &str, now: &str)
        ensures
            final(self)@ == old(self)@.run_started(id@, now@),
            old(self)@.wf() ==> final(self)@.wf(),
    {
        let ghost before = self@;
        self.change(id, Change::Start, now);
        proof {
            assert(self@.runs =~= before.run_started(id@, now@).runs);
            if before.wf() {
                wf_is_kept(before, self@);
            }
        }
    }

    /// Mark a run as picked up by a worker.
    pub fn set_run_started(&mut self, id: &str)
        ensures
            exists|now: Seq<char>|
                clock::is_timestamp(now) && final(self)@ == #[trigger] old(self)@.run_started(id@, now),
            old(self)@.wf() ==> final(self)@.wf(),
    {
        let now = Db::now();
        self.set_run_started_at(id, now.as_str());
    }

    /// Record that a run has delivered its report, at the time `now`.
    pub fn set_complete_at(&mut self, id: &str, report_path: &str, provenance_path: &str, now: &str)
        ensures
            final(self)@ == old(self)@.run_completed(id@, report_path@, provenance_path@, now@),
            old(self)@.wf() ==> final(self)@.wf(),
    {
        let ghost before = self@;
        self.change(id, Change::Complete { report_path, provenance_path }, now);
        proof {
            assert(self@.runs =~= before.run_completed(
                id@,
                report_path@,
                provenance_path@,
                now@,
            ).runs);
            if before.wf() {
                wf_is_kept(before, self@);
            }
        }
    }

    /// Record that a run has delivered its report.
    pub fn set_complete(&mut self, id: &str, report_path: &str, provenance_path: &str)
        ensures
            exists|now: Seq<char>|
                clock::is_timestamp(now) && final(self)@ == #[trigger] old(self)@.run_completed(
                    id@,
                    report_path@,
                    provenance_path@,
                    now,
                ),
            old(self)@.wf() ==> final(self)@.wf(),
    {
        let now = Db::now();
        self.set_complete_at(id, report_path, provenance_path, now.as_str());
    }

    /// Put a run back in the queue from the start, as on its first attempt, at the time `now`.
    pub fn requeue_at(&mut self, id: &str, now: &str)
        ensures
            final(self)@ == old(self)@.run_requeued(id@, now@),
            old(self)@.wf() ==> final(self)@.wf(),
    {
        let ghost before = self@;
        self.change(id, Change::Requeue, now);
        proof {
            assert(self@.runs =~= before.run_requeued(id@, now@).runs);
            if before.wf() {
                wf_is_kept(before, self@);
            }
        }
    }

    /// Count one more attempt of a run, at the time `now`, and tell how many there are.
    pub fn increment_attempt_at(&mut self, id: &str, now: &str) -> (r: Result<i64, DbError>)
        ensures
            attempt_counted(old(self)@, final(self)@, id@, now@, r),
            old(self)@.wf() ==> final(self)@.wf(),
    {
        let ghost before = self@;
        let at = match self.position(id) {
            Some(i) => i,
            None => {
                return Err(DbError::UnknownRun);
            },
        };
        for i in 0..self.runs.len()
            invariant
                self@ == before,
                before.runs.len() == self.runs@.len(),
                forall|j: int|
                    0 <= j < i && (#[trigger] before.runs[j]).id == id@ ==> before.runs[j].attempt
                        < i64::MAX,
                has_run(before.runs, id@),
        {
            assert(before.runs[i as int] == self.runs@[i as int]@);
            if self.runs[i].attempt == i64::MAX && text::same(self.runs[i].id.as_str(), id) {
                return Err(DbError::CounterFull);
            }
        }
        assert(before.runs[at as int] == self.runs@[at as int]@);
        let attempt: i64 = self.runs[at].attempt;
        self.change(id, Change::Attempt, now);
        proof {
            assert(self@.runs =~= before.run_attempted(id@, now@).runs);
            if before.wf() {
                wf_is_kept(before, self@);
            }
        }
        Ok(attempt + 1)
    }

    /// Count one more attempt of a run, and tell how many there are.
    pub fn increment_attempt(&mut self, id: &str) -> (r: Result<i64, DbError>)
        ensures
            exists|now: Seq<char>|
                clock::is_timestamp(now) && #[trigger] attempt_counted(
                    old(self)@,
                    final(self)@,
                    id@,
                    now,
                    r,
                ),
            old(self)@.wf() ==> final(self)@.wf(),
    {
        let now = Db::now();
        self.increment_attempt_at(id, now.as_str())
    }

    /// Crash recovery at the time `now`: a run left running is stale, since the process that
    /// ran it died, and goes back to the queue. Tells how many there were.
    pub fn recover_stale_runs_at(&mut self, now: &str) -> (count: usize)
        ensures
            final(self)@ == old(self)@.stale_recovered(now@),
            count == running(old(self)@.runs).len(),
            running(final(self)@.runs).len() == 0,
            old(self)@.wf() ==> final(self)@.wf(),
    {
        let ghost before = self@;
        let ghost after = before.stale_recovered(now@).runs;
        let total: usize = self.runs.len();
        let mut count: usize = 0;
        proof {
            reveal(Seq::filter);
            assert(before.runs.take(0) =~= Seq::<RunState>::empty());
        }
        for i in 0..total
            invariant
                total == before.runs.len(),
                self.runs@.len() == total,
                after == before.stale_recovered(now@).runs,
                self@.sessions == before.sessions,
                self@.events == before.events,
                self@.last_event == before.last_event,
                forall|j: int| 0 <= j < i ==> (#[trigger] self.runs@[j])@ == after[j],
                forall|j: int|
                    i <= j < self.runs@.len() ==> (#[trigger] self.runs@[j])@ == before.runs[j],
                count == running(before.runs.take(i as int)).len(),
                count <= i,
        {
            proof {
                reveal(Seq::filter);
                assert(before.runs.take(i + 1).drop_last() == before.runs.take(i as int));
                assert(self.runs@[i as int]@ == before.runs[i as int]);
            }
            if text::same(self.runs[i].status.as_str(), "running") {
                let mut run = self.runs[i].clone();
                run.status = "queued".to_owned();
                run.updated_at = now.to_owned();
                self.runs[i] = run;
                count += 1;
            }
        }
        proof {
            assert(self@.runs =~= after);
            assert(before.runs.take(total as int) =~= before.runs);
            none_left_running(before.runs, now@);
            if before.wf() {
                wf_is_kept(before, self@);
            }
        }
        count
    }

    /// Crash recovery: a run left running is stale, since the process that ran it died, and
    /// goes back to the queue. Tells how many there were.
    pub fn recover_stale_runs(&mut self) -> (count: usize)
        ensures
            exists|now: Seq<char>|
                clock::is_timestamp(now) && final(self)@ == #[trigger] old(self)@.stale_recovered(now),
            count == running(old(self)@.runs).len(),
            running(final(self)@.runs).len() == 0,
            old(self)@.wf() ==> final(self)@.wf(),
    {
        let now = Db::now();
        self.recover_stale_runs_at(now.as_str())
    }

    /// How many runs are running.
    pub fn count_running(&self) -> (count: usize)
        ensures
            count == running(self@.runs).len(),
    {
        let ghost all = self@.runs;
        let mut count: usize = 0;
        proof {
            reveal(Seq::filter);
            assert(all.take(0) =~= Seq::<RunState>::empty());
        }
        for i in 0..self.runs.len()
            invariant
                all == self@.runs,
                all.len() == self.runs@.len(),
                count == running(all.take(i as int)).len(),
                count <= i,
        {
            proof {
                reveal(Seq::filter);
                assert(all.take(i + 1).drop_last() == all.take(i as int));
                assert(self.runs@[i as int]@ == all[i as int]);
            }
            if text::same(self.runs[i].status.as_str(), "running") {
                count += 1;
            }
        }
        assert(all.take(all.len() as int) =~= all);
        count
    }

    fn waiting(&self, i: usize, batch: Option<&str>) -> (r: bool)
        requires
            i < self.runs@.len(),
        ensures
            r == waits(self@.runs[i as int], str_view(batch)),
    {
        if !text::same(self.runs[i].status.as_str(), "queued") {
            return false;
        }
        match batch {
            Some(wanted) => match &self.runs[i].batch_id {
                Some(own) => text::same(own.as_str(), wanted),
                None => false,
            },
            None => true,
        }
    }

    /// The next run to serve among those that wait, in the given batch when one is given:
    /// highest priority, then oldest.
    pub fn next_waiting(&self, batch: Option<&str>) -> (r: Option<ResearchRun>)
        ensures
            match r {
                Some(run) => exists|i: int|
                    #[trigger] is_next(self@.runs, str_view(batch), i) && run@ == self@.runs[i],
                None => none_waits(self@.runs, str_view(batch)),
            },
    {
        let ghost all = self@.runs;
        let ghost group = str_view(batch);
        let mut best: Option<usize> = None;
        for i in 0..self.runs.len()
            invariant
                all == self@.runs,
                group == str_view(batch),
                all.len() == self.runs@.len(),
                match best {
                    Some(b) => b < i && is_next(all.take(i as int), group, b as int),
                    None => none_waits(all.take(i as int), group),
                },
        {
            let ghost seen = all.take(i as int);
            let ghost more = all.take(i + 1);
            assert(more.drop_last() == seen);
            assert(all[i as int] == self.runs@[i as int]@);
            if self.waiting(i, batch) {
                match best {
                    Some(b) => {
                        assert(all[b as int] == self.runs@[b as int]@);
                        let ahead = self.runs[i].priority > self.runs[b].priority || (
                        self.runs[i].priority == self.runs[b].priority && order::earlier(
                            self.runs[i].created_at.as_str(),
                            self.runs[b].created_at.as_str(),
                        ));
                        if ahead {
                            proof {
                                next_is_replaced(all, group, b as int, i as int);
                            }
                            best = Some(i);
                        } else {
                            proof {
                                next_is_kept(all, group, b as int, i as int);
                            }
                        }
                    },
                    None => {
                        proof {
                            order::before_is_irreflexive(all[i as int].created_at);
                            assert forall|j: int|
                                0 <= j < more.len() && waits(
                                    #[trigger] more[j],
                                    group,
                                ) implies !served_before(more[j], more[i as int]) by {
                                if j < i {
                                    assert(seen[j] == more[j]);
                                }
                            }
                            assert forall|j: int| 0 <= j < i && waits(#[trigger] more[j], group) implies served_before(more[i as int], more[j]) by {
                                assert(seen[j] == more[j]);
                            }
                        }
                        best = Some(i);
                    },
                }
            } else {
                proof {
                    match best {
                        Some(b) => {
                            next_is_kept(all, group, b as int, i as int);
                        },
                        None => {
                            assert forall|j: int| 0 <= j < more.len() implies !waits(
                                #[trigger] more[j],
                                group,
                            ) by {
                                if j < i {
                                    assert(seen[j] == more[j]);
                                }
                            }
                        },
                    }
                }
            }
        }
        assert(all.take(all.len() as int) =~= all);
        match best {
            Some(b) => {
                assert(is_next(all, group, b as int));
                assert(all[b as int] == self.runs@[b as int]@);
                Some(self.runs[b].clone())
            },
            None => None,
        }
    }

    /// The next run to serve: highest priority, then oldest, of those that are queued.
    pub fn next_queued(&self) -> (r: Option<ResearchRun>)
        ensures
            match r {
                Some(run) => exists|i: int|
                    #[trigger] is_next(self@.runs, None, i) && run@ == self@.runs[i],
                None => none_waits(self@.runs, None),
            },
    {
        self.next_waiting(None)
    }
}

/// The runs that are running.
pub open spec fn running(runs: Seq<RunState>) -> Seq<RunState> {
    runs.filter(|run: RunState| run.status == "running"@)
}

proof fn none_left_running(runs: Seq<RunState>, now: Seq<char>)
    ensures
        running(runs.map_values(|run: RunState| recovered(run, now))).len() == 0,
    decreases runs.len(),
{
    reveal(Seq::filter);
    reveal_strlit("queued");
    reveal_strlit("running");
    let after = runs.map_values(|run: RunState| recovered(run, now));
    if runs.len() > 0 {
        none_left_running(runs.drop_last(), now);
        assert(after.drop_last() =~= runs.drop_last().map_values(|run: RunState| recovered(run, now)));
        assert("queued"@[0] != "running"@[0]);
    }
}

proof fn next_is_kept(all: Seq<RunState>, batch: Option<Seq<char>>, b: int, i: int)
    requires
        0 <= b < i < all.len(),
        is_next(all.take(i), batch, b),
        waits(all[i], batch) ==> !served_before(all[i], all[b]),
    ensures
        is_next(all.take(i + 1), batch, b),
{
    let seen = all.take(i);
    let more = all.take(i + 1);
    assert forall|j: int| 0 <= j < more.len() && waits(#[trigger] more[j], batch) implies !served_before(more[j], more[b]) by {
        if j < i {
            assert(seen[j] == more[j]);
        }
    }
    assert forall|j: int| 0 <= j < b && waits(#[trigger] more[j], batch) implies served_before(more[b], more[j]) by {
        assert(seen[j] == more[j]);
    }
}

proof fn next_is_replaced(all: Seq<RunState>, batch: Option<Seq<char>>, b: int, i: int)
    requires
        0 <= b < i < all.len(),
        is_next(all.take(i), batch, b),
        waits(all[i], batch),
        served_before(all[i], all[b]),
    ensures
        is_next(all.take(i + 1), batch, i),
{
    let seen = all.take(i);
    let more = all.take(i + 1);
    assert forall|j: int| 0 <= j < i && waits(#[trigger] more[j], batch) implies served_before(more[i], more[j]) by {
        assert(seen[j] == more[j]);
        served_is_chained(all[i], all[b], all[j]);
    }
    assert forall|j: int| 0 <= j < more.len() && waits(#[trigger] more[j], batch) implies !served_before(more[j], more[i]) by {
        order::before_is_irreflexive(all[i].created_at);
        if j < i {
            assert(served_before(more[i], more[j]));
            if served_before(more[j], more[i]) && all[i].priority == all[j].priority {
                order::before_is_transitive(
                    all[i].created_at,
                    all[j].created_at,
                    all[i].created_at,
                );
            }
        }
    }
}

/// What is served before a second run is served before every run that is not served
/// before the second.
proof fn served_is_chained(a: RunState, b: RunState, c: RunState)
    requires
        served_before(a, b),
        !served_before(c, b),
    ensures
        served_before(a, c),
{
    if a.priority == b.priority && b.priority == c.priority {
        order::before_is_total(b.created_at, c.created_at);
        if order::before(b.created_at, c.created_at) {
            order::before_is_transitive(a.created_at, b.created_at, c.created_at);
        }
    }
}

/// How counting an attempt ends.
pub open spec fn attempt_counted(
    before: Tables,
    after: Tables,
    id: Seq<char>,
    now: Seq<char>,
    r: Result<i64, DbError>,
) -> bool {
    let full = exists|i: int|
        0 <= i < before.runs.len() && (#[trigger] before.runs[i]).id == id && before.runs[i].attempt
            == i64::MAX;
    if !has_run(before.runs, id) {
        r == Err::<i64, DbError>(DbError::UnknownRun) && after == before
    } else if full {
        r == Err::<i64, DbError>(DbError::CounterFull) && after == before
    } else {
        &&& after == before.run_attempted(id, now)
        &&& r matches Ok(attempt) && attempt == run_with(before.runs, id)->0.attempt + 1
    }
}

proof fn appended_is_found(runs: Seq<RunState>, run: RunState)
    requires
        !has_run(runs, run.id),
    ensures
        run_with(runs.push(run), run.id) == Some(run),
    decreases runs.len(),
{
    if runs.len() > 0 {
        assert(runs[0].id != run.id);
        assert(runs.push(run).drop_first() =~= runs.drop_first().push(run));
        assert(!has_run(runs.drop_first(), run.id)) by {
            if has_run(runs.drop_first(), run.id) {
                let i = choose|i: int|
                    0 <= i < runs.drop_first().len() && #[trigger] runs.drop_first()[i].id == run.id;
                assert(runs[i + 1].id == run.id);
            }
        }
        appended_is_found(runs.drop_first(), run);
    }
}

proof fn grown_is_wf(before: Tables, after: Tables, run: RunState)
    requires
        before.wf(),
        !has_run(before.runs, run.id),
        after == (Tables { runs: before.runs.push(run), ..before }),
    ensures
        after.wf(),
{
    assert forall|id: Seq<char>| has_run(before.runs, id) implies #[trigger] has_run(
        after.runs,
        id,
    ) by {
        let i = choose|i: int| 0 <= i < before.runs.len() && #[trigger] before.runs[i].id == id;
        assert(after.runs[i].id == id);
    }
    assert forall|i: int, j: int| 0 <= i < j < after.runs.len() implies #[trigger] after.runs[i].id
        != #[trigger] after.runs[j].id by {
        if j < before.runs.len() {
            assert(before.runs[i].id != before.runs[j].id);
        } else {
            assert(before.runs[i].id == after.runs[i].id);
        }
    }
}

// ── listing ─────────────────────────────────────────────────────────

/// A run that a list shows.
enum Filter<'a> {
    Status(Option<&'a str>),
    Batch(&'a str),
}

impl<'a> Filter<'a> {
    spec fn shows(self, run: RunState) -> bool {
        match self {
            Filter::Status(status) => in_status(run, str_view(status)),
            Filter::Batch(batch) => run.batch_id == Some(batch@),
        }
    }

    fn lets_through(&self, run: &ResearchRun) -> (r: bool)
        ensures
            r == self.shows(run@),
    {
        match self {
            Filter::Status(Some(status)) => text::same(run.status.as_str(), status),
            Filter::Status(None) => true,
            Filter::Batch(batch) => match &run.batch_id {
                Some(own) => text::same(own.as_str(), batch),
                None => false,
            },
        }
    }
}

fn place(sorted: &mut Vec<ResearchRun>, run: ResearchRun)
    ensures
        text::views(final(sorted)@) == placed(text::views(old(sorted)@), run@),
{
    let ghost before = text::views(sorted@);
    let mut at: usize = sorted.len();
    let ghost total = sorted@.len() as int;
    proof {
        assert(before.take(total) =~= before);
        assert(before.skip(total) =~= Seq::<RunState>::empty());
        assert(placed(before, run@) + Seq::<RunState>::empty() =~= placed(before, run@));
    }
    while at > 0 && order::earlier(sorted[at - 1].created_at.as_str(), run.created_at.as_str())
        invariant
            at <= sorted@.len() == total,
            before == text::views(sorted@),
            placed(before, run@) == placed(before.take(at as int), run@) + before.skip(at as int),
        decreases at,
    {
        proof {
            let head = before.take(at as int);
            assert(head.last() == sorted@[at - 1]@);
            assert(head.drop_last() =~= before.take(at - 1));
            assert(placed(head.drop_last(), run@).push(head.last()) + before.skip(at as int)
                =~= placed(before.take(at - 1), run@) + before.skip(at - 1));
        }
        at -= 1;
    }
    proof {
        let head = before.take(at as int);
        if at > 0 {
            assert(head.last() == sorted@[at - 1]@);
        }
        assert(placed(head, run@) == head.push(run@));
    }
    let ghost old_rows = sorted@;
    let ghost value = run@;
    sorted.insert(at, run);
    assert(text::views(sorted@) =~= before.take(at as int).push(value) + before.skip(at as int));
}

fn copy_page(items: &Vec<ResearchRun>, limit: i64, offset: i64) -> (r: Vec<ResearchRun>)
    ensures
        text::views(r@) == page(text::views(items@), limit as int, offset as int),
{
    let total: usize = items.len();
    let from: usize = if offset < 0 {
        0
    } else if offset as u128 > total as u128 {
        total
    } else {
        offset as usize
    };
    let rest: usize = total - from;
    let count: usize = if limit < 0 || limit as u128 > rest as u128 {
        rest
    } else {
        limit as usize
    };
    let mut r: Vec<ResearchRun> = Vec::new();
    for i in from..from + count
        invariant
            from + count <= total == items@.len(),
            r@ == items@.subrange(from as int, i as int),
    {
        r.push(items[i].clone());
        assert(items@.subrange(from as int, i + 1) =~= items@.subrange(from as int, i as int).push(
            items@[i as int],
        ));
    }
    assert(text::views(r@) =~= page(text::views(items@), limit as int, offset as int));
    r
}

impl Db {
    fn listed(&self, filter: Filter<'_>) -> (r: Vec<ResearchRun>)
        ensures
            text::views(r@) == newest_first(
                self@.runs.filter(|run: RunState| filter.shows(run)),
            ),
    {
        let ghost all = self@.runs;
        let ghost shows = |run: RunState| filter.shows(run);
        let mut sorted: Vec<ResearchRun> = Vec::new();
        proof {
            reveal(Seq::filter);
            assert(all.take(0) =~= Seq::<RunState>::empty());
            assert(text::views(sorted@) =~= Seq::<RunState>::empty());
        }
        for i in 0..self.runs.len()
            invariant
                all == self@.runs,
                all.len() == self.runs@.len(),
                shows == (|run: RunState| filter.shows(run)),
                text::views(sorted@) == newest_first(all.take(i as int).filter(shows)),
        {
            proof {
                reveal(Seq::filter);
                assert(all.take(i + 1).drop_last() == all.take(i as int));
                assert(self.runs@[i as int]@ == all[i as int]);
            }
            if filter.lets_through(&self.runs[i]) {
                let ghost kept = all.take(i as int).filter(shows);
                assert(kept.push(all[i as int]).drop_last() =~= kept);
                place(&mut sorted, self.runs[i].clone());
            }
        }
        assert(all.take(all.len() as int) =~= all);
        sorted
    }

    /// The runs, newest first, of one status when one is given: `limit` of them from `offset`
    /// on; a negative limit is none.
    pub fn list_runs(&self, status: Option<&str>, limit: i64, offset: i64) -> (r: Vec<ResearchRun>)
        ensures
            text::views(r@) == page(
                newest_first(self@.runs.filter(|run: RunState| in_status(run, str_view(status)))),
                limit as int,
                offset as int,
            ),
    {
        let sorted = self.listed(Filter::Status(status));
        proof {
            let filter = Filter::Status(status);
            assert((|run: RunState| filter.shows(run)) =~= (|run: RunState|
                in_status(run, str_view(status))));
        }
        copy_page(&sorted, limit, offset)
    }

    /// The runs of a batch, newest first.
    pub fn list_by_batch(&self, batch_id: &str) -> (r: Vec<ResearchRun>)
        ensures
            text::views(r@) == newest_first(
                self@.runs.filter(|run: RunState| run.batch_id == Some(batch_id@)),
            ),
    {
        proof {
            let filter = Filter::Batch(batch_id);
            assert((|run: RunState| filter.shows(run)) =~= (|run: RunState|
                run.batch_id == Some(batch_id@)));
        }
        self.listed(Filter::Batch(batch_id))
    }

    // ── sessions ────────────────────────────────────────────────────

    /// Merge what a phase produced into the session of a run.
    pub fn save_session(&mut self, run_id: &str, data: &SessionData) -> (r: Result<(), DbError>)
        ensures
            match r {
                Ok(()) => has_run(old(self)@.runs, run_id@) && final(self)@ == (Tables {
                    sessions: session_saved(old(self)@.sessions, run_id@, data@),
                    ..old(self)@
                }),
                Err(error) => error == DbError::UnknownRun && !has_run(old(self)@.runs, run_id@)
                    && final(self)@ == old(self)@,
            },
            old(self)@.wf() ==> final(self)@.wf(),
    {
        if self.position(run_id).is_none() {
            return Err(DbError::UnknownRun);
        }
        let ghost before = self@;
        let ghost all = before.sessions;
        assert(all.skip(0) == all);
        assert(all.take(0) + session_saved(all, run_id@, data@) =~= session_saved(
            all,
            run_id@,
            data@,
        ));
        let total: usize = self.sessions.len();
        for i in 0..total
            invariant
                before == old(self)@,
                self@ == before,
                all == before.sessions,
                has_run(before.runs, run_id@),
                total == all.len() == self.sessions@.len(),
                session_saved(all, run_id@, data@) == all.take(i as int) + session_saved(
                    all.skip(i as int),
                    run_id@,
                    data@,
                ),
                forall|j: int| 0 <= j < i ==> (#[trigger] all[j]).0 != run_id@,
        {
            let ghost rest = all.skip(i as int);
            assert(rest[0] == self.sessions@[i as int]@);
            assert(rest.drop_first() == all.skip(i + 1));
            if text::same(self.sessions[i].run_id.as_str(), run_id) {
                let data = self.sessions[i].data.merge(data);
                let row = SessionRow { run_id: run_id.to_owned(), data };
                let ghost value = row@;
                self.sessions[i] = row;
                proof {
                    assert(self@.sessions =~= all.update(i as int, value));
                    assert(all.update(i as int, value) =~= all.take(i as int) + (seq![value]
                        + all.skip(i + 1)));
                    assert(self@.runs =~= before.runs);
                    if before.wf() {
                        sessions_are_wf(before, self@, run_id@);
                    }
                }
                return Ok(());
            }
            assert(all.take(i as int) + (seq![rest[0]] + session_saved(
                all.skip(i + 1),
                run_id@,
                data@,
            )) =~= all.take(i + 1) + session_saved(all.skip(i + 1), run_id@, data@));
        }
        assert(all.skip(total as int) =~= Seq::<(Seq<char>, SessionState)>::empty());
        let row = SessionRow { run_id: run_id.to_owned(), data: data.clone() };
        let ghost value = row@;
        self.sessions.push(row);
        proof {
            assert(all.take(total as int) =~= all);
            assert(self@.sessions =~= all.push(value));
            assert(all.push(value) =~= all + seq![value]);
            if before.wf() {
                sessions_are_wf(before, self@, run_id@);
            }
        }
        Ok(())
    }

    /// What the phases of a run have produced.
    pub fn get_session(&self, run_id: &str) -> (r: Option<SessionData>)
        ensures
            text::option_view(r) == session_of(self@.sessions, run_id@),
    {
        let ghost all = self@.sessions;
        assert(all.skip(0) == all);
        for i in 0..self.sessions.len()
            invariant
                all == self@.sessions,
                all.len() == self.sessions@.len(),
                session_of(all, run_id@) == session_of(all.skip(i as int), run_id@),
        {
            assert(all.skip(i as int)[0] == self.sessions@[i as int]@);
            assert(all.skip(i as int).drop_first() == all.skip(i + 1));
            if text::same(self.sessions[i].run_id.as_str(), run_id) {
                return Some(self.sessions[i].data.clone());
            }
        }
        None
    }

    // ── phase log ───────────────────────────────────────────────────

    /// Add an entry to the phase log at the time `now`.
    pub fn log_phase_at(
        &mut self,
        run_id: &str,
        phase: &str,
        status: &str,
        message: &str,
        now: &str,
    ) -> (r: Result<(), DbError>)
        ensures
            event_logged(old(self)@, final(self)@, run_id@, phase@, status@, message@, now@, r),
            old(self)@.wf() ==> final(self)@.wf(),
    {
        if self.position(run_id).is_none() {
            return Err(DbError::UnknownRun);
        }
        if self.last_event == i64::MAX {
            return Err(DbError::CounterFull);
        }
        let ghost before = self@;
        let event = PhaseEvent {
            id: self.last_event + 1,
            run_id: run_id.to_owned(),
            phase: phase.to_owned(),
            status: status.to_owned(),
            message: message.to_owned(),
            created_at: now.to_owned(),
        };
        let ghost value = event@;
        self.last_event = self.last_event + 1;
        self.events.push(event);
        proof {
            assert(self@.events =~= before.events.push(value));
            if before.wf() {
                log_is_wf(before, run_id@, value);
            }
        }
        Ok(())
    }

    /// Add an entry to the phase log.
    pub fn log_phase(&mut self, run_id: &str, phase: &str, status: &str, message: &str) -> (r: Result<
        (),
        DbError,
    >)
        ensures
            exists|now: Seq<char>|
                clock::is_timestamp(now) && #[trigger] event_logged(
                    old(self)@,
                    final(self)@,
                    run_id@,
                    phase@,
                    status@,
                    message@,
                    now,
                    r,
                ),
            old(self)@.wf() ==> final(self)@.wf(),
    {
        let now = Db::now();
        self.log_phase_at(run_id, phase, status, message, now.as_str())
    }

    /// The log entries of a run, in the order in which they were added.
    pub fn phase_log(&self, run_id: &str) -> (r: Vec<PhaseEvent>)
        ensures
            text::views(r@) == log_of(self@.events, run_id@),
    {
        let ghost all = self@.events;
        let mut r: Vec<PhaseEvent> = Vec::new();
        proof {
            reveal(Seq::filter);
            assert(all.take(0) =~= Seq::<EventState>::empty());
            assert(text::views(r@) =~= Seq::<EventState>::empty());
        }
        for i in 0..self.events.len()
            invariant
                all == self@.events,
                all.len() == self.events@.len(),
                text::views(r@) == log_of(all.take(i as int), run_id@),
        {
            proof {
                reveal(Seq::filter);
                assert(all.take(i + 1).drop_last() == all.take(i as int));
                assert(self.events@[i as int]@ == all[i as int]);
            }
            if text::same(self.events[i].run_id.as_str(), run_id) {
                let ghost kept = r@;
                r.push(self.events[i].clone());
                assert(text::views(r@) =~= text::views(kept).push(all[i as int]));
            }
        }
        assert(all.take(all.len() as int) =~= all);
        r
    }
}

/// How adding a log entry ends: only a run has a log, and identifiers run out at the
/// largest one.
pub open spec fn event_logged(
    before: Tables,
    after: Tables,
    run_id: Seq<char>,
    phase: Seq<char>,
    status: Seq<char>,
    message: Seq<char>,
    now: Seq<char>,
    r: Result<(), DbError>,
) -> bool {
    if !has_run(before.runs, run_id) {
        r == Err::<(), DbError>(DbError::UnknownRun) && after == before
    } else if before.last_event == i64::MAX {
        r == Err::<(), DbError>(DbError::CounterFull) && after == before
    } else {
        r == Ok::<(), DbError>(()) && after == before.phase_logged(
            run_id,
            phase,
            status,
            message,
            now,
        )
    }
}

proof fn log_is_wf(before: Tables, run_id: Seq<char>, event: EventState)
    requires
        before.wf(),
        has_run(before.runs, run_id),
        event.run_id == run_id,
        event.id == before.last_event + 1,
    ensures
        (Tables {
            events: before.events.push(event),
            last_event: before.last_event + 1,
            ..before
        }).wf(),
{
    let after = Tables {
        events: before.events.push(event),
        last_event: before.last_event + 1,
        ..before
    };
    assert forall|i: int| 0 <= i < after.events.len() implies has_run(
        after.runs,
        (#[trigger] after.events[i]).run_id,
    ) by {
        if i < before.events.len() {
            assert(has_run(before.runs, before.events[i].run_id));
        }
    }
    assert forall|i: int, j: int| 0 <= i < j < after.events.len() implies (
    #[trigger] after.events[i]).id < (#[trigger] after.events[j]).id by {
        assert(before.events[i].id <= before.last_event);
        if j < before.events.len() {
            assert(before.events[i].id < before.events[j].id);
        }
    }
}

proof fn sessions_are_wf(before: Tables, after: Tables, run_id: Seq<char>)
    requires
        before.wf(),
        has_run(before.runs, run_id),
        after.runs == before.runs,
        after.events == before.events,
        after.last_event == before.last_event,
        after.sessions.len() == before.sessions.len() || (after.sessions.len()
            == before.sessions.len() + 1 && after.sessions.last().0 == run_id && forall|j: int|
            0 <= j < before.sessions.len() ==> (#[trigger] before.sessions[j]).0 != run_id),
        forall|i: int|
            0 <= i < before.sessions.len() ==> (#[trigger] after.sessions[i]).0
                == before.sessions[i].0,
    ensures
        after.wf(),
{
    assert forall|i: int, j: int| 0 <= i < j < after.sessions.len() implies #[trigger] after.sessions[i].0
        != #[trigger] after.sessions[j].0 by {
        if j < before.sessions.len() {
            assert(before.sessions[i].0 != before.sessions[j].0);
        } else {
            assert(before.sessions[i].0 != run_id);
        }
    }
    assert forall|i: int| 0 <= i < after.sessions.len() implies has_run(
        after.runs,
        #[trigger] after.sessions[i].0,
    ) by {
        if i < before.sessions.len() {
            assert(has_run(before.runs, before.sessions[i].0));
        }
    }
}

// ── laws ────────────────────────────────────────────────────────────

/// No two runs have the same slug.
pub open spec fn slugs_differ(runs: Seq<RunState>) -> bool {
    forall|i: int, j: int|
        0 <= i < j < runs.len() ==> #[trigger] runs[i].slug != #[trigger] runs[j].slug
}

/// A run that is created is found under its identifier, waiting, and its slug is that of no
/// other run: reports never overwrite each other.
pub proof fn created_run_is_seen(
    before: Tables,
    after: Tables,
    id: Seq<char>,
    topic: Seq<char>,
    slug: Seq<char>,
    batch_id: Option<Seq<char>>,
    priority: i64,
    now: Seq<char>,
)
    requires
        before.run_created(after, id, topic, slug, batch_id, priority, now),
        !has_run(before.runs, id),
    ensures
        run_with(after.runs, id) == Some(after.runs.last()),
        waits(after.runs.last(), None),
        slugs_differ(before.runs) ==> slugs_differ(after.runs),
{
    let run = after.runs.last();
    assert(before.runs.push(run) =~= after.runs);
    appended_is_found(before.runs, run);
    if slugs_differ(before.runs) {
        assert forall|i: int, j: int| 0 <= i < j < after.runs.len() implies #[trigger] after.runs[i].slug
            != #[trigger] after.runs[j].slug by {
            assert(after.runs[i] == before.runs[i]);
            if j < before.runs.len() {
                assert(after.runs[j] == before.runs[j]);
            } else {
                assert(slugs(before.runs)[i] == before.runs[i].slug);
            }
        }
    }
}

/// A lookup finds a run exactly where there is one, and one with the identifier asked for.
pub proof fn lookup_is_exact(runs: Seq<RunState>, id: Seq<char>)
    ensures
        match run_with(runs, id) {
            Some(run) => run.id == id && has_run(runs, id),
            None => !has_run(runs, id),
        },
    decreases runs.len(),
{
    found_iff_held(runs, id);
    if runs.len() > 0 {
        lookup_is_exact(runs.drop_first(), id);
    }
}

/// A change to one run is what a lookup of that run then shows; any other run is found as it
/// was, and a change to a run that does not exist changes nothing.
pub proof fn change_is_seen(
    runs: Seq<RunState>,
    id: Seq<char>,
    other: Seq<char>,
    change: spec_fn(RunState) -> RunState,
)
    requires
        forall|run: RunState| (#[trigger] change(run)).id == run.id,
    ensures
        run_with(changed(runs, id, change), id) == (match run_with(runs, id) {
            Some(run) => Some(change(run)),
            None => None,
        }),
        other != id ==> run_with(changed(runs, id, change), other) == run_with(runs, other),
        !has_run(runs, id) ==> changed(runs, id, change) == runs,
    decreases runs.len(),
{
    let after = changed(runs, id, change);
    if runs.len() > 0 {
        change_is_seen(runs.drop_first(), id, other, change);
        assert(after.drop_first() =~= changed(runs.drop_first(), id, change));
        assert(after[0].id == runs[0].id);
    }
    if !has_run(runs, id) {
        assert(after =~= runs);
    }
}

/// A new status sets the start time of a run only when it has none, keeps the run's
/// identity, and records an end time exactly when it ends the run.
pub proof fn status_keeps_identity(
    run: RunState,
    status: Seq<char>,
    phase: Seq<char>,
    progress: i64,
    error: Option<Seq<char>>,
    now: Seq<char>,
)
    ensures
        ({
            let after = with_status(run, status, phase, progress, error, now);
            &&& after.id == run.id && after.topic == run.topic && after.slug == run.slug
            &&& after.created_at == run.created_at && after.batch_id == run.batch_id
            &&& after.priority == run.priority && after.attempt == run.attempt
            &&& run.started_at is Some ==> after.started_at == run.started_at
            &&& run.started_at is None ==> after.started_at == Some(now)
            &&& after.completed_at == if is_final(status) {
                Some(now)
            } else {
                run.completed_at
            }
        }),
{
}

/// Recovery leaves no run running, and every run that was running waits again.
pub proof fn recovery_leaves_none_running(tables: Tables, now: Seq<char>)
    ensures
        forall|i: int|
            0 <= i < tables.runs.len() ==> {
                let after = #[trigger] tables.stale_recovered(now).runs[i];
                &&& after.status != "running"@
                &&& tables.runs[i].status == "running"@ ==> waits(after, None)
                &&& tables.runs[i].status != "running"@ ==> after == tables.runs[i]
            },
{
    reveal_strlit("running");
    reveal_strlit("queued");
    assert("running"@ != "queued"@) by {
        assert("running"@[0] == 'r' && "queued"@[0] == 'q');
    }
}

/// What was saved for a run is what its session then shows, merged over what it had; the
/// sessions of other runs stay as they were.
pub proof fn saved_session_is_seen(
    sessions: Seq<(Seq<char>, SessionState)>,
    run_id: Seq<char>,
    other: Seq<char>,
    data: SessionState,
)
    ensures
        session_of(session_saved(sessions, run_id, data), run_id) == Some(
            match session_of(sessions, run_id) {
                Some(before) => merged(before, data),
                None => data,
            },
        ),
        other != run_id ==> session_of(session_saved(sessions, run_id, data), other) == session_of(
            sessions,
            other,
        ),
    decreases sessions.len(),
{
    let after = session_saved(sessions, run_id, data);
    if sessions.len() == 0 {
        assert(after.drop_first() =~= sessions);
    } else if sessions[0].0 == run_id {
        assert(after.drop_first() =~= sessions.drop_first());
    } else {
        saved_session_is_seen(sessions.drop_first(), run_id, other, data);
        assert(after.drop_first() =~= session_saved(sessions.drop_first(), run_id, data));
    }
}

/// Nothing that a session holds is lost by merging, and what is brought is there.
pub proof fn merge_loses_nothing(old: SessionState, new: SessionState)
    ensures
        ({
            let after = merged(old, new);
            &&& after.plan_json is Some <==> old.plan_json is Some || new.plan_json is Some
            &&& after.sources_json is Some <==> old.sources_json is Some || new.sources_json is Some
            &&& after.draft_text is Some <==> old.draft_text is Some || new.draft_text is Some
            &&& after.cited_text is Some <==> old.cited_text is Some || new.cited_text is Some
            &&& after.debate_text is Some <==> old.debate_text is Some || new.debate_text is Some
            &&& after.review_text is Some <==> old.review_text is Some || new.review_text is Some
        }),
        merged(old, blank_session()) == old,
        merged(blank_session(), new) == new,
{
}

/// The log of a run ends with what was logged last, and other logs do not change.
pub proof fn logged_event_is_seen(
    tables: Tables,
    run_id: Seq<char>,
    other: Seq<char>,
    phase: Seq<char>,
    status: Seq<char>,
    message: Seq<char>,
    now: Seq<char>,
)
    requires
        other != run_id,
    ensures
        ({
            let after = tables.phase_logged(run_id, phase, status, message, now);
            &&& log_of(after.events, run_id) == log_of(tables.events, run_id).push(
                after.events.last(),
            )
            &&& after.events.last().phase == phase
            &&& after.events.last().status == status
            &&& after.events.last().message == message
            &&& after.events.last().created_at == now
            &&& log_of(after.events, other) == log_of(tables.events, other)
        }),
{
    reveal(Seq::filter);
    let after = tables.phase_logged(run_id, phase, status, message, now);
    assert(after.events.drop_last() =~= tables.events);
}

/// A log entry with a smaller identifier stands earlier: the log reads in the order in
/// which it was written.
pub proof fn log_is_in_order(tables: Tables, run_id: Seq<char>)
    requires
        tables.wf(),
    ensures
        forall|i: int, j: int|
            0 <= i < j < log_of(tables.events, run_id).len() ==> (#[trigger] log_of(
                tables.events,
                run_id,
            )[i]).id < (#[trigger] log_of(tables.events, run_id)[j]).id,
{
    filtered_log_ascends(tables.events, run_id);
}

proof fn filtered_log_ascends(events: Seq<EventState>, run_id: Seq<char>)
    requires
        forall|i: int, j: int|
            0 <= i < j < events.len() ==> (#[trigger] events[i]).id < (#[trigger] events[j]).id,
    ensures
        forall|i: int, j: int|
            0 <= i < j < log_of(events, run_id).len() ==> (#[trigger] log_of(events, run_id)[i]).id
                < (#[trigger] log_of(events, run_id)[j]).id,
        forall|i: int|
            0 <= i < log_of(events, run_id).len() ==> events.contains(
                #[trigger] log_of(events, run_id)[i],
            ),
    decreases events.len(),
{
    reveal(Seq::filter);
    if events.len() > 0 {
        let rest = events.drop_last();
        filtered_log_ascends(rest, run_id);
        let log = log_of(events, run_id);
        let before = log_of(rest, run_id);
        assert forall|i: int| 0 <= i < log.len() implies events.contains(#[trigger] log[i]) by {
            if i < before.len() {
                assert(log[i] == before[i]);
                let k = choose|k: int| 0 <= k < rest.len() && rest[k] == before[i];
                assert(events[k] == log[i]);
            } else {
                assert(events[events.len() - 1] == log[i]);
            }
        }
        assert forall|i: int, j: int| 0 <= i < j < log.len() implies (#[trigger] log[i]).id < (
        #[trigger] log[j]).id by {
            if j < before.len() {
                assert(before[i].id < before[j].id);
            } else {
                assert(log[i] == before[i]);
                let k = choose|k: int| 0 <= k < rest.len() && rest[k] == before[i];
                assert(events[k].id < events[events.len() - 1].id);
            }
        }
    }
}

/// A list shows each run once, newest first.
pub proof fn list_is_newest_first(runs: Seq<RunState>)
    ensures
        newest_first(runs).to_multiset() == runs.to_multiset(),
        forall|i: int, j: int|
            0 <= i < j < newest_first(runs).len() ==> !order::before(
                (#[trigger] newest_first(runs)[i]).created_at,
                (#[trigger] newest_first(runs)[j]).created_at,
            ),
    decreases runs.len(),
{
    broadcast use vstd::seq_lib::group_to_multiset_ensures;

    if runs.len() > 0 {
        list_is_newest_first(runs.drop_last());
        placed_is_sorted(newest_first(runs.drop_last()), runs.last());
        assert(runs.drop_last().push(runs.last()) =~= runs);
    }
}

proof fn placed_is_sorted(sorted: Seq<RunState>, run: RunState)
    requires
        forall|i: int, j: int|
            0 <= i < j < sorted.len() ==> !order::before(
                (#[trigger] sorted[i]).created_at,
                (#[trigger] sorted[j]).created_at,
            ),
    ensures
        placed(sorted, run).to_multiset() == sorted.to_multiset().insert(run),
        forall|i: int, j: int|
            0 <= i < j < placed(sorted, run).len() ==> !order::before(
                (#[trigger] placed(sorted, run)[i]).created_at,
                (#[trigger] placed(sorted, run)[j]).created_at,
            ),
        forall|i: int|
            0 <= i < placed(sorted, run).len() ==> #[trigger] placed(sorted, run)[i] == run
                || sorted.contains(placed(sorted, run)[i]),
    decreases sorted.len(),
{
    broadcast use vstd::seq_lib::group_to_multiset_ensures;

    let out = placed(sorted, run);
    if sorted.len() > 0 && order::before(sorted.last().created_at, run.created_at) {
        let head = sorted.drop_last();
        let last = sorted.last();
        placed_is_sorted(head, run);
        let before = placed(head, run);
        assert(head.push(last) =~= sorted);
        assert(head.to_multiset().insert(run).insert(last) =~= head.to_multiset().insert(last).insert(
            run,
        ));
        assert forall|i: int| 0 <= i < out.len() implies #[trigger] out[i] == run
            || sorted.contains(out[i]) by {
            if i < before.len() {
                assert(out[i] == before[i]);
                if before[i] != run {
                    let k = choose|k: int| 0 <= k < head.len() && head[k] == before[i];
                    assert(sorted[k] == out[i]);
                }
            } else {
                assert(sorted[sorted.len() - 1] == out[i]);
            }
        }
        assert forall|i: int, j: int| 0 <= i < j < out.len() implies !order::before(
            (#[trigger] out[i]).created_at,
            (#[trigger] out[j]).created_at,
        ) by {
            if j < before.len() {
                assert(!order::before(before[i].created_at, before[j].created_at));
            } else if before[i] == run {
                if order::before(run.created_at, last.created_at) {
                    order::before_is_transitive(
                        run.created_at,
                        last.created_at,
                        run.created_at,
                    );
                    order::before_is_irreflexive(run.created_at);
                }
            } else {
                let k = choose|k: int| 0 <= k < head.len() && head[k] == before[i];
                assert(sorted[k] == out[i]);
                assert(sorted[sorted.len() - 1] == last);
            }
        }
    } else {
        assert forall|i: int| 0 <= i < out.len() implies #[trigger] out[i] == run
            || sorted.contains(out[i]) by {
            if i < sorted.len() {
                assert(sorted[i] == out[i]);
            }
        }
        assert forall|i: int, j: int| 0 <= i < j < out.len() implies !order::before(
            (#[trigger] out[i]).created_at,
            (#[trigger] out[j]).created_at,
        ) by {
            if j < sorted.len() {
                assert(!order::before(sorted[i].created_at, sorted[j].created_at));
            } else if order::before(sorted[i].created_at, run.created_at) {
                let last = sorted.last();
                order::before_is_total(last.created_at, sorted[i].created_at);
                if order::before(last.created_at, sorted[i].created_at) {
                    order::before_is_transitive(
                        last.created_at,
                        sorted[i].created_at,
                        run.created_at,
                    );
                } else if i < sorted.len() - 1 {
                    assert(!order::before(sorted[i].created_at, sorted[sorted.len() - 1].created_at));
                }
            }
        }
    }
}

/// A new run waits at the start of its first attempt, with the topic, the batch and the
/// priority it was given, and nothing has come of it yet.
pub proof fn new_runs_start_at_the_start(
    id: Seq<char>,
    topic: Seq<char>,
    slug: Seq<char>,
    batch_id: Option<Seq<char>>,
    priority: i64,
    now: Seq<char>,
)
    ensures
        ({
            let run = fresh_run(id, topic, slug, batch_id, priority, now);
            &&& run.id == id && run.topic == topic && run.slug == slug
            &&& run.batch_id == batch_id && run.priority == priority
            &&& run.status == "queued"@ && run.phase == "planning"@ && run.progress == 0
            &&& run.attempt == 1 && run.created_at == now && run.updated_at == now
            &&& run.error is None && run.report_path is None && run.provenance_path is None
            &&& run.started_at is None && run.completed_at is None
            &&& waits(run, None)
            &&& batch_id is Some ==> waits(run, batch_id)
        }),
{
}

/// A new status is what a run then has, with its phase, its progress and its error; what was
/// delivered stays.
pub proof fn a_new_status_is_told(
    run: RunState,
    status: Seq<char>,
    phase: Seq<char>,
    progress: i64,
    error: Option<Seq<char>>,
    now: Seq<char>,
)
    ensures
        ({
            let after = with_status(run, status, phase, progress, error, now);
            &&& after.status == status && after.phase == phase && after.progress == progress
            &&& after.error == error && after.updated_at == now
            &&& after.report_path == run.report_path
            &&& after.provenance_path == run.provenance_path
        }),
{
}

/// A run ends when it is complete, failed, blocked or cancelled; one that waits or runs has
/// not ended.
pub proof fn runs_end_four_ways(status: Seq<char>)
    ensures
        is_final("complete"@) && is_final("failed"@) && is_final("blocked"@) && is_final(
            "cancelled"@,
        ),
        !is_final("queued"@) && !is_final("running"@),
        is_final(status) ==> status != "queued"@ && status != "running"@,
{
    reveal_strlit("complete");
    reveal_strlit("failed");
    reveal_strlit("blocked");
    reveal_strlit("cancelled");
    reveal_strlit("queued");
    reveal_strlit("running");
    assert("complete"@.len() == 8 && "failed"@[0] == 'f' && "blocked"@[0] == 'b'
        && "cancelled"@.len() == 9 && "queued"@.len() == 6 && "running"@.len() == 7);
    assert("queued"@[0] == 'q' && "running"@[0] == 'r');
}

/// A run that starts is running; it keeps the time of its first start, and all else.
pub proof fn started_runs_run(run: RunState, now: Seq<char>)
    ensures
        ({
            let after = as_started(run, now);
            &&& after.status == "running"@ && after.updated_at == now
            &&& run.started_at is None ==> after.started_at == Some(now)
            &&& run.started_at is Some ==> after.started_at == run.started_at
            &&& after.id == run.id && after.topic == run.topic && after.slug == run.slug
            &&& after.phase == run.phase && after.progress == run.progress
            &&& after.error == run.error && after.report_path == run.report_path
            &&& after.provenance_path == run.provenance_path && after.batch_id == run.batch_id
            &&& after.priority == run.priority && after.attempt == run.attempt
            &&& after.created_at == run.created_at && after.completed_at == run.completed_at
        }),
{
}

/// A run that is complete has its report and its provenance, each under its own path, all of
/// its progress, and no error.
pub proof fn complete_runs_are_delivered(
    run: RunState,
    report_path: Seq<char>,
    provenance_path: Seq<char>,
    now: Seq<char>,
)
    ensures
        ({
            let after = as_complete(run, report_path, provenance_path, now);
            &&& after.status == "complete"@ && after.phase == "delivering"@ && after.progress
                == 100
            &&& after.report_path == Some(report_path)
            &&& after.provenance_path == Some(provenance_path)
            &&& after.error is None && after.completed_at == Some(now) && after.updated_at == now
            &&& after.id == run.id && after.topic == run.topic && after.slug == run.slug
            &&& after.batch_id == run.batch_id && after.priority == run.priority
            &&& after.attempt == run.attempt && after.created_at == run.created_at
            &&& after.started_at == run.started_at
        }),
{
}

/// A run that is queued again starts over on its first attempt, without its error; one more
/// attempt counts one up and changes nothing else but the time.
pub proof fn attempts_are_counted(run: RunState, now: Seq<char>)
    requires
        run.attempt < i64::MAX,
    ensures
        ({
            let again = requeued(run, now);
            let more = attempted_again(run, now);
            &&& again.status == "queued"@ && again.phase == "planning"@ && again.progress == 0
            &&& again.attempt == 1 && again.error is None && again.id == run.id
            &&& again.topic == run.topic && again.slug == run.slug && again.batch_id
                == run.batch_id && again.priority == run.priority && again.created_at
                == run.created_at
            &&& more.attempt == run.attempt + 1
            &&& more == (RunState { attempt: more.attempt, updated_at: now, ..run })
        }),
{
    reveal_strlit("queued");
}

/// What is brought goes before what a session has, part for part, and what is not brought
/// stays.
pub proof fn the_newest_part_is_kept(old: SessionState, new: SessionState)
    ensures
        ({
            let after = merged(old, new);
            &&& new.plan_json is Some ==> after.plan_json == new.plan_json
            &&& new.plan_json is None ==> after.plan_json == old.plan_json
            &&& new.sources_json is Some ==> after.sources_json == new.sources_json
            &&& new.sources_json is None ==> after.sources_json == old.sources_json
            &&& new.draft_text is Some ==> after.draft_text == new.draft_text
            &&& new.draft_text is None ==> after.draft_text == old.draft_text
            &&& new.cited_text is Some ==> after.cited_text == new.cited_text
            &&& new.cited_text is None ==> after.cited_text == old.cited_text
            &&& new.debate_text is Some ==> after.debate_text == new.debate_text
            &&& new.debate_text is None ==> after.debate_text == old.debate_text
            &&& new.review_text is Some ==> after.review_text == new.review_text
            &&& new.review_text is None ==> after.review_text == old.review_text
        }),
{
}

/// What is logged belongs to its run, under the next number, and stands behind all that was
/// logged before; runs and sessions stay as they are.
pub proof fn events_are_numbered(
    tables: Tables,
    run_id: Seq<char>,
    phase: Seq<char>,
    status: Seq<char>,
    message: Seq<char>,
    now: Seq<char>,
)
    requires
        0 <= tables.last_event < i64::MAX,
    ensures
        ({
            let after = tables.phase_logged(run_id, phase, status, message, now);
            &&& after.events.len() == tables.events.len() + 1
            &&& after.events.drop_last() == tables.events
            &&& after.events.last().run_id == run_id
            &&& after.events.last().id == tables.last_event + 1
            &&& after.last_event == tables.last_event + 1
            &&& after.runs == tables.runs && after.sessions == tables.sessions
        }),
{
    let after = tables.phase_logged(run_id, phase, status, message, now);
    assert(after.events.drop_last() =~= tables.events);
}

/// The next run is one of the highest priority among those that wait, and of these the one
/// that was created first; there is only one.
pub proof fn the_most_urgent_is_next(
    runs: Seq<RunState>,
    batch: Option<Seq<char>>,
    i: int,
    j: int,
)
    requires
        is_next(runs, batch, i),
        0 <= j < runs.len(),
        runs[j].status == "queued"@,
        batch is None || runs[j].batch_id == batch,
    ensures
        runs[i].status == "queued"@,
        batch is None || runs[i].batch_id == batch,
        runs[j].priority <= runs[i].priority,
        runs[j].priority == runs[i].priority ==> !order::before(
            runs[j].created_at,
            runs[i].created_at,
        ),
        is_next(runs, batch, j) ==> i == j,
{
    assert(waits(runs[j], batch));
    assert(!served_before(runs[j], runs[i]));
}

/// A page shows as many items as it may, from its offset on, in their order.
pub proof fn pages_follow_one_another<T>(items: Seq<T>, limit: int, offset: int, k: int)
    requires
        0 <= limit,
        0 <= offset,
    ensures
        page(items, limit, offset).len() <= limit,
        offset >= items.len() ==> page(items, limit, offset).len() == 0,
        offset + limit <= items.len() ==> page(items, limit, offset).len() == limit,
        offset <= items.len() < offset + limit ==> page(items, limit, offset).len()
            == items.len() - offset,
        0 <= k < page(items, limit, offset).len() ==> page(items, limit, offset)[k]
            == items[offset + k],
{
}

/// A run that is recovered goes on where it was: nothing of it changes but that it waits, and
/// the time.
pub proof fn recovered_runs_go_on(tables: Tables, now: Seq<char>, i: int)
    requires
        0 <= i < tables.runs.len(),
        tables.runs[i].status == "running"@,
    ensures
        ({
            let before = tables.runs[i];
            let after = tables.stale_recovered(now).runs[i];
            &&& after.status == "queued"@ && after.updated_at == now
            &&& after == (RunState { status: after.status, updated_at: now, ..before })
            &&& tables.stale_recovered(now).sessions == tables.sessions
            &&& tables.stale_recovered(now).events == tables.events
        }),
{
}

} // verus!
