//! The tools of the MCP server, as operations on the queue.

use vstd::prelude::*;

use crate::clock;
use crate::db;
use crate::db::{Db, DbError, EventState, PhaseEvent, ResearchRun, RunState, Tables};
use crate::slug;
use crate::text;
use crate::workflow::engine;
use crate::workflow::report;

verus! {

// ── parameters and results ──────────────────────────────────────────

/// What a submission says.
#[derive(Debug)]
pub struct SubmitParams {
    /// The topic, in one or two sentences.
    pub topic: String,
    /// Higher is sooner; 0 where it is left out.
    pub priority: Option<i64>,
}

/// What a submission of several topics says.
#[derive(Debug)]
pub struct BatchSubmitParams {
    pub topics: Vec<String>,
    /// Higher is sooner; 0 where it is left out.
    pub priority: Option<i64>,
}

/// What is to be listed.
#[derive(Debug)]
pub struct ListParams {
    /// One of the states of a run.
    pub status: Option<String>,
    /// The most runs to list; 20 where it is left out.
    pub limit: Option<i64>,
    /// How many to leave out first; 0 where it is left out.
    pub offset: Option<i64>,
}

/// Which run is meant.
#[derive(Debug)]
pub struct RunIdParams {
    pub run_id: String,
}

/// Which run or batch is meant.
#[derive(Debug)]
pub struct CancelParams {
    /// A run; it goes before a batch.
    pub run_id: Option<String>,
    /// A batch.
    pub batch_id: Option<String>,
}

/// A run that was submitted.
#[derive(Debug)]
pub struct SubmitResult {
    pub run_id: String,
    pub status: String,
    pub slug: String,
}

/// A batch that was submitted.
#[derive(Debug)]
pub struct BatchSubmitResult {
    pub batch_id: String,
    pub run_ids: Vec<String>,
}

/// A run as it is shown.
#[derive(Debug)]
pub struct RunView {
    pub id: String,
    pub topic: String,
    pub slug: String,
    pub status: String,
    pub phase: String,
    pub progress: i64,
    pub error: Option<String>,
    pub report_path: Option<String>,
    pub provenance_path: Option<String>,
    pub batch_id: Option<String>,
    pub priority: i64,
    pub attempt: i64,
    pub created_at: String,
    pub updated_at: String,
    pub started_at: Option<String>,
    pub completed_at: Option<String>,
}

impl View for RunView {
    type V = RunState;

    open spec fn view(&self) -> RunState {
        RunState {
            id: self.id@,
            topic: self.topic@,
            slug: self.slug@,
            status: self.status@,
            phase: self.phase@,
            progress: self.progress,
            error: text::option_view(self.error),
            report_path: text::option_view(self.report_path),
            provenance_path: text::option_view(self.provenance_path),
            batch_id: text::option_view(self.batch_id),
            priority: self.priority,
            attempt: self.attempt,
            created_at: self.created_at@,
            updated_at: self.updated_at@,
            started_at: text::option_view(self.started_at),
            completed_at: text::option_view(self.completed_at),
        }
    }
}

impl vstd::std_specs::convert::FromSpecImpl<ResearchRun> for RunView {
    open spec fn obeys_from_spec() -> bool {
        true
    }

    open spec fn from_spec(r: ResearchRun) -> RunView {
        RunView {
            id: r.id,
            topic: r.topic,
            slug: r.slug,
            status: r.status,
            phase: r.phase,
            progress: r.progress,
            error: r.error,
            report_path: r.report_path,
            provenance_path: r.provenance_path,
            batch_id: r.batch_id,
            priority: r.priority,
            attempt: r.attempt,
            created_at: r.created_at,
            updated_at: r.updated_at,
            started_at: r.started_at,
            completed_at: r.completed_at,
        }
    }
}

impl From<ResearchRun> for RunView {
    fn from(r: ResearchRun) -> (view: RunView) {
        RunView {
            id: r.id,
            topic: r.topic,
            slug: r.slug,
            status: r.status,
            phase: r.phase,
            progress: r.progress,
            error: r.error,
            report_path: r.report_path,
            provenance_path: r.provenance_path,
            batch_id: r.batch_id,
            priority: r.priority,
            attempt: r.attempt,
            created_at: r.created_at,
            updated_at: r.updated_at,
            started_at: r.started_at,
            completed_at: r.completed_at,
        }
    }
}

/// Some runs, and how many they are.
#[derive(Debug)]
pub struct RunListResult {
    pub runs: Vec<RunView>,
    pub total: usize,
}

/// A run and its log.
#[derive(Debug)]
pub struct StatusResult {
    pub run: RunView,
    pub phase_log: Vec<PhaseLogEntry>,
}

/// An entry of the log as it is shown.
#[derive(Debug)]
pub struct PhaseLogEntry {
    pub phase: String,
    pub status: String,
    pub message: String,
    pub created_at: String,
}

/// A log entry as it is shown, as its view.
pub struct EntryView {
    pub phase: Seq<char>,
    pub status: Seq<char>,
    pub message: Seq<char>,
    pub created_at: Seq<char>,
}

impl View for PhaseLogEntry {
    type V = EntryView;

    open spec fn view(&self) -> EntryView {
        EntryView {
            phase: self.phase@,
            status: self.status@,
            message: self.message@,
            created_at: self.created_at@,
        }
    }
}

/// What a run has written.
#[derive(Debug)]
pub struct OutputResult {
    pub run_id: String,
    pub report_path: Option<String>,
    pub provenance_path: Option<String>,
    pub report: Option<String>,
    pub provenance: Option<String>,
}

/// Why a tool refuses.
#[derive(Debug)]
pub enum McpError {
    /// The request makes no sense.
    Invalid(String),
    /// The queue refused the change.
    Internal(DbError),
}

/// The request makes no sense, for this reason.
pub open spec fn is_invalid(error: McpError, message: Seq<char>) -> bool {
    error matches McpError::Invalid(text) && text@ == message
}

/// What is said of a run that does not exist.
pub open spec fn not_found(run_id: Seq<char>) -> Seq<char> {
    "run "@ + run_id + " not found"@
}

fn not_found_error(run_id: &str) -> (r: McpError)
    ensures
        is_invalid(r, not_found(run_id@)),
{
    let mut message = "run ".to_owned();
    message.append(run_id);
    message.append(" not found");
    McpError::Invalid(message)
}

/// The priority asked for; 0 where none is.
pub open spec fn priority_of(priority: Option<i64>) -> i64 {
    match priority {
        Some(value) => value,
        None => 0,
    }
}

fn priority_or_zero(priority: Option<i64>) -> (r: i64)
    ensures
        r == priority_of(priority),
{
    match priority {
        Some(value) => value,
        None => 0,
    }
}

// ── submitting ──────────────────────────────────────────────────────

/// The slug of a topic.
pub open spec fn slug_of(topic: Seq<char>) -> Seq<char> {
    slug::slug_for(topic)
}

/// How a submission ends: the run is in the queue under `id`, or nothing has changed because
/// the identifier is taken.
pub open spec fn submitted(
    before: Tables,
    after: Tables,
    topic: Seq<char>,
    priority: i64,
    id: Seq<char>,
    now: Seq<char>,
    r: Result<SubmitResult, McpError>,
) -> bool {
    if db::has_run(before.runs, id) {
        r matches Err(McpError::Internal(error)) && error == DbError::DuplicateRun && after == before
    } else {
        &&& before.run_created(after, id, topic, slug_of(topic), None, priority, now)
        &&& r matches Ok(result) && result.run_id@ == id && result.status@ == "queued"@
            && result.slug@ == after.runs.last().slug
    }
}

fn submit_topic(queue: &mut Db, topic: &str, priority: i64, id: &str, now: &str) -> (r: Result<
    SubmitResult,
    McpError,
>)
    ensures
        submitted(old(queue)@, final(queue)@, topic@, priority, id@, now@, r),
        old(queue)@.wf() ==> final(queue)@.wf(),
{
    let slug = report::make_slug(topic);
    match queue.create_run_at(topic, slug.as_str(), None, priority, id, now) {
        Ok(run) => Ok(SubmitResult { run_id: run.id, status: run.status, slug: run.slug }),
        Err(error) => Err(McpError::Internal(error)),
    }
}

/// Put a topic into the queue under the identifier `id`, at the time `now`.
pub fn research_submit_at(queue: &mut Db, params: &SubmitParams, id: &str, now: &str) -> (r: Result<
    SubmitResult,
    McpError,
>)
    ensures
        submitted(
            old(queue)@,
            final(queue)@,
            params.topic@,
            priority_of(params.priority),
            id@,
            now@,
            r,
        ),
        old(queue)@.wf() ==> final(queue)@.wf(),
{
    submit_topic(queue, params.topic.as_str(), priority_or_zero(params.priority), id, now)
}

/// Put a topic into the queue.
pub fn research_submit(queue: &mut Db, params: &SubmitParams) -> (r: Result<SubmitResult, McpError>)
    ensures
        exists|id: Seq<char>, now: Seq<char>|
            clock::is_uuid(id) && clock::is_timestamp(now) && #[trigger] submitted(
                old(queue)@,
                final(queue)@,
                params.topic@,
                priority_of(params.priority),
                id,
                now,
                r,
            ),
        old(queue)@.wf() ==> final(queue)@.wf(),
{
    let id = clock::fresh_uuid();
    let now = Db::now();
    research_submit_at(queue, params, id.as_str(), now.as_str())
}

/// How a run is submitted again: a new run with the topic and the priority of the first,
/// and nothing of its session.
pub open spec fn resubmitted(
    before: Tables,
    after: Tables,
    run_id: Seq<char>,
    id: Seq<char>,
    now: Seq<char>,
    r: Result<SubmitResult, McpError>,
) -> bool {
    match db::run_with(before.runs, run_id) {
        Some(first) => submitted(before, after, first.topic, first.priority, id, now, r),
        None => after == before && (r matches Err(error) && is_invalid(error, not_found(run_id))),
    }
}

/// Submit a run again, from scratch, under the identifier `id`, at the time `now`.
pub fn research_rerun_at(queue: &mut Db, params: &RunIdParams, id: &str, now: &str) -> (r: Result<
    SubmitResult,
    McpError,
>)
    ensures
        resubmitted(old(queue)@, final(queue)@, params.run_id@, id@, now@, r),
        old(queue)@.wf() ==> final(queue)@.wf(),
{
    match queue.get_run(params.run_id.as_str()) {
        Some(first) => submit_topic(queue, first.topic.as_str(), first.priority, id, now),
        None => Err(not_found_error(params.run_id.as_str())),
    }
}

/// Submit a run again, from scratch.
pub fn research_rerun(queue: &mut Db, params: &RunIdParams) -> (r: Result<SubmitResult, McpError>)
    ensures
        exists|id: Seq<char>, now: Seq<char>|
            clock::is_uuid(id) && clock::is_timestamp(now) && #[trigger] resubmitted(
                old(queue)@,
                final(queue)@,
                params.run_id@,
                id,
                now,
                r,
            ),
        old(queue)@.wf() ==> final(queue)@.wf(),
{
    let id = clock::fresh_uuid();
    let now = Db::now();
    research_rerun_at(queue, params, id.as_str(), now.as_str())
}

/// What is drawn for a new run: its identifier and its time.
#[derive(Debug)]
pub struct Draw {
    pub id: String,
    pub now: String,
}

/// What is drawn for a new run, as its view.
pub struct DrawView {
    pub id: Seq<char>,
    pub now: Seq<char>,
}

impl View for Draw {
    type V = DrawView;

    open spec fn view(&self) -> DrawView {
        DrawView { id: self.id@, now: self.now@ }
    }
}

/// Identifiers in the notation of a UUID, and times in RFC 3339 notation.
pub open spec fn are_drawn(draws: Seq<DrawView>) -> bool {
    forall|i: int|
        0 <= i < draws.len() ==> clock::is_uuid((#[trigger] draws[i]).id) && clock::is_timestamp(
            draws[i].now,
        )
}

/// The i-th identifier is taken: by a run that is there, or by an earlier draw.
pub open spec fn is_taken(runs: Seq<RunState>, draws: Seq<DrawView>, i: int) -> bool {
    ||| db::has_run(runs, draws[i].id)
    ||| exists|j: int| 0 <= j < i && (#[trigger] draws[j]).id == draws[i].id
}

/// None of the first `n` identifiers is taken.
pub open spec fn none_taken(runs: Seq<RunState>, draws: Seq<DrawView>, n: int) -> bool {
    forall|i: int| 0 <= i < n ==> !#[trigger] is_taken(runs, draws, i)
}

/// The run at the end of `runs` is the one that a batch enrolled for a topic.
pub open spec fn is_enrolled(
    runs: Seq<RunState>,
    topic: Seq<char>,
    batch: Seq<char>,
    priority: i64,
    draw: DrawView,
) -> bool {
    let run = runs.last();
    &&& run == db::fresh_run(draw.id, topic, run.slug, Some(batch), priority, draw.now)
    &&& slug::is_first_free(run.slug, slug_of(topic), db::slugs(runs.drop_last()))
}

/// The runs of a batch stand behind those that were there, one for each topic, in order.
pub open spec fn enrolled(
    before: Tables,
    after: Tables,
    topics: Seq<Seq<char>>,
    batch: Seq<char>,
    priority: i64,
    draws: Seq<DrawView>,
) -> bool {
    let n = before.runs.len() as int;
    &&& draws.len() == topics.len()
    &&& after.runs.len() == n + topics.len()
    &&& after.runs.take(n) == before.runs
    &&& forall|i: int|
        0 <= i < topics.len() ==> is_enrolled(
            after.runs.take(n + i + 1),
            topics[i],
            batch,
            priority,
            #[trigger] draws[i],
        )
    &&& after.sessions == before.sessions
    &&& after.events == before.events
    &&& after.last_event == before.last_event
}

proof fn enrolling_one_more(
    before: Tables,
    middle: Tables,
    after: Tables,
    topics: Seq<Seq<char>>,
    k: int,
    batch: Seq<char>,
    priority: i64,
    draws: Seq<DrawView>,
)
    requires
        0 <= k < topics.len() <= draws.len(),
        enrolled(before, middle, topics.take(k), batch, priority, draws.take(k)),
        middle.run_created(
            after,
            draws[k].id,
            topics[k],
            slug_of(topics[k]),
            Some(batch),
            priority,
            draws[k].now,
        ),
    ensures
        enrolled(before, after, topics.take(k + 1), batch, priority, draws.take(k + 1)),
{
    let n = before.runs.len() as int;
    let more = topics.take(k + 1);
    let all = draws.take(k + 1);
    assert(after.runs =~= middle.runs.push(after.runs.last()));
    assert(after.runs.take(n) =~= middle.runs.take(n));
    assert forall|i: int| 0 <= i < more.len() implies is_enrolled(
        after.runs.take(n + i + 1),
        more[i],
        batch,
        priority,
        #[trigger] all[i],
    ) by {
        if i < k {
            assert(topics.take(k)[i] == more[i]);
            assert(draws.take(k)[i] == all[i]);
            assert(after.runs.take(n + i + 1) =~= middle.runs.take(n + i + 1));
        } else {
            assert(after.runs.take(n + i + 1) =~= after.runs);
            assert(after.runs.drop_last() =~= middle.runs);
        }
    }
}

/// Once part of a batch is enrolled, the next identifier is held by a run exactly when it is
/// taken.
proof fn held_when_taken(
    before: Tables,
    middle: Tables,
    topics: Seq<Seq<char>>,
    batch: Seq<char>,
    priority: i64,
    draws: Seq<DrawView>,
    k: int,
)
    requires
        0 <= k <= topics.len(),
        k < draws.len(),
        enrolled(before, middle, topics.take(k), batch, priority, draws.take(k)),
    ensures
        db::has_run(middle.runs, draws[k].id) == is_taken(before.runs, draws, k),
{
    let n = before.runs.len() as int;
    let id = draws[k].id;
    assert forall|j: int| 0 <= j < k implies (#[trigger] middle.runs[n + j]).id == draws[j].id by {
        assert(draws.take(k)[j] == draws[j]);
        assert(middle.runs.take(n + j + 1).last() == middle.runs[n + j]);
    }
    assert forall|i: int| 0 <= i < n implies middle.runs[i] == #[trigger] before.runs[i] by {
        assert(middle.runs.take(n)[i] == middle.runs[i]);
    }
    if db::has_run(middle.runs, id) {
        let i = choose|i: int| 0 <= i < middle.runs.len() && (#[trigger] middle.runs[i]).id == id;
        if i < n {
            assert(before.runs[i].id == id);
        } else {
            assert(middle.runs[n + (i - n)].id == draws[i - n].id);
        }
    }
    if is_taken(before.runs, draws, k) {
        if db::has_run(before.runs, id) {
            let i = choose|i: int| 0 <= i < n && (#[trigger] before.runs[i]).id == id;
            assert(middle.runs[i].id == id);
        } else {
            let j = choose|j: int| 0 <= j < k && (#[trigger] draws[j]).id == id;
            assert(middle.runs[n + j].id == id);
        }
    }
}

/// The identifiers of some draws.
pub open spec fn drawn_ids(draws: Seq<DrawView>) -> Seq<Seq<char>> {
    draws.map_values(|draw: DrawView| draw.id)
}

/// How the submission of a batch ends: there is a run for each topic, in order, unless an
/// identifier is taken; then the runs before it stay, and there are no others.
pub open spec fn batch_submitted(
    before: Tables,
    after: Tables,
    topics: Seq<Seq<char>>,
    priority: i64,
    batch: Seq<char>,
    draws: Seq<DrawView>,
    r: Result<BatchSubmitResult, McpError>,
) -> bool {
    if topics.len() == 0 {
        after == before && (r matches Err(error) && is_invalid(error, "topics must not be empty"@))
    } else if none_taken(before.runs, draws, topics.len() as int) {
        &&& r matches Ok(result) && result.batch_id@ == batch && text::views(result.run_ids@)
            == drawn_ids(draws)
        &&& enrolled(before, after, topics, batch, priority, draws)
    } else {
        &&& r matches Err(McpError::Internal(error)) && error == DbError::DuplicateRun
        &&& exists|k: int|
            {
                &&& 0 <= k < topics.len()
                &&& none_taken(before.runs, draws, k)
                &&& #[trigger] is_taken(before.runs, draws, k)
                &&& enrolled(before, after, topics.take(k), batch, priority, draws.take(k))
            }
    }
}

/// Put several topics into the queue as the batch `batch`, with an identifier and a time
/// drawn for each.
pub fn research_batch_submit_at(
    queue: &mut Db,
    params: &BatchSubmitParams,
    batch: &str,
    draws: &Vec<Draw>,
) -> (r: Result<BatchSubmitResult, McpError>)
    requires
        draws@.len() == params.topics@.len(),
    ensures
        batch_submitted(
            old(queue)@,
            final(queue)@,
            text::views(params.topics@),
            priority_of(params.priority),
            batch@,
            text::views(draws@),
            r,
        ),
        old(queue)@.wf() ==> final(queue)@.wf(),
{
    if params.topics.len() == 0 {
        return Err(McpError::Invalid("topics must not be empty".to_owned()));
    }
    let priority = priority_or_zero(params.priority);
    let ghost before = queue@;
    let ghost topics = text::views(params.topics@);
    let ghost drawn = text::views(draws@);
    let mut run_ids: Vec<String> = Vec::new();
    assert(before.runs.take(before.runs.len() as int) =~= before.runs);
    for i in 0..params.topics.len()
        invariant
            before == old(queue)@,
            topics == text::views(params.topics@),
            drawn == text::views(draws@),
            topics.len() > 0,
            topics.len() == drawn.len(),
            priority == priority_of(params.priority),
            text::views(run_ids@) == drawn_ids(drawn.take(i as int)),
            none_taken(before.runs, drawn, i as int),
            enrolled(
                before,
                queue@,
                topics.take(i as int),
                batch@,
                priority,
                drawn.take(i as int),
            ),
            before.wf() ==> queue@.wf(),
    {
        let ghost middle = queue@;
        let topic = params.topics[i].as_str();
        let slug = report::make_slug(topic);
        proof {
            assert(topics[i as int] == topic@);
            assert(drawn[i as int] == draws@[i as int]@);
            held_when_taken(before, middle, topics, batch@, priority, drawn, i as int);
        }
        match queue.create_run_at(
            topic,
            slug.as_str(),
            Some(batch),
            priority,
            draws[i].id.as_str(),
            draws[i].now.as_str(),
        ) {
            Ok(run) => {
                proof {
                    enrolling_one_more(
                        before,
                        middle,
                        queue@,
                        topics,
                        i as int,
                        batch@,
                        priority,
                        drawn,
                    );
                }
                let ghost earlier = run_ids@;
                run_ids.push(run.id);
                assert(text::views(run_ids@) =~= text::views(earlier).push(run@.id));
                assert(drawn_ids(drawn.take(i + 1)) =~= drawn_ids(drawn.take(i as int)).push(
                    drawn[i as int].id,
                ));
            },
            Err(error) => {
                assert(is_taken(before.runs, drawn, i as int));
                return Err(McpError::Internal(error));
            },
        }
    }
    assert(topics.take(topics.len() as int) =~= topics);
    assert(drawn.take(drawn.len() as int) =~= drawn);
    Ok(BatchSubmitResult { batch_id: batch.to_owned(), run_ids })
}

/// Draw an identifier and a time for each of so many runs.
fn draw(count: usize) -> (r: Vec<Draw>)
    ensures
        r@.len() == count,
        are_drawn(text::views(r@)),
{
    let mut draws: Vec<Draw> = Vec::new();
    for i in 0..count
        invariant
            draws@.len() == i,
            are_drawn(text::views(draws@)),
    {
        let ghost earlier = text::views(draws@);
        let one = Draw { id: clock::fresh_uuid(), now: Db::now() };
        draws.push(one);
        assert(text::views(draws@) =~= earlier.push(one@));
    }
    draws
}

/// Put several topics into the queue as one batch.
pub fn research_batch_submit(queue: &mut Db, params: &BatchSubmitParams) -> (r: Result<
    BatchSubmitResult,
    McpError,
>)
    ensures
        exists|batch: Seq<char>, draws: Seq<DrawView>|
            clock::is_uuid(batch) && are_drawn(draws) && draws.len() == params.topics@.len()
                && #[trigger] batch_submitted(
                old(queue)@,
                final(queue)@,
                text::views(params.topics@),
                priority_of(params.priority),
                batch,
                draws,
                r,
            ),
        old(queue)@.wf() ==> final(queue)@.wf(),
{
    let batch = clock::fresh_uuid();
    let draws = draw(params.topics.len());
    research_batch_submit_at(queue, params, batch.as_str(), &draws)
}

// ── reading ─────────────────────────────────────────────────────────

/// The limit asked for, between 1 and 200; 20 where none is.
pub open spec fn limit_of(limit: Option<i64>) -> i64 {
    match limit {
        Some(value) => if value < 1 {
            1
        } else if value > 200 {
            200
        } else {
            value
        },
        None => 20,
    }
}

/// The offset asked for, at least 0; 0 where none is.
pub open spec fn offset_of(offset: Option<i64>) -> i64 {
    match offset {
        Some(value) => if value < 0 {
            0
        } else {
            value
        },
        None => 0,
    }
}

fn shown(runs: Vec<ResearchRun>) -> (r: RunListResult)
    ensures
        text::views(r.runs@) == text::views(runs@),
        r.total == runs@.len(),
{
    let mut views: Vec<RunView> = Vec::new();
    for i in 0..runs.len()
        invariant
            text::views(views@) == text::views(runs@).take(i as int),
    {
        let ghost before = views@;
        let view = RunView::from(runs[i].clone());
        views.push(view);
        proof {
            assert(view@ == runs@[i as int]@);
            assert(text::views(views@) =~= text::views(before).push(view@));
            assert(text::views(runs@).take(i + 1) =~= text::views(runs@).take(i as int).push(
                runs@[i as int]@,
            ));
        }
    }
    assert(text::views(runs@).take(runs@.len() as int) =~= text::views(runs@));
    let total: usize = views.len();
    assert(text::views(views@).len() == runs@.len());
    RunListResult { runs: views, total }
}

/// The runs asked for, newest first.
pub fn research_list(queue: &Db, params: &ListParams) -> (r: RunListResult)
    ensures
        text::views(r.runs@) == db::page(
            db::newest_first(
                queue@.runs.filter(
                    |run: RunState| db::in_status(run, text::option_view(params.status)),
                ),
            ),
            limit_of(params.limit) as int,
            offset_of(params.offset) as int,
        ),
        r.total == r.runs@.len(),
{
    let limit: i64 = match params.limit {
        Some(value) => if value < 1 {
            1
        } else if value > 200 {
            200
        } else {
            value
        },
        None => 20,
    };
    let offset: i64 = match params.offset {
        Some(value) => if value < 0 {
            0
        } else {
            value
        },
        None => 0,
    };
    let status = match &params.status {
        Some(status) => Some(status.as_str()),
        None => None,
    };
    assert(db::str_view(status) == text::option_view(params.status));
    let runs = queue.list_runs(status, limit, offset);
    let r = shown(runs);
    assert(text::views(r.runs@).len() == text::views(runs@).len());
    r
}

/// A log entry as it is shown.
pub open spec fn entry_of(event: EventState) -> EntryView {
    EntryView {
        phase: event.phase,
        status: event.status,
        message: event.message,
        created_at: event.created_at,
    }
}

fn entries_of(events: Vec<PhaseEvent>) -> (r: Vec<PhaseLogEntry>)
    ensures
        text::views(r@) == text::views(events@).map_values(|event: EventState| entry_of(event)),
{
    let ghost wanted = text::views(events@).map_values(|event: EventState| entry_of(event));
    let mut out: Vec<PhaseLogEntry> = Vec::new();
    for i in 0..events.len()
        invariant
            wanted == text::views(events@).map_values(|event: EventState| entry_of(event)),
            text::views(out@) == wanted.take(i as int),
    {
        let entry = PhaseLogEntry {
            phase: events[i].phase.clone(),
            status: events[i].status.clone(),
            message: events[i].message.clone(),
            created_at: events[i].created_at.clone(),
        };
        let ghost before = out@;
        out.push(entry);
        proof {
            assert(wanted[i as int] == entry@);
            assert(text::views(out@) =~= text::views(before).push(entry@));
            assert(wanted.take(i + 1) =~= wanted.take(i as int).push(wanted[i as int]));
        }
    }
    assert(wanted.take(wanted.len() as int) =~= wanted);
    out
}

/// A run and its log.
pub fn research_status(queue: &Db, params: &RunIdParams) -> (r: Result<StatusResult, McpError>)
    ensures
        match db::run_with(queue@.runs, params.run_id@) {
            Some(run) => r matches Ok(status) && status.run@ == run && text::views(
                status.phase_log@,
            ) == db::log_of(queue@.events, params.run_id@).map_values(
                |event: EventState| entry_of(event),
            ),
            None => r matches Err(error) && is_invalid(error, not_found(params.run_id@)),
        },
{
    match queue.get_run(params.run_id.as_str()) {
        Some(run) => {
            let phase_log = entries_of(queue.phase_log(params.run_id.as_str()));
            Ok(StatusResult { run: RunView::from(run), phase_log })
        },
        None => Err(not_found_error(params.run_id.as_str())),
    }
}

/// The run whose output is asked for.
pub fn output_run(queue: &Db, params: &RunIdParams) -> (r: Result<ResearchRun, McpError>)
    ensures
        match db::run_with(queue@.runs, params.run_id@) {
            Some(run) => r matches Ok(found) && found@ == run,
            None => r matches Err(error) && is_invalid(error, not_found(params.run_id@)),
        },
{
    match queue.get_run(params.run_id.as_str()) {
        Some(run) => Ok(run),
        None => Err(not_found_error(params.run_id.as_str())),
    }
}

/// What a run has written: its paths, and what could be read there.
pub fn research_output(run: ResearchRun, report: Option<String>, provenance: Option<String>) -> (r:
    OutputResult)
    ensures
        r.run_id@ == run@.id,
        text::option_view(r.report_path) == run@.report_path,
        text::option_view(r.provenance_path) == run@.provenance_path,
        r.report == report,
        r.provenance == provenance,
{
    OutputResult {
        run_id: run.id,
        report_path: run.report_path,
        provenance_path: run.provenance_path,
        report,
        provenance,
    }
}

// ── cancelling and resuming ─────────────────────────────────────────

/// The runs that are meant: one run, or else a batch.
pub open spec fn targets(
    runs: Seq<RunState>,
    run_id: Option<Seq<char>>,
    batch_id: Option<Seq<char>>,
) -> Option<Seq<RunState>> {
    match (run_id, batch_id) {
        (Some(id), _) => Some(
            match db::run_with(runs, id) {
                Some(run) => seq![run],
                None => Seq::empty(),
            },
        ),
        (None, Some(batch)) => Some(
            db::newest_first(runs.filter(|run: RunState| run.batch_id == Some(batch))),
        ),
        (None, None) => None,
    }
}

/// The runs that are meant: one run, or else a batch.
pub fn resolve_target(queue: &Db, run_id: &Option<String>, batch_id: &Option<String>) -> (r: Result<
    Vec<ResearchRun>,
    McpError,
>)
    ensures
        match targets(queue@.runs, text::option_view(*run_id), text::option_view(*batch_id)) {
            Some(runs) => r matches Ok(found) && text::views(found@) == runs,
            None => r matches Err(error) && is_invalid(error, "provide either run_id or batch_id"@),
        },
{
    match (run_id, batch_id) {
        (Some(id), _) => {
            let mut found: Vec<ResearchRun> = Vec::new();
            if let Some(run) = queue.get_run(id.as_str()) {
                found.push(run);
                assert(text::views(found@) =~= seq![run@]);
            } else {
                assert(text::views(found@) =~= Seq::<RunState>::empty());
            }
            Ok(found)
        },
        (None, Some(batch)) => Ok(queue.list_by_batch(batch.as_str())),
        (None, None) => Err(
            McpError::Invalid("provide either run_id or batch_id".to_owned()),
        ),
    }
}

/// What is done to runs by hand.
#[derive(Debug, Clone, Copy, PartialEq, Eq, Structural)]
pub enum Remedy {
    /// Stop what waits or runs.
    Cancel,
    /// Put what failed or was stopped back in the queue, from the start.
    Resume,
}

impl Remedy {
    /// Whether a run in this state is changed.
    pub open spec fn applies(self, status: Seq<char>) -> bool {
        match self {
            Remedy::Cancel => status == "queued"@ || status == "running"@,
            Remedy::Resume => status == "failed"@ || status == "blocked"@ || status
                == "cancelled"@,
        }
    }

    fn applies_to(self, status: &str) -> (r: bool)
        ensures
            r == self.applies(status@),
    {
        match self {
            Remedy::Cancel => text::same(status, "queued") || text::same(status, "running"),
            Remedy::Resume => text::same(status, "failed") || text::same(status, "blocked")
                || text::same(status, "cancelled"),
        }
    }

    /// The tables once a run is changed and the log says so.
    pub open spec fn changed(self, tables: Tables, run: RunState, now: Seq<char>) -> Tables {
        match self {
            Remedy::Cancel => tables.status_updated(
                run.id,
                "cancelled"@,
                run.phase,
                run.progress,
                Some("cancelled by user"@),
                now,
            ).phase_logged(run.id, run.phase, "cancelled"@, "cancelled by user"@, now),
            Remedy::Resume => tables.run_requeued(run.id, now).phase_logged(
                run.id,
                "planning"@,
                "resumed"@,
                "re-queued by user"@,
                now,
            ),
        }
    }

    /// The tables once a run is dealt with.
    pub open spec fn dealt(self, tables: Tables, run: RunState, now: Seq<char>) -> Tables {
        if self.applies(run.status) {
            self.changed(tables, run, now)
        } else {
            tables
        }
    }

    /// The tables once some runs are dealt with, one after the other.
    pub open spec fn all_dealt(self, tables: Tables, runs: Seq<RunState>, now: Seq<char>) -> Tables
        decreases runs.len(),
    {
        if runs.len() == 0 {
            tables
        } else {
            self.dealt(self.all_dealt(tables, runs.drop_last(), now), runs.last(), now)
        }
    }

    /// How each of the runs looks once it is dealt with.
    pub open spec fn all_shown(self, tables: Tables, runs: Seq<RunState>, now: Seq<char>) -> Seq<
        RunState,
    >
        decreases runs.len(),
    {
        if runs.len() == 0 {
            runs
        } else {
            let shown = self.all_shown(tables, runs.drop_last(), now);
            match db::run_with(self.all_dealt(tables, runs, now).runs, runs.last().id) {
                Some(run) => shown.push(run),
                None => shown,
            }
        }
    }

    /// How many of the runs are changed.
    pub open spec fn count(self, runs: Seq<RunState>) -> nat
        decreases runs.len(),
    {
        if runs.len() == 0 {
            0
        } else if self.applies(runs.last().status) {
            self.count(runs.drop_last()) + 1
        } else {
            self.count(runs.drop_last())
        }
    }
}

/// Changing a run keeps the identifiers of all runs.
proof fn remedies_keep_runs(remedy: Remedy, tables: Tables, runs: Seq<RunState>, now: Seq<char>)
    ensures
        remedy.all_dealt(tables, runs, now).runs.len() == tables.runs.len(),
        forall|i: int|
            0 <= i < tables.runs.len() ==> (#[trigger] remedy.all_dealt(tables, runs, now).runs[i]).id
                == tables.runs[i].id,
        remedy.all_dealt(tables, runs, now).last_event == tables.last_event + remedy.count(runs),
    decreases runs.len(),
{
    if runs.len() > 0 {
        remedies_keep_runs(remedy, tables, runs.drop_last(), now);
    }
}

proof fn still_there(before: Tables, after: Tables, id: Seq<char>)
    requires
        after.runs.len() == before.runs.len(),
        forall|i: int|
            0 <= i < before.runs.len() ==> (#[trigger] after.runs[i]).id == before.runs[i].id,
        db::has_run(before.runs, id),
    ensures
        db::has_run(after.runs, id),
{
    let i = choose|i: int| 0 <= i < before.runs.len() && #[trigger] before.runs[i].id == id;
    assert(after.runs[i].id == id);
}

fn change_run(queue: &mut Db, remedy: Remedy, run: &ResearchRun, now: &str)
    requires
        db::has_run(old(queue)@.runs, run@.id),
        old(queue)@.last_event < i64::MAX,
    ensures
        final(queue)@ == remedy.changed(old(queue)@, run@, now@),
        old(queue)@.wf() ==> final(queue)@.wf(),
{
    let ghost before = queue@;
    match remedy {
        Remedy::Cancel => {
            queue.update_status_at(
                run.id.as_str(),
                "cancelled",
                run.phase.as_str(),
                run.progress,
                Some("cancelled by user"),
                now,
            );
            proof {
                still_there(before, queue@, run@.id);
            }
            let logged = queue.log_phase_at(
                run.id.as_str(),
                run.phase.as_str(),
                "cancelled",
                "cancelled by user",
                now,
            );
            assert(logged is Ok);
        },
        Remedy::Resume => {
            queue.requeue_at(run.id.as_str(), now);
            proof {
                still_there(before, queue@, run@.id);
            }
            let logged = queue.log_phase_at(
                run.id.as_str(),
                "planning",
                "resumed",
                "re-queued by user",
                now,
            );
            assert(logged is Ok);
        },
    }
}

/// How a remedy ends. Nothing changes where no run is meant, or where the log has no room
/// for what would change.
pub open spec fn remedied(
    before: Tables,
    after: Tables,
    remedy: Remedy,
    run_id: Option<Seq<char>>,
    batch_id: Option<Seq<char>>,
    now: Seq<char>,
    r: Result<RunListResult, McpError>,
) -> bool {
    match targets(before.runs, run_id, batch_id) {
        None => after == before && (r matches Err(error) && is_invalid(
            error,
            "provide either run_id or batch_id"@,
        )),
        Some(runs) => if before.last_event + remedy.count(runs) > i64::MAX {
            after == before && (r matches Err(McpError::Internal(error)) && error
                == DbError::CounterFull)
        } else {
            &&& after == remedy.all_dealt(before, runs, now)
            &&& r matches Ok(list) && text::views(list.runs@) == remedy.all_shown(
                before,
                runs,
                now,
            ) && list.total == list.runs@.len()
        },
    }
}

proof fn targets_exist(runs: Seq<RunState>, run_id: Option<Seq<char>>, batch_id: Option<Seq<char>>)
    ensures
        targets(runs, run_id, batch_id) matches Some(found) ==> forall|i: int|
            0 <= i < found.len() ==> db::has_run(runs, (#[trigger] found[i]).id),
{
    broadcast use vstd::seq_lib::group_to_multiset_ensures;

    match (run_id, batch_id) {
        (Some(id), _) => {
            db::lookup_is_exact(runs, id);
        },
        (None, Some(batch)) => {
            let kept = runs.filter(|run: RunState| run.batch_id == Some(batch));
            let found = db::newest_first(kept);
            db::list_is_newest_first(kept);
            assert forall|i: int| 0 <= i < found.len() implies db::has_run(
                runs,
                (#[trigger] found[i]).id,
            ) by {
                assert(found.contains(found[i]));
                assert(found.to_multiset().count(found[i]) > 0);
                assert(kept.to_multiset().count(found[i]) > 0);
                assert(kept.contains(found[i]));
                runs.lemma_filter_contains_rev(
                    |run: RunState| run.batch_id == Some(batch),
                    found[i],
                );
                let k = choose|k: int| 0 <= k < runs.len() && runs[k] == found[i];
                assert(runs[k].id == found[i].id);
            }
        },
        _ => {},
    }
}

fn remedy_at(queue: &mut Db, params: &CancelParams, remedy: Remedy, now: &str) -> (r: Result<
    RunListResult,
    McpError,
>)
    ensures
        remedied(
            old(queue)@,
            final(queue)@,
            remedy,
            text::option_view(params.run_id),
            text::option_view(params.batch_id),
            now@,
            r,
        ),
        old(queue)@.wf() ==> final(queue)@.wf(),
{
    let runs = match resolve_target(queue, &params.run_id, &params.batch_id) {
        Ok(runs) => runs,
        Err(error) => return Err(error),
    };
    let ghost before = queue@;
    let ghost all = text::views(runs@);
    proof {
        targets_exist(
            before.runs,
            text::option_view(params.run_id),
            text::option_view(params.batch_id),
        );
    }
    if !has_room(queue, remedy, &runs) {
        return Err(McpError::Internal(DbError::CounterFull));
    }
    let mut views: Vec<RunView> = Vec::new();
    assert(all.take(0) =~= Seq::<RunState>::empty());
    assert(text::views(views@) =~= Seq::<RunState>::empty());
    for i in 0..runs.len()
        invariant
            before == old(queue)@,
            all == text::views(runs@),
            before.last_event + remedy.count(all) <= i64::MAX,
            forall|j: int| 0 <= j < all.len() ==> db::has_run(before.runs, (#[trigger] all[j]).id),
            queue@ == remedy.all_dealt(before, all.take(i as int), now@),
            text::views(views@) == remedy.all_shown(before, all.take(i as int), now@),
            before.wf() ==> queue@.wf(),
    {
        let ghost middle = queue@;
        proof {
            assert(all.take(i + 1).drop_last() == all.take(i as int));
            assert(all.take(i + 1).last() == runs@[i as int]@);
            assert(all[i as int] == runs@[i as int]@);
            remedies_keep_runs(remedy, before, all.take(i as int), now@);
            still_there(before, middle, runs@[i as int]@.id);
            counts_grow(remedy, all, i + 1);
        }
        if remedy.applies_to(runs[i].status.as_str()) {
            change_run(queue, remedy, &runs[i], now);
        }
        if let Some(run) = queue.get_run(runs[i].id.as_str()) {
            let ghost earlier = views@;
            let view = RunView::from(run);
            views.push(view);
            assert(view@ == run@);
            assert(text::views(views@) =~= text::views(earlier).push(run@));
        }
    }
    assert(all.take(all.len() as int) =~= all);
    let total: usize = views.len();
    Ok(RunListResult { runs: views, total })
}

proof fn counts_grow(remedy: Remedy, runs: Seq<RunState>, n: int)
    requires
        0 <= n <= runs.len(),
    ensures
        remedy.count(runs.take(n)) <= remedy.count(runs),
    decreases runs.len(),
{
    if n < runs.len() {
        counts_grow(remedy, runs.drop_last(), n);
        assert(runs.drop_last().take(n) =~= runs.take(n));
    } else {
        assert(runs.take(n) =~= runs);
    }
}

fn has_room(queue: &Db, remedy: Remedy, runs: &Vec<ResearchRun>) -> (r: bool)
    ensures
        r == (queue@.last_event + remedy.count(text::views(runs@)) <= i64::MAX),
{
    let ghost all = text::views(runs@);
    let mut count: u128 = 0;
    assert(all.take(0) =~= Seq::<RunState>::empty());
    for i in 0..runs.len()
        invariant
            all == text::views(runs@),
            count == remedy.count(all.take(i as int)),
            count <= i,
    {
        assert(all.take(i + 1).drop_last() == all.take(i as int));
        assert(all.take(i + 1).last() == runs@[i as int]@);
        if remedy.applies_to(runs[i].status.as_str()) {
            count += 1;
        }
    }
    assert(all.take(all.len() as int) =~= all);
    let last: i128 = queue.last_event_id() as i128;
    let room: i128 = i64::MAX as i128 - last;
    room >= 0 && count <= room as u128
}

/// Stop a run or a batch at the time `now`.
pub fn research_cancel_at(queue: &mut Db, params: &CancelParams, now: &str) -> (r: Result<
    RunListResult,
    McpError,
>)
    ensures
        remedied(
            old(queue)@,
            final(queue)@,
            Remedy::Cancel,
            text::option_view(params.run_id),
            text::option_view(params.batch_id),
            now@,
            r,
        ),
        old(queue)@.wf() ==> final(queue)@.wf(),
{
    remedy_at(queue, params, Remedy::Cancel, now)
}

/// Stop a run or a batch. A run that is under way stops before its next phase.
pub fn research_cancel(queue: &mut Db, params: &CancelParams) -> (r: Result<
    RunListResult,
    McpError,
>)
    ensures
        exists|now: Seq<char>|
            clock::is_timestamp(now) && #[trigger] remedied(
                old(queue)@,
                final(queue)@,
                Remedy::Cancel,
                text::option_view(params.run_id),
                text::option_view(params.batch_id),
                now,
                r,
            ),
        old(queue)@.wf() ==> final(queue)@.wf(),
{
    let now = Db::now();
    research_cancel_at(queue, params, now.as_str())
}

/// Put a run or a batch back in the queue at the time `now`.
pub fn research_resume_at(queue: &mut Db, params: &CancelParams, now: &str) -> (r: Result<
    RunListResult,
    McpError,
>)
    ensures
        remedied(
            old(queue)@,
            final(queue)@,
            Remedy::Resume,
            text::option_view(params.run_id),
            text::option_view(params.batch_id),
            now@,
            r,
        ),
        old(queue)@.wf() ==> final(queue)@.wf(),
{
    remedy_at(queue, params, Remedy::Resume, now)
}

/// Put a run or a batch back in the queue. Its session stays, and its attempts count anew.
pub fn research_resume(queue: &mut Db, params: &CancelParams) -> (r: Result<
    RunListResult,
    McpError,
>)
    ensures
        exists|now: Seq<char>|
            clock::is_timestamp(now) && #[trigger] remedied(
                old(queue)@,
                final(queue)@,
                Remedy::Resume,
                text::option_view(params.run_id),
                text::option_view(params.batch_id),
                now,
                r,
            ),
        old(queue)@.wf() ==> final(queue)@.wf(),
{
    let now = Db::now();
    research_resume_at(queue, params, now.as_str())
}

// ── laws ────────────────────────────────────────────────────────────

/// A run that is cancelled keeps its phase and its progress, says who stopped it, enters no
/// further phase, and is not served again.
pub proof fn cancelled_runs_stop(tables: Tables, run_id: Seq<char>, now: Seq<char>)
    requires
        db::run_with(tables.runs, run_id) matches Some(run) && Remedy::Cancel.applies(run.status),
    ensures
        ({
            let run = db::run_with(tables.runs, run_id)->0;
            let after = Remedy::Cancel.changed(tables, run, now);
            let stopped = db::with_status(
                run,
                "cancelled"@,
                run.phase,
                run.progress,
                Some("cancelled by user"@),
                now,
            );
            &&& db::run_with(after.runs, run_id) == Some(stopped)
            &&& !engine::goes_on(after, run_id)
            &&& !db::waits(stopped, None)
            &&& stopped.completed_at == Some(now)
        }),
{
    let run = db::run_with(tables.runs, run_id)->0;
    db::lookup_is_exact(tables.runs, run_id);
    db::change_is_seen(
        tables.runs,
        run_id,
        run_id,
        |r: RunState|
            db::with_status(
                r,
                "cancelled"@,
                run.phase,
                run.progress,
                Some("cancelled by user"@),
                now,
            ),
    );
    reveal_strlit("cancelled");
    reveal_strlit("queued");
    assert("cancelled"@ != "queued"@) by {
        assert("cancelled"@[0] == 'c' && "queued"@[0] == 'q');
    }
}

/// A run that is resumed waits again from the start, on its first attempt, and what its
/// phases had produced stays.
pub proof fn resumed_runs_wait(tables: Tables, run_id: Seq<char>, now: Seq<char>)
    requires
        db::run_with(tables.runs, run_id) matches Some(run) && Remedy::Resume.applies(run.status),
    ensures
        ({
            let run = db::run_with(tables.runs, run_id)->0;
            let after = Remedy::Resume.changed(tables, run, now);
            let resumed = db::requeued(run, now);
            &&& db::run_with(after.runs, run_id) == Some(resumed)
            &&& db::waits(resumed, None)
            &&& resumed.attempt == 1
            &&& resumed.error is None
            &&& resumed.topic == run.topic && resumed.slug == run.slug
            &&& after.sessions == tables.sessions
        }),
{
    db::lookup_is_exact(tables.runs, run_id);
    db::change_is_seen(tables.runs, run_id, run_id, |r: RunState| db::requeued(r, now));
}

/// A run in any other state is left alone.
pub proof fn settled_runs_are_left_alone(
    remedy: Remedy,
    tables: Tables,
    run: RunState,
    now: Seq<char>,
)
    requires
        !remedy.applies(run.status),
    ensures
        remedy.dealt(tables, run, now) == tables,
{
}

/// The run as the remedy leaves it.
pub open spec fn remade(remedy: Remedy, run: RunState, now: Seq<char>) -> RunState {
    match remedy {
        Remedy::Cancel => db::with_status(
            run,
            "cancelled"@,
            run.phase,
            run.progress,
            Some("cancelled by user"@),
            now,
        ),
        Remedy::Resume => db::requeued(run, now),
    }
}

/// A batch is cancelled or resumed as a unit: each of its runs that the remedy is for is
/// changed, and no other run, and what the phases of the runs had produced stays.
pub proof fn batches_are_remedied_as_a_unit(
    remedy: Remedy,
    tables: Tables,
    batch: Seq<char>,
    now: Seq<char>,
)
    requires
        tables.wf(),
    ensures
        ({
            let after = remedy.all_dealt(
                tables,
                targets(tables.runs, None, Some(batch))->0,
                now,
            );
            &&& after.runs.len() == tables.runs.len()
            &&& forall|i: int|
                0 <= i < tables.runs.len() ==> #[trigger] after.runs[i] == if tables.runs[i].batch_id
                    == Some(batch) && remedy.applies(tables.runs[i].status) {
                    remade(remedy, tables.runs[i], now)
                } else {
                    tables.runs[i]
                }
            &&& after.sessions == tables.sessions
        }),
{
    broadcast use vstd::seq_lib::group_to_multiset_ensures;

    let all = tables.runs;
    let chosen = |run: RunState| run.batch_id == Some(batch);
    let kept = all.filter(chosen);
    let runs = db::newest_first(kept);
    assert(all.no_duplicates()) by {
        assert forall|i: int, j: int|
            0 <= i < all.len() && 0 <= j < all.len() && i != j implies all[i] != all[j] by {
            if i < j {
                assert(all[i].id != all[j].id);
            } else {
                assert(all[j].id != all[i].id);
            }
        }
    }
    filtering_adds_no_duplicates(all, chosen);
    kept.lemma_multiset_has_no_duplicates();
    db::list_is_newest_first(kept);
    runs.lemma_multiset_has_no_duplicates_conv();
    assert forall|run: RunState| runs.contains(run) <==> all.contains(run) && chosen(run) by {
        assert(runs.contains(run) <==> kept.contains(run)) by {
            assert(runs.to_multiset().count(run) == kept.to_multiset().count(run));
        }
        if kept.contains(run) {
            all.lemma_filter_contains_rev(chosen, run);
        }
        if all.contains(run) && chosen(run) {
            let i = choose|i: int| 0 <= i < all.len() && all[i] == run;
            all.lemma_filter_contains(chosen, i);
        }
    }
    each_is_dealt_with_once(remedy, tables, runs, now);
    assert forall|i: int| 0 <= i < all.len() implies #[trigger] all.contains(all[i]) by {}
}

proof fn filtering_adds_no_duplicates(runs: Seq<RunState>, chosen: spec_fn(RunState) -> bool)
    requires
        runs.no_duplicates(),
    ensures
        runs.filter(chosen).no_duplicates(),
    decreases runs.len(),
{
    reveal(Seq::filter);
    if runs.len() > 0 {
        let rest = runs.drop_last();
        filtering_adds_no_duplicates(rest, chosen);
        assert forall|i: int| 0 <= i < rest.filter(chosen).len() implies #[trigger] rest.filter(
            chosen,
        )[i] != runs.last() by {
            assert(rest.filter(chosen).contains(rest.filter(chosen)[i]));
            rest.lemma_filter_contains_rev(chosen, rest.filter(chosen)[i]);
        }
    }
}

proof fn each_is_dealt_with_once(
    remedy: Remedy,
    tables: Tables,
    runs: Seq<RunState>,
    now: Seq<char>,
)
    requires
        tables.wf(),
        runs.no_duplicates(),
        forall|run: RunState| #[trigger] runs.contains(run) ==> tables.runs.contains(run),
    ensures
        ({
            let after = remedy.all_dealt(tables, runs, now);
            &&& after.runs.len() == tables.runs.len()
            &&& forall|i: int|
                0 <= i < tables.runs.len() ==> #[trigger] after.runs[i] == if runs.contains(
                    tables.runs[i],
                ) && remedy.applies(tables.runs[i].status) {
                    remade(remedy, tables.runs[i], now)
                } else {
                    tables.runs[i]
                }
            &&& after.sessions == tables.sessions
        }),
    decreases runs.len(),
{
    if runs.len() > 0 {
        let rest = runs.drop_last();
        let last = runs.last();
        assert forall|run: RunState| #[trigger] rest.contains(run) implies runs.contains(run) by {
            let k = choose|k: int| 0 <= k < rest.len() && rest[k] == run;
            assert(runs[k] == run);
        }
        each_is_dealt_with_once(remedy, tables, rest, now);
        assert(runs.contains(last));
        let at = choose|k: int| 0 <= k < tables.runs.len() && tables.runs[k] == last;
        assert forall|run: RunState| #[trigger] runs.contains(run) implies rest.contains(run) || run
            == last by {
            let k = choose|k: int| 0 <= k < runs.len() && runs[k] == run;
            if k < rest.len() {
                assert(rest[k] == run);
            }
        }
        assert(!rest.contains(last));
        let before = remedy.all_dealt(tables, rest, now);
        let after = remedy.all_dealt(tables, runs, now);
        assert forall|i: int| 0 <= i < tables.runs.len() implies #[trigger] after.runs[i]
            == if runs.contains(tables.runs[i]) && remedy.applies(tables.runs[i].status) {
            remade(remedy, tables.runs[i], now)
        } else {
            tables.runs[i]
        } by {
            if i != at {
                assert(tables.runs[i].id != last.id);
                assert(before.runs[i].id == tables.runs[i].id);
            } else {
                assert(before.runs[i] == last);
            }
        }
    }
}

/// A run that is submitted again gets a new run with its topic and an empty session; itself
/// it does not change.
pub proof fn reruns_start_from_scratch(
    before: Tables,
    after: Tables,
    run_id: Seq<char>,
    id: Seq<char>,
    now: Seq<char>,
    r: Result<SubmitResult, McpError>,
)
    requires
        before.wf(),
        resubmitted(before, after, run_id, id, now, r),
        r is Ok,
    ensures
        db::run_with(before.runs, run_id) is Some,
        db::run_with(after.runs, run_id) == db::run_with(before.runs, run_id),
        db::run_with(after.runs, id) matches Some(run) && run.topic == (db::run_with(
            before.runs,
            run_id,
        )->0).topic && run.status == "queued"@,
        db::session_of(after.sessions, id) is None,
{
    let first = db::run_with(before.runs, run_id)->0;
    db::created_run_is_seen(
        before,
        after,
        id,
        first.topic,
        slug_of(first.topic),
        None,
        first.priority,
        now,
    );
    assert(after.runs =~= before.runs.push(after.runs.last()));
    earlier_runs_are_found(before.runs, after.runs.last(), run_id);
    no_session_without_a_run(before, before.sessions, id);
}

proof fn earlier_runs_are_found(runs: Seq<RunState>, last: RunState, id: Seq<char>)
    requires
        db::run_with(runs, id) is Some,
    ensures
        db::run_with(runs.push(last), id) == db::run_with(runs, id),
    decreases runs.len(),
{
    if runs.len() > 0 && runs[0].id != id {
        earlier_runs_are_found(runs.drop_first(), last, id);
        assert(runs.push(last).drop_first() =~= runs.drop_first().push(last));
    }
}

proof fn no_session_without_a_run(
    tables: Tables,
    sessions: Seq<(Seq<char>, db::SessionState)>,
    id: Seq<char>,
)
    requires
        forall|i: int| 0 <= i < sessions.len() ==> db::has_run(tables.runs, #[trigger] sessions[i].0),
        !db::has_run(tables.runs, id),
    ensures
        db::session_of(sessions, id) is None,
    decreases sessions.len(),
{
    if sessions.len() > 0 {
        assert(sessions[0].0 != id);
        let rest = sessions.drop_first();
        assert forall|i: int| 0 <= i < rest.len() implies db::has_run(
            tables.runs,
            #[trigger] rest[i].0,
        ) by {
            assert(rest[i] == sessions[i + 1]);
        }
        no_session_without_a_run(tables, rest, id);
    }
}

/// A run is shown as it is.
pub proof fn runs_are_shown_as_they_are(run: ResearchRun)
    ensures
        <RunView as vstd::std_specs::convert::FromSpec<ResearchRun>>::from_spec(run)@ == run@,
{
}

/// An entry of a log is shown with its phase, its status, its message and its time.
pub proof fn entries_are_shown_as_logged(event: EventState)
    ensures
        entry_of(event).phase == event.phase,
        entry_of(event).status == event.status,
        entry_of(event).message == event.message,
        entry_of(event).created_at == event.created_at,
{
}

/// A list shows as many runs as are asked for, between one and two hundred, or twenty, from
/// the position asked for on, or from the first.
pub proof fn lists_are_bounded(limit: i64, offset: i64)
    ensures
        1 <= limit_of(Some(limit)) <= 200,
        1 <= limit <= 200 ==> limit_of(Some(limit)) == limit,
        limit > 200 ==> limit_of(Some(limit)) == 200,
        limit_of(None) == 20,
        offset >= 0 ==> offset_of(Some(offset)) == offset,
        offset < 0 ==> offset_of(Some(offset)) == 0,
        offset_of(None) == 0,
        priority_of(Some(limit)) == limit,
        priority_of(None) == 0,
{
}

/// A run that is not there is named in the answer.
pub proof fn missing_runs_are_named(run_id: Seq<char>)
    ensures
        text::contains(not_found(run_id), "run "@ + run_id + " not found"@),
        text::contains(not_found(run_id), run_id),
{
    let none = Seq::<char>::empty();
    text::holds_its_middle("run "@, run_id, " not found"@);
    text::end_is_held(none, not_found(run_id));
    assert(none + not_found(run_id) =~= not_found(run_id));
}

/// What is submitted waits, in no batch, with its topic and its priority, under the
/// identifier and the slug that are handed back; all other runs stay as they were.
pub proof fn submissions_wait(
    before: Tables,
    after: Tables,
    topic: Seq<char>,
    priority: i64,
    id: Seq<char>,
    now: Seq<char>,
    r: Result<SubmitResult, McpError>,
)
    requires
        submitted(before, after, topic, priority, id, now, r),
        !db::has_run(before.runs, id),
    ensures
        r is Ok,
        r->Ok_0.run_id@ == id,
        db::run_with(after.runs, id) matches Some(run) && run.topic == topic && run.priority
            == priority && run.batch_id is None && run.status == "queued"@ && run.slug
            == r->Ok_0.slug@ && run.created_at == now && run.attempt == 1,
        after.runs.drop_last() == before.runs,
        after.sessions == before.sessions,
        after.events == before.events,
{
    db::created_run_is_seen(before, after, id, topic, slug_of(topic), None, priority, now);
}

/// The runs of a batch wait, one for each topic in their order, all in that batch and with its
/// priority, under the identifiers that are handed back; all other runs stay as they were.
pub proof fn batches_are_enrolled_whole(
    before: Tables,
    after: Tables,
    topics: Seq<Seq<char>>,
    priority: i64,
    batch: Seq<char>,
    draws: Seq<DrawView>,
    r: Result<BatchSubmitResult, McpError>,
    i: int,
)
    requires
        batch_submitted(before, after, topics, priority, batch, draws, r),
        r is Ok,
        0 <= i < topics.len(),
    ensures
        r->Ok_0.batch_id@ == batch,
        r->Ok_0.run_ids@.len() == topics.len(),
        after.runs.len() == before.runs.len() + topics.len(),
        after.runs.take(before.runs.len() as int) == before.runs,
        ({
            let run = after.runs[before.runs.len() + i];
            run.topic == topics[i] && run.batch_id == Some(batch) && run.priority == priority
                && run.id == r->Ok_0.run_ids@[i]@ && run.status == "queued"@ && run.attempt == 1
        }),
{
    let n = before.runs.len() as int;
    assert(is_enrolled(after.runs.take(n + i + 1), topics[i], batch, priority, draws[i]));
    assert(after.runs.take(n + i + 1).last() == after.runs[n + i]);
    assert(text::views(r->Ok_0.run_ids@)[i] == drawn_ids(draws)[i]);
    assert(text::views(r->Ok_0.run_ids@).len() == drawn_ids(draws).len());
}

/// A remedy is for one run, by its identifier, or for every run of a batch; a batch leaves
/// none of its runs out and takes none of another's.
pub proof fn remedies_are_for_the_named(
    runs: Seq<RunState>,
    run_id: Seq<char>,
    batch: Seq<char>,
    i: int,
)
    requires
        0 <= i < runs.len(),
    ensures
        targets(runs, None, None) is None,
        forall|other: Option<Seq<char>>|
            {
                let chosen = #[trigger] targets(runs, Some(run_id), other);
                chosen is Some && (db::run_with(runs, run_id) matches Some(run) ==> chosen == Some(
                    seq![run],
                )) && (db::run_with(runs, run_id) is None ==> chosen->0.len() == 0)
            },
        targets(runs, None, Some(batch)) is Some,
        runs[i].batch_id == Some(batch) <==> targets(runs, None, Some(batch))->0.contains(runs[i]),
{
    broadcast use vstd::seq_lib::group_to_multiset_ensures;

    let keep = |run: RunState| run.batch_id == Some(batch);
    let kept = runs.filter(keep);
    let chosen = db::newest_first(kept);
    db::list_is_newest_first(kept);
    kept.to_multiset_ensures();
    chosen.to_multiset_ensures();
    if keep(runs[i]) {
        runs.lemma_filter_contains(keep, i);
        assert(kept.contains(runs[i]));
        assert(kept.to_multiset().count(runs[i]) > 0);
        assert(chosen.contains(runs[i]));
    } else if chosen.contains(runs[i]) {
        assert(kept.to_multiset().count(runs[i]) > 0);
        assert(kept.contains(runs[i]));
        let k = choose|k: int| 0 <= k < kept.len() && kept[k] == runs[i];
        runs.lemma_filter_pred(keep, k);
    }
}

/// Runs that wait or run can be cancelled, runs that failed, are blocked or were cancelled can
/// be resumed, and no run both.
pub proof fn remedies_are_for_their_statuses(status: Seq<char>)
    ensures
        Remedy::Cancel.applies("queued"@) && Remedy::Cancel.applies("running"@),
        Remedy::Resume.applies("failed"@) && Remedy::Resume.applies("blocked"@)
            && Remedy::Resume.applies("cancelled"@),
        !Remedy::Resume.applies("complete"@) && !Remedy::Cancel.applies("complete"@),
        Remedy::Cancel.applies(status) ==> !Remedy::Resume.applies(status) && !db::is_final(status),
        Remedy::Resume.applies(status) ==> db::is_final(status),
{
    reveal_strlit("complete");
    reveal_strlit("failed");
    reveal_strlit("blocked");
    reveal_strlit("cancelled");
    reveal_strlit("queued");
    reveal_strlit("running");
    assert("complete"@.len() == 8 && "failed"@[0] == 'f' && "blocked"@[0] == 'b'
        && "cancelled"@.len() == 9 && "queued"@.len() == 6 && "running"@.len() == 7);
    assert("queued"@[0] == 'q' && "running"@[0] == 'r');
}

/// Each change is logged for its run, and says what was done.
pub proof fn remedies_are_logged(tables: Tables, run: RunState, now: Seq<char>)
    ensures
        ({
            let cancelled = Remedy::Cancel.changed(tables, run, now).events;
            let resumed = Remedy::Resume.changed(tables, run, now).events;
            &&& cancelled.drop_last() == tables.events && resumed.drop_last() == tables.events
            &&& cancelled.last().run_id == run.id && resumed.last().run_id == run.id
            &&& cancelled.last().phase == run.phase && resumed.last().phase == "planning"@
            &&& cancelled.last().status == "cancelled"@ && resumed.last().status == "resumed"@
            &&& cancelled.last().message == "cancelled by user"@
            &&& resumed.last().message == "re-queued by user"@
            &&& cancelled.last().created_at == now && resumed.last().created_at == now
        }),
{
    assert(Remedy::Cancel.changed(tables, run, now).events.drop_last() =~= tables.events);
    assert(Remedy::Resume.changed(tables, run, now).events.drop_last() =~= tables.events);
}

/// A run that a remedy was asked for is shown as it is afterwards: changed where the remedy is
/// for it, and as it was where not.
pub proof fn remedied_runs_are_shown(remedy: Remedy, tables: Tables, id: Seq<char>, now: Seq<char>)
    requires
        db::run_with(tables.runs, id) is Some,
    ensures
        ({
            let run = db::run_with(tables.runs, id)->0;
            let shown = remedy.all_shown(tables, seq![run], now);
            &&& shown.len() == 1
            &&& shown[0].id == id
            &&& !remedy.applies(run.status) ==> shown[0] == run
            &&& remedy.applies(run.status) && remedy == Remedy::Cancel ==> shown[0].status
                == "cancelled"@ && shown[0].error == Some("cancelled by user"@) && shown[0].phase
                == run.phase && shown[0].progress == run.progress && shown[0].completed_at == Some(
                now,
            )
            &&& remedy.applies(run.status) && remedy == Remedy::Resume ==> shown[0].status
                == "queued"@ && shown[0].phase == "planning"@ && shown[0].progress == 0
                && shown[0].error is None && shown[0].attempt == 1
        }),
{
    let run = db::run_with(tables.runs, id)->0;
    let one = seq![run];
    db::lookup_is_exact(tables.runs, id);
    assert(one.drop_last() =~= Seq::<RunState>::empty());
    assert(remedy.all_dealt(tables, one.drop_last(), now) == tables);
    assert(remedy.all_shown(tables, one.drop_last(), now) =~= Seq::<RunState>::empty());
    assert(remedy.all_dealt(tables, one, now) == remedy.dealt(tables, run, now));
    db::change_is_seen(
        tables.runs,
        id,
        id,
        |r: RunState|
            db::with_status(
                r,
                "cancelled"@,
                run.phase,
                run.progress,
                Some("cancelled by user"@),
                now,
            ),
    );
    db::change_is_seen(tables.runs, id, id, |r: RunState| db::requeued(r, now));
}

} // verus!
