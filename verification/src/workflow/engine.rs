//! The engine: one run from its plan to its report.
//!
//! Every phase commits what it produced to the session of the run. A run that is taken up
//! again reuses what its session holds and goes on from there.

use vstd::prelude::*;

use crate::clock;
use crate::db;
use crate::db::{Db, SessionData, SessionState, Tables};
use crate::debate::{DebateResult, DebateView};
use crate::llm::{Prompt, PromptView};
use crate::number;
use crate::text;
use crate::workflow::evidence;
use crate::workflow::evidence::{EvidenceItem, EvidenceView};
use crate::workflow::gather;
use crate::workflow::gather::{GatherTask, Gathered, GatheredView, TaskView};
use crate::workflow::plan;
use crate::workflow::plan::{Plan, PlanView};
use crate::workflow::report;

verus! {

// ── phases ──────────────────────────────────────────────────────────

/// A phase of a run.
#[derive(Debug, Clone, Copy, PartialEq, Eq, Structural)]
pub enum Phase {
    Planning,
    Searching,
    Fetching,
    Drafting,
    Citing,
    Debating,
    Reviewing,
    Delivering,
}

impl Phase {
    /// The position of the phase among the phases.
    pub open spec fn index(self) -> int {
        match self {
            Phase::Planning => 0,
            Phase::Searching => 1,
            Phase::Fetching => 2,
            Phase::Drafting => 3,
            Phase::Citing => 4,
            Phase::Debating => 5,
            Phase::Reviewing => 6,
            Phase::Delivering => 7,
        }
    }

    /// The name of the phase.
    pub open spec fn title(self) -> Seq<char> {
        db::PHASES@[self.index()]@
    }

    /// The name of the phase.
    pub fn name(self) -> (r: &'static str)
        ensures
            r@ == self.title(),
    {
        let names = db::PHASES;
        match self {
            Phase::Planning => names[0],
            Phase::Searching => names[1],
            Phase::Fetching => names[2],
            Phase::Drafting => names[3],
            Phase::Citing => names[4],
            Phase::Debating => names[5],
            Phase::Reviewing => names[6],
            Phase::Delivering => names[7],
        }
    }

    /// How far a run is, in percent, once it is in the phase.
    pub open spec fn milestone(self) -> i64 {
        match self {
            Phase::Planning => 10,
            Phase::Searching => 30,
            Phase::Fetching => 50,
            Phase::Drafting => 70,
            Phase::Citing => 80,
            Phase::Debating => 88,
            Phase::Reviewing => 95,
            Phase::Delivering => 100,
        }
    }

    /// How far a run is, in percent, once it is in the phase.
    pub fn progress(self) -> (r: i64)
        ensures
            r == self.milestone(),
    {
        match self {
            Phase::Planning => 10,
            Phase::Searching => 30,
            Phase::Fetching => 50,
            Phase::Drafting => 70,
            Phase::Citing => 80,
            Phase::Debating => 88,
            Phase::Reviewing => 95,
            Phase::Delivering => 100,
        }
    }
}

/// A run that nobody has cancelled.
pub open spec fn goes_on(tables: Tables, run_id: Seq<char>) -> bool {
    !(db::run_with(tables.runs, run_id) matches Some(run) && run.status == "cancelled"@)
}

/// Enter a phase at the time `now`: the run is shown as running in it, unless it was
/// cancelled. The answer is whether the run goes on.
pub fn begin_phase_at(queue: &mut Db, run_id: &str, phase: Phase, now: &str) -> (r: bool)
    ensures
        r == goes_on(old(queue)@, run_id@),
        final(queue)@ == if r {
            old(queue)@.status_updated(
                run_id@,
                "running"@,
                phase.title(),
                phase.milestone(),
                None,
                now@,
            )
        } else {
            old(queue)@
        },
        old(queue)@.wf() ==> final(queue)@.wf(),
{
    if let Some(run) = queue.get_run(run_id) {
        if text::same(run.status.as_str(), "cancelled") {
            return false;
        }
    }
    queue.update_status_at(run_id, "running", phase.name(), phase.progress(), None, now);
    true
}

/// Enter a phase: the run is shown as running in it, unless it was cancelled. The answer is
/// whether the run goes on.
pub fn begin_phase(queue: &mut Db, run_id: &str, phase: Phase) -> (r: bool)
    ensures
        r == goes_on(old(queue)@, run_id@),
        r ==> exists|now: Seq<char>|
            clock::is_timestamp(now) && final(queue)@ == #[trigger] old(queue)@.status_updated(
                run_id@,
                "running"@,
                phase.title(),
                phase.milestone(),
                None,
                now,
            ),
        !r ==> final(queue)@ == old(queue)@,
        old(queue)@.wf() ==> final(queue)@.wf(),
{
    let now = Db::now();
    begin_phase_at(queue, run_id, phase, now.as_str())
}

// ── the state of a run ──────────────────────────────────────────────

/// What a run is about.
#[derive(Debug)]
pub struct Job {
    pub topic: String,
    pub slug: String,
    /// Where the reports go.
    pub out_dir: String,
    /// The configured limit of downloads.
    pub max_sources: usize,
    /// Whether Scopus can be asked.
    pub with_scopus: bool,
}

/// What a run is about, with its texts as sequences of characters.
pub struct JobView {
    pub topic: Seq<char>,
    pub slug: Seq<char>,
    pub out_dir: Seq<char>,
    pub max_sources: nat,
    pub with_scopus: bool,
}

impl View for Job {
    type V = JobView;

    open spec fn view(&self) -> JobView {
        JobView {
            topic: self.topic@,
            slug: self.slug@,
            out_dir: self.out_dir@,
            max_sources: self.max_sources as nat,
            with_scopus: self.with_scopus,
        }
    }
}

/// What the phases have produced.
#[derive(Debug)]
pub struct Work {
    pub plan: Option<Plan>,
    pub gathered: Gathered,
    pub evidence: Vec<EvidenceItem>,
    pub rejected: Vec<String>,
    pub draft: String,
    pub cited: String,
    pub debate: Option<DebateResult>,
    pub final_md: String,
    pub review_md: String,
    /// The text that is to be decoded or saved; once the run failed, why.
    pub pending: String,
}

/// What the phases have produced, as its view.
pub struct WorkView {
    pub plan: Option<PlanView>,
    pub gathered: GatheredView,
    pub evidence: Seq<EvidenceView>,
    pub rejected: Seq<Seq<char>>,
    pub draft: Seq<char>,
    pub cited: Seq<char>,
    pub debate: Option<DebateView>,
    pub final_md: Seq<char>,
    pub review_md: Seq<char>,
    pub pending: Seq<char>,
}

impl View for Work {
    type V = WorkView;

    open spec fn view(&self) -> WorkView {
        WorkView {
            plan: text::option_view(self.plan),
            gathered: self.gathered@,
            evidence: text::views(self.evidence@),
            rejected: text::views(self.rejected@),
            draft: self.draft@,
            cited: self.cited@,
            debate: text::option_view(self.debate),
            final_md: self.final_md@,
            review_md: self.review_md@,
            pending: self.pending@,
        }
    }
}

/// Nothing produced yet.
pub open spec fn no_work() -> WorkView {
    WorkView {
        plan: None,
        gathered: gather::nothing(),
        evidence: Seq::empty(),
        rejected: Seq::empty(),
        draft: Seq::empty(),
        cited: Seq::empty(),
        debate: None,
        final_md: Seq::empty(),
        review_md: Seq::empty(),
        pending: Seq::empty(),
    }
}

/// Where a run stands within a phase.
#[derive(Debug, Clone, Copy, PartialEq, Eq, Structural)]
pub enum Point {
    /// The session is to be read.
    Load,
    /// What the session holds is to be decoded.
    Decode,
    /// The phase is to be entered.
    Begin,
    /// The phase's work is to be done.
    Run,
    /// What the phase produced is to be encoded.
    Encode,
    /// What the phase produced is to be saved.
    Save,
    /// The phase's files are to be written.
    Write,
    /// The run is to be marked complete.
    Complete,
    /// The run is over; whether it is complete.
    Over(bool),
    /// The run failed.
    Failed,
}

/// A run under way.
#[derive(Debug)]
pub struct Execution {
    pub job: Job,
    pub phase: Phase,
    pub point: Point,
    pub work: Work,
}

/// A run under way, as its view.
pub struct ExecutionView {
    pub job: JobView,
    pub phase: Phase,
    pub point: Point,
    pub work: WorkView,
}

impl View for Execution {
    type V = ExecutionView;

    open spec fn view(&self) -> ExecutionView {
        ExecutionView {
            job: self.job@,
            phase: self.phase,
            point: self.point,
            work: self.work@,
        }
    }
}

/// What is kept in encoded form.
#[derive(Debug, Clone, Copy, PartialEq, Eq, Structural)]
pub enum Stored {
    Plan,
    /// What was found, or the evidence once that was fetched.
    Sources,
    Debate,
}

/// What an encoded text was decoded to.
#[derive(Debug)]
pub enum Decoded {
    Plan(Plan),
    Evidence(Vec<EvidenceItem>),
    Gathered(Gathered),
    Debate(DebateResult),
    /// It could not be decoded.
    Nothing,
}

/// What an encoded text was decoded to, as its view.
pub enum DecodedView {
    Plan(PlanView),
    Evidence(Seq<EvidenceView>),
    Gathered(GatheredView),
    Debate(DebateView),
    Nothing,
}

impl View for Decoded {
    type V = DecodedView;

    open spec fn view(&self) -> DecodedView {
        match *self {
            Decoded::Plan(plan) => DecodedView::Plan(plan@),
            Decoded::Evidence(items) => DecodedView::Evidence(text::views(items@)),
            Decoded::Gathered(found) => DecodedView::Gathered(found@),
            Decoded::Debate(debate) => DecodedView::Debate(debate@),
            Decoded::Nothing => DecodedView::Nothing,
        }
    }
}

/// What happened in a run.
#[derive(Debug)]
pub enum Event {
    /// The session was read.
    Session(SessionData),
    /// What it holds was decoded.
    Decoded(Decoded),
    /// The phase was entered; whether the run goes on.
    Begun(bool),
    /// There is a plan.
    Planned(Plan),
    /// The search is over.
    Found(Gathered),
    /// The sources were fetched.
    Fetched { evidence: Vec<EvidenceItem>, rejected: Vec<String> },
    /// The model said this.
    Said(String),
    /// The debate is over.
    Debated(DebateResult),
    /// What was produced is encoded as this.
    Encoded(String),
    /// What was asked for is done.
    Done,
    /// It failed: why.
    Failed(String),
}

/// What happened in a run, as its view.
pub enum EventView {
    Session(SessionState),
    Decoded(DecodedView),
    Begun(bool),
    Planned(PlanView),
    Found(GatheredView),
    Fetched { evidence: Seq<EvidenceView>, rejected: Seq<Seq<char>> },
    Said(Seq<char>),
    Debated(DebateView),
    Encoded(Seq<char>),
    Done,
    Failed(Seq<char>),
}

impl View for Event {
    type V = EventView;

    open spec fn view(&self) -> EventView {
        match *self {
            Event::Session(data) => EventView::Session(data@),
            Event::Decoded(decoded) => EventView::Decoded(decoded@),
            Event::Begun(goes_on) => EventView::Begun(goes_on),
            Event::Planned(plan) => EventView::Planned(plan@),
            Event::Found(found) => EventView::Found(found@),
            Event::Fetched { evidence, rejected } => EventView::Fetched {
                evidence: text::views(evidence@),
                rejected: text::views(rejected@),
            },
            Event::Said(text) => EventView::Said(text@),
            Event::Debated(debate) => EventView::Debated(debate@),
            Event::Encoded(json) => EventView::Encoded(json@),
            Event::Done => EventView::Done,
            Event::Failed(message) => EventView::Failed(message@),
        }
    }
}

// ── transitions ─────────────────────────────────────────────────────

/// A run at its start.
pub open spec fn fresh(job: JobView) -> ExecutionView {
    ExecutionView { job, phase: Phase::Planning, point: Point::Load, work: no_work() }
}

/// The run failed.
pub open spec fn failed(state: ExecutionView, message: Seq<char>) -> ExecutionView {
    ExecutionView {
        point: Point::Failed,
        work: WorkView { pending: message, ..state.work },
        ..state
    }
}

/// The run at another point.
pub open spec fn at(state: ExecutionView, phase: Phase, point: Point) -> ExecutionView {
    ExecutionView { phase, point, ..state }
}

/// What the session holds of a phase.
pub open spec fn saved(session: SessionState, phase: Phase) -> Option<Seq<char>> {
    match phase {
        Phase::Planning => session.plan_json,
        Phase::Searching | Phase::Fetching => session.sources_json,
        Phase::Drafting => session.draft_text,
        Phase::Citing => session.cited_text,
        Phase::Debating => session.debate_text,
        Phase::Reviewing => session.review_text,
        Phase::Delivering => None,
    }
}

/// The run once its session is read: what is there is reused, what is missing is begun.
pub open spec fn loaded(state: ExecutionView, session: SessionState) -> ExecutionView {
    match saved(session, state.phase) {
        None => ExecutionView { point: Point::Begin, ..state },
        Some(text) => match state.phase {
            Phase::Drafting => ExecutionView {
                point: Point::Write,
                work: WorkView { draft: text, ..state.work },
                ..state
            },
            Phase::Citing => ExecutionView {
                point: Point::Write,
                work: WorkView { cited: text, ..state.work },
                ..state
            },
            Phase::Reviewing => ExecutionView {
                point: Point::Write,
                work: WorkView {
                    final_md: report::final_part(text, state.work.cited),
                    review_md: report::review_part(text),
                    ..state.work
                },
                ..state
            },
            _ => ExecutionView {
                point: Point::Decode,
                work: WorkView { pending: text, ..state.work },
                ..state
            },
        },
    }
}

/// The run once what its session holds is decoded. Sources are decoded to evidence where
/// they were fetched, else to what was found.
pub open spec fn decoded(state: ExecutionView, found: DecodedView) -> ExecutionView {
    match (state.phase, found) {
        (Phase::Planning, DecodedView::Plan(plan)) => ExecutionView {
            point: Point::Write,
            work: WorkView { plan: Some(plan), ..state.work },
            ..state
        },
        (Phase::Planning, _) => failed(state, "parse saved plan"@),
        (Phase::Searching, DecodedView::Evidence(items)) => if items.len() == 0 {
            failed(state, "sources_json holds empty evidence"@)
        } else {
            ExecutionView {
                phase: Phase::Fetching,
                point: Point::Write,
                work: WorkView { evidence: items, rejected: Seq::empty(), ..state.work },
                ..state
            }
        },
        (Phase::Searching, DecodedView::Gathered(found)) => ExecutionView {
            phase: Phase::Fetching,
            point: Point::Begin,
            work: WorkView { gathered: found, ..state.work },
            ..state
        },
        (Phase::Searching, _) => failed(state, "parse saved sources"@),
        (Phase::Debating, DecodedView::Debate(debate)) => ExecutionView {
            phase: Phase::Reviewing,
            point: Point::Load,
            work: WorkView { debate: Some(debate), ..state.work },
            ..state
        },
        (Phase::Debating, _) => failed(state, "parse saved debate"@),
        _ => state,
    }
}

/// The run once a phase was entered, or the run was found cancelled.
pub open spec fn begun(state: ExecutionView, goes_on: bool) -> ExecutionView {
    if !goes_on {
        ExecutionView { point: Point::Over(false), ..state }
    } else if state.phase == Phase::Delivering {
        ExecutionView { point: Point::Write, ..state }
    } else {
        ExecutionView { point: Point::Run, ..state }
    }
}

/// The run once the work of its phase is done.
pub open spec fn worked(state: ExecutionView, event: EventView) -> ExecutionView {
    let work = state.work;
    match (state.phase, event) {
        (Phase::Planning, EventView::Planned(plan)) => ExecutionView {
            point: Point::Encode,
            work: WorkView { plan: Some(plan), ..work },
            ..state
        },
        (Phase::Searching, EventView::Found(found)) => ExecutionView {
            point: Point::Encode,
            work: WorkView { gathered: found, ..work },
            ..state
        },
        (Phase::Fetching, EventView::Fetched { evidence, rejected }) => ExecutionView {
            point: Point::Encode,
            work: WorkView { evidence, rejected, ..work },
            ..state
        },
        (Phase::Drafting, EventView::Said(text)) => ExecutionView {
            point: Point::Save,
            work: WorkView { draft: text, pending: text, ..work },
            ..state
        },
        (Phase::Citing, EventView::Said(text)) => ExecutionView {
            point: Point::Save,
            work: WorkView { cited: text, pending: text, ..work },
            ..state
        },
        (Phase::Debating, EventView::Debated(debate)) => ExecutionView {
            point: Point::Encode,
            work: WorkView { debate: Some(debate), ..work },
            ..state
        },
        (Phase::Reviewing, EventView::Said(raw)) => ExecutionView {
            point: Point::Save,
            work: WorkView {
                final_md: report::final_part(raw, work.cited),
                review_md: report::review_part(raw),
                pending: raw,
                ..work
            },
            ..state
        },
        _ => state,
    }
}

/// The run once what its phase produced is saved.
pub open spec fn committed(state: ExecutionView) -> ExecutionView {
    match state.phase {
        Phase::Searching => at(state, Phase::Fetching, Point::Begin),
        Phase::Fetching => if state.work.evidence.len() == 0 {
            failed(state, "No usable sources gathered — cannot draft."@)
        } else {
            at(state, Phase::Fetching, Point::Write)
        },
        Phase::Debating => at(state, Phase::Reviewing, Point::Load),
        _ => at(state, state.phase, Point::Write),
    }
}

/// The run once the files of its phase are written.
pub open spec fn written(state: ExecutionView) -> ExecutionView {
    match state.phase {
        Phase::Planning => at(state, Phase::Searching, Point::Load),
        Phase::Searching => at(state, Phase::Fetching, Point::Begin),
        Phase::Fetching => at(state, Phase::Drafting, Point::Load),
        Phase::Drafting => at(state, Phase::Citing, Point::Load),
        Phase::Citing => at(state, Phase::Debating, Point::Load),
        Phase::Debating => at(state, Phase::Reviewing, Point::Load),
        Phase::Reviewing => at(state, Phase::Delivering, Point::Begin),
        Phase::Delivering => at(state, Phase::Delivering, Point::Complete),
    }
}

/// The run is over.
pub open spec fn ended(state: ExecutionView) -> bool {
    state.point == Point::Failed || state.point is Over
}

/// The run after an event. One that does not fit changes nothing.
pub open spec fn advanced(state: ExecutionView, event: EventView) -> ExecutionView {
    if ended(state) {
        state
    } else {
        match (state.point, event) {
            (_, EventView::Failed(message)) => failed(state, message),
            (Point::Load, EventView::Session(session)) => loaded(state, session),
            (Point::Decode, EventView::Decoded(found)) => decoded(state, found),
            (Point::Begin, EventView::Begun(goes_on)) => begun(state, goes_on),
            (Point::Run, _) => worked(state, event),
            (Point::Encode, EventView::Encoded(json)) => ExecutionView {
                point: Point::Save,
                work: WorkView { pending: json, ..state.work },
                ..state
            },
            (Point::Save, EventView::Done) => committed(state),
            (Point::Write, EventView::Done) => written(state),
            (Point::Complete, EventView::Done) => at(state, state.phase, Point::Over(true)),
            _ => state,
        }
    }
}

fn saved_text(session: SessionData, phase: Phase) -> (r: Option<String>)
    ensures
        text::option_view(r) == saved(session@, phase),
{
    match phase {
        Phase::Planning => session.plan_json,
        Phase::Searching | Phase::Fetching => session.sources_json,
        Phase::Drafting => session.draft_text,
        Phase::Citing => session.cited_text,
        Phase::Debating => session.debate_text,
        Phase::Reviewing => session.review_text,
        Phase::Delivering => None,
    }
}

impl Execution {
    /// A run at its start.
    pub fn start(job: Job) -> (r: Execution)
        ensures
            r@ == fresh(job@),
    {
        let r = Execution {
            job,
            phase: Phase::Planning,
            point: Point::Load,
            work: Work {
                plan: None,
                gathered: Gathered::empty(),
                evidence: Vec::new(),
                rejected: Vec::new(),
                draft: String::new(),
                cited: String::new(),
                debate: None,
                final_md: String::new(),
                review_md: String::new(),
                pending: String::new(),
            },
        };
        assert(r@.work.evidence =~= Seq::<EvidenceView>::empty());
        assert(r@.work.rejected =~= Seq::<Seq<char>>::empty());
        assert(r@.work.draft =~= Seq::<char>::empty());
        r
    }

    fn fail(&mut self, message: String)
        ensures
            final(self)@ == failed(old(self)@, message@),
    {
        self.point = Point::Failed;
        self.work.pending = message;
    }

    fn load(&mut self, session: SessionData)
        ensures
            final(self)@ == loaded(old(self)@, session@),
    {
        match saved_text(session, self.phase) {
            None => {
                self.point = Point::Begin;
            },
            Some(text) => match self.phase {
                Phase::Drafting => {
                    self.work.draft = text;
                    self.point = Point::Write;
                },
                Phase::Citing => {
                    self.work.cited = text;
                    self.point = Point::Write;
                },
                Phase::Reviewing => {
                    let review = report::split_review(text.as_str(), self.work.cited.as_str());
                    self.work.final_md = review.final_md;
                    self.work.review_md = review.review_md;
                    self.point = Point::Write;
                },
                _ => {
                    self.work.pending = text;
                    self.point = Point::Decode;
                },
            },
        }
    }

    fn decode(&mut self, found: Decoded)
        ensures
            final(self)@ == decoded(old(self)@, found@),
    {
        match (self.phase, found) {
            (Phase::Planning, Decoded::Plan(plan)) => {
                self.work.plan = Some(plan);
                self.point = Point::Write;
            },
            (Phase::Planning, _) => self.fail("parse saved plan".to_owned()),
            (Phase::Searching, Decoded::Evidence(items)) => {
                if items.len() == 0 {
                    self.fail("sources_json holds empty evidence".to_owned());
                } else {
                    self.work.evidence = items;
                    self.work.rejected = Vec::new();
                    assert(self@.work.rejected =~= Seq::<Seq<char>>::empty());
                    self.phase = Phase::Fetching;
                    self.point = Point::Write;
                }
            },
            (Phase::Searching, Decoded::Gathered(found)) => {
                self.work.gathered = found;
                self.phase = Phase::Fetching;
                self.point = Point::Begin;
            },
            (Phase::Searching, _) => self.fail("parse saved sources".to_owned()),
            (Phase::Debating, Decoded::Debate(debate)) => {
                self.work.debate = Some(debate);
                self.phase = Phase::Reviewing;
                self.point = Point::Load;
            },
            (Phase::Debating, _) => self.fail("parse saved debate".to_owned()),
            _ => {},
        }
    }

    fn begin(&mut self, goes_on: bool)
        ensures
            final(self)@ == begun(old(self)@, goes_on),
    {
        self.point = if !goes_on {
            Point::Over(false)
        } else if self.phase == Phase::Delivering {
            Point::Write
        } else {
            Point::Run
        };
    }

    fn work_done(&mut self, event: Event)
        ensures
            final(self)@ == worked(old(self)@, event@),
    {
        match (self.phase, event) {
            (Phase::Planning, Event::Planned(plan)) => {
                self.work.plan = Some(plan);
                self.point = Point::Encode;
            },
            (Phase::Searching, Event::Found(found)) => {
                self.work.gathered = found;
                self.point = Point::Encode;
            },
            (Phase::Fetching, Event::Fetched { evidence, rejected }) => {
                self.work.evidence = evidence;
                self.work.rejected = rejected;
                self.point = Point::Encode;
            },
            (Phase::Drafting, Event::Said(text)) => {
                self.work.draft = text.clone();
                self.work.pending = text;
                self.point = Point::Save;
            },
            (Phase::Citing, Event::Said(text)) => {
                self.work.cited = text.clone();
                self.work.pending = text;
                self.point = Point::Save;
            },
            (Phase::Debating, Event::Debated(debate)) => {
                self.work.debate = Some(debate);
                self.point = Point::Encode;
            },
            (Phase::Reviewing, Event::Said(raw)) => {
                let review = report::split_review(raw.as_str(), self.work.cited.as_str());
                self.work.final_md = review.final_md;
                self.work.review_md = review.review_md;
                self.work.pending = raw;
                self.point = Point::Save;
            },
            _ => {},
        }
    }

    fn commit(&mut self)
        ensures
            final(self)@ == committed(old(self)@),
    {
        match self.phase {
            Phase::Searching => {
                self.phase = Phase::Fetching;
                self.point = Point::Begin;
            },
            Phase::Fetching => {
                if self.work.evidence.len() == 0 {
                    self.fail("No usable sources gathered — cannot draft.".to_owned());
                } else {
                    self.point = Point::Write;
                }
            },
            Phase::Debating => {
                self.phase = Phase::Reviewing;
                self.point = Point::Load;
            },
            _ => {
                self.point = Point::Write;
            },
        }
    }

    fn move_on(&mut self)
        ensures
            final(self)@ == written(old(self)@),
    {
        match self.phase {
            Phase::Planning => {
                self.phase = Phase::Searching;
                self.point = Point::Load;
            },
            Phase::Searching => {
                self.phase = Phase::Fetching;
                self.point = Point::Begin;
            },
            Phase::Fetching => {
                self.phase = Phase::Drafting;
                self.point = Point::Load;
            },
            Phase::Drafting => {
                self.phase = Phase::Citing;
                self.point = Point::Load;
            },
            Phase::Citing => {
                self.phase = Phase::Debating;
                self.point = Point::Load;
            },
            Phase::Debating => {
                self.phase = Phase::Reviewing;
                self.point = Point::Load;
            },
            Phase::Reviewing => {
                self.phase = Phase::Delivering;
                self.point = Point::Begin;
            },
            Phase::Delivering => {
                self.point = Point::Complete;
            },
        }
    }

    /// Take in what happened. An event that does not fit changes nothing.
    pub fn advance(&mut self, event: Event)
        ensures
            final(self)@ == advanced(old(self)@, event@),
    {
        match (self.point, event) {
            (Point::Over(_), _) => {},
            (Point::Failed, _) => {},
            (_, Event::Failed(message)) => self.fail(message),
            (Point::Load, Event::Session(session)) => self.load(session),
            (Point::Decode, Event::Decoded(found)) => self.decode(found),
            (Point::Begin, Event::Begun(goes_on)) => self.begin(goes_on),
            (Point::Run, event) => self.work_done(event),
            (Point::Encode, Event::Encoded(json)) => {
                self.work.pending = json;
                self.point = Point::Save;
            },
            (Point::Save, Event::Done) => self.commit(),
            (Point::Write, Event::Done) => self.move_on(),
            (Point::Complete, Event::Done) => {
                self.point = Point::Over(true);
            },
            _ => {},
        }
    }
}

// ── actions ─────────────────────────────────────────────────────────

/// A file of a run.
#[derive(Debug)]
pub struct OutputFile {
    pub path: String,
    pub text: String,
    /// What is said when the file cannot be written.
    pub purpose: String,
}

/// A file with its texts as sequences of characters.
pub struct FileView {
    pub path: Seq<char>,
    pub text: Seq<char>,
    pub purpose: Seq<char>,
}

impl View for OutputFile {
    type V = FileView;

    open spec fn view(&self) -> FileView {
        FileView { path: self.path@, text: self.text@, purpose: self.purpose@ }
    }
}

/// A file of a run in the directory of intermediate artifacts.
pub open spec fn artifact(job: JobView, suffix: Seq<char>) -> Seq<char> {
    report::joined_path(report::joined_path(job.out_dir, ".drafts"@), job.slug + suffix)
}

/// A file of a run in the directory of reports.
pub open spec fn product(job: JobView, suffix: Seq<char>) -> Seq<char> {
    report::joined_path(job.out_dir, job.slug + suffix)
}

fn named(slug: &str, suffix: &str) -> (r: String)
    ensures
        r@ == slug@ + suffix@,
{
    let mut name = slug.to_owned();
    name.append(suffix);
    name
}

impl Job {
    /// A file of the run in the directory of intermediate artifacts.
    pub fn artifact_path(&self, suffix: &str) -> (r: String)
        ensures
            r@ == artifact(self@, suffix@),
    {
        let dir = report::join_path(self.out_dir.as_str(), ".drafts");
        report::join_path(dir.as_str(), named(self.slug.as_str(), suffix).as_str())
    }

    /// A file of the run in the directory of reports.
    pub fn product_path(&self, suffix: &str) -> (r: String)
        ensures
            r@ == product(self@, suffix@),
    {
        report::join_path(self.out_dir.as_str(), named(self.slug.as_str(), suffix).as_str())
    }
}

/// The report that is delivered.
pub open spec fn delivered(work: WorkView) -> Seq<char> {
    match work.debate {
        Some(debate) => report::with_debate(work.final_md, debate),
        None => work.final_md,
    }
}

/// The files that a phase writes, on the given date.
pub open spec fn files_of(job: JobView, work: WorkView, phase: Phase, date: Seq<char>) -> Seq<
    FileView,
> {
    match phase {
        Phase::Planning => match work.plan {
            Some(plan) => seq![
                FileView {
                    path: artifact(job, "-plan.md"@),
                    text: plan::plan_document(plan, job.topic, job.slug),
                    purpose: "write plan"@,
                },
            ],
            None => Seq::empty(),
        },
        Phase::Fetching => seq![
            FileView {
                path: artifact(job, "-research-direct.md"@),
                text: evidence::notes(work.evidence),
                purpose: "write research notes"@,
            },
        ],
        Phase::Drafting => seq![
            FileView {
                path: artifact(job, "-draft.md"@),
                text: work.draft,
                purpose: "write draft"@,
            },
        ],
        Phase::Citing => seq![
            FileView {
                path: artifact(job, "-cited.md"@),
                text: work.cited,
                purpose: "write cited draft"@,
            },
        ],
        Phase::Reviewing => seq![
            FileView {
                path: artifact(job, "-verification.md"@),
                text: work.review_md,
                purpose: "write review"@,
            },
        ],
        Phase::Delivering => seq![
            FileView {
                path: product(job, ".md"@),
                text: delivered(work),
                purpose: "write final report"@,
            },
            FileView {
                path: product(job, ".provenance.md"@),
                text: report::provenance(
                    job.topic,
                    date,
                    work.evidence.len(),
                    work.rejected,
                    artifact(job, "-plan.md"@),
                    artifact(job, "-research-direct.md"@),
                    artifact(job, "-draft.md"@),
                    artifact(job, "-cited.md"@),
                    artifact(job, "-verification.md"@),
                ),
                purpose: "write provenance"@,
            },
        ],
        _ => Seq::empty(),
    }
}

/// What the log says of a phase that is done.
pub open spec fn log_message(phase: Phase, accepted: nat) -> Seq<char> {
    match phase {
        Phase::Planning => "plan produced"@,
        Phase::Searching => "search complete"@,
        Phase::Fetching => number::decimal(accepted) + " sources accepted"@,
        Phase::Drafting => "draft written"@,
        Phase::Citing => "citations verified"@,
        Phase::Debating => "debate complete"@,
        Phase::Reviewing => "review complete"@,
        Phase::Delivering => "delivered"@,
    }
}

/// What the log says of a phase that is done.
pub fn message_for(phase: Phase, accepted: usize) -> (r: String)
    ensures
        r@ == log_message(phase, accepted as nat),
{
    match phase {
        Phase::Planning => "plan produced".to_owned(),
        Phase::Searching => "search complete".to_owned(),
        Phase::Fetching => {
            let mut message = number::decimal_of(accepted as u128);
            message.append(" sources accepted");
            message
        },
        Phase::Drafting => "draft written".to_owned(),
        Phase::Citing => "citations verified".to_owned(),
        Phase::Debating => "debate complete".to_owned(),
        Phase::Reviewing => "review complete".to_owned(),
        Phase::Delivering => "delivered".to_owned(),
    }
}

/// The piece of a session that a phase adds.
pub open spec fn piece(phase: Phase, text: Seq<char>) -> SessionState {
    let blank = db::blank_session();
    match phase {
        Phase::Planning => SessionState { plan_json: Some(text), ..blank },
        Phase::Searching | Phase::Fetching => SessionState { sources_json: Some(text), ..blank },
        Phase::Drafting => SessionState { draft_text: Some(text), ..blank },
        Phase::Citing => SessionState { cited_text: Some(text), ..blank },
        Phase::Debating => SessionState { debate_text: Some(text), ..blank },
        Phase::Reviewing => SessionState { review_text: Some(text), ..blank },
        Phase::Delivering => blank,
    }
}

fn piece_of(phase: Phase, text: String) -> (r: SessionData)
    ensures
        r@ == piece(phase, text@),
{
    let mut data = SessionData::default();
    match phase {
        Phase::Planning => {
            data.plan_json = Some(text);
        },
        Phase::Searching | Phase::Fetching => {
            data.sources_json = Some(text);
        },
        Phase::Drafting => {
            data.draft_text = Some(text);
        },
        Phase::Citing => {
            data.cited_text = Some(text);
        },
        Phase::Debating => {
            data.debate_text = Some(text);
        },
        Phase::Reviewing => {
            data.review_text = Some(text);
        },
        Phase::Delivering => {},
    }
    data
}

/// What a run needs next.
#[derive(Debug)]
pub enum Action {
    /// Its session.
    ReadSession,
    /// What an encoded text stands for.
    Decode { kind: Stored, json: String },
    /// To be shown as running in the phase.
    Begin(Phase),
    /// A plan.
    MakePlan(Prompt),
    /// The answers to these requests.
    Search(Vec<GatherTask>),
    /// The sources in full, so many web pages among them at most.
    Fetch { max_sources: usize },
    /// The model's reply.
    Ask(Prompt),
    /// A debate on the cited draft.
    Debate,
    /// What was produced in encoded form.
    Encode(Stored),
    /// The piece of session saved, and the phase logged as done.
    Save { data: SessionData, phase: Phase, message: String },
    /// These files written.
    Write(Vec<OutputFile>),
    /// To be marked complete, and its last phase logged as done.
    Complete { report_path: String, provenance_path: String, message: String },
    /// Nothing more; whether it is complete.
    Stop(bool),
    /// Nothing more: it failed.
    Fail(String),
}

/// What a run needs next, as its view.
pub enum ActionView {
    ReadSession,
    Decode { kind: Stored, json: Seq<char> },
    Begin(Phase),
    MakePlan(PromptView),
    Search(Seq<TaskView>),
    Fetch { max_sources: nat },
    Ask(PromptView),
    Debate,
    Encode(Stored),
    Save { data: SessionState, phase: Phase, message: Seq<char> },
    Write(Seq<FileView>),
    Complete { report_path: Seq<char>, provenance_path: Seq<char>, message: Seq<char> },
    Stop(bool),
    Fail(Seq<char>),
}

impl Action {
    /// The action is the one described.
    pub open spec fn is(self, view: ActionView) -> bool {
        match (self, view) {
            (Action::ReadSession, ActionView::ReadSession) => true,
            (Action::Decode { kind, json }, ActionView::Decode { kind: k, json: j }) => kind == k
                && json@ == j,
            (Action::Begin(phase), ActionView::Begin(p)) => phase == p,
            (Action::MakePlan(prompt), ActionView::MakePlan(p)) => prompt.says(p),
            (Action::Search(tasks), ActionView::Search(t)) => text::views(tasks@) == t,
            (Action::Fetch { max_sources }, ActionView::Fetch { max_sources: m }) => max_sources
                == m,
            (Action::Ask(prompt), ActionView::Ask(p)) => prompt.says(p),
            (Action::Debate, ActionView::Debate) => true,
            (Action::Encode(kind), ActionView::Encode(k)) => kind == k,
            (
                Action::Save { data, phase, message },
                ActionView::Save { data: d, phase: p, message: m },
            ) => data@ == d && phase == p && message@ == m,
            (Action::Write(files), ActionView::Write(f)) => text::views(files@) == f,
            (
                Action::Complete { report_path, provenance_path, message },
                ActionView::Complete { report_path: r, provenance_path: p, message: m },
            ) => report_path@ == r && provenance_path@ == p && message@ == m,
            (Action::Stop(done), ActionView::Stop(d)) => done == d,
            (Action::Fail(error), ActionView::Fail(e)) => error@ == e,
            _ => false,
        }
    }
}

/// What the phase keeps in encoded form.
pub open spec fn stored_by(phase: Phase) -> Stored {
    match phase {
        Phase::Planning => Stored::Plan,
        Phase::Debating => Stored::Debate,
        _ => Stored::Sources,
    }
}

/// The work of a phase.
pub open spec fn work_of(state: ExecutionView) -> ActionView {
    let job = state.job;
    let work = state.work;
    match state.phase {
        Phase::Planning => ActionView::MakePlan(plan::plan_prompt_for(job.topic)),
        Phase::Searching => match work.plan {
            Some(plan) => ActionView::Search(
                gather::tasks_for(
                    gather::ids_in(gather::ARXIV_ID@, job.topic),
                    gather::ids_in(gather::PUBMED_ID@, job.topic),
                    plan,
                    job.topic,
                    job.with_scopus,
                ),
            ),
            None => ActionView::Fail("no plan"@),
        },
        Phase::Fetching => match work.plan {
            Some(plan) => ActionView::Fetch {
                max_sources: plan::download_limit(job.max_sources, plan.download_budget),
            },
            None => ActionView::Fail("no plan"@),
        },
        Phase::Drafting => ActionView::Ask(report::draft_prompt_for(job.topic, work.evidence)),
        Phase::Citing => ActionView::Ask(report::cite_prompt_for(work.draft, work.evidence)),
        Phase::Debating => ActionView::Debate,
        Phase::Reviewing => match work.debate {
            Some(debate) => ActionView::Ask(
                report::review_prompt_for(work.cited, work.evidence, debate.consensus),
            ),
            None => ActionView::Fail("no debate"@),
        },
        Phase::Delivering => ActionView::Fail("nothing to do"@),
    }
}

/// What a run needs next, on the given date.
pub open spec fn engine_needs(state: ExecutionView, date: Seq<char>) -> ActionView {
    match state.point {
        Point::Load => ActionView::ReadSession,
        Point::Decode => ActionView::Decode {
            kind: stored_by(state.phase),
            json: state.work.pending,
        },
        Point::Begin => ActionView::Begin(state.phase),
        Point::Run => work_of(state),
        Point::Encode => ActionView::Encode(stored_by(state.phase)),
        Point::Save => ActionView::Save {
            data: piece(state.phase, state.work.pending),
            phase: state.phase,
            message: log_message(state.phase, state.work.evidence.len()),
        },
        Point::Write => ActionView::Write(files_of(state.job, state.work, state.phase, date)),
        Point::Complete => ActionView::Complete {
            report_path: product(state.job, ".md"@),
            provenance_path: product(state.job, ".provenance.md"@),
            message: log_message(Phase::Delivering, state.work.evidence.len()),
        },
        Point::Over(complete) => ActionView::Stop(complete),
        Point::Failed => ActionView::Fail(state.work.pending),
    }
}

fn one_file(path: String, text: String, purpose: &str) -> (r: Vec<OutputFile>)
    ensures
        text::views(r@) == seq![FileView { path: path@, text: text@, purpose: purpose@ }],
{
    let mut files: Vec<OutputFile> = Vec::new();
    let file = OutputFile { path, text, purpose: purpose.to_owned() };
    files.push(file);
    assert(text::views(files@) =~= seq![file@]);
    files
}

impl Execution {
    fn stored(&self) -> (r: Stored)
        ensures
            r == stored_by(self@.phase),
    {
        match self.phase {
            Phase::Planning => Stored::Plan,
            Phase::Debating => Stored::Debate,
            _ => Stored::Sources,
        }
    }

    fn product_files(&self, date: &str) -> (r: Vec<OutputFile>)
        ensures
            text::views(r@) == files_of(self@.job, self@.work, Phase::Delivering, date@),
    {
        let text = match &self.work.debate {
            Some(debate) => report::append_debate_summary(self.work.final_md.as_str(), debate),
            None => self.work.final_md.clone(),
        };
        let mut files = one_file(self.job.product_path(".md"), text, "write final report");
        let ghost first = files@;
        let provenance = OutputFile {
            path: self.job.product_path(".provenance.md"),
            text: report::build_provenance_on(
                date,
                self.job.topic.as_str(),
                self.work.evidence.len(),
                &self.work.rejected,
                self.job.artifact_path("-plan.md").as_str(),
                self.job.artifact_path("-research-direct.md").as_str(),
                self.job.artifact_path("-draft.md").as_str(),
                self.job.artifact_path("-cited.md").as_str(),
                self.job.artifact_path("-verification.md").as_str(),
            ),
            purpose: "write provenance".to_owned(),
        };
        files.push(provenance);
        proof {
            assert(text::views(files@) =~= text::views(first).push(provenance@));
            assert(text::views(files@) =~= files_of(
                self@.job,
                self@.work,
                Phase::Delivering,
                date@,
            ));
        }
        files
    }

    /// The files that the present phase writes, on the given date.
    pub fn files_on(&self, date: &str) -> (r: Vec<OutputFile>)
        ensures
            text::views(r@) == files_of(self@.job, self@.work, self@.phase, date@),
    {
        match self.phase {
            Phase::Planning => match &self.work.plan {
                Some(plan) => one_file(
                    self.job.artifact_path("-plan.md"),
                    plan::format_plan(plan, self.job.topic.as_str(), self.job.slug.as_str()),
                    "write plan",
                ),
                None => {
                    let none: Vec<OutputFile> = Vec::new();
                    assert(text::views(none@) =~= Seq::<FileView>::empty());
                    none
                },
            },
            Phase::Fetching => one_file(
                self.job.artifact_path("-research-direct.md"),
                evidence::build_research_notes(self.work.evidence.as_slice()),
                "write research notes",
            ),
            Phase::Drafting => one_file(
                self.job.artifact_path("-draft.md"),
                self.work.draft.clone(),
                "write draft",
            ),
            Phase::Citing => one_file(
                self.job.artifact_path("-cited.md"),
                self.work.cited.clone(),
                "write cited draft",
            ),
            Phase::Reviewing => one_file(
                self.job.artifact_path("-verification.md"),
                self.work.review_md.clone(),
                "write review",
            ),
            Phase::Delivering => self.product_files(date),
            _ => {
                let none: Vec<OutputFile> = Vec::new();
                assert(text::views(none@) =~= Seq::<FileView>::empty());
                none
            },
        }
    }

    fn phase_work(&self) -> (r: Action)
        ensures
            r.is(work_of(self@)),
    {
        match self.phase {
            Phase::Planning => Action::MakePlan(plan::plan_prompt(self.job.topic.as_str())),
            Phase::Searching => match &self.work.plan {
                Some(plan) => Action::Search(
                    gather::plan_gathering(plan, self.job.topic.as_str(), self.job.with_scopus),
                ),
                None => Action::Fail("no plan".to_owned()),
            },
            Phase::Fetching => match &self.work.plan {
                Some(plan) => Action::Fetch {
                    max_sources: plan::effective_max_sources(
                        self.job.max_sources,
                        plan.download_budget,
                    ),
                },
                None => Action::Fail("no plan".to_owned()),
            },
            Phase::Drafting => Action::Ask(
                report::draft_prompt(self.job.topic.as_str(), self.work.evidence.as_slice()),
            ),
            Phase::Citing => Action::Ask(
                report::cite_prompt(self.work.draft.as_str(), self.work.evidence.as_slice()),
            ),
            Phase::Debating => Action::Debate,
            Phase::Reviewing => match &self.work.debate {
                Some(debate) => Action::Ask(
                    report::review_prompt(
                        self.work.cited.as_str(),
                        self.work.evidence.as_slice(),
                        &debate.consensus,
                    ),
                ),
                None => Action::Fail("no debate".to_owned()),
            },
            Phase::Delivering => Action::Fail("nothing to do".to_owned()),
        }
    }

    /// What the run needs next, on the given date.
    pub fn needs_on(&self, date: &str) -> (r: Action)
        ensures
            r.is(engine_needs(self@, date@)),
    {
        match self.point {
            Point::Load => Action::ReadSession,
            Point::Decode => Action::Decode {
                kind: self.stored(),
                json: self.work.pending.clone(),
            },
            Point::Begin => Action::Begin(self.phase),
            Point::Run => self.phase_work(),
            Point::Encode => Action::Encode(self.stored()),
            Point::Save => Action::Save {
                data: piece_of(self.phase, self.work.pending.clone()),
                phase: self.phase,
                message: message_for(self.phase, self.work.evidence.len()),
            },
            Point::Write => Action::Write(self.files_on(date)),
            Point::Complete => Action::Complete {
                report_path: self.job.product_path(".md"),
                provenance_path: self.job.product_path(".provenance.md"),
                message: message_for(Phase::Delivering, self.work.evidence.len()),
            },
            Point::Over(complete) => Action::Stop(complete),
            Point::Failed => Action::Fail(self.work.pending.clone()),
        }
    }

    /// What the run needs next.
    pub fn needs(&self) -> (r: Action)
        ensures
            exists|date: Seq<char>|
                clock::is_date(date) && r.is(#[trigger] engine_needs(self@, date)),
    {
        let date = report::today();
        self.needs_on(date.as_str())
    }

    /// What the run delivered.
    pub fn report(&self) -> (r: RunReport)
        ensures
            r.slug@ == self@.job.slug,
            r.report_path@ == product(self@.job, ".md"@),
            r.provenance_path@ == product(self@.job, ".provenance.md"@),
            r.sources_accepted == self@.work.evidence.len(),
    {
        RunReport {
            slug: self.job.slug.clone(),
            report_path: self.job.product_path(".md"),
            provenance_path: self.job.product_path(".provenance.md"),
            sources_accepted: self.work.evidence.len(),
        }
    }
}

/// What a run delivered.
#[derive(Debug)]
pub struct RunReport {
    pub slug: String,
    pub report_path: String,
    pub provenance_path: String,
    pub sources_accepted: usize,
}

// ── laws ────────────────────────────────────────────────────────────

/// A phase whose output the session holds is not done again: the run goes on with what is
/// there.
pub proof fn saved_work_is_reused(state: ExecutionView, session: SessionState)
    requires
        state.point == Point::Load,
        saved(session, state.phase) is Some,
    ensures
        ({
            let next = advanced(state, EventView::Session(session));
            let text = saved(session, state.phase)->0;
            &&& next.phase == state.phase
            &&& next.point == Point::Write || next.point == Point::Decode
            &&& state.phase == Phase::Drafting ==> next.work.draft == text
            &&& state.phase == Phase::Citing ==> next.work.cited == text
            &&& state.phase == Phase::Reviewing ==> next.work.review_md == report::review_part(text)
                && next.work.final_md == report::final_part(text, state.work.cited)
            &&& next.point == Point::Decode ==> next.work.pending == text
        }),
{
}

/// A phase whose output the session does not hold is begun.
pub proof fn missing_work_is_begun(state: ExecutionView, session: SessionState)
    requires
        state.point == Point::Load,
        saved(session, state.phase) is None,
    ensures
        advanced(state, EventView::Session(session)) == at(state, state.phase, Point::Begin),
{
}

/// The work of a phase is done only once the phase was entered.
pub proof fn work_follows_its_beginning(state: ExecutionView, event: EventView)
    ensures
        advanced(state, event).point == Point::Run && advanced(state, event) != state ==> state.point
            == Point::Begin && state.phase == advanced(state, event).phase && event
            == EventView::Begun(true),
{
}

/// Once the work of a phase is done, no other phase is reached before its output is saved.
pub proof fn work_is_saved_before_the_next_phase(state: ExecutionView, event: EventView)
    ensures
        (state.point == Point::Run || state.point == Point::Encode) ==> advanced(state, event).phase
            == state.phase,
        state.point == Point::Run && advanced(state, event).point != Point::Run ==> {
            let point = advanced(state, event).point;
            point == Point::Encode || point == Point::Save || point == Point::Failed
        },
        state.point == Point::Encode && advanced(state, event).point != Point::Encode ==> {
            let point = advanced(state, event).point;
            point == Point::Save || point == Point::Failed
        },
        state.point == Point::Save && advanced(state, event).phase != state.phase ==> event
            == EventView::Done,
{
}

/// Phases come in their order, and the progress shown never falls.
pub proof fn phases_come_in_order(state: ExecutionView, event: EventView)
    ensures
        state.phase.index() <= advanced(state, event).phase.index() <= state.phase.index() + 1,
        state.phase.milestone() <= advanced(state, event).phase.milestone(),
{
}

/// A run is complete only after its report was written and it was marked complete, and a
/// cancelled run stops before its next phase without being complete.
pub proof fn completion_comes_last(state: ExecutionView, event: EventView)
    requires
        !ended(state),
    ensures
        advanced(state, event).point == Point::Over(true) ==> state.point == Point::Complete && event
            == EventView::Done,
        advanced(state, event).point == Point::Complete && state.point != Point::Complete ==> state.point
            == Point::Write && state.phase == Phase::Delivering && event == EventView::Done,
        advanced(state, event).point == Point::Over(false) <==> state.point == Point::Begin && event
            == EventView::Begun(false),
{
}

/// How many events a run can still take in at most.
pub open spec fn events_left(state: ExecutionView) -> int {
    let later = (Phase::Delivering.index() - state.phase.index()) * 8;
    match state.point {
        Point::Load => later + 8,
        Point::Decode => later + 7,
        Point::Begin => later + 6,
        Point::Run => later + 5,
        Point::Encode => later + 4,
        Point::Save => later + 3,
        Point::Write => later + 2,
        Point::Complete => later + 1,
        Point::Over(_) | Point::Failed => 0,
    }
}

/// Every run ends: an event either changes nothing or brings the run nearer to its end, and
/// nothing is left only once it is over.
pub proof fn runs_end(state: ExecutionView, event: EventView)
    ensures
        events_left(state) >= 0,
        events_left(state) == 0 <==> ended(state),
        advanced(state, event) != state ==> events_left(advanced(state, event)) < events_left(state),
{
}

/// A run that is over stays as it is, and a failure ends any other.
pub proof fn failures_end_a_run(state: ExecutionView, event: EventView, message: Seq<char>)
    ensures
        ended(state) ==> advanced(state, event) == state,
        !ended(state) ==> advanced(state, EventView::Failed(message)).point == Point::Failed
            && engine_needs(advanced(state, EventView::Failed(message)), Seq::empty())
            == ActionView::Fail(message),
{
}

/// What a phase saves is what a later run of the same session loads, and nothing else that
/// the session holds is touched.
pub proof fn saved_work_is_loaded(
    session: SessionState,
    phase: Phase,
    other: Phase,
    text: Seq<char>,
)
    requires
        phase != Phase::Delivering,
    ensures
        saved(db::merged(session, piece(phase, text)), phase) == Some(text),
        (other.index() != phase.index() && !(phase == Phase::Searching && other == Phase::Fetching)
            && !(phase == Phase::Fetching && other == Phase::Searching)) ==> saved(
            db::merged(session, piece(phase, text)),
            other,
        ) == saved(session, other),
{
}

// ── taking a run up again ───────────────────────────────────────────

/// What was found is no longer of use: the sources are fetched.
pub open spec fn past_fetching(state: ExecutionView) -> bool {
    ||| state.phase.index() > Phase::Fetching.index()
    ||| state.phase == Phase::Fetching && !(state.point == Point::Load || state.point
        == Point::Decode || state.point == Point::Begin || state.point == Point::Run)
}

/// Two runs stand at the same place with the same work. What was found may differ once the
/// sources are fetched, and the pending text where none is pending; what was refused may
/// differ unless `refused` says otherwise.
pub open spec fn alike(a: ExecutionView, b: ExecutionView, refused: bool) -> bool {
    let pending = a.point == Point::Decode || a.point == Point::Save || a.point == Point::Failed;
    &&& a.job == b.job
    &&& a.phase == b.phase
    &&& a.point == b.point
    &&& a.work.plan == b.work.plan
    &&& past_fetching(a) || ended(a) || a.work.gathered == b.work.gathered
    &&& a.work.evidence == b.work.evidence
    &&& refused ==> a.work.rejected == b.work.rejected
    &&& a.work.draft == b.work.draft
    &&& a.work.cited == b.work.cited
    &&& a.work.debate == b.work.debate
    &&& a.work.final_md == b.work.final_md
    &&& a.work.review_md == b.work.review_md
    &&& pending ==> a.work.pending == b.work.pending
}

/// The run after several events.
pub open spec fn all_advanced(state: ExecutionView, events: Seq<EventView>) -> ExecutionView
    decreases events.len(),
{
    if events.len() == 0 {
        state
    } else {
        advanced(all_advanced(state, events.drop_last()), events.last())
    }
}

/// Runs that are alike stay alike, whatever happens to them, and at every step need the same:
/// the same files written and the same report delivered. Where they differ in what was
/// refused, the last phase's provenance alone may differ.
pub proof fn runs_that_are_alike_deliver_the_same(
    a: ExecutionView,
    b: ExecutionView,
    refused: bool,
    events: Seq<EventView>,
    date: Seq<char>,
)
    requires
        alike(a, b, refused),
    ensures
        ({
            let one = all_advanced(a, events);
            let other = all_advanced(b, events);
            &&& alike(one, other, refused)
            &&& engine_needs(one, date) == engine_needs(other, date) || (!refused && one.phase
                == Phase::Delivering && one.point == Point::Write)
            &&& files_of(one.job, one.work, Phase::Delivering, date)[0] == files_of(
                other.job,
                other.work,
                Phase::Delivering,
                date,
            )[0]
        }),
    decreases events.len(),
{
    let one = all_advanced(a, events);
    let other = all_advanced(b, events);
    if events.len() > 0 {
        runs_that_are_alike_deliver_the_same(a, b, refused, events.drop_last(), date);
        alike_runs_stay_alike(
            all_advanced(a, events.drop_last()),
            all_advanced(b, events.drop_last()),
            refused,
            events.last(),
        );
    }
    assert(alike(one, other, refused));
    alike_runs_need_the_same(one, other, refused, date);
}

proof fn alike_runs_stay_alike(
    a: ExecutionView,
    b: ExecutionView,
    refused: bool,
    event: EventView,
)
    requires
        alike(a, b, refused),
    ensures
        alike(advanced(a, event), advanced(b, event), refused),
{
}

proof fn alike_runs_need_the_same(
    a: ExecutionView,
    b: ExecutionView,
    refused: bool,
    date: Seq<char>,
)
    requires
        alike(a, b, refused),
    ensures
        engine_needs(a, date) == engine_needs(b, date) || (!refused && a.phase == Phase::Delivering
            && a.point == Point::Write),
        files_of(a.job, a.work, Phase::Delivering, date)[0] == files_of(
            b.job,
            b.work,
            Phase::Delivering,
            date,
        )[0],
{
    if a.point == Point::Write && (refused || a.phase != Phase::Delivering) {
        assert(files_of(a.job, a.work, a.phase, date) == files_of(b.job, b.work, b.phase, date));
    } else if a.point == Point::Run {
        assert(work_of(a) == work_of(b));
    }
}

/// The events of a phase whose work ended with `event`: the work done, encoded as `json` where
/// the phase encodes it, and saved.
pub open spec fn phase_events(phase: Phase, event: EventView, json: Seq<char>) -> Seq<EventView> {
    match phase {
        Phase::Drafting | Phase::Citing | Phase::Reviewing => seq![event, EventView::Done],
        _ => seq![event, EventView::Encoded(json), EventView::Done],
    }
}

/// A draft, a cited draft or a review that a run saved is what the run goes on with when it
/// is taken up again: it stands where the run that was not interrupted stands, with the same
/// draft, the same cited draft, the same review and the same document, and writes the same.
pub proof fn resumed_runs_write_the_same(
    state: ExecutionView,
    session: SessionState,
    text: Seq<char>,
    date: Seq<char>,
)
    requires
        state.point == Point::Run,
        state.phase == Phase::Drafting || state.phase == Phase::Citing || state.phase
            == Phase::Reviewing,
    ensures
        ({
            let done = all_advanced(
                state,
                phase_events(state.phase, EventView::Said(text), Seq::empty()),
            );
            let kept = db::merged(session, piece(state.phase, text));
            let resumed = advanced(
                at(state, state.phase, Point::Load),
                EventView::Session(kept),
            );
            &&& done.point == Point::Write
            &&& alike(done, resumed, true)
            &&& engine_needs(done, date) == engine_needs(resumed, date)
        }),
{
    let events = phase_events(state.phase, EventView::Said(text), Seq::empty());
    assert(events.drop_last() =~= seq![EventView::Said(text)]);
    assert(events.drop_last().drop_last() =~= Seq::<EventView>::empty());
    reveal_with_fuel(all_advanced, 3);
    let done = all_advanced(state, events);
    let kept = db::merged(session, piece(state.phase, text));
    let resumed = advanced(at(state, state.phase, Point::Load), EventView::Session(kept));
    alike_runs_need_the_same(done, resumed, true, date);
}

/// What a phase encoded and saved is what the run goes on with when it is taken up again,
/// provided that decoding gives back what was encoded. This is the plan, what was found, or
/// the debate.
pub proof fn resumed_results_are_the_same(
    state: ExecutionView,
    session: SessionState,
    event: EventView,
    json: Seq<char>,
)
    requires
        state.point == Point::Run,
        state.phase == Phase::Planning && event is Planned || state.phase == Phase::Searching
            && event is Found || state.phase == Phase::Debating && event is Debated,
    ensures
        ({
            let done = all_advanced(state, phase_events(state.phase, event, json));
            let kept = db::merged(session, piece(state.phase, json));
            let decoded = match event {
                EventView::Planned(plan) => DecodedView::Plan(plan),
                EventView::Found(found) => DecodedView::Gathered(found),
                EventView::Debated(debate) => DecodedView::Debate(debate),
                _ => DecodedView::Nothing,
            };
            let resumed = all_advanced(
                at(state, state.phase, Point::Load),
                seq![EventView::Session(kept), EventView::Decoded(decoded)],
            );
            &&& !ended(done)
            &&& alike(done, resumed, true)
        }),
{
    let kept = db::merged(session, piece(state.phase, json));
    let decoded = match event {
        EventView::Planned(plan) => DecodedView::Plan(plan),
        EventView::Found(found) => DecodedView::Gathered(found),
        EventView::Debated(debate) => DecodedView::Debate(debate),
        _ => DecodedView::Nothing,
    };
    steps_of_a_result(state, event, json);
    steps_of_a_session(at(state, state.phase, Point::Load), kept, decoded);
}

/// Sources that were fetched and saved are what the run goes on with when it is taken up
/// again, provided that decoding gives back what was encoded. What was refused is not saved.
pub proof fn resumed_sources_are_the_same(
    state: ExecutionView,
    session: SessionState,
    evidence: Seq<EvidenceView>,
    rejected: Seq<Seq<char>>,
    json: Seq<char>,
)
    requires
        state.point == Point::Run,
        state.phase == Phase::Fetching,
        evidence.len() > 0,
    ensures
        ({
            let done = all_advanced(
                state,
                phase_events(state.phase, EventView::Fetched { evidence, rejected }, json),
            );
            let kept = db::merged(session, piece(state.phase, json));
            let resumed = all_advanced(
                at(state, Phase::Searching, Point::Load),
                seq![
                    EventView::Session(kept),
                    EventView::Decoded(DecodedView::Evidence(evidence)),
                ],
            );
            &&& done.point == Point::Write
            &&& alike(done, resumed, false)
            &&& rejected.len() == 0 ==> alike(done, resumed, true)
        }),
{
    let kept = db::merged(session, piece(state.phase, json));
    steps_of_a_result(state, EventView::Fetched { evidence, rejected }, json);
    steps_of_a_session(
        at(state, Phase::Searching, Point::Load),
        kept,
        DecodedView::Evidence(evidence),
    );
    if rejected.len() == 0 {
        assert(rejected =~= Seq::<Seq<char>>::empty());
    }
}

proof fn steps_of_a_result(state: ExecutionView, event: EventView, json: Seq<char>)
    ensures
        all_advanced(state, seq![event, EventView::Encoded(json), EventView::Done]) == advanced(
            advanced(advanced(state, event), EventView::Encoded(json)),
            EventView::Done,
        ),
{
    let events = seq![event, EventView::Encoded(json), EventView::Done];
    assert(events.drop_last() =~= seq![event, EventView::Encoded(json)]);
    assert(events.drop_last().drop_last() =~= seq![event]);
    assert(events.drop_last().drop_last().drop_last() =~= Seq::<EventView>::empty());
    reveal_with_fuel(all_advanced, 4);
}

proof fn steps_of_a_session(state: ExecutionView, session: SessionState, decoded: DecodedView)
    ensures
        all_advanced(state, seq![EventView::Session(session), EventView::Decoded(decoded)])
            == advanced(
            advanced(state, EventView::Session(session)),
            EventView::Decoded(decoded),
        ),
{
    let events = seq![EventView::Session(session), EventView::Decoded(decoded)];
    assert(events.drop_last() =~= seq![EventView::Session(session)]);
    assert(events.drop_last().drop_last() =~= Seq::<EventView>::empty());
    reveal_with_fuel(all_advanced, 3);
}

/// A run that is taken up again after its review delivers what the run that was not
/// interrupted delivers: the same report and the same provenance.
pub proof fn resumed_reviews_deliver_the_same(
    state: ExecutionView,
    session: SessionState,
    reply: Seq<char>,
    date: Seq<char>,
)
    requires
        state.point == Point::Run,
        state.phase == Phase::Reviewing,
    ensures
        ({
            let done = all_advanced(
                state,
                phase_events(state.phase, EventView::Said(reply), Seq::empty()),
            );
            let kept = db::merged(session, piece(state.phase, reply));
            let resumed = advanced(
                at(state, state.phase, Point::Load),
                EventView::Session(kept),
            );
            let last = seq![EventView::Done, EventView::Begun(true)];
            let delivering = all_advanced(done, last);
            &&& delivering.phase == Phase::Delivering && delivering.point == Point::Write
            &&& engine_needs(delivering, date) == engine_needs(all_advanced(resumed, last), date)
            &&& engine_needs(delivering, date) == ActionView::Write(
                files_of(state.job, delivering.work, Phase::Delivering, date),
            )
            &&& delivering.work.final_md == report::final_part(reply, state.work.cited)
        }),
{
    resumed_runs_write_the_same(state, session, reply, date);
    let done = all_advanced(
        state,
        phase_events(state.phase, EventView::Said(reply), Seq::empty()),
    );
    let kept = db::merged(session, piece(state.phase, reply));
    let resumed = advanced(at(state, state.phase, Point::Load), EventView::Session(kept));
    let last = seq![EventView::Done, EventView::Begun(true)];
    runs_that_are_alike_deliver_the_same(done, resumed, true, last, date);
    assert(last.drop_last() =~= seq![EventView::Done]);
    assert(last.drop_last().drop_last() =~= Seq::<EventView>::empty());
    let events = phase_events(state.phase, EventView::Said(reply), Seq::empty());
    assert(events.drop_last() =~= seq![EventView::Said(reply)]);
    assert(events.drop_last().drop_last() =~= Seq::<EventView>::empty());
    reveal_with_fuel(all_advanced, 3);
}

// ── what a phase produces reaches the next ──────────────────────────

/// The run in the given phase at the point where its work is done, once the phase before it
/// ended and its session held nothing of the new one.
pub open spec fn moved_on(
    state: ExecutionView,
    event: EventView,
    json: Seq<char>,
    session: SessionState,
) -> ExecutionView {
    let done = all_advanced(state, phase_events(state.phase, event, json));
    let next = match state.phase {
        Phase::Searching | Phase::Debating => done,
        _ => advanced(done, EventView::Done),
    };
    let loaded = if next.point == Point::Load {
        advanced(next, EventView::Session(session))
    } else {
        next
    };
    advanced(loaded, EventView::Begun(true))
}

proof fn steps_of_a_saying(state: ExecutionView, event: EventView)
    ensures
        all_advanced(state, seq![event, EventView::Done]) == advanced(
            advanced(state, event),
            EventView::Done,
        ),
{
    let events = seq![event, EventView::Done];
    assert(events.drop_last() =~= seq![event]);
    assert(events.drop_last().drop_last() =~= Seq::<EventView>::empty());
    reveal_with_fuel(all_advanced, 3);
}

/// Planning asks the planner about the run's topic.
pub proof fn planning_asks_about_the_topic(state: ExecutionView, date: Seq<char>)
    requires
        state.phase == Phase::Planning,
        state.point == Point::Run,
    ensures
        engine_needs(state, date) matches ActionView::MakePlan(prompt) && text::contains(
            prompt.user,
            "Research topic: "@ + state.job.topic + "\n"@,
        ),
{
    plan::planners_hear_the_topic(state.job.topic);
}

/// The plan's queries are what is searched for: each goes to the web, the first ones to the
/// libraries of papers, and to Scopus where the run has access.
pub proof fn plans_reach_the_search(
    state: ExecutionView,
    plan: PlanView,
    json: Seq<char>,
    session: SessionState,
    date: Seq<char>,
    i: int,
)
    requires
        state.phase == Phase::Planning,
        state.point == Point::Run,
        session.sources_json is None,
        0 <= i < plan.queries.len(),
    ensures
        ({
            let next = moved_on(state, EventView::Planned(plan), json, session);
            &&& next.phase == Phase::Searching && next.point == Point::Run
            &&& next.work.plan == Some(plan)
            &&& engine_needs(next, date) matches ActionView::Search(tasks) && tasks.contains(
                TaskView::Web {
                    query: plan.queries[i],
                    max: if plan.web_per_query > 0 {
                        plan.web_per_query
                    } else {
                        6
                    },
                },
            ) && (i < 2
                ==> tasks.contains(TaskView::ArxivSearch { query: plan.queries[i], max: 4 })
                && tasks.contains(TaskView::PubmedSearch { query: plan.queries[i], max: 4 }) && (
            state.job.with_scopus ==> tasks.contains(
                TaskView::ScopusSearch { query: plan.queries[i], max: 4 },
            )))
        }),
{
    steps_of_a_result(state, EventView::Planned(plan), json);
    let arxiv_ids = gather::ids_in(gather::ARXIV_ID@, state.job.topic);
    let pubmed_ids = gather::ids_in(gather::PUBMED_ID@, state.job.topic);
    gather::every_query_is_asked(
        arxiv_ids,
        pubmed_ids,
        plan,
        state.job.topic,
        state.job.with_scopus,
        plan.queries,
    );
    let tasks = gather::tasks_for(
        arxiv_ids,
        pubmed_ids,
        plan,
        state.job.topic,
        state.job.with_scopus,
    );
    let query = plan.queries[i];
    let next = moved_on(state, EventView::Planned(plan), json, session);
    assert(engine_needs(next, date) == ActionView::Search(tasks));
}

/// What was found is what is fetched, within the limit of the run and of its plan.
pub proof fn finds_reach_the_fetching(
    state: ExecutionView,
    plan: PlanView,
    found: GatheredView,
    json: Seq<char>,
    session: SessionState,
    date: Seq<char>,
)
    requires
        state.phase == Phase::Searching,
        state.point == Point::Run,
        state.work.plan == Some(plan),
    ensures
        ({
            let next = moved_on(state, EventView::Found(found), json, session);
            &&& next.phase == Phase::Fetching && next.point == Point::Run
            &&& next.work.gathered == found
            &&& engine_needs(next, date) matches ActionView::Fetch { max_sources } && max_sources
                <= state.job.max_sources && (plan.download_budget > 0 ==> max_sources
                <= plan.download_budget) && (max_sources == state.job.max_sources || max_sources
                == plan.download_budget) && (plan.download_budget == 0 ==> max_sources
                == state.job.max_sources)
        }),
{
    steps_of_a_result(state, EventView::Found(found), json);
    plan::downloads_are_capped_twice(state.job.max_sources, plan.download_budget);
}

/// The sources that were fetched are what the draft is written from, under the run's topic.
pub proof fn sources_reach_the_draft(
    state: ExecutionView,
    evidence: Seq<EvidenceView>,
    rejected: Seq<Seq<char>>,
    json: Seq<char>,
    session: SessionState,
    date: Seq<char>,
    i: int,
)
    requires
        state.phase == Phase::Fetching,
        state.point == Point::Run,
        session.draft_text is None,
        0 <= i < evidence.len(),
    ensures
        ({
            let next = moved_on(state, EventView::Fetched { evidence, rejected }, json, session);
            let item = evidence[i];
            &&& next.phase == Phase::Drafting && next.point == Point::Run
            &&& next.work.evidence == evidence && next.work.rejected == rejected
            &&& engine_needs(next, date) matches ActionView::Ask(prompt) && text::contains(
                prompt.user,
                "Topic: "@ + state.job.topic + "\n\nEvidence:\n\n"@,
            ) && text::contains(
                prompt.user,
                "["@ + item.id + "] "@ + item.title + "\n"@ + "    URL: "@ + item.url + "\n"@
                    + "    CONTENT: "@ + evidence::excerpt(item.text) + "\n\n"@,
            )
        }),
{
    steps_of_a_result(state, EventView::Fetched { evidence, rejected }, json);
    report::writers_are_given_the_evidence(state.job.topic, evidence, i);
}

/// The draft that was written is what is cited, with a line for every source.
pub proof fn drafts_reach_the_citing(
    state: ExecutionView,
    text: Seq<char>,
    session: SessionState,
    date: Seq<char>,
)
    requires
        state.phase == Phase::Drafting,
        state.point == Point::Run,
        session.cited_text is None,
    ensures
        ({
            let next = moved_on(state, EventView::Said(text), Seq::empty(), session);
            &&& next.phase == Phase::Citing && next.point == Point::Run
            &&& next.work.draft == text
            &&& engine_needs(next, date) matches ActionView::Ask(prompt) && text::contains(
                prompt.user,
                "\n\nDraft to cite:\n\n"@ + text + "\n\nOutput the fully cited markdown."@,
            ) && forall|i: int|
                0 <= i < state.work.evidence.len() ==> text::contains(
                    prompt.user,
                    "["@ + (#[trigger] state.work.evidence[i]).id + "] "@
                        + state.work.evidence[i].title + " — "@ + state.work.evidence[i].url,
                )
        }),
{
    steps_of_a_saying(state, EventView::Said(text));
    report::citers_are_given_the_draft(text, state.work.evidence);
}

/// The cited draft is what is debated.
pub proof fn cited_drafts_reach_the_debate(
    state: ExecutionView,
    text: Seq<char>,
    session: SessionState,
    date: Seq<char>,
)
    requires
        state.phase == Phase::Citing,
        state.point == Point::Run,
        session.debate_text is None,
    ensures
        ({
            let next = moved_on(state, EventView::Said(text), Seq::empty(), session);
            &&& next.phase == Phase::Debating && next.point == Point::Run
            &&& next.work.cited == text
            &&& next.work.evidence == state.work.evidence
            &&& engine_needs(next, date) == ActionView::Debate
        }),
{
    steps_of_a_saying(state, EventView::Said(text));
}

/// The review is of the cited draft, and hears what came of the debate.
pub proof fn debates_reach_the_review(
    state: ExecutionView,
    debate: DebateView,
    json: Seq<char>,
    session: SessionState,
    date: Seq<char>,
)
    requires
        state.phase == Phase::Debating,
        state.point == Point::Run,
        session.review_text is None,
    ensures
        ({
            let next = moved_on(state, EventView::Debated(debate), json, session);
            &&& next.phase == Phase::Reviewing && next.point == Point::Run
            &&& next.work.debate == Some(debate)
            &&& engine_needs(next, date) matches ActionView::Ask(prompt) && text::contains(
                prompt.user,
                "\n\nCited draft to review:\n\n"@ + state.work.cited
                    + "\n\nProduce the verification report and final document."@,
            ) && text::contains(prompt.user, debate.consensus.summary) && (forall|i: int|
                0 <= i < debate.consensus.consensus_points.len() ==> text::contains(
                    prompt.user,
                    "- "@ + #[trigger] debate.consensus.consensus_points[i],
                )) && (forall|i: int|
                0 <= i < debate.consensus.dissensus_points.len() ==> text::contains(
                    prompt.user,
                    "- "@ + #[trigger] debate.consensus.dissensus_points[i],
                )) && (forall|i: int|
                0 <= i < state.work.evidence.len() ==> text::contains(
                    prompt.user,
                    "["@ + (#[trigger] state.work.evidence[i]).id + "] "@
                        + state.work.evidence[i].title + " — "@ + state.work.evidence[i].url,
                ))
        }),
{
    steps_of_a_result(state, EventView::Debated(debate), json);
    let consensus = debate.consensus;
    report::reviews_are_given_the_cited_draft(state.work.cited, state.work.evidence, consensus);
    report::debate_outcomes_are_complete(consensus);
    let user = report::review_prompt_for(state.work.cited, state.work.evidence, consensus).user;
    let heard = "\n\nDebate outcome:\n"@ + report::debate_outcome(consensus);
    let outcome = report::debate_outcome(consensus);
    text::holds_its_middle("\n\nDebate outcome:\n"@, outcome, Seq::empty());
    assert("\n\nDebate outcome:\n"@ + outcome + Seq::<char>::empty() =~= heard);
    text::holding_is_transitive(user, heard, outcome);
    text::holding_is_transitive(user, outcome, consensus.summary);
    assert forall|i: int| 0 <= i < consensus.consensus_points.len() implies text::contains(
        user,
        "- "@ + #[trigger] consensus.consensus_points[i],
    ) by {
        text::holding_is_transitive(user, outcome, "- "@ + consensus.consensus_points[i]);
    }
    assert forall|i: int| 0 <= i < consensus.dissensus_points.len() implies text::contains(
        user,
        "- "@ + #[trigger] consensus.dissensus_points[i],
    ) by {
        text::holding_is_transitive(user, outcome, "- "@ + consensus.dissensus_points[i]);
    }
}

/// The report that is delivered begins with the document that the review left, and holds what
/// is told of the debate; with it goes the provenance.
pub proof fn reviews_reach_the_report(
    state: ExecutionView,
    reply: Seq<char>,
    session: SessionState,
    date: Seq<char>,
)
    requires
        state.phase == Phase::Reviewing,
        state.point == Point::Run,
    ensures
        ({
            let next = moved_on(state, EventView::Said(reply), Seq::empty(), session);
            &&& next.phase == Phase::Delivering && next.point == Point::Write
            &&& next.work.final_md == report::final_part(reply, state.work.cited)
            &&& next.work.review_md == report::review_part(reply)
            &&& engine_needs(next, date) matches ActionView::Write(files) && files.len() == 2
                && report::final_part(reply, state.work.cited).is_prefix_of(files[0].text) && (
            state.work.debate is Some ==> text::contains(
                files[0].text,
                report::DEBATE_HEADING@,
            )) && text::contains(files[1].text, "# Provenance: "@ + state.job.topic + "\n\n"@)
                && text::contains(files[1].text, "- **Date:** "@ + date + "\n"@) && text::contains(
                files[1].text,
                "- **Sources accepted:** "@ + number::decimal(state.work.evidence.len()) + "\n"@,
            )
        }),
{
    steps_of_a_saying(state, EventView::Said(reply));
    let document = report::final_part(reply, state.work.cited);
    if let Some(debate) = state.work.debate {
        report::debate_section_is_added_once(document, debate, debate);
    }
    let job = state.job;
    report::provenance_is_complete(
        job.topic,
        date,
        state.work.evidence.len(),
        state.work.rejected,
        artifact(job, "-plan.md"@),
        artifact(job, "-research-direct.md"@),
        artifact(job, "-draft.md"@),
        artifact(job, "-cited.md"@),
        artifact(job, "-verification.md"@),
    );
    assert(document.is_prefix_of(document));
}

/// The file of a run ends with its slug and what the file is, in the directory of reports or
/// in that of intermediate artifacts within it.
pub proof fn files_are_named_by_the_slug(job: JobView, suffix: Seq<char>)
    ensures
        (job.slug + suffix).is_suffix_of(product(job, suffix)),
        (job.slug + suffix).is_suffix_of(artifact(job, suffix)),
        job.out_dir.len() > 0 && !"/"@.is_prefix_of(job.slug + suffix) ==> job.out_dir.is_prefix_of(
            product(job, suffix),
        ),
        product(job, suffix) == report::joined_path(job.out_dir, job.slug + suffix),
        artifact(job, suffix) == report::joined_path(
            report::joined_path(job.out_dir, ".drafts"@),
            job.slug + suffix,
        ),
{
    report::paths_lead_into_their_directory(job.out_dir, job.slug + suffix);
    report::paths_lead_into_their_directory(
        report::joined_path(job.out_dir, ".drafts"@),
        job.slug + suffix,
    );
}

/// Each phase writes what it produced under its own name: the plan, the sources in full, the
/// draft, the cited draft, the findings of the review, and at the end the report, for which
/// the provenance names all of them.
pub proof fn files_hold_what_was_produced(job: JobView, work: WorkView, date: Seq<char>)
    ensures
        work.plan matches Some(plan) ==> ({
            let files = files_of(job, work, Phase::Planning, date);
            &&& files.len() == 1
            &&& files[0].path == artifact(job, "-plan.md"@)
            &&& (job.slug + "-plan.md"@).is_suffix_of(files[0].path)
            &&& text::contains(files[0].text, "# Research Plan: "@ + job.topic + "\n\n"@)
            &&& text::contains(files[0].text, "- **Slug:** "@ + job.slug + "\n"@)
            &&& text::contains(
                files[0].text,
                "\n## Search Queries\n\n"@ + plan::bullets(plan.queries),
            )
        }),
        ({
            let files = files_of(job, work, Phase::Fetching, date);
            &&& files.len() == 1
            &&& (job.slug + "-research-direct.md"@).is_suffix_of(files[0].path)
            &&& forall|i: int|
                0 <= i < work.evidence.len() ==> text::contains(
                    files[0].text,
                    (#[trigger] work.evidence[i]).text + "\n\n"@,
                )
        }),
        ({
            let files = files_of(job, work, Phase::Drafting, date);
            files.len() == 1 && (job.slug + "-draft.md"@).is_suffix_of(files[0].path)
                && files[0].text == work.draft
        }),
        ({
            let files = files_of(job, work, Phase::Citing, date);
            files.len() == 1 && (job.slug + "-cited.md"@).is_suffix_of(files[0].path)
                && files[0].text == work.cited
        }),
        ({
            let files = files_of(job, work, Phase::Reviewing, date);
            files.len() == 1 && (job.slug + "-verification.md"@).is_suffix_of(files[0].path)
                && files[0].text == work.review_md
        }),
        ({
            let files = files_of(job, work, Phase::Delivering, date);
            let record = files[1].text;
            &&& files.len() == 2
            &&& (job.slug + ".md"@).is_suffix_of(files[0].path)
            &&& (job.slug + ".provenance.md"@).is_suffix_of(files[1].path)
            &&& text::contains(
                record,
                "- **Plan:** "@ + artifact(job, "-plan.md"@) + "\n"@,
            )
            &&& text::contains(
                record,
                "- **Research files:** "@ + files_of(job, work, Phase::Fetching, date)[0].path
                    + "\n"@,
            )
            &&& text::contains(
                record,
                "- **Draft:** "@ + files_of(job, work, Phase::Drafting, date)[0].path + "\n"@,
            )
            &&& text::contains(
                record,
                "- **Cited draft:** "@ + files_of(job, work, Phase::Citing, date)[0].path + "\n"@,
            )
            &&& text::contains(
                record,
                "- **Verification notes:** "@ + files_of(job, work, Phase::Reviewing, date)[0].path
                    + "\n"@,
            )
        }),
{
    files_are_named_by_the_slug(job, "-plan.md"@);
    files_are_named_by_the_slug(job, "-research-direct.md"@);
    files_are_named_by_the_slug(job, "-draft.md"@);
    files_are_named_by_the_slug(job, "-cited.md"@);
    files_are_named_by_the_slug(job, "-verification.md"@);
    files_are_named_by_the_slug(job, ".md"@);
    files_are_named_by_the_slug(job, ".provenance.md"@);
    if let Some(plan) = work.plan {
        plan::plan_documents_are_complete(plan, job.topic, job.slug);
    }
    assert forall|i: int| 0 <= i < work.evidence.len() implies text::contains(
        evidence::notes(work.evidence),
        (#[trigger] work.evidence[i]).text + "\n\n"@,
    ) by {
        evidence::notes_hold_every_source(work.evidence, i);
    }
    report::provenance_is_complete(
        job.topic,
        date,
        work.evidence.len(),
        work.rejected,
        artifact(job, "-plan.md"@),
        artifact(job, "-research-direct.md"@),
        artifact(job, "-draft.md"@),
        artifact(job, "-cited.md"@),
        artifact(job, "-verification.md"@),
    );
}

/// What the model said is what is saved, under the field of its phase, with every other field
/// left as it is.
pub proof fn sayings_are_saved_as_said(state: ExecutionView, text: Seq<char>, date: Seq<char>)
    requires
        state.point == Point::Run,
        state.phase == Phase::Drafting || state.phase == Phase::Citing || state.phase
            == Phase::Reviewing,
    ensures
        engine_needs(advanced(state, EventView::Said(text)), date) matches ActionView::Save {
            data,
            phase,
            message,
        } && phase == state.phase && data.draft_text == (if state.phase == Phase::Drafting {
            Some(text)
        } else {
            None
        }) && data.cited_text == (if state.phase == Phase::Citing {
            Some(text)
        } else {
            None
        }) && data.review_text == (if state.phase == Phase::Reviewing {
            Some(text)
        } else {
            None
        }) && data.plan_json is None && data.sources_json is None && data.debate_text is None,
{
}

/// What was encoded is what is saved, under the field of its phase, with every other field
/// left as it is.
pub proof fn encodings_are_saved_as_encoded(
    state: ExecutionView,
    json: Seq<char>,
    date: Seq<char>,
)
    requires
        state.point == Point::Encode,
        state.phase == Phase::Planning || state.phase == Phase::Searching || state.phase
            == Phase::Fetching || state.phase == Phase::Debating,
    ensures
        engine_needs(state, date) == ActionView::Encode(
            match state.phase {
                Phase::Planning => Stored::Plan,
                Phase::Debating => Stored::Debate,
                _ => Stored::Sources,
            },
        ),
        engine_needs(advanced(state, EventView::Encoded(json)), date) matches ActionView::Save {
            data,
            phase,
            message,
        } && phase == state.phase && data.plan_json == (if state.phase == Phase::Planning {
            Some(json)
        } else {
            None
        }) && data.sources_json == (if state.phase == Phase::Searching || state.phase
            == Phase::Fetching {
            Some(json)
        } else {
            None
        }) && data.debate_text == (if state.phase == Phase::Debating {
            Some(json)
        } else {
            None
        }) && data.draft_text is None && data.cited_text is None && data.review_text is None,
{
}

/// What the session holds is what is decoded, as what the phase keeps there.
pub proof fn sessions_are_decoded_as_saved(
    state: ExecutionView,
    session: SessionState,
    json: Seq<char>,
    date: Seq<char>,
)
    requires
        state.point == Point::Load,
    ensures
        state.phase == Phase::Planning && session.plan_json == Some(json) ==> engine_needs(
            advanced(state, EventView::Session(session)),
            date,
        ) == (ActionView::Decode { kind: Stored::Plan, json }),
        state.phase == Phase::Searching && session.sources_json == Some(json) ==> engine_needs(
            advanced(state, EventView::Session(session)),
            date,
        ) == (ActionView::Decode { kind: Stored::Sources, json }),
        state.phase == Phase::Debating && session.debate_text == Some(json) ==> engine_needs(
            advanced(state, EventView::Session(session)),
            date,
        ) == (ActionView::Decode { kind: Stored::Debate, json }),
{
}

/// A run is marked complete with the paths of the two files that it delivered.
pub proof fn completion_names_the_files(state: ExecutionView, date: Seq<char>)
    requires
        state.point == Point::Complete,
    ensures
        ({
            let files = files_of(state.job, state.work, Phase::Delivering, date);
            engine_needs(state, date) matches ActionView::Complete {
                report_path,
                provenance_path,
                message,
            } && report_path == files[0].path && provenance_path == files[1].path
        }),
{
}

/// No event changes what a run is about, and none undoes what an earlier phase produced.
pub proof fn earlier_work_stays(state: ExecutionView, event: EventView)
    ensures
        ({
            let next = advanced(state, event);
            let at = state.phase.index();
            &&& next.job == state.job
            &&& at > Phase::Planning.index() ==> next.work.plan == state.work.plan
            &&& at > Phase::Fetching.index() ==> next.work.evidence == state.work.evidence
                && next.work.rejected == state.work.rejected
            &&& at > Phase::Drafting.index() ==> next.work.draft == state.work.draft
            &&& at > Phase::Citing.index() ==> next.work.cited == state.work.cited
            &&& at > Phase::Debating.index() ==> next.work.debate == state.work.debate
            &&& at > Phase::Reviewing.index() ==> next.work.final_md == state.work.final_md
                && next.work.review_md == state.work.review_md
        }),
{
}

/// What a phase saves is what it finds again, and it touches no other part of the session.
pub proof fn pieces_are_found_again(phase: Phase, text: Seq<char>, other: SessionState)
    requires
        phase != Phase::Delivering,
    ensures
        saved(db::merged(other, piece(phase, text)), phase) == Some(text),
        phase != Phase::Planning ==> piece(phase, text).plan_json is None,
        phase != Phase::Searching && phase != Phase::Fetching ==> piece(
            phase,
            text,
        ).sources_json is None,
        phase != Phase::Drafting ==> piece(phase, text).draft_text is None,
        phase != Phase::Citing ==> piece(phase, text).cited_text is None,
        phase != Phase::Debating ==> piece(phase, text).debate_text is None,
        phase != Phase::Reviewing ==> piece(phase, text).review_text is None,
{
}

/// The log says how many sources were accepted.
pub proof fn accepted_sources_are_counted(accepted: nat)
    ensures
        log_message(Phase::Fetching, accepted) == number::decimal(accepted) + " sources accepted"@,
        log_message(Phase::Planning, accepted) == "plan produced"@,
        log_message(Phase::Delivering, accepted) == "delivered"@,
{
}

} // verus!
