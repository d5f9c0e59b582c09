//! The engine, the worker, the tools, the configuration.

use research_mcp::config::{Config, Overrides, NO_KEY};
use research_mcp::db::{Db, DbError, SessionData};
use research_mcp::debate::{ConsensusSummary, DebateResult, Measure};
use research_mcp::log::{info_stream, is_mcp, set_mcp_mode, warn_stream, LogMode, Stream};
use research_mcp::mcp::{
    output_run, research_batch_submit, research_batch_submit_at, research_cancel_at, research_list, research_output, research_rerun,
    research_resume_at, research_status, research_submit, research_submit_at, resolve_target, BatchSubmitParams,
    CancelParams, Draw, ListParams, McpError, RunIdParams, RunView, SubmitParams,
};
use research_mcp::worker::{
    after_attempt, give_up_at, is_auth_error, pick_run, retry_run_at, start_run_at, AfterAttempt,
};
use research_mcp::workflow::engine::{
    begin_phase, begin_phase_at, Action, Decoded, Event, Execution, Job, Phase, Point, Stored,
};
use research_mcp::workflow::evidence::EvidenceItem;
use research_mcp::workflow::gather::Gathered;
use research_mcp::workflow::plan::Plan;

fn queue(ids: &[&str]) -> Db {
    let mut db = Db::new();
    for (i, id) in ids.iter().enumerate() {
        db.create_run_at(&format!("topic {}", id), id, None, 0, id, &format!("2026-{}", i)).unwrap();
    }
    db
}

fn job() -> Job {
    Job { topic: "T".into(), slug: "t".into(), out_dir: "/out".into(), max_sources: 8, with_scopus: false }
}

fn plan() -> Plan {
    Plan {
        key_questions: vec![],
        evidence_needed: vec![],
        scale: "direct".into(),
        queries: vec!["q".into()],
        web_per_query: 6,
        download_budget: 5,
    }
}

fn source() -> EvidenceItem {
    EvidenceItem { id: "S1".into(), title: "One".into(), url: "u".into(), snippet: "".into(), text: "text".into() }
}

fn debate() -> DebateResult {
    let zero = || Measure { bits: 0, text: "0.00".into() };
    DebateResult {
        agents: vec![],
        rounds: vec![],
        consensus: ConsensusSummary {
            final_positions: vec![],
            mean_position: zero(),
            spread: zero(),
            convergence: zero(),
            consensus_points: vec![],
            dissensus_points: vec![],
            summary: "sum".into(),
        },
        interviews: vec![],
    }
}

/// Drive a run over a session, as if every request succeeded; report what was done.
fn drive(mut session: SessionData, run: &mut Execution) -> (SessionData, Vec<String>) {
    let mut done: Vec<String> = Vec::new();
    loop {
        let event = match run.needs_on("2026-01-02") {
            Action::ReadSession => Event::Session(session.clone()),
            Action::Decode { kind: Stored::Plan, json } => {
                assert_eq!(json, "PLAN");
                Event::Decoded(Decoded::Plan(plan()))
            }
            Action::Decode { kind: Stored::Sources, json } => Event::Decoded(if json == "EVIDENCE" {
                Decoded::Evidence(vec![source()])
            } else {
                Decoded::Gathered(Gathered::empty())
            }),
            Action::Decode { kind: Stored::Debate, .. } => Event::Decoded(Decoded::Debate(debate())),
            Action::Begin(phase) => {
                done.push(format!("begin {} {}", phase.name(), phase.progress()));
                Event::Begun(true)
            }
            Action::MakePlan(_) => Event::Planned(plan()),
            Action::Search(tasks) => {
                assert_eq!(tasks.len(), 3);
                Event::Found(Gathered::empty())
            }
            Action::Fetch { max_sources } => {
                assert_eq!(max_sources, 5);
                Event::Fetched { evidence: vec![source()], rejected: vec!["bad".into()] }
            }
            Action::Ask(_) => Event::Said(match run.phase {
                Phase::Drafting => "DRAFT".into(),
                Phase::Citing => "CITED".into(),
                _ => "REVIEW # Final Document FINAL".into(),
            }),
            Action::Debate => Event::Debated(debate()),
            Action::Encode(kind) => Event::Encoded(match (kind, run.phase) {
                (Stored::Plan, _) => "PLAN".into(),
                (Stored::Debate, _) => "DEBATE".into(),
                (Stored::Sources, Phase::Fetching) => "EVIDENCE".into(),
                (Stored::Sources, _) => "GATHERED".into(),
            }),
            Action::Save { data, phase, message } => {
                session = session.merge(&data);
                done.push(format!("save {}: {}", phase.name(), message));
                Event::Done
            }
            Action::Write(files) => {
                for f in files {
                    done.push(format!("write {}", f.path));
                    if f.path == "/out/t.md" {
                        done.push(f.text.split('\n').next().unwrap().to_string());
                    }
                }
                Event::Done
            }
            Action::Complete { report_path, provenance_path, message } => {
                assert_eq!((report_path.as_str(), provenance_path.as_str()), ("/out/t.md", "/out/t.provenance.md"));
                done.push(message);
                Event::Done
            }
            Action::Stop(complete) => {
                done.push(format!("stop {}", complete));
                return (session, done);
            }
            Action::Fail(error) => {
                done.push(format!("fail {}", error));
                return (session, done);
            }
        };
        run.advance(event);
    }
}

#[test]
fn a_run_goes_through_all_phases() {
    let mut run = Execution::start(job());
    let (session, done) = drive(SessionData::default(), &mut run);
    assert_eq!(
        done,
        vec![
            "begin planning 10", "save planning: plan produced", "write /out/.drafts/t-plan.md",
            "begin searching 30", "save searching: search complete",
            "begin fetching 50", "save fetching: 1 sources accepted", "write /out/.drafts/t-research-direct.md",
            "begin drafting 70", "save drafting: draft written", "write /out/.drafts/t-draft.md",
            "begin citing 80", "save citing: citations verified", "write /out/.drafts/t-cited.md",
            "begin debating 88", "save debating: debate complete",
            "begin reviewing 95", "save reviewing: review complete", "write /out/.drafts/t-verification.md",
            "begin delivering 100", "write /out/t.md", "FINAL", "write /out/t.provenance.md", "delivered", "stop true",
        ]
    );
    assert_eq!(session.sources_json.as_deref(), Some("EVIDENCE"));
    assert_eq!(session.review_text.as_deref(), Some("REVIEW # Final Document FINAL"));
    let report = run.report();
    assert_eq!((report.slug.as_str(), report.sources_accepted), ("t", 1));
    assert_eq!(report.report_path, "/out/t.md");
}

#[test]
fn a_resumed_run_reuses_its_session() {
    let (session, _) = drive(SessionData::default(), &mut Execution::start(job()));
    let (_, done) = drive(session, &mut Execution::start(job()));
    assert_eq!(
        done,
        vec![
            "write /out/.drafts/t-plan.md", "write /out/.drafts/t-research-direct.md", "write /out/.drafts/t-draft.md",
            "write /out/.drafts/t-cited.md", "write /out/.drafts/t-verification.md", "begin delivering 100",
            "write /out/t.md", "FINAL", "write /out/t.provenance.md", "delivered", "stop true",
        ]
    );
}

#[test]
fn a_review_without_a_document_keeps_the_cited_draft() {
    let (session, _) = drive(SessionData::default(), &mut Execution::start(job()));
    let session = SessionData { review_text: Some("REVIEW".into()), ..session };
    let mut run = Execution::start(job());
    let (_, done) = drive(session, &mut run);
    assert!(done.contains(&"CITED".to_string()));
    assert_eq!((run.work.final_md.as_str(), run.work.review_md.as_str()), ("CITED", "REVIEW"));
}

#[test]
fn a_run_delivers_the_same_wherever_it_was_interrupted() {
    let mut whole = Execution::start(job());
    let (session, _) = drive(SessionData::default(), &mut whole);
    let parts: [fn(&mut SessionData); 6] = [
        |s| s.review_text = None,
        |s| s.debate_text = None,
        |s| s.cited_text = None,
        |s| s.draft_text = None,
        |s| s.sources_json = None,
        |s| s.plan_json = None,
    ];
    let mut left = session.clone();
    for part in parts {
        part(&mut left);
        let mut run = Execution::start(job());
        let (saved, done) = drive(left.clone(), &mut run);
        assert_eq!(done.last().unwrap(), "stop true");
        assert_eq!(saved.review_text, session.review_text);
        assert_eq!(run.work.final_md, whole.work.final_md);
        assert_eq!(run.work.review_md, whole.work.review_md);
    }
}

#[test]
fn a_search_that_was_saved_is_not_repeated() {
    let session = SessionData { plan_json: Some("PLAN".into()), sources_json: Some("GATHERED".into()), ..Default::default() };
    let (_, done) = drive(session, &mut Execution::start(job()));
    assert_eq!(done[0], "write /out/.drafts/t-plan.md");
    assert_eq!(done[1], "begin fetching 50");
}

fn at(phase: Phase, point: Point) -> Execution {
    let mut run = Execution::start(job());
    run.phase = phase;
    run.point = point;
    run
}

fn failure(mut run: Execution, event: Event) -> String {
    run.advance(event);
    assert_eq!(run.point, Point::Failed);
    match run.needs() {
        Action::Fail(error) => error,
        other => panic!("{:?}", other),
    }
}

#[test]
fn runs_fail_with_a_reason() {
    assert_eq!(failure(at(Phase::Planning, Point::Decode), Event::Decoded(Decoded::Nothing)), "parse saved plan");
    assert_eq!(failure(at(Phase::Searching, Point::Decode), Event::Decoded(Decoded::Nothing)), "parse saved sources");
    assert_eq!(failure(at(Phase::Debating, Point::Decode), Event::Decoded(Decoded::Nothing)), "parse saved debate");
    assert_eq!(
        failure(at(Phase::Searching, Point::Decode), Event::Decoded(Decoded::Evidence(vec![]))),
        "sources_json holds empty evidence"
    );
    assert_eq!(failure(at(Phase::Fetching, Point::Save), Event::Done), "No usable sources gathered — cannot draft.");
    assert_eq!(failure(at(Phase::Citing, Point::Run), Event::Failed("LLM request failed".into())), "LLM request failed");
}

#[test]
fn cancelled_runs_stop_before_the_next_phase() {
    let mut run = at(Phase::Citing, Point::Begin);
    run.advance(Event::Begun(false));
    assert!(matches!(run.needs(), Action::Stop(false)));
    run.advance(Event::Failed("late".into()));
    assert!(matches!(run.needs(), Action::Stop(false)));

    let mut db = queue(&["r1"]);
    assert!(begin_phase(&mut db, "r1", Phase::Drafting));
    let r = db.get_run("r1").unwrap();
    assert_eq!((r.status.as_str(), r.phase.as_str(), r.progress), ("running", "drafting", 70));
    let one = CancelParams { run_id: Some("r1".into()), batch_id: None };
    research_cancel_at(&mut db, &one, "9").unwrap();
    assert!(!begin_phase_at(&mut db, "r1", Phase::Citing, "10"));
    assert!(!retry_run_at(&mut db, "r1", "10"));
    assert_eq!(db.get_run("r1").unwrap().phase, "drafting");
}

#[test]
fn unfitting_events_change_nothing() {
    let mut run = at(Phase::Planning, Point::Load);
    run.advance(Event::Done);
    run.advance(Event::Said("x".into()));
    assert_eq!((run.phase, run.point), (Phase::Planning, Point::Load));
}

// ── worker ──────────────────────────────────────────────────────────

#[test]
fn auth_errors_are_recognised() {
    assert!(is_auth_error("LLM API error 401 Unauthorized: x"));
    assert!(is_auth_error("error 403"));
    assert!(is_auth_error("Invalid API key"));
    assert!(!is_auth_error("LLM API error 500: x"));
}

#[test]
fn failures_back_off() {
    let failed: Result<bool, String> = Err("timeout".into());
    let mut backoff = 1;
    let mut delays = Vec::new();
    for _ in 0..70 {
        match after_attempt(&failed, backoff) {
            AfterAttempt::Retry { delay_secs, next_backoff } => {
                delays.push(delay_secs);
                backoff = next_backoff;
            }
            other => panic!("{:?}", other),
        }
    }
    assert_eq!(delays[..8], [1, 2, 4, 8, 16, 32, 60, 60]);
    assert!(delays[8..].iter().all(|d| *d == 60));
    assert_eq!(after_attempt(&Err("401".into()), 1), AfterAttempt::GiveUp);
    assert_eq!(after_attempt(&Ok(true), 1), AfterAttempt::Over(true));
    assert_eq!(after_attempt(&Ok(false), 1), AfterAttempt::Over(false));
}

#[test]
fn batches_are_served_together() {
    let mut db = Db::new();
    for (id, batch, priority, at) in [("r1", None, 5, "1"), ("r2", Some("b"), 0, "2"), ("r3", Some("b"), 1, "3")] {
        db.create_run_at(id, id, batch, priority, id, at).unwrap();
    }
    assert_eq!(pick_run(&db, None).unwrap().id, "r1");
    assert_eq!(pick_run(&db, Some("b")).unwrap().id, "r3");
    assert_eq!(pick_run(&db, Some("other")).unwrap().id, "r1");
    assert!(pick_run(&Db::new(), Some("b")).is_none());
}

#[test]
fn the_worker_keeps_the_books() {
    let mut db = queue(&["r1"]);
    start_run_at(&mut db, "r1", "planning", "5").unwrap();
    assert_eq!(db.get_run("r1").unwrap().status, "running");
    assert_eq!(db.phase_log("r1")[0].message, "run picked up by worker");
    assert!(retry_run_at(&mut db, "r1", "6"));
    give_up_at(&mut db, "r1", "401", "7").unwrap();
    let r = db.get_run("r1").unwrap();
    assert_eq!((r.status.as_str(), r.error.as_deref()), ("failed", Some("401")));
    assert_eq!(db.phase_log("r1")[1].message, "auth error: 401");
    assert_eq!(start_run_at(&mut db, "none", "planning", "8").unwrap_err(), DbError::UnknownRun);
}

#[test]
fn one_run_is_under_way_at_a_time() {
    let mut db = queue(&["r1", "r2", "r3"]);
    for at in ["5", "6", "7"] {
        assert!(db.list_runs(Some("running"), 10, 0).is_empty());
        let run = pick_run(&db, None).unwrap();
        start_run_at(&mut db, &run.id, "planning", at).unwrap();
        let running = db.list_runs(Some("running"), 10, 0);
        assert_eq!((running.len(), running[0].id.as_str()), (1, run.id.as_str()));
        db.set_complete(&run.id, "r.md", "p.md");
    }
    assert!(pick_run(&db, None).is_none());
}

// ── tools ───────────────────────────────────────────────────────────

fn invalid<T: std::fmt::Debug>(r: Result<T, McpError>) -> String {
    match r.unwrap_err() {
        McpError::Invalid(message) => message,
        other => panic!("{:?}", other),
    }
}

#[test]
fn topics_are_submitted() {
    let mut db = Db::new();
    let params = SubmitParams { topic: "What is the history of the Roman Empire".into(), priority: Some(4) };
    let r = research_submit(&mut db, &params).unwrap();
    assert_eq!((r.status.as_str(), r.slug.as_str()), ("queued", "history-roman-empire"));
    let run = db.get_run(&r.run_id).unwrap();
    assert_eq!((run.topic, run.priority, run.batch_id), (params.topic.clone(), 4, None));
    let taken = research_submit_at(&mut db, &params, &r.run_id, "1");
    assert!(matches!(taken, Err(McpError::Internal(DbError::DuplicateRun))));
    let again = research_submit_at(&mut db, &SubmitParams { topic: params.topic, priority: None }, "x", "1").unwrap();
    assert_eq!(again.slug, "history-roman-empire-2");
    assert_eq!(db.get_run("x").unwrap().priority, 0);
}

#[test]
fn runs_are_submitted_again() {
    let mut db = queue(&["r1"]);
    db.save_session("r1", &SessionData { draft_text: Some("d".into()), ..Default::default() }).unwrap();
    let r = research_rerun(&mut db, &RunIdParams { run_id: "r1".into() }).unwrap();
    assert_eq!(db.get_run(&r.run_id).unwrap().topic, "topic r1");
    assert!(db.get_session(&r.run_id).is_none());
    assert_eq!(invalid(research_rerun(&mut db, &RunIdParams { run_id: "zz".into() })), "run zz not found");
}

#[test]
fn batches_are_submitted() {
    let mut db = Db::new();
    let topics = vec!["Roman roads".to_string(), "Roman roads".to_string()];
    let r = research_batch_submit(&mut db, &BatchSubmitParams { topics, priority: Some(2) }).unwrap();
    assert_eq!(r.run_ids.len(), 2);
    let runs = db.list_by_batch(&r.batch_id);
    assert_eq!(runs.len(), 2);
    assert!(runs.iter().all(|run| run.priority == 2 && r.run_ids.contains(&run.id)));
    assert_eq!(db.get_run(&r.run_ids[1]).unwrap().slug, "roman-roads-2");
    let none = BatchSubmitParams { topics: vec![], priority: None };
    assert_eq!(invalid(research_batch_submit(&mut db, &none)), "topics must not be empty");
}

fn draws(ids: &[&str]) -> Vec<Draw> {
    ids.iter().map(|id| Draw { id: id.to_string(), now: format!("t {}", id) }).collect()
}

#[test]
fn batches_end_as_drawn() {
    let topics = vec!["Roman roads".to_string(), "Roman law".to_string(), "Roman glass".to_string()];
    let params = BatchSubmitParams { topics, priority: None };
    let mut db = queue(&["r1"]);
    let r = research_batch_submit_at(&mut db, &params, "b", &draws(&["x", "y", "z"])).unwrap();
    assert_eq!((r.batch_id.as_str(), r.run_ids), ("b", vec!["x".to_string(), "y".into(), "z".into()]));
    let run = db.get_run("y").unwrap();
    assert_eq!((run.topic.as_str(), run.slug.as_str(), run.created_at.as_str()), ("Roman law", "roman-law", "t y"));
    for ids in [["x", "r1", "z"], ["x", "x", "z"]] {
        let mut db = queue(&["r1"]);
        let r = research_batch_submit_at(&mut db, &params, "b", &draws(&ids));
        assert!(matches!(r, Err(McpError::Internal(DbError::DuplicateRun))));
        assert_eq!(db.list_by_batch("b").len(), 1);
        assert!(db.get_run("z").is_none());
    }
    let none = BatchSubmitParams { topics: vec![], priority: None };
    assert_eq!(invalid(research_batch_submit_at(&mut db, &none, "b", &vec![])), "topics must not be empty");
}

#[test]
fn runs_are_listed() {
    let mut db = queue(&["r1", "r2", "r3"]);
    db.set_complete_at("r1", "p", "q", "9");
    let list = |status: Option<&str>, limit, offset| {
        let params = ListParams { status: status.map(|s| s.to_string()), limit, offset };
        let r = research_list(&db, &params);
        assert_eq!(r.total, r.runs.len());
        r.runs.into_iter().map(|v| v.id).collect::<Vec<_>>()
    };
    assert_eq!(list(None, None, None), vec!["r3", "r2", "r1"]);
    assert_eq!(list(Some("complete"), None, None), vec!["r1"]);
    assert_eq!(list(None, Some(0), Some(-5)), vec!["r3"]);
    assert_eq!(list(None, Some(999), Some(1)), vec!["r2", "r1"]);
}

#[test]
fn status_shows_the_log() {
    let mut db = queue(&["r1"]);
    db.log_phase_at("r1", "planning", "ok", "plan produced", "5").unwrap();
    let s = research_status(&db, &RunIdParams { run_id: "r1".into() }).unwrap();
    assert_eq!(s.run.topic, "topic r1");
    assert_eq!(s.phase_log[0].message, "plan produced");
    assert_eq!(s.phase_log[0].created_at, "5");
    assert_eq!(invalid(research_status(&db, &RunIdParams { run_id: "x".into() })), "run x not found");
    let view = RunView::from(db.get_run("r1").unwrap());
    assert_eq!((view.id.as_str(), view.attempt, view.created_at.as_str()), ("r1", 1, "2026-0"));
}

#[test]
fn outputs_are_shown() {
    let mut db = queue(&["r1"]);
    db.set_complete_at("r1", "p", "q", "9");
    let run = output_run(&db, &RunIdParams { run_id: "r1".into() }).unwrap();
    let out = research_output(run, Some("report".into()), None);
    assert_eq!((out.run_id.as_str(), out.report_path.as_deref(), out.provenance_path.as_deref()), ("r1", Some("p"), Some("q")));
    assert_eq!((out.report.as_deref(), out.provenance), (Some("report"), None));
    assert_eq!(invalid(output_run(&db, &RunIdParams { run_id: "x".into() })), "run x not found");
}

#[test]
fn runs_are_cancelled_and_resumed() {
    let mut db = queue(&["r1"]);
    db.update_status_at("r1", "running", "citing", 80, None, "5");
    db.increment_attempt_at("r1", "5").unwrap();
    let one = CancelParams { run_id: Some("r1".into()), batch_id: Some("ignored".into()) };
    let r = research_cancel_at(&mut db, &one, "6").unwrap();
    assert_eq!(r.total, 1);
    assert_eq!((r.runs[0].status.as_str(), r.runs[0].phase.as_str(), r.runs[0].progress), ("cancelled", "citing", 80));
    assert_eq!(r.runs[0].error.as_deref(), Some("cancelled by user"));
    let again = research_cancel_at(&mut db, &one, "7").unwrap();
    assert_eq!(again.runs[0].updated_at, "6");
    let r = research_resume_at(&mut db, &one, "8").unwrap();
    assert_eq!((r.runs[0].status.as_str(), r.runs[0].phase.as_str(), r.runs[0].attempt), ("queued", "planning", 1));
    assert_eq!(research_resume_at(&mut db, &one, "9").unwrap().runs[0].updated_at, "8");
    let log: Vec<String> = db.phase_log("r1").into_iter().map(|e| e.message).collect();
    assert_eq!(log, vec!["cancelled by user", "re-queued by user"]);
}

#[test]
fn batches_are_cancelled_as_a_unit() {
    let mut db = Db::new();
    for id in ["r1", "r2", "r3"] {
        db.create_run_at(id, id, Some("b"), 0, id, id).unwrap();
    }
    db.set_complete_at("r2", "p", "q", "5");
    let batch = CancelParams { run_id: None, batch_id: Some("b".into()) };
    let r = research_cancel_at(&mut db, &batch, "6").unwrap();
    let states: Vec<(String, String)> = r.runs.into_iter().map(|v| (v.id, v.status)).collect();
    let expect = [("r3", "cancelled"), ("r2", "complete"), ("r1", "cancelled")];
    assert_eq!(states, expect.map(|(a, b)| (a.to_string(), b.to_string())).to_vec());
    let none = CancelParams { run_id: None, batch_id: None };
    assert_eq!(invalid(research_cancel_at(&mut db, &none, "7")), "provide either run_id or batch_id");
    assert_eq!(invalid(resolve_target(&db, &None, &None)), "provide either run_id or batch_id");
    assert!(resolve_target(&db, &Some("x".into()), &None).unwrap().is_empty());
}

#[test]
fn a_full_log_refuses_changes() {
    let mut db = queue(&["r1"]);
    let run = db.get_run("r1").unwrap();
    db = Db::from_rows(vec![run], vec![], vec![], i64::MAX);
    let one = CancelParams { run_id: Some("r1".into()), batch_id: None };
    assert!(matches!(research_cancel_at(&mut db, &one, "6"), Err(McpError::Internal(DbError::CounterFull))));
    assert_eq!(db.get_run("r1").unwrap().status, "queued");
}

// ── configuration ───────────────────────────────────────────────────

#[test]
fn built_in_configuration() {
    let c = Config::load(None, None, None);
    assert_eq!(c.model, "deepseek-v4-flash");
    assert_eq!(c.llm_base_url, "https://opencode.ai/zen/go/v1");
    assert_eq!(c.max_sources, 8);
    assert_eq!(c.out_dir, "/home/user/AIDocumentStore/raw/research");
    assert_eq!(c.db_path, "./research.db");
    assert_eq!(f32::from_bits(c.temperature_bits), 0.3);
    assert_eq!(c.llm_timeout_secs, 300);
    assert_eq!(c.require_api_key().unwrap_err(), NO_KEY);
    assert!(c.workflow_settings().is_err());
}

#[test]
fn configuration_has_precedence() {
    let file = || Config { api_key: Some("file".into()), model: "m".into(), temperature_bits: 0f32.to_bits(), max_sources: 0, ..Config::default() };
    let mut c = Config::load(Some(file()), Some("env".into()), Some("els".into()));
    assert_eq!(c.require_api_key().unwrap(), "file");
    assert_eq!(c.elsevier_api_key.as_deref(), Some("els"));
    assert_eq!((c.model.as_str(), c.max_sources), ("m", 8));
    assert_eq!(f32::from_bits(c.temperature_bits), 0.3);
    c.override_with(Overrides { model: None, max_sources: Some(20), out_dir: Some("/o".into()), api_key: Some("cli".into()) });
    assert_eq!(c.require_api_key().unwrap(), "cli");
    assert_eq!((c.max_sources, c.out_dir.as_str(), c.model.as_str()), (20, "/o", "m"));
    let settings = c.workflow_settings().unwrap();
    assert_eq!((settings.api_key.as_str(), settings.max_sources), ("cli", 20));
    let job = settings.job("T", "t");
    assert!(job.with_scopus);
    assert_eq!(job.out_dir, "/o");
    let c = Config::load(None, Some("env".into()), Some("".into()));
    assert_eq!(c.require_api_key().unwrap(), "env");
    assert_eq!(c.elsevier_api_key, None);
    let c = Config::load(None, Some("".into()), None);
    assert_eq!(c.require_api_key().unwrap_err(), NO_KEY);
    let empty = Config { api_key: Some("".into()), ..Config::default() };
    assert_eq!(empty.require_api_key().unwrap_err(), NO_KEY);
}

#[test]
fn negative_zero_is_no_temperature() {
    let file = Config { temperature_bits: (-0f32).to_bits(), ..Config::default() };
    assert_eq!(f32::from_bits(Config::load(Some(file), None, None).temperature_bits), 0.3);
    let file = Config { temperature_bits: 0.9f32.to_bits(), ..Config::default() };
    assert_eq!(f32::from_bits(Config::load(Some(file), None, None).temperature_bits), 0.9);
}

#[test]
fn configuration_files_are_looked_for() {
    assert_eq!(
        Config::candidate_paths(Some("/home/u"), Some("/opt/bin")),
        vec!["config.toml", "/opt/bin/config.toml", "/home/u/.config/research_mcp/config.toml"]
    );
    assert_eq!(Config::candidate_paths(None, None), vec!["config.toml"]);
}

#[test]
fn messages_keep_off_the_protocol() {
    let mut mode = LogMode { mcp: false };
    assert_eq!(info_stream(&mode), Stream::Output);
    set_mcp_mode(&mut mode, true);
    assert!(is_mcp(&mode));
    assert_eq!(info_stream(&mode), Stream::Errors);
    assert_eq!(warn_stream(), Stream::Errors);
}
