//! The queue: runs, sessions, the phase log.

use research_mcp::db::{Db, DbError, PhaseEvent, ResearchRun, SessionData, SessionRow, PHASES, RUN_STATUSES};

fn test_db() -> Db {
    Db::new()
}

fn run_at(db: &mut Db, topic: &str, priority: i64, batch: Option<&str>, id: &str, now: &str) -> ResearchRun {
    db.create_run_at(topic, topic, batch, priority, id, now).unwrap()
}

#[test]
fn create_and_get_run() {
    let mut db = test_db();
    let run = db.create_run("Test topic", "test-topic", Some("B1"), 0).unwrap();
    assert_eq!(run.status, "queued");
    let fetched = db.get_run(&run.id).unwrap();
    assert_eq!(fetched.topic, "Test topic");
    assert_eq!(fetched.batch_id.as_deref(), Some("B1"));
}

#[test]
fn status_transitions() {
    let mut db = test_db();
    let run = db.create_run("T", "t", None, 0).unwrap();
    db.set_run_started(&run.id);
    assert_eq!(db.get_run(&run.id).unwrap().status, "running");
    db.update_status(&run.id, "running", "drafting", 60, None);
    let r = db.get_run(&run.id).unwrap();
    assert_eq!(r.phase, "drafting");
    assert_eq!(r.progress, 60);
    db.set_complete(&run.id, "/out/x.md", "/out/x.provenance.md");
    let r = db.get_run(&run.id).unwrap();
    assert_eq!(r.status, "complete");
    assert_eq!(r.progress, 100);
    assert!(r.completed_at.is_some());
}

#[test]
fn session_upsert() {
    let mut db = test_db();
    let run = db.create_run("T", "t", None, 0).unwrap();
    let s1 = SessionData { plan_json: Some("{\"q\":1}".into()), ..Default::default() };
    db.save_session(&run.id, &s1).unwrap();
    let s2 = SessionData { draft_text: Some("draft".into()), ..Default::default() };
    db.save_session(&run.id, &s2).unwrap();
    let got = db.get_session(&run.id).unwrap();
    assert_eq!(got.plan_json.as_deref(), Some("{\"q\":1}"));
    assert_eq!(got.draft_text.as_deref(), Some("draft"));
}

#[test]
fn next_queued_priority_order() {
    let mut db = test_db();
    let low = db.create_run("low", "low", None, 0).unwrap();
    let high = db.create_run("high", "high", None, 5).unwrap();
    assert_eq!(db.next_queued().unwrap().id, high.id);
    db.set_run_started(&high.id);
    assert_eq!(db.next_queued().unwrap().id, low.id);
}

#[test]
fn crash_recovery_resets_running() {
    let mut db = test_db();
    let run = db.create_run("T", "t", None, 0).unwrap();
    db.set_run_started(&run.id);
    let n = db.recover_stale_runs();
    assert_eq!(n, 1);
    assert_eq!(db.get_run(&run.id).unwrap().status, "queued");
}

#[test]
fn phase_log_records_events() {
    let mut db = test_db();
    let run = db.create_run("T", "t", None, 0).unwrap();
    db.log_phase(&run.id, "planning", "ok", "planned").unwrap();
    db.log_phase(&run.id, "searching", "ok", "searched").unwrap();
    let events = db.phase_log(&run.id);
    assert_eq!(events.len(), 2);
    assert_eq!(events[1].phase, "searching");
}

#[test]
fn list_filters_by_status() {
    let mut db = test_db();
    let r1 = db.create_run("a", "a", None, 0).unwrap();
    let _r2 = db.create_run("b", "b", None, 0).unwrap();
    db.set_complete(&r1.id, "p", "q");
    let completed = db.list_runs(Some("complete"), 10, 0);
    assert_eq!(completed.len(), 1);
    assert_eq!(completed[0].id, r1.id);
    let all = db.list_runs(None, 10, 0);
    assert_eq!(all.len(), 2);
}

#[test]
fn states_and_phases_are_named() {
    assert_eq!(RUN_STATUSES, ["queued", "running", "complete", "failed", "blocked", "cancelled"]);
    assert_eq!(PHASES.len(), 8);
    assert_eq!(PHASES[5], "debating");
}

#[test]
fn created_runs_look_fresh() {
    let mut db = test_db();
    let run = run_at(&mut db, "t", 3, Some("b"), "r1", "2026-01-01");
    assert_eq!(run.id, "r1");
    assert_eq!(run.phase, "planning");
    assert_eq!(run.progress, 0);
    assert_eq!(run.priority, 3);
    assert_eq!(run.attempt, 1);
    assert_eq!(run.created_at, "2026-01-01");
    assert_eq!(run.updated_at, "2026-01-01");
    assert_eq!(run.started_at, None);
    assert_eq!(run.completed_at, None);
    assert_eq!(run.error, None);
    assert_eq!(run.report_path, None);
}

#[test]
fn identifiers_are_taken_once() {
    let mut db = test_db();
    run_at(&mut db, "t", 0, None, "r1", "1");
    assert_eq!(db.create_run_at("u", "u", None, 0, "r1", "2").unwrap_err(), DbError::DuplicateRun);
    assert_eq!(db.runs().len(), 1);
}

#[test]
fn fresh_identifiers_and_times_are_drawn() {
    let mut db = test_db();
    let a = db.create_run("t", "t", None, 0).unwrap();
    let b = db.create_run("t", "t", None, 0).unwrap();
    assert_ne!(a.id, b.id);
    assert_eq!(a.id.len(), 36);
    assert!(a.id.chars().all(|c| c == '-' || c.is_ascii_hexdigit()));
    assert!(Db::now().contains('T'));
    assert!(Db::now().starts_with("20"));
    let now = Db::now();
    let (date, time) = now.strip_suffix("+00:00").unwrap().split_once('T').unwrap();
    let shape: String = date.chars().map(|c| if c.is_ascii_digit() { '0' } else { c }).collect();
    assert_eq!(shape, "0000-00-00");
    let shape: String = time.chars().map(|c| if c.is_ascii_digit() { '0' } else { c }).collect();
    assert!(["00:00:00", "00:00:00.000", "00:00:00.000000", "00:00:00.000000000"].contains(&shape.as_str()));
}

#[test]
fn slugs_never_collide() {
    let mut db = test_db();
    let slugs: Vec<String> = (0..4)
        .map(|i| db.create_run_at("t", "same", None, 0, &format!("r{}", i), "1").unwrap().slug)
        .collect();
    assert_eq!(slugs, vec!["same", "same-2", "same-3", "same-4"]);
}

#[test]
fn status_sets_start_once_and_end_when_final() {
    let mut db = test_db();
    run_at(&mut db, "t", 0, None, "r1", "1");
    db.update_status_at("r1", "running", "planning", 10, None, "2");
    db.update_status_at("r1", "running", "searching", 30, Some("hm"), "3");
    let r = db.get_run("r1").unwrap();
    assert_eq!(r.started_at.as_deref(), Some("2"));
    assert_eq!(r.updated_at, "3");
    assert_eq!(r.error.as_deref(), Some("hm"));
    assert_eq!(r.completed_at, None);
    for status in ["complete", "failed", "blocked", "cancelled"] {
        let mut db = test_db();
        run_at(&mut db, "t", 0, None, "r1", "1");
        db.update_status_at("r1", status, "planning", 0, None, "9");
        assert_eq!(db.get_run("r1").unwrap().completed_at.as_deref(), Some("9"));
    }
}

#[test]
fn unknown_runs_change_nothing() {
    let mut db = test_db();
    run_at(&mut db, "t", 0, None, "r1", "1");
    db.update_status_at("none", "failed", "planning", 0, None, "2");
    db.set_run_started_at("none", "2");
    db.set_complete_at("none", "p", "q", "2");
    assert_eq!(db.get_run("r1").unwrap().updated_at, "1");
    assert!(db.get_run("none").is_none());
    assert_eq!(db.save_session("none", &SessionData::default()).unwrap_err(), DbError::UnknownRun);
    assert_eq!(db.log_phase("none", "p", "s", "m").unwrap_err(), DbError::UnknownRun);
    assert_eq!(db.increment_attempt("none").unwrap_err(), DbError::UnknownRun);
    assert!(db.get_session("none").is_none());
    assert!(db.phase_log("none").is_empty());
}

#[test]
fn attempts_are_counted() {
    let mut db = test_db();
    run_at(&mut db, "t", 0, None, "r1", "1");
    assert_eq!(db.increment_attempt("r1").unwrap(), 2);
    assert_eq!(db.increment_attempt_at("r1", "5").unwrap(), 3);
    let r = db.get_run("r1").unwrap();
    assert_eq!(r.attempt, 3);
    assert_eq!(r.updated_at, "5");
    db.requeue_at("r1", "6");
    let r = db.get_run("r1").unwrap();
    assert_eq!((r.attempt, r.status.as_str(), r.phase.as_str()), (1, "queued", "planning"));
}

#[test]
fn counters_run_full() {
    let mut db = test_db();
    let mut run = run_at(&mut db, "t", 0, None, "r1", "1");
    run.attempt = i64::MAX;
    let mut db = Db::from_rows(vec![run], vec![], vec![], i64::MAX);
    assert_eq!(db.increment_attempt("r1").unwrap_err(), DbError::CounterFull);
    assert_eq!(db.log_phase("r1", "p", "s", "m").unwrap_err(), DbError::CounterFull);
    assert_eq!(db.last_event_id(), i64::MAX);
}

#[test]
fn sessions_are_merged_and_kept_apart() {
    let mut db = test_db();
    run_at(&mut db, "a", 0, None, "r1", "1");
    run_at(&mut db, "b", 0, None, "r2", "1");
    db.save_session("r1", &SessionData { cited_text: Some("c".into()), ..Default::default() }).unwrap();
    db.save_session("r2", &SessionData { review_text: Some("r".into()), ..Default::default() }).unwrap();
    db.save_session("r1", &SessionData { cited_text: Some("d".into()), debate_text: Some("x".into()), ..Default::default() }).unwrap();
    let one = db.get_session("r1").unwrap();
    assert_eq!(one.cited_text.as_deref(), Some("d"));
    assert_eq!(one.debate_text.as_deref(), Some("x"));
    assert_eq!(one.review_text, None);
    let two = db.get_session("r2").unwrap();
    assert_eq!(two.review_text.as_deref(), Some("r"));
    assert_eq!(two.cited_text, None);
    assert_eq!(db.sessions().len(), 2);
}

#[test]
fn log_entries_are_numbered() {
    let mut db = test_db();
    run_at(&mut db, "a", 0, None, "r1", "1");
    run_at(&mut db, "b", 0, None, "r2", "1");
    db.log_phase_at("r1", "planning", "ok", "one", "2").unwrap();
    db.log_phase_at("r2", "planning", "ok", "two", "3").unwrap();
    db.log_phase_at("r1", "citing", "ok", "three", "4").unwrap();
    let log = db.phase_log("r1");
    assert_eq!(log.iter().map(|e| e.id).collect::<Vec<_>>(), vec![1, 3]);
    assert_eq!(log[1].message, "three");
    assert_eq!(log[1].created_at, "4");
    assert_eq!(db.events().len(), 3);
}

#[test]
fn queue_serves_priority_then_age() {
    let mut db = test_db();
    run_at(&mut db, "late", 1, None, "r1", "2026-01-02");
    run_at(&mut db, "early", 1, None, "r2", "2026-01-01");
    run_at(&mut db, "batch", 0, Some("b"), "r3", "2026-01-03");
    assert_eq!(db.next_queued().unwrap().id, "r2");
    assert_eq!(db.next_waiting(Some("b")).unwrap().id, "r3");
    assert!(db.next_waiting(Some("c")).is_none());
    db.set_run_started_at("r2", "x");
    assert_eq!(db.count_running(), 1);
    assert_eq!(db.next_queued().unwrap().id, "r1");
}

#[test]
fn lists_are_newest_first_and_paged() {
    let mut db = test_db();
    for (id, at) in [("r1", "1"), ("r2", "3"), ("r3", "2"), ("r4", "3")] {
        run_at(&mut db, id, 0, Some("b"), id, at);
    }
    let ids = |runs: Vec<ResearchRun>| runs.into_iter().map(|r| r.id).collect::<Vec<_>>();
    assert_eq!(ids(db.list_runs(None, 10, 0)), vec!["r2", "r4", "r3", "r1"]);
    assert_eq!(ids(db.list_runs(None, 2, 1)), vec!["r4", "r3"]);
    assert_eq!(ids(db.list_runs(None, -1, 2)), vec!["r3", "r1"]);
    assert_eq!(ids(db.list_runs(None, 0, 0)), Vec::<String>::new());
    assert_eq!(ids(db.list_runs(None, 5, 9)), Vec::<String>::new());
    assert_eq!(ids(db.list_by_batch("b")), vec!["r2", "r4", "r3", "r1"]);
    assert!(db.list_by_batch("x").is_empty());
}

#[test]
fn recovery_touches_only_running_runs() {
    let mut db = test_db();
    run_at(&mut db, "a", 0, None, "r1", "1");
    run_at(&mut db, "b", 0, None, "r2", "1");
    db.update_status_at("r1", "running", "citing", 80, None, "2");
    db.update_status_at("r2", "failed", "planning", 0, None, "2");
    assert_eq!(db.recover_stale_runs_at("3"), 1);
    let r1 = db.get_run("r1").unwrap();
    assert_eq!((r1.status.as_str(), r1.phase.as_str(), r1.progress), ("queued", "citing", 80));
    assert_eq!(db.get_run("r2").unwrap().status, "failed");
    assert_eq!(db.recover_stale_runs_at("4"), 0);
}

#[test]
fn rows_go_in_and_out() {
    let mut db = test_db();
    let run = run_at(&mut db, "a", 0, None, "r1", "1");
    let session = SessionRow { run_id: "r1".into(), data: SessionData { plan_json: Some("p".into()), ..Default::default() } };
    let event = PhaseEvent { id: 7, run_id: "r1".into(), phase: "planning".into(), status: "ok".into(), message: "m".into(), created_at: "1".into() };
    let mut db = Db::from_rows(vec![run], vec![session], vec![event], 7);
    assert_eq!(db.get_session("r1").unwrap().plan_json.as_deref(), Some("p"));
    db.log_phase_at("r1", "citing", "ok", "n", "2").unwrap();
    assert_eq!(db.phase_log("r1")[1].id, 8);
}
