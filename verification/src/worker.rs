//! The worker: which run comes next, and what follows a failure.
//!
//! One run at a time. A run that fails is tried again after a pause, without limit, unless
//! the failure is one of authentication.

use vstd::prelude::*;

use crate::clock;
use crate::db;
use crate::db::{Db, DbError, ResearchRun, RunState, Tables};
use crate::text;
use crate::workflow::engine;

verus! {

/// The longest pause between two attempts, in seconds.
pub const MAX_BACKOFF_SECS: u64 = 60;

/// The seconds between two looks at an empty queue.
pub const POLL_SECS: u64 = 2;

/// A message that speaks of a failed authentication.
pub open spec fn speaks_of_auth(message: Seq<char>) -> bool {
    ||| text::contains(message, "401"@)
    ||| text::contains(message, "403"@)
    ||| text::contains(message, "Invalid API key"@)
    ||| text::contains(message, "Unauthorized"@)
}

/// Whether a message speaks of a failed authentication.
pub fn is_auth_error(message: &str) -> (r: bool)
    ensures
        r == speaks_of_auth(message@),
{
    text::has(message, "401") || text::has(message, "403") || text::has(message, "Invalid API key")
        || text::has(message, "Unauthorized")
}

// ── retries ─────────────────────────────────────────────────────────

/// What follows an attempt at a run.
#[derive(Debug, Clone, Copy, PartialEq, Eq, Structural)]
pub enum AfterAttempt {
    /// The run is over; whether it is complete.
    Over(bool),
    /// The run has failed for good.
    GiveUp,
    /// The run is tried again after a pause of so many seconds.
    Retry { delay_secs: u64, next_backoff: u64 },
}

/// The pause for a back-off.
pub open spec fn delay(backoff: u64) -> u64 {
    if backoff < MAX_BACKOFF_SECS {
        backoff
    } else {
        MAX_BACKOFF_SECS
    }
}

/// The back-off after the next failure: twice as much, as far as that fits.
pub open spec fn doubled(backoff: u64) -> u64 {
    if backoff * 2 > u64::MAX {
        u64::MAX
    } else {
        (backoff * 2) as u64
    }
}

/// What follows an attempt at a run that ended this way.
pub open spec fn next_step(outcome: Result<bool, Seq<char>>, backoff: u64) -> AfterAttempt {
    match outcome {
        Ok(complete) => AfterAttempt::Over(complete),
        Err(message) => if speaks_of_auth(message) {
            AfterAttempt::GiveUp
        } else {
            AfterAttempt::Retry { delay_secs: delay(backoff), next_backoff: doubled(backoff) }
        },
    }
}

/// The view of how an attempt ended.
pub open spec fn outcome_view(outcome: Result<bool, String>) -> Result<bool, Seq<char>> {
    match outcome {
        Ok(complete) => Ok(complete),
        Err(message) => Err(message@),
    }
}

/// What follows an attempt at a run that ended this way.
pub fn after_attempt(outcome: &Result<bool, String>, backoff: u64) -> (r: AfterAttempt)
    ensures
        r == next_step(outcome_view(*outcome), backoff),
{
    match outcome {
        Ok(complete) => AfterAttempt::Over(*complete),
        Err(message) => if is_auth_error(message.as_str()) {
            AfterAttempt::GiveUp
        } else {
            let delay_secs: u64 = if backoff < MAX_BACKOFF_SECS {
                backoff
            } else {
                MAX_BACKOFF_SECS
            };
            let next_backoff: u64 = match backoff.checked_mul(2) {
                Some(twice) => twice,
                None => u64::MAX,
            };
            AfterAttempt::Retry { delay_secs, next_backoff }
        },
    }
}

/// The back-off after `n` failures, the first one being 1.
pub open spec fn backoff_after(n: nat) -> u64
    decreases n,
{
    if n == 0 {
        1
    } else {
        doubled(backoff_after((n - 1) as nat))
    }
}

/// The pauses are 1, 2, 4, 8, 16 and 32 seconds, and then the longest one for ever: they
/// never shrink and never stop.
pub proof fn pauses_double_up_to_the_limit(n: nat)
    ensures
        n < 6 ==> backoff_after(n) == vstd::arithmetic::power2::pow2(n),
        n >= 6 ==> backoff_after(n) >= 64,
        1 <= delay(backoff_after(n)) <= MAX_BACKOFF_SECS,
        n >= 6 ==> delay(backoff_after(n)) == MAX_BACKOFF_SECS,
        delay(backoff_after(n)) <= delay(backoff_after(n + 1)),
    decreases n,
{
    vstd::arithmetic::power2::lemma2_to64();
    if n > 0 {
        pauses_double_up_to_the_limit((n - 1) as nat);
    }
}

/// A failed authentication is never tried again; any other failure always is.
pub proof fn only_auth_errors_give_up(message: Seq<char>, backoff: u64)
    ensures
        (next_step(Err(message), backoff) == AfterAttempt::GiveUp) == speaks_of_auth(message),
        !speaks_of_auth(message) ==> next_step(Err(message), backoff) is Retry,
{
}

// ── the queue ───────────────────────────────────────────────────────

/// The run to serve next: one of the batch that is under way, while any of it waits; else
/// the first of all.
pub open spec fn is_pick(runs: Seq<RunState>, batch: Option<Seq<char>>, i: int) -> bool {
    if batch is Some && !db::none_waits(runs, batch) {
        db::is_next(runs, batch, i)
    } else {
        db::is_next(runs, None, i)
    }
}

/// The run to serve next: one of the batch that is under way, while any of it waits; else
/// the first of all.
pub fn pick_run(queue: &Db, batch: Option<&str>) -> (r: Option<ResearchRun>)
    ensures
        match r {
            Some(run) => exists|i: int|
                #[trigger] is_pick(queue@.runs, db::str_view(batch), i) && run@ == queue@.runs[i],
            None => db::none_waits(queue@.runs, None),
        },
{
    if batch.is_some() {
        if let Some(run) = queue.next_waiting(batch) {
            proof {
                let group = db::str_view(batch);
                let i = choose|i: int|
                    #[trigger] db::is_next(queue@.runs, group, i) && run@ == queue@.runs[i];
                assert(db::waits(queue@.runs[i], group));
                assert(is_pick(queue@.runs, group, i));
            }
            return Some(run);
        }
    }
    let next = queue.next_queued();
    proof {
        if next is Some {
            let i = choose|i: int|
                #[trigger] db::is_next(queue@.runs, None, i) && next->0@ == queue@.runs[i];
            assert(is_pick(queue@.runs, db::str_view(batch), i));
        }
    }
    next
}

/// While any run of the batch under way waits, the next run is of that batch.
pub proof fn batches_stay_together(runs: Seq<RunState>, batch: Seq<char>, i: int)
    requires
        is_pick(runs, Some(batch), i),
        !db::none_waits(runs, Some(batch)),
    ensures
        runs[i].batch_id == Some(batch),
        runs[i].status == "queued"@,
{
}

/// The tables after a run was picked up, and the log says so.
pub open spec fn picked_up(
    before: Tables,
    after: Tables,
    run_id: Seq<char>,
    phase: Seq<char>,
    now: Seq<char>,
    r: Result<(), DbError>,
) -> bool {
    db::event_logged(
        before.run_started(run_id, now),
        after,
        run_id,
        phase,
        "started"@,
        "run picked up by worker"@,
        now,
        r,
    )
}

/// Pick up a run at the time `now`: it is running from then on, and the log says so.
pub fn start_run_at(queue: &mut Db, run_id: &str, phase: &str, now: &str) -> (r: Result<(), DbError>)
    ensures
        picked_up(old(queue)@, final(queue)@, run_id@, phase@, now@, r),
        old(queue)@.wf() ==> final(queue)@.wf(),
{
    queue.set_run_started_at(run_id, now);
    queue.log_phase_at(run_id, phase, "started", "run picked up by worker", now)
}

/// Pick up a run: it is running from then on, and the log says so.
pub fn start_run(queue: &mut Db, run_id: &str, phase: &str) -> (r: Result<(), DbError>)
    ensures
        exists|now: Seq<char>|
            clock::is_timestamp(now) && #[trigger] picked_up(
                old(queue)@,
                final(queue)@,
                run_id@,
                phase@,
                now,
                r,
            ),
        old(queue)@.wf() ==> final(queue)@.wf(),
{
    let now = Db::now();
    start_run_at(queue, run_id, phase, now.as_str())
}

/// The tables after a run failed to authenticate, and the log says so.
pub open spec fn gave_up(
    before: Tables,
    after: Tables,
    run_id: Seq<char>,
    message: Seq<char>,
    now: Seq<char>,
    r: Result<(), DbError>,
) -> bool {
    db::event_logged(
        before.status_updated(run_id, "failed"@, "planning"@, 0, Some(message), now),
        after,
        run_id,
        "planning"@,
        "failed"@,
        "auth error: "@ + message,
        now,
        r,
    )
}

/// Mark a run as failed for good at the time `now`.
pub fn give_up_at(queue: &mut Db, run_id: &str, message: &str, now: &str) -> (r: Result<(), DbError>)
    ensures
        gave_up(old(queue)@, final(queue)@, run_id@, message@, now@, r),
        old(queue)@.wf() ==> final(queue)@.wf(),
{
    let mut entry = "auth error: ".to_owned();
    entry.append(message);
    queue.update_status_at(run_id, "failed", "planning", 0, Some(message), now);
    queue.log_phase_at(run_id, "planning", "failed", entry.as_str(), now)
}

/// Mark a run as failed for good.
pub fn give_up(queue: &mut Db, run_id: &str, message: &str) -> (r: Result<(), DbError>)
    ensures
        exists|now: Seq<char>|
            clock::is_timestamp(now) && #[trigger] gave_up(
                old(queue)@,
                final(queue)@,
                run_id@,
                message@,
                now,
                r,
            ),
        old(queue)@.wf() ==> final(queue)@.wf(),
{
    let now = Db::now();
    give_up_at(queue, run_id, message, now.as_str())
}

/// Show a run as running again at the time `now`, before it is tried again; a run that was
/// cancelled meanwhile is left alone. The answer is whether the run goes on.
pub fn retry_run_at(queue: &mut Db, run_id: &str, now: &str) -> (r: bool)
    ensures
        r == engine::goes_on(old(queue)@, run_id@),
        final(queue)@ == if r {
            old(queue)@.status_updated(run_id@, "running"@, "planning"@, 0, None, now@)
        } else {
            old(queue)@
        },
        old(queue)@.wf() ==> final(queue)@.wf(),
{
    if let Some(run) = queue.get_run(run_id) {
        if text::same(run.status.as_str(), "cancelled") {
            return false;
        }
    }
    queue.update_status_at(run_id, "running", "planning", 0, None, now);
    true
}

/// Show a run as running again, before it is tried again; a run that was cancelled meanwhile
/// is left alone. The answer is whether the run goes on.
pub fn retry_run(queue: &mut Db, run_id: &str) -> (r: bool)
    ensures
        r == engine::goes_on(old(queue)@, run_id@),
        r ==> exists|now: Seq<char>|
            clock::is_timestamp(now) && final(queue)@ == #[trigger] old(queue)@.status_updated(
                run_id@,
                "running"@,
                "planning"@,
                0,
                None,
                now,
            ),
        !r ==> final(queue)@ == old(queue)@,
        old(queue)@.wf() ==> final(queue)@.wf(),
{
    let now = Db::now();
    retry_run_at(queue, run_id, now.as_str())
}

/// No run is running but the one with this identifier.
pub open spec fn no_other_runs(runs: Seq<RunState>, id: Seq<char>) -> bool {
    forall|i: int|
        0 <= i < runs.len() && (#[trigger] runs[i]).status == "running"@ ==> runs[i].id == id
}

/// No run is running.
pub open spec fn none_runs(runs: Seq<RunState>) -> bool {
    forall|i: int| 0 <= i < runs.len() ==> (#[trigger] runs[i]).status != "running"@
}

/// One run at a time: a run that is picked up while none runs is the only one that runs,
/// whatever its status becomes, and once it is given another status, or is complete, none
/// runs again.
pub proof fn one_run_at_a_time(
    tables: Tables,
    run_id: Seq<char>,
    status: Seq<char>,
    phase: Seq<char>,
    progress: i64,
    error: Option<Seq<char>>,
    report_path: Seq<char>,
    provenance_path: Seq<char>,
    now: Seq<char>,
)
    requires
        no_other_runs(tables.runs, run_id),
    ensures
        no_other_runs(tables.run_started(run_id, now).runs, run_id),
        no_other_runs(
            tables.status_updated(run_id, status, phase, progress, error, now).runs,
            run_id,
        ),
        status != "running"@ ==> none_runs(
            tables.status_updated(run_id, status, phase, progress, error, now).runs,
        ),
        none_runs(tables.run_completed(run_id, report_path, provenance_path, now).runs),
        forall|other: Seq<char>|
            none_runs(tables.runs) ==> #[trigger] no_other_runs(tables.runs, other),
{
    reveal_strlit("running");
    reveal_strlit("complete");
    assert("running"@[0] != "complete"@[0]);
}

/// A message that names one of the signs of a refused key is taken for one, whatever stands
/// around it.
pub proof fn refused_keys_are_recognised(front: Seq<char>, back: Seq<char>)
    ensures
        speaks_of_auth(front + "401"@ + back),
        speaks_of_auth(front + "403"@ + back),
        speaks_of_auth(front + "Invalid API key"@ + back),
        speaks_of_auth(front + "Unauthorized"@ + back),
{
    text::holds_its_middle(front, "401"@, back);
    text::holds_its_middle(front, "403"@, back);
    text::holds_its_middle(front, "Invalid API key"@, back);
    text::holds_its_middle(front, "Unauthorized"@, back);
}

/// An attempt that came to its end is over, complete or not, as it says.
pub proof fn outcomes_are_taken_over(complete: bool, backoff: u64)
    ensures
        next_step(Ok(complete), backoff) == AfterAttempt::Over(complete),
{
}

/// A run that is picked up runs, and its log says so.
pub proof fn picked_up_runs_run(
    before: Tables,
    after: Tables,
    run_id: Seq<char>,
    phase: Seq<char>,
    now: Seq<char>,
)
    requires
        picked_up(before, after, run_id, phase, now, Ok(())),
        db::run_with(before.runs, run_id) is Some,
    ensures
        db::run_with(after.runs, run_id) matches Some(run) && run.status == "running"@
            && run.updated_at == now && run.started_at is Some,
        after.events.drop_last() == before.events,
        after.events.last().run_id == run_id,
        after.events.last().phase == phase,
        after.events.last().status == "started"@,
        after.sessions == before.sessions,
{
    db::change_is_seen(before.runs, run_id, run_id, |run: RunState| db::as_started(run, now));
    assert(after.events.drop_last() =~= before.events);
}

/// A run that is given up has failed, with the message that it failed with, and its log says
/// why.
pub proof fn given_up_runs_have_failed(
    before: Tables,
    after: Tables,
    run_id: Seq<char>,
    message: Seq<char>,
    now: Seq<char>,
)
    requires
        gave_up(before, after, run_id, message, now, Ok(())),
        db::run_with(before.runs, run_id) is Some,
    ensures
        db::run_with(after.runs, run_id) matches Some(run) && run.status == "failed"@ && run.error
            == Some(message) && run.completed_at == Some(now),
        after.events.drop_last() == before.events,
        after.events.last().run_id == run_id,
        after.events.last().status == "failed"@,
        message.is_suffix_of(after.events.last().message),
        after.sessions == before.sessions,
{
    db::change_is_seen(
        before.runs,
        run_id,
        run_id,
        |run: RunState| db::with_status(run, "failed"@, "planning"@, 0, Some(message), now),
    );
    assert(after.events.drop_last() =~= before.events);
    let told = "auth error: "@ + message;
    assert(told.subrange(told.len() - message.len(), told.len() as int) =~= message);
}

} // verus!
