//! Progress of long jobs over an uploaded file (creating accounts row by row,
//! registering students on the blockchain): the counters kept per job, the keys they
//! are kept under, the progress reported, and when a job counts as finished.
use vstd::prelude::*;
use vstd::string::*;

use crate::repositories::FileUploadStatus;
use crate::text::{concat, concat3};

verus! {

/// The progress of a job as reported to clients.
#[derive(Clone, Copy, Debug, PartialEq, Eq, Structural)]
pub struct FileProgress {
    pub total: u64,
    pub current: u64,
    pub percent: u64,
    pub success: u64,
    pub failed: u64,
}

/// `current * 100`, saturating at `u64::MAX`, divided by `total` (0 when there is
/// no total).
pub open spec fn percent_of(current: u64, total: u64) -> u64 {
    if total == 0 {
        0
    } else {
        let scaled: int = if current * 100 > u64::MAX {
            u64::MAX as int
        } else {
            current * 100
        };
        (scaled / (total as int)) as u64
    }
}

/// The stored current position, capped at the total when there is one.
pub open spec fn capped_current(current: u64, total: u64) -> u64 {
    if total > 0 && current > total {
        total
    } else {
        current
    }
}

/// Builds the reported progress from the counters read back; a counter that is not
/// stored counts as 0.
pub fn compute_progress(
    total: Option<u64>,
    current: Option<u64>,
    success: Option<u64>,
    failed: Option<u64>,
) -> (p: FileProgress)
    ensures
        p.total == total.unwrap_or(0),
        p.current == capped_current(current.unwrap_or(0), p.total),
        p.percent == percent_of(p.current, p.total),
        p.success == success.unwrap_or(0),
        p.failed == failed.unwrap_or(0),
        p.total > 0 ==> p.current <= p.total && p.percent <= 100,
        p.total == 0 ==> p.percent == 0,
{
    let total = match total {
        Some(t) => t,
        None => 0,
    };
    let mut current = match current {
        Some(c) => c,
        None => 0,
    };
    if total > 0 && current > total {
        current = total;
    }
    let percent = if total == 0 {
        0
    } else {
        let scaled = if current > u64::MAX / 100 {
            u64::MAX
        } else {
            current * 100
        };
        proof {
            assert(scaled <= 100 * total) by (nonlinear_arith)
                requires
                    current <= total,
                    scaled == (if current > u64::MAX / 100 {
                        u64::MAX as int
                    } else {
                        current * 100
                    }),
                    total > 0,
                    total <= u64::MAX,
            ;
            assert(scaled / total <= 100) by (nonlinear_arith)
                requires
                    scaled <= 100 * total,
                    total > 0,
            ;
        }
        scaled / total
    };
    FileProgress {
        total,
        current,
        percent,
        success: match success {
            Some(s) => s,
            None => 0,
        },
        failed: match failed {
            Some(f) => f,
            None => 0,
        },
    }
}

/// The next value of a counter: one more than the stored value, or 1 when none is stored.
pub fn next_counter(existing: Option<u64>) -> (v: u64)
    requires
        existing != Some(u64::MAX),
    ensures
        v == match existing {
            Some(e) => e + 1,
            None => 1,
        },
{
    match existing {
        Some(e) => e + 1,
        None => 1,
    }
}

/// The position stored after row `current` was handled: 0 restarts the job,
/// otherwise the position never moves back.
pub open spec fn advanced_position(existing: Option<u64>, current: u64) -> u64 {
    if current == 0 {
        0
    } else {
        match existing {
            Some(e) => if e > current { e } else { current },
            None => current,
        }
    }
}

/// Computes the position stored after row `current` was handled.
pub fn next_position(existing: Option<u64>, current: u64) -> (v: u64)
    ensures
        v == advanced_position(existing, current),
{
    if current == 0 {
        return 0;
    }
    match existing {
        Some(e) => if e > current {
            e
        } else {
            current
        },
        None => current,
    }
}

/// Rows handled out of order never move the stored position back, and the
/// position is always at least the last row reported.
pub proof fn lemma_position_monotone(existing: Option<u64>, current: u64)
    requires
        current > 0,
    ensures
        advanced_position(existing, current) >= current,
        existing matches Some(e) ==> advanced_position(existing, current) >= e,
        advanced_position(Some(advanced_position(existing, current)), current)
            == advanced_position(existing, current),
{
}

// ---------------------------------------------------------------------------
// The counters of a job and how each event changes them
// ---------------------------------------------------------------------------

/// The four counters stored for a job, each absent until first written.
#[derive(Clone, Copy, Debug)]
pub struct JobCounters {
    pub total: Option<u64>,
    pub position: Option<u64>,
    pub success: Option<u64>,
    pub failed: Option<u64>,
}

/// What happens to a job's counters.
#[derive(Clone, Copy, Debug)]
pub enum CounterEvent {
    /// The number of rows of the job is set.
    SetTotal(u64),
    /// Position, successes and failures go back to 0 (a registration restarts).
    Restart,
    /// Successes and failures go back to 0 (a file's creation restarts).
    ClearOutcomes,
    /// The file's position is reported as this row.
    Reached(u64),
    /// The account of a file row was created: its row, when it has one, is reported,
    /// and one more success.
    RowCreated(Option<u64>),
    /// A file row failed: one more failure.
    RowFailed,
    /// A student's registration ended, successfully or not: one more handled, and one
    /// more success or failure.
    Registered(bool),
}

/// The next value of a counter, as `next_counter` computes it.
pub open spec fn bumped(c: Option<u64>) -> Option<u64> {
    Some((c.unwrap_or(0) + 1) as u64)
}

/// Whether an event can be applied without a counter passing `u64::MAX`.
pub open spec fn can_step(c: JobCounters, e: CounterEvent) -> bool {
    match e {
        CounterEvent::RowCreated(_) => c.success != Some(u64::MAX),
        CounterEvent::RowFailed => c.failed != Some(u64::MAX),
        CounterEvent::Registered(ok) => c.position != Some(u64::MAX) && if ok {
            c.success != Some(u64::MAX)
        } else {
            c.failed != Some(u64::MAX)
        },
        _ => true,
    }
}

/// The counters after one event.
pub open spec fn stepped(c: JobCounters, e: CounterEvent) -> JobCounters {
    match e {
        CounterEvent::SetTotal(t) => JobCounters {
            total: Some(t),
            position: c.position,
            success: c.success,
            failed: c.failed,
        },
        CounterEvent::Restart => JobCounters {
            total: c.total,
            position: Some(0),
            success: Some(0),
            failed: Some(0),
        },
        CounterEvent::ClearOutcomes => JobCounters {
            total: c.total,
            position: c.position,
            success: Some(0),
            failed: Some(0),
        },
        CounterEvent::Reached(row) => JobCounters {
            total: c.total,
            position: Some(advanced_position(c.position, row)),
            success: c.success,
            failed: c.failed,
        },
        CounterEvent::RowCreated(row) => JobCounters {
            total: c.total,
            position: match row {
                Some(r) => Some(advanced_position(c.position, r)),
                None => c.position,
            },
            success: bumped(c.success),
            failed: c.failed,
        },
        CounterEvent::RowFailed => JobCounters {
            total: c.total,
            position: c.position,
            success: c.success,
            failed: bumped(c.failed),
        },
        CounterEvent::Registered(ok) => JobCounters {
            total: c.total,
            position: bumped(c.position),
            success: if ok {
                bumped(c.success)
            } else {
                c.success
            },
            failed: if ok {
                c.failed
            } else {
                bumped(c.failed)
            },
        },
    }
}

/// The counters after a run of events, applied in order.
pub open spec fn run(c: JobCounters, events: Seq<CounterEvent>) -> JobCounters
    decreases events.len(),
{
    if events.len() == 0 {
        c
    } else {
        stepped(run(c, events.drop_last()), events.last())
    }
}

/// Whether every event of a run can be applied in turn.
pub open spec fn runnable(c: JobCounters, events: Seq<CounterEvent>) -> bool
    decreases events.len(),
{
    if events.len() == 0 {
        true
    } else {
        runnable(c, events.drop_last()) && can_step(run(c, events.drop_last()), events.last())
    }
}

/// What each event does to the counters. Setting the total changes only the total.
/// A restart sets position, successes and failures to 0; clearing the outcomes sets
/// successes and failures to 0. A reported row 0 sets the position to 0; a reported
/// row above 0 leaves the position at the larger of that row and the stored position
/// (a row reported late never moves it back). A created row adds one success and,
/// when numbered, is reported as above; a failed row adds one failure; a finished
/// registration moves the position on by one and adds one success or one failure.
/// Nothing else changes.
pub proof fn lemma_event_effects(c: JobCounters, e: CounterEvent)
    ensures
        e matches CounterEvent::SetTotal(t) ==> stepped(c, e) == (JobCounters {
            total: Some(t),
            position: c.position,
            success: c.success,
            failed: c.failed,
        }),
        e is Restart ==> stepped(c, e) == (JobCounters {
            total: c.total,
            position: Some(0u64),
            success: Some(0u64),
            failed: Some(0u64),
        }),
        e is ClearOutcomes ==> stepped(c, e) == (JobCounters {
            total: c.total,
            position: c.position,
            success: Some(0u64),
            failed: Some(0u64),
        }),
        e matches CounterEvent::Reached(row) ==> {
            &&& stepped(c, e).total == c.total
            &&& stepped(c, e).success == c.success
            &&& stepped(c, e).failed == c.failed
            &&& row == 0 ==> stepped(c, e).position == Some(0u64)
            &&& row > 0 ==> (stepped(c, e).position matches Some(p) && p >= row && (p == row
                || c.position == Some(p)) && (c.position matches Some(old) ==> p >= old))
        },
        e matches CounterEvent::RowCreated(row) ==> {
            &&& stepped(c, e).total == c.total
            &&& stepped(c, e).failed == c.failed
            &&& c.success != Some(u64::MAX) ==> stepped(c, e).success == Some(
                (c.success.unwrap_or(0) + 1) as u64,
            )
            &&& row is None ==> stepped(c, e).position == c.position
            &&& row == Some(0u64) ==> stepped(c, e).position == Some(0u64)
            &&& (row matches Some(r) ==> (r > 0 ==> (stepped(c, e).position matches Some(p) && p
                >= r && (p == r || c.position == Some(p)) && (c.position matches Some(old) ==> p
                >= old))))
        },
        e is RowFailed ==> {
            &&& stepped(c, e).total == c.total
            &&& stepped(c, e).position == c.position
            &&& stepped(c, e).success == c.success
            &&& c.failed != Some(u64::MAX) ==> stepped(c, e).failed == Some(
                (c.failed.unwrap_or(0) + 1) as u64,
            )
        },
        e matches CounterEvent::Registered(ok) ==> {
            &&& stepped(c, e).total == c.total
            &&& c.position != Some(u64::MAX) ==> stepped(c, e).position == Some(
                (c.position.unwrap_or(0) + 1) as u64,
            )
            &&& ok ==> stepped(c, e).failed == c.failed
            &&& !ok ==> stepped(c, e).success == c.success
            &&& ok && c.success != Some(u64::MAX) ==> stepped(c, e).success == Some(
                (c.success.unwrap_or(0) + 1) as u64,
            )
            &&& !ok && c.failed != Some(u64::MAX) ==> stepped(c, e).failed == Some(
                (c.failed.unwrap_or(0) + 1) as u64,
            )
        },
{
}

/// The progress reported for stored counters, as `compute_progress` builds it.
pub open spec fn progress_view(c: JobCounters) -> FileProgress {
    let total = c.total.unwrap_or(0);
    let current = capped_current(c.position.unwrap_or(0), total);
    FileProgress {
        total,
        current,
        percent: percent_of(current, total),
        success: c.success.unwrap_or(0),
        failed: c.failed.unwrap_or(0),
    }
}

impl JobCounters {
    /// Applies one event to the counters.
    pub fn apply(&mut self, e: CounterEvent)
        requires
            can_step(*old(self), e),
        ensures
            *final(self) == stepped(*old(self), e),
    {
        match e {
            CounterEvent::SetTotal(t) => {
                self.total = Some(t);
            },
            CounterEvent::Restart => {
                self.position = Some(0);
                self.success = Some(0);
                self.failed = Some(0);
            },
            CounterEvent::ClearOutcomes => {
                self.success = Some(0);
                self.failed = Some(0);
            },
            CounterEvent::Reached(row) => {
                self.position = Some(next_position(self.position, row));
            },
            CounterEvent::RowCreated(row) => {
                match row {
                    Some(r) => {
                        self.position = Some(next_position(self.position, r));
                    },
                    None => {},
                }
                self.success = Some(next_counter(self.success));
            },
            CounterEvent::RowFailed => {
                self.failed = Some(next_counter(self.failed));
            },
            CounterEvent::Registered(ok) => {
                self.position = Some(next_counter(self.position));
                if ok {
                    self.success = Some(next_counter(self.success));
                } else {
                    self.failed = Some(next_counter(self.failed));
                }
            },
        }
    }

    /// Whether an event can be applied without a counter passing `u64::MAX`.
    pub fn can_apply(&self, e: &CounterEvent) -> (b: bool)
        ensures
            b == can_step(*self, *e),
    {
        match e {
            CounterEvent::RowCreated(_) => self.success != Some(u64::MAX),
            CounterEvent::RowFailed => self.failed != Some(u64::MAX),
            CounterEvent::Registered(ok) => self.position != Some(u64::MAX) && if *ok {
                self.success != Some(u64::MAX)
            } else {
                self.failed != Some(u64::MAX)
            },
            _ => true,
        }
    }

    /// The progress reported for these counters.
    pub fn progress(&self) -> (p: FileProgress)
        ensures
            p == progress_view(*self),
    {
        compute_progress(self.total, self.position, self.success, self.failed)
    }
}

/// The event recorded for a file row once its message was handled: created (with its
/// row number, when the message carries one) or failed.
pub fn row_event(created: bool, row_number: Option<u64>) -> (e: CounterEvent)
    ensures
        e == (if created {
            CounterEvent::RowCreated(row_number)
        } else {
            CounterEvent::RowFailed
        }),
{
    if created {
        CounterEvent::RowCreated(row_number)
    } else {
        CounterEvent::RowFailed
    }
}

/// How many registrations of a run ended with outcome `ok`.
pub open spec fn registered_count(events: Seq<CounterEvent>, ok: bool) -> nat
    decreases events.len(),
{
    if events.len() == 0 {
        0
    } else {
        registered_count(events.drop_last(), ok) + if events.last() == CounterEvent::Registered(ok) {
            1nat
        } else {
            0nat
        }
    }
}

/// How many file rows of a run were created.
pub open spec fn created_count(events: Seq<CounterEvent>) -> nat
    decreases events.len(),
{
    if events.len() == 0 {
        0
    } else {
        created_count(events.drop_last()) + if events.last() is RowCreated {
            1nat
        } else {
            0nat
        }
    }
}

/// How many file rows of a run failed.
pub open spec fn failed_count(events: Seq<CounterEvent>) -> nat
    decreases events.len(),
{
    if events.len() == 0 {
        0
    } else {
        failed_count(events.drop_last()) + if events.last() is RowFailed {
            1nat
        } else {
            0nat
        }
    }
}

/// The highest numbered row of a run whose account was created, 0 when none was.
pub open spec fn highest_row(events: Seq<CounterEvent>) -> u64
    decreases events.len(),
{
    if events.len() == 0 {
        0
    } else {
        let before = highest_row(events.drop_last());
        match events.last() {
            CounterEvent::RowCreated(Some(row)) => if row > before {
                row
            } else {
                before
            },
            _ => before,
        }
    }
}

proof fn lemma_registrations_counted(start: JobCounters, events: Seq<CounterEvent>)
    requires
        start.position == Some(0u64),
        start.success == Some(0u64),
        start.failed == Some(0u64),
        forall|i: int| 0 <= i < events.len() ==> #[trigger] events[i] is Registered,
        events.len() < u64::MAX,
    ensures
        runnable(start, events),
        run(start, events).total == start.total,
        run(start, events).position == Some(
            (registered_count(events, true) + registered_count(events, false)) as u64,
        ),
        run(start, events).success == Some(registered_count(events, true) as u64),
        run(start, events).failed == Some(registered_count(events, false) as u64),
        registered_count(events, true) + registered_count(events, false) == events.len(),
    decreases events.len(),
{
    if events.len() > 0 {
        let rest = events.drop_last();
        assert forall|i: int| 0 <= i < rest.len() implies #[trigger] rest[i] is Registered by {
            assert(rest[i] == events[i]);
        }
        lemma_registrations_counted(start, rest);
        assert(events[events.len() - 1] is Registered);
    }
}

/// Once the total of a registration is set to `t` and its counters restarted, a run
/// of registrations, `s` successful and `f` failed in any order, can be recorded and
/// then reports total `t`, position `s + f` (capped at a positive total), `s`
/// successes and `f` failures, whatever the counters held before.
pub proof fn lemma_registration_run(before: JobCounters, t: u64, events: Seq<CounterEvent>)
    requires
        forall|i: int| 0 <= i < events.len() ==> #[trigger] events[i] is Registered,
        events.len() < u64::MAX,
    ensures
        ({
            let start = stepped(stepped(before, CounterEvent::SetTotal(t)), CounterEvent::Restart);
            let s = registered_count(events, true);
            let f = registered_count(events, false);
            &&& runnable(start, events)
            &&& s + f == events.len()
            &&& progress_view(run(start, events)) == FileProgress {
                total: t,
                current: capped_current((s + f) as u64, t),
                percent: percent_of(capped_current((s + f) as u64, t), t),
                success: s as u64,
                failed: f as u64,
            }
        }),
{
    let start = stepped(stepped(before, CounterEvent::SetTotal(t)), CounterEvent::Restart);
    lemma_registrations_counted(start, events);
}

/// Every event of a run is a file row handled: created or failed.
pub open spec fn rows_only(events: Seq<CounterEvent>) -> bool {
    forall|i: int|
        0 <= i < events.len() ==> (#[trigger] events[i] is RowFailed || events[i] is RowCreated)
}

/// Every row number of a run is at least 1, as rows are numbered when a file is queued.
pub open spec fn numbered_from_one(events: Seq<CounterEvent>) -> bool {
    forall|i: int|
        0 <= i < events.len() ==> (#[trigger] events[i] matches CounterEvent::RowCreated(Some(r))
            ==> r > 0)
}

proof fn lemma_rows_counted(start: JobCounters, events: Seq<CounterEvent>)
    requires
        start.position == Some(0u64),
        start.success == Some(0u64),
        start.failed == Some(0u64),
        rows_only(events),
        events.len() < u64::MAX,
    ensures
        runnable(start, events),
        run(start, events).total == start.total,
        numbered_from_one(events) ==> run(start, events).position == Some(highest_row(events)),
        run(start, events).success == Some(created_count(events) as u64),
        run(start, events).failed == Some(failed_count(events) as u64),
        created_count(events) + failed_count(events) == events.len(),
    decreases events.len(),
{
    if events.len() > 0 {
        let rest = events.drop_last();
        assert forall|i: int| 0 <= i < rest.len() implies (#[trigger] rest[i] is RowFailed
            || rest[i] is RowCreated) by {
            assert(rest[i] == events[i]);
        }
        if numbered_from_one(events) {
            assert forall|i: int| 0 <= i < rest.len() implies (#[trigger] rest[i] matches CounterEvent::RowCreated(Some(r)) ==> r > 0) by {
                assert(rest[i] == events[i]);
            }
        }
        lemma_rows_counted(start, rest);
        assert(events[events.len() - 1] is RowFailed || events[events.len() - 1] is RowCreated);
    }
}

/// Once the total of a file is set to `t`, its position set to 0 and its outcomes
/// cleared, a run of rows, each created or failed in any order, can be recorded and
/// then reports total `t`, as successes the rows created and as failures the rows that
/// failed, so that together they count every row handled, whatever the counters held
/// before. When the rows are numbered from 1, the position is the highest row created
/// (capped at a positive total).
pub proof fn lemma_file_rows_run(before: JobCounters, t: u64, events: Seq<CounterEvent>)
    requires
        rows_only(events),
        events.len() < u64::MAX,
    ensures
        ({
            let start = stepped(
                stepped(stepped(before, CounterEvent::SetTotal(t)), CounterEvent::Reached(0)),
                CounterEvent::ClearOutcomes,
            );
            let p = progress_view(run(start, events));
            &&& runnable(start, events)
            &&& created_count(events) + failed_count(events) == events.len()
            &&& p.total == t
            &&& p.success == created_count(events) as u64
            &&& p.failed == failed_count(events) as u64
            &&& numbered_from_one(events) ==> {
                &&& p.current == capped_current(highest_row(events), t)
                &&& p.percent == percent_of(capped_current(highest_row(events), t), t)
            }
        }),
{
    let start = stepped(
        stepped(stepped(before, CounterEvent::SetTotal(t)), CounterEvent::Reached(0)),
        CounterEvent::ClearOutcomes,
    );
    lemma_rows_counted(start, events);
}

/// A job is finished once its position reaches a positive total.
pub open spec fn is_finished(p: FileProgress) -> bool {
    p.total > 0 && p.current >= p.total
}

/// The state a finished job is stored with: `Failed` when every handled row failed,
/// the requested state otherwise.
pub open spec fn final_status(p: FileProgress, requested: FileUploadStatus) -> FileUploadStatus {
    if p.failed > 0 && p.success == 0 {
        FileUploadStatus::Failed
    } else {
        requested
    }
}

/// Decides whether a job is finished, and if so the state to store for its file.
pub fn completion_status(p: &FileProgress, requested: FileUploadStatus) -> (s: Option<
    FileUploadStatus,
>)
    ensures
        is_finished(*p) ==> s == Some(final_status(*p, requested)),
        !is_finished(*p) ==> s is None,
{
    if p.total > 0 && p.current >= p.total {
        if p.failed > 0 && p.success == 0 {
            Some(FileUploadStatus::Failed)
        } else {
            Some(requested)
        }
    } else {
        None
    }
}

/// What finishing the blockchain registration of an upload writes: nothing while it
/// runs; once finished, the final state into the upload's record, or the refusal
/// `File upload record not found` when no record has that id.
pub fn blockchain_completion(p: &FileProgress, requested: FileUploadStatus, record_found: bool) -> (r:
    Result<Option<FileUploadStatus>, String>)
    ensures
        !is_finished(*p) ==> r == Ok::<Option<FileUploadStatus>, String>(None),
        is_finished(*p) && record_found ==> r == Ok::<Option<FileUploadStatus>, String>(
            Some(final_status(*p, requested)),
        ),
        is_finished(*p) && !record_found ==> (r matches Err(e) && e@
            == "File upload record not found"@),
{
    match completion_status(p, requested) {
        None => Ok(None),
        Some(s) => if record_found {
            Ok(Some(s))
        } else {
            Err(String::from_str("File upload record not found"))
        },
    }
}

/// What finishing the account creation of a file writes: the final state into the
/// record found by the file's name once finished; nothing while it runs or when no
/// record has that name.
pub fn file_completion(p: &FileProgress, requested: FileUploadStatus, record_found: bool) -> (r:
    Option<FileUploadStatus>)
    ensures
        r == (if is_finished(*p) && record_found {
            Some(final_status(*p, requested))
        } else {
            None
        }),
{
    match completion_status(p, requested) {
        Some(s) => if record_found {
            Some(s)
        } else {
            None
        },
        None => None,
    }
}

/// The reported position is the stored one, except that it never exceeds a positive
/// total; the percentage is 0 without a total and otherwise the whole part of
/// `100 * current / total` (the product saturating at `u64::MAX`), so at most 100. A
/// job is finished exactly when its total is positive and its position reached it;
/// it then ends `Failed` exactly when rows failed and none succeeded, and in the
/// requested state otherwise.
pub proof fn lemma_progress_figures(current: u64, total: u64, p: FileProgress, requested: FileUploadStatus)
    ensures
        total == 0 ==> capped_current(current, total) == current,
        total > 0 && current <= total ==> capped_current(current, total) == current,
        total > 0 && current > total ==> capped_current(current, total) == total,
        total == 0 ==> percent_of(current, total) == 0,
        total > 0 && current * 100 <= u64::MAX ==> percent_of(current, total) == (current * 100)
            / (total as int),
        total > 0 && current <= total ==> percent_of(current, total) <= 100,
        is_finished(p) <==> (p.total > 0 && p.current >= p.total),
        p.failed > 0 && p.success == 0 ==> final_status(p, requested) == FileUploadStatus::Failed,
        !(p.failed > 0 && p.success == 0) ==> final_status(p, requested) == requested,
{
    if total > 0 && current <= total {
        let scaled: int = if current * 100 > u64::MAX {
            u64::MAX as int
        } else {
            current * 100
        };
        assert(scaled <= 100 * total) by (nonlinear_arith)
            requires
                current <= total,
                scaled == (if current * 100 > u64::MAX {
                    u64::MAX as int
                } else {
                    current * 100
                }),
        ;
        assert(scaled / (total as int) <= 100) by (nonlinear_arith)
            requires
                scaled <= 100 * total,
                total > 0,
        ;
    }
}

/// The position stored after a row is reported: 0 for row 0; otherwise the larger of
/// the row and the stored position, or the row when none is stored.
pub proof fn lemma_position_is_maximum(existing: Option<u64>, current: u64)
    ensures
        current == 0 ==> advanced_position(existing, current) == 0,
        current > 0 ==> advanced_position(existing, current) >= current,
        current > 0 ==> (existing matches Some(e) ==> advanced_position(existing, current) >= e),
        advanced_position(existing, current) == current || existing == Some(
            advanced_position(existing, current),
        ),
{
}

/// A job with at least one success keeps the requested state when it finishes.
pub proof fn lemma_success_keeps_requested(p: FileProgress, requested: FileUploadStatus)
    requires
        p.success > 0,
    ensures
        final_status(p, requested) == requested,
{
}

/// Whether a chunked upload is complete: its position reached a positive total.
pub fn is_complete(total: u64, current: u64) -> (b: bool)
    ensures
        b == (total > 0 && current >= total),
{
    total > 0 && current >= total
}

/// Keys of the counters of account creation from a file.
pub struct FileHandleTrackProgress;

impl FileHandleTrackProgress {
    /// Key of the number of rows in the file.
    pub fn total_key(file_name: &str) -> (k: String)
        ensures
            k@ == "file_handle_tracker:"@ + file_name@,
    {
        concat("file_handle_tracker:", file_name)
    }

    /// Key of the position reached in the file.
    pub fn progress_key(file_name: &str) -> (k: String)
        ensures
            k@ == "file_handle_progress:"@ + file_name@,
    {
        concat("file_handle_progress:", file_name)
    }

    /// Key of the number of rows that succeeded.
    pub fn success_key(file_name: &str) -> (k: String)
        ensures
            k@ == "file_handle_success:"@ + file_name@,
    {
        concat("file_handle_success:", file_name)
    }

    /// Key of the number of rows that failed.
    pub fn failed_key(file_name: &str) -> (k: String)
        ensures
            k@ == "file_handle_failed:"@ + file_name@,
    {
        concat("file_handle_failed:", file_name)
    }
}

/// Keys of the counters of blockchain registration for an uploaded file.
pub struct BlockchainRegistrationProgress;

impl BlockchainRegistrationProgress {
    /// Key of the number of students to register.
    pub fn total_key(file_upload_history_id: &str) -> (k: String)
        ensures
            k@ == "blockchain_registration_tracker:"@ + file_upload_history_id@,
    {
        concat("blockchain_registration_tracker:", file_upload_history_id)
    }

    /// Key of the number of registrations handled.
    pub fn progress_key(file_upload_history_id: &str) -> (k: String)
        ensures
            k@ == "blockchain_registration_progress:"@ + file_upload_history_id@,
    {
        concat("blockchain_registration_progress:", file_upload_history_id)
    }

    /// Key of the number of registrations that succeeded.
    pub fn success_key(file_upload_history_id: &str) -> (k: String)
        ensures
            k@ == "blockchain_registration_success:"@ + file_upload_history_id@,
    {
        concat("blockchain_registration_success:", file_upload_history_id)
    }

    /// Key of the number of registrations that failed.
    pub fn failed_key(file_upload_history_id: &str) -> (k: String)
        ensures
            k@ == "blockchain_registration_failed:"@ + file_upload_history_id@,
    {
        concat("blockchain_registration_failed:", file_upload_history_id)
    }
}

/// Keys of MFA state.
pub struct MfaRedisService;

impl MfaRedisService {
    /// Key of the failed attempts of a user.
    pub fn attempts_key(user_id: &str) -> (k: String)
        ensures
            k@ == "mfa:attempts:"@ + user_id@,
    {
        concat("mfa:attempts:", user_id)
    }

    /// Key that marks a code as used by a user.
    pub fn used_code_key(user_id: &str, code: &str) -> (k: String)
        ensures
            k@ == "mfa:used_code:"@ + user_id@ + ":"@ + code@,
    {
        let mut k = concat3("mfa:used_code:", user_id, ":");
        k.append(code);
        k
    }
}

/// Keys of revoked access tokens.
pub struct JwtBlacklist;

impl JwtBlacklist {
    /// Key that marks a token of a user as revoked.
    pub fn blacklist_key(user_id: &str, jwt: &str) -> (k: String)
        ensures
            k@ == "jwt:blacklist:"@ + user_id@ + ":"@ + jwt@,
    {
        let mut k = concat3("jwt:blacklist:", user_id, ":");
        k.append(jwt);
        k
    }
}

/// Rooms that notifications are sent to.
pub struct RedisEmitter;

impl RedisEmitter {
    /// The room of one user.
    pub fn user_room(user_id: &str) -> (k: String)
        ensures
            k@ == "user:"@ + user_id@,
    {
        concat("user:", user_id)
    }
}

/// An event can be recorded unless it would add one to a counter that already holds
/// `u64::MAX`: a created row needs room among the successes, a failed row among the
/// failures, a finished registration in the position and in the success or failure
/// counter it adds to; the other events can always be recorded.
pub proof fn lemma_when_events_fit(c: JobCounters, e: CounterEvent)
    ensures
        e is RowCreated ==> (can_step(c, e) <==> c.success != Some(u64::MAX)),
        e is RowFailed ==> (can_step(c, e) <==> c.failed != Some(u64::MAX)),
        e == CounterEvent::Registered(true) ==> (can_step(c, e) <==> (c.position != Some(u64::MAX)
            && c.success != Some(u64::MAX))),
        e == CounterEvent::Registered(false) ==> (can_step(c, e) <==> (c.position != Some(u64::MAX)
            && c.failed != Some(u64::MAX))),
        (e is SetTotal || e is Restart || e is ClearOutcomes || e is Reached) ==> can_step(c, e),
{
}

} // verus!
