//! The action dispatcher's decision logic: which action an outcome calls
//! for, and the status-poll state machine that watches a dispatched job
//! until it reaches a terminal state or the waiting budget runs out.
//!
//! The unverified caller performs the play/cancel calls, the status
//! requests and the sleeps between polls; every decision in between is
//! taken here.

use crate::domain::{JobScope, MailReason};
use vstd::prelude::*;

verus! {

/// Whether a status still counts as pending, so polling must go on.
pub open spec fn spec_is_pending(s: JobScope) -> bool {
    s == JobScope::Pending || s == JobScope::Running || s == JobScope::WaitingForResource || s
        == JobScope::Manual
}

/// Whether a status still counts as pending: one of `Pending`, `Running`,
/// `WaitingForResource` or `Manual`.
pub fn is_pending(s: JobScope) -> (r: bool)
    ensures
        r == spec_is_pending(s),
{
    match s {
        JobScope::Pending => true,
        JobScope::Running => true,
        JobScope::WaitingForResource => true,
        JobScope::Manual => true,
        _ => false,
    }
}

/// The reason reported for a job observed in terminal status `s`: the
/// status itself, except that a canceled job keeps the reason recorded at
/// classification time, when there is one.
pub open spec fn spec_terminal_reason(s: JobScope, recorded: Option<MailReason>) -> MailReason {
    if s == JobScope::Canceled && recorded is Some {
        recorded->0
    } else {
        MailReason::Status(s)
    }
}

/// The reason reported for a job that reached terminal status `s`.
pub fn terminal_reason(s: JobScope, recorded: &Option<MailReason>) -> (r: MailReason)
    ensures
        r == spec_terminal_reason(s, *recorded),
{
    match s {
        JobScope::Canceled => match recorded {
            Some(reason) => *reason,
            None => MailReason::Status(s),
        },
        _ => MailReason::Status(s),
    }
}

/// What the monitor does after one poll.
#[derive(Debug, Clone, Copy, PartialEq, Eq, Structural)]
pub enum MonitorStep {
    /// Sleep one interval and poll again.
    Wait,
    /// Stop polling and report this reason.
    Finished(MailReason),
}

/// One round of the monitor loop, after a poll returned `status` and the
/// sleep that followed it brought the elapsed time to `elapsed`: a
/// non-pending status ends the watch with its terminal reason; a pending
/// status ends it with `MaxWaitElapsed` once the budget is spent, and
/// otherwise asks for another poll.
pub fn monitor_step(
    status: JobScope,
    recorded: &Option<MailReason>,
    elapsed: u64,
    max_wait: u64,
) -> (r: MonitorStep)
    ensures
        !spec_is_pending(status) ==> r == MonitorStep::Finished(
            spec_terminal_reason(status, *recorded),
        ),
        spec_is_pending(status) && elapsed >= max_wait ==> r == MonitorStep::Finished(
            MailReason::MaxWaitElapsed,
        ),
        spec_is_pending(status) && elapsed < max_wait ==> r == MonitorStep::Wait,
        r == MonitorStep::Wait ==> elapsed < max_wait,
{
    if !is_pending(status) {
        MonitorStep::Finished(terminal_reason(status, recorded))
    } else if elapsed >= max_wait {
        MonitorStep::Finished(MailReason::MaxWaitElapsed)
    } else {
        MonitorStep::Wait
    }
}

/// The reason a whole monitor run reports, when poll `k` (counted from
/// zero) observes `statuses[k]` — with the last recorded status repeating
/// once the sequence is exhausted — and the elapsed time after the sleep
/// that follows poll `k` is `elapsed + interval`.
pub open spec fn monitor_outcome(
    statuses: Seq<JobScope>,
    recorded: Option<MailReason>,
    interval: u64,
    max_wait: u64,
    k: nat,
    elapsed: u64,
) -> MailReason
    recommends
        statuses.len() > 0,
        interval >= 1,
        elapsed + interval <= u64::MAX,
    decreases (if elapsed < max_wait {
        max_wait - elapsed
    } else {
        0int
    }) when interval >= 1 && elapsed + interval <= u64::MAX
{
    let s = statuses[if k < statuses.len() {
        k as int
    } else {
        statuses.len() - 1
    }];
    if !spec_is_pending(s) {
        spec_terminal_reason(s, recorded)
    } else if elapsed + interval >= max_wait {
        MailReason::MaxWaitElapsed
    } else {
        monitor_outcome(
            statuses,
            recorded,
            interval,
            max_wait,
            (k + 1) as nat,
            (elapsed + interval) as u64,
        )
    }
}

/// Runs a whole monitor watch against a recorded status sequence: poll `k`
/// observes `statuses[k]`, and the last status repeats once the sequence
/// is exhausted, as a job that stays in one state would report it. Each
/// poll is followed by one sleep of `interval` seconds, and the watch is
/// abandoned with `MaxWaitElapsed` as soon as the elapsed time reaches
/// `max_wait`.
pub fn run_monitor(
    statuses: &Vec<JobScope>,
    recorded: &Option<MailReason>,
    interval: u64,
    max_wait: u64,
) -> (r: MailReason)
    requires
        statuses@.len() > 0,
        interval >= 1,
        max_wait <= u64::MAX - interval,
    ensures
        r == monitor_outcome(statuses@, *recorded, interval, max_wait, 0, 0),
{
    let mut k: u64 = 0;
    let mut elapsed: u64 = 0;
    loop
        invariant
            statuses@.len() > 0,
            interval >= 1,
            max_wait <= u64::MAX - interval,
            elapsed < max_wait || elapsed == 0,
            k <= elapsed,
            monitor_outcome(statuses@, *recorded, interval, max_wait, 0, 0) == monitor_outcome(
                statuses@,
                *recorded,
                interval,
                max_wait,
                k as nat,
                elapsed,
            ),
        decreases max_wait - elapsed,
    {
        let n = statuses.len();
        let idx: usize = if k < n as u64 {
            k as usize
        } else {
            n - 1
        };
        let status = statuses[idx];
        let step = monitor_step(status, recorded, elapsed + interval, max_wait);
        match step {
            MonitorStep::Finished(reason) => {
                return reason;
            },
            MonitorStep::Wait => {
                elapsed = elapsed + interval;
                k = k + 1;
            },
        }
    }
}

/// A monitor watching a job that never leaves the pending states stops all
/// the same: it reports `MaxWaitElapsed` once the waiting budget is spent,
/// it never polls forever.
pub proof fn lemma_monitor_pending_times_out(
    statuses: Seq<JobScope>,
    recorded: Option<MailReason>,
    interval: u64,
    max_wait: u64,
    k: nat,
    elapsed: u64,
)
    requires
        statuses.len() > 0,
        interval >= 1,
        max_wait <= u64::MAX - interval,
        elapsed <= u64::MAX - interval,
        forall|i: int| 0 <= i < statuses.len() ==> spec_is_pending(#[trigger] statuses[i]),
    ensures
        monitor_outcome(statuses, recorded, interval, max_wait, k, elapsed)
            == MailReason::MaxWaitElapsed,
    decreases (if elapsed < max_wait {
        max_wait - elapsed
    } else {
        0int
    }),
{
    if elapsed + interval < max_wait {
        lemma_monitor_pending_times_out(
            statuses,
            recorded,
            interval,
            max_wait,
            (k + 1) as nat,
            (elapsed + interval) as u64,
        );
    }
}

/// The reason reported when the play or cancel call for a job failed: the
/// failure of the action that the job's classification asked for.
pub fn dispatch_error_reason(play: bool) -> (r: MailReason)
    ensures
        play ==> r == MailReason::ErrorToPlay,
        !play ==> r == MailReason::ErrorToCancel,
{
    if play {
        MailReason::ErrorToPlay
    } else {
        MailReason::ErrorToCancel
    }
}

} // verus!
