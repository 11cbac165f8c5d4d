//! The status-poll state machine and the dispatch decisions.

use gitlabjob::dispatch::{
    dispatch_error_reason, is_pending, monitor_step, run_monitor, terminal_reason, MonitorStep,
};
use gitlabjob::domain::{JobScope, MailReason};

#[test]
fn pending_set_is_exactly_the_four_waiting_states() {
    assert!(is_pending(JobScope::Pending));
    assert!(is_pending(JobScope::Running));
    assert!(is_pending(JobScope::WaitingForResource));
    assert!(is_pending(JobScope::Manual));
    assert!(!is_pending(JobScope::Created));
    assert!(!is_pending(JobScope::Failed));
    assert!(!is_pending(JobScope::Success));
    assert!(!is_pending(JobScope::Canceled));
    assert!(!is_pending(JobScope::Skipped));
    assert!(!is_pending(JobScope::Invalid));
}

#[test]
fn terminal_reason_keeps_the_recorded_reason_only_for_cancellations() {
    assert_eq!(
        terminal_reason(JobScope::Canceled, &Some(MailReason::Duplicated)),
        MailReason::Duplicated
    );
    assert_eq!(
        terminal_reason(JobScope::Canceled, &None),
        MailReason::Status(JobScope::Canceled)
    );
    assert_eq!(
        terminal_reason(JobScope::Success, &Some(MailReason::Duplicated)),
        MailReason::Status(JobScope::Success)
    );
}

#[test]
fn monitor_step_decides_wait_finish_or_timeout() {
    // A terminal status finishes at once, whatever the clock says.
    assert_eq!(
        monitor_step(JobScope::Success, &None, 10, 30),
        MonitorStep::Finished(MailReason::Status(JobScope::Success))
    );
    // A pending status inside the budget waits.
    assert_eq!(monitor_step(JobScope::Running, &None, 10, 30), MonitorStep::Wait);
    // A pending status at or past the budget reports the elapsed wait.
    assert_eq!(
        monitor_step(JobScope::Running, &None, 30, 30),
        MonitorStep::Finished(MailReason::MaxWaitElapsed)
    );
}

#[test]
fn monitor_terminates_on_the_first_terminal_status() {
    let statuses = vec![
        JobScope::Pending,
        JobScope::Pending,
        JobScope::Running,
        JobScope::Success,
    ];
    // Four polls at ten seconds each stay well inside the budget.
    let reason = run_monitor(&statuses, &None, 10, 1000);
    assert_eq!(reason, MailReason::Status(JobScope::Success));
}

#[test]
fn monitor_times_out_when_the_status_stays_pending() {
    // The last status repeats forever; the watch still ends, at the
    // thirty-second budget after three ten-second waits.
    let statuses = vec![JobScope::Pending];
    let reason = run_monitor(&statuses, &None, 10, 30);
    assert_eq!(reason, MailReason::MaxWaitElapsed);
}

#[test]
fn monitor_timeout_beats_a_late_terminal_status() {
    // The job would succeed on the fourth poll, but the budget ends the
    // watch after the third.
    let statuses = vec![
        JobScope::Pending,
        JobScope::Pending,
        JobScope::Pending,
        JobScope::Success,
    ];
    let reason = run_monitor(&statuses, &None, 10, 30);
    assert_eq!(reason, MailReason::MaxWaitElapsed);
}

#[test]
fn monitor_reports_the_recorded_reason_for_a_canceled_job() {
    let statuses = vec![JobScope::Running, JobScope::Canceled];
    let reason = run_monitor(&statuses, &Some(MailReason::InvalidTag), 10, 1000);
    assert_eq!(reason, MailReason::InvalidTag);
    let reason = run_monitor(&statuses, &None, 10, 1000);
    assert_eq!(reason, MailReason::Status(JobScope::Canceled));
}

#[test]
fn dispatch_errors_name_the_attempted_action() {
    assert_eq!(dispatch_error_reason(true), MailReason::ErrorToPlay);
    assert_eq!(dispatch_error_reason(false), MailReason::ErrorToCancel);
}
