//! One whole pass over a project with two manual jobs: classification,
//! dispatch decisions and monitoring, down to the final report pairs.

use gitlabjob::dispatch::run_monitor;
use gitlabjob::domain::{JobInfo, JobScope, MailReason, ProjectID};
use gitlabjob::reconcile::{validate_jobs, ProjectJobs};

#[test]
fn two_manual_jobs_one_superseded() {
    // Project 100 has two manual jobs: job 1 on pipeline 10, job 2 on
    // pipeline 20, neither carrying a tag.
    let mut job1 = JobInfo::default();
    job1.id = Some(1);
    job1.proj_id = Some(100);
    job1.pipeline_id = Some(10);
    let mut job2 = JobInfo::default();
    job2.id = Some(2);
    job2.proj_id = Some(100);
    job2.pipeline_id = Some(20);

    let groups = vec![ProjectJobs {
        project: ProjectID(100),
        jobs: vec![job1.clone(), job2.clone()],
    }];
    let verdicts = validate_jobs(&groups, &Vec::new());

    // Job 1 sits on the superseded pipeline and is canceled; job 2 is
    // played with no reason recorded.
    assert_eq!(verdicts[0][0].play, false);
    assert_eq!(verdicts[0][0].reason, Some(MailReason::Duplicated));
    assert_eq!(verdicts[0][1].play, true);
    assert_eq!(verdicts[0][1].reason, None);

    // Job 2 is played and polled until it succeeds.
    let job2_statuses = vec![JobScope::Pending, JobScope::Running, JobScope::Success];
    let job2_reason = run_monitor(&job2_statuses, &verdicts[0][1].reason, 10, 1000);

    // Job 1 is canceled and polled until the cancellation shows; the
    // reason recorded at classification time survives as its terminal
    // reason.
    let job1_statuses = vec![JobScope::Canceled];
    let job1_reason = run_monitor(&job1_statuses, &verdicts[0][0].reason, 10, 1000);

    let report = vec![(job2, job2_reason), (job1, job1_reason)];
    assert_eq!(report[0].1, MailReason::Status(JobScope::Success));
    assert_eq!(report[1].1, MailReason::Duplicated);
    assert_eq!(report[0].0.id, Some(2));
    assert_eq!(report[1].0.id, Some(1));
}
