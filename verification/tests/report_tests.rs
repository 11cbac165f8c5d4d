//! Report rendering and mail content.

use gitlabjob::domain::{JobInfo, JobScope, MailReason};
use gitlabjob::report::mail_message;
use gitlabjob::SmtpConfig;

fn sample_job() -> JobInfo {
    let mut j = JobInfo::default();
    j.id = Some(42);
    j.proj_id = Some(100);
    j.proj_name = Some("Alpha".to_string());
    j.pipeline_id = Some(20);
    j.source_id = Some(9);
    j.status = Some(JobScope::Success);
    j.git_tag = Some("v1".to_string());
    j.branch = Some("main".to_string());
    j.user_mail = Some("dev@example.com".to_string());
    j.url = Some("https://git.example/job/42".to_string());
    j
}

fn valid_smtp() -> SmtpConfig {
    SmtpConfig {
        server: Some("mail.com".to_string()),
        user: None,
        pass: None,
        from: Some("ci@example.com".to_string()),
        to: Some("ops@example.com".to_string()),
        subject: Some("[CI] ".to_string()),
    }
}

#[test]
fn with_status_replaces_only_the_status() {
    let job = sample_job();
    let updated = job.with_status(JobScope::Canceled);
    assert_eq!(updated.status, Some(JobScope::Canceled));
    let mut expected = job.clone();
    expected.status = Some(JobScope::Canceled);
    assert_eq!(updated, expected);
}

#[test]
fn job_text_names_id_and_project() {
    assert_eq!(sample_job().to_text(), "42 from project Alpha");
    assert_eq!(JobInfo::default().to_text(), "0 from project unknown");
}

#[test]
fn html_of_an_empty_record_is_exact() {
    let expected = "<ul>\
<li>Project name: <b>unknown</b></li>\
<li>Git tag: <b>unknown</b></li>\
<li>Branch: <b>unknown</b></li>\
<li>Source project id: <b>0</b></li>\
<li>Deploy project id: <b>0</b></li>\
<li>Deploy pipeline id: <b>0</b></li>\
<li>User mail: <b>unknown</b></li>\
<li>Job URL: <b>unknown</b></li>\
<li>Job id: <b>0</b></li>\
<li>Job status: <b>invalid</b></li>\
</ul>";
    assert_eq!(JobInfo::default().to_html(), expected);
}

#[test]
fn html_carries_every_field_and_colors_the_status() {
    let html = sample_job().to_html();
    assert!(html.contains("<li>Project name: <b>Alpha</b></li>"));
    assert!(html.contains("<li>Git tag: <b>v1</b></li>"));
    assert!(html.contains("<li>Branch: <b>main</b></li>"));
    assert!(html.contains("<li>Source project id: <b>9</b></li>"));
    assert!(html.contains("<li>Deploy project id: <b>100</b></li>"));
    assert!(html.contains("<li>Deploy pipeline id: <b>20</b></li>"));
    assert!(html.contains("<li>User mail: <b>dev@example.com</b></li>"));
    assert!(html.contains("<li>Job URL: <b>https://git.example/job/42</b></li>"));
    assert!(html.contains("<li>Job id: <b>42</b></li>"));
    assert!(html.contains("<li>Job status: <b><font color=\"green\">success</font></b></li>"));

    let mut failed = sample_job();
    failed.status = Some(JobScope::Failed);
    assert!(failed.to_html().contains("<font color=\"red\">failed</font>"));
    let mut canceled = sample_job();
    canceled.status = Some(JobScope::Canceled);
    assert!(canceled.to_html().contains("<font color=\"red\">canceled</font>"));
    let mut running = sample_job();
    running.status = Some(JobScope::Running);
    assert!(running.to_html().contains("<li>Job status: <b>running</b></li>"));
}

#[test]
fn subjects_follow_the_reason() {
    let job = sample_job();
    let smtp = valid_smtp();
    let cases = [
        (MailReason::Duplicated, "[CI] Job 42 from project Alpha canceled due to duplicated pipeline"),
        (MailReason::InvalidTag, "[CI] Job 42 from project Alpha canceled due to invalid git tag"),
        (MailReason::ErrorToCancel, "[CI] Error trying to cancel job 42 from project Alpha"),
        (MailReason::ErrorToPlay, "[CI] Error to start job 42 from project Alpha"),
        (MailReason::MaxWaitElapsed, "[CI] Max wait time elapsed for job 42 from project Alpha"),
        (
            MailReason::Status(JobScope::Success),
            "[CI] Status of job 42 from project Alpha: success",
        ),
    ];
    for (reason, expected) in cases {
        let content = mail_message(&job, &reason, &smtp).expect("valid smtp builds mail");
        assert_eq!(content.subject, expected);
    }
}

#[test]
fn mail_body_is_the_job_html() {
    let job = sample_job();
    let content = mail_message(&job, &MailReason::Duplicated, &valid_smtp()).unwrap();
    assert_eq!(content.body, job.to_html());
}

#[test]
fn recipients_append_the_job_mail_when_it_parses() {
    let job = sample_job();
    let content = mail_message(&job, &MailReason::Duplicated, &valid_smtp()).unwrap();
    assert_eq!(content.to, "ops@example.com, dev@example.com");

    // An unusable job address falls back to the configured list alone.
    let mut odd = sample_job();
    odd.user_mail = Some("not an address".to_string());
    let content = mail_message(&odd, &MailReason::Duplicated, &valid_smtp()).unwrap();
    assert_eq!(content.to, "ops@example.com");

    // No job address: the configured list alone.
    let mut plain = sample_job();
    plain.user_mail = None;
    let content = mail_message(&plain, &MailReason::Duplicated, &valid_smtp()).unwrap();
    assert_eq!(content.to, "ops@example.com");
}

#[test]
fn test_build_mail_message() {
    let message = r#"
This is a <b>test message</b>. :-)
"#;
    let mail_message = valid_smtp()
        .body_builder("Test subject".to_owned(), message.to_owned(), None)
        .expect("valid settings build a message");
    assert_eq!(mail_message.subject, "[CI] Test subject");
    assert_eq!(mail_message.body, message);
    assert_eq!(mail_message.to, "ops@example.com");
}

#[test]
fn invalid_smtp_settings_build_no_mail() {
    let job = sample_job();
    assert_eq!(mail_message(&job, &MailReason::Duplicated, &SmtpConfig::default()), None);
}
