//! Report rendering: the job's display line, its HTML fragment, and the
//! mail content built for each reported job.
//!
//! The mail itself is sent by an unverified caller through the mail crate;
//! what it sends — subject, HTML body and recipient list — is assembled
//! and pinned down here.

use crate::config::{mailbox_list_valid, smtp_config_valid, SmtpConfig};
use crate::domain::{scope_name, JobInfo, JobScope, MailReason};
use crate::text::{dec_digits, u64_to_dec};
use vstd::prelude::*;

verus! {

/// The text of an optional field, with "unknown" standing in for an
/// absent value.
pub open spec fn or_unknown(s: Option<String>) -> Seq<char> {
    match s {
        Some(v) => v@,
        None => "unknown"@,
    }
}

/// The text of an optional field, with "unknown" standing in for an
/// absent value.
fn or_unknown_str<'a>(s: &'a Option<String>) -> (r: &'a str)
    ensures
        r@ == or_unknown(*s),
{
    match s {
        Some(v) => v.as_str(),
        None => "unknown",
    }
}

/// An optional number, read as zero when absent.
pub open spec fn or_zero(v: Option<u64>) -> u64 {
    match v {
        Some(x) => x,
        None => 0u64,
    }
}

/// The job's display line: its id and the name of its project.
pub open spec fn job_text(j: JobInfo) -> Seq<char> {
    dec_digits(or_zero(j.id) as nat) + " from project "@ + or_unknown(j.proj_name)
}

/// The status word shown in the report, color-coded: red for a failed or
/// canceled job, green for a successful one.
pub open spec fn status_html(s: Option<JobScope>) -> Seq<char> {
    match s {
        Some(JobScope::Failed) => "<font color=\"red\">failed</font>"@,
        Some(JobScope::Success) => "<font color=\"green\">success</font>"@,
        Some(JobScope::Canceled) => "<font color=\"red\">canceled</font>"@,
        Some(other) => scope_name(other),
        None => "invalid"@,
    }
}

/// One line of the HTML fragment.
pub open spec fn html_row(label: Seq<char>, value: Seq<char>) -> Seq<char> {
    "<li>"@ + label + ": <b>"@ + value + "</b></li>"@
}

/// The fixed-field HTML fragment describing a job: its project, tag,
/// branch, ids, mail, URL and color-coded status.
pub open spec fn html_of(j: JobInfo) -> Seq<char> {
    "<ul>"@ + html_row("Project name"@, or_unknown(j.proj_name)) + html_row(
        "Git tag"@,
        or_unknown(j.git_tag),
    ) + html_row("Branch"@, or_unknown(j.branch)) + html_row(
        "Source project id"@,
        dec_digits(or_zero(j.source_id) as nat),
    ) + html_row("Deploy project id"@, dec_digits(or_zero(j.proj_id) as nat)) + html_row(
        "Deploy pipeline id"@,
        dec_digits(or_zero(j.pipeline_id) as nat),
    ) + html_row("User mail"@, or_unknown(j.user_mail)) + html_row("Job URL"@, or_unknown(j.url))
        + html_row("Job id"@, dec_digits(or_zero(j.id) as nat)) + html_row(
        "Job status"@,
        status_html(j.status),
    ) + "</ul>"@
}

/// Appends one line of the HTML fragment.
fn append_row(s: &mut String, label: &str, value: &str)
    ensures
        final(s)@ == old(s)@ + html_row(label@, value@),
{
    s.append("<li>");
    s.append(label);
    s.append(": <b>");
    s.append(value);
    s.append("</b></li>");
    proof {
        assert(s@ =~= old(s)@ + html_row(label@, value@));
    }
}

/// An optional number, read as zero when absent.
fn or_zero_val(v: &Option<u64>) -> (r: u64)
    ensures
        r == or_zero(*v),
{
    match v {
        Some(x) => *x,
        None => 0,
    }
}

impl JobInfo {
    /// The job's display line: its id and the name of its project.
    pub fn to_text(&self) -> (r: String)
        ensures
            r@ == job_text(*self),
    {
        let mut s = u64_to_dec(or_zero_val(&self.id));
        s.append(" from project ");
        s.append(or_unknown_str(&self.proj_name));
        proof {
            assert(s@ =~= job_text(*self));
        }
        s
    }

    /// The fixed-field HTML fragment describing this job.
    pub fn to_html(&self) -> (r: String)
        ensures
            r@ == html_of(*self),
    {
        let mut s = String::new();
        s.append("<ul>");
        append_row(&mut s, "Project name", or_unknown_str(&self.proj_name));
        append_row(&mut s, "Git tag", or_unknown_str(&self.git_tag));
        append_row(&mut s, "Branch", or_unknown_str(&self.branch));
        let source_id = u64_to_dec(or_zero_val(&self.source_id));
        append_row(&mut s, "Source project id", source_id.as_str());
        let proj_id = u64_to_dec(or_zero_val(&self.proj_id));
        append_row(&mut s, "Deploy project id", proj_id.as_str());
        let pipeline_id = u64_to_dec(or_zero_val(&self.pipeline_id));
        append_row(&mut s, "Deploy pipeline id", pipeline_id.as_str());
        append_row(&mut s, "User mail", or_unknown_str(&self.user_mail));
        append_row(&mut s, "Job URL", or_unknown_str(&self.url));
        let id = u64_to_dec(or_zero_val(&self.id));
        append_row(&mut s, "Job id", id.as_str());
        let status = match &self.status {
            Some(JobScope::Failed) => "<font color=\"red\">failed</font>",
            Some(JobScope::Success) => "<font color=\"green\">success</font>",
            Some(JobScope::Canceled) => "<font color=\"red\">canceled</font>",
            Some(other) => other.to_str(),
            None => "invalid",
        };
        proof {
            assert(status@ == status_html(self.status));
        }
        append_row(&mut s, "Job status", status);
        s.append("</ul>");
        proof {
            assert(s@ =~= html_of(*self));
        }
        s
    }
}

/// The subject line for a report about `j` sent for `reason`.
pub open spec fn subject_of(j: JobInfo, reason: MailReason) -> Seq<char> {
    match reason {
        MailReason::Duplicated => "Job "@ + job_text(j) + " canceled due to duplicated pipeline"@,
        MailReason::InvalidTag => "Job "@ + job_text(j) + " canceled due to invalid git tag"@,
        MailReason::ErrorToCancel => "Error trying to cancel job "@ + job_text(j),
        MailReason::ErrorToPlay => "Error to start job "@ + job_text(j),
        MailReason::MaxWaitElapsed => "Max wait time elapsed for job "@ + job_text(j),
        MailReason::Status(s) => "Status of job "@ + job_text(j) + ": "@ + scope_name(s),
    }
}

/// The subject line for a report about `job` sent for `reason`.
pub fn mail_subject(job: &JobInfo, reason: &MailReason) -> (r: String)
    ensures
        r@ == subject_of(*job, *reason),
{
    let text = job.to_text();
    let mut s: String;
    match reason {
        MailReason::Duplicated => {
            s = String::from_str("Job ");
            s.append(text.as_str());
            s.append(" canceled due to duplicated pipeline");
        },
        MailReason::InvalidTag => {
            s = String::from_str("Job ");
            s.append(text.as_str());
            s.append(" canceled due to invalid git tag");
        },
        MailReason::ErrorToCancel => {
            s = String::from_str("Error trying to cancel job ");
            s.append(text.as_str());
        },
        MailReason::ErrorToPlay => {
            s = String::from_str("Error to start job ");
            s.append(text.as_str());
        },
        MailReason::MaxWaitElapsed => {
            s = String::from_str("Max wait time elapsed for job ");
            s.append(text.as_str());
        },
        MailReason::Status(status) => {
            s = String::from_str("Status of job ");
            s.append(text.as_str());
            s.append(": ");
            s.append(status.to_str());
        },
    }
    proof {
        assert(s@ =~= subject_of(*job, *reason));
    }
    s
}

/// A report mail, ready for an unverified mail transport to wrap and
/// send: the full subject, the HTML body, and the recipient list.
#[derive(Debug, PartialEq)]
pub struct MailContent {
    pub subject: String,
    pub body: String,
    pub to: String,
}

/// The recipient list: the configured base list, with the job's own
/// address appended when that still parses as a mailbox list — otherwise
/// the base list alone.
pub open spec fn recipients_of(to: Seq<char>, destination: Option<String>) -> Seq<char> {
    match destination {
        Some(d) => if mailbox_list_valid(to + ", "@ + d@) {
            to + ", "@ + d@
        } else {
            to
        },
        None => to,
    }
}

impl SmtpConfig {
    /// Builds the content of one report mail: the configured subject
    /// prefix followed by the given subject, the message as body, and the
    /// configured recipients with `destination` appended when the result
    /// still parses. Yields nothing when the settings are not complete
    /// enough to send mail.
    pub fn body_builder(&self, subject: String, message: String, destination: Option<String>) -> (r:
        Option<MailContent>)
        ensures
            r is Some <==> smtp_config_valid(*self),
            r is Some ==> r->0.subject@ == self.subject->0@ + subject@,
            r is Some ==> r->0.body == message,
            r is Some ==> r->0.to@ == recipients_of(self.to->0@, destination),
    {
        if !self.is_valid() {
            return None;
        }
        let mut full_subject = match &self.subject {
            Some(prefix) => prefix.clone(),
            None => String::new(),
        };
        full_subject.append(subject.as_str());
        let to = match &self.to {
            Some(t) => t.clone(),
            None => String::new(),
        };
        let recipients = match destination {
            Some(dest) => {
                let mut joined = to.clone();
                joined.append(", ");
                joined.append(dest.as_str());
                if crate::config::parse_mailboxes_ok(joined.as_str()) {
                    joined
                } else {
                    to
                }
            },
            None => to,
        };
        Some(MailContent { subject: full_subject, body: message, to: recipients })
    }
}

/// The content of the report mail for one job: the subject derived from
/// the reason and the job's display line, the job's HTML rendering as
/// body, and the job's own mail appended to the configured recipients.
/// Yields nothing when the SMTP settings cannot send mail.
pub fn mail_message(job: &JobInfo, reason: &MailReason, builder: &SmtpConfig) -> (r: Option<
    MailContent,
>)
    ensures
        r is Some <==> smtp_config_valid(*builder),
        r is Some ==> r->0.subject@ == builder.subject->0@ + subject_of(*job, *reason),
        r is Some ==> r->0.body@ == html_of(*job),
        r is Some ==> r->0.to@ == recipients_of(builder.to->0@, job.user_mail),
{
    let subject = mail_subject(job, reason);
    let html = job.to_html();
    let destination = job.user_mail.clone();
    proof {
        assert(destination == job.user_mail);
    }
    builder.body_builder(subject, html, destination)
}

} // verus!
