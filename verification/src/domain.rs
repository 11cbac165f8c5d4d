//! The domain data the library works over: typed identifiers, the job
//! lifecycle state, and the aggregate record describing one discovered job.
//!
//! Each id wraps an unsigned 64-bit integer and is scoped to one entity
//! kind, so a project id can never be passed where a job id is expected.

use crate::text::{eq_ignore_case, lower_code, str_eq_ignore_case};
use vstd::prelude::*;

verus! {

/// Identifier of a GitLab group.
#[derive(Debug, Clone, Copy, PartialEq, Eq, Structural)]
pub struct GroupID(pub u64);

/// Identifier of a GitLab project.
#[derive(Debug, Clone, Copy, PartialEq, Eq, Hash, Structural)]
pub struct ProjectID(pub u64);

/// Identifier of a single CI job within a project.
#[derive(Debug, Clone, Copy, PartialEq, Eq, Hash, Structural)]
pub struct JobID(pub u64);

/// Identifier of a pipeline; ids grow monotonically, so a larger id means a
/// more recent pipeline.
#[derive(Debug, Clone, Copy, PartialEq, Eq, Hash, PartialOrd, Ord, Structural)]
pub struct PipelineID(pub u64);

/// The lifecycle states a GitLab job can be in. `Invalid` is the sentinel
/// for a status word this library does not recognize.
#[derive(Debug, Clone, Copy, Hash, PartialEq, Eq, Structural)]
pub enum JobScope {
    Created,
    Pending,
    Running,
    Failed,
    Success,
    Canceled,
    Skipped,
    WaitingForResource,
    Manual,
    Invalid,
}

/// The lowercase snake-case word GitLab uses on the wire for each state.
pub open spec fn scope_name(s: JobScope) -> Seq<char> {
    match s {
        JobScope::Created => "created"@,
        JobScope::Pending => "pending"@,
        JobScope::Running => "running"@,
        JobScope::Failed => "failed"@,
        JobScope::Success => "success"@,
        JobScope::Canceled => "canceled"@,
        JobScope::Skipped => "skipped"@,
        JobScope::WaitingForResource => "waiting_for_resource"@,
        JobScope::Manual => "manual"@,
        JobScope::Invalid => "invalid"@,
    }
}

/// The state a status word names, compared ignoring ASCII case; anything
/// unrecognized is `Invalid`.
pub open spec fn scope_of_chars(s: Seq<char>) -> JobScope {
    if eq_ignore_case(s, "created"@) {
        JobScope::Created
    } else if eq_ignore_case(s, "pending"@) {
        JobScope::Pending
    } else if eq_ignore_case(s, "running"@) {
        JobScope::Running
    } else if eq_ignore_case(s, "failed"@) {
        JobScope::Failed
    } else if eq_ignore_case(s, "success"@) {
        JobScope::Success
    } else if eq_ignore_case(s, "canceled"@) {
        JobScope::Canceled
    } else if eq_ignore_case(s, "skipped"@) {
        JobScope::Skipped
    } else if eq_ignore_case(s, "waiting_for_resource"@) {
        JobScope::WaitingForResource
    } else if eq_ignore_case(s, "manual"@) {
        JobScope::Manual
    } else {
        JobScope::Invalid
    }
}

impl JobScope {
    /// The wire word for this state.
    pub fn to_str(&self) -> (r: &'static str)
        ensures
            r@ == scope_name(*self),
    {
        match self {
            JobScope::Created => "created",
            JobScope::Pending => "pending",
            JobScope::Running => "running",
            JobScope::Failed => "failed",
            JobScope::Success => "success",
            JobScope::Canceled => "canceled",
            JobScope::Skipped => "skipped",
            JobScope::WaitingForResource => "waiting_for_resource",
            JobScope::Manual => "manual",
            JobScope::Invalid => "invalid",
        }
    }

    /// Parses a status word; unrecognized input becomes `Invalid`, never an
    /// error.
    pub fn from_str_scope(s: &str) -> (r: JobScope)
        ensures
            r == scope_of_chars(s@),
    {
        if str_eq_ignore_case(s, "created") {
            JobScope::Created
        } else if str_eq_ignore_case(s, "pending") {
            JobScope::Pending
        } else if str_eq_ignore_case(s, "running") {
            JobScope::Running
        } else if str_eq_ignore_case(s, "failed") {
            JobScope::Failed
        } else if str_eq_ignore_case(s, "success") {
            JobScope::Success
        } else if str_eq_ignore_case(s, "canceled") {
            JobScope::Canceled
        } else if str_eq_ignore_case(s, "skipped") {
            JobScope::Skipped
        } else if str_eq_ignore_case(s, "waiting_for_resource") {
            JobScope::WaitingForResource
        } else if str_eq_ignore_case(s, "manual") {
            JobScope::Manual
        } else {
            JobScope::Invalid
        }
    }
}

impl From<String> for JobScope {
    /// Parses a status word, as it arrives from the wire.
    fn from(value: String) -> (r: JobScope) {
        JobScope::from_str_scope(value.as_str())
    }
}

impl vstd::std_specs::convert::FromSpecImpl<String> for JobScope {
    open spec fn obeys_from_spec() -> bool {
        true
    }

    open spec fn from_spec(v: String) -> JobScope {
        scope_of_chars(v@)
    }
}

/// Every defined state other than `Invalid` survives the round trip through
/// its wire word: printing the state and parsing the word gives the state
/// back.
pub proof fn lemma_scope_round_trip(s: JobScope)
    requires
        s != JobScope::Invalid,
    ensures
        scope_of_chars(scope_name(s)) == s,
{
    reveal_strlit("created");
    reveal_strlit("pending");
    reveal_strlit("running");
    reveal_strlit("failed");
    reveal_strlit("success");
    reveal_strlit("canceled");
    reveal_strlit("skipped");
    reveal_strlit("waiting_for_resource");
    reveal_strlit("manual");
    reveal_strlit("invalid");
    // For names of equal length, point at one differing character so the
    // earlier branches of `scope_of_chars` are ruled out.
    match s {
        JobScope::Pending => {
            assert(lower_code("pending"@[0]) != lower_code("created"@[0]));
        },
        JobScope::Running => {
            assert(lower_code("running"@[0]) != lower_code("created"@[0]));
            assert(lower_code("running"@[0]) != lower_code("pending"@[0]));
        },
        JobScope::Success => {
            assert(lower_code("success"@[0]) != lower_code("created"@[0]));
            assert(lower_code("success"@[0]) != lower_code("pending"@[0]));
            assert(lower_code("success"@[0]) != lower_code("running"@[0]));
        },
        JobScope::Skipped => {
            assert(lower_code("skipped"@[0]) != lower_code("created"@[0]));
            assert(lower_code("skipped"@[0]) != lower_code("pending"@[0]));
            assert(lower_code("skipped"@[0]) != lower_code("running"@[0]));
            assert(lower_code("skipped"@[1]) != lower_code("success"@[1]));
        },
        JobScope::Manual => {
            assert(lower_code("manual"@[0]) != lower_code("failed"@[0]));
        },
        _ => {},
    }
}

/// Why a job is reported: the classification that canceled it, the failure
/// of an action on it, the end of the waiting budget, or the terminal
/// status it reached.
#[derive(Debug, Clone, Copy, PartialEq, Eq, Structural)]
pub enum MailReason {
    Duplicated,
    InvalidTag,
    ErrorToCancel,
    ErrorToPlay,
    MaxWaitElapsed,
    Status(JobScope),
}

/// The aggregate record for one GitLab job as discovered by a retrieval
/// pass. Fields the server did not provide stay `None`.
#[derive(Debug, Hash, PartialEq, Eq)]
pub struct JobInfo {
    pub id: Option<u64>,
    pub status: Option<JobScope>,
    pub url: Option<String>,
    pub proj_name: Option<String>,
    pub proj_id: Option<u64>,
    pub pipeline_id: Option<u64>,
    pub source_id: Option<u64>,
    pub user_mail: Option<String>,
    pub branch: Option<String>,
    pub git_tag: Option<String>,
}

impl Default for JobInfo {
    /// A record with every field unset.
    fn default() -> (r: Self)
        ensures
            r.id is None,
            r.status is None,
            r.url is None,
            r.proj_name is None,
            r.proj_id is None,
            r.pipeline_id is None,
            r.source_id is None,
            r.user_mail is None,
            r.branch is None,
            r.git_tag is None,
    {
        JobInfo {
            id: None,
            status: None,
            url: None,
            proj_name: None,
            proj_id: None,
            pipeline_id: None,
            source_id: None,
            user_mail: None,
            branch: None,
            git_tag: None,
        }
    }
}

impl JobInfo {
    /// The same record with its status replaced: how a fresher observation
    /// of a job, or the invalid sentinel of a failed action on it, is
    /// recorded without touching what retrieval found.
    pub fn with_status(&self, status: JobScope) -> (r: JobInfo)
        ensures
            r == (JobInfo { status: Some(status), ..*self }),
    {
        let mut r = self.clone();
        r.status = Some(status);
        r
    }
}

impl Clone for JobInfo {
    /// An exact copy of the record.
    fn clone(&self) -> (r: Self)
        ensures
            r == *self,
    {
        JobInfo {
            id: self.id,
            status: self.status,
            url: self.url.clone(),
            proj_name: self.proj_name.clone(),
            proj_id: self.proj_id,
            pipeline_id: self.pipeline_id,
            source_id: self.source_id,
            user_mail: self.user_mail.clone(),
            branch: self.branch.clone(),
            git_tag: self.git_tag.clone(),
        }
    }
}

} // verus!
