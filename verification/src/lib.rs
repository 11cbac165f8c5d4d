//! Verified core of a GitLab manual-job runner.
//!
//! The library holds the logic that decides what happens to manual jobs:
//! pagination bookkeeping, assembly of job records from API responses, job
//! classification (duplicate pipelines, git-tag validation), the status-poll
//! state machine, configuration merging and report rendering. All network
//! and mail I/O lives outside, in thin unverified callers that feed plain
//! values in and carry actions out.

use vstd::prelude::*;

pub mod assemble;
pub mod config;
pub mod dispatch;
pub mod domain;
pub mod paging;
pub mod reconcile;
pub mod report;
pub mod text;

pub use config::{Config, SmtpConfig};
pub use domain::{GroupID, JobID, JobInfo, JobScope, MailReason, PipelineID, ProjectID};
pub use report::MailContent;

verus! {

/// How many requests the unverified callers keep in flight at once when
/// they fan out job-detail fetches, play/cancel actions and status polls.
pub const STREAM_BUFF_SIZE: usize = 15;

/// Handle for a GitLab scan: carries the configuration from which the
/// unverified HTTP caller reads the base URL and the token, and the
/// verified logic reads the tag key and the waiting budget.
pub struct GitlabJOB {
    pub config: Config,
}

impl GitlabJOB {
    /// A handle on a copy of the given configuration.
    pub fn new(config: &Config) -> (r: Self)
        ensures
            r.config == *config,
    {
        GitlabJOB { config: config.clone() }
    }
}

} // verus!
