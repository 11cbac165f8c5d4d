//! Building a `JobInfo` record out of the plain values three API calls
//! return: the job detail, the project detail, and the pipeline's trigger
//! variables.
//!
//! The precedence rules live here: a trigger variable wins over the commit
//! metadata for the notification mail, the deploy tag and the branch, and
//! the configured tag key decides where the deploy tag is read from. The
//! unverified caller only parses JSON into the plain fields of `JobRaw`.

use crate::domain::{JobID, JobInfo, JobScope, ProjectID};
use crate::text::spec_parse_u64;
use vstd::prelude::*;

verus! {

/// One pipeline trigger variable.
#[derive(Debug)]
pub struct VarEntry {
    pub key: String,
    pub value: String,
}

/// The trigger variables of a pipeline. A variable set again later in the
/// scan replaces its earlier value, as the pages of the variable listing
/// are accumulated in order.
#[derive(Debug)]
pub struct VarTable {
    pub entries: Vec<VarEntry>,
}

/// The value recorded for `key`: the value of the latest entry that names
/// it.
pub open spec fn var_lookup(entries: Seq<VarEntry>, key: Seq<char>) -> Option<Seq<char>>
    decreases entries.len(),
{
    if entries.len() == 0 {
        None
    } else if entries.last().key@ == key {
        Some(entries.last().value@)
    } else {
        var_lookup(entries.drop_last(), key)
    }
}

impl VarTable {
    /// An empty variable table.
    pub fn new() -> (r: Self)
        ensures
            forall|k: Seq<char>| var_lookup(r.entries@, k) is None,
    {
        let r = VarTable { entries: Vec::new() };
        proof {
            assert forall|k: Seq<char>| var_lookup(r.entries@, k) is None by {
                assert(r.entries@.len() == 0);
            }
        }
        r
    }

    /// Records a variable, replacing any earlier value of the same key.
    pub fn insert(&mut self, key: String, value: String)
        ensures
            forall|k: Seq<char>| #[trigger]
                var_lookup(final(self).entries@, k) == if k == key@ {
                    Some(value@)
                } else {
                    var_lookup(old(self).entries@, k)
                },
    {
        let ghost pre = self.entries@;
        self.entries.push(VarEntry { key, value });
        proof {
            assert(self.entries@.drop_last() =~= pre);
        }
    }

    /// The value recorded for `key`, if any.
    pub fn get(&self, key: &String) -> (r: Option<&String>)
        ensures
            match r {
                Some(v) => var_lookup(self.entries@, key@) == Some(v@),
                None => var_lookup(self.entries@, key@) is None,
            },
    {
        let n = self.entries.len();
        let mut i: usize = n;
        proof {
            assert(self.entries@.subrange(0, n as int) =~= self.entries@);
        }
        while i > 0
            invariant
                n == self.entries@.len(),
                i <= n,
                var_lookup(self.entries@, key@) == var_lookup(
                    self.entries@.subrange(0, i as int),
                    key@,
                ),
            decreases i,
        {
            proof {
                assert(self.entries@.subrange(0, i as int).last() == self.entries@[i - 1]);
                assert(self.entries@.subrange(0, i as int).drop_last() =~= self.entries@.subrange(
                    0,
                    i - 1,
                ));
            }
            if self.entries[i - 1].key.eq(key) {
                return Some(&self.entries[i - 1].value);
            }
            i = i - 1;
        }
        None
    }
}

/// The plain values the unverified caller extracts from the job-detail
/// response. A field the response did not carry stays `None`; the commit
/// reference is the empty string when the commit carried a non-textual
/// one.
#[derive(Debug)]
pub struct JobRaw {
    /// The job's status word.
    pub status: Option<String>,
    /// The job's web URL.
    pub web_url: Option<String>,
    /// Whether the response carried a pipeline object at all.
    pub has_pipeline: bool,
    /// The pipeline's id, when the pipeline object carried a numeric one.
    pub pipeline_id: Option<u64>,
    /// The committer email of the job's commit.
    pub commit_mail: Option<String>,
    /// The reference name recorded on the job's commit.
    pub commit_ref: Option<String>,
    /// The job's own ref (branch).
    pub job_ref: Option<String>,
}

/// Merges the three responses for one job into its record.
///
/// The id fields always come from the request itself. Status, URL and
/// project name are taken as delivered. The remaining fields exist only
/// when the job has a pipeline, and each prefers a trigger variable over
/// the commit metadata: the mail from `trigger_email`, the branch from
/// `ref_source`, the source project from `source_id` (read as a decimal
/// number, zero when unreadable), and the deploy tag from the configured
/// `production_tag_key` — or, when no key is configured, from the commit's
/// reference name.
pub fn assemble_job_info(
    proj: ProjectID,
    job: JobID,
    raw: JobRaw,
    proj_name: Option<String>,
    vars: &VarTable,
    production_tag_key: &Option<String>,
) -> (r: JobInfo)
    ensures
        r.id == Some(job.0),
        r.proj_id == Some(proj.0),
        r.status == match raw.status {
            Some(s) => Some(crate::domain::scope_of_chars(s@)),
            None => None::<JobScope>,
        },
        r.url == raw.web_url,
        r.proj_name == proj_name,
        r.pipeline_id == if raw.has_pipeline {
            raw.pipeline_id
        } else {
            None::<u64>
        },
        raw.has_pipeline ==> match var_lookup(vars.entries@, "trigger_email"@) {
            Some(m) => r.user_mail is Some && r.user_mail->0@ == m,
            None => r.user_mail == raw.commit_mail,
        },
        raw.has_pipeline ==> match var_lookup(vars.entries@, "ref_source"@) {
            Some(b) => r.branch is Some && r.branch->0@ == b,
            None => r.branch == raw.job_ref,
        },
        raw.has_pipeline ==> match *production_tag_key {
            Some(key) => match var_lookup(vars.entries@, key@) {
                Some(t) => r.git_tag is Some && r.git_tag->0@ == t,
                None => r.git_tag is None,
            },
            None => r.git_tag == raw.commit_ref,
        },
        raw.has_pipeline ==> r.source_id == match var_lookup(vars.entries@, "source_id"@) {
            Some(v) => Some(
                match spec_parse_u64(v) {
                    Some(x) => x,
                    None => 0u64,
                },
            ),
            None => None::<u64>,
        },
        !raw.has_pipeline ==> r.user_mail is None && r.branch is None && r.git_tag is None
            && r.source_id is None,
{
    let status = match raw.status {
        Some(s) => Some(JobScope::from(s)),
        None => None,
    };
    let mut info = JobInfo {
        id: Some(job.0),
        proj_id: Some(proj.0),
        status,
        url: raw.web_url,
        proj_name,
        pipeline_id: None,
        source_id: None,
        user_mail: None,
        branch: None,
        git_tag: None,
    };
    if raw.has_pipeline {
        info.pipeline_id = raw.pipeline_id;
        info.user_mail = match vars.get(&String::from_str("trigger_email")) {
            Some(m) => Some(m.clone()),
            None => raw.commit_mail,
        };
        info.branch = match vars.get(&String::from_str("ref_source")) {
            Some(b) => Some(b.clone()),
            None => raw.job_ref,
        };
        info.git_tag = match production_tag_key {
            Some(key) => match vars.get(key) {
                Some(t) => Some(t.clone()),
                None => None,
            },
            None => raw.commit_ref,
        };
        info.source_id = match vars.get(&String::from_str("source_id")) {
            Some(v) => Some(
                match crate::text::parse_u64_digits(v.as_str()) {
                    Some(x) => x,
                    None => 0,
                },
            ),
            None => None,
        };
    }
    info
}

} // verus!
