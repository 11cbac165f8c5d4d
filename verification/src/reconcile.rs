//! The reconciliation engine: decides, for every retrieved manual job,
//! whether it is played or canceled, and why.
//!
//! Two rules drive the decision. Only the newest pipeline of a project may
//! proceed, so every job on an older pipeline is canceled as duplicated.
//! A job that carries a git tag must name a tag that exists in its source
//! project (or, without a source, in its own project); otherwise it is
//! canceled for an invalid tag. Everything else is played.
//!
//! The engine is a pure function of the job table and a table of
//! pre-fetched git tags; the unverified caller gathers both over HTTP and
//! carries the verdicts out.

use crate::domain::{JobInfo, MailReason, PipelineID, ProjectID};
use vstd::prelude::*;

verus! {

/// The manual jobs found for one project.
#[derive(Debug)]
pub struct ProjectJobs {
    pub project: ProjectID,
    pub jobs: Vec<JobInfo>,
}

/// Whether every job of the group knows its pipeline, as retrieval
/// guarantees for jobs read off a pipeline listing.
pub open spec fn group_has_pipelines(g: ProjectJobs) -> bool {
    forall|j: int| 0 <= j < g.jobs@.len() ==> g.jobs@[j].pipeline_id is Some
}

/// Whether every job of every group knows its pipeline.
pub open spec fn all_have_pipelines(groups: Seq<ProjectJobs>) -> bool {
    forall|i: int| 0 <= i < groups.len() ==> group_has_pipelines(#[trigger] groups[i])
}

/// The largest pipeline id among the group's jobs: the most recent
/// pipeline, since ids grow monotonically.
pub open spec fn max_pipeline(jobs: Seq<JobInfo>) -> u64
    recommends
        jobs.len() > 0,
    decreases jobs.len(),
{
    if jobs.len() <= 1 {
        jobs[0].pipeline_id->0
    } else {
        let rest = max_pipeline(jobs.drop_last());
        let last = jobs.last().pipeline_id->0;
        if last > rest {
            last
        } else {
            rest
        }
    }
}

/// Whether some job of the group sits on pipeline `p`.
pub open spec fn pipeline_in_group(g: ProjectJobs, p: u64) -> bool {
    exists|j: int| 0 <= j < g.jobs@.len() && g.jobs@[j].pipeline_id == Some(p)
}

/// The pipelines of one project that must not run.
#[derive(Debug)]
pub struct CancelGroup {
    pub project: ProjectID,
    pub pipelines: Vec<PipelineID>,
}

/// The pipelines of the jobs that sit off pipeline `m`, one entry per such
/// job, in the jobs' own order.
pub open spec fn pipelines_off_max(jobs: Seq<JobInfo>, m: u64) -> Seq<PipelineID>
    decreases jobs.len(),
{
    if jobs.len() == 0 {
        Seq::empty()
    } else {
        pipelines_off_max(jobs.drop_last(), m) + if jobs.last().pipeline_id->0 != m {
            seq![PipelineID(jobs.last().pipeline_id->0)]
        } else {
            Seq::empty()
        }
    }
}

/// The cancel list for a group is right when it holds exactly the group's
/// pipelines other than the newest: every listed pipeline occurs in the
/// group and is not the newest, and every job on an older pipeline finds
/// its pipeline listed.
pub open spec fn cancel_list_ok(g: ProjectJobs, c: CancelGroup) -> bool {
    &&& forall|k: int|
        0 <= k < c.pipelines@.len() ==> pipeline_in_group(g, (#[trigger] c.pipelines@[k]).0)
            && c.pipelines@[k].0 != max_pipeline(g.jobs@)
    &&& forall|j: int|
        0 <= j < g.jobs@.len() && (#[trigger] g.jobs@[j]).pipeline_id->0 != max_pipeline(g.jobs@)
            ==> c.pipelines@.contains(PipelineID(g.jobs@[j].pipeline_id->0))
}

/// The largest pipeline id among the group's jobs.
fn max_pipeline_of(jobs: &Vec<JobInfo>) -> (m: u64)
    requires
        jobs@.len() > 0,
        forall|j: int| 0 <= j < jobs@.len() ==> (#[trigger] jobs@[j]).pipeline_id is Some,
    ensures
        m == max_pipeline(jobs@),
{
    let mut m: u64 = match jobs[0].pipeline_id {
        Some(p) => p,
        None => 0,
    };
    proof {
        assert(jobs@.subrange(0, 1) =~= seq![jobs@[0]]);
        assert(max_pipeline(jobs@.subrange(0, 1)) == jobs@[0].pipeline_id->0);
    }
    let mut i: usize = 1;
    let n = jobs.len();
    while i < n
        invariant
            n == jobs@.len(),
            1 <= i <= n,
            forall|j: int| 0 <= j < jobs@.len() ==> (#[trigger] jobs@[j]).pipeline_id is Some,
            m == max_pipeline(jobs@.subrange(0, i as int)),
        decreases n - i,
    {
        let p = match jobs[i].pipeline_id {
            Some(p) => p,
            None => 0,
        };
        proof {
            assert(jobs@.subrange(0, i + 1).drop_last() =~= jobs@.subrange(0, i as int));
            assert(jobs@.subrange(0, i + 1).last() == jobs@[i as int]);
        }
        if p > m {
            m = p;
        }
        i = i + 1;
    }
    proof {
        assert(jobs@.subrange(0, n as int) =~= jobs@);
    }
    m
}

/// Whether `v` lists the pipeline `p`.
fn contains_pipeline(v: &Vec<PipelineID>, p: u64) -> (r: bool)
    ensures
        r == v@.contains(PipelineID(p)),
{
    let mut i: usize = 0;
    let n = v.len();
    while i < n
        invariant
            n == v@.len(),
            i <= n,
            forall|j: int| 0 <= j < i ==> v@[j] != PipelineID(p),
        decreases n - i,
    {
        if v[i].0 == p {
            return true;
        }
        i = i + 1;
    }
    false
}

/// For each project, the pipelines that duplicate newer work: all the
/// pipelines its manual jobs sit on except the single newest one. A project
/// with a single pipeline has nothing to cancel. The list for a group
/// holds one entry per superseded job, in the jobs' own order.
pub fn pipelines_tocancel(jobs: &Vec<ProjectJobs>) -> (r: Vec<CancelGroup>)
    requires
        all_have_pipelines(jobs@),
    ensures
        r@.len() == jobs@.len(),
        forall|i: int| 0 <= i < r@.len() ==> (#[trigger] r@[i]).project == jobs@[i].project,
        forall|i: int| 0 <= i < r@.len() ==> cancel_list_ok(jobs@[i], #[trigger] r@[i]),
        forall|i: int|
            0 <= i < r@.len() ==> (#[trigger] r@[i]).pipelines@ == pipelines_off_max(
                jobs@[i].jobs@,
                max_pipeline(jobs@[i].jobs@),
            ),
{
    let mut r: Vec<CancelGroup> = Vec::new();
    let count = jobs.len();
    let mut i: usize = 0;
    while i < count
        invariant
            count == jobs@.len(),
            i <= count,
            all_have_pipelines(jobs@),
            r@.len() == i,
            forall|k: int| 0 <= k < i ==> (#[trigger] r@[k]).project == jobs@[k].project,
            forall|k: int| 0 <= k < i ==> cancel_list_ok(jobs@[k], #[trigger] r@[k]),
            forall|k: int|
                0 <= k < i ==> (#[trigger] r@[k]).pipelines@ == pipelines_off_max(
                    jobs@[k].jobs@,
                    max_pipeline(jobs@[k].jobs@),
                ),
        decreases count - i,
    {
        let group = &jobs[i];
        let mut pipelines: Vec<PipelineID> = Vec::new();
        if group.jobs.len() > 0 {
            proof {
                assert(group_has_pipelines(jobs@[i as int]));
            }
            let m = max_pipeline_of(&group.jobs);
            let n = group.jobs.len();
            let mut j: usize = 0;
            while j < n
                invariant
                    n == group.jobs@.len(),
                    j <= n,
                    group_has_pipelines(*group),
                    m == max_pipeline(group.jobs@),
                    pipelines@ =~= pipelines_off_max(group.jobs@.subrange(0, j as int), m),
                    forall|k: int|
                        0 <= k < pipelines@.len() ==> pipeline_in_group(
                            *group,
                            (#[trigger] pipelines@[k]).0,
                        ) && pipelines@[k].0 != m,
                    forall|b: int|
                        0 <= b < j && (#[trigger] group.jobs@[b]).pipeline_id->0 != m
                            ==> pipelines@.contains(PipelineID(group.jobs@[b].pipeline_id->0)),
                decreases n - j,
            {
                let p = match group.jobs[j].pipeline_id {
                    Some(p) => p,
                    None => 0,
                };
                proof {
                    assert(group.jobs@.subrange(0, j + 1).drop_last() =~= group.jobs@.subrange(
                        0,
                        j as int,
                    ));
                    assert(group.jobs@.subrange(0, j + 1).last() == group.jobs@[j as int]);
                }
                if p != m {
                    let ghost before = pipelines@;
                    pipelines.push(PipelineID(p));
                    proof {
                        assert(pipelines@[before.len() as int] == PipelineID(p));
                        assert(pipeline_in_group(*group, p));
                        assert(pipelines@ =~= before + seq![PipelineID(p)]);
                        assert forall|b: int|
                            0 <= b < j + 1 && (#[trigger] group.jobs@[b]).pipeline_id->0
                                != m implies pipelines@.contains(
                            PipelineID(group.jobs@[b].pipeline_id->0),
                        ) by {
                            if b < j {
                                let q = group.jobs@[b].pipeline_id->0;
                                let k = choose|k: int|
                                    0 <= k < before.len() && before[k] == PipelineID(q);
                                assert(pipelines@[k] == PipelineID(q));
                            }
                        }
                    }
                } else {
                    proof {
                        assert(pipelines@ =~= pipelines@ + Seq::<PipelineID>::empty());
                    }
                }
                j = j + 1;
            }
            proof {
                assert(group.jobs@.subrange(0, n as int) =~= group.jobs@);
            }
        }
        r.push(CancelGroup { project: group.project, pipelines });
        i = i + 1;
    }
    r
}

/// The git tags fetched for one project.
#[derive(Debug)]
pub struct TagList {
    pub project: u64,
    pub tags: Vec<String>,
}

/// The tags recorded for project `p`: the first entry that names it, or no
/// tags at all when none does (a project whose tags could not be fetched
/// simply has no entry).
pub open spec fn tags_of(entries: Seq<TagList>, p: u64) -> Seq<Seq<char>>
    decreases entries.len(),
{
    if entries.len() == 0 {
        Seq::empty()
    } else if entries[0].project == p {
        entries[0].tags.deep_view()
    } else {
        tags_of(entries.drop_first(), p)
    }
}

proof fn lemma_tags_of_first_match(entries: Seq<TagList>, p: u64, i: int)
    requires
        0 <= i < entries.len(),
        entries[i].project == p,
        forall|k: int| 0 <= k < i ==> (#[trigger] entries[k]).project != p,
    ensures
        tags_of(entries, p) == entries[i].tags.deep_view(),
    decreases entries.len(),
{
    if i > 0 {
        lemma_tags_of_first_match(entries.drop_first(), p, i - 1);
    }
}

proof fn lemma_tags_of_absent(entries: Seq<TagList>, p: u64)
    requires
        forall|k: int| 0 <= k < entries.len() ==> (#[trigger] entries[k]).project != p,
    ensures
        tags_of(entries, p) == Seq::<Seq<char>>::empty(),
    decreases entries.len(),
{
    if entries.len() > 0 {
        lemma_tags_of_absent(entries.drop_first(), p);
    }
}

/// Whether the recorded tags for project `p` include the tag `t`, checked
/// by exact string equality.
fn project_has_tag(entries: &Vec<TagList>, p: u64, t: &String) -> (r: bool)
    ensures
        r == tags_of(entries@, p).contains(t@),
{
    let count = entries.len();
    let mut i: usize = 0;
    while i < count
        invariant
            count == entries@.len(),
            i <= count,
            forall|k: int| 0 <= k < i ==> (#[trigger] entries@[k]).project != p,
        decreases count - i,
    {
        if entries[i].project == p {
            proof {
                lemma_tags_of_first_match(entries@, p, i as int);
            }
            let tags = &entries[i].tags;
            let n = tags.len();
            let mut j: usize = 0;
            while j < n
                invariant
                    n == tags@.len(),
                    j <= n,
                    tags_of(entries@, p) == tags.deep_view(),
                    forall|k: int| 0 <= k < j ==> (#[trigger] tags@[k])@ != t@,
                decreases n - j,
            {
                if tags[j].eq(t) {
                    proof {
                        assert(tags.deep_view()[j as int] == t@);
                        assert(tags.deep_view().contains(t@));
                    }
                    return true;
                }
                j = j + 1;
            }
            proof {
                assert forall|k: int|
                    0 <= k < tags.deep_view().len() implies #[trigger] tags.deep_view()[k]
                    != t@ by {
                    assert(tags.deep_view()[k] == tags@[k]@);
                }
                assert(!tags.deep_view().contains(t@));
            }
            return false;
        }
        i = i + 1;
    }
    proof {
        lemma_tags_of_absent(entries@, p);
    }
    false
}

/// The project whose tags validate the job: the upstream project its
/// trigger named, or, when no source was carried, the project the job
/// itself belongs to.
pub open spec fn tag_source(own_project: u64, job: JobInfo) -> u64 {
    match job.source_id {
        Some(s) => s,
        None => own_project,
    }
}

/// The verdict for one job: whether it is played, and the reason recorded
/// when it is not.
#[derive(Debug, Clone, Copy, PartialEq, Eq, Structural)]
pub struct JobOutcome {
    pub play: bool,
    pub reason: Option<MailReason>,
}

/// The classification rule for one job of a group whose newest pipeline is
/// `group_max`, validated against `tags`: a job on an older pipeline is
/// canceled as duplicated before anything else is looked at; a job carrying
/// a git tag that the tags do not include is canceled for an invalid tag;
/// every other job is played, with no reason recorded.
pub open spec fn classify(job: JobInfo, group_max: u64, tags: Seq<Seq<char>>) -> JobOutcome {
    if job.pipeline_id->0 != group_max {
        JobOutcome { play: false, reason: Some(MailReason::Duplicated) }
    } else {
        match job.git_tag {
            Some(tag) => if tags.contains(tag@) {
                JobOutcome { play: true, reason: None }
            } else {
                JobOutcome { play: false, reason: Some(MailReason::InvalidTag) }
            },
            None => JobOutcome { play: true, reason: None },
        }
    }
}

/// Classification is total and consistent: every job gets exactly one
/// verdict, a reason is recorded exactly when the job is not played, and
/// the only recorded reasons are the duplicate-pipeline and invalid-tag
/// ones.
pub proof fn lemma_classification_consistent(job: JobInfo, group_max: u64, tags: Seq<Seq<char>>)
    ensures
        classify(job, group_max, tags).reason is Some <==> !classify(job, group_max, tags).play,
        classify(job, group_max, tags).reason is Some ==> classify(job, group_max, tags).reason
            == Some(MailReason::Duplicated) || classify(job, group_max, tags).reason == Some(
            MailReason::InvalidTag,
        ),
{
}

/// A job that names a source project is validated against that project's
/// tags, never its own project's.
pub proof fn lemma_tag_source_prefers_source(own_project: u64, job: JobInfo)
    ensures
        job.source_id is Some ==> tag_source(own_project, job) == job.source_id->0,
        job.source_id is None ==> tag_source(own_project, job) == own_project,
{
}

/// Classifies every job of the table. The result is aligned with the
/// input: entry `i` of the result holds one verdict per job of group `i`,
/// in order. Jobs on a duplicated (non-newest) pipeline of their project
/// are canceled; jobs carrying a git tag are validated against the fetched
/// tags of their source project; the rest are played.
pub fn validate_jobs(jobs: &Vec<ProjectJobs>, tags: &Vec<TagList>) -> (r: Vec<Vec<JobOutcome>>)
    requires
        all_have_pipelines(jobs@),
    ensures
        r@.len() == jobs@.len(),
        forall|i: int| 0 <= i < jobs@.len() ==> (#[trigger] r@[i])@.len() == jobs@[i].jobs@.len(),
        forall|i: int, j: int|
            0 <= i < jobs@.len() && 0 <= j < jobs@[i].jobs@.len() ==> #[trigger] r@[i]@[j]
                == classify(
                jobs@[i].jobs@[j],
                max_pipeline(jobs@[i].jobs@),
                tags_of(tags@, tag_source(jobs@[i].project.0, jobs@[i].jobs@[j])),
            ),
{
    let cancel = pipelines_tocancel(jobs);
    let mut r: Vec<Vec<JobOutcome>> = Vec::new();
    let count = jobs.len();
    let mut i: usize = 0;
    while i < count
        invariant
            count == jobs@.len(),
            i <= count,
            all_have_pipelines(jobs@),
            cancel@.len() == jobs@.len(),
            forall|k: int| 0 <= k < cancel@.len() ==> cancel_list_ok(jobs@[k], #[trigger] cancel@[k]),
            r@.len() == i,
            forall|k: int| 0 <= k < i ==> (#[trigger] r@[k])@.len() == jobs@[k].jobs@.len(),
            forall|k: int, j: int|
                0 <= k < i && 0 <= j < jobs@[k].jobs@.len() ==> #[trigger] r@[k]@[j] == classify(
                    jobs@[k].jobs@[j],
                    max_pipeline(jobs@[k].jobs@),
                    tags_of(tags@, tag_source(jobs@[k].project.0, jobs@[k].jobs@[j])),
                ),
        decreases count - i,
    {
        let group = &jobs[i];
        let cancel_group = &cancel[i];
        let mut verdicts: Vec<JobOutcome> = Vec::new();
        let n = group.jobs.len();
        let mut j: usize = 0;
        while j < n
            invariant
                n == group.jobs@.len(),
                j <= n,
                group_has_pipelines(*group),
                cancel_list_ok(*group, *cancel_group),
                verdicts@.len() == j,
                forall|b: int|
                    0 <= b < j ==> #[trigger] verdicts@[b] == classify(
                        group.jobs@[b],
                        max_pipeline(group.jobs@),
                        tags_of(tags@, tag_source(group.project.0, group.jobs@[b])),
                    ),
            decreases n - j,
        {
            let job = &group.jobs[j];
            let p = match job.pipeline_id {
                Some(p) => p,
                None => 0,
            };
            let duplicated = contains_pipeline(&cancel_group.pipelines, p);
            proof {
                // Membership in the cancel list says exactly that this
                // job's pipeline is not the group's newest.
                assert(group.jobs@[j as int].pipeline_id == Some(p));
                if duplicated {
                    let k = choose|k: int|
                        0 <= k < cancel_group.pipelines@.len() && cancel_group.pipelines@[k]
                            == PipelineID(p);
                    assert(cancel_group.pipelines@[k].0 != max_pipeline(group.jobs@));
                }
            }
            let verdict = if duplicated {
                JobOutcome { play: false, reason: Some(MailReason::Duplicated) }
            } else {
                match &job.git_tag {
                    Some(tag) => {
                        let source = match job.source_id {
                            Some(s) => s,
                            None => group.project.0,
                        };
                        if project_has_tag(tags, source, tag) {
                            JobOutcome { play: true, reason: None }
                        } else {
                            JobOutcome { play: false, reason: Some(MailReason::InvalidTag) }
                        }
                    },
                    None => JobOutcome { play: true, reason: None },
                }
            };
            verdicts.push(verdict);
            j = j + 1;
        }
        r.push(verdicts);
        i = i + 1;
    }
    r
}

/// Whether job `b` of group `a` carries a git tag whose source resolves to
/// project `p`.
pub open spec fn job_needs(groups: Seq<ProjectJobs>, a: int, b: int, p: u64) -> bool {
    0 <= a < groups.len() && 0 <= b < groups[a].jobs@.len() && groups[a].jobs@[b].git_tag is Some
        && tag_source(groups[a].project.0, groups[a].jobs@[b]) == p
}

/// Spec-level view of which projects the classifier needs tags for:
/// project `p` is needed when some job carries a git tag whose source
/// resolves to `p`.
pub open spec fn needs_tags(groups: Seq<ProjectJobs>, p: u64) -> bool {
    exists|a: int, b: int| job_needs(groups, a, b, p)
}

/// The projects whose git tags classification will consult: for every job
/// that carries a git tag, the project the tag is validated against, each
/// listed once.
pub fn tag_sources(jobs: &Vec<ProjectJobs>) -> (r: Vec<u64>)
    ensures
        forall|p: u64| #[trigger] r@.contains(p) <==> needs_tags(jobs@, p),
        r@.no_duplicates(),
{
    let mut r: Vec<u64> = Vec::new();
    let count = jobs.len();
    let mut i: usize = 0;
    while i < count
        invariant
            count == jobs@.len(),
            i <= count,
            r@.no_duplicates(),
            forall|p: u64| #[trigger] r@.contains(p) <==> needs_tags(jobs@.subrange(0, i as int), p),
        decreases count - i,
    {
        let group = &jobs[i];
        let n = group.jobs.len();
        let mut j: usize = 0;
        while j < n
            invariant
                count == jobs@.len(),
                i < count,
                group == &jobs@[i as int],
                n == group.jobs@.len(),
                j <= n,
                r@.no_duplicates(),
                forall|p: u64| #[trigger] r@.contains(p) <==> (needs_tags(
                    jobs@.subrange(0, i as int),
                    p,
                ) || exists|b: int| 0 <= b < j && job_needs(jobs@, i as int, b, p)),
            decreases n - j,
        {
            let job = &group.jobs[j];
            if job.git_tag.is_some() {
                let source = match job.source_id {
                    Some(s) => s,
                    None => group.project.0,
                };
                crate::paging::insert_unique(&mut r, source);
                proof {
                    assert(job_needs(jobs@, i as int, j as int, source));
                }
            }
            j = j + 1;
        }
        proof {
            assert forall|p: u64| #[trigger] r@.contains(p) implies needs_tags(
                jobs@.subrange(0, i + 1),
                p,
            ) by {
                if needs_tags(jobs@.subrange(0, i as int), p) {
                    let (a, b) = choose|a: int, b: int|
                        #![auto]
                        job_needs(jobs@.subrange(0, i as int), a, b, p);
                    assert(jobs@.subrange(0, i as int)[a] == jobs@[a]);
                    assert(jobs@.subrange(0, i + 1)[a] == jobs@[a]);
                    assert(job_needs(jobs@.subrange(0, i + 1), a, b, p));
                } else {
                    let b = choose|b: int| 0 <= b < n && job_needs(jobs@, i as int, b, p);
                    assert(jobs@.subrange(0, i + 1)[i as int] == jobs@[i as int]);
                    assert(job_needs(jobs@.subrange(0, i + 1), i as int, b, p));
                }
            }
            assert forall|p: u64| needs_tags(jobs@.subrange(0, i + 1), p) implies #[trigger] r@
                .contains(p) by {
                let upper = jobs@.subrange(0, i + 1);
                let (a, b) = choose|a: int, b: int| #![auto] job_needs(upper, a, b, p);
                assert(upper[a] == jobs@[a]);
                if a < i {
                    assert(jobs@.subrange(0, i as int)[a] == jobs@[a]);
                    assert(job_needs(jobs@.subrange(0, i as int), a, b, p));
                } else {
                    assert(job_needs(jobs@, i as int, b, p));
                }
            }
        }
        i = i + 1;
    }
    proof {
        assert(jobs@.subrange(0, count as int) =~= jobs@);
    }
    r
}

} // verus!
