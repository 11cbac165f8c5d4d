//! Assembling a job record from the plain values of the API responses.

use gitlabjob::assemble::{assemble_job_info, JobRaw, VarTable};
use gitlabjob::domain::{JobID, JobScope, ProjectID};

fn raw_with_pipeline() -> JobRaw {
    JobRaw {
        status: Some("manual".to_string()),
        web_url: Some("https://git.example/job/1".to_string()),
        has_pipeline: true,
        pipeline_id: Some(20),
        commit_mail: Some("committer@example.com".to_string()),
        commit_ref: Some("v1-from-commit".to_string()),
        job_ref: Some("main".to_string()),
    }
}

fn vars(pairs: &[(&str, &str)]) -> VarTable {
    let mut t = VarTable::new();
    for (k, v) in pairs {
        t.insert(k.to_string(), v.to_string());
    }
    t
}

#[test]
fn var_table_replaces_earlier_values() {
    let mut t = VarTable::new();
    assert_eq!(t.get(&"k".to_string()), None);
    t.insert("k".to_string(), "one".to_string());
    t.insert("other".to_string(), "x".to_string());
    assert_eq!(t.get(&"k".to_string()), Some(&"one".to_string()));
    t.insert("k".to_string(), "two".to_string());
    assert_eq!(t.get(&"k".to_string()), Some(&"two".to_string()));
    assert_eq!(t.get(&"other".to_string()), Some(&"x".to_string()));
}

#[test]
fn ids_status_and_name_are_taken_as_delivered() {
    let info = assemble_job_info(
        ProjectID(100),
        JobID(42),
        raw_with_pipeline(),
        Some("Alpha".to_string()),
        &vars(&[]),
        &None,
    );
    assert_eq!(info.id, Some(42));
    assert_eq!(info.proj_id, Some(100));
    assert_eq!(info.status, Some(JobScope::Manual));
    assert_eq!(info.url, Some("https://git.example/job/1".to_string()));
    assert_eq!(info.proj_name, Some("Alpha".to_string()));
    assert_eq!(info.pipeline_id, Some(20));
}

#[test]
fn trigger_variables_win_over_commit_metadata() {
    let v = vars(&[
        ("trigger_email", "triggerer@example.com"),
        ("ref_source", "feature-branch"),
        ("source_id", "9"),
    ]);
    let info = assemble_job_info(ProjectID(100), JobID(42), raw_with_pipeline(), None, &v, &None);
    assert_eq!(info.user_mail, Some("triggerer@example.com".to_string()));
    assert_eq!(info.branch, Some("feature-branch".to_string()));
    assert_eq!(info.source_id, Some(9));
}

#[test]
fn commit_metadata_fills_in_when_variables_are_absent() {
    let info = assemble_job_info(
        ProjectID(100),
        JobID(42),
        raw_with_pipeline(),
        None,
        &vars(&[]),
        &None,
    );
    assert_eq!(info.user_mail, Some("committer@example.com".to_string()));
    assert_eq!(info.branch, Some("main".to_string()));
    assert_eq!(info.source_id, None);
}

#[test]
fn the_configured_key_decides_where_the_tag_comes_from() {
    let v = vars(&[("PROD_TAG", "v2-from-variable")]);
    // With a configured key, the tag comes from the variables...
    let info = assemble_job_info(
        ProjectID(100),
        JobID(42),
        raw_with_pipeline(),
        None,
        &v,
        &Some("PROD_TAG".to_string()),
    );
    assert_eq!(info.git_tag, Some("v2-from-variable".to_string()));
    // ...and is absent when the variable is not set.
    let info = assemble_job_info(
        ProjectID(100),
        JobID(42),
        raw_with_pipeline(),
        None,
        &vars(&[]),
        &Some("PROD_TAG".to_string()),
    );
    assert_eq!(info.git_tag, None);
    // Without a key, the commit's reference name is the tag.
    let info = assemble_job_info(
        ProjectID(100),
        JobID(42),
        raw_with_pipeline(),
        None,
        &v,
        &None,
    );
    assert_eq!(info.git_tag, Some("v1-from-commit".to_string()));
}

#[test]
fn an_unreadable_source_id_becomes_zero() {
    let v = vars(&[("source_id", "nine")]);
    let info = assemble_job_info(ProjectID(100), JobID(42), raw_with_pipeline(), None, &v, &None);
    assert_eq!(info.source_id, Some(0));
}

#[test]
fn a_plus_prefixed_source_id_is_read_as_its_number() {
    let v = vars(&[("source_id", "+5")]);
    let info = assemble_job_info(ProjectID(100), JobID(42), raw_with_pipeline(), None, &v, &None);
    assert_eq!(info.source_id, Some(5));
}

#[test]
fn without_a_pipeline_the_derived_fields_stay_unset() {
    let raw = JobRaw {
        status: Some("manual".to_string()),
        web_url: None,
        has_pipeline: false,
        pipeline_id: None,
        commit_mail: Some("committer@example.com".to_string()),
        commit_ref: Some("v1".to_string()),
        job_ref: Some("main".to_string()),
    };
    let v = vars(&[("trigger_email", "x@y.z")]);
    let info = assemble_job_info(ProjectID(100), JobID(42), raw, None, &v, &None);
    assert_eq!(info.pipeline_id, None);
    assert_eq!(info.user_mail, None);
    assert_eq!(info.branch, None);
    assert_eq!(info.git_tag, None);
    assert_eq!(info.source_id, None);
}
