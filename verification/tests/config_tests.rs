//! Configuration merging, SMTP validity and server-string splitting.

use gitlabjob::{Config, GitlabJOB, SmtpConfig};

fn smtp(
    server: Option<&str>,
    user: Option<&str>,
    pass: Option<&str>,
    from: Option<&str>,
    to: Option<&str>,
    subject: Option<&str>,
) -> SmtpConfig {
    SmtpConfig {
        server: server.map(str::to_string),
        user: user.map(str::to_string),
        pass: pass.map(str::to_string),
        from: from.map(str::to_string),
        to: to.map(str::to_string),
        subject: subject.map(str::to_string),
    }
}

fn empty_config() -> Config {
    Config {
        group_id: None,
        project_id: None,
        private_token: None,
        base_url: None,
        production_tag_key: None,
        max_wait_time: None,
        smtp: None,
    }
}

#[test]
fn merge_prefers_the_first_source_field_by_field() {
    let mut env = empty_config();
    env.group_id = Some(13);
    env.base_url = Some("https://env.example/".to_string());
    let mut file = empty_config();
    file.group_id = Some(99);
    file.project_id = Some(7);
    file.max_wait_time = Some(120);
    let merged = env.merge(file);
    assert_eq!(merged.group_id, Some(13));
    assert_eq!(merged.project_id, Some(7));
    assert_eq!(merged.base_url, Some("https://env.example/".to_string()));
    assert_eq!(merged.max_wait_time, Some(120));
    assert_eq!(merged.private_token, None);
}

#[test]
fn merge_combines_both_smtp_sections() {
    let mut env = empty_config();
    env.smtp = Some(smtp(None, Some("user.mail"), Some("SECRET-REDACTED"), None, None, None));
    let mut file = empty_config();
    file.smtp = Some(smtp(
        Some("mail.com"),
        Some("filed-user"),
        None,
        Some("a@b.com"),
        Some("c@d.com"),
        Some("[CI] "),
    ));
    let merged = env.merge(file);
    let m = merged.smtp.expect("merged smtp");
    assert_eq!(m.server, Some("mail.com".to_string()));
    assert_eq!(m.user, Some("user.mail".to_string()));
    assert_eq!(m.pass, Some("SECRET-REDACTED".to_string()));
    assert_eq!(m.from, Some("a@b.com".to_string()));
    assert_eq!(m.to, Some("c@d.com".to_string()));
    assert_eq!(m.subject, Some("[CI] ".to_string()));
}

#[test]
fn merge_takes_whichever_smtp_section_exists() {
    let mut file = empty_config();
    file.smtp = Some(smtp(Some("mail.com"), None, None, None, None, None));
    let merged = empty_config().merge(file);
    assert_eq!(merged.smtp.unwrap().server, Some("mail.com".to_string()));

    let mut env = empty_config();
    env.smtp = Some(smtp(Some("env.mail.com"), None, None, None, None, None));
    let merged = env.merge(empty_config());
    assert_eq!(merged.smtp.unwrap().server, Some("env.mail.com".to_string()));
}

#[test]
fn smtp_validity_needs_addresses_server_and_subject() {
    let full = smtp(
        Some("mail.com"),
        Some("user"),
        Some("SECRET-REDACTED"),
        Some("from@mail.com"),
        Some("to@mail.com"),
        Some("[Prefix] "),
    );
    assert!(full.is_valid());

    let mut missing_to = full.clone();
    missing_to.to = None;
    assert!(!missing_to.is_valid());

    let mut missing_server = full.clone();
    missing_server.server = None;
    assert!(!missing_server.is_valid());

    let mut missing_subject = full.clone();
    missing_subject.subject = None;
    assert!(!missing_subject.is_valid());

    let mut bad_address = full.clone();
    bad_address.from = Some("not an address".to_string());
    assert!(!bad_address.is_valid());

    // Credentials must come in pairs.
    let mut user_only = full.clone();
    user_only.pass = None;
    assert!(!user_only.is_valid());
    let mut no_credentials = full.clone();
    no_credentials.user = None;
    no_credentials.pass = None;
    assert!(no_credentials.is_valid());
}

#[test]
fn default_smtp_config_is_empty_and_invalid() {
    let d = SmtpConfig::default();
    assert_eq!(d.server, None);
    assert_eq!(d.user, None);
    assert_eq!(d.pass, None);
    assert_eq!(d.from, None);
    assert_eq!(d.to, None);
    assert_eq!(d.subject, None);
    assert!(!d.is_valid());
}

#[test]
fn api_handle_copies_the_configuration() {
    let mut config = empty_config();
    config.base_url = Some("https://gitlab.example/".to_string());
    config.private_token = Some("SECRET-REDACTED".to_string());
    config.group_id = Some(1);
    let api = GitlabJOB::new(&config);
    assert_eq!(api.config, config);
}

#[test]
fn test_get_server_port() {
    let test = SmtpConfig::split_server_port(" mail.server.com:123 ".to_string()).unwrap();
    assert_eq!(test, ("mail.server.com".to_owned(), 123_u16));
}

#[test]
fn split_server_port_defaults_the_port() {
    assert_eq!(
        SmtpConfig::split_server_port("mail.server.com".to_string()),
        Some(("mail.server.com".to_string(), 587))
    );
}

#[test]
fn split_server_port_takes_a_plus_prefixed_port() {
    assert_eq!(
        SmtpConfig::split_server_port("host:+25".to_string()),
        Some(("host".to_string(), 25))
    );
}

#[test]
fn split_server_port_rejects_malformed_strings() {
    assert_eq!(SmtpConfig::split_server_port("a:b:c".to_string()), None);
    assert_eq!(SmtpConfig::split_server_port("host:".to_string()), None);
    assert_eq!(SmtpConfig::split_server_port("host:9x".to_string()), None);
    assert_eq!(SmtpConfig::split_server_port("host:70000".to_string()), None);
}
