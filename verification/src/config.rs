//! Run configuration: which GitLab tree to scan, how long to wait, and the
//! SMTP settings for report mail.
//!
//! Settings arrive from two places, environment variables and a TOML file,
//! and the environment takes precedence. The unverified caller reads both
//! sources; the merge of the two, field by field, is decided here.

use crate::text::{
    count_char, find_char, is_space, is_space_char, lemma_find_char_at, lemma_trim_back_range,
    lemma_trim_front_range, parse_u16_digits, spec_parse_u16, spec_trim,
};
use vstd::prelude::*;

verus! {

/// The SMTP port assumed when the configured server names none.
pub const DEFAULT_SMTP_PORT: u16 = 587;

/// Settings for the mail report: relay server (optionally `host:port`),
/// credentials, addresses and the subject prefix. Every field is optional;
/// `is_valid` says whether mail can be sent at all.
#[derive(Debug, PartialEq)]
pub struct SmtpConfig {
    pub server: Option<String>,
    pub user: Option<String>,
    pub pass: Option<String>,
    pub from: Option<String>,
    pub to: Option<String>,
    pub subject: Option<String>,
}

/// The recognized configuration keys. Every field is optional on arrival;
/// a run without `base_url` is refused at startup by the caller.
#[derive(Debug, PartialEq)]
pub struct Config {
    pub group_id: Option<u64>,
    pub project_id: Option<u64>,
    pub private_token: Option<String>,
    pub base_url: Option<String>,
    pub production_tag_key: Option<String>,
    pub max_wait_time: Option<u64>,
    pub smtp: Option<SmtpConfig>,
}

/// The first value when present, else the second: how a field of the
/// preferred configuration source overrides the fallback.
pub open spec fn spec_or_else<T>(a: Option<T>, b: Option<T>) -> Option<T> {
    if a is Some {
        a
    } else {
        b
    }
}

impl Default for SmtpConfig {
    /// SMTP settings with every field unset.
    fn default() -> (r: Self)
        ensures
            r.server is None,
            r.user is None,
            r.pass is None,
            r.from is None,
            r.to is None,
            r.subject is None,
    {
        SmtpConfig {
            server: None,
            user: None,
            pass: None,
            from: None,
            to: None,
            subject: None,
        }
    }
}

impl Clone for SmtpConfig {
    /// An exact copy of the settings.
    fn clone(&self) -> (r: Self)
        ensures
            r == *self,
    {
        SmtpConfig {
            server: self.server.clone(),
            user: self.user.clone(),
            pass: self.pass.clone(),
            from: self.from.clone(),
            to: self.to.clone(),
            subject: self.subject.clone(),
        }
    }
}

impl SmtpConfig {
    /// Merges two SMTP settings field by field, preferring `self` wherever
    /// it has a value.
    pub fn merge(self, overlay: SmtpConfig) -> (r: SmtpConfig)
        ensures
            r.server == spec_or_else(self.server, overlay.server),
            r.user == spec_or_else(self.user, overlay.user),
            r.pass == spec_or_else(self.pass, overlay.pass),
            r.from == spec_or_else(self.from, overlay.from),
            r.to == spec_or_else(self.to, overlay.to),
            r.subject == spec_or_else(self.subject, overlay.subject),
    {
        SmtpConfig {
            server: match self.server {
                Some(v) => Some(v),
                None => overlay.server,
            },
            user: match self.user {
                Some(v) => Some(v),
                None => overlay.user,
            },
            pass: match self.pass {
                Some(v) => Some(v),
                None => overlay.pass,
            },
            from: match self.from {
                Some(v) => Some(v),
                None => overlay.from,
            },
            to: match self.to {
                Some(v) => Some(v),
                None => overlay.to,
            },
            subject: match self.subject {
                Some(v) => Some(v),
                None => overlay.subject,
            },
        }
    }
}

impl Clone for Config {
    /// An exact copy of the configuration.
    fn clone(&self) -> (r: Self)
        ensures
            r == *self,
    {
        Config {
            group_id: self.group_id,
            project_id: self.project_id,
            private_token: self.private_token.clone(),
            base_url: self.base_url.clone(),
            production_tag_key: self.production_tag_key.clone(),
            max_wait_time: self.max_wait_time,
            smtp: match &self.smtp {
                Some(s) => Some(s.clone()),
                None => None,
            },
        }
    }
}

impl Config {
    /// Merges two configurations field by field, preferring `self`
    /// wherever it has a value. The SMTP sections are merged the same way
    /// when both sides carry one.
    pub fn merge(self, overlay: Config) -> (r: Config)
        ensures
            r.group_id == spec_or_else(self.group_id, overlay.group_id),
            r.project_id == spec_or_else(self.project_id, overlay.project_id),
            r.private_token == spec_or_else(self.private_token, overlay.private_token),
            r.base_url == spec_or_else(self.base_url, overlay.base_url),
            r.production_tag_key == spec_or_else(
                self.production_tag_key,
                overlay.production_tag_key,
            ),
            r.max_wait_time == spec_or_else(self.max_wait_time, overlay.max_wait_time),
            self.smtp is Some && overlay.smtp is Some ==> r.smtp is Some && {
                let m = r.smtp->0;
                let a = self.smtp->0;
                let b = overlay.smtp->0;
                &&& m.server == spec_or_else(a.server, b.server)
                &&& m.user == spec_or_else(a.user, b.user)
                &&& m.pass == spec_or_else(a.pass, b.pass)
                &&& m.from == spec_or_else(a.from, b.from)
                &&& m.to == spec_or_else(a.to, b.to)
                &&& m.subject == spec_or_else(a.subject, b.subject)
            },
            self.smtp is None ==> r.smtp == overlay.smtp,
            self.smtp is Some && overlay.smtp is None ==> r.smtp == self.smtp,
    {
        let smtp = match (self.smtp, overlay.smtp) {
            (Some(a), Some(b)) => Some(a.merge(b)),
            (Some(a), None) => Some(a),
            (None, b) => b,
        };
        Config {
            group_id: match self.group_id {
                Some(v) => Some(v),
                None => overlay.group_id,
            },
            project_id: match self.project_id {
                Some(v) => Some(v),
                None => overlay.project_id,
            },
            private_token: match self.private_token {
                Some(v) => Some(v),
                None => overlay.private_token,
            },
            base_url: match self.base_url {
                Some(v) => Some(v),
                None => overlay.base_url,
            },
            production_tag_key: match self.production_tag_key {
                Some(v) => Some(v),
                None => overlay.production_tag_key,
            },
            max_wait_time: match self.max_wait_time {
                Some(v) => Some(v),
                None => overlay.max_wait_time,
            },
            smtp,
        }
    }
}

/// Whether lettre accepts `s` as a mailbox list (a comma-separated list of
/// `Name <user@domain>` or bare `user@domain` forms). The acceptance is a
/// pure function of the string; its exact grammar lives in the mail crate.
pub uninterp spec fn mailbox_list_valid(s: Seq<char>) -> bool;

/// Relies on lettre's `Mailboxes` parser (`FromStr` in
/// `lettre::message::Mailboxes`): a pure parser whose acceptance depends
/// on the string alone.
#[verifier::external_body]
pub(crate) fn parse_mailboxes_ok(s: &str) -> (r: bool)
    ensures
        r == mailbox_list_valid(s@),
{
    s.parse::<lettre::message::Mailboxes>().is_ok()
}

/// When the SMTP settings are complete enough to send mail: both addresses
/// present and acceptable to the mail crate, a server and a subject
/// prefix, and credentials either both present or both absent.
pub open spec fn smtp_config_valid(c: SmtpConfig) -> bool {
    &&& c.to is Some
    &&& c.from is Some
    &&& mailbox_list_valid(c.to->0@)
    &&& mailbox_list_valid(c.from->0@)
    &&& c.server is Some
    &&& c.subject is Some
    &&& (c.user is Some <==> c.pass is Some)
}

impl SmtpConfig {
    /// Whether these settings are complete enough to send mail.
    pub fn is_valid(&self) -> (r: bool)
        ensures
            r == smtp_config_valid(*self),
    {
        let addresses = match &self.to {
            None => false,
            Some(to) => match &self.from {
                None => false,
                Some(from) => parse_mailboxes_ok(to.as_str()) && parse_mailboxes_ok(from.as_str()),
            },
        };
        addresses && self.server.is_some() && self.subject.is_some() && ((self.user.is_some()
            && self.pass.is_some()) || (self.user.is_none() && self.pass.is_none()))
    }
}

/// What splitting a configured server string yields: after trimming
/// whitespace, a bare name keeps the default port, a single `name:port`
/// pair carries its own port, and anything else (several colons, or a
/// port that is not a small unsigned numeral) is refused.
pub open spec fn spec_split_server_port(s: Seq<char>) -> Option<(Seq<char>, u16)> {
    let t = spec_trim(s);
    if count_char(t, ':') == 0 {
        Some((t, DEFAULT_SMTP_PORT))
    } else if count_char(t, ':') == 1 {
        let i = find_char(t, ':');
        match spec_parse_u16(t.subrange(i + 1, t.len() as int)) {
            Some(p) => Some((t.subrange(0, i), p)),
            None => None,
        }
    } else {
        None
    }
}

impl SmtpConfig {
    /// Splits a configured server string into host and port: `host:123`
    /// carries its own port, a bare host gets the default SMTP port, and a
    /// string with several colons or an unusable port number is refused.
    /// Surrounding whitespace is ignored.
    pub fn split_server_port(server_with_port: String) -> (r: Option<(String, u16)>)
        ensures
            match r {
                Some(pair) => spec_split_server_port(server_with_port@) == Some(
                    (pair.0@, pair.1),
                ),
                None => spec_split_server_port(server_with_port@) is None,
            },
    {
        let s = server_with_port.as_str();
        let n = s.unicode_len();
        // Skip the leading whitespace.
        let mut a: usize = 0;
        while a < n && is_space_char(s.get_char(a))
            invariant
                n == s@.len(),
                a <= n,
                forall|k: int| 0 <= k < a ==> is_space(#[trigger] s@[k]),
            decreases n - a,
        {
            a = a + 1;
        }
        proof {
            lemma_trim_front_range(s@, a as int);
        }
        if a == n {
            // Nothing but whitespace: one empty piece, default port.
            proof {
                lemma_trim_back_range(Seq::<char>::empty(), 0);
                assert(s@.subrange(a as int, n as int) =~= Seq::<char>::empty());
                assert(spec_trim(s@) =~= Seq::<char>::empty());
            }
            return Some((String::new(), DEFAULT_SMTP_PORT));
        }
        // Skip the trailing whitespace.
        let mut b: usize = n;
        while b > a && is_space_char(s.get_char(b - 1))
            invariant
                n == s@.len(),
                a <= b <= n,
                forall|k: int| b <= k < n ==> is_space(#[trigger] s@[k]),
            decreases b,
        {
            b = b - 1;
        }
        let ghost t = s@.subrange(a as int, b as int);
        proof {
            let front = s@.subrange(a as int, n as int);
            assert(b > a);
            assert forall|k: int| b - a <= k < front.len() implies is_space(
                #[trigger] front[k],
            ) by {
                assert(front[k] == s@[k + a]);
            }
            assert(front[b - a - 1] == s@[b - 1]);
            lemma_trim_back_range(front, b - a);
            assert(front.subrange(0, b - a) =~= t);
            assert(spec_trim(s@) == t);
        }
        // Count the colons of the trimmed part and remember the first.
        let mut colons: usize = 0;
        let mut first_colon: usize = a;
        let mut i: usize = a;
        while i < b
            invariant
                n == s@.len(),
                a <= i <= b <= n,
                t == s@.subrange(a as int, b as int),
                colons == count_char(s@.subrange(a as int, i as int), ':'),
                colons <= i - a,
                colons > 0 ==> a <= first_colon < i && s@[first_colon as int] == ':' && forall|
                    k: int,
                |
                    a <= k < first_colon ==> #[trigger] s@[k] != ':',
                colons == 0 ==> forall|k: int| a <= k < i ==> #[trigger] s@[k] != ':',
            decreases b - i,
        {
            let c = s.get_char(i);
            proof {
                assert(s@.subrange(a as int, i + 1).drop_last() =~= s@.subrange(
                    a as int,
                    i as int,
                ));
                assert(s@.subrange(a as int, i + 1).last() == s@[i as int]);
            }
            if c as u32 == 58 {
                proof {
                    assert(c == ':') by {
                        assert(c as u32 == ':' as u32);
                    }
                }
                if colons == 0 {
                    first_colon = i;
                }
                colons = colons + 1;
            } else {
                proof {
                    assert(c != ':') by {
                        assert(':' as u32 == 58);
                    }
                }
            }
            i = i + 1;
        }
        proof {
            assert(s@.subrange(a as int, b as int) =~= t);
            assert(count_char(t, ':') == colons);
        }
        if colons == 0 {
            let host = String::from_str(s.substring_char(a, b));
            return Some((host, DEFAULT_SMTP_PORT));
        }
        if colons == 1 {
            proof {
                assert forall|k: int| 0 <= k < first_colon - a implies #[trigger] t[k] != ':' by {
                    assert(t[k] == s@[k + a]);
                }
                assert(t[first_colon - a] == s@[first_colon as int]);
                lemma_find_char_at(t, ':', first_colon - a);
            }
            let port_text = s.substring_char(first_colon + 1, b);
            proof {
                assert(port_text@ =~= t.subrange(first_colon - a + 1, t.len() as int));
            }
            match parse_u16_digits(port_text) {
                Some(port) => {
                    let host = String::from_str(s.substring_char(a, first_colon));
                    proof {
                        assert(host@ =~= t.subrange(0, first_colon - a));
                    }
                    return Some((host, port));
                },
                None => {
                    return None;
                },
            }
        }
        None
    }
}

} // verus!
