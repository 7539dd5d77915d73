//! Connection settings for the search store.

use crate::error::ImportError;
use crate::text::{ends_with, opt_chars, trim_text, trimmed};
use vstd::prelude::*;
use vstd::string::*;

verus! {

/// Where and how to reach the store.
#[derive(Debug, PartialEq, Eq)]
pub struct ElasticsearchConfig {
    pub endpoint: String,
    pub headers: Vec<(String, String)>,
    pub user: Option<String>,
    pub password: Option<String>,
    pub api_key: Option<String>,
    pub ssl_verify: bool,
}

/// How requests authenticate.
#[derive(Debug, PartialEq, Eq)]
pub enum Credentials {
    ApiKey(String),
    Basic(String, String),
    Anonymous,
}

/// A setting trimmed, and absent when blank.
pub open spec fn normalized(v: Option<Seq<char>>) -> Option<Seq<char>> {
    match v {
        Some(s) => if trimmed(s).len() > 0 {
            Some(trimmed(s))
        } else {
            None
        },
        None => None,
    }
}

fn normalize(v: Option<String>) -> (r: Option<String>)
    ensures
        opt_chars(r) == normalized(opt_chars(v)),
{
    match v {
        Some(s) => {
            let t = trim_text(s.as_str());
            if t.unicode_len() > 0 {
                Some(t.to_owned())
            } else {
                None
            }
        },
        None => None,
    }
}

impl ElasticsearchConfig {
    /// Settings from the values a configuration file gives: the endpoint is
    /// required, user, password and API key are trimmed and dropped when
    /// blank, and certificates are checked unless `ssl_verify` is false.
    pub fn from_settings(
        endpoint: Option<String>,
        headers: Vec<(String, String)>,
        user: Option<String>,
        password: Option<String>,
        api_key: Option<String>,
        ssl_verify: Option<bool>,
    ) -> (r: Result<ElasticsearchConfig, ImportError>)
        ensures
            endpoint is None ==> r == Err::<ElasticsearchConfig, ImportError>(
                ImportError::MissingEndpoint,
            ),
            endpoint is Some ==> (r matches Ok(c) && {
                &&& c.endpoint == endpoint->0
                &&& c.headers == headers
                &&& opt_chars(c.user) == normalized(opt_chars(user))
                &&& opt_chars(c.password) == normalized(opt_chars(password))
                &&& opt_chars(c.api_key) == normalized(opt_chars(api_key))
                &&& c.ssl_verify == match ssl_verify {
                    Some(b) => b,
                    None => true,
                }
            }),
    {
        let endpoint = match endpoint {
            Some(e) => e,
            None => return Err(ImportError::MissingEndpoint),
        };
        let ssl_verify = match ssl_verify {
            Some(b) => b,
            None => true,
        };
        Ok(ElasticsearchConfig {
            endpoint,
            headers,
            user: normalize(user),
            password: normalize(password),
            api_key: normalize(api_key),
            ssl_verify,
        })
    }

    /// The API key when there is one, else user and password when both are
    /// there, else no credentials.
    pub fn credentials(&self) -> (r: Credentials)
        ensures
            match self.api_key {
                Some(k) => r == Credentials::ApiKey(k),
                None => match (self.user, self.password) {
                    (Some(u), Some(p)) => r == Credentials::Basic(u, p),
                    _ => r == Credentials::Anonymous,
                },
            },
    {
        match &self.api_key {
            Some(k) => Credentials::ApiKey(k.clone()),
            None => match (&self.user, &self.password) {
                (Some(u), Some(p)) => Credentials::Basic(u.clone(), p.clone()),
                _ => Credentials::Anonymous,
            },
        }
    }
}

/// The index pattern that deletion with prefix `index` removes.
pub open spec fn deletion_pattern_of(index: Seq<char>) -> Seq<char> {
    if ends_with(index, seq!['*']) {
        index
    } else {
        index + seq!['-', '*']
    }
}

/// `index` itself when it already ends in `*`, else `index-*`.
pub fn deletion_pattern(index: &str) -> (r: String)
    ensures
        r@ == deletion_pattern_of(index@),
{
    proof {
        reveal_strlit("*");
        reveal_strlit("-*");
    }
    assert("*"@ =~= seq!['*']);
    assert("-*"@ =~= seq!['-', '*']);
    if crate::text::text_ends_with(index, "*") {
        index.to_owned()
    } else {
        let mut r = index.to_owned();
        r.append("-*");
        r
    }
}

} // verus!
