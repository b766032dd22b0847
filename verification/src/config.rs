//! Settings read from the environment.
use vstd::prelude::*;
use crate::decimal::{parse_u16, parse_u16_spec};
use crate::db::{default_database_url, default_database_url_text};

verus! {

/// The server's settings.
#[derive(Debug, Clone)]
pub struct Config {
    pub port: u16,
    pub database_url: String,
    pub app_secret: String,
    pub gemini_api_key: Option<String>,
    pub gemini_model: String,
}

/// A variable's text, or `default` when it is unset.
pub open spec fn value_or(v: Option<String>, default: Seq<char>) -> Seq<char> {
    match v {
        Some(s) => s@,
        None => default,
    }
}

/// An API key that is set and not empty.
pub open spec fn non_empty(v: Option<String>) -> Option<String> {
    match v {
        Some(s) => if s@.len() > 0 { Some(s) } else { None },
        None => None,
    }
}

pub open spec fn missing_api_key_text() -> Seq<char> {
    "GEMINI_API_KEY is required"@
}

pub open spec fn bad_port_text() -> Seq<char> {
    "PORT must be a valid number"@
}

pub open spec fn missing_secret_text() -> Seq<char> {
    "APP_SECRET is required (use a long random string)"@
}

pub open spec fn short_secret_text() -> Seq<char> {
    "APP_SECRET must be at least 16 characters"@
}

/// The settings made from the variables `PORT`, `DATABASE_URL`, `APP_SECRET`,
/// `GEMINI_API_KEY` and `GEMINI_MODEL` (each `None` when unset), or the reason
/// they are refused: a port that is not a `u16`, then a missing secret, then a
/// secret of fewer than 16 characters, then a missing or empty Gemini key.
pub open spec fn config_outcome(
    port: Option<String>,
    database_url: Option<String>,
    app_secret: Option<String>,
    gemini_api_key: Option<String>,
    gemini_model: Option<String>,
    r: Result<Config, String>,
) -> bool {
    match parse_u16_spec(value_or(port, "8090"@)) {
        None => r matches Err(m) && m@ == bad_port_text(),
        Some(p) => match app_secret {
            None => r matches Err(m) && m@ == missing_secret_text(),
            Some(secret) => if secret@.len() < 16 {
                r matches Err(m) && m@ == short_secret_text()
            } else if non_empty(gemini_api_key) is None {
                r matches Err(m) && m@ == missing_api_key_text()
            } else {
                r matches Ok(c) && {
                    &&& c.port == p
                    &&& c.database_url@ == value_or(database_url, default_database_url_text())
                    &&& c.app_secret == secret
                    &&& c.gemini_api_key == non_empty(gemini_api_key)
                    &&& c.gemini_model@ == value_or(gemini_model, "gemini-2.0-flash"@)
                }
            },
        },
    }
}

/// A secret of 16 or more characters, of any length beyond that, is accepted
/// and kept as given, whenever the port is valid and a Gemini key is set.
pub proof fn lemma_long_secret_accepted(
    port: Option<String>,
    database_url: Option<String>,
    secret: String,
    key: String,
    gemini_model: Option<String>,
    r: Result<Config, String>,
)
    requires
        config_outcome(port, database_url, Some(secret), Some(key), gemini_model, r),
        parse_u16_spec(value_or(port, "8090"@)) is Some,
        secret@.len() >= 16,
        key@.len() > 0,
    ensures
        r matches Ok(c) && c.app_secret == secret && c.gemini_api_key == Some(key),
{
}

/// The short-secret error comes only for a secret of fewer than 16 characters.
pub proof fn lemma_short_secret_error_only_when_short(
    port: Option<String>,
    database_url: Option<String>,
    secret: String,
    gemini_api_key: Option<String>,
    gemini_model: Option<String>,
    r: Result<Config, String>,
)
    requires
        config_outcome(port, database_url, Some(secret), gemini_api_key, gemini_model, r),
        r matches Err(m) && m@ == short_secret_text(),
    ensures
        secret@.len() < 16,
{
    reveal_strlit("PORT must be a valid number");
    reveal_strlit("APP_SECRET must be at least 16 characters");
    reveal_strlit("GEMINI_API_KEY is required");
    assert(short_secret_text().len() != bad_port_text().len());
    assert(short_secret_text().len() != missing_api_key_text().len());
}

impl Config {
    /// The settings made from the values of the environment variables.
    pub fn from_values(
        port: Option<String>,
        database_url: Option<String>,
        app_secret: Option<String>,
        gemini_api_key: Option<String>,
        gemini_model: Option<String>,
    ) -> (r: Result<Config, String>)
        ensures
            config_outcome(port, database_url, app_secret, gemini_api_key, gemini_model, r),
    {
        let port_text = match port {
            Some(p) => p,
            None => "8090".to_string(),
        };
        let port_number = match parse_u16(port_text.as_str()) {
            Some(n) => n,
            None => return Err("PORT must be a valid number".to_string()),
        };
        let database_url = match database_url {
            Some(u) => u,
            None => default_database_url(),
        };
        let app_secret = match app_secret {
            Some(s) => s,
            None => return Err("APP_SECRET is required (use a long random string)".to_string()),
        };
        if crate::text::chars_of(app_secret.as_str()).len() < 16 {
            return Err("APP_SECRET must be at least 16 characters".to_string());
        }
        let gemini_api_key = match gemini_api_key {
            Some(k) => if k.as_str().is_empty() {
                return Err("GEMINI_API_KEY is required".to_string());
            } else {
                Some(k)
            },
            None => return Err("GEMINI_API_KEY is required".to_string()),
        };
        let gemini_model = match gemini_model {
            Some(m) => m,
            None => "gemini-2.0-flash".to_string(),
        };
        Ok(Config { port: port_number, database_url, app_secret, gemini_api_key, gemini_model })
    }
}

} // verus!
