//! The settings of the service, resolved from what its environment says.

use vstd::prelude::*;
use vstd::string::StringExecFns;

verus! {

/// The settings of the service.
#[derive(Debug, Clone)]
pub struct Config {
    /// The address to listen on, as text.
    pub bind_addr: String,
    /// The base directory of the tenants' indexes.
    pub data_dir: String,
    pub log_level: String,
    /// Whether the page for trying the service out is served.
    pub web_ui_enabled: bool,
}

/// Why the settings could not be resolved.
#[derive(Debug, Clone, Copy, PartialEq, Eq)]
pub enum ConfigError {
    /// The data directory is not set.
    MissingDataDir,
}

/// Whether a text is the word `true` in any mix of upper and lower case.
pub open spec fn is_true_word(text: Seq<char>) -> bool {
    &&& text.len() == 4
    &&& (text[0] == 't' || text[0] == 'T')
    &&& (text[1] == 'r' || text[1] == 'R')
    &&& (text[2] == 'u' || text[2] == 'U')
    &&& (text[3] == 'e' || text[3] == 'E')
}

/// A text, or a fallback where there is none.
pub open spec fn value_or(value: Option<String>, fallback: Seq<char>) -> Seq<char> {
    match value {
        Some(text) => text@,
        None => fallback,
    }
}

/// Whether the switch for the page is on: it is set, to the word `true`.
pub open spec fn switched_on(value: Option<String>) -> bool {
    value matches Some(text) && is_true_word(text@)
}

/// Tells whether a text is the word `true` in any mix of upper and lower
/// case.
pub fn is_true(text: &str) -> (on: bool)
    ensures
        on == is_true_word(text@),
{
    let mut chars = text.chars();
    let mut place: usize = 0;
    for c in it: chars
        invariant
            it.seq() == text@,
            place == it.index(),
            place <= 4,
            place >= 1 ==> (text@[0] == 't' || text@[0] == 'T'),
            place >= 2 ==> (text@[1] == 'r' || text@[1] == 'R'),
            place >= 3 ==> (text@[2] == 'u' || text@[2] == 'U'),
            place >= 4 ==> (text@[3] == 'e' || text@[3] == 'E'),
    {
        let fits = if place == 0 {
            c == 't' || c == 'T'
        } else if place == 1 {
            c == 'r' || c == 'R'
        } else if place == 2 {
            c == 'u' || c == 'U'
        } else if place == 3 {
            c == 'e' || c == 'E'
        } else {
            false
        };
        if !fits {
            return false;
        }
        place = place + 1;
    }
    place == 4
}

fn text_or(value: Option<String>, fallback: &str) -> (text: String)
    ensures
        text@ == value_or(value, fallback@),
{
    match value {
        Some(text) => text,
        None => String::from_str(fallback),
    }
}

impl ConfigError {
    /// The error in words.
    pub fn message(&self) -> (text: String)
        ensures
            text@ == "DATA_DIR environment variable is required"@,
    {
        String::from_str("DATA_DIR environment variable is required")
    }
}

impl Config {
    /// The address to listen on: the value of `BIND_ADDR`, or
    /// `127.0.0.1:8080` where it is not set.
    pub fn bind_addr_or_default(bind_addr: Option<String>) -> (text: String)
        ensures
            text@ == value_or(bind_addr, "127.0.0.1:8080"@),
    {
        text_or(bind_addr, "127.0.0.1:8080")
    }

    /// Resolves the settings from the address to listen on and the values
    /// of `DATA_DIR`, `LOG_LEVEL` and `WEB_UI_ENABLED`, each absent where it
    /// is not set. The data directory is required; the log level falls back
    /// to `info`, the switch to off.
    pub fn from_values(
        bind_addr: String,
        data_dir: Option<String>,
        log_level: Option<String>,
        web_ui_enabled: Option<String>,
    ) -> (outcome: Result<Config, ConfigError>)
        ensures
            match outcome {
                Ok(config) => {
                    &&& data_dir matches Some(dir) && config.data_dir@ == dir@
                    &&& config.bind_addr@ == bind_addr@
                    &&& config.log_level@ == value_or(log_level, "info"@)
                    &&& config.web_ui_enabled == switched_on(web_ui_enabled)
                },
                Err(e) => data_dir is None && e == ConfigError::MissingDataDir,
            },
    {
        let data_dir = match data_dir {
            Some(dir) => dir,
            None => {
                return Err(ConfigError::MissingDataDir);
            },
        };
        let web_ui = match &web_ui_enabled {
            Some(text) => is_true(text.as_str()),
            None => false,
        };
        Ok(
            Config {
                bind_addr,
                data_dir,
                log_level: text_or(log_level, "info"),
                web_ui_enabled: web_ui,
            },
        )
    }
}

} // verus!
