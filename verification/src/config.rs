//! Process-wide configuration, assembled once at startup from the
//! environment values the host hands in and shared read-only afterwards.

use vstd::prelude::*;

verus! {

use vstd::string::*;
use vstd::utf8::encode_utf8;
use crate::text::{bytes_eq, lower_seq, to_lower_bytes};

/// A snapshot of the recognized environment variables, taken by the host
/// process; `None` stands for an unset variable.
#[derive(Debug)]
pub struct EnvValues {
    pub api_key: Option<String>,
    pub model: Option<String>,
    pub referer: Option<String>,
    pub title: Option<String>,
    pub enable_sequential_thinking: Option<String>,
    pub log_level: Option<String>,
}

/// Centralized application configuration.
#[derive(Debug, Clone)]
pub struct Config {
    /// Backend API configuration
    pub openrouter: OpenRouterConfig,
    /// Sequential thinking configuration
    pub sequential_thinking: SequentialThinkingConfig,
    /// Logging configuration
    pub logging: LoggingConfig,
}

/// Backend API configuration.
#[derive(Debug, Clone)]
pub struct OpenRouterConfig {
    pub api_key: String,
    pub model: String,
    pub referer: Option<String>,
    pub title: Option<String>,
}

/// Sequential thinking configuration.
#[derive(Debug, Clone)]
pub struct SequentialThinkingConfig {
    pub default_enabled: bool,
}

/// Logging configuration.
#[derive(Debug, Clone)]
pub struct LoggingConfig {
    pub level: String,
}

/// The token reads as one of the recognized truthy values, after ASCII
/// case folding: `true`, `1`, `yes`, `on`.
pub open spec fn truthy_token(folded: Seq<u8>) -> bool {
    ||| folded == ("true").spec_bytes()
    ||| folded == ("1").spec_bytes()
    ||| folded == ("yes").spec_bytes()
    ||| folded == ("on").spec_bytes()
}

/// The token reads as one of the recognized falsy values, after ASCII
/// case folding: `false`, `0`, `no`, `off`.
pub open spec fn falsy_token(folded: Seq<u8>) -> bool {
    ||| folded == ("false").spec_bytes()
    ||| folded == ("0").spec_bytes()
    ||| folded == ("no").spec_bytes()
    ||| folded == ("off").spec_bytes()
}

/// Whether a set token enables sequential thinking: truthy tokens enable,
/// falsy tokens disable, anything else falls back to enabled.
pub open spec fn thinking_token_enables(t: Seq<char>) -> bool {
    let folded = lower_seq(encode_utf8(t));
    if truthy_token(folded) {
        true
    } else if falsy_token(folded) {
        false
    } else {
        true
    }
}

/// The process-wide default for sequential thinking taken from the
/// `ENABLE_SEQUENTIAL_THINKING` value: enabled when the variable is unset
/// or unrecognized, else by its token.
pub fn get_enable_sequential_thinking_default(value: &Option<String>) -> (r: bool)
    ensures
        r == (match value {
            Option::Some(t) => thinking_token_enables(t@),
            Option::None => true,
        }),
{
    match value {
        Some(t) => {
            let folded = to_lower_bytes(t.as_str().as_bytes());
            let f = folded.as_slice();
            if bytes_eq(f, "true".as_bytes()) || bytes_eq(f, "1".as_bytes()) || bytes_eq(
                f,
                "yes".as_bytes(),
            ) || bytes_eq(f, "on".as_bytes()) {
                true
            } else if bytes_eq(f, "false".as_bytes()) || bytes_eq(f, "0".as_bytes()) || bytes_eq(
                f,
                "no".as_bytes(),
            ) || bytes_eq(f, "off".as_bytes()) {
                false
            } else {
                true
            }
        },
        None => true,
    }
}

impl Config {
    /// Builds the whole configuration from the environment snapshot; fails
    /// exactly when the API key is unset.
    pub fn from_env(env: &EnvValues) -> (r: Result<Self, String>)
        ensures
            r is Ok <==> env.api_key is Some,
            r matches Ok(c) ==> {
                &&& c.openrouter.api_key == env.api_key->0
                &&& c.openrouter.model@ == (match env.model {
                    Option::Some(m) => m@,
                    Option::None => ("openrouter/auto")@,
                })
                &&& c.openrouter.referer == env.referer
                &&& c.openrouter.title == env.title
                &&& c.sequential_thinking.default_enabled == (match env
                    .enable_sequential_thinking {
                    Option::Some(t) => thinking_token_enables(t@),
                    Option::None => true,
                })
                &&& c.logging.level@ == (match env.log_level {
                    Option::Some(l) => l@,
                    Option::None => ("info")@,
                })
            },
            r matches Err(e) ==> e@ == ("OPENROUTER_API_KEY environment variable is required")@,
    {
        let openrouter = match OpenRouterConfig::from_env(env) {
            Ok(c) => c,
            Err(e) => {
                return Err(e);
            },
        };
        let sequential_thinking = SequentialThinkingConfig::from_env(env);
        let logging = LoggingConfig::from_env(env);
        Ok(Self { openrouter, sequential_thinking, logging })
    }

    /// The process-wide default for sequential thinking.
    pub fn sequential_thinking_enabled(&self) -> (r: bool)
        ensures
            r == self.sequential_thinking.default_enabled,
    {
        self.sequential_thinking.default_enabled
    }
}

impl OpenRouterConfig {
    /// Builds the backend configuration: the API key is required, the
    /// model falls back to `openrouter/auto`, the attribution headers stay
    /// optional.
    pub fn from_env(env: &EnvValues) -> (r: Result<Self, String>)
        ensures
            r is Ok <==> env.api_key is Some,
            r matches Ok(c) ==> {
                &&& c.api_key == env.api_key->0
                &&& c.model@ == (match env.model {
                    Option::Some(m) => m@,
                    Option::None => ("openrouter/auto")@,
                })
                &&& c.referer == env.referer
                &&& c.title == env.title
            },
            r matches Err(e) ==> e@ == ("OPENROUTER_API_KEY environment variable is required")@,
    {
        let api_key = match &env.api_key {
            Some(k) => k.clone(),
            None => {
                return Err(String::from_str("OPENROUTER_API_KEY environment variable is required"));
            },
        };
        let model = match &env.model {
            Some(m) => m.clone(),
            None => String::from_str("openrouter/auto"),
        };
        let referer = match &env.referer {
            Some(x) => Some(x.clone()),
            None => None,
        };
        let title = match &env.title {
            Some(x) => Some(x.clone()),
            None => None,
        };
        Ok(Self { api_key, model, referer, title })
    }
}

impl SequentialThinkingConfig {
    /// Reads the sequential-thinking default from the snapshot.
    pub fn from_env(env: &EnvValues) -> (r: Self)
        ensures
            r.default_enabled == (match env.enable_sequential_thinking {
                Option::Some(t) => thinking_token_enables(t@),
                Option::None => true,
            }),
    {
        let default_enabled = get_enable_sequential_thinking_default(
            &env.enable_sequential_thinking,
        );
        Self { default_enabled }
    }
}

impl LoggingConfig {
    /// Reads the log level from the snapshot, falling back to `info`.
    pub fn from_env(env: &EnvValues) -> (r: Self)
        ensures
            r.level@ == (match env.log_level {
                Option::Some(l) => l@,
                Option::None => ("info")@,
            }),
    {
        let level = match &env.log_level {
            Some(l) => l.clone(),
            None => String::from_str("info"),
        };
        Self { level }
    }
}

} // verus!
