//! The capability interface to a text-completion backend, and the errors
//! such a backend can report. Production backends and test doubles
//! implement [`LLMProvider`] interchangeably.

use vstd::prelude::*;

verus! {

use vstd::string::*;
use crate::models::{EnhancedPrompt, EnhancementOptions, Prompt};

/// Why a backend call failed.
#[derive(Debug, Clone)]
pub enum LLMError {
    /// Required credentials were absent at construction.
    NotConfigured(String),
    /// The request was sent and failed, or could not be sent at all.
    RequestFailed(String),
    /// The backend answered with a body of an unexpected shape.
    UnexpectedResponse(String),
}

/// The text [`LLMError::message`] renders: a fixed prefix naming the
/// failure class, then the carried detail.
pub open spec fn llm_error_text(e: LLMError) -> Seq<char> {
    match e {
        LLMError::NotConfigured(m) => ("provider not configured: ")@ + m@,
        LLMError::RequestFailed(m) => ("request failed: ")@ + m@,
        LLMError::UnexpectedResponse(m) => ("unexpected response: ")@ + m@,
    }
}

impl LLMError {
    /// A human-readable description of the failure.
    pub fn message(&self) -> (r: String)
        ensures
            r@ == llm_error_text(*self),
    {
        match self {
            LLMError::NotConfigured(m) => {
                let mut s = String::from_str("provider not configured: ");
                s.append(m.as_str());
                s
            },
            LLMError::RequestFailed(m) => {
                let mut s = String::from_str("request failed: ");
                s.append(m.as_str());
                s
            },
            LLMError::UnexpectedResponse(m) => {
                let mut s = String::from_str("unexpected response: ");
                s.append(m.as_str());
                s
            },
        }
    }
}

/// One text-completion backend: a stateless request/response call that may
/// fail. Implementations decide what comes back, so callers state nothing
/// about the result beyond its type.
pub trait LLMProvider {
    fn enhance(&self, prompt: Prompt, options: EnhancementOptions) -> Result<
        EnhancedPrompt,
        LLMError,
    >;
}

} // verus!
