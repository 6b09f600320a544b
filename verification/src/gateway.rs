//! The provider gateway's policy: how many attempts a backend call gets,
//! the exponential backoff between them, the graceful degradation after
//! the last transport failure, and the classification of what the backend
//! sent back. The host performs the network call and the sleep; every
//! decision is made here.

use vstd::prelude::*;

verus! {

use vstd::string::*;
use crate::json::{json_as_str, json_doc, json_element, json_get, json_index, json_member, json_parse, json_str_of};
use crate::llm::LLMError;
use crate::models::{EnhancedPrompt, Prompt};
use crate::text::{dec_str, lemma_valid_utf8_trim, trim_bytes, trim_seq, u64_to_dec};
use vstd::utf8::{encode_utf8, encode_utf8_valid_utf8, valid_utf8};

/// How many attempts one backend call gets in all.
pub const MAX_RETRIES: u32 = 3;

/// The backoff delay before the second attempt, in milliseconds.
pub const BASE_DELAY_MS: u64 = 500;

/// Two to the power `n`.
pub open spec fn pow2(n: nat) -> nat
    decreases n,
{
    if n == 0 {
        1
    } else {
        2 * pow2((n - 1) as nat)
    }
}

/// The fallback confidence score, scaled as in
/// [`crate::models::CONFIDENCE_SCALE`]: 600 stands for 0.3.
pub const FALLBACK_CONFIDENCE: u32 = 600;

/// What to do after a transport-level failure: wait and try again, or
/// give the caller a synthesized answer.
#[derive(Debug)]
pub enum RetryDecision {
    /// Sleep this many milliseconds, then make the next attempt.
    RetryAfter(u64),
    /// Attempts are exhausted: return this answer as a success.
    Fallback(EnhancedPrompt),
}

/// The synthesized answer after retries are exhausted: the original
/// prompt under a fixed template, a rationale marking it as a fallback,
/// and a fixed low confidence.
pub fn fallback_enhanced(prompt: &Prompt) -> (r: EnhancedPrompt)
    ensures
        r.text@ == ("Enhanced: ")@ + prompt.text@,
        r.rationale matches Some(m) && m@ == ("Fallback due to API failure after retries")@,
        r.confidence == Some(FALLBACK_CONFIDENCE),
{
    let mut text = String::from_str("Enhanced: ");
    text.append(prompt.text.as_str());
    EnhancedPrompt {
        text,
        rationale: Some(String::from_str("Fallback due to API failure after retries")),
        confidence: Some(FALLBACK_CONFIDENCE),
    }
}

/// The policy after the `attempts`-th transport failure: below the attempt
/// ceiling, wait `BASE_DELAY_MS * 2^(attempts-1)` milliseconds and retry;
/// at the ceiling, degrade gracefully to the fallback answer.
pub fn on_transport_failure(prompt: &Prompt, attempts: u32) -> (r: RetryDecision)
    requires
        attempts >= 1,
    ensures
        attempts < MAX_RETRIES ==> (r matches RetryDecision::RetryAfter(d) && d == BASE_DELAY_MS
            * pow2((attempts - 1) as nat)),
        attempts >= MAX_RETRIES ==> (r matches RetryDecision::Fallback(e) && {
            &&& e.text@ == ("Enhanced: ")@ + prompt.text@
            &&& e.rationale matches Some(m) && m@ == (
            "Fallback due to API failure after retries")@
            &&& e.confidence == Some(FALLBACK_CONFIDENCE)
        }),
{
    if attempts >= MAX_RETRIES {
        RetryDecision::Fallback(fallback_enhanced(prompt))
    } else {
        let delay: u64 = if attempts == 1 {
            500
        } else {
            1000
        };
        proof {
            assert(pow2(0) == 1);
            assert(pow2(1) == 2);
        }
        RetryDecision::RetryAfter(delay)
    }
}

/// The first choice's message content of a chat-completion body text:
/// `choices[0].message.content` of the parsed document. Empty when the
/// document lacks that shape; the parser's message when the text does not
/// parse at all.
pub open spec fn chat_content_of(body: Seq<char>) -> Option<Result<Seq<char>, Seq<char>>> {
    match json_doc(body) {
        Err(e) => Some(Err(e)),
        Ok(doc) => match json_member(doc, ("choices")@) {
            None => None,
            Some(c) => match json_element(c, 0) {
                None => None,
                Some(first) => match json_member(first, ("message")@) {
                    None => None,
                    Some(m) => match json_member(m, ("content")@) {
                        None => None,
                        Some(content) => match json_str_of(content) {
                            None => None,
                            Some(t) => Some(Ok(t)),
                        },
                    },
                },
            },
        },
    }
}

fn chat_content(body: &str) -> (r: Option<Result<String, String>>)
    ensures
        (match r {
            None => chat_content_of(body@) is None,
            Some(inner) => match inner {
                Ok(t) => chat_content_of(body@) == Some(Ok::<Seq<char>, Seq<char>>(t@)),
                Err(e) => chat_content_of(body@) == Some(Err::<Seq<char>, Seq<char>>(e@)),
            },
        }),
{
    match json_parse(body) {
        Err(e) => Some(Err(e)),
        Ok(v) => {
            let choices = match json_get(&v, "choices") {
                Some(c) => match json_index(c, 0) {
                    Some(first) => match json_get(first, "message") {
                        Some(m) => match json_get(m, "content") {
                            Some(content) => json_as_str(content),
                            None => None,
                        },
                        None => None,
                    },
                    None => None,
                },
                None => None,
            };
            match choices {
                Some(text) => Some(Ok(text)),
                None => None,
            }
        },
    }
}

/// What the gateway returns for each way the extracted content can read: a
/// parse failure is an `UnexpectedResponse` carrying the parser's message,
/// a missing first choice is an `UnexpectedResponse` reading `no choices`,
/// and a present content yields its text trimmed, with no rationale and no
/// confidence.
pub open spec fn outcome_for(
    content: Option<Result<Seq<char>, Seq<char>>>,
    r: Result<EnhancedPrompt, LLMError>,
) -> bool {
    match content {
        None => r matches Err(LLMError::UnexpectedResponse(m)) && m@ == ("no choices")@,
        Some(inner) => match inner {
            Err(e) => r matches Err(LLMError::UnexpectedResponse(m)) && m@ == e,
            Ok(text) => r matches Ok(p) && {
                &&& p.rationale is None
                &&& p.confidence is None
                &&& encode_utf8(p.text@) == trim_seq(encode_utf8(text))
            },
        },
    }
}

/// Shapes the extracted chat content as the gateway's result, as
/// [`outcome_for`] states.
pub fn backend_outcome(content: Option<Result<String, String>>) -> (r: Result<
    EnhancedPrompt,
    LLMError,
>)
    ensures
        outcome_for(
            match content {
                None => None,
                Some(inner) => match inner {
                    Ok(t) => Some(Ok(t@)),
                    Err(e) => Some(Err(e@)),
                },
            },
            r,
        ),
{
    match content {
        None => Err(LLMError::UnexpectedResponse(String::from_str("no choices"))),
        Some(Err(e)) => Err(LLMError::UnexpectedResponse(e)),
        Some(Ok(text)) => {
            proof {
                encode_utf8_valid_utf8(text@);
                lemma_valid_utf8_trim(encode_utf8(text@));
            }
            let trimmed = trim_bytes(text.as_str().as_bytes());
            // Trimming at ASCII whitespace keeps the encoding valid, so the
            // conversion back always answers.
            let out = crate::text::bytes_to_string(trimmed).unwrap();
            Ok(EnhancedPrompt { text: out, rationale: None, confidence: None })
        },
    }
}

/// Classifies one completed backend exchange. A status outside 200..300
/// fails at once as `RequestFailed` naming the status; nothing is retried
/// here. A success status yields [`outcome_for`] of the body's extracted
/// chat content.
pub fn process_backend_response(status: u16, body: &str) -> (r: Result<EnhancedPrompt, LLMError>)
    ensures
        !(200 <= status < 300) ==> (r matches Err(LLMError::RequestFailed(m)) && m@ == ("status ")@
            + dec_str(status as nat)),
        200 <= status < 300 ==> outcome_for(chat_content_of(body@), r),
{
    if !(200 <= status && status < 300) {
        let mut m = String::from_str("status ");
        let num = u64_to_dec(status as u64);
        m.append(num.as_str());
        return Err(LLMError::RequestFailed(m));
    }
    backend_outcome(chat_content(body))
}

} // verus!
