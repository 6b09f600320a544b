//! The enhancement orchestrator: one backend pass, the validation gate,
//! the confidence score, and — when enabled — the bounded sequential
//! refinement loop that calls the backend once more per intermediate step.

use vstd::prelude::*;

verus! {

use vstd::utf8::encode_utf8;
use crate::config::Config;
use crate::json::emit_diagnostic;
use crate::llm::{llm_error_text, LLMError, LLMProvider};
use crate::models::{EnhancedPrompt, EnhancementOptions, Prompt};
use crate::text::word_count_of;
use crate::thinking::{SequentialThinking, ThoughtData};
use crate::validation::{
    compute_confidence,
    confidence_value,
    denied_word_found,
    passes_basic_checks,
    validate_enhanced_prompt,
    validation_error_text,
    ValidationError,
};

/// Why one orchestrated request failed: the backend refused, or its first
/// answer did not pass the validation gate.
#[derive(Debug)]
pub enum ExecuteError {
    Provider(LLMError),
    Validation(ValidationError),
}

/// The text [`ExecuteError::message`] renders: the underlying error's own
/// description.
pub open spec fn execute_error_text(e: ExecuteError) -> Seq<char> {
    match e {
        ExecuteError::Provider(p) => llm_error_text(p),
        ExecuteError::Validation(v) => validation_error_text(v),
    }
}

impl ExecuteError {
    /// A human-readable description of the failure.
    pub fn message(&self) -> (r: String)
        ensures
            r@ == execute_error_text(*self),
    {
        match self {
            ExecuteError::Provider(p) => p.message(),
            ExecuteError::Validation(v) => v.message(),
        }
    }
}

/// Whether one request runs the refinement loop: its own option wins, the
/// process-wide default fills in.
pub open spec fn thinking_enabled(options: EnhancementOptions, config: Config) -> bool {
    match options.enable_sequential_thinking {
        Some(b) => b,
        None => config.sequential_thinking.default_enabled,
    }
}

/// How many refinement steps one request takes: its option, or 3.
pub open spec fn effective_thought_count(options: EnhancementOptions) -> u32 {
    match options.thought_count {
        Some(c) => c,
        None => 3,
    }
}

/// The result of a single validated pass: the text satisfies every
/// validation rule, and the confidence is the computed score.
pub open spec fn single_pass_valid(e: EnhancedPrompt) -> bool {
    let b = encode_utf8(e.text@);
    &&& passes_basic_checks(b)
    &&& !denied_word_found(b, "inappropriate")
    &&& !denied_word_found(b, "offensive")
    &&& e.confidence == Some(confidence_value(b.len(), word_count_of(b)) as u32)
}

/// Composes the gateway, the validation gate and the thinking engine to
/// run one enhancement request end to end.
pub struct EnhancePrompt<P: LLMProvider> {
    provider: P,
    config: Config,
}

impl<P: LLMProvider> EnhancePrompt<P> {
    /// The configuration this orchestrator was built with.
    pub closed spec fn spec_config(&self) -> Config {
        self.config
    }

    /// The backend this orchestrator calls.
    pub closed spec fn spec_provider(&self) -> P {
        self.provider
    }

    pub fn new(provider: P, config: Config) -> (r: Self)
        ensures
            r.spec_provider() == provider,
            r.spec_config() == config,
    {
        Self { provider, config }
    }

    /// Runs one request: a first backend pass, whose answer must satisfy
    /// the validation rules and is then given the computed confidence;
    /// then, when sequential thinking is on, `n` refinement steps, each
    /// recorded in a fresh session, with a further backend pass after
    /// every step but the last replacing the answer (those passes are not
    /// re-validated). A backend failure is surfaced as `Provider`, a
    /// rejected first answer as `Validation`; a success is the last
    /// backend answer. When the loop makes no replacing pass — thinking
    /// off, or fewer than two steps — the answer returned is the
    /// validated, scored first pass.
    pub fn execute(&self, prompt: Prompt, options: EnhancementOptions) -> (r: Result<
        EnhancedPrompt,
        ExecuteError,
    >)
        ensures
            !thinking_enabled(options, self.spec_config()) || effective_thought_count(options)
                <= 1 ==> (r matches Ok(e) ==> single_pass_valid(e)),
    {
        let first = match self.provider.enhance(prompt.duplicate(), options.duplicate()) {
            Ok(e) => e,
            Err(err) => {
                return Err(ExecuteError::Provider(err));
            },
        };
        if let Err(v) = validate_enhanced_prompt(&first) {
            return Err(ExecuteError::Validation(v));
        }
        let confidence = compute_confidence(&first);
        let mut enhanced = first;
        enhanced.confidence = Some(confidence);
        let thinking_on = match options.enable_sequential_thinking {
            Some(b) => b,
            None => self.config.sequential_thinking_enabled(),
        };
        if thinking_on {
            let mut sequential_thinker = SequentialThinking::new();
            let thought_count = match options.thought_count {
                Some(c) => c,
                None => 3,
            };
            let ghost entry = enhanced;
            if thought_count >= 1 {
                let mut i: u32 = 1;
                loop
                    invariant_except_break
                        1 <= i <= thought_count,
                        thought_count >= 1,
                        sequential_thinker.wf(),
                        i == 1 ==> enhanced == entry,
                    ensures
                        thought_count == 1 ==> enhanced == entry,
                    decreases thought_count - i,
                {
                    let is_last = i == thought_count;
                    let record = ThoughtData::new(
                        enhanced.text.clone(),
                        i,
                        thought_count,
                        !is_last,
                    );
                    let line = sequential_thinker.format_thought(&record);
                    let _summary = sequential_thinker.record_thought(record);
                    emit_diagnostic(line.as_str());
                    if is_last {
                        break;
                    }
                    let next_options = options.for_nested_pass();
                    let next = match self.provider.enhance(
                        Prompt { text: enhanced.text.clone() },
                        next_options,
                    ) {
                        Ok(e) => e,
                        Err(err) => {
                            return Err(ExecuteError::Provider(err));
                        },
                    };
                    enhanced = next;
                    i = i + 1;
                }
            }
        }
        Ok(enhanced)
    }
}

} // verus!
