//! The request-scoped data: the prompt, the options recognized by the
//! enhancement tool, and the enhanced result.

use vstd::prelude::*;

verus! {

/// The fixed-point scale of a confidence score: a score `c` stands for the
/// real confidence `c / 2000`, so `2000` stands for full confidence 1.0.
pub const CONFIDENCE_SCALE: u32 = 2000;

/// The immutable input text of one enhancement request.
#[derive(Debug, Clone)]
pub struct Prompt {
    pub text: String,
}

/// The options recognized by the enhancement tool. All are optional; an
/// absent `enable_sequential_thinking` falls back to the process-wide
/// default, and an absent `thought_count` means 3.
#[derive(Debug, Clone)]
pub struct EnhancementOptions {
    /// overall purpose or outcome the backend should aim for
    pub goal: Option<String>,
    /// writing style, e.g., concise, formal, friendly
    pub style: Option<String>,
    /// tone, e.g., neutral, persuasive, enthusiastic
    pub tone: Option<String>,
    /// how strongly to enhance (1 = minimal edits, 5 = substantial refactor)
    pub level: Option<u8>,
    /// optional target audience for clarity
    pub audience: Option<String>,
    /// optional language code for output (e.g., en, id, es)
    pub language: Option<String>,
    /// whether to run the iterative refinement loop after the first pass
    pub enable_sequential_thinking: Option<bool>,
    /// how many refinement steps the loop takes
    pub thought_count: Option<u32>,
}

impl Default for EnhancementOptions {
    fn default() -> (r: Self)
        ensures
            r.goal is None,
            r.style is None,
            r.tone is None,
            r.level is None,
            r.audience is None,
            r.language is None,
            r.enable_sequential_thinking is None,
            r.thought_count is None,
    {
        EnhancementOptions {
            goal: None,
            style: None,
            tone: None,
            level: None,
            audience: None,
            language: None,
            enable_sequential_thinking: None,
            thought_count: None,
        }
    }
}

fn clone_opt_string(o: &Option<String>) -> (r: Option<String>)
    ensures
        r == *o,
{
    match o {
        Some(s) => Some(s.clone()),
        None => None,
    }
}

impl Prompt {
    /// An explicit copy.
    pub fn duplicate(&self) -> (r: Self)
        ensures
            r == *self,
    {
        Self { text: self.text.clone() }
    }
}

impl EnhancementOptions {
    /// The options handed to a nested refinement pass: the same options
    /// with sequential thinking forced off, so a nested pass never starts
    /// a loop of its own.
    pub fn for_nested_pass(&self) -> (r: Self)
        ensures
            r == (EnhancementOptions { enable_sequential_thinking: Some(false), ..*self }),
    {
        let mut nested = self.duplicate();
        nested.enable_sequential_thinking = Some(false);
        nested
    }

    /// An explicit copy, field for field.
    pub fn duplicate(&self) -> (r: Self)
        ensures
            r == *self,
    {
        Self {
            goal: clone_opt_string(&self.goal),
            style: clone_opt_string(&self.style),
            tone: clone_opt_string(&self.tone),
            level: self.level,
            audience: clone_opt_string(&self.audience),
            language: clone_opt_string(&self.language),
            enable_sequential_thinking: self.enable_sequential_thinking,
            thought_count: self.thought_count,
        }
    }
}

/// The output of one enhancement: the text, an optional rationale, and an
/// optional confidence score scaled by [`CONFIDENCE_SCALE`].
#[derive(Debug, Clone)]
pub struct EnhancedPrompt {
    pub text: String,
    pub rationale: Option<String>,
    pub confidence: Option<u32>,
}

} // verus!
