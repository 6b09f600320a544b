use anytra::config::{Config, LoggingConfig, OpenRouterConfig, SequentialThinkingConfig};
use anytra::llm::{LLMError, LLMProvider};
use anytra::models::{EnhancedPrompt, EnhancementOptions, Prompt};
use anytra::usecase::{EnhancePrompt, ExecuteError};

fn create_test_config() -> Config {
    Config {
        openrouter: OpenRouterConfig {
            api_key: "test-key".to_string(),
            model: "test-model".to_string(),
            referer: None,
            title: None,
        },
        sequential_thinking: SequentialThinkingConfig { default_enabled: false },
        logging: LoggingConfig { level: "info".to_string() },
    }
}

struct MockProvider;

impl LLMProvider for MockProvider {
    fn enhance(
        &self,
        prompt: Prompt,
        _options: EnhancementOptions,
    ) -> Result<EnhancedPrompt, LLMError> {
        Ok(EnhancedPrompt {
            text: format!(
                "ENH: {} - this is a longer text with enough words to pass the validation check",
                prompt.text
            ),
            rationale: None,
            confidence: None,
        })
    }
}

struct MockProviderWithRationale;

impl LLMProvider for MockProviderWithRationale {
    fn enhance(
        &self,
        prompt: Prompt,
        _options: EnhancementOptions,
    ) -> Result<EnhancedPrompt, LLMError> {
        Ok(EnhancedPrompt {
            text: format!(
                "ENHANCED: {} - this is a longer text with enough words to pass validation",
                prompt.text
            ),
            rationale: Some("Made it clearer and more specific".to_string()),
            confidence: None,
        })
    }
}

struct FailingProvider;

impl LLMProvider for FailingProvider {
    fn enhance(
        &self,
        _prompt: Prompt,
        _options: EnhancementOptions,
    ) -> Result<EnhancedPrompt, LLMError> {
        Err(LLMError::RequestFailed("Provider error".to_string()))
    }
}

struct ShortProvider;

impl LLMProvider for ShortProvider {
    fn enhance(
        &self,
        _prompt: Prompt,
        _options: EnhancementOptions,
    ) -> Result<EnhancedPrompt, LLMError> {
        Ok(EnhancedPrompt { text: "too short".to_string(), rationale: None, confidence: None })
    }
}

#[test]
fn test_usecase_calls_provider() {
    let config = create_test_config();
    let usecase = EnhancePrompt::new(MockProvider, config);
    let res = usecase
        .execute(
            Prompt { text: "hello".into() },
            EnhancementOptions {
                enable_sequential_thinking: Some(false),
                ..Default::default()
            },
        )
        .unwrap();
    assert_eq!(
        res.text,
        "ENH: hello - this is a longer text with enough words to pass the validation check"
    );
}

#[test]
fn test_usecase_with_options() {
    let config = create_test_config();
    let usecase = EnhancePrompt::new(MockProviderWithRationale, config);
    let options = EnhancementOptions {
        goal: Some("Improve clarity".to_string()),
        style: Some("concise".to_string()),
        tone: Some("professional".to_string()),
        level: Some(3),
        audience: Some("developers".to_string()),
        language: Some("en".to_string()),
        enable_sequential_thinking: Some(false),
        thought_count: Some(1),
    };

    let res = usecase.execute(Prompt { text: "write code".into() }, options).unwrap();

    assert_eq!(
        res.text,
        "ENHANCED: write code - this is a longer text with enough words to pass validation"
    );
    assert_eq!(res.rationale.as_deref(), Some("Made it clearer and more specific"));
}

#[test]
fn test_usecase_with_empty_prompt() {
    let config = create_test_config();
    let usecase = EnhancePrompt::new(MockProvider, config);
    let res = usecase
        .execute(
            Prompt { text: "".into() },
            EnhancementOptions {
                enable_sequential_thinking: Some(false),
                ..Default::default()
            },
        )
        .unwrap();
    assert_eq!(
        res.text,
        "ENH:  - this is a longer text with enough words to pass the validation check"
    );
}

#[test]
fn test_usecase_provider_error() {
    let config = create_test_config();
    let usecase = EnhancePrompt::new(FailingProvider, config);
    let result = usecase.execute(Prompt { text: "test".into() }, EnhancementOptions::default());

    assert!(result.is_err());
    let error = result.unwrap_err();
    assert!(error.message().contains("Provider error"));
}

#[test]
fn test_usecase_preserves_options() {
    let config = create_test_config();
    let usecase = EnhancePrompt::new(MockProviderWithRationale, config);

    let options = EnhancementOptions {
        goal: Some("Make it educational".to_string()),
        style: Some("step-by-step".to_string()),
        tone: Some("encouraging".to_string()),
        level: Some(4),
        audience: Some("students".to_string()),
        language: Some("en".to_string()),
        enable_sequential_thinking: Some(false),
        thought_count: Some(1),
    };

    let res = usecase.execute(Prompt { text: "explain rust".into() }, options).unwrap();

    assert_eq!(
        res.text,
        "ENHANCED: explain rust - this is a longer text with enough words to pass validation"
    );
    assert!(res.rationale.is_some());
}

#[test]
fn test_usecase_with_sequential_thinking() {
    let config = create_test_config();
    let provider = MockProviderWithRationale;
    let usecase = EnhancePrompt::new(provider, config);

    let options = EnhancementOptions {
        goal: Some("Test sequential thinking".to_string()),
        enable_sequential_thinking: Some(true),
        thought_count: Some(2),
        ..Default::default()
    };

    let res = usecase.execute(Prompt { text: "test prompt".into() }, options).unwrap();

    assert!(res.text.contains("ENHANCED"));
    assert!(res.text.len() > "test prompt".len());
}

#[test]
fn test_usecase_default_sequential_thinking_enabled() {
    let provider = MockProviderWithRationale;
    let config = create_test_config();
    let usecase = EnhancePrompt::new(provider, config);

    let options = EnhancementOptions {
        goal: Some("Test default sequential thinking".to_string()),
        enable_sequential_thinking: None,
        thought_count: Some(2),
        ..Default::default()
    };

    let res = usecase.execute(Prompt { text: "test prompt".into() }, options).unwrap();

    assert!(res.text.contains("ENHANCED"));
    assert!(res.text.len() > "test prompt".len());
}

#[test]
fn test_usecase_assigns_confidence() {
    // A single validated pass carries the computed score: the text has
    // 81 bytes and 16 words, so the scaled score is 81 + 16 * 20.
    let config = create_test_config();
    let usecase = EnhancePrompt::new(MockProvider, config);
    let res = usecase
        .execute(
            Prompt { text: "hello".into() },
            EnhancementOptions {
                enable_sequential_thinking: Some(false),
                ..Default::default()
            },
        )
        .unwrap();
    assert_eq!(res.text.len(), 81);
    assert_eq!(res.confidence, Some(81 + 16 * 20));
}

#[test]
fn test_usecase_validation_error_surfaces() {
    // The backend answers with text that validation rejects: the call
    // fails as a validation error and no fallback applies.
    let config = create_test_config();
    let usecase = EnhancePrompt::new(ShortProvider, config);
    let result = usecase.execute(
        Prompt { text: "write code".into() },
        EnhancementOptions { enable_sequential_thinking: Some(false), ..Default::default() },
    );
    match result {
        Err(ExecuteError::Validation(_)) => {}
        other => panic!("expected a validation error, got {:?}", other.map(|e| e.text)),
    }
}

#[test]
fn test_usecase_thinking_loop_replaces_text() {
    // With three steps the text is enhanced twice more, nesting the
    // template each time.
    let config = create_test_config();
    let usecase = EnhancePrompt::new(MockProviderWithRationale, config);
    let options = EnhancementOptions {
        enable_sequential_thinking: Some(true),
        thought_count: Some(3),
        ..Default::default()
    };
    let res = usecase.execute(Prompt { text: "seed words here".into() }, options).unwrap();
    assert!(res.text.starts_with("ENHANCED: ENHANCED: ENHANCED: seed words here"));
}
