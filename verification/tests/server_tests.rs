use anytra::config::{Config, LoggingConfig, OpenRouterConfig, SequentialThinkingConfig};
use anytra::llm::{LLMError, LLMProvider};
use anytra::models::{EnhancedPrompt, EnhancementOptions, Prompt};
use anytra::server::{
    default_jsonrpc, handle_line, handle_request, is_blank_line, EnhanceArgs, JsonRpcError,
    JsonRpcRequest, JsonRpcResponse, ResponseBody, ResultPayload,
};
use anytra::usecase::EnhancePrompt;

fn create_test_config() -> Config {
    Config {
        openrouter: OpenRouterConfig {
            api_key: "test-key".to_string(),
            model: "test-model".to_string(),
            referer: None,
            title: None,
        },
        sequential_thinking: SequentialThinkingConfig { default_enabled: false },
        logging: LoggingConfig { level: "info".to_string() },
    }
}

struct MockProvider;

impl LLMProvider for MockProvider {
    fn enhance(
        &self,
        prompt: Prompt,
        _options: EnhancementOptions,
    ) -> Result<EnhancedPrompt, LLMError> {
        Ok(EnhancedPrompt {
            text: format!(
                "Enhanced: {} - this is a longer text with enough words to pass validation",
                prompt.text
            ),
            rationale: Some("Test rationale".to_string()),
            confidence: None,
        })
    }
}

struct FailingProvider;

impl LLMProvider for FailingProvider {
    fn enhance(
        &self,
        _prompt: Prompt,
        _options: EnhancementOptions,
    ) -> Result<EnhancedPrompt, LLMError> {
        Err(LLMError::RequestFailed("Test failure".to_string()))
    }
}

fn request(id: i64, method: &str, params: &str) -> JsonRpcRequest {
    JsonRpcRequest {
        jsonrpc: "2.0".to_string(),
        id: Some(serde_json::Value::from(id)),
        method: method.to_string(),
        params: serde_json::from_str(params).unwrap(),
    }
}

fn content_of(response: &JsonRpcResponse) -> (&str, bool) {
    match &response.body {
        ResponseBody::Success(ResultPayload::Content { text, is_error }) => (text, *is_error),
        other => panic!("expected a content payload, got {:?}", kind_of(other)),
    }
}

fn kind_of(body: &ResponseBody) -> &'static str {
    match body {
        ResponseBody::Success(ResultPayload::Initialize) => "initialize",
        ResponseBody::Success(ResultPayload::ToolsList) => "tools-list",
        ResponseBody::Success(ResultPayload::Pong) => "pong",
        ResponseBody::Success(ResultPayload::ShutdownOk) => "shutdown",
        ResponseBody::Success(ResultPayload::Content { .. }) => "content",
        ResponseBody::Error(_) => "error",
    }
}

fn error_of(response: &JsonRpcResponse) -> &JsonRpcError {
    match &response.body {
        ResponseBody::Error(e) => e,
        other => panic!("expected an error, got {:?}", kind_of(other)),
    }
}

#[test]
fn test_is_blank_line() {
    assert!(is_blank_line(""));
    assert!(is_blank_line("   \t"));
    assert!(!is_blank_line("  x "));
}

#[test]
fn test_default_jsonrpc() {
    assert_eq!(default_jsonrpc(), "2.0");
}

#[test]
fn test_jsonrpc_response_creation() {
    let response = JsonRpcResponse {
        id: Some(serde_json::Value::from(123)),
        body: ResponseBody::Success(ResultPayload::Pong),
    };

    assert_eq!(response.id, Some(serde_json::Value::from(123)));
    assert!(matches!(response.body, ResponseBody::Success(_)));
}

#[test]
fn test_jsonrpc_error_creation() {
    let error = JsonRpcError { code: -32601, message: "Method not found".to_string() };

    assert_eq!(error.code, -32601);
    assert_eq!(error.message, "Method not found");
}

#[test]
fn test_enhance_args_creation() {
    let args = EnhanceArgs {
        prompt: "Test prompt".to_string(),
        goal: Some("Test goal".to_string()),
        style: None,
        tone: Some("professional".to_string()),
        level: Some(3),
        audience: None,
        language: Some("en".to_string()),
    };

    assert_eq!(args.prompt, "Test prompt");
    assert_eq!(args.goal.as_deref(), Some("Test goal"));
    assert!(args.style.is_none());
    assert_eq!(args.tone.as_deref(), Some("professional"));
    assert_eq!(args.level, Some(3));
    assert!(args.audience.is_none());
    assert_eq!(args.language.as_deref(), Some("en"));
}

#[test]
fn test_handle_initialize() {
    let usecase = EnhancePrompt::new(MockProvider, create_test_config());
    let req = request(1, "initialize", "{}");

    let response = handle_request(&usecase, req);

    assert_eq!(response.id, Some(serde_json::Value::from(1)));
    assert!(matches!(response.body, ResponseBody::Success(ResultPayload::Initialize)));
}

#[test]
fn test_handle_tools_list() {
    let usecase = EnhancePrompt::new(MockProvider, create_test_config());
    let req = request(2, "tools/list", "{}");

    let response = handle_request(&usecase, req);

    assert_eq!(response.id, Some(serde_json::Value::from(2)));
    assert!(matches!(response.body, ResponseBody::Success(ResultPayload::ToolsList)));
}

#[test]
fn test_handle_tools_call_success() {
    let usecase = EnhancePrompt::new(MockProvider, create_test_config());
    let req = request(
        3,
        "tools/call",
        r#"{
            "name": "enhance_prompt",
            "arguments": {
                "prompt": "test prompt",
                "goal": "test goal"
            }
        }"#,
    );

    let response = handle_request(&usecase, req);

    assert_eq!(response.id, Some(serde_json::Value::from(3)));
    let (text, is_error) = content_of(&response);
    assert!(text.contains("Enhanced: test prompt"));
    assert!(!is_error);
}

#[test]
fn test_handle_tools_call_error() {
    let usecase = EnhancePrompt::new(FailingProvider, create_test_config());
    let req = request(
        4,
        "tools/call",
        r#"{
            "name": "enhance_prompt",
            "arguments": {
                "prompt": "test prompt"
            }
        }"#,
    );

    let response = handle_request(&usecase, req);

    assert_eq!(response.id, Some(serde_json::Value::from(4)));
    let (text, is_error) = content_of(&response);
    assert!(text.contains("tool error"));
    assert!(text.contains("Test failure"));
    assert!(is_error);
}

#[test]
fn test_handle_unknown_tool() {
    let usecase = EnhancePrompt::new(MockProvider, create_test_config());
    let req = request(
        5,
        "tools/call",
        r#"{
            "name": "unknown_tool",
            "arguments": {}
        }"#,
    );

    let response = handle_request(&usecase, req);

    assert_eq!(response.id, Some(serde_json::Value::from(5)));
    let error = error_of(&response);
    assert_eq!(error.code, -32601);
    assert!(error.message.contains("unknown tool"));
}

#[test]
fn test_handle_ping() {
    let usecase = EnhancePrompt::new(MockProvider, create_test_config());
    let req = request(6, "ping", "{}");

    let response = handle_request(&usecase, req);

    assert_eq!(response.id, Some(serde_json::Value::from(6)));
    assert!(matches!(response.body, ResponseBody::Success(ResultPayload::Pong)));
}

#[test]
fn test_handle_shutdown() {
    let usecase = EnhancePrompt::new(MockProvider, create_test_config());
    let req = request(7, "shutdown", "{}");

    let response = handle_request(&usecase, req);

    assert_eq!(response.id, Some(serde_json::Value::from(7)));
    assert!(matches!(response.body, ResponseBody::Success(ResultPayload::ShutdownOk)));
}

#[test]
fn test_handle_unknown_method() {
    let usecase = EnhancePrompt::new(MockProvider, create_test_config());
    let req = request(8, "unknown_method", "{}");

    let response = handle_request(&usecase, req);

    assert_eq!(response.id, Some(serde_json::Value::from(8)));
    let error = error_of(&response);
    assert_eq!(error.code, -32601);
    assert!(error.message.contains("unknown method"));
}

#[test]
fn test_handle_mcp_initialize() {
    let usecase = EnhancePrompt::new(MockProvider, create_test_config());
    let req = request(9, "mcp/initialize", "{}");

    let response = handle_request(&usecase, req);

    assert_eq!(response.id, Some(serde_json::Value::from(9)));
    assert!(matches!(response.body, ResponseBody::Success(ResultPayload::Initialize)));
}

#[test]
fn test_handle_invalid_arguments() {
    let usecase = EnhancePrompt::new(MockProvider, create_test_config());
    let req = request(10, "tools/call", r#"{"name": "enhance_prompt", "arguments": {"prompt": 7}}"#);
    let response = handle_request(&usecase, req);
    let error = error_of(&response);
    assert_eq!(error.code, -32602);
}

#[test]
fn test_handle_line_parse_error() {
    let usecase = EnhancePrompt::new(MockProvider, create_test_config());
    let response = handle_line(&usecase, "this is not a structured request");
    assert!(response.id.is_none());
    let error = error_of(&response);
    assert_eq!(error.code, -32700);
    assert!(error.message.contains("parse error"));
}

#[test]
fn test_handle_line_routes_parsed_requests() {
    let usecase = EnhancePrompt::new(MockProvider, create_test_config());
    let response =
        handle_line(&usecase, r#"{"jsonrpc": "2.0", "id": 11, "method": "ping", "params": {}}"#);
    assert_eq!(response.id, Some(serde_json::Value::from(11)));
    assert!(matches!(response.body, ResponseBody::Success(ResultPayload::Pong)));
}

#[test]
fn test_handle_line_missing_method_is_parse_error() {
    let usecase = EnhancePrompt::new(MockProvider, create_test_config());
    let response = handle_line(&usecase, r#"{"id": 1, "params": {}}"#);
    assert!(response.id.is_none());
    assert_eq!(error_of(&response).code, -32700);
}

#[test]
fn test_handle_line_without_params() {
    // A request with no params at all still routes by its method.
    let usecase = EnhancePrompt::new(MockProvider, create_test_config());
    let response = handle_line(&usecase, r#"{"jsonrpc": "2.0", "id": 12, "method": "ping"}"#);
    assert_eq!(response.id, Some(serde_json::Value::from(12)));
    assert!(matches!(response.body, ResponseBody::Success(ResultPayload::Pong)));
}

#[test]
fn test_null_optional_argument_is_absent() {
    // An explicit null for an optional argument reads as absent, not as a
    // shape error.
    let usecase = EnhancePrompt::new(MockProvider, create_test_config());
    let req = request(
        13,
        "tools/call",
        r#"{"name": "enhance_prompt", "arguments": {"prompt": "test prompt", "goal": null}}"#,
    );
    let response = handle_request(&usecase, req);
    let (text, is_error) = content_of(&response);
    assert!(text.contains("Enhanced: test prompt"));
    assert!(!is_error);
}

#[test]
fn test_end_to_end_enhance_scenario() {
    // One tool call through the dispatcher against a stub backend: the
    // answer carries the backend's text, is not flagged as an error, and
    // the same execution assigns a positive confidence.
    let usecase = EnhancePrompt::new(MockProvider, create_test_config());
    let line = r#"{"jsonrpc": "2.0", "id": 21, "method": "tools/call", "params": {"name": "enhance_prompt", "arguments": {"prompt": "write code"}}}"#;
    let response = handle_line(&usecase, line);
    assert_eq!(response.id, Some(serde_json::Value::from(21)));
    let (text, is_error) = content_of(&response);
    assert_eq!(
        text,
        "Enhanced: write code - this is a longer text with enough words to pass validation"
    );
    assert!(!is_error);

    let direct = EnhancePrompt::new(MockProvider, create_test_config())
        .execute(
            Prompt { text: "write code".to_string() },
            EnhancementOptions::default(),
        )
        .unwrap();
    assert!(direct.confidence.unwrap() > 0);
}

#[test]
fn test_end_to_end_short_backend_answer() {
    // The stub answers with text that validation rejects: the RPC result
    // is a content envelope marked as an error, not a protocol-level error.
    struct ShortBackend;
    impl LLMProvider for ShortBackend {
        fn enhance(
            &self,
            _prompt: Prompt,
            _options: EnhancementOptions,
        ) -> Result<EnhancedPrompt, LLMError> {
            Ok(EnhancedPrompt { text: "too short".to_string(), rationale: None, confidence: None })
        }
    }
    let usecase = EnhancePrompt::new(ShortBackend, create_test_config());
    let line = r#"{"jsonrpc": "2.0", "id": 22, "method": "tools/call", "params": {"name": "enhance_prompt", "arguments": {"prompt": "write code"}}}"#;
    let response = handle_line(&usecase, line);
    assert_eq!(response.id, Some(serde_json::Value::from(22)));
    let (text, is_error) = content_of(&response);
    assert!(text.contains("tool error"));
    assert!(text.contains("too short"));
    assert!(is_error);
}
