//! The provider's wire format, stream decoding and failures.
use agentscope::json::Json;
use agentscope::model::openai::sse::{SseDecoder, SseStep};
use agentscope::model::openai::wire;
use agentscope::model::openai::{
    after_attempt, provider_error, transport_error, AttemptOutcome, RetryStep,
};
use agentscope::time::Duration;
use agentscope::{
    ChatEvent, ChatRequest, ContentBlock, FinishReason, GenerateOptions, Metadata,
    ModelCapability, ModelError, Msg, OpenAIChatModel, OpenAIConfigError, RetryPolicy,
    ToolDefinition, Usage,
};

fn json(text: &str) -> Json {
    Json::parse(text).unwrap()
}

fn text(value: &str) -> Json {
    Json::Text(value.to_owned())
}

fn at<'a>(value: &'a Json, keys: &[&str]) -> &'a Json {
    let mut found = value;
    for key in keys {
        found = match found {
            Json::Array(items) => &items[key.parse::<usize>().unwrap()],
            other => other.get(key).unwrap(),
        };
    }
    found
}

#[test]
fn debug_output_redacts_api_key() {
    let model = OpenAIChatModel::new("test-model", "super-secret").unwrap();

    assert_eq!(model.api_key().to_string(), "[REDACTED]");
    assert_eq!(model.api_key().expose(), "super-secret");
}

#[test]
fn capabilities_match_non_streaming_mvp() {
    let model = OpenAIChatModel::new("test-model", "secret").unwrap();
    let capabilities = model.capabilities();

    assert!(capabilities.supports(ModelCapability::ToolCalls));
    assert!(capabilities.supports(ModelCapability::StructuredOutput));
    assert!(!capabilities.supports(ModelCapability::Streaming));
    assert!(!capabilities.supports(ModelCapability::MultimodalInput));
}

#[test]
fn request_encodes_options_tools_and_structured_output() {
    let tool = ToolDefinition::new(
        "weather",
        "Get the weather",
        json(
            r#"{
            "type": "object",
            "properties": {"city": {"type": "string"}},
            "required": ["city"]
        }"#,
        ),
    )
    .unwrap();
    let schema = json(
        r#"{
        "type": "object",
        "properties": {"answer": {"type": "string"}},
        "required": ["answer"]
    }"#,
    );
    let request = ChatRequest::new(vec![Msg::system("Be concise"), Msg::user("Hello")])
        .with_options(
            GenerateOptions::new()
                .with_temperature(Json::Decimal("0.2".into()))
                .with_max_tokens(128)
                .with_stop(vec!["END".into()]),
        )
        .with_tools(vec![tool])
        .with_structured_output_schema(schema)
        .unwrap();

    let body = wire::encode_request("test-model", &request).unwrap();

    assert_eq!(at(&body, &["model"]), &text("test-model"));
    assert_eq!(at(&body, &["messages", "0", "role"]), &text("system"));
    assert_eq!(at(&body, &["messages", "1", "content"]), &text("Hello"));
    assert_eq!(at(&body, &["temperature"]), &Json::Decimal("0.2".into()));
    assert_eq!(
        at(&body, &["tools", "0", "function", "name"]),
        &text("weather")
    );
    assert_eq!(
        at(&body, &["response_format", "type"]),
        &text("json_schema")
    );
    assert_eq!(at(&body, &["stream"]), &Json::Bool(false));
    assert!(body.to_text().contains(r#""temperature":0.2"#));
    let streamed = wire::encode_stream_request("test-model", &request).unwrap();
    assert_eq!(at(&streamed, &["stream"]), &Json::Bool(true));
}

#[test]
fn provider_options_cannot_replace_standard_fields() {
    let mut extra = Metadata::new();
    extra.insert("user".into(), text("u-1"));
    let request =
        ChatRequest::new(vec![]).with_options(GenerateOptions::new().with_extra(extra.clone()));
    let body = wire::encode_request("m", &request).unwrap();
    assert_eq!(at(&body, &["user"]), &text("u-1"));
    assert_eq!(at(&body, &["model"]), &text("m"));

    extra.insert("model".into(), text("other"));
    let request = ChatRequest::new(vec![]).with_options(GenerateOptions::new().with_extra(extra));
    assert_eq!(
        wire::encode_request("m", &request).unwrap_err(),
        ModelError::new("provider option `model` cannot replace a standard request field")
            .with_code("reserved_option")
    );
}

#[test]
fn response_decodes_reasoning_tool_calls_and_usage() {
    let response = json(
        r#"{
        "id": "chatcmpl-123",
        "model": "deepseek-chat",
        "created": 1700000000,
        "choices": [{
            "message": {
                "role": "assistant",
                "content": null,
                "reasoning_content": "I should use a tool.",
                "tool_calls": [{
                    "id": "call-1",
                    "type": "function",
                    "function": {"name": "weather", "arguments": "{\"city\":\"杭州\"}"}
                }]
            },
            "finish_reason": "tool_calls"
        }],
        "usage": {
            "prompt_tokens": 12,
            "completion_tokens": 7,
            "prompt_cache_hit_tokens": 5,
            "completion_tokens_details": {"reasoning_tokens": 3}
        }
    }"#,
    );

    let decoded = wire::decode_response(&response, None).unwrap();

    assert_eq!(decoded.id, "chatcmpl-123");
    assert_eq!(decoded.finish_reason, Some(FinishReason::ToolCalls));
    assert!(matches!(decoded.content[0], ContentBlock::Thinking(_)));
    let tool_call = decoded.tool_calls()[0];
    assert_eq!(tool_call.name(), "weather");
    assert_eq!(
        tool_call.parsed_input().unwrap().get("city"),
        Some(&text("杭州"))
    );
    let usage = decoded.usage.unwrap();
    assert_eq!(usage.input_tokens, 12);
    assert_eq!(usage.output_tokens, 7);
    assert_eq!(usage.cached_input_tokens, Some(5));
    assert_eq!(usage.reasoning_tokens, Some(3));
}

#[test]
fn generate_sends_bearer_request_and_decodes_text() {
    let provider_response = json(
        r#"{
        "id": "chatcmpl-local",
        "model": "deepseek-chat",
        "choices": [{
            "message": {"role": "assistant", "content": "OK"},
            "finish_reason": "stop"
        }],
        "usage": {"prompt_tokens": 9, "completion_tokens": 1}
    }"#,
    );
    let model = OpenAIChatModel::builder()
        .model("deepseek-chat")
        .api_key("local-test-key")
        .base_url("http://127.0.0.1:8080")
        .build()
        .unwrap();
    assert_eq!(model.endpoint(), "http://127.0.0.1:8080/chat/completions");
    assert_eq!(model.api_key().expose(), "local-test-key");

    let body =
        wire::encode_request(model.name(), &ChatRequest::new(vec![Msg::user("Reply OK")])).unwrap();
    assert_eq!(at(&body, &["model"]), &text("deepseek-chat"));
    assert_eq!(at(&body, &["stream"]), &Json::Bool(false));

    let response = wire::decode_response(&provider_response, None).unwrap();
    assert_eq!(response.text_content(""), Some("OK".to_owned()));
    assert_eq!(response.usage.unwrap().total_tokens(), 10);
}

#[test]
fn rate_limit_error_is_retryable_and_preserves_provider_code() {
    let error = provider_error(
        429,
        Some(&json(
            r#"{"error": {"message": "slow down", "type": "rate_limit_error"}}"#,
        )),
    );

    assert_eq!(error.message, "slow down");
    assert_eq!(error.code.as_deref(), Some("rate_limit_error"));
    assert!(error.retryable);
}

#[test]
fn provider_failures_without_a_body_name_their_status() {
    let error = provider_error(404, None);
    assert!(error.message.contains("404 Not Found"), "{}", error.message);
    assert!(!error.retryable);
    assert!(provider_error(503, None).retryable);
    assert!(transport_error("connection refused", false, true).retryable);
}

#[test]
fn configuration_is_validated() {
    assert_eq!(
        OpenAIChatModel::new("  ", "secret").err(),
        Some(OpenAIConfigError::MissingModel)
    );
    assert_eq!(
        OpenAIChatModel::new("m", "").err(),
        Some(OpenAIConfigError::MissingApiKey)
    );
    assert!(OpenAIChatModel::builder()
        .model("m")
        .api_key("k")
        .base_url("not a url")
        .build()
        .is_err());
    assert!(OpenAIChatModel::builder()
        .model("m")
        .api_key("k")
        .base_url("ftp://example.com")
        .build()
        .is_err());
}

#[test]
fn only_retryable_failures_are_repeated_within_the_policy() {
    let policy = RetryPolicy::new(1).with_initial_delay(Duration::from_millis(100));
    let refused = |status: u16| AttemptOutcome::Responded {
        status,
        retry_after: None,
        body: None,
    };
    assert!(matches!(
        after_attempt(policy, 0, refused(503)),
        RetryStep::Wait { delay, retries: 1 } if delay == Duration::from_millis(100)
    ));
    assert!(matches!(
        after_attempt(policy, 1, refused(503)),
        RetryStep::GiveUp(error) if error == provider_error(503, None)
    ));
    assert!(matches!(
        after_attempt(policy, 0, refused(400)),
        RetryStep::GiveUp(error) if error == provider_error(400, None)
    ));
    assert!(matches!(
        after_attempt(policy, 0, refused(200)),
        RetryStep::Accept
    ));
}

fn collect(chunks: &[&[u8]], schema: Option<Json>) -> Vec<Result<ChatEvent, ModelError>> {
    let mut decoder = SseDecoder::new(schema);
    let mut chunks = chunks.iter();
    let mut events = Vec::new();
    loop {
        match decoder.next_event() {
            SseStep::Event(event) => events.push(event),
            SseStep::NeedsInput => match chunks.next() {
                Some(chunk) => decoder.feed(&chunk.to_vec()),
                None => decoder.end_input(),
            },
            SseStep::Ended => return events,
        }
    }
}

const STREAM: &str = "data: {\"choices\":[{\"delta\":{\"content\":\"Hé\"}}]}\r\n\r\n\
data: {\"choices\":[{\"delta\":{\"tool_calls\":[{\"index\":0,\"id\":\"c\",\"function\":{\"name\":\"f\",\"arguments\":\"{\"}}]}}]}\n\n\
data: {\"choices\":[{\"delta\":{\"tool_calls\":[{\"index\":0,\"function\":{\"arguments\":\"}\"}}]},\"finish_reason\":\"tool_calls\"}]}\n\n\
data: {\"choices\":[],\"usage\":{\"prompt_tokens\":3,\"completion_tokens\":2}}\n\n\
data: [DONE]\n\n";

#[test]
fn streams_decode_text_tool_calls_usage_and_finish() {
    let events = collect(&[STREAM.as_bytes()], None);
    assert_eq!(events.len(), 5);
    assert!(matches!(&events[0], Ok(ChatEvent::TextDelta { delta, .. }) if delta == "Hé"));
    assert_eq!(
        events[1],
        Ok(ChatEvent::ToolCallDelta {
            tool_call_id: "c".into(),
            tool_name: "f".into(),
            delta: "{".into()
        })
    );
    assert_eq!(
        events[2],
        Ok(ChatEvent::ToolCallDelta {
            tool_call_id: "c".into(),
            tool_name: "f".into(),
            delta: "}".into()
        })
    );
    assert_eq!(
        events[3],
        Ok(ChatEvent::Usage {
            usage: Usage::new(3, 2)
        })
    );
    assert_eq!(
        events[4],
        Ok(ChatEvent::Finished {
            reason: FinishReason::ToolCalls
        })
    );
}

#[test]
fn streams_do_not_depend_on_how_their_bytes_are_split() {
    let whole = collect(&[STREAM.as_bytes()], None);
    for size in [1, 2, 3, 7, 50] {
        let chunks: Vec<&[u8]> = STREAM.as_bytes().chunks(size).collect();
        let split = collect(&chunks, None);
        assert_eq!(split.len(), whole.len());
        assert_eq!(split[1..], whole[1..]);
        assert!(matches!(&split[0], Ok(ChatEvent::TextDelta { delta, .. }) if delta == "Hé"));
    }
}

#[test]
fn broken_streams_fail_once() {
    let events = collect(&[b"data: {\n\n"], None);
    assert_eq!(events.len(), 1);
    assert!(matches!(&events[0], Err(error) if error.code.as_deref() == Some("invalid_stream")));
    let events = collect(&[b"data: \xff\n\n"], None);
    assert_eq!(events.len(), 1);
    assert!(matches!(&events[0], Err(error) if error.code.as_deref() == Some("invalid_stream")));
    let events = collect(&[b"data: {\"choices\":[]}\n\n"], None);
    assert!(events[0].is_err());
}

#[test]
fn structured_streams_carry_their_schema() {
    let schema = json(r#"{"type": "object"}"#);
    let events = collect(
        &[b"data: {\"choices\":[{\"delta\":{\"content\":\"{}\"},\"finish_reason\":\"stop\"}]}\n\ndata: [DONE]\n\n"],
        Some(schema.clone()),
    );
    assert!(matches!(
        &events[0],
        Ok(ChatEvent::StructuredOutputDelta { schema: kept, delta, .. }) if *kept == schema && delta == "{}"
    ));
}
