//! Messages, content blocks and their JSON form.
use agentscope::json::Json;
use agentscope::message::decode::WireError;
use agentscope::{
    ContentBlock, DataBlock, DataBlockError, DataSource, Metadata, Msg, PermissionBehavior,
    PermissionRule, Role, StructuredOutputBlock, StructuredOutputError, StructuredOutputState,
    ThinkingBlock, ThinkingBlockError, ToolCallBlock, ToolCallError, ToolCallState,
    ToolResultBlock, ToolResultContent, ToolResultError, ToolResultOutput, ToolResultState, Usage,
};

fn json(text: &str) -> Json {
    Json::parse(text).unwrap()
}

fn text(value: &str) -> Json {
    Json::Text(value.to_owned())
}

fn at<'a>(value: &'a Json, keys: &[&str]) -> &'a Json {
    let mut found = value;
    for key in keys {
        found = match found {
            Json::Array(items) => &items[key.parse::<usize>().unwrap()],
            other => other.get(key).unwrap(),
        };
    }
    found
}

#[test]
fn roles_use_agentscope_wire_values() {
    assert_eq!(Role::System.as_str(), "system");
    assert_eq!(Role::User.as_str(), "user");
    assert_eq!(Role::Assistant.as_str(), "assistant");
    assert_eq!(Role::from_name("assistant"), Some(Role::Assistant));
    assert_eq!(Role::from_name("Assistant"), None);
}

#[test]
fn user_message_has_generated_identity_and_text_block() {
    let message = Msg::user("hello");

    assert_eq!(message.name, "user");
    assert_eq!(message.role, Role::User);
    assert_eq!(message.id.len(), 32);
    assert!(!message.created_at.is_empty());
    assert_eq!(message.text_content("\n").as_deref(), Some("hello"));

    let value = message.to_json();
    assert_eq!(at(&value, &["content", "0", "type"]), &text("text"));
    assert_eq!(at(&value, &["content", "0", "text"]), &text("hello"));
}

#[test]
fn json_round_trip_preserves_message_and_metadata() {
    let mut metadata = Metadata::new();
    metadata.insert("request_id".to_owned(), text("req-42"));
    metadata.insert("attempt".to_owned(), Json::Unsigned(2));
    let original = Msg::assistant("Friday", "Done").with_metadata(metadata);

    let encoded = original.to_json().to_text();
    let restored = Msg::from_json(&json(&encoded)).unwrap();

    assert_eq!(restored, original);
    assert_eq!(restored.metadata.get("request_id"), Some(&text("req-42")));
    assert_eq!(restored.metadata.get("attempt"), Some(&Json::Unsigned(2)));
}

#[test]
fn deserialization_accepts_missing_metadata() {
    let message = Msg::from_json(&json(
        r#"{
        "name": "system",
        "content": [{
            "type": "text",
            "text": "Follow the policy.",
            "id": "block-1",
            "created_at": "2026-08-12T12:00:00.000000",
            "finished_at": "2026-08-12T12:00:00.000000"
        }],
        "role": "system",
        "id": "message-1",
        "created_at": "2026-08-12T12:00:00.000000"
    }"#,
    ))
    .unwrap();

    assert!(message.metadata.is_empty());
    assert!(matches!(message.content[0], ContentBlock::Text(_)));
}

#[test]
fn empty_message_has_no_text_content() {
    let message = Msg::new("Friday", Role::Assistant, vec![]);

    assert_eq!(message.text_content("\n"), None);
    assert_eq!(at(&message.to_json(), &["content"]), &Json::Array(vec![]));
}

#[test]
fn url_data_block_uses_agentscope_wire_format() {
    let block = DataBlock::url("https://example.com/image.png", "image/png")
        .unwrap()
        .with_name("diagram.png");
    let DataSource::Url(source) = &block.source else {
        panic!("expected URL source");
    };
    assert_eq!(source.url(), "https://example.com/image.png");
    assert_eq!(source.media_type(), "image/png");
    let value = ContentBlock::from(block).to_json();

    assert_eq!(at(&value, &["type"]), &text("data"));
    assert_eq!(at(&value, &["source", "type"]), &text("url"));
    assert_eq!(
        at(&value, &["source", "url"]),
        &text("https://example.com/image.png")
    );
    assert_eq!(at(&value, &["source", "media_type"]), &text("image/png"));
    assert_eq!(at(&value, &["name"]), &text("diagram.png"));
}

#[test]
fn base64_data_block_uses_agentscope_wire_format() {
    let block = DataBlock::base64("aGVsbG8=", "text/plain").unwrap();
    let DataSource::Base64(source) = &block.source else {
        panic!("expected Base64 source");
    };
    assert_eq!(source.data(), "aGVsbG8=");
    assert_eq!(source.media_type(), "text/plain");
    let value = ContentBlock::from(block).to_json();

    assert_eq!(at(&value, &["type"]), &text("data"));
    assert_eq!(at(&value, &["source", "type"]), &text("base64"));
    assert_eq!(at(&value, &["source", "data"]), &text("aGVsbG8="));
    assert_eq!(at(&value, &["source", "media_type"]), &text("text/plain"));
}

#[test]
fn mixed_message_round_trip_preserves_text_and_data() {
    let original = Msg::new(
        "user",
        Role::User,
        vec![
            ContentBlock::from("Describe this image"),
            ContentBlock::from(
                DataBlock::url("https://example.com/cat.jpg", "image/jpeg").unwrap(),
            ),
        ],
    );

    let encoded = original.to_json().to_text();
    let restored = Msg::from_json(&json(&encoded)).unwrap();

    assert_eq!(restored, original);
    assert_eq!(
        restored.text_content("\n").as_deref(),
        Some("Describe this image")
    );
    assert!(matches!(restored.content[1], ContentBlock::Data(_)));
}

#[test]
fn constructors_reject_invalid_data_sources() {
    assert!(matches!(
        DataBlock::url("relative/image.png", "image/png"),
        Err(DataBlockError::InvalidUrl(_))
    ));
    assert!(matches!(
        DataBlock::base64("not base64!", "image/png"),
        Err(DataBlockError::InvalidBase64(_))
    ));
    assert_eq!(
        DataBlock::base64("", "  ").unwrap_err(),
        DataBlockError::EmptyMediaType
    );
}

#[test]
fn data_source_errors_say_what_is_wrong() {
    assert_eq!(
        DataBlock::url("relative/image.png", "image/png").unwrap_err().to_string(),
        "invalid URL: relative URL without a base"
    );
    assert_eq!(
        DataBlock::base64("", "  ").unwrap_err().to_string(),
        "media type cannot be empty"
    );
    assert!(DataBlock::base64("not base64!", "image/png")
        .unwrap_err()
        .to_string()
        .starts_with("invalid Base64 data: "));
}

#[test]
fn urls_are_kept_in_normal_form() {
    let block = DataBlock::url("HTTPS://EXAMPLE.com", "image/png").unwrap();
    let DataSource::Url(source) = &block.source else {
        panic!("expected URL source");
    };
    assert_eq!(source.url(), "https://example.com/");
}

#[test]
fn deserialization_rejects_invalid_data_sources() {
    let invalid_url = json(
        r#"{
        "type": "data",
        "id": "block-1",
        "source": {
            "type": "url",
            "url": "relative/image.png",
            "media_type": "image/png"
        },
        "name": null,
        "created_at": "2026-08-12T12:00:00.000000",
        "finished_at": null
    }"#,
    );
    let invalid_base64 = json(
        r#"{
        "type": "data",
        "id": "block-2",
        "source": {
            "type": "base64",
            "data": "not base64!",
            "media_type": "image/png"
        },
        "name": null,
        "created_at": "2026-08-12T12:00:00.000000",
        "finished_at": null
    }"#,
    );

    assert_eq!(ContentBlock::from_json(&invalid_url), Err(WireError));
    assert_eq!(ContentBlock::from_json(&invalid_base64), Err(WireError));
}

#[test]
fn thinking_block_uses_agentscope_wire_format() {
    let block = ThinkingBlock::new("I should inspect the request first.");
    let value = ContentBlock::from(block).to_json();

    assert_eq!(at(&value, &["type"]), &text("thinking"));
    assert_eq!(
        at(&value, &["thinking"]),
        &text("I should inspect the request first.")
    );
    assert_eq!(at(&value, &["id"]).as_str().unwrap().len(), 32);
    assert!(at(&value, &["created_at"]).as_str().is_some());
    assert!(at(&value, &["finished_at"]).is_null());
}

#[test]
fn thinking_provider_fields_survive_json_round_trip() {
    let block = ThinkingBlock::new("")
        .with_extra_field("signature", text("sig-123"))
        .unwrap()
        .with_extra_field("redacted_thinking_data", text("encrypted-payload"))
        .unwrap();
    let original = Msg::new("Friday", Role::Assistant, vec![ContentBlock::from(block)]);

    let encoded = original.to_json().to_text();
    let restored = Msg::from_json(&json(&encoded)).unwrap();
    let ContentBlock::Thinking(restored_block) = &restored.content[0] else {
        panic!("expected thinking block");
    };

    assert_eq!(restored, original);
    assert_eq!(
        restored_block.extra_fields().get("signature"),
        Some(&text("sig-123"))
    );
    assert_eq!(
        restored_block.extra_fields().get("redacted_thinking_data"),
        Some(&text("encrypted-payload"))
    );
    assert_eq!(restored_block.extra_fields().len(), 2);
}

#[test]
fn text_content_excludes_thinking_blocks() {
    let message = Msg::new(
        "Friday",
        Role::Assistant,
        vec![
            ContentBlock::from(ThinkingBlock::new("Internal reasoning")),
            ContentBlock::from("Final answer"),
        ],
    );

    assert_eq!(message.text_content("\n").as_deref(), Some("Final answer"));
}

#[test]
fn thinking_extensions_cannot_replace_standard_fields() {
    for field in ["type", "thinking", "id", "created_at", "finished_at"] {
        assert_eq!(
            ThinkingBlock::new("reasoning")
                .with_extra_field(field, text("replacement"))
                .unwrap_err(),
            ThinkingBlockError::ReservedField(field.to_owned())
        );
    }
    assert_eq!(
        ThinkingBlockError::ReservedField("id".to_owned()).to_string(),
        "provider field `id` is reserved"
    );
}

#[test]
fn tool_call_states_use_agentscope_wire_values() {
    for (state, expected) in [
        (ToolCallState::Pending, "pending"),
        (ToolCallState::Asking, "asking"),
        (ToolCallState::Allowed, "allowed"),
        (ToolCallState::Submitted, "submitted"),
        (ToolCallState::Finished, "finished"),
    ] {
        assert_eq!(state.as_str(), expected);
        assert_eq!(state.to_string(), expected);
        assert_eq!(ToolCallState::from_name(expected), Some(state));
    }
}

#[test]
fn complete_tool_call_uses_agentscope_wire_format() {
    let rule = PermissionRule {
        tool_name: "get_weather".to_owned(),
        rule_content: Some("Hangzhou".to_owned()),
        behavior: PermissionBehavior::Ask,
        source: "model".to_owned(),
    };
    let block = ToolCallBlock::complete("call-123", "get_weather", r#"{"city":"Hangzhou"}"#)
        .unwrap()
        .with_suggested_rules(vec![rule]);
    assert_eq!(block.id(), "call-123");
    assert_eq!(block.name(), "get_weather");
    let value = ContentBlock::from(block).to_json();

    assert_eq!(at(&value, &["type"]), &text("tool_call"));
    assert_eq!(at(&value, &["id"]), &text("call-123"));
    assert_eq!(at(&value, &["name"]), &text("get_weather"));
    assert_eq!(at(&value, &["input"]), &text(r#"{"city":"Hangzhou"}"#));
    assert_eq!(at(&value, &["state"]), &text("pending"));
    assert_eq!(
        at(&value, &["suggested_rules", "0", "behavior"]),
        &text("ask")
    );
}

#[test]
fn streaming_tool_call_accepts_partial_input() {
    let mut block = ToolCallBlock::streaming("call-1", "get_weather").unwrap();
    block.append_input("{\"city\":\"");
    assert!(matches!(
        block.parsed_input(),
        Err(ToolCallError::InvalidInput(_))
    ));

    block.append_input("Hangzhou\"}");
    assert_eq!(
        block.parsed_input().unwrap(),
        json(r#"{"city": "Hangzhou"}"#)
    );
}

#[test]
fn completed_tool_calls_require_valid_identity_and_json() {
    assert!(matches!(
        ToolCallBlock::complete("", "get_weather", "{}"),
        Err(ToolCallError::EmptyId)
    ));
    assert!(matches!(
        ToolCallBlock::complete("call-1", "  ", "{}"),
        Err(ToolCallError::EmptyName)
    ));
    assert!(matches!(
        ToolCallBlock::complete("call-1", "get_weather", "{"),
        Err(ToolCallError::InvalidInput(_))
    ));
}

#[test]
fn tool_call_json_round_trip_preserves_streaming_input_and_rules() {
    let value = json(
        r#"{
        "type": "tool_call",
        "id": "call-7",
        "name": "search",
        "input": "{\"query\":",
        "state": "asking",
        "suggested_rules": [{
            "tool_name": "search",
            "rule_content": null,
            "behavior": "allow",
            "source": "userSettings"
        }],
        "created_at": "2026-08-19T12:00:00.000000",
        "finished_at": null
    }"#,
    );

    let block = ContentBlock::from_json(&value).unwrap();
    let ContentBlock::ToolCall(tool_call) = &block else {
        panic!("expected tool call block");
    };
    assert_eq!(tool_call.name(), "search");
    assert_eq!(tool_call.input(), "{\"query\":");
    assert_eq!(tool_call.state, ToolCallState::Asking);
    assert_eq!(block.to_json(), value);
}

#[test]
fn deserialization_rejects_blank_tool_identity() {
    for (id, name) in [("", "search"), ("call-1", " ")] {
        let value = json(&format!(
            r#"{{
            "type": "tool_call",
            "id": "{id}",
            "name": "{name}",
            "input": "",
            "state": "pending",
            "suggested_rules": [],
            "created_at": "2026-08-19T12:00:00.000000",
            "finished_at": null
        }}"#
        ));
        assert!(ContentBlock::from_json(&value).is_err());
    }
}

#[test]
fn omitted_tool_call_fields_have_defaults() {
    let value = json(r#"{"type": "tool_call", "id": "call-1", "name": "search", "input": "{}"}"#);
    let Ok(ContentBlock::ToolCall(call)) = ContentBlock::from_json(&value) else {
        panic!("expected tool call block");
    };
    assert_eq!(call.state, ToolCallState::Pending);
    assert!(call.suggested_rules.is_empty());
    assert!(call.created_at.len() >= 26);
    assert_eq!(call.finished_at, None);

    let untyped = json(r#"{"id": "call-1", "name": "search", "input": "{}"}"#);
    assert_eq!(ContentBlock::from_json(&untyped), Err(WireError));
    let misspelt = json(
        r#"{"type": "tool_call", "id": "call-1", "name": "search", "input": "{}", "state": "Asking"}"#,
    );
    assert_eq!(ContentBlock::from_json(&misspelt), Err(WireError));
}

#[test]
fn text_content_excludes_tool_calls() {
    let message = Msg::new(
        "Friday",
        Role::Assistant,
        vec![
            ContentBlock::from(ToolCallBlock::complete("call-1", "search", "{}").unwrap()),
            ContentBlock::from("I will search for that."),
        ],
    );

    assert_eq!(
        message.text_content("\n").as_deref(),
        Some("I will search for that.")
    );
}

#[test]
fn tool_result_states_use_agentscope_wire_values() {
    for (state, expected) in [
        (ToolResultState::Running, "running"),
        (ToolResultState::Success, "success"),
        (ToolResultState::Error, "error"),
        (ToolResultState::Interrupted, "interrupted"),
        (ToolResultState::Denied, "denied"),
    ] {
        assert_eq!(state.as_str(), expected);
        assert_eq!(state.to_string(), expected);
        assert_eq!(ToolResultState::from_name(expected), Some(state));
    }
}

#[test]
fn running_tool_result_uses_agentscope_wire_format() {
    let block = ToolResultBlock::running("call-1", "get_weather").unwrap();
    assert_eq!(block.id(), "call-1");
    assert_eq!(block.name(), "get_weather");
    assert_eq!(block.state(), ToolResultState::Running);
    let value = ContentBlock::from(block).to_json();

    assert_eq!(at(&value, &["type"]), &text("tool_result"));
    assert_eq!(at(&value, &["output"]), &json("[]"));
    assert_eq!(at(&value, &["state"]), &text("running"));
    assert_eq!(at(&value, &["metadata"]), &json("{}"));
    assert!(at(&value, &["finished_at"]).is_null());
}

#[test]
fn successful_raw_tool_result_round_trips() {
    let original =
        ToolResultBlock::success("call-2", "get_weather", ToolResultOutput::from("Sunny")).unwrap();
    assert_eq!(original.state(), ToolResultState::Success);
    assert!(original.finished_at.is_some());
    assert_eq!(
        original.output(),
        &ToolResultOutput::Text("Sunny".to_owned())
    );

    let encoded = ContentBlock::from(original.clone()).to_json().to_text();
    let restored = ContentBlock::from_json(&json(&encoded)).unwrap();
    assert_eq!(restored, ContentBlock::from(original));
}

#[test]
fn streaming_tool_result_merges_text_and_preserves_multimodal_output() {
    let mut block = ToolResultBlock::running("call-3", "inspect_image").unwrap();
    block.append_text_delta("Found ");
    block.append_text_delta("a cat.");
    block.append_data(DataBlock::url("https://example.com/cat.jpg", "image/jpeg").unwrap());
    block.append_text_delta(" High confidence.");
    block.finish(ToolResultState::Success).unwrap();

    let value = ContentBlock::from(block.clone()).to_json();
    assert_eq!(at(&value, &["output", "0", "type"]), &text("text"));
    assert_eq!(at(&value, &["output", "0", "text"]), &text("Found a cat."));
    assert_eq!(at(&value, &["output", "1", "type"]), &text("data"));
    assert_eq!(
        at(&value, &["output", "2", "text"]),
        &text(" High confidence.")
    );

    let restored = ContentBlock::from_json(&value).unwrap();
    assert_eq!(restored, ContentBlock::from(block));
}

#[test]
fn appending_to_raw_output_converts_it_to_structured_blocks() {
    let value = json(
        r#"{
        "type": "tool_result",
        "id": "call-4",
        "name": "search",
        "output": "First",
        "state": "running",
        "metadata": {},
        "created_at": "2026-08-19T12:00:00.000000",
        "finished_at": null
    }"#,
    );
    let Ok(ContentBlock::ToolResult(mut block)) = ContentBlock::from_json(&value) else {
        panic!("expected tool result block");
    };

    block.append_text_delta(" second");
    let ToolResultOutput::Blocks(blocks) = block.output() else {
        panic!("expected structured output");
    };
    let ToolResultContent::Text(first) = &blocks[0] else {
        panic!("expected text output");
    };
    assert_eq!(first.text, "First second");
}

#[test]
fn tool_result_finish_requires_terminal_state() {
    let mut block = ToolResultBlock::running("call-5", "search").unwrap();
    assert_eq!(
        block.finish(ToolResultState::Running).unwrap_err(),
        ToolResultError::NonTerminalState
    );
    assert_eq!(block.state(), ToolResultState::Running);
    assert!(block.finished_at.is_none());
}

#[test]
fn tool_result_metadata_and_terminal_state_round_trip() {
    let mut metadata = Metadata::new();
    metadata.insert("status_code".to_owned(), Json::Unsigned(403));
    let original = ToolResultBlock::finished(
        "call-6",
        "write_file",
        ToolResultOutput::from("Permission denied"),
        ToolResultState::Denied,
    )
    .unwrap()
    .with_metadata(metadata);

    let value = ContentBlock::from(original.clone()).to_json();
    assert_eq!(at(&value, &["state"]), &text("denied"));
    assert_eq!(
        at(&value, &["metadata", "status_code"]),
        &Json::Unsigned(403)
    );
    assert_eq!(
        ContentBlock::from_json(&value).unwrap(),
        ContentBlock::from(original)
    );
}

#[test]
fn tool_result_rejects_blank_identity() {
    assert_eq!(
        ToolResultBlock::running("", "search").unwrap_err(),
        ToolResultError::EmptyId
    );
    assert_eq!(
        ToolResultBlock::running("call-1", "  ").unwrap_err(),
        ToolResultError::EmptyName
    );

    let invalid = json(
        r#"{
        "type": "tool_result",
        "id": "call-1",
        "name": "",
        "output": "",
        "state": "running",
        "metadata": {},
        "created_at": "2026-08-19T12:00:00.000000",
        "finished_at": null
    }"#,
    );
    assert!(ContentBlock::from_json(&invalid).is_err());
}

#[test]
fn text_content_excludes_tool_results() {
    let message = Msg::new(
        "Friday",
        Role::Assistant,
        vec![
            ContentBlock::from(
                ToolResultBlock::success(
                    "call-7",
                    "search",
                    ToolResultOutput::from("internal result"),
                )
                .unwrap(),
            ),
            ContentBlock::from("Here is the answer."),
        ],
    );

    assert_eq!(
        message.text_content("\n").as_deref(),
        Some("Here is the answer.")
    );
}

#[test]
fn structured_output_states_use_wire_values() {
    for (state, expected) in [
        (StructuredOutputState::Streaming, "streaming"),
        (StructuredOutputState::Complete, "complete"),
    ] {
        assert_eq!(state.as_str(), expected);
        assert_eq!(state.to_string(), expected);
        assert_eq!(StructuredOutputState::from_name(expected), Some(state));
    }
}

#[test]
fn streaming_structured_output_accepts_partial_json() {
    let schema = json(
        r#"{
        "type": "object",
        "properties": {"city": {"type": "string"}},
        "required": ["city"]
    }"#,
    );
    let mut block = StructuredOutputBlock::streaming(schema).unwrap();
    block.append_output_delta("{\"city\":\"").unwrap();
    assert!(matches!(
        block.parsed_output(),
        Err(StructuredOutputError::InvalidOutput(_))
    ));

    block.append_output_delta("Hangzhou\"}").unwrap();
    block.finish().unwrap();

    assert_eq!(block.state(), StructuredOutputState::Complete);
    assert_eq!(
        block.parsed_output().unwrap(),
        json(r#"{"city": "Hangzhou"}"#)
    );
    assert!(block.finished_at.is_some());
}

#[test]
fn complete_structured_output_uses_wire_format() {
    let schema = json(r#"{"type": "array", "items": {"type": "integer"}}"#);
    let block = StructuredOutputBlock::complete(schema.clone(), json("[1, 2, 3]")).unwrap();
    let value = ContentBlock::from(block.clone()).to_json();

    assert_eq!(at(&value, &["type"]), &text("structured_output"));
    assert_eq!(at(&value, &["schema"]), &schema);
    assert_eq!(at(&value, &["output"]), &text("[1,2,3]"));
    assert_eq!(at(&value, &["state"]), &text("complete"));
    assert_eq!(block.schema(), &schema);
    assert_eq!(block.raw_output(), "[1,2,3]");

    let restored = ContentBlock::from_json(&value).unwrap();
    assert_eq!(restored, ContentBlock::from(block));
}

#[test]
fn structured_output_rejects_invalid_schema_roots() {
    for schema in [json("null"), json("\"object\""), json("[\"object\"]")] {
        assert!(matches!(
            StructuredOutputBlock::streaming(schema),
            Err(StructuredOutputError::InvalidSchema)
        ));
    }

    assert!(StructuredOutputBlock::streaming(json("true")).is_ok());
    assert!(StructuredOutputBlock::streaming(json("false")).is_ok());
}

#[test]
fn completed_structured_output_requires_valid_json() {
    let value = json(
        r#"{
        "type": "structured_output",
        "schema": {"type": "object"},
        "output": "{",
        "state": "complete",
        "id": "block-1",
        "created_at": "2026-08-20T12:00:00.000000",
        "finished_at": "2026-08-20T12:00:01.000000"
    }"#,
    );

    assert!(ContentBlock::from_json(&value).is_err());
}

#[test]
fn completed_structured_output_is_immutable() {
    let mut block =
        StructuredOutputBlock::complete(json("{}"), json(r#"{"ok": true}"#)).unwrap();

    assert!(matches!(
        block.append_output_delta(" "),
        Err(StructuredOutputError::AlreadyComplete)
    ));
    assert!(matches!(
        block.finish(),
        Err(StructuredOutputError::AlreadyComplete)
    ));
}

#[test]
fn text_content_excludes_structured_output() {
    let message = Msg::new(
        "Friday",
        Role::Assistant,
        vec![
            ContentBlock::from(
                StructuredOutputBlock::complete(json("{}"), json(r#"{"answer": 42}"#)).unwrap(),
            ),
            ContentBlock::from("Done"),
        ],
    );

    assert_eq!(message.text_content("\n").as_deref(), Some("Done"));
}

#[test]
fn usage_adds_up_and_saturates() {
    let usage = Usage::new(90, 12).with_reasoning_tokens(4).with_cached_input_tokens(8);
    assert_eq!(usage.total_tokens(), 102);
    assert_eq!(
        usage + Usage::new(10, 3).with_reasoning_tokens(1),
        Usage::new(100, 15).with_reasoning_tokens(5).with_cached_input_tokens(8)
    );
    assert_eq!(
        (Usage::new(u64::MAX, 1) + Usage::new(1, 1)).total_tokens(),
        u64::MAX
    );
    assert_eq!(
        usage.to_json().to_text(),
        r#"{"cached_input_tokens":8,"input_tokens":90,"output_tokens":12,"reasoning_tokens":4}"#
    );
    assert_eq!(Usage::from_json(&usage.to_json()), Ok(usage));
    assert_eq!(Usage::from_json(&json(r#"{"input_tokens": 1}"#)), Err(WireError));
}

#[test]
fn messages_with_usage_are_read_back() {
    let original = Msg::assistant("Friday", "Done").with_usage(Usage::new(40, 5));
    assert_eq!(Msg::from_json(&original.to_json()), Ok(original));
    assert_eq!(Msg::from_json(&json("[]")), Err(WireError));
}

fn block(text: &str) -> Option<ContentBlock> {
    ContentBlock::from_json(&json(text)).ok()
}

#[test]
fn structures_are_read_from_arrays_of_their_fields() {
    let named = json(
        r#"{"name": "user", "content": [{"type": "text", "text": "hi", "id": "t", "created_at": "c",
            "finished_at": null}], "role": "user", "id": "m", "metadata": {"k": 1},
            "usage": {"input_tokens": 1, "output_tokens": 2}, "created_at": "c"}"#,
    );
    let listed = json(
        r#"["user", [["text", "hi", "t", "c", null]], {"user": null}, "m", {"k": 1}, [1, 2], "c"]"#,
    );
    assert_eq!(Msg::from_json(&named).unwrap(), Msg::from_json(&listed).unwrap());
    for wrong in [
        r#"["user", [], "user", "m", {}, null]"#,
        r#"["user", [], "user", "m", {}, null, "c", 1]"#,
        r#"["user", [], {"user": {}}, "m", {}, null, "c"]"#,
        r#"["user", [], {"user": null, "x": null}, "m", {}, null, "c"]"#,
        r#"["user", [], {}, "m", {}, null, "c"]"#,
        r#"["user", [], 1, "m", {}, null, "c"]"#,
    ] {
        assert!(Msg::from_json(&json(wrong)).is_err());
    }
    assert_eq!(
        Usage::from_json(&json("[1, 2, 3]")).unwrap(),
        Usage::new(1, 2).with_reasoning_tokens(3)
    );
    assert!(Usage::from_json(&json("[1]")).is_err());
    assert!(Usage::from_json(&json("[1, 2, 3, 4, 5]")).is_err());
}

#[test]
fn nested_content_is_read_from_arrays_names_and_positions() {
    let call = block(
        r#"{"type": "tool_call", "id": "c", "name": "tool", "input": "{}", "state": "finished",
            "suggested_rules": [{"tool_name": "tool", "rule_content": null, "behavior": "deny",
            "source": "s"}], "created_at": "t", "finished_at": null}"#,
    );
    assert!(call.is_some());
    for listed in [
        r#"["tool_call", "c", "tool", "{}", {"finished": {}}, [["tool", null, {"deny": null}, "s"]],
            "t"]"#,
        r#"["tool_call", "c", "tool", "{}", {"finished": null}, [["tool", null, "deny", "s"]], "t",
            null]"#,
    ] {
        assert_eq!(block(listed), call);
    }
    let data = block(
        r#"{"type": "data", "id": "d", "source": {"type": "url", "url": "https://example.com/a",
            "media_type": "image/png"}, "name": null, "created_at": "t", "finished_at": null}"#,
    );
    assert!(data.is_some());
    for listed in [
        r#"["data", "d", ["url", "https://example.com/a", "image/png"], null, "t", null]"#,
        r#"["data", "d", [1, "https://example.com/a", "image/png"], null, "t", null]"#,
        r#"{"type": "data", "id": "d", "source": {"type": 1, "url": "https://example.com/a",
            "media_type": "image/png"}, "created_at": "t"}"#,
    ] {
        assert_eq!(block(listed), data);
    }
    let result = block(
        r#"["tool_result", "c", "tool", [[0, "x", "i", "t", null],
            {"type": 0, "text": "y", "id": "i", "created_at": "t"}], "success", {}, "t"]"#,
    );
    let Some(ContentBlock::ToolResult(result)) = result else {
        panic!("expected a tool result");
    };
    let ToolResultOutput::Blocks(blocks) = result.output() else {
        panic!("expected blocks");
    };
    assert_eq!(blocks.len(), 2);
    let structured = block(r#"["structured_output", {"type": "object"}, "{}", "complete", "s", "t"]"#);
    assert!(matches!(structured, Some(ContentBlock::StructuredOutput(_))));
    for wrong in [
        "[]",
        r#"["text"]"#,
        r#"["text", "hi", "t", "c"]"#,
        r#"[0, "hi", "t", "c", null]"#,
        r#"{"type": 0, "text": "hi", "id": "t", "created_at": "c"}"#,
        r#"["thinking", "hm", "t", "c", null]"#,
        r#"["data", "d", [2, "https://example.com/a", "image/png"], null, "t", null]"#,
        r#"["tool_call", "c", "tool"]"#,
    ] {
        assert_eq!(block(wrong), None);
    }
}
