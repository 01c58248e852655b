//! Snapshots, stores, memory, checkpoints, events and their errors.
use agentscope::agent::{
    AgentHookError, AgentState, InMemoryStateStore, InterruptSignal, PendingToolCalls,
    PendingToolExecution, StateKey, StateRecord, StateStoreError, ToolConfirmation,
    ToolConfirmationDecision, AGENT_STATE_VERSION,
};
use agentscope::context::summary::{
    budgeted_summary_request, fingerprint, summary_request, summary_text,
};
use agentscope::context::{ContextSummary, SummaryError, TokenBudget};
use agentscope::json::Json;
use agentscope::memory::{check_schema_version, validate_session_id};
use agentscope::message::decode::WireError;
use agentscope::message::source::{message_text, source_text};
use agentscope::{
    AgentError, AgentEvent, ChatEvent, ChatResponse, ContentBlock, FinishReason, InMemoryMemory,
    MemoryError, ModelError, Msg, ToolCallBlock, ToolCallState, ToolError, Usage,
};

fn json(text: &str) -> Json {
    Json::parse(text).unwrap()
}

#[test]
fn state_store_is_object_safe_and_versions_updates() {
    let mut store = InMemoryStateStore::new();
    let key = StateKey::new("user-1", "session-1").unwrap();
    let first_state = AgentState::new("Friday", vec![Msg::user("first")]);

    assert!(store.load(&key).is_none());
    let first = store.save(key.clone(), None, first_state).unwrap();
    assert_eq!(first.revision(), 1);
    let encoded = first.to_json().to_text();
    assert_eq!(StateRecord::from_json(&json(&encoded)).unwrap(), first);
    assert!(StateRecord::from_parts(0, AgentState::new("Friday", Vec::new())).is_err());
    assert!(StateRecord::from_json(&json(
        r#"{"revision": 0, "state": {"format_version": 4, "agent_name": "Friday", "messages": []}}"#
    ))
    .is_err());
    let second_state = AgentState::new("Friday", vec![Msg::user("second")]);
    let second = store
        .save(key.clone(), Some(1), second_state.clone())
        .unwrap();

    assert_eq!(second.revision(), 2);
    assert_eq!(store.load(&key).unwrap().state(), &second_state);
}

#[test]
fn state_store_rejects_stale_writes_without_overwriting() {
    let mut store = InMemoryStateStore::new();
    let key = StateKey::new("user-1", "session-1").unwrap();
    let original = AgentState::new("Friday", vec![Msg::user("original")]);
    store.save(key.clone(), None, original.clone()).unwrap();

    let error = store
        .save(
            key.clone(),
            None,
            AgentState::new("Friday", vec![Msg::user("stale")]),
        )
        .unwrap_err();

    assert_eq!(error.code.as_deref(), Some("revision_conflict"));
    assert!(error.retryable);
    assert_eq!(error, StateStoreError::conflict(None, Some(1)));
    assert_eq!(store.load(&key).unwrap().state(), &original);
}

#[test]
fn state_store_isolates_users_and_sessions() {
    let mut store = InMemoryStateStore::new();
    let first = StateKey::new("user-1", "session-1").unwrap();
    let second = StateKey::new("user-1", "session-2").unwrap();
    let third = StateKey::new("user-2", "session-1").unwrap();

    for (key, text) in [(&first, "first"), (&second, "second"), (&third, "third")] {
        store
            .save(
                key.clone(),
                None,
                AgentState::new("Friday", vec![Msg::user(text)]),
            )
            .unwrap();
    }

    assert_eq!(
        store.load(&second).unwrap().state().messages()[0].text_content(""),
        Some("second".to_owned())
    );
}

#[test]
fn state_keys_validate_identity_and_round_trip_through_json() {
    let key = StateKey::new("user-1", "session-1").unwrap();
    let encoded = key.to_json().to_text();

    assert_eq!(StateKey::from_json(&json(&encoded)).unwrap(), key);
    assert_eq!(
        StateKey::new(" ", "session").unwrap_err().code.as_deref(),
        Some("invalid_user_id")
    );
    assert_eq!(
        StateKey::new("user", " ").unwrap_err().code.as_deref(),
        Some("invalid_session_id")
    );
    assert!(StateKey::from_json(&json(r#"{"user_id":" ","session_id":"session"}"#)).is_err());
}

#[test]
fn state_round_trips_through_json_with_an_explicit_version() {
    let state = AgentState::new("Friday", vec![Msg::user("Hello")]);
    let value = state.to_json();

    assert_eq!(
        value.get("format_version"),
        Some(&Json::Unsigned(AGENT_STATE_VERSION as u64))
    );
    assert_eq!(
        value.get("agent_name"),
        Some(&Json::Text("Friday".to_owned()))
    );
    assert_eq!(value.get("pending_tool_calls"), None);
    assert_eq!(AgentState::from_json(&value).unwrap(), state);
}

#[test]
fn states_with_checkpoints_and_summary_are_read_back() {
    let mut call = ToolCallBlock::complete("call-1", "calculator", "{}").unwrap();
    call.state = ToolCallState::Asking;
    let pending = PendingToolCalls::new("reply-1".to_owned(), 2, vec![call]);
    let execution = PendingToolExecution::new(
        "execution-1".to_owned(),
        pending.clone(),
        vec![
            ToolConfirmation::approve("call-1"),
            ToolConfirmation::deny("call-2", "not authorized"),
        ],
    );
    let state = AgentState::new("Friday", vec![Msg::user("Hello")])
        .with_pending_tool_calls(Some(pending))
        .with_pending_tool_execution(Some(execution))
        .with_context_summary(Some(ContextSummary::from_parts(
            "Summary".to_owned(),
            3,
            "ab".to_owned(),
        )));
    let read = AgentState::from_json(&json(&state.to_json().to_text())).unwrap();
    assert_eq!(read, state);
    assert_eq!(AgentState::from_json(&json("{}")), Err(WireError));
    let legacy = json(r#"{"format_version": 1, "agent_name": "Friday", "messages": []}"#);
    let legacy = AgentState::from_json(&legacy).unwrap();
    assert_eq!(legacy.format_version(), 1);
    assert!(legacy.pending_tool_calls().is_none());
}

#[test]
fn confirmations_round_trip_through_json() {
    let cases = [
        ToolConfirmation::approve("call-1"),
        ToolConfirmation::deny("call-2", "not authorized"),
    ];

    for confirmation in &cases {
        let encoded = confirmation.to_json().to_text();
        let decoded = ToolConfirmation::from_json(&json(&encoded)).unwrap();
        assert_eq!(&decoded, confirmation);
    }
    assert!(matches!(
        cases[0].decision(),
        ToolConfirmationDecision::Approve
    ));
    assert_eq!(
        cases[1].to_json().to_text(),
        r#"{"decision":{"decision":"deny","reason":"not authorized"},"tool_call_id":"call-2"}"#
    );
}

#[test]
fn checkpoints_are_validated() {
    let call = |id: &str, state: ToolCallState| {
        let mut call = ToolCallBlock::complete(id, "calculator", "{}").unwrap();
        call.state = state;
        call
    };
    let asking = || call("call-1", ToolCallState::Asking);
    assert_eq!(
        PendingToolCalls::new("reply".to_owned(), 1, vec![asking()]).validate(),
        Ok(())
    );
    for (pending, fault) in [
        (
            PendingToolCalls::new(" ".to_owned(), 1, vec![asking()]),
            "pending tool reply id cannot be empty",
        ),
        (
            PendingToolCalls::new("reply".to_owned(), 0, vec![asking()]),
            "pending tool step must be greater than zero",
        ),
        (
            PendingToolCalls::new("reply".to_owned(), 1, vec![]),
            "pending tool calls cannot be empty",
        ),
        (
            PendingToolCalls::new(
                "reply".to_owned(),
                1,
                vec![call("call-1", ToolCallState::Pending)],
            ),
            "pending tool call `call-1` must be in asking state",
        ),
        (
            PendingToolCalls::new("reply".to_owned(), 1, vec![asking(), asking()]),
            "duplicate pending tool call id `call-1`",
        ),
    ] {
        assert_eq!(pending.validate(), Err(fault.to_owned()));
    }
}

#[test]
fn interrupt_wakes_active_tokens_without_affecting_future_operations() {
    let mut handle = InterruptSignal::new();
    let active = handle.token();
    assert!(!active.is_interrupted(&handle));

    handle.interrupt();

    assert!(active.is_interrupted(&handle));
    assert!(!handle.token().is_interrupted(&handle));
}

#[test]
fn in_memory_memory_preserves_order_and_returns_snapshots() {
    let mut memory = InMemoryMemory::from_messages(vec![Msg::system("Be concise")]);
    memory.append(vec![Msg::user("Hello"), Msg::assistant("bot", "Hi")]);

    let mut snapshot = memory.messages();
    snapshot.push(Msg::user("not persisted"));
    let stored = memory.messages();

    assert_eq!(stored.len(), 3);
    assert_eq!(stored[0].text_content(""), Some("Be concise".to_owned()));
    assert_eq!(stored[1].text_content(""), Some("Hello".to_owned()));
    assert_eq!(stored[2].text_content(""), Some("Hi".to_owned()));
}

#[test]
fn memory_is_object_safe_and_can_be_cleared() {
    let mut memory = InMemoryMemory::new();

    memory.append(vec![Msg::user("Hello")]);
    assert_eq!(memory.messages().len(), 1);
    memory.clear();

    assert!(memory.messages().is_empty());
}

#[test]
fn sqlite_memory_rejects_blank_session_ids() {
    let error = validate_session_id("  ".to_owned()).unwrap_err();

    assert_eq!(error.code.as_deref(), Some("invalid_session_id"));
    assert_eq!(
        validate_session_id("session-1".to_owned()),
        Ok("session-1".to_owned())
    );
}

#[test]
fn sqlite_memory_rejects_unknown_schema_versions() {
    let error = check_schema_version(999).unwrap_err();

    assert_eq!(error.code.as_deref(), Some("unsupported_schema_version"));
    assert_eq!(
        error.message,
        "unsupported SQLite memory schema version 999; expected 1"
    );
    assert_eq!(check_schema_version(1), Ok(()));
    assert!(check_schema_version(-1)
        .unwrap_err()
        .message
        .contains("version -1;"));
}

#[test]
fn model_events_lift_into_their_agent_step() {
    let usage = Usage::new(3, 5);
    let cases = [
        (
            ChatEvent::TextDelta {
                block_id: "text-1".to_owned(),
                delta: "hello".to_owned(),
            },
            AgentEvent::TextDelta {
                step: 2,
                block_id: "text-1".to_owned(),
                delta: "hello".to_owned(),
            },
        ),
        (
            ChatEvent::ThinkingDelta {
                block_id: "thinking-1".to_owned(),
                delta: "reason".to_owned(),
            },
            AgentEvent::ThinkingDelta {
                step: 2,
                block_id: "thinking-1".to_owned(),
                delta: "reason".to_owned(),
            },
        ),
        (
            ChatEvent::ToolCallDelta {
                tool_call_id: "call-1".to_owned(),
                tool_name: "calculator".to_owned(),
                delta: "{}".to_owned(),
            },
            AgentEvent::ToolCallDelta {
                step: 2,
                tool_call_id: "call-1".to_owned(),
                tool_name: "calculator".to_owned(),
                delta: "{}".to_owned(),
            },
        ),
        (
            ChatEvent::StructuredOutputDelta {
                block_id: "output-1".to_owned(),
                schema: json(r#"{"type": "object"}"#),
                delta: "{}".to_owned(),
            },
            AgentEvent::StructuredOutputDelta {
                step: 2,
                block_id: "output-1".to_owned(),
                schema: json(r#"{"type": "object"}"#),
                delta: "{}".to_owned(),
            },
        ),
        (
            ChatEvent::Usage { usage },
            AgentEvent::Usage { step: 2, usage },
        ),
        (
            ChatEvent::Finished {
                reason: FinishReason::ToolCalls,
            },
            AgentEvent::StepFinished {
                step: 2,
                reason: FinishReason::ToolCalls,
            },
        ),
        (
            ChatEvent::Error {
                error: ModelError::new("provider failed").with_code("provider_error"),
            },
            AgentEvent::Error {
                step: Some(2),
                error: AgentError::Model(
                    ModelError::new("provider failed").with_code("provider_error"),
                ),
            },
        ),
    ];

    for (model_event, expected) in cases {
        assert_eq!(AgentEvent::from_chat_event(2, model_event), expected);
    }
}

#[test]
fn hook_errors_are_structured_and_round_trip_through_json() {
    let error = AgentHookError::new("metrics backend unavailable").with_code("metrics_down");

    let encoded = error.to_json().to_text();
    let decoded = AgentHookError::from_json(&json(&encoded)).unwrap();

    assert_eq!(decoded, error);
    assert_eq!(
        error.to_string(),
        "agent hook error metrics_down: metrics backend unavailable"
    );
}

#[test]
fn errors_say_what_happened() {
    for (error, text) in [
        (AgentError::EmptyName, "agent name cannot be empty"),
        (
            AgentError::ZeroMaxSteps,
            "agent max_steps must be greater than zero",
        ),
        (
            AgentError::from(ModelError::new("failed")),
            "agent model failed: model error: failed",
        ),
        (
            AgentError::from(ToolError::new("failed")),
            "agent tool execution failed: tool error: failed",
        ),
        (
            AgentError::from(MemoryError::new("failed")),
            "agent memory failed: memory error: failed",
        ),
        (
            AgentError::MemoryNotConfigured,
            "agent operation requires configured conversation memory",
        ),
        (
            AgentError::ToolConfirmationRequired {
                checkpoint: PendingToolCalls::new("reply-1".to_owned(), 1, vec![]),
            },
            "agent is waiting for confirmation of reply reply-1",
        ),
        (
            AgentError::NoPendingToolConfirmation,
            "agent has no pending tool confirmation",
        ),
        (
            AgentError::InvalidToolConfirmation("why".to_owned()),
            "invalid tool confirmation: why",
        ),
        (
            AgentError::UnsupportedStateVersion {
                found: 5,
                supported: 4,
            },
            "unsupported agent state version 5; expected 4",
        ),
        (
            AgentError::StateAgentMismatch {
                expected: "Friday".to_owned(),
                found: "Sat\"urday".to_owned(),
            },
            "agent state belongs to \"Sat\\\"urday\", but target agent is \"Friday\"",
        ),
        (AgentError::Interrupted, "agent operation was interrupted"),
        (
            AgentError::InvalidModelResponse("why".to_owned()),
            "invalid model response: why",
        ),
        (
            AgentError::MaxStepsExceeded { max_steps: 8 },
            "agent exceeded its limit of 8 model calls",
        ),
    ] {
        assert_eq!(error.to_string(), text);
    }
}

fn summarized_history() -> Vec<Msg> {
    vec![
        Msg::system("Never disclose private data."),
        Msg::user("old question"),
        Msg::assistant("Friday", "old answer"),
    ]
}

#[test]
fn chat_model_summarizer_uses_one_bounded_tool_free_request() {
    let budget = TokenBudget::new(10000, 500).unwrap();
    let request = budgeted_summary_request(&summarized_history(), &budget).unwrap();
    assert_eq!(request.messages.len(), 2);
    assert_eq!(request.options.max_tokens, Some(500));
    assert!(request.tools.is_empty());
    assert!(!request.messages[1]
        .text_content("")
        .unwrap()
        .contains("Never disclose"));
    assert_eq!(
        summary_text(&ChatResponse::completed(vec![ContentBlock::from(
            "Summary facts"
        )])),
        Ok("Summary facts".to_owned())
    );
    for reason in [FinishReason::Length, FinishReason::ToolCalls] {
        assert_eq!(
            summary_text(&ChatResponse::finished(
                vec![ContentBlock::from("partial")],
                reason
            )),
            Err(SummaryError::InvalidResponse)
        );
    }
    let tiny = TokenBudget::new(2, 1).unwrap();
    assert!(matches!(
        budgeted_summary_request(&summarized_history(), &tiny),
        Err(SummaryError::Budget(_))
    ));
    assert_eq!(
        summary_request(&[Msg::user("unanswered")]),
        Err(SummaryError::IncompleteHistory)
    );
}

#[test]
fn summaries_are_bound_to_their_source() {
    assert_eq!(
        fingerprint(&[]),
        "4f53cda18c2baa0c0354bb5f9a3ecbe5ed12ab4d8e11ba873c2f11161202b945"
    );
    let mut history = summarized_history();
    let summary = ContextSummary::new("Summary".to_owned(), &history).unwrap();
    assert_eq!(summary.covered_messages(), history.len());
    assert_eq!(summary.source_sha256(), fingerprint(&history));
    history.push(Msg::user("next"));
    assert_eq!(summary.validate(&history), Ok(()));
    history.push(Msg::assistant("agent", "more"));
    assert_eq!(summary.validate(&history), Ok(()));
    let mut changed = history.clone();
    changed[0].name.push('!');
    assert_eq!(summary.validate(&changed), Err(SummaryError::StaleSource));
    changed[0] = history[0].clone();
    assert_eq!(summary.validate(&changed), Ok(()));
    changed[1].created_at.push('!');
    assert_eq!(summary.validate(&changed), Err(SummaryError::StaleSource));
}

#[test]
fn source_text_keeps_the_declared_order_of_fields() {
    let text = concat_lines(&[
        r#"[{"name":"user","content":["#,
        r#"{"type":"text","text":"say \"hi\"\n","id":"t1","created_at":"c","finished_at":null},"#,
        r#"{"type":"thinking","thinking":"hm","id":"k1","created_at":"c","finished_at":"f","#,
        r#""a":[1,2.5],"signature":"s"},"#,
        r#"{"type":"thinking","thinking":"","id":"k2","created_at":"c","finished_at":null},"#,
        r#"{"type":"data","id":"d1","source":{"type":"base64","data":"AQID","media_type":"image/png"},"#,
        r#""name":"n","created_at":"c","finished_at":null},"#,
        r#"{"type":"data","id":"d2","source":{"type":"url","url":"https://example.com/a.png","#,
        r#""media_type":"image/png"},"name":null,"created_at":"c","finished_at":null}],"#,
        r#""role":"user","id":"m1","metadata":{"k":{"a":true,"b":null}},"created_at":"c1"},"#,
        r#"{"name":"agent","content":["#,
        r#"{"type":"tool_call","id":"c1","name":"tool","input":"{}","state":"finished","#,
        r#""suggested_rules":[{"tool_name":"tool","rule_content":null,"behavior":"allow","source":"x"}],"#,
        r#""created_at":"c","finished_at":"f"},"#,
        r#"{"type":"tool_result","id":"c1","name":"tool","output":"done","state":"success","#,
        r#""metadata":{},"created_at":"c","finished_at":"f"},"#,
        r#"{"type":"tool_result","id":"c2","name":"tool","output":["#,
        r#"{"type":"text","text":"x","id":"t2","created_at":"c","finished_at":null},"#,
        r#"{"type":"data","id":"d3","source":{"type":"base64","data":"AQID","media_type":"image/png"},"#,
        r#""name":null,"created_at":"c","finished_at":null}],"state":"error","#,
        r#""metadata":{"m":-1},"created_at":"c","finished_at":null},"#,
        r#"{"type":"structured_output","schema":{"type":"object"},"output":"{\"a\":1}","#,
        r#""state":"complete","id":"s1","created_at":"c","finished_at":null}],"#,
        r#""role":"assistant","id":"m2","metadata":{},"#,
        r#""usage":{"input_tokens":10,"output_tokens":4,"reasoning_tokens":3,"cached_input_tokens":2},"#,
        r#""created_at":"c2"},"#,
        r#"{"name":"system","content":[],"role":"system","id":"m3","metadata":{},"#,
        r#""usage":{"input_tokens":1,"output_tokens":0},"created_at":"c3"}]"#,
    ]);
    let messages: Vec<Msg> = match json(&text) {
        Json::Array(items) => items.iter().map(|item| Msg::from_json(item).unwrap()).collect(),
        _ => Vec::new(),
    };
    assert_eq!(messages.len(), 3);
    assert_eq!(source_text(&messages), text);
    assert_eq!(format!("[{}]", message_text(&messages[0])), source_text(&messages[..1]));
    assert_eq!(
        fingerprint(&messages),
        "b36666eb4c84db7794f007e1978d97c2f68b2908a6ebacc6189f60ac403d9add"
    );
}

fn concat_lines(lines: &[&str]) -> String {
    lines.concat()
}

#[test]
fn stored_forms_are_read_from_arrays_of_their_fields() {
    let call = r#"["c", "tool", "{}", {"asking": null}, [], "t"]"#;
    let pending = PendingToolCalls::from_json(&json(&format!(r#"["reply", 1, [{call}]]"#))).unwrap();
    assert_eq!(pending.reply_id(), "reply");
    assert_eq!(pending.calls()[0].state, ToolCallState::Asking);
    let nested = r#"["c", "tool", "{}", {"asking": {}}, [], "t"]"#;
    assert!(PendingToolCalls::from_json(&json(&format!(r#"["reply", 1, [{nested}]]"#))).is_err());
    for (form, expected) in [
        (r#"["c", ["approve"]]"#, Some(ToolConfirmation::approve("c"))),
        (r#"["c", ["deny", "no"]]"#, Some(ToolConfirmation::deny("c", "no"))),
        (
            r#"["c", {"decision": "approve", "more": 1}]"#,
            Some(ToolConfirmation::approve("c")),
        ),
        (r#"["c", ["approve", "no"]]"#, None),
        (r#"["c", ["deny"]]"#, None),
        (r#"["c", [0]]"#, None),
        (r#"["c", "approve"]"#, None),
    ] {
        assert_eq!(ToolConfirmation::from_json(&json(form)).ok(), expected);
    }
    let state = AgentState::from_json(&json(r#"[4, "Friday", []]"#)).unwrap();
    assert_eq!(state, AgentState::new("Friday", Vec::new()));
    assert!(AgentState::from_json(&json(r#"[4, "Friday"]"#)).is_err());
    let record = StateRecord::from_json(&json(r#"[2, [4, "Friday", [], null, null, ["s", 1, "d"]]]"#));
    let record = record.unwrap();
    assert_eq!(record.revision(), 2);
    assert_eq!(record.state().context_summary().unwrap().text(), "s");
    assert_eq!(
        StateKey::from_json(&json(r#"["user", "session"]"#)).unwrap(),
        StateKey::new("user", "session").unwrap()
    );
    assert!(StateKey::from_json(&json(r#"["user", " "]"#)).is_err());
    assert_eq!(
        AgentHookError::from_json(&json(r#"["down"]"#)).unwrap(),
        AgentHookError::new("down")
    );
}
