//! History selection, token budgets and offloaded tool results.
use std::sync::Arc;

use agentscope::agent::react::fit_request;
use agentscope::context::budget::BudgetErrorView;
use agentscope::context::offload::{answer_read, OffloadRead, OffloadedTextChunk};
use agentscope::context::{
    ContextPolicy, FullContext, HeuristicTokenCounter, RecentTurns, TokenBudget, TokenBudgetError,
    TokenCount, TokenCountAccuracy, TokenCounter, ToolResultOffload, ZeroContextTurns,
};
use agentscope::json::Json;
use agentscope::model::request::RequestView;
use agentscope::{
    AgentError, ChatRequest, ContentBlock, DataBlock, GenerateOptions, Msg, Role, TextBlock,
    ToolCallBlock, ToolDefinition, ToolError, ToolResultBlock, ToolResultContent,
    ToolResultOutput, ToolResultState,
};

fn json(text: &str) -> Json {
    Json::parse(text).unwrap()
}

fn call(id: &str) -> Msg {
    Msg::new(
        "agent",
        Role::Assistant,
        vec![ContentBlock::from(
            ToolCallBlock::complete(id, "tool", "{}").unwrap(),
        )],
    )
}

fn result(id: &str) -> Msg {
    Msg::new(
        "tool",
        Role::Assistant,
        vec![ContentBlock::from(
            ToolResultBlock::success(id, "tool", ToolResultOutput::from("done")).unwrap(),
        )],
    )
}

#[test]
fn validates_turn_limit() {
    assert_eq!(RecentTurns::new(0), Err(ZeroContextTurns));
    assert_eq!(RecentTurns::new(3).unwrap().max_turns(), 3);
}

#[test]
fn full_context_and_short_histories_are_unchanged() {
    let policy = RecentTurns::new(1).unwrap();
    for history in [
        vec![],
        vec![Msg::assistant("other", "observation")],
        vec![
            Msg::system("instructions"),
            Msg::user("question"),
            call("c"),
            result("c"),
        ],
    ] {
        assert_eq!(FullContext.select_messages(&history), history);
        assert_eq!(policy.select_messages(&history), history);
        assert_eq!(
            RecentTurns::new(usize::MAX)
                .unwrap()
                .select_messages(&history),
            history
        );
    }
}

#[test]
fn retains_system_messages_and_whole_recent_turns_in_order() {
    let history = vec![
        Msg::system("initial"),
        Msg::user("old"),
        call("old"),
        result("old"),
        Msg::assistant("a", "old answer"),
        Msg::system("updated"),
        Msg::user("recent"),
        call("a"),
        call("b"),
        result("a"),
        result("b"),
        Msg::assistant("a", "answer"),
        Msg::user("current"),
        call("c"),
        result("c"),
    ];
    let original = history.clone();
    let expected = [history[..1].to_vec(), history[5..].to_vec()].concat();
    assert_eq!(
        RecentTurns::new(2).unwrap().select_messages(&history),
        expected
    );
    let expected = [
        vec![history[0].clone(), history[5].clone()],
        history[12..].to_vec(),
    ]
    .concat();
    assert_eq!(
        RecentTurns::new(1).unwrap().select_messages(&history),
        expected
    );
    assert_eq!(history, original);
}

#[test]
fn crosses_user_boundary_without_orphaning_tool_results() {
    let history = vec![
        Msg::user("discard"),
        Msg::assistant("a", "old"),
        Msg::user("keep"),
        call("c"),
        Msg::user("current"),
        result("c"),
    ];
    assert_eq!(
        RecentTurns::new(1).unwrap().select_messages(&history),
        history[2..]
    );
}

#[test]
fn expands_transitive_dependencies_and_retains_batched_siblings() {
    let history = vec![
        Msg::user("discard"),
        Msg::assistant("a", "old"),
        Msg::user("first"),
        call("a"),
        call("b"),
        result("b"),
        Msg::user("second"),
        result("a"),
        call("c"),
        Msg::user("third"),
        result("c"),
    ];
    assert_eq!(
        RecentTurns::new(1).unwrap().select_messages(&history),
        history[2..]
    );
}

#[test]
fn system_results_pull_in_turns_without_orphaning_others() {
    let mut instruction = result("c2");
    instruction.role = Role::System;
    let history = vec![
        Msg::user("a"),
        call("c1"),
        Msg::user("b"),
        call("c2"),
        instruction,
        result("c1"),
        Msg::user("c"),
    ];

    assert_eq!(
        RecentTurns::new(1).unwrap().select_messages(&history),
        history
    );

    let alone = vec![
        Msg::user("a"),
        call("c1"),
        Msg::user("b"),
        history[3].clone(),
        history[4].clone(),
        Msg::user("c"),
    ];
    assert_eq!(
        RecentTurns::new(1).unwrap().select_messages(&alone),
        alone[2..].to_vec()
    );
}

#[test]
fn consecutive_user_messages_are_separate_turns() {
    let history = vec![Msg::user("first"), Msg::user("second"), Msg::user("third")];
    assert_eq!(
        RecentTurns::new(2).unwrap().select_messages(&history),
        history[1..]
    );
}

struct MessageCounter;
impl TokenCounter for MessageCounter {
    fn counted(&self, _: RequestView) -> Result<TokenCount, BudgetErrorView> {
        unreachable!("only proofs speak of it")
    }

    fn count(&self, request: &ChatRequest) -> Result<TokenCount, TokenBudgetError> {
        Ok(TokenCount {
            tokens: request.messages.len() as u64 * 10 + request.tools.len() as u64 * 20,
            accuracy: TokenCountAccuracy::Exact,
        })
    }
}

fn history() -> Vec<Msg> {
    vec![
        Msg::system("instructions"),
        Msg::user("old"),
        Msg::assistant("a", "old answer"),
        Msg::user("recent"),
        Msg::assistant("a", "recent answer"),
        Msg::user("current"),
    ]
}

#[test]
fn configuration_and_output_reservation_are_validated() {
    for (window, output) in [(0, 0), (10, 0), (10, 10), (9, 10)] {
        assert!(matches!(
            TokenBudget::new(window, output),
            Err(TokenBudgetError::InvalidConfiguration)
        ));
    }
    let budget = TokenBudget::new(100, 20)
        .unwrap()
        .with_counter(MessageCounter);
    assert_eq!(budget.context_window(), 100);
    assert_eq!(budget.reserved_output(), 20);
    assert_eq!(budget.input_limit(), 80);
    for output in [0, 21] {
        let request =
            ChatRequest::new(vec![]).with_options(GenerateOptions::new().with_max_tokens(output));
        assert!(
            matches!(budget.apply(request), Err(TokenBudgetError::InvalidOutputLimit { requested, .. }) if requested == output)
        );
    }
    assert_eq!(
        budget
            .apply(ChatRequest::new(vec![]))
            .unwrap()
            .options
            .max_tokens,
        Some(20)
    );
    let request = ChatRequest::new(vec![]).with_options(GenerateOptions::new().with_max_tokens(5));
    assert_eq!(budget.apply(request).unwrap().options.max_tokens, Some(5));
}

#[test]
fn cuts_minimum_complete_turns_and_keeps_system_and_current() {
    let request = ChatRequest::new(history());
    let budget = TokenBudget::new(60, 20)
        .unwrap()
        .with_counter(MessageCounter);
    let selected = budget.apply(request.clone()).unwrap();
    assert_eq!(
        selected.messages,
        [
            request.messages[..1].to_vec(),
            request.messages[3..].to_vec()
        ]
        .concat()
    );
    assert_eq!(request.messages.len(), 6);
    let selected = TokenBudget::new(40, 20)
        .unwrap()
        .with_counter(MessageCounter)
        .apply(request.clone())
        .unwrap();
    assert_eq!(
        selected.messages,
        vec![request.messages[0].clone(), request.messages[5].clone()]
    );
}

#[test]
fn fixed_tool_schemas_are_counted_and_not_pruned() {
    let tool = ToolDefinition::new("lookup", "Lookup", json(r#"{"type":"object"}"#)).unwrap();
    let request = ChatRequest::new(history()).with_tools(vec![tool.clone()]);
    let selected = TokenBudget::new(60, 20)
        .unwrap()
        .with_counter(MessageCounter)
        .apply(request)
        .unwrap();
    assert_eq!(selected.messages.len(), 2);
    assert_eq!(selected.tools, vec![tool]);
}

#[test]
fn oversized_protected_content_returns_structured_error() {
    let budget = TokenBudget::new(39, 20)
        .unwrap()
        .with_counter(MessageCounter);
    let error = budget.apply(ChatRequest::new(history())).unwrap_err();
    assert_eq!(
        error,
        TokenBudgetError::Exceeded {
            input: TokenCount {
                tokens: 20,
                accuracy: TokenCountAccuracy::Exact
            },
            input_limit: 19,
            reserved_output: 20,
        }
    );
    assert!(error.to_string().contains("Exact"));
    assert_eq!(
        fit_request(ChatRequest::new(history()), 0, Some(&budget)),
        Err(AgentError::TokenBudget(error))
    );
}

#[test]
fn untrimmed_requests_are_checked_as_they_stand() {
    let budget = TokenBudget::new(60, 20)
        .unwrap()
        .with_counter(MessageCounter);
    assert_eq!(
        budget.check_without_trimming(ChatRequest::new(history()[..4].to_vec())),
        Ok(())
    );
    assert!(matches!(
        budget.check_without_trimming(ChatRequest::new(history())),
        Err(TokenBudgetError::Exceeded {
            input: TokenCount { tokens: 60, .. },
            input_limit: 40,
            reserved_output: 20,
        })
    ));
    let request = ChatRequest::new(vec![]).with_options(GenerateOptions::new().with_max_tokens(21));
    assert_eq!(
        budget.check_without_trimming(request),
        Err(TokenBudgetError::InvalidOutputLimit {
            requested: 21,
            reserved: 20
        })
    );
}

#[test]
fn no_user_history_is_not_silently_discarded() {
    let request = ChatRequest::new(vec![
        Msg::system("instructions"),
        Msg::assistant("other", "observe"),
    ]);
    let budget = TokenBudget::new(21, 20)
        .unwrap()
        .with_counter(MessageCounter);
    assert!(matches!(
        budget.apply(request),
        Err(TokenBudgetError::Exceeded { .. })
    ));
}

#[test]
fn cross_turn_tool_dependencies_cannot_be_cut_to_satisfy_budget() {
    let call = ToolCallBlock::complete("c", "tool", "{}").unwrap();
    let result = ToolResultBlock::success("c", "tool", ToolResultOutput::from("result")).unwrap();
    let request = ChatRequest::new(vec![
        Msg::user("old"),
        Msg::new("a", Role::Assistant, vec![ContentBlock::from(call)]),
        Msg::user("current"),
        Msg::new("tool", Role::Assistant, vec![ContentBlock::from(result)]),
    ]);
    let budget = TokenBudget::new(50, 20)
        .unwrap()
        .with_counter(MessageCounter);
    assert!(matches!(
        budget.apply(request),
        Err(TokenBudgetError::Exceeded {
            input: TokenCount { tokens: 40, .. },
            ..
        })
    ));
}

#[test]
fn estimator_includes_multilingual_content_system_tools_and_schema() {
    let base = ChatRequest::new(vec![Msg::user("Hello 你好 😀")]);
    let initial = HeuristicTokenCounter.count(&base).unwrap();
    assert_eq!(initial.accuracy, TokenCountAccuracy::Estimated);
    let mut larger = base.clone();
    larger
        .messages
        .insert(0, Msg::system(&"system instructions".repeat(50)));
    assert!(HeuristicTokenCounter.count(&larger).unwrap().tokens > initial.tokens);
    larger = base.clone().with_tools(vec![ToolDefinition::new(
        "tool",
        &"description".repeat(50),
        json(r#"{"type":"object"}"#),
    )
    .unwrap()]);
    assert!(HeuristicTokenCounter.count(&larger).unwrap().tokens > initial.tokens);
    larger = base
        .clone()
        .with_structured_output_schema(json(&format!(
            r#"{{"description":"{}"}}"#,
            "schema".repeat(50)
        )))
        .unwrap();
    assert!(HeuristicTokenCounter.count(&larger).unwrap().tokens > initial.tokens);
    let mut metadata_only = base;
    metadata_only.messages[0].id = "x".repeat(1000);
    metadata_only.messages[0]
        .metadata
        .insert("local".into(), Json::Text("not sent".repeat(1000)));
    assert_eq!(
        HeuristicTokenCounter.count(&metadata_only).unwrap(),
        initial
    );
}

#[test]
fn counter_errors_fail_closed() {
    struct Failing;
    impl TokenCounter for Failing {
        fn counted(&self, _: RequestView) -> Result<TokenCount, BudgetErrorView> {
            unreachable!("only proofs speak of it")
        }

        fn count(&self, _: &ChatRequest) -> Result<TokenCount, TokenBudgetError> {
            Err(TokenBudgetError::Counter("unavailable tokenizer".into()))
        }
    }
    let counter: Arc<Failing> = Arc::new(Failing);
    let budget = TokenBudget::new(100, 20)
        .unwrap()
        .with_shared_counter(counter);
    assert!(matches!(
        budget.apply(ChatRequest::new(history())),
        Err(TokenBudgetError::Counter(_))
    ));
}

#[test]
fn heuristic_rejects_multimodal_messages_and_tool_results() {
    let data = DataBlock::url("https://example.com/image.png", "image/png").unwrap();
    let direct = ContentBlock::from(data.clone());
    let result = ContentBlock::from(
        ToolResultBlock::success(
            "call",
            "tool",
            ToolResultOutput::from(vec![ToolResultContent::Data(data)]),
        )
        .unwrap(),
    );
    for block in [direct, result] {
        let request = ChatRequest::new(vec![Msg::new("user", Role::User, vec![block])]);
        assert_eq!(
            HeuristicTokenCounter.count(&request),
            Err(TokenBudgetError::UnsupportedContent)
        );
    }
}

#[test]
fn heuristic_counts_large_tool_results_and_reports_estimated_overflow() {
    let result = ToolResultBlock::success(
        "call",
        "tool",
        ToolResultOutput::from("output".repeat(1000)),
    )
    .unwrap();
    let request = ChatRequest::new(vec![
        Msg::user("current"),
        Msg::new("tool", Role::Assistant, vec![ContentBlock::from(result)]),
    ]);
    assert!(matches!(
        TokenBudget::new(100, 20).unwrap().apply(request),
        Err(TokenBudgetError::Exceeded {
            input: TokenCount {
                accuracy: TokenCountAccuracy::Estimated,
                ..
            },
            ..
        })
    ));
}

/// Projects every candidate onto one stored text and returns the stored texts.
fn project(config: &ToolResultOffload, messages: &mut Vec<Msg>) -> Vec<String> {
    let mut stored = Vec::new();
    let mut from = (0, 0);
    while let Some((message, block)) = config.next_candidate(messages, from.0, from.1) {
        let ContentBlock::ToolResult(result) = &messages[message].content[block] else {
            panic!("expected a tool result");
        };
        let ToolResultOutput::Text(text) = result.output() else {
            panic!("expected text");
        };
        stored.push(text.clone());
        config.project_at(messages, message, block, "blob").unwrap();
        from = (message, block + 1);
    }
    stored
}

#[test]
fn projection_preserves_identity_and_bounds_escaped_unicode_preview() {
    let config = ToolResultOffload::new(1024, 512, 128).unwrap();
    let result = ToolResultBlock::success(
        "call",
        "tool",
        ToolResultOutput::from("\0🙂".repeat(1000)),
    )
    .unwrap();
    let original = Msg::new("tool", Role::User, vec![ContentBlock::from(result.clone())]);
    let mut projected = vec![original.clone()];
    let stored = project(&config, &mut projected);
    let ContentBlock::ToolResult(changed) = &projected[0].content[0] else {
        panic!("expected a tool result");
    };
    let ToolResultOutput::Text(text) = changed.output() else {
        panic!("expected text");
    };
    assert!(text.len() <= 1024);
    assert_eq!(changed.clone().with_output(result.output().clone()), result);
    assert_eq!(projected[0].id, original.id);
    assert_eq!(stored.len(), 1);
}

#[test]
fn exactly_the_candidates_change() {
    let config = ToolResultOffload::new(1024, 512, 128).unwrap();
    let large = |id: &str| {
        ContentBlock::from(
            ToolResultBlock::success(id, "tool", ToolResultOutput::from("x".repeat(2000))).unwrap(),
        )
    };
    let small =
        ContentBlock::from(ToolResultBlock::success("s", "tool", ToolResultOutput::from("x")).unwrap());
    let original = vec![
        Msg::user("question"),
        Msg::new(
            "tool",
            Role::Assistant,
            vec![large("a"), small.clone(), large("b")],
        ),
        Msg::new("tool", Role::Assistant, vec![small, large("c")]),
    ];
    let mut projected = original.clone();
    assert_eq!(project(&config, &mut projected).len(), 3);
    for (before, after) in original.iter().zip(&projected) {
        let mut restored = after.clone();
        for (index, block) in before.content.iter().enumerate() {
            if config.is_candidate(block) {
                assert_ne!(&after.content[index], block);
                assert!(!config.is_candidate(&after.content[index]));
                restored.content[index] = block.clone();
            } else {
                assert_eq!(&after.content[index], block);
            }
        }
        assert_eq!(&restored, before);
    }
}

#[test]
fn blocks_errors_running_and_read_pages_are_not_offloaded() {
    let config = ToolResultOffload::new(1024, 64, 128).unwrap();
    let text = "x".repeat(3000);
    let results = [
        ToolResultBlock::success(
            "a",
            "tool",
            ToolResultOutput::from(vec![ToolResultContent::Text(TextBlock::new(&text))]),
        )
        .unwrap(),
        ToolResultBlock::finished(
            "b",
            "tool",
            ToolResultOutput::from(&*text),
            ToolResultState::Error,
        )
        .unwrap(),
        ToolResultBlock::running("c", "tool")
            .unwrap()
            .with_output(ToolResultOutput::from(text.clone())),
        ToolResultBlock::success("d", "read_offloaded_text", ToolResultOutput::from(&*text))
            .unwrap(),
    ];
    let original = vec![Msg::new(
        "tool",
        Role::User,
        results.into_iter().map(ContentBlock::from).collect(),
    )];
    let mut projected = original.clone();
    assert!(project(&config, &mut projected).is_empty());
    assert_eq!(projected, original);
}

#[test]
fn offload_reads_are_checked_both_ways() {
    let config = ToolResultOffload::new(1024, 64, 128).unwrap();
    let read = config
        .parse_read(&json(r#"{"id": "blob", "offset": 3, "max_bytes": 128}"#))
        .unwrap();
    assert_eq!(
        read,
        OffloadRead {
            id: "blob".into(),
            offset: 3,
            limit: 128
        }
    );
    let invalid = ToolError::new("invalid offload read arguments").with_code("offload_read");
    for input in [
        r#"{"id": "blob", "offset": 3, "max_bytes": 129}"#,
        r#"{"id": "blob", "offset": 3, "max_bytes": 3}"#,
        r#"{"id": "blob", "offset": -1, "max_bytes": 8}"#,
        r#"{"offset": 3, "max_bytes": 8}"#,
    ] {
        assert_eq!(config.parse_read(&json(input)), Err(invalid.clone()));
    }
    let reply = answer_read(
        &read,
        OffloadedTextChunk {
            text: "abc".into(),
            next_offset: 6,
            total_bytes: 10,
        },
    )
    .unwrap();
    let ToolResultOutput::Text(reply) = reply else {
        panic!("expected text");
    };
    assert_eq!(json(&reply).get("text"), Some(&Json::Text("abc".into())));
    assert!(answer_read(
        &read,
        OffloadedTextChunk {
            text: "abc".into(),
            next_offset: 7,
            total_bytes: 10,
        },
    )
    .is_err());
    assert_eq!(config.reader().unwrap().name, "read_offloaded_text");
    assert_eq!(
        ToolResultOffload::new(0, 64, 128).unwrap_err(),
        ToolError::new("invalid offload byte limits").with_code("offload_config")
    );
    assert!(ToolResultOffload::new(576, 64, 4).is_ok());
    assert!(ToolResultOffload::new(575, 64, 4).is_err());
    assert!(ToolResultOffload::new(576, 64, 3).is_err());
}

#[test]
fn stores_must_return_plain_identifiers() {
    let config = ToolResultOffload::new(1024, 64, 128).unwrap();
    let text = "x".repeat(3000);
    let result = ToolResultBlock::success("a", "tool", ToolResultOutput::from(&*text)).unwrap();
    let invalid = ToolError::new("store returned invalid offload ID").with_code("offload_id");
    for id in ["", "a b", "../blob"] {
        assert_eq!(config.project(result.clone(), id), Err(invalid.clone()));
    }
    assert_eq!(
        config.project(result.clone(), &"x".repeat(129)),
        Err(invalid)
    );
    let projected = config.project(result, "blob-1_A").unwrap();
    let ToolResultOutput::Text(reference) = projected.output() else {
        panic!("expected text");
    };
    assert_eq!(
        json(reference),
        json(&format!(
            r#"{{"offloaded_text": {{"id": "blob-1_A", "total_bytes": 3000, "preview": "{}",
                "preview_bytes": 64, "read_tool": "read_offloaded_text", "max_read_bytes": 128}}}}"#,
            "x".repeat(64)
        ))
    );
}
