use kiro_web_search::json::Json;
use kiro_web_search::models::anthropic::AnthropicTool;
use kiro_web_search::web_search::WebSearchResult;
use kiro_web_search::web_search_loop::{
    bearer_authorization, build_followup_payload, can_build_followup, has_web_search_tool,
    is_uuid, kiro_api_url, server_tool_id_from_uuid, KiroResponse, KiroToolUse,
    KiroUsage, LoopAction, LoopPhase, WebSearchLoop,
};

fn s(v: &str) -> Json {
    Json::Str(v.to_string())
}

fn obj(members: Vec<(&str, Json)>) -> Json {
    Json::Object(members.into_iter().map(|(k, v)| (k.to_string(), v)).collect())
}

fn path(keys: &[&str]) -> Vec<String> {
    keys.iter().map(|k| k.to_string()).collect()
}

#[test]
fn test_has_web_search_tool_true() {
    let tools = vec![AnthropicTool {
        name: "web_search".to_string(),
        description: None,
        input_schema: None,
        tool_type: Some("web_search_20250305".to_string()),
    }];
    assert!(has_web_search_tool(&Some(tools)));
}

#[test]
fn test_has_web_search_tool_false_regular_tool() {
    let tools = vec![AnthropicTool {
        name: "web_search".to_string(),
        description: Some("desc".to_string()),
        input_schema: Some(obj(vec![("type", s("object"))])),
        tool_type: None,
    }];
    assert!(!has_web_search_tool(&Some(tools)));
}

#[test]
fn test_has_web_search_tool_false_none() {
    assert!(!has_web_search_tool(&None));
}

#[test]
fn has_web_search_tool_among_others() {
    let tools = vec![
        AnthropicTool {
            name: "Bash".to_string(),
            description: None,
            input_schema: Some(obj(vec![])),
            tool_type: None,
        },
        AnthropicTool {
            name: "web_search".to_string(),
            description: None,
            input_schema: None,
            tool_type: None,
        },
    ];
    assert!(has_web_search_tool(&Some(tools)));
    assert!(!has_web_search_tool(&Some(vec![])));
}

fn original_payload() -> Json {
    obj(vec![(
        "conversationState",
        obj(vec![
            ("chatTriggerType", s("MANUAL")),
            ("conversationId", s("test-123")),
            (
                "currentMessage",
                obj(vec![(
                    "userInputMessage",
                    obj(vec![
                        ("content", s("What is Rust?")),
                        ("modelId", s("kiro-model-4.6")),
                        ("origin", s("AI_EDITOR")),
                        ("userInputMessageContext", obj(vec![("tools", Json::Array(vec![]))])),
                    ]),
                )]),
            ),
        ]),
    )])
}

#[test]
fn test_build_followup_payload() {
    let original = original_payload();
    let followup = build_followup_payload(
        &original,
        "Let me search for that.",
        "toolu_123",
        "Search results for \"Rust\":\n\n1. Rust Lang (https://rust-lang.org)\n",
    );

    let history = match followup.get_path(&path(&["conversationState", "history"]), 0) {
        Some(Json::Array(items)) => items,
        other => panic!("history is no array: {:?}", other),
    };
    assert_eq!(history.len(), 1);

    let current_content = match followup
        .get_path(&path(&["conversationState", "currentMessage", "userInputMessage", "content"]), 0)
    {
        Some(Json::Str(text)) => text,
        other => panic!("content is no string: {:?}", other),
    };
    assert!(current_content.contains("Search results"));
}

#[test]
fn followup_records_the_turn_and_tool_result() {
    let original = original_payload();
    let followup = build_followup_payload(&original, "Looking.", "toolu_9", "RESULTS");
    let turn = obj(vec![
        ("userInputMessage", obj(vec![("content", s("What is Rust?"))])),
        (
            "assistantResponseMessage",
            obj(vec![
                ("content", s("Looking.")),
                (
                    "toolUses",
                    Json::Array(vec![obj(vec![
                        ("toolUseId", s("toolu_9")),
                        ("name", s("web_search")),
                        ("input", obj(vec![])),
                    ])]),
                ),
            ]),
        ),
    ]);
    assert_eq!(
        followup.get_path(&path(&["conversationState", "history"]), 0),
        Some(&Json::Array(vec![turn.clone()]))
    );
    let tool_results = Json::Array(vec![obj(vec![
        ("content", Json::Array(vec![obj(vec![("text", s("RESULTS"))])])),
        ("status", s("success")),
        ("toolUseId", s("toolu_9")),
    ])]);
    let uim = path(&["conversationState", "currentMessage", "userInputMessage"]);
    let ctx = followup.get_path(&uim, 0).unwrap();
    assert_eq!(ctx.get(&"content".to_string()), Some(&s("RESULTS")));
    assert_eq!(ctx.get(&"modelId".to_string()), Some(&s("kiro-model-4.6")));
    let uimc = ctx.get(&"userInputMessageContext".to_string()).unwrap();
    assert_eq!(uimc.get(&"toolResults".to_string()), Some(&tool_results));
    assert_eq!(uimc.get(&"tools".to_string()), Some(&Json::Array(vec![])));
    assert_eq!(
        followup.get_path(&path(&["conversationState", "conversationId"]), 0),
        Some(&s("test-123"))
    );

    // A second follow-up keeps the first turn and appends another.
    let second = build_followup_payload(&followup, "Again.", "toolu_10", "MORE");
    match second.get_path(&path(&["conversationState", "history"]), 0) {
        Some(Json::Array(items)) => {
            assert_eq!(items.len(), 2);
            assert_eq!(items[0], turn);
            assert_eq!(
                items[1].get(&"userInputMessage".to_string()),
                Some(&obj(vec![("content", s("RESULTS"))]))
            );
        },
        other => panic!("history is no array: {:?}", other),
    }
}

#[test]
fn followup_of_null_payload_builds_the_structure() {
    assert!(can_build_followup(&Json::Null));
    let followup = build_followup_payload(&Json::Null, "a", "id", "t");
    assert!(can_build_followup(&followup));
    assert_eq!(
        followup.get_path(&path(&["conversationState", "currentMessage", "userInputMessage", "content"]), 0),
        Some(&s("t"))
    );
}

#[test]
fn followup_cannot_be_built_through_non_objects() {
    assert!(can_build_followup(&original_payload()));
    assert!(!can_build_followup(&s("payload")));
    assert!(!can_build_followup(&obj(vec![("conversationState", Json::Array(vec![]))])));
    let bad_context = obj(vec![(
        "conversationState",
        obj(vec![(
            "currentMessage",
            obj(vec![("userInputMessage", obj(vec![("userInputMessageContext", s("x"))]))]),
        )]),
    )]);
    assert!(!can_build_followup(&bad_context));
}

const UUID: &str = "0123abcd-4567-4ef0-89ab-cdef01234567";

#[test]
fn server_tool_id_is_made_from_uuid() {
    assert_eq!(server_tool_id_from_uuid(UUID), "srvtoolu_0123abcd45674ef089abcdef");
}

#[test]
fn uuid_text_is_recognised() {
    assert!(is_uuid(UUID));
    assert!(is_uuid(&uuid_with(0)));
    assert!(!is_uuid("0123ABCD-4567-4ef0-89ab-cdef01234567"));
    assert!(!is_uuid("0123abcd45674ef089abcdef01234567"));
    assert!(!is_uuid("0123abcd-4567-4ef0-89ab-cdef0123456"));
    assert!(!is_uuid("0123abcd-4567-4ef0-89ab-cdef0123456g"));
    assert!(!is_uuid("0123abcd-45674-ef0-89ab-cdef01234567"));
    assert!(!is_uuid(""));
}

fn uuid_with(n: u32) -> String {
    format!("{:08x}-0000-4000-8000-000000000000", n)
}

#[test]
fn kiro_request_strings() {
    assert_eq!(
        kiro_api_url("us-east-1"),
        "https://codewhisperer.us-east-1.amazonaws.com/generateAssistantResponse"
    );
    assert_eq!(bearer_authorization("tok"), "Bearer tok");
}

fn call(id: &str, name: &str, query: Option<&str>) -> KiroToolUse {
    KiroToolUse {
        tool_use_id: id.to_string(),
        name: name.to_string(),
        input: match query {
            Some(q) => obj(vec![("query", s(q))]),
            None => obj(vec![]),
        },
    }
}

fn response(content: &str, calls: Vec<KiroToolUse>, usage: Option<(i32, i32)>) -> KiroResponse {
    KiroResponse {
        content: content.to_string(),
        tool_calls: calls,
        usage: usage.map(|(i, o)| KiroUsage { input_tokens: i, output_tokens: o }),
    }
}

fn hit(url: &str, title: &str, date: Option<&str>) -> WebSearchResult {
    WebSearchResult {
        url: url.to_string(),
        title: title.to_string(),
        text: String::new(),
        highlights: vec![],
        published_date: date.map(|d| d.to_string()),
    }
}

#[test]
fn loop_without_search_ends_after_one_response() {
    let mut l = WebSearchLoop::new(&original_payload(), 3);
    assert_eq!(l.next_action(), LoopAction::SendRequest(original_payload()));
    let a = l.on_response_using(response("Hello", vec![call("t1", "Bash", None)], Some((10, 5))), "");
    assert_eq!(a, LoopAction::Finish);
    assert_eq!(l.phase(), LoopPhase::Finished);
    let r = l.into_result();
    assert_eq!(
        r.content_blocks,
        vec![
            obj(vec![("type", s("text")), ("text", s("Hello"))]),
            obj(vec![("type", s("tool_use")), ("id", s("t1")), ("name", s("Bash")), ("input", obj(vec![]))]),
        ]
    );
    assert_eq!(r.stop_reason, "tool_use");
    assert_eq!((r.input_tokens, r.output_tokens), (10, 5));
}

#[test]
fn loop_returns_plain_answer_with_end_turn() {
    let mut l = WebSearchLoop::new(&original_payload(), 3);
    let a = l.on_response_using(response("Hi", vec![], None), "");
    assert_eq!(a, LoopAction::Finish);
    let r = l.into_result();
    assert_eq!(r.content_blocks, vec![obj(vec![("type", s("text")), ("text", s("Hi"))])]);
    assert_eq!(r.stop_reason, "end_turn");
    assert_eq!((r.input_tokens, r.output_tokens), (0, 0));
}

#[test]
fn loop_returns_tool_calls_without_text() {
    let mut l = WebSearchLoop::new(&original_payload(), 3);
    let calls = vec![call("t1", "Read", Some("a")), call("t2", "Bash", None)];
    let a = l.on_response_using(response("", calls, Some((1, 2))), "");
    assert_eq!(a, LoopAction::Finish);
    let r = l.into_result();
    assert_eq!(
        r.content_blocks,
        vec![
            obj(vec![
                ("type", s("tool_use")),
                ("id", s("t1")),
                ("name", s("Read")),
                ("input", obj(vec![("query", s("a"))])),
            ]),
            obj(vec![("type", s("tool_use")), ("id", s("t2")), ("name", s("Bash")), ("input", obj(vec![]))]),
        ]
    );
    assert_eq!(r.stop_reason, "tool_use");
}

#[test]
fn loop_tool_calls_after_a_search() {
    let mut l = WebSearchLoop::new(&original_payload(), 3);
    l.on_response_using(response("", vec![call("toolu_1", "web_search", Some("q"))], None), UUID);
    let a = l.on_search_result_using(None, "");
    assert!(matches!(a, LoopAction::SendRequest(_)));
    let a = l.on_response_using(response("Now run it.", vec![call("t9", "Bash", None)], None), "");
    assert_eq!(a, LoopAction::Finish);
    let r = l.into_result();
    assert_eq!(r.content_blocks.len(), 4);
    assert_eq!(r.content_blocks[2], obj(vec![("type", s("text")), ("text", s("Now run it."))]));
    assert_eq!(r.content_blocks[3].get(&"type".to_string()), Some(&s("tool_use")));
    assert_eq!(r.stop_reason, "tool_use");
}

#[test]
fn loop_with_zero_iterations_does_nothing() {
    let l = WebSearchLoop::new(&original_payload(), 0);
    assert_eq!(l.next_action(), LoopAction::Finish);
    let r = l.into_result();
    assert!(r.content_blocks.is_empty());
    assert_eq!(r.stop_reason, "end_turn");
    assert_eq!((r.input_tokens, r.output_tokens), (0, 0));
}

#[test]
fn loop_searches_then_answers() {
    let mut l = WebSearchLoop::new(&original_payload(), 3);
    let a = l.on_response_using(
        response("Let me search.", vec![call("toolu_1", "web_search", Some("rust"))], Some((10, 2))),
        UUID,
    );
    assert_eq!(a, LoopAction::Search("rust".to_string()));
    let results = vec![hit("https://rust-lang.org", "Rust", Some("2025-01-01"))];
    assert!(l.accepts_results());
    let a = l.on_search_result_using(Some(results), "");
    let payload = match a {
        LoopAction::SendRequest(p) => p,
        other => panic!("expected a request, got {:?}", other),
    };
    assert_eq!(
        payload.get_path(&path(&["conversationState", "currentMessage", "userInputMessage", "content"]), 0),
        Some(&s("Search results for \"rust\":\n\n1. Rust (https://rust-lang.org)\n\n"))
    );
    let a = l.on_response_using(response("Rust is a language.", vec![], Some((20, 7))), "");
    assert_eq!(a, LoopAction::Finish);
    let r = l.into_result();
    let id = "srvtoolu_0123abcd45674ef089abcdef";
    assert_eq!(
        r.content_blocks,
        vec![
            obj(vec![("type", s("text")), ("text", s("Let me search."))]),
            obj(vec![
                ("type", s("server_tool_use")),
                ("id", s(id)),
                ("name", s("web_search")),
                ("input", obj(vec![("query", s("rust"))])),
            ]),
            obj(vec![
                ("type", s("web_search_tool_result")),
                ("tool_use_id", s(id)),
                (
                    "content",
                    Json::Array(vec![obj(vec![
                        ("type", s("web_search_result")),
                        ("url", s("https://rust-lang.org")),
                        ("title", s("Rust")),
                        ("page_age", s("2025-01-01")),
                    ])]),
                ),
            ]),
            obj(vec![("type", s("text")), ("text", s("Rust is a language."))]),
        ]
    );
    assert_eq!((r.input_tokens, r.output_tokens), (30, 9));
}

#[test]
fn loop_failed_search_emits_error_and_keeps_payload() {
    let mut l = WebSearchLoop::new(&original_payload(), 2);
    l.on_response_using(response("", vec![call("toolu_1", "web_search", None)], None), UUID);
    let a = l.on_search_result_using(None, "");
    assert_eq!(a, LoopAction::SendRequest(original_payload()));
    l.on_response_using(response("Sorry.", vec![], None), "");
    let r = l.into_result();
    let id = "srvtoolu_0123abcd45674ef089abcdef";
    assert_eq!(r.content_blocks.len(), 3);
    assert_eq!(
        r.content_blocks[0],
        obj(vec![
            ("type", s("server_tool_use")),
            ("id", s(id)),
            ("name", s("web_search")),
            ("input", obj(vec![("query", s(""))])),
        ])
    );
    assert_eq!(
        r.content_blocks[1],
        obj(vec![
            ("type", s("web_search_tool_result")),
            ("tool_use_id", s(id)),
            (
                "content",
                obj(vec![("type", s("web_search_tool_result_error")), ("error_code", s("unavailable"))]),
            ),
        ])
    );
}

#[test]
fn loop_searches_each_call_and_stops_at_the_limit() {
    let mut l = WebSearchLoop::new(&original_payload(), 1);
    let calls = vec![
        call("toolu_1", "web_search", Some("one")),
        call("toolu_x", "other", Some("no")),
        call("toolu_2", "web_search", Some("two")),
    ];
    let a = l.on_response_using(response("", calls, Some((1, 1))), &uuid_with(1));
    assert_eq!(a, LoopAction::Search("one".to_string()));
    let a = l.on_search_result_using(Some(vec![]), &uuid_with(2));
    assert_eq!(a, LoopAction::Search("two".to_string()));
    let a = l.on_search_result_using(None, "");
    assert_eq!(a, LoopAction::Finish);
    let r = l.into_result();
    assert_eq!(r.content_blocks.len(), 4);
    let id1 = match r.content_blocks[0].get(&"id".to_string()) {
        Some(Json::Str(id)) => id.clone(),
        other => panic!("no id: {:?}", other),
    };
    let id2 = match r.content_blocks[2].get(&"id".to_string()) {
        Some(Json::Str(id)) => id.clone(),
        other => panic!("no id: {:?}", other),
    };
    assert_eq!(id1, "srvtoolu_000000010000400080000000");
    assert_eq!(id2, "srvtoolu_000000020000400080000000");
    assert_eq!(r.content_blocks[1].get(&"tool_use_id".to_string()), Some(&s(&id1)));
    assert_eq!(r.content_blocks[3].get(&"tool_use_id".to_string()), Some(&s(&id2)));
}

#[test]
fn loop_token_totals_must_fit() {
    let mut l = WebSearchLoop::new(&original_payload(), 3);
    let big = response("", vec![call("t", "web_search", Some("q"))], Some((i32::MAX, 0)));
    assert!(l.tokens_fit(&big));
    l.on_response_using(big, UUID);
    l.on_search_result_using(None, "");
    assert!(!l.tokens_fit(&response("", vec![], Some((1, 0)))));
    assert!(l.tokens_fit(&response("", vec![], None)));
}
