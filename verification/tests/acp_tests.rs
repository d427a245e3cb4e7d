use dwo_agent::acp::{
    build_config_options, build_permission_request, build_session_update, config_options_after_change,
    extract_content_text, is_stdio_eof_error, map_stop_reason, normalize_prompt_blocks,
    parse_config_option, parse_tool_call_content, parse_tool_call_status, parse_tool_kind,
    permission_decision, permission_request, render_tool_call_content, render_tool_call_text,
    session_update, truncate_text, AcpStopReason, ConfigTarget, PermissionReply, PromptBlock, SessionUpdate, ToolCallStatus, ToolKind,
};
use dwo_agent::acp_server::{
    agent_capabilities, answer_list_sessions, answer_load_session, answer_new_session,
    answer_prompt, answer_set_config, answer_set_mode, news_after_prompt, refuse_prompt, Refusal,
};
use dwo_agent::activity::ActivityEvent;
use dwo_agent::json::{Json, JsonNumber, Member};
use dwo_agent::models::{
    AgentState, AgentTools, ContextUsageSnapshot, PolicyMode, ReasoningMode, ToolSwitch,
};
use dwo_agent::session::{ModelProfile, ModelRegistry, SessionMetaPayload};
use serde_json::Value;

fn text(s: &str) -> Json {
    Json::Text(s.to_string())
}

fn member(key: &str, value: Json) -> Member {
    Member { key: key.to_string(), value }
}

fn value(j: &Json) -> Value {
    match j {
        Json::Null => Value::Null,
        Json::Bool(b) => Value::Bool(*b),
        Json::Number(JsonNumber::Unsigned(n)) => Value::from(*n),
        Json::Number(JsonNumber::Negative(n)) => Value::from(*n),
        Json::Number(JsonNumber::Other(s)) => serde_json::from_str(s).unwrap(),
        Json::Text(s) => Value::String(s.clone()),
        Json::Array(items) => Value::Array(items.iter().map(value).collect()),
        Json::Object(members) => {
            let mut map = serde_json::Map::new();
            for m in members {
                map.insert(m.key.clone(), value(&m.value));
            }
            Value::Object(map)
        }
    }
}

fn parsed(s: &str) -> Value {
    serde_json::from_str(s).unwrap()
}

fn image(data: &str, mime: &str) -> PromptBlock {
    PromptBlock::Image { data: data.to_string(), mime_type: mime.to_string(), uri: None }
}

#[test]
fn normalize_prompt_blocks_rejects_empty_prompt() {
    let error = normalize_prompt_blocks(&Vec::new()).unwrap_err();
    assert!(error.contains("prompt cannot be empty"));
}

#[test]
fn normalize_prompt_blocks_rejects_only_empty_text() {
    let prompt = vec![PromptBlock::Text("   ".to_string())];
    let error = normalize_prompt_blocks(&prompt).unwrap_err();
    assert!(error.contains("prompt cannot be empty"));
}

#[test]
fn normalize_prompt_blocks_ignores_empty_text_around_resource_link() {
    let prompt = vec![
        PromptBlock::Text("   ".to_string()),
        PromptBlock::Resource(Json::Object(vec![
            member("type", text("resource_link")),
            member("uri", text("file:///tmp/example.md")),
            member("name", text("example.md")),
            member("mimeType", text("text/markdown")),
        ])),
        PromptBlock::Text("  summarize this  ".to_string()),
    ];

    let (user_input, user_blocks) = normalize_prompt_blocks(&prompt).unwrap();

    assert_eq!(
        value(&user_input),
        Value::Array(user_blocks.iter().map(value).collect())
    );
    assert_eq!(user_blocks[0].get_str("type"), Some("resource_link"));
    assert_eq!(
        value(&user_blocks[1]),
        parsed(r#"{"type": "text", "text": "summarize this"}"#)
    );
}

#[test]
fn normalize_prompt_blocks_accepts_single_text_as_string_input() {
    let prompt = vec![PromptBlock::Text("hello".to_string())];

    let (user_input, user_blocks) = normalize_prompt_blocks(&prompt).unwrap();

    assert_eq!(value(&user_input), Value::String("hello".to_string()));
    assert_eq!(user_blocks.len(), 1);
    assert_eq!(
        value(&user_blocks[0]),
        parsed(r#"{"type": "text", "text": "hello"}"#)
    );
}

#[test]
fn normalize_prompt_blocks_rejects_image_without_data_or_uri() {
    let error = normalize_prompt_blocks(&vec![image("", "")]).unwrap_err();
    assert!(error.contains("image block at index 0 must provide either data or uri"));
}

#[test]
fn normalize_prompt_blocks_converts_image_data_to_image_url() {
    let (user_input, user_blocks) = normalize_prompt_blocks(&vec![image("abc", "image/png")]).unwrap();

    assert_eq!(
        value(&user_input),
        Value::Array(user_blocks.iter().map(value).collect())
    );
    assert_eq!(user_blocks.len(), 1);
    assert_eq!(
        value(&user_blocks[0]),
        parsed(
            r#"{"type": "image_url", "image_url": {"url": "data:image/png;base64,abc"}}"#
        )
    );
}

#[test]
fn render_tool_call_content_prefers_command_input() {
    let input = Json::Object(vec![
        member("command", text("cargo check")),
        member("timeout", Json::Number(JsonNumber::Unsigned(30))),
    ]);
    let content = render_tool_call_content(Some(&input), None).unwrap();
    assert_eq!(content, "cargo check");
    let other = Json::Object(vec![member("timeout", Json::Number(JsonNumber::Unsigned(30)))]);
    assert_eq!(
        render_tool_call_content(Some(&other), None).unwrap(),
        "{\n  \"timeout\": 30\n}"
    );
    assert_eq!(render_tool_call_text(Some(&other), Some(" "), None), None);
    assert_eq!(render_tool_call_content(None, None), None);
}

#[test]
fn render_tool_call_content_wraps_raw_output_as_json() {
    let output = Json::Object(vec![member("status", text("completed_success"))]);
    let content = render_tool_call_content(None, Some(&output)).unwrap();
    assert!(content.starts_with("```json\n"));
    assert!(content.contains("\"status\": \"completed_success\""));
}

#[test]
fn parse_tool_call_content_uses_explicit_markdown_content() {
    let content = parse_tool_call_content(&Json::Array(vec![Json::Object(vec![
        member("type", text("content")),
        member(
            "content",
            Json::Object(vec![
                member("type", text("text")),
                member("text", text("Agent Flow:\n\n[tool] terminal_exec")),
            ]),
        ),
    ])]))
    .unwrap();
    assert_eq!(content[0], "Agent Flow:\n\n[tool] terminal_exec");
}

#[test]
fn agent_message_reaches_the_client() {
    let update = ActivityEvent::agent_message_text("hi").into_update();
    assert_eq!(extract_content_text(&update), "hi");
    assert!(matches!(
        build_session_update(&update, None, None),
        Some(SessionUpdate::AgentMessageChunk(s)) if s == "hi"
    ));
    let unknown = vec![member("session_update", text("nothing"))];
    assert!(build_session_update(&unknown, None, None).is_none());
    assert!(session_update(&unknown).is_none());
}

#[test]
fn tool_calls_are_written_out_for_the_client() {
    let input = Json::Object(vec![
        member("path", text("a \"b\"")),
        member("lines", Json::Array(vec![Json::Null, Json::Bool(true)])),
        member("ratio", Json::Number(JsonNumber::Other("0.5".to_string()))),
        member("offset", Json::Number(JsonNumber::Negative(-3))),
    ]);
    let written = "{\n  \"path\": \"a \\\"b\\\"\",\n  \"lines\": [\n    null,\n    true\n  ],\n  \"ratio\": 0.5,\n  \"offset\": -3\n}";
    let update = vec![
        member("session_update", text("tool_call")),
        member("tool_call_id", text("c1")),
        member("title", text("read")),
        member("raw_input", input),
    ];
    match session_update(&update) {
        Some(SessionUpdate::ToolCall(call)) => {
            assert_eq!(call.tool_call_id, "c1");
            assert_eq!(call.content, Some(vec![written.to_string()]));
        }
        other => panic!("{other:?}"),
    }
    let call = permission_request(&update);
    assert_eq!(call.content, Some(vec![written.to_string()]));
    let done = vec![
        member("session_update", text("tool_call_update")),
        member("raw_output", text("ok")),
    ];
    match session_update(&done) {
        Some(SessionUpdate::ToolCallUpdate(call)) => {
            assert_eq!(call.content, Some(vec!["```json\n\"ok\"\n```".to_string()]));
        }
        other => panic!("{other:?}"),
    }
}

#[test]
fn only_approval_allows() {
    let selected = |s: &str| PermissionReply::Selected(s.to_string());
    assert_eq!(permission_decision(&selected("allow_once")), "allow_once");
    assert_eq!(permission_decision(&selected("whatever")), "reject_once");
    assert_eq!(permission_decision(&PermissionReply::Other), "reject_once");
    assert_eq!(permission_decision(&PermissionReply::Cancelled), "cancelled");
    let call = build_permission_request(&vec![member("title", text("t"))], None, None);
    assert_eq!(call.tool_call_id, "unknown");
    assert_eq!(call.title.as_deref(), Some("t"));
}

#[test]
fn names_are_mapped() {
    assert_eq!(map_stop_reason("cancelled"), AcpStopReason::Cancelled);
    assert_eq!(map_stop_reason("anything"), AcpStopReason::EndTurn);
    assert_eq!(parse_tool_call_status("failed"), ToolCallStatus::Failed);
    assert_eq!(parse_tool_call_status("in_progress"), ToolCallStatus::InProgress);
    assert_eq!(parse_tool_kind("execute"), ToolKind::Execute);
    assert_eq!(parse_tool_kind("nothing"), ToolKind::Other);
    assert_eq!(truncate_text("abcdef", 3), "abc\n[TRUNCATED]");
    assert_eq!(truncate_text("abc", 3), "abc");
    assert!(is_stdio_eof_error("... ACP stdio input closed ..."));
    assert!(!is_stdio_eof_error("other"));
}

fn registry() -> ModelRegistry {
    ModelRegistry {
        profiles: vec![ModelProfile {
            model_name: "m1".to_string(),
            provider: "deepseek".to_string(),
            model_id: "deepseek-v4".to_string(),
            vision: true,
            tool_use: true,
            context_window: 1000,
            reasoning_modes: vec![ReasoningMode::Auto, ReasoningMode::High],
            default_reasoning_mode: ReasoningMode::Auto,
        }],
    }
}

fn meta() -> SessionMetaPayload {
    SessionMetaPayload {
        session_id: "s1".to_string(),
        cwd: "/work".to_string(),
        title: Some("Title".to_string()),
        model_id: "m1".to_string(),
        mode_id: PolicyMode::Confirm,
        state: AgentState::Idle,
        stop_reason: None,
        updated_at: None,
        max_running_turn: None,
        runtime_tools: AgentTools {
            mcp: ToolSwitch::Enable,
            file_edit: ToolSwitch::Enable,
            terminal: ToolSwitch::Enable,
            subagent: ToolSwitch::Enable,
        },
        tool_schemas: Vec::new(),
        pending_model_id: None,
        reasoning_mode: ReasoningMode::Auto,
        pending_reasoning_mode: Some(ReasoningMode::High),
    }
}

#[test]
fn waiting_settings_are_shown_after_a_change() {
    let options = config_options_after_change(&meta(), &registry());
    assert!(options.iter().any(|o| o.current == "high"));
    let options = build_config_options("m1", "confirm", "auto", &registry());
    assert!(options.iter().all(|o| o.current != "high"));
    assert!(matches!(parse_config_option("model"), Ok(ConfigTarget::Model)));
    assert_eq!(
        parse_config_option("x").unwrap_err(),
        "Unsupported config option: x"
    );
}

#[test]
fn requests_are_answered() {
    assert!(!agent_capabilities().audio);
    assert!(agent_capabilities().load_session);
    let settings = answer_new_session(Ok(meta()), &registry()).unwrap();
    assert_eq!(settings.modes.current_mode_id, "confirm");
    assert_eq!(settings.modes.modes.len(), 3);
    let listed = answer_list_sessions(false, &vec![meta()]);
    assert_eq!(listed[0].session_id, "s1");
    assert_eq!(listed[0].title.as_deref(), Some("Title"));
    assert!(answer_list_sessions(true, &vec![meta()]).is_empty());
    let loaded = answer_load_session(Ok(Some(meta())), Ok(()), &registry()).unwrap();
    assert_eq!(loaded.info, Some(("Title".to_string(), String::new())));
    assert_eq!(answer_set_mode(Ok(Some(meta())), &registry()).unwrap().mode, "confirm");
    let changed = answer_set_config(Ok(ConfigTarget::PolicyMode), Ok(Some(meta())), &registry());
    assert_eq!(changed.unwrap().mode, Some("confirm"));
    let changed = answer_set_config(Ok(ConfigTarget::Model), Ok(Some(meta())), &registry());
    assert_eq!(changed.unwrap().mode, None);
    assert_eq!(
        answer_prompt(Ok("max_turns".to_string())).unwrap(),
        map_stop_reason("max_turns")
    );
    let usage = || ContextUsageSnapshot { used: 1, size: 2 };
    assert!(news_after_prompt(false, Some((meta(), usage())), &registry()).is_none());
    assert!(news_after_prompt(true, None, &registry()).is_none());
    assert_eq!(
        news_after_prompt(true, Some((meta(), usage())), &registry()).unwrap().usage.used,
        1
    );
}

#[test]
fn refused_requests_are_told_why() {
    let not_found = |r: Refusal| matches!(r, Refusal::InvalidParams(s) if s == "session not found");
    assert!(not_found(answer_load_session(Ok(None), Ok(()), &registry()).unwrap_err()));
    assert!(not_found(answer_set_mode(Ok(None), &registry()).unwrap_err()));
    assert!(not_found(
        answer_set_config(Ok(ConfigTarget::Model), Ok(None), &registry()).unwrap_err()
    ));
    let broken = || "broken".to_string();
    assert!(matches!(
        answer_new_session(Err(broken()), &registry()).unwrap_err(),
        Refusal::Internal(s) if s == "broken"
    ));
    assert!(matches!(
        answer_load_session(Err(broken()), Ok(()), &registry()).unwrap_err(),
        Refusal::Internal(_)
    ));
    assert!(matches!(
        answer_load_session(Ok(Some(meta())), Err(broken()), &registry()).unwrap_err(),
        Refusal::Internal(_)
    ));
    assert!(matches!(
        answer_set_mode(Err(broken()), &registry()).unwrap_err(),
        Refusal::InvalidParams(_)
    ));
    assert!(matches!(
        answer_set_config(Err(broken()), Ok(None), &registry()).unwrap_err(),
        Refusal::InvalidParams(s) if s == "broken"
    ));
    assert!(matches!(answer_prompt(Err(broken())).unwrap_err(), Refusal::Internal(_)));
    assert!(matches!(refuse_prompt(broken()), Refusal::InvalidParams(_)));
}
