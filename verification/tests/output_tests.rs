use dwo_agent::activity::{
    tool_call_pending, tool_permission_payload, ActivityEvent, ToolCallEvent,
    EVENT_TOOL_CALL_UPDATE,
};
use dwo_agent::automation::{begin_run, AutomationJobConfig, AutomationSchedule};
use dwo_agent::automation::{AutomationSessionConfig, ChannelResponseDetail};
use dwo_agent::blocks::{build_agent_prompt, build_agent_system_context, build_rule, RuleFile};
use dwo_agent::bridge::{ChannelBridge, ChannelBridgeState, SessionLeaseRegistry};
use dwo_agent::bridge::PendingConfirmationRegistry;
use dwo_agent::channel_config::ChannelRuntimeConfig;
use dwo_agent::channel_tools::{
    has_weixin_reply_media_tool, FeishuCall, FeishuReplyCardResult, FeishuReplyMediaKind,
    FeishuReplyMediaResult, FeishuToolExecutor, WeixinReplyMediaResult, WeixinToolExecutor,
    FEISHU_REPLY_CARD_TOOL, FEISHU_REPLY_MEDIA_TOOL, WEIXIN_REPLY_MEDIA_TOOL,
};
use dwo_agent::dashboard::{
    channel_rows, context_window_of, display_session_title, run_log_event, session_order,
    ChannelEndpoints,
};
use dwo_agent::file_edit::relative_display;
use dwo_agent::json::{Json, JsonNumber, Member};
use dwo_agent::manager::ConversationContextManager;
use dwo_agent::models::{AgentState, AgentTools, PolicyMode, ReasoningMode, ToolSwitch};
use dwo_agent::session::SessionMetaPayload;
use dwo_agent::skills::{build_available_skills, read_properties, LocatedSkill};
use dwo_agent::subagent_session::{subagent_not_found, SubagentSession};
use dwo_agent::terminal::{terminal_not_found, HandleState, TerminalSession};
use dwo_agent::tools::{default_list_item, tool_update};
use dwo_agent::turn::{ToolCall, TurnLoop};
use dwo_agent::usage::assistant_message_count;

fn text(s: &str) -> Json {
    Json::Text(s.to_string())
}

fn fields(members: Vec<(&str, Json)>) -> Vec<Member> {
    members
        .into_iter()
        .map(|(key, value)| Member { key: key.to_string(), value })
        .collect()
}

fn object(members: Vec<(&str, Json)>) -> Json {
    Json::Object(fields(members))
}

fn value(j: &Json) -> serde_json::Value {
    match j {
        Json::Null => serde_json::Value::Null,
        Json::Bool(b) => serde_json::Value::Bool(*b),
        Json::Number(JsonNumber::Unsigned(n)) => serde_json::Value::from(*n),
        Json::Number(JsonNumber::Negative(n)) => serde_json::Value::from(*n),
        Json::Number(JsonNumber::Other(s)) => serde_json::from_str(s).unwrap(),
        Json::Text(s) => serde_json::Value::String(s.clone()),
        Json::Array(items) => serde_json::Value::Array(items.iter().map(value).collect()),
        Json::Object(members) => {
            let mut map = serde_json::Map::new();
            for m in members {
                map.insert(m.key.clone(), value(&m.value));
            }
            serde_json::Value::Object(map)
        }
    }
}

fn parsed(s: &str) -> serde_json::Value {
    serde_json::from_str(s).unwrap()
}

fn meta(id: &str, title: Option<&str>, stamp: Option<&str>) -> SessionMetaPayload {
    SessionMetaPayload {
        session_id: id.to_string(),
        cwd: "/work".to_string(),
        title: title.map(|t| t.to_string()),
        model_id: "m".to_string(),
        mode_id: PolicyMode::Confirm,
        state: AgentState::Idle,
        stop_reason: None,
        updated_at: stamp.map(|t| t.to_string()),
        max_running_turn: None,
        runtime_tools: AgentTools {
            mcp: ToolSwitch::Enable,
            file_edit: ToolSwitch::Enable,
            terminal: ToolSwitch::Enable,
            subagent: ToolSwitch::Enable,
        },
        tool_schemas: Vec::new(),
        pending_model_id: None,
        reasoning_mode: ReasoningMode::Auto,
        pending_reasoning_mode: None,
    }
}

#[test]
fn context_blocks_are_built() {
    assert_eq!(
        build_agent_prompt("/a/system.md", Some("  Be <kind>.\n")).unwrap(),
        "<agent_prompt>\nBe &lt;kind&gt;.\n</agent_prompt>"
    );
    assert_eq!(
        build_agent_prompt("/a/system.md", None).unwrap_err(),
        "Missing agent prompt file. Expected: /a/system.md"
    );
    assert_eq!(
        build_agent_prompt("/a/system.md", Some(" \n")).unwrap_err(),
        "Agent prompt file is empty: /a/system.md"
    );
    let agent = RuleFile { path: "/a/x.rule.md".to_string(), text: Some(" be brief \n".to_string()) };
    let workspace = vec![
        RuleFile { path: "/w/AGENTS.md".to_string(), text: None },
        RuleFile { path: "/w/RULES.txt".to_string(), text: Some("  ".to_string()) },
    ];
    assert_eq!(
        build_rule(&agent, &workspace),
        "<rule>\n<agent_rule>\n<source>\n/a/x.rule.md\n</source>\n<content>\nbe brief\n</content>\n</agent_rule>\n</rule>"
    );
    let blocks = build_agent_system_context(
        "<p>".to_string(),
        " ".to_string(),
        "<t>".to_string(),
        String::new(),
        "<s>".to_string(),
        "<e>".to_string(),
    );
    assert_eq!(blocks, "<agent_context>\n<p>\n\n<t>\n\n<s>\n\n<e>\n</agent_context>");
}

#[test]
fn available_skills_are_listed() {
    assert_eq!(
        build_available_skills(&Vec::new()),
        "<available_skills>\n</available_skills>"
    );
    let content = "---\nname: pdf-tools\ndescription: Reads <pdf> files\n---\nbody";
    let properties = read_properties(content, "/s/SKILL.md").unwrap();
    let skills = vec![LocatedSkill { properties, location: "/s/SKILL.md".to_string() }];
    assert_eq!(
        build_available_skills(&skills),
        "<available_skills>\n<skill>\n<name>\npdf-tools\n</name>\n<description>\nReads &lt;pdf&gt; files\n</description>\n<location>\n/s/SKILL.md\n</location>\n</skill>\n</available_skills>"
    );
}

#[test]
fn channel_tools_say_what_they_did() {
    let weixin = WeixinToolExecutor { allowed_roots: Vec::new() };
    assert!(weixin.handles_tool(WEIXIN_REPLY_MEDIA_TOOL));
    assert!(!weixin.handles_tool(FEISHU_REPLY_MEDIA_TOOL));
    assert_eq!(weixin.read_call(WEIXIN_REPLY_MEDIA_TOOL, " a.png ").unwrap(), "a.png");
    assert_eq!(weixin.read_call(WEIXIN_REPLY_MEDIA_TOOL, " ").unwrap_err(), "path is required");
    assert_eq!(weixin.read_call("other", "a").unwrap_err(), "Unknown Weixin tool: other");
    let sent = WeixinReplyMediaResult { message_id: "m1".to_string() };
    assert_eq!(
        value(&weixin.media_output(&sent, "/r/a.png")),
        parsed(r#"{"status": "ok", "done": true, "message_id": "m1", "path": "/r/a.png"}"#)
    );

    let feishu = FeishuToolExecutor {
        allowed_roots: Vec::new(),
        media_output: true,
        card_output: false,
    };
    assert!(feishu.handles_tool(FEISHU_REPLY_MEDIA_TOOL));
    assert!(!feishu.handles_tool(FEISHU_REPLY_CARD_TOOL));
    match feishu.read_media_call(" f.pdf ", FeishuReplyMediaKind::File, Some(" ")).unwrap() {
        FeishuCall::Media { path, kind, file_type } => {
            assert_eq!(path, "f.pdf");
            assert!(matches!(kind, FeishuReplyMediaKind::File));
            assert_eq!(file_type, None);
        }
        FeishuCall::Card { .. } => panic!("a file is no card"),
    }
    assert!(feishu.read_media_call(" ", FeishuReplyMediaKind::Auto, None).is_err());
    assert!(feishu.read_card_call(object(vec![("header", text("h"))])).is_ok());
    match feishu.read_card_call(text("h")) {
        Err(error) => assert_eq!(error, "card must be a JSON object"),
        Ok(_) => panic!("a text is no card"),
    }
    assert_eq!(feishu.unknown_tool("x"), "Unknown Feishu tool: x");
    let sent = FeishuReplyMediaResult {
        message_id: "m2".to_string(),
        resource_key: "k".to_string(),
        msg_type: "file".to_string(),
    };
    assert_eq!(
        value(&feishu.media_result(&sent, "/r/f.pdf")),
        parsed(r#"{"status": "ok", "done": true, "message_id": "m2", "resource_key": "k",
            "msg_type": "file", "path": "/r/f.pdf"}"#)
    );
    let sent = FeishuReplyCardResult { message_id: "m3".to_string() };
    assert_eq!(
        value(&feishu.card_result(&sent)),
        parsed(r#"{"status": "ok", "done": true, "message_id": "m3", "msg_type": "interactive"}"#)
    );
    let schema = object(vec![("function", object(vec![("name", text(WEIXIN_REPLY_MEDIA_TOOL))]))]);
    assert!(has_weixin_reply_media_tool(&vec![schema]));
    assert!(!has_weixin_reply_media_tool(&vec![Json::Null]));
}

#[test]
fn bridge_says_where_it_is() {
    let bridge = ChannelBridge {
        holder: "weixin:a".to_string(),
        default_session_id: "home".to_string(),
    };
    let mut leases = SessionLeaseRegistry::new();
    let state = ChannelBridgeState {
        default_session_id: "home".to_string(),
        active_session_id: Some("s2".to_string()),
        updated_at: None,
    };
    assert_eq!(
        bridge.render_where(&leases, &state),
        "当前会话：s2\n默认会话：home\n占用者：none"
    );
    leases.acquire_sync("s2", "weixin:a", "now").unwrap();
    assert_eq!(
        bridge.render_where(&leases, &state),
        "当前会话：s2\n默认会话：home\n占用者：weixin:a"
    );
    assert_eq!(bridge.render_session_list(&Vec::new(), &state), "暂无 session。");
    let many: Vec<SessionMetaPayload> =
        (0..32).map(|i| meta(&format!("s{i}"), None, None)).collect();
    let shown = bridge.render_session_list(&many, &state);
    let lines: Vec<&str> = shown.lines().collect();
    assert_eq!(lines.len(), 32);
    assert_eq!(lines[0], "sessions:");
    assert!(lines[3].starts_with("* "));
    assert_eq!(lines[31], "... 还有 2 个 session");

    let mut registry = PendingConfirmationRegistry::new();
    let payload = tool_permission_payload("c1", "terminal_exec", fields(vec![("command", text("ls"))]));
    let (pending, _) = registry.create_as("confirm-1", "s2", &payload, "weixin:a", "now");
    assert_eq!(
        ChannelBridge::confirmation_message(&pending),
        "[confirm required]\nsession: s2\nconfirm: confirm-1\ntool: terminal_exec\nargs: {\"command\":\"ls\"}\n/approve confirm-1\n/deny confirm-1"
    );
}

#[test]
fn dashboard_rows_are_built() {
    let ends = ChannelEndpoints {
        stdio_enabled: true,
        stdio_auth: "true".to_string(),
        websocket_bind: "127.0.0.1:1".to_string(),
        websocket_auth: "false".to_string(),
    };
    let rows = channel_rows(&ChannelRuntimeConfig::default(), &ends);
    let names: Vec<&str> = rows.iter().map(|row| row.name).collect();
    assert_eq!(names, vec!["stdio", "websocket", "weixin", "feishu"]);
    assert!(rows[0].enabled && !rows[1].enabled);
    assert_eq!(rows[1].details, vec!["bind: 127.0.0.1:1", "auth: false"]);
    assert_eq!(
        rows[2].details,
        vec![
            "workspace: .",
            "markdown_filter: true",
            "media_input: false",
            "media_output: false",
            "override_model: -",
            "override_thinking: -"
        ]
    );
    assert_eq!(rows[3].details[1], "domain: feishu");
    assert_eq!(rows[3].details[4], "allow_from: 0");
    assert_eq!(rows[3].details.len(), 10);

    assert_eq!(display_session_title(&meta("id", Some(" "), None)), "id");
    assert_eq!(display_session_title(&meta("id", Some("t"), None)), "t");
    assert_eq!(context_window_of(0, 7), 7);
    assert_eq!(context_window_of(5, 7), 5);
    let metas = vec![
        meta("a", None, Some("2026-01-01")),
        meta("b", None, Some("2026-02-01")),
        meta("c", None, None),
    ];
    assert_eq!(session_order(&metas), vec![1, 0, 2]);
    assert_eq!(
        assistant_message_count(&vec![
            object(vec![("role", text("assistant"))]),
            object(vec![("role", text("user"))]),
            Json::Null,
        ]),
        1
    );
}

#[test]
fn runs_are_logged() {
    let job = AutomationJobConfig {
        id: "nightly".to_string(),
        enabled: true,
        workspace_dir: ".".to_string(),
        session: AutomationSessionConfig::New,
        schedule: AutomationSchedule::Interval { every_seconds: 60 },
        prompt: "go".to_string(),
        response_detail: ChannelResponseDetail::Brief,
        notify: Vec::new(),
    };
    let run = begin_run(&job, "r1", "s1", "2026-01-01T00:00:00Z");
    let log = run_log_event(&run, "/s1/run.yaml");
    assert_eq!(log.timestamp, "2026-01-01T00:00:00Z");
    assert_eq!(log.path, Some("/s1/run.yaml".to_string()));
    assert!(log.summary.contains("running"));
}

#[test]
fn missing_runs_are_told() {
    assert_eq!(
        value(&terminal_not_found("t1")),
        parsed(r#"{"id": "t1", "runtime": {"kind": "terminal", "id": "t1", "status": "not_found"},
            "status": "not_found", "done": true}"#)
    );
    assert_eq!(
        value(&subagent_not_found("a1")),
        parsed(r#"{"subagent_run_id": "a1",
            "runtime": {"kind": "subagent", "id": "a1", "status": "not_found"},
            "status": "not_found", "done": true, "error": "subagent not found"}"#)
    );
    assert_eq!(
        value(&TerminalSession::new("t1", "ls").failed_start_output("no shell")),
        parsed(r#"{"id": "t1",
            "runtime": {"kind": "terminal", "id": "t1", "status": "completed_error"},
            "status": "completed_error", "done": true, "error": "no shell"}"#)
    );
    assert_eq!(
        value(&default_list_item("x", false)),
        parsed(r#"{"id": "x", "kind": "tool", "status": "running", "done": false}"#)
    );
    let mut terminal = TerminalSession::new("t1", "ls");
    assert_eq!(
        value(&terminal.list_item()),
        parsed(r#"{"id": "t1", "kind": "terminal", "status": "created", "done": false}"#)
    );
    let mut state = HandleState::new();
    state.finish(Some(0));
    terminal.state = Some(state);
    assert_eq!(
        value(&terminal.list_item()),
        parsed(r#"{"id": "t1", "kind": "terminal", "status": "completed_success", "done": true}"#)
    );
}

#[test]
fn subagents_tell_of_themselves() {
    let mut session = SubagentSession::new("a1", "scout", "look around", "watch");
    assert!(session.start().is_some());
    assert_eq!(
        value(&session.spawn_output()),
        parsed(r#"{"tool": "spawn_subagent", "kind": "subagent", "name": "scout", "id": "a1",
            "status": "running", "task": "look around", "policy": "watch"}"#)
    );
    assert_eq!(
        value(&session.status_output("wait", Some("timeout"))),
        parsed(r#"{"tool": "wait", "kind": "subagent", "name": "scout", "id": "a1",
            "status": "timeout"}"#)
    );
    assert_eq!(
        value(&session.ok_output("send_subagent")),
        parsed(r#"{"tool": "send_subagent", "kind": "subagent", "name": "scout", "id": "a1",
            "status": "ok"}"#)
    );
    assert_eq!(
        value(&session.list_item()),
        parsed(r#"{"id": "a1", "name": "scout", "kind": "subagent", "status": "running",
            "task": "look around", "policy": "watch"}"#)
    );
    let chunk = ActivityEvent::agent_message_text("done").into_update();
    let card = session.record_update(&chunk);
    assert!(matches!(&card, Some(ActivityEvent::ToolCallUpdate(_))));
    let other = ActivityEvent::user_message_content(fields(vec![("type", text("text"))]));
    assert!(session.record_update(&other.into_update()).is_none());
    let mut call = ToolCallEvent::new("c2", "read");
    call.raw_input = Some(Json::Object(fields(vec![("path", text("a"))])));
    match session.record_update(&ActivityEvent::ToolCall(call).into_update()) {
        Some(ActivityEvent::ToolCallUpdate(shown)) => {
            let content = value(shown.content.as_ref().unwrap());
            assert!(content[0]["content"]["text"]
                .as_str()
                .unwrap()
                .contains("### Tool Call: read\n\n```json\n{\n  \"path\": \"a\"\n}\n```"));
        }
        other => panic!("{other:?}"),
    }
    let payload = tool_permission_payload("c1", "terminal_exec", Vec::new());
    let (asked, _) = session.record_permission(payload);
    assert!(matches!(&asked, ActivityEvent::ToolCallUpdate(_)));
    assert!(matches!(
        session.record_state(AgentState::WaitingUserConfirm),
        ActivityEvent::ToolCallUpdate(_)
    ));
    let messages = vec![object(vec![("role", text("assistant")), ("content", text(" done "))])];
    session.finish_turn(Ok("completed".to_string()), &messages);
    assert_eq!(
        value(&session.status_output("wait", None)),
        parsed(r#"{"tool": "wait", "kind": "subagent", "name": "scout", "id": "a1",
            "status": "completed"}"#)
    );
    assert!(matches!(session.begin_send("more"), ActivityEvent::ToolCallUpdate(_)));
    assert!(!session.is_done());
}

#[test]
fn calls_are_reported() {
    let pending = tool_call_pending("c1", "terminal_exec", object(vec![("command", text("ls"))]));
    let update = value(&Json::Object(pending.into_update()));
    assert_eq!(update["session_update"], "tool_call");
    assert_eq!(update["status"], "pending");
    assert_eq!(update["raw_input"]["command"], "ls");
    let news = tool_update("c1", "in_progress", Some("terminal_exec"), None, None);
    let update = value(&Json::Object(news.into_update()));
    assert_eq!(update["session_update"], EVENT_TOOL_CALL_UPDATE);
    assert_eq!(update["kind"], "other");
    assert_eq!(update["title"], "terminal_exec");
    let news = tool_update("c1", "completed", None, None, Some(text("out")));
    let update = value(&Json::Object(news.into_update()));
    assert_eq!(update.get("kind"), None);
    assert_eq!(update["raw_output"], "out");
}

#[test]
fn interrupted_calls_are_answered() {
    let mut context = ConversationContextManager::new(Vec::new(), 100, 80);
    let mut turns = TurnLoop::begin(&mut context, Vec::new(), &text("hi"), None).unwrap();
    turns.next_step(&context, false);
    let call = |id: &str| ToolCall {
        id: id.to_string(),
        name: "wait".to_string(),
        arguments: Vec::new(),
        parse_error: None,
    };
    assert!(turns.accept_calls(vec![call("c1"), call("c2")], None, None));
    assert_eq!(turns.outputs_after_cancel(None).len(), 2);
    assert_eq!(turns.outputs_after_cancel(Some(Vec::new())).len(), 2);
    assert_eq!(turns.outputs_after_cancel(Some(vec![text("o")])).len(), 1);
    assert!(!context.is_over_context_window());
    context.sync_token_usage(100);
    assert!(context.is_over_context_window());
}

#[test]
fn edited_files_are_displayed() {
    assert_eq!(relative_display(Some("a/b.txt"), "/w/a/b.txt"), "a/b.txt");
    assert_eq!(relative_display(None, "/else/b.txt"), "/else/b.txt");
}
