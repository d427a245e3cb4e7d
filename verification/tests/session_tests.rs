use dwo_agent::activity::{
    agent_message_chunk, record_user_input, retry_event_text, should_persist_update, update_type,
    usage_update, ActivityEvent, LazyActivityBox, LlmRetryEvent, LlmRetryKind, ToolCallEvent,
    ToolCallUpdateEvent,
};
use dwo_agent::ids::{new_activity_id, new_confirmation_id, new_run_id, new_session_id, new_token};
use dwo_agent::files::{json_file_text, read_json_object};
use dwo_agent::json::{Json, JsonNumber, Member};
use dwo_agent::manager::ConversationContextManager;
use dwo_agent::models::{
    AgentState, AgentTools, ContextUsageSnapshot, PolicyMode, ReasoningMode, StopReason, ToolSwitch,
};
use dwo_agent::paths::{is_full_path, join_path, path_lies_in};
use dwo_agent::policy::{TerminalPolicy, ToolPolicyConfig, MODE_CONFIRM, MODE_FULL_ACCESS, MODE_WATCH};
use dwo_agent::service::{
    check_transcript_line, list_sessions, read_transcript, transcript_event, transcript_line,
    transcript_lines,
};
use dwo_agent::session::{
    check_stored_session, choose_channel_model, create_session, derive_session_title,
    restore_session, validate_reasoning_mode, CreateSessionArgs, ModelProfile, ModelRegistry,
    Session, SessionMetaPayload, SessionPersistence, SettingOutcome,
};
use dwo_agent::strings::{extract_first_text, normalize_optional_str, normalize_required_str};
use dwo_agent::subagent::{
    card_tool_status, extract_last_assistant_response, session_slice, session_slice_items,
    subagent_public_status, SubagentCardState,
};
use dwo_agent::subagent_session::{
    read_checkout, SendPlan, SendSubagentPayload, SpawnSubagentPayload, SubagentIdPayload,
    SubagentSession,
};
use dwo_agent::tools::SessionCreateRequest;
use dwo_agent::turn::{
    annotate_tool_arg_parse_errors, finish_reason_is_output_limit, judge_answer, judge_call,
    output_limit_notice, tool_output_for_model, CallRound, CallVerdict, ToolCall, TurnAction,
    TurnFailure, TurnLoop,
};

fn text(s: &str) -> Json {
    Json::Text(s.to_string())
}

fn object(members: Vec<(&str, Json)>) -> Json {
    Json::Object(fields(members))
}

fn fields(members: Vec<(&str, Json)>) -> Vec<Member> {
    members
        .into_iter()
        .map(|(key, value)| Member { key: key.to_string(), value })
        .collect()
}

fn profile(name: &str, modes: Vec<ReasoningMode>) -> ModelProfile {
    ModelProfile {
        model_name: name.to_string(),
        provider: "deepseek".to_string(),
        model_id: format!("{name}-id"),
        vision: false,
        tool_use: true,
        context_window: 1000,
        default_reasoning_mode: modes[0],
        reasoning_modes: modes,
    }
}

fn registry() -> ModelRegistry {
    ModelRegistry {
        profiles: vec![
            profile("m1", vec![ReasoningMode::Auto, ReasoningMode::High]),
            profile("m2", vec![ReasoningMode::NonThink]),
        ],
    }
}

fn tools() -> AgentTools {
    AgentTools {
        mcp: ToolSwitch::Disable,
        file_edit: ToolSwitch::Disable,
        terminal: ToolSwitch::Enable,
        subagent: ToolSwitch::Disable,
    }
}

fn args(model: &str) -> CreateSessionArgs {
    CreateSessionArgs {
        session_id: "s1".to_string(),
        cwd: "/work".to_string(),
        session_dir: "/store/s1".to_string(),
        model_id: model.to_string(),
        max_running_turn: Some(7),
        runtime_tools: tools(),
        tool_schemas: Vec::new(),
        mode_id: PolicyMode::Confirm,
        state: AgentState::Idle,
        stop_reason: None,
        title: None,
        pending_model_id: None,
        reasoning_mode: None,
        pending_reasoning_mode: None,
    }
}

fn session() -> Session {
    create_session(args("m1"), &registry(), "t0").unwrap()
}

#[test]
fn persisted_session_keeps_tools_and_max_turn_snapshot() {
    let stored = session().to_meta_payload();
    let loaded =
        restore_session(stored, "/work".to_string(), "/store/s1".to_string(), &registry(), "t1")
            .unwrap();
    assert_eq!(loaded.max_running_turn, Some(7));
    assert_eq!(loaded.runtime_tools.mcp, ToolSwitch::Disable);
    assert_eq!(loaded.runtime_tools.file_edit, ToolSwitch::Disable);
    assert_eq!(loaded.runtime_tools.terminal, ToolSwitch::Enable);
    assert_eq!(loaded.runtime_tools.subagent, ToolSwitch::Disable);
}

#[test]
fn sessions_need_a_known_model() {
    assert!(create_session(args("nothing"), &registry(), "t0").is_err());
    assert_eq!(session().reasoning_mode, ReasoningMode::Auto);
    let mut stored = session().to_meta_payload();
    stored.pending_model_id = Some("nothing".to_string());
    assert_eq!(
        check_stored_session(&stored, &registry()).unwrap_err(),
        "Unknown pending_model_id in persisted session: nothing"
    );
    stored.model_id = "gone".to_string();
    assert_eq!(
        check_stored_session(&stored, &registry()).unwrap_err(),
        "Unknown model_id in persisted session: gone"
    );
    assert_eq!(
        validate_reasoning_mode(&registry(), "m2", ReasoningMode::High).unwrap_err(),
        "Unknown reasoning_mode `high` for model `m2`"
    );
    assert_eq!(
        validate_reasoning_mode(&registry(), "x", ReasoningMode::High).unwrap_err(),
        "Unknown model_id: x"
    );
}

#[test]
fn settings_wait_while_busy() {
    let mut s = session();
    assert_eq!(s.set_model(&registry(), "m2", "t1").unwrap(), SettingOutcome::Applied);
    assert_eq!(s.model_id, "m2");
    assert_eq!(s.reasoning_mode, ReasoningMode::NonThink);
    let mut s = session();
    s.start_prompt(&registry(), &text("hello"), &Vec::new(), "t1").unwrap();
    assert_eq!(s.title.as_deref(), Some("hello"));
    assert!(s.is_active());
    assert_eq!(s.set_model(&registry(), "m2", "t2").unwrap(), SettingOutcome::Queued);
    assert_eq!(s.model_id, "m1");
    assert!(s.set_model(&registry(), "nothing", "t2").is_err());
    assert_eq!(
        s.finish_prompt(&registry(), Ok("completed".to_string()), "t3").unwrap(),
        "completed"
    );
    assert_eq!(s.model_id, "m2");
    assert_eq!(s.pending_model_id, None);
    assert_eq!(s.state, AgentState::Stop);
    assert_eq!(s.stop_reason, Some(StopReason::Completed));
}

#[test]
fn failed_prompts_leave_settings_waiting() {
    let mut s = session();
    s.start_prompt(&registry(), &text("hello"), &Vec::new(), "t1").unwrap();
    s.set_reasoning_mode(&registry(), ReasoningMode::High, "t2").unwrap();
    assert_eq!(
        s.finish_prompt(&registry(), Err("broken".to_string()), "t3").unwrap_err(),
        "broken"
    );
    assert_eq!(s.pending_reasoning_mode, Some(ReasoningMode::High));
    s.apply_pending_config(&registry(), "t4").unwrap();
    assert_eq!(s.reasoning_mode, ReasoningMode::High);
    assert!(s.set_reasoning_mode(&registry(), ReasoningMode::Max, "t5").is_err());
}

#[test]
fn cancelling_needs_work_to_cancel() {
    let mut s = session();
    assert!(!s.request_cancel("t1"));
    s.set_state(AgentState::Running, "t1");
    assert!(s.request_cancel("t2"));
    assert_eq!(s.state, AgentState::Cancelling);
    s.mark_loaded(true, "t3");
    assert_eq!(s.state, AgentState::Idle);
    assert!(s.set_mode("nothing", "t4").is_err());
    s.set_mode(MODE_WATCH, "t4").unwrap();
    assert_eq!(s.mode_id, PolicyMode::Watch);
    assert!(s.validate().is_ok());
    s.session_id = " ".to_string();
    assert!(s.validate().is_err());
}

#[test]
fn channel_sessions_choose_their_model() {
    assert_eq!(choose_channel_model(&registry(), None, "m1", None).unwrap(), "m1");
    assert_eq!(choose_channel_model(&registry(), Some(" m2 "), "m1", None).unwrap(), "m2");
    assert_eq!(
        choose_channel_model(&registry(), Some(" "), "m1", None).unwrap_err(),
        "channel override_model must not be empty"
    );
    assert!(choose_channel_model(&registry(), None, "m2", Some(ReasoningMode::High)).is_err());
}

#[test]
fn titles_come_from_the_first_text() {
    assert!(derive_session_title(&Json::Null, &Vec::new()).is_none());
    let blocks = vec![object(vec![("type", text("text")), ("text", text("from a block"))])];
    assert_eq!(
        derive_session_title(&Json::Array(Vec::new()), &blocks).as_deref(),
        Some("from a blo")
    );
}

fn listed(id: &str, cwd: &str, stamp: &str) -> SessionMetaPayload {
    let mut meta = session().to_meta_payload();
    meta.session_id = id.to_string();
    meta.cwd = cwd.to_string();
    meta.updated_at = Some(stamp.to_string());
    meta
}

#[test]
fn sessions_are_listed_once_newest_first() {
    let all = vec![
        listed("a", "/x", "2026-01-01"),
        listed("b", "/y", "2026-01-03"),
        listed("a", "/x", "2026-01-02"),
    ];
    let ids: Vec<String> = list_sessions(&all, None).into_iter().map(|m| m.session_id).collect();
    assert_eq!(ids.len(), 2);
    assert_eq!(ids[0], "b");
    assert_eq!(list_sessions(&all, Some("/x")).len(), 1);
    assert_eq!(
        transcript_lines(" {} \n\n {}\n"),
        vec!["{}".to_string(), "{}".to_string()]
    );
    let store = SessionPersistence::new("/store/s1".to_string());
    assert_eq!(store.file_path("meta.json", false), "/store/s1/meta.json");
}

#[test]
fn transcripts_are_read_line_by_line() {
    let raw = "{\"updated_at\":\"t1\",\"update\":{}}\n\n  {\"a\":1,\"b\":2,\"a\":3}  \n[true]\n";
    let events = read_transcript(raw, "s.jsonl").unwrap();
    assert_eq!(events.len(), 3);
    assert_eq!(events[0].get_str("updated_at"), Some("t1"));
    assert_eq!(events[1].as_object().unwrap().len(), 2);
    assert!(matches!(events[1].get("a"), Some(Json::Number(JsonNumber::Unsigned(3)))));
    assert!(matches!(&events[2], Json::Array(items) if items.len() == 1));
    assert!(read_transcript(" \n\n", "s.jsonl").unwrap().is_empty());
    let error = read_transcript("{}\n{\n{}\n", "s.jsonl").err().unwrap();
    assert!(error.starts_with("parse JSONL line in s.jsonl: EOF while parsing"), "{error}");
}

#[test]
fn appended_events_are_read_back() {
    let mut raw = String::new();
    for (now, said) in [("t1", "a\nb \u{85}"), ("t2", "{\"}\\"), ("t3", "\u{0}\r\n")] {
        let update = fields(vec![("text", text(said)), ("n", Json::Array(vec![Json::Null]))]);
        let line = transcript_line(&transcript_event(now, update));
        assert!(line.starts_with('{') && line.ends_with("}\n"));
        assert_eq!(line.chars().filter(|c| *c < ' ').count(), 1);
        raw.push_str(&line);
    }
    let events = read_transcript(&raw, "s.jsonl").unwrap();
    assert_eq!(events.len(), 3);
    assert_eq!(events[2].get_str("updated_at"), Some("t3"));
    let said: Vec<_> = events.iter().map(|e| e.get("update").unwrap().get_str("text")).collect();
    assert_eq!(said, [Some("a\nb \u{85}"), Some("{\"}\\"), Some("\u{0}\r\n")]);
}

#[test]
fn deep_values_are_written_but_not_read() {
    let nested = |depth: usize| {
        (0..depth).fold(Json::Null, |inner, _| Json::Array(vec![inner]))
    };
    for (depth, read) in [(126, true), (127, false)] {
        let payload = object(vec![("a", nested(depth))]);
        let text = json_file_text(&payload);
        assert!(text.starts_with("{\n  \"a\": [\n"));
        let found = read_json_object(&text, "x.json");
        assert_eq!(found.is_ok(), read, "{depth}");
        if let Err(error) = found {
            assert!(error.starts_with("parse JSON in x.json: recursion limit exceeded"), "{error}");
        }
    }
    let numbers = vec![
        Json::Number(JsonNumber::Unsigned(u64::MAX)),
        Json::Number(JsonNumber::Negative(i64::MIN)),
    ];
    let text = json_file_text(&object(vec![("n", Json::Array(numbers))]));
    let found = read_json_object(&text, "x.json").unwrap();
    assert!(matches!(
        &found[0].value,
        Json::Array(items) if matches!(items[0], Json::Number(JsonNumber::Unsigned(u64::MAX)))
            && matches!(items[1], Json::Number(JsonNumber::Negative(i64::MIN)))
    ));
}

#[test]
fn transcript_line_keeps_its_value_or_tells_its_file() {
    assert!(matches!(
        check_transcript_line(Ok(text("x")), "s.jsonl"),
        Ok(value) if value.as_str() == Some("x")
    ));
    assert_eq!(
        check_transcript_line(Err("broken".to_string()), "s.jsonl").err().unwrap(),
        "parse JSONL line in s.jsonl: broken"
    );
}

#[test]
fn paths_are_joined() {
    assert!(is_full_path("/a", false) && !is_full_path("a", false));
    assert_eq!(join_path("a", "b", false), "a/b");
    assert_eq!(join_path("a/", "b", false), "a/b");
    assert_eq!(join_path("a", "/b", false), "/b");
    assert_eq!(join_path("", "b", false), "b");
    assert_eq!(join_path("", "b", true), "b");
    assert_eq!(join_path(r"a\", "b", true), r"a\b");
    assert_eq!(join_path("C:", "b", true), "C:b");
    assert_eq!(join_path(r"\\?\C:", "b", true), r"\\?\C:\b");
    assert!(path_lies_in("/a/b/c", "/a/b", false));
    assert!(!path_lies_in("/a/bc", "/a/b", false));
    assert!(path_lies_in("a", "", false) && path_lies_in("/a", "", false));
    assert!(!path_lies_in("/a", "a", false) && !path_lies_in("a", "/", false));
    assert!(path_lies_in(r"c:\a\b", "C:/a", true) && !path_lies_in(r"D:\a", r"C:\a", true));
    assert!(path_lies_in(r"\\h\s\a", "//h/s", true) && !path_lies_in(r"\\h\t\a", r"\\h\s", true));
    assert!(path_lies_in(r"\\?\C:\a\b", r"\\?\c:\a", true));
    assert!(!path_lies_in(r"\\?\C:\a\b", r"C:\a", true));
    for full in [r"C:\a", "C:/", r"\\h\s", r"\\?\a", r"\\.\COM1"] {
        assert!(is_full_path(full, true), "{full}");
    }
    for part in ["C:", "C:a", r"\a", "a", r"\\h", ""] {
        assert!(!is_full_path(part, true), "{part}");
    }
}

#[test]
fn identifiers_are_used_once() {
    assert_ne!(new_session_id(), new_session_id());
    assert_ne!(new_activity_id(), new_activity_id());
    assert_ne!(new_confirmation_id(), new_confirmation_id());
    assert_ne!(new_run_id("t0"), new_run_id("t0"));
    let token = new_token("tok_");
    assert!(token.starts_with("tok_"));
    assert!(token.len() > 60);
}

#[test]
fn strings_are_normalized() {
    assert_eq!(normalize_required_str(" a ", "f").unwrap(), "a");
    assert!(normalize_required_str(" ", "f").is_err());
    assert_eq!(normalize_optional_str(None, "f").unwrap(), None);
    assert!(normalize_optional_str(Some(" "), "f").is_err());
    assert_eq!(extract_first_text(&text(" x ")).as_deref(), Some("x"));
}

fn policy() -> ToolPolicyConfig {
    ToolPolicyConfig {
        terminal: TerminalPolicy { deny: Vec::new(), allow: Vec::new(), watch_allow: Vec::new() },
    }
}

fn call(id: &str, name: &str, parse_error: Option<&str>) -> ToolCall {
    ToolCall {
        id: id.to_string(),
        name: name.to_string(),
        arguments: fields(vec![("command", text("ls"))]),
        parse_error: parse_error.map(|s| s.to_string()),
    }
}

#[test]
fn calls_are_judged() {
    let run = call("1", "terminal_exec", None);
    assert!(matches!(judge_call(&run, MODE_FULL_ACCESS, &policy()), Ok(CallVerdict::Execute)));
    assert!(matches!(judge_call(&run, MODE_CONFIRM, &policy()), Ok(CallVerdict::Ask)));
    assert!(matches!(
        judge_call(&run, MODE_WATCH, &policy()),
        Ok(CallVerdict::Output { output, .. }) if output.get_str("status") == Some("blocked_by_policy")
    ));
    let broken = call("1", "terminal_exec", Some("bad json"));
    assert!(matches!(
        judge_call(&broken, MODE_FULL_ACCESS, &policy()),
        Ok(CallVerdict::Output { status, .. }) if status == "failed"
    ));
    assert!(judge_call(&run, "nothing", &policy()).is_err());
    assert!(matches!(judge_answer(MODE_CONFIRM, "allow_once", false), Ok(CallVerdict::Execute)));
    assert!(matches!(
        judge_answer(MODE_CONFIRM, "reject_once", false),
        Ok(CallVerdict::Output { .. })
    ));
    assert!(matches!(
        judge_answer(MODE_CONFIRM, "cancelled", true),
        Err(TurnFailure::Cancelled { tool_outputs: None })
    ));
    assert!(matches!(judge_answer(MODE_CONFIRM, "x", false), Err(TurnFailure::Error(_))));
}

#[test]
fn every_call_is_answered() {
    let calls = vec![call("1", "a", None), call("2", "b", None), call("3", "c", None)];
    let rules = policy();
    let mut round = CallRound::begin(&calls, &rules);
    assert_eq!(round.next_call().unwrap().id, "1");
    assert!(matches!(round.judge(MODE_FULL_ACCESS), Ok(CallVerdict::Execute)));
    assert_eq!(round.next_call().unwrap().id, "2");
    assert!(matches!(round.judge(MODE_WATCH), Ok(CallVerdict::Output { .. })));
    assert_eq!(round.next_call().unwrap().id, "3");
    assert!(round.judge("nothing").is_err());
    assert_eq!(round.next_call().unwrap().id, "3");
    assert!(matches!(round.judge(MODE_CONFIRM), Ok(CallVerdict::Ask)));
    assert_eq!(round.next_call().unwrap().id, "3");
    assert!(matches!(round.answer("allow_once", false), Ok(CallVerdict::Execute)));
    assert!(round.next_call().is_none());
    let batch = round.build_batch();
    assert_eq!(batch.len(), 2);
    assert_eq!(batch[0].get_str("tool_call_id"), Some("1"));
    assert_eq!(batch[1].get_str("tool_call_id"), Some("3"));
    let outputs = round.collect_outputs(&vec![text("one"), text("three")], false).unwrap();
    assert_eq!(outputs.len(), 3);
    assert_eq!(outputs[0].as_str(), Some("one"));
    assert_eq!(outputs[1].get_str("status"), Some("blocked_by_policy"));
    assert_eq!(outputs[2].as_str(), Some("three"));
    match round.collect_outputs(&vec![text("one"), text("three")], true) {
        Err(TurnFailure::Cancelled { tool_outputs: Some(all) }) => assert_eq!(all.len(), 3),
        _ => panic!("an interrupted round ends the turn"),
    }
    assert!(tool_output_for_model(&object(vec![("a", text("b"))])).as_object().is_some());
}

#[test]
fn refused_calls_never_reach_the_tools() {
    let calls = vec![call("1", "a", Some("bad json")), call("2", "b", None)];
    let rules = policy();
    let mut round = CallRound::begin(&calls, &rules);
    assert!(matches!(round.judge(MODE_FULL_ACCESS), Ok(CallVerdict::Output { .. })));
    assert!(matches!(round.judge(MODE_CONFIRM), Ok(CallVerdict::Ask)));
    assert!(matches!(
        round.answer("cancelled", true),
        Err(TurnFailure::Cancelled { tool_outputs: None })
    ));
    assert!(round.next_call().is_some());
    assert!(matches!(round.answer("reject_once", false), Ok(CallVerdict::Output { .. })));
    assert!(round.build_batch().is_empty());
    let outputs = round.collect_outputs(&Vec::new(), true).unwrap();
    assert_eq!(outputs.len(), 2);
    assert!(outputs.iter().all(|output| output.as_object().is_some()));
}

#[test]
fn truncated_arguments_are_explained() {
    assert!(finish_reason_is_output_limit(Some(" LENGTH ")));
    assert!(!finish_reason_is_output_limit(Some("stop")));
    assert!(!finish_reason_is_output_limit(None));
    let calls = annotate_tool_arg_parse_errors(
        vec![call("1", "a", Some("eof")), call("2", "b", None)],
        Some("length"),
        Some(100),
    );
    assert_eq!(calls[0].parse_error.as_deref(), Some(output_limit_notice(Some(100)).as_str()));
    assert_eq!(calls[1].parse_error, None);
}

#[test]
fn turns_stop_at_their_limit() {
    let mut context = ConversationContextManager::new(Vec::new(), 1000, 800);
    let mut turn = TurnLoop::begin(&mut context, Vec::new(), &text("hello"), Some(1)).unwrap();
    assert!(matches!(turn.next_step(&context, false), TurnAction::RequestModel));
    turn.accept_reply(&mut context, object(vec![("role", text("assistant"))]), 10);
    assert!(turn.accept_calls(vec![call("1", "a", None)], None, None));
    assert_eq!(turn.calls().len(), 1);
    turn.accept_outputs(&mut context, &vec![text("done")]);
    assert_eq!(context.messages()[2].get_str("content"), Some("\"done\""));
    assert_eq!(context.messages().len(), 3);
    let stopped = match turn.end_step() {
        Some(result) => Some(result.stop_reason),
        None => match turn.next_step(&context, false) {
            TurnAction::Stop(result) => Some(result.stop_reason),
            TurnAction::RequestModel => None,
        },
    };
    assert_eq!(stopped.as_deref(), Some("max_turns"));
}

#[test]
fn failed_turn_leaves_no_trace() {
    let mut context = ConversationContextManager::new(Vec::new(), 1000, 800);
    let mut turn = TurnLoop::begin(&mut context, Vec::new(), &text("hello"), None).unwrap();
    turn.next_step(&context, false);
    assert_eq!(context.messages().len(), 1);
    turn.accept_reply(&mut context, object(vec![("role", text("assistant"))]), 10);
    turn.accept_calls(vec![call("1", "a", None)], None, None);
    turn.accept_outputs(&mut context, &vec![text("done")]);
    assert_eq!(context.messages().len(), 3);
    let failed = turn.abort(&mut context, TurnFailure::Error("broken".to_string()));
    assert_eq!(failed.unwrap_err(), "broken");
    assert_eq!(context.messages().len(), 1);
    assert_eq!(context.messages()[0].get_str("role"), Some("user"));
}

#[test]
fn interrupted_turns_answer_their_calls() {
    let interrupted = |tool_outputs: Option<Vec<Json>>| {
        let mut context = ConversationContextManager::new(Vec::new(), 1000, 800);
        let mut turn = TurnLoop::begin(&mut context, Vec::new(), &text("hello"), None).unwrap();
        turn.next_step(&context, false);
        turn.accept_reply(&mut context, object(vec![("role", text("assistant"))]), 10);
        turn.accept_calls(vec![call("1", "a", None)], None, None);
        let ended = turn.abort(&mut context, TurnFailure::Cancelled { tool_outputs });
        assert_eq!(ended.unwrap().stop_reason, "cancelled");
        context.messages()[2].get_str("content").map(str::to_string)
    };
    assert_eq!(
        interrupted(None).as_deref(),
        Some(r#"{"status":"cancelled_by_user_interrupt","message":"Tool call cancelled because user interrupt."}"#)
    );
    let output = object(vec![("model_result", object(vec![("a", text("b"))])), ("c", Json::Null)]);
    assert_eq!(interrupted(Some(vec![output])).as_deref(), Some(r#"{"a":"b"}"#));
}

#[test]
fn updates_keep_their_type() {
    let event = ActivityEvent::ToolCall(ToolCallEvent::new("1", "t"));
    let name = event.update_type();
    assert_eq!(update_type(&event.into_update()), name);
    let news = ActivityEvent::ToolCallUpdate(ToolCallUpdateEvent::new("1", "completed"));
    assert_eq!(news.update_type(), "tool_call_update");
    assert!(should_persist_update(&ActivityEvent::agent_message_text("x").into_update()));
    assert!(agent_message_chunk("").is_none());
    assert_eq!(record_user_input(&text("x"), &Vec::new()).len(), 1);
    let usage = usage_update(&ContextUsageSnapshot { used: 1, size: 2 });
    assert_eq!(usage.update_type(), "usage_update");
}

#[test]
fn retries_are_shown_in_one_box() {
    let event = LlmRetryEvent {
        kind: LlmRetryKind::Request,
        attempt: 1,
        max_retries: 3,
        delay_ms: 500,
        error: "timeout".to_string(),
    };
    assert!(retry_event_text(&event).contains("timeout"));
    let mut shown = LazyActivityBox::new("u1", "Retry");
    assert!(shown.complete_if_started("x").is_none());
    assert_eq!(shown.on_retry(&event).update_type(), "activity_box");
    assert_eq!(shown.on_retry(&event).update_type(), "activity_box_update");
    assert!(shown.fail_if_started("x").is_some());
}

#[test]
fn subagents_are_shown_on_a_card() {
    let mut card = SubagentCardState::new("helper", "confirm");
    card.append_user("do it");
    card.append_thinking("hm");
    card.append_thinking("m");
    card.append_tool_call("terminal_exec", Some(&object(vec![("command", text("ls"))])));
    card.append_response("done");
    card.set_status(" ");
    let text = card.render();
    assert!(text.contains("**subagent_name:** `helper`"));
    assert!(text.contains("hmm"));
    assert!(text.contains("### Tool Call: terminal_exec\n\n```json\n{\n  \"command\": \"ls\"\n}\n```"));
    assert!(text.ends_with("done"));
    assert_eq!(subagent_public_status("running", ""), "running");
    assert_eq!(card_tool_status("running"), "in_progress");
}

#[test]
fn conversations_are_sliced() {
    let messages = vec![
        object(vec![("role", text("system")), ("content", text("s"))]),
        object(vec![("role", text("user")), ("content", text("u"))]),
        object(vec![
            ("role", text("assistant")),
            ("content", text("answer")),
            (
                "tool_calls",
                Json::Array(vec![object(vec![
                    ("id", text("c1")),
                    (
                        "function",
                        object(vec![("name", text("t")), ("arguments", text("{\"a\": 1}"))]),
                    ),
                ])]),
            ),
        ]),
        object(vec![("role", text("tool")), ("content", text("[1, 2"))]),
    ];
    let items = session_slice_items(&messages);
    let call = items.iter().find(|i| i.get_str("kind") == Some("tool_call")).unwrap();
    assert_eq!(call.get("input").unwrap().get("a").unwrap().as_u64(), Some(1));
    let result = items.iter().find(|i| i.get_str("kind") == Some("tool_result")).unwrap();
    assert_eq!(result.get_str("output"), Some("[1, 2"));
    assert_eq!(extract_last_assistant_response(&messages), "");
    let mut answered = messages;
    answered.push(object(vec![("role", text("assistant")), ("content", text(" answer "))]));
    assert_eq!(extract_last_assistant_response(&answered), "answer");
    assert!(matches!(session_slice(&answered, 1), Json::Array(_) | Json::Object(_)));
}

#[test]
fn closed_subagents_take_no_message() {
    let mut s = SubagentSession::new("id", "helper", "task", "confirm");
    assert!(s.start().is_some());
    let done = vec![object(vec![("role", text("assistant")), ("content", text("answer"))])];
    s.finish_turn(Ok("completed".to_string()), &done);
    assert!(s.is_done());
    assert!(matches!(s.plan_send("more", false), SendPlan::Start));
    let output = s.checkout_output("subagent_checkout", &done, 1, None);
    assert!(output.as_object().is_some());
    s.close();
    assert!(matches!(s.plan_send("more", false), SendPlan::Refuse(_)));
    assert!(matches!(s.plan_send("more", true), SendPlan::Refuse(_)));
}

#[test]
fn subagent_payloads_are_checked() {
    let spawn = SpawnSubagentPayload { subagent_name: None, task: " ".to_string(), policy: None };
    assert!(spawn.checked().is_err());
    let spawn = SpawnSubagentPayload {
        subagent_name: Some("scout".to_string()),
        task: " do ".to_string(),
        policy: None,
    };
    let spawn = spawn.checked().unwrap();
    assert_eq!(spawn.task, "do");
    let request = SessionCreateRequest::Subagent(spawn);
    assert_eq!(request.kind(), "subagent");
    assert_eq!(request.requested_name(), Some("scout"));
    let args = vec![Member { key: "terminal_name".to_string(), value: text("build") }];
    let none = Err("no payload".to_string());
    let request = SessionCreateRequest::parse("terminal_exec", &args, false, none).unwrap();
    assert_eq!(request.requested_name(), Some("build"));
    let none = Err("no payload".to_string());
    let request = SessionCreateRequest::parse("terminal_exec", &Vec::new(), false, none).unwrap();
    assert_eq!(request.requested_name(), None);
    assert!(SubagentIdPayload { subagent_run_id: "".to_string() }.checked().is_err());
    let send = SendSubagentPayload {
        subagent_run_id: "r".to_string(),
        message: " ".to_string(),
        interrupt: false,
    };
    assert!(send.checked().is_err());
    let (tool, wanted) = read_checkout(&Vec::new());
    assert_eq!(tool, "checkout_subagent");
    assert_eq!(wanted, 20);
}
