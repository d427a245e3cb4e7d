use dwo_agent::bridge::{
    audit_entry, audit_line, command_decision, parse_command, truncate_json, truncate_json_text,
    BridgeCommand, ChannelBridge, ChannelBridgeState, PendingConfirmationRegistry, SessionLeaseRegistry, SwitchPlan,
};
use dwo_agent::channel_auth::{
    acp_auth_path, auth_line, check_acp_connect, check_acp_login, check_auth_line,
    check_websocket_login, constant_time_eq, daemon_manifest, daemon_path, default_ipc_endpoint,
    generate_acp_token, generate_websocket_token, is_sent_to_websocket, override_ipc_endpoint,
    payload_line, request_is_authorized, validate_acp_auth, validate_websocket_auth,
    websocket_auth_path, AcpIpcEndpoint, AcpIpcKind, TOKEN_BODY_LEN, WEBSOCKET_TOKEN_PREFIX,
};
use dwo_agent::channel_config::{check_config_root, read_config, ChannelRuntimeConfig};
use dwo_agent::channel_tools::{
    feishu_tool_schemas, path_candidates, pick_allowed_file, weixin_tool_schemas,
    FEISHU_REPLY_CARD_TOOL, FEISHU_REPLY_MEDIA_TOOL,
};
use dwo_agent::host::{plan_service, ChannelRuntime, ServicePlan};
use dwo_agent::json::{lookup, Json, Member};
use dwo_agent::policy::{PERMISSION_ALLOW_ONCE, PERMISSION_REJECT_ONCE};

fn member(key: &str, value: Json) -> Member {
    Member { key: key.to_string(), value }
}

fn text(s: &str) -> Json {
    Json::Text(s.to_string())
}

fn schema_names(schemas: &Vec<Json>) -> Vec<&str> {
    schemas
        .iter()
        .filter_map(|schema| schema.get("function").and_then(|f| f.get_str("name")))
        .collect()
}

#[test]
fn acp_channel_constant_time_eq_matches_expected_values() {
    assert!(constant_time_eq(b"same", b"same"));
    assert!(!constant_time_eq(b"same", b"diff"));
    assert!(!constant_time_eq(b"same", b"same-longer"));
}

#[test]
fn mod_constant_time_eq_matches_expected_values() {
    assert!(constant_time_eq(b"same", b"same"));
    assert!(!constant_time_eq(b"same", b"diff"));
    assert!(!constant_time_eq(b"same", b"same-longer"));
}

#[test]
fn acp_login_writes_valid_token() {
    let token = generate_acp_token();
    assert!(validate_acp_auth(&token).is_ok());
    assert!(token != generate_acp_token());
    let token = generate_websocket_token();
    assert!(validate_websocket_auth(&token).is_ok());
    assert!(validate_acp_auth("short").is_err());
    assert!(validate_websocket_auth("short").is_err());
}

#[test]
fn websocket_login_writes_valid_token() {
    check_websocket_login(true, true).unwrap();
    let token = generate_websocket_token();
    assert!(token.starts_with(WEBSOCKET_TOKEN_PREFIX));
    assert!(token.len() >= WEBSOCKET_TOKEN_PREFIX.len() + TOKEN_BODY_LEN);
    validate_websocket_auth(&token).unwrap();
}

#[test]
fn channel_defaults_are_closed() {
    let config = ChannelRuntimeConfig::default();
    assert!(!config.has_enabled_channels());
    assert!(config.weixin.markdown_filter);
    assert!(config.feishu.group_require_mention);
    assert!(!config.feishu.media_output && !config.feishu.card_output);
    assert!(config.feishu.allow_from.is_empty() && config.feishu.group_allow_from.is_empty());
}

#[test]
fn acp_login_requires_enabled_auth_channel() {
    assert!(check_acp_login(false, true).unwrap_err().contains("not enabled"));
    assert!(check_acp_login(true, false).unwrap_err().contains("auth is disabled"));
    assert!(check_acp_login(true, true).is_ok());
    assert!(check_acp_connect(false, true).is_err());
    assert!(check_acp_connect(true, true).is_ok());
}

#[test]
fn websocket_login_requires_enabled_auth_channel() {
    assert!(check_websocket_login(false, true).unwrap_err().contains("not enabled"));
    assert!(check_websocket_login(true, false).unwrap_err().contains("auth is disabled"));
    assert!(check_websocket_login(true, true).is_ok());
}

#[test]
fn daemon_manifest_names_its_endpoint() {
    let endpoint = AcpIpcEndpoint {
        kind: AcpIpcKind::NamedPipe,
        name: r"\\.\pipe\dwo-agent-test".to_string(),
    };
    let manifest = daemon_manifest(7, "t0", endpoint);
    assert_eq!(manifest.transport, "ipc");
    assert_eq!(manifest.ipc.name, r"\\.\pipe\dwo-agent-test");
    assert!(manifest.pid > 0);
    let socket = default_ipc_endpoint("/agent", "u1", false);
    assert!(matches!(socket.kind, AcpIpcKind::UnixSocket));
    let pipe = default_ipc_endpoint("/agent", "u1", true);
    assert!(matches!(pipe.kind, AcpIpcKind::NamedPipe));
    assert_eq!(override_ipc_endpoint("x".to_string(), false).name, "x");
}

#[test]
fn auth_lines_are_accepted_for_their_token_only() {
    let token = generate_acp_token();
    let line = auth_line(&token);
    assert!(check_auth_line(&line, &token).is_ok());
    assert!(check_auth_line(&line, &generate_acp_token()).is_err());
    assert!(check_auth_line("hello", &token).is_err());
    let header = format!("Bearer {token}");
    assert!(request_is_authorized(Some(&header), &token));
    assert!(!request_is_authorized(Some(&token), &token));
    assert!(!request_is_authorized(None, &token));
}

#[test]
fn secrets_lie_below_the_agent() {
    for path in [
        acp_auth_path("/agent", false),
        daemon_path("/agent", false),
        websocket_auth_path("/agent", false),
    ] {
        assert!(path.starts_with("/agent/"), "{path}");
    }
}

#[test]
fn payloads_become_lines() {
    assert_eq!(payload_line(b"{}".to_vec()), b"{}\n".to_vec());
    assert_eq!(payload_line(b"{}\n".to_vec()), b"{}\n".to_vec());
    assert!(is_sent_to_websocket("{}"));
    assert!(!is_sent_to_websocket("  "));
}

#[test]
fn leases_are_single_holder() {
    let mut registry = SessionLeaseRegistry::new();
    registry.acquire_sync("s1", "weixin:user", "t0").unwrap();
    registry.acquire_sync("s1", "weixin:user", "t1").unwrap();
    let err = registry.acquire_sync("s1", "feishu:user", "t2").unwrap_err();
    assert!(err.contains("occupied"));

    assert!(registry.release_if_holder_sync("s1", "weixin:user"));
    registry.acquire_sync("s1", "feishu:user", "t3").unwrap();
}

#[test]
fn leases_of_other_sessions_stay() {
    let mut registry = SessionLeaseRegistry::new();
    registry.acquire_sync("s1", "a", "t0").unwrap();
    registry.acquire_sync("s2", "b", "t0").unwrap();
    assert!(!registry.release_if_holder_sync("s1", "b"));
    assert!(registry.release_if_holder_sync("s1", "a"));
    assert_eq!(registry.holder_sync("s1"), None);
    assert_eq!(registry.holder_sync("s2").as_deref(), Some("b"));
}

fn payload() -> Vec<Member> {
    vec![
        member("tool_call_id", text("call_1")),
        member("title", text("terminal_exec")),
        member("raw_input", Json::Object(vec![member("command", text("cargo check"))])),
    ]
}

#[test]
fn confirmation_registry_resolves_waiter_and_writes_audit() {
    let mut registry = PendingConfirmationRegistry::new();
    let (snapshot, asked) = registry.create_as("c1", "s1", &payload(), "feishu:dm:u1", "t0");
    assert_eq!(asked.get_str("event"), Some("requested"));
    assert!(matches!(asked.get("actor"), Some(Json::Null)));
    assert_eq!(snapshot.tool_call_id, "call_1");
    assert_eq!(snapshot.tool_name, "terminal_exec");
    let answered = registry.resolve("c1", "feishu:dm:u1", PERMISSION_ALLOW_ONCE, "t1").unwrap();
    assert_eq!(answered.answer, PERMISSION_ALLOW_ONCE);
    assert_eq!(answered.entry.get_str("event"), Some(PERMISSION_ALLOW_ONCE));
    assert_eq!(answered.entry.get_str("actor"), Some("feishu:dm:u1"));
    assert_eq!(answered.entry.get_str("updated_at"), Some("t1"));
    let resolved = answered.snapshot;
    assert_eq!(resolved.session_id, "s1");
    assert_eq!(
        registry.resolve("c1", "feishu:dm:u1", PERMISSION_ALLOW_ONCE, "t2").unwrap_err(),
        "找不到待确认请求：c1"
    );
    assert!(registry.snapshot("c1").is_none());
    assert_eq!(
        audit_line("t1", "requested", None, &snapshot),
        "{\"updated_at\":\"t1\",\"event\":\"requested\",\"actor\":null,\"confirmation\":{\"confirmation_id\":\"c1\",\"session_id\":\"s1\",\"tool_call_id\":\"call_1\",\"tool_name\":\"terminal_exec\",\"raw_input\":{\"command\":\"cargo check\"},\"requested_by\":\"feishu:dm:u1\",\"created_at\":\"t0\"}}\n"
    );
    let mut ordered = PendingConfirmationRegistry::new();
    let input = Json::Object(vec![member("z", text("1")), member("a", text("2"))]);
    ordered.create_as("c2", "s1", &vec![member("raw_input", input)], "x", "t0");
    let shown = ChannelBridge::confirmation_message(&ordered.snapshot("c2").unwrap());
    assert!(shown.contains("args: {\"z\":\"1\",\"a\":\"2\"}\n"));
    let taken = ordered.resolve("c2", "x", "reject_once", "t1").unwrap();
    assert_eq!(truncate_json(&taken.snapshot.raw_input, 100), "{\"z\":\"1\",\"a\":\"2\"}");
    let mut fresh = PendingConfirmationRegistry::new();
    let (first, _) = fresh.create("s1", &payload(), "feishu:dm:u1", "t0");
    let (second, _) = fresh.create("s1", &payload(), "feishu:dm:u1", "t0");
    assert!(first.confirmation_id.starts_with("c_"));
    assert_ne!(first.confirmation_id, second.confirmation_id);
    assert!(fresh.snapshot(&first.confirmation_id).is_some());
    let entry = audit_entry("t1", "resolved", Some("feishu:dm:u1"), &resolved);
    assert_eq!(entry.get_str("event"), Some("resolved"));
}

fn bridge() -> ChannelBridge {
    ChannelBridge { holder: "weixin:u".to_string(), default_session_id: "home".to_string() }
}

#[test]
fn bridge_state_starts_at_home() {
    let state = bridge().init_state(None);
    assert_eq!(state.default_session_id, "home");
    assert_eq!(state.active_session_id, None);
    let stored = ChannelBridgeState {
        default_session_id: "default".to_string(),
        active_session_id: Some("other".to_string()),
        updated_at: Some("t0".to_string()),
    };
    let loaded = bridge().init_state(Some(stored));
    assert_eq!(loaded.active_session_id.as_deref(), Some("other"));
}

#[test]
fn channel_switches_and_goes_back() {
    let bridge = bridge();
    let mut leases = SessionLeaseRegistry::new();
    let mut state = bridge.init_state(None);
    match bridge.begin_switch(&mut leases, &mut state, "s2", "t0").unwrap() {
        SwitchPlan::Load(id) => assert_eq!(id, "s2"),
        SwitchPlan::Default(_) => panic!("s2 is not the default session"),
    }
    bridge.finish_switch(&mut leases, &mut state, "s2", true, "t0").unwrap();
    assert_eq!(leases.holder_sync("s2").as_deref(), Some("weixin:u"));
    assert_eq!(state.active_session_id.as_deref(), Some("s2"));
    bridge.switch_back(&mut leases, &mut state, "t1");
    assert_eq!(leases.holder_sync("s2"), None);
    assert_eq!(bridge.active_target(&mut leases, &state, "t2").unwrap(), None);
    let away = ChannelBridgeState {
        default_session_id: "home".to_string(),
        active_session_id: Some("s3".to_string()),
        updated_at: None,
    };
    leases.acquire_sync("s3", "feishu:u", "t0").unwrap();
    assert_eq!(
        bridge.active_target(&mut leases, &away, "t2").unwrap_err(),
        "acquire session lease for s3: session s3 is occupied by feishu:u; switch denied."
    );
    assert!(bridge.active_loaded("s3", true).is_ok());
    assert_eq!(bridge.active_loaded("s3", false).unwrap_err(), "active session not found: s3");
}

#[test]
fn strangers_cannot_answer() {
    let bridge = bridge();
    let leases = SessionLeaseRegistry::new();
    let mut confirmations = PendingConfirmationRegistry::new();
    confirmations.create_as("c1", "s1", &payload(), "feishu:dm:u1", "t0");
    assert!(bridge
        .resolve_confirmation(&leases, &mut confirmations, "c1", "allow_once", "t1")
        .is_err());
    assert!(confirmations.snapshot("c1").is_some());
    confirmations.create_as("c2", "s1", &payload(), "weixin:u", "t0");
    let (answered, said) = bridge
        .resolve_confirmation(&leases, &mut confirmations, "c2", "reject_once", "t1")
        .unwrap();
    assert_eq!(answered.answer, "reject_once");
    assert_eq!(answered.entry.get_str("actor"), Some("weixin:u"));
    assert_eq!(said, "已拒绝确认：c2\nsession：s1\ntool：terminal_exec");
}

#[test]
fn commands_are_read() {
    assert!(parse_command("hello").is_none());
    assert!(parse_command("").is_none());
    assert!(parse_command("/unknown").is_none());
    assert!(matches!(parse_command(" /list "), Some(BridgeCommand::List)));
    assert!(matches!(parse_command("/back"), Some(BridgeCommand::Back)));
    assert!(matches!(parse_command("/where"), Some(BridgeCommand::Where)));
    assert!(matches!(parse_command("/switch s1 x"), Some(BridgeCommand::Switch(s)) if s == "s1"));
    assert!(matches!(parse_command("/approve c1"), Some(BridgeCommand::Approve(s)) if s == "c1"));
    assert!(matches!(parse_command("/deny c1"), Some(BridgeCommand::Deny(s)) if s == "c1"));
    assert!(matches!(parse_command("/switch"), Some(BridgeCommand::Usage(_))));
    let decided = |text: &str| command_decision(&parse_command(text).unwrap());
    assert_eq!(decided("/approve c1"), Some(("c1".to_string(), PERMISSION_ALLOW_ONCE)));
    assert_eq!(decided("/deny c1"), Some(("c1".to_string(), PERMISSION_REJECT_ONCE)));
    assert_eq!(decided("/deny"), None);
    assert_eq!(decided("/where"), None);
    assert!(matches!(parse_command("/approve"), Some(BridgeCommand::Usage(_))));
    assert!(matches!(parse_command("/deny"), Some(BridgeCommand::Usage(_))));
}

#[test]
fn long_json_is_cut() {
    assert_eq!(truncate_json_text("{}", 10), "{}");
    assert_eq!(truncate_json_text("0123456789abc", 10), "0123456789...<truncated>");
    assert_eq!(truncate_json(&Json::Object(Vec::new()), 10), "{}");
    assert_eq!(truncate_json(&Json::Text("abcdef".to_string()), 4), "\"abc...<truncated>");
}

const MEDIA: &str = r#"[{"type": "function", "function": {"name": "feishu_reply_media"}}]"#;
const CARD: &str = r#"[{"type": "function", "function": {"name": "feishu_reply_card"}}]"#;

#[test]
fn feishu_tool_schemas_follow_output_flags() {
    let schemas = feishu_tool_schemas(true, false, MEDIA, CARD);
    assert_eq!(schema_names(&schemas), vec![FEISHU_REPLY_MEDIA_TOOL]);

    let schemas = feishu_tool_schemas(false, true, MEDIA, CARD);
    assert_eq!(schema_names(&schemas), vec![FEISHU_REPLY_CARD_TOOL]);
}

#[test]
fn broken_schema_templates_hold_nothing() {
    assert!(weixin_tool_schemas("  ").is_empty());
    assert!(weixin_tool_schemas("{}").is_empty());
    assert!(weixin_tool_schemas("not json").is_empty());
    assert_eq!(weixin_tool_schemas(" [1, 2] ").len(), 2);
}

#[test]
fn only_files_in_roots_are_sent() {
    let roots = vec!["/work".to_string()];
    let candidates = path_candidates("a.png", &roots, false);
    assert_eq!(candidates, vec!["/work/a.png".to_string()]);
    let found = pick_allowed_file("a.png", &vec![Some("/work/a.png".to_string())], &roots, "Feishu", false);
    assert_eq!(found.unwrap(), "/work/a.png");
    let outside = pick_allowed_file("a.png", &vec![Some("/workspace/a.png".to_string())], &roots, "Feishu", false);
    assert_eq!(
        outside.unwrap_err(),
        "File path is not readable inside the allowed Feishu roots: a.png"
    );
    let drives = vec![r"C:\work".to_string(), "D:/more".to_string()];
    assert_eq!(
        path_candidates("a.png", &drives, true),
        vec![r"C:\work\a.png".to_string(), r"D:/more\a.png".to_string()]
    );
    assert_eq!(path_candidates(r"E:\a.png", &drives, true), vec![r"E:\a.png".to_string()]);
    let pick = |path: &str| {
        pick_allowed_file("a.png", &vec![Some(path.to_string())], &drives, "Feishu", true).is_ok()
    };
    assert!(pick(r"c:\work\a.png"));
    assert!(pick(r"D:\more\b\a.png"));
    assert!(!pick(r"C:\workspace\a.png"));
    assert!(!pick(r"E:\work\a.png"));
}

#[test]
fn configurations_are_mappings() {
    assert!(read_config(" \n", "channels.yaml").unwrap().is_none());
    let settings = read_config("weixin:\n  enabled: true\n", "channels.yaml").unwrap().unwrap();
    assert!(matches!(
        lookup(&settings, "weixin").and_then(|w| w.get("enabled")),
        Some(Json::Bool(true))
    ));
    assert_eq!(
        read_config("- 1", "channels.yaml").unwrap_err(),
        "Invalid YAML config in channels.yaml: expected a mapping"
    );
    let broken = read_config("a: [", "channels.yaml").unwrap_err();
    assert!(broken.starts_with("parse YAML in channels.yaml: "));
    assert!(broken.len() > "parse YAML in channels.yaml: ".len());
    assert_eq!(
        check_config_root(Err("why".to_string()), "x").unwrap_err(),
        "parse YAML in x: why"
    );
    assert!(check_config_root(Ok(Json::Null), "x").unwrap().is_none());
}

#[test]
fn services_need_something_to_run() {
    assert_eq!(plan_service(true, true).unwrap(), ServicePlan::Both);
    assert_eq!(plan_service(true, false).unwrap(), ServicePlan::Channels);
    assert_eq!(plan_service(false, true).unwrap(), ServicePlan::Automation);
    assert!(plan_service(false, false).is_err());
    let mut runtime = ChannelRuntime::new(ChannelRuntimeConfig::default());
    assert_eq!(
        runtime.start().unwrap_err(),
        "channels.yaml must enable at least one service ingress"
    );
    let mut config = ChannelRuntimeConfig::default();
    config.websocket.enabled = true;
    config.feishu.enabled = true;
    let mut runtime = ChannelRuntime::new(config);
    assert_eq!(
        runtime.start().unwrap_err(),
        "Service ingress channels are configured but not implemented yet: websocket, feishu"
    );
    let mut config = ChannelRuntimeConfig::default();
    config.weixin.enabled = true;
    let mut runtime = ChannelRuntime::new(config);
    assert!(runtime.start().is_ok());
    assert!(runtime.start().is_ok());
    runtime.shutdown();
    assert!(runtime.config().has_enabled_channels());
}
