use dwo_agent::codemode::{check_program, program_output, run_list_item, run_name, run_output};
use dwo_agent::file_edit::{
    added_file, apply_update_segments, check_delete, decode_file, encode_file, lexical_path,
    lexical_resolve, parse_patch, updated_file, EditReport, Operation,
};
use dwo_agent::json::{lookup, Json, JsonNumber, Member};
use dwo_agent::llm::{
    check_arguments, parse_provider, parse_tool_calls, DeepSeekReasoning, ModelProvider,
};
use dwo_agent::mcp::{
    is_injected_function, prompt_signature, read_injected_call, resolve_mcp_path,
    resolve_program_path, resource_result, server_command, server_order, tool_result,
    InjectedCall, McpCatalog, McpCatalogItem, McpKind, PromptArgument,
};
use dwo_agent::models::{AgentTools, ToolSwitch};
use dwo_agent::paths::PathPart;
use dwo_agent::terminal::{
    command_text, kill_call, merged_env, render_snapshot, shell_call, HandleState, TerminalSession,
};
use dwo_agent::tools::{
    normalize_arguments, patch_argument, plan_tool_call, subagent_tool_schemas, subagent_tools,
    tool_schemas, tool_status_to_update_status, EnvVar, SchemaTemplates, ToolBatch, ToolCatalog,
    ToolGroup, ToolPlan, ToolRoute, ToolSpec,
};

fn number(n: u64) -> Json {
    Json::Number(JsonNumber::Unsigned(n))
}

fn text(s: &str) -> Json {
    Json::Text(s.to_string())
}

fn object(members: Vec<(&str, Json)>) -> Json {
    Json::Object(fields(members))
}

fn fields(members: Vec<(&str, Json)>) -> Vec<Member> {
    members
        .into_iter()
        .map(|(key, value)| Member { key: key.to_string(), value })
        .collect()
}

fn value(j: &Json) -> serde_json::Value {
    match j {
        Json::Null => serde_json::Value::Null,
        Json::Bool(b) => serde_json::Value::Bool(*b),
        Json::Number(JsonNumber::Unsigned(n)) => serde_json::Value::from(*n),
        Json::Number(JsonNumber::Negative(n)) => serde_json::Value::from(*n),
        Json::Number(JsonNumber::Other(s)) => serde_json::from_str(s).unwrap(),
        Json::Text(s) => serde_json::Value::String(s.clone()),
        Json::Array(items) => serde_json::Value::Array(items.iter().map(value).collect()),
        Json::Object(members) => members_value(members),
    }
}

fn members_value(members: &Vec<Member>) -> serde_json::Value {
    let mut map = serde_json::Map::new();
    for m in members {
        map.insert(m.key.clone(), value(&m.value));
    }
    serde_json::Value::Object(map)
}

fn parsed(s: &str) -> serde_json::Value {
    serde_json::from_str(s).unwrap()
}

// What a workspace holds, by path.
struct Files(Vec<(String, Vec<u8>)>);

impl Files {
    fn get(&self, path: &str) -> Option<&Vec<u8>> {
        self.0.iter().find(|(p, _)| p == path).map(|(_, b)| b)
    }

    fn put(&mut self, path: &str, bytes: Vec<u8>) {
        self.0.retain(|(p, _)| p != path);
        self.0.push((path.to_string(), bytes));
    }

    fn text(&self, path: &str) -> String {
        decode_file(self.get(path).unwrap(), path).unwrap()
    }

    fn edit(&mut self, patch: &str) -> Result<Json, String> {
        let mut report = EditReport::new();
        for op in parse_patch(patch).map_err(|e| e.0)? {
            match &op {
                Operation::Add(add) => {
                    self.put(&add.path, added_file(add));
                    report.record(&op, &add.path, "");
                }
                Operation::Delete(del) => {
                    check_delete(del, self.get(&del.path).is_some()).map_err(|e| e.0)?;
                    self.0.retain(|(p, _)| p != &del.path);
                    report.record(&op, &del.path, "");
                }
                Operation::Update(update) => {
                    let bytes = updated_file(update, self.get(&update.path), &update.path)
                        .map_err(|e| e.0)?;
                    let dest = update.move_to.clone().unwrap_or(update.path.clone());
                    if update.move_to.is_some() {
                        self.0.retain(|(p, _)| p != &update.path);
                    }
                    self.put(&dest, bytes);
                    report.record(&op, &update.path, &dest);
                }
            }
        }
        Ok(report.to_json())
    }
}

const BOM: [u8; 3] = [0xef, 0xbb, 0xbf];

fn bom_count(bytes: &[u8]) -> usize {
    bytes.windows(3).filter(|w| *w == BOM).count()
}

#[test]
fn file_edit_adds_and_updates_file() {
    let mut files = Files(Vec::new());
    let patch = r#"
*** Begin Patch
*** Add File: notes.txt
+alpha
+beta
*** Update File: notes.txt
@@
-beta
+gamma
*** End Patch
"#;
    let output = files.edit(patch).unwrap();
    assert_eq!(output.get_str("status"), Some("completed_success"));
    assert!(files.get("notes.txt").unwrap().starts_with(&BOM));
    assert_eq!(files.text("notes.txt"), "alpha\ngamma\n");
    assert_eq!(
        value(&output),
        parsed(r#"{"status": "completed_success", "done": true, "added": ["notes.txt"],
            "modified": ["notes.txt"], "deleted": []}"#)
    );
}

const UPDATE: &str = r#"
*** Begin Patch
*** Update File: notes.txt
@@
-beta
+gamma
*** End Patch
"#;

#[test]
fn file_edit_updates_utf8_without_bom_and_writes_bom() {
    let mut files = Files(Vec::new());
    files.put("notes.txt", b"alpha\nbeta\n".to_vec());
    let output = files.edit(UPDATE).unwrap();
    assert_eq!(output.get_str("status"), Some("completed_success"));
    assert!(files.get("notes.txt").unwrap().starts_with(&BOM));
    assert_eq!(files.text("notes.txt"), "alpha\ngamma\n");
}

#[test]
fn file_edit_updates_utf8_bom_without_duplicating_bom() {
    let mut files = Files(Vec::new());
    files.put("notes.txt", encode_file("alpha\nbeta\n"));
    let output = files.edit(UPDATE).unwrap();
    assert_eq!(output.get_str("status"), Some("completed_success"));
    assert_eq!(bom_count(files.get("notes.txt").unwrap()), 1);
    assert_eq!(files.text("notes.txt"), "alpha\ngamma\n");
}

#[test]
fn file_edit_rejects_non_utf8_update_target() {
    let mut files = Files(Vec::new());
    files.put("notes.txt", vec![0xff, 0xfe, b'a']);
    let patch = r#"
*** Begin Patch
*** Update File: notes.txt
@@
-a
+b
*** End Patch
"#;
    let error = files.edit(patch).unwrap_err();
    assert!(error.contains("File is not UTF-8"));
}

#[test]
fn file_edit_allows_parent_paths() {
    let mut files = Files(Vec::new());
    let patch = r#"
*** Begin Patch
*** Add File: ../outside.txt
+outside
*** End Patch
"#;
    let output = files.edit(patch).unwrap();
    assert_eq!(output.get_str("status"), Some("completed_success"));
    assert!(files.get("../outside.txt").unwrap().starts_with(&BOM));
    assert_eq!(files.text("../outside.txt"), "outside\n");
    let resolved = lexical_resolve(vec![
        PathPart::Root,
        PathPart::Name("tmp".to_string()),
        PathPart::Name("workspace".to_string()),
        PathPart::Parent,
        PathPart::Current,
        PathPart::Name("outside.txt".to_string()),
    ]);
    assert_eq!(resolved.len(), 3);
    assert!(matches!(&resolved[2], PathPart::Name(n) if n == "outside.txt"));
    for (path, windows, want) in [
        ("/tmp/workspace/.././outside.txt", false, "/tmp/outside.txt"),
        ("/../a//b/", false, "/a/b"),
        ("a/../../b", false, "b"),
        (r"C:\tmp\..\./b/c", true, r"C:\b\c"),
        ("C:a/./b", true, r"C:a\b"),
        ("//h/s/a/../b", true, r"//h/s\b"),
        (r"\\?\C:\a\..\b/c", true, r"\\?\C:\b/c"),
    ] {
        assert_eq!(lexical_path(path, windows), want);
    }
}

#[test]
fn file_edit_allows_absolute_paths() {
    let mut files = Files(Vec::new());
    let output = files
        .edit("*** Begin Patch\n*** Add File: /tmp/absolute.txt\n+absolute\n*** End Patch\n")
        .unwrap();
    assert_eq!(output.get_str("status"), Some("completed_success"));
    assert!(files.get("/tmp/absolute.txt").unwrap().starts_with(&BOM));
    assert_eq!(files.text("/tmp/absolute.txt"), "absolute\n");
}

#[test]
fn file_edit_moves_and_deletes() {
    let mut files = Files(Vec::new());
    files.put("a.txt", b"one\n".to_vec());
    files.put("b.txt", b"two\n".to_vec());
    let output = files
        .edit("*** Begin Patch\n*** Update File: a.txt\n*** Move to: c.txt\n@@\n-one\n+uno\n*** Delete File: b.txt\n*** End Patch")
        .unwrap();
    assert_eq!(files.text("c.txt"), "uno\n");
    assert!(files.get("a.txt").is_none() && files.get("b.txt").is_none());
    assert_eq!(
        value(&output),
        parsed(r#"{"status": "completed_success", "done": true, "added": [],
            "modified": ["c.txt"], "deleted": ["a.txt", "b.txt"]}"#)
    );
}

#[test]
fn broken_patches_are_refused() {
    for patch in [
        "",
        "*** Begin Patch",
        "*** Begin Patch\n*** End",
        "*** Begin Patch\nhello\n*** End Patch",
        "*** Begin Patch\n*** Add File:  \n+a\n*** End Patch",
    ] {
        assert!(parse_patch(patch).is_err(), "{patch}");
    }
    let mut files = Files(Vec::new());
    assert_eq!(
        files.edit(UPDATE).unwrap_err(),
        "File to update does not exist: notes.txt"
    );
    assert_eq!(
        files
            .edit("*** Begin Patch\n*** Delete File: x\n*** End Patch")
            .unwrap_err(),
        "File to delete does not exist: x"
    );
    files.put("notes.txt", b"alpha\n".to_vec());
    assert!(files.edit(UPDATE).is_err());
    assert_eq!(apply_update_segments("a\n", &Vec::new()).unwrap(), "a\n");
}

fn spec(name: &str, kind: &str, route: ToolRoute, group: ToolGroup, writes_files: bool) -> ToolSpec {
    ToolSpec { name: name.to_string(), kind: kind.to_string(), route, group, writes_files }
}

fn catalog() -> ToolCatalog {
    ToolCatalog {
        tools: vec![
            spec("file_edit", "file", ToolRoute::Immediate, ToolGroup::File, true),
            spec("text_replace", "file", ToolRoute::Immediate, ToolGroup::File, true),
            spec("terminal_exec", "terminal", ToolRoute::CreateSession, ToolGroup::Terminal, false),
            spec("spawn_subagent", "subagent", ToolRoute::CreateSession, ToolGroup::Subagent, false),
            spec("wait", "wait", ToolRoute::Wait, ToolGroup::Wait, false),
        ],
        unknown_kind: "unknown".to_string(),
    }
}

fn all_tools() -> AgentTools {
    AgentTools {
        mcp: ToolSwitch::Enable,
        file_edit: ToolSwitch::Enable,
        terminal: ToolSwitch::Enable,
        subagent: ToolSwitch::Enable,
    }
}

fn plan_error(plan: &ToolPlan) -> Option<String> {
    match plan {
        ToolPlan::Output(v) => v.get_str("error").map(|s| s.to_string()),
        _ => None,
    }
}

#[test]
fn disabled_file_edit_is_rejected() {
    let tools = AgentTools { file_edit: ToolSwitch::Disable, ..all_tools() };
    let args = object(vec![("patch", text(""))]);
    let plan = plan_tool_call("call-1", "file_edit", Some(&args), false, false, &catalog(), &tools);
    assert_eq!(plan_error(&plan).as_deref(), Some("Tool is disabled: file_edit"));

    let args = object(vec![
        ("path", text("notes.txt")),
        ("old_text", text("a")),
        ("new_text", text("b")),
    ]);
    let plan =
        plan_tool_call("call-2", "text_replace", Some(&args), false, false, &catalog(), &tools);
    assert_eq!(plan_error(&plan).as_deref(), Some("Tool is disabled: text_replace"));
}

#[test]
fn cancel_running_tools_keeps_manager_open() {
    let args = object(vec![("patch", text(""))]);
    let plan =
        plan_tool_call("call-1", "file_edit", Some(&args), false, false, &catalog(), &all_tools());
    assert_ne!(plan_error(&plan).as_deref(), Some("Tool manager is shutting down."));
    let plan =
        plan_tool_call("call-1", "file_edit", Some(&args), true, false, &catalog(), &all_tools());
    assert_eq!(plan_error(&plan).as_deref(), Some("Tool manager is shutting down."));
}

#[test]
fn multiple_file_writes_are_rejected_but_other_tools_run() {
    let request = |id: &str, name: &str, arguments: Vec<(&str, Json)>| {
        object(vec![
            ("tool_call_id", text(id)),
            ("name", text(name)),
            ("arguments", object(arguments)),
        ])
    };
    let patch = "*** Begin Patch\n*** Add File: a.txt\n+alpha\n*** End Patch";
    let requests = vec![
        request("edit-1", "file_edit", vec![("patch", text(patch))]),
        request(
            "term-1",
            "terminal_exec",
            vec![("command", text("printf 'terminal-ok\\n'")), ("timeout", number(5))],
        ),
        request(
            "edit-2",
            "text_replace",
            vec![
                ("path", text("existing.txt")),
                ("old_text", text("alpha")),
                ("new_text", text("beta")),
            ],
        ),
    ];
    let catalog = catalog();
    let mut batch = ToolBatch::plan(&requests, &catalog);
    assert!(batch.output(0).is_some());
    assert!(batch.output(1).is_none());
    let answer = |status: &str, output: &str| {
        object(vec![("status", text(status)), ("output", text(output))])
    };
    batch.accept(1, answer("completed", "terminal-ok\n"));
    batch.accept(1, answer("completed", "too late"));
    batch.accept(2, answer("completed", "written after all"));
    let outputs = batch.finish(false);
    assert_eq!(outputs.len(), 3);
    for output in [&outputs[0], &outputs[2]] {
        assert_eq!(output.get_str("status"), Some("error"));
        assert!(output
            .get_str("error")
            .unwrap()
            .contains("Multiple file write tool calls"));
    }
    assert_eq!(outputs[1].get_str("status"), Some("completed"));
    assert!(outputs[1].get_str("output").unwrap().contains("terminal-ok"));
}

#[test]
fn arguments_must_be_objects() {
    assert!(normalize_arguments(None).unwrap().is_empty());
    assert!(normalize_arguments(Some(&Json::Null)).unwrap().is_empty());
    assert_eq!(
        normalize_arguments(Some(&text("x"))).unwrap_err(),
        "Tool arguments must be an object."
    );
    for (status, shown) in [
        ("Running", "in_progress"),
        ("error", "failed"),
        ("cancelled", "failed"),
        ("ok", "completed"),
    ] {
        assert_eq!(
            tool_status_to_update_status(&object(vec![("status", text(status))])),
            shown
        );
    }
}

fn templates() -> SchemaTemplates {
    let of = |name: &str| format!(r#"[{{"type": "function", "function": {{"name": "{name}"}}}}]"#);
    SchemaTemplates {
        files: of("file_edit"),
        terminal: of("terminal_exec"),
        subagent: of("spawn_subagent"),
        wait: of("wait"),
    }
}

fn names(schemas: &Vec<Json>) -> Vec<String> {
    schemas
        .iter()
        .filter_map(|s| s.get("function").and_then(|f| f.get_str("name")))
        .map(|s| s.to_string())
        .collect()
}

#[test]
fn tool_schemas_follow_agent_tools() {
    let tools = AgentTools {
        mcp: ToolSwitch::Disable,
        file_edit: ToolSwitch::Disable,
        terminal: ToolSwitch::Enable,
        subagent: ToolSwitch::Disable,
    };
    let names = names(&tool_schemas(&tools, &templates()));
    assert!(names.contains(&"terminal_exec".to_string()));
    assert!(!names.contains(&"file_edit".to_string()));
    assert!(!names.contains(&"spawn_subagent".to_string()));
    assert_eq!(names, vec!["terminal_exec".to_string(), "wait".to_string()]);
}

#[test]
fn subagents_get_no_more_tools_than_their_parent() {
    let own = names(&tool_schemas(&all_tools(), &templates()));
    let lent = names(&subagent_tool_schemas(&all_tools(), &templates()));
    assert!(lent.iter().all(|n| own.contains(n)));
    let tools = subagent_tools(&all_tools());
    assert_eq!(tools.file_edit, ToolSwitch::Disable);
    assert_eq!(tools.subagent, ToolSwitch::Disable);
    assert_eq!(tools.terminal, all_tools().terminal);
    assert_eq!(tools.mcp, all_tools().mcp);
    assert!(!lent.contains(&"spawn_subagent".to_string()));
}

#[test]
fn terminal_session_checkout_respects_tail_line_num() {
    let mut state = HandleState::new();
    for i in 1..=10 {
        state.push_line(format!("line{i}\n"));
    }
    state.finish(Some(0));
    let first = render_snapshot("terminal-tail", &state, 200, None);
    assert_eq!(first.get_str("status"), Some("completed_success"));
    assert_eq!(first.get("total_lines").unwrap().as_u64(), Some(10));
    assert_eq!(first.get("returned_lines").unwrap().as_u64(), Some(10));
    assert_eq!(
        first.get_str("output"),
        Some("line1\nline2\nline3\nline4\nline5\nline6\nline7\nline8\nline9\nline10\n")
    );

    let mut session = TerminalSession::new("terminal-tail", "cat sample.txt");
    session.state = Some(state);
    let checkout = session.checkout(&fields(vec![("tail_line_num", number(3))])).unwrap();
    assert_eq!(checkout.get("total_lines").unwrap().as_u64(), Some(10));
    assert_eq!(checkout.get("returned_lines").unwrap().as_u64(), Some(3));
    assert_eq!(checkout.get_str("output"), Some("line8\nline9\nline10\n"));
}

#[test]
fn terminal_session_keeps_non_ascii_output() {
    let mut session = TerminalSession::new("terminal-non-ascii", "printf '赤铎 — ok\\n'");
    let mut state = HandleState::new();
    state.push_line("赤铎 — ok\n".to_string());
    state.finish(Some(0));
    session.state = Some(state);
    let output = session.start_output(true).unwrap();
    assert_eq!(output.get_str("status"), Some("completed_success"));
    assert!(matches!(output.get("done"), Some(Json::Bool(true))));
    assert_eq!(output.get("total_lines").unwrap().as_u64(), Some(1));
    assert_eq!(output.get_str("output").unwrap().trim_end(), "赤铎 — ok");
}

#[test]
fn terminal_reader_decodes_invalid_utf8_lossy() {
    let mut state = HandleState::new();
    state.push_bytes(&vec![0xC3, 0x28, b'\n']);
    let lines = &state.output_lines;
    assert_eq!(lines.len(), 1);
    assert!(lines[0].contains('\u{FFFD}'));
    assert!(lines[0].ends_with('\n'));
    state.push_bytes(&"赤铎 — ok\n".as_bytes().to_vec());
    assert_eq!(state.output_lines[1], "赤铎 — ok\n");
}

#[test]
fn file_edit_accepts_patch_text_alias() {
    let patch = "*** Begin Patch\n*** Add File: notes.txt\n+alpha\n*** End Patch";
    let of = |key: &str, s: &str| Member { key: key.to_string(), value: text(s) };
    assert_eq!(patch_argument(&vec![of("patchText", patch)]), patch);
    assert_eq!(patch_argument(&vec![of("patch", "p"), of("patchText", patch)]), "p");
    assert_eq!(patch_argument(&vec![of("patch", ""), of("patchText", patch)]), patch);
    assert_eq!(patch_argument(&Vec::new()), "");
    let operations = parse_patch(patch_argument(&vec![of("patchText", patch)])).unwrap();
    assert!(matches!(&operations[..], [Operation::Add(add)] if add.path == "notes.txt"));
}

#[test]
fn patches_keep_the_order_of_their_headers() {
    let body = "*** Begin Patch\n*** Update File:  b.txt \n*** Move to:  c.txt \n@@\n-x\n+y\n\
        *** Delete File: d.txt\n*** Add File: a.txt\n+alpha\n*** End Patch";
    for patch in [body.to_string(), format!("  \n{body}\n\n")] {
        let operations = parse_patch(&patch).unwrap();
        assert_eq!(operations.len(), 3);
        assert!(matches!(
            &operations[0],
            Operation::Update(update)
                if update.path == "b.txt" && update.move_to.as_deref() == Some("c.txt")
        ));
        assert!(matches!(&operations[1], Operation::Delete(delete) if delete.path == "d.txt"));
        assert!(matches!(&operations[2], Operation::Add(add) if add.path == "a.txt"));
    }
}

#[test]
fn tool_calls_are_read_from_a_message() {
    let call = |id: &str, name: &str, arguments: &str| {
        let function = object(vec![("name", text(name)), ("arguments", text(arguments))]);
        object(vec![("id", text(id)), ("function", function)])
    };
    let items = vec![
        call("1", "a", "{\"command\":\"ls\"}"),
        call("2", "b", "  "),
        call("3", "c", "[1]"),
        call("4", "d", "{"),
        Json::Null,
    ];
    let calls = parse_tool_calls(&object(vec![("tool_calls", Json::Array(items))]));
    assert_eq!(calls.len(), 5);
    assert_eq!((calls[0].id.as_str(), calls[0].name.as_str()), ("1", "a"));
    assert_eq!(calls[0].arguments[0].value.as_str(), Some("ls"));
    assert_eq!(calls[0].parse_error, None);
    assert!(calls[1].arguments.is_empty() && calls[1].parse_error.is_none());
    assert_eq!(calls[2].parse_error.as_deref(), Some("tool arguments must be an object"));
    assert!(calls[3].parse_error.as_ref().unwrap().starts_with("EOF while parsing"));
    assert_eq!((calls[4].id.as_str(), calls[4].name.as_str()), ("", ""));
    assert!(parse_tool_calls(&object(vec![("content", text("hi"))])).is_empty());
    let (arguments, error) = check_arguments(Err("broken".to_string()), "{");
    assert!(arguments.is_empty());
    assert_eq!(error.as_deref(), Some("broken"));
}

#[test]
fn terminal_session_start_returns_completed_success() {
    let mut session = TerminalSession::new("terminal-test", "printf 'done\\n'");
    let mut state = HandleState::new();
    state.push_line("done\n".to_string());
    state.finish(Some(0));
    session.state = Some(state);
    let output = session.start_output(true).unwrap();
    assert_eq!(output.get_str("status"), Some("completed_success"));
    assert!(matches!(output.get("done"), Some(Json::Bool(true))));
    assert_eq!(output.get_str("output").unwrap().trim_end(), "done");
    assert!(session.is_done());
}

#[test]
fn killed_and_failed_commands_are_told_apart() {
    let mut state = HandleState::new();
    assert!(state.mark_killed());
    assert_eq!(state.status_label(), "killed");
    let mut failed = HandleState::new();
    failed.finish(Some(1));
    assert_eq!(failed.status_label(), "completed_error");
    let mut done = HandleState::new();
    done.finish(Some(0));
    assert_eq!(done.status_label(), "completed_success");
    assert!(command_text("  ").is_err());
    assert_eq!(command_text(" ls ").unwrap(), "ls");
    assert!(!shell_call("ls", false, false).program.is_empty());
    assert!(kill_call(7, false).0.args.iter().any(|a| a.contains('7')));
}

#[test]
fn later_variables_win() {
    let var = |name: &str, value: &str| EnvVar { name: name.to_string(), value: value.to_string() };
    let merged = merged_env(vec![var("A", "1"), var("B", "2")], vec![var("A", "3")]);
    let last = merged.iter().rev().find(|v| v.name == "A").unwrap();
    assert_eq!(last.value, "3");
    assert!(merged.iter().any(|v| v.name == "B" && v.value == "2"));
}

#[test]
fn deepseek_reasoning_modes_match_provider_kwargs() {
    let shaper = DeepSeekReasoning;
    assert!(shaper.reasoning_kwargs("auto").unwrap().is_empty());
    assert_eq!(
        members_value(&shaper.reasoning_kwargs("nonthink").unwrap()),
        parsed(r#"{"extra_body": {"thinking": {"type": "disabled"}}}"#)
    );
    assert_eq!(
        members_value(&shaper.reasoning_kwargs("high").unwrap()),
        parsed(r#"{"extra_body": {"thinking": {"type": "enabled"}}, "reasoning_effort": "high"}"#)
    );
    assert_eq!(
        members_value(&shaper.reasoning_kwargs("max").unwrap()),
        parsed(r#"{"extra_body": {"thinking": {"type": "enabled"}}, "reasoning_effort": "max"}"#)
    );
}

#[test]
fn deepseek_rejects_unknown_reasoning_mode() {
    let error = DeepSeekReasoning.reasoning_kwargs("medium").unwrap_err();
    assert!(error.contains("Unsupported DeepSeek reasoning_mode: medium"));
    assert!(matches!(parse_provider(" deepseek "), Ok(ModelProvider::DeepSeek)));
    assert_eq!(parse_provider("x").unwrap_err(), "Unsupported model provider: x");
}

#[test]
fn resolve_program_path_keeps_path_lookup_commands() {
    assert_eq!(resolve_program_path("mcp-server", "C:/workspace", false), "mcp-server");
}

#[test]
fn resolve_program_path_anchors_relative_paths_to_cwd() {
    assert_eq!(
        resolve_program_path(".bin/mcp-server.exe", "C:/workspace", false),
        "C:/workspace/.bin/mcp-server.exe"
    );
}

fn tool(server: &str, name: &str) -> McpCatalogItem {
    McpCatalogItem::Tool {
        server: server.to_string(),
        name: name.to_string(),
        description: format!("does {name}"),
        signature: object(vec![("type", text("object"))]),
    }
}

#[test]
fn empty_mcp_config_loads_empty_catalog() {
    let catalog = McpCatalog { server_names: Vec::new(), items: Vec::new() };
    assert!(catalog.server_names.is_empty());
    assert!(catalog.search("", "", McpKind::Tool, 20).unwrap().is_empty());
    assert_eq!(
        catalog.search("", "", McpKind::Tool, 0).unwrap_err(),
        "limit must be greater than or equal to 1"
    );
    assert_eq!(
        catalog.search("", "x", McpKind::Tool, 5).unwrap_err(),
        "Unknown MCP server: x"
    );
    assert_eq!(catalog.require_server(" ").unwrap_err(), "servername is required");
    assert_eq!(catalog.require_server("x").unwrap_err(), "Unknown MCP server: x");
}

#[test]
fn capabilities_are_found_by_server_and_name() {
    let catalog = McpCatalog {
        server_names: vec!["beta".to_string(), "Alpha".to_string()],
        items: vec![
            tool("beta", "write"),
            tool("Alpha", "Zoo"),
            tool("Alpha", "add"),
            McpCatalogItem::Resource {
                server: "beta".to_string(),
                uri: "file:///a".to_string(),
                description: "a file".to_string(),
                mime_type: None,
            },
        ],
    };
    let all = catalog.search("", "", McpKind::Tool, 10).unwrap();
    let found: Vec<&str> = all.iter().map(|v| v.get_str("name").unwrap()).collect();
    assert_eq!(found, vec!["add", "Zoo", "write"]);
    let hits = catalog.search(" WRITE ", "", McpKind::Tool, 10).unwrap();
    assert_eq!(hits.len(), 1);
    assert_eq!(catalog.search(r#"{"TYPE":"object"}"#, "", McpKind::Tool, 10).unwrap().len(), 3);
    assert_eq!(catalog.items[0].as_search_text(), r#"beta tool write does write {"type":"object"}"#);
    assert_eq!(catalog.items[0].words("-"), "beta tool write does write -");
    assert_eq!(catalog.search("", "Alpha", McpKind::Tool, 1).unwrap().len(), 1);
    assert_eq!(catalog.require_server(" Alpha ").unwrap(), 1);
    let resources = catalog.search("null", "beta", McpKind::Resource, 5).unwrap();
    assert_eq!(
        value(&resources[0]),
        parsed(r#"{"server": "beta", "kind": "resource", "name": "file:///a",
            "description": "a file", "uri": "file:///a", "mime_type": null}"#)
    );
    assert_eq!(
        server_order(&vec!["beta".to_string(), "Alpha".to_string()]),
        vec![1, 0]
    );
}

#[test]
fn server_commands_are_read() {
    assert!(server_command(&Json::Null, None, false).unwrap_err().contains("must be an object"));
    assert!(server_command(&object(vec![]), None, false).unwrap_err().contains("missing `command`"));
    let config = object(vec![
        ("command", text("./run")),
        ("args", Json::Array(vec![text("-x")])),
        ("env", object(vec![("A", text("1"))])),
        ("cwd", text("srv")),
    ]);
    let command = server_command(&config, Some("/agent"), false).unwrap();
    assert_eq!(command.cwd.as_deref(), Some("/agent/srv"));
    assert_eq!(command.program, "/agent/srv/./run");
    assert_eq!(command.args, vec!["-x".to_string()]);
    assert_eq!(command.env.len(), 1);
    assert_eq!(resolve_mcp_path("x", None, false), "x");
}

#[test]
fn mcp_answers_are_told() {
    let result = object(vec![("isError", Json::Bool(true))]);
    assert_eq!(
        value(&tool_result("s", "t", &result)),
        parsed(r#"{"server": "s", "name": "t", "content": [], "structured_content": null,
            "is_error": true}"#)
    );
    let contents = object(vec![(
        "contents",
        Json::Array(vec![object(vec![("mimeType", text("text/plain"))])]),
    )]);
    assert_eq!(
        resource_result("s", "u", &contents).get_str("mime_type"),
        Some("text/plain")
    );
    let signature = prompt_signature(&vec![PromptArgument {
        name: "a".to_string(),
        description: None,
        required: Some(true),
    }]);
    assert_eq!(
        value(&signature),
        parsed(r#"{"arguments": [{"name": "a", "description": "", "required": true}]}"#)
    );
}

#[test]
fn injected_calls_are_read() {
    match read_injected_call("search_mcp", &vec![text("q")]).unwrap() {
        Some(InjectedCall::Search { query, server, kind, limit }) => {
            assert_eq!(query, "q");
            assert_eq!(server, "");
            assert_eq!(kind, McpKind::Tool);
            assert_eq!(limit, 5);
        }
        _ => panic!("a search"),
    }
    assert_eq!(
        read_injected_call("search_mcp", &vec![text(""), text(""), text("x")]).unwrap_err(),
        "Unsupported MCP capability kind: x"
    );
    assert!(read_injected_call("print", &Vec::new()).unwrap().is_none());
    let args = vec![text("s"), text("t"), object(vec![("a", number(1))])];
    match read_injected_call("mcp_tool", &args).unwrap() {
        Some(InjectedCall::Tool { arguments, .. }) => {
            assert_eq!(lookup(&arguments, "a").unwrap().as_u64(), Some(1));
        }
        _ => panic!("a tool"),
    }
    assert!(is_injected_function("mcp_resource"));
    assert!(!is_injected_function("open"));
}

#[test]
fn programs_are_checked_and_told() {
    assert_eq!(check_program(" ", true, 1).unwrap_err(), "code must be non-empty");
    assert_eq!(check_program("x", false, 1).unwrap_err(), "timeout must be > 0");
    assert_eq!(check_program("x", true, 0).unwrap_err(), "outputlimit must be >= 1");
    assert!(check_program("x", true, 1).is_ok());
    assert_eq!(program_output("abcdef", 3).get_str("output"), Some("abc\n[TRUNCATED]"));
    assert_eq!(run_name(Some(" r1 "), "u"), "r1");
    assert_eq!(run_name(Some(" "), "u"), "u");
    assert_eq!(run_name(None, "u"), "u");
    assert_eq!(
        value(&run_output("r1", Err(String::new()))),
        parsed(r#"{"toolcall_id": "r1", "runtime": {"kind": "codemode", "id": "r1",
            "status": "completed_error"}, "status": "completed_error", "done": true,
            "error": "error"}"#)
    );
    assert_eq!(run_output("r1", Ok(Json::Null)).get_str("status"), Some("completed_success"));
    assert_eq!(run_list_item("r1", false).get_str("status"), Some("running"));
}
