use dwo_agent::blocks::{
    build_mcp, build_tools, workspace_rule_names, EnvBlockWatcher, ToolPrompts, WatcherState,
};
use dwo_agent::compact::{
    build_compacted_user_messages, build_summary_text, collect_user_messages, compact_context,
    conversation_items,
    count_content_tokens, count_shared_tokens, is_context_window_error, truncate_text_to_budget, ContentPart,
    ConversationItem, SummaryReply, SummaryRequest, SummaryStep, UserContent,
};
use dwo_agent::content_block::{is_image_part, normalize_user_content};
use dwo_agent::files::{
    check_json_root, check_yaml_root, decode_utf8_text, read_json_object, read_yaml_object,
};
use dwo_agent::json::{Json, JsonNumber, Member};
use dwo_agent::manager::{
    patch_message_for_text_model, patch_message_with_texts, split_stable_prefix, CompactionOutcome,
    ConversationContextManager,
};
use dwo_agent::models::{AgentTools, ToolSwitch};
use dwo_agent::skills::{
    check_frontmatter, discover_context_skills, extract_frontmatter, read_properties, skill_roots,
    to_prompt, to_prompt_with_limit, LocatedSkill, SkillError,
};
use dwo_agent::xml::{block, html_escape};
use serde_json::Value;

fn of_value(v: Value) -> Json {
    match v {
        Value::Null => Json::Null,
        Value::Bool(b) => Json::Bool(b),
        Value::Number(n) => match n.as_u64() {
            Some(u) => Json::Number(JsonNumber::Unsigned(u)),
            None => Json::Number(JsonNumber::Other(n.to_string())),
        },
        Value::String(s) => Json::Text(s),
        Value::Array(items) => Json::Array(items.into_iter().map(of_value).collect()),
        Value::Object(map) => Json::Object(
            map.into_iter()
                .map(|(key, v)| Member { key, value: of_value(v) })
                .collect(),
        ),
    }
}

fn json(s: &str) -> Json {
    of_value(parsed(s))
}

fn parsed(s: &str) -> Value {
    serde_json::from_str(s).unwrap()
}

fn value(j: &Json) -> Value {
    match j {
        Json::Null => Value::Null,
        Json::Bool(b) => Value::Bool(*b),
        Json::Number(JsonNumber::Unsigned(n)) => Value::from(*n),
        Json::Number(JsonNumber::Negative(n)) => Value::from(*n),
        Json::Number(JsonNumber::Other(s)) => parsed(s),
        Json::Text(s) => Value::String(s.clone()),
        Json::Array(items) => Value::Array(items.iter().map(value).collect()),
        Json::Object(members) => {
            let mut map = serde_json::Map::new();
            for m in members {
                map.insert(m.key.clone(), value(&m.value));
            }
            Value::Object(map)
        }
    }
}

#[test]
fn add_user_stores_plain_text_as_typed_content_block() {
    let mut manager = ConversationContextManager::new(Vec::new(), 1000, 800);
    manager.add_user(&Json::Text("hello".to_string())).unwrap();
    assert_eq!(
        value(manager.messages()[0].get("content").unwrap()),
        parsed(r#"[{"type": "text", "text": "hello"}]"#)
    );
}

#[test]
fn messages_for_text_model_replaces_image_parts_and_keeps_text_path() {
    let mut manager = ConversationContextManager::new(Vec::new(), 1000, 800);
    manager
        .add_user(&json(
            r#"[
                {"type": "text", "text": "收到图片文件：C:/tmp/image.png"},
                {"type": "image", "data": "abc", "mimeType": "image/png"}
            ]"#,
        ))
        .unwrap();

    let text_messages = manager.messages_for_model(false);
    let vision_messages = manager.messages_for_model(true);

    assert_eq!(
        value(text_messages[0].get("content").unwrap()),
        parsed(
            r#"[
                {"type": "text", "text": "收到图片文件：C:/tmp/image.png"},
                {"type": "text", "text": "该处为图片消息。"}
            ]"#
        )
    );
    assert_eq!(
        value(vision_messages[0].get("content").unwrap()),
        parsed(
            r#"[
                {"type": "text", "text": "收到图片文件：C:/tmp/image.png"},
                {"type": "image_url", "image_url": {"url": "data:image/png;base64,abc"}}
            ]"#
        )
    );
}

#[test]
fn blocks_that_are_no_objects_are_written_out_for_a_text_model() {
    let message = json(r#"{"role": "user", "content": [7, ["a", null], {"type": "image"}]}"#);
    let want = parsed(
        r#"{"role": "user", "content": [
            {"type": "text", "text": "7"},
            {"type": "text", "text": "[\"a\",null]"},
            {"type": "text", "text": "该处为图片消息。"}
        ]}"#,
    );
    assert_eq!(value(&patch_message_for_text_model(&message)), want);
    let manager = ConversationContextManager::new(vec![message.copy()], 1000, 800);
    assert_eq!(value(&manager.messages_for_model(false)[0]), want);
    let given = vec!["x".to_string(), "y".to_string(), "z".to_string()];
    let patched = patch_message_with_texts(&message, &given);
    assert_eq!(value(&patched)["content"][0]["text"], "x");
}

#[test]
fn tool_outputs_are_written_out() {
    let mut manager = ConversationContextManager::new(Vec::new(), 1000, 800);
    manager.add_tool_result("c1", "read", &json(r#"{"b": 1, "a": [1.5, "x"]}"#));
    assert_eq!(
        value(&manager.messages()[0]),
        parsed(
            r#"{"role": "tool", "tool_call_id": "c1", "name": "read",
                "content": "{\"b\":1,\"a\":[1.5,\"x\"]}"}"#
        )
    );
}

#[test]
fn messages_are_read_for_compaction() {
    let items = conversation_items(&vec![
        json(r#"{"role": "user", "content": "hello"}"#),
        json(
            r#"{"role": "user", "content": [
                {"type": "resource", "uri": "u"},
                {"type": "input_text", "input_text": [1]}
            ]}"#,
        ),
        json(r#"{"content": 3}"#),
    ]);
    assert_eq!(items[0].role.as_deref(), Some("user"));
    assert!(matches!(&items[0].content, UserContent::Text(s) if s == "hello"));
    match &items[1].content {
        UserContent::Parts(parts) => {
            assert_eq!(parts[0].json, r#"{"type":"resource","uri":"u"}"#);
            assert_eq!(parts[0].text_json, "");
            assert_eq!(parts[1].text_json, "[1]");
        }
        other => panic!("{other:?}"),
    }
    assert_eq!(items[2].role, None);
    assert!(matches!(&items[2].content, UserContent::Other));
}

#[test]
fn only_first_system_message_is_stable_prefix() {
    let messages = vec![
        json(r#"{"role": "system", "content": "stable"}"#),
        json(
            r#"{"role": "system", "content": "<watcher_content>\n<env_block></env_block>\n</watcher_content>"}"#,
        ),
        json(r#"{"role": "user", "content": "hello"}"#),
    ];
    let (prefix, rest) = split_stable_prefix(&messages);
    assert_eq!(prefix.len(), 1);
    assert_eq!(rest.len(), 2);
}

#[test]
fn compaction_waits_until_it_is_due() {
    let first = json(r#"{"role": "system", "content": "s"}"#);
    let mut manager = ConversationContextManager::new(vec![first], 1000, 800);
    manager.add_user(&Json::Text("hello".to_string())).unwrap();
    assert!(manager.begin_compaction(false).is_none());
    manager.sync_token_usage(900);
    assert!(manager.should_compact());
    assert!(manager.begin_compaction(true).is_none());
    assert_eq!(manager.begin_compaction(false).unwrap().len(), 1);
    let compacted = vec![json(r#"{"role": "user", "content": "summary"}"#)];
    assert!(matches!(
        manager.finish_compaction(None, compacted, false),
        CompactionOutcome::Compacted
    ));
    assert_eq!(manager.messages().len(), 2);
    assert!(!manager.should_compact());
    assert_eq!(manager.usage_snapshot().size, 1000);
}

#[test]
fn user_content_is_normalized() {
    assert!(normalize_user_content(&Json::Null).is_err());
    assert!(is_image_part(&json(r#"{"type": "image_url"}"#)));
    assert!(!is_image_part(&json(r#"{"type": "text"}"#)));
}

fn prompts() -> ToolPrompts {
    ToolPrompts {
        root: "root".to_string(),
        codemode: "codemode".to_string(),
        files: "files".to_string(),
        terminal: "terminal".to_string(),
        subagent: "subagent".to_string(),
    }
}

#[test]
fn build_tools_omits_disabled_sections() {
    let tools = AgentTools {
        mcp: ToolSwitch::Disable,
        file_edit: ToolSwitch::Enable,
        terminal: ToolSwitch::Disable,
        subagent: ToolSwitch::Disable,
    };

    let prompt = build_tools(&tools, &prompts());

    assert!(prompt.contains("<files>"));
    assert!(!prompt.contains("<codemode>"));
    assert!(!prompt.contains("<terminal>"));
    assert!(!prompt.contains("<subagent>"));
}

#[test]
fn env_block_watcher_queues_changed_snapshot() {
    let watcher = EnvBlockWatcher::new(
        "agent".to_string(),
        "test-agent".to_string(),
        ".".to_string(),
        Vec::new(),
        Vec::new(),
    );
    let before = watcher.build_content("", "", "", "");
    let mut state = WatcherState::start(Some(before.clone()));
    state.observe(&before);
    assert!(state.drain_pending().is_none());

    let skill = read_properties(
        "---\nname: new-skill\ndescription: Newly added skill\n---\n",
        "skills/new-skill/SKILL.md",
    )
    .unwrap();
    let skills = to_prompt(&vec![LocatedSkill {
        properties: skill,
        location: "skills/new-skill/SKILL.md".to_string(),
    }]);
    let mcp = build_mcp(Some("agent/resources/mcp.json"));
    let after = watcher.build_content("", &mcp, &skills, "");
    state.observe(&after);
    let content = state.drain_pending().unwrap();
    assert!(state.drain_pending().is_none());
    assert!(content.contains("<watcher_content>"));
    assert!(content.contains("<env_block>"));
    assert!(content.contains("<name>\nnew-skill\n</name>"));
    assert!(content.contains("<mcp>"));
    assert!(content.contains("mcporter --version"));
    assert!(content.contains("mcporter --config"));
}

#[test]
fn skill_files_are_read() {
    let skill = read_properties(
        "\u{feff}---\nname: my-skill\ndescription: \" Does things \"\nlicense: 7\nmetadata:\n  a: 1\n  b: x\n---\nbody",
        "SKILL.md",
    )
    .unwrap();
    assert_eq!(skill.name, "my-skill");
    assert_eq!(skill.description, "Does things");
    assert_eq!(skill.license.as_deref(), Some("7"));
    assert_eq!(skill.metadata.len(), 2);
    assert_eq!(
        value(&Json::Object(skill.to_dict())),
        parsed(r#"{"name": "my-skill", "description": "Does things", "license": "7",
            "metadata": {"a": "1", "b": "x"}}"#)
    );
}

#[test]
fn skill_values_are_shown_by_their_texts() {
    let skill = read_properties(
        "---\nname: s\ndescription: [1, a]\nlicense: true\ncompatibility: ~\nmetadata:\n  a: {b: [1, x], c: ~}\n  d: text\n  e: ~\n---\n",
        "SKILL.md",
    )
    .unwrap();
    assert_eq!(skill.description, r#"[1,"a"]"#);
    assert_eq!(skill.license.as_deref(), Some("true"));
    assert_eq!(skill.compatibility, None);
    let shown: Vec<(&str, &str)> =
        skill.metadata.iter().map(|e| (e.key.as_str(), e.text.as_str())).collect();
    assert_eq!(shown, vec![("a", r#"{"b":[1,"x"],"c":null}"#), ("d", "text"), ("e", "null")]);

    let member = |key: &str, value: &str| Member { key: key.to_string(), value: json(value) };
    let given = vec![member("name", r#""a-b""#), member("description", "7")];
    let skill = check_frontmatter(Ok(Json::Object(given)), "p").unwrap();
    assert_eq!((skill.name.as_str(), skill.description.as_str()), ("a-b", "7"));
    assert!(matches!(
        check_frontmatter(Ok(json("[1]")), "p"),
        Err(SkillError::Parse(m)) if m == "Frontmatter must be a key-value map in p"
    ));
    assert!(matches!(
        check_frontmatter(Err("why".to_string()), "p"),
        Err(SkillError::Parse(m)) if m == "Invalid YAML frontmatter in p: why"
    ));
}

#[test]
fn skills_are_looked_for_in_order() {
    assert_eq!(
        skill_roots(
            "/agent/resources",
            "/work",
            &vec!["/more".to_string(), "/x".to_string()],
            false
        ),
        vec!["/agent/resources/skills", "/more", "/x", "/work/.agent/skills"]
    );
}

#[test]
fn broken_skill_files_are_refused() {
    for content in ["", "name: x", "---\nname: x\n"] {
        assert!(matches!(extract_frontmatter(content, "p"), Err(SkillError::Parse(_))));
    }
    match read_properties("---\nname: [\n---\n", "p") {
        Err(SkillError::Parse(message)) => {
            assert!(message.starts_with("Invalid YAML frontmatter in p: "));
        }
        _ => panic!("broken YAML"),
    }
    assert!(matches!(
        read_properties("---\n- 1\n---\n", "p"),
        Err(SkillError::Parse(m)) if m == "Frontmatter must be a key-value map in p"
    ));
    match read_properties("---\nname: My Skill\nmetadata: 3\n---\n", "p") {
        Err(SkillError::Validation { message, errors }) => {
            assert_eq!(message, "Invalid skill frontmatter in p");
            assert_eq!(
                errors,
                vec![
                    "Field `name` must be kebab-case, for example: my-skill".to_string(),
                    "Missing required field: description".to_string(),
                    "Field `metadata` must be an object".to_string(),
                ]
            );
        }
        _ => panic!("invalid frontmatter"),
    }
    assert!(matches!(
        read_properties("---\n---\n", "p"),
        Err(SkillError::Validation { errors, .. }) if errors.len() == 2
    ));
}

#[test]
fn skills_are_listed_once() {
    let found = vec!["a".to_string(), "b".to_string(), "a".to_string()];
    assert_eq!(discover_context_skills(&found), vec!["a".to_string(), "b".to_string()]);
    assert!(to_prompt_with_limit(&Vec::new(), 10).is_ok());
}

fn part(s: &str) -> ContentPart {
    let v = parsed(s);
    ContentPart { value: json(s), json: v.to_string(), text_json: v["text"].to_string() }
}

#[test]
fn tokens_are_counted() {
    let words = UserContent::Text("hello world".to_string());
    assert_eq!(count_content_tokens(&words).unwrap(), 2);
    assert_eq!(count_content_tokens(&UserContent::Text("  ".to_string())).unwrap(), 0);
    assert_eq!(count_content_tokens(&UserContent::Parts(Vec::new())).unwrap(), 0);
    assert!(count_content_tokens(&UserContent::Other).is_err());
    let parts = UserContent::Parts(vec![part(r#"{"type": "text", "text": "hello world"}"#)]);
    assert!(count_content_tokens(&parts).unwrap() > 0);
}

#[test]
fn contents_that_say_the_same_share_a_count() {
    let of = |s: &str| UserContent::Parts(vec![part(s)]);
    let contents = vec![
        of(r#"{"type": "resource", "resource": {"uri": "x", "lines": [1, 2]}}"#),
        UserContent::Text("other".to_string()),
        of(r#"{"resource": {"lines": [1, 2], "uri": "x"}, "type": "resource"}"#),
        of(r#"{"resource": {"lines": [2, 1], "uri": "x"}, "type": "resource", "note": "more"}"#),
    ];
    let newest = count_content_tokens(&contents[2]).unwrap();
    assert_eq!(count_shared_tokens(&contents, 0).unwrap(), newest);
    assert_eq!(count_shared_tokens(&contents, 1).unwrap(), 1);
    assert_eq!(count_shared_tokens(&contents, 2).unwrap(), newest);
    assert!(count_shared_tokens(&contents, 3).unwrap() > newest);
}

#[test]
fn escaped_text_can_be_read_back() {
    let raw = "a < b && \"c\" > 'd' &lt;";
    let escaped = html_escape(raw);
    let back = escaped
        .replace("&lt;", "<")
        .replace("&gt;", ">")
        .replace("&quot;", "\"")
        .replace("&#x27;", "'")
        .replace("&amp;", "&");
    assert_eq!(back, raw);
}

#[test]
fn rule_files_are_looked_for_in_order() {
    assert_eq!(workspace_rule_names(&Vec::new()), vec!["AGENTS.md"]);
    assert_eq!(workspace_rule_names(&vec!["B.md".to_string()]), vec!["AGENTS.md", "B.md"]);
}

#[test]
fn long_texts_are_cut_to_their_budget() {
    let text = "one two three four five six seven eight nine ten";
    let cut = truncate_text_to_budget(text, 3).unwrap();
    assert!(!cut.is_empty());
    assert!(text.starts_with(&cut));
    assert!(count_content_tokens(&UserContent::Text(cut)).unwrap() <= 3);
    assert_eq!(truncate_text_to_budget(text, 0).unwrap(), "");
    assert_eq!(truncate_text_to_budget(text, 1000).unwrap(), text);
}

fn said(role: &str, text: &str) -> ConversationItem {
    ConversationItem {
        role: Some(role.to_string()),
        content: UserContent::Text(text.to_string()),
    }
}

#[test]
fn newest_user_messages_are_kept() {
    let items = vec![said("user", "first"), said("assistant", "reply"), said("user", "second")];
    let contents = collect_user_messages(&items, "PREFIX").unwrap();
    assert_eq!(contents.len(), 2);
    let kept = build_compacted_user_messages(&contents, 1).unwrap();
    assert_eq!(kept.len(), 1);
    assert!(value(&kept[0]).to_string().contains("second"));
    let compacted = compact_context(&items, "PREFIX", "what was done").unwrap();
    assert_eq!(compacted.len(), 3);
    assert_eq!(
        value(compacted[2].get("content").unwrap()),
        parsed(r#"[{"type": "text", "text": "PREFIX\nwhat was done"}]"#)
    );
    assert_eq!(build_summary_text(" ", " x "), "x");
}

#[test]
fn too_long_contexts_are_retried_shorter() {
    assert!(is_context_window_error("This model's Maximum Context length is 8192"));
    assert!(!is_context_window_error("connection refused"));
    let mut request = SummaryRequest::new(vec![Json::Null, Json::Null]);
    assert_eq!(request.messages("prompt").len(), 3);
    let too_long = || SummaryReply::Failed("too many tokens".to_string());
    assert!(matches!(request.on_reply(too_long()), SummaryStep::Retry));
    assert!(matches!(request.on_reply(too_long()), SummaryStep::Retry));
    assert!(matches!(request.on_reply(too_long()), SummaryStep::Failed(_)));
    assert!(matches!(
        request.on_reply(SummaryReply::Message(Some(" ok ".to_string()))),
        SummaryStep::Done(s) if s == "ok"
    ));
    assert!(matches!(
        request.on_reply(SummaryReply::Message(Some(" ".to_string()))),
        SummaryStep::Failed(_)
    ));
    assert!(matches!(request.on_reply(SummaryReply::Message(None)), SummaryStep::Failed(_)));
}

#[test]
fn blocks_are_written() {
    assert_eq!(html_escape("<a&\"b'>"), "&lt;a&amp;&quot;b&#x27;&gt;");
    assert!(block("x", "y").starts_with("<x>"));
}

#[test]
fn files_are_decoded() {
    assert_eq!(
        decode_utf8_text(&b"\xef\xbb\xbfhi".to_vec(), "p").unwrap(),
        "hi"
    );
    assert_eq!(
        decode_utf8_text(&vec![0xff], "p").unwrap_err(),
        "File is not UTF-8: p. On Windows, save this file as UTF-8."
    );
    assert_eq!(read_json_object("{\"a\": 1}", "p").unwrap().len(), 1);
    assert!(read_json_object("{", "p").unwrap_err().starts_with("parse JSON in p: EOF"));
    assert_eq!(check_json_root(Err("why".to_string()), "p").unwrap_err(), "parse JSON in p: why");
    assert_eq!(check_yaml_root(Err("why".to_string()), "p").unwrap_err(), "parse YAML in p: why");
    assert_eq!(
        read_json_object("[]", "p").unwrap_err(),
        "Invalid JSON root in p: must be object"
    );
    assert_eq!(read_yaml_object("a: 1\nb: 2", "p").unwrap().len(), 2);
    assert!(read_yaml_object(" ", "p").unwrap().is_empty());
    assert!(read_yaml_object("~", "p").unwrap().is_empty());
    assert!(read_yaml_object("a: [", "p").unwrap_err().starts_with("parse YAML in p: "));
    assert_eq!(
        read_yaml_object("- 1", "p").unwrap_err(),
        "Invalid YAML root in p: must be object"
    );
}
