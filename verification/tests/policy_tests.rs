use dwo_agent::json::{Json, Member};
use dwo_agent::policy::{
    clamp_subagent_policy, parse_policy_mode, policy_mode_rank, resolve_permission_decision,
    resolve_tool_policy, CommandRule, TerminalPolicy, ToolPolicyAction, ToolPolicyConfig,
    MODE_CONFIRM, MODE_FULL_ACCESS, MODE_WATCH,
};

fn exact(s: &str) -> CommandRule {
    CommandRule::Exact(s.to_string())
}

fn prefix(s: &str) -> CommandRule {
    CommandRule::Prefix(s.to_string())
}

fn pattern(s: &str) -> CommandRule {
    CommandRule::Regex(s.to_string())
}

fn policy() -> ToolPolicyConfig {
    ToolPolicyConfig {
        terminal: TerminalPolicy {
            deny: vec![
                pattern("(?i)^\\s*git\\s+reset\\s+--hard\\b"),
                pattern("(?i)Remove-Item\\b.*\\b-Recurse\\b"),
            ],
            allow: vec![exact("git status"), prefix("cargo check"), prefix("rg ")],
            watch_allow: vec![
                exact("git status"),
                prefix("git diff"),
                prefix("rg "),
                prefix("Get-Content "),
            ],
        },
    }
}

fn member(key: &str, value: Json) -> Member {
    Member { key: key.to_string(), value }
}

fn command(s: &str) -> Vec<Member> {
    vec![member("command", Json::Text(s.to_string()))]
}

fn terminal(mode: &str, args: &Vec<Member>) -> ToolPolicyAction {
    resolve_tool_policy(mode, "terminal_exec", args, &policy()).unwrap()
}

#[test]
fn full_access_terminal_uses_deny_only() {
    assert!(matches!(
        terminal(MODE_FULL_ACCESS, &command("cargo build")),
        ToolPolicyAction::Allow
    ));
    assert!(matches!(
        terminal(MODE_FULL_ACCESS, &command("git reset --hard HEAD")),
        ToolPolicyAction::Reject(_)
    ));
}

#[test]
fn confirm_terminal_allows_allowlist_rejects_deny_and_confirms_otherwise() {
    assert!(matches!(
        terminal(MODE_CONFIRM, &command("rg policy src")),
        ToolPolicyAction::Allow
    ));
    assert!(matches!(
        terminal(MODE_CONFIRM, &command("git reset --hard")),
        ToolPolicyAction::Reject(_)
    ));
    assert!(matches!(
        terminal(MODE_CONFIRM, &command("cargo run")),
        ToolPolicyAction::Confirm
    ));
}

#[test]
fn allowlist_does_not_autopass_multi_command_or_env_override() {
    assert!(matches!(
        terminal(MODE_CONFIRM, &command("git status; cargo run")),
        ToolPolicyAction::Confirm
    ));
    let mut args = command("git status");
    args.push(member(
        "env",
        Json::Object(vec![member("PATH", Json::Text("custom".to_string()))]),
    ));
    assert!(matches!(terminal(MODE_CONFIRM, &args), ToolPolicyAction::Confirm));
}

#[test]
fn watch_terminal_only_allows_simple_watch_commands() {
    assert!(matches!(
        terminal(MODE_WATCH, &command("Get-Content Cargo.toml")),
        ToolPolicyAction::Allow
    ));
    assert!(matches!(
        terminal(MODE_WATCH, &command("Get-Content Cargo.toml | Set-Content out.txt")),
        ToolPolicyAction::Reject(_)
    ));
}

#[test]
fn file_edit_policy_is_fixed_by_mode() {
    let policy = policy();
    let args = vec![member(
        "patch",
        Json::Text("*** Begin Patch\n*** End Patch".to_string()),
    )];
    assert!(matches!(
        resolve_tool_policy(MODE_FULL_ACCESS, "file_edit", &args, &policy).unwrap(),
        ToolPolicyAction::Allow
    ));
    assert!(matches!(
        resolve_tool_policy(MODE_CONFIRM, "file_edit", &args, &policy).unwrap(),
        ToolPolicyAction::Confirm
    ));
    assert!(matches!(
        resolve_tool_policy(MODE_WATCH, "file_edit", &args, &policy).unwrap(),
        ToolPolicyAction::Reject(_)
    ));
}

#[test]
fn subagent_policy_is_clamped_at_creation_to_parent_mode() {
    assert_eq!(
        clamp_subagent_policy(MODE_CONFIRM, Some(MODE_FULL_ACCESS)).unwrap(),
        MODE_CONFIRM
    );
    assert_eq!(
        clamp_subagent_policy(MODE_CONFIRM, Some(MODE_WATCH)).unwrap(),
        MODE_WATCH
    );
    assert_eq!(
        clamp_subagent_policy(MODE_CONFIRM, None).unwrap(),
        MODE_CONFIRM
    );

    assert_eq!(
        clamp_subagent_policy(MODE_WATCH, Some(MODE_FULL_ACCESS)).unwrap(),
        MODE_WATCH
    );
    assert_eq!(
        clamp_subagent_policy(MODE_WATCH, Some(MODE_CONFIRM)).unwrap(),
        MODE_WATCH
    );

    assert_eq!(
        clamp_subagent_policy(MODE_FULL_ACCESS, Some(MODE_CONFIRM)).unwrap(),
        MODE_CONFIRM
    );
    assert_eq!(
        clamp_subagent_policy(MODE_FULL_ACCESS, Some(MODE_WATCH)).unwrap(),
        MODE_WATCH
    );
    assert_eq!(
        clamp_subagent_policy(MODE_FULL_ACCESS, None).unwrap(),
        MODE_FULL_ACCESS
    );
}

#[test]
fn unknown_modes_have_no_rank() {
    assert!(parse_policy_mode("nothing").is_err());
    assert!(policy_mode_rank("nothing").is_err());
    assert!(clamp_subagent_policy("nothing", None).is_err());
    let watch = policy_mode_rank(MODE_WATCH).unwrap();
    let confirm = policy_mode_rank(MODE_CONFIRM).unwrap();
    let full = policy_mode_rank(MODE_FULL_ACCESS).unwrap();
    assert!(watch < confirm && confirm < full);
}

#[test]
fn broken_patterns_match_nothing() {
    let rules = TerminalPolicy {
        deny: vec![pattern("(unclosed")],
        allow: Vec::new(),
        watch_allow: Vec::new(),
    };
    assert!(!rules.command_is_denied("(unclosed"));
    assert!(policy().terminal.command_is_denied("GIT reset --hard"));
    assert!(!policy().terminal.command_is_denied("git status"));
}

#[test]
fn unknown_permission_decisions_are_errors() {
    assert!(resolve_permission_decision("maybe").is_err());
}
