//! Permission modes and what they let a tool call do.

use crate::json::{field, fields, lemma_fields_empty, lookup, text_field_or, Json, Jv, Member};
use crate::patterns::{regex_is_match, regex_match};
use crate::text::{
    cat2, chars_of, has_prefix, is_blank, is_ws, law_trim_cuts_white_space_only,
    law_trim_keeps_what_is_between, opt_str, starts_with, str_eq, trim, trim_end_of, trim_of,
    trim_start_of,
};
use vstd::prelude::*;

verus! {

pub const MODE_FULL_ACCESS: &'static str = "full_access";
pub const MODE_CONFIRM: &'static str = "confirm";
pub const MODE_WATCH: &'static str = "watch";

pub const PERMISSION_ALLOW_ONCE: &'static str = "allow_once";
pub const PERMISSION_REJECT_ONCE: &'static str = "reject_once";
pub const PERMISSION_CANCELLED: &'static str = "cancelled";

/// A permission mode.
pub ghost enum Mode {
    /// Only simple commands that read.
    Watch,
    /// Ask before anything that is not listed.
    Confirm,
    /// Everything but denied commands.
    FullAccess,
}

/// The name of a mode.
pub open spec fn mode_name(m: Mode) -> Seq<char> {
    match m {
        Mode::Watch => MODE_WATCH@,
        Mode::Confirm => MODE_CONFIRM@,
        Mode::FullAccess => MODE_FULL_ACCESS@,
    }
}

/// The mode that a text names, white space around it aside.
pub open spec fn mode_of(value: Seq<char>) -> Option<Mode> {
    let name = trim_of(value);
    if name == MODE_FULL_ACCESS@ {
        Some(Mode::FullAccess)
    } else if name == MODE_CONFIRM@ {
        Some(Mode::Confirm)
    } else if name == MODE_WATCH@ {
        Some(Mode::Watch)
    } else {
        None
    }
}

/// How much a mode lets through.
pub open spec fn rank(m: Mode) -> int {
    match m {
        Mode::Watch => 0,
        Mode::Confirm => 1,
        Mode::FullAccess => 2,
    }
}

/// Why a text names no mode.
pub open spec fn mode_error(value: Seq<char>) -> Seq<char> {
    if is_blank(value) {
        "policy_mode cannot be empty"@
    } else {
        "policy_mode must use one internal name: full_access, confirm, watch"@
    }
}

/// What reading a mode gave.
pub open spec fn mode_result(value: Seq<char>) -> Result<Seq<char>, Seq<char>> {
    match mode_of(value) {
        Some(m) => Ok(mode_name(m)),
        None => Err(mode_error(value)),
    }
}

proof fn lemma_mode_names()
    ensures
        MODE_FULL_ACCESS@.len() > 0,
        MODE_CONFIRM@.len() > 0,
        MODE_WATCH@.len() > 0,
        MODE_FULL_ACCESS@ != MODE_CONFIRM@,
        MODE_FULL_ACCESS@ != MODE_WATCH@,
        MODE_CONFIRM@ != MODE_WATCH@,
        trim_of(MODE_FULL_ACCESS@) == MODE_FULL_ACCESS@,
        trim_of(MODE_CONFIRM@) == MODE_CONFIRM@,
        trim_of(MODE_WATCH@) == MODE_WATCH@,
{
    reveal_strlit("full_access");
    reveal_strlit("confirm");
    reveal_strlit("watch");
    assert(MODE_FULL_ACCESS@.len() == 11);
    assert(MODE_CONFIRM@.len() == 7);
    assert(MODE_WATCH@.len() == 5);
}

/// A mode's name names that mode.
pub proof fn law_mode_name_round_trips(m: Mode)
    ensures
        mode_of(mode_name(m)) == Some(m),
{
    lemma_mode_names();
}

/// Reads a mode; the result is the mode's name.
pub fn parse_policy_mode(value: &str) -> (r: Result<String, String>)
    ensures
        match r {
            Ok(name) => mode_result(value@) == Ok::<Seq<char>, Seq<char>>(name@),
            Err(e) => mode_result(value@) == Err::<Seq<char>, Seq<char>>(e@),
        },
{
    let mode = trim(value);
    proof {
        lemma_mode_names();
    }
    if mode.is_empty() {
        return Err("policy_mode cannot be empty".to_owned());
    }
    if str_eq(mode, MODE_FULL_ACCESS) {
        Ok(MODE_FULL_ACCESS.to_owned())
    } else if str_eq(mode, MODE_CONFIRM) {
        Ok(MODE_CONFIRM.to_owned())
    } else if str_eq(mode, MODE_WATCH) {
        Ok(MODE_WATCH.to_owned())
    } else {
        Err("policy_mode must use one internal name: full_access, confirm, watch".to_owned())
    }
}

/// How much a mode lets through: 0 for `watch`, 1 for `confirm`, 2 for
/// `full_access`.
pub fn policy_mode_rank(mode: &str) -> (r: Result<u8, String>)
    ensures
        match mode_of(mode@) {
            Some(m) => r matches Ok(n) && n == rank(m),
            None => r matches Err(e) && e@ == mode_error(mode@),
        },
{
    let name = match parse_policy_mode(mode) {
        Ok(name) => name,
        Err(e) => return Err(e),
    };
    proof {
        lemma_mode_names();
    }
    if str_eq(name.as_str(), MODE_WATCH) {
        Ok(0)
    } else if str_eq(name.as_str(), MODE_CONFIRM) {
        Ok(1)
    } else {
        Ok(2)
    }
}

/// How a command is matched.
#[derive(Debug)]
pub enum CommandRule {
    /// The command is this text.
    Exact(String),
    /// The command begins with this text.
    Prefix(String),
    /// The command matches this regular expression.
    Regex(String),
}

/// The commands that are denied, and those that need no confirmation.
#[derive(Debug)]
pub struct TerminalPolicy {
    pub deny: Vec<CommandRule>,
    pub allow: Vec<CommandRule>,
    pub watch_allow: Vec<CommandRule>,
}

/// The configured tool policy.
#[derive(Debug)]
pub struct ToolPolicyConfig {
    pub terminal: TerminalPolicy,
}

/// Whether a rule matches a command.
pub open spec fn rule_matches(rule: CommandRule, command: Seq<char>) -> bool {
    match rule {
        CommandRule::Exact(s) => command == s@,
        CommandRule::Prefix(s) => starts_with(command, s@),
        CommandRule::Regex(p) => regex_match(p@, command) == Some(true),
    }
}

/// Whether one of the rules matches a command.
pub open spec fn any_rule_matches(rules: Seq<CommandRule>, command: Seq<char>) -> bool {
    exists|i: int| 0 <= i < rules.len() && rule_matches(#[trigger] rules[i], command)
}

fn some_rule_matches(rules: &Vec<CommandRule>, command: &str) -> (r: bool)
    ensures
        r == any_rule_matches(rules@, command@),
{
    let mut i: usize = 0;
    while i < rules.len()
        invariant
            i <= rules@.len(),
            forall|k: int| 0 <= k < i ==> !rule_matches(#[trigger] rules@[k], command@),
        decreases rules@.len() - i,
    {
        let found = match &rules[i] {
            CommandRule::Exact(s) => str_eq(command, s.as_str()),
            CommandRule::Prefix(s) => has_prefix(command, s.as_str()),
            CommandRule::Regex(p) => match regex_is_match(p.as_str(), command) {
                Some(b) => b,
                None => false,
            },
        };
        proof {
            assert(found == rule_matches(rules@[i as int], command@));
        }
        if found {
            return true;
        }
        i += 1;
    }
    false
}

impl TerminalPolicy {
    /// Whether a deny rule matches.
    pub fn command_is_denied(&self, command: &str) -> (r: bool)
        ensures
            r == any_rule_matches(self.deny@, command@),
    {
        some_rule_matches(&self.deny, command)
    }

    /// Whether the command needs no confirmation.
    pub fn command_is_allowed(&self, command: &str) -> (r: bool)
        ensures
            r == any_rule_matches(self.allow@, command@),
    {
        some_rule_matches(&self.allow, command)
    }

    /// Whether the command may run in watch mode.
    pub fn command_is_watch_allowed(&self, command: &str) -> (r: bool)
        ensures
            r == any_rule_matches(self.watch_allow@, command@),
    {
        some_rule_matches(&self.watch_allow, command)
    }
}

/// What happens to a tool call.
#[derive(Debug, Clone, PartialEq, Eq)]
pub enum ToolPolicyAction {
    /// It runs.
    Allow,
    /// It runs if the user agrees.
    Confirm,
    /// It does not run, for this reason.
    Reject(String),
}

/// What happens to a tool call.
pub ghost enum ActionView {
    Allow,
    Confirm,
    Reject(Seq<char>),
}

impl View for ToolPolicyAction {
    type V = ActionView;

    open spec fn view(&self) -> ActionView {
        match *self {
            ToolPolicyAction::Allow => ActionView::Allow,
            ToolPolicyAction::Confirm => ActionView::Confirm,
            ToolPolicyAction::Reject(s) => ActionView::Reject(s@),
        }
    }
}

/// What the user's answer means.
#[derive(Debug, Clone, Copy, PartialEq, Eq, Structural)]
pub struct PermissionOutcome {
    pub allowed: bool,
}

/// Where a command scanner stands.
pub ghost enum Quote {
    Outside,
    Single,
    Double,
}

/// Whether a character joins, redirects or substitutes commands by itself.
pub open spec fn is_operator(c: char) -> bool {
    c == '\n' || c == '\r' || c == ';' || c == '|' || c == '&' || c == '>' || c == '<' || c == '`'
}

/// Whether a command substitution begins at `i`.
pub open spec fn substitution_at(s: Seq<char>, i: int) -> bool {
    s[i] == '$' && i + 1 < s.len() && s[i + 1] == '('
}

/// Whether the rest of a command, from `i` on, is free of operators outside
/// quotes and of substitutions outside single quotes, and closes its quotes.
pub open spec fn plain_from(s: Seq<char>, i: int, q: Quote) -> bool
    decreases s.len() - i,
{
    if i < 0 || i >= s.len() {
        q is Outside
    } else {
        match q {
            Quote::Single => plain_from(
                s,
                i + 1,
                if s[i] == '\'' { Quote::Outside } else { Quote::Single },
            ),
            Quote::Double => if s[i] == '"' {
                plain_from(s, i + 1, Quote::Outside)
            } else {
                !substitution_at(s, i) && plain_from(s, i + 1, Quote::Double)
            },
            Quote::Outside => if s[i] == '\'' {
                plain_from(s, i + 1, Quote::Single)
            } else if s[i] == '"' {
                plain_from(s, i + 1, Quote::Double)
            } else {
                !is_operator(s[i]) && !substitution_at(s, i) && plain_from(s, i + 1, Quote::Outside)
            },
        }
    }
}

/// Whether a text is one command.
pub open spec fn simple_command(command: Seq<char>) -> bool {
    !is_blank(command) && plain_from(trim_of(command), 0, Quote::Outside)
}

fn is_simple_terminal_command(command: &str) -> (r: bool)
    ensures
        r == simple_command(command@),
{
    let text = trim(command);
    if text.is_empty() {
        return false;
    }
    let v = chars_of(text);
    let mut in_single: bool = false;
    let mut in_double: bool = false;
    let mut i: usize = 0;
    let ghost mut q: Quote = Quote::Outside;
    while i < v.len()
        invariant
            i <= v@.len(),
            v@ == trim_of(command@),
            !is_blank(command@),
            in_single == (q is Single),
            in_double == (q is Double),
            plain_from(v@, i as int, q) == plain_from(v@, 0, Quote::Outside),
        decreases v@.len() - i,
    {
        let ch = v[i];
        let substitution = ch == '$' && i + 1 < v.len() && v[i + 1] == '(';
        if in_single {
            if ch == '\'' {
                in_single = false;
                proof {
                    q = Quote::Outside;
                }
            }
        } else if in_double {
            if ch == '"' {
                in_double = false;
                proof {
                    q = Quote::Outside;
                }
            } else if substitution {
                return false;
            }
        } else if ch == '\'' {
            in_single = true;
            proof {
                q = Quote::Single;
            }
        } else if ch == '"' {
            in_double = true;
            proof {
                q = Quote::Double;
            }
        } else if ch == '\n' || ch == '\r' || ch == ';' || ch == '|' || ch == '&' || ch == '>'
            || ch == '<' || ch == '`' || substitution {
            return false;
        }
        i += 1;
    }
    !in_single && !in_double
}

/// Whether a call sets no environment of its own.
pub open spec fn env_empty(args: Jv) -> bool {
    match field(args, "env"@) {
        None => true,
        Some(Jv::Null) => true,
        Some(Jv::Object(m)) => m == Map::<Seq<char>, Jv>::empty(),
        Some(_) => false,
    }
}

fn terminal_env_is_empty(args: &Vec<Member>) -> (r: bool)
    ensures
        r == env_empty(Jv::Object(fields(args@))),
{
    match lookup(args, "env") {
        None => true,
        Some(Json::Null) => true,
        Some(Json::Object(map)) => {
            proof {
                lemma_fields_empty(map@);
            }
            map.len() == 0
        },
        Some(_) => false,
    }
}

/// What happens to a `terminal_exec` call.
pub open spec fn terminal_action(mode: Mode, args: Jv, policy: TerminalPolicy) -> ActionView {
    let command = trim_of(text_field_or(args, "command"@, ""@));
    let plain = simple_command(command) && env_empty(args);
    if any_rule_matches(policy.deny@, command) {
        ActionView::Reject("Terminal command denied by policy."@)
    } else {
        match mode {
            Mode::FullAccess => ActionView::Allow,
            Mode::Confirm => if plain && any_rule_matches(policy.allow@, command) {
                ActionView::Allow
            } else {
                ActionView::Confirm
            },
            Mode::Watch => if plain && any_rule_matches(policy.watch_allow@, command) {
                ActionView::Allow
            } else {
                ActionView::Reject("Terminal command is not allowed in watch mode."@)
            },
        }
    }
}

/// Whether a tool only looks, waits or talks to a subagent.
pub open spec fn is_free_tool(name: Seq<char>) -> bool {
    ||| name == "wait"@
    ||| name == "list_terminals"@
    ||| name == "terminal_checkout"@
    ||| name == "spawn_subagent"@
    ||| name == "list_subagents"@
    ||| name == "checkout_subagent"@
    ||| name == "send_subagent"@
    ||| name == "close_subagent"@
}

/// Why watch mode refuses a tool.
pub open spec fn watch_refusal(name: Seq<char>) -> Seq<char> {
    if name == "file_edit"@ {
        "file_edit is not allowed in watch mode."@
    } else if name == "terminal_kill"@ {
        "terminal_kill is not allowed in watch mode."@
    } else {
        "Tool is not allowed in watch mode."@
    }
}

/// What happens to a tool call.
pub open spec fn tool_action(mode: Mode, tool: Seq<char>, args: Jv, policy: TerminalPolicy) -> ActionView {
    let name = trim_of(tool);
    if name == "terminal_exec"@ {
        terminal_action(mode, args, policy)
    } else if is_free_tool(name) {
        ActionView::Allow
    } else {
        match mode {
            Mode::FullAccess => ActionView::Allow,
            Mode::Confirm => ActionView::Confirm,
            Mode::Watch => ActionView::Reject(watch_refusal(name)),
        }
    }
}

fn reject(reason: &str) -> (r: ToolPolicyAction)
    ensures
        r@ == ActionView::Reject(reason@),
{
    ToolPolicyAction::Reject(reason.to_owned())
}

fn is_terminal_read_tool(name: &str) -> (r: bool)
    ensures
        r == (name@ == "list_terminals"@ || name@ == "terminal_checkout"@),
{
    str_eq(name, "list_terminals") || str_eq(name, "terminal_checkout")
}

fn is_subagent_tool(name: &str) -> (r: bool)
    ensures
        r == (name@ == "spawn_subagent"@ || name@ == "list_subagents"@ || name@
            == "checkout_subagent"@ || name@ == "send_subagent"@ || name@ == "close_subagent"@),
{
    str_eq(name, "spawn_subagent") || str_eq(name, "list_subagents") || str_eq(
        name,
        "checkout_subagent",
    ) || str_eq(name, "send_subagent") || str_eq(name, "close_subagent")
}

fn resolve_terminal_exec(mode: &str, args: &Vec<Member>, policy: &ToolPolicyConfig) -> (r:
    ToolPolicyAction)
    requires
        mode_of(mode@) is Some,
        mode@ == mode_name(mode_of(mode@)->0),
    ensures
        r@ == terminal_action(
            mode_of(mode@)->0,
            Jv::Object(fields(args@)),
            policy.terminal,
        ),
{
    proof {
        lemma_mode_names();
    }
    let raw = match lookup(args, "command") {
        Some(v) => match v.as_str() {
            Some(s) => s,
            None => "",
        },
        None => "",
    };
    let command = trim(raw);
    if policy.terminal.command_is_denied(command) {
        return reject("Terminal command denied by policy.");
    }
    let simple = is_simple_terminal_command(command);
    let env_is_empty = terminal_env_is_empty(args);
    if str_eq(mode, MODE_FULL_ACCESS) {
        ToolPolicyAction::Allow
    } else if str_eq(mode, MODE_CONFIRM) {
        if simple && env_is_empty && policy.terminal.command_is_allowed(command) {
            ToolPolicyAction::Allow
        } else {
            ToolPolicyAction::Confirm
        }
    } else if simple && env_is_empty && policy.terminal.command_is_watch_allowed(command) {
        ToolPolicyAction::Allow
    } else {
        reject("Terminal command is not allowed in watch mode.")
    }
}

/// Decides what happens to a tool call in a mode.
pub fn resolve_tool_policy(
    mode_id: &str,
    tool_name: &str,
    tool_args: &Vec<Member>,
    policy: &ToolPolicyConfig,
) -> (r: Result<ToolPolicyAction, String>)
    ensures
        match mode_of(mode_id@) {
            Some(mode) => r matches Ok(action) && action@ == tool_action(
                mode,
                tool_name@,
                Jv::Object(fields(tool_args@)),
                policy.terminal,
            ),
            None => r matches Err(e) && e@ == mode_error(mode_id@),
        },
{
    let mode = match parse_policy_mode(mode_id) {
        Ok(m) => m,
        Err(e) => return Err(e),
    };
    let name = trim(tool_name);
    proof {
        lemma_mode_names();
        reveal_strlit("file_edit");
        reveal_strlit("terminal_exec");
        reveal_strlit("terminal_kill");
        reveal_strlit("wait");
        reveal_strlit("list_terminals");
        reveal_strlit("terminal_checkout");
        reveal_strlit("spawn_subagent");
        reveal_strlit("list_subagents");
        reveal_strlit("checkout_subagent");
        reveal_strlit("send_subagent");
        reveal_strlit("close_subagent");
        assert("file_edit"@[0] == 'f');
        assert("terminal_exec"@[9] == 'e');
        assert("terminal_kill"@[9] == 'k');
        assert("terminal_kill"@[0] == 't');
        law_mode_name_round_trips(mode_of(mode_id@)->0);
    }
    if str_eq(name, "terminal_exec") {
        return Ok(resolve_terminal_exec(mode.as_str(), tool_args, policy));
    }
    if str_eq(name, "wait") || is_terminal_read_tool(name) || is_subagent_tool(name) {
        return Ok(ToolPolicyAction::Allow);
    }
    if str_eq(mode.as_str(), MODE_FULL_ACCESS) {
        Ok(ToolPolicyAction::Allow)
    } else if str_eq(mode.as_str(), MODE_CONFIRM) {
        Ok(ToolPolicyAction::Confirm)
    } else if str_eq(name, "file_edit") {
        Ok(reject("file_edit is not allowed in watch mode."))
    } else if str_eq(name, "terminal_kill") {
        Ok(reject("terminal_kill is not allowed in watch mode."))
    } else {
        Ok(reject("Tool is not allowed in watch mode."))
    }
}

/// Reads the user's answer to a permission request.
pub fn resolve_permission_decision(decision: &str) -> (r: Result<PermissionOutcome, String>)
    ensures
        match r {
            Ok(outcome) => {
                &&& outcome.allowed <==> decision@ == PERMISSION_ALLOW_ONCE@
                &&& decision@ == PERMISSION_ALLOW_ONCE@ || decision@ == PERMISSION_REJECT_ONCE@
                    || decision@ == PERMISSION_CANCELLED@
            },
            Err(e) => {
                &&& decision@ != PERMISSION_ALLOW_ONCE@
                &&& decision@ != PERMISSION_REJECT_ONCE@
                &&& decision@ != PERMISSION_CANCELLED@
                &&& e@ == "Invalid permission decision: "@ + decision@
            },
        },
{
    if str_eq(decision, PERMISSION_ALLOW_ONCE) {
        Ok(PermissionOutcome { allowed: true })
    } else if str_eq(decision, PERMISSION_REJECT_ONCE) || str_eq(decision, PERMISSION_CANCELLED) {
        Ok(PermissionOutcome { allowed: false })
    } else {
        Err(cat2("Invalid permission decision: ", decision))
    }
}

/// The mode of a subagent: the requested one, unless it lets more through
/// than the parent's.
pub open spec fn clamped(parent: Mode, requested: Mode) -> Mode {
    if rank(requested) <= rank(parent) {
        requested
    } else {
        parent
    }
}

/// The mode of a subagent, or why it cannot be told.
pub open spec fn clamp_result(parent: Seq<char>, requested: Option<Seq<char>>) -> Result<
    Seq<char>,
    Seq<char>,
> {
    match mode_of(parent) {
        None => Err(mode_error(parent)),
        Some(p) => match requested {
            None => Ok(mode_name(p)),
            Some(text) => match mode_of(text) {
                None => Err(mode_error(text)),
                Some(q) => Ok(mode_name(clamped(p, q))),
            },
        },
    }
}

/// The mode in which a subagent runs.
pub fn clamp_subagent_policy(parent_mode: &str, requested_mode: Option<&str>) -> (r: Result<
    String,
    String,
>)
    ensures
        match r {
            Ok(name) => clamp_result(parent_mode@, opt_str(requested_mode)) == Ok::<
                Seq<char>,
                Seq<char>,
            >(name@),
            Err(e) => clamp_result(parent_mode@, opt_str(requested_mode)) == Err::<
                Seq<char>,
                Seq<char>,
            >(e@),
        },
{
    let parent = match parse_policy_mode(parent_mode) {
        Ok(m) => m,
        Err(e) => return Err(e),
    };
    let requested = match requested_mode {
        Some(value) => match parse_policy_mode(value) {
            Ok(m) => m,
            Err(e) => return Err(e),
        },
        None => parent.clone(),
    };
    proof {
        law_mode_name_round_trips(mode_of(parent_mode@)->0);
        if requested_mode is Some {
            law_mode_name_round_trips(mode_of(requested_mode->0@)->0);
        }
    }
    let parent_rank = match policy_mode_rank(parent.as_str()) {
        Ok(n) => n,
        Err(e) => return Err(e),
    };
    let requested_rank = match policy_mode_rank(requested.as_str()) {
        Ok(n) => n,
        Err(e) => return Err(e),
    };
    if requested_rank <= parent_rank {
        Ok(requested)
    } else {
        Ok(parent)
    }
}

/// A subagent's mode never lets more through than its parent's, and is the
/// requested one where that is as tight.
pub proof fn law_subagent_mode_only_tightens(parent: Mode, requested: Mode)
    ensures
        rank(clamped(parent, requested)) <= rank(parent),
        rank(clamped(parent, requested)) <= rank(requested),
        rank(requested) <= rank(parent) ==> clamped(parent, requested) == requested,
        clamped(parent, parent) == parent,
{
}

/// However deep subagents are nested, none gets past its first ancestor: the
/// tightening of a tightening is as tight as both.
pub proof fn law_nested_subagents_only_tighten(root: Mode, child: Mode, grandchild: Mode)
    ensures
        rank(clamped(clamped(root, child), grandchild)) <= rank(clamped(root, child)),
        rank(clamped(clamped(root, child), grandchild)) <= rank(root),
        clamped(root, clamped(child, grandchild)) == clamped(clamped(root, child), grandchild),
{
}

/// A denied command is rejected in every mode.
pub proof fn law_denied_command_never_runs(mode: Mode, tool: Seq<char>, args: Jv, policy: TerminalPolicy)
    requires
        trim_of(tool) == "terminal_exec"@,
        any_rule_matches(policy.deny@, trim_of(text_field_or(args, "command"@, ""@))),
    ensures
        tool_action(mode, tool, args, policy) is Reject,
{
}

/// Only confirm mode asks.
pub proof fn law_only_confirm_mode_asks(mode: Mode, tool: Seq<char>, args: Jv, policy: TerminalPolicy)
    ensures
        tool_action(mode, tool, args, policy) is Confirm ==> mode is Confirm,
{
}

/// Full access is the widest mode: what it rejects every mode rejects, and
/// what another mode allows it allows.
pub proof fn law_full_access_is_widest(mode: Mode, tool: Seq<char>, args: Jv, policy: TerminalPolicy)
    ensures
        tool_action(Mode::FullAccess, tool, args, policy) is Reject ==> tool_action(
            mode,
            tool,
            args,
            policy,
        ) is Reject,
        tool_action(mode, tool, args, policy) is Allow ==> tool_action(
            Mode::FullAccess,
            tool,
            args,
            policy,
        ) is Allow,
{
}

/// In watch mode nothing runs but the tools that only look, wait or talk to
/// a subagent, and single commands that are listed, without a changed
/// environment.
pub proof fn law_watch_mode_only_looks(tool: Seq<char>, args: Jv, policy: TerminalPolicy)
    ensures
        tool_action(Mode::Watch, tool, args, policy) is Allow ==> is_free_tool(trim_of(tool)) || {
            let command = trim_of(text_field_or(args, "command"@, ""@));
            &&& trim_of(tool) == "terminal_exec"@
            &&& simple_command(command)
            &&& env_empty(args)
            &&& any_rule_matches(policy.watch_allow@, command)
            &&& !any_rule_matches(policy.deny@, command)
        },
{
}

/// Without quotes, a command is simple if and only if it holds no operator
/// and no substitution.
pub proof fn law_unquoted_command(s: Seq<char>, i: int)
    requires
        0 <= i <= s.len(),
        !s.contains('\''),
        !s.contains('"'),
    ensures
        plain_from(s, i, Quote::Outside) <==> forall|k: int|
            i <= k < s.len() ==> !is_operator(#[trigger] s[k]) && !substitution_at(s, k),
    decreases s.len() - i,
{
    if i < s.len() {
        law_unquoted_command(s, i + 1);
        assert(s.contains(s[i]));
        if plain_from(s, i, Quote::Outside) {
            assert forall|k: int| i <= k < s.len() implies !is_operator(#[trigger] s[k])
                && !substitution_at(s, k) by {}
        } else if plain_from(s, i + 1, Quote::Outside) {
            assert(is_operator(s[i]) || substitution_at(s, i));
        }
    }
}

/// Whether a character has no meaning for the shell: it is no quote, joins or
/// redirects nothing, and begins no substitution.
pub open spec fn is_harmless(c: char) -> bool {
    &&& c != '\'' && c != '"' && c != '$' && c != '`'
    &&& c != ';' && c != '|' && c != '&' && c != '>' && c != '<'
    &&& c != '\n' && c != '\r'
}

/// Whether a text holds only such characters.
pub open spec fn all_harmless(s: Seq<char>) -> bool {
    forall|i: int| 0 <= i < s.len() ==> is_harmless(#[trigger] s[i])
}

proof fn lemma_plain_over(s: Seq<char>, i: int, j: int)
    requires
        0 <= i <= j <= s.len(),
        forall|k: int| i <= k < j ==> is_harmless(#[trigger] s[k]),
    ensures
        plain_from(s, i, Quote::Outside) == plain_from(s, j, Quote::Outside),
    decreases j - i,
{
    if i < j {
        lemma_plain_over(s, i + 1, j);
    }
}

proof fn lemma_single_over(s: Seq<char>, i: int, j: int)
    requires
        0 <= i <= j <= s.len(),
        forall|k: int| i <= k < j ==> #[trigger] s[k] != '\'',
    ensures
        plain_from(s, i, Quote::Single) == plain_from(s, j, Quote::Single),
    decreases j - i,
{
    if i < j {
        lemma_single_over(s, i + 1, j);
    }
}

proof fn lemma_double_over(s: Seq<char>, i: int, j: int)
    requires
        0 <= i <= j <= s.len(),
        forall|k: int| i <= k < j ==> #[trigger] s[k] != '"' && s[k] != '$',
    ensures
        plain_from(s, i, Quote::Double) == plain_from(s, j, Quote::Double),
    decreases j - i,
{
    if i < j {
        lemma_double_over(s, i + 1, j);
    }
}

/// A quoted argument does not make a command unsimple, for both kinds of quotes
/// and whatever operators stand between the quotes.
pub proof fn law_quoted_argument_is_simple(
    head: Seq<char>,
    quote: char,
    body: Seq<char>,
    tail: Seq<char>,
)
    requires
        all_harmless(head),
        all_harmless(tail),
        quote == '\'' || quote == '"',
        !body.contains(quote),
        !body.contains('$'),
    ensures
        simple_command(head + seq![quote] + body + seq![quote] + tail),
{
    let quoted = seq![quote] + body + seq![quote];
    let s = head + seq![quote] + body + seq![quote] + tail;
    assert(s =~= head + quoted + tail);
    law_trim_keeps_what_is_between(head, quoted, tail);
    let h = trim_start_of(head);
    let t = trim_end_of(tail);
    let v = h + quoted + t;
    let a = h.len() as int;
    let b = a + 1 + body.len();
    assert(trim_of(s) == v);
    assert forall|k: int| 0 <= k < a implies is_harmless(#[trigger] v[k]) by {
        assert(v[k] == head[head.len() - h.len() + k]);
    }
    assert forall|k: int| b + 1 <= k < v.len() implies is_harmless(#[trigger] v[k]) by {
        assert(v[k] == tail[k - b - 1]);
    }
    assert(v[a] == quote);
    assert(v[b] == quote);
    assert forall|k: int| a + 1 <= k < b implies #[trigger] v[k] != quote && v[k] != '$' by {
        assert(v[k] == body[k - a - 1]);
    }
    lemma_plain_over(v, 0, a);
    lemma_plain_over(v, b + 1, v.len() as int);
    if quote == '"' {
        lemma_double_over(v, a + 1, b);
    } else {
        lemma_single_over(v, a + 1, b);
    }
}

/// In single quotes everything is text, a substitution too.
pub proof fn law_single_quotes_keep_everything(head: Seq<char>, body: Seq<char>, tail: Seq<char>)
    requires
        all_harmless(head),
        all_harmless(tail),
        !body.contains('\''),
    ensures
        simple_command(head + seq!['\''] + body + seq!['\''] + tail),
{
    let quoted = seq!['\''] + body + seq!['\''];
    let s = head + seq!['\''] + body + seq!['\''] + tail;
    assert(s =~= head + quoted + tail);
    law_trim_keeps_what_is_between(head, quoted, tail);
    let h = trim_start_of(head);
    let t = trim_end_of(tail);
    let v = h + quoted + t;
    let a = h.len() as int;
    let b = a + 1 + body.len();
    assert(trim_of(s) == v);
    assert forall|k: int| 0 <= k < a implies is_harmless(#[trigger] v[k]) by {
        assert(v[k] == head[head.len() - h.len() + k]);
    }
    assert forall|k: int| b + 1 <= k < v.len() implies is_harmless(#[trigger] v[k]) by {
        assert(v[k] == tail[k - b - 1]);
    }
    assert(v[a] == '\'');
    assert(v[b] == '\'');
    assert forall|k: int| a + 1 <= k < b implies #[trigger] v[k] != '\'' by {
        assert(v[k] == body[k - a - 1]);
    }
    lemma_plain_over(v, 0, a);
    lemma_plain_over(v, b + 1, v.len() as int);
    lemma_single_over(v, a + 1, b);
}

/// A command of harmless characters is simple, unless it is blank.
pub proof fn law_harmless_command_is_simple(s: Seq<char>)
    requires
        all_harmless(s),
        !is_blank(s),
    ensures
        simple_command(s),
{
    law_trim_cuts_white_space_only(s);
    let (i, j) = choose|i: int, j: int|
        0 <= i <= j <= s.len() && #[trigger] s.subrange(i, j) == trim_of(s);
    let v = trim_of(s);
    assert forall|k: int| 0 <= k < v.len() implies is_harmless(#[trigger] v[k]) by {
        assert(v[k] == s[i + k]);
    }
    lemma_plain_over(v, 0, v.len() as int);
}

proof fn lemma_plain_gives_up(s: Seq<char>, i: int, p: int, quote: char)
    requires
        0 <= i <= p < s.len(),
        forall|k: int| i <= k < p ==> #[trigger] s[k] != '\'' && s[k] != '"',
        ({
            ||| s[p] == ';' || s[p] == '|' || s[p] == '&' || s[p] == '>' || s[p] == '<'
            ||| s[p] == '`' || s[p] == '\n' || s[p] == '\r'
            ||| s[p] == '$' && p + 1 < s.len() && s[p + 1] == '('
            ||| s[p] == quote && (quote == '\'' || quote == '"') && !s.skip(p + 1).contains(quote)
        }),
    ensures
        !plain_from(s, i, Quote::Outside),
    decreases p - i,
{
    if i < p {
        lemma_plain_gives_up(s, i + 1, p, quote);
    } else if s[p] == quote && (quote == '\'' || quote == '"') && !s.skip(p + 1).contains(quote) {
        assert forall|k: int| p + 1 <= k < s.len() implies #[trigger] s[k] != quote by {
            assert(s.skip(p + 1)[k - p - 1] == s[k]);
        }
        if quote == '\'' {
            lemma_single_over(s, p + 1, s.len() as int);
        } else {
            lemma_open_double(s, p + 1);
        }
    }
}

proof fn lemma_open_double(s: Seq<char>, i: int)
    requires
        0 <= i <= s.len(),
        forall|k: int| i <= k < s.len() ==> #[trigger] s[k] != '"',
    ensures
        !plain_from(s, i, Quote::Double),
    decreases s.len() - i,
{
    if i < s.len() {
        lemma_open_double(s, i + 1);
    }
}

/// A command is not simple where an operator stands outside of quotes, where a
/// substitution begins there, or where a quote is never closed.
pub proof fn law_joined_commands_are_not_simple(head: Seq<char>, part: Seq<char>, rest: Seq<char>)
    requires
        !head.contains('\''),
        !head.contains('"'),
        !is_blank(head),
        !is_blank(rest),
        ({
            ||| part == seq![';'] || part == seq!['|'] || part == seq!['&'] || part == seq!['>']
            ||| part == seq!['<'] || part == seq!['`'] || part == seq!['\n'] || part == seq!['\r']
            ||| part == seq!['$', '(']
            ||| part == seq!['\''] && !rest.contains('\'')
            ||| part == seq!['"'] && !rest.contains('"')
        }),
    ensures
        !simple_command(head + part + rest),
{
    let s = head + part + rest;
    law_trim_cuts_white_space_only(s);
    let (i, j) = choose|i: int, j: int|
        0 <= i <= j <= s.len() && #[trigger] s.subrange(i, j) == trim_of(s) && (forall|k: int|
            0 <= k < s.len() && !(i <= k < j) ==> is_ws(#[trigger] s[k]));
    let v = trim_of(s);
    let p = head.len() as int;
    let n = part.len() as int;
    let x = lemma_not_blank(head);
    let y = lemma_not_blank(rest);
    assert(s[x] == head[x]);
    assert(s[p + n + y] == rest[y]);
    assert(i <= x && p + n + y < j);
    let q = p - i;
    assert(v[q] == s[p]);
    assert(s[p] == part[0]);
    if n == 2 {
        assert(v[q + 1] == s[p + 1]);
        assert(s[p + 1] == part[1]);
    }
    assert forall|k: int| 0 <= k < q implies #[trigger] v[k] != '\'' && v[k] != '"' by {
        assert(v[k] == head[i + k]);
    }
    if part == seq!['\''] || part == seq!['"'] {
        let quote = part[0];
        let later = v.skip(q + 1);
        assert(!later.contains(quote)) by {
            if later.contains(quote) {
                let k = choose|k: int| 0 <= k < later.len() && later[k] == quote;
                assert(later[k] == v[q + 1 + k]);
                assert(v[q + 1 + k] == s[i + q + 1 + k]);
                assert(s[i + q + 1 + k] == rest[k]);
            }
        }
    }
    lemma_plain_gives_up(v, 0, q, part[0]);
}

proof fn lemma_not_blank(s: Seq<char>) -> (i: int)
    requires
        !is_blank(s),
    ensures
        0 <= i < s.len(),
        !is_ws(s[i]),
{
    law_trim_cuts_white_space_only(s);
    let (i, j) = choose|i: int, j: int|
        0 <= i <= j <= s.len() && #[trigger] s.subrange(i, j) == trim_of(s);
    assert(s.subrange(i, j)[0] == s[i]);
    i
}

/// In double quotes a substitution is still one.
pub proof fn law_double_quotes_do_not_stop_substitution(
    head: Seq<char>,
    body: Seq<char>,
    rest: Seq<char>,
)
    requires
        all_harmless(head),
        !is_blank(head),
        !is_blank(rest),
        !body.contains('"'),
    ensures
        !simple_command(head + seq!['"'] + body + seq!['$', '('] + rest),
{
    let s = head + seq!['"'] + body + seq!['$', '('] + rest;
    law_trim_cuts_white_space_only(s);
    let (i, j) = choose|i: int, j: int|
        0 <= i <= j <= s.len() && #[trigger] s.subrange(i, j) == trim_of(s) && (forall|k: int|
            0 <= k < s.len() && !(i <= k < j) ==> is_ws(#[trigger] s[k]));
    let v = trim_of(s);
    let p = head.len() as int;
    let e = p + 1 + body.len();
    let x = lemma_not_blank(head);
    let y = lemma_not_blank(rest);
    assert(s[x] == head[x]);
    assert(s[e + 2 + y] == rest[y]);
    assert(i <= x && e + 2 + y < j);
    assert forall|k: int| 0 <= k < p - i implies is_harmless(#[trigger] v[k]) by {
        assert(v[k] == head[i + k]);
    }
    lemma_plain_over(v, 0, p - i);
    assert(v[p - i] == s[p] && s[p] == '"');
    assert(v[e - i] == s[e] && s[e] == '$');
    assert(v[e + 1 - i] == s[e + 1] && s[e + 1] == '(');
    assert forall|k: int| p + 1 - i <= k < e - i implies #[trigger] v[k] != '"' by {
        assert(v[k] == s[i + k]);
        assert(s[i + k] == body[i + k - p - 1]);
    }
    lemma_double_gives_up(v, p + 1 - i, e - i);
}

proof fn lemma_double_gives_up(s: Seq<char>, i: int, p: int)
    requires
        0 <= i <= p,
        p + 1 < s.len(),
        s[p] == '$',
        s[p + 1] == '(',
        forall|k: int| i <= k < p ==> #[trigger] s[k] != '"',
    ensures
        !plain_from(s, i, Quote::Double),
    decreases p - i,
{
    if i < p {
        lemma_double_gives_up(s, i + 1, p);
    }
}

/// A rule of equality means the whole command, a rule of beginnings every
/// command that continues it, and one rule of a list is enough.
pub proof fn law_rules_mean_what_they_say(
    rules: Seq<CommandRule>,
    i: int,
    text: String,
    rest: Seq<char>,
    command: Seq<char>,
)
    requires
        0 <= i < rules.len(),
    ensures
        rules[i] == CommandRule::Exact(text) ==> any_rule_matches(rules, text@),
        rules[i] == CommandRule::Prefix(text) ==> any_rule_matches(rules, text@ + rest),
        rules.len() == 1 && rules[0] == CommandRule::Exact(text) ==> (any_rule_matches(
            rules,
            command,
        ) <==> command == text@),
        rules.len() == 1 && rules[0] == CommandRule::Prefix(text) && any_rule_matches(
            rules,
            command,
        ) ==> command.len() >= text@.len() && command.take(text@.len() as int) == text@,
        !any_rule_matches(Seq::empty(), command),
{
    assert((text@ + rest).take(text@.len() as int) =~= text@);
    if rules[i] == CommandRule::Exact(text) {
        assert(rule_matches(rules[i], text@));
    }
    if rules[i] == CommandRule::Prefix(text) {
        assert(rule_matches(rules[i], text@ + rest));
    }
    if rules.len() == 1 {
        assert(rules[0] == rules[i]);
        if any_rule_matches(rules, command) {
            assert(rule_matches(rules[0], command));
        }
    }
}

/// A terminal command that is denied is rejected in every mode. Any other runs
/// with full access; in confirm and in watch mode it runs if it is simple, sets no
/// environment and is listed for the mode, and is asked about or rejected
/// elsewhere.
pub proof fn law_terminal_command_by_mode(args: Jv, policy: TerminalPolicy, tool: Seq<char>)
    requires
        trim_of(tool) == "terminal_exec"@,
    ensures
        ({
            let command = match field(args, "command"@) {
                Some(Jv::Text(s)) => trim_of(s),
                _ => ""@,
            };
            let no_env = match field(args, "env"@) {
                None | Some(Jv::Null) => true,
                Some(Jv::Object(m)) => m.dom() =~= Set::empty(),
                _ => false,
            };
            let free = simple_command(command) && no_env;
            let denied = any_rule_matches(policy.deny@, command);
            &&& denied ==> tool_action(Mode::FullAccess, tool, args, policy) is Reject
                && tool_action(Mode::Confirm, tool, args, policy) is Reject && tool_action(
                Mode::Watch,
                tool,
                args,
                policy,
            ) is Reject
            &&& !denied ==> {
                &&& tool_action(Mode::FullAccess, tool, args, policy) is Allow
                &&& tool_action(Mode::Confirm, tool, args, policy) is Allow <==> free
                    && any_rule_matches(policy.allow@, command)
                &&& !(tool_action(Mode::Confirm, tool, args, policy) is Reject)
                &&& tool_action(Mode::Watch, tool, args, policy) is Allow <==> free
                    && any_rule_matches(policy.watch_allow@, command)
                &&& !(tool_action(Mode::Watch, tool, args, policy) is Confirm)
            }
        }),
{
    reveal_strlit("");
    assert(trim_of(""@) =~= ""@);
    if let Some(Jv::Object(m)) = field(args, "env"@) {
        if m.dom() =~= Set::empty() {
            assert(m =~= Map::<Seq<char>, Jv>::empty());
        }
    }
}

/// Tools that only look, wait or talk to a subagent run in every mode. Any other
/// tool but the terminal runs with full access, is asked about in confirm mode
/// and is rejected in watch mode.
pub proof fn law_other_tools_by_mode(tool: Seq<char>, args: Jv, policy: TerminalPolicy)
    requires
        trim_of(tool) != "terminal_exec"@,
    ensures
        ({
            let name = trim_of(tool);
            let free = name == "wait"@ || name == "list_terminals"@ || name == "terminal_checkout"@
                || name == "spawn_subagent"@ || name == "list_subagents"@ || name
                == "checkout_subagent"@ || name == "send_subagent"@ || name == "close_subagent"@;
            &&& tool_action(Mode::FullAccess, tool, args, policy) is Allow
            &&& tool_action(Mode::Confirm, tool, args, policy) is Allow <==> free
            &&& tool_action(Mode::Watch, tool, args, policy) is Allow <==> free
            &&& !free ==> tool_action(Mode::Confirm, tool, args, policy) is Confirm
            &&& !free ==> tool_action(Mode::Watch, tool, args, policy) is Reject
        }),
{
}

/// A mode is named by one of three words, white space around it aside; the
/// tightest lets through least.
pub proof fn law_modes_have_names(value: Seq<char>)
    ensures
        mode_of(value) == Some(Mode::FullAccess) <==> trim_of(value) == "full_access"@,
        mode_of(value) == Some(Mode::Confirm) <==> trim_of(value) == "confirm"@,
        mode_of(value) == Some(Mode::Watch) <==> trim_of(value) == "watch"@,
        rank(Mode::Watch) < rank(Mode::Confirm) < rank(Mode::FullAccess),
{
    lemma_mode_names();
}

} // verus!
