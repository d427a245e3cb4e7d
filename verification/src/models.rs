//! Values that the configuration and the session files hold.

use vstd::prelude::*;

verus! {

/// Whether a tool group is offered to the model.
#[derive(Debug, Clone, Copy, PartialEq, Eq, Structural)]
pub enum ToolSwitch {
    Enable,
    Disable,
}

/// The tool groups of an agent.
#[derive(Debug, Clone, Copy, PartialEq, Eq, Structural)]
pub struct AgentTools {
    pub mcp: ToolSwitch,
    pub file_edit: ToolSwitch,
    pub terminal: ToolSwitch,
    pub subagent: ToolSwitch,
}

impl AgentTools {
    /// Whether MCP tools are offered.
    pub fn mcp_enabled(&self) -> (r: bool)
        ensures
            r == (self.mcp is Enable),
    {
        self.mcp == ToolSwitch::Enable
    }

    /// Whether file edits are offered.
    pub fn file_edit_enabled(&self) -> (r: bool)
        ensures
            r == (self.file_edit is Enable),
    {
        self.file_edit == ToolSwitch::Enable
    }

    /// Whether the terminal is offered.
    pub fn terminal_enabled(&self) -> (r: bool)
        ensures
            r == (self.terminal is Enable),
    {
        self.terminal == ToolSwitch::Enable
    }

    /// Whether subagents are offered.
    pub fn subagent_enabled(&self) -> (r: bool)
        ensures
            r == (self.subagent is Enable),
    {
        self.subagent == ToolSwitch::Enable
    }
}

/// What a session is doing.
#[derive(Debug, Clone, Copy, PartialEq, Eq, Structural)]
pub enum AgentState {
    Idle,
    Running,
    WaitingUserConfirm,
    Cancelling,
    Stop,
}

/// The name of a state.
pub open spec fn state_name(s: AgentState) -> Seq<char> {
    match s {
        AgentState::Idle => "idle"@,
        AgentState::Running => "running"@,
        AgentState::WaitingUserConfirm => "waiting_user_confirm"@,
        AgentState::Cancelling => "cancelling"@,
        AgentState::Stop => "stop"@,
    }
}

impl AgentState {
    /// The name of the state.
    pub fn as_str(&self) -> (r: &'static str)
        ensures
            r@ == state_name(*self),
    {
        match self {
            AgentState::Idle => "idle",
            AgentState::Running => "running",
            AgentState::WaitingUserConfirm => "waiting_user_confirm",
            AgentState::Cancelling => "cancelling",
            AgentState::Stop => "stop",
        }
    }
}

/// The permission mode of a session.
#[derive(Debug, Clone, Copy, PartialEq, Eq, Structural)]
pub enum PolicyMode {
    FullAccess,
    Confirm,
    Watch,
}

/// The name of a permission mode.
pub open spec fn policy_mode_name(m: PolicyMode) -> Seq<char> {
    match m {
        PolicyMode::FullAccess => "full_access"@,
        PolicyMode::Confirm => "confirm"@,
        PolicyMode::Watch => "watch"@,
    }
}

impl PolicyMode {
    /// The name of the mode.
    pub fn as_str(&self) -> (r: &'static str)
        ensures
            r@ == policy_mode_name(*self),
    {
        match self {
            PolicyMode::FullAccess => "full_access",
            PolicyMode::Confirm => "confirm",
            PolicyMode::Watch => "watch",
        }
    }
}

/// How hard a model is asked to think.
#[derive(Debug, Clone, Copy, PartialEq, Eq, Structural)]
pub enum ReasoningMode {
    Auto,
    NonThink,
    High,
    Max,
}

/// The name of a reasoning mode.
pub open spec fn reasoning_name(m: ReasoningMode) -> Seq<char> {
    match m {
        ReasoningMode::Auto => "auto"@,
        ReasoningMode::NonThink => "nonthink"@,
        ReasoningMode::High => "high"@,
        ReasoningMode::Max => "max"@,
    }
}

impl ReasoningMode {
    /// The name of the mode.
    pub fn as_str(&self) -> (r: &'static str)
        ensures
            r@ == reasoning_name(*self),
    {
        match self {
            ReasoningMode::Auto => "auto",
            ReasoningMode::NonThink => "nonthink",
            ReasoningMode::High => "high",
            ReasoningMode::Max => "max",
        }
    }
}

/// Why a prompt ended.
#[derive(Debug, Clone, Copy, PartialEq, Eq, Structural)]
pub enum StopReason {
    Completed,
    Cancelled,
    MaxTurns,
}

/// The name of a stop reason.
pub open spec fn stop_name(s: StopReason) -> Seq<char> {
    match s {
        StopReason::Completed => "completed"@,
        StopReason::Cancelled => "cancelled"@,
        StopReason::MaxTurns => "max_turns"@,
    }
}

impl StopReason {
    /// The name of the stop reason.
    pub fn as_str(&self) -> (r: &'static str)
        ensures
            r@ == stop_name(*self),
    {
        match self {
            StopReason::Completed => "completed",
            StopReason::Cancelled => "cancelled",
            StopReason::MaxTurns => "max_turns",
        }
    }
}

/// How much of a context window is used.
#[derive(Debug, Clone, Copy, PartialEq, Eq, Structural)]
pub struct ContextUsageSnapshot {
    pub used: u64,
    pub size: u64,
}

/// States, modes and ends of turns have names of their own.
pub proof fn law_names_are_their_own(
    s: AgentState,
    t: AgentState,
    m: ReasoningMode,
    n: ReasoningMode,
    e: StopReason,
    f: StopReason,
)
    ensures
        state_name(s) == state_name(t) ==> s == t,
        reasoning_name(m) == reasoning_name(n) ==> m == n,
        stop_name(e) == stop_name(f) ==> e == f,
        s is Idle ==> state_name(s) == "idle"@,
        s is Running ==> state_name(s) == "running"@,
        s is WaitingUserConfirm ==> state_name(s) == "waiting_user_confirm"@,
        s is Cancelling ==> state_name(s) == "cancelling"@,
        s is Stop ==> state_name(s) == "stop"@,
        m is Auto ==> reasoning_name(m) == "auto"@,
        m is NonThink ==> reasoning_name(m) == "nonthink"@,
        m is High ==> reasoning_name(m) == "high"@,
        m is Max ==> reasoning_name(m) == "max"@,
        e is Completed ==> stop_name(e) == "completed"@,
        e is Cancelled ==> stop_name(e) == "cancelled"@,
        e is MaxTurns ==> stop_name(e) == "max_turns"@,
{
    reveal_strlit("idle");
    reveal_strlit("running");
    reveal_strlit("waiting_user_confirm");
    reveal_strlit("cancelling");
    reveal_strlit("stop");
    reveal_strlit("auto");
    reveal_strlit("nonthink");
    reveal_strlit("high");
    reveal_strlit("max");
    reveal_strlit("completed");
    reveal_strlit("cancelled");
    reveal_strlit("max_turns");
    assert("idle"@[0] == 'i' && "idle"@.len() == 4);
    assert("stop"@[0] == 's' && "stop"@.len() == 4);
    assert("running"@.len() == 7);
    assert("waiting_user_confirm"@.len() == 20);
    assert("cancelling"@.len() == 10);
    assert("auto"@[0] == 'a' && "auto"@.len() == 4);
    assert("high"@[0] == 'h' && "high"@.len() == 4);
    assert("nonthink"@.len() == 8);
    assert("max"@.len() == 3);
    assert("completed"@[0] == 'c' && "completed"@[1] == 'o');
    assert("cancelled"@[0] == 'c' && "cancelled"@[1] == 'a');
    assert("max_turns"@[0] == 'm');
}

} // verus!
