//! Sessions: their settings, their life cycle, and what is kept of them.

use crate::json::{field, json_views, Json, Jv};
use crate::models::{reasoning_name, AgentState, AgentTools, PolicyMode, ReasoningMode, StopReason};
use crate::paths::{join_path, joined_on};
use crate::policy::{mode_error, mode_of, parse_policy_mode, Mode};
use crate::strings::{
    extract_first_text, first_block_text, first_text, first_text_of_blocks, normalize_optional_str,
    normalize_required_str, optional, required,
};
use crate::text::{
    cat2, cat5, first_chars, is_blank, opt_str, opt_text, str_eq, take_chars, trim, trim_of,
};
use vstd::prelude::*;

verus! {

pub const SESSION_META_FILE: &'static str = "session.json";
pub const SESSION_MODEL_CONTEXT_FILE: &'static str = "model_context.json";
pub const SESSION_CLIENT_TRANSCRIPT_FILE: &'static str = "client_transcript.jsonl";

/// How many characters of the first prompt make a title.
pub const SESSION_TITLE_LENGTH: usize = 10;

/// A session's data.
#[derive(Debug)]
pub struct Session {
    pub session_id: String,
    pub cwd: String,
    pub session_dir: String,
    pub model_id: String,
    pub max_running_turn: Option<u32>,
    pub runtime_tools: AgentTools,
    pub tool_schemas: Vec<Json>,
    pub mode_id: PolicyMode,
    pub state: AgentState,
    pub stop_reason: Option<StopReason>,
    pub title: Option<String>,
    pub updated_at: Option<String>,
    pub pending_model_id: Option<String>,
    pub reasoning_mode: ReasoningMode,
    pub pending_reasoning_mode: Option<ReasoningMode>,
}

/// What a session's data say.
#[verifier::ext_equal]
pub ghost struct SessionView {
    pub session_id: Seq<char>,
    pub cwd: Seq<char>,
    pub session_dir: Seq<char>,
    pub model_id: Seq<char>,
    pub max_running_turn: Option<u32>,
    pub runtime_tools: AgentTools,
    pub tool_schemas: Seq<Jv>,
    pub mode_id: PolicyMode,
    pub state: AgentState,
    pub stop_reason: Option<StopReason>,
    pub title: Option<Seq<char>>,
    pub updated_at: Option<Seq<char>>,
    pub pending_model_id: Option<Seq<char>>,
    pub reasoning_mode: ReasoningMode,
    pub pending_reasoning_mode: Option<ReasoningMode>,
}

impl View for Session {
    type V = SessionView;

    open spec fn view(&self) -> SessionView {
        SessionView {
            session_id: self.session_id@,
            cwd: self.cwd@,
            session_dir: self.session_dir@,
            model_id: self.model_id@,
            max_running_turn: self.max_running_turn,
            runtime_tools: self.runtime_tools,
            tool_schemas: json_views(self.tool_schemas@),
            mode_id: self.mode_id,
            state: self.state,
            stop_reason: self.stop_reason,
            title: opt_text(self.title),
            updated_at: opt_text(self.updated_at),
            pending_model_id: opt_text(self.pending_model_id),
            reasoning_mode: self.reasoning_mode,
            pending_reasoning_mode: self.pending_reasoning_mode,
        }
    }
}

/// What is stored of a session besides its messages.
#[derive(Debug)]
pub struct SessionMetaPayload {
    pub session_id: String,
    pub cwd: String,
    pub title: Option<String>,
    pub model_id: String,
    pub mode_id: PolicyMode,
    pub state: AgentState,
    pub stop_reason: Option<StopReason>,
    pub updated_at: Option<String>,
    pub max_running_turn: Option<u32>,
    pub runtime_tools: AgentTools,
    pub tool_schemas: Vec<Json>,
    pub pending_model_id: Option<String>,
    pub reasoning_mode: ReasoningMode,
    pub pending_reasoning_mode: Option<ReasoningMode>,
}

/// What the stored data of a session say.
#[verifier::ext_equal]
pub ghost struct MetaView {
    pub session_id: Seq<char>,
    pub cwd: Seq<char>,
    pub title: Option<Seq<char>>,
    pub model_id: Seq<char>,
    pub mode_id: PolicyMode,
    pub state: AgentState,
    pub stop_reason: Option<StopReason>,
    pub updated_at: Option<Seq<char>>,
    pub max_running_turn: Option<u32>,
    pub runtime_tools: AgentTools,
    pub tool_schemas: Seq<Jv>,
    pub pending_model_id: Option<Seq<char>>,
    pub reasoning_mode: ReasoningMode,
    pub pending_reasoning_mode: Option<ReasoningMode>,
}

impl View for SessionMetaPayload {
    type V = MetaView;

    open spec fn view(&self) -> MetaView {
        MetaView {
            session_id: self.session_id@,
            cwd: self.cwd@,
            title: opt_text(self.title),
            model_id: self.model_id@,
            mode_id: self.mode_id,
            state: self.state,
            stop_reason: self.stop_reason,
            updated_at: opt_text(self.updated_at),
            max_running_turn: self.max_running_turn,
            runtime_tools: self.runtime_tools,
            tool_schemas: json_views(self.tool_schemas@),
            pending_model_id: opt_text(self.pending_model_id),
            reasoning_mode: self.reasoning_mode,
            pending_reasoning_mode: self.pending_reasoning_mode,
        }
    }
}

/// What is stored of a session: all but its directory.
pub open spec fn meta_of(s: SessionView) -> MetaView {
    MetaView {
        session_id: s.session_id,
        cwd: s.cwd,
        title: s.title,
        model_id: s.model_id,
        mode_id: s.mode_id,
        state: s.state,
        stop_reason: s.stop_reason,
        updated_at: s.updated_at,
        max_running_turn: s.max_running_turn,
        runtime_tools: s.runtime_tools,
        tool_schemas: s.tool_schemas,
        pending_model_id: s.pending_model_id,
        reasoning_mode: s.reasoning_mode,
        pending_reasoning_mode: s.pending_reasoning_mode,
    }
}

/// A session with its texts normalised, and what is wrong with the first text
/// that cannot be: the texts before it are normalised all the same.
pub open spec fn validated(s: SessionView) -> (SessionView, Option<Seq<char>>) {
    match required(s.session_id, "session_id"@) {
        Err(e) => (s, Some(e)),
        Ok(session_id) => validated_cwd(SessionView { session_id, ..s }),
    }
}

/// The same, from the next text on.
pub open spec fn validated_cwd(s: SessionView) -> (SessionView, Option<Seq<char>>) {
    match required(s.cwd, "cwd"@) {
        Err(e) => (s, Some(e)),
        Ok(cwd) => validated_model(SessionView { cwd, ..s }),
    }
}

/// The same, from the next text on.
pub open spec fn validated_model(s: SessionView) -> (SessionView, Option<Seq<char>>) {
    match required(s.model_id, "model_id"@) {
        Err(e) => (s, Some(e)),
        Ok(model_id) => validated_title(SessionView { model_id, ..s }),
    }
}

/// The same, from the next text on.
pub open spec fn validated_title(s: SessionView) -> (SessionView, Option<Seq<char>>) {
    match optional(s.title, "title"@) {
        Err(e) => (s, Some(e)),
        Ok(title) => validated_time(SessionView { title, ..s }),
    }
}

/// The same, from the next text on.
pub open spec fn validated_time(s: SessionView) -> (SessionView, Option<Seq<char>>) {
    match optional(s.updated_at, "updated_at"@) {
        Err(e) => (s, Some(e)),
        Ok(updated_at) => validated_pending(SessionView { updated_at, ..s }),
    }
}

/// The same, from the next text on.
pub open spec fn validated_pending(s: SessionView) -> (SessionView, Option<Seq<char>>) {
    match optional(s.pending_model_id, "pending_model_id"@) {
        Err(e) => (s, Some(e)),
        Ok(pending_model_id) => (SessionView { pending_model_id, ..s }, None),
    }
}

fn opt_as_str(v: &Option<String>) -> (r: Option<&str>)
    ensures
        opt_str(r) == opt_text(*v),
{
    match v {
        Some(s) => Some(s.as_str()),
        None => None,
    }
}

fn clone_opt(v: &Option<String>) -> (r: Option<String>)
    ensures
        opt_text(r) == opt_text(*v),
{
    match v {
        Some(s) => Some(s.clone()),
        None => None,
    }
}

/// A model that sessions can use.
#[derive(Debug)]
pub struct ModelProfile {
    pub model_name: String,
    pub provider: String,
    pub model_id: String,
    pub vision: bool,
    pub tool_use: bool,
    pub context_window: u32,
    pub reasoning_modes: Vec<ReasoningMode>,
    pub default_reasoning_mode: ReasoningMode,
}

/// The models that sessions can use, by name.
#[derive(Debug)]
pub struct ModelRegistry {
    pub profiles: Vec<ModelProfile>,
}

/// Where the model of a name stands, from `i` on.
pub open spec fn profile_from(profiles: Seq<ModelProfile>, name: Seq<char>, i: int) -> Option<
    ModelProfile,
>
    decreases profiles.len() - i,
{
    if i < 0 || i >= profiles.len() {
        None
    } else if profiles[i].model_name@ == name {
        Some(profiles[i])
    } else {
        profile_from(profiles, name, i + 1)
    }
}

/// The model of a name.
pub open spec fn profile_of(registry: ModelRegistry, name: Seq<char>) -> Option<ModelProfile> {
    profile_from(registry.profiles@, name, 0)
}

impl ModelRegistry {
    /// The model of a name.
    pub fn find(&self, name: &str) -> (r: Option<&ModelProfile>)
        ensures
            match r {
                Some(p) => profile_of(*self, name@) == Some(*p),
                None => profile_of(*self, name@) is None,
            },
    {
        let mut i: usize = 0;
        while i < self.profiles.len()
            invariant
                i <= self.profiles@.len(),
                profile_from(self.profiles@, name@, i as int) == profile_of(*self, name@),
            decreases self.profiles@.len() - i,
        {
            if str_eq(self.profiles[i].model_name.as_str(), name) {
                return Some(&self.profiles[i]);
            }
            i += 1;
        }
        None
    }
}

impl ModelProfile {
    /// Whether the model can be asked to think in a mode.
    pub fn supports(&self, mode: ReasoningMode) -> (r: bool)
        ensures
            r == self.reasoning_modes@.contains(mode),
    {
        let mut i: usize = 0;
        while i < self.reasoning_modes.len()
            invariant
                i <= self.reasoning_modes@.len(),
                forall|k: int| 0 <= k < i ==> self.reasoning_modes@[k] != mode,
            decreases self.reasoning_modes@.len() - i,
        {
            if self.reasoning_modes[i] == mode {
                proof {
                    assert(self.reasoning_modes@[i as int] == mode);
                }
                return true;
            }
            i += 1;
        }
        false
    }
}

/// Why a reasoning mode cannot be used with a model.
pub open spec fn reasoning_error(mode: ReasoningMode, model_id: Seq<char>) -> Seq<char> {
    "Unknown reasoning_mode `"@ + reasoning_name(mode) + "` for model `"@ + model_id + "`"@
}

fn reasoning_refusal(mode: ReasoningMode, model_id: &str) -> (r: String)
    ensures
        r@ == reasoning_error(mode, model_id@),
{
    cat5("Unknown reasoning_mode `", mode.as_str(), "` for model `", model_id, "`")
}

/// Why a reasoning mode cannot be used with a model of a registry, if so.
pub open spec fn reasoning_problem(registry: ModelRegistry, model_id: Seq<char>, mode: ReasoningMode) -> Option<
    Seq<char>,
> {
    match profile_of(registry, model_id) {
        None => Some("Unknown model_id: "@ + model_id),
        Some(p) => if p.reasoning_modes@.contains(mode) {
            None
        } else {
            Some(reasoning_error(mode, model_id))
        },
    }
}

/// Whether a model of the registry can be asked to think in a mode.
pub fn validate_reasoning_mode(registry: &ModelRegistry, model_id: &str, mode: ReasoningMode) -> (r:
    Result<(), String>)
    ensures
        match reasoning_problem(*registry, model_id@, mode) {
            None => r is Ok,
            Some(e) => r matches Err(error) && error@ == e,
        },
{
    match registry.find(model_id) {
        None => Err(cat2("Unknown model_id: ", model_id)),
        Some(p) => if p.supports(mode) {
            Ok(())
        } else {
            Err(reasoning_refusal(mode, model_id))
        },
    }
}

/// Whether a session is at work.
pub open spec fn is_busy(state: AgentState) -> bool {
    state is Running || state is WaitingUserConfirm || state is Cancelling
}

/// Whether a setting took effect.
#[derive(Debug, Clone, Copy, PartialEq, Eq, Structural)]
pub enum SettingOutcome {
    /// It waits for the current prompt to end.
    Queued,
    /// It is in force.
    Applied,
}

/// A session that uses another model from now on.
pub open spec fn switched(s: SessionView, p: ModelProfile, model_id: Seq<char>, now: Seq<char>) -> SessionView {
    SessionView {
        model_id,
        reasoning_mode: if p.reasoning_modes@.contains(s.reasoning_mode) {
            s.reasoning_mode
        } else {
            p.default_reasoning_mode
        },
        pending_reasoning_mode: match s.pending_reasoning_mode {
            Some(m) => if p.reasoning_modes@.contains(m) {
                Some(m)
            } else {
                None
            },
            None => None,
        },
        updated_at: Some(now),
        ..s
    }
}

/// A session with its waiting model in force.
pub open spec fn with_pending_model(s: SessionView, registry: ModelRegistry, now: Seq<char>) -> Result<
    SessionView,
    Seq<char>,
> {
    match s.pending_model_id {
        None => Ok(s),
        Some(id) => match profile_of(registry, id) {
            None => Err("Unknown model_id: "@ + id),
            Some(p) => Ok(SessionView { pending_model_id: None, ..switched(s, p, id, now) }),
        },
    }
}

/// A session with its waiting reasoning mode in force.
pub open spec fn with_pending_reasoning(s: SessionView, registry: ModelRegistry) -> Result<
    SessionView,
    Seq<char>,
> {
    match s.pending_reasoning_mode {
        None => Ok(s),
        Some(mode) => match reasoning_problem(registry, s.model_id, mode) {
            Some(e) => Err(e),
            None => Ok(
                SessionView { reasoning_mode: mode, pending_reasoning_mode: None, ..s },
            ),
        },
    }
}

/// A session with its waiting settings in force, and why one could not be put
/// in force: what went before it stays.
pub open spec fn with_pending(s: SessionView, registry: ModelRegistry, now: Seq<char>) -> (
    SessionView,
    Option<Seq<char>>,
) {
    match with_pending_model(s, registry, now) {
        Err(e) => (s, Some(e)),
        Ok(a) => match with_pending_reasoning(a, registry) {
            Err(e) => (a, Some(e)),
            Ok(b) => (b, None),
        },
    }
}

/// The model that a session uses next.
pub open spec fn next_model(s: SessionView) -> Seq<char> {
    match s.pending_model_id {
        Some(id) => id,
        None => s.model_id,
    }
}

/// A session that has been told to use a model: at once, or after the current
/// prompt.
pub open spec fn model_set(
    s: SessionView,
    registry: ModelRegistry,
    model_id: Seq<char>,
    now: Seq<char>,
) -> Result<(SessionView, SettingOutcome), Seq<char>> {
    match profile_of(registry, model_id) {
        None => Err("Unknown model_id: "@ + model_id),
        Some(p) => if is_busy(s.state) {
            Ok(
                (
                    SessionView { pending_model_id: Some(model_id), updated_at: Some(now), ..s },
                    SettingOutcome::Queued,
                ),
            )
        } else {
            Ok((switched(s, p, model_id, now), SettingOutcome::Applied))
        },
    }
}

/// A session that has been told to think in a mode: at once, or after the
/// current prompt.
pub open spec fn reasoning_set(
    s: SessionView,
    registry: ModelRegistry,
    mode: ReasoningMode,
    now: Seq<char>,
) -> Result<(SessionView, SettingOutcome), Seq<char>> {
    match reasoning_problem(registry, next_model(s), mode) {
        Some(e) => Err(e),
        None => if is_busy(s.state) {
            Ok(
                (
                    SessionView {
                        pending_reasoning_mode: Some(mode),
                        updated_at: Some(now),
                        ..s
                    },
                    SettingOutcome::Queued,
                ),
            )
        } else {
            Ok(
                (
                    SessionView { reasoning_mode: mode, updated_at: Some(now), ..s },
                    SettingOutcome::Applied,
                ),
            )
        },
    }
}

/// A stopped session.
pub open spec fn stopped(s: SessionView, reason: Option<StopReason>, now: Seq<char>) -> SessionView {
    SessionView { state: AgentState::Stop, stop_reason: reason, updated_at: Some(now), ..s }
}

/// The stop reason of a name.
pub open spec fn stop_reason_of(name: Seq<char>) -> Option<StopReason> {
    if name == "completed"@ {
        Some(StopReason::Completed)
    } else if name == "cancelled"@ {
        Some(StopReason::Cancelled)
    } else if name == "max_turns"@ {
        Some(StopReason::MaxTurns)
    } else {
        None
    }
}

fn parse_stop_reason(name: &str) -> (r: Option<StopReason>)
    ensures
        r == stop_reason_of(name@),
{
    if str_eq(name, "completed") {
        Some(StopReason::Completed)
    } else if str_eq(name, "cancelled") {
        Some(StopReason::Cancelled)
    } else if str_eq(name, "max_turns") {
        Some(StopReason::MaxTurns)
    } else {
        None
    }
}

/// The title that a prompt gives a session.
pub open spec fn title_of(user_input: Jv, user_blocks: Seq<Jv>) -> Option<Seq<char>> {
    let text = match first_text(user_input) {
        Some(s) => Some(s),
        None => first_block_text(user_blocks, 0),
    };
    match text {
        Some(s) => Some(take_chars(s, SESSION_TITLE_LENGTH as nat)),
        None => None,
    }
}

/// The title that a prompt gives a session: the beginning of its first text.
pub fn derive_session_title(user_input: &Json, user_blocks: &Vec<Json>) -> (r: Option<String>)
    ensures
        opt_text(r) == title_of(user_input@, json_views(user_blocks@)),
{
    let text = match extract_first_text(user_input) {
        Some(s) => Some(s),
        None => first_text_of_blocks(user_blocks),
    };
    match text {
        Some(s) => Some(first_chars(s.as_str(), SESSION_TITLE_LENGTH).to_owned()),
        None => None,
    }
}

/// A session that a prompt has been given to, and why it could not take it.
pub open spec fn prompted(
    s: SessionView,
    registry: ModelRegistry,
    user_input: Jv,
    user_blocks: Seq<Jv>,
    now: Seq<char>,
) -> (SessionView, Option<Seq<char>>) {
    let free = if is_busy(s.state) {
        stopped(s, Some(StopReason::Cancelled), now)
    } else {
        s
    };
    let (b, problem) = with_pending(free, registry, now);
    if problem is Some {
        (b, problem)
    } else {
        (
            SessionView {
                state: AgentState::Running,
                stop_reason: None,
                updated_at: Some(now),
                title: match b.title {
                    Some(t) => Some(t),
                    None => title_of(user_input, user_blocks),
                },
                ..b
            },
            None,
        )
    }
}

impl Session {
    /// Normalises the texts of the session; the first that is blank is
    /// reported, and those before it stay normalised.
    pub fn validate(&mut self) -> (r: Result<(), String>)
        ensures
            final(self)@ == validated(old(self)@).0,
            match validated(old(self)@).1 {
                None => r is Ok,
                Some(e) => r matches Err(error) && error@ == e,
            },
    {
        match normalize_required_str(self.session_id.as_str(), "session_id") {
            Ok(s) => {
                self.session_id = s;
            },
            Err(e) => return Err(e),
        }
        match normalize_required_str(self.cwd.as_str(), "cwd") {
            Ok(s) => {
                self.cwd = s;
            },
            Err(e) => return Err(e),
        }
        match normalize_required_str(self.model_id.as_str(), "model_id") {
            Ok(s) => {
                self.model_id = s;
            },
            Err(e) => return Err(e),
        }
        match normalize_optional_str(opt_as_str(&self.title), "title") {
            Ok(s) => {
                self.title = s;
            },
            Err(e) => return Err(e),
        }
        match normalize_optional_str(opt_as_str(&self.updated_at), "updated_at") {
            Ok(s) => {
                self.updated_at = s;
            },
            Err(e) => return Err(e),
        }
        match normalize_optional_str(opt_as_str(&self.pending_model_id), "pending_model_id") {
            Ok(s) => {
                self.pending_model_id = s;
            },
            Err(e) => return Err(e),
        }
        Ok(())
    }

    /// What is stored of the session besides its messages.
    pub fn to_meta_payload(&self) -> (r: SessionMetaPayload)
        ensures
            r@ == meta_of(self@),
    {
        SessionMetaPayload {
            session_id: self.session_id.clone(),
            cwd: self.cwd.clone(),
            title: clone_opt(&self.title),
            model_id: self.model_id.clone(),
            mode_id: self.mode_id,
            state: self.state,
            stop_reason: self.stop_reason,
            updated_at: clone_opt(&self.updated_at),
            max_running_turn: self.max_running_turn,
            runtime_tools: self.runtime_tools,
            tool_schemas: crate::json::clone_items(&self.tool_schemas),
            pending_model_id: clone_opt(&self.pending_model_id),
            reasoning_mode: self.reasoning_mode,
            pending_reasoning_mode: self.pending_reasoning_mode,
        }
    }

    /// Whether the session is at work.
    pub fn is_active(&self) -> (r: bool)
        ensures
            r == is_busy(self@.state),
    {
        matches!(
            self.state,
            AgentState::Running | AgentState::WaitingUserConfirm | AgentState::Cancelling
        )
    }

    /// Sets the state.
    pub fn set_state(&mut self, state: AgentState, now: &str)
        ensures
            final(self)@ == (SessionView { state, updated_at: Some(now@), ..old(self)@ }),
    {
        self.state = state;
        self.updated_at = Some(now.to_owned());
    }

    /// Stops the session; a reason of an unknown name leaves it without one.
    pub fn set_stop(&mut self, stop_reason: &str, now: &str)
        ensures
            final(self)@ == stopped(old(self)@, stop_reason_of(stop_reason@), now@),
    {
        self.state = AgentState::Stop;
        self.stop_reason = parse_stop_reason(stop_reason);
        self.updated_at = Some(now.to_owned());
    }

    /// Asks a session that is at work to stop; the result tells whether it
    /// was.
    pub fn request_cancel(&mut self, now: &str) -> (r: bool)
        ensures
            r == is_busy(old(self)@.state),
            r ==> final(self)@ == (SessionView {
                state: AgentState::Cancelling,
                updated_at: Some(now@),
                ..old(self)@
            }),
            !r ==> final(self)@ == old(self)@,
    {
        if !self.is_active() {
            return false;
        }
        self.set_state(AgentState::Cancelling, now);
        true
    }

    /// Takes note that the session was loaded; one that is not at work, or
    /// whose work ended with the process that did it, becomes idle.
    pub fn mark_loaded(&mut self, reset_active: bool, now: &str)
        ensures
            final(self)@ == (SessionView {
                state: if reset_active || !is_busy(old(self)@.state) {
                    AgentState::Idle
                } else {
                    old(self)@.state
                },
                updated_at: Some(now@),
                ..old(self)@
            }),
    {
        if reset_active || !self.is_active() {
            self.state = AgentState::Idle;
        }
        self.updated_at = Some(now.to_owned());
    }

    /// Sets the permission mode; it is in force from the next tool call on.
    pub fn set_mode(&mut self, mode_id: &str, now: &str) -> (r: Result<(), String>)
        ensures
            match mode_of(mode_id@) {
                Some(m) => r is Ok && final(self)@ == (SessionView {
                    mode_id: mode_setting(m),
                    updated_at: Some(now@),
                    ..old(self)@
                }),
                None => final(self)@ == old(self)@ && (r matches Err(e) && e@ == mode_error(
                    mode_id@,
                )),
            },
    {
        let name = match parse_policy_mode(mode_id) {
            Ok(n) => n,
            Err(e) => return Err(e),
        };
        proof {
            crate::policy::law_mode_name_round_trips(mode_of(mode_id@)->0);
            lemma_mode_names_differ();
        }
        self.mode_id = if str_eq(name.as_str(), "full_access") {
            PolicyMode::FullAccess
        } else if str_eq(name.as_str(), "confirm") {
            PolicyMode::Confirm
        } else {
            PolicyMode::Watch
        };
        self.updated_at = Some(now.to_owned());
        Ok(())
    }

    fn switch_model(&mut self, profile: &ModelProfile, model_id: &str, now: &str)
        ensures
            final(self)@ == switched(old(self)@, *profile, model_id@, now@),
    {
        self.model_id = model_id.to_owned();
        if !profile.supports(self.reasoning_mode) {
            self.reasoning_mode = profile.default_reasoning_mode;
        }
        if let Some(pending) = self.pending_reasoning_mode {
            if !profile.supports(pending) {
                self.pending_reasoning_mode = None;
            }
        }
        self.updated_at = Some(now.to_owned());
    }

    /// Sets the model: at once, or after the current prompt.
    pub fn set_model(&mut self, registry: &ModelRegistry, model_id: &str, now: &str) -> (r: Result<
        SettingOutcome,
        String,
    >)
        ensures
            match model_set(old(self)@, *registry, model_id@, now@) {
                Ok(set) => final(self)@ == set.0 && r == Ok::<SettingOutcome, String>(set.1),
                Err(e) => final(self)@ == old(self)@ && (r matches Err(error) && error@ == e),
            },
    {
        let profile = match registry.find(model_id) {
            Some(p) => p,
            None => return Err(cat2("Unknown model_id: ", model_id)),
        };
        if self.is_active() {
            self.pending_model_id = Some(model_id.to_owned());
            self.updated_at = Some(now.to_owned());
            return Ok(SettingOutcome::Queued);
        }
        self.switch_model(profile, model_id, now);
        Ok(SettingOutcome::Applied)
    }

    /// Sets the reasoning mode, for the model that the session uses next: at
    /// once, or after the current prompt.
    pub fn set_reasoning_mode(&mut self, registry: &ModelRegistry, mode: ReasoningMode, now: &str) -> (r:
        Result<SettingOutcome, String>)
        ensures
            match reasoning_set(old(self)@, *registry, mode, now@) {
                Ok(set) => final(self)@ == set.0 && r == Ok::<SettingOutcome, String>(set.1),
                Err(e) => final(self)@ == old(self)@ && (r matches Err(error) && error@ == e),
            },
    {
        let model_id = match &self.pending_model_id {
            Some(id) => id.as_str(),
            None => self.model_id.as_str(),
        };
        match validate_reasoning_mode(registry, model_id, mode) {
            Ok(()) => {},
            Err(e) => return Err(e),
        }
        if self.is_active() {
            self.pending_reasoning_mode = Some(mode);
            self.updated_at = Some(now.to_owned());
            return Ok(SettingOutcome::Queued);
        }
        self.reasoning_mode = mode;
        self.updated_at = Some(now.to_owned());
        Ok(SettingOutcome::Applied)
    }

    /// Puts a waiting model in force.
    pub fn apply_pending_model(&mut self, registry: &ModelRegistry, now: &str) -> (r: Result<
        (),
        String,
    >)
        ensures
            match with_pending_model(old(self)@, *registry, now@) {
                Ok(s) => r is Ok && final(self)@ == s,
                Err(e) => final(self)@ == old(self)@ && (r matches Err(error) && error@ == e),
            },
    {
        let id = match &self.pending_model_id {
            Some(id) => id.clone(),
            None => return Ok(()),
        };
        match registry.find(id.as_str()) {
            None => Err(cat2("Unknown model_id: ", id.as_str())),
            Some(p) => {
                self.switch_model(p, id.as_str(), now);
                self.pending_model_id = None;
                Ok(())
            },
        }
    }

    /// Puts a waiting reasoning mode in force.
    pub fn apply_pending_reasoning_mode(&mut self, registry: &ModelRegistry) -> (r: Result<
        (),
        String,
    >)
        ensures
            match with_pending_reasoning(old(self)@, *registry) {
                Ok(s) => r is Ok && final(self)@ == s,
                Err(e) => final(self)@ == old(self)@ && (r matches Err(error) && error@ == e),
            },
    {
        let mode = match self.pending_reasoning_mode {
            Some(m) => m,
            None => return Ok(()),
        };
        match validate_reasoning_mode(registry, self.model_id.as_str(), mode) {
            Ok(()) => {},
            Err(e) => return Err(e),
        }
        self.reasoning_mode = mode;
        self.pending_reasoning_mode = None;
        Ok(())
    }

    /// Puts waiting settings in force.
    pub fn apply_pending_config(&mut self, registry: &ModelRegistry, now: &str) -> (r: Result<
        (),
        String,
    >)
        ensures
            final(self)@ == with_pending(old(self)@, *registry, now@).0,
            match with_pending(old(self)@, *registry, now@).1 {
                None => r is Ok,
                Some(e) => r matches Err(error) && error@ == e,
            },
    {
        match self.apply_pending_model(registry, now) {
            Ok(()) => {},
            Err(e) => return Err(e),
        }
        self.apply_pending_reasoning_mode(registry)
    }

    /// Prepares the session for a prompt: a prompt that is still at work is
    /// over, waiting settings come into force, and the first prompt gives the
    /// session its title.
    pub fn start_prompt(
        &mut self,
        registry: &ModelRegistry,
        user_input: &Json,
        user_blocks: &Vec<Json>,
        now: &str,
    ) -> (r: Result<(), String>)
        ensures
            ({
                let (s, problem) = prompted(
                    old(self)@,
                    *registry,
                    user_input@,
                    json_views(user_blocks@),
                    now@,
                );
                &&& final(self)@ == s
                &&& match problem {
                    None => r is Ok,
                    Some(e) => r matches Err(error) && error@ == e,
                }
            }),
    {
        if self.is_active() {
            self.set_stop("cancelled", now);
            proof {
                reveal_strlit("completed");
                reveal_strlit("cancelled");
                assert("completed"@[1] == 'o');
                assert("cancelled"@[1] == 'a');
            }
        }
        match self.apply_pending_config(registry, now) {
            Ok(()) => {},
            Err(e) => return Err(e),
        }
        self.set_state(AgentState::Running, now);
        self.stop_reason = None;
        if self.title.is_none() {
            self.title = derive_session_title(user_input, user_blocks);
        }
        Ok(())
    }

    /// Ends a prompt. `outcome` is the stop reason that the turns ended with,
    /// or the error that ended them; an error leaves waiting settings waiting.
    pub fn finish_prompt(
        &mut self,
        registry: &ModelRegistry,
        outcome: Result<String, String>,
        now: &str,
    ) -> (r: Result<String, String>)
        ensures
            match outcome {
                Err(e) => {
                    &&& r matches Err(error) && error@ == e@
                    &&& final(self)@ == stopped(
                        old(self)@,
                        Some(StopReason::Completed),
                        now@,
                    )
                },
                Ok(reason) => {
                    let (s, problem) = with_pending(
                        stopped(old(self)@, stop_reason_of(reason@), now@),
                        *registry,
                        now@,
                    );
                    &&& final(self)@ == s
                    &&& match problem {
                        None => r matches Ok(text) && text@ == reason@,
                        Some(e) => r matches Err(error) && error@ == e,
                    }
                },
            },
    {
        match outcome {
            Err(e) => {
                self.set_stop("completed", now);
                Err(e)
            },
            Ok(reason) => {
                self.set_stop(reason.as_str(), now);
                match self.apply_pending_config(registry, now) {
                    Ok(()) => {},
                    Err(e) => return Err(e),
                }
                Ok(reason)
            },
        }
    }
}

/// The setting for a mode.
pub open spec fn mode_setting(m: Mode) -> PolicyMode {
    match m {
        Mode::FullAccess => PolicyMode::FullAccess,
        Mode::Confirm => PolicyMode::Confirm,
        Mode::Watch => PolicyMode::Watch,
    }
}

proof fn lemma_mode_names_differ()
    ensures
        "full_access"@ != "confirm"@,
        "full_access"@ != "watch"@,
        "confirm"@ != "watch"@,
{
    reveal_strlit("full_access");
    reveal_strlit("confirm");
    reveal_strlit("watch");
    assert("full_access"@.len() == 11);
    assert("confirm"@.len() == 7);
    assert("watch"@.len() == 5);
}

/// Why stored data cannot be taken up again, if so.
pub open spec fn stored_problem(m: MetaView, registry: ModelRegistry) -> Option<Seq<char>> {
    if profile_of(registry, m.model_id) is None {
        Some("Unknown model_id in persisted session: "@ + m.model_id)
    } else if m.pending_model_id matches Some(p) && profile_of(registry, p) is None {
        Some("Unknown pending_model_id in persisted session: "@ + m.pending_model_id->0)
    } else if reasoning_problem(registry, m.model_id, m.reasoning_mode) is Some {
        reasoning_problem(registry, m.model_id, m.reasoning_mode)
    } else {
        match m.pending_reasoning_mode {
            None => None,
            Some(mode) => reasoning_problem(
                registry,
                match m.pending_model_id {
                    Some(p) => p,
                    None => m.model_id,
                },
                mode,
            ),
        }
    }
}

/// Checks that stored data can be taken up again with the models there are.
pub fn check_stored_session(meta: &SessionMetaPayload, registry: &ModelRegistry) -> (r: Result<
    (),
    String,
>)
    ensures
        match stored_problem(meta@, *registry) {
            None => r is Ok,
            Some(e) => r matches Err(error) && error@ == e,
        },
{
    if registry.find(meta.model_id.as_str()).is_none() {
        return Err(cat2("Unknown model_id in persisted session: ", meta.model_id.as_str()));
    }
    match &meta.pending_model_id {
        Some(p) => {
            if registry.find(p.as_str()).is_none() {
                return Err(cat2("Unknown pending_model_id in persisted session: ", p.as_str()));
            }
        },
        None => {},
    }
    match validate_reasoning_mode(registry, meta.model_id.as_str(), meta.reasoning_mode) {
        Ok(()) => {},
        Err(e) => return Err(e),
    }
    match meta.pending_reasoning_mode {
        None => Ok(()),
        Some(mode) => {
            let model_id = match &meta.pending_model_id {
                Some(p) => p.as_str(),
                None => meta.model_id.as_str(),
            };
            validate_reasoning_mode(registry, model_id, mode)
        },
    }
}

/// What a session starts from.
#[derive(Debug)]
pub struct CreateSessionArgs {
    pub session_id: String,
    pub cwd: String,
    pub session_dir: String,
    pub model_id: String,
    pub max_running_turn: Option<u32>,
    pub runtime_tools: AgentTools,
    pub tool_schemas: Vec<Json>,
    pub mode_id: PolicyMode,
    pub state: AgentState,
    pub stop_reason: Option<StopReason>,
    pub title: Option<String>,
    pub pending_model_id: Option<String>,
    pub reasoning_mode: Option<ReasoningMode>,
    pub pending_reasoning_mode: Option<ReasoningMode>,
}

/// The session that starts with a model, thinking as asked or as the model
/// does by default.
pub open spec fn created(args: CreateSessionArgs, p: ModelProfile, now: Seq<char>) -> SessionView {
    SessionView {
        session_id: args.session_id@,
        cwd: args.cwd@,
        session_dir: args.session_dir@,
        model_id: args.model_id@,
        max_running_turn: args.max_running_turn,
        runtime_tools: args.runtime_tools,
        tool_schemas: json_views(args.tool_schemas@),
        mode_id: args.mode_id,
        state: args.state,
        stop_reason: args.stop_reason,
        title: opt_text(args.title),
        updated_at: Some(now),
        pending_model_id: opt_text(args.pending_model_id),
        reasoning_mode: match args.reasoning_mode {
            Some(m) => m,
            None => p.default_reasoning_mode,
        },
        pending_reasoning_mode: args.pending_reasoning_mode,
    }
}

/// Starts a session.
pub fn create_session(args: CreateSessionArgs, registry: &ModelRegistry, now: &str) -> (r: Result<
    Session,
    String,
>)
    ensures
        match profile_of(*registry, args.model_id@) {
            None => r matches Err(e) && e@ == "Unknown model_id: "@ + args.model_id@,
            Some(p) => r matches Ok(s) && s@ == created(args, p, now@),
        },
{
    let reasoning_mode = match registry.find(args.model_id.as_str()) {
        None => return Err(cat2("Unknown model_id: ", args.model_id.as_str())),
        Some(p) => match args.reasoning_mode {
            Some(m) => m,
            None => p.default_reasoning_mode,
        },
    };
    Ok(
        Session {
            session_id: args.session_id,
            cwd: args.cwd,
            session_dir: args.session_dir,
            model_id: args.model_id,
            max_running_turn: args.max_running_turn,
            runtime_tools: args.runtime_tools,
            tool_schemas: args.tool_schemas,
            mode_id: args.mode_id,
            state: args.state,
            stop_reason: args.stop_reason,
            title: args.title,
            updated_at: Some(now.to_owned()),
            pending_model_id: args.pending_model_id,
            reasoning_mode,
            pending_reasoning_mode: args.pending_reasoning_mode,
        },
    )
}

/// The session that stored data stand for, in a directory. `cwd` is the
/// working directory of the data, resolved.
pub open spec fn restored(m: MetaView, cwd: Seq<char>, session_dir: Seq<char>, now: Seq<char>) -> SessionView {
    SessionView {
        session_id: m.session_id,
        cwd,
        session_dir,
        model_id: m.model_id,
        max_running_turn: m.max_running_turn,
        runtime_tools: m.runtime_tools,
        tool_schemas: m.tool_schemas,
        mode_id: m.mode_id,
        state: m.state,
        stop_reason: m.stop_reason,
        title: m.title,
        updated_at: Some(now),
        pending_model_id: m.pending_model_id,
        reasoning_mode: m.reasoning_mode,
        pending_reasoning_mode: m.pending_reasoning_mode,
    }
}

/// Takes a stored session up again, with the settings it was stored with.
pub fn restore_session(
    meta: SessionMetaPayload,
    cwd: String,
    session_dir: String,
    registry: &ModelRegistry,
    now: &str,
) -> (r: Result<Session, String>)
    ensures
        match stored_problem(meta@, *registry) {
            Some(e) => r matches Err(error) && error@ == e,
            None => r matches Ok(s) && s@ == restored(meta@, cwd@, session_dir@, now@),
        },
{
    match check_stored_session(&meta, registry) {
        Ok(()) => {},
        Err(e) => return Err(e),
    }
    let args = CreateSessionArgs {
        session_id: meta.session_id,
        cwd,
        session_dir,
        model_id: meta.model_id,
        max_running_turn: meta.max_running_turn,
        runtime_tools: meta.runtime_tools,
        tool_schemas: meta.tool_schemas,
        mode_id: meta.mode_id,
        state: meta.state,
        stop_reason: meta.stop_reason,
        title: meta.title,
        pending_model_id: meta.pending_model_id,
        reasoning_mode: Some(meta.reasoning_mode),
        pending_reasoning_mode: meta.pending_reasoning_mode,
    };
    create_session(args, registry, now)
}

/// What is stored of a session is taken up again as it was, but for the time
/// of its last change.
pub proof fn law_stored_session_reads_back(s: SessionView, now: Seq<char>)
    ensures
        restored(meta_of(s), s.cwd, s.session_dir, now) == (SessionView {
            updated_at: Some(now),
            ..s
        }),
{
}

/// The model of a new channel session.
pub open spec fn channel_model(override_model: Option<Seq<char>>, default_model: Seq<char>) -> Result<
    Seq<char>,
    Seq<char>,
> {
    match override_model {
        None => Ok(default_model),
        Some(m) => if is_blank(m) {
            Err("channel override_model must not be empty"@)
        } else {
            Ok(trim_of(m))
        },
    }
}

/// Chooses the model of a new channel session, and checks the reasoning mode
/// that was asked for.
pub fn choose_channel_model(
    registry: &ModelRegistry,
    override_model: Option<&str>,
    default_model: &str,
    override_reasoning_mode: Option<ReasoningMode>,
) -> (r: Result<String, String>)
    ensures
        match channel_model(opt_str(override_model), default_model@) {
            Err(e) => r matches Err(error) && error@ == e,
            Ok(id) => match override_reasoning_mode {
                None => r matches Ok(s) && s@ == id,
                Some(mode) => match reasoning_problem(*registry, id, mode) {
                    Some(e) => r matches Err(error) && error@ == e,
                    None => r matches Ok(s) && s@ == id,
                },
            },
        },
{
    let id = match override_model {
        None => default_model.to_owned(),
        Some(m) => {
            let trimmed = trim(m);
            if trimmed.is_empty() {
                return Err("channel override_model must not be empty".to_owned());
            }
            trimmed.to_owned()
        },
    };
    match override_reasoning_mode {
        None => Ok(id),
        Some(mode) => match validate_reasoning_mode(registry, id.as_str(), mode) {
            Ok(()) => Ok(id),
            Err(e) => Err(e),
        },
    }
}

/// The directory in which a session is stored.
#[derive(Debug)]
pub struct SessionPersistence {
    session_dir: String,
}

impl SessionPersistence {
    /// A store in a directory.
    pub fn new(session_dir: String) -> (r: Self)
        ensures
            r.dir() == session_dir@,
    {
        SessionPersistence { session_dir }
    }

    /// The directory.
    pub closed spec fn dir(&self) -> Seq<char> {
        self.session_dir@
    }

    /// The directory.
    pub fn session_dir(&self) -> (r: &str)
        ensures
            r@ == self.dir(),
    {
        self.session_dir.as_str()
    }

    /// The path of one of the session's files.
    pub fn file_path(&self, name: &str, windows: bool) -> (r: String)
        ensures
            r@ == joined_on(self.dir(), name@, windows),
    {
        join_path(self.session_dir.as_str(), name, windows)
    }
}

/// Whether the settings of a session fit the models there are.
pub open spec fn settings_fit(s: SessionView, registry: ModelRegistry) -> bool {
    &&& reasoning_problem(registry, s.model_id, s.reasoning_mode) is None
    &&& s.pending_model_id matches Some(p) ==> profile_of(registry, p) is Some
}

/// Whether every model can think the way it does by default.
pub open spec fn defaults_fit(registry: ModelRegistry) -> bool {
    forall|name: Seq<char>|
        (#[trigger] profile_of(registry, name)) matches Some(p)
            ==> p.reasoning_modes@.contains(p.default_reasoning_mode)
}

/// Settings that fit still fit after waiting ones have come into force, and
/// none waits any more.
pub proof fn law_pending_settings_come_into_force(
    s: SessionView,
    registry: ModelRegistry,
    now: Seq<char>,
)
    requires
        settings_fit(s, registry),
        defaults_fit(registry),
    ensures
        ({
            let (a, problem) = with_pending(s, registry, now);
            &&& settings_fit(a, registry)
            &&& a.pending_model_id is None
            &&& a.model_id == next_model(s)
            &&& problem is None ==> a.pending_reasoning_mode is None
        }),
{
    if let Some(id) = s.pending_model_id {
        let p = profile_of(registry, id)->0;
        assert(p.reasoning_modes@.contains(p.default_reasoning_mode));
    }
}

/// A waiting reasoning mode that the next model knows comes into force with
/// it; one that it does not know is dropped, not refused.
pub proof fn law_switch_never_leaves_an_unknown_reasoning_mode(
    s: SessionView,
    registry: ModelRegistry,
    now: Seq<char>,
)
    requires
        s.pending_model_id is Some,
        profile_of(registry, s.pending_model_id->0) is Some,
    ensures
        with_pending(s, registry, now).1 is None,
{
}

/// While a session is at work, a change of model or reasoning mode leaves
/// what is in force as it is, and comes into force with the next prompt.
pub proof fn law_settings_wait_while_busy(
    s: SessionView,
    registry: ModelRegistry,
    model_id: Seq<char>,
    mode: ReasoningMode,
    now: Seq<char>,
)
    requires
        is_busy(s.state),
        reasoning_problem(registry, model_id, mode) is None,
    ensures
        model_set(s, registry, model_id, now) matches Ok(a) && a.1 is Queued && (reasoning_set(
            a.0,
            registry,
            mode,
            now,
        ) matches Ok(b) && b.1 is Queued && ({
            let (c, problem) = with_pending(b.0, registry, now);
            &&& b.0.model_id == s.model_id
            &&& b.0.reasoning_mode == s.reasoning_mode
            &&& b.0.state == s.state
            &&& problem is None
            &&& c.model_id == model_id
            &&& c.reasoning_mode == mode
            &&& c.pending_model_id is None
            &&& c.pending_reasoning_mode is None
        })),
{
}

/// Settings that fit still fit after a change of model or reasoning mode.
pub proof fn law_accepted_settings_fit(
    s: SessionView,
    registry: ModelRegistry,
    model_id: Seq<char>,
    mode: ReasoningMode,
    now: Seq<char>,
)
    requires
        settings_fit(s, registry),
        defaults_fit(registry),
        s.pending_model_id is None,
    ensures
        model_set(s, registry, model_id, now) matches Ok(a) ==> settings_fit(a.0, registry),
        reasoning_set(s, registry, mode, now) matches Ok(a) ==> settings_fit(a.0, registry),
{
    if let Some(p) = profile_of(registry, model_id) {
        assert(p.reasoning_modes@.contains(p.default_reasoning_mode));
    }
}

/// Stored data that are accepted hold settings that fit.
pub proof fn law_accepted_stored_settings_fit(s: SessionView, registry: ModelRegistry)
    requires
        stored_problem(meta_of(s), registry) is None,
    ensures
        settings_fit(s, registry),
{
}

/// Normalising twice is normalising once.
pub proof fn law_validation_is_idempotent(s: SessionView)
    ensures
        validated(s).1 is None ==> validated(validated(s).0) == validated(s),
{
    let a = validated(s).0;
    if validated(s).1 is None {
        crate::text::law_trim_is_idempotent(s.session_id);
        crate::text::law_trim_is_idempotent(s.cwd);
        crate::text::law_trim_is_idempotent(s.model_id);
        if s.title is Some {
            crate::text::law_trim_is_idempotent(s.title->0);
        }
        if s.updated_at is Some {
            crate::text::law_trim_is_idempotent(s.updated_at->0);
        }
        if s.pending_model_id is Some {
            crate::text::law_trim_is_idempotent(s.pending_model_id->0);
        }
        assert(validated(a).0 =~= a);
    }
}

proof fn lemma_first_profile(profiles: Seq<ModelProfile>, name: Seq<char>, i: int, k: int)
    requires
        0 <= i <= k < profiles.len(),
        profiles[k].model_name@ == name,
        forall|j: int| i <= j < k ==> (#[trigger] profiles[j]).model_name@ != name,
    ensures
        profile_from(profiles, name, i) == Some(profiles[k]),
    decreases k - i,
{
    if i < k {
        assert(profiles[i].model_name@ != name);
        lemma_first_profile(profiles, name, i + 1, k);
    }
}

proof fn lemma_no_profile(profiles: Seq<ModelProfile>, name: Seq<char>, i: int)
    requires
        0 <= i,
        forall|j: int| 0 <= j < profiles.len() ==> (#[trigger] profiles[j]).model_name@ != name,
    ensures
        profile_from(profiles, name, i) is None,
    decreases profiles.len() - i,
{
    if i < profiles.len() {
        assert(profiles[i].model_name@ != name);
        lemma_no_profile(profiles, name, i + 1);
    }
}

/// A model is found by its name, the first of that name, and no other.
pub proof fn law_model_is_found_by_its_name(registry: ModelRegistry, name: Seq<char>, k: int)
    ensures
        0 <= k < registry.profiles@.len() && registry.profiles@[k].model_name@ == name && (forall|
            j: int,
        |
            0 <= j < k ==> (#[trigger] registry.profiles@[j]).model_name@ != name) ==> profile_of(
            registry,
            name,
        ) == Some(registry.profiles@[k]),
        (forall|j: int|
            0 <= j < registry.profiles@.len() ==> (#[trigger] registry.profiles@[j]).model_name@
                != name) ==> profile_of(registry, name) is None,
{
    let v = registry.profiles@;
    if 0 <= k < v.len() && v[k].model_name@ == name && (forall|j: int|
        0 <= j < k ==> (#[trigger] v[j]).model_name@ != name) {
        lemma_first_profile(v, name, 0, k);
    }
    if forall|j: int| 0 <= j < v.len() ==> (#[trigger] v[j]).model_name@ != name {
        lemma_no_profile(v, name, 0);
    }
}

/// Whether two states of a session differ at most in what is set of its model: all
/// that identifies and configures the session otherwise is the same.
pub open spec fn same_session(a: SessionView, b: SessionView) -> bool {
    &&& a.session_id == b.session_id && a.cwd == b.cwd && a.session_dir == b.session_dir
    &&& a.max_running_turn == b.max_running_turn && a.runtime_tools == b.runtime_tools
    &&& a.tool_schemas == b.tool_schemas && a.mode_id == b.mode_id
}

/// A model that is chosen while nothing runs is in force at once. The reasoning
/// mode stays where the model knows it, and becomes the model's own elsewhere.
pub proof fn law_chosen_model_is_in_force(
    s: SessionView,
    registry: ModelRegistry,
    model_id: Seq<char>,
    now: Seq<char>,
    p: ModelProfile,
)
    requires
        s.state is Idle || s.state is Stop,
        profile_of(registry, model_id) == Some(p),
    ensures
        model_set(s, registry, model_id, now) matches Ok((a, how)) && {
            &&& how is Applied
            &&& same_session(a, s) && a.state == s.state && a.title == s.title && a.stop_reason
                == s.stop_reason
            &&& a.model_id == model_id
            &&& a.updated_at == Some(now)
            &&& a.pending_model_id == s.pending_model_id
            &&& p.reasoning_modes@.contains(s.reasoning_mode) ==> a.reasoning_mode
                == s.reasoning_mode
            &&& !p.reasoning_modes@.contains(s.reasoning_mode) ==> a.reasoning_mode
                == p.default_reasoning_mode
        },
{
}

/// A reasoning mode that the model knows is in force at once while nothing runs,
/// and one that it does not know is refused.
pub proof fn law_chosen_reasoning_is_in_force(
    s: SessionView,
    registry: ModelRegistry,
    mode: ReasoningMode,
    now: Seq<char>,
    p: ModelProfile,
)
    requires
        s.state is Idle || s.state is Stop,
        s.pending_model_id is None,
        profile_of(registry, s.model_id) == Some(p),
    ensures
        p.reasoning_modes@.contains(mode) ==> (reasoning_set(s, registry, mode, now) matches Ok(
            (a, how),
        ) && how is Applied && a == (SessionView {
            reasoning_mode: mode,
            updated_at: Some(now),
            ..s
        })),
        !p.reasoning_modes@.contains(mode) ==> reasoning_set(s, registry, mode, now) is Err,
{
}

/// An unknown model is refused.
pub proof fn law_unknown_model_is_refused(
    s: SessionView,
    registry: ModelRegistry,
    model_id: Seq<char>,
    mode: ReasoningMode,
    now: Seq<char>,
)
    requires
        profile_of(registry, model_id) is None,
    ensures
        model_set(s, registry, model_id, now) is Err,
        s.pending_model_id == Some(model_id) ==> reasoning_set(s, registry, mode, now) is Err,
        s.pending_model_id is None && s.model_id == model_id ==> reasoning_set(
            s,
            registry,
            mode,
            now,
        ) is Err,
{
}

/// A session is at work while it runs, waits for the user or is being cancelled.
pub proof fn law_session_at_work(state: AgentState)
    ensures
        is_busy(state) <==> !(state is Idle) && !(state is Stop),
{
}

/// A prompt sets the session to work: it runs, has no reason to have stopped, and
/// keeps its title, or gets the first characters of the prompt for one.
pub proof fn law_prompt_sets_the_session_to_work(
    s: SessionView,
    registry: ModelRegistry,
    text: Seq<char>,
    blocks: Seq<Jv>,
    now: Seq<char>,
)
    requires
        s.pending_model_id is None,
        s.pending_reasoning_mode is None,
        !is_blank(text),
    ensures
        ({
            let (a, problem) = prompted(s, registry, Jv::Text(text), blocks, now);
            let words = trim_of(text);
            &&& problem is None
            &&& same_session(a, s)
            &&& a.state is Running && a.stop_reason is None && a.updated_at == Some(now)
            &&& a.model_id == s.model_id && a.reasoning_mode == s.reasoning_mode
            &&& s.title is Some ==> a.title == s.title
            &&& s.title is None && words.len() <= 10 ==> a.title == Some(words)
            &&& s.title is None && words.len() > 10 ==> a.title == Some(words.take(10))
        }),
{
}

/// A prompt that holds a text block gives the title where the input itself has no
/// text: the first text block counts.
pub proof fn law_first_text_block_counts(before: Seq<Jv>, block: Jv, behind: Seq<Jv>, text: Seq<char>, i: int)
    requires
        0 <= i <= before.len(),
        field(block, "type"@) == Some(Jv::Text("text"@)),
        field(block, "text"@) == Some(Jv::Text(text)),
        !is_blank(text),
        forall|k: int|
            0 <= k < before.len() ==> !(field(#[trigger] before[k], "type"@) matches Some(
                Jv::Text(t),
            ) && trim_of(t) == "text"@),
    ensures
        first_block_text(before.push(block) + behind, i) == Some(trim_of(text)),
    decreases before.len() - i,
{
    let all = before.push(block) + behind;
    reveal_strlit("text");
    reveal_strlit("");
    assert(crate::text::trim_start_of("text"@) == "text"@);
    assert(trim_of("text"@) == "text"@);
    assert(trim_of(""@) =~= ""@);
    if i < before.len() {
        assert(all[i] == before[i]);
        law_first_text_block_counts(before, block, behind, text, i + 1);
    } else {
        assert(all[i] == block);
    }
}

/// A session that stops keeps all its settings, and says why it stopped.
pub proof fn law_stopped_session_says_why(
    s: SessionView,
    reason: Option<StopReason>,
    now: Seq<char>,
    name: Seq<char>,
)
    ensures
        stopped(s, reason, now) == (SessionView {
            state: AgentState::Stop,
            stop_reason: reason,
            updated_at: Some(now),
            ..s
        }),
        stop_reason_of(name) == Some(StopReason::Completed) <==> name == "completed"@,
        stop_reason_of(name) == Some(StopReason::Cancelled) <==> name == "cancelled"@,
        stop_reason_of(name) == Some(StopReason::MaxTurns) <==> name == "max_turns"@,
{
    reveal_strlit("completed");
    reveal_strlit("cancelled");
    reveal_strlit("max_turns");
    assert("completed"@[1] == 'o' && "cancelled"@[1] == 'a' && "max_turns"@[0] == 'm');
    assert("completed"@[0] == 'c' && "cancelled"@[0] == 'c');
}

/// What is stored of a session is its settings and state, each under its own name.
pub proof fn law_stored_data_are_those_of_the_session(s: SessionView)
    ensures
        ({
            let m = meta_of(s);
            &&& m.session_id == s.session_id && m.cwd == s.cwd && m.title == s.title
            &&& m.model_id == s.model_id && m.mode_id == s.mode_id && m.state == s.state
            &&& m.stop_reason == s.stop_reason && m.updated_at == s.updated_at
            &&& m.max_running_turn == s.max_running_turn && m.runtime_tools == s.runtime_tools
            &&& m.tool_schemas == s.tool_schemas && m.pending_model_id == s.pending_model_id
            &&& m.reasoning_mode == s.reasoning_mode
            &&& m.pending_reasoning_mode == s.pending_reasoning_mode
        }),
{
}

/// A new session is what was asked for; without a reasoning mode it gets that of
/// its model.
pub proof fn law_new_session_is_as_asked(args: CreateSessionArgs, p: ModelProfile, now: Seq<char>)
    ensures
        ({
            let s = created(args, p, now);
            &&& s.session_id == args.session_id@ && s.cwd == args.cwd@ && s.session_dir
                == args.session_dir@
            &&& s.model_id == args.model_id@ && s.mode_id == args.mode_id && s.state == args.state
            &&& s.max_running_turn == args.max_running_turn && s.runtime_tools
                == args.runtime_tools
            &&& s.tool_schemas == json_views(args.tool_schemas@) && s.title == opt_text(args.title)
            &&& s.stop_reason == args.stop_reason && s.updated_at == Some(now)
            &&& s.pending_model_id == opt_text(args.pending_model_id)
            &&& s.pending_reasoning_mode == args.pending_reasoning_mode
            &&& args.reasoning_mode matches Some(m) ==> s.reasoning_mode == m
            &&& args.reasoning_mode is None ==> s.reasoning_mode == p.default_reasoning_mode
        }),
{
}

/// A mode is stored as itself.
pub proof fn law_mode_is_stored_as_itself(m: Mode)
    ensures
        m is FullAccess <==> mode_setting(m) is FullAccess,
        m is Confirm <==> mode_setting(m) is Confirm,
        m is Watch <==> mode_setting(m) is Watch,
{
}

/// A session with blank names is refused; another loses the white space around
/// its names, and nothing else.
pub proof fn law_validation_trims(s: SessionView)
    ensures
        is_blank(s.session_id) || is_blank(s.cwd)
            || is_blank(s.model_id) ==> validated(s).1 is Some,
        validated(s).1 is None ==> {
            let a = validated(s).0;
            &&& a.session_id == trim_of(s.session_id)
            &&& a.cwd == trim_of(s.cwd)
            &&& a.model_id == trim_of(s.model_id)
            &&& s.title is None ==> a.title is None
            &&& s.title matches Some(t) ==> a.title == Some(trim_of(t))
            &&& a.mode_id == s.mode_id && a.state == s.state && a.runtime_tools == s.runtime_tools
            &&& a.reasoning_mode == s.reasoning_mode && a.tool_schemas == s.tool_schemas
        },
        !is_blank(s.session_id) && !is_blank(s.cwd)
            && !is_blank(s.model_id) && s.title is None && s.updated_at is None
            && s.pending_model_id is None ==> validated(s).1 is None,
{
}

/// A channel's session gets the model that was asked for, or the default one.
pub proof fn law_channel_model(m: Seq<char>, default_model: Seq<char>)
    ensures
        channel_model(None, default_model) == Ok::<Seq<char>, Seq<char>>(default_model),
        !is_blank(m) ==> channel_model(Some(m), default_model) == Ok::<
            Seq<char>,
            Seq<char>,
        >(trim_of(m)),
        is_blank(m) ==> channel_model(Some(m), default_model) is Err,
{
}

/// Stored data that name an unknown model are refused, and so are those whose
/// reasoning mode the model does not know; data without waiting settings that name
/// a known model and a mode of it are accepted.
pub proof fn law_stored_data_are_checked(m: MetaView, registry: ModelRegistry, p: ModelProfile)
    ensures
        profile_of(registry, m.model_id) is None ==> stored_problem(m, registry) is Some,
        profile_of(registry, m.model_id) == Some(p) && !p.reasoning_modes@.contains(
            m.reasoning_mode,
        ) ==> stored_problem(m, registry) is Some,
        profile_of(registry, m.model_id) == Some(p) && p.reasoning_modes@.contains(
            m.reasoning_mode,
        ) && m.pending_model_id is None && m.pending_reasoning_mode is None ==> stored_problem(
            m,
            registry,
        ) is None,
        m.pending_model_id matches Some(q) ==> (profile_of(registry, q) is None ==> stored_problem(
            m,
            registry,
        ) is Some),
{
}

/// The first text of a session that is blank is named in the refusal.
pub proof fn law_blank_text_is_named(s: SessionView)
    ensures
        is_blank(s.session_id) ==> validated(s).1 == Some("session_id"@ + " cannot be empty"@),
        !is_blank(s.session_id) && is_blank(s.cwd) ==> validated(s).1 == Some(
            "cwd"@ + " cannot be empty"@,
        ),
        !is_blank(s.session_id) && !is_blank(s.cwd) && is_blank(s.model_id) ==> validated(s).1
            == Some("model_id"@ + " cannot be empty"@),
        !is_blank(s.session_id) && !is_blank(s.cwd) && !is_blank(s.model_id) ==> {
            &&& s.title matches Some(t) ==> (is_blank(t) ==> validated(s).1 == Some(
                "title"@ + " cannot be empty"@,
            ))
            &&& s.title is None ==> (s.updated_at matches Some(t) ==> (is_blank(t) ==> validated(
                s,
            ).1 == Some("updated_at"@ + " cannot be empty"@)))
            &&& s.title is None && s.updated_at is None ==> (s.pending_model_id matches Some(t) ==> (
            is_blank(t) ==> validated(s).1 == Some("pending_model_id"@ + " cannot be empty"@)))
        },
{
}

} // verus!
