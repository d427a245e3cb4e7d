//! What a client of the agent client protocol is answered.

use crate::acp::{
    build_config_options, build_mode_state, config_options, config_options_after_change,
    map_stop_reason, mode_list, option_views, select_views, stop_of, AcpStopReason, ConfigOption,
    ConfigTarget, ModeState, OptionView, SelectView,
};
use crate::models::{policy_mode_name, reasoning_name, ContextUsageSnapshot};
use crate::session::{MetaView, ModelRegistry, SessionMetaPayload};
use crate::text::opt_text;
use vstd::prelude::*;

verus! {

/// What the agent can do for a client.
#[derive(Debug, Clone, Copy, PartialEq, Eq, Structural)]
pub struct Capabilities {
    pub load_session: bool,
    pub list_sessions: bool,
    pub image: bool,
    pub audio: bool,
    pub embedded_context: bool,
}

/// What the agent can do for a client.
pub fn agent_capabilities() -> (r: Capabilities)
    ensures
        r == (Capabilities {
            load_session: true,
            list_sessions: true,
            image: true,
            audio: false,
            embedded_context: true,
        }),
{
    Capabilities {
        load_session: true,
        list_sessions: true,
        image: true,
        audio: false,
        embedded_context: true,
    }
}

/// Why a request is refused.
#[derive(Debug)]
pub enum Refusal {
    /// The request asks for what cannot be had.
    InvalidParams(String),
    /// The agent failed.
    Internal(String),
}

/// Why a request is refused.
#[verifier::ext_equal]
pub ghost enum RefusalView {
    InvalidParams(Seq<char>),
    Internal(Seq<char>),
}

impl View for Refusal {
    type V = RefusalView;

    open spec fn view(&self) -> RefusalView {
        match *self {
            Refusal::InvalidParams(s) => RefusalView::InvalidParams(s@),
            Refusal::Internal(s) => RefusalView::Internal(s@),
        }
    }
}

/// The refusal of a request for a session that there is not.
pub open spec fn no_session() -> RefusalView {
    RefusalView::InvalidParams("session not found"@)
}

fn session_not_found() -> (r: Refusal)
    ensures
        r@ == no_session(),
{
    Refusal::InvalidParams("session not found".to_owned())
}

/// What a client is shown of a session's settings.
#[derive(Debug)]
pub struct SessionSettings {
    pub modes: ModeState,
    pub options: Vec<ConfigOption>,
}

/// What a client is shown of a session's settings.
#[verifier::ext_equal]
pub ghost struct SettingsView {
    pub mode: Seq<char>,
    pub modes: Seq<SelectView>,
    pub options: Seq<OptionView>,
}

impl View for SessionSettings {
    type V = SettingsView;

    open spec fn view(&self) -> SettingsView {
        SettingsView {
            mode: self.modes.current_mode_id@,
            modes: select_views(self.modes.modes@),
            options: option_views(self.options@),
        }
    }
}

/// The settings in force.
pub open spec fn options_in_force(m: MetaView, registry: ModelRegistry) -> Seq<OptionView> {
    config_options(
        m.model_id,
        policy_mode_name(m.mode_id),
        reasoning_name(m.reasoning_mode),
        registry,
    )
}

/// What a client is shown of a session's settings.
pub open spec fn settings_of(m: MetaView, registry: ModelRegistry) -> SettingsView {
    SettingsView {
        mode: policy_mode_name(m.mode_id),
        modes: mode_list(),
        options: options_in_force(m, registry),
    }
}

fn current_options(meta: &SessionMetaPayload, registry: &ModelRegistry) -> (r: Vec<ConfigOption>)
    ensures
        option_views(r@) == options_in_force(meta@, *registry),
{
    build_config_options(
        meta.model_id.as_str(),
        meta.mode_id.as_str(),
        meta.reasoning_mode.as_str(),
        registry,
    )
}

/// What a client is shown of a session's settings.
pub fn session_settings(meta: &SessionMetaPayload, registry: &ModelRegistry) -> (r: SessionSettings)
    ensures
        r@ == settings_of(meta@, *registry),
{
    SessionSettings {
        modes: build_mode_state(meta.mode_id.as_str()),
        options: current_options(meta, registry),
    }
}

/// The answer to a request for a new session.
pub fn answer_new_session(created: Result<SessionMetaPayload, String>, registry: &ModelRegistry) -> (r:
    Result<SessionSettings, Refusal>)
    ensures
        match created {
            Ok(meta) => r matches Ok(s) && s@ == settings_of(meta@, *registry),
            Err(e) => r matches Err(refusal) && refusal@ == RefusalView::Internal(e@),
        },
{
    match created {
        Ok(meta) => Ok(session_settings(&meta, registry)),
        Err(e) => Err(Refusal::Internal(e)),
    }
}

/// A session as a client sees it in a list.
#[derive(Debug)]
pub struct SessionInfo {
    pub session_id: String,
    pub cwd: String,
    pub title: Option<String>,
    pub updated_at: Option<String>,
}

/// A session as a client sees it in a list.
#[verifier::ext_equal]
pub ghost struct InfoView {
    pub session_id: Seq<char>,
    pub cwd: Seq<char>,
    pub title: Option<Seq<char>>,
    pub updated_at: Option<Seq<char>>,
}

impl View for SessionInfo {
    type V = InfoView;

    open spec fn view(&self) -> InfoView {
        InfoView {
            session_id: self.session_id@,
            cwd: self.cwd@,
            title: opt_text(self.title),
            updated_at: opt_text(self.updated_at),
        }
    }
}

/// A session as a client sees it in a list.
pub open spec fn info_of(m: MetaView) -> InfoView {
    InfoView {
        session_id: m.session_id,
        cwd: m.cwd,
        title: m.title,
        updated_at: m.updated_at,
    }
}

/// Sessions as a client sees them.
pub open spec fn info_views(v: Seq<SessionInfo>) -> Seq<InfoView> {
    Seq::new(v.len(), |i: int| v[i]@)
}

fn copy_opt_string(s: &Option<String>) -> (r: Option<String>)
    ensures
        opt_text(r) == opt_text(*s),
{
    match s {
        Some(s) => Some(s.clone()),
        None => None,
    }
}

/// The answer to a request for the sessions: all of them are on the first
/// page, and no other page holds any.
pub fn answer_list_sessions(has_cursor: bool, sessions: &Vec<SessionMetaPayload>) -> (r: Vec<
    SessionInfo,
>)
    ensures
        info_views(r@) == if has_cursor {
            Seq::empty()
        } else {
            Seq::new(sessions@.len(), |i: int| info_of(sessions@[i]@))
        },
{
    let mut items: Vec<SessionInfo> = Vec::new();
    if has_cursor {
        proof {
            assert(info_views(items@) =~= Seq::empty());
        }
        return items;
    }
    let mut i: usize = 0;
    while i < sessions.len()
        invariant
            i <= sessions@.len(),
            items@.len() == i,
            forall|k: int| 0 <= k < i ==> (#[trigger] items@[k])@ == info_of(sessions@[k]@),
        decreases sessions@.len() - i,
    {
        let meta = &sessions[i];
        items.push(
            SessionInfo {
                session_id: meta.session_id.clone(),
                cwd: meta.cwd.clone(),
                title: copy_opt_string(&meta.title),
                updated_at: copy_opt_string(&meta.updated_at),
            },
        );
        i += 1;
    }
    proof {
        assert(info_views(items@) =~= Seq::new(sessions@.len(), |i: int| info_of(sessions@[i]@)));
    }
    items
}

/// The answer to a request to load a session.
#[derive(Debug)]
pub struct LoadAnswer {
    /// The title and the time stamp that the client is told first, where the
    /// session has a title.
    pub info: Option<(String, String)>,
    pub settings: SessionSettings,
}

/// What the client is told first of a session that it loads.
pub open spec fn title_news(m: MetaView) -> Option<(Seq<char>, Seq<char>)> {
    match m.title {
        Some(title) => Some(
            (
                title,
                match m.updated_at {
                    Some(s) => s,
                    None => ""@,
                },
            ),
        ),
        None => None,
    }
}

/// The answer to a request to load a session; `replayed` tells how the replay
/// of its transcript went.
pub fn answer_load_session(
    found: Result<Option<SessionMetaPayload>, String>,
    replayed: Result<(), String>,
    registry: &ModelRegistry,
) -> (r: Result<LoadAnswer, Refusal>)
    ensures
        match found {
            Err(e) => r matches Err(refusal) && refusal@ == RefusalView::Internal(e@),
            Ok(None) => r matches Err(refusal) && refusal@ == no_session(),
            Ok(Some(meta)) => match replayed {
                Err(e) => r matches Err(refusal) && refusal@ == RefusalView::Internal(e@),
                Ok(_) => r matches Ok(answer) && answer.settings@ == settings_of(meta@, *registry)
                    && title_news(meta@) == match answer.info {
                    Some((title, stamp)) => Some((title@, stamp@)),
                    None => None,
                },
            },
        },
{
    let meta = match found {
        Err(e) => return Err(Refusal::Internal(e)),
        Ok(None) => return Err(session_not_found()),
        Ok(Some(meta)) => meta,
    };
    match replayed {
        Err(e) => return Err(Refusal::Internal(e)),
        Ok(()) => {},
    }
    let info = match &meta.title {
        Some(title) => Some(
            (
                title.clone(),
                match &meta.updated_at {
                    Some(s) => s.clone(),
                    None => "".to_owned(),
                },
            ),
        ),
        None => None,
    };
    Ok(LoadAnswer { info, settings: session_settings(&meta, registry) })
}

/// What a client is told after the mode of a session was changed.
#[derive(Debug)]
pub struct ModeAnswer {
    pub mode: &'static str,
    pub options: Vec<ConfigOption>,
}

/// The answer to a request to change the mode of a session.
pub fn answer_set_mode(
    changed: Result<Option<SessionMetaPayload>, String>,
    registry: &ModelRegistry,
) -> (r: Result<ModeAnswer, Refusal>)
    ensures
        match changed {
            Err(e) => r matches Err(refusal) && refusal@ == RefusalView::InvalidParams(e@),
            Ok(None) => r matches Err(refusal) && refusal@ == no_session(),
            Ok(Some(meta)) => r matches Ok(answer) && answer.mode@ == policy_mode_name(
                meta@.mode_id,
            ) && option_views(answer.options@) == options_in_force(meta@, *registry),
        },
{
    match changed {
        Err(e) => Err(Refusal::InvalidParams(e)),
        Ok(None) => Err(session_not_found()),
        Ok(Some(meta)) => Ok(
            ModeAnswer { mode: meta.mode_id.as_str(), options: current_options(&meta, registry) },
        ),
    }
}

/// What a client is told after a setting of a session was changed.
#[derive(Debug)]
pub struct ConfigAnswer {
    /// The mode, where it was the mode that was changed.
    pub mode: Option<&'static str>,
    pub options: Vec<ConfigOption>,
}

/// The settings as they will be: those that wait are shown already.
pub open spec fn options_to_come(m: MetaView, registry: ModelRegistry) -> Seq<OptionView> {
    config_options(
        match m.pending_model_id {
            Some(id) => id,
            None => m.model_id,
        },
        policy_mode_name(m.mode_id),
        reasoning_name(
            match m.pending_reasoning_mode {
                Some(mode) => mode,
                None => m.reasoning_mode,
            },
        ),
        registry,
    )
}

/// The answer to a request to change a setting of a session.
pub fn answer_set_config(
    target: Result<ConfigTarget, String>,
    changed: Result<Option<SessionMetaPayload>, String>,
    registry: &ModelRegistry,
) -> (r: Result<ConfigAnswer, Refusal>)
    ensures
        match target {
            Err(e) => r matches Err(refusal) && refusal@ == RefusalView::InvalidParams(e@),
            Ok(t) => match changed {
                Err(e) => r matches Err(refusal) && refusal@ == RefusalView::InvalidParams(e@),
                Ok(None) => r matches Err(refusal) && refusal@ == no_session(),
                Ok(Some(meta)) => r matches Ok(answer) && option_views(answer.options@)
                    == options_to_come(meta@, *registry) && match answer.mode {
                    Some(mode) => t is PolicyMode && mode@ == policy_mode_name(meta@.mode_id),
                    None => !(t is PolicyMode),
                },
            },
        },
{
    let target = match target {
        Err(e) => return Err(Refusal::InvalidParams(e)),
        Ok(t) => t,
    };
    match changed {
        Err(e) => Err(Refusal::InvalidParams(e)),
        Ok(None) => Err(session_not_found()),
        Ok(Some(meta)) => Ok(
            ConfigAnswer {
                mode: if target == ConfigTarget::PolicyMode {
                    Some(meta.mode_id.as_str())
                } else {
                    None
                },
                options: config_options_after_change(&meta, registry),
            },
        ),
    }
}

/// The refusal of a prompt that cannot be read.
pub fn refuse_prompt(error: String) -> (r: Refusal)
    ensures
        r@ == RefusalView::InvalidParams(error@),
{
    Refusal::InvalidParams(error)
}

/// The answer to a prompt.
pub fn answer_prompt(result: Result<String, String>) -> (r: Result<AcpStopReason, Refusal>)
    ensures
        match result {
            Ok(stop) => r == Ok::<AcpStopReason, Refusal>(stop_of(stop@)),
            Err(e) => r matches Err(refusal) && refusal@ == RefusalView::Internal(e@),
        },
{
    match result {
        Ok(stop) => Ok(map_stop_reason(stop.as_str())),
        Err(e) => Err(Refusal::Internal(e)),
    }
}

/// What a client is told of a session after a prompt.
#[derive(Debug)]
pub struct PromptNews {
    pub mode: &'static str,
    pub options: Vec<ConfigOption>,
    pub usage: ContextUsageSnapshot,
}

/// What a client is told of a session after a prompt: nothing where the prompt
/// failed or the session is gone.
pub fn news_after_prompt(
    succeeded: bool,
    session: Option<(SessionMetaPayload, ContextUsageSnapshot)>,
    registry: &ModelRegistry,
) -> (r: Option<PromptNews>)
    ensures
        match session {
            Some((meta, usage)) => if succeeded {
                r matches Some(news) && news.mode@ == policy_mode_name(meta@.mode_id)
                    && option_views(news.options@) == options_in_force(meta@, *registry)
                    && news.usage == usage
            } else {
                r is None
            },
            None => r is None,
        },
{
    if !succeeded {
        return None;
    }
    match session {
        Some((meta, usage)) => Some(
            PromptNews {
                mode: meta.mode_id.as_str(),
                options: current_options(&meta, registry),
                usage,
            },
        ),
        None => None,
    }
}

/// With no setting waiting, the settings to come are those in force.
pub proof fn law_settled_session_shows_what_is_in_force(m: MetaView, registry: ModelRegistry)
    requires
        m.pending_model_id is None,
        m.pending_reasoning_mode is None,
    ensures
        options_to_come(m, registry) == options_in_force(m, registry),
{
}

/// What a client is told of a session is that session's own.
pub proof fn law_session_is_told_as_it_is(m: MetaView)
    ensures
        info_of(m).session_id == m.session_id && info_of(m).cwd == m.cwd && info_of(m).title
            == m.title && info_of(m).updated_at == m.updated_at,
        m.title is None ==> title_news(m) is None,
        m.title matches Some(t) ==> (title_news(m) matches Some(n) && n.0 == t && (
        m.updated_at matches Some(u) ==> n.1 == u)),
{
}

/// The settings of a session show its mode, its model and its reasoning mode; once
/// something is chosen, what is chosen is shown.
pub proof fn law_settings_show_the_session(m: MetaView, registry: ModelRegistry)
    ensures
        settings_of(m, registry).mode == policy_mode_name(m.mode_id),
        settings_of(m, registry).options.len() == 3,
        settings_of(m, registry).options[0].current == policy_mode_name(m.mode_id),
        settings_of(m, registry).options[1].current == m.model_id,
        settings_of(m, registry).options[2].current == reasoning_name(m.reasoning_mode),
        settings_of(m, registry).modes.len() == 3,
        m.pending_model_id matches Some(id) ==> options_to_come(m, registry)[1].current == id,
        m.pending_model_id is None ==> options_to_come(m, registry)[1].current == m.model_id,
        m.pending_reasoning_mode matches Some(mode) ==> options_to_come(m, registry)[2].current
            == reasoning_name(mode),
        m.pending_reasoning_mode is None ==> options_to_come(m, registry)[2].current
            == reasoning_name(m.reasoning_mode),
        options_to_come(m, registry)[0].current == policy_mode_name(m.mode_id),
        no_session() == RefusalView::InvalidParams("session not found"@),
{
}

} // verus!
