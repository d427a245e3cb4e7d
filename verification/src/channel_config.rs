//! The channels through which an agent is reached.

use crate::json::{fields, parse_yaml, read_result, yaml_read, Json, Jv, Member};
use crate::models::ReasoningMode;
use crate::text::{cat2, cat3, is_blank, trim, trim_of};
use vstd::prelude::*;

verus! {

pub const CHANNELS_CONFIG_FILE: &'static str = "channels.yaml";

/// The WebSocket channel.
#[derive(Debug)]
pub struct WebSocketIngressConfig {
    pub enabled: bool,
}

impl Default for WebSocketIngressConfig {
    fn default() -> (r: Self)
        ensures
            !r.enabled,
    {
        WebSocketIngressConfig { enabled: false }
    }
}

/// The Weixin channel.
#[derive(Debug)]
pub struct WeixinChannelConfig {
    pub enabled: bool,
    pub workspace_dir: String,
    pub markdown_filter: bool,
    pub media_input: bool,
    pub media_output: bool,
    pub override_model: Option<String>,
    pub override_reasoning_mode: Option<ReasoningMode>,
}

impl Default for WeixinChannelConfig {
    fn default() -> (r: Self)
        ensures
            !r.enabled,
            r.workspace_dir@ == "."@,
            r.markdown_filter,
            !r.media_input,
            !r.media_output,
            r.override_model is None,
            r.override_reasoning_mode is None,
    {
        WeixinChannelConfig {
            enabled: false,
            workspace_dir: ".".to_owned(),
            markdown_filter: true,
            media_input: false,
            media_output: false,
            override_model: None,
            override_reasoning_mode: None,
        }
    }
}

/// The service that a Feishu channel talks to.
#[derive(Debug, Clone, Copy, PartialEq, Eq, Structural)]
pub enum FeishuChannelDomain {
    Feishu,
    Lark,
}

impl Default for FeishuChannelDomain {
    fn default() -> (r: Self)
        ensures
            r is Feishu,
    {
        FeishuChannelDomain::Feishu
    }
}

/// Who may talk to the agent.
#[derive(Debug, Clone, Copy, PartialEq, Eq, Structural)]
pub enum FeishuAccessPolicy {
    AllowAll,
    WhiteList,
}

impl Default for FeishuAccessPolicy {
    fn default() -> (r: Self)
        ensures
            r is WhiteList,
    {
        FeishuAccessPolicy::WhiteList
    }
}

/// The Feishu channel.
#[derive(Debug)]
pub struct FeishuChannelConfig {
    pub enabled: bool,
    pub workspace_dir: String,
    pub domain: FeishuChannelDomain,
    pub dm_policy: FeishuAccessPolicy,
    pub group_policy: FeishuAccessPolicy,
    pub allow_from: Vec<String>,
    pub group_allow_from: Vec<String>,
    pub group_require_mention: bool,
    pub media_input: bool,
    pub media_output: bool,
    pub card_output: bool,
    pub override_model: Option<String>,
    pub override_reasoning_mode: Option<ReasoningMode>,
}

impl Default for FeishuChannelConfig {
    fn default() -> (r: Self)
        ensures
            !r.enabled,
            r.workspace_dir@ == "."@,
            r.domain is Feishu,
            r.dm_policy is WhiteList,
            r.group_policy is WhiteList,
            r.allow_from@.len() == 0,
            r.group_allow_from@.len() == 0,
            r.group_require_mention,
            !r.media_input,
            !r.media_output,
            !r.card_output,
            r.override_model is None,
            r.override_reasoning_mode is None,
    {
        FeishuChannelConfig {
            enabled: false,
            workspace_dir: ".".to_owned(),
            domain: FeishuChannelDomain::Feishu,
            dm_policy: FeishuAccessPolicy::WhiteList,
            group_policy: FeishuAccessPolicy::WhiteList,
            allow_from: Vec::new(),
            group_allow_from: Vec::new(),
            group_require_mention: true,
            media_input: false,
            media_output: false,
            card_output: false,
            override_model: None,
            override_reasoning_mode: None,
        }
    }
}

/// All channels of an agent.
#[derive(Debug)]
pub struct ChannelRuntimeConfig {
    pub websocket: WebSocketIngressConfig,
    pub weixin: WeixinChannelConfig,
    pub feishu: FeishuChannelConfig,
}

impl Default for ChannelRuntimeConfig {
    fn default() -> (r: Self)
        ensures
            !r.websocket.enabled,
            !r.weixin.enabled,
            r.weixin.workspace_dir@ == "."@,
            r.weixin.markdown_filter,
            !r.weixin.media_input,
            !r.weixin.media_output,
            r.weixin.override_model is None,
            r.weixin.override_reasoning_mode is None,
            !r.feishu.enabled,
            r.feishu.workspace_dir@ == "."@,
            r.feishu.domain is Feishu,
            r.feishu.dm_policy is WhiteList,
            r.feishu.group_policy is WhiteList,
            r.feishu.allow_from@.len() == 0,
            r.feishu.group_allow_from@.len() == 0,
            r.feishu.group_require_mention,
            !r.feishu.media_input,
            !r.feishu.media_output,
            !r.feishu.card_output,
            r.feishu.override_model is None,
            r.feishu.override_reasoning_mode is None,
    {
        ChannelRuntimeConfig {
            websocket: WebSocketIngressConfig::default(),
            weixin: WeixinChannelConfig::default(),
            feishu: FeishuChannelConfig::default(),
        }
    }
}

/// Whether any channel is open.
pub open spec fn any_channel(c: ChannelRuntimeConfig) -> bool {
    c.websocket.enabled || c.weixin.enabled || c.feishu.enabled
}

impl ChannelRuntimeConfig {
    /// Whether any channel is open.
    pub fn has_enabled_channels(&self) -> (r: bool)
        ensures
            r == any_channel(*self),
    {
        self.websocket.enabled || self.weixin.enabled || self.feishu.enabled
    }
}

/// What a configuration holds, by what was read of it: its settings, or
/// nothing where the default counts.
pub open spec fn config_settings(read: Result<Jv, Seq<char>>, path: Seq<char>) -> Result<
    Option<Map<Seq<char>, Jv>>,
    Seq<char>,
> {
    match read {
        Err(e) => Err("parse YAML in "@ + path + ": "@ + e),
        Ok(Jv::Null) => Ok(None),
        Ok(Jv::Object(m)) => Ok(Some(m)),
        Ok(_) => Err("Invalid YAML config in "@ + path + ": expected a mapping"@),
    }
}

/// What reading a configuration gave.
pub open spec fn config_result(r: Result<Option<Vec<Member>>, String>) -> Result<
    Option<Map<Seq<char>, Jv>>,
    Seq<char>,
> {
    match r {
        Ok(Some(m)) => Ok(Some(fields(m@))),
        Ok(None) => Ok(None),
        Err(e) => Err(e@),
    }
}

/// Takes the settings out of what was read of a configuration.
pub fn check_config_root(read: Result<Json, String>, path: &str) -> (r: Result<
    Option<Vec<Member>>,
    String,
>)
    ensures
        config_result(r) == config_settings(read_result(read), path@),
{
    match read {
        Err(e) => Err(cat2(cat3("parse YAML in ", path, ": ").as_str(), e.as_str())),
        Ok(Json::Null) => Ok(None),
        Ok(Json::Object(m)) => Ok(Some(m)),
        Ok(_) => Err(cat3("Invalid YAML config in ", path, ": expected a mapping")),
    }
}

/// Reads the settings of a configuration; a blank one holds none. `path` names
/// the file in an error.
pub fn read_config(text: &str, path: &str) -> (r: Result<Option<Vec<Member>>, String>)
    ensures
        config_result(r) == if is_blank(text@) {
            Ok(None)
        } else {
            config_settings(yaml_read(trim_of(text@)), path@)
        },
{
    let trimmed = trim(text);
    if trimmed.is_empty() {
        return Ok(None);
    }
    check_config_root(parse_yaml(trimmed), path)
}

/// The configuration is a mapping, or nothing at all; any other is refused.
pub proof fn law_configuration_is_a_mapping(read: Result<Jv, Seq<char>>, path: Seq<char>)
    ensures
        read matches Ok(Jv::Object(m)) ==> config_settings(read, path) == Ok::<
            Option<Map<Seq<char>, Jv>>,
            Seq<char>,
        >(Some(m)),
        read matches Ok(Jv::Null) ==> config_settings(read, path) == Ok::<
            Option<Map<Seq<char>, Jv>>,
            Seq<char>,
        >(None),
        read matches Ok(v) ==> (!(v is Object) && !(v is Null) ==> config_settings(
            read,
            path,
        ) is Err),
        read is Err ==> config_settings(read, path) is Err,
{
}

/// There is a channel if and only if one of them is enabled.
pub proof fn law_any_channel_counts(c: ChannelRuntimeConfig)
    ensures
        c.websocket.enabled ==> any_channel(c),
        c.weixin.enabled ==> any_channel(c),
        c.feishu.enabled ==> any_channel(c),
        !c.websocket.enabled && !c.weixin.enabled && !c.feishu.enabled ==> !any_channel(c),
{
}

} // verus!
