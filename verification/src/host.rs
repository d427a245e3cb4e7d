//! What a host runs.

use crate::channel_config::{any_channel, ChannelRuntimeConfig};
use crate::text::cat2;
use vstd::prelude::*;

verus! {

/// What a host process is for.
#[derive(Debug, Clone, Copy, PartialEq, Eq, Structural)]
pub enum HostMode {
    AcpStdio,
    ServiceIngress,
}

/// What a service runs.
#[derive(Debug, Clone, Copy, PartialEq, Eq, Structural)]
pub enum ServicePlan {
    Channels,
    Automation,
    Both,
}

/// Decides what a service runs; it must run something.
pub fn plan_service(has_channels: bool, has_automation: bool) -> (r: Result<ServicePlan, String>)
    ensures
        match (has_channels, has_automation) {
            (true, true) => r == Ok::<ServicePlan, String>(ServicePlan::Both),
            (true, false) => r == Ok::<ServicePlan, String>(ServicePlan::Channels),
            (false, true) => r == Ok::<ServicePlan, String>(ServicePlan::Automation),
            (false, false) => r matches Err(e) && e@
                == "serve requires at least one enabled channel or automation job"@,
        },
{
    if has_channels && has_automation {
        Ok(ServicePlan::Both)
    } else if has_channels {
        Ok(ServicePlan::Channels)
    } else if has_automation {
        Ok(ServicePlan::Automation)
    } else {
        Err("serve requires at least one enabled channel or automation job".to_owned())
    }
}

/// Why the channels cannot start, if so.
pub open spec fn channels_problem(c: ChannelRuntimeConfig) -> Option<Seq<char>> {
    if !any_channel(c) {
        Some("channels.yaml must enable at least one service ingress"@)
    } else if c.websocket.enabled && c.feishu.enabled {
        Some(
            "Service ingress channels are configured but not implemented yet: "@
                + "websocket, feishu"@,
        )
    } else if c.websocket.enabled {
        Some("Service ingress channels are configured but not implemented yet: "@ + "websocket"@)
    } else if c.feishu.enabled {
        Some("Service ingress channels are configured but not implemented yet: "@ + "feishu"@)
    } else {
        None
    }
}

/// The channels of an agent, started or not.
#[derive(Debug)]
pub struct ChannelRuntime {
    config: ChannelRuntimeConfig,
    started: bool,
}

impl ChannelRuntime {
    /// The configuration.
    pub closed spec fn settings(&self) -> ChannelRuntimeConfig {
        self.config
    }

    /// Whether the channels are started.
    pub closed spec fn is_started(&self) -> bool {
        self.started
    }

    /// Channels that have not started.
    pub fn new(config: ChannelRuntimeConfig) -> (r: Self)
        ensures
            r.settings() == config,
            !r.is_started(),
    {
        ChannelRuntime { config, started: false }
    }

    /// The configuration.
    pub fn config(&self) -> (r: &ChannelRuntimeConfig)
        ensures
            *r == self.settings(),
    {
        &self.config
    }

    /// Checks that the channels can start.
    pub fn validate_ready(&self) -> (r: Result<(), String>)
        ensures
            match channels_problem(self.settings()) {
                None => r is Ok,
                Some(e) => r matches Err(error) && error@ == e,
            },
    {
        if !self.config.has_enabled_channels() {
            return Err("channels.yaml must enable at least one service ingress".to_owned());
        }
        let names = if self.config.websocket.enabled && self.config.feishu.enabled {
            "websocket, feishu"
        } else if self.config.websocket.enabled {
            "websocket"
        } else if self.config.feishu.enabled {
            "feishu"
        } else {
            return Ok(());
        };
        Err(cat2("Service ingress channels are configured but not implemented yet: ", names))
    }

    /// Starts the channels; started ones stay as they are.
    pub fn start(&mut self) -> (r: Result<(), String>)
        ensures
            final(self).settings() == old(self).settings(),
            if old(self).is_started() {
                r is Ok && final(self).is_started()
            } else {
                match channels_problem(old(self).settings()) {
                    None => r is Ok && final(self).is_started(),
                    Some(e) => !final(self).is_started() && (r matches Err(error) && error@ == e),
                }
            },
    {
        if self.started {
            return Ok(());
        }
        match self.validate_ready() {
            Ok(()) => {},
            Err(e) => return Err(e),
        }
        self.started = true;
        Ok(())
    }

    /// Stops the channels.
    pub fn shutdown(&mut self)
        ensures
            !final(self).is_started(),
            final(self).settings() == old(self).settings(),
    {
        self.started = false;
    }
}

/// The channels can start if and only if one is enabled and none that is missing is.
pub proof fn law_channels_that_can_start(c: ChannelRuntimeConfig)
    ensures
        channels_problem(c) is None <==> any_channel(c) && !c.websocket.enabled
            && !c.feishu.enabled,
{
}

} // verus!
