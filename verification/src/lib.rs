//! Decision logic of a tool-using agent host.
//!
//! Every rule that the host applies (which tool calls run, how a patch
//! changes a file, how a prompt is assembled, who may hold a session) is a
//! function here on plain values, with its behaviour stated as a contract.

pub mod acp;
pub mod acp_server;
pub mod activity;
pub mod automation;
pub mod blocks;
pub mod bridge;
pub mod channel_auth;
pub mod channel_config;
pub mod channel_tools;
pub mod codemode;
pub mod compact;
pub mod constants;
pub mod content_block;
pub mod dashboard;
pub mod days;
pub mod file_edit;
pub mod files;
pub mod heatmap;
pub mod host;
pub mod ids;
pub mod json;
pub mod llm;
pub mod manager;
pub mod mcp;
pub mod models;
pub mod order;
pub mod patch_laws;
pub mod paths;
pub mod patterns;
pub mod policy;
pub mod service;
pub mod session;
pub mod skills;
pub mod strings;
pub mod subagent;
pub mod subagent_session;
pub mod terminal;
pub mod text;
pub mod tools;
pub mod tui;
pub mod turn;
pub mod usage;
pub mod xml;
