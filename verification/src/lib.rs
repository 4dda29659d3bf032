//! A coding assistant's core: slash commands, credentials, settings, the
//! provider's event stream, the agentic loop's decisions, tools, skills and
//! session stores.
use vstd::prelude::*;

pub mod anthropic;
pub mod auth;
pub mod cc_auth;
pub mod cc_memory;
pub mod cc_provider;
pub mod cli;
pub mod commands;
pub mod config;
pub mod conversation;
pub mod engine;
pub mod errors;
pub mod hooks;
pub mod json;
pub mod memory;
pub mod paths;
pub mod permission;
pub mod plugins;
pub mod process;
pub mod provider;
pub mod references;
pub mod request;
pub mod server;
pub mod services;
pub mod session_format;
pub mod skills;
pub mod sort;
pub mod strmap;
pub mod text;
pub mod tools;

verus! {
} // verus!
