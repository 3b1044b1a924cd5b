//! Core browser-automation logic for an AI-agent-first web browser:
//! playbooks, plugin registry, submission verification, telemetry,
//! TLS profiles, stealth evasions, selectors, rate limiting and more.

pub mod actions;
pub mod assoc;
pub mod ats;
pub mod canvas;
pub mod cdp_actions;
pub mod cdp;
pub mod config;
pub mod dom;
pub mod engine;
pub mod evasions;
pub mod fingerprint;
pub mod html_snapshot;
pub mod js;
pub mod json_schema;
pub mod native;
pub mod native_session;
pub mod network;
pub mod playbook;
pub mod plugins;
pub mod rate_limit;
pub mod selectors;
pub mod session;
pub mod sevro_actions;
pub mod stealth;
pub mod stealth_http;
pub mod swarm;
pub mod tab_actions;
pub mod telemetry;
pub mod text;
pub mod tls;
pub mod tor;
pub mod verify;
pub mod vision;
