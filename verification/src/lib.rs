//! Verified core of the NineClaw desktop agent: media directive parsing,
//! MCP settings normalisation, memory routing, runtime helpers and trace
//! bookkeeping.
pub mod text;
pub mod percent;
pub mod media_directives;
pub mod paths;
pub mod desktop_media;
pub mod mime;
pub mod digest;
pub mod provider;
pub mod replies;
pub mod memory_gate;
pub mod mcp_settings;
pub mod managed_runtime;
pub mod llm_trace;
pub mod trace_registry;
pub mod trace_guard;
pub mod llm_log_export;
pub mod delegation;
pub mod credential_proxy;
pub mod memory_tools;
pub mod pi_session;
pub mod json_value;
pub mod compat_extension;
pub mod runtime_extension;
pub mod pi_stream;
pub mod desktop_session;
