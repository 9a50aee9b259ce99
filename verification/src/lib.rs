//! Core library of a terminal LLM client: content fingerprinting and change
//! detection for cached context sources, provider stream decoding, and
//! message-history projection into provider request payloads.

pub mod anthropic;
pub mod cache;
pub mod classify;
pub mod clicks;
pub mod config;
pub mod constants;
pub mod fingerprint;
pub mod grok;
pub mod jsonio;
pub mod listedit;
pub mod memory;
pub mod perf;
pub mod profile;
pub mod project;
pub mod spinner;
pub mod stream;
pub mod strutil;
pub mod tokens;
pub mod toolcalls;
pub mod watch;
