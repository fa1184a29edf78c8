//! Verified core of a desktop supervisor for an interactive AI coding CLI.
//!
//! Two components form the heart of the library: a streaming parser that turns
//! raw terminal output into structured events ([`parser`]), and a registry that
//! owns one pseudo-terminal-attached child process per session id ([`pty`]).
//! Around them stand the session bookkeeping ([`session`]), configuration
//! ([`config`]), MCP server configuration ([`mcp`]), plugin listing
//! ([`plugins`]), authentication-status interpretation ([`auth`]), file-change
//! and diff helpers ([`files`]), and the command layer ([`commands`]).

pub mod text;
pub mod types;
pub mod parser;
pub mod session;
pub mod config;
pub mod mcp;
pub mod pty;
pub mod plugins;
pub mod auth;
pub mod files;
pub mod commands;
