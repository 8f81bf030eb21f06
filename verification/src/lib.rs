//! The logic of the ITSM ticket desktop tool: the ITSM HTTP API as requests
//! and answers, the configuration and its normalization, the ticket cache,
//! the refresh loop's decisions, the login callback, and the local MCP
//! tools, each with its contract.
pub mod json;
pub mod login;
pub mod mcp;
pub mod text;
pub mod api;
pub mod cache;
pub mod commands;
pub mod config;
pub mod scheduler;
pub mod state;
pub mod tray;
