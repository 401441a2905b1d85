//! Reconciliation of MCP server definitions between a central multi-application
//! configuration and the Antigravity application's own `mcp_config.json`.
//!
//! The library decides; it never touches the disk. Callers hand it what they
//! found (whether the directory exists, what the file held, what the server
//! spec validator said) and receive the document to write back.

pub mod config;
pub mod id_map;
pub mod import;
pub mod json;
pub mod paths;
pub mod store;
pub mod sync;
