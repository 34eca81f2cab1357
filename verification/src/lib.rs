//! Verified core of a Gemini command-line client and MCP server: request and
//! response models, Server-Sent-Events framing, JSON-RPC dispatch and the
//! context-file rules.
pub mod api;
pub mod cli;
pub mod context;
pub mod error;
pub mod json;
pub mod mcp;
pub mod models;
pub mod sse;
pub mod text;
