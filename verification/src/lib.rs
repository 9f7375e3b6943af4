pub mod text;
pub mod permissions;
pub mod chunk;
pub mod num;
pub mod memory;
pub mod skills;
pub mod mdc;
pub mod display;
pub mod background;
pub mod types;
pub mod sse;
pub mod config;
pub mod theme;
pub mod calls;
pub mod subagent;
pub mod chat;
pub mod shell;
pub mod tools;
pub mod retrieval;
pub mod mcp;
pub mod extract;
pub mod bg_agent;
pub mod session_laws;
pub mod transcript;
