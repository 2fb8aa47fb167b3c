//! A system agent driven by a tool-calling language model: the verified
//! core of its conversation loop, tool catalogue, tool dispatch, persistent
//! memory store and text processing.

pub mod agent;
pub mod config;
pub mod llm;
pub mod pattern;
pub mod session;
pub mod text;
pub mod tools;
