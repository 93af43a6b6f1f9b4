//! Verified core of an LLM-driven README generator: the action-tag parser,
//! the action executor state machine, directory-tree rendering, the agent's
//! bounded memory and the prompt and settings helpers around them.
pub mod text;
pub mod actions;
pub mod tree;
pub mod executor;
pub mod errors;
pub mod optlib;
pub mod prompt;
pub mod clock;
pub mod memory;
pub mod agent;
pub mod session;
pub mod settings;
pub mod local;
pub mod service;
pub mod debug;
pub mod laws;
