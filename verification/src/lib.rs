//! An engine for agents that are driven by a language model: a bounded
//! memory of the conversation, a registry of tools with schemas for their
//! arguments, and the two ways in which a task becomes an output, with what
//! holds of every run proved; and the tokenizer of the model.

pub mod agent;
pub mod engine;
pub mod handle;
pub mod laws;
pub mod memory;
pub mod model;
pub mod protocol;
pub mod schema;
pub mod search;
pub mod tokenizer;
pub mod tool;
pub mod value;
