//! A minimal ReAct-style reasoning agent.
//!
//! The library builds a structured prompt for a text-completion endpoint,
//! parses the model's reply into a typed step (a tool action or a final
//! answer), dispatches tool calls through a registry, and drives a bounded
//! reason/act loop that accumulates a transcript. Network transport and
//! credential loading are left to the embedding program; the library holds
//! the control logic and proves its contracts.

pub mod agent;
pub mod client;
pub mod parser;
pub mod prompt;
pub mod textscan;
pub mod tools;
