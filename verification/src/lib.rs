//! A verified node-graph execution runtime.
//!
//! A mutable, user-editable dataflow graph is compiled into an executable
//! program, run against changing inputs, and observed through monitor nodes
//! that cache the values flowing through chosen graph positions without
//! altering program output.

pub mod client;
pub mod compile;
pub mod executor;
pub mod graph;
pub mod inspect;
pub mod instrument;
pub mod laws;
pub mod messages;
pub mod path_tool_options;
pub mod preserve;
pub mod runtime;
pub mod semantics;
pub mod store;
