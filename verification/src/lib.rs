//! Verified core of an LLM agent runtime: token budgeting, retrieval
//! ranking, tool sandboxing, and the turn-orchestration state machine.
//! I/O (HTTP, processes, files) lives outside this crate's verified core;
//! the functions here take and return plain values.

pub mod strutil;
pub mod types;
pub mod context;
pub mod retrieval;
pub mod store;
pub mod sandbox;
pub mod jsonio;
pub mod tools;
pub mod engine;
pub mod supervisor;
pub mod chunking;
pub mod server;
pub mod ragfmt;
pub mod ingest;
pub mod audit;
pub mod websearch;
pub mod order;
