//! A conversational workflow engine: an admin-authored decision graph of
//! items (prompts) and responses (labelled edges), traversed by per-user chat
//! sessions that accumulate context and expire on inactivity.
//!
//! The graph lives in an in-memory [`store::Store`] keyed by opaque integer
//! ids; every operation on it is specified and verified. Wall-clock time
//! enters only as an explicit `now` argument, so the session runtime is a
//! pure transition function over store states.

pub mod builders;
pub mod chat_sessions;
pub mod chat_workflow_interactions;
pub mod chat_workflow_items;
pub mod chat_workflow_responses;
pub mod chat_workflows;
pub mod context;
pub mod domain_events;
pub mod error;
pub mod render;
pub mod shell;
pub mod store;
pub mod strings;
pub mod transport;
