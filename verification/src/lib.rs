//! An in-process event distribution hub and periodic task scheduler for an
//! instrumentation library embedded inside a larger host application.
//!
//! Independent components subscribe to named lifecycle events through
//! [`hub::EventHub`] and run lightweight periodic maintenance work through
//! [`scheduler::Scheduler`]. Listener and task bodies are callables supplied
//! by the embedding host; they are reached through the traits in [`host`],
//! whose implementations live with the host binding, outside this crate.

pub mod endpoint;
pub mod host;
pub mod hub;
pub mod scheduler;
mod seq_facts;
pub mod task;
pub mod trace_id;
