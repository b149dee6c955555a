//! A minimal node runtime for a simulated distributed system.
//!
//! A node exchanges newline-delimited JSON envelopes with an external
//! orchestrator over its standard streams.  This crate holds the verified
//! core: the envelope data model, the per-node bookkeeping (message-id
//! allocation, initialization state, reply correlation), the per-message
//! dispatch step, and the value-dissemination handlers (topology flooding
//! and anti-entropy gossip).  Reading and writing the actual byte streams,
//! and the timer thread of the generator variant, live outside the
//! verified core and drive it one decoded envelope at a time.

pub mod envelope;
pub mod node;
pub mod value_set;
pub mod handlers;
pub mod broadcast;
pub mod runtime;
pub mod laws;
