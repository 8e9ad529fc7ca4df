//! Coordination core for synchronisation intents over a range-based
//! set-reconciliation session.
//!
//! Peers declare *interest* in rectangular regions (areas) of a namespace and
//! track the progress of reconciliation through *intents*. This crate holds
//! the verified logic of that coordination: the area algebra, the per-intent
//! interest bookkeeping, the dispatcher that routes session events to the
//! intents they concern, and the completion accounting on the consumer side.

pub mod channels;
pub mod client;
pub mod data_model;
pub mod dispatcher;
pub mod grouping;
pub mod intents;
pub mod interest;
pub mod keys;
pub mod proto;
pub mod session;
