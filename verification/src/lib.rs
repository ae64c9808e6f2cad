//! A dataflow execution engine: a graph of typed processing nodes joined by
//! port-to-port connections, driven by a single-consumer event queue.
//!
//! The crate covers four concerns:
//!
//! - the structural message-type system and the resolution of implicit
//!   conversions between port types ([`message`], [`conversion`]);
//! - the node contract and the built-in processing units ([`node`], [`nodes`]);
//! - the flow graph model and its structural validator ([`common`],
//!   [`flow_checker`]);
//! - the event-routing engine that drives node invocations ([`flow`]).

pub mod channel;
pub mod common;
pub mod conversion;
pub mod errors;
pub mod float_bits;
pub mod flow;
pub mod flow_checker;
pub mod message;
pub mod node;
pub mod node_util;
pub mod nodes;
pub mod numeric;
