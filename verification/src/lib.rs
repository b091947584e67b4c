//! A minimal runtime for single-process nodes of a simulated distributed
//! system, together with three concrete node behaviors (echo, unique-id
//! generation, and best-effort broadcast).
//!
//! A node reads one message envelope at a time, applies its own state
//! transition, and emits zero or more reply envelopes.  The envelope types,
//! the initialization handshake, the dispatch contract, and the three node
//! state machines live here; the process around them (stdin/stdout plumbing
//! and JSON framing) is ordinary, unverified glue.

pub mod broadcast;
pub mod decimal;
pub mod echo;
pub mod message;
pub mod runtime;
pub mod unique_id;
