//! Startup/shutdown orchestrator for a virtual-network client that exposes
//! its acquired address through a locally-bound authoritative DNS responder.
//!
//! The library holds the decision logic: merging command-line and file
//! configuration, parsing IPv4 literals, deciding when the address-wait loop
//! is done, planning the DNS zone and bind target, and coordinating a
//! single-fire shutdown. The surrounding process (argument parsing, file and
//! socket I/O, the tunnel client and the DNS engine) hands these functions
//! plain values and acts on what they return.

pub mod acquire;
pub mod config;
pub mod dns;
pub mod ip;
pub mod shutdown;
