//! Engine of a scanner that probes a sparse integer ID space behind a remote
//! resource, remembers confirmed IDs, and streams discoveries to live sessions.
//!
//! The network, timers and sockets are driven by the caller; this crate holds
//! every decision that sits between them.
pub mod model;
pub mod naming;
pub mod ledger;
pub mod scan;
pub mod probe;
pub mod estimate;
pub mod session;
pub mod checker;
pub mod laws;
