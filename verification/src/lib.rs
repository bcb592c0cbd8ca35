//! Routing and settlement engine for a payment-channel network simulation.
//!
//! A snapshot of channel records is aggregated into a directed channel graph
//! with one balance per direction. Payments are routed along fee-minimising
//! paths and settled atomically, with bounded re-routing when a hop lacks
//! balance.

pub mod channel;
pub mod fees;
pub mod graph;
pub mod indexer;
pub mod laws;
pub mod loader;
pub mod payment;
pub mod random;
pub mod report;
pub mod router;
pub mod search;
pub mod settlement;
pub mod snapshot;
pub mod text;
