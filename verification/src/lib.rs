//! Escrow settlement engine for a peer-to-peer trade coordinator.
//!
//! The library holds the verified core: the order status state machine and
//! its `FiatSent` transition, the in-memory order store contract, the
//! hold-invoice lifecycle (create, settle, cancel) keyed by SHA-256 payment
//! hashes, and the outbound-payment planner with its duplicate-payment
//! guard. Network transport, persistence engines and the payment-node RPC
//! itself are collaborators that live outside the library.

pub mod app;
pub mod hex;
pub mod lightning;
pub mod messages;
pub mod order;
