//! Protocol-message handlers: one module per inbound action.

pub mod fiat_sent;
