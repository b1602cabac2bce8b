//! A simulated securities exchange: trading agents (actors) negotiate
//! stock/money trades through a central market.  Per-instrument tellers
//! match buy and sell orders; the market drives a two-phase
//! reservation-commit protocol so that a matched pair of actors either
//! both settle (money and stock swap atomically) or both roll back.
//!
//! Each component is a state machine on plain values: it consumes one
//! inbound message and returns the messages it would send, so the whole
//! protocol core is verified here while channel plumbing stays outside.

pub mod actor;
pub mod market;
pub mod messages;
pub mod teller;
