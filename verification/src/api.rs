//! Data exchanged with the clients of the exchange.

pub mod models;
pub mod handlers;
