//! A minimal ingestion/query service for financial transaction records.
//!
//! The library holds the verified core of the service: a record codec that
//! moves a `Transaction` between its wire text and its in-memory form, an
//! append-only store with first-match lookup by identifier, and a request
//! dispatcher that classifies a raw request and turns it into a response.
//! Listening on a socket and moving bytes is left to the surrounding binary.

pub mod codec;
pub mod dispatch;
pub mod store;
pub mod strutil;
pub mod transaction;
