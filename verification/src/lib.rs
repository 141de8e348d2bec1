//! A session-gated record store for per-user time-tracking ("clock") entries.
//!
//! The store keeps each record as a schemaless string-keyed attribute map; a
//! verified codec maps between the typed [`clocks::ClockSchema`] and that
//! representation, and [`client::ClockClient`] exposes the list / create /
//! edit / delete / validate-ownership operations over a key-value table
//! modelled by [`store::Table`].

pub mod api;
pub mod attr;
pub mod auth;
pub mod client;
pub mod clocks;
pub mod context;
pub mod store;
pub mod timestamp;
pub mod uid;
