//! Verified core of a property-graph export connector.
//!
//! The library translates a schema-typed row/value model into the graph
//! database's wire parameter encoding, builds the upsert/delete queries that
//! realize incremental changes, models desired-vs-observed schema-object
//! state to derive a migration plan, and orders batched mutations per
//! connection. Connection handling, transactions and the conversion of the
//! wire model into the driver's own types live outside the library.

pub mod analyze;
pub mod builder;
pub mod context;
pub mod dispatch;
pub mod encode;
pub mod laws;
pub mod mapping;
pub mod pool;
pub mod reconcile;
pub mod setup;
pub mod strutil;
pub mod values;
pub mod wire;
