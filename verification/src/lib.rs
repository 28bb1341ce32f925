//! A resilient database-access core: it routes read and write operations to a
//! writer pool or an optional read-replica pool, falls back from a broken
//! reader to the writer when the operator opted in, and recovers exactly once
//! from a prepared statement that the backend no longer recognizes.
//!
//! The pools, the statement cache, the router and the recovery coordinator are
//! modeled and verified here. The network itself (connecting, preparing and
//! running statements) is the lower layer's work: its outcomes enter the
//! verified functions as explicit reply values, so every contract holds for
//! every possible behavior of the backend.

pub mod errors;
pub mod schema;
pub mod pool;
pub mod registry;
pub mod driver;
pub mod paths;
