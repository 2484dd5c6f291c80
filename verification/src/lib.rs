//! Invalidation resolution and recalculation dispatch for portfolio
//! activities.
//!
//! After every activity write (create, update, delete, batch import) the
//! derived market data of the affected accounts goes stale.  This crate
//! computes the minimal precise set of market-data symbols and account
//! identities whose derived data must be refreshed, and packages it as an
//! immutable recalculation request for a fire-and-forget event channel.

pub mod export;
pub mod model;
pub mod orchestrator;
pub mod order;
pub mod query_args;
pub mod request;
pub mod resolver;
pub mod symbols;
