//! A small forum backend core: credential and session-token handling and a
//! vote ledger with a denormalized per-post counter.
//!
//! The store keeps users, votes and post counters in memory under the
//! invariants the design demands of its storage engine: unique emails,
//! unique tokens, at most one vote row per (user, post) pair, and a counter
//! that always equals the net sum of the ledger. Every public operation is
//! one atomic step on the store, so the check-then-act races of a layered
//! storage stack cannot arise here.

pub mod validate;
pub mod crypto;
pub mod tally;
pub mod store;
pub mod laws;
