//! An in-memory record store for task records: create, read, update, delete,
//! and stable pagination in creation order.
//!
//! The store keeps a table from numeric ID to record, an order index that
//! remembers creation order, and a monotonically increasing ID counter.
//! Every operation carries a contract relating the store's state before and
//! after the call; `laws` states and proves the properties that span several
//! operations.

pub mod laws;
pub mod store;
