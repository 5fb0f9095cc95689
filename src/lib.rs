//! Offline write queue and reconciliation engine for a local-first store.
//!
//! Mutations are captured as rows of a local mutation log, selected in a
//! bounded batch ordered by creation time, turned into remote REST requests,
//! and finally resolved as synced or failed.

pub mod hex;
pub mod text;
pub mod entry;
pub mod reader;
pub mod remote;
pub mod dispatch;
pub mod reconcile;
pub mod store;
pub mod session;
pub mod gateway;
