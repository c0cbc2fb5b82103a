//! State-synchronisation engine for pull-request status messages mirrored
//! into a chat: the status record, the reaction and command transition
//! rules, the reconciliation planning against the remote service, and the
//! dedup guard that keeps an item from being surfaced twice.

pub mod record;
pub mod config;
pub mod reaction;
pub mod text;
pub mod command;
pub mod reconcile;
pub mod link;
pub mod store;
pub mod discovery;
pub mod render;
