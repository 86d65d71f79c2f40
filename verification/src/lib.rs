//! Patrol: a periodic web-change detector.
//!
//! The library holds the value types of a watch target, the fingerprint of
//! extracted text, the in-memory stores with their restore discipline, and the
//! decisions of the tick loop. Every function carries a contract that is
//! proved; the few calls into other crates stand behind small wrappers whose
//! contracts are stated and believed.

pub mod actor;
pub mod config_store;
pub mod content;
pub mod data_store;
pub mod engine;
pub mod hash;
pub mod id;
pub mod models;
pub mod pool;
pub mod report;
pub mod selective;
pub mod selector;
pub mod table;
pub mod text;
pub mod timestamp;
pub mod url;
