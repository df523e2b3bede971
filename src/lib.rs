//! Session management and error classification for a proxy that exposes a
//! key-value store's raw and transactional operations over request/response calls.

pub mod port;
pub mod raw;
pub mod status;
pub mod txn;
