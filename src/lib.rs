//! Fixed-window rate limiting over an in-memory map of per-key counters,
//! owned by one caller or shared behind a lock, with rollback and a reaper
//! pass for elapsed windows.

pub mod backend;
pub mod clock;
pub mod input;
pub mod laws;
pub mod locked;
pub mod store;
pub mod time;
pub mod window;
