//! A clipboard history: the items that were copied, newest first, with
//! duplicates promoted instead of stored twice and the oldest entries evicted
//! once a fixed limit is reached.

pub mod common;
pub mod emoji;
pub mod text;
pub mod history;
pub mod laws;
pub mod picker;
pub mod poller;
