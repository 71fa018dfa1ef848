//! Feeds and their events: parsing, merging, the store, and the steps of
//! the synchronizer.

pub mod date;
pub mod event;
pub mod fetcher;
pub mod ics_parser;
pub mod scheduler;
pub mod store;
pub mod zone;
