//! An agenda kept fresh from calendar feeds.
//!
//! The library holds the rules of the service: how the text of a feed
//! becomes events, how the events of a sync cycle are merged and ordered,
//! what the event store holds before and after a commit, and what the web
//! side answers. Fetching, files, sockets and threads are the caller's.

pub mod calendar;
pub mod config;
pub mod http;
pub mod text;
