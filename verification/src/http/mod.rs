//! What the web side answers: routes, responses and the page of events.

pub mod file_server;
pub mod html;
pub mod page;
pub mod response;
pub mod server;
pub mod upcoming;
