//! Harvesting structured posts from an infinite-scroll feed: the decisions of
//! the login state machine, the adaptive scroll-and-harvest cycle, and the
//! extraction of one feed item into a record, each verified against its
//! contract. Driving the browser itself is left to the caller.

pub mod text;
pub mod timestamp;
pub mod extract;
pub mod harvest;
pub mod login;
pub mod cookies;
pub mod batch;
pub mod scraping;
