//! Mail intake and routing: flattening of address headers, rule matching,
//! mailbox resolution, construction of feed entries and the decisions of the
//! persistence loop.

pub mod channel;
pub mod config;
pub mod feed;
pub mod header;
pub mod mailbox;
pub mod rule;
pub mod servo;
pub mod text;
pub mod web;
