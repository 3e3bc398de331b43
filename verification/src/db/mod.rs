//! Records the bot keeps, and the rules by which they change.
pub mod message_vote;
pub mod models;
pub mod gulag;
pub mod usage;
pub mod activity;
pub mod servers;
