//! The stored records, with times as whole seconds since the Unix epoch.
use vstd::prelude::*;

verus! {

/// Where a gulag vote stands in its processing.
#[derive(Debug, Clone, Copy, PartialEq, Eq, Structural)]
pub enum JobStatus {
    Created,
    Running,
    Done,
    Failure,
}

/// The gulag votes cast on one message.
#[derive(Debug, Clone)]
pub struct MessageVotes {
    pub message_id: i64,
    pub channel_id: i64,
    pub guild_id: i64,
    pub user_id: i64,
    pub current_vote_tally: i32,
    pub voters: Vec<Option<i64>>,
    pub job_status: JobStatus,
    pub total_vote_tally: i32,
}

/// A user's gulag sentence.
#[derive(Debug, Clone, Copy, PartialEq, Eq, Structural)]
pub struct GulagUser {
    pub id: i32,
    pub user_id: i64,
    pub guild_id: i64,
    pub gulag_role_id: i64,
    pub channel_id: i64,
    pub in_gulag: bool,
    pub gulag_length: i32,
    pub created_at: u64,
    pub release_at: u64,
    pub remod: bool,
    pub message_id: i64,
}

/// A new gulag sentence, as it is inserted.
#[derive(Debug, Clone, Copy, PartialEq, Eq, Structural)]
pub struct NewGulagUser {
    pub user_id: i64,
    pub guild_id: i64,
    pub gulag_role_id: i64,
    pub channel_id: i64,
    pub in_gulag: bool,
    pub gulag_length: i32,
    pub created_at: u64,
    pub release_at: u64,
    pub remod: bool,
    pub message_id: i64,
}

/// A request that the server vote on sending someone to the gulag.
#[derive(Debug, Clone, Copy, PartialEq, Eq, Structural)]
pub struct GulagVote {
    pub id: i32,
    pub requester_id: i64,
    pub sender_id: i64,
    pub guild_id: i64,
    pub channel_id: i64,
    pub gulag_role_id: i64,
    pub processed: bool,
    pub message_id: i64,
    pub created_at: u64,
}

/// A new gulag vote request, as it is inserted.
#[derive(Debug, Clone, Copy, PartialEq, Eq, Structural)]
pub struct NewGulagVote {
    pub requester_id: i64,
    pub sender_id: i64,
    pub guild_id: i64,
    pub channel_id: i64,
    pub gulag_role_id: i64,
    pub processed: bool,
    pub message_id: i64,
    pub created_at: u64,
}

/// A server the bot is configured for.
#[derive(Debug, Clone, Copy, PartialEq, Eq, Structural)]
pub struct Server {
    pub id: i32,
    pub guild_id: i64,
    pub gulag_id: i64,
}

/// A feature flag.
#[derive(Debug, Clone)]
pub struct Features {
    pub id: i32,
    pub name: String,
    pub enabled: bool,
}

} // verus!
