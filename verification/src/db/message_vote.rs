//! Gulag votes on a message: adding and withdrawing a vote, taking the voters from
//! the message's reactions, and what a vote becomes once it has been acted on.
use vstd::prelude::*;
use crate::db::models::{JobStatus, MessageVotes};

verus! {

/// Whether the vote was cast or withdrawn.
#[derive(Debug, Clone, Copy, PartialEq, Eq, Structural)]
pub enum MessageVoteHanderResponseType {
    ADDED,
    REMOVED,
}

/// The record after a vote, and what happened to it.
#[derive(Debug, Clone)]
pub struct MessageVoteHandlerResponse {
    pub response_type: MessageVoteHanderResponseType,
    pub content: MessageVotes,
}

/// Why a vote was refused.
#[derive(Debug, Clone, Copy, PartialEq, Eq, Structural)]
pub enum VoteError {
    /// The voter has already voted on this message.
    AlreadyVoted,
    /// The voter has no vote on this message to withdraw.
    NotFound,
    /// Nobody has voted on this message.
    NoVote,
}

impl VoteError {
    /// The text shown to the user.
    pub fn message(&self) -> (s: String)
        ensures
            s@ == vote_error_text(*self),
    {
        match self {
            VoteError::AlreadyVoted => String::from_str("You have already Voted"),
            VoteError::NotFound => String::from_str("Not Found in Database"),
            VoteError::NoVote => String::from_str("No vote for this message"),
        }
    }
}

/// The text of each refusal.
pub open spec fn vote_error_text(e: VoteError) -> Seq<char> {
    match e {
        VoteError::AlreadyVoted => "You have already Voted"@,
        VoteError::NotFound => "Not Found in Database"@,
        VoteError::NoVote => "No vote for this message"@,
    }
}

/// `s` without the first copy of `x` (unchanged when there is none).
pub open spec fn remove_first<A>(s: Seq<A>, x: A) -> Seq<A>
    decreases s.len(),
{
    if s.len() == 0 {
        s
    } else if s[0] == x {
        s.drop_first()
    } else {
        seq![s[0]] + remove_first(s.drop_first(), x)
    }
}

/// The tally and voters after `voter` casts a vote.
pub open spec fn after_cast(tally: int, voters: Seq<Option<i64>>, voter: i64) -> (int, Seq<Option<i64>>) {
    (tally + 1, voters.push(Some(voter)))
}

/// The tally and voters after `voter` withdraws a vote: the tally never drops below zero.
pub open spec fn after_withdraw(tally: int, voters: Seq<Option<i64>>, voter: i64) -> (int, Seq<
    Option<i64>,
>) {
    (if tally == 0 { 0 } else { tally - 1 }, remove_first(voters, Some(voter)))
}

/// The voter ids as they are stored.
pub open spec fn stored_voters(voters: Seq<i64>) -> Seq<Option<i64>> {
    voters.map_values(|v: i64| Some(v))
}

/// A vote record is picked up for processing once it has `threshold` votes and is
/// not running or failed.
pub open spec fn ready_for_processing_spec(m: MessageVotes, threshold: i32) -> bool {
    m.current_vote_tally >= threshold && (m.job_status == JobStatus::Created || m.job_status
        == JobStatus::Done)
}

/// Removing at the first position that holds `x` is removing the first copy of `x`.
proof fn lemma_remove_first_at<A>(s: Seq<A>, x: A, i: int)
    requires
        0 <= i < s.len(),
        s[i] == x,
        forall|j: int| 0 <= j < i ==> s[j] != x,
    ensures
        remove_first(s, x) == s.remove(i),
    decreases s.len(),
{
    if i == 0 {
        assert(s.remove(0) =~= s.drop_first());
    } else {
        let t = s.drop_first();
        lemma_remove_first_at(t, x, i - 1);
        assert(seq![s[0]] + t.remove(i - 1) =~= s.remove(i));
    }
}

/// Removing the first copy of an element that was appended to a sequence without it
/// gives the sequence back.
proof fn lemma_remove_first_push<A>(s: Seq<A>, x: A)
    requires
        !s.contains(x),
    ensures
        remove_first(s.push(x), x) == s,
    decreases s.len(),
{
    if s.len() == 0 {
        assert(s.push(x).drop_first() =~= s);
    } else {
        let t = s.drop_first();
        assert(!t.contains(x)) by {
            if t.contains(x) {
                let j = choose|j: int| 0 <= j < t.len() && t[j] == x;
                assert(s[j + 1] == x);
            }
        }
        lemma_remove_first_push(t, x);
        assert(s.push(x).drop_first() =~= t.push(x));
        assert(seq![s[0]] + t =~= s);
    }
}

pub struct MessageVoteHandler;

impl MessageVoteHandler {
    /// The author recorded for a message's votes, when there is a record.
    pub fn get_user_id_from_message(existing: &Option<MessageVotes>) -> (r: Option<u64>)
        ensures
            r == (match existing {
                Some(m) => Some(m.user_id as u64),
                None => None::<u64>,
            }),
    {
        match existing {
            Some(m) => Some(m.user_id as u64),
            None => None,
        }
    }

    /// The record after the message's reactions have been read: the tally is the
    /// number of voters, and a message without a record gets a fresh one.
    pub fn sync_from_discord(
        existing: Option<MessageVotes>,
        message_id: u64,
        guild_id: u64,
        channel_id: u64,
        user_id: u64,
        voters: Vec<i64>,
    ) -> (r: MessageVotes)
        ensures
            r.current_vote_tally == voters.len() as i32,
            r.voters@ == stored_voters(voters@),
            match existing {
                Some(m) => {
                    &&& r.message_id == m.message_id
                    &&& r.channel_id == m.channel_id
                    &&& r.guild_id == m.guild_id
                    &&& r.user_id == m.user_id
                    &&& r.job_status == m.job_status
                    &&& r.total_vote_tally == m.total_vote_tally
                },
                None => {
                    &&& r.message_id == message_id as i64
                    &&& r.channel_id == channel_id as i64
                    &&& r.guild_id == guild_id as i64
                    &&& r.user_id == user_id as i64
                    &&& r.job_status == JobStatus::Created
                    &&& r.total_vote_tally == 0
                },
            },
    {
        let tally = voters.len() as i32;
        let mut stored: Vec<Option<i64>> = Vec::new();
        let mut i: usize = 0;
        while i < voters.len()
            invariant
                i <= voters.len(),
                stored@ == stored_voters(voters@.take(i as int)),
            decreases voters.len() - i,
        {
            stored.push(Some(voters[i]));
            assert(stored_voters(voters@.take(i + 1)) =~= stored_voters(voters@.take(i as int)).push(
                Some(voters@[i as int]),
            ));
            i += 1;
        }
        assert(voters@.take(voters.len() as int) =~= voters@);
        match existing {
            Some(m) => MessageVotes { current_vote_tally: tally, voters: stored, ..m },
            None => MessageVotes {
                message_id: message_id as i64,
                channel_id: channel_id as i64,
                guild_id: guild_id as i64,
                user_id: user_id as i64,
                current_vote_tally: tally,
                total_vote_tally: 0,
                voters: stored,
                job_status: JobStatus::Created,
            },
        }
    }

    /// Casts `voter_id`'s vote: a message without a record gets one with this single
    /// vote; a voter who has voted already is refused; otherwise the voter is appended
    /// and the tally goes up by one.
    pub fn message_vote_create_or_update(
        existing: Option<MessageVotes>,
        message_id: u64,
        guild_id: u64,
        channel_id: u64,
        user_id: u64,
        voter_id: u64,
    ) -> (r: Result<MessageVoteHandlerResponse, VoteError>)
        requires
            existing matches Some(m) ==> m.current_vote_tally < i32::MAX,
        ensures
            match existing {
                None => r matches Ok(resp) && {
                    &&& resp.response_type == MessageVoteHanderResponseType::ADDED
                    &&& resp.content.message_id == message_id as i64
                    &&& resp.content.channel_id == channel_id as i64
                    &&& resp.content.guild_id == guild_id as i64
                    &&& resp.content.user_id == user_id as i64
                    &&& resp.content.current_vote_tally == 1
                    &&& resp.content.total_vote_tally == 0
                    &&& resp.content.voters@ == seq![Some(voter_id as i64)]
                    &&& resp.content.job_status == JobStatus::Created
                },
                Some(m) => if m.voters@.contains(Some(voter_id as i64)) {
                    r == Err::<MessageVoteHandlerResponse, VoteError>(VoteError::AlreadyVoted)
                } else {
                    r matches Ok(resp) && {
                        &&& resp.response_type == MessageVoteHanderResponseType::ADDED
                        &&& resp.content.message_id == m.message_id
                        &&& resp.content.channel_id == m.channel_id
                        &&& resp.content.guild_id == m.guild_id
                        &&& resp.content.user_id == m.user_id
                        &&& (resp.content.current_vote_tally as int, resp.content.voters@)
                            == after_cast(m.current_vote_tally as int, m.voters@, voter_id as i64)
                        &&& resp.content.total_vote_tally == m.total_vote_tally
                        &&& resp.content.job_status == m.job_status
                    }
                },
            },
    {
        let voter = voter_id as i64;
        match existing {
            Some(m) => {
                let mut voters = m.voters;
                let mut i: usize = 0;
                #[verifier::loop_isolation(false)]
                while i < voters.len()
                    invariant
                        voters@ == m.voters@,
                        i <= voters.len(),
                        forall|j: int| 0 <= j < i ==> voters@[j] != Some(voter),
                    decreases voters.len() - i,
                {
                    match voters[i] {
                        Some(v) => {
                            if v == voter {
                                return Err(VoteError::AlreadyVoted);
                            }
                        },
                        None => {},
                    }
                    i += 1;
                }
                voters.push(Some(voter));
                Ok(MessageVoteHandlerResponse {
                    response_type: MessageVoteHanderResponseType::ADDED,
                    content: MessageVotes {
                        current_vote_tally: m.current_vote_tally + 1,
                        voters,
                        ..m
                    },
                })
            },
            None => {
                let mut voters: Vec<Option<i64>> = Vec::new();
                voters.push(Some(voter));
                Ok(MessageVoteHandlerResponse {
                    response_type: MessageVoteHanderResponseType::ADDED,
                    content: MessageVotes {
                        message_id: message_id as i64,
                        channel_id: channel_id as i64,
                        guild_id: guild_id as i64,
                        user_id: user_id as i64,
                        current_vote_tally: 1,
                        total_vote_tally: 0,
                        voters,
                        job_status: JobStatus::Created,
                    },
                })
            },
        }
    }

    /// Withdraws `voter_id`'s vote: the first copy of the voter is taken out and the
    /// tally goes down by one, but never below zero.
    pub fn message_vote_remove(existing: Option<MessageVotes>, voter_id: u64) -> (r: Result<
        MessageVoteHandlerResponse,
        VoteError,
    >)
        requires
            existing matches Some(m) ==> m.current_vote_tally > i32::MIN,
        ensures
            match existing {
                None => r == Err::<MessageVoteHandlerResponse, VoteError>(VoteError::NoVote),
                Some(m) => if !m.voters@.contains(Some(voter_id as i64)) {
                    r == Err::<MessageVoteHandlerResponse, VoteError>(VoteError::NotFound)
                } else {
                    r matches Ok(resp) && {
                        &&& resp.response_type == MessageVoteHanderResponseType::REMOVED
                        &&& resp.content.message_id == m.message_id
                        &&& resp.content.channel_id == m.channel_id
                        &&& resp.content.guild_id == m.guild_id
                        &&& resp.content.user_id == m.user_id
                        &&& (resp.content.current_vote_tally as int, resp.content.voters@)
                            == after_withdraw(
                            m.current_vote_tally as int,
                            m.voters@,
                            voter_id as i64,
                        )
                        &&& resp.content.total_vote_tally == m.total_vote_tally
                        &&& resp.content.job_status == m.job_status
                    }
                },
            },
    {
        let voter = voter_id as i64;
        match existing {
            None => Err(VoteError::NoVote),
            Some(m) => {
                let mut voters = m.voters;
                let mut i: usize = 0;
                #[verifier::loop_isolation(false)]
                while i < voters.len()
                    invariant
                        voters@ == m.voters@,
                        i <= voters.len(),
                        forall|j: int| 0 <= j < i ==> voters@[j] != Some(voter),
                    decreases voters.len() - i,
                {
                    let found = match voters[i] {
                        Some(v) => v == voter,
                        None => false,
                    };
                    if found {
                        proof {
                            lemma_remove_first_at(voters@, Some(voter), i as int);
                        }
                        voters.remove(i);
                        let tally = if m.current_vote_tally == 0 {
                            0
                        } else {
                            m.current_vote_tally - 1
                        };
                        return Ok(MessageVoteHandlerResponse {
                            response_type: MessageVoteHanderResponseType::REMOVED,
                            content: MessageVotes { current_vote_tally: tally, voters, ..m },
                        });
                    }
                    i += 1;
                }
                Err(VoteError::NotFound)
            },
        }
    }

    /// Whether a vote record is to be acted on: it has reached `threshold` votes and is
    /// neither running nor failed.
    pub fn ready_for_processing(m: &MessageVotes, threshold: i32) -> (b: bool)
        ensures
            b == ready_for_processing_spec(*m, threshold),
    {
        m.current_vote_tally >= threshold && (m.job_status == JobStatus::Created || m.job_status
            == JobStatus::Done)
    }
}

/// Casting a vote and withdrawing it again gives back the tally and the voters the
/// record had.
pub proof fn lemma_vote_then_unvote(tally: int, voters: Seq<Option<i64>>, voter: i64)
    requires
        tally >= 0,
        !voters.contains(Some(voter)),
    ensures
        ({
            let cast = after_cast(tally, voters, voter);
            after_withdraw(cast.0, cast.1, voter)
        }) == (tally, voters),
{
    lemma_remove_first_push(voters, Some(voter));
}

/// A tally that counts the voters keeps counting them when a new voter casts a vote
/// and when a voter withdraws one.
pub proof fn lemma_tally_counts_voters(tally: int, voters: Seq<Option<i64>>, voter: i64)
    requires
        tally == voters.len(),
    ensures
        !voters.contains(Some(voter)) ==> after_cast(tally, voters, voter).0 == after_cast(
            tally,
            voters,
            voter,
        ).1.len(),
        voters.contains(Some(voter)) ==> after_withdraw(tally, voters, voter).0 == after_withdraw(
            tally,
            voters,
            voter,
        ).1.len(),
{
    if voters.contains(Some(voter)) {
        let i = lemma_first_copy(voters, Some(voter));
        lemma_remove_first_at(voters, Some(voter), i);
    }
}

/// A second vote from the same voter is refused.
pub proof fn lemma_no_double_vote(voters: Seq<Option<i64>>, tally: int, voter: i64)
    ensures
        after_cast(tally, voters, voter).1.contains(Some(voter)),
{
    let s = after_cast(tally, voters, voter).1;
    assert(s[s.len() - 1] == Some(voter));
}

/// The position of the first copy of an element a sequence holds.
proof fn lemma_first_copy<A>(s: Seq<A>, x: A) -> (i: int)
    requires
        s.contains(x),
    ensures
        0 <= i < s.len(),
        s[i] == x,
        forall|j: int| 0 <= j < i ==> s[j] != x,
    decreases s.len(),
{
    if s[0] == x {
        0
    } else {
        let t = s.drop_first();
        assert(t.contains(x)) by {
            let k = choose|k: int| 0 <= k < s.len() && s[k] == x;
            assert(k != 0);
            assert(t[k - 1] == x);
        }
        let i = lemma_first_copy(t, x);
        assert forall|j: int| 0 <= j < i + 1 implies s[j] != x by {
            if j > 0 {
                assert(s[j] == t[j - 1]);
            }
        }
        i + 1
    }
}

/// A record that has been acted on is not picked up again until new votes come in.
pub proof fn lemma_done_not_ready(m: MessageVotes, threshold: i32)
    requires
        m.current_vote_tally == 0,
        threshold > 0,
    ensures
        !ready_for_processing_spec(m, threshold),
{
}

} // verus!
