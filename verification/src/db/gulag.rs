//! Gulag sentences and vote requests: how they are created, extended, released and
//! checked for spam. Times are whole seconds since the Unix epoch.
use vstd::prelude::*;
use crate::db::message_vote::{ready_for_processing_spec, MessageVoteHandler};
use crate::db::models::{GulagUser, GulagVote, JobStatus, MessageVotes, NewGulagUser, NewGulagVote};

verus! {

/// Why a write to the gulag records was refused.
#[derive(Debug, Clone, Copy, PartialEq, Eq, Structural)]
pub enum GulagRecordError {
    /// A sentence of negative length.
    NegativeLength,
    /// Negative time added to a sentence.
    NegativeDuration,
    /// The sender already has an unprocessed vote against this requester in this guild.
    DuplicateVote,
}

impl GulagRecordError {
    /// The text of the refusal.
    pub fn message(&self) -> (s: String)
        ensures
            s@ == gulag_record_error_text(*self),
    {
        match self {
            GulagRecordError::NegativeLength => String::from_str("gulag_length must be non-negative"),
            GulagRecordError::NegativeDuration => String::from_str(
                "gulag_duration must be non-negative",
            ),
            GulagRecordError::DuplicateVote => String::from_str(
                "An unprocessed vote already exists for this sender/target/guild",
            ),
        }
    }
}

/// The text of each refusal.
pub open spec fn gulag_record_error_text(e: GulagRecordError) -> Seq<char> {
    match e {
        GulagRecordError::NegativeLength => "gulag_length must be non-negative"@,
        GulagRecordError::NegativeDuration => "gulag_duration must be non-negative"@,
        GulagRecordError::DuplicateVote => "An unprocessed vote already exists for this sender/target/guild"@,
    }
}

/// A new sentence starting at `now`: refused when the length is negative, and
/// otherwise in the gulag until `now + gulag_length`.
pub open spec fn new_sentence(
    user_id: i64,
    guild_id: i64,
    gulag_role_id: i64,
    gulag_length: i32,
    channel_id: i64,
    message_id: i64,
    now: u64,
) -> Result<NewGulagUser, GulagRecordError> {
    if gulag_length < 0 {
        Err(GulagRecordError::NegativeLength)
    } else {
        Ok(
            NewGulagUser {
                user_id,
                guild_id,
                gulag_role_id,
                channel_id,
                in_gulag: true,
                gulag_length,
                created_at: now,
                release_at: (now + gulag_length) as u64,
                remod: false,
                message_id,
            },
        )
    }
}

/// A new sentence starting at `now`: refused when the length is negative, and
/// otherwise in the gulag until `now + gulag_length`.
pub fn send_to_gulag(
    user_id: i64,
    guild_id: i64,
    gulag_role_id: i64,
    gulag_length: i32,
    channel_id: i64,
    message_id: i64,
    now: u64,
) -> (r: Result<NewGulagUser, GulagRecordError>)
    requires
        gulag_length >= 0 ==> now + gulag_length <= u64::MAX,
    ensures
        r == new_sentence(user_id, guild_id, gulag_role_id, gulag_length, channel_id, message_id, now),
{
    if gulag_length < 0 {
        return Err(GulagRecordError::NegativeLength);
    }
    Ok(
        NewGulagUser {
            user_id,
            guild_id,
            gulag_role_id,
            channel_id,
            in_gulag: true,
            gulag_length,
            created_at: now,
            release_at: now + gulag_length as u64,
            remod: false,
            message_id,
        },
    )
}

/// An existing sentence given the total length `gulag_length` and released
/// `gulag_duration` seconds after `release_at`; refused when the added time is negative.
pub fn add_time_to_gulag(
    user: GulagUser,
    gulag_length: i32,
    gulag_duration: i32,
    release_at: u64,
) -> (r: Result<GulagUser, GulagRecordError>)
    requires
        gulag_duration >= 0 ==> release_at + gulag_duration <= u64::MAX,
    ensures
        gulag_duration < 0 ==> r == Err::<GulagUser, GulagRecordError>(
            GulagRecordError::NegativeDuration,
        ),
        gulag_duration >= 0 ==> r == Ok::<GulagUser, GulagRecordError>(
            GulagUser {
                gulag_length,
                release_at: (release_at + gulag_duration) as u64,
                ..user
            },
        ),
{
    if gulag_duration < 0 {
        return Err(GulagRecordError::NegativeDuration);
    }
    Ok(GulagUser { gulag_length, release_at: release_at + gulag_duration as u64, ..user })
}

/// The sentence lengthened by `additional` seconds, in length and in release time.
pub open spec fn lengthened(user: GulagUser, additional: int) -> GulagUser {
    GulagUser {
        gulag_length: (user.gulag_length + additional) as i32,
        release_at: (user.release_at + additional) as u64,
        ..user
    }
}

/// Lengthening a sentence twice lengthens it by the sum of the two times.
pub proof fn lemma_add_time_twice(user: GulagUser, a: int, b: int)
    requires
        a >= 0,
        b >= 0,
        user.gulag_length + a + b <= i32::MAX,
        user.release_at + a + b <= u64::MAX,
    ensures
        lengthened(lengthened(user, a), b) == lengthened(user, a + b),
{
}

/// A sentence is due for release once it is still served and its release time has come.
pub open spec fn is_due_spec(user: GulagUser, now: u64) -> bool {
    user.in_gulag && user.release_at <= now
}

/// The sentences of `users` due for release at `now`, in their order.
pub open spec fn expired_spec(users: Seq<GulagUser>, now: u64) -> Seq<GulagUser> {
    users.filter(|u: GulagUser| is_due_spec(u, now))
}

/// The sentences of `users` still served in `guild_id`, in their order.
pub open spec fn active_in_guild_spec(users: Seq<GulagUser>, guild_id: i64) -> Seq<GulagUser> {
    users.filter(|u: GulagUser| u.guild_id == guild_id && u.in_gulag)
}

/// The rows of `users` other than row `id`, in their order.
pub open spec fn without_row(users: Seq<GulagUser>, id: i32) -> Seq<GulagUser> {
    users.filter(|u: GulagUser| u.id != id)
}

/// The vote records of `votes` that are due for processing, in their order.
pub open spec fn ready_spec(votes: Seq<MessageVotes>, threshold: i32) -> Seq<MessageVotes> {
    votes.filter(|m: MessageVotes| ready_for_processing_spec(m, threshold))
}

/// Whether a sentence is due for release at `now`.
pub fn is_due(user: &GulagUser, now: u64) -> (b: bool)
    ensures
        b == is_due_spec(*user, now),
{
    user.in_gulag && user.release_at <= now
}

/// A new gulag vote request, not yet processed, made at `now`.
pub fn new_gulag_vote(
    requester_id: i64,
    sender_id: i64,
    guild_id: i64,
    gulag_role_id: i64,
    message_id: i64,
    channel_id: i64,
    now: u64,
) -> (v: NewGulagVote)
    ensures
        v == (NewGulagVote {
            requester_id,
            sender_id,
            guild_id,
            channel_id,
            gulag_role_id,
            processed: false,
            message_id,
            created_at: now,
        }),
{
    NewGulagVote {
        requester_id,
        sender_id,
        guild_id,
        channel_id,
        gulag_role_id,
        processed: false,
        message_id,
        created_at: now,
    }
}

/// The queries on the gulag records, over the rows they read.
pub struct GulagQueries;

impl GulagQueries {
    /// A new sentence starting at `now`: refused when the length is negative, and
    /// otherwise in the gulag until `now + gulag_length`.
    pub fn create(
        user_id: i64,
        guild_id: i64,
        gulag_role_id: i64,
        gulag_length: i32,
        channel_id: i64,
        message_id: i64,
        now: u64,
    ) -> (r: Result<NewGulagUser, GulagRecordError>)
        requires
            gulag_length >= 0 ==> now + gulag_length <= u64::MAX,
        ensures
            r == new_sentence(user_id, guild_id, gulag_role_id, gulag_length, channel_id, message_id, now),
    {
        send_to_gulag(user_id, guild_id, gulag_role_id, gulag_length, channel_id, message_id, now)
    }

    /// The first sentence of `user_id` among `users`, served or not.
    pub fn find_by_user_id(users: &Vec<GulagUser>, user_id: i64) -> (r: Option<GulagUser>)
        ensures
            match r {
                Some(u) => exists|i: int| 0 <= i < users@.len() && users@[i] == u && u.user_id == user_id
                    && forall|j: int| 0 <= j < i ==> (#[trigger] users@[j]).user_id != user_id,
                None => forall|j: int| 0 <= j < users@.len() ==> (#[trigger] users@[j]).user_id != user_id,
            },
    {
        let mut i: usize = 0;
        while i < users.len()
            invariant
                i <= users.len(),
                forall|j: int| 0 <= j < i ==> (#[trigger] users@[j]).user_id != user_id,
            decreases users.len() - i,
        {
            if users[i].user_id == user_id {
                return Some(users[i]);
            }
            i += 1;
        }
        None
    }

    /// The sentences due for release at `now`, in their order.
    pub fn find_expired(users: &Vec<GulagUser>, now: u64) -> (r: Vec<GulagUser>)
        ensures
            r@ == expired_spec(users@, now),
    {
        let mut r: Vec<GulagUser> = Vec::new();
        let mut i: usize = 0;
        while i < users.len()
            invariant
                i <= users.len(),
                r@ == expired_spec(users@.take(i as int), now),
            decreases users.len() - i,
        {
            proof {
                reveal_with_fuel(Seq::<_>::filter, 1);
                assert(users@.take(i + 1).drop_last() =~= users@.take(i as int));
            }
            if is_due(&users[i], now) {
                r.push(users[i]);
            }
            i += 1;
        }
        assert(users@.take(users.len() as int) =~= users@);
        r
    }

    /// The sentences still served in `guild_id`, in their order.
    pub fn find_active_by_guild(users: &Vec<GulagUser>, guild_id: i64) -> (r: Vec<GulagUser>)
        ensures
            r@ == active_in_guild_spec(users@, guild_id),
    {
        let mut r: Vec<GulagUser> = Vec::new();
        let mut i: usize = 0;
        while i < users.len()
            invariant
                i <= users.len(),
                r@ == active_in_guild_spec(users@.take(i as int), guild_id),
            decreases users.len() - i,
        {
            proof {
                reveal_with_fuel(Seq::<_>::filter, 1);
                assert(users@.take(i + 1).drop_last() =~= users@.take(i as int));
            }
            if users[i].guild_id == guild_id && users[i].in_gulag {
                r.push(users[i]);
            }
            i += 1;
        }
        assert(users@.take(users.len() as int) =~= users@);
        r
    }

    /// A sentence lengthened by `additional` seconds, in length and in release time;
    /// refused when the added time is negative.
    pub fn add_time(user: GulagUser, additional: i32) -> (r: Result<GulagUser, GulagRecordError>)
        requires
            additional >= 0 ==> user.gulag_length + additional <= i32::MAX,
            additional >= 0 ==> user.release_at + additional <= u64::MAX,
        ensures
            additional < 0 ==> r == Err::<GulagUser, GulagRecordError>(
                GulagRecordError::NegativeDuration,
            ),
            additional >= 0 ==> r == Ok::<GulagUser, GulagRecordError>(
                lengthened(user, additional as int),
            ),
    {
        if additional < 0 {
            return Err(GulagRecordError::NegativeDuration);
        }
        Ok(
            GulagUser {
                gulag_length: user.gulag_length + additional,
                release_at: user.release_at + additional as u64,
                ..user
            },
        )
    }

    /// The record with the user let out of the gulag.
    pub fn mark_released(user: GulagUser) -> (r: GulagUser)
        ensures
            r == (GulagUser { in_gulag: false, ..user }),
    {
        GulagUser { in_gulag: false, ..user }
    }

    /// The rows left once row `id` is deleted, and how many rows went.
    pub fn delete(users: &Vec<GulagUser>, id: i32) -> (r: (Vec<GulagUser>, usize))
        ensures
            r.0@ == without_row(users@, id),
            r.1 == users@.len() - r.0@.len(),
    {
        let mut kept: Vec<GulagUser> = Vec::new();
        let mut i: usize = 0;
        while i < users.len()
            invariant
                i <= users.len(),
                kept@ == without_row(users@.take(i as int), id),
                kept@.len() <= i,
            decreases users.len() - i,
        {
            proof {
                reveal_with_fuel(Seq::<_>::filter, 1);
                assert(users@.take(i + 1).drop_last() =~= users@.take(i as int));
            }
            if users[i].id != id {
                kept.push(users[i]);
            }
            i += 1;
        }
        assert(users@.take(users.len() as int) =~= users@);
        let gone = users.len() - kept.len();
        (kept, gone)
    }

    /// A new vote request of `sender_id` against `requester_id`, made at `now`:
    /// refused while the sender has an unprocessed one against them in the guild.
    pub fn create_vote(
        votes: &Vec<GulagVote>,
        requester_id: i64,
        sender_id: i64,
        guild_id: i64,
        gulag_role_id: i64,
        message_id: i64,
        channel_id: i64,
        now: u64,
    ) -> (r: Result<NewGulagVote, GulagRecordError>)
        ensures
            (exists|i: int|
                0 <= i < votes@.len() && is_pending_duplicate(
                    #[trigger] votes@[i],
                    requester_id,
                    sender_id,
                    guild_id,
                )) ==> r == Err::<NewGulagVote, GulagRecordError>(GulagRecordError::DuplicateVote),
            !(exists|i: int|
                0 <= i < votes@.len() && is_pending_duplicate(
                    #[trigger] votes@[i],
                    requester_id,
                    sender_id,
                    guild_id,
                )) ==> r == Ok::<NewGulagVote, GulagRecordError>(NewGulagVote {
                requester_id,
                sender_id,
                guild_id,
                channel_id,
                gulag_role_id,
                processed: false,
                message_id,
                created_at: now,
            }),
            r is Err ==> exists|i: int|
                0 <= i < votes@.len() && (#[trigger] votes@[i]).requester_id == requester_id
                    && votes@[i].sender_id == sender_id && votes@[i].guild_id == guild_id && !votes@[i].processed,
            (forall|i: int| 0 <= i < votes@.len() ==> (#[trigger] votes@[i]).requester_id != requester_id)
                ==> r is Ok,
    {
        match check_new_vote(votes, requester_id, sender_id, guild_id) {
            Err(e) => Err(e),
            Ok(()) => Ok(new_gulag_vote(requester_id, sender_id, guild_id, gulag_role_id, message_id, channel_id, now)),
        }
    }

    /// The vote records that have reached `threshold` votes and are neither running
    /// nor failed, in their order.
    pub fn find_votes_ready_for_processing(votes: &Vec<MessageVotes>, threshold: i32) -> (r: Vec<MessageVotes>)
        ensures
            r@.len() == ready_spec(votes@, threshold).len(),
            forall|k: int| 0 <= k < r@.len() ==> same_record(#[trigger] r@[k], ready_spec(votes@, threshold)[k]),
            forall|k: int| 0 <= k < r@.len() ==> (#[trigger] r@[k]).current_vote_tally >= threshold && (
            r@[k].job_status == JobStatus::Created || r@[k].job_status == JobStatus::Done),
            forall|i: int|
                0 <= i < votes@.len() && (#[trigger] votes@[i]).current_vote_tally >= threshold && (
                votes@[i].job_status == JobStatus::Created || votes@[i].job_status == JobStatus::Done)
                    ==> exists|k: int| 0 <= k < r@.len() && same_record(r@[k], votes@[i]),
    {
        let mut r: Vec<MessageVotes> = Vec::new();
        let mut i: usize = 0;
        while i < votes.len()
            invariant
                i <= votes.len(),
                r@.len() == ready_spec(votes@.take(i as int), threshold).len(),
                forall|k: int| 0 <= k < r@.len() ==> same_record(#[trigger] r@[k], ready_spec(votes@.take(i as int), threshold)[k]),
            decreases votes.len() - i,
        {
            proof {
                reveal_with_fuel(Seq::<_>::filter, 1);
                assert(votes@.take(i + 1).drop_last() =~= votes@.take(i as int));
            }
            if MessageVoteHandler::ready_for_processing(&votes[i], threshold) {
                r.push(copy_record(&votes[i]));
            }
            i += 1;
        }
        assert(votes@.take(votes.len() as int) =~= votes@);
        proof {
            lemma_ready_records(votes@, threshold);
            let ready = ready_spec(votes@, threshold);
            assert forall|k: int| 0 <= k < r@.len() implies (#[trigger] r@[k]).current_vote_tally >= threshold && (
            r@[k].job_status == JobStatus::Created || r@[k].job_status == JobStatus::Done) by {
                assert(same_record(r@[k], ready[k]));
            }
            assert forall|i: int|
                0 <= i < votes@.len() && (#[trigger] votes@[i]).current_vote_tally >= threshold && (
                votes@[i].job_status == JobStatus::Created || votes@[i].job_status == JobStatus::Done)
                    implies exists|k: int| 0 <= k < r@.len() && same_record(r@[k], votes@[i]) by {
                assert(ready.contains(votes@[i]));
                let k = choose|k: int| 0 <= k < ready.len() && ready[k] == votes@[i];
                assert(same_record(r@[k], ready[k]));
            }
        }
        r
    }

    /// The record with a new processing status and everything else unchanged.
    pub fn update_vote_status(m: MessageVotes, status: JobStatus) -> (r: MessageVotes)
        ensures
            same_record(r, MessageVotes { job_status: status, ..m }),
    {
        MessageVotes { job_status: status, ..m }
    }

    /// The record once its votes have been acted on: done, with `total_votes` votes in
    /// all, and no current votes or voters.
    pub fn mark_vote_done(m: MessageVotes, total_votes: i32) -> (r: MessageVotes)
        ensures
            r.job_status == JobStatus::Done,
            r.total_vote_tally == total_votes,
            r.current_vote_tally == 0,
            r.voters@.len() == 0,
            r.message_id == m.message_id,
            r.channel_id == m.channel_id,
            r.guild_id == m.guild_id,
            r.user_id == m.user_id,
    {
        MessageVotes {
            job_status: JobStatus::Done,
            total_vote_tally: total_votes,
            current_vote_tally: 0,
            voters: Vec::new(),
            ..m
        }
    }
}

/// A copy of a vote record.
fn copy_record(m: &MessageVotes) -> (r: MessageVotes)
    ensures
        same_record(r, *m),
{
    let mut voters: Vec<Option<i64>> = Vec::new();
    let mut i: usize = 0;
    while i < m.voters.len()
        invariant
            i <= m.voters.len(),
            voters@ == m.voters@.take(i as int),
        decreases m.voters.len() - i,
    {
        voters.push(m.voters[i]);
        i += 1;
        assert(voters@ =~= m.voters@.take(i as int));
    }
    assert(m.voters@.take(m.voters.len() as int) =~= m.voters@);
    MessageVotes {
        message_id: m.message_id,
        channel_id: m.channel_id,
        guild_id: m.guild_id,
        user_id: m.user_id,
        current_vote_tally: m.current_vote_tally,
        voters,
        job_status: m.job_status,
        total_vote_tally: m.total_vote_tally,
    }
}

/// Two vote records hold the same fields, their voters compared by value.
pub open spec fn same_record(a: MessageVotes, b: MessageVotes) -> bool {
    &&& a.message_id == b.message_id
    &&& a.channel_id == b.channel_id
    &&& a.guild_id == b.guild_id
    &&& a.user_id == b.user_id
    &&& a.current_vote_tally == b.current_vote_tally
    &&& a.voters@ == b.voters@
    &&& a.job_status == b.job_status
    &&& a.total_vote_tally == b.total_vote_tally
}

/// A vote still waiting from `sender_id` against `requester_id` in `guild_id`.
pub open spec fn is_pending_duplicate(v: GulagVote, requester_id: i64, sender_id: i64, guild_id: i64) -> bool {
    v.sender_id == sender_id && v.requester_id == requester_id && v.guild_id == guild_id
        && !v.processed
}

/// Whether a new vote request may be stored: refused when one of `votes` is still
/// pending for the same sender, requester and guild.
pub fn check_new_vote(votes: &Vec<GulagVote>, requester_id: i64, sender_id: i64, guild_id: i64) -> (r: Result<(), GulagRecordError>)
    ensures
        r is Err <==> exists|i: int|
            0 <= i < votes@.len() && is_pending_duplicate(
                #[trigger] votes@[i],
                requester_id,
                sender_id,
                guild_id,
            ),
        r is Err ==> r == Err::<(), GulagRecordError>(GulagRecordError::DuplicateVote),
        r is Err ==> exists|i: int|
            0 <= i < votes@.len() && (#[trigger] votes@[i]).requester_id == requester_id
                && votes@[i].sender_id == sender_id && votes@[i].guild_id == guild_id && !votes@[i].processed,
        (forall|i: int| 0 <= i < votes@.len() ==> (#[trigger] votes@[i]).requester_id != requester_id) ==> r is Ok,
{
    let mut i: usize = 0;
    while i < votes.len()
        invariant
            i <= votes.len(),
            forall|j: int|
                0 <= j < i ==> !is_pending_duplicate(
                    #[trigger] votes@[j],
                    requester_id,
                    sender_id,
                    guild_id,
                ),
        decreases votes.len() - i,
    {
        let v = &votes[i];
        if v.sender_id == sender_id && v.requester_id == requester_id && v.guild_id == guild_id
            && !v.processed {
            return Err(GulagRecordError::DuplicateVote);
        }
        i += 1;
    }
    Ok(())
}

/// The requests `requester_id` made in the hour up to `now`.
pub open spec fn recent_request(v: GulagVote, requester_id: u64, now: u64) -> bool {
    v.requester_id == requester_id as i64 && now - 3600 <= v.created_at && v.created_at <= now
}

/// The number of `votes` that satisfy `recent_request`, counted from the front.
pub open spec fn count_recent(votes: Seq<GulagVote>, requester_id: u64, now: u64) -> nat
    decreases votes.len(),
{
    if votes.len() == 0 {
        0
    } else {
        count_recent(votes.drop_last(), requester_id, now) + (if recent_request(
            votes.last(),
            requester_id,
            now,
        ) {
            1nat
        } else {
            0nat
        })
    }
}

/// Whether a requester has asked for more than three gulag votes in the last hour.
#[verifier::spinoff_prover]
pub fn gulag_spam_detected(votes: &Vec<GulagVote>, requester_id: u64, now: u64) -> (b: bool)
    requires
        now >= 3600,
    ensures
        b == (count_recent(votes@, requester_id, now) > 3),
        (forall|i: int| 0 <= i < votes@.len() ==> (#[trigger] votes@[i]).requester_id != requester_id as i64) ==> !b,
{
    let mut count: usize = 0;
    let mut i: usize = 0;
    while i < votes.len()
        invariant
            i <= votes.len(),
            count == count_recent(votes@.take(i as int), requester_id, now),
            count <= i,
            now >= 3600,
        decreases votes.len() - i,
    {
        proof {
            assert(votes@.take(i + 1).drop_last() =~= votes@.take(i as int));
        }
        let v = &votes[i];
        if v.requester_id == requester_id as i64 && now - 3600 <= v.created_at && v.created_at
            <= now {
            count += 1;
        }
        i += 1;
    }
    assert(votes@.take(votes.len() as int) =~= votes@);
    proof {
        if forall|i: int| 0 <= i < votes@.len() ==> (#[trigger] votes@[i]).requester_id != requester_id as i64 {
            lemma_no_own_requests(votes@, requester_id, now);
        }
    }
    count > 3
}

/// The Discord errors on which a sentence whose release failed is dropped anyway.
pub open spec fn release_error_drops_spec(err: Seq<char>) -> bool {
    err == "Unknown Guild"@ || err == "Unknown Message"@
}

/// Whether a failed release still drops the sentence: only when the guild or the
/// message is gone.
pub fn release_error_drops(err: &str) -> (b: bool)
    ensures
        b == release_error_drops_spec(err@),
{
    let e = crate::text::chars_of(err);
    let g = crate::text::chars_of("Unknown Guild");
    let m = crate::text::chars_of("Unknown Message");
    crate::text::seq_eq(&e, &g) || crate::text::seq_eq(&e, &m)
}

/// Only the requester's own requests of the last hour count: appending a request of
/// another member, or one made outside the hour up to `now`, leaves the count as it
/// was; appending one of the requester's own within that hour raises it by one.
pub proof fn lemma_count_recent_push(votes: Seq<GulagVote>, v: GulagVote, requester_id: u64, now: u64)
    ensures
        (v.requester_id != requester_id as i64 || v.created_at + 3600 < now || v.created_at > now)
            ==> count_recent(votes.push(v), requester_id, now) == count_recent(votes, requester_id, now),
        (v.requester_id == requester_id as i64 && now <= v.created_at + 3600 && v.created_at <= now)
            ==> count_recent(votes.push(v), requester_id, now) == count_recent(votes, requester_id, now) + 1,
{
    assert(votes.push(v).drop_last() =~= votes);
    assert(votes.push(v).last() == v);
}

/// Requests of other members never change whether a requester is counted as a
/// spammer: the count over `votes` followed by `others` equals the count over
/// `votes` alone when no request in `others` is the requester's.
pub proof fn lemma_only_own_requests_count(votes: Seq<GulagVote>, others: Seq<GulagVote>, requester_id: u64, now: u64)
    requires
        forall|i: int| 0 <= i < others.len() ==> (#[trigger] others[i]).requester_id != requester_id as i64,
    ensures
        count_recent(votes + others, requester_id, now) == count_recent(votes, requester_id, now),
    decreases others.len(),
{
    if others.len() == 0 {
        assert(votes + others =~= votes);
    } else {
        let rest = others.drop_last();
        assert forall|i: int| 0 <= i < rest.len() implies (#[trigger] rest[i]).requester_id != requester_id as i64 by {
            assert(rest[i] == others[i]);
        }
        lemma_only_own_requests_count(votes, rest, requester_id, now);
        assert(votes + others =~= (votes + rest).push(others.last()));
        assert(others.last() == others[others.len() - 1]);
        lemma_count_recent_push(votes + rest, others.last(), requester_id, now);
    }
}

/// A requester none of whose requests is among `votes` has no request counted.
pub proof fn lemma_no_own_requests(votes: Seq<GulagVote>, requester_id: u64, now: u64)
    requires
        forall|i: int| 0 <= i < votes.len() ==> (#[trigger] votes[i]).requester_id != requester_id as i64,
    ensures
        count_recent(votes, requester_id, now) == 0,
{
    lemma_only_own_requests_count(Seq::empty(), votes, requester_id, now);
    assert(Seq::<GulagVote>::empty() + votes =~= votes);
}

/// A pending request blocks a new one only when it is the requester's own, on the
/// same member, in the same guild, and not yet processed.
pub proof fn lemma_pending_duplicate_is_own(v: GulagVote, requester_id: i64, sender_id: i64, guild_id: i64)
    ensures
        is_pending_duplicate(v, requester_id, sender_id, guild_id) <==> (v.requester_id == requester_id
            && v.sender_id == sender_id && v.guild_id == guild_id && !v.processed),
{
}

/// Pending requests of other members never block a new request: when none of
/// `votes` is the requester's, none of them is a pending duplicate.
pub proof fn lemma_other_requesters_never_block(votes: Seq<GulagVote>, requester_id: i64, sender_id: i64, guild_id: i64)
    requires
        forall|i: int| 0 <= i < votes.len() ==> (#[trigger] votes[i]).requester_id != requester_id,
    ensures
        forall|i: int| 0 <= i < votes.len() ==> !is_pending_duplicate(#[trigger] votes[i], requester_id, sender_id, guild_id),
{
}

/// A vote record is picked up exactly when it has at least `threshold` current
/// votes and its job is created or done: every record picked up qualifies, every
/// qualifying record is picked up, and a running or failed one never is.
pub proof fn lemma_ready_records(votes: Seq<MessageVotes>, threshold: i32)
    ensures
        forall|k: int| 0 <= k < ready_spec(votes, threshold).len() ==> (#[trigger] ready_spec(votes, threshold)[k]).current_vote_tally
            >= threshold && (ready_spec(votes, threshold)[k].job_status == JobStatus::Created
            || ready_spec(votes, threshold)[k].job_status == JobStatus::Done),
        forall|i: int|
            0 <= i < votes.len() && (#[trigger] votes[i]).current_vote_tally >= threshold && (votes[i].job_status
                == JobStatus::Created || votes[i].job_status == JobStatus::Done) ==> ready_spec(votes, threshold).contains(votes[i]),
        forall|i: int|
            0 <= i < votes.len() && ((#[trigger] votes[i]).job_status == JobStatus::Running || votes[i].job_status
                == JobStatus::Failure) ==> !ready_spec(votes, threshold).contains(votes[i]),
{
    broadcast use vstd::seq_lib::group_filter_ensures;
    let p = |m: MessageVotes| ready_for_processing_spec(m, threshold);
    assert forall|i: int|
        0 <= i < votes.len() && (#[trigger] votes[i]).current_vote_tally >= threshold && (votes[i].job_status
            == JobStatus::Created || votes[i].job_status == JobStatus::Done) implies ready_spec(votes, threshold).contains(votes[i]) by {
        assert(p(votes[i]));
        votes.lemma_filter_contains(p, i);
    }
    assert forall|i: int|
        0 <= i < votes.len() && ((#[trigger] votes[i]).job_status == JobStatus::Running || votes[i].job_status
            == JobStatus::Failure) implies !ready_spec(votes, threshold).contains(votes[i]) by {
        if ready_spec(votes, threshold).contains(votes[i]) {
            let k = choose|k: int| 0 <= k < ready_spec(votes, threshold).len() && ready_spec(votes, threshold)[k] == votes[i];
            votes.lemma_filter_pred(p, k);
        }
    }
    assert forall|k: int| 0 <= k < ready_spec(votes, threshold).len() implies (#[trigger] ready_spec(votes, threshold)[k]).current_vote_tally
        >= threshold && (ready_spec(votes, threshold)[k].job_status == JobStatus::Created
        || ready_spec(votes, threshold)[k].job_status == JobStatus::Done) by {
        votes.lemma_filter_pred(p, k);
    }
}

} // verus!
