//! Polls won by "Goku": their creator goes to the gulag, for longer each time.
use vstd::prelude::*;
use crate::handlers::gulag::{duration_string, duration_text, offense_duration, offense_seconds, MAX_OFFENSE_SECS};
use crate::text::{
    chars_of, contains_chars, decimal, has_substring, lowercase, push_i64, push_str, push_u64,
    signed_decimal, string_of, to_lowercase,
};

verus! {

pub struct GokuPoll;

/// The votes one answer of a finished poll received.
#[derive(Debug, Clone, Copy)]
pub struct AnswerCount {
    pub id: u64,
    pub count: u64,
}

/// An answer of a poll and its text, if it has one.
#[derive(Debug, Clone)]
pub struct PollAnswer {
    pub answer_id: u64,
    pub text: Option<String>,
}

/// Position `i` holds the most votes, and no later position holds as many (the last
/// of several equal maxima wins).
pub open spec fn is_last_max(counts: Seq<AnswerCount>, i: int) -> bool {
    &&& 0 <= i < counts.len()
    &&& forall|j: int| 0 <= j < counts.len() ==> (#[trigger] counts[j]).count <= counts[i].count
    &&& forall|j: int| i < j < counts.len() ==> (#[trigger] counts[j]).count < counts[i].count
}

/// The sentence for a poll creator who already had `usage_count` Goku polls; a
/// negative count gets the longest.
pub open spec fn poll_duration(usage_count: i32) -> nat {
    if usage_count < 0 { MAX_OFFENSE_SECS as nat } else { offense_duration(usage_count as nat) }
}

/// The announcement in the gulag channel.
pub open spec fn goku_text(user_id: u64, duration: nat, new_count: i32, next_duration: nat) -> Seq<char> {
    "<@"@ + decimal(user_id as nat) + "> created a poll and Goku won. Sent to the gulag for "@
        + duration_text(duration) + "!\nThis is offense #"@ + signed_decimal(new_count as int)
        + " (next offense will be "@ + duration_text(next_duration) + ")"@
}

impl GokuPoll {
    /// The longest sentence, in seconds.
    pub const MAX_DURATION_SECS: u32 = 2_592_000;

    /// The answer with the most votes, the last of equals; none when nobody voted.
    pub fn winning_answer(counts: &Vec<AnswerCount>) -> (r: Option<AnswerCount>)
        ensures
            match r {
                Some(a) => a.count > 0 && exists|i: int| is_last_max(counts@, i) && counts@[i] == a,
                None => forall|i: int| is_last_max(counts@, i) ==> counts@[i].count == 0,
            },
    {
        if counts.len() == 0 {
            return None;
        }
        let mut best: usize = 0;
        let mut i: usize = 1;
        while i < counts.len()
            invariant
                1 <= i <= counts.len(),
                best < i,
                forall|j: int| 0 <= j < i ==> (#[trigger] counts@[j]).count <= counts@[best as int].count,
                forall|j: int| best < j < i ==> (#[trigger] counts@[j]).count < counts@[best as int].count,
            decreases counts.len() - i,
        {
            if counts[i].count >= counts[best].count {
                best = i;
            }
            i += 1;
        }
        assert(is_last_max(counts@, best as int));
        assert forall|k: int| is_last_max(counts@, k) implies k == best by {
            if k < best {
                assert(counts@[best as int].count < counts@[k].count);
            } else if k > best {
                assert(counts@[k].count < counts@[best as int].count);
            }
        }
        if counts[best].count > 0 {
            Some(counts[best])
        } else {
            None
        }
    }

    /// The text of the first answer with the given id, when it has one.
    pub fn winning_text(answers: &Vec<PollAnswer>, answer_id: u64) -> (r: Option<String>)
        ensures
            match r {
                Some(t) => exists|i: int| 0 <= i < answers@.len() && answers@[i].answer_id == answer_id
                    && (forall|j: int| 0 <= j < i ==> (#[trigger] answers@[j]).answer_id != answer_id)
                    && (answers@[i].text matches Some(x) && x@ == t@),
                None => forall|i: int| 0 <= i < answers@.len() && answers@[i].answer_id == answer_id
                    && (forall|j: int| 0 <= j < i ==> (#[trigger] answers@[j]).answer_id != answer_id)
                    ==> answers@[i].text is None,
            },
    {
        let mut i: usize = 0;
        while i < answers.len()
            invariant
                i <= answers.len(),
                forall|j: int| 0 <= j < i ==> (#[trigger] answers@[j]).answer_id != answer_id,
            decreases answers.len() - i,
        {
            if answers[i].answer_id == answer_id {
                proof {
                    assert forall|k: int| 0 <= k < answers@.len() && answers@[k].answer_id == answer_id
                        && (forall|j: int| 0 <= j < k ==> (#[trigger] answers@[j]).answer_id != answer_id)
                        implies k == i by {
                        if k > i {
                            assert(answers@[i as int].answer_id != answer_id);
                        }
                    }
                }
                return match &answers[i].text {
                    Some(t) => Some(t.clone()),
                    None => None,
                };
            }
            i += 1;
        }
        None
    }

    /// Whether an answer names Goku, in any case.
    pub fn mentions_goku(text: &str) -> (b: bool)
        ensures
            b == has_substring(lowercase(text@), "goku"@),
    {
        let l = to_lowercase(text);
        let v = chars_of(l.as_str());
        let g = chars_of("goku");
        contains_chars(&v, &g)
    }

    /// The sentence, in seconds, for a creator with `usage_count` earlier Goku polls:
    /// 30 minutes doubled for each, capped at 30 days.
    pub fn calculate_duration(usage_count: i32) -> (r: u32)
        ensures
            r == poll_duration(usage_count),
    {
        if usage_count < 0 {
            return GokuPoll::MAX_DURATION_SECS;
        }
        let d = offense_seconds(usage_count as u64);
        proof {
            crate::handlers::gulag::lemma_offense_duration_bounds(usage_count as nat);
        }
        d as u32
    }

    /// A sentence length in its largest units.
    pub fn format_duration(seconds: u32) -> (s: String)
        ensures
            s@ == duration_text(seconds as nat),
    {
        duration_string(seconds as u64)
    }

    /// The count after this poll: the stored one when it could be raised, else one
    /// more than before.
    pub fn next_count(incremented: Option<i32>, current_count: i32) -> (r: i32)
        requires
            incremented is None ==> current_count < i32::MAX,
        ensures
            r == match incremented {
                Some(c) => c,
                None => (current_count + 1) as i32,
            },
    {
        match incremented {
            Some(c) => c,
            None => current_count + 1,
        }
    }

    /// The announcement of a Goku sentence, with the sentence the next one would bring.
    pub fn announcement(user_id: u64, duration: u32, new_count: i32) -> (s: String)
        ensures
            s@ == goku_text(user_id, duration as nat, new_count, poll_duration(new_count)),
    {
        let next = GokuPoll::calculate_duration(new_count);
        let mut out: Vec<char> = Vec::new();
        push_str(&mut out, "<@");
        push_u64(&mut out, user_id);
        push_str(&mut out, "> created a poll and Goku won. Sent to the gulag for ");
        let d = GokuPoll::format_duration(duration);
        push_str(&mut out, d.as_str());
        push_str(&mut out, "!\nThis is offense #");
        push_i64(&mut out, new_count as i64);
        push_str(&mut out, " (next offense will be ");
        let nd = GokuPoll::format_duration(next);
        push_str(&mut out, nd.as_str());
        push_str(&mut out, ")");
        assert(out@ =~= goku_text(user_id, duration as nat, new_count, poll_duration(new_count)));
        string_of(&out)
    }
}

} // verus!
