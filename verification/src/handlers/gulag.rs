//! The gulag: finding its role and channel, recording sentences, announcing them,
//! releasing prisoners and processing the votes that send someone there.
use vstd::prelude::*;
use crate::db::gulag::{add_time_to_gulag, send_to_gulag, GulagRecordError};
use crate::db::models::{GulagUser, NewGulagUser};
use crate::handlers::{holds_id, GuildChannel, GuildRole, HandlerResponse};
use vstd::arithmetic::power2::{pow2, lemma_pow2_unfold, lemma_pow2_strictly_increases};
use crate::text::{
    chars_of, contains_chars, decimal, has_substring, push_all, push_i64, push_str, push_u64,
    seq_eq, signed_decimal, string_of,
};

verus! {

pub struct Gulag;

/// A sentence to hand out.
#[derive(Debug, Clone, Copy)]
pub struct GulagParams {
    pub guildid: u64,
    pub userid: u64,
    pub gulag_roleid: u64,
    pub gulaglength: u32,
    pub channelid: u64,
    pub messageid: u64,
}

/// How a sentence is recorded: an existing one extended, or a new one.
#[derive(Debug, Clone, Copy)]
pub enum SentenceWrite {
    Extend(GulagUser),
    Create(NewGulagUser),
}

/// What to do with a prisoner's record once their release was attempted.
#[derive(Debug, Clone, Copy, PartialEq, Eq, Structural)]
pub struct ReleaseAction {
    /// Remove the sentence.
    pub delete_record: bool,
    /// Mark the vote that sent them as done.
    pub mark_vote_done: bool,
}

/// The index of the first item named `name`.
pub open spec fn first_named_role(roles: Seq<GuildRole>, name: Seq<char>) -> Option<int> {
    if exists|i: int| 0 <= i < roles.len() && (#[trigger] roles[i]).name@ == name {
        Some(choose|i: int| 0 <= i < roles.len() && roles[i].name@ == name && forall|j: int|
            0 <= j < i ==> (#[trigger] roles[j]).name@ != name)
    } else {
        None
    }
}

/// The index of the first channel named `name`.
pub open spec fn first_named_channel(channels: Seq<GuildChannel>, name: Seq<char>) -> Option<int> {
    if exists|i: int| 0 <= i < channels.len() && (#[trigger] channels[i]).name@ == name {
        Some(choose|i: int| 0 <= i < channels.len() && channels[i].name@ == name && forall|j: int|
            0 <= j < i ==> (#[trigger] channels[j]).name@ != name)
    } else {
        None
    }
}

/// The member holds the guild's first role named `name`.
pub open spec fn has_role_spec(member_roles: Seq<u64>, roles: Seq<GuildRole>, name: Seq<char>) -> bool {
    match first_named_role(roles, name) {
        Some(i) => member_roles.contains(roles[i].id),
        None => false,
    }
}

/// Integer division rounding towards zero, as Rust divides.
pub open spec fn div_trunc(n: int, d: int) -> int {
    if n >= 0 { n / d } else { -((-n) / d) }
}

/// The announcement of a sentence: who goes, for how long, for which message, how
/// long they have in all, and who voted them in, if anyone.
pub open spec fn announcement_text(
    user_id: u64,
    length_secs: u32,
    link: Seq<char>,
    total_secs: i32,
    voters: Option<Seq<u64>>,
) -> Seq<char> {
    "Sending <@"@ + decimal(user_id as nat) + "> to the Gulag for "@ + decimal((length_secs / 60) as nat)
        + " minutes because of "@ + link + ", they have "@ + signed_decimal(div_trunc(total_secs as int, 60))
        + " minutes remaining"@ + match voters {
        Some(v) => "\nThese people voted them in"@ + voter_list(v),
        None => Seq::<char>::empty(),
    }
}

/// `, <@id>` for each voter.
pub open spec fn voter_list(v: Seq<u64>) -> Seq<char>
    decreases v.len(),
{
    if v.len() == 0 {
        Seq::empty()
    } else {
        voter_list(v.drop_last()) + ", <@"@ + decimal(v.last() as nat) + ">"@
    }
}

/// `n / d` for `d > 0`, rounding towards zero.
fn div_trunc_i64(n: i64, d: i64) -> (r: i64)
    requires
        d > 0,
    ensures
        r == div_trunc(n as int, d as int),
{
    if n >= 0 {
        n / d
    } else {
        let m: u64 = if n == i64::MIN { 9223372036854775808u64 } else { (-n) as u64 };
        let q: u64 = m / (d as u64);
        assert(q <= 9223372036854775808u64 / 1) by (nonlinear_arith)
            requires
                q == m / (d as u64),
                m <= 9223372036854775808u64,
                d >= 1,
        ;
        assert(q < 9223372036854775808u64 || d == 1) by (nonlinear_arith)
            requires
                q == m / (d as u64),
                m <= 9223372036854775808u64,
                d >= 1,
        ;
        if q == 9223372036854775808u64 {
            i64::MIN
        } else {
            -(q as i64)
        }
    }
}

impl Gulag {
    /// An ephemeral reply reporting an error.
    pub fn send_error(err: &str) -> (r: HandlerResponse)
        ensures
            r.content@ == "Error: "@ + err@,
            r.components is None,
            r.ephemeral,
    {
        let mut out: Vec<char> = Vec::new();
        push_str(&mut out, "Error: ");
        push_str(&mut out, err);
        HandlerResponse::text(string_of(&out), true)
    }

    /// The guild's first role named `role_name`.
    pub fn find_role(roles: &Vec<GuildRole>, role_name: &str) -> (r: Option<GuildRole>)
        ensures
            match first_named_role(roles@, role_name@) {
                Some(i) => r matches Some(role) && role.id == roles@[i].id && role.name@
                    == roles@[i].name@,
                None => r is None,
            },
    {
        let name = chars_of(role_name);
        let mut i: usize = 0;
        while i < roles.len()
            invariant
                i <= roles.len(),
                name@ == role_name@,
                forall|j: int| 0 <= j < i ==> (#[trigger] roles@[j]).name@ != role_name@,
            decreases roles.len() - i,
        {
            let n = chars_of(roles[i].name.as_str());
            if seq_eq(&n, &name) {
                let ghost k = i as int;
                assert(0 <= k < roles.len() && (#[trigger] roles@[k]).name@ == role_name@);
                proof {
                    let c = choose|c: int| 0 <= c < roles@.len() && roles@[c].name@ == role_name@
                        && forall|j: int| 0 <= j < c ==> (#[trigger] roles@[j]).name@ != role_name@;
                    assert(c == k) by {
                        if c < k {
                        } else if c > k {
                            assert(roles@[k].name@ != role_name@);
                        }
                    }
                }
                return Some(GuildRole { id: roles[i].id, name: roles[i].name.clone() });
            }
            i += 1;
        }
        None
    }

    /// The guild's role named `gulag`.
    pub fn find_gulag_role(roles: &Vec<GuildRole>) -> (r: Option<GuildRole>)
        ensures
            match first_named_role(roles@, "gulag"@) {
                Some(i) => r matches Some(role) && role.id == roles@[i].id && role.name@
                    == roles@[i].name@,
                None => r is None,
            },
    {
        Gulag::find_role(roles, "gulag")
    }

    /// The guild's first channel named `channel_name`.
    pub fn find_channel(channels: &Vec<GuildChannel>, channel_name: &str) -> (r: Option<GuildChannel>)
        ensures
            match first_named_channel(channels@, channel_name@) {
                Some(i) => r matches Some(c) && c.id == channels@[i].id && c.name@
                    == channels@[i].name@,
                None => r is None,
            },
    {
        let name = chars_of(channel_name);
        let mut i: usize = 0;
        while i < channels.len()
            invariant
                i <= channels.len(),
                name@ == channel_name@,
                forall|j: int| 0 <= j < i ==> (#[trigger] channels@[j]).name@ != channel_name@,
            decreases channels.len() - i,
        {
            let n = chars_of(channels[i].name.as_str());
            if seq_eq(&n, &name) {
                let ghost k = i as int;
                assert(0 <= k < channels.len() && (#[trigger] channels@[k]).name@ == channel_name@);
                proof {
                    let c = choose|c: int| 0 <= c < channels@.len() && channels@[c].name@
                        == channel_name@ && forall|j: int| 0 <= j < c ==> (
                    #[trigger] channels@[j]).name@ != channel_name@;
                    assert(c == k) by {
                        if c < k {
                        } else if c > k {
                            assert(channels@[k].name@ != channel_name@);
                        }
                    }
                }
                return Some(GuildChannel { id: channels[i].id, name: channels[i].name.clone() });
            }
            i += 1;
        }
        None
    }

    /// Whether the member holds the guild's role named `role_name`.
    pub fn member_has_role(member_roles: &Vec<u64>, roles: &Vec<GuildRole>, role_name: &str) -> (b: bool)
        ensures
            b == has_role_spec(member_roles@, roles@, role_name@),
    {
        match Gulag::find_role(roles, role_name) {
            Some(role) => holds_id(member_roles, role.id),
            None => false,
        }
    }

    /// Whether the member holds one of the guild's roles named in `role_names`.
    pub fn member_has_any_role(member_roles: &Vec<u64>, roles: &Vec<GuildRole>, role_names: &Vec<String>) -> (b: bool)
        ensures
            b == exists|k: int| 0 <= k < role_names@.len() && has_role_spec(
                member_roles@,
                roles@,
                (#[trigger] role_names@[k])@,
            ),
    {
        let mut k: usize = 0;
        while k < role_names.len()
            invariant
                k <= role_names.len(),
                forall|j: int| 0 <= j < k ==> !has_role_spec(
                    member_roles@,
                    roles@,
                    (#[trigger] role_names@[j])@,
                ),
            decreases role_names.len() - k,
        {
            if Gulag::member_has_role(member_roles, roles, role_names[k].as_str()) {
                assert(has_role_spec(member_roles@, roles@, role_names@[k as int]@));
                return true;
            }
            k += 1;
        }
        false
    }

    /// Whether `user_id` is the bot itself; unknown when the bot's own id could not
    /// be read.
    pub fn is_tugbot(current_user_id: Option<u64>, user_id: u64) -> (r: Option<bool>)
        ensures
            r == match current_user_id {
                Some(me) => Some(me == user_id),
                None => None::<bool>,
            },
    {
        match current_user_id {
            Some(me) => Some(me == user_id),
            None => None,
        }
    }

    /// The first recorded sentence of `user_id`.
    pub fn is_user_in_gulag(sentences: &Vec<GulagUser>, user_id: u64) -> (r: Option<GulagUser>)
        ensures
            match r {
                Some(u) => exists|i: int| 0 <= i < sentences@.len() && sentences@[i] == u
                    && u.user_id == user_id as i64 && forall|j: int| 0 <= j < i ==> (
                #[trigger] sentences@[j]).user_id != user_id as i64,
                None => forall|j: int| 0 <= j < sentences@.len() ==> (
                #[trigger] sentences@[j]).user_id != user_id as i64,
            },
    {
        let key: i64 = user_id as i64;
        let mut i: usize = 0;
        while i < sentences.len()
            invariant
                i <= sentences.len(),
                key == user_id as i64,
                forall|j: int| 0 <= j < i ==> (#[trigger] sentences@[j]).user_id != key,
            decreases sentences.len() - i,
        {
            if sentences[i].user_id == key {
                return Some(sentences[i]);
            }
            i += 1;
        }
        None
    }

    /// How a sentence is recorded: a prisoner's existing sentence grows by the new
    /// length, in total and in release time; anyone else gets a new sentence starting
    /// at `now`.
    pub fn add_to_gulag(existing: Option<GulagUser>, params: &GulagParams, now: u64) -> (r: Result<SentenceWrite, GulagRecordError>)
        requires
            params.gulaglength <= i32::MAX,
            existing matches Some(u) ==> u.gulag_length + params.gulaglength <= i32::MAX
                && u.gulag_length + params.gulaglength >= i32::MIN && u.release_at
                + params.gulaglength <= u64::MAX,
            existing is None ==> now + params.gulaglength <= u64::MAX,
        ensures
            match existing {
                Some(u) => r matches Ok(SentenceWrite::Extend(v)) && v == GulagUser {
                    gulag_length: (u.gulag_length + params.gulaglength) as i32,
                    release_at: (u.release_at + params.gulaglength) as u64,
                    ..u
                },
                None => r matches Ok(SentenceWrite::Create(n)) && n == NewGulagUser {
                    user_id: params.userid as i64,
                    guild_id: params.guildid as i64,
                    gulag_role_id: params.gulag_roleid as i64,
                    channel_id: params.channelid as i64,
                    in_gulag: true,
                    gulag_length: params.gulaglength as i32,
                    created_at: now,
                    release_at: (now + params.gulaglength) as u64,
                    remod: false,
                    message_id: params.messageid as i64,
                },
            },
    {
        let length: i32 = params.gulaglength as i32;
        match existing {
            Some(u) => match add_time_to_gulag(u, u.gulag_length + length, length, u.release_at) {
                Ok(v) => Ok(SentenceWrite::Extend(v)),
                Err(e) => Err(e),
            },
            None => match send_to_gulag(
                params.userid as i64,
                params.guildid as i64,
                params.gulag_roleid as i64,
                length,
                params.channelid as i64,
                params.messageid as i64,
                now,
            ) {
                Ok(n) => Ok(SentenceWrite::Create(n)),
                Err(e) => Err(e),
            },
        }
    }

    /// The announcement posted in the gulag channel when someone is sent there.
    pub fn announcement(
        user_id: u64,
        gulaglength: u32,
        message_link: &str,
        total_length: i32,
        voters: &Option<Vec<u64>>,
    ) -> (s: String)
        ensures
            s@ == announcement_text(
                user_id,
                gulaglength,
                message_link@,
                total_length,
                match voters {
                    Some(v) => Some(v@),
                    None => None,
                },
            ),
    {
        let mut out: Vec<char> = Vec::new();
        push_str(&mut out, "Sending <@");
        push_u64(&mut out, user_id);
        push_str(&mut out, "> to the Gulag for ");
        push_u64(&mut out, (gulaglength / 60) as u64);
        push_str(&mut out, " minutes because of ");
        push_str(&mut out, message_link);
        push_str(&mut out, ", they have ");
        push_i64(&mut out, div_trunc_i64(total_length as i64, 60));
        push_str(&mut out, " minutes remaining");
        let ghost head = out@;
        match voters {
            Some(v) => {
                push_str(&mut out, "\nThese people voted them in");
                let ghost mid = out@;
                let mut i: usize = 0;
                assert(v@.take(0) =~= Seq::<u64>::empty());
                while i < v.len()
                    invariant
                        i <= v.len(),
                        out@ == mid + voter_list(v@.take(i as int)),
                    decreases v.len() - i,
                {
                    assert(v@.take(i + 1).drop_last() =~= v@.take(i as int));
                    push_str(&mut out, ", <@");
                    push_u64(&mut out, v[i]);
                    push_str(&mut out, ">");
                    assert(out@ =~= mid + voter_list(v@.take(i + 1)));
                    i += 1;
                }
                assert(v@.take(i as int) =~= v@);
            },
            None => {},
        }
        assert(out@ =~= announcement_text(
            user_id,
            gulaglength,
            message_link@,
            total_length,
            match voters {
                Some(v) => Some(v@),
                None => None,
            },
        ));
        string_of(&out)
    }

    /// The message posted when someone is let out.
    pub fn freeing_message(user_id: u64) -> (s: String)
        ensures
            s@ == "Freeing <@"@ + decimal(user_id as nat) + "> from the gulag"@,
    {
        let mut out: Vec<char> = Vec::new();
        push_str(&mut out, "Freeing <@");
        push_u64(&mut out, user_id);
        push_str(&mut out, "> from the gulag");
        assert(out@ =~= "Freeing <@"@ + decimal(user_id as nat) + "> from the gulag"@);
        string_of(&out)
    }

    /// What to do with a due sentence once its release was tried: when it worked,
    /// drop the sentence and close the vote behind it (if a message started it);
    /// when the guild or message is gone for good, drop the sentence; otherwise keep
    /// it to try again. `failure` is the text of the error, if the release failed.
    pub fn release_action(failure: Option<&str>, message_id: i64) -> (r: ReleaseAction)
        ensures
            match failure {
                None => r == ReleaseAction { delete_record: true, mark_vote_done: message_id != 0 },
                Some(e) => r == ReleaseAction {
                    delete_record: crate::db::gulag::release_error_drops_spec(e@),
                    mark_vote_done: false,
                },
            },
    {
        match failure {
            None => ReleaseAction { delete_record: true, mark_vote_done: message_id != 0 },
            Some(e) => ReleaseAction {
                delete_record: crate::db::gulag::release_error_drops(e),
                mark_vote_done: false,
            },
        }
    }

    /// Whether a reaction, as displayed, is the gulag emoji that a vote leaves behind.
    pub fn is_gulag_reaction(reaction: &str) -> (b: bool)
        ensures
            b == has_substring(reaction@, ":gulag"@),
    {
        let r = chars_of(reaction);
        let p = chars_of(":gulag");
        contains_chars(&r, &p)
    }
}

// ---------------------------------------------------------------------------
// /gulag
// ---------------------------------------------------------------------------

pub struct GulagHandler;

/// Why a sentence length was refused.
#[derive(Debug, Clone, Copy, PartialEq, Eq, Structural)]
pub enum GulagLengthError {
    NotPositive,
    TooLong,
}

/// Longest sentence, in minutes: one week.
pub const MAX_GULAG_MINUTES: i64 = 10080;

/// Sentence length when none is given, in seconds.
pub const DEFAULT_GULAG_SECS: u32 = 300;

impl GulagLengthError {
    /// The reply for this refusal.
    pub fn message(&self) -> (s: String)
        ensures
            s@ == match *self {
                GulagLengthError::NotPositive => "Gulag length must be positive"@,
                GulagLengthError::TooLong => "Gulag length cannot exceed 10080 minutes (1 week)"@,
            },
    {
        match self {
            GulagLengthError::NotPositive => String::from_str("Gulag length must be positive"),
            GulagLengthError::TooLong => String::from_str(
                "Gulag length cannot exceed 10080 minutes (1 week)",
            ),
        }
    }
}

impl GulagHandler {
    /// The sentence in seconds for a length given in minutes: 1 to 10080 minutes are
    /// accepted; five minutes when the length is not an integer (`None`).
    pub fn parse_length(minutes: Option<i64>) -> (r: Result<u32, GulagLengthError>)
        ensures
            match minutes {
                None => r == Ok::<u32, GulagLengthError>(DEFAULT_GULAG_SECS),
                Some(m) => if m <= 0 {
                    r == Err::<u32, GulagLengthError>(GulagLengthError::NotPositive)
                } else if m > MAX_GULAG_MINUTES {
                    r == Err::<u32, GulagLengthError>(GulagLengthError::TooLong)
                } else {
                    r == Ok::<u32, GulagLengthError>((m * 60) as u32)
                },
            },
    {
        match minutes {
            None => Ok(DEFAULT_GULAG_SECS),
            Some(m) => if m <= 0 {
                Err(GulagLengthError::NotPositive)
            } else if m > MAX_GULAG_MINUTES {
                Err(GulagLengthError::TooLong)
            } else {
                Ok((m * 60) as u32)
            },
        }
    }

    /// The public reply once someone is sentenced: who, for how many minutes in all,
    /// and why, when a reason was given as text.
    pub fn confirmation(user_id: u64, total_length: i32, reason: Option<&str>) -> (r: HandlerResponse)
        ensures
            r.content@ == "Sending "@ + decimal(user_id as nat) + " to the Gulag for "@ + signed_decimal(
                div_trunc(total_length as int, 60),
            ) + " minutes"@ + match reason {
                Some(t) => ", because "@ + t@,
                None => Seq::<char>::empty(),
            },
            r.components is None,
            !r.ephemeral,
    {
        let mut out: Vec<char> = Vec::new();
        push_str(&mut out, "Sending ");
        push_u64(&mut out, user_id);
        push_str(&mut out, " to the Gulag for ");
        push_i64(&mut out, div_trunc_i64(total_length as i64, 60));
        push_str(&mut out, " minutes");
        match reason {
            Some(t) => {
                push_str(&mut out, ", because ");
                push_str(&mut out, t);
            },
            None => {},
        }
        let s = string_of(&out);
        proof {
            let expected = "Sending "@ + decimal(user_id as nat) + " to the Gulag for "@ + signed_decimal(
                div_trunc(total_length as int, 60),
            ) + " minutes"@ + match reason {
                Some(t) => ", because "@ + t@,
                None => Seq::<char>::empty(),
            };
            assert(s@ =~= expected);
        }
        HandlerResponse::text(s, false)
    }
}

// ---------------------------------------------------------------------------
// /gulag-list
// ---------------------------------------------------------------------------

pub struct GulagListHandler;

/// How a sentence's release stands at `now`: the time left (as a duration is
/// printed: whole seconds, or `0ns` for none), or how long it is overdue.
pub open spec fn time_info_text(release_at: u64, now: u64) -> Seq<char> {
    if release_at >= now {
        "releases in "@ + if release_at > now {
            decimal((release_at - now) as nat) + "s"@
        } else {
            "0ns"@
        }
    } else {
        "overdue for release ("@ + decimal((now - release_at) as nat) + "s ago)"@
    }
}

/// The lines of the prisoners among `sentences`.
pub open spec fn prisoner_lines(sentences: Seq<GulagUser>, now: u64) -> Seq<char>
    decreases sentences.len(),
{
    if sentences.len() == 0 {
        Seq::empty()
    } else {
        prisoner_lines(sentences.drop_last(), now) + if sentences.last().in_gulag {
            "\n<@"@ + decimal(sentences.last().user_id as u64 as nat) + "> - "@ + time_info_text(
                sentences.last().release_at,
                now,
            )
        } else {
            Seq::<char>::empty()
        }
    }
}

impl GulagListHandler {
    /// How a release time stands at `now`.
    pub fn format_time_info(release_at: u64, now: u64) -> (s: String)
        ensures
            s@ == time_info_text(release_at, now),
    {
        let mut out: Vec<char> = Vec::new();
        if release_at >= now {
            push_str(&mut out, "releases in ");
            if release_at > now {
                push_u64(&mut out, release_at - now);
                push_str(&mut out, "s");
            } else {
                push_str(&mut out, "0ns");
            }
        } else {
            push_str(&mut out, "overdue for release (");
            push_u64(&mut out, now - release_at);
            push_str(&mut out, "s ago)");
        }
        assert(out@ =~= time_info_text(release_at, now));
        string_of(&out)
    }

    /// The list of everyone in the gulag, with their release times, or a note that
    /// nobody is.
    pub fn list_reply(sentences: &Vec<GulagUser>, now: u64) -> (r: HandlerResponse)
        ensures
            (forall|i: int| 0 <= i < sentences@.len() ==> !(#[trigger] sentences@[i]).in_gulag)
                ==> r.content@ == "No users currently in the Gulag."@,
            (exists|i: int| 0 <= i < sentences@.len() && (#[trigger] sentences@[i]).in_gulag)
                ==> r.content@ == "Users in the Gulag:"@ + prisoner_lines(sentences@, now),
            r.components is None,
            r.ephemeral,
    {
        let mut out: Vec<char> = Vec::new();
        let mut any = false;
        let mut i: usize = 0;
        assert(sentences@.take(0) =~= Seq::<GulagUser>::empty());
        while i < sentences.len()
            invariant
                i <= sentences.len(),
                out@ == prisoner_lines(sentences@.take(i as int), now),
                any == exists|j: int| 0 <= j < i && (#[trigger] sentences@[j]).in_gulag,
            decreases sentences.len() - i,
        {
            assert(sentences@.take(i + 1).drop_last() =~= sentences@.take(i as int));
            let u = sentences[i];
            if u.in_gulag {
                push_str(&mut out, "\n<@");
                push_u64(&mut out, u.user_id as u64);
                push_str(&mut out, "> - ");
                let info = GulagListHandler::format_time_info(u.release_at, now);
                push_str(&mut out, info.as_str());
                any = true;
            }
            assert(out@ =~= prisoner_lines(sentences@.take(i + 1), now));
            i += 1;
        }
        assert(sentences@.take(i as int) =~= sentences@);
        if !any {
            return HandlerResponse::text(String::from_str("No users currently in the Gulag."), true);
        }
        let mut full: Vec<char> = Vec::new();
        push_str(&mut full, "Users in the Gulag:");
        push_all(&mut full, &out);
        HandlerResponse::text(string_of(&full), true)
    }
}

// ---------------------------------------------------------------------------
// /gulag-vote
// ---------------------------------------------------------------------------

pub struct GulagVoteHandler;

/// A reaction on a message: its emoji when a unicode one, and how many reacted.
#[derive(Debug, Clone)]
pub struct ReactionCount {
    pub unicode: Option<String>,
    pub count: u64,
}

/// The votes of the last reaction with the emoji `e`, the bot's own left out; 0
/// without one.
pub open spec fn votes_for(reactions: Seq<ReactionCount>, e: Seq<char>) -> int
    decreases reactions.len(),
{
    if reactions.len() == 0 {
        0
    } else if reactions.last().unicode matches Some(u) && u@ == e {
        reactions.last().count - 1
    } else {
        votes_for(reactions.drop_last(), e)
    }
}

/// Every reaction with the emoji `e` was counted at least once.
pub open spec fn counted(reactions: Seq<ReactionCount>, e: Seq<char>) -> bool {
    forall|i: int| 0 <= i < reactions.len() ==> ((#[trigger] reactions[i]).unicode matches Some(u)
        && u@ == e ==> reactions[i].count >= 1)
}

/// Whether a reaction shows the emoji `e`.
fn shows(r: &ReactionCount, e: &Vec<char>) -> (b: bool)
    ensures
        b == (r.unicode matches Some(u) && u@ == e@),
{
    match &r.unicode {
        Some(u) => {
            let v = chars_of(u.as_str());
            seq_eq(&v, e)
        },
        None => false,
    }
}

impl GulagVoteHandler {
    /// The call to vote on sending a member to the gulag, addressed to the jury.
    pub fn vote_prompt(member_id: u64, gulag_role_id: u64, jury_role_id: u64) -> (s: String)
        ensures
            s@ == "Should we add <@"@ + decimal(member_id as nat) + "> to the <@&"@ + decimal(
                gulag_role_id as nat,
            ) + ">?\n<@&"@ + decimal(jury_role_id as nat) + "> you have 10 mins to vote"@,
    {
        let mut out: Vec<char> = Vec::new();
        push_str(&mut out, "Should we add <@");
        push_u64(&mut out, member_id);
        push_str(&mut out, "> to the <@&");
        push_u64(&mut out, gulag_role_id);
        push_str(&mut out, ">?\n<@&");
        push_u64(&mut out, jury_role_id);
        push_str(&mut out, "> you have 10 mins to vote");
        assert(out@ =~= "Should we add <@"@ + decimal(member_id as nat) + "> to the <@&"@ + decimal(
            gulag_role_id as nat,
        ) + ">?\n<@&"@ + decimal(jury_role_id as nat) + "> you have 10 mins to vote"@);
        string_of(&out)
    }

    /// The votes for and against, from the thumbs-up and thumbs-down reactions.
    pub fn tally(reactions: &Vec<ReactionCount>) -> (r: (u64, u64))
        requires
            counted(reactions@, "\u{1F44D}"@),
            counted(reactions@, "\u{1F44E}"@),
        ensures
            r.0 == votes_for(reactions@, "\u{1F44D}"@),
            r.1 == votes_for(reactions@, "\u{1F44E}"@),
    {
        let up = chars_of("\u{1F44D}");
        let down = chars_of("\u{1F44E}");
        let mut yay: u64 = 0;
        let mut nay: u64 = 0;
        let mut i: usize = 0;
        assert(reactions@.take(0) =~= Seq::<ReactionCount>::empty());
        while i < reactions.len()
            invariant
                i <= reactions.len(),
                up@ == "\u{1F44D}"@,
                down@ == "\u{1F44E}"@,
                counted(reactions@, "\u{1F44D}"@),
                counted(reactions@, "\u{1F44E}"@),
                yay == votes_for(reactions@.take(i as int), "\u{1F44D}"@),
                nay == votes_for(reactions@.take(i as int), "\u{1F44E}"@),
            decreases reactions.len() - i,
        {
            assert(reactions@.take(i + 1).drop_last() =~= reactions@.take(i as int));
            assert(reactions@.take(i + 1).last() == reactions@[i as int]);
            if shows(&reactions[i], &up) {
                yay = reactions[i].count - 1;
            }
            if shows(&reactions[i], &down) {
                nay = reactions[i].count - 1;
            }
            i += 1;
        }
        assert(reactions@.take(i as int) =~= reactions@);
        (yay, nay)
    }

    /// The vote message once closed, with its totals.
    pub fn result_message(original: &str, yay: u64, nay: u64) -> (s: String)
        ensures
            s@ == original@ + "\nVote over, totals;\nYes: "@ + decimal(yay as nat) + "\nNo: "@ + decimal(
                nay as nat,
            ),
    {
        let mut out: Vec<char> = Vec::new();
        push_str(&mut out, original);
        push_str(&mut out, "\nVote over, totals;\nYes: ");
        push_u64(&mut out, yay);
        push_str(&mut out, "\nNo: ");
        push_u64(&mut out, nay);
        assert(out@ =~= original@ + "\nVote over, totals;\nYes: "@ + decimal(yay as nat) + "\nNo: "@
            + decimal(nay as nat));
        string_of(&out)
    }

    /// A vote carries when more voted for than against.
    pub fn carried(yay: u64, nay: u64) -> (b: bool)
        ensures
            b == (yay > nay),
    {
        yay > nay
    }
}

// ---------------------------------------------------------------------------
// "Add Gulag Vote" and the gulag reaction
// ---------------------------------------------------------------------------

pub struct GulagMessageCommandHandler;

impl GulagMessageCommandHandler {
    /// The reply once a vote on a message was added or withdrawn.
    pub fn vote_reply(added: bool, message_link: &str, tally: i32) -> (r: HandlerResponse)
        ensures
            r.content@ == (if added {
                "A gulag vote has been added to "@
            } else {
                "A gulag vote has been removed from "@
            }) + message_link@ + "\nThere are now "@ + signed_decimal(tally as int) + " unique votes total"@,
            r.components is None,
            r.ephemeral,
    {
        let mut out: Vec<char> = Vec::new();
        if added {
            push_str(&mut out, "A gulag vote has been added to ");
        } else {
            push_str(&mut out, "A gulag vote has been removed from ");
        }
        push_str(&mut out, message_link);
        push_str(&mut out, "\nThere are now ");
        push_i64(&mut out, tally as i64);
        push_str(&mut out, " unique votes total");
        let s = string_of(&out);
        assert(s@ =~= (if added {
            "A gulag vote has been added to "@
        } else {
            "A gulag vote has been removed from "@
        }) + message_link@ + "\nThere are now "@ + signed_decimal(tally as int) + " unique votes total"@);
        HandlerResponse::text(s, true)
    }
}

pub struct GulagReaction;

/// Users fetched per page of reactions.
pub const REACTION_PAGE_SIZE: usize = 100;

/// Most pages of reactions fetched.
pub const MAX_REACTION_PAGES: u8 = 50;

/// A user who reacted, and whether it is a bot.
#[derive(Debug, Clone, Copy)]
pub struct Reactor {
    pub id: u64,
    pub bot: bool,
}

impl GulagReaction {
    /// Whether an emoji, as displayed, is a gulag emoji.
    pub fn is_gulag_emoji(emoji: &str) -> (b: bool)
        ensures
            b == has_substring(emoji@, "gulag"@),
    {
        let r = chars_of(emoji);
        let p = chars_of("gulag");
        contains_chars(&r, &p)
    }

    /// Where the next page of reactors starts: after the last one of a full page,
    /// unless this was the last page allowed.
    pub fn next_voter_page(page_num: u8, page_len: usize, last_id: Option<u64>) -> (r: Option<u64>)
        ensures
            r == (if page_len < REACTION_PAGE_SIZE || page_num + 1 >= MAX_REACTION_PAGES {
                None
            } else {
                last_id
            }),
    {
        if page_len < REACTION_PAGE_SIZE || page_num as u16 + 1 >= MAX_REACTION_PAGES as u16 {
            None
        } else {
            last_id
        }
    }

    /// The ids of the users who reacted, bots left out, in order.
    pub fn voter_ids(reactors: &Vec<Reactor>) -> (r: Vec<i64>)
        ensures
            r@ == reactors@.filter_map(|u: Reactor| if u.bot { None } else { Some(u.id as i64) }),
    {
        let ghost f = |u: Reactor| if u.bot { None } else { Some(u.id as i64) };
        let mut r: Vec<i64> = Vec::new();
        let mut i: usize = 0;
        assert(reactors@.take(0) =~= Seq::<Reactor>::empty());
        assert(r@ =~= reactors@.take(0).filter_map(f));
        while i < reactors.len()
            invariant
                i <= reactors.len(),
                f == (|u: Reactor| if u.bot { None } else { Some(u.id as i64) }),
                r@ == reactors@.take(i as int).filter_map(f),
            decreases reactors.len() - i,
        {
            assert(reactors@.take(i + 1).drop_last() =~= reactors@.take(i as int));
            assert(reactors@.take(i + 1).last() == reactors@[i as int]);
            if !reactors[i].bot {
                let ghost r0 = r@;
                r.push(reactors[i].id as i64);
                assert(r@ =~= r0 + seq![reactors@[i as int].id as i64]);
            }
            i += 1;
        }
        assert(reactors@.take(i as int) =~= reactors@);
        r
    }

    /// The first of the guild's emojis named `gulag`, by position.
    pub fn find_emoji(emoji_names: &Vec<String>) -> (r: Option<usize>)
        ensures
            match r {
                Some(i) => i < emoji_names@.len() && emoji_names@[i as int]@ == "gulag"@ && forall|j: int|
                    0 <= j < i ==> (#[trigger] emoji_names@[j])@ != "gulag"@,
                None => forall|j: int| 0 <= j < emoji_names@.len() ==> (#[trigger] emoji_names@[j])@
                    != "gulag"@,
            },
    {
        let g = chars_of("gulag");
        let mut i: usize = 0;
        while i < emoji_names.len()
            invariant
                i <= emoji_names.len(),
                g@ == "gulag"@,
                forall|j: int| 0 <= j < i ==> (#[trigger] emoji_names@[j])@ != "gulag"@,
            decreases emoji_names.len() - i,
        {
            let n = chars_of(emoji_names[i].as_str());
            if seq_eq(&n, &g) {
                return Some(i);
            }
            i += 1;
        }
        None
    }
}

// ---------------------------------------------------------------------------
// Escalating sentences
// ---------------------------------------------------------------------------

/// The longest escalated sentence: 30 days, in seconds.
pub const MAX_OFFENSE_SECS: u64 = 2_592_000;

/// The first escalated sentence: 30 minutes, in seconds.
pub const BASE_OFFENSE_SECS: u64 = 1800;

/// The sentence for offense number `n` (counted from 0): 30 minutes doubled for each
/// earlier offense, capped at 30 days.
pub open spec fn offense_duration(n: nat) -> nat {
    let d: nat = (BASE_OFFENSE_SECS * pow2(n)) as nat;
    if d < MAX_OFFENSE_SECS { d } else { MAX_OFFENSE_SECS as nat }
}

/// A length of time in its largest units: days and hours, hours and minutes, or minutes.
pub open spec fn duration_text(secs: nat) -> Seq<char> {
    let minutes = secs / 60;
    let hours = minutes / 60;
    let days = hours / 24;
    if days > 0 {
        if hours % 24 > 0 {
            decimal(days) + " days "@ + decimal(hours % 24) + " hours"@
        } else {
            decimal(days) + " days"@
        }
    } else if hours > 0 {
        if minutes % 60 > 0 {
            decimal(hours) + " hours "@ + decimal(minutes % 60) + " minutes"@
        } else {
            decimal(hours) + " hours"@
        }
    } else {
        decimal(minutes) + " minutes"@
    }
}

/// Later offenses are punished at least as hard as earlier ones.
pub proof fn lemma_offense_duration_monotone(a: nat, b: nat)
    requires
        a <= b,
    ensures
        offense_duration(a) <= offense_duration(b),
{
    if a < b {
        lemma_pow2_strictly_increases(a, b);
    }
}

/// No escalated sentence exceeds 30 days, and the first is 30 minutes.
pub proof fn lemma_offense_duration_bounds(n: nat)
    ensures
        offense_duration(n) <= MAX_OFFENSE_SECS,
        offense_duration(0) == BASE_OFFENSE_SECS,
{
    assert(pow2(0) == 1) by {
        vstd::arithmetic::power2::lemma2_to64();
    }
}

/// The sentence for offense number `n`.
pub fn offense_seconds(n: u64) -> (r: u64)
    ensures
        r == offense_duration(n as nat),
{
    let mut d: u64 = BASE_OFFENSE_SECS;
    let mut i: u64 = 0;
    proof {
        vstd::arithmetic::power2::lemma2_to64();
    }
    while i < n && d < MAX_OFFENSE_SECS
        invariant
            i <= n,
            d == BASE_OFFENSE_SECS * pow2(i as nat),
            d <= 2 * MAX_OFFENSE_SECS,
        decreases n - i,
    {
        proof {
            lemma_pow2_unfold((i + 1) as nat);
        }
        d = d * 2;
        i = i + 1;
    }
    if d >= MAX_OFFENSE_SECS {
        proof {
            if i < n {
                lemma_pow2_strictly_increases(i as nat, n as nat);
            }
        }
        MAX_OFFENSE_SECS
    } else {
        d
    }
}

/// A length of time in its largest units.
pub fn duration_string(seconds: u64) -> (s: String)
    ensures
        s@ == duration_text(seconds as nat),
{
    let minutes = seconds / 60;
    let hours = minutes / 60;
    let days = hours / 24;
    let mut out: Vec<char> = Vec::new();
    if days > 0 {
        push_u64(&mut out, days);
        if hours % 24 > 0 {
            push_str(&mut out, " days ");
            push_u64(&mut out, hours % 24);
            push_str(&mut out, " hours");
        } else {
            push_str(&mut out, " days");
        }
    } else if hours > 0 {
        push_u64(&mut out, hours);
        if minutes % 60 > 0 {
            push_str(&mut out, " hours ");
            push_u64(&mut out, minutes % 60);
            push_str(&mut out, " minutes");
        } else {
            push_str(&mut out, " hours");
        }
    } else {
        push_u64(&mut out, minutes);
        push_str(&mut out, " minutes");
    }
    assert(out@ =~= duration_text(seconds as nat));
    string_of(&out)
}

impl Gulag {
    /// The sentence, in seconds, for offense number `offense` (counted from 0).
    pub fn get_gulag_duration_for_offense(offense: u32) -> (r: u64)
        ensures
            r == offense_duration(offense as nat),
    {
        offense_seconds(offense as u64)
    }

    /// A sentence length in its largest units.
    pub fn format_duration(seconds: u64) -> (s: String)
        ensures
            s@ == duration_text(seconds as nat),
    {
        duration_string(seconds)
    }
}

} // verus!
