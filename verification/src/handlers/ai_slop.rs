//! "AI Slop": a moderator sends the author of a message to the gulag, for longer
//! with each offense.
use vstd::prelude::*;
use crate::handlers::gulag::{duration_string, duration_text, offense_duration, offense_seconds};
use crate::handlers::HandlerResponse;
use crate::text::{decimal, push_i64, push_str, push_u64, signed_decimal, string_of};

verus! {

pub struct AiSlopHandler;

/// Why a slop report was refused.
#[derive(Debug, Clone, Copy, PartialEq, Eq, Structural)]
pub enum AiSlopRefusal {
    Disabled,
    NotInGuild,
    CannotVerifyPermissions,
    NotPermitted,
    NoTargetMessage,
    SelfSlop,
    TargetIsBot,
    CannotVerifyBot,
    ServerNotConfigured,
    RecordFailed,
    CountTooHigh,
}

/// The reply for each refusal.
pub open spec fn refusal_text(r: AiSlopRefusal) -> Seq<char> {
    match r {
        AiSlopRefusal::Disabled => "This feature is currently disabled."@,
        AiSlopRefusal::NotInGuild => "Error: This command can only be used in a guild"@,
        AiSlopRefusal::CannotVerifyPermissions => "Error: Could not verify your permissions"@,
        AiSlopRefusal::NotPermitted => "Error: You need Highly Regarded or admin role to use this command"@,
        AiSlopRefusal::NoTargetMessage => "Error: Could not find target message"@,
        AiSlopRefusal::SelfSlop => "Error: You cannot AI Slop yourself!"@,
        AiSlopRefusal::TargetIsBot => "Error: You cannot AI Slop the bot!"@,
        AiSlopRefusal::CannotVerifyBot => "Error: Could not verify bot status"@,
        AiSlopRefusal::ServerNotConfigured => "Error: This server is not configured. Please ensure a gulag role exists."@,
        AiSlopRefusal::RecordFailed => "Error: Failed to record AI slop usage"@,
        AiSlopRefusal::CountTooHigh => "Error: Usage count too high for gulag calculation"@,
    }
}

impl AiSlopRefusal {
    /// The ephemeral reply for this refusal.
    pub fn reply(&self) -> (r: HandlerResponse)
        ensures
            r.content@ == refusal_text(*self),
            r.components is None,
            r.ephemeral,
    {
        let s = match self {
            AiSlopRefusal::Disabled => String::from_str("This feature is currently disabled."),
            AiSlopRefusal::NotInGuild => String::from_str("Error: This command can only be used in a guild"),
            AiSlopRefusal::CannotVerifyPermissions => String::from_str(
                "Error: Could not verify your permissions",
            ),
            AiSlopRefusal::NotPermitted => String::from_str(
                "Error: You need Highly Regarded or admin role to use this command",
            ),
            AiSlopRefusal::NoTargetMessage => String::from_str("Error: Could not find target message"),
            AiSlopRefusal::SelfSlop => String::from_str("Error: You cannot AI Slop yourself!"),
            AiSlopRefusal::TargetIsBot => String::from_str("Error: You cannot AI Slop the bot!"),
            AiSlopRefusal::CannotVerifyBot => String::from_str("Error: Could not verify bot status"),
            AiSlopRefusal::ServerNotConfigured => String::from_str(
                "Error: This server is not configured. Please ensure a gulag role exists.",
            ),
            AiSlopRefusal::RecordFailed => String::from_str("Error: Failed to record AI slop usage"),
            AiSlopRefusal::CountTooHigh => String::from_str(
                "Error: Usage count too high for gulag calculation",
            ),
        };
        HandlerResponse::text(s, true)
    }
}

/// The channel notice of a slop sentence.
pub open spec fn notice_text(target_id: u64, duration: nat, link: Seq<char>, new_count: i32) -> Seq<char> {
    "<@"@ + decimal(target_id as nat) + "> has been sent to the gulag for "@ + duration_text(duration)
        + " for posting AI slop: "@ + link + "\nThis is offense #"@ + signed_decimal(new_count as int)
}

/// The reply to the moderator.
pub open spec fn slop_reply_text(target_name: Seq<char>, duration: nat, new_count: i32, next: nat) -> Seq<char> {
    "Sent "@ + target_name + " to the gulag for "@ + duration_text(duration)
        + " for posting AI slop!\nThis is their offense #"@ + signed_decimal(new_count as int)
        + " (next offense will be "@ + duration_text(next) + ")"@
}

impl AiSlopHandler {
    /// Whether the author of the message may be reported by the invoker: not
    /// themselves, and not the bot (which must be known).
    pub fn check_target(target_id: u64, invoker_id: u64, target_is_bot: Option<bool>) -> (r: Result<(), AiSlopRefusal>)
        ensures
            r == (if target_id == invoker_id {
                Err::<(), AiSlopRefusal>(AiSlopRefusal::SelfSlop)
            } else {
                match target_is_bot {
                    Some(true) => Err::<(), AiSlopRefusal>(AiSlopRefusal::TargetIsBot),
                    Some(false) => Ok::<(), AiSlopRefusal>(()),
                    None => Err::<(), AiSlopRefusal>(AiSlopRefusal::CannotVerifyBot),
                }
            }),
    {
        if target_id == invoker_id {
            return Err(AiSlopRefusal::SelfSlop);
        }
        match target_is_bot {
            Some(true) => Err(AiSlopRefusal::TargetIsBot),
            Some(false) => Ok(()),
            None => Err(AiSlopRefusal::CannotVerifyBot),
        }
    }

    /// The sentence for this offense and the one the next offense would bring, given
    /// the offense count now recorded (this offense included).
    pub fn offense_durations(new_count: i32) -> (r: Result<(u64, u64), AiSlopRefusal>)
        ensures
            new_count < 1 ==> r == Err::<(u64, u64), AiSlopRefusal>(AiSlopRefusal::CountTooHigh),
            new_count >= 1 ==> r == Ok::<(u64, u64), AiSlopRefusal>(
                (
                    offense_duration((new_count - 1) as nat) as u64,
                    offense_duration(new_count as nat) as u64,
                ),
            ),
    {
        if new_count < 1 {
            return Err(AiSlopRefusal::CountTooHigh);
        }
        let this = offense_seconds((new_count - 1) as u64);
        let next = offense_seconds(new_count as u64);
        Ok((this, next))
    }

    /// The notice posted in the gulag channel.
    pub fn channel_notice(target_id: u64, duration: u64, message_link: &str, new_count: i32) -> (s: String)
        ensures
            s@ == notice_text(target_id, duration as nat, message_link@, new_count),
    {
        let mut out: Vec<char> = Vec::new();
        push_str(&mut out, "<@");
        push_u64(&mut out, target_id);
        push_str(&mut out, "> has been sent to the gulag for ");
        let d = duration_string(duration);
        push_str(&mut out, d.as_str());
        push_str(&mut out, " for posting AI slop: ");
        push_str(&mut out, message_link);
        push_str(&mut out, "\nThis is offense #");
        push_i64(&mut out, new_count as i64);
        assert(out@ =~= notice_text(target_id, duration as nat, message_link@, new_count));
        string_of(&out)
    }

    /// The ephemeral reply to the moderator.
    pub fn success_reply(target_name: &str, duration: u64, new_count: i32, next_duration: u64) -> (r: HandlerResponse)
        ensures
            r.content@ == slop_reply_text(target_name@, duration as nat, new_count, next_duration as nat),
            r.components is None,
            r.ephemeral,
    {
        let mut out: Vec<char> = Vec::new();
        push_str(&mut out, "Sent ");
        push_str(&mut out, target_name);
        push_str(&mut out, " to the gulag for ");
        let d = duration_string(duration);
        push_str(&mut out, d.as_str());
        push_str(&mut out, " for posting AI slop!\nThis is their offense #");
        push_i64(&mut out, new_count as i64);
        push_str(&mut out, " (next offense will be ");
        let nd = duration_string(next_duration);
        push_str(&mut out, nd.as_str());
        push_str(&mut out, ")");
        assert(out@ =~= slop_reply_text(target_name@, duration as nat, new_count, next_duration as nat));
        HandlerResponse::text(string_of(&out), true)
    }
}

} // verus!
