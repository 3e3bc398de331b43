//! `/elk-invite`: a vote on letting a member into the elk-men role.
use vstd::prelude::*;
use crate::handlers::gulag::{first_named_role, Gulag};
use crate::handlers::{GuildRole, HandlerResponse};
use crate::text::{decimal, push_str, push_u64, string_of};

verus! {

pub struct ElkMen;

impl ElkMen {
    /// The guild's first role named `elk-men`.
    pub fn find_elkmen_role(roles: &Vec<GuildRole>) -> (r: Option<GuildRole>)
        ensures
            match first_named_role(roles@, "elk-men"@) {
                Some(i) => r matches Some(role) && role.id == roles@[i].id && role.name@
                    == roles@[i].name@,
                None => r is None,
            },
    {
        Gulag::find_role(roles, "elk-men")
    }

    /// The call to vote on a member joining the role.
    pub fn invite_prompt(member_id: u64, role_id: u64) -> (s: String)
        ensures
            s@ == "Should we add <@"@ + decimal(member_id as nat) + "> to the <@&"@ + decimal(role_id as nat)
                + ">?, You have 10 mins to vote"@,
    {
        let mut out: Vec<char> = Vec::new();
        push_str(&mut out, "Should we add <@");
        push_u64(&mut out, member_id);
        push_str(&mut out, "> to the <@&");
        push_u64(&mut out, role_id);
        push_str(&mut out, ">?, You have 10 mins to vote");
        assert(out@ =~= "Should we add <@"@ + decimal(member_id as nat) + "> to the <@&"@ + decimal(
            role_id as nat,
        ) + ">?, You have 10 mins to vote"@);
        string_of(&out)
    }

    /// The outcome of the vote: whether the member gets the role (more votes for than
    /// against) and the message announcing it.
    pub fn outcome(yay: u64, nay: u64, member_id: u64, role_id: u64) -> (r: (bool, String))
        ensures
            r.0 == (yay > nay),
            r.0 ==> r.1@ == "Welcome brother <@"@ + decimal(member_id as nat) + "> to the <@&"@ + decimal(
                role_id as nat,
            ) + ">!"@,
            !r.0 ==> r.1@ == "Sorry <@&"@ + decimal(role_id as nat) + ">, but <@"@ + decimal(
                member_id as nat,
            ) + "> didn't RISE to the occasion!"@,
    {
        let mut out: Vec<char> = Vec::new();
        if yay > nay {
            push_str(&mut out, "Welcome brother <@");
            push_u64(&mut out, member_id);
            push_str(&mut out, "> to the <@&");
            push_u64(&mut out, role_id);
            push_str(&mut out, ">!");
            assert(out@ =~= "Welcome brother <@"@ + decimal(member_id as nat) + "> to the <@&"@
                + decimal(role_id as nat) + ">!"@);
            (true, string_of(&out))
        } else {
            push_str(&mut out, "Sorry <@&");
            push_u64(&mut out, role_id);
            push_str(&mut out, ">, but <@");
            push_u64(&mut out, member_id);
            push_str(&mut out, "> didn't RISE to the occasion!");
            assert(out@ =~= "Sorry <@&"@ + decimal(role_id as nat) + ">, but <@"@ + decimal(
                member_id as nat,
            ) + "> didn't RISE to the occasion!"@);
            (false, string_of(&out))
        }
    }

    /// The reply once the vote is open.
    pub fn asking_reply() -> (r: HandlerResponse)
        ensures
            r.content@ == "Asking"@,
            r.components is None,
            r.ephemeral,
    {
        HandlerResponse::text(String::from_str("Asking"), true)
    }
}

} // verus!
