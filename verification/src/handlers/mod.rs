//! The bot's handlers: what each one decides, computes and answers.
pub mod ai_slop;
pub mod bsky;
pub mod colors;
pub mod cull;
pub mod derpies;
pub mod elkmen;
pub mod elon;
pub mod feat;
pub mod game_handler;
pub mod games;
pub mod goku_poll;
pub mod greasy;
pub mod gulag;
pub mod helpers;
pub mod horny;
pub mod instagram;
pub mod is_this_real;
pub mod mention;
pub mod nickname;
pub mod prefix_handler;
pub mod reactions;
pub mod roles;
pub mod teh;
pub mod tiktok;
pub mod twitter;

use vstd::prelude::*;
use crate::text::{chars_of, decimal, has_prefix, matches_at, push_str, push_u64, seq_eq, string_of};

verus! {

/// A role of a guild, by id and name.
#[derive(Debug, Clone)]
pub struct GuildRole {
    pub id: u64,
    pub name: String,
}

/// A channel of a guild, by id and name.
#[derive(Debug, Clone)]
pub struct GuildChannel {
    pub id: u64,
    pub name: String,
}

/// One choice of a select menu.
#[derive(Debug, Clone)]
pub struct MenuOption {
    pub label: String,
    pub value: u64,
}

/// A select menu attached to a reply.
#[derive(Debug, Clone)]
pub struct SelectMenu {
    pub custom_id: String,
    pub placeholder: String,
    pub options: Vec<MenuOption>,
}

/// The reply to a slash command.
#[derive(Debug, Clone)]
pub struct HandlerResponse {
    pub content: String,
    pub components: Option<SelectMenu>,
    pub ephemeral: bool,
}

/// Whether `ids` holds `x`.
pub fn holds_id(ids: &Vec<u64>, x: u64) -> (b: bool)
    ensures
        b == ids@.contains(x),
{
    let mut i: usize = 0;
    while i < ids.len()
        invariant
            i <= ids.len(),
            forall|k: int| 0 <= k < i ==> ids@[k] != x,
        decreases ids.len() - i,
    {
        if ids[i] == x {
            return true;
        }
        i += 1;
    }
    false
}

impl HandlerResponse {
    /// A reply with the given text and no components.
    pub fn text(content: String, ephemeral: bool) -> (r: HandlerResponse)
        ensures
            r.content@ == content@,
            r.components is None,
            r.ephemeral == ephemeral,
    {
        HandlerResponse { content, components: None, ephemeral }
    }
}

/// The names and ids of the roles whose name begins with `prefix`, in order.
pub open spec fn prefixed_roles(roles: Seq<GuildRole>, prefix: Seq<char>) -> Seq<(Seq<char>, u64)> {
    roles.filter_map(|r: GuildRole| if has_prefix(r.name@, prefix) { Some((r.name@, r.id)) } else { None })
}

/// The names and ids of some roles.
pub open spec fn role_views(roles: Seq<GuildRole>) -> Seq<(Seq<char>, u64)> {
    roles.map_values(|r: GuildRole| (r.name@, r.id))
}

/// The roles whose name begins with `prefix`, in order.
pub fn roles_with_prefix(roles: &Vec<GuildRole>, prefix: &str) -> (r: Vec<GuildRole>)
    ensures
        role_views(r@) == prefixed_roles(roles@, prefix@),
{
    let p = chars_of(prefix);
    let ghost f = |r: GuildRole| if has_prefix(r.name@, prefix@) { Some((r.name@, r.id)) } else { None };
    let mut out: Vec<GuildRole> = Vec::new();
    let mut i: usize = 0;
    assert(roles@.take(0) =~= Seq::<GuildRole>::empty());
    assert(role_views(out@) =~= roles@.take(0).filter_map(f));
    while i < roles.len()
        invariant
            i <= roles.len(),
            p@ == prefix@,
            f == (|r: GuildRole| if has_prefix(r.name@, prefix@) { Some((r.name@, r.id)) } else { None }),
            role_views(out@) == roles@.take(i as int).filter_map(f),
        decreases roles.len() - i,
    {
        assert(roles@.take(i + 1).drop_last() =~= roles@.take(i as int));
        assert(roles@.take(i + 1).last() == roles@[i as int]);
        let n = chars_of(roles[i].name.as_str());
        let starts = matches_at(&n, &p, 0);
        proof {
            if p@.len() <= n@.len() {
                assert(n@.subrange(0, p@.len() as int) =~= n@.take(p@.len() as int));
            }
        }
        if starts {
            let ghost o0 = role_views(out@);
            out.push(GuildRole { id: roles[i].id, name: roles[i].name.clone() });
            assert(role_views(out@) =~= o0 + seq![(roles@[i as int].name@, roles@[i as int].id)]);
        }
        i += 1;
    }
    assert(roles@.take(i as int) =~= roles@);
    out
}

/// The slash and message commands the bot answers.
#[derive(Debug, Clone, Copy, PartialEq, Eq, Structural)]
pub enum Command {
    Gulag,
    GulagRelease,
    GulagList,
    AddGulagVote,
    AiSlop,
    Horny,
    Phony,
    Feature,
    Unknown,
}

/// The handler of each command name. `phony` is answered by the horny handler and
/// `horny` by the phony one.
pub open spec fn route_spec(name: Seq<char>) -> Command {
    if name == "gulag"@ {
        Command::Gulag
    } else if name == "gulag-release"@ {
        Command::GulagRelease
    } else if name == "gulag-list"@ {
        Command::GulagList
    } else if name == "Add Gulag Vote"@ {
        Command::AddGulagVote
    } else if name == "AI Slop"@ {
        Command::AiSlop
    } else if name == "phony"@ {
        Command::Horny
    } else if name == "horny"@ {
        Command::Phony
    } else if name == "feature"@ {
        Command::Feature
    } else {
        Command::Unknown
    }
}

/// Whether `v` spells `lit`.
fn spells(v: &Vec<char>, lit: &str) -> (b: bool)
    ensures
        b == (v@ == lit@),
{
    let l = chars_of(lit);
    seq_eq(v, &l)
}

pub struct Handler;

impl Handler {
    /// The handler of a command, by its name.
    pub fn route(name: &str) -> (c: Command)
        ensures
            c == route_spec(name@),
    {
        let n = chars_of(name);
        if spells(&n, "gulag") {
            Command::Gulag
        } else if spells(&n, "gulag-release") {
            Command::GulagRelease
        } else if spells(&n, "gulag-list") {
            Command::GulagList
        } else if spells(&n, "Add Gulag Vote") {
            Command::AddGulagVote
        } else if spells(&n, "AI Slop") {
            Command::AiSlop
        } else if spells(&n, "phony") {
            Command::Horny
        } else if spells(&n, "horny") {
            Command::Phony
        } else if spells(&n, "feature") {
            Command::Feature
        } else {
            Command::Unknown
        }
    }

    /// The reply to a command nobody handles.
    pub fn not_implemented() -> (r: HandlerResponse)
        ensures
            r.content@ == "Not Implimented"@,
            r.components is None,
            r.ephemeral,
    {
        HandlerResponse::text(String::from_str("Not Implimented"), true)
    }

    /// The message when a prisoner who left rejoins and is put back.
    pub fn escape_message(user_id: u64) -> (s: String)
        ensures
            s@ == "You can't escape so easily <@"@ + decimal(user_id as nat) + ">"@,
    {
        let mut out: Vec<char> = Vec::new();
        push_str(&mut out, "You can't escape so easily <@");
        push_u64(&mut out, user_id);
        push_str(&mut out, ">");
        assert(out@ =~= "You can't escape so easily <@"@ + decimal(user_id as nat) + ">"@);
        string_of(&out)
    }
}

} // verus!
