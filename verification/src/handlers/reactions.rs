//! Roles picked by reacting to a message in `get-roles`.
use vstd::prelude::*;
use crate::handlers::{GuildChannel, GuildRole};
use crate::handlers::gulag::{first_named_channel, Gulag};
use crate::text::{chars_of, push_str, seq_eq, string_of};

verus! {

/// A game offered for reaction: its name, its role, and its emoji.
#[derive(Debug, Clone)]
pub struct ReactionGame {
    pub name: String,
    pub role_name: String,
    pub emoji: String,
}

pub struct Reactions {
    pub games: Vec<ReactionGame>,
}

/// The name, role and emoji of some games.
pub open spec fn reaction_game_views(g: Seq<ReactionGame>) -> Seq<(Seq<char>, Seq<char>, Seq<char>)> {
    g.map_values(|x: ReactionGame| (x.name@, x.role_name@, x.emoji@))
}

/// The message listing the games: a bold heading, then one line per game.
pub open spec fn reaction_message_text(g: Seq<ReactionGame>) -> Seq<char>
    decreases g.len(),
{
    if g.len() == 0 {
        "**React to this message to play the following**\n"@
    } else {
        reaction_message_text(g.drop_last()) + g.last().name@ + ": "@ + g.last().role_name@ + ": "@
            + g.last().emoji@ + "\n"@
    }
}

impl Reactions {
    /// The games on offer.
    pub fn build_games() -> (r: Vec<ReactionGame>)
        ensures
            reaction_game_views(r@) == seq![
                ("Warzone"@, "@tag-warzone"@, "\u{1F44D}"@),
                ("Apex"@, "@tag-apex"@, "\u{1F44E}"@),
                ("Fuck"@, "@tag-fuck"@, "\u{1F479}"@),
            ],
    {
        let mut g: Vec<ReactionGame> = Vec::new();
        g.push(ReactionGame {
            name: String::from_str("Warzone"),
            role_name: String::from_str("@tag-warzone"),
            emoji: String::from_str("\u{1F44D}"),
        });
        g.push(ReactionGame {
            name: String::from_str("Apex"),
            role_name: String::from_str("@tag-apex"),
            emoji: String::from_str("\u{1F44E}"),
        });
        g.push(ReactionGame {
            name: String::from_str("Fuck"),
            role_name: String::from_str("@tag-fuck"),
            emoji: String::from_str("\u{1F479}"),
        });
        assert(reaction_game_views(g@) =~= seq![
            ("Warzone"@, "@tag-warzone"@, "\u{1F44D}"@),
            ("Apex"@, "@tag-apex"@, "\u{1F44E}"@),
            ("Fuck"@, "@tag-fuck"@, "\u{1F479}"@),
        ]);
        g
    }

    /// The games offered.
    pub fn new() -> (r: Reactions)
        ensures
            reaction_game_views(r.games@) == seq![
                ("Warzone"@, "@tag-warzone"@, "\u{1F44D}"@),
                ("Apex"@, "@tag-apex"@, "\u{1F44E}"@),
                ("Fuck"@, "@tag-fuck"@, "\u{1F479}"@),
            ],
    {
        Reactions { games: Reactions::build_games() }
    }

    /// The message listing the games.
    pub fn reaction_role_message(&self) -> (s: String)
        ensures
            s@ == reaction_message_text(self.games@),
    {
        let mut out: Vec<char> = Vec::new();
        push_str(&mut out, "**React to this message to play the following**\n");
        let mut i: usize = 0;
        assert(self.games@.take(0) =~= Seq::<ReactionGame>::empty());
        while i < self.games.len()
            invariant
                i <= self.games.len(),
                out@ == reaction_message_text(self.games@.take(i as int)),
            decreases self.games.len() - i,
        {
            assert(self.games@.take(i + 1).drop_last() =~= self.games@.take(i as int));
            assert(self.games@.take(i + 1).last() == self.games@[i as int]);
            push_str(&mut out, self.games[i].name.as_str());
            push_str(&mut out, ": ");
            push_str(&mut out, self.games[i].role_name.as_str());
            push_str(&mut out, ": ");
            push_str(&mut out, self.games[i].emoji.as_str());
            push_str(&mut out, "\n");
            assert(out@ =~= reaction_message_text(self.games@.take(i + 1)));
            i += 1;
        }
        assert(self.games@.take(i as int) =~= self.games@);
        string_of(&out)
    }

    /// The channel where roles are picked: the guild's first channel named `get-roles`.
    pub fn find_roles_channel(channels: &Vec<GuildChannel>) -> (r: Option<GuildChannel>)
        ensures
            match first_named_channel(channels@, "get-roles"@) {
                Some(i) => r matches Some(c) && c.id == channels@[i].id && c.name@ == channels@[i].name@,
                None => r is None,
            },
    {
        Gulag::find_channel(channels, "get-roles")
    }

    /// The role the reactions are checked against: the last role named `foo`, or the
    /// default id 0 when there is none.
    pub fn find_role_id(roles: &Vec<GuildRole>) -> (r: u64)
        ensures
            (exists|i: int| 0 <= i < roles@.len() && (#[trigger] roles@[i]).name@ == "foo"@) ==> exists|i: int|
                0 <= i < roles@.len() && roles@[i].name@ == "foo"@ && roles@[i].id == r && forall|j: int|
                i < j < roles@.len() ==> (#[trigger] roles@[j]).name@ != "foo"@,
            (forall|i: int| 0 <= i < roles@.len() ==> (#[trigger] roles@[i]).name@ != "foo"@) ==> r == 0,
    {
        let foo = chars_of("foo");
        let mut found: u64 = 0;
        let mut at: Option<usize> = None;
        let mut i: usize = 0;
        while i < roles.len()
            invariant
                i <= roles.len(),
                foo@ == "foo"@,
                match at {
                    Some(k) => k < i && roles@[k as int].name@ == "foo"@ && roles@[k as int].id == found
                        && forall|j: int| k < j < i ==> (#[trigger] roles@[j]).name@ != "foo"@,
                    None => found == 0 && forall|j: int| 0 <= j < i ==> (#[trigger] roles@[j]).name@ != "foo"@,
                },
            decreases roles.len() - i,
        {
            let n = chars_of(roles[i].name.as_str());
            if seq_eq(&n, &foo) {
                found = roles[i].id;
                at = Some(i);
            }
            i += 1;
        }
        match at {
            Some(k) => {
                assert(roles@[k as int].name@ == "foo"@);
            },
            None => {},
        }
        found
    }
}

} // verus!
