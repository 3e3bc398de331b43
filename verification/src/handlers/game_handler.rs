//! `/game`: a menu of the guild's `tag-` roles; picking one toggles it.
use vstd::prelude::*;
use crate::handlers::{prefixed_roles, role_views, roles_with_prefix, GuildRole, HandlerResponse, MenuOption, SelectMenu};
use crate::handlers::holds_id;

verus! {

/// A game tag a member can pick: its role's name and id.
#[derive(Debug, Clone)]
pub struct Game {
    pub name: String,
    pub role_id: u64,
}

/// The game tags of a guild.
pub struct GameHandler {
    pub games: Vec<Game>,
}

/// The names and role ids of some games.
pub open spec fn game_views(g: Seq<Game>) -> Seq<(Seq<char>, u64)> {
    g.map_values(|x: Game| (x.name@, x.role_id))
}

/// The labels and values of some menu options.
pub open spec fn option_views(o: Seq<MenuOption>) -> Seq<(Seq<char>, u64)> {
    o.map_values(|x: MenuOption| (x.label@, x.value))
}

/// Picking a tag adds its role, or removes it from a member who has it.
#[derive(Debug, Clone, Copy, PartialEq, Eq, Structural)]
pub enum TagChange {
    Add(u64),
    Remove(u64),
}

impl Game {
    /// A game tag for the role `role_id` named `name`.
    pub fn new(name: String, role_id: u64) -> (g: Game)
        ensures
            g.name@ == name@,
            g.role_id == role_id,
    {
        Game { name, role_id }
    }

    /// The menu choice for this tag: its name, standing for its role.
    pub fn menu_option(&self) -> (o: MenuOption)
        ensures
            o.label@ == self.name@,
            o.value == self.role_id,
    {
        MenuOption { label: self.name.clone(), value: self.role_id }
    }
}

impl GameHandler {
    /// The game tags of a guild: its roles whose name begins with `tag-`, in order.
    pub fn new(roles: &Vec<GuildRole>) -> (r: GameHandler)
        ensures
            game_views(r.games@) == prefixed_roles(roles@, "tag-"@),
    {
        let picked = roles_with_prefix(roles, "tag-");
        let mut games: Vec<Game> = Vec::new();
        let mut i: usize = 0;
        while i < picked.len()
            invariant
                i <= picked.len(),
                game_views(games@) == role_views(picked@).take(i as int),
            decreases picked.len() - i,
        {
            let ghost g0 = game_views(games@);
            let g = Game::new(picked[i].name.clone(), picked[i].id);
            games.push(g);
            assert(game_views(games@) =~= g0.push((picked@[i as int].name@, picked@[i as int].id)));
            assert(role_views(picked@).take(i + 1) =~= role_views(picked@).take(i as int).push(
                (picked@[i as int].name@, picked@[i as int].id),
            ));
            i += 1;
        }
        assert(role_views(picked@).take(i as int) =~= role_views(picked@));
        GameHandler { games }
    }

    /// One menu choice per tag, in order.
    pub fn menu_options(&self) -> (r: Vec<MenuOption>)
        ensures
            option_views(r@) == game_views(self.games@),
    {
        let mut r: Vec<MenuOption> = Vec::new();
        let mut i: usize = 0;
        while i < self.games.len()
            invariant
                i <= self.games.len(),
                option_views(r@) == game_views(self.games@).take(i as int),
            decreases self.games.len() - i,
        {
            let ghost r0 = option_views(r@);
            r.push(self.games[i].menu_option());
            assert(option_views(r@) =~= r0.push((self.games@[i as int].name@, self.games@[i as int].role_id)));
            assert(game_views(self.games@).take(i + 1) =~= game_views(self.games@).take(i as int).push(
                (self.games@[i as int].name@, self.games@[i as int].role_id),
            ));
            i += 1;
        }
        assert(game_views(self.games@).take(i as int) =~= game_views(self.games@));
        r
    }

    /// The tag menu.
    pub fn select_menu(&self) -> (m: SelectMenu)
        ensures
            m.custom_id@ == "game_select"@,
            m.placeholder@ == "Select your game"@,
            option_views(m.options@) == game_views(self.games@),
    {
        SelectMenu {
            custom_id: String::from_str("game_select"),
            placeholder: String::from_str("Select your game"),
            options: self.menu_options(),
        }
    }

    /// The reply to `/game`: the menu, for the caller only.
    pub fn reply(&self) -> (r: HandlerResponse)
        ensures
            r.content@ == "Select which tag you want to be on, if you select a tag you have already, it will be removed"@,
            r.components matches Some(m) && m.custom_id@ == "game_select"@ && m.placeholder@
                == "Select your game"@ && option_views(m.options@) == game_views(self.games@),
            r.ephemeral,
    {
        HandlerResponse {
            content: String::from_str(
                "Select which tag you want to be on, if you select a tag you have already, it will be removed",
            ),
            components: Some(self.select_menu()),
            ephemeral: true,
        }
    }

    /// Picking the tag `role_id`: removed from a member who has it, added otherwise.
    pub fn add_or_remove_game_role(member_roles: &Vec<u64>, role_id: u64) -> (r: TagChange)
        ensures
            r == (if member_roles@.contains(role_id) { TagChange::Remove(role_id) } else { TagChange::Add(role_id) }),
    {
        if holds_id(member_roles, role_id) {
            TagChange::Remove(role_id)
        } else {
            TagChange::Add(role_id)
        }
    }
}

} // verus!
