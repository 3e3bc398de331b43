//! `/color`: a menu of the guild's `color-` roles; picking one swaps the member's color.
use vstd::prelude::*;
use crate::handlers::{prefixed_roles, roles_with_prefix, GuildRole, HandlerResponse, MenuOption, SelectMenu};

verus! {

/// A color a member can pick: its role's name and id.
#[derive(Debug, Clone)]
pub struct Color {
    pub name: String,
    pub role_id: u64,
}

/// The colors of a guild.
pub struct Colors {
    pub colors: Vec<Color>,
}

/// The names and role ids of some colors.
pub open spec fn color_views(c: Seq<Color>) -> Seq<(Seq<char>, u64)> {
    c.map_values(|x: Color| (x.name@, x.role_id))
}

/// The labels and values of some menu options.
pub open spec fn option_views(o: Seq<MenuOption>) -> Seq<(Seq<char>, u64)> {
    o.map_values(|x: MenuOption| (x.label@, x.value))
}

impl Color {
    /// A color for the role `role_id` named `name`.
    pub fn new(name: String, role_id: u64) -> (c: Color)
        ensures
            c.name@ == name@,
            c.role_id == role_id,
    {
        Color { name, role_id }
    }

    /// The menu choice for this color: its name, standing for its role.
    pub fn menu_option(&self) -> (o: MenuOption)
        ensures
            o.label@ == self.name@,
            o.value == self.role_id,
    {
        MenuOption { label: self.name.clone(), value: self.role_id }
    }
}

impl Colors {
    /// The colors of a guild: its roles whose name begins with `color-`, in order.
    pub fn new(roles: &Vec<GuildRole>) -> (r: Colors)
        ensures
            color_views(r.colors@) == prefixed_roles(roles@, "color-"@),
    {
        let picked = roles_with_prefix(roles, "color-");
        let mut colors: Vec<Color> = Vec::new();
        let mut i: usize = 0;
        while i < picked.len()
            invariant
                i <= picked.len(),
                color_views(colors@) == crate::handlers::role_views(picked@).take(i as int),
            decreases picked.len() - i,
        {
            let ghost c0 = color_views(colors@);
            let c = Color::new(picked[i].name.clone(), picked[i].id);
            colors.push(c);
            assert(color_views(colors@) =~= c0.push((picked@[i as int].name@, picked@[i as int].id)));
            assert(crate::handlers::role_views(picked@).take(i + 1) =~= crate::handlers::role_views(
                picked@,
            ).take(i as int).push((picked@[i as int].name@, picked@[i as int].id)));
            i += 1;
        }
        assert(crate::handlers::role_views(picked@).take(i as int) =~= crate::handlers::role_views(picked@));
        Colors { colors }
    }

    /// One menu choice per color, in order.
    pub fn menu_options(&self) -> (r: Vec<MenuOption>)
        ensures
            option_views(r@) == color_views(self.colors@),
    {
        let mut r: Vec<MenuOption> = Vec::new();
        let mut i: usize = 0;
        while i < self.colors.len()
            invariant
                i <= self.colors.len(),
                option_views(r@) == color_views(self.colors@).take(i as int),
            decreases self.colors.len() - i,
        {
            let ghost r0 = option_views(r@);
            r.push(self.colors[i].menu_option());
            assert(option_views(r@) =~= r0.push((self.colors@[i as int].name@, self.colors@[i as int].role_id)));
            assert(color_views(self.colors@).take(i + 1) =~= color_views(self.colors@).take(i as int).push(
                (self.colors@[i as int].name@, self.colors@[i as int].role_id),
            ));
            i += 1;
        }
        assert(color_views(self.colors@).take(i as int) =~= color_views(self.colors@));
        r
    }

    /// The color menu.
    pub fn select_menu(&self) -> (m: SelectMenu)
        ensures
            m.custom_id@ == "color_select"@,
            m.placeholder@ == "Select your color"@,
            option_views(m.options@) == color_views(self.colors@),
    {
        SelectMenu {
            custom_id: String::from_str("color_select"),
            placeholder: String::from_str("Select your color"),
            options: self.menu_options(),
        }
    }

    /// The reply to `/color`: the menu, for the caller only.
    pub fn reply(&self) -> (r: HandlerResponse)
        ensures
            r.content@ == "Choose Which Color you want on your name"@,
            r.components matches Some(m) && m.custom_id@ == "color_select"@ && m.placeholder@
                == "Select your color"@ && option_views(m.options@) == color_views(self.colors@),
            r.ephemeral,
    {
        HandlerResponse {
            content: String::from_str("Choose Which Color you want on your name"),
            components: Some(self.select_menu()),
            ephemeral: true,
        }
    }

    /// The roles a member loses when picking a color: every color role, in order;
    /// the picked one is then added back.
    pub fn swap_color_role(&self) -> (r: Vec<u64>)
        ensures
            r@ == self.colors@.map_values(|c: Color| c.role_id),
    {
        let mut r: Vec<u64> = Vec::new();
        let mut i: usize = 0;
        while i < self.colors.len()
            invariant
                i <= self.colors.len(),
                r@ == self.colors@.take(i as int).map_values(|c: Color| c.role_id),
            decreases self.colors.len() - i,
        {
            r.push(self.colors[i].role_id);
            assert(r@ =~= self.colors@.take(i + 1).map_values(|c: Color| c.role_id));
            i += 1;
        }
        assert(self.colors@.take(i as int) =~= self.colors@);
        r
    }
}

} // verus!
