//! Derpies' reactions are taken back.
use vstd::prelude::*;
use crate::handlers::gulag::{has_role_spec, Gulag};
use crate::handlers::GuildRole;

verus! {

pub struct Derpies;

impl Derpies {
    /// Whether a member is one of the derpies: they hold the guild's role of that name.
    pub fn is_derpie(member_roles: &Vec<u64>, roles: &Vec<GuildRole>) -> (b: bool)
        ensures
            b == has_role_spec(member_roles@, roles@, "derpies"@),
    {
        Gulag::member_has_role(member_roles, roles, "derpies")
    }
}

} // verus!
