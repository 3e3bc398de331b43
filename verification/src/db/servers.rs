//! The servers the bot is configured for, looked up by guild.
use vstd::prelude::*;
use crate::db::models::Server;

verus! {

/// The configuration of `guild_id`: the first of `servers` for that guild.
pub fn get_server_by_guild_id(servers: &Vec<Server>, guild_id: i64) -> (r: Option<Server>)
    ensures
        match r {
            Some(s) => exists|i: int| 0 <= i < servers@.len() && servers@[i] == s && s.guild_id == guild_id
                && forall|j: int| 0 <= j < i ==> (#[trigger] servers@[j]).guild_id != guild_id,
            None => forall|j: int| 0 <= j < servers@.len() ==> (#[trigger] servers@[j]).guild_id != guild_id,
        },
{
    let mut i: usize = 0;
    while i < servers.len()
        invariant
            i <= servers.len(),
            forall|j: int| 0 <= j < i ==> (#[trigger] servers@[j]).guild_id != guild_id,
        decreases servers.len() - i,
    {
        if servers[i].guild_id == guild_id {
            return Some(servers[i]);
        }
        i += 1;
    }
    None
}

} // verus!
