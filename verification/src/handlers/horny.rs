//! `/horny` and `/phony`: the tag commands with their own replies.
use vstd::prelude::*;
use crate::handlers::nickname::{fix_nickname, fix_nickname_spec};
use crate::handlers::prefix_handler::{toggle_reply_text, toggle_with};
use crate::handlers::HandlerResponse;

verus! {

pub struct Horny;

impl Horny {
    /// The new nickname and the confirmation for `/horny` (or a command of another
    /// name, `prefix`) run by a member whose nickname is `current_nick`.
    pub fn toggle(current_nick: &str, prefix: &str) -> (r: (String, HandlerResponse))
        ensures
            r.0@ == fix_nickname_spec(current_nick@, prefix@),
            r.1.content@ == toggle_reply_text(current_nick@, prefix@),
            r.1.components is None,
            r.1.ephemeral,
    {
        let new_nick = fix_nickname(current_nick, prefix);
        toggle_with(current_nick, prefix, new_nick)
    }
}

pub struct Phony;

impl Phony {
    /// The new nickname for `/phony` and its reply, `Done`.
    pub fn toggle(current_nick: &str, prefix: &str) -> (r: (String, HandlerResponse))
        ensures
            r.0@ == fix_nickname_spec(current_nick@, prefix@),
            r.1.content@ == "Done"@,
            r.1.components is None,
            r.1.ephemeral,
    {
        let new_nick = fix_nickname(current_nick, prefix);
        (new_nick, HandlerResponse::text(String::from_str("Done"), true))
    }
}

} // verus!
