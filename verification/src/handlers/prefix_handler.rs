//! `/<prefix>` commands that toggle a `<prefix> | <nick>` tag on the caller's nickname.
use vstd::prelude::*;
use crate::handlers::nickname::{self, clean_username_spec, fix_nickname_spec, tag_of};
use crate::handlers::HandlerResponse;
use crate::text::{chars_of, contains_chars, has_substring, push_str, string_of};

verus! {

/// Removes every `phony | ` and then every `horny | ` from a nickname.
pub fn clean_username(nick: &str) -> (r: String)
    ensures
        r@ == clean_username_spec(nick@),
{
    nickname::clean_username(nick)
}

/// Toggles the `<prefix> | ` tag on a nickname.
pub fn fix_nickname(nick: &str, prefix: &str) -> (r: String)
    ensures
        r@ == fix_nickname_spec(nick@, prefix@),
{
    nickname::fix_nickname(nick, prefix)
}

/// The confirmation once a nickname was changed: `Removed` when the tag was there
/// before, `Added` otherwise.
pub open spec fn toggle_reply_text(current_nick: Seq<char>, prefix: Seq<char>) -> Seq<char> {
    (if has_substring(current_nick, tag_of(prefix)) { "Removed"@ } else { "Added"@ }) + " | "@ + prefix
        + " your nickname"@
}

/// The reply when the nickname could not be changed, by the error's text.
pub open spec fn edit_error_text(err: Seq<char>) -> Seq<char> {
    if has_substring(err, "Missing Permissions"@) {
        "Error: I don't have permission to change nicknames. Please check my role permissions."@
    } else if has_substring(err, "Cannot exceed the limit"@) {
        "Error: Nickname is too long. Please shorten your nickname first."@
    } else {
        "Error: Could not update nickname: "@ + err
    }
}

/// The new nickname and the confirmation for toggling `prefix` on `current_nick`.
pub fn toggle_with(current_nick: &str, prefix: &str, new_nick: String) -> (r: (String, HandlerResponse))
    ensures
        r.0@ == new_nick@,
        r.1.content@ == toggle_reply_text(current_nick@, prefix@),
        r.1.components is None,
        r.1.ephemeral,
{
    let n = chars_of(current_nick);
    let mut tag = chars_of(prefix);
    push_str(&mut tag, " | ");
    let mut out: Vec<char> = Vec::new();
    if contains_chars(&n, &tag) {
        push_str(&mut out, "Removed");
    } else {
        push_str(&mut out, "Added");
    }
    push_str(&mut out, " | ");
    push_str(&mut out, prefix);
    push_str(&mut out, " your nickname");
    assert(out@ =~= toggle_reply_text(current_nick@, prefix@));
    (new_nick, HandlerResponse::text(string_of(&out), true))
}

/// The reply when changing a nickname failed with the error text `err`.
pub fn edit_error_reply(err: &str) -> (r: HandlerResponse)
    ensures
        r.content@ == edit_error_text(err@),
        r.components is None,
        r.ephemeral,
{
    let e = chars_of(err);
    let perm = chars_of("Missing Permissions");
    let limit = chars_of("Cannot exceed the limit");
    let s = if contains_chars(&e, &perm) {
        String::from_str(
            "Error: I don't have permission to change nicknames. Please check my role permissions.",
        )
    } else if contains_chars(&e, &limit) {
        String::from_str("Error: Nickname is too long. Please shorten your nickname first.")
    } else {
        let mut out: Vec<char> = Vec::new();
        push_str(&mut out, "Error: Could not update nickname: ");
        push_str(&mut out, err);
        string_of(&out)
    };
    HandlerResponse::text(s, true)
}

pub struct PrefixHandler;

impl PrefixHandler {
    /// The new nickname and the confirmation for `/<prefix>` run by a member whose
    /// nickname (or display name, without one) is `current_nick`.
    pub fn toggle(current_nick: &str, prefix: &str) -> (r: (String, HandlerResponse))
        ensures
            r.0@ == fix_nickname_spec(current_nick@, prefix@),
            r.1.content@ == toggle_reply_text(current_nick@, prefix@),
            r.1.components is None,
            r.1.ephemeral,
    {
        let new_nick = fix_nickname(current_nick, prefix);
        toggle_with(current_nick, prefix, new_nick)
    }
}

} // verus!
