//! Elon fans who sound like Elon go to the gulag.
use vstd::prelude::*;
use crate::handlers::GuildRole;
use crate::handlers::holds_id;
use crate::pattern::{all_matches_replaced, captures, first_match_groups, replace_all};
use crate::text::{chars_of, lowercase, seq_eq, to_lowercase};

verus! {

pub struct Elon;

/// The ASCII transliteration of a string, character by character (`unidecode`).
pub uninterp spec fn transliterated(s: Seq<char>) -> Seq<char>;

/// `unidecode::unidecode`: the result is the named transliteration of `s`.
#[verifier::external_body]
fn unidecode_str(s: &str) -> (r: String)
    ensures
        r@ == transliterated(s@),
{
    unidecode::unidecode(s)
}

/// A message sounds like Elon when, transliterated to ASCII, stripped of everything
/// but letters, digits and spaces, and lowercased, it says "concerning" or
/// "looking ... into ... it".
pub open spec fn elon_words_spec(msg: Seq<char>) -> bool {
    match all_matches_replaced("[^a-zA-Z0-9 ]"@, transliterated(msg), ""@) {
        Some(clean) => first_match_groups("(concerning|looking.{0,}into.{0,}it)"@, lowercase(clean))
            matches Some(Some(_)),
        None => false,
    }
}

/// The member holds a role named `#1ElonMuskFan`.
pub open spec fn elon_role_spec(member_roles: Seq<u64>, roles: Seq<GuildRole>) -> bool {
    exists|i: int| 0 <= i < roles.len() && (#[trigger] roles[i]).name@ == "#1ElonMuskFan"@
        && member_roles.contains(roles[i].id)
}

impl Elon {
    /// Whether a message sounds like Elon.
    pub fn has_elon_words(msg: &str) -> (b: bool)
        ensures
            b == elon_words_spec(msg@),
    {
        let english = unidecode_str(msg);
        let clean = match replace_all("[^a-zA-Z0-9 ]", english.as_str(), "") {
            Some(c) => c,
            None => return false,
        };
        let lower = to_lowercase(clean.as_str());
        match captures("(concerning|looking.{0,}into.{0,}it)", lower.as_str()) {
            Some(Some(_)) => true,
            _ => false,
        }
    }

    /// Whether the member holds one of the guild's roles named `#1ElonMuskFan`.
    pub fn has_elon_role(member_roles: &Vec<u64>, roles: &Vec<GuildRole>) -> (b: bool)
        ensures
            b == elon_role_spec(member_roles@, roles@),
    {
        let fan = chars_of("#1ElonMuskFan");
        let mut i: usize = 0;
        while i < roles.len()
            invariant
                i <= roles.len(),
                fan@ == "#1ElonMuskFan"@,
                forall|j: int| 0 <= j < i ==> !((#[trigger] roles@[j]).name@ == "#1ElonMuskFan"@
                    && member_roles@.contains(roles@[j].id)),
            decreases roles.len() - i,
        {
            let n = chars_of(roles[i].name.as_str());
            if seq_eq(&n, &fan) && holds_id(member_roles, roles[i].id) {
                assert(roles@[i as int].name@ == "#1ElonMuskFan"@);
                return true;
            }
            i += 1;
        }
        false
    }
}

} // verus!
