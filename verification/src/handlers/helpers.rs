//! The first form of the nickname toggle: the tag is stripped wherever it occurs.
use vstd::prelude::*;
use crate::handlers::nickname::tag_of;
use crate::text::{
    chars_of, contains_chars, has_substring, lemma_replaced_absent, lemma_replaced_prefix,
    occurs_at, push_all, push_str, replace_chars, replaced, string_of,
};

verus! {

/// The nickname after toggling `prefix`: every `<prefix> | ` is removed when there is
/// one, and otherwise `<prefix> | ` is put in front.
pub open spec fn helper_fix_nickname_spec(nick: Seq<char>, prefix: Seq<char>) -> Seq<char> {
    if has_substring(nick, tag_of(prefix)) {
        replaced(nick, tag_of(prefix), Seq::empty())
    } else {
        tag_of(prefix) + nick
    }
}

/// Adds the `<prefix> | ` tag to a nickname, or removes every copy of it.
pub fn fix_nickname(nick: &String, prefix: &String) -> (r: String)
    ensures
        r@ == helper_fix_nickname_spec(nick@, prefix@),
{
    let n = chars_of(nick.as_str());
    let mut tag = chars_of(prefix.as_str());
    push_str(&mut tag, " | ");
    if contains_chars(&n, &tag) {
        let empty: Vec<char> = Vec::new();
        let out = replace_chars(&n, &tag, &empty);
        assert(empty@ =~= Seq::<char>::empty());
        string_of(&out)
    } else {
        push_all(&mut tag, &n);
        string_of(&tag)
    }
}

/// Toggling twice gives back any nickname that does not already hold the tag.
pub proof fn lemma_helper_fix_nickname_toggle(nick: Seq<char>, prefix: Seq<char>)
    requires
        !has_substring(nick, tag_of(prefix)),
    ensures
        helper_fix_nickname_spec(helper_fix_nickname_spec(nick, prefix), prefix) == nick,
{
    reveal_strlit(" | ");
    let tag = tag_of(prefix);
    let empty = Seq::<char>::empty();
    let first = tag + nick;
    assert(tag.len() > 0);
    assert(occurs_at(first, tag, 0)) by {
        assert(first.subrange(0, tag.len() as int) =~= tag);
    }
    lemma_replaced_prefix(tag, nick, empty);
    lemma_replaced_absent(nick, tag, empty);
    assert(empty + nick =~= nick);
}

} // verus!
