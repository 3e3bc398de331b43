//! The `<prefix> | <nick>` nickname tags used by the "horny" and "phony" commands.
use vstd::prelude::*;
use crate::text::{
    chars_of, contains_chars, has_substring, lemma_replaced_absent, lemma_replaced_prefix, occurs_at,
    push_all, push_str, replace_chars, replaced, string_of,
};

verus! {

/// The separator between a tag and the rest of a nickname.
pub open spec fn separator() -> Seq<char> {
    " | "@
}

/// `prefix` followed by the separator.
pub open spec fn tag_of(prefix: Seq<char>) -> Seq<char> {
    prefix + separator()
}

/// The nickname with every `phony | ` and then every `horny | ` removed.
pub open spec fn clean_username_spec(nick: Seq<char>) -> Seq<char> {
    replaced(replaced(nick, "phony | "@, Seq::empty()), "horny | "@, Seq::empty())
}

/// The nickname after toggling `prefix`: a nickname that already holds the tag is
/// cleaned of both tags; one that holds another tag gets the prefix in front of its
/// cleaned form; any other gets the prefix in front.
pub open spec fn fix_nickname_spec(nick: Seq<char>, prefix: Seq<char>) -> Seq<char> {
    if has_substring(nick, tag_of(prefix)) {
        clean_username_spec(nick)
    } else if has_substring(nick, separator()) {
        tag_of(prefix) + clean_username_spec(nick)
    } else {
        tag_of(prefix) + nick
    }
}

/// Removes every `phony | ` and then every `horny | ` from a nickname.
pub fn clean_username(nick: &str) -> (r: String)
    ensures
        r@ == clean_username_spec(nick@),
{
    let n = chars_of(nick);
    let phony = chars_of("phony | ");
    let horny = chars_of("horny | ");
    let empty: Vec<char> = Vec::new();
    let once = replace_chars(&n, &phony, &empty);
    let twice = replace_chars(&once, &horny, &empty);
    assert(empty@ =~= Seq::<char>::empty());
    string_of(&twice)
}

/// Toggles the `<prefix> | ` tag on a nickname.
pub fn fix_nickname(nick: &str, prefix: &str) -> (r: String)
    ensures
        r@ == fix_nickname_spec(nick@, prefix@),
{
    let n = chars_of(nick);
    let mut tag = chars_of(prefix);
    push_str(&mut tag, " | ");
    let sep = chars_of(" | ");
    if contains_chars(&n, &tag) {
        clean_username(nick)
    } else if contains_chars(&n, &sep) {
        let cleaned = chars_of(clean_username(nick).as_str());
        push_all(&mut tag, &cleaned);
        string_of(&tag)
    } else {
        push_all(&mut tag, &n);
        string_of(&tag)
    }
}

/// Neither tag can begin inside the other, so a tag followed by a nickname that holds
/// no copy of the other tag holds no copy of it either.
proof fn lemma_no_cross_occurrence(a: Seq<char>, b: Seq<char>, p: Seq<char>)
    requires
        a.len() == 8,
        p.len() == 8,
        forall|i: int| 0 <= i < 8 ==> a[i] != p[0],
        !has_substring(b, p),
    ensures
        !has_substring(a + b, p),
{
    let s = a + b;
    assert forall|i: int| !occurs_at(s, p, i) by {
        if occurs_at(s, p, i) {
            if i < 8 {
                assert(s.subrange(i, i + p.len())[0] == s[i]);
            } else {
                assert(s.subrange(i, i + p.len()) =~= b.subrange(i - 8, i - 8 + p.len()));
                assert(occurs_at(b, p, i - 8));
            }
        }
    }
}

/// Toggling the "horny" or "phony" prefix twice gives back a nickname that holds
/// neither tag.
pub proof fn lemma_fix_nickname_toggle(nick: Seq<char>, prefix: Seq<char>)
    requires
        prefix == "horny"@ || prefix == "phony"@,
        !has_substring(nick, "horny | "@),
        !has_substring(nick, "phony | "@),
    ensures
        fix_nickname_spec(fix_nickname_spec(nick, prefix), prefix) == nick,
{
    reveal_strlit("horny");
    reveal_strlit("phony");
    reveal_strlit(" | ");
    reveal_strlit("horny | ");
    reveal_strlit("phony | ");
    let horny_tag = "horny | "@;
    let phony_tag = "phony | "@;
    let tag = tag_of(prefix);
    let empty = Seq::<char>::empty();
    assert(tag =~= horny_tag || tag =~= phony_tag);
    lemma_replaced_absent(nick, phony_tag, empty);
    lemma_replaced_absent(nick, horny_tag, empty);
    assert(clean_username_spec(nick) == nick);
    let first = fix_nickname_spec(nick, prefix);
    assert(first == tag + nick);
    assert(occurs_at(first, tag, 0)) by {
        assert(first.subrange(0, tag.len() as int) =~= tag);
    }
    lemma_replaced_prefix(tag, nick, empty);
    if tag =~= phony_tag {
        assert(replaced(first, phony_tag, empty) == nick) by {
            assert(empty + nick =~= nick);
        }
    } else {
        lemma_no_cross_occurrence(horny_tag, nick, phony_tag);
        lemma_replaced_absent(first, phony_tag, empty);
        assert(empty + nick =~= nick);
    }
}

} // verus!
