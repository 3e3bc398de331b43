//! Regular expressions, through the `regex` crate: the capture groups of a first
//! match, and replacing every match. Patterns are given as text and compiled on use.
use vstd::prelude::*;
use crate::text::{chars_of, replace_chars, replaced, string_of};

verus! {

/// What `regex` finds for `pattern` in `text`: `None` when the pattern does not
/// compile; `Some(None)` when it does not match; otherwise the text of each capture
/// group of the leftmost-first match (group 0 being the whole match), or `None` for
/// a group that took no part.
pub uninterp spec fn first_match_groups(pattern: Seq<char>, text: Seq<char>) -> Option<Option<Seq<Option<Seq<char>>>>>;

/// What `regex` makes of `text` with every non-overlapping match of `pattern`
/// replaced by `replacement` (with its `$` group references expanded); `None` when
/// the pattern does not compile.
pub uninterp spec fn all_matches_replaced(pattern: Seq<char>, text: Seq<char>, replacement: Seq<char>) -> Option<Seq<char>>;

/// The text of each group, as character sequences.
pub open spec fn group_views(g: Seq<Option<String>>) -> Seq<Option<Seq<char>>> {
    g.map_values(|o: Option<String>| match o {
        Some(s) => Some(s@),
        None => None,
    })
}

/// The capture groups found, as character sequences.
pub open spec fn captures_view(r: Option<Option<Vec<Option<String>>>>) -> Option<Option<Seq<Option<Seq<char>>>>> {
    match r {
        None => None,
        Some(None) => Some(None),
        Some(Some(v)) => Some(Some(group_views(v@))),
    }
}

/// `regex::Regex::new` then `Regex::captures`: the result is the named
/// `first_match_groups` of the pattern and the text, each group converted to a
/// `String`.
#[verifier::external_body]
pub(crate) fn captures(pattern: &str, text: &str) -> (r: Option<Option<Vec<Option<String>>>>)
    ensures
        captures_view(r) == first_match_groups(pattern@, text@),
{
    let re = match regex::Regex::new(pattern) {
        Ok(re) => re,
        Err(_) => return None,
    };
    let caps = match re.captures(text) {
        Some(caps) => caps,
        None => return Some(None),
    };
    let mut groups: Vec<Option<String>> = Vec::new();
    for m in caps.iter() {
        groups.push(match m { Some(x) => Some(x.as_str().to_string()), None => None });
    }
    Some(Some(groups))
}

/// `regex::Regex::new` then `Regex::replace_all`: the result is the named
/// `all_matches_replaced` of the pattern, the text and the replacement.
#[verifier::external_body]
pub(crate) fn replace_all(pattern: &str, text: &str, replacement: &str) -> (r: Option<String>)
    ensures
        match r {
            Some(s) => all_matches_replaced(pattern@, text@, replacement@) == Some(s@),
            None => all_matches_replaced(pattern@, text@, replacement@) is None,
        },
{
    match regex::Regex::new(pattern) {
        Ok(re) => Some(re.replace_all(text, replacement).into_owned()),
        Err(_) => None,
    }
}

/// The whole match with the text of group `k` replaced, everywhere in it, by
/// `replacement`; `None` without a match or when group `k` took no part.
pub open spec fn rewrite_spec(groups: Option<Option<Seq<Option<Seq<char>>>>>, k: int, replacement: Seq<char>) -> Option<Seq<char>> {
    match groups {
        Some(Some(g)) => if 0 <= k < g.len() && g.len() > 0 && g[0] is Some && g[k] is Some {
            Some(replaced(g[0]->0, g[k]->0, replacement))
        } else {
            None
        },
        _ => None,
    }
}

/// The whole match of `groups` with the text of group `k` replaced by `replacement`.
pub fn rewrite_match(groups: &Option<Option<Vec<Option<String>>>>, k: usize, replacement: &str) -> (r: Option<String>)
    ensures
        match r {
            Some(s) => rewrite_spec(captures_view(*groups), k as int, replacement@) == Some(s@),
            None => rewrite_spec(captures_view(*groups), k as int, replacement@) is None,
        },
{
    match groups {
        Some(Some(g)) => {
            if k >= g.len() || g.len() == 0 {
                return None;
            }
            assert(group_views(g@)[0] == match g@[0] {
                Some(s) => Some(s@),
                None => None::<Seq<char>>,
            });
            assert(group_views(g@)[k as int] == match g@[k as int] {
                Some(s) => Some(s@),
                None => None::<Seq<char>>,
            });
            match (&g[0], &g[k]) {
                (Some(full), Some(short)) => {
                    let f = chars_of(full.as_str());
                    let p = chars_of(short.as_str());
                    let rep = chars_of(replacement);
                    let out = replace_chars(&f, &p, &rep);
                    Some(string_of(&out))
                },
                _ => None,
            }
        },
        _ => None,
    }
}

} // verus!
