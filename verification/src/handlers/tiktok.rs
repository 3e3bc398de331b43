//! Links to TikTok videos, resolved through offtiktok to a post that embeds.
use vstd::prelude::*;
use crate::pattern::{captures, captures_view, first_match_groups};
use crate::text::{chars_of, push_str, replace_chars, replaced, string_of};

verus! {

pub struct TikTok;

/// The whole match of the groups found, if there was one.
pub open spec fn whole_match(groups: Option<Option<Seq<Option<Seq<char>>>>>) -> Option<Seq<char>> {
    match groups {
        Some(Some(g)) => if g.len() > 0 && g[0] is Some { Some(g[0]->0) } else { None },
        _ => None,
    }
}

/// Group 1 of the groups found, if it took part.
pub open spec fn first_group(groups: Option<Option<Seq<Option<Seq<char>>>>>) -> Option<Seq<char>> {
    match groups {
        Some(Some(g)) => if g.len() > 1 && g[1] is Some { Some(g[1]->0) } else { None },
        _ => None,
    }
}

/// The text of group `k` of the groups found, if it took part.
fn group_text(groups: &Option<Option<Vec<Option<String>>>>, k: usize) -> (r: Option<String>)
    ensures
        match r {
            Some(s) => captures_view(*groups) matches Some(Some(g)) && k < g.len() && g[k as int]
                == Some(s@),
            None => !(captures_view(*groups) matches Some(Some(g)) && k < g.len()
                && g[k as int] is Some),
        },
{
    match groups {
        Some(Some(g)) => {
            if k >= g.len() {
                return None;
            }
            assert(crate::pattern::group_views(g@)[k as int] == match g@[k as int] {
                Some(s) => Some(s@),
                None => None::<Seq<char>>,
            });
            match &g[k] {
                Some(s) => Some(s.clone()),
                None => None,
            }
        },
        _ => None,
    }
}

impl TikTok {
    /// The TikTok link in a message: the first match of a tiktok.com URL.
    pub fn source_url(text: &str) -> (r: Option<String>)
        ensures
            match r {
                Some(s) => whole_match(first_match_groups("https://((www.)?tiktok.com)/.+"@, text@)) == Some(s@),
                None => whole_match(first_match_groups("https://((www.)?tiktok.com)/.+"@, text@)) is None,
            },
    {
        let groups = captures("https://((www.)?tiktok.com)/.+", text);
        group_text(&groups, 0)
    }

    /// The offtiktok page of a TikTok link: every `tiktok` in it becomes `offtiktok`.
    pub fn offtiktok_url(url: &str) -> (r: String)
        ensures
            r@ == replaced(url@, "tiktok"@, "offtiktok"@),
    {
        let u = chars_of(url);
        let p = chars_of("tiktok");
        let q = chars_of("offtiktok");
        string_of(&replace_chars(&u, &p, &q))
    }

    /// The post that the offtiktok page redirects to, as an offtiktok link: the path
    /// in its `NEXT_REDIRECT;replace;/post/<id>;` marker, if it has one.
    pub fn final_url(page: &str) -> (r: Option<String>)
        ensures
            match r {
                Some(s) => first_group(first_match_groups("NEXT_REDIRECT;replace;(/post/\\d+);"@, page@))
                    matches Some(p) && s@ == "https://offtiktok.com"@ + p,
                None => first_group(first_match_groups("NEXT_REDIRECT;replace;(/post/\\d+);"@, page@)) is None,
            },
    {
        let groups = captures("NEXT_REDIRECT;replace;(/post/\\d+);", page);
        match group_text(&groups, 1) {
            Some(p) => {
                let mut out: Vec<char> = Vec::new();
                push_str(&mut out, "https://offtiktok.com");
                push_str(&mut out, p.as_str());
                Some(string_of(&out))
            },
            None => None,
        }
    }
}

} // verus!
