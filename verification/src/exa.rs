//! Web search results, as passed on: each result's title and its highlights.
use vstd::prelude::*;
use crate::text::{chars_of, join_chars, joined, string_of, views};

verus! {

/// The service searched.
pub const EXA_API_URL: &'static str = "https://api.exa.ai/search";

/// Results asked for per search.
pub const NUM_RESULTS: u8 = 3;

/// A search result: its title and its highlighted passages.
#[derive(Debug, Clone)]
pub struct ExaResult {
    pub title: String,
    pub highlights: Vec<String>,
}

/// The texts of some strings.
pub open spec fn string_views(v: Seq<String>) -> Seq<Seq<char>> {
    v.map_values(|s: String| s@)
}

/// Each result as its title and its highlights joined by spaces, in order.
pub fn search_results(results: &Vec<ExaResult>) -> (r: Vec<(String, String)>)
    ensures
        r@.len() == results@.len(),
        forall|i: int| 0 <= i < r@.len() ==> (#[trigger] r@[i]).0@ == results@[i].title@ && r@[i].1@
            == joined(string_views(results@[i].highlights@), " "@),
{
    let sep = chars_of(" ");
    let mut r: Vec<(String, String)> = Vec::new();
    let mut i: usize = 0;
    while i < results.len()
        invariant
            i <= results.len(),
            sep@ == " "@,
            r@.len() == i,
            forall|k: int| 0 <= k < i ==> (#[trigger] r@[k]).0@ == results@[k].title@ && r@[k].1@ == joined(
                string_views(results@[k].highlights@),
                " "@,
            ),
        decreases results.len() - i,
    {
        let hs = &results[i].highlights;
        let mut parts: Vec<Vec<char>> = Vec::new();
        let mut j: usize = 0;
        while j < hs.len()
            invariant
                j <= hs.len(),
                views(parts@) == string_views(hs@).take(j as int),
            decreases hs.len() - j,
        {
            let ghost p0 = views(parts@);
            parts.push(chars_of(hs[j].as_str()));
            assert(views(parts@) =~= p0.push(hs@[j as int]@));
            assert(string_views(hs@).take(j + 1) =~= string_views(hs@).take(j as int).push(hs@[j as int]@));
            j += 1;
        }
        assert(string_views(hs@).take(j as int) =~= string_views(hs@));
        let snippet = join_chars(&parts, &sep);
        r.push((results[i].title.clone(), string_of(&snippet)));
        i += 1;
    }
    r
}

} // verus!
