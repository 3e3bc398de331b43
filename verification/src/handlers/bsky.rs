//! Links to Bluesky posts, rewritten to a domain that embeds them.
use vstd::prelude::*;
use crate::pattern::{captures, first_match_groups, rewrite_match, rewrite_spec};

verus! {

pub struct Bsky;

impl Bsky {
    /// The Bluesky link of a message (to the end of the text), `bsky.app` (group 1) swapped for `bsyy.app`.
    pub fn fx_rewriter(url: &str) -> (r: Option<String>)
        ensures
            match r {
                Some(s) => rewrite_spec(first_match_groups("https://(bsky.app)/.+"@, url@), 1, "bsyy.app"@)
                    == Some(s@),
                None => rewrite_spec(first_match_groups("https://(bsky.app)/.+"@, url@), 1, "bsyy.app"@) is None,
            },
    {
        let groups = captures("https://(bsky.app)/.+", url);
        rewrite_match(&groups, 1, "bsyy.app")
    }
}

} // verus!
