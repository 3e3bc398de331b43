//! Links to tweets, rewritten to a domain that embeds them.
use vstd::prelude::*;
use crate::pattern::{captures, first_match_groups, rewrite_match, rewrite_spec};

verus! {

pub struct Twitter;

impl Twitter {
    /// The first tweet link of a message, its domain (group 1) swapped for `girlcockx.com`.
    pub fn fx_rewriter(url: &str) -> (r: Option<String>)
        ensures
            match r {
                Some(s) => rewrite_spec(first_match_groups("https://(twitter.com|x.com)/.+/status/\\d+"@, url@), 1, "girlcockx.com"@)
                    == Some(s@),
                None => rewrite_spec(first_match_groups("https://(twitter.com|x.com)/.+/status/\\d+"@, url@), 1, "girlcockx.com"@) is None,
            },
    {
        let groups = captures("https://(twitter.com|x.com)/.+/status/\\d+", url);
        rewrite_match(&groups, 1, "girlcockx.com")
    }
}

} // verus!
