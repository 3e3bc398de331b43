//! Links to Instagram posts, rewritten to a domain that embeds them.
use vstd::prelude::*;
use crate::pattern::{captures, first_match_groups, rewrite_match, rewrite_spec};

verus! {

pub struct Instagram;

impl Instagram {
    /// The Instagram link of a message (to the end of the text), `instagram.com` (group 2) swapped for `kkinstagram.com`.
    pub fn fx_rewriter(url: &str) -> (r: Option<String>)
        ensures
            match r {
                Some(s) => rewrite_spec(first_match_groups("https://(www\\.)?(instagram\\.com)/.+"@, url@), 2, "kkinstagram.com"@)
                    == Some(s@),
                None => rewrite_spec(first_match_groups("https://(www\\.)?(instagram\\.com)/.+"@, url@), 2, "kkinstagram.com"@) is None,
            },
    {
        let groups = captures("https://(www\\.)?(instagram\\.com)/.+", url);
        rewrite_match(&groups, 2, "kkinstagram.com")
    }
}

} // verus!
