//! Spelling out "teh" in reactions.
use vstd::prelude::*;
use crate::text::{chars_of, contains_chars, has_substring, lowercase, to_lowercase};

verus! {

pub struct Teh;

impl Teh {
    /// Whether a message gets the reactions: the feature is on and the message says
    /// "teh" in any case.
    pub fn should_react(enabled: bool, content: &str) -> (b: bool)
        ensures
            b == (enabled && has_substring(lowercase(content@), "teh"@)),
    {
        if !enabled {
            return false;
        }
        let l = to_lowercase(content);
        let v = chars_of(l.as_str());
        let t = chars_of("teh");
        contains_chars(&v, &t)
    }

    /// The reactions, in order: the regional indicators T, E and H.
    pub fn reactions() -> (r: Vec<String>)
        ensures
            r@.len() == 3,
            r@[0]@ == "\u{1F1F9}"@,
            r@[1]@ == "\u{1F1EA}"@,
            r@[2]@ == "\u{1F1ED}"@,
    {
        let mut r: Vec<String> = Vec::new();
        r.push(String::from_str("\u{1F1F9}"));
        r.push(String::from_str("\u{1F1EA}"));
        r.push(String::from_str("\u{1F1ED}"));
        r
    }
}

} // verus!
