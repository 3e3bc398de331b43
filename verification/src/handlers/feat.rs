//! `/feature`: list the feature flags, or switch one.
use vstd::prelude::*;
use crate::db::models::Features;
use crate::handlers::HandlerResponse;
use crate::text::{chars_of, push_str, seq_eq, string_of};

verus! {

pub struct Feat;

/// The list of flags: a heading, then one line per flag.
pub open spec fn feature_list_text(fs: Seq<Features>) -> Seq<char>
    decreases fs.len(),
{
    if fs.len() == 0 {
        "Here's all the features"@
    } else {
        feature_list_text(fs.drop_last()) + "\nName: `"@ + fs.last().name@ + "` Enabled: `"@ + (if fs.last().enabled {
            "true"@
        } else {
            "false"@
        }) + "`"@
    }
}

/// The index of the first flag named `name`.
pub open spec fn first_feature(fs: Seq<Features>, name: Seq<char>) -> Option<int> {
    if exists|i: int| 0 <= i < fs.len() && (#[trigger] fs[i]).name@ == name {
        Some(choose|i: int| 0 <= i < fs.len() && fs[i].name@ == name && forall|j: int|
            0 <= j < i ==> (#[trigger] fs[j]).name@ != name)
    } else {
        None
    }
}

impl Feat {
    /// The list of flags and their states, for the caller only.
    pub fn handle_list_features(features: &Vec<Features>) -> (r: HandlerResponse)
        ensures
            r.content@ == feature_list_text(features@),
            r.components is None,
            r.ephemeral,
    {
        let mut out: Vec<char> = Vec::new();
        push_str(&mut out, "Here's all the features");
        let mut i: usize = 0;
        assert(features@.take(0) =~= Seq::<Features>::empty());
        while i < features.len()
            invariant
                i <= features.len(),
                out@ == feature_list_text(features@.take(i as int)),
            decreases features.len() - i,
        {
            assert(features@.take(i + 1).drop_last() =~= features@.take(i as int));
            assert(features@.take(i + 1).last() == features@[i as int]);
            push_str(&mut out, "\nName: `");
            push_str(&mut out, features[i].name.as_str());
            push_str(&mut out, "` Enabled: `");
            if features[i].enabled {
                push_str(&mut out, "true");
            } else {
                push_str(&mut out, "false");
            }
            push_str(&mut out, "`");
            assert(out@ =~= feature_list_text(features@.take(i + 1)));
            i += 1;
        }
        assert(features@.take(i as int) =~= features@);
        HandlerResponse::text(string_of(&out), true)
    }

    /// The switch asked for: the first flag named `feature_name`, to be set to the
    /// opposite of its state; `None` when there is none.
    pub fn handle_feature(features: &Vec<Features>, feature_name: &str) -> (r: Option<(String, bool)>)
        ensures
            match first_feature(features@, feature_name@) {
                Some(i) => r matches Some(t) && t.0@ == features@[i].name@ && t.1 == !features@[i].enabled,
                None => r is None,
            },
    {
        let n = chars_of(feature_name);
        let mut i: usize = 0;
        while i < features.len()
            invariant
                i <= features.len(),
                n@ == feature_name@,
                forall|j: int| 0 <= j < i ==> (#[trigger] features@[j]).name@ != feature_name@,
            decreases features.len() - i,
        {
            let f = chars_of(features[i].name.as_str());
            if seq_eq(&f, &n) {
                proof {
                    let k = i as int;
                    assert(0 <= k < features@.len() && (#[trigger] features@[k]).name@ == feature_name@);
                    let c = choose|c: int| 0 <= c < features@.len() && features@[c].name@ == feature_name@
                        && forall|j: int| 0 <= j < c ==> (#[trigger] features@[j]).name@ != feature_name@;
                    assert(c == k) by {
                        if c > k {
                            assert(features@[k].name@ != feature_name@);
                        }
                    }
                }
                return Some((features[i].name.clone(), !features[i].enabled));
            }
            i += 1;
        }
        None
    }

    /// The reply when no flag has the name asked for.
    pub fn no_match_reply() -> (r: HandlerResponse)
        ensures
            r.content@ == "Couldn't match feature"@,
            r.components is None,
            r.ephemeral,
    {
        HandlerResponse::text(String::from_str("Couldn't match feature"), true)
    }

    /// An error reported to the caller as it is.
    pub fn handle_error(content: String) -> (r: HandlerResponse)
        ensures
            r.content@ == content@,
            r.components is None,
            r.ephemeral,
    {
        HandlerResponse::text(content, true)
    }
}

} // verus!
