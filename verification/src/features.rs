//! Feature flags: whether a feature is on, and switching one.
use vstd::prelude::*;
use crate::db::models::Features as FeatureRow;
use crate::text::{chars_of, push_str, seq_eq, string_of};

verus! {

pub struct Features;

/// Why a flag could not be switched.
#[derive(Debug, Clone, Copy, PartialEq, Eq, Structural)]
pub enum FeatureError {
    /// No flag of that name is stored.
    NotFound,
}

/// The flag named `name` is on: the first stored flag of that name is enabled; a
/// flag that is not stored is off.
pub open spec fn enabled_spec(rows: Seq<FeatureRow>, name: Seq<char>) -> bool
    decreases rows.len(),
{
    if rows.len() == 0 {
        false
    } else if rows[0].name@ == name {
        rows[0].enabled
    } else {
        enabled_spec(rows.drop_first(), name)
    }
}

/// Some stored flag is named `name`.
pub open spec fn stored(rows: Seq<FeatureRow>, name: Seq<char>) -> bool {
    exists|i: int| 0 <= i < rows.len() && (#[trigger] rows[i]).name@ == name
}

/// The flags with every one named `name` set to `enable`, the others unchanged.
pub open spec fn updated_rows(rows: Seq<FeatureRow>, name: Seq<char>, enable: bool) -> Seq<(i32, Seq<char>, bool)> {
    rows.map_values(|f: FeatureRow| (f.id, f.name@, if f.name@ == name { enable } else { f.enabled }))
}

/// The id, name and state of some flags.
pub open spec fn row_views(rows: Seq<FeatureRow>) -> Seq<(i32, Seq<char>, bool)> {
    rows.map_values(|f: FeatureRow| (f.id, f.name@, f.enabled))
}

impl FeatureError {
    /// The text of the error for the flag `name`.
    pub fn message(&self, name: &str) -> (s: String)
        ensures
            s@ == "Feature '"@ + name@ + "' not found in database"@,
    {
        let mut out: Vec<char> = Vec::new();
        push_str(&mut out, "Feature '");
        push_str(&mut out, name);
        push_str(&mut out, "' not found in database");
        string_of(&out)
    }
}

impl Features {
    /// Whether the flag `feature_name` is on among the stored flags.
    pub fn is_enabled(rows: &Vec<FeatureRow>, feature_name: &str) -> (b: bool)
        ensures
            b == enabled_spec(rows@, feature_name@),
    {
        let n = chars_of(feature_name);
        let mut i: usize = 0;
        assert(rows@.skip(0) =~= rows@);
        while i < rows.len()
            invariant
                i <= rows.len(),
                n@ == feature_name@,
                enabled_spec(rows@, feature_name@) == enabled_spec(rows@.skip(i as int), feature_name@),
            decreases rows.len() - i,
        {
            assert(rows@.skip(i as int)[0] == rows@[i as int]);
            let r = chars_of(rows[i].name.as_str());
            if seq_eq(&r, &n) {
                return rows[i].enabled;
            }
            assert(rows@.skip(i as int).drop_first() =~= rows@.skip(i + 1));
            i += 1;
        }
        false
    }

    /// The stored flags once `feature_name` is switched to `enable`: every flag of
    /// that name is set; an error when there is none.
    pub fn update(rows: &Vec<FeatureRow>, feature_name: &str, enable: bool) -> (r: Result<Vec<FeatureRow>, FeatureError>)
        ensures
            stored(rows@, feature_name@) ==> (r matches Ok(v) && row_views(v@) == updated_rows(
                rows@,
                feature_name@,
                enable,
            )),
            !stored(rows@, feature_name@) ==> r == Err::<Vec<FeatureRow>, FeatureError>(FeatureError::NotFound),
    {
        let n = chars_of(feature_name);
        let mut out: Vec<FeatureRow> = Vec::new();
        let mut found = false;
        let mut i: usize = 0;
        while i < rows.len()
            invariant
                i <= rows.len(),
                n@ == feature_name@,
                row_views(out@) == updated_rows(rows@.take(i as int), feature_name@, enable),
                found == exists|j: int| 0 <= j < i && (#[trigger] rows@[j]).name@ == feature_name@,
            decreases rows.len() - i,
        {
            let r = chars_of(rows[i].name.as_str());
            let hit = seq_eq(&r, &n);
            let ghost o0 = row_views(out@);
            out.push(FeatureRow {
                id: rows[i].id,
                name: rows[i].name.clone(),
                enabled: if hit { enable } else { rows[i].enabled },
            });
            assert(row_views(out@) =~= o0.push((rows@[i as int].id, rows@[i as int].name@, if hit { enable } else { rows@[i as int].enabled })));
            assert(updated_rows(rows@.take(i + 1), feature_name@, enable) =~= updated_rows(rows@.take(i as int), feature_name@, enable).push(
                (rows@[i as int].id, rows@[i as int].name@, if hit { enable } else { rows@[i as int].enabled }),
            ));
            if hit {
                found = true;
            }
            i += 1;
        }
        assert(rows@.take(i as int) =~= rows@);
        if found {
            Ok(out)
        } else {
            Err(FeatureError::NotFound)
        }
    }
}

/// What a switch writes is what is read back: once a stored flag is switched to
/// `enable`, it reads as `enable`.
pub proof fn lemma_update_then_enabled(rows: Seq<FeatureRow>, after: Seq<FeatureRow>, name: Seq<char>, enable: bool)
    requires
        row_views(after) == updated_rows(rows, name, enable),
    ensures
        stored(rows, name) ==> enabled_spec(after, name) == enable,
    decreases rows.len(),
{
    assert(after.len() == rows.len()) by {
        assert(row_views(after).len() == after.len());
    }
    if rows.len() > 0 {
        assert(row_views(after)[0] == updated_rows(rows, name, enable)[0]);
        let ra = rows.drop_first();
        let aa = after.drop_first();
        assert(row_views(aa) =~= updated_rows(ra, name, enable)) by {
            assert forall|k: int| 0 <= k < aa.len() implies row_views(aa)[k] == updated_rows(ra, name, enable)[k] by {
                assert(row_views(after)[k + 1] == updated_rows(rows, name, enable)[k + 1]);
            }
        }
        lemma_update_then_enabled(ra, aa, name, enable);
        if stored(rows, name) && rows[0].name@ != name {
            let i = choose|i: int| 0 <= i < rows.len() && (#[trigger] rows[i]).name@ == name;
            assert(ra[i - 1] == rows[i]);
        }
    }
}

} // verus!
