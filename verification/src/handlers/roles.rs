//! Game roles picked by reacting: which roles a member gains and loses.
use vstd::prelude::*;
use crate::handlers::holds_id;

verus! {

pub struct Roles;

/// `v` without its consecutive repeats (`Vec::dedup`).
pub open spec fn dedup_spec(v: Seq<u64>) -> Seq<u64>
    decreases v.len(),
{
    if v.len() <= 1 {
        v
    } else if v.last() == v[v.len() - 2] {
        dedup_spec(v.drop_last())
    } else {
        dedup_spec(v.drop_last()).push(v.last())
    }
}

/// The picked roles the member lacks, in order.
pub open spec fn to_add(picked: Seq<u64>, held: Seq<u64>) -> Seq<u64> {
    picked.filter_map(|r: u64| if held.contains(r) { None } else { Some(r) })
}

/// The picked roles the member holds, in order.
pub open spec fn to_remove(picked: Seq<u64>, held: Seq<u64>) -> Seq<u64> {
    picked.filter_map(|r: u64| if held.contains(r) { Some(r) } else { None })
}

/// The last element of a deduplicated prefix is the last element of the prefix.
proof fn lemma_dedup_last(v: Seq<u64>)
    requires
        v.len() > 0,
    ensures
        dedup_spec(v).len() > 0,
        dedup_spec(v).last() == v.last(),
    decreases v.len(),
{
    if v.len() > 1 {
        if v.last() == v[v.len() - 2] {
            lemma_dedup_last(v.drop_last());
        }
    }
}

/// Appends `x` to a deduplicated vector unless it repeats the last element.
fn push_dedup(out: &mut Vec<u64>, x: u64, Ghost(src): Ghost<Seq<u64>>)
    requires
        old(out)@ == dedup_spec(src),
    ensures
        final(out)@ == dedup_spec(src.push(x)),
{
    proof {
        assert(src.push(x).drop_last() =~= src);
        if src.len() > 0 {
            lemma_dedup_last(src);
            assert(src.push(x)[src.push(x).len() - 2] == src.last());
        }
    }
    if out.len() > 0 && out[out.len() - 1] == x {
    } else {
        out.push(x);
    }
}

impl Roles {
    /// The role `role_id`, if the member holds it.
    pub fn does_user_have_role(user_roles: &Vec<u64>, role_id: u64) -> (r: Option<u64>)
        ensures
            r == (if user_roles@.contains(role_id) { Some(role_id) } else { None }),
    {
        if holds_id(user_roles, role_id) {
            Some(role_id)
        } else {
            None
        }
    }

    /// The roles to add and to remove for the roles a member picked (in the order of
    /// their reactions): those they lack are added, those they hold removed, each list
    /// without consecutive repeats.
    pub fn plan_changes(picked: &Vec<u64>, held: &Vec<u64>) -> (r: (Vec<u64>, Vec<u64>))
        ensures
            r.0@ == dedup_spec(to_add(picked@, held@)),
            r.1@ == dedup_spec(to_remove(picked@, held@)),
    {
        let mut add: Vec<u64> = Vec::new();
        let mut remove: Vec<u64> = Vec::new();
        let mut i: usize = 0;
        assert(picked@.take(0) =~= Seq::<u64>::empty());
        assert(to_add(picked@.take(0), held@) =~= Seq::<u64>::empty());
        assert(to_remove(picked@.take(0), held@) =~= Seq::<u64>::empty());
        while i < picked.len()
            invariant
                i <= picked.len(),
                add@ == dedup_spec(to_add(picked@.take(i as int), held@)),
                remove@ == dedup_spec(to_remove(picked@.take(i as int), held@)),
            decreases picked.len() - i,
        {
            assert(picked@.take(i + 1).drop_last() =~= picked@.take(i as int));
            assert(picked@.take(i + 1).last() == picked@[i as int]);
            let r = picked[i];
            if holds_id(held, r) {
                push_dedup(&mut remove, r, Ghost(to_remove(picked@.take(i as int), held@)));
                assert(to_remove(picked@.take(i + 1), held@) =~= to_remove(picked@.take(i as int), held@).push(r));
                assert(to_add(picked@.take(i + 1), held@) =~= to_add(picked@.take(i as int), held@));
            } else {
                push_dedup(&mut add, r, Ghost(to_add(picked@.take(i as int), held@)));
                assert(to_add(picked@.take(i + 1), held@) =~= to_add(picked@.take(i as int), held@).push(r));
                assert(to_remove(picked@.take(i + 1), held@) =~= to_remove(picked@.take(i as int), held@));
            }
            i += 1;
        }
        assert(picked@.take(i as int) =~= picked@);
        (add, remove)
    }
}

} // verus!
