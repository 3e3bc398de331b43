//! When each member last posted in each guild: recorded in batches, and queried for
//! the inactive, the ever seen, and the last-seen times of chosen members.
use vstd::prelude::*;

verus! {

/// When a member last posted in a guild; seconds since the Unix epoch.
#[derive(Debug, Clone, Copy, PartialEq, Eq, Structural)]
pub struct UserActivity {
    pub user_id: i64,
    pub guild_id: i64,
    pub last_message_at: u64,
    pub created_at: u64,
}

/// Why a batch was refused.
#[derive(Debug, Clone, Copy, PartialEq, Eq, Structural)]
pub enum ActivityError {
    /// The same member of the same guild twice in one batch.
    DuplicateInBatch,
}

/// The row of `(user_id, guild_id)`, if there is one.
pub open spec fn activity_of(rows: Seq<UserActivity>, user_id: i64, guild_id: i64) -> Option<int> {
    if exists|i: int| 0 <= i < rows.len() && (#[trigger] rows[i]).user_id == user_id && rows[i].guild_id
        == guild_id {
        Some(choose|i: int| 0 <= i < rows.len() && (#[trigger] rows[i]).user_id == user_id
            && rows[i].guild_id == guild_id)
    } else {
        None
    }
}

/// No member of a guild has two rows.
pub open spec fn unique_members(rows: Seq<UserActivity>) -> bool {
    forall|i: int, j: int| 0 <= i < j < rows.len() ==> !((#[trigger] rows[i]).user_id == (
    #[trigger] rows[j]).user_id && rows[i].guild_id == rows[j].guild_id)
}

/// No pair twice in a batch.
pub open spec fn distinct_pairs(records: Seq<(i64, i64)>) -> bool {
    forall|i: int, j: int| 0 <= i < j < records.len() ==> #[trigger] records[i] != #[trigger] records[j]
}

/// One posting recorded at `now`: the member's row moves to `now` unless it is later
/// already; a member without a row gets one.
pub open spec fn upsert_one(rows: Seq<UserActivity>, rec: (i64, i64), now: u64) -> Seq<UserActivity> {
    match activity_of(rows, rec.0, rec.1) {
        Some(i) => rows.update(
            i,
            UserActivity {
                last_message_at: if rows[i].last_message_at > now { rows[i].last_message_at } else { now },
                ..rows[i]
            },
        ),
        None => rows.push(UserActivity { user_id: rec.0, guild_id: rec.1, last_message_at: now, created_at: now }),
    }
}

/// A batch of postings recorded in order.
pub open spec fn upserted(rows: Seq<UserActivity>, records: Seq<(i64, i64)>, now: u64) -> Seq<UserActivity>
    decreases records.len(),
{
    if records.len() == 0 {
        rows
    } else {
        upsert_one(upserted(rows, records.drop_last(), now), records.last(), now)
    }
}

/// The members of `guild_id` whose last posting is before `cutoff`, in row order.
pub open spec fn inactive_spec(rows: Seq<UserActivity>, guild_id: i64, cutoff: int) -> Seq<i64> {
    rows.filter_map(|r: UserActivity| if r.guild_id == guild_id && r.last_message_at < cutoff {
        Some(r.user_id)
    } else {
        None
    })
}

/// The members of `guild_id` with a row, in row order.
pub open spec fn tracked_spec(rows: Seq<UserActivity>, guild_id: i64) -> Seq<i64> {
    rows.filter_map(|r: UserActivity| if r.guild_id == guild_id { Some(r.user_id) } else { None })
}

/// The position of the row of `(user_id, guild_id)`.
fn find_activity(rows: &Vec<UserActivity>, user_id: i64, guild_id: i64) -> (r: Option<usize>)
    requires
        unique_members(rows@),
    ensures
        match r {
            Some(i) => i < rows@.len() && activity_of(rows@, user_id, guild_id) == Some(i as int),
            None => activity_of(rows@, user_id, guild_id) is None,
        },
{
    let mut i: usize = 0;
    while i < rows.len()
        invariant
            i <= rows.len(),
            unique_members(rows@),
            forall|j: int| 0 <= j < i ==> !((#[trigger] rows@[j]).user_id == user_id && rows@[j].guild_id
                == guild_id),
        decreases rows.len() - i,
    {
        if rows[i].user_id == user_id && rows[i].guild_id == guild_id {
            proof {
                let k = i as int;
                assert(0 <= k < rows@.len() && (#[trigger] rows@[k]).user_id == user_id && rows@[k].guild_id
                    == guild_id);
                let c = choose|c: int| 0 <= c < rows@.len() && (#[trigger] rows@[c]).user_id == user_id
                    && rows@[c].guild_id == guild_id;
                assert(c == k) by {
                    if c > k {
                        assert(!(rows@[k].user_id == rows@[c].user_id && rows@[k].guild_id == rows@[c].guild_id));
                    }
                }
            }
            return Some(i);
        }
        i += 1;
    }
    None
}

/// Recording one posting keeps every member to one row.
proof fn lemma_upsert_one_unique(rows: Seq<UserActivity>, rec: (i64, i64), now: u64)
    requires
        unique_members(rows),
    ensures
        unique_members(upsert_one(rows, rec, now)),
{
    let after = upsert_one(rows, rec, now);
    match activity_of(rows, rec.0, rec.1) {
        Some(i) => {
            assert forall|a: int, b: int| 0 <= a < b < after.len() implies !((#[trigger] after[a]).user_id == (
            #[trigger] after[b]).user_id && after[a].guild_id == after[b].guild_id) by {
                assert(after[a].user_id == rows[a].user_id && after[a].guild_id == rows[a].guild_id);
                assert(after[b].user_id == rows[b].user_id && after[b].guild_id == rows[b].guild_id);
            }
        },
        None => {
            assert forall|a: int, b: int| 0 <= a < b < after.len() implies !((#[trigger] after[a]).user_id == (
            #[trigger] after[b]).user_id && after[a].guild_id == after[b].guild_id) by {
                if b == rows.len() {
                    assert(after[a] == rows[a]);
                } else {
                    assert(after[a] == rows[a] && after[b] == rows[b]);
                }
            }
        },
    }
}

/// Records a batch of postings at `now` (pairs of member and guild): every member
/// ends at `now` or later; the number of postings recorded. A batch that names a
/// member of a guild twice is refused whole.
pub fn bulk_upsert_activity(rows: Vec<UserActivity>, records: &Vec<(i64, i64)>, now: u64) -> (r: Result<(Vec<UserActivity>, usize), ActivityError>)
    requires
        unique_members(rows@),
    ensures
        distinct_pairs(records@) ==> (r matches Ok((v, n)) && v@ == upserted(rows@, records@, now) && n
            == records@.len() && unique_members(v@)),
        !distinct_pairs(records@) ==> r == Err::<(Vec<UserActivity>, usize), ActivityError>(
            ActivityError::DuplicateInBatch,
        ),
{
    let mut i: usize = 0;
    while i < records.len()
        invariant
            i <= records.len(),
            forall|a: int, b: int| 0 <= a < b < i ==> #[trigger] records@[a] != #[trigger] records@[b],
        decreases records.len() - i,
    {
        let mut j: usize = 0;
        while j < i
            invariant
                j <= i < records.len(),
                forall|a: int| 0 <= a < j ==> records@[a] != records@[i as int],
            decreases i - j,
        {
            if records[j].0 == records[i].0 && records[j].1 == records[i].1 {
                assert(records@[j as int] == records@[i as int]);
                return Err(ActivityError::DuplicateInBatch);
            }
            j += 1;
        }
        i += 1;
    }
    let mut rows = rows;
    let ghost start = rows@;
    let mut k: usize = 0;
    assert(records@.take(0) =~= Seq::<(i64, i64)>::empty());
    while k < records.len()
        invariant
            k <= records.len(),
            unique_members(rows@),
            rows@ == upserted(start, records@.take(k as int), now),
        decreases records.len() - k,
    {
        assert(records@.take(k + 1).drop_last() =~= records@.take(k as int));
        assert(records@.take(k + 1).last() == records@[k as int]);
        let (uid, gid) = records[k];
        proof {
            lemma_upsert_one_unique(rows@, (uid, gid), now);
        }
        match find_activity(&rows, uid, gid) {
            Some(p) => {
                let old = rows[p];
                let last = if old.last_message_at > now { old.last_message_at } else { now };
                rows.set(p, UserActivity { last_message_at: last, ..old });
            },
            None => {
                rows.push(UserActivity { user_id: uid, guild_id: gid, last_message_at: now, created_at: now });
            },
        }
        k += 1;
    }
    assert(records@.take(k as int) =~= records@);
    Ok((rows, records.len()))
}

/// The members of a guild who last posted more than `days` days before `now`.
pub fn query_inactive_users(rows: &Vec<UserActivity>, guild_id: i64, days: i32, now: u64) -> (r: Vec<i64>)
    requires
        days >= 0,
        days * 86400 <= now,
    ensures
        r@ == inactive_spec(rows@, guild_id, now - days * 86400),
{
    let cutoff: u64 = now - (days as u64) * 86400;
    let ghost f = |r: UserActivity| if r.guild_id == guild_id && r.last_message_at < cutoff {
        Some(r.user_id)
    } else {
        None
    };
    let mut out: Vec<i64> = Vec::new();
    let mut i: usize = 0;
    assert(rows@.take(0) =~= Seq::<UserActivity>::empty());
    while i < rows.len()
        invariant
            i <= rows.len(),
            f == (|r: UserActivity| if r.guild_id == guild_id && r.last_message_at < cutoff {
                Some(r.user_id)
            } else {
                None
            }),
            out@ == rows@.take(i as int).filter_map(f),
        decreases rows.len() - i,
    {
        assert(rows@.take(i + 1).drop_last() =~= rows@.take(i as int));
        assert(rows@.take(i + 1).last() == rows@[i as int]);
        if rows[i].guild_id == guild_id && rows[i].last_message_at < cutoff {
            out.push(rows[i].user_id);
        }
        assert(out@ =~= rows@.take(i + 1).filter_map(f));
        i += 1;
    }
    assert(rows@.take(i as int) =~= rows@);
    out
}

/// The members of a guild ever seen posting.
pub fn query_all_tracked_user_ids_for_guild(rows: &Vec<UserActivity>, guild_id: i64) -> (r: Vec<i64>)
    ensures
        r@ == tracked_spec(rows@, guild_id),
{
    let ghost f = |r: UserActivity| if r.guild_id == guild_id { Some(r.user_id) } else { None };
    let mut out: Vec<i64> = Vec::new();
    let mut i: usize = 0;
    assert(rows@.take(0) =~= Seq::<UserActivity>::empty());
    while i < rows.len()
        invariant
            i <= rows.len(),
            f == (|r: UserActivity| if r.guild_id == guild_id { Some(r.user_id) } else { None }),
            out@ == rows@.take(i as int).filter_map(f),
        decreases rows.len() - i,
    {
        assert(rows@.take(i + 1).drop_last() =~= rows@.take(i as int));
        assert(rows@.take(i + 1).last() == rows@[i as int]);
        if rows[i].guild_id == guild_id {
            out.push(rows[i].user_id);
        }
        assert(out@ =~= rows@.take(i + 1).filter_map(f));
        i += 1;
    }
    assert(rows@.take(i as int) =~= rows@);
    out
}

/// The rows of a guild for the members in `user_ids`, in row order.
pub fn query_user_activity_for_ids(rows: &Vec<UserActivity>, guild_id: i64, user_ids: &Vec<i64>) -> (r: Vec<UserActivity>)
    ensures
        r@ == rows@.filter_map(|a: UserActivity| if a.guild_id == guild_id && user_ids@.contains(a.user_id) {
            Some(a)
        } else {
            None
        }),
{
    let ghost f = |a: UserActivity| if a.guild_id == guild_id && user_ids@.contains(a.user_id) {
        Some(a)
    } else {
        None
    };
    let mut out: Vec<UserActivity> = Vec::new();
    let mut i: usize = 0;
    assert(rows@.take(0) =~= Seq::<UserActivity>::empty());
    while i < rows.len()
        invariant
            i <= rows.len(),
            f == (|a: UserActivity| if a.guild_id == guild_id && user_ids@.contains(a.user_id) {
                Some(a)
            } else {
                None
            }),
            out@ == rows@.take(i as int).filter_map(f),
        decreases rows.len() - i,
    {
        assert(rows@.take(i + 1).drop_last() =~= rows@.take(i as int));
        assert(rows@.take(i + 1).last() == rows@[i as int]);
        if rows[i].guild_id == guild_id && contains_i64(user_ids, rows[i].user_id) {
            out.push(rows[i]);
        }
        assert(out@ =~= rows@.take(i + 1).filter_map(f));
        i += 1;
    }
    assert(rows@.take(i as int) =~= rows@);
    out
}

/// Whether `v` holds `x`.
fn contains_i64(v: &Vec<i64>, x: i64) -> (b: bool)
    ensures
        b == v@.contains(x),
{
    let mut i: usize = 0;
    while i < v.len()
        invariant
            i <= v.len(),
            forall|k: int| 0 <= k < i ==> v@[k] != x,
        decreases v.len() - i,
    {
        if v[i] == x {
            return true;
        }
        i += 1;
    }
    false
}

/// Recording a batch keeps every member to one row.
proof fn lemma_upserted_unique(rows: Seq<UserActivity>, records: Seq<(i64, i64)>, now: u64)
    requires
        unique_members(rows),
    ensures
        unique_members(upserted(rows, records, now)),
    decreases records.len(),
{
    if records.len() > 0 {
        lemma_upserted_unique(rows, records.drop_last(), now);
        lemma_upsert_one_unique(upserted(rows, records.drop_last(), now), records.last(), now);
    }
}

/// Recording a posting keeps every row where it was, for the same member, no earlier.
proof fn lemma_upsert_one_keeps(rows: Seq<UserActivity>, rec: (i64, i64), now: u64, i: int)
    requires
        0 <= i < rows.len(),
    ensures
        i < upsert_one(rows, rec, now).len(),
        upsert_one(rows, rec, now)[i].user_id == rows[i].user_id,
        upsert_one(rows, rec, now)[i].guild_id == rows[i].guild_id,
        upsert_one(rows, rec, now)[i].last_message_at >= rows[i].last_message_at,
{
}

/// After a batch recorded at `now`, each member in it has a row at `now` or later.
pub proof fn lemma_upserted_recent(rows: Seq<UserActivity>, records: Seq<(i64, i64)>, now: u64, k: int)
    requires
        0 <= k < records.len(),
    ensures
        exists|i: int| 0 <= i < upserted(rows, records, now).len() && (#[trigger] upserted(rows, records, now)[i]).user_id
            == records[k].0 && upserted(rows, records, now)[i].guild_id == records[k].1
            && upserted(rows, records, now)[i].last_message_at >= now,
    decreases records.len(),
{
    let rest = records.drop_last();
    let before = upserted(rows, rest, now);
    let after = upserted(rows, records, now);
    assert(after == upsert_one(before, records.last(), now));
    if k == records.len() - 1 {
        let rec = records.last();
        match activity_of(before, rec.0, rec.1) {
            Some(i) => {
                assert(after[i].user_id == records[k].0);
            },
            None => {
                let i = before.len() as int;
                assert(after[i].user_id == records[k].0);
            },
        }
    } else {
        assert(rest[k] == records[k]);
        lemma_upserted_recent(rows, rest, now, k);
        let i = choose|i: int| 0 <= i < before.len() && (#[trigger] before[i]).user_id == rest[k].0
            && before[i].guild_id == rest[k].1 && before[i].last_message_at >= now;
        lemma_upsert_one_keeps(before, records.last(), now, i);
        assert(after[i].user_id == records[k].0);
    }
}

/// Posting makes a member active: once a batch is recorded at `now`, no member in
/// it is among the inactive of its guild for any threshold of a day or more.
pub proof fn lemma_recorded_not_inactive(rows: Seq<UserActivity>, records: Seq<(i64, i64)>, now: u64, k: int, days: int)
    requires
        unique_members(rows),
        0 <= k < records.len(),
        days >= 1,
    ensures
        !inactive_spec(upserted(rows, records, now), records[k].1, now - days * 86400).contains(records[k].0),
{
    let after = upserted(rows, records, now);
    let g = records[k].1;
    let u = records[k].0;
    let cutoff = now - days * 86400;
    lemma_upserted_unique(rows, records, now);
    lemma_upserted_recent(rows, records, now, k);
    let i = choose|i: int| 0 <= i < after.len() && (#[trigger] after[i]).user_id == u && after[i].guild_id
        == g && after[i].last_message_at >= now;
    let f = |r: UserActivity| if r.guild_id == g && r.last_message_at < cutoff {
        Some(r.user_id)
    } else {
        None
    };
    if after.filter_map(f).contains(u) {
        after.lemma_filter_map_contains(f, u);
        let t = choose|t: UserActivity| #[trigger] after.contains(t) && f(t) == Some(u);
        let j = choose|j: int| 0 <= j < after.len() && after[j] == t;
        if j != i {
            if j < i {
                assert(!(after[j].user_id == after[i].user_id && after[j].guild_id == after[i].guild_id));
            } else {
                assert(!(after[i].user_id == after[j].user_id && after[i].guild_id == after[j].guild_id));
            }
        }
        assert(false);
    }
}

} // verus!
