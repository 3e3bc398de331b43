//! Per-user offense counters (AI slop, Goku polls): read, created, and raised, with
//! at most one counter for each user of a guild; and when each user last had a
//! question answered.
use vstd::prelude::*;

verus! {

/// A user's offense counter in a guild; times are seconds since the Unix epoch.
#[derive(Debug, Clone, Copy, PartialEq, Eq, Structural)]
pub struct UsageCounter {
    pub id: i32,
    pub user_id: i64,
    pub guild_id: i64,
    pub usage_count: i32,
    pub last_at: u64,
    pub created_at: u64,
}

/// Why a counter could not be raised.
#[derive(Debug, Clone, Copy, PartialEq, Eq, Structural)]
pub enum UsageError {
    /// The count would leave the range of a 32-bit integer.
    CountOutOfRange,
    /// No row has the given id.
    NotFound,
}

/// No user of a guild has two counters.
pub open spec fn unique_keys(rows: Seq<UsageCounter>) -> bool {
    forall|i: int, j: int| 0 <= i < j < rows.len() ==> !((#[trigger] rows[i]).user_id == (
    #[trigger] rows[j]).user_id && rows[i].guild_id == rows[j].guild_id)
}

/// The position of the counter of `user_id` in `guild_id`, if there is one.
pub open spec fn counter_of(rows: Seq<UsageCounter>, user_id: i64, guild_id: i64) -> Option<int> {
    if exists|i: int| 0 <= i < rows.len() && (#[trigger] rows[i]).user_id == user_id && rows[i].guild_id
        == guild_id {
        Some(choose|i: int| 0 <= i < rows.len() && (#[trigger] rows[i]).user_id == user_id
            && rows[i].guild_id == guild_id)
    } else {
        None
    }
}

/// The position of the counter of `user_id` in `guild_id`.
fn find_counter(rows: &Vec<UsageCounter>, user_id: i64, guild_id: i64) -> (r: Option<usize>)
    requires
        unique_keys(rows@),
    ensures
        match r {
            Some(i) => i < rows@.len() && counter_of(rows@, user_id, guild_id) == Some(i as int),
            None => counter_of(rows@, user_id, guild_id) is None,
        },
{
    let mut i: usize = 0;
    while i < rows.len()
        invariant
            i <= rows.len(),
            unique_keys(rows@),
            forall|j: int| 0 <= j < i ==> !((#[trigger] rows@[j]).user_id == user_id && rows@[j].guild_id
                == guild_id),
        decreases rows.len() - i,
    {
        if rows[i].user_id == user_id && rows[i].guild_id == guild_id {
            proof {
                let k = i as int;
                assert(0 <= k < rows@.len() && (#[trigger] rows@[k]).user_id == user_id && rows@[k].guild_id
                    == guild_id);
                let c = choose|c: int| 0 <= c < rows@.len() && (#[trigger] rows@[c]).user_id == user_id
                    && rows@[c].guild_id == guild_id;
                assert(c == k) by {
                    if c < k {
                        assert(!(rows@[c].user_id == rows@[k].user_id && rows@[c].guild_id == rows@[k].guild_id));
                    } else if c > k {
                        assert(!(rows@[k].user_id == rows@[c].user_id && rows@[k].guild_id == rows@[c].guild_id));
                    }
                }
            }
            return Some(i);
        }
        i += 1;
    }
    None
}

/// The counter a user starts with in a guild: row `next_id`, at `count`, made at `now`.
pub open spec fn fresh_counter(user_id: i64, guild_id: i64, next_id: i32, count: i32, now: u64) -> UsageCounter {
    UsageCounter { id: next_id, user_id, guild_id, usage_count: count, last_at: now, created_at: now }
}

/// `after` and `c` are the table and counter that looking up the counter of
/// `user_id` in `guild_id` gives: the counter there is, with the table unchanged, or
/// a new one at zero appended to the table.
pub open spec fn found_or_created(
    rows: Seq<UsageCounter>,
    user_id: i64,
    guild_id: i64,
    next_id: i32,
    now: u64,
    after: Seq<UsageCounter>,
    c: UsageCounter,
) -> bool {
    &&& unique_keys(after)
    &&& match counter_of(rows, user_id, guild_id) {
        Some(i) => after == rows && c == rows[i],
        None => c == fresh_counter(user_id, guild_id, next_id, 0, now) && after == rows.push(c),
    }
}

/// `r` is what one more offense of `user_id` in `guild_id` at `now` gives: refused
/// when the count is at its maximum; otherwise the table with the count raised by
/// one (a new counter at one when there was none) and the new count.
pub open spec fn incremented(
    rows: Seq<UsageCounter>,
    user_id: i64,
    guild_id: i64,
    next_id: i32,
    now: u64,
    r: Result<(Vec<UsageCounter>, i32), UsageError>,
) -> bool {
    match counter_of(rows, user_id, guild_id) {
        Some(i) => if rows[i].usage_count == i32::MAX {
            r == Err::<(Vec<UsageCounter>, i32), UsageError>(UsageError::CountOutOfRange)
        } else {
            r matches Ok((v, n)) && n == rows[i].usage_count + 1 && v@ == rows.update(
                i,
                UsageCounter { usage_count: n, last_at: now, ..rows[i] },
            ) && unique_keys(v@)
        },
        None => r matches Ok((v, n)) && n == 1 && v@ == rows.push(
            fresh_counter(user_id, guild_id, next_id, 1, now),
        ) && unique_keys(v@),
    }
}

/// The counter of a user in a guild, created at zero (as row `next_id`, at `now`)
/// when there is none; the table with it.
fn get_or_create_counter(rows: Vec<UsageCounter>, user_id: i64, guild_id: i64, next_id: i32, now: u64) -> (r: (Vec<UsageCounter>, UsageCounter))
    requires
        unique_keys(rows@),
    ensures
        found_or_created(rows@, user_id, guild_id, next_id, now, r.0@, r.1),
{
    match find_counter(&rows, user_id, guild_id) {
        Some(i) => {
            let c = rows[i];
            (rows, c)
        },
        None => {
            let c = UsageCounter { id: next_id, user_id, guild_id, usage_count: 0, last_at: now, created_at: now };
            let mut rows = rows;
            let ghost old_rows = rows@;
            rows.push(c);
            assert forall|i: int, j: int| 0 <= i < j < rows@.len() implies !((#[trigger] rows@[i]).user_id == (
            #[trigger] rows@[j]).user_id && rows@[i].guild_id == rows@[j].guild_id) by {
                if j == rows@.len() - 1 {
                    assert(old_rows[i] == rows@[i]);
                }
            }
            (rows, c)
        },
    }
}

/// One more offense for a user in a guild, at `now`: a new counter at one (row
/// `next_id`) when there is none, else the count raised by one; the new count.
fn increment_counter(rows: Vec<UsageCounter>, user_id: i64, guild_id: i64, next_id: i32, now: u64) -> (r: Result<(Vec<UsageCounter>, i32), UsageError>)
    requires
        unique_keys(rows@),
    ensures
        incremented(rows@, user_id, guild_id, next_id, now, r),
{
    match find_counter(&rows, user_id, guild_id) {
        Some(i) => {
            let c = rows[i];
            if c.usage_count == i32::MAX {
                return Err(UsageError::CountOutOfRange);
            }
            let n = c.usage_count + 1;
            let mut rows = rows;
            let ghost old_rows = rows@;
            rows.set(i, UsageCounter { usage_count: n, last_at: now, ..c });
            assert forall|a: int, b: int| 0 <= a < b < rows@.len() implies !((#[trigger] rows@[a]).user_id == (
            #[trigger] rows@[b]).user_id && rows@[a].guild_id == rows@[b].guild_id) by {
                assert(rows@[a].user_id == old_rows[a].user_id && rows@[a].guild_id == old_rows[a].guild_id);
                assert(rows@[b].user_id == old_rows[b].user_id && rows@[b].guild_id == old_rows[b].guild_id);
            }
            Ok((rows, n))
        },
        None => {
            let c = UsageCounter { id: next_id, user_id, guild_id, usage_count: 1, last_at: now, created_at: now };
            let mut rows = rows;
            let ghost old_rows = rows@;
            rows.push(c);
            assert forall|a: int, b: int| 0 <= a < b < rows@.len() implies !((#[trigger] rows@[a]).user_id == (
            #[trigger] rows@[b]).user_id && rows@[a].guild_id == rows@[b].guild_id) by {
                if b == rows@.len() - 1 {
                    assert(old_rows[a] == rows@[a]);
                }
            }
            Ok((rows, 1))
        },
    }
}

/// The AI-slop counter of a user in a guild, created at zero (as row `next_id`, at
/// `now`) when there is none; the table with it.
pub fn get_or_create_ai_slop_usage(rows: Vec<UsageCounter>, user_id: i64, guild_id: i64, next_id: i32, now: u64) -> (r: (Vec<UsageCounter>, UsageCounter))
    requires
        unique_keys(rows@),
    ensures
        found_or_created(rows@, user_id, guild_id, next_id, now, r.0@, r.1),
{
    get_or_create_counter(rows, user_id, guild_id, next_id, now)
}

/// The Goku-poll counter of a user in a guild, created at zero (as row `next_id`,
/// at `now`) when there is none; the table with it.
pub fn get_or_create_goku_poll_usage(rows: Vec<UsageCounter>, user_id: i64, guild_id: i64, next_id: i32, now: u64) -> (r: (Vec<UsageCounter>, UsageCounter))
    requires
        unique_keys(rows@),
    ensures
        found_or_created(rows@, user_id, guild_id, next_id, now, r.0@, r.1),
{
    get_or_create_counter(rows, user_id, guild_id, next_id, now)
}

/// One more AI-slop offense for a user in a guild, at `now`: a new counter at one
/// (row `next_id`) when there is none, else the count raised by one; the new count.
pub fn atomic_increment_ai_slop(rows: Vec<UsageCounter>, user_id: i64, guild_id: i64, next_id: i32, now: u64) -> (r: Result<(Vec<UsageCounter>, i32), UsageError>)
    requires
        unique_keys(rows@),
    ensures
        incremented(rows@, user_id, guild_id, next_id, now, r),
{
    increment_counter(rows, user_id, guild_id, next_id, now)
}

/// One more Goku poll for a user in a guild, at `now`: a new counter at one (row
/// `next_id`) when there is none, else the count raised by one; the new count.
pub fn atomic_increment_goku_poll(rows: Vec<UsageCounter>, user_id: i64, guild_id: i64, next_id: i32, now: u64) -> (r: Result<(Vec<UsageCounter>, i32), UsageError>)
    requires
        unique_keys(rows@),
    ensures
        incremented(rows@, user_id, guild_id, next_id, now, r),
{
    increment_counter(rows, user_id, guild_id, next_id, now)
}

/// The first row with id `usage_id`.
pub open spec fn row_with_id(rows: Seq<UsageCounter>, usage_id: i32) -> Option<int> {
    if exists|i: int| 0 <= i < rows.len() && (#[trigger] rows[i]).id == usage_id {
        Some(choose|i: int| 0 <= i < rows.len() && (#[trigger] rows[i]).id == usage_id && forall|j: int|
            0 <= j < i ==> (#[trigger] rows[j]).id != usage_id)
    } else {
        None
    }
}

/// Sets the count of row `usage_id` to `new_count`, last raised at `now`; refused
/// when there is no such row. The table and the updated counter.
pub fn increment_ai_slop_usage(rows: Vec<UsageCounter>, usage_id: i32, new_count: i32, now: u64) -> (r: Result<(Vec<UsageCounter>, UsageCounter), UsageError>)
    requires
        unique_keys(rows@),
    ensures
        match row_with_id(rows@, usage_id) {
            Some(i) => r matches Ok((v, c)) && c == (UsageCounter { usage_count: new_count, last_at: now, ..rows@[i] })
                && v@ == rows@.update(i, c) && unique_keys(v@),
            None => r == Err::<(Vec<UsageCounter>, UsageCounter), UsageError>(UsageError::NotFound),
        },
{
    let mut i: usize = 0;
    while i < rows.len()
        invariant
            i <= rows.len(),
            unique_keys(rows@),
            forall|j: int| 0 <= j < i ==> (#[trigger] rows@[j]).id != usage_id,
        decreases rows.len() - i,
    {
        if rows[i].id == usage_id {
            let c = UsageCounter { usage_count: new_count, last_at: now, ..rows[i] };
            let ghost old_rows = rows@;
            assert(forall|j: int| 0 <= j < i ==> (#[trigger] old_rows[j]).id != usage_id);
            let mut rows = rows;
            rows.set(i, c);
            proof {
                let k = i as int;
                assert(0 <= k < old_rows.len() && (#[trigger] old_rows[k]).id == usage_id);
                let w = choose|w: int| 0 <= w < old_rows.len() && (#[trigger] old_rows[w]).id == usage_id
                    && forall|j: int| 0 <= j < w ==> (#[trigger] old_rows[j]).id != usage_id;
                assert(0 <= k < old_rows.len() && old_rows[k].id == usage_id && forall|j: int| 0 <= j < k ==> (#[trigger] old_rows[j]).id != usage_id);
                assert(w == k) by {
                    if w < k {
                        assert(old_rows[w].id != usage_id);
                    } else if w > k {
                        assert(old_rows[k].id != usage_id);
                    }
                }
                assert forall|a: int, b: int| 0 <= a < b < rows@.len() implies !((#[trigger] rows@[a]).user_id == (
                #[trigger] rows@[b]).user_id && rows@[a].guild_id == rows@[b].guild_id) by {
                    assert(rows@[a].user_id == old_rows[a].user_id && rows@[a].guild_id == old_rows[a].guild_id);
                    assert(rows@[b].user_id == old_rows[b].user_id && rows@[b].guild_id == old_rows[b].guild_id);
                }
            }
            return Ok((rows, c));
        }
        i += 1;
    }
    Err(UsageError::NotFound)
}

/// When a user last had a question answered in a guild; times are seconds since the
/// Unix epoch.
#[derive(Debug, Clone, Copy, PartialEq, Eq, Structural)]
pub struct IsThisRealUsage {
    pub id: i32,
    pub user_id: i64,
    pub guild_id: i64,
    pub last_used_at: u64,
    pub created_at: u64,
}

/// The position of the first row of `user_id` in `guild_id`, if there is one.
pub open spec fn question_row_of(rows: Seq<IsThisRealUsage>, user_id: i64, guild_id: i64) -> Option<int> {
    if exists|i: int| 0 <= i < rows.len() && (#[trigger] rows[i]).user_id == user_id && rows[i].guild_id == guild_id {
        Some(choose|i: int| 0 <= i < rows.len() && (#[trigger] rows[i]).user_id == user_id && rows[i].guild_id
            == guild_id && forall|j: int| 0 <= j < i ==> !((#[trigger] rows[j]).user_id == user_id
            && rows[j].guild_id == guild_id))
    } else {
        None
    }
}

/// The position of the first row with id `usage_id`, if there is one.
pub open spec fn question_row_with_id(rows: Seq<IsThisRealUsage>, usage_id: i32) -> Option<int> {
    if exists|i: int| 0 <= i < rows.len() && (#[trigger] rows[i]).id == usage_id {
        Some(choose|i: int| 0 <= i < rows.len() && (#[trigger] rows[i]).id == usage_id && forall|j: int|
            0 <= j < i ==> (#[trigger] rows[j]).id != usage_id)
    } else {
        None
    }
}

/// The position of the first row of `user_id` in `guild_id`.
fn find_question_row(rows: &Vec<IsThisRealUsage>, user_id: i64, guild_id: i64) -> (r: Option<usize>)
    ensures
        match r {
            Some(i) => i < rows@.len() && question_row_of(rows@, user_id, guild_id) == Some(i as int),
            None => question_row_of(rows@, user_id, guild_id) is None,
        },
{
    let mut i: usize = 0;
    while i < rows.len()
        invariant
            i <= rows.len(),
            forall|j: int| 0 <= j < i ==> !((#[trigger] rows@[j]).user_id == user_id && rows@[j].guild_id == guild_id),
        decreases rows.len() - i,
    {
        if rows[i].user_id == user_id && rows[i].guild_id == guild_id {
            proof {
                let k = i as int;
                assert(0 <= k < rows@.len() && (#[trigger] rows@[k]).user_id == user_id && rows@[k].guild_id == guild_id);
                let w = choose|w: int| 0 <= w < rows@.len() && (#[trigger] rows@[w]).user_id == user_id
                    && rows@[w].guild_id == guild_id && forall|j: int| 0 <= j < w ==> !((#[trigger] rows@[j]).user_id
                    == user_id && rows@[j].guild_id == guild_id);
                assert(w == k) by {
                    if w < k {
                        assert(!(rows@[w].user_id == user_id && rows@[w].guild_id == guild_id));
                    } else if w > k {
                        assert(!(rows@[k].user_id == user_id && rows@[k].guild_id == guild_id));
                    }
                }
            }
            return Some(i);
        }
        i += 1;
    }
    None
}

/// The row of a user in a guild, if there is one.
pub fn get_is_this_real_usage(rows: &Vec<IsThisRealUsage>, user_id: i64, guild_id: i64) -> (r: Option<IsThisRealUsage>)
    ensures
        match question_row_of(rows@, user_id, guild_id) {
            Some(i) => r == Some(rows@[i]),
            None => r is None,
        },
{
    match find_question_row(rows, user_id, guild_id) {
        Some(i) => Some(rows[i]),
        None => None,
    }
}

/// The row of a user in a guild, created (as row `next_id`, at `now`) when there is
/// none; the table with it.
pub fn get_or_create_is_this_real_usage(rows: Vec<IsThisRealUsage>, user_id: i64, guild_id: i64, next_id: i32, now: u64) -> (r: (Vec<IsThisRealUsage>, IsThisRealUsage))
    ensures
        match question_row_of(rows@, user_id, guild_id) {
            Some(i) => r.0@ == rows@ && r.1 == rows@[i],
            None => r.1 == (IsThisRealUsage { id: next_id, user_id, guild_id, last_used_at: now, created_at: now })
                && r.0@ == rows@.push(r.1),
        },
{
    match find_question_row(&rows, user_id, guild_id) {
        Some(i) => {
            let u = rows[i];
            (rows, u)
        },
        None => {
            let u = IsThisRealUsage { id: next_id, user_id, guild_id, last_used_at: now, created_at: now };
            let mut rows = rows;
            rows.push(u);
            (rows, u)
        },
    }
}

/// Row `usage_id` marked as used at `now`; refused when there is no such row. The
/// table and the updated row.
pub fn update_is_this_real_usage(rows: Vec<IsThisRealUsage>, usage_id: i32, now: u64) -> (r: Result<(Vec<IsThisRealUsage>, IsThisRealUsage), UsageError>)
    ensures
        match question_row_with_id(rows@, usage_id) {
            Some(i) => r matches Ok((v, u)) && u == (IsThisRealUsage { last_used_at: now, ..rows@[i] })
                && v@ == rows@.update(i, u),
            None => r == Err::<(Vec<IsThisRealUsage>, IsThisRealUsage), UsageError>(UsageError::NotFound),
        },
{
    let mut i: usize = 0;
    while i < rows.len()
        invariant
            i <= rows.len(),
            forall|j: int| 0 <= j < i ==> (#[trigger] rows@[j]).id != usage_id,
        decreases rows.len() - i,
    {
        if rows[i].id == usage_id {
            let u = IsThisRealUsage { last_used_at: now, ..rows[i] };
            proof {
                let k = i as int;
                assert(0 <= k < rows@.len() && (#[trigger] rows@[k]).id == usage_id);
                let w = choose|w: int| 0 <= w < rows@.len() && (#[trigger] rows@[w]).id == usage_id
                    && forall|j: int| 0 <= j < w ==> (#[trigger] rows@[j]).id != usage_id;
                assert(w == k) by {
                    if w < k {
                        assert(rows@[w].id != usage_id);
                    } else if w > k {
                        assert(rows@[k].id != usage_id);
                    }
                }
            }
            let mut rows = rows;
            rows.set(i, u);
            return Ok((rows, u));
        }
        i += 1;
    }
    Err(UsageError::NotFound)
}

/// Each offense raises the count by exactly one: after an increment to `n`, the
/// counter reads `n`, and the next increment gives `n + 1`.
pub proof fn lemma_increment_counts_up(
    rows: Seq<UsageCounter>,
    after: Seq<UsageCounter>,
    n: i32,
    user_id: i64,
    guild_id: i64,
    next_id: i32,
    now: u64,
)
    requires
        unique_keys(rows),
        unique_keys(after),
        match counter_of(rows, user_id, guild_id) {
            Some(i) => rows[i].usage_count < i32::MAX && n == rows[i].usage_count + 1 && after == rows.update(
                i,
                UsageCounter { usage_count: n, last_at: now, ..rows[i] },
            ),
            None => n == 1 && after == rows.push(
                UsageCounter { id: next_id, user_id, guild_id, usage_count: 1, last_at: now, created_at: now },
            ),
        },
    ensures
        counter_of(after, user_id, guild_id) matches Some(k) && after[k].usage_count == n,
{
    match counter_of(rows, user_id, guild_id) {
        Some(i) => {
            assert(after[i].user_id == user_id && after[i].guild_id == guild_id);
            let k = choose|k: int| 0 <= k < after.len() && (#[trigger] after[k]).user_id == user_id
                && after[k].guild_id == guild_id;
            assert(k == i) by {
                if k < i {
                    assert(!(after[k].user_id == after[i].user_id && after[k].guild_id == after[i].guild_id));
                } else if k > i {
                    assert(!(after[i].user_id == after[k].user_id && after[i].guild_id == after[k].guild_id));
                }
            }
        },
        None => {
            let last = after.len() - 1;
            assert(after[last].user_id == user_id && after[last].guild_id == guild_id);
            let k = choose|k: int| 0 <= k < after.len() && (#[trigger] after[k]).user_id == user_id
                && after[k].guild_id == guild_id;
            assert(k == last) by {
                if k < last {
                    assert(after[k] == rows[k]);
                }
            }
        },
    }
}

} // verus!
