//! `/cull`: which inactive members to kick, and everything the command says.
use vstd::prelude::*;
use crate::calendar::{civil_date, civil_from_days};
use crate::text::{
    chars_of, decimal, joined, push_i64, push_str, push_u64, push_u64_padded, seq_eq,
    signed_decimal, string_of, zero_padded,
};
use crate::handlers::{holds_id, GuildRole, HandlerResponse};

verus! {

/// Channel for moderator-only output.
pub const CAT_HERDING_CHANNEL_ID: u64 = 1224402885786472659;

/// Most members kicked by one run.
pub const MAX_KICKS: usize = 50;

/// Pause between two kicks, in milliseconds.
pub const KICK_DELAY_MS: u64 = 1500;

/// Members fetched per page.
pub const MEMBERS_PAGE_SIZE: usize = 1000;

/// Candidates listed in a dry run.
pub const DRY_RUN_LISTED: usize = 25;

/// What the cull needs to know of a guild member.
#[derive(Debug, Clone)]
pub struct CullMember {
    pub user_id: u64,
    pub bot: bool,
    pub roles: Vec<u64>,
    pub in_gulag: bool,
}

/// Why a cull could not run.
#[derive(Debug, Clone, Copy, PartialEq, Eq, Structural)]
pub enum CullError {
    /// The inactivity threshold is not between 1 and 365 days.
    DaysOutOfRange,
}

pub struct CullHandler;

// ---------------------------------------------------------------------------
// Whitelist
// ---------------------------------------------------------------------------

/// Roles whose holders are never culled.
pub open spec fn is_whitelist_role_spec(name: Seq<char>) -> bool {
    name == "Highly Regarded"@ || name == "admin"@
}

/// Whether holders of the role named `name` are spared.
pub fn is_whitelist_role(name: &str) -> (b: bool)
    ensures
        b == is_whitelist_role_spec(name@),
{
    let n = chars_of(name);
    let a = chars_of("Highly Regarded");
    let b = chars_of("admin");
    seq_eq(&n, &a) || seq_eq(&n, &b)
}

/// The names of the roles whose holders are spared.
pub fn whitelist_roles() -> (r: Vec<String>)
    ensures
        r@.len() == 2,
        r@[0]@ == "Highly Regarded"@,
        r@[1]@ == "admin"@,
{
    let mut r: Vec<String> = Vec::new();
    r.push(String::from_str("Highly Regarded"));
    r.push(String::from_str("admin"));
    r
}

/// The ids of the whitelisted roles among `roles`, in their order.
pub open spec fn whitelist_ids_spec(roles: Seq<GuildRole>) -> Seq<u64>
    decreases roles.len(),
{
    if roles.len() == 0 {
        seq![]
    } else {
        whitelist_ids_spec(roles.drop_last()) + (if is_whitelist_role_spec(roles.last().name@) {
            seq![roles.last().id]
        } else {
            Seq::<u64>::empty()
        })
    }
}

/// The ids of the guild's whitelisted roles.
pub fn get_whitelist_role_ids(roles: &Vec<GuildRole>) -> (r: Vec<u64>)
    ensures
        r@ == whitelist_ids_spec(roles@),
{
    let mut r: Vec<u64> = Vec::new();
    let mut i: usize = 0;
    while i < roles.len()
        invariant
            i <= roles.len(),
            r@ == whitelist_ids_spec(roles@.take(i as int)),
        decreases roles.len() - i,
    {
        proof {
            assert(roles@.take(i + 1).drop_last() =~= roles@.take(i as int));
        }
        if is_whitelist_role(roles[i].name.as_str()) {
            r.push(roles[i].id);
        }
        proof {
            assert(r@ =~= whitelist_ids_spec(roles@.take(i + 1)));
        }
        i += 1;
    }
    assert(roles@.take(roles.len() as int) =~= roles@);
    r
}

// ---------------------------------------------------------------------------
// Candidates
// ---------------------------------------------------------------------------

/// The member holds one of the roles in `ids`.
pub open spec fn has_any_role_spec(roles: Seq<u64>, ids: Seq<u64>) -> bool {
    exists|i: int| 0 <= i < roles.len() && ids.contains(#[trigger] roles[i])
}

/// Whether a member holds any of the roles in `role_ids`.
pub fn member_has_any_role_ids(member: &CullMember, role_ids: &Vec<u64>) -> (b: bool)
    ensures
        b == has_any_role_spec(member.roles@, role_ids@),
{
    let mut i: usize = 0;
    while i < member.roles.len()
        invariant
            i <= member.roles.len(),
            forall|k: int| 0 <= k < i ==> !role_ids@.contains(#[trigger] member.roles@[k]),
        decreases member.roles.len() - i,
    {
        if holds_id(role_ids, member.roles[i]) {
            return true;
        }
        i += 1;
    }
    false
}

/// The stored ids hold `x` (ids that are negative stand for no member).
pub open spec fn lists(ids: Seq<i64>, x: u64) -> bool {
    exists|j: int| 0 <= j < ids.len() && ids[j] == x as int
}

/// Whether the stored ids hold `x`.
fn lists_exec(ids: &Vec<i64>, x: u64) -> (b: bool)
    ensures
        b == lists(ids@, x),
{
    let mut i: usize = 0;
    while i < ids.len()
        invariant
            i <= ids.len(),
            forall|k: int| 0 <= k < i ==> ids@[k] != x as int,
        decreases ids.len() - i,
    {
        if ids[i] >= 0 && ids[i] as u64 == x {
            return true;
        }
        i += 1;
    }
    false
}

/// A member that may be culled: not a bot, no whitelisted role, not in the gulag.
pub open spec fn cullable(m: CullMember, whitelist: Seq<u64>) -> bool {
    !m.bot && !has_any_role_spec(m.roles@, whitelist) && !m.in_gulag
}

/// A member is a candidate when cullable and either inactive or, when asked for,
/// never seen posting (only when the posted_ids ids could be read).
pub open spec fn is_candidate_member(
    m: CullMember,
    whitelist: Seq<u64>,
    inactive: Seq<i64>,
    include_never_posted: bool,
    posted_ids: Option<Seq<i64>>,
) -> bool {
    &&& cullable(m, whitelist)
    &&& (lists(inactive, m.user_id) || (include_never_posted && posted_ids is Some && !lists(
        posted_ids->0,
        m.user_id,
    )))
}

/// The ids of the candidate members among the first `n` members.
pub open spec fn candidate_ids(
    members: Seq<CullMember>,
    n: int,
    whitelist: Seq<u64>,
    inactive: Seq<i64>,
    include_never_posted: bool,
    posted_ids: Option<Seq<i64>>,
) -> Set<u64> {
    Set::new(
        |x: u64|
            exists|k: int|
                0 <= k < n && #[trigger] members[k].user_id == x && is_candidate_member(
                    members[k],
                    whitelist,
                    inactive,
                    include_never_posted,
                    posted_ids,
                ),
    )
}

/// `r` is the at most `cap` smallest elements of `s`, in increasing order.
pub open spec fn smallest_sorted(r: Seq<u64>, s: Set<u64>, cap: nat) -> bool {
    &&& forall|i: int, j: int| 0 <= i < j < r.len() ==> r[i] < r[j]
    &&& r.len() <= cap
    &&& forall|i: int| 0 <= i < r.len() ==> s.contains(#[trigger] r[i])
    &&& forall|x: u64| #[trigger]
        s.contains(x) ==> r.contains(x) || (r.len() == cap && x > r.last())
}

/// Adds `x` to the capped sorted selection `r` of the set `s`.
fn insert_capped(r: &mut Vec<u64>, x: u64, cap: usize, Ghost(s): Ghost<Set<u64>>)
    requires
        cap > 0,
        smallest_sorted(old(r)@, s, cap as nat),
    ensures
        smallest_sorted(final(r)@, s.insert(x), cap as nat),
{
    let ghost r0 = r@;
    let mut p: usize = 0;
    while p < r.len() && r[p] < x
        invariant
            r@ == r0,
            p <= r.len(),
            forall|k: int| 0 <= k < p ==> r@[k] < x,
        decreases r.len() - p,
    {
        p += 1;
    }
    if p < r.len() && r[p] == x {
        assert(r@.contains(x)) by {
            assert(r@[p as int] == x);
        }
        return;
    }
    // x is absent from r and belongs at position p
    assert(!r0.contains(x)) by {
        if r0.contains(x) {
            let k = choose|k: int| 0 <= k < r0.len() && r0[k] == x;
            if k < p {
            } else {
                assert(r0[p as int] <= r0[k]);
            }
        }
    }
    if p == r.len() && r.len() == cap {
        // x is larger than every kept element
        assert forall|y: u64| #[trigger] s.insert(x).contains(y) implies r@.contains(y) || (
        r@.len() == cap && y > r@.last()) by {
            if y == x {
                assert(x > r@.last());
            }
        }
        return;
    }
    r.insert(p, x);
    let ghost r1 = r@;
    assert(r1 == r0.insert(p as int, x));
    assert forall|i: int, j: int| 0 <= i < j < r1.len() implies r1[i] < r1[j] by {
        if j < p {
        } else if j == p {
        } else if i < p {
            assert(r1[j] == r0[j - 1]);
            if p < r0.len() {
                assert(x < r0[p as int]);
            }
        } else if i == p {
            assert(r1[j] == r0[j - 1]);
            assert(r0[p as int] <= r0[j - 1]);
        } else {
            assert(r1[i] == r0[i - 1]);
            assert(r1[j] == r0[j - 1]);
        }
    }
    assert forall|y: u64| r0.contains(y) implies #[trigger] r1.contains(y) by {
        let k = choose|k: int| 0 <= k < r0.len() && r0[k] == y;
        if k < p {
            assert(r1[k] == y);
        } else {
            assert(r1[k + 1] == y);
        }
    }
    assert(r1[p as int] == x);
    if r.len() > cap {
        r.pop();
        let ghost r2 = r@;
        assert(r2 =~= r1.subrange(0, cap as int));
        assert(r0.len() == cap);
        assert(p < cap);
        // the dropped element was the largest one kept before
        assert(r1.last() == r0.last());
        assert forall|i: int, j: int| 0 <= i < j < r2.len() implies r2[i] < r2[j] by {
            assert(r2[i] == r1[i]);
            assert(r2[j] == r1[j]);
        }
        assert forall|i: int| 0 <= i < r2.len() implies s.insert(x).contains(#[trigger] r2[i]) by {
            assert(r2[i] == r1[i]);
            if i != p {
                if i < p {
                    assert(r1[i] == r0[i]);
                } else {
                    assert(r1[i] == r0[i - 1]);
                }
            }
        }
        assert forall|y: u64| #[trigger] s.insert(x).contains(y) implies r2.contains(y) || (
        r2.len() == cap && y > r2.last()) by {
            assert(r2.last() == r1[cap - 1]);
            assert(r2.last() < r1.last());
            if y == x {
                assert(r2[p as int] == x);
            } else if r0.contains(y) {
                assert(r1.contains(y));
                let k = choose|k: int| 0 <= k < r1.len() && r1[k] == y;
                if k < cap {
                    assert(r2[k] == r1[k]);
                    assert(r2.contains(y));
                } else {
                    assert(y == r1.last());
                }
            } else {
                assert(y > r0.last());
            }
        }
    } else {
        assert forall|i: int| 0 <= i < r1.len() implies s.insert(x).contains(#[trigger] r1[i]) by {
            if i != p {
                if i < p {
                    assert(r1[i] == r0[i]);
                } else {
                    assert(r1[i] == r0[i - 1]);
                }
            }
        }
        assert forall|y: u64| #[trigger] s.insert(x).contains(y) implies r1.contains(y) || (
        r1.len() == cap && y > r1.last()) by {
            if y == x {
            } else if r0.contains(y) {
            } else {
                assert(r0.len() == cap);
            }
        }
    }
}

/// Members eligible for the cull, sorted by id, without repeats, and capped at
/// [`MAX_KICKS`]: the smallest ids of the candidates (see [`is_candidate_member`]).
/// `tracked_ids` is `None` when the ids of members ever seen posting could not be read.
pub fn select_candidates(
    members: &Vec<CullMember>,
    whitelist_role_ids: &Vec<u64>,
    inactive_ids: &Vec<i64>,
    include_never_posted: bool,
    tracked_ids: &Option<Vec<i64>>,
) -> (r: Vec<u64>)
    ensures
        smallest_sorted(
            r@,
            candidate_ids(
                members@,
                members@.len() as int,
                whitelist_role_ids@,
                inactive_ids@,
                include_never_posted,
                match tracked_ids {
                    Some(t) => Some(t@),
                    None => None,
                },
            ),
            MAX_KICKS as nat,
        ),
{
    let ghost posted_ids: Option<Seq<i64>> = match tracked_ids {
        Some(t) => Some(t@),
        None => None,
    };
    let mut r: Vec<u64> = Vec::new();
    let mut i: usize = 0;
    assert(candidate_ids(
        members@,
        0,
        whitelist_role_ids@,
        inactive_ids@,
        include_never_posted,
        posted_ids,
    ) =~= Set::empty());
    while i < members.len()
        invariant
            i <= members.len(),
            smallest_sorted(
                r@,
                candidate_ids(
                    members@,
                    i as int,
                    whitelist_role_ids@,
                    inactive_ids@,
                    include_never_posted,
                    posted_ids,
                ),
                MAX_KICKS as nat,
            ),
            posted_ids == (match tracked_ids {
                Some(t) => Some(t@),
                None => None::<Seq<i64>>,
            }),
        decreases members.len() - i,
    {
        let m = &members[i];
        let ghost before = candidate_ids(
            members@,
            i as int,
            whitelist_role_ids@,
            inactive_ids@,
            include_never_posted,
            posted_ids,
        );
        let ghost after = candidate_ids(
            members@,
            i + 1,
            whitelist_role_ids@,
            inactive_ids@,
            include_never_posted,
            posted_ids,
        );
        let eligible = !m.bot && !member_has_any_role_ids(m, whitelist_role_ids) && !m.in_gulag;
        let mut candidate = false;
        if eligible {
            if lists_exec(inactive_ids, m.user_id) {
                candidate = true;
            } else if include_never_posted {
                match tracked_ids {
                    Some(t) => {
                        if !lists_exec(t, m.user_id) {
                            candidate = true;
                        }
                    },
                    None => {},
                }
            }
        }
        assert(candidate == is_candidate_member(
            members@[i as int],
            whitelist_role_ids@,
            inactive_ids@,
            include_never_posted,
            posted_ids,
        ));
        if candidate {
            insert_capped(&mut r, m.user_id, MAX_KICKS, Ghost(before));
            assert(after =~= before.insert(members@[i as int].user_id));
        } else {
            assert(after =~= before);
        }
        i += 1;
    }
    r
}

// ---------------------------------------------------------------------------
// Options
// ---------------------------------------------------------------------------

/// The inactivity threshold: 30 days when none is given; only 1 to 365 days are accepted.
pub fn parse_days(days: Option<i64>) -> (r: Result<i64, CullError>)
    ensures
        match days {
            None => r == Ok::<i64, CullError>(30),
            Some(d) => if 1 <= d <= 365 {
                r == Ok::<i64, CullError>(d)
            } else {
                r == Err::<i64, CullError>(CullError::DaysOutOfRange)
            },
        },
{
    let d = match days {
        Some(d) => d,
        None => 30,
    };
    if d <= 0 || d > 365 {
        Err(CullError::DaysOutOfRange)
    } else {
        Ok(d)
    }
}

impl CullError {
    /// The reply for this error.
    pub fn message(&self) -> (s: String)
        ensures
            s@ == "Days must be between 1 and 365"@,
    {
        String::from_str("Days must be between 1 and 365")
    }
}

// ---------------------------------------------------------------------------
// Dates
// ---------------------------------------------------------------------------

/// `YYYY-MM-DD`, each field zero-padded.
pub open spec fn date_text(y: int, m: int, d: int) -> Seq<char> {
    zero_padded(decimal(y as nat), 4) + seq!['-'] + zero_padded(decimal(m as nat), 2) + seq!['-']
        + zero_padded(decimal(d as nat), 2)
}

/// The calendar date of a moment given in seconds since the Unix epoch, or
/// `unknown` for a moment before it (`None`).
pub open spec fn timestamp_text(since_epoch: Option<u64>) -> Seq<char> {
    match since_epoch {
        None => "unknown"@,
        Some(secs) => {
            let c = civil_from_days((secs / 86400) as nat);
            date_text(c.0, c.1, c.2)
        },
    }
}

/// The date of a moment as `YYYY-MM-DD`. `since_epoch` holds the whole seconds since
/// 1970-01-01T00:00:00Z, or `None` for a moment before it; a system time counts its
/// seconds in an `i64`, which bounds them.
pub fn format_timestamp(since_epoch: Option<u64>) -> (s: String)
    requires
        fits_system_time(since_epoch),
    ensures
        s@ == timestamp_text(since_epoch),
{
    match since_epoch {
        None => String::from_str("unknown"),
        Some(secs) => {
            let (y, m, d) = civil_date(secs / 86400);
            let mut out: Vec<char> = Vec::new();
            push_u64_padded(&mut out, y, 4);
            out.push('-');
            push_u64_padded(&mut out, m, 2);
            out.push('-');
            push_u64_padded(&mut out, d, 2);
            proof {
                let c = civil_from_days((secs / 86400) as nat);
                assert(out@ =~= date_text(c.0, c.1, c.2));
            }
            string_of(&out)
        },
    }
}

// ---------------------------------------------------------------------------
// Dry run
// ---------------------------------------------------------------------------

/// The key under which a user's activity is stored.
pub open spec fn activity_key(uid: u64) -> i64 {
    if uid <= i64::MAX { uid as i64 } else { i64::MAX }
}

/// The last-message time stored for `key`: the last entry with that key wins, as
/// when the entries are collected into a map.
pub open spec fn last_activity(acts: Seq<(i64, Option<u64>)>, key: i64) -> Option<Option<u64>>
    decreases acts.len(),
{
    if acts.len() == 0 {
        None
    } else if acts.last().0 == key {
        Some(acts.last().1)
    } else {
        last_activity(acts.drop_last(), key)
    }
}

/// A time, in seconds since the epoch, that a system time can hold.
pub open spec fn fits_system_time(t: Option<u64>) -> bool {
    match t {
        Some(secs) => secs <= i64::MAX,
        None => true,
    }
}

/// Every stored time fits a system time.
pub open spec fn activity_in_range(acts: Seq<(i64, Option<u64>)>) -> bool {
    forall|i: int| 0 <= i < acts.len() ==> fits_system_time((#[trigger] acts[i]).1)
}

/// `yes` or `no`.
pub open spec fn yes_no(b: bool) -> Seq<char> {
    if b { "yes"@ } else { "no"@ }
}

/// A candidate's line of the dry run.
pub open spec fn candidate_line(uid: u64, acts: Seq<(i64, Option<u64>)>) -> Seq<char> {
    "<@"@ + decimal(uid as nat) + "> (last active: "@ + match last_activity(acts, activity_key(uid)) {
        Some(ts) => timestamp_text(ts),
        None => "never posted"@,
    } + ")"@
}

/// The lines of the first `n` candidates.
pub open spec fn candidate_lines(cands: Seq<u64>, n: int, acts: Seq<(i64, Option<u64>)>) -> Seq<Seq<char>> {
    Seq::new(n as nat, |i: int| candidate_line(cands[i], acts))
}

/// The listed candidates, at most [`DRY_RUN_LISTED`], and how many more there are.
pub open spec fn candidate_block(cands: Seq<u64>, acts: Seq<(i64, Option<u64>)>) -> Seq<char> {
    let shown = if cands.len() < DRY_RUN_LISTED { cands.len() as int } else { DRY_RUN_LISTED as int };
    joined(candidate_lines(cands, shown, acts), "\n"@) + if cands.len() > DRY_RUN_LISTED {
        "\nand "@ + decimal((cands.len() - DRY_RUN_LISTED) as nat) + " more..."@
    } else {
        Seq::<char>::empty()
    }
}

/// The report of a dry run.
pub open spec fn dry_run_text(
    days: i64,
    include_never_posted: bool,
    cands: Seq<u64>,
    acts: Seq<(i64, Option<u64>)>,
) -> Seq<char> {
    "**Cull Dry-Run** (inactive "@ + signed_decimal(days as int) + "+ days, never posted: "@
        + yes_no(include_never_posted) + ")\n\n"@ + candidate_block(cands, acts)
        + "\n\nTotal candidates: "@ + decimal(cands.len()) + " (capped at "@ + decimal(
        MAX_KICKS as nat,
    ) + ")\nRun `/cull --days "@ + signed_decimal(days as int) + "` to execute."@
}

/// Joining one more part.
proof fn lemma_joined_push(parts: Seq<Seq<char>>, sep: Seq<char>, i: int)
    requires
        0 <= i < parts.len(),
    ensures
        joined(parts.take(i + 1), sep) == if i == 0 {
            parts[0]
        } else {
            joined(parts.take(i), sep) + sep + parts[i]
        },
{
    if i > 0 {
        assert(parts.take(i + 1).drop_last() =~= parts.take(i));
    }
}

/// The stored time of the last entry for `key`.
fn find_activity(acts: &Vec<(i64, Option<u64>)>, key: i64) -> (r: Option<Option<u64>>)
    ensures
        r == last_activity(acts@, key),
{
    let mut i: usize = acts.len();
    assert(acts@.take(i as int) =~= acts@);
    while i > 0
        invariant
            i <= acts.len(),
            last_activity(acts@, key) == last_activity(acts@.take(i as int), key),
        decreases i,
    {
        proof {
            assert(acts@.take(i as int).drop_last() =~= acts@.take(i - 1));
        }
        if acts[i - 1].0 == key {
            return Some(acts[i - 1].1);
        }
        i -= 1;
    }
    None
}

/// Appends a candidate's line.
fn push_candidate_line(out: &mut Vec<char>, uid: u64, acts: &Vec<(i64, Option<u64>)>)
    requires
        activity_in_range(acts@),
    ensures
        final(out)@ == old(out)@ + candidate_line(uid, acts@),
{
    push_str(out, "<@");
    push_u64(out, uid);
    push_str(out, "> (last active: ");
    let key: i64 = if uid <= i64::MAX as u64 { uid as i64 } else { i64::MAX };
    let found = find_activity(acts, key);
    proof {
        lemma_last_activity_in_range(acts@, key);
    }
    let date = match found {
        Some(ts) => format_timestamp(ts),
        None => String::from_str("never posted"),
    };
    push_str(out, date.as_str());
    push_str(out, ")");
    assert(final(out)@ =~= old(out)@ + candidate_line(uid, acts@));
}

/// A stored time found for a key fits a system time.
proof fn lemma_last_activity_in_range(acts: Seq<(i64, Option<u64>)>, key: i64)
    requires
        activity_in_range(acts),
    ensures
        last_activity(acts, key) matches Some(t) ==> fits_system_time(t),
    decreases acts.len(),
{
    if acts.len() > 0 {
        assert(acts[acts.len() - 1] == acts.last());
        if acts.last().0 != key {
            assert forall|i: int| 0 <= i < acts.drop_last().len() implies fits_system_time(
                (#[trigger] acts.drop_last()[i]).1,
            ) by {
                assert(acts.drop_last()[i] == acts[i]);
            }
            lemma_last_activity_in_range(acts.drop_last(), key);
        }
    }
}

/// The dry-run report: the threshold, the first [`DRY_RUN_LISTED`] candidates with the
/// date each last posted (from `activity`, pairs of user id and the seconds since the
/// epoch of their last message, `None` when before it), and the totals.
pub fn dry_run_message(
    days: i64,
    include_never_posted: bool,
    candidates: &Vec<u64>,
    activity: &Vec<(i64, Option<u64>)>,
) -> (s: String)
    requires
        activity_in_range(activity@),
    ensures
        s@ == dry_run_text(days, include_never_posted, candidates@, activity@),
{
    let mut out: Vec<char> = Vec::new();
    push_str(&mut out, "**Cull Dry-Run** (inactive ");
    push_i64(&mut out, days);
    push_str(&mut out, "+ days, never posted: ");
    if include_never_posted {
        push_str(&mut out, "yes");
    } else {
        push_str(&mut out, "no");
    }
    push_str(&mut out, ")\n\n");
    let ghost head = out@;
    let shown: usize = if candidates.len() < DRY_RUN_LISTED { candidates.len() } else { DRY_RUN_LISTED };
    let ghost lines = candidate_lines(candidates@, shown as int, activity@);
    let mut i: usize = 0;
    assert(lines.take(0) =~= Seq::<Seq<char>>::empty());
    while i < shown
        invariant
            i <= shown <= candidates.len(),
            shown == (if candidates.len() < DRY_RUN_LISTED { candidates.len() } else { DRY_RUN_LISTED }),
            lines == candidate_lines(candidates@, shown as int, activity@),
            activity_in_range(activity@),
            out@ == head + joined(lines.take(i as int), "\n"@),
        decreases shown - i,
    {
        proof {
            lemma_joined_push(lines, "\n"@, i as int);
        }
        if i > 0 {
            push_str(&mut out, "\n");
        }
        push_candidate_line(&mut out, candidates[i], activity);
        assert(out@ =~= head + joined(lines.take(i + 1), "\n"@));
        i += 1;
    }
    assert(lines.take(shown as int) =~= lines);
    if candidates.len() > DRY_RUN_LISTED {
        push_str(&mut out, "\nand ");
        push_u64(&mut out, (candidates.len() - DRY_RUN_LISTED) as u64);
        push_str(&mut out, " more...");
    }
    push_str(&mut out, "\n\nTotal candidates: ");
    push_u64(&mut out, candidates.len() as u64);
    push_str(&mut out, " (capped at ");
    push_u64(&mut out, MAX_KICKS as u64);
    push_str(&mut out, ")\nRun `/cull --days ");
    push_i64(&mut out, days);
    push_str(&mut out, "` to execute.");
    assert(out@ =~= dry_run_text(days, include_never_posted, candidates@, activity@));
    string_of(&out)
}

// ---------------------------------------------------------------------------
// Replies and reports
// ---------------------------------------------------------------------------

/// Where the next page of members starts: after the last member fetched, while a
/// page comes back full; `None` once a page is short.
pub fn next_page_after(page_len: usize, last_id: Option<u64>) -> (r: Option<u64>)
    ensures
        r == (if page_len < MEMBERS_PAGE_SIZE { None } else { last_id }),
{
    if page_len < MEMBERS_PAGE_SIZE {
        None
    } else {
        last_id
    }
}

/// The report posted when nobody qualifies.
pub open spec fn no_candidates_text(days: i64, include_never_posted: bool) -> Seq<char> {
    "No candidates found (inactive "@ + signed_decimal(days as int) + "+ days, never posted: "@
        + yes_no(include_never_posted) + ")"@
}

/// The report posted when nobody qualifies.
pub fn no_candidates_report(days: i64, include_never_posted: bool) -> (s: String)
    ensures
        s@ == no_candidates_text(days, include_never_posted),
{
    let mut out: Vec<char> = Vec::new();
    push_str(&mut out, "No candidates found (inactive ");
    push_i64(&mut out, days);
    push_str(&mut out, "+ days, never posted: ");
    if include_never_posted {
        push_str(&mut out, "yes");
    } else {
        push_str(&mut out, "no");
    }
    push_str(&mut out, ")");
    assert(out@ =~= no_candidates_text(days, include_never_posted));
    string_of(&out)
}

/// The reply when nobody qualifies.
pub fn no_candidates_reply() -> (r: HandlerResponse)
    ensures
        r.content@ == "No candidates found."@,
        r.components is None,
        !r.ephemeral,
{
    HandlerResponse::text(String::from_str("No candidates found."), false)
}

/// The reply to a dry run: a pointer to the report when it was posted, else the
/// report itself.
pub fn dry_run_reply(posted: bool, report: &str) -> (r: HandlerResponse)
    ensures
        r.content@ == (if posted {
            "Dry-run posted to <#"@ + decimal(CAT_HERDING_CHANNEL_ID as nat) + ">"@
        } else {
            "Failed to post to <#"@ + decimal(CAT_HERDING_CHANNEL_ID as nat) + ">. Dry-run results:\n\n"@
                + report@
        }),
        r.components is None,
        r.ephemeral,
{
    let mut out: Vec<char> = Vec::new();
    if posted {
        push_str(&mut out, "Dry-run posted to <#");
        push_u64(&mut out, CAT_HERDING_CHANNEL_ID);
        push_str(&mut out, ">");
    } else {
        push_str(&mut out, "Failed to post to <#");
        push_u64(&mut out, CAT_HERDING_CHANNEL_ID);
        push_str(&mut out, ">. Dry-run results:\n\n");
        push_str(&mut out, report);
    }
    proof {
        if posted {
            assert(out@ =~= "Dry-run posted to <#"@ + decimal(CAT_HERDING_CHANNEL_ID as nat) + ">"@);
        } else {
            assert(out@ =~= "Failed to post to <#"@ + decimal(CAT_HERDING_CHANNEL_ID as nat)
                + ">. Dry-run results:\n\n"@ + report@);
        }
    }
    HandlerResponse::text(string_of(&out), true)
}

/// The reply once the kicks are under way; they run on after it.
pub fn cull_started_reply(total: usize) -> (r: HandlerResponse)
    ensures
        r.content@ == "Cull started: "@ + decimal(total as nat) + " candidates. Results will be posted to <#"@
            + decimal(CAT_HERDING_CHANNEL_ID as nat) + ">."@,
        r.components is None,
        r.ephemeral,
{
    let mut out: Vec<char> = Vec::new();
    push_str(&mut out, "Cull started: ");
    push_u64(&mut out, total as u64);
    push_str(&mut out, " candidates. Results will be posted to <#");
    push_u64(&mut out, CAT_HERDING_CHANNEL_ID);
    push_str(&mut out, ">.");
    assert(out@ =~= "Cull started: "@ + decimal(total as nat) + " candidates. Results will be posted to <#"@
        + decimal(CAT_HERDING_CHANNEL_ID as nat) + ">."@);
    HandlerResponse::text(string_of(&out), true)
}

/// The report posted before the first kick.
pub fn cull_start_message(count: usize, days: i64) -> (s: String)
    ensures
        s@ == "Starting cull: "@ + decimal(count as nat) + " candidates (inactive "@ + signed_decimal(
            days as int,
        ) + "+ days)..."@,
{
    let mut out: Vec<char> = Vec::new();
    push_str(&mut out, "Starting cull: ");
    push_u64(&mut out, count as u64);
    push_str(&mut out, " candidates (inactive ");
    push_i64(&mut out, days);
    push_str(&mut out, "+ days)...");
    assert(out@ =~= "Starting cull: "@ + decimal(count as nat) + " candidates (inactive "@
        + signed_decimal(days as int) + "+ days)..."@);
    string_of(&out)
}

/// The audit-log reason given with each kick.
pub fn kick_reason(days: i64, user_name: &str) -> (s: String)
    ensures
        s@ == "Inactive "@ + signed_decimal(days as int) + " days \u{2014} /cull by "@ + user_name@,
{
    let mut out: Vec<char> = Vec::new();
    push_str(&mut out, "Inactive ");
    push_i64(&mut out, days);
    push_str(&mut out, " days \u{2014} /cull by ");
    push_str(&mut out, user_name);
    assert(out@ =~= "Inactive "@ + signed_decimal(days as int) + " days \u{2014} /cull by "@ + user_name@);
    string_of(&out)
}

/// How many of the outcomes are `b`.
pub open spec fn count_outcomes(outcomes: Seq<bool>, b: bool) -> nat
    decreases outcomes.len(),
{
    if outcomes.len() == 0 {
        0
    } else {
        count_outcomes(outcomes.drop_last(), b) + if outcomes.last() == b { 1nat } else { 0nat }
    }
}

/// Every outcome is either a kick or a skip.
pub proof fn lemma_outcomes_partition(outcomes: Seq<bool>)
    ensures
        count_outcomes(outcomes, true) + count_outcomes(outcomes, false) == outcomes.len(),
    decreases outcomes.len(),
{
    if outcomes.len() > 0 {
        lemma_outcomes_partition(outcomes.drop_last());
    }
}

/// The report posted after the last kick: one outcome per candidate, `true` when the
/// kick went through.
pub fn cull_summary(outcomes: &Vec<bool>) -> (s: String)
    ensures
        s@ == "Cull complete: "@ + decimal(count_outcomes(outcomes@, true)) + " kicked, "@ + decimal(
            count_outcomes(outcomes@, false),
        ) + " skipped (errors)."@,
{
    let mut kicked: usize = 0;
    let mut skipped: usize = 0;
    let mut i: usize = 0;
    while i < outcomes.len()
        invariant
            i <= outcomes.len(),
            kicked == count_outcomes(outcomes@.take(i as int), true),
            skipped == count_outcomes(outcomes@.take(i as int), false),
            kicked + skipped == i,
        decreases outcomes.len() - i,
    {
        proof {
            assert(outcomes@.take(i + 1).drop_last() =~= outcomes@.take(i as int));
            lemma_outcomes_partition(outcomes@.take(i as int));
        }
        if outcomes[i] {
            kicked += 1;
        } else {
            skipped += 1;
        }
        i += 1;
    }
    assert(outcomes@.take(i as int) =~= outcomes@);
    let mut out: Vec<char> = Vec::new();
    push_str(&mut out, "Cull complete: ");
    push_u64(&mut out, kicked as u64);
    push_str(&mut out, " kicked, ");
    push_u64(&mut out, skipped as u64);
    push_str(&mut out, " skipped (errors).");
    assert(out@ =~= "Cull complete: "@ + decimal(count_outcomes(outcomes@, true)) + " kicked, "@
        + decimal(count_outcomes(outcomes@, false)) + " skipped (errors)."@);
    string_of(&out)
}

// ---------------------------------------------------------------------------
// Laws
// ---------------------------------------------------------------------------

/// Nobody spared is ever selected: every selected id belongs to a member who is no
/// bot, holds no whitelisted role and is not in the gulag, and who is inactive or,
/// when asked for, never seen posting.
pub proof fn lemma_selected_are_cullable(
    r: Seq<u64>,
    members: Seq<CullMember>,
    whitelist: Seq<u64>,
    inactive: Seq<i64>,
    include_never_posted: bool,
    posted_ids: Option<Seq<i64>>,
    x: u64,
)
    requires
        smallest_sorted(
            r,
            candidate_ids(members, members.len() as int, whitelist, inactive, include_never_posted, posted_ids),
            MAX_KICKS as nat,
        ),
        r.contains(x),
    ensures
        exists|k: int| 0 <= k < members.len() && (#[trigger] members[k]).user_id == x && cullable(members[k], whitelist)
            && is_candidate_member(members[k], whitelist, inactive, include_never_posted, posted_ids),
{
    let i = choose|i: int| 0 <= i < r.len() && r[i] == x;
    assert(candidate_ids(members, members.len() as int, whitelist, inactive, include_never_posted, posted_ids).contains(r[i]));
}

} // verus!
