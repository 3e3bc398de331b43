//! Character-sequence primitives the handlers are built from: substring search,
//! `str::replace`-style replacement, whitespace trimming and splitting, and
//! decimal rendering of integers. Strings are modelled by their `Seq<char>` view.
use vstd::prelude::*;

verus! {

// ---------------------------------------------------------------------------
// Specifications
// ---------------------------------------------------------------------------

/// `p` occurs in `s` starting at index `i`.
pub open spec fn occurs_at(s: Seq<char>, p: Seq<char>, i: int) -> bool {
    0 <= i && i + p.len() <= s.len() && s.subrange(i, i + p.len()) == p
}

/// `p` is a substring of `s` (`str::contains`).
pub open spec fn has_substring(s: Seq<char>, p: Seq<char>) -> bool {
    exists|i: int| occurs_at(s, p, i)
}

/// `s` begins with `p` (`str::starts_with`).
pub open spec fn has_prefix(s: Seq<char>, p: Seq<char>) -> bool {
    p.len() <= s.len() && s.take(p.len() as int) == p
}

/// `s` ends with `p` (`str::ends_with`).
pub open spec fn has_suffix(s: Seq<char>, p: Seq<char>) -> bool {
    p.len() <= s.len() && s.skip(s.len() - p.len()) == p
}

/// Every non-overlapping occurrence of `p` in `s`, found scanning from the left,
/// replaced by `r` (what `str::replace` computes). An empty pattern matches at
/// every character boundary.
pub open spec fn replaced(s: Seq<char>, p: Seq<char>, r: Seq<char>) -> Seq<char>
    decreases s.len(),
{
    if p.len() == 0 {
        if s.len() == 0 {
            r
        } else {
            r + seq![s[0]] + replaced(s.drop_first(), p, r)
        }
    } else if s.len() < p.len() {
        s
    } else if s.take(p.len() as int) == p {
        r + replaced(s.skip(p.len() as int), p, r)
    } else {
        seq![s[0]] + replaced(s.drop_first(), p, r)
    }
}

/// The Unicode `White_Space` property (`char::is_whitespace`).
pub open spec fn is_ws(c: char) -> bool {
    ||| ('\u{9}' <= c && c <= '\u{d}')
    ||| c == ' '
    ||| c == '\u{85}'
    ||| c == '\u{a0}'
    ||| c == '\u{1680}'
    ||| ('\u{2000}' <= c && c <= '\u{200a}')
    ||| c == '\u{2028}'
    ||| c == '\u{2029}'
    ||| c == '\u{202f}'
    ||| c == '\u{205f}'
    ||| c == '\u{3000}'
}

/// `s` without its leading whitespace (`str::trim_start`).
pub open spec fn trim_start_spec(s: Seq<char>) -> Seq<char>
    decreases s.len(),
{
    if s.len() > 0 && is_ws(s[0]) {
        trim_start_spec(s.drop_first())
    } else {
        s
    }
}

/// `s` without its trailing whitespace (`str::trim_end`).
pub open spec fn trim_end_spec(s: Seq<char>) -> Seq<char>
    decreases s.len(),
{
    if s.len() > 0 && is_ws(s.last()) {
        trim_end_spec(s.drop_last())
    } else {
        s
    }
}

/// `s` without leading and trailing whitespace (`str::trim`).
pub open spec fn trim_spec(s: Seq<char>) -> Seq<char> {
    trim_end_spec(trim_start_spec(s))
}

/// The decimal digit for `d < 10`.
pub open spec fn digit_char(d: nat) -> char {
    if d == 0 { '0' }
    else if d == 1 { '1' }
    else if d == 2 { '2' }
    else if d == 3 { '3' }
    else if d == 4 { '4' }
    else if d == 5 { '5' }
    else if d == 6 { '6' }
    else if d == 7 { '7' }
    else if d == 8 { '8' }
    else { '9' }
}

/// The decimal rendering of `n`, without leading zeros (`{}` on an unsigned integer).
pub open spec fn decimal(n: nat) -> Seq<char>
    decreases n,
{
    if n < 10 {
        seq![digit_char(n)]
    } else {
        decimal(n / 10) + seq![digit_char(n % 10)]
    }
}

/// The decimal rendering of a signed integer (`{}` on `i64`/`i32`).
pub open spec fn signed_decimal(n: int) -> Seq<char> {
    if n < 0 {
        seq!['-'] + decimal((-n) as nat)
    } else {
        decimal(n as nat)
    }
}

/// `k` copies of `c`.
pub open spec fn repeat_char(c: char, k: nat) -> Seq<char>
    decreases k,
{
    if k == 0 { seq![] } else { seq![c] + repeat_char(c, (k - 1) as nat) }
}

/// `s` left-padded with `'0'` to at least `width` characters (`{:0width$}` on an unsigned value).
pub open spec fn zero_padded(s: Seq<char>, width: nat) -> Seq<char> {
    if s.len() >= width {
        s
    } else {
        repeat_char('0', (width - s.len()) as nat) + s
    }
}

/// The words of `s`: maximal runs of non-whitespace characters, in order
/// (`str::split_whitespace`). `cur` is the word under construction.
pub open spec fn split_ws_from(s: Seq<char>, cur: Seq<char>) -> Seq<Seq<char>>
    decreases s.len(),
{
    if s.len() == 0 {
        if cur.len() == 0 { seq![] } else { seq![cur] }
    } else if is_ws(s[0]) {
        (if cur.len() == 0 { Seq::<Seq<char>>::empty() } else { seq![cur] }) + split_ws_from(
            s.drop_first(),
            seq![],
        )
    } else {
        split_ws_from(s.drop_first(), cur.push(s[0]))
    }
}

/// The words of `s` (`str::split_whitespace`).
pub open spec fn words(s: Seq<char>) -> Seq<Seq<char>> {
    split_ws_from(s, seq![])
}

/// The parts joined with `sep` between consecutive parts (`[String]::join`).
pub open spec fn joined(parts: Seq<Seq<char>>, sep: Seq<char>) -> Seq<char>
    decreases parts.len(),
{
    if parts.len() == 0 {
        seq![]
    } else if parts.len() == 1 {
        parts[0]
    } else {
        joined(parts.drop_last(), sep) + sep + parts.last()
    }
}

// ---------------------------------------------------------------------------
// Lemmas
// ---------------------------------------------------------------------------

/// Replacement leaves a sequence that does not contain the (non-empty) pattern unchanged.
pub proof fn lemma_replaced_absent(s: Seq<char>, p: Seq<char>, r: Seq<char>)
    requires
        p.len() > 0,
        !has_substring(s, p),
    ensures
        replaced(s, p, r) == s,
    decreases s.len(),
{
    if s.len() >= p.len() {
        if s.take(p.len() as int) == p {
            assert(s.subrange(0, p.len() as int) =~= s.take(p.len() as int));
            assert(occurs_at(s, p, 0));
        }
        let t = s.drop_first();
        assert forall|i: int| !occurs_at(t, p, i) by {
            if occurs_at(t, p, i) {
                assert(s.subrange(i + 1, i + 1 + p.len()) =~= t.subrange(i, i + p.len()));
                assert(occurs_at(s, p, i + 1));
            }
        }
        lemma_replaced_absent(t, p, r);
        assert(seq![s[0]] + t =~= s);
    }
}

/// When `s` starts with the (non-empty) pattern, replacement consumes that occurrence first.
pub proof fn lemma_replaced_prefix(p: Seq<char>, rest: Seq<char>, r: Seq<char>)
    requires
        p.len() > 0,
    ensures
        replaced(p + rest, p, r) == r + replaced(rest, p, r),
{
    let s = p + rest;
    assert(s.take(p.len() as int) =~= p);
    assert(s.skip(p.len() as int) =~= rest);
}

// ---------------------------------------------------------------------------
// Executable conversions
// ---------------------------------------------------------------------------

/// Appends one character to a string (`String::push`).
#[verifier::external_body]
fn push_char(s: &mut String, c: char)
    ensures
        final(s)@ == old(s)@.push(c),
{
    s.push(c);
}

/// The characters of a string slice, in order.
pub fn chars_of(s: &str) -> (v: Vec<char>)
    ensures
        v@ == s@,
{
    let mut v: Vec<char> = Vec::new();
    for c in it: s.chars()
        invariant
            it.seq() == s@,
            v@ == s@.take(it.index()),
    {
        v.push(c);
    }
    v
}

/// The string made of the given characters, in order.
pub fn string_of(v: &Vec<char>) -> (s: String)
    ensures
        s@ == v@,
{
    let mut s = String::new();
    let mut i: usize = 0;
    while i < v.len()
        invariant
            i <= v.len(),
            s@ == v@.take(i as int),
        decreases v.len() - i,
    {
        push_char(&mut s, v[i]);
        assert(v@.take(i as int).push(v@[i as int]) =~= v@.take(i + 1));
        i += 1;
    }
    assert(v@.take(v.len() as int) =~= v@);
    s
}

/// Appends all of `x` to `out`.
pub fn push_all(out: &mut Vec<char>, x: &Vec<char>)
    ensures
        final(out)@ == old(out)@ + x@,
{
    let mut i: usize = 0;
    while i < x.len()
        invariant
            i <= x.len(),
            out@ == old(out)@ + x@.take(i as int),
        decreases x.len() - i,
    {
        out.push(x[i]);
        assert(x@.take(i as int).push(x@[i as int]) =~= x@.take(i + 1));
        i += 1;
    }
    assert(x@.take(x.len() as int) =~= x@);
}

/// Appends all characters of `x` to `out`.
pub fn push_str(out: &mut Vec<char>, x: &str)
    ensures
        final(out)@ == old(out)@ + x@,
{
    let v = chars_of(x);
    push_all(out, &v);
}

/// The digit character for `d < 10`.
pub fn digit(d: u64) -> (c: char)
    requires
        d < 10,
    ensures
        c == digit_char(d as nat),
{
    if d == 0 { '0' }
    else if d == 1 { '1' }
    else if d == 2 { '2' }
    else if d == 3 { '3' }
    else if d == 4 { '4' }
    else if d == 5 { '5' }
    else if d == 6 { '6' }
    else if d == 7 { '7' }
    else if d == 8 { '8' }
    else { '9' }
}

/// Appends the decimal rendering of `n`.
pub fn push_u64(out: &mut Vec<char>, n: u64)
    ensures
        final(out)@ == old(out)@ + decimal(n as nat),
    decreases n,
{
    if n >= 10 {
        push_u64(out, n / 10);
    }
    out.push(digit(n % 10));
    proof {
        if n >= 10 {
            assert(old(out)@ + decimal((n / 10) as nat) + seq![digit_char((n % 10) as nat)] =~= old(out)@
                + decimal(n as nat));
        } else {
            assert(old(out)@.push(digit_char(n as nat)) =~= old(out)@ + decimal(n as nat));
        }
    }
}

/// Appends `k` copies of `c`.
pub fn push_repeat(out: &mut Vec<char>, c: char, k: usize)
    ensures
        final(out)@ == old(out)@ + repeat_char(c, k as nat),
    decreases k,
{
    if k > 0 {
        out.push(c);
        push_repeat(out, c, k - 1);
        proof {
            assert(old(out)@.push(c) + repeat_char(c, (k - 1) as nat) =~= old(out)@ + repeat_char(
                c,
                k as nat,
            ));
        }
    } else {
        assert(old(out)@ + repeat_char(c, 0) =~= old(out)@);
    }
}

/// Appends `n` zero-padded to at least `width` characters.
pub fn push_u64_padded(out: &mut Vec<char>, n: u64, width: usize)
    ensures
        final(out)@ == old(out)@ + zero_padded(decimal(n as nat), width as nat),
{
    let mut digits: Vec<char> = Vec::new();
    push_u64(&mut digits, n);
    assert(digits@ =~= decimal(n as nat));
    if digits.len() < width {
        push_repeat(out, '0', width - digits.len());
    }
    push_all(out, &digits);
    assert(old(out)@ + zero_padded(decimal(n as nat), width as nat) =~= final(out)@) by {
        if digits.len() >= width {
        } else {
        }
    }
}

/// The magnitude of a signed integer.
pub fn magnitude(n: i64) -> (m: u64)
    ensures
        m as int == (if n < 0 { -(n as int) } else { n as int }),
{
    if n < 0 {
        ((-(n + 1)) as u64) + 1
    } else {
        n as u64
    }
}

/// Appends the decimal rendering of a signed integer.
pub fn push_i64(out: &mut Vec<char>, n: i64)
    ensures
        final(out)@ == old(out)@ + signed_decimal(n as int),
{
    if n < 0 {
        out.push('-');
    }
    push_u64(out, magnitude(n));
    assert(final(out)@ =~= old(out)@ + signed_decimal(n as int));
}

// ---------------------------------------------------------------------------
// Executable searching and replacing
// ---------------------------------------------------------------------------

/// Whether `p` occurs in `s` at index `i`.
pub fn matches_at(s: &Vec<char>, p: &Vec<char>, i: usize) -> (b: bool)
    ensures
        b == occurs_at(s@, p@, i as int),
{
    if i > s.len() || p.len() > s.len() - i {
        return false;
    }
    let mut j: usize = 0;
    while j < p.len()
        invariant
            i + p.len() <= s.len(),
            j <= p.len(),
            forall|k: int| 0 <= k < j ==> s@[i + k] == p@[k],
        decreases p.len() - j,
    {
        if s[i + j] != p[j] {
            assert(s@.subrange(i as int, i + p.len())[j as int] != p@[j as int]);
            return false;
        }
        j += 1;
    }
    assert(s@.subrange(i as int, i + p.len()) =~= p@);
    true
}

/// Whether two character sequences are equal.
pub fn seq_eq(a: &Vec<char>, b: &Vec<char>) -> (r: bool)
    ensures
        r == (a@ == b@),
{
    if a.len() != b.len() {
        return false;
    }
    let r = matches_at(a, b, 0);
    proof {
        assert(a@.subrange(0, b@.len() as int) =~= a@);
    }
    r
}

/// Whether `p` is a substring of `s`.
pub fn contains_chars(s: &Vec<char>, p: &Vec<char>) -> (b: bool)
    ensures
        b == has_substring(s@, p@),
{
    let mut i: usize = 0;
    loop
        invariant
            i <= s.len(),
            forall|k: int| 0 <= k < i ==> !occurs_at(s@, p@, k),
        ensures
            forall|k: int| 0 <= k <= s.len() ==> !occurs_at(s@, p@, k),
        decreases s.len() - i,
    {
        if matches_at(s, p, i) {
            return true;
        }
        if i == s.len() {
            break;
        }
        i += 1;
    }
    assert forall|k: int| !occurs_at(s@, p@, k) by {
        if 0 <= k && k <= s.len() {
        }
    }
    false
}

/// Every non-overlapping occurrence of `p` in `s` replaced by `r`, scanning from the left.
pub fn replace_chars(s: &Vec<char>, p: &Vec<char>, r: &Vec<char>) -> (out: Vec<char>)
    ensures
        out@ == replaced(s@, p@, r@),
{
    let mut out: Vec<char> = Vec::new();
    let mut i: usize = 0;
    assert(s@.skip(0) =~= s@);
    if p.len() == 0 {
        while i < s.len()
            invariant
                p@.len() == 0,
                i <= s.len(),
                out@ + replaced(s@.skip(i as int), p@, r@) == replaced(s@, p@, r@),
            decreases s.len() - i,
        {
            let ghost t = s@.skip(i as int);
            let ghost out0 = out@;
            proof {
                assert(t.drop_first() =~= s@.skip(i + 1));
                assert(t[0] == s@[i as int]);
            }
            push_all(&mut out, r);
            out.push(s[i]);
            proof {
                assert(out0 + (r@ + seq![t[0]] + replaced(t.drop_first(), p@, r@)) =~= out@
                    + replaced(s@.skip(i + 1), p@, r@));
            }
            i += 1;
        }
        push_all(&mut out, r);
        proof {
            assert(s@.skip(i as int).len() == 0);
        }
        return out;
    }
    assert(s@.skip(0) =~= s@);
    while i < s.len()
        invariant
            p@.len() > 0,
            i <= s.len(),
            out@ + replaced(s@.skip(i as int), p@, r@) == replaced(s@, p@, r@),
        decreases s.len() - i,
    {
        let ghost t = s@.skip(i as int);
        let ghost out0 = out@;
        if matches_at(s, p, i) {
            proof {
                assert(t.take(p@.len() as int) =~= s@.subrange(i as int, i + p@.len()));
                assert(t.skip(p@.len() as int) =~= s@.skip(i + p@.len()));
            }
            push_all(&mut out, r);
            i += p.len();
            proof {
                assert(out0 + (r@ + replaced(s@.skip(i as int), p@, r@)) =~= out@ + replaced(
                    s@.skip(i as int),
                    p@,
                    r@,
                ));
            }
        } else {
            proof {
                if t.len() >= p@.len() {
                    assert(t.take(p@.len() as int) =~= s@.subrange(i as int, i + p@.len()));
                    assert(t.take(p@.len() as int) != p@);
                    assert(t.drop_first() =~= s@.skip(i + 1));
                } else {
                    assert(s@.skip(i + 1).len() < p@.len());
                    assert(t =~= seq![s@[i as int]] + s@.skip(i + 1));
                }
            }
            out.push(s[i]);
            i += 1;
            proof {
                assert(out0 + (seq![s@[i - 1]] + replaced(s@.skip(i as int), p@, r@)) =~= out@
                    + replaced(s@.skip(i as int), p@, r@));
            }
        }
    }
    proof {
        assert(s@.skip(i as int).len() == 0);
        assert(out@ + seq![] =~= out@);
    }
    out
}

// ---------------------------------------------------------------------------
// Whitespace: trimming, splitting, joining
// ---------------------------------------------------------------------------

/// The views of a sequence of character vectors.
pub open spec fn views(v: Seq<Vec<char>>) -> Seq<Seq<char>> {
    v.map_values(|w: Vec<char>| w@)
}

/// Whether `c` is whitespace (`char::is_whitespace`).
pub fn is_whitespace(c: char) -> (b: bool)
    ensures
        b == is_ws(c),
{
    ('\u{9}' <= c && c <= '\u{d}') || c == ' ' || c == '\u{85}' || c == '\u{a0}' || c == '\u{1680}'
        || ('\u{2000}' <= c && c <= '\u{200a}') || c == '\u{2028}' || c == '\u{2029}'
        || c == '\u{202f}' || c == '\u{205f}' || c == '\u{3000}'
}

/// The characters of `v` from `i` (inclusive) to `j` (exclusive).
pub fn slice_chars(v: &Vec<char>, i: usize, j: usize) -> (r: Vec<char>)
    requires
        i <= j <= v.len(),
    ensures
        r@ == v@.subrange(i as int, j as int),
{
    let mut r: Vec<char> = Vec::new();
    let mut k: usize = i;
    while k < j
        invariant
            i <= k <= j <= v.len(),
            r@ == v@.subrange(i as int, k as int),
        decreases j - k,
    {
        r.push(v[k]);
        assert(v@.subrange(i as int, k as int).push(v@[k as int]) =~= v@.subrange(i as int, k + 1));
        k += 1;
    }
    r
}

/// `v` without leading and trailing whitespace (`str::trim`).
pub fn trim_chars(v: &Vec<char>) -> (r: Vec<char>)
    ensures
        r@ == trim_spec(v@),
{
    let mut i: usize = 0;
    assert(v@.skip(0) =~= v@);
    while i < v.len() && is_whitespace(v[i])
        invariant
            i <= v.len(),
            trim_start_spec(v@) == trim_start_spec(v@.skip(i as int)),
        decreases v.len() - i,
    {
        assert(v@.skip(i as int).drop_first() =~= v@.skip(i + 1));
        i += 1;
    }
    let ghost t = v@.skip(i as int);
    assert(trim_start_spec(v@) == t);
    let mut j: usize = v.len();
    assert(v@.subrange(i as int, j as int) =~= t);
    while j > i && is_whitespace(v[j - 1])
        invariant
            i <= j <= v.len(),
            trim_end_spec(t) == trim_end_spec(v@.subrange(i as int, j as int)),
        decreases j,
    {
        assert(v@.subrange(i as int, j as int).drop_last() =~= v@.subrange(i as int, j - 1));
        j -= 1;
    }
    slice_chars(v, i, j)
}

/// The words of `v`, in order (`str::split_whitespace`).
pub fn split_words(v: &Vec<char>) -> (r: Vec<Vec<char>>)
    ensures
        views(r@) == words(v@),
{
    let mut r: Vec<Vec<char>> = Vec::new();
    let mut cur: Vec<char> = Vec::new();
    let mut i: usize = 0;
    assert(v@.skip(0) =~= v@);
    assert(views(r@) =~= Seq::<Seq<char>>::empty());
    while i < v.len()
        invariant
            i <= v.len(),
            words(v@) == views(r@) + split_ws_from(v@.skip(i as int), cur@),
        decreases v.len() - i,
    {
        let ghost t = v@.skip(i as int);
        assert(t.drop_first() =~= v@.skip(i + 1));
        assert(t[0] == v@[i as int]);
        if is_whitespace(v[i]) {
            if cur.len() > 0 {
                let ghost r0 = views(r@);
                r.push(cur);
                assert(views(r@) =~= r0 + seq![cur@]);
                cur = Vec::new();
            } else {
                assert(views(r@) + Seq::<Seq<char>>::empty() =~= views(r@));
            }
            assert(cur@ =~= Seq::<char>::empty());
        } else {
            cur.push(v[i]);
        }
        proof {
            assert(words(v@) =~= views(r@) + split_ws_from(v@.skip(i + 1), cur@));
        }
        i += 1;
    }
    assert(v@.skip(i as int).len() == 0);
    if cur.len() > 0 {
        let ghost r0 = views(r@);
        r.push(cur);
        assert(views(r@) =~= r0 + seq![cur@]);
    } else {
        assert(views(r@) + Seq::<Seq<char>>::empty() =~= views(r@));
    }
    r
}

/// The parts joined with `sep` between consecutive parts (`[String]::join`).
pub fn join_chars(parts: &Vec<Vec<char>>, sep: &Vec<char>) -> (r: Vec<char>)
    ensures
        r@ == joined(views(parts@), sep@),
{
    let mut r: Vec<char> = Vec::new();
    let mut i: usize = 0;
    let ghost ps = views(parts@);
    assert(ps.take(0) =~= Seq::<Seq<char>>::empty());
    while i < parts.len()
        invariant
            i <= parts.len(),
            ps == views(parts@),
            r@ == joined(ps.take(i as int), sep@),
        decreases parts.len() - i,
    {
        assert(ps.take(i + 1).drop_last() =~= ps.take(i as int));
        if i > 0 {
            push_all(&mut r, sep);
        } else {
            assert(r@ =~= Seq::<char>::empty());
        }
        push_all(&mut r, &parts[i]);
        assert(ps[i as int] == parts@[i as int]@);
        assert(r@ =~= joined(ps.take(i + 1), sep@));
        i += 1;
    }
    assert(ps.take(i as int) =~= ps);
    r
}

// ---------------------------------------------------------------------------
// Trimming by pattern
// ---------------------------------------------------------------------------

/// `s` with every leading repetition of the (non-empty) pattern `p` removed
/// (`str::trim_start_matches` with a string pattern).
pub open spec fn trim_start_pat(s: Seq<char>, p: Seq<char>) -> Seq<char>
    decreases s.len(),
{
    if p.len() > 0 && has_prefix(s, p) {
        trim_start_pat(s.skip(p.len() as int), p)
    } else {
        s
    }
}

/// `s` with every leading `c` removed (`str::trim_start_matches` with a char).
pub open spec fn trim_start_char(s: Seq<char>, c: char) -> Seq<char>
    decreases s.len(),
{
    if s.len() > 0 && s[0] == c {
        trim_start_char(s.drop_first(), c)
    } else {
        s
    }
}

/// `s` with every trailing `c` removed (`str::trim_end_matches` with a char).
pub open spec fn trim_end_char(s: Seq<char>, c: char) -> Seq<char>
    decreases s.len(),
{
    if s.len() > 0 && s.last() == c {
        trim_end_char(s.drop_last(), c)
    } else {
        s
    }
}

/// Where `trim_start_pat(v[from..], p)` starts in `v`.
pub fn skip_pat(v: &Vec<char>, from: usize, p: &Vec<char>) -> (i: usize)
    requires
        from <= v.len(),
        p.len() > 0,
    ensures
        from <= i <= v.len(),
        trim_start_pat(v@.skip(from as int), p@) == v@.skip(i as int),
{
    let mut i: usize = from;
    while matches_at(v, p, i)
        invariant
            from <= i <= v.len(),
            p@.len() > 0,
            trim_start_pat(v@.skip(from as int), p@) == trim_start_pat(v@.skip(i as int), p@),
        decreases v.len() - i,
    {
        assert(v@.skip(i as int).take(p@.len() as int) =~= v@.subrange(i as int, i + p@.len()));
        assert(v@.skip(i as int).skip(p@.len() as int) =~= v@.skip(i + p@.len()));
        i += p.len();
    }
    proof {
        if p@.len() <= v@.skip(i as int).len() {
            assert(v@.skip(i as int).take(p@.len() as int) =~= v@.subrange(i as int, i + p@.len()));
        }
    }
    i
}

/// Where `trim_start_char(v[from..], c)` starts in `v`.
pub fn skip_char(v: &Vec<char>, from: usize, c: char) -> (i: usize)
    requires
        from <= v.len(),
    ensures
        from <= i <= v.len(),
        trim_start_char(v@.skip(from as int), c) == v@.skip(i as int),
{
    let mut i: usize = from;
    while i < v.len() && v[i] == c
        invariant
            from <= i <= v.len(),
            trim_start_char(v@.skip(from as int), c) == trim_start_char(v@.skip(i as int), c),
        decreases v.len() - i,
    {
        assert(v@.skip(i as int).drop_first() =~= v@.skip(i + 1));
        i += 1;
    }
    i
}

/// Where `trim_end_char(v[from..to], c)` ends in `v`.
pub fn drop_char_back(v: &Vec<char>, from: usize, to: usize, c: char) -> (j: usize)
    requires
        from <= to <= v.len(),
    ensures
        from <= j <= to,
        trim_end_char(v@.subrange(from as int, to as int), c) == v@.subrange(from as int, j as int),
{
    let mut j: usize = to;
    while j > from && v[j - 1] == c
        invariant
            from <= j <= to <= v.len(),
            trim_end_char(v@.subrange(from as int, to as int), c) == trim_end_char(
                v@.subrange(from as int, j as int),
                c,
            ),
        decreases j,
    {
        assert(v@.subrange(from as int, j as int).drop_last() =~= v@.subrange(from as int, j - 1));
        j -= 1;
    }
    j
}

// ---------------------------------------------------------------------------
// Case
// ---------------------------------------------------------------------------

/// The lowercase mapping of a string, character by character, as Unicode defines it
/// (`str::to_lowercase`); it depends on the string alone.
pub uninterp spec fn lowercase(s: Seq<char>) -> Seq<char>;

/// `str::to_lowercase`: the result is the named lowercase mapping of `s`.
#[verifier::external_body]
pub(crate) fn to_lowercase(s: &str) -> (r: String)
    ensures
        r@ == lowercase(s@),
{
    s.to_lowercase()
}

} // verus!
