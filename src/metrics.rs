//! Decisions of the repository-activity collector: how far back to sync, when
//! to pause for the API's rate limit, which items of a page to store, and the
//! issue number an item's URL names. Instants are nanoseconds since the Unix
//! epoch.
use vstd::prelude::*;
use vstd::string::StringSliceAdditionalSpecFns;

verus! {

/// Below this many remaining API calls the collector waits for the reset.
pub const RATE_LIMIT_FLOOR: u64 = 10;
/// Seconds added to the wait for the rate-limit reset.
pub const RATE_LIMIT_MARGIN: u64 = 5;

/// The instant an RFC 3339 timestamp names, if it is one.
pub uninterp spec fn rfc3339_nanos(s: Seq<char>) -> Option<i64>;

/// Relies on chrono's `DateTime::parse_from_rfc3339`, which reads an RFC 3339
/// timestamp, and `DateTime::timestamp_nanos_opt`, which gives its instant in
/// nanoseconds since the epoch (`None` outside the years 1677 to 2262): the
/// result depends on the text alone.
#[verifier::external_body]
fn parse_rfc3339_nanos(s: &str) -> (r: Option<i64>)
    ensures
        r == rfc3339_nanos(s@),
{
    match chrono::DateTime::parse_from_rfc3339(s) {
        Ok(d) => d.timestamp_nanos_opt(),
        Err(_) => None,
    }
}

/// The instant a timestamp names, or `fallback` when it names none.
pub fn instant_or(s: &str, fallback: i64) -> (r: i64)
    ensures
        r == match rfc3339_nanos(s@) {
            Some(t) => t,
            None => fallback,
        },
{
    match parse_rfc3339_nanos(s) {
        Some(t) => t,
        None => fallback,
    }
}

/// Where a sync starts: the earlier of the last recorded sync and the default
/// window's start; the window's start when nothing was recorded.
pub fn sync_since(saved: Option<i64>, target_start: i64) -> (r: i64)
    ensures
        r == match saved {
            Some(t) => if t < target_start {
                t
            } else {
                target_start
            },
            None => target_start,
        },
{
    match saved {
        Some(t) => if t < target_start {
            t
        } else {
            target_start
        },
        None => target_start,
    }
}

/// Seconds to wait before the next API call: none while enough calls remain,
/// otherwise until the reset plus a margin.
pub fn rate_limit_pause(remaining: u64, reset: u64, now: u64) -> (r: Option<u64>)
    ensures
        r is Some <==> remaining < RATE_LIMIT_FLOOR,
        r matches Some(w) ==> w == if reset >= now {
            if reset - now + RATE_LIMIT_MARGIN > u64::MAX {
                u64::MAX as int
            } else {
                reset - now + RATE_LIMIT_MARGIN
            }
        } else {
            RATE_LIMIT_MARGIN as int
        },
{
    if remaining >= RATE_LIMIT_FLOOR {
        return None;
    }
    let wait = if reset >= now {
        reset - now
    } else {
        0
    };
    if wait > u64::MAX - RATE_LIMIT_MARGIN {
        Some(u64::MAX)
    } else {
        Some(wait + RATE_LIMIT_MARGIN)
    }
}

/// The position of the first item updated before `since`, or the page length.
pub open spec fn cutoff(updated: Seq<Option<i64>>, since: i64, i: int) -> int
    decreases updated.len() - i,
{
    if i < 0 || i >= updated.len() {
        updated.len() as int
    } else if updated[i] matches Some(t) && t < since {
        i
    } else {
        cutoff(updated, since, i + 1)
    }
}

/// The positions below `n` that are not skipped, in order.
pub open spec fn kept(skip: Seq<bool>, n: int) -> Seq<usize>
    decreases n,
{
    if n <= 0 {
        Seq::empty()
    } else if skip[n - 1] {
        kept(skip, n - 1)
    } else {
        kept(skip, n - 1).push((n - 1) as usize)
    }
}

/// Plans one page of items listed newest first: the items to store (those
/// before the first one last updated before `since`, less the skipped ones),
/// and whether to fetch the next page (no item was older than `since`).
pub fn plan_page(updated: &Vec<Option<i64>>, skip: &Vec<bool>, since: i64) -> (r: (Vec<usize>, bool))
    requires
        skip@.len() == updated@.len(),
    ensures
        r.0@ == kept(skip@, cutoff(updated@, since, 0)),
        r.1 == (cutoff(updated@, since, 0) == updated@.len()),
{
    let mut out: Vec<usize> = Vec::new();
    let mut i: usize = 0;
    while i < updated.len()
        invariant
            i <= updated@.len(),
            skip@.len() == updated@.len(),
            cutoff(updated@, since, 0) == cutoff(updated@, since, i as int),
            out@ == kept(skip@, i as int),
        decreases updated@.len() - i,
    {
        match updated[i] {
            Some(t) => {
                if t < since {
                    return (out, false);
                }
            },
            None => {},
        }
        if !skip[i] {
            out.push(i);
        }
        i = i + 1;
    }
    (out, true)
}

/// The days a daily aggregation covers, as offsets back from today: from
/// `days_back` down to 0.
pub fn daily_offsets(days_back: i64) -> (r: Vec<i64>)
    ensures
        days_back < 0 ==> r@.len() == 0,
        days_back >= 0 ==> r@.len() == days_back + 1,
        forall|k: int| 0 <= k < r@.len() ==> r@[k] == days_back - k,
{
    let mut out: Vec<i64> = Vec::new();
    if days_back < 0 {
        return out;
    }
    let mut d: i64 = days_back;
    while d >= 0
        invariant
            -1 <= d <= days_back,
            out@.len() == days_back - d,
            forall|k: int| 0 <= k < out@.len() ==> out@[k] == days_back - k,
        decreases d + 1,
    {
        out.push(d);
        d = d - 1;
    }
    out
}

/// The bytes after the last `/`, or all of them when there is none.
pub open spec fn after_last_slash(b: Seq<u8>) -> Seq<u8>
    decreases b.len(),
{
    if b.len() == 0 {
        b
    } else if b.last() == 47 {
        Seq::empty()
    } else {
        after_last_slash(b.drop_last()).push(b.last())
    }
}

pub open spec fn is_digit(c: u8) -> bool {
    48 <= c <= 57
}

/// The value of a run of decimal digits.
pub open spec fn digits_value(b: Seq<u8>) -> int
    decreases b.len(),
{
    if b.len() == 0 {
        0
    } else {
        digits_value(b.drop_last()) * 10 + (b.last() - 48)
    }
}

pub open spec fn all_digits(d: Seq<u8>) -> bool {
    forall|i: int| 0 <= i < d.len() ==> is_digit(#[trigger] d[i])
}

/// The text after an optional leading sign.
pub open spec fn unsigned_part(b: Seq<u8>) -> Seq<u8> {
    if b.len() > 0 && (b[0] == 45 || b[0] == 43) {
        b.drop_first()
    } else {
        b
    }
}

/// What a signed 64-bit decimal reads as: an optional sign, then one or more
/// digits, with a value in range.
pub open spec fn decimal_i64(b: Seq<u8>) -> Option<i64> {
    let neg = b.len() > 0 && b[0] == 45;
    let d = unsigned_part(b);
    let v = if neg {
        -digits_value(d)
    } else {
        digits_value(d)
    };
    if d.len() == 0 || !all_digits(d) {
        None
    } else if i64::MIN <= v <= i64::MAX {
        Some(v as i64)
    } else {
        None
    }
}

proof fn lemma_after_last_slash(b: Seq<u8>, i: int)
    requires
        0 <= i <= b.len(),
        forall|j: int| i <= j < b.len() ==> b[j] != 47,
        i == 0 || b[i - 1] == 47,
    ensures
        after_last_slash(b) == b.subrange(i, b.len() as int),
    decreases b.len(),
{
    if b.len() == i {
        assert(b.subrange(i, i) =~= Seq::<u8>::empty());
        if i == 0 {
            assert(b =~= Seq::<u8>::empty());
        }
    } else {
        lemma_after_last_slash(b.drop_last(), i);
        assert(b.drop_last().subrange(i, b.len() - 1).push(b.last()) =~= b.subrange(i, b.len() as int));
    }
}

proof fn lemma_digits_grow(d: Seq<u8>, n: int)
    requires
        0 <= n <= d.len(),
        forall|i: int| 0 <= i < d.len() ==> is_digit(#[trigger] d[i]),
    ensures
        0 <= digits_value(d.subrange(0, n)) <= digits_value(d),
    decreases d.len() - n,
{
    if n < d.len() {
        lemma_digits_grow(d, n + 1);
        assert(d.subrange(0, n + 1).drop_last() =~= d.subrange(0, n));
    } else {
        assert(d.subrange(0, n) =~= d);
    }
    lemma_digits_nonneg(d.subrange(0, n));
}

proof fn lemma_digits_nonneg(d: Seq<u8>)
    requires
        forall|i: int| 0 <= i < d.len() ==> is_digit(#[trigger] d[i]),
    ensures
        digits_value(d) >= 0,
    decreases d.len(),
{
    if d.len() > 0 {
        lemma_digits_nonneg(d.drop_last());
    }
}

/// Reads a signed 64-bit decimal from `b[start..]`.
fn parse_decimal(b: &[u8], start: usize) -> (r: Option<i64>)
    requires
        start <= b@.len(),
    ensures
        r == decimal_i64(b@.subrange(start as int, b@.len() as int)),
{
    let ghost s = b@.subrange(start as int, b@.len() as int);
    let n = b.len();
    let mut i = start;
    let mut neg = false;
    if i < n && (b[i] == 45 || b[i] == 43) {
        neg = b[i] == 45;
        i = i + 1;
    }
    let ghost d = b@.subrange(i as int, n as int);
    proof {
        if s.len() > 0 && (s[0] == 45 || s[0] == 43) {
            assert(d =~= s.drop_first());
        } else {
            assert(d =~= s);
        }
        assert(d == unsigned_part(s));
    }
    if i == n {
        assert(d.len() == 0);
        assert(decimal_i64(s) is None);
        return None;
    }
    let first = i;
    let mut acc: i128 = 0;
    while i < n
        invariant
            first <= i <= n,
            first < n,
            n == b@.len(),
            d == b@.subrange(first as int, n as int),
            d == unsigned_part(s),
            s == b@.subrange(start as int, b@.len() as int),
            neg == (s.len() > 0 && s[0] == 45),
            forall|k: int| 0 <= k < i - first ==> is_digit(#[trigger] d[k]),
            acc == digits_value(d.subrange(0, i - first)),
            0 <= acc <= 0x8000_0000_0000_0000i128,
        decreases n - i,
    {
        let c = b[i];
        if c < 48 || c > 57 {
            assert(d[i - first] == c);
            assert(!is_digit(d[i - first]));
            assert(!all_digits(d));
            assert(decimal_i64(s) is None);
            return None;
        }
        proof {
            assert(d.subrange(0, i - first + 1).drop_last() =~= d.subrange(0, i - first));
            assert(d.subrange(0, i - first + 1).last() == c);
            assert(digits_value(d.subrange(0, i - first + 1)) == acc * 10 + (c - 48));
        }
        acc = acc * 10 + (c - 48) as i128;
        i = i + 1;
        if acc > 0x8000_0000_0000_0000i128 {
            proof {
                if all_digits(d) {
                    lemma_digits_grow(d, i - first);
                    assert(digits_value(d) > 0x8000_0000_0000_0000int);
                }
                assert(decimal_i64(s) is None);
            }
            return None;
        }
    }
    proof {
        assert(d.subrange(0, d.len() as int) =~= d);
        assert(d.len() > 0);
        assert(all_digits(d));
        assert(acc == digits_value(d));
    }
    if neg {
        Some((-acc) as i64)
    } else if acc > 0x7fff_ffff_ffff_ffffi128 {
        None
    } else {
        Some(acc as i64)
    }
}

/// The issue number an item's URL ends with: its last path segment read as a
/// signed decimal, or 0 when that segment is not one.
pub fn issue_number(url: &str) -> (r: i64)
    ensures
        r == match decimal_i64(after_last_slash(url.spec_bytes())) {
            Some(v) => v,
            None => 0,
        },
{
    let b = url.as_bytes();
    let n = b.len();
    let mut i = n;
    while i > 0 && b[i - 1] != 47
        invariant
            i <= n,
            n == b@.len(),
            forall|j: int| i <= j < n ==> b@[j] != 47,
        decreases i,
    {
        i = i - 1;
    }
    proof {
        lemma_after_last_slash(b@, i as int);
    }
    match parse_decimal(b, i) {
        Some(v) => v,
        None => 0,
    }
}

} // verus!
