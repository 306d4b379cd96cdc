//! Bulk expiry of aged messages: which messages of a fetched page are old
//! enough to delete, and how a deletion set splits between one-by-one and
//! batched deletion.

use vstd::prelude::*;

verus! {

/// A message as the expiry sweep sees it: its id and its creation time in
/// milliseconds since the Unix epoch.
#[derive(Clone, Copy, Debug, PartialEq, Eq, Structural)]
pub struct StoredMessage {
    pub id: u64,
    pub timestamp: i64,
}

/// Milliseconds in one day.
pub const DAY_MS: i64 = 86_400_000;

/// The platform only deletes messages in one batched call while they are
/// younger than fourteen days; one minute of margin is kept.
pub const BULK_DELETE_MAX_AGE_MS: i64 = 14 * DAY_MS - 60_000;

/// The most messages fetched in one page.
pub const PAGE_SIZE: u8 = 100;

pub open spec fn sorted_by_time(s: Seq<StoredMessage>) -> bool {
    forall|i: int, j: int| 0 <= i <= j < s.len() ==> s[i].timestamp <= s[j].timestamp
}

/// `t - d`, or the earliest representable instant when that lies before it.
pub open spec fn saturating_before(t: i64, d: int) -> i64 {
    if t - d < i64::MIN {
        i64::MIN
    } else {
        (t - d) as i64
    }
}

/// The number of leading messages of `s` that are strictly older than `cutoff`.
pub open spec fn count_older(s: Seq<StoredMessage>, cutoff: i64) -> int
    decreases s.len(),
{
    if s.len() == 0 {
        0
    } else if s[0].timestamp < cutoff {
        1 + count_older(s.drop_first(), cutoff)
    } else {
        0
    }
}

/// The instant `after_ms` before `now`; what is older than it has expired.
pub fn expiry_cutoff(now: i64, after_ms: u64) -> (r: i64)
    ensures
        r == saturating_before(now, after_ms as int),
{
    let limit: i128 = now as i128 - after_ms as i128;
    if limit < i64::MIN as i128 {
        i64::MIN
    } else {
        limit as i64
    }
}

/// The instant before which messages are too old for batched deletion.
pub fn bulk_cutoff(now: i64) -> (r: i64)
    ensures
        r == saturating_before(now, BULK_DELETE_MAX_AGE_MS as int),
{
    expiry_cutoff(now, BULK_DELETE_MAX_AGE_MS as u64)
}

/// `n` splits `s` into the messages older than `cutoff` and the rest.
pub open spec fn older_boundary(s: Seq<StoredMessage>, cutoff: i64, n: int) -> bool {
    &&& 0 <= n <= s.len()
    &&& forall|i: int| 0 <= i < n ==> s[i].timestamp < cutoff
    &&& forall|i: int| n <= i < s.len() ==> s[i].timestamp >= cutoff
}

/// Index of the first message of a time-sorted slice that is not older than
/// `cutoff`: every message before it is older, none from it on is.
pub fn older_prefix_len(msgs: &[StoredMessage], cutoff: i64) -> (r: usize)
    requires
        sorted_by_time(msgs@),
    ensures
        older_boundary(msgs@, cutoff, r as int),
{
    let mut lo: usize = 0;
    let mut hi: usize = msgs.len();
    while lo < hi
        invariant
            lo <= hi <= msgs@.len(),
            sorted_by_time(msgs@),
            forall|i: int| 0 <= i < lo ==> msgs@[i].timestamp < cutoff,
            forall|i: int| hi <= i < msgs@.len() ==> msgs@[i].timestamp >= cutoff,
        decreases hi - lo,
    {
        let mid = lo + (hi - lo) / 2;
        if msgs[mid].timestamp < cutoff {
            lo = mid + 1;
        } else {
            hi = mid;
        }
    }
    lo
}

/// Relies on `slice::sort_by_key`: the result is ordered by the key and holds
/// the same elements.
#[verifier::external_body]
fn sort_by_time(v: &mut Vec<StoredMessage>)
    ensures
        sorted_by_time(final(v)@),
        final(v)@.to_multiset() == old(v)@.to_multiset(),
{
    v.sort_by_key(|m| m.timestamp);
}

/// What to do with one fetched page of a channel's oldest messages.
pub struct PagePlan {
    /// The page, oldest first.
    pub ordered: Vec<StoredMessage>,
    /// How many of the leading messages of `ordered` have expired.
    pub expired: usize,
    /// Whether the channel may hold more expired messages past this page.
    pub fetch_again: bool,
}

/// Sorts a fetched page by time and finds its expired prefix. Another page is
/// wanted only when something expired and the whole page did.
pub fn plan_page(page: Vec<StoredMessage>, cutoff: i64) -> (r: PagePlan)
    ensures
        sorted_by_time(r.ordered@),
        r.ordered@.to_multiset() == page@.to_multiset(),
        older_boundary(r.ordered@, cutoff, r.expired as int),
        r.fetch_again == (r.expired > 0 && r.expired == r.ordered@.len()),
{
    let mut ordered = page;
    sort_by_time(&mut ordered);
    let expired = older_prefix_len(ordered.as_slice(), cutoff);
    let fetch_again = expired > 0 && expired == ordered.len();
    PagePlan { ordered, expired, fetch_again }
}

/// The ids of an expired set, split by how they are deleted.
pub struct DeletionSplit {
    /// Too old for batched deletion: deleted one at a time.
    pub individually: Vec<u64>,
    /// Deleted together in one batched call.
    pub batched: Vec<u64>,
}

pub open spec fn ids(s: Seq<StoredMessage>) -> Seq<u64> {
    s.map_values(|m: StoredMessage| m.id)
}

fn collect_ids(msgs: &[StoredMessage], from: usize, to: usize) -> (r: Vec<u64>)
    requires
        from <= to <= msgs@.len(),
    ensures
        r@ == ids(msgs@.subrange(from as int, to as int)),
{
    let mut out: Vec<u64> = Vec::new();
    let mut i = from;
    while i < to
        invariant
            from <= i <= to <= msgs@.len(),
            out@ == ids(msgs@.subrange(from as int, i as int)),
        decreases to - i,
    {
        out.push(msgs[i].id);
        i = i + 1;
        assert(ids(msgs@.subrange(from as int, i as int)) =~= out@);
    }
    out
}

/// Splits a time-sorted expired set at the age limit of batched deletion,
/// taken from `now`: the older part goes one by one, the rest in one batch.
pub fn split_for_deletion(expired: &[StoredMessage], now: i64) -> (r: DeletionSplit)
    requires
        sorted_by_time(expired@),
    ensures
        exists|n: int|
            older_boundary(expired@, bulk_cutoff_at(now), n) && r.individually@ == ids(
                expired@.subrange(0, n),
            ) && r.batched@ == ids(expired@.subrange(n, expired@.len() as int)),
{
    let limit = bulk_cutoff(now);
    let n = older_prefix_len(expired, limit);
    let individually = collect_ids(expired, 0, n);
    let batched = collect_ids(expired, n, expired.len());
    assert(older_boundary(expired@, bulk_cutoff_at(now), n as int));
    DeletionSplit { individually, batched }
}

pub open spec fn bulk_cutoff_at(now: i64) -> i64 {
    saturating_before(now, BULK_DELETE_MAX_AGE_MS as int)
}

/// With timestamps in increasing order and `t[k] < cutoff <= t[k + 1]`, the
/// expired prefix of a page is exactly its first `k + 1` messages.
pub proof fn lemma_expired_prefix_at_boundary(s: Seq<StoredMessage>, cutoff: i64, k: int, n: int)
    requires
        forall|i: int, j: int| 0 <= i < j < s.len() ==> s[i].timestamp < s[j].timestamp,
        0 <= k,
        k + 1 < s.len(),
        s[k].timestamp < cutoff <= s[k + 1].timestamp,
        older_boundary(s, cutoff, n),
    ensures
        n == k + 1,
{
    if n <= k {
        assert(s[k].timestamp >= cutoff);
    }
    if n > k + 1 {
        assert(s[k + 1].timestamp < cutoff);
    }
}

/// When every message of a non-empty page has expired, the whole page is
/// deleted and another page is fetched.
pub proof fn lemma_full_page_fetches_again(s: Seq<StoredMessage>, cutoff: i64, n: int)
    requires
        s.len() > 0,
        forall|i: int| 0 <= i < s.len() ==> s[i].timestamp < cutoff,
        older_boundary(s, cutoff, n),
    ensures
        n > 0 && n == s.len(),
{
    if n < s.len() {
        assert(s[n].timestamp < cutoff);
    }
}

/// The two groups of a deletion split are the expired set itself, cut in
/// two: together they hold every message once, those older than the limit
/// in the first group and no others.
pub proof fn lemma_split_partitions(s: Seq<StoredMessage>, limit: i64, n: int)
    requires
        older_boundary(s, limit, n),
    ensures
        s.subrange(0, n) + s.subrange(n, s.len() as int) == s,
        forall|m: StoredMessage| #[trigger]
            s.subrange(0, n).contains(m) ==> m.timestamp < limit,
        forall|m: StoredMessage| #[trigger]
            s.subrange(n, s.len() as int).contains(m) ==> m.timestamp >= limit,
        forall|m: StoredMessage|
            !(#[trigger] s.subrange(0, n).contains(m) && s.subrange(n, s.len() as int).contains(m)),
        forall|m: StoredMessage|
            s.contains(m) <==> (#[trigger] s.subrange(0, n).contains(m) || s.subrange(
                n,
                s.len() as int,
            ).contains(m)),
{
    let a = s.subrange(0, n);
    let b = s.subrange(n, s.len() as int);
    assert(a + b =~= s);
    assert forall|m: StoredMessage| #[trigger] a.contains(m) implies m.timestamp < limit by {
        let i = choose|i: int| 0 <= i < a.len() && a[i] == m;
        assert(s[i] == m);
    }
    assert forall|m: StoredMessage| #[trigger] b.contains(m) implies m.timestamp >= limit by {
        let i = choose|i: int| 0 <= i < b.len() && b[i] == m;
        assert(s[n + i] == m);
    }
    assert forall|m: StoredMessage| s.contains(m) <==> (#[trigger] a.contains(m) || b.contains(m)) by {
        if s.contains(m) {
            let i = choose|i: int| 0 <= i < s.len() && s[i] == m;
            if i < n {
                assert(a[i] == m);
            } else {
                assert(b[i - n] == m);
            }
        }
        if a.contains(m) {
            let i = choose|i: int| 0 <= i < a.len() && a[i] == m;
            assert(s[i] == m);
        }
        if b.contains(m) {
            let i = choose|i: int| 0 <= i < b.len() && b[i] == m;
            assert(s[n + i] == m);
        }
    }
}

} // verus!
