//! The request-rate limiter: a counting window and a timed block for each
//! rule and key.
//!
//! Times are nanoseconds on a clock that the caller reads; the limiter only
//! compares and adds them.

use vstd::prelude::*;
use dashmap::DashMap;
use crate::text::{decimal, push_decimal};

verus! {

/// The largest time that the limiter takes: what a `std::time::Duration`
/// can hold, in nanoseconds.
pub const MAX_TIME: u128 = 18_446_744_073_709_551_615_999_999_999;

pub const NANOS_PER_SEC: u128 = 1_000_000_000;

/// The limits of one rate-limiting rule. A value below 1 counts as 1.
#[derive(Debug, Clone, Copy)]
pub struct CcParams {
    pub window_secs: u64,
    pub max_requests: u64,
    pub block_secs: u64,
}

/// The limiter's answer for a request that is over the limit.
#[derive(Debug, Clone)]
pub struct CcHit {
    pub reason: String,
}

/// What the limiter holds for one rule and key.
#[derive(Debug, Clone, Copy)]
pub struct CcEntry {
    pub window_start: u128,
    pub count: u64,
    pub blocked_until: Option<u128>,
    pub last_seen: u128,
}

/// How a request fared at the limiter.
#[derive(Debug, Clone, Copy, PartialEq, Eq, Structural)]
pub enum CcVerdict {
    /// Under the limit.
    Pass,
    /// The key is in a block that has not run out.
    Blocked,
    /// This request took the count over the limit and started a block.
    Exceeded,
}

pub open spec fn at_least_one(x: u64) -> u64 {
    if x < 1 {
        1
    } else {
        x
    }
}

pub open spec fn window_nanos(p: CcParams) -> int {
    at_least_one(p.window_secs) * NANOS_PER_SEC
}

pub open spec fn block_nanos(p: CcParams) -> int {
    at_least_one(p.block_secs) * NANOS_PER_SEC
}

/// The time from `earlier` to `now`, zero where `earlier` is later.
pub open spec fn elapsed(now: u128, earlier: u128) -> int {
    if now >= earlier {
        now - earlier
    } else {
        0
    }
}

/// The count that is kept after one more request: one more than `count`,
/// but never beyond what the counter can hold.
pub open spec fn bumped(count: u64) -> u64 {
    if count < u64::MAX {
        (count + 1) as u64
    } else {
        count
    }
}

/// The entry of a key that the limiter has not seen before.
pub open spec fn fresh_entry(now: u128) -> CcEntry {
    CcEntry { window_start: now, count: 0, blocked_until: None, last_seen: now }
}

/// The limiter's state machine for one key: the entry after a request at
/// `now`, and how the request fared.
///
/// While a block lasts the request is a hit and only `last_seen` changes.
/// A block that has run out is cleared and the window starts anew. A window
/// that is over starts anew. Then the request is counted; a count above the
/// limit starts a block and is a hit. The count is held against the limit
/// as a number without bound, so that a count too large to be kept is above
/// every limit.
pub open spec fn cc_step(prev: Option<CcEntry>, now: u128, p: CcParams) -> (CcEntry, CcVerdict) {
    let e0 = match prev {
        Some(e) => e,
        None => fresh_entry(now),
    };
    let e1 = CcEntry { last_seen: now, ..e0 };
    if e1.blocked_until is Some && now < e1.blocked_until.unwrap() {
        (e1, CcVerdict::Blocked)
    } else {
        let e2 = if e1.blocked_until is Some {
            CcEntry { blocked_until: None, window_start: now, count: 0, ..e1 }
        } else {
            e1
        };
        let e3 = if elapsed(now, e2.window_start) >= window_nanos(p) {
            CcEntry { window_start: now, count: 0, ..e2 }
        } else {
            e2
        };
        let count = bumped(e3.count);
        if e3.count + 1 > at_least_one(p.max_requests) {
            (
                CcEntry { count, blocked_until: Some((now + block_nanos(p)) as u128), ..e3 },
                CcVerdict::Exceeded,
            )
        } else {
            (CcEntry { count, ..e3 }, CcVerdict::Pass)
        }
    }
}

/// The key of the limiter's table: `rule=<rule_id>|<key_body>`.
pub open spec fn table_key(rule_id: Seq<char>, key_body: Seq<char>) -> Seq<char> {
    "rule="@ + rule_id + seq!['|'] + key_body
}

/// The reason that a hit carries.
pub open spec fn hit_reason(verdict: CcVerdict, rule_id: Seq<char>, p: CcParams) -> Seq<char> {
    match verdict {
        CcVerdict::Blocked => "cc blocked: "@ + rule_id,
        _ => "cc exceeded "@ + decimal(at_least_one(p.max_requests) as nat) + " req/"@ + decimal(
            p.window_secs as nat,
        ) + "s on "@ + rule_id,
    }
}

/// The hit that a verdict amounts to.
pub open spec fn hit_of(verdict: CcVerdict, rule_id: Seq<char>, p: CcParams) -> Option<Seq<char>> {
    if verdict == CcVerdict::Pass {
        None
    } else {
        Some(hit_reason(verdict, rule_id, p))
    }
}

pub open spec fn hit_view(h: Option<CcHit>) -> Option<Seq<char>> {
    match h {
        Some(h) => Some(h.reason@),
        None => None,
    }
}

/// The table of a limiter that has seen no request.
pub open spec fn no_entries() -> Map<Seq<char>, CcEntry> {
    Map::empty()
}

/// The entry of `key` in `table`, if it has one.
pub open spec fn entry_of(table: Map<Seq<char>, CcEntry>, key: Seq<char>) -> Option<CcEntry> {
    if table.contains_key(key) {
        Some(table[key])
    } else {
        None
    }
}

/// The table without the entries last seen more than `older_than` before
/// `now`.
pub open spec fn pruned(table: Map<Seq<char>, CcEntry>, now: u128, older_than: u128) -> Map<
    Seq<char>,
    CcEntry,
> {
    Map::new(
        |k: Seq<char>| table.contains_key(k) && !(elapsed(now, table[k].last_seen) > older_than),
        |k: Seq<char>| table[k],
    )
}

/// The entry of a key after requests at `times`, in that order.
pub open spec fn state_after(prev: Option<CcEntry>, times: Seq<u128>, p: CcParams) -> Option<
    CcEntry,
>
    decreases times.len(),
{
    if times.len() == 0 {
        prev
    } else {
        Some(cc_step(state_after(prev, times.drop_last(), p), times.last(), p).0)
    }
}

/// How request `i` of a run of requests at `times` fares.
pub open spec fn verdict_at(prev: Option<CcEntry>, times: Seq<u128>, p: CcParams, i: int) -> CcVerdict {
    cc_step(state_after(prev, times.take(i), p), times[i], p).1
}

/// Every request of the run after the first falls into the window that the
/// first one counts in.
pub open spec fn in_one_window(prev: Option<CcEntry>, times: Seq<u128>, p: CcParams) -> bool {
    forall|i: int|
        1 <= i < times.len() ==> elapsed(#[trigger] times[i], cc_step(prev, times[0], p).0.window_start)
            < window_nanos(p)
}

/// While a block lasts, a request is a hit and changes nothing of the entry
/// but the time it was last seen: neither the count nor the window nor the
/// end of the block.
pub proof fn lemma_blocked_request_hits(e: CcEntry, now: u128, p: CcParams)
    requires
        e.blocked_until is Some,
        now < e.blocked_until.unwrap(),
    ensures
        cc_step(Some(e), now, p) == (CcEntry { last_seen: now, ..e }, CcVerdict::Blocked),
{
}

proof fn lemma_passing_run(prev: Option<CcEntry>, times: Seq<u128>, p: CcParams, n: int)
    requires
        1 <= n <= times.len(),
        in_one_window(prev, times, p),
        forall|i: int| 0 <= i < n ==> verdict_at(prev, times, p, i) == CcVerdict::Pass,
    ensures
        state_after(prev, times.take(n), p) is Some,
        state_after(prev, times.take(n), p).unwrap().blocked_until is None,
        state_after(prev, times.take(n), p).unwrap().window_start == cc_step(
            prev,
            times[0],
            p,
        ).0.window_start,
        n <= state_after(prev, times.take(n), p).unwrap().count <= at_least_one(p.max_requests),
    decreases n,
{
    assert(times.take(n).drop_last() == times.take(n - 1));
    assert(times.take(n).last() == times[n - 1]);
    assert(verdict_at(prev, times, p, n - 1) == CcVerdict::Pass);
    if n == 1 {
        assert(times.take(0).len() == 0);
        assert(state_after(prev, times.take(0), p) == prev);
    } else {
        lemma_passing_run(prev, times, p, n - 1);
        assert(elapsed(times[n - 1], cc_step(prev, times[0], p).0.window_start) < window_nanos(p));
    }
}

/// Of a run of requests for one key that fall into one window, more in
/// number than the limit, at least one is a hit, whatever the limiter held
/// for the key before.
pub proof fn lemma_over_limit_hits(prev: Option<CcEntry>, times: Seq<u128>, p: CcParams)
    requires
        times.len() > at_least_one(p.max_requests),
        in_one_window(prev, times, p),
    ensures
        exists|i: int| 0 <= i < times.len() && verdict_at(prev, times, p, i) != CcVerdict::Pass,
{
    if forall|i: int| 0 <= i < times.len() ==> verdict_at(prev, times, p, i) == CcVerdict::Pass {
        lemma_passing_run(prev, times, p, times.len() as int);
    }
}

/// Every request of the run comes less than a window after the first.
pub open spec fn within_first_window(times: Seq<u128>, p: CcParams) -> bool {
    forall|i: int| 0 <= i < times.len() ==> elapsed(#[trigger] times[i], times[0]) < window_nanos(p)
}

proof fn lemma_fresh_run_state(times: Seq<u128>, p: CcParams, n: int)
    requires
        1 <= n <= times.len(),
        n <= at_least_one(p.max_requests),
        within_first_window(times, p),
    ensures
        state_after(None, times.take(n), p) == Some(
            CcEntry {
                window_start: times[0],
                count: n as u64,
                blocked_until: None,
                last_seen: times[n - 1],
            },
        ),
    decreases n,
{
    assert(times.take(n).drop_last() == times.take(n - 1));
    assert(times.take(n).last() == times[n - 1]);
    if n == 1 {
        assert(times.take(0).len() == 0);
        assert(state_after(None::<CcEntry>, times.take(0), p) == None::<CcEntry>);
        assert(elapsed(times[0], times[0]) < window_nanos(p));
    } else {
        lemma_fresh_run_state(times, p, n - 1);
        assert(elapsed(times[n - 1], times[0]) < window_nanos(p));
    }
}

/// For a key that the limiter has not seen, in a run of requests that all
/// come less than a window after the first and are more in number than the
/// limit: the requests up to the limit pass, and the next one is a hit
/// whose reason begins with `cc exceeded`.
pub proof fn lemma_fresh_run_hits_at_limit(times: Seq<u128>, p: CcParams, rule_id: Seq<char>)
    requires
        times.len() > at_least_one(p.max_requests),
        within_first_window(times, p),
    ensures
        forall|i: int|
            0 <= i < at_least_one(p.max_requests) ==> #[trigger] verdict_at(None, times, p, i)
                == CcVerdict::Pass,
        verdict_at(None, times, p, at_least_one(p.max_requests) as int) == CcVerdict::Exceeded,
        hit_of(CcVerdict::Exceeded, rule_id, p) is Some,
        "cc exceeded "@.is_prefix_of(hit_of(CcVerdict::Exceeded, rule_id, p).unwrap()),
{
    let m = at_least_one(p.max_requests) as int;
    assert forall|i: int| 0 <= i <= m implies #[trigger] verdict_at(None, times, p, i) == (if i
        < m {
        CcVerdict::Pass
    } else {
        CcVerdict::Exceeded
    }) by {
        assert(elapsed(times[i], times[0]) < window_nanos(p));
        if i == 0 {
            assert(times.take(0).len() == 0);
            assert(state_after(None::<CcEntry>, times.take(0), p) == None::<CcEntry>);
        } else {
            lemma_fresh_run_state(times, p, i);
        }
    }
    let head = "cc exceeded "@;
    let whole = hit_reason(CcVerdict::Exceeded, rule_id, p);
    assert(whole.subrange(0, head.len() as int) =~= head);
}

#[verifier::external_type_specification]
#[verifier::external_body]
#[verifier::reject_recursive_types(K)]
#[verifier::reject_recursive_types(V)]
#[verifier::reject_recursive_types(S)]
pub struct ExDashMap<K, V, S>(DashMap<K, V, S>);

/// What a limiter table holds: the entry under each key.
pub uninterp spec fn table_entries(t: DashMap<String, CcEntry>) -> Map<Seq<char>, CcEntry>;

/// `DashMap::new` makes an empty map.
#[verifier::external_body]
fn table_new() -> (r: DashMap<String, CcEntry>)
    ensures
        table_entries(r) == no_entries(),
{
    DashMap::new()
}

/// `DashMap::get` finds the value under a key; the entry is copied out of
/// the guard that the map hands back.
#[verifier::external_body]
fn table_get(t: &DashMap<String, CcEntry>, k: &str) -> (r: Option<CcEntry>)
    ensures
        r == entry_of(table_entries(*t), k@),
{
    match t.get(k) {
        Some(e) => Some(*e),
        None => None,
    }
}

/// `DashMap::insert` puts the value under the key, in place of an earlier
/// one, and leaves the other keys alone. The map is borrowed mutably here,
/// so no other thread changes it meanwhile.
#[verifier::external_body]
fn table_insert(t: &mut DashMap<String, CcEntry>, k: String, e: CcEntry)
    ensures
        table_entries(*final(t)) == table_entries(*old(t)).insert(k@, e),
{
    t.insert(k, e);
}

/// `DashMap::remove` takes the key out, if it is there, and leaves the
/// other keys alone.
#[verifier::external_body]
fn table_remove(t: &mut DashMap<String, CcEntry>, k: &str)
    ensures
        table_entries(*final(t)) == table_entries(*old(t)).remove(k@),
{
    t.remove(k);
}

/// `DashMap::iter` walks every entry of the map once, in no stated order;
/// each is handed out as its key and the time it was last seen.
#[verifier::external_body]
fn table_last_seen(t: &DashMap<String, CcEntry>) -> (r: Vec<(String, u128)>)
    ensures
        forall|i: int|
            0 <= i < r@.len() ==> table_entries(*t).contains_key(#[trigger] r@[i].0@)
                && table_entries(*t)[r@[i].0@].last_seen == r@[i].1,
        forall|k: Seq<char>| #[trigger]
            table_entries(*t).contains_key(k) ==> exists|i: int| 0 <= i < r@.len() && r@[i].0@ == k,
{
    t.iter().map(|it| (it.key().clone(), it.value().last_seen)).collect()
}

/// One step of the limiter's state machine.
pub fn step(prev: Option<CcEntry>, now: u128, p: CcParams) -> (r: (CcEntry, CcVerdict))
    requires
        now <= MAX_TIME,
    ensures
        r == cc_step(prev, now, p),
{
    let window_secs: u64 = if p.window_secs < 1 { 1 } else { p.window_secs };
    let block_secs: u64 = if p.block_secs < 1 { 1 } else { p.block_secs };
    let max_req: u64 = if p.max_requests < 1 { 1 } else { p.max_requests };
    let window: u128 = (window_secs as u128) * NANOS_PER_SEC;
    let block_for: u128 = (block_secs as u128) * NANOS_PER_SEC;

    let mut e = match prev {
        Some(e) => e,
        None => CcEntry { window_start: now, count: 0, blocked_until: None, last_seen: now },
    };
    e.last_seen = now;

    if let Some(until) = e.blocked_until {
        if now < until {
            return (e, CcVerdict::Blocked);
        }
        e.blocked_until = None;
        e.window_start = now;
        e.count = 0;
    }
    let since: u128 = if now >= e.window_start { now - e.window_start } else { 0 };
    if since >= window {
        e.window_start = now;
        e.count = 0;
    }
    let over = e.count >= max_req;
    if e.count < u64::MAX {
        e.count = e.count + 1;
    }
    if over {
        e.blocked_until = Some(now + block_for);
        return (e, CcVerdict::Exceeded);
    }
    (e, CcVerdict::Pass)
}

/// The table of the rate limiter.
pub struct CcLimiter {
    table: DashMap<String, CcEntry>,
}

impl View for CcLimiter {
    type V = Map<Seq<char>, CcEntry>;

    closed spec fn view(&self) -> Map<Seq<char>, CcEntry> {
        table_entries(self.table)
    }
}

impl CcLimiter {
    /// A limiter that has seen no request.
    pub fn new() -> (l: Self)
        ensures
            l@ == no_entries(),
    {
        CcLimiter { table: table_new() }
    }

    /// Counts a request at time `now` for `rule_id` and `key_body`, and says
    /// whether it is over the limit. The entry of the key moves by one step
    /// of the state machine; no other entry changes.
    pub fn check(&mut self, rule_id: &str, key_body: &str, p: CcParams, now: u128) -> (r: Option<
        CcHit,
    >)
        requires
            now <= MAX_TIME,
        ensures
            ({
                let k = table_key(rule_id@, key_body@);
                let (entry, verdict) = cc_step(entry_of(old(self)@, k), now, p);
                &&& final(self)@ == old(self)@.insert(k, entry)
                &&& hit_view(r) == hit_of(verdict, rule_id@, p)
            }),
    {
        let mut k = "rule=".to_owned();
        k.append(rule_id);
        k.push('|');
        k.append(key_body);
        assert(k@ == table_key(rule_id@, key_body@));

        let prev = table_get(&self.table, k.as_str());
        let (entry, verdict) = step(prev, now, p);
        table_insert(&mut self.table, k, entry);
        match verdict {
            CcVerdict::Pass => None,
            CcVerdict::Blocked => {
                let mut reason = "cc blocked: ".to_owned();
                reason.append(rule_id);
                Some(CcHit { reason })
            },
            CcVerdict::Exceeded => {
                let max_req: u64 = if p.max_requests < 1 { 1 } else { p.max_requests };
                let mut reason = "cc exceeded ".to_owned();
                push_decimal(&mut reason, max_req);
                reason.append(" req/");
                push_decimal(&mut reason, p.window_secs);
                reason.append("s on ");
                reason.append(rule_id);
                Some(CcHit { reason })
            },
        }
    }

    /// Drops the entries that were last seen more than `older_than`
    /// nanoseconds before `now`.
    pub fn prune_older_than(&mut self, older_than: u128, now: u128)
        ensures
            final(self)@ == pruned(old(self)@, now, older_than),
    {
        let seen = table_last_seen(&self.table);
        let ghost before = self@;
        let mut i: usize = 0;
        while i < seen.len()
            invariant
                0 <= i <= seen.len(),
                forall|j: int|
                    0 <= j < seen@.len() ==> before.contains_key(#[trigger] seen@[j].0@)
                        && before[seen@[j].0@].last_seen == seen@[j].1,
                forall|k: Seq<char>|
                    self@.contains_key(k) <==> before.contains_key(k) && !(exists|j: int|
                        0 <= j < i && seen@[j].0@ == k && elapsed(now, seen@[j].1) > older_than),
                forall|k: Seq<char>| self@.contains_key(k) ==> self@[k] == before[k],
            decreases seen.len() - i,
        {
            let since: u128 = if now >= seen[i].1 { now - seen[i].1 } else { 0 };
            if since > older_than {
                table_remove(&mut self.table, seen[i].0.as_str());
            }
            i += 1;
        }
        proof {
            let want = pruned(before, now, older_than);
            assert forall|k: Seq<char>| self@.contains_key(k) <==> want.contains_key(k) by {
                if before.contains_key(k) {
                    let j = choose|j: int| 0 <= j < seen@.len() && seen@[j].0@ == k;
                    assert(before[seen@[j].0@].last_seen == seen@[j].1);
                }
            }
            assert(self@ =~= want);
        }
    }
}

} // verus!
