//! Gap detection: whether stored history asks for a backfill, and from when.
//!
//! The functions take the tick times of one symbol as the store returned
//! them, in any order and with repetitions.

use crate::time::{earlier_by, instant_before, Instant};
use vstd::prelude::*;

verus! {

/// History requested for a symbol that has none: 60 days.
pub const INITIAL_HISTORY_SPAN: i64 = 5_184_000_000_000;

/// A feed whose latest tick is older than this was down: 5 minutes.
pub const RECENT_SPAN: i64 = 300_000_000;

/// Two consecutive ticks further apart than this leave a gap: 1 hour.
pub const GAP_THRESHOLD: i64 = 3_600_000_000;

/// How far back a pipeline looks for gaps when it starts: 90 days.
pub const SCAN_SPAN: i64 = 7_776_000_000_000;

/// A stretch without ticks: the tick before it and the tick after it.
#[derive(Debug, Clone, Copy, PartialEq, Eq, Structural)]
pub struct Gap {
    pub start: Instant,
    pub end: Instant,
}

/// Why a backfill is asked for.
#[derive(Debug, Clone, Copy, PartialEq, Eq, Structural)]
pub enum BackfillReason {
    /// Nothing is stored for the symbol.
    NoHistory,
    /// The latest tick is older than `RECENT_SPAN`.
    FeedWasDown,
    /// The history is current but has a gap.
    InternalGap,
}

/// Seconds that a new pipeline is given to settle before its first
/// history is fetched.
pub const SETTLE_SECONDS: u64 = 2;

impl BackfillReason {
    /// Seconds to wait before the backfill is started: a symbol without
    /// history waits for its pipeline to settle, any other starts at once.
    pub fn settle_seconds(&self) -> (secs: u64)
        ensures
            secs == if *self == BackfillReason::NoHistory {
                SETTLE_SECONDS
            } else {
                0
            },
    {
        match self {
            BackfillReason::NoHistory => SETTLE_SECONDS,
            _ => 0,
        }
    }
}

/// What is handed to the backfill collaborator.
#[derive(Debug, Clone, Copy, PartialEq, Eq, Structural)]
pub struct BackfillRequest {
    pub from: Instant,
    pub reason: BackfillReason,
}

/// The latest of `times`; `i64::MIN` where there is none.
pub open spec fn latest(times: Seq<i64>) -> int
    decreases times.len(),
{
    if times.len() == 0 {
        i64::MIN as int
    } else if times.last() >= latest(times.drop_last()) {
        times.last() as int
    } else {
        latest(times.drop_last())
    }
}

/// Whether `t` lies less than `span` before `now`.
pub open spec fn within(t: int, now: int, span: int) -> bool {
    t > now - span
}

/// `a` and `b` are two ticks inside the window with no tick between them.
pub open spec fn consecutive(times: Seq<i64>, now: int, span: int, a: i64, b: i64) -> bool {
    &&& times.contains(a)
    &&& times.contains(b)
    &&& within(a as int, now, span)
    &&& a < b
    &&& forall|i: int| 0 <= i < times.len() ==> !(a < #[trigger] times[i] < b)
}

/// `a` and `b` are consecutive ticks more than `GAP_THRESHOLD` apart.
pub open spec fn is_gap(times: Seq<i64>, now: int, span: int, a: i64, b: i64) -> bool {
    consecutive(times, now, span, a, b) && b - a > GAP_THRESHOLD
}

/// Whether the window has a gap.
pub open spec fn has_gap(times: Seq<i64>, now: int, span: int) -> bool {
    exists|a: i64, b: i64| is_gap(times, now, span, a, b)
}

/// `a` and `b` bound the most recent gap.
pub open spec fn is_last_gap(times: Seq<i64>, now: int, span: int, a: i64, b: i64) -> bool {
    &&& is_gap(times, now, span, a, b)
    &&& forall|c: i64, d: i64| is_gap(times, now, span, c, d) ==> c <= a
}

/// Strictly increasing.
pub open spec fn increasing(s: Seq<i64>) -> bool {
    forall|i: int, j: int| 0 <= i < j < s.len() ==> s[i] < s[j]
}

/// The latest tick is in `times` and none is later.
pub proof fn lemma_latest_is_maximum(times: Seq<i64>)
    requires
        times.len() > 0,
    ensures
        times.contains(latest(times) as i64),
        i64::MIN <= latest(times) <= i64::MAX,
        forall|i: int| 0 <= i < times.len() ==> times[i] <= latest(times),
    decreases times.len(),
{
    reveal_with_fuel(latest, 2);
    let rest = times.drop_last();
    if rest.len() > 0 {
        lemma_latest_is_maximum(rest);
        if times.last() >= latest(rest) {
            assert(times[times.len() - 1] == times.last());
        } else {
            let k = choose|k: int| 0 <= k < rest.len() && rest[k] == latest(rest) as i64;
            assert(times[k] == rest[k]);
        }
        assert forall|i: int| 0 <= i < times.len() implies times[i] <= latest(times) by {
            if i < rest.len() {
                assert(rest[i] == times[i]);
            }
        }
    } else {
        assert(latest(rest) == i64::MIN);
        assert(times[0] == times.last());
    }
}

/// The latest of the tick times; `None` where there is none.
pub fn latest_tick(times: &Vec<Instant>) -> (r: Option<Instant>)
    ensures
        times@.len() == 0 <==> r is None,
        r matches Some(t) ==> t == latest(times@),
{
    if times.len() == 0 {
        return None;
    }
    let mut best = times[0];
    let mut i: usize = 1;
    proof {
        reveal_with_fuel(latest, 2);
        assert(times@.take(1).drop_last() =~= Seq::<i64>::empty());
        assert(times@.take(1).last() == times@[0]);
    }
    while i < times.len()
        invariant
            1 <= i <= times.len(),
            best == latest(times@.take(i as int)),
        decreases times.len() - i,
    {
        assert(times@.take(i + 1).drop_last() =~= times@.take(i as int));
        if times[i] >= best {
            best = times[i];
        }
        i += 1;
    }
    assert(times@.take(times.len() as int) =~= times@);
    Some(best)
}

/// Puts `x` at its place in an increasing vector, unless it is there. The
/// place is looked for from the end, where a time that is later than all
/// before it belongs.
fn insert_increasing(w: &mut Vec<Instant>, x: Instant)
    requires
        increasing(old(w)@),
    ensures
        increasing(final(w)@),
        forall|y: i64| final(w)@.contains(y) <==> (old(w)@.contains(y) || y == x),
{
    let ghost before = w@;
    let mut p: usize = w.len();
    while p > 0 && w[p - 1] > x
        invariant
            p <= w.len(),
            w@ == before,
            increasing(w@),
            forall|k: int| p <= k < w@.len() ==> w@[k] > x,
        decreases p,
    {
        p -= 1;
    }
    if p > 0 && w[p - 1] == x {
        assert forall|y: i64| w@.contains(y) <==> (before.contains(y) || y == x) by {
            if y == x {
                assert(w@[p - 1] == x);
            }
        }
        return;
    }
    w.insert(p, x);
    proof {
        let after = w@;
        assert(after == before.insert(p as int, x));
        assert forall|i: int, j: int| 0 <= i < j < after.len() implies after[i] < after[j] by {
            if j < p {
                assert(after[i] == before[i] && after[j] == before[j]);
            } else if j == p {
                assert(after[i] == before[i]);
                assert(before[i] <= before[p - 1]) by {
                    if i < p - 1 {
                        assert(before[i] < before[p - 1]);
                    }
                }
            } else if i < p {
                assert(after[i] == before[i] && after[j] == before[j - 1]);
                assert(before[i] <= before[p - 1]) by {
                    if i < p - 1 {
                        assert(before[i] < before[p - 1]);
                    }
                }
            } else if i == p {
                assert(after[j] == before[j - 1]);
            } else {
                assert(after[i] == before[i - 1] && after[j] == before[j - 1]);
            }
        }
        assert forall|y: i64| after.contains(y) <==> (before.contains(y) || y == x) by {
            if after.contains(y) {
                let k = choose|k: int| 0 <= k < after.len() && after[k] == y;
                if k < p {
                    assert(before[k] == y);
                } else if k > p {
                    assert(before[k - 1] == y);
                }
            }
            if before.contains(y) {
                let k = choose|k: int| 0 <= k < before.len() && before[k] == y;
                if k < p {
                    assert(after[k] == y);
                } else {
                    assert(after[k + 1] == y);
                }
            }
            if y == x {
                assert(after[p as int] == x);
            }
        }
    }
}

/// The tick times that lie less than `span` before `now`, each once, in
/// increasing order.
pub fn window_times(times: &Vec<Instant>, now: Instant, span: i64) -> (w: Vec<Instant>)
    ensures
        increasing(w@),
        forall|y: i64|
            w@.contains(y) <==> (times@.contains(y) && within(y as int, now as int, span as int)),
{
    let mut w: Vec<Instant> = Vec::new();
    let mut i: usize = 0;
    while i < times.len()
        invariant
            i <= times.len(),
            increasing(w@),
            forall|y: i64|
                w@.contains(y) <==> (times@.take(i as int).contains(y) && within(
                    y as int,
                    now as int,
                    span as int,
                )),
        decreases times.len() - i,
    {
        let t = times[i];
        let ghost seen = times@.take(i as int);
        let ghost held = w@;
        proof {
            assert(times@.take(i + 1) =~= seen.push(t));
            assert forall|y: i64| seen.push(t).contains(y) <==> (seen.contains(y) || y == t) by {
                if seen.push(t).contains(y) {
                    let k = choose|k: int| 0 <= k < seen.push(t).len() && seen.push(t)[k] == y;
                    if k < seen.len() {
                        assert(seen[k] == y);
                    }
                }
                if seen.contains(y) {
                    let k = choose|k: int| 0 <= k < seen.len() && seen[k] == y;
                    assert(seen.push(t)[k] == y);
                }
                if y == t {
                    assert(seen.push(t)[seen.len() as int] == t);
                }
            }
        }
        if t as i128 > now as i128 - span as i128 {
            insert_increasing(&mut w, t);
        }
        i += 1;
    }
    assert(times@.take(times.len() as int) =~= times@);
    w
}

/// The most recent gap among the ticks that lie less than `span` before
/// `now`; `None` where they have no gap.
pub fn last_gap(times: &Vec<Instant>, now: Instant, span: i64) -> (r: Option<Gap>)
    ensures
        match r {
            Some(g) => is_last_gap(times@, now as int, span as int, g.start, g.end),
            None => !has_gap(times@, now as int, span as int),
        },
{
    let w = window_times(times, now, span);
    let n = w.len();
    let mut k: usize = n;
    while k > 1
        invariant
            n == w.len(),
            k <= n,
            increasing(w@),
            forall|y: i64|
                w@.contains(y) <==> (times@.contains(y) && within(
                    y as int,
                    now as int,
                    span as int,
                )),
            forall|m: int| k <= m < n && 1 <= m ==> #[trigger] w@[m] - w@[m - 1] <= GAP_THRESHOLD,
        decreases k,
    {
        k -= 1;
        let a = w[k - 1];
        let b = w[k];
        if b as i128 - a as i128 > GAP_THRESHOLD as i128 {
            proof {
                lemma_gap_at(times@, now as int, span as int, w@, k as int);
            }
            return Some(Gap { start: a, end: b });
        }
    }
    proof {
        lemma_no_gap(times@, now as int, span as int, w@);
    }
    None
}

/// In an increasing window, the gap at the highest position is the most
/// recent gap of the history.
proof fn lemma_gap_at(times: Seq<i64>, now: int, span: int, w: Seq<i64>, k: int)
    requires
        increasing(w),
        forall|y: i64| w.contains(y) <==> (times.contains(y) && within(y as int, now, span)),
        1 <= k < w.len(),
        w[k] - w[k - 1] > GAP_THRESHOLD,
        forall|m: int| k < m < w.len() ==> #[trigger] w[m] - w[m - 1] <= GAP_THRESHOLD,
    ensures
        is_last_gap(times, now, span, w[k - 1], w[k]),
{
    let a = w[k - 1];
    let b = w[k];
    lemma_neighbours_gap(times, now, span, w, k);
    assert(is_gap(times, now, span, a, b));
    assert forall|c: i64, d: i64| is_gap(times, now, span, c, d) implies c <= a by {
        if c > a {
            lemma_gap_position(times, now, span, w, c, d);
            let p = choose|p: int| 0 <= p && p + 1 < w.len() && #[trigger] w[p] == c && w[p + 1] == d;
            if p < k - 1 {
                assert(w[p] < w[k - 1]);
            } else if p == k - 1 {
                assert(w[p] == a);
            } else {
                assert(w[p + 1] - w[p] <= GAP_THRESHOLD);
            }
        }
    }
}

/// Two consecutive ticks of the history are neighbours in the window.
proof fn lemma_gap_position(times: Seq<i64>, now: int, span: int, w: Seq<i64>, c: i64, d: i64)
    requires
        increasing(w),
        forall|y: i64| w.contains(y) <==> (times.contains(y) && within(y as int, now, span)),
        consecutive(times, now, span, c, d),
    ensures
        exists|p: int| 0 <= p && p + 1 < w.len() && #[trigger] w[p] == c && w[p + 1] == d,
{
    assert(w.contains(c));
    assert(w.contains(d));
    let p = choose|p: int| 0 <= p < w.len() && w[p] == c;
    let q = choose|q: int| 0 <= q < w.len() && w[q] == d;
    if q <= p {
        if q < p {
            assert(w[q] < w[p]);
        }
    }
    assert(p < q);
    let t = w[p + 1];
    assert(w.contains(t));
    assert(times.contains(t));
    let i = choose|i: int| 0 <= i < times.len() && times[i] == t;
    assert(w[p] < w[p + 1]);
    if p + 1 < q {
        assert(w[p + 1] < w[q]);
        assert(c < times[i] < d);
    }
    assert(p + 1 == q);
}

/// A window whose neighbours are all close leaves the history without gap.
proof fn lemma_no_gap(times: Seq<i64>, now: int, span: int, w: Seq<i64>)
    requires
        increasing(w),
        forall|y: i64| w.contains(y) <==> (times.contains(y) && within(y as int, now, span)),
        forall|m: int| 1 <= m < w.len() ==> #[trigger] w[m] - w[m - 1] <= GAP_THRESHOLD,
    ensures
        !has_gap(times, now, span),
{
    if has_gap(times, now, span) {
        let (c, d) = choose|c: i64, d: i64| is_gap(times, now, span, c, d);
        lemma_gap_position(times, now, span, w, c, d);
        let p = choose|p: int| 0 <= p && p + 1 < w.len() && #[trigger] w[p] == c && w[p + 1] == d;
        assert(w[p + 1] - w[p] <= GAP_THRESHOLD);
    }
}

/// The decision of the gap detector on the history `times` at time `now`.
pub open spec fn backfill_plan(times: Seq<i64>, now: i64, plan: Option<BackfillRequest>) -> bool {
    if times.len() == 0 {
        plan == Some(
            BackfillRequest {
                from: earlier_by(now as int, INITIAL_HISTORY_SPAN as int) as i64,
                reason: BackfillReason::NoHistory,
            },
        )
    } else if now - latest(times) > RECENT_SPAN {
        plan == Some(
            BackfillRequest { from: latest(times) as i64, reason: BackfillReason::FeedWasDown },
        )
    } else {
        match plan {
            Some(request) => {
                &&& request.reason == BackfillReason::InternalGap
                &&& exists|end: i64|
                    is_last_gap(times, now as int, SCAN_SPAN as int, request.from, end)
            },
            None => !has_gap(times, now as int, SCAN_SPAN as int),
        }
    }
}

/// Decides whether a pipeline that starts at `now` asks for a backfill.
///
/// With no stored tick it asks for the last 60 days. With a latest tick
/// older than 5 minutes it asks from that tick on. With a current history
/// that has a gap of more than an hour in its last 90 days it asks from the
/// tick before the most recent such gap. Otherwise it asks for nothing.
pub fn plan_backfill(times: &Vec<Instant>, now: Instant) -> (plan: Option<BackfillRequest>)
    ensures
        backfill_plan(times@, now, plan),
{
    match latest_tick(times) {
        None => Some(
            BackfillRequest {
                from: instant_before(now, INITIAL_HISTORY_SPAN),
                reason: BackfillReason::NoHistory,
            },
        ),
        Some(last) => {
            if now as i128 - last as i128 > RECENT_SPAN as i128 {
                Some(BackfillRequest { from: last, reason: BackfillReason::FeedWasDown })
            } else {
                let found = last_gap(times, now, SCAN_SPAN);
                match found {
                    Some(gap) => {
                        let plan = Some(
                            BackfillRequest {
                                from: gap.start,
                                reason: BackfillReason::InternalGap,
                            },
                        );
                        assert(is_last_gap(
                            times@,
                            now as int,
                            SCAN_SPAN as int,
                            plan->0.from,
                            gap.end,
                        ));
                        assert(backfill_plan(times@, now, plan));
                        plan
                    },
                    None => {
                        assert(!has_gap(times@, now as int, SCAN_SPAN as int));
                        assert(backfill_plan(times@, now, None));
                        None
                    },
                }
            }
        },
    }
}

/// Whether `gaps` lists the gaps of a history inside a window, each once,
/// the earliest first.
pub open spec fn lists_gaps(times: Seq<i64>, now: int, span: int, gaps: Seq<Gap>) -> bool {
    &&& forall|i: int|
        0 <= i < gaps.len() ==> is_gap(times, now, span, (#[trigger] gaps[i]).start, gaps[i].end)
    &&& forall|i: int, j: int|
        0 <= i < j < gaps.len() ==> (#[trigger] gaps[i]).start < (#[trigger] gaps[j]).start
    &&& forall|a: i64, b: i64|
        is_gap(times, now, span, a, b) ==> exists|i: int|
            0 <= i < gaps.len() && (#[trigger] gaps[i]).start == a && gaps[i].end == b
}

/// Two neighbours of the window that are far apart bound a gap.
proof fn lemma_neighbours_gap(times: Seq<i64>, now: int, span: int, w: Seq<i64>, k: int)
    requires
        increasing(w),
        forall|y: i64| w.contains(y) <==> (times.contains(y) && within(y as int, now, span)),
        1 <= k < w.len(),
        w[k] - w[k - 1] > GAP_THRESHOLD,
    ensures
        is_gap(times, now, span, w[k - 1], w[k]),
{
    let a = w[k - 1];
    let b = w[k];
    assert(w.contains(a));
    assert(w.contains(b));
    assert forall|i: int| 0 <= i < times.len() implies !(a < #[trigger] times[i] < b) by {
        let t = times[i];
        if a < t < b {
            assert(times.contains(t));
            assert(w.contains(t));
            let p = choose|p: int| 0 <= p < w.len() && w[p] == t;
            if p < k - 1 {
                assert(w[p] < w[k - 1]);
            } else if p > k {
                assert(w[k] < w[p]);
            }
        }
    }
}

/// The gaps among the ticks that lie less than `span` before `now`, the
/// earliest first.
pub fn list_gaps(times: &Vec<Instant>, now: Instant, span: i64) -> (gaps: Vec<Gap>)
    ensures
        lists_gaps(times@, now as int, span as int, gaps@),
{
    let w = window_times(times, now, span);
    let n = w.len();
    let mut gaps: Vec<Gap> = Vec::new();
    let mut k: usize = 1;
    while k < n
        invariant
            n == w.len(),
            1 <= k,
            increasing(w@),
            forall|y: i64|
                w@.contains(y) <==> (times@.contains(y) && within(
                    y as int,
                    now as int,
                    span as int,
                )),
            forall|i: int|
                0 <= i < gaps@.len() ==> is_gap(
                    times@,
                    now as int,
                    span as int,
                    (#[trigger] gaps@[i]).start,
                    gaps@[i].end,
                ),
            forall|i: int, j: int|
                0 <= i < j < gaps@.len() ==> (#[trigger] gaps@[i]).start < (
                #[trigger] gaps@[j]).start,
            forall|i: int|
                0 <= i < gaps@.len() ==> exists|p: int|
                    0 <= p < k - 1 && #[trigger] w@[p] == (#[trigger] gaps@[i]).start,
            forall|p: int|
                0 <= p && p + 1 < k && w@[p + 1] - w@[p] > GAP_THRESHOLD ==> exists|i: int|
                    0 <= i < gaps@.len() && (#[trigger] gaps@[i]).start == #[trigger] w@[p]
                        && gaps@[i].end == w@[p + 1],
        decreases n - k,
    {
        let a = w[k - 1];
        let b = w[k];
        if b as i128 - a as i128 > GAP_THRESHOLD as i128 {
            let ghost before = gaps@;
            proof {
                lemma_neighbours_gap(times@, now as int, span as int, w@, k as int);
            }
            gaps.push(Gap { start: a, end: b });
            proof {
                let after = gaps@;
                assert forall|i: int, j: int| 0 <= i < j < after.len() implies (
                #[trigger] after[i]).start < (#[trigger] after[j]).start by {
                    if j == before.len() {
                        assert(after[i] == before[i]);
                        let p = choose|p: int|
                            0 <= p < k - 1 && #[trigger] w@[p] == (#[trigger] before[i]).start;
                        assert(w@[p] < w@[k - 1]);
                    } else {
                        assert(after[i] == before[i] && after[j] == before[j]);
                    }
                }
                assert forall|i: int| 0 <= i < after.len() implies exists|p: int|
                    0 <= p < k && #[trigger] w@[p] == (#[trigger] after[i]).start by {
                    if i < before.len() {
                        assert(after[i] == before[i]);
                        let p = choose|p: int|
                            0 <= p < k - 1 && #[trigger] w@[p] == (#[trigger] before[i]).start;
                        assert(0 <= p < k && w@[p] == after[i].start);
                    } else {
                        assert(w@[k - 1] == after[i].start);
                    }
                }
                assert forall|p: int|
                    0 <= p && p + 1 < k + 1 && w@[p + 1] - w@[p] > GAP_THRESHOLD implies exists|
                    i: int,
                |
                    0 <= i < after.len() && (#[trigger] after[i]).start == #[trigger] w@[p]
                        && after[i].end == w@[p + 1] by {
                    if p + 1 < k {
                        let i = choose|i: int|
                            0 <= i < before.len() && (#[trigger] before[i]).start == w@[p]
                                && before[i].end == w@[p + 1];
                        assert(after[i] == before[i]);
                    } else {
                        assert(after[before.len() as int].start == w@[p]);
                    }
                }
                assert forall|i: int| 0 <= i < after.len() implies is_gap(
                    times@,
                    now as int,
                    span as int,
                    (#[trigger] after[i]).start,
                    after[i].end,
                ) by {
                    if i < before.len() {
                        assert(after[i] == before[i]);
                    }
                }
            }
        } else {
            proof {
                assert forall|i: int| 0 <= i < gaps@.len() implies exists|p: int|
                    0 <= p < k && #[trigger] w@[p] == (#[trigger] gaps@[i]).start by {
                    let p = choose|p: int|
                        0 <= p < k - 1 && #[trigger] w@[p] == (#[trigger] gaps@[i]).start;
                    assert(0 <= p < k && w@[p] == gaps@[i].start);
                }
            }
        }
        k += 1;
    }
    proof {
        assert forall|a: i64, b: i64|
            is_gap(times@, now as int, span as int, a, b) implies exists|i: int|
            0 <= i < gaps@.len() && (#[trigger] gaps@[i]).start == a && gaps@[i].end == b by {
            lemma_gap_position(times@, now as int, span as int, w@, a, b);
            let p = choose|p: int|
                0 <= p && p + 1 < w@.len() && #[trigger] w@[p] == a && w@[p + 1] == b;
            assert(p + 1 < k);
            assert(w@[p + 1] - w@[p] > GAP_THRESHOLD);
        }
    }
    gaps
}

} // verus!
