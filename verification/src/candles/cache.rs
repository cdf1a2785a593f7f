//! The read cache: query windows rounded to buckets, entries that expire,
//! and eviction of the oldest entry when the cache is full.

use crate::candles::MarketCandle;
use crate::text::text_eq;
use vstd::arithmetic::div_mod::{
    lemma_fundamental_div_mod, lemma_fundamental_div_mod_converse, lemma_mod_bound,
};
use vstd::prelude::*;
use vstd::string::*;

verus! {

/// Entries that a cache holds at most.
pub const CACHE_CAPACITY: usize = 100;

/// Seconds for which cached candles are fresh.
pub const CANDLE_TTL_SECONDS: i64 = 600;

/// Seconds for which cached metadata is fresh.
pub const METADATA_TTL_SECONDS: i64 = 300;

/// What a cached value is filed under: the symbol, the resolution and the
/// window of the query, rounded to its bucket. The start of a bucket may
/// lie below the least time that a query can name, so the ends of the
/// window are kept in a wider type.
#[derive(Debug)]
pub struct CacheKey {
    pub symbol: String,
    pub resolution: String,
    pub start: i128,
    pub end: i128,
}

/// A key, as characters and integers.
pub struct CacheKeyView {
    pub symbol: Seq<char>,
    pub resolution: Seq<char>,
    pub start: int,
    pub end: int,
}

impl View for CacheKey {
    type V = CacheKeyView;

    open spec fn view(&self) -> CacheKeyView {
        CacheKeyView {
            symbol: self.symbol@,
            resolution: self.resolution@,
            start: self.start as int,
            end: self.end as int,
        }
    }
}

impl CacheKey {
    /// Whether two keys file under the same place.
    pub fn same(&self, other: &CacheKey) -> (b: bool)
        ensures
            b == (self@ == other@),
    {
        self.start == other.start && self.end == other.end && text_eq(
            self.symbol.as_str(),
            other.symbol.as_str(),
        ) && text_eq(self.resolution.as_str(), other.resolution.as_str())
    }
}

/// Width in seconds of the bucket to which the window of a query at a
/// resolution is rounded: wider than the resolution where that is short,
/// to take up the jitter of the clients' clocks.
pub open spec fn bucket_seconds(resolution: Seq<char>) -> int {
    if resolution == "1m"@ {
        300
    } else if resolution == "5m"@ {
        900
    } else if resolution == "15m"@ {
        3600
    } else if resolution == "1h"@ {
        7200
    } else if resolution == "4h"@ {
        14400
    } else if resolution == "12h"@ {
        43200
    } else {
        3600
    }
}

/// Width in seconds of the bucket of a resolution.
pub fn normalization_factor(timeframe: &str) -> (f: i64)
    ensures
        f == bucket_seconds(timeframe@),
        f > 0,
{
    if text_eq(timeframe, "1m") {
        300
    } else if text_eq(timeframe, "5m") {
        900
    } else if text_eq(timeframe, "15m") {
        3600
    } else if text_eq(timeframe, "1h") {
        7200
    } else if text_eq(timeframe, "4h") {
        14400
    } else if text_eq(timeframe, "12h") {
        43200
    } else {
        3600
    }
}

/// Number of the bucket of width `width` in which `t` lies.
pub open spec fn bucket_of(t: int, width: int) -> int {
    t / width
}

/// Start of the bucket in which `t` lies.
pub open spec fn bucket_start(t: int, width: int) -> int {
    bucket_of(t, width) * width
}

/// Rounds `t` down to the start of its bucket.
pub fn normalize(t: i64, width: i64) -> (r: i128)
    requires
        width > 0,
    ensures
        r == bucket_start(t as int, width as int),
        r <= t,
{
    let rest = t % width;
    proof {
        lemma_remainder(t as int, width as int);
    }
    let below: i128 = if rest < 0 {
        rest as i128 + width as i128
    } else {
        rest as i128
    };
    t as i128 - below
}

/// How the remainder that the machine computes, which has the sign of the
/// dividend, relates to the position of `t` in its bucket.
proof fn lemma_remainder(t: int, width: int)
    requires
        width > 0,
    ensures
        t >= 0 ==> t - t % width == bucket_of(t, width) * width,
        t < 0 && (-t) % width == 0 ==> t == bucket_of(t, width) * width,
        t < 0 && (-t) % width != 0 ==> t - (width - (-t) % width) == bucket_of(t, width) * width,
{
    lemma_fundamental_div_mod(t, width);
    lemma_mod_bound(t, width);
    assert(bucket_of(t, width) * width == width * (t / width)) by (nonlinear_arith);
    if t < 0 {
        let u = -t;
        let q = u / width;
        let r = u % width;
        lemma_fundamental_div_mod(u, width);
        lemma_mod_bound(u, width);
        if r == 0 {
            assert(t == (-q) * width + 0) by (nonlinear_arith)
                requires
                    t == -u,
                    u == width * q + r,
                    r == 0,
            ;
            lemma_fundamental_div_mod_converse(t, width, -q, 0);
        } else {
            assert(t == (-q - 1) * width + (width - r)) by (nonlinear_arith)
                requires
                    t == -u,
                    u == width * q + r,
            ;
            lemma_fundamental_div_mod_converse(t, width, -q - 1, width - r);
        }
    }
}

/// The key of a query: its window rounded to the bucket of its resolution.
pub open spec fn key_of(symbol: Seq<char>, resolution: Seq<char>, from: int, to: int)
    -> CacheKeyView {
    CacheKeyView {
        symbol,
        resolution,
        start: bucket_start(from, bucket_seconds(resolution)),
        end: bucket_start(to, bucket_seconds(resolution)),
    }
}

/// The key under which the answer to a query is cached.
pub fn cache_key(symbol: &str, timeframe: &str, from: i64, to: i64) -> (key: CacheKey)
    ensures
        key@ == key_of(symbol@, timeframe@, from as int, to as int),
{
    let width = normalization_factor(timeframe);
    CacheKey {
        symbol: String::from_str(symbol),
        resolution: String::from_str(timeframe),
        start: normalize(from, width),
        end: normalize(to, width),
    }
}

/// Two windows whose ends lie in the same buckets have the same key.
pub proof fn lemma_same_bucket_same_key(
    symbol: Seq<char>,
    resolution: Seq<char>,
    from1: int,
    to1: int,
    from2: int,
    to2: int,
)
    requires
        bucket_of(from1, bucket_seconds(resolution)) == bucket_of(
            from2,
            bucket_seconds(resolution),
        ),
        bucket_of(to1, bucket_seconds(resolution)) == bucket_of(to2, bucket_seconds(resolution)),
    ensures
        key_of(symbol, resolution, from1, to1) == key_of(symbol, resolution, from2, to2),
{
}

/// A window that starts or ends in another bucket has another key.
pub proof fn lemma_other_bucket_other_key(
    symbol: Seq<char>,
    resolution: Seq<char>,
    from1: int,
    to1: int,
    from2: int,
    to2: int,
)
    requires
        bucket_of(from1, bucket_seconds(resolution)) != bucket_of(
            from2,
            bucket_seconds(resolution),
        ) || bucket_of(to1, bucket_seconds(resolution)) != bucket_of(to2, bucket_seconds(resolution)),
    ensures
        key_of(symbol, resolution, from1, to1) != key_of(symbol, resolution, from2, to2),
{
    let w = bucket_seconds(resolution);
    assert(forall|a: int, b: int| a != b ==> #[trigger] (a * w) != #[trigger] (b * w))
        by (nonlinear_arith)
        requires
            w > 0,
    ;
}

/// A cached value that knows when it was cached.
pub trait Cached {
    /// Unix time in seconds at which the value was cached.
    spec fn stamp(&self) -> i64;

    fn cached_at(&self) -> (t: i64)
        ensures
            t == self.stamp(),
    ;
}

/// Candles as a query returned them, and when.
#[derive(Debug)]
pub struct CachedMarketCandles {
    pub data: Vec<MarketCandle>,
    pub cached_at: i64,
}

impl Cached for CachedMarketCandles {
    open spec fn stamp(&self) -> i64 {
        self.cached_at
    }

    fn cached_at(&self) -> (t: i64) {
        self.cached_at
    }
}

/// Any value, and when it was cached.
#[derive(Debug)]
pub struct Stamped<T> {
    pub value: T,
    pub cached_at: i64,
}

impl<T> Cached for Stamped<T> {
    open spec fn stamp(&self) -> i64 {
        self.cached_at
    }

    fn cached_at(&self) -> (t: i64) {
        self.cached_at
    }
}

/// Whether a value cached at `stamp` is still fresh at `now`.
pub open spec fn fresh(stamp: int, now: int, ttl: int) -> bool {
    now - stamp < ttl
}

/// Whether some entry is filed under `key`.
pub open spec fn has_key<V>(entries: Seq<(CacheKeyView, V)>, key: CacheKeyView) -> bool {
    exists|i: int| 0 <= i < entries.len() && (#[trigger] entries[i]).0 == key
}

/// Where the entry filed under `key` stands.
pub open spec fn key_index<V>(entries: Seq<(CacheKeyView, V)>, key: CacheKeyView) -> int {
    choose|i: int| 0 <= i < entries.len() && (#[trigger] entries[i]).0 == key
}

/// The value filed under `key`.
pub open spec fn lookup<V>(entries: Seq<(CacheKeyView, V)>, key: CacheKeyView) -> Option<V> {
    if has_key(entries, key) {
        Some(entries[key_index(entries, key)].1)
    } else {
        None
    }
}

/// The entries but the one filed under `key`.
pub open spec fn without_key<V>(entries: Seq<(CacheKeyView, V)>, key: CacheKeyView) -> Seq<
    (CacheKeyView, V),
> {
    if has_key(entries, key) {
        entries.remove(key_index(entries, key))
    } else {
        entries
    }
}

/// Where the oldest entry stands: the first of those cached earliest.
pub open spec fn oldest<V: Cached>(entries: Seq<(CacheKeyView, V)>) -> int
    decreases entries.len(),
{
    if entries.len() <= 1 {
        0
    } else {
        let among_rest = oldest(entries.drop_last());
        if entries.last().1.stamp() < entries[among_rest].1.stamp() {
            entries.len() - 1
        } else {
            among_rest
        }
    }
}

/// No two entries are filed under the same key.
pub open spec fn distinct_keys<V>(entries: Seq<(CacheKeyView, V)>) -> bool {
    forall|i: int, j: int|
        0 <= i < entries.len() && 0 <= j < entries.len() && i != j ==> (#[trigger] entries[i]).0
            != (#[trigger] entries[j]).0
}

/// The entries after `value` is filed under `key` in a cache that holds at
/// most `capacity`. An entry under the same key is replaced, and nothing
/// else leaves. Under a new key a full cache first loses its oldest entry.
/// A cache without room holds nothing.
pub open spec fn after_insert<V: Cached>(
    entries: Seq<(CacheKeyView, V)>,
    key: CacheKeyView,
    value: V,
    capacity: int,
) -> Seq<(CacheKeyView, V)> {
    if capacity <= 0 {
        entries
    } else if has_key(entries, key) {
        without_key(entries, key).push((key, value))
    } else if entries.len() >= capacity {
        entries.remove(oldest(entries)).push((key, value))
    } else {
        entries.push((key, value))
    }
}

/// The oldest entry is an entry, none was cached before it, and those
/// that stand before it were cached after it.
pub proof fn lemma_oldest<V: Cached>(entries: Seq<(CacheKeyView, V)>)
    requires
        entries.len() > 0,
    ensures
        0 <= oldest(entries) < entries.len(),
        forall|j: int|
            0 <= j < entries.len() ==> entries[oldest(entries)].1.stamp() <= (
            #[trigger] entries[j]).1.stamp(),
        forall|j: int|
            0 <= j < oldest(entries) ==> entries[oldest(entries)].1.stamp() < (
            #[trigger] entries[j]).1.stamp(),
    decreases entries.len(),
{
    if entries.len() > 1 {
        let rest = entries.drop_last();
        lemma_oldest(rest);
        let r = oldest(rest);
        assert(rest[r] == entries[r]);
        assert forall|j: int| 0 <= j < entries.len() implies entries[oldest(entries)].1.stamp()
            <= (#[trigger] entries[j]).1.stamp() by {
            if j < rest.len() {
                assert(rest[j] == entries[j]);
            }
        }
        assert forall|j: int| 0 <= j < oldest(entries) implies entries[oldest(
            entries,
        )].1.stamp() < (#[trigger] entries[j]).1.stamp() by {
            assert(rest[j] == entries[j]);
        }
    }
}

/// A cache of at most `capacity` values, each fresh for `ttl` seconds.
pub struct ReadCache<V: Cached> {
    entries: Vec<(CacheKey, V)>,
    ttl: i64,
    capacity: usize,
}

impl<V: Cached> ReadCache<V> {
    /// The entries in the order in which they were filed.
    pub closed spec fn view(&self) -> Seq<(CacheKeyView, V)> {
        Seq::new(self.entries@.len(), |i: int| (self.entries@[i].0@, self.entries@[i].1))
    }

    /// Seconds for which a value is fresh.
    pub closed spec fn ttl(&self) -> int {
        self.ttl as int
    }

    /// Entries that the cache holds at most.
    pub closed spec fn capacity(&self) -> int {
        self.capacity as int
    }

    /// No key occurs twice and the capacity is kept.
    pub open spec fn wf(&self) -> bool {
        distinct_keys(self@) && self@.len() <= self.capacity()
    }

    /// An empty cache.
    pub fn new(ttl_seconds: i64, capacity: usize) -> (cache: Self)
        ensures
            cache.wf(),
            cache@.len() == 0,
            cache.ttl() == ttl_seconds,
            cache.capacity() == capacity,
    {
        ReadCache { entries: Vec::new(), ttl: ttl_seconds, capacity }
    }

    /// An empty cache for the answers to chart queries: up to 100 entries,
    /// each fresh for 10 minutes.
    pub fn for_candles() -> (cache: Self)
        ensures
            cache.wf(),
            cache@.len() == 0,
            cache.ttl() == CANDLE_TTL_SECONDS,
            cache.capacity() == CACHE_CAPACITY,
    {
        Self::new(CANDLE_TTL_SECONDS, CACHE_CAPACITY)
    }

    /// An empty cache for metadata: up to 100 entries, each fresh for 5
    /// minutes.
    pub fn for_metadata() -> (cache: Self)
        ensures
            cache.wf(),
            cache@.len() == 0,
            cache.ttl() == METADATA_TTL_SECONDS,
            cache.capacity() == CACHE_CAPACITY,
    {
        Self::new(METADATA_TTL_SECONDS, CACHE_CAPACITY)
    }

    /// Number of entries, stale ones included.
    pub fn len(&self) -> (n: usize)
        ensures
            n == self@.len(),
    {
        self.entries.len()
    }

    fn find(&self, key: &CacheKey) -> (at: Option<usize>)
        ensures
            match at {
                Some(i) => i < self@.len() && self@[i as int].0 == key@,
                None => !has_key(self@, key@),
            },
    {
        let mut i: usize = 0;
        while i < self.entries.len()
            invariant
                i <= self.entries.len(),
                forall|j: int| 0 <= j < i ==> (#[trigger] self@[j]).0 != key@,
            decreases self.entries.len() - i,
        {
            if self.entries[i].0.same(key) {
                return Some(i);
            }
            i += 1;
        }
        None
    }

    fn oldest_position(&self) -> (at: usize)
        requires
            self@.len() > 0,
        ensures
            at == oldest(self@),
            at < self@.len(),
    {
        let mut best: usize = 0;
        let mut i: usize = 1;
        proof {
            assert(oldest(self@.take(1)) == 0);
        }
        while i < self.entries.len()
            invariant
                1 <= i <= self.entries.len(),
                best < i,
                best == oldest(self@.take(i as int)),
            decreases self.entries.len() - i,
        {
            proof {
                assert(self@.take(i + 1).drop_last() =~= self@.take(i as int));
                assert(self@.take(i + 1).last() == self@[i as int]);
                assert(self@.take(i + 1)[best as int] == self@[best as int]);
            }
            if self.entries[i].1.cached_at() < self.entries[best].1.cached_at() {
                best = i;
            }
            i += 1;
        }
        proof {
            assert(self@.take(self@.len() as int) =~= self@);
        }
        best
    }

    /// The value filed under `key`, if it is still fresh at `now`. A stale
    /// entry is a miss.
    pub fn get(&self, key: &CacheKey, now: i64) -> (hit: Option<&V>)
        requires
            self.wf(),
        ensures
            match hit {
                Some(value) => lookup(self@, key@) == Some(*value) && fresh(
                    value.stamp() as int,
                    now as int,
                    self.ttl(),
                ),
                None => lookup(self@, key@) matches Some(value) ==> !fresh(
                    value.stamp() as int,
                    now as int,
                    self.ttl(),
                ),
            },
    {
        match self.find(key) {
            Some(i) => {
                let value = &self.entries[i].1;
                proof {
                    lemma_key_index(self@, key@, i as int);
                }
                if (now as i128) - (value.cached_at() as i128) < self.ttl as i128 {
                    Some(value)
                } else {
                    None
                }
            },
            None => None,
        }
    }

    /// Files `value` under `key`. An entry filed under the same key is
    /// replaced; under a new key a full cache first loses its oldest entry.
    pub fn insert(&mut self, key: CacheKey, value: V)
        requires
            old(self).wf(),
        ensures
            final(self).wf(),
            final(self).ttl() == old(self).ttl(),
            final(self).capacity() == old(self).capacity(),
            final(self)@ == after_insert(old(self)@, key@, value, old(self).capacity()),
    {
        if self.capacity == 0 {
            return;
        }
        let ghost before = self@;
        match self.find(&key) {
            Some(i) => {
                self.entries.remove(i);
                proof {
                    lemma_key_index(before, key@, i as int);
                    assert(self@ =~= before.remove(i as int));
                    lemma_remove_keeps_distinct(before, i as int);
                    lemma_removed_key_is_gone(before, i as int);
                }
            },
            None => {
                if self.entries.len() >= self.capacity {
                    let at = self.oldest_position();
                    self.entries.remove(at);
                    proof {
                        assert(self@ =~= before.remove(at as int));
                        lemma_remove_keeps_distinct(before, at as int);
                        lemma_remove_adds_no_key(before, at as int, key@);
                    }
                }
            },
        }
        let ghost cleared = self@;
        self.entries.push((key, value));
        proof {
            assert(self@ =~= cleared.push((key@, value)));
            assert(!has_key(cleared, key@));
            assert forall|i: int, j: int|
                0 <= i < self@.len() && 0 <= j < self@.len() && i != j implies (
            #[trigger] self@[i]).0 != (#[trigger] self@[j]).0 by {
                if i < cleared.len() {
                    assert(cleared[i] == self@[i]);
                }
                if j < cleared.len() {
                    assert(cleared[j] == self@[j]);
                }
            }
        }
    }
}

/// With distinct keys, the entry filed under a key is where that key is found.
pub proof fn lemma_key_index<V>(entries: Seq<(CacheKeyView, V)>, key: CacheKeyView, i: int)
    requires
        distinct_keys(entries),
        0 <= i < entries.len(),
        entries[i].0 == key,
    ensures
        has_key(entries, key),
        key_index(entries, key) == i,
        lookup(entries, key) == Some(entries[i].1),
{
    let k = key_index(entries, key);
    assert(0 <= k < entries.len() && entries[k].0 == key);
    if k != i {
        assert(entries[k].0 != entries[i].0);
    }
}

proof fn lemma_remove_keeps_distinct<V>(entries: Seq<(CacheKeyView, V)>, at: int)
    requires
        distinct_keys(entries),
        0 <= at < entries.len(),
    ensures
        distinct_keys(entries.remove(at)),
{
    let rest = entries.remove(at);
    assert forall|i: int, j: int|
        0 <= i < rest.len() && 0 <= j < rest.len() && i != j implies (#[trigger] rest[i]).0 != (
    #[trigger] rest[j]).0 by {
        let a = if i < at { i } else { i + 1 };
        let b = if j < at { j } else { j + 1 };
        assert(rest[i] == entries[a]);
        assert(rest[j] == entries[b]);
    }
}

proof fn lemma_removed_key_is_gone<V>(entries: Seq<(CacheKeyView, V)>, at: int)
    requires
        distinct_keys(entries),
        0 <= at < entries.len(),
    ensures
        !has_key(entries.remove(at), entries[at].0),
{
    let rest = entries.remove(at);
    assert forall|i: int| 0 <= i < rest.len() implies (#[trigger] rest[i]).0 != entries[at].0 by {
        let a = if i < at { i } else { i + 1 };
        assert(rest[i] == entries[a]);
    }
}

proof fn lemma_remove_adds_no_key<V>(
    entries: Seq<(CacheKeyView, V)>,
    at: int,
    key: CacheKeyView,
)
    requires
        0 <= at < entries.len(),
        !has_key(entries, key),
    ensures
        !has_key(entries.remove(at), key),
{
    let rest = entries.remove(at);
    assert forall|i: int| 0 <= i < rest.len() implies (#[trigger] rest[i]).0 != key by {
        let a = if i < at { i } else { i + 1 };
        assert(rest[i] == entries[a]);
    }
}

proof fn lemma_push_new_key<V>(entries: Seq<(CacheKeyView, V)>, key: CacheKeyView, value: V)
    requires
        distinct_keys(entries),
        !has_key(entries, key),
    ensures
        distinct_keys(entries.push((key, value))),
        lookup(entries.push((key, value)), key) == Some(value),
{
    let after = entries.push((key, value));
    assert forall|i: int, j: int|
        0 <= i < after.len() && 0 <= j < after.len() && i != j implies (#[trigger] after[i]).0
        != (#[trigger] after[j]).0 by {
        if i < entries.len() {
            assert(entries[i] == after[i]);
        }
        if j < entries.len() {
            assert(entries[j] == after[j]);
        }
    }
    assert(after[entries.len() as int].0 == key);
    lemma_key_index(after, key, entries.len() as int);
}

/// What is filed is found: after `value` is filed under `key` in a cache
/// with room for one entry or more, a lookup of `key` gives `value`.
pub proof fn lemma_insert_then_lookup<V: Cached>(
    entries: Seq<(CacheKeyView, V)>,
    key: CacheKeyView,
    value: V,
    capacity: int,
)
    requires
        distinct_keys(entries),
        capacity >= 1,
    ensures
        lookup(after_insert(entries, key, value, capacity), key) == Some(value),
        distinct_keys(after_insert(entries, key, value, capacity)),
{
    if has_key(entries, key) {
        let k = key_index(entries, key);
        lemma_remove_keeps_distinct(entries, k);
        lemma_removed_key_is_gone(entries, k);
        lemma_push_new_key(entries.remove(k), key, value);
    } else if entries.len() >= capacity {
        lemma_oldest(entries);
        lemma_remove_keeps_distinct(entries, oldest(entries));
        lemma_remove_adds_no_key(entries, oldest(entries), key);
        lemma_push_new_key(entries.remove(oldest(entries)), key, value);
    } else {
        lemma_push_new_key(entries, key, value);
    }
}

/// Eviction takes the oldest entry and no other: when a value is filed
/// under a new key in a full cache, the entries afterwards are those from
/// before without the oldest, in their order, followed by the new one.
pub proof fn lemma_full_cache_evicts_oldest<V: Cached>(
    entries: Seq<(CacheKeyView, V)>,
    key: CacheKeyView,
    value: V,
    capacity: int,
)
    requires
        distinct_keys(entries),
        capacity >= 1,
        entries.len() == capacity,
        !has_key(entries, key),
    ensures
        after_insert(entries, key, value, capacity) == entries.remove(oldest(entries)).push(
            (key, value),
        ),
        after_insert(entries, key, value, capacity).len() == capacity,
        forall|j: int|
            0 <= j < entries.len() ==> entries[oldest(entries)].1.stamp() <= (
            #[trigger] entries[j]).1.stamp(),
        forall|j: int|
            0 <= j < entries.len() && j != oldest(entries) ==> after_insert(
                entries,
                key,
                value,
                capacity,
            ).contains(#[trigger] entries[j]),
{
    lemma_oldest(entries);
    let at = oldest(entries);
    let after = entries.remove(at).push((key, value));
    assert forall|j: int| 0 <= j < entries.len() && j != at implies after.contains(
        #[trigger] entries[j],
    ) by {
        let i = if j < at { j } else { j - 1 };
        assert(after[i] == entries[j]);
    }
}

/// Replacing evicts nothing: when a value is filed under a key that has
/// an entry, that entry alone leaves, whether the cache is full or not, and
/// the cache holds as many entries as before.
pub proof fn lemma_replacement_evicts_nothing<V: Cached>(
    entries: Seq<(CacheKeyView, V)>,
    key: CacheKeyView,
    value: V,
    capacity: int,
)
    requires
        distinct_keys(entries),
        capacity >= 1,
        has_key(entries, key),
    ensures
        after_insert(entries, key, value, capacity) == entries.remove(key_index(entries, key)).push(
            (key, value),
        ),
        after_insert(entries, key, value, capacity).len() == entries.len(),
        forall|j: int|
            0 <= j < entries.len() && (#[trigger] entries[j]).0 != key ==> after_insert(
                entries,
                key,
                value,
                capacity,
            ).contains(entries[j]),
{
    let at = key_index(entries, key);
    let after = entries.remove(at).push((key, value));
    assert forall|j: int| 0 <= j < entries.len() && (#[trigger] entries[j]).0 != key implies after.contains(
        entries[j],
    ) by {
        let i = if j < at { j } else { j - 1 };
        assert(after[i] == entries[j]);
    }
}

/// A second query whose window lies in the same buckets as that of a
/// first finds what the first one filed, for as long as it is fresh: with
/// a well-formed cache, `get` returns `value` for the key of the second
/// query.
pub proof fn lemma_same_bucket_hits<V: Cached>(
    entries: Seq<(CacheKeyView, V)>,
    capacity: int,
    symbol: Seq<char>,
    resolution: Seq<char>,
    from1: int,
    to1: int,
    from2: int,
    to2: int,
    value: V,
)
    requires
        distinct_keys(entries),
        capacity >= 1,
        bucket_of(from1, bucket_seconds(resolution)) == bucket_of(
            from2,
            bucket_seconds(resolution),
        ),
        bucket_of(to1, bucket_seconds(resolution)) == bucket_of(to2, bucket_seconds(resolution)),
    ensures
        lookup(
            after_insert(entries, key_of(symbol, resolution, from1, to1), value, capacity),
            key_of(symbol, resolution, from2, to2),
        ) == Some(value),
{
    lemma_same_bucket_same_key(symbol, resolution, from1, to1, from2, to2);
    lemma_insert_then_lookup(entries, key_of(symbol, resolution, from1, to1), value, capacity);
}

} // verus!
