use market_ingest::candles::cache::{
    cache_key, normalization_factor, normalize, CacheKey, CachedMarketCandles, ReadCache, Stamped,
    CACHE_CAPACITY, CANDLE_TTL_SECONDS, METADATA_TTL_SECONDS,
};
use market_ingest::candles::commands::{cacheable, chart_response};
use market_ingest::candles::MarketCandle;
use market_ingest::market_data::symbols::{metadata_key, symbol_metadata, CachedMetadata};

fn candles(cached_at: i64, close: &str) -> CachedMarketCandles {
    CachedMarketCandles {
        data: vec![MarketCandle {
            time: "2024-01-15T10:00:00+00:00".to_string(),
            open: "1.0".to_string(),
            high: "1.2".to_string(),
            low: "0.9".to_string(),
            close: close.to_string(),
            volume: Some(7),
        }],
        cached_at,
    }
}

fn key(symbol: &str, start: i64) -> CacheKey {
    CacheKey {
        symbol: symbol.to_string(),
        resolution: "1h".to_string(),
        start: i128::from(start),
        end: i128::from(start) + 7200,
    }
}

#[test]
fn buckets_of_each_resolution() {
    assert_eq!(normalization_factor("1m"), 300);
    assert_eq!(normalization_factor("5m"), 900);
    assert_eq!(normalization_factor("15m"), 3600);
    assert_eq!(normalization_factor("1h"), 7200);
    assert_eq!(normalization_factor("4h"), 14400);
    assert_eq!(normalization_factor("12h"), 43200);
    assert_eq!(normalization_factor("1d"), 3600);
}

#[test]
fn windows_are_rounded_down() {
    assert_eq!(normalize(1_754_784_000, 7200), 1_754_784_000);
    assert_eq!(normalize(1_754_784_000 + 7199, 7200), 1_754_784_000);
    assert_eq!(normalize(1_754_784_000 + 7200, 7200), 1_754_791_200);
    assert_eq!(normalize(299, 300), 0);
    assert_eq!(normalize(-1, 300), -300);
    assert_eq!(normalize(-300, 300), -300);
    assert_eq!(normalize(-301, 300), -600);
    assert_eq!(normalize(i64::MIN, 300), -9_223_372_036_854_776_100);
    assert_eq!(normalize(i64::MIN + 7, 300), -9_223_372_036_854_776_100);
    assert_eq!(normalize(i64::MIN + 8, 300), -9_223_372_036_854_775_800);
    assert_eq!(normalize(i64::MAX, 43200), 9223372036854763200);
}

#[test]
fn queries_in_one_bucket_share_a_key_and_the_second_is_a_hit() {
    let first = cache_key("EURUSD", "1h", 1_754_784_000 + 100, 1_754_870_400 + 30);
    let second = cache_key("EURUSD", "1h", 1_754_784_000 + 7199, 1_754_870_400 + 5000);
    assert_eq!(first.start, 1_754_784_000);
    assert_eq!(first.end, 1_754_870_400);
    assert!(first.same(&second));
    let mut cache: ReadCache<CachedMarketCandles> = ReadCache::new(CANDLE_TTL_SECONDS, CACHE_CAPACITY);
    assert!(cache.get(&first, 1000).is_none());
    cache.insert(first, candles(1000, "1.1"));
    let hit = cache.get(&second, 1000 + 599).expect("the second query is a hit");
    assert_eq!(hit.data[0].close, "1.1");
    assert_eq!(hit.cached_at, 1000);
}

#[test]
fn query_in_the_next_bucket_has_another_key() {
    let first = cache_key("EURUSD", "1h", 1_754_784_000 + 100, 1_754_870_400);
    let next = cache_key("EURUSD", "1h", 1_754_784_000 + 7200, 1_754_870_400);
    assert!(!first.same(&next));
    assert_eq!(next.start, 1_754_791_200);
    let other_symbol = cache_key("GBPUSD", "1h", 1_754_784_000 + 100, 1_754_870_400);
    assert!(!first.same(&other_symbol));
    let other_resolution = cache_key("EURUSD", "4h", 1_754_784_000 + 100, 1_754_870_400);
    assert!(!first.same(&other_resolution));
    let mut cache: ReadCache<CachedMarketCandles> = ReadCache::new(CANDLE_TTL_SECONDS, CACHE_CAPACITY);
    cache.insert(first, candles(1000, "1.1"));
    assert!(cache.get(&next, 1000).is_none());
}

#[test]
fn stale_entry_is_a_miss() {
    let mut cache: ReadCache<CachedMarketCandles> = ReadCache::new(CANDLE_TTL_SECONDS, CACHE_CAPACITY);
    cache.insert(key("EURUSD", 0), candles(1000, "1.1"));
    assert!(cache.get(&key("EURUSD", 0), 1000 + 599).is_some());
    assert!(cache.get(&key("EURUSD", 0), 1000 + 600).is_none());
    assert_eq!(cache.len(), 1);
}

#[test]
fn hundred_and_first_entry_evicts_the_oldest_only() {
    let mut cache: ReadCache<CachedMarketCandles> = ReadCache::new(CANDLE_TTL_SECONDS, CACHE_CAPACITY);
    for i in 0..100i64 {
        let stamp = if i == 37 { 5 } else { 1000 + i };
        cache.insert(key("EURUSD", i * 7200), candles(stamp, "1.1"));
    }
    assert_eq!(cache.len(), 100);
    cache.insert(key("GBPUSD", 0), candles(2000, "1.3"));
    assert_eq!(cache.len(), 100);
    for i in 0..100i64 {
        let found = cache.get(&key("EURUSD", i * 7200), 0);
        assert_eq!(found.is_some(), i != 37);
    }
    assert_eq!(cache.get(&key("GBPUSD", 0), 2000).map(|c| c.data[0].close.clone()), Some("1.3".to_string()));
}

#[test]
fn of_two_oldest_entries_the_first_goes() {
    let mut cache: ReadCache<CachedMarketCandles> = ReadCache::new(CANDLE_TTL_SECONDS, 3);
    cache.insert(key("A", 0), candles(10, "a"));
    cache.insert(key("B", 0), candles(5, "b"));
    cache.insert(key("C", 0), candles(5, "c"));
    cache.insert(key("D", 0), candles(20, "d"));
    assert!(cache.get(&key("A", 0), 0).is_some());
    assert!(cache.get(&key("B", 0), 0).is_none());
    assert!(cache.get(&key("C", 0), 0).is_some());
    assert!(cache.get(&key("D", 0), 0).is_some());
}

#[test]
fn same_key_replaces_the_entry() {
    let mut cache: ReadCache<CachedMarketCandles> = ReadCache::new(CANDLE_TTL_SECONDS, 5);
    cache.insert(key("A", 0), candles(10, "old"));
    cache.insert(key("A", 0), candles(20, "new"));
    assert_eq!(cache.len(), 1);
    assert_eq!(cache.get(&key("A", 0), 20).map(|c| c.data[0].close.clone()), Some("new".to_string()));
}

#[test]
fn cache_without_room_holds_nothing() {
    let mut cache: ReadCache<CachedMarketCandles> = ReadCache::new(CANDLE_TTL_SECONDS, 0);
    cache.insert(key("A", 0), candles(10, "a"));
    assert_eq!(cache.len(), 0);
    assert!(cache.get(&key("A", 0), 10).is_none());
}

#[test]
fn metadata_is_fresh_for_five_minutes() {
    let mut cache: ReadCache<CachedMetadata> = ReadCache::new(METADATA_TTL_SECONDS, CACHE_CAPACITY);
    let metadata = symbol_metadata("EURUSD", Some((1_000_000, 61_500_000)));
    assert_eq!(metadata.start_timestamp, 1);
    assert_eq!(metadata.end_timestamp, 61);
    assert!(metadata.has_data);
    cache.insert(metadata_key("EURUSD"), CachedMetadata { metadata, cached_at: 100 });
    assert!(cache.get(&metadata_key("EURUSD"), 100 + 299).is_some());
    assert!(cache.get(&metadata_key("EURUSD"), 100 + 300).is_none());
    assert!(cache.get(&metadata_key("GBPUSD"), 100).is_none());
    let none = symbol_metadata("EURUSD", None);
    assert_eq!((none.start_timestamp, none.end_timestamp, none.has_data), (0, 0, false));
}

#[test]
fn any_value_can_be_cached_with_its_time() {
    let mut cache: ReadCache<Stamped<Vec<u8>>> = ReadCache::new(10, 2);
    cache.insert(key("A", 0), Stamped { value: vec![1, 2], cached_at: 100 });
    assert_eq!(cache.get(&key("A", 0), 109).map(|s| s.value.clone()), Some(vec![1, 2]));
    assert!(cache.get(&key("A", 0), 110).is_none());
}

#[test]
fn replacing_a_stale_key_in_a_full_cache_evicts_nothing() {
    let mut cache: ReadCache<CachedMarketCandles> = ReadCache::new(CANDLE_TTL_SECONDS, CACHE_CAPACITY);
    for i in 0..100i64 {
        let stamp = if i == 37 { 5 } else { 1000 + i };
        cache.insert(key("EURUSD", i * 7200), candles(stamp, "old"));
    }
    assert_eq!(cache.len(), 100);
    let now = 1000 + 60 + 600;
    assert!(cache.get(&key("EURUSD", 60 * 7200), now).is_none());
    cache.insert(key("EURUSD", 60 * 7200), candles(now, "fresh"));
    assert_eq!(cache.len(), 100);
    for i in 0..100i64 {
        let found = cache.get(&key("EURUSD", i * 7200), 0).expect("no entry is lost");
        assert_eq!(found.data[0].close, if i == 60 { "fresh" } else { "old" });
        assert_eq!(found.cached_at, if i == 37 { 5 } else if i == 60 { now } else { 1000 + i });
    }
    cache.insert(key("EURUSD", 37 * 7200), candles(now, "fresh"));
    assert_eq!(cache.len(), 100);
    cache.insert(key("GBPUSD", 0), candles(now, "new"));
    assert_eq!(cache.len(), 100);
    assert!(cache.get(&key("EURUSD", 0), 0).is_none());
    assert!(cache.get(&key("EURUSD", 7200), 0).is_some());
}

#[test]
fn replacing_the_only_key_of_a_cache_of_one() {
    let mut cache: ReadCache<CachedMarketCandles> = ReadCache::new(CANDLE_TTL_SECONDS, 1);
    cache.insert(key("A", 0), candles(10, "a"));
    cache.insert(key("A", 0), candles(20, "b"));
    assert_eq!(cache.get(&key("A", 0), 20).map(|c| c.data[0].close.clone()), Some("b".to_string()));
    cache.insert(key("B", 0), candles(30, "c"));
    assert_eq!(cache.len(), 1);
    assert!(cache.get(&key("A", 0), 30).is_none());
    assert!(cache.get(&key("B", 0), 30).is_some());
}

#[test]
fn second_query_is_a_hit_after_an_empty_answer() {
    let mut cache: ReadCache<CachedMarketCandles> = ReadCache::for_candles();
    let first = cache_key("EURUSD", "1h", 1_754_784_000 + 100, 1_754_870_400 + 30);
    assert!(cache.get(&first, 1000).is_none());
    let answer = chart_response("EURUSD", &Vec::new(), None).unwrap();
    assert!(answer.data.is_empty());
    cache.insert(first, cacheable(&answer, 1000));
    let second = cache_key("EURUSD", "1h", 1_754_784_000 + 7199, 1_754_870_400 + 5000);
    let hit = cache.get(&second, 1000 + 599).expect("the second query is a hit");
    assert!(hit.data.is_empty());
    assert_eq!(hit.cached_at, 1000);
    assert_eq!(cache.len(), 1);
    assert!(cache.get(&second, 1000 + 600).is_none());
}

#[test]
fn each_cache_has_its_settings() {
    let mut candle_cache: ReadCache<CachedMarketCandles> = ReadCache::for_candles();
    let mut metadata_cache: ReadCache<CachedMetadata> = ReadCache::for_metadata();
    for i in 0..101i64 {
        candle_cache.insert(key("EURUSD", i * 7200), candles(1000, "c"));
        let metadata = symbol_metadata("EURUSD", Some((0, 1_000_000)));
        metadata_cache.insert(key("EURUSD", i * 7200), CachedMetadata { metadata, cached_at: 1000 });
    }
    assert_eq!(candle_cache.len(), 100);
    assert_eq!(metadata_cache.len(), 100);
    assert!(candle_cache.get(&key("EURUSD", 7200), 1000 + 599).is_some());
    assert!(candle_cache.get(&key("EURUSD", 7200), 1000 + 600).is_none());
    assert!(metadata_cache.get(&key("EURUSD", 7200), 1000 + 299).is_some());
    assert!(metadata_cache.get(&key("EURUSD", 7200), 1000 + 300).is_none());
}
