//! A chart query: what is asked of the store, and what is made of the rows.

use crate::candles::cache::{CacheKey, CacheKeyView, CachedMarketCandles};
use crate::candles::{
    get_table_name, get_ticks_table, table_name, ticks_table, MarketCandle, MarketChartResponse,
    MarketMetadata,
};
use crate::text::{join2, join3, text_eq};
use crate::time::{
    format_rfc3339, instant_from_timestamp, rfc3339_text, timestamp_instant, Instant,
};
use vstd::prelude::*;
use vstd::string::*;

verus! {

/// One candle as the store returns it.
#[derive(Debug)]
pub struct CandleRow {
    pub time: Instant,
    pub open: String,
    pub high: String,
    pub low: String,
    pub close: String,
    pub volume: Option<i64>,
}

/// What a chart query asks of the store: the statement for the candles,
/// which takes the symbol and the two ends of the window, and the
/// statement for the first and the last tick, which takes the symbol.
#[derive(Debug)]
pub struct CandleQuery {
    pub table: String,
    pub sql: String,
    pub metadata_sql: String,
    pub from: Instant,
    pub to: Instant,
}

/// The statement that reads the candles of a symbol in a window from `table`.
pub open spec fn candle_sql(table: Seq<char>) -> Seq<char> {
    "SELECT time, open::text, high::text, low::text, close::text, tick_count::INT8 as volume FROM "@
        + table + " WHERE symbol = $1 AND time >= $2 AND time <= $3 ORDER BY time ASC"@
}

/// The statement that reads the first and the last tick of a symbol.
pub open spec fn metadata_sql(ticks: Seq<char>) -> Seq<char> {
    "SELECT MIN(time) as start_time, MAX(time) as end_time, COUNT(*) as count FROM "@ + ticks
        + " WHERE symbol = $1"@
}

/// Whether chrono can hold the Unix second `secs`.
pub open spec fn valid_seconds(secs: i64) -> bool {
    timestamp_instant(secs, 0) is Some
}

/// What a query for `symbol` at `timeframe` from `from` to `to`, in Unix
/// seconds, asks of the store, or why it cannot be asked: the symbol has
/// no table, the resolution has none, or an end of the window is no time.
pub open spec fn candle_plan(symbol: Seq<char>, timeframe: Seq<char>, from: i64, to: i64)
    -> Result<(Seq<char>, int, int), Seq<char>> {
    match table_name(symbol, timeframe) {
        Err(why) => Err(why),
        Ok(table) => if !valid_seconds(from) {
            Err("Invalid from timestamp"@)
        } else if !valid_seconds(to) {
            Err("Invalid to timestamp"@)
        } else {
            Ok((table, from * 1_000_000, to * 1_000_000))
        },
    }
}

/// Plans a chart query.
pub fn plan_candle_query(symbol: &str, timeframe: &str, from: i64, to: i64) -> (r: Result<
    CandleQuery,
    String,
>)
    ensures
        match r {
            Ok(query) => {
                &&& candle_plan(symbol@, timeframe@, from, to) == Ok::<
                    (Seq<char>, int, int),
                    Seq<char>,
                >((query.table@, query.from as int, query.to as int))
                &&& query.sql@ == candle_sql(query.table@)
                &&& ticks_table(symbol@) matches Ok(ticks) && query.metadata_sql@ == metadata_sql(
                    ticks,
                )
            },
            Err(why) => candle_plan(symbol@, timeframe@, from, to) == Err::<
                (Seq<char>, int, int),
                Seq<char>,
            >(why@),
        },
{
    let table = match get_table_name(symbol, timeframe) {
        Ok(table) => table,
        Err(why) => {
            return Err(why);
        },
    };
    let from_time = match instant_from_timestamp(from, 0) {
        Some(t) => t,
        None => {
            return Err(String::from_str("Invalid from timestamp"));
        },
    };
    let to_time = match instant_from_timestamp(to, 0) {
        Some(t) => t,
        None => {
            return Err(String::from_str("Invalid to timestamp"));
        },
    };
    let ticks = match get_ticks_table(symbol) {
        Ok(ticks) => ticks,
        Err(why) => {
            return Err(why);
        },
    };
    let sql = join3(
        "SELECT time, open::text, high::text, low::text, close::text, tick_count::INT8 as volume FROM ",
        table.as_str(),
        " WHERE symbol = $1 AND time >= $2 AND time <= $3 ORDER BY time ASC",
    );
    let metadata_sql = join3(
        "SELECT MIN(time) as start_time, MAX(time) as end_time, COUNT(*) as count FROM ",
        ticks,
        " WHERE symbol = $1",
    );
    Ok(CandleQuery { table, sql, metadata_sql, from: from_time, to: to_time })
}

/// Whether `candle` is the candle of `row`: the prices as they are, the
/// time in RFC 3339.
pub open spec fn is_candle_of(candle: MarketCandle, row: CandleRow) -> bool {
    &&& Some(candle.time@) == rfc3339_text(row.time)
    &&& candle.open == row.open
    &&& candle.high == row.high
    &&& candle.low == row.low
    &&& candle.close == row.close
    &&& candle.volume == row.volume
}

/// Whole seconds of an instant.
pub open spec fn seconds_of(instant: int) -> int {
    instant / 1_000_000
}

/// Whether `metadata` says of `symbol` what the first and the last tick
/// say, where there are any.
pub open spec fn is_metadata_of(
    metadata: MarketMetadata,
    symbol: Seq<char>,
    bounds: Option<(Instant, Instant)>,
) -> bool {
    &&& metadata.symbol@ == symbol
    &&& match bounds {
        Some((first, last)) => {
            &&& metadata.start_timestamp == seconds_of(first as int)
            &&& metadata.end_timestamp == seconds_of(last as int)
            &&& metadata.has_data
        },
        None => {
            &&& metadata.start_timestamp == 0
            &&& metadata.end_timestamp == 0
            &&& !metadata.has_data
        },
    }
}

/// Whole seconds of an instant.
pub fn unix_seconds(instant: Instant) -> (secs: i64)
    ensures
        secs == seconds_of(instant as int),
{
    let q = instant / 1_000_000;
    let r = instant % 1_000_000;
    let secs = if r < 0 {
        q - 1
    } else {
        q
    };
    proof {
        let rest = if r < 0 {
            r + 1_000_000
        } else {
            r as int
        };
        vstd::arithmetic::div_mod::lemma_fundamental_div_mod_converse(
            instant as int,
            1_000_000,
            secs as int,
            rest,
        );
    }
    secs
}

/// What is known of the data of a symbol, from its first and last tick.
pub fn market_metadata(symbol: &str, bounds: Option<(Instant, Instant)>) -> (metadata:
    MarketMetadata)
    ensures
        is_metadata_of(metadata, symbol@, bounds),
{
    match bounds {
        Some((first, last)) => MarketMetadata {
            symbol: String::from_str(symbol),
            start_timestamp: unix_seconds(first),
            end_timestamp: unix_seconds(last),
            has_data: true,
        },
        None => MarketMetadata {
            symbol: String::from_str(symbol),
            start_timestamp: 0,
            end_timestamp: 0,
            has_data: false,
        },
    }
}

/// Whether the time of every row can be written.
pub open spec fn writable(rows: Seq<CandleRow>) -> bool {
    forall|i: int| 0 <= i < rows.len() ==> rfc3339_text((#[trigger] rows[i]).time) is Some
}

/// The answer to a chart query, from the rows of the store and the first
/// and last tick of the symbol. Without rows the answer says that there
/// is no data, whatever the ticks say. A row whose time cannot be written
/// spoils the answer.
pub fn chart_response(symbol: &str, rows: &Vec<CandleRow>, bounds: Option<(Instant, Instant)>) -> (r:
    Result<MarketChartResponse, String>)
    ensures
        writable(rows@) <==> r is Ok,
        r matches Err(why) ==> why@ == "Invalid candle timestamp"@,
        r matches Ok(response) ==> {
            &&& response.data@.len() == rows@.len()
            &&& forall|i: int|
                0 <= i < rows@.len() ==> is_candle_of(#[trigger] response.data@[i], rows@[i])
            &&& response.metadata matches Some(metadata)
            &&& is_metadata_of(
                metadata,
                symbol@,
                if rows@.len() == 0 {
                    None
                } else {
                    bounds
                },
            )
        },
{
    let mut data: Vec<MarketCandle> = Vec::new();
    let mut i: usize = 0;
    while i < rows.len()
        invariant
            i <= rows.len(),
            data@.len() == i,
            forall|j: int| 0 <= j < i ==> rfc3339_text((#[trigger] rows@[j]).time) is Some,
            forall|j: int| 0 <= j < i ==> is_candle_of(#[trigger] data@[j], rows@[j]),
        decreases rows.len() - i,
    {
        let row = &rows[i];
        let time = match format_rfc3339(row.time) {
            Some(time) => time,
            None => {
                assert(rfc3339_text(rows@[i as int].time) is None);
                return Err(String::from_str("Invalid candle timestamp"));
            },
        };
        data.push(
            MarketCandle {
                time,
                open: row.open.clone(),
                high: row.high.clone(),
                low: row.low.clone(),
                close: row.close.clone(),
                volume: row.volume,
            },
        );
        i += 1;
    }
    let metadata = if rows.len() == 0 {
        market_metadata(symbol, None)
    } else {
        market_metadata(symbol, bounds)
    };
    Ok(MarketChartResponse { data, metadata: Some(metadata) })
}

/// A copy of candles.
pub fn clone_candles(candles: &Vec<MarketCandle>) -> (copy: Vec<MarketCandle>)
    ensures
        copy@ == candles@,
{
    let mut copy: Vec<MarketCandle> = Vec::new();
    let mut i: usize = 0;
    while i < candles.len()
        invariant
            i <= candles.len(),
            copy@ == candles@.take(i as int),
        decreases candles.len() - i,
    {
        let c = &candles[i];
        copy.push(
            MarketCandle {
                time: c.time.clone(),
                open: c.open.clone(),
                high: c.high.clone(),
                low: c.low.clone(),
                close: c.close.clone(),
                volume: c.volume,
            },
        );
        proof {
            assert(copy@ =~= candles@.take(i + 1));
        }
        i += 1;
    }
    assert(candles@.take(candles@.len() as int) =~= candles@);
    copy
}

/// The answer that a fresh cache entry gives: its candles, and no metadata.
pub fn cached_response(candles: &Vec<MarketCandle>) -> (response: MarketChartResponse)
    ensures
        response.data@ == candles@,
        response.metadata is None,
{
    MarketChartResponse { data: clone_candles(candles), metadata: None }
}

/// What is cached of an answer: its candles as of `now`. Every answer is
/// cached, one without candles too, so that a second query for the same
/// buckets is a hit whatever the first one found.
pub fn cacheable(response: &MarketChartResponse, now: i64) -> (entry: CachedMarketCandles)
    ensures
        entry.data@ == response.data@,
        entry.cached_at == now,
{
    CachedMarketCandles { data: clone_candles(&response.data), cached_at: now }
}

/// The forex table of the candles of a resolution, for the queries that
/// read prices as numbers: from 15 minutes up.
pub open spec fn forex_table(timeframe: Seq<char>) -> Result<Seq<char>, Seq<char>> {
    if timeframe == "15m"@ {
        Ok("forex_candles_15m"@)
    } else if timeframe == "1h"@ {
        Ok("forex_candles_1h"@)
    } else if timeframe == "4h"@ {
        Ok("forex_candles_4h"@)
    } else if timeframe == "12h"@ {
        Ok("forex_candles_12h"@)
    } else {
        Err("Invalid timeframe: "@ + timeframe)
    }
}

/// The forex table of the candles of a resolution.
pub fn forex_candle_table(timeframe: &str) -> (r: Result<&'static str, String>)
    ensures
        match r {
            Ok(table) => forex_table(timeframe@) == Ok::<Seq<char>, Seq<char>>(table@),
            Err(why) => forex_table(timeframe@) == Err::<Seq<char>, Seq<char>>(why@),
        },
{
    if text_eq(timeframe, "15m") {
        Ok("forex_candles_15m")
    } else if text_eq(timeframe, "1h") {
        Ok("forex_candles_1h")
    } else if text_eq(timeframe, "4h") {
        Ok("forex_candles_4h")
    } else if text_eq(timeframe, "12h") {
        Ok("forex_candles_12h")
    } else {
        Err(join2("Invalid timeframe: ", timeframe))
    }
}

/// The statement that reads the candles of a symbol in a window of Unix
/// seconds from `table`, prices as numbers.
pub open spec fn numeric_candle_sql(table: Seq<char>) -> Seq<char> {
    "SELECT time, open::FLOAT8 as open, high::FLOAT8 as high, low::FLOAT8 as low, close::FLOAT8 as close, tick_count::INT8 as volume FROM "@
        + table
        + " WHERE symbol = $1 AND time >= to_timestamp($2) AND time <= to_timestamp($3) ORDER BY time"@
}

/// The statement that reads candles with prices as numbers.
pub fn numeric_candle_statement(table: &str) -> (sql: String)
    ensures
        sql@ == numeric_candle_sql(table@),
{
    join3(
        "SELECT time, open::FLOAT8 as open, high::FLOAT8 as high, low::FLOAT8 as low, close::FLOAT8 as close, tick_count::INT8 as volume FROM ",
        table,
        " WHERE symbol = $1 AND time >= to_timestamp($2) AND time <= to_timestamp($3) ORDER BY time",
    )
}

/// The key of a query whose window is taken as it is.
pub fn exact_key(symbol: &str, timeframe: &str, from: i64, to: i64) -> (key: CacheKey)
    ensures
        key@ == (CacheKeyView {
            symbol: symbol@,
            resolution: timeframe@,
            start: from as int,
            end: to as int,
        }),
{
    CacheKey {
        symbol: String::from_str(symbol),
        resolution: String::from_str(timeframe),
        start: from as i128,
        end: to as i128,
    }
}

} // verus!
