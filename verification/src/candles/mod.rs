//! Candles as the chart reads them, and the routing of a symbol to the
//! tables that hold its candles and ticks.

pub mod cache;
pub mod commands;

use crate::text::{chars_of, join2, join3, text_eq};
use vstd::prelude::*;
use vstd::string::*;

verus! {

/// One candle, every price as the text the store returned.
#[derive(Debug)]
pub struct MarketCandle {
    pub time: String,
    pub open: String,
    pub high: String,
    pub low: String,
    pub close: String,
    pub volume: Option<i64>,
}

/// The answer to a chart query.
#[derive(Debug)]
pub struct MarketChartResponse {
    pub data: Vec<MarketCandle>,
    pub metadata: Option<MarketMetadata>,
}

/// The extent of the data of a symbol, in Unix seconds.
#[derive(Debug)]
pub struct MarketMetadata {
    pub symbol: String,
    pub start_timestamp: i64,
    pub end_timestamp: i64,
    pub has_data: bool,
}

/// One of the eight currency codes that make a forex pair.
pub open spec fn is_currency(code: Seq<char>) -> bool {
    ||| code == "USD"@
    ||| code == "EUR"@
    ||| code == "GBP"@
    ||| code == "JPY"@
    ||| code == "CHF"@
    ||| code == "CAD"@
    ||| code == "AUD"@
    ||| code == "NZD"@
}

/// Two currency codes in a row, or with a slash between them.
pub open spec fn forex_pair(symbol: Seq<char>) -> bool {
    ||| symbol.len() == 6 && is_currency(symbol.subrange(0, 3)) && is_currency(
        symbol.subrange(3, 6),
    )
    ||| symbol.len() == 7 && symbol[3] == '/' && is_currency(symbol.subrange(0, 3))
        && is_currency(symbol.subrange(4, 7))
}

/// The two ways to write the symbol that has tables of its own.
pub open spec fn is_bitcoin(symbol: Seq<char>) -> bool {
    symbol == "BTCUSD"@ || symbol == "BTC/USD"@
}

/// The resolutions that have a candle table.
pub open spec fn is_timeframe(timeframe: Seq<char>) -> bool {
    ||| timeframe == "1m"@
    ||| timeframe == "5m"@
    ||| timeframe == "15m"@
    ||| timeframe == "1h"@
    ||| timeframe == "4h"@
    ||| timeframe == "12h"@
}

/// Whether the three characters of `chars` at `at` are a currency code.
pub fn is_currency_at(chars: &Vec<char>, at: usize) -> (b: bool)
    requires
        at + 3 <= chars.len(),
    ensures
        b == is_currency(chars@.subrange(at as int, at + 3)),
{
    let a = chars[at];
    let b = chars[at + 1];
    let c = chars[at + 2];
    proof {
        reveal_strlit("USD");
        reveal_strlit("EUR");
        reveal_strlit("GBP");
        reveal_strlit("JPY");
        reveal_strlit("CHF");
        reveal_strlit("CAD");
        reveal_strlit("AUD");
        reveal_strlit("NZD");
        let code = chars@.subrange(at as int, at + 3);
        assert(code =~= seq![a, b, c]);
        assert("USD"@ =~= seq!['U', 'S', 'D']);
        assert("EUR"@ =~= seq!['E', 'U', 'R']);
        assert("GBP"@ =~= seq!['G', 'B', 'P']);
        assert("JPY"@ =~= seq!['J', 'P', 'Y']);
        assert("CHF"@ =~= seq!['C', 'H', 'F']);
        assert("CAD"@ =~= seq!['C', 'A', 'D']);
        assert("AUD"@ =~= seq!['A', 'U', 'D']);
        assert("NZD"@ =~= seq!['N', 'Z', 'D']);
    }
    (a == 'U' && b == 'S' && c == 'D') || (a == 'E' && b == 'U' && c == 'R') || (a == 'G' && b
        == 'B' && c == 'P') || (a == 'J' && b == 'P' && c == 'Y') || (a == 'C' && b == 'H' && c
        == 'F') || (a == 'C' && b == 'A' && c == 'D') || (a == 'A' && b == 'U' && c == 'D') || (a
        == 'N' && b == 'Z' && c == 'D')
}

/// Whether `symbol` is a forex pair such as EURUSD or EUR/USD.
pub fn is_forex_pair(symbol: &str) -> (b: bool)
    ensures
        b == forex_pair(symbol@),
{
    let chars = chars_of(symbol);
    if chars.len() == 6 {
        is_currency_at(&chars, 0) && is_currency_at(&chars, 3)
    } else if chars.len() == 7 {
        chars[3] == '/' && is_currency_at(&chars, 0) && is_currency_at(&chars, 4)
    } else {
        false
    }
}

fn bitcoin_symbol(symbol: &str) -> (b: bool)
    ensures
        b == is_bitcoin(symbol@),
{
    text_eq(symbol, "BTCUSD") || text_eq(symbol, "BTC/USD")
}

fn known_timeframe(timeframe: &str) -> (b: bool)
    ensures
        b == is_timeframe(timeframe@),
{
    text_eq(timeframe, "1m") || text_eq(timeframe, "5m") || text_eq(timeframe, "15m") || text_eq(
        timeframe,
        "1h",
    ) || text_eq(timeframe, "4h") || text_eq(timeframe, "12h")
}

/// The candle table of a symbol at a resolution, or why there is none.
pub open spec fn table_name(symbol: Seq<char>, timeframe: Seq<char>) -> Result<
    Seq<char>,
    Seq<char>,
> {
    if !is_bitcoin(symbol) && !forex_pair(symbol) {
        Err("Unknown asset type for symbol: "@ + symbol)
    } else if !is_timeframe(timeframe) {
        Err("Unsupported timeframe: "@ + timeframe)
    } else if is_bitcoin(symbol) {
        Ok("bitcoin"@ + "_candles_"@ + timeframe)
    } else {
        Ok("forex"@ + "_candles_"@ + timeframe)
    }
}

/// The tick table of a symbol, or why there is none.
pub open spec fn ticks_table(symbol: Seq<char>) -> Result<Seq<char>, Seq<char>> {
    if is_bitcoin(symbol) {
        Ok("bitcoin_ticks"@)
    } else if forex_pair(symbol) {
        Ok("forex_ticks"@)
    } else {
        Err("Unknown asset type for symbol: "@ + symbol)
    }
}

/// Routes a symbol and a resolution to the table that holds its candles.
pub fn get_table_name(symbol: &str, timeframe: &str) -> (r: Result<String, String>)
    ensures
        match r {
            Ok(name) => table_name(symbol@, timeframe@) == Ok::<Seq<char>, Seq<char>>(name@),
            Err(why) => table_name(symbol@, timeframe@) == Err::<Seq<char>, Seq<char>>(why@),
        },
{
    let prefix = if bitcoin_symbol(symbol) {
        "bitcoin"
    } else if is_forex_pair(symbol) {
        "forex"
    } else {
        return Err(join2("Unknown asset type for symbol: ", symbol));
    };
    if !known_timeframe(timeframe) {
        return Err(join2("Unsupported timeframe: ", timeframe));
    }
    Ok(join3(prefix, "_candles_", timeframe))
}

/// Routes a symbol to the table that holds its ticks.
pub fn get_ticks_table(symbol: &str) -> (r: Result<&'static str, String>)
    ensures
        match r {
            Ok(name) => ticks_table(symbol@) == Ok::<Seq<char>, Seq<char>>(name@),
            Err(why) => ticks_table(symbol@) == Err::<Seq<char>, Seq<char>>(why@),
        },
{
    if bitcoin_symbol(symbol) {
        Ok("bitcoin_ticks")
    } else if is_forex_pair(symbol) {
        Ok("forex_ticks")
    } else {
        Err(join2("Unknown asset type for symbol: ", symbol))
    }
}

} // verus!
