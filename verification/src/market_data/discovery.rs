//! Classification of a symbol: its asset class and what follows from it.

use crate::candles::{is_currency, is_currency_at};
use crate::market_data::{AssetClass, AssetInfo, DataSource};
use crate::text::{
    byte_len, char_is_alphabetic, chars_of, ends_with, fits_bytes, is_alphabetic, join2,
    prefix_ends_with, prefix_is, to_uppercase, uppercase_text,
};
use vstd::prelude::*;
use vstd::string::*;

verus! {

/// Classifies symbols.
pub struct AssetDiscovery;

/// Smallest price step of a forex pair: 0.00001.
pub const FOREX_MIN_TICK: i64 = 1_000;

/// Smallest price step of a crypto asset or a stock: 0.01.
pub const CENT_MIN_TICK: i64 = 1_000_000;

/// Two currency codes in a row.
pub open spec fn forex_symbol(symbol: Seq<char>) -> bool {
    symbol.len() == 6 && is_currency(symbol.subrange(0, 3)) && is_currency(symbol.subrange(3, 6))
}

/// Whether `symbol` ends like a crypto pair.
pub open spec fn crypto_ending(symbol: Seq<char>) -> bool {
    ||| ends_with(symbol, "USD"@)
    ||| ends_with(symbol, "USDT"@)
    ||| ends_with(symbol, "BTC"@)
    ||| ends_with(symbol, "ETH"@)
}

/// The crypto assets that are known.
pub open spec fn is_crypto_asset(base: Seq<char>) -> bool {
    ||| base == "BTC"@
    ||| base == "ETH"@
    ||| base == "SOL"@
    ||| base == "AVAX"@
    ||| base == "LINK"@
    ||| base == "DOT"@
    ||| base == "MATIC"@
}

/// The quote of a crypto pair, read from its ending.
pub open spec fn crypto_quote(symbol: Seq<char>) -> Seq<char> {
    if ends_with(symbol, "USDT"@) {
        "USDT"@
    } else if ends_with(symbol, "BTC"@) {
        "BTC"@
    } else if ends_with(symbol, "ETH"@) {
        "ETH"@
    } else {
        "USD"@
    }
}

/// The base of a crypto pair: the symbol without the quote at its end.
pub open spec fn crypto_base(symbol: Seq<char>) -> Seq<char> {
    if ends_with(symbol, crypto_quote(symbol)) {
        symbol.take(symbol.len() - crypto_quote(symbol).len())
    } else {
        symbol
    }
}

/// A known crypto asset followed by a quote.
pub open spec fn crypto_symbol(symbol: Seq<char>) -> bool {
    crypto_ending(symbol) && is_crypto_asset(crypto_base(symbol))
}

/// One letter or more, that take at most five bytes in UTF-8. The empty
/// symbol names no asset and is none of these: it is refused as an
/// unknown symbol, like any other that cannot be classified.
pub open spec fn stock_symbol(symbol: Seq<char>) -> bool {
    symbol.len() > 0 && byte_len(symbol) <= 5 && forall|i: int|
        0 <= i < symbol.len() ==> is_alphabetic(#[trigger] symbol[i])
}

/// The class of a symbol in upper case: forex before crypto before stock.
pub open spec fn class_of(symbol: Seq<char>) -> Option<AssetClass> {
    if forex_symbol(symbol) {
        Some(AssetClass::Forex)
    } else if crypto_symbol(symbol) {
        Some(AssetClass::Crypto)
    } else if stock_symbol(symbol) {
        Some(AssetClass::Stock)
    } else {
        None
    }
}

/// Whether `value` is there and holds `text`.
pub open spec fn is_text(value: Option<String>, text: Seq<char>) -> bool {
    value matches Some(t) && t@ == text
}

/// Whether `info` is what the classification of `symbol` yields.
pub open spec fn describes(info: AssetInfo, symbol: Seq<char>) -> bool {
    &&& info.symbol@ == symbol
    &&& Some(info.class) == class_of(symbol)
    &&& match info.class {
        AssetClass::Forex => {
            &&& is_text(info.base, symbol.subrange(0, 3))
            &&& is_text(info.quote, symbol.subrange(3, 6))
            &&& info.available_sources@.len() == 2
            &&& info.available_sources@[0] matches DataSource::Oanda { account_id, api_token }
            &&& account_id@.len() == 0
            &&& api_token@.len() == 0
            &&& info.available_sources@[1] is Dukascopy
            &&& info.decimals == 5
            &&& info.min_tick == FOREX_MIN_TICK
        },
        AssetClass::Crypto => {
            &&& is_text(info.base, crypto_base(symbol))
            &&& is_text(info.quote, crypto_quote(symbol))
            &&& info.available_sources@.len() == 2
            &&& info.available_sources@[0] == (DataSource::Kraken {
                api_key: None,
                api_secret: None,
            })
            &&& info.available_sources@[1] matches DataSource::Coinbase { api_key, api_secret }
            &&& api_key@.len() == 0
            &&& api_secret@.len() == 0
            &&& info.decimals == 2
            &&& info.min_tick == CENT_MIN_TICK
        },
        _ => {
            &&& info.base is None
            &&& info.quote is None
            &&& info.available_sources@.len() == 1
            &&& info.available_sources@[0] matches DataSource::Alpaca { api_key, api_secret }
            &&& api_key@.len() == 0
            &&& api_secret@.len() == 0
            &&& info.decimals == 2
            &&& info.min_tick == CENT_MIN_TICK
        },
    }
}

fn all_alphabetic(chars: &Vec<char>) -> (b: bool)
    ensures
        b == forall|i: int| 0 <= i < chars@.len() ==> is_alphabetic(#[trigger] chars@[i]),
{
    let mut i: usize = 0;
    while i < chars.len()
        invariant
            i <= chars.len(),
            forall|j: int| 0 <= j < i ==> is_alphabetic(#[trigger] chars@[j]),
        decreases chars.len() - i,
    {
        if !char_is_alphabetic(chars[i]) {
            return false;
        }
        i += 1;
    }
    true
}

fn ends_like(chars: &Vec<char>, ending: &str) -> (b: bool)
    ensures
        b == ends_with(chars@, ending@),
{
    let pattern = chars_of(ending);
    assert(chars@.take(chars@.len() as int) =~= chars@);
    prefix_ends_with(chars, chars.len(), &pattern)
}

impl AssetDiscovery {
    /// Classifies a symbol that is in upper case.
    pub fn classify(symbol: &str) -> (r: Result<AssetInfo, String>)
        ensures
            match r {
                Ok(info) => describes(info, symbol@),
                Err(why) => class_of(symbol@) is None && why@
                    == "Unable to identify asset type for symbol: "@ + symbol@,
            },
    {
        let chars = chars_of(symbol);
        let n = chars.len();
        if n == 6 && is_currency_at(&chars, 0) && is_currency_at(&chars, 3) {
            let mut sources: Vec<DataSource> = Vec::new();
            sources.push(DataSource::Oanda { account_id: String::new(), api_token: String::new() });
            sources.push(DataSource::Dukascopy);
            return Ok(
                AssetInfo {
                    symbol: String::from_str(symbol),
                    class: AssetClass::Forex,
                    base: Some(String::from_str(symbol.substring_char(0, 3))),
                    quote: Some(String::from_str(symbol.substring_char(3, 6))),
                    available_sources: sources,
                    decimals: 5,
                    min_tick: FOREX_MIN_TICK,
                },
            );
        }
        let to_usdt = ends_like(&chars, "USDT");
        let to_btc = ends_like(&chars, "BTC");
        let to_eth = ends_like(&chars, "ETH");
        if ends_like(&chars, "USD") || to_usdt || to_btc || to_eth {
            let quote = if to_usdt {
                "USDT"
            } else if to_btc {
                "BTC"
            } else if to_eth {
                "ETH"
            } else {
                "USD"
            };
            let kept = n - quote.unicode_len();
            let known = prefix_is(&chars, kept, "BTC") || prefix_is(&chars, kept, "ETH")
                || prefix_is(&chars, kept, "SOL") || prefix_is(&chars, kept, "AVAX") || prefix_is(
                &chars,
                kept,
                "LINK",
            ) || prefix_is(&chars, kept, "DOT") || prefix_is(&chars, kept, "MATIC");
            if known {
                let mut sources: Vec<DataSource> = Vec::new();
                sources.push(DataSource::Kraken { api_key: None, api_secret: None });
                sources.push(
                    DataSource::Coinbase { api_key: String::new(), api_secret: String::new() },
                );
                proof {
                    assert(symbol@.subrange(0, kept as int) =~= chars@.take(kept as int));
                }
                return Ok(
                    AssetInfo {
                        symbol: String::from_str(symbol),
                        class: AssetClass::Crypto,
                        base: Some(String::from_str(symbol.substring_char(0, kept))),
                        quote: Some(String::from_str(quote)),
                        available_sources: sources,
                        decimals: 2,
                        min_tick: CENT_MIN_TICK,
                    },
                );
            }
        }
        if n > 0 && fits_bytes(&chars, 5) && all_alphabetic(&chars) {
            let mut sources: Vec<DataSource> = Vec::new();
            sources.push(DataSource::Alpaca { api_key: String::new(), api_secret: String::new() });
            return Ok(
                AssetInfo {
                    symbol: String::from_str(symbol),
                    class: AssetClass::Stock,
                    base: None,
                    quote: None,
                    available_sources: sources,
                    decimals: 2,
                    min_tick: CENT_MIN_TICK,
                },
            );
        }
        Err(join2("Unable to identify asset type for symbol: ", symbol))
    }

    /// Classifies a symbol, whatever its case.
    pub fn identify(symbol: &str) -> (r: Result<AssetInfo, String>)
        ensures
            match r {
                Ok(info) => describes(info, uppercase_text(symbol@)),
                Err(why) => class_of(uppercase_text(symbol@)) is None && why@
                    == "Unable to identify asset type for symbol: "@ + uppercase_text(symbol@),
            },
    {
        let upper = to_uppercase(symbol);
        Self::classify(upper.as_str())
    }
}

} // verus!
