//! The catalogue of assets that a search looks through.

use crate::market_data::commands::AssetSearchResult;
use crate::market_data::discovery::{class_of, AssetDiscovery};
use crate::market_data::{AssetClass, AssetInfo, DataSource};
use crate::text::{chars_of, join3, to_uppercase, uppercase_text};
use vstd::prelude::*;
use vstd::string::*;

verus! {

/// One asset of the catalogue.
#[derive(Debug, Clone, Copy)]
pub struct CatalogEntry {
    pub symbol: &'static str,
    pub name: &'static str,
    pub class: AssetClass,
}

/// Whether `needle` stands somewhere in `hay`.
pub open spec fn contains_text(hay: Seq<char>, needle: Seq<char>) -> bool {
    exists|i: int|
        0 <= i <= hay.len() - needle.len() && #[trigger] hay.subrange(i, i + needle.len())
            == needle
}

/// Whether a search for `query` finds `entry`: in its symbol, or in its
/// name in upper case.
pub open spec fn finds(entry: CatalogEntry, query: Seq<char>) -> bool {
    contains_text(entry.symbol@, query) || contains_text(uppercase_text(entry.name@), query)
}

/// The places of the first `n` entries that a search for `query` finds.
pub open spec fn found(catalog: Seq<CatalogEntry>, query: Seq<char>, n: int) -> Seq<int>
    decreases n,
{
    if n <= 0 {
        Seq::empty()
    } else if finds(catalog[n - 1], query) {
        found(catalog, query, n - 1).push(n - 1)
    } else {
        found(catalog, query, n - 1)
    }
}

/// The class in words, as it stands in front of a name.
pub open spec fn class_title(class: AssetClass) -> Seq<char> {
    match class {
        AssetClass::Forex => "Forex"@,
        AssetClass::Crypto => "Crypto"@,
        AssetClass::Stock => "Stock"@,
        AssetClass::Future => "Future"@,
        AssetClass::Option => "Option"@,
    }
}

/// Whether `names` are the names of the sources of a catalogue entry of
/// class `class`.
pub open spec fn catalog_sources(class: AssetClass, names: Seq<String>) -> bool {
    match class {
        AssetClass::Forex => names.len() == 1 && names[0]@ == "oanda"@,
        AssetClass::Crypto => names.len() == 2 && names[0]@ == "kraken"@ && names[1]@
            == "coinbase"@,
        _ => names.len() == 1 && names[0]@ == "alpaca"@,
    }
}

/// Whether `names` are the names of the sources that the classification
/// lists for a class.
pub open spec fn classified_sources(class: AssetClass, names: Seq<String>) -> bool {
    match class {
        AssetClass::Forex => names.len() == 2 && names[0]@ == "oanda"@ && names[1]@
            == "dukascopy"@,
        AssetClass::Crypto => names.len() == 2 && names[0]@ == "kraken"@ && names[1]@
            == "coinbase"@,
        _ => names.len() == 1 && names[0]@ == "alpaca"@,
    }
}

/// Whether `result` is what a search shows of `entry`.
pub open spec fn shows(result: AssetSearchResult, entry: CatalogEntry) -> bool {
    &&& result.symbol@ == entry.symbol@
    &&& result.name@ == entry.name@
    &&& result.asset_class@ == entry.class.prefix()
    &&& catalog_sources(entry.class, result.available_sources@)
    &&& result.is_available
}

/// Whether `result` is what a search shows of a symbol that is not in
/// the catalogue but can be classified.
pub open spec fn shows_classified(result: AssetSearchResult, info: AssetInfo) -> bool {
    &&& result.symbol@ == info.symbol@
    &&& result.name@ == class_title(info.class) + " - "@ + info.symbol@
    &&& result.asset_class@ == info.class.prefix()
    &&& result.available_sources@.len() == info.available_sources@.len()
    &&& forall|i: int|
        0 <= i < info.available_sources@.len() ==> (#[trigger] result.available_sources@[i])@
            == info.available_sources@[i].name()
    &&& result.is_available
}

fn has_prefix_at(hay: &Vec<char>, at: usize, needle: &Vec<char>) -> (b: bool)
    requires
        at + needle.len() <= hay.len(),
    ensures
        b == (hay@.subrange(at as int, at + needle@.len()) == needle@),
{
    let mut j: usize = 0;
    while j < needle.len()
        invariant
            j <= needle.len(),
            at + needle.len() <= hay.len(),
            forall|k: int| 0 <= k < j ==> hay@[at + k] == needle@[k],
        decreases needle.len() - j,
    {
        if hay[at + j] != needle[j] {
            assert(hay@.subrange(at as int, at + needle@.len())[j as int] != needle@[j as int]);
            return false;
        }
        j += 1;
    }
    assert(hay@.subrange(at as int, at + needle@.len()) =~= needle@);
    true
}

/// Whether `needle` stands somewhere in `hay`.
pub fn text_contains(hay: &str, needle: &str) -> (b: bool)
    ensures
        b == contains_text(hay@, needle@),
{
    let h = chars_of(hay);
    let n = chars_of(needle);
    if n.len() > h.len() {
        return false;
    }
    let last = h.len() - n.len();
    let mut i: usize = 0;
    loop
        invariant
            i <= last,
            last == h.len() - n.len(),
            h@ == hay@,
            n@ == needle@,
            forall|k: int| 0 <= k < i ==> #[trigger] h@.subrange(k, k + n@.len()) != n@,
        decreases last - i,
    {
        if has_prefix_at(&h, i, &n) {
            return true;
        }
        if i == last {
            return false;
        }
        i += 1;
    }
}

fn class_name(class: AssetClass) -> (r: &'static str)
    ensures
        r@ == class_title(class),
{
    match class {
        AssetClass::Forex => "Forex",
        AssetClass::Crypto => "Crypto",
        AssetClass::Stock => "Stock",
        AssetClass::Future => "Future",
        AssetClass::Option => "Option",
    }
}

fn sources_of(class: AssetClass) -> (names: Vec<String>)
    ensures
        catalog_sources(class, names@),
{
    let mut names: Vec<String> = Vec::new();
    match class {
        AssetClass::Forex => {
            names.push(String::from_str("oanda"));
        },
        AssetClass::Crypto => {
            names.push(String::from_str("kraken"));
            names.push(String::from_str("coinbase"));
        },
        _ => {
            names.push(String::from_str("alpaca"));
        },
    }
    names
}

fn entry_finds(entry: &CatalogEntry, query: &str) -> (b: bool)
    ensures
        b == finds(*entry, query@),
{
    if text_contains(entry.symbol, query) {
        return true;
    }
    let upper = to_uppercase(entry.name);
    text_contains(upper.as_str(), query)
}

/// What a search shows of a symbol that was classified.
pub fn classified_result(info: &AssetInfo) -> (result: AssetSearchResult)
    ensures
        shows_classified(result, *info),
{
    let mut sources: Vec<String> = Vec::new();
    let mut i: usize = 0;
    while i < info.available_sources.len()
        invariant
            i <= info.available_sources.len(),
            sources@.len() == i,
            forall|j: int|
                0 <= j < i ==> (#[trigger] sources@[j])@ == info.available_sources@[j].name(),
        decreases info.available_sources.len() - i,
    {
        sources.push(String::from_str(info.available_sources[i].source_name()));
        i += 1;
    }
    AssetSearchResult {
        symbol: info.symbol.clone(),
        name: join3(class_name(info.class), " - ", info.symbol.as_str()),
        asset_class: String::from_str(info.class.table_prefix()),
        available_sources: sources,
        is_available: true,
    }
}

/// Whether `results` answer a search of `catalog` for `query`, which is
/// in upper case: the entries that the search finds, in the order of the
/// catalogue; or, where it finds none and the query is not empty, the
/// query itself if it can be classified.
pub open spec fn answers(
    results: Seq<AssetSearchResult>,
    catalog: Seq<CatalogEntry>,
    query: Seq<char>,
) -> bool {
    let places = found(catalog, query, catalog.len() as int);
    if places.len() > 0 {
        &&& results.len() == places.len()
        &&& forall|k: int|
            0 <= k < places.len() ==> shows(#[trigger] results[k], catalog[places[k]])
    } else if query.len() > 0 && class_of(query) is Some {
        &&& results.len() == 1
        &&& results[0].symbol@ == query
        &&& results[0].name@ == class_title(class_of(query)->0) + " - "@ + query
        &&& results[0].asset_class@ == class_of(query)->0.prefix()
        &&& classified_sources(class_of(query)->0, results[0].available_sources@)
        &&& results[0].is_available
    } else {
        results.len() == 0
    }
}

/// Searches a catalogue for a query that is in upper case.
pub fn search_catalog(catalog: &Vec<CatalogEntry>, query: &str) -> (results: Vec<
    AssetSearchResult,
>)
    ensures
        answers(results@, catalog@, query@),
{
    let mut results: Vec<AssetSearchResult> = Vec::new();
    let mut i: usize = 0;
    while i < catalog.len()
        invariant
            i <= catalog.len(),
            results@.len() == found(catalog@, query@, i as int).len(),
            forall|k: int|
                0 <= k < results@.len() ==> shows(
                    #[trigger] results@[k],
                    catalog@[found(catalog@, query@, i as int)[k]],
                ),
            forall|k: int|
                0 <= k < results@.len() ==> 0 <= #[trigger] found(catalog@, query@, i as int)[k]
                    < i,
        decreases catalog.len() - i,
    {
        let entry = &catalog[i];
        if entry_finds(entry, query) {
            let ghost before = found(catalog@, query@, i as int);
            results.push(
                AssetSearchResult {
                    symbol: String::from_str(entry.symbol),
                    name: String::from_str(entry.name),
                    asset_class: String::from_str(entry.class.table_prefix()),
                    available_sources: sources_of(entry.class),
                    is_available: true,
                },
            );
            proof {
                let after = found(catalog@, query@, i + 1);
                assert(after == before.push(i as int));
                assert forall|k: int| 0 <= k < results@.len() implies shows(
                    #[trigger] results@[k],
                    catalog@[after[k]],
                ) by {
                    if k < before.len() {
                        assert(after[k] == before[k]);
                    }
                }
            }
        }
        i += 1;
    }
    if results.len() == 0 && query.unicode_len() > 0 {
        match AssetDiscovery::classify(query) {
            Ok(info) => {
                results.push(classified_result(&info));
            },
            Err(_) => {},
        }
    }
    results
}

/// The assets that a search knows by name.
pub open spec fn known_assets() -> Seq<CatalogEntry> {
    seq![
        CatalogEntry { symbol: "EURUSD", name: "Euro / US Dollar", class: AssetClass::Forex },
        CatalogEntry {
            symbol: "GBPUSD",
            name: "British Pound / US Dollar",
            class: AssetClass::Forex,
        },
        CatalogEntry { symbol: "USDJPY", name: "US Dollar / Japanese Yen", class: AssetClass::Forex },
        CatalogEntry {
            symbol: "AUDUSD",
            name: "Australian Dollar / US Dollar",
            class: AssetClass::Forex,
        },
        CatalogEntry {
            symbol: "USDCAD",
            name: "US Dollar / Canadian Dollar",
            class: AssetClass::Forex,
        },
        CatalogEntry {
            symbol: "NZDUSD",
            name: "New Zealand Dollar / US Dollar",
            class: AssetClass::Forex,
        },
        CatalogEntry { symbol: "USDCHF", name: "US Dollar / Swiss Franc", class: AssetClass::Forex },
        CatalogEntry { symbol: "BTCUSD", name: "Bitcoin / US Dollar", class: AssetClass::Crypto },
        CatalogEntry { symbol: "ETHUSD", name: "Ethereum / US Dollar", class: AssetClass::Crypto },
        CatalogEntry { symbol: "SOLUSD", name: "Solana / US Dollar", class: AssetClass::Crypto },
        CatalogEntry { symbol: "AVAXUSD", name: "Avalanche / US Dollar", class: AssetClass::Crypto },
        CatalogEntry { symbol: "LINKUSD", name: "Chainlink / US Dollar", class: AssetClass::Crypto },
        CatalogEntry { symbol: "DOTUSD", name: "Polkadot / US Dollar", class: AssetClass::Crypto },
        CatalogEntry { symbol: "MATICUSD", name: "Polygon / US Dollar", class: AssetClass::Crypto },
        CatalogEntry { symbol: "AAPL", name: "Apple Inc.", class: AssetClass::Stock },
        CatalogEntry { symbol: "MSFT", name: "Microsoft Corporation", class: AssetClass::Stock },
        CatalogEntry { symbol: "GOOGL", name: "Alphabet Inc.", class: AssetClass::Stock },
        CatalogEntry { symbol: "AMZN", name: "Amazon.com Inc.", class: AssetClass::Stock },
        CatalogEntry { symbol: "TSLA", name: "Tesla Inc.", class: AssetClass::Stock },
        CatalogEntry { symbol: "META", name: "Meta Platforms Inc.", class: AssetClass::Stock },
        CatalogEntry { symbol: "NVDA", name: "NVIDIA Corporation", class: AssetClass::Stock },
    ]
}

/// The assets that a search knows by name.
pub fn default_catalog() -> (catalog: Vec<CatalogEntry>)
    ensures
        catalog@ == known_assets(),
{
    let forex = AssetClass::Forex;
    let crypto = AssetClass::Crypto;
    let stock = AssetClass::Stock;
    let mut c: Vec<CatalogEntry> = Vec::new();
    c.push(CatalogEntry { symbol: "EURUSD", name: "Euro / US Dollar", class: forex });
    c.push(CatalogEntry { symbol: "GBPUSD", name: "British Pound / US Dollar", class: forex });
    c.push(CatalogEntry { symbol: "USDJPY", name: "US Dollar / Japanese Yen", class: forex });
    c.push(CatalogEntry { symbol: "AUDUSD", name: "Australian Dollar / US Dollar", class: forex });
    c.push(CatalogEntry { symbol: "USDCAD", name: "US Dollar / Canadian Dollar", class: forex });
    c.push(CatalogEntry { symbol: "NZDUSD", name: "New Zealand Dollar / US Dollar", class: forex });
    c.push(CatalogEntry { symbol: "USDCHF", name: "US Dollar / Swiss Franc", class: forex });
    c.push(CatalogEntry { symbol: "BTCUSD", name: "Bitcoin / US Dollar", class: crypto });
    c.push(CatalogEntry { symbol: "ETHUSD", name: "Ethereum / US Dollar", class: crypto });
    c.push(CatalogEntry { symbol: "SOLUSD", name: "Solana / US Dollar", class: crypto });
    c.push(CatalogEntry { symbol: "AVAXUSD", name: "Avalanche / US Dollar", class: crypto });
    c.push(CatalogEntry { symbol: "LINKUSD", name: "Chainlink / US Dollar", class: crypto });
    c.push(CatalogEntry { symbol: "DOTUSD", name: "Polkadot / US Dollar", class: crypto });
    c.push(CatalogEntry { symbol: "MATICUSD", name: "Polygon / US Dollar", class: crypto });
    c.push(CatalogEntry { symbol: "AAPL", name: "Apple Inc.", class: stock });
    c.push(CatalogEntry { symbol: "MSFT", name: "Microsoft Corporation", class: stock });
    c.push(CatalogEntry { symbol: "GOOGL", name: "Alphabet Inc.", class: stock });
    c.push(CatalogEntry { symbol: "AMZN", name: "Amazon.com Inc.", class: stock });
    c.push(CatalogEntry { symbol: "TSLA", name: "Tesla Inc.", class: stock });
    c.push(CatalogEntry { symbol: "META", name: "Meta Platforms Inc.", class: stock });
    c.push(CatalogEntry { symbol: "NVDA", name: "NVIDIA Corporation", class: stock });
    assert(c@ =~= known_assets());
    c
}

/// Searches the catalogue of known assets, whatever the case of the query.
pub fn search_assets(query: &str) -> (results: Vec<AssetSearchResult>)
    ensures
        answers(results@, known_assets(), uppercase_text(query@)),
{
    let upper = to_uppercase(query);
    let catalog = default_catalog();
    search_catalog(&catalog, upper.as_str())
}

} // verus!
