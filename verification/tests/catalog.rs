use market_ingest::market_data::builder::PipelineBuilder;
use market_ingest::market_data::catalog::{
    default_catalog, search_assets, search_catalog, text_contains, CatalogEntry,
};
use market_ingest::market_data::discovery::AssetDiscovery;
use market_ingest::market_data::engine::MarketDataEngine;
use market_ingest::market_data::schema::{extra_columns, schema_statements};
use market_ingest::market_data::symbols::{available_symbols, comes_before, StoredSymbol};
use market_ingest::market_data::{AssetClass, DataSource, PipelineStatus};

const NOON: i64 = 1_705_314_600_000_000;

fn symbols_of(results: &[market_ingest::market_data::commands::AssetSearchResult]) -> Vec<&str> {
    results.iter().map(|r| r.symbol.as_str()).collect()
}

#[test]
fn text_is_found_where_it_stands() {
    assert!(text_contains("EURUSD", "EUR"));
    assert!(text_contains("EURUSD", "USD"));
    assert!(text_contains("EURUSD", "RU"));
    assert!(text_contains("EURUSD", "EURUSD"));
    assert!(text_contains("EURUSD", ""));
    assert!(text_contains("", ""));
    assert!(!text_contains("EURUSD", "EURUSDX"));
    assert!(!text_contains("EURUSD", "UE"));
    assert!(!text_contains("", "A"));
    assert!(text_contains("aab", "ab"));
}

#[test]
fn search_looks_through_symbols_and_names() {
    assert_eq!(symbols_of(&search_assets("eur")), vec!["EURUSD"]);
    assert_eq!(symbols_of(&search_assets("yen")), vec!["USDJPY"]);
    assert_eq!(symbols_of(&search_assets("coin")), vec!["BTCUSD"]);
    assert_eq!(symbols_of(&search_assets("inc.")), vec!["AAPL", "GOOGL", "AMZN", "TSLA", "META"]);
    assert_eq!(
        symbols_of(&search_assets("usd")),
        vec!["EURUSD", "GBPUSD", "USDJPY", "AUDUSD", "USDCAD", "NZDUSD", "USDCHF", "BTCUSD", "ETHUSD", "SOLUSD", "AVAXUSD", "LINKUSD", "DOTUSD", "MATICUSD"]
    );
    assert_eq!(search_assets("").len(), 21);
    let euro = &search_assets("Euro")[0];
    assert_eq!(euro.name, "Euro / US Dollar");
    assert_eq!(euro.asset_class, "forex");
    assert_eq!(euro.available_sources, vec!["oanda"]);
    assert!(euro.is_available);
    let sol = &search_assets("solana")[0];
    assert_eq!((sol.symbol.as_str(), sol.asset_class.as_str()), ("SOLUSD", "crypto"));
    assert_eq!(sol.available_sources, vec!["kraken", "coinbase"]);
    let tesla = &search_assets("TSLA")[0];
    assert_eq!((tesla.name.as_str(), tesla.asset_class.as_str()), ("Tesla Inc.", "stock"));
    assert_eq!(tesla.available_sources, vec!["alpaca"]);
}

#[test]
fn search_classifies_what_the_catalogue_does_not_know() {
    let found = search_assets("gbpjpy");
    assert_eq!(found.len(), 1);
    assert_eq!(found[0].symbol, "GBPJPY");
    assert_eq!(found[0].name, "Forex - GBPJPY");
    assert_eq!(found[0].asset_class, "forex");
    assert_eq!(found[0].available_sources, vec!["oanda", "dukascopy"]);
    assert!(found[0].is_available);
    let stock = search_assets("ibm");
    assert_eq!((stock[0].name.as_str(), stock[0].asset_class.as_str()), ("Stock - IBM", "stock"));
    assert_eq!(stock[0].available_sources, vec!["alpaca"]);
    let crypto = search_assets("linkbtc");
    assert_eq!(crypto[0].name, "Crypto - LINKBTC");
    assert_eq!(crypto[0].available_sources, vec!["kraken", "coinbase"]);
    assert!(search_assets("not a symbol").is_empty());
    assert!(search_assets("12345678").is_empty());
}

#[test]
fn search_takes_any_catalogue() {
    let catalog = vec![
        CatalogEntry { symbol: "XAUUSD", name: "Gold", class: AssetClass::Forex },
        CatalogEntry { symbol: "XAGUSD", name: "Silver", class: AssetClass::Forex },
    ];
    assert_eq!(symbols_of(&search_catalog(&catalog, "GOLD")), vec!["XAUUSD"]);
    assert_eq!(symbols_of(&search_catalog(&catalog, "XA")), vec!["XAUUSD", "XAGUSD"]);
    assert_eq!(symbols_of(&search_catalog(&catalog, "SILVER")), vec!["XAGUSD"]);
    assert_eq!(symbols_of(&search_catalog(&catalog, "IBM")), vec!["IBM"]);
    assert!(search_catalog(&Vec::new(), "").is_empty());
    let all = default_catalog();
    assert_eq!(all.len(), 21);
    assert_eq!((all[0].symbol, all[7].symbol, all[20].symbol), ("EURUSD", "BTCUSD", "NVDA"));
    assert_eq!((all[6].class, all[13].class, all[14].class), (AssetClass::Forex, AssetClass::Crypto, AssetClass::Stock));
}

#[test]
fn schema_is_set_up_from_the_finest_to_the_coarsest() {
    let info = AssetDiscovery::identify("EURUSD").unwrap();
    let config = PipelineBuilder::new()
        .symbol("EURUSD")
        .asset_info(&info)
        .source(DataSource::Oanda { account_id: "a".to_string(), api_token: "t".to_string() })
        .build()
        .unwrap();
    let statements = schema_statements(&config);
    assert_eq!(statements.len(), 9);
    assert_eq!(
        statements[0],
        "CREATE TABLE IF NOT EXISTS forex_ticks (time TIMESTAMPTZ NOT NULL, symbol VARCHAR(20) NOT NULL, source VARCHAR(20) NOT NULL, bid NUMERIC(20,10), ask NUMERIC(20,10), last NUMERIC(20,10), volume NUMERIC(20,10), tradeable BOOLEAN, closeout_bid NUMERIC(12,5), closeout_ask NUMERIC(12,5), spread NUMERIC(10,5) GENERATED ALWAYS AS (ask - bid) STORED, mid_price NUMERIC(20,10) GENERATED ALWAYS AS ((bid + ask) / 2) STORED, PRIMARY KEY (symbol, source, time))"
    );
    assert_eq!(statements[1], "SELECT create_hypertable('forex_ticks', 'time', if_not_exists => TRUE)");
    assert_eq!(
        statements[2],
        "CREATE MATERIALIZED VIEW IF NOT EXISTS forex_candles_1m WITH (timescaledb.continuous) AS SELECT time_bucket('1 minute', time) AS time, symbol, first(bid, time) AS open, max(bid) AS high, min(bid) AS low, last(bid, time) AS close, count(*) AS tick_count FROM forex_ticks GROUP BY time_bucket('1 minute', time), symbol WITH NO DATA"
    );
    assert_eq!(
        statements[3],
        "CREATE MATERIALIZED VIEW IF NOT EXISTS forex_candles_5m WITH (timescaledb.continuous) AS SELECT time_bucket('5 minutes', time) AS time, symbol, first(open, time) AS open, max(high) AS high, min(low) AS low, last(close, time) AS close, sum(tick_count) AS tick_count FROM forex_candles_1m GROUP BY time_bucket('5 minutes', time), symbol WITH NO DATA"
    );
    assert!(statements[4].contains("forex_candles_15m") && statements[4].contains("'15 minutes'") && statements[4].contains(" FROM forex_candles_5m "));
    assert!(statements[5].contains("'1 hour'") && statements[5].contains(" FROM forex_candles_15m "));
    assert!(statements[6].contains("'4 hours'") && statements[6].contains(" FROM forex_candles_1h "));
    assert!(statements[7].contains("'12 hours'") && statements[7].contains(" FROM forex_candles_4h "));
    assert_eq!(
        statements[8],
        "CREATE OR REPLACE PROCEDURE cascade_forex_aggregate_refresh() LANGUAGE plpgsql AS $$ BEGIN\n    RAISE NOTICE 'Starting cascade refresh at %', NOW();\n    CALL refresh_continuous_aggregate('forex_candles_1m', NULL, NULL);\n    CALL refresh_continuous_aggregate('forex_candles_5m', NULL, NULL);\n    CALL refresh_continuous_aggregate('forex_candles_15m', NULL, NULL);\n    CALL refresh_continuous_aggregate('forex_candles_1h', NULL, NULL);\n    CALL refresh_continuous_aggregate('forex_candles_4h', NULL, NULL);\n    CALL refresh_continuous_aggregate('forex_candles_12h', NULL, NULL);\n    RAISE NOTICE 'Cascade refresh complete at %', NOW();\nEND; $$"
    );
}

#[test]
fn schema_leaves_out_what_has_no_interval() {
    let info = AssetDiscovery::identify("SOLUSD").unwrap();
    let mut config = PipelineBuilder::new()
        .symbol("SOLUSD")
        .asset_info(&info)
        .source(DataSource::Kraken { api_key: None, api_secret: None })
        .build()
        .unwrap();
    config.aggregate_tables = vec![
        ("a".to_string(), "1m".to_string()),
        ("b".to_string(), "1w".to_string()),
        ("c".to_string(), "1h".to_string()),
    ];
    let statements = schema_statements(&config);
    assert_eq!(statements.len(), 5);
    assert!(statements[0].contains("side CHAR(1), trade_id BIGINT, spread"));
    assert!(statements[2].contains(" a ") && statements[2].contains(" FROM crypto_ticks "));
    assert!(statements[3].contains(" c ") && statements[3].contains(" FROM b "));
    assert!(statements[4].contains("('a'") && statements[4].contains("('b'") && statements[4].contains("('c'"));
    assert_eq!(extra_columns(&DataSource::Dukascopy), "");
}

#[test]
fn dictionary_order_of_symbols() {
    assert!(comes_before("AUDUSD", "EURUSD"));
    assert!(!comes_before("EURUSD", "AUDUSD"));
    assert!(!comes_before("EURUSD", "EURUSD"));
    assert!(comes_before("EUR", "EURUSD"));
    assert!(!comes_before("EURUSD", "EUR"));
    assert!(comes_before("", "A"));
    assert!(!comes_before("", ""));
    assert!(comes_before("Z", "a"));
    assert!(comes_before("z", "é"));
}

#[test]
fn stored_symbols_and_pipelines_are_shown_together() {
    let stored = vec![
        StoredSymbol { symbol: "USDJPY".to_string(), last_tick: Some(NOON) },
        StoredSymbol { symbol: "EURUSD".to_string(), last_tick: None },
        StoredSymbol { symbol: "GBPUSD".to_string(), last_tick: Some(NOON) },
    ];
    let mut engine = MarketDataEngine::new();
    let oanda = || Some(DataSource::Oanda { account_id: "a".to_string(), api_token: "t".to_string() });
    engine.add_asset("EURUSD".to_string(), oanda(), None, None).unwrap();
    engine.launch("EURUSD", NOON + 1_000_000, 0).unwrap();
    engine.add_asset("SOLUSD".to_string(), None, None, None).unwrap();
    engine.add_asset("GBPUSD".to_string(), oanda(), None, None).unwrap();
    engine.launch("GBPUSD", NOON + 2_000_000, 0).unwrap();
    engine.add_asset("AUDUSD".to_string(), oanda(), None, None).unwrap();
    engine.pipelines[3].config.source = DataSource::Coinbase { api_key: String::new(), api_secret: String::new() };
    engine.pipelines[3].status = PipelineStatus::Running { connected: true, last_tick: None };
    let shown = available_symbols(&stored, &engine.pipelines);
    let symbols: Vec<&str> = shown.iter().map(|s| s.symbol.as_str()).collect();
    assert_eq!(symbols, vec!["EURUSD", "GBPUSD", "SOLUSD", "USDJPY"]);
    let eur = &shown[0];
    assert_eq!(eur.label, "EUR/USD");
    assert!(eur.has_data && eur.is_active);
    assert_eq!(eur.last_tick.as_deref(), Some("2024-01-15T10:30:01+00:00"));
    assert_eq!(eur.source.as_deref(), Some("forex"));
    assert_eq!(eur.tick_count, None);
    let gbp = &shown[1];
    assert!(gbp.has_data && gbp.is_active);
    assert_eq!(gbp.last_tick.as_deref(), Some("2024-01-15T10:30:00+00:00"));
    let sol = &shown[2];
    assert_eq!(sol.label, "SOL/USD");
    assert!(!sol.has_data && !sol.is_active);
    assert_eq!(sol.last_tick, None);
    assert_eq!(sol.source.as_deref(), Some("kraken"));
    let jpy = &shown[3];
    assert!(jpy.has_data && !jpy.is_active);
    assert_eq!(jpy.source.as_deref(), Some("forex"));
    assert!(available_symbols(&Vec::new(), &Vec::new()).is_empty());
}

#[test]
fn later_row_of_a_symbol_replaces_the_earlier() {
    let stored = vec![
        StoredSymbol { symbol: "EURUSD".to_string(), last_tick: None },
        StoredSymbol { symbol: "EURUSD".to_string(), last_tick: Some(NOON) },
    ];
    let shown = available_symbols(&stored, &Vec::new());
    assert_eq!(shown.len(), 1);
    assert_eq!(shown[0].last_tick.as_deref(), Some("2024-01-15T10:30:00+00:00"));
}
