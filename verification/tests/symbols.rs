use market_ingest::candles::{get_table_name, get_ticks_table, is_forex_pair};
use market_ingest::market_data::builder::{aggregate_chain, create_ingester, PipelineBuilder};
use market_ingest::market_data::discovery::{AssetDiscovery, CENT_MIN_TICK, FOREX_MIN_TICK};
use market_ingest::market_data::symbols::format_symbol_label;
use market_ingest::market_data::{Adapter, AssetClass, DataSource};

#[test]
fn forex_pairs_are_two_currency_codes() {
    assert!(is_forex_pair("EURUSD"));
    assert!(is_forex_pair("EUR/USD"));
    assert!(is_forex_pair("NZDCHF"));
    assert!(is_forex_pair("USDUSD"));
    assert!(!is_forex_pair("EURXYZ"));
    assert!(!is_forex_pair("BTCUSD"));
    assert!(!is_forex_pair("eurusd"));
    assert!(!is_forex_pair("EUR-USD"));
    assert!(!is_forex_pair("EUR/USDX"));
    assert!(!is_forex_pair("E/RUSDD"));
    assert!(!is_forex_pair(""));
    assert!(!is_forex_pair("EURUS€"));
    assert!(!is_forex_pair("a€bc"));
}

#[test]
fn candle_tables_follow_symbol_and_resolution() {
    assert_eq!(get_table_name("EURUSD", "1h"), Ok("forex_candles_1h".to_string()));
    assert_eq!(get_table_name("GBP/JPY", "12h"), Ok("forex_candles_12h".to_string()));
    assert_eq!(get_table_name("BTCUSD", "1m"), Ok("bitcoin_candles_1m".to_string()));
    assert_eq!(get_table_name("BTC/USD", "15m"), Ok("bitcoin_candles_15m".to_string()));
    assert_eq!(get_table_name("EURUSD", "5m"), Ok("forex_candles_5m".to_string()));
    assert_eq!(get_table_name("EURUSD", "4h"), Ok("forex_candles_4h".to_string()));
    assert_eq!(
        get_table_name("AAPL", "1h"),
        Err("Unknown asset type for symbol: AAPL".to_string())
    );
    assert_eq!(get_table_name("EURUSD", "1d"), Err("Unsupported timeframe: 1d".to_string()));
    assert_eq!(
        get_table_name("AAPL", "1d"),
        Err("Unknown asset type for symbol: AAPL".to_string())
    );
}

#[test]
fn tick_tables_follow_the_symbol() {
    assert_eq!(get_ticks_table("BTCUSD"), Ok("bitcoin_ticks"));
    assert_eq!(get_ticks_table("BTC/USD"), Ok("bitcoin_ticks"));
    assert_eq!(get_ticks_table("USDJPY"), Ok("forex_ticks"));
    assert_eq!(
        get_ticks_table("ETHUSD"),
        Err("Unknown asset type for symbol: ETHUSD".to_string())
    );
}

#[test]
fn labels_split_six_characters() {
    assert_eq!(format_symbol_label("EURUSD"), "EUR/USD");
    assert_eq!(format_symbol_label("USDJPY"), "USD/JPY");
    assert_eq!(format_symbol_label("EURGBP"), "EUR/GBP");
    assert_eq!(format_symbol_label("SOLUSD"), "SOL/USD");
    assert_eq!(format_symbol_label("AAPL"), "AAPL");
    assert_eq!(format_symbol_label("BTCUSDT"), "BTCUSDT");
    assert_eq!(format_symbol_label(""), "");
    assert_eq!(format_symbol_label("äöüßéè"), "äöü/ßéè");
}

#[test]
fn forex_symbols_are_classified_whatever_their_case() {
    let info = AssetDiscovery::identify("eurusd").unwrap();
    assert_eq!(info.symbol, "EURUSD");
    assert_eq!(info.class, AssetClass::Forex);
    assert_eq!(info.base.as_deref(), Some("EUR"));
    assert_eq!(info.quote.as_deref(), Some("USD"));
    assert_eq!(info.decimals, 5);
    assert_eq!(info.min_tick, FOREX_MIN_TICK);
    assert_eq!(info.available_sources.len(), 2);
    assert!(matches!(&info.available_sources[0], DataSource::Oanda { account_id, api_token } if account_id.is_empty() && api_token.is_empty()));
    assert!(matches!(info.available_sources[1], DataSource::Dukascopy));
}

#[test]
fn crypto_symbols_are_a_known_asset_and_a_quote() {
    let sol = AssetDiscovery::identify("SOLUSD").unwrap();
    assert_eq!(sol.class, AssetClass::Crypto);
    assert_eq!(sol.base.as_deref(), Some("SOL"));
    assert_eq!(sol.quote.as_deref(), Some("USD"));
    assert_eq!(sol.decimals, 2);
    assert_eq!(sol.min_tick, CENT_MIN_TICK);
    assert!(matches!(sol.available_sources[0], DataSource::Kraken { api_key: None, api_secret: None }));
    assert!(matches!(sol.available_sources[1], DataSource::Coinbase { .. }));
    let link = AssetDiscovery::identify("linkbtc").unwrap();
    assert_eq!(link.base.as_deref(), Some("LINK"));
    assert_eq!(link.quote.as_deref(), Some("BTC"));
    let matic = AssetDiscovery::classify("MATICUSDT").unwrap();
    assert_eq!(matic.base.as_deref(), Some("MATIC"));
    assert_eq!(matic.quote.as_deref(), Some("USDT"));
    let btc = AssetDiscovery::classify("BTCETH").unwrap();
    assert_eq!(btc.base.as_deref(), Some("BTC"));
    assert_eq!(btc.quote.as_deref(), Some("ETH"));
    assert!(AssetDiscovery::classify("AVAXUSDUSD").is_err());
    assert!(AssetDiscovery::classify("USD").is_ok());
    assert_eq!(AssetDiscovery::classify("USD").unwrap().class, AssetClass::Stock);
    assert_eq!(AssetDiscovery::classify("BTC").unwrap().class, AssetClass::Stock);
    assert!(AssetDiscovery::classify("XRPUSD").is_err());
    assert!(AssetDiscovery::classify("USDT").is_ok());
}

#[test]
fn base_may_itself_be_a_quote() {
    let btc = AssetDiscovery::identify("BTCUSD").unwrap();
    assert_eq!(btc.symbol, "BTCUSD");
    assert_eq!(btc.class, AssetClass::Crypto);
    assert_eq!(btc.base.as_deref(), Some("BTC"));
    assert_eq!(btc.quote.as_deref(), Some("USD"));
    assert_eq!(btc.decimals, 2);
    assert_eq!(btc.min_tick, CENT_MIN_TICK);
    assert_eq!(btc.available_sources.len(), 2);
    assert!(matches!(btc.available_sources[0], DataSource::Kraken { api_key: None, api_secret: None }));
    assert!(matches!(&btc.available_sources[1], DataSource::Coinbase { api_key, api_secret } if api_key.is_empty() && api_secret.is_empty()));
    let eth = AssetDiscovery::identify("ethusd").unwrap();
    assert_eq!((eth.class, eth.base.as_deref(), eth.quote.as_deref()), (AssetClass::Crypto, Some("ETH"), Some("USD")));
    let cross = AssetDiscovery::identify("ETHBTC").unwrap();
    assert_eq!((cross.class, cross.base.as_deref(), cross.quote.as_deref()), (AssetClass::Crypto, Some("ETH"), Some("BTC")));
    let tether = AssetDiscovery::identify("BTCUSDT").unwrap();
    assert_eq!((tether.base.as_deref(), tether.quote.as_deref()), (Some("BTC"), Some("USDT")));
    let twice = AssetDiscovery::identify("BTCBTC").unwrap();
    assert_eq!((twice.base.as_deref(), twice.quote.as_deref()), (Some("BTC"), Some("BTC")));
}

#[test]
fn short_words_are_stocks() {
    let info = AssetDiscovery::identify("aapl").unwrap();
    assert_eq!(info.symbol, "AAPL");
    assert_eq!(info.class, AssetClass::Stock);
    assert_eq!(info.base, None);
    assert_eq!(info.quote, None);
    assert!(matches!(info.available_sources[0], DataSource::Alpaca { .. }));
    assert_eq!(info.available_sources.len(), 1);
    assert_eq!(
        AssetDiscovery::identify("").unwrap_err(),
        "Unable to identify asset type for symbol: "
    );
    assert_eq!(AssetDiscovery::identify("ÄB").unwrap().class, AssetClass::Stock);
    assert!(AssetDiscovery::identify("ÄÖÜ").is_err());
    assert_eq!(
        AssetDiscovery::identify("ab1").unwrap_err(),
        "Unable to identify asset type for symbol: AB1"
    );
    assert!(AssetDiscovery::identify("GOOGLE").is_err());
}

#[test]
fn configuration_names_follow_the_class() {
    let info = AssetDiscovery::identify("SOLUSD").unwrap();
    let config = PipelineBuilder::new()
        .symbol("SOLUSD")
        .asset_info(&info)
        .source(DataSource::Kraken { api_key: None, api_secret: None })
        .build()
        .unwrap();
    assert_eq!(config.symbol, "SOLUSD");
    assert_eq!(config.asset_class, AssetClass::Crypto);
    assert_eq!(config.tick_table, "crypto_ticks");
    assert_eq!(config.cascade_procedure, "cascade_crypto_aggregate_refresh");
    assert_eq!(config.profile_id, None);
    assert_eq!(config.profile_name, None);
    let expected: Vec<(String, String)> = ["1m", "5m", "15m", "1h", "4h", "12h"]
        .iter()
        .map(|r| (format!("crypto_candles_{}", r), r.to_string()))
        .collect();
    assert_eq!(config.aggregate_tables, expected);
    assert_eq!(aggregate_chain(AssetClass::Forex)[3], ("forex_candles_1h".to_string(), "1h".to_string()));
    assert!(matches!(create_ingester(&config), Ok(Adapter::Kraken(k)) if k.symbol == "SOLUSD"));
}

#[test]
fn builder_names_what_is_missing() {
    let info = AssetDiscovery::identify("AAPL").unwrap();
    assert_eq!(PipelineBuilder::new().build().unwrap_err(), "Symbol not set");
    assert_eq!(PipelineBuilder::new().asset_info(&info).build().unwrap_err(), "Symbol not set");
    assert_eq!(PipelineBuilder::new().symbol("AAPL").build().unwrap_err(), "Asset info not set");
    assert_eq!(
        PipelineBuilder::new().symbol("AAPL").asset_info(&info).build().unwrap_err(),
        "Source not set"
    );
    let config = PipelineBuilder::new()
        .symbol("AAPL")
        .asset_info(&info)
        .source(DataSource::Alpaca { api_key: String::new(), api_secret: String::new() })
        .build()
        .unwrap();
    assert_eq!(config.tick_table, "stock_ticks");
    assert_eq!(
        create_ingester(&config).unwrap_err(),
        "Ingester not implemented for this source"
    );
}
