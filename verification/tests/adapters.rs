use market_ingest::market_data::ingesters::kraken::{
    kraken_pair, subscription_message, FrameOutcome, KrakenFrame, KrakenIngester,
    SYNTHETIC_SPREAD,
};
use market_ingest::market_data::ingesters::oanda::{
    check_status, oanda_instrument, OandaIngester, OandaPrice, PricePoint,
};
use market_ingest::market_data::ingesters::FeedError;
use market_ingest::market_data::{Adapter, ExtraValue, MarketTick, MISSING_CREDENTIALS};

fn tick_of(outcome: FrameOutcome) -> MarketTick {
    match outcome {
        FrameOutcome::Tick(tick) => tick,
        other => panic!("expected a tick, got {:?}", other),
    }
}

fn text(s: &str) -> KrakenFrame {
    KrakenFrame::Text(s.to_string())
}

fn price(kind: &str, instrument: &str, time: &str, bid: &str, ask: &str) -> OandaPrice {
    OandaPrice {
        msg_type: kind.to_string(),
        time: time.to_string(),
        bids: vec![PricePoint { price: bid.to_string(), liquidity: 1_000_000 }],
        asks: vec![PricePoint { price: ask.to_string(), liquidity: 1_000_000 }],
        closeout_bid: "1.09480".to_string(),
        closeout_ask: "1.09540".to_string(),
        status: "tradeable".to_string(),
        tradeable: true,
        instrument: instrument.to_string(),
    }
}

#[test]
fn kraken_names_pairs_with_a_slash() {
    assert_eq!(kraken_pair("BTCUSD"), Some("XBT/USD".to_string()));
    assert_eq!(kraken_pair("ETHUSD"), Some("ETH/USD".to_string()));
    assert_eq!(kraken_pair("SOLUSD"), Some("SOL/USD".to_string()));
    assert_eq!(kraken_pair("MATICUSD"), Some("MAT/ICUSD".to_string()));
    assert_eq!(kraken_pair("SOL"), Some("SOL/".to_string()));
    assert_eq!(kraken_pair("SO"), None);
    assert_eq!(kraken_pair(""), None);
}

#[test]
fn kraken_subscription_is_written_as_json() {
    let kraken = KrakenIngester::new("BTCUSD".to_string());
    assert_eq!(
        kraken.subscribe(&vec!["BTCUSD".to_string()]),
        Some("{\"event\":\"subscribe\",\"pair\":[\"XBT/USD\"],\"subscription\":{\"name\":\"trade\"}}".to_string())
    );
    assert_eq!(
        kraken.subscribe(&vec!["BTCUSD".to_string(), "SOLUSD".to_string()]),
        Some("{\"event\":\"subscribe\",\"pair\":[\"XBT/USD\",\"SOL/USD\"],\"subscription\":{\"name\":\"trade\"}}".to_string())
    );
    assert_eq!(kraken.subscribe(&vec!["BTCUSD".to_string(), "X".to_string()]), None);
    assert_eq!(
        subscription_message(&vec!["A\"B\\C".to_string()]),
        "{\"event\":\"subscribe\",\"pair\":[\"A\\\"B\\\\C\"],\"subscription\":{\"name\":\"trade\"}}"
    );
    assert_eq!(
        subscription_message(&Vec::new()),
        "{\"event\":\"subscribe\",\"pair\":[],\"subscription\":{\"name\":\"trade\"}}"
    );
}

#[test]
fn kraken_sell_makes_the_price_the_bid() {
    let kraken = KrakenIngester::new("BTCUSD".to_string());
    let tick = tick_of(kraken.handle_frame(&text(
        "[0,[[\"5541.20000\",\"0.15850568\",1534614057.321597,\"s\",\"l\",\"\"]],\"trade\",\"XBT/USD\"]",
    )));
    assert_eq!(tick.time, 1_534_614_057_321_597);
    assert_eq!(tick.symbol, "BTCUSD");
    assert_eq!(tick.source, "kraken");
    assert_eq!(tick.bid, Some(554_120_000_000));
    assert_eq!(tick.ask, Some(554_120_000_000 + SYNTHETIC_SPREAD));
    assert_eq!(tick.last, Some(554_120_000_000));
    assert_eq!(tick.volume, Some(15_850_568));
    assert_eq!(tick.extra.len(), 2);
    assert_eq!(tick.extra[0].key, "side");
    assert!(matches!(&tick.extra[0].value, ExtraValue::Text(s) if s == "s"));
    assert_eq!(tick.extra[1].key, "trade_id");
    assert!(matches!(&tick.extra[1].value, ExtraValue::Text(s) if s == "1534614057.321597"));
}

#[test]
fn kraken_buy_makes_the_price_the_ask() {
    let kraken = KrakenIngester::new("SOLUSD".to_string());
    let tick = tick_of(kraken.handle_frame(&text(
        "[7,[[\"150.5\",\"2\",1700000000,\"b\",\"m\",\"\"],[\"151\",\"1\",1700000001,\"s\",\"m\",\"\"]],\"trade\",\"SOL/USD\"]",
    )));
    assert_eq!(tick.time, 1_700_000_000_000_000);
    assert_eq!(tick.ask, Some(15_050_000_000));
    assert_eq!(tick.bid, Some(15_050_000_000 - 10_000_000));
    assert_eq!(tick.last, Some(15_050_000_000));
    assert_eq!(tick.volume, Some(200_000_000));
    assert!(tick.bid < tick.ask);
}

#[test]
fn kraken_skips_what_is_no_trade() {
    let kraken = KrakenIngester::new("BTCUSD".to_string());
    let skipped = [
        "{\"event\":\"heartbeat\"}",
        "{\"event\":\"subscriptionStatus\",\"status\":\"subscribed\"}",
        "not json",
        "",
        "[0]",
        "[0,\"trade\"]",
        "[0,[]]",
        "[0,[1,2]]",
        "[0,[[\"abc\",\"1\",1700000000,\"s\"]]]",
        "[0,[[\"1\",\"x\",1700000000,\"s\"]]]",
        "[0,[[\"1\",\"1\",\"1700000000\",\"s\"]]]",
        "[0,[[\"1\",\"1\",1700000000]]]",
        "[0,[[1,\"1\",1700000000,\"s\"]]]",
        "[0,[[\"1\",\"1\",1700000000,7]]]",
        "[0,[[\"1\",\"1\",1e30,\"s\"]]]",
        "{\"a\":[1]}",
        "[0,[[\"abc\",\"1\",1700000000,\"s\"],[\"1\",\"1\",1700000000,\"s\"]]]",
    ];
    for message in skipped {
        assert!(matches!(kraken.handle_frame(&text(message)), FrameOutcome::Skip), "{}", message);
    }
    assert!(matches!(kraken.handle_frame(&KrakenFrame::Other), FrameOutcome::Skip));
    assert!(matches!(kraken.handle_frame(&KrakenFrame::Close), FrameOutcome::Closed));
    let later = tick_of(kraken.handle_frame(&text("[0,[7,[\"1\",\"1\",1700000000,\"s\"]]]")));
    assert_eq!(later.bid, Some(100_000_000));
}

#[test]
fn kraken_decodes_the_values_of_a_trade() {
    let tick = KrakenIngester::decode_trade("0.5", "10", "1.5", "s", "X").unwrap();
    assert_eq!((tick.time, tick.bid, tick.ask), (1_500_000, Some(50_000_000), Some(60_000_000)));
    let early = KrakenIngester::decode_trade("0.5", "10", "-1.5", "b", "X").unwrap();
    assert_eq!((early.time, early.bid, early.ask), (-1_500_000, Some(40_000_000), Some(50_000_000)));
    assert!(KrakenIngester::decode_trade("0.5", "10", "1e3", "s", "X").is_none());
    assert!(KrakenIngester::decode_trade("92233720368.54775807", "10", "1", "s", "X").is_none());
    assert!(KrakenIngester::decode_trade("92233720368.54775807", "10", "1", "b", "X").is_some());
    assert!(KrakenIngester::decode_trade("1", "1", "9000000000000", "s", "X").is_none());
}

#[test]
fn kraken_hands_out_buffered_ticks_first() {
    let mut kraken = KrakenIngester::new("BTCUSD".to_string());
    assert!(kraken.next_buffered().is_none());
    let tick = KrakenIngester::decode_trade("1", "1", "1", "s", "BTCUSD").unwrap();
    kraken.pending_ticks.push(tick);
    assert_eq!(kraken.next_buffered().map(|t| t.time), Some(1_000_000));
    assert!(kraken.next_buffered().is_none());
}

#[test]
fn oanda_names_instruments_with_an_underscore() {
    assert_eq!(oanda_instrument("EURUSD"), "EUR_USD");
    assert_eq!(oanda_instrument("XAUUSD"), "XAU_USD");
    assert_eq!(oanda_instrument("SPX500"), "SPX_500");
    assert_eq!(oanda_instrument("DE30"), "DE30");
    assert_eq!(oanda_instrument("EUR_USD"), "EUR_USD");
    let oanda = OandaIngester::new("EURUSD".to_string(), "acct".to_string(), "tok".to_string());
    assert_eq!(oanda.convert_symbol("GBPJPY"), "GBP_JPY");
}

#[test]
fn oanda_request_names_account_instruments_and_token() {
    let oanda = OandaIngester::new("EURUSD".to_string(), "101-001".to_string(), "secret".to_string());
    assert_eq!(
        oanda.stream_url(&vec!["EURUSD".to_string()]),
        "https://stream-fxpractice.oanda.com/v3/accounts/101-001/pricing/stream?instruments=EUR_USD"
    );
    assert_eq!(
        oanda.stream_url(&vec!["EURUSD".to_string(), "USDJPY".to_string(), "DE30".to_string()]),
        "https://stream-fxpractice.oanda.com/v3/accounts/101-001/pricing/stream?instruments=EUR_USD,USD_JPY,DE30"
    );
    assert_eq!(
        oanda.request_headers(),
        vec![
            ("Authorization".to_string(), "Bearer secret".to_string()),
            ("Accept-Datetime-Format".to_string(), "RFC3339".to_string()),
        ]
    );
    assert!(oanda.has_credentials());
    assert!(!OandaIngester::new("EURUSD".to_string(), String::new(), "t".to_string()).has_credentials());
    assert_eq!(check_status(200, "200 OK"), Ok(()));
    assert_eq!(check_status(299, "299"), Ok(()));
    assert_eq!(check_status(401, "401 Unauthorized"), Err("Oanda API error: 401 Unauthorized".to_string()));
    assert_eq!(check_status(199, "199"), Err("Oanda API error: 199".to_string()));
    assert_eq!(check_status(300, "300 Multiple Choices"), Err("Oanda API error: 300 Multiple Choices".to_string()));
}

#[test]
fn oanda_cuts_the_stream_into_lines() {
    let mut oanda = OandaIngester::new("EURUSD".to_string(), "a".to_string(), "t".to_string());
    assert_eq!(oanda.next_line(), None);
    oanda.push_chunk(b"  \n\r\n {\"type\":\"HEARTBEAT\"} \r\n{\"type\":\"PRI");
    assert_eq!(oanda.next_line(), Some("{\"type\":\"HEARTBEAT\"}".to_string()));
    assert_eq!(oanda.next_line(), None);
    assert_eq!(oanda.buffer, "{\"type\":\"PRI");
    oanda.push_chunk(b"CE\"}\n\n\nx");
    assert_eq!(oanda.next_line(), Some("{\"type\":\"PRICE\"}".to_string()));
    assert_eq!(oanda.next_line(), None);
    assert_eq!(oanda.buffer, "x");
    oanda.push_chunk(&[0xff, b'\n']);
    assert_eq!(oanda.next_line(), Some("x\u{fffd}".to_string()));
    assert_eq!(oanda.buffer, "");
}

#[test]
fn oanda_price_becomes_a_quote_tick() {
    let oanda = OandaIngester::new("EURUSD".to_string(), "a".to_string(), "t".to_string());
    let update = price("PRICE", "EUR_USD", "2024-01-15T10:30:00.123456789Z", "1.09500", "1.09520");
    let tick = oanda.tick_from_price(&update).unwrap().unwrap();
    assert_eq!(tick.time, 1_705_314_600_123_456);
    assert_eq!(tick.symbol, "EURUSD");
    assert_eq!(tick.source, "oanda");
    assert_eq!(tick.bid, Some(109_500_000));
    assert_eq!(tick.ask, Some(109_520_000));
    assert_eq!(tick.last, None);
    assert_eq!(tick.volume, None);
    assert_eq!(tick.extra.len(), 4);
    assert_eq!(tick.extra[0].key, "spread");
    assert!(matches!(tick.extra[0].value, ExtraValue::Number(20_000)));
    assert_eq!(tick.extra[1].key, "tradeable");
    assert!(matches!(tick.extra[1].value, ExtraValue::Flag(true)));
    assert_eq!(tick.extra[2].key, "closeout_bid");
    assert!(matches!(&tick.extra[2].value, ExtraValue::Text(s) if s == "1.09480"));
    assert_eq!(tick.extra[3].key, "closeout_ask");
    assert!(matches!(&tick.extra[3].value, ExtraValue::Text(s) if s == "1.09540"));
    let offset = price("PRICE", "EUR_USD", "2024-01-15T12:30:00+02:00", "1", "2");
    assert_eq!(oanda.tick_from_price(&offset).unwrap().unwrap().time, 1_705_314_600_000_000);
}

#[test]
fn oanda_ignores_heartbeats_and_other_instruments() {
    let oanda = OandaIngester::new("EURUSD".to_string(), "a".to_string(), "t".to_string());
    assert!(matches!(oanda.tick_from_price(&price("HEARTBEAT", "EUR_USD", "x", "y", "z")), Ok(None)));
    assert!(matches!(oanda.tick_from_price(&price("PRICE", "USD_JPY", "x", "y", "z")), Ok(None)));
    assert!(matches!(oanda.tick_from_price(&price("PRICE", "EURUSD", "x", "y", "z")), Ok(None)));
}

#[test]
fn oanda_reports_what_cannot_be_read() {
    let oanda = OandaIngester::new("EURUSD".to_string(), "a".to_string(), "t".to_string());
    let time = "2024-01-15T10:30:00Z";
    assert_eq!(oanda.tick_from_price(&price("PRICE", "EUR_USD", "yesterday", "1", "2")).unwrap_err(), FeedError::InvalidTime);
    assert_eq!(oanda.tick_from_price(&price("PRICE", "EUR_USD", time, "one", "2")).unwrap_err(), FeedError::InvalidBid);
    assert_eq!(oanda.tick_from_price(&price("PRICE", "EUR_USD", time, "1", "")).unwrap_err(), FeedError::InvalidAsk);
    assert_eq!(oanda.tick_from_price(&price("PRICE", "EUR_USD", "bad", "bad", "bad")).unwrap_err(), FeedError::InvalidTime);
    let mut empty = price("PRICE", "EUR_USD", time, "1", "2");
    empty.bids.clear();
    assert_eq!(oanda.tick_from_price(&empty).unwrap_err(), FeedError::InvalidBid);
    let mut no_ask = price("PRICE", "EUR_USD", time, "1", "2");
    no_ask.asks.clear();
    assert_eq!(oanda.tick_from_price(&no_ask).unwrap_err(), FeedError::InvalidAsk);
    assert_eq!(FeedError::InvalidBid.message(), "Failed to parse bid price");
    assert_eq!(FeedError::InvalidAsk.message(), "Failed to parse ask price");
    assert_eq!(FeedError::Closed.message(), "WebSocket closed");
    assert_eq!(FeedError::NoConnection.message(), "No stream available");
}

#[test]
fn adapter_without_credentials_can_never_connect() {
    let full = Adapter::Oanda(OandaIngester::new("EURUSD".to_string(), "a".to_string(), "t".to_string()));
    assert_eq!(full.configuration_fault(), None);
    let no_account = Adapter::Oanda(OandaIngester::new("EURUSD".to_string(), String::new(), "t".to_string()));
    assert_eq!(no_account.configuration_fault(), Some("OANDA requires account_id and api_token"));
    let no_token = Adapter::Oanda(OandaIngester::new("EURUSD".to_string(), "a".to_string(), String::new()));
    assert_eq!(no_token.configuration_fault(), Some(MISSING_CREDENTIALS));
    let kraken = Adapter::Kraken(KrakenIngester::new("BTCUSD".to_string()));
    assert_eq!(kraken.configuration_fault(), None);
}
