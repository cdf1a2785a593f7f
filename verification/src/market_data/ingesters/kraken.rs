//! The Kraken trade feed: a push feed that reports trades, from which a
//! bid and an ask are made up.

use crate::decimal::{fixed_value, parse_decimal, parse_fixed, Decimal, MICRO_PLACES};
use crate::json::{
    json_document, json_has_key, json_items, json_number_text, json_quote, json_quoted, json_str,
    json_view, parse_json, views_of, JsonView,
};
use crate::market_data::{text_of, ExtraField, ExtraValue, MarketTick};
use crate::text::{chars_of, join3, text_eq};
use crate::time::{instant_from_timestamp, timestamp_instant, Instant};
use vstd::prelude::*;
use vstd::string::*;

verus! {

/// Where the feed is reached.
pub const KRAKEN_WS_URL: &'static str = "wss://ws.kraken.com";

/// What lies between the bid and the ask that are made up for a trade:
/// 0.10. The trade price is the ask of a buy and the bid of a sell.
pub const SYNTHETIC_SPREAD: Decimal = 10_000_000;

/// Protocol state of one subscription to the Kraken trade feed.
#[derive(Debug)]
pub struct KrakenIngester {
    pub symbol: String,
    pub pending_ticks: Vec<MarketTick>,
}

/// One message of the feed.
#[derive(Debug)]
pub enum KrakenFrame {
    Text(String),
    Close,
    /// Ping, pong or binary.
    Other,
}

/// What a message of the feed amounts to.
#[derive(Debug)]
pub enum FrameOutcome {
    Tick(MarketTick),
    /// Nothing to report: a status message, or one that holds no trade.
    Skip,
    /// The feed closed the connection.
    Closed,
}

/// The name of a pair at Kraken: XBT/USD for BTCUSD, else the symbol with
/// a slash behind its third character. A symbol of less than three
/// characters has none.
pub open spec fn pair_of(symbol: Seq<char>) -> Option<Seq<char>> {
    if symbol == "BTCUSD"@ {
        Some("XBT/USD"@)
    } else if symbol.len() >= 3 {
        Some(symbol.subrange(0, 3) + "/"@ + symbol.subrange(3, symbol.len() as int))
    } else {
        None
    }
}

/// The name of a pair at Kraken.
pub fn kraken_pair(symbol: &str) -> (r: Option<String>)
    ensures
        text_of(r) == pair_of(symbol@),
{
    if text_eq(symbol, "BTCUSD") {
        return Some(String::from_str("XBT/USD"));
    }
    let n = symbol.unicode_len();
    if n >= 3 {
        Some(join3(symbol.substring_char(0, 3), "/", symbol.substring_char(3, n)))
    } else {
        None
    }
}

/// The quoted names of the first `n` pairs, separated by commas.
pub open spec fn quoted_pairs(pairs: Seq<String>, n: int) -> Seq<char>
    decreases n,
{
    if n <= 0 {
        Seq::empty()
    } else if n == 1 {
        json_quoted(pairs[0]@)
    } else {
        quoted_pairs(pairs, n - 1) + ","@ + json_quoted(pairs[n - 1]@)
    }
}

/// The message that subscribes to the trades of `pairs`.
pub open spec fn subscription_text(pairs: Seq<String>) -> Seq<char> {
    "{\"event\":\"subscribe\",\"pair\":["@ + quoted_pairs(pairs, pairs.len() as int)
        + "],\"subscription\":{\"name\":\"trade\"}}"@
}

/// The message that subscribes to the trades of `pairs`.
pub fn subscription_message(pairs: &Vec<String>) -> (r: String)
    ensures
        r@ == subscription_text(pairs@),
{
    let mut r = String::from_str("{\"event\":\"subscribe\",\"pair\":[");
    let ghost head = r@;
    let mut i: usize = 0;
    assert(r@ =~= head + quoted_pairs(pairs@, 0));
    while i < pairs.len()
        invariant
            i <= pairs.len(),
            r@ == head + quoted_pairs(pairs@, i as int),
        decreases pairs.len() - i,
    {
        if i > 0 {
            r.append(",");
        }
        let quoted = json_quote(pairs[i].as_str());
        r.append(quoted.as_str());
        proof {
            assert(r@ =~= head + quoted_pairs(pairs@, i + 1));
        }
        i += 1;
    }
    r.append("],\"subscription\":{\"name\":\"trade\"}}");
    r
}

/// Whole seconds of an instant, counted down from the epoch before it.
pub open spec fn unix_seconds(micros: int) -> int {
    micros / 1_000_000
}

/// Nanoseconds of an instant above its whole second.
pub open spec fn subsecond_nanos(micros: int) -> int {
    (micros % 1_000_000) * 1000
}

/// What a trade says, once read.
pub struct TradeValues {
    pub price: int,
    pub volume: int,
    pub time: int,
    pub bid: int,
    pub ask: int,
}

/// The values of a trade, given as the feed writes them: price and volume
/// as decimal numbers, the time as seconds since the epoch, the side as
/// `b` for a buy. `None` where one of them cannot be read, where chrono
/// cannot hold the time, or where bid or ask leave the range.
pub open spec fn trade_values(
    price: Seq<char>,
    volume: Seq<char>,
    stamp: Seq<char>,
    side: Seq<char>,
) -> Option<TradeValues> {
    if fixed_value(price, 8) is Some && fixed_value(volume, 8) is Some && fixed_value(stamp, 6)
        is Some {
        let p = fixed_value(price, 8)->0;
        let micros = fixed_value(stamp, 6)->0;
        let bid = if side == "b"@ {
            p - SYNTHETIC_SPREAD
        } else {
            p
        };
        let ask = if side == "b"@ {
            p
        } else {
            p + SYNTHETIC_SPREAD
        };
        if timestamp_instant(unix_seconds(micros) as i64, subsecond_nanos(micros) as u32)
            is Some && i64::MIN <= bid && ask <= i64::MAX {
            Some(TradeValues { price: p, volume: fixed_value(volume, 8)->0, time: micros, bid, ask })
        } else {
            None
        }
    } else {
        None
    }
}

/// Whether `tick` is the tick of a trade with these values.
pub open spec fn is_trade_tick(
    tick: MarketTick,
    symbol: Seq<char>,
    values: TradeValues,
    side: Seq<char>,
    stamp: Seq<char>,
) -> bool {
    &&& tick.time == values.time
    &&& tick.symbol@ == symbol
    &&& tick.source@ == "kraken"@
    &&& tick.bid == Some(values.bid as i64)
    &&& tick.ask == Some(values.ask as i64)
    &&& tick.last == Some(values.price as i64)
    &&& tick.volume == Some(values.volume as i64)
    &&& tick.extra@.len() == 2
    &&& tick.extra@[0].key@ == "side"@
    &&& tick.extra@[0].value matches ExtraValue::Text(text) && text@ == side
    &&& tick.extra@[1].key@ == "trade_id"@
    &&& tick.extra@[1].value matches ExtraValue::Text(id) && id@ == stamp
}

/// A tick never has its ask below its bid, and a trade tick has them
/// `SYNTHETIC_SPREAD` apart.
pub proof fn lemma_trade_bid_below_ask(
    price: Seq<char>,
    volume: Seq<char>,
    stamp: Seq<char>,
    side: Seq<char>,
)
    requires
        trade_values(price, volume, stamp, side) is Some,
    ensures
        trade_values(price, volume, stamp, side)->0.bid < trade_values(
            price,
            volume,
            stamp,
            side,
        )->0.ask,
        trade_values(price, volume, stamp, side)->0.ask - trade_values(
            price,
            volume,
            stamp,
            side,
        )->0.bid == SYNTHETIC_SPREAD,
{
}

/// The fields of the first trade that is an array, among `trades` from
/// `from` on.
pub open spec fn first_trade(trades: Seq<JsonView>, from: int) -> Option<Seq<JsonView>>
    decreases trades.len() - from,
{
    if from < 0 || from >= trades.len() {
        None
    } else {
        match trades[from] {
            JsonView::Array(fields) => Some(fields),
            _ => first_trade(trades, from + 1),
        }
    }
}

/// The fields of the trade that a message reports: those of the first
/// array in the array that is the second element of the message.
pub open spec fn reported_trade(data: JsonView) -> Option<Seq<JsonView>> {
    match data {
        JsonView::Array(top) => if top.len() > 1 {
            match top[1] {
                JsonView::Array(trades) => first_trade(trades, 0),
                _ => None,
            }
        } else {
            None
        },
        _ => None,
    }
}

/// The values of a trade with these fields: price, volume, time and side
/// are its first four, the first two and the last as strings, the time as
/// a number.
pub open spec fn field_values(fields: Seq<JsonView>) -> Option<TradeValues> {
    if fields.len() >= 4 && fields[0] is Text && fields[1] is Text && fields[2] is Number
        && fields[3] is Text {
        trade_values(fields[0]->Text_0, fields[1]->Text_0, fields[2]->Number_0, fields[3]->Text_0)
    } else {
        None
    }
}

/// The trade that a message reports, read: `None` where it reports none or
/// one that cannot be read.
pub open spec fn message_trade(data: JsonView) -> Option<TradeValues> {
    match reported_trade(data) {
        Some(fields) => field_values(fields),
        None => None,
    }
}

/// Whether a message is about the feed itself and holds no data.
pub open spec fn is_status_message(data: JsonView) -> bool {
    data matches JsonView::Object(fields) && fields.contains_key("event"@)
}

fn split_micros(micros: i64) -> (r: (i64, u32))
    ensures
        r.0 == unix_seconds(micros as int),
        r.1 == subsecond_nanos(micros as int),
{
    let mut secs = micros / 1_000_000;
    let mut rest = micros % 1_000_000;
    if rest < 0 {
        secs = secs - 1;
        rest = rest + 1_000_000;
    }
    proof {
        vstd::arithmetic::div_mod::lemma_fundamental_div_mod_converse(
            micros as int,
            1_000_000,
            secs as int,
            rest as int,
        );
    }
    (secs, (rest * 1000) as u32)
}

impl KrakenIngester {
    /// The state of a subscription that has read nothing yet.
    pub fn new(symbol: String) -> (r: Self)
        ensures
            r.symbol == symbol,
            r.pending_ticks@.len() == 0,
    {
        KrakenIngester { symbol, pending_ticks: Vec::new() }
    }

    /// The message that subscribes to the trades of `symbols`; `None`
    /// where one of them has no pair.
    pub fn subscribe(&self, symbols: &Vec<String>) -> (r: Option<String>)
        ensures
            (forall|i: int| 0 <= i < symbols@.len() ==> pair_of(#[trigger] symbols@[i]@) is Some)
                <==> r is Some,
            r matches Some(message) ==> exists|pairs: Seq<String>|
                {
                    &&& pairs.len() == symbols@.len()
                    &&& forall|i: int|
                        0 <= i < pairs.len() ==> Some((#[trigger] pairs[i])@) == pair_of(
                            symbols@[i]@,
                        )
                    &&& message@ == subscription_text(pairs)
                },
    {
        let mut pairs: Vec<String> = Vec::new();
        let mut i: usize = 0;
        while i < symbols.len()
            invariant
                i <= symbols.len(),
                pairs@.len() == i,
                forall|j: int|
                    0 <= j < i ==> Some((#[trigger] pairs@[j])@) == pair_of(symbols@[j]@),
            decreases symbols.len() - i,
        {
            match kraken_pair(symbols[i].as_str()) {
                Some(pair) => {
                    pairs.push(pair);
                },
                None => {
                    assert(pair_of(symbols@[i as int]@) is None);
                    return None;
                },
            }
            i += 1;
        }
        let message = subscription_message(&pairs);
        proof {
            assert(pairs@.len() == symbols@.len() && message@ == subscription_text(pairs@));
            assert forall|j: int| 0 <= j < symbols@.len() implies pair_of(
                #[trigger] symbols@[j]@,
            ) is Some by {
                assert(Some(pairs@[j]@) == pair_of(symbols@[j]@));
            }
        }
        Some(message)
    }

    /// The tick of a trade, given its values as the feed writes them.
    pub fn decode_trade(price: &str, volume: &str, stamp: &str, side: &str, symbol: &str) -> (r:
        Option<MarketTick>)
        ensures
            match r {
                Some(tick) => trade_values(price@, volume@, stamp@, side@) matches Some(values)
                    && is_trade_tick(tick, symbol@, values, side@, stamp@),
                None => trade_values(price@, volume@, stamp@, side@) is None,
            },
    {
        let p = match parse_decimal(price) {
            Some(p) => p,
            None => {
                return None;
            },
        };
        let v = match parse_decimal(volume) {
            Some(v) => v,
            None => {
                return None;
            },
        };
        let micros = match parse_fixed(stamp, MICRO_PLACES) {
            Some(micros) => micros,
            None => {
                return None;
            },
        };
        let (secs, nanos) = split_micros(micros);
        let time = match instant_from_timestamp(secs, nanos) {
            Some(time) => time,
            None => {
                return None;
            },
        };
        proof {
            vstd::arithmetic::div_mod::lemma_fundamental_div_mod(micros as int, 1_000_000);
            assert(time == micros);
        }
        let buy = text_eq(side, "b");
        let (bid, ask) = if buy {
            match p.checked_sub(SYNTHETIC_SPREAD) {
                Some(bid) => (bid, p),
                None => {
                    return None;
                },
            }
        } else {
            match p.checked_add(SYNTHETIC_SPREAD) {
                Some(ask) => (p, ask),
                None => {
                    return None;
                },
            }
        };
        let mut extra: Vec<ExtraField> = Vec::new();
        extra.push(
            ExtraField { key: String::from_str("side"), value: ExtraValue::Text(
                String::from_str(side),
            ) },
        );
        extra.push(
            ExtraField { key: String::from_str("trade_id"), value: ExtraValue::Text(
                String::from_str(stamp),
            ) },
        );
        Some(
            MarketTick {
                time,
                symbol: String::from_str(symbol),
                source: String::from_str("kraken"),
                bid: Some(bid),
                ask: Some(ask),
                last: Some(p),
                volume: Some(v),
                extra,
            },
        )
    }

    fn decode_fields(fields: &Vec<serde_json::Value>, symbol: &str) -> (r: Option<MarketTick>)
        ensures
            match r {
                Some(tick) => field_values(views_of(fields@)) matches Some(values)
                    && is_trade_tick(
                    tick,
                    symbol@,
                    values,
                    views_of(fields@)[3]->Text_0,
                    views_of(fields@)[2]->Number_0,
                ),
                None => field_values(views_of(fields@)) is None,
            },
    {
        if fields.len() < 4 {
            return None;
        }
        let price = match json_str(&fields[0]) {
            Some(price) => price,
            None => {
                return None;
            },
        };
        let volume = match json_str(&fields[1]) {
            Some(volume) => volume,
            None => {
                return None;
            },
        };
        let stamp = match json_number_text(&fields[2]) {
            Some(stamp) => stamp,
            None => {
                return None;
            },
        };
        let side = match json_str(&fields[3]) {
            Some(side) => side,
            None => {
                return None;
            },
        };
        Self::decode_trade(price, volume, stamp.as_str(), side, symbol)
    }

    /// The tick of the trade that a trade message reports. Of several
    /// trades in one message the first counts.
    pub fn parse_trade_message_static(data: &serde_json::Value, symbol: &str) -> (r: Option<
        MarketTick,
    >)
        ensures
            match r {
                Some(tick) => message_trade(json_view(*data)) matches Some(values)
                    && reported_trade(json_view(*data)) matches Some(fields) && is_trade_tick(
                    tick,
                    symbol@,
                    values,
                    fields[3]->Text_0,
                    fields[2]->Number_0,
                ),
                None => message_trade(json_view(*data)) is None,
            },
    {
        let top = match json_items(data) {
            Some(top) => top,
            None => {
                return None;
            },
        };
        if top.len() < 2 {
            return None;
        }
        let trades = match json_items(&top[1]) {
            Some(trades) => trades,
            None => {
                return None;
            },
        };
        let mut i: usize = 0;
        while i < trades.len()
            invariant
                i <= trades.len(),
                reported_trade(json_view(*data)) == first_trade(views_of(trades@), i as int),
            decreases trades.len() - i,
        {
            match json_items(&trades[i]) {
                Some(fields) => {
                    return Self::decode_fields(fields, symbol);
                },
                None => {},
            }
            i += 1;
        }
        None
    }

    /// What a message of the feed amounts to. A text that is no JSON, a
    /// status message and a message without a trade that can be read are
    /// skipped.
    pub fn handle_frame(&self, frame: &KrakenFrame) -> (outcome: FrameOutcome)
        ensures
            match *frame {
                KrakenFrame::Close => outcome is Closed,
                KrakenFrame::Other => outcome is Skip,
                KrakenFrame::Text(text) => match json_document(text@) {
                    Some(data) => if !is_status_message(data) && message_trade(data) is Some {
                        &&& outcome matches FrameOutcome::Tick(tick)
                        &&& is_trade_tick(
                            tick,
                            self.symbol@,
                            message_trade(data)->0,
                            reported_trade(data)->0[3]->Text_0,
                            reported_trade(data)->0[2]->Number_0,
                        )
                    } else {
                        outcome is Skip
                    },
                    None => outcome is Skip,
                },
            },
    {
        match frame {
            KrakenFrame::Close => FrameOutcome::Closed,
            KrakenFrame::Other => FrameOutcome::Skip,
            KrakenFrame::Text(text) => {
                let data = match parse_json(text.as_str()) {
                    Some(data) => data,
                    None => {
                        return FrameOutcome::Skip;
                    },
                };
                if json_has_key(&data, "event") {
                    return FrameOutcome::Skip;
                }
                match Self::parse_trade_message_static(&data, self.symbol.as_str()) {
                    Some(tick) => FrameOutcome::Tick(tick),
                    None => FrameOutcome::Skip,
                }
            },
        }
    }

    /// The next of the ticks that were read ahead, the latest first.
    pub fn next_buffered(&mut self) -> (r: Option<MarketTick>)
        ensures
            final(self).symbol == old(self).symbol,
            old(self).pending_ticks@.len() == 0 ==> r is None && final(self).pending_ticks@
                == old(self).pending_ticks@,
            old(self).pending_ticks@.len() > 0 ==> r == Some(old(self).pending_ticks@.last())
                && final(self).pending_ticks@ == old(self).pending_ticks@.drop_last(),
    {
        self.pending_ticks.pop()
    }
}

} // verus!
