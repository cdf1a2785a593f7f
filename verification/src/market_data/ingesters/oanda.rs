//! The OANDA pricing stream: a streaming HTTP feed of line-delimited JSON
//! that quotes bid and ask.

use crate::decimal::{fixed_value, parse_decimal, Decimal};
use crate::market_data::ingesters::FeedError;
use crate::market_data::{text_of, ExtraField, ExtraValue, MarketTick};
use crate::text::{
    chars_of, join2, join3, lossy_text, text_eq, trim_text, trimmed_text, utf8_lossy,
};
use crate::time::{parse_rfc3339, rfc3339_instant};
use vstd::prelude::*;
use vstd::string::*;

verus! {

/// Host of the practice account's pricing stream.
pub const OANDA_STREAM_URL: &'static str = "https://stream-fxpractice.oanda.com";

/// Protocol state of one subscription to the OANDA pricing stream.
#[derive(Debug)]
pub struct OandaIngester {
    pub symbol: String,
    pub account_id: String,
    pub api_token: String,
    pub api_url: String,
    /// What was received and is not yet cut into lines.
    pub buffer: String,
}

/// One level of the book.
#[derive(Debug)]
pub struct PricePoint {
    pub price: String,
    pub liquidity: i64,
}

/// One price update of the stream, as it is written.
#[derive(Debug)]
pub struct OandaPrice {
    pub msg_type: String,
    pub time: String,
    pub bids: Vec<PricePoint>,
    pub asks: Vec<PricePoint>,
    pub closeout_bid: String,
    pub closeout_ask: String,
    pub status: String,
    pub tradeable: bool,
    pub instrument: String,
}

/// The name of an instrument at OANDA: a symbol of six characters with an
/// underscore in its middle, any other symbol as it is.
pub open spec fn instrument_of(symbol: Seq<char>) -> Seq<char> {
    if symbol.len() == 6 {
        symbol.subrange(0, 3) + "_"@ + symbol.subrange(3, 6)
    } else {
        symbol
    }
}

/// The names of the first `n` instruments, separated by commas.
pub open spec fn joined_instruments(symbols: Seq<String>, n: int) -> Seq<char>
    decreases n,
{
    if n <= 0 {
        Seq::empty()
    } else if n == 1 {
        instrument_of(symbols[0]@)
    } else {
        joined_instruments(symbols, n - 1) + ","@ + instrument_of(symbols[n - 1]@)
    }
}

/// Where the first line feed of `buffer` from `from` on stands; the
/// length of `buffer` where there is none.
pub open spec fn first_newline(buffer: Seq<char>, from: int) -> int
    decreases buffer.len() - from,
{
    if from < 0 || from >= buffer.len() {
        buffer.len() as int
    } else if buffer[from] == '\n' {
        from
    } else {
        first_newline(buffer, from + 1)
    }
}

/// The next line of a buffer that is not empty once trimmed, and what is
/// left of the buffer behind it. Without a complete line of that kind
/// there is no line, and what is left is the line that is still open.
pub open spec fn next_line_of(buffer: Seq<char>) -> (Option<Seq<char>>, Seq<char>)
    decreases buffer.len(),
{
    let at = first_newline(buffer, 0);
    if 0 <= at < buffer.len() {
        let line = trimmed_text(buffer.subrange(0, at));
        let rest = buffer.subrange(at + 1, buffer.len() as int);
        if line.len() == 0 {
            next_line_of(rest)
        } else {
            (Some(line), rest)
        }
    } else {
        (None, buffer)
    }
}

/// Bid, ask and time of a price update, read.
pub struct QuoteValues {
    pub time: i64,
    pub bid: i64,
    pub ask: i64,
}

/// Whether an update is a price of `instrument`.
pub open spec fn concerns(price: OandaPrice, instrument: Seq<char>) -> bool {
    price.msg_type@ == "PRICE"@ && price.instrument@ == instrument
}

/// What a price update quotes: its time and the top of its book. An
/// error for the first of time, bid and ask that cannot be read.
pub open spec fn quote_of(price: OandaPrice) -> Result<QuoteValues, FeedError> {
    if rfc3339_instant(price.time@) is None {
        Err(FeedError::InvalidTime)
    } else if price.bids@.len() == 0 || fixed_value(price.bids@[0].price@, 8) is None {
        Err(FeedError::InvalidBid)
    } else if price.asks@.len() == 0 || fixed_value(price.asks@[0].price@, 8) is None {
        Err(FeedError::InvalidAsk)
    } else {
        Ok(
            QuoteValues {
                time: rfc3339_instant(price.time@)->0,
                bid: fixed_value(price.bids@[0].price@, 8)->0 as i64,
                ask: fixed_value(price.asks@[0].price@, 8)->0 as i64,
            },
        )
    }
}

/// `ask - bid`, held at the ends of the range.
pub open spec fn spread_of(bid: int, ask: int) -> int {
    if ask - bid > i64::MAX {
        i64::MAX as int
    } else if ask - bid < i64::MIN {
        i64::MIN as int
    } else {
        ask - bid
    }
}

/// Whether `tick` is the tick of a price update with these values: bid
/// and ask as quoted, neither last price nor volume.
pub open spec fn is_quote_tick(
    tick: MarketTick,
    symbol: Seq<char>,
    price: OandaPrice,
    values: QuoteValues,
) -> bool {
    &&& tick.time == values.time
    &&& tick.symbol@ == symbol
    &&& tick.source@ == "oanda"@
    &&& tick.bid == Some(values.bid)
    &&& tick.ask == Some(values.ask)
    &&& tick.last is None
    &&& tick.volume is None
    &&& tick.extra@.len() == 4
    &&& tick.extra@[0].key@ == "spread"@
    &&& tick.extra@[0].value == ExtraValue::Number(
        spread_of(values.bid as int, values.ask as int) as i64,
    )
    &&& tick.extra@[1].key@ == "tradeable"@
    &&& tick.extra@[1].value == ExtraValue::Flag(price.tradeable)
    &&& tick.extra@[2].key@ == "closeout_bid"@
    &&& tick.extra@[2].value matches ExtraValue::Text(bid) && bid@ == price.closeout_bid@
    &&& tick.extra@[3].key@ == "closeout_ask"@
    &&& tick.extra@[3].value matches ExtraValue::Text(ask) && ask@ == price.closeout_ask@
}

/// The name of an instrument at OANDA.
pub fn oanda_instrument(symbol: &str) -> (r: String)
    ensures
        r@ == instrument_of(symbol@),
{
    if symbol.unicode_len() == 6 {
        join3(symbol.substring_char(0, 3), "_", symbol.substring_char(3, 6))
    } else {
        String::from_str(symbol)
    }
}

/// Whether the feed accepted the request, from the status of its answer:
/// it did with a status from 200 to 299.
pub fn check_status(code: u16, status: &str) -> (r: Result<(), String>)
    ensures
        200 <= code < 300 <==> r is Ok,
        r matches Err(why) ==> why@ == "Oanda API error: "@ + status@,
{
    if 200 <= code && code < 300 {
        Ok(())
    } else {
        Err(join2("Oanda API error: ", status))
    }
}

fn find_newline(chars: &Vec<char>) -> (at: usize)
    ensures
        at == first_newline(chars@, 0),
        at <= chars@.len(),
        at < chars@.len() ==> chars@[at as int] == '\n',
{
    let mut i: usize = 0;
    while i < chars.len()
        invariant
            i <= chars.len(),
            first_newline(chars@, 0) == first_newline(chars@, i as int),
        decreases chars.len() - i,
    {
        if chars[i] == '\n' {
            return i;
        }
        i += 1;
    }
    i
}

fn clamped_spread(bid: Decimal, ask: Decimal) -> (r: Decimal)
    ensures
        r == spread_of(bid as int, ask as int),
{
    let wide: i128 = ask as i128 - bid as i128;
    if wide > i64::MAX as i128 {
        i64::MAX
    } else if wide < i64::MIN as i128 {
        i64::MIN
    } else {
        wide as i64
    }
}

impl OandaIngester {
    /// The state of a subscription that has received nothing yet.
    pub fn new(symbol: String, account_id: String, api_token: String) -> (r: Self)
        ensures
            r.symbol == symbol,
            r.account_id == account_id,
            r.api_token == api_token,
            r.api_url@ == OANDA_STREAM_URL@,
            r.buffer@.len() == 0,
    {
        OandaIngester {
            symbol,
            account_id,
            api_token,
            api_url: String::from_str(OANDA_STREAM_URL),
            buffer: String::new(),
        }
    }

    /// The name of an instrument at OANDA.
    pub fn convert_symbol(&self, symbol: &str) -> (r: String)
        ensures
            r@ == instrument_of(symbol@),
    {
        oanda_instrument(symbol)
    }

    /// Whether both credentials are there. Without them no connection can
    /// be made.
    pub fn has_credentials(&self) -> (b: bool)
        ensures
            b == (self.account_id@.len() > 0 && self.api_token@.len() > 0),
    {
        self.account_id.as_str().unicode_len() > 0 && self.api_token.as_str().unicode_len() > 0
    }

    /// The address of the pricing stream of `symbols`.
    pub fn stream_url(&self, symbols: &Vec<String>) -> (url: String)
        ensures
            url@ == self.api_url@ + "/v3/accounts/"@ + self.account_id@
                + "/pricing/stream?instruments="@ + joined_instruments(
                symbols@,
                symbols@.len() as int,
            ),
    {
        let mut url = String::from_str(self.api_url.as_str());
        url.append("/v3/accounts/");
        url.append(self.account_id.as_str());
        url.append("/pricing/stream?instruments=");
        let ghost head = url@;
        let mut i: usize = 0;
        assert(url@ =~= head + joined_instruments(symbols@, 0));
        while i < symbols.len()
            invariant
                i <= symbols.len(),
                url@ == head + joined_instruments(symbols@, i as int),
            decreases symbols.len() - i,
        {
            if i > 0 {
                url.append(",");
            }
            let instrument = oanda_instrument(symbols[i].as_str());
            url.append(instrument.as_str());
            proof {
                assert(url@ =~= head + joined_instruments(symbols@, i + 1));
            }
            i += 1;
        }
        url
    }

    /// The headers of the request for the stream: the bearer token, and
    /// the format in which times are to be written.
    pub fn request_headers(&self) -> (headers: Vec<(String, String)>)
        ensures
            headers@.len() == 2,
            headers@[0].0@ == "Authorization"@,
            headers@[0].1@ == "Bearer "@ + self.api_token@,
            headers@[1].0@ == "Accept-Datetime-Format"@,
            headers@[1].1@ == "RFC3339"@,
    {
        let mut headers: Vec<(String, String)> = Vec::new();
        headers.push(
            (String::from_str("Authorization"), join2("Bearer ", self.api_token.as_str())),
        );
        headers.push((String::from_str("Accept-Datetime-Format"), String::from_str("RFC3339")));
        headers
    }

    /// Takes in what the stream sent.
    pub fn push_chunk(&mut self, bytes: &[u8])
        ensures
            final(self).buffer@ == old(self).buffer@ + lossy_text(bytes@),
            final(self).symbol == old(self).symbol,
            final(self).account_id == old(self).account_id,
            final(self).api_token == old(self).api_token,
            final(self).api_url == old(self).api_url,
    {
        let text = utf8_lossy(bytes);
        self.buffer.append(text.as_str());
    }

    /// Cuts the next line that is not empty from the buffer.
    pub fn next_line(&mut self) -> (line: Option<String>)
        ensures
            text_of(line) == next_line_of(old(self).buffer@).0,
            final(self).buffer@ == next_line_of(old(self).buffer@).1,
            final(self).symbol == old(self).symbol,
            final(self).account_id == old(self).account_id,
            final(self).api_token == old(self).api_token,
            final(self).api_url == old(self).api_url,
    {
        loop
            invariant
                next_line_of(self.buffer@) == next_line_of(old(self).buffer@),
                self.symbol == old(self).symbol,
                self.account_id == old(self).account_id,
                self.api_token == old(self).api_token,
                self.api_url == old(self).api_url,
            decreases self.buffer@.len(),
        {
            let chars = chars_of(self.buffer.as_str());
            let n = chars.len();
            let at = find_newline(&chars);
            if at >= n {
                return None;
            }
            let line = trim_text(self.buffer.as_str().substring_char(0, at));
            let rest = String::from_str(self.buffer.as_str().substring_char(at + 1, n));
            self.buffer = rest;
            if line.as_str().unicode_len() > 0 {
                return Some(line);
            }
        }
    }

    /// The tick of a price update of the stream. An update that is no
    /// price, or the price of another instrument, gives none.
    pub fn tick_from_price(&self, price: &OandaPrice) -> (r: Result<Option<MarketTick>, FeedError>)
        ensures
            !concerns(*price, instrument_of(self.symbol@)) ==> r == Ok::<
                Option<MarketTick>,
                FeedError,
            >(None),
            concerns(*price, instrument_of(self.symbol@)) ==> match quote_of(*price) {
                Ok(values) => r matches Ok(Some(tick)) && is_quote_tick(
                    tick,
                    self.symbol@,
                    *price,
                    values,
                ),
                Err(why) => r == Err::<Option<MarketTick>, FeedError>(why),
            },
    {
        let instrument = oanda_instrument(self.symbol.as_str());
        if !(text_eq(price.msg_type.as_str(), "PRICE") && text_eq(
            price.instrument.as_str(),
            instrument.as_str(),
        )) {
            return Ok(None);
        }
        let time = match parse_rfc3339(price.time.as_str()) {
            Some(time) => time,
            None => {
                return Err(FeedError::InvalidTime);
            },
        };
        if price.bids.len() == 0 {
            return Err(FeedError::InvalidBid);
        }
        let bid = match parse_decimal(price.bids[0].price.as_str()) {
            Some(bid) => bid,
            None => {
                return Err(FeedError::InvalidBid);
            },
        };
        if price.asks.len() == 0 {
            return Err(FeedError::InvalidAsk);
        }
        let ask = match parse_decimal(price.asks[0].price.as_str()) {
            Some(ask) => ask,
            None => {
                return Err(FeedError::InvalidAsk);
            },
        };
        let mut extra: Vec<ExtraField> = Vec::new();
        extra.push(
            ExtraField {
                key: String::from_str("spread"),
                value: ExtraValue::Number(clamped_spread(bid, ask)),
            },
        );
        extra.push(
            ExtraField {
                key: String::from_str("tradeable"),
                value: ExtraValue::Flag(price.tradeable),
            },
        );
        extra.push(
            ExtraField {
                key: String::from_str("closeout_bid"),
                value: ExtraValue::Text(price.closeout_bid.clone()),
            },
        );
        extra.push(
            ExtraField {
                key: String::from_str("closeout_ask"),
                value: ExtraValue::Text(price.closeout_ask.clone()),
            },
        );
        Ok(
            Some(
                MarketTick {
                    time,
                    symbol: self.symbol.clone(),
                    source: String::from_str("oanda"),
                    bid: Some(bid),
                    ask: Some(ask),
                    last: None,
                    volume: None,
                    extra,
                },
            ),
        )
    }
}

} // verus!
