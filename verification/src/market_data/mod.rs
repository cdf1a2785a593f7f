//! The data model of the ingestion engine: asset classes, data sources,
//! ticks, pipeline configuration and status.

pub mod builder;
pub mod cascade;
pub mod catalog;
pub mod commands;
pub mod discovery;
pub mod engine;
pub mod gaps;
pub mod ingesters;
pub mod pipeline;
pub mod schema;
pub mod symbols;

pub use crate::market_data::builder::{create_ingester, PipelineBuilder};
pub use crate::market_data::cascade::CascadeScheduler;
pub use crate::market_data::discovery::AssetDiscovery;
pub use crate::market_data::engine::MarketDataEngine;

use crate::decimal::Decimal;
use crate::market_data::ingesters::kraken::KrakenIngester;
use crate::market_data::ingesters::oanda::OandaIngester;
use crate::time::Instant;
use vstd::prelude::*;
use vstd::string::*;

verus! {

/// The kind of an instrument.
#[derive(Debug, Clone, Copy, PartialEq, Eq, Structural)]
pub enum AssetClass {
    Forex,
    Crypto,
    Stock,
    Future,
    Option,
}

impl AssetClass {
    /// Lower-case name of the class; table and procedure names start with it.
    pub open spec fn prefix(self) -> Seq<char> {
        match self {
            AssetClass::Forex => "forex"@,
            AssetClass::Crypto => "crypto"@,
            AssetClass::Stock => "stock"@,
            AssetClass::Future => "future"@,
            AssetClass::Option => "option"@,
        }
    }

    /// Lower-case name of the class.
    pub fn table_prefix(&self) -> (r: &'static str)
        ensures
            r@ == self.prefix(),
    {
        match self {
            AssetClass::Forex => "forex",
            AssetClass::Crypto => "crypto",
            AssetClass::Stock => "stock",
            AssetClass::Future => "future",
            AssetClass::Option => "option",
        }
    }
}

/// An upstream feed, with the credentials it takes.
#[derive(Debug)]
#[allow(inconsistent_fields)]
pub enum DataSource {
    Kraken { api_key: Option<String>, api_secret: Option<String> },
    Oanda { account_id: String, api_token: String },
    Alpaca { api_key: String, api_secret: String },
    /// Historical data only.
    Dukascopy,
    IBKR { username: String, password: String },
    Coinbase { api_key: String, api_secret: String },
}

impl DataSource {
    /// Lower-case name of the feed.
    pub open spec fn name(&self) -> Seq<char> {
        match self {
            DataSource::Kraken { .. } => "kraken"@,
            DataSource::Oanda { .. } => "oanda"@,
            DataSource::Alpaca { .. } => "alpaca"@,
            DataSource::Dukascopy => "dukascopy"@,
            DataSource::IBKR { .. } => "ibkr"@,
            DataSource::Coinbase { .. } => "coinbase"@,
        }
    }

    /// Lower-case name of the feed.
    pub fn source_name(&self) -> (r: &'static str)
        ensures
            r@ == self.name(),
    {
        match self {
            DataSource::Kraken { .. } => "kraken",
            DataSource::Oanda { .. } => "oanda",
            DataSource::Alpaca { .. } => "alpaca",
            DataSource::Dukascopy => "dukascopy",
            DataSource::IBKR { .. } => "ibkr",
            DataSource::Coinbase { .. } => "coinbase",
        }
    }
}

/// The characters of a text that may be missing.
pub open spec fn text_of(value: Option<String>) -> Option<Seq<char>> {
    match value {
        Some(text) => Some(text@),
        None => None,
    }
}

/// A feed and its credentials, as characters.
#[allow(inconsistent_fields)]
pub enum DataSourceView {
    Kraken { api_key: Option<Seq<char>>, api_secret: Option<Seq<char>> },
    Oanda { account_id: Seq<char>, api_token: Seq<char> },
    Alpaca { api_key: Seq<char>, api_secret: Seq<char> },
    Dukascopy,
    IBKR { username: Seq<char>, password: Seq<char> },
    Coinbase { api_key: Seq<char>, api_secret: Seq<char> },
}

impl View for DataSource {
    type V = DataSourceView;

    open spec fn view(&self) -> DataSourceView {
        match self {
            DataSource::Kraken { api_key, api_secret } => DataSourceView::Kraken {
                api_key: text_of(*api_key),
                api_secret: text_of(*api_secret),
            },
            DataSource::Oanda { account_id, api_token } => DataSourceView::Oanda {
                account_id: account_id@,
                api_token: api_token@,
            },
            DataSource::Alpaca { api_key, api_secret } => DataSourceView::Alpaca {
                api_key: api_key@,
                api_secret: api_secret@,
            },
            DataSource::Dukascopy => DataSourceView::Dukascopy,
            DataSource::IBKR { username, password } => DataSourceView::IBKR {
                username: username@,
                password: password@,
            },
            DataSource::Coinbase { api_key, api_secret } => DataSourceView::Coinbase {
                api_key: api_key@,
                api_secret: api_secret@,
            },
        }
    }
}

/// A copy of a text that may be missing.
pub fn clone_optional(text: &Option<String>) -> (r: Option<String>)
    ensures
        r == *text,
{
    match text {
        Some(t) => Some(t.clone()),
        None => None,
    }
}

impl Clone for DataSource {
    fn clone(&self) -> (r: Self)
        ensures
            r == *self,
    {
        match self {
            DataSource::Kraken { api_key, api_secret } => DataSource::Kraken {
                api_key: clone_optional(api_key),
                api_secret: clone_optional(api_secret),
            },
            DataSource::Oanda { account_id, api_token } => DataSource::Oanda {
                account_id: account_id.clone(),
                api_token: api_token.clone(),
            },
            DataSource::Alpaca { api_key, api_secret } => DataSource::Alpaca {
                api_key: api_key.clone(),
                api_secret: api_secret.clone(),
            },
            DataSource::Dukascopy => DataSource::Dukascopy,
            DataSource::IBKR { username, password } => DataSource::IBKR {
                username: username.clone(),
                password: password.clone(),
            },
            DataSource::Coinbase { api_key, api_secret } => DataSource::Coinbase {
                api_key: api_key.clone(),
                api_secret: api_secret.clone(),
            },
        }
    }
}

/// What the classification of a symbol yields.
#[derive(Debug)]
pub struct AssetInfo {
    pub symbol: String,
    pub class: AssetClass,
    /// First half of a pair such as EURUSD.
    pub base: Option<String>,
    pub quote: Option<String>,
    pub available_sources: Vec<DataSource>,
    pub decimals: u8,
    pub min_tick: Decimal,
}

/// One value of the source-specific payload of a tick.
#[derive(Debug)]
pub enum ExtraValue {
    Text(String),
    Number(Decimal),
    Flag(bool),
}

/// One entry of the source-specific payload of a tick.
#[derive(Debug)]
pub struct ExtraField {
    pub key: String,
    pub value: ExtraValue,
}

/// One normalized price observation.
#[derive(Debug)]
pub struct MarketTick {
    pub time: Instant,
    pub symbol: String,
    pub source: String,
    pub bid: Option<Decimal>,
    pub ask: Option<Decimal>,
    pub last: Option<Decimal>,
    pub volume: Option<Decimal>,
    pub extra: Vec<ExtraField>,
}

/// What identifies a tick in the store.
pub struct TickKey {
    pub symbol: Seq<char>,
    pub source: Seq<char>,
    pub time: int,
}

impl MarketTick {
    /// What identifies the tick in the store.
    pub open spec fn key(&self) -> TickKey {
        TickKey { symbol: self.symbol@, source: self.source@, time: self.time as int }
    }
}

/// What a pipeline is set up with. Every name follows from the asset class.
#[derive(Debug)]
pub struct PipelineConfig {
    pub symbol: String,
    pub asset_class: AssetClass,
    pub source: DataSource,
    pub tick_table: String,
    /// Aggregate table and resolution label, from the finest to the coarsest.
    pub aggregate_tables: Vec<(String, String)>,
    pub cascade_procedure: String,
    /// Broker profile used for this pipeline.
    pub profile_id: Option<String>,
    pub profile_name: Option<String>,
}

/// Where a pipeline stands in its life.
#[derive(Debug)]
pub enum PipelineStatus {
    Stopped,
    Starting,
    Running { connected: bool, last_tick: Option<Instant> },
    Error { message: String },
}

/// The adapter of a pipeline: one of the feeds that can be ingested.
#[derive(Debug)]
pub enum Adapter {
    Kraken(KrakenIngester),
    Oanda(OandaIngester),
}

/// Why no connection can be made with an adapter that lacks a credential.
pub const MISSING_CREDENTIALS: &'static str = "OANDA requires account_id and api_token";

impl Adapter {
    /// Whether the adapter lacks a credential without which no connection
    /// can be made.
    pub open spec fn lacks_credentials(&self) -> bool {
        self matches Adapter::Oanda(oanda) && (oanda.account_id@.len() == 0
            || oanda.api_token@.len() == 0)
    }

    /// Why no connection can ever be made with the adapter as it is;
    /// `None` where one can be tried.
    pub fn configuration_fault(&self) -> (why: Option<&'static str>)
        ensures
            self.lacks_credentials() <==> why is Some,
            why matches Some(text) ==> text@ == MISSING_CREDENTIALS@,
    {
        match self {
            Adapter::Oanda(oanda) => if oanda.has_credentials() {
                None
            } else {
                Some(MISSING_CREDENTIALS)
            },
            Adapter::Kraken(_) => None,
        }
    }
}

/// One symbol's pipeline: its configuration, its adapter until the
/// ingestion loop takes it, and its status.
#[derive(Debug)]
pub struct AssetPipeline {
    pub config: PipelineConfig,
    pub ingester: Option<Adapter>,
    pub status: PipelineStatus,
}

} // verus!
