//! From a classified symbol and a source to the configuration of a
//! pipeline and its adapter.

use crate::market_data::ingesters::kraken::KrakenIngester;
use crate::market_data::ingesters::oanda::{OandaIngester, OANDA_STREAM_URL};
use crate::market_data::{
    Adapter, AssetClass, AssetInfo, DataSource, DataSourceView, PipelineConfig,
};
use crate::text::{join2, join3};
use vstd::prelude::*;
use vstd::string::*;

verus! {

/// Collects what a pipeline configuration is built from.
#[derive(Debug)]
pub struct PipelineBuilder {
    pub symbol: Option<String>,
    pub asset_class: Option<AssetClass>,
    pub source: Option<DataSource>,
}

/// The resolution of the aggregate at place `i` of the chain, from the
/// finest to the coarsest.
pub open spec fn resolution_at(i: int) -> Seq<char> {
    if i == 0 {
        "1m"@
    } else if i == 1 {
        "5m"@
    } else if i == 2 {
        "15m"@
    } else if i == 3 {
        "1h"@
    } else if i == 4 {
        "4h"@
    } else {
        "12h"@
    }
}

/// Number of aggregates in the chain.
pub const CHAIN_LENGTH: usize = 6;

/// The tick table of an asset class.
pub open spec fn tick_table_of(class: AssetClass) -> Seq<char> {
    class.prefix() + "_ticks"@
}

/// The aggregate table of an asset class at a resolution.
pub open spec fn aggregate_table_of(class: AssetClass, resolution: Seq<char>) -> Seq<char> {
    class.prefix() + "_candles_"@ + resolution
}

/// The procedure that refreshes the aggregates of an asset class.
pub open spec fn cascade_procedure_of(class: AssetClass) -> Seq<char> {
    "cascade_"@ + class.prefix() + "_aggregate_refresh"@
}

/// Whether `tables` is the aggregate chain of an asset class: its six
/// tables with their resolutions, from the finest to the coarsest.
pub open spec fn is_aggregate_chain(class: AssetClass, tables: Seq<(String, String)>) -> bool {
    &&& tables.len() == CHAIN_LENGTH
    &&& forall|i: int|
        0 <= i < CHAIN_LENGTH ==> (#[trigger] tables[i]).0@ == aggregate_table_of(
            class,
            resolution_at(i),
        ) && tables[i].1@ == resolution_at(i)
}

/// Whether `config` is the configuration of a pipeline for `symbol` of
/// class `class` fed by `source`: every name follows from the class.
pub open spec fn is_config_of(
    config: PipelineConfig,
    symbol: Seq<char>,
    class: AssetClass,
    source: DataSourceView,
) -> bool {
    &&& config.symbol@ == symbol
    &&& config.asset_class == class
    &&& config.source@ == source
    &&& config.tick_table@ == tick_table_of(class)
    &&& is_aggregate_chain(class, config.aggregate_tables@)
    &&& config.cascade_procedure@ == cascade_procedure_of(class)
}

fn resolution_label(i: usize) -> (r: &'static str)
    requires
        i < CHAIN_LENGTH,
    ensures
        r@ == resolution_at(i as int),
{
    if i == 0 {
        "1m"
    } else if i == 1 {
        "5m"
    } else if i == 2 {
        "15m"
    } else if i == 3 {
        "1h"
    } else if i == 4 {
        "4h"
    } else {
        "12h"
    }
}

/// The aggregate chain of an asset class.
pub fn aggregate_chain(class: AssetClass) -> (tables: Vec<(String, String)>)
    ensures
        is_aggregate_chain(class, tables@),
{
    let prefix = class.table_prefix();
    let mut tables: Vec<(String, String)> = Vec::new();
    let mut i: usize = 0;
    while i < CHAIN_LENGTH
        invariant
            i <= CHAIN_LENGTH,
            prefix@ == class.prefix(),
            tables@.len() == i,
            forall|j: int|
                0 <= j < i ==> (#[trigger] tables@[j]).0@ == aggregate_table_of(
                    class,
                    resolution_at(j),
                ) && tables@[j].1@ == resolution_at(j),
        decreases CHAIN_LENGTH - i,
    {
        let label = resolution_label(i);
        tables.push((join3(prefix, "_candles_", label), String::from_str(label)));
        i += 1;
    }
    tables
}

impl PipelineBuilder {
    /// A builder with nothing set.
    pub fn new() -> (b: Self)
        ensures
            b.symbol is None,
            b.asset_class is None,
            b.source is None,
    {
        PipelineBuilder { symbol: None, asset_class: None, source: None }
    }

    /// Sets the symbol.
    pub fn symbol(self, symbol: &str) -> (b: Self)
        ensures
            b.symbol matches Some(s) && s@ == symbol@,
            b.asset_class == self.asset_class,
            b.source == self.source,
    {
        PipelineBuilder {
            symbol: Some(String::from_str(symbol)),
            asset_class: self.asset_class,
            source: self.source,
        }
    }

    /// Sets the asset class, from the classification of the symbol.
    pub fn asset_info(self, info: &AssetInfo) -> (b: Self)
        ensures
            b.symbol == self.symbol,
            b.asset_class == Some(info.class),
            b.source == self.source,
    {
        PipelineBuilder { symbol: self.symbol, asset_class: Some(info.class), source: self.source }
    }

    /// Sets the source.
    pub fn source(self, source: DataSource) -> (b: Self)
        ensures
            b.symbol == self.symbol,
            b.asset_class == self.asset_class,
            b.source == Some(source),
    {
        PipelineBuilder { symbol: self.symbol, asset_class: self.asset_class, source: Some(source) }
    }

    /// The configuration, once symbol, class and source are set; else the
    /// first of them that is missing. The profile is left for the caller.
    pub fn build(self) -> (r: Result<PipelineConfig, String>)
        ensures
            self.symbol is None ==> (r matches Err(why) && why@ == "Symbol not set"@),
            self.symbol is Some && self.asset_class is None ==> (r matches Err(why) && why@
                == "Asset info not set"@),
            self.symbol is Some && self.asset_class is Some && self.source is None ==> (
            r matches Err(why) && why@ == "Source not set"@),
            self.symbol is Some && self.asset_class is Some && self.source is Some ==> {
                &&& r matches Ok(config)
                &&& is_config_of(
                    config,
                    self.symbol->0@,
                    self.asset_class->0,
                    self.source->0@,
                )
                &&& config.source == self.source->0
                &&& config.profile_id is None
                &&& config.profile_name is None
            },
    {
        let symbol = match self.symbol {
            Some(symbol) => symbol,
            None => {
                return Err(String::from_str("Symbol not set"));
            },
        };
        let class = match self.asset_class {
            Some(class) => class,
            None => {
                return Err(String::from_str("Asset info not set"));
            },
        };
        let source = match self.source {
            Some(source) => source,
            None => {
                return Err(String::from_str("Source not set"));
            },
        };
        let prefix = class.table_prefix();
        Ok(
            PipelineConfig {
                symbol,
                asset_class: class,
                source,
                tick_table: join2(prefix, "_ticks"),
                aggregate_tables: aggregate_chain(class),
                cascade_procedure: join3("cascade_", prefix, "_aggregate_refresh"),
                profile_id: None,
                profile_name: None,
            },
        )
    }
}

/// Whether `adapter` is the adapter of a pipeline for `symbol` fed by
/// `source`, with the credentials of the source.
pub open spec fn is_adapter_of(adapter: Adapter, symbol: Seq<char>, source: DataSourceView)
    -> bool {
    match source {
        DataSourceView::Kraken { .. } => {
            &&& adapter matches Adapter::Kraken(kraken)
            &&& kraken.symbol@ == symbol
            &&& kraken.pending_ticks@.len() == 0
        },
        DataSourceView::Oanda { account_id, api_token } => {
            &&& adapter matches Adapter::Oanda(oanda)
            &&& oanda.symbol@ == symbol
            &&& oanda.account_id@ == account_id
            &&& oanda.api_token@ == api_token
            &&& oanda.api_url@ == OANDA_STREAM_URL@
            &&& oanda.buffer@.len() == 0
        },
        _ => false,
    }
}

/// Whether a feed can be ingested live.
pub open spec fn has_adapter(source: DataSourceView) -> bool {
    source is Kraken || source is Oanda
}

/// The adapter for the source of a configuration; an error for a source
/// that cannot be ingested live.
pub fn create_ingester(config: &PipelineConfig) -> (r: Result<Adapter, String>)
    ensures
        match r {
            Ok(adapter) => is_adapter_of(adapter, config.symbol@, config.source@),
            Err(why) => !has_adapter(config.source@) && why@
                == "Ingester not implemented for this source"@,
        },
{
    match &config.source {
        DataSource::Kraken { .. } => Ok(Adapter::Kraken(KrakenIngester::new(config.symbol.clone()))),
        DataSource::Oanda { account_id, api_token } => Ok(
            Adapter::Oanda(
                OandaIngester::new(config.symbol.clone(), account_id.clone(), api_token.clone()),
            ),
        ),
        _ => Err(String::from_str("Ingester not implemented for this source")),
    }
}

} // verus!
