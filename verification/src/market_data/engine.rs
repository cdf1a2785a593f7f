//! The engine: the registry of pipelines by symbol.

use crate::market_data::builder::{
    create_ingester, has_adapter, is_adapter_of, is_config_of, PipelineBuilder,
};
use crate::market_data::cascade::{CascadeScheduler, CascadeTask};
use crate::market_data::commands::{
    pipeline_record, records, reports, status_response, PipelineConfigFile,
    PipelineStatusResponse,
};
use crate::market_data::discovery::{class_of, describes, AssetDiscovery};
use crate::market_data::pipeline::{loop_step, IngestionLoop, LoopAction, LoopEvent};
use crate::market_data::{
    AssetClass, AssetInfo, AssetPipeline, DataSource, DataSourceView, PipelineStatus,
    MISSING_CREDENTIALS,
};
use crate::text::{join2, text_eq, uppercase_text};
use crate::time::Instant;
use vstd::prelude::*;
use vstd::string::*;

verus! {

/// The pipelines, at most one for a symbol, in the order in which they
/// were added; the cascade scheduler; and whether the pipelines of the
/// last session have been restored.
pub struct MarketDataEngine {
    pub pipelines: Vec<AssetPipeline>,
    pub cascade_scheduler: CascadeScheduler,
    pub restore_completed: bool,
}

/// Whether `pipelines` holds a pipeline for `symbol`.
pub open spec fn has_pipeline(pipelines: Seq<AssetPipeline>, symbol: Seq<char>) -> bool {
    exists|i: int| 0 <= i < pipelines.len() && (#[trigger] pipelines[i]).config.symbol@ == symbol
}

/// No two pipelines are for the same symbol.
pub open spec fn distinct_symbols(pipelines: Seq<AssetPipeline>) -> bool {
    forall|i: int, j: int|
        0 <= i < pipelines.len() && 0 <= j < pipelines.len() && i != j ==> (
        #[trigger] pipelines[i]).config.symbol@ != (#[trigger] pipelines[j]).config.symbol@
}

/// The source that the engine picks for a class when the caller names
/// none: the first of those that the classification lists.
pub open spec fn default_source(class: AssetClass) -> DataSourceView {
    match class {
        AssetClass::Forex => DataSourceView::Oanda {
            account_id: Seq::empty(),
            api_token: Seq::empty(),
        },
        AssetClass::Crypto => DataSourceView::Kraken { api_key: None, api_secret: None },
        _ => DataSourceView::Alpaca { api_key: Seq::empty(), api_secret: Seq::empty() },
    }
}

/// The source of a new pipeline: the one that the caller names, else the
/// default of the class.
pub open spec fn chosen_source(named: Option<DataSource>, class: AssetClass) -> DataSourceView {
    match named {
        Some(source) => source@,
        None => default_source(class),
    }
}

/// Whether a source lacks a credential without which no connection can
/// be made.
pub open spec fn lacks_credentials(source: DataSourceView) -> bool {
    source matches DataSourceView::Oanda { account_id, api_token } && (account_id.len() == 0
        || api_token.len() == 0)
}

/// Why a pipeline for `symbol` cannot be added, if it cannot: the symbol
/// has one already, the symbol is of no known class, the source has no
/// adapter, or the source lacks its credentials.
pub open spec fn add_refusal(
    pipelines: Seq<AssetPipeline>,
    symbol: Seq<char>,
    named: Option<DataSource>,
) -> Option<Seq<char>> {
    let upper = uppercase_text(symbol);
    if has_pipeline(pipelines, symbol) {
        Some("Pipeline already exists for symbol: "@ + symbol)
    } else if class_of(upper) is None {
        Some("Unable to identify asset type for symbol: "@ + upper)
    } else if !has_adapter(chosen_source(named, class_of(upper)->0)) {
        Some("Ingester not implemented for this source"@)
    } else if lacks_credentials(chosen_source(named, class_of(upper)->0)) {
        Some(MISSING_CREDENTIALS@)
    } else {
        None
    }
}

/// Whether `pipeline` is what `add_asset` adds for these arguments: its
/// configuration follows from the class of the symbol and the source, it
/// holds the adapter of the source, and it is `Starting`.
pub open spec fn is_added_pipeline(
    pipeline: AssetPipeline,
    symbol: Seq<char>,
    named: Option<DataSource>,
    profile_id: Option<String>,
    profile_name: Option<String>,
) -> bool {
    let class = class_of(uppercase_text(symbol))->0;
    let source = chosen_source(named, class);
    &&& is_config_of(pipeline.config, symbol, class, source)
    &&& pipeline.config.profile_id == profile_id
    &&& pipeline.config.profile_name == profile_name
    &&& pipeline.status is Starting
    &&& pipeline.ingester matches Some(adapter)
    &&& is_adapter_of(adapter, symbol, source)
}

proof fn lemma_first_source_is_default(info: AssetInfo, symbol: Seq<char>)
    requires
        describes(info, symbol),
    ensures
        info.available_sources@.len() > 0,
        info.available_sources@[0]@ == default_source(info.class),
{
    match info.class {
        AssetClass::Forex => {
            let first = info.available_sources@[0];
            assert(first->Oanda_account_id@ =~= Seq::<char>::empty());
            assert(first->Oanda_api_token@ =~= Seq::<char>::empty());
        },
        AssetClass::Crypto => {},
        _ => {
            let first = info.available_sources@[0];
            assert(first->Alpaca_api_key@ =~= Seq::<char>::empty());
            assert(first->Alpaca_api_secret@ =~= Seq::<char>::empty());
        },
    }
}

impl MarketDataEngine {
    /// No two pipelines are for the same symbol.
    pub open spec fn wf(&self) -> bool {
        distinct_symbols(self.pipelines@)
    }

    /// An engine without pipelines.
    pub fn new() -> (engine: Self)
        ensures
            engine.wf(),
            engine.pipelines@.len() == 0,
            engine.cascade_scheduler@ == Map::<Seq<char>, CascadeTask>::empty(),
            !engine.restore_completed,
    {
        MarketDataEngine {
            pipelines: Vec::new(),
            cascade_scheduler: CascadeScheduler::new(),
            restore_completed: false,
        }
    }

    /// Whether no two pipelines are for the same symbol, as every function
    /// of the engine leaves it.
    pub fn is_consistent(&self) -> (b: bool)
        ensures
            b == self.wf(),
    {
        let mut j: usize = 0;
        while j < self.pipelines.len()
            invariant
                j <= self.pipelines.len(),
                forall|a: int, b: int|
                    0 <= a < b < j ==> (#[trigger] self.pipelines@[a]).config.symbol@ != (
                    #[trigger] self.pipelines@[b]).config.symbol@,
            decreases self.pipelines.len() - j,
        {
            let mut i: usize = 0;
            while i < j
                invariant
                    i <= j < self.pipelines.len(),
                    forall|a: int|
                        0 <= a < i ==> (#[trigger] self.pipelines@[a]).config.symbol@
                            != self.pipelines@[j as int].config.symbol@,
                decreases j - i,
            {
                if text_eq(
                    self.pipelines[i].config.symbol.as_str(),
                    self.pipelines[j].config.symbol.as_str(),
                ) {
                    return false;
                }
                i += 1;
            }
            j += 1;
        }
        proof {
            assert forall|a: int, b: int|
                0 <= a < self.pipelines@.len() && 0 <= b < self.pipelines@.len() && a
                    != b implies (#[trigger] self.pipelines@[a]).config.symbol@ != (
            #[trigger] self.pipelines@[b]).config.symbol@ by {
                if a < b {
                } else {
                    assert(self.pipelines@[b].config.symbol@ != self.pipelines@[a].config.symbol@);
                }
            }
        }
        true
    }

    /// Where the pipeline of `symbol` stands.
    pub fn position(&self, symbol: &str) -> (at: Option<usize>)
        ensures
            match at {
                Some(i) => i < self.pipelines@.len() && self.pipelines@[i as int].config.symbol@
                    == symbol@,
                None => !has_pipeline(self.pipelines@, symbol@),
            },
    {
        let mut i: usize = 0;
        while i < self.pipelines.len()
            invariant
                i <= self.pipelines.len(),
                forall|j: int|
                    0 <= j < i ==> (#[trigger] self.pipelines@[j]).config.symbol@ != symbol@,
            decreases self.pipelines.len() - i,
        {
            if text_eq(self.pipelines[i].config.symbol.as_str(), symbol) {
                return Some(i);
            }
            i += 1;
        }
        None
    }

    /// The first of the sources that are available for an asset.
    pub fn select_best_source(&self, asset_info: &AssetInfo) -> (r: Result<DataSource, String>)
        ensures
            match r {
                Ok(source) => asset_info.available_sources@.len() > 0 && source
                    == asset_info.available_sources@[0],
                Err(why) => asset_info.available_sources@.len() == 0 && why@
                    == "No available sources for asset"@,
            },
    {
        if asset_info.available_sources.len() > 0 {
            Ok(asset_info.available_sources[0].clone())
        } else {
            Err(String::from_str("No available sources for asset"))
        }
    }

    /// Adds a pipeline for a symbol and begins its start: classifies the
    /// symbol, picks the source, builds the configuration and the adapter.
    /// A symbol that has a pipeline is refused, and so is a source without
    /// adapter or without its credentials. The new pipeline is
    /// `Starting`; `launch` makes it run once its adapter is connected,
    /// `remove_pipeline` takes it out if that fails.
    pub fn add_asset(
        &mut self,
        symbol: String,
        source: Option<DataSource>,
        profile_id: Option<String>,
        profile_name: Option<String>,
    ) -> (r: Result<(), String>)
        requires
            old(self).wf(),
        ensures
            final(self).wf(),
            final(self).cascade_scheduler == old(self).cascade_scheduler,
            final(self).restore_completed == old(self).restore_completed,
            match r {
                Ok(_) => {
                    &&& add_refusal(old(self).pipelines@, symbol@, source) is None
                    &&& final(self).pipelines@.len() == old(self).pipelines@.len() + 1
                    &&& final(self).pipelines@.drop_last() == old(self).pipelines@
                    &&& is_added_pipeline(
                        final(self).pipelines@.last(),
                        symbol@,
                        source,
                        profile_id,
                        profile_name,
                    )
                },
                Err(why) => {
                    &&& add_refusal(old(self).pipelines@, symbol@, source) == Some(why@)
                    &&& final(self).pipelines == old(self).pipelines
                },
            },
    {
        if self.position(symbol.as_str()).is_some() {
            return Err(join2("Pipeline already exists for symbol: ", symbol.as_str()));
        }
        let info = match AssetDiscovery::identify(symbol.as_str()) {
            Ok(info) => info,
            Err(why) => {
                return Err(why);
            },
        };
        proof {
            lemma_first_source_is_default(info, uppercase_text(symbol@));
        }
        let selected = match source {
            Some(named) => named,
            None => match self.select_best_source(&info) {
                Ok(first) => first,
                Err(why) => {
                    return Err(why);
                },
            },
        };
        let built = PipelineBuilder::new().symbol(symbol.as_str()).asset_info(&info).source(
            selected,
        ).build();
        let mut config = match built {
            Ok(config) => config,
            Err(why) => {
                return Err(why);
            },
        };
        config.profile_id = profile_id;
        config.profile_name = profile_name;
        let ingester = match create_ingester(&config) {
            Ok(ingester) => ingester,
            Err(why) => {
                return Err(why);
            },
        };
        if let Some(why) = ingester.configuration_fault() {
            return Err(String::from_str(why));
        }
        let mut pipeline = AssetPipeline::new(config, ingester);
        let _ = pipeline.start();
        let ghost before = self.pipelines@;
        self.pipelines.push(pipeline);
        proof {
            let after = self.pipelines@;
            assert(after.drop_last() =~= before);
            assert forall|i: int, j: int|
                0 <= i < after.len() && 0 <= j < after.len() && i != j implies (
            #[trigger] after[i]).config.symbol@ != (#[trigger] after[j]).config.symbol@ by {
                if i < before.len() {
                    assert(after[i] == before[i]);
                }
                if j < before.len() {
                    assert(after[j] == before[j]);
                }
            }
        }
        Ok(())
    }

    /// Makes the pipeline of `symbol` run, once its adapter is connected
    /// and subscribed, and hands out its ingestion loop.
    pub fn launch(&mut self, symbol: &str, now: Instant, clock_millis: u64) -> (r: Result<
        IngestionLoop,
        String,
    >)
        requires
            old(self).wf(),
        ensures
            final(self).wf(),
            final(self).cascade_scheduler == old(self).cascade_scheduler,
            final(self).restore_completed == old(self).restore_completed,
            final(self).pipelines@.len() == old(self).pipelines@.len(),
            !has_pipeline(old(self).pipelines@, symbol@) ==> {
                &&& final(self).pipelines == old(self).pipelines
                &&& r matches Err(why)
                &&& why@ == "Pipeline not found for symbol: "@ + symbol@
            },
            has_pipeline(old(self).pipelines@, symbol@) ==> exists|i: int|
                0 <= i < old(self).pipelines@.len() && {
                    let before = #[trigger] old(self).pipelines@[i];
                    let after = final(self).pipelines@[i];
                    &&& before.config.symbol@ == symbol@
                    &&& final(self).pipelines@ == old(self).pipelines@.update(i, after)
                    &&& after.config == before.config
                    &&& before.status.stays_or_follows(after.status)
                    &&& (r is Ok <==> before.status is Starting && before.ingester is Some)
                    &&& r matches Ok(run) ==> {
                        &&& after.status == (PipelineStatus::Running {
                            connected: true,
                            last_tick: Some(now),
                        })
                        &&& after.ingester is None
                        &&& run.adapter == before.ingester->0
                        &&& run.symbol@ == symbol@
                        &&& run.tick_table@ == before.config.tick_table@
                        &&& run.writer.wf()
                        &&& run.writer.buffer@.len() == 0
                        &&& run.writer.last_flush == clock_millis
                    }
                    &&& r is Err ==> after == before
                },
    {
        let at = match self.position(symbol) {
            Some(at) => at,
            None => {
                return Err(join2("Pipeline not found for symbol: ", symbol));
            },
        };
        let ghost before = self.pipelines@;
        let mut pipeline = self.pipelines.remove(at);
        let r = pipeline.launch(now, clock_millis);
        self.pipelines.insert(at, pipeline);
        proof {
            assert(self.pipelines@ =~= before.update(at as int, pipeline));
            assert(before[at as int].config.symbol@ == symbol@);
        }
        r
    }

    /// Takes the pipeline of `symbol` out of the registry and stops it. Its
    /// ingestion loop halts at its next event.
    pub fn remove_pipeline(&mut self, symbol: &str) -> (r: Result<AssetPipeline, String>)
        requires
            old(self).wf(),
        ensures
            final(self).wf(),
            final(self).cascade_scheduler == old(self).cascade_scheduler,
            final(self).restore_completed == old(self).restore_completed,
            !has_pipeline(final(self).pipelines@, symbol@),
            match r {
                Ok(removed) => exists|i: int|
                    0 <= i < old(self).pipelines@.len() && {
                        let before = #[trigger] old(self).pipelines@[i];
                        &&& before.config.symbol@ == symbol@
                        &&& final(self).pipelines@ == old(self).pipelines@.remove(i)
                        &&& removed.config == before.config
                        &&& removed.ingester == before.ingester
                        &&& before.status.stays_or_follows(removed.status)
                        &&& before.status is Running ==> removed.status is Stopped
                        &&& !(before.status is Running) ==> removed.status == before.status
                    },
                Err(why) => {
                    &&& !has_pipeline(old(self).pipelines@, symbol@)
                    &&& final(self).pipelines == old(self).pipelines
                    &&& why@ == "Pipeline not found for symbol: "@ + symbol@
                },
            },
    {
        let at = match self.position(symbol) {
            Some(at) => at,
            None => {
                return Err(join2("Pipeline not found for symbol: ", symbol));
            },
        };
        let ghost before = self.pipelines@;
        let mut pipeline = self.pipelines.remove(at);
        let adapter = pipeline.stop();
        pipeline.ingester = adapter;
        proof {
            let after = self.pipelines@;
            assert(after == before.remove(at as int));
            assert forall|i: int, j: int|
                0 <= i < after.len() && 0 <= j < after.len() && i != j implies (
            #[trigger] after[i]).config.symbol@ != (#[trigger] after[j]).config.symbol@ by {
                let a = if i < at { i } else { i + 1 };
                let b = if j < at { j } else { j + 1 };
                assert(after[i] == before[a] && after[j] == before[b]);
            }
            assert forall|i: int| 0 <= i < after.len() implies (
            #[trigger] after[i]).config.symbol@ != symbol@ by {
                let a = if i < at { i } else { i + 1 };
                assert(after[i] == before[a]);
                assert(before[a].config.symbol@ != before[at as int].config.symbol@);
            }
            assert(before[at as int].config.symbol@ == symbol@);
        }
        Ok(pipeline)
    }

    /// Hands an event of the ingestion loop of `symbol` to the loop, which
    /// updates the status of the pipeline. A loop whose pipeline is no
    /// longer in the registry halts.
    pub fn on_loop_event(
        &mut self,
        symbol: &str,
        run: &mut IngestionLoop,
        event: LoopEvent,
        clock_millis: u64,
    ) -> (action: LoopAction)
        requires
            old(self).wf(),
            old(run).writer.wf(),
        ensures
            final(self).wf(),
            final(run).writer.wf(),
            final(self).cascade_scheduler == old(self).cascade_scheduler,
            final(self).restore_completed == old(self).restore_completed,
            final(self).pipelines@.len() == old(self).pipelines@.len(),
            !has_pipeline(old(self).pipelines@, symbol@) ==> {
                &&& action is Halt
                &&& final(self).pipelines == old(self).pipelines
                &&& *final(run) == *old(run)
            },
            has_pipeline(old(self).pipelines@, symbol@) ==> exists|i: int|
                0 <= i < old(self).pipelines@.len() && {
                    let before = #[trigger] old(self).pipelines@[i];
                    let after = final(self).pipelines@[i];
                    &&& before.config.symbol@ == symbol@
                    &&& final(self).pipelines@ == old(self).pipelines@.update(i, after)
                    &&& after.config == before.config
                    &&& after.ingester == before.ingester
                    &&& before.status.stays_or_follows(after.status)
                    &&& loop_step(
                        *old(run),
                        before.status,
                        event,
                        clock_millis,
                        *final(run),
                        after.status,
                        action,
                    )
                },
    {
        let at = match self.position(symbol) {
            Some(at) => at,
            None => {
                return LoopAction::Halt;
            },
        };
        let ghost before = self.pipelines@;
        let mut pipeline = self.pipelines.remove(at);
        let action = run.on_event(&mut pipeline.status, event, clock_millis);
        self.pipelines.insert(at, pipeline);
        proof {
            assert(self.pipelines@ =~= before.update(at as int, pipeline));
            assert(before[at as int].config.symbol@ == symbol@);
        }
        action
    }

    /// What is reported of the pipeline of `symbol`.
    pub fn get_status(&self, symbol: &str) -> (r: Result<PipelineStatusResponse, String>)
        ensures
            match r {
                Ok(response) => exists|i: int|
                    0 <= i < self.pipelines@.len() && (
                    #[trigger] self.pipelines@[i]).config.symbol@ == symbol@ && reports(
                        response,
                        self.pipelines@[i],
                    ),
                Err(why) => !has_pipeline(self.pipelines@, symbol@) && why@
                    == "Pipeline not found for symbol: "@ + symbol@,
            },
    {
        match self.position(symbol) {
            Some(at) => Ok(status_response(&self.pipelines[at])),
            None => Err(join2("Pipeline not found for symbol: ", symbol)),
        }
    }

    /// What is reported of every pipeline, in the order of the registry.
    pub fn list_statuses(&self) -> (list: Vec<PipelineStatusResponse>)
        ensures
            list@.len() == self.pipelines@.len(),
            forall|i: int|
                0 <= i < list@.len() ==> reports(#[trigger] list@[i], self.pipelines@[i]),
    {
        let mut list: Vec<PipelineStatusResponse> = Vec::new();
        let mut i: usize = 0;
        while i < self.pipelines.len()
            invariant
                i <= self.pipelines.len(),
                list@.len() == i,
                forall|j: int| 0 <= j < i ==> reports(#[trigger] list@[j], self.pipelines@[j]),
            decreases self.pipelines.len() - i,
        {
            list.push(status_response(&self.pipelines[i]));
            i += 1;
        }
        list
    }

    /// The pipelines of the last session are back: from now on the
    /// bookkeeping may be saved.
    pub fn mark_restore_completed(&mut self)
        ensures
            final(self).restore_completed,
            final(self).pipelines == old(self).pipelines,
            final(self).cascade_scheduler == old(self).cascade_scheduler,
    {
        self.restore_completed = true;
    }

    /// The bookkeeping of the engine as of `saved_at`: one entry for each
    /// pipeline, in the order of the registry.
    pub fn snapshot(&self, saved_at: &str, clean_shutdown: bool) -> (file: PipelineConfigFile)
        ensures
            file.version == 1,
            file.saved_at@ == saved_at@,
            file.clean_shutdown == clean_shutdown,
            file.pipelines@.len() == self.pipelines@.len(),
            forall|i: int|
                0 <= i < file.pipelines@.len() ==> records(
                    #[trigger] file.pipelines@[i],
                    self.pipelines@[i],
                    saved_at@,
                ),
    {
        let mut entries: Vec<crate::market_data::commands::PipelineConfig> = Vec::new();
        let mut i: usize = 0;
        while i < self.pipelines.len()
            invariant
                i <= self.pipelines.len(),
                entries@.len() == i,
                forall|j: int|
                    0 <= j < i ==> records(#[trigger] entries@[j], self.pipelines@[j], saved_at@),
            decreases self.pipelines.len() - i,
        {
            entries.push(pipeline_record(&self.pipelines[i], saved_at));
            i += 1;
        }
        PipelineConfigFile {
            version: 1,
            pipelines: entries,
            saved_at: String::from_str(saved_at),
            clean_shutdown,
        }
    }
}

} // verus!
