//! What the command layer asks of the engine and what it is answered: the
//! requests and responses, and the decisions taken on a request.

use crate::market_data::gaps::{latest, latest_tick, list_gaps, lists_gaps, Gap};
use crate::market_data::{
    clone_optional, text_of, AssetPipeline, DataSource, DataSourceView, PipelineStatus,
};
use crate::text::{join2, text_eq};
use crate::time::{
    format_rfc3339, minutes_between, parse_rfc3339, rfc3339_instant, rfc3339_text, whole_minutes,
    Instant,
};
use vstd::prelude::*;
use vstd::string::*;

verus! {

/// How far back a gap report looks: 30 days.
pub const REPORT_SPAN: i64 = 2_592_000_000_000;

/// Gaps that a report lists at most.
pub const REPORT_LIMIT: usize = 10;

/// The request to add a pipeline for a symbol.
#[derive(Debug)]
pub struct AddAssetRequest {
    pub symbol: String,
    /// "kraken", "oanda", or nothing to let the engine choose.
    pub source: Option<String>,
    pub account_id: Option<String>,
    pub api_token: Option<String>,
    /// Broker profile to use.
    pub profile_id: Option<String>,
    /// RFC 3339 time from which to catch up.
    pub catchup_from: Option<String>,
}

/// One asset that a search found.
#[derive(Debug)]
pub struct AssetSearchResult {
    pub symbol: String,
    pub name: String,
    pub asset_class: String,
    pub available_sources: Vec<String>,
    pub is_available: bool,
}

/// What is reported of a pipeline.
#[derive(Debug)]
pub struct PipelineStatusResponse {
    pub symbol: String,
    pub status: String,
    pub connected: bool,
    pub last_tick: Option<String>,
    pub source: String,
}

/// The bookkeeping that is kept across restarts.
#[derive(Debug)]
pub struct PipelineConfigFile {
    pub version: u32,
    pub pipelines: Vec<PipelineConfig>,
    pub saved_at: String,
    pub clean_shutdown: bool,
}

/// One pipeline in the bookkeeping.
#[derive(Debug)]
pub struct PipelineConfig {
    pub symbol: String,
    pub source: String,
    pub asset_class: String,
    pub added_at: String,
    pub last_tick: Option<String>,
    pub profile_id: Option<String>,
    pub profile_name: Option<String>,
}

/// The gap report of a symbol.
#[derive(Debug)]
pub struct DataGapInfo {
    pub symbol: String,
    pub has_data: bool,
    pub last_tick: Option<String>,
    pub gap_minutes: Option<i64>,
    pub gaps: Vec<GapPeriod>,
}

/// One gap of a report: the ticks that bound it.
pub type GapPeriod = Gap;

/// Whether the request names `name` as its source.
pub open spec fn names_source(request: AddAssetRequest, name: Seq<char>) -> bool {
    request.source matches Some(source) && source@ == name
}

/// Whether the request carries both OANDA credentials.
pub open spec fn has_oanda_credentials(request: AddAssetRequest) -> bool {
    &&& request.account_id matches Some(account_id)
    &&& request.api_token matches Some(api_token)
    &&& account_id@.len() > 0
    &&& api_token@.len() > 0
}

/// The source that a request asks for: Kraken without keys, OANDA with the
/// credentials of the request, or none, which leaves the choice to the
/// engine. OANDA without both credentials is refused.
pub fn resolve_source(request: &AddAssetRequest) -> (r: Result<Option<DataSource>, String>)
    ensures
        names_source(*request, "kraken"@) ==> (r matches Ok(Some(source)) && source@
            == DataSourceView::Kraken { api_key: None, api_secret: None }),
        !names_source(*request, "kraken"@) && names_source(*request, "oanda"@)
            && has_oanda_credentials(*request) ==> (r matches Ok(Some(source)) && source@ == (
        DataSourceView::Oanda {
            account_id: request.account_id->0@,
            api_token: request.api_token->0@,
        })),
        !names_source(*request, "kraken"@) && names_source(*request, "oanda"@)
            && !has_oanda_credentials(*request) ==> (r matches Err(why) && why@
            == "OANDA requires account_id and api_token"@),
        !names_source(*request, "kraken"@) && !names_source(*request, "oanda"@) ==> r == Ok::<
            Option<DataSource>,
            String,
        >(None),
{
    let name = match &request.source {
        Some(name) => name,
        None => {
            return Ok(None);
        },
    };
    if text_eq(name.as_str(), "kraken") {
        return Ok(Some(DataSource::Kraken { api_key: None, api_secret: None }));
    }
    if !text_eq(name.as_str(), "oanda") {
        return Ok(None);
    }
    match (&request.account_id, &request.api_token) {
        (Some(account_id), Some(api_token)) => {
            if account_id.as_str().unicode_len() > 0 && api_token.as_str().unicode_len() > 0 {
                Ok(
                    Some(
                        DataSource::Oanda {
                            account_id: account_id.clone(),
                            api_token: api_token.clone(),
                        },
                    ),
                )
            } else {
                Err(String::from_str("OANDA requires account_id and api_token"))
            }
        },
        _ => Err(String::from_str("OANDA requires account_id and api_token")),
    }
}

/// Where a catch-up that the request asks for starts: at the time it
/// names, if that lies more than one whole minute before `now`.
pub open spec fn catchup_from(named: Option<i64>, now: i64) -> Option<i64> {
    match named {
        Some(from) => if whole_minutes(from as int, now as int) > 1 {
            Some(from)
        } else {
            None
        },
        None => None,
    }
}

/// Where a catch-up starts, given the instant that the request names.
pub fn catchup_start(named: Option<Instant>, now: Instant) -> (r: Option<Instant>)
    ensures
        r == catchup_from(named, now),
{
    match named {
        Some(from) => if minutes_between(from, now) > 1 {
            Some(from)
        } else {
            None
        },
        None => None,
    }
}

/// Where a catch-up starts, given the text that the request names; a text
/// that is no RFC 3339 time asks for none.
pub fn explicit_catchup(text: &str, now: Instant) -> (r: Option<Instant>)
    ensures
        r == catchup_from(rfc3339_instant(text@), now),
{
    catchup_start(parse_rfc3339(text), now)
}

/// The word for a status.
pub open spec fn status_text(status: PipelineStatus) -> Seq<char> {
    match status {
        PipelineStatus::Stopped => "stopped"@,
        PipelineStatus::Starting => "starting"@,
        PipelineStatus::Running { .. } => "running"@,
        PipelineStatus::Error { message } => "error: "@ + message@,
    }
}

/// The time of the last tick of a running pipeline.
pub open spec fn last_tick_of(status: PipelineStatus) -> Option<i64> {
    match status {
        PipelineStatus::Running { last_tick, .. } => last_tick,
        _ => None,
    }
}

/// The text of the last tick of a running pipeline, where it has one that
/// can be written.
pub open spec fn last_tick_text(status: PipelineStatus) -> Option<Seq<char>> {
    match last_tick_of(status) {
        Some(t) => rfc3339_text(t),
        None => None,
    }
}

/// Whether a pipeline runs and is connected.
pub open spec fn is_connected(status: PipelineStatus) -> bool {
    status matches PipelineStatus::Running { connected, .. } && connected
}

/// Whether `response` reports the status of the pipeline `pipeline`.
pub open spec fn reports(response: PipelineStatusResponse, pipeline: AssetPipeline) -> bool {
    &&& response.symbol@ == pipeline.config.symbol@
    &&& response.status@ == status_text(pipeline.status)
    &&& response.connected == is_connected(pipeline.status)
    &&& text_of(response.last_tick) == last_tick_text(pipeline.status)
    &&& response.source@ == pipeline.config.source.name()
}

fn written_last_tick(status: &PipelineStatus) -> (r: Option<String>)
    ensures
        text_of(r) == last_tick_text(*status),
{
    match status {
        PipelineStatus::Running { last_tick: Some(t), .. } => format_rfc3339(*t),
        _ => None,
    }
}

/// What is reported of a pipeline.
pub fn status_response(pipeline: &AssetPipeline) -> (response: PipelineStatusResponse)
    ensures
        reports(response, *pipeline),
{
    let (status, connected) = match &pipeline.status {
        PipelineStatus::Stopped => (String::from_str("stopped"), false),
        PipelineStatus::Starting => (String::from_str("starting"), false),
        PipelineStatus::Running { connected, .. } => (String::from_str("running"), *connected),
        PipelineStatus::Error { message } => (join2("error: ", message.as_str()), false),
    };
    PipelineStatusResponse {
        symbol: pipeline.config.symbol.clone(),
        status,
        connected,
        last_tick: written_last_tick(&pipeline.status),
        source: String::from_str(pipeline.config.source.source_name()),
    }
}

/// Whether `record` is the entry of `pipeline` in a bookkeeping written at
/// `saved_at`.
pub open spec fn records(record: PipelineConfig, pipeline: AssetPipeline, saved_at: Seq<char>)
    -> bool {
    &&& record.symbol@ == pipeline.config.symbol@
    &&& record.source@ == pipeline.config.source.name()
    &&& record.asset_class@ == pipeline.config.asset_class.prefix()
    &&& record.added_at@ == saved_at
    &&& text_of(record.last_tick) == last_tick_text(pipeline.status)
    &&& text_of(record.profile_id) == text_of(pipeline.config.profile_id)
    &&& text_of(record.profile_name) == text_of(pipeline.config.profile_name)
}

/// The entry of a pipeline in the bookkeeping.
pub fn pipeline_record(pipeline: &AssetPipeline, saved_at: &str) -> (record: PipelineConfig)
    ensures
        records(record, *pipeline, saved_at@),
{
    PipelineConfig {
        symbol: pipeline.config.symbol.clone(),
        source: String::from_str(pipeline.config.source.source_name()),
        asset_class: String::from_str(pipeline.config.asset_class.table_prefix()),
        added_at: String::from_str(saved_at),
        last_tick: written_last_tick(&pipeline.status),
        profile_id: clone_optional(&pipeline.config.profile_id),
        profile_name: clone_optional(&pipeline.config.profile_name),
    }
}

/// The bookkeeping of a first start, when nothing was saved: no pipeline,
/// and a clean shutdown.
pub fn empty_config_file(saved_at: &str) -> (file: PipelineConfigFile)
    ensures
        file.version == 1,
        file.pipelines@.len() == 0,
        file.saved_at@ == saved_at@,
        file.clean_shutdown,
{
    PipelineConfigFile {
        version: 1,
        pipelines: Vec::new(),
        saved_at: String::from_str(saved_at),
        clean_shutdown: true,
    }
}

/// Microseconds from the start of a gap to its end.
pub open spec fn gap_size(gap: Gap) -> int {
    gap.end - gap.start
}

/// Where the largest gap stands: the first of those that are largest.
pub open spec fn largest_at(gaps: Seq<Gap>) -> int
    decreases gaps.len(),
{
    if gaps.len() <= 1 {
        0
    } else {
        let among_rest = largest_at(gaps.drop_last());
        if gap_size(gaps.last()) > gap_size(gaps[among_rest]) {
            gaps.len() - 1
        } else {
            among_rest
        }
    }
}

/// The `limit` largest gaps, the largest first; of two gaps of one size
/// the one that stands first in `gaps` comes first.
pub open spec fn largest_first(gaps: Seq<Gap>, limit: nat) -> Seq<Gap>
    decreases limit,
{
    if limit == 0 || gaps.len() == 0 {
        Seq::empty()
    } else {
        seq![gaps[largest_at(gaps)]] + largest_first(
            gaps.remove(largest_at(gaps)),
            (limit - 1) as nat,
        )
    }
}

fn largest_position(gaps: &Vec<Gap>) -> (at: usize)
    requires
        gaps@.len() > 0,
    ensures
        at == largest_at(gaps@),
        at < gaps@.len(),
{
    let mut best: usize = 0;
    let mut i: usize = 1;
    proof {
        assert(largest_at(gaps@.take(1)) == 0);
    }
    while i < gaps.len()
        invariant
            1 <= i <= gaps.len(),
            best < i,
            best == largest_at(gaps@.take(i as int)),
        decreases gaps.len() - i,
    {
        proof {
            assert(gaps@.take(i + 1).drop_last() =~= gaps@.take(i as int));
            assert(gaps@.take(i + 1).last() == gaps@[i as int]);
            assert(gaps@.take(i + 1)[best as int] == gaps@[best as int]);
        }
        let size = gaps[i].end as i128 - gaps[i].start as i128;
        let best_size = gaps[best].end as i128 - gaps[best].start as i128;
        if size > best_size {
            best = i;
        }
        i += 1;
    }
    proof {
        assert(gaps@.take(gaps@.len() as int) =~= gaps@);
    }
    best
}

/// The `limit` largest of `gaps`, the largest first.
pub fn largest_gaps(gaps: Vec<Gap>, limit: usize) -> (r: Vec<Gap>)
    ensures
        r@ == largest_first(gaps@, limit as nat),
{
    let mut rest = gaps;
    let mut out: Vec<Gap> = Vec::new();
    let mut left = limit;
    let ghost all = rest@;
    assert(out@ + largest_first(rest@, left as nat) =~= largest_first(all, limit as nat));
    while left > 0 && rest.len() > 0
        invariant
            out@ + largest_first(rest@, left as nat) == largest_first(all, limit as nat),
        decreases left,
    {
        let at = largest_position(&rest);
        let ghost before = rest@;
        let ghost taken = out@;
        let gap = rest.remove(at);
        out.push(gap);
        left = left - 1;
        proof {
            assert(largest_first(before, (left + 1) as nat) == seq![before[at as int]]
                + largest_first(before.remove(at as int), left as nat));
            assert(out@ + largest_first(rest@, left as nat) =~= taken + largest_first(
                before,
                (left + 1) as nat,
            ));
        }
    }
    proof {
        assert(largest_first(rest@, left as nat) =~= Seq::<Gap>::empty());
        assert(out@ + Seq::<Gap>::empty() =~= out@);
    }
    out
}

/// Whether `info` is the gap report of a history at `now`: whether there
/// is data, the latest tick and its age in whole minutes, and the ten
/// largest gaps of the last 30 days, the largest first.
pub open spec fn is_gap_report(info: DataGapInfo, symbol: Seq<char>, times: Seq<i64>, now: i64)
    -> bool {
    &&& info.symbol@ == symbol
    &&& info.has_data == (times.len() > 0)
    &&& if times.len() == 0 {
        &&& info.last_tick is None
        &&& info.gap_minutes is None
        &&& info.gaps@.len() == 0
    } else {
        &&& text_of(info.last_tick) == rfc3339_text(latest(times) as i64)
        &&& info.gap_minutes == Some(whole_minutes(latest(times), now as int) as i64)
        &&& exists|all: Seq<Gap>|
            lists_gaps(times, now as int, REPORT_SPAN as int, all) && info.gaps@ == largest_first(
                all,
                REPORT_LIMIT as nat,
            )
    }
}

/// The gap report of a symbol, from the times of its stored ticks.
pub fn check_data_gaps(symbol: &str, times: &Vec<Instant>, now: Instant) -> (info: DataGapInfo)
    ensures
        is_gap_report(info, symbol@, times@, now),
{
    match latest_tick(times) {
        None => DataGapInfo {
            symbol: String::from_str(symbol),
            has_data: false,
            last_tick: None,
            gap_minutes: None,
            gaps: Vec::new(),
        },
        Some(last) => {
            let all = list_gaps(times, now, REPORT_SPAN);
            let ghost listed = all@;
            let gaps = largest_gaps(all, REPORT_LIMIT);
            let info = DataGapInfo {
                symbol: String::from_str(symbol),
                has_data: true,
                last_tick: format_rfc3339(last),
                gap_minutes: Some(minutes_between(last, now)),
                gaps,
            };
            assert(lists_gaps(times@, now as int, REPORT_SPAN as int, listed) && info.gaps@
                == largest_first(listed, REPORT_LIMIT as nat));
            info
        },
    }
}

} // verus!
