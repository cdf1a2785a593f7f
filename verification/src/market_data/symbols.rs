//! What is shown of a symbol: its label and the extent of its data.

use crate::candles::cache::{Cached, CacheKey, CacheKeyView};
use crate::candles::commands::{seconds_of, unix_seconds};
use crate::market_data::commands::{is_connected, last_tick_text};
use crate::market_data::{text_of, AssetPipeline, DataSource, PipelineStatus};
use crate::text::{chars_of, join3, text_eq};
use crate::time::{format_rfc3339, rfc3339_text, Instant};
use vstd::prelude::*;
use vstd::string::*;

verus! {

/// The extent of the data of a symbol, and when it was found out.
#[derive(Debug)]
pub struct CachedMetadata {
    pub metadata: SymbolMetadata,
    pub cached_at: i64,
}

impl Cached for CachedMetadata {
    open spec fn stamp(&self) -> i64 {
        self.cached_at
    }

    fn cached_at(&self) -> (t: i64) {
        self.cached_at
    }
}

/// The extent of the data of a symbol, in Unix seconds.
#[derive(Debug)]
pub struct SymbolMetadata {
    pub symbol: String,
    pub start_timestamp: i64,
    pub end_timestamp: i64,
    pub has_data: bool,
}

/// What is shown of a symbol.
#[derive(Debug)]
pub struct AvailableSymbol {
    pub symbol: String,
    pub label: String,
    pub has_data: bool,
    pub is_active: bool,
    pub last_tick: Option<String>,
    pub tick_count: Option<i64>,
    pub source: Option<String>,
}

/// The label of a symbol: a symbol of six characters with a slash in its
/// middle, any other symbol as it is.
pub open spec fn label_of(symbol: Seq<char>) -> Seq<char> {
    if symbol.len() == 6 {
        symbol.subrange(0, 3) + "/"@ + symbol.subrange(3, 6)
    } else {
        symbol
    }
}

/// The label of a symbol, such as EUR/USD for EURUSD.
pub fn format_symbol_label(symbol: &str) -> (label: String)
    ensures
        label@ == label_of(symbol@),
{
    if symbol.unicode_len() == 6 {
        join3(symbol.substring_char(0, 3), "/", symbol.substring_char(3, 6))
    } else {
        String::from_str(symbol)
    }
}

/// The key under which the metadata of a symbol is cached.
pub fn metadata_key(symbol: &str) -> (key: CacheKey)
    ensures
        key@ == (CacheKeyView { symbol: symbol@, resolution: Seq::empty(), start: 0, end: 0 }),
{
    CacheKey { symbol: String::from_str(symbol), resolution: String::new(), start: 0, end: 0 }
}

/// Whether `metadata` says of `symbol` what its first and last tick say,
/// where it has any.
pub open spec fn is_symbol_metadata(
    metadata: SymbolMetadata,
    symbol: Seq<char>,
    bounds: Option<(Instant, Instant)>,
) -> bool {
    &&& metadata.symbol@ == symbol
    &&& match bounds {
        Some((first, last)) => {
            &&& metadata.start_timestamp == seconds_of(first as int)
            &&& metadata.end_timestamp == seconds_of(last as int)
            &&& metadata.has_data
        },
        None => {
            &&& metadata.start_timestamp == 0
            &&& metadata.end_timestamp == 0
            &&& !metadata.has_data
        },
    }
}

/// The extent of the data of a symbol, from its first and last tick.
pub fn symbol_metadata(symbol: &str, bounds: Option<(Instant, Instant)>) -> (metadata:
    SymbolMetadata)
    ensures
        is_symbol_metadata(metadata, symbol@, bounds),
{
    match bounds {
        Some((first, last)) => SymbolMetadata {
            symbol: String::from_str(symbol),
            start_timestamp: unix_seconds(first),
            end_timestamp: unix_seconds(last),
            has_data: true,
        },
        None => SymbolMetadata {
            symbol: String::from_str(symbol),
            start_timestamp: 0,
            end_timestamp: 0,
            has_data: false,
        },
    }
}

/// What is cached of the extent of a symbol's data as of `now`, if the
/// symbol has any. That a symbol has no data is not cached.
pub fn cacheable_metadata(metadata: &SymbolMetadata, now: i64) -> (entry: Option<CachedMetadata>)
    ensures
        metadata.has_data <==> entry is Some,
        entry matches Some(cached) ==> cached.metadata == *metadata && cached.cached_at == now,
{
    if metadata.has_data {
        Some(CachedMetadata { metadata: clone_metadata(metadata), cached_at: now })
    } else {
        None
    }
}

/// A copy of metadata.
pub fn clone_metadata(metadata: &SymbolMetadata) -> (copy: SymbolMetadata)
    ensures
        copy == *metadata,
{
    SymbolMetadata {
        symbol: metadata.symbol.clone(),
        start_timestamp: metadata.start_timestamp,
        end_timestamp: metadata.end_timestamp,
        has_data: metadata.has_data,
    }
}

/// A symbol that has ticks in the store, and the time of its last tick.
#[derive(Debug)]
pub struct StoredSymbol {
    pub symbol: String,
    pub last_tick: Option<Instant>,
}

/// What is shown of a symbol, as characters.
pub struct SymbolView {
    pub symbol: Seq<char>,
    pub label: Seq<char>,
    pub has_data: bool,
    pub is_active: bool,
    pub last_tick: Option<Seq<char>>,
    pub tick_count: Option<i64>,
    pub source: Option<Seq<char>>,
}

impl View for AvailableSymbol {
    type V = SymbolView;

    open spec fn view(&self) -> SymbolView {
        SymbolView {
            symbol: self.symbol@,
            label: self.label@,
            has_data: self.has_data,
            is_active: self.is_active,
            last_tick: text_of(self.last_tick),
            tick_count: self.tick_count,
            source: text_of(self.source),
        }
    }
}

/// What each entry shows.
pub open spec fn views(entries: Seq<AvailableSymbol>) -> Seq<SymbolView> {
    Seq::new(entries.len(), |i: int| entries[i]@)
}

/// Whether `a` comes before `b` in the order of the dictionary, character
/// by character.
pub open spec fn text_before(a: Seq<char>, b: Seq<char>) -> bool
    decreases a.len(),
{
    if b.len() == 0 {
        false
    } else if a.len() == 0 {
        true
    } else if a[0] != b[0] {
        (a[0] as u32) < (b[0] as u32)
    } else {
        text_before(a.skip(1), b.skip(1))
    }
}

/// Where the entry of `symbol` stands among `entries` from `from` on; the
/// number of entries where it has none.
pub open spec fn place_of(entries: Seq<SymbolView>, symbol: Seq<char>, from: int) -> int
    decreases entries.len() - from,
{
    if from < 0 || from >= entries.len() {
        entries.len() as int
    } else if entries[from].symbol == symbol {
        from
    } else {
        place_of(entries, symbol, from + 1)
    }
}

/// Where the first entry from `from` on stands whose symbol comes after
/// `symbol`; the number of entries where there is none.
pub open spec fn rank_of(entries: Seq<SymbolView>, symbol: Seq<char>, from: int) -> int
    decreases entries.len() - from,
{
    if from < 0 || from >= entries.len() {
        entries.len() as int
    } else if text_before(symbol, entries[from].symbol) {
        from
    } else {
        rank_of(entries, symbol, from + 1)
    }
}

/// The entries with `entry` among them: in place of the entry of its
/// symbol, or, where the symbol has none, before the first entry whose
/// symbol comes after it.
pub open spec fn put(entries: Seq<SymbolView>, entry: SymbolView) -> Seq<SymbolView> {
    let at = place_of(entries, entry.symbol, 0);
    if at < entries.len() {
        entries.update(at, entry)
    } else {
        entries.insert(rank_of(entries, entry.symbol, 0), entry)
    }
}

/// What is shown of a symbol of the store: it has data and is not active.
pub open spec fn stored_entry(row: StoredSymbol) -> SymbolView {
    SymbolView {
        symbol: row.symbol@,
        label: label_of(row.symbol@),
        has_data: true,
        is_active: false,
        last_tick: match row.last_tick {
            Some(t) => rfc3339_text(t),
            None => None,
        },
        tick_count: None,
        source: Some("forex"@),
    }
}

/// What is shown of a pipeline whose symbol has no data in the store.
pub open spec fn pipeline_entry(pipeline: AssetPipeline) -> SymbolView {
    SymbolView {
        symbol: pipeline.config.symbol@,
        label: label_of(pipeline.config.symbol@),
        has_data: false,
        is_active: is_connected(pipeline.status),
        last_tick: last_tick_text(pipeline.status),
        tick_count: None,
        source: Some(pipeline.config.source.name()),
    }
}

/// The entries of the first `n` symbols of the store.
pub open spec fn with_stored(stored: Seq<StoredSymbol>, n: int) -> Seq<SymbolView>
    decreases n,
{
    if n <= 0 {
        Seq::empty()
    } else {
        put(with_stored(stored, n - 1), stored_entry(stored[n - 1]))
    }
}

/// The entries once a pipeline is taken into account: a symbol that has
/// an entry is as active as its pipeline is connected, and takes the last
/// tick of the pipeline if it has none itself; a symbol without entry
/// gets one. A pipeline fed by Coinbase is not shown.
pub open spec fn with_pipeline(entries: Seq<SymbolView>, pipeline: AssetPipeline) -> Seq<
    SymbolView,
> {
    let at = place_of(entries, pipeline.config.symbol@, 0);
    if pipeline.config.source is Coinbase {
        entries
    } else if at < entries.len() {
        entries.update(
            at,
            SymbolView {
                symbol: entries[at].symbol,
                label: entries[at].label,
                has_data: entries[at].has_data,
                is_active: is_connected(pipeline.status),
                last_tick: if entries[at].last_tick is None {
                    last_tick_text(pipeline.status)
                } else {
                    entries[at].last_tick
                },
                tick_count: entries[at].tick_count,
                source: entries[at].source,
            },
        )
    } else {
        put(entries, pipeline_entry(pipeline))
    }
}

/// The entries once the first `n` pipelines are taken into account.
pub open spec fn with_pipelines(entries: Seq<SymbolView>, pipelines: Seq<AssetPipeline>, n: int)
    -> Seq<SymbolView>
    decreases n,
{
    if n <= 0 {
        entries
    } else {
        with_pipeline(with_pipelines(entries, pipelines, n - 1), pipelines[n - 1])
    }
}

/// What is shown of the symbols of the store and of the pipelines.
pub open spec fn merged_symbols(stored: Seq<StoredSymbol>, pipelines: Seq<AssetPipeline>) -> Seq<
    SymbolView,
> {
    with_pipelines(with_stored(stored, stored.len() as int), pipelines, pipelines.len() as int)
}

/// Whether `a` comes before `b` in the order of the dictionary.
pub fn comes_before(a: &str, b: &str) -> (r: bool)
    ensures
        r == text_before(a@, b@),
{
    let x = chars_of(a);
    let y = chars_of(b);
    let mut i: usize = 0;
    assert(x@.skip(0) =~= x@ && y@.skip(0) =~= y@);
    loop
        invariant
            i <= x.len(),
            i <= y.len(),
            x@ == a@,
            y@ == b@,
            text_before(a@, b@) == text_before(x@.skip(i as int), y@.skip(i as int)),
        decreases x.len() - i,
    {
        if i >= y.len() {
            return false;
        }
        if i >= x.len() {
            return true;
        }
        if x[i] != y[i] {
            assert(x@.skip(i as int)[0] == x@[i as int]);
            assert(y@.skip(i as int)[0] == y@[i as int]);
            return (x[i] as u32) < (y[i] as u32);
        }
        proof {
            assert(x@.skip(i as int)[0] == x@[i as int]);
            assert(y@.skip(i as int)[0] == y@[i as int]);
            assert(x@.skip(i as int).skip(1) =~= x@.skip(i + 1));
            assert(y@.skip(i as int).skip(1) =~= y@.skip(i + 1));
        }
        i += 1;
    }
}

fn find_place(entries: &Vec<AvailableSymbol>, symbol: &str) -> (at: usize)
    ensures
        at == place_of(views(entries@), symbol@, 0),
        at <= entries@.len(),
        at < entries@.len() ==> entries@[at as int].symbol@ == symbol@,
{
    let mut i: usize = 0;
    while i < entries.len()
        invariant
            i <= entries.len(),
            place_of(views(entries@), symbol@, 0) == place_of(views(entries@), symbol@, i as int),
        decreases entries.len() - i,
    {
        if text_eq(entries[i].symbol.as_str(), symbol) {
            return i;
        }
        i += 1;
    }
    i
}

fn find_rank(entries: &Vec<AvailableSymbol>, symbol: &str) -> (at: usize)
    ensures
        at == rank_of(views(entries@), symbol@, 0),
        at <= entries@.len(),
{
    let mut i: usize = 0;
    while i < entries.len()
        invariant
            i <= entries.len(),
            rank_of(views(entries@), symbol@, 0) == rank_of(views(entries@), symbol@, i as int),
        decreases entries.len() - i,
    {
        if comes_before(symbol, entries[i].symbol.as_str()) {
            return i;
        }
        i += 1;
    }
    i
}

fn put_entry(entries: &mut Vec<AvailableSymbol>, entry: AvailableSymbol)
    ensures
        views(final(entries)@) == put(views(old(entries)@), entry@),
{
    let ghost before = entries@;
    let at = find_place(entries, entry.symbol.as_str());
    if at < entries.len() {
        entries.set(at, entry);
        assert(views(entries@) =~= views(before).update(at as int, entry@));
    } else {
        let rank = find_rank(entries, entry.symbol.as_str());
        entries.insert(rank, entry);
        assert(views(entries@) =~= views(before).insert(rank as int, entry@));
    }
}

fn written(time: &Option<Instant>) -> (r: Option<String>)
    ensures
        text_of(r) == (match *time {
            Some(t) => rfc3339_text(t),
            None => None,
        }),
{
    match time {
        Some(t) => format_rfc3339(*t),
        None => None,
    }
}

fn activity(status: &PipelineStatus) -> (r: (bool, Option<String>))
    ensures
        r.0 == is_connected(*status),
        text_of(r.1) == last_tick_text(*status),
{
    match status {
        PipelineStatus::Running { connected, last_tick } => (*connected, written(last_tick)),
        _ => (false, None),
    }
}

/// What is shown of the symbols of the store and of the pipelines, in the
/// order of their symbols.
pub fn available_symbols(stored: &Vec<StoredSymbol>, pipelines: &Vec<AssetPipeline>) -> (r: Vec<
    AvailableSymbol,
>)
    ensures
        views(r@) == merged_symbols(stored@, pipelines@),
{
    let mut entries: Vec<AvailableSymbol> = Vec::new();
    let mut i: usize = 0;
    assert(views(entries@) =~= with_stored(stored@, 0));
    while i < stored.len()
        invariant
            i <= stored.len(),
            views(entries@) == with_stored(stored@, i as int),
        decreases stored.len() - i,
    {
        let row = &stored[i];
        put_entry(
            &mut entries,
            AvailableSymbol {
                symbol: row.symbol.clone(),
                label: format_symbol_label(row.symbol.as_str()),
                has_data: true,
                is_active: false,
                last_tick: written(&row.last_tick),
                tick_count: None,
                source: Some(String::from_str("forex")),
            },
        );
        i += 1;
    }
    let ghost base = views(entries@);
    let mut j: usize = 0;
    while j < pipelines.len()
        invariant
            j <= pipelines.len(),
            views(entries@) == with_pipelines(base, pipelines@, j as int),
        decreases pipelines.len() - j,
    {
        let pipeline = &pipelines[j];
        let ghost before = entries@;
        let shown = match &pipeline.config.source {
            DataSource::Coinbase { .. } => false,
            _ => true,
        };
        if shown {
            let (is_active, last_tick) = activity(&pipeline.status);
            let at = find_place(&entries, pipeline.config.symbol.as_str());
            if at < entries.len() {
                let mut entry = entries.remove(at);
                entry.is_active = is_active;
                if entry.last_tick.is_none() {
                    entry.last_tick = last_tick;
                }
                entries.insert(at, entry);
                proof {
                    assert(views(entries@) =~= with_pipeline(views(before), *pipeline));
                }
            } else {
                put_entry(
                    &mut entries,
                    AvailableSymbol {
                        symbol: pipeline.config.symbol.clone(),
                        label: format_symbol_label(pipeline.config.symbol.as_str()),
                        has_data: false,
                        is_active,
                        last_tick,
                        tick_count: None,
                        source: Some(String::from_str(pipeline.config.source.source_name())),
                    },
                );
            }
        }
        j += 1;
    }
    entries
}

/// Every entry stands before those whose symbols come after its own.
pub open spec fn in_order(entries: Seq<SymbolView>) -> bool {
    forall|i: int, j: int|
        0 <= i < j < entries.len() ==> text_before(
            (#[trigger] entries[i]).symbol,
            (#[trigger] entries[j]).symbol,
        )
}

/// Of two texts that differ one comes before the other.
pub proof fn lemma_one_comes_first(a: Seq<char>, b: Seq<char>)
    ensures
        a == b || text_before(a, b) || text_before(b, a),
    decreases a.len(),
{
    if a.len() == 0 || b.len() == 0 {
        if a.len() == 0 && b.len() == 0 {
            assert(a =~= b);
        }
    } else if a[0] == b[0] {
        lemma_one_comes_first(a.skip(1), b.skip(1));
        if a.skip(1) == b.skip(1) {
            assert forall|i: int| 0 <= i < a.len() implies a[i] == b[i] by {
                if i > 0 {
                    assert(a.skip(1)[i - 1] == a[i]);
                    assert(b.skip(1)[i - 1] == b[i]);
                }
            }
            assert(a.skip(1).len() == a.len() - 1 && b.skip(1).len() == b.len() - 1);
            assert(a =~= b);
        }
    } else {
        let x = a[0] as u32;
        let y = b[0] as u32;
        if x == y {
            vstd::utf8::char_u32_cast(a[0], x);
            vstd::utf8::char_u32_cast(b[0], y);
        }
    }
}

/// What comes before a text comes before what comes after it.
pub proof fn lemma_before_is_transitive(a: Seq<char>, b: Seq<char>, c: Seq<char>)
    requires
        text_before(a, b),
        text_before(b, c),
    ensures
        text_before(a, c),
    decreases a.len(),
{
    if a.len() > 0 && b.len() > 0 && c.len() > 0 {
        if a[0] == b[0] && b[0] == c[0] {
            lemma_before_is_transitive(a.skip(1), b.skip(1), c.skip(1));
        }
    }
}

/// No text comes before itself.
pub proof fn lemma_before_is_strict(a: Seq<char>)
    ensures
        !text_before(a, a),
    decreases a.len(),
{
    if a.len() > 0 {
        lemma_before_is_strict(a.skip(1));
    }
}

proof fn lemma_place_of(entries: Seq<SymbolView>, symbol: Seq<char>, from: int)
    requires
        0 <= from <= entries.len(),
    ensures
        from <= place_of(entries, symbol, from) <= entries.len(),
        place_of(entries, symbol, from) < entries.len() ==> entries[place_of(
            entries,
            symbol,
            from,
        )].symbol == symbol,
        forall|i: int|
            from <= i < place_of(entries, symbol, from) ==> (#[trigger] entries[i]).symbol
                != symbol,
    decreases entries.len() - from,
{
    if from < entries.len() && entries[from].symbol != symbol {
        lemma_place_of(entries, symbol, from + 1);
    }
}

proof fn lemma_rank_of(entries: Seq<SymbolView>, symbol: Seq<char>, from: int)
    requires
        0 <= from <= entries.len(),
    ensures
        from <= rank_of(entries, symbol, from) <= entries.len(),
        rank_of(entries, symbol, from) < entries.len() ==> text_before(
            symbol,
            entries[rank_of(entries, symbol, from)].symbol,
        ),
        forall|i: int|
            from <= i < rank_of(entries, symbol, from) ==> !text_before(
                symbol,
                (#[trigger] entries[i]).symbol,
            ),
    decreases entries.len() - from,
{
    if from < entries.len() && !text_before(symbol, entries[from].symbol) {
        lemma_rank_of(entries, symbol, from + 1);
    }
}

/// An entry that is put among entries in order leaves them in order.
pub proof fn lemma_put_keeps_order(entries: Seq<SymbolView>, entry: SymbolView)
    requires
        in_order(entries),
    ensures
        in_order(put(entries, entry)),
{
    let after = put(entries, entry);
    let at = place_of(entries, entry.symbol, 0);
    lemma_place_of(entries, entry.symbol, 0);
    if at < entries.len() {
        assert forall|i: int, j: int| 0 <= i < j < after.len() implies text_before(
            (#[trigger] after[i]).symbol,
            (#[trigger] after[j]).symbol,
        ) by {
            assert(after[i].symbol == entries[i].symbol);
            assert(after[j].symbol == entries[j].symbol);
        }
    } else {
        let rank = rank_of(entries, entry.symbol, 0);
        lemma_rank_of(entries, entry.symbol, 0);
        assert forall|i: int, j: int| 0 <= i < j < after.len() implies text_before(
            (#[trigger] after[i]).symbol,
            (#[trigger] after[j]).symbol,
        ) by {
            if j < rank {
                assert(after[i] == entries[i] && after[j] == entries[j]);
            } else if j == rank {
                assert(after[i] == entries[i]);
                assert(!text_before(entry.symbol, entries[i].symbol));
                assert(entries[i].symbol != entry.symbol);
                lemma_one_comes_first(entries[i].symbol, entry.symbol);
            } else if i < rank {
                assert(after[i] == entries[i] && after[j] == entries[j - 1]);
                if i < j - 1 {
                } else {
                    assert(false);
                }
            } else if i == rank {
                assert(after[j] == entries[j - 1]);
                if rank < j - 1 {
                    assert(text_before(entries[rank].symbol, entries[j - 1].symbol));
                    lemma_before_is_transitive(
                        entry.symbol,
                        entries[rank].symbol,
                        entries[j - 1].symbol,
                    );
                }
            } else {
                assert(after[i] == entries[i - 1] && after[j] == entries[j - 1]);
            }
        }
    }
}

proof fn lemma_stored_in_order(stored: Seq<StoredSymbol>, n: int)
    ensures
        in_order(with_stored(stored, n)),
    decreases n,
{
    if n > 0 {
        lemma_stored_in_order(stored, n - 1);
        lemma_put_keeps_order(with_stored(stored, n - 1), stored_entry(stored[n - 1]));
    }
}

proof fn lemma_pipeline_keeps_order(entries: Seq<SymbolView>, pipeline: AssetPipeline)
    requires
        in_order(entries),
    ensures
        in_order(with_pipeline(entries, pipeline)),
{
    let after = with_pipeline(entries, pipeline);
    let at = place_of(entries, pipeline.config.symbol@, 0);
    lemma_place_of(entries, pipeline.config.symbol@, 0);
    if pipeline.config.source is Coinbase {
    } else if at < entries.len() {
        assert forall|i: int, j: int| 0 <= i < j < after.len() implies text_before(
            (#[trigger] after[i]).symbol,
            (#[trigger] after[j]).symbol,
        ) by {
            assert(after[i].symbol == entries[i].symbol);
            assert(after[j].symbol == entries[j].symbol);
        }
    } else {
        lemma_put_keeps_order(entries, pipeline_entry(pipeline));
    }
}

proof fn lemma_pipelines_keep_order(
    entries: Seq<SymbolView>,
    pipelines: Seq<AssetPipeline>,
    n: int,
)
    requires
        in_order(entries),
    ensures
        in_order(with_pipelines(entries, pipelines, n)),
    decreases n,
{
    if n > 0 {
        lemma_pipelines_keep_order(entries, pipelines, n - 1);
        lemma_pipeline_keeps_order(with_pipelines(entries, pipelines, n - 1), pipelines[n - 1]);
    }
}

/// What is shown stands in the order of the symbols, each symbol once.
pub proof fn lemma_merged_in_order(stored: Seq<StoredSymbol>, pipelines: Seq<AssetPipeline>)
    ensures
        in_order(merged_symbols(stored, pipelines)),
        forall|i: int, j: int|
            0 <= i < j < merged_symbols(stored, pipelines).len() ==> (#[trigger] merged_symbols(
                stored,
                pipelines,
            )[i]).symbol != (#[trigger] merged_symbols(stored, pipelines)[j]).symbol,
{
    lemma_stored_in_order(stored, stored.len() as int);
    lemma_pipelines_keep_order(
        with_stored(stored, stored.len() as int),
        pipelines,
        pipelines.len() as int,
    );
    let merged = merged_symbols(stored, pipelines);
    assert forall|i: int, j: int| 0 <= i < j < merged.len() implies (#[trigger] merged[i]).symbol
        != (#[trigger] merged[j]).symbol by {
        lemma_before_is_strict(merged[i].symbol);
    }
}

} // verus!
