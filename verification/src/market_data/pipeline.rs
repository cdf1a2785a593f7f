//! The life of a pipeline: its status, the batch writer and the ingestion
//! loop.

use crate::decimal::Decimal;
use crate::market_data::{
    Adapter, AssetPipeline, MarketTick, PipelineConfig, PipelineStatus, TickKey,
};
use crate::text::{join2, nat_text, unsigned_text};
use crate::time::Instant;
use vstd::prelude::*;
use vstd::string::*;

verus! {

impl PipelineStatus {
    /// The transitions of a pipeline's status: `Stopped` to `Starting`,
    /// `Starting` to `Running`, `Running` to `Running`, `Error` or
    /// `Stopped`, and, on a restart, `Error` to `Starting`.
    pub open spec fn may_follow(self, next: PipelineStatus) -> bool {
        match self {
            PipelineStatus::Stopped => next is Starting,
            PipelineStatus::Starting => next is Running,
            PipelineStatus::Running { .. } => next is Running || next is Error || next is Stopped,
            PipelineStatus::Error { .. } => next is Starting,
        }
    }

    /// The status is kept or makes one transition.
    pub open spec fn stays_or_follows(self, next: PipelineStatus) -> bool {
        self == next || self.may_follow(next)
    }
}

/// A status becomes `Running` only from `Starting` or `Running`: neither
/// `Error` nor `Stopped` leads there directly.
pub proof fn lemma_running_only_through_starting(from: PipelineStatus, to: PipelineStatus)
    requires
        from.may_follow(to),
        to is Running,
    ensures
        from is Starting || from is Running,
        !(from is Error),
        !(from is Stopped),
{
}

/// Whether every status of a history follows from the one before it.
pub open spec fn valid_history(history: Seq<PipelineStatus>) -> bool {
    forall|i: int| 0 <= i < history.len() - 1 ==> (#[trigger] history[i]).may_follow(history[i + 1])
}

/// In a history that starts `Stopped`, every `Running` status has a
/// `Starting` status before it with only `Running` statuses in between.
pub proof fn lemma_history_reaches_running_through_starting(
    history: Seq<PipelineStatus>,
    at: int,
)
    requires
        valid_history(history),
        history.len() > 0,
        history[0] is Stopped,
        0 <= at < history.len(),
        history[at] is Running,
    ensures
        exists|s: int|
            0 <= s < at && (#[trigger] history[s]) is Starting && forall|k: int|
                s < k <= at ==> (#[trigger] history[k]) is Running,
    decreases at,
{
    assert(at > 0);
    assert(history[at - 1].may_follow(history[at]));
    if history[at - 1] is Starting {
        assert(forall|k: int| at - 1 < k <= at ==> (#[trigger] history[k]) is Running);
    } else {
        lemma_history_reaches_running_through_starting(history, at - 1);
        let s = choose|s: int|
            0 <= s < at - 1 && (#[trigger] history[s]) is Starting && forall|k: int|
                s < k <= at - 1 ==> (#[trigger] history[k]) is Running;
        assert(forall|k: int| s < k <= at ==> (#[trigger] history[k]) is Running);
    }
}

/// Ticks that make a batch full.
pub const BATCH_SIZE: usize = 100;

/// Milliseconds after which a batch is written whatever its size.
pub const FLUSH_INTERVAL_MILLIS: u64 = 5_000;

/// Milliseconds that the loop waits before it connects again.
pub const RECONNECT_BACKOFF_MILLIS: u64 = 5_000;

/// Whether a buffer of `count` ticks is due `elapsed` milliseconds after
/// the last write: when it is full, or when the interval has passed.
pub open spec fn flush_due(count: int, elapsed: int) -> bool {
    count >= BATCH_SIZE || elapsed > FLUSH_INTERVAL_MILLIS
}

/// Buffers ticks and hands them out in batches.
#[derive(Debug)]
pub struct BatchWriter {
    pub buffer: Vec<MarketTick>,
    /// Reading of a monotonic clock, in milliseconds, at the last write.
    pub last_flush: u64,
}

impl BatchWriter {
    /// Between two calls the buffer always holds less than a full batch.
    pub open spec fn wf(&self) -> bool {
        self.buffer@.len() < BATCH_SIZE
    }

    /// Whether the buffer holds less than a full batch, as every function
    /// of the writer leaves it.
    pub fn has_room(&self) -> (b: bool)
        ensures
            b == self.wf(),
    {
        self.buffer.len() < BATCH_SIZE
    }

    /// An empty writer whose first interval starts at `clock_millis`.
    pub fn new(clock_millis: u64) -> (w: Self)
        ensures
            w.wf(),
            w.buffer@.len() == 0,
            w.last_flush == clock_millis,
    {
        BatchWriter { buffer: Vec::new(), last_flush: clock_millis }
    }

    /// Takes one tick. Where the buffer is then due, hands out all of it,
    /// in the order of arrival, and starts a new interval.
    pub fn push(&mut self, tick: MarketTick, clock_millis: u64) -> (batch: Option<Vec<MarketTick>>)
        requires
            old(self).wf(),
        ensures
            final(self).wf(),
            flush_due(old(self).buffer@.len() as int + 1, clock_millis - old(self).last_flush) ==> {
                &&& batch matches Some(ticks)
                &&& ticks@ == old(self).buffer@.push(tick)
                &&& final(self).buffer@.len() == 0
                &&& final(self).last_flush == clock_millis
            },
            !flush_due(old(self).buffer@.len() as int + 1, clock_millis - old(self).last_flush) ==> {
                &&& batch is None
                &&& final(self).buffer@ == old(self).buffer@.push(tick)
                &&& final(self).last_flush == old(self).last_flush
            },
    {
        self.buffer.push(tick);
        let full = self.buffer.len() >= BATCH_SIZE;
        let late = clock_millis > self.last_flush && clock_millis - self.last_flush
            > FLUSH_INTERVAL_MILLIS;
        if full || late {
            Some(self.drain(clock_millis))
        } else {
            None
        }
    }

    /// Hands out whatever is buffered and starts a new interval.
    pub fn drain(&mut self, clock_millis: u64) -> (batch: Vec<MarketTick>)
        ensures
            batch@ == old(self).buffer@,
            final(self).buffer@.len() == 0,
            final(self).last_flush == clock_millis,
            final(self).wf(),
    {
        let mut batch: Vec<MarketTick> = Vec::new();
        core::mem::swap(&mut self.buffer, &mut batch);
        self.last_flush = clock_millis;
        batch
    }
}

/// One value bound to a placeholder of a statement.
#[derive(Debug)]
pub enum BindValue {
    Time(Instant),
    Text(String),
    Price(Option<Decimal>),
}

/// A statement that stores a batch, and the values of its placeholders in
/// the order of their numbers.
#[derive(Debug)]
pub struct BulkInsert {
    pub sql: String,
    pub binds: Vec<BindValue>,
}

/// The placeholders of the row `i`: `($5i+1, $5i+2, $5i+3, $5i+4, $5i+5)`.
pub open spec fn row_placeholders(i: nat) -> Seq<char> {
    "($"@ + nat_text(5 * i + 1) + ", $"@ + nat_text(5 * i + 2) + ", $"@ + nat_text(5 * i + 3)
        + ", $"@ + nat_text(5 * i + 4) + ", $"@ + nat_text(5 * i + 5) + ")"@
}

/// The placeholders of `n` rows, separated by `, `.
pub open spec fn all_placeholders(n: nat) -> Seq<char>
    decreases n,
{
    if n == 0 {
        Seq::empty()
    } else if n == 1 {
        row_placeholders(0)
    } else {
        all_placeholders((n - 1) as nat) + ", "@ + row_placeholders((n - 1) as nat)
    }
}

/// The statement that stores `n` ticks in `table` and leaves alone a tick
/// that is stored already: one with the same symbol, source and time.
pub open spec fn insert_sql(table: Seq<char>, n: nat) -> Seq<char> {
    "INSERT INTO "@ + table + " (time, symbol, source, bid, ask) VALUES "@ + all_placeholders(n)
        + " ON CONFLICT (symbol, source, time) DO NOTHING"@
}

/// Number of the placeholder, counted from 0, of column `column` of row `row`.
pub open spec fn slot(row: int, column: int) -> int {
    5 * row + column
}

/// Whether `bind` is what column `column` of the row of `tick` takes: the
/// time, the symbol, the source, the bid and the ask.
pub open spec fn bind_of(tick: MarketTick, column: int, bind: BindValue) -> bool {
    if column == 0 {
        bind == BindValue::Time(tick.time)
    } else if column == 1 {
        bind matches BindValue::Text(text) && text@ == tick.symbol@
    } else if column == 2 {
        bind matches BindValue::Text(text) && text@ == tick.source@
    } else if column == 3 {
        bind == BindValue::Price(tick.bid)
    } else {
        bind == BindValue::Price(tick.ask)
    }
}

/// Whether `binds` are the values of the rows of `batch`, row after row.
pub open spec fn binds_of(batch: Seq<MarketTick>, binds: Seq<BindValue>) -> bool {
    &&& binds.len() == 5 * batch.len()
    &&& forall|i: int, c: int|
        0 <= i < batch.len() && 0 <= c < 5 ==> bind_of(batch[i], c, #[trigger] binds[slot(i, c)])
}

fn placeholders(i: usize) -> (r: String)
    ensures
        r@ == row_placeholders(i as nat),
{
    let base: u128 = i as u128 * 5;
    let mut r = String::from_str("($");
    r.append(unsigned_text(base + 1).as_str());
    r.append(", $");
    r.append(unsigned_text(base + 2).as_str());
    r.append(", $");
    r.append(unsigned_text(base + 3).as_str());
    r.append(", $");
    r.append(unsigned_text(base + 4).as_str());
    r.append(", $");
    r.append(unsigned_text(base + 5).as_str());
    r.append(")");
    r
}

/// The statement that stores `rows` ticks in `table`.
pub fn insert_statement(table: &str, rows: usize) -> (sql: String)
    ensures
        sql@ == insert_sql(table@, rows as nat),
{
    let mut sql = String::from_str("INSERT INTO ");
    sql.append(table);
    sql.append(" (time, symbol, source, bid, ask) VALUES ");
    let ghost head = sql@;
    let mut i: usize = 0;
    assert(sql@ =~= head + all_placeholders(0));
    while i < rows
        invariant
            i <= rows,
            sql@ == head + all_placeholders(i as nat),
        decreases rows - i,
    {
        if i > 0 {
            sql.append(", ");
        }
        let group = placeholders(i);
        sql.append(group.as_str());
        proof {
            if i == 0 {
                assert(sql@ =~= head + all_placeholders(1));
            } else {
                assert(sql@ =~= head + all_placeholders((i + 1) as nat));
            }
        }
        i += 1;
    }
    sql.append(" ON CONFLICT (symbol, source, time) DO NOTHING");
    sql
}

/// The statement that stores `batch` in `table`, with its values; `None`
/// for an empty batch, which needs no statement.
pub fn flush_batch(table: &str, batch: &Vec<MarketTick>) -> (r: Option<BulkInsert>)
    ensures
        batch@.len() == 0 <==> r is None,
        r matches Some(insert) ==> {
            &&& insert.sql@ == insert_sql(table@, batch@.len())
            &&& binds_of(batch@, insert.binds@)
        },
{
    if batch.len() == 0 {
        return None;
    }
    let mut binds: Vec<BindValue> = Vec::new();
    let mut i: usize = 0;
    while i < batch.len()
        invariant
            i <= batch.len(),
            binds_of(batch@.take(i as int), binds@),
        decreases batch.len() - i,
    {
        let tick = &batch[i];
        let ghost before = binds@;
        binds.push(BindValue::Time(tick.time));
        binds.push(BindValue::Text(tick.symbol.clone()));
        binds.push(BindValue::Text(tick.source.clone()));
        binds.push(BindValue::Price(tick.bid));
        binds.push(BindValue::Price(tick.ask));
        proof {
            let rows = batch@.take(i + 1);
            assert forall|r: int, c: int| 0 <= r < rows.len() && 0 <= c < 5 implies bind_of(
                rows[r],
                c,
                #[trigger] binds@[slot(r, c)],
            ) by {
                if r < i {
                    assert(batch@.take(i as int)[r] == rows[r]);
                    assert(binds@[slot(r, c)] == before[slot(r, c)]);
                }
            }
        }
        i += 1;
    }
    assert(batch@.take(batch.len() as int) =~= batch@);
    Some(BulkInsert { sql: insert_statement(table, batch.len()), binds })
}

/// Whether the store holds a tick under `key`.
pub open spec fn holds(rows: Seq<MarketTick>, key: TickKey) -> bool {
    exists|i: int| 0 <= i < rows.len() && (#[trigger] rows[i]).key() == key
}

/// No two rows have the same symbol, source and time.
pub open spec fn unique_keys(rows: Seq<MarketTick>) -> bool {
    forall|i: int, j: int|
        0 <= i < rows.len() && 0 <= j < rows.len() && i != j ==> (#[trigger] rows[i]).key() != (
        #[trigger] rows[j]).key()
}

/// What the statement of `insert_sql` does to the rows of the table for
/// one tick: it adds the tick unless its key is stored already.
pub open spec fn store_one(rows: Seq<MarketTick>, tick: MarketTick) -> Seq<MarketTick> {
    if holds(rows, tick.key()) {
        rows
    } else {
        rows.push(tick)
    }
}

/// What the statement does for a batch, tick after tick.
pub open spec fn store_all(rows: Seq<MarketTick>, batch: Seq<MarketTick>) -> Seq<MarketTick>
    decreases batch.len(),
{
    if batch.len() == 0 {
        rows
    } else {
        store_one(store_all(rows, batch.drop_last()), batch.last())
    }
}

/// Number of rows stored under `key`.
pub open spec fn rows_with(rows: Seq<MarketTick>, key: TickKey) -> nat
    decreases rows.len(),
{
    if rows.len() == 0 {
        0
    } else if rows.last().key() == key {
        rows_with(rows.drop_last(), key) + 1
    } else {
        rows_with(rows.drop_last(), key)
    }
}

/// With unique keys a key has one row or none.
pub proof fn lemma_rows_with(rows: Seq<MarketTick>, key: TickKey)
    requires
        unique_keys(rows),
    ensures
        rows_with(rows, key) == if holds(rows, key) {
            1nat
        } else {
            0nat
        },
    decreases rows.len(),
{
    if rows.len() > 0 {
        let rest = rows.drop_last();
        assert forall|i: int, j: int|
            0 <= i < rest.len() && 0 <= j < rest.len() && i != j implies (#[trigger] rest[i]).key()
            != (#[trigger] rest[j]).key() by {
            assert(rest[i] == rows[i] && rest[j] == rows[j]);
        }
        lemma_rows_with(rest, key);
        if rows.last().key() == key {
            assert(rows[rows.len() - 1].key() == key);
            if holds(rest, key) {
                let i = choose|i: int| 0 <= i < rest.len() && (#[trigger] rest[i]).key() == key;
                assert(rest[i] == rows[i]);
                assert(rows[i].key() != rows[rows.len() - 1].key());
            }
        } else {
            if holds(rows, key) {
                let i = choose|i: int| 0 <= i < rows.len() && (#[trigger] rows[i]).key() == key;
                assert(rest[i] == rows[i]);
            }
            if holds(rest, key) {
                let i = choose|i: int| 0 <= i < rest.len() && (#[trigger] rest[i]).key() == key;
                assert(rest[i] == rows[i]);
            }
        }
    }
}

/// Storing keeps the keys unique and keeps what was held.
pub proof fn lemma_store_one(rows: Seq<MarketTick>, tick: MarketTick)
    requires
        unique_keys(rows),
    ensures
        unique_keys(store_one(rows, tick)),
        holds(store_one(rows, tick), tick.key()),
        forall|key: TickKey| holds(rows, key) ==> holds(store_one(rows, tick), key),
{
    let after = store_one(rows, tick);
    if !holds(rows, tick.key()) {
        assert forall|i: int, j: int|
            0 <= i < after.len() && 0 <= j < after.len() && i != j implies (
        #[trigger] after[i]).key() != (#[trigger] after[j]).key() by {
            if i < rows.len() {
                assert(after[i] == rows[i]);
            }
            if j < rows.len() {
                assert(after[j] == rows[j]);
            }
        }
        assert(after[rows.len() as int].key() == tick.key());
        assert forall|key: TickKey| holds(rows, key) implies holds(after, key) by {
            let i = choose|i: int| 0 <= i < rows.len() && (#[trigger] rows[i]).key() == key;
            assert(after[i] == rows[i]);
        }
    }
}

/// Storing a batch keeps the keys unique, keeps what was held and holds
/// every tick of the batch.
pub proof fn lemma_store_all(rows: Seq<MarketTick>, batch: Seq<MarketTick>)
    requires
        unique_keys(rows),
    ensures
        unique_keys(store_all(rows, batch)),
        forall|key: TickKey| holds(rows, key) ==> holds(store_all(rows, batch), key),
        forall|i: int|
            0 <= i < batch.len() ==> holds(store_all(rows, batch), (#[trigger] batch[i]).key()),
    decreases batch.len(),
{
    if batch.len() > 0 {
        let rest = batch.drop_last();
        lemma_store_all(rows, rest);
        lemma_store_one(store_all(rows, rest), batch.last());
        assert forall|i: int| 0 <= i < batch.len() implies holds(
            store_all(rows, batch),
            (#[trigger] batch[i]).key(),
        ) by {
            if i < rest.len() {
                assert(rest[i] == batch[i]);
            }
        }
    }
}

/// Two ticks with the same symbol, source and time leave one row: the
/// second is ignored, whatever else it holds.
pub proof fn lemma_same_key_stored_once(rows: Seq<MarketTick>, first: MarketTick, second: MarketTick)
    requires
        unique_keys(rows),
        first.key() == second.key(),
    ensures
        store_all(rows, seq![first, second]) == store_one(rows, first),
        rows_with(store_all(rows, seq![first, second]), first.key()) == 1,
{
    let both = seq![first, second];
    assert(both.drop_last() =~= seq![first]);
    assert(seq![first].drop_last() =~= Seq::<MarketTick>::empty());
    assert(store_all(rows, Seq::<MarketTick>::empty()) == rows);
    assert(store_all(rows, seq![first]) == store_one(rows, first));
    lemma_store_one(rows, first);
    assert(store_all(rows, both) == store_one(store_one(rows, first), second));
    lemma_rows_with(store_one(rows, first), first.key());
}

/// A batch that is delivered again changes nothing.
pub proof fn lemma_redelivery_changes_nothing(rows: Seq<MarketTick>, batch: Seq<MarketTick>)
    requires
        unique_keys(rows),
    ensures
        store_all(store_all(rows, batch), batch) == store_all(rows, batch),
{
    lemma_store_all(rows, batch);
    lemma_held_batch_changes_nothing(store_all(rows, batch), batch);
}

proof fn lemma_held_batch_changes_nothing(rows: Seq<MarketTick>, batch: Seq<MarketTick>)
    requires
        forall|i: int| 0 <= i < batch.len() ==> holds(rows, (#[trigger] batch[i]).key()),
    ensures
        store_all(rows, batch) == rows,
    decreases batch.len(),
{
    if batch.len() > 0 {
        let rest = batch.drop_last();
        assert forall|i: int| 0 <= i < rest.len() implies holds(rows, (#[trigger] rest[i]).key()) by {
            assert(rest[i] == batch[i]);
        }
        lemma_held_batch_changes_nothing(rows, rest);
        assert(batch[batch.len() - 1] == batch.last());
    }
}

/// What the ingestion loop owns once the pipeline runs.
#[derive(Debug)]
pub struct IngestionLoop {
    pub symbol: String,
    pub tick_table: String,
    pub adapter: Adapter,
    pub writer: BatchWriter,
}

/// What happened since the loop last acted.
#[derive(Debug)]
pub enum LoopEvent {
    /// The adapter gave a tick.
    Tick(MarketTick),
    /// The adapter failed to give one.
    FeedFailed,
    /// Connecting and subscribing again worked.
    Reconnected,
    /// Connecting or subscribing again failed.
    ReconnectFailed,
    /// No connection can be made with this configuration.
    ConfigurationBroken { message: String },
}

/// What the loop does next.
#[derive(Debug)]
pub enum LoopAction {
    /// Ask the adapter for the next tick.
    NextTick,
    /// Run the statement, then ask for the next tick. A statement that
    /// fails is logged and its ticks are lost.
    Write(BulkInsert),
    /// Wait, then connect and subscribe again.
    Reconnect { after_millis: u64 },
    /// End the loop.
    Halt,
}

impl AssetPipeline {
    /// A pipeline that has not started.
    pub fn new(config: PipelineConfig, ingester: Adapter) -> (p: Self)
        ensures
            p.config == config,
            p.ingester == Some(ingester),
            p.status is Stopped,
    {
        AssetPipeline { config, ingester: Some(ingester), status: PipelineStatus::Stopped }
    }

    /// Begins the start. A running pipeline refuses; any other becomes
    /// `Starting`, and the start can go on if the adapter is still here.
    pub fn start(&mut self) -> (r: Result<(), String>)
        ensures
            old(self).status.stays_or_follows(final(self).status),
            final(self).config == old(self).config,
            final(self).ingester == old(self).ingester,
            old(self).status is Running ==> {
                &&& final(self).status == old(self).status
                &&& r matches Err(why) && why@ == "Pipeline already running"@
            },
            !(old(self).status is Running) ==> {
                &&& final(self).status is Starting
                &&& (r is Ok <==> old(self).ingester is Some)
                &&& r matches Err(why) ==> why@ == "Ingester not available"@
            },
    {
        if let PipelineStatus::Running { .. } = self.status {
            return Err(String::from_str("Pipeline already running"));
        }
        self.status = PipelineStatus::Starting;
        if self.ingester.is_none() {
            return Err(String::from_str("Ingester not available"));
        }
        Ok(())
    }

    /// Ends the start once the adapter is connected and subscribed: hands
    /// the adapter to the ingestion loop and makes the pipeline `Running`.
    pub fn launch(&mut self, now: Instant, clock_millis: u64) -> (r: Result<IngestionLoop, String>)
        ensures
            old(self).status.stays_or_follows(final(self).status),
            final(self).config == old(self).config,
            !(old(self).status is Starting) ==> {
                &&& *final(self) == *old(self)
                &&& r matches Err(why) && why@ == "Pipeline is not starting"@
            },
            old(self).status is Starting && old(self).ingester is None ==> {
                &&& *final(self) == *old(self)
                &&& r matches Err(why) && why@ == "Ingester already taken"@
            },
            old(self).status is Starting && old(self).ingester is Some ==> {
                &&& final(self).status == (PipelineStatus::Running {
                    connected: true,
                    last_tick: Some(now),
                })
                &&& final(self).ingester is None
                &&& r matches Ok(run)
                &&& run.adapter == old(self).ingester->0
                &&& run.symbol@ == old(self).config.symbol@
                &&& run.tick_table@ == old(self).config.tick_table@
                &&& run.writer.buffer@.len() == 0
                &&& run.writer.last_flush == clock_millis
                &&& run.writer.wf()
            },
    {
        if let PipelineStatus::Starting = self.status {
        } else {
            return Err(String::from_str("Pipeline is not starting"));
        }
        let adapter = match self.ingester.take() {
            Some(adapter) => adapter,
            None => {
                return Err(String::from_str("Ingester already taken"));
            },
        };
        self.status = PipelineStatus::Running { connected: true, last_tick: Some(now) };
        Ok(
            IngestionLoop {
                symbol: self.config.symbol.clone(),
                tick_table: self.config.tick_table.clone(),
                adapter,
                writer: BatchWriter::new(clock_millis),
            },
        )
    }

    /// Stops a running pipeline and hands back the adapter if the loop
    /// never took it. A pipeline that does not run keeps its status: the
    /// transitions of `may_follow` lead to `Stopped` from `Running` alone,
    /// and a pipeline that is `Starting` or in `Error` has no loop to
    /// stop. Taken out of the engine, such a pipeline is dropped as it is.
    pub fn stop(&mut self) -> (adapter: Option<Adapter>)
        ensures
            old(self).status.stays_or_follows(final(self).status),
            final(self).config == old(self).config,
            final(self).ingester is None,
            adapter == old(self).ingester,
            old(self).status is Running ==> final(self).status is Stopped,
            !(old(self).status is Running) ==> final(self).status == old(self).status,
    {
        if let PipelineStatus::Running { .. } = self.status {
            self.status = PipelineStatus::Stopped;
        }
        self.ingester.take()
    }
}

/// What an event does to a loop and to the status of its pipeline, and
/// what the loop does next.
///
/// A loop whose pipeline is not `Running` halts and changes nothing: the
/// status is the flag that keeps the loop alive. A tick is recorded as
/// the last tick and goes to the writer, whose batch is written when it
/// is due. A failure of the feed or of a reconnection marks the pipeline
/// as not connected and is answered by a reconnection after the backoff,
/// time and again. A reconnection marks it as connected. A configuration
/// with which no connection can be made ends the loop in `Error`.
pub open spec fn loop_step(
    before: IngestionLoop,
    status: PipelineStatus,
    event: LoopEvent,
    clock_millis: u64,
    after: IngestionLoop,
    next: PipelineStatus,
    action: LoopAction,
) -> bool {
    &&& after.symbol == before.symbol
    &&& after.tick_table == before.tick_table
    &&& after.adapter == before.adapter
    &&& match status {
        PipelineStatus::Running { connected, last_tick } => match event {
            LoopEvent::Tick(tick) => {
                &&& next == (PipelineStatus::Running { connected, last_tick: Some(tick.time) })
                &&& if flush_due(
                    before.writer.buffer@.len() as int + 1,
                    clock_millis - before.writer.last_flush,
                ) {
                    &&& action matches LoopAction::Write(insert)
                    &&& insert.sql@ == insert_sql(
                        before.tick_table@,
                        before.writer.buffer@.len() + 1,
                    )
                    &&& binds_of(before.writer.buffer@.push(tick), insert.binds@)
                    &&& after.writer.buffer@.len() == 0
                    &&& after.writer.last_flush == clock_millis
                } else {
                    &&& action is NextTick
                    &&& after.writer.buffer@ == before.writer.buffer@.push(tick)
                    &&& after.writer.last_flush == before.writer.last_flush
                }
            },
            LoopEvent::FeedFailed | LoopEvent::ReconnectFailed => {
                &&& next == (PipelineStatus::Running { connected: false, last_tick })
                &&& action == (LoopAction::Reconnect { after_millis: RECONNECT_BACKOFF_MILLIS })
                &&& after.writer == before.writer
            },
            LoopEvent::Reconnected => {
                &&& next == (PipelineStatus::Running { connected: true, last_tick })
                &&& action is NextTick
                &&& after.writer == before.writer
            },
            LoopEvent::ConfigurationBroken { message } => {
                &&& next == (PipelineStatus::Error { message })
                &&& action is Halt
                &&& after.writer == before.writer
            },
        },
        _ => {
            &&& action is Halt
            &&& next == status
            &&& after.writer == before.writer
        },
    }
}

impl IngestionLoop {
    /// Takes an event of the loop: see `loop_step`.
    pub fn on_event(
        &mut self,
        status: &mut PipelineStatus,
        event: LoopEvent,
        clock_millis: u64,
    ) -> (action: LoopAction)
        requires
            old(self).writer.wf(),
        ensures
            final(self).writer.wf(),
            old(status).stays_or_follows(*final(status)),
            loop_step(
                *old(self),
                *old(status),
                event,
                clock_millis,
                *final(self),
                *final(status),
                action,
            ),
    {
        let (connected, last_tick) = match status {
            PipelineStatus::Running { connected, last_tick } => (*connected, *last_tick),
            _ => {
                return LoopAction::Halt;
            },
        };
        match event {
            LoopEvent::Tick(tick) => {
                *status = PipelineStatus::Running { connected, last_tick: Some(tick.time) };
                match self.writer.push(tick, clock_millis) {
                    Some(batch) => match flush_batch(self.tick_table.as_str(), &batch) {
                        Some(insert) => LoopAction::Write(insert),
                        None => LoopAction::NextTick,
                    },
                    None => LoopAction::NextTick,
                }
            },
            LoopEvent::FeedFailed => {
                *status = PipelineStatus::Running { connected: false, last_tick };
                LoopAction::Reconnect { after_millis: RECONNECT_BACKOFF_MILLIS }
            },
            LoopEvent::ReconnectFailed => {
                *status = PipelineStatus::Running { connected: false, last_tick };
                LoopAction::Reconnect { after_millis: RECONNECT_BACKOFF_MILLIS }
            },
            LoopEvent::Reconnected => {
                *status = PipelineStatus::Running { connected: true, last_tick };
                LoopAction::NextTick
            },
            LoopEvent::ConfigurationBroken { message } => {
                *status = PipelineStatus::Error { message };
                LoopAction::Halt
            },
        }
    }

    /// The statement for what is still buffered when the loop ends; `None`
    /// where nothing is.
    pub fn shutdown(&mut self, clock_millis: u64) -> (r: Option<BulkInsert>)
        ensures
            final(self).writer.wf(),
            final(self).writer.buffer@.len() == 0,
            final(self).symbol == old(self).symbol,
            final(self).tick_table == old(self).tick_table,
            final(self).adapter == old(self).adapter,
            old(self).writer.buffer@.len() == 0 <==> r is None,
            r matches Some(insert) ==> {
                &&& insert.sql@ == insert_sql(old(self).tick_table@, old(self).writer.buffer@.len())
                &&& binds_of(old(self).writer.buffer@, insert.binds@)
            },
    {
        let batch = self.writer.drain(clock_millis);
        flush_batch(self.tick_table.as_str(), &batch)
    }
}

} // verus!
