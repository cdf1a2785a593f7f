//! The statements that set up the store for a pipeline: the tick table,
//! the chain of aggregates, each fed by the one before it, and the
//! procedure that refreshes the chain from the finest to the coarsest.

use crate::market_data::{DataSource, DataSourceView, PipelineConfig};
use crate::text::{join3, text_eq};
use vstd::prelude::*;
use vstd::string::*;

verus! {

/// The columns that the ticks of a source have beyond those of every tick.
pub open spec fn extra_columns_of(source: DataSourceView) -> Seq<char> {
    match source {
        DataSourceView::Kraken { .. } => "side CHAR(1), trade_id BIGINT, "@,
        DataSourceView::Oanda { .. } =>
            "tradeable BOOLEAN, closeout_bid NUMERIC(12,5), closeout_ask NUMERIC(12,5), "@,
        _ => Seq::empty(),
    }
}

/// The columns that the ticks of a source have beyond those of every tick.
pub fn extra_columns(source: &DataSource) -> (r: &'static str)
    ensures
        r@ == extra_columns_of(source@),
{
    match source {
        DataSource::Kraken { .. } => "side CHAR(1), trade_id BIGINT, ",
        DataSource::Oanda { .. } =>
            "tradeable BOOLEAN, closeout_bid NUMERIC(12,5), closeout_ask NUMERIC(12,5), ",
        _ => {
            proof {
                reveal_strlit("");
                assert(""@ =~= Seq::<char>::empty());
            }
            ""
        },
    }
}

/// The statement that creates the tick table. A tick is identified by
/// symbol, source and time.
pub open spec fn tick_table_sql(table: Seq<char>, source: DataSourceView) -> Seq<char> {
    "CREATE TABLE IF NOT EXISTS "@ + table
        + " (time TIMESTAMPTZ NOT NULL, symbol VARCHAR(20) NOT NULL, source VARCHAR(20) NOT NULL, bid NUMERIC(20,10), ask NUMERIC(20,10), last NUMERIC(20,10), volume NUMERIC(20,10), "@
        + extra_columns_of(source)
        + "spread NUMERIC(10,5) GENERATED ALWAYS AS (ask - bid) STORED, mid_price NUMERIC(20,10) GENERATED ALWAYS AS ((bid + ask) / 2) STORED, PRIMARY KEY (symbol, source, time))"@
}

/// The statement that partitions the tick table by time.
pub open spec fn hypertable_sql(table: Seq<char>) -> Seq<char> {
    "SELECT create_hypertable('"@ + table + "', 'time', if_not_exists => TRUE)"@
}

/// The width of the buckets of a resolution, in the words of the store.
pub open spec fn interval_of(resolution: Seq<char>) -> Option<Seq<char>> {
    if resolution == "1m"@ {
        Some("1 minute"@)
    } else if resolution == "5m"@ {
        Some("5 minutes"@)
    } else if resolution == "15m"@ {
        Some("15 minutes"@)
    } else if resolution == "1h"@ {
        Some("1 hour"@)
    } else if resolution == "4h"@ {
        Some("4 hours"@)
    } else if resolution == "12h"@ {
        Some("12 hours"@)
    } else {
        None
    }
}

/// What an aggregate selects: from ticks the bid, from candles their
/// open, high, low and close.
pub open spec fn selection(from_ticks: bool) -> Seq<char> {
    if from_ticks {
        "first(bid, time) AS open, max(bid) AS high, min(bid) AS low, last(bid, time) AS close, count(*) AS tick_count"@
    } else {
        "first(open, time) AS open, max(high) AS high, min(low) AS low, last(close, time) AS close, sum(tick_count) AS tick_count"@
    }
}

/// The statement that creates the aggregate `name` with buckets of
/// `interval` over the table `source`.
pub open spec fn aggregate_sql(
    name: Seq<char>,
    interval: Seq<char>,
    source: Seq<char>,
    from_ticks: bool,
) -> Seq<char> {
    "CREATE MATERIALIZED VIEW IF NOT EXISTS "@ + name
        + " WITH (timescaledb.continuous) AS SELECT time_bucket('"@ + interval
        + "', time) AS time, symbol, "@ + selection(from_ticks) + " FROM "@ + source
        + " GROUP BY time_bucket('"@ + interval + "', time), symbol WITH NO DATA"@
}

/// The table that feeds the aggregate at place `i` of the chain: the tick
/// table for the finest, else the aggregate before it.
pub open spec fn source_of(tick_table: Seq<char>, tables: Seq<(String, String)>, i: int)
    -> Seq<char> {
    if i == 0 {
        tick_table
    } else {
        tables[i - 1].0@
    }
}

/// The statements that create the first `n` aggregates of the chain; a
/// resolution that the store has no word for is left out.
pub open spec fn aggregates_sql(tick_table: Seq<char>, tables: Seq<(String, String)>, n: int)
    -> Seq<Seq<char>>
    decreases n,
{
    if n <= 0 {
        Seq::empty()
    } else {
        let before = aggregates_sql(tick_table, tables, n - 1);
        match interval_of(tables[n - 1].1@) {
            Some(interval) => before.push(
                aggregate_sql(
                    tables[n - 1].0@,
                    interval,
                    source_of(tick_table, tables, n - 1),
                    n == 1,
                ),
            ),
            None => before,
        }
    }
}

/// The calls that refresh the first `n` aggregates of the chain, in the
/// order of the chain.
pub open spec fn refresh_calls(tables: Seq<(String, String)>, n: int) -> Seq<char>
    decreases n,
{
    if n <= 0 {
        Seq::empty()
    } else {
        refresh_calls(tables, n - 1) + "    CALL refresh_continuous_aggregate('"@ + tables[n
            - 1].0@ + "', NULL, NULL);\n"@
    }
}

/// The statement that creates the procedure which refreshes the chain.
pub open spec fn procedure_sql(name: Seq<char>, tables: Seq<(String, String)>) -> Seq<char> {
    "CREATE OR REPLACE PROCEDURE "@ + name
        + "() LANGUAGE plpgsql AS $$ BEGIN\n    RAISE NOTICE 'Starting cascade refresh at %', NOW();\n"@
        + refresh_calls(tables, tables.len() as int)
        + "    RAISE NOTICE 'Cascade refresh complete at %', NOW();\nEND; $$"@
}

/// The statements that set up the store for a configuration, in the order
/// in which they are to run.
pub open spec fn schema_sql(config: PipelineConfig) -> Seq<Seq<char>> {
    seq![
        tick_table_sql(config.tick_table@, config.source@),
        hypertable_sql(config.tick_table@),
    ] + aggregates_sql(
        config.tick_table@,
        config.aggregate_tables@,
        config.aggregate_tables@.len() as int,
    ) + seq![procedure_sql(config.cascade_procedure@, config.aggregate_tables@)]
}

/// The characters of each text.
pub open spec fn texts(statements: Seq<String>) -> Seq<Seq<char>> {
    Seq::new(statements.len(), |i: int| statements[i]@)
}

fn bucket_interval(resolution: &str) -> (r: Option<&'static str>)
    ensures
        match r {
            Some(words) => interval_of(resolution@) == Some(words@),
            None => interval_of(resolution@) is None,
        },
{
    if text_eq(resolution, "1m") {
        Some("1 minute")
    } else if text_eq(resolution, "5m") {
        Some("5 minutes")
    } else if text_eq(resolution, "15m") {
        Some("15 minutes")
    } else if text_eq(resolution, "1h") {
        Some("1 hour")
    } else if text_eq(resolution, "4h") {
        Some("4 hours")
    } else if text_eq(resolution, "12h") {
        Some("12 hours")
    } else {
        None
    }
}

fn aggregate_statement(name: &str, interval: &str, source: &str, from_ticks: bool) -> (sql: String)
    ensures
        sql@ == aggregate_sql(name@, interval@, source@, from_ticks),
{
    let mut sql = String::from_str("CREATE MATERIALIZED VIEW IF NOT EXISTS ");
    sql.append(name);
    sql.append(" WITH (timescaledb.continuous) AS SELECT time_bucket('");
    sql.append(interval);
    sql.append("', time) AS time, symbol, ");
    if from_ticks {
        sql.append(
            "first(bid, time) AS open, max(bid) AS high, min(bid) AS low, last(bid, time) AS close, count(*) AS tick_count",
        );
    } else {
        sql.append(
            "first(open, time) AS open, max(high) AS high, min(low) AS low, last(close, time) AS close, sum(tick_count) AS tick_count",
        );
    }
    sql.append(" FROM ");
    sql.append(source);
    sql.append(" GROUP BY time_bucket('");
    sql.append(interval);
    sql.append("', time), symbol WITH NO DATA");
    sql
}

fn procedure_statement(name: &str, tables: &Vec<(String, String)>) -> (sql: String)
    ensures
        sql@ == procedure_sql(name@, tables@),
{
    let mut sql = String::from_str("CREATE OR REPLACE PROCEDURE ");
    sql.append(name);
    sql.append(
        "() LANGUAGE plpgsql AS $$ BEGIN\n    RAISE NOTICE 'Starting cascade refresh at %', NOW();\n",
    );
    let ghost head = sql@;
    let mut i: usize = 0;
    assert(sql@ =~= head + refresh_calls(tables@, 0));
    while i < tables.len()
        invariant
            i <= tables.len(),
            sql@ == head + refresh_calls(tables@, i as int),
        decreases tables.len() - i,
    {
        sql.append("    CALL refresh_continuous_aggregate('");
        sql.append(tables[i].0.as_str());
        sql.append("', NULL, NULL);\n");
        proof {
            assert(sql@ =~= head + refresh_calls(tables@, i + 1));
        }
        i += 1;
    }
    sql.append("    RAISE NOTICE 'Cascade refresh complete at %', NOW();\nEND; $$");
    sql
}

/// The statements that set up the store for a configuration.
pub fn schema_statements(config: &PipelineConfig) -> (statements: Vec<String>)
    ensures
        texts(statements@) == schema_sql(*config),
{
    let table = config.tick_table.as_str();
    let mut statements: Vec<String> = Vec::new();
    let mut create = String::from_str("CREATE TABLE IF NOT EXISTS ");
    create.append(table);
    create.append(
        " (time TIMESTAMPTZ NOT NULL, symbol VARCHAR(20) NOT NULL, source VARCHAR(20) NOT NULL, bid NUMERIC(20,10), ask NUMERIC(20,10), last NUMERIC(20,10), volume NUMERIC(20,10), ",
    );
    create.append(extra_columns(&config.source));
    create.append(
        "spread NUMERIC(10,5) GENERATED ALWAYS AS (ask - bid) STORED, mid_price NUMERIC(20,10) GENERATED ALWAYS AS ((bid + ask) / 2) STORED, PRIMARY KEY (symbol, source, time))",
    );
    statements.push(create);
    statements.push(join3("SELECT create_hypertable('", table, "', 'time', if_not_exists => TRUE)"));
    let ghost head = seq![
        tick_table_sql(config.tick_table@, config.source@),
        hypertable_sql(config.tick_table@),
    ];
    let tables = &config.aggregate_tables;
    let mut i: usize = 0;
    assert(texts(statements@) =~= head + aggregates_sql(config.tick_table@, tables@, 0));
    while i < tables.len()
        invariant
            i <= tables.len(),
            table@ == config.tick_table@,
            tables@ == config.aggregate_tables@,
            texts(statements@) == head + aggregates_sql(config.tick_table@, tables@, i as int),
        decreases tables.len() - i,
    {
        let ghost before = statements@;
        match bucket_interval(tables[i].1.as_str()) {
            Some(interval) => {
                let source = if i == 0 {
                    table
                } else {
                    tables[i - 1].0.as_str()
                };
                let statement = aggregate_statement(tables[i].0.as_str(), interval, source, i == 0);
                statements.push(statement);
                proof {
                    assert(texts(statements@) =~= texts(before).push(statement@));
                    assert(texts(statements@) =~= head + aggregates_sql(
                        config.tick_table@,
                        tables@,
                        i + 1,
                    ));
                }
            },
            None => {},
        }
        i += 1;
    }
    let ghost before = statements@;
    let procedure = procedure_statement(config.cascade_procedure.as_str(), tables);
    statements.push(procedure);
    proof {
        assert(texts(statements@) =~= texts(before).push(procedure@));
        assert(texts(statements@) =~= schema_sql(*config));
    }
    statements
}

} // verus!
