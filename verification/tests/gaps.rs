use market_ingest::market_data::commands::{check_data_gaps, largest_gaps};
use market_ingest::market_data::gaps::{
    last_gap, latest_tick, list_gaps, plan_backfill, window_times, BackfillReason,
    BackfillRequest, Gap, GAP_THRESHOLD, INITIAL_HISTORY_SPAN, RECENT_SPAN, SCAN_SPAN,
};

const MINUTE: i64 = 60_000_000;
const HOUR: i64 = 60 * MINUTE;
const DAY: i64 = 24 * HOUR;
const T: i64 = 1_700_000_000_000_000;

#[test]
fn gap_between_second_and_third_tick_is_found() {
    let now = T + 2 * HOUR + 11 * MINUTE;
    let times = vec![T, T + 30 * MINUTE, T + 2 * HOUR + 10 * MINUTE, now];
    assert_eq!(
        last_gap(&times, now, SCAN_SPAN),
        Some(Gap { start: T + 30 * MINUTE, end: T + 2 * HOUR + 10 * MINUTE })
    );
    assert_eq!(
        plan_backfill(&times, now),
        Some(BackfillRequest { from: T + 30 * MINUTE, reason: BackfillReason::InternalGap })
    );
}

#[test]
fn gap_scan_does_not_depend_on_the_order_of_the_ticks() {
    let now = T + 2 * HOUR + 11 * MINUTE;
    let times = vec![now, T + 2 * HOUR + 10 * MINUTE, T, T + 30 * MINUTE, T];
    assert_eq!(
        last_gap(&times, now, SCAN_SPAN),
        Some(Gap { start: T + 30 * MINUTE, end: T + 2 * HOUR + 10 * MINUTE })
    );
}

#[test]
fn symbol_without_ticks_asks_for_sixty_days() {
    let now = T;
    let plan = plan_backfill(&Vec::new(), now);
    assert_eq!(
        plan,
        Some(BackfillRequest { from: now - 60 * DAY, reason: BackfillReason::NoHistory })
    );
    assert_eq!(INITIAL_HISTORY_SPAN, 60 * DAY);
}

#[test]
fn tick_ten_minutes_old_asks_from_that_tick() {
    let now = T + 10 * MINUTE;
    let times = vec![T - 20 * MINUTE, T - 10 * MINUTE, T];
    assert_eq!(
        plan_backfill(&times, now),
        Some(BackfillRequest { from: T, reason: BackfillReason::FeedWasDown })
    );
}

#[test]
fn current_history_without_gap_asks_for_nothing() {
    let now = T + MINUTE;
    let times = vec![T - 50 * MINUTE, T - 20 * MINUTE, T];
    assert_eq!(plan_backfill(&times, now), None);
}

#[test]
fn five_minutes_is_still_recent_and_one_hour_is_no_gap() {
    let now = T + RECENT_SPAN;
    let times = vec![T - GAP_THRESHOLD, T];
    assert_eq!(plan_backfill(&times, now), None);
    let later = now + 1;
    assert_eq!(
        plan_backfill(&times, later),
        Some(BackfillRequest { from: T, reason: BackfillReason::FeedWasDown })
    );
    let wider = vec![T - GAP_THRESHOLD - 1, T];
    assert_eq!(
        plan_backfill(&wider, now),
        Some(BackfillRequest { from: T - GAP_THRESHOLD - 1, reason: BackfillReason::InternalGap })
    );
}

#[test]
fn the_most_recent_of_two_gaps_counts() {
    let now = T;
    let times = vec![T - 10 * HOUR, T - 8 * HOUR, T - 7 * HOUR, T - 5 * HOUR, T - 4 * HOUR - 30 * MINUTE, T - 4 * HOUR, T - 3 * HOUR - 30 * MINUTE, T - 3 * HOUR, T - 2 * HOUR - 30 * MINUTE, T - 2 * HOUR, T - 90 * MINUTE, T - HOUR, T - 30 * MINUTE, T];
    assert_eq!(
        plan_backfill(&times, now),
        Some(BackfillRequest { from: T - 7 * HOUR, reason: BackfillReason::InternalGap })
    );
}

#[test]
fn gaps_older_than_ninety_days_are_not_seen() {
    let now = T;
    let times = vec![T - 100 * DAY, T - 95 * DAY, T - 30 * MINUTE, T];
    assert_eq!(plan_backfill(&times, now), None);
    assert_eq!(window_times(&times, now, SCAN_SPAN), vec![T - 30 * MINUTE, T]);
}

#[test]
fn latest_tick_is_the_maximum() {
    assert_eq!(latest_tick(&Vec::new()), None);
    assert_eq!(latest_tick(&vec![3, 9, -4, 9, 1]), Some(9));
    assert_eq!(latest_tick(&vec![i64::MIN]), Some(i64::MIN));
}

#[test]
fn window_holds_each_time_once_in_order() {
    assert_eq!(window_times(&vec![5, 1, 5, 3, 1], 10, 100), vec![1, 3, 5]);
    assert_eq!(window_times(&vec![5, 1, 5, 3, 1], 10, 8), vec![3, 5]);
}

#[test]
fn gaps_are_listed_from_the_earliest() {
    let now = T;
    let times = vec![T - 9 * HOUR, T - 6 * HOUR, T - 5 * HOUR - 30 * MINUTE, T - 2 * HOUR, T];
    assert_eq!(
        list_gaps(&times, now, SCAN_SPAN),
        vec![
            Gap { start: T - 9 * HOUR, end: T - 6 * HOUR },
            Gap { start: T - 5 * HOUR - 30 * MINUTE, end: T - 2 * HOUR },
            Gap { start: T - 2 * HOUR, end: T },
        ]
    );
}

#[test]
fn largest_gaps_come_first_and_are_limited() {
    let gaps = vec![
        Gap { start: 0, end: 10 },
        Gap { start: 20, end: 50 },
        Gap { start: 60, end: 70 },
        Gap { start: 80, end: 110 },
        Gap { start: 120, end: 125 },
    ];
    assert_eq!(
        largest_gaps(gaps.clone(), 3),
        vec![Gap { start: 20, end: 50 }, Gap { start: 80, end: 110 }, Gap { start: 0, end: 10 }]
    );
    assert_eq!(largest_gaps(gaps.clone(), 0), Vec::new());
    assert_eq!(largest_gaps(gaps, 9).len(), 5);
}

#[test]
fn gap_report_of_a_history() {
    let now = 1_705_314_600_000_000 + 7 * MINUTE + 30_000_000;
    let last = 1_705_314_600_000_000;
    let times = vec![last - 5 * HOUR, last - 2 * HOUR, last - HOUR, last];
    let info = check_data_gaps("EURUSD", &times, now);
    assert_eq!(info.symbol, "EURUSD");
    assert!(info.has_data);
    assert_eq!(info.last_tick.as_deref(), Some("2024-01-15T10:30:00+00:00"));
    assert_eq!(info.gap_minutes, Some(7));
    assert_eq!(info.gaps, vec![Gap { start: last - 5 * HOUR, end: last - 2 * HOUR }]);
}

#[test]
fn gap_report_without_data() {
    let info = check_data_gaps("EURUSD", &Vec::new(), T);
    assert!(!info.has_data);
    assert_eq!(info.last_tick, None);
    assert_eq!(info.gap_minutes, None);
    assert!(info.gaps.is_empty());
}
