use market_ingest::market_data::cascade::{
    initial_delay_seconds, CascadeScheduler, CASCADE_INTERVAL_SECONDS,
};

#[test]
fn first_firing_falls_on_the_grid() {
    assert_eq!(initial_delay_seconds(0), 1);
    assert_eq!(initial_delay_seconds(1), 5);
    assert_eq!(initial_delay_seconds(3), 3);
    assert_eq!(initial_delay_seconds(5), 1);
    assert_eq!(initial_delay_seconds(55), 1);
    assert_eq!(initial_delay_seconds(56), 5);
    assert_eq!(initial_delay_seconds(57), 4);
    assert_eq!(initial_delay_seconds(59), 2);
    for second in 0..60u32 {
        let delay = initial_delay_seconds(second);
        assert!((1..=5).contains(&delay));
        assert_eq!((second + delay) % 5, 1);
    }
    assert_eq!(initial_delay_seconds(u32::MAX), 1);
}

#[test]
fn timer_that_fires_during_an_invocation_starts_none() {
    let mut scheduler = CascadeScheduler::new();
    assert!(!scheduler.schedule_cascade("cascade_forex_aggregate_refresh".to_string(), CASCADE_INTERVAL_SECONDS));
    assert_eq!(
        scheduler.timer_fired("cascade_forex_aggregate_refresh"),
        Some("CALL cascade_forex_aggregate_refresh()".to_string())
    );
    assert_eq!(scheduler.timer_fired("cascade_forex_aggregate_refresh"), None);
    assert_eq!(scheduler.timer_fired("cascade_forex_aggregate_refresh"), None);
    scheduler.invocation_finished("cascade_forex_aggregate_refresh");
    assert!(scheduler.timer_fired("cascade_forex_aggregate_refresh").is_some());
}

#[test]
fn procedures_do_not_hold_each_other_up() {
    let mut scheduler = CascadeScheduler::new();
    scheduler.schedule_cascade("cascade_forex_aggregate_refresh".to_string(), 5);
    scheduler.schedule_cascade("cascade_crypto_aggregate_refresh".to_string(), 5);
    assert!(scheduler.timer_fired("cascade_forex_aggregate_refresh").is_some());
    assert_eq!(
        scheduler.timer_fired("cascade_crypto_aggregate_refresh"),
        Some("CALL cascade_crypto_aggregate_refresh()".to_string())
    );
    scheduler.invocation_finished("cascade_crypto_aggregate_refresh");
    assert!(scheduler.timer_fired("cascade_forex_aggregate_refresh").is_none());
    assert!(scheduler.timer_fired("cascade_crypto_aggregate_refresh").is_some());
}

#[test]
fn scheduling_again_replaces_the_schedule_and_keeps_the_invocation() {
    let mut scheduler = CascadeScheduler::new();
    assert!(!scheduler.schedule_cascade("p".to_string(), 5));
    assert!(scheduler.timer_fired("p").is_some());
    assert!(scheduler.schedule_cascade("p".to_string(), 10));
    assert!(scheduler.timer_fired("p").is_none());
    scheduler.invocation_finished("p");
    assert!(scheduler.timer_fired("p").is_some());
}

#[test]
fn timer_of_an_unknown_procedure_starts_nothing() {
    let mut scheduler = CascadeScheduler::new();
    assert!(scheduler.timer_fired("p").is_none());
    scheduler.invocation_finished("p");
    assert!(scheduler.timer_fired("p").is_none());
}

#[test]
fn schedule_holds_the_interval_of_its_timer() {
    let mut scheduler = CascadeScheduler::new();
    assert_eq!(scheduler.interval_seconds("p"), None);
    scheduler.schedule_cascade("p".to_string(), CASCADE_INTERVAL_SECONDS);
    assert_eq!(scheduler.interval_seconds("p"), Some(5));
    scheduler.schedule_cascade("p".to_string(), 0);
    assert_eq!(scheduler.interval_seconds("p"), Some(1));
    scheduler.schedule_cascade("q".to_string(), 1);
    assert_eq!(scheduler.interval_seconds("q"), Some(1));
    assert!(scheduler.timer_fired("p").is_some());
    scheduler.invocation_finished("p");
    assert_eq!(scheduler.interval_seconds("p"), Some(1));
    scheduler.schedule_cascade("p".to_string(), u64::MAX);
    assert_eq!(scheduler.interval_seconds("p"), Some(u64::MAX));
}

#[test]
fn cancelled_timer_ends_its_invocation() {
    let mut scheduler = CascadeScheduler::new();
    scheduler.schedule_cascade("p".to_string(), 5);
    assert!(scheduler.timer_fired("p").is_some());
    assert!(scheduler.schedule_cascade("p".to_string(), 5));
    assert!(scheduler.timer_fired("p").is_none());
    scheduler.timer_cancelled("p");
    assert!(scheduler.timer_fired("p").is_some());
    scheduler.timer_cancelled("q");
    assert!(scheduler.timer_fired("q").is_none());
    assert_eq!(scheduler.interval_seconds("p"), Some(5));
}
