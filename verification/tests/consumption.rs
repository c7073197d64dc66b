use codex_keyboard_quota::consumption::{
    consumption_level, ConsumptionChart, ConsumptionHistory, BAR_COUNT, WINDOW_SECONDS,
};

type Stored = (i64, Vec<Option<u64>>, i64, Option<i64>, u64, bool);

fn store(history: &ConsumptionHistory) -> String {
    let stored: Stored = (
        history.chart.end_at,
        history.chart.bars.to_vec(),
        history.last_checked_at,
        history.last_balance,
        history.consumed,
        history.complete,
    );
    serde_json::to_string(&stored).unwrap()
}

fn restore(text: &str) -> ConsumptionHistory {
    let stored: Stored = serde_json::from_str(text).unwrap();
    let mut bars = [None; BAR_COUNT];
    bars.copy_from_slice(&stored.1);
    ConsumptionHistory {
        chart: ConsumptionChart {
            end_at: stored.0,
            bars,
        },
        last_checked_at: stored.2,
        last_balance: stored.3,
        consumed: stored.4,
        complete: stored.5,
    }
}

#[test]
fn levels_follow_exact_thresholds() {
    for (amount, expected) in [
        (0, 0),
        (99_999, 0),
        (100_000, 1),
        (999_999, 1),
        (1_000_000, 2),
        (1_999_999, 2),
        (2_000_000, 3),
        (4_999_999, 3),
        (5_000_000, 4),
        (9_999_999, 4),
        (10_000_000, 5),
    ] {
        assert_eq!(consumption_level(amount), expected);
    }
}

#[test]
fn accumulates_and_survives_process_restarts() {
    let mut history = ConsumptionHistory::new(1000, Some(100_000_000));
    for minute in 1..30 {
        history.sample(1000 + minute * 60, Some(100_000_000 - minute * 100_000));
    }
    assert_eq!(history.chart().bars, [None; BAR_COUNT]);
    let json = store(&history);
    let mut history: ConsumptionHistory = restore(&json);
    history.sample(2800, Some(97_000_000));
    assert_eq!(history.chart().bars[9], Some(3_000_000));
    assert_eq!(history.chart().end_at, 2800);
    for minute in 1..=30 {
        history.sample(2800 + minute * 60, Some(97_000_000));
    }
    assert_eq!(&history.chart().bars[8..], &[Some(3_000_000), Some(0)]);
}

#[test]
fn topups_do_not_cancel_consumption() {
    let mut history = ConsumptionHistory::new(0, Some(10_000_000));
    history.sample(60, Some(9_000_000));
    history.sample(120, Some(20_000_000));
    for minute in 3..=30 {
        history.sample(minute * 60, Some(19_000_000));
    }
    assert_eq!(history.chart().bars[9], Some(2_000_000));
}

#[test]
fn leaves_gaps_for_missing_measurements() {
    let mut history = ConsumptionHistory::new(0, Some(100_000_000));
    history.sample(60, None);
    for minute in 2..=30 {
        history.sample(minute * 60, Some(90_000_000));
    }
    assert_eq!(history.chart().bars[9], None);
    for minute in 31..=60 {
        history.sample(minute * 60, Some(90_000_000));
    }
    assert_eq!(history.chart().bars[9], Some(0));
    history.sample(3600 + 12 * WINDOW_SECONDS, Some(1_000_000));
    assert_eq!(history.chart().bars, [None; BAR_COUNT]);
}

#[test]
fn chart_rests_until_a_period_ends() {
    let mut history = ConsumptionHistory::new(0, Some(5_000_000));
    let mut time = 0;
    while time + 100 < WINDOW_SECONDS {
        time += 100;
        history.sample(time, Some(5_000_000));
        assert_eq!(history.chart(), ConsumptionChart::default());
    }
    history.sample(WINDOW_SECONDS, Some(4_500_000));
    assert_eq!(history.chart().end_at, WINDOW_SECONDS);
    assert_eq!(history.chart().bars[9], Some(500_000));
}

#[test]
fn late_close_leaves_the_period_empty() {
    let mut history = ConsumptionHistory::new(0, Some(5_000_000));
    for minute in 1..=25 {
        history.sample(minute * 60, Some(5_000_000));
    }
    history.sample(2 * WINDOW_SECONDS, Some(1_000_000));
    assert_eq!(history.chart().end_at, 2 * WINDOW_SECONDS);
    assert_eq!(history.chart().bars, [None; BAR_COUNT]);
    assert!(!history.complete);
}

#[test]
fn clock_that_runs_back_starts_anew() {
    let mut history = ConsumptionHistory::new(10_000, Some(5_000_000));
    history.sample(9_999, Some(4_000_000));
    assert_eq!(history.chart().end_at, 9_999);
    assert_eq!(history.consumed, 0);
    assert!(history.complete);
}

#[test]
fn samples_beyond_the_range_of_times_are_told() {
    let history = restore("[-9223372036854775808,[null,null,null,null,null,null,null,null,null,null],0,null,0,false]");
    assert!(!history.can_sample(10));
    assert!(history.can_sample(-1));
    assert!(!history.can_sample(0));
    assert!(ConsumptionHistory::new(0, None).can_sample(i64::MAX));
    assert!(!ConsumptionHistory::new(-1, None).can_sample(i64::MAX));
}

#[test]
fn bars_keep_their_order_while_they_move() {
    let mut history = ConsumptionHistory::new(0, Some(1_000_000_000));
    let mut balance = 1_000_000_000;
    for period in 1..=12 {
        balance -= period * 1_000_000;
        for minute in 1..=30 {
            history.sample((period - 1) * WINDOW_SECONDS + minute * 60, Some(balance));
        }
    }
    let expected: Vec<Option<u64>> = (3..=12).map(|period| Some(period * 1_000_000)).collect();
    assert_eq!(history.chart().bars.to_vec(), expected);
}

#[test]
fn equal_charts_are_the_same() {
    let mut other = ConsumptionChart::default();
    assert!(ConsumptionChart::default().same(&other));
    other.bars[4] = Some(0);
    assert!(!ConsumptionChart::default().same(&other));
}

#[test]
fn samples_keep_the_history_in_order() {
    let mut history = ConsumptionHistory::new(500, None);
    let mut time = 500i64;
    let mut state = 11u64;
    for _ in 0..5_000 {
        state = state.wrapping_mul(6_364_136_223_846_793_005).wrapping_add(99);
        time += (state >> 40) as i64 % 400 - 3;
        let balance = if state & 7 == 0 {
            None
        } else {
            Some((state >> 30) as i64 % 1_000_000)
        };
        history.sample(time, balance);
        let end = history.chart().end_at;
        assert!(end <= history.last_checked_at);
        assert!(history.last_checked_at < end + WINDOW_SECONDS);
        assert!(!history.complete || history.last_balance.is_some());
    }
}

#[test]
fn live_chart_ends_with_the_running_period() {
    let mut history = ConsumptionHistory::new(1_000, Some(9_000_000));
    assert_eq!(history.live_chart().end_at, 1_000);
    assert_eq!(history.live_chart().bars[9], Some(0));
    for minute in 1..=30 {
        history.sample(1_000 + minute * 60, Some(9_000_000 - minute * 100_000));
    }
    assert_eq!(history.chart().bars[9], Some(3_000_000));
    assert_eq!(history.live_chart().end_at, 2_800);
    assert_eq!(
        history.live_chart().bars[8..],
        [Some(3_000_000), Some(0)]
    );
    history.sample(2_860, Some(5_500_000));
    assert_eq!(history.chart().bars[9], Some(3_000_000));
    assert_eq!(
        history.live_chart().bars[8..],
        [Some(3_000_000), Some(500_000)]
    );
    history.sample(2_920, None);
    assert_eq!(history.live_chart().bars[8..], [Some(3_000_000), None]);
}

#[test]
fn live_chart_becomes_the_chart() {
    let mut history = ConsumptionHistory::new(1_000, Some(9_000_000));
    for minute in 1..=29 {
        history.sample(1_000 + minute * 60, Some(9_000_000 - minute * 100_000));
    }
    let live = history.live_chart();
    history.sample(2_800, Some(7_000_000));
    assert_eq!(live.bars[9], Some(2_900_000));
    assert_eq!(history.chart().bars, live.bars);
    assert_eq!(history.chart().end_at, live.end_at + WINDOW_SECONDS);
}
