use codex_keyboard_quota::ccswitch::RelayBalance;
use codex_keyboard_quota::consumption::{ConsumptionChart, ConsumptionHistory};
use codex_keyboard_quota::quota::{
    calculate_week_reset_cells, choose_reset_time_text, format_display_percent,
    latest_consumption,
    parse_registry_number, read_optional_registry_number, read_recorded_status,
    registry_number_text, should_refresh, write_recorded_status, QuotaStatus, RecordedStatus,
    RegistryValue, StoredRecord, SEVEN_DAY_WINDOW_MINUTES,
};

fn status(five_hour: Option<u8>, seven_day: Option<u8>, cells: Option<u8>) -> QuotaStatus {
    QuotaStatus {
        relay: None,
        five_hour,
        seven_day,
        seven_day_resets_at: None,
        reset_cells: cells,
    }
}

fn record(five_hour: Option<u8>, seven_day: Option<u8>, cells: Option<u8>) -> RecordedStatus {
    RecordedStatus {
        relay: None,
        five_hour,
        seven_day,
        reset_cells: cells,
    }
}

fn relay(provider: &str, remaining: Option<i64>, unit: &str) -> RelayBalance {
    RelayBalance {
        chart: ConsumptionChart::default(),
        provider_id: provider.to_owned(),
        name: provider.to_owned(),
        remaining,
        unit: unit.to_owned(),
        detail: String::new(),
    }
}

fn relay_status(balance: RelayBalance) -> QuotaStatus {
    QuotaStatus {
        relay: Some(balance),
        five_hour: None,
        seven_day: None,
        seven_day_resets_at: None,
        reset_cells: None,
    }
}

#[test]
fn formats_percent_for_keyboard() {
    assert_eq!(format_display_percent(None), "--");
    assert_eq!(format_display_percent(Some(5)), "05");
    assert_eq!(format_display_percent(Some(82)), "82");
    assert_eq!(format_display_percent(Some(100)), "99");
}

#[test]
fn refreshes_at_equal_thresholds() {
    let recorded = record(Some(50), Some(50), Some(10));
    assert!(should_refresh(
        &status(Some(45), Some(50), Some(9)),
        Some(&recorded)
    ));
    assert!(should_refresh(
        &status(Some(50), Some(48), Some(9)),
        Some(&recorded)
    ));
    assert!(!should_refresh(
        &status(Some(46), Some(49), Some(0)),
        Some(&recorded)
    ));
}

#[test]
fn refreshes_every_low_quota_change() {
    let recorded = record(Some(4), Some(4), Some(1));
    assert!(should_refresh(
        &status(Some(3), Some(4), Some(1)),
        Some(&recorded)
    ));
    assert!(should_refresh(
        &status(Some(4), Some(3), Some(1)),
        Some(&recorded)
    ));

    let five_percent = record(Some(6), Some(6), Some(1));
    assert!(!should_refresh(
        &status(Some(5), Some(5), Some(1)),
        Some(&five_percent)
    ));
}

#[test]
fn ignores_hourglass_only_change() {
    let recorded = record(Some(40), Some(29), Some(10));
    assert!(!should_refresh(
        &status(Some(40), Some(29), Some(1)),
        Some(&recorded)
    ));
}

#[test]
fn refreshes_when_window_appears_or_disappears() {
    let recorded = record(None, Some(82), Some(7));
    assert!(should_refresh(
        &status(Some(99), Some(82), Some(7)),
        Some(&recorded)
    ));
    assert!(!should_refresh(
        &status(None, Some(82), Some(2)),
        Some(&recorded)
    ));
}

#[test]
fn maps_week_reset_to_ten_cells() {
    let now = 1_000_000;
    let week = (SEVEN_DAY_WINDOW_MINUTES * 60) as i64;
    assert_eq!(calculate_week_reset_cells(Some(now + week), now), Some(10));
    assert_eq!(
        calculate_week_reset_cells(Some(now + week / 2), now),
        Some(5)
    );
    assert_eq!(calculate_week_reset_cells(Some(now - 1), now), Some(0));
    assert_eq!(calculate_week_reset_cells(None, now), None);
}

#[test]
fn first_run_is_always_shown() {
    assert!(should_refresh(&status(None, None, None), None));
}

#[test]
fn hourglass_runs_down_cell_by_cell() {
    let week = (SEVEN_DAY_WINDOW_MINUTES * 60) as i64;
    let mut last = 10;
    for second in 0..=week {
        if second % 997 == 0 || second == week {
            let cells = calculate_week_reset_cells(Some(week), second).unwrap();
            assert!(cells <= last);
            let left = (week - second) as f64 / (week as f64 / 10.0);
            assert_eq!(cells, (left + 0.5) as u8);
            last = cells;
        }
    }
    assert_eq!(last, 0);
    assert_eq!(calculate_week_reset_cells(Some(week * 9), 0), Some(10));
}

#[test]
fn relay_changes_follow_their_own_rules() {
    let shown = relay_status(relay("a", Some(10_000_000), "USD"));
    let recorded = shown.recorded();
    assert!(!should_refresh(&shown, Some(&recorded)));
    for (remaining, due) in [
        (Some(9_000_001), false),
        (Some(9_000_000), true),
        (Some(10_999_999), false),
        (Some(11_000_000), true),
        (None, true),
    ] {
        let now = relay_status(relay("a", remaining, "USD"));
        assert_eq!(should_refresh(&now, Some(&recorded)), due);
    }
    assert!(should_refresh(
        &relay_status(relay("b", Some(10_000_000), "USD")),
        Some(&recorded)
    ));
    assert!(should_refresh(
        &relay_status(relay("a", Some(10_000_000), "CNY")),
        Some(&recorded)
    ));
    assert!(should_refresh(
        &status(None, None, None),
        Some(&recorded)
    ));
    assert!(should_refresh(
        &shown,
        Some(&record(None, None, None))
    ));
    let mut sampled = relay("a", Some(10_000_000), "USD");
    sampled.chart.end_at = 1800;
    assert!(should_refresh(&relay_status(sampled), Some(&recorded)));
}

#[test]
fn shows_both_percentages_in_one_text() {
    assert_eq!(status(Some(7), None, None).display_message(), "07|--%");
    assert_eq!(status(Some(100), Some(34), None).display_message(), "99|34%");
}

#[test]
fn chooses_the_text_for_the_weekly_reset() {
    assert_eq!(choose_reset_time_text(None, None), "--（无周窗口）");
    assert_eq!(
        choose_reset_time_text(Some(1), Some("then".to_owned())),
        "then"
    );
    assert_eq!(choose_reset_time_text(Some(1), None), "时间格式错误");
}

#[test]
fn reset_time_is_the_local_time() {
    let mut shown = status(None, Some(50), Some(3));
    assert_eq!(shown.reset_time_text(), "--（无周窗口）");
    shown.seven_day_resets_at = Some(1_700_000_000);
    let local = chrono::DateTime::from_timestamp(1_700_000_000, 0)
        .unwrap()
        .with_timezone(&chrono::Local);
    assert_eq!(
        shown.reset_time_text(),
        local.format("%Y-%m-%d %H:%M:%S").to_string()
    );
    shown.seven_day_resets_at = Some(i64::MAX);
    assert_eq!(shown.reset_time_text(), "时间格式错误");
    shown.seven_day_resets_at = Some(-8_334_601_228_801);
    assert_eq!(shown.reset_time_text(), "时间格式错误");
    shown.seven_day_resets_at = Some(8_210_266_876_800);
    assert_eq!(shown.reset_time_text(), "时间格式错误");
}

#[test]
fn stored_numbers_read_back() {
    for value in 0..=100u8 {
        let text = registry_number_text(Some(value));
        assert_eq!(
            parse_registry_number(&text, "value", 100).unwrap(),
            Some(value)
        );
    }
    let text = registry_number_text(None);
    assert_eq!(parse_registry_number(&text, "value", 100).unwrap(), None);
}

#[test]
fn stored_numbers_out_of_range_are_rejected() {
    for text in ["256", "-1", "x", "1 ", ""] {
        let error = parse_registry_number(text, "FiveHour", 100).unwrap_err();
        assert_eq!(
            error.message(),
            format!("注册表 FiveHour 不是有效数值：{text}")
        );
    }
    let error = parse_registry_number("101", "FiveHour", 100).unwrap_err();
    assert_eq!(error.message(), "注册表 FiveHour 超出允许范围：101");
    assert!(parse_registry_number("11", "Cells", 10).is_err());
    assert_eq!(parse_registry_number("+7", "Cells", 10).unwrap(), Some(7));
    assert!(
        read_optional_registry_number(&RegistryValue::Text("200".to_owned()), "Cells", 10).is_err()
    );
    assert_eq!(
        read_optional_registry_number(&RegistryValue::Dword(10), "Cells", 10).unwrap(),
        Some(Some(10))
    );
    let error = read_optional_registry_number(&RegistryValue::Dword(300), "Cells", 10).unwrap_err();
    assert_eq!(error.message(), "注册表 Cells 超出允许范围：300");
    let error = read_optional_registry_number(
        &RegistryValue::Unreadable("denied".to_owned()),
        "Cells",
        10,
    )
    .unwrap_err();
    assert_eq!(error.message(), "无法读取注册表 Cells: denied");
}

#[test]
fn written_record_reads_back() {
    let shown = status(Some(44), None, Some(9));
    let stored = write_recorded_status(&shown);
    let restored = read_recorded_status(&stored, None).unwrap().unwrap();
    assert_eq!(restored, shown.recorded());
}

#[test]
fn missing_value_counts_as_a_first_run() {
    let stored = StoredRecord {
        five_hour: RegistryValue::Text("1".to_owned()),
        seven_day: RegistryValue::Missing,
        reset_cells: RegistryValue::Text("99".to_owned()),
    };
    assert!(read_recorded_status(&stored, None).unwrap().is_none());
    let stored = StoredRecord {
        five_hour: RegistryValue::Text("1".to_owned()),
        seven_day: RegistryValue::Text("2".to_owned()),
        reset_cells: RegistryValue::Text("99".to_owned()),
    };
    assert!(read_recorded_status(&stored, None).is_err());
}

#[test]
fn percentages_do_not_count_for_a_relay() {
    let mut current = relay_status(relay("a", Some(5_000_000), "USD"));
    let recorded = current.recorded();
    current.five_hour = Some(1);
    current.seven_day = Some(90);
    assert!(!should_refresh(&current, Some(&recorded)));
    current.relay = Some(relay("a", Some(6_000_000), "USD"));
    assert!(should_refresh(&current, Some(&recorded)));
    current.relay = None;
    assert!(should_refresh(&current, Some(&recorded)));
}

#[test]
fn latest_chart_holds_the_running_period() {
    assert_eq!(latest_consumption(None), ConsumptionChart::default());
    let mut history = ConsumptionHistory::new(1_000, Some(5_000_000));
    history.sample(1_060, Some(4_000_000));
    let chart = latest_consumption(Some(&history));
    assert_eq!(chart.end_at, 1_000);
    assert_eq!(chart.bars[9], Some(1_000_000));
    assert_eq!(history.chart().bars[9], None);
}
