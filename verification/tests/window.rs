use codex_keyboard_quota::ccswitch::RelayBalance;
use codex_keyboard_quota::consumption::{ConsumptionChart, BAR_COUNT, WINDOW_SECONDS};
use codex_keyboard_quota::deploy::RemovalResult;
use codex_keyboard_quota::quota::QuotaStatus;
use codex_keyboard_quota::service::{
    collect_system_snapshot, DisplaySnapshot, RefreshAction, RefreshOutcome, SystemSnapshot,
};
use codex_keyboard_quota::window::{
    app_icon, check_columns, connection_text, consumption_text, deploy_completion,
    display_completion, draw_connection_status, draw_consumption, draw_quota_status,
    hourglass_text, is_stale, period_date, period_end, period_start, period_time,
    probe_completion, quota_level, quota_text, removal_completion, BackgroundTask,
    ConsumptionPanel, QuotaLevel, QuotaPanel, QuotaWindow, TaskCompletion, DETAILS_LIMIT,
};

fn status(five_hour: Option<u8>, seven_day: Option<u8>, cells: Option<u8>) -> QuotaStatus {
    QuotaStatus {
        relay: None,
        five_hour,
        seven_day,
        seven_day_resets_at: None,
        reset_cells: cells,
    }
}

fn relay(end_at: i64) -> RelayBalance {
    let mut bars = [None; BAR_COUNT];
    bars[1] = Some(0);
    bars[9] = Some(2_500_000);
    RelayBalance {
        chart: ConsumptionChart { end_at, bars },
        provider_id: "fixture".to_owned(),
        name: "fixture".to_owned(),
        remaining: Some(148_000_000),
        unit: "USD".to_owned(),
        detail: "ok".to_owned(),
    }
}

fn snapshot(deployed: bool) -> SystemSnapshot {
    collect_system_snapshot(
        "T".to_owned(),
        Ok(true),
        Ok((status(Some(50), Some(40), Some(3)), "codex".to_owned())),
        deployed,
    )
}

fn window() -> QuotaWindow {
    let mut window = QuotaWindow::new("0.1.0", "font");
    window.details = String::new();
    window
}

#[test]
fn preserves_consumption_precision_and_missing_values() {
    assert_eq!(consumption_text(None), "--");
    assert_eq!(consumption_text(Some(0)), "0");
    assert_eq!(consumption_text(Some(1)), "0.000001");
    assert_eq!(consumption_text(Some(2_500_000)), "2.5");
    assert_eq!(consumption_text(Some(u64::MAX)), "18446744073709.551615");
}

#[test]
fn amounts_are_trimmed_like_decimals() {
    for amount in [10_000_000u64, 100_000, 1_000_001, 123_456_000, 1_900_000_000] {
        let text = format!("{}.{:06}", amount / 1_000_000, amount % 1_000_000);
        let expected = text.trim_end_matches('0').trim_end_matches('.');
        assert_eq!(consumption_text(Some(amount)), expected);
    }
}

#[test]
fn window_opens_idle() {
    let window = QuotaWindow::new("0.1.0", "font");
    assert_eq!(window.details, "Codex 键盘额度工具 v0.1.0 已启动。\nfont");
    assert!(!window.busy);
    assert!(!window.close_requested);
    assert_eq!(window.startup_repaints, 180);
}

#[test]
fn one_operation_runs_at_a_time() {
    let mut window = window();
    assert!(window.spawn_task(BackgroundTask::Probe));
    assert!(!window.spawn_task(BackgroundTask::Deploy));
    assert_eq!(window.current_task, Some(BackgroundTask::Probe));
    assert_eq!(
        window.details,
        "开始：检测状态\n已有操作正在执行，请等待完成。"
    );
    window.poll_worker(Ok(TaskCompletion {
        snapshot: Some(snapshot(true)),
        details: vec!["a".to_owned(), "b".to_owned()],
        exit_after: true,
    }));
    assert!(!window.busy);
    assert!(window.close_requested);
    assert!(window.snapshot.is_some());
    assert!(window.details.ends_with("\na\nb\n完成：检测状态"));
    assert!(window.spawn_task(BackgroundTask::Remove));
    window.poll_worker(Err("why".to_owned()));
    assert!(!window.busy);
    assert!(window.snapshot.is_some());
    assert!(window.details.ends_with("\n一键移除失败：why"));
    window.poll_worker(Err("late".to_owned()));
    assert!(window.details.ends_with("\n后台操作失败：late"));
}

#[test]
fn every_operation_has_a_label() {
    assert_eq!(BackgroundTask::Probe.label(), "检测状态");
    assert_eq!(BackgroundTask::TestDisplay.label(), "测试显示");
    assert_eq!(BackgroundTask::Deploy.label(), "一键部署");
    assert_eq!(BackgroundTask::Remove.label(), "一键移除");
}

#[test]
fn details_are_cut_from_the_front() {
    let mut window = window();
    window.append_detail(&"x".repeat(DETAILS_LIMIT));
    assert_eq!(window.details.len(), DETAILS_LIMIT);
    window.append_detail("end");
    assert_eq!(window.details.len(), 24_000);
    assert!(window.details.ends_with("xxx\nend"));
    window.details = "中".repeat(10_667);
    window.append_detail("e");
    assert_eq!(window.details.len(), 23_999);
    assert!(window.details.ends_with("中\ne"));
    assert!(window.details.starts_with("中"));
}

#[test]
fn failed_sync_keeps_the_last_picture() {
    let mut window = window();
    window.receive_display(Ok(DisplaySnapshot {
        frame: Some(vec![1, 2, 3]),
        relay: None,
    }));
    window.receive_display(Err("busy".to_owned()));
    assert_eq!(window.display_error, Some("busy".to_owned()));
    assert_eq!(
        window.display.as_ref().unwrap().frame,
        Some(vec![1, 2, 3])
    );
    window.receive_display(Ok(DisplaySnapshot {
        frame: None,
        relay: None,
    }));
    assert_eq!(window.display_error, None);
    assert!(window.display.unwrap().frame.is_none());
}

#[test]
fn columns_are_half_hours() {
    assert_eq!(period_start(18_000, 9), 18_000);
    assert_eq!(period_start(18_000, 0), 1_800);
    for column in 0..BAR_COUNT {
        let end = period_end(18_000, column);
        assert_eq!(end, period_start(18_000, column) + WINDOW_SECONDS);
        if column + 1 < BAR_COUNT {
            assert_eq!(end, period_start(18_000, column + 1));
        }
    }
    assert!(check_columns(0));
    assert!(!check_columns(i64::MIN));
    assert!(check_columns(i64::MIN + 9 * WINDOW_SECONDS));
    assert!(!check_columns(i64::MIN + 9 * WINDOW_SECONDS - 1));
    assert_eq!(period_start(i64::MIN + 9 * WINDOW_SECONDS, 0), i64::MIN);
    assert!(!check_columns(i64::MAX));
    assert!(check_columns(i64::MAX - WINDOW_SECONDS));
    assert!(!check_columns(i64::MAX - WINDOW_SECONDS + 1));
    assert!(is_stale(1800, 0));
    assert!(!is_stale(1799, 0));
    assert!(!is_stale(i64::MAX, i64::MAX));
}

#[test]
fn labels_times_in_the_local_zone() {
    let local = chrono::DateTime::from_timestamp(1_700_000_000, 0)
        .unwrap()
        .with_timezone(&chrono::Local);
    assert_eq!(
        period_time(1_700_000_000),
        local.format("%H:%M").to_string()
    );
    assert_eq!(
        period_date(1_700_000_000),
        local.format("%Y-%m-%d %H:%M").to_string()
    );
    assert_eq!(period_time(i64::MAX), "无效时间");
    assert_eq!(period_date(i64::MIN), "无效时间");
}

#[test]
fn shows_the_consumption_of_a_relay() {
    assert!(matches!(
        draw_consumption(None, 0),
        ConsumptionPanel::Official
    ));
    assert!(matches!(
        draw_consumption(Some(&relay(0)), 0),
        ConsumptionPanel::Unsampled
    ));
    match draw_consumption(Some(&relay(1_700_000_000)), 1_700_001_800) {
        ConsumptionPanel::Table {
            current,
            since,
            stale,
            columns,
            note,
        } => {
            assert_eq!(current, "2.5 USD");
            assert_eq!(since, period_time(1_700_000_000));
            assert!(stale);
            assert_eq!(columns.len(), BAR_COUNT);
            assert_eq!(columns[0].amount, "--");
            assert_eq!(columns[1].amount, "0");
            assert_eq!(columns[9].amount, "2.5");
            assert_eq!(columns[9].end, period_time(1_700_001_800));
            assert_eq!(columns[0].start, period_time(1_700_000_000 - 9 * 1800));
            assert_eq!(columns[0].start_date, period_date(1_700_000_000 - 9 * 1800));
            assert_eq!(
                note,
                "金额单位：USD · 最右列为该周期内累计"
            );
        }
        other => panic!("{other:?}"),
    }
}

#[test]
fn shows_the_quota() {
    assert_eq!(quota_text(Some(100)), "99%");
    assert_eq!(quota_text(Some(7)), "7%");
    assert_eq!(quota_text(None), "--");
    assert_eq!(quota_level(None), QuotaLevel::Good);
    assert_eq!(quota_level(Some(60)), QuotaLevel::Good);
    assert_eq!(quota_level(Some(59)), QuotaLevel::Fair);
    assert_eq!(quota_level(Some(20)), QuotaLevel::Fair);
    assert_eq!(quota_level(Some(19)), QuotaLevel::Low);
    assert_eq!(hourglass_text(Some(8)), "8 / 10 格");
    assert_eq!(hourglass_text(None), "--");
    match draw_quota_status(None) {
        QuotaPanel::Official {
            five_hour, resets, ..
        } => {
            assert_eq!(five_hour, "--");
            assert_eq!(resets, "--");
        }
        other => panic!("{other:?}"),
    }
    match draw_quota_status(Some(&status(Some(60), Some(19), Some(8)))) {
        QuotaPanel::Official {
            five_hour,
            five_hour_level,
            seven_day,
            seven_day_level,
            resets,
            hourglass,
        } => {
            assert_eq!(five_hour, "60%");
            assert_eq!(five_hour_level, QuotaLevel::Good);
            assert_eq!(seven_day, "19%");
            assert_eq!(seven_day_level, QuotaLevel::Low);
            assert_eq!(resets, "--（无周窗口）");
            assert_eq!(hourglass, "8 / 10 格");
        }
        other => panic!("{other:?}"),
    }
    let mut shown = status(None, None, None);
    shown.relay = Some(relay(0));
    match draw_quota_status(Some(&shown)) {
        QuotaPanel::Relay {
            name,
            remaining,
            detail,
        } => {
            assert_eq!(name, "fixture");
            assert_eq!(remaining, "148 USD");
            assert_eq!(detail, "ok");
        }
        other => panic!("{other:?}"),
    }
}

#[test]
fn shows_the_connections() {
    let rows = draw_connection_status(None);
    assert!(rows.iter().all(|row| row.state.is_none()));
    assert!(rows.iter().all(|row| row.detail == "检测中"));
    let rows = draw_connection_status(Some(&snapshot(true)));
    assert_eq!(rows[0].label, "DP-104");
    assert_eq!(rows[1].detail, "codex");
    assert_eq!(rows[2].state, Some(true));
    assert_eq!(rows[2].detail, "已部署，每分钟检测");
    let rows = draw_connection_status(Some(&snapshot(false)));
    assert_eq!(rows[2].detail, "未部署");
    assert_eq!(connection_text(Some(true)), "正常");
    assert_eq!(connection_text(Some(false)), "异常");
    assert_eq!(connection_text(None), "检测中");
}

#[test]
fn draws_the_icon() {
    let rgba = app_icon();
    assert_eq!(rgba.len(), 32 * 32 * 4);
    let pixel = |x: usize, y: usize| &rgba[(y * 32 + x) * 4..(y * 32 + x) * 4 + 4];
    assert_eq!(pixel(0, 0), [139, 92, 246, 255]);
    assert_eq!(pixel(30, 5), [139, 92, 246, 255]);
    assert_eq!(pixel(12, 11), [52, 211, 153, 255]);
    assert_eq!(pixel(20, 21), [52, 211, 153, 255]);
    assert_eq!(pixel(6, 6), [71, 85, 105, 255]);
    assert_eq!(pixel(10, 15), [71, 85, 105, 255]);
    assert_eq!(pixel(3, 3), [17, 24, 39, 255]);
}

#[test]
fn reports_what_an_operation_came_to() {
    let completion = probe_completion(snapshot(true));
    assert_eq!(
        completion.details,
        [
            "DP-104 厂商 HID 已连接",
            "额度来源：codex",
            "已读取当前账号额度：50|40%",
            "自动刷新：已部署（任务：Codex DP-104 Quota）"
        ]
    );
    assert!(!completion.exit_after);
    let failed = collect_system_snapshot("T".to_owned(), Ok(false), Err("x".to_owned()), false);
    let completion = probe_completion(failed);
    assert_eq!(completion.details[1], "Codex 查询失败：x");
    assert_eq!(completion.details[3], "自动刷新：未部署");

    let outcome = RefreshOutcome {
        status: status(Some(50), Some(40), Some(3)),
        action: RefreshAction::Refreshed,
        codex_command: "codex".to_owned(),
        checked_at: "T".to_owned(),
    };
    let completion = display_completion(&outcome, true);
    assert_eq!(
        completion.details,
        [
            "额度来源：codex".to_owned(),
            outcome.summary(),
            "DP-104 HID 回显校验通过".to_owned()
        ]
    );
    assert!(completion.snapshot.unwrap().deployed);

    let completion = deploy_completion(vec!["d".to_owned()], snapshot(true));
    assert_eq!(completion.details, ["d"]);
    assert!(!completion.exit_after);

    let removal = RemovalResult {
        exit_after_remove: true,
        details: vec!["r".to_owned()],
    };
    let completion = removal_completion(removal, snapshot(true));
    assert!(completion.exit_after);
    assert_eq!(completion.details, ["r"]);
    assert!(!completion.snapshot.unwrap().deployed);
}

#[test]
fn first_frames_are_drawn_again() {
    let mut window = window();
    for left in (0..180).rev() {
        let request = window.update();
        assert!(request.repaint_at_start);
        assert!(!request.repaint_while_busy);
        assert!(!request.close);
        assert_eq!(window.startup_repaints, left);
    }
    window.spawn_task(BackgroundTask::Remove);
    assert!(window.update().repaint_while_busy);
    assert!(!window.update().repaint_at_start);
    window.poll_worker(Ok(TaskCompletion {
        snapshot: None,
        details: Vec::new(),
        exit_after: true,
    }));
    assert!(window.update().close);
}
