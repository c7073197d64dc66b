use codex_keyboard_quota::ccswitch::RelayBalance;
use codex_keyboard_quota::consumption::{ConsumptionChart, ConsumptionHistory};
use codex_keyboard_quota::keyboard::{self, KeyboardError};
use codex_keyboard_quota::quota::{self, QuotaStatus};
use codex_keyboard_quota::service::{
    assemble_display_snapshot, collect_system_snapshot, read_display_snapshot,
    record_background_error, refresh_once, relay_quota, reset_cells_text, run_background_refresh,
    snapshot_from_refresh, time_text, LockError, RefreshAction, RefreshOutcome, RefreshPlan,
};

fn official(five_hour: Option<u8>, seven_day: Option<u8>, cells: Option<u8>) -> QuotaStatus {
    QuotaStatus {
        relay: None,
        five_hour,
        seven_day,
        seven_day_resets_at: None,
        reset_cells: cells,
    }
}

fn relay(remaining: Option<i64>) -> RelayBalance {
    RelayBalance {
        chart: ConsumptionChart::default(),
        provider_id: "p".to_owned(),
        name: "Relay".to_owned(),
        remaining,
        unit: "USD".to_owned(),
        detail: "已读取".to_owned(),
    }
}

fn outcome(status: QuotaStatus, action: RefreshAction) -> RefreshOutcome {
    RefreshOutcome {
        status,
        action,
        codex_command: "codex.exe".to_owned(),
        checked_at: "T".to_owned(),
    }
}

#[test]
fn display_snapshot_keeps_recorded_frame_separate_from_live_chart() {
    let empty = assemble_display_snapshot(None, None).unwrap();
    assert!(empty.frame.is_none());
    assert!(empty.relay.is_none());
    let official = quota::RecordedStatus {
        relay: None,
        five_hour: Some(80),
        seven_day: Some(20),
        reset_cells: Some(6),
    };
    let snapshot = assemble_display_snapshot(Some(official), None).unwrap();
    assert_eq!(
        snapshot.frame.unwrap().len(),
        keyboard::MATRIX_COLS * keyboard::MATRIX_ROWS * 3
    );
    assert!(snapshot.relay.is_none());
    let mut status = QuotaStatus {
        relay: Some(RelayBalance {
            chart: ConsumptionChart {
                end_at: 1800,
                bars: [Some(0); 10],
            },
            provider_id: "fixture".to_owned(),
            name: String::new(),
            remaining: Some(20_000_000),
            unit: "USD".to_owned(),
            detail: String::new(),
        }),
        five_hour: None,
        seven_day: None,
        reset_cells: None,
        seven_day_resets_at: None,
    };
    let written = keyboard::build_static_frame(&status).unwrap();
    let latest = ConsumptionChart {
        end_at: 1800,
        bars: [Some(5_000_000); 10],
    };
    let recorded = quota::RecordedStatus {
        relay: status.relay.clone(),
        five_hour: None,
        seven_day: None,
        reset_cells: None,
    };
    let snapshot = assemble_display_snapshot(Some(recorded.clone()), Some(latest.clone())).unwrap();
    assert_eq!(snapshot.frame.as_ref().unwrap(), &written);
    assert_eq!(snapshot.relay.unwrap().chart, latest);
    status.relay.as_mut().unwrap().chart = latest;
    assert_ne!(
        snapshot.frame.unwrap(),
        keyboard::build_static_frame(&status).unwrap()
    );
    let missing_history = assemble_display_snapshot(Some(recorded), None).unwrap();
    assert_eq!(missing_history.relay.unwrap().chart.bars, [None; 10]);
}

#[test]
fn reads_the_display_only_under_the_lock() {
    let error = read_display_snapshot(false, None, None).unwrap_err();
    assert_eq!(error.message(), "后台正在刷新，稍后同步");
    let record = official(Some(1), Some(2), Some(11)).recorded();
    let error = read_display_snapshot(true, Some(record), None).unwrap_err();
    assert_eq!(error.message(), "周重置倒计时格数必须在 0 到 10 之间");
    let record = official(Some(1), Some(2), Some(3)).recorded();
    let snapshot = read_display_snapshot(true, Some(record), None).unwrap();
    assert_eq!(
        snapshot.frame.unwrap(),
        keyboard::build_static_frame(&official(Some(1), Some(2), Some(3))).unwrap()
    );
    assert_eq!(
        LockError::Refreshing.message(),
        "另一个刷新进程正在运行，请稍后重试"
    );
}

#[test]
fn writes_when_forced_or_due() {
    let status = official(Some(50), Some(50), Some(5));
    let record = status.recorded();
    assert!(matches!(
        refresh_once(false, &status, Some(&record)).unwrap(),
        RefreshPlan::Skip
    ));
    let frame = keyboard::build_static_frame(&status).unwrap();
    for plan in [
        refresh_once(true, &status, Some(&record)).unwrap(),
        refresh_once(false, &status, None).unwrap(),
    ] {
        match plan {
            RefreshPlan::Write(written) => assert_eq!(written, frame),
            RefreshPlan::Skip => panic!("skipped"),
        }
    }
    let error = refresh_once(true, &official(None, None, Some(11)), None).unwrap_err();
    assert_eq!(error, KeyboardError::TooManyCells);
}

#[test]
fn sums_up_a_refresh_in_one_line() {
    let status = official(Some(7), None, Some(4));
    assert_eq!(
        outcome(status.clone(), RefreshAction::Refreshed).summary(),
        "T 已刷新键盘：07|--%，沙漏 4 格"
    );
    assert_eq!(
        outcome(official(Some(7), None, None), RefreshAction::Refreshed).summary(),
        "T 已刷新键盘：07|--%，沙漏 -- 格"
    );
    assert_eq!(
        outcome(status, RefreshAction::SkippedThreshold).summary(),
        "T 已检测：07|--%，变化未达阈值，未写键盘"
    );
    let (status, source) = relay_quota(Some(relay(Some(5)))).unwrap();
    assert_eq!(source, "CCSwitch / Relay：已读取");
    assert_eq!(
        outcome(status.clone(), RefreshAction::Refreshed).summary(),
        "T Relay：--|--%，已刷新键盘；已读取"
    );
    assert_eq!(
        outcome(status, RefreshAction::SkippedThreshold).summary(),
        "T Relay：--|--%，变化未达阈值，未写键盘；已读取"
    );
    assert!(relay_quota(None).is_none());
    assert_eq!(reset_cells_text(Some(10)), "10");
}

#[test]
fn one_failure_does_not_hide_the_rest() {
    let snapshot = collect_system_snapshot(
        "T".to_owned(),
        Err("busy".to_owned()),
        Ok((official(Some(9), Some(8), None), "codex.exe".to_owned())),
        true,
    );
    assert!(!snapshot.keyboard_connected);
    assert_eq!(snapshot.keyboard_detail, "HID 检测失败：busy");
    assert!(snapshot.codex_connected);
    assert_eq!(snapshot.codex_detail, "codex.exe");
    assert_eq!(snapshot.last_result, "已读取当前账号额度：09|08%");
    assert!(snapshot.deployed);
    let snapshot = collect_system_snapshot(
        "T".to_owned(),
        Ok(true),
        Err("no login".to_owned()),
        false,
    );
    assert!(snapshot.keyboard_connected);
    assert_eq!(snapshot.keyboard_detail, "DP-104 厂商 HID 已连接");
    assert!(!snapshot.codex_connected);
    assert_eq!(snapshot.codex_detail, "Codex 查询失败：no login");
    assert_eq!(snapshot.last_result, "Codex 查询失败：no login");
    assert!(snapshot.quota.is_none());
    let (status, source) = relay_quota(Some(relay(None))).unwrap();
    let snapshot = collect_system_snapshot("T".to_owned(), Ok(false), Ok((status, source)), false);
    assert_eq!(snapshot.keyboard_detail, "未发现 DP-104 厂商 HID");
    assert!(!snapshot.codex_connected);
    assert!(snapshot.quota.unwrap().relay.is_some());
}

#[test]
fn snapshot_after_a_write_needs_no_query() {
    let done = outcome(official(Some(9), Some(8), Some(1)), RefreshAction::Refreshed);
    let snapshot = snapshot_from_refresh(&done, true);
    assert!(snapshot.keyboard_connected);
    assert_eq!(snapshot.keyboard_detail, "DP-104 HID 写入及回显校验成功");
    assert!(snapshot.codex_connected);
    assert_eq!(snapshot.codex_detail, "codex.exe");
    assert_eq!(snapshot.checked_at, "T");
    assert_eq!(snapshot.last_result, done.summary());
    assert_eq!(snapshot.quota, Some(done.status));
}

#[test]
fn logs_only_writes_and_errors() {
    let status = official(Some(9), Some(8), Some(1));
    let report = run_background_refresh(
        Ok(outcome(status.clone(), RefreshAction::SkippedThreshold)),
        "now",
    );
    assert!(report.success);
    assert_eq!(report.log, None);
    let done = outcome(status, RefreshAction::Refreshed);
    let line = done.summary();
    let report = run_background_refresh(Ok(done), "now");
    assert!(report.success);
    assert_eq!(report.log, Some(line));
    let report = run_background_refresh(Err("bad".to_owned()), "now");
    assert!(!report.success);
    assert_eq!(report.log, Some("now 刷新失败：bad".to_owned()));
    assert_eq!(record_background_error("now", "x"), "now x");
}

#[test]
fn shows_times_in_the_local_zone() {
    let local = chrono::DateTime::from_timestamp(1_700_000_000, 0)
        .unwrap()
        .with_timezone(&chrono::Local)
        .format("%Y-%m-%d %H:%M:%S")
        .to_string();
    assert_eq!(time_text(1_700_000_000), Some(local));
    assert!(time_text(8_210_266_876_799).is_some());
    assert!(time_text(-8_334_601_228_800).is_some());
    assert_eq!(time_text(8_210_266_876_800), None);
    assert_eq!(time_text(-8_334_601_228_801), None);
}

#[test]
fn copies_are_equal() {
    let done = outcome(official(Some(9), Some(8), Some(1)), RefreshAction::Refreshed);
    let copy = done.clone();
    assert_eq!(copy.status, done.status);
    assert_eq!(copy.summary(), done.summary());
    let snapshot = snapshot_from_refresh(&done, true);
    let copy = snapshot.clone();
    assert_eq!(copy.quota, snapshot.quota);
    assert_eq!(copy.last_result, snapshot.last_result);
    let record = official(Some(1), Some(2), Some(3)).recorded();
    let display = assemble_display_snapshot(Some(record), None).unwrap();
    assert_eq!(display.clone().frame, display.frame);
}

#[test]
fn display_shows_the_running_period_beside_the_recorded_frame() {
    let status = QuotaStatus {
        relay: Some(relay(Some(20_000_000))),
        ..official(None, None, None)
    };
    let frame = keyboard::build_static_frame(&status).unwrap();
    let mut history = ConsumptionHistory::new(1_000, Some(21_000_000));
    history.sample(1_060, Some(20_000_000));
    let snapshot = read_display_snapshot(true, Some(status.recorded()), Some(&history)).unwrap();
    assert_eq!(snapshot.frame.unwrap(), frame);
    let shown = snapshot.relay.unwrap();
    assert_eq!(shown.chart.end_at, 1_000);
    assert_eq!(shown.chart.bars[9], Some(1_000_000));
    let snapshot = read_display_snapshot(true, Some(status.recorded()), None).unwrap();
    assert_eq!(snapshot.relay.unwrap().chart, ConsumptionChart::default());
}
