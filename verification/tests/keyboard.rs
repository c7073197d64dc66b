use codex_keyboard_quota::ccswitch::RelayBalance;
use codex_keyboard_quota::consumption::ConsumptionChart;
use codex_keyboard_quota::keyboard::{
    build_balance_frame, build_exchange, build_static_frame, check_echo, check_written,
    frame_exchanges, glyph, is_dp104_interface, quota_color, KeyboardError, HSV_BLUE, HSV_GREEN,
    HSV_ORANGE, HSV_PINK_PURPLE, HSV_RED, HSV_WHITE, HSV_YELLOW, MATRIX_COLS, MATRIX_ROWS,
    PRODUCT_ID, VENDOR_ID, VENDOR_USAGE, VENDOR_USAGE_PAGE,
};
use codex_keyboard_quota::quota::QuotaStatus;

fn status(five_hour: Option<u8>, seven_day: Option<u8>, cells: Option<u8>) -> QuotaStatus {
    QuotaStatus {
        relay: None,
        five_hour,
        seven_day,
        seven_day_resets_at: None,
        reset_cells: cells,
    }
}

fn pixel(frame: &[u8], x: usize, y: usize) -> [u8; 3] {
    let offset = (y * MATRIX_COLS + x) * 3;
    [frame[offset], frame[offset + 1], frame[offset + 2]]
}

#[test]
fn selects_quota_colors_at_boundaries() {
    assert_eq!(quota_color(None), HSV_GREEN);
    assert_eq!(quota_color(Some(60)), HSV_GREEN);
    assert_eq!(quota_color(Some(59)), HSV_YELLOW);
    assert_eq!(quota_color(Some(20)), HSV_YELLOW);
    assert_eq!(quota_color(Some(19)), HSV_RED);
}

#[test]
fn places_separators_in_columns_nine_and_twenty() {
    let frame = build_static_frame(&status(Some(44), Some(30), Some(0))).unwrap();
    assert_eq!(frame.len(), MATRIX_ROWS * MATRIX_COLS * 3);
    for y in 1..=5 {
        assert_eq!(pixel(&frame, 9, y), HSV_WHITE);
        assert_eq!(pixel(&frame, 20, y), HSV_WHITE);
    }
    for x in 0..MATRIX_COLS {
        assert_eq!(pixel(&frame, x, 0), [0, 0, 0]);
        assert_eq!(pixel(&frame, x, 7), [0, 0, 0]);
    }
}

#[test]
fn renders_two_fixed_width_quota_pairs() {
    let frame = build_static_frame(&status(None, Some(82), Some(0))).unwrap();
    assert_eq!(pixel(&frame, 0, 3), HSV_GREEN);
    assert_eq!(pixel(&frame, 5, 3), HSV_GREEN);
    assert_eq!(pixel(&frame, 11, 1), HSV_GREEN);
    assert_eq!(pixel(&frame, 16, 1), HSV_GREEN);
}

#[test]
fn maps_hourglass_to_last_two_columns() {
    let full = build_static_frame(&status(Some(50), Some(50), Some(10))).unwrap();
    for y in 1..=5 {
        assert_eq!(pixel(&full, 22, y), HSV_PINK_PURPLE);
        assert_eq!(pixel(&full, 23, y), HSV_PINK_PURPLE);
    }

    let nine = build_static_frame(&status(Some(50), Some(50), Some(9))).unwrap();
    assert_eq!(pixel(&nine, 22, 1), [0, 0, 0]);
    assert_eq!(pixel(&nine, 23, 1), HSV_PINK_PURPLE);

    let empty = build_static_frame(&status(Some(50), Some(50), Some(0))).unwrap();
    for y in 1..=5 {
        assert_eq!(pixel(&empty, 22, y), [0, 0, 0]);
        assert_eq!(pixel(&empty, 23, y), [0, 0, 0]);
    }
}

#[test]
fn renders_balance_and_ten_consumption_bars() {
    let chart = ConsumptionChart {
        end_at: 1800,
        bars: [
            None,
            None,
            None,
            None,
            Some(0),
            Some(1_000_000),
            Some(2_000_000),
            Some(3_000_000),
            Some(4_000_000),
            Some(5_000_000),
        ],
    };
    let frame = build_balance_frame("999", &chart).unwrap();
    assert_eq!(frame.len(), MATRIX_ROWS * MATRIX_COLS * 3);
    for y in 1..=5 {
        for x in [3, 7, 11, 13, 18] {
            assert_eq!(pixel(&frame, x, y), [0, 0, 0]);
        }
        assert_eq!(pixel(&frame, 12, y), HSV_WHITE);
        assert_eq!(
            pixel(&frame, 21, y),
            if y > 5 - 3 { HSV_BLUE } else { [0, 0, 0] }
        );
    }
    for text in ["0", "22", "148", "--"] {
        assert!(build_balance_frame(text, &ConsumptionChart::default()).is_ok());
    }
}

#[test]
fn renders_balance_with_bars_of_every_level() {
    let chart = ConsumptionChart {
        end_at: 1800,
        bars: [
            None,
            None,
            None,
            None,
            Some(0),
            Some(100_000),
            Some(1_000_000),
            Some(2_000_000),
            Some(5_000_000),
            Some(10_000_000),
        ],
    };
    let frame = build_balance_frame("999", &chart).unwrap();
    assert_eq!(frame.len(), MATRIX_ROWS * MATRIX_COLS * 3);
    for y in 1..=5 {
        for x in [3, 7, 11, 13, 18] {
            assert_eq!(pixel(&frame, x, y), [0, 0, 0]);
        }
        assert_eq!(pixel(&frame, 12, y), HSV_WHITE);
        assert_eq!(pixel(&frame, 23, y), HSV_RED);
    }
    for (x, level, color) in [
        (19, 1, HSV_GREEN),
        (20, 2, HSV_GREEN),
        (21, 3, HSV_BLUE),
        (22, 4, HSV_ORANGE),
    ] {
        for y in 1..=5 {
            assert_eq!(
                pixel(&frame, x, y),
                if y > 5 - level { color } else { [0, 0, 0] }
            );
        }
    }
    for text in ["0", "22", "148", "--"] {
        assert!(build_balance_frame(text, &ConsumptionChart::default()).is_ok());
    }
}

#[test]
fn refuses_what_the_matrix_cannot_show() {
    let chart = ConsumptionChart::default();
    let error = build_balance_frame("1000", &chart).unwrap_err();
    assert_eq!(error, KeyboardError::BalanceTooWide);
    assert_eq!(error.message(), "余额超过三位数字宽度");
    let error = build_balance_frame("x", &chart).unwrap_err();
    assert_eq!(error, KeyboardError::UnsupportedCharacter('x'));
    assert_eq!(error.message(), "点阵字库不支持字符：x");
    let error = build_static_frame(&status(Some(1), Some(2), Some(11))).unwrap_err();
    assert_eq!(error, KeyboardError::TooManyCells);
    assert_eq!(error.message(), "周重置倒计时格数必须在 0 到 10 之间");
    assert!(glyph('é').is_err());
    assert!(glyph('0').is_ok());
}

#[test]
fn relay_frame_shows_the_whole_balance() {
    let relay = |remaining| QuotaStatus {
        relay: Some(RelayBalance {
            chart: ConsumptionChart::default(),
            provider_id: String::new(),
            name: String::new(),
            remaining,
            unit: String::new(),
            detail: String::new(),
        }),
        five_hour: None,
        seven_day: None,
        seven_day_resets_at: None,
        reset_cells: Some(200),
    };
    for (remaining, text) in [
        (Some(148_900_000), "148"),
        (Some(-1), "0"),
        (Some(i64::MAX), "999"),
        (None, "--"),
    ] {
        assert_eq!(
            build_static_frame(&relay(remaining)).unwrap(),
            build_balance_frame(text, &ConsumptionChart::default()).unwrap()
        );
    }
}

#[test]
fn knows_the_vendor_interface() {
    assert!(is_dp104_interface(
        VENDOR_ID,
        PRODUCT_ID,
        VENDOR_USAGE_PAGE,
        VENDOR_USAGE
    ));
    assert!(!is_dp104_interface(VENDOR_ID, PRODUCT_ID, 1, 6));
    assert!(!is_dp104_interface(
        VENDOR_ID,
        PRODUCT_ID + 1,
        VENDOR_USAGE_PAGE,
        VENDOR_USAGE
    ));
}

#[test]
fn packs_commands_into_reports() {
    let exchange = build_exchange(209, &vec![48, 1, 1, 8, 24]).unwrap();
    let mut expected = vec![0u8, 209, 48, 1, 1, 8, 24];
    expected.resize(33, 0);
    assert_eq!(exchange.report, expected);
    assert_eq!(exchange.expected, vec![209, 48, 1, 1, 8, 24]);
    assert!(build_exchange(1, &vec![0; 31]).is_ok());
    let error = build_exchange(1, &vec![0; 32]).unwrap_err();
    assert_eq!(error, KeyboardError::ReportTooLong);
    assert_eq!(error.message(), "HID 报文超过 DP-104 的 32 字节数据区");
}

#[test]
fn splits_a_frame_without_losing_a_byte() {
    let frame: Vec<u8> = (0..576u32).map(|value| (value % 251) as u8).collect();
    let exchanges = frame_exchanges(&frame).unwrap();
    assert_eq!(exchanges.len(), 25);
    assert_eq!(exchanges[0].expected, vec![209, 48, 1, 1, 8, 24]);
    let mut joined: Vec<u8> = Vec::new();
    for exchange in &exchanges[1..] {
        let arguments = &exchange.expected[1..];
        assert_eq!(arguments[0], 49);
        let offset = u32::from_be_bytes([arguments[1], arguments[2], arguments[3], arguments[4]]);
        assert_eq!(offset as usize, joined.len());
        assert_eq!(arguments[5] as usize, arguments.len() - 6);
        joined.extend_from_slice(&arguments[6..]);
        assert_eq!(exchange.report.len(), 33);
    }
    assert_eq!(joined, frame);
    let error = frame_exchanges(&vec![0; 575]).unwrap_err();
    assert_eq!(error, KeyboardError::FrameLength);
    assert_eq!(error.message(), "自定义帧长度必须为 576 字节");
}

#[test]
fn checks_what_was_written_and_echoed() {
    assert!(check_written(33).is_ok());
    let error = check_written(12).unwrap_err();
    assert_eq!(error.message(), "DP-104 HID 写入长度异常：12");
    let expected = vec![209, 48, 1];
    assert!(check_echo(&expected, &[209, 48, 1, 7]).is_ok());
    assert!(check_echo(&expected, &[0, 209, 48, 1, 7]).is_ok());
    for response in [&[][..], &[209, 48], &[0, 0, 209, 48, 1], &[209, 49, 1]] {
        let error = check_echo(&expected, response).unwrap_err();
        assert_eq!(error, KeyboardError::EchoMismatch);
        assert_eq!(
            error.message(),
            "DP-104 HID 响应校验失败，请关闭网页驱动后重试"
        );
    }
}

#[test]
fn accepts_the_whole_report_as_its_echo() {
    for exchange in frame_exchanges(&vec![7; 576]).unwrap() {
        assert!(check_echo(&exchange.expected, &exchange.report).is_ok());
        assert!(check_echo(&exchange.expected, &exchange.report[1..]).is_ok());
    }
}

#[test]
fn cells_go_out_from_the_left_and_from_the_top() {
    let lit = |cells: u8| {
        let frame = build_static_frame(&status(None, None, Some(cells))).unwrap();
        let mut places = Vec::new();
        for y in 1..=5 {
            for x in [22, 23] {
                if pixel(&frame, x, y) == HSV_PINK_PURPLE {
                    places.push((x, y));
                }
            }
        }
        places
    };
    let all = lit(10);
    assert_eq!(all.len(), 10);
    for cells in 0..=10u8 {
        assert_eq!(lit(cells), all[10 - cells as usize..]);
    }
    assert!(build_static_frame(&status(None, None, None)).is_ok());
}
