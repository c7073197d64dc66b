use codex_keyboard_quota::codex::{
    choose_launcher, command_from_path, direct_command, entry_action, first_on_path,
    initialize_params, is_answer, is_message, newest, parse_rate_limits, powershell_path,
    query_current_quota, read_answer, resolve_codex_command, response_result, wait_for_response, CodexSession,
    CodexSource, CommandError, CommandPart, EntryAction, Launcher, LimitError, NodeScript,
    ReaderEvent, WaitError, WaitStep, WindowPosition, RATE_LIMITS_METHOD,
};
use codex_keyboard_quota::json::{parse_json, Json, JsonError, JsonMember, JsonNumber};
use codex_keyboard_quota::keyboard::build_static_frame;
use codex_keyboard_quota::quota::{read_recorded_status, write_recorded_status};
use std::sync::mpsc::{self, RecvTimeoutError};
use std::time::Duration;

fn json(text: &str) -> Json {
    parse_json(text).unwrap()
}

fn normal_result() -> Json {
    json(
        r#"{
            "rateLimitsByLimitId": {
                "codex": {
                    "primary": {
                        "usedPercent": 28.0,
                        "windowDurationMins": 300,
                        "resetsAt": 1000100
                    },
                    "secondary": {
                        "usedPercent": 66.0,
                        "windowDurationMins": 10080,
                        "resetsAt": 1604800
                    }
                }
            }
        }"#,
    )
}

#[test]
fn parses_normal_and_reordered_windows() {
    let status = parse_rate_limits(&normal_result(), 1_000_000).unwrap();
    assert_eq!(status.five_hour, Some(72));
    assert_eq!(status.seven_day, Some(34));
    assert_eq!(status.reset_cells, Some(10));

    let reordered = json(
        r#"{
            "rateLimits": {
                "primary": {"usedPercent": 18, "windowDurationMins": 10080, "resetsAt": 1302400},
                "secondary": {"usedPercent": 56, "windowDurationMins": 300}
            }
        }"#,
    );
    let status = parse_rate_limits(&reordered, 1_000_000).unwrap();
    assert_eq!((status.five_hour, status.seven_day), (Some(44), Some(82)));
}

#[test]
fn treats_missing_windows_as_unlimited() {
    let only_week = json(
        r#"{
            "rateLimits": {
                "primary": {"usedPercent": 18, "windowDurationMins": 10080, "resetsAt": 1302400}
            }
        }"#,
    );
    let status = parse_rate_limits(&only_week, 1_000_000).unwrap();
    assert_eq!(status.five_hour, None);
    assert_eq!(status.seven_day, Some(82));

    let only_five = json(
        r#"{
            "rateLimits": {
                "primary": {"usedPercent": 18, "windowDurationMins": 300}
            }
        }"#,
    );
    let status = parse_rate_limits(&only_five, 1_000_000).unwrap();
    assert_eq!(status.five_hour, Some(82));
    assert_eq!(status.seven_day, None);
    assert_eq!(status.reset_cells, None);
}

#[test]
fn reports_not_logged_in_server_error() {
    let error = response_result(
        r#"{"id": 2, "error": {"code": -32000, "message": "not logged in"}}"#,
    )
    .unwrap_err();
    assert!(error.message().contains("not logged in"));
    assert_eq!(
        error.message(),
        r#"Codex app-server 请求失败：{"code":-32000,"message":"not logged in"}"#
    );
}

#[test]
fn reports_response_timeout() {
    let (_sender, receiver) = mpsc::channel::<String>();
    let event = match receiver.recv_timeout(Duration::from_millis(2)) {
        Ok(line) => ReaderEvent::Line(line),
        Err(RecvTimeoutError::Timeout) => ReaderEvent::TimedOut,
        Err(RecvTimeoutError::Disconnected) => ReaderEvent::Disconnected,
    };
    match wait_for_response(event, 1) {
        WaitStep::Failed(error) => assert!(error.message().contains("超时")),
        other => panic!("{other:?}"),
    }
}

#[test]
fn rejects_unknown_protocol_window() {
    let changed = json(
        r#"{
            "rateLimits": {
                "primary": {"usedPercent": 20, "windowDurationMins": 1440}
            }
        }"#,
    );
    let error = parse_rate_limits(&changed, 1_000_000).unwrap_err();
    assert!(error.message().contains("无法识别"));
    assert_eq!(error, LimitError::UnknownDuration(1440));
    assert_eq!(error.message(), "无法识别 Codex 限额窗口时长：1440");
}

#[test]
fn names_every_fault_of_a_window() {
    for (text, error, message) in [
        (
            r#"{"rateLimits": 3}"#,
            LimitError::NoLimits,
            "Codex 响应中没有 rate limits 数据",
        ),
        (
            r#"{"rateLimits": {"primary": 3}}"#,
            LimitError::WindowFormat(WindowPosition::Primary),
            "Codex primary 窗口格式错误",
        ),
        (
            r#"{"rateLimits": {"secondary": {"windowDurationMins": -300}}}"#,
            LimitError::NoDuration(WindowPosition::Secondary),
            "Codex secondary 窗口缺少 windowDurationMins",
        ),
        (
            r#"{"rateLimits": {"secondary": {"windowDurationMins": 300}}}"#,
            LimitError::NoUsedPercent(WindowPosition::Secondary),
            "Codex secondary 窗口没有 usedPercent",
        ),
        (
            r#"{"rateLimits": {
                "primary": {"windowDurationMins": 300, "usedPercent": 1},
                "secondary": {"windowDurationMins": 300, "usedPercent": 1}
            }}"#,
            LimitError::RepeatedFiveHour,
            "Codex 返回重复的 5h 限额窗口",
        ),
        (
            r#"{"rateLimits": {
                "primary": {"windowDurationMins": 10080, "usedPercent": 1},
                "secondary": {"windowDurationMins": 10080, "usedPercent": 1}
            }}"#,
            LimitError::RepeatedSevenDay,
            "Codex 返回重复的周限额窗口",
        ),
        (
            r#"{"rateLimits": {
                "primary": {"windowDurationMins": 10080, "usedPercent": 1, "resetsAt": "soon"}
            }}"#,
            LimitError::ResetFormat,
            "Codex 周窗口 resetsAt 格式错误",
        ),
    ] {
        let found = parse_rate_limits(&json(text), 0).unwrap_err();
        assert_eq!(found, error);
        assert_eq!(found.message(), message);
    }
}

#[test]
fn rejects_a_percentage_that_is_no_number() {
    let member = |name: &str, value: Json| JsonMember {
        name: name.to_owned(),
        value,
    };
    let number = |unsigned: Option<u64>, double: u64| {
        Json::Number(JsonNumber {
            unsigned,
            signed: None,
            double: Some(double),
        })
    };
    let window = Json::Object(vec![
        member("windowDurationMins", number(Some(300), 300f64.to_bits())),
        member("usedPercent", number(None, f64::NAN.to_bits())),
    ]);
    let result = Json::Object(vec![member(
        "rateLimits",
        Json::Object(vec![member("primary", window)]),
    )]);
    let error = parse_rate_limits(&result, 0).unwrap_err();
    assert_eq!(error, LimitError::UsedNotFinite(WindowPosition::Primary));
    assert_eq!(
        error.message(),
        "Codex primary 窗口 usedPercent 不是有限数值"
    );
}

#[test]
fn null_windows_and_reset_times_count_as_missing() {
    let result = json(
        r#"{
            "rateLimitsByLimitId": {"codex": null},
            "rateLimits": {
                "primary": null,
                "secondary": {"windowDurationMins": 10080, "usedPercent": 99.5, "resetsAt": null}
            }
        }"#,
    );
    let status = parse_rate_limits(&result, 0).unwrap();
    assert_eq!(status.five_hour, None);
    assert_eq!(status.seven_day, Some(0));
    assert_eq!(status.seven_day_resets_at, None);
    assert_eq!(status.reset_cells, None);
}

#[test]
fn reset_times_may_have_a_fraction() {
    for (text, time) in [
        ("1604800.9", 1_604_800),
        ("-3.7", -3),
        ("1e30", i64::MAX),
        ("18446744073709551615", i64::MAX),
        ("-1e30", i64::MIN),
    ] {
        let result = json(&format!(
            r#"{{"rateLimits": {{"primary":
                {{"windowDurationMins": 10080, "usedPercent": 1, "resetsAt": {text}}}}}}}"#
        ));
        let status = parse_rate_limits(&result, 0).unwrap();
        assert_eq!(status.seven_day_resets_at, Some(time));
    }
}

#[test]
fn used_percentages_follow_double_arithmetic() {
    for text in [
        "0", "-5", "100", "100.4", "250", "0.5", "1.5", "99.5", "12.499999999999999", "1e-300",
        "49.5000000000000001", "0.49999999999999994",
    ] {
        let used: f64 = text.parse().unwrap();
        let result = json(&format!(
            r#"{{"rateLimits": {{"primary":
                {{"windowDurationMins": 300, "usedPercent": {text}}}}}}}"#
        ));
        let expected = (100.0 - used).round_ties_even().clamp(0.0, 100.0) as u8;
        let status = parse_rate_limits(&result, 0).unwrap();
        assert_eq!(status.five_hour, Some(expected), "{text}");
    }
}

#[test]
fn every_status_that_is_read_can_be_shown() {
    for (used, resets) in [("-1e9", "1e30"), ("1e9", "-1e30"), ("50", "604800"), ("0", "null")] {
        let result = json(&format!(
            r#"{{"rateLimits": {{"primary":
                {{"windowDurationMins": 10080, "usedPercent": {used}, "resetsAt": {resets}}}}}}}"#
        ));
        let status = parse_rate_limits(&result, 0).unwrap();
        assert!(build_static_frame(&status).is_ok());
        let stored = write_recorded_status(&status);
        let restored = read_recorded_status(&stored, None).unwrap().unwrap();
        assert_eq!(restored, status.recorded());
    }
}

#[test]
fn numbers_requests_and_writes_them_as_lines() {
    let mut session = CodexSession::new();
    assert_eq!(
        session.request("initialize", &initialize_params("0.1.\"0")),
        "{\"id\":1,\"method\":\"initialize\",\"params\":{\"clientInfo\":{\"name\":\
         \"codex-keyboard-quota\",\"title\":\"Codex Keyboard Quota\",\"version\":\"0.1.\\\"0\"}}}\n"
    );
    assert_eq!(
        session.notification("initialized"),
        "{\"method\":\"initialized\"}\n"
    );
    assert_eq!(
        session.request(RATE_LIMITS_METHOD, "null"),
        "{\"id\":2,\"method\":\"account/rateLimits/read\",\"params\":null}\n"
    );
    let line = session.request("a\"b", "{}");
    let value: serde_json::Value = serde_json::from_str(&line).unwrap();
    assert_eq!(value["method"].as_str(), Some("a\"b"));
    assert_eq!(value["id"].as_u64(), Some(3));
}

#[test]
fn waits_past_everything_but_the_answer() {
    for line in [
        "no json",
        "{\"method\":\"note\"}",
        "{\"id\":6,\"result\":1}",
        "{\"id\":\"07\"}",
        "[7]",
        "7",
        "{\"id\":7.0}",
    ] {
        match wait_for_response(ReaderEvent::Line(line.to_owned()), 7) {
            WaitStep::Continue => {}
            other => panic!("{line}: {other:?}"),
        }
    }
    for line in ["{\"id\":7}", "{\"id\": \"7\", \"result\": 1}"] {
        match wait_for_response(ReaderEvent::Line(line.to_owned()), 7) {
            WaitStep::Answer(answer) => assert_eq!(answer, line),
            other => panic!("{line}: {other:?}"),
        }
    }
    for event in [ReaderEvent::Eof, ReaderEvent::Disconnected] {
        match wait_for_response(event, 7) {
            WaitStep::Failed(error) => {
                assert_eq!(error, WaitError::Exited);
                assert_eq!(error.message(), "Codex app-server 已退出");
            }
            other => panic!("{other:?}"),
        }
    }
}

#[test]
fn takes_the_result_out_of_an_answer() {
    let result = response_result("{\"id\":1,\"error\":null,\"result\":{\"a\":[true]}}").unwrap();
    match result.get("a") {
        Some(Json::Array(items)) => assert!(matches!(items[0], Json::Bool(true))),
        other => panic!("{other:?}"),
    }
    assert_eq!(
        response_result("{\"id\":1}").unwrap_err().message(),
        "Codex app-server 响应缺少 result"
    );
    assert!(response_result("{").is_err());
}

#[test]
fn reads_the_quota_from_an_answer() {
    let line = r#"{"id":2,"result":{"rateLimits":{"primary":
        {"usedPercent":30,"windowDurationMins":300}}}}"#;
    let status = query_current_quota(line, 5).unwrap();
    assert_eq!(status.five_hour, Some(70));
    let error = query_current_quota("{\"id\":2,\"result\":{}}", 5).unwrap_err();
    assert_eq!(error.message(), "Codex 响应中没有 rate limits 数据");
    let error = query_current_quota("{\"id\":2,\"error\":\"no\"}", 5).unwrap_err();
    assert_eq!(error.message(), "Codex app-server 请求失败：\"no\"");
}

#[test]
fn blank_lines_are_no_messages() {
    assert!(!is_message(""));
    assert!(!is_message(" \t\u{3000}"));
    assert!(is_message(" {} "));
}

fn text(part: &CommandPart) -> &str {
    match part {
        CommandPart::Text(text) => text,
        other => panic!("{other:?}"),
    }
}

#[test]
fn starts_each_kind_of_file_in_its_way() {
    let command = command_from_path("C:\\codex.EXE", "EXE", &None, false).unwrap();
    assert!(matches!(command.program, CommandPart::Candidate));
    assert!(command.prefix_args.is_empty());
    assert_eq!(command.display, "C:\\codex.EXE");

    let command = command_from_path("C:\\codex.Cmd", "Cmd", &None, false).unwrap();
    assert_eq!(text(&command.program), "cmd.exe");
    let texts: Vec<&str> = command.prefix_args[..3].iter().map(text).collect();
    assert_eq!(texts, ["/d", "/s", "/c"]);
    assert!(matches!(command.prefix_args[3], CommandPart::Candidate));

    let command = command_from_path("codex.ps1", "ps1", &None, true).unwrap();
    assert_eq!(
        text(&command.program),
        r"C:\Program Files\PowerShell\7\pwsh.exe"
    );
    let texts: Vec<&str> = command.prefix_args[..5].iter().map(text).collect();
    assert_eq!(
        texts,
        [
            "-NoProfile",
            "-NonInteractive",
            "-ExecutionPolicy",
            "Bypass",
            "-File"
        ]
    );
    assert!(matches!(command.prefix_args[5], CommandPart::Candidate));

    let node = Some(NodeScript {
        node: "node.exe".to_owned(),
        script: "codex.js".to_owned(),
    });
    let command = command_from_path("codex.bat", "bat", &node, false).unwrap();
    assert!(matches!(command.program, CommandPart::Node));
    assert_eq!(command.prefix_args.len(), 1);
    assert!(matches!(command.prefix_args[0], CommandPart::Script));
    assert_eq!(command.display, "node.exe (codex.js)");

    let error = command_from_path("codex.py", "py", &node, false).unwrap_err();
    assert_eq!(error.message(), "不支持的 CODEX_CLI 文件类型：codex.py");
    assert_eq!(direct_command("codex").display, "codex");
    assert_eq!(choose_launcher("", true), Some(Launcher::Direct));
    assert_eq!(choose_launcher("PS1", false), Some(Launcher::PowerShell));
    assert_eq!(powershell_path(false), "powershell.exe");
}

#[test]
fn looks_for_codex_in_order() {
    for (found, source) in [
        ((true, true, true, true), CodexSource::Configured),
        ((false, true, true, true), CodexSource::Bundled),
        ((false, false, true, true), CodexSource::NativeOnPath),
        ((false, false, false, true), CodexSource::WrapperOnPath),
    ] {
        let (configured, bundled, native, wrapper) = found;
        assert_eq!(
            resolve_codex_command(configured, bundled, native, wrapper).unwrap(),
            source
        );
    }
    let error = resolve_codex_command(false, false, false, false).unwrap_err();
    assert!(matches!(error, CommandError::NotFound));
    assert_eq!(error.message(), "找不到 Codex CLI，请先安装并登录 Codex");
}

#[test]
fn takes_the_newest_file_and_the_first_directory() {
    assert_eq!(newest(&vec![]), None);
    assert_eq!(newest(&vec![3, 9, -1, 9, 4]), Some(3));
    assert_eq!(first_on_path(&vec![]), None);
    let present = vec![vec![false, false], vec![false, true], vec![true, true]];
    assert_eq!(first_on_path(&present), Some((1, 1)));
    assert_eq!(first_on_path(&vec![vec![false], vec![]]), None);
}

#[test]
fn searches_folders_to_a_depth() {
    let wanted = "codex.exe";
    assert_eq!(
        entry_action(true, false, "Codex.EXE", wanted, 1),
        EntryAction::Collect
    );
    assert_eq!(
        entry_action(false, true, "v1", wanted, 2),
        EntryAction::Descend
    );
    assert_eq!(
        entry_action(false, true, "codex.exe", wanted, 1),
        EntryAction::Skip
    );
    assert_eq!(
        entry_action(true, false, "other.exe", wanted, 3),
        EntryAction::Skip
    );
    assert_eq!(
        entry_action(true, false, "codex.exe", wanted, 0),
        EntryAction::Skip
    );
}

#[test]
fn messages_escape_what_they_quote() {
    let session = CodexSession::new();
    for c in (0..0x300u32).chain([0x2028, 0x4e2d, 0x1f600]).filter_map(char::from_u32) {
        let method = format!("a{c}b{c}");
        let line = session.notification(&method);
        let expected = serde_json::Value::from(method.as_str()).to_string();
        assert_eq!(line, format!("{{\"method\":{expected}}}\n"));
        assert_eq!(line.find('\n'), Some(line.len() - 1));
    }
    assert_eq!(
        session.notification("\u{1}\u{8}\t\n\u{c}\r\u{1f}\"\\/\u{7f}"),
        "{\"method\":\"\\u0001\\b\\t\\n\\f\\r\\u001f\\\"\\\\/\u{7f}\"}\n"
    );
}

#[test]
fn decides_on_an_answer_that_was_read() {
    assert!(is_answer(&json("{\"id\":7}"), 7));
    assert!(is_answer(&json("{\"id\":\"7\"}"), 7));
    assert!(!is_answer(&json("{\"id\":8}"), 7));
    assert!(!is_answer(&json("{\"method\":\"x\"}"), 7));
    let text = Some("{\"code\":1}".to_owned());
    let result = read_answer(Ok(json("{\"result\":3,\"error\":null}")), text.clone()).unwrap();
    assert_eq!(result.as_unsigned(), Some(3));
    let refused = read_answer(Ok(json("{\"result\":3,\"error\":{\"code\":1}}")), text).unwrap_err();
    assert_eq!(refused.message(), "Codex app-server 请求失败：{\"code\":1}");
    let missing = read_answer(Ok(json("{}")), None).unwrap_err();
    assert_eq!(missing.message(), "Codex app-server 响应缺少 result");
    let broken = read_answer(Err(JsonError::Malformed("bad".to_owned())), None).unwrap_err();
    assert_eq!(broken.message(), "bad");
}
