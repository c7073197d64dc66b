use codex_keyboard_quota::ccswitch::{
    answer_text, check_method, check_status, evaluate, execute_script, fill_in, find_base_url,
    find_model_provider, find_selection, finish_script, format_balance, history_key, note_balance,
    parse_balance, plan_query, plan_relay, prepare_script, provider_base_url, provider_to_query, read_outcome, request_body,
    request_headers, request_target,
    sample_consumption, script_expression, selected_provider, time_is_up, with_outcome, ProviderError,
    ProviderRow, QueryPlan, RelayBalance, ScriptError,
};
use codex_keyboard_quota::consumption::{ConsumptionChart, ConsumptionHistory, BAR_COUNT};
use codex_keyboard_quota::json::{parse_json, Json, JsonError};
use rusqlite::{Connection, OptionalExtension};

fn json(text: &str) -> Json {
    parse_json(text).unwrap()
}

fn query_selected_balance(
    db: &Connection,
    selected: Option<String>,
) -> Result<Option<RelayBalance>, ProviderError> {
    let marked: Option<String> = match selected {
        Some(_) => None,
        None => db
            .query_row(
                "SELECT id FROM providers WHERE app_type='codex' AND is_current=1",
                [],
                |row| row.get(0),
            )
            .optional()
            .unwrap(),
    };
    let Some(id) = provider_to_query(selected, marked) else {
        return Ok(None);
    };
    let row = db
        .query_row(
            "SELECT name, category, settings_config, meta FROM providers WHERE app_type='codex' AND id=?1",
            [&id],
            |row| {
                Ok(ProviderRow {
                    id: id.clone(),
                    name: row.get(0)?,
                    category: row.get(1)?,
                    config: row.get(2)?,
                    meta: row.get(3)?,
                })
            },
        )
        .optional()
        .unwrap();
    match plan_query(row)? {
        QueryPlan::Official => Ok(None),
        QueryPlan::Idle(relay) => Ok(Some(relay)),
        QueryPlan::Script { relay, .. } => Ok(Some(relay)),
    }
}

#[test]
fn follows_selected_provider_instead_of_old_current_flag() {
    let db = Connection::open_in_memory().unwrap();
    db.execute_batch("CREATE TABLE providers (id TEXT, app_type TEXT, name TEXT, category TEXT, settings_config TEXT, meta TEXT, is_current INTEGER);
        INSERT INTO providers VALUES ('official', 'codex', 'OpenAI', 'official', '{}', '{}', 1);
        INSERT INTO providers VALUES ('relay', 'codex', 'Relay', NULL, '{}', '{}', 0);").unwrap();
    let relay = query_selected_balance(&db, Some("relay".to_owned()))
        .unwrap()
        .unwrap();
    assert_eq!(relay.provider_id, "relay");
    assert_eq!(relay.remaining, None);
    assert_eq!(relay.display_text(), "--");
    assert!(
        query_selected_balance(&db, Some("official".to_owned()))
            .unwrap()
            .is_none()
    );
    assert!(query_selected_balance(&db, None).unwrap().is_none());
    assert!(query_selected_balance(&db, Some("deleted".to_owned())).is_err());
}

#[test]
fn formats_three_integer_digits() {
    for (amount, text) in [
        (148_900_000, "148"),
        (22_300_000, "22"),
        (1_481_000_000, "999"),
        (999_960_000, "999"),
        (0, "0"),
        (-1_200_000, "0"),
    ] {
        assert_eq!(format_balance(amount), text);
    }
    assert_eq!(
        parse_balance(&json("{\"remaining\":1481}")).unwrap().0,
        Some(1_481_000_000)
    );
}

#[test]
fn extracts_balance_without_guessing() {
    let script = "({request:{url:'https://example.com',method:'GET'},extractor:r=>({remaining:r.quota/500000,unit:'USD'})})";
    assert_eq!(
        evaluate(script, None).unwrap().text_at("method"),
        Some("GET")
    );
    let result = evaluate(script, Some("{\"quota\":74050000}")).unwrap();
    assert_eq!(
        parse_balance(&result).unwrap(),
        (Some(148_100_000), "USD".to_owned())
    );
    assert_eq!(
        parse_balance(&json("{\"remaining\":null}")).unwrap().0,
        None
    );
    assert!(parse_balance(&json("{\"isValid\":false}")).is_err());
    assert!(parse_balance(&json("[{\"remaining\":1},{\"remaining\":2}]")).is_err());
}

#[test]
fn chooses_the_one_balance_of_a_list() {
    for (text, expected) in [
        ("[]", Ok((None, ""))),
        ("[{\"remaining\":\"3\"},{\"unit\":\"USD\"}]", Ok((None, ""))),
        (
            "[{\"remaining\":3,\"isValid\":false},{\"remaining\":2.5,\"unit\":\"USD\"},4]",
            Ok((Some(2_500_000), "USD")),
        ),
        (
            "[{\"remaining\":1},{\"x\":0},{\"remaining\":2,\"isValid\":true}]",
            Err(ScriptError::SeveralBalances),
        ),
        ("{\"unit\":\"CNY\"}", Ok((None, "CNY"))),
        ("\"text\"", Ok((None, ""))),
        ("{\"remaining\":-0.0000015}", Ok((Some(-2), ""))),
        ("{\"remaining\":true}", Err(ScriptError::NotANumber)),
        (
            "{\"remaining\":9223372036854}",
            Err(ScriptError::OutOfRange),
        ),
        (
            "{\"remaining\":-9223372036853.998}",
            Ok((
                Some((-9223372036853.998f64 * 1_000_000.0).round() as i64),
                "",
            )),
        ),
    ] {
        let read = parse_balance(&json(text));
        match expected {
            Ok((remaining, unit)) => assert_eq!(read.unwrap(), (remaining, unit.to_owned())),
            Err(error) => assert_eq!(read.unwrap_err(), error),
        }
    }
}

#[test]
fn reads_the_selection_from_the_settings() {
    assert_eq!(selected_provider(None).unwrap(), None);
    assert_eq!(
        selected_provider(Some("{\"currentProviderCodex\":\"relay\"}")).unwrap(),
        Some("relay".to_owned())
    );
    assert_eq!(selected_provider(Some("{}")).unwrap(), None);
    assert_eq!(
        selected_provider(Some("{\"currentProviderCodex\":7}")).unwrap(),
        None
    );
    let error = selected_provider(Some("{\"currentProviderCodex\"")).unwrap_err();
    let expected = serde_json::from_str::<serde_json::Value>("{\"currentProviderCodex\"")
        .unwrap_err()
        .to_string();
    assert_eq!(error.message(), expected);
}

fn row(config: &str, meta: &str) -> ProviderRow {
    ProviderRow {
        id: "relay".to_owned(),
        name: "Relay".to_owned(),
        category: Some("custom".to_owned()),
        config: config.to_owned(),
        meta: meta.to_owned(),
    }
}

#[test]
fn plans_how_a_provider_is_asked() {
    match plan_query(Some(row("{}", "{\"usage_script\":{\"enabled\":false}}"))).unwrap() {
        QueryPlan::Idle(relay) => {
            assert_eq!(relay.name, "Relay");
            assert_eq!(relay.detail, "未配置或未启用额度查询");
        }
        other => panic!("{other:?}"),
    }
    let meta = "{\"usage_script\":{\"enabled\":true,\"code\":\"x\"}}";
    match plan_query(Some(row("{\"a\":\"b\"}", meta))).unwrap() {
        QueryPlan::Script {
            relay,
            script,
            config,
        } => {
            assert_eq!(relay.remaining, None);
            assert_eq!(script.text_at("code"), Some("x"));
            assert_eq!(config.text_at("a"), Some("b"));
        }
        other => panic!("{other:?}"),
    }
    for (row, message) in [
        (None, "CCSwitch 当前供应商不存在"),
        (Some(row("{}", "{")), "CCSwitch 额度配置格式错误"),
        (Some(row("{", meta)), "CCSwitch 供应商配置格式错误"),
    ] {
        assert_eq!(plan_query(row).unwrap_err().message(), message);
    }
}

#[test]
fn takes_the_provider_and_its_address_from_what_was_found() {
    let found = |text: &str| Some(Some(text.to_owned()));
    assert_eq!(find_model_provider(found("relay")).unwrap(), "relay");
    assert_eq!(
        find_model_provider(Some(None)).unwrap_err(),
        ScriptError::NoModelProvider
    );
    assert_eq!(
        find_model_provider(None).unwrap_err(),
        ScriptError::TomlFormat
    );
    assert_eq!(
        find_base_url(found("https://a.b//")).unwrap(),
        "https://a.b"
    );
    assert_eq!(
        find_base_url(Some(None)).unwrap_err(),
        ScriptError::NoBaseUrl
    );
    assert_eq!(find_base_url(None).unwrap_err(), ScriptError::TomlFormat);
}

#[test]
fn methods_are_those_of_the_client() {
    for c in (0..0x250u32).filter_map(char::from_u32) {
        for text in [c.to_string(), format!("GE{c}T")] {
            assert_eq!(
                check_method(&text),
                text.parse::<reqwest::Method>().is_ok(),
                "{text:?}"
            );
        }
    }
    assert!(!check_method(""));
    assert!(check_method("A-METHOD-OF-MORE-THAN-FIFTEEN-LETTERS"));
}

#[test]
fn finds_the_address_in_the_configuration() {
    let config = |toml: &str| {
        let mut object = serde_json::Map::new();
        object.insert("config".to_owned(), serde_json::Value::from(toml));
        json(&serde_json::Value::Object(object).to_string())
    };
    let good = "model_provider = \"relay\"\n[model_providers.relay]\nbase_url = \"https://a.b/v1//\"\nsince = 2024-01-01\n";
    assert_eq!(
        provider_base_url(&config(good)).unwrap(),
        "https://a.b/v1"
    );
    let deep = format!(
        "{good}[deep]\n{}x = {}1{}\n",
        "x.".repeat(70),
        "{a = ".repeat(70),
        "}".repeat(70)
    );
    assert_eq!(
        provider_base_url(&config(&deep)).unwrap(),
        "https://a.b/v1"
    );
    for (toml, error) in [
        ("model_provider = ", ScriptError::TomlFormat),
        (
            "model_provider = \"0\"\n[[model_providers]]\nbase_url = \"x\"",
            ScriptError::NoBaseUrl,
        ),
        ("model_provider = 3", ScriptError::NoModelProvider),
        ("model_provider = \"relay\"", ScriptError::NoBaseUrl),
        (
            "model_provider = \"relay\"\n[model_providers.other]\nbase_url = \"x\"",
            ScriptError::NoBaseUrl,
        ),
    ] {
        assert_eq!(provider_base_url(&config(toml)).unwrap_err(), error);
    }
    assert_eq!(
        provider_base_url(&json("{}")).unwrap_err(),
        ScriptError::NoCodexConfig
    );
}

#[test]
fn fills_in_the_placeholders() {
    let script = json(
        "{\"language\":\"javascript\",\"code\":\"{{baseUrl}}|{{apiKey}}|{{accessToken}}|{{userId}}|{{other}}|{{apiKey}}\",
          \"baseUrl\":\"https://x.y//\",\"accessToken\":\"t\",\"userId\":\"u\"}",
    );
    let config = json("{\"auth\":{\"OPENAI_API_KEY\":\"k\"}}");
    assert_eq!(
        prepare_script(&script, &config).unwrap(),
        "https://x.y|k|t|u|{{other}}|k"
    );
    let script = json(
        "{\"language\":\"javascript\",\"code\":\"{{apiKey}}\",\"baseUrl\":\"b\",\"apiKey\":\"own {{userId}}\",\"userId\":\"u\"}",
    );
    assert_eq!(prepare_script(&script, &config).unwrap(), "own u");
    for (text, error) in [
        ("{\"language\":\"python\"}", ScriptError::Language),
        ("{}", ScriptError::Language),
        ("{\"language\":\"javascript\"}", ScriptError::NoCode),
        (
            "{\"language\":\"javascript\",\"code\":\"x\",\"baseUrl\":\"\"}",
            ScriptError::NoCodexConfig,
        ),
    ] {
        assert_eq!(prepare_script(&json(text), &config).unwrap_err(), error);
    }
}

#[test]
fn builds_the_expressions_for_a_script() {
    assert_eq!(
        script_expression(" ({a:1});; ", None),
        "JSON.stringify((({a:1})).request)"
    );
    assert_eq!(
        script_expression("s", Some("{\"q\":1}")),
        "JSON.stringify((s).extractor({\"q\":1}))"
    );
}

#[test]
fn stops_scripts_that_fail_or_do_not_end() {
    assert!(!time_is_up(2_000_000_000, 2));
    assert!(time_is_up(2_000_000_001, 2));
    assert!(!time_is_up(1 << 90, u64::MAX));
    assert_eq!(
        evaluate("({", None).unwrap_err(),
        ScriptError::Execution
    );
    assert_eq!(
        evaluate("(()=>{for(;;){}})()", None).unwrap_err(),
        ScriptError::Execution
    );
    assert_eq!(
        evaluate("({request:undefined})", None).unwrap_err(),
        ScriptError::Execution
    );
    assert_eq!(
        read_outcome(Ok("{".to_owned())).unwrap_err(),
        ScriptError::ResultFormat
    );
    assert_eq!(
        read_outcome(Err(ScriptError::Runtime)).unwrap_err(),
        ScriptError::Runtime
    );
    assert!(read_outcome(Ok("[1]".to_owned())).is_ok());
}

#[test]
fn reads_where_a_request_goes() {
    let request = json("{\"url\":\"https://x\",\"method\":\"PROP-find\"}");
    let target = request_target(&request, &json("{\"timeout\":1}"), Some("p".to_owned())).unwrap();
    assert_eq!(target.url, "https://x");
    assert_eq!(target.method, "PROP-find");
    assert_eq!(target.timeout_seconds, 2);
    assert_eq!(target.proxy, Some("p".to_owned()));
    for (script, seconds) in [
        ("{}", 10),
        ("{\"timeout\":12}", 12),
        ("{\"timeout\":99}", 30),
        ("{\"timeout\":-4}", 10),
    ] {
        let target = request_target(&request, &json(script), Some(String::new())).unwrap();
        assert_eq!(target.timeout_seconds, seconds);
        assert_eq!(target.proxy, None);
    }
    for (text, error) in [
        ("{}", ScriptError::NoUrl),
        ("{\"url\":\"x\"}", ScriptError::NoMethod),
        ("{\"url\":\"x\",\"method\":\"\"}", ScriptError::Method),
        ("{\"url\":\"x\",\"method\":\"GE T\"}", ScriptError::Method),
        ("{\"url\":\"x\",\"method\":\"GÉT\"}", ScriptError::Method),
        ("{\"url\":\"x\",\"method\":\"a,b\"}", ScriptError::Method),
    ] {
        let found = request_target(&json(text), &json("{}"), None).unwrap_err();
        assert_eq!(found, error);
    }
}

#[test]
fn accepts_the_methods_that_reqwest_accepts() {
    for code in 0..256u32 {
        let method = format!("A{}", char::from_u32(code).unwrap());
        let valid = method.parse::<reqwest::Method>().is_ok();
        let mut object = serde_json::Map::new();
        object.insert("url".to_owned(), serde_json::Value::from("x"));
        object.insert("method".to_owned(), serde_json::Value::from(method));
        let request = json(&serde_json::Value::Object(object).to_string());
        assert_eq!(request_target(&request, &json("{}"), None).is_ok(), valid);
    }
}

#[test]
fn reads_headers_and_body() {
    let request = json("{\"headers\":{\"b\":\"2\",\"a\":\"1\"},\"body\":\"text\"}");
    assert_eq!(
        request_headers(&request).unwrap(),
        vec![
            ("a".to_owned(), "1".to_owned()),
            ("b".to_owned(), "2".to_owned())
        ]
    );
    assert_eq!(request_body(&request), Some("text".to_owned()));
    let request = json("{\"headers\":[1],\"body\":{}}");
    assert!(request_headers(&request).unwrap().is_empty());
    assert_eq!(request_body(&request), None);
    let request = json("{\"headers\":{\"a\":\"1\",\"b\":2}}");
    assert_eq!(request_headers(&request).unwrap_err(), ScriptError::Header);
}

#[test]
fn accepts_answers_that_succeeded() {
    assert!(check_status(200).is_ok());
    assert!(check_status(299).is_ok());
    for status in [100, 199, 300, 404, 500] {
        let error = check_status(status).unwrap_err();
        assert_eq!(error.message(), format!("额度接口 HTTP {status}"));
    }
    assert_eq!(answer_text(" { \"b\" : 1,\"a\":[ ] } ").unwrap(), "{\"a\":[],\"b\":1}");
    assert_eq!(
        answer_text("<html>").unwrap_err(),
        ScriptError::ResponseFormat
    );
}

#[test]
fn runs_a_query_in_two_halves() {
    let script = json(
        "{\"language\":\"javascript\",\"baseUrl\":\"https://api.x/\",\"apiKey\":\"k\",\"timeout\":5,
          \"code\":\"({request:{url:'{{baseUrl}}/q',method:'POST',headers:{Authorization:'Bearer {{apiKey}}'},body:'{}'},extractor:function(r){return {remaining:r.left,unit:r.unit};}})\"}",
    );
    let query = execute_script(&script, &json("{}"), None).unwrap();
    assert_eq!(query.target.url, "https://api.x/q");
    assert_eq!(query.target.method, "POST");
    assert_eq!(query.target.timeout_seconds, 5);
    assert_eq!(
        request_headers(&query.request).unwrap(),
        vec![("Authorization".to_owned(), "Bearer k".to_owned())]
    );
    let data = finish_script(&query.code, 200, Some("{\"left\": 12.25, \"unit\": \"USD\"}"));
    assert_eq!(
        parse_balance(&data.unwrap()).unwrap(),
        (Some(12_250_000), "USD".to_owned())
    );
    assert_eq!(
        finish_script(&query.code, 401, Some("{}")).unwrap_err(),
        ScriptError::Status(401)
    );
    assert_eq!(
        finish_script(&query.code, 200, None).unwrap_err(),
        ScriptError::Body
    );
    assert_eq!(
        finish_script(&query.code, 200, Some("no")).unwrap_err(),
        ScriptError::ResponseFormat
    );
    assert_eq!(
        execute_script(&json("{}"), &json("{}"), None).unwrap_err(),
        ScriptError::Language
    );
}

fn unread() -> RelayBalance {
    match plan_query(Some(row("{}", "{}"))).unwrap() {
        QueryPlan::Idle(relay) => relay,
        other => panic!("{other:?}"),
    }
}

#[test]
fn notes_what_a_query_brought() {
    let relay = with_outcome(unread(), Ok((Some(5), "USD".to_owned())));
    assert_eq!(relay.remaining, Some(5));
    assert_eq!(relay.unit, "USD");
    assert_eq!(relay.detail, "已读取 CCSwitch 余额");
    let relay = note_balance(unread(), Ok(json("{\"unit\":\"USD\"}")));
    assert_eq!(relay.remaining, None);
    assert_eq!(relay.unit, "USD");
    assert_eq!(relay.detail, "查询结果没有可用余额");
    let relay = note_balance(unread(), Err(ScriptError::Network));
    assert_eq!(relay.remaining, None);
    assert_eq!(relay.display_text(), "--");
    assert_eq!(relay.detail, "余额查询失败：额度网络请求失败或超时");
}

#[test]
fn every_script_error_has_its_message() {
    for (error, message) in [
        (ScriptError::Language, "仅支持 CCSwitch JavaScript 额度脚本"),
        (ScriptError::NoCode, "缺少额度脚本"),
        (ScriptError::NoCodexConfig, "缺少 Codex config"),
        (ScriptError::TomlFormat, "CCSwitch Codex TOML 格式错误"),
        (ScriptError::NoModelProvider, "缺少 model_provider"),
        (ScriptError::NoBaseUrl, "缺少供应商 base_url"),
        (ScriptError::Runtime, "无法创建额度脚本运行时"),
        (ScriptError::Context, "无法创建额度脚本上下文"),
        (ScriptError::Execution, "额度脚本执行失败或超时"),
        (ScriptError::ResultFormat, "额度脚本返回格式错误"),
        (ScriptError::NoUrl, "额度脚本缺少请求 URL"),
        (ScriptError::NoMethod, "额度脚本缺少请求方法"),
        (ScriptError::Method, "额度请求方法无效"),
        (ScriptError::Proxy, "CCSwitch 代理地址无效"),
        (ScriptError::Client, "无法创建额度请求客户端"),
        (ScriptError::Header, "额度请求头不是字符串"),
        (ScriptError::Network, "额度网络请求失败或超时"),
        (ScriptError::Body, "无法读取额度响应"),
        (ScriptError::ResponseFormat, "额度接口未返回 JSON"),
        (
            ScriptError::SeveralBalances,
            "存在多个余额套餐，无法确定应显示哪一个",
        ),
        (ScriptError::InvalidState, "CCSwitch 额度查询返回无效状态"),
        (ScriptError::NotANumber, "余额不是数值"),
        (ScriptError::OutOfRange, "余额超出数值范围"),
    ] {
        assert_eq!(error.message(), message);
    }
}

#[test]
fn samples_are_kept_apart_by_provider_and_unit() {
    let names = [
        history_key("a", "USD"),
        history_key("aU", "SD"),
        history_key("", "aUSD"),
        history_key("b", "USD"),
        history_key("a", "CNY"),
        history_key("1:a", "USD"),
    ];
    for (i, left) in names.iter().enumerate() {
        for right in &names[i + 1..] {
            assert_ne!(left, right);
        }
    }
    assert_eq!(history_key("中转", "USD"), "2:中转USD");
}

#[test]
fn samples_give_the_relay_its_chart() {
    let mut relay = unread();
    relay.remaining = Some(10_000_000);
    let mut history = sample_consumption(None, &mut relay, 0);
    assert_eq!(relay.chart, ConsumptionChart::default());
    for minute in 1..=30 {
        relay.remaining = Some(10_000_000 - minute * 100_000);
        history = sample_consumption(Some(history), &mut relay, minute * 60);
    }
    assert_eq!(relay.chart.end_at, 1800);
    assert_eq!(relay.chart.bars[BAR_COUNT - 1], Some(3_000_000));
    assert_eq!(relay.chart, ConsumptionHistory::chart(&history));
}

#[test]
fn capped_balances_are_sampled_in_full() {
    let mut relay = unread();
    relay.remaining = Some(5_000_000_000);
    let mut history = sample_consumption(None, &mut relay, 0);
    for minute in 1..=30 {
        relay.remaining = Some(5_000_000_000 - minute * 1_000_000);
        assert_eq!(relay.display_text(), "999");
        history = sample_consumption(Some(history), &mut relay, minute * 60);
    }
    assert_eq!(history.chart().bars[BAR_COUNT - 1], Some(30_000_000));
}

#[test]
fn decides_on_settings_that_were_read() {
    let settings = json("{\"currentProviderCodex\":\"a\"}");
    assert_eq!(find_selection(&settings), Some("a".to_owned()));
    assert_eq!(find_selection(&json("{\"currentProviderCodex\":1}")), None);
    let row = ProviderRow {
        id: "a".to_owned(),
        name: "A".to_owned(),
        category: None,
        config: String::new(),
        meta: String::new(),
    };
    let broken = || Err(JsonError::Malformed("bad".to_owned()));
    let enabled = "{\"usage_script\":{\"enabled\":true,\"code\":\"x\"}}";
    match plan_relay(&row, Ok(json(enabled)), Ok(json("{\"b\":\"c\"}"))).unwrap() {
        QueryPlan::Script {
            relay,
            script,
            config,
        } => {
            assert_eq!(relay.provider_id, "a");
            assert_eq!(script.text_at("code"), Some("x"));
            assert_eq!(config.text_at("b"), Some("c"));
        }
        other => panic!("{other:?}"),
    }
    match plan_relay(&row, Ok(json("{}")), broken()).unwrap() {
        QueryPlan::Idle(relay) => assert_eq!(relay.detail, "未配置或未启用额度查询"),
        other => panic!("{other:?}"),
    }
    assert!(matches!(
        plan_relay(&row, Ok(json(enabled)), broken()).unwrap_err(),
        ProviderError::ConfigFormat(_)
    ));
    assert!(matches!(
        plan_relay(&row, broken(), broken()).unwrap_err(),
        ProviderError::MetaFormat(_)
    ));
}

#[test]
fn placeholders_are_filled_one_kind_after_the_other() {
    assert_eq!(
        fill_in(
            "{{baseUrl}}|{{apiKey}}|{{accessToken}}|{{userId}}|{{baseUrl}}",
            "u{{userId}}",
            "k",
            "t{{apiKey}}",
            "n"
        ),
        "un|k|t{{apiKey}}|n|un"
    );
}
