//! The balance of the relay that CCSwitch has selected, read with its own JavaScript query.

use crate::consumption::{no_bars, sampled, started, ConsumptionChart, ConsumptionHistory};
use crate::double::{countable, millionths, to_millionths};
use crate::json::{
    compact, json_compact, parse_json, parsed, ErrorView, Json, JsonError, JsonView, MemberView,
};
use crate::text::{
    chars_of, decimal, decimal_text, is_empty, is_white_space,
    law_pattern_is_replaced_where_it_stands, law_trailing_run_is_dropped,
    law_white_space_around_a_text_goes, law_white_space_is_not_printed, lemma_decimal_denotes,
    replace_text, same_text, text_replaced, trim, trim_end_char, trimmed, without_trailing,
};
use vstd::prelude::*;
use vstd::string::*;

verus! {

/// The balance of a relay in millionths of its unit; `None` where no balance is available.
#[derive(Debug, PartialEq, Eq)]
pub struct RelayBalance {
    pub chart: ConsumptionChart,
    pub provider_id: String,
    pub name: String,
    pub remaining: Option<i64>,
    pub unit: String,
    pub detail: String,
}

impl Clone for RelayBalance {
    fn clone(&self) -> (copy: RelayBalance)
        ensures
            copy == *self,
    {
        RelayBalance {
            chart: self.chart,
            provider_id: self.provider_id.clone(),
            name: self.name.clone(),
            remaining: self.remaining,
            unit: self.unit.clone(),
            detail: self.detail.clone(),
        }
    }
}

/// The whole units of an amount, held between 0 and 999.
pub open spec fn whole_units(amount: i64) -> nat {
    if amount < 0 {
        0
    } else if amount / 1_000_000 > 999 {
        999
    } else {
        (amount / 1_000_000) as nat
    }
}

/// Formats a balance without its fraction, from 0 to 999.
pub fn format_balance(amount: i64) -> (text: String)
    ensures
        text@ == decimal(whole_units(amount)),
{
    let units: u64 = if amount < 0 {
        0
    } else if amount / 1_000_000 > 999 {
        999
    } else {
        (amount / 1_000_000) as u64
    };
    decimal_text(units)
}

/// What the keyboard shows of a balance.
pub open spec fn balance_text(remaining: Option<i64>) -> Seq<char> {
    match remaining {
        Some(amount) => decimal(whole_units(amount)),
        None => "--"@,
    }
}

impl RelayBalance {
    /// The whole units, at most 999, or `--` where there is no balance.
    pub fn display_text(&self) -> (text: String)
        ensures
            text@ == balance_text(self.remaining),
    {
        match self.remaining {
            Some(amount) => format_balance(amount),
            None => "--".to_owned(),
        }
    }
}

/// Why the balance of a relay could not be read.
#[derive(Clone, Copy, Debug, PartialEq, Eq)]
pub enum ScriptError {
    Language,
    NoCode,
    NoCodexConfig,
    TomlFormat,
    NoModelProvider,
    NoBaseUrl,
    Runtime,
    Context,
    Execution,
    ResultFormat,
    NoUrl,
    NoMethod,
    Method,
    Proxy,
    Client,
    Header,
    Network,
    Status(u16),
    Body,
    ResponseFormat,
    SeveralBalances,
    InvalidState,
    NotANumber,
    OutOfRange,
}

impl ScriptError {
    pub open spec fn described(self) -> Seq<char> {
        match self {
            ScriptError::Language => "仅支持 CCSwitch JavaScript 额度脚本"@,
            ScriptError::NoCode => "缺少额度脚本"@,
            ScriptError::NoCodexConfig => "缺少 Codex config"@,
            ScriptError::TomlFormat => "CCSwitch Codex TOML 格式错误"@,
            ScriptError::NoModelProvider => "缺少 model_provider"@,
            ScriptError::NoBaseUrl => "缺少供应商 base_url"@,
            ScriptError::Runtime => "无法创建额度脚本运行时"@,
            ScriptError::Context => "无法创建额度脚本上下文"@,
            ScriptError::Execution => "额度脚本执行失败或超时"@,
            ScriptError::ResultFormat => "额度脚本返回格式错误"@,
            ScriptError::NoUrl => "额度脚本缺少请求 URL"@,
            ScriptError::NoMethod => "额度脚本缺少请求方法"@,
            ScriptError::Method => "额度请求方法无效"@,
            ScriptError::Proxy => "CCSwitch 代理地址无效"@,
            ScriptError::Client => "无法创建额度请求客户端"@,
            ScriptError::Header => "额度请求头不是字符串"@,
            ScriptError::Network => "额度网络请求失败或超时"@,
            ScriptError::Status(code) => "额度接口 HTTP "@ + decimal(code as nat),
            ScriptError::Body => "无法读取额度响应"@,
            ScriptError::ResponseFormat => "额度接口未返回 JSON"@,
            ScriptError::SeveralBalances => "存在多个余额套餐，无法确定应显示哪一个"@,
            ScriptError::InvalidState => "CCSwitch 额度查询返回无效状态"@,
            ScriptError::NotANumber => "余额不是数值"@,
            ScriptError::OutOfRange => "余额超出数值范围"@,
        }
    }

    /// The error as a message; it never holds a key, an address or what a server said.
    pub fn message(&self) -> (text: String)
        ensures
            text@ == self.described(),
    {
        match self {
            ScriptError::Language => "仅支持 CCSwitch JavaScript 额度脚本".to_owned(),
            ScriptError::NoCode => "缺少额度脚本".to_owned(),
            ScriptError::NoCodexConfig => "缺少 Codex config".to_owned(),
            ScriptError::TomlFormat => "CCSwitch Codex TOML 格式错误".to_owned(),
            ScriptError::NoModelProvider => "缺少 model_provider".to_owned(),
            ScriptError::NoBaseUrl => "缺少供应商 base_url".to_owned(),
            ScriptError::Runtime => "无法创建额度脚本运行时".to_owned(),
            ScriptError::Context => "无法创建额度脚本上下文".to_owned(),
            ScriptError::Execution => "额度脚本执行失败或超时".to_owned(),
            ScriptError::ResultFormat => "额度脚本返回格式错误".to_owned(),
            ScriptError::NoUrl => "额度脚本缺少请求 URL".to_owned(),
            ScriptError::NoMethod => "额度脚本缺少请求方法".to_owned(),
            ScriptError::Method => "额度请求方法无效".to_owned(),
            ScriptError::Proxy => "CCSwitch 代理地址无效".to_owned(),
            ScriptError::Client => "无法创建额度请求客户端".to_owned(),
            ScriptError::Header => "额度请求头不是字符串".to_owned(),
            ScriptError::Network => "额度网络请求失败或超时".to_owned(),
            ScriptError::Status(code) => {
                let mut text = "额度接口 HTTP ".to_owned();
                text.append(decimal_text(*code as u64).as_str());
                text
            },
            ScriptError::Body => "无法读取额度响应".to_owned(),
            ScriptError::ResponseFormat => "额度接口未返回 JSON".to_owned(),
            ScriptError::SeveralBalances => "存在多个余额套餐，无法确定应显示哪一个".to_owned(),
            ScriptError::InvalidState => "CCSwitch 额度查询返回无效状态".to_owned(),
            ScriptError::NotANumber => "余额不是数值".to_owned(),
            ScriptError::OutOfRange => "余额超出数值范围".to_owned(),
        }
    }
}

/// Whether an item of a list has a balance that counts.
pub open spec fn has_balance(item: JsonView) -> bool {
    item.at("remaining"@) is Number && item.at("isValid"@) != JsonView::Bool(false)
}

/// The items of a list that have a balance that counts, in order.
pub open spec fn with_balance(items: Seq<JsonView>) -> Seq<JsonView>
    decreases items.len(),
{
    if items.len() == 0 {
        Seq::empty()
    } else if has_balance(items.last()) {
        with_balance(items.drop_last()).push(items.last())
    } else {
        with_balance(items.drop_last())
    }
}

/// The balance and the unit of one item.
pub open spec fn item_balance(item: JsonView) -> Result<(Option<i64>, Seq<char>), ScriptError> {
    let unit = match item.at("unit"@).text() {
        Some(text) => text,
        None => Seq::empty(),
    };
    if item.at("isValid"@) == JsonView::Bool(false) {
        Err(ScriptError::InvalidState)
    } else if item.at("remaining"@) == JsonView::Null {
        Ok((None, unit))
    } else {
        match item.at("remaining"@).double() {
            None => Err(ScriptError::NotANumber),
            Some(bits) => if countable(bits) {
                Ok((Some(millionths(bits) as i64), unit))
            } else {
                Err(ScriptError::OutOfRange)
            },
        }
    }
}

/// The balance and the unit of a query's result: one item, or a list of which at most one has a
/// balance. Several balances are neither added up nor chosen from.
pub open spec fn balance_read(data: JsonView) -> Result<(Option<i64>, Seq<char>), ScriptError> {
    match data {
        JsonView::Array(items) => if with_balance(items).len() > 1 {
            Err(ScriptError::SeveralBalances)
        } else if with_balance(items).len() == 0 {
            Ok((None, Seq::empty()))
        } else {
            item_balance(with_balance(items)[0])
        },
        _ => item_balance(data),
    }
}

/// Whether a balance with its unit, or an error, is the one that is meant.
pub open spec fn is_balance(
    read: Result<(Option<i64>, String), ScriptError>,
    meant: Result<(Option<i64>, Seq<char>), ScriptError>,
) -> bool {
    match read {
        Ok(pair) => meant == Ok::<(Option<i64>, Seq<char>), ScriptError>((pair.0, pair.1@)),
        Err(error) => meant == Err::<(Option<i64>, Seq<char>), ScriptError>(error),
    }
}

fn read_item(item: &Json) -> (read: Result<(Option<i64>, String), ScriptError>)
    ensures
        is_balance(read, item_balance(item@)),
{
    if item.is_bool_at("isValid", false) {
        return Err(ScriptError::InvalidState);
    }
    let unit = match item.text_at("unit") {
        Some(text) => text.to_owned(),
        None => String::new(),
    };
    assert(item@.at("unit"@).text() is None ==> unit@ =~= Seq::<char>::empty());
    let remaining = match item.get("remaining") {
        Some(value) => value,
        None => {
            return Ok((None, unit));
        },
    };
    if remaining.is_null() {
        return Ok((None, unit));
    }
    match remaining.as_double() {
        None => Err(ScriptError::NotANumber),
        Some(bits) => match to_millionths(bits) {
            Some(amount) => Ok((Some(amount), unit)),
            None => Err(ScriptError::OutOfRange),
        },
    }
}

fn counts(item: &Json) -> (counted: bool)
    ensures
        counted == has_balance(item@),
{
    let number = match item.get("remaining") {
        Some(value) => value.is_number(),
        None => false,
    };
    number && !item.is_bool_at("isValid", false)
}

proof fn lemma_with_balance_grows(items: Seq<JsonView>, taken: int)
    requires
        0 <= taken <= items.len(),
    ensures
        with_balance(items.take(taken)).len() <= with_balance(items).len(),
    decreases items.len() - taken,
{
    if taken < items.len() {
        lemma_with_balance_grows(items, taken + 1);
        assert(items.take(taken + 1).drop_last() =~= items.take(taken));
    } else {
        assert(items.take(taken) =~= items);
    }
}

/// Reads the balance from the result of a query.
pub fn parse_balance(data: &Json) -> (read: Result<(Option<i64>, String), ScriptError>)
    ensures
        is_balance(read, balance_read(data@)),
{
    match data {
        Json::Array(items) => {
            let ghost views = data@->Array_0;
            let mut found: Option<usize> = None;
            assert(views.take(0) =~= Seq::empty());
            for i in 0..items.len()
                invariant
                    views == data@->Array_0,
                    data@ == JsonView::Array(views),
                    views.len() == items@.len(),
                    forall|j: int| 0 <= j < items@.len() ==> (#[trigger] views[j]) == items@[j]@,
                    match found {
                        None => with_balance(views.take(i as int)).len() == 0,
                        Some(at) => at < i && with_balance(views.take(i as int)) == seq![
                            views[at as int],
                        ],
                    },
            {
                let ghost front = views.take(i + 1);
                assert(front.drop_last() =~= views.take(i as int));
                assert(front.last() == views[i as int]);
                if counts(&items[i]) {
                    if found.is_some() {
                        proof {
                            lemma_with_balance_grows(views, i + 1);
                        }
                        return Err(ScriptError::SeveralBalances);
                    }
                    found = Some(i);
                    assert(with_balance(front) =~= seq![views[i as int]]);
                }
            }
            assert(views.take(items@.len() as int) =~= views);
            match found {
                Some(at) => read_item(&items[at]),
                None => {
                    let unit = String::new();
                    assert(unit@ =~= Seq::<char>::empty());
                    Ok((None, unit))
                },
            }
        },
        _ => read_item(data),
    }
}

/// The provider that the settings of CCSwitch select, if they select one.
pub open spec fn selection(settings: JsonView) -> Option<Seq<char>> {
    settings.at("currentProviderCodex"@).text()
}

/// Finds the provider that the settings of CCSwitch select.
pub fn find_selection(settings: &Json) -> (selected: Option<String>)
    ensures
        match selected {
            Some(id) => selection(settings@) == Some(id@),
            None => selection(settings@) is None,
        },
{
    match settings.text_at("currentProviderCodex") {
        Some(id) => Some(id.to_owned()),
        None => None,
    }
}

/// Whether a provider, or an error, is what the text of the settings selects, where there is one.
pub open spec fn is_selection(
    selected: Result<Option<String>, JsonError>,
    settings: Option<Seq<char>>,
) -> bool {
    match settings {
        None => selected == Ok::<Option<String>, JsonError>(None),
        Some(text) => match parsed(text) {
            Err(error) => selected matches Err(found) && found@ == error,
            Ok(value) => selected matches Ok(choice) && match choice {
                Some(id) => selection(value) == Some(id@),
                None => selection(value) is None,
            },
        },
    }
}

/// Reads the selected provider from the settings, where there are any.
pub fn selected_provider(settings: Option<&str>) -> (selected: Result<Option<String>, JsonError>)
    ensures
        is_selection(
            selected,
            match settings {
                Some(text) => Some(text@),
                None => None,
            },
        ),
{
    match settings {
        None => Ok(None),
        Some(text) => match parse_json(text) {
            Err(error) => Err(error),
            Ok(value) => Ok(find_selection(&value)),
        },
    }
}

/// Which provider is asked.
pub open spec fn provider_asked(selected: Option<String>, marked: Option<String>) -> Option<String> {
    if selected is Some {
        selected
    } else {
        marked
    }
}

/// The provider to ask: the selected one before the one that the database marks as current.
pub fn provider_to_query(selected: Option<String>, marked: Option<String>) -> (provider: Option<
    String,
>)
    ensures
        provider == provider_asked(selected, marked),
{
    match selected {
        Some(id) => Some(id),
        None => marked,
    }
}

/// A provider as the database has it; `config` and `meta` are JSON texts.
#[derive(Debug)]
pub struct ProviderRow {
    pub id: String,
    pub name: String,
    pub category: Option<String>,
    pub config: String,
    pub meta: String,
}

/// Why a provider could not be asked.
#[derive(Debug)]
pub enum ProviderError {
    Missing,
    MetaFormat(JsonError),
    ConfigFormat(JsonError),
}

impl ProviderError {
    pub open spec fn described(&self) -> Seq<char> {
        match self {
            ProviderError::Missing => "CCSwitch 当前供应商不存在"@,
            ProviderError::MetaFormat(_) => "CCSwitch 额度配置格式错误"@,
            ProviderError::ConfigFormat(_) => "CCSwitch 供应商配置格式错误"@,
        }
    }

    /// The error as a message.
    pub fn message(&self) -> (text: String)
        ensures
            text@ == self.described(),
    {
        match self {
            ProviderError::Missing => "CCSwitch 当前供应商不存在".to_owned(),
            ProviderError::MetaFormat(_) => "CCSwitch 额度配置格式错误".to_owned(),
            ProviderError::ConfigFormat(_) => "CCSwitch 供应商配置格式错误".to_owned(),
        }
    }
}

/// What to do about a provider.
#[derive(Debug)]
pub enum QueryPlan {
    /// The official account, which is asked elsewhere.
    Official,
    /// A relay without a query.
    Idle(RelayBalance),
    /// A relay whose query has to be run.
    Script { relay: RelayBalance, script: Json, config: Json },
}

/// Whether a provider is the official account.
pub open spec fn is_official(category: Option<String>) -> bool {
    category matches Some(text) && text@ == "official"@
}

/// Whether a balance is what is known of a relay before its query.
pub open spec fn is_unread(relay: RelayBalance, row: ProviderRow) -> bool {
    &&& relay.chart.end_at == 0
    &&& relay.chart.bars@ == no_bars()
    &&& relay.provider_id@ == row.id@
    &&& relay.name@ == row.name@
    &&& relay.remaining is None
    &&& relay.unit@.len() == 0
    &&& relay.detail@ == "未配置或未启用额度查询"@
}

/// Whether a query is switched on.
pub open spec fn is_enabled(meta: JsonView) -> bool {
    meta.at("usage_script"@).at("enabled"@) == JsonView::Bool(true)
}

/// A JSON value that was read, or why there is none.
pub open spec fn reading_view(read: Result<Json, JsonError>) -> Result<JsonView, ErrorView> {
    match read {
        Ok(value) => Ok(value@),
        Err(error) => Err(error@),
    }
}

/// Whether a plan is the one for a relay with these settings.
pub open spec fn is_relay_plan(
    plan: Result<QueryPlan, ProviderError>,
    row: ProviderRow,
    meta: Result<JsonView, ErrorView>,
    config: Result<JsonView, ErrorView>,
) -> bool {
    match meta {
        Err(error) => plan matches Err(ProviderError::MetaFormat(found)) && found@ == error,
        Ok(meta) => if !is_enabled(meta) {
            plan matches Ok(QueryPlan::Idle(relay)) && is_unread(relay, row)
        } else {
            match config {
                Err(error) => plan matches Err(ProviderError::ConfigFormat(found)) && found@
                    == error,
                Ok(settings) => plan matches Ok(QueryPlan::Script { relay, script, config })
                    && is_unread(relay, row) && script@ == meta.at("usage_script"@) && config@
                    == settings,
            }
        },
    }
}

/// Decides how a relay is asked, from what was read of its two JSON texts. The configuration counts
/// only where a query is switched on.
pub fn plan_relay(
    row: &ProviderRow,
    meta: Result<Json, JsonError>,
    config: Result<Json, JsonError>,
) -> (plan: Result<QueryPlan, ProviderError>)
    ensures
        is_relay_plan(plan, *row, reading_view(meta), reading_view(config)),
{
    let relay = RelayBalance {
        chart: ConsumptionChart::default(),
        provider_id: row.id.clone(),
        name: row.name.clone(),
        remaining: None,
        unit: String::new(),
        detail: "未配置或未启用额度查询".to_owned(),
    };
    let meta = match meta {
        Err(error) => {
            return Err(ProviderError::MetaFormat(error));
        },
        Ok(meta) => meta,
    };
    let script = match meta.take("usage_script") {
        Some(script) => script,
        None => Json::Null,
    };
    if !script.is_bool_at("enabled", true) {
        return Ok(QueryPlan::Idle(relay));
    }
    match config {
        Err(error) => Err(ProviderError::ConfigFormat(error)),
        Ok(config) => Ok(QueryPlan::Script { relay, script, config }),
    }
}

/// Whether a plan, or an error, is the one for a provider.
pub open spec fn is_plan(plan: Result<QueryPlan, ProviderError>, row: Option<ProviderRow>) -> bool {
    match row {
        None => plan == Err::<QueryPlan, ProviderError>(ProviderError::Missing),
        Some(provider) => if is_official(provider.category) {
            plan == Ok::<QueryPlan, ProviderError>(QueryPlan::Official)
        } else {
            is_relay_plan(plan, provider, parsed(provider.meta@), parsed(provider.config@))
        },
    }
}

/// Decides how a provider is asked; `None` stands for one that is not in the database.
pub fn plan_query(row: Option<ProviderRow>) -> (plan: Result<QueryPlan, ProviderError>)
    ensures
        is_plan(plan, row),
{
    let provider = match row {
        None => {
            return Err(ProviderError::Missing);
        },
        Some(provider) => provider,
    };
    let official = match &provider.category {
        Some(category) => same_text(category.as_str(), "official"),
        None => false,
    };
    if official {
        return Ok(QueryPlan::Official);
    }
    plan_relay(
        &provider,
        parse_json(provider.meta.as_str()),
        parse_json(provider.config.as_str()),
    )
}

/// The text under a name of a TOML table; `None` for what is no TOML, and `Some(None)` where no text
/// stands under the name.
pub uninterp spec fn toml_text(text: Seq<char>, name: Seq<char>) -> Option<Option<Seq<char>>>;

/// `toml::from_str` into a `toml::Value`, and what `Value::get` and `Value::as_str` find in it. The
/// result is named: it depends on the two texts alone. What the grammar accepts is left to the
/// crate. It bounds the levels of inline values and those of dotted keys each for itself: a text
/// that joins both can nest some thousand levels, and reading it can exhaust a small stack.
#[verifier::external_body]
fn read_toml_text(text: &str, name: &str) -> (found: Option<Option<String>>)
    ensures
        toml_text(text@, name@) == found_view(found),
{
    match toml::from_str::<toml::Value>(text) {
        Ok(value) => Some(value.get(name).and_then(toml::Value::as_str).map(str::to_owned)),
        Err(_) => None,
    }
}

/// The text under a name of an entry of a table that stands in a TOML text; `None` for what is no
/// TOML, and `Some(None)` where the text is missing.
pub uninterp spec fn toml_entry_text(
    text: Seq<char>,
    table: Seq<char>,
    entry: Seq<char>,
    name: Seq<char>,
) -> Option<Option<Seq<char>>>;

/// `toml::from_str` into a `toml::Value`, and what `Value::get` for each of the three names and
/// `Value::as_str` find in it. The result is named: it depends on the four texts alone. The grammar
/// and its levels are those of `read_toml_text`.
#[verifier::external_body]
fn read_toml_entry_text(text: &str, table: &str, entry: &str, name: &str) -> (found: Option<
    Option<String>,
>)
    ensures
        toml_entry_text(text@, table@, entry@, name@) == found_view(found),
{
    match toml::from_str::<toml::Value>(text) {
        Ok(value) => {
            let inner = value.get(table).and_then(|table| table.get(entry));
            let found = inner.and_then(|entry| entry.get(name)).and_then(toml::Value::as_str);
            Some(found.map(str::to_owned))
        },
        Err(_) => None,
    }
}

/// What was found in a TOML text, by the view of the text.
pub open spec fn found_view(found: Option<Option<String>>) -> Option<Option<Seq<char>>> {
    match found {
        Some(Some(text)) => Some(Some(text@)),
        Some(None) => Some(None),
        None => None,
    }
}

/// The provider that a Codex configuration names, from what was found of it.
pub open spec fn model_provider_in(found: Option<Option<Seq<char>>>) -> Result<
    Seq<char>,
    ScriptError,
> {
    match found {
        None => Err(ScriptError::TomlFormat),
        Some(None) => Err(ScriptError::NoModelProvider),
        Some(Some(provider)) => Ok(provider),
    }
}

/// The address of a provider, without the slashes it ends in, from what was found of it.
pub open spec fn base_url_in(found: Option<Option<Seq<char>>>) -> Result<Seq<char>, ScriptError> {
    match found {
        None => Err(ScriptError::TomlFormat),
        Some(None) => Err(ScriptError::NoBaseUrl),
        Some(Some(url)) => Ok(without_trailing(url, '/')),
    }
}

/// The address of the provider in the settings that CCSwitch keeps for it.
pub open spec fn provider_url(config: JsonView) -> Result<Seq<char>, ScriptError> {
    match config.at("config"@).text() {
        None => Err(ScriptError::NoCodexConfig),
        Some(text) => match model_provider_in(toml_text(text, "model_provider"@)) {
            Err(error) => Err(error),
            Ok(provider) => base_url_in(
                toml_entry_text(text, "model_providers"@, provider, "base_url"@),
            ),
        },
    }
}

/// Whether a text, or an error, is the one that is meant.
pub open spec fn is_text(
    read: Result<String, ScriptError>,
    meant: Result<Seq<char>, ScriptError>,
) -> bool {
    match read {
        Ok(text) => meant == Ok::<Seq<char>, ScriptError>(text@),
        Err(error) => meant == Err::<Seq<char>, ScriptError>(error),
    }
}

/// Takes the provider that a Codex configuration names from what was found of it.
pub fn find_model_provider(found: Option<Option<String>>) -> (provider: Result<String, ScriptError>)
    ensures
        is_text(provider, model_provider_in(found_view(found))),
{
    match found {
        None => Err(ScriptError::TomlFormat),
        Some(None) => Err(ScriptError::NoModelProvider),
        Some(Some(provider)) => Ok(provider),
    }
}

/// Takes the address of a provider from what was found of it.
pub fn find_base_url(found: Option<Option<String>>) -> (url: Result<String, ScriptError>)
    ensures
        is_text(url, base_url_in(found_view(found))),
{
    match found {
        None => Err(ScriptError::TomlFormat),
        Some(None) => Err(ScriptError::NoBaseUrl),
        Some(Some(url)) => Ok(trim_end_char(url.as_str(), '/')),
    }
}

/// Finds the address of the provider in the settings that CCSwitch keeps for it.
pub fn provider_base_url(config: &Json) -> (url: Result<String, ScriptError>)
    ensures
        is_text(url, provider_url(config@)),
{
    let text = match config.text_at("config") {
        None => {
            return Err(ScriptError::NoCodexConfig);
        },
        Some(text) => text,
    };
    match find_model_provider(read_toml_text(text, "model_provider")) {
        Err(error) => Err(error),
        Ok(provider) => find_base_url(
            read_toml_entry_text(text, "model_providers", provider.as_str(), "base_url"),
        ),
    }
}

/// A text under a name, or the empty text.
pub open spec fn text_or_empty(value: JsonView, name: Seq<char>) -> Seq<char> {
    match value.at(name).text() {
        Some(text) => text,
        None => Seq::empty(),
    }
}

/// The address that stands for `{{baseUrl}}`: that of the script, or else that of the provider.
pub open spec fn script_url(script: JsonView, config: JsonView) -> Result<Seq<char>, ScriptError> {
    let own = text_or_empty(script, "baseUrl"@);
    if own.len() > 0 {
        Ok(without_trailing(own, '/'))
    } else {
        provider_url(config)
    }
}

/// The key that stands for `{{apiKey}}`: that of the script, or else that of the provider.
pub open spec fn script_key(script: JsonView, config: JsonView) -> Seq<char> {
    let own = text_or_empty(script, "apiKey"@);
    if own.len() > 0 {
        own
    } else {
        text_or_empty(config.at("auth"@), "OPENAI_API_KEY"@)
    }
}

/// A script with the four placeholders replaced, one kind after the other.
pub open spec fn filled_in(
    code: Seq<char>,
    url: Seq<char>,
    key: Seq<char>,
    token: Seq<char>,
    user: Seq<char>,
) -> Seq<char> {
    let with_url = text_replaced(code, "{{baseUrl}}"@, url);
    let with_key = text_replaced(with_url, "{{apiKey}}"@, key);
    let with_token = text_replaced(with_key, "{{accessToken}}"@, token);
    text_replaced(with_token, "{{userId}}"@, user)
}

/// The code to run for a script and the settings of its provider.
pub open spec fn script_code(script: JsonView, config: JsonView) -> Result<Seq<char>, ScriptError> {
    if script.at("language"@).text() != Some("javascript"@) {
        Err(ScriptError::Language)
    } else {
        match script.at("code"@).text() {
            None => Err(ScriptError::NoCode),
            Some(code) => match script_url(script, config) {
                Err(error) => Err(error),
                Ok(url) => Ok(
                    filled_in(
                        code,
                        url,
                        script_key(script, config),
                        text_or_empty(script, "accessToken"@),
                        text_or_empty(script, "userId"@),
                    ),
                ),
            },
        }
    }
}

fn text_at_or_empty(value: &Json, name: &str) -> (text: String)
    ensures
        text@ == text_or_empty(value@, name@),
{
    match value.text_at(name) {
        Some(text) => text.to_owned(),
        None => {
            let text = String::new();
            assert(text@ =~= Seq::<char>::empty());
            text
        },
    }
}

fn find_script_key(script: &Json, config: &Json) -> (key: String)
    ensures
        key@ == script_key(script@, config@),
{
    let own = text_at_or_empty(script, "apiKey");
    if !is_empty(own.as_str()) {
        return own;
    }
    match config.get("auth") {
        Some(auth) => text_at_or_empty(auth, "OPENAI_API_KEY"),
        None => {
            let text = String::new();
            assert(text@ =~= Seq::<char>::empty());
            text
        },
    }
}

/// Replaces the four placeholders of a script, one kind after the other.
pub fn fill_in(code: &str, url: &str, key: &str, token: &str, user: &str) -> (filled: String)
    ensures
        filled@ == filled_in(code@, url@, key@, token@, user@),
{
    proof {
        reveal_strlit("{{baseUrl}}");
        reveal_strlit("{{apiKey}}");
        reveal_strlit("{{accessToken}}");
        reveal_strlit("{{userId}}");
    }
    let with_url = replace_text(code, "{{baseUrl}}", url);
    let with_key = replace_text(with_url.as_str(), "{{apiKey}}", key);
    let with_token = replace_text(with_key.as_str(), "{{accessToken}}", token);
    replace_text(with_token.as_str(), "{{userId}}", user)
}

/// Makes the code of a script ready to run: its placeholders are replaced by the address and the
/// keys of the provider.
pub fn prepare_script(script: &Json, config: &Json) -> (code: Result<String, ScriptError>)
    ensures
        is_text(code, script_code(script@, config@)),
{
    let javascript = match script.text_at("language") {
        Some(language) => same_text(language, "javascript"),
        None => false,
    };
    if !javascript {
        return Err(ScriptError::Language);
    }
    let code = match script.text_at("code") {
        None => {
            return Err(ScriptError::NoCode);
        },
        Some(code) => code,
    };
    let own = text_at_or_empty(script, "baseUrl");
    let url = if is_empty(own.as_str()) {
        match provider_base_url(config) {
            Err(error) => {
                return Err(error);
            },
            Ok(url) => url,
        }
    } else {
        trim_end_char(own.as_str(), '/')
    };
    let key = find_script_key(script, config);
    let token = text_at_or_empty(script, "accessToken");
    let user = text_at_or_empty(script, "userId");
    Ok(fill_in(code, url.as_str(), key.as_str(), token.as_str(), user.as_str()))
}

/// The memory that a script may use, in bytes.
pub const SCRIPT_MEMORY_LIMIT: usize = 16_777_216;

/// The stack that a script may use, in bytes.
pub const SCRIPT_STACK_LIMIT: usize = 262_144;

/// The time that a script may take, in seconds.
pub const SCRIPT_SECONDS: u64 = 2;

/// A script without the white space around it and the semicolons it ends in.
pub open spec fn bare_code(code: Seq<char>) -> Seq<char> {
    without_trailing(trimmed(code), ';')
}

/// The expression that asks a script for its request.
pub open spec fn request_expression(code: Seq<char>) -> Seq<char> {
    "JSON.stringify(("@ + bare_code(code) + ").request)"@
}

/// The expression that hands an answer to the extractor of a script.
pub open spec fn extractor_expression(code: Seq<char>, answer: Seq<char>) -> Seq<char> {
    "JSON.stringify(("@ + bare_code(code) + ").extractor("@ + answer + "))"@
}

/// The expression for a script, with an answer or without one.
pub open spec fn expression_of(code: Seq<char>, answer: Option<Seq<char>>) -> Seq<char> {
    match answer {
        None => request_expression(code),
        Some(text) => extractor_expression(code, text),
    }
}

/// Builds the expression that asks a script for its request, or, with an answer in compact JSON,
/// the one that has the answer read.
pub fn script_expression(code: &str, answer: Option<&str>) -> (expression: String)
    ensures
        expression@ == expression_of(
            code@,
            match answer {
                Some(text) => Some(text@),
                None => None,
            },
        ),
{
    let kept = trim(code);
    let bare = trim_end_char(kept.as_str(), ';');
    let mut expression = "JSON.stringify((".to_owned();
    expression.append(bare.as_str());
    match answer {
        None => {
            expression.append(").request)");
        },
        Some(text) => {
            expression.append(").extractor(");
            expression.append(text);
            expression.append("))");
        },
    }
    expression
}

/// Whether a time in nanoseconds is longer than some seconds.
pub open spec fn has_run_longer(elapsed_nanoseconds: int, seconds: int) -> bool {
    elapsed_nanoseconds > seconds * 1_000_000_000
}

/// Tells when a script has run for longer than it may.
pub fn time_is_up(elapsed_nanoseconds: u128, seconds: u64) -> (up: bool)
    ensures
        up == has_run_longer(elapsed_nanoseconds as int, seconds as int),
{
    elapsed_nanoseconds > seconds as u128 * 1_000_000_000
}

/// Whether an expression may come to an outcome under limits of memory, stack and time. One
/// expression may have several: a slow machine stops what a fast one finishes.
pub uninterp spec fn javascript_may_return(
    expression: Seq<char>,
    memory: usize,
    stack: usize,
    seconds: u64,
    outcome: Result<Seq<char>, ScriptError>,
) -> bool;

/// `rquickjs::Context::eval` in a new runtime that has neither files nor network. The memory and
/// the stack are limited, and code that runs longer than `seconds` is stopped at the next point where
/// the engine asks whether to go on. It does not ask within a regular expression: one that matches
/// slowly runs on past the limit. What comes back depends on how fast the machine is: all that is
/// claimed is that it is one of the outcomes that the expression may have under these limits.
#[verifier::external_body]
fn run_javascript(expression: &str, memory: usize, stack: usize, seconds: u64) -> (outcome: Result<
    String,
    ScriptError,
>)
    requires
        memory == SCRIPT_MEMORY_LIMIT,
        stack == SCRIPT_STACK_LIMIT,
        seconds == SCRIPT_SECONDS,
    ensures
        javascript_may_return(expression@, memory, stack, seconds, outcome_view(outcome)),
{
    let runtime = rquickjs::Runtime::new().map_err(|_| ScriptError::Runtime)?;
    runtime.set_memory_limit(memory);
    runtime.set_max_stack_size(stack);
    let started = std::time::Instant::now();
    runtime.set_interrupt_handler(
        Some(Box::new(move || time_is_up(started.elapsed().as_nanos(), seconds))),
    );
    let context = rquickjs::Context::full(&runtime).map_err(|_| ScriptError::Context)?;
    context.with(|ctx| ctx.eval::<String, &str>(expression)).map_err(|_| ScriptError::Execution)
}

/// An outcome by the view of its text.
pub open spec fn outcome_view(outcome: Result<String, ScriptError>) -> Result<
    Seq<char>,
    ScriptError,
> {
    match outcome {
        Ok(text) => Ok(text@),
        Err(error) => Err(error),
    }
}

/// What a script's outcome means: the JSON value that it stands for.
pub open spec fn outcome_read(outcome: Result<Seq<char>, ScriptError>) -> Result<
    JsonView,
    ScriptError,
> {
    match outcome {
        Err(error) => Err(error),
        Ok(text) => match parsed(text) {
            Ok(value) => Ok(value),
            Err(_) => Err(ScriptError::ResultFormat),
        },
    }
}

/// Whether a value, or an error, is the one that is meant.
pub open spec fn is_value(
    read: Result<Json, ScriptError>,
    meant: Result<JsonView, ScriptError>,
) -> bool {
    match read {
        Ok(value) => meant == Ok::<JsonView, ScriptError>(value@),
        Err(error) => meant == Err::<JsonView, ScriptError>(error),
    }
}

/// Reads the value that a script returned.
pub fn read_outcome(outcome: Result<String, ScriptError>) -> (read: Result<Json, ScriptError>)
    ensures
        is_value(read, outcome_read(outcome_view(outcome))),
{
    match outcome {
        Err(error) => Err(error),
        Ok(text) => match parse_json(text.as_str()) {
            Ok(value) => Ok(value),
            Err(_) => Err(ScriptError::ResultFormat),
        },
    }
}

/// Runs a script once: for its request, or, with the answer of a server in compact JSON, for what
/// it reads from the answer.
pub fn evaluate(code: &str, answer: Option<&str>) -> (read: Result<Json, ScriptError>)
    ensures
        exists|outcome: Result<Seq<char>, ScriptError>|
            javascript_may_return(
                expression_of(
                    code@,
                    match answer {
                        Some(text) => Some(text@),
                        None => None,
                    },
                ),
                SCRIPT_MEMORY_LIMIT,
                SCRIPT_STACK_LIMIT,
                SCRIPT_SECONDS,
                outcome,
            ) && is_value(read, #[trigger] outcome_read(outcome)),
{
    let expression = script_expression(code, answer);
    let outcome = run_javascript(
        expression.as_str(),
        SCRIPT_MEMORY_LIMIT,
        SCRIPT_STACK_LIMIT,
        SCRIPT_SECONDS,
    );
    let ghost returned = outcome_view(outcome);
    let read = read_outcome(outcome);
    assert(is_value(read, outcome_read(returned)));
    read
}

/// The characters of a method name.
pub open spec fn is_method_char(c: char) -> bool {
    ('0' <= c <= '9') || ('A' <= c <= 'Z') || ('a' <= c <= 'z') || c == '!' || c == '#' || c == '$'
        || c == '%' || c == '&' || c == '\'' || c == '*' || c == '+' || c == '-' || c == '.' || c
        == '^' || c == '_' || c == '`' || c == '|' || c == '~'
}

/// Whether a text can be the method of a request.
pub open spec fn is_method(text: Seq<char>) -> bool {
    text.len() > 0 && forall|i: int| 0 <= i < text.len() ==> is_method_char(#[trigger] text[i])
}

/// Tells whether a text can be the method of a request.
pub fn check_method(text: &str) -> (valid: bool)
    ensures
        valid == is_method(text@),
{
    let chars = chars_of(text);
    for i in 0..chars.len()
        invariant
            chars@ == text@,
            forall|j: int| 0 <= j < i ==> is_method_char(#[trigger] text@[j]),
    {
        let c = chars[i];
        if !(('0' <= c && c <= '9') || ('A' <= c && c <= 'Z') || ('a' <= c && c <= 'z') || c == '!'
            || c == '#' || c == '$' || c == '%' || c == '&' || c == '\'' || c == '*' || c == '+' || c
            == '-' || c == '.' || c == '^' || c == '_' || c == '`' || c == '|' || c == '~') {
            assert(!is_method_char(text@[i as int]));
            return false;
        }
    }
    chars.len() > 0
}

/// Where a script sends its request, and how.
#[derive(Debug)]
pub struct RequestTarget {
    pub url: String,
    pub method: String,
    pub timeout_seconds: u64,
    pub proxy: Option<String>,
}

/// The time that a request may take: what the script says, held between 2 and 30 seconds.
pub open spec fn request_timeout(script: JsonView) -> u64 {
    match script.at("timeout"@).unsigned() {
        None => 10,
        Some(seconds) => if seconds < 2 {
            2
        } else if seconds > 30 {
            30
        } else {
            seconds
        },
    }
}

/// The proxy to use: an empty one is none.
pub open spec fn proxy_to_use(proxy: Option<String>) -> Option<String> {
    match proxy {
        Some(address) => if address@.len() == 0 {
            None
        } else {
            proxy
        },
        None => None,
    }
}

/// Whether a target, or an error, is what a request and its script say.
pub open spec fn is_target(
    target: Result<RequestTarget, ScriptError>,
    request: JsonView,
    script: JsonView,
    proxy: Option<String>,
) -> bool {
    match request.at("url"@).text() {
        None => target == Err::<RequestTarget, ScriptError>(ScriptError::NoUrl),
        Some(url) => match request.at("method"@).text() {
            None => target == Err::<RequestTarget, ScriptError>(ScriptError::NoMethod),
            Some(method) => if is_method(method) {
                target matches Ok(found) && found.url@ == url && found.method@ == method
                    && found.timeout_seconds == request_timeout(script) && found.proxy
                    == proxy_to_use(proxy)
            } else {
                target == Err::<RequestTarget, ScriptError>(ScriptError::Method)
            },
        },
    }
}

/// Reads where a request goes.
pub fn request_target(request: &Json, script: &Json, proxy: Option<String>) -> (target: Result<
    RequestTarget,
    ScriptError,
>)
    ensures
        is_target(target, request@, script@, proxy),
{
    let url = match request.text_at("url") {
        None => {
            return Err(ScriptError::NoUrl);
        },
        Some(url) => url,
    };
    let method = match request.text_at("method") {
        None => {
            return Err(ScriptError::NoMethod);
        },
        Some(method) => method,
    };
    if !check_method(method) {
        return Err(ScriptError::Method);
    }
    let stated = match script.get("timeout") {
        Some(value) => value.as_unsigned(),
        None => None,
    };
    let timeout_seconds: u64 = match stated {
        None => 10,
        Some(seconds) => if seconds < 2 {
            2
        } else if seconds > 30 {
            30
        } else {
            seconds
        },
    };
    let proxy = match proxy {
        Some(address) => if is_empty(address.as_str()) {
            None
        } else {
            Some(address)
        },
        None => None,
    };
    Ok(RequestTarget { url: url.to_owned(), method: method.to_owned(), timeout_seconds, proxy })
}

/// The headers that some members stand for, in order; every value has to be a text.
pub open spec fn headers_read(members: Seq<MemberView>) -> Result<
    Seq<(Seq<char>, Seq<char>)>,
    ScriptError,
>
    decreases members.len(),
{
    if members.len() == 0 {
        Ok(Seq::empty())
    } else {
        match headers_read(members.drop_last()) {
            Err(error) => Err(error),
            Ok(headers) => match members.last().value.text() {
                None => Err(ScriptError::Header),
                Some(text) => Ok(headers.push((members.last().name, text))),
            },
        }
    }
}

/// The headers of a request; none where it has no object of them.
pub open spec fn request_headers_of(request: JsonView) -> Result<
    Seq<(Seq<char>, Seq<char>)>,
    ScriptError,
> {
    match request.at("headers"@) {
        JsonView::Object(members) => headers_read(members),
        _ => Ok(Seq::empty()),
    }
}

/// The views of some headers.
pub open spec fn header_views(headers: Seq<(String, String)>) -> Seq<(Seq<char>, Seq<char>)> {
    Seq::new(headers.len(), |i: int| (headers[i].0@, headers[i].1@))
}

proof fn lemma_headers_stop(members: Seq<MemberView>, count: int)
    requires
        0 <= count <= members.len(),
        headers_read(members.take(count)) is Err,
    ensures
        headers_read(members) == Err::<Seq<(Seq<char>, Seq<char>)>, ScriptError>(
            ScriptError::Header,
        ),
    decreases members.len(),
{
    if count < members.len() {
        assert(members.drop_last().take(count) =~= members.take(count));
        lemma_headers_stop(members.drop_last(), count);
    } else {
        assert(members.take(count) =~= members);
        if headers_read(members.drop_last()) is Err {
            assert(members.drop_last().take(count - 1) =~= members.drop_last());
            lemma_headers_stop(members.drop_last(), count - 1);
        }
    }
}

/// Reads the headers of a request.
pub fn request_headers(request: &Json) -> (headers: Result<Vec<(String, String)>, ScriptError>)
    ensures
        match headers {
            Ok(pairs) => request_headers_of(request@) == Ok::<
                Seq<(Seq<char>, Seq<char>)>,
                ScriptError,
            >(header_views(pairs@)),
            Err(error) => request_headers_of(request@) == Err::<
                Seq<(Seq<char>, Seq<char>)>,
                ScriptError,
            >(error),
        },
{
    let mut headers: Vec<(String, String)> = Vec::new();
    match request.get("headers") {
        Some(Json::Object(members)) => {
            let ghost views = request@.at("headers"@)->Object_0;
            assert(views.take(0) =~= Seq::empty());
            assert(header_views(headers@) =~= Seq::empty());
            for i in 0..members.len()
                invariant
                    request@.at("headers"@) == JsonView::Object(views),
                    views.len() == members@.len(),
                    forall|j: int|
                        0 <= j < members@.len() ==> (#[trigger] views[j]) == (MemberView {
                            name: members@[j].name@,
                            value: members@[j].value@,
                        }),
                    headers_read(views.take(i as int)) == Ok::<
                        Seq<(Seq<char>, Seq<char>)>,
                        ScriptError,
                    >(header_views(headers@)),
            {
                let ghost front = views.take(i + 1);
                assert(front.drop_last() =~= views.take(i as int));
                assert(front.last() == views[i as int]);
                match members[i].value.as_text() {
                    None => {
                        proof {
                            lemma_headers_stop(views, i + 1);
                        }
                        return Err(ScriptError::Header);
                    },
                    Some(text) => {
                        let ghost before = headers@;
                        headers.push((members[i].name.clone(), text.to_owned()));
                        assert(header_views(headers@) =~= header_views(before).push(
                            (members@[i as int].name@, text@),
                        ));
                    },
                }
            }
            assert(views.take(members@.len() as int) =~= views);
        },
        _ => {
            assert(header_views(headers@) =~= Seq::empty());
        },
    }
    Ok(headers)
}

/// Reads the body of a request, if it is a text.
pub fn request_body(request: &Json) -> (body: Option<String>)
    ensures
        match body {
            Some(text) => request@.at("body"@).text() == Some(text@),
            None => request@.at("body"@).text() is None,
        },
{
    match request.text_at("body") {
        Some(text) => Some(text.to_owned()),
        None => None,
    }
}

/// What the status of an answer comes to: only those from 200 to 299 succeeded.
pub open spec fn status_checked(status: u16) -> Result<(), ScriptError> {
    if 200 <= status < 300 {
        Ok(())
    } else {
        Err(ScriptError::Status(status))
    }
}

/// Accepts the status of an answer that succeeded.
pub fn check_status(status: u16) -> (checked: Result<(), ScriptError>)
    ensures
        checked == status_checked(status),
{
    if 200 <= status && status < 300 {
        Ok(())
    } else {
        Err(ScriptError::Status(status))
    }
}

/// Brings the answer of a server into the form in which a script gets it.
pub fn answer_text(body: &str) -> (answer: Result<String, ScriptError>)
    ensures
        is_text(
            answer,
            match json_compact(body@, ""@) {
                Some(text) => Ok(text),
                None => Err(ScriptError::ResponseFormat),
            },
        ),
{
    match compact(body, "") {
        Some(text) => Ok(text),
        None => Err(ScriptError::ResponseFormat),
    }
}

/// A query that is ready to be sent: the code, the request that it asks for, and where it goes.
#[derive(Debug)]
pub struct ScriptQuery {
    pub code: String,
    pub request: Json,
    pub target: RequestTarget,
}

/// Whether a query, or an error, is what the request of a script leads to.
pub open spec fn is_query(
    query: Result<ScriptQuery, ScriptError>,
    code: Seq<char>,
    request: Result<JsonView, ScriptError>,
    script: JsonView,
    proxy: Option<String>,
) -> bool {
    match request {
        Err(error) => query == Err::<ScriptQuery, ScriptError>(error),
        Ok(value) => match query {
            Ok(ready) => ready.code@ == code && ready.request@ == value && is_target(
                Ok(ready.target),
                value,
                script,
                proxy,
            ),
            Err(error) => is_target(Err(error), value, script, proxy),
        },
    }
}

/// Whether a query, or an error, is what a script may come to with the settings of its provider.
pub open spec fn may_execute(
    query: Result<ScriptQuery, ScriptError>,
    script: JsonView,
    config: JsonView,
    proxy: Option<String>,
) -> bool {
    match script_code(script, config) {
        Err(error) => query == Err::<ScriptQuery, ScriptError>(error),
        Ok(code) => exists|outcome: Result<Seq<char>, ScriptError>|
            javascript_may_return(
                request_expression(code),
                SCRIPT_MEMORY_LIMIT,
                SCRIPT_STACK_LIMIT,
                SCRIPT_SECONDS,
                outcome,
            ) && is_query(query, code, #[trigger] outcome_read(outcome), script, proxy),
    }
}

/// Runs the first half of a script: its placeholders are replaced, it is asked for its request, and
/// the request is checked.
pub fn execute_script(script: &Json, config: &Json, proxy: Option<String>) -> (query: Result<
    ScriptQuery,
    ScriptError,
>)
    ensures
        may_execute(query, script@, config@, proxy),
{
    let code = match prepare_script(script, config) {
        Err(error) => {
            return Err(error);
        },
        Ok(code) => code,
    };
    let read = evaluate(code.as_str(), None);
    let ghost outcome = choose|outcome: Result<Seq<char>, ScriptError>|
        javascript_may_return(
            request_expression(code@),
            SCRIPT_MEMORY_LIMIT,
            SCRIPT_STACK_LIMIT,
            SCRIPT_SECONDS,
            outcome,
        ) && is_value(read, #[trigger] outcome_read(outcome));
    let request = match read {
        Err(error) => {
            let query: Result<ScriptQuery, ScriptError> = Err(error);
            assert(is_query(query, code@, outcome_read(outcome), script@, proxy));
            return query;
        },
        Ok(request) => request,
    };
    let target = request_target(&request, script, proxy);
    let query = match target {
        Err(error) => Err(error),
        Ok(target) => Ok(ScriptQuery { code, request, target }),
    };
    assert(is_query(query, code@, outcome_read(outcome), script@, proxy));
    query
}

/// Whether a value, or an error, is what a script may read from an answer.
pub open spec fn may_read(
    read: Result<Json, ScriptError>,
    code: Seq<char>,
    answer: Seq<char>,
) -> bool {
    exists|outcome: Result<Seq<char>, ScriptError>|
        javascript_may_return(
            extractor_expression(code, answer),
            SCRIPT_MEMORY_LIMIT,
            SCRIPT_STACK_LIMIT,
            SCRIPT_SECONDS,
            outcome,
        ) && is_value(read, #[trigger] outcome_read(outcome))
}

/// Whether a value, or an error, is what the answer of the server may come to.
pub open spec fn may_finish(
    read: Result<Json, ScriptError>,
    code: Seq<char>,
    status: u16,
    body: Option<Seq<char>>,
) -> bool {
    match status_checked(status) {
        Err(error) => read == Err::<Json, ScriptError>(error),
        Ok(_) => match body {
            None => read == Err::<Json, ScriptError>(ScriptError::Body),
            Some(text) => match json_compact(text, ""@) {
                None => read == Err::<Json, ScriptError>(ScriptError::ResponseFormat),
                Some(answer) => may_read(read, code, answer),
            },
        },
    }
}

/// Runs the second half of a script on the answer of the server; `None` stands for a body that could
/// not be read.
pub fn finish_script(code: &str, status: u16, body: Option<&str>) -> (read: Result<Json, ScriptError>)
    ensures
        may_finish(
            read,
            code@,
            status,
            match body {
                Some(text) => Some(text@),
                None => None,
            },
        ),
{
    match check_status(status) {
        Err(error) => {
            return Err(error);
        },
        Ok(_) => {},
    }
    let text = match body {
        None => {
            return Err(ScriptError::Body);
        },
        Some(text) => text,
    };
    match answer_text(text) {
        Err(error) => Err(error),
        Ok(answer) => evaluate(code, Some(answer.as_str())),
    }
}

/// Whether a relay is as before but for what its query brought.
pub open spec fn is_answered(
    before: RelayBalance,
    after: RelayBalance,
    remaining: Option<i64>,
    unit: Seq<char>,
    detail: Seq<char>,
) -> bool {
    &&& after.chart == before.chart
    &&& after.provider_id@ == before.provider_id@
    &&& after.name@ == before.name@
    &&& after.remaining == remaining
    &&& after.unit@ == unit
    &&& after.detail@ == detail
}

/// Notes on a relay what its query brought; a query that failed leaves it without a balance and
/// says why.
pub fn with_outcome(relay: RelayBalance, outcome: Result<(Option<i64>, String), ScriptError>) -> (noted:
    RelayBalance)
    ensures
        carries_outcome(
            relay,
            noted,
            match outcome {
                Ok(pair) => Ok((pair.0, pair.1@)),
                Err(error) => Err(error),
            },
        ),
{
    let mut noted = relay;
    match outcome {
        Ok(pair) => {
            noted.remaining = pair.0;
            noted.unit = pair.1;
            noted.detail = if pair.0.is_some() {
                "已读取 CCSwitch 余额".to_owned()
            } else {
                "查询结果没有可用余额".to_owned()
            };
        },
        Err(error) => {
            let mut detail = "余额查询失败：".to_owned();
            detail.append(error.message().as_str());
            noted.detail = detail;
        },
    }
    noted
}

/// Whether a relay carries what a query came to.
pub open spec fn carries_outcome(
    relay: RelayBalance,
    noted: RelayBalance,
    outcome: Result<(Option<i64>, Seq<char>), ScriptError>,
) -> bool {
    match outcome {
        Ok(pair) => is_answered(
            relay,
            noted,
            pair.0,
            pair.1,
            if pair.0 is Some {
                "已读取 CCSwitch 余额"@
            } else {
                "查询结果没有可用余额"@
            },
        ),
        Err(error) => is_answered(
            relay,
            noted,
            relay.remaining,
            relay.unit@,
            "余额查询失败："@ + error.described(),
        ),
    }
}

/// Notes on a relay the balance that a script read, or why it read none.
pub fn note_balance(relay: RelayBalance, data: Result<Json, ScriptError>) -> (noted: RelayBalance)
    ensures
        carries_outcome(
            relay,
            noted,
            match data {
                Ok(value) => balance_read(value@),
                Err(error) => Err(error),
            },
        ),
{
    match data {
        Ok(value) => with_outcome(relay, parse_balance(&value)),
        Err(error) => with_outcome(relay, Err(error)),
    }
}

/// The name under which the samples of a provider in a unit are stored.
pub open spec fn history_name(provider_id: Seq<char>, unit: Seq<char>) -> Seq<char> {
    decimal(provider_id.len()) + ":"@ + provider_id + unit
}

/// Builds the name under which the samples of a provider in a unit are stored.
pub fn history_key(provider_id: &str, unit: &str) -> (key: String)
    ensures
        key@ == history_name(provider_id@, unit@),
{
    let length: usize = chars_of(provider_id).len();
    let mut key = decimal_text(length as u64);
    key.append(":");
    key.append(provider_id);
    key.append(unit);
    key
}

/// Whether a history and a relay are what a sample of the relay leads to.
pub open spec fn is_sampling(
    history: ConsumptionHistory,
    stored: Option<ConsumptionHistory>,
    before: RelayBalance,
    after: RelayBalance,
    now: i64,
) -> bool {
    &&& history@ == match stored {
        Some(earlier) => sampled(earlier@, now as int, before.remaining),
        None => started(now as int, before.remaining),
    }
    &&& after == (RelayBalance { chart: history.chart, ..before })
}

/// Adds a sample to the stored history of a relay, or starts one, and gives the relay the chart of
/// its completed periods. The history to store comes back.
pub fn sample_consumption(stored: Option<ConsumptionHistory>, relay: &mut RelayBalance, now: i64) -> (history:
    ConsumptionHistory)
    requires
        stored matches Some(before) ==> before.comparable(now),
    ensures
        is_sampling(history, stored, *old(relay), *final(relay), now),
{
    let history = match stored {
        Some(before) => {
            let mut history = before;
            history.sample(now, relay.remaining);
            history
        },
        None => ConsumptionHistory::new(now, relay.remaining),
    };
    relay.chart = history.chart();
    history
}

/// The samples of different providers, or of different units, never share a name.
pub proof fn law_histories_are_kept_apart(
    provider: Seq<char>,
    unit: Seq<char>,
    other_provider: Seq<char>,
    other_unit: Seq<char>,
)
    requires
        history_name(provider, unit) == history_name(other_provider, other_unit),
    ensures
        provider == other_provider,
        unit == other_unit,
{
    reveal_strlit(":");
    let name = history_name(provider, unit);
    let length = decimal(provider.len());
    let other_length = decimal(other_provider.len());
    lemma_decimal_denotes(provider.len());
    lemma_decimal_denotes(other_provider.len());
    assert(name[length.len() as int] == ':');
    assert(name[other_length.len() as int] == ':');
    if length.len() < other_length.len() {
        assert(name[length.len() as int] == other_length[length.len() as int]);
        assert(crate::text::is_digit(other_length[length.len() as int]));
    }
    if other_length.len() < length.len() {
        assert(name[other_length.len() as int] == length[other_length.len() as int]);
        assert(crate::text::is_digit(length[other_length.len() as int]));
    }
    assert(length =~= name.take(length.len() as int));
    assert(other_length =~= name.take(length.len() as int));
    let rest = name.skip(length.len() as int + 1);
    assert(rest =~= provider + unit);
    assert(rest =~= other_provider + other_unit);
    assert(provider =~= rest.take(provider.len() as int));
    assert(other_provider =~= rest.take(provider.len() as int));
    assert(unit =~= rest.skip(provider.len() as int));
    assert(other_unit =~= rest.skip(provider.len() as int));
}

/// Several balances are refused, whichever comes first.
pub proof fn law_several_balances_are_not_guessed(items: Seq<JsonView>, first: int, second: int)
    requires
        0 <= first < second < items.len(),
        has_balance(items[first]),
        has_balance(items[second]),
    ensures
        balance_read(JsonView::Array(items)) == Err::<(Option<i64>, Seq<char>), ScriptError>(
            ScriptError::SeveralBalances,
        ),
{
    let one = items.take(first + 1);
    assert(one.last() == items[first]);
    let two = items.take(second + 1);
    assert(two.last() == items[second]);
    assert(two.drop_last().take(first + 1) =~= one);
    lemma_with_balance_grows(two.drop_last(), first + 1);
    lemma_with_balance_grows(items, second + 1);
}

/// Balances that are both shown as 999 still count in full towards the consumption.
pub proof fn law_capped_balance_is_sampled_in_full(before: i64, after: i64)
    requires
        999_000_000 <= after <= before,
    ensures
        balance_text(Some(before)) == balance_text(Some(after)),
        balance_text(Some(before)) == decimal(999),
        crate::consumption::decrease(before, after) == before - after,
{
}

/// A relay whose query fails shows no balance, whatever went wrong.
pub proof fn law_failed_query_shows_no_balance(
    row: ProviderRow,
    unread: RelayBalance,
    noted: RelayBalance,
    error: ScriptError,
)
    requires
        is_unread(unread, row),
        carries_outcome(unread, noted, Err(error)),
    ensures
        noted.remaining is None,
        balance_text(noted.remaining) == "--"@,
{
}

/// The address of a script counts before that of its provider: with an own address that is not empty
/// the provider's configuration is not looked at for one. The slashes at its end are dropped, and two
/// configurations with the same key give the same code.
pub proof fn law_own_address_counts_first(
    script: JsonView,
    config: JsonView,
    other: JsonView,
    kept: Seq<char>,
    slashes: Seq<char>,
)
    requires
        script.at("baseUrl"@) == JsonView::Text(kept + slashes),
        (kept + slashes).len() > 0,
        kept.len() == 0 || kept.last() != '/',
        forall|i: int| 0 <= i < slashes.len() ==> #[trigger] slashes[i] == '/',
        config.at("auth"@).at("OPENAI_API_KEY"@) == other.at("auth"@).at("OPENAI_API_KEY"@),
    ensures
        script_url(script, config) == Ok::<Seq<char>, ScriptError>(kept),
        script_url(script, other) == Ok::<Seq<char>, ScriptError>(kept),
        script_code(script, config) == script_code(script, other),
        script.at("language"@) == JsonView::Text("javascript"@) && script.at("code"@) is Text
            ==> script_code(script, config) is Ok,
{
    law_trailing_run_is_dropped(kept, slashes, '/');
}

/// Without an own address the one of the provider stands in: the code of a script that could run is
/// refused exactly where the provider has no address, and for the provider's reason.
pub proof fn law_missing_address_comes_from_the_provider(script: JsonView, config: JsonView)
    requires
        !(script.at("baseUrl"@) is Text) || script.at("baseUrl"@)->Text_0.len() == 0,
        script.at("language"@) == JsonView::Text("javascript"@),
        script.at("code"@) is Text,
    ensures
        script_url(script, config) == provider_url(config),
        provider_url(config) is Ok <==> script_code(script, config) is Ok,
        provider_url(config) matches Err(error) ==> script_code(script, config) == Err::<
            Seq<char>,
            ScriptError,
        >(error),
{
}

/// A script that is not JavaScript, or has no code, is not run, whatever else it says.
pub proof fn law_script_needs_language_and_code(script: JsonView, config: JsonView)
    ensures
        script.at("language"@) != JsonView::Text("javascript"@) ==> script_code(script, config)
            == Err::<Seq<char>, ScriptError>(ScriptError::Language),
        script.at("language"@) == JsonView::Text("javascript"@) && !(script.at("code"@) is Text)
            ==> script_code(script, config) == Err::<Seq<char>, ScriptError>(ScriptError::NoCode),
{
}

/// The address of a provider is the `base_url` of the entry that its Codex configuration names,
/// without the slashes at its end. Each thing that is missing has its own error.
pub proof fn law_provider_address_is_that_of_its_entry(
    config: JsonView,
    text: Seq<char>,
    provider: Seq<char>,
    kept: Seq<char>,
    slashes: Seq<char>,
)
    requires
        config.at("config"@) == JsonView::Text(text),
        kept.len() == 0 || kept.last() != '/',
        forall|i: int| 0 <= i < slashes.len() ==> #[trigger] slashes[i] == '/',
    ensures
        toml_text(text, "model_provider"@) == Some(Some(provider)) && toml_entry_text(
            text,
            "model_providers"@,
            provider,
            "base_url"@,
        ) == Some(Some(kept + slashes)) ==> provider_url(config) == Ok::<Seq<char>, ScriptError>(
            kept,
        ),
        toml_text(text, "model_provider"@) is None ==> provider_url(config) == Err::<
            Seq<char>,
            ScriptError,
        >(ScriptError::TomlFormat),
        toml_text(text, "model_provider"@) == Some(None::<Seq<char>>) ==> provider_url(config)
            == Err::<Seq<char>, ScriptError>(ScriptError::NoModelProvider),
        toml_text(text, "model_provider"@) == Some(Some(provider)) && toml_entry_text(
            text,
            "model_providers"@,
            provider,
            "base_url"@,
        ) == Some(None::<Seq<char>>) ==> provider_url(config) == Err::<Seq<char>, ScriptError>(
            ScriptError::NoBaseUrl,
        ),
{
    law_trailing_run_is_dropped(kept, slashes, '/');
}

/// The key of a script counts before that of its provider, and the provider's where the script has
/// none; without either the key is empty.
pub proof fn law_own_key_counts_first(script: JsonView, config: JsonView)
    ensures
        ({
            let own = script.at("apiKey"@);
            let theirs = config.at("auth"@).at("OPENAI_API_KEY"@);
            &&& own is Text && own->Text_0.len() > 0 ==> script_key(script, config) == own->Text_0
            &&& !(own is Text && own->Text_0.len() > 0) && theirs is Text ==> script_key(
                script,
                config,
            ) == theirs->Text_0
            &&& !(own is Text && own->Text_0.len() > 0) && !(theirs is Text) ==> script_key(
                script,
                config,
            ).len() == 0
        }),
{
}

/// Each placeholder stands for its own value: the address, the key, the token and the user. What is
/// around it stays, and code without braces stays as it is.
pub proof fn law_placeholder_stands_for_its_value(
    before: Seq<char>,
    after: Seq<char>,
    url: Seq<char>,
    key: Seq<char>,
    token: Seq<char>,
    user: Seq<char>,
)
    requires
        !before.contains('{'),
        !after.contains('{'),
        !url.contains('{'),
        !key.contains('{'),
        !token.contains('{'),
        !user.contains('{'),
    ensures
        filled_in(before, url, key, token, user) == before,
        filled_in(before + "{{baseUrl}}"@ + after, url, key, token, user) == before + url + after,
        filled_in(before + "{{apiKey}}"@ + after, url, key, token, user) == before + key + after,
        filled_in(before + "{{accessToken}}"@ + after, url, key, token, user) == before + token
            + after,
        filled_in(before + "{{userId}}"@ + after, url, key, token, user) == before + user + after,
{
    let a = "{{baseUrl}}"@;
    let b = "{{apiKey}}"@;
    let c = "{{accessToken}}"@;
    let d = "{{userId}}"@;
    reveal_strlit("{{baseUrl}}");
    reveal_strlit("{{apiKey}}");
    reveal_strlit("{{accessToken}}");
    reveal_strlit("{{userId}}");
    lemma_filled(before, a, after, url);
    lemma_filled(before, b, after, key);
    lemma_filled(before, c, after, token);
    lemma_filled(before, d, after, user);
    let with_url = before + url + after;
    let with_key = before + key + after;
    let with_token = before + token + after;
    lemma_no_brace(before, url, after);
    lemma_no_brace(before, key, after);
    lemma_no_brace(before, token, after);
    law_pattern_is_replaced_where_it_stands(before, a, after, url);
    law_pattern_is_replaced_where_it_stands(before, b, after, key);
    law_pattern_is_replaced_where_it_stands(before, c, after, token);
    law_pattern_is_replaced_where_it_stands(before, d, after, user);
    law_pattern_is_replaced_where_it_stands(with_url, b, after, key);
    law_pattern_is_replaced_where_it_stands(with_url, c, after, token);
    law_pattern_is_replaced_where_it_stands(with_url, d, after, user);
    law_pattern_is_replaced_where_it_stands(with_key, c, after, token);
    law_pattern_is_replaced_where_it_stands(with_key, d, after, user);
    law_pattern_is_replaced_where_it_stands(with_token, d, after, user);
    lemma_other_placeholder(before, b, after, a, url, 2);
    lemma_other_placeholder(before, c, after, a, url, 2);
    lemma_other_placeholder(before, c, after, b, key, 3);
    lemma_other_placeholder(before, d, after, a, url, 2);
    lemma_other_placeholder(before, d, after, b, key, 2);
    lemma_other_placeholder(before, d, after, c, token, 2);
}

proof fn lemma_no_brace(before: Seq<char>, value: Seq<char>, after: Seq<char>)
    requires
        !before.contains('{'),
        !value.contains('{'),
        !after.contains('{'),
    ensures
        !(before + value + after).contains('{'),
{
    let text = before + value + after;
    assert forall|i: int| 0 <= i < text.len() implies text[i] != '{' by {
        if i < before.len() {
            assert(text[i] == before[i]);
        } else if i < before.len() + value.len() {
            assert(text[i] == value[i - before.len()]);
        } else {
            assert(text[i] == after[i - before.len() - value.len()]);
        }
    }
}

proof fn lemma_filled(before: Seq<char>, pattern: Seq<char>, after: Seq<char>, to: Seq<char>)
    requires
        !before.contains('{'),
        !after.contains('{'),
        pattern.len() > 0,
        pattern[0] == '{',
    ensures
        text_replaced(before + pattern + after, pattern, to) == before + to + after,
{
    law_pattern_is_replaced_where_it_stands(before, pattern, after, to);
    law_pattern_is_replaced_where_it_stands(after, pattern, after, to);
}

/// A placeholder of one kind is not touched while another kind is replaced: the two differ at a place
/// behind their braces.
proof fn lemma_other_placeholder(
    before: Seq<char>,
    placeholder: Seq<char>,
    after: Seq<char>,
    pattern: Seq<char>,
    to: Seq<char>,
    place: int,
)
    requires
        !before.contains('{'),
        !after.contains('{'),
        2 <= place < placeholder.len(),
        place < pattern.len(),
        placeholder[0] == '{',
        placeholder[1] == '{',
        forall|i: int| 2 <= i < placeholder.len() ==> #[trigger] placeholder[i] != '{',
        pattern[0] == '{',
        pattern[1] == '{',
        pattern[place] != placeholder[place],
    ensures
        text_replaced(before + placeholder + after, pattern, to) == before + placeholder + after,
    decreases before.len(),
{
    let text = before + placeholder + after;
    if before.len() == 0 {
        let rest = text.skip(2);
        assert(!rest.contains('{')) by {
            assert forall|i: int| 0 <= i < rest.len() implies rest[i] != '{' by {
                if i + 2 < placeholder.len() {
                    assert(rest[i] == placeholder[i + 2]);
                } else {
                    assert(rest[i] == after[i + 2 - placeholder.len()]);
                }
            }
        }
        law_pattern_is_replaced_where_it_stands(rest, pattern, after, to);
        let once = text.skip(1);
        assert(once.skip(1) =~= rest);
        if once.len() >= pattern.len() {
            assert(once.take(pattern.len() as int)[1] == rest[0]);
        }
        assert(seq![once[0]] + rest =~= once);
        assert(text_replaced(once, pattern, to) =~= once);
        if text.len() >= pattern.len() {
            assert(text.take(pattern.len() as int)[place] == placeholder[place]);
        }
        assert(seq![text[0]] + once =~= text);
    } else {
        let fewer = before.skip(1);
        assert(!fewer.contains('{')) by {
            assert forall|i: int| 0 <= i < fewer.len() implies fewer[i] != '{' by {
                assert(fewer[i] == before[i + 1]);
            }
        }
        lemma_other_placeholder(fewer, placeholder, after, pattern, to, place);
        assert(text.skip(1) =~= fewer + placeholder + after);
        if text.len() >= pattern.len() {
            assert(text.take(pattern.len() as int)[0] == before[0]);
        }
        assert(before[0] != '{');
        assert(seq![text[0]] + text.skip(1) =~= text);
    }
}

/// The white space around a script and the semicolons at its end do not go into the expressions that
/// are run: the request is asked for and the answer handed to the extractor in the same way without
/// them.
pub proof fn law_script_ends_do_not_count(
    left: Seq<char>,
    kept: Seq<char>,
    semicolons: Seq<char>,
    right: Seq<char>,
    answer: Seq<char>,
)
    requires
        kept.len() > 0,
        !is_white_space(kept[0]),
        !is_white_space(kept.last()),
        kept.last() != ';',
        forall|i: int| 0 <= i < left.len() ==> is_white_space(#[trigger] left[i]),
        forall|i: int| 0 <= i < right.len() ==> is_white_space(#[trigger] right[i]),
        forall|i: int| 0 <= i < semicolons.len() ==> #[trigger] semicolons[i] == ';',
    ensures
        bare_code(left + (kept + semicolons) + right) == kept,
        request_expression(left + (kept + semicolons) + right) == "JSON.stringify(("@ + kept
            + ").request)"@,
        extractor_expression(left + (kept + semicolons) + right, answer) == "JSON.stringify(("@ + kept
            + ").extractor("@ + answer + "))"@,
{
    let code = kept + semicolons;
    law_white_space_is_not_printed(';');
    assert(code[0] == kept[0]);
    if semicolons.len() > 0 {
        assert(code.last() == semicolons[semicolons.len() - 1]);
    } else {
        assert(code =~= kept);
    }
    law_white_space_around_a_text_goes(left, code, right);
    law_trailing_run_is_dropped(kept, semicolons, ';');
}

/// A request goes where it says, with the method that it says, through the proxy where there is one.
/// It may take as long as its script says within 2 and 30 seconds, and 10 where the script says
/// nothing.
pub proof fn law_request_goes_where_it_says(
    target: Result<RequestTarget, ScriptError>,
    request: JsonView,
    script: JsonView,
    proxy: Option<String>,
)
    requires
        is_target(target, request, script, proxy),
    ensures
        !(request.at("url"@) is Text) ==> target == Err::<RequestTarget, ScriptError>(
            ScriptError::NoUrl,
        ),
        request.at("url"@) is Text && !(request.at("method"@) is Text) ==> target == Err::<
            RequestTarget,
            ScriptError,
        >(ScriptError::NoMethod),
        request.at("url"@) is Text && request.at("method"@) is Text ==> (target is Ok <==> is_method(
            request.at("method"@)->Text_0,
        )),
        target matches Ok(found) ==> {
            &&& request.at("url"@) == JsonView::Text(found.url@)
            &&& request.at("method"@) == JsonView::Text(found.method@)
            &&& 2 <= found.timeout_seconds <= 30
            &&& script.at("timeout"@).unsigned() is None ==> found.timeout_seconds == 10
            &&& (script.at("timeout"@).unsigned() matches Some(stated) ==> {
                &&& 2 <= stated <= 30 ==> found.timeout_seconds == stated
                &&& stated < 2 ==> found.timeout_seconds == 2
                &&& stated > 30 ==> found.timeout_seconds == 30
            })
            &&& proxy is None || proxy->0@.len() == 0 ==> found.proxy is None
            &&& proxy is Some && proxy->0@.len() > 0 ==> found.proxy == proxy
        },
{
}

/// A method is a text of printed characters of ASCII without blanks, brackets, quotes or any other
/// sign that separates the parts of a header.
pub proof fn law_method_is_one_word(c: char)
    ensures
        is_method_char(c) <==> '!' <= c <= '~' && c != '"' && c != '(' && c != ')' && c != ',' && c
            != '/' && c != ':' && c != ';' && c != '<' && c != '=' && c != '>' && c != '?' && c
            != '@' && c != '[' && c != '\\' && c != ']' && c != '{' && c != '}',
        is_method(seq![c]) <==> is_method_char(c),
        !is_method(Seq::empty()),
{
    if is_method(seq![c]) {
        assert(seq![c][0] == c);
    }
}

/// The headers of a request are its members in order, each with its text; one that is no text
/// refuses them all.
pub proof fn law_headers_are_the_members(members: Seq<MemberView>, i: int)
    requires
        0 <= i < members.len(),
    ensures
        match headers_read(members) {
            Ok(headers) => headers.len() == members.len() && headers[i].0 == members[i].name
                && members[i].value == JsonView::Text(headers[i].1),
            Err(error) => error == ScriptError::Header,
        },
        !(members[i].value is Text) ==> headers_read(members) is Err,
        (forall|j: int| 0 <= j < members.len() ==> (#[trigger] members[j]).value is Text)
            ==> headers_read(members) is Ok,
    decreases members.len(),
{
    let earlier = members.drop_last();
    if earlier.len() == 0 {
        assert(headers_read(earlier) is Ok);
        assert(headers_read(earlier)->Ok_0.len() == 0);
    } else {
        let at = if i < earlier.len() {
            i
        } else {
            0
        };
        law_headers_are_the_members(earlier, at);
    }
    assert(i < earlier.len() ==> earlier[i] == members[i]);
    assert(forall|j: int| 0 <= j < earlier.len() ==> earlier[j] == members[j]);
    assert(members.last() == members[members.len() - 1]);
}

/// Only an answer with a status from 200 to 299 is read; any other is told by its status, whatever
/// its body. A body that is missing or no JSON is told as such, and a script never sees it.
pub proof fn law_failed_answer_is_told_by_its_status(
    read: Result<Json, ScriptError>,
    code: Seq<char>,
    status: u16,
    body: Option<Seq<char>>,
)
    requires
        may_finish(read, code, status, body),
    ensures
        status < 200 || status >= 300 ==> read == Err::<Json, ScriptError>(
            ScriptError::Status(status),
        ),
        200 <= status < 300 && body is None ==> read == Err::<Json, ScriptError>(ScriptError::Body),
        200 <= status < 300 && body is Some && json_compact(body->0, ""@) is None ==> read == Err::<
            Json,
            ScriptError,
        >(ScriptError::ResponseFormat),
        200 <= status < 300 && body is Some && json_compact(body->0, ""@) is Some ==> may_read(
            read,
            code,
            json_compact(body->0, ""@)->0,
        ),
        status_checked(status) is Ok <==> 200 <= status < 300,
{
}

/// A query that is ready carries the code that was prepared, and goes where the request of the script
/// says. A script that cannot be prepared asks nothing.
pub proof fn law_query_is_that_of_the_script(
    query: Result<ScriptQuery, ScriptError>,
    script: JsonView,
    config: JsonView,
    proxy: Option<String>,
)
    requires
        may_execute(query, script, config, proxy),
    ensures
        script_code(script, config) matches Err(error) ==> query == Err::<ScriptQuery, ScriptError>(
            error,
        ),
        query matches Ok(ready) ==> {
            &&& script_code(script, config) == Ok::<Seq<char>, ScriptError>(ready.code@)
            &&& ready.request@.at("url"@) == JsonView::Text(ready.target.url@)
            &&& ready.request@.at("method"@) == JsonView::Text(ready.target.method@)
            &&& 2 <= ready.target.timeout_seconds <= 30
        },
{
}

/// The balance of one item is its number in millionths, with its unit or an empty one. An item that
/// is marked as not valid is refused, one without a number has no balance, and anything else under
/// that name is refused.
pub proof fn law_item_has_its_balance(item: JsonView)
    ensures
        item.at("isValid"@) == JsonView::Bool(false) ==> item_balance(item) == Err::<
            (Option<i64>, Seq<char>),
            ScriptError,
        >(ScriptError::InvalidState),
        item.at("isValid"@) != JsonView::Bool(false) ==> {
            let remaining = item.at("remaining"@);
            let read = item_balance(item);
            &&& remaining == JsonView::Null ==> (read matches Ok(pair) && pair.0 is None)
            &&& remaining.double() is Some && countable(remaining.double()->0) ==> (read matches Ok(
                pair,
            ) && pair.0 == Some(millionths(remaining.double()->0) as i64))
            &&& remaining.double() is Some && !countable(remaining.double()->0) ==> read == Err::<
                (Option<i64>, Seq<char>),
                ScriptError,
            >(ScriptError::OutOfRange)
            &&& remaining != JsonView::Null && remaining.double() is None ==> read == Err::<
                (Option<i64>, Seq<char>),
                ScriptError,
            >(ScriptError::NotANumber)
        },
        item_balance(item) matches Ok(pair) ==> {
            &&& (item.at("unit"@) is Text ==> pair.1 == item.at("unit"@)->Text_0)
            &&& (!(item.at("unit"@) is Text) ==> pair.1.len() == 0)
        },
{
}

/// An item counts in a list where it has a number and is not marked as not valid. A list with one
/// item that counts has the balance of that item, wherever it stands; a list with none has no
/// balance; a value that is no list is an item itself.
pub proof fn law_list_has_the_one_balance(items: Seq<JsonView>, at: int, data: JsonView)
    requires
        0 <= at < items.len(),
        forall|i: int|
            0 <= i < items.len() && i != at ==> !((#[trigger] items[i]).at("remaining"@) is Number)
                || items[i].at("isValid"@) == JsonView::Bool(false),
    ensures
        ({
            let counts = items[at].at("remaining"@) is Number && items[at].at("isValid"@)
                != JsonView::Bool(false);
            &&& counts ==> balance_read(JsonView::Array(items)) == item_balance(items[at])
            &&& !counts ==> balance_read(JsonView::Array(items)) == Ok::<
                (Option<i64>, Seq<char>),
                ScriptError,
            >((None, Seq::empty()))
        }),
        !(data is Array) ==> balance_read(data) == item_balance(data),
        balance_read(JsonView::Array(Seq::empty())) == Ok::<(Option<i64>, Seq<char>), ScriptError>(
            (None, Seq::empty()),
        ),
{
    assert forall|i: int| 0 <= i < items.len() && i != at implies !has_balance(
        #[trigger] items[i],
    ) by {}
    lemma_one_balance(items, at);
}

proof fn lemma_one_balance(items: Seq<JsonView>, at: int)
    requires
        forall|i: int| 0 <= i < items.len() && i != at ==> !has_balance(#[trigger] items[i]),
    ensures
        with_balance(items) == (if 0 <= at < items.len() && has_balance(items[at]) {
            seq![items[at]]
        } else {
            Seq::empty()
        }),
    decreases items.len(),
{
    if items.len() > 0 {
        let earlier = items.drop_last();
        assert forall|i: int| 0 <= i < earlier.len() && i != at implies !has_balance(
            #[trigger] earlier[i],
        ) by {
            assert(earlier[i] == items[i]);
        }
        lemma_one_balance(earlier, at);
        assert(items.last() == items[items.len() - 1]);
        if at == items.len() - 1 {
            assert(with_balance(earlier) == Seq::<JsonView>::empty());
            if has_balance(items[at]) {
                assert(with_balance(items) =~= seq![items[at]]);
            }
        } else if 0 <= at < items.len() {
            assert(earlier[at] == items[at]);
        }
    }
}

/// A relay takes over the balance and the unit that its query brought, and keeps its name, its
/// provider and its chart. A query that failed changes neither balance nor unit, and is told by its
/// error.
pub proof fn law_relay_takes_over_the_balance(
    relay: RelayBalance,
    noted: RelayBalance,
    outcome: Result<(Option<i64>, Seq<char>), ScriptError>,
)
    requires
        carries_outcome(relay, noted, outcome),
    ensures
        noted.chart == relay.chart,
        noted.provider_id@ == relay.provider_id@,
        noted.name@ == relay.name@,
        outcome matches Ok(pair) ==> noted.remaining == pair.0 && noted.unit@ == pair.1,
        outcome matches Err(error) ==> noted.remaining == relay.remaining && noted.unit@
            == relay.unit@ && noted.detail@ == "余额查询失败："@ + error.described(),
{
}

/// The provider that the settings select is asked, and the one that the database marks only where
/// the settings select none. Settings that name no text select none.
pub proof fn law_selected_provider_counts_first(
    selected: Option<String>,
    marked: Option<String>,
    settings: JsonView,
)
    ensures
        selected is Some ==> provider_asked(selected, marked) == selected,
        selected is None ==> provider_asked(selected, marked) == marked,
        settings.at("currentProviderCodex"@) is Text ==> selection(settings) == Some(
            settings.at("currentProviderCodex"@)->Text_0,
        ),
        !(settings.at("currentProviderCodex"@) is Text) ==> selection(settings) is None,
{
}

/// Without settings nothing is selected, and settings that are no JSON are an error.
pub proof fn law_settings_select_or_fail(
    selected: Result<Option<String>, JsonError>,
    text: Option<Seq<char>>,
)
    requires
        is_selection(selected, text),
    ensures
        text is None ==> selected == Ok::<Option<String>, JsonError>(None),
        text is Some && parsed(text->0) is Err ==> selected is Err,
        text is Some && parsed(text->0) is Ok ==> selected is Ok && (selected->Ok_0 matches Some(id)
            ==> parsed(text->0)->Ok_0.at("currentProviderCodex"@) == JsonView::Text(id@)),
{
}

/// The official account is never asked as a relay, and is told by its category alone. A relay is
/// asked only where its query is switched on by the value true itself; otherwise it has no balance.
pub proof fn law_relay_is_asked_only_when_switched_on(
    plan: Result<QueryPlan, ProviderError>,
    row: ProviderRow,
    meta: JsonView,
)
    requires
        is_plan(plan, Some(row)),
    ensures
        row.category is Some && row.category->0@ == "official"@ ==> plan == Ok::<
            QueryPlan,
            ProviderError,
        >(QueryPlan::Official),
        !(row.category is Some && row.category->0@ == "official"@) ==> {
            &&& plan != Ok::<QueryPlan, ProviderError>(QueryPlan::Official)
            &&& parsed(row.meta@) is Err ==> plan is Err
            &&& parsed(row.meta@) == Ok::<JsonView, ErrorView>(meta) && meta.at(
                "usage_script"@,
            ).at("enabled"@) != JsonView::Bool(true) ==> (plan matches Ok(QueryPlan::Idle(relay))
                && relay.remaining is None && relay.provider_id@ == row.id@ && relay.name@
                == row.name@)
            &&& parsed(row.meta@) == Ok::<JsonView, ErrorView>(meta) && meta.at(
                "usage_script"@,
            ).at("enabled"@) == JsonView::Bool(true) ==> (plan is Ok <==> parsed(row.config@) is Ok)
        },
        plan matches Ok(QueryPlan::Script { relay, script, config }) ==> {
            &&& parsed(row.meta@) is Ok
            &&& script@ == parsed(row.meta@)->Ok_0.at("usage_script"@)
            &&& script@.at("enabled"@) == JsonView::Bool(true)
            &&& parsed(row.config@) == Ok::<JsonView, ErrorView>(config@)
            &&& relay.remaining is None
            &&& relay.provider_id@ == row.id@
            &&& relay.name@ == row.name@
        },
{
}

/// A provider that is not in the database is an error of its own.
pub proof fn law_missing_provider_is_an_error(plan: Result<QueryPlan, ProviderError>)
    requires
        is_plan(plan, None),
    ensures
        plan == Err::<QueryPlan, ProviderError>(ProviderError::Missing),
{
}

/// A sample of a relay counts its full balance, and the relay shows the completed periods of its
/// history and keeps everything else.
pub proof fn law_sample_counts_the_full_balance(
    history: ConsumptionHistory,
    stored: Option<ConsumptionHistory>,
    before: RelayBalance,
    after: RelayBalance,
    now: i64,
)
    requires
        is_sampling(history, stored, before, after, now),
    ensures
        after.chart == history.chart,
        after.provider_id == before.provider_id,
        after.name == before.name,
        after.remaining == before.remaining,
        after.unit == before.unit,
        after.detail == before.detail,
        history.last_balance == before.remaining,
        history.last_checked_at == now,
{
}

/// The name of a history is the length of the provider's name, a colon, that name and the unit.
pub proof fn law_history_name_holds_provider_and_unit(provider: Seq<char>, unit: Seq<char>)
    ensures
        history_name(provider, unit) == decimal(provider.len()) + seq![':'] + provider + unit,
{
    reveal_strlit(":");
    assert(":"@ =~= seq![':']);
}

/// In the code of a script each placeholder stands for what the script, or else its provider, says
/// under the name of the placeholder.
pub proof fn law_code_takes_its_values_by_name(
    script: JsonView,
    config: JsonView,
    before: Seq<char>,
    after: Seq<char>,
    url: Seq<char>,
)
    requires
        script.at("language"@) == JsonView::Text("javascript"@),
        script.at("code"@) is Text,
        script_url(script, config) == Ok::<Seq<char>, ScriptError>(url),
        script.at("accessToken"@) is Text,
        script.at("userId"@) is Text,
        !before.contains('{'),
        !after.contains('{'),
        !url.contains('{'),
        !script_key(script, config).contains('{'),
        !script.at("accessToken"@)->Text_0.contains('{'),
        !script.at("userId"@)->Text_0.contains('{'),
    ensures
        ({
            let code = script.at("code"@)->Text_0;
            let filled = script_code(script, config);
            &&& code == before ==> filled == Ok::<Seq<char>, ScriptError>(before)
            &&& code == before + "{{baseUrl}}"@ + after ==> filled == Ok::<Seq<char>, ScriptError>(
                before + url + after,
            )
            &&& code == before + "{{apiKey}}"@ + after ==> filled == Ok::<Seq<char>, ScriptError>(
                before + script_key(script, config) + after,
            )
            &&& code == before + "{{accessToken}}"@ + after ==> filled == Ok::<
                Seq<char>,
                ScriptError,
            >(before + script.at("accessToken"@)->Text_0 + after)
            &&& code == before + "{{userId}}"@ + after ==> filled == Ok::<Seq<char>, ScriptError>(
                before + script.at("userId"@)->Text_0 + after,
            )
        }),
{
    law_placeholder_stands_for_its_value(
        before,
        after,
        url,
        script_key(script, config),
        script.at("accessToken"@)->Text_0,
        script.at("userId"@)->Text_0,
    );
}

/// A script is stopped once more than two seconds have passed, and has 16 megabytes of memory and 256
/// kilobytes of stack until then.
pub proof fn law_script_has_two_seconds(elapsed_nanoseconds: int)
    ensures
        has_run_longer(elapsed_nanoseconds, SCRIPT_SECONDS as int) <==> elapsed_nanoseconds
            > 2_000_000_000,
        SCRIPT_MEMORY_LIMIT == 16 * 1024 * 1024,
        SCRIPT_STACK_LIMIT == 256 * 1024,
{
}

/// A relay that was not asked yet has an empty unit, an empty chart and no balance, and says that its
/// query is missing or switched off.
pub proof fn law_unasked_relay_is_empty(relay: RelayBalance, row: ProviderRow, i: int)
    requires
        is_unread(relay, row),
        0 <= i < 10,
    ensures
        relay.remaining is None,
        relay.unit@ == Seq::<char>::empty(),
        relay.chart.end_at == 0,
        relay.chart.bars@[i] is None,
        relay.provider_id@ == row.id@,
        relay.name@ == row.name@,
        relay.detail@ == "未配置或未启用额度查询"@,
{
    assert(relay.unit@ =~= Seq::<char>::empty());
}

/// Settings that are no JSON are told with what serde_json says of them: those of the query first, and
/// the configuration only where the query is switched on.
pub proof fn law_faulty_settings_are_told(plan: Result<QueryPlan, ProviderError>, row: ProviderRow)
    requires
        is_plan(plan, Some(row)),
        row.category is None || row.category->0@ != "official"@,
    ensures
        parsed(row.meta@) matches Err(error) ==> (plan matches Err(ProviderError::MetaFormat(found))
            && found@ == error),
        parsed(row.meta@) is Ok ==> !(plan matches Err(ProviderError::MetaFormat(_))),
        parsed(row.meta@) is Ok && parsed(row.meta@)->Ok_0.at("usage_script"@).at("enabled"@)
            == JsonView::Bool(true) && parsed(row.config@) is Err ==> (plan matches Err(
            ProviderError::ConfigFormat(found),
        ) && found@ == parsed(row.config@)->Err_0),
{
}

/// What is meant is what comes back: a result is taken for the one that is meant only where both are
/// the same text, value or balance, or the same error.
pub proof fn law_results_are_those_that_are_meant(
    text: Result<String, ScriptError>,
    meant_text: Result<Seq<char>, ScriptError>,
    value: Result<Json, ScriptError>,
    meant_value: Result<JsonView, ScriptError>,
    balance: Result<(Option<i64>, String), ScriptError>,
    meant_balance: Result<(Option<i64>, Seq<char>), ScriptError>,
)
    ensures
        is_text(text, meant_text) <==> match (text, meant_text) {
            (Ok(found), Ok(meant)) => found@ == meant,
            (Err(found), Err(meant)) => found == meant,
            _ => false,
        },
        is_value(value, meant_value) <==> match (value, meant_value) {
            (Ok(found), Ok(meant)) => found@ == meant,
            (Err(found), Err(meant)) => found == meant,
            _ => false,
        },
        is_balance(balance, meant_balance) <==> match (balance, meant_balance) {
            (Ok(found), Ok(meant)) => found.0 == meant.0 && found.1@ == meant.1,
            (Err(found), Err(meant)) => found == meant,
            _ => false,
        },
{
}

/// What a script reads from an answer is the JSON value that its extractor returned for that answer,
/// within the limits; whatever else it returned is an error.
pub proof fn law_extractor_reads_the_answer(
    read: Result<Json, ScriptError>,
    code: Seq<char>,
    answer: Seq<char>,
)
    requires
        may_read(read, code, answer),
    ensures
        exists|outcome: Result<Seq<char>, ScriptError>|
            javascript_may_return(
                "JSON.stringify(("@ + bare_code(code) + ").extractor("@ + answer + "))"@,
                16_777_216,
                262_144,
                2,
                outcome,
            ) && match #[trigger] outcome_read(outcome) {
                Ok(value) => read matches Ok(found) && found@ == value,
                Err(error) => read == Err::<Json, ScriptError>(error),
            },
{
}

/// A script's outcome is the JSON value that its text stands for; a text that is no JSON is an error of
/// its own, and an error stays what it is.
pub proof fn law_outcome_is_its_value(outcome: Result<Seq<char>, ScriptError>)
    ensures
        outcome matches Err(error) ==> outcome_read(outcome) == Err::<JsonView, ScriptError>(error),
        outcome matches Ok(text) ==> match parsed(text) {
            Ok(value) => outcome_read(outcome) == Ok::<JsonView, ScriptError>(value),
            Err(_) => outcome_read(outcome) == Err::<JsonView, ScriptError>(
                ScriptError::ResultFormat,
            ),
        },
{
}

} // verus!
