//! The limits of the account that is logged in, read from a local `codex app-server --stdio`: which
//! program to start, what to write to it, and what its lines mean.

use crate::double::{check_finite, is_finite, left_of_hundred, percent_left, to_whole, whole_part};
use crate::json::{
    compact, json_compact, json_string, law_json_string_is_one_line, parse_json, parsed, quoted,
    ErrorView, Json, JsonError, JsonView,
};
use crate::keyboard::showable;
use crate::quota::{
    calculate_week_reset_cells, law_hourglass_counts_tenths_of_a_week, law_hourglass_runs_down,
    week_reset_cells, QuotaStatus,
    FIVE_HOUR_WINDOW_MINUTES, SEVEN_DAY_WINDOW_MINUTES, WEEK_RESET_CELL_COUNT,
};
use crate::text::{
    ascii_lowered, decimal, decimal_text, eq_ignore_ascii_case, is_empty, lemma_decimal_denotes,
    same_text, to_ascii_lowercase, trim, trimmed,
};
use vstd::prelude::*;
use vstd::string::*;

verus! {

/// Where a limit window stands in an answer.
#[derive(Clone, Copy, Debug, PartialEq, Eq)]
pub enum WindowPosition {
    Primary,
    Secondary,
}

impl WindowPosition {
    pub open spec fn named(self) -> Seq<char> {
        match self {
            WindowPosition::Primary => "primary"@,
            WindowPosition::Secondary => "secondary"@,
        }
    }

    /// The name under which an answer has the window.
    pub fn name(self) -> (name: &'static str)
        ensures
            name@ == self.named(),
    {
        match self {
            WindowPosition::Primary => "primary",
            WindowPosition::Secondary => "secondary",
        }
    }
}

/// Why the limits could not be read from an answer.
#[derive(Clone, Copy, Debug, PartialEq, Eq)]
pub enum LimitError {
    NoLimits,
    WindowFormat(WindowPosition),
    NoDuration(WindowPosition),
    NoUsedPercent(WindowPosition),
    UsedNotFinite(WindowPosition),
    RepeatedFiveHour,
    RepeatedSevenDay,
    ResetFormat,
    UnknownDuration(u64),
}

impl LimitError {
    pub open spec fn described(self) -> Seq<char> {
        match self {
            LimitError::NoLimits => "Codex 响应中没有 rate limits 数据"@,
            LimitError::WindowFormat(position) => "Codex "@ + position.named() + " 窗口格式错误"@,
            LimitError::NoDuration(position) => "Codex "@ + position.named()
                + " 窗口缺少 windowDurationMins"@,
            LimitError::NoUsedPercent(position) => "Codex "@ + position.named()
                + " 窗口没有 usedPercent"@,
            LimitError::UsedNotFinite(position) => "Codex "@ + position.named()
                + " 窗口 usedPercent 不是有限数值"@,
            LimitError::RepeatedFiveHour => "Codex 返回重复的 5h 限额窗口"@,
            LimitError::RepeatedSevenDay => "Codex 返回重复的周限额窗口"@,
            LimitError::ResetFormat => "Codex 周窗口 resetsAt 格式错误"@,
            LimitError::UnknownDuration(duration) => "无法识别 Codex 限额窗口时长："@ + decimal(
                duration as nat,
            ),
        }
    }

    /// The error as a message.
    pub fn message(&self) -> (text: String)
        ensures
            text@ == self.described(),
    {
        match self {
            LimitError::NoLimits => "Codex 响应中没有 rate limits 数据".to_owned(),
            LimitError::WindowFormat(position) => window_message(*position, " 窗口格式错误"),
            LimitError::NoDuration(position) => window_message(
                *position,
                " 窗口缺少 windowDurationMins",
            ),
            LimitError::NoUsedPercent(position) => window_message(
                *position,
                " 窗口没有 usedPercent",
            ),
            LimitError::UsedNotFinite(position) => window_message(
                *position,
                " 窗口 usedPercent 不是有限数值",
            ),
            LimitError::RepeatedFiveHour => "Codex 返回重复的 5h 限额窗口".to_owned(),
            LimitError::RepeatedSevenDay => "Codex 返回重复的周限额窗口".to_owned(),
            LimitError::ResetFormat => "Codex 周窗口 resetsAt 格式错误".to_owned(),
            LimitError::UnknownDuration(duration) => {
                let mut text = "无法识别 Codex 限额窗口时长：".to_owned();
                text.append(decimal_text(*duration).as_str());
                text
            },
        }
    }
}

fn window_message(position: WindowPosition, complaint: &str) -> (text: String)
    ensures
        text@ == "Codex "@ + position.named() + complaint@,
{
    let mut text = "Codex ".to_owned();
    text.append(position.name());
    text.append(complaint);
    text
}

/// What the windows of an answer say; `None` where a window is missing, which means no limit.
#[derive(Clone, Copy, Debug, PartialEq, Eq)]
pub struct LimitWindows {
    pub five_hour: Option<u8>,
    pub seven_day: Option<u8>,
    pub resets_at: Option<i64>,
}

/// The object that holds the windows: that of the limit `codex`, or else the older form.
pub open spec fn snapshot_of(result: JsonView) -> Option<JsonView> {
    let chosen = match result.at("rateLimitsByLimitId"@).get("codex"@) {
        Some(JsonView::Object(members)) => Some(JsonView::Object(members)),
        _ => result.get("rateLimits"@),
    };
    match chosen {
        Some(JsonView::Object(members)) => Some(JsonView::Object(members)),
        _ => None,
    }
}

/// The length of a window in minutes and the percentage that is left of it.
pub open spec fn window_read(window: JsonView, position: WindowPosition) -> Result<
    (u64, u8),
    LimitError,
> {
    if !(window is Object) {
        Err(LimitError::WindowFormat(position))
    } else {
        match window.at("windowDurationMins"@).unsigned() {
            None => Err(LimitError::NoDuration(position)),
            Some(duration) => match window.at("usedPercent"@).double() {
                None => Err(LimitError::NoUsedPercent(position)),
                Some(used) => if is_finite(used) {
                    Ok((duration, percent_left(used) as u8))
                } else {
                    Err(LimitError::UsedNotFinite(position))
                },
            },
        }
    }
}

/// The time at which a window starts anew, if it has one.
pub open spec fn reset_time(window: JsonView) -> Result<Option<i64>, LimitError> {
    match window.get("resetsAt"@) {
        None => Ok(None),
        Some(JsonView::Null) => Ok(None),
        Some(value) => match value.signed() {
            Some(time) => Ok(Some(time)),
            None => match value.double() {
                Some(bits) => Ok(Some(whole_part(bits) as i64)),
                None => Err(LimitError::ResetFormat),
            },
        },
    }
}

/// What is known of the windows after one more has been read; a window is told by its length, not
/// by its position.
pub open spec fn with_window(
    known: LimitWindows,
    snapshot: JsonView,
    position: WindowPosition,
) -> Result<LimitWindows, LimitError> {
    match snapshot.get(position.named()) {
        None => Ok(known),
        Some(JsonView::Null) => Ok(known),
        Some(window) => match window_read(window, position) {
            Err(error) => Err(error),
            Ok((duration, left)) => if duration == FIVE_HOUR_WINDOW_MINUTES {
                if known.five_hour is Some {
                    Err(LimitError::RepeatedFiveHour)
                } else {
                    Ok(LimitWindows { five_hour: Some(left), ..known })
                }
            } else if duration == SEVEN_DAY_WINDOW_MINUTES {
                if known.seven_day is Some {
                    Err(LimitError::RepeatedSevenDay)
                } else {
                    match reset_time(window) {
                        Err(error) => Err(error),
                        Ok(resets_at) => Ok(
                            LimitWindows { seven_day: Some(left), resets_at, ..known },
                        ),
                    }
                }
            } else {
                Err(LimitError::UnknownDuration(duration))
            },
        },
    }
}

pub open spec fn no_windows() -> LimitWindows {
    LimitWindows { five_hour: None, seven_day: None, resets_at: None }
}

/// What both windows of a snapshot say.
pub open spec fn windows_of(snapshot: JsonView) -> Result<LimitWindows, LimitError> {
    match with_window(no_windows(), snapshot, WindowPosition::Primary) {
        Err(error) => Err(error),
        Ok(first) => with_window(first, snapshot, WindowPosition::Secondary),
    }
}

/// What the answer to a request for the limits says.
pub open spec fn limits_read(result: JsonView) -> Result<LimitWindows, LimitError> {
    match snapshot_of(result) {
        None => Err(LimitError::NoLimits),
        Some(snapshot) => windows_of(snapshot),
    }
}

/// Whether a status shows what the windows say at a time.
pub open spec fn shows_windows(status: QuotaStatus, windows: LimitWindows, now: i64) -> bool {
    &&& status.relay is None
    &&& status.five_hour == windows.five_hour
    &&& status.seven_day == windows.seven_day
    &&& status.seven_day_resets_at == windows.resets_at
    &&& match windows.resets_at {
        Some(time) => status.reset_cells matches Some(cells) && cells == week_reset_cells(
            time,
            now,
        ),
        None => status.reset_cells is None,
    }
}

fn remaining_percent(window: &Json, position: WindowPosition) -> (left: Result<u8, LimitError>)
    ensures
        left == match window@.at("usedPercent"@).double() {
            None => Err::<u8, LimitError>(LimitError::NoUsedPercent(position)),
            Some(used) => if is_finite(used) {
                Ok(percent_left(used) as u8)
            } else {
                Err(LimitError::UsedNotFinite(position))
            },
        },
{
    let used = match window.get("usedPercent") {
        Some(value) => value.as_double(),
        None => None,
    };
    match used {
        None => Err(LimitError::NoUsedPercent(position)),
        Some(bits) => if check_finite(bits) {
            Ok(left_of_hundred(bits))
        } else {
            Err(LimitError::UsedNotFinite(position))
        },
    }
}

fn parse_reset_timestamp(window: &Json) -> (time: Result<Option<i64>, LimitError>)
    ensures
        time == reset_time(window@),
{
    match window.get("resetsAt") {
        None => Ok(None),
        Some(value) => if value.is_null() {
            Ok(None)
        } else {
            match value.as_signed() {
                Some(time) => Ok(Some(time)),
                None => match value.as_double() {
                    Some(bits) => Ok(Some(to_whole(bits))),
                    None => Err(LimitError::ResetFormat),
                },
            }
        },
    }
}

fn read_window(known: LimitWindows, snapshot: &Json, position: WindowPosition) -> (windows: Result<
    LimitWindows,
    LimitError,
>)
    ensures
        windows == with_window(known, snapshot@, position),
{
    let window = match snapshot.get(position.name()) {
        None => {
            return Ok(known);
        },
        Some(window) => window,
    };
    if window.is_null() {
        return Ok(known);
    }
    if !window.is_object() {
        return Err(LimitError::WindowFormat(position));
    }
    let stated = match window.get("windowDurationMins") {
        Some(value) => value.as_unsigned(),
        None => None,
    };
    let duration: u64 = match stated {
        None => {
            return Err(LimitError::NoDuration(position));
        },
        Some(duration) => duration,
    };
    let left: u8 = match remaining_percent(window, position) {
        Err(error) => {
            return Err(error);
        },
        Ok(left) => left,
    };
    if duration == FIVE_HOUR_WINDOW_MINUTES {
        if known.five_hour.is_some() {
            return Err(LimitError::RepeatedFiveHour);
        }
        Ok(LimitWindows { five_hour: Some(left), ..known })
    } else if duration == SEVEN_DAY_WINDOW_MINUTES {
        if known.seven_day.is_some() {
            return Err(LimitError::RepeatedSevenDay);
        }
        match parse_reset_timestamp(window) {
            Err(error) => Err(error),
            Ok(resets_at) => Ok(LimitWindows { seven_day: Some(left), resets_at, ..known }),
        }
    } else {
        Err(LimitError::UnknownDuration(duration))
    }
}

fn find_snapshot(result: &Json) -> (snapshot: Option<&Json>)
    ensures
        match snapshot {
            Some(value) => snapshot_of(result@) == Some(value@),
            None => snapshot_of(result@) is None,
        },
{
    let codex = match result.get("rateLimitsByLimitId") {
        Some(limits) => limits.get("codex"),
        None => None,
    };
    match codex {
        Some(value) => if value.is_object() {
            return Some(value);
        },
        None => {},
    }
    match result.get("rateLimits") {
        Some(value) => if value.is_object() {
            Some(value)
        } else {
            None
        },
        None => None,
    }
}

/// Whether a status, or an error, is what a result says of the limits at a time.
pub open spec fn is_limits_reading(
    read: Result<QuotaStatus, LimitError>,
    result: JsonView,
    now: i64,
) -> bool {
    match read {
        Ok(status) => limits_read(result) matches Ok(windows) && shows_windows(
            status,
            windows,
            now,
        ),
        Err(error) => limits_read(result) == Err::<LimitWindows, LimitError>(error),
    }
}

/// Reads the limits from the result of `account/rateLimits/read`.
pub fn parse_rate_limits(result: &Json, now: i64) -> (parsed: Result<QuotaStatus, LimitError>)
    ensures
        is_limits_reading(parsed, result@, now),
{
    let snapshot = match find_snapshot(result) {
        None => {
            return Err(LimitError::NoLimits);
        },
        Some(snapshot) => snapshot,
    };
    let known = LimitWindows { five_hour: None, seven_day: None, resets_at: None };
    let first = match read_window(known, snapshot, WindowPosition::Primary) {
        Err(error) => {
            return Err(error);
        },
        Ok(windows) => windows,
    };
    let windows = match read_window(first, snapshot, WindowPosition::Secondary) {
        Err(error) => {
            return Err(error);
        },
        Ok(windows) => windows,
    };
    Ok(
        QuotaStatus {
            relay: None,
            five_hour: windows.five_hour,
            seven_day: windows.seven_day,
            seven_day_resets_at: windows.resets_at,
            reset_cells: calculate_week_reset_cells(windows.resets_at, now),
        },
    )
}

/// A window means the same in either position.
pub proof fn law_window_order_does_not_matter(snapshot: JsonView, swapped: JsonView)
    requires
        snapshot.get("primary"@) == swapped.get("secondary"@),
        snapshot.get("secondary"@) == swapped.get("primary"@),
    ensures
        windows_of(snapshot) is Ok <==> windows_of(swapped) is Ok,
        windows_of(snapshot) is Ok ==> windows_of(snapshot) == windows_of(swapped),
{
}

/// A window that is missing, or null, is no limit, and the other one is read as ever.
pub proof fn law_missing_window_is_no_limit(snapshot: JsonView)
    requires
        snapshot.get("primary"@) is None || snapshot.get("primary"@) == Some(JsonView::Null),
        windows_of(snapshot) is Ok,
    ensures
        windows_of(snapshot)->Ok_0.five_hour is None || windows_of(snapshot)->Ok_0.seven_day is None,
        windows_of(snapshot) == with_window(no_windows(), snapshot, WindowPosition::Secondary),
{
}

/// Whatever limits an answer holds, the status that is read from it can be shown, and is within what
/// can be stored.
pub proof fn law_read_status_can_be_shown_and_stored(
    result: JsonView,
    windows: LimitWindows,
    status: QuotaStatus,
    now: i64,
)
    requires
        limits_read(result) == Ok::<LimitWindows, LimitError>(windows),
        shows_windows(status, windows, now),
    ensures
        showable(status),
        status.five_hour matches Some(percent) ==> percent <= 100,
        status.seven_day matches Some(percent) ==> percent <= 100,
        status.reset_cells matches Some(cells) ==> cells <= WEEK_RESET_CELL_COUNT,
{
    if windows.resets_at is Some {
        law_hourglass_runs_down(windows.resets_at->0, now, now);
    }
}

/// The time in seconds after which a request counts as unanswered.
pub const APP_SERVER_TIMEOUT_SECONDS: u64 = 15;

pub const RATE_LIMITS_METHOD: &'static str = "account/rateLimits/read";

/// A request as one line of JSON.
pub open spec fn request_line(id: nat, method: Seq<char>, params: Seq<char>) -> Seq<char> {
    "{\"id\":"@ + decimal(id) + ",\"method\":"@ + json_string(method) + ",\"params\":"@ + params
        + "}\n"@
}

/// A notification as one line of JSON.
pub open spec fn notification_line(method: Seq<char>) -> Seq<char> {
    "{\"method\":"@ + json_string(method) + "}\n"@
}

/// Numbers the requests of one connection.
#[derive(Debug)]
pub struct CodexSession {
    pub next_request_id: u64,
}

impl CodexSession {
    pub fn new() -> (session: CodexSession)
        ensures
            session.next_request_id == 0,
    {
        CodexSession { next_request_id: 0 }
    }

    /// Writes a request under the next number, with parameters that are JSON already.
    pub fn request(&mut self, method: &str, params: &str) -> (line: String)
        requires
            old(self).next_request_id < u64::MAX,
        ensures
            final(self).next_request_id == old(self).next_request_id + 1,
            line@ == request_line(final(self).next_request_id as nat, method@, params@),
    {
        self.next_request_id = self.next_request_id + 1;
        let mut line = "{\"id\":".to_owned();
        line.append(decimal_text(self.next_request_id).as_str());
        line.append(",\"method\":");
        line.append(quoted(method).as_str());
        line.append(",\"params\":");
        line.append(params);
        line.append("}\n");
        line
    }

    /// Writes a notification, which has no number and gets no answer.
    pub fn notification(&self, method: &str) -> (line: String)
        ensures
            line@ == notification_line(method@),
    {
        let mut line = "{\"method\":".to_owned();
        line.append(quoted(method).as_str());
        line.append("}\n");
        line
    }
}

/// The parameters with which this program introduces itself.
pub open spec fn introduction(version: Seq<char>) -> Seq<char> {
    "{\"clientInfo\":{\"name\":\"codex-keyboard-quota\",\"title\":\"Codex Keyboard Quota\",\"version\":"@
        + json_string(version) + "}}"@
}

/// Writes the parameters with which this program introduces itself.
pub fn initialize_params(version: &str) -> (params: String)
    ensures
        params@ == introduction(version@),
{
    let mut params =
        "{\"clientInfo\":{\"name\":\"codex-keyboard-quota\",\"title\":\"Codex Keyboard Quota\",\"version\":".to_owned();
    params.append(quoted(version).as_str());
    params.append("}}");
    params
}

/// Every message is one line: whatever the method is, a line break stands only at the end, unless
/// the parameters hold one.
pub proof fn law_message_is_one_line(id: nat, method: Seq<char>, params: Seq<char>)
    requires
        !params.contains('\n'),
    ensures
        request_line(id, method, params).last() == '\n',
        !request_line(id, method, params).drop_last().contains('\n'),
        notification_line(method).last() == '\n',
        !notification_line(method).drop_last().contains('\n'),
{
    reveal_strlit("{\"id\":");
    reveal_strlit(",\"method\":");
    reveal_strlit(",\"params\":");
    reveal_strlit("{\"method\":");
    reveal_strlit("}\n");
    law_json_string_is_one_line(method);
    lemma_decimal_denotes(id);
    let request = request_line(id, method, params);
    let start = "{\"id\":"@ + decimal(id) + ",\"method\":"@ + json_string(method)
        + ",\"params\":"@ + params;
    assert(request.drop_last() =~= start.push('}'));
    assert forall|i: int| 0 <= i < start.len() implies start[i] != '\n' by {
        let after = start.len() - params.len();
        if i >= after {
            assert(start[i] == params[i - after]);
        }
    }
    let notification = notification_line(method);
    assert(notification.drop_last() =~= ("{\"method\":"@ + json_string(method)).push('}'));
}

/// The parameters of the introduction hold no line break.
pub proof fn law_introduction_is_one_line(version: Seq<char>)
    ensures
        !introduction(version).contains('\n'),
{
    reveal_strlit(
        "{\"clientInfo\":{\"name\":\"codex-keyboard-quota\",\"title\":\"Codex Keyboard Quota\",\"version\":",
    );
    reveal_strlit("}}");
    law_json_string_is_one_line(version);
}

/// Whether a line of output holds anything at all.
pub fn is_message(line: &str) -> (message: bool)
    ensures
        message == (trimmed(line@).len() > 0),
{
    let kept = trim(line);
    !is_empty(kept.as_str())
}

/// What can happen while an answer is awaited.
#[derive(Debug)]
pub enum ReaderEvent {
    Line(String),
    Eof,
    Disconnected,
    TimedOut,
}

/// Why no answer came.
#[derive(Clone, Copy, Debug, PartialEq, Eq)]
pub enum WaitError {
    TimedOut,
    Exited,
}

impl WaitError {
    pub open spec fn described(self) -> Seq<char> {
        match self {
            WaitError::TimedOut => "等待 Codex app-server 响应超时"@,
            WaitError::Exited => "Codex app-server 已退出"@,
        }
    }

    /// The error as a message.
    pub fn message(&self) -> (text: String)
        ensures
            text@ == self.described(),
    {
        match self {
            WaitError::TimedOut => "等待 Codex app-server 响应超时".to_owned(),
            WaitError::Exited => "Codex app-server 已退出".to_owned(),
        }
    }
}

/// What to do after an event.
#[derive(Debug)]
pub enum WaitStep {
    Continue,
    Answer(String),
    Failed(WaitError),
}

/// Whether an identifier is that of a request, as a number or as its decimal text.
pub open spec fn id_matches(value: Option<JsonView>, request_id: u64) -> bool {
    value matches Some(id) && (id.unsigned() == Some(request_id) || id.text() == Some(
        decimal(request_id as nat),
    ))
}

/// Whether a line is the answer to a request.
pub open spec fn answers(line: Seq<char>, request_id: u64) -> bool {
    parsed(line) matches Ok(message) && id_matches(message.get("id"@), request_id)
}

fn json_id_matches(value: Option<&Json>, request_id: u64) -> (same: bool)
    ensures
        same == id_matches(
            match value {
                Some(id) => Some(id@),
                None => None,
            },
            request_id,
        ),
{
    match value {
        None => false,
        Some(id) => {
            match id.as_unsigned() {
                Some(number) => if number == request_id {
                    return true;
                },
                None => {},
            }
            match id.as_text() {
                Some(text) => same_text(text, decimal_text(request_id).as_str()),
                None => false,
            }
        },
    }
}

/// Tells whether a message is the answer to a request.
pub fn is_answer(message: &Json, request_id: u64) -> (same: bool)
    ensures
        same == id_matches(message@.get("id"@), request_id),
{
    json_id_matches(message.get("id"), request_id)
}

/// Whether a step is the one after an event while a request is unanswered.
pub open spec fn is_wait_step(step: WaitStep, event: ReaderEvent, request_id: u64) -> bool {
    match event {
        ReaderEvent::Line(line) => if answers(line@, request_id) {
            step matches WaitStep::Answer(answer) && answer@ == line@
        } else {
            step is Continue
        },
        ReaderEvent::Eof => step == WaitStep::Failed(WaitError::Exited),
        ReaderEvent::Disconnected => step == WaitStep::Failed(WaitError::Exited),
        ReaderEvent::TimedOut => step == WaitStep::Failed(WaitError::TimedOut),
    }
}

/// Decides on one event: the answer ends the wait, other lines are skipped, whether notifications
/// or no JSON at all.
pub fn wait_for_response(event: ReaderEvent, request_id: u64) -> (step: WaitStep)
    ensures
        is_wait_step(step, event, request_id),
{
    match event {
        ReaderEvent::Line(line) => match parse_json(line.as_str()) {
            Ok(message) => if is_answer(&message, request_id) {
                WaitStep::Answer(line)
            } else {
                WaitStep::Continue
            },
            Err(_) => WaitStep::Continue,
        },
        ReaderEvent::Eof => WaitStep::Failed(WaitError::Exited),
        ReaderEvent::Disconnected => WaitStep::Failed(WaitError::Exited),
        ReaderEvent::TimedOut => WaitStep::Failed(WaitError::TimedOut),
    }
}

/// Why an answer holds no result.
#[derive(Debug)]
pub enum ResponseError {
    NotJson(JsonError),
    Refused(String),
    NoResult,
}

pub enum ResponseErrorView {
    NotJson(ErrorView),
    Refused(Seq<char>),
    NoResult,
}

impl ResponseError {
    pub open spec fn view(&self) -> ResponseErrorView {
        match self {
            ResponseError::NotJson(error) => ResponseErrorView::NotJson(error@),
            ResponseError::Refused(detail) => ResponseErrorView::Refused(detail@),
            ResponseError::NoResult => ResponseErrorView::NoResult,
        }
    }

    /// The error as a message.
    pub fn message(&self) -> (text: String)
        ensures
            text@ == self@.described(),
    {
        match self {
            ResponseError::NotJson(error) => error.message(),
            ResponseError::Refused(detail) => {
                let mut text = "Codex app-server 请求失败：".to_owned();
                text.append(detail.as_str());
                text
            },
            ResponseError::NoResult => "Codex app-server 响应缺少 result".to_owned(),
        }
    }
}

impl ResponseErrorView {
    pub open spec fn described(self) -> Seq<char> {
        match self {
            ResponseErrorView::NotJson(error) => error.described(),
            ResponseErrorView::Refused(detail) => "Codex app-server 请求失败："@ + detail,
            ResponseErrorView::NoResult => "Codex app-server 响应缺少 result"@,
        }
    }
}

/// What an answer says: its result, unless it has an error that is not null. The error is told by
/// its text.
pub open spec fn answer_read(
    message: Result<JsonView, ErrorView>,
    error_text: Option<Seq<char>>,
) -> Result<JsonView, ResponseErrorView> {
    match message {
        Err(error) => Err(ResponseErrorView::NotJson(error)),
        Ok(message) => if message.at("error"@) != JsonView::Null {
            Err(
                ResponseErrorView::Refused(
                    match error_text {
                        Some(text) => text,
                        None => Seq::empty(),
                    },
                ),
            )
        } else {
            match message.get("result"@) {
                Some(result) => Ok(result),
                None => Err(ResponseErrorView::NoResult),
            }
        },
    }
}

/// What the line of an answer says; an error is told in compact form.
pub open spec fn response_read(line: Seq<char>) -> Result<JsonView, ResponseErrorView> {
    answer_read(parsed(line), json_compact(line, "/error"@))
}

/// Whether a result, or an error, is the one that is meant.
pub open spec fn is_response(
    result: Result<Json, ResponseError>,
    meant: Result<JsonView, ResponseErrorView>,
) -> bool {
    match result {
        Ok(value) => meant == Ok::<JsonView, ResponseErrorView>(value@),
        Err(error) => meant == Err::<JsonView, ResponseErrorView>(error@),
    }
}

/// Takes the result out of an answer that was read, or says why there is none. The error of the
/// answer is given as a text.
pub fn read_answer(message: Result<Json, JsonError>, error_text: Option<String>) -> (result: Result<
    Json,
    ResponseError,
>)
    ensures
        is_response(
            result,
            answer_read(
                match message {
                    Ok(value) => Ok(value@),
                    Err(error) => Err(error@),
                },
                match error_text {
                    Some(text) => Some(text@),
                    None => None,
                },
            ),
        ),
{
    let message = match message {
        Err(error) => {
            return Err(ResponseError::NotJson(error));
        },
        Ok(message) => message,
    };
    let refused = match message.get("error") {
        Some(error) => !error.is_null(),
        None => false,
    };
    if refused {
        let detail = match error_text {
            Some(text) => text,
            None => {
                let text = String::new();
                assert(text@ =~= Seq::<char>::empty());
                text
            },
        };
        return Err(ResponseError::Refused(detail));
    }
    match message.take("result") {
        Some(result) => Ok(result),
        None => Err(ResponseError::NoResult),
    }
}

/// Takes the result out of the line of an answer, or says why there is none.
pub fn response_result(line: &str) -> (result: Result<Json, ResponseError>)
    ensures
        is_response(result, response_read(line@)),
{
    read_answer(parse_json(line), compact(line, "/error"))
}

/// Why a status could not be read from an answer.
#[derive(Debug)]
pub enum QueryError {
    Response(ResponseError),
    Limits(LimitError),
}

impl QueryError {
    pub open spec fn described(&self) -> Seq<char> {
        match self {
            QueryError::Response(error) => error@.described(),
            QueryError::Limits(error) => error.described(),
        }
    }

    /// The error as a message.
    pub fn message(&self) -> (text: String)
        ensures
            text@ == self.described(),
    {
        match self {
            QueryError::Response(error) => error.message(),
            QueryError::Limits(error) => error.message(),
        }
    }
}

/// Whether a status, or an error, is what the line of an answer says at a time.
pub open spec fn is_quota_query(
    read: Result<QuotaStatus, QueryError>,
    line: Seq<char>,
    now: i64,
) -> bool {
    match response_read(line) {
        Err(error) => read matches Err(QueryError::Response(found)) && found@ == error,
        Ok(result) => match read {
            Ok(status) => is_limits_reading(Ok(status), result, now),
            Err(QueryError::Limits(error)) => is_limits_reading(Err(error), result, now),
            Err(_) => false,
        },
    }
}

/// Reads the limits from the answer to the request for them.
pub fn query_current_quota(line: &str, now: i64) -> (read: Result<QuotaStatus, QueryError>)
    ensures
        is_quota_query(read, line@, now),
{
    match response_result(line) {
        Err(error) => Err(QueryError::Response(error)),
        Ok(result) => match parse_rate_limits(&result, now) {
            Err(error) => Err(QueryError::Limits(error)),
            Ok(status) => Ok(status),
        },
    }
}

/// An identifier belongs to at most one request, and a request knows its own in both forms.
pub proof fn law_identifier_names_one_request(value: Option<JsonView>, first: u64, second: u64)
    ensures
        id_matches(value, first) && id_matches(value, second) ==> first == second,
        id_matches(Some(JsonView::Text(decimal(first as nat))), first),
{
    lemma_decimal_denotes(first as nat);
    lemma_decimal_denotes(second as nat);
}

/// An answer that reports an error is never taken for limits.
pub proof fn law_refusal_is_no_quota(line: Seq<char>, message: JsonView)
    requires
        parsed(line) == Ok::<JsonView, ErrorView>(message),
        message.get("error"@) is Some,
        message.get("error"@) != Some(JsonView::Null),
    ensures
        response_read(line) is Err,
{
}

pub const POWERSHELL_SEVEN: &'static str = "C:\\Program Files\\PowerShell\\7\\pwsh.exe";

pub const WINDOWS_POWERSHELL: &'static str = "powershell.exe";

/// How deep below the folder of the desktop application its program is looked for.
pub const BUNDLED_SEARCH_DEPTH: u8 = 3;

/// PowerShell 7 where it is installed, or else the one that comes with Windows.
pub fn powershell_path(seven_installed: bool) -> (path: &'static str)
    ensures
        path@ == if seven_installed {
            POWERSHELL_SEVEN@
        } else {
            WINDOWS_POWERSHELL@
        },
{
    if seven_installed {
        POWERSHELL_SEVEN
    } else {
        WINDOWS_POWERSHELL
    }
}

/// A part of a command line: a given text, or one of the files that the command was found by.
#[derive(Debug)]
pub enum CommandPart {
    Text(String),
    Candidate,
    Script,
    Node,
}

pub enum PartView {
    Text(Seq<char>),
    Candidate,
    Script,
    Node,
}

impl CommandPart {
    pub open spec fn view(&self) -> PartView {
        match self {
            CommandPart::Text(text) => PartView::Text(text@),
            CommandPart::Candidate => PartView::Candidate,
            CommandPart::Script => PartView::Script,
            CommandPart::Node => PartView::Node,
        }
    }
}

/// A program to start, the arguments that come before those of this tool, and how to show it.
#[derive(Debug)]
pub struct ResolvedCodexCommand {
    pub program: CommandPart,
    pub prefix_args: Vec<CommandPart>,
    pub display: String,
}

pub struct CommandView {
    pub program: PartView,
    pub prefix_args: Seq<PartView>,
    pub display: Seq<char>,
}

impl ResolvedCodexCommand {
    pub open spec fn view(&self) -> CommandView {
        CommandView {
            program: self.program@,
            prefix_args: Seq::new(self.prefix_args@.len(), |i: int| self.prefix_args@[i]@),
            display: self.display@,
        }
    }
}

/// How a file is started.
#[derive(Clone, Copy, Debug, PartialEq, Eq)]
pub enum Launcher {
    Direct,
    Node,
    CommandPrompt,
    PowerShell,
}

/// The launcher for a file name extension, letters in either case; a script that npm installed is
/// started through Node where both its JavaScript and Node are there.
pub open spec fn launcher_for(extension: Seq<char>, node_usable: bool) -> Option<Launcher> {
    let kind = ascii_lowered(extension);
    if kind == "exe"@ || kind.len() == 0 {
        Some(Launcher::Direct)
    } else if kind == "cmd"@ || kind == "bat"@ {
        if node_usable {
            Some(Launcher::Node)
        } else {
            Some(Launcher::CommandPrompt)
        }
    } else if kind == "ps1"@ {
        if node_usable {
            Some(Launcher::Node)
        } else {
            Some(Launcher::PowerShell)
        }
    } else {
        None
    }
}

/// Chooses how to start a file by its extension.
pub fn choose_launcher(extension: &str, node_usable: bool) -> (launcher: Option<Launcher>)
    ensures
        launcher == launcher_for(extension@, node_usable),
{
    let kind = to_ascii_lowercase(extension);
    if same_text(kind.as_str(), "exe") || is_empty(kind.as_str()) {
        return Some(Launcher::Direct);
    }
    if same_text(kind.as_str(), "cmd") || same_text(kind.as_str(), "bat") {
        return if node_usable {
            Some(Launcher::Node)
        } else {
            Some(Launcher::CommandPrompt)
        };
    }
    if same_text(kind.as_str(), "ps1") {
        return if node_usable {
            Some(Launcher::Node)
        } else {
            Some(Launcher::PowerShell)
        };
    }
    None
}

/// Node and the script it runs, as they are shown.
#[derive(Debug)]
pub struct NodeScript {
    pub node: String,
    pub script: String,
}

/// The command that starts a file.
pub open spec fn command_of(
    launcher: Launcher,
    path: Seq<char>,
    node: Seq<char>,
    script: Seq<char>,
    seven_installed: bool,
) -> CommandView {
    match launcher {
        Launcher::Direct => CommandView {
            program: PartView::Candidate,
            prefix_args: Seq::empty(),
            display: path,
        },
        Launcher::Node => CommandView {
            program: PartView::Node,
            prefix_args: seq![PartView::Script],
            display: node + " ("@ + script + ")"@,
        },
        Launcher::CommandPrompt => CommandView {
            program: PartView::Text("cmd.exe"@),
            prefix_args: seq![
                PartView::Text("/d"@),
                PartView::Text("/s"@),
                PartView::Text("/c"@),
                PartView::Candidate,
            ],
            display: path,
        },
        Launcher::PowerShell => CommandView {
            program: PartView::Text(
                if seven_installed {
                    POWERSHELL_SEVEN@
                } else {
                    WINDOWS_POWERSHELL@
                },
            ),
            prefix_args: seq![
                PartView::Text("-NoProfile"@),
                PartView::Text("-NonInteractive"@),
                PartView::Text("-ExecutionPolicy"@),
                PartView::Text("Bypass"@),
                PartView::Text("-File"@),
                PartView::Candidate,
            ],
            display: path,
        },
    }
}

/// Why there is no command.
#[derive(Debug)]
pub enum CommandError {
    NotFound,
    UnsupportedType(String),
}

impl CommandError {
    pub open spec fn described(&self) -> Seq<char> {
        match self {
            CommandError::NotFound => "找不到 Codex CLI，请先安装并登录 Codex"@,
            CommandError::UnsupportedType(path) => "不支持的 CODEX_CLI 文件类型："@ + path@,
        }
    }

    /// The error as a message.
    pub fn message(&self) -> (text: String)
        ensures
            text@ == self.described(),
    {
        match self {
            CommandError::NotFound => "找不到 Codex CLI，请先安装并登录 Codex".to_owned(),
            CommandError::UnsupportedType(path) => {
                let mut text = "不支持的 CODEX_CLI 文件类型：".to_owned();
                text.append(path.as_str());
                text
            },
        }
    }
}

/// Node and the script that it runs as texts, empty where there are none.
pub open spec fn script_of(node: Option<NodeScript>) -> (Seq<char>, Seq<char>) {
    match node {
        Some(pair) => (pair.node@, pair.script@),
        None => (Seq::empty(), Seq::empty()),
    }
}

/// Whether a command, or an error, is the one for a file.
pub open spec fn is_command(
    command: Result<ResolvedCodexCommand, CommandError>,
    path: Seq<char>,
    extension: Seq<char>,
    node: Option<NodeScript>,
    seven_installed: bool,
) -> bool {
    match launcher_for(extension, node is Some) {
        Some(launcher) => command matches Ok(found) && found@ == command_of(
            launcher,
            path,
            script_of(node).0,
            script_of(node).1,
            seven_installed,
        ),
        None => command matches Err(CommandError::UnsupportedType(shown)) && shown@ == path,
    }
}

/// Builds the command that starts a file, shown as `path`.
pub fn command_from_path(
    path: &str,
    extension: &str,
    node: &Option<NodeScript>,
    seven_installed: bool,
) -> (command: Result<ResolvedCodexCommand, CommandError>)
    ensures
        is_command(command, path@, extension@, *node, seven_installed),
{
    let launcher = match choose_launcher(extension, node.is_some()) {
        None => {
            return Err(CommandError::UnsupportedType(path.to_owned()));
        },
        Some(launcher) => launcher,
    };
    let ghost meant = command_of(
        launcher,
        path@,
        script_of(*node).0,
        script_of(*node).1,
        seven_installed,
    );
    let command = match launcher {
        Launcher::Direct => direct_command(path),
        Launcher::Node => {
            let mut display = String::new();
            match node {
                Some(pair) => {
                    display.append(pair.node.as_str());
                    display.append(" (");
                    display.append(pair.script.as_str());
                    display.append(")");
                },
                None => {},
            }
            assert(display@ =~= script_of(*node).0 + " ("@ + script_of(*node).1 + ")"@);
            ResolvedCodexCommand {
                program: CommandPart::Node,
                prefix_args: vec![CommandPart::Script],
                display,
            }
        },
        Launcher::CommandPrompt => ResolvedCodexCommand {
            program: CommandPart::Text("cmd.exe".to_owned()),
            prefix_args: vec![
                CommandPart::Text("/d".to_owned()),
                CommandPart::Text("/s".to_owned()),
                CommandPart::Text("/c".to_owned()),
                CommandPart::Candidate,
            ],
            display: path.to_owned(),
        },
        Launcher::PowerShell => ResolvedCodexCommand {
            program: CommandPart::Text(powershell_path(seven_installed).to_owned()),
            prefix_args: vec![
                CommandPart::Text("-NoProfile".to_owned()),
                CommandPart::Text("-NonInteractive".to_owned()),
                CommandPart::Text("-ExecutionPolicy".to_owned()),
                CommandPart::Text("Bypass".to_owned()),
                CommandPart::Text("-File".to_owned()),
                CommandPart::Candidate,
            ],
            display: path.to_owned(),
        },
    };
    assert(command@.prefix_args =~= meant.prefix_args);
    Ok(command)
}

/// The command that starts a program as it is.
pub fn direct_command(path: &str) -> (command: ResolvedCodexCommand)
    ensures
        command@ == command_of(Launcher::Direct, path@, Seq::empty(), Seq::empty(), false),
{
    let command = ResolvedCodexCommand {
        program: CommandPart::Candidate,
        prefix_args: Vec::new(),
        display: path.to_owned(),
    };
    assert(command@.prefix_args =~= Seq::<PartView>::empty());
    command
}

/// Where Codex was found.
#[derive(Clone, Copy, Debug, PartialEq, Eq)]
pub enum CodexSource {
    Configured,
    Bundled,
    NativeOnPath,
    WrapperOnPath,
}

/// Which of the places where Codex was found counts.
pub open spec fn source_of(
    configured: bool,
    bundled: bool,
    native: bool,
    wrapper: bool,
) -> Option<CodexSource> {
    if configured {
        Some(CodexSource::Configured)
    } else if bundled {
        Some(CodexSource::Bundled)
    } else if native {
        Some(CodexSource::NativeOnPath)
    } else if wrapper {
        Some(CodexSource::WrapperOnPath)
    } else {
        None
    }
}

/// Chooses among the places where Codex was found: a configured path, the newest program of the
/// desktop application, a native program on the search path, and last a wrapper there.
pub fn resolve_codex_command(configured: bool, bundled: bool, native: bool, wrapper: bool) -> (source: Result<
    CodexSource,
    CommandError,
>)
    ensures
        match source {
            Ok(found) => source_of(configured, bundled, native, wrapper) == Some(found),
            Err(error) => source_of(configured, bundled, native, wrapper) is None && error
                == CommandError::NotFound,
        },
{
    if configured {
        Ok(CodexSource::Configured)
    } else if bundled {
        Ok(CodexSource::Bundled)
    } else if native {
        Ok(CodexSource::NativeOnPath)
    } else if wrapper {
        Ok(CodexSource::WrapperOnPath)
    } else {
        Err(CommandError::NotFound)
    }
}

/// Whether a file is the one that was changed last, of several of one time the last; there is none
/// among no files.
pub open spec fn is_newest(chosen: Option<int>, changed: Seq<i128>) -> bool {
    match chosen {
        Some(at) => {
            &&& 0 <= at < changed.len()
            &&& forall|i: int| 0 <= i < changed.len() ==> changed[i] <= changed[at]
            &&& forall|i: int| at < i < changed.len() ==> changed[i] < changed[at]
        },
        None => changed.len() == 0,
    }
}

/// The file that was changed last; among several of one time, the last of them.
pub fn newest(changed: &Vec<i128>) -> (chosen: Option<usize>)
    ensures
        is_newest(
            match chosen {
                Some(at) => Some(at as int),
                None => None,
            },
            changed@,
        ),
{
    if changed.len() == 0 {
        return None;
    }
    let mut best: usize = 0;
    for i in 1..changed.len()
        invariant
            best < i <= changed@.len(),
            forall|j: int| 0 <= j < i ==> changed@[j] <= changed@[best as int],
            forall|j: int| best < j < i ==> changed@[j] < changed@[best as int],
    {
        if changed[i] >= changed[best] {
            best = i;
        }
    }
    Some(best)
}

/// Whether the name at a place of the search comes before another: all names are tried in one
/// directory before the next.
pub open spec fn searched_before(first: (int, int), second: (int, int)) -> bool {
    first.0 < second.0 || (first.0 == second.0 && first.1 < second.1)
}

/// Whether a place of a search path is the first that is there; there is none where nothing is.
pub open spec fn is_first_present(found: Option<(usize, usize)>, present: Seq<Vec<bool>>) -> bool {
    match found {
        Some(place) => {
            &&& place.0 < present.len()
            &&& place.1 < present[place.0 as int]@.len()
            &&& present[place.0 as int]@[place.1 as int]
            &&& forall|d: int, n: int|
                0 <= d < present.len() && 0 <= n < present[d]@.len() && searched_before(
                    (d, n),
                    (place.0 as int, place.1 as int),
                ) ==> !(#[trigger] present[d]@[n])
        },
        None => forall|d: int, n: int|
            0 <= d < present.len() && 0 <= n < present[d]@.len() ==> !(#[trigger] present[d]@[n]),
    }
}

/// The first file of a search path that is there: `present` says for each directory which of the
/// names it has. The result is the directory and the name.
pub fn first_on_path(present: &Vec<Vec<bool>>) -> (found: Option<(usize, usize)>)
    ensures
        is_first_present(found, present@),
{
    for directory in 0..present.len()
        invariant
            forall|d: int, n: int|
                0 <= d < directory && 0 <= n < present@[d]@.len() ==> !(#[trigger] present@[d]@[n]),
    {
        let names = &present[directory];
        for name in 0..names.len()
            invariant
                directory < present@.len(),
                *names == present@[directory as int],
                forall|d: int, n: int|
                    0 <= d < directory && 0 <= n < present@[d]@.len() ==> !(
                    #[trigger] present@[d]@[n]),
                forall|n: int| 0 <= n < name ==> !(#[trigger] present@[directory as int]@[n]),
        {
            if names[name] {
                return Some((directory, name));
            }
        }
    }
    None
}

/// What to do with an entry of a folder that is searched.
#[derive(Clone, Copy, Debug, PartialEq, Eq)]
pub enum EntryAction {
    Collect,
    Descend,
    Skip,
}

/// What is done with an entry of a folder.
pub open spec fn action_for(
    is_file: bool,
    is_folder: bool,
    name: Seq<char>,
    wanted: Seq<char>,
    depth: u8,
) -> EntryAction {
    if depth == 0 {
        EntryAction::Skip
    } else if is_file && ascii_lowered(name) == ascii_lowered(wanted) {
        EntryAction::Collect
    } else if is_folder && depth > 1 {
        EntryAction::Descend
    } else {
        EntryAction::Skip
    }
}

/// Decides on an entry of a folder: a file of the wanted name is collected, letters in either case,
/// and folders are searched in turn until the depth is used up.
pub fn entry_action(is_file: bool, is_folder: bool, name: &str, wanted: &str, depth: u8) -> (action:
    EntryAction)
    ensures
        action == action_for(is_file, is_folder, name@, wanted@, depth),
{
    if depth == 0 {
        EntryAction::Skip
    } else if is_file && eq_ignore_ascii_case(name, wanted) {
        EntryAction::Collect
    } else if is_folder && depth > 1 {
        EntryAction::Descend
    } else {
        EntryAction::Skip
    }
}

/// The object of an answer in which the windows stand: that of the limit `codex`, or, only where
/// there is no such object, the older one.
pub open spec fn stands_in(result: JsonView, holder: JsonView) -> bool {
    &&& holder is Object
    &&& {
        ||| result.at("rateLimitsByLimitId"@).get("codex"@) == Some(holder)
        ||| result.get("rateLimits"@) == Some(holder) && !(result.at("rateLimitsByLimitId"@).get(
            "codex"@,
        ) matches Some(JsonView::Object(_)))
    }
}

/// The hourglass of a status that was read counts the tenths of a week from the time of reading to
/// the weekly reset, to the nearest whole number with halves up and at most ten. There is no
/// hourglass without a reset time, and no relay in a status that was read from the account.
pub proof fn law_read_hourglass_counts_from_now(result: JsonView, status: QuotaStatus, now: i64)
    requires
        is_limits_reading(Ok(status), result, now),
    ensures
        status.relay is None,
        status.seven_day_resets_at is None ==> status.reset_cells is None,
        status.seven_day_resets_at matches Some(reset) ==> status.reset_cells matches Some(cells) && {
            let left = reset - now;
            &&& cells <= 10
            &&& left <= 0 ==> cells == 0
            &&& 2 * left >= 19 * 60_480 ==> cells == 10
            &&& 0 < left && 2 * left < 19 * 60_480 ==> (2 * cells - 1) * 60_480 <= 2 * left < (2
                * cells + 1) * 60_480
        },
{
    if status.seven_day_resets_at is Some {
        law_hourglass_counts_tenths_of_a_week(status.seven_day_resets_at->0, now);
    }
}

/// The same holds of a status that comes from the line of an answer.
pub proof fn law_queried_hourglass_counts_from_now(line: Seq<char>, status: QuotaStatus, now: i64)
    requires
        is_quota_query(Ok(status), line, now),
    ensures
        status.relay is None,
        status.seven_day_resets_at is None ==> status.reset_cells is None,
        status.seven_day_resets_at matches Some(reset) ==> status.reset_cells matches Some(cells) && {
            let left = reset - now;
            &&& cells <= 10
            &&& left <= 0 ==> cells == 0
            &&& 2 * left >= 19 * 60_480 ==> cells == 10
            &&& 0 < left && 2 * left < 19 * 60_480 ==> (2 * cells - 1) * 60_480 <= 2 * left < (2
                * cells + 1) * 60_480
        },
{
    law_read_hourglass_counts_from_now(response_read(line)->Ok_0, status, now);
}

/// A window of 300 minutes is the five-hour limit and one of 10080 minutes the weekly limit, in
/// whichever of the two positions it stands, and there are no others. What is shown of a window is
/// what is left of it, and the reset time is that of the weekly window alone.
pub proof fn law_windows_are_told_by_their_length(
    result: JsonView,
    holder: JsonView,
    window: JsonView,
    status: QuotaStatus,
    now: i64,
)
    requires
        stands_in(result, holder),
        is_limits_reading(Ok(status), result, now),
        window != JsonView::Null,
        holder.get("primary"@) == Some(window) || holder.get("secondary"@) == Some(window),
    ensures
        window is Object,
        window.at("usedPercent"@).double() is Some,
        is_finite(window.at("usedPercent"@).double()->0),
        ({
            let minutes = window.at("windowDurationMins"@).unsigned();
            let left = percent_left(window.at("usedPercent"@).double()->0);
            &&& minutes == Some(300u64) || minutes == Some(10_080u64)
            &&& minutes == Some(300u64) ==> status.five_hour == Some(left as u8)
            &&& minutes == Some(10_080u64) ==> {
                &&& status.seven_day == Some(left as u8)
                &&& window.at("resetsAt"@) == JsonView::Null ==> status.seven_day_resets_at is None
                &&& window.at("resetsAt"@).signed() is Some ==> status.seven_day_resets_at
                    == window.at("resetsAt"@).signed()
                &&& window.at("resetsAt"@) != JsonView::Null && window.at("resetsAt"@).signed()
                    is None ==> window.at("resetsAt"@).double() is Some
                    && status.seven_day_resets_at == Some(
                    whole_part(window.at("resetsAt"@).double()->0) as i64,
                )
            }
        }),
{
}

/// Whether a position of an answer holds a window of a length.
pub open spec fn holds_window(holder: JsonView, position: Seq<char>, minutes: u64) -> bool {
    holder.at(position) != JsonView::Null && holder.at(position).at("windowDurationMins"@).unsigned()
        == Some(minutes)
}

/// A limit that neither position holds is no limit: its percentage is missing, and without a weekly
/// window there is no reset time either.
pub proof fn law_limits_come_from_the_answer(
    result: JsonView,
    holder: JsonView,
    status: QuotaStatus,
    now: i64,
)
    requires
        stands_in(result, holder),
        is_limits_reading(Ok(status), result, now),
    ensures
        status.five_hour is Some <==> holds_window(holder, "primary"@, 300) || holds_window(
            holder,
            "secondary"@,
            300,
        ),
        status.seven_day is Some <==> holds_window(holder, "primary"@, 10_080) || holds_window(
            holder,
            "secondary"@,
            10_080,
        ),
        status.seven_day is None ==> status.seven_day_resets_at is None,
{
}

/// An answer without an object of limits is refused, and so is one whose first window is no object,
/// lacks its length or its percentage, or has a length that is neither of the two. Two windows of
/// one length are refused as well. Nothing is guessed.
pub proof fn law_faulty_limits_are_refused(
    result: JsonView,
    holder: JsonView,
    read: Result<QuotaStatus, LimitError>,
    now: i64,
)
    requires
        is_limits_reading(read, result, now),
    ensures
        !(result.at("rateLimitsByLimitId"@).get("codex"@) matches Some(JsonView::Object(_))) && !(
        result.get("rateLimits"@) matches Some(JsonView::Object(_))) ==> read == Err::<
            QuotaStatus,
            LimitError,
        >(LimitError::NoLimits),
        stands_in(result, holder) && holder.at("primary"@) != JsonView::Null ==> {
            let window = holder.at("primary"@);
            let minutes = window.at("windowDurationMins"@).unsigned();
            let used = window.at("usedPercent"@).double();
            &&& !(window is Object) ==> read == Err::<QuotaStatus, LimitError>(
                LimitError::WindowFormat(WindowPosition::Primary),
            )
            &&& window is Object && minutes is None ==> read == Err::<QuotaStatus, LimitError>(
                LimitError::NoDuration(WindowPosition::Primary),
            )
            &&& window is Object && minutes is Some && used is None ==> read == Err::<
                QuotaStatus,
                LimitError,
            >(LimitError::NoUsedPercent(WindowPosition::Primary))
            &&& window is Object && minutes is Some && used is Some && !is_finite(used->0) ==> read
                == Err::<QuotaStatus, LimitError>(LimitError::UsedNotFinite(WindowPosition::Primary))
            &&& window is Object && minutes is Some && minutes->0 != 300 && minutes->0 != 10_080
                && used is Some && is_finite(used->0) ==> read == Err::<QuotaStatus, LimitError>(
                LimitError::UnknownDuration(minutes->0),
            )
        },
        stands_in(result, holder) && holds_window(holder, "primary"@, 300) && holds_window(
            holder,
            "secondary"@,
            300,
        ) ==> read is Err,
        stands_in(result, holder) && holds_window(holder, "primary"@, 10_080) && holds_window(
            holder,
            "secondary"@,
            10_080,
        ) ==> read is Err,
{
}

/// A line ends the wait exactly where it is JSON with the number of the request, as a number or as
/// its decimal text, and is then handed on as it is. Every other line is passed over. The end of the
/// program and the end of the time are told apart.
pub proof fn law_only_the_answer_ends_the_wait(event: ReaderEvent, step: WaitStep, request_id: u64)
    requires
        is_wait_step(step, event, request_id),
    ensures
        event matches ReaderEvent::Line(line) ==> {
            let id = match parsed(line@) {
                Ok(message) => message.at("id"@),
                Err(_) => JsonView::Null,
            };
            if id.unsigned() == Some(request_id) || id == JsonView::Text(decimal(request_id as nat)) {
                step matches WaitStep::Answer(answer) && answer@ == line@
            } else {
                step is Continue
            }
        },
        event is Eof || event is Disconnected ==> step == WaitStep::Failed(WaitError::Exited),
        event is TimedOut ==> step == WaitStep::Failed(WaitError::TimedOut),
{
}

/// An answer gives its result where it has one and no error but null; any other error refuses it,
/// whatever else it holds.
pub proof fn law_answer_is_its_result(message: JsonView, text: Option<Seq<char>>)
    ensures
        ({
            let read = answer_read(Ok(message), text);
            let error = message.at("error"@);
            &&& error == JsonView::Null && message.get("result"@) is Some ==> read == Ok::<
                JsonView,
                ResponseErrorView,
            >(message.get("result"@)->0)
            &&& error == JsonView::Null && message.get("result"@) is None ==> read == Err::<
                JsonView,
                ResponseErrorView,
            >(ResponseErrorView::NoResult)
            &&& error != JsonView::Null && text is Some ==> read == Err::<
                JsonView,
                ResponseErrorView,
            >(ResponseErrorView::Refused(text->0))
            &&& error != JsonView::Null ==> read is Err
        }),
{
}

/// A native program is started as it is. A script of npm is started through Node where Node and its
/// JavaScript are there, and otherwise by the shell that it is written for. Files of any other kind
/// are refused. Letters of the extension count in either case.
pub proof fn law_launcher_fits_the_file(extension: Seq<char>, kind: Seq<char>, node_usable: bool)
    requires
        ascii_lowered(extension) == kind,
    ensures
        kind == seq!['e', 'x', 'e'] || kind.len() == 0 ==> launcher_for(extension, node_usable)
            == Some(Launcher::Direct),
        kind == seq!['c', 'm', 'd'] || kind == seq!['b', 'a', 't'] || kind == seq!['p', 's', '1']
            ==> (node_usable <==> launcher_for(extension, node_usable) == Some(Launcher::Node)),
        kind == seq!['c', 'm', 'd'] || kind == seq!['b', 'a', 't'] ==> launcher_for(
            extension,
            false,
        ) == Some(Launcher::CommandPrompt),
        kind == seq!['p', 's', '1'] ==> launcher_for(extension, false) == Some(
            Launcher::PowerShell,
        ),
        kind.len() != 0 && kind != seq!['e', 'x', 'e'] && kind != seq!['c', 'm', 'd'] && kind
            != seq!['b', 'a', 't'] && kind != seq!['p', 's', '1'] ==> launcher_for(
            extension,
            node_usable,
        ) is None,
{
    reveal_strlit("exe");
    reveal_strlit("cmd");
    reveal_strlit("bat");
    reveal_strlit("ps1");
    assert("exe"@ =~= seq!['e', 'x', 'e']);
    assert("cmd"@ =~= seq!['c', 'm', 'd']);
    assert("bat"@ =~= seq!['b', 'a', 't']);
    assert("ps1"@ =~= seq!['p', 's', '1']);
}

/// A command starts the file that it was made for: the file is the program itself, or the last
/// argument of the shell that runs it; Node is given its script alone. A file that cannot be started
/// is refused under its own name.
pub proof fn law_command_starts_its_file(
    command: Result<ResolvedCodexCommand, CommandError>,
    path: Seq<char>,
    extension: Seq<char>,
    node: Option<NodeScript>,
    seven_installed: bool,
)
    requires
        is_command(command, path, extension, node, seven_installed),
    ensures
        match launcher_for(extension, node is Some) {
            Some(Launcher::Direct) => command matches Ok(found) && found@.program
                == PartView::Candidate && found@.prefix_args.len() == 0 && found@.display == path,
            Some(Launcher::Node) => command matches Ok(found) && found@.program == PartView::Node
                && found@.prefix_args == seq![PartView::Script],
            Some(_) => command matches Ok(found) && found@.program is Text
                && found@.prefix_args.last() == PartView::Candidate && found@.display == path && (
            forall|i: int|
                0 <= i < found@.prefix_args.len() - 1 ==> #[trigger] found@.prefix_args[i] is Text),
            None => command matches Err(CommandError::UnsupportedType(shown)) && shown@ == path,
        },
        node is Some && launcher_for(extension, true) == Some(Launcher::Node) ==> (command matches Ok(
            found,
        ) && found@.display == node->0.node@ + seq![' ', '('] + node->0.script@ + seq![')']),
{
    reveal_strlit(" (");
    reveal_strlit(")");
    assert(" ("@ =~= seq![' ', '(']);
    assert(")"@ =~= seq![')']);
}

/// A configured path counts before everything else, the program of the desktop application before
/// the search path, and a native program there before a wrapper. Only where nothing was found there
/// is no command.
pub proof fn law_sources_have_their_order(
    configured: bool,
    bundled: bool,
    native: bool,
    wrapper: bool,
)
    ensures
        source_of(true, bundled, native, wrapper) == Some(CodexSource::Configured),
        source_of(false, true, native, wrapper) == Some(CodexSource::Bundled),
        source_of(false, false, true, wrapper) == Some(CodexSource::NativeOnPath),
        source_of(false, false, false, true) == Some(CodexSource::WrapperOnPath),
        source_of(configured, bundled, native, wrapper) is None <==> !(configured || bundled
            || native || wrapper),
{
}

/// A folder is entered only while there is depth left for what is in it; a file is collected for its
/// name alone, letters in either case.
pub proof fn law_search_stays_within_its_depth(
    is_file: bool,
    is_folder: bool,
    name: Seq<char>,
    wanted: Seq<char>,
    depth: u8,
)
    ensures
        action_for(is_file, is_folder, name, wanted, 0) == EntryAction::Skip,
        action_for(is_file, is_folder, name, wanted, depth) == EntryAction::Collect <==> depth > 0
            && is_file && ascii_lowered(name) == ascii_lowered(wanted),
        action_for(is_file, is_folder, name, wanted, depth) == EntryAction::Descend <==> depth >= 2
            && is_folder && !(is_file && ascii_lowered(name) == ascii_lowered(wanted)),
{
}

/// A request is the one with its number, method and parameters, in this order.
pub proof fn law_request_holds_its_parts(id: nat, method: Seq<char>, params: Seq<char>)
    ensures
        request_line(id, method, params) == seq!['{', '"', 'i', 'd', '"', ':'] + decimal(id) + seq![
            ',',
            '"',
            'm',
            'e',
            't',
            'h',
            'o',
            'd',
            '"',
            ':',
        ] + json_string(method) + seq![',', '"', 'p', 'a', 'r', 'a', 'm', 's', '"', ':'] + params
            + seq!['}', '\n'],
{
    reveal_strlit("{\"id\":");
    reveal_strlit(",\"method\":");
    reveal_strlit(",\"params\":");
    reveal_strlit("}\n");
    assert("{\"id\":"@ =~= seq!['{', '"', 'i', 'd', '"', ':']);
    assert(",\"method\":"@ =~= seq![',', '"', 'm', 'e', 't', 'h', 'o', 'd', '"', ':']);
    assert(",\"params\":"@ =~= seq![',', '"', 'p', 'a', 'r', 'a', 'm', 's', '"', ':']);
    assert("}\n"@ =~= seq!['}', '\n']);
}

/// Whether a window can be read: an object with one of the two lengths, a finite percentage and, for
/// a week, a reset time that is a number where it is there.
pub open spec fn is_sound_window(window: JsonView, minutes: u64) -> bool {
    &&& window is Object
    &&& window.at("windowDurationMins"@).unsigned() == Some(minutes)
    &&& window.at("usedPercent"@).double() is Some
    &&& is_finite(window.at("usedPercent"@).double()->0)
    &&& minutes == 10_080 ==> {
        ||| window.at("resetsAt"@) == JsonView::Null
        ||| window.at("resetsAt"@).signed() is Some
        ||| window.at("resetsAt"@).double() is Some
    }
}

/// Sound limits are read: either window alone, both in either order, or none at all.
pub proof fn law_sound_limits_are_read(
    result: JsonView,
    holder: JsonView,
    read: Result<QuotaStatus, LimitError>,
    now: i64,
)
    requires
        stands_in(result, holder),
        is_limits_reading(read, result, now),
        ({
            let first = holder.at("primary"@);
            let second = holder.at("secondary"@);
            ||| first == JsonView::Null && second == JsonView::Null
            ||| first == JsonView::Null && (is_sound_window(second, 300) || is_sound_window(
                second,
                10_080,
            ))
            ||| second == JsonView::Null && (is_sound_window(first, 300) || is_sound_window(
                first,
                10_080,
            ))
            ||| is_sound_window(first, 300) && is_sound_window(second, 10_080)
            ||| is_sound_window(first, 10_080) && is_sound_window(second, 300)
        }),
    ensures
        read is Ok,
{
}

/// No file was changed after the newest one, and none behind it at the same time.
pub proof fn law_newest_file_was_changed_last(chosen: Option<int>, changed: Seq<i128>, i: int)
    requires
        is_newest(chosen, changed),
        0 <= i < changed.len(),
    ensures
        chosen is Some,
        changed[i] <= changed[chosen->0],
        i > chosen->0 ==> changed[i] < changed[chosen->0],
{
}

/// The search path is gone through directory by directory and, in each, name by name: nothing that is
/// there stands before what was found.
pub proof fn law_earlier_directory_counts_first(
    found: Option<(usize, usize)>,
    present: Seq<Vec<bool>>,
    d: int,
    n: int,
)
    requires
        is_first_present(found, present),
        0 <= d < present.len(),
        0 <= n < present[d]@.len(),
        present[d]@[n],
    ensures
        found matches Some(place) && (place.0 < d || place.0 == d && place.1 <= n) && place.0
            < present.len() && place.1 < present[place.0 as int]@.len()
            && present[place.0 as int]@[place.1 as int],
{
    if let Some(place) = found {
        if searched_before((d, n), (place.0 as int, place.1 as int)) {
            assert(!present[d]@[n]);
        }
    }
}

/// A line that is no answer to the request, or that refuses it, gives the error that was read from it,
/// and limits that cannot be read give theirs.
pub proof fn law_failed_query_keeps_its_error(
    read: Result<QuotaStatus, QueryError>,
    line: Seq<char>,
    now: i64,
)
    requires
        is_quota_query(read, line, now),
    ensures
        response_read(line) matches Err(error) ==> (read matches Err(QueryError::Response(found))
            && found@ == error),
        response_read(line) is Ok ==> match read {
            Ok(status) => is_limits_reading(Ok(status), response_read(line)->Ok_0, now),
            Err(QueryError::Limits(error)) => is_limits_reading(
                Err(error),
                response_read(line)->Ok_0,
                now,
            ),
            Err(QueryError::Response(_)) => false,
        },
{
}

} // verus!
