//! What a refresh does and what is said of it: whether to write to the keyboard, the snapshots that
//! the window shows, and the lines of the log.

use crate::ccswitch::RelayBalance;
use crate::clock::{is_calendar_time, local_time_may_be, local_time_text};
use crate::consumption::{no_bars, ConsumptionChart, ConsumptionHistory};
use crate::keyboard::{build_static_frame, showable, shows, KeyboardError};
use crate::quota::{
    is_latest_chart, latest_consumption, quota_message, refresh_due, should_refresh, QuotaStatus,
    RecordedStatus,
};
use crate::text::{decimal, decimal_text};
use vstd::prelude::*;
use vstd::string::*;

verus! {

/// What a refresh came to.
#[derive(Clone, Copy, Debug, PartialEq, Eq)]
pub enum RefreshAction {
    Refreshed,
    SkippedThreshold,
}

/// The result of one query, and of the write that it may have led to.
#[derive(Debug)]
pub struct RefreshOutcome {
    pub status: QuotaStatus,
    pub action: RefreshAction,
    pub codex_command: String,
    pub checked_at: String,
}

impl Clone for RefreshOutcome {
    fn clone(&self) -> (copy: RefreshOutcome)
        ensures
            copy == *self,
    {
        RefreshOutcome {
            status: self.status.clone(),
            action: self.action,
            codex_command: self.codex_command.clone(),
            checked_at: self.checked_at.clone(),
        }
    }
}

/// A count of hourglass cells, or `--`.
pub open spec fn cells_text(cells: Option<u8>) -> Seq<char> {
    match cells {
        Some(count) => decimal(count as nat),
        None => "--"@,
    }
}

/// Shows a count of hourglass cells.
pub fn reset_cells_text(cells: Option<u8>) -> (text: String)
    ensures
        text@ == cells_text(cells),
{
    match cells {
        Some(count) => decimal_text(count as u64),
        None => "--".to_owned(),
    }
}

/// One line on a refresh.
pub open spec fn summary_of(outcome: RefreshOutcome) -> Seq<char> {
    let message = quota_message(outcome.status.five_hour, outcome.status.seven_day);
    match (outcome.status.relay, outcome.action) {
        (Some(relay), RefreshAction::Refreshed) => outcome.checked_at@ + " "@ + relay.name@ + "："@
            + message + "，"@ + "已刷新键盘"@ + "；"@ + relay.detail@,
        (Some(relay), RefreshAction::SkippedThreshold) => outcome.checked_at@ + " "@ + relay.name@
            + "："@ + message + "，"@ + "变化未达阈值，未写键盘"@ + "；"@ + relay.detail@,
        (None, RefreshAction::Refreshed) => outcome.checked_at@ + " 已刷新键盘："@ + message
            + "，沙漏 "@ + cells_text(outcome.status.reset_cells) + " 格"@,
        (None, RefreshAction::SkippedThreshold) => outcome.checked_at@ + " 已检测："@ + message
            + "，变化未达阈值，未写键盘"@,
    }
}

impl RefreshOutcome {
    /// One line on the refresh, for the window or the log.
    pub fn summary(&self) -> (text: String)
        ensures
            text@ == summary_of(*self),
    {
        let message = self.status.display_message();
        let mut text = self.checked_at.clone();
        match &self.status.relay {
            Some(relay) => {
                text.append(" ");
                text.append(relay.name.as_str());
                text.append("：");
                text.append(message.as_str());
                text.append("，");
                match self.action {
                    RefreshAction::Refreshed => {
                        text.append("已刷新键盘");
                    },
                    RefreshAction::SkippedThreshold => {
                        text.append("变化未达阈值，未写键盘");
                    },
                }
                text.append("；");
                text.append(relay.detail.as_str());
            },
            None => match self.action {
                RefreshAction::Refreshed => {
                    text.append(" 已刷新键盘：");
                    text.append(message.as_str());
                    text.append("，沙漏 ");
                    text.append(reset_cells_text(self.status.reset_cells).as_str());
                    text.append(" 格");
                },
                RefreshAction::SkippedThreshold => {
                    text.append(" 已检测：");
                    text.append(message.as_str());
                    text.append("，变化未达阈值，未写键盘");
                },
            },
        }
        text
    }
}

/// What the window shows of the connections and the quota.
#[derive(Debug)]
pub struct SystemSnapshot {
    pub keyboard_connected: bool,
    pub keyboard_detail: String,
    pub codex_connected: bool,
    pub codex_detail: String,
    pub deployed: bool,
    pub quota: Option<QuotaStatus>,
    pub checked_at: String,
    pub last_result: String,
}

impl Clone for SystemSnapshot {
    fn clone(&self) -> (copy: SystemSnapshot)
        ensures
            copy == *self,
    {
        SystemSnapshot {
            keyboard_connected: self.keyboard_connected,
            keyboard_detail: self.keyboard_detail.clone(),
            codex_connected: self.codex_connected,
            codex_detail: self.codex_detail.clone(),
            deployed: self.deployed,
            quota: match &self.quota {
                Some(status) => Some(status.clone()),
                None => None,
            },
            checked_at: self.checked_at.clone(),
            last_result: self.last_result.clone(),
        }
    }
}

/// What the window shows of the keyboard: the frame that was written last, and the relay with the
/// chart of the latest samples, which may be newer than the frame.
#[derive(Debug)]
pub struct DisplaySnapshot {
    pub frame: Option<Vec<u8>>,
    pub relay: Option<RelayBalance>,
}

impl Clone for DisplaySnapshot {
    fn clone(&self) -> (copy: DisplaySnapshot)
        ensures
            copy.relay == self.relay,
            match (copy.frame, self.frame) {
                (Some(left), Some(right)) => left@ == right@,
                (None, None) => true,
                _ => false,
            },
    {
        DisplaySnapshot {
            frame: match &self.frame {
                Some(frame) => Some(frame.clone()),
                None => None,
            },
            relay: match &self.relay {
                Some(relay) => Some(relay.clone()),
                None => None,
            },
        }
    }
}

/// The status that a record stands for.
pub open spec fn recorded_as(record: RecordedStatus) -> QuotaStatus {
    QuotaStatus {
        relay: record.relay,
        five_hour: record.five_hour,
        seven_day: record.seven_day,
        reset_cells: record.reset_cells,
        seven_day_resets_at: None,
    }
}

/// Whether a relay is another with a given chart, or with an empty one.
pub open spec fn has_chart(
    shown: RelayBalance,
    relay: RelayBalance,
    chart: Option<ConsumptionChart>,
) -> bool {
    &&& shown.provider_id == relay.provider_id
    &&& shown.name == relay.name
    &&& shown.remaining == relay.remaining
    &&& shown.unit == relay.unit
    &&& shown.detail == relay.detail
    &&& match chart {
        Some(latest) => shown.chart == latest,
        None => shown.chart.end_at == 0 && shown.chart.bars@ == no_bars(),
    }
}

/// Whether a snapshot shows the frame of a record, and its relay with a given chart.
pub open spec fn is_display(
    snapshot: DisplaySnapshot,
    record: RecordedStatus,
    chart: Option<ConsumptionChart>,
) -> bool {
    &&& snapshot.frame matches Some(frame) && shows(frame@, recorded_as(record))
    &&& match record.relay {
        Some(relay) => snapshot.relay matches Some(shown) && has_chart(shown, relay, chart),
        None => snapshot.relay is None,
    }
}

/// Rebuilds the frame from what was recorded, and only then puts in the latest chart, so that a
/// sample that was never written is not taken for the frame.
pub fn assemble_display_snapshot(
    recorded: Option<RecordedStatus>,
    chart: Option<ConsumptionChart>,
) -> (assembled: Result<DisplaySnapshot, KeyboardError>)
    ensures
        match recorded {
            None => assembled == Ok::<DisplaySnapshot, KeyboardError>(
                (DisplaySnapshot { frame: None, relay: None }),
            ),
            Some(record) => if showable(recorded_as(record)) {
                assembled matches Ok(snapshot) && is_display(snapshot, record, chart)
            } else {
                assembled == Err::<DisplaySnapshot, KeyboardError>(KeyboardError::TooManyCells)
            },
        },
{
    let record = match recorded {
        None => {
            return Ok(DisplaySnapshot { frame: None, relay: None });
        },
        Some(record) => record,
    };
    let status = QuotaStatus {
        relay: record.relay,
        five_hour: record.five_hour,
        seven_day: record.seven_day,
        reset_cells: record.reset_cells,
        seven_day_resets_at: None,
    };
    let frame = match build_static_frame(&status) {
        Err(error) => {
            return Err(error);
        },
        Ok(frame) => frame,
    };
    let relay = match status.relay {
        Some(relay) => {
            let mut shown = relay;
            shown.chart = match chart {
                Some(latest) => latest,
                None => ConsumptionChart::default(),
            };
            Some(shown)
        },
        None => None,
    };
    Ok(DisplaySnapshot { frame: Some(frame), relay })
}

/// Why a refresh did not start.
#[derive(Clone, Copy, Debug, PartialEq, Eq)]
pub enum LockError {
    Refreshing,
    Reading,
}

impl LockError {
    pub open spec fn described(self) -> Seq<char> {
        match self {
            LockError::Refreshing => "另一个刷新进程正在运行，请稍后重试"@,
            LockError::Reading => "后台正在刷新，稍后同步"@,
        }
    }

    /// The error as a message.
    pub fn message(&self) -> (text: String)
        ensures
            text@ == self.described(),
    {
        match self {
            LockError::Refreshing => "另一个刷新进程正在运行，请稍后重试".to_owned(),
            LockError::Reading => "后台正在刷新，稍后同步".to_owned(),
        }
    }
}

/// Why there is nothing to show.
#[derive(Clone, Copy, Debug, PartialEq, Eq)]
pub enum DisplayError {
    Busy(LockError),
    Frame(KeyboardError),
}

impl DisplayError {
    pub open spec fn described(self) -> Seq<char> {
        match self {
            DisplayError::Busy(error) => error.described(),
            DisplayError::Frame(error) => error.described(),
        }
    }

    /// The error as a message.
    pub fn message(&self) -> (text: String)
        ensures
            text@ == self.described(),
    {
        match self {
            DisplayError::Busy(error) => error.message(),
            DisplayError::Frame(error) => error.message(),
        }
    }
}

/// Whether a snapshot shows what was recorded, with the latest chart of a history beside it.
pub open spec fn is_latest_display(
    snapshot: DisplaySnapshot,
    record: RecordedStatus,
    history: Option<&ConsumptionHistory>,
) -> bool {
    &&& snapshot.frame matches Some(frame) && shows(frame@, recorded_as(record))
    &&& match record.relay {
        Some(relay) => snapshot.relay matches Some(shown) && has_chart(
            shown,
            relay,
            Some(shown.chart),
        ) && is_latest_chart(shown.chart, history),
        None => snapshot.relay is None,
    }
}

/// What the window shows of the keyboard, read under the lock of a refresh; without the lock the
/// window keeps what it has. The frame is the recorded one; the chart is that of the latest samples.
pub fn read_display_snapshot(
    locked: bool,
    recorded: Option<RecordedStatus>,
    history: Option<&ConsumptionHistory>,
) -> (read: Result<DisplaySnapshot, DisplayError>)
    ensures
        if !locked {
            read == Err::<DisplaySnapshot, DisplayError>(DisplayError::Busy(LockError::Reading))
        } else {
            match recorded {
                None => read == Ok::<DisplaySnapshot, DisplayError>(
                    (DisplaySnapshot { frame: None, relay: None }),
                ),
                Some(record) => match read {
                    Ok(snapshot) => showable(recorded_as(record)) && is_latest_display(
                        snapshot,
                        record,
                        history,
                    ),
                    Err(error) => !showable(recorded_as(record)) && error == DisplayError::Frame(
                        KeyboardError::TooManyCells,
                    ),
                },
            }
        },
{
    if !locked {
        return Err(DisplayError::Busy(LockError::Reading));
    }
    match assemble_display_snapshot(recorded, Some(latest_consumption(history))) {
        Ok(snapshot) => Ok(snapshot),
        Err(error) => Err(DisplayError::Frame(error)),
    }
}

/// What a refresh has to do with the keyboard.
#[derive(Debug)]
pub enum RefreshPlan {
    Skip,
    Write(Vec<u8>),
}

/// Whether a plan, or an error, is the one for a status.
pub open spec fn is_refresh_plan(
    plan: Result<RefreshPlan, KeyboardError>,
    force: bool,
    status: QuotaStatus,
    recorded: Option<RecordedStatus>,
) -> bool {
    if !force && !refresh_due(status, recorded) {
        plan matches Ok(RefreshPlan::Skip)
    } else if showable(status) {
        plan matches Ok(RefreshPlan::Write(frame)) && shows(frame@, status)
    } else {
        plan == Err::<RefreshPlan, KeyboardError>(KeyboardError::TooManyCells)
    }
}

/// Decides on a refresh: a forced one always writes, another one only when the status has moved far
/// enough from what is recorded.
pub fn refresh_once(force: bool, status: &QuotaStatus, recorded: Option<&RecordedStatus>) -> (plan: Result<
    RefreshPlan,
    KeyboardError,
>)
    ensures
        is_refresh_plan(
            plan,
            force,
            *status,
            match recorded {
                Some(record) => Some(*record),
                None => None,
            },
        ),
{
    if !force && !should_refresh(status, recorded) {
        return Ok(RefreshPlan::Skip);
    }
    match build_static_frame(status) {
        Ok(frame) => Ok(RefreshPlan::Write(frame)),
        Err(error) => Err(error),
    }
}

/// Whether a status with its source is that of a relay; there is none without a relay.
pub open spec fn is_relay_quota(
    quota: Option<(QuotaStatus, String)>,
    relay: Option<RelayBalance>,
) -> bool {
    match relay {
        None => quota is None,
        Some(balance) => quota matches Some(pair) && pair.0 == (QuotaStatus {
            relay,
            five_hour: None,
            seven_day: None,
            seven_day_resets_at: None,
            reset_cells: None,
        }) && pair.1@ == "CCSwitch / "@ + balance.name@ + "："@ + balance.detail@,
    }
}

/// Turns the balance of a relay into a status and a text on where it comes from; without a relay
/// the official account has to be asked. A relay without a balance stays a relay.
pub fn relay_quota(relay: Option<RelayBalance>) -> (quota: Option<(QuotaStatus, String)>)
    ensures
        is_relay_quota(quota, relay),
{
    match relay {
        None => None,
        Some(balance) => {
            let mut source = "CCSwitch / ".to_owned();
            source.append(balance.name.as_str());
            source.append("：");
            source.append(balance.detail.as_str());
            let status = QuotaStatus {
                relay: Some(balance),
                five_hour: None,
                seven_day: None,
                seven_day_resets_at: None,
                reset_cells: None,
            };
            Some((status, source))
        },
    }
}

/// Whether the source of a status counts as connected: a relay needs a balance.
pub open spec fn is_connected(status: QuotaStatus) -> bool {
    status.relay matches Some(relay) ==> relay.remaining is Some
}

fn check_connected(status: &QuotaStatus) -> (connected: bool)
    ensures
        connected == is_connected(*status),
{
    match &status.relay {
        Some(relay) => relay.remaining.is_some(),
        None => true,
    }
}

/// What is said of the keyboard.
pub open spec fn keyboard_text(found: Result<bool, String>) -> Seq<char> {
    match found {
        Ok(true) => "DP-104 厂商 HID 已连接"@,
        Ok(false) => "未发现 DP-104 厂商 HID"@,
        Err(error) => "HID 检测失败："@ + error@,
    }
}

fn describe_keyboard(found: &Result<bool, String>) -> (text: String)
    ensures
        text@ == keyboard_text(*found),
{
    match found {
        Ok(true) => "DP-104 厂商 HID 已连接".to_owned(),
        Ok(false) => "未发现 DP-104 厂商 HID".to_owned(),
        Err(error) => {
            let mut text = "HID 检测失败：".to_owned();
            text.append(error.as_str());
            text
        },
    }
}

/// Whether a snapshot puts some findings together.
pub open spec fn is_collected(
    snapshot: SystemSnapshot,
    checked_at: String,
    keyboard: Result<bool, String>,
    quota: Result<(QuotaStatus, String), String>,
    deployed: bool,
) -> bool {
    &&& snapshot.keyboard_connected == (keyboard == Ok::<bool, String>(true))
    &&& snapshot.keyboard_detail@ == keyboard_text(keyboard)
    &&& snapshot.deployed == deployed
    &&& snapshot.checked_at == checked_at
    &&& match quota {
        Ok(pair) => {
            &&& snapshot.codex_connected == is_connected(pair.0)
            &&& snapshot.codex_detail == pair.1
            &&& snapshot.quota == Some(pair.0)
            &&& snapshot.last_result@ == "已读取当前账号额度："@ + quota_message(
                pair.0.five_hour,
                pair.0.seven_day,
            )
        },
        Err(error) => {
            &&& !snapshot.codex_connected
            &&& snapshot.codex_detail@ == "Codex 查询失败："@ + error@
            &&& snapshot.quota is None
            &&& snapshot.last_result@ == "Codex 查询失败："@ + error@
        },
    }
}

/// Puts the findings together; one that failed does not hide the others.
pub fn collect_system_snapshot(
    checked_at: String,
    keyboard: Result<bool, String>,
    quota: Result<(QuotaStatus, String), String>,
    deployed: bool,
) -> (snapshot: SystemSnapshot)
    ensures
        is_collected(snapshot, checked_at, keyboard, quota, deployed),
{
    let keyboard_detail = describe_keyboard(&keyboard);
    let keyboard_connected = match keyboard {
        Ok(found) => found,
        Err(_) => false,
    };
    match quota {
        Ok(pair) => {
            let mut last_result = "已读取当前账号额度：".to_owned();
            last_result.append(pair.0.display_message().as_str());
            let codex_connected = check_connected(&pair.0);
            SystemSnapshot {
                keyboard_connected,
                keyboard_detail,
                codex_connected,
                codex_detail: pair.1,
                deployed,
                quota: Some(pair.0),
                checked_at,
                last_result,
            }
        },
        Err(error) => {
            let mut detail = "Codex 查询失败：".to_owned();
            detail.append(error.as_str());
            SystemSnapshot {
                keyboard_connected,
                keyboard_detail,
                codex_connected: false,
                codex_detail: detail.clone(),
                deployed,
                quota: None,
                checked_at,
                last_result: detail,
            }
        },
    }
}

/// Whether a snapshot is the one after a write to the keyboard.
pub open spec fn is_after_write(
    snapshot: SystemSnapshot,
    outcome: RefreshOutcome,
    deployed: bool,
) -> bool {
    &&& snapshot.keyboard_connected
    &&& snapshot.keyboard_detail@ == "DP-104 HID 写入及回显校验成功"@
    &&& snapshot.codex_connected == is_connected(outcome.status)
    &&& snapshot.codex_detail@ == outcome.codex_command@
    &&& snapshot.deployed == deployed
    &&& snapshot.quota == Some(outcome.status)
    &&& snapshot.checked_at@ == outcome.checked_at@
    &&& snapshot.last_result@ == summary_of(outcome)
}

/// The snapshot after a write to the keyboard, without asking again.
pub fn snapshot_from_refresh(outcome: &RefreshOutcome, deployed: bool) -> (snapshot: SystemSnapshot)
    ensures
        is_after_write(snapshot, *outcome, deployed),
{
    SystemSnapshot {
        keyboard_connected: true,
        keyboard_detail: "DP-104 HID 写入及回显校验成功".to_owned(),
        codex_connected: check_connected(&outcome.status),
        codex_detail: outcome.codex_command.clone(),
        deployed,
        quota: Some(outcome.status.clone()),
        checked_at: outcome.checked_at.clone(),
        last_result: outcome.summary(),
    }
}

/// What a refresh in the background leaves behind.
#[derive(Debug)]
pub struct BackgroundReport {
    pub log: Option<String>,
    pub success: bool,
}

/// The line of the log on an error.
pub fn record_background_error(time: &str, message: &str) -> (line: String)
    ensures
        line@ == time@ + " "@ + message@,
{
    let mut line = time.to_owned();
    line.append(" ");
    line.append(message);
    line
}

/// Whether a report is the one on a refresh in the background.
pub open spec fn is_report(
    report: BackgroundReport,
    result: Result<RefreshOutcome, String>,
    time: Seq<char>,
) -> bool {
    match result {
        Ok(outcome) => report.success && match outcome.action {
            RefreshAction::Refreshed => report.log matches Some(line) && line@ == summary_of(outcome),
            RefreshAction::SkippedThreshold => report.log is None,
        },
        Err(error) => !report.success && (report.log matches Some(line) && line@ == time + " "@ + (
        "刷新失败："@ + error@)),
    }
}

/// Reports on a refresh in the background: only a write and an error go to the log.
pub fn run_background_refresh(result: Result<RefreshOutcome, String>, time: &str) -> (report:
    BackgroundReport)
    ensures
        is_report(report, result, time@),
{
    match result {
        Ok(outcome) => match outcome.action {
            RefreshAction::Refreshed => BackgroundReport {
                log: Some(outcome.summary()),
                success: true,
            },
            RefreshAction::SkippedThreshold => BackgroundReport { log: None, success: true },
        },
        Err(error) => {
            let mut message = "刷新失败：".to_owned();
            message.append(error.as_str());
            BackgroundReport { log: Some(record_background_error(time, message.as_str())), success: false }
        },
    }
}

/// A time as it is shown, in the time zone of the machine; `None` beyond the calendar.
pub fn time_text(timestamp: i64) -> (text: Option<String>)
    ensures
        match text {
            Some(shown) => is_calendar_time(timestamp) && local_time_may_be(
                timestamp,
                "%Y-%m-%d %H:%M:%S"@,
                shown@,
            ),
            None => !is_calendar_time(timestamp),
        },
{
    local_time_text(timestamp, "%Y-%m-%d %H:%M:%S")
}

/// A chart that was sampled but never written does not change the frame that is shown.
pub proof fn law_frame_is_what_was_written(
    record: RecordedStatus,
    first_chart: Option<ConsumptionChart>,
    first: DisplaySnapshot,
    second_chart: Option<ConsumptionChart>,
    second: DisplaySnapshot,
)
    requires
        is_display(first, record, first_chart),
        is_display(second, record, second_chart),
    ensures
        first.frame->0@ == second.frame->0@,
{
    crate::keyboard::law_status_fixes_the_frame(
        first.frame->0@,
        second.frame->0@,
        recorded_as(record),
    );
}

/// A relay without a balance shows `--` and counts as not connected; it is never replaced by the
/// official quota.
pub proof fn law_relay_without_balance_stays_a_relay(relay: RelayBalance, status: QuotaStatus)
    requires
        relay.remaining is None,
        status.relay == Some(relay),
    ensures
        !is_connected(status),
        crate::ccswitch::balance_text(status.relay->0.remaining) == "--"@,
        showable(status),
{
}

/// A forced refresh writes whatever is recorded, and so does the first one. A status that is shown
/// already is not written again unless that is forced. What is written shows the status.
pub proof fn law_refresh_writes_when_forced_or_new(
    plan: Result<RefreshPlan, KeyboardError>,
    force: bool,
    status: QuotaStatus,
    recorded: Option<RecordedStatus>,
)
    requires
        is_refresh_plan(plan, force, status, recorded),
        status.relay is Some || status.reset_cells is None || status.reset_cells->0 <= 10,
    ensures
        force || recorded is None ==> (plan matches Ok(RefreshPlan::Write(frame)) && shows(
            frame@,
            status,
        )),
        !force && recorded is Some && recorded->0.relay == status.relay && recorded->0.five_hour
            == status.five_hour && recorded->0.seven_day == status.seven_day ==> plan == Ok::<
            RefreshPlan,
            KeyboardError,
        >(RefreshPlan::Skip),
        plan is Ok,
        plan matches Ok(RefreshPlan::Write(frame)) ==> shows(frame@, status),
{
}

/// An hourglass of more than ten cells is refused, and nothing is written.
pub proof fn law_too_many_cells_are_refused(
    plan: Result<RefreshPlan, KeyboardError>,
    status: QuotaStatus,
    recorded: Option<RecordedStatus>,
)
    requires
        is_refresh_plan(plan, true, status, recorded),
        status.relay is None,
        status.reset_cells is Some,
        status.reset_cells->0 > 10,
    ensures
        plan == Err::<RefreshPlan, KeyboardError>(KeyboardError::TooManyCells),
{
}

/// A relay becomes a status of its own, without percentages and without an hourglass; only without a
/// relay is the official account asked.
pub proof fn law_relay_is_its_own_status(
    quota: Option<(QuotaStatus, String)>,
    relay: Option<RelayBalance>,
)
    requires
        is_relay_quota(quota, relay),
    ensures
        quota is None <==> relay is None,
        quota matches Some(pair) ==> {
            &&& pair.0.relay == relay
            &&& pair.0.five_hour is None
            &&& pair.0.seven_day is None
            &&& pair.0.seven_day_resets_at is None
            &&& pair.0.reset_cells is None
        },
{
}

/// A finding that failed does not hide the others: what is said of the keyboard does not depend on
/// the quota, nor the quota on the keyboard. A relay without a balance counts as not connected.
pub proof fn law_findings_stand_for_themselves(
    snapshot: SystemSnapshot,
    checked_at: String,
    keyboard: Result<bool, String>,
    quota: Result<(QuotaStatus, String), String>,
    deployed: bool,
)
    requires
        is_collected(snapshot, checked_at, keyboard, quota, deployed),
    ensures
        snapshot.keyboard_connected <==> (keyboard matches Ok(found) && found),
        snapshot.quota is Some <==> quota is Ok,
        quota matches Ok(pair) ==> snapshot.quota == Some(pair.0) && snapshot.codex_detail == pair.1,
        snapshot.codex_connected <==> (quota matches Ok(pair) && (pair.0.relay is None
            || pair.0.relay->0.remaining is Some)),
        snapshot.deployed == deployed,
        snapshot.checked_at == checked_at,
{
}

/// In the background a refresh that was skipped leaves nothing in the log; a write and an error
/// leave one line each, and only an error counts as a failure.
pub proof fn law_skipped_refresh_is_not_logged(
    report: BackgroundReport,
    result: Result<RefreshOutcome, String>,
    time: Seq<char>,
)
    requires
        is_report(report, result, time),
    ensures
        report.success <==> result is Ok,
        report.log is None <==> (result matches Ok(outcome) && outcome.action
            == RefreshAction::SkippedThreshold),
{
}

/// What the window shows of a relay is the recorded relay with the chart of the latest samples: the
/// completed periods and, last, the running one. The frame is the recorded one.
pub proof fn law_display_shows_the_latest_samples(
    snapshot: DisplaySnapshot,
    record: RecordedStatus,
    history: Option<&ConsumptionHistory>,
    i: int,
)
    requires
        is_latest_display(snapshot, record, history),
        0 <= i < 9,
    ensures
        snapshot.frame is Some,
        shows(
            snapshot.frame->0@,
            QuotaStatus {
                relay: record.relay,
                five_hour: record.five_hour,
                seven_day: record.seven_day,
                reset_cells: record.reset_cells,
                seven_day_resets_at: None,
            },
        ),
        snapshot.relay is Some <==> record.relay is Some,
        snapshot.relay matches Some(relay) ==> {
            &&& relay.provider_id == record.relay->0.provider_id
            &&& relay.remaining == record.relay->0.remaining
            &&& relay.unit == record.relay->0.unit
            &&& history is None ==> relay.chart.end_at == 0 && relay.chart.bars@[i] is None
                && relay.chart.bars@[9] is None
            &&& history is Some ==> {
                &&& relay.chart.end_at == history->0.chart.end_at
                &&& relay.chart.bars@[i] == history->0.chart.bars@[i + 1]
                &&& history->0.complete ==> relay.chart.bars@[9] == Some(history->0.consumed)
                &&& !history->0.complete ==> relay.chart.bars@[9] is None
            }
        },
{
}

/// After a write the keyboard counts as connected, and what is shown is what was written, without
/// asking again.
pub proof fn law_write_is_shown_without_asking(
    snapshot: SystemSnapshot,
    outcome: RefreshOutcome,
    deployed: bool,
)
    requires
        is_after_write(snapshot, outcome, deployed),
    ensures
        snapshot.keyboard_connected,
        snapshot.quota == Some(outcome.status),
        snapshot.codex_detail@ == outcome.codex_command@,
        snapshot.checked_at@ == outcome.checked_at@,
        snapshot.deployed == deployed,
        snapshot.codex_connected <==> outcome.status.relay is None
            || outcome.status.relay->0.remaining is Some,
{
}

/// The line on a refresh starts with its time, holds the percentages, and says that the keyboard was
/// written exactly where it was.
pub proof fn law_summary_says_what_was_done(outcome: RefreshOutcome)
    ensures
        ({
            let message = quota_message(outcome.status.five_hour, outcome.status.seven_day);
            let written = outcome.action == RefreshAction::Refreshed;
            match outcome.status.relay {
                Some(relay) => summary_of(outcome) == outcome.checked_at@ + " "@ + relay.name@ + "："@
                    + message + "，"@ + (if written {
                    "已刷新键盘"@
                } else {
                    "变化未达阈值，未写键盘"@
                }) + "；"@ + relay.detail@,
                None => if written {
                    summary_of(outcome) == outcome.checked_at@ + " 已刷新键盘："@ + message
                        + "，沙漏 "@ + cells_text(outcome.status.reset_cells) + " 格"@
                } else {
                    summary_of(outcome) == outcome.checked_at@ + " 已检测："@ + message
                        + "，变化未达阈值，未写键盘"@
                },
            }
        }),
        outcome.status.reset_cells matches Some(count) ==> cells_text(outcome.status.reset_cells)
            == decimal(count as nat),
{
}

} // verus!
