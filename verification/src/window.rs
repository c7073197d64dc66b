//! The state behind the window: which operation runs, what it came to, the text of the details, and
//! the texts, colours and pixels that are drawn.

use crate::ccswitch::{balance_text, RelayBalance};
use crate::clock::{is_calendar_time, local_time_may_be, local_time_text};
use crate::consumption::{running_bar, ConsumptionHistory, BAR_COUNT, WINDOW_SECONDS};
use crate::deploy::{RemovalResult, TASK_NAME};
use crate::quota::{is_latest_chart, is_reset_text, QuotaStatus};
use crate::service::{
    is_after_write, snapshot_from_refresh, summary_of, DisplaySnapshot, RefreshOutcome,
    SystemSnapshot,
};
use crate::text::{
    chars_of, decimal, decimal_text, is_digit, is_empty, lemma_decimal_denotes, padded_decimal,
    push_padded_decimal, text_of, trim_end_char, views, without_trailing,
};
use vstd::prelude::*;
use vstd::string::*;

verus! {

/// Details beyond this many bytes are cut.
pub const DETAILS_LIMIT: usize = 32_000;

/// How many bytes of the details are kept when they are cut.
pub const DETAILS_KEPT: usize = 24_000;

pub const ICON_SIZE: usize = 32;

/// An operation of the user.
#[derive(Clone, Copy, Debug, PartialEq, Eq)]
pub enum BackgroundTask {
    Probe,
    TestDisplay,
    Deploy,
    Remove,
}

impl BackgroundTask {
    pub open spec fn labelled(self) -> Seq<char> {
        match self {
            BackgroundTask::Probe => "检测状态"@,
            BackgroundTask::TestDisplay => "测试显示"@,
            BackgroundTask::Deploy => "一键部署"@,
            BackgroundTask::Remove => "一键移除"@,
        }
    }

    /// The name of the operation.
    pub fn label(self) -> (label: &'static str)
        ensures
            label@ == self.labelled(),
    {
        match self {
            BackgroundTask::Probe => "检测状态",
            BackgroundTask::TestDisplay => "测试显示",
            BackgroundTask::Deploy => "一键部署",
            BackgroundTask::Remove => "一键移除",
        }
    }
}

/// What an operation hands to the window when it is done.
#[derive(Debug)]
pub struct TaskCompletion {
    pub snapshot: Option<SystemSnapshot>,
    pub details: Vec<String>,
    pub exit_after: bool,
}

/// How many bytes a character takes in UTF-8.
pub open spec fn char_bytes(c: char) -> nat {
    if (c as int) < 0x80 {
        1
    } else if (c as int) < 0x800 {
        2
    } else if (c as int) < 0x1_0000 {
        3
    } else {
        4
    }
}

/// How many bytes a text takes in UTF-8.
pub open spec fn text_bytes(text: Seq<char>) -> nat
    decreases text.len(),
{
    if text.len() == 0 {
        0
    } else {
        char_bytes(text[0]) + text_bytes(text.drop_first())
    }
}

/// The longest end of a text that takes at most so many bytes.
pub open spec fn end_within(text: Seq<char>, limit: nat) -> Seq<char>
    decreases text.len(),
{
    if text_bytes(text) <= limit || text.len() == 0 {
        text
    } else {
        end_within(text.drop_first(), limit)
    }
}

/// Details with one more line, cut from the front when they have grown too long.
pub open spec fn with_line(details: Seq<char>, line: Seq<char>) -> Seq<char> {
    let longer = if details.len() == 0 {
        line
    } else {
        details + "\n"@ + line
    };
    if text_bytes(longer) > DETAILS_LIMIT {
        end_within(longer, DETAILS_KEPT as nat)
    } else {
        longer
    }
}

/// Details with some more lines.
pub open spec fn with_lines(details: Seq<char>, lines: Seq<Seq<char>>) -> Seq<char>
    decreases lines.len(),
{
    if lines.len() == 0 {
        details
    } else {
        with_line(with_lines(details, lines.drop_last()), lines.last())
    }
}

fn bytes_of_char(c: char) -> (count: u8)
    ensures
        count == char_bytes(c),
{
    let code: u32 = c as u32;
    if code < 0x80 {
        1
    } else if code < 0x800 {
        2
    } else if code < 0x1_0000 {
        3
    } else {
        4
    }
}

fn cut_details(text: String) -> (kept: String)
    ensures
        kept@ == if text_bytes(text@) > DETAILS_LIMIT {
            end_within(text@, DETAILS_KEPT as nat)
        } else {
            text@
        },
{
    let chars = chars_of(text.as_str());
    let mut total: u128 = 0;
    let mut i: usize = chars.len();
    assert(text@.skip(text@.len() as int) =~= Seq::empty());
    while i > 0
        invariant
            chars@ == text@,
            i <= chars.len(),
            total == text_bytes(text@.skip(i as int)),
            total <= 4 * (chars@.len() - i),
        decreases i,
    {
        i = i - 1;
        assert(text@.skip(i as int).drop_first() =~= text@.skip(i + 1));
        total = total + bytes_of_char(chars[i]) as u128;
    }
    assert(text@.skip(0) =~= text@);
    if total <= DETAILS_LIMIT as u128 {
        return text;
    }
    let mut from: usize = 0;
    while from < chars.len() && total > DETAILS_KEPT as u128
        invariant
            chars@ == text@,
            from <= chars.len(),
            total == text_bytes(text@.skip(from as int)),
            end_within(text@, DETAILS_KEPT as nat) == end_within(
                text@.skip(from as int),
                DETAILS_KEPT as nat,
            ),
        decreases chars.len() - from,
    {
        assert(text@.skip(from as int).drop_first() =~= text@.skip(from + 1));
        total = total - bytes_of_char(chars[from]) as u128;
        from = from + 1;
    }
    let mut kept: Vec<char> = Vec::new();
    for j in from..chars.len()
        invariant
            chars@ == text@,
            from <= j <= chars@.len(),
            kept@ == text@.subrange(from as int, j as int),
    {
        kept.push(chars[j]);
        assert(kept@ =~= text@.subrange(from as int, j + 1));
    }
    assert(text@.skip(from as int) =~= text@.subrange(from as int, text@.len() as int));
    text_of(kept.as_slice())
}

/// The state of the window.
#[derive(Debug)]
pub struct QuotaWindow {
    pub snapshot: Option<SystemSnapshot>,
    pub display: Option<DisplaySnapshot>,
    pub display_error: Option<String>,
    pub details: String,
    pub busy: bool,
    pub current_task: Option<BackgroundTask>,
    pub close_requested: bool,
    pub startup_repaints: u16,
}

/// What a frame of the window asks for: to be drawn again after a tenth of a second, to be drawn
/// again at once, or to be the last.
#[derive(Clone, Copy, Debug, PartialEq, Eq)]
pub struct FrameRequest {
    pub repaint_while_busy: bool,
    pub repaint_at_start: bool,
    pub close: bool,
}

/// Whether an operation runs exactly when it is known which.
pub open spec fn well_formed(window: QuotaWindow) -> bool {
    window.busy == (window.current_task is Some)
}

/// Whether a window has started an operation, or says that one is running.
pub open spec fn is_spawned(
    before: QuotaWindow,
    after: QuotaWindow,
    task: BackgroundTask,
    started: bool,
) -> bool {
    &&& started == !before.busy
    &&& started ==> {
        &&& after.busy
        &&& after.current_task == Some(task)
        &&& after.details@ == with_line(before.details@, "开始："@ + task.labelled())
    }
    &&& !started ==> {
        &&& after.busy
        &&& after.current_task == before.current_task
        &&& after.details@ == with_line(before.details@, "已有操作正在执行，请等待完成。"@)
    }
    &&& after.snapshot == before.snapshot
    &&& after.display == before.display
    &&& after.display_error == before.display_error
    &&& after.close_requested == before.close_requested
    &&& after.startup_repaints == before.startup_repaints
}

/// Whether a window has taken in what an operation came to.
pub open spec fn is_polled(
    before: QuotaWindow,
    after: QuotaWindow,
    result: Result<TaskCompletion, String>,
) -> bool {
    &&& !after.busy
    &&& after.current_task is None
    &&& after.display == before.display
    &&& after.display_error == before.display_error
    &&& after.startup_repaints == before.startup_repaints
    &&& match result {
        Ok(completion) => {
            &&& after.snapshot == if completion.snapshot is Some {
                completion.snapshot
            } else {
                before.snapshot
            }
            &&& after.close_requested == completion.exit_after
            &&& after.details@ == match before.current_task {
                Some(task) => with_line(
                    with_lines(before.details@, views(completion.details@)),
                    "完成："@ + task.labelled(),
                ),
                None => with_lines(before.details@, views(completion.details@)),
            }
        },
        Err(error) => {
            &&& after.snapshot == before.snapshot
            &&& after.close_requested == before.close_requested
            &&& after.details@ == with_line(
                before.details@,
                (match before.current_task {
                    Some(task) => task.labelled(),
                    None => "后台操作"@,
                }) + "失败："@ + error@,
            )
        },
    }
}

/// Whether a frame of a window asks for this, and leaves the window like this.
pub open spec fn is_updated(before: QuotaWindow, after: QuotaWindow, request: FrameRequest) -> bool {
    &&& request.repaint_while_busy == before.busy
    &&& request.repaint_at_start == (before.startup_repaints > 0)
    &&& request.close == before.close_requested
    &&& after.startup_repaints == if before.startup_repaints > 0 {
        before.startup_repaints - 1
    } else {
        0
    }
    &&& after.snapshot == before.snapshot
    &&& after.display == before.display
    &&& after.display_error == before.display_error
    &&& after.details == before.details
    &&& after.busy == before.busy
    &&& after.current_task == before.current_task
    &&& after.close_requested == before.close_requested
}

/// Whether a window has taken in what was read of the keyboard.
pub open spec fn is_received(
    before: QuotaWindow,
    after: QuotaWindow,
    result: Result<DisplaySnapshot, String>,
) -> bool {
    &&& match result {
        Ok(display) => after.display == Some(display) && after.display_error is None,
        Err(error) => after.display == before.display && after.display_error == Some(error),
    }
    &&& after.snapshot == before.snapshot
    &&& after.details@ == before.details@
    &&& after.busy == before.busy
    &&& after.current_task == before.current_task
    &&& after.close_requested == before.close_requested
    &&& after.startup_repaints == before.startup_repaints
}

impl QuotaWindow {
    /// A window that has just been opened.
    pub fn new(version: &str, font_message: &str) -> (window: QuotaWindow)
        ensures
            window.snapshot is None,
            window.display is None,
            window.display_error is None,
            window.details@ == "Codex 键盘额度工具 v"@ + version@ + " 已启动。\n"@ + font_message@,
            !window.busy,
            window.current_task is None,
            !window.close_requested,
            window.startup_repaints == 180,
            well_formed(window),
    {
        let mut details = "Codex 键盘额度工具 v".to_owned();
        details.append(version);
        details.append(" 已启动。\n");
        details.append(font_message);
        QuotaWindow {
            snapshot: None,
            display: None,
            display_error: None,
            details,
            busy: false,
            current_task: None,
            close_requested: false,
            startup_repaints: 180,
        }
    }

    /// Adds a line to the details and keeps them from growing without end.
    pub fn append_detail(&mut self, message: &str)
        ensures
            final(self).details@ == with_line(old(self).details@, message@),
            final(self).snapshot == old(self).snapshot,
            final(self).display == old(self).display,
            final(self).display_error == old(self).display_error,
            final(self).busy == old(self).busy,
            final(self).current_task == old(self).current_task,
            final(self).close_requested == old(self).close_requested,
            final(self).startup_repaints == old(self).startup_repaints,
    {
        let mut longer = self.details.clone();
        if !is_empty(longer.as_str()) {
            longer.append("\n");
        } else {
            assert(longer@ + message@ =~= message@);
        }
        longer.append(message);
        self.details = cut_details(longer);
    }

    /// Starts an operation, unless one is running; says whether it started.
    pub fn spawn_task(&mut self, task: BackgroundTask) -> (started: bool)
        ensures
            is_spawned(*old(self), *final(self), task, started),
            well_formed(*old(self)) ==> well_formed(*final(self)),
    {
        if self.busy {
            self.append_detail("已有操作正在执行，请等待完成。");
            return false;
        }
        self.busy = true;
        self.current_task = Some(task);
        let mut line = "开始：".to_owned();
        line.append(task.label());
        self.append_detail(line.as_str());
        true
    }

    /// Takes in what an operation came to.
    pub fn poll_worker(&mut self, result: Result<TaskCompletion, String>)
        ensures
            is_polled(*old(self), *final(self), result),
            well_formed(*final(self)),
    {
        let task = self.current_task;
        self.busy = false;
        self.current_task = None;
        match result {
            Ok(completion) => {
                if completion.snapshot.is_some() {
                    self.snapshot = completion.snapshot;
                }
                let lines = completion.details;
                let ghost all = views(lines@);
                let ghost before = self.details@;
                let ghost shown = self.snapshot;
                assert(all.take(0) =~= Seq::empty());
                for i in 0..lines.len()
                    invariant
                        all == views(lines@),
                        self.details@ == with_lines(before, all.take(i as int)),
                        !self.busy,
                        self.current_task is None,
                        self.snapshot == shown,
                        self.display == old(self).display,
                        self.display_error == old(self).display_error,
                        self.close_requested == old(self).close_requested,
                        self.startup_repaints == old(self).startup_repaints,
                {
                    let ghost front = all.take(i + 1);
                    assert(front.drop_last() =~= all.take(i as int));
                    assert(front.last() == lines@[i as int]@);
                    self.append_detail(lines[i].as_str());
                }
                assert(all.take(lines@.len() as int) =~= all);
                match task {
                    Some(done) => {
                        let mut line = "完成：".to_owned();
                        line.append(done.label());
                        self.append_detail(line.as_str());
                    },
                    None => {},
                }
                self.close_requested = completion.exit_after;
            },
            Err(error) => {
                let mut line = match task {
                    Some(failed) => failed.label().to_owned(),
                    None => "后台操作".to_owned(),
                };
                line.append("失败：");
                line.append(error.as_str());
                self.append_detail(line.as_str());
            },
        }
    }

    /// Decides what a frame of the window asks for; the first frames after the start ask to be drawn
    /// again soon.
    pub fn update(&mut self) -> (request: FrameRequest)
        ensures
            is_updated(*old(self), *final(self), request),
    {
        let starting = self.startup_repaints > 0;
        if starting {
            self.startup_repaints = self.startup_repaints - 1;
        }
        FrameRequest {
            repaint_while_busy: self.busy,
            repaint_at_start: starting,
            close: self.close_requested,
        }
    }

    /// Takes in what was read of the keyboard; an error leaves the last picture in place.
    pub fn receive_display(&mut self, result: Result<DisplaySnapshot, String>)
        ensures
            is_received(*old(self), *final(self), result),
    {
        match result {
            Ok(display) => {
                self.display = Some(display);
                self.display_error = None;
            },
            Err(error) => {
                self.display_error = Some(error);
            },
        }
    }
}

/// An amount of millionths in decimal, without zeros at the end; `--` where there is none.
pub open spec fn amount_text(amount: Option<u64>) -> Seq<char> {
    match amount {
        None => "--"@,
        Some(value) => if value % 1_000_000 == 0 {
            decimal((value / 1_000_000) as nat)
        } else {
            decimal((value / 1_000_000) as nat) + "."@ + without_trailing(
                padded_decimal((value % 1_000_000) as nat, 6),
                '0',
            )
        },
    }
}

/// Shows an amount of millionths in full.
pub fn consumption_text(amount: Option<u64>) -> (text: String)
    ensures
        text@ == amount_text(amount),
{
    match amount {
        None => "--".to_owned(),
        Some(value) => {
            let mut text = decimal_text(value / 1_000_000);
            let rest: u64 = value % 1_000_000;
            if rest != 0 {
                let mut fraction = String::new();
                push_padded_decimal(&mut fraction, rest, 6);
                assert(fraction@ =~= padded_decimal(rest as nat, 6));
                text.append(".");
                text.append(trim_end_char(fraction.as_str(), '0').as_str());
            }
            text
        },
    }
}

/// Whether a text is the label of a time: the time in a pattern, or that it is beyond the calendar.
pub open spec fn is_time_label(timestamp: i64, pattern: Seq<char>, text: Seq<char>) -> bool {
    if is_calendar_time(timestamp) {
        local_time_may_be(timestamp, pattern, text)
    } else {
        text == "无效时间"@
    }
}

/// A time in hours and minutes, in the time zone of the machine.
pub fn period_time(timestamp: i64) -> (text: String)
    ensures
        is_time_label(timestamp, "%H:%M"@, text@),
{
    match local_time_text(timestamp, "%H:%M") {
        Some(text) => text,
        None => "无效时间".to_owned(),
    }
}

/// A time with its date, in the time zone of the machine.
pub fn period_date(timestamp: i64) -> (text: String)
    ensures
        is_time_label(timestamp, "%Y-%m-%d %H:%M"@, text@),
{
    match local_time_text(timestamp, "%Y-%m-%d %H:%M") {
        Some(text) => text,
        None => "无效时间".to_owned(),
    }
}

/// The start of the period in a column; the last column starts where the chart ends.
pub open spec fn column_start(end_at: int, column: int) -> int {
    end_at - (BAR_COUNT - 1 - column) * WINDOW_SECONDS
}

/// Whether all columns of a chart lie within the times that can be expressed.
pub open spec fn has_columns(end_at: i64) -> bool {
    i64::MIN <= end_at - (BAR_COUNT - 1) * WINDOW_SECONDS && end_at + WINDOW_SECONDS <= i64::MAX
}

/// Tests whether all columns of a chart lie within the times that can be expressed; a restored chart
/// may hold any time.
pub fn check_columns(end_at: i64) -> (possible: bool)
    ensures
        possible == has_columns(end_at),
{
    let end: i128 = end_at as i128;
    let period: i128 = WINDOW_SECONDS as i128;
    i64::MIN as i128 <= end - 9 * period && end + period <= i64::MAX as i128
}

/// Finds the start of the period in a column.
pub fn period_start(end_at: i64, column: usize) -> (start: i64)
    requires
        column < BAR_COUNT,
        has_columns(end_at),
    ensures
        start == column_start(end_at as int, column as int),
{
    end_at - (BAR_COUNT - 1 - column) as i64 * WINDOW_SECONDS
}

/// Finds the end of the period in a column.
pub fn period_end(end_at: i64, column: usize) -> (end: i64)
    requires
        column < BAR_COUNT,
        has_columns(end_at),
    ensures
        end == column_start(end_at as int, column as int) + WINDOW_SECONDS,
{
    period_start(end_at, column) + WINDOW_SECONDS
}

/// Whether a chart is older than a period.
pub fn is_stale(now: i64, end_at: i64) -> (stale: bool)
    ensures
        stale == (now >= end_at + WINDOW_SECONDS),
{
    now as i128 >= end_at as i128 + WINDOW_SECONDS as i128
}

/// How good a percentage is.
#[derive(Clone, Copy, Debug, PartialEq, Eq)]
pub enum QuotaLevel {
    Good,
    Fair,
    Low,
}

/// The level of a percentage; no limit is good.
pub fn quota_level(value: Option<u8>) -> (level: QuotaLevel)
    ensures
        level == level_of_quota(value),
{
    match value {
        None => QuotaLevel::Good,
        Some(percent) => if percent >= 60 {
            QuotaLevel::Good
        } else if percent >= 20 {
            QuotaLevel::Fair
        } else {
            QuotaLevel::Low
        },
    }
}

/// A percentage as the window shows it, at most 99.
pub fn quota_text(value: Option<u8>) -> (text: String)
    ensures
        text@ == shown_quota(value),
{
    match value {
        None => "--".to_owned(),
        Some(percent) => {
            let shown: u64 = if percent > 99 {
                99
            } else {
                percent as u64
            };
            let mut text = decimal_text(shown);
            text.append("%");
            text
        },
    }
}

/// The hourglass as the window shows it.
pub fn hourglass_text(cells: Option<u8>) -> (text: String)
    ensures
        text@ == shown_hourglass(cells),
{
    match cells {
        None => "--".to_owned(),
        Some(count) => {
            let mut text = decimal_text(count as u64);
            text.append(" / 10 格");
            text
        },
    }
}

/// The word for a connection; without one it is still being looked for.
pub fn connection_text(state: Option<bool>) -> (text: &'static str)
    ensures
        text@ == match state {
            Some(true) => "正常"@,
            Some(false) => "异常"@,
            None => "检测中"@,
        },
{
    match state {
        Some(true) => "正常",
        Some(false) => "异常",
        None => "检测中",
    }
}

/// One column of the table of consumption.
#[derive(Debug)]
pub struct ConsumptionColumn {
    pub start: String,
    pub start_date: String,
    pub end: String,
    pub amount: String,
}

/// What the window shows of the consumption.
#[derive(Debug)]
pub enum ConsumptionPanel {
    /// The official account, which has no amounts.
    Official,
    /// A relay that was never sampled.
    Unsampled,
    /// The sum of the running column, since when it runs, whether the chart is out of date, and the
    /// table with the newest column last.
    Table { current: String, since: String, stale: bool, columns: Vec<ConsumptionColumn>, note: String },
}

/// Whether a column shows a bar of a chart that ends at a time.
pub open spec fn shows_bar(
    column: ConsumptionColumn,
    end_at: int,
    index: int,
    bar: Option<u64>,
) -> bool {
    let start = column_start(end_at, index);
    &&& is_time_label(start as i64, "%H:%M"@, column.start@)
    &&& is_time_label(start as i64, "%Y-%m-%d %H:%M"@, column.start_date@)
    &&& is_time_label((start + WINDOW_SECONDS) as i64, "%H:%M"@, column.end@)
    &&& column.amount@ == amount_text(bar)
}

/// Whether a panel shows the consumption of a relay at a time.
pub open spec fn shows_consumption(panel: ConsumptionPanel, relay: RelayBalance, now: i64) -> bool {
    if relay.chart.end_at == 0 {
        panel is Unsampled
    } else {
        panel matches ConsumptionPanel::Table { current, since, stale, columns, note } && {
            &&& current@ == amount_text(relay.chart.bars@[BAR_COUNT - 1]) + " "@ + relay.unit@
            &&& is_time_label(relay.chart.end_at, "%H:%M"@, since@)
            &&& stale == (now >= relay.chart.end_at + WINDOW_SECONDS)
            &&& columns@.len() == BAR_COUNT
            &&& forall|i: int|
                0 <= i < BAR_COUNT ==> shows_bar(
                    #[trigger] columns@[i],
                    relay.chart.end_at as int,
                    i,
                    relay.chart.bars@[i],
                )
            &&& note@ == "金额单位："@ + relay.unit@ + " · 最右列为该周期内累计"@
        }
    }
}

/// Prepares what the window shows of the consumption.
pub fn draw_consumption(relay: Option<&RelayBalance>, now: i64) -> (panel: ConsumptionPanel)
    requires
        relay matches Some(balance) ==> has_columns(balance.chart.end_at),
    ensures
        match relay {
            None => panel is Official,
            Some(balance) => shows_consumption(panel, *balance, now),
        },
{
    let balance = match relay {
        None => {
            return ConsumptionPanel::Official;
        },
        Some(balance) => balance,
    };
    let end_at: i64 = balance.chart.end_at;
    if end_at == 0 {
        return ConsumptionPanel::Unsampled;
    }
    let mut current = consumption_text(balance.chart.bars[BAR_COUNT - 1]);
    current.append(" ");
    current.append(balance.unit.as_str());
    let mut columns: Vec<ConsumptionColumn> = Vec::new();
    for i in 0..BAR_COUNT
        invariant
            has_columns(end_at),
            end_at == balance.chart.end_at,
            columns@.len() == i,
            forall|j: int|
                0 <= j < i ==> shows_bar(
                    #[trigger] columns@[j],
                    end_at as int,
                    j,
                    balance.chart.bars@[j],
                ),
    {
        let start: i64 = period_start(end_at, i);
        columns.push(
            ConsumptionColumn {
                start: period_time(start),
                start_date: period_date(start),
                end: period_time(period_end(end_at, i)),
                amount: consumption_text(balance.chart.bars[i]),
            },
        );
    }
    let mut note = "金额单位：".to_owned();
    note.append(balance.unit.as_str());
    note.append(" · 最右列为该周期内累计");
    ConsumptionPanel::Table {
        current,
        since: period_time(end_at),
        stale: is_stale(now, end_at),
        columns,
        note,
    }
}

/// What the window shows of the quota.
#[derive(Debug)]
pub enum QuotaPanel {
    Relay { name: String, remaining: String, detail: String },
    Official {
        five_hour: String,
        five_hour_level: QuotaLevel,
        seven_day: String,
        seven_day_level: QuotaLevel,
        resets: String,
        hourglass: String,
    },
}

/// The level of a percentage; no limit is good.
pub open spec fn level_of_quota(value: Option<u8>) -> QuotaLevel {
    match value {
        None => QuotaLevel::Good,
        Some(percent) => if percent >= 60 {
            QuotaLevel::Good
        } else if percent >= 20 {
            QuotaLevel::Fair
        } else {
            QuotaLevel::Low
        },
    }
}

/// A percentage as the window shows it, at most 99.
pub open spec fn shown_quota(value: Option<u8>) -> Seq<char> {
    match value {
        None => "--"@,
        Some(percent) => decimal(
            if percent > 99 {
                99
            } else {
                percent as nat
            },
        ) + "%"@,
    }
}

/// The hourglass as the window shows it.
pub open spec fn shown_hourglass(cells: Option<u8>) -> Seq<char> {
    match cells {
        None => "--"@,
        Some(count) => decimal(count as nat) + " / 10 格"@,
    }
}

/// Whether a panel shows a quota, or that there is none yet.
pub open spec fn shows_quota(panel: QuotaPanel, quota: Option<QuotaStatus>) -> bool {
    match quota {
        Some(QuotaStatus { relay: Some(relay), .. }) => panel matches QuotaPanel::Relay {
            name,
            remaining,
            detail,
        } && name@ == relay.name@ && remaining@ == balance_text(relay.remaining) + " "@ + relay.unit@
            && detail@ == relay.detail@,
        _ => {
            let five = match quota {
                Some(status) => status.five_hour,
                None => None,
            };
            let seven = match quota {
                Some(status) => status.seven_day,
                None => None,
            };
            let cells = match quota {
                Some(status) => status.reset_cells,
                None => None,
            };
            panel matches QuotaPanel::Official {
                five_hour,
                five_hour_level,
                seven_day,
                seven_day_level,
                resets,
                hourglass,
            } && five_hour@ == shown_quota(five) && five_hour_level == level_of_quota(five)
                && seven_day@ == shown_quota(seven) && seven_day_level == level_of_quota(seven)
                && hourglass@ == shown_hourglass(cells) && match quota {
                Some(status) => is_reset_text(status.seven_day_resets_at, resets@),
                None => resets@ == "--"@,
            }
        },
    }
}

/// Prepares what the window shows of the quota.
pub fn draw_quota_status(quota: Option<&QuotaStatus>) -> (panel: QuotaPanel)
    ensures
        shows_quota(
            panel,
            match quota {
                Some(status) => Some(*status),
                None => None,
            },
        ),
{
    match quota {
        None => QuotaPanel::Official {
            five_hour: quota_text(None),
            five_hour_level: quota_level(None),
            seven_day: quota_text(None),
            seven_day_level: quota_level(None),
            resets: "--".to_owned(),
            hourglass: hourglass_text(None),
        },
        Some(status) => match &status.relay {
            Some(relay) => {
                let mut remaining = relay.display_text();
                remaining.append(" ");
                remaining.append(relay.unit.as_str());
                QuotaPanel::Relay {
                    name: relay.name.clone(),
                    remaining,
                    detail: relay.detail.clone(),
                }
            },
            None => QuotaPanel::Official {
                five_hour: quota_text(status.five_hour),
                five_hour_level: quota_level(status.five_hour),
                seven_day: quota_text(status.seven_day),
                seven_day_level: quota_level(status.seven_day),
                resets: status.reset_time_text(),
                hourglass: hourglass_text(status.reset_cells),
            },
        },
    }
}

/// One line on a connection; without a state it is still being looked for.
#[derive(Debug)]
pub struct ConnectionRow {
    pub label: String,
    pub state: Option<bool>,
    pub detail: String,
}

/// Whether a line says this.
pub open spec fn says(
    row: ConnectionRow,
    label: Seq<char>,
    state: Option<bool>,
    detail: Seq<char>,
) -> bool {
    row.label@ == label && row.state == state && row.detail@ == detail
}

/// Whether some lines show the connections that were seen, or that they are being looked for.
pub open spec fn shows_connections(rows: Seq<ConnectionRow>, snapshot: Option<SystemSnapshot>) -> bool {
    &&& rows.len() == 3
    &&& match snapshot {
        Some(seen) => {
            &&& says(rows[0], "DP-104"@, Some(seen.keyboard_connected), seen.keyboard_detail@)
            &&& says(rows[1], "额度来源"@, Some(seen.codex_connected), seen.codex_detail@)
            &&& says(
                rows[2],
                "自动刷新"@,
                Some(seen.deployed),
                if seen.deployed {
                    "已部署，每分钟检测"@
                } else {
                    "未部署"@
                },
            )
        },
        None => {
            &&& says(rows[0], "DP-104"@, None, "检测中"@)
            &&& says(rows[1], "额度来源"@, None, "检测中"@)
            &&& says(rows[2], "自动刷新"@, None, "检测中"@)
        },
    }
}

/// Prepares the lines on the keyboard, the source of the quota and the scheduled refresh.
pub fn draw_connection_status(snapshot: Option<&SystemSnapshot>) -> (rows: Vec<ConnectionRow>)
    ensures
        shows_connections(
            rows@,
            match snapshot {
                Some(seen) => Some(*seen),
                None => None,
            },
        ),
{
    let mut rows: Vec<ConnectionRow> = Vec::new();
    match snapshot {
        Some(seen) => {
            rows.push(
                ConnectionRow {
                    label: "DP-104".to_owned(),
                    state: Some(seen.keyboard_connected),
                    detail: seen.keyboard_detail.clone(),
                },
            );
            rows.push(
                ConnectionRow {
                    label: "额度来源".to_owned(),
                    state: Some(seen.codex_connected),
                    detail: seen.codex_detail.clone(),
                },
            );
            rows.push(
                ConnectionRow {
                    label: "自动刷新".to_owned(),
                    state: Some(seen.deployed),
                    detail: if seen.deployed {
                        "已部署，每分钟检测".to_owned()
                    } else {
                        "未部署".to_owned()
                    },
                },
            );
        },
        None => {
            rows.push(
                ConnectionRow { label: "DP-104".to_owned(), state: None, detail: "检测中".to_owned() },
            );
            rows.push(
                ConnectionRow { label: "额度来源".to_owned(), state: None, detail: "检测中".to_owned() },
            );
            rows.push(
                ConnectionRow { label: "自动刷新".to_owned(), state: None, detail: "检测中".to_owned() },
            );
        },
    }
    rows
}

/// Whether a number lies within two others.
pub open spec fn within(value: int, low: int, high: int) -> bool {
    low <= value <= high
}

/// A pixel of the icon: a border, two marks, the lines between keys, and the ground.
pub open spec fn icon_pixel(x: int, y: int) -> Seq<u8> {
    if !within(x, 2, 29) || !within(y, 2, 29) {
        seq![139u8, 92, 246, 255]
    } else if within(x, 11, 20) && (within(y, 10, 12) || within(y, 19, 21)) {
        seq![52u8, 211, 153, 255]
    } else if (within(x, 6, 25) && (y == 8 || y == 15 || y == 22)) || (within(y, 6, 25) && (x == 6
        || x == 12 || x == 19 || x == 25)) {
        seq![71u8, 85, 105, 255]
    } else {
        seq![17u8, 24, 39, 255]
    }
}

fn icon_color(x: usize, y: usize) -> (color: [u8; 4])
    ensures
        color@ == icon_pixel(x as int, y as int),
{
    let color: [u8; 4] = if x < 2 || x > 29 || y < 2 || y > 29 {
        [139, 92, 246, 255]
    } else if 11 <= x && x <= 20 && ((10 <= y && y <= 12) || (19 <= y && y <= 21)) {
        [52, 211, 153, 255]
    } else if (6 <= x && x <= 25 && (y == 8 || y == 15 || y == 22)) || (6 <= y && y <= 25 && (x == 6
        || x == 12 || x == 19 || x == 25)) {
        [71, 85, 105, 255]
    } else {
        [17, 24, 39, 255]
    };
    assert(color@ =~= icon_pixel(x as int, y as int));
    color
}

/// The place of a pixel among the bytes of the icon.
pub open spec fn icon_offset(x: int, y: int) -> int {
    (y * ICON_SIZE + x) * 4
}

/// Draws the icon, row by row, four bytes to a pixel.
pub fn app_icon() -> (rgba: Vec<u8>)
    ensures
        rgba@.len() == ICON_SIZE * ICON_SIZE * 4,
        forall|x: int, y: int|
            0 <= x < ICON_SIZE && 0 <= y < ICON_SIZE ==> #[trigger] rgba@.subrange(
                icon_offset(x, y),
                icon_offset(x, y) + 4,
            ) == icon_pixel(x, y),
{
    let mut rgba: Vec<u8> = Vec::new();
    for y in 0..ICON_SIZE
        invariant
            rgba@.len() == icon_offset(0, y as int),
            forall|a: int, b: int|
                0 <= a < ICON_SIZE && 0 <= b < y ==> #[trigger] rgba@.subrange(
                    icon_offset(a, b),
                    icon_offset(a, b) + 4,
                ) == icon_pixel(a, b),
    {
        for x in 0..ICON_SIZE
            invariant
                y < ICON_SIZE,
                rgba@.len() == icon_offset(x as int, y as int),
                forall|a: int, b: int|
                    0 <= a < ICON_SIZE && 0 <= b && (b < y || (b == y && a < x))
                        ==> #[trigger] rgba@.subrange(icon_offset(a, b), icon_offset(a, b) + 4)
                        == icon_pixel(a, b),
        {
            let color: [u8; 4] = icon_color(x, y);
            let ghost before = rgba@;
            rgba.push(color[0]);
            rgba.push(color[1]);
            rgba.push(color[2]);
            rgba.push(color[3]);
            proof {
                let at = icon_offset(x as int, y as int);
                assert(rgba@.subrange(at, at + 4) =~= color@);
                assert forall|a: int, b: int|
                    0 <= a < ICON_SIZE && 0 <= b && (b < y || (b == y && a < x + 1)) implies #[trigger] rgba@.subrange(
                    icon_offset(a, b),
                    icon_offset(a, b) + 4,
                ) == icon_pixel(a, b) by {
                    if !(a == x && b == y) {
                        let place = icon_offset(a, b);
                        assert(place + 4 <= before.len());
                        assert(rgba@.subrange(place, place + 4) =~= before.subrange(
                            place,
                            place + 4,
                        ));
                    }
                }
            }
        }
    }
    rgba
}

/// What is said of the scheduled refresh.
pub open spec fn deployed_text(deployed: bool) -> Seq<char> {
    if deployed {
        "已部署（任务："@ + TASK_NAME@ + "）"@
    } else {
        "未部署"@
    }
}

/// The lines on a look at the connections.
pub open spec fn probe_lines(snapshot: SystemSnapshot) -> Seq<Seq<char>> {
    seq![
        snapshot.keyboard_detail@,
        if snapshot.codex_connected {
            "额度来源："@ + snapshot.codex_detail@
        } else {
            snapshot.codex_detail@
        },
        snapshot.last_result@,
        "自动刷新："@ + deployed_text(snapshot.deployed),
    ]
}

/// Reports on a look at the connections.
pub fn probe_completion(snapshot: SystemSnapshot) -> (completion: TaskCompletion)
    ensures
        completion.snapshot == Some(snapshot),
        views(completion.details@) == probe_lines(snapshot),
        !completion.exit_after,
{
    let source = if snapshot.codex_connected {
        let mut text = "额度来源：".to_owned();
        text.append(snapshot.codex_detail.as_str());
        text
    } else {
        snapshot.codex_detail.clone()
    };
    let mut shown = String::new();
    if snapshot.deployed {
        shown.append("已部署（任务：");
        shown.append(TASK_NAME);
        shown.append("）");
    } else {
        shown.append("未部署");
    }
    assert(shown@ =~= deployed_text(snapshot.deployed));
    let mut refresh = "自动刷新：".to_owned();
    refresh.append(shown.as_str());
    let details: Vec<String> = vec![
        snapshot.keyboard_detail.clone(),
        source,
        snapshot.last_result.clone(),
        refresh,
    ];
    assert(views(details@) =~= probe_lines(snapshot));
    TaskCompletion { snapshot: Some(snapshot), details, exit_after: false }
}

/// Reports on a write to the keyboard.
pub fn display_completion(outcome: &RefreshOutcome, deployed: bool) -> (completion: TaskCompletion)
    ensures
        completion.snapshot matches Some(snapshot) && is_after_write(snapshot, *outcome, deployed),
        views(completion.details@) == seq![
            "额度来源："@ + outcome.codex_command@,
            summary_of(*outcome),
            "DP-104 HID 回显校验通过"@,
        ],
        !completion.exit_after,
{
    let mut source = "额度来源：".to_owned();
    source.append(outcome.codex_command.as_str());
    let details: Vec<String> = vec![
        source,
        outcome.summary(),
        "DP-104 HID 回显校验通过".to_owned(),
    ];
    assert(views(details@) =~= seq![
        "额度来源："@ + outcome.codex_command@,
        summary_of(*outcome),
        "DP-104 HID 回显校验通过"@,
    ]);
    TaskCompletion {
        snapshot: Some(snapshot_from_refresh(outcome, deployed)),
        details,
        exit_after: false,
    }
}

/// Reports on an installation.
pub fn deploy_completion(details: Vec<String>, snapshot: SystemSnapshot) -> (completion:
    TaskCompletion)
    ensures
        completion == (TaskCompletion { snapshot: Some(snapshot), details, exit_after: false }),
{
    TaskCompletion { snapshot: Some(snapshot), details, exit_after: false }
}

/// Whether a report is the one on a removal.
pub open spec fn is_removal_completion(
    completion: TaskCompletion,
    removal: RemovalResult,
    snapshot: SystemSnapshot,
) -> bool {
    &&& completion.snapshot == Some((SystemSnapshot { deployed: false, ..snapshot }))
    &&& completion.details == removal.details
    &&& completion.exit_after == removal.exit_after_remove
}

/// Reports on a removal: the tool counts as not installed, whatever was found.
pub fn removal_completion(removal: RemovalResult, snapshot: SystemSnapshot) -> (completion:
    TaskCompletion)
    ensures
        is_removal_completion(completion, removal, snapshot),
{
    let mut shown = snapshot;
    shown.deployed = false;
    TaskCompletion {
        snapshot: Some(shown),
        details: removal.details,
        exit_after: removal.exit_after_remove,
    }
}

spec fn ten_to(power: nat) -> nat
    decreases power,
{
    if power == 0 {
        1
    } else {
        10 * ten_to((power - 1) as nat)
    }
}

proof fn lemma_padded_is_unique(first: nat, second: nat, width: nat)
    requires
        first < ten_to(width),
        second < ten_to(width),
        padded_decimal(first, width) == padded_decimal(second, width),
    ensures
        first == second,
    decreases width,
{
    if width > 0 {
        let a = padded_decimal(first, width);
        let b = padded_decimal(second, width);
        assert(a.last() == crate::text::digit(first % 10));
        assert(b.last() == crate::text::digit(second % 10));
        assert(a.drop_last() =~= padded_decimal(first / 10, (width - 1) as nat));
        assert(b.drop_last() =~= padded_decimal(second / 10, (width - 1) as nat));
        lemma_padded_is_unique(first / 10, second / 10, (width - 1) as nat);
    }
}

proof fn lemma_padded_length(value: nat, width: nat)
    ensures
        padded_decimal(value, width).len() == width,
    decreases width,
{
    if width > 0 {
        lemma_padded_length(value / 10, (width - 1) as nat);
    }
}

proof fn lemma_trailing(text: Seq<char>, c: char)
    ensures
        without_trailing(text, c).len() <= text.len(),
        without_trailing(text, c) == text.take(without_trailing(text, c).len() as int),
        forall|i: int| without_trailing(text, c).len() <= i < text.len() ==> text[i] == c,
    decreases text.len(),
{
    if text.len() > 0 && text.last() == c {
        lemma_trailing(text.drop_last(), c);
        let kept = without_trailing(text.drop_last(), c);
        assert(text.drop_last().take(kept.len() as int) =~= text.take(kept.len() as int));
        assert forall|i: int| kept.len() <= i < text.len() implies text[i] == c by {
            if i < text.len() - 1 {
                assert(text.drop_last()[i] == c);
            }
        }
    } else {
        assert(text.take(text.len() as int) =~= text);
    }
}

/// Different amounts are shown differently, down to the last millionth, and none is shown as if it
/// were missing.
pub proof fn law_amounts_keep_their_precision(first: u64, second: u64)
    ensures
        amount_text(Some(first)) == amount_text(Some(second)) ==> first == second,
        amount_text(Some(first)) != amount_text(None),
{
    reveal_strlit(".");
    reveal_strlit("--");
    let a = decimal((first / 1_000_000) as nat);
    let b = decimal((second / 1_000_000) as nat);
    let text = amount_text(Some(first));
    lemma_decimal_denotes((first / 1_000_000) as nat);
    lemma_decimal_denotes((second / 1_000_000) as nat);
    assert(is_digit(a[0]));
    assert(text[0] == a[0]);
    assert(amount_text(None)[0] == '-');
    if text == amount_text(Some(second)) {
        if a.len() < b.len() {
            assert(is_digit(b[a.len() as int]));
            assert(text.len() > a.len());
            assert(text[a.len() as int] == '.');
        }
        if b.len() < a.len() {
            assert(is_digit(a[b.len() as int]));
            assert(text.len() > b.len());
            assert(text[b.len() as int] == '.');
        }
        assert(a =~= text.take(a.len() as int));
        assert(b =~= text.take(a.len() as int));
        let p = (first % 1_000_000) as nat;
        let q = (second % 1_000_000) as nat;
        if p != 0 && q != 0 {
            let s = padded_decimal(p, 6);
            let t = padded_decimal(q, 6);
            let rest = text.skip(a.len() as int + 1);
            assert(rest =~= without_trailing(s, '0'));
            assert(rest =~= without_trailing(t, '0'));
            lemma_trailing(s, '0');
            lemma_trailing(t, '0');
            lemma_padded_length(p, 6);
            lemma_padded_length(q, 6);
            assert forall|i: int| 0 <= i < 6 implies s[i] == t[i] by {
                if i < rest.len() {
                    assert(s[i] == s.take(rest.len() as int)[i]);
                    assert(t[i] == t.take(rest.len() as int)[i]);
                }
            }
            assert(s =~= t);
            reveal_with_fuel(ten_to, 7);
            lemma_padded_is_unique(p, q, 6);
        }
        assert(text.len() == a.len() <==> p == 0);
        assert(text.len() == b.len() <==> q == 0);
    }
}

proof fn lemma_end_within(text: Seq<char>, limit: nat, from: int)
    requires
        0 <= from <= text.len(),
        text_bytes(text.skip(from)) <= limit,
    ensures
        text_bytes(end_within(text, limit)) <= limit,
        text.len() - from <= end_within(text, limit).len() <= text.len(),
        end_within(text, limit) == text.skip(text.len() - end_within(text, limit).len()),
    decreases text.len(),
{
    if text_bytes(text) <= limit || text.len() == 0 {
        assert(text.skip(0) =~= text);
    } else {
        let rest = text.drop_first();
        if from == 0 {
            assert(text.skip(0) =~= text);
        }
        assert(rest.skip(from - 1) =~= text.skip(from));
        lemma_end_within(rest, limit, from - 1);
        let kept = end_within(rest, limit);
        assert(rest.skip(rest.len() - kept.len()) =~= text.skip(text.len() - kept.len()));
    }
}

/// The details never take more than their limit, and the line that was added last is whole, unless
/// it is longer than what is kept.
pub proof fn law_details_stay_small(details: Seq<char>, line: Seq<char>)
    ensures
        text_bytes(with_line(details, line)) <= DETAILS_LIMIT,
        text_bytes(line) <= DETAILS_KEPT ==> line.is_suffix_of(with_line(details, line)),
{
    let longer = if details.len() == 0 {
        line
    } else {
        details + "\n"@ + line
    };
    let before = longer.len() - line.len();
    assert(longer.skip(before) =~= line);
    assert(longer.skip(longer.len() as int) =~= Seq::empty());
    lemma_end_within(longer, DETAILS_KEPT as nat, longer.len() as int);
    if text_bytes(line) <= DETAILS_KEPT {
        lemma_end_within(longer, DETAILS_KEPT as nat, before);
    }
    let shown = with_line(details, line);
    if text_bytes(line) <= DETAILS_KEPT {
        assert(shown.subrange(shown.len() - line.len(), shown.len() as int) =~= line);
    }
}

/// The columns follow each other without a gap: a period ends where the next one starts.
pub proof fn law_columns_are_contiguous(end_at: int, column: int)
    requires
        0 <= column < BAR_COUNT - 1,
    ensures
        column_start(end_at, column) + WINDOW_SECONDS == column_start(end_at, column + 1),
        column_start(end_at, BAR_COUNT - 1) == end_at,
{
}

/// With the latest chart of a history the panel tells the running period from the completed ones:
/// its sum is that of the running period, which starts where the last completed one ended, and each
/// column before the last shows one completed period from its start to its end.
pub proof fn law_panel_ends_with_the_running_period(
    panel: ConsumptionPanel,
    relay: RelayBalance,
    history: ConsumptionHistory,
    now: i64,
)
    requires
        history.chart.end_at != 0,
        is_latest_chart(relay.chart, Some(&history)),
        shows_consumption(panel, relay, now),
    ensures
        panel matches ConsumptionPanel::Table { current, since, columns, .. } && {
            let running = amount_text(running_bar(history@));
            let end_at = history.chart.end_at;
            &&& current@ == running + " "@ + relay.unit@
            &&& is_time_label(end_at, "%H:%M"@, since@)
            &&& columns@.len() == BAR_COUNT
            &&& columns@[BAR_COUNT - 1].amount@ == running
            &&& is_time_label(end_at, "%H:%M"@, columns@[BAR_COUNT - 1].start@)
            &&& forall|i: int|
                0 <= i < BAR_COUNT - 1 ==> shows_bar(
                    #[trigger] columns@[i],
                    end_at as int,
                    i,
                    history.chart.bars@[i + 1],
                )
        },
{
}

/// One operation runs at a time: while one runs another does not start and the running one stays; and
/// where none runs, the asked one does. Either way a line is added and nothing else changes.
pub proof fn law_one_operation_at_a_time(
    before: QuotaWindow,
    after: QuotaWindow,
    task: BackgroundTask,
    started: bool,
)
    requires
        is_spawned(before, after, task, started),
    ensures
        started <==> !before.busy,
        after.busy,
        before.busy ==> after.current_task == before.current_task,
        !before.busy ==> after.current_task == Some(task),
        after.snapshot == before.snapshot,
        after.display == before.display,
        after.close_requested == before.close_requested,
{
}

/// Whatever an operation came to, the window is free for the next one. What it found replaces what was
/// known only where it found something, a failure changes nothing of it, and the window closes only
/// where a finished operation asks for that.
pub proof fn law_finished_operation_frees_the_window(
    before: QuotaWindow,
    after: QuotaWindow,
    result: Result<TaskCompletion, String>,
)
    requires
        is_polled(before, after, result),
    ensures
        !after.busy,
        after.current_task is None,
        after.display == before.display,
        result matches Ok(completion) ==> after.close_requested == completion.exit_after && (
        completion.snapshot is Some ==> after.snapshot == completion.snapshot) && (
        completion.snapshot is None ==> after.snapshot == before.snapshot),
        result is Err ==> after.snapshot == before.snapshot && after.close_requested
            == before.close_requested,
{
}

/// A frame asks to be drawn again while an operation runs, and at once for as many frames as the start
/// still has; it is the last where the window is to close. It changes nothing but that count.
pub proof fn law_frames_at_the_start_run_out(
    before: QuotaWindow,
    after: QuotaWindow,
    request: FrameRequest,
)
    requires
        is_updated(before, after, request),
    ensures
        request.repaint_while_busy <==> before.busy,
        request.close <==> before.close_requested,
        before.startup_repaints > 0 ==> request.repaint_at_start && after.startup_repaints + 1
            == before.startup_repaints,
        before.startup_repaints == 0 ==> !request.repaint_at_start && after.startup_repaints == 0,
        after.snapshot == before.snapshot,
        after.display == before.display,
        after.details == before.details,
        after.busy == before.busy,
        after.current_task == before.current_task,
{
}

/// A picture that could not be read leaves the last one in place and says why; one that was read
/// replaces it and clears the complaint.
pub proof fn law_failed_reading_keeps_the_picture(
    before: QuotaWindow,
    after: QuotaWindow,
    result: Result<DisplaySnapshot, String>,
)
    requires
        is_received(before, after, result),
    ensures
        result matches Ok(display) ==> after.display == Some(display) && after.display_error is None,
        result matches Err(error) ==> after.display == before.display && after.display_error == Some(
            error,
        ),
        after.busy == before.busy,
        after.snapshot == before.snapshot,
{
}

/// A line goes below the details on a line of its own, and is all there is where there were none. What
/// stays within 32000 bytes is kept whole.
pub proof fn law_line_goes_below_the_details(details: Seq<char>, line: Seq<char>)
    ensures
        details.len() == 0 && text_bytes(line) <= 32_000 ==> with_line(details, line) == line,
        details.len() > 0 && text_bytes(details.push('\n') + line) <= 32_000 ==> with_line(
            details,
            line,
        ) == details.push('\n') + line,
{
    reveal_strlit("\n");
    assert(details + "\n"@ =~= details.push('\n'));
}

/// An amount is shown as its whole units and, where there are any, its millionths behind a point
/// without zeros at their end.
pub proof fn law_amount_is_units_and_millionths(amount: u64, units: u64, rest: u64)
    requires
        rest < 1_000_000,
        amount == units * 1_000_000 + rest,
    ensures
        rest == 0 ==> amount_text(Some(amount)) == decimal(units as nat),
        rest > 0 ==> amount_text(Some(amount)) == decimal(units as nat) + seq!['.']
            + without_trailing(padded_decimal(rest as nat, 6), '0'),
        amount_text(None) == seq!['-', '-'],
{
    reveal_strlit(".");
    reveal_strlit("--");
    assert("."@ =~= seq!['.']);
    assert("--"@ =~= seq!['-', '-']);
    assert(amount / 1_000_000 == units && amount % 1_000_000 == rest);
}

/// The column of a period starts half an hour after the one before it, and the last where the chart
/// ends.
pub proof fn law_columns_are_half_hours(end_at: int, column: int)
    ensures
        column_start(end_at, column) == end_at - 1800 * (9 - column),
{
}

/// A chart is out of date once half an hour has passed since it ended; it is shown in ten columns, and
/// the sum is that of the last.
pub proof fn law_table_shows_the_chart(
    panel: ConsumptionPanel,
    relay: RelayBalance,
    now: i64,
    i: int,
)
    requires
        shows_consumption(panel, relay, now),
        0 <= i < 10,
    ensures
        relay.chart.end_at == 0 <==> panel is Unsampled,
        relay.chart.end_at != 0 ==> (panel matches ConsumptionPanel::Table {
            current,
            since,
            stale,
            columns,
            ..
        } && {
            let start = relay.chart.end_at - 1800 * (9 - i);
            &&& stale == (now - relay.chart.end_at >= 1800)
            &&& columns@.len() == 10
            &&& columns@[i].amount@ == amount_text(relay.chart.bars@[i])
            &&& is_time_label(start as i64, "%H:%M"@, columns@[i].start@)
            &&& is_time_label(start as i64, "%Y-%m-%d %H:%M"@, columns@[i].start_date@)
            &&& is_time_label((start + 1800) as i64, "%H:%M"@, columns@[i].end@)
            &&& current@ == amount_text(relay.chart.bars@[9]) + seq![' '] + relay.unit@
            &&& is_time_label(relay.chart.end_at, "%H:%M"@, since@)
        }),
{
    reveal_strlit(" ");
    assert(" "@ =~= seq![' ']);
}

/// A percentage is good from 60, fair from 20 and low below; no limit is good. It is shown as a number
/// of at most 99 with its sign.
pub proof fn law_percentage_is_shown_with_its_level(value: u8)
    ensures
        value >= 60 <==> level_of_quota(Some(value)) == QuotaLevel::Good,
        value < 20 <==> level_of_quota(Some(value)) == QuotaLevel::Low,
        level_of_quota(None) == QuotaLevel::Good,
        value <= 99 ==> shown_quota(Some(value)) == decimal(value as nat) + seq!['%'],
        value > 99 ==> shown_quota(Some(value)) == decimal(99) + seq!['%'],
        shown_quota(None) == seq!['-', '-'],
{
    reveal_strlit("%");
    reveal_strlit("--");
    assert("%"@ =~= seq!['%']);
    assert("--"@ =~= seq!['-', '-']);
}

/// The window shows a relay by its name, its balance with the unit and what is said of it, and never as
/// percentages; it shows the official account by both percentages, each in its own place.
pub proof fn law_panel_shows_its_source(panel: QuotaPanel, status: QuotaStatus)
    requires
        shows_quota(panel, Some(status)),
    ensures
        panel is Relay <==> status.relay is Some,
        status.relay matches Some(relay) ==> (panel matches QuotaPanel::Relay {
            name,
            remaining,
            detail,
        } && name@ == relay.name@ && remaining@ == balance_text(relay.remaining) + seq![' ']
            + relay.unit@ && detail@ == relay.detail@),
        status.relay is None ==> (panel matches QuotaPanel::Official {
            five_hour,
            five_hour_level,
            seven_day,
            seven_day_level,
            hourglass,
            resets,
        } && five_hour@ == shown_quota(status.five_hour) && five_hour_level == level_of_quota(
            status.five_hour,
        ) && seven_day@ == shown_quota(status.seven_day) && seven_day_level == level_of_quota(
            status.seven_day,
        ) && hourglass@ == shown_hourglass(status.reset_cells) && is_reset_text(
            status.seven_day_resets_at,
            resets@,
        )),
{
    reveal_strlit(" ");
    assert(" "@ =~= seq![' ']);
}

/// The three lines on the connections show the keyboard, the source of the quota and the scheduled
/// refresh, each by its own finding, and no state before anything was found.
pub proof fn law_lines_show_their_own_findings(
    rows: Seq<ConnectionRow>,
    snapshot: Option<SystemSnapshot>,
)
    requires
        shows_connections(rows, snapshot),
    ensures
        rows.len() == 3,
        snapshot is None ==> rows[0].state is None && rows[1].state is None && rows[2].state is None,
        snapshot matches Some(seen) ==> rows[0].state == Some(seen.keyboard_connected) && rows[1].state
            == Some(seen.codex_connected) && rows[2].state == Some(seen.deployed) && rows[0].detail@
            == seen.keyboard_detail@ && rows[1].detail@ == seen.codex_detail@,
{
}

/// After a removal the tool counts as not installed, whatever was found, and everything else stays as
/// it was found. The window closes exactly where the program has to end before its folder can go.
pub proof fn law_removed_tool_is_not_installed(
    completion: TaskCompletion,
    removal: RemovalResult,
    snapshot: SystemSnapshot,
)
    requires
        is_removal_completion(completion, removal, snapshot),
    ensures
        completion.exit_after == removal.exit_after_remove,
        completion.details == removal.details,
        completion.snapshot matches Some(shown) && !shown.deployed && shown.quota == snapshot.quota
            && shown.keyboard_connected == snapshot.keyboard_connected && shown.codex_connected
            == snapshot.codex_connected && shown.last_result == snapshot.last_result,
{
}

/// A look at the connections is told in four lines: the keyboard, the source of the quota, the result
/// and the scheduled refresh.
pub proof fn law_look_is_told_in_four_lines(snapshot: SystemSnapshot)
    ensures
        probe_lines(snapshot).len() == 4,
        probe_lines(snapshot)[0] == snapshot.keyboard_detail@,
        snapshot.codex_connected ==> probe_lines(snapshot)[1] == "额度来源："@
            + snapshot.codex_detail@,
        !snapshot.codex_connected ==> probe_lines(snapshot)[1] == snapshot.codex_detail@,
        probe_lines(snapshot)[2] == snapshot.last_result@,
        snapshot.deployed ==> probe_lines(snapshot)[3] == "自动刷新："@ + ("已部署（任务："@
            + TASK_NAME@ + "）"@),
        !snapshot.deployed ==> probe_lines(snapshot)[3] == "自动刷新："@ + "未部署"@,
{
}

/// The icon has a border of two pixels, and within it two marks, the lines between keys and the
/// ground, which lie row by row with four bytes to a pixel.
pub proof fn law_icon_has_its_border(x: int, y: int)
    requires
        0 <= x < 32,
        0 <= y < 32,
    ensures
        icon_offset(x, y) == 128 * y + 4 * x,
        x < 2 || x >= 30 || y < 2 || y >= 30 <==> icon_pixel(x, y) == seq![139u8, 92, 246, 255],
        11 <= x <= 20 && (10 <= y <= 12 || 19 <= y <= 21) <==> icon_pixel(x, y) == seq![
            52u8,
            211,
            153,
            255,
        ],
{
    let border = seq![139u8, 92, 246, 255];
    let mark = seq![52u8, 211, 153, 255];
    let line = seq![71u8, 85, 105, 255];
    let ground = seq![17u8, 24, 39, 255];
    assert(border[0] == 139 && mark[0] == 52 && line[0] == 71 && ground[0] == 17);
}

/// A character takes one byte below 128, two below 2048, three below 65536 and four from there on, and
/// a text as many as its characters.
pub proof fn law_bytes_of_a_text_add_up(c: char, text: Seq<char>)
    ensures
        char_bytes(c) >= 2 <==> c as int >= 128,
        char_bytes(c) >= 3 <==> c as int >= 2048,
        char_bytes(c) >= 4 <==> c as int >= 65_536,
        1 <= char_bytes(c) <= 4,
        text_bytes(seq![c] + text) == char_bytes(c) + text_bytes(text),
        text_bytes(Seq::empty()) == 0,
{
    assert((seq![c] + text).drop_first() =~= text);
}

/// An operation runs exactly when it is known which, from its start to its end and through every frame
/// and picture in between.
pub proof fn law_running_operation_is_known(
    before: QuotaWindow,
    after: QuotaWindow,
    task: BackgroundTask,
    started: bool,
    request: FrameRequest,
    picture: Result<DisplaySnapshot, String>,
    result: Result<TaskCompletion, String>,
)
    requires
        before.busy == (before.current_task is Some),
        is_spawned(before, after, task, started) || is_updated(before, after, request)
            || is_received(before, after, picture) || is_polled(before, after, result),
    ensures
        after.busy == (after.current_task is Some),
        well_formed(after),
{
}

/// The columns can be told where nine half hours before the end of the chart and one after it can be.
pub proof fn law_columns_reach_nine_half_hours_back(end_at: i64)
    ensures
        has_columns(end_at) <==> end_at - 9 * 1800 >= i64::MIN && end_at + 1800 <= i64::MAX,
{
}

/// The hourglass is told as its cells out of ten.
pub proof fn law_hourglass_is_told_out_of_ten(cells: u8)
    ensures
        shown_hourglass(Some(cells)) == decimal(cells as nat) + " / 10 格"@,
        shown_hourglass(None) == "--"@,
{
}

/// Between the border and the marks the icon has lines of its own colour in rows 8, 15 and 22 and in
/// columns 6, 12, 19 and 25, and the ground everywhere else.
pub proof fn law_icon_has_its_lines(x: int, y: int)
    requires
        2 <= x < 30,
        2 <= y < 30,
        !(11 <= x <= 20 && (10 <= y <= 12 || 19 <= y <= 21)),
    ensures
        icon_pixel(x, y) == (if 6 <= x <= 25 && (y == 8 || y == 15 || y == 22) || 6 <= y <= 25 && (x
            == 6 || x == 12 || x == 19 || x == 25) {
            seq![71u8, 85, 105, 255]
        } else {
            seq![17u8, 24, 39, 255]
        }),
{
}

} // verus!
