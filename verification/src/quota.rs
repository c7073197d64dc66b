//! Quota state, refresh thresholds, display formats and the stored record of what was shown.

use crate::ccswitch::RelayBalance;
use crate::clock::{is_calendar_time, local_time_may_be, local_time_text};
use crate::consumption::{live_bars, no_bars, ConsumptionChart, ConsumptionHistory};
use crate::text::{
    byte_denoted, decimal, decimal_text, lemma_byte_round_trip, padded_decimal, parse_byte,
    push_padded_decimal, same_text,
};
use vstd::prelude::*;
use vstd::string::*;

verus! {

pub const FIVE_HOUR_WINDOW_MINUTES: u64 = 300;

pub const SEVEN_DAY_WINDOW_MINUTES: u64 = 10_080;

pub const WEEK_RESET_CELL_COUNT: u8 = 10;

pub const WEEK_RESET_CELL_SECONDS: i64 = 60_480;

pub const FIVE_HOUR_REFRESH_THRESHOLD: u8 = 5;

pub const SEVEN_DAY_REFRESH_THRESHOLD: u8 = 2;

pub const LOW_QUOTA_FORCE_REFRESH_THRESHOLD: u8 = 5;

pub const BALANCE_REFRESH_THRESHOLD: i64 = 1_000_000;

/// The result of one quota query. In relay mode `relay` is present and no window is.
#[derive(Debug, PartialEq, Eq)]
pub struct QuotaStatus {
    pub relay: Option<RelayBalance>,
    pub five_hour: Option<u8>,
    pub seven_day: Option<u8>,
    pub seven_day_resets_at: Option<i64>,
    pub reset_cells: Option<u8>,
}

/// The state that was last written to the keyboard.
#[derive(Debug, PartialEq, Eq)]
pub struct RecordedStatus {
    pub relay: Option<RelayBalance>,
    pub five_hour: Option<u8>,
    pub seven_day: Option<u8>,
    pub reset_cells: Option<u8>,
}

fn copy_relay(relay: &Option<RelayBalance>) -> (copy: Option<RelayBalance>)
    ensures
        copy == *relay,
{
    match relay {
        Some(balance) => Some(balance.clone()),
        None => None,
    }
}

impl Clone for QuotaStatus {
    fn clone(&self) -> (copy: QuotaStatus)
        ensures
            copy == *self,
    {
        QuotaStatus {
            relay: copy_relay(&self.relay),
            five_hour: self.five_hour,
            seven_day: self.seven_day,
            seven_day_resets_at: self.seven_day_resets_at,
            reset_cells: self.reset_cells,
        }
    }
}

impl Clone for RecordedStatus {
    fn clone(&self) -> (copy: RecordedStatus)
        ensures
            copy == *self,
    {
        RecordedStatus {
            relay: copy_relay(&self.relay),
            five_hour: self.five_hour,
            seven_day: self.seven_day,
            reset_cells: self.reset_cells,
        }
    }
}

/// A remaining percentage in two characters: `--` without a limit, and 99 for 100.
pub open spec fn percent_text(percent: Option<u8>) -> Seq<char> {
    match percent {
        None => "--"@,
        Some(value) => padded_decimal(
            if value > 99 {
                99
            } else {
                value as nat
            },
            2,
        ),
    }
}

/// The two percentages of a status as one text.
pub open spec fn quota_message(five_hour: Option<u8>, seven_day: Option<u8>) -> Seq<char> {
    percent_text(five_hour) + "|"@ + percent_text(seven_day) + "%"@
}

/// The text for the weekly reset, given what the clock says of the reset time.
pub open spec fn reset_time_display(resets_at: Option<i64>, local: Option<Seq<char>>) -> Seq<char> {
    match (resets_at, local) {
        (None, _) => "--（无周窗口）"@,
        (Some(_), Some(text)) => text,
        (Some(_), None) => "时间格式错误"@,
    }
}

/// Whether a text is the one for the weekly reset. Which local time a timestamp is depends on the
/// machine; without a window, or with a timestamp beyond the calendar, the text is fixed.
pub open spec fn is_reset_text(resets_at: Option<i64>, text: Seq<char>) -> bool {
    match resets_at {
        None => text == reset_time_display(None, None),
        Some(timestamp) => if is_calendar_time(timestamp) {
            local_time_may_be(timestamp, "%Y-%m-%d %H:%M:%S"@, text)
        } else {
            text == reset_time_display(resets_at, None)
        },
    }
}

/// Chooses the text for the weekly reset: a mark without a window, the local time where there is
/// one, and an error text otherwise.
pub fn choose_reset_time_text(resets_at: Option<i64>, local: Option<String>) -> (text: String)
    ensures
        text@ == reset_time_display(
            resets_at,
            match local {
                Some(shown) => Some(shown@),
                None => None,
            },
        ),
{
    match (resets_at, local) {
        (None, _) => "--（无周窗口）".to_owned(),
        (Some(_), Some(shown)) => shown,
        (Some(_), None) => "时间格式错误".to_owned(),
    }
}

impl QuotaStatus {
    /// The fixed text `5h|week%`.
    pub fn display_message(&self) -> (text: String)
        ensures
            text@ == quota_message(self.five_hour, self.seven_day),
    {
        let mut text = format_display_percent(self.five_hour);
        text.append("|");
        text.append(format_display_percent(self.seven_day).as_str());
        text.append("%");
        text
    }

    /// What the record keeps of a status.
    pub fn recorded(&self) -> (record: RecordedStatus)
        ensures
            record.relay == self.relay,
            record.five_hour == self.five_hour,
            record.seven_day == self.seven_day,
            record.reset_cells == self.reset_cells,
    {
        RecordedStatus {
            relay: copy_relay(&self.relay),
            five_hour: self.five_hour,
            seven_day: self.seven_day,
            reset_cells: self.reset_cells,
        }
    }

    /// The weekly reset in the local time zone.
    pub fn reset_time_text(&self) -> (text: String)
        ensures
            is_reset_text(self.seven_day_resets_at, text@),
    {
        let local = match self.seven_day_resets_at {
            Some(timestamp) => local_time_text(timestamp, "%Y-%m-%d %H:%M:%S"),
            None => None,
        };
        choose_reset_time_text(self.seven_day_resets_at, local)
    }
}

/// How long a window still runs, in seconds: nothing once it has ended.
pub open spec fn remaining_seconds(resets_at: i64, now: i64) -> int {
    if resets_at <= now {
        0
    } else if resets_at - now > i64::MAX {
        i64::MAX as int
    } else {
        resets_at - now
    }
}

/// The number of hourglass cells: the remaining time in tenths of a week, rounded to the nearest
/// whole number with halves up, and at most ten.
pub open spec fn week_reset_cells(resets_at: i64, now: i64) -> int {
    let rounded = (2 * remaining_seconds(resets_at, now) + WEEK_RESET_CELL_SECONDS) / (2
        * WEEK_RESET_CELL_SECONDS as int);
    if rounded > WEEK_RESET_CELL_COUNT {
        WEEK_RESET_CELL_COUNT as int
    } else {
        rounded
    }
}

/// Maps the rest of the weekly window to zero to ten hourglass cells.
pub fn calculate_week_reset_cells(resets_at: Option<i64>, now: i64) -> (cells: Option<u8>)
    ensures
        match resets_at {
            None => cells is None,
            Some(timestamp) => cells matches Some(count) && count == week_reset_cells(
                timestamp,
                now,
            ),
        },
{
    match resets_at {
        None => None,
        Some(timestamp) => {
            let difference: i128 = timestamp as i128 - now as i128;
            let remaining: i128 = if difference <= 0 {
                0
            } else if difference > i64::MAX as i128 {
                i64::MAX as i128
            } else {
                difference
            };
            let rounded: i128 = (2 * remaining + WEEK_RESET_CELL_SECONDS as i128) / (2
                * WEEK_RESET_CELL_SECONDS as i128);
            if rounded > WEEK_RESET_CELL_COUNT as i128 {
                Some(WEEK_RESET_CELL_COUNT)
            } else {
                Some(rounded as u8)
            }
        },
    }
}

/// Formats a remaining percentage in two characters.
pub fn format_display_percent(percent: Option<u8>) -> (text: String)
    ensures
        text@ == percent_text(percent),
{
    match percent {
        None => "--".to_owned(),
        Some(value) => {
            let shown: u8 = if value > 99 {
                99
            } else {
                value
            };
            let mut text = String::new();
            push_padded_decimal(&mut text, shown as u64, 2);
            assert(text@ =~= percent_text(percent));
            text
        },
    }
}

/// Whether a chart is the latest of a history, with the running period last; without a history it
/// is empty.
pub open spec fn is_latest_chart(
    chart: ConsumptionChart,
    history: Option<&ConsumptionHistory>,
) -> bool {
    match history {
        Some(stored) => chart.end_at == stored.chart.end_at && chart.bars@ == live_bars(stored@),
        None => chart.end_at == 0 && chart.bars@ == no_bars(),
    }
}

/// The chart of the latest samples, the running period among them.
pub fn latest_consumption(history: Option<&ConsumptionHistory>) -> (chart: ConsumptionChart)
    ensures
        is_latest_chart(chart, history),
{
    match history {
        Some(stored) => stored.live_chart(),
        None => ConsumptionChart::default(),
    }
}

/// The distance of two percentages.
pub open spec fn distance(left: int, right: int) -> int {
    if left < right {
        right - left
    } else {
        left - right
    }
}

/// Whether a percentage below the low mark differs from what was shown.
pub open spec fn low_quota_differs(current: Option<u8>, recorded: Option<u8>) -> bool {
    current matches Some(value) && value < LOW_QUOTA_FORCE_REFRESH_THRESHOLD && current != recorded
}

/// Whether a percentage has moved by the threshold, or its window has come or gone.
pub open spec fn quota_differs(current: Option<u8>, recorded: Option<u8>, threshold: u8) -> bool {
    match (current, recorded) {
        (Some(now), Some(before)) => distance(now as int, before as int) >= threshold,
        _ => current != recorded,
    }
}

/// Whether a relay's balance calls for a refresh: another provider or unit, a balance that came,
/// went, or moved by one unit, or another chart.
pub open spec fn relay_differs(current: RelayBalance, recorded: RelayBalance) -> bool {
    ||| current.provider_id@ != recorded.provider_id@
    ||| current.unit@ != recorded.unit@
    ||| (match (current.remaining, recorded.remaining) {
        (Some(now), Some(before)) => distance(now as int, before as int)
            >= BALANCE_REFRESH_THRESHOLD,
        (None, None) => false,
        _ => true,
    })
    ||| current.chart.end_at != recorded.chart.end_at
    ||| current.chart.bars@ != recorded.chart.bars@
}

/// Whether the source of the quota calls for a refresh: official and relay changed places, or the
/// relay's state differs.
pub open spec fn source_differs(
    current: Option<RelayBalance>,
    recorded: Option<RelayBalance>,
) -> bool {
    match (current, recorded) {
        (Some(now), Some(before)) => relay_differs(now, before),
        (None, None) => false,
        _ => true,
    }
}

/// Whether the percentages of the official account call for a refresh.
pub open spec fn windows_differ(current: QuotaStatus, record: RecordedStatus) -> bool {
    ||| low_quota_differs(current.five_hour, record.five_hour)
    ||| low_quota_differs(current.seven_day, record.seven_day)
    ||| quota_differs(current.five_hour, record.five_hour, FIVE_HOUR_REFRESH_THRESHOLD)
    ||| quota_differs(current.seven_day, record.seven_day, SEVEN_DAY_REFRESH_THRESHOLD)
}

/// Whether a status calls for a refresh of the keyboard. The percentages count only for the official
/// account; a relay has its own rules.
pub open spec fn refresh_due(current: QuotaStatus, recorded: Option<RecordedStatus>) -> bool {
    match recorded {
        None => true,
        Some(record) => {
            ||| source_differs(current.relay, record.relay)
            ||| current.relay is None && windows_differ(current, record)
        },
    }
}

/// Whether a status has moved far enough from what the keyboard shows. The hourglass alone never
/// calls for a refresh.
pub fn should_refresh(current: &QuotaStatus, recorded: Option<&RecordedStatus>) -> (due: bool)
    ensures
        due == refresh_due(
            *current,
            match recorded {
                Some(record) => Some(*record),
                None => None,
            },
        ),
{
    match recorded {
        None => true,
        Some(record) => {
            source_changed(&current.relay, &record.relay) || (current.relay.is_none()
                && windows_changed(current, record))
        },
    }
}

fn windows_changed(current: &QuotaStatus, record: &RecordedStatus) -> (changed: bool)
    ensures
        changed == windows_differ(*current, *record),
{
    low_quota_changed(current.five_hour, record.five_hour) || low_quota_changed(
        current.seven_day,
        record.seven_day,
    ) || quota_changed(current.five_hour, record.five_hour, FIVE_HOUR_REFRESH_THRESHOLD)
        || quota_changed(current.seven_day, record.seven_day, SEVEN_DAY_REFRESH_THRESHOLD)
}

fn source_changed(current: &Option<RelayBalance>, recorded: &Option<RelayBalance>) -> (changed:
    bool)
    ensures
        changed == source_differs(*current, *recorded),
{
    match (current, recorded) {
        (Some(now), Some(before)) => relay_changed(now, before),
        (None, None) => false,
        _ => true,
    }
}

fn relay_changed(current: &RelayBalance, recorded: &RelayBalance) -> (changed: bool)
    ensures
        changed == relay_differs(*current, *recorded),
{
    let moved = match (current.remaining, recorded.remaining) {
        (Some(now), Some(before)) => {
            let gap: i128 = if now < before {
                before as i128 - now as i128
            } else {
                now as i128 - before as i128
            };
            gap >= BALANCE_REFRESH_THRESHOLD as i128
        },
        (None, None) => false,
        _ => true,
    };
    !same_text(current.provider_id.as_str(), recorded.provider_id.as_str()) || !same_text(
        current.unit.as_str(),
        recorded.unit.as_str(),
    ) || moved || !current.chart.same(&recorded.chart)
}

fn low_quota_changed(current: Option<u8>, recorded: Option<u8>) -> (changed: bool)
    ensures
        changed == low_quota_differs(current, recorded),
{
    match current {
        Some(value) => value < LOW_QUOTA_FORCE_REFRESH_THRESHOLD && current != recorded,
        None => false,
    }
}

fn quota_changed(current: Option<u8>, recorded: Option<u8>, threshold: u8) -> (changed: bool)
    ensures
        changed == quota_differs(current, recorded, threshold),
{
    match (current, recorded) {
        (Some(now), Some(before)) => {
            let gap: u8 = if now < before {
                before - now
            } else {
                now - before
            };
            gap >= threshold
        },
        _ => current != recorded,
    }
}

/// Where the record lives below the root of the current user.
pub const REGISTRY_PATH: &'static str = "Software\\Smallcat\\CodexKeyboardQuota";

pub const REGISTRY_FIVE_HOUR_VALUE: &'static str = "FiveHourRemaining";

pub const REGISTRY_SEVEN_DAY_VALUE: &'static str = "SevenDayRemaining";

pub const REGISTRY_WEEK_RESET_CELLS_VALUE: &'static str = "SevenDayResetCells";

/// A stored value as it was found: missing, a text, a number of the older format, or unreadable
/// for a reason.
#[derive(Debug)]
pub enum RegistryValue {
    Missing,
    Text(String),
    Dword(u32),
    Unreadable(String),
}

/// Why a stored value was rejected.
#[derive(Debug)]
pub enum RegistryError {
    NotNumber { name: String, text: String },
    OutOfRange { name: String, value: u32 },
    Unreadable { name: String, reason: String },
}

impl RegistryError {
    /// What a message says of the error.
    pub open spec fn described(self) -> Seq<char> {
        match self {
            RegistryError::NotNumber { name, text } => "注册表 "@ + name@ + " 不是有效数值："@ + text@,
            RegistryError::OutOfRange { name, value } => "注册表 "@ + name@ + " 超出允许范围："@
                + decimal(value as nat),
            RegistryError::Unreadable { name, reason } => "无法读取注册表 "@ + name@ + ": "@ + reason@,
        }
    }

    /// The error as a message.
    pub fn message(&self) -> (text: String)
        ensures
            text@ == self.described(),
    {
        match self {
            RegistryError::NotNumber { name, text } => {
                let mut message = "注册表 ".to_owned();
                message.append(name.as_str());
                message.append(" 不是有效数值：");
                message.append(text.as_str());
                message
            },
            RegistryError::OutOfRange { name, value } => {
                let mut message = "注册表 ".to_owned();
                message.append(name.as_str());
                message.append(" 超出允许范围：");
                message.append(decimal_text(*value as u64).as_str());
                message
            },
            RegistryError::Unreadable { name, reason } => {
                let mut message = "无法读取注册表 ".to_owned();
                message.append(name.as_str());
                message.append(": ");
                message.append(reason.as_str());
                message
            },
        }
    }
}

/// The stored form of a value: decimal, or `--` without a limit.
pub open spec fn registry_text(value: Option<u8>) -> Seq<char> {
    match value {
        Some(number) => decimal(number as nat),
        None => "--"@,
    }
}

/// Converts a value to its stored form.
pub fn registry_number_text(value: Option<u8>) -> (text: String)
    ensures
        text@ == registry_text(value),
{
    match value {
        Some(number) => decimal_text(number as u64),
        None => "--".to_owned(),
    }
}

/// What a stored text denotes: no limit, or a number up to the maximum.
pub open spec fn registry_number(text: Seq<char>, maximum: u8) -> Option<Option<u8>> {
    if text == "--"@ {
        Some(None)
    } else {
        match byte_denoted(text) {
            Some(value) if value <= maximum => Some(Some(value)),
            _ => None,
        }
    }
}

/// Reads a stored text: `--`, or a number up to the maximum.
pub fn parse_registry_number(text: &str, name: &str, maximum: u8) -> (value: Result<
    Option<u8>,
    RegistryError,
>)
    ensures
        match value {
            Ok(number) => registry_number(text@, maximum) == Some(number),
            Err(RegistryError::NotNumber { name: named, text: kept }) => text@ != "--"@
                && byte_denoted(text@) is None && named@ == name@ && kept@ == text@,
            Err(RegistryError::OutOfRange { name: named, value: found }) => text@ != "--"@
                && byte_denoted(text@) == Some(found as u8) && maximum < found <= u8::MAX && named@
                == name@,
            Err(RegistryError::Unreadable { .. }) => false,
        },
{
    if same_text(text, "--") {
        return Ok(None);
    }
    match parse_byte(text) {
        None => Err(RegistryError::NotNumber { name: name.to_owned(), text: text.to_owned() }),
        Some(value) => if value > maximum {
            Err(RegistryError::OutOfRange { name: name.to_owned(), value: value as u32 })
        } else {
            Ok(Some(value))
        },
    }
}

/// What a stored value gives: `Ok(None)` where it is missing.
pub open spec fn stored_number(value: RegistryValue, maximum: u8) -> Result<
    Option<Option<u8>>,
    (),
> {
    match value {
        RegistryValue::Missing => Ok(None),
        RegistryValue::Text(text) => match registry_number(text@, maximum) {
            Some(number) => Ok(Some(number)),
            None => Err(()),
        },
        RegistryValue::Dword(number) => if number <= maximum {
            Ok(Some(Some(number as u8)))
        } else {
            Err(())
        },
        RegistryValue::Unreadable(_) => Err(()),
    }
}

/// Which error a rejected value gives, under the name of the value.
pub open spec fn rejected(
    value: RegistryValue,
    name: Seq<char>,
    maximum: u8,
    error: RegistryError,
) -> bool {
    match (value, error) {
        (
            RegistryValue::Text(text),
            RegistryError::NotNumber { name: named, text: kept },
        ) => text@ != "--"@ && byte_denoted(text@) is None && named@ == name && kept@ == text@,
        (
            RegistryValue::Text(text),
            RegistryError::OutOfRange { name: named, value: found },
        ) => text@ != "--"@ && byte_denoted(text@) == Some(found as u8) && maximum < found
            <= u8::MAX && named@ == name,
        (
            RegistryValue::Dword(number),
            RegistryError::OutOfRange { name: named, value: found },
        ) => number > maximum && found == number && named@ == name,
        (
            RegistryValue::Unreadable(why),
            RegistryError::Unreadable { name: named, reason },
        ) => named@ == name && reason@ == why@,
        _ => false,
    }
}

/// Reads a stored value in either format; `Ok(None)` where it is missing.
pub fn read_optional_registry_number(value: &RegistryValue, name: &str, maximum: u8) -> (number:
    Result<Option<Option<u8>>, RegistryError>)
    ensures
        match number {
            Ok(found) => stored_number(*value, maximum) == Ok::<Option<Option<u8>>, ()>(found),
            Err(error) => stored_number(*value, maximum) is Err && rejected(
                *value,
                name@,
                maximum,
                error,
            ),
        },
{
    match value {
        RegistryValue::Missing => Ok(None),
        RegistryValue::Text(text) => match parse_registry_number(text.as_str(), name, maximum) {
            Ok(number) => Ok(Some(number)),
            Err(error) => Err(error),
        },
        RegistryValue::Dword(found) => if *found <= maximum as u32 {
            Ok(Some(Some(*found as u8)))
        } else {
            Err(RegistryError::OutOfRange { name: name.to_owned(), value: *found })
        },
        RegistryValue::Unreadable(reason) => Err(
            RegistryError::Unreadable { name: name.to_owned(), reason: reason.clone() },
        ),
    }
}

/// The three stored values of a record.
#[derive(Debug)]
pub struct StoredRecord {
    pub five_hour: RegistryValue,
    pub seven_day: RegistryValue,
    pub reset_cells: RegistryValue,
}

/// Whether a record, or an error, is what the stored values say. They are judged in order: the first
/// that is missing or rejected decides.
pub open spec fn is_record_read(
    status: Result<Option<RecordedStatus>, RegistryError>,
    stored: StoredRecord,
    relay: Option<RelayBalance>,
) -> bool {
    match (
        stored_number(stored.five_hour, 100),
        stored_number(stored.seven_day, 100),
        stored_number(stored.reset_cells, WEEK_RESET_CELL_COUNT),
    ) {
        (Err(_), _, _) => status matches Err(error) && rejected(
            stored.five_hour,
            REGISTRY_FIVE_HOUR_VALUE@,
            100,
            error,
        ),
        (Ok(None), _, _) => status matches Ok(None),
        (Ok(Some(_)), Err(_), _) => status matches Err(error) && rejected(
            stored.seven_day,
            REGISTRY_SEVEN_DAY_VALUE@,
            100,
            error,
        ),
        (Ok(Some(_)), Ok(None), _) => status matches Ok(None),
        (Ok(Some(_)), Ok(Some(_)), Err(_)) => status matches Err(error) && rejected(
            stored.reset_cells,
            REGISTRY_WEEK_RESET_CELLS_VALUE@,
            WEEK_RESET_CELL_COUNT,
            error,
        ),
        (Ok(Some(_)), Ok(Some(_)), Ok(None)) => status matches Ok(None),
        (Ok(Some(five_hour)), Ok(Some(seven_day)), Ok(Some(reset_cells))) => status
            == Ok::<Option<RecordedStatus>, RegistryError>(
            Some(RecordedStatus { relay, five_hour, seven_day, reset_cells }),
        ),
    }
}

/// Restores what was last shown. A missing value counts as a first run; the values are judged in
/// order, so the first missing or rejected one decides.
pub fn read_recorded_status(stored: &StoredRecord, relay: Option<RelayBalance>) -> (status: Result<
    Option<RecordedStatus>,
    RegistryError,
>)
    ensures
        is_record_read(status, *stored, relay),
{
    let five_hour = match read_optional_registry_number(
        &stored.five_hour,
        REGISTRY_FIVE_HOUR_VALUE,
        100,
    ) {
        Ok(Some(value)) => value,
        Ok(None) => return Ok(None),
        Err(error) => return Err(error),
    };
    let seven_day = match read_optional_registry_number(
        &stored.seven_day,
        REGISTRY_SEVEN_DAY_VALUE,
        100,
    ) {
        Ok(Some(value)) => value,
        Ok(None) => return Ok(None),
        Err(error) => return Err(error),
    };
    let reset_cells = match read_optional_registry_number(
        &stored.reset_cells,
        REGISTRY_WEEK_RESET_CELLS_VALUE,
        WEEK_RESET_CELL_COUNT,
    ) {
        Ok(Some(value)) => value,
        Ok(None) => return Ok(None),
        Err(error) => return Err(error),
    };
    Ok(Some(RecordedStatus { relay, five_hour, seven_day, reset_cells }))
}

/// Whether stored values are the texts for a status.
pub open spec fn is_stored_form(stored: StoredRecord, status: QuotaStatus) -> bool {
    &&& stored.five_hour matches RegistryValue::Text(text) && text@ == registry_text(
        status.five_hour,
    )
    &&& stored.seven_day matches RegistryValue::Text(text) && text@ == registry_text(
        status.seven_day,
    )
    &&& stored.reset_cells matches RegistryValue::Text(text) && text@ == registry_text(
        status.reset_cells,
    )
}

/// The stored form of what is shown now.
pub fn write_recorded_status(status: &QuotaStatus) -> (stored: StoredRecord)
    ensures
        is_stored_form(stored, *status),
{
    StoredRecord {
        five_hour: RegistryValue::Text(registry_number_text(status.five_hour)),
        seven_day: RegistryValue::Text(registry_number_text(status.seven_day)),
        reset_cells: RegistryValue::Text(registry_number_text(status.reset_cells)),
    }
}

/// A value up to the maximum that is stored and read again comes back unchanged.
pub proof fn law_stored_number_reads_back(value: Option<u8>, maximum: u8)
    requires
        value matches Some(number) ==> number <= maximum,
    ensures
        registry_number(registry_text(value), maximum) == Some(value),
{
    if let Some(number) = value {
        lemma_byte_round_trip(number);
        lemma_decimal_is_no_dash(number as nat);
    }
}

proof fn lemma_decimal_is_no_dash(value: nat)
    ensures
        decimal(value) != "--"@,
{
    crate::text::lemma_decimal_denotes(value);
    reveal_strlit("--");
    assert(crate::text::is_digit(decimal(value)[0]));
}

/// What is written of a status reads back as the record of that status.
pub proof fn law_written_record_reads_back(
    five_hour: Option<u8>,
    seven_day: Option<u8>,
    reset_cells: Option<u8>,
    stored: StoredRecord,
)
    requires
        five_hour matches Some(value) ==> value <= 100,
        seven_day matches Some(value) ==> value <= 100,
        reset_cells matches Some(value) ==> value <= WEEK_RESET_CELL_COUNT,
        stored.five_hour matches RegistryValue::Text(text) && text@ == registry_text(five_hour),
        stored.seven_day matches RegistryValue::Text(text) && text@ == registry_text(seven_day),
        stored.reset_cells matches RegistryValue::Text(text) && text@ == registry_text(reset_cells),
    ensures
        stored_number(stored.five_hour, 100) == Ok::<Option<Option<u8>>, ()>(Some(five_hour)),
        stored_number(stored.seven_day, 100) == Ok::<Option<Option<u8>>, ()>(Some(seven_day)),
        stored_number(stored.reset_cells, WEEK_RESET_CELL_COUNT) == Ok::<Option<Option<u8>>, ()>(
            Some(reset_cells),
        ),
{
    law_stored_number_reads_back(five_hour, 100);
    law_stored_number_reads_back(seven_day, 100);
    law_stored_number_reads_back(reset_cells, WEEK_RESET_CELL_COUNT);
}

/// The hourglass has ten cells for a full week or more, none once the window has ended, and never
/// gains a cell as time goes on.
pub proof fn law_hourglass_runs_down(resets_at: i64, earlier: i64, later: i64)
    requires
        earlier <= later,
    ensures
        0 <= week_reset_cells(resets_at, later) <= week_reset_cells(resets_at, earlier)
            <= WEEK_RESET_CELL_COUNT,
        resets_at <= later ==> week_reset_cells(resets_at, later) == 0,
        resets_at - earlier >= SEVEN_DAY_WINDOW_MINUTES * 60 ==> week_reset_cells(
            resets_at,
            earlier,
        ) == WEEK_RESET_CELL_COUNT,
{
}

/// Right after a status has been written, it calls for no refresh.
pub proof fn law_shown_status_is_not_due(status: QuotaStatus, record: RecordedStatus)
    requires
        record.relay == status.relay,
        record.five_hour == status.five_hour,
        record.seven_day == status.seven_day,
    ensures
        !refresh_due(status, Some(record)),
{
}

/// A change of the hourglass or of the reset time alone never calls for a refresh.
pub proof fn law_hourglass_alone_is_not_due(
    status: QuotaStatus,
    changed: QuotaStatus,
    record: RecordedStatus,
)
    requires
        changed.relay == status.relay,
        changed.five_hour == status.five_hour,
        changed.seven_day == status.seven_day,
    ensures
        refresh_due(status, Some(record)) == refresh_due(changed, Some(record)),
{
}

/// Where no refresh is due, what the keyboard shows is close: the same source, the same bars, a
/// balance within one unit, and, of the official account, percentages within their thresholds.
pub proof fn law_skipped_refresh_leaves_display_close(status: QuotaStatus, record: RecordedStatus)
    requires
        !refresh_due(status, Some(record)),
    ensures
        status.relay is Some == record.relay is Some,
        status.relay matches Some(now) ==> {
            let before = record.relay->0;
            &&& now.provider_id@ == before.provider_id@
            &&& now.unit@ == before.unit@
            &&& now.chart.end_at == before.chart.end_at
            &&& now.chart.bars@ == before.chart.bars@
            &&& now.remaining is Some == before.remaining is Some
            &&& now.remaining is Some ==> distance(
                now.remaining->0 as int,
                before.remaining->0 as int,
            ) < BALANCE_REFRESH_THRESHOLD
        },
        status.relay is None ==> {
            &&& status.five_hour is Some == record.five_hour is Some
            &&& status.five_hour is Some ==> distance(
                status.five_hour->0 as int,
                record.five_hour->0 as int,
            ) < FIVE_HOUR_REFRESH_THRESHOLD
            &&& status.seven_day is Some == record.seven_day is Some
            &&& status.seven_day is Some ==> distance(
                status.seven_day->0 as int,
                record.seven_day->0 as int,
            ) < SEVEN_DAY_REFRESH_THRESHOLD
        },
{
}

/// Of the official account, a percentage below the low mark that differs from what is shown is
/// always due, as is a window that came or went. A change between official quota and relay is always
/// due. Of a relay, another provider or unit, a balance that came, went or moved by one unit, and a
/// period that ended are always due.
pub proof fn law_forced_refreshes(status: QuotaStatus, record: RecordedStatus)
    ensures
        status.relay is None ==> {
            &&& (status.five_hour matches Some(value) && value < LOW_QUOTA_FORCE_REFRESH_THRESHOLD
                && status.five_hour != record.five_hour) ==> refresh_due(status, Some(record))
            &&& (status.seven_day matches Some(value) && value < LOW_QUOTA_FORCE_REFRESH_THRESHOLD
                && status.seven_day != record.seven_day) ==> refresh_due(status, Some(record))
            &&& status.five_hour is Some != record.five_hour is Some ==> refresh_due(
                status,
                Some(record),
            )
            &&& status.seven_day is Some != record.seven_day is Some ==> refresh_due(
                status,
                Some(record),
            )
        },
        status.relay is Some != record.relay is Some ==> refresh_due(status, Some(record)),
        status.relay is Some && record.relay is Some ==> {
            let now = status.relay->0;
            let before = record.relay->0;
            ||| now.provider_id@ == before.provider_id@ && now.unit@ == before.unit@
                && now.remaining is Some == before.remaining is Some && now.chart.end_at
                == before.chart.end_at && (now.remaining is Some ==> distance(
                now.remaining->0 as int,
                before.remaining->0 as int,
            ) < BALANCE_REFRESH_THRESHOLD)
            ||| refresh_due(status, Some(record))
        },
{
}

/// Percentages say nothing of a relay: whatever they are, a refresh is due for the relay's own
/// changes alone.
pub proof fn law_percentages_do_not_count_for_a_relay(
    status: QuotaStatus,
    other: QuotaStatus,
    record: RecordedStatus,
)
    requires
        status.relay is Some,
        other.relay == status.relay,
    ensures
        refresh_due(status, Some(record)) == source_differs(status.relay, record.relay),
        refresh_due(other, Some(record)) == refresh_due(status, Some(record)),
{
}

/// Of the official account, a percentage below five is shown at once when it differs from what is
/// shown, whatever that is: by one point, by many, or no limit at all.
pub proof fn law_low_percentage_is_shown_at_once(
    status: QuotaStatus,
    record: RecordedStatus,
    value: u8,
)
    requires
        status.relay is None,
        value < LOW_QUOTA_FORCE_REFRESH_THRESHOLD,
        ({
            ||| status.five_hour == Some(value) && record.five_hour != Some(value)
            ||| status.seven_day == Some(value) && record.seven_day != Some(value)
        }),
    ensures
        LOW_QUOTA_FORCE_REFRESH_THRESHOLD == 5,
        refresh_due(status, Some(record)),
{
}

/// Of the official account, five points of the five-hour percentage or two points of the weekly one
/// call for a refresh in either direction, and so does a window that came or went. Without a record
/// a refresh is always due.
pub proof fn law_moved_percentage_is_due(status: QuotaStatus, record: RecordedStatus)
    requires
        status.relay is None,
        ({
            ||| status.five_hour is Some != record.five_hour is Some
            ||| status.seven_day is Some != record.seven_day is Some
            ||| status.five_hour is Some && record.five_hour is Some && (status.five_hour->0
                - record.five_hour->0 >= 5 || record.five_hour->0 - status.five_hour->0 >= 5)
            ||| status.seven_day is Some && record.seven_day is Some && (status.seven_day->0
                - record.seven_day->0 >= 2 || record.seven_day->0 - status.seven_day->0 >= 2)
        }),
    ensures
        refresh_due(status, Some(record)),
        refresh_due(status, None),
{
}

/// Of the official account nothing else is due: percentages that are the same, or that moved by less
/// than five and two points and are not below five, leave the keyboard alone.
pub proof fn law_small_moves_are_not_due(status: QuotaStatus, record: RecordedStatus)
    requires
        status.relay is None,
        record.relay is None,
        status.five_hour == record.five_hour || (status.five_hour is Some && record.five_hour is Some
            && status.five_hour->0 >= 5 && -5 < status.five_hour->0 - record.five_hour->0 < 5),
        status.seven_day == record.seven_day || (status.seven_day is Some && record.seven_day is Some
            && status.seven_day->0 >= 5 && -2 < status.seven_day->0 - record.seven_day->0 < 2),
    ensures
        !refresh_due(status, Some(record)),
{
}

/// Of a relay a refresh is due exactly for another provider, another unit, a balance that came, went
/// or moved by a whole unit in either direction, and another chart.
pub proof fn law_relay_is_due_for_its_own_changes(
    status: QuotaStatus,
    record: RecordedStatus,
    now: RelayBalance,
    before: RelayBalance,
)
    requires
        status.relay == Some(now),
        record.relay == Some(before),
    ensures
        refresh_due(status, Some(record)) <==> {
            ||| now.provider_id@ != before.provider_id@
            ||| now.unit@ != before.unit@
            ||| now.remaining is Some != before.remaining is Some
            ||| now.remaining is Some && before.remaining is Some && (now.remaining->0
                - before.remaining->0 >= 1_000_000 || before.remaining->0 - now.remaining->0
                >= 1_000_000)
            ||| now.chart.end_at != before.chart.end_at
            ||| now.chart.bars@ != before.chart.bars@
        },
{
}

/// Official account and relay never pass for each other.
pub proof fn law_changed_source_is_due(status: QuotaStatus, record: RecordedStatus)
    requires
        status.relay is Some != record.relay is Some,
    ensures
        refresh_due(status, Some(record)),
{
}

/// The hourglass has as many cells as there are tenths of a week left from now to the reset, to the
/// nearest whole number with halves up: none once the reset has passed, and ten from nine and a half
/// tenths on.
pub proof fn law_hourglass_counts_tenths_of_a_week(resets_at: i64, now: i64)
    ensures
        ({
            let cells = week_reset_cells(resets_at, now);
            let left = resets_at - now;
            &&& 0 <= cells <= 10
            &&& left <= 0 ==> cells == 0
            &&& 2 * left >= 19 * 60_480 ==> cells == 10
            &&& 0 < left && 2 * left < 19 * 60_480 ==> (2 * cells - 1) * 60_480 <= 2 * left < (2
                * cells + 1) * 60_480
        }),
{
}

/// A percentage is shown as its tens digit and then its units digit, and a hundred as 99. No limit
/// is two dashes.
pub proof fn law_percentage_is_two_digits(value: u8, shown: int)
    requires
        shown == (if value >= 99 {
            99
        } else {
            value as int
        }),
    ensures
        percent_text(Some(value)).len() == 2,
        percent_text(Some(value))[0] as int == '0' as int + shown / 10,
        percent_text(Some(value))[1] as int == '0' as int + shown % 10,
        percent_text(None) == seq!['-', '-'],
{
    reveal_strlit("--");
    reveal_with_fuel(padded_decimal, 3);
    assert(percent_text(None) =~= seq!['-', '-']);
}

/// The text of a status has the five-hour percentage before the line and the weekly one after it.
pub proof fn law_message_has_five_hours_before_the_week(five_hour: Option<u8>, seven_day: Option<u8>)
    ensures
        quota_message(five_hour, seven_day) == percent_text(five_hour) + seq!['|'] + percent_text(
            seven_day,
        ) + seq!['%'],
{
    reveal_strlit("|");
    reveal_strlit("%");
}

/// A stored number is decimal digits, with a plus sign before them or none, that denote a number
/// within the bound; anything else but the two dashes is refused.
pub proof fn law_stored_number_is_within_its_bound(text: Seq<char>, maximum: u8)
    requires
        text != seq!['-', '-'],
    ensures
        match registry_number(text, maximum) {
            Some(Some(value)) => {
                let digits = if text.len() > 0 && text[0] == '+' {
                    text.skip(1)
                } else {
                    text
                };
                &&& value <= maximum
                &&& digits.len() > 0
                &&& forall|i: int| 0 <= i < digits.len() ==> '0' <= #[trigger] digits[i] <= '9'
                &&& crate::text::digits_value(digits) == value
            },
            Some(None) => false,
            None => true,
        },
        registry_number(seq!['-', '-'], maximum) == Some(None::<u8>),
{
    reveal_strlit("--");
    assert("--"@ =~= seq!['-', '-']);
}

/// A number of the older format is taken as it is where it is within the bound and refused where it
/// is not; a value that is missing is no error.
pub proof fn law_older_number_is_taken_within_its_bound(number: u32, maximum: u8)
    ensures
        number <= maximum ==> stored_number(RegistryValue::Dword(number), maximum) == Ok::<
            Option<Option<u8>>,
            (),
        >(Some(Some(number as u8))),
        number > maximum ==> stored_number(RegistryValue::Dword(number), maximum) is Err,
        stored_number(RegistryValue::Missing, maximum) == Ok::<Option<Option<u8>>, ()>(None),
{
}

/// What was stored of a status comes back as its record, with the relay that is stored beside it.
pub proof fn law_stored_status_comes_back(
    status: QuotaStatus,
    stored: StoredRecord,
    relay: Option<RelayBalance>,
    read: Result<Option<RecordedStatus>, RegistryError>,
)
    requires
        status.five_hour matches Some(value) ==> value <= 100,
        status.seven_day matches Some(value) ==> value <= 100,
        status.reset_cells matches Some(value) ==> value <= 10,
        is_stored_form(stored, status),
        is_record_read(read, stored, relay),
    ensures
        read matches Ok(Some(record)) && record.five_hour == status.five_hour && record.seven_day
            == status.seven_day && record.reset_cells == status.reset_cells && record.relay == relay,
{
    law_written_record_reads_back(
        status.five_hour,
        status.seven_day,
        status.reset_cells,
        stored,
    );
}

/// A record that lacks a value is no record, unless a value before it is refused; and where there is
/// a record, no percentage in it is above a hundred and no hourglass above ten cells.
pub proof fn law_record_is_whole_and_within_bounds(
    stored: StoredRecord,
    relay: Option<RelayBalance>,
    read: Result<Option<RecordedStatus>, RegistryError>,
)
    requires
        is_record_read(read, stored, relay),
    ensures
        stored.five_hour is Missing ==> read == Ok::<Option<RecordedStatus>, RegistryError>(None),
        stored.seven_day is Missing || stored.reset_cells is Missing ==> match read {
            Ok(found) => found is None,
            Err(_) => true,
        },
        read matches Ok(Some(record)) ==> {
            &&& record.relay == relay
            &&& (record.five_hour matches Some(value) ==> value <= 100)
            &&& (record.seven_day matches Some(value) ==> value <= 100)
            &&& (record.reset_cells matches Some(value) ==> value <= 10)
        },
{
}

/// The reset is told by the local time where there is one, and otherwise by why there is none.
pub proof fn law_reset_is_told_by_the_local_time(resets_at: i64, local: Seq<char>)
    ensures
        reset_time_display(Some(resets_at), Some(local)) == local,
        reset_time_display(None, Some(local)) == "--（无周窗口）"@,
        reset_time_display(None, None) == "--（无周窗口）"@,
        reset_time_display(Some(resets_at), None) == "时间格式错误"@,
{
}

/// A value that is refused is named, and what it was is told: the text that is no number, the number
/// that is beyond its bound, or the reason why it could not be read.
pub proof fn law_refused_value_is_named(
    value: RegistryValue,
    name: Seq<char>,
    maximum: u8,
    error: RegistryError,
)
    requires
        rejected(value, name, maximum, error),
    ensures
        match error {
            RegistryError::NotNumber { name: named, text } => named@ == name && (value
                matches RegistryValue::Text(found) && text@ == found@ && registry_number(
                found@,
                maximum,
            ) is None),
            RegistryError::OutOfRange { name: named, value: number } => named@ == name && number
                > maximum && match value {
                RegistryValue::Text(found) => number <= 255 && registry_number(
                    found@,
                    255,
                ) == Some(Some(number as u8)),
                RegistryValue::Dword(found) => found == number,
                _ => false,
            },
            RegistryError::Unreadable { name: named, reason } => named@ == name && (value
                matches RegistryValue::Unreadable(why) && reason@ == why@),
        },
{
}

} // verus!
