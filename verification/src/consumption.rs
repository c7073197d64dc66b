//! Balance samples taken once a minute, added up per half hour into the latest ten bars. A top-up
//! never takes back consumption that was already recorded. Amounts are in millionths of a unit.

use vstd::prelude::*;

verus! {

pub const BAR_COUNT: usize = 10;

pub const WINDOW_SECONDS: i64 = 1800;

pub const MAX_SAMPLE_GAP_SECONDS: i64 = 120;

/// Ten completed half-hour periods, the oldest first; `None` where there is no data or sampling
/// was interrupted.
#[derive(Clone, Copy, Debug, PartialEq, Eq)]
pub struct ConsumptionChart {
    pub end_at: i64,
    pub bars: [Option<u64>; BAR_COUNT],
}

impl Default for ConsumptionChart {
    fn default() -> (chart: ConsumptionChart)
        ensures
            chart.end_at == 0,
            chart.bars@ == no_bars(),
    {
        let chart = ConsumptionChart { end_at: 0, bars: [None; BAR_COUNT] };
        assert(chart.bars@ =~= no_bars());
        chart
    }
}

impl ConsumptionChart {
    /// Whether two charts end at the same time and hold the same bars.
    pub fn same(&self, other: &ConsumptionChart) -> (same: bool)
        ensures
            same == (self.end_at == other.end_at && self.bars@ == other.bars@),
    {
        if self.end_at != other.end_at {
            return false;
        }
        for i in 0..BAR_COUNT
            invariant
                forall|j: int| 0 <= j < i ==> self.bars@[j] == other.bars@[j],
        {
            if self.bars[i] != other.bars[i] {
                return false;
            }
        }
        assert(self.bars@ =~= other.bars@);
        true
    }
}

/// Ten bars without data.
pub open spec fn no_bars() -> Seq<Option<u64>> {
    Seq::new(BAR_COUNT as nat, |i: int| None)
}

/// The running period and the last balance that was seen, which can be stored and restored between
/// processes.
#[derive(Debug)]
pub struct ConsumptionHistory {
    pub chart: ConsumptionChart,
    pub last_checked_at: i64,
    pub last_balance: Option<i64>,
    pub consumed: u64,
    pub complete: bool,
}

impl Clone for ConsumptionHistory {
    fn clone(&self) -> (copy: ConsumptionHistory)
        ensures
            copy == *self,
    {
        ConsumptionHistory {
            chart: self.chart,
            last_checked_at: self.last_checked_at,
            last_balance: self.last_balance,
            consumed: self.consumed,
            complete: self.complete,
        }
    }
}

/// What a history holds.
pub struct HistoryView {
    pub end_at: int,
    pub bars: Seq<Option<u64>>,
    pub last_checked_at: int,
    pub last_balance: Option<i64>,
    pub consumed: u64,
    pub complete: bool,
}

impl View for ConsumptionHistory {
    type V = HistoryView;

    open spec fn view(&self) -> HistoryView {
        HistoryView {
            end_at: self.chart.end_at as int,
            bars: self.chart.bars@,
            last_checked_at: self.last_checked_at as int,
            last_balance: self.last_balance,
            consumed: self.consumed,
            complete: self.complete,
        }
    }
}

impl HistoryView {
    /// What holds of every history that starts with `new` and grows by `sample`: there are ten
    /// bars, the last sample lies in the running period, and a period counts as complete only
    /// while its last sample has a balance.
    pub open spec fn wf(self) -> bool {
        &&& self.bars.len() == BAR_COUNT
        &&& self.end_at <= self.last_checked_at < self.end_at + WINDOW_SECONDS
        &&& self.complete ==> self.last_balance is Some
    }
}

/// A history that starts with one sample.
pub open spec fn started(now: int, balance: Option<i64>) -> HistoryView {
    HistoryView {
        end_at: now,
        bars: no_bars(),
        last_checked_at: now,
        last_balance: balance,
        consumed: 0,
        complete: balance is Some,
    }
}

/// By how much a balance went down from one sample to the next; nothing where it went up.
pub open spec fn decrease(before: i64, after: i64) -> u64 {
    if before <= after {
        0
    } else if before - after > i64::MAX {
        i64::MAX as u64
    } else {
        (before - after) as u64
    }
}

/// A sum of two amounts, held at the largest amount.
pub open spec fn capped_sum(left: u64, right: u64) -> u64 {
    if left + right > u64::MAX {
        u64::MAX
    } else {
        (left + right) as u64
    }
}

/// Whether a sample follows the previous one closely enough, with both balances known.
pub open spec fn contiguous(history: HistoryView, now: int, balance: Option<i64>) -> bool {
    &&& now - history.last_checked_at <= MAX_SAMPLE_GAP_SECONDS
    &&& history.last_balance is Some
    &&& balance is Some
}

/// The consumption of the running period once a sample has been counted.
pub open spec fn consumed_with(history: HistoryView, now: int, balance: Option<i64>) -> u64 {
    if contiguous(history, now, balance) {
        capped_sum(history.consumed, decrease(history.last_balance->0, balance->0))
    } else {
        history.consumed
    }
}

/// How many whole periods have ended since the chart was last moved on.
pub open spec fn elapsed_windows(history: HistoryView, now: int) -> int {
    if now < history.end_at {
        0
    } else {
        (now - history.end_at) / WINDOW_SECONDS as int
    }
}

/// The bars moved left by a number of periods: the first of these periods is the one that was
/// running, and nothing is known of the others.
pub open spec fn shifted(bars: Seq<Option<u64>>, windows: int, finished: Option<u64>) -> Seq<
    Option<u64>,
> {
    Seq::new(
        BAR_COUNT as nat,
        |i: int|
            if i + windows < BAR_COUNT {
                bars[i + windows]
            } else if i + windows == BAR_COUNT {
                finished
            } else {
                None
            },
    )
}

/// A history after one more sample.
pub open spec fn sampled(history: HistoryView, now: int, balance: Option<i64>) -> HistoryView {
    if now < history.last_checked_at {
        started(now, balance)
    } else {
        let close = contiguous(history, now, balance);
        let consumed = consumed_with(history, now, balance);
        let complete = history.complete && close;
        let windows = elapsed_windows(history, now);
        if windows == 0 {
            HistoryView { last_checked_at: now, last_balance: balance, consumed, complete, ..history }
        } else {
            HistoryView {
                end_at: history.end_at + windows * WINDOW_SECONDS,
                bars: shifted(
                    history.bars,
                    windows,
                    if complete {
                        Some(consumed)
                    } else {
                        None
                    },
                ),
                last_checked_at: now,
                last_balance: balance,
                consumed: 0,
                complete: close && windows == 1,
            }
        }
    }
}

/// What the running period has consumed so far, where every sample of it is known.
pub open spec fn running_bar(history: HistoryView) -> Option<u64> {
    if history.complete {
        Some(history.consumed)
    } else {
        None
    }
}

/// The bars with the running period at the right end, and without the oldest period.
pub open spec fn live_bars(history: HistoryView) -> Seq<Option<u64>> {
    history.bars.drop_first().push(running_bar(history))
}

impl ConsumptionHistory {
    /// Starts the first period at the first sample; without a balance the period yields no bar.
    pub fn new(now: i64, balance: Option<i64>) -> (history: ConsumptionHistory)
        ensures
            history@ == started(now as int, balance),
            history@.wf(),
    {
        let history = ConsumptionHistory {
            chart: ConsumptionChart { end_at: now, bars: [None; BAR_COUNT] },
            last_checked_at: now,
            last_balance: balance,
            consumed: 0,
            complete: balance.is_some(),
        };
        assert(history.chart.bars@ =~= no_bars());
        history
    }

    /// Whether the times of a history and of a sample are close enough to be subtracted. A sample
    /// from before the last one starts anew, and nothing is subtracted.
    pub open spec fn comparable(&self, now: i64) -> bool {
        now >= self.last_checked_at ==> {
            &&& now - self.last_checked_at <= i64::MAX
            &&& i64::MIN <= now - self.chart.end_at <= i64::MAX
        }
    }

    /// Tests whether a sample at a time can be taken; a restored history may hold any times.
    pub fn can_sample(&self, now: i64) -> (possible: bool)
        ensures
            possible == self.comparable(now),
    {
        let checked: i128 = now as i128 - self.last_checked_at as i128;
        let passed: i128 = now as i128 - self.chart.end_at as i128;
        checked < 0 || (checked <= i64::MAX as i128 && i64::MIN as i128 <= passed && passed
            <= i64::MAX as i128)
    }

    /// Counts how far the balance went down between neighbouring samples. The chart moves on only
    /// when a period has ended, and time without samples stays empty.
    pub fn sample(&mut self, now: i64, balance: Option<i64>)
        requires
            old(self).comparable(now),
        ensures
            final(self)@ == sampled(old(self)@, now as int, balance),
            old(self)@.wf() ==> final(self)@.wf(),
    {
        if now < self.last_checked_at {
            *self = ConsumptionHistory::new(now, balance);
            return;
        }
        let mut close = false;
        if now - self.last_checked_at <= MAX_SAMPLE_GAP_SECONDS {
            if let (Some(before), Some(after)) = (self.last_balance, balance) {
                close = true;
                let drop: u64 = if before <= after {
                    0
                } else {
                    let difference: i128 = before as i128 - after as i128;
                    if difference > i64::MAX as i128 {
                        i64::MAX as u64
                    } else {
                        difference as u64
                    }
                };
                self.consumed = self.consumed.saturating_add(drop);
            }
        }
        if !close {
            self.complete = false;
        }
        let passed: i64 = now - self.chart.end_at;
        if passed >= WINDOW_SECONDS {
            let windows: i64 = passed / WINDOW_SECONDS;
            let finished = if self.complete {
                Some(self.consumed)
            } else {
                None
            };
            let ghost before = self.chart.bars@;
            let mut bars: [Option<u64>; BAR_COUNT] = [None; BAR_COUNT];
            for i in 0..BAR_COUNT
                invariant
                    windows >= 1,
                    before == self.chart.bars@,
                    forall|j: int|
                        0 <= j < i ==> bars@[j] == shifted(before, windows as int, finished)[j],
                    forall|j: int| i <= j < BAR_COUNT ==> bars@[j] is None,
            {
                if windows <= BAR_COUNT as i64 {
                    let source: usize = i + windows as usize;
                    if source < BAR_COUNT {
                        bars[i] = self.chart.bars[source];
                    } else if source == BAR_COUNT {
                        bars[i] = finished;
                    }
                }
            }
            assert(bars@ =~= shifted(before, windows as int, finished));
            self.chart = ConsumptionChart {
                end_at: self.chart.end_at + windows * WINDOW_SECONDS,
                bars,
            };
            self.consumed = 0;
            self.complete = close && windows == 1;
        }
        self.last_checked_at = now;
        self.last_balance = balance;
    }

    /// The completed periods and the running one. The last bar is what the running period has
    /// consumed since the chart ended, or nothing where that is not known; the oldest period makes
    /// room for it.
    pub fn live_chart(&self) -> (chart: ConsumptionChart)
        ensures
            chart.end_at == self.chart.end_at,
            chart.bars@ == live_bars(self@),
    {
        let ghost before = self.chart.bars@;
        let mut bars: [Option<u64>; BAR_COUNT] = [None; BAR_COUNT];
        for i in 0..BAR_COUNT - 1
            invariant
                before == self.chart.bars@,
                forall|j: int| 0 <= j < i ==> bars@[j] == before[j + 1],
        {
            bars[i] = self.chart.bars[i + 1];
        }
        if self.complete {
            bars[BAR_COUNT - 1] = Some(self.consumed);
        } else {
            bars[BAR_COUNT - 1] = None;
        }
        assert(bars@ =~= live_bars(self@));
        ConsumptionChart { end_at: self.chart.end_at, bars }
    }

    /// The completed periods; what the running one has so far does not show.
    pub fn chart(&self) -> (chart: ConsumptionChart)
        ensures
            chart == self.chart,
    {
        self.chart
    }
}

/// How many points a half hour's consumption lights: a bound belongs to the higher level.
pub open spec fn level_of(amount: u64) -> int {
    if amount < 100_000 {
        0
    } else if amount < 1_000_000 {
        1
    } else if amount < 2_000_000 {
        2
    } else if amount < 5_000_000 {
        3
    } else if amount < 10_000_000 {
        4
    } else {
        5
    }
}

/// Maps a half hour's consumption to zero to five points.
pub fn consumption_level(amount: u64) -> (level: usize)
    ensures
        level == level_of(amount),
{
    if amount < 100_000 {
        0
    } else if amount < 1_000_000 {
        1
    } else if amount < 2_000_000 {
        2
    } else if amount < 5_000_000 {
        3
    } else if amount < 10_000_000 {
        4
    } else {
        5
    }
}

/// A history after a sequence of samples.
pub open spec fn run(history: HistoryView, samples: Seq<(int, Option<i64>)>) -> HistoryView
    decreases samples.len(),
{
    if samples.len() == 0 {
        history
    } else {
        sampled(run(history, samples.drop_last()), samples.last().0, samples.last().1)
    }
}

/// How far balances went down in all, step by step; rises count for nothing.
pub open spec fn total_decrease(first: i64, samples: Seq<(int, Option<i64>)>) -> nat
    decreases samples.len(),
{
    if samples.len() == 0 {
        0
    } else {
        let before = if samples.len() == 1 {
            first
        } else {
            samples[samples.len() - 2].1->0
        };
        total_decrease(first, samples.drop_last()) + decrease(before, samples.last().1->0) as nat
    }
}

/// Samples that follow a history without a gap: each has a balance, and comes no earlier than the
/// one before and at most the longest allowed gap later.
pub open spec fn gapless(history: HistoryView, samples: Seq<(int, Option<i64>)>) -> bool {
    forall|i: int|
        0 <= i < samples.len() ==> {
            let previous = if i == 0 {
                history.last_checked_at
            } else {
                samples[i - 1].0
            };
            &&& (#[trigger] samples[i]).1 is Some
            &&& 0 <= samples[i].0 - previous <= MAX_SAMPLE_GAP_SECONDS
        }
}

/// Every sequence of samples keeps a history well formed.
pub proof fn law_samples_keep_history_well_formed(
    history: HistoryView,
    samples: Seq<(int, Option<i64>)>,
)
    requires
        history.wf(),
    ensures
        run(history, samples).wf(),
    decreases samples.len(),
{
    if samples.len() > 0 {
        law_samples_keep_history_well_formed(history, samples.drop_last());
    }
}

/// Within a running period a sample leaves the chart as it is.
pub proof fn law_chart_rests_within_a_period(history: HistoryView, now: int, balance: Option<i64>)
    requires
        history.wf(),
        history.last_checked_at <= now < history.end_at + WINDOW_SECONDS,
    ensures
        sampled(history, now, balance).end_at == history.end_at,
        sampled(history, now, balance).bars == history.bars,
{
}

/// The first bar comes only after half an hour of samples.
pub proof fn law_first_bar_needs_a_whole_period(
    first: (int, Option<i64>),
    samples: Seq<(int, Option<i64>)>,
)
    requires
        forall|i: int|
            0 <= i < samples.len() ==> first.0 <= (#[trigger] samples[i]).0 < first.0
                + WINDOW_SECONDS,
        forall|i: int, j: int|
            0 <= i < j < samples.len() ==> (#[trigger] samples[i]).0 <= (#[trigger] samples[j]).0,
    ensures
        run(started(first.0, first.1), samples).bars == no_bars(),
        run(started(first.0, first.1), samples).end_at == first.0,
        run(started(first.0, first.1), samples).last_checked_at == if samples.len() == 0 {
            first.0
        } else {
            samples.last().0
        },
    decreases samples.len(),
{
    if samples.len() > 0 {
        let earlier = samples.drop_last();
        assert forall|i: int| 0 <= i < earlier.len() implies first.0 <= (#[trigger] earlier[i]).0
            < first.0 + WINDOW_SECONDS by {
            assert(samples[i] == earlier[i]);
        }
        assert forall|i: int, j: int| 0 <= i < j < earlier.len() implies (#[trigger] earlier[i]).0
            <= (#[trigger] earlier[j]).0 by {
            assert(samples[i] == earlier[i] && samples[j] == earlier[j]);
        }
        law_first_bar_needs_a_whole_period(first, earlier);
        assert(samples[samples.len() - 1] == samples.last());
        if earlier.len() > 0 {
            assert(earlier.last() == samples[samples.len() - 2]);
        }
    }
}

/// Within a running period recorded consumption is never taken back, and a balance that rises
/// changes nothing of it.
pub proof fn law_top_up_does_not_cancel_consumption(
    history: HistoryView,
    now: int,
    balance: Option<i64>,
)
    requires
        history.wf(),
        history.last_checked_at <= now < history.end_at + WINDOW_SECONDS,
    ensures
        sampled(history, now, balance).consumed >= history.consumed,
        history.last_balance is Some && balance is Some && history.last_balance->0 <= balance->0
            ==> sampled(history, now, balance).consumed == history.consumed,
{
}

/// The chart moves on by whole periods, each new period starts where the previous one ended, and
/// the bars that stay keep their order.
pub proof fn law_chart_moves_by_whole_periods(history: HistoryView, now: int, balance: Option<i64>)
    requires
        history.wf(),
        history.last_checked_at <= now,
    ensures
        ({
            let after = sampled(history, now, balance);
            let windows = elapsed_windows(history, now);
            &&& after.end_at == history.end_at + windows * WINDOW_SECONDS
            &&& after.end_at <= now < after.end_at + WINDOW_SECONDS
            &&& forall|i: int|
                0 <= i && i + windows < BAR_COUNT ==> #[trigger] after.bars[i] == history.bars[i
                    + windows]
        }),
{
}

/// A period that was sampled without a gap yields one bar at the right end: what the period had
/// consumed before, and every fall of the balance up to and with the sample that closes it.
pub proof fn law_bar_adds_up_the_falls_of_its_period(
    history: HistoryView,
    samples: Seq<(int, Option<i64>)>,
)
    requires
        history.wf(),
        history.complete,
        samples.len() > 0,
        gapless(history, samples),
        forall|i: int|
            0 <= i < samples.len() - 1 ==> (#[trigger] samples[i]).0 < history.end_at
                + WINDOW_SECONDS,
        samples.last().0 >= history.end_at + WINDOW_SECONDS,
    ensures
        ({
            let after = run(history, samples);
            let total = history.consumed + total_decrease(history.last_balance->0, samples);
            &&& after.end_at == history.end_at + WINDOW_SECONDS
            &&& after.bars == history.bars.drop_first().push(
                Some(
                    if total > u64::MAX {
                        u64::MAX
                    } else {
                        total as u64
                    },
                ),
            )
            &&& after.consumed == 0
            &&& after.complete
        }),
{
    let earlier = samples.drop_last();
    lemma_running_period(history, earlier);
    let before = run(history, earlier);
    let close = samples.last();
    let previous = if samples.len() == 1 {
        history.last_checked_at
    } else {
        samples[samples.len() - 2].0
    };
    assert(0 <= close.0 - previous <= MAX_SAMPLE_GAP_SECONDS) by {
        assert(samples[samples.len() - 1] == close);
    }
    if samples.len() > 1 {
        assert(earlier.last() == samples[samples.len() - 2]);
    }
    assert(elapsed_windows(before, close.0) == 1);
    let after = run(history, samples);
    assert(after.bars =~= history.bars.drop_first().push(Some(consumed_with(before, close.0, close.1))));
}

/// The state inside a period that has been sampled without a gap so far.
proof fn lemma_running_period(history: HistoryView, samples: Seq<(int, Option<i64>)>)
    requires
        history.wf(),
        history.complete,
        gapless(history, samples),
        forall|i: int|
            0 <= i < samples.len() ==> (#[trigger] samples[i]).0 < history.end_at + WINDOW_SECONDS,
    ensures
        ({
            let after = run(history, samples);
            let total = history.consumed + total_decrease(history.last_balance->0, samples);
            &&& after.end_at == history.end_at
            &&& after.bars == history.bars
            &&& after.complete
            &&& after.consumed == (if total > u64::MAX {
                u64::MAX as int
            } else {
                total
            })
            &&& samples.len() == 0 ==> after == history
            &&& samples.len() > 0 ==> after.last_checked_at == samples.last().0
                && after.last_balance == samples.last().1
        }),
    decreases samples.len(),
{
    if samples.len() > 0 {
        let earlier = samples.drop_last();
        assert(gapless(history, earlier)) by {
            assert forall|i: int| 0 <= i < earlier.len() implies ({
                let previous = if i == 0 {
                    history.last_checked_at
                } else {
                    earlier[i - 1].0
                };
                &&& (#[trigger] earlier[i]).1 is Some
                &&& 0 <= earlier[i].0 - previous <= MAX_SAMPLE_GAP_SECONDS
            }) by {
                assert(samples[i] == earlier[i]);
            }
        }
        assert forall|i: int| 0 <= i < earlier.len() implies (#[trigger] earlier[i]).0
            < history.end_at + WINDOW_SECONDS by {
            assert(samples[i] == earlier[i]);
        }
        lemma_running_period(history, earlier);
        assert(samples[samples.len() - 1] == samples.last());
        if earlier.len() > 0 {
            assert(earlier.last() == samples[samples.len() - 2]);
        }
    }
}

/// While a period runs without a gap, the last bar of the live chart is what the period had
/// consumed before, and every fall of the balance since. The other bars are the completed periods,
/// which rest.
pub proof fn law_running_bar_adds_up_the_falls_so_far(
    history: HistoryView,
    samples: Seq<(int, Option<i64>)>,
)
    requires
        history.wf(),
        history.complete,
        gapless(history, samples),
        forall|i: int|
            0 <= i < samples.len() ==> (#[trigger] samples[i]).0 < history.end_at + WINDOW_SECONDS,
    ensures
        ({
            let after = run(history, samples);
            let total = history.consumed + total_decrease(history.last_balance->0, samples);
            &&& after.end_at == history.end_at
            &&& live_bars(after) == history.bars.drop_first().push(
                Some(
                    if total > u64::MAX {
                        u64::MAX
                    } else {
                        total as u64
                    },
                ),
            )
        }),
{
    lemma_running_period(history, samples);
}

/// Where the sample that closes a period follows closely and sees no further fall, the live chart
/// becomes the chart of completed periods, one period later.
pub proof fn law_live_chart_becomes_the_chart(history: HistoryView, now: int, balance: Option<i64>)
    requires
        history.wf(),
        history.complete,
        contiguous(history, now, balance),
        history.last_balance->0 <= balance->0,
        history.end_at + WINDOW_SECONDS <= now,
    ensures
        sampled(history, now, balance).bars == live_bars(history),
        sampled(history, now, balance).end_at == history.end_at + WINDOW_SECONDS,
{
    assert(elapsed_windows(history, now) == 1);
    assert(sampled(history, now, balance).bars =~= live_bars(history));
}

/// After a missing balance or a gap, the running period has no bar until it ends.
pub proof fn law_gap_leaves_the_running_bar_empty(
    history: HistoryView,
    gap: (int, Option<i64>),
    samples: Seq<(int, Option<i64>)>,
)
    requires
        history.wf(),
        !contiguous(history, gap.0, gap.1),
        history.last_checked_at <= gap.0 < history.end_at + WINDOW_SECONDS,
        forall|i: int|
            0 <= i < samples.len() ==> gap.0 <= (#[trigger] samples[i]).0 < history.end_at
                + WINDOW_SECONDS,
        forall|i: int, j: int|
            0 <= i < j < samples.len() ==> (#[trigger] samples[i]).0 <= (#[trigger] samples[j]).0,
    ensures
        live_bars(run(sampled(history, gap.0, gap.1), samples)) == history.bars.drop_first().push(
            None,
        ),
{
    lemma_incomplete_period(sampled(history, gap.0, gap.1), samples);
}

/// A period in which a balance was missing, or in which two samples lay too far apart, yields an
/// empty bar: unknown time is neither zero consumption nor a spike.
pub proof fn law_gap_leaves_an_empty_bar(
    history: HistoryView,
    gap: (int, Option<i64>),
    samples: Seq<(int, Option<i64>)>,
    close: (int, Option<i64>),
)
    requires
        history.wf(),
        !contiguous(history, gap.0, gap.1),
        history.last_checked_at <= gap.0 < history.end_at + WINDOW_SECONDS,
        forall|i: int|
            0 <= i < samples.len() ==> gap.0 <= (#[trigger] samples[i]).0 < history.end_at
                + WINDOW_SECONDS,
        forall|i: int, j: int|
            0 <= i < j < samples.len() ==> (#[trigger] samples[i]).0 <= (#[trigger] samples[j]).0,
        forall|i: int| 0 <= i < samples.len() ==> (#[trigger] samples[i]).0 <= close.0,
        history.end_at + WINDOW_SECONDS <= close.0,
        elapsed_windows(history, close.0) <= BAR_COUNT,
    ensures
        ({
            let after = sampled(run(sampled(history, gap.0, gap.1), samples), close.0, close.1);
            after.bars[BAR_COUNT - elapsed_windows(history, close.0)] is None
        }),
{
    lemma_incomplete_period(sampled(history, gap.0, gap.1), samples);
    let before = run(sampled(history, gap.0, gap.1), samples);
    assert(before.end_at == history.end_at);
}

proof fn lemma_incomplete_period(history: HistoryView, samples: Seq<(int, Option<i64>)>)
    requires
        history.wf(),
        !history.complete,
        forall|i: int|
            0 <= i < samples.len() ==> history.last_checked_at <= (#[trigger] samples[i]).0
                < history.end_at + WINDOW_SECONDS,
        forall|i: int, j: int|
            0 <= i < j < samples.len() ==> (#[trigger] samples[i]).0 <= (#[trigger] samples[j]).0,
    ensures
        ({
            let after = run(history, samples);
            &&& after.end_at == history.end_at
            &&& after.bars == history.bars
            &&& !after.complete
            &&& after.last_checked_at == (if samples.len() == 0 {
                history.last_checked_at
            } else {
                samples.last().0
            })
        }),
    decreases samples.len(),
{
    if samples.len() > 0 {
        let earlier = samples.drop_last();
        assert forall|i: int| 0 <= i < earlier.len() implies history.last_checked_at <= (
        #[trigger] earlier[i]).0 < history.end_at + WINDOW_SECONDS by {
            assert(samples[i] == earlier[i]);
        }
        assert forall|i: int, j: int| 0 <= i < j < earlier.len() implies (#[trigger] earlier[i]).0
            <= (#[trigger] earlier[j]).0 by {
            assert(samples[i] == earlier[i] && samples[j] == earlier[j]);
        }
        lemma_incomplete_period(history, earlier);
        assert(samples[samples.len() - 1] == samples.last());
        if earlier.len() > 0 {
            assert(earlier.last() == samples[samples.len() - 2]);
        }
    }
}

/// A period that is closed by a sample without a balance, or by one that comes too late, is empty as
/// well, and so are the periods that passed unseen after it.
pub proof fn law_late_close_leaves_empty_bars(history: HistoryView, now: int, balance: Option<i64>)
    requires
        history.wf(),
        !contiguous(history, now, balance),
        history.end_at + WINDOW_SECONDS <= now,
    ensures
        forall|i: int|
            0 <= i < BAR_COUNT && BAR_COUNT - elapsed_windows(history, now) <= i
                ==> #[trigger] sampled(history, now, balance).bars[i] is None,
        !sampled(history, now, balance).complete,
{
}

/// After a stop longer than the whole chart nothing is known of any period.
pub proof fn law_long_stop_empties_the_chart(history: HistoryView, now: int, balance: Option<i64>)
    requires
        history.wf(),
        now >= history.end_at + (BAR_COUNT + 1) * WINDOW_SECONDS,
    ensures
        sampled(history, now, balance).bars == no_bars(),
{
    assert(elapsed_windows(history, now) > BAR_COUNT);
    assert(sampled(history, now, balance).bars =~= no_bars());
}

/// The more was consumed, the more points a bar lights.
pub proof fn law_levels_rise_with_consumption(less: u64, more: u64)
    requires
        less <= more,
    ensures
        0 <= level_of(less) <= level_of(more) <= 5,
{
}

/// A sample that comes more than two minutes after the last one, or without both balances, adds
/// nothing to the running period and makes its sum unknown; what the chart holds rests.
pub proof fn law_long_gap_is_not_counted(history: HistoryView, now: int, balance: Option<i64>)
    requires
        history.end_at <= history.last_checked_at <= now < history.end_at + 1800,
        now - history.last_checked_at > MAX_SAMPLE_GAP_SECONDS || history.last_balance is None
            || balance is None,
    ensures
        MAX_SAMPLE_GAP_SECONDS == 120,
        !sampled(history, now, balance).complete,
        sampled(history, now, balance).consumed == history.consumed,
        sampled(history, now, balance).end_at == history.end_at,
        sampled(history, now, balance).bars == history.bars,
        sampled(history, now, balance).last_checked_at == now,
        sampled(history, now, balance).last_balance == balance,
{
}

/// A period with a gap of more than two minutes, or with a sample that lacks a balance, has an empty
/// bar once it closes: whatever samples follow within it, and whichever sample closes it, `periods`
/// periods after it began.
pub proof fn law_long_gap_leaves_an_empty_bar(
    history: HistoryView,
    gap: (int, Option<i64>),
    samples: Seq<(int, Option<i64>)>,
    close: (int, Option<i64>),
    periods: int,
)
    requires
        history.wf(),
        history.last_checked_at <= gap.0 < history.end_at + 1800,
        gap.0 - history.last_checked_at > MAX_SAMPLE_GAP_SECONDS || history.last_balance is None
            || gap.1 is None,
        forall|i: int|
            0 <= i < samples.len() ==> gap.0 <= (#[trigger] samples[i]).0 < history.end_at + 1800,
        forall|i: int, j: int|
            0 <= i < j < samples.len() ==> (#[trigger] samples[i]).0 <= (#[trigger] samples[j]).0,
        1 <= periods <= 10,
        history.end_at + 1800 * periods <= close.0 < history.end_at + 1800 * (periods + 1),
    ensures
        sampled(run(sampled(history, gap.0, gap.1), samples), close.0, close.1).bars[10 - periods]
            is None,
{
    lemma_incomplete_period(sampled(history, gap.0, gap.1), samples);
    let before = run(sampled(history, gap.0, gap.1), samples);
    assert(before.end_at == history.end_at);
    assert(elapsed_windows(before, close.0) == periods);
}

/// A sample within two minutes and within the running half hour, with both balances, adds to the sum
/// exactly what the balance fell by, and nothing where it rose. A fall and the sum stay at the
/// largest amounts that they can hold.
pub proof fn law_close_sample_counts_the_fall(
    history: HistoryView,
    now: int,
    before: i64,
    after: i64,
)
    requires
        history.end_at <= history.last_checked_at <= now < history.end_at + 1800,
        now - history.last_checked_at <= 120,
        history.last_balance == Some(before),
    ensures
        ({
            let next = sampled(history, now, Some(after));
            let fall = if before - after > i64::MAX {
                i64::MAX as int
            } else if before > after {
                before - after
            } else {
                0
            };
            &&& next.consumed == (if history.consumed + fall <= u64::MAX {
                history.consumed + fall
            } else {
                u64::MAX as int
            })
            &&& next.complete == history.complete
            &&& next.end_at == history.end_at
            &&& next.bars == history.bars
            &&& next.last_checked_at == now
            &&& next.last_balance == Some(after)
        }),
{
}

/// A sample `periods` half hours after the running period began closes it. The bars move left by as
/// many places, the closed period stands next to those that were kept, and the periods after it are
/// empty. The closed period has a bar only where it was known throughout and the sample follows
/// within two minutes with both balances; the fall that the sample sees belongs to it. The next
/// period starts from nothing.
pub proof fn law_closing_sample_moves_the_bars(
    history: HistoryView,
    now: int,
    balance: Option<i64>,
    periods: int,
)
    requires
        history.bars.len() == 10,
        history.end_at <= history.last_checked_at <= now,
        periods >= 1,
        history.end_at + 1800 * periods <= now < history.end_at + 1800 * (periods + 1),
    ensures
        ({
            let next = sampled(history, now, balance);
            let known = now - history.last_checked_at <= 120 && history.last_balance is Some
                && balance is Some;
            let fall = if history.last_balance->0 - balance->0 > i64::MAX {
                i64::MAX as int
            } else if history.last_balance->0 > balance->0 {
                history.last_balance->0 - balance->0
            } else {
                0
            };
            &&& next.end_at == history.end_at + 1800 * periods
            &&& next.end_at <= now < next.end_at + 1800
            &&& next.consumed == 0
            &&& next.complete == (known && periods == 1)
            &&& next.last_checked_at == now
            &&& next.last_balance == balance
            &&& next.bars.len() == 10
            &&& forall|i: int|
                0 <= i < 10 && i + periods < 10 ==> #[trigger] next.bars[i] == history.bars[i
                    + periods]
            &&& forall|i: int| 0 <= i < 10 && i + periods > 10 ==> #[trigger] next.bars[i] is None
            &&& periods <= 10 && !(known && history.complete) ==> next.bars[10 - periods] is None
            &&& periods <= 10 && known && history.complete ==> next.bars[10 - periods] == Some(
                if history.consumed + fall <= u64::MAX {
                    (history.consumed + fall) as u64
                } else {
                    u64::MAX
                },
            )
        }),
{
    assert(elapsed_windows(history, now) == periods);
}

/// A clock that runs back starts anew at the sample: ten empty bars, nothing consumed, and a period
/// that is known where the sample has a balance. The first sample of all does the same.
pub proof fn law_clock_that_runs_back_starts_anew(
    history: HistoryView,
    now: int,
    balance: Option<i64>,
)
    requires
        now < history.last_checked_at,
    ensures
        sampled(history, now, balance) == started(now, balance),
        started(now, balance).end_at == now,
        started(now, balance).last_checked_at == now,
        started(now, balance).last_balance == balance,
        started(now, balance).consumed == 0,
        started(now, balance).complete == (balance is Some),
        started(now, balance).bars.len() == 10,
        forall|i: int| 0 <= i < 10 ==> #[trigger] started(now, balance).bars[i] is None,
{
}

/// The live chart leaves out the oldest period, keeps the order of the others, and ends with what
/// the running period has consumed, or with an empty bar where that is not known.
pub proof fn law_live_chart_ends_with_the_running_sum(history: HistoryView, i: int)
    requires
        history.bars.len() == 10,
        0 <= i < 9,
    ensures
        live_bars(history).len() == 10,
        live_bars(history)[i] == history.bars[i + 1],
        history.complete ==> live_bars(history)[9] == Some(history.consumed),
        !history.complete ==> live_bars(history)[9] is None,
{
}

/// A bar has a first point from a tenth of a unit on, a second from one unit, a third from two, a
/// fourth from five and a fifth from ten, and never more.
pub proof fn law_points_start_at_their_amounts(amount: u64)
    ensures
        level_of(amount) >= 1 <==> amount >= 100_000,
        level_of(amount) >= 2 <==> amount >= 1_000_000,
        level_of(amount) >= 3 <==> amount >= 2_000_000,
        level_of(amount) >= 4 <==> amount >= 5_000_000,
        level_of(amount) >= 5 <==> amount >= 10_000_000,
        0 <= level_of(amount) <= 5,
{
}

/// A sample can be taken where its time can be told from those of the history; one that comes before
/// the last one can always be taken.
pub proof fn law_samples_of_a_lifetime_can_be_taken(history: ConsumptionHistory, now: i64)
    ensures
        now < history.last_checked_at ==> history.comparable(now),
        now >= history.last_checked_at ==> (history.comparable(now) <==> now
            - history.last_checked_at <= i64::MAX && i64::MIN <= now - history.chart.end_at
            <= i64::MAX),
        -4_000_000_000_000_000_000 <= now <= 4_000_000_000_000_000_000 && -4_000_000_000_000_000_000
            <= history.last_checked_at <= 4_000_000_000_000_000_000 && -4_000_000_000_000_000_000
            <= history.chart.end_at <= 4_000_000_000_000_000_000 ==> history.comparable(now),
{
}

} // verus!
