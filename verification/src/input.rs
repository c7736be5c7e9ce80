//! The state of the input engine: for each of the sixteen inputs an
//! accumulator of the calibrated readings and a debounced two-sided threshold
//! detector, and the handlers that read them out.
use crate::nvm::{trunc_div, Calibration, Threshold};
use crate::payload::{
    InputGetFullRes, InputGetRes, InputGetThresholdStatesRes, InputGetThresholdTimesRes, InputStat,
    InputThresholdTimes,
};
use vstd::prelude::*;

verus! {

/// Why reading an input failed.
#[derive(Debug, Clone, Copy, PartialEq, Eq)]
pub enum InputError<T> {
    /// The conversion failed in a way that needs special action.
    UnrecoverableError(T),
    /// The conversion failed, but can be started again.
    RecoverableError,
}

/// `x / 2`, a half rounded away from zero.
pub open spec fn half_away(x: int) -> int {
    if x >= 0 {
        (x + 1) / 2
    } else {
        -((1 - x) / 2)
    }
}

/// `x / 4`, rounded to the nearest, a half rounded up.
pub open spec fn quarter(x: int) -> int {
    (x + 2) / 4
}

/// What one input accumulated since it was last read.
#[derive(Debug, Clone, Copy, PartialEq, Eq)]
pub struct InputData {
    /// The average when the input was last read. Returned when no value has been
    /// read since then.
    pub previous_value: i16,
    /// The sum of the values read since the input was last read.
    pub sum: i32,
    /// The sum of the squares of the values read since the input was last read.
    pub sum_squares: u64,
    /// The least value read since the input was last read.
    pub min: i16,
    /// The greatest value read since the input was last read.
    pub max: i16,
    /// The number of values read since the input was last read. When it would
    /// pass 65535, the sum is halved, the sum of squares is quartered and the
    /// count goes on from 0x8000.
    pub count: u16,
}

impl InputData {
    /// The sums are those of `count` values between `min` and `max`.
    pub open spec fn wf(&self) -> bool {
        &&& self.count * self.min <= self.sum <= self.count * self.max
        &&& self.sum_squares <= self.count * 0x4000_0000
        &&& self.count > 0 ==> self.min <= self.max
    }

    /// The accumulator without a value, which reports `previous_value`.
    pub open spec fn fresh(previous_value: i16) -> InputData {
        InputData {
            previous_value,
            sum: 0,
            sum_squares: 0,
            min: i16::MAX,
            max: i16::MIN,
            count: 0,
        }
    }

    /// The accumulator after one more value.
    pub open spec fn folded(self, value: i16) -> InputData {
        let sum = self.sum + value;
        let squares = self.sum_squares + value * value;
        let min = if value < self.min {
            value
        } else {
            self.min
        };
        let max = if value > self.max {
            value
        } else {
            self.max
        };
        if self.count == 0xFFFF {
            InputData {
                previous_value: self.previous_value,
                sum: half_away(sum) as i32,
                sum_squares: quarter(squares) as u64,
                min,
                max,
                count: 0x8000,
            }
        } else {
            InputData {
                previous_value: self.previous_value,
                sum: sum as i32,
                sum_squares: squares as u64,
                min,
                max,
                count: (self.count + 1) as u16,
            }
        }
    }

    /// The accumulator after the values of `values`, in order.
    pub open spec fn folded_all(self, values: Seq<i16>) -> InputData
        decreases values.len(),
    {
        if values.len() == 0 {
            self
        } else {
            self.folded_all(values.drop_last()).folded(values.last())
        }
    }

    /// The value that the input reports: the sum by the count, rounded towards
    /// zero, or the previous value where nothing was read.
    pub open spec fn average(&self) -> int {
        if self.count == 0 {
            self.previous_value as int
        } else {
            trunc_div(self.sum as int, self.count as int)
        }
    }

    pub fn new() -> (data: InputData)
        ensures
            data == InputData::fresh(0),
            data.wf(),
    {
        InputData {
            previous_value: 0,
            sum: 0,
            sum_squares: 0,
            min: i16::MAX,
            max: i16::MIN,
            count: 0,
        }
    }

    /// Folds one value into the accumulator.
    pub fn update(self, value: i16) -> (data: InputData)
        requires
            self.wf(),
        ensures
            data == self.folded(value),
            data.wf(),
            data.count > 0,
            data.min <= value <= data.max,
    {
        proof {
            lemma_fold_bounds(self, value);
        }
        let square: i32 = (value as i32) * (value as i32);
        let mut sum: i32 = self.sum + value as i32;
        let mut sum_squares: u64 = self.sum_squares + square as u64;
        let min: i16 = if value < self.min {
            value
        } else {
            self.min
        };
        let max: i16 = if value > self.max {
            value
        } else {
            self.max
        };
        let mut count: u16 = if self.count == 0xFFFF {
            0
        } else {
            self.count + 1
        };
        if count == 0 {
            sum = (sum + 1 - (1 - sum % 2)) / 2;
            sum_squares = (sum_squares + 2 - (1 - sum_squares / 2 % 2)) / 4;
            count = 0x8000;
        }
        InputData { previous_value: self.previous_value, sum, sum_squares, min, max, count }
    }

    /// The value that the input reports.
    pub fn read(&self) -> (value: i16)
        requires
            self.wf(),
        ensures
            value == self.average(),
            self.count > 0 ==> self.min <= value <= self.max,
    {
        if self.count == 0 {
            self.previous_value
        } else {
            proof {
                lemma_average_bounds(*self);
            }
            (self.sum / self.count as i32) as i16
        }
    }

    /// Reads the accumulator and starts it anew: returns what it held, and
    /// leaves the accumulator without a value and with the average as its
    /// previous value.
    pub fn read_and_reset(&mut self) -> (snapshot: InputData)
        requires
            old(self).wf(),
        ensures
            snapshot == *old(self),
            *final(self) == InputData::fresh(old(self).average() as i16),
            final(self).wf(),
            final(self).previous_value == old(self).average(),
            old(self).count > 0 ==> old(self).min <= final(self).previous_value <= old(self).max,
    {
        let snapshot = *self;
        let average = self.read();
        *self = InputData {
            previous_value: average,
            sum: 0,
            sum_squares: 0,
            min: i16::MAX,
            max: i16::MIN,
            count: 0,
        };
        snapshot
    }

    /// The statistics that go out for the accumulator.
    pub open spec fn stat(&self) -> InputStat {
        InputStat {
            sum: self.sum,
            sum_squares: self.sum_squares,
            min: self.min,
            max: self.max,
            count: self.count,
        }
    }

    pub fn to_stat(&self) -> (stat: InputStat)
        ensures
            stat == self.stat(),
    {
        InputStat {
            sum: self.sum,
            sum_squares: self.sum_squares,
            min: self.min,
            max: self.max,
            count: self.count,
        }
    }
}

/// What the sums of a well-formed accumulator and one more value are bounded by.
proof fn lemma_fold_bounds(data: InputData, value: i16)
    requires
        data.wf(),
    ensures
        0 <= value * value <= 0x4000_0000,
        -0x8000_0000 <= data.sum + value <= 0x7FFF_FFFF,
        data.sum_squares + value * value <= 0x4000_0000_0000,
        data.folded(value).wf(),
        data.folded(value).count > 0,
        data.folded(value).sum == (if data.count == 0xFFFF {
            half_away(data.sum + value)
        } else {
            data.sum + value
        }),
        data.folded(value).sum_squares == (if data.count == 0xFFFF {
            quarter(data.sum_squares + value * value)
        } else {
            data.sum_squares + value * value
        }),
{
    let c = data.count as int;
    let v = value as int;
    let lo = data.min as int;
    let hi = data.max as int;
    let min = if v < lo {
        v
    } else {
        lo
    };
    let max = if v > hi {
        v
    } else {
        hi
    };
    assert(0 <= v * v <= 0x4000_0000) by (nonlinear_arith)
        requires
            -0x8000 <= v <= 0x7FFF,
    ;
    assert((c + 1) * min <= data.sum + v <= (c + 1) * max) by (nonlinear_arith)
        requires
            0 <= c,
            c * lo <= data.sum <= c * hi,
            min <= lo,
            min <= v,
            hi <= max,
            v <= max,
    ;
    assert(-0x8000_0000 <= (c + 1) * min && (c + 1) * max <= 0x7FFF_0000) by (nonlinear_arith)
        requires
            0 <= c <= 0xFFFF,
            -0x8000 <= min,
            max <= 0x7FFF,
            c > 0 ==> min <= max,
            min <= v <= max,
    ;
    assert(data.sum_squares + v * v <= (c + 1) * 0x4000_0000);
    if c == 0xFFFF {
        let s = data.sum + v;
        assert((c + 1) * min == 0x1_0000 * min && (c + 1) * max == 0x1_0000 * max)
            by (nonlinear_arith)
            requires
                c == 0xFFFF,
        ;
        assert(0x8000 * min <= half_away(s) <= 0x8000 * max);
        assert(quarter(data.sum_squares + v * v) <= 0x8000 * 0x4000_0000);
    }
}

/// The average of a well-formed accumulator with a value lies between its least
/// and its greatest value.
proof fn lemma_average_bounds(data: InputData)
    requires
        data.wf(),
        data.count > 0,
    ensures
        data.min <= data.average() <= data.max,
{
    let c = data.count as int;
    let s = data.sum as int;
    let lo = data.min as int;
    let hi = data.max as int;
    if s >= 0 {
        let q = s / c;
        vstd::arithmetic::div_mod::lemma_fundamental_div_mod(s, c);
        vstd::arithmetic::div_mod::lemma_mod_bound(s, c);
        assert(lo <= q <= hi) by (nonlinear_arith)
            requires
                c > 0,
                s == c * q + s % c,
                0 <= s % c < c,
                c * lo <= s <= c * hi,
                s >= 0,
        ;
    } else {
        let q = (-s) / c;
        vstd::arithmetic::div_mod::lemma_fundamental_div_mod(-s, c);
        vstd::arithmetic::div_mod::lemma_mod_bound(-s, c);
        assert(lo <= -q <= hi) by (nonlinear_arith)
            requires
                c > 0,
                -s == c * q + (-s) % c,
                0 <= (-s) % c < c,
                c * lo <= s <= c * hi,
                s < 0,
        ;
    }
}

/// An accumulator that was started anew has count zero exactly as long as no
/// value was folded into it.
pub proof fn lemma_count_zero_iff_no_value(previous_value: i16, values: Seq<i16>)
    ensures
        InputData::fresh(previous_value).folded_all(values).wf(),
        InputData::fresh(previous_value).folded_all(values).count == 0 <==> values.len() == 0,
        InputData::fresh(previous_value).folded_all(values).previous_value == previous_value,
    decreases values.len(),
{
    if values.len() > 0 {
        lemma_count_zero_iff_no_value(previous_value, values.drop_last());
        lemma_fold_bounds(
            InputData::fresh(previous_value).folded_all(values.drop_last()),
            values.last(),
        );
    }
}

/// Halving the sum when the count passes 65535 moves the mean by at most
/// `1 / (2 * count)`, with `count` the new count 0x8000: twice the new sum is
/// within one of the old sum. Relative to the mean, the error is at most
/// `1 / (2 * count)` where the old sum is even or the mean is at least one.
pub proof fn lemma_rescaled_mean(sum: int)
    ensures
        -1 <= 2 * half_away(sum) - sum <= 1,
        sum % 2 == 0 ==> 2 * half_away(sum) == sum,
        sum >= 0x1_0000 ==> (2 * half_away(sum) - sum) * 0x1_0000 <= sum,
        sum <= -0x1_0000 ==> (sum - 2 * half_away(sum)) * 0x1_0000 <= -sum,
{
}

/// Quartering the sum of squares when the count passes 65535 loses at most two:
/// four times the new sum of squares is within two of the old one.
pub proof fn lemma_rescaled_squares(sum_squares: int)
    requires
        sum_squares >= 0,
    ensures
        -1 <= 4 * quarter(sum_squares) - sum_squares <= 2,
{
}

/// The threshold detector of one input. Times are microseconds since boot.
#[derive(Debug, Clone, Copy, PartialEq, Eq)]
pub struct ThresholdData {
    /// The time of the first reading above `threshold_high` of the last run of
    /// such readings.
    pub last_above_threshold: u64,
    /// The time of the first reading below `threshold_low` of the last run of
    /// such readings.
    pub last_below_threshold: u64,
    /// The number of consecutive readings above `threshold_high`.
    pub above_count: u16,
    /// The number of consecutive readings below `threshold_low`.
    pub below_count: u16,
    /// The time of the first reading of the last run above `threshold_high`
    /// that met the debounce criteria.
    pub last_above_threshold_debounced: u64,
    /// The time of the first reading of the last run below `threshold_low`
    /// that met the debounce criteria.
    pub last_below_threshold_debounced: u64,
}

/// `count + 1`, or 65535 where that does not fit.
pub open spec fn saturating_next(count: u16) -> u16 {
    if count == 0xFFFF {
        0xFFFFu16
    } else {
        (count + 1) as u16
    }
}

impl ThresholdData {
    /// No time that the detector holds lies after `now`, and no debounced
    /// crossing lies after the first reading of the run that it belongs to.
    pub open spec fn wf_at(&self, now: u64) -> bool {
        &&& self.last_above_threshold_debounced <= self.last_above_threshold <= now
        &&& self.last_below_threshold_debounced <= self.last_below_threshold <= now
    }

    /// The detector at the start, when no reading was seen.
    pub open spec fn started(now: u64) -> ThresholdData {
        ThresholdData {
            last_above_threshold: now,
            last_below_threshold: now,
            above_count: 0,
            below_count: 0,
            last_above_threshold_debounced: now,
            last_below_threshold_debounced: now,
        }
    }

    /// The detector after the reading `value`, taken at `now`.
    pub open spec fn stepped(self, value: i16, now: u64, threshold: Threshold) -> ThresholdData {
        let above = value > threshold.threshold_high;
        let below = value < threshold.threshold_low;
        let first_above = if above && self.above_count == 0 {
            now
        } else {
            self.last_above_threshold
        };
        let first_below = if below && self.below_count == 0 {
            now
        } else {
            self.last_below_threshold
        };
        ThresholdData {
            last_above_threshold: first_above,
            last_below_threshold: first_below,
            above_count: if above {
                saturating_next(self.above_count)
            } else {
                0
            },
            below_count: if below {
                saturating_next(self.below_count)
            } else {
                0
            },
            last_above_threshold_debounced: if above && self.above_count
                >= threshold.debounce_count && now - first_above >= threshold.debounce_time_us {
                first_above
            } else {
                self.last_above_threshold_debounced
            },
            last_below_threshold_debounced: if below && self.below_count
                >= threshold.debounce_count && now - first_below >= threshold.debounce_time_us {
                first_below
            } else {
                self.last_below_threshold_debounced
            },
        }
    }

    /// The input counts as above its threshold.
    pub open spec fn is_above(&self) -> bool {
        self.last_above_threshold_debounced >= self.last_below_threshold_debounced
    }

    /// The input counts as below its threshold.
    pub open spec fn is_below(&self) -> bool {
        self.last_below_threshold_debounced >= self.last_above_threshold_debounced
    }

    pub fn new(now: u64) -> (data: ThresholdData)
        ensures
            data == ThresholdData::started(now),
            data.wf_at(now),
            data.is_above() && data.is_below(),
    {
        ThresholdData {
            last_above_threshold: now,
            last_below_threshold: now,
            above_count: 0,
            below_count: 0,
            last_above_threshold_debounced: now,
            last_below_threshold_debounced: now,
        }
    }

    /// Takes in the reading `value`, taken at `now`. The clock does not go back:
    /// `now` is not before any earlier reading.
    pub fn update(self, value: i16, now: u64, threshold: &Threshold) -> (data: ThresholdData)
        requires
            self.wf_at(now),
        ensures
            data == self.stepped(value, now, *threshold),
            data.wf_at(now),
            data.above_count > 0 <==> value > threshold.threshold_high,
            data.below_count > 0 <==> value < threshold.threshold_low,
            data.above_count == 0 && data.below_count == 0 ==> threshold.threshold_low <= value
                <= threshold.threshold_high,
            self.last_above_threshold_debounced <= data.last_above_threshold_debounced
                <= data.last_above_threshold,
            self.last_below_threshold_debounced <= data.last_below_threshold_debounced
                <= data.last_below_threshold,
    {
        let mut data = self;
        if value > threshold.threshold_high {
            if data.above_count == 0 {
                data.last_above_threshold = now;
            }
            if data.above_count >= threshold.debounce_count && now - data.last_above_threshold
                >= threshold.debounce_time_us as u64 {
                data.last_above_threshold_debounced = data.last_above_threshold;
            }
            data.above_count = if data.above_count == 0xFFFF {
                0xFFFF
            } else {
                data.above_count + 1
            };
        } else {
            data.above_count = 0;
        }
        if value < threshold.threshold_low {
            if data.below_count == 0 {
                data.last_below_threshold = now;
            }
            if data.below_count >= threshold.debounce_count && now - data.last_below_threshold
                >= threshold.debounce_time_us as u64 {
                data.last_below_threshold_debounced = data.last_below_threshold;
            }
            data.below_count = if data.below_count == 0xFFFF {
                0xFFFF
            } else {
                data.below_count + 1
            };
        } else {
            data.below_count = 0;
        }
        data
    }

    /// The debounced crossing times that go out for the detector.
    pub fn times(&self) -> (times: InputThresholdTimes)
        ensures
            times.last_high == self.last_above_threshold_debounced,
            times.last_low == self.last_below_threshold_debounced,
    {
        InputThresholdTimes {
            last_low: self.last_below_threshold_debounced,
            last_high: self.last_above_threshold_debounced,
        }
    }
}

/// Whether bit `i` of `mask` is set.
pub open spec fn bit_set(mask: u16, i: int) -> bool {
    mask & (1u16 << (i as u16)) != 0
}

proof fn lemma_bit_of_or(mask: u16, i: u16, j: u16)
    by (bit_vector)
    requires
        i < 16,
        j < 16,
    ensures
        ((mask | (1u16 << i)) & (1u16 << j) != 0) == (j == i || (mask & (1u16 << j) != 0)),
{
}

proof fn lemma_bit_of_zero(j: u16)
    by (bit_vector)
    requires
        j < 16,
    ensures
        0u16 & (1u16 << j) == 0,
{
}

/// The accumulators and threshold detectors of the sixteen inputs.
pub struct InputLoop {
    inputs: [InputData; 16],
    thresholds: [ThresholdData; 16],
}

impl InputLoop {
    /// The sixteen accumulators.
    pub closed spec fn inputs(&self) -> Seq<InputData> {
        self.inputs@
    }

    /// The sixteen threshold detectors.
    pub closed spec fn thresholds(&self) -> Seq<ThresholdData> {
        self.thresholds@
    }

    /// All accumulators are well-formed.
    pub open spec fn wf(&self) -> bool {
        &&& self.inputs().len() == 16
        &&& self.thresholds().len() == 16
        &&& forall|i: int| 0 <= i < 16 ==> (#[trigger] self.inputs()[i]).wf()
    }

    /// All accumulators are well-formed and no detector holds a time after `now`.
    pub open spec fn wf_at(&self, now: u64) -> bool {
        &&& self.wf()
        &&& forall|i: int| 0 <= i < 16 ==> (#[trigger] self.thresholds()[i]).wf_at(now)
    }

    /// `values` are the averages of the inputs, and in `after` every accumulator
    /// is started anew with its average as its previous value.
    pub open spec fn read_out(&self, after: &InputLoop, values: Seq<i16>) -> bool {
        &&& after.thresholds() == self.thresholds()
        &&& forall|i: int| 0 <= i < 16 ==> #[trigger] values[i] == self.inputs()[i].average()
        &&& forall|i: int|
            0 <= i < 16 ==> #[trigger] after.inputs()[i] == InputData::fresh(values[i])
    }

    /// `stats` is what the accumulators hold, and in `after` every accumulator is
    /// started anew with its average as its previous value.
    pub open spec fn read_out_full(&self, after: &InputLoop, stats: Seq<InputStat>) -> bool {
        &&& after.thresholds() == self.thresholds()
        &&& forall|i: int| 0 <= i < 16 ==> #[trigger] stats[i] == self.inputs()[i].stat()
        &&& forall|i: int|
            0 <= i < 16 ==> #[trigger] after.inputs()[i] == InputData::fresh(
                self.inputs()[i].average() as i16,
            )
    }

    /// `response` holds `now` and the debounced crossing times of the inputs.
    pub open spec fn times_read(&self, now: u64, response: InputGetThresholdTimesRes) -> bool {
        &&& response.now == now
        &&& forall|i: int|
            0 <= i < 16 ==> (#[trigger] response.inputs@[i]).last_high
                == self.thresholds()[i].last_above_threshold_debounced
        &&& forall|i: int|
            0 <= i < 16 ==> (#[trigger] response.inputs@[i]).last_low
                == self.thresholds()[i].last_below_threshold_debounced
    }

    /// Bit `i` of `above` is set where input `i` counts as above its threshold,
    /// bit `i` of `below` where it counts as below.
    pub open spec fn states_read(&self, response: InputGetThresholdStatesRes) -> bool {
        &&& forall|i: int|
            0 <= i < 16 ==> (#[trigger] bit_set(response.above, i)
                <==> self.thresholds()[i].is_above())
        &&& forall|i: int|
            0 <= i < 16 ==> (#[trigger] bit_set(response.below, i)
                <==> self.thresholds()[i].is_below())
    }

    /// The state when the engine starts, at `now`.
    pub fn new(now: u64) -> (state: InputLoop)
        ensures
            state.wf_at(now),
            forall|i: int| 0 <= i < 16 ==> #[trigger] state.inputs()[i] == InputData::fresh(0),
            forall|i: int|
                0 <= i < 16 ==> #[trigger] state.thresholds()[i] == ThresholdData::started(now),
    {
        InputLoop { inputs: [InputData::new(); 16], thresholds: [ThresholdData::new(now); 16] }
    }

    /// The accumulator of one input.
    pub fn input(&self, channel: usize) -> (data: InputData)
        requires
            channel < 16,
        ensures
            data == self.inputs()[channel as int],
    {
        self.inputs[channel]
    }

    /// The threshold detector of one input.
    pub fn threshold(&self, channel: usize) -> (data: ThresholdData)
        requires
            channel < 16,
        ensures
            data == self.thresholds()[channel as int],
    {
        self.thresholds[channel]
    }

    /// A detector that holds no time after `now` holds none after a later time.
    pub proof fn lemma_time_passes(&self, now: u64, later: u64)
        requires
            self.wf_at(now),
            now <= later,
        ensures
            self.wf_at(later),
    {
        assert forall|i: int| 0 <= i < 16 implies (#[trigger] self.thresholds()[i]).wf_at(
            later,
        ) by {
            assert(self.thresholds()[i].wf_at(now));
        }
    }

    /// Takes in the raw reading `raw` of input `channel`, taken at `now`:
    /// calibrates it, folds the calibrated value into the accumulator of the
    /// input and hands it to its threshold detector. Returns the calibrated value.
    pub fn sample(
        &mut self,
        channel: usize,
        raw: u16,
        now: u64,
        calibration: &Calibration,
        threshold: &Threshold,
    ) -> (value: i16)
        requires
            channel < 16,
            old(self).wf_at(now),
            calibration.divide != 0,
        ensures
            value == calibration.applied(raw),
            final(self).wf_at(now),
            final(self).inputs() == old(self).inputs().update(
                channel as int,
                old(self).inputs()[channel as int].folded(value),
            ),
            final(self).thresholds() == old(self).thresholds().update(
                channel as int,
                old(self).thresholds()[channel as int].stepped(value, now, *threshold),
            ),
    {
        let value = calibration.apply(raw);
        let data = self.inputs[channel].update(value);
        let detector = self.thresholds[channel].update(value, now, threshold);
        self.inputs[channel] = data;
        self.thresholds[channel] = detector;
        value
    }

    /// Answers a request for the input averages: the average of every input, and
    /// every accumulator started anew with that average as its previous value.
    pub fn handle_input_get(&mut self) -> (response: InputGetRes)
        requires
            old(self).wf(),
        ensures
            final(self).wf(),
            old(self).read_out(final(self), response.values@),
    {
        let mut values = [0i16; 16];
        let mut i: usize = 0;
        while i < 16
            invariant
                i <= 16,
                self.thresholds == old(self).thresholds,
                forall|j: int| i <= j < 16 ==> self.inputs@[j] == old(self).inputs@[j],
                forall|j: int| i <= j < 16 ==> (#[trigger] self.inputs@[j]).wf(),
                forall|j: int|
                    0 <= j < i ==> #[trigger] values@[j] == old(self).inputs@[j].average(),
                forall|j: int|
                    0 <= j < i ==> #[trigger] self.inputs@[j] == InputData::fresh(values@[j]),
            decreases 16 - i,
        {
            let mut data = self.inputs[i];
            data.read_and_reset();
            values[i] = data.previous_value;
            self.inputs[i] = data;
            i += 1;
        }
        InputGetRes { values }
    }

    /// Answers a request for the input statistics: what every accumulator held,
    /// and every accumulator started anew with its average as its previous value.
    pub fn handle_input_get_full(&mut self) -> (response: InputGetFullRes)
        requires
            old(self).wf(),
        ensures
            final(self).wf(),
            old(self).read_out_full(final(self), response.stats@),
            forall|i: int|
                0 <= i < 16 && old(self).inputs()[i].count > 0 ==> response.stats@[i].min <= (
                #[trigger] final(self).inputs()[i]).previous_value <= response.stats@[i].max,
    {
        let mut stats = [InputStat { sum: 0, sum_squares: 0, min: 0, max: 0, count: 0 }; 16];
        let mut i: usize = 0;
        while i < 16
            invariant
                i <= 16,
                self.thresholds == old(self).thresholds,
                forall|j: int| i <= j < 16 ==> self.inputs@[j] == old(self).inputs@[j],
                forall|j: int| i <= j < 16 ==> (#[trigger] self.inputs@[j]).wf(),
                forall|j: int| 0 <= j < i ==> #[trigger] stats@[j] == old(self).inputs@[j].stat(),
                forall|j: int|
                    0 <= j < i ==> #[trigger] self.inputs@[j] == InputData::fresh(
                        old(self).inputs@[j].average() as i16,
                    ),
                forall|j: int|
                    0 <= j < i && old(self).inputs@[j].count > 0 ==> old(self).inputs@[j].min <= (
                    #[trigger] self.inputs@[j]).previous_value <= old(self).inputs@[j].max,
            decreases 16 - i,
        {
            let mut data = self.inputs[i];
            let snapshot = data.read_and_reset();
            stats[i] = snapshot.to_stat();
            self.inputs[i] = data;
            i += 1;
        }
        InputGetFullRes { stats }
    }

    /// Answers a request for the threshold times: the time `now` of the answer
    /// and the two debounced crossing times of every input.
    pub fn handle_threshold_times(&self, now: u64) -> (response: InputGetThresholdTimesRes)
        ensures
            self.times_read(now, response),
    {
        let mut inputs = [InputThresholdTimes { last_low: 0, last_high: 0 }; 16];
        let mut i: usize = 0;
        while i < 16
            invariant
                i <= 16,
                forall|j: int|
                    0 <= j < i ==> (#[trigger] inputs@[j]).last_high
                        == self.thresholds@[j].last_above_threshold_debounced,
                forall|j: int|
                    0 <= j < i ==> (#[trigger] inputs@[j]).last_low
                        == self.thresholds@[j].last_below_threshold_debounced,
            decreases 16 - i,
        {
            inputs[i] = self.thresholds[i].times();
            i += 1;
        }
        InputGetThresholdTimesRes { now, inputs }
    }

    /// Answers a request for the threshold states: bit `i` of `above` is set
    /// where input `i` counts as above its threshold, bit `i` of `below` where it
    /// counts as below.
    pub fn handle_threshold_states(&self) -> (response: InputGetThresholdStatesRes)
        ensures
            self.states_read(response),
    {
        let mut above: u16 = 0;
        let mut below: u16 = 0;
        let mut i: u16 = 0;
        proof {
            assert forall|j: int| 0 <= j < 16 implies !#[trigger] bit_set(0u16, j) by {
                lemma_bit_of_zero(j as u16);
            }
        }
        while i < 16
            invariant
                i <= 16,
                forall|j: int|
                    0 <= j < 16 ==> (#[trigger] bit_set(above, j) <==> j < i
                        && self.thresholds@[j].is_above()),
                forall|j: int|
                    0 <= j < 16 ==> (#[trigger] bit_set(below, j) <==> j < i
                        && self.thresholds@[j].is_below()),
            decreases 16 - i,
        {
            let detector = self.thresholds[i as usize];
            let ghost above_before = above;
            let ghost below_before = below;
            if detector.last_above_threshold_debounced >= detector.last_below_threshold_debounced {
                above = above | (1u16 << i);
                proof {
                    assert forall|j: int| 0 <= j < 16 implies (#[trigger] bit_set(above, j) <==> j
                        < i + 1 && self.thresholds@[j].is_above()) by {
                        lemma_bit_of_or(above_before, i, j as u16);
                        assert(bit_set(above_before, j) <==> j < i
                            && self.thresholds@[j].is_above());
                    }
                }
            }
            if detector.last_below_threshold_debounced >= detector.last_above_threshold_debounced {
                below = below | (1u16 << i);
                proof {
                    assert forall|j: int| 0 <= j < 16 implies (#[trigger] bit_set(below, j) <==> j
                        < i + 1 && self.thresholds@[j].is_below()) by {
                        lemma_bit_of_or(below_before, i, j as u16);
                        assert(bit_set(below_before, j) <==> j < i
                            && self.thresholds@[j].is_below());
                    }
                }
            }
            i += 1;
        }
        InputGetThresholdStatesRes { above, below }
    }
}

} // verus!
