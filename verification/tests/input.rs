use pico_iox16::input::{InputData, InputLoop, ThresholdData};
use pico_iox16::nvm::{Calibration, Threshold};

fn identity() -> Calibration {
    Calibration {
        multiply: 1,
        divide: 1,
        add: 0,
        min: i16::MIN,
        max: i16::MAX,
    }
}

fn never() -> Threshold {
    Threshold {
        threshold_high: i16::MAX,
        threshold_low: i16::MIN,
        debounce_time_us: 0,
        debounce_count: 0,
    }
}

#[test]
fn calibration_maps_and_clamps() {
    let calibration = Calibration {
        multiply: 2,
        divide: 1,
        add: -100,
        min: -1000,
        max: 1000,
    };
    assert_eq!(calibration.apply(700), 1000);
    assert_eq!(calibration.apply(100), 100);
    assert_eq!(calibration.apply(0), -100);
}

#[test]
fn calibration_divides_towards_zero() {
    let mut calibration = identity();
    calibration.multiply = 3;
    calibration.divide = 2;
    assert_eq!(calibration.apply(5), 7);
    calibration.multiply = -3;
    assert_eq!(calibration.apply(5), -7);
    calibration.divide = -2;
    assert_eq!(calibration.apply(5), 7);
    calibration.multiply = 3;
    assert_eq!(calibration.apply(5), -7);
    assert_eq!(calibration.apply(0), 0);
}

#[test]
fn calibration_clamps() {
    let mut calibration = identity();
    calibration.multiply = 32767;
    assert_eq!(calibration.apply(4095), 32767);
    assert_eq!(calibration.apply(65535), 32767);
    calibration.multiply = -32768;
    assert_eq!(calibration.apply(65535), -32768);
    calibration.divide = -1;
    calibration.add = 32767;
    assert_eq!(calibration.apply(65535), 32767);
    // Where min is above max the result is max.
    let crossed = Calibration {
        multiply: 1,
        divide: 1,
        add: 0,
        min: 10,
        max: -10,
    };
    assert_eq!(crossed.apply(0), -10);
    assert_eq!(crossed.apply(100), -10);
}

#[test]
fn default_calibration_keeps_the_raw_value() {
    for raw in [0u16, 1, 2048, 4095] {
        assert_eq!(identity().apply(raw), raw as i16);
    }
}

#[test]
fn accumulator_starts_empty() {
    let data = InputData::new();
    assert_eq!(
        data,
        InputData {
            previous_value: 0,
            sum: 0,
            sum_squares: 0,
            min: i16::MAX,
            max: i16::MIN,
            count: 0,
        }
    );
    assert_eq!(data.read(), 0);
}

#[test]
fn count_is_zero_exactly_without_a_value() {
    let mut data = InputData::new();
    assert_eq!(data.count, 0);
    for value in [5i16, -7, 0, 32767, -32768] {
        data = data.update(value);
        assert!(data.count > 0);
        assert!(data.min <= value && value <= data.max);
    }
    assert_eq!(data.count, 5);
    data.read_and_reset();
    assert_eq!(data.count, 0);
    data = data.update(1);
    assert_eq!(data.count, 1);
}

#[test]
fn average_is_the_sum_by_the_count_towards_zero() {
    let mut data = InputData::new();
    data = data.update(5).update(-7);
    assert_eq!(data.sum, -2);
    assert_eq!(data.sum_squares, 74);
    assert_eq!(data.min, -7);
    assert_eq!(data.max, 5);
    assert_eq!(data.read(), -1);
    data = data.update(-1);
    assert_eq!(data.read(), -1);
    data = data.update(-1);
    assert_eq!(data.sum, -4);
    assert_eq!(data.read(), -1);
    let mut up = InputData::new();
    up = up.update(3).update(4);
    assert_eq!(up.read(), 3);
}

#[test]
fn read_and_reset_keeps_the_average_as_previous_value() {
    let mut data = InputData::new().update(10).update(20).update(31);
    let snapshot = data.read_and_reset();
    assert_eq!(snapshot.sum, 61);
    assert_eq!(snapshot.count, 3);
    assert_eq!(data.previous_value, 20);
    assert!(snapshot.min <= data.previous_value && data.previous_value <= snapshot.max);
    assert_eq!(data.count, 0);
    assert_eq!(data.sum, 0);
    assert_eq!(data.sum_squares, 0);
    assert_eq!(data.min, i16::MAX);
    assert_eq!(data.max, i16::MIN);
    // Without a new value the previous value is reported again.
    let again = data.read_and_reset();
    assert_eq!(again.count, 0);
    assert_eq!(data.previous_value, 20);
    assert_eq!(data.read(), 20);
}

#[test]
fn count_overflow_rescales() {
    let mut data = InputData::new();
    for _ in 0..65535 {
        data = data.update(3);
    }
    assert_eq!(data.count, 65535);
    assert_eq!(data.sum, 3 * 65535);
    assert_eq!(data.sum_squares, 9 * 65535);
    data = data.update(3);
    assert_eq!(data.count, 0x8000);
    assert_eq!(data.sum, 3 * 32768);
    assert_eq!(data.sum_squares, (9 * 65536 + 2) / 4);
    assert_eq!(data.min, 3);
    assert_eq!(data.max, 3);
    assert_eq!(data.read(), 3);
    for _ in 0..32767 {
        data = data.update(3);
    }
    assert_eq!(data.count, 65535);
    data = data.update(3);
    assert_eq!(data.count, 0x8000);
    assert_eq!(data.read(), 3);
}

#[test]
fn rescaling_moves_the_mean_by_at_most_half_a_count() {
    for last in [0i16, 1, -1, 2, -3] {
        let mut data = InputData::new();
        for _ in 0..65535 {
            data = data.update(-100);
        }
        let before = data.sum as i64 + last as i64;
        let squares = data.sum_squares + (last as i64 * last as i64) as u64;
        data = data.update(last);
        assert_eq!(data.count, 0x8000);
        let after = data.sum as i64;
        assert!((2 * after - before).abs() <= 1);
        assert!((4 * data.sum_squares as i64 - squares as i64).abs() <= 2);
        // Relative to the mean: at most 1 / (2 * count).
        assert!((2 * after - before).abs() * 65536 <= before.abs());
        assert!(after.abs() >= before.abs() / 2);
    }
}

#[test]
fn extreme_values_fit() {
    let mut low = InputData::new();
    let mut high = InputData::new();
    for _ in 0..65535 {
        low = low.update(i16::MIN);
        high = high.update(i16::MAX);
    }
    assert_eq!(low.sum, -32768 * 65535);
    assert_eq!(high.sum, 32767 * 65535);
    assert_eq!(low.read(), i16::MIN);
    assert_eq!(high.read(), i16::MAX);
    low = low.update(i16::MIN);
    high = high.update(i16::MAX);
    assert_eq!(low.sum, -32768 * 32768);
    assert_eq!(high.sum, 32767 * 32768);
    assert_eq!(low.sum_squares, 32768u64 * 32768 * 16384);
    assert_eq!(low.read(), i16::MIN);
    assert_eq!(high.read(), i16::MAX);
}

#[test]
fn debounce_records_the_first_crossing() {
    let threshold = Threshold {
        threshold_high: 100,
        threshold_low: i16::MIN,
        debounce_time_us: 500,
        debounce_count: 3,
    };
    let mut data = ThresholdData::new(0);
    data = data.update(50, 0, &threshold);
    assert_eq!(data.above_count, 0);
    data = data.update(150, 100, &threshold);
    assert_eq!(data.last_above_threshold, 100);
    assert_eq!(data.above_count, 1);
    assert_eq!(data.last_above_threshold_debounced, 0);
    for now in [200u64, 300, 400] {
        data = data.update(150, now, &threshold);
        assert_eq!(data.last_above_threshold, 100);
        assert_eq!(data.last_above_threshold_debounced, 0);
    }
    assert_eq!(data.above_count, 4);
    data = data.update(150, 700, &threshold);
    assert_eq!(data.last_above_threshold_debounced, 100);
    assert_eq!(data.last_above_threshold, 100);
    assert_eq!(data.above_count, 5);
    assert_eq!(data.below_count, 0);
    assert_eq!(data.last_below_threshold_debounced, 0);
}

#[test]
fn counters_follow_the_last_sample() {
    let threshold = Threshold {
        threshold_high: 10,
        threshold_low: -10,
        debounce_time_us: 0,
        debounce_count: 0,
    };
    let mut data = ThresholdData::new(5);
    let samples = [0i16, 11, 12, 10, -10, -11, -12, 11, 0, -32768, 32767];
    let mut now = 5u64;
    for value in samples {
        now += 7;
        let before = data;
        data = data.update(value, now, &threshold);
        assert_eq!(data.above_count > 0, value > 10);
        assert_eq!(data.below_count > 0, value < -10);
        if data.above_count == 0 && data.below_count == 0 {
            assert!((-10..=10).contains(&value));
        }
        assert!(data.last_above_threshold_debounced >= before.last_above_threshold_debounced);
        assert!(data.last_below_threshold_debounced >= before.last_below_threshold_debounced);
        assert!(data.last_above_threshold_debounced <= data.last_above_threshold);
        assert!(data.last_below_threshold_debounced <= data.last_below_threshold);
    }
    // Without debouncing, the first sample of a run is recorded at once.
    let mut data = ThresholdData::new(0);
    data = data.update(11, 3, &threshold);
    assert_eq!(data.last_above_threshold_debounced, 3);
    data = data.update(11, 9, &threshold);
    assert_eq!(data.last_above_threshold_debounced, 3);
    data = data.update(0, 12, &threshold);
    data = data.update(11, 20, &threshold);
    assert_eq!(data.last_above_threshold, 20);
    assert_eq!(data.last_above_threshold_debounced, 20);
}

#[test]
fn counters_saturate() {
    let threshold = Threshold {
        threshold_high: 0,
        threshold_low: 0,
        debounce_time_us: 0,
        debounce_count: 0xFFFF,
    };
    let mut data = ThresholdData::new(0);
    for now in 0..65534u64 {
        data = data.update(1, now, &threshold);
    }
    assert_eq!(data.above_count, 65534);
    data = data.update(1, 65534, &threshold);
    assert_eq!(data.above_count, 65535);
    assert_eq!(data.last_above_threshold_debounced, 0);
    assert_eq!(data.last_above_threshold, 0);
    data = data.update(1, 65535, &threshold);
    assert_eq!(data.above_count, 65535);
    data = data.update(1, 65536, &threshold);
    assert_eq!(data.above_count, 65535);
}

#[test]
fn debounce_needs_count_and_time() {
    let threshold = Threshold {
        threshold_high: 0,
        threshold_low: -5,
        debounce_time_us: 10,
        debounce_count: 1,
    };
    // Time passed, but only the first sample: not debounced.
    let mut data = ThresholdData::new(100);
    data = data.update(-6, 200, &threshold);
    assert_eq!(data.last_below_threshold, 200);
    assert_eq!(data.last_below_threshold_debounced, 100);
    // Second sample, but too early.
    data = data.update(-6, 209, &threshold);
    assert_eq!(data.last_below_threshold_debounced, 100);
    // Both.
    data = data.update(-6, 210, &threshold);
    assert_eq!(data.last_below_threshold_debounced, 200);
}

#[test]
fn engine_takes_samples_in() {
    let mut inputs = InputLoop::new(1000);
    let calibration = Calibration {
        multiply: 2,
        divide: 1,
        add: -100,
        min: -1000,
        max: 1000,
    };
    let threshold = Threshold {
        threshold_high: 900,
        threshold_low: -50,
        debounce_time_us: 0,
        debounce_count: 0,
    };
    assert_eq!(inputs.sample(3, 700, 1010, &calibration, &threshold), 1000);
    assert_eq!(inputs.sample(3, 100, 1020, &calibration, &threshold), 100);
    assert_eq!(inputs.sample(11, 0, 1030, &calibration, &threshold), -100);
    assert_eq!(inputs.input(3).sum, 1100);
    assert_eq!(inputs.input(3).count, 2);
    assert_eq!(inputs.input(11).count, 1);
    assert_eq!(inputs.input(0), InputData::new());
    assert_eq!(inputs.threshold(3).last_above_threshold_debounced, 1010);
    assert_eq!(inputs.threshold(3).above_count, 0);
    assert_eq!(inputs.threshold(11).last_below_threshold_debounced, 1030);
    assert_eq!(inputs.threshold(0), ThresholdData::new(1000));

    let times = inputs.handle_threshold_times(2000);
    assert_eq!(times.now, 2000);
    assert_eq!(times.inputs[3].last_high, 1010);
    assert_eq!(times.inputs[3].last_low, 1000);
    assert_eq!(times.inputs[11].last_low, 1030);
    assert_eq!(times.inputs[11].last_high, 1000);
    assert_eq!(times.inputs[0].last_low, 1000);

    let states = inputs.handle_threshold_states();
    // Untouched inputs count as both; input 3 is above only, input 11 below only.
    assert_eq!(states.above, 0xFFFF & !(1 << 11));
    assert_eq!(states.below, 0xFFFF & !(1 << 3));

    let full = {
        let mut copy = InputLoop::new(1000);
        copy.sample(3, 700, 1010, &calibration, &threshold);
        copy.sample(3, 100, 1020, &calibration, &threshold);
        let stats = copy.handle_input_get_full();
        assert_eq!(copy.input(3).previous_value, 550);
        assert_eq!(copy.input(3).count, 0);
        stats
    };
    assert_eq!(full.stats[3].sum, 1100);
    assert_eq!(full.stats[3].sum_squares, 1_010_000);
    assert_eq!(full.stats[3].min, 100);
    assert_eq!(full.stats[3].max, 1000);
    assert_eq!(full.stats[3].count, 2);
    assert_eq!(full.stats[0].count, 0);
    assert_eq!(full.stats[0].min, i16::MAX);
    assert_eq!(full.stats[0].max, i16::MIN);

    let averages = inputs.handle_input_get();
    assert_eq!(averages.values[3], 550);
    assert_eq!(averages.values[11], -100);
    assert_eq!(averages.values[0], 0);
    assert_eq!(inputs.input(3).count, 0);
    assert_eq!(inputs.input(3).previous_value, 550);
    // A second read without new samples repeats the values.
    let again = inputs.handle_input_get();
    assert_eq!(again.values, averages.values);
    // The threshold detectors are not touched by reading.
    assert_eq!(inputs.threshold(3).last_above_threshold_debounced, 1010);
}

#[test]
fn fresh_engine_reports_both_states() {
    let inputs = InputLoop::new(77);
    let states = inputs.handle_threshold_states();
    assert_eq!(states.above, 0xFFFF);
    assert_eq!(states.below, 0xFFFF);
    let mut inputs = inputs;
    let values = inputs.handle_input_get();
    assert_eq!(values.values, [0i16; 16]);
    let _ = never();
}
