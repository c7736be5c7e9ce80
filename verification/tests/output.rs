use pico_iox16::output::{clamp_frequency, group_setting, handle_output_get, scale_duty};
use pico_iox16::payload::{OutputGroup, OutputSetReq};

#[test]
fn frequency_is_clamped() {
    assert_eq!(clamp_frequency(0), 10);
    assert_eq!(clamp_frequency(9), 10);
    assert_eq!(clamp_frequency(10), 10);
    assert_eq!(clamp_frequency(1000), 1000);
    assert_eq!(clamp_frequency(50_000), 50_000);
    assert_eq!(clamp_frequency(50_001), 50_000);
    assert_eq!(clamp_frequency(65_535), 50_000);
}

#[test]
fn duty_is_scaled_to_the_hardware() {
    // Full duty is the greatest duty value of the hardware, none is none.
    assert_eq!(scale_duty(0x8000, 1000), 1000);
    assert_eq!(scale_duty(0, 1000), 0);
    assert_eq!(scale_duty(0x4000, 1000), 500);
    assert_eq!(scale_duty(0x2000, 1000), 250);
    assert_eq!(scale_duty(0x8000, 0xFFFF), 0xFFFF);
    assert_eq!(scale_duty(0x8000, 1), 1);
    // Above full counts as full.
    assert_eq!(scale_duty(0x8001, 1000), 1000);
    assert_eq!(scale_duty(0xFFFF, 1000), 1000);
    assert_eq!(scale_duty(0xFFFF, 0xFFFF), 0xFFFF);
    // On hardware whose full duty is 0x8000 the request goes through.
    for duty in [0u16, 1, 2, 0x1234, 0x7FFF, 0x8000] {
        assert_eq!(scale_duty(duty, 0x8000), duty);
    }
    // Hardware without a duty range takes 0.
    assert_eq!(scale_duty(0x8000, 0), 0);
    assert_eq!(scale_duty(0x1234, 0), 0);
}

#[test]
fn duty_is_rounded_to_the_nearest() {
    // 16 * 1000 / 32768 = 0.488: down. 17 * 1000 / 32768 = 0.519: up.
    assert_eq!(scale_duty(16, 1000), 0);
    assert_eq!(scale_duty(17, 1000), 1);
    // 1 * 0x4000 / 0x8000 is a half: up.
    assert_eq!(scale_duty(1, 0x4000), 1);
    assert_eq!(scale_duty(3, 0x4000), 2);
    // 1 * 0x3FFF / 0x8000 is just below a half: down.
    assert_eq!(scale_duty(1, 0x3FFF), 0);
    // 0x7FFF * 0xFFFF / 0x8000 = 65533.0000305: down.
    assert_eq!(scale_duty(0x7FFF, 0xFFFF), 65533);
    // 0x4001 * 0xFFFF / 0x8000 = 32769.49998: down.
    assert_eq!(scale_duty(0x4001, 0xFFFF), 32769);
    // 12345 * 999 / 32768 = 376.36: down. 12345 * 1001 / 32768 = 377.11: down.
    assert_eq!(scale_duty(12345, 999), 376);
    assert_eq!(scale_duty(12345, 1001), 377);
    // Never above the greatest duty value.
    for max in [0u16, 1, 2, 3, 999, 0x7FFF, 0x8000, 0xFFFF] {
        for duty in [0u16, 1, 0x3FFF, 0x4000, 0x7FFF, 0x8000, 0xFFFF] {
            assert!(scale_duty(duty, max) <= max);
        }
    }
}

#[test]
fn group_is_planned() {
    let group = OutputGroup {
        duty_cycle: [0x4000, 0x9000],
        frequency: 60_000,
    };
    let setting = group_setting(&group, 1000, 0xFFFF);
    assert_eq!(setting.frequency, 50_000);
    assert_eq!(setting.duty_cycle, [500, 0xFFFF]);
    let group = OutputGroup {
        duty_cycle: [0x8000, 0],
        frequency: 3,
    };
    let setting = group_setting(&group, 48_000, 48_000);
    assert_eq!(setting.frequency, 10);
    assert_eq!(setting.duty_cycle, [48_000, 0]);
}

#[test]
fn hardware_values_are_reported_as_they_are() {
    let mut request = OutputSetReq::default();
    request.0[7].frequency = 20_000;
    request.0[7].duty_cycle = [0x2000, 0xFFFF];
    let hardware = request.0;
    assert_eq!(handle_output_get(&hardware).0, hardware);
    assert_eq!(handle_output_get(&hardware).0[7].duty_cycle, [0x2000, 0xFFFF]);
}
