use pico_iox16::nvm::{default_nonvolatile_data, Calibration, NonvolatileData, Nvm, Threshold};
use pico_iox16::payload::{
    Config, ConfigSetReq, InputCalibration, InputSetCalibrationsReq, InputSetThresholdsReq,
    InputThreshold,
};

fn defaults() -> NonvolatileData {
    NonvolatileData {
        config: Config {
            address: 0xFFFF,
            baudrate: 0xFFFF_FFFF,
            reserved: [0xFF, 0xFF],
        },
        calibrations: [Calibration {
            multiply: 1,
            divide: 1,
            add: 0,
            min: i16::MIN,
            max: i16::MAX,
        }; 16],
        thresholds: [Threshold {
            threshold_high: i16::MAX,
            threshold_low: i16::MIN,
            debounce_time_us: 0,
            debounce_count: 0,
        }; 16],
    }
}

fn sample() -> NonvolatileData {
    let mut data = defaults();
    data.config = Config {
        address: 0x0005,
        baudrate: 115200,
        reserved: [0, 0],
    };
    data.calibrations[0] = Calibration {
        multiply: 2,
        divide: 1,
        add: -100,
        min: -1000,
        max: 1000,
    };
    data.calibrations[15] = Calibration {
        multiply: -32768,
        divide: 32767,
        add: -1,
        min: 0,
        max: 0,
    };
    data.thresholds[0] = Threshold {
        threshold_high: 100,
        threshold_low: -100,
        debounce_time_us: 500,
        debounce_count: 3,
    };
    data.thresholds[15] = Threshold {
        threshold_high: -32768,
        threshold_low: 32767,
        debounce_time_us: 0xFFFF_FFFF,
        debounce_count: 0xFFFF,
    };
    data
}

#[test]
fn erased_page_decodes_to_defaults() {
    let page = [0xFFu8; 4096];
    let data = NonvolatileData::from_page(&page);
    assert_eq!(data, defaults());
    assert_eq!(data.config.address, 0xFFFF);
    for calibration in data.calibrations.iter() {
        assert_eq!(
            (
                calibration.multiply,
                calibration.divide,
                calibration.add,
                calibration.min,
                calibration.max
            ),
            (1, 1, 0, i16::MIN, i16::MAX)
        );
    }
    for threshold in data.thresholds.iter() {
        assert_eq!(
            (
                threshold.threshold_high,
                threshold.threshold_low,
                threshold.debounce_time_us,
                threshold.debounce_count
            ),
            (i16::MAX, i16::MIN, 0, 0)
        );
    }
}

#[test]
fn default_page_is_erased() {
    let page = default_nonvolatile_data();
    assert!(page.iter().all(|byte| *byte == 0xFF));
    assert_eq!(page.len(), 4096);
    assert_eq!(defaults().to_page(), page);
}

#[test]
fn page_layout_and_masks() {
    let page = sample().to_page();
    // Configuration, as it is.
    assert_eq!(&page[0..8], &[0x05, 0x00, 0x00, 0xC2, 0x01, 0x00, 0x00, 0x00]);
    // Calibration 0: 2^0xFFFE, 1^0xFFFE, -100^0xFFFF, -1000^0x7FFF, 1000^0x8000.
    assert_eq!(
        &page[8..18],
        &[0xFC, 0xFF, 0xFF, 0xFF, 0x63, 0x00, 0xE7, 0x83, 0xE8, 0x83]
    );
    // Calibration 1 is the default: erased.
    assert_eq!(&page[18..28], &[0xFF; 10]);
    // Threshold 0: 100^0x8000, -100^0x7FFF, 500^0xFFFFFFFF, 3^0xFFFF.
    assert_eq!(
        &page[168..178],
        &[0x64, 0x80, 0x63, 0x80, 0x0B, 0xFE, 0xFF, 0xFF, 0xFC, 0xFF]
    );
    // Threshold 15.
    assert_eq!(
        &page[318..328],
        &[0x00, 0x00, 0x00, 0x00, 0x00, 0x00, 0x00, 0x00, 0x00, 0x00]
    );
    assert!(page[328..].iter().all(|byte| *byte == 0xFF));
}

#[test]
fn page_round_trip() {
    let data = sample();
    let page = data.to_page();
    assert_eq!(NonvolatileData::from_page(&page), data);
    // The bytes behind the data are not looked at.
    let mut noisy = page;
    noisy[328] = 0;
    noisy[4095] = 0x55;
    assert_eq!(NonvolatileData::from_page(&noisy), data);
}

#[test]
fn set_is_seen_at_once_and_after_reboot() {
    let mut nvm = Nvm::new(&default_nonvolatile_data());
    assert_eq!(nvm.get(), defaults());
    let data = sample();
    let page = nvm.set(&data);
    assert_eq!(nvm.get(), data);
    assert_eq!(page, data.to_page());
    let rebooted = Nvm::new(&page);
    assert_eq!(rebooted.get(), data);
}

#[test]
fn handlers_replace_one_part() {
    let mut nvm = Nvm::new(&sample().to_page());
    let config = Config {
        address: 0x1234,
        baudrate: 1_000_000,
        reserved: [1, 2],
    };
    let (_, page) = nvm.handle_config_set(&ConfigSetReq(config));
    assert_eq!(nvm.handle_config_get().0, config);
    assert_eq!(nvm.get().calibrations, sample().calibrations);
    assert_eq!(nvm.get().thresholds, sample().thresholds);
    assert_eq!(NonvolatileData::from_page(&page), nvm.get());

    let wire = InputCalibration {
        multiply: 7,
        divide: -3,
        add: 9,
        min: -5,
        max: 5,
    };
    let (_, page) = nvm.handle_set_calibrations(&InputSetCalibrationsReq([wire; 16]));
    assert_eq!(nvm.handle_get_calibrations().0, [wire; 16]);
    assert_eq!(nvm.get().config, config);
    assert_eq!(nvm.get().thresholds, sample().thresholds);
    assert_eq!(nvm.get().calibrations[4].divide, -3);
    assert_eq!(NonvolatileData::from_page(&page), nvm.get());

    let wire = InputThreshold {
        threshold_high: 1,
        threshold_low: -1,
        debounce_time_us: 2,
        debounce_count: 3,
    };
    let (_, page) = nvm.handle_set_thresholds(&InputSetThresholdsReq([wire; 16]));
    assert_eq!(nvm.handle_get_thresholds().0, [wire; 16]);
    assert_eq!(nvm.get().config, config);
    assert_eq!(nvm.get().calibrations[0].multiply, 7);
    assert_eq!(NonvolatileData::from_page(&page), nvm.get());
}

#[test]
fn calibration_conversions() {
    let wire = InputCalibration {
        multiply: 1,
        divide: 2,
        add: 3,
        min: 4,
        max: 5,
    };
    let stored = Calibration::from_input(wire);
    assert_eq!(
        stored,
        Calibration {
            multiply: 1,
            divide: 2,
            add: 3,
            min: 4,
            max: 5
        }
    );
    assert_eq!(stored.to_input(), wire);
    let wire = InputThreshold {
        threshold_high: 1,
        threshold_low: 2,
        debounce_time_us: 3,
        debounce_count: 4,
    };
    assert_eq!(Threshold::from_input(wire).to_input(), wire);
}
