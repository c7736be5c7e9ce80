use pico_iox16::codec::{master_next, Request, Response};
use pico_iox16::main_loop::{Action, MainLoop, Polled, BUFFER_LEN};
use pico_iox16::nvm::{default_nonvolatile_data, NonvolatileData, Nvm};
use pico_iox16::payload::{
    CheckReq, CheckRes, Config, ConfigGetReq, ConfigGetRes, ConfigSetReq, InfoGetReq,
    InputCalibration, InputGetCalibrationsReq, InputGetFullReq, InputGetReq,
    InputGetThresholdStatesReq, InputGetThresholdTimesReq, InputGetThresholdsReq,
    InputSetCalibrationsReq, InputSetThresholdsReq, InputThreshold, OutputGetReq, OutputGetRes,
    OutputSetReq, OutputSetRes, RebootReq, RebootRes,
};
use pico_iox16::runtime::{MainLoopError, ReadError};
use pico_iox16::scan::{ScanAction, ScanEvent};

type LoopError = MainLoopError<u8, (), (), (), (), ()>;

fn drain(state: &mut MainLoop) -> Vec<Request> {
    let mut found = Vec::new();
    loop {
        match state.next_request() {
            Polled::Request(request) => found.push(request),
            Polled::Dropped => {}
            Polled::Idle => return found,
        }
    }
}

#[test]
fn liveness() {
    let mut state = MainLoop::new(0, 0x1234);
    let mut nvm = Nvm::new(&default_nonvolatile_data());
    let request = Request::Check(CheckReq).frame(0x1234);
    assert_eq!(
        &request[..8],
        &[0x4F, 0x4D, 0x00, 0xFF, 0x34, 0x12, 0x00, 0x00]
    );
    state.received(&request, 10);
    let requests = drain(&mut state);
    assert_eq!(requests, vec![Request::Check(CheckReq)]);
    let action = state.dispatch(&requests[0], 20, &mut nvm);
    assert_eq!(
        action,
        Action::Reply {
            response: Response::Check(CheckRes)
        }
    );
    let reply = state.reply_frame(&Response::Check(CheckRes));
    let (read, processed) = master_next(&reply);
    assert_eq!(processed, reply.len());
    assert_eq!(read, Some((0x1234, Response::Check(CheckRes))));
    assert_eq!(reply.len(), 10);
    assert_eq!(&reply[2..8], &[0x00, 0xFF, 0x34, 0x12, 0x00, 0x00]);
}

fn uptime_at(now: u64) -> u32 {
    let mut state = MainLoop::new(0, 0x1234);
    let mut nvm = Nvm::new(&default_nonvolatile_data());
    match state.dispatch(&Request::InfoGet(InfoGetReq), now, &mut nvm) {
        Action::Reply {
            response: Response::InfoGet(info),
        } => {
            assert_eq!(&info.info[..19], "Pico I\u{2234}O\u{d7}16 v1.0".as_bytes());
            assert_eq!(&info.info[19..], &[0u8; 13]);
            assert_eq!(info.firmware_version_major, 0);
            assert_eq!(info.firmware_version_minor, 1);
            assert_eq!(info.firmware_version_patch, 0);
            info.uptime
        }
        other => panic!("{other:?}"),
    }
}

#[test]
fn info_reports_whole_seconds_of_uptime() {
    assert_eq!(uptime_at(0), 0);
    assert_eq!(uptime_at(500_000), 0);
    assert_eq!(uptime_at(999_999), 0);
    assert_eq!(uptime_at(1_000_000), 1);
    assert_eq!(uptime_at(2_000_000), 2);
    assert_eq!(uptime_at(2_999_999), 2);
    // The low 32 bits of the seconds are kept.
    assert_eq!(uptime_at(0x1_0000_0005 * 1_000_000), 5);
    let mut late = MainLoop::new(7_000_000, 1);
    let mut nvm = Nvm::new(&default_nonvolatile_data());
    match late.dispatch(&Request::InfoGet(InfoGetReq), 9_500_000, &mut nvm) {
        Action::Reply {
            response: Response::InfoGet(info),
        } => assert_eq!(info.uptime, 2),
        other => panic!("{other:?}"),
    }
}

#[test]
fn write_then_read_configuration() {
    let mut state = MainLoop::new(0, 0x1234);
    let mut nvm = Nvm::new(&default_nonvolatile_data());
    let config = Config {
        address: 0x0005,
        baudrate: 115200,
        reserved: [0, 0],
    };
    state.received(&Request::ConfigSet(ConfigSetReq(config)).frame(0x1234), 100);
    let requests = drain(&mut state);
    assert_eq!(requests.len(), 1);
    let page = match state.dispatch(&requests[0], 200, &mut nvm) {
        Action::Store { page, response } => {
            assert_eq!(response.command(), requests[0].command());
            page
        }
        other => panic!("{other:?}"),
    };
    // The cache holds the new configuration at once; the address in use stays
    // until the reboot.
    assert_eq!(nvm.get().config, config);
    state.received(&Request::ConfigGet(ConfigGetReq).frame(5), 300);
    assert!(drain(&mut state).is_empty());

    // Reboot with the page that was written.
    let mut nvm = Nvm::new(&page);
    let mut state = MainLoop::new(0, nvm.get().config.address);
    state.received(&Request::ConfigGet(ConfigGetReq).frame(0x1234), 100);
    assert!(drain(&mut state).is_empty());
    state.received(&Request::ConfigGet(ConfigGetReq).frame(5), 200);
    let requests = drain(&mut state);
    assert_eq!(requests, vec![Request::ConfigGet(ConfigGetReq)]);
    let action = state.dispatch(&requests[0], 300, &mut nvm);
    assert_eq!(
        action,
        Action::Reply {
            response: Response::ConfigGet(ConfigGetRes(config))
        }
    );
    let reply = state.reply_frame(&Response::ConfigGet(ConfigGetRes(config)));
    assert_eq!(
        master_next(&reply).0,
        Some((5, Response::ConfigGet(ConfigGetRes(config))))
    );
}

#[test]
fn every_request_leads_to_its_action() {
    let mut state = MainLoop::new(0, 1);
    let mut nvm = Nvm::new(&default_nonvolatile_data());
    let outputs = OutputSetReq::default();
    assert_eq!(
        state.dispatch(&Request::OutputSet(outputs), 1, &mut nvm),
        Action::SetOutputs {
            request: outputs,
            response: Response::OutputSet(OutputSetRes)
        }
    );
    assert_eq!(
        state.dispatch(&Request::OutputGet(OutputGetReq), 2, &mut nvm),
        Action::GetOutputs
    );
    let mut hardware = outputs.0;
    hardware[3].duty_cycle = [48_000, 7];
    hardware[3].frequency = 20_000;
    let reply = MainLoop::outputs_read(&hardware);
    assert_eq!(reply, Response::OutputGet(OutputGetRes(hardware)));
    assert_eq!(reply.command(), Request::OutputGet(OutputGetReq).command());
    assert_eq!(
        state.dispatch(&Request::Reboot(RebootReq), 3, &mut nvm),
        Action::Reboot {
            response: Response::Reboot(RebootRes),
            delay_us: 1000
        }
    );
    let calibration = InputCalibration {
        multiply: 3,
        divide: 2,
        add: 1,
        min: -9,
        max: 9,
    };
    match state.dispatch(
        &Request::InputSetCalibrations(InputSetCalibrationsReq([calibration; 16])),
        4,
        &mut nvm,
    ) {
        Action::Store { page, response } => {
            assert!(matches!(response, Response::InputSetCalibrations(_)));
            assert_eq!(NonvolatileData::from_page(&page), nvm.get());
        }
        other => panic!("{other:?}"),
    }
    match state.dispatch(
        &Request::InputGetCalibrations(InputGetCalibrationsReq),
        5,
        &mut nvm,
    ) {
        Action::Reply {
            response: Response::InputGetCalibrations(get),
        } => assert_eq!(get.0, [calibration; 16]),
        other => panic!("{other:?}"),
    }
    let threshold = InputThreshold {
        threshold_high: 5,
        threshold_low: -5,
        debounce_time_us: 10,
        debounce_count: 1,
    };
    match state.dispatch(
        &Request::InputSetThresholds(InputSetThresholdsReq([threshold; 16])),
        6,
        &mut nvm,
    ) {
        Action::Store { page, response } => {
            assert!(matches!(response, Response::InputSetThresholds(_)));
            assert_eq!(NonvolatileData::from_page(&page), nvm.get());
        }
        other => panic!("{other:?}"),
    }
    match state.dispatch(&Request::InputGetThresholds(InputGetThresholdsReq), 7, &mut nvm) {
        Action::Reply {
            response: Response::InputGetThresholds(get),
        } => assert_eq!(get.0, [threshold; 16]),
        other => panic!("{other:?}"),
    }
    match state.dispatch(&Request::InputGet(InputGetReq), 8, &mut nvm) {
        Action::Reply {
            response: Response::InputGet(values),
        } => assert_eq!(values.values, [0i16; 16]),
        other => panic!("{other:?}"),
    }
    match state.dispatch(&Request::InputGetFull(InputGetFullReq), 9, &mut nvm) {
        Action::Reply {
            response: Response::InputGetFull(stats),
        } => assert!(stats.stats.iter().all(|stat| stat.count == 0)),
        other => panic!("{other:?}"),
    }
    match state.dispatch(
        &Request::InputGetThresholdTimes(InputGetThresholdTimesReq),
        10,
        &mut nvm,
    ) {
        Action::Reply {
            response: Response::InputGetThresholdTimes(times),
        } => {
            assert_eq!(times.now, 10);
            assert!(times
                .inputs
                .iter()
                .all(|input| input.last_low == 0 && input.last_high == 0));
        }
        other => panic!("{other:?}"),
    }
    match state.dispatch(
        &Request::InputGetThresholdStates(InputGetThresholdStatesReq),
        11,
        &mut nvm,
    ) {
        Action::Reply {
            response: Response::InputGetThresholdStates(states),
        } => assert_eq!((states.above, states.below), (0xFFFF, 0xFFFF)),
        other => panic!("{other:?}"),
    }
}

#[test]
fn buffer_is_given_up_after_a_gap() {
    let frame = Request::Check(CheckReq).frame(1);
    let mut state = MainLoop::new(0, 1);
    state.received(&frame[..6], 100);
    assert!(drain(&mut state).is_empty());
    assert_eq!(state.free_tail(), BUFFER_LEN - 6);
    // 1000 microseconds later the rest still belongs to the frame.
    state.received(&frame[6..], 1100);
    assert_eq!(drain(&mut state), vec![Request::Check(CheckReq)]);
    assert_eq!(state.free_tail(), BUFFER_LEN);

    let mut state = MainLoop::new(0, 1);
    state.received(&frame[..6], 100);
    // 1001 microseconds later what waited is given up; the new bytes stay.
    state.received(&frame[6..], 1101);
    assert_eq!(state.free_tail(), BUFFER_LEN - 4);
    // Of the four new bytes the hunter passes over the one that starts no
    // marker.
    assert!(drain(&mut state).is_empty());
    assert_eq!(state.free_tail(), BUFFER_LEN - 3);
    // The gap counts from the last byte, also where a read brings nothing.
    let mut state = MainLoop::new(0, 1);
    state.received(&frame[..6], 100);
    state.received(&[], 600);
    assert_eq!(state.free_tail(), BUFFER_LEN - 6);
    state.received(&[], 1101);
    assert_eq!(state.free_tail(), BUFFER_LEN);
}

#[test]
fn read_errors() {
    let frame = Request::Check(CheckReq).frame(1);
    let mut state = MainLoop::new(0, 1);
    state.received(&frame[..6], 100);
    let r: Result<(), LoopError> = state.read_failed(ReadError::RecoverableError);
    assert!(r.is_ok());
    assert_eq!(state.free_tail(), BUFFER_LEN);
    state.received(&frame[6..], 110);
    assert!(drain(&mut state).is_empty());
    state.received(&frame, 120);
    assert_eq!(drain(&mut state).len(), 1);
    state.received(&frame[..6], 130);
    let r: Result<(), LoopError> = state.read_failed(ReadError::UnrecoverableError(7));
    assert!(matches!(r, Err(MainLoopError::Read(7))));
    assert_eq!(state.free_tail(), BUFFER_LEN);
}

#[test]
fn error_causes_are_converted() {
    let error: MainLoopError<u8, u8, u8, u8, u8, u8> = MainLoopError::Read(7);
    let wide: MainLoopError<u32, u32, u32, u32, u32, u32> = error.convert();
    assert!(matches!(wide, MainLoopError::Read(7)));
    let error: MainLoopError<u8, u8, u8, u8, u8, u8> = MainLoopError::Write(1);
    assert!(matches!(
        error.convert::<u16, u16, u16, u16, u16, u16>(),
        MainLoopError::Write(1)
    ));
    let error: MainLoopError<u8, u8, u8, u8, u8, u8> = MainLoopError::IoSend(2);
    assert!(matches!(
        error.convert::<u16, u16, u16, u16, u16, u16>(),
        MainLoopError::IoSend(2)
    ));
    let error: MainLoopError<u8, u8, u8, u8, u8, u8> = MainLoopError::Output(3);
    assert!(matches!(
        error.convert::<u16, u16, u16, u16, u16, u16>(),
        MainLoopError::Output(3)
    ));
    let error: MainLoopError<u8, u8, u8, u8, u8, u8> = MainLoopError::Input(4);
    assert!(matches!(
        error.convert::<u16, u16, u16, u16, u16, u16>(),
        MainLoopError::Input(4)
    ));
    let error: MainLoopError<u8, u8, u8, u8, u8, u8> = MainLoopError::Nvm(5);
    assert!(matches!(
        error.convert::<u16, u16, u16, u16, u16, u16>(),
        MainLoopError::Nvm(5)
    ));
}

#[test]
fn several_frames_in_one_read() {
    let mut bytes = vec![0xAAu8, 0x4F, 0x00];
    bytes.extend_from_slice(&Request::Check(CheckReq).frame(1));
    bytes.extend_from_slice(&Request::Check(CheckReq).frame(2));
    bytes.extend_from_slice(&[0x4F, 0x4D]);
    bytes.extend_from_slice(&Request::Reboot(RebootReq).frame(1));
    let mut state = MainLoop::new(0, 1);
    state.received(&bytes, 5);
    assert_eq!(
        drain(&mut state),
        vec![Request::Check(CheckReq), Request::Reboot(RebootReq)]
    );
    assert_eq!(state.free_tail(), BUFFER_LEN);
}

fn stream() -> Vec<u8> {
    let mut bytes = vec![0x00u8, 0x4F, 0x4D, 0x4F];
    bytes.extend_from_slice(&Request::Check(CheckReq).frame(1));
    bytes.extend_from_slice(&[0x4F, 0x4D, 0x01]);
    let mut damaged = Request::ConfigSet(ConfigSetReq(Config {
        address: 2,
        baudrate: 3,
        reserved: [0, 0],
    }))
    .frame(1);
    damaged[9] ^= 0x10;
    bytes.extend_from_slice(&damaged);
    bytes.extend_from_slice(&Request::InfoGet(InfoGetReq).frame(9));
    bytes.extend_from_slice(&Request::OutputSet(OutputSetReq::default()).frame(1));
    bytes.extend_from_slice(&[0x4F, 0x4D, 0x02, 0xFD, 1]);
    bytes
}

#[test]
fn byte_by_byte_gives_the_same_as_all_at_once() {
    let bytes = stream();
    let mut whole = MainLoop::new(0, 1);
    whole.received(&bytes, 1);
    let at_once = drain(&mut whole);
    assert_eq!(
        at_once,
        vec![
            Request::Check(CheckReq),
            Request::OutputSet(OutputSetReq::default())
        ]
    );

    let mut single = MainLoop::new(0, 1);
    let mut one_by_one = Vec::new();
    for (index, byte) in bytes.iter().enumerate() {
        single.received(&[*byte], 1 + index as u64);
        one_by_one.extend(drain(&mut single));
    }
    assert_eq!(one_by_one, at_once);
    // Both are done with the same bytes: the same number waits in the buffer.
    assert_eq!(single.free_tail(), whole.free_tail());
    assert_eq!(whole.free_tail(), BUFFER_LEN - 5);

    for chunk in [2usize, 3, 7, 10, 64] {
        let mut pieces = MainLoop::new(0, 1);
        let mut found = Vec::new();
        for (index, piece) in bytes.chunks(chunk).enumerate() {
            pieces.received(piece, 1 + index as u64);
            found.extend(drain(&mut pieces));
        }
        assert_eq!(found, at_once, "pieces of {chunk}");
        assert_eq!(pieces.free_tail(), whole.free_tail());
    }
}

#[test]
fn scan_runs_beside_the_main_loop() {
    let mut state = MainLoop::new(0, 1);
    let data = NonvolatileData::from_page(&default_nonvolatile_data());
    let mut nvm = Nvm::new(&default_nonvolatile_data());
    let events = [
        (ScanAction::StartRead0, ScanEvent::Done),
        (ScanAction::Yield, ScanEvent::Done),
        (ScanAction::ReadLast, ScanEvent::Sample { raw: 100, now: 10 }),
        (ScanAction::StartRead1, ScanEvent::Done),
        (ScanAction::ReadLast, ScanEvent::Sample { raw: 200, now: 20 }),
        (
            ScanAction::Select {
                select0: true,
                select1: false,
                select2: false,
            },
            ScanEvent::Done,
        ),
        (ScanAction::WaitUntil { until: 23 }, ScanEvent::Done),
        (ScanAction::StartRead0, ScanEvent::Done),
    ];
    for (action, event) in events {
        assert_eq!(state.scan_action(), action);
        assert!(state.scan_accepts(&event, &data));
        state.scan_event(event, &data);
    }
    match state.dispatch(&Request::InputGet(InputGetReq), 30, &mut nvm) {
        Action::Reply {
            response: Response::InputGet(values),
        } => {
            assert_eq!(values.values[0], 100);
            assert_eq!(values.values[8], 200);
            assert_eq!(values.values[1], 0);
        }
        other => panic!("{other:?}"),
    }
    // A reading from before the reading that was taken in last is not accepted.
    assert!(state.scan_accepts(&ScanEvent::Done, &data));
    state.scan_event(ScanEvent::Done, &data);
    state.scan_event(ScanEvent::Sample { raw: 1, now: 5 }, &data);
    assert!(!state.scan_accepts(&ScanEvent::Done, &data));
}

#[test]
fn readings_are_taken_in_whatever_the_bus_side_was_told() {
    let data = NonvolatileData::from_page(&default_nonvolatile_data());
    let mut nvm = Nvm::new(&default_nonvolatile_data());
    let mut state = MainLoop::new(0, 1);
    state.scan_event(ScanEvent::Done, &data);
    state.scan_event(ScanEvent::Done, &data);
    // The left reading is taken at 100. While the right converter is started,
    // the bus side reads at 105 and handles a request at 110.
    state.scan_event(ScanEvent::Sample { raw: 40, now: 100 }, &data);
    state.received(&[], 105);
    assert_eq!(state.latest_time(), 105);
    let _ = state.dispatch(&Request::Check(CheckReq), 110, &mut nvm);
    assert!(state.scan_accepts(&ScanEvent::Done, &data));
    state.scan_event(ScanEvent::Done, &data);
    // The same for the right reading, taken at 120, while the lines are set.
    state.scan_event(ScanEvent::Sample { raw: 50, now: 120 }, &data);
    state.received(&[], 500);
    assert!(state.scan_accepts(&ScanEvent::Done, &data));
    state.scan_event(ScanEvent::Done, &data);
    assert_eq!(state.scan_action(), ScanAction::WaitUntil { until: 123 });
    assert_eq!(state.latest_time(), 500);
    match state.dispatch(&Request::InputGetThresholdTimes(InputGetThresholdTimesReq), 600, &mut nvm)
    {
        Action::Reply {
            response: Response::InputGetThresholdTimes(times),
        } => assert_eq!(times.now, 600),
        other => panic!("{other:?}"),
    }
    match state.dispatch(&Request::InputGet(InputGetReq), 700, &mut nvm) {
        Action::Reply {
            response: Response::InputGet(values),
        } => {
            assert_eq!(values.values[0], 40);
            assert_eq!(values.values[8], 50);
        }
        other => panic!("{other:?}"),
    }
    // The next left reading may lie before what the bus side was told, but not
    // before the reading taken in last.
    state.scan_event(ScanEvent::Done, &data);
    state.scan_event(ScanEvent::Done, &data);
    state.scan_event(ScanEvent::Done, &data);
    state.scan_event(ScanEvent::Sample { raw: 41, now: 130 }, &data);
    assert!(state.scan_accepts(&ScanEvent::Done, &data));
    let mut back = MainLoop::new(0, 1);
    back.scan_event(ScanEvent::Done, &data);
    back.scan_event(ScanEvent::Done, &data);
    back.scan_event(ScanEvent::Sample { raw: 1, now: 50 }, &data);
    back.scan_event(ScanEvent::Done, &data);
    back.scan_event(ScanEvent::Sample { raw: 1, now: 49 }, &data);
    assert!(!back.scan_accepts(&ScanEvent::Done, &data));
}
