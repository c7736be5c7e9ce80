use pico_iox16::bytes::{decode_exact, Wire};
use pico_iox16::checksum::checksum;
use pico_iox16::codec::{master_next, slave_next, Request, RequestTrait, Response};
use pico_iox16::command::Command;
use pico_iox16::frame::{next_message, Footer, Message, FOOTER_LEN};
use pico_iox16::payload::{
    CheckReq, CheckRes, Config, ConfigGetReq, ConfigGetRes, ConfigSetReq, ConfigSetRes,
    InfoGetReq, InfoGetRes, InputCalibration, InputGetCalibrationsReq, InputGetCalibrationsRes,
    InputGetFullReq, InputGetFullRes, InputGetReq, InputGetRes, InputGetThresholdStatesReq,
    InputGetThresholdStatesRes, InputGetThresholdTimesReq, InputGetThresholdTimesRes,
    InputGetThresholdsReq, InputGetThresholdsRes, InputSetCalibrationsReq,
    InputSetCalibrationsRes, InputSetThresholdsReq, InputSetThresholdsRes, InputStat,
    InputThreshold, InputThresholdTimes, OutputGetReq, OutputGetRes, OutputGroup, OutputSetReq,
    OutputSetRes, RebootReq, RebootRes,
};

#[test]
fn test_message_parsing() {
    let payload = OutputSetReq::default();
    let message = Message::new_request(0x1234, Command::OutputSet, payload);
    let bytes = message.as_bytes();
    let checksum = checksum(&bytes[..bytes.len() - FOOTER_LEN]);
    assert_eq!(
        decode_exact::<Footer>(&bytes[bytes.len() - FOOTER_LEN..])
            .unwrap()
            .checksum,
        checksum
    );
    let (maybe_message, processed) = next_message(&bytes);
    assert_eq!(processed, bytes.len());
    let (header, payload_bytes) = maybe_message.expect("Failed to parse payload");
    assert_eq!(header.address, 0x1234);
    assert_eq!(header.command, Command::OutputSet.to_u16());
    let parsed_payload =
        decode_exact::<OutputSetReq>(payload_bytes).expect("Failed to parse payload");
    assert_eq!(parsed_payload, payload);
}

#[test]
fn test_master_next() {
    let payload = InfoGetRes {
        info: *b"Test Device                     ",
        firmware_version_major: 1,
        firmware_version_minor: 0,
        firmware_version_patch: 2,
        uptime: 123456,
    };
    let message = Message::new_response(0x1234, Command::InfoGet, payload);
    let bytes = message.as_bytes();
    let (maybe_request, processed) = master_next(&bytes);
    assert_eq!(processed, bytes.len());
    let (address, response) = maybe_request.expect("Failed to parse message");
    assert_eq!(address, 0x1234);
    match response {
        Response::InfoGet(info) => {
            assert_eq!(info, payload);
        }
        _ => panic!("Unexpected response type"),
    }
}

#[test]
fn test_slave_next() {
    let payload = OutputSetReq::default();
    let message = Message::new_request(0x1234, Command::OutputSet, payload);
    let bytes = message.as_bytes();
    let (maybe_request, processed) = slave_next(&bytes, 0x1234);
    assert_eq!(processed, bytes.len());
    let request = maybe_request.expect("Failed to parse message");
    match request {
        Request::OutputSet(cmd) => {
            assert_eq!(cmd, payload);
        }
        _ => panic!("Unexpected request type"),
    }
}

#[test]
fn wire_sizes_match_the_frame_table() {
    assert_eq!(OutputSetReq::size(), 48);
    assert_eq!(InfoGetRes::size(), 40);
}

fn check_frame(address: u16) -> Vec<u8> {
    Request::Check(CheckReq).frame(address)
}

#[test]
fn checksum_is_crc16_kermit() {
    // The catalogue's check value for CRC-16/KERMIT.
    assert_eq!(checksum(b"123456789"), 0x2189);
    assert_eq!(checksum(b""), 0x0000);
    assert_ne!(checksum(&[0x01, 0x00]), 0x0001);
}

#[test]
fn frame_layout_is_little_endian() {
    let bytes = check_frame(0x1234);
    assert_eq!(bytes.len(), 10);
    assert_eq!(&bytes[..8], &[0x4F, 0x4D, 0x00, 0xFF, 0x34, 0x12, 0x00, 0x00]);
    let sum = checksum(&bytes[..8]);
    assert_eq!(bytes[8], (sum & 0xFF) as u8);
    assert_eq!(bytes[9], (sum >> 8) as u8);
}

#[test]
fn message_with_given_checksum() {
    let message = Message::with_checksum(
        0x0102,
        3,
        InputGetThresholdStatesRes {
            above: 0x8001,
            below: 0x0002,
        },
        0xBEEF,
    );
    assert_eq!(
        message.as_bytes(),
        vec![0x4F, 0x4D, 0x01, 0xFE, 0x02, 0x01, 0x03, 0x00, 0x01, 0x80, 0x02, 0x00, 0xEF, 0xBE]
    );
}

#[test]
fn hunter_resyncs_after_a_junk_byte() {
    let mut buffer = vec![0x00u8, 0x4F, 0x4D, 0x00, 0xFF, 0x34, 0x12, 0x00, 0x00];
    let sum = checksum(&buffer[1..]);
    buffer.push((sum & 0xFF) as u8);
    buffer.push((sum >> 8) as u8);
    let (request, processed) = slave_next(&buffer, 0x1234);
    assert_eq!(processed, 11);
    assert_eq!(request, Some(Request::Check(CheckReq)));
    let (message, processed) = next_message(&buffer);
    assert_eq!(processed, 11);
    let (header, payload) = message.unwrap();
    assert_eq!(header.address, 0x1234);
    assert_eq!(header.command, 0);
    assert_eq!(header.length, 0);
    assert_eq!(header.length_inverted, 0xFF);
    assert!(payload.is_empty());
}

#[test]
fn hunter_leaves_an_incomplete_frame_in_place() {
    let frame = check_frame(7);
    for cut in 4..frame.len() {
        let (message, processed) = next_message(&frame[..cut]);
        assert!(message.is_none());
        assert_eq!(processed, 0);
    }
    // Junk before the incomplete frame is passed over, the frame stays.
    let mut buffer = vec![1u8, 2, 3];
    buffer.extend_from_slice(&frame[..9]);
    let (message, processed) = next_message(&buffer);
    assert!(message.is_none());
    assert_eq!(processed, 3);
}

#[test]
fn hunter_keeps_the_last_bytes_that_may_start_a_marker() {
    let (message, processed) = next_message(&[]);
    assert!(message.is_none());
    assert_eq!(processed, 0);
    let (message, processed) = next_message(&[9, 9, 9]);
    assert!(message.is_none());
    assert_eq!(processed, 0);
    let (message, processed) = next_message(&[9, 9, 9, 9, 9, 9, 9]);
    assert!(message.is_none());
    assert_eq!(processed, 4);
}

#[test]
fn hunter_skips_a_whole_frame_with_wrong_checksum() {
    let mut bad = Request::OutputSet(OutputSetReq::default()).frame(3);
    let last = bad.len() - 1;
    bad[last] ^= 0x01;
    let good = check_frame(3);
    let mut buffer = bad.clone();
    buffer.extend_from_slice(&good);
    let (message, processed) = next_message(&buffer);
    assert_eq!(processed, bad.len() + good.len());
    let (header, _) = message.unwrap();
    assert_eq!(header.command, 0);
    // Alone, the damaged frame is passed over whole.
    let (message, processed) = next_message(&bad);
    assert!(message.is_none());
    assert_eq!(processed, bad.len());
}

#[test]
fn length_byte_must_match_its_inverse() {
    let mut frame = check_frame(3);
    frame[3] = 0xFE;
    let (message, processed) = next_message(&frame);
    assert!(message.is_none());
    assert_eq!(processed, frame.len() - 3);
}

#[test]
fn single_bit_flips_are_rejected() {
    let frame = Request::ConfigSet(ConfigSetReq(
        Config {
            address: 0x0005,
            baudrate: 115200,
            reserved: [0, 0],
        },
    ))
    .frame(0x1234);
    for index in 0..frame.len() {
        for bit in 0..8 {
            let mut damaged = frame.clone();
            damaged[index] ^= 1 << bit;
            let (request, _) = slave_next(&damaged, 0x1234);
            assert!(request.is_none(), "byte {index} bit {bit}");
            let (message, processed) = next_message(&damaged);
            assert!(message.is_none(), "byte {index} bit {bit}");
            if index >= 4 {
                // Behind the marker the whole frame is passed over.
                assert_eq!(processed, frame.len(), "byte {index} bit {bit}");
            } else {
                assert!(processed < frame.len(), "byte {index} bit {bit}");
            }
        }
    }
}

#[test]
fn slave_drops_frames_for_other_addresses() {
    let frame = check_frame(0x1234);
    let (request, processed) = slave_next(&frame, 0x1235);
    assert!(request.is_none());
    assert_eq!(processed, frame.len());
}

#[test]
fn unknown_command_is_dropped() {
    let message = Message::with_checksum(1, 15, CheckReq, 0);
    let mut bytes = message.as_bytes();
    let sum = checksum(&bytes[..8]);
    bytes[8] = (sum & 0xFF) as u8;
    bytes[9] = (sum >> 8) as u8;
    let (message, processed) = next_message(&bytes);
    assert!(message.is_some());
    assert_eq!(processed, 10);
    let (request, processed) = slave_next(&bytes, 1);
    assert!(request.is_none());
    assert_eq!(processed, 10);
    let (response, processed) = master_next(&bytes);
    assert!(response.is_none());
    assert_eq!(processed, 10);
    assert_eq!(Command::try_from_u16(15), None);
    assert_eq!(Command::try_from_u16(14), Some(Command::Reboot));
}

#[test]
fn payload_of_wrong_size_is_dropped() {
    // A ConfigSet request with the payload of a threshold-states response.
    let wrong = Message::new_request(
        9,
        Command::ConfigSet,
        InputGetThresholdStatesRes { above: 0, below: 0 },
    )
    .as_bytes();
    let (request, processed) = slave_next(&wrong, 9);
    assert!(request.is_none());
    assert_eq!(processed, wrong.len());
    // A request without fields has no payload: with one it is dropped.
    let one_word = InputGetThresholdStatesRes { above: 0, below: 0 };
    let padded = Message::new_request(0x1234, Command::Check, one_word).as_bytes();
    assert_eq!(padded.len(), 14);
    assert!(next_message(&padded).0.is_some());
    let (request, processed) = slave_next(&padded, 0x1234);
    assert_eq!(request, None);
    assert_eq!(processed, 14);
    // The master drops a response without fields that carries a payload.
    let (response, processed) = master_next(&padded);
    assert_eq!(response, None);
    assert_eq!(processed, 14);
    let padded = Message::new_response(7, Command::Reboot, one_word).as_bytes();
    assert_eq!(master_next(&padded), (None, 14));
    assert_eq!(slave_next(&padded, 7), (None, 14));
}

#[test]
fn decoders_ask_for_the_length_of_the_message() {
    for code in 0..15u16 {
        let request = Request::decode(code, &[]);
        let response = Response::decode(code, &[]);
        // One of the two has no fields and is read from no bytes.
        assert!(request.is_some() || response.is_some(), "command {code}");
        assert!(Request::decode(code, &[0]).is_none());
        assert!(Response::decode(code, &[0; 3]).is_none());
        assert!(Request::decode(code, &[0; 1020]).is_none());
        assert!(Response::decode(code, &[0; 1020]).is_none());
    }
    assert_eq!(Request::decode(0, &[]), Some(Request::Check(CheckReq)));
    assert_eq!(Request::decode(0, &[0; 4]), None);
    assert_eq!(Response::decode(14, &[]), Some(Response::Reboot(RebootRes)));
    assert_eq!(Response::decode(14, &[0; 4]), None);
    assert!(Request::decode(2, &[0; 8]).is_some());
    assert!(Request::decode(2, &[0; 4]).is_none());
    assert!(Request::decode(2, &[]).is_none());
    assert!(Response::decode(1, &[0; 40]).is_some());
    assert!(Response::decode(1, &[0; 44]).is_none());
    assert!(Request::decode(15, &[]).is_none());
    assert!(Response::decode(0xFFFF, &[]).is_none());
}

#[test]
fn command_ids() {
    let all = [
        Command::Check,
        Command::InfoGet,
        Command::ConfigSet,
        Command::ConfigGet,
        Command::OutputSet,
        Command::OutputGet,
        Command::InputGet,
        Command::InputGetFull,
        Command::InputSetCalibrations,
        Command::InputGetCalibrations,
        Command::InputSetThresholds,
        Command::InputGetThresholds,
        Command::InputGetThresholdTimes,
        Command::InputGetThresholdStates,
        Command::Reboot,
    ];
    for (id, command) in all.iter().enumerate() {
        assert_eq!(command.to_u16(), id as u16);
        assert_eq!(Command::try_from_u16(id as u16), Some(*command));
    }
    assert_eq!(Command::try_from_u16(0xFFFF), None);
}

fn sample_requests() -> Vec<Request> {
    let mut calibrations = [InputCalibration {
        multiply: 1,
        divide: 1,
        add: 0,
        min: -32768,
        max: 32767,
    }; 16];
    calibrations[3] = InputCalibration {
        multiply: -2,
        divide: 7,
        add: -100,
        min: -1000,
        max: 1000,
    };
    let mut thresholds = [InputThreshold {
        threshold_high: 100,
        threshold_low: -100,
        debounce_time_us: 500,
        debounce_count: 3,
    }; 16];
    thresholds[15].debounce_time_us = 0xFFFF_FFFE;
    let mut outputs = OutputSetReq::default();
    outputs.0[2].duty_cycle = [0x4000, 0x8000];
    outputs.0[2].frequency = 25_000;
    vec![
        Request::Check(CheckReq),
        Request::InfoGet(InfoGetReq),
        Request::ConfigGet(ConfigGetReq),
        Request::ConfigSet(ConfigSetReq(Config {
            address: 0x0005,
            baudrate: 115200,
            reserved: [0, 0],
        })),
        Request::OutputSet(outputs),
        Request::OutputGet(OutputGetReq),
        Request::InputGet(InputGetReq),
        Request::InputGetFull(InputGetFullReq),
        Request::InputSetCalibrations(InputSetCalibrationsReq(calibrations)),
        Request::InputGetCalibrations(InputGetCalibrationsReq),
        Request::InputSetThresholds(InputSetThresholdsReq(thresholds)),
        Request::InputGetThresholds(InputGetThresholdsReq),
        Request::InputGetThresholdTimes(InputGetThresholdTimesReq),
        Request::InputGetThresholdStates(InputGetThresholdStatesReq),
        Request::Reboot(RebootReq),
    ]
}

fn sample_responses() -> Vec<Response> {
    let mut stats = [InputStat {
        sum: 0,
        sum_squares: 0,
        min: 32767,
        max: -32768,
        count: 0,
    }; 16];
    stats[1] = InputStat {
        sum: -123456,
        sum_squares: 0x0123_4567_89AB_CDEF,
        min: -32768,
        max: 32767,
        count: 65535,
    };
    let mut times = [InputThresholdTimes {
        last_low: 0,
        last_high: 0,
    }; 16];
    times[7] = InputThresholdTimes {
        last_low: u64::MAX,
        last_high: 0x0102_0304_0506_0708,
    };
    let mut values = [0i16; 16];
    values[0] = -1;
    values[15] = 32767;
    vec![
        Response::Check(CheckRes),
        Response::InfoGet(InfoGetRes {
            info: *b"Test Device                     ",
            firmware_version_major: 1,
            firmware_version_minor: 0,
            firmware_version_patch: 2,
            uptime: 123456,
        }),
        Response::ConfigGet(ConfigGetRes(Config {
            address: 0xFFFF,
            baudrate: 1_000_000,
            reserved: [0xFF, 0xFF],
        })),
        Response::ConfigSet(ConfigSetRes),
        Response::OutputSet(OutputSetRes),
        Response::OutputGet(OutputGetRes(OutputSetReq::default().0)),
        Response::InputGet(InputGetRes { values }),
        Response::InputGetFull(InputGetFullRes { stats }),
        Response::InputSetCalibrations(InputSetCalibrationsRes),
        Response::InputGetCalibrations(InputGetCalibrationsRes(
            [InputCalibration {
                multiply: 2,
                divide: 1,
                add: -100,
                min: -1000,
                max: 1000,
            }; 16],
        )),
        Response::InputSetThresholds(InputSetThresholdsRes),
        Response::InputGetThresholds(InputGetThresholdsRes(
            [InputThreshold {
                threshold_high: 32767,
                threshold_low: -32768,
                debounce_time_us: 0,
                debounce_count: 0,
            }; 16],
        )),
        Response::InputGetThresholdTimes(InputGetThresholdTimesRes {
            now: 42,
            inputs: times,
        }),
        Response::InputGetThresholdStates(InputGetThresholdStatesRes {
            above: 0xAAAA,
            below: 0x5555,
        }),
        Response::Reboot(RebootRes),
    ]
}

#[test]
fn every_request_round_trips() {
    for (id, request) in sample_requests().into_iter().enumerate() {
        assert_eq!(request.command().to_u16(), id_of(&request));
        let frame = request.frame(0x1234);
        let (read, processed) = slave_next(&frame, 0x1234);
        assert_eq!(processed, frame.len());
        assert_eq!(read, Some(request), "request {id}");
        let (header, payload) = next_message(&frame).0.unwrap();
        assert_eq!(header.address, 0x1234);
        assert_eq!(header.command, request.command().to_u16());
        assert_eq!(payload.len(), frame.len() - 10);
        assert_eq!(header.length as usize * 4, payload.len());
    }
}

fn id_of(request: &Request) -> u16 {
    match request {
        Request::Check(_) => 0,
        Request::InfoGet(_) => 1,
        Request::ConfigSet(_) => 2,
        Request::ConfigGet(_) => 3,
        Request::OutputSet(_) => 4,
        Request::OutputGet(_) => 5,
        Request::InputGet(_) => 6,
        Request::InputGetFull(_) => 7,
        Request::InputSetCalibrations(_) => 8,
        Request::InputGetCalibrations(_) => 9,
        Request::InputSetThresholds(_) => 10,
        Request::InputGetThresholds(_) => 11,
        Request::InputGetThresholdTimes(_) => 12,
        Request::InputGetThresholdStates(_) => 13,
        Request::Reboot(_) => 14,
    }
}

#[test]
fn every_response_round_trips() {
    for (id, response) in sample_responses().into_iter().enumerate() {
        let frame = response.frame(0xBEEF);
        let (read, processed) = master_next(&frame);
        assert_eq!(processed, frame.len());
        assert_eq!(read, Some((0xBEEF, response)), "response {id}");
    }
}

#[test]
fn payload_sizes() {
    assert_eq!(CheckReq::size(), 0);
    assert_eq!(InfoGetRes::size(), 40);
    assert_eq!(Config::size(), 8);
    assert_eq!(OutputGroup::size(), 6);
    assert_eq!(OutputSetReq::size(), 48);
    assert_eq!(OutputGetRes::size(), 48);
    assert_eq!(InputGetRes::size(), 32);
    assert_eq!(InputStat::size(), 18);
    assert_eq!(InputGetFullRes::size(), 288);
    assert_eq!(InputCalibration::size(), 10);
    assert_eq!(InputSetCalibrationsReq::size(), 160);
    assert_eq!(InputThreshold::size(), 10);
    assert_eq!(InputSetThresholdsReq::size(), 160);
    assert_eq!(InputThresholdTimes::size(), 16);
    assert_eq!(InputGetThresholdTimesRes::size(), 264);
    assert_eq!(InputGetThresholdStatesRes::size(), 4);
}

#[test]
fn payload_bytes_are_little_endian() {
    let mut out = Vec::new();
    InputStat {
        sum: -2,
        sum_squares: 0x0102_0304_0506_0708,
        min: -32768,
        max: 258,
        count: 0x8000,
    }
    .encode_into(&mut out);
    assert_eq!(
        out,
        vec![
            0xFE, 0xFF, 0xFF, 0xFF, 0x08, 0x07, 0x06, 0x05, 0x04, 0x03, 0x02, 0x01, 0x00, 0x80,
            0x02, 0x01, 0x00, 0x80
        ]
    );
    let read = InputStat::decode_at(&out, 0);
    assert_eq!(read.sum, -2);
    assert_eq!(read.sum_squares, 0x0102_0304_0506_0708);
    assert_eq!(read.min, -32768);
    assert_eq!(read.max, 258);
    assert_eq!(read.count, 0x8000);
    assert_eq!(decode_exact::<InputStat>(&out[..17]), None);
    let mut out = Vec::new();
    InputThreshold {
        threshold_high: 100,
        threshold_low: -100,
        debounce_time_us: 0x01020304,
        debounce_count: 3,
    }
    .encode_into(&mut out);
    assert_eq!(out, vec![100, 0, 0x9C, 0xFF, 4, 3, 2, 1, 3, 0]);
}

#[test]
fn output_set_default() {
    let request = OutputSetReq::default();
    for group in request.0.iter() {
        assert_eq!(group.frequency, 1000);
        assert_eq!(group.duty_cycle, [0, 0]);
    }
}

#[test]
fn request_types_name_their_response() {
    assert_eq!(<CheckReq as RequestTrait>::command(), Command::Check);
    assert_eq!(<CheckReq as RequestTrait>::timeout_us(), 100);
    assert_eq!(<ConfigSetReq as RequestTrait>::timeout_us(), 500000);
    assert_eq!(<InputSetCalibrationsReq as RequestTrait>::timeout_us(), 500000);
    assert_eq!(<InputSetThresholdsReq as RequestTrait>::timeout_us(), 500000);
    assert_eq!(<RebootReq as RequestTrait>::timeout_us(), 500000);
    assert_eq!(<InputGetReq as RequestTrait>::command(), Command::InputGet);
    let states = InputGetThresholdStatesRes { above: 1, below: 2 };
    assert_eq!(
        InputGetThresholdStatesReq::get_response(Response::InputGetThresholdStates(states)),
        Some(states)
    );
    assert_eq!(
        InputGetThresholdStatesReq::get_response(Response::Check(CheckRes)),
        None
    );
    assert_eq!(CheckReq::get_response(Response::Check(CheckRes)), Some(CheckRes));
}
