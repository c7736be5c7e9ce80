//! The main loop of the firmware: the buffer of received bytes, the requests
//! that are read from it and what each of them leads to.
//!
//! The loop itself runs outside: it reads from the bus, performs what the
//! functions here decide, and yields once in every round. In one round it
//!
//! 1. reads into the free tail of the buffer, and tells `read_failed` or
//!    `received` what came of it,
//! 2. asks `next_request` until it answers `Idle`, and for every request
//!    performs the action that `dispatch` names and sends the reply.
//!
//! Beside it runs the scan of the inputs, whose state the main loop holds.
//! The two sides keep their times apart. The bus side is told the time of
//! every read and of every request, and is never told an earlier time than
//! before. The scan is told the time of every reading, which is taken right
//! after the conversion; a reading is taken in only after the next action of
//! the scan is done, and the bus side may have been told a later time by
//! then.
use crate::codec::{slave_next, slave_reads, Request, Response};
use crate::command::Command;
use crate::frame::{hunt, lemma_hunt_bounds};
use crate::input::InputLoop;
use crate::nvm::{calibrations_are, thresholds_are, NonvolatileData, Nvm};
use crate::output::handle_output_get;
use crate::payload::{
    CheckRes, InfoGetRes, OutputGetRes, OutputGroup, OutputSetReq, OutputSetRes, RebootRes,
};
use crate::runtime::{uptime, uptime_seconds, MainLoopError, ReadError};
use crate::scan::{ScanAction, ScanEvent, Scanner};
use vstd::prelude::*;

verus! {

/// The most bytes that wait in the buffer.
pub const BUFFER_LEN: usize = 256;

/// The gap between two bytes, in microseconds, above which what was received
/// before is given up.
pub const FRAME_GAP_US: u64 = 1000;

/// The time in microseconds between the reply to a reboot request and the reset.
pub const REBOOT_DELAY_US: u64 = 1000;

pub const FIRMWARE_VERSION_MAJOR: u8 = 0;

pub const FIRMWARE_VERSION_MINOR: u8 = 1;

pub const FIRMWARE_VERSION_PATCH: u16 = 0;

/// The name of the device in UTF-8, nineteen bytes.
pub open spec fn info_name() -> Seq<u8> {
    seq![
        0x50u8,
        0x69u8,
        0x63u8,
        0x6Fu8,
        0x20u8,
        0x49u8,
        0xE2u8,
        0x88u8,
        0xB4u8,
        0x4Fu8,
        0xC3u8,
        0x97u8,
        0x31u8,
        0x36u8,
        0x20u8,
        0x76u8,
        0x31u8,
        0x2Eu8,
        0x30u8,
    ]
}

/// The name of the device, filled up with null bytes to thirty-two bytes.
pub open spec fn info_text() -> Seq<u8> {
    info_name() + Seq::new(13, |i: int| 0u8)
}

fn info_bytes() -> (info: [u8; 32])
    ensures
        info@ == info_text(),
{
    let mut info = [0u8; 32];
    info[0] = 0x50;
    info[1] = 0x69;
    info[2] = 0x63;
    info[3] = 0x6F;
    info[4] = 0x20;
    info[5] = 0x49;
    info[6] = 0xE2;
    info[7] = 0x88;
    info[8] = 0xB4;
    info[9] = 0x4F;
    info[10] = 0xC3;
    info[11] = 0x97;
    info[12] = 0x31;
    info[13] = 0x36;
    info[14] = 0x20;
    info[15] = 0x76;
    info[16] = 0x31;
    info[17] = 0x2E;
    info[18] = 0x30;
    assert(info@ =~= info_text());
    info
}

/// What a look into the buffer gave.
#[derive(Debug, Clone, Copy, PartialEq, Eq)]
pub enum Polled {
    /// A request to this device. Look again afterwards.
    Request(Request),
    /// No request, but bytes were passed over or a frame was dropped. Look again.
    Dropped,
    /// Nothing, and nothing was passed over: wait for more bytes.
    Idle,
}

/// What a request leads to.
#[derive(Debug, Clone, Copy, PartialEq, Eq)]
pub enum Action {
    /// Send the reply.
    Reply { response: Response },
    /// Erase the flash sector and program `page`, with interrupts inhibited,
    /// then send the reply. If the flash fails, send nothing and end the loop.
    Store { page: [u8; 4096], response: Response },
    /// Program the outputs as the request asks, then send the reply. If the
    /// hardware fails, send nothing and end the loop.
    SetOutputs { request: OutputSetReq, response: Response },
    /// Read the outputs from the hardware, then send the reply that
    /// `outputs_read` makes of them. If the hardware fails, send nothing and end
    /// the loop.
    GetOutputs,
    /// Send the reply, wait for `delay_us` microseconds, then reset the device.
    Reboot { response: Response, delay_us: u64 },
}

/// The state of the main loop and of the scan of the inputs.
pub struct MainLoop {
    started: u64,
    clock: u64,
    scan_clock: u64,
    address: u16,
    buffer: Vec<u8>,
    last_receive: u64,
    input_loop: InputLoop,
    scanner: Scanner,
}

impl MainLoop {
    /// The time at which the main loop was made.
    pub closed spec fn started(&self) -> u64 {
        self.started
    }

    /// The latest time that the bus side was told of: the time of the last read
    /// or request.
    pub closed spec fn clock(&self) -> u64 {
        self.clock
    }

    /// The latest time that the scan was told of: the time of the last reading
    /// that was taken in.
    pub closed spec fn scan_clock(&self) -> u64 {
        self.scan_clock
    }

    /// The address that the device answers to.
    pub closed spec fn address(&self) -> u16 {
        self.address
    }

    /// The received bytes that are not processed yet.
    pub closed spec fn buffer(&self) -> Seq<u8> {
        self.buffer@
    }

    /// The time at which the last byte was received.
    pub closed spec fn last_receive(&self) -> u64 {
        self.last_receive
    }

    /// The accumulators and threshold detectors of the inputs.
    pub closed spec fn inputs(&self) -> InputLoop {
        self.input_loop
    }

    /// The scan of the inputs.
    pub closed spec fn scanner(&self) -> Scanner {
        self.scanner
    }

    pub open spec fn wf(&self) -> bool {
        &&& self.buffer().len() <= BUFFER_LEN
        &&& self.started() <= self.clock()
        &&& self.last_receive() <= self.clock()
        &&& self.inputs().wf_at(self.scan_clock())
        &&& self.scanner().wf()
    }

    /// All of the main loop's state but the inputs and the clock of the bus side.
    pub open spec fn same_bus(&self, other: &MainLoop) -> bool {
        &&& self.started() == other.started()
        &&& self.scan_clock() == other.scan_clock()
        &&& self.address() == other.address()
        &&& self.buffer() == other.buffer()
        &&& self.last_receive() == other.last_receive()
        &&& self.scanner() == other.scanner()
    }

    /// The main loop of a device with the given address, made at `now`.
    pub fn new(now: u64, address: u16) -> (state: MainLoop)
        ensures
            state.wf(),
            state.started() == now,
            state.clock() == now,
            state.scan_clock() == now,
            state.last_receive() == now,
            state.address() == address,
            state.buffer() == Seq::<u8>::empty(),
            state.scanner() == Scanner::new_spec(),
            forall|i: int|
                0 <= i < 16 ==> #[trigger] state.inputs().inputs()[i]
                    == crate::input::InputData::fresh(0),
            forall|i: int|
                0 <= i < 16 ==> #[trigger] state.inputs().thresholds()[i]
                    == crate::input::ThresholdData::started(now),
    {
        MainLoop {
            started: now,
            clock: now,
            scan_clock: now,
            address,
            buffer: Vec::new(),
            last_receive: now,
            input_loop: InputLoop::new(now),
            scanner: Scanner::new(),
        }
    }

    /// The latest time that the bus side was told of. `received` and `dispatch`
    /// take no earlier time.
    pub fn latest_time(&self) -> (time: u64)
        ensures
            time == self.clock(),
    {
        self.clock
    }

    /// The number of bytes that a read may bring.
    pub fn free_tail(&self) -> (free: usize)
        requires
            self.wf(),
        ensures
            free == BUFFER_LEN - self.buffer().len(),
    {
        BUFFER_LEN - self.buffer.len()
    }

    /// A read failed. What waits in the buffer is given up; after an
    /// unrecoverable error the loop ends with the error that is returned.
    pub fn read_failed<R, W, S, O, I, N>(&mut self, error: ReadError<R>) -> (r: Result<
        (),
        MainLoopError<R, W, S, O, I, N>,
    >)
        requires
            old(self).wf(),
        ensures
            final(self).wf(),
            final(self).buffer() == Seq::<u8>::empty(),
            final(self).started() == old(self).started(),
            final(self).clock() == old(self).clock(),
            final(self).scan_clock() == old(self).scan_clock(),
            final(self).address() == old(self).address(),
            final(self).last_receive() == old(self).last_receive(),
            final(self).inputs() == old(self).inputs(),
            final(self).scanner() == old(self).scanner(),
            match error {
                ReadError::RecoverableError => r is Ok,
                ReadError::UnrecoverableError(cause) => r == Err::<
                    (),
                    MainLoopError<R, W, S, O, I, N>,
                >(MainLoopError::Read(cause)),
            },
    {
        self.buffer.clear();
        match error {
            ReadError::RecoverableError => Ok(()),
            ReadError::UnrecoverableError(cause) => Err(MainLoopError::Read(cause)),
        }
    }

    /// The buffer after a read that brought `data` at `now`: what waited is
    /// given up if the last byte came more than `FRAME_GAP_US` before, and the
    /// new bytes are appended.
    pub open spec fn buffer_after(&self, data: Seq<u8>, now: u64) -> Seq<u8> {
        if now - self.last_receive() > FRAME_GAP_US {
            data
        } else {
            self.buffer() + data
        }
    }

    /// A read brought `data`, which may be empty, at `now`.
    pub fn received(&mut self, data: &[u8], now: u64)
        requires
            old(self).wf(),
            old(self).clock() <= now,
            data@.len() <= BUFFER_LEN - old(self).buffer().len(),
        ensures
            final(self).wf(),
            final(self).buffer() == old(self).buffer_after(data@, now),
            final(self).last_receive() == (if data@.len() > 0 {
                now
            } else {
                old(self).last_receive()
            }),
            final(self).clock() == now,
            final(self).scan_clock() == old(self).scan_clock(),
            final(self).started() == old(self).started(),
            final(self).address() == old(self).address(),
            final(self).inputs() == old(self).inputs(),
            final(self).scanner() == old(self).scanner(),
    {
        if now - self.last_receive > FRAME_GAP_US {
            self.buffer.clear();
        }
        if data.len() > 0 {
            self.last_receive = now;
            self.buffer.extend_from_slice(data);
        }
        self.clock = now;
        assert(self.buffer@ =~= old(self).buffer_after(data@, now));
    }

    /// Looks for the next request to this device in the buffer and drops what
    /// the look is done with: bytes that start no frame, frames with a wrong
    /// checksum, frames to other devices, frames that cannot be read, and the
    /// frame of the request that is returned. A frame that is not all there
    /// yet stays.
    pub fn next_request(&mut self) -> (polled: Polled)
        requires
            old(self).wf(),
        ensures
            final(self).wf(),
            final(self).buffer() == old(self).buffer().subrange(
                hunt(old(self).buffer(), 0).processed,
                old(self).buffer().len() as int,
            ),
            final(self).started() == old(self).started(),
            final(self).clock() == old(self).clock(),
            final(self).scan_clock() == old(self).scan_clock(),
            final(self).address() == old(self).address(),
            final(self).last_receive() == old(self).last_receive(),
            final(self).inputs() == old(self).inputs(),
            final(self).scanner() == old(self).scanner(),
            match polled {
                Polled::Request(request) => {
                    &&& hunt(old(self).buffer(), 0).processed > 0
                    &&& slave_reads(old(self).buffer(), old(self).address(), Some(request))
                },
                Polled::Dropped => {
                    &&& hunt(old(self).buffer(), 0).processed > 0
                    &&& slave_reads(old(self).buffer(), old(self).address(), None)
                },
                Polled::Idle => {
                    &&& hunt(old(self).buffer(), 0).processed == 0
                    &&& slave_reads(old(self).buffer(), old(self).address(), None)
                },
            },
    {
        let (request, processed) = slave_next(self.buffer.as_slice(), self.address);
        proof {
            lemma_hunt_bounds(self.buffer@, 0);
        }
        let rest = self.buffer.split_off(processed);
        self.buffer = rest;
        match request {
            Some(request) => Polled::Request(request),
            None => if processed == 0 {
                Polled::Idle
            } else {
                Polled::Dropped
            },
        }
    }

    /// What the request leads to, and what it changes. `before` and `after` are
    /// the main loop and `stored` and `kept` the stored data before and after.
    pub open spec fn handled(
        before: &MainLoop,
        after: &MainLoop,
        stored: NonvolatileData,
        kept: NonvolatileData,
        request: Request,
        now: u64,
        action: Action,
    ) -> bool {
        let inputs_same = after.inputs() == before.inputs();
        let stored_same = kept == stored;
        match request {
            Request::Check(_) => {
                &&& action == Action::Reply { response: Response::Check(CheckRes) }
                &&& inputs_same
                &&& stored_same
            },
            Request::InfoGet(_) => {
                &&& action matches Action::Reply { response: Response::InfoGet(info) }
                &&& info.info@ == info_text()
                &&& info.firmware_version_major == FIRMWARE_VERSION_MAJOR
                &&& info.firmware_version_minor == FIRMWARE_VERSION_MINOR
                &&& info.firmware_version_patch == FIRMWARE_VERSION_PATCH
                &&& info.uptime == uptime_seconds(before.started(), now)
                &&& inputs_same
                &&& stored_same
            },
            Request::ConfigGet(_) => {
                &&& action matches Action::Reply { response: Response::ConfigGet(config) }
                &&& config.0 == stored.config
                &&& inputs_same
                &&& stored_same
            },
            Request::ConfigSet(set) => {
                &&& action matches Action::Store { page, response }
                &&& response matches Response::ConfigSet(_)
                &&& kept == (NonvolatileData { config: set.0, ..stored })
                &&& page@ == kept.page()
                &&& inputs_same
            },
            Request::OutputSet(set) => {
                &&& action == Action::SetOutputs {
                    request: set,
                    response: Response::OutputSet(OutputSetRes),
                }
                &&& inputs_same
                &&& stored_same
            },
            Request::OutputGet(_) => {
                &&& action == Action::GetOutputs
                &&& inputs_same
                &&& stored_same
            },
            Request::InputGet(_) => {
                &&& action matches Action::Reply { response: Response::InputGet(values) }
                &&& before.inputs().read_out(&after.inputs(), values.values@)
                &&& stored_same
            },
            Request::InputGetFull(_) => {
                &&& action matches Action::Reply { response: Response::InputGetFull(stats) }
                &&& before.inputs().read_out_full(&after.inputs(), stats.stats@)
                &&& stored_same
            },
            Request::InputSetCalibrations(set) => {
                &&& action matches Action::Store { page, response }
                &&& response matches Response::InputSetCalibrations(_)
                &&& kept.config == stored.config
                &&& kept.thresholds == stored.thresholds
                &&& calibrations_are(kept, set.0@)
                &&& page@ == kept.page()
                &&& inputs_same
            },
            Request::InputGetCalibrations(_) => {
                &&& action matches Action::Reply { response: Response::InputGetCalibrations(get) }
                &&& calibrations_are(stored, get.0@)
                &&& inputs_same
                &&& stored_same
            },
            Request::InputSetThresholds(set) => {
                &&& action matches Action::Store { page, response }
                &&& response matches Response::InputSetThresholds(_)
                &&& kept.config == stored.config
                &&& kept.calibrations == stored.calibrations
                &&& thresholds_are(kept, set.0@)
                &&& page@ == kept.page()
                &&& inputs_same
            },
            Request::InputGetThresholds(_) => {
                &&& action matches Action::Reply { response: Response::InputGetThresholds(get) }
                &&& thresholds_are(stored, get.0@)
                &&& inputs_same
                &&& stored_same
            },
            Request::InputGetThresholdTimes(_) => {
                &&& action matches Action::Reply {
                    response: Response::InputGetThresholdTimes(times),
                }
                &&& before.inputs().times_read(now, times)
                &&& inputs_same
                &&& stored_same
            },
            Request::InputGetThresholdStates(_) => {
                &&& action matches Action::Reply {
                    response: Response::InputGetThresholdStates(states),
                }
                &&& before.inputs().states_read(states)
                &&& inputs_same
                &&& stored_same
            },
            Request::Reboot(_) => {
                &&& action == Action::Reboot {
                    response: Response::Reboot(RebootRes),
                    delay_us: REBOOT_DELAY_US,
                }
                &&& inputs_same
                &&& stored_same
            },
        }
    }

    /// Handles a request at `now`: names what is to be done and the reply to
    /// send, which carries the command of the request. Requests that store
    /// data change the cache `nvm` at once.
    pub fn dispatch(&mut self, request: &Request, now: u64, nvm: &mut Nvm) -> (action: Action)
        requires
            old(self).wf(),
            old(self).clock() <= now,
        ensures
            final(self).wf(),
            final(self).clock() == now,
            final(self).same_bus(old(self)),
            MainLoop::handled(
                old(self),
                final(self),
                old(nvm)@,
                final(nvm)@,
                *request,
                now,
                action,
            ),
            action matches Action::Reply { response } ==> response.command_of()
                == request.command_of(),
            action matches Action::Store { response, .. } ==> response.command_of()
                == request.command_of(),
            action matches Action::SetOutputs { response, .. } ==> response.command_of()
                == request.command_of(),
            action is GetOutputs ==> request.command_of() == Command::OutputGet,
            action matches Action::Reboot { response, .. } ==> response.command_of()
                == request.command_of(),
    {
        self.clock = now;
        match request {
            Request::Check(_) => Action::Reply { response: Response::Check(CheckRes) },
            Request::InfoGet(_) => Action::Reply {
                response: Response::InfoGet(
                    InfoGetRes {
                        info: info_bytes(),
                        firmware_version_major: FIRMWARE_VERSION_MAJOR,
                        firmware_version_minor: FIRMWARE_VERSION_MINOR,
                        firmware_version_patch: FIRMWARE_VERSION_PATCH,
                        uptime: uptime(self.started, now),
                    },
                ),
            },
            Request::ConfigGet(_) => Action::Reply {
                response: Response::ConfigGet(nvm.handle_config_get()),
            },
            Request::ConfigSet(set) => {
                let (response, page) = nvm.handle_config_set(set);
                Action::Store { page, response: Response::ConfigSet(response) }
            },
            Request::OutputSet(set) => Action::SetOutputs {
                request: *set,
                response: Response::OutputSet(OutputSetRes),
            },
            Request::OutputGet(_) => Action::GetOutputs,
            Request::InputGet(_) => Action::Reply {
                response: Response::InputGet(self.input_loop.handle_input_get()),
            },
            Request::InputGetFull(_) => Action::Reply {
                response: Response::InputGetFull(self.input_loop.handle_input_get_full()),
            },
            Request::InputSetCalibrations(set) => {
                let (response, page) = nvm.handle_set_calibrations(set);
                Action::Store { page, response: Response::InputSetCalibrations(response) }
            },
            Request::InputGetCalibrations(_) => Action::Reply {
                response: Response::InputGetCalibrations(nvm.handle_get_calibrations()),
            },
            Request::InputSetThresholds(set) => {
                let (response, page) = nvm.handle_set_thresholds(set);
                Action::Store { page, response: Response::InputSetThresholds(response) }
            },
            Request::InputGetThresholds(_) => Action::Reply {
                response: Response::InputGetThresholds(nvm.handle_get_thresholds()),
            },
            Request::InputGetThresholdTimes(_) => Action::Reply {
                response: Response::InputGetThresholdTimes(
                    self.input_loop.handle_threshold_times(now),
                ),
            },
            Request::InputGetThresholdStates(_) => Action::Reply {
                response: Response::InputGetThresholdStates(
                    self.input_loop.handle_threshold_states(),
                ),
            },
            Request::Reboot(_) => Action::Reboot {
                response: Response::Reboot(RebootRes),
                delay_us: REBOOT_DELAY_US,
            },
        }
    }

    /// The reply to a request to read the outputs: the frequency and the two
    /// duty values of each group as the hardware holds them.
    pub fn outputs_read(hardware: &[OutputGroup; 8]) -> (response: Response)
        ensures
            response == Response::OutputGet(OutputGetRes(*hardware)),
            response.command_of() == Command::OutputGet,
    {
        Response::OutputGet(handle_output_get(hardware))
    }

    /// The frame of a reply: it carries the address of this device.
    pub fn reply_frame(&self, response: &Response) -> (frame: Vec<u8>)
        ensures
            frame@ == crate::frame::frame_wire(
                self.address(),
                response.command_of().code(),
                response.payload(),
            ),
    {
        response.frame(self.address)
    }

    /// What the scan of the inputs asks for next.
    pub fn scan_action(&self) -> (action: ScanAction)
        requires
            self.wf(),
        ensures
            action == self.scanner().wanted(),
    {
        self.scanner.action()
    }

    /// Whether `event` can be handed to the scan: it can come of the action that
    /// the scan asks for, and the reading that is taken in with it, if one is,
    /// has a calibration that divides by something and a time that is not
    /// before that of the reading taken in before it. The times that the bus
    /// side was told of do not matter.
    pub fn scan_accepts(&self, event: &ScanEvent, data: &NonvolatileData) -> (yes: bool)
        requires
            self.wf(),
        ensures
            yes == (self.scanner().expects(*event) && self.scanner().ready(
                *event,
                *data,
                self.scan_clock(),
            )),
    {
        if !self.scanner.accepts(event) {
            return false;
        }
        match (self.scanner.phase, event) {
            (crate::scan::ScanPhase::Start1 { raw, now }, ScanEvent::Done) => {
                data.calibrations[self.scanner.position].divide != 0 && self.scan_clock <= now
            },
            (crate::scan::ScanPhase::Select { raw, now }, ScanEvent::Done) => {
                data.calibrations[self.scanner.position + 8].divide != 0 && self.scan_clock
                    <= now
            },
            _ => true,
        }
    }

    /// Hands the scan what came of its last action. The readings are taken in
    /// with the calibrations and thresholds of `data`.
    pub fn scan_event(&mut self, event: ScanEvent, data: &NonvolatileData)
        requires
            old(self).wf(),
            old(self).scanner().expects(event),
            old(self).scanner().ready(event, *data, old(self).scan_clock()),
        ensures
            final(self).wf(),
            final(self).scanner() == old(self).scanner().after(event),
            final(self).started() == old(self).started(),
            final(self).clock() == old(self).clock(),
            final(self).address() == old(self).address(),
            final(self).buffer() == old(self).buffer(),
            final(self).last_receive() == old(self).last_receive(),
            match old(self).scanner().taken_in(event) {
                Some((input, raw, now)) => {
                    let value = data.calibrations@[input].applied(raw) as i16;
                    &&& final(self).scan_clock() == now
                    &&& final(self).inputs().inputs() == old(self).inputs().inputs().update(
                        input,
                        old(self).inputs().inputs()[input].folded(value),
                    )
                    &&& final(self).inputs().thresholds() == old(self).inputs().thresholds().update(
                        input,
                        old(self).inputs().thresholds()[input].stepped(
                            value,
                            now,
                            data.thresholds@[input],
                        ),
                    )
                },
                None => {
                    &&& final(self).scan_clock() == old(self).scan_clock()
                    &&& final(self).inputs().inputs() == old(self).inputs().inputs()
                    &&& final(self).inputs().thresholds() == old(self).inputs().thresholds()
                },
            },
    {
        let seen = self.scanner.advance(event, &mut self.input_loop, data, self.scan_clock);
        match seen {
            Some(now) => {
                self.scan_clock = now;
            },
            None => {},
        }
    }
}

} // verus!
