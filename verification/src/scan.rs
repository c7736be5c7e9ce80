//! The scan of the sixteen inputs. An eight-way multiplexer on each half of the
//! board routes one pin to each of the two converters; the scan walks the eight
//! multiplexer positions and reads, at position `i`, input `i` on the left half
//! and input `i + 8` on the right half.
//!
//! The scan is a state machine. It names the next thing to do on the hardware;
//! the caller does it, waiting where the hardware would block, and hands back
//! what came of it. At one position the scan asks, in this order, to:
//!
//! 1. start the left converter,
//! 2. yield once,
//! 3. read the left result, and after a failed conversion start the left
//!    converter again and read again,
//! 4. start the right converter, before the left reading is taken in,
//! 5. read the right result, with the same recovery,
//! 6. set the three select lines to the next position, before the right
//!    reading is taken in,
//! 7. wait until three microseconds after the right reading.
use crate::input::InputLoop;
use crate::nvm::NonvolatileData;
use vstd::prelude::*;

verus! {

/// Microseconds that the multiplexer is given to settle.
pub const SETTLE_US: u64 = 3;

/// The position that the scan goes to after `position`. The positions follow
/// each other as 0, 1, 3, 2, 6, 7, 5, 4 and 0 again, so that one select line
/// changes at a time.
pub open spec fn next_position(position: int) -> int {
    if position == 0 {
        1
    } else if position == 1 {
        3
    } else if position == 2 {
        6
    } else if position == 3 {
        2
    } else if position == 4 {
        0
    } else if position == 5 {
        4
    } else if position == 6 {
        7
    } else {
        5
    }
}

/// The position `steps` steps after `position`.
pub open spec fn position_after(position: int, steps: nat) -> int
    decreases steps,
{
    if steps == 0 {
        position
    } else {
        next_position(position_after(position, (steps - 1) as nat))
    }
}

/// The state of select line `line` (0, 1 or 2) at `position`.
pub open spec fn select_line(position: int, line: int) -> bool {
    if line == 0 {
        position % 2 == 1
    } else if line == 1 {
        (position / 2) % 2 == 1
    } else {
        (position / 4) % 2 == 1
    }
}

/// The number of select lines whose state differs between two positions.
pub open spec fn lines_changed(from: int, to: int) -> int {
    (if select_line(from, 0) != select_line(to, 0) {
        1int
    } else {
        0int
    }) + (if select_line(from, 1) != select_line(to, 1) {
        1int
    } else {
        0int
    }) + (if select_line(from, 2) != select_line(to, 2) {
        1int
    } else {
        0int
    })
}

/// From one position to the next exactly one select line changes.
pub proof fn lemma_one_line_changes(position: int)
    requires
        0 <= position < 8,
    ensures
        0 <= next_position(position) < 8,
        lines_changed(position, next_position(position)) == 1,
{
}

/// The scan comes by every position: each of the eight positions is reached
/// from position 0 within eight steps, and the eighth step leads back to it.
pub proof fn lemma_scan_visits_all(position: int)
    requires
        0 <= position < 8,
    ensures
        exists|steps: nat| steps < 8 && #[trigger] position_after(0, steps) == position,
        position_after(position, 8) == position,
{
    reveal_with_fuel(position_after, 9);
    let steps: nat = if position == 0 {
        0
    } else if position == 1 {
        1
    } else if position == 3 {
        2
    } else if position == 2 {
        3
    } else if position == 6 {
        4
    } else if position == 7 {
        5
    } else if position == 5 {
        6
    } else {
        7
    };
    assert(position_after(0, steps) == position);
}

/// What the scan waits for.
#[derive(Debug, Clone, Copy, PartialEq, Eq)]
pub enum ScanPhase {
    /// For the left converter to be started.
    Start0,
    /// For the yield.
    Yield,
    /// For the left result.
    Read0,
    /// For the left converter to be started again after a failed conversion.
    Restart0,
    /// For the right converter to be started; holds the left reading.
    Start1 { raw: u16, now: u64 },
    /// For the right result.
    Read1,
    /// For the right converter to be started again after a failed conversion.
    Restart1,
    /// For the select lines to be set; holds the right reading.
    Select { raw: u16, now: u64 },
    /// For the multiplexer to settle.
    Settle { until: u64 },
    /// For nothing: the hardware failed and the scan has ended.
    Failed,
}

/// What the caller is to do next.
#[derive(Debug, Clone, Copy, PartialEq, Eq)]
pub enum ScanAction {
    /// Start a conversion of the selected input on the left half.
    StartRead0,
    /// Start a conversion of the selected input on the right half.
    StartRead1,
    /// Let the other task run once.
    Yield,
    /// Read the result of the last conversion, and the time right after it.
    ReadLast,
    /// Set the three select lines.
    Select { select0: bool, select1: bool, select2: bool },
    /// Wait until the given time, in microseconds since boot.
    WaitUntil { until: u64 },
    /// Stop: the hardware failed.
    Abort,
}

/// What came of the last action.
#[derive(Debug, Clone, Copy, PartialEq, Eq)]
pub enum ScanEvent {
    /// The action is done.
    Done,
    /// The conversion gave `raw`; `now` is the time right after it.
    Sample { raw: u16, now: u64 },
    /// The conversion failed, but it can be started again.
    RecoverableFailure,
    /// The hardware failed.
    Failure,
}

/// The scan of the inputs.
#[derive(Debug, Clone, Copy, PartialEq, Eq)]
pub struct Scanner {
    /// The selected multiplexer position, below 8.
    pub position: usize,
    pub phase: ScanPhase,
}

impl Scanner {
    pub open spec fn wf(&self) -> bool {
        self.position < 8
    }

    /// What the scan asks for in its state.
    pub open spec fn wanted(&self) -> ScanAction {
        match self.phase {
            ScanPhase::Start0 | ScanPhase::Restart0 => ScanAction::StartRead0,
            ScanPhase::Yield => ScanAction::Yield,
            ScanPhase::Read0 | ScanPhase::Read1 => ScanAction::ReadLast,
            ScanPhase::Start1 { .. } | ScanPhase::Restart1 => ScanAction::StartRead1,
            ScanPhase::Select { .. } => {
                let next = next_position(self.position as int);
                ScanAction::Select {
                    select0: select_line(next, 0),
                    select1: select_line(next, 1),
                    select2: select_line(next, 2),
                }
            },
            ScanPhase::Settle { until } => ScanAction::WaitUntil { until },
            ScanPhase::Failed => ScanAction::Abort,
        }
    }

    /// Whether `event` can come of the action that the scan asks for.
    pub open spec fn expects(&self, event: ScanEvent) -> bool {
        match self.phase {
            ScanPhase::Read0 | ScanPhase::Read1 => !(event is Done),
            ScanPhase::Failed => false,
            _ => event is Done || event is Failure,
        }
    }

    /// The input that is taken in when `event` arrives, if one is: its number,
    /// its raw reading and the time of the reading.
    pub open spec fn taken_in(&self, event: ScanEvent) -> Option<(int, u16, u64)> {
        match (self.phase, event) {
            (ScanPhase::Start1 { raw, now }, ScanEvent::Done) => Some(
                (self.position as int, raw, now),
            ),
            (ScanPhase::Select { raw, now }, ScanEvent::Done) => Some(
                (self.position + 8, raw, now),
            ),
            _ => None,
        }
    }

    /// The state of the scan after `event`.
    pub open spec fn after(&self, event: ScanEvent) -> Scanner {
        if event is Failure {
            Scanner { position: self.position, phase: ScanPhase::Failed }
        } else {
            match self.phase {
                ScanPhase::Start0 => Scanner { position: self.position, phase: ScanPhase::Yield },
                ScanPhase::Yield => Scanner { position: self.position, phase: ScanPhase::Read0 },
                ScanPhase::Read0 => match event {
                    ScanEvent::Sample { raw, now } => Scanner {
                        position: self.position,
                        phase: ScanPhase::Start1 { raw, now },
                    },
                    _ => Scanner { position: self.position, phase: ScanPhase::Restart0 },
                },
                ScanPhase::Restart0 => Scanner { position: self.position, phase: ScanPhase::Read0 },
                ScanPhase::Start1 { .. } => Scanner {
                    position: self.position,
                    phase: ScanPhase::Read1,
                },
                ScanPhase::Read1 => match event {
                    ScanEvent::Sample { raw, now } => Scanner {
                        position: self.position,
                        phase: ScanPhase::Select { raw, now },
                    },
                    _ => Scanner { position: self.position, phase: ScanPhase::Restart1 },
                },
                ScanPhase::Restart1 => Scanner { position: self.position, phase: ScanPhase::Read1 },
                ScanPhase::Select { raw, now } => Scanner {
                    position: next_position(self.position as int) as usize,
                    phase: ScanPhase::Settle { until: settle_deadline(now) },
                },
                ScanPhase::Settle { .. } => Scanner {
                    position: self.position,
                    phase: ScanPhase::Start0,
                },
                ScanPhase::Failed => *self,
            }
        }
    }

    /// The scan at its start: at position 0, about to start the left converter.
    pub open spec fn new_spec() -> Scanner {
        Scanner { position: 0, phase: ScanPhase::Start0 }
    }

    /// The scan at its start.
    pub fn new() -> (scanner: Scanner)
        ensures
            scanner == Scanner::new_spec(),
            scanner.wf(),
    {
        Scanner { position: 0, phase: ScanPhase::Start0 }
    }

    /// What to do next.
    pub fn action(&self) -> (action: ScanAction)
        requires
            self.wf(),
        ensures
            action == self.wanted(),
    {
        match self.phase {
            ScanPhase::Start0 | ScanPhase::Restart0 => ScanAction::StartRead0,
            ScanPhase::Yield => ScanAction::Yield,
            ScanPhase::Read0 | ScanPhase::Read1 => ScanAction::ReadLast,
            ScanPhase::Start1 { .. } | ScanPhase::Restart1 => ScanAction::StartRead1,
            ScanPhase::Select { .. } => {
                let next = next_of(self.position);
                ScanAction::Select {
                    select0: next % 2 == 1,
                    select1: (next / 2) % 2 == 1,
                    select2: (next / 4) % 2 == 1,
                }
            },
            ScanPhase::Settle { until } => ScanAction::WaitUntil { until },
            ScanPhase::Failed => ScanAction::Abort,
        }
    }

    /// Whether `event` can come of the action that the scan asks for.
    pub fn accepts(&self, event: &ScanEvent) -> (yes: bool)
        ensures
            yes == self.expects(*event),
    {
        match self.phase {
            ScanPhase::Read0 | ScanPhase::Read1 => match event {
                ScanEvent::Done => false,
                _ => true,
            },
            ScanPhase::Failed => false,
            _ => match event {
                ScanEvent::Done | ScanEvent::Failure => true,
                _ => false,
            },
        }
    }

    /// Whether the reading that the scan holds can be taken in with `data`: its
    /// calibration divides by something, and the time of the reading is not
    /// before `clock`, the time until which the detectors of `inputs` have seen
    /// readings.
    pub open spec fn ready(&self, event: ScanEvent, data: NonvolatileData, clock: u64) -> bool {
        self.taken_in(event) matches Some((input, raw, now)) ==> {
            &&& data.calibrations@[input].divide != 0
            &&& clock <= now
        }
    }

    /// Goes on with what came of the last action. Where the event completes the
    /// start of the right converter, the left reading is taken in; where it
    /// completes the setting of the select lines, the right reading is. A
    /// reading is calibrated with the calibration of its input, folded into the
    /// accumulator of the input and handed to its threshold detector with the
    /// threshold of the input. Returns the time of the reading that was taken
    /// in, if one was.
    pub fn advance(
        &mut self,
        event: ScanEvent,
        inputs: &mut InputLoop,
        data: &NonvolatileData,
        clock: u64,
    ) -> (seen: Option<u64>)
        requires
            old(self).wf(),
            old(self).expects(event),
            old(self).ready(event, *data, clock),
            old(inputs).wf_at(clock),
        ensures
            *final(self) == old(self).after(event),
            final(self).wf(),
            match old(self).taken_in(event) {
                Some((input, raw, now)) => {
                    let value = data.calibrations@[input].applied(raw) as i16;
                    &&& seen == Some(now)
                    &&& final(inputs).wf_at(now)
                    &&& final(inputs).inputs() == old(inputs).inputs().update(
                        input,
                        old(inputs).inputs()[input].folded(value),
                    )
                    &&& final(inputs).thresholds() == old(inputs).thresholds().update(
                        input,
                        old(inputs).thresholds()[input].stepped(
                            value,
                            now,
                            data.thresholds@[input],
                        ),
                    )
                },
                None => {
                    &&& seen is None
                    &&& final(inputs).wf_at(clock)
                    &&& final(inputs).inputs() == old(inputs).inputs()
                    &&& final(inputs).thresholds() == old(inputs).thresholds()
                },
            },
    {
        if let ScanEvent::Failure = event {
            self.phase = ScanPhase::Failed;
            return None;
        }
        match self.phase {
            ScanPhase::Start0 => {
                self.phase = ScanPhase::Yield;
                None
            },
            ScanPhase::Yield => {
                self.phase = ScanPhase::Read0;
                None
            },
            ScanPhase::Read0 => {
                match event {
                    ScanEvent::Sample { raw, now } => {
                        self.phase = ScanPhase::Start1 { raw, now };
                    },
                    _ => {
                        self.phase = ScanPhase::Restart0;
                    },
                }
                None
            },
            ScanPhase::Restart0 => {
                self.phase = ScanPhase::Read0;
                None
            },
            ScanPhase::Start1 { raw, now } => {
                let input = self.position;
                proof {
                    inputs.lemma_time_passes(clock, now);
                }
                inputs.sample(input, raw, now, &data.calibrations[input], &data.thresholds[input]);
                self.phase = ScanPhase::Read1;
                Some(now)
            },
            ScanPhase::Read1 => {
                match event {
                    ScanEvent::Sample { raw, now } => {
                        self.phase = ScanPhase::Select { raw, now };
                    },
                    _ => {
                        self.phase = ScanPhase::Restart1;
                    },
                }
                None
            },
            ScanPhase::Restart1 => {
                self.phase = ScanPhase::Read1;
                None
            },
            ScanPhase::Select { raw, now } => {
                let input = self.position + 8;
                proof {
                    inputs.lemma_time_passes(clock, now);
                }
                inputs.sample(input, raw, now, &data.calibrations[input], &data.thresholds[input]);
                self.position = next_of(self.position);
                self.phase = ScanPhase::Settle { until: deadline(now) };
                Some(now)
            },
            ScanPhase::Settle { .. } => {
                self.phase = ScanPhase::Start0;
                None
            },
            ScanPhase::Failed => None,
        }
    }
}

/// The time until which the multiplexer settles after a reading at `now`. The
/// clock is a 64-bit counter: the time is taken modulo 2^64.
pub open spec fn settle_deadline(now: u64) -> u64 {
    if now + SETTLE_US <= u64::MAX {
        (now + SETTLE_US) as u64
    } else {
        (now + SETTLE_US - 0x1_0000_0000_0000_0000) as u64
    }
}

fn deadline(now: u64) -> (until: u64)
    ensures
        until == settle_deadline(now),
{
    if now <= u64::MAX - SETTLE_US {
        now + SETTLE_US
    } else {
        now - (u64::MAX - SETTLE_US) - 1
    }
}

fn next_of(position: usize) -> (next: usize)
    requires
        position < 8,
    ensures
        next == next_position(position as int),
        next < 8,
{
    if position == 0 {
        1
    } else if position == 1 {
        3
    } else if position == 2 {
        6
    } else if position == 3 {
        2
    } else if position == 4 {
        0
    } else if position == 5 {
        4
    } else if position == 6 {
        7
    } else {
        5
    }
}

/// Whether the time `until` is reached at `now`.
pub fn reached(now: u64, until: u64) -> (yes: bool)
    ensures
        yes == (now >= until),
{
    now >= until
}

} // verus!
