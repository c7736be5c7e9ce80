//! Requests and responses as values, and the decoders of the two ends of the
//! bus: the slave reads requests that carry its address, the master reads
//! responses from any address.
use crate::bytes::{decode_exact, Wire};
use crate::command::Command;
use crate::frame::{
    frame_address, frame_command, frame_payload, frame_wire, hunt, lemma_frame_round_trip,
    next_message, Message, Payload,
};
use crate::payload::{
    CheckReq, CheckRes, ConfigGetReq, ConfigGetRes, ConfigSetReq, ConfigSetRes, InfoGetReq,
    InfoGetRes, InputGetCalibrationsReq, InputGetCalibrationsRes, InputGetFullReq,
    InputGetFullRes, InputGetReq, InputGetRes, InputGetThresholdStatesReq,
    InputGetThresholdStatesRes, InputGetThresholdTimesReq, InputGetThresholdTimesRes,
    InputGetThresholdsReq, InputGetThresholdsRes, InputSetCalibrationsReq,
    InputSetCalibrationsRes, InputSetThresholdsReq, InputSetThresholdsRes, OutputGetReq,
    OutputGetRes, OutputSetReq, OutputSetRes, RebootReq, RebootRes,
};
use vstd::prelude::*;

verus! {

/// A request, as the slave reads it.
#[derive(Debug, Clone, Copy, PartialEq, Eq)]
pub enum Request {
    Check(CheckReq),
    InfoGet(InfoGetReq),
    ConfigGet(ConfigGetReq),
    ConfigSet(ConfigSetReq),
    OutputSet(OutputSetReq),
    OutputGet(OutputGetReq),
    InputGet(InputGetReq),
    InputGetFull(InputGetFullReq),
    InputSetCalibrations(InputSetCalibrationsReq),
    InputGetCalibrations(InputGetCalibrationsReq),
    InputSetThresholds(InputSetThresholdsReq),
    InputGetThresholds(InputGetThresholdsReq),
    InputGetThresholdTimes(InputGetThresholdTimesReq),
    InputGetThresholdStates(InputGetThresholdStatesReq),
    Reboot(RebootReq),
}

impl Request {
    /// The command that the message belongs to.
    pub open spec fn command_of(&self) -> Command {
        match self {
            Request::Check(_) => Command::Check,
            Request::InfoGet(_) => Command::InfoGet,
            Request::ConfigGet(_) => Command::ConfigGet,
            Request::ConfigSet(_) => Command::ConfigSet,
            Request::OutputSet(_) => Command::OutputSet,
            Request::OutputGet(_) => Command::OutputGet,
            Request::InputGet(_) => Command::InputGet,
            Request::InputGetFull(_) => Command::InputGetFull,
            Request::InputSetCalibrations(_) => Command::InputSetCalibrations,
            Request::InputGetCalibrations(_) => Command::InputGetCalibrations,
            Request::InputSetThresholds(_) => Command::InputSetThresholds,
            Request::InputGetThresholds(_) => Command::InputGetThresholds,
            Request::InputGetThresholdTimes(_) => Command::InputGetThresholdTimes,
            Request::InputGetThresholdStates(_) => Command::InputGetThresholdStates,
            Request::Reboot(_) => Command::Reboot,
        }
    }

    pub fn command(&self) -> (command: Command)
        ensures
            command == self.command_of(),
    {
        match self {
            Request::Check(_) => Command::Check,
            Request::InfoGet(_) => Command::InfoGet,
            Request::ConfigGet(_) => Command::ConfigGet,
            Request::ConfigSet(_) => Command::ConfigSet,
            Request::OutputSet(_) => Command::OutputSet,
            Request::OutputGet(_) => Command::OutputGet,
            Request::InputGet(_) => Command::InputGet,
            Request::InputGetFull(_) => Command::InputGetFull,
            Request::InputSetCalibrations(_) => Command::InputSetCalibrations,
            Request::InputGetCalibrations(_) => Command::InputGetCalibrations,
            Request::InputSetThresholds(_) => Command::InputSetThresholds,
            Request::InputGetThresholds(_) => Command::InputGetThresholds,
            Request::InputGetThresholdTimes(_) => Command::InputGetThresholdTimes,
            Request::InputGetThresholdStates(_) => Command::InputGetThresholdStates,
            Request::Reboot(_) => Command::Reboot,
        }
    }

    /// The payload that the message goes out with.
    pub open spec fn payload(&self) -> Seq<u8> {
        match self {
            Request::Check(m) => m.wire(),
            Request::InfoGet(m) => m.wire(),
            Request::ConfigGet(m) => m.wire(),
            Request::ConfigSet(m) => m.wire(),
            Request::OutputSet(m) => m.wire(),
            Request::OutputGet(m) => m.wire(),
            Request::InputGet(m) => m.wire(),
            Request::InputGetFull(m) => m.wire(),
            Request::InputSetCalibrations(m) => m.wire(),
            Request::InputGetCalibrations(m) => m.wire(),
            Request::InputSetThresholds(m) => m.wire(),
            Request::InputGetThresholds(m) => m.wire(),
            Request::InputGetThresholdTimes(m) => m.wire(),
            Request::InputGetThresholdStates(m) => m.wire(),
            Request::Reboot(m) => m.wire(),
        }
    }

    /// The length that the payload of a frame with this command must have to be
    /// read: that of the message, zero for a message without fields.
    pub open spec fn payload_len(command: Command) -> nat {
        match command {
            Command::ConfigSet => 8,
            Command::OutputSet => 48,
            Command::InputSetCalibrations => 160,
            Command::InputSetThresholds => 160,
            _ => 0,
        }
    }

    /// Whether a frame with this command id and a payload of this length is read.
    pub open spec fn accepted(code: u16, len: nat) -> bool {
        match Command::of_code(code) {
            None => false,
            Some(command) => len == Request::payload_len(command),
        }
    }

    /// Whether this is the message that a frame with this command id and this
    /// payload stands for: the command is that of the message, and the payload
    /// is its encoding, which is empty for a message without fields.
    pub open spec fn stands_for(&self, code: u16, payload: Seq<u8>) -> bool {
        &&& Command::of_code(code) == Some(self.command_of())
        &&& self.payload() == payload
    }

    /// Reads the message that a frame with this command id and payload stands
    /// for. There is none where the command is unknown or the payload has not
    /// the length of the message.
    pub fn decode(code: u16, payload: &[u8]) -> (r: Option<Request>)
        ensures
            r is Some <==> Request::accepted(code, payload@.len()),
            r matches Some(message) ==> message.stands_for(code, payload@),
    {
        match Command::try_from_u16(code) {
            None => None,
            Some(Command::Check) => {
                let read = decode_exact::<CheckReq>(payload);
                match read {
                    Some(m) => Some(Request::Check(m)),
                    None => None,
                }
            },
            Some(Command::InfoGet) => {
                let read = decode_exact::<InfoGetReq>(payload);
                match read {
                    Some(m) => Some(Request::InfoGet(m)),
                    None => None,
                }
            },
            Some(Command::ConfigGet) => {
                let read = decode_exact::<ConfigGetReq>(payload);
                match read {
                    Some(m) => Some(Request::ConfigGet(m)),
                    None => None,
                }
            },
            Some(Command::ConfigSet) => {
                let read = decode_exact::<ConfigSetReq>(payload);
                match read {
                    Some(m) => Some(Request::ConfigSet(m)),
                    None => None,
                }
            },
            Some(Command::OutputSet) => {
                let read = decode_exact::<OutputSetReq>(payload);
                match read {
                    Some(m) => Some(Request::OutputSet(m)),
                    None => None,
                }
            },
            Some(Command::OutputGet) => {
                let read = decode_exact::<OutputGetReq>(payload);
                match read {
                    Some(m) => Some(Request::OutputGet(m)),
                    None => None,
                }
            },
            Some(Command::InputGet) => {
                let read = decode_exact::<InputGetReq>(payload);
                match read {
                    Some(m) => Some(Request::InputGet(m)),
                    None => None,
                }
            },
            Some(Command::InputGetFull) => {
                let read = decode_exact::<InputGetFullReq>(payload);
                match read {
                    Some(m) => Some(Request::InputGetFull(m)),
                    None => None,
                }
            },
            Some(Command::InputSetCalibrations) => {
                let read = decode_exact::<InputSetCalibrationsReq>(payload);
                match read {
                    Some(m) => Some(Request::InputSetCalibrations(m)),
                    None => None,
                }
            },
            Some(Command::InputGetCalibrations) => {
                let read = decode_exact::<InputGetCalibrationsReq>(payload);
                match read {
                    Some(m) => Some(Request::InputGetCalibrations(m)),
                    None => None,
                }
            },
            Some(Command::InputSetThresholds) => {
                let read = decode_exact::<InputSetThresholdsReq>(payload);
                match read {
                    Some(m) => Some(Request::InputSetThresholds(m)),
                    None => None,
                }
            },
            Some(Command::InputGetThresholds) => {
                let read = decode_exact::<InputGetThresholdsReq>(payload);
                match read {
                    Some(m) => Some(Request::InputGetThresholds(m)),
                    None => None,
                }
            },
            Some(Command::InputGetThresholdTimes) => {
                let read = decode_exact::<InputGetThresholdTimesReq>(payload);
                match read {
                    Some(m) => Some(Request::InputGetThresholdTimes(m)),
                    None => None,
                }
            },
            Some(Command::InputGetThresholdStates) => {
                let read = decode_exact::<InputGetThresholdStatesReq>(payload);
                match read {
                    Some(m) => Some(Request::InputGetThresholdStates(m)),
                    None => None,
                }
            },
            Some(Command::Reboot) => {
                let read = decode_exact::<RebootReq>(payload);
                match read {
                    Some(m) => Some(Request::Reboot(m)),
                    None => None,
                }
            },
        }
    }

    /// The frame that carries the message to or from the given address.
    pub fn frame(&self, address: u16) -> (bytes: Vec<u8>)
        ensures
            bytes@ == frame_wire(address, self.command_of().code(), self.payload()),
    {
        match self {
            Request::Check(m) => Message::new_request(address, Command::Check, *m).as_bytes(),
            Request::InfoGet(m) => Message::new_request(address, Command::InfoGet, *m).as_bytes(),
            Request::ConfigGet(m) => {
                Message::new_request(address, Command::ConfigGet, *m).as_bytes()
            },
            Request::ConfigSet(m) => {
                Message::new_request(address, Command::ConfigSet, *m).as_bytes()
            },
            Request::OutputSet(m) => {
                Message::new_request(address, Command::OutputSet, *m).as_bytes()
            },
            Request::OutputGet(m) => {
                Message::new_request(address, Command::OutputGet, *m).as_bytes()
            },
            Request::InputGet(m) => {
                Message::new_request(address, Command::InputGet, *m).as_bytes()
            },
            Request::InputGetFull(m) => {
                Message::new_request(address, Command::InputGetFull, *m).as_bytes()
            },
            Request::InputSetCalibrations(m) => {
                Message::new_request(address, Command::InputSetCalibrations, *m).as_bytes()
            },
            Request::InputGetCalibrations(m) => {
                Message::new_request(address, Command::InputGetCalibrations, *m).as_bytes()
            },
            Request::InputSetThresholds(m) => {
                Message::new_request(address, Command::InputSetThresholds, *m).as_bytes()
            },
            Request::InputGetThresholds(m) => {
                Message::new_request(address, Command::InputGetThresholds, *m).as_bytes()
            },
            Request::InputGetThresholdTimes(m) => {
                Message::new_request(address, Command::InputGetThresholdTimes, *m).as_bytes()
            },
            Request::InputGetThresholdStates(m) => {
                Message::new_request(address, Command::InputGetThresholdStates, *m).as_bytes()
            },
            Request::Reboot(m) => Message::new_request(address, Command::Reboot, *m).as_bytes(),
        }
    }

    /// A frame stands for at most one message.
    pub proof fn lemma_stands_for_unique(self, other: Self, code: u16, payload: Seq<u8>)
        requires
            self.stands_for(code, payload),
            other.stands_for(code, payload),
        ensures
            self == other,
    {
        match (self, other) {
            (Request::Check(a), Request::Check(b)) => {
                a.lemma_wire_injective(&b);
            },
            (Request::InfoGet(a), Request::InfoGet(b)) => {
                a.lemma_wire_injective(&b);
            },
            (Request::ConfigGet(a), Request::ConfigGet(b)) => {
                a.lemma_wire_injective(&b);
            },
            (Request::ConfigSet(a), Request::ConfigSet(b)) => {
                a.lemma_wire_injective(&b);
            },
            (Request::OutputSet(a), Request::OutputSet(b)) => {
                a.lemma_wire_injective(&b);
            },
            (Request::OutputGet(a), Request::OutputGet(b)) => {
                a.lemma_wire_injective(&b);
            },
            (Request::InputGet(a), Request::InputGet(b)) => {
                a.lemma_wire_injective(&b);
            },
            (Request::InputGetFull(a), Request::InputGetFull(b)) => {
                a.lemma_wire_injective(&b);
            },
            (Request::InputSetCalibrations(a), Request::InputSetCalibrations(b)) => {
                a.lemma_wire_injective(&b);
            },
            (Request::InputGetCalibrations(a), Request::InputGetCalibrations(b)) => {
                a.lemma_wire_injective(&b);
            },
            (Request::InputSetThresholds(a), Request::InputSetThresholds(b)) => {
                a.lemma_wire_injective(&b);
            },
            (Request::InputGetThresholds(a), Request::InputGetThresholds(b)) => {
                a.lemma_wire_injective(&b);
            },
            (Request::InputGetThresholdTimes(a), Request::InputGetThresholdTimes(b)) => {
                a.lemma_wire_injective(&b);
            },
            (Request::InputGetThresholdStates(a), Request::InputGetThresholdStates(b)) => {
                a.lemma_wire_injective(&b);
            },
            (Request::Reboot(a), Request::Reboot(b)) => {
                a.lemma_wire_injective(&b);
            },
            _ => {},
        }
    }

    /// Every message stands for the frame that it goes out in, and its payload is
    /// one that a frame can carry.
    pub proof fn lemma_payload(self)
        ensures
            self.payload().len() % 4 == 0,
            self.payload().len() <= 1020,
            Request::accepted(self.command_of().code(), self.payload().len()),
            self.stands_for(self.command_of().code(), self.payload()),
    {
        match self {
            Request::Check(m) => {
                m.lemma_wire_len();
            },
            Request::InfoGet(m) => {
                m.lemma_wire_len();
            },
            Request::ConfigGet(m) => {
                m.lemma_wire_len();
            },
            Request::ConfigSet(m) => {
                m.lemma_wire_len();
            },
            Request::OutputSet(m) => {
                m.lemma_wire_len();
            },
            Request::OutputGet(m) => {
                m.lemma_wire_len();
            },
            Request::InputGet(m) => {
                m.lemma_wire_len();
            },
            Request::InputGetFull(m) => {
                m.lemma_wire_len();
            },
            Request::InputSetCalibrations(m) => {
                m.lemma_wire_len();
            },
            Request::InputGetCalibrations(m) => {
                m.lemma_wire_len();
            },
            Request::InputSetThresholds(m) => {
                m.lemma_wire_len();
            },
            Request::InputGetThresholds(m) => {
                m.lemma_wire_len();
            },
            Request::InputGetThresholdTimes(m) => {
                m.lemma_wire_len();
            },
            Request::InputGetThresholdStates(m) => {
                m.lemma_wire_len();
            },
            Request::Reboot(m) => {
                m.lemma_wire_len();
            },
        }
    }
}

/// A response, as the master reads it.
#[derive(Debug, Clone, Copy, PartialEq, Eq)]
pub enum Response {
    Check(CheckRes),
    InfoGet(InfoGetRes),
    ConfigGet(ConfigGetRes),
    ConfigSet(ConfigSetRes),
    OutputSet(OutputSetRes),
    OutputGet(OutputGetRes),
    InputGet(InputGetRes),
    InputGetFull(InputGetFullRes),
    InputSetCalibrations(InputSetCalibrationsRes),
    InputGetCalibrations(InputGetCalibrationsRes),
    InputSetThresholds(InputSetThresholdsRes),
    InputGetThresholds(InputGetThresholdsRes),
    InputGetThresholdTimes(InputGetThresholdTimesRes),
    InputGetThresholdStates(InputGetThresholdStatesRes),
    Reboot(RebootRes),
}

impl Response {
    /// The command that the message belongs to.
    pub open spec fn command_of(&self) -> Command {
        match self {
            Response::Check(_) => Command::Check,
            Response::InfoGet(_) => Command::InfoGet,
            Response::ConfigGet(_) => Command::ConfigGet,
            Response::ConfigSet(_) => Command::ConfigSet,
            Response::OutputSet(_) => Command::OutputSet,
            Response::OutputGet(_) => Command::OutputGet,
            Response::InputGet(_) => Command::InputGet,
            Response::InputGetFull(_) => Command::InputGetFull,
            Response::InputSetCalibrations(_) => Command::InputSetCalibrations,
            Response::InputGetCalibrations(_) => Command::InputGetCalibrations,
            Response::InputSetThresholds(_) => Command::InputSetThresholds,
            Response::InputGetThresholds(_) => Command::InputGetThresholds,
            Response::InputGetThresholdTimes(_) => Command::InputGetThresholdTimes,
            Response::InputGetThresholdStates(_) => Command::InputGetThresholdStates,
            Response::Reboot(_) => Command::Reboot,
        }
    }

    pub fn command(&self) -> (command: Command)
        ensures
            command == self.command_of(),
    {
        match self {
            Response::Check(_) => Command::Check,
            Response::InfoGet(_) => Command::InfoGet,
            Response::ConfigGet(_) => Command::ConfigGet,
            Response::ConfigSet(_) => Command::ConfigSet,
            Response::OutputSet(_) => Command::OutputSet,
            Response::OutputGet(_) => Command::OutputGet,
            Response::InputGet(_) => Command::InputGet,
            Response::InputGetFull(_) => Command::InputGetFull,
            Response::InputSetCalibrations(_) => Command::InputSetCalibrations,
            Response::InputGetCalibrations(_) => Command::InputGetCalibrations,
            Response::InputSetThresholds(_) => Command::InputSetThresholds,
            Response::InputGetThresholds(_) => Command::InputGetThresholds,
            Response::InputGetThresholdTimes(_) => Command::InputGetThresholdTimes,
            Response::InputGetThresholdStates(_) => Command::InputGetThresholdStates,
            Response::Reboot(_) => Command::Reboot,
        }
    }

    /// The payload that the message goes out with.
    pub open spec fn payload(&self) -> Seq<u8> {
        match self {
            Response::Check(m) => m.wire(),
            Response::InfoGet(m) => m.wire(),
            Response::ConfigGet(m) => m.wire(),
            Response::ConfigSet(m) => m.wire(),
            Response::OutputSet(m) => m.wire(),
            Response::OutputGet(m) => m.wire(),
            Response::InputGet(m) => m.wire(),
            Response::InputGetFull(m) => m.wire(),
            Response::InputSetCalibrations(m) => m.wire(),
            Response::InputGetCalibrations(m) => m.wire(),
            Response::InputSetThresholds(m) => m.wire(),
            Response::InputGetThresholds(m) => m.wire(),
            Response::InputGetThresholdTimes(m) => m.wire(),
            Response::InputGetThresholdStates(m) => m.wire(),
            Response::Reboot(m) => m.wire(),
        }
    }

    /// The length that the payload of a frame with this command must have to be
    /// read: that of the message, zero for a message without fields.
    pub open spec fn payload_len(command: Command) -> nat {
        match command {
            Command::InfoGet => 40,
            Command::ConfigGet => 8,
            Command::OutputGet => 48,
            Command::InputGet => 32,
            Command::InputGetFull => 288,
            Command::InputGetCalibrations => 160,
            Command::InputGetThresholds => 160,
            Command::InputGetThresholdTimes => 264,
            Command::InputGetThresholdStates => 4,
            _ => 0,
        }
    }

    /// Whether a frame with this command id and a payload of this length is read.
    pub open spec fn accepted(code: u16, len: nat) -> bool {
        match Command::of_code(code) {
            None => false,
            Some(command) => len == Response::payload_len(command),
        }
    }

    /// Whether this is the message that a frame with this command id and this
    /// payload stands for: the command is that of the message, and the payload
    /// is its encoding, which is empty for a message without fields.
    pub open spec fn stands_for(&self, code: u16, payload: Seq<u8>) -> bool {
        &&& Command::of_code(code) == Some(self.command_of())
        &&& self.payload() == payload
    }

    /// Reads the message that a frame with this command id and payload stands
    /// for. There is none where the command is unknown or the payload has not
    /// the length of the message.
    pub fn decode(code: u16, payload: &[u8]) -> (r: Option<Response>)
        ensures
            r is Some <==> Response::accepted(code, payload@.len()),
            r matches Some(message) ==> message.stands_for(code, payload@),
    {
        match Command::try_from_u16(code) {
            None => None,
            Some(Command::Check) => {
                let read = decode_exact::<CheckRes>(payload);
                match read {
                    Some(m) => Some(Response::Check(m)),
                    None => None,
                }
            },
            Some(Command::InfoGet) => {
                let read = decode_exact::<InfoGetRes>(payload);
                match read {
                    Some(m) => Some(Response::InfoGet(m)),
                    None => None,
                }
            },
            Some(Command::ConfigGet) => {
                let read = decode_exact::<ConfigGetRes>(payload);
                match read {
                    Some(m) => Some(Response::ConfigGet(m)),
                    None => None,
                }
            },
            Some(Command::ConfigSet) => {
                let read = decode_exact::<ConfigSetRes>(payload);
                match read {
                    Some(m) => Some(Response::ConfigSet(m)),
                    None => None,
                }
            },
            Some(Command::OutputSet) => {
                let read = decode_exact::<OutputSetRes>(payload);
                match read {
                    Some(m) => Some(Response::OutputSet(m)),
                    None => None,
                }
            },
            Some(Command::OutputGet) => {
                let read = decode_exact::<OutputGetRes>(payload);
                match read {
                    Some(m) => Some(Response::OutputGet(m)),
                    None => None,
                }
            },
            Some(Command::InputGet) => {
                let read = decode_exact::<InputGetRes>(payload);
                match read {
                    Some(m) => Some(Response::InputGet(m)),
                    None => None,
                }
            },
            Some(Command::InputGetFull) => {
                let read = decode_exact::<InputGetFullRes>(payload);
                match read {
                    Some(m) => Some(Response::InputGetFull(m)),
                    None => None,
                }
            },
            Some(Command::InputSetCalibrations) => {
                let read = decode_exact::<InputSetCalibrationsRes>(payload);
                match read {
                    Some(m) => Some(Response::InputSetCalibrations(m)),
                    None => None,
                }
            },
            Some(Command::InputGetCalibrations) => {
                let read = decode_exact::<InputGetCalibrationsRes>(payload);
                match read {
                    Some(m) => Some(Response::InputGetCalibrations(m)),
                    None => None,
                }
            },
            Some(Command::InputSetThresholds) => {
                let read = decode_exact::<InputSetThresholdsRes>(payload);
                match read {
                    Some(m) => Some(Response::InputSetThresholds(m)),
                    None => None,
                }
            },
            Some(Command::InputGetThresholds) => {
                let read = decode_exact::<InputGetThresholdsRes>(payload);
                match read {
                    Some(m) => Some(Response::InputGetThresholds(m)),
                    None => None,
                }
            },
            Some(Command::InputGetThresholdTimes) => {
                let read = decode_exact::<InputGetThresholdTimesRes>(payload);
                match read {
                    Some(m) => Some(Response::InputGetThresholdTimes(m)),
                    None => None,
                }
            },
            Some(Command::InputGetThresholdStates) => {
                let read = decode_exact::<InputGetThresholdStatesRes>(payload);
                match read {
                    Some(m) => Some(Response::InputGetThresholdStates(m)),
                    None => None,
                }
            },
            Some(Command::Reboot) => {
                let read = decode_exact::<RebootRes>(payload);
                match read {
                    Some(m) => Some(Response::Reboot(m)),
                    None => None,
                }
            },
        }
    }

    /// The frame that carries the message to or from the given address.
    pub fn frame(&self, address: u16) -> (bytes: Vec<u8>)
        ensures
            bytes@ == frame_wire(address, self.command_of().code(), self.payload()),
    {
        match self {
            Response::Check(m) => Message::new_response(address, Command::Check, *m).as_bytes(),
            Response::InfoGet(m) => {
                Message::new_response(address, Command::InfoGet, *m).as_bytes()
            },
            Response::ConfigGet(m) => {
                Message::new_response(address, Command::ConfigGet, *m).as_bytes()
            },
            Response::ConfigSet(m) => {
                Message::new_response(address, Command::ConfigSet, *m).as_bytes()
            },
            Response::OutputSet(m) => {
                Message::new_response(address, Command::OutputSet, *m).as_bytes()
            },
            Response::OutputGet(m) => {
                Message::new_response(address, Command::OutputGet, *m).as_bytes()
            },
            Response::InputGet(m) => {
                Message::new_response(address, Command::InputGet, *m).as_bytes()
            },
            Response::InputGetFull(m) => {
                Message::new_response(address, Command::InputGetFull, *m).as_bytes()
            },
            Response::InputSetCalibrations(m) => {
                Message::new_response(address, Command::InputSetCalibrations, *m).as_bytes()
            },
            Response::InputGetCalibrations(m) => {
                Message::new_response(address, Command::InputGetCalibrations, *m).as_bytes()
            },
            Response::InputSetThresholds(m) => {
                Message::new_response(address, Command::InputSetThresholds, *m).as_bytes()
            },
            Response::InputGetThresholds(m) => {
                Message::new_response(address, Command::InputGetThresholds, *m).as_bytes()
            },
            Response::InputGetThresholdTimes(m) => {
                Message::new_response(address, Command::InputGetThresholdTimes, *m).as_bytes()
            },
            Response::InputGetThresholdStates(m) => {
                Message::new_response(address, Command::InputGetThresholdStates, *m).as_bytes()
            },
            Response::Reboot(m) => Message::new_response(address, Command::Reboot, *m).as_bytes(),
        }
    }

    /// A frame stands for at most one message.
    pub proof fn lemma_stands_for_unique(self, other: Self, code: u16, payload: Seq<u8>)
        requires
            self.stands_for(code, payload),
            other.stands_for(code, payload),
        ensures
            self == other,
    {
        match (self, other) {
            (Response::Check(a), Response::Check(b)) => {
                a.lemma_wire_injective(&b);
            },
            (Response::InfoGet(a), Response::InfoGet(b)) => {
                a.lemma_wire_injective(&b);
            },
            (Response::ConfigGet(a), Response::ConfigGet(b)) => {
                a.lemma_wire_injective(&b);
            },
            (Response::ConfigSet(a), Response::ConfigSet(b)) => {
                a.lemma_wire_injective(&b);
            },
            (Response::OutputSet(a), Response::OutputSet(b)) => {
                a.lemma_wire_injective(&b);
            },
            (Response::OutputGet(a), Response::OutputGet(b)) => {
                a.lemma_wire_injective(&b);
            },
            (Response::InputGet(a), Response::InputGet(b)) => {
                a.lemma_wire_injective(&b);
            },
            (Response::InputGetFull(a), Response::InputGetFull(b)) => {
                a.lemma_wire_injective(&b);
            },
            (Response::InputSetCalibrations(a), Response::InputSetCalibrations(b)) => {
                a.lemma_wire_injective(&b);
            },
            (Response::InputGetCalibrations(a), Response::InputGetCalibrations(b)) => {
                a.lemma_wire_injective(&b);
            },
            (Response::InputSetThresholds(a), Response::InputSetThresholds(b)) => {
                a.lemma_wire_injective(&b);
            },
            (Response::InputGetThresholds(a), Response::InputGetThresholds(b)) => {
                a.lemma_wire_injective(&b);
            },
            (Response::InputGetThresholdTimes(a), Response::InputGetThresholdTimes(b)) => {
                a.lemma_wire_injective(&b);
            },
            (Response::InputGetThresholdStates(a), Response::InputGetThresholdStates(b)) => {
                a.lemma_wire_injective(&b);
            },
            (Response::Reboot(a), Response::Reboot(b)) => {
                a.lemma_wire_injective(&b);
            },
            _ => {},
        }
    }

    /// Every message stands for the frame that it goes out in, and its payload is
    /// one that a frame can carry.
    pub proof fn lemma_payload(self)
        ensures
            self.payload().len() % 4 == 0,
            self.payload().len() <= 1020,
            Response::accepted(self.command_of().code(), self.payload().len()),
            self.stands_for(self.command_of().code(), self.payload()),
    {
        match self {
            Response::Check(m) => {
                m.lemma_wire_len();
            },
            Response::InfoGet(m) => {
                m.lemma_wire_len();
            },
            Response::ConfigGet(m) => {
                m.lemma_wire_len();
            },
            Response::ConfigSet(m) => {
                m.lemma_wire_len();
            },
            Response::OutputSet(m) => {
                m.lemma_wire_len();
            },
            Response::OutputGet(m) => {
                m.lemma_wire_len();
            },
            Response::InputGet(m) => {
                m.lemma_wire_len();
            },
            Response::InputGetFull(m) => {
                m.lemma_wire_len();
            },
            Response::InputSetCalibrations(m) => {
                m.lemma_wire_len();
            },
            Response::InputGetCalibrations(m) => {
                m.lemma_wire_len();
            },
            Response::InputSetThresholds(m) => {
                m.lemma_wire_len();
            },
            Response::InputGetThresholds(m) => {
                m.lemma_wire_len();
            },
            Response::InputGetThresholdTimes(m) => {
                m.lemma_wire_len();
            },
            Response::InputGetThresholdStates(m) => {
                m.lemma_wire_len();
            },
            Response::Reboot(m) => {
                m.lemma_wire_len();
            },
        }
    }
}

/// A request type: its command, the time to wait for the answer and the
/// response type that answers it.
pub trait RequestTrait: Payload + Copy {
    type Response: Payload + Copy;

    /// The command of the request.
    spec fn request_command() -> Command;

    /// The time in microseconds after which an answer is given up.
    spec fn request_timeout_us() -> u32;

    fn command() -> (command: Command)
        ensures
            command == Self::request_command(),
    ;

    fn timeout_us() -> (timeout: u32)
        ensures
            timeout == Self::request_timeout_us(),
    ;

    /// The response to this type of request that `response` holds, if it holds
    /// one.
    fn get_response(response: Response) -> (r: Option<Self::Response>)
        ensures
            r is Some <==> response.command_of() == Self::request_command(),
            r matches Some(message) ==> message.wire() == response.payload(),
    ;
}

impl RequestTrait for CheckReq {
    type Response = CheckRes;

    open spec fn request_command() -> Command {
        Command::Check
    }

    open spec fn request_timeout_us() -> u32 {
        100
    }

    fn command() -> (command: Command) {
        Command::Check
    }

    fn timeout_us() -> (timeout: u32) {
        100
    }

    fn get_response(response: Response) -> (r: Option<Self::Response>) {
        match response {
            Response::Check(message) => Some(message),
            _ => None,
        }
    }
}

impl RequestTrait for InfoGetReq {
    type Response = InfoGetRes;

    open spec fn request_command() -> Command {
        Command::InfoGet
    }

    open spec fn request_timeout_us() -> u32 {
        100
    }

    fn command() -> (command: Command) {
        Command::InfoGet
    }

    fn timeout_us() -> (timeout: u32) {
        100
    }

    fn get_response(response: Response) -> (r: Option<Self::Response>) {
        match response {
            Response::InfoGet(message) => Some(message),
            _ => None,
        }
    }
}

impl RequestTrait for ConfigGetReq {
    type Response = ConfigGetRes;

    open spec fn request_command() -> Command {
        Command::ConfigGet
    }

    open spec fn request_timeout_us() -> u32 {
        100
    }

    fn command() -> (command: Command) {
        Command::ConfigGet
    }

    fn timeout_us() -> (timeout: u32) {
        100
    }

    fn get_response(response: Response) -> (r: Option<Self::Response>) {
        match response {
            Response::ConfigGet(message) => Some(message),
            _ => None,
        }
    }
}

impl RequestTrait for ConfigSetReq {
    type Response = ConfigSetRes;

    open spec fn request_command() -> Command {
        Command::ConfigSet
    }

    open spec fn request_timeout_us() -> u32 {
        500000
    }

    fn command() -> (command: Command) {
        Command::ConfigSet
    }

    fn timeout_us() -> (timeout: u32) {
        500000
    }

    fn get_response(response: Response) -> (r: Option<Self::Response>) {
        match response {
            Response::ConfigSet(message) => Some(message),
            _ => None,
        }
    }
}

impl RequestTrait for OutputSetReq {
    type Response = OutputSetRes;

    open spec fn request_command() -> Command {
        Command::OutputSet
    }

    open spec fn request_timeout_us() -> u32 {
        100
    }

    fn command() -> (command: Command) {
        Command::OutputSet
    }

    fn timeout_us() -> (timeout: u32) {
        100
    }

    fn get_response(response: Response) -> (r: Option<Self::Response>) {
        match response {
            Response::OutputSet(message) => Some(message),
            _ => None,
        }
    }
}

impl RequestTrait for OutputGetReq {
    type Response = OutputGetRes;

    open spec fn request_command() -> Command {
        Command::OutputGet
    }

    open spec fn request_timeout_us() -> u32 {
        100
    }

    fn command() -> (command: Command) {
        Command::OutputGet
    }

    fn timeout_us() -> (timeout: u32) {
        100
    }

    fn get_response(response: Response) -> (r: Option<Self::Response>) {
        match response {
            Response::OutputGet(message) => Some(message),
            _ => None,
        }
    }
}

impl RequestTrait for InputGetReq {
    type Response = InputGetRes;

    open spec fn request_command() -> Command {
        Command::InputGet
    }

    open spec fn request_timeout_us() -> u32 {
        100
    }

    fn command() -> (command: Command) {
        Command::InputGet
    }

    fn timeout_us() -> (timeout: u32) {
        100
    }

    fn get_response(response: Response) -> (r: Option<Self::Response>) {
        match response {
            Response::InputGet(message) => Some(message),
            _ => None,
        }
    }
}

impl RequestTrait for InputGetFullReq {
    type Response = InputGetFullRes;

    open spec fn request_command() -> Command {
        Command::InputGetFull
    }

    open spec fn request_timeout_us() -> u32 {
        100
    }

    fn command() -> (command: Command) {
        Command::InputGetFull
    }

    fn timeout_us() -> (timeout: u32) {
        100
    }

    fn get_response(response: Response) -> (r: Option<Self::Response>) {
        match response {
            Response::InputGetFull(message) => Some(message),
            _ => None,
        }
    }
}

impl RequestTrait for InputSetCalibrationsReq {
    type Response = InputSetCalibrationsRes;

    open spec fn request_command() -> Command {
        Command::InputSetCalibrations
    }

    open spec fn request_timeout_us() -> u32 {
        500000
    }

    fn command() -> (command: Command) {
        Command::InputSetCalibrations
    }

    fn timeout_us() -> (timeout: u32) {
        500000
    }

    fn get_response(response: Response) -> (r: Option<Self::Response>) {
        match response {
            Response::InputSetCalibrations(message) => Some(message),
            _ => None,
        }
    }
}

impl RequestTrait for InputGetCalibrationsReq {
    type Response = InputGetCalibrationsRes;

    open spec fn request_command() -> Command {
        Command::InputGetCalibrations
    }

    open spec fn request_timeout_us() -> u32 {
        100
    }

    fn command() -> (command: Command) {
        Command::InputGetCalibrations
    }

    fn timeout_us() -> (timeout: u32) {
        100
    }

    fn get_response(response: Response) -> (r: Option<Self::Response>) {
        match response {
            Response::InputGetCalibrations(message) => Some(message),
            _ => None,
        }
    }
}

impl RequestTrait for InputSetThresholdsReq {
    type Response = InputSetThresholdsRes;

    open spec fn request_command() -> Command {
        Command::InputSetThresholds
    }

    open spec fn request_timeout_us() -> u32 {
        500000
    }

    fn command() -> (command: Command) {
        Command::InputSetThresholds
    }

    fn timeout_us() -> (timeout: u32) {
        500000
    }

    fn get_response(response: Response) -> (r: Option<Self::Response>) {
        match response {
            Response::InputSetThresholds(message) => Some(message),
            _ => None,
        }
    }
}

impl RequestTrait for InputGetThresholdsReq {
    type Response = InputGetThresholdsRes;

    open spec fn request_command() -> Command {
        Command::InputGetThresholds
    }

    open spec fn request_timeout_us() -> u32 {
        100
    }

    fn command() -> (command: Command) {
        Command::InputGetThresholds
    }

    fn timeout_us() -> (timeout: u32) {
        100
    }

    fn get_response(response: Response) -> (r: Option<Self::Response>) {
        match response {
            Response::InputGetThresholds(message) => Some(message),
            _ => None,
        }
    }
}

impl RequestTrait for InputGetThresholdTimesReq {
    type Response = InputGetThresholdTimesRes;

    open spec fn request_command() -> Command {
        Command::InputGetThresholdTimes
    }

    open spec fn request_timeout_us() -> u32 {
        100
    }

    fn command() -> (command: Command) {
        Command::InputGetThresholdTimes
    }

    fn timeout_us() -> (timeout: u32) {
        100
    }

    fn get_response(response: Response) -> (r: Option<Self::Response>) {
        match response {
            Response::InputGetThresholdTimes(message) => Some(message),
            _ => None,
        }
    }
}

impl RequestTrait for InputGetThresholdStatesReq {
    type Response = InputGetThresholdStatesRes;

    open spec fn request_command() -> Command {
        Command::InputGetThresholdStates
    }

    open spec fn request_timeout_us() -> u32 {
        100
    }

    fn command() -> (command: Command) {
        Command::InputGetThresholdStates
    }

    fn timeout_us() -> (timeout: u32) {
        100
    }

    fn get_response(response: Response) -> (r: Option<Self::Response>) {
        match response {
            Response::InputGetThresholdStates(message) => Some(message),
            _ => None,
        }
    }
}

impl RequestTrait for RebootReq {
    type Response = RebootRes;

    open spec fn request_command() -> Command {
        Command::Reboot
    }

    open spec fn request_timeout_us() -> u32 {
        500000
    }

    fn command() -> (command: Command) {
        Command::Reboot
    }

    fn timeout_us() -> (timeout: u32) {
        500000
    }

    fn get_response(response: Response) -> (r: Option<Self::Response>) {
        match response {
            Response::Reboot(message) => Some(message),
            _ => None,
        }
    }
}

/// What the slave with address `address` reads from the buffer `s`: the
/// request `r`, or nothing. It reads a request where the hunter finds a frame
/// that carries its address, a known command and a payload of the length of
/// the request of that command, which is zero for a request without fields.
pub open spec fn slave_reads(s: Seq<u8>, address: u16, r: Option<Request>) -> bool {
    let found = hunt(s, 0).frame;
    match r {
        Some(request) => {
            &&& found matches Some(at)
            &&& frame_address(s, at) == address
            &&& request.stands_for(frame_command(s, at), frame_payload(s, at))
        },
        None => !{
            &&& found matches Some(at)
            &&& frame_address(s, at) == address
            &&& Request::accepted(frame_command(s, at), frame_payload(s, at).len())
        },
    }
}

/// What the master reads from the buffer `s`: the address of a slave and its
/// response, or nothing.
pub open spec fn master_reads(s: Seq<u8>, r: Option<(u16, Response)>) -> bool {
    let found = hunt(s, 0).frame;
    match r {
        Some((address, response)) => {
            &&& found matches Some(at)
            &&& frame_address(s, at) == address
            &&& response.stands_for(frame_command(s, at), frame_payload(s, at))
        },
        None => !{
            &&& found matches Some(at)
            &&& Response::accepted(frame_command(s, at), frame_payload(s, at).len())
        },
    }
}

/// Reads the next message from `buffer` as a response, whatever its address,
/// and returns the address and the response with the number of bytes that
/// are done with. Passes over bytes that start no frame and frames with a
/// wrong checksum; a frame with an unknown command or a payload of the wrong
/// length is dropped, and counted as processed.
pub fn master_next(buffer: &[u8]) -> (r: (Option<(u16, Response)>, usize))
    ensures
        r.1 == hunt(buffer@, 0).processed,
        r.1 <= buffer.len(),
        master_reads(buffer@, r.0),
{
    let (maybe_message, processed) = next_message(buffer);
    let (header, payload) = match maybe_message {
        Some(message) => message,
        None => {
            return (None, processed);
        },
    };
    match Response::decode(header.command, payload) {
        Some(response) => (Some((header.address, response)), processed),
        None => (None, processed),
    }
}

/// Reads the next message from `buffer` as a request to the slave with the
/// given address, and returns the request with the number of bytes that are
/// done with. Passes over bytes that start no frame and frames with a wrong
/// checksum; a frame for another address, with an unknown command or with a
/// payload of the wrong length is dropped, and counted as processed.
pub fn slave_next(buffer: &[u8], address: u16) -> (r: (Option<Request>, usize))
    ensures
        r.1 == hunt(buffer@, 0).processed,
        r.1 <= buffer.len(),
        slave_reads(buffer@, address, r.0),
{
    let (maybe_message, processed) = next_message(buffer);
    let (header, payload) = match maybe_message {
        Some(message) => message,
        None => {
            return (None, processed);
        },
    };
    if address != header.address {
        return (None, processed);
    }
    (Request::decode(header.command, payload), processed)
}

/// A request that goes out in a frame to `address` is read again by the
/// slave with that address, and nothing else is: all bytes of the frame are
/// processed, and what the slave reads is this request.
pub proof fn lemma_request_round_trip(address: u16, request: Request, r: Option<Request>)
    ensures
        ({
            let frame = frame_wire(address, request.command_of().code(), request.payload());
            &&& hunt(frame, 0).processed == frame.len()
            &&& slave_reads(frame, address, Some(request))
            &&& slave_reads(frame, address, r) ==> r == Some(request)
        }),
{
    let code = request.command_of().code();
    let frame = frame_wire(address, code, request.payload());
    request.lemma_payload();
    lemma_frame_round_trip(address, code, request.payload());
    if slave_reads(frame, address, r) {
        match r {
            Some(other) => {
                other.lemma_stands_for_unique(request, code, request.payload());
            },
            None => {},
        }
    }
}

/// A response that goes out in a frame from `address` is read again by the
/// master, with that address, and nothing else is.
pub proof fn lemma_response_round_trip(
    address: u16,
    response: Response,
    r: Option<(u16, Response)>,
)
    ensures
        ({
            let frame = frame_wire(address, response.command_of().code(), response.payload());
            &&& hunt(frame, 0).processed == frame.len()
            &&& master_reads(frame, Some((address, response)))
            &&& master_reads(frame, r) ==> r == Some((address, response))
        }),
{
    let code = response.command_of().code();
    let frame = frame_wire(address, code, response.payload());
    response.lemma_payload();
    lemma_frame_round_trip(address, code, response.payload());
    if master_reads(frame, r) {
        match r {
            Some((from, other)) => {
                other.lemma_stands_for_unique(response, code, response.payload());
            },
            None => {},
        }
    }
}

} // verus!
