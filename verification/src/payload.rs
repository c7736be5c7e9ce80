//! The payloads of the requests and responses, each with its fixed
//! little-endian layout. Fields lie in declaration order without padding.
use crate::bytes::{
    decode_array, encode_array, lemma_seq_wire_injective, lemma_seq_wire_len, seq_wire, Wire,
};
use crate::frame::Payload;
use vstd::prelude::*;

verus! {

/// Asks whether the device is alive.
#[derive(Debug, Clone, Copy, PartialEq, Eq)]
pub struct CheckReq;

impl Wire for CheckReq {
    open spec fn wire(&self) -> Seq<u8> {
        Seq::empty()
    }

    open spec fn wire_len() -> nat {
        0
    }

    proof fn lemma_wire_len(&self) {
    }

    proof fn lemma_wire_injective(&self, other: &Self) {
    }

    fn size() -> (n: usize) {
        0
    }

    fn encode_into(&self, out: &mut Vec<u8>) {
        assert(out@ =~= old(out)@ + Seq::<u8>::empty());
    }

    fn decode_at(bytes: &[u8], at: usize) -> (r: Self) {
        assert(bytes@.subrange(at as int, at as int) =~= Seq::<u8>::empty());
        CheckReq
    }
}

impl Payload for CheckReq {
    proof fn lemma_payload_len() {
    }
}

/// Answers that the device is alive.
#[derive(Debug, Clone, Copy, PartialEq, Eq)]
pub struct CheckRes;

impl Wire for CheckRes {
    open spec fn wire(&self) -> Seq<u8> {
        Seq::empty()
    }

    open spec fn wire_len() -> nat {
        0
    }

    proof fn lemma_wire_len(&self) {
    }

    proof fn lemma_wire_injective(&self, other: &Self) {
    }

    fn size() -> (n: usize) {
        0
    }

    fn encode_into(&self, out: &mut Vec<u8>) {
        assert(out@ =~= old(out)@ + Seq::<u8>::empty());
    }

    fn decode_at(bytes: &[u8], at: usize) -> (r: Self) {
        assert(bytes@.subrange(at as int, at as int) =~= Seq::<u8>::empty());
        CheckRes
    }
}

impl Payload for CheckRes {
    proof fn lemma_payload_len() {
    }
}

/// Asks for the device information.
#[derive(Debug, Clone, Copy, PartialEq, Eq)]
pub struct InfoGetReq;

impl Wire for InfoGetReq {
    open spec fn wire(&self) -> Seq<u8> {
        Seq::empty()
    }

    open spec fn wire_len() -> nat {
        0
    }

    proof fn lemma_wire_len(&self) {
    }

    proof fn lemma_wire_injective(&self, other: &Self) {
    }

    fn size() -> (n: usize) {
        0
    }

    fn encode_into(&self, out: &mut Vec<u8>) {
        assert(out@ =~= old(out)@ + Seq::<u8>::empty());
    }

    fn decode_at(bytes: &[u8], at: usize) -> (r: Self) {
        assert(bytes@.subrange(at as int, at as int) =~= Seq::<u8>::empty());
        InfoGetReq
    }
}

impl Payload for InfoGetReq {
    proof fn lemma_payload_len() {
    }
}

/// The device information.
#[derive(Debug, Clone, Copy, PartialEq, Eq)]
pub struct InfoGetRes {
    /// UTF-8 string filled up with null bytes (not necessarily null-terminated).
    pub info: [u8; 32],
    /// Major version.
    pub firmware_version_major: u8,
    /// Minor version.
    pub firmware_version_minor: u8,
    /// Patch version.
    pub firmware_version_patch: u16,
    /// Uptime in seconds.
    pub uptime: u32,
}

impl Wire for InfoGetRes {
    open spec fn wire(&self) -> Seq<u8> {
        seq_wire(self.info@)
            + self.firmware_version_major.wire()
            + self.firmware_version_minor.wire()
            + self.firmware_version_patch.wire()
            + self.uptime.wire()
    }

    open spec fn wire_len() -> nat {
        40
    }

    proof fn lemma_wire_len(&self) {
        lemma_seq_wire_len(self.info@);
        self.firmware_version_major.lemma_wire_len();
        self.firmware_version_minor.lemma_wire_len();
        self.firmware_version_patch.lemma_wire_len();
        self.uptime.lemma_wire_len();
    }

    proof fn lemma_wire_injective(&self, other: &Self) {
        self.lemma_wire_len();
        other.lemma_wire_len();
        lemma_seq_wire_len(self.info@);
        lemma_seq_wire_len(other.info@);
        self.firmware_version_major.lemma_wire_len();
        other.firmware_version_major.lemma_wire_len();
        self.firmware_version_minor.lemma_wire_len();
        other.firmware_version_minor.lemma_wire_len();
        self.firmware_version_patch.lemma_wire_len();
        other.firmware_version_patch.lemma_wire_len();
        self.uptime.lemma_wire_len();
        other.uptime.lemma_wire_len();
        assert(self.wire().subrange(0, 32) =~= seq_wire(self.info@));
        assert(other.wire().subrange(0, 32) =~= seq_wire(other.info@));
        assert(self.wire().subrange(32, 33) =~= self.firmware_version_major.wire());
        assert(other.wire().subrange(32, 33) =~= other.firmware_version_major.wire());
        assert(self.wire().subrange(33, 34) =~= self.firmware_version_minor.wire());
        assert(other.wire().subrange(33, 34) =~= other.firmware_version_minor.wire());
        assert(self.wire().subrange(34, 36) =~= self.firmware_version_patch.wire());
        assert(other.wire().subrange(34, 36) =~= other.firmware_version_patch.wire());
        assert(self.wire().subrange(36, 40) =~= self.uptime.wire());
        assert(other.wire().subrange(36, 40) =~= other.uptime.wire());
        lemma_seq_wire_injective(self.info@, other.info@);
        assert(self.info =~= other.info);
        self.firmware_version_major.lemma_wire_injective(&other.firmware_version_major);
        self.firmware_version_minor.lemma_wire_injective(&other.firmware_version_minor);
        self.firmware_version_patch.lemma_wire_injective(&other.firmware_version_patch);
        self.uptime.lemma_wire_injective(&other.uptime);
    }

    fn size() -> (n: usize) {
        40
    }

    fn encode_into(&self, out: &mut Vec<u8>) {
        encode_array(&self.info, out);
        self.firmware_version_major.encode_into(out);
        self.firmware_version_minor.encode_into(out);
        self.firmware_version_patch.encode_into(out);
        self.uptime.encode_into(out);
        assert(out@ =~= old(out)@ + self.wire());
    }

    fn decode_at(bytes: &[u8], at: usize) -> (r: Self) {
        let info: [u8; 32] = decode_array(bytes, at, 0u8);
        let firmware_version_major = u8::decode_at(bytes, at + 32);
        let firmware_version_minor = u8::decode_at(bytes, at + 33);
        let firmware_version_patch = u16::decode_at(bytes, at + 34);
        let uptime = u32::decode_at(bytes, at + 36);
        let r = InfoGetRes {
            info,
            firmware_version_major,
            firmware_version_minor,
            firmware_version_patch,
            uptime,
        };
        assert(bytes@.subrange(at as int, at + 40) =~= bytes@.subrange(at as int, at + 32)
            + bytes@.subrange(at + 32, at + 33)
            + bytes@.subrange(at + 33, at + 34)
            + bytes@.subrange(at + 34, at + 36)
            + bytes@.subrange(at + 36, at + 40));
        r
    }
}

impl Payload for InfoGetRes {
    proof fn lemma_payload_len() {
    }
}

/// A pair of outputs that share one PWM slice.
#[derive(Debug, Clone, Copy, PartialEq, Eq)]
pub struct OutputGroup {
    /// Duty cycle scaled by 32768 (50% = 16384, 100% = 32768).
    pub duty_cycle: [u16; 2],
    /// Frequency in Hz.
    pub frequency: u16,
}

impl Wire for OutputGroup {
    open spec fn wire(&self) -> Seq<u8> {
        seq_wire(self.duty_cycle@) + self.frequency.wire()
    }

    open spec fn wire_len() -> nat {
        6
    }

    proof fn lemma_wire_len(&self) {
        lemma_seq_wire_len(self.duty_cycle@);
        self.frequency.lemma_wire_len();
    }

    proof fn lemma_wire_injective(&self, other: &Self) {
        self.lemma_wire_len();
        other.lemma_wire_len();
        lemma_seq_wire_len(self.duty_cycle@);
        lemma_seq_wire_len(other.duty_cycle@);
        self.frequency.lemma_wire_len();
        other.frequency.lemma_wire_len();
        assert(self.wire().subrange(0, 4) =~= seq_wire(self.duty_cycle@));
        assert(other.wire().subrange(0, 4) =~= seq_wire(other.duty_cycle@));
        assert(self.wire().subrange(4, 6) =~= self.frequency.wire());
        assert(other.wire().subrange(4, 6) =~= other.frequency.wire());
        lemma_seq_wire_injective(self.duty_cycle@, other.duty_cycle@);
        assert(self.duty_cycle =~= other.duty_cycle);
        self.frequency.lemma_wire_injective(&other.frequency);
    }

    fn size() -> (n: usize) {
        6
    }

    fn encode_into(&self, out: &mut Vec<u8>) {
        encode_array(&self.duty_cycle, out);
        self.frequency.encode_into(out);
        assert(out@ =~= old(out)@ + self.wire());
    }

    fn decode_at(bytes: &[u8], at: usize) -> (r: Self) {
        let duty_cycle: [u16; 2] = decode_array(bytes, at, 0u16);
        let frequency = u16::decode_at(bytes, at + 4);
        let r = OutputGroup { duty_cycle, frequency };
        assert(bytes@.subrange(at as int, at + 6) =~= bytes@.subrange(at as int, at + 4)
            + bytes@.subrange(at + 4, at + 6));
        r
    }
}

/// Sets the eight output groups. Outputs go back to the hardware defaults on reboot.
#[derive(Debug, Clone, Copy, PartialEq, Eq)]
pub struct OutputSetReq(pub [OutputGroup; 8]);

impl Wire for OutputSetReq {
    open spec fn wire(&self) -> Seq<u8> {
        seq_wire(self.0@)
    }

    open spec fn wire_len() -> nat {
        48
    }

    proof fn lemma_wire_len(&self) {
        lemma_seq_wire_len(self.0@);
    }

    proof fn lemma_wire_injective(&self, other: &Self) {
        self.lemma_wire_len();
        other.lemma_wire_len();
        lemma_seq_wire_len(self.0@);
        lemma_seq_wire_len(other.0@);
        lemma_seq_wire_injective(self.0@, other.0@);
        assert(self.0 =~= other.0);
    }

    fn size() -> (n: usize) {
        48
    }

    fn encode_into(&self, out: &mut Vec<u8>) {
        encode_array(&self.0, out);
        assert(out@ =~= old(out)@ + self.wire());
    }

    fn decode_at(bytes: &[u8], at: usize) -> (r: Self) {
        let fill = OutputGroup { duty_cycle: [0u16; 2], frequency: 0 };
        let items: [OutputGroup; 8] = decode_array(bytes, at, fill);
        let r = OutputSetReq(items);
        r
    }
}

impl Payload for OutputSetReq {
    proof fn lemma_payload_len() {
    }
}

/// Confirms that the outputs were set.
#[derive(Debug, Clone, Copy, PartialEq, Eq)]
pub struct OutputSetRes;

impl Wire for OutputSetRes {
    open spec fn wire(&self) -> Seq<u8> {
        Seq::empty()
    }

    open spec fn wire_len() -> nat {
        0
    }

    proof fn lemma_wire_len(&self) {
    }

    proof fn lemma_wire_injective(&self, other: &Self) {
    }

    fn size() -> (n: usize) {
        0
    }

    fn encode_into(&self, out: &mut Vec<u8>) {
        assert(out@ =~= old(out)@ + Seq::<u8>::empty());
    }

    fn decode_at(bytes: &[u8], at: usize) -> (r: Self) {
        assert(bytes@.subrange(at as int, at as int) =~= Seq::<u8>::empty());
        OutputSetRes
    }
}

impl Payload for OutputSetRes {
    proof fn lemma_payload_len() {
    }
}

/// Asks for the output states.
#[derive(Debug, Clone, Copy, PartialEq, Eq)]
pub struct OutputGetReq;

impl Wire for OutputGetReq {
    open spec fn wire(&self) -> Seq<u8> {
        Seq::empty()
    }

    open spec fn wire_len() -> nat {
        0
    }

    proof fn lemma_wire_len(&self) {
    }

    proof fn lemma_wire_injective(&self, other: &Self) {
    }

    fn size() -> (n: usize) {
        0
    }

    fn encode_into(&self, out: &mut Vec<u8>) {
        assert(out@ =~= old(out)@ + Seq::<u8>::empty());
    }

    fn decode_at(bytes: &[u8], at: usize) -> (r: Self) {
        assert(bytes@.subrange(at as int, at as int) =~= Seq::<u8>::empty());
        OutputGetReq
    }
}

impl Payload for OutputGetReq {
    proof fn lemma_payload_len() {
    }
}

/// The eight output groups as the hardware holds them: the duty cycles are on the
/// hardware's own scale.
#[derive(Debug, Clone, Copy, PartialEq, Eq)]
pub struct OutputGetRes(pub [OutputGroup; 8]);

impl Wire for OutputGetRes {
    open spec fn wire(&self) -> Seq<u8> {
        seq_wire(self.0@)
    }

    open spec fn wire_len() -> nat {
        48
    }

    proof fn lemma_wire_len(&self) {
        lemma_seq_wire_len(self.0@);
    }

    proof fn lemma_wire_injective(&self, other: &Self) {
        self.lemma_wire_len();
        other.lemma_wire_len();
        lemma_seq_wire_len(self.0@);
        lemma_seq_wire_len(other.0@);
        lemma_seq_wire_injective(self.0@, other.0@);
        assert(self.0 =~= other.0);
    }

    fn size() -> (n: usize) {
        48
    }

    fn encode_into(&self, out: &mut Vec<u8>) {
        encode_array(&self.0, out);
        assert(out@ =~= old(out)@ + self.wire());
    }

    fn decode_at(bytes: &[u8], at: usize) -> (r: Self) {
        let fill = OutputGroup { duty_cycle: [0u16; 2], frequency: 0 };
        let items: [OutputGroup; 8] = decode_array(bytes, at, fill);
        let r = OutputGetRes(items);
        r
    }
}

impl Payload for OutputGetRes {
    proof fn lemma_payload_len() {
    }
}

/// Asks for the input averages and resets the accumulated data.
#[derive(Debug, Clone, Copy, PartialEq, Eq)]
pub struct InputGetReq;

impl Wire for InputGetReq {
    open spec fn wire(&self) -> Seq<u8> {
        Seq::empty()
    }

    open spec fn wire_len() -> nat {
        0
    }

    proof fn lemma_wire_len(&self) {
    }

    proof fn lemma_wire_injective(&self, other: &Self) {
    }

    fn size() -> (n: usize) {
        0
    }

    fn encode_into(&self, out: &mut Vec<u8>) {
        assert(out@ =~= old(out)@ + Seq::<u8>::empty());
    }

    fn decode_at(bytes: &[u8], at: usize) -> (r: Self) {
        assert(bytes@.subrange(at as int, at as int) =~= Seq::<u8>::empty());
        InputGetReq
    }
}

impl Payload for InputGetReq {
    proof fn lemma_payload_len() {
    }
}

/// The input averages.
#[derive(Debug, Clone, Copy, PartialEq, Eq)]
pub struct InputGetRes {
    /// The calibrated value of each input, averaged over the reads since the previous
    /// `InputGet` or `InputGetFull`. An input without a read since then repeats its
    /// previous value.
    pub values: [i16; 16],
}

impl Wire for InputGetRes {
    open spec fn wire(&self) -> Seq<u8> {
        seq_wire(self.values@)
    }

    open spec fn wire_len() -> nat {
        32
    }

    proof fn lemma_wire_len(&self) {
        lemma_seq_wire_len(self.values@);
    }

    proof fn lemma_wire_injective(&self, other: &Self) {
        self.lemma_wire_len();
        other.lemma_wire_len();
        lemma_seq_wire_len(self.values@);
        lemma_seq_wire_len(other.values@);
        lemma_seq_wire_injective(self.values@, other.values@);
        assert(self.values =~= other.values);
    }

    fn size() -> (n: usize) {
        32
    }

    fn encode_into(&self, out: &mut Vec<u8>) {
        encode_array(&self.values, out);
        assert(out@ =~= old(out)@ + self.wire());
    }

    fn decode_at(bytes: &[u8], at: usize) -> (r: Self) {
        let values: [i16; 16] = decode_array(bytes, at, 0i16);
        let r = InputGetRes { values };
        r
    }
}

impl Payload for InputGetRes {
    proof fn lemma_payload_len() {
    }
}

/// Asks for the input statistics and resets the accumulated data.
#[derive(Debug, Clone, Copy, PartialEq, Eq)]
pub struct InputGetFullReq;

impl Wire for InputGetFullReq {
    open spec fn wire(&self) -> Seq<u8> {
        Seq::empty()
    }

    open spec fn wire_len() -> nat {
        0
    }

    proof fn lemma_wire_len(&self) {
    }

    proof fn lemma_wire_injective(&self, other: &Self) {
    }

    fn size() -> (n: usize) {
        0
    }

    fn encode_into(&self, out: &mut Vec<u8>) {
        assert(out@ =~= old(out)@ + Seq::<u8>::empty());
    }

    fn decode_at(bytes: &[u8], at: usize) -> (r: Self) {
        assert(bytes@.subrange(at as int, at as int) =~= Seq::<u8>::empty());
        InputGetFullReq
    }
}

impl Payload for InputGetFullReq {
    proof fn lemma_payload_len() {
    }
}

/// What one input accumulated since the previous `InputGet` or `InputGetFull`.
#[derive(Debug, Clone, Copy, PartialEq, Eq)]
pub struct InputStat {
    /// The sum of the values.
    pub sum: i32,
    /// The sum of the squares of the values.
    pub sum_squares: u64,
    /// The least value.
    pub min: i16,
    /// The greatest value.
    pub max: i16,
    /// The number of values.
    pub count: u16,
}

impl Wire for InputStat {
    open spec fn wire(&self) -> Seq<u8> {
        self.sum.wire()
            + self.sum_squares.wire()
            + self.min.wire()
            + self.max.wire()
            + self.count.wire()
    }

    open spec fn wire_len() -> nat {
        18
    }

    proof fn lemma_wire_len(&self) {
        self.sum.lemma_wire_len();
        self.sum_squares.lemma_wire_len();
        self.min.lemma_wire_len();
        self.max.lemma_wire_len();
        self.count.lemma_wire_len();
    }

    proof fn lemma_wire_injective(&self, other: &Self) {
        self.lemma_wire_len();
        other.lemma_wire_len();
        self.sum.lemma_wire_len();
        other.sum.lemma_wire_len();
        self.sum_squares.lemma_wire_len();
        other.sum_squares.lemma_wire_len();
        self.min.lemma_wire_len();
        other.min.lemma_wire_len();
        self.max.lemma_wire_len();
        other.max.lemma_wire_len();
        self.count.lemma_wire_len();
        other.count.lemma_wire_len();
        assert(self.wire().subrange(0, 4) =~= self.sum.wire());
        assert(other.wire().subrange(0, 4) =~= other.sum.wire());
        assert(self.wire().subrange(4, 12) =~= self.sum_squares.wire());
        assert(other.wire().subrange(4, 12) =~= other.sum_squares.wire());
        assert(self.wire().subrange(12, 14) =~= self.min.wire());
        assert(other.wire().subrange(12, 14) =~= other.min.wire());
        assert(self.wire().subrange(14, 16) =~= self.max.wire());
        assert(other.wire().subrange(14, 16) =~= other.max.wire());
        assert(self.wire().subrange(16, 18) =~= self.count.wire());
        assert(other.wire().subrange(16, 18) =~= other.count.wire());
        self.sum.lemma_wire_injective(&other.sum);
        self.sum_squares.lemma_wire_injective(&other.sum_squares);
        self.min.lemma_wire_injective(&other.min);
        self.max.lemma_wire_injective(&other.max);
        self.count.lemma_wire_injective(&other.count);
    }

    fn size() -> (n: usize) {
        18
    }

    fn encode_into(&self, out: &mut Vec<u8>) {
        self.sum.encode_into(out);
        self.sum_squares.encode_into(out);
        self.min.encode_into(out);
        self.max.encode_into(out);
        self.count.encode_into(out);
        assert(out@ =~= old(out)@ + self.wire());
    }

    fn decode_at(bytes: &[u8], at: usize) -> (r: Self) {
        let sum = i32::decode_at(bytes, at);
        let sum_squares = u64::decode_at(bytes, at + 4);
        let min = i16::decode_at(bytes, at + 12);
        let max = i16::decode_at(bytes, at + 14);
        let count = u16::decode_at(bytes, at + 16);
        let r = InputStat { sum, sum_squares, min, max, count };
        assert(bytes@.subrange(at as int, at + 18) =~= bytes@.subrange(at as int, at + 4)
            + bytes@.subrange(at + 4, at + 12)
            + bytes@.subrange(at + 12, at + 14)
            + bytes@.subrange(at + 14, at + 16)
            + bytes@.subrange(at + 16, at + 18));
        r
    }
}

/// The statistics of the sixteen inputs.
#[derive(Debug, Clone, Copy, PartialEq, Eq)]
pub struct InputGetFullRes {
    /// One entry for each input.
    pub stats: [InputStat; 16],
}

impl Wire for InputGetFullRes {
    open spec fn wire(&self) -> Seq<u8> {
        seq_wire(self.stats@)
    }

    open spec fn wire_len() -> nat {
        288
    }

    proof fn lemma_wire_len(&self) {
        lemma_seq_wire_len(self.stats@);
    }

    proof fn lemma_wire_injective(&self, other: &Self) {
        self.lemma_wire_len();
        other.lemma_wire_len();
        lemma_seq_wire_len(self.stats@);
        lemma_seq_wire_len(other.stats@);
        lemma_seq_wire_injective(self.stats@, other.stats@);
        assert(self.stats =~= other.stats);
    }

    fn size() -> (n: usize) {
        288
    }

    fn encode_into(&self, out: &mut Vec<u8>) {
        encode_array(&self.stats, out);
        assert(out@ =~= old(out)@ + self.wire());
    }

    fn decode_at(bytes: &[u8], at: usize) -> (r: Self) {
        let fill = InputStat { sum: 0, sum_squares: 0, min: 0, max: 0, count: 0 };
        let stats: [InputStat; 16] = decode_array(bytes, at, fill);
        let r = InputGetFullRes { stats };
        r
    }
}

impl Payload for InputGetFullRes {
    proof fn lemma_payload_len() {
    }
}

/// Maps a raw reading to a calibrated value, in 32-bit arithmetic and in this
/// order: multiply by `multiply`, divide by `divide` (rounding towards zero), add
/// `add`, clamp between `min` and `max`.
#[derive(Debug, Clone, Copy, PartialEq, Eq)]
pub struct InputCalibration {
    /// The factor. Default is `1`.
    pub multiply: i16,
    /// The divisor. Default is `1`. Must not be `0`.
    pub divide: i16,
    /// The offset. Default is `0`.
    pub add: i16,
    /// The least calibrated value. Default is `-32768`.
    pub min: i16,
    /// The greatest calibrated value. Default is `32767`.
    pub max: i16,
}

impl Wire for InputCalibration {
    open spec fn wire(&self) -> Seq<u8> {
        self.multiply.wire()
            + self.divide.wire()
            + self.add.wire()
            + self.min.wire()
            + self.max.wire()
    }

    open spec fn wire_len() -> nat {
        10
    }

    proof fn lemma_wire_len(&self) {
        self.multiply.lemma_wire_len();
        self.divide.lemma_wire_len();
        self.add.lemma_wire_len();
        self.min.lemma_wire_len();
        self.max.lemma_wire_len();
    }

    proof fn lemma_wire_injective(&self, other: &Self) {
        self.lemma_wire_len();
        other.lemma_wire_len();
        self.multiply.lemma_wire_len();
        other.multiply.lemma_wire_len();
        self.divide.lemma_wire_len();
        other.divide.lemma_wire_len();
        self.add.lemma_wire_len();
        other.add.lemma_wire_len();
        self.min.lemma_wire_len();
        other.min.lemma_wire_len();
        self.max.lemma_wire_len();
        other.max.lemma_wire_len();
        assert(self.wire().subrange(0, 2) =~= self.multiply.wire());
        assert(other.wire().subrange(0, 2) =~= other.multiply.wire());
        assert(self.wire().subrange(2, 4) =~= self.divide.wire());
        assert(other.wire().subrange(2, 4) =~= other.divide.wire());
        assert(self.wire().subrange(4, 6) =~= self.add.wire());
        assert(other.wire().subrange(4, 6) =~= other.add.wire());
        assert(self.wire().subrange(6, 8) =~= self.min.wire());
        assert(other.wire().subrange(6, 8) =~= other.min.wire());
        assert(self.wire().subrange(8, 10) =~= self.max.wire());
        assert(other.wire().subrange(8, 10) =~= other.max.wire());
        self.multiply.lemma_wire_injective(&other.multiply);
        self.divide.lemma_wire_injective(&other.divide);
        self.add.lemma_wire_injective(&other.add);
        self.min.lemma_wire_injective(&other.min);
        self.max.lemma_wire_injective(&other.max);
    }

    fn size() -> (n: usize) {
        10
    }

    fn encode_into(&self, out: &mut Vec<u8>) {
        self.multiply.encode_into(out);
        self.divide.encode_into(out);
        self.add.encode_into(out);
        self.min.encode_into(out);
        self.max.encode_into(out);
        assert(out@ =~= old(out)@ + self.wire());
    }

    fn decode_at(bytes: &[u8], at: usize) -> (r: Self) {
        let multiply = i16::decode_at(bytes, at);
        let divide = i16::decode_at(bytes, at + 2);
        let add = i16::decode_at(bytes, at + 4);
        let min = i16::decode_at(bytes, at + 6);
        let max = i16::decode_at(bytes, at + 8);
        let r = InputCalibration { multiply, divide, add, min, max };
        assert(bytes@.subrange(at as int, at + 10) =~= bytes@.subrange(at as int, at + 2)
            + bytes@.subrange(at + 2, at + 4)
            + bytes@.subrange(at + 4, at + 6)
            + bytes@.subrange(at + 6, at + 8)
            + bytes@.subrange(at + 8, at + 10));
        r
    }
}

/// Sets the calibrations of the sixteen inputs. Persists across reboots.
#[derive(Debug, Clone, Copy, PartialEq, Eq)]
pub struct InputSetCalibrationsReq(pub [InputCalibration; 16]);

impl Wire for InputSetCalibrationsReq {
    open spec fn wire(&self) -> Seq<u8> {
        seq_wire(self.0@)
    }

    open spec fn wire_len() -> nat {
        160
    }

    proof fn lemma_wire_len(&self) {
        lemma_seq_wire_len(self.0@);
    }

    proof fn lemma_wire_injective(&self, other: &Self) {
        self.lemma_wire_len();
        other.lemma_wire_len();
        lemma_seq_wire_len(self.0@);
        lemma_seq_wire_len(other.0@);
        lemma_seq_wire_injective(self.0@, other.0@);
        assert(self.0 =~= other.0);
    }

    fn size() -> (n: usize) {
        160
    }

    fn encode_into(&self, out: &mut Vec<u8>) {
        encode_array(&self.0, out);
        assert(out@ =~= old(out)@ + self.wire());
    }

    fn decode_at(bytes: &[u8], at: usize) -> (r: Self) {
        let fill = InputCalibration { multiply: 0, divide: 0, add: 0, min: 0, max: 0 };
        let items: [InputCalibration; 16] = decode_array(bytes, at, fill);
        let r = InputSetCalibrationsReq(items);
        r
    }
}

impl Payload for InputSetCalibrationsReq {
    proof fn lemma_payload_len() {
    }
}

/// Confirms that the calibrations were stored.
#[derive(Debug, Clone, Copy, PartialEq, Eq)]
pub struct InputSetCalibrationsRes;

impl Wire for InputSetCalibrationsRes {
    open spec fn wire(&self) -> Seq<u8> {
        Seq::empty()
    }

    open spec fn wire_len() -> nat {
        0
    }

    proof fn lemma_wire_len(&self) {
    }

    proof fn lemma_wire_injective(&self, other: &Self) {
    }

    fn size() -> (n: usize) {
        0
    }

    fn encode_into(&self, out: &mut Vec<u8>) {
        assert(out@ =~= old(out)@ + Seq::<u8>::empty());
    }

    fn decode_at(bytes: &[u8], at: usize) -> (r: Self) {
        assert(bytes@.subrange(at as int, at as int) =~= Seq::<u8>::empty());
        InputSetCalibrationsRes
    }
}

impl Payload for InputSetCalibrationsRes {
    proof fn lemma_payload_len() {
    }
}

/// Asks for the input calibrations.
#[derive(Debug, Clone, Copy, PartialEq, Eq)]
pub struct InputGetCalibrationsReq;

impl Wire for InputGetCalibrationsReq {
    open spec fn wire(&self) -> Seq<u8> {
        Seq::empty()
    }

    open spec fn wire_len() -> nat {
        0
    }

    proof fn lemma_wire_len(&self) {
    }

    proof fn lemma_wire_injective(&self, other: &Self) {
    }

    fn size() -> (n: usize) {
        0
    }

    fn encode_into(&self, out: &mut Vec<u8>) {
        assert(out@ =~= old(out)@ + Seq::<u8>::empty());
    }

    fn decode_at(bytes: &[u8], at: usize) -> (r: Self) {
        assert(bytes@.subrange(at as int, at as int) =~= Seq::<u8>::empty());
        InputGetCalibrationsReq
    }
}

impl Payload for InputGetCalibrationsReq {
    proof fn lemma_payload_len() {
    }
}

/// The calibrations of the sixteen inputs.
#[derive(Debug, Clone, Copy, PartialEq, Eq)]
pub struct InputGetCalibrationsRes(pub [InputCalibration; 16]);

impl Wire for InputGetCalibrationsRes {
    open spec fn wire(&self) -> Seq<u8> {
        seq_wire(self.0@)
    }

    open spec fn wire_len() -> nat {
        160
    }

    proof fn lemma_wire_len(&self) {
        lemma_seq_wire_len(self.0@);
    }

    proof fn lemma_wire_injective(&self, other: &Self) {
        self.lemma_wire_len();
        other.lemma_wire_len();
        lemma_seq_wire_len(self.0@);
        lemma_seq_wire_len(other.0@);
        lemma_seq_wire_injective(self.0@, other.0@);
        assert(self.0 =~= other.0);
    }

    fn size() -> (n: usize) {
        160
    }

    fn encode_into(&self, out: &mut Vec<u8>) {
        encode_array(&self.0, out);
        assert(out@ =~= old(out)@ + self.wire());
    }

    fn decode_at(bytes: &[u8], at: usize) -> (r: Self) {
        let fill = InputCalibration { multiply: 0, divide: 0, add: 0, min: 0, max: 0 };
        let items: [InputCalibration; 16] = decode_array(bytes, at, fill);
        let r = InputGetCalibrationsRes(items);
        r
    }
}

impl Payload for InputGetCalibrationsRes {
    proof fn lemma_payload_len() {
    }
}

/// The two-sided threshold of one input and its debounce criteria. A debounced
/// crossing is recorded when both criteria are met.
#[derive(Debug, Clone, Copy, PartialEq, Eq)]
pub struct InputThreshold {
    /// A value above this is above the threshold. Default is `32767`.
    pub threshold_high: i16,
    /// A value below this is below the threshold. Default is `-32768`.
    pub threshold_low: i16,
    /// The time in microseconds that the value must have stayed past the threshold.
    /// Default is `0`.
    pub debounce_time_us: u32,
    /// The number of consecutive readings after the first that must have stayed past
    /// the threshold. Default is `0`.
    pub debounce_count: u16,
}

impl Wire for InputThreshold {
    open spec fn wire(&self) -> Seq<u8> {
        self.threshold_high.wire()
            + self.threshold_low.wire()
            + self.debounce_time_us.wire()
            + self.debounce_count.wire()
    }

    open spec fn wire_len() -> nat {
        10
    }

    proof fn lemma_wire_len(&self) {
        self.threshold_high.lemma_wire_len();
        self.threshold_low.lemma_wire_len();
        self.debounce_time_us.lemma_wire_len();
        self.debounce_count.lemma_wire_len();
    }

    proof fn lemma_wire_injective(&self, other: &Self) {
        self.lemma_wire_len();
        other.lemma_wire_len();
        self.threshold_high.lemma_wire_len();
        other.threshold_high.lemma_wire_len();
        self.threshold_low.lemma_wire_len();
        other.threshold_low.lemma_wire_len();
        self.debounce_time_us.lemma_wire_len();
        other.debounce_time_us.lemma_wire_len();
        self.debounce_count.lemma_wire_len();
        other.debounce_count.lemma_wire_len();
        assert(self.wire().subrange(0, 2) =~= self.threshold_high.wire());
        assert(other.wire().subrange(0, 2) =~= other.threshold_high.wire());
        assert(self.wire().subrange(2, 4) =~= self.threshold_low.wire());
        assert(other.wire().subrange(2, 4) =~= other.threshold_low.wire());
        assert(self.wire().subrange(4, 8) =~= self.debounce_time_us.wire());
        assert(other.wire().subrange(4, 8) =~= other.debounce_time_us.wire());
        assert(self.wire().subrange(8, 10) =~= self.debounce_count.wire());
        assert(other.wire().subrange(8, 10) =~= other.debounce_count.wire());
        self.threshold_high.lemma_wire_injective(&other.threshold_high);
        self.threshold_low.lemma_wire_injective(&other.threshold_low);
        self.debounce_time_us.lemma_wire_injective(&other.debounce_time_us);
        self.debounce_count.lemma_wire_injective(&other.debounce_count);
    }

    fn size() -> (n: usize) {
        10
    }

    fn encode_into(&self, out: &mut Vec<u8>) {
        self.threshold_high.encode_into(out);
        self.threshold_low.encode_into(out);
        self.debounce_time_us.encode_into(out);
        self.debounce_count.encode_into(out);
        assert(out@ =~= old(out)@ + self.wire());
    }

    fn decode_at(bytes: &[u8], at: usize) -> (r: Self) {
        let threshold_high = i16::decode_at(bytes, at);
        let threshold_low = i16::decode_at(bytes, at + 2);
        let debounce_time_us = u32::decode_at(bytes, at + 4);
        let debounce_count = u16::decode_at(bytes, at + 8);
        let r = InputThreshold {
            threshold_high,
            threshold_low,
            debounce_time_us,
            debounce_count,
        };
        assert(bytes@.subrange(at as int, at + 10) =~= bytes@.subrange(at as int, at + 2)
            + bytes@.subrange(at + 2, at + 4)
            + bytes@.subrange(at + 4, at + 8)
            + bytes@.subrange(at + 8, at + 10));
        r
    }
}

/// Sets the thresholds of the sixteen inputs. Persists across reboots.
#[derive(Debug, Clone, Copy, PartialEq, Eq)]
pub struct InputSetThresholdsReq(pub [InputThreshold; 16]);

impl Wire for InputSetThresholdsReq {
    open spec fn wire(&self) -> Seq<u8> {
        seq_wire(self.0@)
    }

    open spec fn wire_len() -> nat {
        160
    }

    proof fn lemma_wire_len(&self) {
        lemma_seq_wire_len(self.0@);
    }

    proof fn lemma_wire_injective(&self, other: &Self) {
        self.lemma_wire_len();
        other.lemma_wire_len();
        lemma_seq_wire_len(self.0@);
        lemma_seq_wire_len(other.0@);
        lemma_seq_wire_injective(self.0@, other.0@);
        assert(self.0 =~= other.0);
    }

    fn size() -> (n: usize) {
        160
    }

    fn encode_into(&self, out: &mut Vec<u8>) {
        encode_array(&self.0, out);
        assert(out@ =~= old(out)@ + self.wire());
    }

    fn decode_at(bytes: &[u8], at: usize) -> (r: Self) {
        let fill = InputThreshold {
            threshold_high: 0,
            threshold_low: 0,
            debounce_time_us: 0,
            debounce_count: 0,
        };
        let items: [InputThreshold; 16] = decode_array(bytes, at, fill);
        let r = InputSetThresholdsReq(items);
        r
    }
}

impl Payload for InputSetThresholdsReq {
    proof fn lemma_payload_len() {
    }
}

/// Confirms that the thresholds were stored.
#[derive(Debug, Clone, Copy, PartialEq, Eq)]
pub struct InputSetThresholdsRes;

impl Wire for InputSetThresholdsRes {
    open spec fn wire(&self) -> Seq<u8> {
        Seq::empty()
    }

    open spec fn wire_len() -> nat {
        0
    }

    proof fn lemma_wire_len(&self) {
    }

    proof fn lemma_wire_injective(&self, other: &Self) {
    }

    fn size() -> (n: usize) {
        0
    }

    fn encode_into(&self, out: &mut Vec<u8>) {
        assert(out@ =~= old(out)@ + Seq::<u8>::empty());
    }

    fn decode_at(bytes: &[u8], at: usize) -> (r: Self) {
        assert(bytes@.subrange(at as int, at as int) =~= Seq::<u8>::empty());
        InputSetThresholdsRes
    }
}

impl Payload for InputSetThresholdsRes {
    proof fn lemma_payload_len() {
    }
}

/// Asks for the input thresholds.
#[derive(Debug, Clone, Copy, PartialEq, Eq)]
pub struct InputGetThresholdsReq;

impl Wire for InputGetThresholdsReq {
    open spec fn wire(&self) -> Seq<u8> {
        Seq::empty()
    }

    open spec fn wire_len() -> nat {
        0
    }

    proof fn lemma_wire_len(&self) {
    }

    proof fn lemma_wire_injective(&self, other: &Self) {
    }

    fn size() -> (n: usize) {
        0
    }

    fn encode_into(&self, out: &mut Vec<u8>) {
        assert(out@ =~= old(out)@ + Seq::<u8>::empty());
    }

    fn decode_at(bytes: &[u8], at: usize) -> (r: Self) {
        assert(bytes@.subrange(at as int, at as int) =~= Seq::<u8>::empty());
        InputGetThresholdsReq
    }
}

impl Payload for InputGetThresholdsReq {
    proof fn lemma_payload_len() {
    }
}

/// The thresholds of the sixteen inputs.
#[derive(Debug, Clone, Copy, PartialEq, Eq)]
pub struct InputGetThresholdsRes(pub [InputThreshold; 16]);

impl Wire for InputGetThresholdsRes {
    open spec fn wire(&self) -> Seq<u8> {
        seq_wire(self.0@)
    }

    open spec fn wire_len() -> nat {
        160
    }

    proof fn lemma_wire_len(&self) {
        lemma_seq_wire_len(self.0@);
    }

    proof fn lemma_wire_injective(&self, other: &Self) {
        self.lemma_wire_len();
        other.lemma_wire_len();
        lemma_seq_wire_len(self.0@);
        lemma_seq_wire_len(other.0@);
        lemma_seq_wire_injective(self.0@, other.0@);
        assert(self.0 =~= other.0);
    }

    fn size() -> (n: usize) {
        160
    }

    fn encode_into(&self, out: &mut Vec<u8>) {
        encode_array(&self.0, out);
        assert(out@ =~= old(out)@ + self.wire());
    }

    fn decode_at(bytes: &[u8], at: usize) -> (r: Self) {
        let fill = InputThreshold {
            threshold_high: 0,
            threshold_low: 0,
            debounce_time_us: 0,
            debounce_count: 0,
        };
        let items: [InputThreshold; 16] = decode_array(bytes, at, fill);
        let r = InputGetThresholdsRes(items);
        r
    }
}

impl Payload for InputGetThresholdsRes {
    proof fn lemma_payload_len() {
    }
}

/// Asks for the times of the last debounced threshold crossings.
#[derive(Debug, Clone, Copy, PartialEq, Eq)]
pub struct InputGetThresholdTimesReq;

impl Wire for InputGetThresholdTimesReq {
    open spec fn wire(&self) -> Seq<u8> {
        Seq::empty()
    }

    open spec fn wire_len() -> nat {
        0
    }

    proof fn lemma_wire_len(&self) {
    }

    proof fn lemma_wire_injective(&self, other: &Self) {
    }

    fn size() -> (n: usize) {
        0
    }

    fn encode_into(&self, out: &mut Vec<u8>) {
        assert(out@ =~= old(out)@ + Seq::<u8>::empty());
    }

    fn decode_at(bytes: &[u8], at: usize) -> (r: Self) {
        assert(bytes@.subrange(at as int, at as int) =~= Seq::<u8>::empty());
        InputGetThresholdTimesReq
    }
}

impl Payload for InputGetThresholdTimesReq {
    proof fn lemma_payload_len() {
    }
}

/// The last debounced crossings of one input, in microseconds since boot. Each is
/// the time of the first reading past the threshold, not the time at which the
/// debounce criteria were met.
#[derive(Debug, Clone, Copy, PartialEq, Eq)]
pub struct InputThresholdTimes {
    /// The last crossing below `threshold_low`.
    pub last_low: u64,
    /// The last crossing above `threshold_high`.
    pub last_high: u64,
}

impl Wire for InputThresholdTimes {
    open spec fn wire(&self) -> Seq<u8> {
        self.last_low.wire() + self.last_high.wire()
    }

    open spec fn wire_len() -> nat {
        16
    }

    proof fn lemma_wire_len(&self) {
        self.last_low.lemma_wire_len();
        self.last_high.lemma_wire_len();
    }

    proof fn lemma_wire_injective(&self, other: &Self) {
        self.lemma_wire_len();
        other.lemma_wire_len();
        self.last_low.lemma_wire_len();
        other.last_low.lemma_wire_len();
        self.last_high.lemma_wire_len();
        other.last_high.lemma_wire_len();
        assert(self.wire().subrange(0, 8) =~= self.last_low.wire());
        assert(other.wire().subrange(0, 8) =~= other.last_low.wire());
        assert(self.wire().subrange(8, 16) =~= self.last_high.wire());
        assert(other.wire().subrange(8, 16) =~= other.last_high.wire());
        self.last_low.lemma_wire_injective(&other.last_low);
        self.last_high.lemma_wire_injective(&other.last_high);
    }

    fn size() -> (n: usize) {
        16
    }

    fn encode_into(&self, out: &mut Vec<u8>) {
        self.last_low.encode_into(out);
        self.last_high.encode_into(out);
        assert(out@ =~= old(out)@ + self.wire());
    }

    fn decode_at(bytes: &[u8], at: usize) -> (r: Self) {
        let last_low = u64::decode_at(bytes, at);
        let last_high = u64::decode_at(bytes, at + 8);
        let r = InputThresholdTimes { last_low, last_high };
        assert(bytes@.subrange(at as int, at + 16) =~= bytes@.subrange(at as int, at + 8)
            + bytes@.subrange(at + 8, at + 16));
        r
    }
}

/// The crossing times of the sixteen inputs.
#[derive(Debug, Clone, Copy, PartialEq, Eq)]
pub struct InputGetThresholdTimesRes {
    /// The time of the answer in microseconds since boot.
    pub now: u64,
    /// One entry for each input.
    pub inputs: [InputThresholdTimes; 16],
}

impl Wire for InputGetThresholdTimesRes {
    open spec fn wire(&self) -> Seq<u8> {
        self.now.wire() + seq_wire(self.inputs@)
    }

    open spec fn wire_len() -> nat {
        264
    }

    proof fn lemma_wire_len(&self) {
        self.now.lemma_wire_len();
        lemma_seq_wire_len(self.inputs@);
    }

    proof fn lemma_wire_injective(&self, other: &Self) {
        self.lemma_wire_len();
        other.lemma_wire_len();
        self.now.lemma_wire_len();
        other.now.lemma_wire_len();
        lemma_seq_wire_len(self.inputs@);
        lemma_seq_wire_len(other.inputs@);
        assert(self.wire().subrange(0, 8) =~= self.now.wire());
        assert(other.wire().subrange(0, 8) =~= other.now.wire());
        assert(self.wire().subrange(8, 264) =~= seq_wire(self.inputs@));
        assert(other.wire().subrange(8, 264) =~= seq_wire(other.inputs@));
        self.now.lemma_wire_injective(&other.now);
        lemma_seq_wire_injective(self.inputs@, other.inputs@);
        assert(self.inputs =~= other.inputs);
    }

    fn size() -> (n: usize) {
        264
    }

    fn encode_into(&self, out: &mut Vec<u8>) {
        self.now.encode_into(out);
        encode_array(&self.inputs, out);
        assert(out@ =~= old(out)@ + self.wire());
    }

    fn decode_at(bytes: &[u8], at: usize) -> (r: Self) {
        let now = u64::decode_at(bytes, at);
        let fill = InputThresholdTimes { last_low: 0, last_high: 0 };
        let inputs: [InputThresholdTimes; 16] = decode_array(bytes, at + 8, fill);
        let r = InputGetThresholdTimesRes { now, inputs };
        assert(bytes@.subrange(at as int, at + 264) =~= bytes@.subrange(at as int, at + 8)
            + bytes@.subrange(at + 8, at + 264));
        r
    }
}

impl Payload for InputGetThresholdTimesRes {
    proof fn lemma_payload_len() {
    }
}

/// Asks for the current threshold states.
#[derive(Debug, Clone, Copy, PartialEq, Eq)]
pub struct InputGetThresholdStatesReq;

impl Wire for InputGetThresholdStatesReq {
    open spec fn wire(&self) -> Seq<u8> {
        Seq::empty()
    }

    open spec fn wire_len() -> nat {
        0
    }

    proof fn lemma_wire_len(&self) {
    }

    proof fn lemma_wire_injective(&self, other: &Self) {
    }

    fn size() -> (n: usize) {
        0
    }

    fn encode_into(&self, out: &mut Vec<u8>) {
        assert(out@ =~= old(out)@ + Seq::<u8>::empty());
    }

    fn decode_at(bytes: &[u8], at: usize) -> (r: Self) {
        assert(bytes@.subrange(at as int, at as int) =~= Seq::<u8>::empty());
        InputGetThresholdStatesReq
    }
}

impl Payload for InputGetThresholdStatesReq {
    proof fn lemma_payload_len() {
    }
}

/// The current threshold states, one bit for each input.
#[derive(Debug, Clone, Copy, PartialEq, Eq)]
pub struct InputGetThresholdStatesRes {
    /// The inputs whose last debounced crossing went above `threshold_high`.
    pub above: u16,
    /// The inputs whose last debounced crossing went below `threshold_low`.
    pub below: u16,
}

impl Wire for InputGetThresholdStatesRes {
    open spec fn wire(&self) -> Seq<u8> {
        self.above.wire() + self.below.wire()
    }

    open spec fn wire_len() -> nat {
        4
    }

    proof fn lemma_wire_len(&self) {
        self.above.lemma_wire_len();
        self.below.lemma_wire_len();
    }

    proof fn lemma_wire_injective(&self, other: &Self) {
        self.lemma_wire_len();
        other.lemma_wire_len();
        self.above.lemma_wire_len();
        other.above.lemma_wire_len();
        self.below.lemma_wire_len();
        other.below.lemma_wire_len();
        assert(self.wire().subrange(0, 2) =~= self.above.wire());
        assert(other.wire().subrange(0, 2) =~= other.above.wire());
        assert(self.wire().subrange(2, 4) =~= self.below.wire());
        assert(other.wire().subrange(2, 4) =~= other.below.wire());
        self.above.lemma_wire_injective(&other.above);
        self.below.lemma_wire_injective(&other.below);
    }

    fn size() -> (n: usize) {
        4
    }

    fn encode_into(&self, out: &mut Vec<u8>) {
        self.above.encode_into(out);
        self.below.encode_into(out);
        assert(out@ =~= old(out)@ + self.wire());
    }

    fn decode_at(bytes: &[u8], at: usize) -> (r: Self) {
        let above = u16::decode_at(bytes, at);
        let below = u16::decode_at(bytes, at + 2);
        let r = InputGetThresholdStatesRes { above, below };
        assert(bytes@.subrange(at as int, at + 4) =~= bytes@.subrange(at as int, at + 2)
            + bytes@.subrange(at + 2, at + 4));
        r
    }
}

impl Payload for InputGetThresholdStatesRes {
    proof fn lemma_payload_len() {
    }
}

/// The device configuration. Takes effect after a reboot.
#[derive(Debug, Clone, Copy, PartialEq, Eq)]
pub struct Config {
    /// Device address. Address `0xFFFF` stands for an unconfigured device.
    pub address: u16,
    /// The baudrate of the bus.
    pub baudrate: u32,
    /// Not used.
    pub reserved: [u8; 2],
}

impl Wire for Config {
    open spec fn wire(&self) -> Seq<u8> {
        self.address.wire() + self.baudrate.wire() + seq_wire(self.reserved@)
    }

    open spec fn wire_len() -> nat {
        8
    }

    proof fn lemma_wire_len(&self) {
        self.address.lemma_wire_len();
        self.baudrate.lemma_wire_len();
        lemma_seq_wire_len(self.reserved@);
    }

    proof fn lemma_wire_injective(&self, other: &Self) {
        self.lemma_wire_len();
        other.lemma_wire_len();
        self.address.lemma_wire_len();
        other.address.lemma_wire_len();
        self.baudrate.lemma_wire_len();
        other.baudrate.lemma_wire_len();
        lemma_seq_wire_len(self.reserved@);
        lemma_seq_wire_len(other.reserved@);
        assert(self.wire().subrange(0, 2) =~= self.address.wire());
        assert(other.wire().subrange(0, 2) =~= other.address.wire());
        assert(self.wire().subrange(2, 6) =~= self.baudrate.wire());
        assert(other.wire().subrange(2, 6) =~= other.baudrate.wire());
        assert(self.wire().subrange(6, 8) =~= seq_wire(self.reserved@));
        assert(other.wire().subrange(6, 8) =~= seq_wire(other.reserved@));
        self.address.lemma_wire_injective(&other.address);
        self.baudrate.lemma_wire_injective(&other.baudrate);
        lemma_seq_wire_injective(self.reserved@, other.reserved@);
        assert(self.reserved =~= other.reserved);
    }

    fn size() -> (n: usize) {
        8
    }

    fn encode_into(&self, out: &mut Vec<u8>) {
        self.address.encode_into(out);
        self.baudrate.encode_into(out);
        encode_array(&self.reserved, out);
        assert(out@ =~= old(out)@ + self.wire());
    }

    fn decode_at(bytes: &[u8], at: usize) -> (r: Self) {
        let address = u16::decode_at(bytes, at);
        let baudrate = u32::decode_at(bytes, at + 2);
        let reserved: [u8; 2] = decode_array(bytes, at + 6, 0u8);
        let r = Config { address, baudrate, reserved };
        assert(bytes@.subrange(at as int, at + 8) =~= bytes@.subrange(at as int, at + 2)
            + bytes@.subrange(at + 2, at + 6)
            + bytes@.subrange(at + 6, at + 8));
        r
    }
}

/// Asks for the device configuration.
#[derive(Debug, Clone, Copy, PartialEq, Eq)]
pub struct ConfigGetReq;

impl Wire for ConfigGetReq {
    open spec fn wire(&self) -> Seq<u8> {
        Seq::empty()
    }

    open spec fn wire_len() -> nat {
        0
    }

    proof fn lemma_wire_len(&self) {
    }

    proof fn lemma_wire_injective(&self, other: &Self) {
    }

    fn size() -> (n: usize) {
        0
    }

    fn encode_into(&self, out: &mut Vec<u8>) {
        assert(out@ =~= old(out)@ + Seq::<u8>::empty());
    }

    fn decode_at(bytes: &[u8], at: usize) -> (r: Self) {
        assert(bytes@.subrange(at as int, at as int) =~= Seq::<u8>::empty());
        ConfigGetReq
    }
}

impl Payload for ConfigGetReq {
    proof fn lemma_payload_len() {
    }
}

/// The device configuration.
#[derive(Debug, Clone, Copy, PartialEq, Eq)]
pub struct ConfigGetRes(pub Config);

impl Wire for ConfigGetRes {
    open spec fn wire(&self) -> Seq<u8> {
        self.0.wire()
    }

    open spec fn wire_len() -> nat {
        8
    }

    proof fn lemma_wire_len(&self) {
        self.0.lemma_wire_len();
    }

    proof fn lemma_wire_injective(&self, other: &Self) {
        self.lemma_wire_len();
        other.lemma_wire_len();
        self.0.lemma_wire_len();
        other.0.lemma_wire_len();
        self.0.lemma_wire_injective(&other.0);
    }

    fn size() -> (n: usize) {
        8
    }

    fn encode_into(&self, out: &mut Vec<u8>) {
        self.0.encode_into(out);
        assert(out@ =~= old(out)@ + self.wire());
    }

    fn decode_at(bytes: &[u8], at: usize) -> (r: Self) {
        let items = Config::decode_at(bytes, at);
        let r = ConfigGetRes(items);
        r
    }
}

impl Payload for ConfigGetRes {
    proof fn lemma_payload_len() {
    }
}

/// Sets the device configuration. Persists across reboots.
#[derive(Debug, Clone, Copy, PartialEq, Eq)]
pub struct ConfigSetReq(pub Config);

impl Wire for ConfigSetReq {
    open spec fn wire(&self) -> Seq<u8> {
        self.0.wire()
    }

    open spec fn wire_len() -> nat {
        8
    }

    proof fn lemma_wire_len(&self) {
        self.0.lemma_wire_len();
    }

    proof fn lemma_wire_injective(&self, other: &Self) {
        self.lemma_wire_len();
        other.lemma_wire_len();
        self.0.lemma_wire_len();
        other.0.lemma_wire_len();
        self.0.lemma_wire_injective(&other.0);
    }

    fn size() -> (n: usize) {
        8
    }

    fn encode_into(&self, out: &mut Vec<u8>) {
        self.0.encode_into(out);
        assert(out@ =~= old(out)@ + self.wire());
    }

    fn decode_at(bytes: &[u8], at: usize) -> (r: Self) {
        let items = Config::decode_at(bytes, at);
        let r = ConfigSetReq(items);
        r
    }
}

impl Payload for ConfigSetReq {
    proof fn lemma_payload_len() {
    }
}

/// Confirms that the configuration was stored.
#[derive(Debug, Clone, Copy, PartialEq, Eq)]
pub struct ConfigSetRes;

impl Wire for ConfigSetRes {
    open spec fn wire(&self) -> Seq<u8> {
        Seq::empty()
    }

    open spec fn wire_len() -> nat {
        0
    }

    proof fn lemma_wire_len(&self) {
    }

    proof fn lemma_wire_injective(&self, other: &Self) {
    }

    fn size() -> (n: usize) {
        0
    }

    fn encode_into(&self, out: &mut Vec<u8>) {
        assert(out@ =~= old(out)@ + Seq::<u8>::empty());
    }

    fn decode_at(bytes: &[u8], at: usize) -> (r: Self) {
        assert(bytes@.subrange(at as int, at as int) =~= Seq::<u8>::empty());
        ConfigSetRes
    }
}

impl Payload for ConfigSetRes {
    proof fn lemma_payload_len() {
    }
}

/// Asks the device to reboot.
#[derive(Debug, Clone, Copy, PartialEq, Eq)]
pub struct RebootReq;

impl Wire for RebootReq {
    open spec fn wire(&self) -> Seq<u8> {
        Seq::empty()
    }

    open spec fn wire_len() -> nat {
        0
    }

    proof fn lemma_wire_len(&self) {
    }

    proof fn lemma_wire_injective(&self, other: &Self) {
    }

    fn size() -> (n: usize) {
        0
    }

    fn encode_into(&self, out: &mut Vec<u8>) {
        assert(out@ =~= old(out)@ + Seq::<u8>::empty());
    }

    fn decode_at(bytes: &[u8], at: usize) -> (r: Self) {
        assert(bytes@.subrange(at as int, at as int) =~= Seq::<u8>::empty());
        RebootReq
    }
}

impl Payload for RebootReq {
    proof fn lemma_payload_len() {
    }
}

/// Confirms that the device is about to reboot.
#[derive(Debug, Clone, Copy, PartialEq, Eq)]
pub struct RebootRes;

impl Wire for RebootRes {
    open spec fn wire(&self) -> Seq<u8> {
        Seq::empty()
    }

    open spec fn wire_len() -> nat {
        0
    }

    proof fn lemma_wire_len(&self) {
    }

    proof fn lemma_wire_injective(&self, other: &Self) {
    }

    fn size() -> (n: usize) {
        0
    }

    fn encode_into(&self, out: &mut Vec<u8>) {
        assert(out@ =~= old(out)@ + Seq::<u8>::empty());
    }

    fn decode_at(bytes: &[u8], at: usize) -> (r: Self) {
        assert(bytes@.subrange(at as int, at as int) =~= Seq::<u8>::empty());
        RebootRes
    }
}

impl Payload for RebootRes {
    proof fn lemma_payload_len() {
    }
}

impl OutputSetReq {
    /// All outputs off, at 1000 Hz.
    pub fn default() -> (req: OutputSetReq)
        ensures
            forall|i: int|
                0 <= i < 8 ==> (#[trigger] req.0@[i]).frequency == 1000 && req.0@[i].duty_cycle@
                    == seq![0u16, 0u16],
    {
        let group = OutputGroup { duty_cycle: [0u16; 2], frequency: 1000 };
        assert(group.duty_cycle@ =~= seq![0u16, 0u16]);
        OutputSetReq([group; 8])
    }
}

} // verus!
