//! The non-volatile store: one 4096-byte flash page that holds the device
//! configuration, sixteen calibrations and sixteen thresholds, and the cached
//! copy that the handlers read and replace.
//!
//! Page layout, little-endian, without padding between the records:
//!
//! ```text
//! offset size  content
//! 0      8     configuration: address u16, baudrate u32, two reserved bytes
//! 8      160   16 calibrations: multiply, divide, add, min, max (i16 each)
//! 168    160   16 thresholds: high i16, low i16, debounce time u32, debounce count u16
//! 328    3768  0xFF
//! ```
//!
//! Calibrations and thresholds are stored XOR a mask per field, chosen so that
//! an erased page, all bytes `0xFF`, reads as the defaults:
//!
//! ```text
//! field             mask        erased page reads as
//! multiply          0xFFFE      1
//! divide            0xFFFE      1
//! add               0xFFFF      0
//! min               0x7FFF      -32768
//! max               0x8000      32767
//! threshold_high    0x8000      32767
//! threshold_low     0x7FFF      -32768
//! debounce_time_us  0xFFFFFFFF  0
//! debounce_count    0xFFFF      0
//! ```
//!
//! The configuration is stored as it is: an erased page reads as address
//! `0xFFFF`, the address of an unconfigured device, and baudrate `0xFFFFFFFF`,
//! which stands for "not set".
use crate::bytes::{
    bits_i16, decode_array, encode_array, i16_bits, i16_from_bits, i16_to_bits,
    lemma_seq_wire_injective, lemma_seq_wire_item, lemma_seq_wire_len, seq_wire, Wire,
};
use crate::payload::{
    Config, ConfigGetRes, ConfigSetReq, ConfigSetRes, InputCalibration, InputGetCalibrationsRes,
    InputGetThresholdsRes, InputSetCalibrationsReq, InputSetCalibrationsRes,
    InputSetThresholdsReq, InputSetThresholdsRes, InputThreshold,
};
use vstd::prelude::*;

verus! {

/// Bytes of the flash page.
pub const PAGE_LEN: usize = 4096;

/// Bytes of the page that hold data; the rest is `0xFF`.
pub const DATA_LEN: usize = 328;

pub const MASK_MULTIPLY: u16 = 0xFFFE;

pub const MASK_DIVIDE: u16 = 0xFFFE;

pub const MASK_ADD: u16 = 0xFFFF;

pub const MASK_MIN: u16 = 0x7FFF;

pub const MASK_MAX: u16 = 0x8000;

pub const MASK_THRESHOLD_HIGH: u16 = 0x8000;

pub const MASK_THRESHOLD_LOW: u16 = 0x7FFF;

pub const MASK_DEBOUNCE_TIME: u32 = 0xFFFF_FFFF;

pub const MASK_DEBOUNCE_COUNT: u16 = 0xFFFF;

/// The quotient of `a` by `b`, rounded towards zero.
pub open spec fn trunc_div(a: int, b: int) -> int {
    if b > 0 {
        if a >= 0 {
            a / b
        } else {
            -((-a) / b)
        }
    } else {
        if a >= 0 {
            -(a / (-b))
        } else {
            (-a) / (-b)
        }
    }
}

/// `x`, raised to `lo` if it is below and then lowered to `hi` if it is above.
pub open spec fn clamp(x: int, lo: int, hi: int) -> int {
    let raised = if x < lo {
        lo
    } else {
        x
    };
    if raised > hi {
        hi
    } else {
        raised
    }
}

/// The signed value whose bit pattern is that of `x` XOR `mask`.
pub open spec fn mask_i16(x: i16, mask: u16) -> i16 {
    bits_i16(i16_bits(x) ^ mask)
}

pub proof fn lemma_xor_twice_u16(x: u16, mask: u16)
    ensures
        (x ^ mask) ^ mask == x,
{
    assert((x ^ mask) ^ mask == x) by (bit_vector);
}

pub proof fn lemma_xor_twice_u32(x: u32, mask: u32)
    ensures
        (x ^ mask) ^ mask == x,
{
    assert((x ^ mask) ^ mask == x) by (bit_vector);
}

/// Masking twice with one mask gives the value back.
pub proof fn lemma_mask_twice(x: i16, mask: u16)
    ensures
        mask_i16(mask_i16(x, mask), mask) == x,
{
    lemma_xor_twice_u16(i16_bits(x), mask);
}

fn masked(x: i16, mask: u16) -> (r: i16)
    ensures
        r == mask_i16(x, mask),
{
    i16_from_bits(i16_to_bits(x) ^ mask)
}

/// The calibration of one input, as the input engine applies it.
#[derive(Debug, Clone, Copy, PartialEq, Eq)]
pub struct Calibration {
    /// The value to multiply the raw reading by.
    pub multiply: i16,
    /// The value to divide by after the multiplication. Not zero.
    pub divide: i16,
    /// The value to add after the division.
    pub add: i16,
    /// The least calibrated value.
    pub min: i16,
    /// The greatest calibrated value.
    pub max: i16,
}

impl Calibration {
    /// The calibrated value of a raw reading:
    /// `clamp(value * multiply / divide + add, min, max)`, the division rounding
    /// towards zero. Where `min` is above `max` the result is `max`.
    pub open spec fn applied(&self, value: u16) -> int {
        clamp(
            trunc_div(value * self.multiply, self.divide as int) + self.add,
            self.min as int,
            self.max as int,
        )
    }

    /// The form in which the calibration is stored: each field XOR its mask.
    pub open spec fn stored(&self) -> InputCalibration {
        InputCalibration {
            multiply: mask_i16(self.multiply, MASK_MULTIPLY),
            divide: mask_i16(self.divide, MASK_DIVIDE),
            add: mask_i16(self.add, MASK_ADD),
            min: mask_i16(self.min, MASK_MIN),
            max: mask_i16(self.max, MASK_MAX),
        }
    }

    /// The calibration as it goes over the bus: the same five values.
    pub open spec fn to_input_spec(&self) -> InputCalibration {
        InputCalibration {
            multiply: self.multiply,
            divide: self.divide,
            add: self.add,
            min: self.min,
            max: self.max,
        }
    }

    /// The calibration that the input engine starts from on an erased page.
    pub open spec fn default_value() -> Calibration {
        Calibration { multiply: 1, divide: 1, add: 0, min: i16::MIN, max: i16::MAX }
    }

    /// Maps a raw reading to its calibrated value, in 32-bit arithmetic.
    pub fn apply(&self, value: u16) -> (r: i16)
        requires
            self.divide != 0,
        ensures
            r == self.applied(value),
    {
        assert(-0x7FFF_8000 <= value * self.multiply <= 0x7FFF_8000) by (nonlinear_arith)
            requires
                0 <= value <= 0xFFFF,
                -0x8000 <= self.multiply <= 0x7FFF,
        ;
        let product: i32 = (value as i32) * (self.multiply as i32);
        let divisor: i32 = self.divide as i32;
        let quotient: i32 = if divisor > 0 {
            proof {
                lemma_trunc_div_bound(product as int, divisor as int);
            }
            product / divisor
        } else {
            proof {
                lemma_trunc_div_bound(product as int, -(divisor as int));
            }
            -(product / (-divisor))
        };
        let shifted: i32 = quotient + self.add as i32;
        let raised: i32 = if shifted < self.min as i32 {
            self.min as i32
        } else {
            shifted
        };
        if raised > self.max as i32 {
            self.max
        } else {
            raised as i16
        }
    }

    pub fn from_input(value: InputCalibration) -> (r: Calibration)
        ensures
            r.to_input_spec() == value,
    {
        Calibration {
            multiply: value.multiply,
            divide: value.divide,
            add: value.add,
            min: value.min,
            max: value.max,
        }
    }

    pub fn to_input(&self) -> (r: InputCalibration)
        ensures
            r == self.to_input_spec(),
    {
        InputCalibration {
            multiply: self.multiply,
            divide: self.divide,
            add: self.add,
            min: self.min,
            max: self.max,
        }
    }

    fn to_stored(&self) -> (r: InputCalibration)
        ensures
            r == self.stored(),
    {
        InputCalibration {
            multiply: masked(self.multiply, MASK_MULTIPLY),
            divide: masked(self.divide, MASK_DIVIDE),
            add: masked(self.add, MASK_ADD),
            min: masked(self.min, MASK_MIN),
            max: masked(self.max, MASK_MAX),
        }
    }

    fn from_stored(value: &InputCalibration) -> (r: Calibration)
        ensures
            r.stored() == *value,
    {
        proof {
            lemma_mask_twice(value.multiply, MASK_MULTIPLY);
            lemma_mask_twice(value.divide, MASK_DIVIDE);
            lemma_mask_twice(value.add, MASK_ADD);
            lemma_mask_twice(value.min, MASK_MIN);
            lemma_mask_twice(value.max, MASK_MAX);
        }
        Calibration {
            multiply: masked(value.multiply, MASK_MULTIPLY),
            divide: masked(value.divide, MASK_DIVIDE),
            add: masked(value.add, MASK_ADD),
            min: masked(value.min, MASK_MIN),
            max: masked(value.max, MASK_MAX),
        }
    }

    /// No two calibrations are stored alike.
    pub proof fn lemma_stored_injective(self, other: Calibration)
        requires
            self.stored() == other.stored(),
        ensures
            self == other,
    {
        lemma_mask_twice(self.multiply, MASK_MULTIPLY);
        lemma_mask_twice(self.divide, MASK_DIVIDE);
        lemma_mask_twice(self.add, MASK_ADD);
        lemma_mask_twice(self.min, MASK_MIN);
        lemma_mask_twice(self.max, MASK_MAX);
        lemma_mask_twice(other.multiply, MASK_MULTIPLY);
        lemma_mask_twice(other.divide, MASK_DIVIDE);
        lemma_mask_twice(other.add, MASK_ADD);
        lemma_mask_twice(other.min, MASK_MIN);
        lemma_mask_twice(other.max, MASK_MAX);
    }
}

/// A quotient rounded towards zero is no further from zero than the dividend.
pub proof fn lemma_trunc_div_bound(a: int, b: int)
    requires
        b > 0,
    ensures
        a >= 0 ==> 0 <= a / b <= a,
        a < 0 ==> 0 <= (-a) / b <= -a,
{
    if a >= 0 {
        vstd::arithmetic::div_mod::lemma_div_pos_is_pos(a, b);
        vstd::arithmetic::div_mod::lemma_div_nonincreasing(a, b);
    } else {
        vstd::arithmetic::div_mod::lemma_div_pos_is_pos(-a, b);
        vstd::arithmetic::div_mod::lemma_div_nonincreasing(-a, b);
    }
}

/// The threshold of one input, as the input engine applies it.
#[derive(Debug, Clone, Copy, PartialEq, Eq)]
pub struct Threshold {
    /// The value above which the input is above the threshold.
    pub threshold_high: i16,
    /// The value below which the input is below the threshold.
    pub threshold_low: i16,
    /// The time in microseconds for which the input must have stayed past the
    /// threshold to count as debounced.
    pub debounce_time_us: u32,
    /// The number of consecutive readings after the first that must have stayed
    /// past the threshold to count as debounced.
    pub debounce_count: u16,
}

impl Threshold {
    /// The form in which the threshold is stored: each field XOR its mask.
    pub open spec fn stored(&self) -> InputThreshold {
        InputThreshold {
            threshold_high: mask_i16(self.threshold_high, MASK_THRESHOLD_HIGH),
            threshold_low: mask_i16(self.threshold_low, MASK_THRESHOLD_LOW),
            debounce_time_us: self.debounce_time_us ^ MASK_DEBOUNCE_TIME,
            debounce_count: self.debounce_count ^ MASK_DEBOUNCE_COUNT,
        }
    }

    /// The threshold as it goes over the bus: the same four values.
    pub open spec fn to_input_spec(&self) -> InputThreshold {
        InputThreshold {
            threshold_high: self.threshold_high,
            threshold_low: self.threshold_low,
            debounce_time_us: self.debounce_time_us,
            debounce_count: self.debounce_count,
        }
    }

    /// The threshold that the input engine starts from on an erased page: no
    /// value is past it.
    pub open spec fn default_value() -> Threshold {
        Threshold {
            threshold_high: i16::MAX,
            threshold_low: i16::MIN,
            debounce_time_us: 0,
            debounce_count: 0,
        }
    }

    pub fn from_input(value: InputThreshold) -> (r: Threshold)
        ensures
            r.to_input_spec() == value,
    {
        Threshold {
            threshold_high: value.threshold_high,
            threshold_low: value.threshold_low,
            debounce_time_us: value.debounce_time_us,
            debounce_count: value.debounce_count,
        }
    }

    pub fn to_input(&self) -> (r: InputThreshold)
        ensures
            r == self.to_input_spec(),
    {
        InputThreshold {
            threshold_high: self.threshold_high,
            threshold_low: self.threshold_low,
            debounce_time_us: self.debounce_time_us,
            debounce_count: self.debounce_count,
        }
    }

    fn to_stored(&self) -> (r: InputThreshold)
        ensures
            r == self.stored(),
    {
        InputThreshold {
            threshold_high: masked(self.threshold_high, MASK_THRESHOLD_HIGH),
            threshold_low: masked(self.threshold_low, MASK_THRESHOLD_LOW),
            debounce_time_us: self.debounce_time_us ^ MASK_DEBOUNCE_TIME,
            debounce_count: self.debounce_count ^ MASK_DEBOUNCE_COUNT,
        }
    }

    fn from_stored(value: &InputThreshold) -> (r: Threshold)
        ensures
            r.stored() == *value,
    {
        proof {
            lemma_mask_twice(value.threshold_high, MASK_THRESHOLD_HIGH);
            lemma_mask_twice(value.threshold_low, MASK_THRESHOLD_LOW);
            lemma_xor_twice_u32(value.debounce_time_us, MASK_DEBOUNCE_TIME);
            lemma_xor_twice_u16(value.debounce_count, MASK_DEBOUNCE_COUNT);
        }
        Threshold {
            threshold_high: masked(value.threshold_high, MASK_THRESHOLD_HIGH),
            threshold_low: masked(value.threshold_low, MASK_THRESHOLD_LOW),
            debounce_time_us: value.debounce_time_us ^ MASK_DEBOUNCE_TIME,
            debounce_count: value.debounce_count ^ MASK_DEBOUNCE_COUNT,
        }
    }

    /// No two thresholds are stored alike.
    pub proof fn lemma_stored_injective(self, other: Threshold)
        requires
            self.stored() == other.stored(),
        ensures
            self == other,
    {
        lemma_mask_twice(self.threshold_high, MASK_THRESHOLD_HIGH);
        lemma_mask_twice(self.threshold_low, MASK_THRESHOLD_LOW);
        lemma_xor_twice_u32(self.debounce_time_us, MASK_DEBOUNCE_TIME);
        lemma_xor_twice_u16(self.debounce_count, MASK_DEBOUNCE_COUNT);
        lemma_mask_twice(other.threshold_high, MASK_THRESHOLD_HIGH);
        lemma_mask_twice(other.threshold_low, MASK_THRESHOLD_LOW);
        lemma_xor_twice_u32(other.debounce_time_us, MASK_DEBOUNCE_TIME);
        lemma_xor_twice_u16(other.debounce_count, MASK_DEBOUNCE_COUNT);
    }
}

/// What the flash page holds.
#[derive(Debug, Clone, Copy, PartialEq, Eq)]
pub struct NonvolatileData {
    pub config: Config,
    pub calibrations: [Calibration; 16],
    pub thresholds: [Threshold; 16],
}

pub open spec fn stored_calibrations(items: Seq<Calibration>) -> Seq<InputCalibration> {
    Seq::new(items.len(), |i: int| items[i].stored())
}

pub open spec fn stored_thresholds(items: Seq<Threshold>) -> Seq<InputThreshold> {
    Seq::new(items.len(), |i: int| items[i].stored())
}

/// `n` bytes `0xFF`, as erased flash reads.
pub open spec fn erased(n: nat) -> Seq<u8> {
    Seq::new(n, |i: int| 0xFFu8)
}

impl NonvolatileData {
    /// The first `DATA_LEN` bytes of the page that holds this data.
    pub open spec fn page_data(&self) -> Seq<u8> {
        self.config.wire() + seq_wire(stored_calibrations(self.calibrations@)) + seq_wire(
            stored_thresholds(self.thresholds@),
        )
    }

    /// The page that holds this data.
    pub open spec fn page(&self) -> Seq<u8> {
        self.page_data() + erased((PAGE_LEN - DATA_LEN) as nat)
    }

    /// Whether this is what an erased page reads as.
    pub open spec fn is_default(&self) -> bool {
        &&& self.config.address == 0xFFFF
        &&& self.config.baudrate == 0xFFFF_FFFF
        &&& self.config.reserved@ == seq![0xFFu8, 0xFFu8]
        &&& forall|i: int|
            0 <= i < 16 ==> #[trigger] self.calibrations@[i] == Calibration::default_value()
        &&& forall|i: int|
            0 <= i < 16 ==> #[trigger] self.thresholds@[i] == Threshold::default_value()
    }

    pub proof fn lemma_page_len(&self)
        ensures
            self.page_data().len() == DATA_LEN,
            self.page().len() == PAGE_LEN,
            self.page().subrange(0, DATA_LEN as int) == self.page_data(),
    {
        self.config.lemma_wire_len();
        lemma_seq_wire_len(stored_calibrations(self.calibrations@));
        lemma_seq_wire_len(stored_thresholds(self.thresholds@));
        assert(self.page().subrange(0, DATA_LEN as int) =~= self.page_data());
    }

    /// No two values share the data bytes of their pages.
    pub proof fn lemma_page_injective(&self, other: &NonvolatileData)
        requires
            self.page_data() == other.page_data(),
        ensures
            *self == *other,
    {
        let a = self.page_data();
        let b = other.page_data();
        let ca = stored_calibrations(self.calibrations@);
        let cb = stored_calibrations(other.calibrations@);
        let ta = stored_thresholds(self.thresholds@);
        let tb = stored_thresholds(other.thresholds@);
        self.config.lemma_wire_len();
        other.config.lemma_wire_len();
        lemma_seq_wire_len(ca);
        lemma_seq_wire_len(cb);
        lemma_seq_wire_len(ta);
        lemma_seq_wire_len(tb);
        assert(a.subrange(0, 8) =~= self.config.wire());
        assert(b.subrange(0, 8) =~= other.config.wire());
        assert(a.subrange(8, 168) =~= seq_wire(ca));
        assert(b.subrange(8, 168) =~= seq_wire(cb));
        assert(a.subrange(168, 328) =~= seq_wire(ta));
        assert(b.subrange(168, 328) =~= seq_wire(tb));
        self.config.lemma_wire_injective(&other.config);
        lemma_seq_wire_injective(ca, cb);
        lemma_seq_wire_injective(ta, tb);
        assert forall|i: int| 0 <= i < 16 implies self.calibrations@[i]
            == other.calibrations@[i] by {
            assert(ca[i] == cb[i]);
            self.calibrations@[i].lemma_stored_injective(other.calibrations@[i]);
        }
        assert forall|i: int| 0 <= i < 16 implies self.thresholds@[i] == other.thresholds@[i] by {
            assert(ta[i] == tb[i]);
            self.thresholds@[i].lemma_stored_injective(other.thresholds@[i]);
        }
        assert(self.calibrations =~= other.calibrations);
        assert(self.thresholds =~= other.thresholds);
    }

    /// The bytes of the flash page that holds this data.
    pub fn to_page(&self) -> (page: [u8; 4096])
        ensures
            page@ == self.page(),
    {
        let mut calibrations = [InputCalibration { multiply: 0, divide: 0, add: 0, min: 0, max: 0 };
            16];
        let mut thresholds = [InputThreshold {
            threshold_high: 0,
            threshold_low: 0,
            debounce_time_us: 0,
            debounce_count: 0,
        }; 16];
        let mut i: usize = 0;
        while i < 16
            invariant
                i <= 16,
                forall|j: int| 0 <= j < i ==> calibrations@[j] == self.calibrations@[j].stored(),
                forall|j: int| 0 <= j < i ==> thresholds@[j] == self.thresholds@[j].stored(),
            decreases 16 - i,
        {
            calibrations[i] = self.calibrations[i].to_stored();
            thresholds[i] = self.thresholds[i].to_stored();
            i += 1;
        }
        assert(calibrations@ =~= stored_calibrations(self.calibrations@));
        assert(thresholds@ =~= stored_thresholds(self.thresholds@));
        let mut data: Vec<u8> = Vec::new();
        self.config.encode_into(&mut data);
        encode_array(&calibrations, &mut data);
        encode_array(&thresholds, &mut data);
        assert(data@ =~= self.page_data());
        proof {
            self.lemma_page_len();
        }
        let mut page = [0xFFu8; 4096];
        let mut k: usize = 0;
        while k < DATA_LEN
            invariant
                k <= DATA_LEN,
                data@.len() == DATA_LEN,
                forall|j: int| 0 <= j < k ==> page@[j] == data@[j],
                forall|j: int| k <= j < PAGE_LEN ==> page@[j] == 0xFFu8,
            decreases DATA_LEN - k,
        {
            page[k] = data[k];
            k += 1;
        }
        assert(page@ =~= self.page());
        page
    }

    /// Reads the data that a flash page holds. The bytes from `DATA_LEN` on are
    /// not looked at.
    pub fn from_page(page: &[u8; 4096]) -> (data: NonvolatileData)
        ensures
            data.page_data() == page@.subrange(0, DATA_LEN as int),
    {
        let bytes = page.as_slice();
        let config = Config::decode_at(bytes, 0);
        let stored_c: [InputCalibration; 16] = decode_array(
            bytes,
            8,
            InputCalibration { multiply: 0, divide: 0, add: 0, min: 0, max: 0 },
        );
        let stored_t: [InputThreshold; 16] = decode_array(
            bytes,
            168,
            InputThreshold {
                threshold_high: 0,
                threshold_low: 0,
                debounce_time_us: 0,
                debounce_count: 0,
            },
        );
        let mut calibrations = [Calibration { multiply: 0, divide: 0, add: 0, min: 0, max: 0 }; 16];
        let mut thresholds = [Threshold {
            threshold_high: 0,
            threshold_low: 0,
            debounce_time_us: 0,
            debounce_count: 0,
        }; 16];
        let mut i: usize = 0;
        while i < 16
            invariant
                i <= 16,
                forall|j: int| 0 <= j < i ==> calibrations@[j].stored() == stored_c@[j],
                forall|j: int| 0 <= j < i ==> thresholds@[j].stored() == stored_t@[j],
            decreases 16 - i,
        {
            calibrations[i] = Calibration::from_stored(&stored_c[i]);
            thresholds[i] = Threshold::from_stored(&stored_t[i]);
            i += 1;
        }
        let data = NonvolatileData { config, calibrations, thresholds };
        proof {
            assert(stored_calibrations(data.calibrations@) =~= stored_c@);
            assert(stored_thresholds(data.thresholds@) =~= stored_t@);
            assert(page@.subrange(0, DATA_LEN as int) =~= page@.subrange(0, 8) + page@.subrange(
                8,
                168,
            ) + page@.subrange(168, 328));
        }
        data
    }
}

/// A sequence of items that are each encoded as `0xFF` bytes is encoded as
/// `0xFF` bytes.
proof fn lemma_seq_wire_erased<T: Wire>(items: Seq<T>)
    requires
        forall|i: int|
            0 <= i < items.len() ==> (#[trigger] items[i]).wire() == erased(T::wire_len()),
    ensures
        seq_wire(items) == erased(items.len() * T::wire_len()),
    decreases items.len(),
{
    lemma_seq_wire_len(items);
    if items.len() > 0 {
        let front = items.drop_last();
        assert forall|i: int| 0 <= i < front.len() implies (#[trigger] front[i]).wire() == erased(
            T::wire_len(),
        ) by {
            assert(front[i] == items[i]);
        }
        lemma_seq_wire_erased(front);
        lemma_seq_wire_len(front);
        assert(items.last() == items[items.len() - 1]);
    }
    assert(seq_wire(items) =~= erased(items.len() * T::wire_len()));
}

/// The stored form of the default calibration and of the default threshold is
/// ten bytes `0xFF` each.
proof fn lemma_defaults_stored_erased()
    ensures
        Calibration::default_value().stored().wire() == erased(10),
        Threshold::default_value().stored().wire() == erased(10),
{
    assert(1u16 ^ 0xFFFEu16 == 0xFFFFu16) by (bit_vector);
    assert(0u16 ^ 0xFFFFu16 == 0xFFFFu16) by (bit_vector);
    assert(0x8000u16 ^ 0x7FFFu16 == 0xFFFFu16) by (bit_vector);
    assert(0x7FFFu16 ^ 0x8000u16 == 0xFFFFu16) by (bit_vector);
    assert(0u32 ^ 0xFFFF_FFFFu32 == 0xFFFF_FFFFu32) by (bit_vector);
    let c = Calibration::default_value().stored();
    assert(c.multiply == -1 && c.divide == -1 && c.add == -1 && c.min == -1 && c.max == -1);
    assert(c.wire() =~= erased(10));
    let t = Threshold::default_value().stored();
    assert(t.threshold_high == -1 && t.threshold_low == -1 && t.debounce_time_us == 0xFFFF_FFFF
        && t.debounce_count == 0xFFFF);
    assert(t.wire() =~= erased(10));
}

/// An erased page reads as the defaults: address `0xFFFF`, calibration
/// `(1, 1, 0, -32768, 32767)` and threshold `(32767, -32768, 0, 0)` for every
/// input. And only the defaults are stored as an erased page.
pub proof fn lemma_erased_page_is_default(data: NonvolatileData)
    ensures
        data.page_data() == erased(DATA_LEN as nat) <==> data.is_default(),
{
    let c = stored_calibrations(data.calibrations@);
    let t = stored_thresholds(data.thresholds@);
    let p = data.page_data();
    data.config.lemma_wire_len();
    lemma_seq_wire_len(c);
    lemma_seq_wire_len(t);
    lemma_seq_wire_len(data.config.reserved@);
    lemma_defaults_stored_erased();
    assert(p.subrange(0, 8) =~= data.config.wire());
    assert(p.subrange(8, 168) =~= seq_wire(c));
    assert(p.subrange(168, 328) =~= seq_wire(t));
    if data.is_default() {
        assert(seq_wire(data.config.reserved@) =~= erased(2)) by {
            let r = data.config.reserved@;
            assert(r.drop_last() =~= seq![0xFFu8]);
            assert(r.drop_last().drop_last() =~= Seq::<u8>::empty());
            reveal_with_fuel(seq_wire, 3);
        }
        assert(data.config.wire() =~= erased(8));
        assert forall|i: int| 0 <= i < c.len() implies (#[trigger] c[i]).wire() == erased(
            InputCalibration::wire_len(),
        ) by {
            assert(data.calibrations@[i] == Calibration::default_value());
        }
        assert forall|i: int| 0 <= i < t.len() implies (#[trigger] t[i]).wire() == erased(
            InputThreshold::wire_len(),
        ) by {
            assert(data.thresholds@[i] == Threshold::default_value());
        }
        lemma_seq_wire_erased(c);
        lemma_seq_wire_erased(t);
        assert(p =~= erased(DATA_LEN as nat));
    }
    if p == erased(DATA_LEN as nat) {
        assert(data.config.wire().subrange(0, 2) =~= data.config.address.wire());
        assert(data.config.wire().subrange(2, 6) =~= data.config.baudrate.wire());
        assert(data.config.wire().subrange(6, 8) =~= seq_wire(data.config.reserved@));
        assert(0xFFFFu16.wire() =~= erased(2));
        assert(0xFFFF_FFFFu32.wire() =~= erased(4));
        assert(data.config.address.wire() =~= erased(2));
        assert(data.config.baudrate.wire() =~= erased(4));
        data.config.address.lemma_wire_injective(&0xFFFFu16);
        data.config.baudrate.lemma_wire_injective(&0xFFFF_FFFFu32);
        let full: Seq<u8> = seq![0xFFu8, 0xFFu8];
        assert(seq_wire(full) =~= erased(2)) by {
            assert(full.drop_last() =~= seq![0xFFu8]);
            assert(full.drop_last().drop_last() =~= Seq::<u8>::empty());
            reveal_with_fuel(seq_wire, 3);
        }
        assert(seq_wire(data.config.reserved@) =~= erased(2));
        lemma_seq_wire_injective(data.config.reserved@, full);
        assert forall|i: int| 0 <= i < 16 implies #[trigger] data.calibrations@[i]
            == Calibration::default_value() by {
            lemma_seq_wire_item(c, i);
            assert(c[i].wire() =~= erased(10));
            c[i].lemma_wire_injective(&Calibration::default_value().stored());
            data.calibrations@[i].lemma_stored_injective(Calibration::default_value());
        }
        assert forall|i: int| 0 <= i < 16 implies #[trigger] data.thresholds@[i]
            == Threshold::default_value() by {
            lemma_seq_wire_item(t, i);
            assert(t[i].wire() =~= erased(10));
            t[i].lemma_wire_injective(&Threshold::default_value().stored());
            data.thresholds@[i].lemma_stored_injective(Threshold::default_value());
        }
    }
}

/// Reading back a page gives the data that it was made from.
pub proof fn lemma_page_round_trip(written: NonvolatileData, read: NonvolatileData)
    requires
        read.page_data() == written.page().subrange(0, DATA_LEN as int),
    ensures
        read == written,
{
    written.lemma_page_len();
    read.lemma_page_injective(&written);
}

/// The page of a device that was never configured: all bytes `0xFF`.
pub fn default_nonvolatile_data() -> (page: [u8; 4096])
    ensures
        page@ == erased(PAGE_LEN as nat),
        forall|data: NonvolatileData| data.is_default() ==> #[trigger] data.page() == page@,
{
    let page = [0xFFu8; 4096];
    assert(page@ =~= erased(PAGE_LEN as nat));
    assert forall|data: NonvolatileData| data.is_default() implies #[trigger] data.page()
        == page@ by {
        lemma_erased_page_is_default(data);
        assert(data.page() =~= erased(PAGE_LEN as nat));
    }
    page
}

/// `wire` are the calibrations of `data`, as they go over the bus.
pub open spec fn calibrations_are(data: NonvolatileData, wire: Seq<InputCalibration>) -> bool {
    forall|i: int| 0 <= i < 16 ==> #[trigger] wire[i] == data.calibrations@[i].to_input_spec()
}

/// `wire` are the thresholds of `data`, as they go over the bus.
pub open spec fn thresholds_are(data: NonvolatileData, wire: Seq<InputThreshold>) -> bool {
    forall|i: int| 0 <= i < 16 ==> #[trigger] wire[i] == data.thresholds@[i].to_input_spec()
}

/// The cached copy of the flash page. Handlers read it, and replace it as a
/// whole: the cache holds the new data at once, and the caller writes the page
/// that `set` hands out to flash.
pub struct Nvm {
    data: NonvolatileData,
}

impl Nvm {
    /// The data that the cache holds.
    pub closed spec fn view(&self) -> NonvolatileData {
        self.data
    }

    /// The cache of a page, as read from flash at startup.
    pub fn new(page: &[u8; 4096]) -> (nvm: Nvm)
        ensures
            nvm@.page_data() == page@.subrange(0, DATA_LEN as int),
    {
        Nvm { data: NonvolatileData::from_page(page) }
    }

    /// A snapshot of the cached data.
    pub fn get(&self) -> (data: NonvolatileData)
        ensures
            data == self@,
    {
        self.data
    }

    /// Replaces the cached data and returns the page to erase and program.
    pub fn set(&mut self, data: &NonvolatileData) -> (page: [u8; 4096])
        ensures
            final(self)@ == *data,
            page@ == data.page(),
    {
        self.data = *data;
        data.to_page()
    }

    /// Stores a new configuration. The calibrations and thresholds stay.
    pub fn handle_config_set(&mut self, request: &ConfigSetReq) -> (r: (ConfigSetRes, [u8; 4096]))
        ensures
            final(self)@ == (NonvolatileData { config: request.0, ..old(self)@ }),
            r.1@ == final(self)@.page(),
    {
        let data = NonvolatileData { config: request.0, ..self.data };
        let page = self.set(&data);
        (ConfigSetRes, page)
    }

    pub fn handle_config_get(&self) -> (r: ConfigGetRes)
        ensures
            r.0 == self@.config,
    {
        ConfigGetRes(self.data.config)
    }

    /// Stores new calibrations. The configuration and the thresholds stay.
    pub fn handle_set_calibrations(&mut self, request: &InputSetCalibrationsReq) -> (r: (
        InputSetCalibrationsRes,
        [u8; 4096],
    ))
        ensures
            final(self)@.config == old(self)@.config,
            final(self)@.thresholds == old(self)@.thresholds,
            calibrations_are(final(self)@, request.0@),
            r.1@ == final(self)@.page(),
    {
        let mut calibrations = self.data.calibrations;
        let mut i: usize = 0;
        while i < 16
            invariant
                i <= 16,
                forall|j: int|
                    0 <= j < i ==> #[trigger] calibrations@[j].to_input_spec() == request.0@[j],
            decreases 16 - i,
        {
            calibrations[i] = Calibration::from_input(request.0[i]);
            i += 1;
        }
        let data = NonvolatileData { calibrations, ..self.data };
        let page = self.set(&data);
        (InputSetCalibrationsRes, page)
    }

    pub fn handle_get_calibrations(&self) -> (r: InputGetCalibrationsRes)
        ensures
            calibrations_are(self@, r.0@),
    {
        let mut out = [InputCalibration { multiply: 0, divide: 0, add: 0, min: 0, max: 0 }; 16];
        let mut i: usize = 0;
        while i < 16
            invariant
                i <= 16,
                forall|j: int|
                    0 <= j < i ==> #[trigger] out@[j] == self.data.calibrations@[j].to_input_spec(),
            decreases 16 - i,
        {
            out[i] = self.data.calibrations[i].to_input();
            i += 1;
        }
        InputGetCalibrationsRes(out)
    }

    /// Stores new thresholds. The configuration and the calibrations stay.
    pub fn handle_set_thresholds(&mut self, request: &InputSetThresholdsReq) -> (r: (
        InputSetThresholdsRes,
        [u8; 4096],
    ))
        ensures
            final(self)@.config == old(self)@.config,
            final(self)@.calibrations == old(self)@.calibrations,
            thresholds_are(final(self)@, request.0@),
            r.1@ == final(self)@.page(),
    {
        let mut thresholds = self.data.thresholds;
        let mut i: usize = 0;
        while i < 16
            invariant
                i <= 16,
                forall|j: int|
                    0 <= j < i ==> #[trigger] thresholds@[j].to_input_spec() == request.0@[j],
            decreases 16 - i,
        {
            thresholds[i] = Threshold::from_input(request.0[i]);
            i += 1;
        }
        let data = NonvolatileData { thresholds, ..self.data };
        let page = self.set(&data);
        (InputSetThresholdsRes, page)
    }

    pub fn handle_get_thresholds(&self) -> (r: InputGetThresholdsRes)
        ensures
            thresholds_are(self@, r.0@),
    {
        let mut out = [InputThreshold {
            threshold_high: 0,
            threshold_low: 0,
            debounce_time_us: 0,
            debounce_count: 0,
        }; 16];
        let mut i: usize = 0;
        while i < 16
            invariant
                i <= 16,
                forall|j: int|
                    0 <= j < i ==> #[trigger] out@[j] == self.data.thresholds@[j].to_input_spec(),
            decreases 16 - i,
        {
            out[i] = self.data.thresholds[i].to_input();
            i += 1;
        }
        InputGetThresholdsRes(out)
    }
}

} // verus!
