//! Little-endian encodings of the fixed-width values that travel on the bus
//! and rest in flash, and the `Wire` trait that every encodable type implements.
use vstd::prelude::*;

verus! {

/// The two's-complement bit pattern of a signed 16-bit value.
pub open spec fn i16_bits(x: i16) -> u16 {
    if x >= 0 {
        x as u16
    } else {
        (x + 0x1_0000) as u16
    }
}

/// The two's-complement bit pattern of a signed 32-bit value.
pub open spec fn i32_bits(x: i32) -> u32 {
    if x >= 0 {
        x as u32
    } else {
        (x + 0x1_0000_0000) as u32
    }
}

/// The signed value whose two's-complement bit pattern is `b`.
pub open spec fn bits_i16(b: u16) -> i16 {
    if b < 0x8000 {
        b as i16
    } else {
        (b - 0x1_0000) as i16
    }
}

/// The signed value whose two's-complement bit pattern is `b`.
pub open spec fn bits_i32(b: u32) -> i32 {
    if b < 0x8000_0000 {
        b as i32
    } else {
        (b - 0x1_0000_0000) as i32
    }
}

pub open spec fn u16_le(x: u16) -> Seq<u8> {
    seq![(x % 256) as u8, (x / 256) as u8]
}

pub open spec fn u32_le(x: u32) -> Seq<u8> {
    u16_le((x % 0x1_0000) as u16) + u16_le((x / 0x1_0000) as u16)
}

pub open spec fn u64_le(x: u64) -> Seq<u8> {
    u32_le((x % 0x1_0000_0000) as u32) + u32_le((x / 0x1_0000_0000) as u32)
}

/// The value that two little-endian bytes at `at` stand for.
pub open spec fn le_u16(s: Seq<u8>, at: int) -> u16 {
    (s[at] + 256 * s[at + 1]) as u16
}

pub fn i16_to_bits(x: i16) -> (b: u16)
    ensures
        b == i16_bits(x),
        bits_i16(b) == x,
{
    if x >= 0 {
        x as u16
    } else {
        (x as i32 + 0x1_0000) as u16
    }
}

pub fn i16_from_bits(b: u16) -> (x: i16)
    ensures
        x == bits_i16(b),
        i16_bits(x) == b,
{
    if b < 0x8000 {
        b as i16
    } else {
        (b as i32 - 0x1_0000) as i16
    }
}

pub fn i32_to_bits(x: i32) -> (b: u32)
    ensures
        b == i32_bits(x),
        bits_i32(b) == x,
{
    if x >= 0 {
        x as u32
    } else {
        (x as i64 + 0x1_0000_0000) as u32
    }
}

pub fn i32_from_bits(b: u32) -> (x: i32)
    ensures
        x == bits_i32(b),
        i32_bits(x) == b,
{
    if b < 0x8000_0000 {
        b as i32
    } else {
        (b as i64 - 0x1_0000_0000) as i32
    }
}

/// A type with a fixed-size little-endian encoding.
///
/// `wire` is the encoding; it has `wire_len()` bytes and no two values share
/// one, so a decoder is fully described by saying that its result encodes to
/// the bytes it was given.
pub trait Wire: Sized {
    spec fn wire(&self) -> Seq<u8>;

    spec fn wire_len() -> nat;

    proof fn lemma_wire_len(&self)
        ensures
            self.wire().len() == Self::wire_len(),
    ;

    proof fn lemma_wire_injective(&self, other: &Self)
        requires
            self.wire() == other.wire(),
        ensures
            *self == *other,
    ;

    fn size() -> (n: usize)
        ensures
            n == Self::wire_len(),
    ;

    fn encode_into(&self, out: &mut Vec<u8>)
        ensures
            final(out)@ == old(out)@ + self.wire(),
    ;

    fn decode_at(bytes: &[u8], at: usize) -> (r: Self)
        requires
            at + Self::wire_len() <= bytes.len(),
        ensures
            r.wire() == bytes@.subrange(at as int, at + Self::wire_len()),
    ;
}

impl Wire for u8 {
    open spec fn wire(&self) -> Seq<u8> {
        seq![*self]
    }

    open spec fn wire_len() -> nat {
        1
    }

    proof fn lemma_wire_len(&self) {
    }

    proof fn lemma_wire_injective(&self, other: &Self) {
        assert(self.wire()[0] == *self);
        assert(other.wire()[0] == *other);
    }

    fn size() -> (n: usize) {
        1
    }

    fn encode_into(&self, out: &mut Vec<u8>) {
        out.push(*self);
    }

    fn decode_at(bytes: &[u8], at: usize) -> (r: Self) {
        let r = bytes[at];
        assert(r.wire() =~= bytes@.subrange(at as int, at + 1));
        r
    }
}

impl Wire for u16 {
    open spec fn wire(&self) -> Seq<u8> {
        u16_le(*self)
    }

    open spec fn wire_len() -> nat {
        2
    }

    proof fn lemma_wire_len(&self) {
    }

    proof fn lemma_wire_injective(&self, other: &Self) {
        let x = *self;
        let y = *other;
        assert(self.wire()[0] == (x % 256) as u8 && self.wire()[1] == (x / 256) as u8);
        assert(other.wire()[0] == (y % 256) as u8 && other.wire()[1] == (y / 256) as u8);
        assert(x == 256 * (x / 256) + x % 256);
        assert(y == 256 * (y / 256) + y % 256);
    }

    fn size() -> (n: usize) {
        2
    }

    fn encode_into(&self, out: &mut Vec<u8>) {
        let x = *self;
        out.push((x % 256) as u8);
        out.push((x / 256) as u8);
        assert(out@ =~= old(out)@ + u16_le(x));
    }

    fn decode_at(bytes: &[u8], at: usize) -> (r: Self) {
        let r = bytes[at] as u16 + 256 * (bytes[at + 1] as u16);
        assert(r.wire() =~= bytes@.subrange(at as int, at + 2));
        r
    }
}

impl Wire for u32 {
    open spec fn wire(&self) -> Seq<u8> {
        u32_le(*self)
    }

    open spec fn wire_len() -> nat {
        4
    }

    proof fn lemma_wire_len(&self) {
    }

    proof fn lemma_wire_injective(&self, other: &Self) {
        let x = *self;
        let y = *other;
        let (xl, xh) = ((x % 0x1_0000) as u16, (x / 0x1_0000) as u16);
        let (yl, yh) = ((y % 0x1_0000) as u16, (y / 0x1_0000) as u16);
        assert(self.wire().subrange(0, 2) =~= u16_le(xl));
        assert(self.wire().subrange(2, 4) =~= u16_le(xh));
        assert(other.wire().subrange(0, 2) =~= u16_le(yl));
        assert(other.wire().subrange(2, 4) =~= u16_le(yh));
        xl.lemma_wire_injective(&yl);
        xh.lemma_wire_injective(&yh);
        assert(x == 0x1_0000 * (x / 0x1_0000) + x % 0x1_0000);
        assert(y == 0x1_0000 * (y / 0x1_0000) + y % 0x1_0000);
    }

    fn size() -> (n: usize) {
        4
    }

    fn encode_into(&self, out: &mut Vec<u8>) {
        let x = *self;
        let lo = (x % 0x1_0000) as u16;
        let hi = (x / 0x1_0000) as u16;
        lo.encode_into(out);
        hi.encode_into(out);
        assert(out@ =~= old(out)@ + u32_le(x));
    }

    fn decode_at(bytes: &[u8], at: usize) -> (r: Self) {
        let lo = u16::decode_at(bytes, at);
        let hi = u16::decode_at(bytes, at + 2);
        let r = lo as u32 + 0x1_0000 * (hi as u32);
        assert(r % 0x1_0000 == lo && r / 0x1_0000 == hi);
        assert(bytes@.subrange(at as int, at + 4) =~= bytes@.subrange(at as int, at + 2)
            + bytes@.subrange(at + 2, at + 4));
        r
    }
}

impl Wire for u64 {
    open spec fn wire(&self) -> Seq<u8> {
        u64_le(*self)
    }

    open spec fn wire_len() -> nat {
        8
    }

    proof fn lemma_wire_len(&self) {
    }

    proof fn lemma_wire_injective(&self, other: &Self) {
        let x = *self;
        let y = *other;
        let (xl, xh) = ((x % 0x1_0000_0000) as u32, (x / 0x1_0000_0000) as u32);
        let (yl, yh) = ((y % 0x1_0000_0000) as u32, (y / 0x1_0000_0000) as u32);
        assert(self.wire().subrange(0, 4) =~= u32_le(xl));
        assert(self.wire().subrange(4, 8) =~= u32_le(xh));
        assert(other.wire().subrange(0, 4) =~= u32_le(yl));
        assert(other.wire().subrange(4, 8) =~= u32_le(yh));
        xl.lemma_wire_injective(&yl);
        xh.lemma_wire_injective(&yh);
        assert(x == 0x1_0000_0000 * (x / 0x1_0000_0000) + x % 0x1_0000_0000);
        assert(y == 0x1_0000_0000 * (y / 0x1_0000_0000) + y % 0x1_0000_0000);
    }

    fn size() -> (n: usize) {
        8
    }

    fn encode_into(&self, out: &mut Vec<u8>) {
        let x = *self;
        let lo = (x % 0x1_0000_0000) as u32;
        let hi = (x / 0x1_0000_0000) as u32;
        lo.encode_into(out);
        hi.encode_into(out);
        assert(out@ =~= old(out)@ + u64_le(x));
    }

    fn decode_at(bytes: &[u8], at: usize) -> (r: Self) {
        let lo = u32::decode_at(bytes, at);
        let hi = u32::decode_at(bytes, at + 4);
        let r = lo as u64 + 0x1_0000_0000 * (hi as u64);
        proof {
            assert(r % 0x1_0000_0000 == lo && r / 0x1_0000_0000 == hi) by (nonlinear_arith)
                requires
                    r == lo + 0x1_0000_0000 * hi,
                    0 <= lo < 0x1_0000_0000,
            ;
            let whole = bytes@.subrange(at as int, at + 8);
            let front = bytes@.subrange(at as int, at + 4);
            let back = bytes@.subrange(at + 4, at + 8);
            assert(whole =~= front + back);
        }
        r
    }
}

impl Wire for i16 {
    open spec fn wire(&self) -> Seq<u8> {
        u16_le(i16_bits(*self))
    }

    open spec fn wire_len() -> nat {
        2
    }

    proof fn lemma_wire_len(&self) {
    }

    proof fn lemma_wire_injective(&self, other: &Self) {
        i16_bits(*self).lemma_wire_injective(&i16_bits(*other));
    }

    fn size() -> (n: usize) {
        2
    }

    fn encode_into(&self, out: &mut Vec<u8>) {
        i16_to_bits(*self).encode_into(out);
    }

    fn decode_at(bytes: &[u8], at: usize) -> (r: Self) {
        i16_from_bits(u16::decode_at(bytes, at))
    }
}

impl Wire for i32 {
    open spec fn wire(&self) -> Seq<u8> {
        u32_le(i32_bits(*self))
    }

    open spec fn wire_len() -> nat {
        4
    }

    proof fn lemma_wire_len(&self) {
    }

    proof fn lemma_wire_injective(&self, other: &Self) {
        i32_bits(*self).lemma_wire_injective(&i32_bits(*other));
    }

    fn size() -> (n: usize) {
        4
    }

    fn encode_into(&self, out: &mut Vec<u8>) {
        i32_to_bits(*self).encode_into(out);
    }

    fn decode_at(bytes: &[u8], at: usize) -> (r: Self) {
        i32_from_bits(u32::decode_at(bytes, at))
    }
}

/// Reads a value from bytes that must be its encoding and nothing more.
pub fn decode_exact<T: Wire>(bytes: &[u8]) -> (r: Option<T>)
    ensures
        r is Some <==> bytes@.len() == T::wire_len(),
        r matches Some(value) ==> value.wire() == bytes@,
{
    if bytes.len() == T::size() {
        let value = T::decode_at(bytes, 0);
        assert(bytes@.subrange(0, bytes@.len() as int) =~= bytes@);
        Some(value)
    } else {
        None
    }
}

/// The encodings of the items of a sequence, one after the other.
pub open spec fn seq_wire<T: Wire>(items: Seq<T>) -> Seq<u8>
    decreases items.len(),
{
    if items.len() == 0 {
        Seq::empty()
    } else {
        seq_wire(items.drop_last()) + items.last().wire()
    }
}

pub proof fn lemma_seq_wire_len<T: Wire>(items: Seq<T>)
    ensures
        seq_wire(items).len() == items.len() * T::wire_len(),
    decreases items.len(),
{
    if items.len() > 0 {
        lemma_seq_wire_len(items.drop_last());
        items.last().lemma_wire_len();
        assert((items.len() - 1) * T::wire_len() + T::wire_len() == items.len() * T::wire_len())
            by (nonlinear_arith);
    } else {
        assert(0 * T::wire_len() == 0) by (nonlinear_arith);
    }
}

/// Where item `i` lies in the encoding of a sequence.
pub proof fn lemma_seq_wire_item<T: Wire>(items: Seq<T>, i: int)
    requires
        0 <= i < items.len(),
    ensures
        0 <= i * T::wire_len(),
        (i + 1) * T::wire_len() <= seq_wire(items).len(),
        seq_wire(items).subrange(i * T::wire_len(), (i + 1) * T::wire_len()) == items[i].wire(),
    decreases items.len(),
{
    let n = T::wire_len() as int;
    let front = items.drop_last();
    lemma_seq_wire_len(items);
    lemma_seq_wire_len(front);
    items.last().lemma_wire_len();
    assert(0 <= i * n && (i + 1) * n <= items.len() * n && (i + 1) * n == i * n + n)
        by (nonlinear_arith)
        requires
            0 <= i < items.len(),
            0 <= n,
    ;
    assert((items.len() - 1) * n + n == items.len() * n) by (nonlinear_arith);
    if i == items.len() - 1 {
        assert(seq_wire(items).subrange(i * n, (i + 1) * n) =~= items[i].wire());
    } else {
        lemma_seq_wire_item(front, i);
        assert(seq_wire(items).subrange(i * n, (i + 1) * n) =~= seq_wire(front).subrange(
            i * n,
            (i + 1) * n,
        ));
    }
}

pub proof fn lemma_seq_wire_injective<T: Wire>(a: Seq<T>, b: Seq<T>)
    requires
        a.len() == b.len(),
        seq_wire(a) == seq_wire(b),
    ensures
        a == b,
{
    assert forall|i: int| 0 <= i < a.len() implies a[i] == b[i] by {
        lemma_seq_wire_item(a, i);
        lemma_seq_wire_item(b, i);
        a[i].lemma_wire_injective(&b[i]);
    }
    assert(a =~= b);
}

/// Appends the encodings of the items of `items`, in order.
pub fn encode_array<T: Wire, const N: usize>(items: &[T; N], out: &mut Vec<u8>)
    ensures
        final(out)@ == old(out)@ + seq_wire(items@),
{
    let mut i: usize = 0;
    assert(seq_wire(items@.take(0)) =~= Seq::<u8>::empty());
    assert(out@ =~= old(out)@ + seq_wire(items@.take(0)));
    while i < N
        invariant
            i <= N,
            items@.len() == N,
            out@ == old(out)@ + seq_wire(items@.take(i as int)),
        decreases N - i,
    {
        let ghost before = out@;
        items[i].encode_into(out);
        proof {
            let next = items@.take(i + 1);
            assert(next.drop_last() =~= items@.take(i as int));
            assert(next.last() == items@[i as int]);
            assert(out@ =~= old(out)@ + seq_wire(next));
        }
        i += 1;
    }
    assert(items@.take(N as int) =~= items@);
}

/// Reads `N` items that lie one after the other from `at` on. `fill` only
/// serves to make the array before it is filled.
pub fn decode_array<T: Wire + Copy, const N: usize>(bytes: &[u8], at: usize, fill: T) -> (r: [T; N])
    requires
        at + N * T::wire_len() <= bytes.len(),
    ensures
        seq_wire(r@) == bytes@.subrange(at as int, at + N * T::wire_len()),
{
    let mut r: [T; N] = [fill; N];
    let size = T::size();
    let mut i: usize = 0;
    let mut off: usize = at;
    assert(seq_wire(r@.take(0)) =~= bytes@.subrange(at as int, at as int));
    assert(0 * T::wire_len() == 0) by (nonlinear_arith);
    while i < N
        invariant
            i <= N,
            r@.len() == N,
            size == T::wire_len(),
            off == at + i * T::wire_len(),
            at + N * T::wire_len() <= bytes.len(),
            off <= bytes.len(),
            seq_wire(r@.take(i as int)) == bytes@.subrange(at as int, off as int),
        decreases N - i,
    {
        proof {
            let n = T::wire_len() as int;
            let ii = i as int;
            let nn = N as int;
            assert((ii + 1) * n == ii * n + n && (ii + 1) * n <= nn * n) by (nonlinear_arith)
                requires
                    0 <= ii < nn,
                    0 <= n,
            ;
        }
        let ghost before = r@;
        let item = T::decode_at(bytes, off);
        r[i] = item;
        proof {
            let next = r@.take(i + 1);
            assert(next.drop_last() =~= before.take(i as int));
            assert(next.last() == item);
            assert(seq_wire(next) =~= bytes@.subrange(at as int, off + T::wire_len()));
        }
        i += 1;
        off += size;
    }
    assert(r@.take(N as int) =~= r@);
    r
}

} // verus!
