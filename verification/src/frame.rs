//! Frames on the bus: eight header bytes, a payload of whole 32-bit words and
//! a two-byte checksum, and the hunter that finds the next intact frame in a
//! buffer of received bytes.
//!
//! ```text
//! offset size  field
//! 0      2     magic 'O','M'
//! 2      1     length, in payload words of four bytes
//! 3      1     bitwise inverse of length
//! 4      2     address
//! 6      2     command
//! 8      4*L   payload
//! 8+4L   2     CRC-16/KERMIT of bytes 0..8+4L
//! ```
use crate::bytes::{le_u16, u16_le, Wire};
use crate::checksum::{checksum, crc16_kermit};
use crate::command::Command;
use vstd::prelude::*;
use vstd::slice::slice_subrange;

verus! {

/// First magic byte, `'O'`.
pub const MAGIC_0: u8 = 0x4F;

/// Second magic byte, `'M'`.
pub const MAGIC_1: u8 = 0x4D;

/// Bytes of a header.
pub const HEADER_LEN: usize = 8;

/// Bytes of a footer.
pub const FOOTER_LEN: usize = 2;

/// The most payload bytes that a frame can carry.
pub const MAX_PAYLOAD_LEN: usize = 1020;

#[derive(Debug, Clone, Copy, PartialEq, Eq)]
pub struct Header {
    /// Magic bytes marking the start of a message: `"OM"`.
    pub magic: [u8; 2],
    /// The length of the payload in 32-bit words.
    pub length: u8,
    /// The bitwise inverse of `length`.
    pub length_inverted: u8,
    /// For requests the target address, for responses the source address.
    pub address: u16,
    /// The command id of the message.
    pub command: u16,
}

#[derive(Debug, Clone, Copy, PartialEq, Eq)]
pub struct Footer {
    /// CRC-16/KERMIT of the header and the payload.
    pub checksum: u16,
}

/// The eight bytes of the header of a frame with `words` payload words.
pub open spec fn header_wire(words: u8, address: u16, command: u16) -> Seq<u8> {
    seq![MAGIC_0, MAGIC_1, words, (255 - words) as u8] + u16_le(address) + u16_le(command)
}

/// The bytes of the frame that carries `payload`.
pub open spec fn frame_wire(address: u16, command: u16, payload: Seq<u8>) -> Seq<u8> {
    let head = header_wire((payload.len() / 4) as u8, address, command) + payload;
    head + u16_le(crc16_kermit(head))
}

impl Header {
    /// The magic is right and the two length bytes agree.
    pub open spec fn valid(&self) -> bool {
        &&& self.magic@ == seq![MAGIC_0, MAGIC_1]
        &&& self.length + self.length_inverted == 255
    }

    pub fn new(words: u8, address: u16, command: u16) -> (header: Header)
        ensures
            header.valid(),
            header.length == words,
            header.address == address,
            header.command == command,
            header.wire() == header_wire(words, address, command),
    {
        let header = Header {
            magic: [MAGIC_0, MAGIC_1],
            length: words,
            length_inverted: 255 - words,
            address,
            command,
        };
        assert(header.magic@ =~= seq![MAGIC_0, MAGIC_1]);
        header
    }
}

impl Wire for Header {
    open spec fn wire(&self) -> Seq<u8> {
        seq![self.magic@[0], self.magic@[1], self.length, self.length_inverted] + u16_le(
            self.address,
        ) + u16_le(self.command)
    }

    open spec fn wire_len() -> nat {
        8
    }

    proof fn lemma_wire_len(&self) {
    }

    proof fn lemma_wire_injective(&self, other: &Self) {
        let a = self.wire();
        let b = other.wire();
        assert(a[0] == self.magic@[0] && a[1] == self.magic@[1] && a[2] == self.length && a[3]
            == self.length_inverted);
        assert(b[0] == other.magic@[0] && b[1] == other.magic@[1] && b[2] == other.length && b[3]
            == other.length_inverted);
        assert(a.subrange(4, 6) =~= u16_le(self.address));
        assert(b.subrange(4, 6) =~= u16_le(other.address));
        assert(a.subrange(6, 8) =~= u16_le(self.command));
        assert(b.subrange(6, 8) =~= u16_le(other.command));
        self.address.lemma_wire_injective(&other.address);
        self.command.lemma_wire_injective(&other.command);
        assert(self.magic@ =~= other.magic@);
        assert(self.magic =~= other.magic);
    }

    fn size() -> (n: usize) {
        HEADER_LEN
    }

    fn encode_into(&self, out: &mut Vec<u8>) {
        out.push(self.magic[0]);
        out.push(self.magic[1]);
        out.push(self.length);
        out.push(self.length_inverted);
        self.address.encode_into(out);
        self.command.encode_into(out);
        assert(out@ =~= old(out)@ + self.wire());
    }

    fn decode_at(bytes: &[u8], at: usize) -> (r: Self) {
        let r = Header {
            magic: [bytes[at], bytes[at + 1]],
            length: bytes[at + 2],
            length_inverted: bytes[at + 3],
            address: u16::decode_at(bytes, at + 4),
            command: u16::decode_at(bytes, at + 6),
        };
        assert(r.wire() =~= bytes@.subrange(at as int, at + 8)) by {
            let whole = bytes@.subrange(at as int, at + 8);
            assert(u16_le(r.address) == bytes@.subrange(at + 4, at + 6));
            assert(u16_le(r.command) == bytes@.subrange(at + 6, at + 8));
            assert(whole =~= bytes@.subrange(at as int, at + 4) + bytes@.subrange(at + 4, at + 6)
                + bytes@.subrange(at + 6, at + 8));
            assert(bytes@.subrange(at as int, at + 4) =~= seq![
                r.magic@[0],
                r.magic@[1],
                r.length,
                r.length_inverted,
            ]);
        }
        r
    }
}

impl Wire for Footer {
    open spec fn wire(&self) -> Seq<u8> {
        u16_le(self.checksum)
    }

    open spec fn wire_len() -> nat {
        2
    }

    proof fn lemma_wire_len(&self) {
    }

    proof fn lemma_wire_injective(&self, other: &Self) {
        self.checksum.lemma_wire_injective(&other.checksum);
    }

    fn size() -> (n: usize) {
        FOOTER_LEN
    }

    fn encode_into(&self, out: &mut Vec<u8>) {
        self.checksum.encode_into(out);
    }

    fn decode_at(bytes: &[u8], at: usize) -> (r: Self) {
        Footer { checksum: u16::decode_at(bytes, at) }
    }
}

/// The two magic bytes stand at `p`, followed by a length byte and its inverse.
pub open spec fn marker_at(s: Seq<u8>, p: int) -> bool {
    &&& s[p] == MAGIC_0
    &&& s[p + 1] == MAGIC_1
    &&& s[p + 2] + s[p + 3] == 255
}

/// The length that the header at `p` claims for its whole frame.
pub open spec fn frame_len(s: Seq<u8>, p: int) -> int {
    4 * s[p + 2] + 10
}

/// The checksum that the frame at `p` carries in its footer.
pub open spec fn stored_checksum(s: Seq<u8>, p: int) -> u16 {
    le_u16(s, p + frame_len(s, p) - 2)
}

/// The footer of the frame at `p` holds the checksum of its header and payload.
pub open spec fn frame_intact(s: Seq<u8>, p: int) -> bool {
    stored_checksum(s, p) == crc16_kermit(s.subrange(p, p + frame_len(s, p) - 2))
}

/// The address that the frame at `p` carries.
pub open spec fn frame_address(s: Seq<u8>, p: int) -> u16 {
    le_u16(s, p + 4)
}

/// The command id that the frame at `p` carries.
pub open spec fn frame_command(s: Seq<u8>, p: int) -> u16 {
    le_u16(s, p + 6)
}

/// The payload that the frame at `p` carries.
pub open spec fn frame_payload(s: Seq<u8>, p: int) -> Seq<u8> {
    s.subrange(p + 8, p + frame_len(s, p) - 2)
}

/// The fields of a header are read off the eight bytes that encode it.
pub proof fn lemma_header_fields(header: Header, s: Seq<u8>, p: int)
    requires
        0 <= p,
        p + 8 <= s.len(),
        header.wire() == s.subrange(p, p + 8),
    ensures
        header.magic@ == seq![s[p], s[p + 1]],
        header.length == s[p + 2],
        header.length_inverted == s[p + 3],
        header.address == frame_address(s, p),
        header.command == frame_command(s, p),
{
    let w = header.wire();
    let t = s.subrange(p, p + 8);
    assert(w[0] == t[0] && w[1] == t[1] && w[2] == t[2] && w[3] == t[3]);
    assert(w[4] == t[4] && w[5] == t[5] && w[6] == t[6] && w[7] == t[7]);
    assert(w[4] == u16_le(header.address)[0] && w[5] == u16_le(header.address)[1]);
    assert(w[6] == u16_le(header.command)[0] && w[7] == u16_le(header.command)[1]);
    assert(header.magic@ =~= seq![s[p], s[p + 1]]);
}

/// The first position from `p` on where a header marker stands, or where
/// fewer than four bytes are left.
pub open spec fn seek(s: Seq<u8>, p: int) -> int
    decreases s.len() - p,
{
    if p < 0 || s.len() - p < 4 || marker_at(s, p) {
        p
    } else {
        seek(s, p + 1)
    }
}

/// What the hunter finds: where the intact frame starts, if there is one, and
/// how many bytes of the buffer are done with.
pub struct Hunt {
    pub frame: Option<int>,
    pub processed: int,
}

/// The hunt from position `p` on. A byte that starts no marker is passed over.
/// At a marker whose frame is not all there yet the hunt stops and leaves the
/// frame in place. A complete frame is returned if its checksum is right, and
/// passed over whole if not.
pub open spec fn hunt(s: Seq<u8>, p: int) -> Hunt
    decreases s.len() - p,
{
    if p < 0 || s.len() - p < 4 {
        Hunt { frame: None, processed: p }
    } else if !marker_at(s, p) {
        hunt(s, p + 1)
    } else if s.len() - p < frame_len(s, p) {
        Hunt { frame: None, processed: p }
    } else if frame_intact(s, p) {
        Hunt { frame: Some(p), processed: p + frame_len(s, p) }
    } else {
        hunt(s, p + frame_len(s, p))
    }
}

pub proof fn lemma_seek_bounds(s: Seq<u8>, p: int)
    requires
        0 <= p <= s.len(),
    ensures
        p <= seek(s, p) <= s.len(),
        s.len() - seek(s, p) < 4 || marker_at(s, seek(s, p)),
    decreases s.len() - p,
{
    if !(s.len() - p < 4 || marker_at(s, p)) {
        lemma_seek_bounds(s, p + 1);
    }
}

/// The hunt passes over bytes exactly as `seek` does.
pub proof fn lemma_hunt_seek(s: Seq<u8>, p: int)
    requires
        0 <= p <= s.len(),
    ensures
        hunt(s, p) == hunt(s, seek(s, p)),
    decreases s.len() - p,
{
    if !(s.len() - p < 4 || marker_at(s, p)) {
        lemma_hunt_seek(s, p + 1);
    }
}

/// The hunt never goes back and never leaves the buffer; a frame that it
/// finds lies whole between its start and the bytes it reports as processed.
pub proof fn lemma_hunt_bounds(s: Seq<u8>, p: int)
    requires
        0 <= p <= s.len(),
    ensures
        p <= hunt(s, p).processed <= s.len(),
        hunt(s, p).frame matches Some(at) ==> {
            &&& p <= at
            &&& at + 4 <= s.len()
            &&& marker_at(s, at)
            &&& frame_intact(s, at)
            &&& hunt(s, p).processed == at + frame_len(s, at)
        },
    decreases s.len() - p,
{
    if s.len() - p < 4 {
    } else if !marker_at(s, p) {
        lemma_hunt_bounds(s, p + 1);
    } else if s.len() - p < frame_len(s, p) {
    } else if frame_intact(s, p) {
    } else {
        lemma_hunt_bounds(s, p + frame_len(s, p));
    }
}

/// Whether a header marker stands at `at`.
pub fn is_marker(bytes: &[u8], at: usize) -> (yes: bool)
    ensures
        yes <==> at + 4 <= bytes.len() && marker_at(bytes@, at as int),
{
    if bytes.len() < 4 || at > bytes.len() - 4 {
        return false;
    }
    bytes[at] == MAGIC_0 && bytes[at + 1] == MAGIC_1 && bytes[at + 2] == 255 - bytes[at + 3]
}

/// Passes over the bytes from `from` on that start no marker.
pub fn seek_marker(bytes: &[u8], from: usize) -> (at: usize)
    requires
        from <= bytes.len(),
    ensures
        at == seek(bytes@, from as int),
        from <= at <= bytes.len(),
{
    let mut p = from;
    let mut found = false;
    while !found && bytes.len() - p >= 4
        invariant
            from <= p <= bytes.len(),
            seek(bytes@, p as int) == seek(bytes@, from as int),
            found ==> p + 4 <= bytes.len() && marker_at(bytes@, p as int),
        decreases bytes.len() - p + (if found { 0int } else { 1int }),
    {
        if is_marker(bytes, p) {
            found = true;
        } else {
            p += 1;
        }
    }
    p
}

/// The frame at `at`, given the checksum `sum` of its header and payload:
/// its header and its payload if the frame is all there and carries `sum`.
pub fn frame_at(bytes: &[u8], at: usize, sum: u16) -> (r: Option<(Header, &[u8])>)
    ensures
        r is Some <==> {
            &&& at + 4 <= bytes.len()
            &&& marker_at(bytes@, at as int)
            &&& at + frame_len(bytes@, at as int) <= bytes.len()
            &&& stored_checksum(bytes@, at as int) == sum
        },
        r matches Some((header, payload)) ==> {
            &&& header.valid()
            &&& header.wire() == bytes@.subrange(at as int, at + 8)
            &&& header.address == frame_address(bytes@, at as int)
            &&& header.command == frame_command(bytes@, at as int)
            &&& payload@ == frame_payload(bytes@, at as int)
        },
{
    if !is_marker(bytes, at) {
        return None;
    }
    let total = 4 * (bytes[at + 2] as usize) + HEADER_LEN + FOOTER_LEN;
    if bytes.len() - at < total {
        return None;
    }
    let footer = Footer::decode_at(bytes, at + total - FOOTER_LEN);
    proof {
        let s = bytes@;
        let q = at + total - 2;
        assert(u16_le(footer.checksum) == s.subrange(q, q + 2));
        assert(s.subrange(q, q + 2)[0] == s[q] && s.subrange(q, q + 2)[1] == s[q + 1]);
        assert(u16_le(footer.checksum)[0] == (footer.checksum % 256) as u8);
        assert(u16_le(footer.checksum)[1] == (footer.checksum / 256) as u8);
        assert(footer.checksum == stored_checksum(s, at as int));
    }
    if footer.checksum != sum {
        return None;
    }
    let header = Header::decode_at(bytes, at);
    proof {
        lemma_header_fields(header, bytes@, at as int);
        assert(header.magic@ =~= seq![MAGIC_0, MAGIC_1]);
    }
    let payload = slice_subrange(bytes, at + HEADER_LEN, at + total - FOOTER_LEN);
    Some((header, payload))
}

/// Searches for the next intact frame in `bytes`. Returns its header and its
/// payload, if there is one, and the number of bytes that are done with: the
/// bytes passed over and, if a frame is returned, the frame. Bytes are passed
/// over also where no frame is found.
pub fn next_message(bytes: &[u8]) -> (r: (Option<(Header, &[u8])>, usize))
    ensures
        r.1 == hunt(bytes@, 0).processed,
        r.1 <= bytes.len(),
        r.0 is Some <==> hunt(bytes@, 0).frame is Some,
        r.0 matches Some((header, payload)) ==> {
            let at = hunt(bytes@, 0).frame->0;
            &&& header.valid()
            &&& header.wire() == bytes@.subrange(at, at + 8)
            &&& header.address == frame_address(bytes@, at)
            &&& header.command == frame_command(bytes@, at)
            &&& payload@ == frame_payload(bytes@, at)
        },
{
    let mut p: usize = 0;
    loop
        invariant
            p <= bytes.len(),
            hunt(bytes@, p as int) == hunt(bytes@, 0),
        decreases bytes.len() - p,
    {
        proof {
            lemma_hunt_seek(bytes@, p as int);
            lemma_seek_bounds(bytes@, p as int);
        }
        p = seek_marker(bytes, p);
        if bytes.len() - p < 4 {
            return (None, p);
        }
        let total = 4 * (bytes[p + 2] as usize) + HEADER_LEN + FOOTER_LEN;
        if bytes.len() - p < total {
            return (None, p);
        }
        let sum = checksum(slice_subrange(bytes, p, p + total - FOOTER_LEN));
        match frame_at(bytes, p, sum) {
            Some(found) => {
                return (Some(found), p + total);
            },
            None => {
                p = p + total;
            },
        }
    }
}

/// A payload type: one whose encoding is a whole number of 32-bit words that
/// the one-byte length field of a header can count.
pub trait Payload: Wire {
    proof fn lemma_payload_len()
        ensures
            Self::wire_len() % 4 == 0,
            Self::wire_len() <= MAX_PAYLOAD_LEN,
    ;
}

/// A frame with its payload held as a value.
#[derive(Debug, Clone, Copy)]
pub struct Message<T> {
    pub header: Header,
    pub payload: T,
    pub footer: Footer,
}

impl<T: Payload> Message<T> {
    /// The bytes of the message on the bus.
    pub open spec fn wire(&self) -> Seq<u8> {
        self.header.wire() + self.payload.wire() + self.footer.wire()
    }

    /// The message that carries `payload` and the checksum `sum`.
    pub fn with_checksum(address: u16, command: u16, payload: T, sum: u16) -> (message: Self)
        ensures
            message.header.valid(),
            message.header.length == T::wire_len() / 4,
            message.header.address == address,
            message.header.command == command,
            message.payload == payload,
            message.footer.checksum == sum,
            message.wire() == header_wire((T::wire_len() / 4) as u8, address, command)
                + payload.wire() + u16_le(sum),
    {
        proof {
            T::lemma_payload_len();
        }
        let words = (T::size() / 4) as u8;
        Message {
            header: Header::new(words, address, command),
            payload,
            footer: Footer { checksum: sum },
        }
    }

    fn new_raw(address: u16, command: u16, payload: T) -> (message: Self)
        ensures
            message.header.valid(),
            message.header.address == address,
            message.header.command == command,
            message.payload == payload,
            message.wire() == frame_wire(address, command, payload.wire()),
    {
        proof {
            T::lemma_payload_len();
            payload.lemma_wire_len();
        }
        let words = (T::size() / 4) as u8;
        let mut head: Vec<u8> = Vec::new();
        Header::new(words, address, command).encode_into(&mut head);
        payload.encode_into(&mut head);
        assert(head@ =~= header_wire(words, address, command) + payload.wire());
        let sum = checksum(head.as_slice());
        Self::with_checksum(address, command, payload, sum)
    }

    /// Creates a request message with the given target address, command and payload.
    pub fn new_request(address: u16, command: Command, payload: T) -> (message: Self)
        ensures
            message.header.valid(),
            message.header.address == address,
            message.header.command == command.code(),
            message.payload == payload,
            message.wire() == frame_wire(address, command.code(), payload.wire()),
    {
        Self::new_raw(address, command.to_u16(), payload)
    }

    /// Creates a response message with the given source address, command and payload.
    pub fn new_response(address: u16, command: Command, payload: T) -> (message: Self)
        ensures
            message.header.valid(),
            message.header.address == address,
            message.header.command == command.code(),
            message.payload == payload,
            message.wire() == frame_wire(address, command.code(), payload.wire()),
    {
        Self::new_raw(address, command.to_u16(), payload)
    }

    /// The bytes of the message, as they go out on the bus.
    pub fn as_bytes(&self) -> (bytes: Vec<u8>)
        ensures
            bytes@ == self.wire(),
    {
        let mut out: Vec<u8> = Vec::new();
        self.header.encode_into(&mut out);
        self.payload.encode_into(&mut out);
        self.footer.encode_into(&mut out);
        assert(out@ =~= self.wire());
        out
    }
}

/// A frame is found again in its own bytes: the hunter returns it from
/// position 0, with the address, the command and the payload that it was
/// made from, and reports all of its bytes as processed.
pub proof fn lemma_frame_round_trip(address: u16, command: u16, payload: Seq<u8>)
    requires
        payload.len() % 4 == 0,
        payload.len() <= MAX_PAYLOAD_LEN,
    ensures
        ({
            let frame = frame_wire(address, command, payload);
            &&& frame.len() == payload.len() + 10
            &&& hunt(frame, 0) == Hunt { frame: Some(0), processed: frame.len() as int }
            &&& frame_address(frame, 0) == address
            &&& frame_command(frame, 0) == command
            &&& frame_payload(frame, 0) == payload
        }),
{
    let words = (payload.len() / 4) as u8;
    let header = header_wire(words, address, command);
    let head = header + payload;
    let sum = crc16_kermit(head);
    let frame = frame_wire(address, command, payload);
    assert(header.len() == 8);
    assert(frame.len() == payload.len() + 10);
    assert(frame[0] == MAGIC_0 && frame[1] == MAGIC_1 && frame[2] == words && frame[3] == 255
        - words);
    assert(marker_at(frame, 0));
    assert(frame_len(frame, 0) == frame.len());
    assert(frame.subrange(0, frame.len() - 2) =~= head);
    let q = frame.len() - 2;
    assert(frame[q] == u16_le(sum)[0] && frame[q + 1] == u16_le(sum)[1]);
    assert(u16_le(sum)[0] == (sum % 256) as u8 && u16_le(sum)[1] == (sum / 256) as u8);
    assert(stored_checksum(frame, 0) == sum);
    assert(frame_intact(frame, 0));
    assert(frame_payload(frame, 0) =~= payload);
    assert(frame[4] == u16_le(address)[0] && frame[5] == u16_le(address)[1]);
    assert(frame[6] == u16_le(command)[0] && frame[7] == u16_le(command)[1]);
}

/// The hunter returns the frame at the start of a buffer exactly where a
/// marker stands there, the frame that it announces is all there, and its
/// footer holds the checksum of its header and payload.
pub proof fn lemma_frame_at_start(s: Seq<u8>)
    ensures
        hunt(s, 0).frame == Some(0int) <==> {
            &&& s.len() >= 4
            &&& marker_at(s, 0)
            &&& s.len() >= frame_len(s, 0)
            &&& frame_intact(s, 0)
        },
{
    if s.len() >= 4 {
        if !marker_at(s, 0) {
            lemma_hunt_bounds(s, 1);
        } else if s.len() >= frame_len(s, 0) && !frame_intact(s, 0) {
            lemma_hunt_bounds(s, frame_len(s, 0));
        }
    }
}

/// `byte` with bit `bit` flipped.
pub open spec fn flip_bit(byte: u8, bit: u8) -> u8 {
    byte ^ (1u8 << bit)
}

proof fn lemma_flip_changes(byte: u8, bit: u8)
    by (bit_vector)
    requires
        bit < 8,
    ensures
        byte ^ (1u8 << bit) != byte,
{
}

/// A frame with one bit flipped in its magic or in one of its two length
/// bytes is not returned: no marker stands at its start any more.
pub proof fn lemma_damaged_marker(s: Seq<u8>, index: int, bit: u8)
    requires
        s.len() >= 4,
        marker_at(s, 0),
        0 <= index < 4,
        bit < 8,
    ensures
        !marker_at(s.update(index, flip_bit(s[index], bit)), 0),
        hunt(s.update(index, flip_bit(s[index], bit)), 0).frame != Some(0int),
{
    lemma_flip_changes(s[index], bit);
    lemma_frame_at_start(s.update(index, flip_bit(s[index], bit)));
}

/// A frame with one bit flipped in its footer is not returned, and all of it
/// is passed over: the footer no longer holds the checksum of the header and
/// the payload. `s` is a buffer that holds one intact frame and nothing else.
pub proof fn lemma_damaged_footer(s: Seq<u8>, index: int, bit: u8)
    requires
        hunt(s, 0) == (Hunt { frame: Some(0int), processed: s.len() as int }),
        s.len() - 2 <= index < s.len(),
        bit < 8,
    ensures
        hunt(s.update(index, flip_bit(s[index], bit)), 0) == (Hunt {
            frame: None,
            processed: s.len() as int,
        }),
{
    let damaged = s.update(index, flip_bit(s[index], bit));
    let total = s.len() as int;
    lemma_frame_at_start(s);
    lemma_flip_changes(s[index], bit);
    assert(frame_len(s, 0) == total);
    assert(damaged.subrange(0, total - 2) =~= s.subrange(0, total - 2));
    assert(damaged[total - 2] != s[total - 2] || damaged[total - 1] != s[total - 1]);
    assert(stored_checksum(damaged, 0) != stored_checksum(s, 0));
    assert(!frame_intact(damaged, 0));
    assert(hunt(damaged, total).frame is None);
}

/// A frame with one bit flipped in its address, its command or its payload is
/// returned exactly where the checksum of the damaged bytes is that of the
/// intact ones; where it is another, the frame is not returned and all of it
/// is passed over. `s` is a buffer that holds one intact frame and nothing
/// else.
pub proof fn lemma_damaged_body(s: Seq<u8>, index: int, bit: u8)
    requires
        hunt(s, 0) == (Hunt { frame: Some(0int), processed: s.len() as int }),
        4 <= index < s.len() - 2,
        bit < 8,
    ensures
        ({
            let damaged = s.update(index, flip_bit(s[index], bit));
            let head = s.subrange(0, s.len() - 2);
            let same = crc16_kermit(damaged.subrange(0, s.len() - 2)) == crc16_kermit(head);
            &&& damaged.subrange(0, s.len() - 2) == head.update(index, flip_bit(s[index], bit))
            &&& damaged.subrange(0, s.len() - 2) != head
            &&& same ==> hunt(damaged, 0) == (Hunt {
                frame: Some(0int),
                processed: s.len() as int,
            })
            &&& !same ==> hunt(damaged, 0) == (Hunt { frame: None, processed: s.len() as int })
        }),
{
    let damaged = s.update(index, flip_bit(s[index], bit));
    let total = s.len() as int;
    let head = s.subrange(0, total - 2);
    lemma_frame_at_start(s);
    lemma_flip_changes(s[index], bit);
    assert(frame_len(s, 0) == total);
    assert(damaged.subrange(0, total - 2) =~= head.update(index, flip_bit(s[index], bit)));
    assert(damaged.subrange(0, total - 2)[index] != head[index]);
    assert(marker_at(damaged, 0));
    assert(frame_len(damaged, 0) == total);
    assert(stored_checksum(damaged, 0) == stored_checksum(s, 0));
    assert(hunt(damaged, total).frame is None);
}

} // verus!
