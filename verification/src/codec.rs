//! The byte codec: fixed-width little-endian integers and length-prefixed
//! byte strings, read from and written to a cursor over bytes.
//!
//! Reads are all-or-nothing: a read that would pass the end of the bytes
//! fails with `Truncated` and leaves the cursor where it was.

use vstd::prelude::*;
use vstd::slice::slice_subrange;
use byteorder::{ByteOrder, LittleEndian};
use crate::binary::Binary;
use crate::error::StorageError;

verus! {

/// The two bytes of `value`, low byte first.
pub open spec fn u16_le(value: u16) -> Seq<u8> {
    seq![(value % 256) as u8, (value / 256) as u8]
}

/// The four bytes of `value`, low byte first.
pub open spec fn u32_le(value: u32) -> Seq<u8> {
    seq![
        (value % 256) as u8,
        (value / 256 % 256) as u8,
        (value / 65536 % 256) as u8,
        (value / 16777216) as u8,
    ]
}

/// The number whose two little-endian bytes stand at `pos` in `data`.
pub open spec fn u16_at(data: Seq<u8>, pos: int) -> u16 {
    (data[pos] + 256 * data[pos + 1]) as u16
}

/// The number whose four little-endian bytes stand at `pos` in `data`.
pub open spec fn u32_at(data: Seq<u8>, pos: int) -> u32 {
    (data[pos] + 256 * data[pos + 1] + 65536 * data[pos + 2] + 16777216 * data[pos + 3]) as u32
}

/// The byte that stores a signed code, in two's complement.
pub open spec fn i8_byte(value: i8) -> u8 {
    if value >= 0 {
        value as u8
    } else {
        (value + 256) as u8
    }
}

/// The signed code a byte stores, in two's complement.
pub open spec fn byte_i8(byte: u8) -> i8 {
    if byte < 128 {
        byte as i8
    } else {
        (byte - 256) as i8
    }
}

/// Two little-endian bytes decode to the number they were encoded from.
pub proof fn lemma_u16_roundtrip(value: u16)
    ensures
        u16_le(value).len() == 2,
        u16_at(u16_le(value), 0) == value,
{
}

/// Four little-endian bytes decode to the number they were encoded from.
pub proof fn lemma_u32_roundtrip(value: u32)
    ensures
        u32_le(value).len() == 4,
        u32_at(u32_le(value), 0) == value,
{
}

/// A signed code is found again in the byte that stores it.
pub proof fn lemma_i8_roundtrip(value: i8)
    ensures
        byte_i8(i8_byte(value)) == value,
{
}

/// The digits of a number written to base 256 are found again by division.
proof fn lemma_base_256(b0: int, b1: int, b2: int, b3: int)
    requires
        0 <= b0 < 256,
        0 <= b1 < 256,
        0 <= b2 < 256,
        0 <= b3 < 256,
    ensures
        0 <= b0 + 256 * b1 + 65536 * b2 + 16777216 * b3 < 0x1_0000_0000,
        (b0 + 256 * b1 + 65536 * b2 + 16777216 * b3) % 256 == b0,
        (b0 + 256 * b1 + 65536 * b2 + 16777216 * b3) / 256 % 256 == b1,
        (b0 + 256 * b1 + 65536 * b2 + 16777216 * b3) / 65536 % 256 == b2,
        (b0 + 256 * b1 + 65536 * b2 + 16777216 * b3) / 16777216 == b3,
{
}

/// Encoding the number read at `pos` gives back the bytes that stand there.
pub proof fn lemma_le_bytes_at(data: Seq<u8>, pos: int)
    requires
        0 <= pos,
    ensures
        pos + 2 <= data.len() ==> u16_le(u16_at(data, pos)) == data.subrange(pos, pos + 2),
        pos + 4 <= data.len() ==> u32_le(u32_at(data, pos)) == data.subrange(pos, pos + 4),
        pos < data.len() ==> i8_byte(byte_i8(data[pos])) == data[pos],
{
    if pos + 2 <= data.len() {
        lemma_base_256(data[pos] as int, data[pos + 1] as int, 0, 0);
    }
    if pos + 4 <= data.len() {
        lemma_base_256(
            data[pos] as int,
            data[pos + 1] as int,
            data[pos + 2] as int,
            data[pos + 3] as int,
        );
    }
}

/// `byteorder::LittleEndian::read_u16`: the number stored in the first two
/// bytes of `buf`, low byte first. The outside function panics on a shorter
/// buffer, which the precondition rules out.
#[verifier::external_body]
fn le_read_u16(buf: &[u8]) -> (value: u16)
    requires
        buf@.len() >= 2,
    ensures
        value == u16_at(buf@, 0),
{
    LittleEndian::read_u16(buf)
}

/// `byteorder::LittleEndian::read_u32`: the number stored in the first four
/// bytes of `buf`, low byte first. The outside function panics on a shorter
/// buffer, which the precondition rules out.
#[verifier::external_body]
fn le_read_u32(buf: &[u8]) -> (value: u32)
    requires
        buf@.len() >= 4,
    ensures
        value == u32_at(buf@, 0),
{
    LittleEndian::read_u32(buf)
}

/// `byteorder::LittleEndian::write_u16` into a buffer of two bytes: the bytes
/// of `value`, low byte first.
#[verifier::external_body]
fn le_write_u16(value: u16) -> (bytes: [u8; 2])
    ensures
        bytes@ == u16_le(value),
{
    let mut bytes = [0u8; 2];
    LittleEndian::write_u16(&mut bytes, value);
    bytes
}

/// `byteorder::LittleEndian::write_u32` into a buffer of four bytes: the
/// bytes of `value`, low byte first.
#[verifier::external_body]
fn le_write_u32(value: u32) -> (bytes: [u8; 4])
    ensures
        bytes@ == u32_le(value),
{
    let mut bytes = [0u8; 4];
    LittleEndian::write_u32(&mut bytes, value);
    bytes
}

/// What a reading cursor sees: the bytes, where it stands, and where the part
/// it may read ends.
pub struct Window {
    pub data: Seq<u8>,
    pub pos: int,
    pub end: int,
}

impl Window {
    /// A window over all of `data`, standing at its start.
    pub open spec fn whole(data: Seq<u8>) -> Window {
        Window { data, pos: 0, end: data.len() as int }
    }

    /// The position lies inside the readable part, which lies inside the
    /// bytes.
    pub open spec fn wf(self) -> bool {
        0 <= self.pos <= self.end <= self.data.len()
    }

    /// How many bytes are left to read.
    pub open spec fn remaining(self) -> int {
        self.end - self.pos
    }

    /// The same window, `n` bytes further on.
    pub open spec fn advance(self, n: int) -> Window {
        Window { pos: self.pos + n, ..self }
    }

    /// The same position, with the readable part cut to the next `n` bytes.
    pub open spec fn narrow(self, n: int) -> Window {
        Window { end: self.pos + n, ..self }
    }

    /// The error of a read of `needed` bytes that does not fit.
    pub open spec fn truncated(self, needed: int) -> StorageError {
        StorageError::Truncated {
            offset: self.pos as u64,
            needed: needed as u64,
            available: self.remaining() as u64,
        }
    }
}

/// What reading one byte yields.
pub open spec fn spec_read_u8(w: Window) -> Result<(u8, Window), StorageError> {
    if w.remaining() >= 1 {
        Ok((w.data[w.pos], w.advance(1)))
    } else {
        Err(w.truncated(1))
    }
}

/// What reading one signed byte yields.
pub open spec fn spec_read_i8(w: Window) -> Result<(i8, Window), StorageError> {
    if w.remaining() >= 1 {
        Ok((byte_i8(w.data[w.pos]), w.advance(1)))
    } else {
        Err(w.truncated(1))
    }
}

/// What reading a 16-bit number yields.
pub open spec fn spec_read_u16(w: Window) -> Result<(u16, Window), StorageError> {
    if w.remaining() >= 2 {
        Ok((u16_at(w.data, w.pos), w.advance(2)))
    } else {
        Err(w.truncated(2))
    }
}

/// What reading a 32-bit number yields.
pub open spec fn spec_read_u32(w: Window) -> Result<(u32, Window), StorageError> {
    if w.remaining() >= 4 {
        Ok((u32_at(w.data, w.pos), w.advance(4)))
    } else {
        Err(w.truncated(4))
    }
}

/// What skipping `n` bytes yields.
pub open spec fn spec_skip(w: Window, n: int) -> Result<Window, StorageError> {
    if w.remaining() >= n {
        Ok(w.advance(n))
    } else {
        Err(w.truncated(n))
    }
}

/// What reading a length-prefixed byte string yields: the prefix, then
/// exactly that many bytes.
pub open spec fn spec_read_blob(w: Window) -> Result<(Seq<u8>, Window), StorageError> {
    match spec_read_u32(w) {
        Err(e) => Err(e),
        Ok((n, body)) => if body.remaining() >= n {
            Ok((body.data.subrange(body.pos, body.pos + n), body.advance(n as int)))
        } else {
            Err(body.truncated(n as int))
        },
    }
}

/// A read met its model: on success the value is the model's and the cursor
/// has moved as the model says; on failure the error is the model's and the
/// cursor has not moved.
pub open spec fn read_meets<T>(
    r: Result<T, StorageError>,
    before: Window,
    after: Window,
    model: Result<(T, Window), StorageError>,
) -> bool {
    match model {
        Ok((value, w)) => r == Ok::<T, StorageError>(value) && after == w,
        Err(e) => r == Err::<T, StorageError>(e) && after == before,
    }
}

/// A cursor that reads a borrowed byte string from front to back.
#[derive(Clone, Copy, Debug)]
pub struct ByteReader<'a> {
    data: &'a [u8],
    pos: usize,
    end: usize,
}

impl<'a> View for ByteReader<'a> {
    type V = Window;

    closed spec fn view(&self) -> Window {
        Window { data: self.data@, pos: self.pos as int, end: self.end as int }
    }
}

impl<'a> ByteReader<'a> {
    #[verifier::type_invariant]
    spec fn in_bounds(self) -> bool {
        self.pos <= self.end <= self.data@.len()
    }

    /// A cursor at the start of `data` that may read all of it.
    pub fn new(data: &'a [u8]) -> (r: ByteReader<'a>)
        ensures
            r@ == Window::whole(data@),
            r@.wf(),
    {
        ByteReader { data, pos: 0, end: data.len() }
    }

    /// The offset of the next byte to be read.
    pub fn position(&self) -> (p: usize)
        ensures
            p == self@.pos,
            self@.wf(),
    {
        proof {
            use_type_invariant(self);
        }
        self.pos
    }

    /// The number of bytes left to read.
    pub fn remaining(&self) -> (n: usize)
        ensures
            n == self@.remaining(),
            self@.wf(),
    {
        proof {
            use_type_invariant(self);
        }
        self.end - self.pos
    }

    /// Tells whether every byte has been read.
    pub fn is_at_end(&self) -> (b: bool)
        ensures
            b == (self@.remaining() == 0),
            self@.wf(),
    {
        proof {
            use_type_invariant(self);
        }
        self.pos == self.end
    }

    /// The `Truncated` error of a read of `needed` bytes at this position.
    fn truncated(&self, needed: u64) -> (e: StorageError)
        ensures
            e == self@.truncated(needed as int),
    {
        proof {
            use_type_invariant(self);
        }
        StorageError::Truncated {
            offset: self.pos as u64,
            needed,
            available: (self.end - self.pos) as u64,
        }
    }

    /// Checks that `needed` bytes are left to read, without reading them.
    pub fn need(&self, needed: u64) -> (r: Result<(), StorageError>)
        ensures
            self@.remaining() >= needed ==> r == Ok::<(), StorageError>(()),
            self@.remaining() < needed ==> r == Err::<(), StorageError>(
                self@.truncated(needed as int),
            ),
            self@.wf(),
    {
        proof {
            use_type_invariant(self);
        }
        if ((self.end - self.pos) as u64) < needed {
            Err(self.truncated(needed))
        } else {
            Ok(())
        }
    }

    /// Reads one byte.
    pub fn read_u8(&mut self) -> (r: Result<u8, StorageError>)
        ensures
            read_meets(r, old(self)@, final(self)@, spec_read_u8(old(self)@)),
            final(self)@.wf(),
    {
        proof {
            use_type_invariant(&*self);
        }
        if self.end - self.pos < 1 {
            return Err(self.truncated(1));
        }
        let value = self.data[self.pos];
        self.pos = self.pos + 1;
        Ok(value)
    }

    /// Reads one signed byte, stored in two's complement.
    pub fn read_i8(&mut self) -> (r: Result<i8, StorageError>)
        ensures
            read_meets(r, old(self)@, final(self)@, spec_read_i8(old(self)@)),
            final(self)@.wf(),
    {
        match self.read_u8() {
            Err(e) => Err(e),
            Ok(byte) => if byte < 128 {
                Ok(byte as i8)
            } else {
                Ok((byte as i16 - 256) as i8)
            },
        }
    }

    /// Reads a 16-bit number, low byte first.
    pub fn read_u16(&mut self) -> (r: Result<u16, StorageError>)
        ensures
            read_meets(r, old(self)@, final(self)@, spec_read_u16(old(self)@)),
            final(self)@.wf(),
    {
        proof {
            use_type_invariant(&*self);
        }
        if self.end - self.pos < 2 {
            return Err(self.truncated(2));
        }
        let value = le_read_u16(slice_subrange(self.data, self.pos, self.pos + 2));
        self.pos = self.pos + 2;
        Ok(value)
    }

    /// Reads a 32-bit number, low byte first.
    pub fn read_u32(&mut self) -> (r: Result<u32, StorageError>)
        ensures
            read_meets(r, old(self)@, final(self)@, spec_read_u32(old(self)@)),
            final(self)@.wf(),
    {
        proof {
            use_type_invariant(&*self);
        }
        if self.end - self.pos < 4 {
            return Err(self.truncated(4));
        }
        let value = le_read_u32(slice_subrange(self.data, self.pos, self.pos + 4));
        self.pos = self.pos + 4;
        Ok(value)
    }

    /// Moves past the next `n` bytes without looking at them.
    pub fn skip(&mut self, n: u32) -> (r: Result<(), StorageError>)
        ensures
            match spec_skip(old(self)@, n as int) {
                Ok(w) => r == Ok::<(), StorageError>(()) && final(self)@ == w,
                Err(e) => r == Err::<(), StorageError>(e) && final(self)@ == old(self)@,
            },
            final(self)@.wf(),
    {
        proof {
            use_type_invariant(&*self);
        }
        if self.end - self.pos < n as usize {
            return Err(self.truncated(n as u64));
        }
        self.pos = self.pos + n as usize;
        Ok(())
    }

    /// Hands out a cursor over exactly the next `n` bytes and moves past
    /// them. Offsets seen through the new cursor are offsets in the same byte
    /// string.
    pub fn take(&mut self, n: u32) -> (r: Result<ByteReader<'a>, StorageError>)
        ensures
            match spec_skip(old(self)@, n as int) {
                Ok(w) => r matches Ok(part) && part@ == old(self)@.narrow(n as int) && part@.wf()
                    && final(self)@ == w,
                Err(e) => r == Err::<ByteReader<'a>, StorageError>(e) && final(self)@ == old(
                    self,
                )@,
            },
            final(self)@.wf(),
    {
        proof {
            use_type_invariant(&*self);
        }
        if self.end - self.pos < n as usize {
            return Err(self.truncated(n as u64));
        }
        let part = ByteReader { data: self.data, pos: self.pos, end: self.pos + n as usize };
        self.pos = self.pos + n as usize;
        Ok(part)
    }

    /// Reads a length-prefixed byte string: a 32-bit length, then exactly
    /// that many bytes.
    pub fn read_blob(&mut self) -> (r: Result<Binary, StorageError>)
        ensures
            match spec_read_blob(old(self)@) {
                Ok((bytes, w)) => r matches Ok(blob) && blob@ == bytes && final(self)@ == w,
                Err(e) => r == Err::<Binary, StorageError>(e) && final(self)@ == old(self)@,
            },
            final(self)@.wf(),
    {
        proof {
            use_type_invariant(&*self);
        }
        let mut probe = *self;
        let n = match probe.read_u32() {
            Err(e) => {
                return Err(e);
            },
            Ok(n) => n,
        };
        if probe.remaining() < n as usize {
            return Err(probe.truncated(n as u64));
        }
        let start = probe.position();
        let bytes = slice_subrange(self.data, start, start + n as usize);
        let mut payload: Vec<u8> = Vec::new();
        payload.extend_from_slice(bytes);
        assert(payload@ =~= bytes@);
        match Binary::new(payload) {
            Err(e) => Err(e),
            Ok(blob) => {
                self.pos = start + n as usize;
                Ok(blob)
            },
        }
    }
}

/// A cursor that appends to a growing byte string.
#[derive(Debug)]
pub struct ByteWriter {
    bytes: Vec<u8>,
}

impl View for ByteWriter {
    type V = Seq<u8>;

    /// Everything written so far.
    closed spec fn view(&self) -> Seq<u8> {
        self.bytes@
    }
}

impl ByteWriter {
    /// A writer that has written nothing.
    pub fn new() -> (w: ByteWriter)
        ensures
            w@ == Seq::<u8>::empty(),
    {
        ByteWriter { bytes: Vec::new() }
    }

    /// The number of bytes written so far.
    pub fn position(&self) -> (p: usize)
        ensures
            p == self@.len(),
    {
        self.bytes.len()
    }

    /// Gives up everything written.
    pub fn into_bytes(self) -> (bytes: Vec<u8>)
        ensures
            bytes@ == self@,
    {
        self.bytes
    }

    /// Writes one byte.
    pub fn write_u8(&mut self, value: u8)
        ensures
            final(self)@ == old(self)@.push(value),
    {
        self.bytes.push(value);
    }

    /// Writes one signed byte in two's complement.
    pub fn write_i8(&mut self, value: i8)
        ensures
            final(self)@ == old(self)@.push(i8_byte(value)),
    {
        if value >= 0 {
            self.bytes.push(value as u8);
        } else {
            self.bytes.push((value as i16 + 256) as u8);
        }
    }

    /// Writes a 16-bit number, low byte first.
    pub fn write_u16(&mut self, value: u16)
        ensures
            final(self)@ == old(self)@ + u16_le(value),
    {
        let b = le_write_u16(value);
        self.bytes.push(b[0]);
        self.bytes.push(b[1]);
    }

    /// Writes a 32-bit number, low byte first.
    pub fn write_u32(&mut self, value: u32)
        ensures
            final(self)@ == old(self)@ + u32_le(value),
    {
        let b = le_write_u32(value);
        self.bytes.push(b[0]);
        self.bytes.push(b[1]);
        self.bytes.push(b[2]);
        self.bytes.push(b[3]);
    }

    /// Writes bytes as they are, with no prefix.
    pub fn write_bytes(&mut self, bytes: &[u8])
        ensures
            final(self)@ == old(self)@ + bytes@,
    {
        self.bytes.extend_from_slice(bytes);
    }

    /// Writes a length-prefixed byte string: its 32-bit length, then its
    /// bytes.
    pub fn write_blob(&mut self, blob: &Binary)
        ensures
            final(self)@ == old(self)@ + u32_le(blob@.len() as u32) + blob@,
    {
        self.write_u32(blob.length());
        self.write_bytes(blob.payload());
    }
}

} // verus!
