//! A byte cursor: big-endian reads over an in-memory buffer, and the matching writer.

use crate::error::{is_eof, IoError, IoErrorKind};
use crate::fixed::{F2Dot14, Fixed};
use crate::wire::{
    be_i16, be_i32, be_i64, be_u16, be_u24, be_u32, be_u64, i16s_bytes, signed, u16_bytes,
    u16s_bytes, u24_bytes, u32_bytes, u64_bytes, unsigned, zeros,
};
use vstd::prelude::*;
use vstd::slice::slice_to_vec;
use vstd::utf8::{decode_utf8, valid_utf8};

verus! {

/// What a [`FontReader`] stands for: the whole buffer and the index of the next byte.
pub struct Cursor {
    pub data: Seq<u8>,
    pub pos: int,
}

impl Cursor {
    /// At least `n` bytes remain.
    pub open spec fn has(self, n: int) -> bool {
        self.pos + n <= self.data.len()
    }

    /// The same buffer with the position moved forward by `n`.
    pub open spec fn advance(self, n: int) -> Cursor {
        Cursor { data: self.data, pos: self.pos + n }
    }

    /// The same buffer with the position set to `p`.
    pub open spec fn at(self, p: int) -> Cursor {
        Cursor { data: self.data, pos: p }
    }
}

/// Reads big-endian values from a buffer it owns, one after the other.
pub struct FontReader {
    data: Vec<u8>,
    pos: usize,
}

impl View for FontReader {
    type V = Cursor;

    closed spec fn view(&self) -> Cursor {
        Cursor { data: self.data@, pos: self.pos as int }
    }
}

fn eof() -> (e: IoError)
    ensures
        e.kind == IoErrorKind::UnexpectedEof,
{
    IoError::new(IoErrorKind::UnexpectedEof, "Not enough bytes")
}

impl FontReader {
    #[verifier::type_invariant]
    spec fn in_bounds(self) -> bool {
        self.pos <= self.data.len()
    }

    pub fn new(data: Vec<u8>) -> (r: Self)
        ensures
            r@.data == data@,
            r@.pos == 0,
    {
        Self { data, pos: 0 }
    }

    pub fn from_slice(slice: &[u8]) -> (r: Self)
        ensures
            r@.data == slice@,
            r@.pos == 0,
    {
        Self { data: slice_to_vec(slice), pos: 0 }
    }

    pub fn position(&self) -> (p: usize)
        ensures
            p == self@.pos,
            0 <= self@.pos <= self@.data.len(),
    {
        proof {
            use_type_invariant(self);
        }
        self.pos
    }

    /// Moves the cursor to `pos`; a position past the end is refused and nothing changes.
    pub fn set_position(&mut self, pos: usize) -> (r: Result<(), IoError>)
        ensures
            pos <= old(self)@.data.len() ==> r is Ok && final(self)@ == old(self)@.at(pos as int),
            pos > old(self)@.data.len() ==> is_eof(r) && final(self)@ == old(self)@,
    {
        if pos > self.data.len() {
            return Err(IoError::new(IoErrorKind::UnexpectedEof, "Position out of bounds"));
        }
        self.pos = pos;
        Ok(())
    }

    /// Moves the cursor forward by `bytes`; a move past the end is refused and nothing changes.
    pub fn skip(&mut self, bytes: usize) -> (r: Result<(), IoError>)
        ensures
            old(self)@.has(bytes as int) ==> r is Ok && final(self)@ == old(self)@.advance(
                bytes as int,
            ),
            !old(self)@.has(bytes as int) ==> is_eof(r) && final(self)@ == old(self)@,
    {
        proof {
            use_type_invariant(&*self);
        }
        if bytes > self.data.len() - self.pos {
            return Err(IoError::new(IoErrorKind::UnexpectedEof, "Position out of bounds"));
        }
        self.pos = self.pos + bytes;
        Ok(())
    }

    /// Moves the cursor back to `pos`, a position inside the buffer.
    pub(crate) fn rewind_to(&mut self, pos: usize)
        requires
            pos <= old(self)@.data.len(),
        ensures
            final(self)@ == old(self)@.at(pos as int),
    {
        self.pos = pos;
    }

    /// The buffer's length is a machine integer.
    proof fn lemma_len_fits(&self)
        ensures
            self@.data.len() <= usize::MAX,
    {
        assert(self.data.len() <= usize::MAX);
    }

    /// The byte `off` bytes ahead of the cursor, which stays where it is.
    pub(crate) fn peek_u8(&self, off: usize) -> (v: u8)
        requires
            self@.has(off + 1),
        ensures
            v == self@.data[self@.pos + off],
    {
        proof {
            self.lemma_len_fits();
        }
        self.data[self.pos + off]
    }

    /// The 16-bit value `off` bytes ahead of the cursor, which stays where it is.
    pub(crate) fn peek_u16(&self, off: usize) -> (v: u16)
        requires
            self@.has(off + 2),
        ensures
            v == be_u16(self@.data, self@.pos + off),
    {
        proof {
            self.lemma_len_fits();
        }
        u16_at(&self.data, self.pos + off)
    }

    /// The signed 16-bit value `off` bytes ahead of the cursor, which stays where it is.
    pub(crate) fn peek_i16(&self, off: usize) -> (v: i16)
        requires
            self@.has(off + 2),
        ensures
            v == be_i16(self@.data, self@.pos + off),
    {
        proof {
            self.lemma_len_fits();
        }
        i16_of(u16_at(&self.data, self.pos + off))
    }

    /// The 32-bit value `off` bytes ahead of the cursor, which stays where it is.
    pub(crate) fn peek_u32(&self, off: usize) -> (v: u32)
        requires
            self@.has(off + 4),
        ensures
            v == be_u32(self@.data, self@.pos + off),
    {
        proof {
            self.lemma_len_fits();
        }
        u32_at(&self.data, self.pos + off)
    }

    /// The signed 32-bit value `off` bytes ahead of the cursor, which stays where it is.
    pub(crate) fn peek_i32(&self, off: usize) -> (v: i32)
        requires
            self@.has(off + 4),
        ensures
            v == be_i32(self@.data, self@.pos + off),
    {
        proof {
            self.lemma_len_fits();
        }
        i32_of(u32_at(&self.data, self.pos + off))
    }

    /// The 16.16 fixed-point value `off` bytes ahead of the cursor, which stays where it is.
    pub(crate) fn peek_fixed(&self, off: usize) -> (v: Fixed)
        requires
            self@.has(off + 4),
        ensures
            v.raw == be_i32(self@.data, self@.pos + off),
    {
        Fixed { raw: self.peek_i32(off) }
    }

    /// The `n` 16-bit values that start `off` bytes ahead of the cursor, which stays where it
    /// is.
    pub(crate) fn peek_u16_array(&self, off: usize, n: usize) -> (v: Vec<u16>)
        requires
            self@.has(off + 2 * n),
        ensures
            v@.len() == n,
            forall|i: int| 0 <= i < n ==> #[trigger] v@[i] == be_u16(
                self@.data,
                self@.pos + off + 2 * i,
            ),
    {
        proof {
            self.lemma_len_fits();
        }
        let mut v: Vec<u16> = Vec::with_capacity(n);
        let mut i: usize = 0;
        while i < n
            invariant
                i <= n,
                self@.has(off + 2 * n),
                self@.data.len() <= usize::MAX,
                v@.len() == i,
                forall|k: int| 0 <= k < i ==> #[trigger] v@[k] == be_u16(
                    self@.data,
                    self@.pos + off + 2 * k,
                ),
            decreases n - i,
        {
            v.push(self.peek_u16(off + 2 * i));
            i = i + 1;
        }
        v
    }

    /// The `n` 32-bit values that start `off` bytes ahead of the cursor, which stays where it
    /// is.
    pub(crate) fn peek_u32_array(&self, off: usize, n: usize) -> (v: Vec<u32>)
        requires
            self@.has(off + 4 * n),
        ensures
            v@.len() == n,
            forall|i: int| 0 <= i < n ==> #[trigger] v@[i] == be_u32(
                self@.data,
                self@.pos + off + 4 * i,
            ),
    {
        proof {
            self.lemma_len_fits();
        }
        let mut v: Vec<u32> = Vec::new();
        let mut i: usize = 0;
        while i < n
            invariant
                i <= n,
                self@.has(off + 4 * n),
                self@.data.len() <= usize::MAX,
                v@.len() == i,
                forall|k: int| 0 <= k < i ==> #[trigger] v@[k] == be_u32(
                    self@.data,
                    self@.pos + off + 4 * k,
                ),
            decreases n - i,
        {
            v.push(self.peek_u32(off + 4 * i));
            i = i + 1;
        }
        v
    }

    /// The `n` signed 16-bit values that start `off` bytes ahead of the cursor, which stays
    /// where it is.
    pub(crate) fn peek_i16_array(&self, off: usize, n: usize) -> (v: Vec<i16>)
        requires
            self@.has(off + 2 * n),
        ensures
            v@.len() == n,
            forall|i: int| 0 <= i < n ==> #[trigger] v@[i] == be_i16(
                self@.data,
                self@.pos + off + 2 * i,
            ),
    {
        proof {
            self.lemma_len_fits();
        }
        let mut v: Vec<i16> = Vec::with_capacity(n);
        let mut i: usize = 0;
        while i < n
            invariant
                i <= n,
                self@.has(off + 2 * n),
                self@.data.len() <= usize::MAX,
                v@.len() == i,
                forall|k: int| 0 <= k < i ==> #[trigger] v@[k] == be_i16(
                    self@.data,
                    self@.pos + off + 2 * k,
                ),
            decreases n - i,
        {
            v.push(self.peek_i16(off + 2 * i));
            i = i + 1;
        }
        v
    }

    /// A copy of the `n` bytes that start `off` bytes ahead of the cursor, which stays where
    /// it is.
    pub(crate) fn peek_bytes(&self, off: usize, n: usize) -> (v: Vec<u8>)
        requires
            self@.has(off + n),
        ensures
            v@ == self@.data.subrange(self@.pos + off, self@.pos + off + n),
    {
        proof {
            self.lemma_len_fits();
        }
        copy_range(&self.data, self.pos + off, self.pos + off + n)
    }

    /// Moves the cursor forward by `n` bytes that are known to remain.
    pub(crate) fn advance_by(&mut self, n: usize)
        requires
            old(self)@.has(n as int),
        ensures
            final(self)@ == old(self)@.advance(n as int),
    {
        proof {
            self.lemma_len_fits();
        }
        self.pos = self.pos + n;
    }

    pub fn remaining(&self) -> (n: usize)
        ensures
            n == self@.data.len() - self@.pos,
            0 <= self@.pos <= self@.data.len(),
    {
        proof {
            use_type_invariant(self);
        }
        self.data.len() - self.pos
    }

    pub fn is_empty(&self) -> (b: bool)
        ensures
            b == (self@.pos >= self@.data.len()),
    {
        self.pos >= self.data.len()
    }

    pub fn into_inner(self) -> (data: Vec<u8>)
        ensures
            data@ == self@.data,
    {
        self.data
    }

    pub fn read_u8(&mut self) -> (r: Result<u8, IoError>)
        ensures
            old(self)@.has(1) ==> r == Ok::<u8, IoError>(old(self)@.data[old(self)@.pos])
                && final(self)@ == old(self)@.advance(1),
            !old(self)@.has(1) ==> is_eof(r) && final(self)@ == old(self)@,
    {
        proof {
            use_type_invariant(&*self);
        }
        if self.data.len() - self.pos < 1 {
            return Err(eof());
        }
        let val = self.data[self.pos];
        self.pos = self.pos + 1;
        Ok(val)
    }

    pub fn read_i8(&mut self) -> (r: Result<i8, IoError>)
        ensures
            old(self)@.has(1) ==> r == Ok::<i8, IoError>(
                signed(old(self)@.data[old(self)@.pos] as int, 0x80) as i8,
            ) && final(self)@ == old(self)@.advance(1),
            !old(self)@.has(1) ==> is_eof(r) && final(self)@ == old(self)@,
    {
        match self.read_u8() {
            Ok(b) => Ok(i8_of(b)),
            Err(e) => Err(e),
        }
    }

    pub fn read_u16(&mut self) -> (r: Result<u16, IoError>)
        ensures
            old(self)@.has(2) ==> r == Ok::<u16, IoError>(
                be_u16(old(self)@.data, old(self)@.pos) as u16,
            ) && final(self)@ == old(self)@.advance(2),
            !old(self)@.has(2) ==> is_eof(r) && final(self)@ == old(self)@,
    {
        proof {
            use_type_invariant(&*self);
        }
        if self.data.len() - self.pos < 2 {
            return Err(eof());
        }
        let val = u16_at(&self.data, self.pos);
        self.pos = self.pos + 2;
        Ok(val)
    }

    pub fn read_i16(&mut self) -> (r: Result<i16, IoError>)
        ensures
            old(self)@.has(2) ==> r == Ok::<i16, IoError>(
                be_i16(old(self)@.data, old(self)@.pos) as i16,
            ) && final(self)@ == old(self)@.advance(2),
            !old(self)@.has(2) ==> is_eof(r) && final(self)@ == old(self)@,
    {
        match self.read_u16() {
            Ok(v) => Ok(i16_of(v)),
            Err(e) => Err(e),
        }
    }

    pub fn read_u24(&mut self) -> (r: Result<u32, IoError>)
        ensures
            old(self)@.has(3) ==> r == Ok::<u32, IoError>(
                be_u24(old(self)@.data, old(self)@.pos) as u32,
            ) && final(self)@ == old(self)@.advance(3),
            !old(self)@.has(3) ==> is_eof(r) && final(self)@ == old(self)@,
    {
        proof {
            use_type_invariant(&*self);
        }
        if self.data.len() - self.pos < 3 {
            return Err(eof());
        }
        let hi = u16_at(&self.data, self.pos);
        let lo = self.data[self.pos + 2];
        self.pos = self.pos + 3;
        Ok(hi as u32 * 0x100 + lo as u32)
    }

    pub fn read_u32(&mut self) -> (r: Result<u32, IoError>)
        ensures
            old(self)@.has(4) ==> r == Ok::<u32, IoError>(
                be_u32(old(self)@.data, old(self)@.pos) as u32,
            ) && final(self)@ == old(self)@.advance(4),
            !old(self)@.has(4) ==> is_eof(r) && final(self)@ == old(self)@,
    {
        proof {
            use_type_invariant(&*self);
        }
        if self.data.len() - self.pos < 4 {
            return Err(eof());
        }
        let val = u32_at(&self.data, self.pos);
        self.pos = self.pos + 4;
        Ok(val)
    }

    pub fn read_i32(&mut self) -> (r: Result<i32, IoError>)
        ensures
            old(self)@.has(4) ==> r == Ok::<i32, IoError>(
                be_i32(old(self)@.data, old(self)@.pos) as i32,
            ) && final(self)@ == old(self)@.advance(4),
            !old(self)@.has(4) ==> is_eof(r) && final(self)@ == old(self)@,
    {
        match self.read_u32() {
            Ok(v) => Ok(i32_of(v)),
            Err(e) => Err(e),
        }
    }

    pub fn read_u64(&mut self) -> (r: Result<u64, IoError>)
        ensures
            old(self)@.has(8) ==> r == Ok::<u64, IoError>(
                be_u64(old(self)@.data, old(self)@.pos) as u64,
            ) && final(self)@ == old(self)@.advance(8),
            !old(self)@.has(8) ==> is_eof(r) && final(self)@ == old(self)@,
    {
        proof {
            use_type_invariant(&*self);
        }
        if self.data.len() - self.pos < 8 {
            return Err(eof());
        }
        let hi = u32_at(&self.data, self.pos);
        let lo = u32_at(&self.data, self.pos + 4);
        self.pos = self.pos + 8;
        Ok(hi as u64 * 0x1_0000_0000 + lo as u64)
    }

    pub fn read_i64(&mut self) -> (r: Result<i64, IoError>)
        ensures
            old(self)@.has(8) ==> r == Ok::<i64, IoError>(
                be_i64(old(self)@.data, old(self)@.pos) as i64,
            ) && final(self)@ == old(self)@.advance(8),
            !old(self)@.has(8) ==> is_eof(r) && final(self)@ == old(self)@,
    {
        match self.read_u64() {
            Ok(v) => Ok(i64_of(v)),
            Err(e) => Err(e),
        }
    }

    /// Seconds since 1904-01-01, stored as an unsigned 64-bit value and returned as stored.
    pub fn read_long_datetime(&mut self) -> (r: Result<u64, IoError>)
        ensures
            old(self)@.has(8) ==> r == Ok::<u64, IoError>(
                be_u64(old(self)@.data, old(self)@.pos) as u64,
            ) && final(self)@ == old(self)@.advance(8),
            !old(self)@.has(8) ==> is_eof(r) && final(self)@ == old(self)@,
    {
        self.read_u64()
    }

    pub fn read_tag(&mut self) -> (r: Result<[u8; 4], IoError>)
        ensures
            old(self)@.has(4) ==> r is Ok && r->Ok_0@ == old(self)@.data.subrange(
                old(self)@.pos,
                old(self)@.pos + 4,
            ) && final(self)@ == old(self)@.advance(4),
            !old(self)@.has(4) ==> is_eof(r) && final(self)@ == old(self)@,
    {
        proof {
            use_type_invariant(&*self);
        }
        if self.data.len() - self.pos < 4 {
            return Err(eof());
        }
        let tag = [
            self.data[self.pos],
            self.data[self.pos + 1],
            self.data[self.pos + 2],
            self.data[self.pos + 3],
        ];
        self.pos = self.pos + 4;
        assert(tag@ =~= old(self)@.data.subrange(old(self)@.pos, old(self)@.pos + 4));
        Ok(tag)
    }

    /// A 16.16 fixed-point number, as its raw bits.
    pub fn read_fixed(&mut self) -> (r: Result<Fixed, IoError>)
        ensures
            old(self)@.has(4) ==> r is Ok && r->Ok_0.raw == be_i32(old(self)@.data, old(self)@.pos)
                && final(self)@ == old(self)@.advance(4),
            !old(self)@.has(4) ==> is_eof(r) && final(self)@ == old(self)@,
    {
        match self.read_i32() {
            Ok(raw) => Ok(Fixed { raw }),
            Err(e) => Err(e),
        }
    }

    /// A 2.14 fixed-point number, as its raw bits.
    pub fn read_f2dot14(&mut self) -> (r: Result<F2Dot14, IoError>)
        ensures
            old(self)@.has(2) ==> r is Ok && r->Ok_0.raw == be_i16(old(self)@.data, old(self)@.pos)
                && final(self)@ == old(self)@.advance(2),
            !old(self)@.has(2) ==> is_eof(r) && final(self)@ == old(self)@,
    {
        match self.read_i16() {
            Ok(raw) => Ok(F2Dot14 { raw }),
            Err(e) => Err(e),
        }
    }

    pub fn read_bytes(&mut self, len: usize) -> (r: Result<Vec<u8>, IoError>)
        ensures
            old(self)@.has(len as int) ==> r is Ok && r->Ok_0@ == old(self)@.data.subrange(
                old(self)@.pos,
                old(self)@.pos + len,
            ) && final(self)@ == old(self)@.advance(len as int),
            !old(self)@.has(len as int) ==> is_eof(r) && final(self)@ == old(self)@,
    {
        proof {
            use_type_invariant(&*self);
        }
        if self.data.len() - self.pos < len {
            return Err(eof());
        }
        let bytes = copy_range(&self.data, self.pos, self.pos + len);
        self.pos = self.pos + len;
        Ok(bytes)
    }

    /// Reads `len` bytes as UTF-8 text. Bytes that are not UTF-8 are refused as invalid data,
    /// and then, as when too few bytes remain, the cursor stays where it was.
    pub fn read_string(&mut self, len: usize) -> (r: Result<String, IoError>)
        ensures
            final(self)@.data == old(self)@.data,
            !old(self)@.has(len as int) ==> is_eof(r) && final(self)@ == old(self)@,
            old(self)@.has(len as int) ==> {
                let bytes = old(self)@.data.subrange(old(self)@.pos, old(self)@.pos + len);
                if valid_utf8(bytes) {
                    r is Ok && r->Ok_0@ == decode_utf8(bytes) && final(self)@ == old(self)@.advance(
                        len as int,
                    )
                } else {
                    r is Err && r->Err_0.kind == IoErrorKind::InvalidData && final(self)@ == old(self)@
                }
            },
    {
        let start = self.position();
        let bytes = match self.read_bytes(len) {
            Ok(b) => b,
            Err(e) => { return Err(e); },
        };
        match text_of_utf8(bytes) {
            Some(text) => Ok(text),
            None => {
                self.pos = start;
                Err(IoError::new(IoErrorKind::InvalidData, "invalid utf-8 sequence"))
            },
        }
    }
}

/// Appends big-endian values to a buffer it owns. Its view is the bytes written so far.
pub struct FontWriter {
    data: Vec<u8>,
}

impl View for FontWriter {
    type V = Seq<u8>;

    closed spec fn view(&self) -> Seq<u8> {
        self.data@
    }
}

impl FontWriter {
    pub fn new() -> (w: Self)
        ensures
            w@ == Seq::<u8>::empty(),
    {
        Self { data: Vec::new() }
    }

    pub fn with_capacity(capacity: usize) -> (w: Self)
        ensures
            w@ == Seq::<u8>::empty(),
    {
        Self { data: Vec::with_capacity(capacity) }
    }

    /// The number of bytes written so far.
    pub fn position(&self) -> (p: usize)
        ensures
            p == self@.len(),
    {
        self.data.len()
    }

    pub fn into_inner(self) -> (data: Vec<u8>)
        ensures
            data@ == self@,
    {
        self.data
    }

    pub fn as_slice(&self) -> (s: &[u8])
        ensures
            s@ == self@,
    {
        self.data.as_slice()
    }

    pub fn write_u8(&mut self, val: u8)
        ensures
            final(self)@ == old(self)@.push(val),
    {
        self.data.push(val);
    }

    pub fn write_i8(&mut self, val: i8)
        ensures
            final(self)@ == old(self)@.push(unsigned(val as int, 0x80) as u8),
    {
        let b: u8 = if val < 0 {
            (val as i16 + 0x100) as u8
        } else {
            val as u8
        };
        self.data.push(b);
    }

    pub fn write_u16(&mut self, val: u16)
        ensures
            final(self)@ == old(self)@ + u16_bytes(val as int),
    {
        self.data.push((val / 0x100) as u8);
        self.data.push((val % 0x100) as u8);
        assert(self.data@ =~= old(self)@ + u16_bytes(val as int));
    }

    pub fn write_i16(&mut self, val: i16)
        ensures
            final(self)@ == old(self)@ + u16_bytes(unsigned(val as int, 0x8000)),
    {
        let u: u16 = if val < 0 {
            (val as i32 + 0x1_0000) as u16
        } else {
            val as u16
        };
        self.write_u16(u);
    }

    /// Writes the low 24 bits of `val`.
    pub fn write_u24(&mut self, val: u32)
        ensures
            final(self)@ == old(self)@ + u24_bytes(val as int % 0x100_0000),
    {
        let low: u32 = val % 0x100_0000;
        self.data.push((low / 0x1_0000) as u8);
        self.data.push((low / 0x100 % 0x100) as u8);
        self.data.push((low % 0x100) as u8);
        assert(self.data@ =~= old(self)@ + u24_bytes(val as int % 0x100_0000));
    }

    pub fn write_u32(&mut self, val: u32)
        ensures
            final(self)@ == old(self)@ + u32_bytes(val as int),
    {
        self.write_u16((val / 0x1_0000) as u16);
        self.write_u16((val % 0x1_0000) as u16);
        assert(self@ =~= old(self)@ + u32_bytes(val as int));
    }

    pub fn write_i32(&mut self, val: i32)
        ensures
            final(self)@ == old(self)@ + u32_bytes(unsigned(val as int, 0x8000_0000)),
    {
        let u: u32 = if val < 0 {
            (val as i64 + 0x1_0000_0000) as u32
        } else {
            val as u32
        };
        self.write_u32(u);
    }

    pub fn write_u64(&mut self, val: u64)
        ensures
            final(self)@ == old(self)@ + u64_bytes(val as int),
    {
        self.write_u32((val / 0x1_0000_0000) as u32);
        self.write_u32((val % 0x1_0000_0000) as u32);
        assert(self@ =~= old(self)@ + u64_bytes(val as int));
    }

    pub fn write_i64(&mut self, val: i64)
        ensures
            final(self)@ == old(self)@ + u64_bytes(unsigned(val as int, 0x8000_0000_0000_0000)),
    {
        let u: u64 = if val < 0 {
            (val as i128 + 0x1_0000_0000_0000_0000) as u64
        } else {
            val as u64
        };
        self.write_u64(u);
    }

    /// A 16.16 fixed-point number, from its raw bits.
    pub fn write_fixed(&mut self, val: Fixed)
        ensures
            final(self)@ == old(self)@ + u32_bytes(unsigned(val.raw as int, 0x8000_0000)),
    {
        self.write_i32(val.raw);
    }

    /// A 2.14 fixed-point number, from its raw bits.
    pub fn write_f2dot14(&mut self, val: F2Dot14)
        ensures
            final(self)@ == old(self)@ + u16_bytes(unsigned(val.raw as int, 0x8000)),
    {
        self.write_i16(val.raw);
    }

    /// Seconds since 1904-01-01, written as the unsigned 64-bit value given.
    pub fn write_long_datetime(&mut self, val: u64)
        ensures
            final(self)@ == old(self)@ + u64_bytes(val as int),
    {
        self.write_u64(val);
    }

    pub fn write_tag(&mut self, tag: &[u8; 4])
        ensures
            final(self)@ == old(self)@ + tag@,
    {
        self.data.push(tag[0]);
        self.data.push(tag[1]);
        self.data.push(tag[2]);
        self.data.push(tag[3]);
        assert(self.data@ =~= old(self)@ + tag@);
    }

    pub fn write_bytes(&mut self, bytes: &[u8])
        ensures
            final(self)@ == old(self)@ + bytes@,
    {
        let mut i: usize = 0;
        while i < bytes.len()
            invariant
                i <= bytes.len(),
                self.data@ == old(self)@ + bytes@.subrange(0, i as int),
            decreases bytes.len() - i,
        {
            self.data.push(bytes[i]);
            i = i + 1;
            assert(self.data@ =~= old(self)@ + bytes@.subrange(0, i as int));
        }
        assert(bytes@.subrange(0, i as int) =~= bytes@);
    }

    /// Appends each of the 16-bit values, in order.
    pub fn write_u16s(&mut self, values: &[u16])
        ensures
            final(self)@ == old(self)@ + u16s_bytes(values@, values@.len() as int),
    {
        let mut i: usize = 0;
        assert(self@ =~= old(self)@ + u16s_bytes(values@, 0));
        while i < values.len()
            invariant
                i <= values.len(),
                self@ == old(self)@ + u16s_bytes(values@, i as int),
            decreases values.len() - i,
        {
            self.write_u16(values[i]);
            i = i + 1;
            assert(self@ =~= old(self)@ + u16s_bytes(values@, i as int));
        }
    }

    /// Appends each of the signed 16-bit values, in order.
    pub fn write_i16s(&mut self, values: &[i16])
        ensures
            final(self)@ == old(self)@ + i16s_bytes(values@, values@.len() as int),
    {
        let mut i: usize = 0;
        assert(self@ =~= old(self)@ + i16s_bytes(values@, 0));
        while i < values.len()
            invariant
                i <= values.len(),
                self@ == old(self)@ + i16s_bytes(values@, i as int),
            decreases values.len() - i,
        {
            self.write_i16(values[i]);
            i = i + 1;
            assert(self@ =~= old(self)@ + i16s_bytes(values@, i as int));
        }
    }

    /// Appends zero bytes until the length is a multiple of `align`. An `align` of zero asks
    /// for nothing and nothing is written.
    pub fn write_padding(&mut self, align: usize)
        ensures
            final(self)@ == old(self)@ + zeros(padding_for(old(self)@.len(), align as nat)),
    {
        if align == 0 {
            assert(self.data@ =~= old(self)@ + zeros(0));
            return ;
        }
        let rest = self.data.len() % align;
        let padding = if rest == 0 {
            0
        } else {
            align - rest
        };
        let mut i: usize = 0;
        while i < padding
            invariant
                i <= padding,
                self.data@ == old(self)@ + zeros(i as nat),
            decreases padding - i,
        {
            self.data.push(0);
            i = i + 1;
            assert(self.data@ =~= old(self)@ + zeros(i as nat));
        }
    }

    /// Appends zero bytes until at least `target_len` bytes have been written.
    pub fn pad_to(&mut self, target_len: usize)
        ensures
            final(self)@ == old(self)@ + zeros(
                if target_len > old(self)@.len() {
                    (target_len - old(self)@.len()) as nat
                } else {
                    0
                },
            ),
    {
        assert(self.data@ =~= old(self)@ + zeros(0));
        while self.data.len() < target_len
            invariant
                self.data@.len() >= old(self)@.len(),
                self.data@.len() <= target_len || self.data@.len() == old(self)@.len(),
                self.data@ == old(self)@ + zeros((self.data@.len() - old(self)@.len()) as nat),
            decreases target_len - self.data.len(),
        {
            self.data.push(0);
            assert(self.data@ =~= old(self)@ + zeros((self.data@.len() - old(self)@.len()) as nat));
        }
    }
}

impl Default for FontWriter {
    fn default() -> (w: Self)
        ensures
            w@ == Seq::<u8>::empty(),
    {
        Self::new()
    }
}

/// The number of zero bytes that bring a length of `len` up to a multiple of `align`.
pub open spec fn padding_for(len: nat, align: nat) -> nat {
    if align == 0 || len % align == 0 {
        0
    } else {
        (align - len % align) as nat
    }
}

/// `String::from_utf8` of std: the text that `bytes` encode where they are valid UTF-8, and
/// nothing where they are not.
#[verifier::external_body]
fn text_of_utf8(bytes: Vec<u8>) -> (text: Option<String>)
    ensures
        match text {
            Some(t) => valid_utf8(bytes@) && t@ == decode_utf8(bytes@),
            None => !valid_utf8(bytes@),
        },
{
    String::from_utf8(bytes).ok()
}

/// The byte at `i`, or zero past the end.
pub open spec fn byte_or_zero(s: Seq<u8>, i: int) -> int {
    if 0 <= i < s.len() {
        s[i] as int
    } else {
        0
    }
}

/// The `k`-th big-endian 32-bit word of `s`, the last one filled up with zero bytes.
pub open spec fn word_at(s: Seq<u8>, k: int) -> int {
    ((byte_or_zero(s, 4 * k) * 0x100 + byte_or_zero(s, 4 * k + 1)) * 0x100 + byte_or_zero(
        s,
        4 * k + 2,
    )) * 0x100 + byte_or_zero(s, 4 * k + 3)
}

/// The sum of the first `n` words of `s`, modulo 2^32.
pub open spec fn word_sum(s: Seq<u8>, n: nat) -> int
    decreases n,
{
    if n == 0 {
        0
    } else {
        (word_sum(s, (n - 1) as nat) + word_at(s, n - 1)) % 0x1_0000_0000
    }
}

/// The number of 32-bit words that `len` bytes occupy.
pub open spec fn word_count(len: nat) -> nat {
    (len + 3) / 4
}

/// The table checksum of `s`: its big-endian 32-bit words, the last one zero-filled, summed
/// modulo 2^32.
pub open spec fn checksum(s: Seq<u8>) -> int {
    word_sum(s, word_count(s.len()))
}

/// The table checksum of `data`.
pub fn calculate_checksum(data: &[u8]) -> (sum: u32)
    ensures
        sum == checksum(data@),
{
    let full: usize = data.len() / 4;
    let rest: usize = data.len() % 4;
    let mut sum: u32 = 0;
    let mut k: usize = 0;
    while k < full
        invariant
            k <= full,
            full == data.len() / 4,
            sum == word_sum(data@, k as nat),
        decreases full - k,
    {
        let i: usize = 4 * k;
        let val: u32 = ((data[i] as u32 * 0x100 + data[i + 1] as u32) * 0x100 + data[i
            + 2] as u32) * 0x100 + data[i + 3] as u32;
        sum = ((sum as u64 + val as u64) % 0x1_0000_0000) as u32;
        k = k + 1;
    }
    if rest != 0 {
        let i: usize = 4 * full;
        let b0: u32 = data[i] as u32;
        let b1: u32 = if rest > 1 {
            data[i + 1] as u32
        } else {
            0
        };
        let b2: u32 = if rest > 2 {
            data[i + 2] as u32
        } else {
            0
        };
        let val: u32 = ((b0 * 0x100 + b1) * 0x100 + b2) * 0x100;
        sum = ((sum as u64 + val as u64) % 0x1_0000_0000) as u32;
        assert(word_count(data@.len()) == full + 1);
        assert(val == word_at(data@, full as int));
    } else {
        assert(word_count(data@.len()) == full);
    }
    sum
}

/// Two sequences that agree byte for byte, zero-filled, over their first `n` words have the
/// same sum over those words.
pub proof fn lemma_word_sum_agree(s: Seq<u8>, t: Seq<u8>, n: nat)
    requires
        forall|i: int| 0 <= i < 4 * n ==> byte_or_zero(s, i) == byte_or_zero(t, i),
    ensures
        word_sum(s, n) == word_sum(t, n),
    decreases n,
{
    if n > 0 {
        lemma_word_sum_agree(s, t, (n - 1) as nat);
        assert(word_at(s, n - 1) == word_at(t, n - 1));
    }
}

/// Appending zero bytes up to the next multiple of four, or fewer, leaves the checksum
/// unchanged.
pub proof fn lemma_checksum_zero_padding(s: Seq<u8>, k: nat)
    requires
        k <= padding_for(s.len(), 4),
    ensures
        checksum(s + zeros(k)) == checksum(s),
{
    let t = s + zeros(k);
    assert(word_count(t.len()) == word_count(s.len()));
    assert forall|i: int| 0 <= i < 4 * word_count(s.len()) implies byte_or_zero(s, i)
        == byte_or_zero(t, i) by {
        if i >= s.len() && i < t.len() {
            assert(t[i] == zeros(k)[i - s.len()]);
        }
    }
    lemma_word_sum_agree(s, t, word_count(s.len()));
}

/// A buffer of zero bytes, of any length, has checksum zero.
pub proof fn lemma_checksum_of_zeros(s: Seq<u8>)
    requires
        forall|i: int| 0 <= i < s.len() ==> s[i] == 0,
    ensures
        checksum(s) == 0,
{
    lemma_word_sum_of_zeros(s, word_count(s.len()));
}

proof fn lemma_word_sum_of_zeros(s: Seq<u8>, n: nat)
    requires
        forall|i: int| 0 <= i < s.len() ==> s[i] == 0,
    ensures
        word_sum(s, n) == 0,
    decreases n,
{
    if n > 0 {
        lemma_word_sum_of_zeros(s, (n - 1) as nat);
        assert(word_at(s, n - 1) == 0);
    }
}

/// A copy of `data[start..end]`.
pub(crate) fn copy_range(data: &Vec<u8>, start: usize, end: usize) -> (out: Vec<u8>)
    requires
        start <= end <= data.len(),
    ensures
        out@ == data@.subrange(start as int, end as int),
{
    let mut out: Vec<u8> = Vec::with_capacity(end - start);
    let mut i: usize = start;
    while i < end
        invariant
            start <= i <= end <= data.len(),
            out@ == data@.subrange(start as int, i as int),
        decreases end - i,
    {
        out.push(data[i]);
        i = i + 1;
        assert(out@ =~= data@.subrange(start as int, i as int));
    }
    out
}

/// The signed reading of a byte.
pub fn i8_of(b: u8) -> (v: i8)
    ensures
        v == signed(b as int, 0x80),
{
    if b >= 0x80 {
        (b as i16 - 0x100) as i8
    } else {
        b as i8
    }
}

/// The signed reading of a 16-bit value.
pub fn i16_of(v: u16) -> (out: i16)
    ensures
        out == signed(v as int, 0x8000),
{
    if v >= 0x8000 {
        (v as i32 - 0x1_0000) as i16
    } else {
        v as i16
    }
}

/// The signed reading of a 32-bit value.
pub fn i32_of(v: u32) -> (out: i32)
    ensures
        out == signed(v as int, 0x8000_0000),
{
    if v >= 0x8000_0000 {
        (v as i64 - 0x1_0000_0000) as i32
    } else {
        v as i32
    }
}

/// The signed reading of a 64-bit value.
pub fn i64_of(v: u64) -> (out: i64)
    ensures
        out == signed(v as int, 0x8000_0000_0000_0000),
{
    if v >= 0x8000_0000_0000_0000 {
        (v as i128 - 0x1_0000_0000_0000_0000) as i64
    } else {
        v as i64
    }
}

/// The big-endian 16-bit value at `data[i..i + 2]`.
pub(crate) fn u16_at(data: &Vec<u8>, i: usize) -> (v: u16)
    requires
        i + 2 <= data.len(),
    ensures
        v == be_u16(data@, i as int),
{
    data[i] as u16 * 0x100 + data[i + 1] as u16
}

/// The big-endian 32-bit value at `data[i..i + 4]`.
pub(crate) fn u32_at(data: &Vec<u8>, i: usize) -> (v: u32)
    requires
        i + 4 <= data.len(),
    ensures
        v == be_u32(data@, i as int),
{
    u16_at(data, i) as u32 * 0x1_0000 + u16_at(data, i + 2) as u32
}

} // verus!
