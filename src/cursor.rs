use vstd::prelude::*;
use vstd::slice::slice_subrange;

use crate::error::DecodeError;

verus! {

/// The little-endian value of the two bytes at `p`.
pub open spec fn le16(b: Seq<u8>, p: int) -> int {
    b[p] as int + 256 * (b[p + 1] as int)
}

/// The little-endian value of the four bytes at `p`.
pub open spec fn le32(b: Seq<u8>, p: int) -> int {
    le16(b, p) + 65536 * le16(b, p + 2)
}

/// The little-endian value of the eight bytes at `p`.
pub open spec fn le64(b: Seq<u8>, p: int) -> int {
    le32(b, p) + 4294967296 * le32(b, p + 4)
}

/// The two's-complement reading of a 32-bit word.
pub open spec fn as_signed32(v: int) -> int {
    if v < 0x8000_0000 {
        v
    } else {
        v - 0x1_0000_0000
    }
}

/// The error of a step that needs `n` bytes at `p`.
pub open spec fn incomplete(n: int, p: int) -> DecodeError {
    DecodeError::Incomplete { needed: n as usize, offset: p as usize }
}

/// Reading `n` bytes at `p` of `b`: the position after them, or `Incomplete`.
pub open spec fn spec_take(b: Seq<u8>, p: int, n: int) -> Result<int, DecodeError> {
    if p + n <= b.len() {
        Ok(p + n)
    } else {
        Err(incomplete(n, p))
    }
}

/// A little-endian unsigned integer of `n` bytes at `p`, with the position after it.
pub open spec fn spec_uint(b: Seq<u8>, p: int, n: int) -> Result<(int, int), DecodeError> {
    match spec_take(b, p, n) {
        Ok(q) => Ok((
            if n == 1 {
                b[p] as int
            } else if n == 2 {
                le16(b, p)
            } else if n == 4 {
                le32(b, p)
            } else {
                le64(b, p)
            },
            q,
        )),
        Err(e) => Err(e),
    }
}

/// A read-only view of a byte buffer with a read offset. Decoding never
/// changes a cursor: each step hands back a new one.
#[derive(Debug, Clone, Copy)]
pub struct Cursor<'a> {
    buf: &'a [u8],
    pos: usize,
}

impl<'a> Cursor<'a> {
    /// The bytes the cursor reads from.
    pub closed spec fn bytes(self) -> Seq<u8> {
        self.buf@
    }

    /// The read offset into `bytes()`.
    pub closed spec fn offset(self) -> int {
        self.pos as int
    }

    /// The offset lies within the buffer.
    pub open spec fn wf(self) -> bool {
        0 <= self.offset() <= self.bytes().len()
    }

    /// `self` reads the same bytes as `c`, at offset `p`.
    pub open spec fn is_at(self, c: Cursor, p: int) -> bool {
        self.wf() && self.bytes() == c.bytes() && self.offset() == p
    }

    /// A cursor at the start of `buf`.
    pub fn new(buf: &'a [u8]) -> (r: Cursor<'a>)
        ensures
            r.wf(),
            r.bytes() == buf@,
            r.offset() == 0,
    {
        Cursor { buf, pos: 0 }
    }

    /// The read offset.
    pub fn position(&self) -> (r: usize)
        ensures
            r == self.offset(),
    {
        self.pos
    }

    /// How many bytes are left to read.
    pub fn remaining(&self) -> (r: usize)
        requires
            self.wf(),
        ensures
            r == self.bytes().len() - self.offset(),
    {
        self.buf.len() - self.pos
    }

    /// The bytes that are left to read.
    pub fn rest(&self) -> (r: &'a [u8])
        requires
            self.wf(),
        ensures
            r@ == self.bytes().subrange(self.offset(), self.bytes().len() as int),
    {
        slice_subrange(self.buf, self.pos, self.buf.len())
    }

    /// The length of the whole buffer.
    pub fn len(&self) -> (r: usize)
        ensures
            r == self.bytes().len(),
    {
        self.buf.len()
    }

    /// The byte at absolute index `i`.
    pub fn byte_at(&self, i: usize) -> (r: u8)
        requires
            i < self.bytes().len(),
        ensures
            r == self.bytes()[i as int],
    {
        self.buf[i]
    }

    /// The bytes from absolute index `i` up to `j`.
    pub fn slice(&self, i: usize, j: usize) -> (r: &'a [u8])
        requires
            i <= j <= self.bytes().len(),
        ensures
            r@ == self.bytes().subrange(i as int, j as int),
    {
        slice_subrange(self.buf, i, j)
    }

    /// Skips `n` bytes, failing with `Incomplete` where fewer remain.
    pub fn take(self, n: usize) -> (r: Result<Cursor<'a>, DecodeError>)
        requires
            self.wf(),
        ensures
            match (r, spec_take(self.bytes(), self.offset(), n as int)) {
                (Ok(d), Ok(q)) => d.is_at(self, q),
                (Err(e), Err(f)) => e == f,
                _ => false,
            },
    {
        if n <= self.buf.len() - self.pos {
            Ok(Cursor { buf: self.buf, pos: self.pos + n })
        } else {
            Err(DecodeError::Incomplete { needed: n, offset: self.pos })
        }
    }

    /// The window of the next `n` bytes: a cursor at the same offset over the
    /// buffer cut after them, and the cursor past them. Offsets of errors met
    /// in the window stay offsets into the whole buffer.
    pub fn split(self, n: usize) -> (r: Result<(Cursor<'a>, Cursor<'a>), DecodeError>)
        requires
            self.wf(),
        ensures
            match (r, spec_take(self.bytes(), self.offset(), n as int)) {
                (Ok((w, d)), Ok(q)) => d.is_at(self, q) && w.wf() && w.bytes() == self.bytes().take(q)
                    && w.offset() == self.offset(),
                (Err(e), Err(f)) => e == f,
                _ => false,
            },
    {
        if n <= self.buf.len() - self.pos {
            let end = self.pos + n;
            let w = Cursor { buf: slice_subrange(self.buf, 0, end), pos: self.pos };
            Ok((w, Cursor { buf: self.buf, pos: end }))
        } else {
            Err(DecodeError::Incomplete { needed: n, offset: self.pos })
        }
    }
}

/// Reads one byte.
pub fn le_u8<'a>(c: Cursor<'a>) -> (r: Result<(u8, Cursor<'a>), DecodeError>)
    requires
        c.wf(),
    ensures
        match (r, spec_uint(c.bytes(), c.offset(), 1)) {
            (Ok((v, d)), Ok((x, q))) => v == x && d.is_at(c, q),
            (Err(e), Err(f)) => e == f,
            _ => false,
        },
{
    match c.take(1) {
        Ok(d) => Ok((c.buf[c.pos], d)),
        Err(e) => Err(e),
    }
}

/// Reads a little-endian `u16`.
pub fn le_u16<'a>(c: Cursor<'a>) -> (r: Result<(u16, Cursor<'a>), DecodeError>)
    requires
        c.wf(),
    ensures
        match (r, spec_uint(c.bytes(), c.offset(), 2)) {
            (Ok((v, d)), Ok((x, q))) => v == x && d.is_at(c, q),
            (Err(e), Err(f)) => e == f,
            _ => false,
        },
{
    match c.take(2) {
        Ok(d) => {
            let v = c.buf[c.pos] as u16 + (c.buf[c.pos + 1] as u16) * 256;
            Ok((v, d))
        },
        Err(e) => Err(e),
    }
}

/// Reads a little-endian `u32`.
pub fn le_u32<'a>(c: Cursor<'a>) -> (r: Result<(u32, Cursor<'a>), DecodeError>)
    requires
        c.wf(),
    ensures
        match (r, spec_uint(c.bytes(), c.offset(), 4)) {
            (Ok((v, d)), Ok((x, q))) => v == x && d.is_at(c, q),
            (Err(e), Err(f)) => e == f,
            _ => false,
        },
{
    match c.take(4) {
        Ok(d) => {
            let p = c.pos;
            let v = c.buf[p] as u32 + (c.buf[p + 1] as u32) * 256 + (c.buf[p + 2] as u32) * 65536
                + (c.buf[p + 3] as u32) * 16777216;
            Ok((v, d))
        },
        Err(e) => Err(e),
    }
}

/// Reads a little-endian two's-complement `i32`.
pub fn le_i32<'a>(c: Cursor<'a>) -> (r: Result<(i32, Cursor<'a>), DecodeError>)
    requires
        c.wf(),
    ensures
        match (r, spec_uint(c.bytes(), c.offset(), 4)) {
            (Ok((v, d)), Ok((x, q))) => v == as_signed32(x) && d.is_at(c, q),
            (Err(e), Err(f)) => e == f,
            _ => false,
        },
{
    match le_u32(c) {
        Ok((u, d)) => {
            let v: i32 = if u < 0x8000_0000 {
                u as i32
            } else {
                ((u - 0x8000_0000u32) as i32) - 0x7fff_ffff - 1
            };
            Ok((v, d))
        },
        Err(e) => Err(e),
    }
}

/// Reads a little-endian `u64`.
pub fn le_u64<'a>(c: Cursor<'a>) -> (r: Result<(u64, Cursor<'a>), DecodeError>)
    requires
        c.wf(),
    ensures
        match (r, spec_uint(c.bytes(), c.offset(), 8)) {
            (Ok((v, d)), Ok((x, q))) => v == x && d.is_at(c, q),
            (Err(e), Err(f)) => e == f,
            _ => false,
        },
{
    match le_u32(c) {
        Ok((lo, d)) => match le_u32(d) {
            Ok((hi, e)) => Ok((lo as u64 + (hi as u64) * 4294967296, e)),
            Err(_) => Err(DecodeError::Incomplete { needed: 8, offset: c.pos }),
        },
        Err(_) => Err(DecodeError::Incomplete { needed: 8, offset: c.pos }),
    }
}

} // verus!
