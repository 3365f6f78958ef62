//! A read position over a byte slice, with the reads and seeks that the
//! format parsers make.
use byteorder::{BigEndian, ByteOrder, LittleEndian};
use vstd::prelude::*;

verus! {

/// The big-endian value of two bytes.
pub open spec fn be16(b0: u8, b1: u8) -> int {
    b0 * 256 + b1
}

/// The big-endian value of four bytes.
pub open spec fn be32(b0: u8, b1: u8, b2: u8, b3: u8) -> int {
    b0 * 16777216 + b1 * 65536 + b2 * 256 + b3
}

/// Whether `n` bytes can be read at position `p` of `d`.
pub open spec fn can_read(d: Seq<u8>, p: int, n: int) -> bool {
    0 <= p && p + n <= d.len()
}

/// The byte at position `p`, if there is one.
pub open spec fn u8_at(d: Seq<u8>, p: int) -> Option<int> {
    if can_read(d, p, 1) { Some(d[p] as int) } else { None }
}

/// The big-endian 16-bit value at position `p`, if the bytes are there.
pub open spec fn be16_at(d: Seq<u8>, p: int) -> Option<int> {
    if can_read(d, p, 2) { Some(be16(d[p], d[p + 1])) } else { None }
}

/// The little-endian 16-bit value at position `p`, if the bytes are there.
pub open spec fn le16_at(d: Seq<u8>, p: int) -> Option<int> {
    if can_read(d, p, 2) { Some(be16(d[p + 1], d[p])) } else { None }
}

/// The big-endian 32-bit value at position `p`, if the bytes are there.
pub open spec fn be32_at(d: Seq<u8>, p: int) -> Option<int> {
    if can_read(d, p, 4) { Some(be32(d[p], d[p + 1], d[p + 2], d[p + 3])) } else { None }
}

/// The little-endian 32-bit value at position `p`, if the bytes are there.
pub open spec fn le32_at(d: Seq<u8>, p: int) -> Option<int> {
    if can_read(d, p, 4) { Some(be32(d[p + 3], d[p + 2], d[p + 1], d[p])) } else { None }
}

/// The position reached by moving `off` bytes from `p`: a seek fails when it
/// would land before the start or past what a `u64` holds.
pub open spec fn seek_by(p: int, off: int) -> Option<int> {
    if 0 <= p + off <= u64::MAX { Some(p + off) } else { None }
}

/// A read that succeeds on some bytes gives the same value on any longer
/// bytes that begin with them.
pub proof fn lemma_reads_extend(d: Seq<u8>, e: Seq<u8>, p: int)
    ensures
        u8_at(d, p) is Some ==> u8_at(d + e, p) == u8_at(d, p),
        be16_at(d, p) is Some ==> be16_at(d + e, p) == be16_at(d, p),
        le16_at(d, p) is Some ==> le16_at(d + e, p) == le16_at(d, p),
        be32_at(d, p) is Some ==> be32_at(d + e, p) == be32_at(d, p),
        le32_at(d, p) is Some ==> le32_at(d + e, p) == le32_at(d, p),
{
    if can_read(d, p, 1) {
        assert((d + e)[p] == d[p]);
    }
    if can_read(d, p, 2) {
        assert((d + e)[p + 1] == d[p + 1]);
    }
    if can_read(d, p, 4) {
        assert((d + e)[p + 2] == d[p + 2]);
        assert((d + e)[p + 3] == d[p + 3]);
    }
}

/// `byteorder`'s `BigEndian::read_u16`: the big-endian value of the first two
/// bytes of `buf` (it panics on a shorter buffer).
#[verifier::external_body]
fn read_be_u16(buf: &[u8]) -> (r: u16)
    requires
        buf@.len() >= 2,
    ensures
        r == be16(buf@[0], buf@[1]),
{
    BigEndian::read_u16(buf)
}

/// `byteorder`'s `BigEndian::read_u32`: the big-endian value of the first four
/// bytes of `buf` (it panics on a shorter buffer).
#[verifier::external_body]
fn read_be_u32(buf: &[u8]) -> (r: u32)
    requires
        buf@.len() >= 4,
    ensures
        r == be32(buf@[0], buf@[1], buf@[2], buf@[3]),
{
    BigEndian::read_u32(buf)
}

/// `byteorder`'s `LittleEndian::read_u16`: the little-endian value of the
/// first two bytes of `buf` (it panics on a shorter buffer).
#[verifier::external_body]
fn read_le_u16(buf: &[u8]) -> (r: u16)
    requires
        buf@.len() >= 2,
    ensures
        r == be16(buf@[1], buf@[0]),
{
    LittleEndian::read_u16(buf)
}

/// `byteorder`'s `LittleEndian::read_u32`: the little-endian value of the
/// first four bytes of `buf` (it panics on a shorter buffer).
#[verifier::external_body]
fn read_le_u32(buf: &[u8]) -> (r: u32)
    requires
        buf@.len() >= 4,
    ensures
        r == be32(buf@[3], buf@[2], buf@[1], buf@[0]),
{
    LittleEndian::read_u32(buf)
}

/// Why a read or a seek failed.
#[derive(Debug, Clone, Copy, PartialEq, Eq, Structural)]
pub enum ReadError {
    /// Fewer bytes were left than the read asked for.
    UnexpectedEof,
    /// The seek would land before the start or past the largest position.
    InvalidSeek,
}

/// A read position over a byte slice. The position may stand past the end;
/// every read from there fails.
pub struct ByteCursor<'a> {
    pub data: &'a [u8],
    pub pos: u64,
}

impl<'a> ByteCursor<'a> {
    /// A cursor at the start of `data`.
    pub fn new(data: &'a [u8]) -> (c: Self)
        ensures
            c == (ByteCursor { data: data, pos: 0 }),
    {
        ByteCursor { data, pos: 0 }
    }

    /// Moves to the absolute position `pos`.
    pub fn seek_start(&mut self, pos: u64)
        ensures
            final(self).data@ == old(self).data@,
            final(self).pos == pos,
    {
        self.pos = pos;
    }

    /// Moves `off` bytes forward (or back, when negative).
    pub fn seek_current(&mut self, off: i64) -> (r: Result<(), ReadError>)
        ensures
            final(self).data@ == old(self).data@,
            match seek_by(old(self).pos as int, off as int) {
                Some(q) => r is Ok && final(self).pos == q,
                None => r == Err::<(), ReadError>(ReadError::InvalidSeek) && final(self).pos == old(self).pos,
            },
    {
        match self.pos.checked_add_signed(off) {
            Some(q) => {
                self.pos = q;
                Ok(())
            },
            None => Err(ReadError::InvalidSeek),
        }
    }

    /// Takes the next `n` bytes, failing when fewer are left.
    fn take(&mut self, n: u64) -> (r: Result<&'a [u8], ReadError>)
        ensures
            final(self).data@ == old(self).data@,
            can_read(old(self).data@, old(self).pos as int, n as int) ==> {
                &&& r is Ok
                &&& r->Ok_0@ == old(self).data@.subrange(old(self).pos as int, old(self).pos + n)
                &&& final(self).pos == old(self).pos + n
            },
            !can_read(old(self).data@, old(self).pos as int, n as int) ==>
                r == Err::<&'a [u8], ReadError>(ReadError::UnexpectedEof) && final(self).pos == old(self).pos,
    {
        let len = self.data.len();
        if self.pos > len as u64 || n > len as u64 - self.pos {
            return Err(ReadError::UnexpectedEof);
        }
        let start = self.pos as usize;
        let end = (self.pos + n) as usize;
        self.pos = self.pos + n;
        Ok(&self.data[start..end])
    }

    /// Reads one byte.
    pub fn read_u8(&mut self) -> (r: Result<u8, ReadError>)
        ensures
            final(self).data@ == old(self).data@,
            match u8_at(old(self).data@, old(self).pos as int) {
                Some(v) => r == Ok::<u8, ReadError>(v as u8) && final(self).pos == old(self).pos + 1,
                None => r == Err::<u8, ReadError>(ReadError::UnexpectedEof) && final(self).pos == old(self).pos,
            },
    {
        let b = self.take(1)?;
        Ok(b[0])
    }

    /// Reads a big-endian 16-bit integer.
    pub fn read_u16_be(&mut self) -> (r: Result<u16, ReadError>)
        ensures
            final(self).data@ == old(self).data@,
            match be16_at(old(self).data@, old(self).pos as int) {
                Some(v) => r == Ok::<u16, ReadError>(v as u16) && final(self).pos == old(self).pos + 2,
                None => r == Err::<u16, ReadError>(ReadError::UnexpectedEof) && final(self).pos == old(self).pos,
            },
    {
        let b = self.take(2)?;
        Ok(read_be_u16(b))
    }

    /// Reads a little-endian 16-bit integer.
    pub fn read_u16_le(&mut self) -> (r: Result<u16, ReadError>)
        ensures
            final(self).data@ == old(self).data@,
            match le16_at(old(self).data@, old(self).pos as int) {
                Some(v) => r == Ok::<u16, ReadError>(v as u16) && final(self).pos == old(self).pos + 2,
                None => r == Err::<u16, ReadError>(ReadError::UnexpectedEof) && final(self).pos == old(self).pos,
            },
    {
        let b = self.take(2)?;
        Ok(read_le_u16(b))
    }

    /// Reads a big-endian 32-bit integer.
    pub fn read_u32_be(&mut self) -> (r: Result<u32, ReadError>)
        ensures
            final(self).data@ == old(self).data@,
            match be32_at(old(self).data@, old(self).pos as int) {
                Some(v) => r == Ok::<u32, ReadError>(v as u32) && final(self).pos == old(self).pos + 4,
                None => r == Err::<u32, ReadError>(ReadError::UnexpectedEof) && final(self).pos == old(self).pos,
            },
    {
        let b = self.take(4)?;
        Ok(read_be_u32(b))
    }

    /// Reads a little-endian 32-bit integer.
    pub fn read_u32_le(&mut self) -> (r: Result<u32, ReadError>)
        ensures
            final(self).data@ == old(self).data@,
            match le32_at(old(self).data@, old(self).pos as int) {
                Some(v) => r == Ok::<u32, ReadError>(v as u32) && final(self).pos == old(self).pos + 4,
                None => r == Err::<u32, ReadError>(ReadError::UnexpectedEof) && final(self).pos == old(self).pos,
            },
    {
        let b = self.take(4)?;
        Ok(read_le_u32(b))
    }
}

} // verus!
