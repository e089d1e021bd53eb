//! Encoding-aware reads over an in-memory chunk.
//!
//! A [`ByteStream`] owns the bytes of one chunk and a per-chunk integer
//! encoding: plain big-endian, or the compressed form enabled by the low
//! bit of the chunk's feature flags.

use vstd::prelude::*;

use crate::reader::byte_reader::{
    ByteCursor, ByteReader, StringParse, StringVal, i16_parse, i32_parse, i64_parse, string_parse,
};
use crate::reader::{Error, IoErrorKind};

verus! {

/// A decoded string, before interning.
#[derive(Debug, Eq, PartialEq)]
pub enum StringType {
    Null,
    Empty,
    Raw(String),
    ConstantPool(i64),
}

impl View for StringType {
    type V = StringVal;

    open spec fn view(&self) -> StringVal {
        match self {
            StringType::Null => StringVal::Null,
            StringType::Empty => StringVal::Empty,
            StringType::Raw(s) => StringVal::Text(s@),
            StringType::ConstantPool(i) => StringVal::Pool(*i),
        }
    }
}

/// Integer encoding of a chunk body.
#[derive(Debug, Copy, Clone)]
pub enum IntEncoding {
    Raw,
    /// Variable-length integers, 7 data bits per byte (no zig-zag).
    Compressed,
}

/// A positioned reader over one chunk's bytes.
pub struct ByteStream {
    cursor: ByteCursor,
    int_encoding: IntEncoding,
}

impl ByteStream {
    /// The bytes the stream reads from.
    pub closed spec fn bytes(&self) -> Seq<u8> {
        self.cursor.bytes()
    }

    /// The current read position.
    pub closed spec fn position(&self) -> int {
        self.cursor.position()
    }

    /// The decoder matching the stream's current integer encoding.
    pub closed spec fn mode(&self) -> ByteReader {
        if self.int_encoding is Compressed {
            ByteReader::CompressedInts
        } else {
            ByteReader::Raw
        }
    }

    /// Whether `n` more bytes are available.
    pub open spec fn can_read(&self, n: int) -> bool {
        0 <= self.position() && self.position() + n <= self.bytes().len()
    }

    pub fn new(inner: Vec<u8>) -> (r: Self)
        ensures
            r.bytes() == inner@,
            r.position() == 0,
            r.mode() == ByteReader::Raw,
    {
        ByteStream { cursor: ByteCursor::new(inner), int_encoding: IntEncoding::Raw }
    }

    pub fn set_int_encoding(&mut self, encoding: IntEncoding)
        ensures
            final(self).bytes() == old(self).bytes(),
            final(self).position() == old(self).position(),
            final(self).mode() == (if encoding is Compressed {
                ByteReader::CompressedInts
            } else {
                ByteReader::Raw
            }),
    {
        self.int_encoding = encoding;
    }

    pub fn seek(&mut self, position: usize)
        ensures
            final(self).bytes() == old(self).bytes(),
            final(self).mode() == old(self).mode(),
            final(self).position() == position as int,
    {
        self.cursor.seek(position);
    }

    /// Number of bytes in the stream.
    pub fn data_len(&self) -> (r: usize)
        ensures
            r == self.bytes().len(),
    {
        self.cursor.data_len()
    }

    /// Reads `n` raw bytes.
    pub fn read_exact(&mut self, n: usize) -> (res: Result<Vec<u8>, Error>)
        ensures
            final(self).bytes() == old(self).bytes(),
            final(self).mode() == old(self).mode(),
            old(self).can_read(n as int) ==> (res matches Ok(v) && v@ == old(self).bytes().subrange(
                old(self).position(),
                old(self).position() + n,
            ) && final(self).position() == old(self).position() + n),
            !old(self).can_read(n as int) ==> res matches Err(Error::IoError(
                IoErrorKind::UnexpectedEof,
            )),
    {
        self.cursor.read_bytes(n)
    }

    pub fn read_u8(&mut self) -> (res: Result<u8, Error>)
        ensures
            final(self).bytes() == old(self).bytes(),
            final(self).mode() == old(self).mode(),
            old(self).can_read(1) ==> (res matches Ok(b) && b == old(self).bytes()[old(
                self,
            ).position()] && final(self).position() == old(self).position() + 1),
            !old(self).can_read(1) ==> res matches Err(Error::IoError(IoErrorKind::UnexpectedEof)),
    {
        self.cursor.read_byte()
    }

    pub fn read_i8(&mut self) -> (res: Result<i8, Error>)
        ensures
            final(self).bytes() == old(self).bytes(),
            final(self).mode() == old(self).mode(),
            old(self).can_read(1) ==> (res matches Ok(b) && b as u8 == old(self).bytes()[old(
                self,
            ).position()] && final(self).position() == old(self).position() + 1),
            !old(self).can_read(1) ==> res matches Err(Error::IoError(IoErrorKind::UnexpectedEof)),
    {
        let reader = self.reader();
        reader.read_i8(&mut self.cursor)
    }

    pub fn read_i16(&mut self) -> (res: Result<i16, Error>)
        ensures
            final(self).bytes() == old(self).bytes(),
            final(self).mode() == old(self).mode(),
            match i16_parse(old(self).mode(), old(self).bytes(), old(self).position()) {
                Some(v) => res matches Ok(x) && x == v.0 && final(self).position() == v.1,
                None => res matches Err(Error::IoError(IoErrorKind::UnexpectedEof)),
            },
    {
        let reader = self.reader();
        reader.read_i16(&mut self.cursor)
    }

    pub fn read_i32(&mut self) -> (res: Result<i32, Error>)
        ensures
            final(self).bytes() == old(self).bytes(),
            final(self).mode() == old(self).mode(),
            match i32_parse(old(self).mode(), old(self).bytes(), old(self).position()) {
                Some(v) => res matches Ok(x) && x == v.0 && final(self).position() == v.1,
                None => res matches Err(Error::IoError(IoErrorKind::UnexpectedEof)),
            },
    {
        let reader = self.reader();
        reader.read_i32(&mut self.cursor)
    }

    pub fn read_i64(&mut self) -> (res: Result<i64, Error>)
        ensures
            final(self).bytes() == old(self).bytes(),
            final(self).mode() == old(self).mode(),
            match i64_parse(old(self).mode(), old(self).bytes(), old(self).position()) {
                Some(v) => res matches Ok(x) && x == v.0 && final(self).position() == v.1,
                None => res matches Err(Error::IoError(IoErrorKind::UnexpectedEof)),
            },
    {
        let reader = self.reader();
        reader.read_i64(&mut self.cursor)
    }

    /// Decodes one string under the six-way tag scheme.
    pub fn read_string(&mut self) -> (res: Result<StringType, Error>)
        ensures
            final(self).bytes() == old(self).bytes(),
            final(self).mode() == old(self).mode(),
            match string_parse(old(self).mode(), old(self).bytes(), old(self).position()) {
                StringParse::Val(v, e) => res matches Ok(st) && st@ == v && final(self).position()
                    == e,
                StringParse::Eof => res matches Err(Error::IoError(IoErrorKind::UnexpectedEof)),
                StringParse::Bad => res matches Err(Error::InvalidString),
            },
    {
        let reader = self.reader();
        match reader.read_string(&mut self.cursor) {
            Ok(crate::reader::byte_reader::StringType::Null) => Ok(StringType::Null),
            Ok(crate::reader::byte_reader::StringType::Empty) => Ok(StringType::Empty),
            Ok(crate::reader::byte_reader::StringType::Raw(s)) => Ok(StringType::Raw(s)),
            Ok(crate::reader::byte_reader::StringType::ConstantPool(i)) => Ok(
                StringType::ConstantPool(i),
            ),
            Err(e) => Err(e),
        }
    }

    /// Reads the raw bits of a 32-bit float (always big-endian); the
    /// verifier has no model of floats, so the bits stand for the value.
    pub fn read_f32_bits(&mut self) -> (res: Result<u32, Error>)
        ensures
            final(self).bytes() == old(self).bytes(),
            final(self).mode() == old(self).mode(),
            old(self).can_read(4) ==> (res matches Ok(b) && b == crate::reader::byte_reader::be_u32_at(
                old(self).bytes(),
                old(self).position(),
            ) && final(self).position() == old(self).position() + 4),
            !old(self).can_read(4) ==> res matches Err(Error::IoError(IoErrorKind::UnexpectedEof)),
    {
        let ghost s = self.bytes();
        let ghost p = self.position();
        match ByteReader::Raw.read_i32(&mut self.cursor) {
            Ok(v) => {
                let b = #[verifier::truncate] (v as u32);
                proof {
                    let x = crate::reader::byte_reader::be_u32_at(s, p);
                    assert((x as i32) as u32 == x) by (bit_vector);
                }
                Ok(b)
            },
            Err(e) => Err(e),
        }
    }

    /// Reads the raw bits of a 64-bit float (always big-endian).
    pub fn read_f64_bits(&mut self) -> (res: Result<u64, Error>)
        ensures
            final(self).bytes() == old(self).bytes(),
            final(self).mode() == old(self).mode(),
            old(self).can_read(8) ==> (res matches Ok(b) && b == crate::reader::byte_reader::be_u64_at(
                old(self).bytes(),
                old(self).position(),
            ) && final(self).position() == old(self).position() + 8),
            !old(self).can_read(8) ==> res matches Err(Error::IoError(IoErrorKind::UnexpectedEof)),
    {
        let ghost s = self.bytes();
        let ghost p = self.position();
        match ByteReader::Raw.read_i64(&mut self.cursor) {
            Ok(v) => {
                let b = #[verifier::truncate] (v as u64);
                proof {
                    let x = crate::reader::byte_reader::be_u64_at(s, p);
                    assert((x as i64) as u64 == x) by (bit_vector);
                }
                Ok(b)
            },
            Err(e) => Err(e),
        }
    }

    /// Decodes one character from a 16-bit code unit.
    pub fn read_char(&mut self) -> (res: Result<char, Error>)
        ensures
            final(self).bytes() == old(self).bytes(),
            final(self).mode() == old(self).mode(),
            match i16_parse(old(self).mode(), old(self).bytes(), old(self).position()) {
                None => res matches Err(Error::IoError(IoErrorKind::UnexpectedEof)),
                Some(v) => if 0xD800 <= (v.0 as u16) <= 0xDFFF {
                    res matches Err(Error::InvalidChar(c)) && c == (v.0 as u16) as u32
                } else {
                    res matches Ok(ch) && ch == (v.0 as u16) as char && final(self).position()
                        == v.1
                },
            },
    {
        let cu = match self.read_i16() {
            Ok(v) => v,
            Err(e) => {
                return Err(e);
            },
        };
        let c16 = #[verifier::truncate] (cu as u16);
        match crate::reader::strings::char_from_u32(c16 as u32) {
            Some(ch) => Ok(ch),
            None => Err(Error::InvalidChar(c16 as u32)),
        }
    }

    /// The exec counterpart of [`Self::mode`].
    fn reader(&self) -> (r: ByteReader)
        ensures
            r == self.mode(),
    {
        match self.int_encoding {
            IntEncoding::Raw => ByteReader::Raw,
            IntEncoding::Compressed => ByteReader::CompressedInts,
        }
    }
}

} // verus!
