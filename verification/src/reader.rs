//! Decoding of JFR recordings into Rust data structures.
//!
//! The entry point is [`JfrReader`], which owns the recording bytes and
//! yields one [`Chunk`] at a time together with a [`ChunkReader`] cursor
//! over the chunk body.

use vstd::prelude::*;

use crate::Version;

use crate::reader::byte_stream::{ByteStream, IntEncoding};
use crate::reader::constant_pool::ConstantPool;
use crate::reader::event::EventIterator;
use crate::reader::metadata::Metadata;

pub mod byte_reader;
pub mod byte_stream;
pub mod constant_pool;
pub mod event;
pub mod fx_map;
pub mod metadata;
pub mod strings;
pub mod type_descriptor;
pub mod types;
pub mod value_descriptor;

verus! {

/// One decoded chunk: its header, schema, constant pool.  The chunk
/// bytes themselves stay with the [`ChunkReader`] that was handed out
/// with it.
pub struct Chunk {
    pub header: ChunkHeader,
    pub metadata: Metadata,
    pub constant_pool: ConstantPool,
}

/// Cursor over one chunk's bytes, used to decode its events.
pub struct ChunkReader {
    pub(crate) stream: ByteStream,
}

impl ChunkReader {
    /// The chunk bytes the cursor reads from.
    pub closed spec fn bytes(&self) -> Seq<u8> {
        self.stream.bytes()
    }

    /// The cursor's integer-decoding mode.
    pub closed spec fn mode(&self) -> byte_reader::ByteReader {
        self.stream.mode()
    }

    /// The cursor's current position within the chunk bytes.
    pub closed spec fn position(&self) -> int {
        self.stream.position()
    }

    /// An event cursor over the chunk body, from the first event.
    pub fn events(&mut self) -> (r: EventIterator)
        ensures
            *final(self) == *old(self),
            r.offset == 0,
            !r.done,
    {
        EventIterator::new()
    }

    /// An event cursor starting at the given body offset.
    pub fn events_from_offset(&mut self, start_offset: u64) -> (r: EventIterator)
        ensures
            *final(self) == *old(self),
            r.offset == start_offset,
            !r.done,
    {
        let mut iter = EventIterator::new();
        iter.seek(start_offset);
        iter
    }
}

/// Walks the chunks of a recording in file order.
pub struct ChunkIterator {
    position: u64,
    /// Leave the constant pool empty: only the schema is wanted.
    skip_constant_pool: bool,
}

/// Reader over the bytes of one JFR recording.
pub struct JfrReader {
    data: Vec<u8>,
}

impl JfrReader {
    /// The recording bytes.
    pub closed spec fn bytes(&self) -> Seq<u8> {
        self.data@
    }

    pub fn new(inner: Vec<u8>) -> (r: Self)
        ensures
            r.bytes() == inner@,
    {
        JfrReader { data: inner }
    }

    /// An iterator over the chunks, decoding each one fully.
    pub fn chunks(&mut self) -> (r: ChunkIterator)
        ensures
            *final(self) == *old(self),
            r.position() == 0,
            !r.skips_constant_pool(),
    {
        ChunkIterator { position: 0, skip_constant_pool: false }
    }

    /// An iterator over the chunks that skips constant-pool
    /// construction: each chunk carries its schema and an empty pool.
    pub fn chunk_metadata(&mut self) -> (r: ChunkIterator)
        ensures
            *final(self) == *old(self),
            r.position() == 0,
            r.skips_constant_pool(),
    {
        ChunkIterator { position: 0, skip_constant_pool: true }
    }
}

impl ChunkIterator {
    /// Offset of the next chunk in the recording.
    pub closed spec fn position(&self) -> int {
        self.position as int
    }

    /// Whether decoded chunks get an empty constant pool.
    pub closed spec fn skips_constant_pool(&self) -> bool {
        self.skip_constant_pool
    }

    /// Decodes the next chunk.  `None` exactly when the previous chunk
    /// ended at the end of the recording; inside a chunk, the magic, the
    /// version gate and the header are checked as stated.
    pub fn next(&mut self, reader: &JfrReader) -> (res: Option<
        Result<(ChunkReader, Chunk), Error>,
    >)
        ensures
            final(self).skips_constant_pool() == old(self).skips_constant_pool(),
            ({
                let data = reader.bytes();
                let start = old(self).position();
                &&& (res is None <==> start >= data.len())
                &&& (res is None ==> final(self).position() == start)
                &&& (start < data.len() && start + 4 <= data.len() && !(data[start] == 0x46
                    && data[start + 1] == 0x4c && data[start + 2] == 0x52 && data[start + 3]
                    == 0x00) ==> (res matches Some(r) && (r matches Err(e) && e is InvalidFormat)))
                &&& (start + 8 <= data.len() && data[start] == 0x46 && data[start + 1] == 0x4c
                    && data[start + 2] == 0x52 && data[start + 3] == 0x00 && {
                    let major = byte_reader::be_i16_at(data, start + 4);
                    major != 1 && major != 2
                } ==> (res matches Some(r) && (r matches Err(e) && e == Error::UnsupportedVersion(
                    Version {
                        major: byte_reader::be_i16_at(data, start + 4),
                        minor: byte_reader::be_i16_at(data, start + 6),
                    },
                ))))
                &&& (start < data.len() && start + 4 > data.len() ==> (res matches Some(r) && (
                r matches Err(e) && e == Error::IoError(IoErrorKind::UnexpectedEof))))
                &&& (start + 4 <= data.len() && data[start] == 0x46 && data[start + 1] == 0x4c
                    && data[start + 2] == 0x52 && data[start + 3] == 0x00 && start + 8 > data.len()
                    ==> (res matches Some(r) && (r matches Err(e) && e == Error::IoError(
                    IoErrorKind::UnexpectedEof,
                ))))
                &&& (start + 8 <= data.len() && data[start] == 0x46 && data[start + 1] == 0x4c
                    && data[start + 2] == 0x52 && data[start + 3] == 0x00 && {
                    let major = byte_reader::be_i16_at(data, start + 4);
                    (major == 1 || major == 2) && start + 16 > data.len()
                } ==> (res matches Some(r) && (r matches Err(e) && e == Error::IoError(
                    IoErrorKind::UnexpectedEof,
                ))))
                &&& (start + 16 <= data.len() && data[start] == 0x46 && data[start + 1] == 0x4c
                    && data[start + 2] == 0x52 && data[start + 3] == 0x00 && {
                    let major = byte_reader::be_i16_at(data, start + 4);
                    let size = byte_reader::be_i64_at(data, start + 8);
                    (major == 1 || major == 2) && (size < CHUNK_HEADER_SIZE || start + size
                        > data.len())
                } ==> (res matches Some(r) && (r matches Err(e) && e == Error::IoError(
                    IoErrorKind::UnexpectedEof,
                ))))
                &&& (start + 8 <= data.len() && data[start] == 0x46 && data[start + 1] == 0x4c
                    && data[start + 2] == 0x52 && data[start + 3] == 0x00 && {
                    let major = byte_reader::be_i16_at(data, start + 4);
                    major == 1 || major == 2
                } ==> !(res matches Some(r) && (r matches Err(e) && e is UnsupportedVersion)))
                &&& (res matches Some(r) ==> (r matches Ok(p) ==> ({
                    let chunk = p.1;
                    let size = chunk.header.chunk_size;
                    &&& start + 4 <= data.len()
                    &&& data[start] == 0x46 && data[start + 1] == 0x4c && data[start + 2] == 0x52
                        && data[start + 3] == 0x00
                    &&& start + 16 <= data.len()
                    &&& {
                        let major = byte_reader::be_i16_at(data, start + 4);
                        major == 1 || major == 2
                    }
                    &&& size == byte_reader::be_i64_at(data, start + 8)
                    &&& size >= CHUNK_HEADER_SIZE
                    &&& start + size <= data.len()
                    &&& chunk.header.wf()
                    &&& chunk.header.constant_pool_offset == byte_reader::be_i64_at(
                        data,
                        start + 16,
                    )
                    &&& chunk.header.metadata_offset == byte_reader::be_i64_at(data, start + 24)
                    &&& chunk.header.start_time_nanos == byte_reader::be_i64_at(data, start + 32)
                    &&& chunk.header.duration_nanos == byte_reader::be_i64_at(data, start + 40)
                    &&& chunk.header.start_ticks == byte_reader::be_i64_at(data, start + 48)
                    &&& chunk.header.ticks_per_second == byte_reader::be_i64_at(data, start + 56)
                    &&& chunk.header.features == byte_reader::be_i32_at(data, start + 64)
                    &&& constant_pool::pool_wf(chunk.constant_pool@, chunk.metadata.type_pool@)
                    &&& (old(self).skips_constant_pool() ==> chunk.constant_pool@ =~= Map::<
                        i64,
                        Map<i64, value_descriptor::ValueDescriptor>,
                    >::empty())
                    &&& final(self).position() == start + size
                })))
            }),
    {
        match self.internal_next(reader) {
            Ok(Some(chunk)) => Some(Ok(chunk)),
            Ok(None) => None,
            Err(e) => Some(Err(e)),
        }
    }

    #[verifier::rlimit(60)]
    #[verifier::spinoff_prover]
    fn internal_next(&mut self, reader: &JfrReader) -> (res: Result<
        Option<(ChunkReader, Chunk)>,
        Error,
    >)
        ensures
            final(self).skips_constant_pool() == old(self).skips_constant_pool(),
            ({
                let data = reader.bytes();
                let start = old(self).position();
                &&& ((res matches Ok(r) && r is None) ==> start >= data.len()
                    && final(self).position() == start)
                &&& (start >= data.len() ==> (res matches Ok(r) && r is None))
                &&& (start < data.len() && start + 4 <= data.len() && !(data[start] == 0x46
                    && data[start + 1] == 0x4c && data[start + 2] == 0x52 && data[start + 3]
                    == 0x00) ==> (res matches Err(e) && e is InvalidFormat))
                &&& (start + 8 <= data.len() && data[start] == 0x46 && data[start + 1] == 0x4c
                    && data[start + 2] == 0x52 && data[start + 3] == 0x00 && {
                    let major = byte_reader::be_i16_at(data, start + 4);
                    major != 1 && major != 2
                } ==> (res matches Err(e) && e == Error::UnsupportedVersion(
                    Version {
                        major: byte_reader::be_i16_at(data, start + 4),
                        minor: byte_reader::be_i16_at(data, start + 6),
                    },
                )))
                &&& (start < data.len() && start + 4 > data.len() ==> (res matches Err(e) && e
                    == Error::IoError(IoErrorKind::UnexpectedEof)))
                &&& (start + 4 <= data.len() && data[start] == 0x46 && data[start + 1] == 0x4c
                    && data[start + 2] == 0x52 && data[start + 3] == 0x00 && start + 8 > data.len()
                    ==> (res matches Err(e) && e == Error::IoError(IoErrorKind::UnexpectedEof)))
                &&& (start + 8 <= data.len() && data[start] == 0x46 && data[start + 1] == 0x4c
                    && data[start + 2] == 0x52 && data[start + 3] == 0x00 && {
                    let major = byte_reader::be_i16_at(data, start + 4);
                    (major == 1 || major == 2) && start + 16 > data.len()
                } ==> (res matches Err(e) && e == Error::IoError(IoErrorKind::UnexpectedEof)))
                &&& (start + 16 <= data.len() && data[start] == 0x46 && data[start + 1] == 0x4c
                    && data[start + 2] == 0x52 && data[start + 3] == 0x00 && {
                    let major = byte_reader::be_i16_at(data, start + 4);
                    let size = byte_reader::be_i64_at(data, start + 8);
                    (major == 1 || major == 2) && (size < CHUNK_HEADER_SIZE || start + size
                        > data.len())
                } ==> (res matches Err(e) && e == Error::IoError(IoErrorKind::UnexpectedEof)))
                &&& (start + 8 <= data.len() && data[start] == 0x46 && data[start + 1] == 0x4c
                    && data[start + 2] == 0x52 && data[start + 3] == 0x00 && {
                    let major = byte_reader::be_i16_at(data, start + 4);
                    major == 1 || major == 2
                } ==> !(res matches Err(e) && e is UnsupportedVersion))
                &&& (res matches Ok(r) ==> (r matches Some(p) ==> ({
                    let chunk = p.1;
                    let size = chunk.header.chunk_size;
                    &&& start + 4 <= data.len()
                    &&& data[start] == 0x46 && data[start + 1] == 0x4c && data[start + 2] == 0x52
                        && data[start + 3] == 0x00
                    &&& start + 16 <= data.len()
                    &&& {
                        let major = byte_reader::be_i16_at(data, start + 4);
                        major == 1 || major == 2
                    }
                    &&& size == byte_reader::be_i64_at(data, start + 8)
                    &&& size >= CHUNK_HEADER_SIZE
                    &&& start + size <= data.len()
                    &&& chunk.header.wf()
                    &&& chunk.header.constant_pool_offset == byte_reader::be_i64_at(
                        data,
                        start + 16,
                    )
                    &&& chunk.header.metadata_offset == byte_reader::be_i64_at(data, start + 24)
                    &&& chunk.header.start_time_nanos == byte_reader::be_i64_at(data, start + 32)
                    &&& chunk.header.duration_nanos == byte_reader::be_i64_at(data, start + 40)
                    &&& chunk.header.start_ticks == byte_reader::be_i64_at(data, start + 48)
                    &&& chunk.header.ticks_per_second == byte_reader::be_i64_at(data, start + 56)
                    &&& chunk.header.features == byte_reader::be_i32_at(data, start + 64)
                    &&& constant_pool::pool_wf(chunk.constant_pool@, chunk.metadata.type_pool@)
                    &&& (old(self).skips_constant_pool() ==> chunk.constant_pool@ =~= Map::<
                        i64,
                        Map<i64, value_descriptor::ValueDescriptor>,
                    >::empty())
                    &&& final(self).position() == start + size
                })))
            }),
    {
        let data_len = reader.data.len();
        if self.position >= data_len as u64 {
            return Ok(None);
        }
        let start = self.position as usize;
        // magic: 'F' 'L' 'R' '\0'
        if data_len - start < 4 {
            return Err(Error::IoError(IoErrorKind::UnexpectedEof));
        }
        if !(reader.data[start] == 0x46 && reader.data[start + 1] == 0x4c && reader.data[start + 2]
            == 0x52 && reader.data[start + 3] == 0x00) {
            return Err(Error::InvalidFormat);
        }
        if data_len - start < 8 {
            return Err(Error::IoError(IoErrorKind::UnexpectedEof));
        }
        let major = be_i16_of(&reader.data, start + 4);
        let minor = be_i16_of(&reader.data, start + 6);
        let version = Version { major, minor };
        if !(major == 1 || major == 2) {
            return Err(Error::UnsupportedVersion(version));
        }
        if data_len - start < 16 {
            return Err(Error::IoError(IoErrorKind::UnexpectedEof));
        }
        let chunk_size = be_i64_of(&reader.data, start + 8);
        if chunk_size < CHUNK_HEADER_SIZE as i64 {
            return Err(Error::IoError(IoErrorKind::UnexpectedEof));
        }
        if chunk_size as u64 > (data_len - start) as u64 {
            return Err(Error::IoError(IoErrorKind::UnexpectedEof));
        }
        let size = chunk_size as usize;
        // the whole chunk is copied so that the metadata, the pool chain
        // and the events can be read with random access
        let chunk_bytes = copy_range(&reader.data, start, size);
        let mut heap_stream = ByteStream::new(chunk_bytes);
        // magic + version + chunk size
        heap_stream.seek(16);
        let header = Self::read_chunk_header(&mut heap_stream, chunk_size);
        let header = match header {
            Ok(h) => h,
            Err(e) => {
                return Err(e);
            },
        };
        heap_stream.set_int_encoding(header.int_encoding());
        let metadata = match Metadata::try_new(&mut heap_stream, &header) {
            Ok(m) => m,
            Err(e) => {
                return Err(e);
            },
        };
        let constant_pool = if self.skip_constant_pool {
            ConstantPool::default()
        } else {
            match ConstantPool::try_new(&mut heap_stream, &header, &metadata) {
                Ok(p) => p,
                Err(e) => {
                    return Err(e);
                },
            }
        };
        self.position = (start + size) as u64;
        Ok(Some((ChunkReader { stream: heap_stream }, Chunk { header, metadata, constant_pool })))
    }

    /// Reads the eight header fields that follow the chunk size.
    fn read_chunk_header(stream: &mut ByteStream, chunk_size: i64) -> (res: Result<
        ChunkHeader,
        Error,
    >)
        ensures
            final(stream).bytes() == old(stream).bytes(),
            final(stream).mode() == old(stream).mode(),
            ({
                let s = old(stream).bytes();
                let p = old(stream).position();
                let want = ChunkHeader {
                    chunk_size: chunk_size,
                    constant_pool_offset: byte_reader::be_i64_at(s, p),
                    metadata_offset: byte_reader::be_i64_at(s, p + 8),
                    start_time_nanos: byte_reader::be_i64_at(s, p + 16),
                    duration_nanos: byte_reader::be_i64_at(s, p + 24),
                    start_ticks: byte_reader::be_i64_at(s, p + 32),
                    ticks_per_second: byte_reader::be_i64_at(s, p + 40),
                    features: byte_reader::be_i32_at(s, p + 48),
                };
                if old(stream).mode() is Raw && 0 <= p && p + 52 <= s.len() {
                    res matches Ok(h) && h == want && final(stream).position() == p + 52
                } else {
                    true
                }
            }),
    {
        let constant_pool_offset = match stream.read_i64() {
            Ok(v) => v,
            Err(e) => {
                return Err(e);
            },
        };
        let metadata_offset = match stream.read_i64() {
            Ok(v) => v,
            Err(e) => {
                return Err(e);
            },
        };
        let start_time_nanos = match stream.read_i64() {
            Ok(v) => v,
            Err(e) => {
                return Err(e);
            },
        };
        let duration_nanos = match stream.read_i64() {
            Ok(v) => v,
            Err(e) => {
                return Err(e);
            },
        };
        let start_ticks = match stream.read_i64() {
            Ok(v) => v,
            Err(e) => {
                return Err(e);
            },
        };
        let ticks_per_second = match stream.read_i64() {
            Ok(v) => v,
            Err(e) => {
                return Err(e);
            },
        };
        let features = match stream.read_i32() {
            Ok(v) => v,
            Err(e) => {
                return Err(e);
            },
        };
        Ok(
            ChunkHeader {
                chunk_size,
                constant_pool_offset,
                metadata_offset,
                start_time_nanos,
                duration_nanos,
                start_ticks,
                ticks_per_second,
                features,
            },
        )
    }
}

/// Big-endian 16-bit read out of the recording bytes.
fn be_i16_of(data: &Vec<u8>, pos: usize) -> (r: i16)
    requires
        pos + 2 <= data@.len(),
    ensures
        r == byte_reader::be_i16_at(data@, pos as int),
{
    // binding the length first teaches the verifier it fits in usize
    let _n = data.len();
    let v: u16 = ((data[pos] as u16) << 8) | (data[pos + 1] as u16);
    #[verifier::truncate] (v as i16)
}

/// Big-endian 64-bit read out of the recording bytes.
fn be_i64_of(data: &Vec<u8>, pos: usize) -> (r: i64)
    requires
        pos + 8 <= data@.len(),
    ensures
        r == byte_reader::be_i64_at(data@, pos as int),
{
    // binding the length first teaches the verifier it fits in usize
    let _n = data.len();
    let v: u64 = ((data[pos] as u64) << 56) | ((data[pos + 1] as u64) << 48) | ((data[pos
        + 2] as u64) << 40) | ((data[pos + 3] as u64) << 32) | ((data[pos + 4] as u64) << 24) | ((
    data[pos + 5] as u64) << 16) | ((data[pos + 6] as u64) << 8) | (data[pos + 7] as u64);
    #[verifier::truncate] (v as i64)
}

/// Copies `n` bytes starting at `start` into a fresh vector.
fn copy_range(data: &Vec<u8>, start: usize, n: usize) -> (r: Vec<u8>)
    requires
        start + n <= data@.len(),
    ensures
        r@ == data@.subrange(start as int, start as int + n),
{
    // binding the length first teaches the verifier it fits in usize
    let _len = data.len();
    let mut v: Vec<u8> = Vec::new();
    let mut i: usize = 0;
    while i < n
        invariant
            start + n <= data@.len(),
            data@.len() <= usize::MAX,
            i <= n,
            v@ == data@.subrange(start as int, start as int + i),
        decreases n - i,
    {
        v.push(data[start + i]);
        proof {
            assert(v@ =~= data@.subrange(start as int, start as int + i + 1));
        }
        i = i + 1;
    }
    v
}

/// What went wrong while reading the in-memory recording.
///
/// Reads past the end of the buffer are the only source of I/O failures.
#[derive(Copy, Clone, Debug, Eq, PartialEq, Structural)]
pub enum IoErrorKind {
    UnexpectedEof,
}

/// Bytes from the start of a chunk (the magic) to the end of its header.
pub const CHUNK_HEADER_SIZE: u64 = 68;

/// Low bit of the feature flags: the chunk body uses compressed integers.
pub const FEATURES_COMPRESSED_INTS: i32 = 1;

/// Header of one chunk, parsed from the 68 bytes after the magic.
#[derive(Debug)]
pub struct ChunkHeader {
    pub chunk_size: i64,
    pub constant_pool_offset: i64,
    pub metadata_offset: i64,
    pub start_time_nanos: i64,
    pub duration_nanos: i64,
    pub start_ticks: i64,
    pub ticks_per_second: i64,
    pub features: i32,
}

impl ChunkHeader {
    /// A header the chunk iterator hands out: the chunk is at least as
    /// large as its own header.
    pub open spec fn wf(&self) -> bool {
        self.chunk_size >= CHUNK_HEADER_SIZE
    }

    /// The body's integer encoding, from the low feature-flag bit.
    pub fn int_encoding(&self) -> (r: IntEncoding)
        ensures
            r is Compressed <==> self.features & FEATURES_COMPRESSED_INTS != 0,
    {
        if self.features & FEATURES_COMPRESSED_INTS != 0 {
            IntEncoding::Compressed
        } else {
            IntEncoding::Raw
        }
    }

    /// Size of the chunk body, the part after the header.
    pub fn chunk_body_size(&self) -> (r: u64)
        requires
            self.wf(),
        ensures
            r == self.chunk_size - CHUNK_HEADER_SIZE,
    {
        self.chunk_size as u64 - CHUNK_HEADER_SIZE
    }

    /// Offset of the chunk body relative to the chunk start.
    pub fn body_start_offset(&self) -> (r: u64)
        ensures
            r == CHUNK_HEADER_SIZE,
    {
        CHUNK_HEADER_SIZE
    }
}

/// Error surface of the reader.
#[derive(Debug)]
pub enum Error {
    /// Malformed bytes: bad magic, wrong reserved event type, unknown
    /// metadata element name, unparsable attribute value.
    InvalidFormat,
    /// A string-table lookup was out of range or hit a null entry.
    InvalidStringIndex(i32),
    /// A string payload could not be decoded.
    InvalidString,
    /// A 16-bit code unit that is not a Unicode scalar value.
    InvalidChar(u32),
    /// The chunk declares a version other than 1.x or 2.x.
    UnsupportedVersion(Version),
    /// A class id with no descriptor in the chunk's type pool.
    ClassNotFound(i64),
    /// A read past the end of the recording bytes.
    IoError(IoErrorKind),
    /// Failure while materialising a record type from a value tree.
    DeserializeError(String),
}

} // verus!
