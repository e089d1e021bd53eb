//! Primitive reads over an in-memory byte buffer.
//!
//! [`ByteCursor`] is a position over owned bytes; [`ByteReader`] decodes
//! big-endian or compressed (variable-length) integers from a cursor.
//! The compressed encoding packs 7 data bits per byte, bit 7 signalling
//! continuation; after eight continuation bytes a ninth byte contributes
//! its full 8 bits at position 56.

use vstd::prelude::*;

use crate::reader::strings::{char_from_u32, string_push, utf8_decode, utf8_from_bytes};
use crate::reader::{Error, IoErrorKind};

verus! {

/// A cursor over owned bytes.  Reads fail with
/// [`Error::IoError`] instead of panicking when the data runs out.
pub struct ByteCursor {
    data: Vec<u8>,
    pos: usize,
}

impl ByteCursor {
    /// The underlying bytes.
    pub closed spec fn bytes(&self) -> Seq<u8> {
        self.data@
    }

    /// The current read position.
    pub closed spec fn position(&self) -> int {
        self.pos as int
    }

    /// Whether `n` more bytes can be read from the current position.
    pub open spec fn can_read(&self, n: int) -> bool {
        0 <= self.position() && self.position() + n <= self.bytes().len()
    }

    pub fn new(data: Vec<u8>) -> (r: Self)
        ensures
            r.bytes() == data@,
            r.position() == 0,
    {
        ByteCursor { data, pos: 0 }
    }

    /// Number of bytes in the buffer.
    pub fn data_len(&self) -> (r: usize)
        ensures
            r == self.bytes().len(),
    {
        self.data.len()
    }

    /// Repositions the cursor; positions past the end are allowed and make
    /// the next read fail.
    pub fn seek(&mut self, pos: usize)
        ensures
            final(self).bytes() == old(self).bytes(),
            final(self).position() == pos as int,
    {
        self.pos = pos;
    }

    pub fn read_byte(&mut self) -> (r: Result<u8, Error>)
        ensures
            final(self).bytes() == old(self).bytes(),
            old(self).can_read(1) ==> (r matches Ok(b) && b == old(self).bytes()[old(self).position()]
                && final(self).position() == old(self).position() + 1),
            !old(self).can_read(1) ==> (r matches Err(Error::IoError(IoErrorKind::UnexpectedEof))
                && final(self).position() == old(self).position()),
    {
        if self.pos < self.data.len() {
            let b = self.data[self.pos];
            self.pos = self.pos + 1;
            Ok(b)
        } else {
            Err(Error::IoError(IoErrorKind::UnexpectedEof))
        }
    }

    /// Reads `n` bytes as an owned vector.
    pub fn read_bytes(&mut self, n: usize) -> (r: Result<Vec<u8>, Error>)
        ensures
            final(self).bytes() == old(self).bytes(),
            old(self).can_read(n as int) ==> (r matches Ok(v)
                && v@ == old(self).bytes().subrange(old(self).position(), old(self).position() + n)
                && final(self).position() == old(self).position() + n),
            !old(self).can_read(n as int) ==> (r matches Err(Error::IoError(IoErrorKind::UnexpectedEof))
                && final(self).position() == old(self).position()),
    {
        if self.pos <= self.data.len() && n <= self.data.len() - self.pos {
            let mut v: Vec<u8> = Vec::new();
            let mut i: usize = 0;
            while i < n
                invariant
                    self.pos + n <= self.data.len(),
                    i <= n,
                    v@ == self.data@.subrange(self.pos as int, self.pos + i),
                    self.data@ == old(self).data@,
                    self.pos == old(self).pos,
                decreases n - i,
            {
                v.push(self.data[self.pos + i]);
                assert(v@ == self.data@.subrange(self.pos as int, self.pos + i + 1));
                i = i + 1;
            }
            self.pos = self.pos + n;
            Ok(v)
        } else {
            Err(Error::IoError(IoErrorKind::UnexpectedEof))
        }
    }
}

/// Big-endian 16-bit value at `pos`.
pub open spec fn be_u16_at(s: Seq<u8>, pos: int) -> u16 {
    (((s[pos] as u16) << 8) | (s[pos + 1] as u16)) as u16
}

/// Big-endian 32-bit value at `pos`.
pub open spec fn be_u32_at(s: Seq<u8>, pos: int) -> u32 {
    (((s[pos] as u32) << 24) | ((s[pos + 1] as u32) << 16) | ((s[pos + 2] as u32) << 8) | (s[pos
        + 3] as u32)) as u32
}

/// Big-endian 64-bit value at `pos`.
pub open spec fn be_u64_at(s: Seq<u8>, pos: int) -> u64 {
    (((s[pos] as u64) << 56) | ((s[pos + 1] as u64) << 48) | ((s[pos + 2] as u64) << 40) | ((s[pos
        + 3] as u64) << 32) | ((s[pos + 4] as u64) << 24) | ((s[pos + 5] as u64) << 16) | ((s[pos
        + 6] as u64) << 8) | (s[pos + 7] as u64)) as u64
}

pub open spec fn be_i16_at(s: Seq<u8>, pos: int) -> i16 {
    be_u16_at(s, pos) as i16
}

pub open spec fn be_i32_at(s: Seq<u8>, pos: int) -> i32 {
    be_u32_at(s, pos) as i32
}

pub open spec fn be_i64_at(s: Seq<u8>, pos: int) -> i64 {
    be_u64_at(s, pos) as i64
}

/// One step of the compressed-integer decode: group `i` of the encoding
/// starts at `pos`, with `acc` holding the bits of the groups before it.
/// `None` means the bytes ran out before the encoding was complete.
pub open spec fn var_parse_rec(s: Seq<u8>, pos: int, i: int, acc: u64) -> Option<(i64, int)>
    decreases 8 - i,
    when 0 <= i <= 8
{
    if pos < 0 || pos >= s.len() {
        None
    } else if i == 8 {
        Some(((acc | ((s[pos] as u64) << 56)) as i64, pos + 1))
    } else {
        let b = s[pos];
        let acc2 = acc | (((b & 0x7f) as u64) << (7 * i) as u64);
        if b < 0x80 {
            Some((acc2 as i64, pos + 1))
        } else {
            var_parse_rec(s, pos + 1, i + 1, acc2)
        }
    }
}

/// The compressed integer starting at `pos`: its value and end position.
pub open spec fn var_parse(s: Seq<u8>, pos: int) -> Option<(i64, int)> {
    var_parse_rec(s, pos, 0, 0)
}

/// Canonical compressed encoding of the remaining value `u`, `i` groups
/// already emitted.
pub open spec fn var_encode_rec(u: u64, i: int) -> Seq<u8>
    decreases 8 - i,
    when 0 <= i <= 8
{
    if i == 8 {
        seq![(u & 0xff) as u8]
    } else if u < 0x80 {
        seq![u as u8]
    } else {
        seq![((u & 0x7f) | 0x80) as u8] + var_encode_rec(u >> 7, i + 1)
    }
}

/// Canonical compressed encoding of `x`.
pub open spec fn var_encode(x: i64) -> Seq<u8> {
    var_encode_rec(x as u64, 0)
}

/// The 64-bit integer starting at `pos` under the given mode: raw
/// big-endian, or compressed.
pub open spec fn i64_parse(mode: ByteReader, s: Seq<u8>, pos: int) -> Option<(i64, int)> {
    if mode is CompressedInts {
        var_parse(s, pos)
    } else if 0 <= pos && pos + 8 <= s.len() {
        Some((be_i64_at(s, pos), pos + 8))
    } else {
        None
    }
}

/// The 32-bit integer starting at `pos`: compressed integers are narrowed
/// to their low 32 bits, as the format prescribes.
pub open spec fn i32_parse(mode: ByteReader, s: Seq<u8>, pos: int) -> Option<(i32, int)> {
    if mode is CompressedInts {
        match var_parse(s, pos) {
            Some(v) => Some((v.0 as i32, v.1)),
            None => None,
        }
    } else if 0 <= pos && pos + 4 <= s.len() {
        Some((be_i32_at(s, pos), pos + 4))
    } else {
        None
    }
}

/// The 16-bit integer starting at `pos`; compressed integers are narrowed
/// to their low 16 bits.
pub open spec fn i16_parse(mode: ByteReader, s: Seq<u8>, pos: int) -> Option<(i16, int)> {
    if mode is CompressedInts {
        match var_parse(s, pos) {
            Some(v) => Some((v.0 as i16, v.1)),
            None => None,
        }
    } else if 0 <= pos && pos + 2 <= s.len() {
        Some((be_i16_at(s, pos), pos + 2))
    } else {
        None
    }
}

/// A successful parse always advances the position and stays within the
/// bytes.
pub proof fn lemma_var_parse_rec_bounds(s: Seq<u8>, pos: int, i: int, acc: u64)
    requires
        0 <= i <= 8,
    ensures
        match var_parse_rec(s, pos, i, acc) {
            Some(v) => pos < v.1 <= s.len(),
            None => true,
        },
    decreases 8 - i,
{
    if 0 <= pos < s.len() && i < 8 {
        let b = s[pos];
        if b >= 0x80 {
            lemma_var_parse_rec_bounds(s, pos + 1, i + 1, acc | (((b & 0x7f) as u64) << (7
                * i) as u64));
        }
    }
}

/// A successful 32-bit parse advances the position within the bytes.
pub proof fn lemma_i32_parse_bounds(mode: ByteReader, s: Seq<u8>, pos: int)
    ensures
        match i32_parse(mode, s, pos) {
            Some(v) => pos < v.1 <= s.len(),
            None => true,
        },
{
    if mode is CompressedInts {
        lemma_var_parse_rec_bounds(s, pos, 0, 0);
    }
}

/// Emits the canonical compressed encoding of `x`, as
/// [`var_encode`] describes it.
pub fn encode_var_i64(x: i64) -> (r: Vec<u8>)
    ensures
        r@ == var_encode(x),
{
    let mut u: u64 = #[verifier::truncate] (x as u64);
    let mut out: Vec<u8> = Vec::new();
    let mut i: usize = 0;
    while i < 8
        invariant
            i <= 8,
            var_encode(x) == out@ + var_encode_rec(u, i as int),
        decreases 8 - i,
    {
        if u < 0x80 {
            out.push(#[verifier::truncate] (u as u8));
            assert(var_encode(x) =~= out@);
            return out;
        }
        let ghost prev = out@;
        out.push(#[verifier::truncate] (((u & 0x7f) | 0x80) as u8));
        proof {
            assert(var_encode_rec(u, i as int) == seq![((u & 0x7f) | 0x80) as u8]
                + var_encode_rec(u >> 7, i + 1));
            assert(prev.push(((u & 0x7f) | 0x80) as u8) + var_encode_rec(u >> 7, i + 1) =~= prev
                + var_encode_rec(u, i as int));
        }
        u = u >> 7;
        i = i + 1;
    }
    out.push(#[verifier::truncate] ((u & 0xff) as u8));
    assert(var_encode(x) =~= out@);
    out
}

/// Round trip of the compressed-integer codec, generalised over the
/// groups already handled: decoding the canonical encoding of the
/// remaining value `u` on top of the accumulated low bits `acc` yields
/// exactly their combination.
proof fn lemma_var_round_trip_rec(s: Seq<u8>, pos: int, u: u64, i: int, acc: u64)
    requires
        0 <= i <= 8,
        0 <= pos,
        pos + var_encode_rec(u, i).len() <= s.len(),
        s.subrange(pos, pos + var_encode_rec(u, i).len() as int) == var_encode_rec(u, i),
        acc < (1u64 << ((7 * (i as u64)) as u64)),
    ensures
        var_parse_rec(s, pos, i, acc) == Some(
            ((acc | (u << ((7 * (i as u64)) as u64))) as i64, pos + var_encode_rec(u, i).len()),
        ),
    decreases 8 - i,
{
    let e = var_encode_rec(u, i);
    let iu = i as u64;
    assert(s[pos] == e[0]);
    if i == 8 {
        assert(var_parse_rec(s, pos, i, acc) == Some(
            ((acc | ((s[pos] as u64) << 56)) as i64, pos + 1),
        ));
        assert(acc | (((u & 0xff) as u8 as u64) << 56) == acc | (u << ((7 * 8u64) as u64)))
            by (bit_vector);
    } else if u < 0x80 {
        assert(iu < 8 ==> (u as u8) < 0x80u8 && acc | ((((u as u8) & 0x7f) as u64) << ((7
            * iu) as u64)) == acc | (u << ((7 * iu) as u64))) by (bit_vector)
            requires
                u < 0x80,
        ;
    } else {
        let b = ((u & 0x7f) | 0x80) as u8;
        let e2 = var_encode_rec(u >> 7, i + 1);
        assert(e == seq![b] + e2);
        let acc2 = acc | (((b & 0x7f) as u64) << ((7 * iu) as u64));
        assert(b >= 0x80) by (bit_vector)
            requires
                b == ((u & 0x7f) | 0x80) as u8,
                u >= 0x80,
        ;
        assert(var_parse_rec(s, pos, i, acc) == var_parse_rec(s, pos + 1, i + 1, acc2));
        assert forall|j: int| 0 <= j < e2.len() implies s.subrange(
            pos + 1,
            pos + 1 + e2.len() as int,
        )[j] == e2[j] by {
            assert(e2[j] == e[j + 1]);
            assert(s.subrange(pos, pos + e.len() as int)[j + 1] == s[pos + 1 + j]);
        }
        assert(s.subrange(pos + 1, pos + 1 + e2.len() as int) =~= e2);
        assert(iu < 8 && acc < (1u64 << ((7 * iu) as u64)) ==> acc2 < (1u64 << ((7 * (iu
            + 1)) as u64))) by (bit_vector)
            requires
                acc2 == acc | ((((((u & 0x7f) | 0x80) as u8) & 0x7f) as u64) << ((7
                    * iu) as u64)),
        ;
        assert((7 * ((i + 1) as u64)) as u64 == (7 * (iu + 1)) as u64);
        lemma_var_round_trip_rec(s, pos + 1, u >> 7, i + 1, acc2);
        assert(acc2 | ((u >> 7) << ((7 * (iu + 1)) as u64)) == acc | (u << ((7 * iu) as u64)))
            by (bit_vector)
            requires
                iu < 8,
                acc2 == acc | ((((((u & 0x7f) | 0x80) as u8) & 0x7f) as u64) << ((7
                    * iu) as u64)),
        ;
    }
}

/// Round trip of the compressed-integer codec: for every signed 64-bit
/// value, decoding the canonical encoding yields the value back, and
/// consumes exactly the encoding.
pub proof fn lemma_var_round_trip(x: i64)
    ensures
        var_parse(var_encode(x), 0) == Some((x, var_encode(x).len() as int)),
{
    let e = var_encode(x);
    let u = x as u64;
    assert(e.subrange(0, e.len() as int) =~= e);
    assert(0u64 < (1u64 << ((7 * 0u64) as u64))) by (bit_vector);
    lemma_var_round_trip_rec(e, 0, u, 0, 0);
    assert((0u64 | (u << ((7 * 0u64) as u64))) as i64 == x) by (bit_vector)
        requires
            u == x as u64,
    ;
}

/// A decoded string, before interning.  The constant-pool form carries an
/// index to be resolved against the chunk's pool of `java.lang.String`.
#[derive(Debug, Eq, PartialEq)]
pub enum StringType {
    Null,
    Empty,
    Raw(String),
    ConstantPool(i64),
}

/// Specification-level value of a decoded string.
pub enum StringVal {
    Null,
    Empty,
    Text(Seq<char>),
    Pool(i64),
}

impl View for StringType {
    type V = StringVal;

    open spec fn view(&self) -> StringVal {
        match self {
            StringType::Null => StringVal::Null,
            StringType::Empty => StringVal::Empty,
            StringType::Raw(s) => StringVal::Text(s@),
            StringType::ConstantPool(i) => StringVal::Pool(*i),
        }
    }
}

/// Outcome of decoding a string at a position: the bytes ran out, the
/// payload was invalid, or a value with its end position.
pub enum StringParse {
    Eof,
    Bad,
    Val(StringVal, int),
}

/// `cnt` 16-bit code units starting at `pos`, appended to `acc`;
/// surrogate code units are invalid.
pub open spec fn chars16_parse(
    mode: ByteReader,
    s: Seq<u8>,
    pos: int,
    cnt: int,
    acc: Seq<char>,
) -> StringParse
    decreases cnt,
{
    if cnt <= 0 {
        StringParse::Val(StringVal::Text(acc), pos)
    } else {
        match i16_parse(mode, s, pos) {
            None => StringParse::Eof,
            Some(v) => {
                let c = v.0 as u16;
                if 0xD800 <= c <= 0xDFFF {
                    StringParse::Bad
                } else {
                    chars16_parse(mode, s, v.1, cnt - 1, acc.push(c as char))
                }
            },
        }
    }
}

/// The string starting at `pos`: a tag byte chooses among six encodings
/// (null, empty, constant-pool index, UTF-8 bytes, 16-bit code units,
/// Latin-1 bytes).
pub open spec fn string_parse(mode: ByteReader, s: Seq<u8>, pos: int) -> StringParse {
    if !(0 <= pos && pos + 1 <= s.len()) {
        StringParse::Eof
    } else {
        let tag = s[pos];
        if tag == 0 {
            StringParse::Val(StringVal::Null, pos + 1)
        } else if tag == 1 {
            StringParse::Val(StringVal::Empty, pos + 1)
        } else if tag == 2 {
            match i64_parse(mode, s, pos + 1) {
                None => StringParse::Eof,
                Some(v) => StringParse::Val(StringVal::Pool(v.0), v.1),
            }
        } else if tag == 4 {
            match i32_parse(mode, s, pos + 1) {
                None => StringParse::Eof,
                Some(v) => chars16_parse(mode, s, v.1, (v.0 as usize) as int, Seq::empty()),
            }
        } else if tag == 3 || tag == 5 {
            match i32_parse(mode, s, pos + 1) {
                None => StringParse::Eof,
                Some(v) => {
                    let cnt = (v.0 as usize) as int;
                    if !(v.1 + cnt <= s.len()) {
                        StringParse::Eof
                    } else {
                        let bs = s.subrange(v.1, v.1 + cnt);
                        if tag == 5 {
                            StringParse::Val(
                                StringVal::Text(bs.map_values(|b: u8| (b as u32) as char)),
                                v.1 + cnt,
                            )
                        } else {
                            match utf8_decode(bs) {
                                Some(t) => StringParse::Val(StringVal::Text(t), v.1 + cnt),
                                None => StringParse::Bad,
                            }
                        }
                    }
                },
            }
        } else {
            StringParse::Bad
        }
    }
}

/// Canonical compressed encoding of a Latin-1 string: its tag, the
/// character count, then one byte per character.
pub open spec fn latin1_encode(t: Seq<char>) -> Seq<u8> {
    seq![5u8] + var_encode(t.len() as i64) + t.map_values(|c: char| (c as u32) as u8)
}

/// String round trip, null tag: a null byte decodes back to the null
/// string under either integer encoding.
pub proof fn lemma_string_null_round_trip(mode: ByteReader)
    ensures
        string_parse(mode, seq![0u8], 0) == StringParse::Val(StringVal::Null, 1),
{
}

/// String round trip, empty tag.
pub proof fn lemma_string_empty_round_trip(mode: ByteReader)
    ensures
        string_parse(mode, seq![1u8], 0) == StringParse::Val(StringVal::Empty, 1),
{
}

/// String round trip, constant-pool tag: encoding an index after the
/// tag and decoding yields the same index, for every signed 64-bit
/// index.
pub proof fn lemma_string_pool_round_trip(idx: i64)
    ensures
        ({
            let s = seq![2u8] + var_encode(idx);
            string_parse(ByteReader::CompressedInts, s, 0) == StringParse::Val(
                StringVal::Pool(idx),
                s.len() as int,
            )
        }),
{
    let e = var_encode(idx);
    let s = seq![2u8] + e;
    let u = idx as u64;
    assert(s[0] == 2);
    assert(s.subrange(1, 1 + e.len() as int) =~= e);
    assert(0u64 < (1u64 << ((7 * 0u64) as u64))) by (bit_vector);
    lemma_var_round_trip_rec(s, 1, u, 0, 0);
    assert((0u64 | (u << ((7 * 0u64) as u64))) as i64 == idx) by (bit_vector)
        requires
            u == idx as u64,
    ;
}

/// String round trip, Latin-1 tag: encoding a string of characters
/// below 256 and decoding yields the original characters.
pub proof fn lemma_string_latin1_round_trip(t: Seq<char>)
    requires
        forall|i: int| #![trigger t[i]] 0 <= i < t.len() ==> (t[i] as u32) < 0x100,
        t.len() <= 0x7fffffff,
    ensures
        string_parse(ByteReader::CompressedInts, latin1_encode(t), 0) == StringParse::Val(
            StringVal::Text(t),
            latin1_encode(t).len() as int,
        ),
{
    let mode = ByteReader::CompressedInts;
    let n = t.len() as i64;
    let e = var_encode(n);
    let body = t.map_values(|c: char| (c as u32) as u8);
    let s = latin1_encode(t);
    assert(s[0] == 5);
    assert(s.subrange(1, 1 + e.len() as int) =~= e);
    let u = n as u64;
    assert(0u64 < (1u64 << ((7 * 0u64) as u64))) by (bit_vector);
    lemma_var_round_trip_rec(s, 1, u, 0, 0);
    assert((0u64 | (u << ((7 * 0u64) as u64))) as i64 == n) by (bit_vector)
        requires
            u == n as u64,
    ;
    let end = 1 + e.len() as int;
    assert(i32_parse(mode, s, 1) == Some((n as i32, end)));
    assert(((n as i32) as usize) as i64 == n) by (bit_vector)
        requires
            0 <= n <= 0x7fffffff,
    ;
    let cnt = (n as i32) as usize as int;
    assert(cnt == t.len());
    assert(end + cnt == s.len());
    let bs = s.subrange(end, end + cnt);
    assert(bs =~= body);
    let t2 = bs.map_values(|b: u8| (b as u32) as char);
    assert forall|i: int| 0 <= i < t.len() implies t2[i] == t[i] by {
        let cu = t[i] as u32;
        assert(cu < 0x100);
        assert((cu as u8) as u32 == cu) by (bit_vector)
            requires
                cu < 0x100,
        ;
        assert(body[i] == (cu as u8));
        assert(bs[i] == body[i]);
        assert(t2[i] == (cu as char));
        vstd::utf8::char_u32_cast(t[i], cu);
    }
    assert(t2 =~= t);
}

/// Compressed encodings of the 16-bit code units of a string whose
/// characters all lie in the basic plane.
pub open spec fn chars16_payload(t: Seq<char>) -> Seq<u8>
    decreases t.len(),
{
    if t.len() == 0 {
        Seq::empty()
    } else {
        var_encode((t[0] as u32) as i64) + chars16_payload(t.drop_first())
    }
}

/// Canonical compressed encoding of a string under the 16-bit code-unit
/// tag.
pub open spec fn chars16_encode(t: Seq<char>) -> Seq<u8> {
    seq![4u8] + var_encode(t.len() as i64) + chars16_payload(t)
}

/// Decoding the code units of `t` on top of `acc` yields their
/// concatenation.
proof fn lemma_chars16_payload_round_trip(s: Seq<u8>, pos: int, t: Seq<char>, acc: Seq<char>)
    requires
        0 <= pos,
        pos + chars16_payload(t).len() <= s.len(),
        s.subrange(pos, pos + chars16_payload(t).len() as int) == chars16_payload(t),
        forall|i: int| #![trigger t[i]] 0 <= i < t.len() ==> (t[i] as u32) < 0x10000,
    ensures
        chars16_parse(ByteReader::CompressedInts, s, pos, t.len() as int, acc) == StringParse::Val(
            StringVal::Text(acc + t),
            pos + chars16_payload(t).len(),
        ),
    decreases t.len(),
{
    let mode = ByteReader::CompressedInts;
    if t.len() == 0 {
        assert(acc + t =~= acc);
    } else {
        let cu = t[0] as u32;
        let e0 = var_encode(cu as i64);
        let rest = chars16_payload(t.drop_first());
        assert(chars16_payload(t) == e0 + rest);
        assert(s.subrange(pos, pos + e0.len() as int) =~= e0);
        let u = (cu as i64) as u64;
        assert(0u64 < (1u64 << ((7 * 0u64) as u64))) by (bit_vector);
        lemma_var_round_trip_rec(s, pos, u, 0, 0);
        let decoded: i64 = (0u64 | (u << ((7 * 0u64) as u64))) as i64;
        assert(decoded == cu as i64 && (decoded as i16) as u16 == cu as u16 && cu as u16 == cu
            && !(0xD800 <= (decoded as i16) as u16 <= 0xDFFF) || !(cu < 0xD800 || (0xE000 <= cu
            < 0x10000))) by (bit_vector)
            requires
                u == (cu as i64) as u64,
                decoded == (0u64 | (u << ((7 * 0u64) as u64))) as i64,
                cu < 0x10000,
        ;
        vstd::utf8::char_is_scalar(t[0]);
        assert(cu < 0xD800 || (0xE000 <= cu < 0x10000));
        let end0 = pos + e0.len() as int;
        assert(i16_parse(mode, s, pos) == Some((decoded as i16, end0)));
        let c16 = (decoded as i16) as u16;
        assert(chars16_parse(mode, s, pos, t.len() as int, acc) == chars16_parse(
            mode,
            s,
            end0,
            t.len() as int - 1,
            acc.push(c16 as char),
        ));
        assert(c16 as u32 == cu) by (bit_vector)
            requires
                c16 == cu as u16,
                cu < 0x10000,
        ;
        assert((c16 as u32) as char == t[0]) by {
            vstd::utf8::char_u32_cast(t[0], cu);
        }
        assert(c16 as char == t[0]);
        assert forall|j: int| 0 <= j < rest.len() implies s.subrange(
            end0,
            end0 + rest.len() as int,
        )[j] == rest[j] by {
            assert(chars16_payload(t)[e0.len() + j] == rest[j]);
            assert(s.subrange(pos, pos + chars16_payload(t).len() as int)[e0.len() + j] == s[end0
                + j]);
        }
        assert(s.subrange(end0, end0 + rest.len() as int) =~= rest);
        lemma_chars16_payload_round_trip(s, end0, t.drop_first(), acc.push(t[0]));
        assert(acc.push(t[0]) + t.drop_first() =~= acc + t);
    }
}

/// String round trip, 16-bit code-unit tag: encoding a string of
/// basic-plane characters and decoding yields the original characters.
pub proof fn lemma_string_chars16_round_trip(t: Seq<char>)
    requires
        forall|i: int| #![trigger t[i]] 0 <= i < t.len() ==> (t[i] as u32) < 0x10000,
        t.len() <= 0x7fffffff,
    ensures
        string_parse(ByteReader::CompressedInts, chars16_encode(t), 0) == StringParse::Val(
            StringVal::Text(t),
            chars16_encode(t).len() as int,
        ),
{
    let mode = ByteReader::CompressedInts;
    let n = t.len() as i64;
    let e = var_encode(n);
    let payload = chars16_payload(t);
    let s = chars16_encode(t);
    assert(s[0] == 4);
    assert(s.subrange(1, 1 + e.len() as int) =~= e);
    let u = n as u64;
    assert(0u64 < (1u64 << ((7 * 0u64) as u64))) by (bit_vector);
    lemma_var_round_trip_rec(s, 1, u, 0, 0);
    assert((0u64 | (u << ((7 * 0u64) as u64))) as i64 == n) by (bit_vector)
        requires
            u == n as u64,
    ;
    let end = 1 + e.len() as int;
    assert(i32_parse(mode, s, 1) == Some((n as i32, end)));
    assert(((n as i32) as usize) as i64 == n) by (bit_vector)
        requires
            0 <= n <= 0x7fffffff,
    ;
    assert forall|j: int| 0 <= j < payload.len() implies s.subrange(
        end,
        end + payload.len() as int,
    )[j] == payload[j] by {
        assert(s[end + j] == (seq![4u8] + e + payload)[end + j]);
    }
    assert(s.subrange(end, end + payload.len() as int) =~= payload);
    lemma_chars16_payload_round_trip(s, end, t, Seq::empty());
    assert(Seq::<char>::empty() + t =~= t);
}

/// Chooses between the two integer encodings of a chunk body.
#[derive(Debug, Copy, Clone, Eq, PartialEq, Structural)]
pub enum ByteReader {
    Raw,
    CompressedInts,
}

impl ByteReader {
    pub open spec fn is_compressed(self) -> bool {
        self is CompressedInts
    }

    pub fn read_i8(&self, r: &mut ByteCursor) -> (res: Result<i8, Error>)
        ensures
            final(r).bytes() == old(r).bytes(),
            old(r).can_read(1) ==> (res matches Ok(b) && b as u8 == old(r).bytes()[old(
                r,
            ).position()] && final(r).position() == old(r).position() + 1),
            !old(r).can_read(1) ==> (res matches Err(Error::IoError(IoErrorKind::UnexpectedEof))
                && final(r).position() == old(r).position()),
    {
        match r.read_byte() {
            Ok(b) => {
                let v = #[verifier::truncate] (b as i8);
                proof {
                    assert((b as i8) as u8 == b) by (bit_vector);
                }
                Ok(v)
            },
            Err(e) => Err(e),
        }
    }

    /// Decodes one compressed integer.
    pub fn read_var_i64(&self, r: &mut ByteCursor) -> (res: Result<i64, Error>)
        ensures
            final(r).bytes() == old(r).bytes(),
            match var_parse(old(r).bytes(), old(r).position()) {
                Some(v) => res matches Ok(x) && x == v.0 && final(r).position() == v.1,
                None => res matches Err(Error::IoError(IoErrorKind::UnexpectedEof)),
            },
    {
        let ghost s = r.bytes();
        let ghost start = r.position();
        let mut ret: u64 = 0;
        let mut i: usize = 0;
        proof {
            assert(0u64 < (1u64 << ((7 * 0) as u64))) by (bit_vector);
        }
        while i < 8
            invariant
                s == old(r).bytes(),
                start == old(r).position(),
                r.bytes() == s,
                i <= 8,
                r.position() == start + i,
                0 <= start,
                ret < (1u64 << ((7 * (i as u64)) as u64)),
                var_parse(s, start) == var_parse_rec(s, r.position(), i as int, ret),
            decreases 8 - i,
        {
            let ghost p0 = r.position();
            let ghost ret0 = ret;
            let b = match r.read_byte() {
                Ok(b) => b,
                Err(e) => {
                    proof {
                        assert(var_parse_rec(s, p0, i as int, ret) is None);
                    }
                    return Err(e);
                },
            };
            let shift: u64 = (7 * i) as u64;
            let group: u64 = ((b & 0x7f) as u64) << shift;
            ret = ret | group;
            proof {
                let iu = i as u64;
                assert(iu < 8 && ret0 < (1u64 << ((7 * iu) as u64)) ==> (ret0 | (((b
                    & 0x7f) as u64) << ((7 * iu) as u64))) < (1u64 << ((7 * (iu + 1)) as u64)))
                    by (bit_vector);
                assert((7 * ((i + 1) as u64)) as u64 == (7 * (i as u64) + 7) as u64);
            }
            if b < 0x80 {
                proof {
                    assert(var_parse_rec(s, p0, i as int, ret0) == Some(
                        (ret as i64, p0 + 1),
                    ));
                }
                return Ok(#[verifier::truncate] (ret as i64));
            }
            i = i + 1;
        }
        let ghost p0 = r.position();
        let b = match r.read_byte() {
            Ok(b) => b,
            Err(e) => {
                proof {
                    assert(var_parse_rec(s, p0, 8, ret) is None);
                }
                return Err(e);
            },
        };
        let hi: u64 = (b as u64) << 56u64;
        proof {
            assert(var_parse_rec(s, p0, 8, ret) == Some(((ret | ((s[p0] as u64) << 56)) as i64, p0 + 1)));
        }
        Ok(#[verifier::truncate] ((ret | hi) as i64))
    }

    pub fn read_i64(&self, r: &mut ByteCursor) -> (res: Result<i64, Error>)
        ensures
            final(r).bytes() == old(r).bytes(),
            match i64_parse(*self, old(r).bytes(), old(r).position()) {
                Some(v) => res matches Ok(x) && x == v.0 && final(r).position() == v.1,
                None => res matches Err(Error::IoError(IoErrorKind::UnexpectedEof)),
            },
    {
        match self {
            ByteReader::CompressedInts => self.read_var_i64(r),
            ByteReader::Raw => {
                let ghost s = r.bytes();
                let ghost p = r.position();
                let b0 = match r.read_byte() {
                    Ok(b) => b,
                    Err(e) => return Err(e),
                };
                let b1 = match r.read_byte() {
                    Ok(b) => b,
                    Err(e) => return Err(e),
                };
                let b2 = match r.read_byte() {
                    Ok(b) => b,
                    Err(e) => return Err(e),
                };
                let b3 = match r.read_byte() {
                    Ok(b) => b,
                    Err(e) => return Err(e),
                };
                let b4 = match r.read_byte() {
                    Ok(b) => b,
                    Err(e) => return Err(e),
                };
                let b5 = match r.read_byte() {
                    Ok(b) => b,
                    Err(e) => return Err(e),
                };
                let b6 = match r.read_byte() {
                    Ok(b) => b,
                    Err(e) => return Err(e),
                };
                let b7 = match r.read_byte() {
                    Ok(b) => b,
                    Err(e) => return Err(e),
                };
                let v: u64 = ((b0 as u64) << 56) | ((b1 as u64) << 48) | ((b2 as u64) << 40) | ((
                b3 as u64) << 32) | ((b4 as u64) << 24) | ((b5 as u64) << 16) | ((b6 as u64) << 8)
                    | (b7 as u64);
                proof {
                    assert(v == be_u64_at(s, p));
                }
                Ok(#[verifier::truncate] (v as i64))
            },
        }
    }

    pub fn read_i32(&self, r: &mut ByteCursor) -> (res: Result<i32, Error>)
        ensures
            final(r).bytes() == old(r).bytes(),
            match i32_parse(*self, old(r).bytes(), old(r).position()) {
                Some(v) => res matches Ok(x) && x == v.0 && final(r).position() == v.1,
                None => res matches Err(Error::IoError(IoErrorKind::UnexpectedEof)),
            },
    {
        match self {
            ByteReader::CompressedInts => {
                match self.read_var_i64(r) {
                    Ok(v) => Ok(#[verifier::truncate] (v as i32)),
                    Err(e) => Err(e),
                }
            },
            ByteReader::Raw => {
                let ghost s = r.bytes();
                let ghost p = r.position();
                let b0 = match r.read_byte() {
                    Ok(b) => b,
                    Err(e) => return Err(e),
                };
                let b1 = match r.read_byte() {
                    Ok(b) => b,
                    Err(e) => return Err(e),
                };
                let b2 = match r.read_byte() {
                    Ok(b) => b,
                    Err(e) => return Err(e),
                };
                let b3 = match r.read_byte() {
                    Ok(b) => b,
                    Err(e) => return Err(e),
                };
                let v: u32 = ((b0 as u32) << 24) | ((b1 as u32) << 16) | ((b2 as u32) << 8) | (
                b3 as u32);
                proof {
                    assert(v == be_u32_at(s, p));
                }
                Ok(#[verifier::truncate] (v as i32))
            },
        }
    }

    pub fn read_i16(&self, r: &mut ByteCursor) -> (res: Result<i16, Error>)
        ensures
            final(r).bytes() == old(r).bytes(),
            match i16_parse(*self, old(r).bytes(), old(r).position()) {
                Some(v) => res matches Ok(x) && x == v.0 && final(r).position() == v.1,
                None => res matches Err(Error::IoError(IoErrorKind::UnexpectedEof)),
            },
    {
        match self {
            ByteReader::CompressedInts => {
                match self.read_var_i64(r) {
                    Ok(v) => Ok(#[verifier::truncate] (v as i16)),
                    Err(e) => Err(e),
                }
            },
            ByteReader::Raw => {
                let ghost s = r.bytes();
                let ghost p = r.position();
                let b0 = match r.read_byte() {
                    Ok(b) => b,
                    Err(e) => return Err(e),
                };
                let b1 = match r.read_byte() {
                    Ok(b) => b,
                    Err(e) => return Err(e),
                };
                let v: u16 = ((b0 as u16) << 8) | (b1 as u16);
                proof {
                    assert(v == be_u16_at(s, p));
                }
                Ok(#[verifier::truncate] (v as i16))
            },
        }
    }

    /// Decodes one string under the six-way tag scheme.
    pub fn read_string(&self, r: &mut ByteCursor) -> (res: Result<StringType, Error>)
        ensures
            final(r).bytes() == old(r).bytes(),
            match string_parse(*self, old(r).bytes(), old(r).position()) {
                StringParse::Val(v, e) => res matches Ok(st) && st@ == v && final(r).position()
                    == e,
                StringParse::Eof => res matches Err(Error::IoError(IoErrorKind::UnexpectedEof)),
                StringParse::Bad => res matches Err(Error::InvalidString),
            },
    {
        let ghost s = r.bytes();
        let ghost start = r.position();
        let tag = match r.read_byte() {
            Ok(b) => b,
            Err(e) => return Err(e),
        };
        if tag == 0 {
            return Ok(StringType::Null);
        }
        if tag == 1 {
            return Ok(StringType::Empty);
        }
        if tag == 2 {
            return match self.read_i64(r) {
                Ok(v) => Ok(StringType::ConstantPool(v)),
                Err(e) => Err(e),
            };
        }
        if tag == 4 {
            let cnt_i = match self.read_i32(r) {
                Ok(v) => v,
                Err(e) => return Err(e),
            };
            let cnt = #[verifier::truncate] (cnt_i as usize);
            let ghost cnt0 = cnt as int;
            let mut out = String::new();
            let mut k: usize = 0;
            while k < cnt
                invariant
                    s == old(r).bytes(),
                    start == old(r).position(),
                    r.bytes() == s,
                    k <= cnt,
                    string_parse(*self, s, start) == chars16_parse(
                        *self,
                        s,
                        r.position(),
                        cnt - k,
                        out@,
                    ),
                decreases cnt - k,
            {
                let ghost p0 = r.position();
                let ghost out0 = out@;
                let cu = match self.read_i16(r) {
                    Ok(v) => v,
                    Err(e) => {
                        proof {
                            assert(chars16_parse(*self, s, p0, cnt - k, out0) is Eof);
                        }
                        return Err(e);
                    },
                };
                let c16 = #[verifier::truncate] (cu as u16);
                if 0xD800 <= c16 && c16 <= 0xDFFF {
                    proof {
                        assert(chars16_parse(*self, s, p0, cnt - k, out0) is Bad);
                    }
                    return Err(Error::InvalidString);
                }
                match char_from_u32(c16 as u32) {
                    Some(ch) => {
                        string_push(&mut out, ch);
                        proof {
                            assert(ch == c16 as char);
                            assert(chars16_parse(*self, s, p0, cnt - k, out0) == chars16_parse(
                                *self,
                                s,
                                r.position(),
                                cnt - (k + 1),
                                out@,
                            ));
                        }
                    },
                    None => {
                        proof {
                            assert(false);
                        }
                        return Err(Error::InvalidString);
                    },
                }
                k = k + 1;
            }
            proof {
                assert(chars16_parse(*self, s, r.position(), 0, out@) == StringParse::Val(
                    StringVal::Text(out@),
                    r.position(),
                ));
            }
            return Ok(StringType::Raw(out));
        }
        if tag == 3 || tag == 5 {
            let cnt_i = match self.read_i32(r) {
                Ok(v) => v,
                Err(e) => return Err(e),
            };
            let cnt = #[verifier::truncate] (cnt_i as usize);
            let ghost body_start = r.position();
            let bytes = match r.read_bytes(cnt) {
                Ok(v) => v,
                Err(e) => return Err(e),
            };
            if tag == 5 {
                let ghost bs = bytes@;
                let mut out = String::new();
                let mut k: usize = 0;
                while k < bytes.len()
                    invariant
                        bytes@ == bs,
                        k <= bs.len(),
                        out@ == bs.subrange(0, k as int).map_values(|b: u8| (b as u32) as char),
                    decreases bytes@.len() - k,
                {
                    let b = bytes[k];
                    match char_from_u32(b as u32) {
                        Some(ch) => {
                            string_push(&mut out, ch);
                            proof {
                                assert(bs.subrange(0, k + 1).map_values(
                                    |b: u8| (b as u32) as char,
                                ) =~= bs.subrange(0, k as int).map_values(
                                    |b: u8| (b as u32) as char,
                                ).push((b as u32) as char));
                            }
                        },
                        None => {
                            proof {
                                assert(false);
                            }
                            return Err(Error::InvalidString);
                        },
                    }
                    k = k + 1;
                }
                proof {
                    assert(bs.subrange(0, bs.len() as int) =~= bs);
                }
                return Ok(StringType::Raw(out));
            }
            return match utf8_from_bytes(bytes) {
                Some(text) => Ok(StringType::Raw(text)),
                None => Err(Error::InvalidString),
            };
        }
        Err(Error::InvalidString)
    }
}

} // verus!
