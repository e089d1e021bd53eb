//! The decoded value tree.
//!
//! Values are decoded against the chunk's schema: a class whose name is
//! one of the built-in primitive names yields a [`Primitive`]; any other
//! class yields an [`Object`] with one decoded value per declared field,
//! in declaration order.  Fields marked as pooled are left as unresolved
//! [`ValueDescriptor::ConstantPool`] references.

use vstd::prelude::*;

use crate::reader::byte_reader::{ByteReader, StringParse, StringVal, be_u32_at, be_u64_at, i16_parse, i32_parse, i64_parse, string_parse};
use crate::reader::byte_stream::{ByteStream, StringType};
use crate::reader::metadata::Metadata;
use crate::reader::type_descriptor::{FieldDescriptor, TypeDescriptor};
use crate::reader::{Chunk, Error, IoErrorKind};

verus! {

/// How deep a value tree may nest.  The schema graph can be cyclic, so
/// the decoder bounds its recursion and rejects deeper trees as
/// malformed rather than running without bound.
pub const VALUE_DECODE_DEPTH_LIMIT: u32 = 64;

/// One decoded value.
#[derive(Debug)]
pub enum ValueDescriptor {
    Primitive(Primitive),
    Object(Object),
    Array(Vec<ValueDescriptor>),
    /// An unresolved reference into the chunk's constant pool.
    ConstantPool { class_id: i64, constant_index: i64 },
}

/// A decoded composite value: one entry per declared field, in order.
#[derive(Debug)]
pub struct Object {
    pub class_id: i64,
    pub fields: Vec<ValueDescriptor>,
}

/// A decoded primitive value.  Floats are carried as their IEEE-754
/// bits: the verifier has no model of float arithmetic, and the reader
/// never computes with them.
#[derive(Debug)]
pub enum Primitive {
    Integer(i32),
    Long(i64),
    Float(u32),
    Double(u64),
    Character(char),
    Boolean(bool),
    Short(i16),
    Byte(i8),
    NullString,
    String(String),
}

/// Every object node of the tree matches its schema: its class is
/// declared and it holds exactly one value per declared field.
pub open spec fn value_wf(v: ValueDescriptor, types: Map<i64, TypeDescriptor>) -> bool
    decreases v,
{
    match v {
        ValueDescriptor::Primitive(_) => true,
        ValueDescriptor::Object(o) => types.contains_key(o.class_id) && o.fields@.len()
            == types[o.class_id].fields@.len() && (forall|i: int|
            0 <= i < o.fields@.len() ==> value_wf(#[trigger] o.fields@[i], types)),
        ValueDescriptor::Array(a) => forall|i: int|
            0 <= i < a@.len() ==> value_wf(#[trigger] a@[i], types),
        ValueDescriptor::ConstantPool { .. } => true,
    }
}

/// The names that decode as primitives rather than as objects.
pub open spec fn is_primitive_name(n: Seq<char>) -> bool {
    n == "int"@ || n == "long"@ || n == "float"@ || n == "double"@ || n == "char"@ || n
        == "boolean"@ || n == "short"@ || n == "byte"@ || n == "java.lang.String"@
}

/// Outcome of scanning a value in the chunk bytes: where it ends, or
/// which failure stops the decoder first.
pub enum VScan {
    /// The bytes ran out: `Error::IoError(UnexpectedEof)`.
    Eof,
    /// A string payload was invalid: `Error::InvalidString`.
    Bad,
    /// A code unit that is no character: `Error::InvalidChar`.
    BadChar(u32),
    /// A class id with no descriptor: `Error::ClassNotFound`.
    Unknown(i64),
    /// The nesting budget ran out: `Error::InvalidFormat`.
    Deep,
    /// The value is well-formed and ends here.
    Done(int),
}

/// Where the primitive value of class `td` starting at `pos` ends, or
/// how it fails.
pub open spec fn primitive_scan(mode: ByteReader, s: Seq<u8>, pos: int, td: TypeDescriptor) -> VScan {
    let n = td.name@;
    if n == "int"@ {
        match i32_parse(mode, s, pos) {
            None => VScan::Eof,
            Some(v) => VScan::Done(v.1),
        }
    } else if n == "long"@ {
        match i64_parse(mode, s, pos) {
            None => VScan::Eof,
            Some(v) => VScan::Done(v.1),
        }
    } else if n == "float"@ {
        if 0 <= pos && pos + 4 <= s.len() {
            VScan::Done(pos + 4)
        } else {
            VScan::Eof
        }
    } else if n == "double"@ {
        if 0 <= pos && pos + 8 <= s.len() {
            VScan::Done(pos + 8)
        } else {
            VScan::Eof
        }
    } else if n == "char"@ {
        match i16_parse(mode, s, pos) {
            None => VScan::Eof,
            Some(v) => if 0xD800 <= (v.0 as u16) <= 0xDFFF {
                VScan::BadChar((v.0 as u16) as u32)
            } else {
                VScan::Done(v.1)
            },
        }
    } else if n == "boolean"@ || n == "byte"@ {
        if 0 <= pos && pos + 1 <= s.len() {
            VScan::Done(pos + 1)
        } else {
            VScan::Eof
        }
    } else if n == "short"@ {
        match i16_parse(mode, s, pos) {
            None => VScan::Eof,
            Some(v) => VScan::Done(v.1),
        }
    } else {
        // java.lang.String is the only remaining primitive name
        match string_parse(mode, s, pos) {
            StringParse::Eof => VScan::Eof,
            StringParse::Bad => VScan::Bad,
            StringParse::Val(_, e) => VScan::Done(e),
        }
    }
}

/// The primitive value of class `td` that the bytes from `pos` to `end`
/// hold.
pub open spec fn primitive_parses_to(
    mode: ByteReader,
    s: Seq<u8>,
    pos: int,
    td: TypeDescriptor,
    v: ValueDescriptor,
    end: int,
) -> bool {
    let n = td.name@;
    if n == "int"@ {
        match i32_parse(mode, s, pos) {
            None => false,
            Some(p) => v == ValueDescriptor::Primitive(Primitive::Integer(p.0)) && end == p.1,
        }
    } else if n == "long"@ {
        match i64_parse(mode, s, pos) {
            None => false,
            Some(p) => v == ValueDescriptor::Primitive(Primitive::Long(p.0)) && end == p.1,
        }
    } else if n == "float"@ {
        0 <= pos && pos + 4 <= s.len() && v == ValueDescriptor::Primitive(
            Primitive::Float(be_u32_at(s, pos)),
        ) && end == pos + 4
    } else if n == "double"@ {
        0 <= pos && pos + 8 <= s.len() && v == ValueDescriptor::Primitive(
            Primitive::Double(be_u64_at(s, pos)),
        ) && end == pos + 8
    } else if n == "char"@ {
        match i16_parse(mode, s, pos) {
            None => false,
            Some(p) => !(0xD800 <= (p.0 as u16) <= 0xDFFF) && v == ValueDescriptor::Primitive(
                Primitive::Character((p.0 as u16) as char),
            ) && end == p.1,
        }
    } else if n == "boolean"@ {
        0 <= pos && pos + 1 <= s.len() && v == ValueDescriptor::Primitive(
            Primitive::Boolean(s[pos] != 0),
        ) && end == pos + 1
    } else if n == "byte"@ {
        0 <= pos && pos + 1 <= s.len() && (v matches ValueDescriptor::Primitive(Primitive::Byte(b))
            && b as u8 == s[pos]) && end == pos + 1
    } else if n == "short"@ {
        match i16_parse(mode, s, pos) {
            None => false,
            Some(p) => v == ValueDescriptor::Primitive(Primitive::Short(p.0)) && end == p.1,
        }
    } else {
        // java.lang.String is the only remaining primitive name
        match string_parse(mode, s, pos) {
            StringParse::Val(sv, e) => end == e && (match sv {
                StringVal::Null => v == ValueDescriptor::Primitive(Primitive::NullString),
                StringVal::Empty => v matches ValueDescriptor::Primitive(Primitive::String(t))
                    && t@ =~= Seq::<char>::empty(),
                StringVal::Text(txt) => v matches ValueDescriptor::Primitive(Primitive::String(t))
                    && t@ == txt,
                StringVal::Pool(idx) => v == (ValueDescriptor::ConstantPool {
                    class_id: td.class_id,
                    constant_index: idx,
                }),
            }),
            _ => false,
        }
    }
}

/// Where the value of class `class_id` starting at `pos` ends under the
/// schema `types` with `depth` nesting budget left, or how decoding it
/// fails first.
pub open spec fn value_scan(
    mode: ByteReader,
    s: Seq<u8>,
    pos: int,
    types: Map<i64, TypeDescriptor>,
    class_id: i64,
    depth: int,
) -> VScan
    decreases depth, 4int, 0int,
    when depth >= 0
{
    if !types.contains_key(class_id) {
        VScan::Unknown(class_id)
    } else {
        let td = types[class_id];
        if is_primitive_name(td.name@) {
            primitive_scan(mode, s, pos, td)
        } else if depth <= 0 {
            VScan::Deep
        } else {
            fields_scan(mode, s, pos, types, td.fields@, 0, depth)
        }
    }
}

/// Scan of the declared fields from index `i` on.
pub open spec fn fields_scan(
    mode: ByteReader,
    s: Seq<u8>,
    pos: int,
    types: Map<i64, TypeDescriptor>,
    flds: Seq<FieldDescriptor>,
    i: int,
    depth: int,
) -> VScan
    decreases depth, 3int, flds.len() - i,
    when depth >= 1 && 0 <= i <= flds.len()
{
    if i >= flds.len() {
        VScan::Done(pos)
    } else {
        match field_one_scan(mode, s, pos, types, flds[i], depth) {
            VScan::Done(mid) => fields_scan(mode, s, mid, types, flds, i + 1, depth),
            e => e,
        }
    }
}

/// Scan of one declared field: a count and that many elements for an
/// array field, one scalar otherwise.
pub open spec fn field_one_scan(
    mode: ByteReader,
    s: Seq<u8>,
    pos: int,
    types: Map<i64, TypeDescriptor>,
    fd: FieldDescriptor,
    depth: int,
) -> VScan
    decreases depth, 2int, 0int,
    when depth >= 1
{
    if fd.array_type {
        match i32_parse(mode, s, pos) {
            None => VScan::Eof,
            Some(c) => elems_scan(mode, s, c.1, types, fd, (c.0 as usize) as int, depth),
        }
    } else {
        single_scan(mode, s, pos, types, fd, depth)
    }
}

/// Scan of `cnt` array elements of one field.
pub open spec fn elems_scan(
    mode: ByteReader,
    s: Seq<u8>,
    pos: int,
    types: Map<i64, TypeDescriptor>,
    fd: FieldDescriptor,
    cnt: int,
    depth: int,
) -> VScan
    decreases depth, 1int, cnt,
    when depth >= 1
{
    if cnt <= 0 {
        VScan::Done(pos)
    } else {
        match single_scan(mode, s, pos, types, fd, depth) {
            VScan::Done(mid) => elems_scan(mode, s, mid, types, fd, cnt - 1, depth),
            e => e,
        }
    }
}

/// Scan of one scalar field value: a pool index for a pooled field, a
/// recursive value otherwise.
pub open spec fn single_scan(
    mode: ByteReader,
    s: Seq<u8>,
    pos: int,
    types: Map<i64, TypeDescriptor>,
    fd: FieldDescriptor,
    depth: int,
) -> VScan
    decreases depth, 0int, 0int,
    when depth >= 1
{
    if fd.constant_pool {
        match i64_parse(mode, s, pos) {
            None => VScan::Eof,
            Some(p) => VScan::Done(p.1),
        }
    } else {
        value_scan(mode, s, pos, types, fd.class_id, depth - 1)
    }
}

/// The value of class `class_id` that the bytes from `pos` to `end`
/// hold under the schema `types`.
pub open spec fn value_parses_to(
    mode: ByteReader,
    s: Seq<u8>,
    pos: int,
    types: Map<i64, TypeDescriptor>,
    class_id: i64,
    depth: int,
    v: ValueDescriptor,
    end: int,
) -> bool
    decreases depth, 4int, 0int,
    when depth >= 0
{
    if !types.contains_key(class_id) {
        false
    } else {
        let td = types[class_id];
        if is_primitive_name(td.name@) {
            primitive_parses_to(mode, s, pos, td, v, end)
        } else if depth <= 0 {
            false
        } else {
            v matches ValueDescriptor::Object(o) && o.class_id == class_id && o.fields@.len()
                == td.fields@.len() && fields_parse_to(
                mode,
                s,
                pos,
                types,
                td.fields@,
                0,
                o.fields@,
                depth,
                end,
            )
        }
    }
}

/// The declared fields from index `i` on parse to `vals[i..]`, ending
/// at `end`.
pub open spec fn fields_parse_to(
    mode: ByteReader,
    s: Seq<u8>,
    pos: int,
    types: Map<i64, TypeDescriptor>,
    flds: Seq<FieldDescriptor>,
    i: int,
    vals: Seq<ValueDescriptor>,
    depth: int,
    end: int,
) -> bool
    decreases depth, 3int, flds.len() - i,
    when depth >= 1 && 0 <= i <= flds.len()
{
    if i >= flds.len() {
        end == pos
    } else {
        match field_one_scan(mode, s, pos, types, flds[i], depth) {
            VScan::Done(mid) => 0 <= i < vals.len() && field_step(
                mode,
                s,
                pos,
                types,
                flds[i],
                vals[i],
                mid,
                depth,
            ) && fields_parse_to(mode, s, mid, types, flds, i + 1, vals, depth, end),
            _ => false,
        }
    }
}

/// One declared field parses to `val`, ending at `end`.
pub open spec fn field_step(
    mode: ByteReader,
    s: Seq<u8>,
    pos: int,
    types: Map<i64, TypeDescriptor>,
    fd: FieldDescriptor,
    val: ValueDescriptor,
    end: int,
    depth: int,
) -> bool
    decreases depth, 2int, 0int,
    when depth >= 1
{
    &&& field_one_scan(mode, s, pos, types, fd, depth) == VScan::Done(end)
    &&& if fd.array_type {
        match i32_parse(mode, s, pos) {
            None => false,
            Some(c) => val matches ValueDescriptor::Array(a) && a@.len() == (c.0 as usize) as int
                && elems_parse_to(mode, s, c.1, types, fd, (c.0 as usize) as int, a@, depth, end),
        }
    } else {
        single_parses_to(mode, s, pos, types, fd, depth, val, end)
    }
}

/// The last `cnt` elements of the array parse from `pos` to `end`.
pub open spec fn elems_parse_to(
    mode: ByteReader,
    s: Seq<u8>,
    pos: int,
    types: Map<i64, TypeDescriptor>,
    fd: FieldDescriptor,
    cnt: int,
    elems: Seq<ValueDescriptor>,
    depth: int,
    end: int,
) -> bool
    decreases depth, 1int, cnt,
    when depth >= 1
{
    if cnt <= 0 {
        end == pos
    } else {
        match single_scan(mode, s, pos, types, fd, depth) {
            VScan::Done(mid) => {
                let idx = elems.len() - cnt;
                0 <= idx < elems.len() && single_parses_to(
                    mode,
                    s,
                    pos,
                    types,
                    fd,
                    depth,
                    elems[idx],
                    mid,
                ) && elems_parse_to(mode, s, mid, types, fd, cnt - 1, elems, depth, end)
            },
            _ => false,
        }
    }
}

/// One scalar field value parses to `v`, ending at `end`.
pub open spec fn single_parses_to(
    mode: ByteReader,
    s: Seq<u8>,
    pos: int,
    types: Map<i64, TypeDescriptor>,
    fd: FieldDescriptor,
    depth: int,
    v: ValueDescriptor,
    end: int,
) -> bool
    decreases depth, 0int, 0int,
    when depth >= 1
{
    if fd.constant_pool {
        match i64_parse(mode, s, pos) {
            None => false,
            Some(p) => v == (ValueDescriptor::ConstantPool {
                class_id: fd.class_id,
                constant_index: p.0,
            }) && end == p.1,
        }
    } else {
        value_parses_to(mode, s, pos, types, fd.class_id, depth - 1, v, end)
    }
}

/// Chains per-field steps at recorded positions into the whole-fields
/// relation.
proof fn lemma_fields_compose(
    mode: ByteReader,
    s: Seq<u8>,
    types: Map<i64, TypeDescriptor>,
    flds: Seq<FieldDescriptor>,
    vals: Seq<ValueDescriptor>,
    depth: int,
    ps: Seq<int>,
    j: int,
)
    requires
        depth >= 1,
        0 <= j <= flds.len(),
        ps.len() == flds.len() + 1,
        vals.len() == flds.len(),
        forall|k: int|
            j <= k < flds.len() ==> field_step(
                mode,
                s,
                #[trigger] ps[k],
                types,
                flds[k],
                vals[k],
                ps[k + 1],
                depth,
            ),
    ensures
        fields_parse_to(mode, s, ps[j], types, flds, j, vals, depth, ps[flds.len() as int]),
    decreases flds.len() - j,
{
    if j < flds.len() {
        lemma_fields_compose(mode, s, types, flds, vals, depth, ps, j + 1);
        assert(field_step(mode, s, ps[j], types, flds[j], vals[j], ps[j + 1], depth));
    }
}

/// Chains per-element steps at recorded positions into the whole-array
/// relation.
proof fn lemma_elems_compose(
    mode: ByteReader,
    s: Seq<u8>,
    types: Map<i64, TypeDescriptor>,
    fd: FieldDescriptor,
    elems: Seq<ValueDescriptor>,
    depth: int,
    ps: Seq<int>,
    j: int,
)
    requires
        depth >= 1,
        0 <= j <= elems.len(),
        ps.len() == elems.len() + 1,
        forall|k: int|
            j <= k < elems.len() ==> single_scan(mode, s, #[trigger] ps[k], types, fd, depth)
                == VScan::Done(ps[k + 1]) && single_parses_to(
                mode,
                s,
                ps[k],
                types,
                fd,
                depth,
                elems[k],
                ps[k + 1],
            ),
    ensures
        elems_parse_to(
            mode,
            s,
            ps[j],
            types,
            fd,
            elems.len() - j,
            elems,
            depth,
            ps[elems.len() as int],
        ),
    decreases elems.len() - j,
{
    if j < elems.len() {
        lemma_elems_compose(mode, s, types, fd, elems, depth, ps, j + 1);
        assert(single_scan(mode, s, ps[j], types, fd, depth) == VScan::Done(ps[j + 1])
            && single_parses_to(mode, s, ps[j], types, fd, depth, elems[j], ps[j + 1]));
    }
}

/// Full contract of the value decoder: each scan outcome pins the
/// result, the decoded value, and the final position.
pub open spec fn decode_post(
    mode: ByteReader,
    s: Seq<u8>,
    pos: int,
    types: Map<i64, TypeDescriptor>,
    class_id: i64,
    depth: int,
    res: Result<ValueDescriptor, Error>,
    end_pos: int,
) -> bool {
    match value_scan(mode, s, pos, types, class_id, depth) {
        VScan::Done(end) => res matches Ok(v) && value_parses_to(
            mode,
            s,
            pos,
            types,
            class_id,
            depth,
            v,
            end,
        ) && end_pos == end,
        VScan::Eof => res matches Err(e) && e == Error::IoError(IoErrorKind::UnexpectedEof),
        VScan::Bad => res matches Err(e) && e == Error::InvalidString,
        VScan::BadChar(c) => res matches Err(e) && e == Error::InvalidChar(c),
        VScan::Unknown(id) => res matches Err(e) && e == Error::ClassNotFound(id),
        VScan::Deep => res matches Err(e) && e == Error::InvalidFormat,
    }
}

/// Full contract of the scalar field decoder.
pub open spec fn single_post(
    mode: ByteReader,
    s: Seq<u8>,
    pos: int,
    types: Map<i64, TypeDescriptor>,
    fd: FieldDescriptor,
    depth: int,
    res: Result<ValueDescriptor, Error>,
    end_pos: int,
) -> bool {
    match single_scan(mode, s, pos, types, fd, depth) {
        VScan::Done(end) => res matches Ok(v) && single_parses_to(
            mode,
            s,
            pos,
            types,
            fd,
            depth,
            v,
            end,
        ) && end_pos == end,
        VScan::Eof => res matches Err(e) && e == Error::IoError(IoErrorKind::UnexpectedEof),
        VScan::Bad => res matches Err(e) && e == Error::InvalidString,
        VScan::BadChar(c) => res matches Err(e) && e == Error::InvalidChar(c),
        VScan::Unknown(id) => res matches Err(e) && e == Error::ClassNotFound(id),
        VScan::Deep => res matches Err(e) && e == Error::InvalidFormat,
    }
}

/// Index of the first field named `name`, searching from `i`.
pub open spec fn field_index_from(fields: Seq<FieldDescriptor>, name: Seq<char>, i: int) -> Option<
    int,
>
    decreases fields.len() - i,
    when 0 <= i <= fields.len()
{
    if i >= fields.len() {
        None
    } else if fields[i].name@ == name {
        Some(i)
    } else {
        field_index_from(fields, name, i + 1)
    }
}

/// The first-match characterisation pins the search down.
proof fn lemma_field_index_some(fields: Seq<FieldDescriptor>, name: Seq<char>, idx: int, i: int)
    requires
        0 <= i <= idx < fields.len(),
        fields[idx].name@ == name,
        forall|j: int| 0 <= j < idx ==> fields[j].name@ != name,
    ensures
        field_index_from(fields, name, i) == Some(idx),
    decreases idx - i,
{
    if i < idx {
        lemma_field_index_some(fields, name, idx, i + 1);
    }
}

/// A name no field carries is never found.
proof fn lemma_field_index_none(fields: Seq<FieldDescriptor>, name: Seq<char>, i: int)
    requires
        0 <= i <= fields.len(),
        forall|j: int| 0 <= j < fields.len() ==> fields[j].name@ != name,
    ensures
        field_index_from(fields, name, i) is None,
    decreases fields.len() - i,
{
    if i < fields.len() {
        lemma_field_index_none(fields, name, i + 1);
    }
}

/// The named field of an object, after one level of constant-pool
/// resolution of the field's value.
pub open spec fn object_field_lookup(
    o: Object,
    name: Seq<char>,
    types: Map<i64, TypeDescriptor>,
    cpool: Map<i64, Map<i64, ValueDescriptor>>,
) -> Option<ValueDescriptor> {
    if !types.contains_key(o.class_id) {
        None
    } else {
        match field_index_from(types[o.class_id].fields@, name, 0) {
            None => None,
            Some(i) => if i >= o.fields@.len() {
                None
            } else {
                match o.fields@[i] {
                    ValueDescriptor::ConstantPool { class_id, constant_index } => if cpool.contains_key(
                        class_id,
                    ) && cpool[class_id].contains_key(constant_index) {
                        Some(cpool[class_id][constant_index])
                    } else {
                        None
                    },
                    v => Some(v),
                }
            },
        }
    }
}

/// The named field of a value: objects are searched directly, a
/// reference is resolved to an object first, anything else has no
/// fields.
pub open spec fn value_field_lookup(
    v: ValueDescriptor,
    name: Seq<char>,
    types: Map<i64, TypeDescriptor>,
    cpool: Map<i64, Map<i64, ValueDescriptor>>,
) -> Option<ValueDescriptor> {
    match v {
        ValueDescriptor::Object(o) => object_field_lookup(o, name, types, cpool),
        ValueDescriptor::ConstantPool { class_id, constant_index } => if cpool.contains_key(
            class_id,
        ) && cpool[class_id].contains_key(constant_index) {
            match cpool[class_id][constant_index] {
                ValueDescriptor::Object(o) => object_field_lookup(o, name, types, cpool),
                _ => None,
            }
        } else {
            None
        },
        _ => None,
    }
}

impl ValueDescriptor {
    /// Decodes one value of the class `class_id` from the stream.  The
    /// result is pinned to the bytes: it is the spec-level decode at the
    /// current position, and each failure is the first one the scan of
    /// those bytes meets.
    pub fn try_new(stream: &mut ByteStream, class_id: i64, metadata: &Metadata) -> (res: Result<
        ValueDescriptor,
        Error,
    >)
        ensures
            final(stream).bytes() == old(stream).bytes(),
            final(stream).mode() == old(stream).mode(),
            res matches Ok(v) ==> value_wf(v, metadata.type_pool@),
            !metadata.type_pool@.contains_key(class_id) ==> (res matches Err(e) && e
                == Error::ClassNotFound(class_id)) && final(stream).position() == old(
                stream,
            ).position(),
            decode_post(
                old(stream).mode(),
                old(stream).bytes(),
                old(stream).position(),
                metadata.type_pool@,
                class_id,
                VALUE_DECODE_DEPTH_LIMIT as int,
                res,
                final(stream).position(),
            ),
    {
        Self::decode(stream, class_id, metadata, VALUE_DECODE_DEPTH_LIMIT)
    }

    /// The recursive decoder behind [`Self::try_new`], with its
    /// remaining nesting budget.
    #[verifier::rlimit(100)]
    #[verifier::spinoff_prover]
    fn decode(stream: &mut ByteStream, class_id: i64, metadata: &Metadata, depth: u32) -> (res:
        Result<ValueDescriptor, Error>)
        ensures
            final(stream).bytes() == old(stream).bytes(),
            final(stream).mode() == old(stream).mode(),
            res matches Ok(v) ==> value_wf(v, metadata.type_pool@),
            !metadata.type_pool@.contains_key(class_id) ==> (res matches Err(e) && e
                == Error::ClassNotFound(class_id)) && final(stream).position() == old(
                stream,
            ).position(),
            decode_post(
                old(stream).mode(),
                old(stream).bytes(),
                old(stream).position(),
                metadata.type_pool@,
                class_id,
                depth as int,
                res,
                final(stream).position(),
            ),
        decreases depth, 1int,
    {
        let ghost mode = stream.mode();
        let ghost s = stream.bytes();
        let ghost p0 = stream.position();
        let ghost types = metadata.type_pool@;
        let ghost d = depth as int;
        let type_desc = match metadata.type_pool.get(class_id) {
            Some(td) => td,
            None => {
                proof {
                    assert(value_scan(mode, s, p0, types, class_id, d) == VScan::Unknown(class_id));
                }
                return Err(Error::ClassNotFound(class_id));
            },
        };
        match Self::try_read_primitive(stream, type_desc) {
            Ok(Some(value)) => {
                proof {
                    assert(is_primitive_name(type_desc.name@));
                    assert(value_scan(mode, s, p0, types, class_id, d) == primitive_scan(
                        mode,
                        s,
                        p0,
                        *type_desc,
                    ));
                }
                return Ok(value);
            },
            Ok(None) => {},
            Err(e) => {
                proof {
                    assert(is_primitive_name(type_desc.name@));
                    assert(value_scan(mode, s, p0, types, class_id, d) == primitive_scan(
                        mode,
                        s,
                        p0,
                        *type_desc,
                    ));
                }
                return Err(e);
            },
        }
        if depth == 0 {
            // the schema nests deeper than any well-formed recording
            proof {
                assert(value_scan(mode, s, p0, types, class_id, d) == VScan::Deep);
            }
            return Err(Error::InvalidFormat);
        }
        let mut fields: Vec<ValueDescriptor> = Vec::new();
        let mut i: usize = 0;
        let n_fields = type_desc.fields.len();
        let ghost flds = type_desc.fields@;
        let ghost body_start = stream.position();
        let ghost mut fps: Seq<int> = seq![body_start];
        while i < n_fields
            invariant
                mode == old(stream).mode(),
                s == old(stream).bytes(),
                p0 == old(stream).position(),
                types == metadata.type_pool@,
                d == depth as int,
                stream.bytes() == s,
                stream.mode() == mode,
                0 < depth,
                n_fields == flds.len(),
                flds == type_desc.fields@,
                type_desc == metadata.type_pool@[class_id],
                metadata.type_pool@.contains_key(class_id),
                !is_primitive_name(type_desc.name@),
                body_start == p0,
                i <= n_fields,
                fields@.len() == i,
                fps.len() == i + 1,
                fps[0] == body_start,
                fps[i as int] == stream.position(),
                forall|k: int| #![trigger fps[k]]
                    0 <= k < i ==> field_step(
                        mode,
                        s,
                        fps[k],
                        types,
                        flds[k],
                        fields@[k],
                        fps[k + 1],
                        d,
                    ),
                fields_scan(mode, s, body_start, types, flds, 0, d) == fields_scan(
                    mode,
                    s,
                    stream.position(),
                    types,
                    flds,
                    i as int,
                    d,
                ),
                forall|j: int| 0 <= j < i ==> value_wf(#[trigger] fields@[j], metadata.type_pool@),
            decreases n_fields - i,
        {
            let ghost pos_f = stream.position();
            let field_desc = &type_desc.fields[i];
            if field_desc.array_type {
                let count_i = match stream.read_i32() {
                    Ok(c) => c,
                    Err(e) => {
                        proof {
                            assert(field_one_scan(mode, s, pos_f, types, flds[i as int], d)
                                == VScan::Eof);
                            assert(fields_scan(mode, s, pos_f, types, flds, i as int, d)
                                == VScan::Eof);
                            assert(value_scan(mode, s, p0, types, class_id, d) == VScan::Eof);
                        }
                        return Err(e);
                    },
                };
                let count = #[verifier::truncate] (count_i as usize);
                let ghost cnt = count as int;
                let ghost arr_start = stream.position();
                proof {
                    assert(i32_parse(mode, s, pos_f) == Some((count_i, arr_start)));
                }
                let mut elems: Vec<ValueDescriptor> = Vec::new();
                let mut k: usize = 0;
                let ghost mut eps: Seq<int> = seq![arr_start];
                while k < count
                    invariant
                        mode == old(stream).mode(),
                        s == old(stream).bytes(),
                        p0 == old(stream).position(),
                        types == metadata.type_pool@,
                        d == depth as int,
                        stream.bytes() == s,
                        stream.mode() == mode,
                        0 < depth,
                        n_fields == flds.len(),
                        flds == type_desc.fields@,
                        type_desc == metadata.type_pool@[class_id],
                        metadata.type_pool@.contains_key(class_id),
                        !is_primitive_name(type_desc.name@),
                        body_start == p0,
                        i < n_fields,
                        flds[i as int] == *field_desc,
                        field_desc.array_type,
                        i32_parse(mode, s, pos_f) == Some((count_i, arr_start)),
                        cnt == (count_i as usize) as int,
                        count == count_i as usize,
                        fields_scan(mode, s, body_start, types, flds, 0, d) == fields_scan(
                            mode,
                            s,
                            pos_f,
                            types,
                            flds,
                            i as int,
                            d,
                        ),
                        k <= count,
                        elems@.len() == k,
                        eps.len() == k + 1,
                        eps[0] == arr_start,
                        eps[k as int] == stream.position(),
                        forall|k2: int| #![trigger eps[k2]]
                            0 <= k2 < k ==> single_scan(mode, s, eps[k2], types, flds[i as int], d)
                                == VScan::Done(eps[k2 + 1]) && single_parses_to(
                                mode,
                                s,
                                eps[k2],
                                types,
                                flds[i as int],
                                d,
                                elems@[k2],
                                eps[k2 + 1],
                            ),
                        elems_scan(mode, s, arr_start, types, flds[i as int], cnt, d)
                            == elems_scan(
                            mode,
                            s,
                            stream.position(),
                            types,
                            flds[i as int],
                            cnt - k,
                            d,
                        ),
                        forall|j: int|
                            0 <= j < k ==> value_wf(#[trigger] elems@[j], metadata.type_pool@),
                    decreases count - k,
                {
                    let ghost pos_e = stream.position();
                    let v = match Self::try_read_field_single(stream, field_desc, metadata, depth)
                        {
                        Ok(v) => v,
                        Err(e) => {
                            proof {
                                assert(elems_scan(mode, s, pos_e, types, flds[i as int], cnt - k, d)
                                    == single_scan(mode, s, pos_e, types, flds[i as int], d));
                                assert(field_one_scan(mode, s, pos_f, types, flds[i as int], d)
                                    == elems_scan(mode, s, arr_start, types, flds[i as int], cnt, d));
                                assert(fields_scan(mode, s, pos_f, types, flds, i as int, d)
                                    == field_one_scan(mode, s, pos_f, types, flds[i as int], d));
                                assert(value_scan(mode, s, p0, types, class_id, d) == fields_scan(
                                    mode,
                                    s,
                                    body_start,
                                    types,
                                    flds,
                                    0,
                                    d,
                                ));
                            }
                            return Err(e);
                        },
                    };
                    proof {
                        assert(single_scan(mode, s, pos_e, types, flds[i as int], d)
                            == VScan::Done(stream.position()));
                        assert(elems_scan(mode, s, pos_e, types, flds[i as int], cnt - k, d)
                            == elems_scan(
                            mode,
                            s,
                            stream.position(),
                            types,
                            flds[i as int],
                            cnt - k - 1,
                            d,
                        ));
                    }
                    elems.push(v);
                    proof {
                        eps = eps.push(stream.position());
                    }
                    k = k + 1;
                }
                proof {
                    let cur = stream.position();
                    assert(elems_scan(mode, s, cur, types, flds[i as int], 0, d) == VScan::Done(
                        cur,
                    ));
                    assert(elems_scan(mode, s, arr_start, types, flds[i as int], cnt, d)
                        == VScan::Done(cur));
                    assert(eps[elems@.len() as int] == cur);
                    lemma_elems_compose(mode, s, types, flds[i as int], elems@, d, eps, 0);
                    assert(field_one_scan(mode, s, pos_f, types, flds[i as int], d) == VScan::Done(
                        cur,
                    ));
                    assert(field_step(
                        mode,
                        s,
                        pos_f,
                        types,
                        flds[i as int],
                        ValueDescriptor::Array(elems),
                        cur,
                        d,
                    ));
                    assert(fields_scan(mode, s, pos_f, types, flds, i as int, d) == fields_scan(
                        mode,
                        s,
                        cur,
                        types,
                        flds,
                        i + 1,
                        d,
                    ));
                }
                fields.push(ValueDescriptor::Array(elems));
                proof {
                    fps = fps.push(stream.position());
                }
            } else {
                let v = match Self::try_read_field_single(stream, field_desc, metadata, depth) {
                    Ok(v) => v,
                    Err(e) => {
                        proof {
                            assert(field_one_scan(mode, s, pos_f, types, flds[i as int], d)
                                == single_scan(mode, s, pos_f, types, flds[i as int], d));
                            assert(fields_scan(mode, s, pos_f, types, flds, i as int, d)
                                == field_one_scan(mode, s, pos_f, types, flds[i as int], d));
                            assert(value_scan(mode, s, p0, types, class_id, d) == fields_scan(
                                mode,
                                s,
                                body_start,
                                types,
                                flds,
                                0,
                                d,
                            ));
                        }
                        return Err(e);
                    },
                };
                proof {
                    let cur = stream.position();
                    assert(single_scan(mode, s, pos_f, types, flds[i as int], d) == VScan::Done(
                        cur,
                    ));
                    assert(field_one_scan(mode, s, pos_f, types, flds[i as int], d) == VScan::Done(
                        cur,
                    ));
                    assert(field_step(mode, s, pos_f, types, flds[i as int], v, cur, d));
                    assert(fields_scan(mode, s, pos_f, types, flds, i as int, d) == fields_scan(
                        mode,
                        s,
                        cur,
                        types,
                        flds,
                        i + 1,
                        d,
                    ));
                }
                fields.push(v);
                proof {
                    fps = fps.push(stream.position());
                }
            }
            i = i + 1;
        }
        proof {
            let cur = stream.position();
            assert(fields_scan(mode, s, cur, types, flds, flds.len() as int, d) == VScan::Done(
                cur,
            ));
            assert(value_scan(mode, s, p0, types, class_id, d) == VScan::Done(cur));
            lemma_fields_compose(mode, s, types, flds, fields@, d, fps, 0);
            assert(fields_parse_to(mode, s, body_start, types, flds, 0, fields@, d, cur));
        }
        Ok(ValueDescriptor::Object(Object { class_id, fields }))
    }

    /// Decodes one non-array field value: the pool index read from the
    /// stream for a pooled field, a recursive value otherwise, exactly
    /// as [`single_scan`] and [`single_parses_to`] state.
    fn try_read_field_single(
        stream: &mut ByteStream,
        field_desc: &FieldDescriptor,
        metadata: &Metadata,
        depth: u32,
    ) -> (res: Result<ValueDescriptor, Error>)
        requires
            depth >= 1,
        ensures
            final(stream).bytes() == old(stream).bytes(),
            final(stream).mode() == old(stream).mode(),
            res matches Ok(v) ==> value_wf(v, metadata.type_pool@),
            single_post(
                old(stream).mode(),
                old(stream).bytes(),
                old(stream).position(),
                metadata.type_pool@,
                *field_desc,
                depth as int,
                res,
                final(stream).position(),
            ),
        decreases depth, 0int,
    {
        if field_desc.constant_pool {
            let idx = match stream.read_i64() {
                Ok(v) => v,
                Err(e) => {
                    return Err(e);
                },
            };
            Ok(ValueDescriptor::ConstantPool { class_id: field_desc.class_id, constant_index: idx })
        } else {
            Self::decode(stream, field_desc.class_id, metadata, depth - 1)
        }
    }

    /// Decodes the value of a built-in primitive class, or reports that
    /// the class is composite.  A `java.lang.String` with a
    /// constant-pool tag becomes a reference keyed by the string class.
    #[verifier::rlimit(100)]
    #[verifier::spinoff_prover]
    fn try_read_primitive(stream: &mut ByteStream, type_desc: &TypeDescriptor) -> (res: Result<
        Option<ValueDescriptor>,
        Error,
    >)
        ensures
            final(stream).bytes() == old(stream).bytes(),
            final(stream).mode() == old(stream).mode(),
            res matches Ok(r) ==> (r is None <==> !is_primitive_name(type_desc.name@)) && (
            r is None ==> final(stream).position() == old(stream).position()),
            is_primitive_name(type_desc.name@) ==> (match primitive_scan(
                old(stream).mode(),
                old(stream).bytes(),
                old(stream).position(),
                *type_desc,
            ) {
                VScan::Done(end) => res matches Ok(r) && (r matches Some(v)
                    && primitive_parses_to(
                    old(stream).mode(),
                    old(stream).bytes(),
                    old(stream).position(),
                    *type_desc,
                    v,
                    end,
                )) && final(stream).position() == end,
                VScan::Eof => res matches Err(e) && e == Error::IoError(
                    IoErrorKind::UnexpectedEof,
                ),
                VScan::Bad => res matches Err(e) && e == Error::InvalidString,
                VScan::BadChar(c) => res matches Err(e) && e == Error::InvalidChar(c),
                _ => true,
            }),
            !is_primitive_name(type_desc.name@) ==> (res matches Ok(r) && r is None),
    {
        let ghost mode0 = stream.mode();
        let ghost s0 = stream.bytes();
        let ghost pp = stream.position();
        proof {
            reveal_strlit("int");
            reveal_strlit("long");
            reveal_strlit("float");
            reveal_strlit("double");
            reveal_strlit("char");
            reveal_strlit("boolean");
            reveal_strlit("short");
            reveal_strlit("byte");
            reveal_strlit("java.lang.String");
        }
        let name = type_desc.name();
        if crate::reader::strings::str_eq(name, "int") {
            match stream.read_i32() {
                Ok(v) => {
                    proof {
                        assert(primitive_scan(mode0, s0, pp, *type_desc) == VScan::Done(
                            stream.position(),
                        ));
                        assert(primitive_parses_to(
                            mode0,
                            s0,
                            pp,
                            *type_desc,
                            ValueDescriptor::Primitive(Primitive::Integer(v)),
                            stream.position(),
                        ));
                    }
                    Ok(Some(ValueDescriptor::Primitive(Primitive::Integer(v))))
                },
                Err(e) => {
                    proof {
                        assert(primitive_scan(mode0, s0, pp, *type_desc) == VScan::Eof);
                    }
                    Err(e)
                },
            }
        } else if crate::reader::strings::str_eq(name, "long") {
            match stream.read_i64() {
                Ok(v) => {
                    proof {
                        assert(primitive_scan(mode0, s0, pp, *type_desc) == VScan::Done(
                            stream.position(),
                        ));
                        assert(primitive_parses_to(
                            mode0,
                            s0,
                            pp,
                            *type_desc,
                            ValueDescriptor::Primitive(Primitive::Long(v)),
                            stream.position(),
                        ));
                    }
                    Ok(Some(ValueDescriptor::Primitive(Primitive::Long(v))))
                },
                Err(e) => {
                    proof {
                        assert(primitive_scan(mode0, s0, pp, *type_desc) == VScan::Eof);
                    }
                    Err(e)
                },
            }
        } else if crate::reader::strings::str_eq(name, "float") {
            match stream.read_f32_bits() {
                Ok(v) => {
                    proof {
                        assert(primitive_scan(mode0, s0, pp, *type_desc) == VScan::Done(
                            stream.position(),
                        ));
                        assert(primitive_parses_to(
                            mode0,
                            s0,
                            pp,
                            *type_desc,
                            ValueDescriptor::Primitive(Primitive::Float(v)),
                            stream.position(),
                        ));
                    }
                    Ok(Some(ValueDescriptor::Primitive(Primitive::Float(v))))
                },
                Err(e) => {
                    proof {
                        assert(primitive_scan(mode0, s0, pp, *type_desc) == VScan::Eof);
                    }
                    Err(e)
                },
            }
        } else if crate::reader::strings::str_eq(name, "double") {
            match stream.read_f64_bits() {
                Ok(v) => {
                    proof {
                        assert(primitive_scan(mode0, s0, pp, *type_desc) == VScan::Done(
                            stream.position(),
                        ));
                        assert(primitive_parses_to(
                            mode0,
                            s0,
                            pp,
                            *type_desc,
                            ValueDescriptor::Primitive(Primitive::Double(v)),
                            stream.position(),
                        ));
                    }
                    Ok(Some(ValueDescriptor::Primitive(Primitive::Double(v))))
                },
                Err(e) => {
                    proof {
                        assert(primitive_scan(mode0, s0, pp, *type_desc) == VScan::Eof);
                    }
                    Err(e)
                },
            }
        } else if crate::reader::strings::str_eq(name, "char") {
            match stream.read_char() {
                Ok(v) => {
                    proof {
                        assert(primitive_scan(mode0, s0, pp, *type_desc) == VScan::Done(
                            stream.position(),
                        ));
                        assert(primitive_parses_to(
                            mode0,
                            s0,
                            pp,
                            *type_desc,
                            ValueDescriptor::Primitive(Primitive::Character(v)),
                            stream.position(),
                        ));
                    }
                    Ok(Some(ValueDescriptor::Primitive(Primitive::Character(v))))
                },
                Err(e) => {
                    proof {
                        if i16_parse(mode0, s0, pp) is None {
                            assert(primitive_scan(mode0, s0, pp, *type_desc) == VScan::Eof);
                        } else {
                            let u = i16_parse(mode0, s0, pp)->0;
                            assert(primitive_scan(mode0, s0, pp, *type_desc) == VScan::BadChar(
                                (u.0 as u16) as u32,
                            ));
                        }
                    }
                    Err(e)
                },
            }
        } else if crate::reader::strings::str_eq(name, "boolean") {
            match stream.read_i8() {
                Ok(v) => {
                    proof {
                        assert((v != 0) == (v as u8 != 0)) by (bit_vector);
                        assert(primitive_scan(mode0, s0, pp, *type_desc) == VScan::Done(
                            stream.position(),
                        ));
                        assert(primitive_parses_to(
                            mode0,
                            s0,
                            pp,
                            *type_desc,
                            ValueDescriptor::Primitive(Primitive::Boolean(v != 0)),
                            stream.position(),
                        ));
                    }
                    Ok(Some(ValueDescriptor::Primitive(Primitive::Boolean(v != 0))))
                },
                Err(e) => {
                    proof {
                        assert(primitive_scan(mode0, s0, pp, *type_desc) == VScan::Eof);
                    }
                    Err(e)
                },
            }
        } else if crate::reader::strings::str_eq(name, "short") {
            match stream.read_i16() {
                Ok(v) => {
                    proof {
                        // the scan orders byte before short, so their
                        // inequality must be spelled out
                        assert("short"@ =~= seq!['s', 'h', 'o', 'r', 't']);
                        assert("byte"@ =~= seq!['b', 'y', 't', 'e']);
                        assert(type_desc.name@ != "byte"@);
                        assert(primitive_scan(mode0, s0, pp, *type_desc) == VScan::Done(
                            stream.position(),
                        ));
                        assert(primitive_parses_to(
                            mode0,
                            s0,
                            pp,
                            *type_desc,
                            ValueDescriptor::Primitive(Primitive::Short(v)),
                            stream.position(),
                        ));
                    }
                    Ok(Some(ValueDescriptor::Primitive(Primitive::Short(v))))
                },
                Err(e) => {
                    proof {
                        assert(primitive_scan(mode0, s0, pp, *type_desc) == VScan::Eof);
                    }
                    Err(e)
                },
            }
        } else if crate::reader::strings::str_eq(name, "byte") {
            match stream.read_i8() {
                Ok(v) => {
                    proof {
                        assert(primitive_scan(mode0, s0, pp, *type_desc) == VScan::Done(
                            stream.position(),
                        ));
                        assert(primitive_parses_to(
                            mode0,
                            s0,
                            pp,
                            *type_desc,
                            ValueDescriptor::Primitive(Primitive::Byte(v)),
                            stream.position(),
                        ));
                    }
                    Ok(Some(ValueDescriptor::Primitive(Primitive::Byte(v))))
                },
                Err(e) => {
                    proof {
                        assert(primitive_scan(mode0, s0, pp, *type_desc) == VScan::Eof);
                    }
                    Err(e)
                },
            }
        } else if crate::reader::strings::str_eq(name, "java.lang.String") {
            match stream.read_string() {
                Ok(StringType::Null) => {
                    proof {
                        assert(primitive_scan(mode0, s0, pp, *type_desc) == VScan::Done(
                            stream.position(),
                        ));
                        assert(primitive_parses_to(
                            mode0,
                            s0,
                            pp,
                            *type_desc,
                            ValueDescriptor::Primitive(Primitive::NullString),
                            stream.position(),
                        ));
                    }
                    Ok(Some(ValueDescriptor::Primitive(Primitive::NullString)))
                },
                Ok(StringType::Empty) => {
                    let text = String::new();
                    proof {
                        assert(primitive_scan(mode0, s0, pp, *type_desc) == VScan::Done(
                            stream.position(),
                        ));
                        assert(primitive_parses_to(
                            mode0,
                            s0,
                            pp,
                            *type_desc,
                            ValueDescriptor::Primitive(Primitive::String(text)),
                            stream.position(),
                        ));
                    }
                    Ok(Some(ValueDescriptor::Primitive(Primitive::String(text))))
                },
                Ok(StringType::Raw(s)) => {
                    proof {
                        assert(primitive_scan(mode0, s0, pp, *type_desc) == VScan::Done(
                            stream.position(),
                        ));
                        assert(primitive_parses_to(
                            mode0,
                            s0,
                            pp,
                            *type_desc,
                            ValueDescriptor::Primitive(Primitive::String(s)),
                            stream.position(),
                        ));
                    }
                    Ok(Some(ValueDescriptor::Primitive(Primitive::String(s))))
                },
                Ok(StringType::ConstantPool(idx)) => {
                    proof {
                        assert(primitive_scan(mode0, s0, pp, *type_desc) == VScan::Done(
                            stream.position(),
                        ));
                        assert(primitive_parses_to(
                            mode0,
                            s0,
                            pp,
                            *type_desc,
                            ValueDescriptor::ConstantPool {
                                class_id: type_desc.class_id,
                                constant_index: idx,
                            },
                            stream.position(),
                        ));
                    }
                    Ok(
                        Some(
                            ValueDescriptor::ConstantPool {
                                class_id: type_desc.class_id,
                                constant_index: idx,
                            },
                        ),
                    )
                },
                Err(e) => {
                    proof {
                        if string_parse(mode0, s0, pp) is Eof {
                            assert(primitive_scan(mode0, s0, pp, *type_desc) == VScan::Eof);
                        } else {
                            assert(primitive_scan(mode0, s0, pp, *type_desc) == VScan::Bad);
                        }
                    }
                    Err(e)
                },
            }
        } else {
            Ok(None)
        }
    }

    /// Navigates to a named field: objects are searched by the schema's
    /// field order, references resolve one level through the pool, and
    /// the resolved field value is resolved once more when it is itself
    /// a reference.
    pub fn get_field<'a>(&'a self, name: &str, chunk: &'a Chunk) -> (res: Option<
        &'a ValueDescriptor,
    >)
        ensures
            match res {
                Some(v) => value_field_lookup(
                    *self,
                    name@,
                    chunk.metadata.type_pool@,
                    chunk.constant_pool@,
                ) == Some(*v),
                None => value_field_lookup(
                    *self,
                    name@,
                    chunk.metadata.type_pool@,
                    chunk.constant_pool@,
                ) is None,
            },
    {
        match self {
            ValueDescriptor::Object(o) => Self::get_object_field(o, name, chunk),
            ValueDescriptor::ConstantPool { class_id, constant_index } => {
                match chunk.constant_pool.get(*class_id, *constant_index) {
                    Some(ValueDescriptor::Object(o)) => Self::get_object_field(o, name, chunk),
                    _ => None,
                }
            },
            _ => None,
        }
    }

    /// The value as a 32-bit integer, exactly when it is one.
    pub fn as_i32(&self) -> (res: Option<i32>)
        ensures
            match res {
                Some(x) => *self == ValueDescriptor::Primitive(Primitive::Integer(x)),
                None => forall|x: i32| *self != ValueDescriptor::Primitive(Primitive::Integer(x)),
            },
    {
        match self {
            ValueDescriptor::Primitive(Primitive::Integer(x)) => Some(*x),
            _ => None,
        }
    }

    /// The value as a 64-bit integer, exactly when it is one.
    pub fn as_i64(&self) -> (res: Option<i64>)
        ensures
            match res {
                Some(x) => *self == ValueDescriptor::Primitive(Primitive::Long(x)),
                None => forall|x: i64| *self != ValueDescriptor::Primitive(Primitive::Long(x)),
            },
    {
        match self {
            ValueDescriptor::Primitive(Primitive::Long(x)) => Some(*x),
            _ => None,
        }
    }

    /// The value as a boolean, exactly when it is one.
    pub fn as_bool(&self) -> (res: Option<bool>)
        ensures
            match res {
                Some(x) => *self == ValueDescriptor::Primitive(Primitive::Boolean(x)),
                None => forall|x: bool| *self != ValueDescriptor::Primitive(Primitive::Boolean(x)),
            },
    {
        match self {
            ValueDescriptor::Primitive(Primitive::Boolean(x)) => Some(*x),
            _ => None,
        }
    }

    /// The value as a character, exactly when it is one.
    pub fn as_char(&self) -> (res: Option<char>)
        ensures
            match res {
                Some(x) => *self == ValueDescriptor::Primitive(Primitive::Character(x)),
                None => forall|x: char|
                    *self != ValueDescriptor::Primitive(Primitive::Character(x)),
            },
    {
        match self {
            ValueDescriptor::Primitive(Primitive::Character(x)) => Some(*x),
            _ => None,
        }
    }

    /// The value as a 16-bit integer, exactly when it is one.
    pub fn as_i16(&self) -> (res: Option<i16>)
        ensures
            match res {
                Some(x) => *self == ValueDescriptor::Primitive(Primitive::Short(x)),
                None => forall|x: i16| *self != ValueDescriptor::Primitive(Primitive::Short(x)),
            },
    {
        match self {
            ValueDescriptor::Primitive(Primitive::Short(x)) => Some(*x),
            _ => None,
        }
    }

    /// The value as an 8-bit integer, exactly when it is one.
    pub fn as_i8(&self) -> (res: Option<i8>)
        ensures
            match res {
                Some(x) => *self == ValueDescriptor::Primitive(Primitive::Byte(x)),
                None => forall|x: i8| *self != ValueDescriptor::Primitive(Primitive::Byte(x)),
            },
    {
        match self {
            ValueDescriptor::Primitive(Primitive::Byte(x)) => Some(*x),
            _ => None,
        }
    }

    /// The IEEE-754 bits of a 32-bit float value, exactly when it is one.
    pub fn as_f32_bits(&self) -> (res: Option<u32>)
        ensures
            match res {
                Some(x) => *self == ValueDescriptor::Primitive(Primitive::Float(x)),
                None => forall|x: u32| *self != ValueDescriptor::Primitive(Primitive::Float(x)),
            },
    {
        match self {
            ValueDescriptor::Primitive(Primitive::Float(x)) => Some(*x),
            _ => None,
        }
    }

    /// The IEEE-754 bits of a 64-bit float value, exactly when it is one.
    pub fn as_f64_bits(&self) -> (res: Option<u64>)
        ensures
            match res {
                Some(x) => *self == ValueDescriptor::Primitive(Primitive::Double(x)),
                None => forall|x: u64| *self != ValueDescriptor::Primitive(Primitive::Double(x)),
            },
    {
        match self {
            ValueDescriptor::Primitive(Primitive::Double(x)) => Some(*x),
            _ => None,
        }
    }

    /// The value as borrowed text, exactly when it is a non-null string.
    pub fn as_str(&self) -> (res: Option<&str>)
        ensures
            match res {
                Some(x) => self matches ValueDescriptor::Primitive(Primitive::String(t)) && t@
                    == x@,
                None => !(self matches ValueDescriptor::Primitive(Primitive::String(_))),
            },
    {
        match self {
            ValueDescriptor::Primitive(Primitive::String(x)) => Some(x.as_str()),
            _ => None,
        }
    }

    /// The named field of one object, with the one-level pool
    /// resolution [`object_field_lookup`] states.
    fn get_object_field<'a>(obj: &'a Object, name: &str, chunk: &'a Chunk) -> (res: Option<
        &'a ValueDescriptor,
    >)
        ensures
            match res {
                Some(v) => object_field_lookup(
                    *obj,
                    name@,
                    chunk.metadata.type_pool@,
                    chunk.constant_pool@,
                ) == Some(*v),
                None => object_field_lookup(
                    *obj,
                    name@,
                    chunk.metadata.type_pool@,
                    chunk.constant_pool@,
                ) is None,
            },
    {
        let type_desc = match chunk.metadata.type_pool.get(obj.class_id) {
            Some(d) => d,
            None => {
                return None;
            },
        };
        match type_desc.get_field(name) {
            Some(found) => {
                proof {
                    lemma_field_index_some(type_desc.fields@, name@, found.0 as int, 0);
                }
                let idx = found.0;
                if idx < obj.fields.len() {
                    let v = &obj.fields[idx];
                    match v {
                        ValueDescriptor::ConstantPool { class_id, constant_index } => {
                            chunk.constant_pool.get(*class_id, *constant_index)
                        },
                        _ => Some(v),
                    }
                } else {
                    None
                }
            },
            None => {
                proof {
                    lemma_field_index_none(type_desc.fields@, name@, 0);
                }
                None
            },
        }
    }
}

} // verus!
