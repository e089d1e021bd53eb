//! Descriptors of the types declared in a JFR chunk.
//!
//! A chunk's metadata event declares a schema: one [`TypeDescriptor`] per
//! class, each with ordered [`FieldDescriptor`]s.  Constant-pool values
//! and events are decoded against these descriptors.  Names are interned:
//! every descriptor shares the string table's storage.

use vstd::prelude::*;

use std::rc::Rc;

use rustc_hash::FxHashMap;

use crate::reader::byte_stream::{ByteStream, StringType};
use crate::reader::byte_reader::{ByteReader, StringParse, StringVal, i32_parse, string_parse};
use crate::reader::fx_map::{fx_map_get, fx_map_insert, fx_map_new, fx_map_values};
use crate::reader::strings::rc_str_as_str;
use crate::reader::{Error, IoErrorKind};

verus! {

/// Outcome of decoding a count-prefixed string table.
pub enum TableParse {
    Eof,
    Bad,
    Val(Seq<Option<Seq<char>>>, int),
}

/// `cnt` string-table entries starting at `pos`, appended to `acc`.
/// Null entries are retained; a constant-pool tag is not allowed here.
pub open spec fn table_entries_parse(
    mode: ByteReader,
    s: Seq<u8>,
    pos: int,
    cnt: int,
    acc: Seq<Option<Seq<char>>>,
) -> TableParse
    decreases cnt,
{
    if cnt <= 0 {
        TableParse::Val(acc, pos)
    } else {
        match string_parse(mode, s, pos) {
            StringParse::Eof => TableParse::Eof,
            StringParse::Bad => TableParse::Bad,
            StringParse::Val(v, e) => match v {
                StringVal::Null => table_entries_parse(mode, s, e, cnt - 1, acc.push(None)),
                StringVal::Empty => table_entries_parse(
                    mode,
                    s,
                    e,
                    cnt - 1,
                    acc.push(Some(Seq::empty())),
                ),
                StringVal::Text(t) => table_entries_parse(mode, s, e, cnt - 1, acc.push(Some(t))),
                StringVal::Pool(_) => TableParse::Bad,
            },
        }
    }
}

/// The string table starting at `pos`: a count, then that many entries.
/// A negative count declares an empty table.
pub open spec fn table_parse(mode: ByteReader, s: Seq<u8>, pos: int) -> TableParse {
    match i32_parse(mode, s, pos) {
        None => TableParse::Eof,
        Some(c) => table_entries_parse(
            mode,
            s,
            c.1,
            if c.0 >= 0 {
                c.0 as int
            } else {
                0
            },
            Seq::empty(),
        ),
    }
}

/// The interned strings of one chunk's metadata.  Entries may be null;
/// every descriptor name points into this table's storage.
#[derive(Debug)]
pub struct StringTable(Vec<Option<Rc<String>>>);

impl View for StringTable {
    type V = Seq<Option<Seq<char>>>;

    closed spec fn view(&self) -> Seq<Option<Seq<char>>> {
        self.0@.map_values(
            |e: Option<Rc<String>>|
                match e {
                    Some(s) => Some(s@),
                    None => None,
                },
        )
    }
}

impl StringTable {
    /// Reads a count-prefixed table of strings.
    pub fn try_new(stream: &mut ByteStream) -> (res: Result<StringTable, Error>)
        ensures
            final(stream).bytes() == old(stream).bytes(),
            final(stream).mode() == old(stream).mode(),
            match table_parse(old(stream).mode(), old(stream).bytes(), old(stream).position()) {
                TableParse::Val(v, e) => res matches Ok(t) && t@ == v && final(stream).position()
                    == e,
                TableParse::Eof => res matches Err(Error::IoError(IoErrorKind::UnexpectedEof)),
                TableParse::Bad => res matches Err(Error::InvalidString),
            },
    {
        let ghost s = stream.bytes();
        let ghost mode = stream.mode();
        let string_count = match stream.read_i32() {
            Ok(c) => c,
            Err(e) => {
                return Err(e);
            },
        };
        let n: usize = if string_count >= 0 {
            string_count as usize
        } else {
            0
        };
        let mut strings: Vec<Option<Rc<String>>> = Vec::new();
        proof {
            assert(StringTable(strings)@ =~= Seq::<Option<Seq<char>>>::empty());
        }
        let mut i: usize = 0;
        while i < n
            invariant
                s == old(stream).bytes(),
                mode == old(stream).mode(),
                stream.bytes() == s,
                stream.mode() == mode,
                i <= n,
                strings@.len() == i,
                table_parse(mode, s, old(stream).position()) == table_entries_parse(
                    mode,
                    s,
                    stream.position(),
                    n - i,
                    StringTable(strings)@,
                ),
            decreases n - i,
        {
            let ghost p0 = stream.position();
            let ghost acc0 = StringTable(strings)@;
            let entry = match stream.read_string() {
                Ok(st) => st,
                Err(e) => {
                    proof {
                        assert(table_entries_parse(mode, s, p0, n - i, acc0) is Eof
                            || table_entries_parse(mode, s, p0, n - i, acc0) is Bad);
                    }
                    return Err(e);
                },
            };
            match entry {
                StringType::Null => strings.push(None),
                StringType::Empty => strings.push(Some(Rc::new(String::new()))),
                StringType::Raw(text) => strings.push(Some(Rc::new(text))),
                StringType::ConstantPool(_) => {
                    proof {
                        assert(table_entries_parse(mode, s, p0, n - i, acc0) is Bad);
                    }
                    return Err(Error::InvalidString);
                },
            }
            proof {
                assert(StringTable(strings)@ =~= acc0.push(StringTable(strings)@.last()));
            }
            i = i + 1;
        }
        proof {
            assert(table_entries_parse(mode, s, stream.position(), 0, StringTable(strings)@)
                == TableParse::Val(StringTable(strings)@, stream.position()));
        }
        Ok(StringTable(strings))
    }

    /// Looks an interned string up; in-range non-null entries are returned
    /// and everything else is an [`Error::InvalidStringIndex`].
    pub fn get(&self, idx: i32) -> (res: Result<&Rc<String>, Error>)
        ensures
            match res {
                Ok(s) => 0 <= idx < self@.len() && self@[idx as int] == Some(s@),
                Err(e) => (e matches Error::InvalidStringIndex(i) && i == idx) && !(0 <= idx
                    < self@.len() && self@[idx as int] is Some),
            },
    {
        if 0 <= idx && (idx as usize) < self.0.len() {
            match &self.0[idx as usize] {
                Some(s) => Ok(s),
                None => Err(Error::InvalidStringIndex(idx)),
            }
        } else {
            Err(Error::InvalidStringIndex(idx))
        }
    }
}

/// The declared types of one chunk, keyed by class id.
#[derive(Debug)]
pub struct TypePool {
    inner: FxHashMap<i64, TypeDescriptor>,
}

impl View for TypePool {
    type V = Map<i64, TypeDescriptor>;

    closed spec fn view(&self) -> Map<i64, TypeDescriptor> {
        self.inner@
    }
}

impl Default for TypePool {
    fn default() -> (r: Self)
        ensures
            r@ == Map::<i64, TypeDescriptor>::empty(),
    {
        let inner = fx_map_new();
        proof {
            assert(inner@ =~= Map::<i64, TypeDescriptor>::empty());
        }
        TypePool { inner }
    }
}

impl TypePool {
    pub fn register(&mut self, class_id: i64, desc: TypeDescriptor)
        ensures
            final(self)@ == old(self)@.insert(class_id, desc),
    {
        fx_map_insert(&mut self.inner, class_id, desc);
    }

    pub fn get(&self, class_id: i64) -> (res: Option<&TypeDescriptor>)
        ensures
            match res {
                Some(d) => self@.contains_key(class_id) && *d == self@[class_id],
                None => !self@.contains_key(class_id),
            },
    {
        fx_map_get(&self.inner, class_id)
    }

    /// All declared types, in an order the hash layout decides.
    pub fn get_types(&self) -> (res: Vec<&TypeDescriptor>)
        ensures
            res@.len() == self@.dom().len(),
    {
        fx_map_values(&self.inner)
    }
}

/// Schema of one declared class.
#[derive(Debug)]
pub struct TypeDescriptor {
    pub class_id: i64,
    pub name: Rc<String>,
    pub super_type: Option<Rc<String>>,
    pub simple_type: bool,
    pub fields: Vec<FieldDescriptor>,
    // the rest is filled from annotations
    pub label: Option<Rc<String>>,
    pub description: Option<Rc<String>>,
    pub experimental: bool,
    pub category: Vec<Rc<String>>,
}

impl TypeDescriptor {
    /// The first declared field of the given name, with its index.
    pub fn get_field(&self, name: &str) -> (res: Option<(usize, &FieldDescriptor)>)
        ensures
            match res {
                Some(r) => 0 <= r.0 < self.fields@.len() && self.fields@[r.0 as int].name@ == name@
                    && *r.1 == self.fields@[r.0 as int] && (forall|j: int|
                    0 <= j < r.0 ==> self.fields@[j].name@ != name@),
                None => forall|j: int| 0 <= j < self.fields@.len() ==> self.fields@[j].name@ != name@,
            },
    {
        let mut idx: usize = 0;
        while idx < self.fields.len()
            invariant
                idx <= self.fields@.len(),
                forall|j: int| 0 <= j < idx ==> self.fields@[j].name@ != name@,
            decreases self.fields@.len() - idx,
        {
            if crate::reader::strings::str_eq(rc_str_as_str(&self.fields[idx].name), name) {
                return Some((idx, &self.fields[idx]));
            }
            idx = idx + 1;
        }
        None
    }

    pub fn name(&self) -> (r: &str)
        ensures
            r@ == self.name@,
    {
        rc_str_as_str(&self.name)
    }

    pub fn super_type(&self) -> (r: Option<&str>)
        ensures
            match r {
                Some(s) => self.super_type matches Some(t) && s@ == t@,
                None => self.super_type is None,
            },
    {
        match &self.super_type {
            Some(s) => Some(rc_str_as_str(s)),
            None => None,
        }
    }

    pub fn label(&self) -> (r: Option<&str>)
        ensures
            match r {
                Some(s) => self.label matches Some(t) && s@ == t@,
                None => self.label is None,
            },
    {
        match &self.label {
            Some(s) => Some(rc_str_as_str(s)),
            None => None,
        }
    }

    pub fn description(&self) -> (r: Option<&str>)
        ensures
            match r {
                Some(s) => self.description matches Some(t) && s@ == t@,
                None => self.description is None,
            },
    {
        match &self.description {
            Some(s) => Some(rc_str_as_str(s)),
            None => None,
        }
    }

    /// The category path declared by the class's annotations.
    pub fn category(&self) -> (r: Vec<&str>)
        ensures
            r@.len() == self.category@.len(),
            forall|i: int| 0 <= i < r@.len() ==> r@[i]@ == self.category@[i]@,
    {
        let mut out: Vec<&str> = Vec::new();
        let mut i: usize = 0;
        while i < self.category.len()
            invariant
                i <= self.category@.len(),
                out@.len() == i,
                forall|j: int| 0 <= j < i ==> out@[j]@ == self.category@[j]@,
            decreases self.category@.len() - i,
        {
            out.push(rc_str_as_str(&self.category[i]));
            i = i + 1;
        }
        out
    }
}

/// Schema of one declared field.
#[derive(Debug)]
pub struct FieldDescriptor {
    pub class_id: i64,
    pub name: Rc<String>,
    pub label: Option<Rc<String>>,
    pub description: Option<Rc<String>>,
    pub experimental: bool,
    /// Values of this field are stored as constant-pool indices.
    pub constant_pool: bool,
    /// Values of this field are length-prefixed arrays.
    pub array_type: bool,
    pub unsigned: bool,
    pub unit: Option<Unit>,
    pub tick_unit: Option<TickUnit>,
}

impl FieldDescriptor {
    pub fn name(&self) -> (r: &str)
        ensures
            r@ == self.name@,
    {
        rc_str_as_str(&self.name)
    }

    pub fn label(&self) -> (r: Option<&str>)
        ensures
            match r {
                Some(s) => self.label matches Some(t) && s@ == t@,
                None => self.label is None,
            },
    {
        match &self.label {
            Some(s) => Some(rc_str_as_str(s)),
            None => None,
        }
    }

    pub fn description(&self) -> (r: Option<&str>)
        ensures
            match r {
                Some(s) => self.description matches Some(t) && s@ == t@,
                None => self.description is None,
            },
    {
        match &self.description {
            Some(s) => Some(rc_str_as_str(s)),
            None => None,
        }
    }
}

/// Unit attached to a field by its annotations.
#[derive(Debug, Copy, Clone, Eq, PartialEq, Structural)]
pub enum Unit {
    Byte,
    PercentUnity,
    AddressUnity,
    Hz,
    Nanosecond,
    Millisecond,
    Second,
    EpochNano,
    EpochMilli,
    EpochSecond,
}

/// Tick-based unit attached to a field by its annotations.
#[derive(Debug, Copy, Clone, Eq, PartialEq, Structural)]
pub enum TickUnit {
    Timespan,
    Timestamp,
}

} // verus!
