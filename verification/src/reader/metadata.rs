//! Decoding of the metadata event: the element tree that declares a
//! chunk's schema.
//!
//! The metadata event holds a string table and a recursive element tree
//! (root, then `metadata` / `region`, classes, fields, annotations,
//! settings).  Attribute values are strings and are parsed into numbers
//! and booleans; the accepted classes are then declared as
//! [`TypeDescriptor`]s in a [`TypePool`].

use vstd::prelude::*;

use std::collections::HashMap;
use std::rc::Rc;

use crate::EVENT_TYPE_METADATA;
use crate::reader::byte_reader::{i32_parse, i64_parse};
use crate::reader::byte_stream::ByteStream;
use crate::reader::strings::{char_from_u32, rc_str_as_str, rc_str_clone, str_eq, string_push};
use crate::reader::type_descriptor::{
    FieldDescriptor, StringTable, TickUnit, TypeDescriptor, TypePool, Unit,
};
use crate::reader::{ChunkHeader, Error, IoErrorKind};

verus! {

broadcast use vstd::std_specs::hash::group_hash_axioms;

/// Value of a run of decimal digits starting at `from`, folded onto
/// `acc`; `None` when the run is empty or holds a non-digit.
pub open spec fn digits_val_rec(s: Seq<char>, from: int, acc: int) -> Option<int>
    decreases s.len() - from,
    when 0 <= from <= s.len()
{
    if from >= s.len() {
        Some(acc)
    } else if !(0x30 <= s[from] as u32 <= 0x39) {
        None
    } else {
        digits_val_rec(s, from + 1, acc * 10 + (s[from] as u32 - 0x30))
    }
}

/// Value of the non-empty all-digit run from `from` to the end.
pub open spec fn digits_val(s: Seq<char>, from: int) -> Option<int> {
    if from >= s.len() {
        None
    } else {
        digits_val_rec(s, from, 0)
    }
}

/// What `str::parse::<i64>` accepts: an optional sign, then decimal
/// digits, rejected when the value leaves the 64-bit range.
pub open spec fn str_parse_i64(s: Seq<char>) -> Option<i64> {
    if s.len() == 0 {
        None
    } else {
        let neg = s[0] == '-';
        let from: int = if s[0] == '-' || s[0] == '+' {
            1
        } else {
            0
        };
        match digits_val(s, from) {
            None => None,
            Some(v) => if neg {
                if v <= 0x8000000000000000 {
                    Some((-v) as i64)
                } else {
                    None
                }
            } else {
                if v <= 0x7fffffffffffffff {
                    Some(v as i64)
                } else {
                    None
                }
            },
        }
    }
}

/// What `str::parse::<i32>` accepts.
pub open spec fn str_parse_i32(s: Seq<char>) -> Option<i32> {
    match str_parse_i64(s) {
        None => None,
        Some(v) => if -0x80000000 <= v <= 0x7fffffff {
            Some(v as i32)
        } else {
            None
        },
    }
}

/// What `str::parse::<bool>` accepts: exactly `true` or `false`.
pub open spec fn str_parse_bool(s: Seq<char>) -> Option<bool> {
    if s == "true"@ {
        Some(true)
    } else if s == "false"@ {
        Some(false)
    } else {
        None
    }
}

/// The digit fold can only grow from a non-negative accumulator.
proof fn lemma_digits_lower(s: Seq<char>, from: int, acc: int)
    requires
        0 <= from <= s.len(),
        0 <= acc,
    ensures
        match digits_val_rec(s, from, acc) {
            Some(v) => v >= acc,
            None => true,
        },
    decreases s.len() - from,
{
    if from < s.len() && 0x30 <= s[from] as u32 <= 0x39 {
        lemma_digits_lower(s, from + 1, acc * 10 + (s[from] as u32 - 0x30));
    }
}

/// Parses a decimal 64-bit integer as `str::parse` does.
pub fn parse_i64(s: &str) -> (r: Option<i64>)
    ensures
        r == str_parse_i64(s@),
{
    let n = s.unicode_len();
    if n == 0 {
        return None;
    }
    let first = s.get_char(0);
    let neg = first == '-';
    let from: usize = if first == '-' || first == '+' {
        1
    } else {
        0
    };
    if from >= n {
        return None;
    }
    let bound: u64 = if neg {
        0x8000000000000000
    } else {
        0x7fffffffffffffff
    };
    let mut acc: u64 = 0;
    let mut i: usize = from;
    while i < n
        invariant
            n == s@.len(),
            from <= i <= n,
            from < n,
            acc <= bound,
            neg == (s@[0] == '-'),
            from as int == (if s@[0] == '-' || s@[0] == '+' {
                1int
            } else {
                0int
            }),
            bound == (if neg {
                0x8000000000000000u64
            } else {
                0x7fffffffffffffffu64
            }),
            digits_val(s@, from as int) == digits_val_rec(s@, i as int, acc as int),
        decreases n - i,
    {
        let c = s.get_char(i);
        let cu = c as u32;
        if !(0x30 <= cu && cu <= 0x39) {
            proof {
                assert(digits_val_rec(s@, i as int, acc as int) is None);
            }
            return None;
        }
        let d = (cu - 0x30) as u64;
        proof {
            assert(digits_val_rec(s@, i as int, acc as int) == digits_val_rec(
                s@,
                i + 1,
                acc * 10 + d,
            ));
            lemma_digits_lower(s@, i + 1, acc * 10 + d);
        }
        if acc > (bound - d) / 10 {
            // the fold from here only grows, so the value cannot fit
            proof {
                assert(acc * 10 + d > bound) by (nonlinear_arith)
                    requires
                        0 <= d <= 9,
                        0 <= bound,
                        acc > (bound - d) / 10,
                ;
            }
            return None;
        }
        proof {
            assert(acc * 10 + d <= bound) by (nonlinear_arith)
                requires
                    0 <= d <= 9,
                    d <= bound,
                    acc <= (bound - d) / 10,
            ;
        }
        acc = acc * 10 + d;
        i = i + 1;
    }
    if neg {
        if acc == 0x8000000000000000 {
            Some(i64::MIN)
        } else {
            Some(-(acc as i64))
        }
    } else {
        Some(acc as i64)
    }
}

/// Parses a decimal 32-bit integer as `str::parse` does.
pub fn parse_i32(s: &str) -> (r: Option<i32>)
    ensures
        r == str_parse_i32(s@),
{
    match parse_i64(s) {
        None => None,
        Some(v) => if -0x80000000 <= v && v <= 0x7fffffff {
            Some(v as i32)
        } else {
            None
        },
    }
}

/// Parses a boolean as `str::parse` does.
pub fn parse_bool(s: &str) -> (r: Option<bool>)
    ensures
        r == str_parse_bool(s@),
{
    if str_eq(s, "true") {
        Some(true)
    } else if str_eq(s, "false") {
        Some(false)
    } else {
        None
    }
}

/// The value of the last attribute pair with the given key, as a map
/// built by repeated inserts would hold it.
pub open spec fn attr_lookup(attrs: Seq<(Rc<String>, Rc<String>)>, key: Seq<char>) -> Option<
    Rc<String>,
>
    decreases attrs.len(),
{
    if attrs.len() == 0 {
        None
    } else if attrs.last().0@ == key {
        Some(attrs.last().1)
    } else {
        attr_lookup(attrs.drop_last(), key)
    }
}

/// Decimal digits of `n`, most significant first.
pub open spec fn dec_digits(n: int) -> Seq<char>
    decreases n,
    when n >= 0
{
    if n < 10 {
        seq![(0x30 + n) as char]
    } else {
        dec_digits(n / 10).push((0x30 + n % 10) as char)
    }
}

/// The sequentially indexed attribute key `value-<idx>`.
pub open spec fn value_key(idx: int) -> Seq<char> {
    "value-"@ + dec_digits(idx)
}

/// The category values collected from `value-<idx>` upward until the
/// first gap; `fuel` bounds the walk and one unit per attribute suffices.
pub open spec fn category_collect(
    attrs: Seq<(Rc<String>, Rc<String>)>,
    idx: int,
    fuel: int,
) -> Seq<Rc<String>>
    decreases fuel,
    when fuel >= 0
{
    if fuel <= 0 {
        Seq::empty()
    } else {
        match attr_lookup(attrs, value_key(idx)) {
            None => Seq::empty(),
            Some(v) => seq![v] + category_collect(attrs, idx + 1, fuel - 1),
        }
    }
}

/// Reversed digit bytes read as characters.
pub open spec fn rev_digit_chars(ds: Seq<u8>) -> Seq<char> {
    Seq::new(ds.len(), |i: int| ds[ds.len() - 1 - i] as char)
}

/// Appends the decimal rendering of `n0`.
fn push_decimal(s: &mut String, n0: usize)
    ensures
        final(s)@ == old(s)@ + dec_digits(n0 as int),
{
    let ghost base = s@;
    let mut digs: Vec<u8> = Vec::new();
    let mut n = n0;
    while n >= 10
        invariant
            dec_digits(n0 as int) =~= dec_digits(n as int) + rev_digit_chars(digs@),
        decreases n,
    {
        let ghost digs0 = digs@;
        digs.push((n % 10 + 0x30) as u8);
        proof {
            assert(rev_digit_chars(digs@) =~= seq![((n % 10 + 0x30) as u8) as char]
                + rev_digit_chars(digs0));
            assert(dec_digits(n as int) == dec_digits(n as int / 10).push(
                (0x30 + n as int % 10) as char,
            ));
            assert(dec_digits(n as int / 10).push((0x30 + n as int % 10) as char)
                + rev_digit_chars(digs0) =~= dec_digits(n as int / 10) + (seq![(0x30 + n as int
                % 10) as char] + rev_digit_chars(digs0)));
            assert(((n % 10 + 0x30) as u8) as char == (0x30 + n as int % 10) as char);
        }
        n = n / 10;
    }
    match char_from_u32(0x30 + (n as u32)) {
        Some(c) => string_push(s, c),
        None => {
            proof {
                assert(false);
            }
        },
    }
    proof {
        assert(dec_digits(n as int) =~= seq![(0x30 + n as int) as char]);
        assert(s@ =~= base + dec_digits(n as int));
    }
    let mut j: usize = digs.len();
    while j > 0
        invariant
            j <= digs@.len(),
            s@ =~= base + dec_digits(n0 as int).take(
                dec_digits(n0 as int).len() - j,
            ),
            dec_digits(n0 as int) =~= dec_digits(n as int) + rev_digit_chars(digs@),
            n < 10,
        decreases j,
    {
        let d = digs[j - 1];
        match char_from_u32(d as u32) {
            Some(c) => string_push(s, c),
            None => {
                proof {
                    assert(false);
                }
            },
        }
        proof {
            let full = dec_digits(n0 as int);
            assert(full[full.len() - j] == rev_digit_chars(digs@)[digs@.len() - j]);
            assert(rev_digit_chars(digs@)[digs@.len() - j] == digs@[j - 1] as char);
            assert(s@ =~= base + full.take(full.len() - (j - 1)));
        }
        j = j - 1;
    }
    proof {
        let full = dec_digits(n0 as int);
        assert(full.take(full.len() as int) =~= full);
    }
}

/// Builds the key `value-<idx>` of a sequentially indexed attribute.
fn value_index_key(idx: usize) -> (r: String)
    ensures
        r@ == value_key(idx as int),
{
    let mut s = String::from_str("value-");
    push_decimal(&mut s, idx);
    s
}

impl AnnotationElement {
    /// The last-set attribute of the given key.
    pub fn attribute(&self, key: &str) -> (r: Option<&Rc<String>>)
        ensures
            match r {
                Some(v) => attr_lookup(self.attributes@, key@) == Some(*v),
                None => attr_lookup(self.attributes@, key@) is None,
            },
    {
        proof {
            assert(self.attributes@.take(self.attributes@.len() as int) =~= self.attributes@);
        }
        let mut i: usize = self.attributes.len();
        while i > 0
            invariant
                i <= self.attributes@.len(),
                attr_lookup(self.attributes@, key@) == attr_lookup(
                    self.attributes@.take(i as int),
                    key@,
                ),
            decreases i,
        {
            if str_eq(rc_str_as_str(&self.attributes[i - 1].0), key) {
                proof {
                    assert(self.attributes@.take(i as int).last() == self.attributes@[i - 1]);
                }
                return Some(&self.attributes[i - 1].1);
            }
            proof {
                assert(self.attributes@.take(i as int).drop_last() =~= self.attributes@.take(
                    i - 1,
                ));
            }
            i = i - 1;
        }
        None
    }

    /// The last-set attribute, cloned out of the shared storage.
    pub fn attribute_cloned(&self, key: &str) -> (r: Option<Rc<String>>)
        ensures
            r == attr_lookup(self.attributes@, key@),
    {
        match self.attribute(key) {
            Some(v) => Some(rc_str_clone(v)),
            None => None,
        }
    }
}

/// One node of the metadata element tree, named by the wire format.
#[derive(Debug)]
pub enum ElementType {
    Root(RootElement),
    Metadata(MetadataElement),
    Region(RegionElement),
    Class(ClassElement),
    Field(FieldElement),
    Annotation(AnnotationElement),
    Setting(SettingElement),
}

#[derive(Debug)]
pub struct RootElement {
    pub metadata: Option<MetadataElement>,
    pub region: Option<RegionElement>,
}

#[derive(Debug)]
pub struct MetadataElement {
    pub classes: Vec<ClassElement>,
}

#[derive(Debug)]
pub struct RegionElement {}

#[derive(Debug)]
pub struct ClassElement {
    pub annotations: Vec<AnnotationElement>,
    pub fields: Vec<FieldElement>,
    pub setting: Option<SettingElement>,
    /// `None` until the required `id` attribute arrives; declaring a
    /// class without it is an [`Error::InvalidFormat`].
    pub class_id: Option<i64>,
    pub type_identifier: Option<Rc<String>>,
    pub super_type: Option<Rc<String>>,
    pub simple_type: Option<bool>,
}

#[derive(Debug)]
pub struct FieldElement {
    pub annotations: Vec<AnnotationElement>,
    pub field_identifier: Option<Rc<String>>,
    /// `None` until the required `class` attribute arrives; declaring a
    /// field without it is an [`Error::InvalidFormat`].
    pub class_id: Option<i64>,
    pub constant_pool: Option<bool>,
    pub dimension: Option<i32>,
}

/// Attribute pairs in wire order; a repeated key is looked up from the
/// end, so the last occurrence wins as a map insert would.
#[derive(Debug)]
pub struct AnnotationElement {
    pub class_id: i64,
    pub attributes: Vec<(Rc<String>, Rc<String>)>,
}

#[derive(Debug)]
pub struct SettingElement {
    pub annotations: Vec<AnnotationElement>,
}

impl ElementType {
    /// Whether the element name is one of the six the format defines.
    pub open spec fn known_name(name: Seq<char>) -> bool {
        name == "metadata"@ || name == "region"@ || name == "class"@ || name == "field"@ || name
            == "setting"@ || name == "annotation"@
    }

    /// A fresh element of the kind the name declares; unknown names are
    /// an [`Error::InvalidFormat`].
    pub fn try_new(name: &str) -> (res: Result<ElementType, Error>)
        ensures
            match res {
                Ok(e) => Self::known_name(name@) && !(e is Root) && (e matches ElementType::Metadata(
                    m,
                ) ==> name@ == "metadata"@ && m.classes@.len() == 0) && (e is Region ==> name@
                    == "region"@) && (e matches ElementType::Class(c) ==> name@ == "class"@
                    && c.annotations@.len() == 0 && c.fields@.len() == 0 && c.setting is None
                    && c.class_id is None && c.type_identifier is None && c.super_type is None
                    && c.simple_type is None) && (e matches ElementType::Field(f) ==> name@
                    == "field"@ && f.annotations@.len() == 0 && f.field_identifier is None
                    && f.class_id is None && f.constant_pool is None && f.dimension is None) && (
                e matches ElementType::Annotation(a) ==> name@ == "annotation"@ && a.class_id == 0
                    && a.attributes@.len() == 0) && (e matches ElementType::Setting(t) ==> name@
                    == "setting"@ && t.annotations@.len() == 0),
                Err(err) => err is InvalidFormat && !Self::known_name(name@),
            },
    {
        if str_eq(name, "metadata") {
            Ok(ElementType::Metadata(MetadataElement { classes: Vec::new() }))
        } else if str_eq(name, "region") {
            Ok(ElementType::Region(RegionElement {  }))
        } else if str_eq(name, "class") {
            Ok(
                ElementType::Class(
                    ClassElement {
                        annotations: Vec::new(),
                        fields: Vec::new(),
                        setting: None,
                        class_id: None,
                        type_identifier: None,
                        super_type: None,
                        simple_type: None,
                    },
                ),
            )
        } else if str_eq(name, "field") {
            Ok(
                ElementType::Field(
                    FieldElement {
                        annotations: Vec::new(),
                        field_identifier: None,
                        class_id: None,
                        constant_pool: None,
                        dimension: None,
                    },
                ),
            )
        } else if str_eq(name, "setting") {
            Ok(ElementType::Setting(SettingElement { annotations: Vec::new() }))
        } else if str_eq(name, "annotation") {
            Ok(ElementType::Annotation(AnnotationElement { class_id: 0, attributes: Vec::new() }))
        } else {
            Err(Error::InvalidFormat)
        }
    }

    /// Attaches a child to its parent where the format accepts the pair;
    /// anything else is silently dropped.
    pub fn append_child(&mut self, child: ElementType)
        ensures
            ({
                let post = *final(self);
                match *old(self) {
                    ElementType::Root(r) => match child {
                        ElementType::Metadata(m) => post == ElementType::Root(
                            RootElement { metadata: Some(m), ..r },
                        ),
                        ElementType::Region(g) => post == ElementType::Root(
                            RootElement { region: Some(g), ..r },
                        ),
                        _ => post == *old(self),
                    },
                    ElementType::Metadata(me) => match child {
                        ElementType::Class(c) => post matches ElementType::Metadata(m2)
                            && m2.classes@ == me.classes@.push(c),
                        _ => post == *old(self),
                    },
                    ElementType::Class(ce) => match child {
                        ElementType::Field(f) => post matches ElementType::Class(c2) && c2.fields@
                            == ce.fields@.push(f) && c2.annotations == ce.annotations && c2.setting
                            == ce.setting && c2.class_id == ce.class_id && c2.type_identifier
                            == ce.type_identifier && c2.super_type == ce.super_type
                            && c2.simple_type == ce.simple_type,
                        ElementType::Annotation(a) => post matches ElementType::Class(c2)
                            && c2.annotations@ == ce.annotations@.push(a) && c2.fields == ce.fields
                            && c2.setting == ce.setting && c2.class_id == ce.class_id
                            && c2.type_identifier == ce.type_identifier && c2.super_type
                            == ce.super_type && c2.simple_type == ce.simple_type,
                        ElementType::Setting(st) => post == ElementType::Class(
                            ClassElement { setting: Some(st), ..ce },
                        ),
                        _ => post == *old(self),
                    },
                    ElementType::Field(fe) => match child {
                        ElementType::Annotation(a) => post matches ElementType::Field(f2)
                            && f2.annotations@ == fe.annotations@.push(a) && f2.field_identifier
                            == fe.field_identifier && f2.class_id == fe.class_id && f2.constant_pool
                            == fe.constant_pool && f2.dimension == fe.dimension,
                        _ => post == *old(self),
                    },
                    ElementType::Setting(se) => match child {
                        ElementType::Annotation(a) => post matches ElementType::Setting(s2)
                            && s2.annotations@ == se.annotations@.push(a),
                        _ => post == *old(self),
                    },
                    _ => post == *old(self),
                }
            }),
    {
        match self {
            ElementType::Root(e) => match child {
                ElementType::Metadata(m) => e.metadata = Some(m),
                ElementType::Region(r) => e.region = Some(r),
                _ => {},
            },
            ElementType::Metadata(e) => match child {
                ElementType::Class(c) => e.classes.push(c),
                _ => {},
            },
            ElementType::Class(e) => match child {
                ElementType::Field(f) => e.fields.push(f),
                ElementType::Annotation(a) => e.annotations.push(a),
                ElementType::Setting(s) => e.setting = Some(s),
                _ => {},
            },
            ElementType::Field(e) => match child {
                ElementType::Annotation(a) => e.annotations.push(a),
                _ => {},
            },
            ElementType::Setting(e) => match child {
                ElementType::Annotation(a) => e.annotations.push(a),
                _ => {},
            },
            _ => {},
        }
    }

    /// Records one attribute on the element.  Class, field and annotation
    /// elements read the keys the format gives them; everything else
    /// ignores the attribute.  A number or boolean that does not parse is
    /// an [`Error::InvalidFormat`].
    pub fn set_attribute(&mut self, key: &Rc<String>, value: &Rc<String>) -> (res: Result<
        (),
        Error,
    >)
        ensures
            ({
                let post = *final(self);
                let k = key@;
                match *old(self) {
                    ElementType::Class(c) => {
                        if k == "id"@ {
                            match str_parse_i64(value@) {
                                Some(v) => res is Ok && post == ElementType::Class(
                                    ClassElement { class_id: Some(v), ..c },
                                ),
                                None => (res matches Err(e) && e is InvalidFormat) && post == *old(
                                    self,
                                ),
                            }
                        } else if k == "name"@ {
                            res is Ok && post == ElementType::Class(
                                ClassElement { type_identifier: Some(*value), ..c },
                            )
                        } else if k == "superType"@ {
                            res is Ok && post == ElementType::Class(
                                ClassElement { super_type: Some(*value), ..c },
                            )
                        } else if k == "simpleType"@ {
                            match str_parse_bool(value@) {
                                Some(b) => res is Ok && post == ElementType::Class(
                                    ClassElement { simple_type: Some(b), ..c },
                                ),
                                None => (res matches Err(e) && e is InvalidFormat) && post == *old(
                                    self,
                                ),
                            }
                        } else {
                            res is Ok && post == *old(self)
                        }
                    },
                    ElementType::Field(f) => {
                        if k == "name"@ {
                            res is Ok && post == ElementType::Field(
                                FieldElement { field_identifier: Some(*value), ..f },
                            )
                        } else if k == "class"@ {
                            match str_parse_i64(value@) {
                                Some(v) => res is Ok && post == ElementType::Field(
                                    FieldElement { class_id: Some(v), ..f },
                                ),
                                None => (res matches Err(e) && e is InvalidFormat) && post == *old(
                                    self,
                                ),
                            }
                        } else if k == "constantPool"@ {
                            match str_parse_bool(value@) {
                                Some(b) => res is Ok && post == ElementType::Field(
                                    FieldElement { constant_pool: Some(b), ..f },
                                ),
                                None => (res matches Err(e) && e is InvalidFormat) && post == *old(
                                    self,
                                ),
                            }
                        } else if k == "dimension"@ {
                            match str_parse_i32(value@) {
                                Some(v) => res is Ok && post == ElementType::Field(
                                    FieldElement { dimension: Some(v), ..f },
                                ),
                                None => (res matches Err(e) && e is InvalidFormat) && post == *old(
                                    self,
                                ),
                            }
                        } else {
                            res is Ok && post == *old(self)
                        }
                    },
                    ElementType::Annotation(a) => {
                        if k == "class"@ {
                            match str_parse_i64(value@) {
                                Some(v) => res is Ok && post == ElementType::Annotation(
                                    AnnotationElement { class_id: v, ..a },
                                ),
                                None => (res matches Err(e) && e is InvalidFormat) && post == *old(
                                    self,
                                ),
                            }
                        } else {
                            res is Ok && (post matches ElementType::Annotation(a2) && a2.class_id
                                == a.class_id && a2.attributes@ == a.attributes@.push(
                                (*key, *value),
                            ))
                        }
                    },
                    _ => res is Ok && post == *old(self),
                }
            }),
    {
        match self {
            ElementType::Class(c) => {
                let key_str = rc_str_as_str(key);
                if str_eq(key_str, "id") {
                    match parse_i64(rc_str_as_str(value)) {
                        Some(v) => c.class_id = Some(v),
                        None => {
                            return Err(Error::InvalidFormat);
                        },
                    }
                } else if str_eq(key_str, "name") {
                    c.type_identifier = Some(rc_str_clone(value));
                } else if str_eq(key_str, "superType") {
                    c.super_type = Some(rc_str_clone(value));
                } else if str_eq(key_str, "simpleType") {
                    match parse_bool(rc_str_as_str(value)) {
                        Some(b) => c.simple_type = Some(b),
                        None => {
                            return Err(Error::InvalidFormat);
                        },
                    }
                }
            },
            ElementType::Field(f) => {
                let key_str = rc_str_as_str(key);
                if str_eq(key_str, "name") {
                    f.field_identifier = Some(rc_str_clone(value));
                } else if str_eq(key_str, "class") {
                    match parse_i64(rc_str_as_str(value)) {
                        Some(v) => f.class_id = Some(v),
                        None => {
                            return Err(Error::InvalidFormat);
                        },
                    }
                } else if str_eq(key_str, "constantPool") {
                    match parse_bool(rc_str_as_str(value)) {
                        Some(b) => f.constant_pool = Some(b),
                        None => {
                            return Err(Error::InvalidFormat);
                        },
                    }
                } else if str_eq(key_str, "dimension") {
                    match parse_i32(rc_str_as_str(value)) {
                        Some(v) => f.dimension = Some(v),
                        None => {
                            return Err(Error::InvalidFormat);
                        },
                    }
                }
            },
            ElementType::Annotation(a) => {
                let key_str = rc_str_as_str(key);
                if str_eq(key_str, "class") {
                    match parse_i64(rc_str_as_str(value)) {
                        Some(v) => a.class_id = v,
                        None => {
                            return Err(Error::InvalidFormat);
                        },
                    }
                } else {
                    a.attributes.push((rc_str_clone(key), rc_str_clone(value)));
                }
            },
            _ => {},
        }
        Ok(())
    }
}

/// The decoded metadata of one chunk: its declared types.
#[derive(Debug)]
pub struct Metadata {
    pub type_pool: TypePool,
}

/// Whether two elements are nodes of the same kind.
pub open spec fn same_kind(a: ElementType, b: ElementType) -> bool {
    &&& a is Root <==> b is Root
    &&& a is Metadata <==> b is Metadata
    &&& a is Region <==> b is Region
    &&& a is Class <==> b is Class
    &&& a is Field <==> b is Field
    &&& a is Annotation <==> b is Annotation
    &&& a is Setting <==> b is Setting
}

/// A field descriptor carries what its field element declared: the id of
/// the declared type, the interned name, and the two layout flags.
pub open spec fn field_corresponds(fd: FieldDescriptor, fe: FieldElement) -> bool {
    &&& (fe.class_id matches Some(cid) && fd.class_id == cid)
    &&& (fe.field_identifier matches Some(n) && fd.name == n)
    &&& fd.constant_pool == (fe.constant_pool == Some(true))
    &&& fd.array_type == (fe.dimension matches Some(d) && d > 0)
}

/// A type descriptor carries what its class element declared, with one
/// field descriptor per field element, in order.
pub open spec fn class_corresponds(td: TypeDescriptor, ce: ClassElement) -> bool {
    &&& (ce.class_id matches Some(id) && td.class_id == id)
    &&& (ce.type_identifier matches Some(n) && td.name == n)
    &&& td.super_type == ce.super_type
    &&& td.simple_type == (ce.simple_type == Some(true))
    &&& td.fields@.len() == ce.fields@.len()
    &&& forall|i: int|
        0 <= i < ce.fields@.len() ==> field_corresponds(#[trigger] td.fields@[i], ce.fields@[i])
}

/// A class element has the names that declaring it requires.
pub open spec fn class_complete(ce: ClassElement) -> bool {
    &&& ce.class_id is Some
    &&& ce.type_identifier is Some
    &&& forall|j: int|
        0 <= j < ce.fields@.len() ==> (#[trigger] ce.fields@[j]).field_identifier is Some && (
        #[trigger] ce.fields@[j]).class_id is Some
}

/// The class elements the root element declares, in wire order.
pub open spec fn classes_of(root: RootElement) -> Seq<ClassElement> {
    match root.metadata {
        Some(m) => m.classes@,
        None => Seq::empty(),
    }
}

/// Every class element carries the names required to declare it.
pub open spec fn all_complete(cs: Seq<ClassElement>) -> bool {
    forall|i: int| 0 <= i < cs.len() ==> class_complete(#[trigger] cs[i])
}

/// The id a complete class element declares.
pub open spec fn declared_id(ce: ClassElement) -> i64 {
    match ce.class_id {
        Some(id) => id,
        None => 0,
    }
}

/// No later class element redeclares the id of the one at `i`.
pub open spec fn last_declaration(cs: Seq<ClassElement>, i: int) -> bool {
    forall|j: int| i < j < cs.len() ==> (#[trigger] cs[j]).class_id != cs[i].class_id
}

/// The pool holds every declared class id, and for each id the
/// descriptor of its last declaration.
pub open spec fn pool_declares(pool: Map<i64, TypeDescriptor>, cs: Seq<ClassElement>) -> bool {
    &&& forall|i: int| 0 <= i < cs.len() ==> pool.contains_key(declared_id(#[trigger] cs[i]))
    &&& forall|i: int|
        0 <= i < cs.len() && last_declaration(cs, i) ==> class_corresponds(
            pool[declared_id(#[trigger] cs[i])],
            cs[i],
        )
}

impl Metadata {
    /// Applies one class annotation to the descriptor: label,
    /// description, experimental flag, or the category list collected
    /// from the sequentially indexed attributes.
    fn resolve_class_annotation(
        desc: &mut TypeDescriptor,
        annot: &AnnotationElement,
        class_name_map: &HashMap<i64, Rc<String>>,
    ) -> (res: Result<(), Error>)
        ensures
            res is Ok,
            ({
                let post = *final(desc);
                if class_name_map@.contains_key(annot.class_id) {
                    let nm = class_name_map@[annot.class_id]@;
                    if nm == "jdk.jfr.Label"@ {
                        post == TypeDescriptor {
                            label: attr_lookup(annot.attributes@, "value"@),
                            ..*old(desc)
                        }
                    } else if nm == "jdk.jfr.Description"@ {
                        post == TypeDescriptor {
                            description: attr_lookup(annot.attributes@, "value"@),
                            ..*old(desc)
                        }
                    } else if nm == "jdk.jfr.Experimental"@ {
                        post == TypeDescriptor { experimental: true, ..*old(desc) }
                    } else if nm == "jdk.jfr.Category"@ {
                        post.class_id == old(desc).class_id && post.name == old(desc).name
                            && post.super_type == old(desc).super_type && post.simple_type == old(
                            desc,
                        ).simple_type && post.fields == old(desc).fields && post.label == old(
                            desc,
                        ).label && post.description == old(desc).description && post.experimental
                            == old(desc).experimental && post.category@ == old(desc).category@
                            + category_collect(
                            annot.attributes@,
                            0,
                            annot.attributes@.len() as int + 1,
                        )
                    } else {
                        post == *old(desc)
                    }
                } else {
                    post == *old(desc)
                }
            }),
    {
        let name_opt = class_name_map.get(&annot.class_id);
        match name_opt {
            Some(nm) => {
                let nm_str = rc_str_as_str(nm);
                if str_eq(nm_str, "jdk.jfr.Label") {
                    desc.label = annot.attribute_cloned("value");
                } else if str_eq(nm_str, "jdk.jfr.Description") {
                    desc.description = annot.attribute_cloned("value");
                } else if str_eq(nm_str, "jdk.jfr.Experimental") {
                    desc.experimental = true;
                } else if str_eq(nm_str, "jdk.jfr.Category") {
                    let ghost attrs = annot.attributes@;
                    let ghost cat0 = desc.category@;
                    let bound = annot.attributes.len();
                    let mut idx: usize = 0;
                    loop
                        invariant_except_break
                            desc.category@.len() == cat0.len() + idx,
                            category_collect(attrs, 0, bound as int + 1) =~= desc.category@.skip(
                                cat0.len() as int,
                            ) + category_collect(attrs, idx as int, bound as int + 1 - idx),
                        invariant
                            idx <= bound,
                            bound == attrs.len(),
                            annot.attributes@ == attrs,
                            desc.category@.take(cat0.len() as int) =~= cat0,
                            desc.class_id == old(desc).class_id,
                            desc.name == old(desc).name,
                            desc.super_type == old(desc).super_type,
                            desc.simple_type == old(desc).simple_type,
                            desc.fields == old(desc).fields,
                            desc.label == old(desc).label,
                            desc.description == old(desc).description,
                            desc.experimental == old(desc).experimental,
                            cat0 == old(desc).category@,
                        ensures
                            desc.category@ =~= cat0 + category_collect(attrs, 0, bound as int + 1),
                        decreases bound - idx,
                    {
                        let key = value_index_key(idx);
                        let ghost cat_pre = desc.category@;
                        match annot.attribute(key.as_str()) {
                            Some(v) => {
                                desc.category.push(rc_str_clone(v));
                                proof {
                                    assert(category_collect(attrs, idx as int, bound as int + 1 - idx)
                                        =~= seq![*v] + category_collect(
                                        attrs,
                                        idx + 1,
                                        bound - idx,
                                    ));
                                    assert(desc.category@.skip(cat0.len() as int) =~= cat_pre.skip(
                                        cat0.len() as int,
                                    ).push(*v));
                                    assert(desc.category@.take(cat0.len() as int) =~= cat0);
                                    assert(category_collect(attrs, 0, bound as int + 1)
                                        =~= desc.category@.skip(cat0.len() as int)
                                        + category_collect(attrs, idx + 1, bound - idx));
                                }
                            },
                            None => {
                                proof {
                                    assert(category_collect(attrs, idx as int, bound as int + 1 - idx)
                                        =~= Seq::<Rc<String>>::empty());
                                    assert(desc.category@ =~= cat0 + desc.category@.skip(
                                        cat0.len() as int,
                                    ));
                                }
                                break ;
                            },
                        }
                        if idx == bound {
                            proof {
                                assert(category_collect(attrs, idx + 1, 0) =~= Seq::<
                                    Rc<String>,
                                >::empty());
                                assert(desc.category@ =~= cat0 + desc.category@.skip(
                                    cat0.len() as int,
                                ));
                            }
                            break ;
                        }
                        idx = idx + 1;
                    }
                }
            },
            None => {},
        }
        Ok(())
    }

    /// Applies one field annotation to the descriptor: label,
    /// description, flags, or a unit chosen by the annotation class and
    /// its `value` attribute.
    fn resolve_field_annotation(
        desc: &mut FieldDescriptor,
        annot: &AnnotationElement,
        class_name_map: &HashMap<i64, Rc<String>>,
    ) -> (res: Result<(), Error>)
        ensures
            res is Ok,
            ({
                let post = *final(desc);
                if class_name_map@.contains_key(annot.class_id) {
                    let nm = class_name_map@[annot.class_id]@;
                    let value = attr_lookup(annot.attributes@, "value"@);
                    if nm == "jdk.jfr.Label"@ {
                        post == FieldDescriptor { label: value, ..*old(desc) }
                    } else if nm == "jdk.jfr.Description"@ {
                        post == FieldDescriptor { description: value, ..*old(desc) }
                    } else if nm == "jdk.jfr.Experimental"@ {
                        post == FieldDescriptor { experimental: true, ..*old(desc) }
                    } else if nm == "jdk.jfr.Unsigned"@ {
                        post == FieldDescriptor { unsigned: true, ..*old(desc) }
                    } else if nm == "jdk.jfr.MemoryAmount"@ || nm == "jdk.jfr.DataAmount"@ {
                        post == FieldDescriptor { unit: Some(Unit::Byte), ..*old(desc) }
                    } else if nm == "jdk.jfr.Percentage"@ {
                        post == FieldDescriptor { unit: Some(Unit::PercentUnity), ..*old(desc) }
                    } else if nm == "jdk.jfr.MemoryAddress"@ {
                        post == FieldDescriptor { unit: Some(Unit::AddressUnity), ..*old(desc) }
                    } else if nm == "jdk.jfr.Frequency"@ {
                        post == FieldDescriptor { unit: Some(Unit::Hz), ..*old(desc) }
                    } else if nm == "jdk.jfr.Timespan"@ {
                        match value {
                            None => post == *old(desc),
                            Some(v) => if v@ == "TICKS"@ {
                                post == FieldDescriptor {
                                    tick_unit: Some(TickUnit::Timespan),
                                    ..*old(desc)
                                }
                            } else if v@ == "NANOSECONDS"@ {
                                post == FieldDescriptor {
                                    unit: Some(Unit::Nanosecond),
                                    ..*old(desc)
                                }
                            } else if v@ == "MILLISECONDS"@ {
                                post == FieldDescriptor {
                                    unit: Some(Unit::Millisecond),
                                    ..*old(desc)
                                }
                            } else if v@ == "SECONDS"@ {
                                post == FieldDescriptor { unit: Some(Unit::Second), ..*old(desc) }
                            } else {
                                post == *old(desc)
                            },
                        }
                    } else if nm == "jdk.jfr.Timestamp"@ {
                        match value {
                            None => post == *old(desc),
                            Some(v) => if v@ == "TICKS"@ {
                                post == FieldDescriptor {
                                    tick_unit: Some(TickUnit::Timestamp),
                                    ..*old(desc)
                                }
                            } else if v@ == "NANOSECONDS_SINCE_EPOCH"@ {
                                post == FieldDescriptor { unit: Some(Unit::EpochNano), ..*old(desc) }
                            } else if v@ == "MILLISECONDS_SINCE_EPOCH"@ {
                                post == FieldDescriptor {
                                    unit: Some(Unit::EpochMilli),
                                    ..*old(desc)
                                }
                            } else if v@ == "SECONDS_SINCE_EPOCH"@ {
                                post == FieldDescriptor {
                                    unit: Some(Unit::EpochSecond),
                                    ..*old(desc)
                                }
                            } else {
                                post == *old(desc)
                            },
                        }
                    } else {
                        post == *old(desc)
                    }
                } else {
                    post == *old(desc)
                }
            }),
    {
        let name_opt = class_name_map.get(&annot.class_id);
        match name_opt {
            Some(nm) => {
                let nm_str = rc_str_as_str(nm);
                if str_eq(nm_str, "jdk.jfr.Label") {
                    desc.label = annot.attribute_cloned("value");
                } else if str_eq(nm_str, "jdk.jfr.Description") {
                    desc.description = annot.attribute_cloned("value");
                } else if str_eq(nm_str, "jdk.jfr.Experimental") {
                    desc.experimental = true;
                } else if str_eq(nm_str, "jdk.jfr.Unsigned") {
                    desc.unsigned = true;
                } else if str_eq(nm_str, "jdk.jfr.MemoryAmount") || str_eq(
                    nm_str,
                    "jdk.jfr.DataAmount",
                ) {
                    desc.unit = Some(Unit::Byte);
                } else if str_eq(nm_str, "jdk.jfr.Percentage") {
                    desc.unit = Some(Unit::PercentUnity);
                } else if str_eq(nm_str, "jdk.jfr.MemoryAddress") {
                    desc.unit = Some(Unit::AddressUnity);
                } else if str_eq(nm_str, "jdk.jfr.Frequency") {
                    desc.unit = Some(Unit::Hz);
                } else if str_eq(nm_str, "jdk.jfr.Timespan") {
                    match annot.attribute("value") {
                        Some(v) => {
                            let vs = rc_str_as_str(v);
                            if str_eq(vs, "TICKS") {
                                desc.tick_unit = Some(TickUnit::Timespan);
                            } else if str_eq(vs, "NANOSECONDS") {
                                desc.unit = Some(Unit::Nanosecond);
                            } else if str_eq(vs, "MILLISECONDS") {
                                desc.unit = Some(Unit::Millisecond);
                            } else if str_eq(vs, "SECONDS") {
                                desc.unit = Some(Unit::Second);
                            }
                        },
                        None => {},
                    }
                } else if str_eq(nm_str, "jdk.jfr.Timestamp") {
                    match annot.attribute("value") {
                        Some(v) => {
                            let vs = rc_str_as_str(v);
                            if str_eq(vs, "TICKS") {
                                desc.tick_unit = Some(TickUnit::Timestamp);
                            } else if str_eq(vs, "NANOSECONDS_SINCE_EPOCH") {
                                desc.unit = Some(Unit::EpochNano);
                            } else if str_eq(vs, "MILLISECONDS_SINCE_EPOCH") {
                                desc.unit = Some(Unit::EpochMilli);
                            } else if str_eq(vs, "SECONDS_SINCE_EPOCH") {
                                desc.unit = Some(Unit::EpochSecond);
                            }
                        },
                        None => {},
                    }
                }
            },
            None => {},
        }
        Ok(())
    }

    /// Reads the metadata event the header points at and declares the
    /// chunk's types.  The event must carry the reserved metadata type id.
    pub fn try_new(stream: &mut ByteStream, header: &ChunkHeader) -> (res: Result<Metadata, Error>)
        ensures
            final(stream).bytes() == old(stream).bytes(),
            final(stream).mode() == old(stream).mode(),
            res matches Err(e) ==> !(e is UnsupportedVersion) && !(e is DeserializeError),
            ({
                let s = old(stream).bytes();
                let mode = old(stream).mode();
                let off = (header.metadata_offset as usize) as int;
                match i32_parse(mode, s, off) {
                    None => res matches Err(Error::IoError(IoErrorKind::UnexpectedEof)),
                    Some(sz) => match i64_parse(mode, s, sz.1) {
                        None => res matches Err(Error::IoError(IoErrorKind::UnexpectedEof)),
                        Some(ty) => if ty.0 != EVENT_TYPE_METADATA {
                            res matches Err(e) && e is InvalidFormat
                        } else {
                            match i64_parse(mode, s, ty.1) {
                                None => res matches Err(Error::IoError(
                                    IoErrorKind::UnexpectedEof,
                                )),
                                Some(t1) => match i64_parse(mode, s, t1.1) {
                                    None => res matches Err(Error::IoError(
                                        IoErrorKind::UnexpectedEof,
                                    )),
                                    Some(t2) => match i64_parse(mode, s, t2.1) {
                                        None => res matches Err(Error::IoError(
                                            IoErrorKind::UnexpectedEof,
                                        )),
                                        Some(t3) => match crate::reader::type_descriptor::table_parse(
                                            mode,
                                            s,
                                            t3.1,
                                        ) {
                                            crate::reader::type_descriptor::TableParse::Eof => res matches Err(
                                                Error::IoError(IoErrorKind::UnexpectedEof),
                                            ),
                                            crate::reader::type_descriptor::TableParse::Bad => res matches Err(
                                                Error::InvalidString,
                                            ),
                                            crate::reader::type_descriptor::TableParse::Val(
                                                _,
                                                _,
                                            ) => true,
                                        },
                                    },
                                },
                            }
                        },
                    },
                }
            }),
    {
        stream.seek(#[verifier::truncate] (header.metadata_offset as usize));
        // event size, unused
        match stream.read_i32() {
            Ok(_) => {},
            Err(e) => {
                return Err(e);
            },
        }
        let event_type = match stream.read_i64() {
            Ok(v) => v,
            Err(e) => {
                return Err(e);
            },
        };
        if event_type != EVENT_TYPE_METADATA {
            return Err(Error::InvalidFormat);
        }
        // start time
        match stream.read_i64() {
            Ok(_) => {},
            Err(e) => {
                return Err(e);
            },
        }
        // duration
        match stream.read_i64() {
            Ok(_) => {},
            Err(e) => {
                return Err(e);
            },
        }
        // metadata id
        match stream.read_i64() {
            Ok(_) => {},
            Err(e) => {
                return Err(e);
            },
        }
        let string_table = match StringTable::try_new(stream) {
            Ok(t) => t,
            Err(e) => {
                return Err(e);
            },
        };
        let type_pool = match Self::read_types(stream, &string_table) {
            Ok(p) => p,
            Err(e) => {
                return Err(e);
            },
        };
        Ok(Metadata { type_pool })
    }

    /// Reads the element tree and declares the types it describes.
    fn read_types(stream: &mut ByteStream, string_table: &StringTable) -> (res: Result<
        TypePool,
        Error,
    >)
        ensures
            final(stream).bytes() == old(stream).bytes(),
            final(stream).mode() == old(stream).mode(),
            res matches Err(e) ==> !(e is UnsupportedVersion) && !(e is DeserializeError),
    {
        let mut class_name_map: HashMap<i64, Rc<String>> = HashMap::new();
        // the root element's own name is consumed and ignored
        match stream.read_i32() {
            Ok(_) => {},
            Err(e) => {
                return Err(e);
            },
        }
        let root = ElementType::Root(RootElement { metadata: None, region: None });
        let root_element = match Self::read_element(stream, string_table, &mut class_name_map, root)
            {
            Ok(e) => e,
            Err(e) => {
                return Err(e);
            },
        };
        match root_element {
            ElementType::Root(root) => Self::declare_types(root, class_name_map),
            _ => Err(Error::InvalidFormat),
        }
    }

    /// Reads one element: its attributes, then its children, recursively.
    /// Class names seen on the way are recorded for annotation
    /// resolution.  The result is the given element, filled.
    fn read_element(
        stream: &mut ByteStream,
        string_table: &StringTable,
        class_name_map: &mut HashMap<i64, Rc<String>>,
        current_element: ElementType,
    ) -> (res: Result<ElementType, Error>)
        ensures
            final(stream).bytes() == old(stream).bytes(),
            final(stream).mode() == old(stream).mode(),
            res matches Err(e) ==> !(e is UnsupportedVersion) && !(e is DeserializeError),
            res matches Ok(e) ==> (same_kind(e, current_element) && old(stream).position()
                < final(stream).position() <= old(stream).bytes().len()),
        decreases stream.bytes().len() - stream.position(),
    {
        let ghost s = stream.bytes();
        let ghost mode = stream.mode();
        let ghost p_entry = stream.position();
        let mut current_element = current_element;
        let ghost kind0 = current_element;
        let attribute_count = match stream.read_i32() {
            Ok(c) => c,
            Err(e) => {
                return Err(e);
            },
        };
        proof {
            crate::reader::byte_reader::lemma_i32_parse_bounds(mode, s, p_entry);
        }
        let n_attr: usize = if attribute_count >= 0 {
            attribute_count as usize
        } else {
            0
        };
        let mut i: usize = 0;
        while i < n_attr
            invariant
                s == old(stream).bytes(),
                mode == old(stream).mode(),
                p_entry == old(stream).position(),
                stream.bytes() == s,
                stream.mode() == mode,
                i <= n_attr,
                p_entry < stream.position() <= s.len(),
                same_kind(current_element, kind0),
            decreases n_attr - i,
        {
            let ghost p0 = stream.position();
            let key_idx = match stream.read_i32() {
                Ok(v) => v,
                Err(e) => {
                    return Err(e);
                },
            };
            proof {
                crate::reader::byte_reader::lemma_i32_parse_bounds(mode, s, p0);
            }
            let key = match string_table.get(key_idx) {
                Ok(k) => rc_str_clone(k),
                Err(e) => {
                    return Err(e);
                },
            };
            let ghost p1 = stream.position();
            let value_idx = match stream.read_i32() {
                Ok(v) => v,
                Err(e) => {
                    return Err(e);
                },
            };
            proof {
                crate::reader::byte_reader::lemma_i32_parse_bounds(mode, s, p1);
            }
            let value = match string_table.get(value_idx) {
                Ok(v) => rc_str_clone(v),
                Err(e) => {
                    return Err(e);
                },
            };
            match current_element.set_attribute(&key, &value) {
                Ok(_) => {},
                Err(e) => {
                    return Err(e);
                },
            }
            i = i + 1;
        }
        // class names are resolved from the attributes just read
        match &current_element {
            ElementType::Class(c) => match (c.class_id, &c.type_identifier) {
                (Some(id), Some(name)) => {
                    class_name_map.insert(id, rc_str_clone(name));
                },
                _ => {},
            },
            _ => {},
        }
        let ghost p_children = stream.position();
        let children_count = match stream.read_i32() {
            Ok(c) => c,
            Err(e) => {
                return Err(e);
            },
        };
        proof {
            crate::reader::byte_reader::lemma_i32_parse_bounds(mode, s, p_children);
        }
        let n_children: usize = if children_count >= 0 {
            children_count as usize
        } else {
            0
        };
        let mut k: usize = 0;
        while k < n_children
            invariant
                s == old(stream).bytes(),
                mode == old(stream).mode(),
                p_entry == old(stream).position(),
                stream.bytes() == s,
                stream.mode() == mode,
                k <= n_children,
                p_entry < stream.position() <= s.len(),
                same_kind(current_element, kind0),
            decreases n_children - k,
        {
            let ghost p0 = stream.position();
            let name_idx = match stream.read_i32() {
                Ok(v) => v,
                Err(e) => {
                    return Err(e);
                },
            };
            proof {
                crate::reader::byte_reader::lemma_i32_parse_bounds(mode, s, p0);
            }
            let name = match string_table.get(name_idx) {
                Ok(n) => n,
                Err(e) => {
                    return Err(e);
                },
            };
            let element = match ElementType::try_new(rc_str_as_str(name)) {
                Ok(e) => e,
                Err(e) => {
                    return Err(e);
                },
            };
            let child = match Self::read_element(stream, string_table, class_name_map, element) {
                Ok(c) => c,
                Err(e) => {
                    return Err(e);
                },
            };
            current_element.append_child(child);
            k = k + 1;
        }
        Ok(current_element)
    }

    /// Declares one [`TypeDescriptor`] per class element, in order, so a
    /// repeated class id keeps the last declaration.  Annotation-derived
    /// attributes are resolved as [`Self::resolve_class_annotation`] and
    /// [`Self::resolve_field_annotation`] state.
    #[verifier::rlimit(60)]
    pub fn declare_types(root_element: RootElement, class_name_map: HashMap<i64, Rc<String>>) -> (res:
        Result<TypePool, Error>)
        ensures
            res is Ok <==> all_complete(classes_of(root_element)),
            res matches Err(e) ==> e is InvalidFormat,
            res matches Ok(pool) ==> pool_declares(pool@, classes_of(root_element)),
    {
        let mut pool = TypePool::default();
        let classes = match root_element.metadata {
            Some(m) => m.classes,
            None => {
                proof {
                    assert(classes_of(root_element) =~= Seq::<ClassElement>::empty());
                    assert(all_complete(classes_of(root_element)));
                    assert(pool_declares(pool@, classes_of(root_element)));
                }
                return Ok(pool);
            },
        };
        let ghost cseq = classes@;
        let mut t: usize = 0;
        while t < classes.len()
            invariant
                cseq == classes_of(root_element),
                cseq == classes@,
                t <= cseq.len(),
                forall|i: int| 0 <= i < t ==> class_complete(#[trigger] cseq[i]),
                forall|i: int|
                    0 <= i < t ==> pool@.contains_key(declared_id(#[trigger] cseq[i])),
                forall|i: int|
                    0 <= i < t && (forall|j: int|
                        i < j < t ==> (#[trigger] cseq[j]).class_id != cseq[i].class_id)
                        ==> class_corresponds(pool@[declared_id(#[trigger] cseq[i])], cseq[i]),
            decreases cseq.len() - t,
        {
            let class_element = &classes[t];
            let class_id = match class_element.class_id {
                Some(id) => id,
                None => {
                    proof {
                        assert(!class_complete(cseq[t as int]));
                        assert(!all_complete(classes_of(root_element)));
                    }
                    return Err(Error::InvalidFormat);
                },
            };
            let name = match &class_element.type_identifier {
                Some(n) => rc_str_clone(n),
                None => {
                    proof {
                        assert(!class_complete(cseq[t as int]));
                        assert(!all_complete(classes_of(root_element)));
                    }
                    return Err(Error::InvalidFormat);
                },
            };
            let super_type = match &class_element.super_type {
                Some(st) => Some(rc_str_clone(st)),
                None => None,
            };
            let simple_type = match class_element.simple_type {
                Some(b) => b,
                None => false,
            };
            let mut desc = TypeDescriptor {
                class_id,
                name,
                super_type,
                simple_type,
                fields: Vec::new(),
                label: None,
                description: None,
                experimental: false,
                category: Vec::new(),
            };
            let mut a: usize = 0;
            while a < class_element.annotations.len()
                invariant
                    cseq == classes_of(root_element),
                    cseq == classes@,
                    t < cseq.len(),
                    class_element == &cseq[t as int],
                    a <= class_element.annotations@.len(),
                    cseq[t as int].class_id == Some(desc.class_id),
                    cseq[t as int].type_identifier matches Some(n) && desc.name == n,
                    desc.super_type == cseq[t as int].super_type,
                    desc.simple_type == (cseq[t as int].simple_type == Some(true)),
                    desc.fields@.len() == 0,
                decreases class_element.annotations@.len() - a,
            {
                match Self::resolve_class_annotation(&mut desc, &class_element.annotations[a], &class_name_map) {
                    Ok(_) => {},
                    Err(e) => {
                        return Err(e);
                    },
                }
                a = a + 1;
            }
            let mut f: usize = 0;
            while f < class_element.fields.len()
                invariant
                    cseq == classes_of(root_element),
                    cseq == classes@,
                    t < cseq.len(),
                    class_element == &cseq[t as int],
                    f <= class_element.fields@.len(),
                    cseq[t as int].class_id == Some(desc.class_id),
                    cseq[t as int].type_identifier matches Some(n) && desc.name == n,
                    desc.super_type == cseq[t as int].super_type,
                    desc.simple_type == (cseq[t as int].simple_type == Some(true)),
                    desc.fields@.len() == f,
                    forall|i: int|
                        0 <= i < f ==> (#[trigger] cseq[t as int].fields@[i]).field_identifier
                            is Some && (#[trigger] cseq[t as int].fields@[i]).class_id is Some,
                    forall|i: int|
                        0 <= i < f ==> field_corresponds(
                            #[trigger] desc.fields@[i],
                            cseq[t as int].fields@[i],
                        ),
                decreases class_element.fields@.len() - f,
            {
                let field = &class_element.fields[f];
                let field_class_id = match field.class_id {
                    Some(id) => id,
                    None => {
                        proof {
                            assert(cseq[t as int].fields@[f as int].class_id is None);
                            assert(!class_complete(cseq[t as int]));
                            assert(!all_complete(classes_of(root_element)));
                        }
                        return Err(Error::InvalidFormat);
                    },
                };
                let field_name = match &field.field_identifier {
                    Some(n) => rc_str_clone(n),
                    None => {
                        proof {
                            assert(cseq[t as int].fields@[f as int].field_identifier is None);
                            assert(!class_complete(cseq[t as int]));
                            assert(!all_complete(classes_of(root_element)));
                        }
                        return Err(Error::InvalidFormat);
                    },
                };
                let constant_pool = match field.constant_pool {
                    Some(b) => b,
                    None => false,
                };
                let dimension = match field.dimension {
                    Some(d) => d,
                    None => 0,
                };
                let mut field_desc = FieldDescriptor {
                    class_id: field_class_id,
                    name: field_name,
                    label: None,
                    description: None,
                    experimental: false,
                    constant_pool,
                    array_type: dimension > 0,
                    unsigned: false,
                    unit: None,
                    tick_unit: None,
                };
                let mut fa: usize = 0;
                while fa < field.annotations.len()
                    invariant
                        cseq == classes_of(root_element),
                        cseq == classes@,
                        t < cseq.len(),
                        class_element == &cseq[t as int],
                        f < class_element.fields@.len(),
                        field == &cseq[t as int].fields@[f as int],
                        fa <= field.annotations@.len(),
                        field_corresponds(field_desc, cseq[t as int].fields@[f as int]),
                    decreases field.annotations@.len() - fa,
                {
                    match Self::resolve_field_annotation(&mut field_desc, &field.annotations[fa], &class_name_map) {
                        Ok(_) => {},
                        Err(e) => {
                            return Err(e);
                        },
                    }
                    fa = fa + 1;
                }
                desc.fields.push(field_desc);
                f = f + 1;
            }
            pool.register(class_id, desc);
            t = t + 1;
        }
        proof {
            assert(all_complete(cseq));
            assert forall|i: int|
                0 <= i < cseq.len() && last_declaration(cseq, i) implies class_corresponds(
                pool@[declared_id(#[trigger] cseq[i])],
                cseq[i],
            ) by {
                assert(forall|j: int|
                    i < j < cseq.len() ==> (#[trigger] cseq[j]).class_id != cseq[i].class_id);
            }
            assert(pool_declares(pool@, cseq));
        }
        Ok(pool)
    }
}

} // verus!
