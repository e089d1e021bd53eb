//! Lazy cursor over a chunk's event region, and navigation handles over
//! decoded values.
//!
//! Events are yielded in byte-offset order.  The two reserved event
//! types (metadata and constant pool) never reach the caller.

use vstd::prelude::*;

use crate::reader::byte_reader::{ByteReader, i32_parse, i64_parse};
use crate::reader::type_descriptor::TypeDescriptor;
use crate::reader::value_descriptor::{
    VALUE_DECODE_DEPTH_LIMIT, VScan, ValueDescriptor, value_field_lookup, value_parses_to,
    value_scan, value_wf,
};
use crate::reader::{CHUNK_HEADER_SIZE, Chunk, ChunkReader, Error, IoErrorKind};
use crate::{EVENT_TYPE_CONSTANT_POOL, EVENT_TYPE_METADATA};

verus! {

/// Outcome of scanning the event region from a body offset: the end of
/// the region, the first user-visible event, or the first failure.
pub enum EventScan {
    /// The offset reached the body size: iteration is over.
    End,
    /// The bytes ran out: `Error::IoError(UnexpectedEof)`.
    Eof,
    /// A string payload was invalid: `Error::InvalidString`.
    Bad,
    /// A code unit that is no character: `Error::InvalidChar`.
    BadChar(u32),
    /// A class id with no descriptor: `Error::ClassNotFound`.
    Unknown(i64),
    /// A record that cannot advance the cursor, or a value nested too
    /// deeply: `Error::InvalidFormat`.
    Invalid,
    /// A user-visible event: its class id, where its value starts and
    /// ends, and the body offset of the next record.
    Found(i64, int, int, int),
}

/// Scans records from `offset`, skipping the reserved metadata and
/// constant-pool events by their size fields, until the first
/// user-visible event, a failure, or the end of the body at `end`.
pub open spec fn events_scan(
    mode: ByteReader,
    s: Seq<u8>,
    offset: int,
    end: int,
    types: Map<i64, crate::reader::type_descriptor::TypeDescriptor>,
) -> EventScan
    decreases (if offset < end {
        end - offset
    } else {
        0int
    }),
{
    if offset >= end {
        EventScan::End
    } else if CHUNK_HEADER_SIZE + offset > u64::MAX {
        EventScan::Invalid
    } else {
        match i32_parse(mode, s, CHUNK_HEADER_SIZE + offset) {
            None => EventScan::Eof,
            Some(sz) => match i64_parse(mode, s, sz.1) {
                None => EventScan::Eof,
                Some(ty) => if sz.0 <= 0 {
                    EventScan::Invalid
                } else if offset + sz.0 > u64::MAX {
                    EventScan::Invalid
                } else if ty.0 == EVENT_TYPE_METADATA || ty.0 == EVENT_TYPE_CONSTANT_POOL {
                    events_scan(mode, s, offset + sz.0, end, types)
                } else if !types.contains_key(ty.0) {
                    EventScan::Unknown(ty.0)
                } else {
                    match value_scan(mode, s, ty.1, types, ty.0, VALUE_DECODE_DEPTH_LIMIT as int) {
                        VScan::Done(vend) => EventScan::Found(ty.0, ty.1, vend, offset + sz.0),
                        VScan::Eof => EventScan::Eof,
                        VScan::Bad => EventScan::Bad,
                        VScan::BadChar(c) => EventScan::BadChar(c),
                        VScan::Unknown(id) => EventScan::Unknown(id),
                        VScan::Deep => EventScan::Invalid,
                    }
                },
            },
        }
    }
}

/// One decoded event: the id of its class and its value tree.
pub struct Event {
    pub class_id: i64,
    pub value: ValueDescriptor,
}

impl Event {
    /// The event's type descriptor in the chunk that yielded it.
    pub fn class<'a>(&self, chunk: &'a Chunk) -> (res: Option<&'a TypeDescriptor>)
        ensures
            match res {
                Some(d) => chunk.metadata.type_pool@.contains_key(self.class_id) && *d
                    == chunk.metadata.type_pool@[self.class_id],
                None => !chunk.metadata.type_pool@.contains_key(self.class_id),
            },
    {
        chunk.metadata.type_pool.get(self.class_id)
    }

    /// A navigation handle over the event's value tree.
    pub fn value<'a>(&'a self, chunk: &'a Chunk) -> (res: Accessor<'a>)
        ensures
            res.value == &self.value,
            res.chunk == chunk,
    {
        Accessor { chunk, value: &self.value }
    }
}

/// Navigation handle over a value tree, resolving constant-pool
/// references one level at a time.
pub struct Accessor<'a> {
    pub chunk: &'a Chunk,
    pub value: &'a ValueDescriptor,
}

impl<'a> Accessor<'a> {
    pub fn new(chunk: &'a Chunk, value: &'a ValueDescriptor) -> (res: Accessor<'a>)
        ensures
            res.chunk == chunk,
            res.value == value,
    {
        Accessor { chunk, value }
    }

    /// Resolves one level of constant-pool indirection; a value that is
    /// not a reference is handed back as it is.  `None` when the pool has
    /// no entry for the reference.
    pub fn get_resolved(&self) -> (res: Option<Accessor<'a>>)
        ensures
            match *self.value {
                ValueDescriptor::ConstantPool { class_id, constant_index } => match res {
                    Some(a) => a.chunk == self.chunk && self.chunk.constant_pool@.contains_key(
                        class_id,
                    ) && self.chunk.constant_pool@[class_id].contains_key(constant_index) && *a.value
                        == self.chunk.constant_pool@[class_id][constant_index],
                    None => !(self.chunk.constant_pool@.contains_key(class_id)
                        && self.chunk.constant_pool@[class_id].contains_key(constant_index)),
                },
                _ => res matches Some(a) && a.chunk == self.chunk && a.value == self.value,
            },
    {
        match self.value {
            ValueDescriptor::ConstantPool { class_id, constant_index } => {
                match self.chunk.constant_pool.get(*class_id, *constant_index) {
                    Some(v) => Some(Accessor { chunk: self.chunk, value: v }),
                    None => None,
                }
            },
            _ => Some(Accessor { chunk: self.chunk, value: self.value }),
        }
    }

    /// Navigates to a named field, resolving the value through the
    /// constant pool as [`ValueDescriptor::get_field`] states.
    pub fn get_field(&self, name: &str) -> (res: Option<Accessor<'a>>)
        ensures
            match res {
                Some(a) => a.chunk == self.chunk && value_field_lookup(
                    *self.value,
                    name@,
                    self.chunk.metadata.type_pool@,
                    self.chunk.constant_pool@,
                ) == Some(*a.value),
                None => value_field_lookup(
                    *self.value,
                    name@,
                    self.chunk.metadata.type_pool@,
                    self.chunk.constant_pool@,
                ) is None,
            },
    {
        match self.value.get_field(name, self.chunk) {
            Some(v) => Some(Accessor { chunk: self.chunk, value: v }),
            None => None,
        }
    }

    /// The elements of an array value, one accessor each; a reference is
    /// first resolved through the pool.  `None` when the value is not an
    /// array.
    pub fn as_vec(&self) -> (res: Option<Vec<Accessor<'a>>>)
        ensures
            ({
                let resolved = match *self.value {
                    ValueDescriptor::ConstantPool { class_id, constant_index } => {
                        if self.chunk.constant_pool@.contains_key(class_id)
                            && self.chunk.constant_pool@[class_id].contains_key(constant_index) {
                            Some(self.chunk.constant_pool@[class_id][constant_index])
                        } else {
                            None
                        }
                    },
                    v => Some(v),
                };
                match resolved {
                    Some(ValueDescriptor::Array(a)) => res matches Some(v) && v@.len() == a@.len()
                        && (forall|i: int|
                        0 <= i < v@.len() ==> (#[trigger] v@[i]).chunk == self.chunk
                            && *v@[i].value == a@[i]),
                    _ => res is None,
                }
            }),
    {
        let array: &Vec<ValueDescriptor> = match self.value {
            ValueDescriptor::Array(a) => a,
            ValueDescriptor::ConstantPool { class_id, constant_index } => {
                match self.chunk.constant_pool.get(*class_id, *constant_index) {
                    Some(ValueDescriptor::Array(a)) => a,
                    _ => {
                        return None;
                    },
                }
            },
            _ => {
                return None;
            },
        };
        let mut out: Vec<Accessor<'a>> = Vec::new();
        let mut i: usize = 0;
        while i < array.len()
            invariant
                i <= array@.len(),
                out@.len() == i,
                forall|j: int|
                    0 <= j < i ==> (#[trigger] out@[j]).chunk == self.chunk && *out@[j].value
                        == array@[j],
            decreases array@.len() - i,
        {
            out.push(Accessor { chunk: self.chunk, value: &array[i] });
            i = i + 1;
        }
        Some(out)
    }
}

/// Cursor over the event region of one chunk body.  After the first
/// error item the cursor is done and yields nothing further.
pub struct EventIterator {
    pub offset: u64,
    pub done: bool,
}

impl EventIterator {
    pub fn new() -> (r: EventIterator)
        ensures
            r.offset == 0,
            !r.done,
    {
        EventIterator { offset: 0, done: false }
    }

    /// Repositions the cursor at a body offset, re-seeding it: a done
    /// cursor becomes live again from the given offset.
    pub fn seek(&mut self, offset: u64)
        ensures
            final(self).offset == offset,
            !final(self).done,
    {
        self.offset = offset;
        self.done = false;
    }

    /// Decodes the next user-visible event of the chunk.  Events come in
    /// byte-offset order; the reserved metadata and constant-pool events
    /// are skipped.  `None` once the cursor has passed the chunk body or
    /// an earlier call surfaced an error item.
    pub fn next(&mut self, reader: &mut ChunkReader, chunk: &Chunk) -> (res: Option<
        Result<Event, Error>,
    >)
        requires
            chunk.header.wf(),
        ensures
            final(reader).bytes() == old(reader).bytes(),
            final(reader).mode() == old(reader).mode(),
            old(self).done ==> res is None && *final(self) == *old(self),
            res matches Some(r) ==> !old(self).done && (r is Err <==> final(self).done),
            res matches Some(r) ==> (r matches Ok(ev) ==> (ev.class_id != EVENT_TYPE_METADATA
                && ev.class_id != EVENT_TYPE_CONSTANT_POOL && value_wf(
                ev.value,
                chunk.metadata.type_pool@,
            ) && final(self).offset > old(self).offset)),
            res is None ==> old(self).done || final(self).offset >= chunk.header.chunk_size
                - CHUNK_HEADER_SIZE,
            !old(self).done ==> ({
                let mode = old(reader).mode();
                let s = old(reader).bytes();
                let types = chunk.metadata.type_pool@;
                let end = chunk.header.chunk_size - CHUNK_HEADER_SIZE;
                match events_scan(mode, s, old(self).offset as int, end, types) {
                    EventScan::End => res is None,
                    EventScan::Found(cid, vpos, vend, next) => res matches Some(r) && (r matches Ok(
                        ev,
                    ) && ev.class_id == cid && value_parses_to(
                        mode,
                        s,
                        vpos,
                        types,
                        cid,
                        VALUE_DECODE_DEPTH_LIMIT as int,
                        ev.value,
                        vend,
                    )) && final(self).offset == next,
                    EventScan::Eof => res matches Some(r) && (r matches Err(e) && e
                        == Error::IoError(IoErrorKind::UnexpectedEof)),
                    EventScan::Bad => res matches Some(r) && (r matches Err(e) && e
                        == Error::InvalidString),
                    EventScan::BadChar(c) => res matches Some(r) && (r matches Err(e) && e
                        == Error::InvalidChar(c)),
                    EventScan::Unknown(id) => res matches Some(r) && (r matches Err(e) && e
                        == Error::ClassNotFound(id)),
                    EventScan::Invalid => res matches Some(r) && (r matches Err(e) && e
                        == Error::InvalidFormat),
                }
            }),
    {
        if self.done {
            return None;
        }
        match self.internal_next(reader, chunk) {
            Ok(Some(e)) => Some(Ok(e)),
            Ok(None) => None,
            Err(e) => {
                self.done = true;
                Some(Err(e))
            },
        }
    }

    fn internal_next(&mut self, reader: &mut ChunkReader, chunk: &Chunk) -> (res: Result<
        Option<Event>,
        Error,
    >)
        requires
            chunk.header.wf(),
        ensures
            final(reader).bytes() == old(reader).bytes(),
            final(reader).mode() == old(reader).mode(),
            final(self).done == old(self).done,
            res matches Ok(r) ==> (r matches Some(ev) ==> (ev.class_id != EVENT_TYPE_METADATA
                && ev.class_id != EVENT_TYPE_CONSTANT_POOL && value_wf(
                ev.value,
                chunk.metadata.type_pool@,
            ) && final(self).offset > old(self).offset)),
            res matches Ok(r) ==> (r is None ==> final(self).offset >= chunk.header.chunk_size
                - CHUNK_HEADER_SIZE),
            ({
                let mode = old(reader).mode();
                let s = old(reader).bytes();
                let types = chunk.metadata.type_pool@;
                let end = chunk.header.chunk_size - CHUNK_HEADER_SIZE;
                match events_scan(mode, s, old(self).offset as int, end, types) {
                    EventScan::End => res matches Ok(r) && r is None,
                    EventScan::Found(cid, vpos, vend, next) => res matches Ok(r) && (r matches Some(
                        ev,
                    ) && ev.class_id == cid && value_parses_to(
                        mode,
                        s,
                        vpos,
                        types,
                        cid,
                        VALUE_DECODE_DEPTH_LIMIT as int,
                        ev.value,
                        vend,
                    )) && final(self).offset == next,
                    EventScan::Eof => res matches Err(e) && e == Error::IoError(
                        IoErrorKind::UnexpectedEof,
                    ),
                    EventScan::Bad => res matches Err(e) && e == Error::InvalidString,
                    EventScan::BadChar(c) => res matches Err(e) && e == Error::InvalidChar(c),
                    EventScan::Unknown(id) => res matches Err(e) && e == Error::ClassNotFound(id),
                    EventScan::Invalid => res matches Err(e) && e == Error::InvalidFormat,
                }
            }),
    {
        let ghost mode = reader.mode();
        let ghost s = reader.bytes();
        let ghost types = chunk.metadata.type_pool@;
        let ghost offset0 = self.offset as int;
        let end_offset = chunk.header.chunk_body_size();
        while self.offset < end_offset
            invariant
                chunk.header.wf(),
                mode == old(reader).mode(),
                s == old(reader).bytes(),
                types == chunk.metadata.type_pool@,
                offset0 == old(self).offset as int,
                end_offset == chunk.header.chunk_size - CHUNK_HEADER_SIZE,
                self.offset >= old(self).offset,
                self.done == old(self).done,
                reader.bytes() == s,
                reader.mode() == mode,
                events_scan(mode, s, offset0, end_offset as int, types) == events_scan(
                    mode,
                    s,
                    self.offset as int,
                    end_offset as int,
                    types,
                ),
            decreases
                    (if self.offset < end_offset {
                        end_offset - self.offset
                    } else {
                        0int
                    }),
        {
            let ghost off = self.offset as int;
            let _data_len = reader.stream.data_len();
            let body_pos = chunk.header.body_start_offset().checked_add(self.offset);
            let seek_to = match body_pos {
                Some(p) => p,
                None => {
                    proof {
                        assert(events_scan(mode, s, off, end_offset as int, types)
                            == EventScan::Invalid);
                    }
                    return Err(Error::InvalidFormat);
                },
            };
            let seek_clamped: usize = if seek_to <= usize::MAX as u64 {
                #[verifier::truncate] (seek_to as usize)
            } else {
                usize::MAX
            };
            reader.stream.seek(seek_clamped);
            let size = match reader.stream.read_i32() {
                Ok(v) => v,
                Err(e) => {
                    proof {
                        assert(events_scan(mode, s, off, end_offset as int, types)
                            == EventScan::Eof);
                    }
                    return Err(e);
                },
            };
            let event_type = match reader.stream.read_i64() {
                Ok(v) => v,
                Err(e) => {
                    proof {
                        assert(events_scan(mode, s, off, end_offset as int, types)
                            == EventScan::Eof);
                    }
                    return Err(e);
                },
            };
            if size <= 0 {
                // a non-positive size cannot advance the cursor
                proof {
                    assert(events_scan(mode, s, off, end_offset as int, types)
                        == EventScan::Invalid);
                }
                return Err(Error::InvalidFormat);
            }
            self.offset = match self.offset.checked_add(size as u64) {
                Some(o) => o,
                None => {
                    proof {
                        assert(events_scan(mode, s, off, end_offset as int, types)
                            == EventScan::Invalid);
                    }
                    return Err(Error::InvalidFormat);
                },
            };
            if event_type == EVENT_TYPE_METADATA || event_type == EVENT_TYPE_CONSTANT_POOL {
                proof {
                    assert(events_scan(mode, s, off, end_offset as int, types) == events_scan(
                        mode,
                        s,
                        self.offset as int,
                        end_offset as int,
                        types,
                    ));
                }
                continue ;
            }
            if chunk.metadata.type_pool.get(event_type).is_none() {
                proof {
                    assert(events_scan(mode, s, off, end_offset as int, types)
                        == EventScan::Unknown(event_type));
                }
                return Err(Error::ClassNotFound(event_type));
            }
            let ghost vpos = reader.stream.position();
            let value = match ValueDescriptor::try_new(&mut reader.stream, event_type, &chunk.metadata) {
                Ok(v) => v,
                Err(e) => {
                    return Err(e);
                },
            };
            proof {
                assert(events_scan(mode, s, off, end_offset as int, types) matches
                    EventScan::Found(cid, vp, vend, next) && cid == event_type && vp == vpos
                    && next == self.offset as int);
            }
            return Ok(Some(Event { class_id: event_type, value }));
        }
        Ok(None)
    }
}

} // verus!
