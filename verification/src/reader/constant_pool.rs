//! The chunk's constant pool: interned values keyed by class id and
//! constant index.
//!
//! The pool is built by replaying constant-pool events.  The chunk
//! header points at the last one; each event carries a non-positive
//! delta to the one before it, and a zero delta ends the chain.

use vstd::prelude::*;

use rustc_hash::FxHashMap;

use crate::EVENT_TYPE_CONSTANT_POOL;
use crate::reader::byte_reader::{ByteReader, i32_parse, i64_parse};
use crate::reader::value_descriptor::{VALUE_DECODE_DEPTH_LIMIT, VScan, value_scan};
use crate::reader::byte_stream::ByteStream;
use crate::reader::fx_map::{fx_map_get, fx_map_insert, fx_map_len, fx_map_new, fx_map_remove};
use crate::reader::metadata::Metadata;
use crate::reader::type_descriptor::TypeDescriptor;
use crate::reader::value_descriptor::{ValueDescriptor, value_wf};
use crate::reader::{ChunkHeader, Error, IoErrorKind};

verus! {

/// The interned values of one class.
#[derive(Debug)]
pub struct PerTypePool {
    pub(crate) inner: FxHashMap<i64, ValueDescriptor>,
}

impl View for PerTypePool {
    type V = Map<i64, ValueDescriptor>;

    closed spec fn view(&self) -> Map<i64, ValueDescriptor> {
        self.inner@
    }
}

/// Interned values keyed by class id, then by constant index.
#[derive(Debug)]
pub struct ConstantPool {
    pub(crate) inner: FxHashMap<i64, PerTypePool>,
}

impl View for ConstantPool {
    type V = Map<i64, Map<i64, ValueDescriptor>>;

    closed spec fn view(&self) -> Map<i64, Map<i64, ValueDescriptor>> {
        self.inner@.map_values(|p: PerTypePool| p@)
    }
}

impl Default for ConstantPool {
    fn default() -> (r: Self)
        ensures
            r@ == Map::<i64, Map<i64, ValueDescriptor>>::empty(),
    {
        let inner = fx_map_new();
        proof {
            assert(inner@.map_values(|p: PerTypePool| p@) =~= Map::<
                i64,
                Map<i64, ValueDescriptor>,
            >::empty());
        }
        ConstantPool { inner }
    }
}

/// Outcome of scanning one constant-pool event, or a whole delta chain.
pub enum CpScan {
    /// The bytes ran out: `Error::IoError(UnexpectedEof)`.
    Eof,
    /// A string payload was invalid: `Error::InvalidString`.
    Bad,
    /// A code unit that is no character: `Error::InvalidChar`.
    BadChar(u32),
    /// A class id with no descriptor: `Error::ClassNotFound`.
    Unknown(i64),
    /// A wrong reserved type, a forward or overflowing delta, or a value
    /// nested too deeply: `Error::InvalidFormat`.
    Invalid,
    /// The event is well-formed; its delta field.
    Done(i64),
}

/// Scan of `cnt` pool entries of one class.
pub open spec fn cp_entries_scan(
    mode: ByteReader,
    s: Seq<u8>,
    pos: int,
    types: Map<i64, TypeDescriptor>,
    class_id: i64,
    cnt: int,
) -> VScan
    decreases cnt,
{
    if cnt <= 0 {
        VScan::Done(pos)
    } else {
        match i64_parse(mode, s, pos) {
            None => VScan::Eof,
            Some(ix) => match value_scan(
                mode,
                s,
                ix.1,
                types,
                class_id,
                VALUE_DECODE_DEPTH_LIMIT as int,
            ) {
                VScan::Done(mid) => cp_entries_scan(mode, s, mid, types, class_id, cnt - 1),
                e => e,
            },
        }
    }
}

/// Scan of `pcount` per-class pools.
pub open spec fn cp_pools_scan(
    mode: ByteReader,
    s: Seq<u8>,
    pos: int,
    types: Map<i64, TypeDescriptor>,
    pcount: int,
) -> VScan
    decreases pcount,
{
    if pcount <= 0 {
        VScan::Done(pos)
    } else {
        match i64_parse(mode, s, pos) {
            None => VScan::Eof,
            Some(cid) => match i32_parse(mode, s, cid.1) {
                None => VScan::Eof,
                Some(cc) => match cp_entries_scan(
                    mode,
                    s,
                    cc.1,
                    types,
                    cid.0,
                    (if cc.0 >= 0 {
                        cc.0 as int
                    } else {
                        0int
                    }),
                ) {
                    VScan::Done(mid) => cp_pools_scan(mode, s, mid, types, pcount - 1),
                    e => e,
                },
            },
        }
    }
}

/// Scan of one constant-pool event at absolute offset `off`: the five
/// header fields, the flush byte, then the per-class pools.
pub open spec fn cp_event_scan(
    mode: ByteReader,
    s: Seq<u8>,
    off: int,
    types: Map<i64, TypeDescriptor>,
) -> CpScan {
    match i32_parse(mode, s, off) {
        None => CpScan::Eof,
        Some(sz) => match i64_parse(mode, s, sz.1) {
            None => CpScan::Eof,
            Some(ty) => if ty.0 != EVENT_TYPE_CONSTANT_POOL {
                CpScan::Invalid
            } else {
                match i64_parse(mode, s, ty.1) {
                    None => CpScan::Eof,
                    Some(t1) => match i64_parse(mode, s, t1.1) {
                        None => CpScan::Eof,
                        Some(t2) => match i64_parse(mode, s, t2.1) {
                            None => CpScan::Eof,
                            Some(dl) => if !(0 <= dl.1 && dl.1 + 1 <= s.len()) {
                                CpScan::Eof
                            } else {
                                match i32_parse(mode, s, dl.1 + 1) {
                                    None => CpScan::Eof,
                                    Some(pc) => match cp_pools_scan(
                                        mode,
                                        s,
                                        pc.1,
                                        types,
                                        (if pc.0 >= 0 {
                                            pc.0 as int
                                        } else {
                                            0
                                        }),
                                    ) {
                                        VScan::Done(_) => CpScan::Done(dl.0),
                                        VScan::Eof => CpScan::Eof,
                                        VScan::Bad => CpScan::Bad,
                                        VScan::BadChar(c) => CpScan::BadChar(c),
                                        VScan::Unknown(id) => CpScan::Unknown(id),
                                        VScan::Deep => CpScan::Invalid,
                                    },
                                }
                            },
                        },
                    },
                }
            },
        },
    }
}

/// Scan of the whole delta chain from the loop state `(offset, delta)`.
pub open spec fn cp_chain_scan(
    mode: ByteReader,
    s: Seq<u8>,
    offset: int,
    delta: i64,
    first: bool,
    types: Map<i64, TypeDescriptor>,
) -> CpScan
    decreases (if first {
        1int
    } else {
        0int
    }), offset,
    when first || offset >= 0
{
    if delta == 0 {
        CpScan::Done(0)
    } else if !first && delta > 0 {
        CpScan::Invalid
    } else if offset + delta > i64::MAX || offset + delta < i64::MIN {
        CpScan::Invalid
    } else if offset + delta < 0 {
        CpScan::Eof
    } else {
        match cp_event_scan(mode, s, offset + delta, types) {
            CpScan::Done(d2) => cp_chain_scan(mode, s, offset + delta, d2, false, types),
            e => e,
        }
    }
}

/// Every value interned in the pool matches the schema.
pub open spec fn pool_wf(
    pool: Map<i64, Map<i64, ValueDescriptor>>,
    types: Map<i64, TypeDescriptor>,
) -> bool {
    forall|cid: i64, idx: i64|
        pool.contains_key(cid) && #[trigger] pool[cid].contains_key(idx) ==> value_wf(
            #[trigger] pool[cid][idx],
            types,
        )
}

impl ConstantPool {
    /// Follows the delta chain from the header and replays each
    /// constant-pool event; a later entry for a key shadows an earlier
    /// one.  Every value interned this way matches the schema.
    pub fn try_new(stream: &mut ByteStream, header: &ChunkHeader, metadata: &Metadata) -> (res:
        Result<ConstantPool, Error>)
        ensures
            final(stream).bytes() == old(stream).bytes(),
            final(stream).mode() == old(stream).mode(),
            res matches Ok(p) ==> pool_wf(p@, metadata.type_pool@),
            header.constant_pool_offset == 0 ==> (res matches Ok(p) && p@ =~= Map::<
                i64,
                Map<i64, ValueDescriptor>,
            >::empty()),
            header.constant_pool_offset < 0 ==> res matches Err(Error::IoError(
                IoErrorKind::UnexpectedEof,
            )),
            ({
                let mode = old(stream).mode();
                let s = old(stream).bytes();
                let types = metadata.type_pool@;
                match cp_chain_scan(mode, s, 0, header.constant_pool_offset, true, types) {
                    CpScan::Done(_) => res is Ok,
                    CpScan::Eof => res matches Err(e) && e == Error::IoError(
                        IoErrorKind::UnexpectedEof,
                    ),
                    CpScan::Bad => res matches Err(e) && e == Error::InvalidString,
                    CpScan::BadChar(c) => res matches Err(e) && e == Error::InvalidChar(c),
                    CpScan::Unknown(id) => res matches Err(e) && e == Error::ClassNotFound(id),
                    CpScan::Invalid => res matches Err(e) && e == Error::InvalidFormat,
                }
            }),
    {
        let ghost mode = stream.mode();
        let ghost s = stream.bytes();
        let ghost types = metadata.type_pool@;
        let ghost cp0 = header.constant_pool_offset;
        let mut constant_pool = ConstantPool::default();
        if header.constant_pool_offset == 0 {
            proof {
                assert(cp_chain_scan(mode, s, 0, cp0, true, types) == CpScan::Done(0));
            }
            return Ok(constant_pool);
        }
        let mut offset: i64 = 0;
        let mut delta = header.constant_pool_offset;
        let mut first: bool = true;
        while delta != 0
            invariant
                mode == old(stream).mode(),
                s == old(stream).bytes(),
                types == metadata.type_pool@,
                cp0 == header.constant_pool_offset,
                stream.bytes() == s,
                stream.mode() == mode,
                pool_wf(constant_pool@, metadata.type_pool@),
                header.constant_pool_offset != 0,
                first ==> offset == 0 && delta == header.constant_pool_offset,
                !first ==> offset >= 0 && header.constant_pool_offset >= 0,
                cp_chain_scan(mode, s, 0, cp0, true, types) == cp_chain_scan(
                    mode,
                    s,
                    offset as int,
                    delta,
                    first,
                    types,
                ),
            decreases (if first { 1int } else { 0int }), offset,
        {
            // a positive delta would walk forward and could cycle
            if !first && delta > 0 {
                proof {
                    assert(cp_chain_scan(mode, s, offset as int, delta, first, types)
                        == CpScan::Invalid);
                }
                return Err(Error::InvalidFormat);
            }
            let ghost off_pre = offset as int;
            let ghost first_pre = first;
            let next_offset = match offset.checked_add(delta) {
                Some(o) => o,
                None => {
                    proof {
                        assert(cp_chain_scan(mode, s, off_pre, delta, first_pre, types)
                            == CpScan::Invalid);
                    }
                    return Err(Error::InvalidFormat);
                },
            };
            offset = next_offset;
            if offset < 0 {
                // the chain left the chunk; the read would be past the end
                proof {
                    assert(cp_chain_scan(mode, s, off_pre, delta, first_pre, types)
                        == CpScan::Eof);
                }
                return Err(Error::IoError(IoErrorKind::UnexpectedEof));
            }
            let _data_len = stream.data_len();
            let seek_clamped: usize = if (offset as u64) <= usize::MAX as u64 {
                #[verifier::truncate] (offset as usize)
            } else {
                usize::MAX
            };
            stream.seek(seek_clamped);
            let delta_res = Self::read_constant_pool_event(stream, &mut constant_pool, metadata);
            proof {
                if seek_clamped as int != offset as int {
                    assert(s.len() <= usize::MAX);
                    assert(i32_parse(mode, s, offset as int) is None);
                    assert(i32_parse(mode, s, seek_clamped as int) is None);
                    assert(cp_event_scan(mode, s, offset as int, types) == CpScan::Eof);
                    assert(cp_event_scan(mode, s, seek_clamped as int, types) == CpScan::Eof);
                }
                assert(cp_chain_scan(mode, s, off_pre, delta, first_pre, types) == (match
                    cp_event_scan(mode, s, offset as int, types) {
                    CpScan::Done(d2) => cp_chain_scan(mode, s, offset as int, d2, false, types),
                    e => e,
                }));
            }
            delta = match delta_res {
                Ok(d) => d,
                Err(e) => {
                    return Err(e);
                },
            };
            first = false;
        }
        proof {
            assert(cp_chain_scan(mode, s, offset as int, delta, first, types) == CpScan::Done(0));
        }
        Ok(constant_pool)
    }

    /// Interns one value; an existing entry for the key is replaced.
    pub fn register(&mut self, class_id: i64, constant_index: i64, value: ValueDescriptor)
        ensures
            final(self)@ == old(self)@.insert(
                class_id,
                (if old(self)@.contains_key(class_id) {
                    old(self)@[class_id]
                } else {
                    Map::empty()
                }).insert(constant_index, value),
            ),
    {
        let mut per = match fx_map_remove(&mut self.inner, class_id) {
            Some(p) => p,
            None => {
                let inner = fx_map_new();
                proof {
                    assert(inner@ =~= Map::<i64, ValueDescriptor>::empty());
                }
                PerTypePool { inner }
            },
        };
        fx_map_insert(&mut per.inner, constant_index, value);
        let ghost per_snapshot = per@;
        fx_map_insert(&mut self.inner, class_id, per);
        proof {
            assert(self@ =~= old(self)@.insert(
                class_id,
                (if old(self)@.contains_key(class_id) {
                    old(self)@[class_id]
                } else {
                    Map::empty()
                }).insert(constant_index, value),
            ));
        }
    }

    /// The interned value for the key, if the pool holds one.  A stored
    /// value that is itself a reference is returned as it is: resolution
    /// is one level deep, so reference cycles cannot recurse.
    pub fn get(&self, class_id: i64, constant_index: i64) -> (res: Option<&ValueDescriptor>)
        ensures
            match res {
                Some(v) => self@.contains_key(class_id) && self@[class_id].contains_key(
                    constant_index,
                ) && *v == self@[class_id][constant_index],
                None => !(self@.contains_key(class_id) && self@[class_id].contains_key(
                    constant_index,
                )),
            },
    {
        match fx_map_get(&self.inner, class_id) {
            Some(per) => fx_map_get(&per.inner, constant_index),
            None => None,
        }
    }

    /// Number of classes with interned values.
    pub fn len(&self) -> (r: usize)
        ensures
            r == self@.dom().len(),
    {
        let r = fx_map_len(&self.inner);
        proof {
            assert(self@.dom() =~= self.inner@.dom());
        }
        r
    }

    /// Reads one constant-pool event at the current position and interns
    /// its entries; returns the delta to the previous event.
    #[verifier::rlimit(100)]
    #[verifier::spinoff_prover]
    fn read_constant_pool_event(
        stream: &mut ByteStream,
        constant_pool: &mut ConstantPool,
        metadata: &Metadata,
    ) -> (res: Result<i64, Error>)
        ensures
            final(stream).bytes() == old(stream).bytes(),
            final(stream).mode() == old(stream).mode(),
            pool_wf(old(constant_pool)@, metadata.type_pool@) ==> pool_wf(
                final(constant_pool)@,
                metadata.type_pool@,
            ),
            ({
                let s = old(stream).bytes();
                let mode = old(stream).mode();
                let p = old(stream).position();
                let types = metadata.type_pool@;
                match cp_event_scan(mode, s, p, types) {
                    CpScan::Done(d) => res matches Ok(rd) && rd == d,
                    CpScan::Eof => res matches Err(e) && e == Error::IoError(
                        IoErrorKind::UnexpectedEof,
                    ),
                    CpScan::Bad => res matches Err(e) && e == Error::InvalidString,
                    CpScan::BadChar(c) => res matches Err(e) && e == Error::InvalidChar(c),
                    CpScan::Unknown(id) => res matches Err(e) && e == Error::ClassNotFound(id),
                    CpScan::Invalid => res matches Err(e) && e == Error::InvalidFormat,
                }
            }),
    {
        let ghost mode = stream.mode();
        let ghost s = stream.bytes();
        let ghost p_ev = stream.position();
        let ghost types = metadata.type_pool@;
        let ghost pool0 = constant_pool@;
        // event size, unused
        match stream.read_i32() {
            Ok(_) => {},
            Err(e) => {
                return Err(e);
            },
        }
        let ghost q1 = stream.position();
        let event_type = match stream.read_i64() {
            Ok(v) => v,
            Err(e) => {
                return Err(e);
            },
        };
        let ghost q2 = stream.position();
        if event_type != EVENT_TYPE_CONSTANT_POOL {
            return Err(Error::InvalidFormat);
        }
        // start time
        match stream.read_i64() {
            Ok(_) => {},
            Err(e) => {
                return Err(e);
            },
        }
        let ghost q3 = stream.position();
        // duration
        match stream.read_i64() {
            Ok(_) => {},
            Err(e) => {
                return Err(e);
            },
        }
        let ghost q4 = stream.position();
        let delta = match stream.read_i64() {
            Ok(v) => v,
            Err(e) => {
                return Err(e);
            },
        };
        let ghost q5 = stream.position();
        // flush flag, discarded
        match stream.read_i8() {
            Ok(_) => {},
            Err(e) => {
                return Err(e);
            },
        }
        let pool_count = match stream.read_i32() {
            Ok(v) => v,
            Err(e) => {
                return Err(e);
            },
        };
        let n_pools: usize = if pool_count >= 0 {
            pool_count as usize
        } else {
            0
        };
        let ghost np = n_pools as int;
        let ghost pools_start = stream.position();
        let mut p: usize = 0;
        while p < n_pools
            invariant
                mode == old(stream).mode(),
                s == old(stream).bytes(),
                types == metadata.type_pool@,
                p_ev == old(stream).position(),
                pool0 == old(constant_pool)@,
                stream.bytes() == s,
                stream.mode() == mode,
                p <= n_pools,
                np == n_pools as int,
                i32_parse(mode, s, p_ev) matches Some(szv) && szv.1 == q1,
                i64_parse(mode, s, q1) matches Some(tyv) && tyv.0 == EVENT_TYPE_CONSTANT_POOL
                    && tyv.1 == q2,
                i64_parse(mode, s, q2) matches Some(t1v) && t1v.1 == q3,
                i64_parse(mode, s, q3) matches Some(t2v) && t2v.1 == q4,
                i64_parse(mode, s, q4) matches Some(dlv) && dlv.0 == delta && dlv.1 == q5,
                0 <= q5 && q5 + 1 <= s.len(),
                i32_parse(mode, s, q5 + 1) matches Some(pcv) && pcv.0 == pool_count && pcv.1
                    == pools_start,
                np == (if pool_count >= 0 {
                    pool_count as int
                } else {
                    0int
                }),
                cp_pools_scan(mode, s, pools_start, types, np) == cp_pools_scan(
                    mode,
                    s,
                    stream.position(),
                    types,
                    np - p,
                ),
                pool_wf(pool0, types) ==> pool_wf(constant_pool@, types),
            decreases n_pools - p,
        {
            let ghost p_cls = stream.position();
            let class_id = match stream.read_i64() {
                Ok(v) => v,
                Err(e) => {
                    proof {
                        assert(cp_pools_scan(mode, s, p_cls, types, np - p) == VScan::Eof);
                        assert(cp_event_scan(mode, s, p_ev, types) == CpScan::Eof);
                    }
                    return Err(e);
                },
            };
            let constant_count = match stream.read_i32() {
                Ok(v) => v,
                Err(e) => {
                    proof {
                        assert(cp_pools_scan(mode, s, p_cls, types, np - p) == VScan::Eof);
                        assert(cp_event_scan(mode, s, p_ev, types) == CpScan::Eof);
                    }
                    return Err(e);
                },
            };
            let n_constants: usize = if constant_count >= 0 {
                constant_count as usize
            } else {
                0
            };
            let ghost nc = n_constants as int;
            let ghost entries_start = stream.position();
            let mut c: usize = 0;
            while c < n_constants
                invariant
                    mode == old(stream).mode(),
                    s == old(stream).bytes(),
                    types == metadata.type_pool@,
                    p_ev == old(stream).position(),
                    pool0 == old(constant_pool)@,
                    stream.bytes() == s,
                    stream.mode() == mode,
                        p < n_pools,
                    np == n_pools as int,
                    nc == n_constants as int,
                    i32_parse(mode, s, p_ev) matches Some(szv) && szv.1 == q1,
                    i64_parse(mode, s, q1) matches Some(tyv) && tyv.0 == EVENT_TYPE_CONSTANT_POOL
                        && tyv.1 == q2,
                    i64_parse(mode, s, q2) matches Some(t1v) && t1v.1 == q3,
                    i64_parse(mode, s, q3) matches Some(t2v) && t2v.1 == q4,
                    i64_parse(mode, s, q4) matches Some(dlv) && dlv.0 == delta && dlv.1 == q5,
                    0 <= q5 && q5 + 1 <= s.len(),
                    i32_parse(mode, s, q5 + 1) matches Some(pcv) && pcv.0 == pool_count && pcv.1
                        == pools_start,
                    np == (if pool_count >= 0 {
                        pool_count as int
                    } else {
                        0int
                    }),
                    cp_pools_scan(mode, s, pools_start, types, np) == cp_pools_scan(
                        mode,
                        s,
                        p_cls,
                        types,
                        np - p,
                    ),
                    i64_parse(mode, s, p_cls) matches Some(ci) && ci.0 == class_id && (i32_parse(
                        mode,
                        s,
                        ci.1,
                    ) matches Some(cc3) && cc3.0 == constant_count && cc3.1 == entries_start),
                    nc == (if constant_count >= 0 {
                        constant_count as int
                    } else {
                        0
                    }),
                    c <= n_constants,
                    cp_entries_scan(mode, s, entries_start, types, class_id, nc)
                        == cp_entries_scan(
                        mode,
                        s,
                        stream.position(),
                        types,
                        class_id,
                        nc - c,
                    ),
                    pool_wf(pool0, types) ==> pool_wf(constant_pool@, types),
                decreases n_constants - c,
            {
                let ghost p_ent = stream.position();
                    let constant_index = match stream.read_i64() {
                    Ok(v) => v,
                    Err(e) => {
                        proof {
                            assert(cp_entries_scan(mode, s, p_ent, types, class_id, nc - c)
                                == VScan::Eof);
                            assert(cp_pools_scan(mode, s, p_cls, types, np - p) == VScan::Eof);
                            assert(cp_event_scan(mode, s, p_ev, types) == CpScan::Eof);
                        }
                        return Err(e);
                    },
                };
                let ghost p_val = stream.position();
                let value = match ValueDescriptor::try_new(stream, class_id, metadata) {
                    Ok(v) => v,
                    Err(e) => {
                        proof {
                            assert(cp_entries_scan(mode, s, p_ent, types, class_id, nc - c)
                                == (match value_scan(
                                mode,
                                s,
                                p_val,
                                types,
                                class_id,
                                VALUE_DECODE_DEPTH_LIMIT as int,
                            ) {
                                VScan::Done(mid) => cp_entries_scan(
                                    mode,
                                    s,
                                    mid,
                                    types,
                                    class_id,
                                    nc - c - 1,
                                ),
                                e2 => e2,
                            }));
                            assert(cp_pools_scan(mode, s, p_cls, types, np - p)
                                == cp_entries_scan(mode, s, p_ent, types, class_id, nc - c));
                            assert(cp_pools_scan(mode, s, pools_start, types, np)
                                == cp_pools_scan(mode, s, p_cls, types, np - p));
                        }
                        return Err(e);
                    },
                };
                let ghost pre = constant_pool@;
                constant_pool.register(class_id, constant_index, value);
                proof {
                    if pool_wf(pre, metadata.type_pool@) {
                        assert forall|cid: i64, idx: i64|
                            constant_pool@.contains_key(cid) && #[trigger]
                        constant_pool@[cid].contains_key(idx) implies value_wf(
                            #[trigger] constant_pool@[cid][idx],
                            metadata.type_pool@,
                        ) by {
                            if cid == class_id && idx == constant_index {
                            } else if cid == class_id {
                                assert(pre.contains_key(cid) ==> pre[cid].contains_key(idx));
                            }
                        }
                    }
                    assert(cp_entries_scan(mode, s, p_ent, types, class_id, nc - c)
                        == cp_entries_scan(
                        mode,
                        s,
                        stream.position(),
                        types,
                        class_id,
                        nc - c - 1,
                    ));
                }
                c = c + 1;
            }
            proof {
                let cur = stream.position();
                assert(cp_entries_scan(mode, s, cur, types, class_id, nc - c) == VScan::Done(cur));
                assert(cp_entries_scan(mode, s, entries_start, types, class_id, nc)
                    == VScan::Done(cur));
                assert(cp_pools_scan(mode, s, p_cls, types, np - p) == cp_pools_scan(
                    mode,
                    s,
                    cur,
                    types,
                    np - p - 1,
                ));
            }
            p = p + 1;
        }
        proof {
            let cur = stream.position();
            assert(cp_pools_scan(mode, s, cur, types, np - p) == VScan::Done(cur));
            assert(cp_pools_scan(mode, s, pools_start, types, np) == VScan::Done(cur));
            assert(cp_event_scan(mode, s, p_ev, types) == CpScan::Done(delta));
        }
        Ok(delta)
    }
}

} // verus!
