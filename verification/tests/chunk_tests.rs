//! End-to-end tests over synthetic recordings built byte by byte: chunk
//! iteration, the version gate, metadata declaration, constant-pool
//! lookup and event iteration.

use jfrs::reader::byte_reader::encode_var_i64;
use jfrs::reader::byte_stream::ByteStream;
use jfrs::reader::metadata::Metadata;
use jfrs::reader::type_descriptor::TypePool;
use jfrs::reader::value_descriptor::{Primitive, ValueDescriptor};
use jfrs::reader::{Error, JfrReader};
use jfrs::Version;

fn v(x: i64) -> Vec<u8> {
    encode_var_i64(x)
}

/// Prefixes a record payload with its total size (the size field counts
/// itself too).
fn with_size(payload: &[u8]) -> Vec<u8> {
    let n = payload.len();
    let total = if n + 1 < 128 {
        n + 1
    } else {
        assert!(n + 2 < 16384);
        n + 2
    };
    let mut out = encode_var_i64(total as i64);
    assert_eq!(out.len(), total - n);
    out.extend_from_slice(payload);
    out
}

fn utf8_entry(text: &str) -> Vec<u8> {
    let mut out = vec![3u8];
    out.extend_from_slice(&v(text.len() as i64));
    out.extend_from_slice(text.as_bytes());
    out
}

/// One chunk with three declared classes (`int`, `test.Tick` with one
/// int field, `java.lang.String`), one constant-pool entry for the
/// string class, and `n_ticks` events of class `test.Tick`.
fn build_chunk(major: i16, minor: i16, n_ticks: usize) -> Vec<u8> {
    // string table: indices fixed by position
    let strings = [
        "root",             // 0
        "metadata",         // 1
        "class",            // 2
        "field",            // 3
        "id",               // 4
        "name",             // 5
        "4",                // 6
        "int",              // 7
        "100",              // 8
        "test.Tick",        // 9
        "value",            // 10
        "20",               // 11
        "java.lang.String", // 12
        "constantPool",     // 13
        "true",             // 14
        "label",            // 15
    ];
    let mut table = v(strings.len() as i64);
    for s in strings {
        table.extend_from_slice(&utf8_entry(s));
    }

    let mut tree: Vec<u8> = Vec::new();
    tree.extend_from_slice(&v(0)); // root element name index, ignored
    tree.extend_from_slice(&v(0)); // root: no attributes
    tree.extend_from_slice(&v(1)); // root: one child
    tree.extend_from_slice(&v(1)); // "metadata"
    tree.extend_from_slice(&v(0)); // metadata: no attributes
    tree.extend_from_slice(&v(3)); // metadata: three classes
    // class int (id 4)
    tree.extend_from_slice(&v(2)); // "class"
    tree.extend_from_slice(&v(2)); // two attributes
    tree.extend_from_slice(&v(4)); // id =
    tree.extend_from_slice(&v(6)); // "4"
    tree.extend_from_slice(&v(5)); // name =
    tree.extend_from_slice(&v(7)); // "int"
    tree.extend_from_slice(&v(0)); // no children
    // class test.Tick (id 100) with field value: int
    tree.extend_from_slice(&v(2)); // "class"
    tree.extend_from_slice(&v(2));
    tree.extend_from_slice(&v(4)); // id =
    tree.extend_from_slice(&v(8)); // "100"
    tree.extend_from_slice(&v(5)); // name =
    tree.extend_from_slice(&v(9)); // "test.Tick"
    tree.extend_from_slice(&v(2)); // two children
    tree.extend_from_slice(&v(3)); // "field"
    tree.extend_from_slice(&v(2));
    tree.extend_from_slice(&v(5)); // name =
    tree.extend_from_slice(&v(10)); // "value"
    tree.extend_from_slice(&v(2)); // class =
    tree.extend_from_slice(&v(6)); // "4"
    tree.extend_from_slice(&v(0)); // field: no children
    tree.extend_from_slice(&v(3)); // "field"
    tree.extend_from_slice(&v(3)); // three attributes
    tree.extend_from_slice(&v(5)); // name =
    tree.extend_from_slice(&v(15)); // "label"
    tree.extend_from_slice(&v(2)); // class =
    tree.extend_from_slice(&v(11)); // "20"
    tree.extend_from_slice(&v(13)); // constantPool =
    tree.extend_from_slice(&v(14)); // "true"
    tree.extend_from_slice(&v(0)); // field: no children
    // class java.lang.String (id 20)
    tree.extend_from_slice(&v(2)); // "class"
    tree.extend_from_slice(&v(2));
    tree.extend_from_slice(&v(4)); // id =
    tree.extend_from_slice(&v(11)); // "20"
    tree.extend_from_slice(&v(5)); // name =
    tree.extend_from_slice(&v(12)); // "java.lang.String"
    tree.extend_from_slice(&v(0)); // no children

    let mut meta_payload: Vec<u8> = Vec::new();
    meta_payload.extend_from_slice(&v(0)); // event type: metadata
    meta_payload.extend_from_slice(&v(0)); // start time
    meta_payload.extend_from_slice(&v(0)); // duration
    meta_payload.extend_from_slice(&v(0)); // metadata id
    meta_payload.extend_from_slice(&table);
    meta_payload.extend_from_slice(&tree);
    let meta_event = with_size(&meta_payload);

    let mut cp_payload: Vec<u8> = Vec::new();
    cp_payload.extend_from_slice(&v(1)); // event type: constant pool
    cp_payload.extend_from_slice(&v(0)); // start time
    cp_payload.extend_from_slice(&v(0)); // duration
    cp_payload.extend_from_slice(&v(0)); // delta: end of chain
    cp_payload.push(0); // flush flag
    cp_payload.extend_from_slice(&v(1)); // one per-class pool
    cp_payload.extend_from_slice(&v(20)); // java.lang.String
    cp_payload.extend_from_slice(&v(1)); // one entry
    cp_payload.extend_from_slice(&v(203)); // constant index
    cp_payload.extend_from_slice(&utf8_entry("hello"));
    let cp_event = with_size(&cp_payload);

    let mut tick_payload: Vec<u8> = Vec::new();
    tick_payload.extend_from_slice(&v(100)); // event type: test.Tick
    tick_payload.extend_from_slice(&v(42)); // field "value"
    tick_payload.extend_from_slice(&v(203)); // field "label": pool index
    let tick_event = with_size(&tick_payload);

    let mut body: Vec<u8> = Vec::new();
    body.extend_from_slice(&meta_event);
    body.extend_from_slice(&cp_event);
    for _ in 0..n_ticks {
        body.extend_from_slice(&tick_event);
    }

    let chunk_size = 68 + body.len();
    let metadata_offset = 68i64;
    let constant_pool_offset = 68 + meta_event.len() as i64;

    let mut out: Vec<u8> = Vec::new();
    out.extend_from_slice(&[0x46, 0x4c, 0x52, 0x00]);
    out.extend_from_slice(&major.to_be_bytes());
    out.extend_from_slice(&minor.to_be_bytes());
    out.extend_from_slice(&(chunk_size as i64).to_be_bytes());
    out.extend_from_slice(&constant_pool_offset.to_be_bytes());
    out.extend_from_slice(&metadata_offset.to_be_bytes());
    out.extend_from_slice(&11i64.to_be_bytes()); // start time
    out.extend_from_slice(&22i64.to_be_bytes()); // duration
    out.extend_from_slice(&33i64.to_be_bytes()); // start ticks
    out.extend_from_slice(&44i64.to_be_bytes()); // ticks per second
    out.extend_from_slice(&1i32.to_be_bytes()); // features: compressed ints
    out.extend_from_slice(&body);
    out
}

#[test]
fn single_chunk_decodes_and_counts_events() {
    let mut reader = JfrReader::new(build_chunk(2, 0, 3));
    let mut chunks = reader.chunks();

    let (mut chunk_reader, chunk) = chunks.next(&reader).unwrap().unwrap();
    assert_eq!(11, chunk.header.start_time_nanos);
    assert_eq!(22, chunk.header.duration_nanos);
    assert_eq!(33, chunk.header.start_ticks);
    assert_eq!(44, chunk.header.ticks_per_second);

    let tick = chunk.metadata.type_pool.get(100).unwrap();
    assert_eq!("test.Tick", tick.name());
    assert_eq!(2, tick.fields.len());
    assert_eq!("value", tick.fields[0].name());
    assert_eq!("label", tick.fields[1].name());
    assert!(tick.fields[1].constant_pool);

    let mut events = chunk_reader.events();
    let mut count = 0;
    let mut last_offset = 0u64;
    while let Some(item) = events.next(&mut chunk_reader, &chunk) {
        let event = item.unwrap();
        assert_eq!(100, event.class_id);
        assert!(events.offset > last_offset);
        last_offset = events.offset;
        let value = event.value(&chunk);
        let field = value.get_field("value").unwrap();
        match field.value {
            ValueDescriptor::Primitive(Primitive::Integer(x)) => assert_eq!(42, *x),
            other => panic!("unexpected value {:?}", other),
        }
        assert_eq!(Some(42), field.value.as_i32());
        // the pooled field resolves through the constant pool
        let label = value.get_field("label").unwrap();
        match label.value {
            ValueDescriptor::Primitive(Primitive::String(s)) => assert_eq!("hello", s),
            other => panic!("unexpected label {:?}", other),
        }
        assert_eq!(Some("hello"), label.value.as_str());
        count += 1;
    }
    assert_eq!(3, count);

    assert!(chunks.next(&reader).is_none());
}

#[test]
fn constant_pool_lookup_resolves_interned_strings() {
    let mut reader = JfrReader::new(build_chunk(2, 0, 1));
    let mut chunks = reader.chunks();
    let (_cr, chunk) = chunks.next(&reader).unwrap().unwrap();
    match chunk.constant_pool.get(20, 203) {
        Some(ValueDescriptor::Primitive(Primitive::String(s))) => assert_eq!("hello", s),
        other => panic!("unexpected pool value {:?}", other),
    }
    assert!(chunk.constant_pool.get(20, 204).is_none());
    assert!(chunk.constant_pool.get(21, 203).is_none());
}

#[test]
fn multi_chunk_recordings_yield_each_chunk() {
    let one = build_chunk(2, 0, 1);
    let mut data = Vec::new();
    data.extend_from_slice(&one);
    data.extend_from_slice(&one);
    data.extend_from_slice(&one);
    let mut reader = JfrReader::new(data);
    let mut chunks = reader.chunks();
    let mut count = 0;
    while let Some(item) = chunks.next(&reader) {
        item.unwrap();
        count += 1;
    }
    assert_eq!(3, count);
}

#[test]
fn invalid_magic_is_an_error_item() {
    let mut reader = JfrReader::new(b"invalid!".to_vec());
    let mut chunks = reader.chunks();
    assert!(matches!(chunks.next(&reader), Some(Err(Error::InvalidFormat))));
}

#[test]
fn empty_input_ends_iteration_at_once() {
    let mut reader = JfrReader::new(Vec::new());
    let mut chunks = reader.chunks();
    assert!(chunks.next(&reader).is_none());
}

#[test]
fn unsupported_major_version_is_gated() {
    let mut reader = JfrReader::new(build_chunk(3, 0, 0));
    let mut chunks = reader.chunks();
    match chunks.next(&reader) {
        Some(Err(Error::UnsupportedVersion(ver))) => {
            assert_eq!(Version { major: 3, minor: 0 }, ver);
        },
        other => panic!("expected a version error, got {:?}", other.map(|r| r.is_ok())),
    }
}

#[test]
fn version_2_1_is_accepted() {
    let mut reader = JfrReader::new(build_chunk(2, 1, 2));
    let mut chunks = reader.chunks();
    let (mut chunk_reader, chunk) = chunks.next(&reader).unwrap().unwrap();
    let mut events = chunk_reader.events();
    let mut count = 0;
    while let Some(item) = events.next(&mut chunk_reader, &chunk) {
        item.unwrap();
        count += 1;
    }
    assert_eq!(2, count);
}

#[test]
fn metadata_only_iteration_leaves_the_pool_empty() {
    let mut reader = JfrReader::new(build_chunk(2, 0, 1));
    let mut chunks = reader.chunk_metadata();
    let (_cr, chunk) = chunks.next(&reader).unwrap().unwrap();
    assert_eq!(0, chunk.constant_pool.len());
    assert_eq!("java.lang.String", chunk.metadata.type_pool.get(20).unwrap().name());
}

#[test]
fn truncated_chunk_is_an_io_error_item() {
    let mut data = build_chunk(2, 0, 1);
    data.truncate(40);
    let mut reader = JfrReader::new(data);
    let mut chunks = reader.chunks();
    assert!(matches!(chunks.next(&reader), Some(Err(Error::IoError(_)))));
}

#[test]
fn decoding_against_an_unknown_class_fails() {
    let metadata = Metadata { type_pool: TypePool::default() };
    let mut stream = ByteStream::new(vec![0u8; 8]);
    match ValueDescriptor::try_new(&mut stream, 5, &metadata) {
        Err(Error::ClassNotFound(id)) => assert_eq!(5, id),
        other => panic!("expected a class-not-found error, got {:?}", other),
    }
}

#[test]
fn an_error_item_ends_event_iteration() {
    let data = build_chunk(2, 0, 1);
    let body_len = (data.len() - 68) as u64;
    let mut reader = JfrReader::new(data);
    let mut chunks = reader.chunks();
    let (mut chunk_reader, chunk) = chunks.next(&reader).unwrap().unwrap();
    // one byte before the body end: a size can be read, its record cannot
    let mut events = chunk_reader.events_from_offset(body_len - 1);
    assert!(matches!(events.next(&mut chunk_reader, &chunk), Some(Err(_))));
    assert!(events.done);
    assert!(events.next(&mut chunk_reader, &chunk).is_none());
    assert!(events.next(&mut chunk_reader, &chunk).is_none());
}
