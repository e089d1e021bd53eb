//! Tests of the byte-level codecs: compressed integers, string
//! encodings, and the attribute-value parsers.

use jfrs::reader::byte_reader::{ByteCursor, ByteReader, encode_var_i64};
use jfrs::reader::byte_stream::{ByteStream, IntEncoding, StringType};
use jfrs::reader::metadata::{parse_bool, parse_i32, parse_i64};
use jfrs::reader::{Error, IoErrorKind};

fn compressed_stream(bytes: Vec<u8>) -> ByteStream {
    let mut s = ByteStream::new(bytes);
    s.set_int_encoding(IntEncoding::Compressed);
    s
}

#[test]
fn test_read_i64_compressed() {
    let bytes = vec![0x85u8, 0xb0, 0x03];
    let mut cursor = ByteCursor::new(bytes);
    assert_eq!(55301, ByteReader::CompressedInts.read_i64(&mut cursor).unwrap());
}

#[test]
fn byte_stream_test_read_i64_compressed() {
    let bytes = vec![0x85u8, 0xb0, 0x03];
    let mut s = compressed_stream(bytes);
    assert_eq!(55301, s.read_i64().unwrap());
}

#[test]
fn byte_stream_test_read_string_null() {
    let bytes = vec![0u8];
    let mut s = compressed_stream(bytes);
    assert_eq!(StringType::Null, s.read_string().unwrap());
}

#[test]
fn byte_stream_test_read_string_empty() {
    let bytes = vec![1u8];
    let mut s = compressed_stream(bytes);
    assert_eq!(StringType::Empty, s.read_string().unwrap());
}

#[test]
fn byte_stream_test_read_string_constant_pool() {
    let mut bytes = vec![2u8];
    bytes.append(&mut vec![0x85, 0xb0, 0x3]);
    let mut s = compressed_stream(bytes);
    assert_eq!(StringType::ConstantPool(55301), s.read_string().unwrap());
}

#[test]
fn byte_stream_test_read_string_utf8() {
    let mut bytes = vec![3u8];
    bytes.push(11); // length of "hello,world" in varint encoding
    bytes.extend_from_slice("hello,world".as_bytes());
    let mut s = compressed_stream(bytes);
    assert_eq!(StringType::Raw("hello,world".to_string()), s.read_string().unwrap());
}

#[test]
fn byte_reader_test_read_i64_compressed() {
    let bytes = vec![0x85u8, 0xb0, 0x3];
    let mut cursor = ByteCursor::new(bytes);
    assert_eq!(55301, ByteReader::CompressedInts.read_i64(&mut cursor).unwrap());
}

#[test]
fn byte_reader_test_read_string_null() {
    let bytes = vec![0u8];
    let mut cursor = ByteCursor::new(bytes);
    let got = ByteReader::CompressedInts.read_string(&mut cursor).unwrap();
    assert_eq!(jfrs::reader::byte_reader::StringType::Null, got);
}

#[test]
fn byte_reader_test_read_string_empty() {
    let bytes = vec![1u8];
    let mut cursor = ByteCursor::new(bytes);
    let got = ByteReader::CompressedInts.read_string(&mut cursor).unwrap();
    assert_eq!(jfrs::reader::byte_reader::StringType::Empty, got);
}

#[test]
fn byte_reader_test_read_string_constant_pool() {
    let mut bytes = vec![2u8];
    bytes.append(&mut vec![0x85, 0xb0, 0x3]);
    let mut cursor = ByteCursor::new(bytes);
    let got = ByteReader::CompressedInts.read_string(&mut cursor).unwrap();
    assert_eq!(jfrs::reader::byte_reader::StringType::ConstantPool(55301), got);
}

#[test]
fn byte_reader_test_read_string_utf8() {
    let mut bytes = vec![3u8];
    bytes.push(11); // length of "hello,world" in varint encoding
    bytes.extend_from_slice("hello,world".as_bytes());
    let mut cursor = ByteCursor::new(bytes);
    let got = ByteReader::CompressedInts.read_string(&mut cursor).unwrap();
    assert_eq!(jfrs::reader::byte_reader::StringType::Raw("hello,world".to_string()), got);
}

#[test]
fn var_i64_encode_of_reference_value() {
    assert_eq!(vec![0x85u8, 0xb0, 0x03], encode_var_i64(55301));
}

#[test]
fn var_i64_round_trips() {
    for x in [
        0i64,
        1,
        -1,
        127,
        128,
        55301,
        i64::MAX,
        i64::MIN,
        -559038737,
        1 << 56,
    ] {
        let encoded = encode_var_i64(x);
        let mut cursor = ByteCursor::new(encoded.clone());
        let decoded = ByteReader::CompressedInts.read_i64(&mut cursor).unwrap();
        assert_eq!(x, decoded, "round trip of {} via {:?}", x, encoded);
    }
}

#[test]
fn read_string_latin1() {
    // "café" in Latin-1: the accented byte is not valid UTF-8 on its own
    let bytes = vec![5u8, 4, 0x63, 0x61, 0x66, 0xE9];
    let mut s = compressed_stream(bytes);
    assert_eq!(StringType::Raw("caf\u{e9}".to_string()), s.read_string().unwrap());
}

#[test]
fn read_string_char_array() {
    // two 16-bit code units, varint-encoded
    let mut bytes = vec![4u8, 2];
    bytes.extend_from_slice(&encode_var_i64(0x4A)); // 'J'
    bytes.extend_from_slice(&encode_var_i64(0x3042)); // hiragana A
    let mut s = compressed_stream(bytes);
    assert_eq!(StringType::Raw("J\u{3042}".to_string()), s.read_string().unwrap());
}

#[test]
fn read_string_invalid_utf8_is_rejected() {
    let bytes = vec![3u8, 1, 0xFF];
    let mut s = compressed_stream(bytes);
    assert!(matches!(s.read_string(), Err(Error::InvalidString)));
}

#[test]
fn read_string_unknown_tag_is_rejected() {
    let bytes = vec![9u8];
    let mut s = compressed_stream(bytes);
    assert!(matches!(s.read_string(), Err(Error::InvalidString)));
}

#[test]
fn read_past_end_is_an_eof_error() {
    let mut s = ByteStream::new(vec![1u8, 2]);
    assert!(matches!(s.read_i32(), Err(Error::IoError(IoErrorKind::UnexpectedEof))));
}

#[test]
fn raw_reads_are_big_endian() {
    let mut s = ByteStream::new(vec![0x12u8, 0x34, 0x56, 0x78, 0x9A, 0xBC, 0xDE, 0xF0, 0x01, 0x02]);
    assert_eq!(0x1234, s.read_i16().unwrap());
    assert_eq!(0x5678_9ABC_u32 as i32, s.read_i32().unwrap());
}

#[test]
fn parse_i64_accepts_what_str_parse_accepts() {
    assert_eq!(Some(0), parse_i64("0"));
    assert_eq!(Some(55301), parse_i64("55301"));
    assert_eq!(Some(-42), parse_i64("-42"));
    assert_eq!(Some(42), parse_i64("+42"));
    assert_eq!(Some(i64::MAX), parse_i64("9223372036854775807"));
    assert_eq!(Some(i64::MIN), parse_i64("-9223372036854775808"));
    assert_eq!(None, parse_i64("9223372036854775808"));
    assert_eq!(None, parse_i64("-9223372036854775809"));
    assert_eq!(None, parse_i64(""));
    assert_eq!(None, parse_i64("-"));
    assert_eq!(None, parse_i64("12a"));
    assert_eq!(None, parse_i64(" 1"));
}

#[test]
fn parse_i32_checks_the_narrower_range() {
    assert_eq!(Some(2147483647), parse_i32("2147483647"));
    assert_eq!(Some(-2147483648), parse_i32("-2147483648"));
    assert_eq!(None, parse_i32("2147483648"));
}

#[test]
fn parse_bool_is_exact() {
    assert_eq!(Some(true), parse_bool("true"));
    assert_eq!(Some(false), parse_bool("false"));
    assert_eq!(None, parse_bool("True"));
    assert_eq!(None, parse_bool("1"));
}

#[test]
fn read_char_rejects_surrogate_code_units() {
    let mut s = compressed_stream(encode_var_i64(0xD800));
    match s.read_char() {
        Err(Error::InvalidChar(c)) => assert_eq!(0xD800, c),
        other => panic!("expected an invalid-char error, got {:?}", other),
    }
}

#[test]
fn read_char_decodes_a_code_unit() {
    let mut s = compressed_stream(encode_var_i64(0x41));
    assert_eq!('A', s.read_char().unwrap());
}
