//! Tests of metadata declaration: interning, element attributes, and
//! the string table.

use std::collections::HashMap;
use std::rc::Rc;

use jfrs::reader::byte_stream::{ByteStream, IntEncoding};
use jfrs::reader::metadata::{
    AnnotationElement, ClassElement, ElementType, FieldElement, Metadata, MetadataElement,
    RootElement,
};
use jfrs::reader::type_descriptor::StringTable;
use jfrs::reader::Error;

fn class(class_id: i64, name: &Rc<String>, fields: Vec<FieldElement>) -> ClassElement {
    ClassElement {
        annotations: Vec::new(),
        fields,
        setting: None,
        class_id: Some(class_id),
        type_identifier: Some(Rc::clone(name)),
        super_type: None,
        simple_type: None,
    }
}

fn field(class_id: i64, name: &Rc<String>) -> FieldElement {
    FieldElement {
        annotations: Vec::new(),
        field_identifier: Some(Rc::clone(name)),
        class_id: Some(class_id),
        constant_pool: None,
        dimension: None,
    }
}

#[test]
fn test_string_intern() {
    let class1_name = Rc::new("Class1".to_string());
    let class2_name = Rc::new("Class2".to_string());
    let class3_name = Rc::new("Class3".to_string());
    let field_name = Rc::new("fieldWithTypeOfClass1".to_string());

    let class1 = class(1, &class1_name, vec![]);
    let class2 = class(2, &class2_name, vec![field(1, &field_name)]);
    let class3 = class(3, &class3_name, vec![field(1, &field_name)]);

    let meta = MetadataElement { classes: vec![class1, class2, class3] };
    let root = RootElement { metadata: Some(meta), region: None };

    let class_name_map = HashMap::from([
        (1i64, Rc::clone(&class1_name)),
        (2, Rc::clone(&class2_name)),
        (3, Rc::clone(&class3_name)),
    ]);

    let type_pool = Metadata::declare_types(root, class_name_map).unwrap();

    let desc2 = type_pool.get(2).unwrap();
    let desc3 = type_pool.get(3).unwrap();

    assert!(Rc::ptr_eq(&desc2.fields[0].name, &desc3.fields[0].name));
}

#[test]
fn declare_types_requires_a_class_id() {
    let mut idless = class(7, &Rc::new("my.Event".to_string()), vec![]);
    idless.class_id = None;
    let meta = MetadataElement { classes: vec![idless] };
    let root = RootElement { metadata: Some(meta), region: None };
    let res = Metadata::declare_types(root, HashMap::new());
    assert!(matches!(res, Err(Error::InvalidFormat)));
}

#[test]
fn declare_types_requires_a_field_class() {
    let mut untyped = field(4, &Rc::new("value".to_string()));
    untyped.class_id = None;
    let c = class(7, &Rc::new("my.Event".to_string()), vec![untyped]);
    let meta = MetadataElement { classes: vec![c] };
    let root = RootElement { metadata: Some(meta), region: None };
    let res = Metadata::declare_types(root, HashMap::new());
    assert!(matches!(res, Err(Error::InvalidFormat)));
}

#[test]
fn declare_types_requires_a_class_name() {
    let mut nameless = class(7, &Rc::new("x".to_string()), vec![]);
    nameless.type_identifier = None;
    let meta = MetadataElement { classes: vec![nameless] };
    let root = RootElement { metadata: Some(meta), region: None };
    let res = Metadata::declare_types(root, HashMap::new());
    assert!(matches!(res, Err(Error::InvalidFormat)));
}

#[test]
fn class_annotations_fill_the_label() {
    let label_class = Rc::new("jdk.jfr.Label".to_string());
    let mut c = class(5, &Rc::new("my.Event".to_string()), vec![]);
    c.annotations.push(AnnotationElement {
        class_id: 9,
        attributes: vec![(
            Rc::new("value".to_string()),
            Rc::new("My Event".to_string()),
        )],
    });
    let meta = MetadataElement { classes: vec![c] };
    let root = RootElement { metadata: Some(meta), region: None };
    let names = HashMap::from([(9i64, Rc::clone(&label_class))]);
    let pool = Metadata::declare_types(root, names).unwrap();
    assert_eq!(Some("My Event"), pool.get(5).unwrap().label());
}

#[test]
fn category_values_are_collected_until_the_first_gap() {
    let cat_class = Rc::new("jdk.jfr.Category".to_string());
    let mut c = class(5, &Rc::new("my.Event".to_string()), vec![]);
    c.annotations.push(AnnotationElement {
        class_id: 9,
        attributes: vec![
            (Rc::new("value-0".to_string()), Rc::new("Java".to_string())),
            (Rc::new("value-1".to_string()), Rc::new("Profiling".to_string())),
            (Rc::new("value-3".to_string()), Rc::new("Unreachable".to_string())),
        ],
    });
    let meta = MetadataElement { classes: vec![c] };
    let root = RootElement { metadata: Some(meta), region: None };
    let names = HashMap::from([(9i64, Rc::clone(&cat_class))]);
    let pool = Metadata::declare_types(root, names).unwrap();
    assert_eq!(vec!["Java", "Profiling"], pool.get(5).unwrap().category());
}

#[test]
fn unknown_element_names_are_rejected() {
    assert!(ElementType::try_new("metadata").is_ok());
    assert!(ElementType::try_new("region").is_ok());
    assert!(ElementType::try_new("class").is_ok());
    assert!(ElementType::try_new("field").is_ok());
    assert!(ElementType::try_new("annotation").is_ok());
    assert!(ElementType::try_new("setting").is_ok());
    assert!(matches!(ElementType::try_new("mystery"), Err(Error::InvalidFormat)));
}

#[test]
fn bad_numeric_attribute_is_invalid_format() {
    let mut element = ElementType::try_new("class").unwrap();
    let res = element.set_attribute(
        &Rc::new("id".to_string()),
        &Rc::new("not-a-number".to_string()),
    );
    assert!(matches!(res, Err(Error::InvalidFormat)));
}

#[test]
fn string_table_keeps_null_entries() {
    // count 3: null, empty, "ab"
    let bytes = vec![3u8, 0, 1, 3, 2, 0x61, 0x62];
    let mut stream = ByteStream::new(bytes);
    stream.set_int_encoding(IntEncoding::Compressed);
    let table = StringTable::try_new(&mut stream).unwrap();
    assert!(matches!(table.get(0), Err(Error::InvalidStringIndex(0))));
    assert_eq!("", table.get(1).unwrap().as_str());
    assert_eq!("ab", table.get(2).unwrap().as_str());
    assert!(matches!(table.get(3), Err(Error::InvalidStringIndex(3))));
    assert!(matches!(table.get(-1), Err(Error::InvalidStringIndex(-1))));
}

#[test]
fn string_table_rejects_pool_references() {
    let bytes = vec![1u8, 2, 5];
    let mut stream = ByteStream::new(bytes);
    stream.set_int_encoding(IntEncoding::Compressed);
    assert!(matches!(StringTable::try_new(&mut stream), Err(Error::InvalidString)));
}
