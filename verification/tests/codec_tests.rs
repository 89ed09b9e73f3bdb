//! Tests of the binary codec: exact wire layouts, width handling,
//! truncated buffers, and the low-level buffer helpers.

use data_profiles::DeserializationError;
use data_profiles::datum::{Datum, DatumSize, DatumType};
use data_profiles::profiles::{DataProfile, ProfileFromData, ProfileToData};
use data_profiles::profiles::array::{ArrayData, DatumArray};
use data_profiles::binary::{decode_datum, get_size, split, split_arr};

fn producing_with(items: Vec<(&str, DatumSize)>) -> ArrayData {
    let mut a = ArrayData::serial_ready();
    for (text, size) in items {
        a.serialize_item_sized(text.to_string(), size);
    }
    a
}

#[test]
fn concrete_positional_layout() {
    // {age: 52, id: "gangnam"} encoded positionally: eight fixed bytes for
    // the integer, then a four-byte length prefix and the text bytes.
    let mut a = ArrayData::serial_ready();
    a.serialize_item(52u64);
    a.serialize_item("gangnam".to_string());
    let bytes: Vec<u8> = a.try_into_data().unwrap();
    let mut expected = vec![0x00, 0x00, 0x00, 0x00, 0x00, 0x00, 0x00, 0x34];
    expected.extend_from_slice(&[0x00, 0x00, 0x00, 0x07]);
    expected.extend_from_slice(b"gangnam");
    assert_eq!(bytes, expected);
}

#[test]
fn width_independence_of_value() {
    // "id" with width 1 costs three bytes, with width 4 six bytes; both
    // decode back to "id".
    let narrow = producing_with(vec![("id", DatumSize::U8)]);
    let bytes1: Vec<u8> = narrow.try_into_data().unwrap();
    assert_eq!(bytes1, vec![0x02, b'i', b'd']);

    let wide = producing_with(vec![("id", DatumSize::U32)]);
    let bytes4: Vec<u8> = wide.try_into_data().unwrap();
    assert_eq!(bytes4, vec![0x00, 0x00, 0x00, 0x02, b'i', b'd']);

    for (bytes, size) in [(bytes1, DatumSize::U8), (bytes4, DatumSize::U32)] {
        let mut consuming = ArrayData::try_from_data(bytes).unwrap();
        let mut text = String::new();
        consuming.deserialize_item_sized(&mut text, size).unwrap();
        assert_eq!(text, "id");
    }
}

#[test]
fn truncated_binary_buffer() {
    // Width 4 declares seven bytes of text but only four follow.
    let bytes = vec![0x00, 0x00, 0x00, 0x07, b'g', b'a', b'n', b'g'];
    let mut consuming = ArrayData::try_from_data(bytes).unwrap();
    let mut text = String::new();
    let err = consuming.deserialize_item(&mut text).unwrap_err();
    assert!(matches!(err, DeserializationError::UnexpectedEOF));
    assert_eq!(text, "");
}

#[test]
fn truncated_length_prefix() {
    // Fewer bytes than the prefix width itself.
    let bytes = vec![0x00, 0x00];
    let mut consuming = ArrayData::try_from_data(bytes).unwrap();
    let mut text = String::new();
    let err = consuming.deserialize_item(&mut text).unwrap_err();
    assert!(matches!(err, DeserializationError::UnexpectedEOF));
}

#[test]
fn truncated_integer() {
    let bytes = vec![0x00, 0x01, 0x02];
    let mut consuming = ArrayData::try_from_data(bytes).unwrap();
    let mut n: u64 = 7;
    let err = consuming.deserialize_item(&mut n).unwrap_err();
    assert!(matches!(err, DeserializationError::UnexpectedEOF));
    assert_eq!(n, 7);
}

#[test]
fn invalid_text_bytes() {
    // A declared one-byte text whose byte is not valid UTF-8.
    let bytes = vec![0x00, 0x00, 0x00, 0x01, 0xFF];
    let mut consuming = ArrayData::try_from_data(bytes).unwrap();
    let mut text = String::new();
    let err = consuming.deserialize_item(&mut text).unwrap_err();
    assert!(matches!(err, DeserializationError::FromUTF8Error));
}

#[test]
fn wide_prefix_round_trip() {
    let producing = producing_with(vec![("wide", DatumSize::U64)]);
    let bytes: Vec<u8> = producing.try_into_data().unwrap();
    assert_eq!(bytes.len(), 8 + 4);
    assert_eq!(&bytes[..8], &[0, 0, 0, 0, 0, 0, 0, 4]);
    let mut consuming = ArrayData::try_from_data(bytes).unwrap();
    let mut text = String::new();
    consuming.deserialize_item_sized(&mut text, DatumSize::U64).unwrap();
    assert_eq!(text, "wide");
}

#[test]
fn unsupported_kind_refused_by_encoder() {
    let mut a = ArrayData::serial_ready();
    a.serialize_item(5u32);
    let r: Result<Vec<u8>, _> = a.try_into_data();
    assert!(matches!(r, Err(DeserializationError::Unsupported)));
}

#[test]
fn consuming_profile_refused_by_encoder() {
    let a = ArrayData::try_from_data(vec![1, 2, 3]).unwrap();
    let r: Result<Vec<u8>, _> = a.try_into_data();
    assert!(matches!(r, Err(DeserializationError::Unsupported)));
}

#[test]
fn serialize_usize_layouts() {
    assert_eq!(DatumSize::U8.serialize_usize(0x4A), vec![0x4A]);
    assert_eq!(DatumSize::U16.serialize_usize(0x0102), vec![0x01, 0x02]);
    assert_eq!(
        DatumSize::U32.serialize_usize(0x01020304),
        vec![0x01, 0x02, 0x03, 0x04],
    );
    assert_eq!(
        DatumSize::U64.serialize_usize(3),
        vec![0, 0, 0, 0, 0, 0, 0, 3],
    );
    // A length beyond the width's range keeps only its low bytes.
    assert_eq!(DatumSize::U8.serialize_usize(300), vec![44]);
}

#[test]
fn into_byte_size_values() {
    assert_eq!(DatumSize::U8.into_byte_size(), 1);
    assert_eq!(DatumSize::U16.into_byte_size(), 2);
    assert_eq!(DatumSize::U32.into_byte_size(), 4);
    assert_eq!(DatumSize::U64.into_byte_size(), 8);
}

#[test]
fn get_size_reads_and_consumes() {
    let mut buf = vec![0x01, 0x02, 0xAA];
    let sz = get_size(&mut buf, DatumSize::U16).unwrap();
    assert_eq!(sz, 0x0102);
    assert_eq!(buf, vec![0xAA]);

    let mut short = vec![0x01];
    assert!(get_size(&mut short, DatumSize::U16).is_none());
    assert_eq!(short, vec![0x01]);
}

#[test]
fn split_behaviour() {
    let mut buf = vec![1, 2, 3, 4];
    let first = split(&mut buf, 3).unwrap();
    assert_eq!(first, vec![1, 2, 3]);
    assert_eq!(buf, vec![4]);
    assert!(split(&mut buf, 2).is_none());
    assert_eq!(buf, vec![4]);

    let mut buf2 = vec![9, 8, 7];
    let first2 = split_arr::<2>(&mut buf2).unwrap();
    assert_eq!(first2, vec![9, 8]);
    assert_eq!(buf2, vec![7]);
}

#[test]
fn datum_array_backing_store() {
    // The byte buffer itself implements the positional capability
    // interface; integers ignore the width parameter.
    let mut buf = vec![0, 0, 0, 0, 0, 0, 1, 0, 0x01, b'x'];
    let first = buf.get_datum(DatumType::UnsignedLarge, DatumSize::U32).unwrap();
    assert!(matches!(first, Datum::UnsignedLarge(256)));
    let second = buf.get_datum(DatumType::Text, DatumSize::U8).unwrap();
    match second {
        Datum::Text(s) => assert_eq!(s, "x"),
        other => panic!("unexpected datum: {:?}", other),
    }
    assert!(buf.is_empty());
}

#[test]
fn decode_consumes_from_front() {
    let mut buf = vec![0x00, 0x02, b'h', b'i', 0xEE];
    let d = decode_datum(&mut buf, DatumType::Text, DatumSize::U16).unwrap();
    match d {
        Datum::Text(s) => assert_eq!(s, "hi"),
        other => panic!("unexpected datum: {:?}", other),
    }
    assert_eq!(buf, vec![0xEE]);
}

#[test]
fn matched_item_match() {
    let bytes = vec![0x00, 0x00, 0x00, 0x01, b'b'];
    let mut consuming = ArrayData::try_from_data(bytes).unwrap();
    let mut value = String::new();
    consuming
        .deserialize_matched_item(&mut value, vec![String::from("a"), String::from("b")])
        .unwrap();
    assert_eq!(value, "b");
}

#[test]
fn matched_item_no_match() {
    let bytes = vec![0x00, 0x00, 0x00, 0x01, b'c'];
    let mut consuming = ArrayData::try_from_data(bytes).unwrap();
    let mut value = String::from("before");
    let err = consuming
        .deserialize_cloned_matched_item(&mut value, &vec![String::from("a")])
        .unwrap_err();
    match err {
        DeserializationError::NoMatch { field, actual } => {
            assert_eq!(field, "");
            assert_eq!(actual, "c");
        },
        other => panic!("unexpected error: {:?}", other),
    }
    assert_eq!(value, "before");
}

#[test]
fn serde_item_moves_value_while_producing() {
    let mut a = ArrayData::serial_ready();
    let mut id = String::from("gangnam");
    a.serde_item(&mut id).unwrap();
    assert_eq!(id, "");
    let items = a.into_serialized_items();
    assert_eq!(items.len(), 1);
    match &items[0].0 {
        Datum::Text(s) => assert_eq!(s, "gangnam"),
        other => panic!("unexpected datum: {:?}", other),
    }
    assert!(matches!(items[0].1, DatumSize::U32));
}
