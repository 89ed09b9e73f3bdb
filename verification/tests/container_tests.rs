//! Tests of the named-entry container, candidate matching, the value
//! type's own operations, and error reporting.

use data_profiles::DeserializationError;
use data_profiles::datum::{Datum, DatumType, Equals, GetDatumType};
use data_profiles::profiles::{convert_data_profile, DataProfile, ProfileFromData};
use data_profiles::profiles::map::{DatumMap, MappedData};

fn consuming_with(entries: Vec<(&str, Datum)>) -> MappedData {
    let pairs = entries
        .into_iter()
        .map(|(k, v)| (Datum::Text(k.to_string()), v))
        .collect();
    MappedData::try_from_data(pairs).unwrap()
}

#[test]
fn matched_entry_no_match() {
    let mut m = consuming_with(vec![("field", Datum::Text("c".into()))]);
    let mut value = String::new();
    let candidates = vec![String::from("a"), String::from("b")];
    let err = m
        .deserialize_matched_entry(String::from("field"), &mut value, candidates)
        .unwrap_err();
    match err {
        DeserializationError::NoMatch { field, actual } => {
            assert_eq!(field, "field");
            assert_eq!(actual, "c");
        },
        other => panic!("unexpected error: {:?}", other),
    }
    assert_eq!(value, "");
}

#[test]
fn matched_entry_match() {
    let mut m = consuming_with(vec![("field", Datum::Text("b".into()))]);
    let mut value = String::new();
    let candidates = vec![String::from("a"), String::from("b")];
    m.deserialize_matched_entry(String::from("field"), &mut value, candidates)
        .unwrap();
    assert_eq!(value, "b");
}

#[test]
fn cloned_matched_entry_match() {
    let mut m = consuming_with(vec![("field", Datum::Text("b".into()))]);
    let mut value = String::new();
    let candidates = vec![String::from("a"), String::from("b")];
    m.deserialize_cloned_matched_entry(String::from("field"), &mut value, &candidates)
        .unwrap();
    assert_eq!(value, "b");
    // The candidate list is borrowed, not consumed.
    assert_eq!(candidates.len(), 2);
}

#[test]
fn matched_entry_first_match_wins() {
    let mut m = consuming_with(vec![("k", Datum::UnsignedLarge(7))]);
    let mut value: u64 = 0;
    // Both candidates equal the pulled value; the first is taken.
    m.deserialize_matched_entry(String::from("k"), &mut value, vec![7u64, 7u64])
        .unwrap();
    assert_eq!(value, 7);
}

#[test]
fn no_match_renders_integers() {
    let mut m = consuming_with(vec![("k", Datum::UnsignedLarge(7))]);
    let mut value: u64 = 0;
    let err = m
        .deserialize_matched_entry(String::from("k"), &mut value, vec![1u64, 2u64])
        .unwrap_err();
    match err {
        DeserializationError::NoMatch { field, actual } => {
            assert_eq!(field, "k");
            assert_eq!(actual, "7");
        },
        other => panic!("unexpected error: {:?}", other),
    }
}

#[test]
fn invalid_type_reports_both_kinds() {
    let mut m = consuming_with(vec![("age", Datum::Text("x".into()))]);
    let mut age: u64 = 0;
    let err = m.deserialize_entry(String::from("age"), &mut age).unwrap_err();
    match err {
        DeserializationError::InvalidType { field, expected, actual } => {
            assert_eq!(field, "age");
            assert_eq!(expected, DatumType::UnsignedLarge);
            assert_eq!(actual, DatumType::Text);
        },
        other => panic!("unexpected error: {:?}", other),
    }
    assert_eq!(age, 0);
}

#[test]
fn missing_integer_key_renders_decimally() {
    let mut m = consuming_with(vec![]);
    let mut value = String::new();
    let err = m.deserialize_entry(52u64, &mut value).unwrap_err();
    match err {
        DeserializationError::MissingField(f) => assert_eq!(f, "52"),
        other => panic!("unexpected error: {:?}", other),
    }
}

#[test]
fn pull_is_destructive() {
    let mut m = consuming_with(vec![("k", Datum::UnsignedLarge(1))]);
    let mut v: u64 = 0;
    m.deserialize_entry(String::from("k"), &mut v).unwrap();
    assert_eq!(v, 1);
    let err = m.deserialize_entry(String::from("k"), &mut v).unwrap_err();
    assert!(matches!(err, DeserializationError::MissingField(_)));
}

#[test]
fn serialize_entry_overwrites() {
    let mut m = MappedData::serial_ready();
    m.serialize_entry(String::from("k"), 1u64);
    m.serialize_entry(String::from("k"), 2u64);
    m.serialize_entry(String::from("other"), 3u64);
    let entries = m.into_serialized_entries();
    assert_eq!(entries.len(), 2);
    assert!(matches!(entries[0].1, Datum::UnsignedLarge(2)));
    assert!(matches!(entries[1].1, Datum::UnsignedLarge(3)));
}

#[test]
fn map_backing_store_pulls_by_key() {
    let mut store = vec![
        (Datum::Text("a".into()), Datum::UnsignedLarge(1)),
        (Datum::Text("b".into()), Datum::UnsignedLarge(2)),
    ];
    let key = Datum::Text("b".into());
    let pulled = store.get_datum(&key).unwrap();
    assert!(matches!(pulled, Datum::UnsignedLarge(2)));
    assert_eq!(store.len(), 1);
    let err = store.get_datum(&key).unwrap_err();
    match err {
        DeserializationError::MissingField(f) => assert_eq!(f, "b"),
        other => panic!("unexpected error: {:?}", other),
    }
}

#[test]
fn datum_operations() {
    let text = Datum::Text("hi".into());
    assert_eq!(text.get_type(), DatumType::Text);
    assert_eq!(Datum::UnsignedSmall(1).get_type(), DatumType::UnsignedSmall);
    assert_eq!(Datum::UnsignedLarge(1).get_type(), DatumType::UnsignedLarge);

    assert!(text.scalar_eq(&Datum::Text("hi".into())));
    assert!(!text.scalar_eq(&Datum::Text("ho".into())));
    assert!(!text.scalar_eq(&Datum::UnsignedLarge(3)));

    let copy = text.duplicate();
    assert!(copy.scalar_eq(&text));

    assert_eq!(text.to_key_string(), "hi");
    assert_eq!(Datum::UnsignedLarge(0).to_key_string(), "0");
    assert_eq!(Datum::UnsignedLarge(1234567890).to_key_string(), "1234567890");
    assert_eq!(Datum::UnsignedSmall(105).to_key_string(), "105");

    assert_eq!(Datum::UnsignedLarge(7).describe(), "7");
    assert_eq!(Datum::Text("c".into()).describe(), "c");

    assert!(matches!(Datum::default(), Datum::UnsignedSmall(0)));
}

#[test]
fn equals_and_kind_declarations() {
    assert!(String::from("a").equals(&Datum::Text("a".into())));
    assert!(!String::from("a").equals(&Datum::Text("b".into())));
    assert!(!String::from("a").equals(&Datum::UnsignedLarge(1)));
    assert!(5u64.equals(&Datum::UnsignedLarge(5)));
    assert!(!5u64.equals(&Datum::UnsignedSmall(5)));
    assert!(5u32.equals(&Datum::UnsignedSmall(5)));

    assert_eq!(String::get_datum_type(), DatumType::Text);
    assert_eq!(u64::get_datum_type(), DatumType::UnsignedLarge);
}

#[test]
fn convert_profile_keeps_contents() {
    let mut m = MappedData::serial_ready();
    m.serialize_entry(String::from("k"), 9u64);
    let converted: MappedData = convert_data_profile(m);
    assert!(converted.is_serial());
    let entries = converted.into_serialized_entries();
    assert_eq!(entries.len(), 1);
    assert!(matches!(entries[0].1, Datum::UnsignedLarge(9)));
}

#[test]
fn set_field_targets_only_some_errors() {
    let mut e = DeserializationError::InvalidType {
        field: String::new(),
        expected: DatumType::Text,
        actual: DatumType::UnsignedLarge,
    };
    e.set_field(String::from("f"));
    assert!(matches!(e, DeserializationError::InvalidType { ref field, .. } if field == "f"));

    let mut m = DeserializationError::MissingField(String::from("orig"));
    m.set_field(String::from("new"));
    assert!(matches!(m, DeserializationError::MissingField(ref f) if f == "orig"));
}

#[test]
fn serde_matched_entry_moves_value_while_producing() {
    let mut m = MappedData::serial_ready();
    let mut name = String::from("ferus");
    m.serde_matched_entry(String::from("name"), &mut name, Vec::<String>::new())
        .unwrap();
    assert_eq!(name, "");
    let entries = m.into_serialized_entries();
    assert_eq!(entries.len(), 1);
    match &entries[0].1 {
        Datum::Text(s) => assert_eq!(s, "ferus"),
        other => panic!("unexpected datum: {:?}", other),
    }
}

#[test]
fn small_integer_and_size_fields() {
    let mut m = MappedData::serial_ready();
    m.serialize_entry(String::from("small"), 7u32);
    m.serialize_entry(String::from("size"), 9usize);
    let mut consuming = MappedData::try_from_data(m.into_serialized_entries()).unwrap();
    let mut small: u32 = 0;
    let mut size: usize = 0;
    consuming.deserialize_entry(String::from("small"), &mut small).unwrap();
    consuming.deserialize_entry(String::from("size"), &mut size).unwrap();
    assert_eq!(small, 7);
    assert_eq!(size, 9);
}

#[test]
fn duplicate_keys_rejected() {
    let pairs = vec![
        (Datum::Text("k".into()), Datum::UnsignedLarge(1)),
        (Datum::Text("k".into()), Datum::UnsignedLarge(2)),
    ];
    let r = MappedData::try_from_data(pairs);
    match r {
        Err(DeserializationError::FormatError(msg)) => {
            assert_eq!(msg, "backing entries must have unique scalar keys");
        },
        other => panic!("unexpected result: {:?}", other),
    }
}

#[test]
fn composite_keys_rejected() {
    let pairs = vec![(
        Datum::Mapping(MappedData::serial_ready()),
        Datum::UnsignedLarge(1),
    )];
    let r = MappedData::try_from_data(pairs);
    assert!(matches!(r, Err(DeserializationError::FormatError(_))));
}

#[test]
fn serde_entry_leaves_placeholder_while_producing() {
    let mut m = MappedData::serial_ready();
    let mut age: u64 = 52;
    m.serde_entry(String::from("age"), &mut age).unwrap();
    assert_eq!(age, 0);
    let entries = m.into_serialized_entries();
    assert!(matches!(entries[0].1, Datum::UnsignedLarge(52)));
}
