//! End-to-end tests of the `Serde` description trait over the two profile
//! shapes, including the binary round trip.

use data_profiles::{DeserializationError, EfficientProfile, ReadableProfile, Serde};
use data_profiles::profiles::{DataProfile, ProfileFromData};
use data_profiles::profiles::map::MappedData;
use data_profiles::binary::BinSerde;
use data_profiles::datum::Datum;

#[derive(Default, Debug, PartialEq)]
struct TestStruct {
    name: String,
    age: u64,
    id: String,
}

impl Serde<ReadableProfile> for TestStruct {
    fn fresh() -> Self {
        Self::default()
    }

    fn serde(&mut self, data: &mut ReadableProfile) -> Result<(), DeserializationError> {
        data.serde_cloned_matched_entry(
            String::from("name"),
            &mut self.name,
            &vec![String::from("fergus"), String::from("ferus")],
        )?;
        data.serde_entry(String::from("age"), &mut self.age)?;
        data.serde_entry(String::from("id"), &mut self.id)
    }
}

impl Serde<EfficientProfile> for TestStruct {
    fn fresh() -> Self {
        Self::default()
    }

    fn serde(&mut self, data: &mut EfficientProfile) -> Result<(), DeserializationError> {
        data.serde_item(&mut self.age)?;
        data.serde_item(&mut self.id)
    }
}

impl BinSerde<EfficientProfile> for TestStruct {}

#[test]
fn test_serde2() {
    let src = TestStruct {
        name: "ferus".into(),
        age: 52,
        id: "gangnam".into(),
    };
    let ser = src.serialize_bin().unwrap();
    println!("{:?}", ser);
    let deser = TestStruct::deserialize_bin(ser).unwrap();
    println!("{:?}", deser);
    assert_eq!(deser.age, 52);
    assert_eq!(deser.id, "gangnam");
}

#[test]
fn named_round_trip() {
    let src = TestStruct {
        name: "ferus".into(),
        age: 52,
        id: "gangnam".into(),
    };
    let profile = Serde::<ReadableProfile>::into_data_profile(src);
    let entries = profile.into_serialized_entries();
    let consuming = MappedData::try_from_data(entries).unwrap();
    let deser = TestStruct::from_data_profile(consuming).unwrap();
    assert_eq!(
        deser,
        TestStruct { name: "ferus".into(), age: 52, id: "gangnam".into() },
    );
}

#[test]
fn binary_round_trip_with_empty_text() {
    let src = TestStruct {
        name: String::new(),
        age: u64::MAX,
        id: String::new(),
    };
    let ser = src.serialize_bin().unwrap();
    assert_eq!(ser.len(), 8 + 4);
    let deser = TestStruct::deserialize_bin(ser).unwrap();
    assert_eq!(deser.age, u64::MAX);
    assert_eq!(deser.id, "");
}

#[test]
fn deserialize_missing_field() {
    // A named container lacking the declared key "age".
    let entries = vec![
        (Datum::Text("name".into()), Datum::Text("ferus".into())),
        (Datum::Text("id".into()), Datum::Text("gangnam".into())),
    ];
    let mut consuming = MappedData::try_from_data(entries).unwrap();
    let mut fields = TestStruct::default();
    let err = fields.serde(&mut consuming).unwrap_err();
    match err {
        DeserializationError::MissingField(f) => assert_eq!(f, "age"),
        other => panic!("unexpected error: {:?}", other),
    }
}

#[test]
fn serial_ready_is_serial() {
    let m = ReadableProfile::serial_ready();
    assert!(m.is_serial());
    let a = EfficientProfile::serial_ready();
    assert!(a.is_serial());
}
