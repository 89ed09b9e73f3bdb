//! A format-agnostic serialization and deserialization engine.
//!
//! An application type describes, once, how its fields map onto a structured
//! value made of tagged scalars ([`Datum`]), named-entry containers
//! ([`MappedData`]) and positional containers ([`ArrayData`]).  The same
//! description drives both directions: in serialization mode a container
//! accumulates values to be drained by a format adapter, in deserialization
//! mode it hands values back out of a backing store.  A compact
//! length-prefixed binary codec for positional data is part of the crate;
//! adapters for textual tree formats live outside it and talk to the
//! containers through plain entry and item lists.

use vstd::prelude::*;

pub mod datum;
pub mod profiles;
pub mod binary;

pub use crate::profiles::{ArrayData, MappedData, ProfileFromData, ProfileToData, DataProfile};

use crate::datum::DatumType;

verus! {

/// An error that can occur when trying to deserialize data.
#[derive(Debug)]
pub enum DeserializationError {
    /// An expected field could not be found.  Carries the field name.
    MissingField(String),
    /// An expected field holds a value of an unexpected kind.
    InvalidType {
        /// The name of the field; empty while the error has not yet been
        /// attached to a field by the accessor that requested the conversion.
        field: String,
        /// The kind that was requested.
        expected: DatumType,
        /// The kind that was actually stored.
        actual: DatumType,
    },
    /// An expected field does not contain any of the candidate values.
    NoMatch {
        /// The name of the field.
        field: String,
        /// A rendering of the value that was actually found.
        actual: String,
    },
    /// Bytes that should have held text were not a valid encoding.
    FromUTF8Error,
    /// The data being deserialized ended before the declared content did.
    UnexpectedEOF,
    /// The requested operation is not defined for the value's kind.
    Unsupported,
    /// An error carried as text: a report from an outside format parser,
    /// or a backing store that cannot serve as a consuming container.
    FormatError(String),
}

impl DeserializationError {
    /// Sets the field name on errors that carry one, to help with debugging.
    pub fn set_field(&mut self, new_field: String)
        ensures
            match *old(self) {
                DeserializationError::InvalidType { field: _, expected, actual } =>
                    *final(self) == (DeserializationError::InvalidType {
                        field: new_field,
                        expected,
                        actual,
                    }),
                DeserializationError::NoMatch { field: _, actual } =>
                    *final(self) == (DeserializationError::NoMatch {
                        field: new_field,
                        actual,
                    }),
                _ => *final(self) == *old(self),
            },
    {
        match self {
            DeserializationError::InvalidType { field, .. } => {
                *field = new_field;
            },
            DeserializationError::NoMatch { field, .. } => {
                *field = new_field;
            },
            _ => {},
        }
    }
}

/// Serialization and deserialization in one description.  Implement this
/// on a type to describe, field by field, how it moves through a data
/// profile; the same description serves both directions.
pub trait Serde<T: DataProfile>: Sized {
    /// A fresh value for deserialization to fill.
    fn fresh() -> Self;

    /// Describes the type's fields to the profile.  The profile's mode
    /// methods decide whether each call stores or loads.
    fn serde(&mut self, data: &mut T) -> Result<(), DeserializationError>;

    /// Serializes this value into a producing data profile.
    fn into_data_profile(self) -> T {
        let mut this = self;
        let mut data = T::serial_ready();
        let _ = this.serde(&mut data);
        data
    }

    /// Deserializes the given consuming data profile into a value.
    fn from_data_profile(data: T) -> Result<Self, DeserializationError> {
        let mut data = data;
        let mut deser = Self::fresh();
        match deser.serde(&mut data) {
            Ok(_) => Ok(deser),
            Err(e) => Err(e),
        }
    }

    /// Serializes into any type the profile can convert to, reporting
    /// contents that type cannot represent as an error.
    fn serialize<S>(self) -> Result<S, DeserializationError> where T: ProfileToData<S> {
        self.into_data_profile().try_into_data()
    }

    /// Deserializes from any type the profile can be built from.
    fn deserialize<D>(data: D) -> Result<Self, DeserializationError> where
        T: ProfileFromData<D>,
    {
        match T::try_from_data(data) {
            Ok(p) => Self::from_data_profile(p),
            Err(e) => Err(e),
        }
    }
}

/// A data profile for serialized data that is human readable: named
/// entries behind a tree-format adapter.
pub type ReadableProfile = MappedData;

/// A data profile for serialized data that is space efficient: positional
/// items in front of the binary codec.
pub type EfficientProfile = ArrayData;

} // verus!
