//! The shared contract of data profiles: a profile is either producing
//! values for a format adapter to drain, or consuming values pulled from a
//! backing store, never both.

use vstd::prelude::*;

pub use array::ArrayData;
pub use map::MappedData;

pub mod map;
pub mod array;

use crate::DeserializationError;

verus! {

/// The contract every data profile implements.
pub trait DataProfile: Sized {
    /// True iff the profile is being used to serialize data.
    spec fn spec_is_serial(&self) -> bool;

    /// Returns true iff the profile is being used to serialize data.
    /// It is false for every profile created from already serialized data.
    fn is_serial(&self) -> (r: bool)
        ensures
            r == self.spec_is_serial(),
    ;

    /// Instantiates a profile that is ready for serialization.
    fn serial_ready() -> (r: Self)
        ensures
            r.spec_is_serial(),
    ;
}

/// Lets a data profile be instantiated from another type, ready for
/// deserialization.
pub trait ProfileFromData<D>: Sized {
    /// Tries to create a data profile from the given data.
    fn try_from_data(data: D) -> (r: Result<Self, DeserializationError>);
}

/// Lets a data profile convert into another type once serialization through
/// it has finished.
pub trait ProfileToData<D>: Sized {
    /// Whether this profile's contents can convert without loss; `into_data`
    /// demands it of its caller.
    spec fn can_convert(&self) -> bool;

    /// Converts the data profile into the target type.
    fn into_data(self) -> (r: D)
        requires
            self.can_convert(),
    ;

    /// Converts the data profile into the target type, reporting contents
    /// the target cannot represent as an error instead of demanding proof.
    fn try_into_data(self) -> (r: Result<D, DeserializationError>)
        ensures
            self.can_convert() ==> r is Ok,
    ;
}

/// Moves the contents of one data profile into a fresh profile of another
/// alias of the same base, leaving nothing behind.  With the profile aliases
/// of this crate both sides are the same base type, so the move is the value
/// itself.
pub fn convert_data_profile<P>(src: P) -> (r: P)
    ensures
        r == src,
{
    src
}

} // verus!
