//! The positional container: an array-shaped structured value.  While
//! producing it accumulates `(value, width)` items in call order; while
//! consuming it decodes items from the front of a byte buffer.

use vstd::prelude::*;
use vstd::pervasive::unreached;

use crate::DeserializationError;
use crate::datum::{Datum, DatumType, DatumSize, CloneValue, Equals, FromDatum, GetDatumType,
    IntoDatum};
use crate::datum::{spec_find_match, lemma_find_match_props};
use crate::binary::{decode_datum, spec_can_decode, spec_decode_err, spec_decode_rest,
    spec_decoded};
use crate::profiles::{DataProfile, ProfileFromData};

verus! {

/// The capability interface of a positional backing store: decode and
/// return the next value of the requested kind, using the given width.
pub trait DatumArray {
    /// Which pulls the store supports; `get_datum` demands it.
    spec fn can_pull(&self, datum_type: DatumType, datum_size: DatumSize) -> bool;

    /// Removes and returns the next value, which must be of the requested
    /// kind, reading a length prefix of the given width where one applies.
    fn get_datum(&mut self, datum_type: DatumType, datum_size: DatumSize)
        -> (r: Result<Datum, DeserializationError>)
        requires
            old(self).can_pull(datum_type, datum_size),
    ;
}

/// The two mutually exclusive states of a positional container.
#[derive(Debug)]
pub enum SerdeArray {
    /// Accumulating `(value, width)` items in call order.
    Serializing(Vec<(Datum, DatumSize)>),
    /// Holding the undecoded remainder of a binary backing store.
    Deserializing(Vec<u8>),
}

/// A base data profile for data stored as an ordered sequence of items.
#[derive(Debug)]
pub struct ArrayData {
    data: SerdeArray,
}

/// The kinds the binary codec can carry.
pub open spec fn spec_pullable(datum_type: DatumType) -> bool {
    datum_type == DatumType::Text || datum_type == DatumType::UnsignedLarge
}

impl ArrayData {
    /// True while the container accumulates items for an adapter.
    pub closed spec fn is_serializing(&self) -> bool {
        self.data matches SerdeArray::Serializing(_)
    }

    /// The items accumulated so far, in call order.
    pub closed spec fn spec_items(&self) -> Seq<(Datum, DatumSize)> {
        match self.data {
            SerdeArray::Serializing(v) => v@,
            SerdeArray::Deserializing(_) => Seq::empty(),
        }
    }

    /// The bytes not yet consumed by decoding.
    pub closed spec fn spec_bytes(&self) -> Seq<u8> {
        match self.data {
            SerdeArray::Serializing(_) => Seq::empty(),
            SerdeArray::Deserializing(v) => v@,
        }
    }

    /// Decodes the next value of the requested kind from the backing store
    /// of a consuming container.
    fn pull(&mut self, datum_type: DatumType, datum_size: DatumSize)
        -> (r: Result<Datum, DeserializationError>)
        requires
            !old(self).is_serializing(),
            spec_pullable(datum_type),
        ensures
            !final(self).is_serializing(),
            ({
                let b = old(self).spec_bytes();
                let w = datum_size.spec_byte_size();
                &&& final(self).spec_bytes() == spec_decode_rest(b, datum_type, w)
                &&& spec_can_decode(b, datum_type, w) ==> (r matches Ok(d)
                    && spec_decoded(b, datum_type, w, d))
                &&& !spec_can_decode(b, datum_type, w) ==> (r matches Err(e)
                    && e == spec_decode_err(b, datum_type, w))
            }),
    {
        let mut tmp = SerdeArray::Deserializing(Vec::new());
        core::mem::swap(&mut self.data, &mut tmp);
        match tmp {
            SerdeArray::Deserializing(mut v) => {
                let r = decode_datum(&mut v, datum_type, datum_size);
                self.data = SerdeArray::Deserializing(v);
                r
            },
            SerdeArray::Serializing(_) => unreached(),
        }
    }

    /// Serializes the given item with the default four-byte width.
    pub fn serialize_item<T: IntoDatum>(&mut self, item: T)
        requires
            old(self).is_serializing(),
        ensures
            final(self).is_serializing(),
            final(self).spec_items() == old(self).spec_items().push(
                (item.spec_into_datum(), DatumSize::U32),
            ),
    {
        self.serialize_item_sized(item, DatumSize::U32);
    }

    /// Serializes the given item, recording the chosen width for its
    /// binary length prefix.
    pub fn serialize_item_sized<T: IntoDatum>(&mut self, item: T, size: DatumSize)
        requires
            old(self).is_serializing(),
        ensures
            final(self).is_serializing(),
            final(self).spec_items() == old(self).spec_items().push(
                (item.spec_into_datum(), size),
            ),
    {
        let mut tmp = SerdeArray::Serializing(Vec::new());
        core::mem::swap(&mut self.data, &mut tmp);
        match tmp {
            SerdeArray::Serializing(mut v) => {
                v.push((item.into_datum(), size));
                self.data = SerdeArray::Serializing(v);
            },
            SerdeArray::Deserializing(_) => unreached(),
        }
    }

    /// Deserializes the next item into `into`, using the default four-byte
    /// width for its length prefix.
    pub fn deserialize_item<T: FromDatum + GetDatumType>(&mut self, into: &mut T)
        -> (r: Result<(), DeserializationError>)
        requires
            !old(self).is_serializing(),
            spec_pullable(T::spec_datum_type()),
        ensures
            !final(self).is_serializing(),
            spec_item_outcome::<T>(
                old(self).spec_bytes(),
                DatumSize::U32.spec_byte_size(),
                final(self).spec_bytes(),
                r,
                *old(into),
                *final(into),
            ),
    {
        self.deserialize_item_sized(into, DatumSize::U32)
    }

    /// Deserializes the next item into `into`, reading a length prefix of
    /// the given width where one applies.
    pub fn deserialize_item_sized<T: FromDatum + GetDatumType>(
        &mut self,
        into: &mut T,
        size: DatumSize,
    ) -> (r: Result<(), DeserializationError>)
        requires
            !old(self).is_serializing(),
            spec_pullable(T::spec_datum_type()),
        ensures
            !final(self).is_serializing(),
            spec_item_outcome::<T>(
                old(self).spec_bytes(),
                size.spec_byte_size(),
                final(self).spec_bytes(),
                r,
                *old(into),
                *final(into),
            ),
    {
        let item = match self.pull(T::get_datum_type(), size) {
            Ok(d) => d,
            Err(e) => {
                return Err(e);
            },
        };
        match T::from_datum(item) {
            Ok(v) => {
                *into = v;
                Ok(())
            },
            Err(e) => Err(e),
        }
    }

    /// Deserializes the next item, which must equal one of the candidates;
    /// the first candidate equal to the decoded value is moved into `into`.
    #[verifier::loop_isolation(false)]
    pub fn deserialize_matched_item<T: GetDatumType + Equals<Datum>>(
        &mut self,
        into: &mut T,
        candidates: Vec<T>,
    ) -> (r: Result<(), DeserializationError>)
        requires
            !old(self).is_serializing(),
            spec_pullable(T::spec_datum_type()),
        ensures
            !final(self).is_serializing(),
            spec_matched_item_outcome::<T>(
                old(self).spec_bytes(),
                DatumSize::U32.spec_byte_size(),
                final(self).spec_bytes(),
                r,
                *old(into),
                *final(into),
                candidates@,
            ),
    {
        let ghost b = self.spec_bytes();
        let ghost w = DatumSize::U32.spec_byte_size();
        let item = match self.pull(T::get_datum_type(), DatumSize::U32) {
            Ok(d) => d,
            Err(e) => {
                return Err(e);
            },
        };
        proof {
            lemma_find_match_props(candidates@, item);
        }
        let mut cands = candidates;
        let n = cands.len();
        for j in 0..n
            invariant
                n == cands@.len(),
                cands@ == candidates@,
                *into == *old(into),
                forall|k: int| 0 <= k < j ==> !(#[trigger] cands@[k]).spec_equals(&item),
        {
            if cands[j].equals(&item) {
                let v = cands.remove(j);
                *into = v;
                return Ok(());
            }
        }
        Err(DeserializationError::NoMatch {
            field: String::new(),
            actual: item.describe(),
        })
    }

    /// Deserializes the next item, which must equal one of the candidates;
    /// the first candidate equal to the decoded value is duplicated into
    /// `into`.
    #[verifier::loop_isolation(false)]
    pub fn deserialize_cloned_matched_item<T: GetDatumType + Equals<Datum> + CloneValue>(
        &mut self,
        into: &mut T,
        candidates: &Vec<T>,
    ) -> (r: Result<(), DeserializationError>)
        requires
            !old(self).is_serializing(),
            spec_pullable(T::spec_datum_type()),
        ensures
            !final(self).is_serializing(),
            spec_matched_item_outcome::<T>(
                old(self).spec_bytes(),
                DatumSize::U32.spec_byte_size(),
                final(self).spec_bytes(),
                r,
                *old(into),
                *final(into),
                candidates@,
            ),
    {
        let item = match self.pull(T::get_datum_type(), DatumSize::U32) {
            Ok(d) => d,
            Err(e) => {
                return Err(e);
            },
        };
        proof {
            lemma_find_match_props(candidates@, item);
        }
        let n = candidates.len();
        for j in 0..n
            invariant
                n == candidates@.len(),
                *into == *old(into),
                forall|k: int| 0 <= k < j ==> !(#[trigger] candidates@[k]).spec_equals(&item),
        {
            if candidates[j].equals(&item) {
                *into = candidates[j].clone_value();
                return Ok(());
            }
        }
        Err(DeserializationError::NoMatch {
            field: String::new(),
            actual: item.describe(),
        })
    }

    /// Either serializes or deserializes the next item, following the
    /// container's mode, with the default four-byte width.
    pub fn serde_item<T: IntoDatum + FromDatum + GetDatumType>(&mut self, into: &mut T)
        -> (r: Result<(), DeserializationError>)
        requires
            spec_pullable(T::spec_datum_type()),
        ensures
            final(self).is_serializing() == old(self).is_serializing(),
            old(self).is_serializing() ==> {
                &&& r is Ok
                &&& final(self).spec_items() == old(self).spec_items().push(
                    (old(into).spec_into_datum(), DatumSize::U32),
                )
                &&& T::spec_is_placeholder(*final(into))
            },
            !old(self).is_serializing() ==> spec_item_outcome::<T>(
                old(self).spec_bytes(),
                DatumSize::U32.spec_byte_size(),
                final(self).spec_bytes(),
                r,
                *old(into),
                *final(into),
            ),
    {
        if self.is_serial() {
            let v = into.take_value();
            self.serialize_item(v);
            Ok(())
        } else {
            self.deserialize_item(into)
        }
    }

    /// Either serializes or deserializes the next item with the given
    /// width, following the container's mode.
    pub fn serde_item_sized<T: IntoDatum + FromDatum + GetDatumType>(
        &mut self,
        into: &mut T,
        size: DatumSize,
    ) -> (r: Result<(), DeserializationError>)
        requires
            spec_pullable(T::spec_datum_type()),
        ensures
            final(self).is_serializing() == old(self).is_serializing(),
            old(self).is_serializing() ==> {
                &&& r is Ok
                &&& final(self).spec_items() == old(self).spec_items().push(
                    (old(into).spec_into_datum(), size),
                )
                &&& T::spec_is_placeholder(*final(into))
            },
            !old(self).is_serializing() ==> spec_item_outcome::<T>(
                old(self).spec_bytes(),
                size.spec_byte_size(),
                final(self).spec_bytes(),
                r,
                *old(into),
                *final(into),
            ),
    {
        if self.is_serial() {
            let v = into.take_value();
            self.serialize_item_sized(v, size);
            Ok(())
        } else {
            self.deserialize_item_sized(into, size)
        }
    }

    /// Either serializes or deserializes the next item that, while
    /// deserializing, must equal one of the candidates, which is moved.
    pub fn serde_matched_item<T: IntoDatum + GetDatumType + Equals<Datum>>(
        &mut self,
        into: &mut T,
        candidates: Vec<T>,
    ) -> (r: Result<(), DeserializationError>)
        requires
            spec_pullable(T::spec_datum_type()),
        ensures
            final(self).is_serializing() == old(self).is_serializing(),
            old(self).is_serializing() ==> {
                &&& r is Ok
                &&& final(self).spec_items() == old(self).spec_items().push(
                    (old(into).spec_into_datum(), DatumSize::U32),
                )
                &&& T::spec_is_placeholder(*final(into))
            },
            !old(self).is_serializing() ==> spec_matched_item_outcome::<T>(
                old(self).spec_bytes(),
                DatumSize::U32.spec_byte_size(),
                final(self).spec_bytes(),
                r,
                *old(into),
                *final(into),
                candidates@,
            ),
    {
        if self.is_serial() {
            let v = into.take_value();
            self.serialize_item(v);
            Ok(())
        } else {
            self.deserialize_matched_item(into, candidates)
        }
    }

    /// Either serializes or deserializes the next item that, while
    /// deserializing, must equal one of the candidates, which is
    /// duplicated.
    pub fn serde_cloned_matched_item<T: IntoDatum + GetDatumType + Equals<Datum> + CloneValue>(
        &mut self,
        into: &mut T,
        candidates: &Vec<T>,
    ) -> (r: Result<(), DeserializationError>)
        requires
            spec_pullable(T::spec_datum_type()),
        ensures
            final(self).is_serializing() == old(self).is_serializing(),
            old(self).is_serializing() ==> {
                &&& r is Ok
                &&& final(self).spec_items() == old(self).spec_items().push(
                    (old(into).spec_into_datum(), DatumSize::U32),
                )
                &&& T::spec_is_placeholder(*final(into))
            },
            !old(self).is_serializing() ==> spec_matched_item_outcome::<T>(
                old(self).spec_bytes(),
                DatumSize::U32.spec_byte_size(),
                final(self).spec_bytes(),
                r,
                *old(into),
                *final(into),
                candidates@,
            ),
    {
        if self.is_serial() {
            let v = into.take_value();
            self.serialize_item(v);
            Ok(())
        } else {
            self.deserialize_cloned_matched_item(into, candidates)
        }
    }

    /// Drains this producing container into its accumulated items, in call
    /// order, for a format adapter to turn into its own representation.
    pub fn into_serialized_items(self) -> (r: Vec<(Datum, DatumSize)>)
        requires
            self.is_serializing(),
        ensures
            r@ == self.spec_items(),
    {
        match self.data {
            SerdeArray::Serializing(v) => v,
            SerdeArray::Deserializing(_) => unreached(),
        }
    }
}

/// What deserializing one positional item of `T`'s kind from the front of
/// `b` yields: the decoded value converted into `into_new` on success, the
/// codec's own error when the buffer is short or the text invalid, and a
/// kind mismatch reported without a field name.
pub open spec fn spec_item_outcome<T: FromDatum + GetDatumType>(
    b: Seq<u8>,
    w: nat,
    b_new: Seq<u8>,
    r: Result<(), DeserializationError>,
    into_old: T,
    into_new: T,
) -> bool {
    let t = T::spec_datum_type();
    &&& b_new == spec_decode_rest(b, t, w)
    &&& if spec_can_decode(b, t, w) {
        exists|d: Datum|
            #[trigger] spec_decoded(b, t, w, d) && match T::spec_from_datum(d) {
                Option::Some(v) => r is Ok && into_new == v,
                Option::None => r matches Err(e)
                    && e matches DeserializationError::InvalidType { field, expected, actual }
                    && field@ == Seq::<char>::empty()
                    && expected == T::spec_expected_type()
                    && actual == d.spec_type()
                    && into_new == into_old,
            }
    } else {
        r matches Err(e) && e == spec_decode_err(b, t, w) && into_new == into_old
    }
}

/// What deserializing one matched positional item yields: the first
/// candidate equal to the decoded value, or `NoMatch` carrying a rendering
/// of that value and no field name.
pub open spec fn spec_matched_item_outcome<T: GetDatumType + Equals<Datum>>(
    b: Seq<u8>,
    w: nat,
    b_new: Seq<u8>,
    r: Result<(), DeserializationError>,
    into_old: T,
    into_new: T,
    cands: Seq<T>,
) -> bool {
    let t = T::spec_datum_type();
    &&& b_new == spec_decode_rest(b, t, w)
    &&& if spec_can_decode(b, t, w) {
        exists|d: Datum|
            #[trigger] spec_decoded(b, t, w, d) && ({
                let j = spec_find_match(cands, d);
                if j >= 0 {
                    r is Ok && into_new == cands[j]
                } else {
                    r matches Err(e) && e matches DeserializationError::NoMatch { field, actual }
                        && field@ == Seq::<char>::empty()
                        && actual@ == d.spec_describe()
                        && into_new == into_old
                }
            })
    } else {
        r matches Err(e) && e == spec_decode_err(b, t, w) && into_new == into_old
    }
}

impl DataProfile for ArrayData {
    open spec fn spec_is_serial(&self) -> bool {
        self.is_serializing()
    }

    fn is_serial(&self) -> (r: bool) {
        match &self.data {
            SerdeArray::Serializing(_) => true,
            SerdeArray::Deserializing(_) => false,
        }
    }

    fn serial_ready() -> (r: Self)
        ensures
            r.spec_items() == Seq::<(Datum, DatumSize)>::empty(),
    {
        ArrayData { data: SerdeArray::Serializing(Vec::new()) }
    }
}

impl ProfileFromData<Vec<u8>> for ArrayData {
    fn try_from_data(data: Vec<u8>) -> (r: Result<Self, DeserializationError>)
        ensures
            r matches Ok(a) && !a.is_serializing() && a.spec_bytes() == data@,
    {
        Ok(ArrayData { data: SerdeArray::Deserializing(data) })
    }
}

} // verus!
