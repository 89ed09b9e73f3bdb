//! The named-entry container: a map-shaped structured value.  While
//! producing it accumulates unique-keyed entries; while consuming it hands
//! entries out of a backing store, each at most once.

use vstd::prelude::*;
use vstd::pervasive::unreached;

use crate::DeserializationError;
use crate::datum::{Datum, CloneValue, Equals, FromDatum, IntoDatum};
use crate::datum::{spec_find_match, lemma_find_match_props};
use crate::profiles::{DataProfile, ProfileFromData};

verus! {

/// The capability interface of a named backing store: remove and return the
/// value stored under a key, or report it missing.
pub trait DatumMap {
    /// Which pulls the store supports; `get_datum` demands it.
    spec fn can_pull(&self, key: &Datum) -> bool;

    /// Removes and returns the value stored under `key`.
    fn get_datum(&mut self, key: &Datum) -> (r: Result<Datum, DeserializationError>)
        requires
            old(self).can_pull(key),
    ;
}

/// The two mutually exclusive states of a named-entry container.
#[derive(Debug)]
pub enum SerdeMap {
    /// Accumulating entries to be drained by a format adapter.
    Serializing(Vec<(Datum, Datum)>),
    /// Holding the entries of a backing store, pulled out one by one.
    Deserializing(Vec<(Datum, Datum)>),
}

/// A base data profile for data stored as named entries with unique keys.
#[derive(Debug)]
pub struct MappedData {
    data: SerdeMap,
}

/// The first position holding `key`, or -1 when no entry does.
pub open spec fn spec_find_key(pairs: Seq<(Datum, Datum)>, key: Datum) -> int
    decreases pairs.len(),
{
    if pairs.len() == 0 {
        -1
    } else if key.spec_matches(pairs[0].0) {
        0
    } else {
        let r = spec_find_key(pairs.drop_first(), key);
        if r < 0 {
            -1
        } else {
            r + 1
        }
    }
}

/// What `spec_find_key` finds: the first entry holding `key`, or that no
/// entry holds it.
pub proof fn lemma_find_key_props(pairs: Seq<(Datum, Datum)>, key: Datum)
    ensures
        ({
            let i = spec_find_key(pairs, key);
            &&& -1 <= i < pairs.len()
            &&& i >= 0 ==> key.spec_matches(pairs[i].0)
                && (forall|j: int| 0 <= j < i ==> !key.spec_matches((#[trigger] pairs[j]).0))
            &&& i == -1 ==> (forall|j: int|
                0 <= j < pairs.len() ==> !key.spec_matches((#[trigger] pairs[j]).0))
        }),
    decreases pairs.len(),
{
    if pairs.len() == 0 {
    } else if key.spec_matches(pairs[0].0) {
    } else {
        let rest = pairs.drop_first();
        let r = spec_find_key(rest, key);
        lemma_find_key_props(rest, key);
        if r < 0 {
            assert forall|j: int| 0 <= j < pairs.len()
                implies !key.spec_matches((#[trigger] pairs[j]).0) by {
                if j > 0 {
                    assert(pairs[j] == rest[j - 1]);
                }
            }
        } else {
            assert(pairs[r + 1] == rest[r]);
            assert forall|j: int| 0 <= j < r + 1
                implies !key.spec_matches((#[trigger] pairs[j]).0) by {
                if j > 0 {
                    assert(pairs[j] == rest[j - 1]);
                }
            }
        }
    }
}

/// The entries after storing `value` under `key`: the first entry holding
/// `key` is updated in place, or a new entry is appended.
pub open spec fn spec_map_set(pairs: Seq<(Datum, Datum)>, key: Datum, value: Datum)
    -> Seq<(Datum, Datum)> {
    let i = spec_find_key(pairs, key);
    if i < 0 {
        pairs.push((key, value))
    } else {
        pairs.update(i, (pairs[i].0, value))
    }
}

/// Well-formed producing entries: every key a scalar, no two keys equal.
pub open spec fn spec_keys_unique(pairs: Seq<(Datum, Datum)>) -> bool {
    (forall|i: int| 0 <= i < pairs.len() ==> (#[trigger] pairs[i]).0.is_scalar())
    && (forall|i: int, j: int|
        0 <= i < pairs.len() && 0 <= j < pairs.len() && i != j
            ==> !(#[trigger] pairs[i]).0.spec_matches((#[trigger] pairs[j]).0))
}

/// Removing an entry keeps the remaining keys unique.
pub proof fn lemma_keys_unique_remove(pairs: Seq<(Datum, Datum)>, i: int)
    requires
        spec_keys_unique(pairs),
        0 <= i < pairs.len(),
    ensures
        spec_keys_unique(pairs.remove(i)),
{
    let r = pairs.remove(i);
    assert forall|a: int| 0 <= a < r.len() implies (#[trigger] r[a]).0.is_scalar() by {
        if a < i {
            assert(r[a] == pairs[a]);
        } else {
            assert(r[a] == pairs[a + 1]);
        }
    }
    assert forall|a: int, b: int| 0 <= a < r.len() && 0 <= b < r.len() && a != b
        implies !(#[trigger] r[a]).0.spec_matches((#[trigger] r[b]).0) by {
        let a0 = if a < i { a } else { a + 1 };
        let b0 = if b < i { b } else { b + 1 };
        assert(r[a] == pairs[a0]);
        assert(r[b] == pairs[b0]);
    }
}

/// The ground of the destructive-pull rule: once the entry a key finds in
/// a unique-keyed store is removed, no entry holding that key remains, so
/// a second pull of the same key reports it missing.
pub proof fn lemma_pull_destructive(pairs: Seq<(Datum, Datum)>, key: Datum)
    requires
        spec_keys_unique(pairs),
        key.is_scalar(),
        spec_find_key(pairs, key) >= 0,
    ensures
        spec_find_key(pairs.remove(spec_find_key(pairs, key)), key) == -1,
{
    let i = spec_find_key(pairs, key);
    lemma_find_key_props(pairs, key);
    let removed = pairs.remove(i);
    lemma_find_key_props(removed, key);
    let r = spec_find_key(removed, key);
    if r >= 0 {
        let j = if r < i { r } else { r + 1 };
        assert(removed[r] == pairs[j]);
        assert(key.spec_matches(pairs[i].0));
        assert(key.spec_matches(pairs[j].0));
        assert(pairs[i].0.spec_matches(pairs[j].0));
        assert(false);
    }
}

/// Scans for the first entry holding `key`.
fn find_key(pairs: &Vec<(Datum, Datum)>, key: &Datum) -> (r: Option<usize>)
    requires
        key.is_scalar(),
    ensures
        match r {
            Option::Some(i) => i == spec_find_key(pairs@, *key) && i < pairs@.len(),
            Option::None => spec_find_key(pairs@, *key) == -1,
        },
{
    proof {
        lemma_find_key_props(pairs@, *key);
    }
    let n = pairs.len();
    for i in 0..n
        invariant
            n == pairs@.len(),
            key.is_scalar(),
            forall|j: int| 0 <= j < i ==> !key.spec_matches((#[trigger] pairs@[j]).0),
    {
        if key.scalar_eq(&pairs[i].0) {
            proof {
                lemma_find_key_props(pairs@, *key);
            }
            return Option::Some(i);
        }
    }
    Option::None
}

/// Removes and returns the value stored under `key` in a plain entry list,
/// the backing store of a consuming named-entry container.
pub fn pull_pair(pairs: &mut Vec<(Datum, Datum)>, key: &Datum)
    -> (r: Result<Datum, DeserializationError>)
    requires
        key.is_scalar(),
    ensures
        ({
            let i = spec_find_key(old(pairs)@, *key);
            if i >= 0 {
                &&& r matches Ok(d) && d == old(pairs)@[i].1
                &&& final(pairs)@ == old(pairs)@.remove(i)
            } else {
                &&& r matches Err(e) && e matches DeserializationError::MissingField(f)
                    && f@ == key.spec_key_string()
                &&& final(pairs)@ == old(pairs)@
            }
        }),
{
    match find_key(pairs, key) {
        Option::Some(i) => Ok(pairs.remove(i).1),
        Option::None => Err(DeserializationError::MissingField(key.to_key_string())),
    }
}

impl DatumMap for Vec<(Datum, Datum)> {
    open spec fn can_pull(&self, key: &Datum) -> bool {
        key.is_scalar()
    }

    fn get_datum(&mut self, key: &Datum) -> (r: Result<Datum, DeserializationError>)
        ensures
            ({
                let i = spec_find_key(old(self)@, *key);
                if i >= 0 {
                    &&& r matches Ok(d) && d == old(self)@[i].1
                    &&& final(self)@ == old(self)@.remove(i)
                } else {
                    &&& r matches Err(e) && e matches DeserializationError::MissingField(f)
                        && f@ == key.spec_key_string()
                    &&& final(self)@ == old(self)@
                }
            }),
    {
        pull_pair(self, key)
    }
}

impl MappedData {
    /// True while the container accumulates entries for an adapter.
    pub closed spec fn is_serializing(&self) -> bool {
        self.data matches SerdeMap::Serializing(_)
    }

    /// The entries currently held, producing or consuming alike.
    pub closed spec fn spec_pairs(&self) -> Seq<(Datum, Datum)> {
        match self.data {
            SerdeMap::Serializing(v) => v@,
            SerdeMap::Deserializing(v) => v@,
        }
    }

    /// The container's invariant: entries keep unique scalar keys — while
    /// producing by construction, while consuming because the backing list
    /// is validated on entry.  Uniqueness is what makes pulling
    /// destructive: a key can yield a value at most once.
    pub open spec fn wf(&self) -> bool {
        spec_keys_unique(self.spec_pairs())
    }

    /// Removes and returns the value stored under `key` from the backing
    /// store of a consuming container.
    fn pull(&mut self, key: &Datum) -> (r: Result<Datum, DeserializationError>)
        requires
            !old(self).is_serializing(),
            old(self).wf(),
            key.is_scalar(),
        ensures
            !final(self).is_serializing(),
            final(self).wf(),
            ({
                let pairs = old(self).spec_pairs();
                let i = spec_find_key(pairs, *key);
                if i >= 0 {
                    &&& r matches Ok(d) && d == pairs[i].1
                    &&& final(self).spec_pairs() == pairs.remove(i)
                } else {
                    &&& r matches Err(e) && e matches DeserializationError::MissingField(f)
                        && f@ == key.spec_key_string()
                    &&& final(self).spec_pairs() == pairs
                }
            }),
    {
        let mut tmp = SerdeMap::Deserializing(Vec::new());
        core::mem::swap(&mut self.data, &mut tmp);
        match tmp {
            SerdeMap::Deserializing(mut v) => {
                let r = pull_pair(&mut v, key);
                self.data = SerdeMap::Deserializing(v);
                proof {
                    let pairs = old(self).spec_pairs();
                    let i = spec_find_key(pairs, *key);
                    lemma_find_key_props(pairs, *key);
                    if i >= 0 {
                        lemma_keys_unique_remove(pairs, i);
                    }
                }
                r
            },
            SerdeMap::Serializing(_) => unreached(),
        }
    }

    /// Serializes a named value as an entry, overwriting any prior value
    /// stored under the same key.
    pub fn serialize_entry<K: IntoDatum, V: IntoDatum>(&mut self, name: K, value: V)
        requires
            old(self).is_serializing(),
            old(self).wf(),
            name.spec_into_datum().is_scalar(),
        ensures
            final(self).is_serializing(),
            final(self).wf(),
            final(self).spec_pairs() == spec_map_set(
                old(self).spec_pairs(),
                name.spec_into_datum(),
                value.spec_into_datum(),
            ),
    {
        let key = name.into_datum();
        let val = value.into_datum();
        let ghost pairs = self.spec_pairs();
        let mut tmp = SerdeMap::Serializing(Vec::new());
        core::mem::swap(&mut self.data, &mut tmp);
        match tmp {
            SerdeMap::Serializing(mut v) => {
                proof {
                    lemma_find_key_props(v@, key);
                }
                match find_key(&v, &key) {
                    Option::Some(i) => {
                        let prior = v.remove(i);
                        v.insert(i, (prior.0, val));
                        proof {
                            assert(v@ =~= spec_map_set(pairs, key, val));
                        }
                    },
                    Option::None => {
                        v.push((key, val));
                        proof {
                            assert(v@ =~= spec_map_set(pairs, key, val));
                        }
                    },
                }
                self.data = SerdeMap::Serializing(v);
                proof {
                    let newpairs = self.spec_pairs();
                    let i = spec_find_key(pairs, key);
                    lemma_find_key_props(pairs, key);
                    assert forall|a: int, b: int|
                        0 <= a < newpairs.len() && 0 <= b < newpairs.len() && a != b
                        implies !(#[trigger] newpairs[a]).0.spec_matches(
                            (#[trigger] newpairs[b]).0)
                    by {
                        if i < 0 {
                            if a < pairs.len() && b < pairs.len() {
                            } else if a == pairs.len() {
                                assert(newpairs[a].0 == key);
                            } else {
                                assert(newpairs[b].0 == key);
                            }
                        }
                    }
                }
            },
            SerdeMap::Deserializing(_) => unreached(),
        }
    }

    /// Deserializes the named entry into `into`, converting the pulled
    /// value to the target type and attaching the key to a type mismatch.
    pub fn deserialize_entry<K: IntoDatum, V: FromDatum>(
        &mut self,
        name: K,
        into: &mut V,
    ) -> (r: Result<(), DeserializationError>)
        requires
            !old(self).is_serializing(),
            old(self).wf(),
            name.spec_into_datum().is_scalar(),
        ensures
            !final(self).is_serializing(),
            final(self).wf(),
            ({
                let pairs = old(self).spec_pairs();
                let key = name.spec_into_datum();
                let i = spec_find_key(pairs, key);
                if i < 0 {
                    &&& r matches Err(e) && e matches DeserializationError::MissingField(f)
                        && f@ == key.spec_key_string()
                    &&& final(self).spec_pairs() == pairs
                    &&& *final(into) == *old(into)
                } else {
                    &&& final(self).spec_pairs() == pairs.remove(i)
                    &&& match V::spec_from_datum(pairs[i].1) {
                        Option::Some(v) => r is Ok && *final(into) == v,
                        Option::None => r matches Err(e)
                            && e matches DeserializationError::InvalidType {
                                field,
                                expected,
                                actual,
                            }
                            && field@ == key.spec_key_string()
                            && expected == V::spec_expected_type()
                            && actual == pairs[i].1.spec_type()
                            && *final(into) == *old(into),
                    }
                }
            }),
    {
        let key = name.into_datum();
        let item = match self.pull(&key) {
            Ok(d) => d,
            Err(e) => {
                return Err(e);
            },
        };
        match V::from_datum(item) {
            Ok(v) => {
                *into = v;
                Ok(())
            },
            Err(mut e) => {
                e.set_field(key.to_key_string());
                Err(e)
            },
        }
    }

    /// Deserializes a named entry that must equal one of the candidates;
    /// the first candidate equal to the pulled value is moved into `into`.
    #[verifier::loop_isolation(false)]
    pub fn deserialize_matched_entry<K: IntoDatum, V: Equals<Datum>>(
        &mut self,
        name: K,
        into: &mut V,
        candidates: Vec<V>,
    ) -> (r: Result<(), DeserializationError>)
        requires
            !old(self).is_serializing(),
            old(self).wf(),
            name.spec_into_datum().is_scalar(),
        ensures
            !final(self).is_serializing(),
            final(self).wf(),
            ({
                let pairs = old(self).spec_pairs();
                let key = name.spec_into_datum();
                let i = spec_find_key(pairs, key);
                if i < 0 {
                    &&& r matches Err(e) && e matches DeserializationError::MissingField(f)
                        && f@ == key.spec_key_string()
                    &&& final(self).spec_pairs() == pairs
                    &&& *final(into) == *old(into)
                } else {
                    &&& final(self).spec_pairs() == pairs.remove(i)
                    &&& ({
                        let item = pairs[i].1;
                        let j = spec_find_match(candidates@, item);
                        if j >= 0 {
                            r is Ok && *final(into) == candidates@[j]
                        } else {
                            r matches Err(e) && e matches DeserializationError::NoMatch {
                                field,
                                actual,
                            }
                            && field@ == key.spec_key_string()
                            && actual@ == item.spec_describe()
                            && *final(into) == *old(into)
                        }
                    })
                }
            }),
    {
        let key = name.into_datum();
        let item = match self.pull(&key) {
            Ok(d) => d,
            Err(e) => {
                return Err(e);
            },
        };
        proof {
            lemma_find_match_props(candidates@, item);
        }
        let mut cands = candidates;
        let n = cands.len();
        for j in 0..n
            invariant
                n == cands@.len(),
                cands@ == candidates@,
                *into == *old(into),
                forall|k: int| 0 <= k < j ==> !(#[trigger] cands@[k]).spec_equals(&item),
        {
            if cands[j].equals(&item) {
                let v = cands.remove(j);
                *into = v;
                return Ok(());
            }
        }
        Err(DeserializationError::NoMatch {
            field: key.to_key_string(),
            actual: item.describe(),
        })
    }

    /// Deserializes a named entry that must equal one of the candidates;
    /// the first candidate equal to the pulled value is duplicated into
    /// `into`.
    #[verifier::loop_isolation(false)]
    pub fn deserialize_cloned_matched_entry<K: IntoDatum, V: Equals<Datum> + CloneValue>(
        &mut self,
        name: K,
        into: &mut V,
        candidates: &Vec<V>,
    ) -> (r: Result<(), DeserializationError>)
        requires
            !old(self).is_serializing(),
            old(self).wf(),
            name.spec_into_datum().is_scalar(),
        ensures
            !final(self).is_serializing(),
            final(self).wf(),
            ({
                let pairs = old(self).spec_pairs();
                let key = name.spec_into_datum();
                let i = spec_find_key(pairs, key);
                if i < 0 {
                    &&& r matches Err(e) && e matches DeserializationError::MissingField(f)
                        && f@ == key.spec_key_string()
                    &&& final(self).spec_pairs() == pairs
                    &&& *final(into) == *old(into)
                } else {
                    &&& final(self).spec_pairs() == pairs.remove(i)
                    &&& ({
                        let item = pairs[i].1;
                        let j = spec_find_match(candidates@, item);
                        if j >= 0 {
                            r is Ok && *final(into) == candidates@[j]
                        } else {
                            r matches Err(e) && e matches DeserializationError::NoMatch {
                                field,
                                actual,
                            }
                            && field@ == key.spec_key_string()
                            && actual@ == item.spec_describe()
                            && *final(into) == *old(into)
                        }
                    })
                }
            }),
    {
        let key = name.into_datum();
        let item = match self.pull(&key) {
            Ok(d) => d,
            Err(e) => {
                return Err(e);
            },
        };
        proof {
            lemma_find_match_props(candidates@, item);
        }
        let n = candidates.len();
        for j in 0..n
            invariant
                n == candidates@.len(),
                *into == *old(into),
                forall|k: int| 0 <= k < j ==> !(#[trigger] candidates@[k]).spec_equals(&item),
        {
            if candidates[j].equals(&item) {
                *into = candidates[j].clone_value();
                return Ok(());
            }
        }
        Err(DeserializationError::NoMatch {
            field: key.to_key_string(),
            actual: item.describe(),
        })
    }

    /// Either serializes or deserializes a named entry, following the
    /// container's mode.  While serializing, the field's value is moved out
    /// and a harmless stand-in left behind.
    pub fn serde_entry<K: IntoDatum, V: IntoDatum + FromDatum>(
        &mut self,
        name: K,
        value: &mut V,
    ) -> (r: Result<(), DeserializationError>)
        requires
            old(self).wf(),
            name.spec_into_datum().is_scalar(),
        ensures
            final(self).wf(),
            final(self).is_serializing() == old(self).is_serializing(),
            old(self).is_serializing() ==> {
                &&& r is Ok
                &&& final(self).spec_pairs() == spec_map_set(
                    old(self).spec_pairs(),
                    name.spec_into_datum(),
                    old(value).spec_into_datum(),
                )
                &&& V::spec_is_placeholder(*final(value))
            },
            !old(self).is_serializing() ==> ({
                let pairs = old(self).spec_pairs();
                let key = name.spec_into_datum();
                let i = spec_find_key(pairs, key);
                if i < 0 {
                    &&& r matches Err(e) && e matches DeserializationError::MissingField(f)
                        && f@ == key.spec_key_string()
                    &&& final(self).spec_pairs() == pairs
                    &&& *final(value) == *old(value)
                } else {
                    &&& final(self).spec_pairs() == pairs.remove(i)
                    &&& match V::spec_from_datum(pairs[i].1) {
                        Option::Some(v) => r is Ok && *final(value) == v,
                        Option::None => r matches Err(e)
                            && e matches DeserializationError::InvalidType {
                                field,
                                expected,
                                actual,
                            }
                            && field@ == key.spec_key_string()
                            && expected == V::spec_expected_type()
                            && actual == pairs[i].1.spec_type()
                            && *final(value) == *old(value),
                    }
                }
            }),
    {
        if self.is_serial() {
            let v = value.take_value();
            self.serialize_entry(name, v);
            Ok(())
        } else {
            self.deserialize_entry(name, value)
        }
    }

    /// Either serializes or deserializes a named entry that, while
    /// deserializing, must equal one of the candidates, which is moved.
    pub fn serde_matched_entry<K: IntoDatum, V: IntoDatum + Equals<Datum>>(
        &mut self,
        name: K,
        value: &mut V,
        candidates: Vec<V>,
    ) -> (r: Result<(), DeserializationError>)
        requires
            old(self).wf(),
            name.spec_into_datum().is_scalar(),
        ensures
            final(self).wf(),
            final(self).is_serializing() == old(self).is_serializing(),
            old(self).is_serializing() ==> {
                &&& r is Ok
                &&& final(self).spec_pairs() == spec_map_set(
                    old(self).spec_pairs(),
                    name.spec_into_datum(),
                    old(value).spec_into_datum(),
                )
                &&& V::spec_is_placeholder(*final(value))
            },
            !old(self).is_serializing() ==> ({
                let pairs = old(self).spec_pairs();
                let key = name.spec_into_datum();
                let i = spec_find_key(pairs, key);
                if i < 0 {
                    &&& r matches Err(e) && e matches DeserializationError::MissingField(f)
                        && f@ == key.spec_key_string()
                    &&& final(self).spec_pairs() == pairs
                    &&& *final(value) == *old(value)
                } else {
                    &&& final(self).spec_pairs() == pairs.remove(i)
                    &&& ({
                        let item = pairs[i].1;
                        let j = spec_find_match(candidates@, item);
                        if j >= 0 {
                            r is Ok && *final(value) == candidates@[j]
                        } else {
                            r matches Err(e) && e matches DeserializationError::NoMatch {
                                field,
                                actual,
                            }
                            && field@ == key.spec_key_string()
                            && actual@ == item.spec_describe()
                            && *final(value) == *old(value)
                        }
                    })
                }
            }),
    {
        if self.is_serial() {
            let v = value.take_value();
            self.serialize_entry(name, v);
            Ok(())
        } else {
            self.deserialize_matched_entry(name, value, candidates)
        }
    }

    /// Either serializes or deserializes a named entry that, while
    /// deserializing, must equal one of the candidates, which is duplicated.
    pub fn serde_cloned_matched_entry<K: IntoDatum, V: IntoDatum + Equals<Datum> + CloneValue>(
        &mut self,
        name: K,
        value: &mut V,
        candidates: &Vec<V>,
    ) -> (r: Result<(), DeserializationError>)
        requires
            old(self).wf(),
            name.spec_into_datum().is_scalar(),
        ensures
            final(self).wf(),
            final(self).is_serializing() == old(self).is_serializing(),
            old(self).is_serializing() ==> {
                &&& r is Ok
                &&& final(self).spec_pairs() == spec_map_set(
                    old(self).spec_pairs(),
                    name.spec_into_datum(),
                    old(value).spec_into_datum(),
                )
                &&& V::spec_is_placeholder(*final(value))
            },
            !old(self).is_serializing() ==> ({
                let pairs = old(self).spec_pairs();
                let key = name.spec_into_datum();
                let i = spec_find_key(pairs, key);
                if i < 0 {
                    &&& r matches Err(e) && e matches DeserializationError::MissingField(f)
                        && f@ == key.spec_key_string()
                    &&& final(self).spec_pairs() == pairs
                    &&& *final(value) == *old(value)
                } else {
                    &&& final(self).spec_pairs() == pairs.remove(i)
                    &&& ({
                        let item = pairs[i].1;
                        let j = spec_find_match(candidates@, item);
                        if j >= 0 {
                            r is Ok && *final(value) == candidates@[j]
                        } else {
                            r matches Err(e) && e matches DeserializationError::NoMatch {
                                field,
                                actual,
                            }
                            && field@ == key.spec_key_string()
                            && actual@ == item.spec_describe()
                            && *final(value) == *old(value)
                        }
                    })
                }
            }),
    {
        if self.is_serial() {
            let v = value.take_value();
            self.serialize_entry(name, v);
            Ok(())
        } else {
            self.deserialize_cloned_matched_entry(name, value, candidates)
        }
    }

    /// Drains this producing container into its accumulated entries, for a
    /// format adapter to turn into its own representation.
    pub fn into_serialized_entries(self) -> (r: Vec<(Datum, Datum)>)
        requires
            self.is_serializing(),
        ensures
            r@ == self.spec_pairs(),
    {
        match self.data {
            SerdeMap::Serializing(v) => v,
            SerdeMap::Deserializing(_) => unreached(),
        }
    }
}

impl DataProfile for MappedData {
    open spec fn spec_is_serial(&self) -> bool {
        self.is_serializing()
    }

    fn is_serial(&self) -> (r: bool) {
        match &self.data {
            SerdeMap::Serializing(_) => true,
            SerdeMap::Deserializing(_) => false,
        }
    }

    fn serial_ready() -> (r: Self)
        ensures
            r.wf(),
            r.spec_pairs() == Seq::<(Datum, Datum)>::empty(),
    {
        MappedData { data: SerdeMap::Serializing(Vec::new()) }
    }
}

impl ProfileFromData<Vec<(Datum, Datum)>> for MappedData {
    /// Builds a consuming container from an entry list.  Every map-shaped
    /// source provides unique scalar keys; a list that does not is
    /// refused, so that each named value can be pulled at most once.
    #[verifier::loop_isolation(false)]
    fn try_from_data(data: Vec<(Datum, Datum)>) -> (r: Result<Self, DeserializationError>)
        ensures
            spec_keys_unique(data@) ==> (r matches Ok(m) && !m.is_serializing()
                && m.spec_pairs() == data@ && m.wf()),
            !spec_keys_unique(data@) ==> (r matches Err(e)
                && e matches DeserializationError::FormatError(msg)
                && msg@ == "backing entries must have unique scalar keys"@),
    {
        let n = data.len();
        for i in 0..n
            invariant
                n == data@.len(),
                forall|a: int| 0 <= a < i ==> (#[trigger] data@[a]).0.is_scalar(),
                forall|a: int, b: int| 0 <= a < i && 0 <= b < i && a != b
                    ==> !(#[trigger] data@[a]).0.spec_matches((#[trigger] data@[b]).0),
        {
            let scalar = match &data[i].0 {
                Datum::Mapping(_) => false,
                Datum::Sequence(_) => false,
                _ => true,
            };
            if !scalar {
                return Err(DeserializationError::FormatError(
                    "backing entries must have unique scalar keys".to_owned(),
                ));
            }
            for j in 0..i
                invariant
                    forall|j2: int| 0 <= j2 < j
                        ==> !(#[trigger] data@[i as int]).0.spec_matches(data@[j2].0),
            {
                if data[i].0.scalar_eq(&data[j].0) {
                    return Err(DeserializationError::FormatError(
                        "backing entries must have unique scalar keys".to_owned(),
                    ));
                }
            }
            proof {
                assert forall|a: int| 0 <= a < i
                    implies !(#[trigger] data@[a]).0.spec_matches(data@[i as int].0) by {
                    Datum::lemma_matches_symmetric(data@[a].0, data@[i as int].0);
                }
            }
        }
        proof {
            assert(spec_keys_unique(data@));
        }
        Ok(MappedData { data: SerdeMap::Deserializing(data) })
    }
}

/// Round trip of a named entry, the law behind the named form: the value
/// stored under a scalar key is what a later lookup of that key finds,
/// whatever else the container holds.
pub proof fn lemma_entries_round_trip(pairs: Seq<(Datum, Datum)>, key: Datum, value: Datum)
    requires
        key.is_scalar(),
    ensures
        ({
            let after = spec_map_set(pairs, key, value);
            let i = spec_find_key(after, key);
            &&& 0 <= i < after.len()
            &&& after[i].1 == value
        }),
{
    let after = spec_map_set(pairs, key, value);
    let j = spec_find_key(pairs, key);
    let i = spec_find_key(after, key);
    lemma_find_key_props(pairs, key);
    lemma_find_key_props(after, key);
    assert(key.spec_matches(key));
    if j < 0 {
        assert(after[pairs.len() as int] == (key, value));
        assert(i >= 0);
        if i < pairs.len() {
            assert(after[i] == pairs[i]);
            assert(false);
        }
    } else {
        assert(after[j].0 == pairs[j].0);
        assert(i >= 0);
        if i < j {
            assert(after[i] == pairs[i]);
            assert(false);
        }
        assert(i == j);
    }
}

/// Round trip of a 64-bit field through the named form: storing it under
/// a key and converting the later lookup of that key back yields the field
/// unchanged.
pub proof fn lemma_named_field_round_trip_u64(pairs: Seq<(Datum, Datum)>, key: Datum, v: u64)
    requires
        key.is_scalar(),
    ensures
        ({
            let after = spec_map_set(pairs, key, v.spec_into_datum());
            let i = spec_find_key(after, key);
            &&& 0 <= i < after.len()
            &&& u64::spec_from_datum(after[i].1) == Option::Some(v)
        }),
{
    lemma_entries_round_trip(pairs, key, v.spec_into_datum());
}

/// Round trip of a text field through the named form: storing it under a
/// key and converting the later lookup of that key back yields the field
/// unchanged.
pub proof fn lemma_named_field_round_trip_text(pairs: Seq<(Datum, Datum)>, key: Datum, v: String)
    requires
        key.is_scalar(),
    ensures
        ({
            let after = spec_map_set(pairs, key, v.spec_into_datum());
            let i = spec_find_key(after, key);
            &&& 0 <= i < after.len()
            &&& String::spec_from_datum(after[i].1) == Option::Some(v)
        }),
{
    lemma_entries_round_trip(pairs, key, v.spec_into_datum());
}

} // verus!
