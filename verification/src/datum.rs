//! The tagged value type carried by containers, its kind and width tags, and
//! the conversion traits that move application values in and out of it.

use vstd::prelude::*;
use vstd::pervasive::unreached;
use vstd::utf8::{encode_utf8, decode_utf8, valid_utf8, is_ascii_chars};
use vstd::utf8::{encode_utf8_valid_utf8, encode_utf8_decode_utf8, is_ascii_chars_encode_utf8};

use crate::DeserializationError;
use crate::binary::be_bytes;
use crate::profiles::map::MappedData;
use crate::profiles::array::ArrayData;

verus! {

/// The type tag of a [`Datum`], without payload.
#[derive(Debug, Copy, Clone, PartialEq, Eq, Structural)]
pub enum DatumType {
    /// A text value.
    Text,
    /// A 32-bit unsigned integer.
    UnsignedSmall,
    /// A 64-bit unsigned integer.
    UnsignedLarge,
    /// A named-entry container.
    Mapping,
    /// A positional container.
    Sequence,
}

/// The byte width used for a binary length prefix: 1, 2, 4 or 8 bytes.
#[derive(Debug, Copy, Clone, PartialEq, Eq, Structural)]
pub enum DatumSize {
    /// One byte.
    U8,
    /// Two bytes, big-endian.
    U16,
    /// Four bytes, big-endian.
    U32,
    /// Eight bytes, big-endian.
    U64,
}

impl DatumSize {
    /// The number of bytes this width occupies on the wire.
    pub open spec fn spec_byte_size(self) -> nat {
        match self {
            DatumSize::U8 => 1,
            DatumSize::U16 => 2,
            DatumSize::U32 => 4,
            DatumSize::U64 => 8,
        }
    }

    /// Returns the number of bytes this width occupies on the wire.
    pub fn into_byte_size(self) -> (r: usize)
        ensures
            r == self.spec_byte_size(),
    {
        match self {
            DatumSize::U8 => 1,
            DatumSize::U16 => 2,
            DatumSize::U32 => 4,
            DatumSize::U64 => 8,
        }
    }

    /// Serializes a length as this width's number of big-endian bytes.  A
    /// length too large for the width is truncated to its low bytes; the
    /// binary codec states when a round trip is owed under this policy.
    pub fn serialize_usize(self, size: usize) -> (r: Vec<u8>)
        ensures
            r@ == be_bytes(size as nat, self.spec_byte_size()),
    {
        let n: u64 = size as u64;
        let mut out: Vec<u8> = Vec::new();
        match self {
            DatumSize::U8 => {
                out.push((n % 256) as u8);
            },
            DatumSize::U16 => {
                out.push(((n / 256) % 256) as u8);
                out.push((n % 256) as u8);
            },
            DatumSize::U32 => {
                out.push(((((n / 256) / 256) / 256) % 256) as u8);
                out.push((((n / 256) / 256) % 256) as u8);
                out.push(((n / 256) % 256) as u8);
                out.push((n % 256) as u8);
            },
            DatumSize::U64 => {
                out.push(((((((((n / 256) / 256) / 256) / 256) / 256) / 256) / 256) % 256) as u8);
                out.push((((((((n / 256) / 256) / 256) / 256) / 256) / 256) % 256) as u8);
                out.push(((((((n / 256) / 256) / 256) / 256) / 256) % 256) as u8);
                out.push((((((n / 256) / 256) / 256) / 256) % 256) as u8);
                out.push(((((n / 256) / 256) / 256) % 256) as u8);
                out.push((((n / 256) / 256) % 256) as u8);
                out.push(((n / 256) % 256) as u8);
                out.push((n % 256) as u8);
            },
        }
        proof {
            reveal_with_fuel(be_bytes, 9);
            assert(out@ =~= be_bytes(size as nat, self.spec_byte_size()));
        }
        out
    }
}

/// An enum of the kinds of values most application types are made of.
/// Scalar variants compare, duplicate and render; the composite variants
/// exist to carry nested containers and support none of those operations.
#[derive(Debug)]
pub enum Datum {
    /// A text value.
    Text(String),
    /// A 32-bit unsigned integer.
    UnsignedSmall(u32),
    /// A 64-bit unsigned integer.
    UnsignedLarge(u64),
    /// A nested named-entry container.
    Mapping(MappedData),
    /// A nested positional container.
    Sequence(ArrayData),
}

impl Datum {
    /// The type tag of this value.
    pub open spec fn spec_type(self) -> DatumType {
        match self {
            Datum::Text(_) => DatumType::Text,
            Datum::UnsignedSmall(_) => DatumType::UnsignedSmall,
            Datum::UnsignedLarge(_) => DatumType::UnsignedLarge,
            Datum::Mapping(_) => DatumType::Mapping,
            Datum::Sequence(_) => DatumType::Sequence,
        }
    }

    /// True for the three scalar variants, on which equality, duplication
    /// and rendering are defined.
    pub open spec fn is_scalar(self) -> bool {
        match self {
            Datum::Text(_) => true,
            Datum::UnsignedSmall(_) => true,
            Datum::UnsignedLarge(_) => true,
            Datum::Mapping(_) => false,
            Datum::Sequence(_) => false,
        }
    }

    /// Returns the type tag of this value.
    pub fn get_type(&self) -> (r: DatumType)
        ensures
            r == self.spec_type(),
    {
        match self {
            Datum::Text(_) => DatumType::Text,
            Datum::UnsignedSmall(_) => DatumType::UnsignedSmall,
            Datum::UnsignedLarge(_) => DatumType::UnsignedLarge,
            Datum::Mapping(_) => DatumType::Mapping,
            Datum::Sequence(_) => DatumType::Sequence,
        }
    }

    /// Structural equality of a scalar against any value: same variant and
    /// same payload; a composite on the right never matches.
    pub open spec fn spec_matches(self, other: Datum) -> bool {
        match (self, other) {
            (Datum::Text(a), Datum::Text(b)) => a@ == b@,
            (Datum::UnsignedSmall(a), Datum::UnsignedSmall(b)) => a == b,
            (Datum::UnsignedLarge(a), Datum::UnsignedLarge(b)) => a == b,
            _ => false,
        }
    }

    /// Compares this scalar against another value for structural equality.
    pub fn scalar_eq(&self, other: &Datum) -> (r: bool)
        requires
            self.is_scalar(),
        ensures
            r == self.spec_matches(*other),
    {
        match (self, other) {
            (Datum::Text(a), Datum::Text(b)) => *a == *b,
            (Datum::UnsignedSmall(a), Datum::UnsignedSmall(b)) => a == b,
            (Datum::UnsignedLarge(a), Datum::UnsignedLarge(b)) => a == b,
            _ => false,
        }
    }

    /// Scalar equality does not depend on the order of its sides.
    pub proof fn lemma_matches_symmetric(a: Datum, b: Datum)
        ensures
            a.spec_matches(b) == b.spec_matches(a),
    {
    }

    /// How a scalar renders as a key or error string: text itself, an
    /// integer as its decimal digits.
    pub open spec fn spec_key_string(self) -> Seq<char> {
        match self {
            Datum::Text(s) => s@,
            Datum::UnsignedSmall(n) => spec_decimal(n as nat),
            Datum::UnsignedLarge(n) => spec_decimal(n as nat),
            Datum::Mapping(_) => Seq::empty(),
            Datum::Sequence(_) => Seq::empty(),
        }
    }

    /// Renders this scalar as a key string.
    pub fn to_key_string(&self) -> (r: String)
        requires
            self.is_scalar(),
        ensures
            r@ == self.spec_key_string(),
    {
        match self {
            Datum::Text(s) => s.clone(),
            Datum::UnsignedSmall(n) => u64_to_string(*n as u64),
            Datum::UnsignedLarge(n) => u64_to_string(*n),
            Datum::Mapping(_) => unreached(),
            Datum::Sequence(_) => unreached(),
        }
    }

    /// How any value renders when reported inside an error: scalars as
    /// their key string, composites as a fixed marker.
    pub open spec fn spec_describe(self) -> Seq<char> {
        match self {
            Datum::Text(s) => s@,
            Datum::UnsignedSmall(n) => spec_decimal(n as nat),
            Datum::UnsignedLarge(n) => spec_decimal(n as nat),
            Datum::Mapping(_) => "<mapping>"@,
            Datum::Sequence(_) => "<sequence>"@,
        }
    }

    /// Renders any value for an error report.
    pub fn describe(&self) -> (r: String)
        ensures
            r@ == self.spec_describe(),
    {
        match self {
            Datum::Text(s) => s.clone(),
            Datum::UnsignedSmall(n) => u64_to_string(*n as u64),
            Datum::UnsignedLarge(n) => u64_to_string(*n),
            Datum::Mapping(_) => "<mapping>".to_owned(),
            Datum::Sequence(_) => "<sequence>".to_owned(),
        }
    }

    /// Duplicates this scalar.
    pub fn duplicate(&self) -> (r: Datum)
        requires
            self.is_scalar(),
        ensures
            r == *self,
    {
        match self {
            Datum::Text(s) => Datum::Text(s.clone()),
            Datum::UnsignedSmall(n) => Datum::UnsignedSmall(*n),
            Datum::UnsignedLarge(n) => Datum::UnsignedLarge(*n),
            Datum::Mapping(_) => unreached(),
            Datum::Sequence(_) => unreached(),
        }
    }
}

impl Default for Datum {
    /// The harmless stand-in left behind when a field's value is moved out
    /// of an owning record.
    fn default() -> (r: Self)
        ensures
            r == Datum::UnsignedSmall(0u32),
    {
        Datum::UnsignedSmall(0)
    }
}

/// Checks a value of one type for equality against a value of another type.
/// Mainly used for comparing candidate field values against a [`Datum`].
pub trait Equals<T> {
    /// What `equals` decides.
    spec fn spec_equals(&self, other: &T) -> bool;

    /// Returns true iff the two values are equal.
    fn equals(&self, other: &T) -> (r: bool)
        ensures
            r == self.spec_equals(other),
    ;
}

impl Equals<Datum> for String {
    open spec fn spec_equals(&self, other: &Datum) -> bool {
        match *other {
            Datum::Text(ref t) => t@ == self@,
            _ => false,
        }
    }

    fn equals(&self, other: &Datum) -> (r: bool) {
        match other {
            Datum::Text(t) => *self == *t,
            _ => false,
        }
    }
}

impl Equals<Datum> for u64 {
    open spec fn spec_equals(&self, other: &Datum) -> bool {
        match *other {
            Datum::UnsignedLarge(n) => n == *self,
            _ => false,
        }
    }

    fn equals(&self, other: &Datum) -> (r: bool) {
        match other {
            Datum::UnsignedLarge(n) => *n == *self,
            _ => false,
        }
    }
}

impl Equals<Datum> for u32 {
    open spec fn spec_equals(&self, other: &Datum) -> bool {
        match *other {
            Datum::UnsignedSmall(n) => n == *self,
            _ => false,
        }
    }

    fn equals(&self, other: &Datum) -> (r: bool) {
        match other {
            Datum::UnsignedSmall(n) => *n == *self,
            _ => false,
        }
    }
}

/// The type tag a field type declares for itself, used while consuming
/// positional input to tell the backing store what to decode next.
pub trait GetDatumType: Sized {
    /// The tag `get_datum_type` returns.
    spec fn spec_datum_type() -> DatumType;

    /// Returns the type tag values of this type carry.
    fn get_datum_type() -> (r: DatumType)
        ensures
            r == Self::spec_datum_type(),
    ;
}

impl GetDatumType for String {
    open spec fn spec_datum_type() -> DatumType {
        DatumType::Text
    }

    fn get_datum_type() -> (r: DatumType) {
        DatumType::Text
    }
}

impl GetDatumType for u64 {
    open spec fn spec_datum_type() -> DatumType {
        DatumType::UnsignedLarge
    }

    fn get_datum_type() -> (r: DatumType) {
        DatumType::UnsignedLarge
    }
}

/// Conversion of an application value into a [`Datum`], together with the
/// move-out-and-replace step used while serializing through `&mut` fields.
pub trait IntoDatum: Sized {
    /// The datum `into_datum` produces.
    spec fn spec_into_datum(self) -> Datum;

    /// Whether `v` is the harmless stand-in that `take_value` leaves
    /// behind: the type's zero or empty value.
    spec fn spec_is_placeholder(v: Self) -> bool;

    /// Wraps this value in a datum.
    fn into_datum(self) -> (d: Datum)
        ensures
            d == self.spec_into_datum(),
    ;

    /// Moves this value out from behind a mutable reference, replacing it
    /// with the type's placeholder so the owner is never left
    /// partially-moved.
    fn take_value(&mut self) -> (r: Self)
        ensures
            r == *old(self),
            Self::spec_is_placeholder(*final(self)),
    ;
}

impl IntoDatum for String {
    open spec fn spec_into_datum(self) -> Datum {
        Datum::Text(self)
    }

    open spec fn spec_is_placeholder(v: Self) -> bool {
        v@ == Seq::<char>::empty()
    }

    fn into_datum(self) -> (d: Datum) {
        Datum::Text(self)
    }

    fn take_value(&mut self) -> (r: Self) {
        let mut tmp = String::new();
        core::mem::swap(self, &mut tmp);
        tmp
    }
}

impl IntoDatum for u64 {
    open spec fn spec_into_datum(self) -> Datum {
        Datum::UnsignedLarge(self)
    }

    open spec fn spec_is_placeholder(v: Self) -> bool {
        v == 0
    }

    fn into_datum(self) -> (d: Datum) {
        Datum::UnsignedLarge(self)
    }

    fn take_value(&mut self) -> (r: Self) {
        let v = *self;
        *self = 0;
        v
    }
}

impl IntoDatum for u32 {
    open spec fn spec_into_datum(self) -> Datum {
        Datum::UnsignedSmall(self)
    }

    open spec fn spec_is_placeholder(v: Self) -> bool {
        v == 0
    }

    fn into_datum(self) -> (d: Datum) {
        Datum::UnsignedSmall(self)
    }

    fn take_value(&mut self) -> (r: Self) {
        let v = *self;
        *self = 0;
        v
    }
}

impl IntoDatum for usize {
    open spec fn spec_into_datum(self) -> Datum {
        Datum::UnsignedLarge(self as u64)
    }

    open spec fn spec_is_placeholder(v: Self) -> bool {
        v == 0
    }

    fn into_datum(self) -> (d: Datum) {
        Datum::UnsignedLarge(self as u64)
    }

    fn take_value(&mut self) -> (r: Self) {
        let v = *self;
        *self = 0;
        v
    }
}

impl IntoDatum for Datum {
    open spec fn spec_into_datum(self) -> Datum {
        self
    }

    open spec fn spec_is_placeholder(v: Self) -> bool {
        v == Datum::UnsignedSmall(0u32)
    }

    fn into_datum(self) -> (d: Datum) {
        self
    }

    fn take_value(&mut self) -> (r: Self) {
        let mut tmp = Datum::UnsignedSmall(0);
        core::mem::swap(self, &mut tmp);
        tmp
    }
}

/// Conversion of a [`Datum`] back into an application value; fails with
/// `InvalidType` (no field name attached yet) when the stored kind differs
/// from the requested one.
pub trait FromDatum: Sized {
    /// The value extracted from a datum, or `None` on a kind mismatch.
    spec fn spec_from_datum(d: Datum) -> Option<Self>;

    /// The kind this type expects to extract.
    spec fn spec_expected_type() -> DatumType;

    /// Extracts a value of this type from a datum.
    fn from_datum(d: Datum) -> (r: Result<Self, DeserializationError>)
        ensures
            match Self::spec_from_datum(d) {
                Option::Some(v) => r matches Ok(x) && x == v,
                Option::None => r matches Err(e)
                    && e matches DeserializationError::InvalidType { field, expected, actual }
                    && field@ == Seq::<char>::empty()
                    && expected == Self::spec_expected_type()
                    && actual == d.spec_type(),
            },
    ;
}

impl FromDatum for String {
    open spec fn spec_from_datum(d: Datum) -> Option<Self> {
        match d {
            Datum::Text(s) => Option::Some(s),
            _ => Option::None,
        }
    }

    open spec fn spec_expected_type() -> DatumType {
        DatumType::Text
    }

    fn from_datum(d: Datum) -> (r: Result<Self, DeserializationError>) {
        match d {
            Datum::Text(s) => Ok(s),
            other => Err(DeserializationError::InvalidType {
                field: String::new(),
                expected: DatumType::Text,
                actual: other.get_type(),
            }),
        }
    }
}

impl FromDatum for u64 {
    open spec fn spec_from_datum(d: Datum) -> Option<Self> {
        match d {
            Datum::UnsignedLarge(n) => Option::Some(n),
            _ => Option::None,
        }
    }

    open spec fn spec_expected_type() -> DatumType {
        DatumType::UnsignedLarge
    }

    fn from_datum(d: Datum) -> (r: Result<Self, DeserializationError>) {
        match d {
            Datum::UnsignedLarge(n) => Ok(n),
            other => Err(DeserializationError::InvalidType {
                field: String::new(),
                expected: DatumType::UnsignedLarge,
                actual: other.get_type(),
            }),
        }
    }
}

impl FromDatum for u32 {
    open spec fn spec_from_datum(d: Datum) -> Option<Self> {
        match d {
            Datum::UnsignedSmall(n) => Option::Some(n),
            _ => Option::None,
        }
    }

    open spec fn spec_expected_type() -> DatumType {
        DatumType::UnsignedSmall
    }

    fn from_datum(d: Datum) -> (r: Result<Self, DeserializationError>) {
        match d {
            Datum::UnsignedSmall(n) => Ok(n),
            other => Err(DeserializationError::InvalidType {
                field: String::new(),
                expected: DatumType::UnsignedSmall,
                actual: other.get_type(),
            }),
        }
    }
}

impl FromDatum for usize {
    open spec fn spec_from_datum(d: Datum) -> Option<Self> {
        match d {
            Datum::UnsignedLarge(n) => Option::Some(n as usize),
            _ => Option::None,
        }
    }

    open spec fn spec_expected_type() -> DatumType {
        DatumType::UnsignedLarge
    }

    fn from_datum(d: Datum) -> (r: Result<Self, DeserializationError>) {
        match d {
            Datum::UnsignedLarge(n) => Ok(#[verifier::truncate] (n as usize)),
            other => Err(DeserializationError::InvalidType {
                field: String::new(),
                expected: DatumType::UnsignedLarge,
                actual: other.get_type(),
            }),
        }
    }
}

/// Duplication of a candidate value, exact enough that the duplicate is the
/// value itself.
pub trait CloneValue: Sized {
    /// Returns a duplicate of this value.
    fn clone_value(&self) -> (r: Self)
        ensures
            r == *self,
    ;
}

impl CloneValue for String {
    fn clone_value(&self) -> (r: Self) {
        self.clone()
    }
}

impl CloneValue for u64 {
    fn clone_value(&self) -> (r: Self) {
        *self
    }
}

impl CloneValue for u32 {
    fn clone_value(&self) -> (r: Self) {
        *self
    }
}

/// The decimal digit character for a value below ten.
pub open spec fn spec_digit(d: nat) -> char {
    if d == 0 { '0' }
    else if d == 1 { '1' }
    else if d == 2 { '2' }
    else if d == 3 { '3' }
    else if d == 4 { '4' }
    else if d == 5 { '5' }
    else if d == 6 { '6' }
    else if d == 7 { '7' }
    else if d == 8 { '8' }
    else { '9' }
}

/// Digit characters are ASCII, and their byte value is the digit plus 48.
pub proof fn lemma_digit_ascii(d: nat)
    ensures
        '\0' <= spec_digit(d) <= '\u{7f}',
{
}

/// The decimal rendering of a natural number, most significant digit first,
/// without leading zeros.
pub open spec fn spec_decimal(n: nat) -> Seq<char>
    decreases n,
{
    if n < 10 {
        seq![spec_digit(n)]
    } else {
        spec_decimal(n / 10).push(spec_digit(n % 10))
    }
}

/// The UTF-8 encoding of a concatenation is the concatenation of the
/// encodings.
pub proof fn lemma_encode_utf8_concat(a: Seq<char>, b: Seq<char>)
    ensures
        encode_utf8(a + b) == encode_utf8(a) + encode_utf8(b),
    decreases a.len(),
{
    if a.len() == 0 {
        assert(a + b =~= b);
        assert(encode_utf8(a) + encode_utf8(b) =~= encode_utf8(b));
    } else {
        assert((a + b)[0] == a[0]);
        assert((a + b).drop_first() =~= a.drop_first() + b);
        lemma_encode_utf8_concat(a.drop_first(), b);
        assert(encode_utf8(a + b) =~= encode_utf8(a) + encode_utf8(b));
    }
}

/// Every decimal rendering is a sequence of ASCII digit characters.
pub proof fn lemma_decimal_is_ascii(n: nat)
    ensures
        is_ascii_chars(spec_decimal(n)),
        spec_decimal(n).len() > 0,
    decreases n,
{
    if n < 10 {
        assert(spec_decimal(n) =~= seq![spec_digit(n)]);
        lemma_digit_ascii(n);
    } else {
        lemma_decimal_is_ascii(n / 10);
        lemma_digit_ascii(n % 10);
        assert(forall|i: int| 0 <= i < spec_decimal(n).len()
            ==> '\0' <= #[trigger] spec_decimal(n)[i] <= '\u{7f}');
    }
}

/// Returns the ASCII byte of the digit character for a value below ten.
fn digit_byte(k: u64) -> (r: u8)
    requires
        k < 10,
    ensures
        r == spec_digit(k as nat) as u8,
{
    match k {
        0 => 48,
        1 => 49,
        2 => 50,
        3 => 51,
        4 => 52,
        5 => 53,
        6 => 54,
        7 => 55,
        8 => 56,
        _ => 57,
    }
}

/// Appends the ASCII bytes of the decimal rendering of `n`.
fn push_decimal_bytes(n: u64, out: &mut Vec<u8>)
    ensures
        final(out)@ == old(out)@ + encode_utf8(spec_decimal(n as nat)),
    decreases n,
{
    if n >= 10 {
        proof {
            assert(n / 10 < n) by (nonlinear_arith)
                requires n >= 10,
            ;
        }
        push_decimal_bytes(n / 10, out);
    }
    let d: u8 = digit_byte(n % 10);
    out.push(d);
    proof {
        let dn = spec_decimal(n as nat);
        let c = spec_digit((n % 10) as nat);
        lemma_digit_ascii((n % 10) as nat);
        lemma_decimal_is_ascii(n as nat);
        if n < 10 {
            assert(dn =~= Seq::empty().push(c));
            assert(dn =~= Seq::<char>::empty() + seq![c]);
            lemma_encode_utf8_concat(Seq::empty(), seq![c]);
        } else {
            assert(dn =~= spec_decimal((n / 10) as nat) + seq![c]);
            lemma_encode_utf8_concat(spec_decimal((n / 10) as nat), seq![c]);
        }
        is_ascii_chars_encode_utf8(seq![c]);
        assert(encode_utf8(seq![c]) =~= seq![d]);
        assert(out@ =~= old(out)@ + encode_utf8(dn));
    }
}

/// Relies on `String::from_utf8`: returns the text whose UTF-8 encoding is
/// exactly the given bytes, and reports failure precisely when the bytes
/// are not a valid UTF-8 encoding.
#[verifier::external_body]
pub(crate) fn string_from_utf8(bytes: Vec<u8>) -> (r: Option<String>)
    ensures
        match r {
            Option::Some(s) => valid_utf8(bytes@) && s@ == decode_utf8(bytes@),
            Option::None => !valid_utf8(bytes@),
        },
{
    String::from_utf8(bytes).ok()
}

/// The bytes of a string's UTF-8 encoding.
pub(crate) fn string_into_bytes(s: &String) -> (r: Vec<u8>)
    ensures
        r@ == encode_utf8(s@),
{
    vstd::slice::slice_to_vec(s.as_str().as_bytes())
}

/// Renders an integer as its decimal digits.
pub(crate) fn u64_to_string(n: u64) -> (r: String)
    ensures
        r@ == spec_decimal(n as nat),
{
    let mut bytes: Vec<u8> = Vec::new();
    push_decimal_bytes(n, &mut bytes);
    proof {
        encode_utf8_valid_utf8(spec_decimal(n as nat));
        encode_utf8_decode_utf8(spec_decimal(n as nat));
        assert(bytes@ =~= encode_utf8(spec_decimal(n as nat)));
    }
    match string_from_utf8(bytes) {
        Option::Some(s) => s,
        Option::None => unreached(),
    }
}


/// The first position in `cands` holding a candidate equal to `item`, or
/// -1 when none is.
pub open spec fn spec_find_match<V: Equals<Datum>>(cands: Seq<V>, item: Datum) -> int
    decreases cands.len(),
{
    if cands.len() == 0 {
        -1
    } else if cands[0].spec_equals(&item) {
        0
    } else {
        let r = spec_find_match(cands.drop_first(), item);
        if r < 0 {
            -1
        } else {
            r + 1
        }
    }
}

/// What `spec_find_match` finds: the first matching position, or that no
/// position matches.
pub proof fn lemma_find_match_props<V: Equals<Datum>>(cands: Seq<V>, item: Datum)
    ensures
        ({
            let i = spec_find_match(cands, item);
            &&& -1 <= i < cands.len()
            &&& i >= 0 ==> cands[i].spec_equals(&item)
                && (forall|j: int| 0 <= j < i ==> !(#[trigger] cands[j]).spec_equals(&item))
            &&& i == -1 ==> (forall|j: int|
                0 <= j < cands.len() ==> !(#[trigger] cands[j]).spec_equals(&item))
        }),
    decreases cands.len(),
{
    if cands.len() == 0 {
    } else if cands[0].spec_equals(&item) {
    } else {
        let rest = cands.drop_first();
        let r = spec_find_match(rest, item);
        lemma_find_match_props(rest, item);
        if r < 0 {
            assert forall|j: int| 0 <= j < cands.len()
                implies !(#[trigger] cands[j]).spec_equals(&item) by {
                if j > 0 {
                    assert(cands[j] == rest[j - 1]);
                }
            }
        } else {
            assert(cands[r + 1] == rest[r]);
            assert forall|j: int| 0 <= j < r + 1
                implies !(#[trigger] cands[j]).spec_equals(&item) by {
                if j > 0 {
                    assert(cands[j] == rest[j - 1]);
                }
            }
        }
    }
}

} // verus!
