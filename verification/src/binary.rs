//! The binary codec: encodes positional items into a byte stream and
//! decodes them back, consuming the buffer from the front.  Text travels as
//! a big-endian length prefix of a chosen width followed by its UTF-8
//! bytes; a 64-bit unsigned integer travels as eight fixed big-endian
//! bytes, its width parameter ignored.  No other kind has a wire form.

use vstd::prelude::*;
use vstd::pervasive::unreached;
use vstd::utf8::{decode_utf8, valid_utf8};
use vstd::arithmetic::div_mod::lemma_fundamental_div_mod;

use crate::DeserializationError;
use crate::datum::{Datum, DatumType, DatumSize, FromDatum, string_from_utf8, string_into_bytes};
use crate::profiles::{DataProfile, ProfileFromData, ProfileToData};
use crate::profiles::array::{ArrayData, DatumArray};

verus! {

/// 256 raised to the given power: the number of values `w` bytes can hold.
pub open spec fn pow256(w: nat) -> nat
    decreases w,
{
    if w == 0 {
        1
    } else {
        256 * pow256((w - 1) as nat)
    }
}

/// The low `w` bytes of a number, most significant first.
pub open spec fn be_bytes(n: nat, w: nat) -> Seq<u8>
    decreases w,
{
    if w == 0 {
        Seq::empty()
    } else {
        be_bytes(n / 256, (w - 1) as nat).push((n % 256) as u8)
    }
}

/// The number a big-endian byte sequence denotes.
pub open spec fn be_val(b: Seq<u8>) -> nat
    decreases b.len(),
{
    if b.len() == 0 {
        0
    } else {
        256 * be_val(b.drop_last()) + (b.last() as nat)
    }
}

/// Powers of 256 are positive.
pub proof fn lemma_pow256_pos(w: nat)
    ensures
        pow256(w) >= 1,
    decreases w,
{
    if w > 0 {
        lemma_pow256_pos((w - 1) as nat);
    }
}

/// Powers of 256 grow with the exponent.
pub proof fn lemma_pow256_increases(a: nat, b: nat)
    requires
        a <= b,
    ensures
        1 <= pow256(a) <= pow256(b),
    decreases b,
{
    lemma_pow256_pos(a);
    if a < b {
        lemma_pow256_increases(a, (b - 1) as nat);
    }
}

/// A byte sequence denotes less than one past its widest value.
pub proof fn lemma_be_val_bound(b: Seq<u8>)
    ensures
        be_val(b) < pow256(b.len()),
    decreases b.len(),
{
    if b.len() > 0 {
        lemma_be_val_bound(b.drop_last());
    }
}

/// `be_bytes` always yields exactly the asked-for width.
pub proof fn lemma_be_bytes_len(n: nat, w: nat)
    ensures
        be_bytes(n, w).len() == w,
    decreases w,
{
    if w > 0 {
        lemma_be_bytes_len(n / 256, (w - 1) as nat);
    }
}

/// A number below the width's range survives the trip through its
/// big-endian bytes unchanged.
pub proof fn lemma_be_round_trip(n: nat, w: nat)
    requires
        n < pow256(w),
    ensures
        be_bytes(n, w).len() == w,
        be_val(be_bytes(n, w)) == n,
    decreases w,
{
    lemma_be_bytes_len(n, w);
    if w > 0 {
        assert(n / 256 < pow256((w - 1) as nat)) by (nonlinear_arith)
            requires n < pow256(w), pow256(w) == 256 * pow256((w - 1) as nat),
        ;
        lemma_be_round_trip(n / 256, (w - 1) as nat);
        let prefix = be_bytes(n / 256, (w - 1) as nat);
        assert(be_bytes(n, w).drop_last() =~= prefix);
        lemma_fundamental_div_mod(n as int, 256);
    }
}

/// Splits off and returns the first `size` bytes of the buffer, leaving
/// the remainder, or returns nothing when the buffer is shorter than that.
pub fn split(arr: &mut Vec<u8>, size: usize) -> (r: Option<Vec<u8>>)
    ensures
        old(arr)@.len() >= size ==> (r matches Some(first)
            && first@ == old(arr)@.take(size as int)
            && final(arr)@ == old(arr)@.skip(size as int)),
        old(arr)@.len() < size ==> r is None && final(arr)@ == old(arr)@,
{
    if arr.len() < size {
        return Option::None;
    }
    let mut tail = arr.split_off(size);
    core::mem::swap(arr, &mut tail);
    Option::Some(tail)
}

/// Splits off and returns the first `SIZE` bytes of the buffer, leaving
/// the remainder, or returns nothing when the buffer is shorter than that.
pub fn split_arr<const SIZE: usize>(arr: &mut Vec<u8>) -> (r: Option<Vec<u8>>)
    ensures
        old(arr)@.len() >= SIZE ==> (r matches Some(first)
            && first@ == old(arr)@.take(SIZE as int)
            && final(arr)@ == old(arr)@.skip(SIZE as int)),
        old(arr)@.len() < SIZE ==> r is None && final(arr)@ == old(arr)@,
{
    split(arr, SIZE)
}

/// Combines up to eight big-endian bytes into the number they denote.
fn be_to_u64(bytes: &Vec<u8>) -> (r: u64)
    requires
        bytes@.len() <= 8,
    ensures
        r as nat == be_val(bytes@),
{
    let n = bytes.len();
    let mut acc: u64 = 0;
    for i in 0..n
        invariant
            n == bytes@.len() <= 8,
            acc as nat == be_val(bytes@.take(i as int)),
    {
        proof {
            let prefix = bytes@.take(i as int);
            lemma_be_val_bound(prefix);
            lemma_pow256_increases((i + 1) as nat, 8);
            reveal_with_fuel(pow256, 9);
            assert(bytes@.take(i + 1).drop_last() =~= prefix);
            assert(bytes@.take(i + 1).last() == bytes@[i as int]);
        }
        acc = acc * 256 + (bytes[i] as u64);
    }
    proof {
        assert(bytes@.take(n as int) =~= bytes@);
    }
    acc
}

/// Reads a length of the given width from the front of the buffer,
/// consuming its bytes, or returns nothing (and consumes nothing) when
/// fewer bytes remain than the width asks for.
pub fn get_size(arr: &mut Vec<u8>, datum_size: DatumSize) -> (r: Option<usize>)
    ensures
        ({
            let w = datum_size.spec_byte_size();
            &&& old(arr)@.len() >= w ==> (r matches Some(sz)
                && sz == be_val(old(arr)@.take(w as int)) as usize
                && final(arr)@ == old(arr)@.skip(w as int))
            &&& old(arr)@.len() < w ==> r is None && final(arr)@ == old(arr)@
        }),
{
    let w = datum_size.into_byte_size();
    match split(arr, w) {
        Option::Some(prefix) => {
            let n = be_to_u64(&prefix);
            Option::Some(#[verifier::truncate] (n as usize))
        },
        Option::None => Option::None,
    }
}

/// The length a text prefix of width `w` at the front of `b` declares, as
/// the buffer-offset type holds it.
pub open spec fn spec_text_len(b: Seq<u8>, w: nat) -> nat {
    (be_val(b.take(w as int)) as usize) as nat
}

/// Whether one value of the given kind can be decoded from the front of
/// `b`: enough bytes for the prefix and the content, and, for text, a
/// valid UTF-8 encoding.
pub open spec fn spec_can_decode(b: Seq<u8>, t: DatumType, w: nat) -> bool {
    if t == DatumType::UnsignedLarge {
        b.len() >= 8
    } else if t == DatumType::Text {
        b.len() >= w && {
            let len = spec_text_len(b, w);
            let rest = b.skip(w as int);
            rest.len() >= len && valid_utf8(rest.take(len as int))
        }
    } else {
        false
    }
}

/// What remains of `b` after one decode attempt of the given kind: bytes
/// are consumed as far as the attempt got.
pub open spec fn spec_decode_rest(b: Seq<u8>, t: DatumType, w: nat) -> Seq<u8> {
    if t == DatumType::UnsignedLarge {
        if b.len() < 8 {
            b
        } else {
            b.skip(8)
        }
    } else if t == DatumType::Text {
        if b.len() < w {
            b
        } else {
            let len = spec_text_len(b, w);
            let rest = b.skip(w as int);
            if rest.len() < len {
                rest
            } else {
                rest.skip(len as int)
            }
        }
    } else {
        b
    }
}

/// The error a failing decode of the given kind reports: text that is not
/// a valid encoding, or a buffer that ended early.
pub open spec fn spec_decode_err(b: Seq<u8>, t: DatumType, w: nat) -> DeserializationError {
    if t == DatumType::Text && b.len() >= w && b.skip(w as int).len() >= spec_text_len(b, w) {
        DeserializationError::FromUTF8Error
    } else {
        DeserializationError::UnexpectedEOF
    }
}

/// Whether `d` is the value one successful decode of the given kind from
/// the front of `b` yields.
pub open spec fn spec_decoded(b: Seq<u8>, t: DatumType, w: nat, d: Datum) -> bool {
    if t == DatumType::UnsignedLarge {
        d matches Datum::UnsignedLarge(n) && n as nat == be_val(b.take(8))
    } else if t == DatumType::Text {
        d matches Datum::Text(s)
            && s@ == decode_utf8(b.skip(w as int).take(spec_text_len(b, w) as int))
    } else {
        false
    }
}

/// Decodes one value of the requested kind from the front of the buffer.
/// Text reads a length prefix of the given width and then that many bytes;
/// a 64-bit unsigned integer reads eight bytes, ignoring the width.
pub fn decode_datum(arr: &mut Vec<u8>, datum_type: DatumType, datum_size: DatumSize)
    -> (r: Result<Datum, DeserializationError>)
    requires
        datum_type == DatumType::Text || datum_type == DatumType::UnsignedLarge,
    ensures
        ({
            let b = old(arr)@;
            let w = datum_size.spec_byte_size();
            &&& final(arr)@ == spec_decode_rest(b, datum_type, w)
            &&& spec_can_decode(b, datum_type, w) ==> (r matches Ok(d)
                && spec_decoded(b, datum_type, w, d))
            &&& !spec_can_decode(b, datum_type, w) ==> (r matches Err(e)
                && e == spec_decode_err(b, datum_type, w))
        }),
{
    match datum_type {
        DatumType::Text => {
            let size = match get_size(arr, datum_size) {
                Option::Some(s) => s,
                Option::None => {
                    return Err(DeserializationError::UnexpectedEOF);
                },
            };
            let payload = match split(arr, size) {
                Option::Some(p) => p,
                Option::None => {
                    return Err(DeserializationError::UnexpectedEOF);
                },
            };
            match string_from_utf8(payload) {
                Option::Some(s) => Ok(Datum::Text(s)),
                Option::None => Err(DeserializationError::FromUTF8Error),
            }
        },
        DatumType::UnsignedLarge => {
            let bytes = match split_arr::<8>(arr) {
                Option::Some(b) => b,
                Option::None => {
                    return Err(DeserializationError::UnexpectedEOF);
                },
            };
            let n = be_to_u64(&bytes);
            Ok(Datum::UnsignedLarge(n))
        },
        _ => unreached(),
    }
}

impl DatumArray for Vec<u8> {
    open spec fn can_pull(&self, datum_type: DatumType, datum_size: DatumSize) -> bool {
        datum_type == DatumType::Text || datum_type == DatumType::UnsignedLarge
    }

    fn get_datum(&mut self, datum_type: DatumType, datum_size: DatumSize)
        -> (r: Result<Datum, DeserializationError>)
        ensures
            ({
                let b = old(self)@;
                let w = datum_size.spec_byte_size();
                &&& final(self)@ == spec_decode_rest(b, datum_type, w)
                &&& spec_can_decode(b, datum_type, w) ==> (r matches Ok(d)
                    && spec_decoded(b, datum_type, w, d))
                &&& !spec_can_decode(b, datum_type, w) ==> (r matches Err(e)
                    && e == spec_decode_err(b, datum_type, w))
            }),
    {
        decode_datum(self, datum_type, datum_size)
    }
}

/// The kinds the binary codec has a wire form for.
pub open spec fn spec_codable(d: Datum) -> bool {
    d matches Datum::Text(_) || d matches Datum::UnsignedLarge(_)
}

/// The wire form of one item: a length prefix of the item's width and the
/// UTF-8 bytes for text, eight big-endian bytes for a 64-bit integer.
pub open spec fn spec_encode_item(d: Datum, size: DatumSize) -> Seq<u8> {
    match d {
        Datum::Text(t) => be_bytes(
            vstd::utf8::encode_utf8(t@).len(),
            size.spec_byte_size(),
        ) + vstd::utf8::encode_utf8(t@),
        Datum::UnsignedLarge(n) => be_bytes(n as nat, 8),
        _ => Seq::empty(),
    }
}

/// The wire form of a whole record: each item's encoding in order, with no
/// outer framing and no type tags.
pub open spec fn spec_encode_items(items: Seq<(Datum, DatumSize)>) -> Seq<u8>
    decreases items.len(),
{
    if items.len() == 0 {
        Seq::empty()
    } else {
        spec_encode_item(items[0].0, items[0].1) + spec_encode_items(items.drop_first())
    }
}

/// Appending an item appends its encoding.
pub proof fn lemma_encode_items_push(items: Seq<(Datum, DatumSize)>, d: Datum, s: DatumSize)
    ensures
        spec_encode_items(items.push((d, s)))
            == spec_encode_items(items) + spec_encode_item(d, s),
    decreases items.len(),
{
    if items.len() == 0 {
        let p = items.push((d, s));
        assert(p[0] == (d, s));
        assert(p.drop_first() =~= Seq::<(Datum, DatumSize)>::empty());
        assert(spec_encode_items(p)
            == spec_encode_item(d, s) + spec_encode_items(p.drop_first()));
        assert(spec_encode_items(p) =~= spec_encode_item(d, s));
        assert(spec_encode_items(items) + spec_encode_item(d, s) =~= spec_encode_item(d, s));
    } else {
        assert(items.push((d, s)).drop_first() =~= items.drop_first().push((d, s)));
        lemma_encode_items_push(items.drop_first(), d, s);
        assert(spec_encode_items(items.push((d, s)))
            =~= spec_encode_items(items) + spec_encode_item(d, s));
    }
}

/// The eight big-endian bytes of a 64-bit unsigned integer.
fn u64_be_vec(n: u64) -> (r: Vec<u8>)
    ensures
        r@ == be_bytes(n as nat, 8),
{
    let mut out: Vec<u8> = Vec::new();
    out.push(((((((((n / 256) / 256) / 256) / 256) / 256) / 256) / 256) % 256) as u8);
    out.push((((((((n / 256) / 256) / 256) / 256) / 256) / 256) % 256) as u8);
    out.push(((((((n / 256) / 256) / 256) / 256) / 256) % 256) as u8);
    out.push((((((n / 256) / 256) / 256) / 256) % 256) as u8);
    out.push(((((n / 256) / 256) / 256) % 256) as u8);
    out.push((((n / 256) / 256) % 256) as u8);
    out.push(((n / 256) % 256) as u8);
    out.push((n % 256) as u8);
    proof {
        reveal_with_fuel(be_bytes, 9);
        assert(out@ =~= be_bytes(n as nat, 8));
    }
    out
}

/// Encodes drained items into their concatenated wire form.
pub fn encode_items(items: Vec<(Datum, DatumSize)>) -> (r: Vec<u8>)
    requires
        forall|i: int| 0 <= i < items@.len() ==> spec_codable((#[trigger] items@[i]).0),
    ensures
        r@ == spec_encode_items(items@),
{
    let ghost all = items@;
    let mut items = items;
    let mut out: Vec<u8> = Vec::new();
    let ghost mut idx: int = 0;
    while items.len() > 0
        invariant
            0 <= idx <= all.len(),
            items@ == all.skip(idx),
            forall|i: int| 0 <= i < all.len() ==> spec_codable((#[trigger] all[i]).0),
            out@ == spec_encode_items(all.take(idx)),
        decreases items@.len(),
    {
        proof {
            assert(all.skip(idx)[0] == all[idx]);
        }
        let (d, s) = items.remove(0);
        proof {
            assert(items@ =~= all.skip(idx + 1));
        }
        let ghost item_d = d;
        match d {
            Datum::Text(t) => {
                let mut bytes = string_into_bytes(&t);
                let mut prefix = s.serialize_usize(bytes.len());
                out.append(&mut prefix);
                out.append(&mut bytes);
            },
            Datum::UnsignedLarge(n) => {
                let mut bytes = u64_be_vec(n);
                out.append(&mut bytes);
            },
            _ => unreached(),
        }
        proof {
            lemma_encode_items_push(all.take(idx), item_d, s);
            assert(all.take(idx + 1) =~= all.take(idx).push(all[idx]));
            assert(out@ =~= spec_encode_items(all.take(idx + 1)));
            idx = idx + 1;
        }
    }
    proof {
        assert(all.take(idx) =~= all);
    }
    out
}

impl ProfileToData<Vec<u8>> for ArrayData {
    open spec fn can_convert(&self) -> bool {
        self.is_serializing() && forall|i: int|
            0 <= i < self.spec_items().len() ==> spec_codable(
                (#[trigger] self.spec_items()[i]).0,
            )
    }

    fn into_data(self) -> (r: Vec<u8>)
        ensures
            r@ == spec_encode_items(self.spec_items()),
    {
        encode_items(self.into_serialized_items())
    }

    fn try_into_data(self) -> (r: Result<Vec<u8>, DeserializationError>)
        ensures
            self.can_convert() ==> (r matches Ok(b)
                && b@ == spec_encode_items(self.spec_items())),
            !self.can_convert() ==> (r matches Err(e)
                && e == DeserializationError::Unsupported),
    {
        if !self.is_serial() {
            return Err(DeserializationError::Unsupported);
        }
        let items = self.into_serialized_items();
        let n = items.len();
        for i in 0..n
            invariant
                n == items@.len(),
                items@ == self.spec_items(),

                forall|j: int| 0 <= j < i ==> spec_codable((#[trigger] items@[j]).0),
        {
            let codable = match &items[i].0 {
                Datum::Text(_) => true,
                Datum::UnsignedLarge(_) => true,
                _ => false,
            };
            if !codable {
                return Err(DeserializationError::Unsupported);
            }
        }
        Ok(encode_items(items))
    }
}

/// Whether an item's wire form decodes back to it: the codec must carry
/// its kind, and a text's byte length must fit the chosen prefix width
/// (a longer text would have its length prefix truncated) and the
/// buffer-offset type.
pub open spec fn spec_item_fits(d: Datum, s: DatumSize) -> bool {
    match d {
        Datum::Text(t) => vstd::utf8::encode_utf8(t@).len() < pow256(s.spec_byte_size())
            && vstd::utf8::encode_utf8(t@).len() <= usize::MAX,
        Datum::UnsignedLarge(_) => true,
        _ => false,
    }
}

/// Whether every item of a record decodes back from the record's wire
/// form.
pub open spec fn spec_items_fit(items: Seq<(Datum, DatumSize)>) -> bool {
    forall|i: int| 0 <= i < items.len() ==> spec_item_fits(
        (#[trigger] items[i]).0,
        items[i].1,
    )
}

/// Round trip of one item: decoding its kind at its width from its own
/// encoding followed by anything succeeds, yields a value equal to the
/// item, and leaves exactly the trailing bytes.
pub proof fn lemma_codec_round_trip_item(d: Datum, s: DatumSize, rest: Seq<u8>)
    requires
        spec_item_fits(d, s),
    ensures
        ({
            let b = spec_encode_item(d, s) + rest;
            let t = d.spec_type();
            let w = s.spec_byte_size();
            &&& spec_can_decode(b, t, w)
            &&& spec_decode_rest(b, t, w) == rest
            &&& forall|d2: Datum| #[trigger] spec_decoded(b, t, w, d2) ==> d.spec_matches(d2)
        }),
{
    let b = spec_encode_item(d, s) + rest;
    let t = d.spec_type();
    let w = s.spec_byte_size();
    match d {
        Datum::Text(text) => {
            let payload = vstd::utf8::encode_utf8(text@);
            let len = payload.len();
            lemma_be_round_trip(len, w);
            let prefix = be_bytes(len, w);
            assert(b.take(w as int) =~= prefix);
            assert(len as usize as nat == len);
            assert(spec_text_len(b, w) == len);
            let after_prefix = b.skip(w as int);
            assert(after_prefix =~= payload + rest);
            assert(after_prefix.take(len as int) =~= payload);
            vstd::utf8::encode_utf8_valid_utf8(text@);
            assert(spec_can_decode(b, t, w));
            assert(after_prefix.skip(len as int) =~= rest);
            vstd::utf8::encode_utf8_decode_utf8(text@);
            assert forall|d2: Datum| #[trigger] spec_decoded(b, t, w, d2)
                implies d.spec_matches(d2) by {
                assert(decode_utf8(after_prefix.take(len as int)) == text@);
            }
        },
        Datum::UnsignedLarge(n) => {
            reveal_with_fuel(pow256, 9);
            lemma_be_round_trip(n as nat, 8);
            assert(b.take(8) =~= be_bytes(n as nat, 8));
            assert(b.skip(8) =~= rest);
        },
        _ => {
            assert(false);
        },
    }
}

/// Round trip of a whole positional record, the law behind the binary
/// form: at each position, decoding the kind and width declared there
/// from the remaining encoded bytes succeeds, yields a value equal to the
/// item stored there, and leaves exactly the encoding of the remaining
/// items.  Reader and writer share the declarations out of band.
pub proof fn lemma_codec_round_trip_items(items: Seq<(Datum, DatumSize)>, i: int)
    requires
        0 <= i < items.len(),
        spec_items_fit(items),
    ensures
        ({
            let b = spec_encode_items(items.skip(i));
            let t = items[i].0.spec_type();
            let w = items[i].1.spec_byte_size();
            &&& spec_can_decode(b, t, w)
            &&& spec_decode_rest(b, t, w) == spec_encode_items(items.skip(i + 1))
            &&& forall|d2: Datum| #[trigger] spec_decoded(b, t, w, d2)
                ==> items[i].0.spec_matches(d2)
        }),
{
    assert(items.skip(i)[0] == items[i]);
    assert(items.skip(i).drop_first() =~= items.skip(i + 1));
    assert(spec_encode_items(items.skip(i))
        == spec_encode_item(items[i].0, items[i].1) + spec_encode_items(items.skip(i + 1)));
    lemma_codec_round_trip_item(items[i].0, items[i].1, spec_encode_items(items.skip(i + 1)));
}

/// Round trip of a 64-bit field through the binary form: decoding its own
/// encoding, followed by anything, converts back to the field unchanged
/// and leaves the trailing bytes.
pub proof fn lemma_binary_field_round_trip_u64(v: u64, s: DatumSize, rest: Seq<u8>)
    ensures
        ({
            let b = spec_encode_item(Datum::UnsignedLarge(v), s) + rest;
            let w = s.spec_byte_size();
            &&& spec_can_decode(b, DatumType::UnsignedLarge, w)
            &&& spec_decode_rest(b, DatumType::UnsignedLarge, w) == rest
            &&& forall|d: Datum|
                #[trigger] spec_decoded(b, DatumType::UnsignedLarge, w, d)
                    ==> u64::spec_from_datum(d) == Option::Some(v)
        }),
{
    lemma_codec_round_trip_item(Datum::UnsignedLarge(v), s, rest);
}

/// Round trip of a text field through the binary form: when its length
/// fits the chosen width, decoding its own encoding, followed by anything,
/// converts back to equal text and leaves the trailing bytes.
pub proof fn lemma_binary_field_round_trip_text(v: String, s: DatumSize, rest: Seq<u8>)
    requires
        spec_item_fits(Datum::Text(v), s),
    ensures
        ({
            let b = spec_encode_item(Datum::Text(v), s) + rest;
            let w = s.spec_byte_size();
            &&& spec_can_decode(b, DatumType::Text, w)
            &&& spec_decode_rest(b, DatumType::Text, w) == rest
            &&& forall|d: Datum|
                #[trigger] spec_decoded(b, DatumType::Text, w, d)
                    ==> (String::spec_from_datum(d) matches Option::Some(t) && t@ == v@)
        }),
{
    lemma_codec_round_trip_item(Datum::Text(v), s, rest);
}

/// Explicit methods for converting to and from binary through a data
/// profile.  Implement it on types whose `Serde` description uses the
/// same profile.
pub trait BinSerde<T: DataProfile + ProfileToData<Vec<u8>> + ProfileFromData<Vec<u8>>>:
    crate::Serde<T> {
    /// Serializes this value into binary; contents the codec has no wire
    /// form for are reported as an error.
    fn serialize_bin(self) -> Result<Vec<u8>, DeserializationError> {
        self.serialize()
    }

    /// Deserializes a binary buffer into a value.
    fn deserialize_bin(data: Vec<u8>) -> Result<Self, DeserializationError> {
        Self::deserialize(data)
    }
}

} // verus!
