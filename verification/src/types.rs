//! The composite wire types: unsigned varints as a value type, compact
//! strings, compact arrays, tagged-field buffers, and the byte layouts of
//! the primitive field types.

use vstd::prelude::*;

use crate::codec::{
    lemma_encode_elems_push, lemma_subrange_concat, spec_decode_elems, spec_encode_elems,
    DecodeFromBytes, EncodeToBytes,
};
use crate::errors::EncodingError;
use crate::wire::{
    encode_unsigned_varint, read_string_exact, read_unsigned_varint, spec_i16_be, spec_i32_be,
    spec_read_string_exact, spec_read_uvarint, spec_uvarint, TaggedField, TaggedFieldView,
};

verus! {

use vstd::string::StrSliceExecFns;
use vstd::utf8::encode_utf8;

/// A non-negative integer up to 2^32 − 1 with the unsigned-varint layout.
#[derive(Debug, Clone)]
pub struct UnsignedVarInt(pub u32);

impl DeepView for UnsignedVarInt {
    type V = u32;

    open spec fn deep_view(&self) -> u32 {
        self.0
    }
}

impl DecodeFromBytes for UnsignedVarInt {
    open spec fn spec_decode(input: Seq<u8>, off: int) -> Result<(u32, int), EncodingError> {
        spec_read_uvarint(input, off)
    }

    fn read_from_u8(input: &[u8], offset: &mut usize) -> (r: Result<Self, EncodingError>) {
        Ok(UnsignedVarInt(read_unsigned_varint(input, offset)?))
    }
}

impl EncodeToBytes for UnsignedVarInt {
    open spec fn spec_enc_wf(v: u32) -> bool {
        true
    }

    open spec fn spec_encode(v: u32) -> Seq<u8> {
        spec_uvarint(v)
    }

    fn encode_to_bytes(&self) -> (r: Vec<u8>) {
        encode_unsigned_varint(self.0)
    }
}

impl EncodeToBytes for i16 {
    open spec fn spec_enc_wf(v: i16) -> bool {
        true
    }

    open spec fn spec_encode(v: i16) -> Seq<u8> {
        spec_i16_be(v)
    }

    fn encode_to_bytes(&self) -> (r: Vec<u8>) {
        let x = *self as u16;
        assert((x >> 8) & 0xff < 256 && x & 0xff < 256) by (bit_vector);
        let mut out: Vec<u8> = Vec::new();
        out.push(((x >> 8) & 0xff) as u8);
        out.push((x & 0xff) as u8);
        assert(out@ =~= spec_i16_be(*self));
        assert(self.deep_view() == *self);
        assert(Self::spec_encode(*self) == spec_i16_be(*self));
        out
    }
}

impl EncodeToBytes for i32 {
    open spec fn spec_enc_wf(v: i32) -> bool {
        true
    }

    open spec fn spec_encode(v: i32) -> Seq<u8> {
        spec_i32_be(v)
    }

    fn encode_to_bytes(&self) -> (r: Vec<u8>) {
        let x = *self as u32;
        assert((x >> 24) & 0xff < 256 && (x >> 16) & 0xff < 256 && (x >> 8) & 0xff < 256 && x
            & 0xff < 256) by (bit_vector);
        let mut out: Vec<u8> = Vec::new();
        out.push(((x >> 24) & 0xff) as u8);
        out.push(((x >> 16) & 0xff) as u8);
        out.push(((x >> 8) & 0xff) as u8);
        out.push((x & 0xff) as u8);
        assert(out@ =~= spec_i32_be(*self));
        assert(self.deep_view() == *self);
        assert(Self::spec_encode(*self) == spec_i32_be(*self));
        out
    }
}

/// The single-byte layout of a boolean: 0x00 for false, 0x01 for true.
pub open spec fn spec_bool_enc(v: bool) -> Seq<u8> {
    if v {
        seq![1u8]
    } else {
        seq![0u8]
    }
}

impl EncodeToBytes for bool {
    open spec fn spec_enc_wf(v: bool) -> bool {
        true
    }

    open spec fn spec_encode(v: bool) -> Seq<u8> {
        spec_bool_enc(v)
    }

    fn encode_to_bytes(&self) -> (r: Vec<u8>) {
        let mut out: Vec<u8> = Vec::new();
        if *self {
            out.push(1u8);
        } else {
            out.push(0u8);
        }
        assert(out@ =~= spec_bool_enc(*self));
        assert(self.deep_view() == *self);
        assert(Self::spec_encode(*self) == spec_bool_enc(*self));
        out
    }
}

impl EncodeToBytes for Option<String> {
    open spec fn spec_enc_wf(v: Option<Seq<char>>) -> bool {
        crate::wire::spec_nullable_string_wf(v)
    }

    open spec fn spec_encode(v: Option<Seq<char>>) -> Seq<u8> {
        crate::wire::spec_nullable_string_enc(v)
    }

    fn encode_to_bytes(&self) -> (r: Vec<u8>) {
        match self {
            None => (-1i16).encode_to_bytes(),
            Some(s) => {
                let mut bytes = s.as_str().as_bytes_vec();
                let len = bytes.len() as i16;
                let mut out = len.encode_to_bytes();
                out.append(&mut bytes);
                out
            },
        }
    }
}

/// UTF-8 text whose on-wire length field is its byte length plus one; the
/// compact layout has no null form, and a zero length field is invalid.
#[derive(Debug, Default, Clone)]
pub struct CompactString(pub String);

impl DeepView for CompactString {
    type V = Seq<char>;

    open spec fn deep_view(&self) -> Seq<char> {
        self.0@
    }
}

impl DecodeFromBytes for CompactString {
    open spec fn spec_decode(input: Seq<u8>, off: int) -> Result<(Seq<char>, int), EncodingError> {
        match spec_read_uvarint(input, off) {
            Err(e) => Err(e),
            Ok((l, off2)) => if l == 0 {
                Err(EncodingError::InvalidLength(-1i64))
            } else {
                spec_read_string_exact(input, off2, l - 1)
            },
        }
    }

    fn read_from_u8(input: &[u8], offset: &mut usize) -> (r: Result<Self, EncodingError>) {
        let l = read_unsigned_varint(input, offset)?;
        if l == 0 {
            return Err(EncodingError::InvalidLength(-1));
        }
        let s = read_string_exact(input, offset, (l - 1) as usize)?;
        Ok(CompactString(s))
    }
}

impl EncodeToBytes for CompactString {
    open spec fn spec_enc_wf(v: Seq<char>) -> bool {
        encode_utf8(v).len() + 1 <= 0xffff_ffff
    }

    open spec fn spec_encode(v: Seq<char>) -> Seq<u8> {
        spec_uvarint((encode_utf8(v).len() + 1) as u32) + encode_utf8(v)
    }

    fn encode_to_bytes(&self) -> (r: Vec<u8>) {
        let mut bytes = self.0.as_str().as_bytes_vec();
        let mut out = encode_unsigned_varint((bytes.len() + 1) as u32);
        out.append(&mut bytes);
        out
    }
}

/// Round trip: an encoded compact string decodes to exactly the text it
/// was made from, consuming exactly its bytes.
pub proof fn lemma_compact_string_round_trip(input: Seq<u8>, off: int, v: Seq<char>)
    requires
        0 <= off,
        CompactString::spec_enc_wf(v),
        off + CompactString::spec_encode(v).len() <= input.len(),
        input.subrange(off, off + CompactString::spec_encode(v).len() as int)
            == CompactString::spec_encode(v),
    ensures
        CompactString::spec_decode(input, off) == Ok::<(Seq<char>, int), EncodingError>(
            (v, off + CompactString::spec_encode(v).len()),
        ),
{
    let bytes = encode_utf8(v);
    let lf = spec_uvarint((bytes.len() + 1) as u32);
    lemma_subrange_concat(input, off, lf, bytes);
    crate::wire::lemma_uvarint_round_trip(input, off, (bytes.len() + 1) as u32);
    vstd::utf8::encode_utf8_valid_utf8(v);
    vstd::utf8::encode_utf8_decode_utf8(v);
    assert(((bytes.len() + 1) as u32) as int - 1 == bytes.len());
}

impl DecodeFromBytes for TaggedField {
    open spec fn spec_decode(input: Seq<u8>, off: int) -> Result<
        (TaggedFieldView, int),
        EncodingError,
    > {
        match spec_read_uvarint(input, off) {
            Err(e) => Err(e),
            Ok((tag, off2)) => match spec_read_uvarint(input, off2) {
                Err(e) => Err(e),
                Ok((size, off3)) => if off3 + size > input.len() {
                    Err(EncodingError::Eof)
                } else {
                    Ok(
                        (
                            TaggedFieldView { tag, data: input.subrange(off3, off3 + size) },
                            off3 + size,
                        ),
                    )
                },
            },
        }
    }

    fn read_from_u8(input: &[u8], offset: &mut usize) -> (r: Result<Self, EncodingError>) {
        let tag = read_unsigned_varint(input, offset)?;
        let size = read_unsigned_varint(input, offset)?;
        let data = crate::wire::read_exact(input, offset, size as usize)?;
        Ok(TaggedField { tag, data: vstd::slice::slice_to_vec(data) })
    }
}

impl EncodeToBytes for TaggedField {
    open spec fn spec_enc_wf(v: TaggedFieldView) -> bool {
        v.data.len() <= 0xffff_ffff
    }

    open spec fn spec_encode(v: TaggedFieldView) -> Seq<u8> {
        spec_uvarint(v.tag) + spec_uvarint(v.data.len() as u32) + v.data
    }

    fn encode_to_bytes(&self) -> (r: Vec<u8>) {
        let mut out = encode_unsigned_varint(self.tag);
        let mut sz = encode_unsigned_varint(self.data.len() as u32);
        out.append(&mut sz);
        let mut d = vstd::slice::slice_to_vec(self.data.as_slice());
        out.append(&mut d);
        out
    }
}

/// An optional ordered sequence with the compact layout: a varint length
/// field holding 0 for the absent array, otherwise the element count plus
/// one followed by the elements' encodings in order. Absent and
/// present-but-empty are distinct values with distinct encodings.
#[derive(Debug, Clone)]
pub struct CompactArray<T>(pub Option<Vec<T>>);

impl<T> Default for CompactArray<T> {
    /// The default compact array is the absent one.
    fn default() -> (r: Self)
        ensures
            r.0 is None,
    {
        CompactArray(None)
    }
}

impl<T: DeepView> DeepView for CompactArray<T> {
    type V = Option<Seq<T::V>>;

    open spec fn deep_view(&self) -> Option<Seq<T::V>> {
        self.0.deep_view()
    }
}

/// What decoding a compact array of `T` at `off` yields.
pub open spec fn spec_compact_array_decode<T: DecodeFromBytes>(input: Seq<u8>, off: int) -> Result<
    (Option<Seq<T::V>>, int),
    EncodingError,
> {
    match spec_read_uvarint(input, off) {
        Err(e) => Err(e),
        Ok((l, off2)) => if l == 0 {
            Ok((None, off2))
        } else {
            match spec_decode_elems::<T>(input, off2, (l - 1) as nat) {
                Ok((vs, off3)) => Ok((Some(vs), off3)),
                Err(e) => Err(e),
            }
        },
    }
}

/// The compact-array byte layout of an optional sequence of `T`.
pub open spec fn spec_compact_array_enc<T: EncodeToBytes>(v: Option<Seq<T::V>>) -> Seq<u8> {
    match v {
        None => spec_uvarint(0),
        Some(items) => spec_uvarint((items.len() + 1) as u32) + spec_encode_elems::<T>(items),
    }
}

/// Whether an optional sequence of `T` fits the compact layout.
pub open spec fn spec_compact_array_wf<T: EncodeToBytes>(v: Option<Seq<T::V>>) -> bool {
    match v {
        None => true,
        Some(items) => items.len() + 1 <= 0xffff_ffff && forall|i: int|
            0 <= i < items.len() ==> T::spec_enc_wf(#[trigger] items[i]),
    }
}

impl<T: DecodeFromBytes> DecodeFromBytes for CompactArray<T> {
    open spec fn spec_decode(input: Seq<u8>, off: int) -> Result<
        (Option<Seq<T::V>>, int),
        EncodingError,
    > {
        spec_compact_array_decode::<T>(input, off)
    }

    #[verifier::loop_isolation(false)]
    #[verifier::rlimit(30)]
    fn read_from_u8(input: &[u8], offset: &mut usize) -> (r: Result<Self, EncodingError>) {
        let l = match read_unsigned_varint(input, offset) {
            Ok(l) => l,
            Err(e) => {
                assert(Self::spec_decode(input@, *old(offset) as int)
                    == spec_compact_array_decode::<T>(input@, *old(offset) as int));
                assert(spec_compact_array_decode::<T>(input@, *old(offset) as int) == Err::<
                    (Option<Seq<T::V>>, int),
                    EncodingError,
                >(e));
                return Err(e);
            },
        };
        if l == 0 {
            assert(spec_compact_array_decode::<T>(input@, *old(offset) as int) == Ok::<
                (Option<Seq<T::V>>, int),
                EncodingError,
            >((None, *offset as int)));
            return Ok(CompactArray(None));
        }
        let n = l - 1;
        let ghost off_start = *offset;
        let mut items: Vec<T> = Vec::new();
        let mut k: u32 = 0;
        while k < n
            invariant
                k <= n,
                *offset <= input@.len(),
                off_start <= *offset,
                spec_decode_elems::<T>(input@, off_start as int, n as nat) == (
                match spec_decode_elems::<T>(input@, *offset as int, (n - k) as nat) {
                    Ok((rest, f)) => Ok::<(Seq<T::V>, int), EncodingError>(
                        (items.deep_view() + rest, f),
                    ),
                    Err(e) => Err(e),
                }),
            decreases n - k,
        {
            let ghost items_before = items.deep_view();
            let v = match T::read_from_u8(input, offset) {
                Ok(v) => v,
                Err(e) => {
                    return Err(e);
                },
            };
            items.push(v);
            proof {
                assert(items.deep_view() =~= items_before.push(v.deep_view()));
                assert(forall|rest: Seq<T::V>|
                    items_before + (seq![v.deep_view()] + rest) =~= #[trigger] (items_before.push(
                        v.deep_view(),
                    ) + rest));
            }
            k = k + 1;
        }
        assert(items.deep_view() + Seq::<T::V>::empty() =~= items.deep_view());
        Ok(CompactArray(Some(items)))
    }
}

impl<T: EncodeToBytes> EncodeToBytes for CompactArray<T> {
    open spec fn spec_enc_wf(v: Option<Seq<T::V>>) -> bool {
        spec_compact_array_wf::<T>(v)
    }

    open spec fn spec_encode(v: Option<Seq<T::V>>) -> Seq<u8> {
        spec_compact_array_enc::<T>(v)
    }

    fn encode_to_bytes(&self) -> (r: Vec<u8>) {
        encode_compact_array::<T>(&self.0)
    }
}

/// Encodes an optional sequence of `T` with the compact layout: the byte
/// 0x00 for the absent array, otherwise the element count plus one as a
/// varint followed by the elements' encodings in order.
#[verifier::loop_isolation(false)]
pub fn encode_compact_array<T: EncodeToBytes>(v: &Option<Vec<T>>) -> (r: Vec<u8>)
    requires
        spec_compact_array_wf::<T>(v.deep_view()),
    ensures
        r@ == spec_compact_array_enc::<T>(v.deep_view()),
{
    match v {
        None => encode_unsigned_varint(0),
        Some(items) => {
            let mut out = encode_unsigned_varint((items.len() + 1) as u32);
            let ghost views = items.deep_view();
            let mut idx: usize = 0;
            while idx < items.len()
                invariant
                    idx <= items.len(),
                    out@ == spec_uvarint((views.len() + 1) as u32) + spec_encode_elems::<T>(
                        views.take(idx as int),
                    ),
                decreases items.len() - idx,
            {
                proof {
                    assert(v.deep_view() == Some(views));
                    assert(items@[idx as int].deep_view() == views[idx as int]);
                    assert(T::spec_enc_wf(views[idx as int]));
                }
                let mut b = items[idx].encode_to_bytes();
                out.append(&mut b);
                proof {
                    assert(views.take(idx + 1) =~= views.take(idx as int).push(views[idx as int]));
                    lemma_encode_elems_push::<T>(views.take(idx as int), views[idx as int]);
                }
                idx = idx + 1;
            }
            assert(views.take(items.len() as int) =~= views);
            out
        },
    }
}

/// Reads a tag buffer: a compact array of tagged fields, where the absent
/// buffer and the empty buffer are distinct legal values.
pub fn read_compact_tag_buffer(input: &[u8], off: &mut usize) -> (r: Result<
    Option<Vec<TaggedField>>,
    EncodingError,
>)
    requires
        *old(off) <= input@.len(),
    ensures
        *final(off) <= input@.len(),
        match r {
            Ok(tags) => spec_compact_array_decode::<TaggedField>(input@, *old(off) as int) == Ok::<
                (Option<Seq<TaggedFieldView>>, int),
                EncodingError,
            >((tags.deep_view(), *final(off) as int)) && *old(off) <= *final(off),
            Err(e) => spec_compact_array_decode::<TaggedField>(input@, *old(off) as int) == Err::<
                (Option<Seq<TaggedFieldView>>, int),
                EncodingError,
            >(e),
        },
{
    let arr = CompactArray::<TaggedField>::read_from_u8(input, off)?;
    Ok(arr.0)
}

/// The absent compact array encodes to exactly the single byte 0x00, for
/// every element type, and that byte decodes back to the absent array.
pub proof fn lemma_compact_array_none_round_trip<T: DecodeFromBytes + EncodeToBytes>()
    ensures
        spec_compact_array_enc::<T>(None) =~= seq![0u8],
        spec_compact_array_decode::<T>(seq![0u8], 0) == Ok::<
            (Option<Seq<T::V>>, int),
            EncodingError,
        >((None, 1)),
{
    assert(spec_uvarint(0) =~= seq![0u8]);
    assert(spec_read_uvarint(seq![0u8], 0) == Ok::<(u32, int), EncodingError>((0u32, 1)));
}

/// The present-but-empty compact array encodes to exactly the single byte
/// 0x01, for every element type, and that byte decodes back to the empty
/// array: absent and empty are never conflated.
pub proof fn lemma_compact_array_empty_round_trip<T: DecodeFromBytes + EncodeToBytes>()
    ensures
        spec_compact_array_enc::<T>(Some(Seq::<T::V>::empty())) =~= seq![1u8],
        spec_compact_array_decode::<T>(seq![1u8], 0) == Ok::<
            (Option<Seq<T::V>>, int),
            EncodingError,
        >((Some(Seq::<T::V>::empty()), 1)),
{
    assert(spec_uvarint(1) =~= seq![1u8]);
    assert(spec_encode_elems::<T>(Seq::<T::V>::empty()) =~= Seq::<u8>::empty());
    assert(spec_compact_array_enc::<T>(Some(Seq::<T::V>::empty())) =~= seq![1u8]);
    assert(spec_read_uvarint(seq![1u8], 0) == Ok::<(u32, int), EncodingError>((1u32, 1)));
    assert(spec_decode_elems::<T>(seq![1u8], 1, 0) == Ok::<(Seq<T::V>, int), EncodingError>(
        (Seq::<T::V>::empty(), 1),
    ));
}

/// Round trip: an encoded tagged field decodes to exactly the value it was
/// made from, consuming exactly its bytes.
pub proof fn lemma_tagged_field_round_trip(input: Seq<u8>, off: int, v: TaggedFieldView)
    requires
        0 <= off,
        TaggedField::spec_enc_wf(v),
        off + TaggedField::spec_encode(v).len() <= input.len(),
        input.subrange(off, off + TaggedField::spec_encode(v).len() as int)
            == TaggedField::spec_encode(v),
    ensures
        TaggedField::spec_decode(input, off) == Ok::<(TaggedFieldView, int), EncodingError>(
            (v, off + TaggedField::spec_encode(v).len()),
        ),
{
    let a = spec_uvarint(v.tag);
    let b = spec_uvarint(v.data.len() as u32);
    let enc = TaggedField::spec_encode(v);
    assert(enc =~= (a + b) + v.data);
    lemma_subrange_concat(input, off, a + b, v.data);
    lemma_subrange_concat(input, off, a, b);
    crate::wire::lemma_uvarint_round_trip(input, off, v.tag);
    crate::wire::lemma_uvarint_round_trip(input, off + a.len(), v.data.len() as u32);
    assert(TaggedFieldView {
        tag: v.tag,
        data: input.subrange(
            off + a.len() + b.len(),
            off + a.len() + b.len() + v.data.len() as int,
        ),
    } == v);
}

/// Round trip: a compact array of any element type whose codec round
/// trips decodes to exactly the optional sequence it was made from —
/// absent to absent, present to the same elements in order.
pub proof fn lemma_compact_array_round_trip<T: DecodeFromBytes + EncodeToBytes>(
    input: Seq<u8>,
    off: int,
    v: Option<Seq<T::V>>,
)
    requires
        crate::codec::spec_round_trips::<T>(),
        0 <= off,
        spec_compact_array_wf::<T>(v),
        off + spec_compact_array_enc::<T>(v).len() <= input.len(),
        input.subrange(off, off + spec_compact_array_enc::<T>(v).len() as int)
            == spec_compact_array_enc::<T>(v),
    ensures
        spec_compact_array_decode::<T>(input, off) == Ok::<
            (Option<Seq<T::V>>, int),
            EncodingError,
        >((v, off + spec_compact_array_enc::<T>(v).len())),
{
    match v {
        None => {
            crate::wire::lemma_uvarint_round_trip(input, off, 0);
        },
        Some(items) => {
            let lf = spec_uvarint((items.len() + 1) as u32);
            let body = spec_encode_elems::<T>(items);
            lemma_subrange_concat(input, off, lf, body);
            crate::wire::lemma_uvarint_round_trip(input, off, (items.len() + 1) as u32);
            crate::codec::lemma_decode_elems_round_trip::<T>(input, off + lf.len(), items);
            assert(((items.len() + 1) as u32 - 1) as nat == items.len());
        },
    }
}

/// Every run of tagged fields the decoder yields has exactly the decoded
/// count of elements, each with a payload that fits its 32-bit size field.
proof fn lemma_decoded_tagged_fields_wf(input: Seq<u8>, off: int, n: nat)
    requires
        0 <= off,
    ensures
        match spec_decode_elems::<TaggedField>(input, off, n) {
            Ok((vs, end)) => vs.len() == n && forall|i: int|
                0 <= i < vs.len() ==> (#[trigger] vs[i]).data.len() <= 0xffff_ffff,
            Err(_) => true,
        },
    decreases n,
{
    if n > 0 {
        crate::wire::lemma_read_uvarint_bounds(input, off);
        match spec_read_uvarint(input, off) {
            Err(_) => {},
            Ok((tag, offa)) => {
                crate::wire::lemma_read_uvarint_bounds(input, offa);
                match spec_read_uvarint(input, offa) {
                    Err(_) => {},
                    Ok((size, offb)) => {
                        if offb + size <= input.len() {
                            let v = TaggedFieldView {
                                tag,
                                data: input.subrange(offb, offb + size),
                            };
                            let off2 = offb + size;
                            assert(TaggedField::spec_decode(input, off) == Ok::<
                                (TaggedFieldView, int),
                                EncodingError,
                            >((v, off2)));
                            assert(v.data.len() == size);
                            lemma_decoded_tagged_fields_wf(input, off2, (n - 1) as nat);
                            match spec_decode_elems::<TaggedField>(input, off2, (n - 1) as nat) {
                                Err(_) => {},
                                Ok((vs, _)) => {
                                    assert(forall|i: int|
                                        0 <= i < vs.len() ==> (seq![v] + vs)[i + 1] == (
                                        #[trigger] vs[i]));
                                },
                            }
                        }
                    },
                }
            },
        }
    }
}

/// Every tag buffer the decoder yields fits the compact layout, so it can
/// always be re-encoded.
pub proof fn lemma_decoded_tag_buffer_wf(input: Seq<u8>, off: int)
    requires
        0 <= off,
    ensures
        match spec_compact_array_decode::<TaggedField>(input, off) {
            Ok((tags, end)) => spec_compact_array_wf::<TaggedField>(tags),
            Err(_) => true,
        },
{
    crate::wire::lemma_read_uvarint_bounds(input, off);
    match spec_read_uvarint(input, off) {
        Err(_) => {},
        Ok((l, off2)) => {
            if l != 0 {
                lemma_decoded_tagged_fields_wf(input, off2, (l - 1) as nat);
            }
        },
    }
}

/// The tagged-field codec round trips, so compact arrays of tagged fields
/// do too.
pub proof fn lemma_tagged_field_codec_round_trips()
    ensures
        crate::codec::spec_round_trips::<TaggedField>(),
{
    assert forall|input: Seq<u8>, off: int, v: TaggedFieldView|
        #![trigger TaggedField::spec_decode(input, off), TaggedField::spec_encode(v)]
        (0 <= off && TaggedField::spec_enc_wf(v) && off + TaggedField::spec_encode(v).len()
            <= input.len() && input.subrange(off, off + TaggedField::spec_encode(v).len() as int)
            == TaggedField::spec_encode(v)) implies TaggedField::spec_decode(input, off) == Ok::<
        (TaggedFieldView, int),
        EncodingError,
    >((v, off + TaggedField::spec_encode(v).len())) by {
        lemma_tagged_field_round_trip(input, off, v);
    }
}

/// Round trip: an encoded tag buffer decodes to exactly the buffer it was
/// made from — absent to absent, present to the same fields in order.
pub proof fn lemma_tag_buffer_round_trip(
    input: Seq<u8>,
    off: int,
    tags: Option<Seq<TaggedFieldView>>,
)
    requires
        0 <= off,
        spec_compact_array_wf::<TaggedField>(tags),
        off + spec_compact_array_enc::<TaggedField>(tags).len() <= input.len(),
        input.subrange(off, off + spec_compact_array_enc::<TaggedField>(tags).len() as int)
            == spec_compact_array_enc::<TaggedField>(tags),
    ensures
        spec_compact_array_decode::<TaggedField>(input, off) == Ok::<
            (Option<Seq<TaggedFieldView>>, int),
            EncodingError,
        >((tags, off + spec_compact_array_enc::<TaggedField>(tags).len())),
{
    lemma_tagged_field_codec_round_trips();
    lemma_compact_array_round_trip::<TaggedField>(input, off, tags);
}

} // verus!
