//! The two capabilities a wire value can have: decoding itself from a byte
//! buffer at a cursor, and encoding itself to its exact byte layout.
//!
//! Both traits state their behaviour over the value's deep view, so that
//! round-trip laws can be phrased purely at the specification level: each
//! implementation provides a spec-level decoder and encoder, and the
//! executable methods are proved to match them.

use vstd::prelude::*;

use crate::errors::EncodingError;

verus! {

/// A value that can be parsed from a byte buffer at an explicit cursor.
///
/// On success the cursor advances by exactly the bytes consumed; on failure
/// the parse of the whole buffer is abandoned, so the cursor's final
/// position is left unspecified (beyond staying inside the buffer).
pub trait DecodeFromBytes: DeepView + Sized {
    /// What decoding at `off` yields: the decoded value's view and the
    /// cursor's new position, or the exact error.
    spec fn spec_decode(input: Seq<u8>, off: int) -> Result<(Self::V, int), EncodingError>;

    /// Decode one value of this type from `input` at `offset`.
    fn read_from_u8(input: &[u8], offset: &mut usize) -> (r: Result<Self, EncodingError>)
        requires
            *old(offset) <= input@.len(),
        ensures
            *final(offset) <= input@.len(),
            match r {
                Ok(v) => Self::spec_decode(input@, *old(offset) as int) == Ok::<
                    (Self::V, int),
                    EncodingError,
                >((v.deep_view(), *final(offset) as int)) && *old(offset) <= *final(offset),
                Err(e) => Self::spec_decode(input@, *old(offset) as int) == Err::<
                    (Self::V, int),
                    EncodingError,
                >(e),
            },
    ;
}

/// A value that has an exact byte layout on the wire.
pub trait EncodeToBytes: DeepView + Sized {
    /// Whether the value fits the wire format's length fields (for example,
    /// a string whose byte length must fit a 16-bit prefix).
    spec fn spec_enc_wf(v: Self::V) -> bool;

    /// The bytes this value occupies on the wire.
    spec fn spec_encode(v: Self::V) -> Seq<u8>;

    /// Encode the value to its wire bytes.
    fn encode_to_bytes(&self) -> (r: Vec<u8>)
        requires
            Self::spec_enc_wf(self.deep_view()),
        ensures
            r@ == Self::spec_encode(self.deep_view()),
    ;
}

/// What decoding `n` consecutive values of `T` at `off` yields.
pub open spec fn spec_decode_elems<T: DecodeFromBytes>(input: Seq<u8>, off: int, n: nat) -> Result<
    (Seq<T::V>, int),
    EncodingError,
>
    decreases n,
{
    if n == 0 {
        Ok((Seq::empty(), off))
    } else {
        match T::spec_decode(input, off) {
            Ok((v, off2)) => match spec_decode_elems::<T>(input, off2, (n - 1) as nat) {
                Ok((vs, off3)) => Ok((seq![v] + vs, off3)),
                Err(e) => Err(e),
            },
            Err(e) => Err(e),
        }
    }
}

/// The concatenated encodings of a sequence of values of `T`, in order.
pub open spec fn spec_encode_elems<T: EncodeToBytes>(vs: Seq<T::V>) -> Seq<u8>
    decreases vs.len(),
{
    if vs.len() == 0 {
        Seq::empty()
    } else {
        T::spec_encode(vs[0]) + spec_encode_elems::<T>(vs.skip(1))
    }
}

/// Appending one value to a sequence appends its encoding to the bytes.
pub proof fn lemma_encode_elems_push<T: EncodeToBytes>(vs: Seq<T::V>, v: T::V)
    ensures
        spec_encode_elems::<T>(vs.push(v)) == spec_encode_elems::<T>(vs) + T::spec_encode(v),
    decreases vs.len(),
{
    if vs.len() == 0 {
        assert(vs.push(v).skip(1) =~= Seq::<T::V>::empty());
        assert(vs.push(v)[0] == v);
        assert(spec_encode_elems::<T>(vs.push(v)) == T::spec_encode(v) + spec_encode_elems::<T>(
            Seq::<T::V>::empty(),
        ));
        assert(spec_encode_elems::<T>(Seq::<T::V>::empty()) == Seq::<u8>::empty());
        assert(vs =~= Seq::<T::V>::empty());
        assert(T::spec_encode(v) + Seq::<u8>::empty() =~= spec_encode_elems::<T>(vs)
            + T::spec_encode(v));
    } else {
        assert(vs.push(v)[0] == vs[0]);
        assert(vs.push(v).skip(1) =~= vs.skip(1).push(v));
        lemma_encode_elems_push::<T>(vs.skip(1), v);
        assert(spec_encode_elems::<T>(vs.push(v)) == T::spec_encode(vs[0]) + (spec_encode_elems::<
            T,
        >(vs.skip(1)) + T::spec_encode(v)));
        assert(T::spec_encode(vs[0]) + (spec_encode_elems::<T>(vs.skip(1)) + T::spec_encode(v))
            =~= (T::spec_encode(vs[0]) + spec_encode_elems::<T>(vs.skip(1))) + T::spec_encode(v));
    }
}

/// That a type's decoder inverts its encoder: wherever a well-formed
/// value's encoding sits inside a buffer, decoding there gives back that
/// value and consumes exactly its bytes.
pub open spec fn spec_round_trips<T: DecodeFromBytes + EncodeToBytes>() -> bool {
    forall|input: Seq<u8>, off: int, v: T::V|
        #![trigger T::spec_decode(input, off), T::spec_encode(v)]
        (0 <= off && T::spec_enc_wf(v) && off + T::spec_encode(v).len() <= input.len()
            && input.subrange(off, off + T::spec_encode(v).len() as int) == T::spec_encode(v))
            ==> T::spec_decode(input, off) == Ok::<(T::V, int), EncodingError>(
            (v, off + T::spec_encode(v).len()),
        )
}

/// Round trip for a run of consecutive values of a type whose codec round
/// trips: decoding as many elements as were encoded gives back exactly the
/// encoded sequence.
pub proof fn lemma_decode_elems_round_trip<T: DecodeFromBytes + EncodeToBytes>(
    input: Seq<u8>,
    off: int,
    vs: Seq<T::V>,
)
    requires
        spec_round_trips::<T>(),
        0 <= off,
        forall|i: int| 0 <= i < vs.len() ==> T::spec_enc_wf(#[trigger] vs[i]),
        off + spec_encode_elems::<T>(vs).len() <= input.len(),
        input.subrange(off, off + spec_encode_elems::<T>(vs).len() as int) == spec_encode_elems::<
            T,
        >(vs),
    ensures
        spec_decode_elems::<T>(input, off, vs.len()) == Ok::<(Seq<T::V>, int), EncodingError>(
            (vs, off + spec_encode_elems::<T>(vs).len()),
        ),
    decreases vs.len(),
{
    if vs.len() == 0 {
        assert(vs =~= Seq::<T::V>::empty());
    } else {
        let e0 = T::spec_encode(vs[0]);
        let rest = spec_encode_elems::<T>(vs.skip(1));
        assert(spec_encode_elems::<T>(vs) == e0 + rest);
        lemma_subrange_concat(input, off, e0, rest);
        assert(T::spec_decode(input, off) == Ok::<(T::V, int), EncodingError>(
            (vs[0], off + e0.len()),
        ));
        assert(forall|i: int| 0 <= i < vs.skip(1).len() ==> T::spec_enc_wf(#[trigger] vs.skip(1)[i]));
        lemma_decode_elems_round_trip::<T>(input, off + e0.len(), vs.skip(1));
        assert(seq![vs[0]] + vs.skip(1) =~= vs);
    }
}

/// Splitting a window known to hold `a + b` into the window of `a` and the
/// window of `b`.
pub proof fn lemma_subrange_concat(input: Seq<u8>, off: int, a: Seq<u8>, b: Seq<u8>)
    requires
        0 <= off,
        off + a.len() + b.len() <= input.len(),
        input.subrange(off, off + a.len() + b.len()) == a + b,
    ensures
        input.subrange(off, off + a.len() as int) == a,
        input.subrange(off + a.len() as int, off + a.len() + b.len()) == b,
{
    let whole = input.subrange(off, off + a.len() + b.len());
    assert(input.subrange(off, off + a.len() as int) =~= a) by {
        assert(forall|k: int|
            0 <= k < a.len() ==> #[trigger] input.subrange(off, off + a.len() as int)[k]
                == whole[k]);
    }
    assert(input.subrange(off + a.len() as int, off + a.len() + b.len()) =~= b) by {
        assert(forall|k: int|
            0 <= k < b.len() ==> #[trigger] input.subrange(
                off + a.len() as int,
                off + a.len() + b.len(),
            )[k] == whole[k + a.len()]);
    }
}

} // verus!
