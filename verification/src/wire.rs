//! Wire-level primitives: cursor-based readers for fixed-width big-endian
//! integers and unsigned varints, their encoders, and the spec functions
//! that pin down the byte layout of each.
//!
//! Every reader takes an explicit cursor `off` into `input`, advances it by
//! exactly the bytes consumed on success, and never backtracks. All
//! multi-byte integers are big-endian on the wire.

use vstd::prelude::*;

use crate::errors::EncodingError;

verus! {

use vstd::utf8::{valid_utf8, decode_utf8, encode_utf8, encode_utf8_valid_utf8,
    encode_utf8_decode_utf8};

/// One tagged field: a forward-compatibility entry of many structures,
/// carrying a numeric tag and an opaque payload whose interpretation is
/// out of scope here.
#[derive(Debug, Clone)]
pub struct TaggedField {
    pub tag: u32,
    pub data: Vec<u8>,
}

/// The view of a tagged field: its tag and its payload bytes.
pub struct TaggedFieldView {
    pub tag: u32,
    pub data: Seq<u8>,
}

impl DeepView for TaggedField {
    type V = TaggedFieldView;

    open spec fn deep_view(&self) -> TaggedFieldView {
        TaggedFieldView { tag: self.tag, data: self.data@ }
    }
}

/// The big-endian byte layout of a 16-bit signed integer.
pub open spec fn spec_i16_be(v: i16) -> Seq<u8> {
    seq![(((v as u16) >> 8) & 0xff) as u8, ((v as u16) & 0xff) as u8]
}

/// The 16-bit signed integer carried by two big-endian bytes.
pub open spec fn spec_i16_from_be(b0: u8, b1: u8) -> i16 {
    ((((b0 as u16) << 8) | (b1 as u16))) as i16
}

/// What reading a big-endian 16-bit integer at `off` yields.
pub open spec fn spec_read_i16(input: Seq<u8>, off: int) -> Result<(i16, int), EncodingError> {
    if off + 2 <= input.len() {
        Ok((spec_i16_from_be(input[off], input[off + 1]), off + 2))
    } else {
        Err(EncodingError::Eof)
    }
}

/// Two big-endian bytes carry back exactly the integer they were made from.
pub proof fn lemma_i16_be_round_trip(v: i16)
    ensures
        spec_i16_from_be(spec_i16_be(v)[0], spec_i16_be(v)[1]) == v,
{
    assert((((((((v as u16) >> 8) & 0xff) as u8) as u16) << 8) | (((((v as u16) & 0xff) as u8))
        as u16)) as i16 == v) by (bit_vector);
}

/// The big-endian byte layout of a 32-bit signed integer.
pub open spec fn spec_i32_be(v: i32) -> Seq<u8> {
    seq![
        (((v as u32) >> 24) & 0xff) as u8,
        (((v as u32) >> 16) & 0xff) as u8,
        (((v as u32) >> 8) & 0xff) as u8,
        ((v as u32) & 0xff) as u8,
    ]
}

/// The 32-bit signed integer carried by four big-endian bytes.
pub open spec fn spec_i32_from_be(b0: u8, b1: u8, b2: u8, b3: u8) -> i32 {
    (((b0 as u32) << 24) | ((b1 as u32) << 16) | ((b2 as u32) << 8) | (b3 as u32)) as i32
}

/// What reading a big-endian 32-bit integer at `off` yields.
pub open spec fn spec_read_i32(input: Seq<u8>, off: int) -> Result<(i32, int), EncodingError> {
    if off + 4 <= input.len() {
        Ok((spec_i32_from_be(input[off], input[off + 1], input[off + 2], input[off + 3]), off + 4))
    } else {
        Err(EncodingError::Eof)
    }
}

/// Four big-endian bytes carry back exactly the integer they were made from.
pub proof fn lemma_i32_be_round_trip(v: i32)
    ensures
        spec_i32_from_be(
            spec_i32_be(v)[0],
            spec_i32_be(v)[1],
            spec_i32_be(v)[2],
            spec_i32_be(v)[3],
        ) == v,
{
    assert((((((((v as u32) >> 24) & 0xff) as u8) as u32) << 24) | (((((v as u32) >> 16) & 0xff)
        as u8) as u32) << 16 | (((((v as u32) >> 8) & 0xff) as u8) as u32) << 8 | ((((v as u32)
        & 0xff) as u8) as u32)) as i32 == v) by (bit_vector);
}

/// What reading a single byte at `off` yields.
pub open spec fn spec_read_u8(input: Seq<u8>, off: int) -> Result<(u8, int), EncodingError> {
    if off + 1 <= input.len() {
        Ok((input[off], off + 1))
    } else {
        Err(EncodingError::Eof)
    }
}

/// 128 to the power `i`: the place value of the `i`-th varint group.
pub open spec fn pow128(i: nat) -> int
    decreases i,
{
    if i == 0 {
        1
    } else {
        128 * pow128((i - 1) as nat)
    }
}

/// The unsigned-varint byte layout of `u`: seven data bits per byte in
/// little-endian group order, high bit set on every byte but the last.
/// This is the minimal-length form.
pub open spec fn spec_uvarint(u: u32) -> Seq<u8>
    decreases u,
{
    if u < 128 {
        seq![u as u8]
    } else {
        seq![((u % 128) + 128) as u8] + spec_uvarint(u / 128)
    }
}

/// What reading an unsigned varint at `off` yields, `i` groups into the
/// encoding with `acc` the value of the groups already read. Decoding
/// accepts non-minimal encodings; it rejects a fifth byte that still
/// carries a continuation bit, and a decoded value above the 32-bit range.
pub open spec fn spec_read_uvarint_at(input: Seq<u8>, off: int, i: nat, acc: int) -> Result<
    (u32, int),
    EncodingError,
>
    decreases 5 - i,
{
    if off >= input.len() {
        Err(EncodingError::Eof)
    } else {
        let b = input[off];
        let acc2 = acc + (b % 128) * pow128(i);
        if b < 128 {
            if acc2 > 0xffff_ffff {
                Err(EncodingError::VarIntOverflow)
            } else {
                Ok((acc2 as u32, off + 1))
            }
        } else if i >= 4 {
            Err(EncodingError::VarIntTooLong)
        } else {
            spec_read_uvarint_at(input, off + 1, i + 1, acc2)
        }
    }
}

/// What reading an unsigned varint at `off` yields.
pub open spec fn spec_read_uvarint(input: Seq<u8>, off: int) -> Result<(u32, int), EncodingError> {
    spec_read_uvarint_at(input, off, 0, 0)
}

/// Borrows the `n` bytes at `off`, advancing the cursor past them.
pub fn read_exact<'a>(input: &'a [u8], off: &mut usize, n: usize) -> (r: Result<
    &'a [u8],
    EncodingError,
>)
    requires
        *old(off) <= input@.len(),
    ensures
        *final(off) <= input@.len(),
        n <= input@.len() - *old(off) ==> (r matches Ok(s) && s@ == input@.subrange(
            *old(off) as int,
            *old(off) + n,
        ) && *final(off) == *old(off) + n),
        n > input@.len() - *old(off) ==> (r matches Err(e) && e == EncodingError::Eof && *final(off)
            == *old(off)),
{
    if n > input.len() - *off {
        return Err(EncodingError::Eof);
    }
    let s = vstd::slice::slice_subrange(input, *off, *off + n);
    *off = *off + n;
    Ok(s)
}

/// Reads one raw byte.
pub fn read_u8_be(input: &[u8], off: &mut usize) -> (r: Result<u8, EncodingError>)
    requires
        *old(off) <= input@.len(),
    ensures
        *final(off) <= input@.len(),
        match r {
            Ok(v) => spec_read_u8(input@, *old(off) as int) == Ok::<(u8, int), EncodingError>(
                (v, *final(off) as int),
            ) && *old(off) <= *final(off),
            Err(e) => spec_read_u8(input@, *old(off) as int) == Err::<(u8, int), EncodingError>(e),
        },
{
    let b = read_exact(input, off, 1)?;
    Ok(b[0])
}

/// Reads a big-endian 16-bit signed integer.
pub fn read_i16_be(input: &[u8], off: &mut usize) -> (r: Result<i16, EncodingError>)
    requires
        *old(off) <= input@.len(),
    ensures
        *final(off) <= input@.len(),
        match r {
            Ok(v) => spec_read_i16(input@, *old(off) as int) == Ok::<(i16, int), EncodingError>(
                (v, *final(off) as int),
            ) && *old(off) <= *final(off),
            Err(e) => spec_read_i16(input@, *old(off) as int) == Err::<(i16, int), EncodingError>(
                e,
            ),
        },
{
    let b = read_exact(input, off, 2)?;
    Ok((((b[0] as u16) << 8) | (b[1] as u16)) as i16)
}

/// Reads a big-endian 32-bit signed integer.
pub fn read_i32_be(input: &[u8], off: &mut usize) -> (r: Result<i32, EncodingError>)
    requires
        *old(off) <= input@.len(),
    ensures
        *final(off) <= input@.len(),
        match r {
            Ok(v) => spec_read_i32(input@, *old(off) as int) == Ok::<(i32, int), EncodingError>(
                (v, *final(off) as int),
            ) && *old(off) <= *final(off),
            Err(e) => spec_read_i32(input@, *old(off) as int) == Err::<(i32, int), EncodingError>(
                e,
            ),
        },
{
    let b = read_exact(input, off, 4)?;
    Ok((((b[0] as u32) << 24) | ((b[1] as u32) << 16) | ((b[2] as u32) << 8) | (b[3] as u32))
        as i32)
}

/// The place values of the first five varint groups.
proof fn lemma_pow128_small()
    ensures
        pow128(0) == 1,
        pow128(1) == 128,
        pow128(2) == 0x4000,
        pow128(3) == 0x20_0000,
        pow128(4) == 0x1000_0000,
        pow128(5) == 0x8_0000_0000,
{
    reveal_with_fuel(pow128, 6);
}

/// Reads an unsigned varint: up to five groups of seven bits each,
/// little-endian group order, high bit as continuation marker.
#[verifier::loop_isolation(false)]
pub fn read_unsigned_varint(input: &[u8], off: &mut usize) -> (r: Result<u32, EncodingError>)
    requires
        *old(off) <= input@.len(),
    ensures
        *final(off) <= input@.len(),
        match r {
            Ok(v) => spec_read_uvarint(input@, *old(off) as int) == Ok::<
                (u32, int),
                EncodingError,
            >((v, *final(off) as int)) && *old(off) <= *final(off),
            Err(e) => spec_read_uvarint(input@, *old(off) as int) == Err::<
                (u32, int),
                EncodingError,
            >(e),
        },
{
    let ghost off0 = *off;
    let mut x: u64 = 0;
    let mut i: usize = 0;
    let mut factor: u64 = 1;
    loop
        invariant
            i <= 4,
            off0 <= *off <= input@.len(),
            factor == pow128(i as nat),
            (x as int) < factor,
            spec_read_uvarint(input@, off0 as int) == spec_read_uvarint_at(
                input@,
                *off as int,
                i as nat,
                x as int,
            ),
        decreases 5 - i,
    {
        proof {
            lemma_pow128_small();
        }
        let b = match read_exact(input, off, 1) {
            Ok(s) => s[0],
            Err(e) => {
                return Err(e);
            },
        };
        let x2 = x + ((b % 128) as u64) * factor;
        if b < 128 {
            if x2 > 0xffff_ffff {
                return Err(EncodingError::VarIntOverflow);
            }
            return Ok(x2 as u32);
        }
        if i == 4 {
            return Err(EncodingError::VarIntTooLong);
        }
        factor = factor * 128;
        x = x2;
        i = i + 1;
    }
}

/// Every varint place value is positive.
proof fn lemma_pow128_pos(i: nat)
    ensures
        pow128(i) >= 1,
    decreases i,
{
    if i > 0 {
        lemma_pow128_pos((i - 1) as nat);
    }
}

/// A value below the `k`-th place value encodes in at most `k` groups.
proof fn lemma_uvarint_len_le(u: u32, k: nat)
    requires
        1 <= k,
        (u as int) < pow128(k),
    ensures
        spec_uvarint(u).len() <= k,
    decreases u,
{
    if u >= 128 {
        assert(pow128(k) == 128 * pow128((k - 1) as nat));
        lemma_pow128_pos((k - 1) as nat);
        if k == 1 {
            assert(false);
        }
        assert((u as int) / 128 < pow128((k - 1) as nat)) by (nonlinear_arith)
            requires
                (u as int) < 128 * pow128((k - 1) as nat),
                pow128((k - 1) as nat) >= 1,
        ;
        lemma_uvarint_len_le(u / 128, (k - 1) as nat);
    }
}

/// The shape of a minimal varint encoding: one to five bytes, every byte
/// but the last carrying the continuation bit, the last byte without it,
/// and — minimality — a multi-byte encoding never ends in a zero group.
pub proof fn lemma_uvarint_shape(u: u32)
    ensures
        1 <= spec_uvarint(u).len() <= 5,
        spec_uvarint(u).last() < 128,
        spec_uvarint(u).len() > 1 ==> spec_uvarint(u).last() != 0,
        forall|k: int|
            0 <= k < spec_uvarint(u).len() - 1 ==> spec_uvarint(u)[k] >= 128,
    decreases u,
{
    lemma_pow128_small();
    lemma_uvarint_len_le(u, 5);
    if u >= 128 {
        lemma_uvarint_shape(u / 128);
        let rest = spec_uvarint(u / 128);
        assert(spec_uvarint(u) == seq![((u % 128) + 128) as u8] + rest);
        assert(spec_uvarint(u).last() == rest.last());
        assert(forall|k: int|
            1 <= k < spec_uvarint(u).len() - 1 ==> spec_uvarint(u)[k] == rest[k - 1]);
    }
}

/// Decoding resumed in the middle of a varint stream: with `i` groups
/// already read into `acc`, the remaining bytes of `u`'s encoding complete
/// the read to exactly `acc + u * pow128(i)`.
proof fn lemma_uvarint_decode_encode_at(input: Seq<u8>, off: int, i: nat, acc: int, u: u32)
    requires
        0 <= off,
        off + spec_uvarint(u).len() <= input.len(),
        input.subrange(off, off + spec_uvarint(u).len() as int) == spec_uvarint(u),
        i + spec_uvarint(u).len() <= 5,
        0 <= acc,
        acc + (u as int) * pow128(i) <= 0xffff_ffff,
    ensures
        spec_read_uvarint_at(input, off, i, acc) == Ok::<(u32, int), EncodingError>(
            ((acc + (u as int) * pow128(i)) as u32, off + spec_uvarint(u).len()),
        ),
    decreases u,
{
    lemma_pow128_pos(i);
    let enc = spec_uvarint(u);
    assert(input[off] == input.subrange(off, off + enc.len() as int)[0]);
    let b = input[off];
    if u < 128 {
        assert(b == u as u8);
        assert((b % 128) as int == u as int);
        assert(acc + (b % 128) * pow128(i) == acc + (u as int) * pow128(i));
    } else {
        assert(b == ((u % 128) + 128) as u8);
        assert(b >= 128);
        assert(b as int == (u as int) % 128 + 128);
        assert((b % 128) as int == (u as int) % 128);
        let acc2 = acc + ((u as int) % 128) * pow128(i);
        let rest = spec_uvarint(u / 128);
        assert(enc == seq![b] + rest);
        assert(input.subrange(off + 1, off + 1 + rest.len() as int) =~= rest) by {
            assert(forall|k: int|
                0 <= k < rest.len() ==> #[trigger] input.subrange(
                    off + 1,
                    off + 1 + rest.len() as int,
                )[k] == input.subrange(off, off + enc.len() as int)[k + 1]);
        }
        assert(pow128(i + 1) == 128 * pow128(i));
        assert(acc2 + ((u as int) / 128) * pow128(i + 1) == acc + (u as int) * pow128(i))
            by (nonlinear_arith)
            requires
                acc2 == acc + ((u as int) % 128) * pow128(i),
                pow128(i + 1) == 128 * pow128(i),
                (u as int) == 128 * ((u as int) / 128) + (u as int) % 128,
        ;
        assert((u as int) * pow128(i) >= 0) by (nonlinear_arith)
            requires
                (u as int) >= 0,
                pow128(i) >= 1,
        ;
        assert(acc2 >= 0);
        lemma_uvarint_decode_encode_at(input, off + 1, i + 1, acc2, u / 128);
    }
}

/// Round trip: an encoded varint sitting at `off` inside any buffer decodes
/// to exactly the value it was made from, consuming exactly its bytes.
pub proof fn lemma_uvarint_round_trip(input: Seq<u8>, off: int, u: u32)
    requires
        0 <= off,
        off + spec_uvarint(u).len() <= input.len(),
        input.subrange(off, off + spec_uvarint(u).len() as int) == spec_uvarint(u),
    ensures
        spec_read_uvarint(input, off) == Ok::<(u32, int), EncodingError>(
            (u, off + spec_uvarint(u).len()),
        ),
{
    lemma_uvarint_shape(u);
    lemma_uvarint_decode_encode_at(input, off, 0, 0, u);
}

/// Encodes `input` as an unsigned varint in its minimal-length form.
pub fn encode_unsigned_varint(input: u32) -> (r: Vec<u8>)
    ensures
        r@ == spec_uvarint(input),
{
    let mut out: Vec<u8> = Vec::new();
    let mut x = input;
    while x >= 128
        invariant
            out@ + spec_uvarint(x) == spec_uvarint(input),
        decreases x,
    {
        out.push(((x % 128) + 128) as u8);
        x = x / 128;
    }
    out.push(x as u8);
    assert(out@ =~= spec_uvarint(input));
    out
}

/// The nullable-string byte layout: a big-endian 16-bit length, then that
/// many UTF-8 bytes; length −1 and no bytes for the null string.
pub open spec fn spec_nullable_string_enc(s: Option<Seq<char>>) -> Seq<u8> {
    match s {
        None => spec_i16_be(-1i16),
        Some(cs) => spec_i16_be(encode_utf8(cs).len() as i16) + encode_utf8(cs),
    }
}

/// Whether a nullable string fits its 16-bit length prefix.
pub open spec fn spec_nullable_string_wf(s: Option<Seq<char>>) -> bool {
    match s {
        None => true,
        Some(cs) => encode_utf8(cs).len() <= 0x7fff,
    }
}

/// What reading `n` raw bytes as UTF-8 text at `off` yields.
pub open spec fn spec_read_string_exact(input: Seq<u8>, off: int, n: int) -> Result<
    (Seq<char>, int),
    EncodingError,
> {
    if off + n > input.len() {
        Err(EncodingError::Eof)
    } else if valid_utf8(input.subrange(off, off + n)) {
        Ok((decode_utf8(input.subrange(off, off + n)), off + n))
    } else {
        Err(EncodingError::Utf8)
    }
}

/// What reading a nullable string at `off` yields.
pub open spec fn spec_read_nullable_string(input: Seq<u8>, off: int) -> Result<
    (Option<Seq<char>>, int),
    EncodingError,
> {
    match spec_read_i16(input, off) {
        Err(e) => Err(e),
        Ok((len, off2)) => if len == -1 {
            Ok((None, off2))
        } else if len < 0 {
            Err(EncodingError::InvalidLength(len as i64))
        } else {
            match spec_read_string_exact(input, off2, len as int) {
                Ok((cs, off3)) => Ok((Some(cs), off3)),
                Err(e) => Err(e),
            }
        },
    }
}

/// Relies on core::str::from_utf8: it returns `Ok` exactly when the input
/// is valid UTF-8, and the returned string consists of the characters
/// those bytes encode.
#[verifier::external_body]
fn utf8_to_string(bytes: &[u8]) -> (r: Option<String>)
    ensures
        r is Some <==> valid_utf8(bytes@),
        r matches Some(s) ==> s@ == decode_utf8(bytes@),
{
    match core::str::from_utf8(bytes) {
        Ok(s) => Some(s.to_owned()),
        Err(_) => None,
    }
}

/// Reads exactly `n` bytes and validates them as UTF-8 text.
pub fn read_string_exact(input: &[u8], off: &mut usize, n: usize) -> (r: Result<
    String,
    EncodingError,
>)
    requires
        *old(off) <= input@.len(),
    ensures
        *final(off) <= input@.len(),
        match r {
            Ok(s) => spec_read_string_exact(input@, *old(off) as int, n as int) == Ok::<
                (Seq<char>, int),
                EncodingError,
            >((s@, *final(off) as int)) && *old(off) <= *final(off),
            Err(e) => spec_read_string_exact(input@, *old(off) as int, n as int) == Err::<
                (Seq<char>, int),
                EncodingError,
            >(e),
        },
{
    let b = read_exact(input, off, n)?;
    match utf8_to_string(b) {
        Some(s) => Ok(s),
        None => Err(EncodingError::Utf8),
    }
}

/// Reads a nullable string: 16-bit signed length, −1 meaning null, any
/// other negative length rejected, else that many UTF-8 bytes.
pub fn read_nullable_string(input: &[u8], off: &mut usize) -> (r: Result<
    Option<String>,
    EncodingError,
>)
    requires
        *old(off) <= input@.len(),
    ensures
        *final(off) <= input@.len(),
        match r {
            Ok(s) => spec_read_nullable_string(input@, *old(off) as int) == Ok::<
                (Option<Seq<char>>, int),
                EncodingError,
            >((s.deep_view(), *final(off) as int)) && *old(off) <= *final(off),
            Err(e) => spec_read_nullable_string(input@, *old(off) as int) == Err::<
                (Option<Seq<char>>, int),
                EncodingError,
            >(e),
        },
{
    let len = read_i16_be(input, off)?;
    if len == -1 {
        return Ok(None);
    }
    if len < 0 {
        return Err(EncodingError::InvalidLength(len as i64));
    }
    let s = read_string_exact(input, off, len as usize)?;
    Ok(Some(s))
}

/// A successful varint read moves the cursor forward and keeps it inside
/// the buffer.
proof fn lemma_read_uvarint_at_bounds(input: Seq<u8>, off: int, i: nat, acc: int)
    ensures
        match spec_read_uvarint_at(input, off, i, acc) {
            Ok((_, end)) => off < end <= input.len(),
            Err(_) => true,
        },
    decreases 5 - i,
{
    if off < input.len() {
        let b = input[off];
        if b >= 128 && i < 4 {
            lemma_read_uvarint_at_bounds(input, off + 1, i + 1, acc + (b % 128) * pow128(i));
        }
    }
}

/// A successful varint read moves the cursor forward and keeps it inside
/// the buffer.
pub proof fn lemma_read_uvarint_bounds(input: Seq<u8>, off: int)
    ensures
        match spec_read_uvarint(input, off) {
            Ok((_, end)) => off < end <= input.len(),
            Err(_) => true,
        },
{
    lemma_read_uvarint_at_bounds(input, off, 0, 0);
}

/// Every nullable string the decoder yields fits its 16-bit length prefix,
/// so it can always be re-encoded.
pub proof fn lemma_read_nullable_string_wf(input: Seq<u8>, off: int)
    requires
        0 <= off,
    ensures
        match spec_read_nullable_string(input, off) {
            Ok((s, end)) => spec_nullable_string_wf(s),
            Err(_) => true,
        },
{
    match spec_read_i16(input, off) {
        Err(_) => {},
        Ok((len, off2)) => {
            if len >= 0 && off2 + len <= input.len() {
                let bytes = input.subrange(off2, off2 + len as int);
                if valid_utf8(bytes) {
                    vstd::utf8::decode_utf8_encode_utf8(bytes);
                    assert(encode_utf8(decode_utf8(bytes)) == bytes);
                }
            }
        },
    }
}

/// Round trip: an encoded nullable string decodes to exactly the value it
/// was made from, consuming exactly its bytes.
pub proof fn lemma_nullable_string_round_trip(input: Seq<u8>, off: int, s: Option<Seq<char>>)
    requires
        0 <= off,
        spec_nullable_string_wf(s),
        off + spec_nullable_string_enc(s).len() <= input.len(),
        input.subrange(off, off + spec_nullable_string_enc(s).len() as int)
            == spec_nullable_string_enc(s),
    ensures
        spec_read_nullable_string(input, off) == Ok::<(Option<Seq<char>>, int), EncodingError>(
            (s, off + spec_nullable_string_enc(s).len()),
        ),
{
    let enc = spec_nullable_string_enc(s);
    assert(input[off] == input.subrange(off, off + enc.len() as int)[0]);
    assert(input[off + 1] == input.subrange(off, off + enc.len() as int)[1]);
    match s {
        None => {
            lemma_i16_be_round_trip(-1i16);
        },
        Some(cs) => {
            let bytes = encode_utf8(cs);
            let len = bytes.len() as i16;
            lemma_i16_be_round_trip(len);
            assert(input.subrange(off + 2, off + 2 + bytes.len() as int) =~= bytes) by {
                assert(forall|k: int|
                    0 <= k < bytes.len() ==> #[trigger] input.subrange(
                        off + 2,
                        off + 2 + bytes.len() as int,
                    )[k] == input.subrange(off, off + enc.len() as int)[k + 2]);
            }
            encode_utf8_valid_utf8(cs);
            encode_utf8_decode_utf8(cs);
        },
    }
}

} // verus!
