//! The protocol's variable-length integer and string primitives.
//!
//! A VarInt is a 32-bit signed integer sent as 1 to 5 bytes: little-endian
//! 7-bit groups, the high bit of each byte a continuation flag. A VarString
//! is a VarInt byte-length prefix followed by that many UTF-8 bytes.

use vstd::prelude::*;

verus! {

use vstd::slice::{slice_subrange, slice_to_vec};
use vstd::utf8::{decode_utf8, encode_utf8, encode_utf8_decode_utf8, encode_utf8_valid_utf8,
    valid_utf8};

/// Why a VarInt failed to decode: the buffer ran out before a terminating
/// byte, or five bytes went by with the continuation bit still set.
#[derive(Debug, Clone, Copy, PartialEq, Eq, Structural)]
pub enum VarIntDecodeError {
    Incomplete,
    TooLarge,
}

/// The 7-bit group `i` of `v`, low groups first.
pub open spec fn vi_group(v: u32, i: int) -> u8 {
    ((v >> ((7 * i) as u32)) & 0x7f) as u8
}

/// How many bytes the VarInt encoding of `v` takes: one per started
/// 7-bit group, at least one.
pub open spec fn varint_len(v: u32) -> int {
    if v < 0x80 {
        1
    } else if v < 0x4000 {
        2
    } else if v < 0x200000 {
        3
    } else if v < 0x10000000 {
        4
    } else {
        5
    }
}

/// The wire bytes of the VarInt encoding of `v`: its 7-bit groups, each
/// with the continuation bit, except the last.
pub open spec fn varint_bytes(v: u32) -> Seq<u8> {
    Seq::new(varint_len(v) as nat, |i: int|
        if i + 1 == varint_len(v) {
            vi_group(v, i)
        } else {
            (vi_group(v, i) | 0x80) as u8
        })
}

/// What decoding yields from byte `i` on, with `acc` accumulated so far:
/// the value and the count of bytes consumed, or the failure.
pub open spec fn varint_decode_from(bytes: Seq<u8>, i: int, acc: u32) -> Result<
    (i32, int),
    VarIntDecodeError,
>
    decreases 5 - i,
{
    if i >= 5 {
        Err(VarIntDecodeError::TooLarge)
    } else if i >= bytes.len() {
        Err(VarIntDecodeError::Incomplete)
    } else {
        let acc2 = acc | (((bytes[i] & 0x7f) as u32) << ((7 * i) as u32));
        if bytes[i] & 0x80 == 0 {
            Ok((acc2 as i32, i + 1))
        } else {
            varint_decode_from(bytes, i + 1, acc2)
        }
    }
}

/// What decoding a VarInt from the front of `bytes` yields: the value and
/// the count of bytes consumed, or the failure.
pub open spec fn varint_decode(bytes: Seq<u8>) -> Result<(i32, int), VarIntDecodeError> {
    varint_decode_from(bytes, 0, 0)
}

/// How many bytes a decode attempt consumes even when it fails: everything
/// up to the limit of five.
pub open spec fn varint_err_used(bytes: Seq<u8>) -> int {
    if bytes.len() < 5 {
        bytes.len() as int
    } else {
        5
    }
}

/// Facts about one encoded byte of the group `(w >> s) & 0x7f`: its
/// continuation bit is clear, setting it makes it set, and masking either
/// form with `0x7f` gives the group back.
proof fn lemma_group_bits(w: u32, s: u32)
    ensures
        (((w >> s) & 0x7f) as u8) & 0x80 == 0,
        ((((w >> s) & 0x7f) as u8) | 0x80) & 0x80 != 0,
        (((((w >> s) & 0x7f) as u8) & 0x7f) as u32) == ((w >> s) & 0x7f),
        ((((((w >> s) & 0x7f) as u8) | 0x80) & 0x7f) as u32) == ((w >> s) & 0x7f),
{
    assert((((w >> s) & 0x7f) as u8) & 0x80 == 0) by (bit_vector);
    assert(((((w >> s) & 0x7f) as u8) | 0x80) & 0x80 != 0) by (bit_vector);
    assert((((((w >> s) & 0x7f) as u8) & 0x7f) as u32) == ((w >> s) & 0x7f)) by (bit_vector);
    assert(((((((w >> s) & 0x7f) as u8) | 0x80) & 0x7f) as u32) == ((w >> s) & 0x7f))
        by (bit_vector);
}

/// Decoding the encoding of `w`, with anything after it, gives back `w`
/// (reinterpreted as `i32`) and consumes exactly the encoding.
pub proof fn lemma_varint_bytes_decode(w: u32, rest: Seq<u8>)
    ensures
        varint_decode(varint_bytes(w) + rest) == Ok::<(i32, int), VarIntDecodeError>((
            w as i32,
            varint_len(w),
        )),
{
    let enc = varint_bytes(w);
    let b = enc + rest;
    let l = varint_len(w);
    lemma_group_bits(w, 0);
    lemma_group_bits(w, 7);
    lemma_group_bits(w, 14);
    lemma_group_bits(w, 21);
    lemma_group_bits(w, 28);
    let m0 = (w >> 0u32) & 0x7f;
    let m1 = (w >> 7u32) & 0x7f;
    let m2 = (w >> 14u32) & 0x7f;
    let m3 = (w >> 21u32) & 0x7f;
    let m4 = (w >> 28u32) & 0x7f;
    let a1 = 0 | (m0 << 0u32);
    let a2 = a1 | (m1 << 7u32);
    let a3 = a2 | (m2 << 14u32);
    let a4 = a3 | (m3 << 21u32);
    let a5 = a4 | (m4 << 28u32);
    if l == 1 {
        assert(w < 0x80 ==> 0 | (((w >> 0u32) & 0x7f) << 0u32) == w) by (bit_vector);
        assert(varint_decode_from(b, 0, 0) == Ok::<(i32, int), VarIntDecodeError>((a1 as i32, 1)));
    } else if l == 2 {
        assert(w < 0x4000 ==> (0 | (((w >> 0u32) & 0x7f) << 0u32)) | (((w >> 7u32) & 0x7f)
            << 7u32) == w) by (bit_vector);
        assert(varint_decode_from(b, 0, 0) == varint_decode_from(b, 1, a1));
        assert(varint_decode_from(b, 1, a1) == Ok::<(i32, int), VarIntDecodeError>((a2 as i32, 2)));
    } else if l == 3 {
        assert(w < 0x200000 ==> ((0 | (((w >> 0u32) & 0x7f) << 0u32)) | (((w >> 7u32) & 0x7f)
            << 7u32)) | (((w >> 14u32) & 0x7f) << 14u32) == w) by (bit_vector);
        assert(varint_decode_from(b, 0, 0) == varint_decode_from(b, 1, a1));
        assert(varint_decode_from(b, 1, a1) == varint_decode_from(b, 2, a2));
        assert(varint_decode_from(b, 2, a2) == Ok::<(i32, int), VarIntDecodeError>((a3 as i32, 3)));
    } else if l == 4 {
        assert(w < 0x10000000 ==> (((0 | (((w >> 0u32) & 0x7f) << 0u32)) | (((w >> 7u32) & 0x7f)
            << 7u32)) | (((w >> 14u32) & 0x7f) << 14u32)) | (((w >> 21u32) & 0x7f) << 21u32) == w)
            by (bit_vector);
        assert(varint_decode_from(b, 0, 0) == varint_decode_from(b, 1, a1));
        assert(varint_decode_from(b, 1, a1) == varint_decode_from(b, 2, a2));
        assert(varint_decode_from(b, 2, a2) == varint_decode_from(b, 3, a3));
        assert(varint_decode_from(b, 3, a3) == Ok::<(i32, int), VarIntDecodeError>((a4 as i32, 4)));
    } else {
        assert(((((0 | (((w >> 0u32) & 0x7f) << 0u32)) | (((w >> 7u32) & 0x7f) << 7u32)) | (((w
            >> 14u32) & 0x7f) << 14u32)) | (((w >> 21u32) & 0x7f) << 21u32)) | (((w >> 28u32)
            & 0x7f) << 28u32) == w) by (bit_vector);
        assert(varint_decode_from(b, 0, 0) == varint_decode_from(b, 1, a1));
        assert(varint_decode_from(b, 1, a1) == varint_decode_from(b, 2, a2));
        assert(varint_decode_from(b, 2, a2) == varint_decode_from(b, 3, a3));
        assert(varint_decode_from(b, 3, a3) == varint_decode_from(b, 4, a4));
        assert(varint_decode_from(b, 4, a4) == Ok::<(i32, int), VarIntDecodeError>((a5 as i32, 5)));
    }
}

/// Round trip: decoding the encoding of any `i32`, with anything after it,
/// gives back the value and consumes exactly the encoding.
pub proof fn lemma_varint_round_trip(v: i32, rest: Seq<u8>)
    ensures
        varint_decode(varint_bytes(v as u32) + rest) == Ok::<(i32, int), VarIntDecodeError>((
            v,
            varint_len(v as u32),
        )),
{
    lemma_varint_bytes_decode(v as u32, rest);
    assert((v as u32) as i32 == v) by (bit_vector);
}

/// Any five leading bytes that all keep the continuation bit set are
/// rejected as too large.
pub proof fn lemma_varint_too_large(bytes: Seq<u8>)
    requires
        bytes.len() >= 5,
        forall|i: int| 0 <= i < 5 ==> (#[trigger] bytes[i]) & 0x80 != 0,
    ensures
        varint_decode(bytes) == Err::<(i32, int), _>(VarIntDecodeError::TooLarge),
{
    let a1 = 0 | (((bytes[0] & 0x7f) as u32) << 0u32);
    let a2 = a1 | (((bytes[1] & 0x7f) as u32) << 7u32);
    let a3 = a2 | (((bytes[2] & 0x7f) as u32) << 14u32);
    let a4 = a3 | (((bytes[3] & 0x7f) as u32) << 21u32);
    let a5 = a4 | (((bytes[4] & 0x7f) as u32) << 28u32);
    assert(varint_decode_from(bytes, 0, 0) == varint_decode_from(bytes, 1, a1));
    assert(varint_decode_from(bytes, 1, a1) == varint_decode_from(bytes, 2, a2));
    assert(varint_decode_from(bytes, 2, a2) == varint_decode_from(bytes, 3, a3));
    assert(varint_decode_from(bytes, 3, a3) == varint_decode_from(bytes, 4, a4));
    assert(varint_decode_from(bytes, 4, a4) == varint_decode_from(bytes, 5, a5));
}

/// An empty buffer is not an error in the protocol sense: it only means
/// the value has not fully arrived yet.
pub proof fn lemma_varint_empty_incomplete(bytes: Seq<u8>)
    requires
        bytes.len() == 0,
    ensures
        varint_decode(bytes) == Err::<(i32, int), _>(VarIntDecodeError::Incomplete),
{
}

/// Shifting right in two steps is one longer shift.
proof fn lemma_shift_chain(w: u32, s: u32)
    requires
        s <= 21,
    ensures
        (w >> s) >> 7u32 == w >> ((s + 7) as u32),
{
    assert((w >> s) >> 7u32 == w >> ((s + 7) as u32)) by (bit_vector)
        requires
            s <= 21,
    ;
}

/// A shift of `7 * k` bits empties `v` exactly when fewer than `k + 1`
/// encoded bytes are needed.
proof fn lemma_varint_len_shift(w: u32)
    ensures
        (w >> 7u32 == 0) <==> varint_len(w) <= 1,
        (w >> 14u32 == 0) <==> varint_len(w) <= 2,
        (w >> 21u32 == 0) <==> varint_len(w) <= 3,
        (w >> 28u32 == 0) <==> varint_len(w) <= 4,
{
    assert((w >> 7u32 == 0) <==> w < 0x80) by (bit_vector);
    assert((w >> 14u32 == 0) <==> w < 0x4000) by (bit_vector);
    assert((w >> 21u32 == 0) <==> w < 0x200000) by (bit_vector);
    assert((w >> 28u32 == 0) <==> w < 0x10000000) by (bit_vector);
}

pub struct VarInt(pub i32);

impl VarInt {
    /// Reads a VarInt from the front of `buffer`, advancing it by exactly
    /// the bytes consumed; on failure the attempted bytes stay consumed.
    pub fn decode(buffer: &mut &[u8]) -> (r: Result<i32, VarIntDecodeError>)
        ensures
            match r {
                Ok(v) => varint_decode(old(buffer)@) matches Ok((val, used)) && v == val
                    && 1 <= used <= 5 && used <= old(buffer)@.len()
                    && final(buffer)@ == old(buffer)@.skip(used),
                Err(e) => varint_decode(old(buffer)@) == Err::<(i32, int), _>(e)
                    && final(buffer)@ == old(buffer)@.skip(varint_err_used(old(buffer)@)),
            },
    {
        let ghost orig: Seq<u8> = buffer@;
        let mut decoded_value: u32 = 0;
        let mut i: usize = 0;
        while i < 5
            invariant
                orig == old(buffer)@,
                i <= 5,
                i <= orig.len(),
                buffer@ == orig.skip(i as int),
                varint_decode(orig) == varint_decode_from(orig, i as int, decoded_value),
            decreases 5 - i,
        {
            let cur: &[u8] = *buffer;
            if cur.len() == 0 {
                proof {
                    assert(i as int == orig.len());
                    assert(varint_decode_from(orig, i as int, decoded_value)
                        == Err::<(i32, int), _>(VarIntDecodeError::Incomplete));
                }
                return Err(VarIntDecodeError::Incomplete);
            }
            let byte = cur[0];
            proof {
                assert(byte == orig[i as int]);
            }
            *buffer = &cur[1..cur.len()];
            proof {
                assert(orig.skip(i as int).skip(1) =~= orig.skip(i as int + 1));
            }
            let shifted: u32 = ((byte & 0x7f) as u32) << ((7 * i) as u32);
            proof {
                assert(varint_decode_from(orig, i as int, decoded_value) == (
                    if byte & 0x80 == 0 {
                        Ok::<(i32, int), VarIntDecodeError>((
                            (decoded_value | shifted) as i32,
                            i as int + 1,
                        ))
                    } else {
                        varint_decode_from(orig, i as int + 1, decoded_value | shifted)
                    }
                ));
            }
            decoded_value = decoded_value | shifted;
            i = i + 1;
            if byte & 0x80 == 0 {
                return Ok(decoded_value as i32);
            }
        }
        proof {
            assert(varint_decode_from(orig, 5, decoded_value)
                == Err::<(i32, int), _>(VarIntDecodeError::TooLarge));
        }
        Err(VarIntDecodeError::TooLarge)
    }

    /// Appends the VarInt encoding of `value` to `out`: 7 bits per byte,
    /// low groups first, the continuation bit set on all but the last byte.
    /// Negative values take the full five bytes, by the wire format's
    /// 32-bit wrap semantics.
    pub fn encode(value: i32, out: &mut Vec<u8>)
        ensures
            final(out)@ == old(out)@ + varint_bytes(value as u32),
    {
        let w: u32 = #[verifier::truncate] (value as u32);
        let mut v: u32 = w;
        let mut j: usize = 0;
        proof {
            assert(w >> 0u32 == w) by (bit_vector);
        }
        loop
            invariant
                w == value as u32,
                j < varint_len(w),
                v == w >> ((7 * j) as u32),
                out@ == old(out)@ + varint_bytes(w).take(j as int),
            decreases varint_len(w) - j,
        {
            let byte = (v & 0x7f) as u8;
            proof {
                assert(byte == vi_group(w, j as int));
            }
            let rest = v >> 7u32;
            proof {
                lemma_varint_len_shift(w);
                if j < 4 {
                    lemma_shift_chain(w, (7 * j) as u32);
                    assert(rest == w >> ((7 * (j + 1)) as u32));
                    assert(rest == 0 <==> varint_len(w) <= j + 1);
                } else {
                    assert((w >> 28u32) >> 7u32 == 0) by (bit_vector);
                    assert(rest == 0);
                }
            }
            if rest != 0 {
                out.push(byte | 0x80);
                proof {
                    assert(varint_bytes(w).take(j + 1) =~= varint_bytes(w).take(j as int)
                        + seq![varint_bytes(w)[j as int]]);
                }
                v = rest;
                j = j + 1;
            } else {
                out.push(byte);
                proof {
                    assert(varint_bytes(w).take(j + 1) =~= varint_bytes(w).take(j as int)
                        + seq![varint_bytes(w)[j as int]]);
                    assert(varint_bytes(w).take(j + 1) =~= varint_bytes(w));
                }
                return;
            }
        }
    }
}

/// Why a VarString failed to decode: a bad length prefix, a declared
/// length past the end of the buffer (or negative), or bytes that are
/// not valid UTF-8.
#[derive(Debug, Clone, Copy, PartialEq, Eq, Structural)]
pub enum VarStringDecodeError {
    InvalidVarInt(VarIntDecodeError),
    BufferUnderrun,
    InvalidUtf8,
}

/// What decoding a VarString from the front of `bytes` yields: the
/// characters and the count of bytes consumed, or the failure.
pub open spec fn varstring_decode(bytes: Seq<u8>) -> Result<
    (Seq<char>, int),
    VarStringDecodeError,
> {
    match varint_decode(bytes) {
        Err(e) => Err(VarStringDecodeError::InvalidVarInt(e)),
        Ok((len, used)) => if len < 0 || used + len > bytes.len() {
            Err(VarStringDecodeError::BufferUnderrun)
        } else if !valid_utf8(bytes.subrange(used, used + len)) {
            Err(VarStringDecodeError::InvalidUtf8)
        } else {
            Ok((decode_utf8(bytes.subrange(used, used + len)), used + len))
        },
    }
}

/// How many bytes a VarString decode attempt consumes even when it fails.
pub open spec fn varstring_err_used(bytes: Seq<u8>) -> int {
    match varint_decode(bytes) {
        Err(_) => varint_err_used(bytes),
        Ok((len, used)) => if len < 0 || used + len > bytes.len() {
            used
        } else {
            used + len
        },
    }
}

/// The wire bytes of the VarString encoding of `s`: the UTF-8 byte length
/// as a VarInt, then the UTF-8 bytes themselves.
pub open spec fn varstring_bytes(s: Seq<char>) -> Seq<u8> {
    varint_bytes(encode_utf8(s).len() as u32) + encode_utf8(s)
}

/// Relies on String::from_utf8: it succeeds exactly on valid UTF-8 input
/// and yields the characters that vstd's UTF-8 model assigns to the bytes.
#[verifier::external_body]
fn string_from_utf8(bytes: Vec<u8>) -> (r: Option<String>)
    ensures
        r is Some <==> valid_utf8(bytes@),
        r matches Some(s) ==> s@ == decode_utf8(bytes@),
{
    String::from_utf8(bytes).ok()
}

pub struct VarString;

impl VarString {
    /// Reads a VarInt length and that many UTF-8 bytes from the front of
    /// `buffer`, advancing it by exactly the bytes consumed; on failure
    /// the attempted bytes stay consumed.
    pub fn decode(buffer: &mut &[u8]) -> (r: Result<String, VarStringDecodeError>)
        ensures
            match r {
                Ok(s) => varstring_decode(old(buffer)@) matches Ok((cs, used)) && s@ == cs
                    && 0 <= used <= old(buffer)@.len()
                    && final(buffer)@ == old(buffer)@.skip(used),
                Err(e) => varstring_decode(old(buffer)@) == Err::<(Seq<char>, int), _>(e)
                    && final(buffer)@ == old(buffer)@.skip(varstring_err_used(old(buffer)@)),
            },
    {
        let ghost orig: Seq<u8> = buffer@;
        let length = match VarInt::decode(buffer) {
            Ok(l) => l,
            Err(e) => {
                return Err(VarStringDecodeError::InvalidVarInt(e));
            },
        };
        let ghost used: int = orig.len() - buffer@.len();
        if length < 0 {
            return Err(VarStringDecodeError::BufferUnderrun);
        }
        let len = length as usize;
        let cur: &[u8] = *buffer;
        if len > cur.len() {
            return Err(VarStringDecodeError::BufferUnderrun);
        }
        let head: &[u8] = slice_subrange(cur, 0, len);
        *buffer = slice_subrange(cur, len, cur.len());
        proof {
            assert(head@ =~= orig.subrange(used, used + len));
            assert(buffer@ =~= orig.skip(used + len));
        }
        let head_vec = slice_to_vec(head);
        match string_from_utf8(head_vec) {
            Some(s) => Ok(s),
            None => Err(VarStringDecodeError::InvalidUtf8),
        }
    }

    /// Appends the VarString encoding of `value` to `out`: the UTF-8 byte
    /// length as a VarInt, then the bytes. The length must fit the wire
    /// format's signed 32-bit prefix.
    pub fn encode(value: &str, out: &mut Vec<u8>)
        requires
            encode_utf8(value@).len() <= i32::MAX,
        ensures
            final(out)@ == old(out)@ + varstring_bytes(value@),
    {
        let bytes: &[u8] = value.as_bytes();
        let len: usize = bytes.len();
        VarInt::encode(len as i32, out);
        out.extend_from_slice(bytes);
    }
}

/// Round trip: decoding the encoding of any string whose UTF-8 form fits
/// the length prefix, with anything after it, gives back its characters
/// and consumes exactly the encoding.
pub proof fn lemma_varstring_round_trip(s: Seq<char>, rest: Seq<u8>)
    requires
        encode_utf8(s).len() <= i32::MAX,
    ensures
        varstring_decode(varstring_bytes(s) + rest) == Ok::<(Seq<char>, int), VarStringDecodeError>(
            (s, varstring_bytes(s).len() as int),
        ),
{
    let eb = encode_utf8(s);
    let bl = eb.len() as int;
    let full = varstring_bytes(s) + rest;
    lemma_varint_bytes_decode(bl as u32, eb + rest);
    assert(full =~= varint_bytes(bl as u32) + (eb + rest));
    let used = varint_len(bl as u32);
    assert(full.subrange(used, used + bl) =~= eb);
    encode_utf8_valid_utf8(s);
    encode_utf8_decode_utf8(s);
}

} // verus!
