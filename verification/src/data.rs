//! Wire-level primitives: variable-length integers, big-endian fixed-width
//! integers, booleans, length-prefixed UTF-8 strings, raw byte runs and
//! 128-bit identifiers.
//!
//! Every reader takes a byte buffer and a cursor, advances the cursor past
//! what it consumed, and is specified exactly against a spec-level decode
//! function on the byte sequence from the cursor onward.

use vstd::prelude::*;
use vstd::slice::slice_to_vec;
use vstd::utf8::{decode_utf8, encode_utf8, valid_utf8};

use crate::error::WireError;

verus! {

// ---------------------------------------------------------------------------
// Variable-length integers
// ---------------------------------------------------------------------------

/// The wire encoding of `v`: 7-bit groups, least significant first, the high
/// bit of each byte marking that more groups follow. Minimal: no padding
/// groups are emitted.
pub open spec fn varint_encoding(v: u32) -> Seq<u8>
    decreases v via varint_encoding_decreases
{
    if v < 0x80 {
        seq![(v & 0x7f) as u8]
    } else {
        seq![((v & 0x7f) | 0x80) as u8] + varint_encoding(v >> 7)
    }
}

#[via_fn]
proof fn varint_encoding_decreases(v: u32) {
    assert(v >= 0x80 ==> (v >> 7) < v) by (bit_vector);
}

/// Number of bytes in the encoding of `v`.
pub open spec fn varint_len(v: u32) -> int {
    varint_encoding(v).len() as int
}

/// Reading a varint whose groups land at bit offset `shift`: the result of
/// decoding the head of `s`, together with the number of bytes consumed.
/// Fails with `FramingError` when the bytes run out, and with
/// `MalformedVarint` when the group at bit offset 28 still carries the
/// continuation bit (the value would exceed 32 bits).
pub open spec fn varint_decode_at(s: Seq<u8>, shift: u32) -> Result<(u32, int), WireError>
    decreases s.len(),
{
    if s.len() == 0 {
        Err(WireError::FramingError)
    } else {
        let b = s[0];
        if b & 0x80 == 0 {
            Ok(((((b & 0x7f) as u32) << shift) as u32, 1))
        } else if shift + 7 >= 32 {
            Err(WireError::MalformedVarint)
        } else {
            match varint_decode_at(s.drop_first(), (shift + 7) as u32) {
                Ok((v, n)) => Ok(((v | (((b & 0x7f) as u32) << shift)) as u32, n + 1)),
                Err(e) => Err(e),
            }
        }
    }
}

/// Decoding a varint from the head of `s`.
pub open spec fn varint_decode(s: Seq<u8>) -> Result<(u32, int), WireError> {
    varint_decode_at(s, 0)
}

/// The encoding of any `u32` takes between one and five bytes.
pub proof fn lemma_varint_len_bounds(v: u32)
    ensures
        1 <= varint_len(v) <= 5,
        v < 0x80 <==> varint_len(v) == 1,
        v >= 0x80 ==> varint_len(v) == 1 + varint_len(v >> 7),
{
    let v1 = v >> 7;
    let v2 = v1 >> 7;
    let v3 = v2 >> 7;
    let v4 = v3 >> 7;
    assert(((((v >> 7) >> 7) >> 7) >> 7) < 0x80) by (bit_vector);
    if v < 0x80 {
        assert(varint_encoding(v).len() == 1);
    } else {
        assert(varint_encoding(v).len() == 1 + varint_encoding(v1).len());
        if v1 < 0x80 {
            assert(varint_encoding(v1).len() == 1);
        } else {
            assert(varint_encoding(v1).len() == 1 + varint_encoding(v2).len());
            if v2 < 0x80 {
                assert(varint_encoding(v2).len() == 1);
            } else {
                assert(varint_encoding(v2).len() == 1 + varint_encoding(v3).len());
                if v3 < 0x80 {
                    assert(varint_encoding(v3).len() == 1);
                } else {
                    assert(varint_encoding(v3).len() == 1 + varint_encoding(v4).len());
                    assert(varint_encoding(v4).len() == 1);
                }
            }
        }
    }
}

proof fn lemma_varint_roundtrip_at(v: u32, rest: Seq<u8>, shift: u32)
    requires
        shift + 7 * (varint_len(v) - 1) <= 28,
    ensures
        varint_decode_at(varint_encoding(v) + rest, shift) == Ok::<(u32, int), WireError>(
            ((v << shift) as u32, varint_len(v)),
        ),
    decreases v,
{
    lemma_varint_len_bounds(v);
    let s = varint_encoding(v) + rest;
    if v < 0x80 {
        let b = (v & 0x7f) as u8;
        assert(s[0] == b);
        assert(v < 0x80 ==> ((v & 0x7f) as u8) & 0x80 == 0 && ((((v & 0x7f) as u8) & 0x7f) as u32)
            == v) by (bit_vector);
    } else {
        assert(v >= 0x80 ==> (v >> 7) < v) by (bit_vector);
        let b = ((v & 0x7f) | 0x80) as u8;
        assert(s[0] == b);
        assert(b == ((v & 0x7f) | 0x80) as u8 ==> b & 0x80 != 0) by (bit_vector);
        lemma_varint_len_bounds(v >> 7);
        assert(varint_len(v) == 1 + varint_len(v >> 7));
        lemma_varint_roundtrip_at(v >> 7, rest, (shift + 7) as u32);
        assert(s.drop_first() =~= varint_encoding(v >> 7) + rest);
        let inner = ((v >> 7) << ((shift + 7) as u32)) as u32;
        assert(varint_decode_at(s.drop_first(), (shift + 7) as u32) == Ok::<
            (u32, int),
            WireError,
        >((inner, varint_len(v >> 7))));
        assert(shift <= 28 ==> ((((v >> 7) << ((shift + 7) as u32)) as u32) | (((((v & 0x7f)
            | 0x80) as u8) & 0x7f) as u32) << shift) == (v << shift) as u32) by (bit_vector);
    }
}

/// Round trip: decoding the encoding of `v`, with anything at all appended,
/// yields `v` back and consumes exactly the encoding.
pub proof fn lemma_varint_roundtrip(v: u32, rest: Seq<u8>)
    ensures
        varint_decode(varint_encoding(v) + rest) == Ok::<(u32, int), WireError>(
            (v, varint_len(v)),
        ),
{
    lemma_varint_len_bounds(v);
    lemma_varint_roundtrip_at(v, rest, 0);
    assert(((v << 0u32) as u32) == v) by (bit_vector);
}

/// A buffer whose first five bytes all carry the continuation bit cannot hold
/// a 32-bit varint: decoding fails with `MalformedVarint`.
pub proof fn lemma_varint_too_long(s: Seq<u8>)
    requires
        s.len() >= 5,
        forall|i: int| 0 <= i < 5 ==> (#[trigger] s[i]) & 0x80 != 0,
    ensures
        varint_decode(s) == Err::<(u32, int), WireError>(WireError::MalformedVarint),
{
    let s1 = s.drop_first();
    let s2 = s1.drop_first();
    let s3 = s2.drop_first();
    let s4 = s3.drop_first();
    assert(s1[0] == s[1] && s2[0] == s[2] && s3[0] == s[3] && s4[0] == s[4]);
    assert(varint_decode_at(s4, 28) == Err::<(u32, int), WireError>(WireError::MalformedVarint));
    assert(varint_decode_at(s3, 21) == Err::<(u32, int), WireError>(WireError::MalformedVarint));
    assert(varint_decode_at(s2, 14) == Err::<(u32, int), WireError>(WireError::MalformedVarint));
    assert(varint_decode_at(s1, 7) == Err::<(u32, int), WireError>(WireError::MalformedVarint));
    assert(varint_decode_at(s, 0) == Err::<(u32, int), WireError>(WireError::MalformedVarint));
}

/// Appends the varint encoding of `value` to `buffer`.
pub fn write_varint(buffer: &mut Vec<u8>, value: u32)
    ensures
        final(buffer)@ == old(buffer)@ + varint_encoding(value),
{
    let ghost orig: u32 = value;
    let mut value = value;
    loop
        invariant_except_break
            buffer@ + varint_encoding(value) =~= old(buffer)@ + varint_encoding(orig),
        ensures
            buffer@ =~= old(buffer)@ + varint_encoding(orig),
        decreases value,
    {
        proof {
            assert(value >= 0x80 ==> (value >> 7) < value) by (bit_vector);
            assert((value & 0x7F) | 0x80 <= 0xFF && value & 0x7F <= 0xFF) by (bit_vector);
        }
        if value >= 0x80 {
            let ghost pre = buffer@;
            buffer.push(((value & 0x7F) | 0x80) as u8);
            proof {
                assert(varint_encoding(value) == seq![((value & 0x7f) | 0x80) as u8]
                    + varint_encoding(value >> 7));
                assert(buffer@ + varint_encoding(value >> 7) =~= pre + varint_encoding(value));
            }
            value = value >> 7;
        } else {
            buffer.push((value & 0x7F) as u8);
            proof {
                assert(varint_encoding(value) == seq![(value & 0x7f) as u8]);
            }
            break ;
        }
    }
}

/// Number of bytes the varint encoding of `value` occupies on the wire.
pub fn varint_size(value: u32) -> (r: usize)
    ensures
        r == varint_len(value),
{
    let ghost orig: u32 = value;
    let mut value = value;
    let mut size: usize = 0;
    proof {
        lemma_varint_len_bounds(orig);
    }
    loop
        invariant_except_break
            size + varint_len(value) == varint_len(orig),
            1 <= varint_len(orig) <= 5,
            size <= 4,
        ensures
            size == varint_len(orig),
        decreases value,
    {
        size = size + 1;
        proof {
            lemma_varint_len_bounds(value);
            assert((value & !0x7F == 0) <==> value < 0x80) by (bit_vector);
            assert(value >= 0x80 ==> (value >> 7) < value) by (bit_vector);
        }
        if value & !0x7F == 0 {
            break ;
        }
        proof {
            lemma_varint_len_bounds(value >> 7);
        }
        value = value >> 7;
    }
    size
}

/// Reads the varint groups of `buffer` from `pos` on, at bit offset `shift`,
/// exactly as `varint_decode_at` describes; returns the value and the cursor
/// just past the bytes consumed.
fn read_varint_groups(buffer: &[u8], pos: usize, shift: u32) -> (r: Result<
    (u32, usize),
    WireError,
>)
    requires
        pos <= buffer@.len(),
        shift < 32,
    ensures
        match varint_decode_at(buffer@.skip(pos as int), shift) {
            Ok((v, n)) => (r matches Ok(p) && p.0 == v && p.1 == pos + n && pos <= p.1
                <= buffer@.len()),
            Err(e) => r == Err::<(u32, usize), WireError>(e),
        },
    decreases buffer@.len() - pos,
{
    proof {
        assert(buffer@.skip(pos as int).len() == buffer@.len() - pos);
    }
    if pos >= buffer.len() {
        return Err(WireError::FramingError);
    }
    let current_byte = buffer[pos];
    proof {
        assert(buffer@.skip(pos as int)[0] == current_byte);
        assert(buffer@.skip(pos as int).drop_first() =~= buffer@.skip(pos as int + 1));
    }
    let group = ((current_byte & 0x7F) as u32) << shift;
    if current_byte & 0x80 == 0 {
        Ok((group, pos + 1))
    } else if shift + 7 >= 32 {
        Err(WireError::MalformedVarint)
    } else {
        match read_varint_groups(buffer, pos + 1, shift + 7) {
            Ok((v, end)) => Ok((v | group, end)),
            Err(e) => Err(e),
        }
    }
}

/// Reads one varint from `buffer` at `*position`, advancing the cursor past
/// the bytes consumed on success.
pub fn read_varint(buffer: &[u8], position: &mut usize) -> (r: Result<u32, WireError>)
    requires
        *old(position) <= buffer@.len(),
    ensures
        *old(position) <= *final(position) <= buffer@.len(),
        match varint_decode(buffer@.skip(*old(position) as int)) {
            Ok((v, n)) => r == Ok::<u32, WireError>(v) && *final(position) == *old(position) + n,
            Err(e) => r == Err::<u32, WireError>(e) && *final(position) == *old(position),
        },
{
    match read_varint_groups(buffer, *position, 0) {
        Ok((value, end)) => {
            *position = end;
            Ok(value)
        },
        Err(e) => Err(e),
    }
}

// ---------------------------------------------------------------------------
// Big-endian fixed-width integers
// ---------------------------------------------------------------------------

/// The two-byte big-endian encoding of `v`.
pub open spec fn u16_be(v: u16) -> Seq<u8> {
    seq![(v >> 8) as u8, v as u8]
}

/// Decoding a big-endian `u16` from the head of `s`.
pub open spec fn u16_decode(s: Seq<u8>) -> Result<(u16, int), WireError> {
    if s.len() < 2 {
        Err(WireError::FramingError)
    } else {
        Ok(((((s[0] as u16) << 8) | (s[1] as u16)) as u16, 2))
    }
}

/// Round trip: a big-endian `u16` decodes to itself.
pub proof fn lemma_u16_roundtrip(v: u16, rest: Seq<u8>)
    ensures
        u16_decode(u16_be(v) + rest) == Ok::<(u16, int), WireError>((v, 2)),
{
    let s = u16_be(v) + rest;
    assert(s[0] == (v >> 8) as u8 && s[1] == v as u8);
    assert(((((v >> 8) as u8) as u16) << 8) | ((v as u8) as u16) == v) by (bit_vector);
}

/// The eight-byte big-endian encoding of `v`.
pub open spec fn u64_be(v: u64) -> Seq<u8> {
    seq![
        (v >> 56) as u8,
        (v >> 48) as u8,
        (v >> 40) as u8,
        (v >> 32) as u8,
        (v >> 24) as u8,
        (v >> 16) as u8,
        (v >> 8) as u8,
        v as u8,
    ]
}

/// Decoding a big-endian `u64` from the head of `s`.
pub open spec fn u64_decode(s: Seq<u8>) -> Result<(u64, int), WireError> {
    if s.len() < 8 {
        Err(WireError::FramingError)
    } else {
        Ok(
            ((((s[0] as u64) << 56) | ((s[1] as u64) << 48) | ((s[2] as u64) << 40) | ((
            s[3] as u64) << 32) | ((s[4] as u64) << 24) | ((s[5] as u64) << 16) | ((s[6] as u64)
                << 8) | (s[7] as u64)) as u64, 8),
        )
    }
}

/// Round trip: a big-endian `u64` decodes to itself.
pub proof fn lemma_u64_roundtrip(v: u64, rest: Seq<u8>)
    ensures
        u64_decode(u64_be(v) + rest) == Ok::<(u64, int), WireError>((v, 8)),
{
    let s = u64_be(v) + rest;
    assert(s[0] == (v >> 56) as u8 && s[1] == (v >> 48) as u8 && s[2] == (v >> 40) as u8 && s[3]
        == (v >> 32) as u8 && s[4] == (v >> 24) as u8 && s[5] == (v >> 16) as u8 && s[6] == (v
        >> 8) as u8 && s[7] == v as u8);
    assert((((v >> 56) as u8 as u64) << 56) | (((v >> 48) as u8 as u64) << 48) | (((v
        >> 40) as u8 as u64) << 40) | (((v >> 32) as u8 as u64) << 32) | (((v
        >> 24) as u8 as u64) << 24) | (((v >> 16) as u8 as u64) << 16) | (((v
        >> 8) as u8 as u64) << 8) | ((v as u8) as u64) == v) by (bit_vector);
}

/// Appends `value` to `buffer` in big-endian byte order.
pub fn write_ushort(buffer: &mut Vec<u8>, value: u16)
    ensures
        final(buffer)@ == old(buffer)@ + u16_be(value),
{
    buffer.push((value >> 8) as u8);
    buffer.push(#[verifier::truncate] (value as u8));
    proof {
        assert(buffer@ =~= old(buffer)@ + u16_be(value));
    }
}

/// Reads a big-endian `u16` from `buffer` at `*position`.
pub fn read_ushort(buffer: &Vec<u8>, position: &mut usize) -> (r: Result<u16, WireError>)
    requires
        *old(position) <= buffer@.len(),
    ensures
        *old(position) <= *final(position) <= buffer@.len(),
        match u16_decode(buffer@.skip(*old(position) as int)) {
            Ok((v, n)) => r == Ok::<u16, WireError>(v) && *final(position) == *old(position) + n,
            Err(e) => r == Err::<u16, WireError>(e) && *final(position) == *old(position),
        },
{
    if buffer.len() - *position < 2 {
        return Err(WireError::FramingError);
    }
    let b0 = buffer[*position];
    let b1 = buffer[*position + 1];
    let result = ((b0 as u16) << 8) | (b1 as u16);
    proof {
        let s = buffer@.skip(*old(position) as int);
        assert(s[0] == b0 && s[1] == b1);
    }
    *position = *position + 2;
    Ok(result)
}

/// Appends `payload` to `buffer` in big-endian byte order.
pub fn write_long(buffer: &mut Vec<u8>, payload: u64)
    ensures
        final(buffer)@ == old(buffer)@ + u64_be(payload),
{
    buffer.push((payload >> 56) as u8);
    buffer.push(#[verifier::truncate] ((payload >> 48) as u8));
    buffer.push(#[verifier::truncate] ((payload >> 40) as u8));
    buffer.push(#[verifier::truncate] ((payload >> 32) as u8));
    buffer.push(#[verifier::truncate] ((payload >> 24) as u8));
    buffer.push(#[verifier::truncate] ((payload >> 16) as u8));
    buffer.push(#[verifier::truncate] ((payload >> 8) as u8));
    buffer.push(#[verifier::truncate] (payload as u8));
    proof {
        assert(buffer@ =~= old(buffer)@ + u64_be(payload));
    }
}

/// Reads a big-endian `u64` from `buffer` at `*position`.
pub fn read_long(buffer: &[u8], position: &mut usize) -> (r: Result<u64, WireError>)
    requires
        *old(position) <= buffer@.len(),
    ensures
        *old(position) <= *final(position) <= buffer@.len(),
        match u64_decode(buffer@.skip(*old(position) as int)) {
            Ok((v, n)) => r == Ok::<u64, WireError>(v) && *final(position) == *old(position) + n,
            Err(e) => r == Err::<u64, WireError>(e) && *final(position) == *old(position),
        },
{
    if buffer.len() - *position < 8 {
        return Err(WireError::FramingError);
    }
    let p = *position;
    let result = ((buffer[p] as u64) << 56) | ((buffer[p + 1] as u64) << 48) | ((buffer[p
        + 2] as u64) << 40) | ((buffer[p + 3] as u64) << 32) | ((buffer[p + 4] as u64) << 24) | ((
    buffer[p + 5] as u64) << 16) | ((buffer[p + 6] as u64) << 8) | (buffer[p + 7] as u64);
    proof {
        let s = buffer@.skip(p as int);
        assert(s[0] == buffer@[p as int] && s[1] == buffer@[p + 1] && s[2] == buffer@[p + 2]
            && s[3] == buffer@[p + 3] && s[4] == buffer@[p + 4] && s[5] == buffer@[p + 5] && s[6]
            == buffer@[p + 6] && s[7] == buffer@[p + 7]);
    }
    *position = p + 8;
    Ok(result)
}

// ---------------------------------------------------------------------------
// Booleans, bytes and byte runs
// ---------------------------------------------------------------------------

/// The one-byte encoding of a boolean.
pub open spec fn bool_encoding(value: bool) -> Seq<u8> {
    seq![if value { 1u8 } else { 0u8 }]
}

/// Decoding a boolean from the head of `s`: any nonzero byte reads as true.
pub open spec fn bool_decode(s: Seq<u8>) -> Result<(bool, int), WireError> {
    if s.len() == 0 {
        Err(WireError::FramingError)
    } else {
        Ok((s[0] != 0, 1))
    }
}

/// Appends a boolean to `buffer` as a single byte.
pub fn write_bool(buffer: &mut Vec<u8>, value: bool)
    ensures
        final(buffer)@ == old(buffer)@ + bool_encoding(value),
{
    buffer.push(if value {
        1
    } else {
        0
    });
    proof {
        assert(buffer@ =~= old(buffer)@ + bool_encoding(value));
    }
}

/// Reads one byte from `buffer` at `*position` as a boolean.
pub fn read_bool(buffer: &Vec<u8>, position: &mut usize) -> (r: Result<bool, WireError>)
    requires
        *old(position) <= buffer@.len(),
    ensures
        *old(position) <= *final(position) <= buffer@.len(),
        match bool_decode(buffer@.skip(*old(position) as int)) {
            Ok((v, n)) => r == Ok::<bool, WireError>(v) && *final(position) == *old(position) + n,
            Err(e) => r == Err::<bool, WireError>(e) && *final(position) == *old(position),
        },
{
    if *position >= buffer.len() {
        return Err(WireError::FramingError);
    }
    let result = buffer[*position] != 0;
    proof {
        assert(buffer@.skip(*old(position) as int)[0] == buffer@[*old(position) as int]);
    }
    *position = *position + 1;
    Ok(result)
}

/// Decoding one raw byte from the head of `s`.
pub open spec fn byte_decode(s: Seq<u8>) -> Result<(u8, int), WireError> {
    if s.len() == 0 {
        Err(WireError::FramingError)
    } else {
        Ok((s[0], 1))
    }
}

/// Appends one raw byte to `buffer`.
pub fn write_byte(buffer: &mut Vec<u8>, value: u8)
    ensures
        final(buffer)@ == old(buffer)@ + seq![value],
{
    buffer.push(value);
    proof {
        assert(buffer@ =~= old(buffer)@ + seq![value]);
    }
}

/// Reads one raw byte from `buffer` at `*position`.
pub fn read_byte(buffer: &[u8], position: &mut usize) -> (r: Result<u8, WireError>)
    requires
        *old(position) <= buffer@.len(),
    ensures
        *old(position) <= *final(position) <= buffer@.len(),
        match byte_decode(buffer@.skip(*old(position) as int)) {
            Ok((v, n)) => r == Ok::<u8, WireError>(v) && *final(position) == *old(position) + n,
            Err(e) => r == Err::<u8, WireError>(e) && *final(position) == *old(position),
        },
{
    if *position >= buffer.len() {
        return Err(WireError::FramingError);
    }
    let byte = buffer[*position];
    proof {
        assert(buffer@.skip(*old(position) as int)[0] == buffer@[*old(position) as int]);
    }
    *position = *position + 1;
    Ok(byte)
}

/// Decoding a run of `data_length` raw bytes from the head of `s`.
pub open spec fn bytes_decode(s: Seq<u8>, data_length: int) -> Result<(Seq<u8>, int), WireError> {
    if s.len() < data_length {
        Err(WireError::FramingError)
    } else {
        Ok((s.take(data_length), data_length))
    }
}

/// Reads `data_length` raw bytes from `buffer` at `*position`, copying them
/// out of the input buffer.
pub fn read_bytes(buffer: &[u8], position: &mut usize, data_length: usize) -> (r: Result<
    Vec<u8>,
    WireError,
>)
    requires
        *old(position) <= buffer@.len(),
    ensures
        *old(position) <= *final(position) <= buffer@.len(),
        match bytes_decode(buffer@.skip(*old(position) as int), data_length as int) {
            Ok((v, n)) => (r matches Ok(d) && d@ == v && *final(position) == *old(position) + n),
            Err(e) => r == Err::<Vec<u8>, WireError>(e) && *final(position) == *old(position),
        },
{
    if data_length > buffer.len() - *position {
        return Err(WireError::FramingError);
    }
    let slice = slice_to_vec(&buffer[*position..*position + data_length]);
    proof {
        assert(buffer@.subrange(*old(position) as int, *old(position) + data_length)
            =~= buffer@.skip(*old(position) as int).take(data_length as int));
    }
    *position = *position + data_length;
    Ok(slice)
}

// ---------------------------------------------------------------------------
// Length-prefixed UTF-8 strings
// ---------------------------------------------------------------------------

/// The wire encoding of a string: a varint byte length followed by the UTF-8
/// bytes.
pub open spec fn string_encoding(s: Seq<char>) -> Seq<u8> {
    varint_encoding(encode_utf8(s).len() as u32) + encode_utf8(s)
}

/// Decoding a length-prefixed UTF-8 string from the head of `s`: fails with
/// the varint's error, with `FramingError` when fewer than the announced
/// bytes remain, and with `InvalidEncoding` when they are not valid UTF-8.
pub open spec fn string_decode(s: Seq<u8>) -> Result<(Seq<char>, int), WireError> {
    match varint_decode(s) {
        Err(e) => Err(e),
        Ok((length, n)) => if s.len() - n < length {
            Err(WireError::FramingError)
        } else {
            let bytes = s.subrange(n, n + length);
            if valid_utf8(bytes) {
                Ok((decode_utf8(bytes), n + length))
            } else {
                Err(WireError::InvalidEncoding)
            }
        },
    }
}

/// Relies on `alloc::string::String::from_utf8`: succeeds exactly on valid
/// UTF-8 input, and then returns the string those bytes encode.
#[verifier::external_body]
pub(crate) fn string_from_utf8(bytes: Vec<u8>) -> (r: Option<String>)
    ensures
        r is Some <==> valid_utf8(bytes@),
        r matches Some(s) ==> s@ == decode_utf8(bytes@),
{
    String::from_utf8(bytes).ok()
}

/// Appends the length-prefixed UTF-8 encoding of `val` to `buffer`.
pub fn write_string(buffer: &mut Vec<u8>, val: &str)
    requires
        encode_utf8(val@).len() <= u32::MAX,
    ensures
        final(buffer)@ == old(buffer)@ + string_encoding(val@),
{
    let length = val.len();
    write_varint(buffer, length as u32);
    buffer.extend_from_slice(val.as_bytes());
    proof {
        assert(buffer@ =~= old(buffer)@ + string_encoding(val@));
    }
}

/// Reads a length-prefixed UTF-8 string from `buffer` at `*position`.
pub fn read_string(buffer: &[u8], position: &mut usize) -> (r: Result<String, WireError>)
    requires
        *old(position) <= buffer@.len(),
    ensures
        *old(position) <= *final(position) <= buffer@.len(),
        match string_decode(buffer@.skip(*old(position) as int)) {
            Ok((cs, n)) => (r matches Ok(s) && s@ == cs && *final(position) == *old(position)
                + n),
            Err(e) => r == Err::<String, WireError>(e),
        },
{
    let ghost s0 = buffer@.skip(*old(position) as int);
    let mut pos: usize = *position;
    let length = match read_varint(buffer, &mut pos) {
        Ok(v) => v,
        Err(e) => {
            return Err(e);
        },
    };
    if (length as usize) > buffer.len() - pos {
        return Err(WireError::FramingError);
    }
    let ghost n = pos - *old(position);
    let string_bytes = slice_to_vec(&buffer[pos..pos + length as usize]);
    proof {
        assert(string_bytes@ =~= s0.subrange(n as int, n + length));
    }
    match string_from_utf8(string_bytes) {
        Some(s) => {
            *position = pos + length as usize;
            Ok(s)
        },
        None => Err(WireError::InvalidEncoding),
    }
}

// ---------------------------------------------------------------------------
// 128-bit identifiers
// ---------------------------------------------------------------------------

/// A 128-bit identifier, stored as its high and low 64 bits. On the wire it
/// is sixteen raw bytes, most significant first.
#[derive(Clone, Copy, PartialEq, Eq, Structural, Debug)]
pub struct UniqueId {
    pub hi: u64,
    pub lo: u64,
}

/// The sixteen-byte encoding of an identifier.
pub open spec fn uuid_encoding(u: UniqueId) -> Seq<u8> {
    u64_be(u.hi) + u64_be(u.lo)
}

/// Decoding a sixteen-byte identifier from the head of `s`.
pub open spec fn uuid_decode(s: Seq<u8>) -> Result<(UniqueId, int), WireError> {
    if s.len() < 16 {
        Err(WireError::FramingError)
    } else {
        match (u64_decode(s), u64_decode(s.skip(8))) {
            (Ok((hi, _)), Ok((lo, _))) => Ok((UniqueId { hi, lo }, 16)),
            _ => Err(WireError::FramingError),
        }
    }
}

/// Round trip: an encoded identifier decodes to itself.
pub proof fn lemma_uuid_roundtrip(u: UniqueId, rest: Seq<u8>)
    ensures
        uuid_decode(uuid_encoding(u) + rest) == Ok::<(UniqueId, int), WireError>((u, 16)),
{
    let s = uuid_encoding(u) + rest;
    assert(s =~= u64_be(u.hi) + (u64_be(u.lo) + rest));
    lemma_u64_roundtrip(u.hi, u64_be(u.lo) + rest);
    assert(s.skip(8) =~= u64_be(u.lo) + rest);
    lemma_u64_roundtrip(u.lo, rest);
}

/// Appends the sixteen raw bytes of `uuid` to `buffer`.
pub fn write_uuid(buffer: &mut Vec<u8>, uuid: &UniqueId)
    ensures
        final(buffer)@ == old(buffer)@ + uuid_encoding(*uuid),
{
    write_long(buffer, uuid.hi);
    write_long(buffer, uuid.lo);
    proof {
        assert(buffer@ =~= old(buffer)@ + uuid_encoding(*uuid));
    }
}

/// Reads a sixteen-byte identifier from `buffer` at `*position`.
pub fn read_uuid(buffer: &[u8], position: &mut usize) -> (r: Result<UniqueId, WireError>)
    requires
        *old(position) <= buffer@.len(),
    ensures
        *old(position) <= *final(position) <= buffer@.len(),
        match uuid_decode(buffer@.skip(*old(position) as int)) {
            Ok((v, n)) => r == Ok::<UniqueId, WireError>(v) && *final(position) == *old(position)
                + n,
            Err(e) => r == Err::<UniqueId, WireError>(e) && *final(position) == *old(position),
        },
{
    if buffer.len() - *position < 16 {
        return Err(WireError::FramingError);
    }
    let mut pos: usize = *position;
    let ghost s = buffer@.skip(*old(position) as int);
    let hi = match read_long(buffer, &mut pos) {
        Ok(v) => v,
        Err(e) => {
            return Err(e);
        },
    };
    proof {
        assert(buffer@.skip(pos as int) =~= s.skip(8));
    }
    let lo = match read_long(buffer, &mut pos) {
        Ok(v) => v,
        Err(e) => {
            return Err(e);
        },
    };
    *position = pos;
    Ok(UniqueId { hi, lo })
}

} // verus!
