//! The primitive value forms: short and long integers, value lengths, text
//! and quoted strings, encoded-string values and addresses.

use crate::error::{DecodeError, EncodeError};
use crate::uintvar::{encode_uintvar, read_uintvar, uintvar_decode, uintvar_encoding};
use vstd::prelude::*;
use vstd::utf8::{decode_utf8, encode_utf8, valid_utf8};

verus! {

/// `r` is what a decoder owes on input `d` when the model of the value at the
/// front of `d` is `m`: on `Ok((v, n))`, the value viewed as `v` and the bytes
/// after the first `n`; on `Err(e)`, that error.
pub open spec fn decodes_to<T: View>(
    d: Seq<u8>,
    r: Result<(&[u8], T), DecodeError>,
    m: Result<(T::V, nat), DecodeError>,
) -> bool {
    match m {
        Ok((v, n)) => n <= d.len() && (r matches Ok((rest, x)) && rest@ == d.skip(n as int) && x@ == v),
        Err(e) => r matches Err(f) && f == e,
    }
}

/// Index of the first zero byte at or after `i`.
pub open spec fn first_zero(d: Seq<u8>, i: int) -> Option<int>
    decreases d.len() - i,
{
    if i < 0 || i >= d.len() {
        None
    } else if d[i] == 0 {
        Some(i)
    } else {
        first_zero(d, i + 1)
    }
}

/// A zero found at or after `i` lies within `d`, and is a zero.
pub proof fn lemma_first_zero_bound(d: Seq<u8>, i: int)
    requires
        0 <= i,
    ensures
        first_zero(d, i) matches Some(z) ==> i <= z < d.len() && d[z] == 0,
    decreases d.len() - i,
{
    if 0 <= i < d.len() && d[i] != 0 {
        lemma_first_zero_bound(d, i + 1);
    }
}

/// The content of a text string with its quote byte removed: a leading
/// 0x7F is dropped where the next byte has its top bit set.
pub open spec fn unescape_text(raw: Seq<u8>) -> Seq<u8> {
    if raw.len() >= 2 && raw[0] == 0x7F && raw[1] >= 128 {
        raw.skip(1)
    } else {
        raw
    }
}

/// A text string: bytes through a zero terminator. A first byte with the top
/// bit set must be preceded by the quote byte 0x7F.
pub open spec fn spec_text_string(d: Seq<u8>) -> Result<(Seq<char>, nat), DecodeError> {
    match first_zero(d, 0) {
        None => Err(DecodeError::TruncatedInput),
        Some(z) => {
            let raw = d.take(z);
            if raw.len() > 0 && raw[0] >= 128 {
                Err(DecodeError::InvalidLeadByte)
            } else if !valid_utf8(unescape_text(raw)) {
                Err(DecodeError::Utf8DecodeError)
            } else {
                Ok((decode_utf8(unescape_text(raw)), (z + 1) as nat))
            }
        },
    }
}

/// A quoted string: a `"` byte, then bytes through a zero terminator.
pub open spec fn spec_quoted_string(d: Seq<u8>) -> Result<(Seq<char>, nat), DecodeError> {
    if d.len() == 0 {
        Err(DecodeError::TruncatedInput)
    } else if d[0] != 0x22 {
        Err(DecodeError::InvalidLeadByte)
    } else {
        match first_zero(d, 1) {
            None => Err(DecodeError::TruncatedInput),
            Some(z) => if !valid_utf8(d.subrange(1, z)) {
                Err(DecodeError::Utf8DecodeError)
            } else {
                Ok((decode_utf8(d.subrange(1, z)), (z + 1) as nat))
            },
        }
    }
}

/// A short integer: one byte with the top bit set, whose low seven bits are
/// the value.
pub open spec fn spec_short_integer(d: Seq<u8>) -> Result<(u8, nat), DecodeError> {
    if d.len() == 0 {
        Err(DecodeError::TruncatedInput)
    } else if d[0] < 128 {
        Err(DecodeError::InvalidLeadByte)
    } else {
        Ok(((d[0] - 128) as u8, 1))
    }
}

/// The unsigned big-endian number that `s` spells.
pub open spec fn be_value(s: Seq<u8>) -> nat
    decreases s.len(),
{
    if s.len() == 0 {
        0
    } else {
        be_value(s.drop_last()) * 256 + s.last() as nat
    }
}

/// A long integer: a length byte of at most 30, then that many big-endian
/// bytes.
pub open spec fn spec_long_integer(d: Seq<u8>) -> Result<(u64, nat), DecodeError> {
    if d.len() == 0 {
        Err(DecodeError::TruncatedInput)
    } else if d[0] > 30 {
        Err(DecodeError::InvalidLeadByte)
    } else if d.len() < 1 + d[0] {
        Err(DecodeError::TruncatedInput)
    } else if be_value(d.subrange(1, 1 + d[0])) > u64::MAX {
        Err(DecodeError::IntegerOverflow)
    } else {
        Ok((be_value(d.subrange(1, 1 + d[0])) as u64, (1 + d[0]) as nat))
    }
}

/// An integer value: a short integer, else a long integer.
pub open spec fn spec_integer_value(d: Seq<u8>) -> Result<(u64, nat), DecodeError> {
    if d.len() > 0 && d[0] >= 128 {
        Ok(((d[0] - 128) as u64, 1))
    } else {
        spec_long_integer(d)
    }
}

/// A value length: 0 to 30 in one byte, or 31 followed by a uintvar.
pub open spec fn spec_value_length(d: Seq<u8>) -> Result<(u64, nat), DecodeError> {
    if d.len() == 0 {
        Err(DecodeError::TruncatedInput)
    } else if d[0] <= 30 {
        Ok((d[0] as u64, 1))
    } else if d[0] == 31 {
        match uintvar_decode(d.skip(1)) {
            None => Err(DecodeError::TruncatedInput),
            Some((v, n)) => if v > u64::MAX {
                Err(DecodeError::IntegerOverflow)
            } else {
                Ok((v as u64, n + 1))
            },
        }
    } else {
        Err(DecodeError::ReservedLengthByte)
    }
}

/// A value length and the bytes it counts: those bytes, and how many bytes
/// the whole takes.
pub open spec fn spec_length_prefixed(d: Seq<u8>) -> Result<(Seq<u8>, nat), DecodeError> {
    match spec_value_length(d) {
        Err(e) => Err(e),
        Ok((len, n)) => if n + len > d.len() {
            Err(DecodeError::TruncatedInput)
        } else {
            Ok((d.subrange(n as int, n + len), (n + len) as nat))
        },
    }
}

/// An encoded-string value: a text string, or failing that a value length
/// over a one-byte charset id and a text string.
pub open spec fn spec_encoded_string(d: Seq<u8>) -> Result<(Seq<char>, nat), DecodeError> {
    match spec_text_string(d) {
        Ok(x) => Ok(x),
        Err(_) => match spec_length_prefixed(d) {
            Err(e) => Err(e),
            Ok((c, n)) => if c.len() == 0 {
                Err(DecodeError::TruncatedInput)
            } else {
                match spec_text_string(c.skip(1)) {
                    Err(e) => Err(e),
                    Ok((s, _)) => Ok((s, n)),
                }
            },
        },
    }
}

/// The wire form of a text string with content `c`.
pub open spec fn text_string_wire(c: Seq<u8>) -> Seq<u8> {
    if c.len() > 0 && c[0] >= 128 {
        seq![0x7Fu8] + c + seq![0u8]
    } else {
        c + seq![0u8]
    }
}

/// The wire form of a quoted string with content `c`.
pub open spec fn quoted_string_wire(c: Seq<u8>) -> Seq<u8> {
    seq![0x22u8] + c + seq![0u8]
}

/// The wire form of a value length.
pub open spec fn value_length_encoding(len: nat) -> Seq<u8> {
    if len <= 30 {
        seq![len as u8]
    } else {
        seq![31u8] + uintvar_encoding(len)
    }
}

/// The wire form of an address: a value length over the token 128 and a
/// text string.
pub open spec fn address_wire(c: Seq<u8>) -> Seq<u8> {
    value_length_encoding((1 + text_string_wire(c).len()) as nat) + (seq![128u8] + text_string_wire(c))
}

/// Decodes `i` as UTF-8.
///
/// Relies on `String::from_utf8`: it fails exactly on bytes that are not
/// UTF-8, and otherwise holds those bytes.
#[verifier::external_body]
pub fn u8_to_string(i: &[u8]) -> (r: Result<String, DecodeError>)
    ensures
        r is Ok <==> valid_utf8(i@),
        r is Ok ==> r->Ok_0@ == decode_utf8(i@),
        r is Err ==> r->Err_0 == DecodeError::Utf8DecodeError,
{
    match String::from_utf8(i.to_vec()) {
        Ok(s) => Ok(s),
        Err(_) => Err(DecodeError::Utf8DecodeError),
    }
}

/// The UTF-8 bytes of `s`.
pub fn string_bytes(s: &String) -> (r: Vec<u8>)
    ensures
        r@ == encode_utf8(s@),
{
    let b = s.as_str().as_bytes();
    let mut r: Vec<u8> = Vec::new();
    extend_bytes(&mut r, b);
    r
}

/// Appends the bytes of `src` to `buf`.
pub fn extend_bytes(buf: &mut Vec<u8>, src: &[u8])
    ensures
        final(buf)@ == old(buf)@ + src@,
{
    let mut i: usize = 0;
    while i < src.len()
        invariant
            i <= src@.len(),
            buf@ == old(buf)@ + src@.take(i as int),
        decreases src@.len() - i,
    {
        buf.push(src[i]);
        i = i + 1;
        proof {
            assert(src@.take(i as int) == src@.take(i - 1).push(src@[i - 1]));
        }
    }
    proof {
        assert(src@.take(i as int) == src@);
    }
}

fn find_zero(d: &[u8], start: usize) -> (r: Option<usize>)
    requires
        start <= d@.len(),
    ensures
        first_zero(d@, start as int) == (match r {
            Some(z) => Some(z as int),
            None => None::<int>,
        }),
        r matches Some(z) ==> start <= z < d@.len() && d@[z as int] == 0,
{
    let mut i = start;
    while i < d.len()
        invariant
            start <= i <= d@.len(),
            first_zero(d@, start as int) == first_zero(d@, i as int),
        decreases d@.len() - i,
    {
        if d[i] == 0 {
            return Some(i);
        }
        i = i + 1;
    }
    None
}

/// Splits off a text string with its terminator, as raw bytes.
pub fn take_text_string(d: &[u8]) -> (r: Result<(&[u8], &[u8]), DecodeError>)
    ensures
        match first_zero(d@, 0) {
            None => r == Err::<(&[u8], &[u8]), DecodeError>(DecodeError::TruncatedInput),
            Some(z) => (r matches Ok((rest, val)) && val@ == d@.take(z + 1) && rest@ == d@.skip(z + 1)),
        },
{
    match find_zero(d, 0) {
        None => Err(DecodeError::TruncatedInput),
        Some(z) => {
            assert(z < d.len());
            let (val, rest) = d.split_at(z + 1);
            Ok((rest, val))
        },
    }
}

/// Reads a text string.
pub fn parse_text_string(d: &[u8]) -> (r: Result<(&[u8], String), DecodeError>)
    ensures
        decodes_to(d@, r, spec_text_string(d@)),
{
    let z = match find_zero(d, 0) {
        None => return Err(DecodeError::TruncatedInput),
        Some(z) => z,
    };
    proof {
        if z > 0 {
            assert(d@.take(z as int)[0] == d@[0]);
        }
    }
    if z > 0 && d[0] >= 128 {
        return Err(DecodeError::InvalidLeadByte);
    }
    let start: usize = if z >= 2 && d[0] == 0x7F && d[1] >= 128 {
        1
    } else {
        0
    };
    let raw = vstd::slice::slice_subrange(d, start, z);
    proof {
        assert(raw@ == unescape_text(d@.take(z as int)));
    }
    let s = u8_to_string(raw)?;
    let (_, rest) = d.split_at(z + 1);
    Ok((rest, s))
}

/// Reads a quoted string.
pub fn parse_quoted_string(d: &[u8]) -> (r: Result<(&[u8], String), DecodeError>)
    ensures
        decodes_to(d@, r, spec_quoted_string(d@)),
{
    if d.len() == 0 {
        return Err(DecodeError::TruncatedInput);
    }
    if d[0] != 0x22 {
        return Err(DecodeError::InvalidLeadByte);
    }
    let z = match find_zero(d, 1) {
        None => return Err(DecodeError::TruncatedInput),
        Some(z) => z,
    };
    let raw = vstd::slice::slice_subrange(d, 1, z);
    let s = u8_to_string(raw)?;
    let (_, rest) = d.split_at(z + 1);
    Ok((rest, s))
}

/// Reads a short integer.
pub fn parse_short_integer(d: &[u8]) -> (r: Result<(&[u8], u8), DecodeError>)
    ensures
        decodes_to(d@, r, spec_short_integer(d@)),
{
    if d.len() == 0 {
        return Err(DecodeError::TruncatedInput);
    }
    let b = d[0];
    if b < 128 {
        return Err(DecodeError::InvalidLeadByte);
    }
    let (_, rest) = d.split_at(1);
    Ok((rest, b - 128))
}

/// Reads a long integer.
pub fn parse_long_integer(d: &[u8]) -> (r: Result<(&[u8], u64), DecodeError>)
    ensures
        decodes_to(d@, r, spec_long_integer(d@)),
{
    if d.len() == 0 {
        return Err(DecodeError::TruncatedInput);
    }
    let len = d[0] as usize;
    if len > 30 {
        return Err(DecodeError::InvalidLeadByte);
    }
    if d.len() < 1 + len {
        return Err(DecodeError::TruncatedInput);
    }
    let bytes = vstd::slice::slice_subrange(d, 1, 1 + len);
    let mut total: u64 = 0;
    let mut overflow = false;
    let mut i: usize = 0;
    while i < len
        invariant
            i <= len,
            len == bytes@.len(),
            overflow ==> be_value(bytes@.take(i as int)) > u64::MAX,
            !overflow ==> total == be_value(bytes@.take(i as int)),
        decreases len - i,
    {
        proof {
            let s = bytes@.take(i as int);
            assert(bytes@.take(i + 1).drop_last() == s);
        }
        if !overflow {
            if total > (u64::MAX - 255) / 256 {
                overflow = true;
            } else {
                total = total * 256 + bytes[i] as u64;
            }
        }
        i = i + 1;
    }
    proof {
        assert(bytes@.take(len as int) == bytes@);
    }
    if overflow {
        return Err(DecodeError::IntegerOverflow);
    }
    let (_, rest) = d.split_at(1 + len);
    Ok((rest, total))
}

/// Reads an integer value: a short integer or a long integer.
pub fn parse_integer_value(d: &[u8]) -> (r: Result<(&[u8], u64), DecodeError>)
    ensures
        decodes_to(d@, r, spec_integer_value(d@)),
{
    if d.len() > 0 && d[0] >= 128 {
        let (_, rest) = d.split_at(1);
        Ok((rest, (d[0] - 128) as u64))
    } else {
        parse_long_integer(d)
    }
}

/// Reads a value length.
pub fn parse_value_length(data: &[u8]) -> (r: Result<(&[u8], u64), DecodeError>)
    ensures
        decodes_to(data@, r, spec_value_length(data@)),
{
    if data.len() == 0 {
        return Err(DecodeError::TruncatedInput);
    }
    let l = data[0];
    let (_, rest) = data.split_at(1);
    if l <= 30 {
        Ok((rest, l as u64))
    } else if l == 31 {
        proof {
            assert(rest@ == data@.skip(1));
        }
        let (after, v) = read_uintvar(rest)?;
        proof {
            crate::uintvar::lemma_uintvar_decode_bound(data@.skip(1));
            let (_, n) = uintvar_decode(data@.skip(1))->Some_0;
            assert(data@.skip(1).skip(n as int) == data@.skip(n as int + 1));
        }
        Ok((after, v))
    } else {
        Err(DecodeError::ReservedLengthByte)
    }
}

/// Reads a value length and splits off the bytes it counts.
pub fn take_length_prefixed(d: &[u8]) -> (r: Result<(&[u8], &[u8]), DecodeError>)
    ensures
        decodes_to(d@, r, spec_length_prefixed(d@)),
{
    let (after, len) = parse_value_length(d)?;
    if len > after.len() as u64 {
        return Err(DecodeError::TruncatedInput);
    }
    let (value, rest) = after.split_at(len as usize);
    proof {
        let n = (spec_value_length(d@)->Ok_0).1;
        assert(value@ == d@.subrange(n as int, n + len));
        assert(rest@ == d@.skip(n + len));
    }
    Ok((rest, value))
}

/// Reads an encoded-string value: a text string, or a value length over a
/// charset id and a text string.
pub fn parse_encoded_string_value(d: &[u8]) -> (r: Result<(&[u8], String), DecodeError>)
    ensures
        decodes_to(d@, r, spec_encoded_string(d@)),
{
    match parse_text_string(d) {
        Ok(x) => Ok(x),
        Err(_) => {
            let (rest, value) = take_length_prefixed(d)?;
            if value.len() == 0 {
                return Err(DecodeError::TruncatedInput);
            }
            let (_, text) = value.split_at(1);
            let (_, s) = parse_text_string(text)?;
            Ok((rest, s))
        },
    }
}

/// Encodes `v` as a text string, quoting a first byte with the top bit set.
pub fn encode_string(v: String) -> (r: Vec<u8>)
    ensures
        r@ == text_string_wire(encode_utf8(v@)),
{
    let bytes = string_bytes(&v);
    let mut r: Vec<u8> = Vec::new();
    if bytes.len() > 0 && bytes[0] >= 128 {
        r.push(0x7F);
    }
    extend_bytes(&mut r, bytes.as_slice());
    r.push(0);
    proof {
        if bytes@.len() > 0 && bytes@[0] >= 128 {
            assert(r@ == seq![0x7Fu8] + bytes@ + seq![0u8]);
        } else {
            assert(r@ == bytes@ + seq![0u8]);
        }
    }
    r
}

/// Encodes `v` as a quoted string.
pub fn encode_quoted_string(v: String) -> (r: Vec<u8>)
    ensures
        r@ == quoted_string_wire(encode_utf8(v@)),
{
    let bytes = string_bytes(&v);
    let mut r: Vec<u8> = Vec::new();
    r.push(0x22);
    extend_bytes(&mut r, bytes.as_slice());
    r.push(0);
    proof {
        assert(r@ == seq![0x22u8] + bytes@ + seq![0u8]);
    }
    r
}

/// One raw byte.
pub fn encode_byte(b: u8) -> (r: Vec<u8>)
    ensures
        r@ == seq![b],
{
    vec![b]
}

/// The token of a yes/no field.
pub fn encode_bool(v: bool) -> (r: u8)
    ensures
        r == (if v { 128u8 } else { 129u8 }),
{
    if v {
        128
    } else {
        129
    }
}

/// Encodes `v` as a short integer; values above 0x7F do not fit.
pub fn encode_short_integer(v: u8) -> (r: Result<Vec<u8>, EncodeError>)
    ensures
        v <= 0x7F ==> (r matches Ok(b) && b@ == seq![(v + 128) as u8]),
        v > 0x7F ==> r == Err::<Vec<u8>, EncodeError>(EncodeError::TooLarge),
{
    if v > 0x7F {
        return Err(EncodeError::TooLarge);
    }
    Ok(vec![v + 128])
}

/// Encodes a value length.
pub fn encode_value_length(len: u64) -> (r: Vec<u8>)
    ensures
        r@ == value_length_encoding(len as nat),
{
    if len <= 30 {
        vec![len as u8]
    } else {
        let mut buf = vec![31u8];
        let mut n = encode_uintvar(len);
        buf.append(&mut n);
        proof {
            assert(buf@ == seq![31u8] + uintvar_encoding(len as nat));
        }
        buf
    }
}

/// Prefixes `v` with its value length.
pub fn value_length(v: Vec<u8>) -> (r: Vec<u8>)
    ensures
        r@ == value_length_encoding(v@.len()) + v@,
{
    let mut v = v;
    let mut len_bytes = encode_value_length(v.len() as u64);
    len_bytes.append(&mut v);
    len_bytes
}

/// Encodes an address: a value length over the token 128 and a text string.
pub fn encode_address(v: String) -> (r: Vec<u8>)
    ensures
        r@ == address_wire(encode_utf8(v@)),
{
    let mut inner = encode_string(v);
    let mut outer = vec![128u8];
    outer.append(&mut inner);
    proof {
        assert(outer@ == seq![128u8] + text_string_wire(encode_utf8(v@)));
    }
    value_length(outer)
}

} // verus!
