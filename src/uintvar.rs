//! Variable-length unsigned integers: big-endian groups of seven bits, every
//! byte but the last with its top bit set.

use crate::error::DecodeError;
use vstd::prelude::*;

verus! {

/// The number that a run of groups spells, most significant group first;
/// the top bit of each byte is ignored.
pub open spec fn groups_value(s: Seq<u8>) -> nat
    decreases s.len(),
{
    if s.len() == 0 {
        0
    } else {
        groups_value(s.drop_last()) * 128 + (s.last() % 128) as nat
    }
}

/// Index of the first byte at or after `i` whose top bit is clear.
pub open spec fn uintvar_terminator(d: Seq<u8>, i: int) -> Option<int>
    decreases d.len() - i,
{
    if i < 0 || i >= d.len() {
        None
    } else if d[i] < 128 {
        Some(i)
    } else {
        uintvar_terminator(d, i + 1)
    }
}

/// The uintvar at the start of `d`: its value and the number of bytes it
/// takes, or `None` when `d` ends before a byte with the top bit clear.
pub open spec fn uintvar_decode(d: Seq<u8>) -> Option<(nat, nat)> {
    match uintvar_terminator(d, 0) {
        Some(t) => Some((groups_value(d.take(t + 1)), (t + 1) as nat)),
        None => None,
    }
}

/// A terminator found at or after `i` lies within `d`.
pub proof fn lemma_terminator_bound(d: Seq<u8>, i: int)
    requires
        0 <= i,
    ensures
        uintvar_terminator(d, i) matches Some(t) ==> i <= t < d.len(),
    decreases d.len() - i,
{
    if 0 <= i < d.len() && d[i] >= 128 {
        lemma_terminator_bound(d, i + 1);
    }
}

/// A decoded uintvar takes at least one byte and no more than there are.
pub proof fn lemma_uintvar_decode_bound(d: Seq<u8>)
    ensures
        uintvar_decode(d) matches Some((v, n)) ==> 1 <= n <= d.len(),
{
    lemma_terminator_bound(d, 0);
}

/// The groups above the last one, each with its top bit set.
pub open spec fn leading_groups(v: nat) -> Seq<u8>
    decreases v,
{
    if v == 0 {
        Seq::empty()
    } else {
        leading_groups(v / 128).push((v % 128 + 128) as u8)
    }
}

/// The canonical uintvar encoding of `v`: no leading zero groups, and
/// `[0x00]` for zero.
pub open spec fn uintvar_encoding(v: nat) -> Seq<u8> {
    leading_groups(v / 128).push((v % 128) as u8)
}

proof fn lemma_leading_groups(v: nat)
    ensures
        forall|i: int| 0 <= i < leading_groups(v).len() ==> #[trigger] leading_groups(v)[i] >= 128,
        groups_value(leading_groups(v)) == v,
        v < 128 ==> leading_groups(v).len() <= 1,
        leading_groups(v).len() <= v,
    decreases v,
{
    if v != 0 {
        lemma_leading_groups(v / 128);
        let s = leading_groups(v);
        assert(s.drop_last() == leading_groups(v / 128));
        assert(((v % 128 + 128) as u8) % 128 == v % 128);
    }
}

proof fn lemma_terminator_after_groups(g: Seq<u8>, last: u8, rest: Seq<u8>, i: int)
    requires
        forall|j: int| 0 <= j < g.len() ==> #[trigger] g[j] >= 128,
        last < 128,
        0 <= i <= g.len(),
    ensures
        uintvar_terminator(g.push(last) + rest, i) == Some(g.len() as int),
    decreases g.len() - i,
{
    let d = g.push(last) + rest;
    if i < g.len() {
        assert(d[i] == g[i]);
        lemma_terminator_after_groups(g, last, rest, i + 1);
    } else {
        assert(d[i] == last);
    }
}

/// Decoding the encoding of any value, followed by any bytes, gives the
/// value back and consumes exactly the encoding.
pub proof fn lemma_uintvar_round_trip(v: nat, rest: Seq<u8>)
    ensures
        uintvar_decode(uintvar_encoding(v) + rest) == Some((v, uintvar_encoding(v).len())),
{
    let g = leading_groups(v / 128);
    let e = uintvar_encoding(v);
    lemma_leading_groups(v / 128);
    lemma_terminator_after_groups(g, (v % 128) as u8, rest, 0);
    let d = e + rest;
    assert(d.take(g.len() as int + 1) == e);
    assert(e.drop_last() == g);
}

/// `encode(0) == [0x00]`, `encode(127) == [0x7F]`, `encode(128) == [0x81, 0x00]`.
pub proof fn lemma_uintvar_small_encodings()
    ensures
        uintvar_encoding(0) == seq![0x00u8],
        uintvar_encoding(127) == seq![0x7Fu8],
        uintvar_encoding(128) == seq![0x81u8, 0x00u8],
{
    assert(leading_groups(0) == Seq::<u8>::empty());
    assert(leading_groups(1) == leading_groups(0).push(129u8));
    assert(seq![0x00u8] == Seq::<u8>::empty().push(0u8));
    assert(seq![0x7Fu8] == Seq::<u8>::empty().push(127u8));
    assert(seq![0x81u8, 0x00u8] == Seq::<u8>::empty().push(0x81u8).push(0u8));
}

fn encode_leading_groups(v: u64) -> (r: Vec<u8>)
    ensures
        r@ == leading_groups(v as nat),
    decreases v,
{
    if v == 0 {
        Vec::new()
    } else {
        let mut r = encode_leading_groups(v / 128);
        r.push((v % 128 + 128) as u8);
        r
    }
}

/// Encodes `num` as a uintvar.
pub fn encode_uintvar(num: u64) -> (r: Vec<u8>)
    ensures
        r@ == uintvar_encoding(num as nat),
{
    let mut r = encode_leading_groups(num / 128);
    r.push((num % 128) as u8);
    r
}

/// Splits one byte of a uintvar into its continuation flag and its seven
/// value bits.
pub fn take_uintvar_byte(input: &[u8]) -> (r: Result<(&[u8], (bool, u8)), DecodeError>)
    ensures
        input@.len() == 0 ==> r == Err::<(&[u8], (bool, u8)), DecodeError>(DecodeError::TruncatedInput),
        input@.len() > 0 ==> (r matches Ok((rest, (carry, number))) && rest@ == input@.skip(1)
            && carry == (input@[0] >= 128) && number == input@[0] % 128),
{
    if input.len() == 0 {
        return Err(DecodeError::TruncatedInput);
    }
    let byte = input[0];
    let (_, rest) = input.split_at(1);
    proof {
        assert(byte & 0x7f == byte % 128) by (bit_vector);
    }
    Ok((rest, (byte > 0x7F, byte & 0x7F)))
}

/// Reads a uintvar from the front of `d`, returning the bytes after it and
/// its value. A value above `u64::MAX` is refused.
pub fn read_uintvar(d: &[u8]) -> (r: Result<(&[u8], u64), DecodeError>)
    ensures
        match uintvar_decode(d@) {
            None => r == Err::<(&[u8], u64), DecodeError>(DecodeError::TruncatedInput),
            Some((v, n)) => if v > u64::MAX {
                r == Err::<(&[u8], u64), DecodeError>(DecodeError::IntegerOverflow)
            } else {
                (r matches Ok((rest, value)) && value == v && rest@ == d@.skip(n as int))
            },
        },
{
    let mut i: usize = 0;
    let mut acc: u64 = 0;
    let mut overflow = false;
    loop
        invariant
            i <= d@.len(),
            forall|j: int| 0 <= j < i ==> #[trigger] d@[j] >= 128,
            uintvar_terminator(d@, 0) == uintvar_terminator(d@, i as int),
            overflow ==> groups_value(d@.take(i as int)) > u64::MAX,
            !overflow ==> acc == groups_value(d@.take(i as int)),
        decreases d@.len() - i,
    {
        if i >= d.len() {
            return Err(DecodeError::TruncatedInput);
        }
        let byte = d[i];
        proof {
            assert(byte & 0x7f == byte % 128) by (bit_vector);
            assert(d@.take(i + 1).drop_last() == d@.take(i as int));
            lemma_groups_value_grows(d@.take(i as int), byte);
            assert(d@.take(i as int).push(byte) == d@.take(i + 1));
        }
        if !overflow {
            if acc > (u64::MAX - 127) / 128 {
                overflow = true;
            } else {
                acc = acc * 128 + (byte & 0x7F) as u64;
            }
        }
        i = i + 1;
        if byte < 128 {
            if overflow {
                return Err(DecodeError::IntegerOverflow);
            }
            let (_, rest) = d.split_at(i);
            return Ok((rest, acc));
        }
    }
}

proof fn lemma_groups_value_grows(s: Seq<u8>, b: u8)
    ensures
        groups_value(s.push(b)) >= groups_value(s) * 128,
        groups_value(s.push(b)) == groups_value(s) * 128 + (b % 128) as nat,
{
    assert(s.push(b).drop_last() == s);
}

/// Reads a uintvar used as a length or a count.
pub fn uintvar(d: &[u8]) -> (r: Result<(&[u8], u64), DecodeError>)
    ensures
        match uintvar_decode(d@) {
            None => r == Err::<(&[u8], u64), DecodeError>(DecodeError::TruncatedInput),
            Some((v, n)) => if v > u64::MAX {
                r == Err::<(&[u8], u64), DecodeError>(DecodeError::IntegerOverflow)
            } else {
                (r matches Ok((rest, value)) && value == v && rest@ == d@.skip(n as int))
            },
        },
{
    read_uintvar(d)
}

} // verus!
