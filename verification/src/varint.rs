//! Base-128 variable-length integers, as protobuf writes them.
//!
//! The bytes are produced and consumed by `prost`; this module states what
//! they are and proves that reading undoes writing.

use vstd::prelude::*;
use vstd::slice::slice_subrange;

verus! {

/// The bytes of `value`: seven bits per byte, least significant group first,
/// the high bit set on every byte but the last.
pub open spec fn varint_bytes(value: nat) -> Seq<u8>
    decreases value,
{
    if value < 128 {
        seq![value as u8]
    } else {
        seq![(value % 128 + 128) as u8] + varint_bytes(value / 128)
    }
}

/// What a reader that has already consumed `depth` bytes of a varint finds at
/// the head of `bytes`: the value of the remaining groups and how many bytes
/// they take. `None` where the bytes end before the varint does, where it
/// runs past ten bytes, or where its tenth byte carries more than the one bit
/// that is left of 64.
pub open spec fn parse_varint_from(bytes: Seq<u8>, depth: nat) -> Option<(nat, nat)>
    decreases bytes.len(),
{
    if bytes.len() == 0 || depth >= 10 {
        None
    } else if bytes[0] < 128 {
        if depth == 9 && bytes[0] >= 2 {
            None
        } else {
            Some((bytes[0] as nat, 1nat))
        }
    } else {
        match parse_varint_from(bytes.skip(1), depth + 1) {
            Some((rest, len)) => Some(((bytes[0] - 128) as nat + 128 * rest, len + 1)),
            None => None,
        }
    }
}

/// The varint at the head of `bytes`: its value and its length.
pub open spec fn parse_varint(bytes: Seq<u8>) -> Option<(nat, nat)> {
    parse_varint_from(bytes, 0)
}

/// The least value that no longer fits once `depth` bytes have been read.
pub open spec fn varint_limit(depth: nat) -> nat
    decreases 9 - depth,
{
    if depth >= 9 {
        2
    } else {
        128 * varint_limit(depth + 1)
    }
}

/// At depths below nine a whole byte still fits.
pub proof fn lemma_varint_limit_lower(depth: nat)
    ensures
        varint_limit(depth) >= 2,
        depth < 9 ==> varint_limit(depth) >= 256,
    decreases 9 - depth,
{
    if depth < 9 {
        lemma_varint_limit_lower(depth + 1);
    }
}

/// A varint takes between one and ten bytes, and its value fits in 64 bits.
pub proof fn lemma_parse_varint_bounds(bytes: Seq<u8>, depth: nat)
    requires
        depth <= 9,
    ensures
        parse_varint_from(bytes, depth) matches Some((value, len)) ==> {
            &&& 1 <= len <= 10 - depth
            &&& len <= bytes.len()
            &&& value < varint_limit(depth)
        },
    decreases bytes.len(),
{
    reveal_with_fuel(varint_limit, 2);
    lemma_varint_limit_lower(depth);
    if bytes.len() > 0 && bytes[0] >= 128 {
        if depth < 9 {
            lemma_parse_varint_bounds(bytes.skip(1), depth + 1);
        } else {
            assert(parse_varint_from(bytes.skip(1), depth + 1) is None);
        }
    }
}

/// The limit before any byte is read is two to the power 64.
pub proof fn lemma_varint_limit_zero()
    ensures
        varint_limit(0) == 0x1_0000_0000_0000_0000,
{
    reveal_with_fuel(varint_limit, 11);
}

/// Writing a value takes at most the bytes that are left to a reader at
/// `depth`, and reading them back gives the value and their number, whatever
/// follows them.
pub proof fn lemma_varint_round_trip_from(value: nat, rest: Seq<u8>, depth: nat)
    requires
        depth <= 9,
        value < varint_limit(depth),
    ensures
        1 <= varint_bytes(value).len() <= 10 - depth,
        parse_varint_from(varint_bytes(value) + rest, depth) == Some(
            (value, varint_bytes(value).len()),
        ),
    decreases value,
{
    reveal_with_fuel(varint_limit, 2);
    let written = varint_bytes(value);
    if value < 128 {
        assert((written + rest)[0] == value as u8);
    } else {
        let tail = varint_bytes(value / 128);
        lemma_varint_round_trip_from(value / 128, rest, depth + 1);
        assert((written + rest)[0] == (value % 128 + 128) as u8);
        assert((written + rest).skip(1) =~= tail + rest);
    }
}

/// Reading undoes writing: after the bytes of a 64-bit value, whatever
/// follows, the reader finds that value and consumes exactly those bytes.
pub proof fn lemma_varint_round_trip(value: u64, rest: Seq<u8>)
    ensures
        1 <= varint_bytes(value as nat).len() <= 10,
        parse_varint(varint_bytes(value as nat) + rest) == Some(
            (value as nat, varint_bytes(value as nat).len()),
        ),
{
    lemma_varint_limit_zero();
    lemma_varint_round_trip_from(value as nat, rest, 0);
}

/// The error that `prost` reports for bytes that it cannot read.
#[verifier::external_type_specification]
#[verifier::external_body]
pub struct ExDecodeError(prost::DecodeError);

/// Calls `prost::encoding::encode_varint` on a growable buffer: the bytes of
/// `value` are appended and nothing before them changes.
#[verifier::external_body]
pub(crate) fn put_varint(value: u64, buf: &mut Vec<u8>)
    ensures
        final(buf)@ == old(buf)@ + varint_bytes(value as nat),
{
    prost::encoding::encode_varint(value, buf);
}

/// Calls `prost::encoding::decode_varint` on a byte slice. Where a varint
/// stands at the head of `bytes`, the result is its value and the number of
/// bytes that are left after it; otherwise it is the error of `prost`.
#[verifier::external_body]
pub(crate) fn take_varint(bytes: &[u8]) -> (r: Result<(u64, usize), prost::DecodeError>)
    ensures
        match parse_varint(bytes@) {
            Some((value, len)) => r matches Ok((v, left)) && v == value && left + len
                == bytes@.len(),
            None => r is Err,
        },
{
    let mut rest = bytes;
    let value = prost::encoding::decode_varint(&mut rest)?;
    Ok((value, rest.len()))
}

/// Appends the varint of `value` to `buf`.
pub fn write_varint(value: u64, buf: &mut Vec<u8>)
    ensures
        final(buf)@ == old(buf)@ + varint_bytes(value as nat),
        1 <= varint_bytes(value as nat).len() <= 10,
{
    proof {
        lemma_varint_round_trip(value, Seq::empty());
    }
    put_varint(value, buf);
}

/// Reads the varint that starts at `start`. Gives its value and the position
/// just after it, or `None` where no varint stands there.
pub fn read_varint(bytes: &[u8], start: usize) -> (r: Option<(u64, usize)>)
    requires
        start <= bytes@.len(),
    ensures
        match parse_varint(bytes@.skip(start as int)) {
            Some((value, len)) => r matches Some((v, next)) && v == value && next == start + len
                && start < next <= bytes@.len(),
            None => r is None,
        },
{
    let rest = slice_subrange(bytes, start, bytes.len());
    assert(rest@ =~= bytes@.skip(start as int));
    proof {
        lemma_parse_varint_bounds(rest@, 0);
        lemma_varint_limit_zero();
    }
    match take_varint(rest) {
        Ok((value, left)) => Some((value, bytes.len() - left)),
        Err(_) => None,
    }
}

} // verus!
