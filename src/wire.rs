//! Protobuf base-128 varints and field keys, as mathematical objects.

use vstd::prelude::*;

verus! {

/// The value and byte length of the varint at the start of `s`, where `d` bytes of
/// the same varint came before. A varint ends at its first byte below 128, has at
/// most ten bytes, and its tenth byte (the bits above 63) is 0 or 1.
pub open spec fn varint_from(s: Seq<u8>, d: nat) -> Option<(nat, nat)>
    decreases s.len(),
{
    if s.len() == 0 || d >= 10 {
        None
    } else if s[0] < 128 {
        if d == 9 && s[0] >= 2 {
            None
        } else {
            Some((s[0] as nat, 1))
        }
    } else {
        match varint_from(s.drop_first(), d + 1) {
            Some((v, n)) => Some(((s[0] - 128) as nat + 128 * v, n + 1)),
            None => None,
        }
    }
}

/// The value and byte length of the varint at the start of `s`.
pub open spec fn varint(s: Seq<u8>) -> Option<(nat, nat)> {
    varint_from(s, 0)
}

/// The shortest varint encoding of `v`.
pub open spec fn varint_bytes(v: nat) -> Seq<u8>
    decreases v,
{
    if v < 128 {
        seq![v as u8]
    } else {
        seq![(v % 128 + 128) as u8] + varint_bytes(v / 128)
    }
}

/// The largest value, plus one, that the varint bytes from position `d` on can carry.
pub open spec fn varint_bound(d: nat) -> nat
    decreases 9 - d,
{
    if d >= 9 {
        2
    } else {
        128 * varint_bound(d + 1)
    }
}

/// Field keys: the tag, the wire type and the byte length of the key at the start
/// of `s`. A key is a varint that fits in 32 bits, whose low three bits name one of
/// the six wire types and whose tag (the rest) is at least 1.
pub open spec fn field_key(s: Seq<u8>) -> Option<(u32, u8, nat)> {
    match varint(s) {
        Some((k, n)) => if k > u32::MAX || k % 8 > 5 || k / 8 < 1 {
            None
        } else {
            Some(((k / 8) as u32, (k % 8) as u8, n))
        },
        None => None,
    }
}

/// The wire type of a length-delimited field.
pub const LENGTH_DELIMITED: u8 = 2;

/// The largest field tag.
pub const MAX_TAG: u32 = 536870911;

/// A varint is at least one byte long and lies within `s`.
pub proof fn lemma_varint_from_len(s: Seq<u8>, d: nat)
    ensures
        varint_from(s, d) matches Some((v, n)) ==> 1 <= n <= s.len(),
    decreases s.len(),
{
    if s.len() > 0 && d < 10 && s[0] >= 128 {
        lemma_varint_from_len(s.drop_first(), d + 1);
    }
}

/// A field key is at least one byte long and lies within `s`.
pub proof fn lemma_field_key_len(s: Seq<u8>)
    ensures
        field_key(s) matches Some((t, w, n)) ==> 1 <= n <= s.len(),
{
    lemma_varint_from_len(s, 0);
}

/// Reading the encoding of `v`, followed by anything, gives back `v` and the
/// encoding's length.
pub proof fn lemma_varint_round_trip(v: nat, rest: Seq<u8>, d: nat)
    requires
        d <= 9,
        v < varint_bound(d),
    ensures
        varint_from(varint_bytes(v) + rest, d) == Some((v, varint_bytes(v).len())),
    decreases v,
{
    let s = varint_bytes(v) + rest;
    if v < 128 {
        assert(s[0] == v as u8);
        if d == 9 {
            assert(varint_bound(9) == 2);
        }
    } else {
        if d == 9 {
            assert(varint_bound(9) == 2);
        }
        assert(d < 9);
        assert(v < 128 * varint_bound(d + 1));
        assert(v / 128 < varint_bound(d + 1)) by (nonlinear_arith)
            requires
                v < 128 * varint_bound(d + 1),
        ;
        lemma_varint_round_trip(v / 128, rest, d + 1);
        assert(s.drop_first() =~= varint_bytes(v / 128) + rest);
        assert(s[0] == (v % 128 + 128) as u8);
        assert(v == v % 128 + 128 * (v / 128)) by (nonlinear_arith);
    }
}

/// Every 64-bit value is within the range of a varint.
pub proof fn lemma_varint_bound_u64(v: u64)
    ensures
        (v as nat) < varint_bound(0),
{
    reveal_with_fuel(varint_bound, 10);
    assert(varint_bound(0) == 0x1_0000_0000_0000_0000nat);
}

} // verus!
