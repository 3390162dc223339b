//! The arithmetic model: integers modulo the group order, little-endian
//! byte encodings, and lowercase hex rendering.

use vstd::prelude::*;

verus! {

/// The order of the Ristretto group (and of its scalar field):
/// `l = 2^252 + 27742317777372353535851937790883648493`.
pub open spec fn group_order() -> nat {
    vstd::arithmetic::power2::pow2(252) + 27742317777372353535851937790883648493
}

/// `(a * b) mod l`.
pub open spec fn mul_mod_l(a: nat, b: nat) -> nat {
    (a * b) % group_order()
}

/// `(a - b) mod l`, as a natural number in `[0, l)`.
pub open spec fn sub_mod_l(a: nat, b: nat) -> nat {
    (((a % group_order()) + group_order() - (b % group_order())) % (
    group_order() as int)) as nat
}

/// The integer a byte sequence denotes when read as little-endian.
pub open spec fn le_nat(bytes: Seq<u8>) -> nat
    decreases bytes.len(),
{
    if bytes.len() == 0 {
        0
    } else {
        (bytes[0] as nat) + 256 * le_nat(bytes.drop_first())
    }
}

/// The `n`-byte little-endian encoding of `v mod 2^(8n)`.
pub open spec fn nat_to_le_bytes(v: nat, n: nat) -> Seq<u8>
    decreases n,
{
    if n == 0 {
        Seq::empty()
    } else {
        seq![(v % 256) as u8] + nat_to_le_bytes(v / 256, (n - 1) as nat)
    }
}

/// The lowercase hex digit for a value below 16.
pub open spec fn hex_digit(v: nat) -> char {
    if v < 10 {
        ((48 + v) as u8) as char
    } else {
        ((87 + v) as u8) as char
    }
}

/// The lowercase hex rendering of a byte sequence, two digits per byte,
/// high nibble first.
pub open spec fn hex_of(bytes: Seq<u8>) -> Seq<char>
    decreases bytes.len(),
{
    if bytes.len() == 0 {
        Seq::empty()
    } else {
        seq![hex_digit((bytes[0] / 16) as nat), hex_digit((bytes[0] % 16) as nat)] + hex_of(
        bytes.drop_first())
    }
}

} // verus!
