//! Canonical fixed-width encodings of scalars, and their hex display.

use vstd::prelude::*;
use curve25519_dalek::scalar::Scalar;
use crate::group::hex_encode;
use crate::group::scalar_from_wide;
use crate::group::scalar_to_bytes_raw;
use crate::group::scalar_val;
use crate::math::group_order;
use crate::math::hex_of;
use crate::math::le_nat;
use crate::math::nat_to_le_bytes;

verus! {

/// The canonical 32-byte little-endian encoding of a scalar.
pub fn scalar_to_bytes(s: &Scalar) -> (r: Vec<u8>)
    ensures
        r@ == nat_to_le_bytes(scalar_val(*s), 32),
        r@.len() == 32,
{
    scalar_to_bytes_raw(s)
}

/// Builds a scalar by wide reduction of a 64-byte little-endian integer
/// modulo the group order; rejects any other length.
pub fn scalar_from_bytes_wide(bytes: &Vec<u8>) -> (r: Option<Scalar>)
    ensures
        r is Some <==> bytes@.len() == 64,
        r matches Some(s) ==> {
            &&& scalar_val(s) == le_nat(bytes@) % group_order()
            &&& scalar_val(s) < group_order()
        },
{
    if bytes.len() == 64 {
        Some(scalar_from_wide(bytes.as_slice()))
    } else {
        None
    }
}

/// The lowercase hex display of a scalar's canonical 32-byte encoding.
pub fn to_hex(scalar: &Scalar) -> (r: String)
    ensures
        r@ == hex_of(nat_to_le_bytes(scalar_val(*scalar), 32)),
{
    let b = scalar_to_bytes_raw(scalar);
    hex_encode(b.as_slice())
}

} // verus!
