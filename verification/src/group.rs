//! The trusted boundary around the Ristretto group, the 512-bit hash, the
//! random source, and hex encoding.
//!
//! The Ristretto group is cyclic of prime order `l` and is generated by the
//! fixed basepoint, so every group element has a unique discrete logarithm
//! in `[0, l)` with respect to that basepoint.  The model used throughout
//! this crate is:
//!
//! - `scalar_val(s)` is the integer a `Scalar` represents.  The crate relies
//!   on the `Scalar` invariant that every publicly observable scalar is
//!   reduced, so `scalar_val` lies in `[0, l)` for every scalar this crate
//!   produces or receives.
//! - `point_val(p)` is the discrete logarithm of a `RistrettoPoint` with
//!   respect to the basepoint, an integer in `[0, l)`.
//!
//! Every function here is believed, not proved; each doc comment names the
//! outside function relied on and what its source or documentation promises.

use vstd::prelude::*;
use curve25519_dalek::ristretto::RistrettoPoint;
use curve25519_dalek::scalar::Scalar;
use rand_core::OsRng;
use rand_core::RngCore;
use sha2::Digest;
use sha2::Sha512;
use crate::math::group_order;
use crate::math::hex_of;
use crate::math::le_nat;
use crate::math::nat_to_le_bytes;

verus! {

#[verifier::external_type_specification]
#[verifier::external_body]
pub struct ExScalar(Scalar);

#[verifier::external_type_specification]
#[verifier::external_body]
pub struct ExRistrettoPoint(RistrettoPoint);

/// The integer in `[0, l)` that a reduced `Scalar` represents.
pub uninterp spec fn scalar_val(s: Scalar) -> nat;

/// The discrete logarithm of a point with respect to the Ristretto
/// basepoint, an integer in `[0, l)`.
pub uninterp spec fn point_val(p: RistrettoPoint) -> nat;

/// The canonical 32-byte Ristretto encoding of the group element whose
/// discrete logarithm is `v`; equal points always compress identically.
pub uninterp spec fn point_encoding(v: nat) -> Seq<u8>;

/// The 64-byte SHA-512 digest of a byte sequence.
pub uninterp spec fn sha512_of(input: Seq<u8>) -> Seq<u8>;

/// Relies on `curve25519_dalek::constants::RISTRETTO_BASEPOINT_POINT`: the
/// generator of the group, so its discrete logarithm is 1.
#[verifier::external_body]
pub(crate) fn basepoint() -> (r: RistrettoPoint)
    ensures
        point_val(r) == 1,
{
    curve25519_dalek::constants::RISTRETTO_BASEPOINT_POINT
}

/// Relies on `Mul<RistrettoPoint> for Scalar`: scalar multiplication in the
/// group, which multiplies discrete logarithms modulo the group order.
#[verifier::external_body]
pub(crate) fn point_mul(s: &Scalar, p: &RistrettoPoint) -> (r: RistrettoPoint)
    ensures
        point_val(r) == (scalar_val(*s) * point_val(*p)) % group_order(),
{
    s * p
}

/// Relies on `Add for RistrettoPoint`: the group operation, which adds
/// discrete logarithms modulo the group order.
#[verifier::external_body]
pub(crate) fn point_add(a: &RistrettoPoint, b: &RistrettoPoint) -> (r: RistrettoPoint)
    ensures
        point_val(r) == (point_val(*a) + point_val(*b)) % group_order(),
{
    a + b
}

/// Relies on `RistrettoPoint::compress`: the canonical 32-byte encoding,
/// a function of the group element alone.
#[verifier::external_body]
pub(crate) fn point_compress(p: &RistrettoPoint) -> (r: Vec<u8>)
    ensures
        r@ == point_encoding(point_val(*p)),
        r@.len() == 32,
{
    p.compress().to_bytes().to_vec()
}

/// Relies on `Sub for Scalar`: subtraction modulo the group order of
/// reduced scalars, with a reduced result.
#[verifier::external_body]
pub(crate) fn scalar_sub(a: &Scalar, b: &Scalar) -> (r: Scalar)
    ensures
        scalar_val(r) == crate::math::sub_mod_l(scalar_val(*a), scalar_val(*b)),
        scalar_val(r) < group_order(),
{
    a - b
}

/// Relies on `Mul for Scalar`: multiplication modulo the group order, with
/// a reduced result.
#[verifier::external_body]
pub(crate) fn scalar_mul(a: &Scalar, b: &Scalar) -> (r: Scalar)
    ensures
        scalar_val(r) == (scalar_val(*a) * scalar_val(*b)) % group_order(),
        scalar_val(r) < group_order(),
{
    a * b
}

/// Relies on `PartialEq for Scalar` together with the invariant that every
/// publicly observable scalar is reduced: scalars are equal exactly when
/// they represent the same integer.
#[verifier::external_body]
pub(crate) fn scalar_eq(a: &Scalar, b: &Scalar) -> (r: bool)
    ensures
        r <==> scalar_val(*a) == scalar_val(*b),
{
    a == b
}

/// Relies on `Scalar::from_bytes_mod_order_wide`: reduction of a 512-bit
/// little-endian integer modulo the group order.
#[verifier::external_body]
pub(crate) fn scalar_from_wide(input: &[u8]) -> (r: Scalar)
    requires
        input@.len() == 64,
    ensures
        scalar_val(r) == le_nat(input@) % group_order(),
        scalar_val(r) < group_order(),
{
    let arr: [u8; 64] = input.try_into().unwrap();
    Scalar::from_bytes_mod_order_wide(&arr)
}

/// Relies on `Scalar::to_bytes`: the canonical 32-byte little-endian
/// encoding of the reduced scalar.
#[verifier::external_body]
pub(crate) fn scalar_to_bytes_raw(s: &Scalar) -> (r: Vec<u8>)
    ensures
        r@ == nat_to_le_bytes(scalar_val(*s), 32),
        r@.len() == 32,
{
    s.to_bytes().to_vec()
}

/// Relies on `Sha512` from the `sha2` crate: the 64-byte SHA-512 digest,
/// a function of the input bytes alone.
#[verifier::external_body]
pub(crate) fn sha512_digest(input: &[u8]) -> (r: Vec<u8>)
    ensures
        r@ == sha512_of(input@),
        r@.len() == 64,
{
    Sha512::digest(input).to_vec()
}

/// Relies on `rand_core::OsRng::try_fill_bytes`: fills the buffer from the
/// operating system's secure random source, or reports failure.  Nothing is
/// stated about the bytes themselves beyond their count.
#[verifier::external_body]
pub(crate) fn os_random_wide() -> (r: Option<Vec<u8>>)
    ensures
        r matches Some(b) ==> b@.len() == 64,
{
    let mut buf = vec![0u8; 64];
    match OsRng.try_fill_bytes(&mut buf) {
        Ok(()) => Some(buf),
        Err(_) => None,
    }
}

/// Relies on `hex::encode`: two lowercase hex digits per input byte, in
/// input order, high nibble first.
#[verifier::external_body]
pub(crate) fn hex_encode(b: &[u8]) -> (r: String)
    ensures
        r@ == hex_of(b@),
{
    hex::encode(b)
}

} // verus!
