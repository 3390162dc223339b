//! Domain-separated hashing to a scalar: the Fiat-Shamir challenge
//! function of the scheme.

use vstd::prelude::*;
use curve25519_dalek::ristretto::RistrettoPoint;
use curve25519_dalek::scalar::Scalar;
use crate::group::point_compress;
use crate::group::point_encoding;
use crate::group::point_val;
use crate::group::scalar_from_wide;
use crate::group::scalar_val;
use crate::group::sha512_of;
use crate::math::group_order;
use crate::math::le_nat;

verus! {

/// The concatenation of a sequence of byte strings, in order.
pub open spec fn concat_all(parts: Seq<Seq<u8>>) -> Seq<u8>
    decreases parts.len(),
{
    if parts.len() == 0 {
        Seq::empty()
    } else {
        concat_all(parts.drop_last()) + parts.last()
    }
}

/// The byte contents of a sequence of byte slices.
pub open spec fn seqs_of(inputs: Seq<&[u8]>) -> Seq<Seq<u8>> {
    Seq::new(inputs.len(), |i: int| inputs[i]@)
}

/// The scalar that hashing `domain` followed by each part yields: the
/// SHA-512 digest of the concatenation, read as a 512-bit little-endian
/// integer and reduced modulo the group order.  A function of its
/// arguments alone, so two identical calls yield identical scalars.
pub open spec fn hash_val(domain: Seq<u8>, parts: Seq<Seq<u8>>) -> nat {
    le_nat(sha512_of(domain + concat_all(parts))) % group_order()
}

/// The domain tag `"ringsig"` under which every challenge is hashed.
pub open spec fn domain_tag() -> Seq<u8> {
    seq![114u8, 105u8, 110u8, 103u8, 115u8, 105u8, 103u8]
}

/// The Fiat-Shamir challenge bound to a commitment point and a message.
pub open spec fn challenge_of(pv: nat, msg: Seq<u8>) -> nat {
    hash_val(domain_tag(), seq![point_encoding(pv), msg])
}

/// Determinism of hashing: any two scalars that `hash_with_domain`
/// returns for the identical domain and parts have the identical value.
pub proof fn lemma_hash_deterministic(domain: Seq<u8>, parts: Seq<Seq<u8>>, r1: Scalar, r2: Scalar)
    requires
        scalar_val(r1) == hash_val(domain, parts),
        scalar_val(r2) == hash_val(domain, parts),
    ensures
        scalar_val(r1) == scalar_val(r2),
{
}

/// Appending one more part extends the concatenation at its end.
proof fn lemma_concat_all_push(parts: Seq<Seq<u8>>, part: Seq<u8>)
    ensures
        concat_all(parts.push(part)) == concat_all(parts) + part,
{
    assert(parts.push(part).drop_last() =~= parts);
}

/// Appends every byte of `s` to `out`.
fn append_bytes(out: &mut Vec<u8>, s: &[u8])
    ensures
        final(out)@ == old(out)@ + s@,
{
    let mut i: usize = 0;
    while i < s.len()
        invariant
            i <= s@.len(),
            out@ == old(out)@ + s@.subrange(0, i as int),
        decreases s@.len() - i,
    {
        let b = *vstd::slice::slice_index_get(s, i);
        out.push(b);
        proof {
            assert(old(out)@ + s@.subrange(0, i + 1) =~= (old(out)@ + s@.subrange(0, i as int)).push(
            s@[i as int]));
        }
        i = i + 1;
    }
    proof {
        assert(s@.subrange(0, s@.len() as int) =~= s@);
    }
}

/// Hashes `domain` followed by each element of `inputs`, in order, into a
/// scalar by wide reduction of the 512-bit digest.  Deterministic:
/// identical arguments always yield the identical scalar value.
pub fn hash_with_domain(domain: &[u8], inputs: &[&[u8]]) -> (r: Scalar)
    ensures
        scalar_val(r) == hash_val(domain@, seqs_of(inputs@)),
        scalar_val(r) < group_order(),
{
    let ghost all_parts = seqs_of(inputs@);
    let mut data: Vec<u8> = Vec::new();
    append_bytes(&mut data, domain);
    let mut i: usize = 0;
    while i < inputs.len()
        invariant
            i <= inputs@.len(),
            all_parts == seqs_of(inputs@),
            all_parts.len() == inputs@.len(),
            data@ == domain@ + concat_all(all_parts.subrange(0, i as int)),
        decreases inputs@.len() - i,
    {
        let part: &[u8] = *vstd::slice::slice_index_get(inputs, i);
        append_bytes(&mut data, part);
        proof {
            let pre = all_parts.subrange(0, i as int);
            assert(all_parts.subrange(0, i + 1) =~= pre.push(inputs@[i as int]@));
            lemma_concat_all_push(pre, inputs@[i as int]@);
        }
        i = i + 1;
    }
    proof {
        assert(all_parts.subrange(0, all_parts.len() as int) =~= all_parts);
    }
    let digest = crate::group::sha512_digest(data.as_slice());
    scalar_from_wide(digest.as_slice())
}

/// The challenge scalar for a commitment point and a message: the point's
/// canonical encoding and the message hashed under the `"ringsig"` tag.
pub fn challenge_scalar(commitment: &RistrettoPoint, message: &[u8]) -> (r: Scalar)
    ensures
        scalar_val(r) == challenge_of(point_val(*commitment), message@),
        scalar_val(r) < group_order(),
{
    let mut dom: Vec<u8> = Vec::new();
    dom.push(114u8);
    dom.push(105u8);
    dom.push(110u8);
    dom.push(103u8);
    dom.push(115u8);
    dom.push(105u8);
    dom.push(103u8);
    proof {
        assert(dom@ =~= domain_tag());
    }
    let rb = point_compress(commitment);
    let mut parts: Vec<&[u8]> = Vec::new();
    parts.push(rb.as_slice());
    parts.push(message);
    let r = hash_with_domain(dom.as_slice(), parts.as_slice());
    proof {
        assert(seqs_of(parts@) =~= seq![point_encoding(point_val(*commitment)), message@]);
    }
    r
}

} // verus!
