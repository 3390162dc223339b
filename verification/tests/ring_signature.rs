//! End-to-end tests of the ring signature scheme.

use ringsig::encode::{scalar_from_bytes_wide, scalar_to_bytes, to_hex};
use ringsig::hashing::hash_with_domain;
use ringsig::ring::{keygen, public_key_of, ring_sign, ring_sign_with_randomness, ring_verify, RingSigError};

use curve25519_dalek::ristretto::RistrettoPoint;
use curve25519_dalek::scalar::Scalar;

/// A deterministic scalar whose 64-byte wide encoding starts with `seed`.
fn scalar_from_seed(seed: u8) -> Scalar {
    let mut bytes = vec![0u8; 64];
    bytes[0] = seed;
    bytes[1] = seed.wrapping_mul(3);
    scalar_from_bytes_wide(&bytes).unwrap()
}

fn honest_ring(n: usize) -> (Vec<Scalar>, Vec<RistrettoPoint>) {
    let mut secrets = Vec::new();
    let mut ring = Vec::new();
    for _ in 0..n {
        let (sk, pk) = keygen().unwrap();
        secrets.push(sk);
        ring.push(pk);
    }
    (secrets, ring)
}

#[test]
fn sign_then_verify_three_member_ring() {
    let (secrets, ring) = honest_ring(3);
    let message = b"Ring signatures are cool.";
    let (c0, responses) = ring_sign(message, &ring, &secrets[1], 1).unwrap();
    assert_eq!(responses.len(), 3);
    assert!(ring_verify(message, &ring, &c0, &responses));
}

#[test]
fn swapping_two_responses_rejects() {
    let (secrets, ring) = honest_ring(3);
    let message = b"swap test";
    let (c0, mut responses) = ring_sign(message, &ring, &secrets[1], 1).unwrap();
    assert!(ring_verify(message, &ring, &c0, &responses));
    responses.swap(0, 2);
    assert!(!ring_verify(message, &ring, &c0, &responses));
}

#[test]
fn degenerate_single_member_ring() {
    let (secrets, ring) = honest_ring(1);
    let message = b"alone";
    let (c0, responses) = ring_sign(message, &ring, &secrets[0], 0).unwrap();
    assert_eq!(responses.len(), 1);
    assert!(ring_verify(message, &ring, &c0, &responses));
}

#[test]
fn every_member_can_sign() {
    let (secrets, ring) = honest_ring(4);
    let message = b"any member";
    for j in 0..4 {
        let (c0, responses) = ring_sign(message, &ring, &secrets[j], j).unwrap();
        assert!(ring_verify(message, &ring, &c0, &responses));
    }
}

#[test]
fn signer_index_equal_to_ring_size_is_invalid() {
    for n in 1..=4 {
        let (secrets, ring) = honest_ring(n);
        let r = ring_sign(b"bound", &ring, &secrets[0], n);
        assert_eq!(r.unwrap_err(), RingSigError::InvalidIndex);
    }
}

#[test]
fn signer_index_beyond_ring_size_is_invalid() {
    let (secrets, ring) = honest_ring(2);
    let r = ring_sign(b"bound", &ring, &secrets[0], 17);
    assert_eq!(r.unwrap_err(), RingSigError::InvalidIndex);
}

#[test]
fn empty_ring_is_invalid_for_signing() {
    let sk = scalar_from_seed(9);
    let ring: Vec<RistrettoPoint> = Vec::new();
    let r = ring_sign(b"empty", &ring, &sk, 0);
    assert_eq!(r.unwrap_err(), RingSigError::InvalidIndex);
}

#[test]
fn response_count_mismatch_rejects_without_panic() {
    let (secrets, ring) = honest_ring(3);
    let message = b"mismatch";
    let (c0, responses) = ring_sign(message, &ring, &secrets[0], 0).unwrap();
    let shorter = responses[..2].to_vec();
    assert!(!ring_verify(message, &ring, &c0, &shorter));
    let mut longer = responses.clone();
    longer.push(responses[0]);
    assert!(!ring_verify(message, &ring, &c0, &longer));
    let none: Vec<Scalar> = Vec::new();
    let empty_ring: Vec<RistrettoPoint> = Vec::new();
    assert!(!ring_verify(message, &empty_ring, &c0, &none));
}

#[test]
fn tampered_message_rejects() {
    let (secrets, ring) = honest_ring(3);
    let (c0, responses) = ring_sign(b"original message", &ring, &secrets[2], 2).unwrap();
    assert!(ring_verify(b"original message", &ring, &c0, &responses));
    assert!(!ring_verify(b"original messagf", &ring, &c0, &responses));
    assert!(!ring_verify(b"", &ring, &c0, &responses));
}

/// Flips one bit of a scalar's canonical encoding and rebuilds a scalar.
fn flip_bit(s: &Scalar, bit: u8) -> Scalar {
    let mut bytes = scalar_to_bytes(s);
    bytes[0] ^= 1 << bit;
    bytes.resize(64, 0u8);
    scalar_from_bytes_wide(&bytes).unwrap()
}

#[test]
fn tampered_c0_rejects() {
    let (secrets, ring) = honest_ring(3);
    let message = b"c0 tamper";
    let (c0, responses) = ring_sign(message, &ring, &secrets[1], 1).unwrap();
    let bad = flip_bit(&c0, 0);
    assert_ne!(bad, c0);
    assert!(!ring_verify(message, &ring, &bad, &responses));
}

#[test]
fn tampered_response_rejects() {
    let (secrets, ring) = honest_ring(3);
    let message = b"response tamper";
    let (c0, mut responses) = ring_sign(message, &ring, &secrets[1], 1).unwrap();
    responses[2] = flip_bit(&responses[2], 1);
    assert!(!ring_verify(message, &ring, &c0, &responses));
}

#[test]
fn tampered_ring_element_rejects() {
    let (secrets, mut ring) = honest_ring(3);
    let message = b"ring tamper";
    let (c0, responses) = ring_sign(message, &ring, &secrets[0], 0).unwrap();
    let (_, other) = keygen().unwrap();
    ring[2] = other;
    assert!(!ring_verify(message, &ring, &c0, &responses));
}

#[test]
fn hashing_is_deterministic() {
    let a = hash_with_domain(b"ringsig", &[b"part one", b"part two"]);
    let b = hash_with_domain(b"ringsig", &[b"part one", b"part two"]);
    assert_eq!(a, b);
}

#[test]
fn hashing_depends_on_domain_and_parts() {
    let base = hash_with_domain(b"ringsig", &[b"payload"]);
    assert_ne!(base, hash_with_domain(b"ringsih", &[b"payload"]));
    assert_ne!(base, hash_with_domain(b"ringsig", &[b"payloae"]));
    // Parts are concatenated without separators, so only the concatenated
    // bytes matter, not how they are split.
    assert_eq!(base, hash_with_domain(b"ringsig", &[b"payload", b""]));
    assert_eq!(base, hash_with_domain(b"ringsig", &[b"pay", b"load"]));
}

#[test]
fn deterministic_signing_walk_is_reproducible() {
    let secrets: Vec<Scalar> = (1u8..=3).map(scalar_from_seed).collect();
    let ring: Vec<RistrettoPoint> = secrets.iter().map(public_key_of).collect();
    let nonce = scalar_from_seed(40);
    let forged = vec![scalar_from_seed(41), scalar_from_seed(42)];
    let message = b"reproducible";
    let (c0_a, rs_a) = ring_sign_with_randomness(message, &ring, &secrets[1], 1, &nonce, &forged)
        .unwrap();
    let (c0_b, rs_b) = ring_sign_with_randomness(message, &ring, &secrets[1], 1, &nonce, &forged)
        .unwrap();
    assert_eq!(c0_a, c0_b);
    assert_eq!(rs_a, rs_b);
    assert!(ring_verify(message, &ring, &c0_a, &rs_a));
}

#[test]
fn injected_randomness_rejects_invalid_index_too() {
    let secrets: Vec<Scalar> = (1u8..=2).map(scalar_from_seed).collect();
    let ring: Vec<RistrettoPoint> = secrets.iter().map(public_key_of).collect();
    let nonce = scalar_from_seed(50);
    let forged = vec![scalar_from_seed(51)];
    let r = ring_sign_with_randomness(b"x", &ring, &secrets[0], 2, &nonce, &forged);
    assert_eq!(r.unwrap_err(), RingSigError::InvalidIndex);
}

#[test]
fn scalar_one_encodes_and_displays_exactly() {
    let mut wide = vec![0u8; 64];
    wide[0] = 1;
    let one = scalar_from_bytes_wide(&wide).unwrap();
    let bytes = scalar_to_bytes(&one);
    let mut expected = vec![0u8; 32];
    expected[0] = 1;
    assert_eq!(bytes, expected);
    let mut expected_hex = String::from("01");
    for _ in 0..31 {
        expected_hex.push_str("00");
    }
    assert_eq!(to_hex(&one), expected_hex);
}

#[test]
fn wide_scalar_bytes_must_be_sixty_four() {
    assert!(scalar_from_bytes_wide(&vec![0u8; 63]).is_none());
    assert!(scalar_from_bytes_wide(&vec![0u8; 0]).is_none());
    assert!(scalar_from_bytes_wide(&vec![0u8; 64]).is_some());
}

#[test]
fn keygen_public_key_matches_secret() {
    let (sk, pk) = keygen().unwrap();
    assert_eq!(public_key_of(&sk), pk);
}
