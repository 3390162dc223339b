//! An AOS-style ring signature scheme over the Ristretto group.
//!
//! A member of a ring of public keys signs a message so that a verifier
//! learns that some ring member signed, but not which one.  The challenge
//! chain is produced by a domain-separated hash-to-scalar function and is
//! closed into a cycle with the signer's secret key.

pub mod encode;
pub mod group;
pub mod hashing;
pub mod math;
pub mod ring;
