//! The ring signature scheme: key generation, signing, verification, and
//! the proof that an honestly produced signature verifies.
//!
//! A signature over a message and a ring of `n` public keys is a starting
//! challenge `c0` together with `n` response scalars.  Verification walks
//! the ring once, recomputing each commitment `R_i = r_i*G + c_i*P_i` and
//! the next challenge as a hash of `R_i` and the message, and accepts
//! exactly when the challenge chain closes into a cycle.

use vstd::prelude::*;
use curve25519_dalek::ristretto::RistrettoPoint;
use curve25519_dalek::scalar::Scalar;
use vstd::arithmetic::div_mod::lemma_add_mod_noop;
use vstd::arithmetic::div_mod::lemma_add_mod_noop_right;
use vstd::arithmetic::div_mod::lemma_fundamental_div_mod;
use vstd::arithmetic::div_mod::lemma_mod_bound;
use vstd::arithmetic::div_mod::lemma_mod_multiples_vanish;
use vstd::arithmetic::div_mod::lemma_mod_twice;
use vstd::arithmetic::div_mod::lemma_mul_mod_noop_right;
use vstd::arithmetic::div_mod::lemma_small_mod;
use crate::group::basepoint;
use crate::group::os_random_wide;
use crate::group::point_add;
use crate::group::point_mul;
use crate::group::point_val;
use crate::group::scalar_eq;
use crate::group::scalar_from_wide;
use crate::group::scalar_mul;
use crate::group::scalar_sub;
use crate::group::scalar_val;
use crate::hashing::challenge_of;
use crate::hashing::challenge_scalar;
use crate::math::group_order;
use crate::math::mul_mod_l;
use crate::math::sub_mod_l;

verus! {

/// The errors the scheme can surface.  An out-of-range signer index is
/// rejected before any randomness is drawn; a failing random source aborts
/// the operation rather than fall back to weaker randomness.
#[derive(Clone, Copy, PartialEq, Eq, Debug, Structural)]
pub enum RingSigError {
    InvalidIndex,
    RandomSourceFailure,
}

/// The discrete logarithm of the commitment `resp*G + chal*P` for a key
/// `P` with discrete logarithm `key`.
pub open spec fn commit_val(resp: nat, chal: nat, key: nat) -> nat {
    (resp + chal * key) % group_order()
}

/// The discrete logarithms of a sequence of public keys.
pub open spec fn point_vals(ps: Seq<RistrettoPoint>) -> Seq<nat> {
    Seq::new(ps.len(), |i: int| point_val(ps[i]))
}

/// The integer values of a sequence of scalars.
pub open spec fn scalar_vals(ss: Seq<Scalar>) -> Seq<nat> {
    Seq::new(ss.len(), |i: int| scalar_val(ss[i]))
}

/// The challenge after walking the first `i` ring positions during
/// verification: `c[0] == c0`, and `c[i+1]` hashes the commitment built
/// from response `i`, challenge `i`, and ring key `i`.
pub open spec fn chain(msg: Seq<u8>, ring_keys: Seq<nat>, c0: nat, rsp: Seq<nat>, i: int) -> nat
    decreases i,
{
    if i <= 0 {
        c0
    } else {
        challenge_of(
            commit_val(rsp[i - 1], chain(msg, ring_keys, c0, rsp, i - 1), ring_keys[i - 1]),
            msg,
        )
    }
}

/// Reduces a position in `[0, 2n)` into the ring `[0, n)`.
pub open spec fn wrap_idx(x: int, n: int) -> int {
    if x < n {
        x
    } else {
        x - n
    }
}

/// The challenge the signer assigns in its `t`-th step: step 0 hashes the
/// honest commitment `k*G`; step `t` hashes the forged commitment built
/// from forged response `t-1` at ring position `wrap_idx(j + t, n)`.
pub open spec fn sign_chal(
    msg: Seq<u8>,
    ring_keys: Seq<nat>,
    j: int,
    kv: nat,
    f: Seq<nat>,
    t: int,
) -> nat
    decreases t,
{
    if t <= 0 {
        challenge_of(kv % group_order(), msg)
    } else {
        challenge_of(
            commit_val(
                f[t - 1],
                sign_chal(msg, ring_keys, j, kv, f, t - 1),
                ring_keys[wrap_idx(j + t, ring_keys.len() as int)],
            ),
            msg,
        )
    }
}

/// The starting challenge `c0` a signer at index `j` emits: the challenge
/// assigned to ring position 0, produced in signing step `n - 1 - j`.
pub open spec fn sign_c0(msg: Seq<u8>, ring_keys: Seq<nat>, j: int, kv: nat, f: Seq<nat>) -> nat {
    sign_chal(msg, ring_keys, j, kv, f, ring_keys.len() - 1 - j)
}

/// The one response computed from the secret: `k - sk * c_j mod l`, where
/// `c_j` is the challenge the final signing step assigned to position `j`.
pub open spec fn signer_response(
    msg: Seq<u8>,
    ring_keys: Seq<nat>,
    j: int,
    skv: nat,
    kv: nat,
    f: Seq<nat>,
) -> nat {
    sub_mod_l(kv, mul_mod_l(skv, sign_chal(msg, ring_keys, j, kv, f, ring_keys.len() - 1)))
}

/// The response at ring position `i`: the signer's own at `j`, and the
/// forged response drawn in the step that visited `i` everywhere else.
pub open spec fn response_at(
    msg: Seq<u8>,
    ring_keys: Seq<nat>,
    j: int,
    skv: nat,
    kv: nat,
    f: Seq<nat>,
    i: int,
) -> nat {
    if i == j {
        signer_response(msg, ring_keys, j, skv, kv, f)
    } else if i > j {
        f[i - j - 1]
    } else {
        f[i + ring_keys.len() - 1 - j]
    }
}

/// All `n` responses of the signature, in ring order.
pub open spec fn responses_of(
    msg: Seq<u8>,
    ring_keys: Seq<nat>,
    j: int,
    skv: nat,
    kv: nat,
    f: Seq<nat>,
) -> Seq<nat> {
    Seq::new(ring_keys.len(), |i: int| response_at(msg, ring_keys, j, skv, kv, f, i))
}

/// The discrete-log relation that closes the ring: when the key at the
/// signer's position is `sk*G`, the commitment rebuilt from the signer's
/// response `k - sk*c mod l` is the honest commitment `k*G` again.
proof fn lemma_close_commit(kv: nat, skv: nat, c: nat)
    ensures
        commit_val(sub_mod_l(kv, mul_mod_l(skv, c)), c, skv % group_order()) == kv % group_order(),
{
    let l = group_order() as int;
    let ci = c as int;
    let ski = skv as int;
    let a = mul_mod_l(skv, c) as int;
    assert(a == (ski * ci) % l);
    lemma_mod_bound(ski * ci, l);
    lemma_small_mod(a as nat, group_order());
    let x = (kv % group_order()) + group_order() - a;
    assert(sub_mod_l(kv, mul_mod_l(skv, c)) == x % l);
    let y = ci * (ski % l);
    assert((c * (skv % group_order())) as int == y);
    assert(commit_val(sub_mod_l(kv, mul_mod_l(skv, c)), c, skv % group_order()) == (x % l + y) % l);
    lemma_add_mod_noop_right(y, x, l);
    assert((x % l + y) % l == (x + y) % l);
    lemma_mul_mod_noop_right(ci, ski, l);
    assert(y % l == (ci * ski) % l);
    assert(ci * ski == ski * ci) by (nonlinear_arith);
    assert(y % l == a);
    lemma_fundamental_div_mod(y, l);
    let q = y / l;
    assert(y == l * q + a);
    assert(x + y == l * (q + 1) + (kv % group_order())) by (nonlinear_arith)
        requires
            x == (kv % group_order()) + group_order() - a,
            y == l * q + a,
            l == group_order() as int,
    ;
    lemma_mod_multiples_vanish(q + 1, (kv % group_order()) as int, l);
    lemma_mod_twice(kv as int, l);
}

/// Before the signer's position, the verification chain replays the
/// signer's forged steps: position `i` carries the challenge of signing
/// step `n - 1 - j + i`.
proof fn lemma_chain_lower(
    msg: Seq<u8>,
    ring_keys: Seq<nat>,
    j: int,
    skv: nat,
    kv: nat,
    f: Seq<nat>,
    i: int,
)
    requires
        0 <= j < ring_keys.len(),
        f.len() == ring_keys.len() - 1,
        0 <= i <= j,
    ensures
        chain(
            msg,
            ring_keys,
            sign_c0(msg, ring_keys, j, kv, f),
            responses_of(msg, ring_keys, j, skv, kv, f),
            i,
        ) == sign_chal(msg, ring_keys, j, kv, f, ring_keys.len() - 1 - j + i),
    decreases i,
{
    let n = ring_keys.len() as int;
    if i > 0 {
        lemma_chain_lower(msg, ring_keys, j, skv, kv, f, i - 1);
        let rsp = responses_of(msg, ring_keys, j, skv, kv, f);
        assert(rsp[i - 1] == f[i - 1 + n - 1 - j]);
        assert(wrap_idx(j + (n - 1 - j + i), n) == i - 1);
    }
}

/// From the signer's position onward the chain replays the honest
/// commitment and then the remaining forged steps: position `i` carries
/// the challenge of signing step `i - j - 1`.
proof fn lemma_chain_upper(
    msg: Seq<u8>,
    ring_keys: Seq<nat>,
    j: int,
    skv: nat,
    kv: nat,
    f: Seq<nat>,
    i: int,
)
    requires
        0 <= j < ring_keys.len(),
        f.len() == ring_keys.len() - 1,
        ring_keys[j] == skv % group_order(),
        j + 1 <= i <= ring_keys.len(),
    ensures
        chain(
            msg,
            ring_keys,
            sign_c0(msg, ring_keys, j, kv, f),
            responses_of(msg, ring_keys, j, skv, kv, f),
            i,
        ) == sign_chal(msg, ring_keys, j, kv, f, i - j - 1),
    decreases i,
{
    let n = ring_keys.len() as int;
    let rsp = responses_of(msg, ring_keys, j, skv, kv, f);
    if i == j + 1 {
        lemma_chain_lower(msg, ring_keys, j, skv, kv, f, j);
        let c_j = sign_chal(msg, ring_keys, j, kv, f, n - 1);
        assert(rsp[j] == sub_mod_l(kv, mul_mod_l(skv, c_j)));
        lemma_close_commit(kv, skv, c_j);
    } else {
        lemma_chain_upper(msg, ring_keys, j, skv, kv, f, i - 1);
        assert(rsp[i - 1] == f[i - 1 - j - 1]);
        assert(wrap_idx(j + (i - j - 1), n) == i - 1);
    }
}

/// Correctness of the scheme: for any ring of any size `n >= 1`, any
/// message, any nonce and forged responses, and any signer index whose
/// ring key is the signer's own public key `sk*G`, the challenge chain
/// recomputed by the verifier from the emitted signature closes into a
/// cycle, so verification accepts.
pub proof fn lemma_chain_closes(
    msg: Seq<u8>,
    ring_keys: Seq<nat>,
    j: int,
    skv: nat,
    kv: nat,
    f: Seq<nat>,
)
    requires
        0 <= j < ring_keys.len(),
        f.len() == ring_keys.len() - 1,
        ring_keys[j] == skv % group_order(),
    ensures
        chain(
            msg,
            ring_keys,
            sign_c0(msg, ring_keys, j, kv, f),
            responses_of(msg, ring_keys, j, skv, kv, f),
            ring_keys.len() as int,
        ) == sign_c0(msg, ring_keys, j, kv, f),
{
    lemma_chain_upper(msg, ring_keys, j, skv, kv, f, ring_keys.len() as int);
}

/// The commitment `resp*G + chal*key`.
fn commit(resp: &Scalar, chal: &Scalar, key: &RistrettoPoint) -> (r: RistrettoPoint)
    ensures
        point_val(r) == commit_val(scalar_val(*resp), scalar_val(*chal), point_val(*key)),
{
    let g = basepoint();
    let rg = point_mul(resp, &g);
    let ck = point_mul(chal, key);
    let p = point_add(&rg, &ck);
    proof {
        lemma_add_mod_noop(
            scalar_val(*resp) as int,
            (scalar_val(*chal) * point_val(*key)) as int,
            group_order() as int,
        );
    }
    p
}

/// A fresh scalar drawn uniformly by wide reduction of 64 bytes from the
/// secure random source; fails rather than fall back to weaker randomness.
fn random_scalar() -> (r: Result<Scalar, RingSigError>)
    ensures
        r matches Ok(s) ==> scalar_val(s) < group_order(),
        r matches Err(e) ==> e == RingSigError::RandomSourceFailure,
{
    match os_random_wide() {
        Some(b) => Ok(scalar_from_wide(b.as_slice())),
        None => Err(RingSigError::RandomSourceFailure),
    }
}

/// The public key belonging to a secret scalar: `sk*G`.
pub fn public_key_of(sk: &Scalar) -> (r: RistrettoPoint)
    ensures
        point_val(r) == scalar_val(*sk) % group_order(),
{
    let g = basepoint();
    point_mul(sk, &g)
}

/// Generates a keypair: a uniformly random secret scalar together with its
/// public key `sk*G`.  Fails only when the random source does.
pub fn keygen() -> (r: Result<(Scalar, RistrettoPoint), RingSigError>)
    ensures
        r matches Ok(kp) ==> {
            &&& scalar_val(kp.0) < group_order()
            &&& point_val(kp.1) == scalar_val(kp.0)
            &&& point_val(kp.1) == scalar_val(kp.0) % group_order()
        },
        r matches Err(e) ==> e == RingSigError::RandomSourceFailure,
{
    match random_scalar() {
        Ok(sk) => {
            let pk = public_key_of(&sk);
            proof {
                lemma_small_mod(scalar_val(sk), group_order());
            }
            Ok((sk, pk))
        },
        Err(e) => Err(e),
    }
}

/// Signs with an explicitly supplied nonce and forged responses instead of
/// drawing them from the random source, which makes the walk of the ring
/// deterministic.  The emitted `c0` and every response are pinned exactly
/// to the signing walk's challenges.
pub fn ring_sign_with_randomness(
    message: &[u8],
    public_keys: &Vec<RistrettoPoint>,
    sk: &Scalar,
    signer_index: usize,
    nonce: &Scalar,
    forged: &Vec<Scalar>,
) -> (r: Result<(Scalar, Vec<Scalar>), RingSigError>)
    requires
        signer_index < public_keys@.len() ==> forged@.len() == public_keys@.len() - 1,
    ensures
        signer_index >= public_keys@.len() ==> (r matches Err(e) && e
            == RingSigError::InvalidIndex),
        signer_index < public_keys@.len() ==> (r matches Ok(sig) && {
            let n = public_keys@.len() as int;
            let pv = point_vals(public_keys@);
            let fv = scalar_vals(forged@);
            let kv = scalar_val(*nonce);
            let skv = scalar_val(*sk);
            let j = signer_index as int;
            &&& sig.1@.len() == n
            &&& scalar_val(sig.0) == sign_c0(message@, pv, j, kv, fv)
            &&& forall|u: int|
                0 <= u < n ==> scalar_vals(sig.1@)[u] == response_at(message@, pv, j, skv, kv, fv, u)
        }),
{
    let n = public_keys.len();
    if signer_index >= n {
        return Err(RingSigError::InvalidIndex);
    }
    let ghost msg = message@;
    let ghost pv = point_vals(public_keys@);
    let ghost fv = scalar_vals(forged@);
    let ghost kv = scalar_val(*nonce);
    let ghost skv = scalar_val(*sk);
    let ghost j = signer_index as int;

    let g = basepoint();
    let r0 = point_mul(nonce, &g);
    let mut c_cur = challenge_scalar(&r0, message);
    let mut i: usize = if signer_index + 1 == n {
        0
    } else {
        signer_index + 1
    };
    let mut c_zero = c_cur;
    let mut t: usize = 0;
    while t < n - 1
        invariant
            n == public_keys@.len(),
            1 <= n,
            j == signer_index as int,
            0 <= j < n,
            forged@.len() == n - 1,
            msg == message@,
            pv == point_vals(public_keys@),
            fv == scalar_vals(forged@),
            kv == scalar_val(*nonce),
            skv == scalar_val(*sk),
            t <= n - 1,
            i as int == wrap_idx(j + 1 + t, n as int),
            scalar_val(c_cur) == sign_chal(msg, pv, j, kv, fv, t as int),
            t as int >= n - 1 - j ==> scalar_val(c_zero) == sign_chal(msg, pv, j, kv, fv, n - 1 - j),
        decreases n - 1 - t,
    {
        let resp = &forged[t];
        let key = &public_keys[i];
        let r_i = commit(resp, &c_cur, key);
        proof {
            assert(point_val(*key) == pv[i as int]);
            assert(scalar_val(*resp) == fv[t as int]);
            assert(wrap_idx(j + (t + 1), n as int) == i as int);
        }
        i = if i + 1 == n {
            0
        } else {
            i + 1
        };
        c_cur = challenge_scalar(&r_i, message);
        if i == 0 {
            c_zero = c_cur;
        }
        t = t + 1;
    }
    let prod = scalar_mul(sk, &c_cur);
    let s_signer = scalar_sub(nonce, &prod);
    proof {
        assert(scalar_val(s_signer) == signer_response(msg, pv, j, skv, kv, fv));
        assert(scalar_val(c_zero) == sign_c0(msg, pv, j, kv, fv));
    }
    let mut responses: Vec<Scalar> = Vec::new();
    let mut u: usize = 0;
    while u < n
        invariant
            n == public_keys@.len(),
            j == signer_index as int,
            0 <= j < n,
            forged@.len() == n - 1,
            fv == scalar_vals(forged@),
            fv.len() == n - 1,
            pv.len() == n,
            u <= n,
            scalar_val(s_signer) == signer_response(msg, pv, j, skv, kv, fv),
            responses@.len() == u,
            forall|w: int|
                0 <= w < u ==> scalar_val(responses@[w]) == response_at(msg, pv, j, skv, kv, fv, w),
        decreases n - u,
    {
        if u == signer_index {
            responses.push(s_signer);
        } else if u > signer_index {
            proof {
                assert(scalar_vals(forged@)[u - j - 1] == scalar_val(forged@[u - j - 1]));
            }
            responses.push(forged[u - signer_index - 1]);
        } else {
            let off = n - 1 - signer_index;
            proof {
                assert(scalar_vals(forged@)[u + off] == scalar_val(forged@[u + off]));
            }
            responses.push(forged[u + off]);
        }
        u = u + 1;
    }
    Ok((c_zero, responses))
}

/// Signs `message` under the ring `public_keys` with the secret key of the
/// member at `signer_index`, drawing the nonce and the forged responses
/// from the secure random source.  Fails with `InvalidIndex` exactly when
/// the index is out of range, and with `RandomSourceFailure` only when the
/// random source fails.  When the ring key at the signer's index is the
/// signer's own public key `sk*G`, the emitted signature's challenge chain
/// closes, so `ring_verify` accepts it.
pub fn ring_sign(
    message: &[u8],
    public_keys: &Vec<RistrettoPoint>,
    sk: &Scalar,
    signer_index: usize,
) -> (r: Result<(Scalar, Vec<Scalar>), RingSigError>)
    ensures
        signer_index >= public_keys@.len() ==> (r matches Err(e) && e
            == RingSigError::InvalidIndex),
        r matches Err(e) && e == RingSigError::InvalidIndex ==> signer_index >= public_keys@.len(),
        r matches Ok(sig) ==> {
            let n = public_keys@.len() as int;
            &&& signer_index < public_keys@.len()
            &&& sig.1@.len() == n
            &&& (point_val(public_keys@[signer_index as int]) == scalar_val(*sk) % group_order()
                ==> chain(
                message@,
                point_vals(public_keys@),
                scalar_val(sig.0),
                scalar_vals(sig.1@),
                n,
            ) == scalar_val(sig.0))
        },
{
    let n = public_keys.len();
    if signer_index >= n {
        return Err(RingSigError::InvalidIndex);
    }
    let nonce = match random_scalar() {
        Ok(s) => s,
        Err(e) => {
            return Err(e);
        },
    };
    let mut forged: Vec<Scalar> = Vec::new();
    let mut t: usize = 0;
    while t < n - 1
        invariant
            n == public_keys@.len(),
            signer_index < n,
            t <= n - 1,
            forged@.len() == t,
        decreases n - 1 - t,
    {
        let s = match random_scalar() {
            Ok(s) => s,
            Err(e) => {
                return Err(e);
            },
        };
        forged.push(s);
        t = t + 1;
    }
    let result = ring_sign_with_randomness(message, public_keys, sk, signer_index, &nonce, &forged);
    match result {
        Ok(sig) => {
            proof {
                let pv = point_vals(public_keys@);
                let fv = scalar_vals(forged@);
                let kv = scalar_val(nonce);
                let skv = scalar_val(*sk);
                let j = signer_index as int;
                assert(scalar_vals(sig.1@) =~= responses_of(message@, pv, j, skv, kv, fv));
                if point_val(public_keys@[j]) == skv % group_order() {
                    lemma_chain_closes(message@, pv, j, skv, kv, fv);
                }
            }
            Ok(sig)
        },
        Err(e) => Err(e),
    }
}

/// Verifies a ring signature: recomputes the challenge chain from `c0` and
/// the responses around the whole ring and accepts exactly when it closes.
/// An empty ring, or a response sequence whose length differs from the
/// ring's, is never silently truncated or padded: it is rejected as
/// `false`, which is this implementation's documented mismatch policy.
pub fn ring_verify(
    message: &[u8],
    public_keys: &Vec<RistrettoPoint>,
    c0: &Scalar,
    responses: &Vec<Scalar>,
) -> (r: bool)
    ensures
        r <==> ({
            let n = public_keys@.len() as int;
            &&& n >= 1
            &&& responses@.len() == n
            &&& chain(
                message@,
                point_vals(public_keys@),
                scalar_val(*c0),
                scalar_vals(responses@),
                n,
            ) == scalar_val(*c0)
        }),
{
    let n = public_keys.len();
    if n == 0 || responses.len() != n {
        return false;
    }
    let mut c_cur = *c0;
    let mut i: usize = 0;
    while i < n
        invariant
            n == public_keys@.len(),
            responses@.len() == n,
            i <= n,
            scalar_val(c_cur) == chain(
                message@,
                point_vals(public_keys@),
                scalar_val(*c0),
                scalar_vals(responses@),
                i as int,
            ),
        decreases n - i,
    {
        let r_i = commit(&responses[i], &c_cur, &public_keys[i]);
        c_cur = challenge_scalar(&r_i, message);
        i = i + 1;
    }
    scalar_eq(&c_cur, c0)
}

} // verus!
