//! Sender recovery: deriving the address that authorized a transaction from
//! its signature and signing hash.
//!
//! The checked path additionally enforces the canonical low-s constraint on
//! the signature's second scalar; the unchecked path accepts any scalar and is
//! meant for transactions that predate the constraint. The elliptic-curve
//! recovery itself and the Keccak-256 digest are consumed as trusted
//! capabilities; the low-s comparison is verified byte arithmetic.

use vstd::prelude::*;
use vstd::arithmetic::mul::{lemma_mul_inequality, lemma_mul_strict_inequality};

use crate::primitives::{Address, Hash256, Signature};

verus! {

/// Opaque error type for sender recovery.
#[derive(Clone, Copy, Debug, Default, PartialEq, Eq, Structural)]
pub struct RecoveryError;

/// The value of a byte string read as one big-endian unsigned integer.
pub open spec fn be_val(b: Seq<u8>) -> int
    decreases b.len(),
{
    if b.len() == 0 {
        0
    } else {
        b[0] * pow256((b.len() - 1) as nat) + be_val(b.subrange(1, b.len() as int))
    }
}

/// 256 raised to the given power: the weight of the leading byte of a
/// big-endian byte string of length `n + 1`.
pub open spec fn pow256(n: nat) -> int
    decreases n,
{
    if n == 0 {
        1
    } else {
        256 * pow256((n - 1) as nat)
    }
}

proof fn lemma_pow256_positive(n: nat)
    ensures
        pow256(n) >= 1,
    decreases n,
{
    if n > 0 {
        lemma_pow256_positive((n - 1) as nat);
    }
}

proof fn lemma_be_val_bounds(b: Seq<u8>)
    ensures
        0 <= be_val(b) < pow256(b.len()),
    decreases b.len(),
{
    if b.len() == 0 {
        lemma_pow256_positive(0);
    } else {
        let tail = b.subrange(1, b.len() as int);
        lemma_be_val_bounds(tail);
        let p = pow256((b.len() - 1) as nat);
        lemma_pow256_positive((b.len() - 1) as nat);
        lemma_mul_inequality(b[0] as int, 255, p);
        assert(pow256(b.len()) == 256 * p);
    }
}

/// If two equally long byte strings agree before position `i` and differ
/// there, the one with the smaller byte reads as the smaller integer.
proof fn lemma_be_val_lt(a: Seq<u8>, b: Seq<u8>, i: int)
    requires
        a.len() == b.len(),
        0 <= i < a.len(),
        forall|j: int| 0 <= j < i ==> a[j] == b[j],
        a[i] < b[i],
    ensures
        be_val(a) < be_val(b),
    decreases i,
{
    let n = a.len() as int;
    let p = pow256((a.len() - 1) as nat);
    let ta = a.subrange(1, n);
    let tb = b.subrange(1, n);
    if i == 0 {
        lemma_be_val_bounds(ta);
        lemma_be_val_bounds(tb);
        lemma_pow256_positive((a.len() - 1) as nat);
        lemma_mul_strict_inequality(a[0] as int, b[0] as int, p);
        assert(be_val(a) == a[0] * p + be_val(ta));
        assert(a[0] * p + p <= b[0] * p) by {
            lemma_mul_inequality(a[0] + 1, b[0] as int, p);
            assert((a[0] + 1) * p == a[0] * p + p) by (nonlinear_arith);
        }
        assert(be_val(tb) >= 0);
    } else {
        assert(forall|j: int| 0 <= j < i - 1 ==> ta[j] == tb[j]);
        assert(ta[i - 1] < tb[i - 1]);
        lemma_be_val_lt(ta, tb, i - 1);
        assert(a[0] == b[0]);
    }
}

/// Half the order of the secp256k1 group, big-endian: the largest `s` scalar
/// that the canonical low-s constraint accepts.
pub open spec fn secp256k1n_half_be() -> Seq<u8> {
    seq![
        0x7fu8, 0xffu8, 0xffu8, 0xffu8, 0xffu8, 0xffu8, 0xffu8, 0xffu8,
        0xffu8, 0xffu8, 0xffu8, 0xffu8, 0xffu8, 0xffu8, 0xffu8, 0xffu8,
        0x5du8, 0x57u8, 0x6eu8, 0x73u8, 0x57u8, 0xa4u8, 0x50u8, 0x1du8,
        0xdfu8, 0xe9u8, 0x2fu8, 0x46u8, 0x68u8, 0x1bu8, 0x20u8, 0xa0u8,
    ]
}

/// Whether the signature's `s` scalar satisfies the canonical low-s
/// constraint.
pub open spec fn low_s(sig: Signature) -> bool {
    be_val(sig.s@) <= be_val(secp256k1n_half_be())
}

fn secp256k1n_half_bytes() -> (r: [u8; 32])
    ensures
        r@ == secp256k1n_half_be(),
{
    let r: [u8; 32] = [
        0x7fu8, 0xffu8, 0xffu8, 0xffu8, 0xffu8, 0xffu8, 0xffu8, 0xffu8,
        0xffu8, 0xffu8, 0xffu8, 0xffu8, 0xffu8, 0xffu8, 0xffu8, 0xffu8,
        0x5du8, 0x57u8, 0x6eu8, 0x73u8, 0x57u8, 0xa4u8, 0x50u8, 0x1du8,
        0xdfu8, 0xe9u8, 0x2fu8, 0x46u8, 0x68u8, 0x1bu8, 0x20u8, 0xa0u8,
    ];
    assert(r@ =~= secp256k1n_half_be());
    r
}

/// Decides the canonical low-s constraint by byte-wise comparison of the
/// scalar against half the group order.
pub fn has_low_s(sig: &Signature) -> (r: bool)
    ensures
        r == low_s(*sig),
{
    let half = secp256k1n_half_bytes();
    let s = &sig.s.bytes;
    let mut i: usize = 0;
    while i < 32
        invariant
            0 <= i <= 32,
            s@ == sig.s@,
            half@ == secp256k1n_half_be(),
            forall|j: int| 0 <= j < i ==> s@[j] == half@[j],
        decreases 32 - i,
    {
        if s[i] < half[i] {
            proof {
                lemma_be_val_lt(s@, half@, i as int);
            }
            return true;
        }
        if s[i] > half[i] {
            proof {
                lemma_be_val_lt(half@, s@, i as int);
            }
            return false;
        }
        i += 1;
    }
    proof {
        assert(s@ =~= secp256k1n_half_be());
    }
    true
}

/// The address recovered by ECDSA public-key recovery over secp256k1 from the
/// signature scalars, the parity bit and the 32-byte prehash, or nothing when
/// the signature is invalid. The result is a function of its arguments alone.
pub uninterp spec fn ecrecover(r: Seq<u8>, s: Seq<u8>, odd_y_parity: bool, prehash: Seq<u8>) -> Option<Seq<u8>>;

/// The 32-byte Keccak-256 digest of a byte string.
pub uninterp spec fn keccak_of(bytes: Seq<u8>) -> Seq<u8>;

/// Relies on `alloy_primitives::Signature::recover_address_from_prehash`:
/// ECDSA public-key recovery over secp256k1 (normalizing a high `s` scalar
/// together with its parity, which leaves the recovered key unchanged)
/// followed by the keccak-based address derivation. The outcome, including
/// whether recovery succeeds at all, depends only on the scalars, the parity
/// and the prehash.
#[verifier::external_body]
fn recover_address_from_prehash(sig: &Signature, prehash: &Hash256) -> (out: Option<Address>)
    ensures
        match out {
            Some(a) => ecrecover(sig.r@, sig.s@, sig.odd_y_parity, prehash@) == Some(a@),
            None => ecrecover(sig.r@, sig.s@, sig.odd_y_parity, prehash@) is None,
        },
{
    let signature = alloy_primitives::Signature::from_scalars_and_parity(
        alloy_primitives::B256::new(sig.r.bytes),
        alloy_primitives::B256::new(sig.s.bytes),
        sig.odd_y_parity,
    );
    match signature.recover_address_from_prehash(&alloy_primitives::B256::new(prehash.bytes)) {
        Ok(address) => Some(Address { bytes: address.into_array() }),
        Err(_) => None,
    }
}

/// Relies on `alloy_primitives::keccak256`: the 32-byte Keccak-256 digest of
/// the input bytes, a function of the input alone.
#[verifier::external_body]
pub(crate) fn keccak256(bytes: &[u8]) -> (h: Hash256)
    ensures
        h@ == keccak_of(bytes@),
{
    Hash256 { bytes: alloy_primitives::keccak256(bytes).0 }
}

/// What recovery without the low-s constraint returns.
pub open spec fn recover_unchecked_spec(sig: Signature, prehash: Seq<u8>) -> Option<Seq<u8>> {
    ecrecover(sig.r@, sig.s@, sig.odd_y_parity, prehash)
}

/// What recovery with the low-s constraint returns: a high `s` scalar is
/// rejected outright, anything else recovers as on the unchecked path.
pub open spec fn recover_checked_spec(sig: Signature, prehash: Seq<u8>) -> Option<Seq<u8>> {
    if low_s(sig) {
        recover_unchecked_spec(sig, prehash)
    } else {
        None
    }
}

/// Recovers the signing address without enforcing the low-s constraint.
pub fn recover_signer_unchecked(sig: &Signature, prehash: &Hash256) -> (out: Result<Address, RecoveryError>)
    ensures
        out matches Ok(a) ==> recover_unchecked_spec(*sig, prehash@) == Some(a@),
        out is Err <==> recover_unchecked_spec(*sig, prehash@) is None,
{
    match recover_address_from_prehash(sig, prehash) {
        Some(address) => Ok(address),
        None => Err(RecoveryError),
    }
}

/// Recovers the signing address, rejecting signatures whose `s` scalar does
/// not satisfy the canonical low-s constraint.
pub fn recover_signer(sig: &Signature, prehash: &Hash256) -> (out: Result<Address, RecoveryError>)
    ensures
        out matches Ok(a) ==> recover_checked_spec(*sig, prehash@) == Some(a@),
        out is Err <==> recover_checked_spec(*sig, prehash@) is None,
{
    if !has_low_s(sig) {
        return Err(RecoveryError);
    }
    recover_signer_unchecked(sig, prehash)
}

/// On a signature satisfying the low-s constraint, the checked recovery path
/// returns exactly what the unchecked path returns: the constraint only
/// narrows which signatures are accepted.
pub proof fn lemma_checked_recovery_matches_unchecked(sig: Signature, prehash: Seq<u8>)
    requires
        low_s(sig),
    ensures
        recover_checked_spec(sig, prehash) == recover_unchecked_spec(sig, prehash),
{
}

} // verus!
