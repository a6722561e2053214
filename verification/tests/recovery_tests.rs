use chain_backfill::primitives::{Hash256, Signature, SignedTx, TX_TYPE_EIP4844};
use chain_backfill::recovery::{has_low_s, recover_signer, recover_signer_unchecked};
use chain_backfill::transaction::SignedTransaction;

const SECP256K1_ORDER: [u8; 32] = [
    0xff, 0xff, 0xff, 0xff, 0xff, 0xff, 0xff, 0xff, 0xff, 0xff, 0xff, 0xff, 0xff, 0xff, 0xff,
    0xfe, 0xba, 0xae, 0xdc, 0xe6, 0xaf, 0x48, 0xa0, 0x3b, 0xbf, 0xd2, 0x5e, 0x8c, 0xd0, 0x36,
    0x41, 0x41,
];

const SECP256K1_HALF: [u8; 32] = [
    0x7f, 0xff, 0xff, 0xff, 0xff, 0xff, 0xff, 0xff, 0xff, 0xff, 0xff, 0xff, 0xff, 0xff, 0xff,
    0xff, 0x5d, 0x57, 0x6e, 0x73, 0x57, 0xa4, 0x50, 0x1d, 0xdf, 0xe9, 0x2f, 0x46, 0x68, 0x1b,
    0x20, 0xa0,
];

fn signing_key() -> k256::ecdsa::SigningKey {
    k256::ecdsa::SigningKey::from_slice(&[7u8; 32]).unwrap()
}

fn address_of(key: &k256::ecdsa::SigningKey) -> [u8; 20] {
    let point = key.verifying_key().to_sec1_point(false);
    alloy_primitives::Address::from_raw_public_key(&point.as_bytes()[1..]).into_array()
}

fn sign(key: &k256::ecdsa::SigningKey, prehash: &[u8; 32]) -> Signature {
    let (sig, recid) = key.sign_prehash_recoverable(prehash);
    let bytes = sig.to_bytes();
    let mut r = [0u8; 32];
    let mut s = [0u8; 32];
    r.copy_from_slice(&bytes[..32]);
    s.copy_from_slice(&bytes[32..]);
    Signature {
        r: Hash256 { bytes: r },
        s: Hash256 { bytes: s },
        odd_y_parity: recid.is_y_odd(),
    }
}

/// On a low-s signature the checked and the unchecked path recover the same
/// address, and it is the signer's.
#[test]
fn checked_recovery_matches_unchecked_on_low_s() {
    let key = signing_key();
    let prehash = [0x42u8; 32];
    let sig = sign(&key, &prehash);
    assert!(has_low_s(&sig));

    let hash = Hash256 { bytes: prehash };
    let checked = recover_signer(&sig, &hash).expect("checked recovery");
    let unchecked = recover_signer_unchecked(&sig, &hash).expect("unchecked recovery");
    assert_eq!(checked, unchecked);
    assert_eq!(checked.bytes, address_of(&key));
}

/// A high-s variant of a valid signature is rejected by the checked path but
/// still recovers the same address on the unchecked path.
#[test]
fn high_s_rejected_by_checked_path_only() {
    let key = signing_key();
    let prehash = [0x21u8; 32];
    let sig = sign(&key, &prehash);

    let order = alloy_primitives::U256::from_be_bytes(SECP256K1_ORDER);
    let s = alloy_primitives::U256::from_be_bytes(sig.s.bytes);
    let high_s: [u8; 32] = (order - s).to_be_bytes();
    let high_sig = Signature {
        r: sig.r,
        s: Hash256 { bytes: high_s },
        odd_y_parity: !sig.odd_y_parity,
    };
    assert!(!has_low_s(&high_sig));

    let hash = Hash256 { bytes: prehash };
    assert!(recover_signer(&high_sig, &hash).is_err());
    let recovered = recover_signer_unchecked(&high_sig, &hash).expect("unchecked recovery");
    assert_eq!(recovered.bytes, address_of(&key));
}

/// The low-s constraint accepts exactly the scalars up to half the group
/// order.
#[test]
fn low_s_boundary() {
    let mut just_above = SECP256K1_HALF;
    just_above[31] += 1;
    let at_half = Signature {
        r: Hash256 { bytes: [1u8; 32] },
        s: Hash256 { bytes: SECP256K1_HALF },
        odd_y_parity: false,
    };
    let above_half = Signature {
        r: Hash256 { bytes: [1u8; 32] },
        s: Hash256 { bytes: just_above },
        odd_y_parity: false,
    };
    assert!(has_low_s(&at_half));
    assert!(!has_low_s(&above_half));
}

/// An all-zero signature is invalid on both paths.
#[test]
fn invalid_signature_fails_recovery() {
    let sig = Signature {
        r: Hash256 { bytes: [0u8; 32] },
        s: Hash256 { bytes: [0u8; 32] },
        odd_y_parity: false,
    };
    let hash = Hash256 { bytes: [5u8; 32] };
    assert!(recover_signer(&sig, &hash).is_err());
    assert!(recover_signer_unchecked(&sig, &hash).is_err());
}

fn tx_with(signing_payload: Vec<u8>, encoded: Vec<u8>, tx_type: u8, signature: Signature) -> SignedTx {
    SignedTx {
        tx_type,
        chain_id: 1,
        nonce: 0,
        gas_limit: 21000,
        max_fee_per_gas: 1,
        signing_payload,
        encoded,
        hash: Hash256 { bytes: [0u8; 32] },
        signature,
    }
}

/// Recovering through the transaction interface digests the signing payload
/// and recovers the signer from it.
#[test]
fn transaction_recovery_roundtrip() {
    let key = signing_key();
    let payload = b"transfer".to_vec();
    let prehash: [u8; 32] = alloy_primitives::keccak256(&payload).0;
    let sig = sign(&key, &prehash);
    let tx = tx_with(payload, vec![], 2, sig);

    let recovered = tx.recover_signer().expect("recover");
    assert_eq!(recovered.bytes, address_of(&key));
    assert_eq!(tx.try_recover().unwrap(), recovered);
    assert_eq!(tx.recover_signer_unchecked().unwrap(), recovered);
    assert_eq!(tx.try_recover_unchecked().unwrap(), recovered);

    let mut buf = Vec::new();
    let with_buf = tx.recover_signer_unchecked_with_buf(&mut buf).unwrap();
    assert_eq!(with_buf, recovered);
    assert_eq!(buf, tx.signing_payload);

    let recovered_pair = tx.clone().try_into_recovered().expect("into recovered");
    assert_eq!(recovered_pair.signer, recovered);
    assert_eq!(recovered_pair.tx, tx);

    let cloned_pair = tx.try_clone_into_recovered().expect("clone into recovered");
    assert_eq!(cloned_pair.signer, recovered);
    assert_eq!(cloned_pair.tx, tx);
}

/// The recalculated hash is the Keccak-256 digest of the full encoding; the
/// digest of the empty encoding is the well-known empty-input digest.
#[test]
fn recalculate_hash_uses_keccak() {
    let sig = Signature {
        r: Hash256 { bytes: [0u8; 32] },
        s: Hash256 { bytes: [0u8; 32] },
        odd_y_parity: false,
    };
    let tx = tx_with(vec![], vec![], 2, sig);
    let expected: [u8; 32] = [
        0xc5, 0xd2, 0x46, 0x01, 0x86, 0xf7, 0x23, 0x3c, 0x92, 0x7e, 0x7d, 0xb2, 0xdc, 0xc7, 0x03,
        0xc0, 0xe5, 0x00, 0xb6, 0x53, 0xca, 0x82, 0x27, 0x3b, 0x7b, 0xfa, 0xd8, 0x04, 0x5d, 0x85,
        0xa4, 0x70,
    ];
    assert_eq!(tx.recalculate_hash().bytes, expected);
}

/// Blob transactions travel by hash only; every other type is broadcastable
/// in full.
#[test]
fn broadcastability_by_type() {
    let sig = Signature {
        r: Hash256 { bytes: [0u8; 32] },
        s: Hash256 { bytes: [0u8; 32] },
        odd_y_parity: false,
    };
    let blob = tx_with(vec![], vec![], TX_TYPE_EIP4844, sig);
    assert!(!blob.is_broadcastable_in_full());
    let plain = tx_with(vec![], vec![], 2, sig);
    assert!(plain.is_broadcastable_in_full());
}
