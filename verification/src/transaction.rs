//! The signed-transaction interface: hashing, signature access and sender
//! recovery, together with the concrete transaction model of this crate.

use vstd::prelude::*;

use crate::primitives::{Address, Hash256, Signature, SignedTx, TX_TYPE_EIP4844};
use crate::recovery::{
    keccak256, keccak_of, recover_checked_spec, recover_signer, recover_signer_unchecked,
    recover_unchecked_spec, RecoveryError,
};

verus! {

/// A transaction together with its recovered signer.
#[derive(Clone, Debug, PartialEq, Eq)]
pub struct Recovered<T> {
    /// The signer of the transaction.
    pub signer: Address,
    /// The transaction itself.
    pub tx: T,
}

impl<T> Recovered<T> {
    /// Pairs a transaction with a signer that the caller vouches for.
    pub fn new_unchecked(tx: T, signer: Address) -> (r: Self)
        ensures
            r.tx == tx,
            r.signer == signer,
    {
        Recovered { signer, tx }
    }
}

/// A signed transaction: access to its hash, signature and the two byte
/// encodings that recovery and hashing read, plus the recovery operations
/// built on them.
pub trait SignedTransaction: Sized {
    /// The transaction hash.
    spec fn hash_spec(&self) -> Seq<u8>;

    /// The signature over the signing hash.
    spec fn signature_spec(&self) -> Signature;

    /// The canonical encoding whose Keccak-256 digest was signed.
    spec fn signing_payload_spec(&self) -> Seq<u8>;

    /// The full consensus encoding of the transaction.
    spec fn encoded_spec(&self) -> Seq<u8>;

    /// Whether this is a blob-carrying transaction.
    spec fn is_eip4844_spec(&self) -> bool;

    /// Returns a reference to the transaction hash.
    fn tx_hash(&self) -> (h: &Hash256)
        ensures
            h@ == self.hash_spec(),
    ;

    /// Returns a reference to the signature.
    fn signature(&self) -> (s: &Signature)
        ensures
            *s == self.signature_spec(),
    ;

    /// Whether this is a blob-carrying transaction.
    fn is_eip4844(&self) -> (b: bool)
        ensures
            b == self.is_eip4844_spec(),
    ;

    /// Appends the canonical signing encoding to the buffer.
    fn encode_for_signing(&self, buf: &mut Vec<u8>)
        ensures
            final(buf)@ == old(buf)@ + self.signing_payload_spec(),
    ;

    /// Returns the full consensus encoding.
    fn encoded_2718(&self) -> (e: Vec<u8>)
        ensures
            e@ == self.encoded_spec(),
    ;

    /// Whether this transaction may be broadcast as a full object over the
    /// network; blob transactions are only allowed to travel as hashes.
    fn is_broadcastable_in_full(&self) -> (b: bool)
        ensures
            b == !self.is_eip4844_spec(),
    {
        !self.is_eip4844()
    }

    /// Recovers the signer from signature and signing hash, enforcing the
    /// canonical low-s constraint. Fails on a high `s` scalar, as on early
    /// pre-constraint transactions, and on an invalid signature.
    fn recover_signer(&self) -> (out: Result<Address, RecoveryError>)
        ensures
            out matches Ok(a) ==> recover_checked_spec(
                self.signature_spec(),
                keccak_of(self.signing_payload_spec()),
            ) == Some(a@),
            out is Err <==> recover_checked_spec(
                self.signature_spec(),
                keccak_of(self.signing_payload_spec()),
            ) is None,
    {
        let mut buf: Vec<u8> = Vec::new();
        self.encode_for_signing(&mut buf);
        assert(buf@ =~= self.signing_payload_spec());
        let hash = keccak256(buf.as_slice());
        recover_signer(self.signature(), &hash)
    }

    /// Recovers the signer, checked; same outcome as [`Self::recover_signer`].
    fn try_recover(&self) -> (out: Result<Address, RecoveryError>)
        ensures
            out matches Ok(a) ==> recover_checked_spec(
                self.signature_spec(),
                keccak_of(self.signing_payload_spec()),
            ) == Some(a@),
            out is Err <==> recover_checked_spec(
                self.signature_spec(),
                keccak_of(self.signing_payload_spec()),
            ) is None,
    {
        self.recover_signer()
    }

    /// Recovers the signer (checked) and pairs it with a clone of the
    /// transaction. What a clone holds is only as known as the transaction
    /// type's own clone makes it.
    fn try_clone_into_recovered(&self) -> (out: Result<Recovered<Self>, RecoveryError>) where
        Self: Clone,
        ensures
            out matches Ok(rec) ==> vstd::pervasive::cloned::<Self>(*self, rec.tx)
                && recover_checked_spec(
                self.signature_spec(),
                keccak_of(self.signing_payload_spec()),
            ) == Some(rec.signer@),
            out is Err <==> recover_checked_spec(
                self.signature_spec(),
                keccak_of(self.signing_payload_spec()),
            ) is None,
    {
        match self.recover_signer() {
            Ok(signer) => Ok(Recovered::new_unchecked(self.clone(), signer)),
            Err(e) => Err(e),
        }
    }

    /// Recovers the signer without enforcing the low-s constraint, reusing
    /// the given scratch buffer for the signing encoding. The buffer is
    /// appended to, and the digest is taken over its entire content.
    fn recover_signer_unchecked_with_buf(&self, buf: &mut Vec<u8>) -> (out: Result<Address, RecoveryError>)
        ensures
            final(buf)@ == old(buf)@ + self.signing_payload_spec(),
            out matches Ok(a) ==> recover_unchecked_spec(
                self.signature_spec(),
                keccak_of(old(buf)@ + self.signing_payload_spec()),
            ) == Some(a@),
            out is Err <==> recover_unchecked_spec(
                self.signature_spec(),
                keccak_of(old(buf)@ + self.signing_payload_spec()),
            ) is None,
    {
        self.encode_for_signing(buf);
        let hash = keccak256(buf.as_slice());
        recover_signer_unchecked(self.signature(), &hash)
    }

    /// Recovers the signer without enforcing the low-s constraint.
    fn recover_signer_unchecked(&self) -> (out: Result<Address, RecoveryError>)
        ensures
            out matches Ok(a) ==> recover_unchecked_spec(
                self.signature_spec(),
                keccak_of(self.signing_payload_spec()),
            ) == Some(a@),
            out is Err <==> recover_unchecked_spec(
                self.signature_spec(),
                keccak_of(self.signing_payload_spec()),
            ) is None,
    {
        let mut buf: Vec<u8> = Vec::new();
        let out = self.recover_signer_unchecked_with_buf(&mut buf);
        assert(Seq::<u8>::empty() + self.signing_payload_spec() =~= self.signing_payload_spec());
        out
    }

    /// Recovers the signer, unchecked; same outcome as
    /// [`Self::recover_signer_unchecked`].
    fn try_recover_unchecked(&self) -> (out: Result<Address, RecoveryError>)
        ensures
            out matches Ok(a) ==> recover_unchecked_spec(
                self.signature_spec(),
                keccak_of(self.signing_payload_spec()),
            ) == Some(a@),
            out is Err <==> recover_unchecked_spec(
                self.signature_spec(),
                keccak_of(self.signing_payload_spec()),
            ) is None,
    {
        self.recover_signer_unchecked()
    }

    /// Recomputes the transaction hash from the full consensus encoding.
    fn recalculate_hash(&self) -> (h: Hash256)
        ensures
            h@ == keccak_of(self.encoded_spec()),
    {
        let encoded = self.encoded_2718();
        keccak256(encoded.as_slice())
    }

    /// Recovers the signer (checked) and pairs it with the transaction,
    /// handing the transaction back on failure.
    fn try_into_recovered(self) -> (out: Result<Recovered<Self>, Self>)
        ensures
            out matches Ok(rec) ==> rec.tx == self && recover_checked_spec(
                self.signature_spec(),
                keccak_of(self.signing_payload_spec()),
            ) == Some(rec.signer@),
            out matches Err(t) ==> t == self && recover_checked_spec(
                self.signature_spec(),
                keccak_of(self.signing_payload_spec()),
            ) is None,
    {
        match self.recover_signer() {
            Ok(signer) => Ok(Recovered::new_unchecked(self, signer)),
            Err(_) => Err(self),
        }
    }

    /// Recovers the signer without the low-s constraint and pairs it with
    /// the transaction.
    fn into_recovered_unchecked(self) -> (out: Result<Recovered<Self>, RecoveryError>)
        ensures
            out matches Ok(rec) ==> rec.tx == self && recover_unchecked_spec(
                self.signature_spec(),
                keccak_of(self.signing_payload_spec()),
            ) == Some(rec.signer@),
            out is Err <==> recover_unchecked_spec(
                self.signature_spec(),
                keccak_of(self.signing_payload_spec()),
            ) is None,
    {
        match self.recover_signer_unchecked() {
            Ok(signer) => Ok(Recovered::new_unchecked(self, signer)),
            Err(e) => Err(e),
        }
    }

    /// Pairs the transaction with a signer the caller vouches for.
    fn with_signer(self, signer: Address) -> (rec: Recovered<Self>)
        ensures
            rec.tx == self,
            rec.signer == signer,
    {
        Recovered::new_unchecked(self, signer)
    }
}

/// Everything a block needs of its transactions to support full node
/// operation.
pub trait FullSignedTx: SignedTransaction {
}

impl<T: SignedTransaction> FullSignedTx for T {
}

impl SignedTransaction for SignedTx {
    open spec fn hash_spec(&self) -> Seq<u8> {
        self.hash@
    }

    open spec fn signature_spec(&self) -> Signature {
        self.signature
    }

    open spec fn signing_payload_spec(&self) -> Seq<u8> {
        self.signing_payload@
    }

    open spec fn encoded_spec(&self) -> Seq<u8> {
        self.encoded@
    }

    open spec fn is_eip4844_spec(&self) -> bool {
        self.tx_type == TX_TYPE_EIP4844
    }

    fn tx_hash(&self) -> (h: &Hash256) {
        &self.hash
    }

    fn signature(&self) -> (s: &Signature) {
        &self.signature
    }

    fn is_eip4844(&self) -> (b: bool) {
        self.tx_type == TX_TYPE_EIP4844
    }

    fn encode_for_signing(&self, buf: &mut Vec<u8>) {
        buf.extend_from_slice(self.signing_payload.as_slice());
        assert(final(buf)@ =~= old(buf)@ + self.signing_payload@);
    }

    fn encoded_2718(&self) -> (e: Vec<u8>) {
        let e = self.encoded.clone();
        assert(e@ =~= self.encoded@);
        e
    }
}

} // verus!
