//! Plain-value models of the chain data that the re-execution logic reads:
//! addresses, hashes, signatures, transactions, blocks, receipts and accounts.

use vstd::prelude::*;

verus! {

/// Byte-wise equality of two fixed-size byte arrays.
pub fn bytes_eq<const N: usize>(a: &[u8; N], b: &[u8; N]) -> (r: bool)
    ensures
        r == (a@ == b@),
{
    let mut i: usize = 0;
    while i < N
        invariant
            0 <= i <= N,
            forall|j: int| 0 <= j < i ==> a@[j] == b@[j],
        decreases N - i,
    {
        if a[i] != b[i] {
            assert(a@ != b@);
            return false;
        }
        i += 1;
    }
    assert(a@ =~= b@);
    true
}

/// Byte-wise equality of two byte vectors.
pub fn bytes_eq_vec(a: &Vec<u8>, b: &Vec<u8>) -> (r: bool)
    ensures
        r == (a@ == b@),
{
    if a.len() != b.len() {
        return false;
    }
    let n = a.len();
    let mut i: usize = 0;
    while i < n
        invariant
            0 <= i <= n,
            n == a@.len(),
            n == b@.len(),
            forall|j: int| 0 <= j < i ==> a@[j] == b@[j],
        decreases n - i,
    {
        if a[i] != b[i] {
            assert(a@ != b@);
            return false;
        }
        i += 1;
    }
    assert(a@ =~= b@);
    true
}

/// A 20-byte account address.
#[derive(Clone, Copy, Debug)]
pub struct Address {
    pub bytes: [u8; 20],
}

impl View for Address {
    type V = Seq<u8>;

    open spec fn view(&self) -> Seq<u8> {
        self.bytes@
    }
}

impl PartialEq for Address {
    fn eq(&self, other: &Self) -> (r: bool) {
        bytes_eq(&self.bytes, &other.bytes)
    }
}

impl Eq for Address {
}

impl vstd::std_specs::cmp::PartialEqSpecImpl for Address {
    open spec fn obeys_eq_spec() -> bool {
        true
    }

    open spec fn eq_spec(&self, other: &Address) -> bool {
        self.bytes@ == other.bytes@
    }
}

/// A 32-byte hash or scalar, kept in big-endian byte order.
#[derive(Clone, Copy, Debug)]
pub struct Hash256 {
    pub bytes: [u8; 32],
}

impl View for Hash256 {
    type V = Seq<u8>;

    open spec fn view(&self) -> Seq<u8> {
        self.bytes@
    }
}

impl PartialEq for Hash256 {
    fn eq(&self, other: &Self) -> (r: bool) {
        bytes_eq(&self.bytes, &other.bytes)
    }
}

impl Eq for Hash256 {
}

impl vstd::std_specs::cmp::PartialEqSpecImpl for Hash256 {
    open spec fn obeys_eq_spec() -> bool {
        true
    }

    open spec fn eq_spec(&self, other: &Hash256) -> bool {
        self.bytes@ == other.bytes@
    }
}

impl Hash256 {
    /// The all-zero hash, used as the parent of the first generated block.
    pub fn zero() -> (r: Self)
        ensures
            forall|i: int| 0 <= i < 32 ==> r@[i] == 0u8,
    {
        let bytes: [u8; 32] = [0u8; 32];
        Hash256 { bytes }
    }
}

/// An ECDSA signature over secp256k1: the two scalars in big-endian byte
/// order, and the parity bit of the recovered point's y coordinate.
#[derive(Clone, Copy, Debug, PartialEq, Eq)]
pub struct Signature {
    pub r: Hash256,
    pub s: Hash256,
    pub odd_y_parity: bool,
}

/// The balance and nonce of an account, as the execution model tracks them.
#[derive(Clone, Copy, Debug, PartialEq, Eq, Structural)]
pub struct Account {
    pub balance: u128,
    pub nonce: u64,
}

/// The per-transaction result of executing a block.
#[derive(Clone, Copy, Debug, PartialEq, Eq, Structural)]
pub struct Receipt {
    pub success: bool,
    pub cumulative_gas_used: u64,
}

/// A signed transaction, carrying as plain bytes the two encodings that
/// sender recovery and hashing read: the payload that was signed, and the
/// full consensus encoding.
#[derive(Clone, Debug, PartialEq, Eq)]
pub struct SignedTx {
    /// Transaction envelope type; the blob type is not broadcastable in full.
    pub tx_type: u8,
    pub chain_id: u64,
    pub nonce: u64,
    pub gas_limit: u64,
    pub max_fee_per_gas: u64,
    /// The canonical encoding whose hash was signed.
    pub signing_payload: Vec<u8>,
    /// The full consensus encoding, hashed for the transaction hash.
    pub encoded: Vec<u8>,
    pub hash: Hash256,
    pub signature: Signature,
}

/// The transaction envelope type of blob-carrying transactions, which are
/// only broadcastable by hash.
pub const TX_TYPE_EIP4844: u8 = 3;

/// The mathematical content of a signed transaction: its plain fields, with
/// the byte payloads as sequences.
#[verifier::ext_equal]
pub ghost struct TxView {
    pub tx_type: u8,
    pub chain_id: u64,
    pub nonce: u64,
    pub gas_limit: u64,
    pub max_fee_per_gas: u64,
    pub signing_payload: Seq<u8>,
    pub encoded: Seq<u8>,
    pub hash: Seq<u8>,
    pub signature: Signature,
}

impl TxView {
    /// The fee charged for this transaction by the execution model:
    /// the whole gas limit at the maximum fee per gas.
    pub open spec fn cost(self) -> int {
        self.gas_limit * self.max_fee_per_gas
    }
}

impl View for SignedTx {
    type V = TxView;

    open spec fn view(&self) -> TxView {
        TxView {
            tx_type: self.tx_type,
            chain_id: self.chain_id,
            nonce: self.nonce,
            gas_limit: self.gas_limit,
            max_fee_per_gas: self.max_fee_per_gas,
            signing_payload: self.signing_payload@,
            encoded: self.encoded@,
            hash: self.hash@,
            signature: self.signature,
        }
    }
}

impl SignedTx {
    /// Computes the fee charged for this transaction.
    pub fn cost(&self) -> (c: u128)
        ensures
            c == self@.cost(),
    {
        proof {
            assert((self.gas_limit as int) * (self.max_fee_per_gas as int) < 0x100000000000000000000000000000000int)
                by (nonlinear_arith)
                requires
                    self.gas_limit <= 0xffffffffffffffffu64,
                    self.max_fee_per_gas <= 0xffffffffffffffffu64,
            ;
        }
        (self.gas_limit as u128) * (self.max_fee_per_gas as u128)
    }

    /// An explicit deep copy, equal to the original in its view.
    pub fn duplicate(&self) -> (r: Self)
        ensures
            r@ == self@,
    {
        let r = SignedTx {
            tx_type: self.tx_type,
            chain_id: self.chain_id,
            nonce: self.nonce,
            gas_limit: self.gas_limit,
            max_fee_per_gas: self.max_fee_per_gas,
            signing_payload: self.signing_payload.clone(),
            encoded: self.encoded.clone(),
            hash: self.hash,
            signature: self.signature,
        };
        proof {
            assert(r.signing_payload@ =~= self.signing_payload@);
            assert(r.encoded@ =~= self.encoded@);
            assert(r@ =~= self@);
        }
        r
    }
}

/// A sealed block together with the recovered sender of every transaction.
#[derive(Clone, Debug, PartialEq, Eq)]
pub struct RecoveredBlock {
    pub number: u64,
    pub hash: Hash256,
    pub parent_hash: Hash256,
    pub timestamp: u64,
    /// Gas usage claimed by the header; the batching counters read it.
    pub gas_used: u64,
    pub transactions: Vec<SignedTx>,
    pub senders: Vec<Address>,
}

/// The mathematical content of a recovered block: its plain header fields and
/// the views of its transactions alongside their senders.
#[verifier::ext_equal]
pub ghost struct BlockView {
    pub number: u64,
    pub hash: Seq<u8>,
    pub parent_hash: Seq<u8>,
    pub timestamp: u64,
    pub gas_used: u64,
    pub transactions: Seq<TxView>,
    pub senders: Seq<Address>,
}

impl BlockView {
    /// One recovered sender per transaction.
    pub open spec fn wf(self) -> bool {
        self.senders.len() == self.transactions.len()
    }
}

impl View for RecoveredBlock {
    type V = BlockView;

    open spec fn view(&self) -> BlockView {
        BlockView {
            number: self.number,
            hash: self.hash@,
            parent_hash: self.parent_hash@,
            timestamp: self.timestamp,
            gas_used: self.gas_used,
            transactions: Seq::new(self.transactions@.len(), |i: int| self.transactions@[i]@),
            senders: self.senders@,
        }
    }
}

impl RecoveredBlock {
    /// One recovered sender per transaction.
    pub open spec fn wf(self) -> bool {
        self@.wf()
    }

    /// Number of transactions in the block body.
    pub fn transaction_count(&self) -> (n: usize)
        ensures
            n == self@.transactions.len(),
    {
        self.transactions.len()
    }

    /// An explicit deep copy, equal to the original in its view.
    pub fn duplicate(&self) -> (r: Self)
        ensures
            r@ == self@,
    {
        let mut transactions: Vec<SignedTx> = Vec::new();
        let n = self.transactions.len();
        let mut i: usize = 0;
        while i < n
            invariant
                0 <= i <= n,
                n == self.transactions@.len(),
                transactions@.len() == i,
                forall|j: int| 0 <= j < i ==> #[trigger] transactions@[j]@ == self.transactions@[j]@,
            decreases n - i,
        {
            transactions.push(self.transactions[i].duplicate());
            i += 1;
        }
        let r = RecoveredBlock {
            number: self.number,
            hash: self.hash,
            parent_hash: self.parent_hash,
            timestamp: self.timestamp,
            gas_used: self.gas_used,
            transactions,
            senders: self.senders.clone(),
        };
        proof {
            assert(r.senders@ =~= self.senders@);
            assert(r@.transactions =~= self@.transactions);
            assert(r@ =~= self@);
        }
        r
    }
}

} // verus!
