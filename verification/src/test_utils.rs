//! Building blocks for tests and offline runs: a block builder that signs and
//! assembles blocks for a configured signer, and a subscription registry
//! whose commits and reorganizations can be driven by hand.

use vstd::prelude::*;

use std::sync::Arc;

use crate::chain::{Chain, ExecutionOutcome, StateView};
use crate::hub::{CanonicalStateHub, deliver_all, models, CanonStateNotification, NOTIFICATION_BUFFER};
use crate::primitives::{Account, Address, Hash256, Receipt, RecoveredBlock, Signature, SignedTx};
use crate::record::{ExecutedBlockRecord, HashedPostState, TrieUpdates};
use crate::recovery::keccak256;

verus! {

/// Gas consumed by a plain value transfer.
pub const MIN_TRANSACTION_GAS: u64 = 21000;

/// The fee one builder transaction charges: the full transfer gas at the
/// initial base fee.
pub open spec fn single_tx_cost_spec() -> int {
    INITIAL_BASE_FEE * MIN_TRANSACTION_GAS
}

/// The base fee of the first fee-market block.
pub const INITIAL_BASE_FEE: u64 = 1000000000;

/// The chain parameters the builder reads: the chain id that goes into each
/// transaction, and the activation time used as the base of block timestamps.
#[derive(Clone, Copy, Debug, PartialEq, Eq, Structural)]
pub struct ChainSpec {
    pub chain_id: u64,
    pub activation_timestamp: u64,
}

impl Default for ChainSpec {
    /// The main chain's id, with timestamps based at the fee-market epoch.
    fn default() -> (r: Self)
        ensures
            r.chain_id == 1,
            r.activation_timestamp == 1710338135,
    {
        ChainSpec { chain_id: 1, activation_timestamp: 1710338135 }
    }
}

/// Relies on `rand::random`: a random value; nothing is promised of it.
#[verifier::external_body]
fn random_u64() -> u64 {
    rand::random()
}

/// Relies on `rand::random`: random bytes; nothing is promised of them.
#[verifier::external_body]
fn random_bytes32() -> [u8; 32] {
    rand::random()
}

/// The recoverable ECDSA signature that the given secret key produces over
/// the given 32-byte prehash, as (r scalar, s scalar, y parity), or nothing
/// when the key bytes are not a valid secret key. Deterministic signing: the
/// result depends on the key and the prehash alone.
pub uninterp spec fn sign_of(sk: Seq<u8>, prehash: Seq<u8>) -> Option<(Seq<u8>, Seq<u8>, bool)>;

/// Relies on `k256::ecdsa::SigningKey::from_slice` and
/// `k256::ecdsa::SigningKey::sign_prehash_recoverable`: deterministic ECDSA
/// signing over secp256k1, a function of the secret key and the prehash.
#[verifier::external_body]
fn sign_prehash(sk: &[u8; 32], prehash: &Hash256) -> (out: Option<Signature>)
    ensures
        match out {
            Some(sig) => sign_of(sk@, prehash@) == Some((sig.r@, sig.s@, sig.odd_y_parity)),
            None => sign_of(sk@, prehash@) is None,
        },
{
    let key = k256::ecdsa::SigningKey::from_slice(sk).ok()?;
    let (sig, recid) = key.sign_prehash_recoverable(&prehash.bytes);
    let bytes = sig.to_bytes();
    let mut r = [0u8; 32];
    let mut s = [0u8; 32];
    r.copy_from_slice(&bytes[..32]);
    s.copy_from_slice(&bytes[32..]);
    let (r, s) = (Hash256 { bytes: r }, Hash256 { bytes: s });
    Some(Signature { r, s, odd_y_parity: recid.is_y_odd() })
}

/// The address belonging to a secret key, or nothing when the bytes are not a
/// valid secret key. A function of the key alone.
pub uninterp spec fn address_of_secret(sk: Seq<u8>) -> Option<Seq<u8>>;

/// Relies on `k256::ecdsa::SigningKey::from_slice` / `verifying_key` /
/// `to_sec1_point` and `alloy_primitives::Address::from_raw_public_key`: the
/// keccak-derived address of the key's uncompressed public point (whose
/// leading tag byte `from_raw_public_key` expects stripped).
#[verifier::external_body]
fn signer_address(sk: &[u8; 32]) -> (out: Option<Address>)
    ensures
        match out {
            Some(a) => address_of_secret(sk@) == Some(a@),
            None => address_of_secret(sk@) is None,
        },
{
    let key = k256::ecdsa::SigningKey::from_slice(sk).ok()?;
    let point = key.verifying_key().to_sec1_point(false);
    let address = alloy_primitives::Address::from_raw_public_key(&point.as_bytes()[1..]);
    Some(Address { bytes: address.into_array() })
}

/// Appends the big-endian bytes of a word.
fn push_u64_be(buf: &mut Vec<u8>, x: u64)
    ensures
        final(buf)@.len() == old(buf)@.len() + 8,
{
    let mut i: usize = 0;
    while i < 8
        invariant
            0 <= i <= 8,
            buf@.len() == old(buf)@.len() + i,
        decreases 8 - i,
    {
        let byte: u8 = ((x >> ((7 - i as u64) * 8)) & 0xff) as u8;
        buf.push(byte);
        i += 1;
    }
}

/// Functionality to build signed blocks for a configured signer, keeping
/// track of the signer's account as blocks are built and executed.
#[derive(Debug)]
pub struct TestBlockBuilder {
    /// The account that signs all the built blocks' transactions.
    pub signer: Address,
    /// The signer's secret key.
    pub signer_pk: [u8; 32],
    /// The signer's account as execution-outcome generation advances it.
    pub signer_execute_account_info: Account,
    /// The signer's account as block building advances it.
    pub signer_build_account_info: Account,
    /// Chain parameters of the built blocks.
    pub chain_spec: ChainSpec,
}

impl Default for TestBlockBuilder {
    /// A builder over a fresh random signer with a unit of balance, falling
    /// back to a fixed key when the random bytes are not a valid key.
    fn default() -> (r: Self)
        ensures
            r.signer_build_account_info.balance == 1000000000000000000u128,
            r.signer_build_account_info.nonce == 0,
            r.signer_execute_account_info == r.signer_build_account_info,
    {
        let initial = Account { balance: 1000000000000000000u128, nonce: 0 };
        let random_key = random_bytes32();
        let (signer_pk, signer) = match signer_address(&random_key) {
            Some(address) => (random_key, address),
            None => {
                let mut fixed = [0u8; 32];
                fixed[31] = 1;
                let address = match signer_address(&fixed) {
                    Some(a) => a,
                    None => Address { bytes: [0u8; 20] },
                };
                (fixed, address)
            },
        };
        TestBlockBuilder {
            signer,
            signer_pk,
            signer_execute_account_info: initial,
            signer_build_account_info: initial,
            chain_spec: ChainSpec::default(),
        }
    }
}

impl TestBlockBuilder {
    /// A builder for the main chain's parameters.
    pub fn eth() -> (r: Self)
        ensures
            r.signer_build_account_info.balance == 1000000000000000000u128,
            r.signer_build_account_info.nonce == 0,
            r.signer_execute_account_info == r.signer_build_account_info,
    {
        TestBlockBuilder::default()
    }

    /// Replaces the signing key, deriving the matching signer address; the
    /// builder is unchanged when the bytes are not a valid key.
    pub fn with_signer_pk(self, signer_pk: [u8; 32]) -> (r: Self)
        ensures
            address_of_secret(signer_pk@) matches Some(a) ==> r.signer_pk == signer_pk && r.signer@
                == a,
            address_of_secret(signer_pk@) is None ==> r == self,
    {
        match signer_address(&signer_pk) {
            Some(signer) => TestBlockBuilder { signer, signer_pk, ..self },
            None => self,
        }
    }

    /// Replaces the chain parameters.
    pub fn with_chain_spec(self, chain_spec: ChainSpec) -> (r: Self)
        ensures
            r.chain_spec == chain_spec,
            r.signer == self.signer,
            r.signer_pk == self.signer_pk,
            r.signer_execute_account_info == self.signer_execute_account_info,
            r.signer_build_account_info == self.signer_build_account_info,
    {
        TestBlockBuilder { chain_spec, ..self }
    }

    /// Gas cost of a single transaction generated by the block builder: the
    /// full transfer gas at the initial base fee.
    pub fn single_tx_cost() -> (c: u128)
        ensures
            c == single_tx_cost_spec(),
    {
        proof {
            assert(INITIAL_BASE_FEE as u128 * MIN_TRANSACTION_GAS as u128
                == 21000000000000u128) by (nonlinear_arith);
        }
        (INITIAL_BASE_FEE as u128) * (MIN_TRANSACTION_GAS as u128)
    }

    /// Builds one signed transaction for the signer with the given nonce,
    /// signed by the builder's key over the signing payload's digest; when
    /// the key bytes are not a valid secret key the signature is all zeros.
    fn mock_tx(&self, nonce: u64) -> (tx: SignedTx)
        ensures
            tx.nonce == nonce,
            tx.gas_limit == MIN_TRANSACTION_GAS,
            tx.max_fee_per_gas == INITIAL_BASE_FEE,
            tx.chain_id == self.chain_spec.chain_id,
            tx.tx_type == 2,
            sign_of(self.signer_pk@, crate::recovery::keccak_of(tx.signing_payload@)) matches Some(
                t,
            ) ==> tx.signature.r@ == t.0 && tx.signature.s@ == t.1 && tx.signature.odd_y_parity
                == t.2,
            tx.hash@ == crate::recovery::keccak_of(tx.encoded@),
    {
        let mut signing_payload: Vec<u8> = Vec::new();
        signing_payload.push(2u8);
        push_u64_be(&mut signing_payload, self.chain_spec.chain_id);
        push_u64_be(&mut signing_payload, nonce);
        push_u64_be(&mut signing_payload, MIN_TRANSACTION_GAS);
        push_u64_be(&mut signing_payload, INITIAL_BASE_FEE);
        let signature_hash = keccak256(signing_payload.as_slice());
        let signature = match sign_prehash(&self.signer_pk, &signature_hash) {
            Some(sig) => sig,
            None => Signature {
                r: Hash256 { bytes: [0u8; 32] },
                s: Hash256 { bytes: [0u8; 32] },
                odd_y_parity: false,
            },
        };
        let mut encoded: Vec<u8> = Vec::new();
        let m = signing_payload.len();
        let mut i: usize = 0;
        while i < m
            invariant
                0 <= i <= m,
                m == signing_payload@.len(),
            decreases m - i,
        {
            encoded.push(signing_payload[i]);
            i += 1;
        }
        encoded.push(if signature.odd_y_parity {
            1u8
        } else {
            0u8
        });
        let hash = keccak256(encoded.as_slice());
        SignedTx {
            tx_type: 2,
            chain_id: self.chain_spec.chain_id,
            nonce,
            gas_limit: MIN_TRANSACTION_GAS,
            max_fee_per_gas: INITIAL_BASE_FEE,
            signing_payload,
            encoded,
            hash,
            signature,
        }
    }

    /// Builds a block with a small random number of signed transactions on
    /// the given parent, advancing the signer's building account.
    pub fn generate_random_block(&mut self, number: u64, parent_hash: Hash256) -> (r: RecoveredBlock)
        requires
            old(self).signer_build_account_info.nonce + 4 <= 0xffffffffffffffffu64,
        ensures
            r@.wf(),
            r.number == number,
            r.parent_hash@ == parent_hash@,
            r.transactions@.len() < 5,
            r.gas_used == r.transactions@.len() * MIN_TRANSACTION_GAS,
            forall|i: int| 0 <= i < r.senders@.len() ==> r.senders@[i]@ == old(self).signer@,
            forall|i: int| 0 <= i < r.transactions@.len()
                ==> (#[trigger] r.transactions@[i]).nonce == old(
                self,
            ).signer_build_account_info.nonce + i && r.transactions@[i].gas_limit
                == MIN_TRANSACTION_GAS && r.transactions@[i].max_fee_per_gas == INITIAL_BASE_FEE,
            forall|i: int| 0 <= i < r.transactions@.len() ==> (sign_of(
                old(self).signer_pk@,
                crate::recovery::keccak_of((#[trigger] r.transactions@[i]).signing_payload@),
            ) matches Some(t) ==> r.transactions@[i].signature.r@ == t.0
                && r.transactions@[i].signature.s@ == t.1
                && r.transactions@[i].signature.odd_y_parity == t.2),
            r.timestamp as int == if number + old(self).chain_spec.activation_timestamp
                > 0xffffffffffffffffu64 {
                0xffffffffffffffffu64 as int
            } else {
                number + old(self).chain_spec.activation_timestamp
            },
            final(self).signer == old(self).signer,
            final(self).signer_pk == old(self).signer_pk,
            final(self).chain_spec == old(self).chain_spec,
            final(self).signer_build_account_info.nonce == old(
                self,
            ).signer_build_account_info.nonce + r.transactions@.len(),
    {
        let num_txs = (random_u64() % 5) as usize;
        let mut transactions: Vec<SignedTx> = Vec::new();
        let mut senders: Vec<Address> = Vec::new();
        let base_nonce = self.signer_build_account_info.nonce;
        let mut i: usize = 0;
        while i < num_txs
            invariant
                0 <= i <= num_txs,
                num_txs < 5,
                *self == *old(self),
                base_nonce == old(self).signer_build_account_info.nonce,
                base_nonce + 4 <= 0xffffffffffffffffu64,
                transactions@.len() == i,
                senders@.len() == i,
                forall|j: int| 0 <= j < i ==> senders@[j]@ == old(self).signer@,
                forall|j: int| 0 <= j < i ==> (#[trigger] transactions@[j]).nonce == base_nonce + j
                    && transactions@[j].gas_limit == MIN_TRANSACTION_GAS
                    && transactions@[j].max_fee_per_gas == INITIAL_BASE_FEE,
                forall|j: int| 0 <= j < i ==> (sign_of(
                    old(self).signer_pk@,
                    crate::recovery::keccak_of((#[trigger] transactions@[j]).signing_payload@),
                ) matches Some(t) ==> transactions@[j].signature.r@ == t.0
                    && transactions@[j].signature.s@ == t.1
                    && transactions@[j].signature.odd_y_parity == t.2),
            decreases num_txs - i,
        {
            let tx = self.mock_tx(base_nonce + i as u64);
            transactions.push(tx);
            senders.push(self.signer);
            i += 1;
        }
        let balance = self.signer_build_account_info.balance;
        let spent = TestBlockBuilder::single_tx_cost() * (num_txs as u128);
        self.signer_build_account_info = Account {
            balance: if spent > balance {
                0
            } else {
                balance - spent
            },
            nonce: base_nonce + num_txs as u64,
        };
        let gas_used = (num_txs as u64) * MIN_TRANSACTION_GAS;
        let timestamp = if number > u64::MAX - self.chain_spec.activation_timestamp {
            u64::MAX
        } else {
            number + self.chain_spec.activation_timestamp
        };
        let mut header_bytes: Vec<u8> = Vec::new();
        push_u64_be(&mut header_bytes, number);
        let mix = random_bytes32();
        let mut k: usize = 0;
        while k < 32
            invariant
                0 <= k <= 32,
            decreases 32 - k,
        {
            header_bytes.push(mix[k]);
            k += 1;
        }
        let hash = keccak256(header_bytes.as_slice());
        RecoveredBlock {
            number,
            hash,
            parent_hash,
            timestamp,
            gas_used,
            transactions,
            senders,
        }
    }

    /// Builds a fork of the given length on top of a base block: each block's
    /// parent is its predecessor, starting from the base.
    pub fn create_fork(&mut self, base_block: &RecoveredBlock, length: u64) -> (r: Vec<
        RecoveredBlock,
    >)
        requires
            old(self).signer_build_account_info.nonce + 4 * length <= 0xffffffffffffffffu64,
            base_block.number + length < 0x10000000000000000,
        ensures
            r@.len() == length,
            forall|i: int| 0 <= i < r@.len() ==> (#[trigger] r@[i]).number == base_block.number + 1
                + i,
            r@.len() > 0 ==> r@[0].parent_hash@ == base_block.hash@,
            forall|i: int| 1 <= i < r@.len() ==> (#[trigger] r@[i]).parent_hash@ == r@[i
                - 1].hash@,
    {
        let mut fork: Vec<RecoveredBlock> = Vec::new();
        let mut parent_hash = base_block.hash;
        let mut i: u64 = 0;
        while i < length
            invariant
                0 <= i <= length,
                base_block.number + length < 0x10000000000000000,
                fork@.len() == i,
                self.signer_build_account_info.nonce as int <= old(
                    self,
                ).signer_build_account_info.nonce + 4 * i,
                old(self).signer_build_account_info.nonce + 4 * length
                    <= 0xffffffffffffffffu64,
                self.signer == old(self).signer,
                self.signer_pk == old(self).signer_pk,
                self.chain_spec == old(self).chain_spec,
                forall|j: int| 0 <= j < i ==> (#[trigger] fork@[j]).number == base_block.number + 1
                    + j,
                i > 0 ==> fork@[0].parent_hash@ == base_block.hash@,
                i > 0 ==> parent_hash@ == fork@[i - 1].hash@,
                i == 0 ==> parent_hash@ == base_block.hash@,
                forall|j: int| 1 <= j < i ==> (#[trigger] fork@[j]).parent_hash@ == fork@[j
                    - 1].hash@,
            decreases length - i,
        {
            let block = self.generate_random_block(base_block.number + 1 + i, parent_hash);
            parent_hash = block.hash;
            fork.push(block);
            i += 1;
        }
        fork
    }

    /// Builds an executed-block record for a block with the given number,
    /// receipts and parent.
    fn get_executed_block(
        &mut self,
        block_number: u64,
        receipts: Vec<Vec<Receipt>>,
        parent_hash: Hash256,
    ) -> (r: ExecutedBlockRecord)
        requires
            old(self).signer_build_account_info.nonce + 4 <= 0xffffffffffffffffu64,
        ensures
            r.recovered_block@.wf(),
            r.recovered_block.number == block_number,
            r.recovered_block.parent_hash@ == parent_hash@,
            r.execution_outcome.first_block == block_number,
            r.execution_outcome.receipts == receipts,
            r.execution_outcome.bundle.accounts@.len() == 0,
            r.hashed_post_state.accounts@.len() == 0,
            r.trie_updates.account_nodes@.len() == 0,
            final(self).signer_build_account_info.nonce <= old(
                self,
            ).signer_build_account_info.nonce + 4,
    {
        let block = self.generate_random_block(block_number, parent_hash);
        let outcome = ExecutionOutcome {
            bundle: StateView::new(),
            receipts,
            first_block: block_number,
        };
        ExecutedBlockRecord::new(
            Arc::new(block),
            Arc::new(outcome),
            Arc::new(HashedPostState::empty()),
            Arc::new(TrieUpdates::empty()),
        )
    }

    /// Builds an executed-block record carrying the given receipts, under a
    /// random block number.
    pub fn get_executed_block_with_receipts(
        &mut self,
        receipts: Vec<Vec<Receipt>>,
        parent_hash: Hash256,
    ) -> (r: ExecutedBlockRecord)
        requires
            old(self).signer_build_account_info.nonce + 4 <= 0xffffffffffffffffu64,
        ensures
            r.recovered_block@.wf(),
            r.recovered_block.parent_hash@ == parent_hash@,
            r.execution_outcome.first_block == r.recovered_block.number,
            r.execution_outcome.receipts == receipts,
            r.execution_outcome.bundle.accounts@.len() == 0,
            r.hashed_post_state.accounts@.len() == 0,
            r.trie_updates.account_nodes@.len() == 0,
            final(self).signer_build_account_info.nonce <= old(
                self,
            ).signer_build_account_info.nonce + 4,
    {
        let number = random_u64();
        self.get_executed_block(number, receipts, parent_hash)
    }

    /// Builds an executed-block record with the given block number and no
    /// receipts.
    pub fn get_executed_block_with_number(&mut self, block_number: u64, parent_hash: Hash256) -> (r:
        ExecutedBlockRecord)
        requires
            old(self).signer_build_account_info.nonce + 4 <= 0xffffffffffffffffu64,
        ensures
            r.recovered_block@.wf(),
            r.recovered_block.number == block_number,
            r.recovered_block.parent_hash@ == parent_hash@,
            r.execution_outcome.first_block == block_number,
            r.execution_outcome.receipts@.len() == 1,
            r.execution_outcome.receipts@[0]@.len() == 0,
            r.execution_outcome.bundle.accounts@.len() == 0,
            r.hashed_post_state.accounts@.len() == 0,
            r.trie_updates.account_nodes@.len() == 0,
            final(self).signer_build_account_info.nonce <= old(
                self,
            ).signer_build_account_info.nonce + 4,
    {
        let mut receipts: Vec<Vec<Receipt>> = Vec::new();
        receipts.push(Vec::new());
        self.get_executed_block(block_number, receipts, parent_hash)
    }

    /// Builds executed-block records for the numbers `start..end`, each
    /// block's parent being its predecessor.
    pub fn get_executed_blocks(&mut self, start: u64, end: u64) -> (r: Vec<ExecutedBlockRecord>)
        requires
            start <= end ==> old(self).signer_build_account_info.nonce + 4 * (end - start)
                <= 0xffffffffffffffffu64,
        ensures
            start > end ==> r@.len() == 0,
            start <= end ==> r@.len() == end - start,
            forall|i: int| 0 <= i < r@.len() ==> (#[trigger] r@[i]).recovered_block.number == start
                + i,
            r@.len() > 0 ==> forall|j: int| 0 <= j < 32 ==> r@[0].recovered_block.parent_hash@[j]
                == 0u8,
            forall|i: int| 1 <= i < r@.len() ==> (#[trigger] r@[i]).recovered_block.parent_hash@
                == r@[i - 1].recovered_block.hash@,
            forall|i: int| 0 <= i < r@.len() ==> (#[trigger] r@[i]).execution_outcome.receipts@.len()
                == 1 && r@[i].execution_outcome.receipts@[0]@.len() == 0,
    {
        if start > end {
            let empty: Vec<ExecutedBlockRecord> = Vec::new();
            return empty;
        }
        let mut records: Vec<ExecutedBlockRecord> = Vec::new();
        let mut parent_hash = Hash256::zero();
        let mut number = start;
        while number < end
            invariant
                start <= number <= end,
                records@.len() == number - start,
                self.signer_build_account_info.nonce as int <= old(
                    self,
                ).signer_build_account_info.nonce + 4 * (number - start),
                old(self).signer_build_account_info.nonce + 4 * (end - start)
                    <= 0xffffffffffffffffu64,
                forall|i: int| 0 <= i < records@.len() ==> (#[trigger] records@[
                    i]).recovered_block.number == start + i,
                records@.len() > 0 ==> forall|j: int| 0 <= j < 32 ==> records@[
                    0].recovered_block.parent_hash@[j] == 0u8,
                records@.len() == 0 ==> forall|j: int| 0 <= j < 32 ==> parent_hash@[j] == 0u8,
                records@.len() > 0 ==> parent_hash@ == records@[records@.len()
                    - 1].recovered_block.hash@,
                forall|i: int| 1 <= i < records@.len() ==> (#[trigger] records@[
                    i]).recovered_block.parent_hash@ == records@[i - 1].recovered_block.hash@,
                forall|i: int| 0 <= i < records@.len() ==> (#[trigger] records@[
                    i]).execution_outcome.receipts@.len() == 1 && records@[
                    i].execution_outcome.receipts@[0]@.len() == 0,
            decreases end - number,
        {
            let record = self.get_executed_block_with_number(number, parent_hash);
            parent_hash = record.recovered_block().hash;
            records.push(record);
            number = number + 1;
        }
        records
    }

    /// The execution outcome for a block created with this builder: one
    /// receipt per transaction with cumulative transfer gas, and the signer's
    /// account with the fees deducted, advancing the execute-side account.
    pub fn get_execution_outcome(&mut self, block: RecoveredBlock) -> (r: ExecutionOutcome)
        requires
            block@.wf(),
            block.transactions@.len() < 0x100000000,
        ensures
            r.first_block == block.number,
            r.receipts@.len() == 1,
            r.receipts@[0]@.len() == block.transactions@.len(),
            forall|i: int| 0 <= i < block.transactions@.len() ==> (#[trigger] r.receipts@[0]@[
                i]).success == true && r.receipts@[0]@[i].cumulative_gas_used == (i + 1)
                * MIN_TRANSACTION_GAS,
            final(self).signer == old(self).signer,
            final(self).signer_pk == old(self).signer_pk,
            final(self).chain_spec == old(self).chain_spec,
            final(self).signer_build_account_info == old(self).signer_build_account_info,
            final(self).signer_execute_account_info.nonce == old(
                self,
            ).signer_execute_account_info.nonce,
            final(self).signer_execute_account_info.balance <= old(
                self,
            ).signer_execute_account_info.balance,
            old(self).signer_execute_account_info.balance >= block.transactions@.len()
                * single_tx_cost_spec() ==> final(self).signer_execute_account_info.balance == old(
                self,
            ).signer_execute_account_info.balance - block.transactions@.len()
                * single_tx_cost_spec(),
            block.transactions@.len() == 0 ==> r.bundle.accounts@.len() == 0,
            block.transactions@.len() > 0 ==> crate::chain::lookup_account(
                r.bundle.accounts@,
                old(self).signer@,
            ) == Some(
                (Account {
                    nonce: block.transactions@.last().nonce,
                    balance: final(self).signer_execute_account_info.balance,
                }),
            ),
    {
        let n = block.transactions.len();
        let mut block_receipts: Vec<Receipt> = Vec::new();
        let mut i: usize = 0;
        let mut bundle = StateView::new();
        while i < n
            invariant
                0 <= i <= n,
                n == block.transactions@.len(),
                n < 0x100000000,
                block_receipts@.len() == i,
                bundle.wf(),
                self.signer == old(self).signer,
                self.signer_pk == old(self).signer_pk,
                self.chain_spec == old(self).chain_spec,
                self.signer_build_account_info == old(self).signer_build_account_info,
                self.signer_execute_account_info.nonce == old(
                    self,
                ).signer_execute_account_info.nonce,
                self.signer_execute_account_info.balance <= old(
                    self,
                ).signer_execute_account_info.balance,
                old(self).signer_execute_account_info.balance >= n * single_tx_cost_spec()
                    ==> self.signer_execute_account_info.balance == old(
                    self,
                ).signer_execute_account_info.balance - i * single_tx_cost_spec(),
                i == 0 ==> bundle.accounts@.len() == 0,
                i > 0 ==> crate::chain::lookup_account(bundle.accounts@, old(self).signer@)
                    == Some(
                    (Account {
                        nonce: block.transactions@[i - 1].nonce,
                        balance: self.signer_execute_account_info.balance,
                    }),
                ),
                forall|j: int| 0 <= j < i ==> (#[trigger] block_receipts@[j]).success == true
                    && block_receipts@[j].cumulative_gas_used == (j + 1) * MIN_TRANSACTION_GAS,
            decreases n - i,
        {
            proof {
                assert((i + 1) * MIN_TRANSACTION_GAS <= 0x100000000u64 * MIN_TRANSACTION_GAS)
                    by (nonlinear_arith)
                    requires
                        0 <= i < 0x100000000u64,
                ;
            }
            block_receipts.push(
                Receipt {
                    success: true,
                    cumulative_gas_used: (i as u64 + 1) * MIN_TRANSACTION_GAS,
                },
            );
            let cost = TestBlockBuilder::single_tx_cost();
            let balance = self.signer_execute_account_info.balance;
            self.signer_execute_account_info = Account {
                balance: if cost > balance {
                    0
                } else {
                    balance - cost
                },
                nonce: self.signer_execute_account_info.nonce,
            };
            let signer = self.signer;
            bundle.set(
                signer,
                Account {
                    nonce: block.transactions[i].nonce,
                    balance: self.signer_execute_account_info.balance,
                },
            );
            i += 1;
        }
        let mut receipts: Vec<Vec<Receipt>> = Vec::new();
        receipts.push(block_receipts);
        ExecutionOutcome { bundle, receipts, first_block: block.number }
    }
}

/// A canonical-state subscription registry driven by hand: commits and
/// reorganizations are queued explicitly and consumed through the hub's
/// subscriber handles.
#[derive(Debug)]
pub struct TestCanonStateSubscriptions {
    pub hub: CanonicalStateHub,
}

impl Default for TestCanonStateSubscriptions {
    /// An empty registry.
    fn default() -> (r: Self)
        ensures
            r.hub.wf(),
            r.hub.slots@.len() == 0,
            r.hub.next_id == 0,
    {
        TestCanonStateSubscriptions { hub: CanonicalStateHub::new() }
    }
}

impl TestCanonStateSubscriptions {
    /// Queues a block commit for every current subscriber.
    pub fn add_next_commit(&mut self, new: Arc<Chain>)
        requires
            old(self).hub.wf(),
            new.wf(),
            new.blocks@.len() > 0,
        ensures
            final(self).hub.wf(),
            final(self).hub.next_id == old(self).hub.next_id,
            models(final(self).hub.slots@) == deliver_all(
                models(old(self).hub.slots@),
                CanonStateNotification::Commit { new },
            ),
    {
        self.hub.publish_commit(new)
    }

    /// Queues a reorganization for every current subscriber.
    pub fn add_next_reorg(&mut self, old_chain: Arc<Chain>, new: Arc<Chain>)
        requires
            old(self).hub.wf(),
            old_chain.wf(),
            new.wf(),
            new.blocks@.len() > 0,
        ensures
            final(self).hub.wf(),
            final(self).hub.next_id == old(self).hub.next_id,
            models(final(self).hub.slots@) == deliver_all(
                models(old(self).hub.slots@),
                CanonStateNotification::Reorg { old: old_chain, new },
            ),
    {
        self.hub.publish_reorg(old_chain, new)
    }

    /// Registers a subscriber with a buffer of one hundred pending
    /// notifications and returns its handle.
    pub fn subscribe_to_canonical_state(&mut self) -> (id: u64)
        requires
            old(self).hub.wf(),
            old(self).hub.next_id < 0xffffffffffffffffu64,
        ensures
            final(self).hub.wf(),
            id == old(self).hub.next_id,
            final(self).hub.next_id == old(self).hub.next_id + 1,
            final(self).hub.slots@.len() == old(self).hub.slots@.len() + 1,
            forall|i: int| 0 <= i < old(self).hub.slots@.len() ==> final(self).hub.slots@[i]
                == old(self).hub.slots@[i],
            final(self).hub.slots@.last()@.id == id,
            final(self).hub.slots@.last()@.queue == Seq::<CanonStateNotification>::empty(),
            final(self).hub.slots@.last()@.capacity == NOTIFICATION_BUFFER as nat,
            final(self).hub.slots@.last()@.closed == false,
    {
        self.hub.subscribe()
    }
}

} // verus!
