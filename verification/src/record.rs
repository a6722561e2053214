//! The atomic unit exchanged between the re-execution jobs and the
//! notification fabric: a block, its execution outcome, and the post-state
//! trie material, each independently shareable and immutable once built.

use vstd::prelude::*;

use std::sync::Arc;

use crate::chain::ExecutionOutcome;
use crate::primitives::{Account, Hash256, RecoveredBlock};

verus! {

/// Account state keyed by hashed address, as the trie sees it after
/// execution.
#[derive(Clone, Debug, PartialEq, Eq)]
pub struct HashedPostState {
    pub accounts: Vec<(Hash256, Account)>,
}

impl HashedPostState {
    /// No accounts touched.
    pub fn empty() -> (r: Self)
        ensures
            r.accounts@.len() == 0,
    {
        HashedPostState { accounts: Vec::new() }
    }
}

/// The trie nodes updated by a block's execution: node path to node blob.
#[derive(Clone, Debug, PartialEq, Eq)]
pub struct TrieUpdates {
    pub account_nodes: Vec<(Vec<u8>, Vec<u8>)>,
}

impl TrieUpdates {
    /// No nodes updated.
    pub fn empty() -> (r: Self)
        ensures
            r.account_nodes@.len() == 0,
    {
        TrieUpdates { account_nodes: Vec::new() }
    }
}

/// An executed block with everything its consumers read: the recovered block,
/// its execution outcome, and the post-state trie material. All four parts
/// are shared read-only; multiple subscribers may retain one record
/// concurrently, and none is mutated after construction — only superseded by
/// a later record.
#[derive(Clone, Debug)]
pub struct ExecutedBlockRecord {
    pub recovered_block: Arc<RecoveredBlock>,
    pub execution_outcome: Arc<ExecutionOutcome>,
    pub hashed_post_state: Arc<HashedPostState>,
    pub trie_updates: Arc<TrieUpdates>,
}

impl ExecutedBlockRecord {
    /// Assembles a record from its four shared parts.
    pub fn new(
        recovered_block: Arc<RecoveredBlock>,
        execution_outcome: Arc<ExecutionOutcome>,
        hashed_post_state: Arc<HashedPostState>,
        trie_updates: Arc<TrieUpdates>,
    ) -> (r: Self)
        ensures
            r.recovered_block == recovered_block,
            r.execution_outcome == execution_outcome,
            r.hashed_post_state == hashed_post_state,
            r.trie_updates == trie_updates,
    {
        ExecutedBlockRecord { recovered_block, execution_outcome, hashed_post_state, trie_updates }
    }

    /// The recovered block of this record.
    pub fn recovered_block(&self) -> (b: &Arc<RecoveredBlock>)
        ensures
            b == &self.recovered_block,
    {
        &self.recovered_block
    }
}

} // verus!
