//! The execution model: a session that executes blocks one at a time against
//! a rolling account state, charging each transaction's full gas limit at its
//! maximum fee per gas to the recovered sender and advancing its nonce.
//!
//! The session mirrors the executor capability that range re-execution
//! consumes: execute one block, report its receipts and gas, keep the state
//! change inside, and hand the accumulated net diff out once at the end.

use vstd::prelude::*;

use crate::chain::{spec_set, BlockExecutionOutput, BlockExecutionResult, StateView};
use crate::primitives::{Account, Address, BlockView, Receipt, RecoveredBlock, TxView};

verus! {

/// Why a backfill operation stopped. Every variant carries the offending
/// block number; all are terminal for the operation that raised them.
#[derive(Clone, Copy, Debug, PartialEq, Eq, Structural)]
pub enum BackfillError {
    /// The provider has no block with this number.
    BlockNotFound(u64),
    /// The provider cannot materialize historical state as of this block.
    StateUnavailable(u64),
    /// Executing the block with this number failed.
    Execution(u64),
}

/// What one transaction does to its sender's account, or nothing when the
/// sender is unknown, the nonce does not match, the balance does not cover
/// the fee, or the nonce would overflow.
pub open spec fn exec_tx_spec(state: Seq<(Address, Account)>, tx: TxView, sender: Address) -> Option<Account> {
    match crate::chain::lookup_account(state, sender@) {
        None => None,
        Some(acct) => if acct.nonce == tx.nonce && acct.nonce < 0xffffffffffffffffu64
            && acct.balance >= tx.cost() {
            Some(
                Account {
                    balance: (acct.balance - tx.cost()) as u128,
                    nonce: (acct.nonce + 1) as u64,
                },
            )
        } else {
            None
        },
    }
}

/// Executes the given transactions in order against the rolling state,
/// threading the accumulated diff, the cumulative gas of the block and the
/// receipts; `None` on the first failing transaction or on gas overflow.
pub open spec fn exec_txs_spec(
    state: Seq<(Address, Account)>,
    diff: Seq<(Address, Account)>,
    txs: Seq<TxView>,
    senders: Seq<Address>,
    gas: u64,
    receipts: Seq<Receipt>,
) -> Option<(Seq<(Address, Account)>, Seq<(Address, Account)>, u64, Seq<Receipt>)>
    decreases txs.len(),
{
    if txs.len() == 0 {
        Some((state, diff, gas, receipts))
    } else {
        let tx = txs[0];
        let sender = senders[0];
        if gas + tx.gas_limit > 0xffffffffffffffffu64 {
            None
        } else {
            match exec_tx_spec(state, tx, sender) {
                None => None,
                Some(acct) => {
                    let g = (gas + tx.gas_limit) as u64;
                    exec_txs_spec(
                        spec_set(state, sender, acct),
                        spec_set(diff, sender, acct),
                        txs.drop_first(),
                        senders.drop_first(),
                        g,
                        receipts.push(Receipt { success: true, cumulative_gas_used: g }),
                    )
                },
            }
        }
    }
}

/// Executes a whole block against the rolling state: its transactions in
/// order, starting from zero cumulative gas and no receipts.
pub open spec fn exec_block_spec(
    state: Seq<(Address, Account)>,
    diff: Seq<(Address, Account)>,
    block: BlockView,
) -> Option<(Seq<(Address, Account)>, Seq<(Address, Account)>, u64, Seq<Receipt>)> {
    exec_txs_spec(state, diff, block.transactions, block.senders, 0, Seq::empty())
}

/// The total fee of a run of transactions.
pub open spec fn total_cost(txs: Seq<TxView>) -> int
    decreases txs.len(),
{
    if txs.len() == 0 {
        0
    } else {
        txs[0].cost() + total_cost(txs.drop_first())
    }
}

/// Executing transactions that all come from one sender charges that sender
/// exactly the sum of their fees and advances its nonce once per transaction,
/// both in the rolling state and in the accumulated diff.
pub proof fn lemma_exec_txs_charges_sender(
    state: Seq<(Address, Account)>,
    diff: Seq<(Address, Account)>,
    txs: Seq<TxView>,
    senders: Seq<Address>,
    gas: u64,
    receipts: Seq<Receipt>,
    s: Address,
    acct: Account,
)
    requires
        senders.len() == txs.len(),
        forall|i: int| 0 <= i < senders.len() ==> (#[trigger] senders[i])@ == s@,
        crate::chain::lookup_account(state, s@) == Some(acct),
        exec_txs_spec(state, diff, txs, senders, gas, receipts) is Some,
    ensures
        exec_txs_spec(state, diff, txs, senders, gas, receipts) matches Some(t) && {
            &&& crate::chain::lookup_account(t.0, s@) matches Some(a2) && a2.balance == acct.balance
                - total_cost(txs) && a2.nonce == acct.nonce + txs.len()
            &&& txs.len() > 0 ==> crate::chain::lookup_account(t.1, s@)
                == crate::chain::lookup_account(t.0, s@)
        },
    decreases txs.len(),
{
    if txs.len() == 0 {
    } else {
        let tx = txs[0];
        let sender = senders[0];
        let updated = exec_tx_spec(state, tx, sender).unwrap();
        assert(updated.balance == acct.balance - tx.cost());
        assert(updated.nonce == acct.nonce + 1);
        let g = (gas + tx.gas_limit) as u64;
        let state2 = spec_set(state, sender, updated);
        let diff2 = spec_set(diff, sender, updated);
        crate::chain::lemma_lookup_spec_set(state, sender, updated, s@);
        assert(crate::chain::lookup_account(state2, s@) == Some(updated));
        assert forall|i: int| 0 <= i < senders.drop_first().len() implies (
        #[trigger] senders.drop_first()[i])@ == s@ by {
            assert(senders.drop_first()[i] == senders[i + 1]);
        }
        lemma_exec_txs_charges_sender(
            state2,
            diff2,
            txs.drop_first(),
            senders.drop_first(),
            g,
            receipts.push(Receipt { success: true, cumulative_gas_used: g }),
            s,
            updated,
        );
        if txs.drop_first().len() == 0 {
            crate::chain::lemma_lookup_spec_set(diff, sender, updated, s@);
        }
    }
}

/// Executing a whole block whose transactions all come from one sender leaves
/// that sender, in both the post state and the net diff, with its balance
/// reduced by exactly the total fee of the included transactions: the general
/// form of the known-balance backfill scenario.
pub proof fn lemma_exec_block_charges_sender(
    state: Seq<(Address, Account)>,
    diff: Seq<(Address, Account)>,
    block: BlockView,
    s: Address,
    acct: Account,
)
    requires
        block.wf(),
        forall|i: int| 0 <= i < block.senders.len() ==> (#[trigger] block.senders[i])@ == s@,
        crate::chain::lookup_account(state, s@) == Some(acct),
        exec_block_spec(state, diff, block) is Some,
    ensures
        exec_block_spec(state, diff, block) matches Some(t) && {
            &&& crate::chain::lookup_account(t.0, s@) matches Some(a2) && a2.balance == acct.balance
                - total_cost(block.transactions) && a2.nonce == acct.nonce
                + block.transactions.len()
            &&& block.transactions.len() > 0 ==> crate::chain::lookup_account(t.1, s@)
                == crate::chain::lookup_account(t.0, s@)
        },
{
    lemma_exec_txs_charges_sender(
        state,
        diff,
        block.transactions,
        block.senders,
        0,
        Seq::empty(),
        s,
        acct,
    );
}

/// An execution session: the rolling account state, pinned at batch start,
/// and the net diff accumulated over every block executed so far.
#[derive(Clone, Debug)]
pub struct BlockExecutor {
    pub state: StateView,
    pub diff: StateView,
}

impl BlockExecutor {
    /// Both account lists keep unique keys.
    pub open spec fn wf(self) -> bool {
        self.state.wf() && self.diff.wf()
    }

    /// The rolling state.
    pub open spec fn state_spec(self) -> Seq<(Address, Account)> {
        self.state.accounts@
    }

    /// The accumulated net diff.
    pub open spec fn diff_spec(self) -> Seq<(Address, Account)> {
        self.diff.accounts@
    }

    /// Opens a session on a state view, with an empty diff.
    pub fn new(state: StateView) -> (r: Self)
        requires
            state.wf(),
        ensures
            r.wf(),
            r.state_spec() == state.accounts@,
            r.diff_spec() == Seq::<(Address, Account)>::empty(),
    {
        let r = BlockExecutor { state, diff: StateView::new() };
        proof {
            assert(r.diff.accounts@ =~= Seq::<(Address, Account)>::empty());
        }
        r
    }

    /// An estimate of the accumulated diff's size: the number of accounts it
    /// touches.
    pub fn size_hint(&self) -> (n: usize)
        ensures
            n == self.diff_spec().len(),
    {
        self.diff.len()
    }

    /// Executes one block against the rolling state, reporting its receipts
    /// and gas; the state change accumulates inside the session. Fails, with
    /// the block's number, exactly when the block's transaction run fails;
    /// the session is then unusable and the batch is abandoned.
    pub fn execute_one(&mut self, block: &RecoveredBlock) -> (out: Result<BlockExecutionResult, BackfillError>)
        requires
            old(self).wf(),
            block.wf(),
        ensures
            final(self).wf(),
            match out {
                Ok(res) => {
                    &&& exec_block_spec(old(self).state_spec(), old(self).diff_spec(), block@)
                        matches Some(t)
                    &&& final(self).state_spec() == t.0
                    &&& final(self).diff_spec() == t.1
                    &&& res.gas_used == t.2
                    &&& res.receipts@ == t.3
                },
                Err(e) => {
                    &&& exec_block_spec(old(self).state_spec(), old(self).diff_spec(), block@) is None
                    &&& e == BackfillError::Execution(block.number)
                },
            },
    {
        let n = block.transactions.len();
        let mut i: usize = 0;
        let mut gas: u64 = 0;
        let mut receipts: Vec<Receipt> = Vec::new();
        proof {
            assert(block@.transactions.skip(0) =~= block@.transactions);
            assert(block@.senders.skip(0) =~= block@.senders);
            assert(receipts@ =~= Seq::<Receipt>::empty());
        }
        while i < n
            invariant
                0 <= i <= n,
                n == block.transactions@.len(),
                n == block.senders@.len(),
                self.wf(),
                exec_block_spec(old(self).state_spec(), old(self).diff_spec(), block@)
                    == exec_txs_spec(
                    self.state_spec(),
                    self.diff_spec(),
                    block@.transactions.skip(i as int),
                    block@.senders.skip(i as int),
                    gas,
                    receipts@,
                ),
            decreases n - i,
        {
            let ghost pre_state = self.state_spec();
            let ghost pre_diff = self.diff_spec();
            let ghost txs_rest = block@.transactions.skip(i as int);
            let ghost senders_rest = block@.senders.skip(i as int);
            let sender = block.senders[i];
            proof {
                assert(txs_rest[0] == block@.transactions[i as int]);
                assert(block@.transactions[i as int] == block.transactions@[i as int]@);
                assert(senders_rest[0] == block@.senders[i as int]);
            }
            if block.transactions[i].gas_limit > u64::MAX - gas {
                return Err(BackfillError::Execution(block.number));
            }
            let account = match self.state.get(&sender) {
                None => {
                    return Err(BackfillError::Execution(block.number));
                },
                Some(a) => a,
            };
            let cost = block.transactions[i].cost();
            if !(account.nonce == block.transactions[i].nonce && account.nonce < u64::MAX
                && account.balance >= cost) {
                return Err(BackfillError::Execution(block.number));
            }
            let updated = Account { balance: account.balance - cost, nonce: account.nonce + 1 };
            proof {
                assert(exec_tx_spec(pre_state, txs_rest[0], senders_rest[0]) == Some(updated));
            }
            gas = gas + block.transactions[i].gas_limit;
            self.state.set(sender, updated);
            self.diff.set(sender, updated);
            receipts.push(Receipt { success: true, cumulative_gas_used: gas });
            i += 1;
            proof {
                assert(txs_rest.drop_first() =~= block@.transactions.skip(i as int));
                assert(senders_rest.drop_first() =~= block@.senders.skip(i as int));
            }
        }
        proof {
            assert(block@.transactions.skip(n as int) =~= Seq::<TxView>::empty());
            assert(block@.senders.skip(n as int) =~= Seq::<Address>::empty());
        }
        Ok(BlockExecutionResult { receipts, gas_used: gas })
    }

    /// Closes the session and hands out the accumulated net state diff
    /// ("bundle").
    pub fn into_state(self) -> (d: StateView)
        ensures
            d.accounts@ == self.diff_spec(),
            self.wf() ==> d.wf(),
    {
        self.diff
    }

    /// Executes a single block in isolation and packages its receipts, gas
    /// and net state change; the degenerate single-block mode of a session.
    pub fn execute(self, block: &RecoveredBlock) -> (out: Result<BlockExecutionOutput, BackfillError>)
        requires
            self.wf(),
            block.wf(),
        ensures
            match out {
                Ok(res) => {
                    &&& exec_block_spec(self.state_spec(), self.diff_spec(), block@) matches Some(t)
                    &&& res.state.accounts@ == t.1
                    &&& res.gas_used == t.2
                    &&& res.receipts@ == t.3
                },
                Err(e) => {
                    &&& exec_block_spec(self.state_spec(), self.diff_spec(), block@) is None
                    &&& e == BackfillError::Execution(block.number)
                },
            },
    {
        let mut session = self;
        match session.execute_one(block) {
            Ok(res) => Ok(
                BlockExecutionOutput {
                    state: session.into_state(),
                    receipts: res.receipts,
                    gas_used: res.gas_used,
                },
            ),
            Err(e) => Err(e),
        }
    }
}

/// Provides execution sessions over state views: the executor capability the
/// re-execution jobs consume.
#[derive(Clone, Copy, Debug, Default, PartialEq, Eq, Structural)]
pub struct ExecutorFactory;

impl ExecutorFactory {
    /// Opens an execution session pinned to the given state view.
    pub fn executor(&self, state: StateView) -> (r: BlockExecutor)
        requires
            state.wf(),
        ensures
            r.wf(),
            r.state_spec() == state.accounts@,
            r.diff_spec() == Seq::<(Address, Account)>::empty(),
    {
        BlockExecutor::new(state)
    }
}

} // verus!
