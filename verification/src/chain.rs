//! Rolling account state, execution outcomes, and the batch ("chain") type
//! that one range-execution step emits.

use vstd::prelude::*;
use vstd::pervasive::VecAdditionalExecFns;

use crate::primitives::{Account, Address, Receipt, RecoveredBlock};

verus! {

/// First match for an address key in an association list of accounts.
pub open spec fn lookup_account(s: Seq<(Address, Account)>, key: Seq<u8>) -> Option<Account>
    decreases s.len(),
{
    if s.len() == 0 {
        None
    } else if s[0].0@ == key {
        Some(s[0].1)
    } else {
        lookup_account(s.drop_first(), key)
    }
}

/// Keys of an association list of accounts are unique.
pub open spec fn unique_addresses(s: Seq<(Address, Account)>) -> bool {
    forall|i: int, j: int| 0 <= i < j < s.len() ==> s[i].0@ != s[j].0@
}

proof fn lemma_lookup_skip(s: Seq<(Address, Account)>, key: Seq<u8>, i: int)
    requires
        0 <= i <= s.len(),
        forall|j: int| 0 <= j < i ==> s[j].0@ != key,
    ensures
        lookup_account(s, key) == lookup_account(s.skip(i), key),
    decreases i,
{
    if i > 0 {
        assert(s[0].0@ != key);
        assert forall|j: int| 0 <= j < i - 1 implies s.drop_first()[j].0@ != key by {
            assert(s.drop_first()[j] == s[j + 1]);
        }
        lemma_lookup_skip(s.drop_first(), key, i - 1);
        assert(s.drop_first().skip(i - 1) =~= s.skip(i));
        assert(lookup_account(s, key) == lookup_account(s.drop_first(), key));
    } else {
        assert(s.skip(0) =~= s);
    }
}

proof fn lemma_lookup_found(s: Seq<(Address, Account)>, key: Seq<u8>, i: int)
    requires
        0 <= i < s.len(),
        forall|j: int| 0 <= j < i ==> s[j].0@ != key,
        s[i].0@ == key,
    ensures
        lookup_account(s, key) == Some(s[i].1),
    decreases i,
{
    if i == 0 {
    } else {
        lemma_lookup_found(s.drop_first(), key, i - 1);
    }
}

/// After updating position `i`, a lookup finds the new value for that key and
/// is unchanged for every other key, provided keys are unique.
proof fn lemma_lookup_update(s: Seq<(Address, Account)>, i: int, v: (Address, Account), key: Seq<u8>)
    requires
        0 <= i < s.len(),
        unique_addresses(s),
        s[i].0@ == v.0@,
    ensures
        lookup_account(s.update(i, v), key) == if key == v.0@ {
            Some(v.1)
        } else {
            lookup_account(s, key)
        },
    decreases i,
{
    let t = s.update(i, v);
    if i == 0 {
        if key == v.0@ {
        } else {
            assert(t.drop_first() =~= s.drop_first());
        }
    } else {
        assert(t.drop_first() =~= s.drop_first().update(i - 1, v));
        lemma_lookup_update(s.drop_first(), i - 1, v, key);
    }
}

proof fn lemma_lookup_push(s: Seq<(Address, Account)>, v: (Address, Account), key: Seq<u8>)
    requires
        lookup_account(s, key) is None || key != v.0@,
    ensures
        lookup_account(s.push(v), key) == if key == v.0@ && lookup_account(s, key) is None {
            Some(v.1)
        } else {
            lookup_account(s, key)
        },
    decreases s.len(),
{
    if s.len() == 0 {
        assert(s.push(v)[0] == v);
        assert(s.push(v).drop_first() =~= Seq::<(Address, Account)>::empty());
        if key == v.0@ {
            assert(lookup_account(s.push(v), key) == Some(v.1));
        } else {
            assert(lookup_account(s.push(v), key) == lookup_account(s.push(v).drop_first(), key));
            assert(lookup_account(s.push(v), key) is None);
        }
    } else {
        assert(s.push(v)[0] == s[0]);
        assert(s.push(v).drop_first() =~= s.drop_first().push(v));
        if s[0].0@ == key {
            assert(lookup_account(s, key) == Some(s[0].1));
            assert(lookup_account(s.push(v), key) == Some(s[0].1));
        } else {
            assert(lookup_account(s, key) == lookup_account(s.drop_first(), key));
            lemma_lookup_push(s.drop_first(), v, key);
            assert(lookup_account(s.push(v), key) == lookup_account(s.drop_first().push(v), key));
        }
    }
}

/// The association list after storing a value for a key: the first entry with
/// that key is replaced in place, or the pair is appended when the key is new.
pub open spec fn spec_set(s: Seq<(Address, Account)>, key: Address, value: Account) -> Seq<(Address, Account)>
    decreases s.len(),
{
    if s.len() == 0 {
        seq![(key, value)]
    } else if s[0].0@ == key@ {
        seq![(key, value)] + s.drop_first()
    } else {
        seq![s[0]] + spec_set(s.drop_first(), key, value)
    }
}

proof fn lemma_spec_set_is_update(s: Seq<(Address, Account)>, i: int, key: Address, value: Account)
    requires
        0 <= i < s.len(),
        forall|j: int| 0 <= j < i ==> s[j].0@ != key@,
        s[i].0@ == key@,
    ensures
        spec_set(s, key, value) == s.update(i, (key, value)),
    decreases i,
{
    if i == 0 {
        assert(seq![(key, value)] + s.drop_first() =~= s.update(0, (key, value)));
    } else {
        assert(s[0].0@ != key@);
        assert forall|j: int| 0 <= j < i - 1 implies s.drop_first()[j].0@ != key@ by {
            assert(s.drop_first()[j] == s[j + 1]);
        }
        lemma_spec_set_is_update(s.drop_first(), i - 1, key, value);
        assert(seq![s[0]] + s.drop_first().update(i - 1, (key, value)) =~= s.update(i, (key, value)));
    }
}

proof fn lemma_spec_set_is_push(s: Seq<(Address, Account)>, key: Address, value: Account)
    requires
        forall|j: int| 0 <= j < s.len() ==> s[j].0@ != key@,
    ensures
        spec_set(s, key, value) == s.push((key, value)),
    decreases s.len(),
{
    if s.len() == 0 {
        assert(seq![(key, value)] =~= s.push((key, value)));
    } else {
        assert forall|j: int| 0 <= j < s.drop_first().len() implies s.drop_first()[j].0@ != key@ by {
            assert(s.drop_first()[j] == s[j + 1]);
        }
        lemma_spec_set_is_push(s.drop_first(), key, value);
        assert(seq![s[0]] + s.drop_first().push((key, value)) =~= s.push((key, value)));
    }
}

/// Storing a value and then looking a key up finds the new value for the
/// stored key and the old value for every other key; first-match lookup and
/// first-match replacement agree without any uniqueness assumption.
pub proof fn lemma_lookup_spec_set(s: Seq<(Address, Account)>, k: Address, v: Account, key: Seq<u8>)
    ensures
        lookup_account(spec_set(s, k, v), key) == if key == k@ {
            Some(v)
        } else {
            lookup_account(s, key)
        },
    decreases s.len(),
{
    let t = spec_set(s, k, v);
    if s.len() == 0 {
        assert(t == seq![(k, v)]);
        assert(t[0] == (k, v));
        assert(t.drop_first() =~= Seq::<(Address, Account)>::empty());
        if key == k@ {
            assert(lookup_account(t, key) == Some(v));
        } else {
            assert(lookup_account(t, key) == lookup_account(t.drop_first(), key));
        }
    } else if s[0].0@ == k@ {
        assert(t == seq![(k, v)] + s.drop_first());
        assert(t[0] == (k, v));
        assert(t.drop_first() =~= s.drop_first());
        if key == k@ {
            assert(lookup_account(t, key) == Some(v));
        } else {
            assert(lookup_account(t, key) == lookup_account(t.drop_first(), key));
            assert(lookup_account(s, key) == lookup_account(s.drop_first(), key));
        }
    } else {
        assert(t == seq![s[0]] + spec_set(s.drop_first(), k, v));
        assert(t[0] == s[0]);
        assert(t.drop_first() =~= spec_set(s.drop_first(), k, v));
        lemma_lookup_spec_set(s.drop_first(), k, v, key);
        if s[0].0@ == key {
            assert(lookup_account(t, key) == Some(s[0].1));
            assert(lookup_account(s, key) == Some(s[0].1));
        } else {
            assert(lookup_account(t, key) == lookup_account(t.drop_first(), key));
            assert(lookup_account(s, key) == lookup_account(s.drop_first(), key));
        }
    }
}

/// A view of account state: an association list from address to account, with
/// unique keys. Serves both as the rolling state of an execution session and
/// as the net state diff ("bundle") that execution leaves behind.
#[derive(Clone, Debug, PartialEq, Eq)]
pub struct StateView {
    pub accounts: Vec<(Address, Account)>,
}

impl StateView {
    /// Unique keys.
    pub open spec fn wf(self) -> bool {
        unique_addresses(self.accounts@)
    }

    /// The account stored for an address.
    pub open spec fn spec_get(self, key: Seq<u8>) -> Option<Account> {
        lookup_account(self.accounts@, key)
    }

    /// An empty state.
    pub fn new() -> (r: Self)
        ensures
            r.wf(),
            forall|k: Seq<u8>| r.spec_get(k) is None,
            r.accounts@.len() == 0,
    {
        StateView { accounts: Vec::new() }
    }

    /// Number of tracked accounts.
    pub fn len(&self) -> (n: usize)
        ensures
            n == self.accounts@.len(),
    {
        self.accounts.len()
    }

    /// Looks an address up.
    pub fn get(&self, key: &Address) -> (out: Option<Account>)
        ensures
            out == self.spec_get(key@),
    {
        let n = self.accounts.len();
        let mut i: usize = 0;
        while i < n
            invariant
                0 <= i <= n,
                n == self.accounts@.len(),
                forall|j: int| 0 <= j < i ==> self.accounts@[j].0@ != key@,
            decreases n - i,
        {
            if crate::primitives::bytes_eq(&self.accounts[i].0.bytes, &key.bytes) {
                proof {
                    lemma_lookup_found(self.accounts@, key@, i as int);
                }
                return Some(self.accounts[i].1);
            }
            i += 1;
        }
        proof {
            lemma_lookup_skip(self.accounts@, key@, n as int);
            assert(self.accounts@.skip(n as int) =~= Seq::<(Address, Account)>::empty());
        }
        None
    }

    /// An explicit copy, equal to the original entry for entry.
    pub fn duplicate(&self) -> (r: Self)
        ensures
            r.accounts@ == self.accounts@,
    {
        let mut accounts: Vec<(Address, Account)> = Vec::new();
        let n = self.accounts.len();
        let mut i: usize = 0;
        while i < n
            invariant
                0 <= i <= n,
                n == self.accounts@.len(),
                accounts@ == self.accounts@.take(i as int),
            decreases n - i,
        {
            accounts.push(self.accounts[i]);
            proof {
                assert(accounts@ =~= self.accounts@.take(i + 1int));
            }
            i += 1;
        }
        proof {
            assert(self.accounts@.take(n as int) =~= self.accounts@);
        }
        StateView { accounts }
    }

    /// Stores an account for an address, replacing any previous value.
    pub fn set(&mut self, key: Address, value: Account)
        requires
            old(self).wf(),
        ensures
            final(self).wf(),
            final(self).accounts@ == spec_set(old(self).accounts@, key, value),
            final(self).spec_get(key@) == Some(value),
            forall|k: Seq<u8>| k != key@ ==> final(self).spec_get(k) == old(self).spec_get(k),
            final(self).accounts@.len() == if old(self).spec_get(key@) is Some {
                old(self).accounts@.len() as int
            } else {
                old(self).accounts@.len() + 1int
            },
    {
        let n = self.accounts.len();
        let mut i: usize = 0;
        while i < n
            invariant
                0 <= i <= n,
                self.accounts@ == old(self).accounts@,
                n == self.accounts@.len(),
                unique_addresses(self.accounts@),
                forall|j: int| 0 <= j < i ==> self.accounts@[j].0@ != key@,
            decreases n - i,
        {
            if crate::primitives::bytes_eq(&self.accounts[i].0.bytes, &key.bytes) {
                proof {
                    let s = self.accounts@;
                    let t = s.update(i as int, (key, value));
                    lemma_lookup_found(s, key@, i as int);
                    lemma_spec_set_is_update(s, i as int, key, value);
                    assert forall|k: Seq<u8>| #[trigger] lookup_account(t, k) == if k == key@ {
                        Some(value)
                    } else {
                        lookup_account(s, k)
                    } by {
                        lemma_lookup_update(s, i as int, (key, value), k);
                    }
                    assert(unique_addresses(t)) by {
                        assert(forall|j: int| 0 <= j < s.len() ==> t[j].0@ == s[j].0@);
                    }
                }
                self.accounts.set(i, (key, value));
                return;
            }
            i += 1;
        }
        proof {
            let s = self.accounts@;
            lemma_spec_set_is_push(s, key, value);
            lemma_lookup_skip(s, key@, n as int);
            assert(s.skip(n as int) =~= Seq::<(Address, Account)>::empty());
            assert forall|k: Seq<u8>| #[trigger] lookup_account(s.push((key, value)), k) == if k
                == key@ {
                Some(value)
            } else {
                lookup_account(s, k)
            } by {
                lemma_lookup_push(s, (key, value), k);
            }
            assert(unique_addresses(s.push((key, value)))) by {
                assert forall|j: int| 0 <= j < s.len() implies s[j].0@ != key@ by {}
                assert(forall|j: int| 0 <= j < s.len() ==> s.push((key, value))[j] == s[j]);
            }
        }
        self.accounts.push((key, value));
    }
}

/// What one step of an execution session reports for one block: the receipts
/// of its transactions and the gas they used. The state change stays inside
/// the session and is extracted once, at the end of the batch.
#[derive(Clone, Debug, PartialEq, Eq)]
pub struct BlockExecutionResult {
    pub receipts: Vec<Receipt>,
    pub gas_used: u64,
}

/// What executing one block in isolation produces: the receipts of its
/// transactions, the gas they used, and the net state change of the block.
#[derive(Clone, Debug, PartialEq, Eq)]
pub struct BlockExecutionOutput {
    pub state: StateView,
    pub receipts: Vec<Receipt>,
    pub gas_used: u64,
}

/// The aggregated result of executing a run of blocks: receipts per block and
/// the net state diff, based at the first block of the run.
#[derive(Clone, Debug, PartialEq, Eq)]
pub struct ExecutionOutcome {
    /// Net account-state change over all executed blocks.
    pub bundle: StateView,
    /// One receipt list per executed block, in block order.
    pub receipts: Vec<Vec<Receipt>>,
    /// Number of the first executed block.
    pub first_block: u64,
}

impl ExecutionOutcome {
    /// Builds the aggregated outcome from per-block outputs and the rolling
    /// state's accumulated diff.
    pub fn from_blocks(first_block: u64, bundle: StateView, results: Vec<BlockExecutionResult>) -> (r: Self)
        ensures
            r.first_block == first_block,
            r.bundle == bundle,
            r.receipts@.len() == results@.len(),
            forall|i: int| 0 <= i < results@.len() ==> r.receipts@[i] == results@[i].receipts,
    {
        let mut results = results;
        let mut receipts: Vec<Vec<Receipt>> = Vec::new();
        let ghost all = results@;
        while results.len() > 0
            invariant
                receipts@.len() + results@.len() == all.len(),
                results@ == all.skip(receipts@.len() as int),
                forall|i: int| 0 <= i < receipts@.len() ==> receipts@[i] == all[i].receipts,
            decreases results@.len(),
        {
            let out = results.remove(0);
            proof {
                assert(out == all[receipts@.len() as int]);
                assert(results@ =~= all.skip(receipts@.len() + 1int));
            }
            receipts.push(out.receipts);
        }
        ExecutionOutcome { bundle, receipts, first_block }
    }
}

/// A batch of executed blocks: contiguous ascending blocks plus one
/// aggregated execution outcome whose base is the first block of the batch
/// and whose receipt list has one entry per block.
#[derive(Clone, Debug, PartialEq, Eq)]
pub struct Chain {
    pub blocks: Vec<RecoveredBlock>,
    pub execution_outcome: ExecutionOutcome,
}

impl Chain {
    /// The batch invariant: block numbers increasing by one, the outcome
    /// based at the first block, one receipt list per block. A batch that a
    /// job emits is never empty; the empty chain exists only as the vacated
    /// side of a reorganization.
    pub open spec fn wf(self) -> bool {
        &&& forall|i: int| 0 <= i < self.blocks@.len() ==> #[trigger] self.blocks@[i].number
            == self.blocks@[0].number + i
        &&& self.blocks@.len() > 0 ==> self.execution_outcome.first_block
            == self.blocks@[0].number
        &&& self.execution_outcome.receipts@.len() == self.blocks@.len()
    }

    /// Whether the chain carries no blocks.
    pub open spec fn is_empty_spec(self) -> bool {
        self.blocks@.len() == 0
    }

    /// The executed blocks of the batch.
    pub open spec fn blocks_spec(self) -> Seq<RecoveredBlock> {
        self.blocks@
    }

    /// The aggregated outcome of the batch.
    pub open spec fn outcome_spec(self) -> ExecutionOutcome {
        self.execution_outcome
    }

    /// The block numbers covered by the batch, in order.
    pub open spec fn numbers(self) -> Seq<u64> {
        Seq::new(self.blocks@.len(), |i: int| self.blocks@[i].number)
    }

    /// Assembles a batch from its blocks and their aggregated outcome.
    pub fn new(blocks: Vec<RecoveredBlock>, execution_outcome: ExecutionOutcome) -> (r: Self)
        requires
            blocks@.len() > 0,
            forall|i: int| 0 <= i < blocks@.len() ==> #[trigger] blocks@[i].number
                == blocks@[0].number + i,
            execution_outcome.first_block == blocks@[0].number,
            execution_outcome.receipts@.len() == blocks@.len(),
        ensures
            r.wf(),
            r.blocks_spec() == blocks@,
            r.outcome_spec() == execution_outcome,
    {
        Chain { blocks, execution_outcome }
    }

    /// A chain with no blocks: the vacated side of a reorganization that
    /// abandons nothing.
    pub fn empty() -> (r: Self)
        ensures
            r.wf(),
            r.blocks@.len() == 0,
    {
        Chain {
            blocks: Vec::new(),
            execution_outcome: ExecutionOutcome {
                bundle: StateView { accounts: Vec::new() },
                receipts: Vec::new(),
                first_block: 0,
            },
        }
    }

    /// Whether the chain carries no blocks.
    pub fn is_empty(&self) -> (r: bool)
        ensures
            r == self.is_empty_spec(),
    {
        self.blocks.len() == 0
    }

    /// The executed blocks.
    pub fn blocks(&self) -> (b: &Vec<RecoveredBlock>)
        ensures
            b@ == self.blocks_spec(),
    {
        &self.blocks
    }

    /// The aggregated execution outcome.
    pub fn execution_outcome(&self) -> (o: &ExecutionOutcome)
        ensures
            *o == self.outcome_spec(),
    {
        &self.execution_outcome
    }

    /// Number of blocks in the batch.
    pub fn len(&self) -> (n: usize)
        ensures
            n == self.blocks_spec().len(),
    {
        self.blocks.len()
    }

    /// The number of the first block of the batch.
    pub fn first_number(&self) -> (n: u64)
        requires
            self.wf(),
            self.blocks@.len() > 0,
        ensures
            n == self.blocks_spec()[0].number,
    {
        self.blocks[0].number
    }

    /// The number of the last block of the batch.
    pub fn tip_number(&self) -> (n: u64)
        requires
            self.wf(),
            self.blocks@.len() > 0,
        ensures
            n == self.blocks_spec().last().number,
    {
        self.blocks[self.blocks.len() - 1].number
    }
}

} // verus!
