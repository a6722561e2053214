//! The provider capability: header, block and historical-state lookups by
//! block number, together with an in-memory implementation backed by plain
//! association lists.

use vstd::prelude::*;

use crate::chain::StateView;
use crate::executor::BackfillError;
use crate::primitives::{Account, Address, BlockView, Hash256, RecoveredBlock};

verus! {

/// First match for a block-number key in an association list.
pub open spec fn lookup_key<V>(s: Seq<(u64, V)>, key: u64) -> Option<V>
    decreases s.len(),
{
    if s.len() == 0 {
        None
    } else if s[0].0 == key {
        Some(s[0].1)
    } else {
        lookup_key(s.drop_first(), key)
    }
}

/// Keys of an association list are unique.
pub open spec fn unique_keys<V>(s: Seq<(u64, V)>) -> bool {
    forall|i: int, j: int| 0 <= i < j < s.len() ==> s[i].0 != s[j].0
}

proof fn lemma_lookup_key_found<V>(s: Seq<(u64, V)>, key: u64, i: int)
    requires
        0 <= i < s.len(),
        forall|j: int| 0 <= j < i ==> s[j].0 != key,
        s[i].0 == key,
    ensures
        lookup_key(s, key) == Some(s[i].1),
    decreases i,
{
    if i > 0 {
        lemma_lookup_key_found(s.drop_first(), key, i - 1);
    }
}

proof fn lemma_lookup_key_absent<V>(s: Seq<(u64, V)>, key: u64)
    requires
        forall|j: int| 0 <= j < s.len() ==> s[j].0 != key,
    ensures
        lookup_key(s, key) is None,
    decreases s.len(),
{
    if s.len() > 0 {
        assert forall|j: int| 0 <= j < s.drop_first().len() implies s.drop_first()[j].0 != key by {
            assert(s.drop_first()[j] == s[j + 1]);
        }
        lemma_lookup_key_absent(s.drop_first(), key);
    }
}

proof fn lemma_lookup_key_none_means_absent<V>(s: Seq<(u64, V)>, key: u64)
    requires
        lookup_key(s, key) is None,
    ensures
        forall|j: int| 0 <= j < s.len() ==> s[j].0 != key,
    decreases s.len(),
{
    if s.len() > 0 {
        lemma_lookup_key_none_means_absent(s.drop_first(), key);
        assert forall|j: int| 0 <= j < s.len() implies s[j].0 != key by {
            if j > 0 {
                assert(s.drop_first()[j - 1] == s[j]);
            }
        }
    }
}

proof fn lemma_lookup_key_push<V>(s: Seq<(u64, V)>, v: (u64, V), key: u64)
    ensures
        lookup_key(s.push(v), key) == if lookup_key(s, key) is Some {
            lookup_key(s, key)
        } else if key == v.0 {
            Some(v.1)
        } else {
            None
        },
    decreases s.len(),
{
    if s.len() == 0 {
        assert(s.push(v)[0] == v);
        assert(s.push(v).drop_first() =~= Seq::<(u64, V)>::empty());
        assert(lookup_key(s, key) is None);
        if key == v.0 {
            assert(lookup_key(s.push(v), key) == Some(v.1));
        } else {
            assert(lookup_key(s.push(v), key) == lookup_key(s.push(v).drop_first(), key));
            assert(lookup_key(s.push(v), key) is None);
        }
    } else {
        assert(s.push(v)[0] == s[0]);
        assert(s.push(v).drop_first() =~= s.drop_first().push(v));
        if s[0].0 != key {
            lemma_lookup_key_push(s.drop_first(), v, key);
            assert(lookup_key(s, key) == lookup_key(s.drop_first(), key));
            assert(lookup_key(s.push(v), key) == lookup_key(s.drop_first().push(v), key));
        } else {
            assert(lookup_key(s, key) == Some(s[0].1));
            assert(lookup_key(s.push(v), key) == Some(s[0].1));
        }
    }
}

/// The header data of a stored block.
#[derive(Clone, Copy, Debug, PartialEq, Eq)]
pub struct Header {
    pub number: u64,
    pub hash: Hash256,
    pub parent_hash: Hash256,
    pub timestamp: u64,
    pub gas_used: u64,
}

/// The storage capability that range re-execution consumes: block and
/// historical-state lookups by block number. An implementation hands out only
/// well-formed blocks stored under their own number, and a state view exactly
/// when it can materialize history as of that block.
pub trait Provider: Sized {
    /// Whether the provider's internal structures are consistent; every
    /// operation demands it.
    spec fn valid(&self) -> bool;

    /// The content of the block stored under a number.
    spec fn block_at_spec(&self, number: u64) -> Option<BlockView>;

    /// Historical account state as of a block number.
    spec fn state_at_spec(&self, number: u64) -> Option<Seq<(Address, Account)>>;

    /// Looks up the block with the given number, with its senders recovered.
    fn recovered_block(&self, number: u64) -> (out: Option<RecoveredBlock>)
        requires
            self.valid(),
        ensures
            match out {
                Some(b) => self.block_at_spec(number) == Some(b@) && b@.wf() && b.number == number,
                None => self.block_at_spec(number) is None,
            },
    ;

    /// Materializes the historical account state as of the given block.
    /// Fails exactly when that history is not available.
    fn history_by_block_number(&self, number: u64) -> (out: Result<StateView, BackfillError>)
        requires
            self.valid(),
        ensures
            match out {
                Ok(s) => self.state_at_spec(number) == Some(s.accounts@) && s.wf(),
                Err(e) => self.state_at_spec(number) is None && e
                    == BackfillError::StateUnavailable(number),
            },
    ;

    /// Looks up the header of the block with the given number.
    fn header(&self, number: u64) -> (out: Option<Header>)
        requires
            self.valid(),
        ensures
            match out {
                Some(h) => {
                    &&& self.block_at_spec(number) matches Some(b)
                    &&& h.number == b.number
                    &&& h.hash@ == b.hash
                    &&& h.parent_hash@ == b.parent_hash
                    &&& h.timestamp == b.timestamp
                    &&& h.gas_used == b.gas_used
                },
                None => self.block_at_spec(number) is None,
            },
    ;
}

/// An in-memory provider: blocks and historical state views held in plain
/// association lists keyed by block number. The mock store used by tests and
/// by offline runs.
#[derive(Debug)]
pub struct MemoryProvider {
    pub blocks: Vec<(u64, RecoveredBlock)>,
    pub states: Vec<(u64, StateView)>,
}

impl MemoryProvider {
    /// An empty store.
    pub fn new() -> (r: Self)
        ensures
            r.valid(),
            r.blocks@.len() == 0,
            r.states@.len() == 0,
    {
        MemoryProvider { blocks: Vec::new(), states: Vec::new() }
    }

    /// Stores a block under its own number.
    pub fn insert_block(&mut self, block: RecoveredBlock)
        requires
            old(self).valid(),
            block@.wf(),
            old(self).block_at_spec(block.number) is None,
        ensures
            final(self).valid(),
            final(self).block_at_spec(block.number) == Some(block@),
            forall|n: u64| n != block.number ==> final(self).block_at_spec(n) == old(
                self,
            ).block_at_spec(n),
            forall|n: u64| final(self).state_at_spec(n) == old(self).state_at_spec(n),
    {
        proof {
            let s = self.blocks@;
            assert forall|n: u64| #[trigger] lookup_key(s.push((block.number, block)), n)
                == if lookup_key(s, n) is Some {
                lookup_key(s, n)
            } else if n == block.number {
                Some(block)
            } else {
                None
            } by {
                lemma_lookup_key_push(s, (block.number, block), n);
            }
            lemma_lookup_key_none_means_absent(s, block.number);
            assert(unique_keys(s.push((block.number, block)))) by {
                assert(forall|j: int| 0 <= j < s.len() ==> s.push((block.number, block))[j] == s[j]);
            }
        }
        self.blocks.push((block.number, block));
    }

    /// Stores the historical state as of a block number.
    pub fn insert_state(&mut self, number: u64, state: StateView)
        requires
            old(self).valid(),
            state.wf(),
            old(self).state_at_spec(number) is None,
        ensures
            final(self).valid(),
            final(self).state_at_spec(number) == Some(state.accounts@),
            forall|n: u64| n != number ==> final(self).state_at_spec(n) == old(self).state_at_spec(n),
            forall|n: u64| final(self).block_at_spec(n) == old(self).block_at_spec(n),
    {
        proof {
            let s = self.states@;
            assert forall|n: u64| #[trigger] lookup_key(s.push((number, state)), n)
                == if lookup_key(s, n) is Some {
                lookup_key(s, n)
            } else if n == number {
                Some(state)
            } else {
                None
            } by {
                lemma_lookup_key_push(s, (number, state), n);
            }
            lemma_lookup_key_none_means_absent(s, number);
            assert(unique_keys(s.push((number, state)))) by {
                assert(forall|j: int| 0 <= j < s.len() ==> s.push((number, state))[j] == s[j]);
            }
        }
        self.states.push((number, state));
    }
}

impl Provider for MemoryProvider {
    open spec fn valid(&self) -> bool {
        &&& unique_keys(self.blocks@)
        &&& unique_keys(self.states@)
        &&& forall|i: int| 0 <= i < self.blocks@.len() ==> (#[trigger] self.blocks@[i]).1.number
            == self.blocks@[i].0 && self.blocks@[i].1@.wf()
        &&& forall|i: int| 0 <= i < self.states@.len() ==> (#[trigger] self.states@[i]).1.wf()
    }

    open spec fn block_at_spec(&self, number: u64) -> Option<BlockView> {
        match lookup_key(self.blocks@, number) {
            None => None,
            Some(b) => Some(b@),
        }
    }

    open spec fn state_at_spec(&self, number: u64) -> Option<Seq<(Address, Account)>> {
        match lookup_key(self.states@, number) {
            None => None,
            Some(s) => Some(s.accounts@),
        }
    }

    fn recovered_block(&self, number: u64) -> (out: Option<RecoveredBlock>) {
        let n = self.blocks.len();
        let mut i: usize = 0;
        while i < n
            invariant
                self.valid(),
                0 <= i <= n,
                n == self.blocks@.len(),
                forall|j: int| 0 <= j < i ==> self.blocks@[j].0 != number,
            decreases n - i,
        {
            if self.blocks[i].0 == number {
                proof {
                    lemma_lookup_key_found(self.blocks@, number, i as int);
                    assert(self.blocks@[i as int].1.number == self.blocks@[i as int].0
                        && self.blocks@[i as int].1@.wf());
                }
                return Some(self.blocks[i].1.duplicate());
            }
            i += 1;
        }
        proof {
            lemma_lookup_key_absent(self.blocks@, number);
        }
        None
    }

    fn history_by_block_number(&self, number: u64) -> (out: Result<StateView, BackfillError>) {
        let n = self.states.len();
        let mut i: usize = 0;
        while i < n
            invariant
                self.valid(),
                0 <= i <= n,
                n == self.states@.len(),
                forall|j: int| 0 <= j < i ==> self.states@[j].0 != number,
            decreases n - i,
        {
            if self.states[i].0 == number {
                proof {
                    lemma_lookup_key_found(self.states@, number, i as int);
                    assert(self.states@[i as int].1.wf());
                }
                return Ok(self.states[i].1.duplicate());
            }
            i += 1;
        }
        proof {
            lemma_lookup_key_absent(self.states@, number);
        }
        Err(BackfillError::StateUnavailable(number))
    }

    fn header(&self, number: u64) -> (out: Option<Header>) {
        let n = self.blocks.len();
        let mut i: usize = 0;
        while i < n
            invariant
                self.valid(),
                0 <= i <= n,
                n == self.blocks@.len(),
                forall|j: int| 0 <= j < i ==> self.blocks@[j].0 != number,
            decreases n - i,
        {
            if self.blocks[i].0 == number {
                proof {
                    lemma_lookup_key_found(self.blocks@, number, i as int);
                }
                let b = &self.blocks[i].1;
                return Some(
                    Header {
                        number: b.number,
                        hash: b.hash,
                        parent_hash: b.parent_hash,
                        timestamp: b.timestamp,
                        gas_used: b.gas_used,
                    },
                );
            }
            i += 1;
        }
        proof {
            lemma_lookup_key_absent(self.blocks@, number);
        }
        None
    }
}

} // verus!
