//! Hashed state cursors: ordered walks over hashed account and storage
//! entries, with an in-memory implementation that also records which keys a
//! walk has visited.

use vstd::prelude::*;
use vstd::pervasive::VecAdditionalExecFns;

use crate::primitives::{Account, Hash256};

verus! {

/// A storage lookup failure.
#[derive(Clone, Debug, PartialEq, Eq)]
pub enum DatabaseError {
    /// No storage trie is known for this hashed address.
    StorageTrieNotFound(Vec<u8>),
}

/// Whether `a` begins with `b`.
pub open spec fn is_prefix(a: Seq<u8>, b: Seq<u8>) -> bool {
    b.len() <= a.len() && a.subrange(0, b.len() as int) == b
}

/// Byte-wise prefix test.
pub fn starts_with(a: &Vec<u8>, b: &Vec<u8>) -> (r: bool)
    ensures
        r == is_prefix(a@, b@),
{
    if b.len() > a.len() {
        return false;
    }
    let n = b.len();
    let mut i: usize = 0;
    while i < n
        invariant
            0 <= i <= n,
            n == b@.len(),
            n <= a@.len(),
            forall|j: int| 0 <= j < i ==> a@[j] == b@[j],
        decreases n - i,
    {
        if a[i] != b[i] {
            proof {
                assert(a@.subrange(0, n as int)[i as int] != b@[i as int]);
            }
            return false;
        }
        i += 1;
    }
    proof {
        assert(a@.subrange(0, n as int) =~= b@);
    }
    true
}

/// The first entry, in list order, whose key begins with the given prefix.
pub open spec fn seek_spec<T>(entries: Seq<(Vec<u8>, T)>, key: Seq<u8>) -> Option<(Vec<u8>, T)>
    decreases entries.len(),
{
    if entries.len() == 0 {
        None
    } else if is_prefix(entries[0].0@, key) {
        Some(entries[0])
    } else {
        seek_spec(entries.drop_first(), key)
    }
}

proof fn lemma_seek_found<T>(entries: Seq<(Vec<u8>, T)>, key: Seq<u8>, i: int)
    requires
        0 <= i < entries.len(),
        forall|j: int| 0 <= j < i ==> !is_prefix(entries[j].0@, key),
        is_prefix(entries[i].0@, key),
    ensures
        seek_spec(entries, key) == Some(entries[i]),
    decreases i,
{
    if i > 0 {
        lemma_seek_found(entries.drop_first(), key, i - 1);
    }
}

proof fn lemma_seek_absent<T>(entries: Seq<(Vec<u8>, T)>, key: Seq<u8>)
    requires
        forall|j: int| 0 <= j < entries.len() ==> !is_prefix(entries[j].0@, key),
    ensures
        seek_spec(entries, key) is None,
    decreases entries.len(),
{
    if entries.len() > 0 {
        assert forall|j: int| 0 <= j < entries.drop_first().len() implies !is_prefix(
            entries.drop_first()[j].0@,
            key,
        ) by {
            assert(entries.drop_first()[j] == entries[j + 1]);
        }
        lemma_seek_absent(entries.drop_first(), key);
    }
}

/// A cursor over hashed entries: seek to the first entry matching a key, then
/// step forward.
pub trait HashedCursor: Sized {
    /// The value type the cursor walks.
    type Value;

    /// The entries the cursor walks, in their stored order.
    spec fn entries_spec(&self) -> Seq<(Vec<u8>, Self::Value)>;

    /// The keys this cursor has visited.
    spec fn visited_spec(&self) -> Seq<Seq<u8>>;

    /// Positions the cursor at the first entry whose key begins with the
    /// given key, recording the visit, and returns that entry.
    fn seek(&mut self, key: Vec<u8>) -> (out: Result<Option<(Vec<u8>, Self::Value)>, DatabaseError>)
        ensures
            final(self).entries_spec() == old(self).entries_spec(),
            match out {
                Ok(Some(e)) => seek_spec(old(self).entries_spec(), key@) matches Some(se) && e.0@
                    == se.0@ && e.1 == se.1 && final(self).visited_spec()
                    == old(self).visited_spec().push(se.0@),
                Ok(None) => seek_spec(old(self).entries_spec(), key@) is None
                    && final(self).visited_spec() == old(self).visited_spec(),
                Err(_) => true,
            },
    ;

    /// Steps to the entry after the current one.
    fn next(&mut self) -> (out: Result<Option<(Vec<u8>, Self::Value)>, DatabaseError>)
        ensures
            final(self).entries_spec() == old(self).entries_spec(),
            final(self).visited_spec() == old(self).visited_spec(),
    ;
}

/// A cursor over one account's hashed storage.
pub trait HashedStorageCursor: HashedCursor {
    /// Whether the walked storage holds no entries at all.
    fn is_storage_empty(&mut self) -> (out: Result<bool, DatabaseError>)
        ensures
            final(self).entries_spec() == old(self).entries_spec(),
            final(self).visited_spec() == old(self).visited_spec(),
            out == Ok::<bool, DatabaseError>(old(self).entries_spec().len() == 0),
    ;
}

/// Hands out hashed account and storage cursors.
pub trait HashedCursorFactory {
    /// The account cursor type.
    type AccountCursor: HashedCursor<Value = Account>;

    /// The storage cursor type.
    type StorageCursor: HashedCursor<Value = Hash256>;

    /// Whether the factory's internal structures are consistent; every
    /// operation demands it.
    spec fn valid(&self) -> bool;

    /// A cursor over the hashed accounts.
    fn hashed_account_cursor(&self) -> (out: Result<Self::AccountCursor, DatabaseError>)
        requires
            self.valid(),
    ;

    /// A cursor over the hashed storage of one account.
    fn hashed_storage_cursor(&self, hashed_address: Vec<u8>) -> (out: Result<
        Self::StorageCursor,
        DatabaseError,
    >)
        requires
            self.valid(),
    ;
}

/// Strict lexicographic order on byte strings: a proper prefix comes first,
/// otherwise the first differing byte decides.
pub open spec fn lex_lt(a: Seq<u8>, b: Seq<u8>) -> bool
    decreases a.len(),
{
    if b.len() == 0 {
        false
    } else if a.len() == 0 {
        true
    } else if a[0] < b[0] {
        true
    } else if a[0] > b[0] {
        false
    } else {
        lex_lt(a.drop_first(), b.drop_first())
    }
}

/// Entry keys in strictly ascending lexicographic order; in particular, keys
/// are unique.
pub open spec fn sorted_keys<T>(entries: Seq<(Vec<u8>, T)>) -> bool {
    forall|i: int, j: int| 0 <= i < j < entries.len() ==> lex_lt(
        (#[trigger] entries[i]).0@,
        (#[trigger] entries[j]).0@,
    )
}

/// Over ascending keys, the first match in list order is the least matching
/// key: every other matching entry's key is the found key or comes after it.
pub proof fn lemma_seek_finds_least_match<T>(entries: Seq<(Vec<u8>, T)>, key: Seq<u8>, j: int)
    requires
        sorted_keys(entries),
        0 <= j < entries.len(),
        is_prefix(entries[j].0@, key),
    ensures
        seek_spec(entries, key) matches Some(e) && (e.0@ == entries[j].0@ || lex_lt(
            e.0@,
            entries[j].0@,
        )),
    decreases entries.len(),
{
    if is_prefix(entries[0].0@, key) {
        if j > 0 {
            assert(lex_lt(entries[0].0@, entries[j].0@));
        }
    } else {
        let rest = entries.drop_first();
        assert(rest[j - 1] == entries[j]);
        assert forall|a: int, b: int| 0 <= a < b < rest.len() implies lex_lt(
            (#[trigger] rest[a]).0@,
            (#[trigger] rest[b]).0@,
        ) by {
            assert(rest[a] == entries[a + 1]);
            assert(rest[b] == entries[b + 1]);
        }
        lemma_seek_finds_least_match(rest, key, j - 1);
    }
}

/// An in-memory hashed cursor: entries in strictly ascending key order, a
/// current key, and the record of visited keys. The current key, when set, is
/// one of the stored keys; with the sortedness invariant, a seek's first
/// match in list order is the least matching key.
#[derive(Debug)]
pub struct MockHashedCursor<T> {
    pub current_key: Option<Vec<u8>>,
    pub values: Vec<(Vec<u8>, T)>,
    pub visited_keys: Vec<Vec<u8>>,
}

impl<T: Copy> MockHashedCursor<T> {
    /// Keys strictly ascending, and the current key, when set, one of the
    /// stored keys.
    pub open spec fn wf(self) -> bool {
        &&& sorted_keys(self.values@)
        &&& self.current_key matches Some(k) ==> exists|i: int|
            0 <= i < self.values@.len() && (#[trigger] self.values@[i]).0@ == k@
    }

    /// A cursor over the given ascending entries, positioned nowhere,
    /// carrying the given visit log.
    pub fn new(values: Vec<(Vec<u8>, T)>, visited_keys: Vec<Vec<u8>>) -> (r: Self)
        requires
            sorted_keys(values@),
        ensures
            r.wf(),
            r.values@ == values@,
            r.visited_keys@ == visited_keys@,
            r.current_key is None,
    {
        MockHashedCursor { current_key: None, values, visited_keys }
    }

    /// The keys this cursor has visited, oldest first.
    pub open spec fn visited_view(self) -> Seq<Seq<u8>> {
        key_views(self.visited_keys@)
    }
}

/// The byte strings of a list of keys.
pub open spec fn key_views(s: Seq<Vec<u8>>) -> Seq<Seq<u8>> {
    Seq::new(s.len(), |i: int| s[i]@)
}

impl<T: Copy> HashedCursor for MockHashedCursor<T> {
    type Value = T;

    open spec fn entries_spec(&self) -> Seq<(Vec<u8>, T)> {
        self.values@
    }

    open spec fn visited_spec(&self) -> Seq<Seq<u8>> {
        self.visited_view()
    }

    fn seek(&mut self, key: Vec<u8>) -> (out: Result<Option<(Vec<u8>, T)>, DatabaseError>)
        ensures
            out is Ok,
            old(self).wf() ==> final(self).wf(),
            out matches Ok(Some(e)) ==> (final(self).current_key matches Some(k) && k@ == e.0@),
            out matches Ok(None) ==> final(self).current_key == old(self).current_key,
    {
        let n = self.values.len();
        let mut i: usize = 0;
        while i < n
            invariant
                0 <= i <= n,
                *self == *old(self),
                n == self.values@.len(),
                forall|j: int| 0 <= j < i ==> !is_prefix((#[trigger] self.values@[j]).0@, key@),
            decreases n - i,
        {
            let matches_here = starts_with(&self.values[i].0, &key);
            if matches_here {
                proof {
                    lemma_seek_found(self.values@, key@, i as int);
                }
                let found_key = dup_bytes(&self.values[i].0);
                let value = self.values[i].1;
                self.current_key = Some(dup_bytes(&self.values[i].0));
                self.visited_keys.push(dup_bytes(&self.values[i].0));
                proof {
                    assert(self.visited_view() =~= old(self).visited_view().push(
                        old(self).values@[i as int].0@,
                    ));
                    assert(self.current_key matches Some(k) && self.values@[i as int].0@ == k@);
                }
                return Ok(Some((found_key, value)));
            }
            i += 1;
        }
        proof {
            lemma_seek_absent(self.values@, key@);
        }
        Ok(None)
    }

    fn next(&mut self) -> (out: Result<Option<(Vec<u8>, T)>, DatabaseError>)
        ensures
            out == Ok::<Option<(Vec<u8>, T)>, DatabaseError>(None),
            *final(self) == *old(self),
    {
        Ok(None)
    }
}

impl<T: Copy> HashedStorageCursor for MockHashedCursor<T> {
    fn is_storage_empty(&mut self) -> (out: Result<bool, DatabaseError>)
        ensures
            *final(self) == *old(self),
    {
        Ok(self.values.len() == 0)
    }
}

/// An explicit copy of a byte key.
fn dup_bytes(v: &Vec<u8>) -> (r: Vec<u8>)
    ensures
        r@ == v@,
{
    let r = v.clone();
    proof {
        assert(r@ =~= v@);
    }
    r
}

/// An explicit copy of a key list.
fn dup_keys(v: &Vec<Vec<u8>>) -> (r: Vec<Vec<u8>>)
    ensures
        key_views(r@) == key_views(v@),
{
    let n = v.len();
    let mut r: Vec<Vec<u8>> = Vec::new();
    let mut i: usize = 0;
    while i < n
        invariant
            0 <= i <= n,
            n == v@.len(),
            r@.len() == i,
            forall|j: int| 0 <= j < i ==> (#[trigger] r@[j])@ == v@[j]@,
        decreases n - i,
    {
        r.push(dup_bytes(&v[i]));
        i += 1;
    }
    proof {
        assert(key_views(r@) =~= key_views(v@));
    }
    r
}

/// An explicit copy of an entry list with copyable values.
fn dup_entries<T: Copy>(v: &Vec<(Vec<u8>, T)>) -> (r: Vec<(Vec<u8>, T)>)
    ensures
        r@.len() == v@.len(),
        forall|i: int| 0 <= i < v@.len() ==> (#[trigger] r@[i]).0@ == v@[i].0@ && r@[i].1 == v@[i].1,
        sorted_keys(v@) ==> sorted_keys(r@),
{
    let n = v.len();
    let mut r: Vec<(Vec<u8>, T)> = Vec::new();
    let mut i: usize = 0;
    while i < n
        invariant
            0 <= i <= n,
            n == v@.len(),
            r@.len() == i,
            forall|j: int| 0 <= j < i ==> (#[trigger] r@[j]).0@ == v@[j].0@ && r@[j].1 == v@[j].1,
        decreases n - i,
    {
        r.push((dup_bytes(&v[i].0), v[i].1));
        i += 1;
    }
    r
}

/// First match for a byte key in an association list.
pub open spec fn bytes_key_lookup<V>(s: Seq<(Vec<u8>, V)>, key: Seq<u8>) -> Option<V>
    decreases s.len(),
{
    if s.len() == 0 {
        None
    } else if s[0].0@ == key {
        Some(s[0].1)
    } else {
        bytes_key_lookup(s.drop_first(), key)
    }
}

proof fn lemma_bytes_key_lookup_found<V>(s: Seq<(Vec<u8>, V)>, key: Seq<u8>, i: int)
    requires
        0 <= i < s.len(),
        forall|j: int| 0 <= j < i ==> s[j].0@ != key,
        s[i].0@ == key,
    ensures
        bytes_key_lookup(s, key) == Some(s[i].1),
    decreases i,
{
    if i > 0 {
        lemma_bytes_key_lookup_found(s.drop_first(), key, i - 1);
    }
}

proof fn lemma_bytes_key_lookup_absent<V>(s: Seq<(Vec<u8>, V)>, key: Seq<u8>)
    requires
        forall|j: int| 0 <= j < s.len() ==> s[j].0@ != key,
    ensures
        bytes_key_lookup(s, key) is None,
    decreases s.len(),
{
    if s.len() > 0 {
        assert forall|j: int| 0 <= j < s.drop_first().len() implies s.drop_first()[j].0@ != key by {
            assert(s.drop_first()[j] == s[j + 1]);
        }
        lemma_bytes_key_lookup_absent(s.drop_first(), key);
    }
}

/// An in-memory hashed cursor factory: hashed accounts, one storage trie per
/// hashed address, and the accumulated visit logs — one for the account walk
/// and one per storage trie. A cursor handed out starts from its walk's
/// accumulated log, and a finished cursor's log is stored back with
/// [`MockHashedCursorFactory::absorb_account_visits`] and
/// [`MockHashedCursorFactory::absorb_storage_visits`].
#[derive(Debug)]
pub struct MockHashedCursorFactory {
    pub hashed_accounts: Vec<(Vec<u8>, Account)>,
    pub hashed_storage_tries: Vec<(Vec<u8>, Vec<(Vec<u8>, Hash256)>)>,
    /// Keys the hashed-account walks have visited.
    pub visited_account_keys: Vec<Vec<u8>>,
    /// Keys the hashed-storage walks have visited, per storage trie.
    pub visited_storage_keys: Vec<(Vec<u8>, Vec<Vec<u8>>)>,
}

impl MockHashedCursorFactory {
    /// A factory over the given ascending account and storage entries, with
    /// one empty visit log per walk.
    pub fn new(
        hashed_accounts: Vec<(Vec<u8>, Account)>,
        hashed_storage_tries: Vec<(Vec<u8>, Vec<(Vec<u8>, Hash256)>)>,
    ) -> (r: Self)
        requires
            sorted_keys(hashed_accounts@),
            sorted_keys(hashed_storage_tries@),
            forall|i: int| 0 <= i < hashed_storage_tries@.len() ==> sorted_keys(
                (#[trigger] hashed_storage_tries@[i]).1@,
            ),
        ensures
            r.valid(),
            r.hashed_accounts@ == hashed_accounts@,
            r.hashed_storage_tries@ == hashed_storage_tries@,
            r.visited_account_keys@.len() == 0,
            forall|a: Seq<u8>| (#[trigger] r.storage_visits_spec(a)) matches Some(log)
                ==> log.len() == 0,
    {
        let mut visited_storage_keys: Vec<(Vec<u8>, Vec<Vec<u8>>)> = Vec::new();
        let n = hashed_storage_tries.len();
        let mut i: usize = 0;
        while i < n
            invariant
                0 <= i <= n,
                n == hashed_storage_tries@.len(),
                visited_storage_keys@.len() == i,
                forall|j: int| 0 <= j < i ==> (#[trigger] visited_storage_keys@[j]).0@
                    == hashed_storage_tries@[j].0@ && visited_storage_keys@[j].1@.len() == 0,
            decreases n - i,
        {
            visited_storage_keys.push((dup_bytes(&hashed_storage_tries[i].0), Vec::new()));
            i += 1;
        }
        let r = MockHashedCursorFactory {
            hashed_accounts,
            hashed_storage_tries,
            visited_account_keys: Vec::new(),
            visited_storage_keys,
        };
        proof {
            assert forall|a: Seq<u8>| #[trigger] r.storage_visits_spec(a) is Some implies
            r.storage_visits_spec(a).unwrap().len() == 0 by {
                lemma_lookup_some_means_present(r.visited_storage_keys@, a);
            }
        }
        r
    }

    /// The storage trie stored for a hashed address: the first entry whose
    /// key equals the address.
    pub open spec fn storage_trie_spec(self, hashed_address: Seq<u8>) -> Option<
        Vec<(Vec<u8>, Hash256)>,
    > {
        bytes_key_lookup(self.hashed_storage_tries@, hashed_address)
    }

    /// The accumulated visit log of a hashed address's storage walks.
    pub open spec fn storage_visits_spec(self, hashed_address: Seq<u8>) -> Option<Seq<Seq<u8>>> {
        match bytes_key_lookup(self.visited_storage_keys@, hashed_address) {
            None => None,
            Some(log) => Some(key_views(log@)),
        }
    }

    /// Stores an account cursor's visit log back as the accumulated account
    /// log; the walk's history continues where the cursor left off.
    pub fn absorb_account_visits(&mut self, cursor: &MockHashedCursor<Account>)
        requires
            old(self).valid(),
        ensures
            final(self).valid(),
            key_views(final(self).visited_account_keys@) == cursor.visited_view(),
            final(self).hashed_accounts == old(self).hashed_accounts,
            final(self).hashed_storage_tries == old(self).hashed_storage_tries,
            final(self).visited_storage_keys == old(self).visited_storage_keys,
    {
        self.visited_account_keys = dup_keys(&cursor.visited_keys);
    }

    /// Stores a storage cursor's visit log back as the hashed address's
    /// accumulated log; an unknown address changes nothing.
    pub fn absorb_storage_visits(&mut self, hashed_address: &Vec<u8>, cursor: &MockHashedCursor<
        Hash256,
    >)
        requires
            old(self).valid(),
        ensures
            final(self).valid(),
            final(self).hashed_accounts == old(self).hashed_accounts,
            final(self).hashed_storage_tries == old(self).hashed_storage_tries,
            final(self).visited_account_keys == old(self).visited_account_keys,
            old(self).storage_visits_spec(hashed_address@) is Some
                ==> final(self).storage_visits_spec(hashed_address@)
                == Some(cursor.visited_view()),
            forall|a: Seq<u8>| a != hashed_address@ ==> final(self).storage_visits_spec(a)
                == old(self).storage_visits_spec(a),
            old(self).storage_visits_spec(hashed_address@) is None ==> *final(self) == *old(self),
    {
        let n = self.visited_storage_keys.len();
        let mut i: usize = 0;
        while i < n
            invariant
                0 <= i <= n,
                *self == *old(self),
                old(self).valid(),
                n == self.visited_storage_keys@.len(),
                forall|j: int| 0 <= j < i ==> (#[trigger] self.visited_storage_keys@[j]).0@
                    != hashed_address@,
            decreases n - i,
        {
            if crate::primitives::bytes_eq_vec(&self.visited_storage_keys[i].0, &hashed_address) {
                let ghost pre = self.visited_storage_keys@;
                let key = dup_bytes(&self.visited_storage_keys[i].0);
                let log = dup_keys(&cursor.visited_keys);
                self.visited_storage_keys.set(i, (key, log));
                proof {
                    lemma_bytes_key_lookup_found(pre, hashed_address@, i as int);
                    assert forall|j: int| 0 <= j < self.hashed_storage_tries@.len() implies (
                    #[trigger] self.visited_storage_keys@[j]).0@ == self.hashed_storage_tries@[
                        j].0@ by {
                        if j != i {
                            assert(self.visited_storage_keys@[j] == pre[j]);
                        }
                    }
                    assert forall|a: Seq<u8>| true implies #[trigger] bytes_key_lookup(
                        self.visited_storage_keys@,
                        a,
                    ) == if a == hashed_address@ {
                        Some(self.visited_storage_keys@[i as int].1)
                    } else {
                        bytes_key_lookup(pre, a)
                    } by {
                        lemma_bytes_key_lookup_update(pre, i as int, self.visited_storage_keys@[
                            i as int], a);
                    }
                }
                return ;
            }
            i += 1;
        }
        proof {
            lemma_bytes_key_lookup_absent(self.visited_storage_keys@, hashed_address@);
        }
    }
}

/// A looked-up value comes from some stored entry.
proof fn lemma_lookup_some_means_present<V>(s: Seq<(Vec<u8>, V)>, key: Seq<u8>)
    requires
        bytes_key_lookup(s, key) is Some,
    ensures
        exists|i: int| 0 <= i < s.len() && (#[trigger] s[i]).0@ == key && bytes_key_lookup(s, key)
            == Some(s[i].1),
    decreases s.len(),
{
    if s.len() > 0 && s[0].0@ != key {
        lemma_lookup_some_means_present(s.drop_first(), key);
        let i0 = choose|i0: int|
            0 <= i0 < s.drop_first().len() && (#[trigger] s.drop_first()[i0]).0@ == key
                && bytes_key_lookup(s.drop_first(), key) == Some(s.drop_first()[i0].1);
        assert(s[i0 + 1] == s.drop_first()[i0]);
    }
}

/// After replacing the entry at a matching position with one carrying the
/// same key, a lookup finds the new value there and is unchanged elsewhere.
proof fn lemma_bytes_key_lookup_update<V>(s: Seq<(Vec<u8>, V)>, i: int, v: (Vec<u8>, V), key: Seq<u8>)
    requires
        0 <= i < s.len(),
        forall|j: int| 0 <= j < i ==> s[j].0@ != v.0@,
        s[i].0@ == v.0@,
    ensures
        bytes_key_lookup(s.update(i, v), key) == if key == v.0@ {
            Some(v.1)
        } else {
            bytes_key_lookup(s, key)
        },
    decreases i,
{
    let t = s.update(i, v);
    if i == 0 {
        if key == v.0@ {
        } else {
            assert(t.drop_first() =~= s.drop_first());
        }
    } else {
        assert(t[0] == s[0]);
        assert(t.drop_first() =~= s.drop_first().update(i - 1, v));
        assert forall|j: int| 0 <= j < i - 1 implies s.drop_first()[j].0@ != v.0@ by {
            assert(s.drop_first()[j] == s[j + 1]);
        }
        lemma_bytes_key_lookup_update(s.drop_first(), i - 1, v, key);
    }
}

impl HashedCursorFactory for MockHashedCursorFactory {
    type AccountCursor = MockHashedCursor<Account>;

    type StorageCursor = MockHashedCursor<Hash256>;

    /// The factory's structures are consistent: account entries and trie
    /// addresses ascending, every trie ascending, and exactly one visit log
    /// per trie, under the same address at the same position.
    open spec fn valid(&self) -> bool {
        &&& sorted_keys(self.hashed_accounts@)
        &&& sorted_keys(self.hashed_storage_tries@)
        &&& forall|i: int| 0 <= i < self.hashed_storage_tries@.len() ==> sorted_keys(
            (#[trigger] self.hashed_storage_tries@[i]).1@,
        )
        &&& self.visited_storage_keys@.len() == self.hashed_storage_tries@.len()
        &&& forall|i: int| 0 <= i < self.hashed_storage_tries@.len()
            ==> (#[trigger] self.visited_storage_keys@[i]).0@ == self.hashed_storage_tries@[i].0@
    }

    /// A cursor over the hashed accounts, continuing the accumulated account
    /// visit log.
    fn hashed_account_cursor(&self) -> (out: Result<MockHashedCursor<Account>, DatabaseError>)
        ensures
            out matches Ok(c) ==> {
                &&& c.wf()
                &&& c.values@.len() == self.hashed_accounts@.len()
                &&& forall|i: int| 0 <= i < self.hashed_accounts@.len()
                    ==> (#[trigger] c.values@[i]).0@ == self.hashed_accounts@[i].0@ && c.values@[i].1
                    == self.hashed_accounts@[i].1
                &&& c.visited_view() == key_views(self.visited_account_keys@)
                &&& c.current_key is None
            },
    {
        let values = dup_entries(&self.hashed_accounts);
        let visited = dup_keys(&self.visited_account_keys);
        Ok(MockHashedCursor::new(values, visited))
    }

    /// A cursor over one account's hashed storage, continuing that address's
    /// accumulated visit log; fails exactly when no storage trie is stored
    /// for the address.
    fn hashed_storage_cursor(&self, hashed_address: Vec<u8>) -> (out: Result<
        MockHashedCursor<Hash256>,
        DatabaseError,
    >)
        ensures
            out is Ok <==> self.storage_trie_spec(hashed_address@) is Some,
            out matches Err(e) ==> e == DatabaseError::StorageTrieNotFound(hashed_address),
            out matches Ok(c) ==> {
                &&& c.wf()
                &&& self.storage_trie_spec(hashed_address@) matches Some(t) && {
                    &&& c.values@.len() == t@.len()
                    &&& forall|i: int| 0 <= i < t@.len() ==> (#[trigger] c.values@[i]).0@ == t@[i].0@
                        && c.values@[i].1 == t@[i].1
                }
                &&& self.storage_visits_spec(hashed_address@) == Some(c.visited_view())
                &&& c.current_key is None
            },
    {
        let n = self.hashed_storage_tries.len();
        let mut i: usize = 0;
        while i < n
            invariant
                self.valid(),
                0 <= i <= n,
                n == self.hashed_storage_tries@.len(),
                forall|j: int| 0 <= j < i ==> (#[trigger] self.hashed_storage_tries@[j]).0@
                    != hashed_address@,
            decreases n - i,
        {
            if crate::primitives::bytes_eq_vec(&self.hashed_storage_tries[i].0, &hashed_address) {
                proof {
                    lemma_bytes_key_lookup_found(
                        self.hashed_storage_tries@,
                        hashed_address@,
                        i as int,
                    );
                    assert(self.visited_storage_keys@[i as int].0@ == hashed_address@);
                    assert forall|j: int| 0 <= j < i implies (#[trigger] self.visited_storage_keys@[
                        j]).0@ != hashed_address@ by {
                        assert(self.visited_storage_keys@[j].0@ == self.hashed_storage_tries@[
                            j].0@);
                    }
                    lemma_bytes_key_lookup_found(
                        self.visited_storage_keys@,
                        hashed_address@,
                        i as int,
                    );
                }
                let values = dup_entries(&self.hashed_storage_tries[i].1);
                let visited = dup_keys(&self.visited_storage_keys[i].1);
                return Ok(MockHashedCursor::new(values, visited));
            }
            i += 1;
        }
        proof {
            lemma_bytes_key_lookup_absent(self.hashed_storage_tries@, hashed_address@);
        }
        Err(DatabaseError::StorageTrieNotFound(hashed_address))
    }
}

} // verus!
