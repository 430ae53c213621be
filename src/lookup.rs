//! The lookup table from a block shape to the tile resource that draws it.
use vstd::prelude::*;
use crate::keys::BlockKeys;

verus! {

/// Where the tiles of one block shape come from.
#[derive(Clone, Debug, PartialEq, Eq)]
pub struct BlockUnitCellKVPValue {
    /// The id of the tile source that holds the scene tile.
    pub source_id: i32,
    /// The host's handle of the tile's scene, if it has one.
    pub scene: Option<i64>,
    /// The resource path of that scene, if known.
    pub resource_path: Option<String>,
}

/// No two entries share a key.
pub open spec fn keys_unique(s: Seq<(BlockKeys, BlockUnitCellKVPValue)>) -> bool {
    forall|i: int, j: int|
        0 <= i < s.len() && 0 <= j < s.len() && i != j ==> (#[trigger] s[i]).0 != (
        #[trigger] s[j]).0
}

/// Some entry of `s` has key `k`.
pub open spec fn has_key(s: Seq<(BlockKeys, BlockUnitCellKVPValue)>, k: BlockKeys) -> bool {
    exists|i: int| 0 <= i < s.len() && (#[trigger] s[i]).0 == k
}

/// The keys of the entries, in their order.
pub open spec fn entry_keys(s: Seq<(BlockKeys, BlockUnitCellKVPValue)>) -> Seq<BlockKeys> {
    s.map_values(|e: (BlockKeys, BlockUnitCellKVPValue)| e.0)
}

/// The mapping that a sequence of entries stands for.
pub open spec fn entries_map(s: Seq<(BlockKeys, BlockUnitCellKVPValue)>) -> Map<
    BlockKeys,
    BlockUnitCellKVPValue,
> {
    Map::new(
        |k: BlockKeys| has_key(s, k),
        |k: BlockKeys| s[choose|i: int| 0 <= i < s.len() && (#[trigger] s[i]).0 == k].1,
    )
}

/// With unique keys, the entry at `i` is what the mapping holds for its key.
proof fn lemma_entry_in_map(s: Seq<(BlockKeys, BlockUnitCellKVPValue)>, i: int)
    requires
        keys_unique(s),
        0 <= i < s.len(),
    ensures
        entries_map(s).contains_key(s[i].0),
        entries_map(s)[s[i].0] == s[i].1,
{
    let k = s[i].0;
    assert(has_key(s, k));
    let j = choose|j: int| 0 <= j < s.len() && (#[trigger] s[j]).0 == k;
    assert(j == i);
}

/// Two sequences with unique keys, the same key set and the same entry for
/// each key stand for the same mapping.
proof fn lemma_same_map(
    s: Seq<(BlockKeys, BlockUnitCellKVPValue)>,
    m: Map<BlockKeys, BlockUnitCellKVPValue>,
)
    requires
        keys_unique(s),
        forall|k: BlockKeys| has_key(s, k) <==> m.contains_key(k),
        forall|i: int| 0 <= i < s.len() ==> m[(#[trigger] s[i]).0] == s[i].1,
    ensures
        entries_map(s) == m,
{
    assert forall|k: BlockKeys| #[trigger] entries_map(s).contains_key(k) implies entries_map(s)[k]
        == m[k] by {
        let i = choose|i: int| 0 <= i < s.len() && (#[trigger] s[i]).0 == k;
        lemma_entry_in_map(s, i);
    }
    assert(entries_map(s) =~= m);
}

/// The number of keys of the mapping is the number of entries.
proof fn lemma_map_len(s: Seq<(BlockKeys, BlockUnitCellKVPValue)>)
    requires
        keys_unique(s),
    ensures
        entries_map(s).dom() == entry_keys(s).to_set(),
        entry_keys(s).no_duplicates(),
        entries_map(s).len() == s.len(),
{
    let ks = entry_keys(s);
    assert forall|k: BlockKeys| #[trigger] entries_map(s).dom().contains(k) <==> ks.to_set().contains(
        k,
    ) by {
        if has_key(s, k) {
            let i = choose|i: int| 0 <= i < s.len() && (#[trigger] s[i]).0 == k;
            assert(ks[i] == k);
        }
        if ks.contains(k) {
            let i = choose|i: int| 0 <= i < ks.len() && ks[i] == k;
            assert(s[i].0 == k);
        }
    }
    assert(entries_map(s).dom() =~= ks.to_set());
    assert forall|i: int, j: int| 0 <= i < ks.len() && 0 <= j < ks.len() && i != j implies ks[i]
        != ks[j] by {
        assert(s[i].0 != s[j].0);
    }
    ks.unique_seq_to_set();
}

/// A table from block shape to tile resource. Each shape has at most one
/// entry; inserting an existing shape replaces its entry.
#[derive(Clone, Debug, PartialEq, Eq)]
pub struct BlockUnitCellDictionaryType {
    entries: Vec<(BlockKeys, BlockUnitCellKVPValue)>,
}

impl View for BlockUnitCellDictionaryType {
    type V = Map<BlockKeys, BlockUnitCellKVPValue>;

    closed spec fn view(&self) -> Map<BlockKeys, BlockUnitCellKVPValue> {
        entries_map(self.entries@)
    }
}

impl BlockUnitCellDictionaryType {
    /// The table keeps one entry per key.
    pub closed spec fn wf(&self) -> bool {
        keys_unique(self.entries@)
    }

    /// The keys in the order in which `keys` and `values` hand them out.
    pub closed spec fn key_order(&self) -> Seq<BlockKeys> {
        entry_keys(self.entries@)
    }

    /// An empty table.
    pub fn new() -> (r: Self)
        ensures
            r.wf(),
            r@ == Map::<BlockKeys, BlockUnitCellKVPValue>::empty(),
    {
        let r = BlockUnitCellDictionaryType { entries: Vec::new() };
        assert(r@ =~= Map::<BlockKeys, BlockUnitCellKVPValue>::empty());
        r
    }

    /// The position of the entry with key `key`, if any.
    fn find(&self, key: BlockKeys) -> (r: Option<usize>)
        requires
            self.wf(),
        ensures
            match r {
                Some(i) => i < self.entries@.len() && self.entries@[i as int].0 == key,
                None => !has_key(self.entries@, key),
            },
    {
        let mut i: usize = 0;
        while i < self.entries.len()
            invariant
                i <= self.entries@.len(),
                forall|j: int| 0 <= j < i ==> (#[trigger] self.entries@[j]).0 != key,
            decreases self.entries@.len() - i,
        {
            if self.entries[i].0 == key {
                return Some(i);
            }
            i = i + 1;
        }
        None
    }

    /// Inserts or replaces the entry for `key`; returns the entry it replaced.
    pub fn insert(&mut self, key: BlockKeys, value: BlockUnitCellKVPValue) -> (r: Option<
        BlockUnitCellKVPValue,
    >)
        requires
            old(self).wf(),
        ensures
            final(self).wf(),
            final(self)@ == old(self)@.insert(key, value),
            r == (if old(self)@.contains_key(key) {
                Some(old(self)@[key])
            } else {
                None
            }),
    {
        let ghost old_entries = self.entries@;
        let ghost target = old_entries.len();
        match self.find(key) {
            Some(i) => {
                proof {
                    lemma_entry_in_map(old_entries, i as int);
                }
                let mut pair = (key, value);
                self.entries.set_and_swap(i, &mut pair);
                let ghost new_entries = self.entries@;
                assert forall|a: int, b: int|
                    0 <= a < new_entries.len() && 0 <= b < new_entries.len() && a != b implies (
                    #[trigger] new_entries[a]).0 != (#[trigger] new_entries[b]).0 by {
                    assert(old_entries[a].0 != old_entries[b].0);
                }
                assert forall|k: BlockKeys|
                    has_key(new_entries, k) <==> old_entries.len() >= 0 && entries_map(
                        old_entries,
                    ).insert(key, value).contains_key(k) by {
                    if has_key(old_entries, k) {
                        let j = choose|j: int|
                            0 <= j < old_entries.len() && (#[trigger] old_entries[j]).0 == k;
                        assert(new_entries[j].0 == k);
                    }
                    if has_key(new_entries, k) {
                        let j = choose|j: int|
                            0 <= j < new_entries.len() && (#[trigger] new_entries[j]).0 == k;
                        if j != i {
                            assert(old_entries[j].0 == k);
                        }
                    }
                }
                assert forall|j: int| 0 <= j < new_entries.len() implies entries_map(
                    old_entries,
                ).insert(key, value)[(#[trigger] new_entries[j]).0] == new_entries[j].1 by {
                    if j != i {
                        lemma_entry_in_map(old_entries, j);
                    }
                }
                proof {
                    lemma_same_map(new_entries, entries_map(old_entries).insert(key, value));
                }
                Some(pair.1)
            },
            None => {
                self.entries.push((key, value));
                let ghost new_entries = self.entries@;
                assert forall|a: int, b: int|
                    0 <= a < new_entries.len() && 0 <= b < new_entries.len() && a != b implies (
                    #[trigger] new_entries[a]).0 != (#[trigger] new_entries[b]).0 by {
                    if a < target && b < target {
                        assert(old_entries[a].0 != old_entries[b].0);
                    } else if a < target {
                        assert(old_entries[a] == new_entries[a]);
                    } else {
                        assert(old_entries[b] == new_entries[b]);
                    }
                }
                assert forall|k: BlockKeys|
                    has_key(new_entries, k) <==> entries_map(old_entries).insert(
                        key,
                        value,
                    ).contains_key(k) by {
                    if has_key(old_entries, k) {
                        let j = choose|j: int|
                            0 <= j < old_entries.len() && (#[trigger] old_entries[j]).0 == k;
                        assert(new_entries[j].0 == k);
                    }
                    if k == key {
                        assert(new_entries[target as int].0 == k);
                    }
                    if has_key(new_entries, k) && k != key {
                        let j = choose|j: int|
                            0 <= j < new_entries.len() && (#[trigger] new_entries[j]).0 == k;
                        assert(old_entries[j].0 == k);
                    }
                }
                assert forall|j: int| 0 <= j < new_entries.len() implies entries_map(
                    old_entries,
                ).insert(key, value)[(#[trigger] new_entries[j]).0] == new_entries[j].1 by {
                    if j < target {
                        assert(new_entries[j] == old_entries[j]);
                        lemma_entry_in_map(old_entries, j);
                    }
                }
                proof {
                    lemma_same_map(new_entries, entries_map(old_entries).insert(key, value));
                }
                None
            },
        }
    }
    /// The entry for `key`, if any.
    pub fn get(&self, key: &BlockKeys) -> (r: Option<&BlockUnitCellKVPValue>)
        requires
            self.wf(),
        ensures
            match r {
                Some(v) => self@.contains_key(*key) && *v == self@[*key],
                None => !self@.contains_key(*key),
            },
    {
        match self.find(*key) {
            Some(i) => {
                proof {
                    lemma_entry_in_map(self.entries@, i as int);
                }
                Some(&self.entries[i].1)
            },
            None => None,
        }
    }

    /// Removes the entry for `key`; returns it if there was one.
    pub fn remove(&mut self, key: &BlockKeys) -> (r: Option<BlockUnitCellKVPValue>)
        requires
            old(self).wf(),
        ensures
            final(self).wf(),
            final(self)@ == old(self)@.remove(*key),
            r == (if old(self)@.contains_key(*key) {
                Some(old(self)@[*key])
            } else {
                None
            }),
    {
        let ghost old_entries = self.entries@;
        match self.find(*key) {
            Some(i) => {
                proof {
                    lemma_entry_in_map(old_entries, i as int);
                }
                let pair = self.entries.remove(i);
                let ghost new_entries = self.entries@;
                assert forall|a: int, b: int|
                    0 <= a < new_entries.len() && 0 <= b < new_entries.len() && a != b implies (
                    #[trigger] new_entries[a]).0 != (#[trigger] new_entries[b]).0 by {
                    let oa = if a < i { a } else { a + 1 };
                    let ob = if b < i { b } else { b + 1 };
                    assert(new_entries[a] == old_entries[oa]);
                    assert(new_entries[b] == old_entries[ob]);
                    assert(old_entries[oa].0 != old_entries[ob].0);
                }
                assert forall|k: BlockKeys|
                    has_key(new_entries, k) <==> entries_map(old_entries).remove(
                        *key,
                    ).contains_key(k) by {
                    if has_key(old_entries, k) && k != *key {
                        let j = choose|j: int|
                            0 <= j < old_entries.len() && (#[trigger] old_entries[j]).0 == k;
                        assert(j != i);
                        let nj = if j < i { j } else { j - 1 };
                        assert(new_entries[nj] == old_entries[j]);
                    }
                    if has_key(new_entries, k) {
                        let j = choose|j: int|
                            0 <= j < new_entries.len() && (#[trigger] new_entries[j]).0 == k;
                        let oj = if j < i { j } else { j + 1 };
                        assert(new_entries[j] == old_entries[oj]);
                        assert(oj != i);
                        assert(old_entries[oj].0 != old_entries[i as int].0);
                    }
                }
                assert forall|j: int| 0 <= j < new_entries.len() implies entries_map(
                    old_entries,
                ).remove(*key)[(#[trigger] new_entries[j]).0] == new_entries[j].1 by {
                    let oj = if j < i { j } else { j + 1 };
                    assert(new_entries[j] == old_entries[oj]);
                    lemma_entry_in_map(old_entries, oj);
                }
                proof {
                    lemma_same_map(new_entries, entries_map(old_entries).remove(*key));
                }
                Some(pair.1)
            },
            None => {
                assert(entries_map(old_entries).remove(*key) =~= entries_map(old_entries));
                None
            },
        }
    }

    /// The number of entries.
    pub fn len(&self) -> (r: usize)
        requires
            self.wf(),
        ensures
            r == self@.len(),
    {
        proof {
            lemma_map_len(self.entries@);
        }
        self.entries.len()
    }

    /// Whether the table has no entry.
    pub fn is_empty(&self) -> (r: bool)
        requires
            self.wf(),
        ensures
            r == (self@.len() == 0),
            r == (self@ == Map::<BlockKeys, BlockUnitCellKVPValue>::empty()),
    {
        proof {
            lemma_map_len(self.entries@);
            if self.entries@.len() > 0 {
                lemma_entry_in_map(self.entries@, 0);
                assert(!Map::<BlockKeys, BlockUnitCellKVPValue>::empty().contains_key(
                    self.entries@[0].0,
                ));
            } else {
                assert(self@ =~= Map::<BlockKeys, BlockUnitCellKVPValue>::empty());
            }
        }
        self.entries.len() == 0
    }

    /// Removes every entry.
    pub fn clear(&mut self)
        ensures
            final(self).wf(),
            final(self)@ == Map::<BlockKeys, BlockUnitCellKVPValue>::empty(),
    {
        self.entries.clear();
        assert(self@ =~= Map::<BlockKeys, BlockUnitCellKVPValue>::empty());
    }

    /// The keys of the table, each once, in `key_order`.
    pub fn keys(&self) -> (r: Vec<BlockKeys>)
        requires
            self.wf(),
        ensures
            r@ == self.key_order(),
            r@.no_duplicates(),
            r@.to_set() == self@.dom(),
    {
        proof {
            lemma_map_len(self.entries@);
        }
        let mut r: Vec<BlockKeys> = Vec::new();
        let mut i: usize = 0;
        while i < self.entries.len()
            invariant
                i <= self.entries@.len(),
                r@ == entry_keys(self.entries@).take(i as int),
            decreases self.entries@.len() - i,
        {
            r.push(self.entries[i].0);
            i = i + 1;
            assert(r@ =~= entry_keys(self.entries@).take(i as int));
        }
        assert(r@ =~= entry_keys(self.entries@));
        r
    }

    /// The entries of the table, in `key_order`: the entry at position `i`
    /// is that of the key at position `i`.
    pub fn values(&self) -> (r: Vec<&BlockUnitCellKVPValue>)
        requires
            self.wf(),
        ensures
            r@.len() == self.key_order().len(),
            forall|i: int| 0 <= i < r@.len() ==> *(#[trigger] r@[i]) == self@[self.key_order()[i]],
    {
        let mut r: Vec<&BlockUnitCellKVPValue> = Vec::new();
        let mut i: usize = 0;
        while i < self.entries.len()
            invariant
                self.wf(),
                i <= self.entries@.len(),
                r@.len() == i,
                forall|j: int| 0 <= j < i ==> *(#[trigger] r@[j]) == self.entries@[j].1,
            decreases self.entries@.len() - i,
        {
            r.push(&self.entries[i].1);
            i = i + 1;
        }
        assert forall|i: int| 0 <= i < r@.len() implies *(#[trigger] r@[i]) == self@[self.key_order()[i]] by {
            lemma_entry_in_map(self.entries@, i);
        }
        r
    }
}

/// Inserting the same key twice leaves a single entry for it, holding the
/// second value: the table is as if only the second insertion was made, and
/// the second insertion adds no entry.
pub proof fn upsert_same_key_twice(
    t: BlockUnitCellDictionaryType,
    key: BlockKeys,
    first: BlockUnitCellKVPValue,
    second: BlockUnitCellKVPValue,
)
    requires
        t.wf(),
    ensures
        t@.insert(key, first).insert(key, second) == t@.insert(key, second),
        t@.insert(key, first).insert(key, second).len() == t@.insert(key, first).len(),
        t@.insert(key, first).insert(key, second)[key] == second,
{
    lemma_map_len(t.entries@);
    let once = t@.insert(key, first);
    assert(once.insert(key, second) =~= t@.insert(key, second));
    assert(once.dom().insert(key) =~= once.dom());
}

} // verus!
