//! The header mapping of a response: key to value, one value per key, the
//! last write winning.

use vstd::prelude::*;

verus! {

/// The mapping that a sequence of writes leaves behind: each pair is written
/// in turn, a later pair replacing an earlier one with the same key.
pub open spec fn map_of_writes(writes: Seq<(Seq<char>, Seq<char>)>) -> Map<Seq<char>, Seq<char>>
    decreases writes.len(),
{
    if writes.len() == 0 {
        Map::empty()
    } else {
        map_of_writes(writes.drop_last()).insert(writes.last().0, writes.last().1)
    }
}

/// Whether no key occurs twice among the pairs.
pub open spec fn keys_distinct(pairs: Seq<(Seq<char>, Seq<char>)>) -> bool {
    forall|i: int, j: int|
        0 <= i < pairs.len() && 0 <= j < pairs.len() && i != j ==> pairs[i].0 != pairs[j].0
}

/// A key is in the mapping exactly when some pair carries it.
proof fn lemma_map_of_writes_dom(writes: Seq<(Seq<char>, Seq<char>)>, key: Seq<char>)
    ensures
        map_of_writes(writes).contains_key(key) <==> exists|i: int|
            0 <= i < writes.len() && writes[i].0 == key,
    decreases writes.len(),
{
    if writes.len() > 0 {
        let front = writes.drop_last();
        lemma_map_of_writes_dom(front, key);
        if map_of_writes(writes).contains_key(key) {
            if writes.last().0 == key {
                assert(writes[writes.len() - 1].0 == key);
            } else {
                let i = choose|i: int| 0 <= i < front.len() && front[i].0 == key;
                assert(writes[i].0 == key);
            }
        }
        if exists|i: int| 0 <= i < writes.len() && writes[i].0 == key {
            let i = choose|i: int| 0 <= i < writes.len() && writes[i].0 == key;
            if i < writes.len() - 1 {
                assert(front[i].0 == key);
            }
        }
    }
}

/// Where no key occurs twice, each pair's value is the one the mapping holds.
proof fn lemma_map_of_writes_value(writes: Seq<(Seq<char>, Seq<char>)>, i: int)
    requires
        keys_distinct(writes),
        0 <= i < writes.len(),
    ensures
        map_of_writes(writes).contains_key(writes[i].0),
        map_of_writes(writes)[writes[i].0] == writes[i].1,
    decreases writes.len(),
{
    let front = writes.drop_last();
    if i < writes.len() - 1 {
        assert(keys_distinct(front)) by {
            assert forall|a: int, b: int|
                0 <= a < front.len() && 0 <= b < front.len() && a != b implies front[a].0
                != front[b].0 by {
                assert(front[a] == writes[a]);
                assert(front[b] == writes[b]);
            }
        }
        lemma_map_of_writes_value(front, i);
        assert(front[i] == writes[i]);
        assert(writes[i].0 != writes[writes.len() - 1].0);
    }
}

/// Where no key occurs twice, the mapping has as many keys as there are pairs.
proof fn lemma_map_of_writes_len(writes: Seq<(Seq<char>, Seq<char>)>)
    requires
        keys_distinct(writes),
    ensures
        map_of_writes(writes).dom().finite(),
        map_of_writes(writes).dom().len() == writes.len(),
    decreases writes.len(),
{
    if writes.len() > 0 {
        let front = writes.drop_last();
        assert(keys_distinct(front)) by {
            assert forall|a: int, b: int|
                0 <= a < front.len() && 0 <= b < front.len() && a != b implies front[a].0
                != front[b].0 by {
                assert(front[a] == writes[a]);
                assert(front[b] == writes[b]);
            }
        }
        lemma_map_of_writes_len(front);
        lemma_map_of_writes_dom(front, writes.last().0);
        if map_of_writes(front).contains_key(writes.last().0) {
            let i = choose|i: int| 0 <= i < front.len() && front[i].0 == writes.last().0;
            assert(front[i] == writes[i]);
            assert(writes[i].0 == writes[writes.len() - 1].0);
        }
        assert(map_of_writes(writes).dom() =~= map_of_writes(front).dom().insert(
            writes.last().0,
        ));
    } else {
        assert(map_of_writes(writes).dom() =~= Set::<Seq<char>>::empty());
    }
}

/// Replacing the value of the pair at `i` is the same as writing that pair's
/// key once more, where no key occurs twice.
proof fn lemma_map_of_writes_update(
    writes: Seq<(Seq<char>, Seq<char>)>,
    i: int,
    value: Seq<char>,
)
    requires
        keys_distinct(writes),
        0 <= i < writes.len(),
    ensures
        map_of_writes(writes.update(i, (writes[i].0, value))) =~= map_of_writes(writes).insert(
            writes[i].0,
            value,
        ),
    decreases writes.len(),
{
    let key = writes[i].0;
    let after = writes.update(i, (key, value));
    let front = writes.drop_last();
    if i == writes.len() - 1 {
        assert(after.drop_last() =~= front);
    } else {
        assert(keys_distinct(front)) by {
            assert forall|a: int, b: int|
                0 <= a < front.len() && 0 <= b < front.len() && a != b implies front[a].0
                != front[b].0 by {
                assert(front[a] == writes[a]);
                assert(front[b] == writes[b]);
            }
        }
        assert(front[i] == writes[i]);
        lemma_map_of_writes_update(front, i, value);
        assert(after.drop_last() =~= front.update(i, (key, value)));
        assert(after.last() == writes.last());
        assert(writes[i].0 != writes[writes.len() - 1].0);
    }
}

/// Stored strings, each by its characters.
spec fn pairs_of(entries: Seq<(String, String)>) -> Seq<(Seq<char>, Seq<char>)> {
    Seq::new(entries.len(), |i: int| (entries[i].0@, entries[i].1@))
}

/// A mapping from header key to header value. Keys are matched exactly, with
/// no case folding, and writing a key that is present replaces its value.
#[derive(Debug)]
pub struct HeaderMap {
    entries: Vec<(String, String)>,
}

impl HeaderMap {
    /// The stored pairs, each string by its characters.
    pub closed spec fn pairs(&self) -> Seq<(Seq<char>, Seq<char>)> {
        pairs_of(self.entries@)
    }

    /// No key is stored twice.
    #[verifier::type_invariant]
    pub closed spec fn distinct(&self) -> bool {
        keys_distinct(self.pairs())
    }

    /// The mapping that the stored pairs stand for.
    pub closed spec fn view(&self) -> Map<Seq<char>, Seq<char>> {
        map_of_writes(self.pairs())
    }

    /// An empty mapping.
    pub fn new() -> (r: HeaderMap)
        ensures
            r@ == Map::<Seq<char>, Seq<char>>::empty(),
    {
        let r = HeaderMap { entries: Vec::new() };
        assert(r.pairs() =~= Seq::empty());
        r
    }

    /// The index of the pair that carries `key`, if there is one.
    fn position(&self, key: &String) -> (r: Option<usize>)
        ensures
            match r {
                Some(i) => i < self.pairs().len() && self.pairs()[i as int].0 == key@,
                None => forall|j: int| 0 <= j < self.pairs().len() ==> self.pairs()[j].0 != key@,
            },
    {
        let n = self.entries.len();
        let mut i: usize = 0;
        while i < n
            invariant
                n == self.entries@.len(),
                i <= n,
                forall|j: int| 0 <= j < i ==> self.pairs()[j].0 != key@,
            decreases n - i,
        {
            if self.entries[i].0 == *key {
                return Some(i);
            }
            i += 1;
        }
        None
    }

    /// Writes `value` under `key`, replacing the value that was there.
    pub fn insert(&mut self, key: String, value: String)
        ensures
            final(self)@ == old(self)@.insert(key@, value@),
    {
        proof {
            use_type_invariant(&*self);
        }
        let ghost before = self.pairs();
        let found = self.position(&key);
        let mut taken = HeaderMap::new();
        core::mem::swap(self, &mut taken);
        let mut entries = taken.entries;
        match found {
            Some(i) => {
                entries.set(i, (key, value));
                proof {
                    assert(pairs_of(entries@) =~= before.update(i as int, (key@, value@)));
                    lemma_map_of_writes_update(before, i as int, value@);
                }
                *self = HeaderMap { entries };
            },
            None => {
                entries.push((key, value));
                proof {
                    assert(pairs_of(entries@) =~= before.push((key@, value@)));
                    assert(pairs_of(entries@).drop_last() =~= before);
                }
                *self = HeaderMap { entries };
            },
        }
    }

    /// The value stored under `key`, if the key is present.
    pub fn get(&self, key: &str) -> (r: Option<&str>)
        ensures
            match r {
                Some(v) => self@.contains_key(key@) && v@ == self@[key@],
                None => !self@.contains_key(key@),
            },
    {
        proof {
            use_type_invariant(self);
            lemma_map_of_writes_dom(self.pairs(), key@);
        }
        let owned = key.to_owned();
        match self.position(&owned) {
            Some(i) => {
                proof {
                    lemma_map_of_writes_value(self.pairs(), i as int);
                }
                Some(self.entries[i].1.as_str())
            },
            None => None,
        }
    }

    /// The number of keys.
    pub fn len(&self) -> (r: usize)
        ensures
            self@.dom().finite(),
            r == self@.dom().len(),
    {
        proof {
            use_type_invariant(self);
            lemma_map_of_writes_len(self.pairs());
        }
        self.entries.len()
    }

    /// The keys, each once, in no order that callers may rely on.
    pub fn list(&self) -> (r: Vec<&str>)
        ensures
            self@.dom().finite(),
            r@.len() == self@.dom().len(),
            forall|i: int| 0 <= i < r@.len() ==> self@.contains_key(#[trigger] r@[i]@),
            forall|i: int, j: int| 0 <= i < r@.len() && 0 <= j < r@.len() && i != j ==> r@[i]@ != r@[j]@,
            forall|k: Seq<char>| self@.contains_key(k) ==> exists|i: int| 0 <= i < r@.len() && r@[i]@ == k,
    {
        proof {
            use_type_invariant(self);
            lemma_map_of_writes_len(self.pairs());
        }
        let n = self.entries.len();
        let mut keys: Vec<&str> = Vec::new();
        let mut i: usize = 0;
        while i < n
            invariant
                n == self.entries@.len(),
                i <= n,
                keys@.len() == i,
                forall|j: int| 0 <= j < i ==> (#[trigger] keys@[j])@ == self.pairs()[j].0,
            decreases n - i,
        {
            keys.push(self.entries[i].0.as_str());
            i += 1;
        }
        proof {
            assert forall|i: int| 0 <= i < keys@.len() implies self@.contains_key(
                #[trigger] keys@[i]@,
            ) by {
                lemma_map_of_writes_value(self.pairs(), i);
            }
            assert forall|k: Seq<char>| self@.contains_key(k) implies exists|i: int|
                0 <= i < keys@.len() && keys@[i]@ == k by {
                lemma_map_of_writes_dom(self.pairs(), k);
                let i = choose|i: int| 0 <= i < self.pairs().len() && self.pairs()[i].0 == k;
                assert(keys@[i]@ == k);
            }
        }
        keys
    }
}

} // verus!
