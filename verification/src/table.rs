//! A table from opaque integer tokens to owned values: the one place where
//! the state of the exchanges in flight is kept, each under its own token.

use vstd::prelude::*;

verus! {

/// Whether some slot carries the token.
pub open spec fn holds<T>(slots: Seq<(usize, T)>, token: usize) -> bool {
    exists|i: int| 0 <= i < slots.len() && slots[i].0 == token
}

/// The index of a slot that carries the token.
pub open spec fn slot_of<T>(slots: Seq<(usize, T)>, token: usize) -> int {
    choose|i: int| 0 <= i < slots.len() && slots[i].0 == token
}

/// Whether no token is carried by two slots.
pub open spec fn tokens_distinct<T>(slots: Seq<(usize, T)>) -> bool {
    forall|i: int, j: int|
        0 <= i < slots.len() && 0 <= j < slots.len() && i != j ==> slots[i].0 != slots[j].0
}

/// The mapping that the slots stand for.
pub open spec fn mapping_of<T>(slots: Seq<(usize, T)>) -> Map<usize, T> {
    Map::new(|t: usize| holds(slots, t), |t: usize| slots[slot_of(slots, t)].1)
}

/// Where no token occurs twice, the slot at `i` is the one its token leads to.
proof fn lemma_slot_found<T>(slots: Seq<(usize, T)>, i: int)
    requires
        tokens_distinct(slots),
        0 <= i < slots.len(),
    ensures
        holds(slots, slots[i].0),
        slot_of(slots, slots[i].0) == i,
        mapping_of(slots).contains_key(slots[i].0),
        mapping_of(slots)[slots[i].0] == slots[i].1,
{
}

/// A slot with a new token, put at the end, adds that token to the mapping.
proof fn lemma_slot_pushed<T>(slots: Seq<(usize, T)>, token: usize, value: T)
    requires
        tokens_distinct(slots),
        !holds(slots, token),
    ensures
        tokens_distinct(slots.push((token, value))),
        mapping_of(slots.push((token, value))) == mapping_of(slots).insert(token, value),
{
    let after = slots.push((token, value));
    assert(tokens_distinct(after)) by {
        assert forall|i: int, j: int|
            0 <= i < after.len() && 0 <= j < after.len() && i != j implies after[i].0
            != after[j].0 by {
            if i < slots.len() {
                assert(after[i] == slots[i]);
            }
            if j < slots.len() {
                assert(after[j] == slots[j]);
            }
        }
    }
    assert forall|t: usize| holds(after, t) <==> (t == token || holds(slots, t)) by {
        if holds(after, t) {
            let i = slot_of(after, t);
            if i < slots.len() {
                assert(slots[i].0 == t);
            }
        }
        if holds(slots, t) {
            let i = slot_of(slots, t);
            assert(after[i].0 == t);
        }
        if t == token {
            assert(after[slots.len() as int].0 == t);
        }
    }
    assert forall|t: usize| holds(after, t) implies #[trigger] mapping_of(after)[t]
        == mapping_of(slots).insert(token, value)[t] by {
        if t == token {
            lemma_slot_found(after, slots.len() as int);
        } else {
            let i = slot_of(slots, t);
            assert(after[i] == slots[i]);
            lemma_slot_found(after, i);
        }
    }
    assert(mapping_of(after) =~= mapping_of(slots).insert(token, value));
}

/// Taking the slot at `i` away takes its token out of the mapping.
proof fn lemma_slot_removed<T>(slots: Seq<(usize, T)>, i: int)
    requires
        tokens_distinct(slots),
        0 <= i < slots.len(),
    ensures
        tokens_distinct(slots.remove(i)),
        mapping_of(slots.remove(i)) == mapping_of(slots).remove(slots[i].0),
{
    let after = slots.remove(i);
    let token = slots[i].0;
    assert forall|k: int| 0 <= k < after.len() implies after[k] == slots[if k < i {
        k
    } else {
        k + 1
    }] by {}
    assert(tokens_distinct(after)) by {
        assert forall|a: int, b: int|
            0 <= a < after.len() && 0 <= b < after.len() && a != b implies after[a].0
            != after[b].0 by {
            let a2 = if a < i { a } else { a + 1 };
            let b2 = if b < i { b } else { b + 1 };
            assert(after[a] == slots[a2]);
            assert(after[b] == slots[b2]);
        }
    }
    assert forall|t: usize| holds(after, t) <==> (t != token && holds(slots, t)) by {
        if holds(after, t) {
            let k = slot_of(after, t);
            let k2 = if k < i { k } else { k + 1 };
            assert(after[k] == slots[k2]);
            assert(slots[k2].0 == t);
        }
        if t != token && holds(slots, t) {
            let k = slot_of(slots, t);
            let k2 = if k < i { k } else { k - 1 };
            assert(after[k2] == slots[k]);
        }
    }
    assert forall|t: usize| holds(after, t) implies #[trigger] mapping_of(after)[t]
        == mapping_of(slots)[t] by {
        let k = slot_of(after, t);
        let k2 = if k < i { k } else { k + 1 };
        assert(after[k] == slots[k2]);
        lemma_slot_found(slots, k2);
    }
    assert(mapping_of(after) =~= mapping_of(slots).remove(token));
}

/// No slot, no token.
proof fn lemma_no_slots<T>(slots: Seq<(usize, T)>)
    requires
        slots.len() == 0,
    ensures
        mapping_of(slots) == Map::<usize, T>::empty(),
{
    assert(mapping_of(slots) =~= Map::<usize, T>::empty());
}

/// Where no token occurs twice, the mapping has as many tokens as there are
/// slots.
proof fn lemma_slots_counted<T>(slots: Seq<(usize, T)>)
    requires
        tokens_distinct(slots),
    ensures
        mapping_of(slots).dom().finite(),
        mapping_of(slots).dom().len() == slots.len(),
    decreases slots.len(),
{
    if slots.len() == 0 {
        lemma_no_slots(slots);
    } else {
        let i = slots.len() - 1;
        lemma_slot_removed(slots, i);
        lemma_slots_counted(slots.remove(i));
        lemma_slot_found(slots, i);
        assert(mapping_of(slots).dom() =~= mapping_of(slots.remove(i)).dom().insert(slots[i].0));
    }
}

/// A table from tokens to values, with at most one value under a token.
pub struct Table<T> {
    slots: Vec<(usize, T)>,
}

impl<T> Table<T> {
    /// No token is carried by two slots.
    #[verifier::type_invariant]
    pub closed spec fn distinct(&self) -> bool {
        tokens_distinct(self.slots@)
    }

    /// The mapping from token to value.
    pub closed spec fn view(&self) -> Map<usize, T> {
        mapping_of(self.slots@)
    }

    /// An empty table.
    pub fn new() -> (r: Table<T>)
        ensures
            r@ == Map::<usize, T>::empty(),
    {
        let r = Table { slots: Vec::new() };
        proof {
            lemma_no_slots(r.slots@);
        }
        r
    }

    /// The index of the slot that carries the token, if there is one.
    fn find(&self, token: usize) -> (r: Option<usize>)
        ensures
            match r {
                Some(i) => i < self.slots@.len() && self.slots@[i as int].0 == token,
                None => !holds(self.slots@, token),
            },
    {
        let n = self.slots.len();
        let mut i: usize = 0;
        while i < n
            invariant
                n == self.slots@.len(),
                i <= n,
                forall|j: int| 0 <= j < i ==> self.slots@[j].0 != token,
            decreases n - i,
        {
            if self.slots[i].0 == token {
                return Some(i);
            }
            i += 1;
        }
        None
    }

    /// Whether a value stands under the token.
    pub fn contains(&self, token: usize) -> (r: bool)
        ensures
            r == self@.contains_key(token),
    {
        self.find(token).is_some()
    }

    /// The number of tokens.
    pub fn len(&self) -> (r: usize)
        ensures
            self@.dom().finite(),
            r == self@.dom().len(),
    {
        proof {
            use_type_invariant(self);
            lemma_slots_counted(self.slots@);
        }
        self.slots.len()
    }

    /// Takes the value under the token out of the table, if there is one.
    pub fn take(&mut self, token: usize) -> (r: Option<T>)
        ensures
            match r {
                Some(value) => old(self)@.contains_key(token) && value == old(self)@[token],
                None => !old(self)@.contains_key(token),
            },
            final(self)@ == old(self)@.remove(token),
    {
        proof {
            use_type_invariant(&*self);
        }
        match self.find(token) {
            Some(i) => {
                let mut taken = Table::new();
                core::mem::swap(self, &mut taken);
                let mut slots = taken.slots;
                proof {
                    lemma_slot_found(slots@, i as int);
                    lemma_slot_removed(slots@, i as int);
                }
                let slot = slots.remove(i);
                *self = Table { slots };
                Some(slot.1)
            },
            None => {
                assert(self@.remove(token) =~= self@);
                None
            },
        }
    }

    /// Puts the value under the token, and hands out the value that stood
    /// there before.
    pub fn put(&mut self, token: usize, value: T) -> (r: Option<T>)
        ensures
            match r {
                Some(before) => old(self)@.contains_key(token) && before == old(self)@[token],
                None => !old(self)@.contains_key(token),
            },
            final(self)@ == old(self)@.insert(token, value),
    {
        let before = self.take(token);
        proof {
            use_type_invariant(&*self);
        }
        proof {
            assert(!self@.contains_key(token));
            assert(!holds(self.slots@, token));
        }
        let mut taken = Table::new();
        core::mem::swap(self, &mut taken);
        let mut slots = taken.slots;
        proof {
            lemma_slot_pushed(slots@, token, value);
        }
        slots.push((token, value));
        *self = Table { slots };
        proof {
            assert(self@ =~= old(self)@.insert(token, value));
        }
        before
    }
}

} // verus!
