//! Tables: values under keys, each key once, in the order in which the keys were
//! first put in.

use crate::text::{own, text_eq};
use vstd::prelude::*;

verus! {

/// A type whose values serve as keys.
pub trait Key: View + Sized {
    /// Whether two keys are the same.
    fn same_key(&self, other: &Self) -> (r: bool)
        ensures
            r == (self@ == other@),
    ;

    /// The same key.
    fn copy_key(&self) -> (r: Self)
        ensures
            r@ == self@,
    ;
}

impl Key for String {
    fn same_key(&self, other: &String) -> (r: bool) {
        text_eq(self.as_str(), other.as_str())
    }

    fn copy_key(&self) -> (r: String) {
        own(self.as_str())
    }
}

impl Key for u64 {
    fn same_key(&self, other: &u64) -> (r: bool) {
        *self == *other
    }

    fn copy_key(&self) -> (r: u64) {
        *self
    }
}

impl Key for i64 {
    fn same_key(&self, other: &i64) -> (r: bool) {
        *self == *other
    }

    fn copy_key(&self) -> (r: i64) {
        *self
    }
}

/// The value under the first entry with a key.
pub open spec fn lookup<K, V>(s: Seq<(K, V)>, key: K) -> Option<V>
    decreases s.len(),
{
    if s.len() == 0 {
        None
    } else if s[0].0 == key {
        Some(s[0].1)
    } else {
        lookup(s.drop_first(), key)
    }
}

/// The table with a value put under a key: in place of the old value, or at
/// the end.
pub open spec fn put<K, V>(s: Seq<(K, V)>, key: K, value: V) -> Seq<(K, V)>
    decreases s.len(),
{
    if s.len() == 0 {
        seq![(key, value)]
    } else if s[0].0 == key {
        seq![(key, value)] + s.drop_first()
    } else {
        seq![s[0]] + put(s.drop_first(), key, value)
    }
}

/// The table without a key.
pub open spec fn without<K, V>(s: Seq<(K, V)>, key: K) -> Seq<(K, V)> {
    s.filter(|e: (K, V)| e.0 != key)
}

/// Whether no key occurs twice.
pub open spec fn unique<K, V>(s: Seq<(K, V)>) -> bool {
    forall|i: int, j: int| 0 <= i < j < s.len() ==> (#[trigger] s[i]).0 != (#[trigger] s[j]).0
}

/// The entries of a vector, as mathematics.
pub open spec fn pairs<K: View, V: View>(s: Seq<(K, V)>) -> Seq<(K::V, V::V)> {
    s.map_values(|e: (K, V)| (e.0@, e.1@))
}

/// What a key finds after another was put in.
pub proof fn lemma_lookup_put<K, V>(s: Seq<(K, V)>, key: K, value: V, k: K)
    ensures
        lookup(put(s, key, value), k) == if k == key {
            Some(value)
        } else {
            lookup(s, k)
        },
    decreases s.len(),
{
    reveal_with_fuel(lookup, 2);
    if s.len() == 0 {
        assert(put(s, key, value).drop_first() =~= Seq::empty());
    } else if s[0].0 == key {
        assert(put(s, key, value).drop_first() =~= s.drop_first());
    } else {
        lemma_lookup_put(s.drop_first(), key, value, k);
        assert(put(s, key, value).drop_first() =~= put(s.drop_first(), key, value));
    }
}

/// Filtering, one entry from the front.
pub proof fn lemma_filter_front<A>(s: Seq<A>, f: spec_fn(A) -> bool)
    requires
        s.len() > 0,
    ensures
        s.filter(f) == (if f(s[0]) {
            seq![s[0]]
        } else {
            Seq::empty()
        }) + s.drop_first().filter(f),
    decreases s.len(),
{
    reveal(Seq::filter);
    if s.len() == 1 {
        assert(s.drop_first() =~= Seq::empty());
        assert(s.drop_last() =~= Seq::empty());
        assert(s.drop_last().filter(f) =~= Seq::empty());
        assert(s.drop_first().filter(f) =~= Seq::empty());
        assert(s.filter(f) =~= (if f(s[0]) {
            seq![s[0]]
        } else {
            Seq::empty()
        }));
    } else {
        lemma_filter_front(s.drop_last(), f);
        assert(s.drop_first().drop_last() =~= s.drop_last().drop_first());
        assert(s.filter(f) =~= (if f(s[0]) {
            seq![s[0]]
        } else {
            Seq::empty()
        }) + s.drop_first().filter(f));
    }
}

/// Filtering, one entry more.
pub proof fn lemma_filter_step<A>(s: Seq<A>, f: spec_fn(A) -> bool, i: int)
    requires
        0 <= i < s.len(),
    ensures
        s.take(i + 1).filter(f) == if f(s[i]) {
            s.take(i).filter(f).push(s[i])
        } else {
            s.take(i).filter(f)
        },
{
    reveal(Seq::filter);
    assert(s.take(i + 1).drop_last() =~= s.take(i));
}

/// Filtering nothing.
pub proof fn lemma_filter_none<A>(s: Seq<A>, f: spec_fn(A) -> bool)
    ensures
        s.take(0).filter(f) == Seq::<A>::empty(),
{
    reveal(Seq::filter);
    assert(s.take(0) =~= Seq::empty());
}

/// Taking a key out keeps exactly the entries with another key.
pub proof fn lemma_without<K, V>(s: Seq<(K, V)>, key: K, f: spec_fn((K, V)) -> bool)
    requires
        forall|e: (K, V)| #[trigger] f(e) == (e.0 != key),
    ensures
        without(s, key) == s.filter(f),
    decreases s.len(),
{
    reveal(Seq::filter);
    if s.len() > 0 {
        lemma_without(s.drop_last(), key, f);
    }
}

/// What a key finds after another was taken out.
pub proof fn lemma_lookup_without<K, V>(s: Seq<(K, V)>, key: K, k: K)
    ensures
        lookup(without(s, key), k) == if k == key {
            None
        } else {
            lookup(s, k)
        },
    decreases s.len(),
{
    let f = |e: (K, V)| e.0 != key;
    if s.len() == 0 {
        assert(s.filter(f) =~= s) by {
            reveal(Seq::filter);
        }
    } else {
        lemma_filter_front(s, f);
        lemma_lookup_without(s.drop_first(), key, k);
        let rest = without(s.drop_first(), key);
        if f(s[0]) {
            assert(without(s, key).drop_first() =~= rest);
            assert(without(s, key)[0] == s[0]);
        } else {
            assert(without(s, key) =~= rest);
        }
    }
}

/// A key that is found stands in the table.
pub proof fn lemma_lookup_found<K, V>(s: Seq<(K, V)>, k: K) -> (i: int)
    requires
        lookup(s, k) is Some,
    ensures
        0 <= i < s.len(),
        s[i] == (k, lookup(s, k)->0),
    decreases s.len(),
{
    if s[0].0 == k {
        0
    } else {
        1 + lemma_lookup_found(s.drop_first(), k)
    }
}

/// Some of the entries of a table have no key twice either.
pub proof fn lemma_filter_unique<K, V>(s: Seq<(K, V)>, f: spec_fn((K, V)) -> bool)
    requires
        unique(s),
    ensures
        unique(s.filter(f)),
    decreases s.len(),
{
    reveal(Seq::filter);
    if s.len() > 0 {
        let front = s.drop_last();
        let kept = front.filter(f);
        assert forall|i: int, j: int| 0 <= i < j < front.len() implies (#[trigger] front[i]).0 != (
        #[trigger] front[j]).0 by {
            assert(s[i].0 != s[j].0);
        }
        lemma_filter_unique(front, f);
        assert forall|i: int| 0 <= i < kept.len() implies (#[trigger] kept[i]).0 != s.last().0 by {
            assert(kept.contains(kept[i]));
            front.lemma_filter_contains_rev(f, kept[i]);
            let k = choose|k: int| 0 <= k < front.len() && front[k] == kept[i];
            assert(s[k].0 != s[s.len() - 1].0);
        }
    }
}

/// Values under keys. No key occurs twice.
pub struct Table<K: Key, V: View> {
    list: Vec<(K, V)>,
}

impl<K: Key, V: View> View for Table<K, V> {
    type V = Seq<(K::V, V::V)>;

    closed spec fn view(&self) -> Seq<(K::V, V::V)> {
        pairs(self.list@)
    }
}

/// What `lookup` and `put` say of a key at its first position.
pub proof fn lemma_position<K, V>(s: Seq<(K, V)>, key: K, i: int, value: V)
    requires
        0 <= i < s.len(),
        s[i].0 == key,
        forall|j: int| 0 <= j < i ==> (#[trigger] s[j]).0 != key,
    ensures
        lookup(s, key) == Some(s[i].1),
        put(s, key, value) == s.update(i, (key, value)),
    decreases s.len(),
{
    if i == 0 {
        assert(put(s, key, value) =~= s.update(i, (key, value)));
    } else {
        assert(s[0].0 != key);
        assert forall|j: int| 0 <= j < i - 1 implies (#[trigger] s.drop_first()[j]).0 != key by {
            assert(s[j + 1].0 != key);
        }
        lemma_position(s.drop_first(), key, i - 1, value);
        assert(put(s, key, value) =~= s.update(i, (key, value)));
    }
}

/// What `lookup` and `put` say of a key that is not there.
pub proof fn lemma_no_position<K, V>(s: Seq<(K, V)>, key: K, value: V)
    requires
        forall|j: int| 0 <= j < s.len() ==> (#[trigger] s[j]).0 != key,
    ensures
        lookup(s, key) is None,
        put(s, key, value) == s.push((key, value)),
    decreases s.len(),
{
    if s.len() == 0 {
        assert(put(s, key, value) =~= s.push((key, value)));
    } else {
        assert(s[0].0 != key);
        assert forall|j: int| 0 <= j < s.len() - 1 implies (#[trigger] s.drop_first()[j]).0
            != key by {
            assert(s[j + 1].0 != key);
        }
        lemma_no_position(s.drop_first(), key, value);
        assert(put(s, key, value) =~= s.push((key, value)));
    }
}

impl<K: Key, V: View> Table<K, V> {
    #[verifier::type_invariant]
    closed spec fn no_key_twice(self) -> bool {
        unique(pairs(self.list@))
    }

    /// The table without entries.
    pub fn new() -> (r: Self)
        ensures
            r@ == Seq::<(K::V, V::V)>::empty(),
    {
        let t: Self = Table { list: Vec::new() };
        proof {
            assert(t@ =~= Seq::<(K::V, V::V)>::empty());
        }
        t
    }

    /// The table of some entries without a key that occurs twice.
    pub fn of(list: Vec<(K, V)>) -> (r: Self)
        requires
            unique(pairs(list@)),
        ensures
            r@ == pairs(list@),
    {
        Table { list }
    }

    /// Takes all entries out.
    pub fn drain(&mut self) -> (r: Vec<(K, V)>)
        ensures
            pairs(r@) == old(self)@,
            unique(old(self)@),
            final(self)@ == Seq::<(K::V, V::V)>::empty(),
    {
        proof {
            use_type_invariant(&*self);
        }
        let mut list: Vec<(K, V)> = Vec::new();
        std::mem::swap(&mut list, &mut self.list);
        proof {
            assert(self@ =~= Seq::<(K::V, V::V)>::empty());
        }
        list
    }

    /// The key of the entry at a position.
    pub fn key_at(&self, i: usize) -> (r: &K)
        requires
            i < self@.len(),
        ensures
            r@ == self@[i as int].0,
    {
        &self.list[i].0
    }

    /// The value of the entry at a position.
    pub fn value_at(&self, i: usize) -> (r: &V)
        requires
            i < self@.len(),
        ensures
            r@ == self@[i as int].1,
    {
        &self.list[i].1
    }

    /// The position of a key.
    fn position(&self, key: &K) -> (r: Option<usize>)
        ensures
            match r {
                Some(i) => {
                    &&& i < self.list@.len()
                    &&& self@[i as int].0 == key@
                    &&& forall|j: int| 0 <= j < i ==> (#[trigger] self@[j]).0 != key@
                },
                None => forall|j: int| 0 <= j < self@.len() ==> (#[trigger] self@[j]).0 != key@,
            },
    {
        let mut i: usize = 0;
        while i < self.list.len()
            invariant
                i <= self.list@.len(),
                forall|j: int| 0 <= j < i ==> (#[trigger] self@[j]).0 != key@,
            decreases self.list@.len() - i,
        {
            if self.list[i].0.same_key(key) {
                return Some(i);
            }
            i = i + 1;
        }
        None
    }

    /// The value under a key.
    pub fn get(&self, key: &K) -> (r: Option<&V>)
        ensures
            match r {
                Some(v) => lookup(self@, key@) == Some(v@),
                None => lookup(self@, key@) is None,
            },
    {
        match self.position(key) {
            Some(i) => {
                proof {
                    lemma_position(self@, key@, i as int, self@[i as int].1);
                }
                Some(&self.list[i].1)
            },
            None => {
                proof {
                    if self@.len() > 0 {
                        lemma_no_position(self@, key@, self@[0].1);
                    }
                }
                None
            },
        }
    }

    /// Whether there is a value under a key.
    pub fn has(&self, key: &K) -> (r: bool)
        ensures
            r == (lookup(self@, key@) is Some),
    {
        match self.get(key) {
            Some(_) => true,
            None => false,
        }
    }

    /// Puts a value under a key.
    pub fn set(&mut self, key: K, value: V)
        ensures
            final(self)@ == put(old(self)@, key@, value@),
    {
        let at: Option<usize> = self.position(&key);
        let ghost before = self@;
        let mut list: Vec<(K, V)> = self.drain();
        match at {
            Some(i) => {
                list.set(i, (key, value));
                proof {
                    lemma_position(before, key@, i as int, value@);
                    assert(pairs(list@) =~= before.update(i as int, (key@, value@)));
                }
            },
            None => {
                list.push((key, value));
                proof {
                    lemma_no_position(before, key@, value@);
                    assert(pairs(list@) =~= before.push((key@, value@)));
                }
            },
        }
        self.list = list;
    }

    /// Takes a key out.
    pub fn unset(&mut self, key: &K)
        ensures
            final(self)@ == without(old(self)@, key@),
    {
        let ghost before = self@;
        let ghost f = |e: (K::V, V::V)| e.0 != key@;
        let rest: Vec<(K, V)> = self.drain();
        let ghost items = rest@;
        let mut kept: Vec<(K, V)> = Vec::new();
        proof {
            lemma_filter_none(before, f);
            assert(pairs(kept@) =~= Seq::<(K::V, V::V)>::empty());
        }
        for e in it: rest
            invariant
                it.seq() == items,
                pairs(items) == before,
                f == (|e: (K::V, V::V)| e.0 != key@),
                pairs(kept@) == before.take(it.index()).filter(f),
        {
            let ghost so_far = pairs(kept@);
            let ghost k = it.index();
            proof {
                assert(before[k] == (e.0@, e.1@));
                lemma_filter_step(before, f, k);
            }
            if !e.0.same_key(key) {
                kept.push(e);
                proof {
                    assert(pairs(kept@) =~= so_far.push(before[k]));
                }
            }
        }
        proof {
            assert(before.take(items.len() as int) =~= before);
            lemma_filter_unique(before, f);
            lemma_without(before, key@, f);
        }
        self.list = kept;
    }

    /// The number of entries.
    pub fn len(&self) -> (r: usize)
        ensures
            r == self@.len(),
    {
        self.list.len()
    }
}

/// A sequence's beginning, one item longer.
pub proof fn lemma_take_more<A>(s: Seq<A>, i: int)
    requires
        0 <= i < s.len(),
    ensures
        s.take(i + 1).drop_last() == s.take(i),
        s.take(i + 1).last() == s[i],
{
    assert(s.take(i + 1).drop_last() =~= s.take(i));
}

} // verus!
