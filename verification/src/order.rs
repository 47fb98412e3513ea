//! The order of texts, and sorting by it.

use crate::text::chars_of;
use vstd::prelude::*;

verus! {

/// Whether `a` stands before `b` or is `b`, in the order of a dictionary whose
/// alphabet is ordered by code point.
pub open spec fn text_le(a: Seq<char>, b: Seq<char>) -> bool
    decreases a.len(),
{
    if a.len() == 0 {
        true
    } else if b.len() == 0 {
        false
    } else if a[0] == b[0] {
        text_le(a.drop_first(), b.drop_first())
    } else {
        (a[0] as int) < (b[0] as int)
    }
}

/// Two texts stand in order one way or the other.
pub proof fn text_le_total(a: Seq<char>, b: Seq<char>)
    ensures
        text_le(a, b) || text_le(b, a),
    decreases a.len(),
{
    if a.len() > 0 && b.len() > 0 && a[0] == b[0] {
        text_le_total(a.drop_first(), b.drop_first());
    }
}

/// Texts that stand in order both ways are the same.
pub proof fn text_le_antisymmetric(a: Seq<char>, b: Seq<char>)
    requires
        text_le(a, b),
        text_le(b, a),
    ensures
        a == b,
    decreases a.len(),
{
    if a.len() > 0 && b.len() > 0 {
        text_le_antisymmetric(a.drop_first(), b.drop_first());
        assert(a =~= seq![a[0]] + a.drop_first());
        assert(b =~= seq![b[0]] + b.drop_first());
    } else {
        assert(a =~= b);
    }
}

/// The order carries over.
pub proof fn text_le_transitive(a: Seq<char>, b: Seq<char>, c: Seq<char>)
    requires
        text_le(a, b),
        text_le(b, c),
    ensures
        text_le(a, c),
    decreases a.len(),
{
    if a.len() > 0 && b.len() > 0 && c.len() > 0 && a[0] == b[0] && b[0] == c[0] {
        text_le_transitive(a.drop_first(), b.drop_first(), c.drop_first());
    }
}

/// Whether one character comes before another.
fn before(a: char, b: char) -> (r: bool)
    ensures
        r == ((a as int) < (b as int)),
{
    (a as u32) < (b as u32)
}

/// Whether `a` stands before `b` or is `b`.
pub fn in_order(a: &str, b: &str) -> (r: bool)
    ensures
        r == text_le(a@, b@),
{
    let v: Vec<char> = chars_of(a);
    let w: Vec<char> = chars_of(b);
    let mut i: usize = 0;
    proof {
        assert(v@.skip(0) =~= v@);
        assert(w@.skip(0) =~= w@);
    }
    while i < v.len() && i < w.len() && v[i] == w[i]
        invariant
            i <= v.len(),
            i <= w.len(),
            v@ == a@,
            w@ == b@,
            text_le(a@, b@) == text_le(v@.skip(i as int), w@.skip(i as int)),
        decreases v@.len() - i,
    {
        proof {
            assert(v@.skip(i as int).drop_first() =~= v@.skip(i + 1));
            assert(w@.skip(i as int).drop_first() =~= w@.skip(i + 1));
        }
        i = i + 1;
    }
    if i >= v.len() {
        true
    } else if i >= w.len() {
        false
    } else {
        before(v[i], w[i])
    }
}

/// A type whose values are sorted by a text.
pub trait Named: View + Sized {
    /// The text to sort by.
    spec fn label(v: Self::V) -> Seq<char>;

    /// The text to sort by.
    fn name(&self) -> (r: &str)
        ensures
            r@ == Self::label(self@),
    ;
}

/// `s` with `x` put in behind everything that may stand before it, from the
/// end.
pub open spec fn placed<T: Named>(s: Seq<T::V>, x: T::V) -> Seq<T::V>
    decreases s.len(),
{
    if s.len() == 0 || text_le(T::label(s.last()), T::label(x)) {
        s.push(x)
    } else {
        placed::<T>(s.drop_last(), x).push(s.last())
    }
}

/// `s` sorted, those with the same text in the order in which they stood.
pub open spec fn arranged<T: Named>(s: Seq<T::V>) -> Seq<T::V>
    decreases s.len(),
{
    if s.len() == 0 {
        s
    } else {
        placed::<T>(arranged::<T>(s.drop_last()), s.last())
    }
}

/// Whether a sequence is sorted.
pub open spec fn sorted<T: Named>(s: Seq<T::V>) -> bool {
    forall|i: int, j: int|
        0 <= i <= j < s.len() ==> text_le(T::label(#[trigger] s[i]), T::label(#[trigger] s[j]))
}

/// What the items of a vector hold.
pub open spec fn views<T: View>(s: Seq<T>) -> Seq<T::V> {
    s.map_values(|x: T| x@)
}

proof fn lemma_placed_at<T: Named>(s: Seq<T::V>, x: T::V, i: int)
    requires
        0 <= i <= s.len(),
        i > 0 ==> text_le(T::label(s[i - 1]), T::label(x)),
        forall|j: int| i <= j < s.len() ==> !text_le(T::label(#[trigger] s[j]), T::label(x)),
    ensures
        placed::<T>(s, x) == s.insert(i, x),
    decreases s.len(),
{
    if i == s.len() {
        assert(s.insert(i, x) =~= s.push(x));
    } else {
        assert(!text_le(T::label(s[s.len() - 1]), T::label(x)));
        assert forall|j: int| i <= j < s.len() - 1 implies !text_le(
            T::label(#[trigger] s.drop_last()[j]),
            T::label(x),
        ) by {
            assert(s.drop_last()[j] == s[j]);
        }
        lemma_placed_at::<T>(s.drop_last(), x, i);
        assert(s.insert(i, x) =~= s.drop_last().insert(i, x).push(s.last()));
    }
}

/// Sorts by text. What has the same text keeps its order.
pub fn sort<T: Named>(v: Vec<T>) -> (r: Vec<T>)
    ensures
        views(r@) == arranged::<T>(views(v@)),
{
    let ghost all = views(v@);
    let ghost items = v@;
    let mut out: Vec<T> = Vec::new();
    proof {
        assert(all.take(0) =~= Seq::empty());
        assert(views(out@) =~= Seq::empty());
    }
    for x in it: v
        invariant
            it.seq() == items,
            all == views(items),
            views(out@) == arranged::<T>(all.take(it.index())),
    {
        let ghost k = it.index();
        let ghost so_far = views(out@);
        proof {
            assert(all[k] == x@);
            assert(all.take(k + 1).drop_last() =~= all.take(k));
            assert(all.take(k + 1).last() == x@);
        }
        let mut i: usize = out.len();
        while i > 0 && !in_order(out[i - 1].name(), x.name())
            invariant
                i <= out.len(),
                so_far == views(out@),
                forall|j: int|
                    i <= j < so_far.len() ==> !text_le(
                        T::label(#[trigger] so_far[j]),
                        T::label(x@),
                    ),
            decreases i,
        {
            i = i - 1;
        }
        proof {
            lemma_placed_at::<T>(so_far, x@, i as int);
        }
        out.insert(i, x);
        proof {
            assert(views(out@) =~= so_far.insert(i as int, x@));
        }
    }
    proof {
        assert(all.take(items.len() as int) =~= all);
    }
    out
}

proof fn lemma_placed_sorted<T: Named>(s: Seq<T::V>, x: T::V)
    requires
        sorted::<T>(s),
    ensures
        sorted::<T>(placed::<T>(s, x)),
        placed::<T>(s, x).len() == s.len() + 1,
        placed::<T>(s, x).to_multiset() == s.to_multiset().insert(x),
        forall|k: int|
            0 <= k < placed::<T>(s, x).len() ==> (#[trigger] placed::<T>(s, x)[k]) == x
                || s.contains(placed::<T>(s, x)[k]),
    decreases s.len(),
{
    broadcast use vstd::seq_lib::group_to_multiset_ensures;

    let p = placed::<T>(s, x);
    if s.len() == 0 || text_le(T::label(s.last()), T::label(x)) {
        assert forall|i: int, j: int| 0 <= i <= j < p.len() implies text_le(
            T::label(#[trigger] p[i]),
            T::label(#[trigger] p[j]),
        ) by {
            text_le_total(T::label(x), T::label(x));
            if j < s.len() {
                assert(text_le(T::label(s[i]), T::label(s[j])));
            } else if i < s.len() {
                assert(text_le(T::label(s[i]), T::label(s[s.len() - 1])));
                text_le_transitive(T::label(s[i]), T::label(s.last()), T::label(x));
            }
        }
        assert forall|k: int| 0 <= k < p.len() implies (#[trigger] p[k]) == x || s.contains(
            p[k],
        ) by {
            if k < s.len() {
                assert(s[k] == p[k]);
            }
        }
    } else {
        let rest = s.drop_last();
        let last = s.last();
        let q = placed::<T>(rest, x);
        assert(sorted::<T>(rest)) by {
            assert forall|i: int, j: int| 0 <= i <= j < rest.len() implies text_le(
                T::label(#[trigger] rest[i]),
                T::label(#[trigger] rest[j]),
            ) by {
                assert(text_le(T::label(s[i]), T::label(s[j])));
            }
        }
        lemma_placed_sorted::<T>(rest, x);
        assert(s =~= rest.push(last));
        text_le_total(T::label(last), T::label(x));
        assert forall|k: int| 0 <= k < q.len() implies text_le(
            T::label(#[trigger] q[k]),
            T::label(last),
        ) by {
            if q[k] != x {
                let i = choose|i: int| 0 <= i < rest.len() && rest[i] == q[k];
                assert(text_le(T::label(s[i]), T::label(s[s.len() - 1])));
            }
        }
        assert forall|i: int, j: int| 0 <= i <= j < p.len() implies text_le(
            T::label(#[trigger] p[i]),
            T::label(#[trigger] p[j]),
        ) by {
            text_le_total(T::label(last), T::label(last));
            if j < q.len() {
                assert(text_le(T::label(q[i]), T::label(q[j])));
            } else if i < q.len() {
                assert(text_le(T::label(q[i]), T::label(last)));
            }
        }
        assert forall|k: int| 0 <= k < p.len() implies (#[trigger] p[k]) == x || s.contains(
            p[k],
        ) by {
            if k < q.len() {
                assert(p[k] == q[k]);
                if q[k] != x {
                    let i = choose|i: int| 0 <= i < rest.len() && rest[i] == q[k];
                    assert(s[i] == p[k]);
                }
            } else {
                assert(s[s.len() - 1] == p[k]);
            }
        }
        assert(p.to_multiset() =~= s.to_multiset().insert(x));
    }
}

/// Sorting puts every item in order, and loses and adds none.
pub proof fn arranged_is_sorted<T: Named>(s: Seq<T::V>)
    ensures
        sorted::<T>(arranged::<T>(s)),
        arranged::<T>(s).to_multiset() == s.to_multiset(),
    decreases s.len(),
{
    broadcast use vstd::seq_lib::group_to_multiset_ensures;

    if s.len() > 0 {
        arranged_is_sorted::<T>(s.drop_last());
        lemma_placed_sorted::<T>(arranged::<T>(s.drop_last()), s.last());
        assert(s =~= s.drop_last().push(s.last()));
    }
}

proof fn lemma_placed_stable<T: Named>(s: Seq<T::V>, x: T::V, text: Seq<char>)
    requires
        sorted::<T>(s),
    ensures
        placed::<T>(s, x).filter(|v: T::V| T::label(v) == text) == s.push(x).filter(
            |v: T::V| T::label(v) == text,
        ),
    decreases s.len(),
{
    let f = |v: T::V| T::label(v) == text;
    if s.len() > 0 && !text_le(T::label(s.last()), T::label(x)) {
        let rest = s.drop_last();
        let last = s.last();
        assert(sorted::<T>(rest)) by {
            assert forall|i: int, j: int| 0 <= i <= j < rest.len() implies text_le(
                T::label(#[trigger] rest[i]),
                T::label(#[trigger] rest[j]),
            ) by {
                assert(text_le(T::label(s[i]), T::label(s[j])));
            }
        }
        lemma_placed_stable::<T>(rest, x, text);
        reveal(Seq::filter);
        text_le_total(T::label(x), T::label(x));
        assert(!(f(last) && f(x)));
        assert(placed::<T>(s, x).drop_last() =~= placed::<T>(rest, x));
        assert(s.push(x).drop_last() =~= s);
        assert(rest.push(x).drop_last() =~= rest);
        assert(s.drop_last() =~= rest);
        assert(rest.push(x).filter(f) == if f(x) {
            rest.filter(f).push(x)
        } else {
            rest.filter(f)
        });
        assert(s.filter(f) == if f(last) {
            rest.filter(f).push(last)
        } else {
            rest.filter(f)
        });
        assert(s.push(x).filter(f) == if f(x) {
            s.filter(f).push(x)
        } else {
            s.filter(f)
        });
        assert(placed::<T>(s, x).filter(f) == if f(last) {
            placed::<T>(rest, x).filter(f).push(last)
        } else {
            placed::<T>(rest, x).filter(f)
        });
    }
}

/// Sorting keeps the order of items with the same text.
pub proof fn arranged_is_stable<T: Named>(s: Seq<T::V>, text: Seq<char>)
    ensures
        arranged::<T>(s).filter(|v: T::V| T::label(v) == text) == s.filter(
            |v: T::V| T::label(v) == text,
        ),
    decreases s.len(),
{
    if s.len() > 0 {
        let front = s.drop_last();
        arranged_is_stable::<T>(front, text);
        arranged_is_sorted::<T>(front);
        lemma_placed_stable::<T>(arranged::<T>(front), s.last(), text);
        reveal(Seq::filter);
        assert(arranged::<T>(front).push(s.last()).drop_last() =~= arranged::<T>(front));
    }
}

} // verus!
