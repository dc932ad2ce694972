//! Ordered collections: a stable sort, and sets and maps keyed by strings.

use vstd::prelude::*;

use crate::text::{lex_lt, str_eq, str_order, views, Order};
use crate::text::{
    lemma_lex_asymmetric, lemma_lex_irreflexive, lemma_lex_total, lemma_lex_transitive,
};

verus! {

// ---------------------------------------------------------------------------
// A stable sort
// ---------------------------------------------------------------------------

/// Values that are sorted by a comparison of their own.
pub trait Ranked: Sized {
    /// Whether `self` must come before `other`.
    spec fn before(self, other: Self) -> bool;

    /// Whether `self` must come before `other`.
    fn is_before(&self, other: &Self) -> (r: bool)
        ensures
            r == self.before(*other),
    ;
}

/// `x` put into `t` behind everything that it need not precede.
pub open spec fn insert_ranked<T: Ranked>(t: Seq<T>, x: T) -> Seq<T>
    decreases t.len(),
{
    if t.len() == 0 || !x.before(t.last()) {
        t.push(x)
    } else {
        insert_ranked(t.drop_last(), x).push(t.last())
    }
}

/// The values of `s` in order; values that tie stay in the order they had.
pub open spec fn ranked<T: Ranked>(s: Seq<T>) -> Seq<T>
    decreases s.len(),
{
    if s.len() == 0 {
        s
    } else {
        insert_ranked(ranked(s.drop_last()), s.last())
    }
}

/// `x` put into `t` behind everything that it need not precede, by a comparison.
pub open spec fn insert_by<V>(t: Seq<V>, x: V, lt: spec_fn(V, V) -> bool) -> Seq<V>
    decreases t.len(),
{
    if t.len() == 0 || !lt(x, t.last()) {
        t.push(x)
    } else {
        insert_by(t.drop_last(), x, lt).push(t.last())
    }
}

/// The values of `s` in the order of a comparison; values that tie stay in the order
/// they had.
pub open spec fn sorted_by<V>(s: Seq<V>, lt: spec_fn(V, V) -> bool) -> Seq<V>
    decreases s.len(),
{
    if s.len() == 0 {
        s
    } else {
        insert_by(sorted_by(s.drop_last(), lt), s.last(), lt)
    }
}

/// Whether a comparison is a strict weak order: no two values each come before the
/// other, and not coming before is transitive.
pub open spec fn weak_order<V>(lt: spec_fn(V, V) -> bool) -> bool {
    &&& forall|a: V, b: V| #[trigger] lt(a, b) ==> !lt(b, a)
    &&& forall|a: V, b: V, c: V| !(#[trigger] lt(a, b)) && !(#[trigger] lt(b, c)) ==> !lt(a, c)
}

/// Whether nothing comes behind a value that it must precede.
pub open spec fn in_order_by<V>(s: Seq<V>, lt: spec_fn(V, V) -> bool) -> bool {
    forall|i: int, j: int| 0 <= i < j < s.len() ==> !lt(#[trigger] s[j], #[trigger] s[i])
}

/// What ties with a value: neither comes before the other.
pub open spec fn tying<V>(x: V, lt: spec_fn(V, V) -> bool) -> spec_fn(V) -> bool {
    |y: V| !lt(x, y) && !lt(y, x)
}

/// Whether `r` holds what `s` holds, as often, in the order of a comparison, and has values
/// that tie in the order in which `s` has them.
pub open spec fn arranges<V>(r: Seq<V>, s: Seq<V>, lt: spec_fn(V, V) -> bool) -> bool {
    &&& r.len() == s.len()
    &&& r.to_multiset() == s.to_multiset()
    &&& in_order_by(r, lt)
    &&& forall|x: V| r.filter(#[trigger] tying(x, lt)) == s.filter(tying(x, lt))
}

proof fn lemma_filter_push<V>(s: Seq<V>, x: V, p: spec_fn(V) -> bool)
    ensures
        s.push(x).filter(p) == (if p(x) {
            s.filter(p).push(x)
        } else {
            s.filter(p)
        }),
{
    reveal(Seq::filter);
    assert(s.push(x).drop_last() =~= s);
}

proof fn lemma_insert_stable<V>(t: Seq<V>, x: V, v: V, lt: spec_fn(V, V) -> bool)
    requires
        weak_order(lt),
    ensures
        insert_by(t, x, lt).filter(tying(v, lt)) == t.push(x).filter(tying(v, lt)),
    decreases t.len(),
{
    let p = tying(v, lt);
    if t.len() > 0 && lt(x, t.last()) {
        let u = t.drop_last();
        let e = t.last();
        lemma_insert_stable(u, x, v, lt);
        lemma_filter_push(insert_by(u, x, lt), e, p);
        lemma_filter_push(u, x, p);
        lemma_filter_push(u, e, p);
        lemma_filter_push(t, x, p);
        assert(t =~= u.push(e));
        if p(x) && p(e) {
            assert(!lt(x, v) && !lt(v, e));
            assert(!lt(x, e));
        }
    }
}

/// There is one arrangement: what holds the same, in order, with ties in the same order, is
/// the same.
pub proof fn law_arrangement_is_unique<V>(q: Seq<V>, r: Seq<V>, lt: spec_fn(V, V) -> bool)
    requires
        weak_order(lt),
        in_order_by(q, lt),
        arranges(r, q, lt),
    ensures
        r == q,
    decreases r.len(),
{
    broadcast use vstd::seq_lib::group_to_multiset_ensures;

    if r.len() > 0 {
        lemma_same_members(r, q);
        let a = r.last();
        let b = q.last();
        let r1 = r.drop_last();
        let q1 = q.drop_last();
        assert(r =~= r1.push(a) && q =~= q1.push(b));
        assert(r[r.len() - 1] == a && q[q.len() - 1] == b);
        assert(r.contains(a) && q.contains(b));
        let i = choose|i: int| 0 <= i < q.len() && q[i] == a;
        let j = choose|j: int| 0 <= j < r.len() && r[j] == b;
        assert(!lt(b, a)) by {
            if i < q.len() - 1 {
                assert(!lt(q[q.len() - 1], q[i]));
            } else {
                assert(lt(a, a) ==> !lt(a, a));
            }
        }
        assert(!lt(a, b)) by {
            if j < r.len() - 1 {
                assert(!lt(r[r.len() - 1], r[j]));
            } else {
                assert(lt(b, b) ==> !lt(b, b));
            }
        }
        assert(lt(a, a) ==> !lt(a, a));
        let p = tying(a, lt);
        lemma_filter_push(r1, a, p);
        lemma_filter_push(q1, b, p);
        assert(r.filter(p) == q.filter(p));
        assert(p(a) && p(b));
        assert(r.filter(p).last() == a);
        assert(q.filter(p).last() == b);
        assert(r1.to_multiset() =~= r.to_multiset().remove(a));
        assert(q1.to_multiset() =~= q.to_multiset().remove(b));
        assert forall|x: V| r1.filter(#[trigger] tying(x, lt)) == q1.filter(tying(x, lt)) by {
            let t = tying(x, lt);
            lemma_filter_push(r1, a, t);
            lemma_filter_push(q1, a, t);
            assert(r.filter(t) == q.filter(t));
            if t(a) {
                assert(r1.filter(t) =~= r.filter(t).drop_last());
                assert(q1.filter(t) =~= q.filter(t).drop_last());
            }
        }
        assert forall|i: int, j: int| 0 <= i < j < r1.len() implies !lt(
            #[trigger] r1[j],
            #[trigger] r1[i],
        ) by {
            assert(!lt(r[j], r[i]));
        }
        assert forall|i: int, j: int| 0 <= i < j < q1.len() implies !lt(
            #[trigger] q1[j],
            #[trigger] q1[i],
        ) by {
            assert(!lt(q[j], q[i]));
        }
        law_arrangement_is_unique(q1, r1, lt);
    } else {
        assert(r =~= q);
    }
}

proof fn lemma_insert_by<V>(t: Seq<V>, x: V, lt: spec_fn(V, V) -> bool)
    requires
        weak_order(lt),
        in_order_by(t, lt),
    ensures
        insert_by(t, x, lt).len() == t.len() + 1,
        insert_by(t, x, lt).to_multiset() == t.to_multiset().insert(x),
        forall|i: int|
            0 <= i <= t.len() ==> #[trigger] insert_by(t, x, lt)[i] == x || t.contains(
                insert_by(t, x, lt)[i],
            ),
        in_order_by(insert_by(t, x, lt), lt),
    decreases t.len(),
{
    broadcast use vstd::seq_lib::group_to_multiset_ensures;

    if t.len() == 0 || !lt(x, t.last()) {
        let r = t.push(x);
        assert forall|i: int| 0 <= i <= t.len() implies #[trigger] r[i] == x || t.contains(r[i]) by {
            if i < t.len() {
                assert(r[i] == t[i]);
            }
        }
        assert forall|i: int, j: int| 0 <= i < j < r.len() implies !lt(
            #[trigger] r[j],
            #[trigger] r[i],
        ) by {
            if j == t.len() && i < t.len() - 1 {
                assert(!lt(t[t.len() - 1], t[i]));
                assert(!lt(x, t.last()) && !lt(t.last(), t[i]));
            }
        }
    } else {
        let inner = insert_by(t.drop_last(), x, lt);
        let r = inner.push(t.last());
        assert forall|i: int, j: int| 0 <= i < j < t.drop_last().len() implies !lt(
            #[trigger] t.drop_last()[j],
            #[trigger] t.drop_last()[i],
        ) by {
            assert(!lt(t[j], t[i]));
        }
        lemma_insert_by(t.drop_last(), x, lt);
        assert(t =~= t.drop_last().push(t.last()));
        assert(r.to_multiset() =~= t.to_multiset().insert(x));
        assert forall|i: int| 0 <= i <= t.len() implies #[trigger] r[i] == x || t.contains(r[i]) by {
            if i < inner.len() {
                assert(r[i] == inner[i]);
                if inner[i] != x {
                    let k = choose|k: int| 0 <= k < t.len() - 1 && t.drop_last()[k] == inner[i];
                    assert(t[k] == inner[i]);
                }
            } else {
                assert(t[t.len() - 1] == r[i]);
            }
        }
        assert forall|i: int, j: int| 0 <= i < j < r.len() implies !lt(
            #[trigger] r[j],
            #[trigger] r[i],
        ) by {
            if j == inner.len() {
                assert(r[i] == inner[i]);
                if inner[i] != x {
                    let k = choose|k: int| 0 <= k < t.len() - 1 && t.drop_last()[k] == inner[i];
                    assert(!lt(t[t.len() - 1], t[k]));
                }
            } else {
                assert(!lt(inner[j], inner[i]));
            }
        }
    }
}

/// Sorting by a strict weak order puts what there is in order, and keeps it.
pub proof fn lemma_sorted_by<V>(s: Seq<V>, lt: spec_fn(V, V) -> bool)
    requires
        weak_order(lt),
    ensures
        arranges(sorted_by(s, lt), s, lt),
    decreases s.len(),
{
    broadcast use vstd::seq_lib::group_to_multiset_ensures;

    if s.len() > 0 {
        lemma_sorted_by(s.drop_last(), lt);
        lemma_insert_by(sorted_by(s.drop_last(), lt), s.last(), lt);
        assert(s =~= s.drop_last().push(s.last()));
        let before = sorted_by(s.drop_last(), lt);
        assert forall|x: V| sorted_by(s, lt).filter(#[trigger] tying(x, lt)) == s.filter(
            tying(x, lt),
        ) by {
            lemma_insert_stable(before, s.last(), x, lt);
            lemma_filter_push(before, s.last(), tying(x, lt));
            lemma_filter_push(s.drop_last(), s.last(), tying(x, lt));
            assert(before.filter(tying(x, lt)) == s.drop_last().filter(tying(x, lt)));
        }
    }
}

/// Sequences with the same values, as often, have the same members.
pub proof fn lemma_same_members<V>(r: Seq<V>, s: Seq<V>)
    requires
        r.to_multiset() == s.to_multiset(),
    ensures
        forall|x: V| r.contains(x) <==> s.contains(x),
{
    broadcast use vstd::seq_lib::group_to_multiset_ensures;

    assert forall|x: V| r.contains(x) <==> s.contains(x) by {
        assert(r.contains(x) <==> r.to_multiset().count(x) > 0);
        assert(s.contains(x) <==> s.to_multiset().count(x) > 0);
    }
}

proof fn lemma_insert_views<T: Ranked, V>(
    t: Seq<T>,
    x: T,
    f: spec_fn(T) -> V,
    lt: spec_fn(V, V) -> bool,
)
    requires
        forall|a: T, b: T| #[trigger] a.before(b) == lt(f(a), f(b)),
    ensures
        insert_ranked(t, x).map_values(f) == insert_by(t.map_values(f), f(x), lt),
    decreases t.len(),
{
    let v = t.map_values(f);
    if t.len() == 0 || !x.before(t.last()) {
        assert(t.push(x).map_values(f) =~= v.push(f(x)));
    } else {
        lemma_insert_views(t.drop_last(), x, f, lt);
        assert(v.drop_last() =~= t.drop_last().map_values(f));
        assert(insert_ranked(t.drop_last(), x).push(t.last()).map_values(f) =~= insert_ranked(
            t.drop_last(),
            x,
        ).map_values(f).push(f(t.last())));
    }
}

/// Sorting values and then viewing them is the same as viewing them and then sorting
/// the views.
pub proof fn lemma_ranked_views<T: Ranked, V>(
    s: Seq<T>,
    f: spec_fn(T) -> V,
    lt: spec_fn(V, V) -> bool,
)
    requires
        forall|a: T, b: T| #[trigger] a.before(b) == lt(f(a), f(b)),
    ensures
        ranked(s).map_values(f) == sorted_by(s.map_values(f), lt),
    decreases s.len(),
{
    if s.len() == 0 {
        assert(s.map_values(f) =~= Seq::<V>::empty());
        assert(ranked(s).map_values(f) =~= s.map_values(f));
    } else {
        lemma_ranked_views(s.drop_last(), f, lt);
        lemma_insert_views(ranked(s.drop_last()), s.last(), f, lt);
        assert(s.map_values(f).drop_last() =~= s.drop_last().map_values(f));
    }
}

proof fn lemma_insert_ranked_at<T: Ranked>(t: Seq<T>, x: T, p: int)
    requires
        0 <= p <= t.len(),
        forall|i: int| p <= i < t.len() ==> x.before(#[trigger] t[i]),
        p > 0 ==> !x.before(t[p - 1]),
    ensures
        insert_ranked(t, x) == t.insert(p, x),
    decreases t.len(),
{
    if p == t.len() {
        assert(t.insert(p, x) =~= t.push(x));
    } else {
        lemma_insert_ranked_at(t.drop_last(), x, p);
        assert(t.insert(p, x) =~= t.drop_last().insert(p, x).push(t.last()));
    }
}

proof fn lemma_insert_ranked<T: Ranked>(t: Seq<T>, x: T)
    ensures
        insert_ranked(t, x).len() == t.len() + 1,
        insert_ranked(t, x).to_multiset() == t.to_multiset().insert(x),
        forall|i: int|
            0 <= i <= t.len() ==> #[trigger] insert_ranked(t, x)[i] == x || t.contains(
                insert_ranked(t, x)[i],
            ),
    decreases t.len(),
{
    broadcast use vstd::seq_lib::group_to_multiset_ensures;

    if t.len() == 0 || !x.before(t.last()) {
        let r = t.push(x);
        assert forall|i: int| 0 <= i <= t.len() implies #[trigger] r[i] == x || t.contains(r[i]) by {
            if i < t.len() {
                assert(r[i] == t[i]);
            }
        }
    } else {
        let inner = insert_ranked(t.drop_last(), x);
        let r = inner.push(t.last());
        lemma_insert_ranked(t.drop_last(), x);
        assert(t =~= t.drop_last().push(t.last()));
        assert(r.to_multiset() =~= t.to_multiset().insert(x));
        assert forall|i: int| 0 <= i <= t.len() implies #[trigger] r[i] == x || t.contains(r[i]) by {
            if i < inner.len() {
                assert(r[i] == inner[i]);
                if inner[i] != x {
                    let k = choose|k: int| 0 <= k < t.len() - 1 && t.drop_last()[k] == inner[i];
                    assert(t[k] == inner[i]);
                }
            } else {
                assert(t[t.len() - 1] == r[i]);
            }
        }
    }
}

/// Sorting keeps what a sequence holds.
pub proof fn lemma_ranked<T: Ranked>(s: Seq<T>)
    ensures
        ranked(s).len() == s.len(),
        ranked(s).to_multiset() == s.to_multiset(),
    decreases s.len(),
{
    broadcast use vstd::seq_lib::group_to_multiset_ensures;

    if s.len() > 0 {
        lemma_ranked(s.drop_last());
        lemma_insert_ranked(ranked(s.drop_last()), s.last());
        assert(s =~= s.drop_last().push(s.last()));
    }
}

/// The values in order; values that tie stay in the order they had.
pub fn sort_ranked<T: Ranked>(v: Vec<T>) -> (r: Vec<T>)
    ensures
        r@ == ranked(v@),
        r@.len() == v@.len(),
        r@.to_multiset() == v@.to_multiset(),
{
    let ghost s = v@;
    let mut r = v;
    let mut i: usize = 0;
    proof {
        assert(s.take(0) =~= Seq::<T>::empty());
        assert(ranked(s.take(0)) + s.skip(0) =~= s);
    }
    while i < r.len()
        invariant
            i <= s.len(),
            r@.len() == s.len(),
            ranked(s.take(i as int)).len() == i,
            r@ == ranked(s.take(i as int)) + s.skip(i as int),
        decreases s.len() - i,
    {
        let ghost t = ranked(s.take(i as int));
        let mut p: usize = i;
        assert(r@[i as int] == s[i as int]);
        while p > 0 && r[i].is_before(&r[p - 1])
            invariant
                p <= i < r@.len(),
                r@.len() == s.len(),
                i < s.len(),
                t.len() == i,
                r@ == t + s.skip(i as int),
                forall|k: int| p <= k < i ==> s[i as int].before(#[trigger] t[k]),
            decreases p,
        {
            assert(r@[p - 1] == t[p - 1]);
            assert(r@[i as int] == s[i as int]);
            p = p - 1;
        }
        proof {
            if p > 0 {
                assert(r@[p - 1] == t[p - 1]);
            }
            lemma_insert_ranked_at(t, s[i as int], p as int);
            assert(s.take(i + 1).drop_last() =~= s.take(i as int));
            lemma_ranked(s.take(i + 1));
        }
        let x = r.remove(i);
        r.insert(p, x);
        assert(r@ =~= ranked(s.take(i + 1)) + s.skip(i + 1));
        i = i + 1;
    }
    proof {
        assert(s.take(i as int) =~= s);
        assert(r@ =~= ranked(s));
        lemma_ranked(s);
    }
    r
}

// ---------------------------------------------------------------------------
// Sets of strings
// ---------------------------------------------------------------------------

/// Whether each string comes before those that follow it.
pub open spec fn sorted_strict(s: Seq<Seq<char>>) -> bool {
    forall|i: int, j: int| 0 <= i < j < s.len() ==> lex_lt(#[trigger] s[i], #[trigger] s[j])
}

/// Two strictly sorted sequences of the same strings are equal.
pub proof fn lemma_sorted_unique(a: Seq<Seq<char>>, b: Seq<Seq<char>>)
    requires
        sorted_strict(a),
        sorted_strict(b),
        forall|x: Seq<char>| a.contains(x) <==> b.contains(x),
    ensures
        a == b,
    decreases a.len(),
{
    if a.len() == 0 {
        if b.len() > 0 {
            assert(b.contains(b[0]));
            assert(a.contains(b[0]));
        }
        assert(a =~= b);
    } else {
        assert(a.contains(a.last()));
        assert(b.contains(a.last()));
        assert(b.contains(b.last()));
        assert(a.contains(b.last()));
        let i = choose|i: int| 0 <= i < b.len() && b[i] == a.last();
        let j = choose|j: int| 0 <= j < a.len() && a[j] == b.last();
        if i < b.len() - 1 {
            assert(lex_lt(b[i], b[b.len() - 1]));
            lemma_lex_asymmetric(b[i], b[b.len() - 1]);
            if j < a.len() - 1 {
                assert(lex_lt(a[j], a[a.len() - 1]));
            }
            assert(false);
        }
        assert(a.last() == b.last());
        let a1 = a.drop_last();
        let b1 = b.drop_last();
        assert forall|x: Seq<char>| a1.contains(x) <==> b1.contains(x) by {
            if a1.contains(x) {
                let k = choose|k: int| 0 <= k < a1.len() && a1[k] == x;
                assert(lex_lt(a[k], a[a.len() - 1]));
                lemma_lex_asymmetric(a[k], a[a.len() - 1]);
                assert(a.contains(x));
                let m = choose|m: int| 0 <= m < b.len() && b[m] == x;
                assert(b1[m] == x);
            }
            if b1.contains(x) {
                let k = choose|k: int| 0 <= k < b1.len() && b1[k] == x;
                assert(lex_lt(b[k], b[b.len() - 1]));
                lemma_lex_asymmetric(b[k], b[b.len() - 1]);
                assert(b.contains(x));
                let m = choose|m: int| 0 <= m < a.len() && a[m] == x;
                assert(a1[m] == x);
            }
        }
        lemma_sorted_unique(a1, b1);
        assert(a =~= a1.push(a.last()));
        assert(b =~= b1.push(b.last()));
    }
}

/// A set of strings, kept in order.
pub struct StrSet {
    pub items: Vec<String>,
}

impl StrSet {
    /// The strings of the set in order.
    pub open spec fn seq(&self) -> Seq<Seq<char>> {
        views(self.items@)
    }

    /// The strings are in order and none occurs twice.
    pub open spec fn wf(&self) -> bool {
        sorted_strict(self.seq())
    }

    /// Whether the set holds `s`.
    pub open spec fn has(&self, s: Seq<char>) -> bool {
        self.seq().contains(s)
    }

    /// The empty set.
    pub fn new() -> (r: StrSet)
        ensures
            r.wf(),
            r.seq() == Seq::<Seq<char>>::empty(),
            r.items@.len() == 0,
            forall|x: Seq<char>| !r.has(x),
    {
        let r = StrSet { items: Vec::new() };
        assert(r.seq() =~= Seq::<Seq<char>>::empty());
        r
    }

    /// Whether the set holds `s`.
    pub fn contains(&self, s: &str) -> (r: bool)
        ensures
            r == self.has(s@),
    {
        contains_string(&self.items, s)
    }

    /// Adds `s`; tells whether it was new.
    pub fn insert(&mut self, s: &str) -> (added: bool)
        requires
            old(self).wf(),
        ensures
            final(self).wf(),
            added == !old(self).has(s@),
            forall|x: Seq<char>| #[trigger] final(self).has(x) <==> (old(self).has(x) || x == s@),
            final(self).items@.len() == old(self).items@.len() + (if added { 1int } else { 0int }),
    {
        let mut p: usize = 0;
        let ghost t = self.seq();
        while p < self.items.len()
            invariant
                p <= self.items@.len(),
                t == self.seq(),
                sorted_strict(t),
                self.items@ == old(self).items@,
                forall|k: int| 0 <= k < p ==> lex_lt(#[trigger] t[k], s@),
            decreases self.items@.len() - p,
        {
            match str_order(self.items[p].as_str(), s) {
                Order::Less => {
                    p = p + 1;
                },
                Order::Equal => {
                    assert(t[p as int] == s@);
                    return false;
                },
                Order::Greater => {
                    proof {
                        lemma_lex_total(t[p as int], s@);
                        lemma_not_between(t, s@, p as int);
                    }
                    self.insert_at(p, s);
                    return true;
                },
            }
        }
        proof {
            lemma_not_between(t, s@, p as int);
        }
        self.insert_at(p, s);
        true
    }

    fn insert_at(&mut self, p: usize, s: &str)
        requires
            old(self).wf(),
            p <= old(self).items@.len(),
            forall|k: int| 0 <= k < p ==> lex_lt(#[trigger] old(self).seq()[k], s@),
            forall|k: int|
                p <= k < old(self).items@.len() ==> lex_lt(s@, #[trigger] old(self).seq()[k]),
        ensures
            final(self).wf(),
            final(self).items@.len() == old(self).items@.len() + 1,
            forall|x: Seq<char>| #[trigger] final(self).has(x) <==> (old(self).has(x) || x == s@),
    {
        let ghost t = self.seq();
        self.items.insert(p, s.to_owned());
        proof {
            let r = self.seq();
            assert(r =~= t.insert(p as int, s@));
            assert forall|x: Seq<char>| #[trigger] self.has(x) <==> (t.contains(x) || x == s@) by {
                if t.contains(x) {
                    let k = choose|k: int| 0 <= k < t.len() && t[k] == x;
                    if k < p {
                        assert(r[k] == x);
                    } else {
                        assert(r[k + 1] == x);
                    }
                }
                if x == s@ {
                    assert(r[p as int] == x);
                }
                if r.contains(x) {
                    let k = choose|k: int| 0 <= k < r.len() && r[k] == x;
                    if k < p {
                        assert(t[k] == x);
                    } else if k > p {
                        assert(t[k - 1] == x);
                    }
                }
            }
        }
    }

    /// The number of strings.
    pub fn len(&self) -> (n: usize)
        ensures
            n == self.seq().len(),
    {
        self.items.len()
    }

    /// The set as a list in order.
    pub fn into_vec(self) -> (v: Vec<String>)
        ensures
            v@ == self.items@,
    {
        self.items
    }
}

/// A string that comes after the first `p` strings and before the next one is
/// not among them.
proof fn lemma_not_between(t: Seq<Seq<char>>, x: Seq<char>, p: int)
    requires
        sorted_strict(t),
        0 <= p <= t.len(),
        forall|k: int| 0 <= k < p ==> lex_lt(#[trigger] t[k], x),
        p < t.len() ==> lex_lt(x, t[p]),
    ensures
        !t.contains(x),
        forall|k: int| p <= k < t.len() ==> lex_lt(x, #[trigger] t[k]),
{
    assert forall|k: int| p <= k < t.len() implies lex_lt(x, #[trigger] t[k]) by {
        if k > p {
            lemma_lex_transitive(x, t[p], t[k]);
        }
    }
    lemma_lex_irreflexive(x);
}

/// Whether the list holds `s`.
pub fn contains_string(v: &Vec<String>, s: &str) -> (r: bool)
    ensures
        r == views(v@).contains(s@),
{
    let mut i: usize = 0;
    while i < v.len()
        invariant
            i <= v@.len(),
            forall|k: int| 0 <= k < i ==> #[trigger] views(v@)[k] != s@,
        decreases v@.len() - i,
    {
        assert(views(v@)[i as int] == v@[i as int]@);
        if str_eq(v[i].as_str(), s) {
            return true;
        }
        i = i + 1;
    }
    false
}

// ---------------------------------------------------------------------------
// Maps keyed by strings
// ---------------------------------------------------------------------------

/// A map from strings, kept in the order of its keys.
pub struct StrMap<V> {
    pub keys: StrSet,
    pub vals: Vec<V>,
}

/// The position of `k` among the keys.
pub open spec fn key_at(keys: Seq<Seq<char>>, k: Seq<char>) -> int {
    choose|i: int| 0 <= i < keys.len() && keys[i] == k
}

impl<V> StrMap<V> {
    /// Keys and values correspond and the keys are in order.
    pub open spec fn wf(&self) -> bool {
        &&& self.keys.wf()
        &&& self.keys.items@.len() == self.vals@.len()
    }

    /// The map that this represents.
    pub open spec fn map(&self) -> Map<Seq<char>, V> {
        Map::new(|k: Seq<char>| self.keys.has(k), |k: Seq<char>| self.vals@[key_at(self.keys.seq(), k)])
    }

    /// The empty map.
    pub fn new() -> (r: StrMap<V>)
        ensures
            r.wf(),
            r.map() == Map::<Seq<char>, V>::empty(),
    {
        let r = StrMap { keys: StrSet::new(), vals: Vec::new() };
        assert(r.map() =~= Map::<Seq<char>, V>::empty());
        r
    }

    /// The position of `k`.
    pub fn position(&self, k: &str) -> (r: Option<usize>)
        requires
            self.wf(),
        ensures
            match r {
                Some(i) => i < self.vals@.len() && self.keys.items@[i as int]@ == k@
                    && self.map().dom().contains(k@) && self.map()[k@] == self.vals@[i as int],
                None => !self.map().dom().contains(k@),
            },
    {
        let mut i: usize = 0;
        while i < self.keys.items.len()
            invariant
                i <= self.keys.items@.len(),
                self.wf(),
                forall|j: int| 0 <= j < i ==> #[trigger] self.keys.seq()[j] != k@,
            decreases self.keys.items@.len() - i,
        {
            assert(self.keys.seq()[i as int] == self.keys.items@[i as int]@);
            if str_eq(self.keys.items[i].as_str(), k) {
                proof {
                    lemma_key_at(self.keys.seq(), i as int);
                }
                return Some(i);
            }
            i = i + 1;
        }
        None
    }

    /// The value of `k`.
    pub fn get(&self, k: &str) -> (r: Option<&V>)
        requires
            self.wf(),
        ensures
            match r {
                Some(v) => self.map().dom().contains(k@) && self.map()[k@] == *v,
                None => !self.map().dom().contains(k@),
            },
    {
        match self.position(k) {
            Some(i) => Some(&self.vals[i]),
            None => None,
        }
    }

    /// Whether `k` has a value.
    pub fn contains_key(&self, k: &str) -> (r: bool)
        ensures
            r == self.map().dom().contains(k@),
    {
        self.keys.contains(k)
    }

    /// Gives `k` the value `v`, in place of the one it had.
    pub fn insert(&mut self, k: &str, v: V)
        requires
            old(self).wf(),
        ensures
            final(self).wf(),
            final(self).map() == old(self).map().insert(k@, v),
    {
        let ghost m0 = self.map();
        let ghost t = self.keys.seq();
        let ghost vals0 = self.vals@;
        let mut p: usize = 0;
        while p < self.keys.items.len()
            invariant
                p <= self.keys.items@.len(),
                *self == *old(self),
                self.wf(),
                m0 == self.map(),
                vals0 == self.vals@,
                t == self.keys.seq(),
                forall|j: int| 0 <= j < p ==> lex_lt(#[trigger] t[j], k@),
            decreases self.keys.items@.len() - p,
        {
            match str_order(self.keys.items[p].as_str(), k) {
                Order::Less => {
                    p = p + 1;
                },
                Order::Equal => {
                    assert(t[p as int] == k@);
                    self.vals.set(p, v);
                    proof {
                        assert forall|x: Seq<char>| #[trigger] self.map().dom().contains(x) implies self.map()[x] == m0.insert(k@, v)[x] by {
                            let i = choose|i: int| 0 <= i < t.len() && t[i] == x;
                            lemma_key_at(t, i);
                            lemma_key_at(t, p as int);
                        }
                        assert(self.map() =~= m0.insert(k@, v));
                    }
                    return ;
                },
                Order::Greater => {
                    proof {
                        lemma_lex_total(t[p as int], k@);
                        lemma_not_between(t, k@, p as int);
                    }
                    self.insert_at(p, k, v);
                    return ;
                },
            }
        }
        proof {
            lemma_not_between(t, k@, p as int);
        }
        self.insert_at(p, k, v);
    }

    fn insert_at(&mut self, p: usize, k: &str, v: V)
        requires
            old(self).wf(),
            p <= old(self).keys.items@.len(),
            forall|j: int| 0 <= j < p ==> lex_lt(#[trigger] old(self).keys.seq()[j], k@),
            forall|j: int|
                p <= j < old(self).keys.items@.len() ==> lex_lt(
                    k@,
                    #[trigger] old(self).keys.seq()[j],
                ),
        ensures
            final(self).wf(),
            final(self).map() == old(self).map().insert(k@, v),
    {
        let ghost m0 = self.map();
        let ghost t = self.keys.seq();
        let ghost vals0 = self.vals@;
        self.keys.items.insert(p, k.to_owned());
        self.vals.insert(p, v);
        proof {
            let r = self.keys.seq();
            assert(r =~= t.insert(p as int, k@));
            assert forall|x: Seq<char>| #[trigger] self.map().dom().contains(x) <==> m0.insert(k@, v).dom().contains(x) by {
                if t.contains(x) {
                    let i = choose|i: int| 0 <= i < t.len() && t[i] == x;
                    if i < p {
                        assert(r[i] == x);
                    } else {
                        assert(r[i + 1] == x);
                    }
                }
                if x == k@ {
                    assert(r[p as int] == x);
                }
                if r.contains(x) {
                    let i = choose|i: int| 0 <= i < r.len() && r[i] == x;
                    if i < p {
                        assert(t[i] == x);
                    } else if i > p {
                        assert(t[i - 1] == x);
                    }
                }
            }
            assert forall|x: Seq<char>| #[trigger] self.map().dom().contains(x) implies self.map()[x] == m0.insert(k@, v)[x] by {
                let i = choose|i: int| 0 <= i < r.len() && r[i] == x;
                lemma_key_at(r, i);
                if i < p {
                    lemma_key_at(t, i);
                    lemma_lex_irreflexive(k@);
                    assert(t[i] == x);
                } else if i > p {
                    lemma_key_at(t, i - 1);
                    lemma_lex_irreflexive(k@);
                    assert(t[i - 1] == x);
                }
            }
            assert(self.map() =~= m0.insert(k@, v));
        }
    }

    /// The number of keys.
    pub fn len(&self) -> (n: usize)
        ensures
            n == self.keys.items@.len(),
            self.wf() ==> n == self.map().dom().len(),
    {
        proof {
            if self.wf() {
                let keys = self.keys.seq();
                assert(keys.no_duplicates()) by {
                    assert forall|i: int, j: int|
                        0 <= i < keys.len() && 0 <= j < keys.len() && i != j implies keys[i]
                        != keys[j] by {
                        if keys[i] == keys[j] {
                            lemma_key_at(keys, i);
                            lemma_key_at(keys, j);
                        }
                    }
                }
                keys.unique_seq_to_set();
                assert(self.map().dom() =~= keys.to_set());
            }
        }
        self.keys.items.len()
    }
}

/// In a strictly sorted sequence a string stands at one place only.
pub proof fn lemma_key_at(keys: Seq<Seq<char>>, i: int)
    requires
        sorted_strict(keys),
        0 <= i < keys.len(),
    ensures
        key_at(keys, keys[i]) == i,
        keys.contains(keys[i]),
{
    let j = key_at(keys, keys[i]);
    assert(keys[i] == keys[i]);
    assert(0 <= j < keys.len() && keys[j] == keys[i]);
    if i < j {
        lemma_lex_asymmetric(keys[i], keys[j]);
    } else if j < i {
        lemma_lex_asymmetric(keys[j], keys[i]);
    }
}

} // verus!
