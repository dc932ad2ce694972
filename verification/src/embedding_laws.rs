//! What semantic drift compares, said of the candidates themselves.

use vstd::prelude::*;

use crate::collections::{insert_by, lemma_same_members, lemma_sorted_by, sorted_by};
use crate::embeddings::{
    by_id, by_key, candidate_of, candidates_upto, drift_edge, drift_node, drift_pair_view,
    entities_of, entity_of, in_time, key_before, key_of, lemma_id_order, lemma_key_order,
    lemma_observed_order, measured, neighbours, observations, observed_before, observed_entity,
    pairs_upto, shown_id, text_or_none, CandidateView, DriftBasis, ObservedView, ScoredPair,
};
use crate::ir::{
    EdgeLabel, GraphRecord, MetricKind, NodeKind, NodeRecord, RecordView, SelectionBasis,
};
use crate::scan::{char_is_whitespace, trim_end_seq, trim_seq, trim_start_seq};
use crate::text::{join_seq, lemma_lex_three, lex_lt};

verus! {

/// Whether the `a`-th candidate is an observation in history.
pub open spec fn observed(cs: Seq<CandidateView>, a: int) -> bool {
    0 <= a < cs.len() && cs[a].temporal is Some
}

/// Whether nothing is said.
pub open spec fn unsaid(a: Option<Seq<char>>) -> bool {
    a is None || a->0.len() == 0
}

/// Whether two fields say the same; an empty one says what an absent one does.
pub open spec fn says_the_same(a: Option<Seq<char>>, b: Option<Seq<char>>) -> bool {
    a == b || (unsaid(a) && unsaid(b))
}

/// Whether two candidates are observations of one thing: they stand for the same, at the
/// same path and under the same name.
pub open spec fn same_thing(a: CandidateView, b: CandidateView) -> bool {
    &&& a.target == b.target
    &&& says_the_same(a.repo_relative_path, b.repo_relative_path)
    &&& says_the_same(a.name, b.name)
}

/// Whether the `a`-th observation comes before the `b`-th in history: by the time, then by
/// the commit, then by its place in the list.
pub open spec fn precedes(cs: Seq<CandidateView>, a: int, b: int) -> bool {
    let x = cs[a].temporal->0;
    let y = cs[b].temporal->0;
    ||| lex_lt(x.valid_time, y.valid_time)
    ||| x.valid_time == y.valid_time && lex_lt(x.git_commit, y.git_commit)
    ||| x.valid_time == y.valid_time && x.git_commit == y.git_commit && a < b
}

/// Whether the `b`-th observation is the next one in history of what the `a`-th observes.
pub open spec fn next_observation(cs: Seq<CandidateView>, a: int, b: int) -> bool {
    &&& observed(cs, a)
    &&& observed(cs, b)
    &&& same_thing(cs[a], cs[b])
    &&& precedes(cs, a, b)
    &&& forall|c: int| #[trigger]
        observed(cs, c) && same_thing(cs[c], cs[a]) ==> !(precedes(cs, a, c) && precedes(cs, c, b))
}

/// Whether the text holds no zero character.
pub open spec fn zero_free(s: Seq<char>) -> bool {
    forall|i: int| 0 <= i < s.len() ==> #[trigger] s[i] != '\0'
}

/// Whether what a candidate stands for and its path hold no zero character.
pub open spec fn well_named(c: CandidateView) -> bool {
    zero_free(c.target) && (c.repo_relative_path is Some ==> zero_free(c.repo_relative_path->0))
}

pub proof fn lemma_split(t1: Seq<char>, r1: Seq<char>, t2: Seq<char>, r2: Seq<char>)
    requires
        zero_free(t1),
        zero_free(t2),
        t1 + "\0"@ + r1 == t2 + "\0"@ + r2,
    ensures
        t1 == t2,
        r1 == r2,
{
    reveal_strlit("\0");
    let s = t1 + "\0"@ + r1;
    let z = t2 + "\0"@ + r2;
    assert(s[t1.len() as int] == '\0');
    assert(z[t2.len() as int] == '\0');
    if t1.len() < t2.len() {
        assert(z[t1.len() as int] == t2[t1.len() as int]);
    }
    if t2.len() < t1.len() {
        assert(s[t2.len() as int] == t1[t2.len() as int]);
    }
    assert(s.subrange(0, t1.len() as int) =~= t1);
    assert(z.subrange(0, t2.len() as int) =~= t2);
    assert(s.subrange(t1.len() as int + 1, s.len() as int) =~= r1);
    assert(z.subrange(t2.len() as int + 1, z.len() as int) =~= r2);
}

proof fn lemma_same_key(a: CandidateView, b: CandidateView)
    requires
        well_named(a),
        well_named(b),
    ensures
        entity_of(a) == entity_of(b) <==> same_thing(a, b),
{
    reveal_strlit("");
    let pa = text_or_none(a.repo_relative_path);
    let pb = text_or_none(b.repo_relative_path);
    let na = text_or_none(a.name);
    let nb = text_or_none(b.name);
    assert(entity_of(a) =~= a.target + "\0"@ + (pa + "\0"@ + na));
    assert(entity_of(b) =~= b.target + "\0"@ + (pb + "\0"@ + nb));
    assert(""@ =~= Seq::<char>::empty());
    assert(unsaid(a.repo_relative_path) ==> pa =~= ""@);
    assert(unsaid(b.repo_relative_path) ==> pb =~= ""@);
    assert(unsaid(a.name) ==> na =~= ""@);
    assert(unsaid(b.name) ==> nb =~= ""@);
    if entity_of(a) == entity_of(b) {
        lemma_split(a.target, pa + "\0"@ + na, b.target, pb + "\0"@ + nb);
        lemma_split(pa, na, pb, nb);
    }
}

spec fn is_observation(cs: Seq<CandidateView>, e: Seq<char>, o: ObservedView) -> bool {
    &&& observed(cs, o.index as int)
    &&& entity_of(cs[o.index as int]) == e
    &&& o.valid_time == cs[o.index as int].temporal->0.valid_time
    &&& o.git_commit == cs[o.index as int].temporal->0.git_commit
}

spec fn strictly_before(a: ObservedView, b: ObservedView) -> bool {
    observed_before(a, b) || (a.valid_time == b.valid_time && a.git_commit == b.git_commit
        && a.index < b.index)
}

spec fn strictly_ordered(s: Seq<ObservedView>) -> bool {
    forall|i: int, j: int|
        0 <= i < j < s.len() ==> strictly_before(#[trigger] s[i], #[trigger] s[j])
}

proof fn lemma_strict(a: ObservedView, b: ObservedView, c: ObservedView)
    ensures
        strictly_before(a, b) && strictly_before(b, c) ==> strictly_before(a, c),
        strictly_before(a, b) ==> !strictly_before(b, a),
        !observed_before(b, a) && a.index < b.index ==> strictly_before(a, b),
{
    lemma_lex_three(a.valid_time, b.valid_time, c.valid_time);
    lemma_lex_three(a.git_commit, b.git_commit, c.git_commit);
}

proof fn lemma_observations(cs: Seq<CandidateView>, e: Seq<char>, n: int)
    requires
        0 <= n <= cs.len() <= usize::MAX,
    ensures
        forall|k: int|
            0 <= k < observations(cs, e, n).len() ==> is_observation(
                cs,
                e,
                #[trigger] observations(cs, e, n)[k],
            ) && observations(cs, e, n)[k].index < n,
        forall|i: int|
            0 <= i < n && #[trigger] observed(cs, i) && entity_of(cs[i]) == e ==> exists|k: int|
                0 <= k < observations(cs, e, n).len() && (#[trigger] observations(
                    cs,
                    e,
                    n,
                )[k]).index == i,
        forall|k: int, l: int|
            0 <= k < l < observations(cs, e, n).len() ==> (#[trigger] observations(
                cs,
                e,
                n,
            )[k]).index < (#[trigger] observations(cs, e, n)[l]).index,
    decreases n,
{
    if n > 0 {
        lemma_observations(cs, e, n - 1);
        let rest = observations(cs, e, n - 1);
        let all = observations(cs, e, n);
        assert forall|i: int|
            0 <= i < n && #[trigger] observed(cs, i) && entity_of(cs[i]) == e implies exists|k: int|
            0 <= k < all.len() && (#[trigger] all[k]).index == i by {
            if i == n - 1 {
                assert(all[rest.len() as int].index == i);
            } else {
                let k = choose|k: int| 0 <= k < rest.len() && (#[trigger] rest[k]).index == i;
                assert(all[k].index == i);
            }
        }
    }
}

proof fn lemma_insert_strict(t: Seq<ObservedView>, x: ObservedView)
    requires
        strictly_ordered(t),
        forall|i: int| 0 <= i < t.len() ==> (#[trigger] t[i]).index < x.index,
    ensures
        ({
            let r = insert_by(t, x, |a: ObservedView, b: ObservedView| observed_before(a, b));
            &&& strictly_ordered(r)
            &&& forall|i: int| 0 <= i < r.len() ==> #[trigger] r[i] == x || t.contains(r[i])
        }),
    decreases t.len(),
{
    let lt = |a: ObservedView, b: ObservedView| observed_before(a, b);
    let r = insert_by(t, x, lt);
    if t.len() == 0 || !lt(x, t.last()) {
        assert forall|i: int, j: int| 0 <= i < j < r.len() implies strictly_before(
            #[trigger] r[i],
            #[trigger] r[j],
        ) by {
            if j == t.len() {
                lemma_strict(t.last(), x, x);
                lemma_strict(t[i], t.last(), x);
                if i < t.len() - 1 {
                    assert(strictly_before(t[i], t[t.len() - 1]));
                }
            }
        }
        assert forall|i: int| 0 <= i < r.len() implies #[trigger] r[i] == x || t.contains(r[i]) by {
            if i < t.len() {
                assert(t[i] == r[i]);
            }
        }
    } else {
        let u = t.drop_last();
        lemma_insert_strict(u, x);
        let inner = insert_by(u, x, lt);
        assert(r == inner.push(t.last()));
        assert forall|i: int, j: int| 0 <= i < j < r.len() implies strictly_before(
            #[trigger] r[i],
            #[trigger] r[j],
        ) by {
            if j == inner.len() {
                assert(r[i] == inner[i]);
                if inner[i] != x {
                    let k = choose|k: int| 0 <= k < u.len() && u[k] == inner[i];
                    assert(strictly_before(t[k], t[t.len() - 1]));
                }
            }
        }
        assert forall|i: int| 0 <= i < r.len() implies #[trigger] r[i] == x || t.contains(r[i]) by {
            if i < inner.len() {
                assert(r[i] == inner[i]);
                if inner[i] != x {
                    let k = choose|k: int| 0 <= k < u.len() && u[k] == inner[i];
                    assert(t[k] == inner[i]);
                }
            } else {
                assert(t[t.len() - 1] == r[i]);
            }
        }
    }
}

proof fn lemma_sorted_strict(s: Seq<ObservedView>)
    requires
        forall|k: int, l: int|
            0 <= k < l < s.len() ==> (#[trigger] s[k]).index < (#[trigger] s[l]).index,
    ensures
        strictly_ordered(
            sorted_by(s, |a: ObservedView, b: ObservedView| observed_before(a, b)),
        ),
    decreases s.len(),
{
    if s.len() > 0 {
        let lt = |a: ObservedView, b: ObservedView| observed_before(a, b);
        let u = s.drop_last();
        lemma_sorted_strict(u);
        lemma_observed_order();
        lemma_sorted_by(u, lt);
        let t = sorted_by(u, lt);
        lemma_same_members(t, u);
        assert forall|i: int| 0 <= i < t.len() implies (#[trigger] t[i]).index < s.last().index by {
            assert(t.contains(t[i]));
            let k = choose|k: int| 0 <= k < u.len() && u[k] == t[i];
            assert(s[k].index < s[s.len() - 1].index);
        }
        lemma_insert_strict(t, s.last());
    }
}

proof fn lemma_in_time(cs: Seq<CandidateView>, e: Seq<char>)
    requires
        cs.len() <= usize::MAX,
    ensures
        strictly_ordered(in_time(cs, e)),
        forall|k: int|
            0 <= k < in_time(cs, e).len() ==> is_observation(cs, e, #[trigger] in_time(cs, e)[k]),
        forall|i: int| #[trigger]
            observed(cs, i) && entity_of(cs[i]) == e ==> exists|k: int|
                0 <= k < in_time(cs, e).len() && (#[trigger] in_time(cs, e)[k]).index == i,
{
    let s = observations(cs, e, cs.len() as int);
    let r = in_time(cs, e);
    lemma_observations(cs, e, cs.len() as int);
    lemma_sorted_strict(s);
    lemma_observed_order();
    lemma_sorted_by(s, |a: ObservedView, b: ObservedView| observed_before(a, b));
    lemma_same_members(r, s);
    assert forall|k: int| 0 <= k < r.len() implies is_observation(cs, e, #[trigger] r[k]) by {
        assert(r.contains(r[k]));
        let l = choose|l: int| 0 <= l < s.len() && s[l] == r[k];
        assert(is_observation(cs, e, s[l]));
    }
    assert forall|i: int| #[trigger] observed(cs, i) && entity_of(cs[i]) == e implies exists|k: int|
        0 <= k < r.len() && (#[trigger] r[k]).index == i by {
        let l = choose|l: int| 0 <= l < s.len() && (#[trigger] s[l]).index == i;
        assert(s.contains(s[l]));
        assert(r.contains(s[l]));
        let k = choose|k: int| 0 <= k < r.len() && r[k] == s[l];
        assert(r[k].index == i);
    }
}

proof fn lemma_neighbours(s: Seq<ObservedView>, n: int, a: usize, b: usize)
    requires
        0 <= n <= s.len(),
    ensures
        neighbours(s, n).contains((a, b)) <==> exists|p: int|
            0 <= p < n - 1 && (#[trigger] s[p]).index == a && s[p + 1].index == b,
    decreases n,
{
    if n > 1 {
        lemma_neighbours(s, n - 1, a, b);
        let rest = neighbours(s, n - 1);
        let all = neighbours(s, n);
        assert(all == rest.push((s[n - 2].index, s[n - 1].index)));
        if all.contains((a, b)) {
            let m = choose|m: int| 0 <= m < all.len() && all[m] == (a, b);
            if m < rest.len() {
                assert(rest[m] == (a, b));
                let p = choose|p: int|
                    0 <= p < n - 2 && (#[trigger] s[p]).index == a && s[p + 1].index == b;
                assert(s[p].index == a);
            } else {
                assert(s[n - 2].index == a);
            }
        }
        if exists|p: int| 0 <= p < n - 1 && (#[trigger] s[p]).index == a && s[p + 1].index == b {
            let p = choose|p: int|
                0 <= p < n - 1 && (#[trigger] s[p]).index == a && s[p + 1].index == b;
            if p < n - 2 {
                assert(rest.contains((a, b)));
                let m = choose|m: int| 0 <= m < rest.len() && rest[m] == (a, b);
                assert(all[m] == (a, b));
            } else {
                assert(all[rest.len() as int] == (a, b));
            }
        }
    }
}

proof fn lemma_pairs(
    cs: Seq<CandidateView>,
    entities: Seq<Seq<char>>,
    n: int,
    a: usize,
    b: usize,
)
    requires
        0 <= n <= entities.len(),
    ensures
        pairs_upto(cs, entities, n).contains((a, b)) <==> exists|m: int|
            0 <= m < n && neighbours(
                in_time(cs, #[trigger] entities[m]),
                in_time(cs, entities[m]).len() as int,
            ).contains((a, b)),
    decreases n,
{
    if n > 0 {
        lemma_pairs(cs, entities, n - 1, a, b);
        let rest = pairs_upto(cs, entities, n - 1);
        let s = in_time(cs, entities[n - 1]);
        let here = neighbours(s, s.len() as int);
        let all = pairs_upto(cs, entities, n);
        assert(all == rest + here);
        if all.contains((a, b)) {
            let m = choose|m: int| 0 <= m < all.len() && all[m] == (a, b);
            if m < rest.len() {
                assert(rest[m] == (a, b));
                assert(rest.contains((a, b)));
            } else {
                assert(here[m - rest.len()] == (a, b));
                assert(here.contains((a, b)));
            }
        }
        if rest.contains((a, b)) {
            let m = choose|m: int| 0 <= m < rest.len() && rest[m] == (a, b);
            assert(all[m] == (a, b));
        }
        if here.contains((a, b)) {
            let m = choose|m: int| 0 <= m < here.len() && here[m] == (a, b);
            assert(all[rest.len() + m] == (a, b));
        }
    }
}

proof fn lemma_pair_is_next(
    cs: Seq<CandidateView>,
    entities: Seq<Seq<char>>,
    a: usize,
    b: usize,
)
    requires
        cs.len() <= usize::MAX,
        forall|i: int| 0 <= i < cs.len() ==> well_named(#[trigger] cs[i]),
        pairs_upto(cs, entities, entities.len() as int).contains((a, b)),
    ensures
        next_observation(cs, a as int, b as int),
{
    lemma_pairs(cs, entities, entities.len() as int, a, b);
    let m = choose|m: int|
        0 <= m < entities.len() && neighbours(
            in_time(cs, #[trigger] entities[m]),
            in_time(cs, entities[m]).len() as int,
        ).contains((a, b));
    let e = entities[m];
    let s = in_time(cs, e);
    lemma_neighbours(s, s.len() as int, a, b);
    let p = choose|p: int|
        0 <= p < s.len() - 1 && (#[trigger] s[p]).index == a && s[p + 1].index == b;
    lemma_in_time(cs, e);
    assert(is_observation(cs, e, s[p]));
    assert(is_observation(cs, e, s[p + 1]));
    assert(strictly_before(s[p], s[p + 1]));
    lemma_same_key(cs[a as int], cs[b as int]);
    lemma_lex_three(s[p].valid_time, s[p + 1].valid_time, s[p].valid_time);
    assert forall|c: int| #[trigger] observed(cs, c) && same_thing(cs[c], cs[a as int]) implies !(
    precedes(cs, a as int, c) && precedes(cs, c, b as int)) by {
        lemma_same_key(cs[c], cs[a as int]);
        let k = choose|k: int| 0 <= k < s.len() && (#[trigger] s[k]).index == c;
        assert(is_observation(cs, e, s[k]));
        lemma_strict(s[p], s[k], s[p + 1]);
        lemma_strict(s[k], s[p + 1], s[p]);
        lemma_lex_three(s[p].valid_time, s[k].valid_time, s[p + 1].valid_time);
        if precedes(cs, a as int, c) && precedes(cs, c, b as int) {
            assert(strictly_before(s[p], s[k]));
            assert(strictly_before(s[k], s[p + 1]));
            if k < p {
                assert(strictly_before(s[k], s[p]));
            } else if k > p + 1 {
                assert(strictly_before(s[p + 1], s[k]));
            }
            lemma_strict(s[p], s[p], s[p]);
            lemma_strict(s[p + 1], s[p + 1], s[p + 1]);
        }
    }
}

proof fn lemma_next_is_pair(
    cs: Seq<CandidateView>,
    entities: Seq<Seq<char>>,
    a: usize,
    b: usize,
)
    requires
        cs.len() <= usize::MAX,
        forall|i: int| 0 <= i < cs.len() ==> well_named(#[trigger] cs[i]),
        entities_of(cs, entities),
        next_observation(cs, a as int, b as int),
    ensures
        pairs_upto(cs, entities, entities.len() as int).contains((a, b)),
{
    let e = entity_of(cs[a as int]);
    lemma_same_key(cs[a as int], cs[b as int]);
    assert(observed_entity(cs, cs.len() as int, e)) by {
        assert(cs[a as int].temporal is Some);
    }
    assert(entities.contains(e));
    let m = choose|m: int| 0 <= m < entities.len() && entities[m] == e;
    let s = in_time(cs, e);
    lemma_in_time(cs, e);
    assert(observed(cs, a as int));
    assert(observed(cs, b as int));
    let p = choose|p: int| 0 <= p < s.len() && (#[trigger] s[p]).index == a as int;
    let k = choose|k: int| 0 <= k < s.len() && (#[trigger] s[k]).index == b as int;
    assert(is_observation(cs, e, s[p]));
    assert(is_observation(cs, e, s[k]));
    assert(strictly_before(s[p], s[k])) by {
        lemma_lex_three(s[p].valid_time, s[k].valid_time, s[p].valid_time);
    }
    lemma_strict(s[p], s[k], s[p]);
    assert(p < k) by {
        if k < p {
            assert(strictly_before(s[k], s[p]));
        }
    }
    if k > p + 1 {
        let o = s[p + 1];
        let c = o.index as int;
        assert(is_observation(cs, e, o));
        assert(strictly_before(s[p], o));
        assert(strictly_before(o, s[k]));
        lemma_same_key(cs[c], cs[a as int]);
        lemma_lex_three(s[p].valid_time, o.valid_time, s[k].valid_time);
        assert(precedes(cs, a as int, c));
        assert(precedes(cs, c, b as int));
        assert(observed(cs, c));
    }
    assert(s[p].index == a && s[p + 1].index == b);
    lemma_neighbours(s, s.len() as int, a, b);
    lemma_pairs(cs, entities, entities.len() as int, a, b);
    assert(neighbours(in_time(cs, entities[m]), in_time(cs, entities[m]).len() as int).contains(
        (a, b),
    ));
}

/// What is compared are neighbours in history and nothing else: a pair has the same target,
/// the same path and the same name, the first comes before the second, and no other
/// observation with that target, path and name lies between them; and any two such
/// neighbours are a pair.
pub proof fn law_pairs_are_neighbours_in_history(
    cs: Seq<CandidateView>,
    entities: Seq<Seq<char>>,
    a: usize,
    b: usize,
)
    requires
        cs.len() <= usize::MAX,
        forall|i: int| 0 <= i < cs.len() ==> well_named(#[trigger] cs[i]),
        entities_of(cs, entities),
    ensures
        pairs_upto(cs, entities, entities.len() as int).contains((a, b)) <==> next_observation(
            cs,
            a as int,
            b as int,
        ),
{
    if pairs_upto(cs, entities, entities.len() as int).contains((a, b)) {
        lemma_pair_is_next(cs, entities, a, b);
    }
    if next_observation(cs, a as int, b as int) {
        lemma_next_is_pair(cs, entities, a, b);
    }
}

// ---------------------------------------------------------------------------
// What is embedded
// ---------------------------------------------------------------------------

/// Whether a character of the text is no white space.
pub open spec fn has_words(t: Seq<char>) -> bool {
    exists|i: int| 0 <= i < t.len() && !char_is_whitespace(#[trigger] t[i])
}

/// Whether the one text is the other without white space at its ends, which it has none of.
pub open spec fn stripped(t: Seq<char>, body: Seq<char>) -> bool {
    exists|a: int, b: int|
        0 <= a <= b <= t.len() && #[trigger] t.subrange(a, b) == body && (forall|i: int|
            0 <= i < a || b <= i < t.len() ==> char_is_whitespace(#[trigger] t[i])) && (a < b
            ==> !char_is_whitespace(t[a]) && !char_is_whitespace(t[b - 1]))
}

proof fn lemma_trim_start(t: Seq<char>) -> (a: int)
    ensures
        0 <= a <= t.len(),
        trim_start_seq(t) == t.skip(a),
        forall|i: int| 0 <= i < a ==> char_is_whitespace(#[trigger] t[i]),
        a < t.len() ==> !char_is_whitespace(t[a]),
    decreases t.len(),
{
    if t.len() > 0 && char_is_whitespace(t[0]) {
        let rest = t.drop_first();
        let a = lemma_trim_start(rest);
        assert(rest.skip(a) =~= t.skip(a + 1));
        assert forall|i: int| 0 <= i < a + 1 implies char_is_whitespace(#[trigger] t[i]) by {
            if i > 0 {
                assert(rest[i - 1] == t[i]);
            }
        }
        a + 1
    } else {
        assert(t.skip(0) =~= t);
        0
    }
}

proof fn lemma_trim_end(t: Seq<char>) -> (b: int)
    ensures
        0 <= b <= t.len(),
        trim_end_seq(t) == t.take(b),
        forall|i: int| b <= i < t.len() ==> char_is_whitespace(#[trigger] t[i]),
        b > 0 ==> !char_is_whitespace(t[b - 1]),
    decreases t.len(),
{
    if t.len() > 0 && char_is_whitespace(t.last()) {
        let rest = t.drop_last();
        let b = lemma_trim_end(rest);
        assert(rest.take(b) =~= t.take(b));
        assert forall|i: int| b <= i < t.len() implies char_is_whitespace(#[trigger] t[i]) by {
            if i < rest.len() {
                assert(rest[i] == t[i]);
            }
        }
        b
    } else {
        assert(t.take(t.len() as int) =~= t);
        t.len() as int
    }
}

/// Trimming takes the white space at the ends away and leaves all else.
pub proof fn law_trimming_strips_the_ends(t: Seq<char>)
    ensures
        stripped(t, trim_seq(t)),
        trim_seq(t).len() > 0 <==> has_words(t),
{
    let a = lemma_trim_start(t);
    let u = t.skip(a);
    let b = lemma_trim_end(u);
    assert(t.subrange(a, a + b) =~= u.take(b));
    assert forall|i: int| 0 <= i < a || a + b <= i < t.len() implies char_is_whitespace(
        #[trigger] t[i],
    ) by {
        if i >= a + b {
            assert(u[i - a] == t[i]);
        }
    }
    if b > 0 {
        assert(u[0] == t[a]);
        assert(u[b - 1] == t[a + b - 1]);
        assert(!char_is_whitespace(t[a]));
    }
}

/// Whether the node is a piece of memory: an observation, a decision or a failure.
pub open spec fn of_memory(n: NodeRecord) -> bool {
    n.kind == NodeKind::Observation || n.kind == NodeKind::Decision || n.kind == NodeKind::Failure
}

/// What is embedded are files and symbols, and memory that has a text with words in it.
pub proof fn law_what_is_embedded(n: NodeRecord)
    ensures
        candidate_of(GraphRecord::Node(n)) is Some <==> (n.kind == NodeKind::File || n.kind
            == NodeKind::Symbol || (of_memory(n) && n.text is Some && has_words(n.text->0@))),
{
    if n.text is Some {
        law_trimming_strips_the_ends(n.text->0@);
    }
}

/// A candidate tells of its record: under which kind it goes, where it lies, what it is called and
/// when it was observed. Memory is embedded by its text without white space at the ends; code by
/// its summary and, on lines of their own, its path and its name.
pub proof fn law_candidate_tells_of_its_record(n: NodeRecord)
    requires
        candidate_of(GraphRecord::Node(n)) is Some,
    ensures
        ({
            let c = candidate_of(GraphRecord::Node(n))->0;
            let path = n.repo_relative_path->0@;
            let name = n.name->0@;
            &&& c.record_id == n.id@
            &&& n.kind == NodeKind::Observation ==> c.target == "observation"@
            &&& n.kind == NodeKind::Decision ==> c.target == "decision"@
            &&& n.kind == NodeKind::Failure ==> c.target == "failure"@
            &&& n.kind == NodeKind::File ==> c.target == "file"@
            &&& n.kind == NodeKind::Symbol ==> c.target == "symbol"@
            &&& c.repo_relative_path is Some <==> n.repo_relative_path is Some
            &&& n.repo_relative_path is Some ==> c.repo_relative_path == Some(path)
            &&& c.name is Some <==> n.name is Some
            &&& n.name is Some ==> c.name == Some(name)
            &&& c.temporal is Some <==> n.temporal is Some
            &&& n.temporal is Some ==> c.temporal->0.git_commit == n.temporal->0.git_commit@
                && c.temporal->0.valid_time == n.temporal->0.valid_time@
                && c.temporal->0.observed_at == n.temporal->0.observed_at@
            &&& of_memory(n) ==> stripped(n.text->0@, c.text)
            &&& !of_memory(n) && n.repo_relative_path is Some && n.name is Some ==> c.text
                == n.summary@ + "\n"@ + "path: "@ + path + "\n"@ + "name: "@ + name
            &&& !of_memory(n) && n.repo_relative_path is Some && n.name is None ==> c.text
                == n.summary@ + "\n"@ + "path: "@ + path
            &&& !of_memory(n) && n.repo_relative_path is None && n.name is Some ==> c.text
                == n.summary@ + "\n"@ + "name: "@ + name
            &&& !of_memory(n) && n.repo_relative_path is None && n.name is None ==> c.text
                == n.summary@
        }),
{
    if of_memory(n) {
        law_trimming_strips_the_ends(n.text->0@);
    } else {
        let path = n.repo_relative_path->0@;
        let name = n.name->0@;
        let c = candidate_of(GraphRecord::Node(n))->0;
        reveal_with_fuel(join_seq, 4);
        let p = "path: "@ + path;
        let m = "name: "@ + name;
        if n.repo_relative_path is Some {
            let two = seq![n.summary@, p];
            assert(two.drop_last() =~= seq![n.summary@]);
            assert(join_seq(two, "\n"@) == n.summary@ + "\n"@ + p);
            if n.name is Some {
                assert(two.push(m).drop_last() =~= two);
                assert(join_seq(two.push(m), "\n"@) == n.summary@ + "\n"@ + p + "\n"@ + m);
                assert(c.text =~= n.summary@ + "\n"@ + "path: "@ + path + "\n"@ + "name: "@ + name);
            } else {
                assert(c.text =~= n.summary@ + "\n"@ + "path: "@ + path);
            }
        } else if n.name is Some {
            let one = seq![n.summary@];
            assert(one.push(m).drop_last() =~= one);
            assert(join_seq(one.push(m), "\n"@) == n.summary@ + "\n"@ + m);
            assert(c.text =~= n.summary@ + "\n"@ + "name: "@ + name);
        }
    }
}

proof fn lemma_candidates(records: Seq<GraphRecord>, n: int, c: CandidateView)
    requires
        0 <= n <= records.len(),
    ensures
        candidates_upto(records, n).contains(c) <==> exists|i: int|
            0 <= i < n && candidate_of(#[trigger] records[i]) == Some(c),
    decreases n,
{
    if n > 0 {
        lemma_candidates(records, n - 1, c);
        let all = candidates_upto(records, n);
        let before = candidates_upto(records, n - 1);
        if before.contains(c) {
            let k = choose|k: int| 0 <= k < before.len() && before[k] == c;
            assert(all[k] == c);
        }
        if candidate_of(records[n - 1]) == Some(c) {
            assert(all[all.len() - 1] == c);
        }
        if all.contains(c) {
            let k = choose|k: int| 0 <= k < all.len() && all[k] == c;
            if k < before.len() {
                assert(before[k] == c);
                assert(before.contains(c));
            }
        }
    }
}

/// The candidates are those of the records, each and no other, in the order of the identifier,
/// then of the commit, then of the time: what was not observed in history comes first.
pub proof fn law_candidates_are_those_of_the_records(
    records: Seq<GraphRecord>,
    c: CandidateView,
    i: int,
    j: int,
)
    ensures
        ({
            let all = by_key(candidates_upto(records, records.len() as int));
            let a = all[i];
            let b = all[j];
            &&& all.contains(c) <==> exists|k: int|
                0 <= k < records.len() && candidate_of(#[trigger] records[k]) == Some(c)
            &&& 0 <= i < j < all.len() ==> {
                &&& !lex_lt(b.record_id, a.record_id)
                &&& a.record_id == b.record_id && b.temporal is None ==> a.temporal is None
                &&& a.record_id == b.record_id && a.temporal is Some && b.temporal is Some ==> {
                    &&& !lex_lt(b.temporal->0.git_commit, a.temporal->0.git_commit)
                    &&& a.temporal->0.git_commit == b.temporal->0.git_commit ==> !lex_lt(
                        b.temporal->0.valid_time,
                        a.temporal->0.valid_time,
                    )
                }
            }
        }),
{
    let v = candidates_upto(records, records.len() as int);
    let lt = |a: CandidateView, b: CandidateView| key_before(key_of(a), key_of(b));
    lemma_key_order();
    lemma_sorted_by(v, lt);
    let all = by_key(v);
    lemma_same_members(all, v);
    lemma_candidates(records, records.len() as int, c);
    assert(all.contains(c) <==> v.contains(c));
    if 0 <= i < j < all.len() {
        let a = all[i];
        let b = all[j];
        assert(!lt(all[j], all[i]));
        lemma_lex_three(a.record_id, b.record_id, a.record_id);
        if a.temporal is Some && b.temporal is Some {
            lemma_lex_three(
                a.temporal->0.git_commit,
                b.temporal->0.git_commit,
                a.temporal->0.git_commit,
            );
            lemma_lex_three(
                a.temporal->0.valid_time,
                b.temporal->0.valid_time,
                a.temporal->0.valid_time,
            );
        }
    }
}

/// The records of a measured drift say from what to what it was measured, at which commits and
/// times and with which score; one edge leads to what drifted and one to what it drifted from.
pub proof fn law_measured_drift_says_what_drifted(
    before: CandidateView,
    after: CandidateView,
    score: Seq<char>,
    basis: DriftBasis,
)
    requires
        before.temporal is Some,
        after.temporal is Some,
    ensures
        ({
            let v = drift_pair_view(before, after, score, basis);
            let n = v[0]->Node_0;
            let d = n.semantic_drift->0;
            let to = v[1]->Edge_0;
            let from = v[2]->Edge_0;
            &&& v.len() == 3 && v[0] is Node && v[1] is Edge && v[2] is Edge
            &&& n.kind == NodeKind::SemanticDrift && n.domain == Some("semantic"@)
            &&& n.semantic_drift is Some
            &&& d.prior_record_id == before.record_id && d.target_record_id == after.record_id
            &&& d.before_git_commit == before.temporal->0.git_commit
            &&& d.after_git_commit == after.temporal->0.git_commit
            &&& d.before_valid_time == before.temporal->0.valid_time
            &&& d.after_valid_time == after.temporal->0.valid_time
            &&& d.score == score && d.selection_threshold == basis.threshold@
            &&& d.metric_kind == MetricKind::CosineDistance
            &&& d.selection_basis == SelectionBasis::ThresholdOnly
            &&& n.repo_relative_path == after.repo_relative_path
            &&& after.name is Some ==> n.name == after.name
            &&& after.name is None ==> n.name == after.repo_relative_path
            &&& n.valid_time == Some(after.temporal->0.valid_time)
            &&& n.observed_at == Some(after.temporal->0.observed_at)
            &&& n.temporal == after.temporal
            &&& to.label == EdgeLabel::DriftsFrom && to.source == n.id && to.target
                == after.record_id && to.temporal == after.temporal
            &&& from.label == EdgeLabel::DriftsPrior && from.source == n.id && from.target
                == before.record_id && from.temporal == before.temporal
        }),
{
    reveal(drift_node);
    reveal(drift_edge);
}

proof fn lemma_measured(pairs: Seq<ScoredPair>, basis: DriftBasis, n: int, r: RecordView)
    requires
        0 <= n <= pairs.len(),
    ensures
        measured(pairs, basis, n).contains(r) <==> exists|i: int|
            0 <= i < n && drift_pair_view(
                (#[trigger] pairs[i]).before@,
                pairs[i].after@,
                pairs[i].score@,
                basis,
            ).contains(r),
    decreases n,
{
    if n > 0 {
        lemma_measured(pairs, basis, n - 1, r);
        let before = measured(pairs, basis, n - 1);
        let p = pairs[n - 1];
        let these = drift_pair_view(p.before@, p.after@, p.score@, basis);
        let all = measured(pairs, basis, n);
        if before.contains(r) {
            let k = choose|k: int| 0 <= k < before.len() && before[k] == r;
            assert(all[k] == r);
        }
        if these.contains(r) {
            let k = choose|k: int| 0 <= k < these.len() && these[k] == r;
            assert(all[before.len() + k] == r);
        }
        if all.contains(r) {
            let k = choose|k: int| 0 <= k < all.len() && all[k] == r;
            if k < before.len() {
                assert(before[k] == r);
                assert(before.contains(r));
            } else {
                assert(these[k - before.len()] == r);
                assert(these.contains(r));
            }
        }
    }
}

/// The records of a measurement are those of its pairs, each and no other, in the order of their
/// identifiers.
pub proof fn law_measurement_holds_its_pairs(
    pairs: Seq<ScoredPair>,
    basis: DriftBasis,
    r: RecordView,
    i: int,
    j: int,
)
    ensures
        ({
            let all = by_id(measured(pairs, basis, pairs.len() as int));
            &&& all.contains(r) <==> exists|k: int|
                0 <= k < pairs.len() && drift_pair_view(
                    (#[trigger] pairs[k]).before@,
                    pairs[k].after@,
                    pairs[k].score@,
                    basis,
                ).contains(r)
            &&& 0 <= i < j < all.len() ==> !lex_lt(id_of(all[j]), id_of(all[i]))
        }),
{
    let v = measured(pairs, basis, pairs.len() as int);
    let lt = |a: RecordView, b: RecordView| lex_lt(shown_id(a), shown_id(b));
    lemma_id_order();
    lemma_sorted_by(v, lt);
    let all = by_id(v);
    lemma_same_members(all, v);
    lemma_measured(pairs, basis, pairs.len() as int, r);
    assert(all.contains(r) <==> v.contains(r));
    if 0 <= i < j < all.len() {
        assert(!lt(all[j], all[i]));
    }
}

/// The identifier of a record.
pub open spec fn id_of(r: RecordView) -> Seq<char> {
    match r {
        RecordView::Node(n) => n.id,
        RecordView::Edge(e) => e.id,
        RecordView::Tombstone(t) => t.id,
    }
}

} // verus!
