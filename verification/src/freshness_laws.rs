//! What recording an observation again, or retracting it, does to the verdicts.

use vstd::prelude::*;

use crate::collections::{in_order_by, insert_by, lemma_sorted_by, sorted_by, weak_order};
use crate::evidence_freshness::{
    after_anchor, anchor_commit, anchor_time, anchor_version, at_frontier, at_tip_or_current,
    at_tips, by_handle, chosen_change, chosen_drift, citation_key, cited, citing, classifiable,
    classify, committed_at_tip, content_trigger, drift_before, drift_named, drift_of, drift_trigger,
    drifts_from, drifts_with_edges, edge_cites_code, edge_entries, edge_kept, edge_links,
    entries_below, entry_before, frontier, handle_times, handle_view, identity_commit, in_order,
    inline_entries, inline_links, is_handle_version, keyed_before, kind_of, later_version, lay_at,
    lemma_entry_order, lies_at, lies_live, link_supersedes, links_supersede, live_handle,
    lost_on_lineage, marked_superseded, moved, names_drift, nonempty, observation_entries,
    observation_kind, on_lineage, record_supersedes, reference_version, reported, repository_times,
    scan_times, scanned_at, some_version, standing, superseded, the_only, version_at,
    version_before, versions_of, VerdictEntryView,
};
use crate::history::{
    any_tip, commit_of, descends, has_commit, has_parent, has_tip, in_dag, is_child, parents_of,
    reaches, repo_of, tip, tip_for, tip_of,
};
use crate::ir::{
    edge_label_name, EdgeLabel, EvidenceLinkView, GraphRecord, NodeRecord, SourceSpan,
    TombstoneRecord,
};
use crate::liveness::{
    deleted, is_event, is_node_version, last_event, last_node, lemma_last_event, lemma_last_node,
};
use crate::repository::owner;
use crate::text::opt_view;

verus! {

/// Whether the store holds the observation under an identifier of its own: every record
/// that writes or deletes the identifier is the observation itself, which has no temporal
/// metadata, and neither a link of it nor an edge from it replaces anything.
pub open spec fn plain_observation(s: Seq<GraphRecord>, x: NodeRecord) -> bool {
    &&& observation_kind(x.kind)
    &&& x.temporal is None
    &&& exists|i: int| 0 <= i < s.len() && (#[trigger] s[i])@ == GraphRecord::Node(x)@
    &&& forall|i: int|
        0 <= i < s.len() && is_event(#[trigger] s[i], x.id@) ==> s[i]@ == GraphRecord::Node(x)@
    &&& forall|k: int|
        0 <= k < inline_links(x).len() ==> (#[trigger] inline_links(x)[k]).relation
            != edge_label_name(EdgeLabel::Supersedes)
    &&& forall|i: int|
        0 <= i < s.len() && (#[trigger] s[i]) is Edge && s[i]->Edge_0.source@ == x.id@
            ==> s[i]->Edge_0.label != EdgeLabel::Supersedes
}

/// The entries of other observations.
pub open spec fn entries_of_others(
    v: Seq<VerdictEntryView>,
    o: Seq<char>,
) -> Seq<VerdictEntryView>
    decreases v.len(),
{
    if v.len() == 0 {
        v
    } else if v.last().observation_id == o {
        entries_of_others(v.drop_last(), o)
    } else {
        entries_of_others(v.drop_last(), o).push(v.last())
    }
}

// ---------------------------------------------------------------------------
// A record that changes nothing but the events of one observation
// ---------------------------------------------------------------------------

/// Whether the record, put behind the store, leaves everything as it is but for the latest
/// event of the observation `o`.
spec fn quiet(s: Seq<GraphRecord>, y: GraphRecord, o: Seq<char>) -> bool {
    &&& match y {
        GraphRecord::Node(n) => observation_kind(n.kind) && n.temporal is None,
        GraphRecord::Edge(_) => false,
        GraphRecord::Tombstone(_) => true,
    }
    &&& forall|id: Seq<char>|
        id != o ==> #[trigger] last_event(s.push(y), id) == last_event(s, id)
    &&& forall|id: Seq<char>| #[trigger] superseded(s.push(y), id) == superseded(s, id)
    &&& forall|id: Seq<char>| #[trigger] kind_of(s.push(y), id) == kind_of(s, id)
    &&& forall|i: int|
        0 <= i < s.len() && is_event(#[trigger] s[i], o) ==> s[i] is Node && observation_kind(
            s[i]->Node_0.kind,
        )
    &&& kind_of(s, o) is Some
    &&& observation_kind(kind_of(s, o)->0)
}

proof fn lemma_deleted(s: Seq<GraphRecord>, y: GraphRecord, o: Seq<char>, id: Seq<char>)
    requires
        quiet(s, y, o),
        id != o,
    ensures
        deleted(s.push(y), id) == deleted(s, id),
        deleted(s, id) ==> last_event(s.push(y), id) == last_event(s, id) && s.push(
            y,
        )[last_event(s, id)->0] == s[last_event(s, id)->0],
{
    lemma_last_event(s, id);
    assert(last_event(s.push(y), id) == last_event(s, id));
}

/// Whether two stores tell the same history.
spec fn same_history(
    s: Seq<GraphRecord>,
    t: Seq<GraphRecord>,
    own: Map<Seq<char>, Seq<char>>,
) -> bool {
    &&& forall|id: Seq<char>, c: Seq<char>| #[trigger]
        tip_for(t, own, id, c) == tip_for(s, own, id, c)
    &&& any_tip(t, own) == any_tip(s, own)
    &&& forall|a: Seq<char>, c: Seq<char>| #[trigger] descends(t, a, c) == descends(s, a, c)
    &&& forall|c: Seq<char>| #[trigger] in_dag(t, c) == in_dag(s, c)
}

proof fn lemma_reaches(s: Seq<GraphRecord>, t: Seq<GraphRecord>, a: Seq<char>, c: Seq<char>, n: nat)
    requires
        forall|p: Seq<char>, d: Seq<char>| #[trigger] is_child(t, p, d) == is_child(s, p, d),
    ensures
        reaches(t, a, c, n) == reaches(s, a, c, n),
    decreases n,
{
    if n > 1 {
        assert forall|m: Seq<char>| #[trigger]
            is_child(s, m, c) implies reaches(t, a, m, (n - 1) as nat) == reaches(
            s,
            a,
            m,
            (n - 1) as nat,
        ) by {
            lemma_reaches(s, t, a, m, (n - 1) as nat);
        }
        if reaches(s, a, c, n) {
            let m = choose|m: Seq<char>| #[trigger]
                is_child(s, m, c) && reaches(s, a, m, (n - 1) as nat);
            assert(is_child(t, m, c) && reaches(t, a, m, (n - 1) as nat));
        }
        if reaches(t, a, c, n) {
            let m = choose|m: Seq<char>| #[trigger]
                is_child(t, m, c) && reaches(t, a, m, (n - 1) as nat);
            assert(is_child(s, m, c) && reaches(s, a, m, (n - 1) as nat));
        }
    }
}

proof fn lemma_tips(s: Seq<GraphRecord>, y: GraphRecord, own: Map<Seq<char>, Seq<char>>)
    requires
        commit_of(y) is None,
        parents_of(y).len() == 0,
    ensures
        forall|id: Seq<char>, c: Seq<char>| #[trigger]
            tip_for(s.push(y), own, id, c) == tip_for(s, own, id, c),
        any_tip(s.push(y), own) == any_tip(s, own),
{
    let t = s.push(y);
    assert forall|repo: Option<Seq<char>>, c: Seq<char>| #[trigger]
        tip_of(t, own, repo, c) == tip_of(s, own, repo, c) by {
        if has_commit(s, own, repo, c) {
            let i = choose|i: int|
                0 <= i < s.len() && commit_of(#[trigger] s[i]) == Some(c) && repo_of(own, s[i])
                    == repo;
            assert(t[i] == s[i]);
        }
        if has_commit(t, own, repo, c) {
            let i = choose|i: int|
                0 <= i < t.len() && commit_of(#[trigger] t[i]) == Some(c) && repo_of(own, t[i])
                    == repo;
            assert(t[i] == s[i]);
        }
        if has_parent(s, own, repo, c) {
            let i = choose|i: int|
                0 <= i < s.len() && parents_of(#[trigger] s[i]).contains(c) && repo_of(own, s[i])
                    == repo;
            assert(t[i] == s[i]);
        }
        if has_parent(t, own, repo, c) {
            let i = choose|i: int|
                0 <= i < t.len() && parents_of(#[trigger] t[i]).contains(c) && repo_of(own, t[i])
                    == repo;
            assert(t[i] == s[i]);
        }
    }
    assert forall|c: Seq<char>| #[trigger] tip(t, own, c) == tip(s, own, c) by {
        if tip(s, own, c) {
            let repo = choose|repo: Option<Seq<char>>| #[trigger] tip_of(s, own, repo, c);
            assert(tip_of(t, own, repo, c));
        }
        if tip(t, own, c) {
            let repo = choose|repo: Option<Seq<char>>| #[trigger] tip_of(t, own, repo, c);
            assert(tip_of(s, own, repo, c));
        }
    }
    assert forall|repo: Option<Seq<char>>| #[trigger] has_tip(t, own, repo) == has_tip(s, own, repo) by {
        if has_tip(s, own, repo) {
            let c = choose|c: Seq<char>| #[trigger] tip_of(s, own, repo, c);
            assert(tip_of(t, own, repo, c));
        }
        if has_tip(t, own, repo) {
            let c = choose|c: Seq<char>| #[trigger] tip_of(t, own, repo, c);
            assert(tip_of(s, own, repo, c));
        }
    }
    if any_tip(s, own) {
        let c = choose|c: Seq<char>| #[trigger] tip(s, own, c);
        assert(tip(t, own, c));
    }
    if any_tip(t, own) {
        let c = choose|c: Seq<char>| #[trigger] tip(t, own, c);
        assert(tip(s, own, c));
    }
}

proof fn lemma_history(s: Seq<GraphRecord>, y: GraphRecord, own: Map<Seq<char>, Seq<char>>)
    requires
        commit_of(y) is None,
        parents_of(y).len() == 0,
    ensures
        same_history(s, s.push(y), own),
{
    let t = s.push(y);
    lemma_tips(s, y, own);
    assert forall|p: Seq<char>, c: Seq<char>| #[trigger] is_child(t, p, c) == is_child(s, p, c) by {
        if is_child(s, p, c) {
            let i = choose|i: int|
                0 <= i < s.len() && commit_of(#[trigger] s[i]) == Some(c) && parents_of(
                    s[i],
                ).contains(p);
            assert(t[i] == s[i]);
        }
        if is_child(t, p, c) {
            let i = choose|i: int|
                0 <= i < t.len() && commit_of(#[trigger] t[i]) == Some(c) && parents_of(
                    t[i],
                ).contains(p);
            assert(t[i] == s[i]);
        }
    }
    assert forall|a: Seq<char>, c: Seq<char>| #[trigger] descends(t, a, c) == descends(s, a, c) by {
        if descends(s, a, c) {
            let n = choose|n: nat| #[trigger] reaches(s, a, c, n);
            lemma_reaches(s, t, a, c, n);
            assert(reaches(t, a, c, n));
        }
        if descends(t, a, c) {
            let n = choose|n: nat| #[trigger] reaches(t, a, c, n);
            lemma_reaches(s, t, a, c, n);
            assert(reaches(s, a, c, n));
        }
    }
    assert forall|c: Seq<char>| #[trigger] in_dag(t, c) == in_dag(s, c) by {
        if in_dag(s, c) {
            let i = choose|i: int|
                0 <= i < s.len() && parents_of(#[trigger] s[i]).len() > 0 && (commit_of(s[i])
                    == Some(c) || parents_of(s[i]).contains(c));
            assert(t[i] == s[i]);
        }
        if in_dag(t, c) {
            let i = choose|i: int|
                0 <= i < t.len() && parents_of(#[trigger] t[i]).len() > 0 && (commit_of(t[i])
                    == Some(c) || parents_of(t[i]).contains(c));
            assert(t[i] == s[i]);
        }
    }
}

/// Whether the positions are positions of the store.
spec fn within(s: Seq<GraphRecord>, vs: Seq<int>) -> bool {
    forall|k: int| 0 <= k < vs.len() ==> 0 <= #[trigger] vs[k] < s.len()
}

proof fn lemma_versions_stay(s: Seq<GraphRecord>, y: GraphRecord, o: Seq<char>, id: Seq<char>)
    requires
        quiet(s, y, o),
    ensures
        versions_of(s.push(y), id) == versions_of(s, id),
        within(s, versions_of(s, id)),
        standing(s.push(y), id) == standing(s, id),
        standing(s, id) ==> id != o,
{
    let t = s.push(y);
    assert(t.drop_last() =~= s);
    assert(t.last() == y);
    lemma_within(s, id);
    if standing(s, id) {
        let i = choose|i: int| 0 <= i < s.len() && is_handle_version(#[trigger] s[i], id);
        assert(t[i] == s[i]);
        assert(is_event(s[i], id));
        lemma_deleted(s, y, o, id);
        assert(superseded(t, id) == superseded(s, id));
    }
    if standing(t, id) {
        let i = choose|i: int| 0 <= i < t.len() && is_handle_version(#[trigger] t[i], id);
        assert(t[i] == s[i]);
        assert(is_event(s[i], id));
        lemma_deleted(s, y, o, id);
        assert(superseded(t, id) == superseded(s, id));
    }
}

proof fn lemma_within(s: Seq<GraphRecord>, id: Seq<char>)
    ensures
        within(s, versions_of(s, id)),
    decreases s.len(),
{
    if s.len() > 0 {
        lemma_within(s.drop_last(), id);
        let before = versions_of(s.drop_last(), id);
        assert forall|k: int| 0 <= k < versions_of(s, id).len() implies 0 <= #[trigger] versions_of(
            s,
            id,
        )[k] < s.len() by {
            if k < before.len() {
                assert(versions_of(s, id)[k] == before[k]);
            }
        }
    }
}

proof fn lemma_some_version(
    s: Seq<GraphRecord>,
    t: Seq<GraphRecord>,
    vs: Seq<int>,
    p: spec_fn(GraphRecord) -> bool,
    q: spec_fn(GraphRecord) -> bool,
)
    requires
        forall|k: int| 0 <= k < vs.len() ==> p(s[#[trigger] vs[k]]) == q(t[vs[k]]),
    ensures
        some_version(s, vs, p) == some_version(t, vs, q),
{
    if some_version(s, vs, p) {
        let k = choose|k: int| 0 <= k < vs.len() && p(s[#[trigger] vs[k]]);
        assert(q(t[vs[k]]));
    }
    if some_version(t, vs, q) {
        let k = choose|k: int| 0 <= k < vs.len() && q(t[#[trigger] vs[k]]);
        assert(p(s[vs[k]]));
    }
}

proof fn lemma_at_tips(
    s: Seq<GraphRecord>,
    y: GraphRecord,
    o: Seq<char>,
    own: Map<Seq<char>, Seq<char>>,
    id: Seq<char>,
)
    requires
        quiet(s, y, o),
        same_history(s, s.push(y), own),
    ensures
        at_tips(s.push(y), own, id) == at_tips(s, own, id),
{
    let t = s.push(y);
    lemma_versions_stay(s, y, o, id);
    lemma_some_version(
        s,
        t,
        versions_of(s, id),
        |r: GraphRecord| at_tip_or_current(s, own, id, r),
        |r: GraphRecord| at_tip_or_current(t, own, id, r),
    );
}

proof fn lemma_times(
    s: Seq<GraphRecord>,
    y: GraphRecord,
    o: Seq<char>,
    own: Map<Seq<char>, Seq<char>>,
    ids: Seq<Seq<char>>,
    repo: Option<Seq<char>>,
)
    requires
        quiet(s, y, o),
    ensures
        handle_times(s.push(y), own, ids, repo) == handle_times(s, own, ids, repo),
    decreases ids.len(),
{
    if ids.len() > 0 {
        lemma_times(s, y, o, own, ids.drop_last(), repo);
        lemma_versions_stay(s, y, o, ids.last());
        lemma_scan_times(s, y, versions_of(s, ids.last()));
    }
}

proof fn lemma_scan_times(s: Seq<GraphRecord>, y: GraphRecord, vs: Seq<int>)
    requires
        within(s, vs),
    ensures
        scan_times(s.push(y), vs) == scan_times(s, vs),
    decreases vs.len(),
{
    if vs.len() > 0 {
        assert(within(s, vs.drop_last())) by {
            assert forall|k: int| 0 <= k < vs.drop_last().len() implies 0
                <= #[trigger] vs.drop_last()[k] < s.len() by {
                assert(vs.drop_last()[k] == vs[k]);
            }
        }
        lemma_scan_times(s, y, vs.drop_last());
        assert(s.push(y)[vs.last()] == s[vs[vs.len() - 1]]);
    }
}

proof fn lemma_frontier(
    s: Seq<GraphRecord>,
    y: GraphRecord,
    o: Seq<char>,
    own: Map<Seq<char>, Seq<char>>,
    repo: Option<Seq<char>>,
)
    requires
        quiet(s, y, o),
        same_history(s, s.push(y), own),
    ensures
        frontier(s.push(y), own, repo) == frontier(s, own, repo),
{
    let t = s.push(y);
    let f = |id: Seq<char>| at_tips(s, own, id);
    let g = |id: Seq<char>| at_tips(t, own, id);
    assert forall|id: Seq<char>| #[trigger] f(id) == g(id) by {
        lemma_at_tips(s, y, o, own, id);
    }
    assert(f =~= g);
    lemma_times(s, y, o, own, in_order(f), repo);
    assert(t.drop_last() =~= s);
    assert(t.last() == y);
    assert(repository_times(t, own, repo) == repository_times(s, own, repo));
}

proof fn lemma_live_handle(
    s: Seq<GraphRecord>,
    y: GraphRecord,
    o: Seq<char>,
    own: Map<Seq<char>, Seq<char>>,
    id: Seq<char>,
)
    requires
        quiet(s, y, o),
        same_history(s, s.push(y), own),
    ensures
        live_handle(s.push(y), own, id) == live_handle(s, own, id),
        live_handle(s, own, id) ==> id != o,
{
    let t = s.push(y);
    let vs = versions_of(s, id);
    lemma_versions_stay(s, y, o, id);
    lemma_at_tips(s, y, o, own, id);
    lemma_frontier(s, y, o, own, owner(own, id));
    lemma_some_version(
        s,
        t,
        vs,
        |r: GraphRecord| commit_of(r) is Some,
        |r: GraphRecord| commit_of(r) is Some,
    );
    lemma_some_version(
        s,
        t,
        vs,
        |r: GraphRecord| commit_of(r) is None,
        |r: GraphRecord| commit_of(r) is None,
    );
    lemma_some_version(
        s,
        t,
        vs,
        |r: GraphRecord| committed_at_tip(s, own, id, r),
        |r: GraphRecord| committed_at_tip(t, own, id, r),
    );
    match frontier(s, own, owner(own, id)) {
        Some(f) => {
            lemma_some_version(
                s,
                t,
                vs,
                |r: GraphRecord| scanned_at(r, f),
                |r: GraphRecord| scanned_at(r, f),
            );
        },
        None => {},
    }
}

proof fn lemma_lies_live(
    s: Seq<GraphRecord>,
    y: GraphRecord,
    o: Seq<char>,
    own: Map<Seq<char>, Seq<char>>,
    path: Seq<char>,
    span: Option<SourceSpan>,
    id: Seq<char>,
)
    requires
        quiet(s, y, o),
        same_history(s, s.push(y), own),
    ensures
        lies_live(s.push(y), own, path, span, id) == lies_live(s, own, path, span, id),
        lies_live(s, own, path, span, id) ==> id != o,
{
    let t = s.push(y);
    lemma_versions_stay(s, y, o, id);
    lemma_live_handle(s, y, o, own, id);
    lemma_frontier(s, y, o, own, owner(own, id));
    assert forall|r: GraphRecord| at_frontier(t, own, id, r) == #[trigger] at_frontier(s, own, id, r) by {
        if commit_of(r) is Some {
            if forall|x: Seq<char>| !#[trigger] tip_for(s, own, id, x) {
                assert forall|x: Seq<char>| !#[trigger] tip_for(t, own, id, x) by {
                    assert(!tip_for(s, own, id, x));
                }
            } else {
                let x = choose|x: Seq<char>| #[trigger] tip_for(s, own, id, x);
                assert(tip_for(t, own, id, x));
            }
        }
    }
    let p = |r: GraphRecord| lies_at(r->Node_0, path, span) && at_frontier(s, own, id, r);
    let q = |r: GraphRecord| lies_at(r->Node_0, path, span) && at_frontier(t, own, id, r);
    let vs = versions_of(s, id);
    assert forall|k: int| 0 <= k < vs.len() implies p(s[#[trigger] vs[k]]) == q(t[vs[k]]) by {
        assert(t[vs[k]] == s[vs[k]]);
    }
    lemma_some_version(s, t, vs, p, q);
}

proof fn lemma_lay_at(
    s: Seq<GraphRecord>,
    y: GraphRecord,
    o: Seq<char>,
    path: Seq<char>,
    span: Option<SourceSpan>,
    commit: Seq<char>,
    id: Seq<char>,
)
    requires
        quiet(s, y, o),
    ensures
        lay_at(s.push(y), path, span, commit, id) == lay_at(s, path, span, commit, id),
        lay_at(s, path, span, commit, id) ==> id != o,
{
    let t = s.push(y);
    if lay_at(s, path, span, commit, id) {
        let i = choose|i: int|
            0 <= i < s.len() && is_handle_version(#[trigger] s[i], id) && commit_of(s[i]) == Some(
                commit,
            ) && lies_at(s[i]->Node_0, path, span);
        assert(t[i] == s[i]);
        assert(is_event(s[i], id));
    }
    if lay_at(t, path, span, commit, id) {
        let i = choose|i: int|
            0 <= i < t.len() && is_handle_version(#[trigger] t[i], id) && commit_of(t[i]) == Some(
                commit,
            ) && lies_at(t[i]->Node_0, path, span);
        assert(t[i] == s[i]);
    }
}

proof fn lemma_cited(
    s: Seq<GraphRecord>,
    y: GraphRecord,
    o: Seq<char>,
    own: Map<Seq<char>, Seq<char>>,
    l: EvidenceLinkView,
)
    requires
        quiet(s, y, o),
        same_history(s, s.push(y), own),
    ensures
        cited(s.push(y), own, l) == cited(s, own, l),
        classifiable(s.push(y), l) == classifiable(s, l),
        classifiable(s, l) ==> cited(s, own, l) != Some(o),
{
    let t = s.push(y);
    match nonempty(l.target_record_id) {
        Some(id) => {
            assert(kind_of(t, id) == kind_of(s, id));
        },
        None => match l.target_repo_relative_path {
            None => {},
            Some(path) => {
                let span = l.target_span;
                let f = |id: Seq<char>| lies_live(s, own, path, span, id);
                let g = |id: Seq<char>| lies_live(t, own, path, span, id);
                assert forall|id: Seq<char>| #[trigger] f(id) == g(id) && (f(id) ==> id != o) by {
                    lemma_lies_live(s, y, o, own, path, span, id);
                }
                assert(f =~= g);
                assert(the_only(f) != Some(o));
                match identity_commit(l) {
                    None => {},
                    Some(c) => {
                        let h = |id: Seq<char>| lay_at(s, path, span, c, id);
                        let k = |id: Seq<char>| lay_at(t, path, span, c, id);
                        assert forall|id: Seq<char>| #[trigger] h(id) == k(id) && (h(id) ==> id != o) by {
                            lemma_lay_at(s, y, o, path, span, c, id);
                        }
                        assert(h =~= k);
                        assert(the_only(h) != Some(o));
                        if exists|id: Seq<char>| #[trigger] lay_at(s, path, span, c, id) {
                            let id = choose|id: Seq<char>| #[trigger] lay_at(s, path, span, c, id);
                            lemma_lay_at(s, y, o, path, span, c, id);
                            assert(lay_at(t, path, span, c, id));
                        }
                        if exists|id: Seq<char>| #[trigger] lay_at(t, path, span, c, id) {
                            let id = choose|id: Seq<char>| #[trigger] lay_at(t, path, span, c, id);
                            lemma_lay_at(s, y, o, path, span, c, id);
                            assert(lay_at(s, path, span, c, id));
                        }
                    },
                }
            },
        },
    }
}

// ---------------------------------------------------------------------------
// The verdicts stay
// ---------------------------------------------------------------------------

proof fn lemma_drift_of(s: Seq<GraphRecord>, y: GraphRecord, o: Seq<char>, i: int)
    requires
        quiet(s, y, o),
        0 <= i < s.len(),
    ensures
        drift_of(s.push(y), s.push(y)[i]) == drift_of(s, s[i]),
{
    assert(s.push(y)[i] == s[i]);
    match s[i] {
        GraphRecord::Node(n) => {
            if n.id@ == o {
                assert(is_event(s[i], o));
            } else {
                lemma_deleted(s, y, o, n.id@);
                assert(superseded(s.push(y), n.id@) == superseded(s, n.id@));
            }
        },
        _ => {},
    }
}

proof fn lemma_drifts_from(s: Seq<GraphRecord>, y: GraphRecord, o: Seq<char>, n: int, prior: Seq<char>)
    requires
        quiet(s, y, o),
        0 <= n <= s.len(),
    ensures
        drifts_from(s.push(y), n, prior) == drifts_from(s, n, prior),
        within(s, drifts_from(s, n, prior)),
    decreases n,
{
    if n > 0 {
        lemma_drifts_from(s, y, o, n - 1, prior);
        lemma_drift_of(s, y, o, n - 1);
        let before = drifts_from(s, n - 1, prior);
        let v = drifts_from(s, n, prior);
        assert forall|k: int| 0 <= k < v.len() implies 0 <= #[trigger] v[k] < s.len() by {
            if k < before.len() {
                assert(v[k] == before[k]);
            }
        }
    }
}

proof fn lemma_drift_named(s: Seq<GraphRecord>, y: GraphRecord, o: Seq<char>, n: int, id: Seq<char>)
    requires
        quiet(s, y, o),
        0 <= n <= s.len(),
    ensures
        drift_named(s.push(y), n, id) == drift_named(s, n, id),
        match drift_named(s, n, id) {
            Some(i) => 0 <= i < s.len(),
            None => true,
        },
    decreases n,
{
    if n > 0 {
        lemma_drift_of(s, y, o, n - 1);
        lemma_drift_named(s, y, o, n - 1, id);
        assert(s.push(y)[n - 1] == s[n - 1]);
    }
}

proof fn lemma_no_drift_behind(s: Seq<GraphRecord>, y: GraphRecord, o: Seq<char>, id: Seq<char>)
    requires
        quiet(s, y, o),
    ensures
        drifts_from(s.push(y), s.push(y).len() as int, id) == drifts_from(s, s.len() as int, id),
        within(s, drifts_from(s, s.len() as int, id)),
        drift_named(s.push(y), s.push(y).len() as int, id) == drift_named(s, s.len() as int, id),
        match drift_named(s, s.len() as int, id) {
            Some(i) => 0 <= i < s.len(),
            None => true,
        },
{
    let t = s.push(y);
    assert(t[t.len() - 1] == y);
    assert(drift_of(t, y) is None);
    lemma_drifts_from(s, y, o, s.len() as int, id);
    lemma_drift_named(s, y, o, s.len() as int, id);
}

proof fn lemma_names_drift(s: Seq<GraphRecord>, y: GraphRecord, at: Seq<int>, id: Seq<char>)
    requires
        within(s, at),
    ensures
        names_drift(s.push(y), at, id) == names_drift(s, at, id),
{
    let t = s.push(y);
    if names_drift(s, at, id) {
        let k = choose|k: int| 0 <= k < at.len() && s[#[trigger] at[k]]->Node_0.id@ == id;
        assert(t[at[k]] == s[at[k]]);
    }
    if names_drift(t, at, id) {
        let k = choose|k: int| 0 <= k < at.len() && t[#[trigger] at[k]]->Node_0.id@ == id;
        assert(t[at[k]] == s[at[k]]);
    }
}

proof fn lemma_drifts_with_edges(
    s: Seq<GraphRecord>,
    y: GraphRecord,
    o: Seq<char>,
    n: int,
    prior: Seq<char>,
)
    requires
        quiet(s, y, o),
        0 <= n <= s.len(),
    ensures
        drifts_with_edges(s.push(y), n, prior) == drifts_with_edges(s, n, prior),
        within(s, drifts_with_edges(s, n, prior)),
    decreases n,
{
    let t = s.push(y);
    lemma_no_drift_behind(s, y, o, prior);
    if n > 0 {
        lemma_drifts_with_edges(s, y, o, n - 1, prior);
        assert(t[n - 1] == s[n - 1]);
        match s[n - 1] {
            GraphRecord::Edge(e) => {
                assert(e.id@ != o) by {
                    if e.id@ == o {
                        assert(is_event(s[n - 1], o));
                    }
                }
                lemma_deleted(s, y, o, e.id@);
                lemma_no_drift_behind(s, y, o, e.source@);
                lemma_names_drift(s, y, drifts_with_edges(s, n - 1, prior), e.source@);
                let before = drifts_with_edges(s, n - 1, prior);
                let v = drifts_with_edges(s, n, prior);
                assert forall|k: int| 0 <= k < v.len() implies 0 <= #[trigger] v[k] < s.len() by {
                    if k < before.len() {
                        assert(v[k] == before[k]);
                    }
                }
            },
            _ => {},
        }
    }
}

proof fn lemma_within_drop_last(s: Seq<GraphRecord>, vs: Seq<int>)
    requires
        within(s, vs),
        vs.len() > 0,
    ensures
        within(s, vs.drop_last()),
        within(s, vs.drop_first()),
        0 <= vs.last() < s.len(),
        0 <= vs[0] < s.len(),
{
    assert forall|k: int| 0 <= k < vs.drop_last().len() implies 0 <= #[trigger] vs.drop_last()[k]
        < s.len() by {
        assert(vs.drop_last()[k] == vs[k]);
    }
    assert forall|k: int| 0 <= k < vs.drop_first().len() implies 0 <= #[trigger] vs.drop_first()[k]
        < s.len() by {
        assert(vs.drop_first()[k] == vs[k + 1]);
    }
    assert(vs.last() == vs[vs.len() - 1]);
}

proof fn lemma_chosen_drift(
    s: Seq<GraphRecord>,
    y: GraphRecord,
    own: Map<Seq<char>, Seq<char>>,
    at: Seq<int>,
    anchor: Option<Seq<char>>,
    time: Option<Seq<char>>,
)
    requires
        same_history(s, s.push(y), own),
        within(s, at),
    ensures
        chosen_drift(s.push(y), at, anchor, time) == chosen_drift(s, at, anchor, time),
        match chosen_drift(s, at, anchor, time) {
            Some(i) => 0 <= i < s.len(),
            None => true,
        },
    decreases at.len(),
{
    if at.len() > 0 {
        let t = s.push(y);
        lemma_within_drop_last(s, at);
        lemma_chosen_drift(s, y, own, at.drop_last(), anchor, time);
        let i = at.last();
        assert(t[i] == s[i]);
        let d = s[i]->Node_0.semantic_drift->0;
        assert(after_anchor(t, d, anchor, time) == after_anchor(s, d, anchor, time)) by {
            if anchor is Some {
                assert(in_dag(t, anchor->0) == in_dag(s, anchor->0));
                assert(descends(t, anchor->0, d.before_git_commit@) == descends(
                    s,
                    anchor->0,
                    d.before_git_commit@,
                ));
                assert(descends(t, anchor->0, d.after_git_commit@) == descends(
                    s,
                    anchor->0,
                    d.after_git_commit@,
                ));
            }
        }
        match chosen_drift(s, at.drop_last(), anchor, time) {
            Some(b) => {
                assert(t[b] == s[b]);
                assert(drift_before(t, i, b) == drift_before(s, i, b));
            },
            None => {},
        }
    }
}

proof fn lemma_drift_trigger(
    s: Seq<GraphRecord>,
    y: GraphRecord,
    o: Seq<char>,
    own: Map<Seq<char>, Seq<char>>,
    id: Seq<char>,
    anchor: Option<Seq<char>>,
    time: Option<Seq<char>>,
)
    requires
        quiet(s, y, o),
        same_history(s, s.push(y), own),
    ensures
        drift_trigger(s.push(y), id, anchor, time) == drift_trigger(s, id, anchor, time),
{
    let t = s.push(y);
    let at = drifts_with_edges(s, s.len() as int, id);
    lemma_drifts_with_edges(s, y, o, s.len() as int, id);
    assert(t[t.len() - 1] == y);
    assert(drifts_with_edges(t, t.len() as int, id) == at);
    lemma_chosen_drift(s, y, own, at, anchor, time);
    match chosen_drift(s, at, anchor, time) {
        Some(i) => {
            assert(t[i] == s[i]);
        },
        None => {},
    }
}

proof fn lemma_version_at(s: Seq<GraphRecord>, y: GraphRecord, vs: Seq<int>, c: Seq<char>)
    requires
        within(s, vs),
    ensures
        version_at(s.push(y), vs, c) == version_at(s, vs, c),
        match version_at(s, vs, c) {
            Some(i) => 0 <= i < s.len(),
            None => true,
        },
    decreases vs.len(),
{
    if vs.len() > 0 {
        lemma_within_drop_last(s, vs);
        assert(s.push(y)[vs[0]] == s[vs[0]]);
        lemma_version_at(s, y, vs.drop_first(), c);
    }
}

proof fn lemma_version_before(s: Seq<GraphRecord>, y: GraphRecord, vs: Seq<int>, time: Seq<char>)
    requires
        within(s, vs),
    ensures
        version_before(s.push(y), vs, time) == version_before(s, vs, time),
        match version_before(s, vs, time) {
            Some(i) => 0 <= i < s.len(),
            None => true,
        },
    decreases vs.len(),
{
    if vs.len() > 0 {
        lemma_within_drop_last(s, vs);
        lemma_version_before(s, y, vs.drop_last(), time);
        assert(s.push(y)[vs.last()] == s[vs.last()]);
        match version_before(s, vs.drop_last(), time) {
            Some(b) => {
                assert(s.push(y)[b] == s[b]);
            },
            None => {},
        }
    }
}

proof fn lemma_chosen_change(
    s: Seq<GraphRecord>,
    y: GraphRecord,
    own: Map<Seq<char>, Seq<char>>,
    vs: Seq<int>,
    from: int,
    anchor: Option<Seq<char>>,
    time: Seq<char>,
)
    requires
        same_history(s, s.push(y), own),
        within(s, vs),
        0 <= from < s.len(),
    ensures
        chosen_change(s.push(y), vs, from, anchor, time) == chosen_change(
            s,
            vs,
            from,
            anchor,
            time,
        ),
        match chosen_change(s, vs, from, anchor, time) {
            Some(i) => 0 <= i < s.len(),
            None => true,
        },
    decreases vs.len(),
{
    if vs.len() > 0 {
        let t = s.push(y);
        lemma_within_drop_last(s, vs);
        lemma_chosen_change(s, y, own, vs.drop_last(), from, anchor, time);
        let i = vs.last();
        assert(t[i] == s[i] && t[from] == s[from]);
        assert(later_version(t, s[i], anchor, time) == later_version(s, s[i], anchor, time)) by {
            if anchor is Some {
                assert(in_dag(t, anchor->0) == in_dag(s, anchor->0));
                if commit_of(s[i]) is Some {
                    assert(descends(t, anchor->0, commit_of(s[i])->0) == descends(
                        s,
                        anchor->0,
                        commit_of(s[i])->0,
                    ));
                }
            }
        }
        match chosen_change(s, vs.drop_last(), from, anchor, time) {
            Some(b) => {
                assert(t[b] == s[b]);
            },
            None => {},
        }
    }
}

proof fn lemma_content_trigger(
    s: Seq<GraphRecord>,
    y: GraphRecord,
    own: Map<Seq<char>, Seq<char>>,
    vs: Seq<int>,
    anchor: Option<Seq<char>>,
    time: Option<Seq<char>>,
)
    requires
        same_history(s, s.push(y), own),
        within(s, vs),
    ensures
        content_trigger(s.push(y), vs, anchor, time) == content_trigger(s, vs, anchor, time),
{
    match time {
        None => {},
        Some(at) => {
            match anchor {
                Some(c) => {
                    lemma_version_at(s, y, vs, c);
                },
                None => {},
            }
            lemma_version_before(s, y, vs, at);
            assert(anchor_version(s.push(y), vs, anchor, at) == anchor_version(s, vs, anchor, at));
            match anchor_version(s, vs, anchor, at) {
                None => {},
                Some(from) => {
                    lemma_chosen_change(s, y, own, vs, from, anchor, at);
                    match chosen_change(s, vs, from, anchor, at) {
                        Some(i) => {
                            assert(s.push(y)[i] == s[i]);
                        },
                        None => {},
                    }
                },
            }
        },
    }
}

proof fn lemma_handle_view(
    s: Seq<GraphRecord>,
    y: GraphRecord,
    vs: Seq<int>,
    n: NodeRecord,
    l: EvidenceLinkView,
    time: Option<Seq<char>>,
)
    requires
        within(s, vs),
    ensures
        handle_view(s.push(y), vs, l, time) == handle_view(s, vs, l, time),
        anchor_time(s.push(y), vs, n, l) == anchor_time(s, vs, n, l),
{
    match anchor_commit(l) {
        Some(c) => {
            lemma_version_at(s, y, vs, c);
            match version_at(s, vs, c) {
                Some(i) => {
                    assert(s.push(y)[i] == s[i]);
                },
                None => {},
            }
        },
        None => {},
    }
    if vs.len() > 0 {
        assert(s.push(y)[vs[0]] == s[vs[0]]);
    }
    assert(reference_version(s.push(y), vs, anchor_commit(l)) == reference_version(
        s,
        vs,
        anchor_commit(l),
    ));
}

proof fn lemma_lost_on_lineage(
    s: Seq<GraphRecord>,
    y: GraphRecord,
    o: Seq<char>,
    own: Map<Seq<char>, Seq<char>>,
    id: Seq<char>,
    anchor: Seq<char>,
)
    requires
        quiet(s, y, o),
        same_history(s, s.push(y), own),
    ensures
        lost_on_lineage(s.push(y), own, id, anchor) == lost_on_lineage(s, own, id, anchor),
{
    let t = s.push(y);
    assert forall|c: Seq<char>| #[trigger]
        on_lineage(t, own, id, anchor, c) == on_lineage(s, own, id, anchor, c) by {
        assert(tip_for(t, own, id, c) == tip_for(s, own, id, c));
        assert(descends(t, anchor, c) == descends(s, anchor, c));
    }
    assert(in_dag(t, anchor) == in_dag(s, anchor));
    lemma_versions_stay(s, y, o, id);
    let vs = versions_of(s, id);
    let p = |r: GraphRecord|
        commit_of(r) is Some && on_lineage(s, own, id, anchor, commit_of(r)->0);
    let q = |r: GraphRecord|
        commit_of(r) is Some && on_lineage(t, own, id, anchor, commit_of(r)->0);
    assert forall|k: int| 0 <= k < vs.len() implies p(s[#[trigger] vs[k]]) == q(t[vs[k]]) by {
        assert(t[vs[k]] == s[vs[k]]);
        if commit_of(s[vs[k]]) is Some {
            let c = commit_of(s[vs[k]])->0;
            assert(on_lineage(t, own, id, anchor, c) == on_lineage(s, own, id, anchor, c));
        }
    }
    lemma_some_version(s, t, vs, p, q);
    if exists|c: Seq<char>| #[trigger] on_lineage(s, own, id, anchor, c) {
        let c = choose|c: Seq<char>| #[trigger] on_lineage(s, own, id, anchor, c);
        assert(on_lineage(t, own, id, anchor, c));
    }
    if exists|c: Seq<char>| #[trigger] on_lineage(t, own, id, anchor, c) {
        let c = choose|c: Seq<char>| #[trigger] on_lineage(t, own, id, anchor, c);
        assert(on_lineage(s, own, id, anchor, c));
    }
}

proof fn lemma_classify(
    s: Seq<GraphRecord>,
    y: GraphRecord,
    o: Seq<char>,
    own: Map<Seq<char>, Seq<char>>,
    n: NodeRecord,
    l: EvidenceLinkView,
)
    requires
        quiet(s, y, o),
        same_history(s, s.push(y), own),
        classifiable(s, l),
    ensures
        classify(s.push(y), own, n, l) == classify(s, own, n, l),
        classify(s, own, n, l).observation_id == n.id@,
{
    reveal(classify);
    let t = s.push(y);
    lemma_cited(s, y, o, own, l);
    lemma_handle_view(s, y, Seq::empty(), n, l, None);
    match cited(s, own, l) {
        None => {},
        Some(id) => {
            lemma_live_handle(s, y, o, own, id);
            lemma_deleted(s, y, o, id);
            lemma_versions_stay(s, y, o, id);
            let vs = versions_of(s, id);
            lemma_handle_view(s, y, vs, n, l, None);
            let time = anchor_time(s, vs, n, l);
            lemma_handle_view(s, y, vs, n, l, time);
            match anchor_commit(l) {
                Some(c) => {
                    lemma_lost_on_lineage(s, y, o, own, id, c);
                },
                None => {},
            }
            lemma_drift_trigger(s, y, o, own, id, anchor_commit(l), time);
            lemma_content_trigger(s, y, own, vs, anchor_commit(l), time);
            assert(moved(t, id, n, l) == moved(s, id, n, l));
        },
    }
}

proof fn lemma_edge_links(s: Seq<GraphRecord>, y: GraphRecord, o: Seq<char>, n: int, id: Seq<char>)
    requires
        quiet(s, y, o),
        0 <= n <= s.len(),
    ensures
        edge_links(s.push(y), n, id) == edge_links(s, n, id),
        edge_links(s.push(y), s.push(y).len() as int, id) == edge_links(
            s.push(y),
            s.len() as int,
            id,
        ),
    decreases n,
{
    let t = s.push(y);
    assert(t[t.len() - 1] == y);
    if n > 0 {
        lemma_edge_links(s, y, o, n - 1, id);
        assert(t[n - 1] == s[n - 1]);
        match s[n - 1] {
            GraphRecord::Edge(e) => {
                assert(e.id@ != o) by {
                    if e.id@ == o {
                        assert(is_event(s[n - 1], o));
                    }
                }
                lemma_deleted(s, y, o, e.id@);
                assert(superseded(t, e.id@) == superseded(s, e.id@));
                assert(kind_of(t, e.target@) == kind_of(s, e.target@));
                assert(edge_cites_code(t, e) == edge_cites_code(s, e));
            },
            _ => {},
        }
    }
}

proof fn lemma_keyed_before(
    s: Seq<GraphRecord>,
    y: GraphRecord,
    o: Seq<char>,
    own: Map<Seq<char>, Seq<char>>,
    links: Seq<EvidenceLinkView>,
    n: int,
    key: (Seq<char>, Seq<char>, Seq<char>),
)
    requires
        quiet(s, y, o),
        same_history(s, s.push(y), own),
    ensures
        keyed_before(s.push(y), own, links, n, key) == keyed_before(s, own, links, n, key),
{
    let t = s.push(y);
    if keyed_before(s, own, links, n, key) {
        let k = choose|k: int|
            0 <= k < n && k < links.len() && classifiable(s, #[trigger] links[k]) && citation_key(
                s,
                own,
                links[k],
            ) == Some(key);
        lemma_cited(s, y, o, own, links[k]);
    }
    if keyed_before(t, own, links, n, key) {
        let k = choose|k: int|
            0 <= k < n && k < links.len() && classifiable(t, #[trigger] links[k]) && citation_key(
                t,
                own,
                links[k],
            ) == Some(key);
        lemma_cited(s, y, o, own, links[k]);
    }
}

/// Whether every entry is one of the observation `o`.
spec fn all_of(v: Seq<VerdictEntryView>, o: Seq<char>) -> bool {
    forall|k: int| 0 <= k < v.len() ==> (#[trigger] v[k]).observation_id == o
}

proof fn lemma_inline_entries(
    s: Seq<GraphRecord>,
    y: GraphRecord,
    o: Seq<char>,
    own: Map<Seq<char>, Seq<char>>,
    obs: NodeRecord,
    links: Seq<EvidenceLinkView>,
    n: int,
)
    requires
        quiet(s, y, o),
        same_history(s, s.push(y), own),
        0 <= n <= links.len(),
    ensures
        inline_entries(s.push(y), own, obs, links, n) == inline_entries(s, own, obs, links, n),
        all_of(inline_entries(s, own, obs, links, n), obs.id@),
    decreases n,
{
    if n > 0 {
        lemma_inline_entries(s, y, o, own, obs, links, n - 1);
        lemma_cited(s, y, o, own, links[n - 1]);
        if classifiable(s, links[n - 1]) {
            lemma_classify(s, y, o, own, obs, links[n - 1]);
            let before = inline_entries(s, own, obs, links, n - 1);
            let v = inline_entries(s, own, obs, links, n);
            assert forall|k: int| 0 <= k < v.len() implies (#[trigger] v[k]).observation_id
                == obs.id@ by {
                if k < before.len() {
                    assert(v[k] == before[k]);
                }
            }
        }
    }
}

proof fn lemma_edge_entries(
    s: Seq<GraphRecord>,
    y: GraphRecord,
    o: Seq<char>,
    own: Map<Seq<char>, Seq<char>>,
    obs: NodeRecord,
    inline: Seq<EvidenceLinkView>,
    edges: Seq<EvidenceLinkView>,
    n: int,
)
    requires
        quiet(s, y, o),
        same_history(s, s.push(y), own),
        0 <= n <= edges.len(),
    ensures
        edge_entries(s.push(y), own, obs, inline, edges, n) == edge_entries(
            s,
            own,
            obs,
            inline,
            edges,
            n,
        ),
        all_of(edge_entries(s, own, obs, inline, edges, n), obs.id@),
    decreases n,
{
    if n > 0 {
        lemma_edge_entries(s, y, o, own, obs, inline, edges, n - 1);
        let l = edges[n - 1];
        lemma_cited(s, y, o, own, l);
        match citation_key(s, own, l) {
            Some(key) => {
                lemma_keyed_before(s, y, o, own, inline, inline.len() as int, key);
                lemma_keyed_before(s, y, o, own, edges, n - 1, key);
            },
            None => {},
        }
        assert(edge_kept(s.push(y), own, inline, edges, n - 1) == edge_kept(
            s,
            own,
            inline,
            edges,
            n - 1,
        ));
        if edge_kept(s, own, inline, edges, n - 1) {
            lemma_classify(s, y, o, own, obs, l);
            let before = edge_entries(s, own, obs, inline, edges, n - 1);
            let v = edge_entries(s, own, obs, inline, edges, n);
            assert forall|k: int| 0 <= k < v.len() implies (#[trigger] v[k]).observation_id
                == obs.id@ by {
                if k < before.len() {
                    assert(v[k] == before[k]);
                }
            }
        }
    }
}

proof fn lemma_observation_entries(
    s: Seq<GraphRecord>,
    y: GraphRecord,
    o: Seq<char>,
    own: Map<Seq<char>, Seq<char>>,
    obs: NodeRecord,
)
    requires
        quiet(s, y, o),
        same_history(s, s.push(y), own),
    ensures
        observation_entries(s.push(y), own, obs) == observation_entries(s, own, obs),
        all_of(observation_entries(s, own, obs), obs.id@),
{
    let inline = inline_links(obs);
    let edges = edge_links(s, s.len() as int, obs.id@);
    lemma_edge_links(s, y, o, s.len() as int, obs.id@);
    lemma_inline_entries(s, y, o, own, obs, inline, inline.len() as int);
    lemma_edge_entries(s, y, o, own, obs, inline, edges, edges.len() as int);
    let a = inline_entries(s, own, obs, inline, inline.len() as int);
    let b = edge_entries(s, own, obs, inline, edges, edges.len() as int);
    assert forall|k: int| 0 <= k < (a + b).len() implies (#[trigger] (a + b)[k]).observation_id
        == obs.id@ by {
        if k < a.len() {
            assert((a + b)[k] == a[k]);
        } else {
            assert((a + b)[k] == b[k - a.len()]);
        }
    }
}

proof fn lemma_citing(s: Seq<GraphRecord>, y: GraphRecord, o: Seq<char>, r: GraphRecord)
    requires
        quiet(s, y, o),
    ensures
        citing(s.push(y), r) == citing(s, r),
{
    if r is Node {
        lemma_edge_links(s, y, o, s.len() as int, r->Node_0.id@);
    }
}

/// Which observations are reported stays, but for those under `o` where it is deleted.
proof fn lemma_reported(s: Seq<GraphRecord>, y: GraphRecord, o: Seq<char>, i: int)
    requires
        quiet(s, y, o),
        0 <= i < s.len(),
    ensures
        s[i] is Node && s[i]->Node_0.id@ == o ==> (reported(s.push(y), i) <==> reported(s, i)
            && !deleted(s.push(y), o)) || deleted(s, o),
        !(s[i] is Node && s[i]->Node_0.id@ == o) ==> reported(s.push(y), i) == reported(s, i),
{
    let t = s.push(y);
    assert(t[i] == s[i]);
    lemma_citing(s, y, o, s[i]);
    if s[i] is Node {
        let id = s[i]->Node_0.id@;
        if id != o {
            lemma_deleted(s, y, o, id);
        }
        assert(superseded(t, id) == superseded(s, id));
        assert forall|j: int| 0 <= j < i implies t[j] == #[trigger] s[j] && citing(t, t[j])
            == citing(s, s[j]) by {
            lemma_citing(s, y, o, s[j]);
        }
        if reported(s, i) {
            assert forall|j: int| 0 <= j < i implies !(citing(t, #[trigger] t[j])
                && t[j]->Node_0.id@ == id) by {
                assert(t[j] == s[j]);
                assert(citing(t, t[j]) == citing(s, s[j]));
            }
        }
        if reported(t, i) {
            assert forall|j: int| 0 <= j < i implies !(citing(s, #[trigger] s[j])
                && s[j]->Node_0.id@ == id) by {
                assert(t[j] == s[j]);
                assert(citing(t, t[j]) == citing(s, s[j]));
            }
        }
    }
}

proof fn lemma_entries_stay(
    s: Seq<GraphRecord>,
    y: GraphRecord,
    o: Seq<char>,
    own: Map<Seq<char>, Seq<char>>,
    n: int,
)
    requires
        quiet(s, y, o),
        same_history(s, s.push(y), own),
        0 <= n <= s.len(),
        !deleted(s, o),
        !deleted(s.push(y), o),
    ensures
        entries_below(s.push(y), own, n) == entries_below(s, own, n),
    decreases n,
{
    if n > 0 {
        lemma_entries_stay(s, y, o, own, n - 1);
        lemma_reported(s, y, o, n - 1);
        assert(s.push(y)[n - 1] == s[n - 1]);
        lemma_observation_entries(s, y, o, own, s[n - 1]->Node_0);
    }
}

proof fn lemma_others_append(v: Seq<VerdictEntryView>, w: Seq<VerdictEntryView>, o: Seq<char>)
    ensures
        entries_of_others(v + w, o) == entries_of_others(v, o) + entries_of_others(w, o),
    decreases w.len(),
{
    if w.len() == 0 {
        assert(v + w =~= v);
        assert(entries_of_others(v, o) + w =~= entries_of_others(v, o));
    } else {
        lemma_others_append(v, w.drop_last(), o);
        assert((v + w).drop_last() =~= v + w.drop_last());
        assert((v + w).last() == w.last());
        if w.last().observation_id != o {
            assert(entries_of_others(v, o) + entries_of_others(w, o) =~= (entries_of_others(v, o)
                + entries_of_others(w.drop_last(), o)).push(w.last()));
        }
    }
}

proof fn lemma_others_of_one(v: Seq<VerdictEntryView>, id: Seq<char>, o: Seq<char>)
    requires
        all_of(v, id),
    ensures
        entries_of_others(v, o) == (if id == o {
            Seq::empty()
        } else {
            v
        }),
    decreases v.len(),
{
    if v.len() > 0 {
        assert(v.last() == v[v.len() - 1]);
        assert forall|k: int| 0 <= k < v.drop_last().len() implies (
        #[trigger] v.drop_last()[k]).observation_id == id by {
            assert(v.drop_last()[k] == v[k]);
        }
        lemma_others_of_one(v.drop_last(), id, o);
        assert(v.drop_last().push(v.last()) =~= v);
    }
}

proof fn lemma_entries_leave(
    s: Seq<GraphRecord>,
    y: GraphRecord,
    o: Seq<char>,
    own: Map<Seq<char>, Seq<char>>,
    n: int,
)
    requires
        quiet(s, y, o),
        same_history(s, s.push(y), own),
        0 <= n <= s.len(),
        !deleted(s, o),
        deleted(s.push(y), o),
    ensures
        entries_below(s.push(y), own, n) == entries_of_others(entries_below(s, own, n), o),
    decreases n,
{
    if n > 0 {
        lemma_entries_leave(s, y, o, own, n - 1);
        lemma_reported(s, y, o, n - 1);
        assert(s.push(y)[n - 1] == s[n - 1]);
        let obs = s[n - 1]->Node_0;
        lemma_observation_entries(s, y, o, own, obs);
        let before = entries_below(s, own, n - 1);
        let more = observation_entries(s, own, obs);
        if reported(s, n - 1) {
            lemma_others_append(before, more, o);
            lemma_others_of_one(more, obs.id@, o);
            assert(entries_of_others(before, o) + Seq::<VerdictEntryView>::empty()
                =~= entries_of_others(before, o));
        }
    }
}

// ---------------------------------------------------------------------------
// Sorting
// ---------------------------------------------------------------------------

proof fn lemma_others_insert(
    v: Seq<VerdictEntryView>,
    e: VerdictEntryView,
    o: Seq<char>,
    lt: spec_fn(VerdictEntryView, VerdictEntryView) -> bool,
)
    requires
        weak_order(lt),
        in_order_by(v, lt),
    ensures
        entries_of_others(insert_by(v, e, lt), o) == (if e.observation_id == o {
            entries_of_others(v, o)
        } else {
            insert_by(entries_of_others(v, o), e, lt)
        }),
    decreases v.len(),
{
    if v.len() == 0 || !lt(e, v.last()) {
        assert(v.push(e).drop_last() =~= v);
        if e.observation_id != o {
            let w = entries_of_others(v, o);
            lemma_others_are_members(v, o);
            if w.len() > 0 {
                assert(w.last() == w[w.len() - 1]);
                let k = choose|k: int| 0 <= k < v.len() && v[k] == w[w.len() - 1];
                if k < v.len() - 1 {
                    assert(!lt(v[v.len() - 1], v[k]));
                    assert(!lt(e, v[v.len() - 1]));
                }
                assert(!lt(e, w.last()));
            }
        }
    } else {
        let r = insert_by(v.drop_last(), e, lt);
        assert forall|i: int, j: int| 0 <= i < j < v.drop_last().len() implies !lt(
            #[trigger] v.drop_last()[j],
            #[trigger] v.drop_last()[i],
        ) by {
            assert(!lt(v[j], v[i]));
        }
        lemma_others_insert(v.drop_last(), e, o, lt);
        assert(r.push(v.last()).drop_last() =~= r);
        if v.last().observation_id != o && e.observation_id != o {
            let w = entries_of_others(v, o);
            assert(w.drop_last() =~= entries_of_others(v.drop_last(), o));
            assert(w.last() == v.last());
        }
    }
}

proof fn lemma_others_are_members(v: Seq<VerdictEntryView>, o: Seq<char>)
    ensures
        forall|i: int|
            0 <= i < entries_of_others(v, o).len() ==> v.contains(
                #[trigger] entries_of_others(v, o)[i],
            ),
    decreases v.len(),
{
    if v.len() > 0 {
        lemma_others_are_members(v.drop_last(), o);
        let w = entries_of_others(v, o);
        let before = entries_of_others(v.drop_last(), o);
        assert forall|i: int| 0 <= i < w.len() implies v.contains(#[trigger] w[i]) by {
            if i < before.len() {
                assert(w[i] == before[i]);
                let k = choose|k: int|
                    0 <= k < v.drop_last().len() && v.drop_last()[k] == before[i];
                assert(v[k] == w[i]);
            } else {
                assert(v[v.len() - 1] == w[i]);
            }
        }
    }
}

proof fn lemma_others_sorted(v: Seq<VerdictEntryView>, o: Seq<char>)
    ensures
        by_handle(entries_of_others(v, o)) == entries_of_others(by_handle(v), o),
    decreases v.len(),
{
    let lt = |a: VerdictEntryView, b: VerdictEntryView| entry_before(a, b);
    if v.len() > 0 {
        lemma_others_sorted(v.drop_last(), o);
        lemma_entry_order();
        lemma_sorted_by(v.drop_last(), lt);
        lemma_others_insert(sorted_by(v.drop_last(), lt), v.last(), o, lt);
        if v.last().observation_id != o {
            let w = entries_of_others(v, o);
            assert(w.drop_last() =~= entries_of_others(v.drop_last(), o));
            assert(w.last() == v.last());
        }
    }
}

// ---------------------------------------------------------------------------
// The laws
// ---------------------------------------------------------------------------

proof fn lemma_observation_views(a: NodeRecord, x: NodeRecord)
    requires
        a@ == x@,
    ensures
        a.kind == x.kind,
        a.id@ == x.id@,
        a.temporal is None <==> x.temporal is None,
        opt_view(a.superseded_by) == opt_view(x.superseded_by),
        inline_links(a) == inline_links(x),
{
    assert(a@.temporal == x@.temporal);
    assert(a@.evidence_links == x@.evidence_links);
    match a.evidence_links {
        Some(v) => {
            assert(inline_links(a) =~= a@.evidence_links->0);
            assert(inline_links(x) =~= x@.evidence_links->0);
        },
        None => {},
    }
}

proof fn lemma_supersedes_nothing(x: NodeRecord, id: Seq<char>)
    requires
        forall|k: int|
            0 <= k < inline_links(x).len() ==> (#[trigger] inline_links(x)[k]).relation
                != edge_label_name(EdgeLabel::Supersedes),
    ensures
        !links_supersede(x.evidence_links, id),
{
    match x.evidence_links {
        Some(v) => {
            assert forall|k: int| 0 <= k < v@.len() implies !#[trigger] link_supersedes(v@[k], id) by {
                assert(inline_links(x)[k] == v@[k]@);
            }
        },
        None => {},
    }
}

proof fn lemma_superseded_stays(
    s: Seq<GraphRecord>,
    y: GraphRecord,
    x: NodeRecord,
    id: Seq<char>,
)
    requires
        plain_observation(s, x),
        is_event(y, x.id@),
        y is Tombstone || y@ == GraphRecord::Node(x)@,
        marked_superseded(s.push(y), id) == marked_superseded(s, id),
        forall|i: Seq<char>| i != x.id@ ==> #[trigger] deleted(s.push(y), i) == deleted(s, i),
    ensures
        superseded(s.push(y), id) == superseded(s, id),
{
    let t = s.push(y);
    let o = x.id@;
    lemma_supersedes_nothing(x, id);
    assert(!record_supersedes(t, y, id)) by {
        if y is Node {
            lemma_observation_views(y->Node_0, x);
            lemma_supersedes_nothing(y->Node_0, id);
        }
    }
    assert forall|i: int| 0 <= i < s.len() implies record_supersedes(t, t[i], id)
        == record_supersedes(s, #[trigger] s[i], id) by {
        assert(t[i] == s[i]);
        match s[i] {
            GraphRecord::Node(n) => {
                if n.id@ == o {
                    assert(is_event(s[i], o));
                    lemma_observation_views(n, x);
                    lemma_supersedes_nothing(n, id);
                } else {
                    assert(deleted(t, n.id@) == deleted(s, n.id@));
                }
            },
            GraphRecord::Edge(e) => {
                if e.id@ == o {
                    assert(is_event(s[i], o));
                } else if e.source@ != o {
                    assert(deleted(t, e.id@) == deleted(s, e.id@));
                    assert(deleted(t, e.source@) == deleted(s, e.source@));
                }
            },
            GraphRecord::Tombstone(_) => {},
        }
    }
    if exists|i: int| 0 <= i < s.len() && record_supersedes(s, #[trigger] s[i], id) {
        let i = choose|i: int| 0 <= i < s.len() && record_supersedes(s, #[trigger] s[i], id);
        assert(record_supersedes(t, t[i], id));
    }
    if exists|i: int| 0 <= i < t.len() && record_supersedes(t, #[trigger] t[i], id) {
        let i = choose|i: int| 0 <= i < t.len() && record_supersedes(t, #[trigger] t[i], id);
        assert(i < s.len());
        assert(record_supersedes(s, s[i], id));
    }
}

proof fn lemma_quiet(s: Seq<GraphRecord>, y: GraphRecord, x: NodeRecord)
    requires
        plain_observation(s, x),
        is_event(y, x.id@),
        y is Tombstone || y@ == GraphRecord::Node(x)@,
    ensures
        quiet(s, y, x.id@),
        !deleted(s, x.id@),
        deleted(s.push(y), x.id@) == (y is Tombstone),
        commit_of(y) is None,
        parents_of(y).len() == 0,
{
    let t = s.push(y);
    let o = x.id@;
    assert(t.drop_last() =~= s);
    assert(t.last() == y);
    if y is Node {
        lemma_observation_views(y->Node_0, x);
    }
    let i0 = choose|i: int| 0 <= i < s.len() && (#[trigger] s[i])@ == GraphRecord::Node(x)@;
    assert(s[i0] is Node);
    lemma_observation_views(s[i0]->Node_0, x);
    assert(is_event(s[i0], o) && is_node_version(s[i0], o));
    lemma_last_event(s, o);
    lemma_last_node(s, o);
    let k = last_node(s, o)->0;
    assert(last_node(s, o) is Some);
    assert(is_event(s[k], o));
    lemma_observation_views(s[k]->Node_0, x);
    match last_event(s, o) {
        Some(i) => {
            assert(s[i]@ == GraphRecord::Node(x)@);
        },
        None => {},
    }
    assert forall|id: Seq<char>| id != o implies #[trigger] last_event(t, id) == last_event(s, id) by {
        assert(!is_event(y, id));
    }
    assert forall|id: Seq<char>| id != o implies #[trigger] deleted(t, id) == deleted(s, id) by {
        assert(last_event(t, id) == last_event(s, id));
        lemma_last_event(s, id);
    }
    assert forall|id: Seq<char>| #[trigger] kind_of(t, id) == kind_of(s, id)
        && marked_superseded(t, id) == marked_superseded(s, id) by {
        lemma_last_node(s, id);
        if is_node_version(y, id) {
            assert(t[t.len() - 1] == y);
            assert(last_node(t, id) == Some(t.len() - 1));
        } else {
            assert(last_node(t, id) == last_node(s, id));
        }
    }
    assert forall|id: Seq<char>| #[trigger] superseded(t, id) == superseded(s, id) by {
        assert(kind_of(t, id) == kind_of(s, id));
        lemma_superseded_stays(s, y, x, id);
    }
    assert forall|i: int| 0 <= i < s.len() && is_event(#[trigger] s[i], o) implies s[i] is Node
        && observation_kind(s[i]->Node_0.kind) by {
        lemma_observation_views(s[i]->Node_0, x);
    }
    assert(t[t.len() - 1] == y);
    assert(last_event(t, o) == Some(t.len() - 1));
}

/// Recording a plain observation again changes no verdict.
pub proof fn law_recording_again_changes_nothing(
    s: Seq<GraphRecord>,
    own: Map<Seq<char>, Seq<char>>,
    x: NodeRecord,
    y: GraphRecord,
)
    requires
        plain_observation(s, x),
        y@ == GraphRecord::Node(x)@,
    ensures
        by_handle(entries_below(s.push(y), own, s.push(y).len() as int)) == by_handle(
            entries_below(s, own, s.len() as int),
        ),
{
    let t = s.push(y);
    let o = x.id@;
    assert(y is Node);
    lemma_observation_views(y->Node_0, x);
    lemma_quiet(s, y, x);
    lemma_history(s, y, own);
    lemma_entries_stay(s, y, o, own, s.len() as int);
    let i0 = choose|i: int| 0 <= i < s.len() && (#[trigger] s[i])@ == GraphRecord::Node(x)@;
    lemma_observation_views(s[i0]->Node_0, x);
    assert(t[i0] == s[i0]);
    assert(t[t.len() - 1] == y);
    assert(citing(t, t[i0]) == citing(t, y));
    assert(!reported(t, t.len() - 1));
    assert(entries_below(t, own, t.len() as int) == entries_below(t, own, t.len() - 1));
}

/// A tombstone of a plain observation takes its verdicts out and leaves all others, in
/// their order.
pub proof fn law_tombstone_takes_the_verdicts_out(
    s: Seq<GraphRecord>,
    own: Map<Seq<char>, Seq<char>>,
    x: NodeRecord,
    tombstone: TombstoneRecord,
)
    requires
        plain_observation(s, x),
        tombstone.deleted_id@ == x.id@,
    ensures
        ({
            let t = s.push(GraphRecord::Tombstone(tombstone));
            by_handle(entries_below(t, own, t.len() as int)) == entries_of_others(
                by_handle(entries_below(s, own, s.len() as int)),
                x.id@,
            )
        }),
{
    let y = GraphRecord::Tombstone(tombstone);
    let t = s.push(y);
    let o = x.id@;
    lemma_quiet(s, y, x);
    lemma_history(s, y, own);
    lemma_entries_leave(s, y, o, own, s.len() as int);
    assert(t[t.len() - 1] == y);
    assert(!reported(t, t.len() - 1));
    assert(entries_below(t, own, t.len() as int) == entries_below(t, own, t.len() - 1));
    lemma_others_sorted(entries_below(s, own, s.len() as int), o);
}

} // verus!
