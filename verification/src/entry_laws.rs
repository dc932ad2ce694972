//! Which citations a report on freshness judges, and how it lists and counts them.

use vstd::prelude::*;

use crate::citation_laws::{
    law_what_is_replaced, law_what_is_retracted, lemma_newest, newest_node, replaced, retracted,
};
use crate::collections::{lemma_same_members, lemma_sorted_by};
use crate::evidence_freshness::{
    by_handle, citing, classifiable, classify, count_verdict, edge_cites_code, edge_entries,
    edge_kept, edge_links, entries_below, entry_before, inline_entries, inline_links, kind_of,
    lemma_entry_order, observation_entries, reported, stale_entries, FreshnessVerdict,
    FreshnessVerdictEntry, VerdictEntryView,
};
use crate::ir::{EdgeLabel, EdgeRecord, EvidenceLinkView, GraphRecord, NodeKind};
use crate::text::lex_lt;

verus! {

/// Whether the kind is one of code: a file, a symbol, a module or an import.
pub open spec fn of_code(k: NodeKind) -> bool {
    k == NodeKind::File || k == NodeKind::Symbol || k == NodeKind::Module || k == NodeKind::Import
}

/// Whether the `i`-th record is an observation or a decision in effect.
pub open spec fn in_effect(s: Seq<GraphRecord>, i: int) -> bool {
    &&& 0 <= i < s.len()
    &&& s[i] is Node
    &&& s[i]->Node_0.kind == NodeKind::Observation || s[i]->Node_0.kind == NodeKind::Decision
    &&& !retracted(s, s[i]->Node_0.id@)
    &&& !replaced(s, s[i]->Node_0.id@)
}

/// Whether no earlier record is an observation or a decision under the identifier of the `i`-th.
pub open spec fn first_told(s: Seq<GraphRecord>, i: int) -> bool {
    forall|k: int|
        0 <= k < i && (#[trigger] s[k]) is Node && s[k]->Node_0.id@ == s[i]->Node_0.id@
            ==> s[k]->Node_0.kind != NodeKind::Observation && s[k]->Node_0.kind
            != NodeKind::Decision
}

/// Whether the link cites code: it points into the graph of code, explains no change and names
/// no commit, and what it names is code as far as the store knows it.
pub open spec fn cites_code(s: Seq<GraphRecord>, l: EvidenceLinkView) -> bool {
    &&& l.target_domain == "codegraph"@
    &&& l.relation != "EXPLAINS_CHANGE"@
    &&& l.relation != "CHANGED_IN"@
    &&& l.target_record_id is Some && l.target_record_id->0.len() > 0 ==> forall|k: int| #[trigger]
        newest_node(s, l.target_record_id->0, k) ==> of_code(s[k]->Node_0.kind)
}

proof fn lemma_cites_code(s: Seq<GraphRecord>, l: EvidenceLinkView)
    ensures
        classifiable(s, l) <==> cites_code(s, l),
{
    if l.target_record_id is Some && l.target_record_id->0.len() > 0 {
        lemma_newest(s, l.target_record_id->0);
    }
}

proof fn lemma_inline(
    s: Seq<GraphRecord>,
    own: Map<Seq<char>, Seq<char>>,
    obs: crate::ir::NodeRecord,
    links: Seq<EvidenceLinkView>,
    n: int,
    k: int,
)
    requires
        0 <= k < n <= links.len(),
        classifiable(s, links[k]),
    ensures
        inline_entries(s, own, obs, links, n).contains(classify(s, own, obs, links[k])),
    decreases n,
{
    let all = inline_entries(s, own, obs, links, n);
    let e = classify(s, own, obs, links[k]);
    if k == n - 1 {
        assert(all[all.len() - 1] == e);
    } else {
        lemma_inline(s, own, obs, links, n - 1, k);
        let before = inline_entries(s, own, obs, links, n - 1);
        let m = choose|m: int| 0 <= m < before.len() && before[m] == e;
        assert(all[m] == e);
    }
}

proof fn lemma_edges(
    s: Seq<GraphRecord>,
    own: Map<Seq<char>, Seq<char>>,
    obs: crate::ir::NodeRecord,
    inline: Seq<EvidenceLinkView>,
    edges: Seq<EvidenceLinkView>,
    n: int,
    k: int,
)
    requires
        0 <= k < n <= edges.len(),
        edge_kept(s, own, inline, edges, k),
    ensures
        edge_entries(s, own, obs, inline, edges, n).contains(classify(s, own, obs, edges[k])),
    decreases n,
{
    let all = edge_entries(s, own, obs, inline, edges, n);
    let e = classify(s, own, obs, edges[k]);
    if k == n - 1 {
        assert(all[all.len() - 1] == e);
    } else {
        lemma_edges(s, own, obs, inline, edges, n - 1, k);
        let before = edge_entries(s, own, obs, inline, edges, n - 1);
        let m = choose|m: int| 0 <= m < before.len() && before[m] == e;
        assert(all[m] == e);
    }
}

proof fn lemma_below(
    s: Seq<GraphRecord>,
    own: Map<Seq<char>, Seq<char>>,
    n: int,
    i: int,
    e: VerdictEntryView,
)
    requires
        0 <= i < n <= s.len(),
        reported(s, i),
        observation_entries(s, own, s[i]->Node_0).contains(e),
    ensures
        entries_below(s, own, n).contains(e),
    decreases n,
{
    let all = entries_below(s, own, n);
    let before = entries_below(s, own, n - 1);
    if i == n - 1 {
        let these = observation_entries(s, own, s[i]->Node_0);
        let m = choose|m: int| 0 <= m < these.len() && these[m] == e;
        assert(all[before.len() + m] == e);
    } else {
        lemma_below(s, own, n - 1, i, e);
        let m = choose|m: int| 0 <= m < before.len() && before[m] == e;
        assert(all[m] == e);
    }
}

proof fn lemma_reported(s: Seq<GraphRecord>, i: int)
    requires
        in_effect(s, i),
        first_told(s, i),
        citing(s, s[i]),
    ensures
        reported(s, i),
{
    law_what_is_retracted(s, s[i]->Node_0.id@);
    law_what_is_replaced(s, s[i]->Node_0.id@);
}

proof fn lemma_listed_entries(v: Seq<VerdictEntryView>)
    ensures
        forall|e: VerdictEntryView|
            #![trigger by_handle(v).contains(e)]
            #![trigger v.contains(e)]
            by_handle(v).contains(e) <==> v.contains(e),
{
    lemma_entry_order();
    let lt = |a: VerdictEntryView, b: VerdictEntryView| entry_before(a, b);
    lemma_sorted_by(v, lt);
    lemma_same_members(by_handle(v), v);
}

/// The report judges every link to code that an observation in effect carries.
pub proof fn law_every_link_to_code_is_judged(
    s: Seq<GraphRecord>,
    own: Map<Seq<char>, Seq<char>>,
    i: int,
    k: int,
)
    requires
        in_effect(s, i),
        first_told(s, i),
        s[i]->Node_0.evidence_links is Some,
        0 <= k < s[i]->Node_0.evidence_links->0@.len(),
        cites_code(s, s[i]->Node_0.evidence_links->0@[k]@),
    ensures
        by_handle(entries_below(s, own, s.len() as int)).contains(
            classify(s, own, s[i]->Node_0, s[i]->Node_0.evidence_links->0@[k]@),
        ),
{
    let n = s[i]->Node_0;
    let links = inline_links(n);
    let l = n.evidence_links->0@[k]@;
    assert(links[k] == l);
    lemma_cites_code(s, l);
    lemma_inline(s, own, n, links, links.len() as int, k);
    lemma_reported(s, i);
    let e = classify(s, own, n, l);
    let a = inline_entries(s, own, n, links, links.len() as int);
    let m = choose|m: int| 0 <= m < a.len() && a[m] == e;
    assert(observation_entries(s, own, n)[m] == e);
    lemma_below(s, own, s.len() as int, i, e);
    lemma_listed_entries(entries_below(s, own, s.len() as int));
}

/// Whether the label is one by which an observation cites its evidence.
pub open spec fn evidence_label(x: EdgeLabel) -> bool {
    ||| x == EdgeLabel::Observes
    ||| x == EdgeLabel::MentionsSymbol
    ||| x == EdgeLabel::TouchedFile
    ||| x == EdgeLabel::FailedOn
    ||| x == EdgeLabel::ValidatedBy
    ||| x == EdgeLabel::HasEvidence
    ||| x == EdgeLabel::Supersedes
    ||| x == EdgeLabel::Contradicts
    ||| x == EdgeLabel::ReferencesTask
    ||| x == EdgeLabel::RelatesTo
    ||| x == EdgeLabel::ProducedPatch
    ||| x == EdgeLabel::ProducedEvidence
}

/// Whether the link says what the edge does.
pub open spec fn says_as_edge(l: EvidenceLinkView, e: EdgeRecord) -> bool {
    &&& l.target_record_id == Some(e.target@)
    &&& l.target_domain == "codegraph"@
    &&& l.relation == crate::ir::edge_label_name(e.label)
    &&& e.confidence is Some ==> l.confidence == e.confidence->0@
    &&& e.temporal is Some && e.temporal->0.git_commit@.len() > 0 ==> l.as_of_commit == Some(
        e.temporal->0.git_commit@,
    )
    &&& e.temporal is None ==> l.as_of_commit is None
    &&& l.target_repo_relative_path is None && l.target_span is None && l.target_git_commit is None
}

proof fn lemma_only_edge(s: Seq<GraphRecord>, n: int, id: Seq<char>, j: int)
    requires
        0 <= n <= s.len(),
        0 <= j < s.len(),
        s[j] is Edge && s[j]->Edge_0.source@ == id,
        edge_cites_code(s, s[j]->Edge_0),
        forall|k: int|
            0 <= k < s.len() && k != j && (#[trigger] s[k]) is Edge ==> s[k]->Edge_0.source@ != id,
    ensures
        edge_links(s, n, id).len() == (if j < n {
            1nat
        } else {
            0nat
        }),
        j < n ==> edge_links(s, n, id)[0] == crate::evidence_freshness::edge_link(s[j]->Edge_0),
    decreases n,
{
    if n > 0 {
        lemma_only_edge(s, n - 1, id, j);
        assert(s[n - 1] is Edge && n - 1 != j ==> s[n - 1]->Edge_0.source@ != id);
    }
}

/// The report judges the edge by which an observation in effect, which carries no links itself,
/// cites code: as it would a link that says the same. Where the store does not know the target, it
/// is code that a symbol is mentioned or a file touched in.
pub proof fn law_edge_to_code_is_judged(
    s: Seq<GraphRecord>,
    own: Map<Seq<char>, Seq<char>>,
    i: int,
    j: int,
    t: int,
)
    requires
        in_effect(s, i),
        first_told(s, i),
        s[i]->Node_0.evidence_links is None,
        0 <= j < s.len(),
        s[j] is Edge,
        s[j]->Edge_0.source@ == s[i]->Node_0.id@,
        evidence_label(s[j]->Edge_0.label),
        !retracted(s, s[j]->Edge_0.id@),
        !replaced(s, s[j]->Edge_0.id@),
        (newest_node(s, s[j]->Edge_0.target@, t) && of_code(s[t]->Node_0.kind)) || ((forall|k: int|
            !#[trigger] newest_node(s, s[j]->Edge_0.target@, k)) && (s[j]->Edge_0.label
            == EdgeLabel::MentionsSymbol || s[j]->Edge_0.label == EdgeLabel::TouchedFile)),
        forall|k: int|
            0 <= k < s.len() && k != j && (#[trigger] s[k]) is Edge ==> s[k]->Edge_0.source@
                != s[i]->Node_0.id@,
    ensures
        exists|l: EvidenceLinkView| #[trigger]
            says_as_edge(l, s[j]->Edge_0) && by_handle(
                entries_below(s, own, s.len() as int),
            ).contains(classify(s, own, s[i]->Node_0, l)),
{
    let n = s[i]->Node_0;
    let e = s[j]->Edge_0;
    law_what_is_retracted(s, e.id@);
    law_what_is_replaced(s, e.id@);
    lemma_newest(s, e.target@);
    if newest_node(s, e.target@, t) {
        assert(kind_of(s, e.target@) == Some(s[t]->Node_0.kind));
    } else {
        assert(kind_of(s, e.target@) is None);
    }
    assert(edge_cites_code(s, e));
    lemma_only_edge(s, s.len() as int, n.id@, j);
    let edges = edge_links(s, s.len() as int, n.id@);
    let inline = inline_links(n);
    let l = crate::evidence_freshness::edge_link(e);
    assert(edges[0] == l);
    assert(says_as_edge(l, e));
    reveal_strlit("EXPLAINS_CHANGE");
    reveal_strlit("CHANGED_IN");
    reveal_strlit("OBSERVES");
    reveal_strlit("MENTIONS_SYMBOL");
    reveal_strlit("TOUCHED_FILE");
    reveal_strlit("FAILED_ON");
    reveal_strlit("VALIDATED_BY");
    reveal_strlit("HAS_EVIDENCE");
    reveal_strlit("SUPERSEDES");
    reveal_strlit("CONTRADICTS");
    reveal_strlit("REFERENCES_TASK");
    reveal_strlit("RELATES_TO");
    reveal_strlit("PRODUCED_PATCH");
    reveal_strlit("PRODUCED_EVIDENCE");
    let name = l.relation;
    assert(name.len() != 15 || name[0] != 'E');
    assert(name.len() != 10 || name[1] != 'H');
    assert("EXPLAINS_CHANGE"@.len() == 15 && "EXPLAINS_CHANGE"@[0] == 'E');
    assert("CHANGED_IN"@.len() == 10 && "CHANGED_IN"@[1] == 'H');
    assert(classifiable(s, l));
    assert(inline.len() == 0);
    assert(edge_kept(s, own, inline, edges, 0));
    lemma_edges(s, own, n, inline, edges, edges.len() as int, 0);
    lemma_reported(s, i);
    let x = classify(s, own, n, l);
    let a = inline_entries(s, own, n, inline, inline.len() as int);
    let b = edge_entries(s, own, n, inline, edges, edges.len() as int);
    let m = choose|m: int| 0 <= m < b.len() && b[m] == x;
    assert(observation_entries(s, own, n)[a.len() + m] == x);
    lemma_below(s, own, s.len() as int, i, x);
    lemma_listed_entries(entries_below(s, own, s.len() as int));
}

/// Whether the entry is a verdict on a citation of code that an observation in effect makes.
pub open spec fn judges(
    s: Seq<GraphRecord>,
    own: Map<Seq<char>, Seq<char>>,
    e: VerdictEntryView,
    i: int,
    l: EvidenceLinkView,
) -> bool {
    &&& in_effect(s, i)
    &&& cites_code(s, l)
    &&& e == classify(s, own, s[i]->Node_0, l)
    &&& (exists|k: int|
        #![trigger s[i]->Node_0.evidence_links->0@[k]]
        s[i]->Node_0.evidence_links is Some && 0 <= k < s[i]->Node_0.evidence_links->0@.len()
            && s[i]->Node_0.evidence_links->0@[k]@ == l) || (exists|k: int|
        0 <= k < s.len() && (#[trigger] s[k]) is Edge && s[k]->Edge_0.source@ == s[i]->Node_0.id@
            && !retracted(s, s[k]->Edge_0.id@) && !replaced(s, s[k]->Edge_0.id@) && says_as_edge(
            l,
            s[k]->Edge_0,
        ))
}

proof fn lemma_inline_only(
    s: Seq<GraphRecord>,
    own: Map<Seq<char>, Seq<char>>,
    obs: crate::ir::NodeRecord,
    links: Seq<EvidenceLinkView>,
    n: int,
    m: int,
) -> (k: int)
    requires
        0 <= n <= links.len(),
        0 <= m < inline_entries(s, own, obs, links, n).len(),
    ensures
        0 <= k < n,
        classifiable(s, links[k]),
        inline_entries(s, own, obs, links, n)[m] == classify(s, own, obs, links[k]),
    decreases n,
{
    let before = inline_entries(s, own, obs, links, n - 1);
    if m < before.len() {
        lemma_inline_only(s, own, obs, links, n - 1, m)
    } else {
        n - 1
    }
}

proof fn lemma_edges_only(
    s: Seq<GraphRecord>,
    own: Map<Seq<char>, Seq<char>>,
    obs: crate::ir::NodeRecord,
    inline: Seq<EvidenceLinkView>,
    edges: Seq<EvidenceLinkView>,
    n: int,
    m: int,
) -> (k: int)
    requires
        0 <= n <= edges.len(),
        0 <= m < edge_entries(s, own, obs, inline, edges, n).len(),
    ensures
        0 <= k < n,
        classifiable(s, edges[k]),
        edge_entries(s, own, obs, inline, edges, n)[m] == classify(s, own, obs, edges[k]),
    decreases n,
{
    let before = edge_entries(s, own, obs, inline, edges, n - 1);
    if m < before.len() {
        lemma_edges_only(s, own, obs, inline, edges, n - 1, m)
    } else {
        n - 1
    }
}

proof fn lemma_edge_of(s: Seq<GraphRecord>, n: int, id: Seq<char>, m: int) -> (k: int)
    requires
        0 <= n <= s.len(),
        0 <= m < edge_links(s, n, id).len(),
    ensures
        0 <= k < n,
        s[k] is Edge && s[k]->Edge_0.source@ == id && edge_cites_code(s, s[k]->Edge_0),
        edge_links(s, n, id)[m] == crate::evidence_freshness::edge_link(s[k]->Edge_0),
    decreases n,
{
    let before = edge_links(s, n - 1, id);
    if m < before.len() {
        lemma_edge_of(s, n - 1, id, m)
    } else {
        n - 1
    }
}

proof fn lemma_below_only(
    s: Seq<GraphRecord>,
    own: Map<Seq<char>, Seq<char>>,
    n: int,
    m: int,
) -> (i: int)
    requires
        0 <= n <= s.len(),
        0 <= m < entries_below(s, own, n).len(),
    ensures
        0 <= i < n,
        reported(s, i),
        observation_entries(s, own, s[i]->Node_0).contains(entries_below(s, own, n)[m]),
    decreases n,
{
    let before = entries_below(s, own, n - 1);
    if m < before.len() {
        lemma_below_only(s, own, n - 1, m)
    } else {
        let these = observation_entries(s, own, s[n - 1]->Node_0);
        assert(these[m - before.len()] == entries_below(s, own, n)[m]);
        n - 1
    }
}

/// The report judges nothing else: every entry is on a citation of code by an observation in
/// effect, made by a link of it or by an edge from it.
pub proof fn law_only_citations_of_code_are_judged(
    s: Seq<GraphRecord>,
    own: Map<Seq<char>, Seq<char>>,
    e: VerdictEntryView,
)
    requires
        by_handle(entries_below(s, own, s.len() as int)).contains(e),
    ensures
        exists|i: int, l: EvidenceLinkView| #[trigger] judges(s, own, e, i, l),
{
    let v = entries_below(s, own, s.len() as int);
    lemma_listed_entries(v);
    let m = choose|m: int| 0 <= m < v.len() && v[m] == e;
    assert(v.contains(e));
    let i = lemma_below_only(s, own, s.len() as int, m);
    let n = s[i]->Node_0;
    law_what_is_retracted(s, n.id@);
    law_what_is_replaced(s, n.id@);
    let inline = inline_links(n);
    let edges = edge_links(s, s.len() as int, n.id@);
    let a = inline_entries(s, own, n, inline, inline.len() as int);
    let b = edge_entries(s, own, n, inline, edges, edges.len() as int);
    let these = observation_entries(s, own, n);
    let at = choose|at: int| 0 <= at < these.len() && these[at] == e;
    if at < a.len() {
        let k = lemma_inline_only(s, own, n, inline, inline.len() as int, at);
        lemma_cites_code(s, inline[k]);
        assert(n.evidence_links->0@[k]@ == inline[k]);
        assert(judges(s, own, e, i, inline[k]));
    } else {
        let k = lemma_edges_only(s, own, n, inline, edges, edges.len() as int, at - a.len());
        lemma_cites_code(s, edges[k]);
        let j = lemma_edge_of(s, s.len() as int, n.id@, k);
        law_what_is_retracted(s, s[j]->Edge_0.id@);
        law_what_is_replaced(s, s[j]->Edge_0.id@);
        assert(says_as_edge(edges[k], s[j]->Edge_0));
        assert(judges(s, own, e, i, edges[k]));
    }
}

/// The text, empty where there is none.
pub open spec fn text(t: Option<Seq<char>>) -> Seq<char> {
    if t is Some {
        t->0
    } else {
        Seq::empty()
    }
}

/// Whether the second of two texts comes before the first.
pub open spec fn out_of_order(a: Seq<char>, b: Seq<char>) -> bool {
    lex_lt(b, a)
}

/// The entries are in the order of the observation, then of the cited record, then of the path,
/// then of the relation and then of the anchor.
pub proof fn law_entries_are_in_order(
    s: Seq<GraphRecord>,
    own: Map<Seq<char>, Seq<char>>,
    i: int,
    j: int,
)
    requires
        0 <= i < j < by_handle(entries_below(s, own, s.len() as int)).len(),
    ensures
        ({
            let a = by_handle(entries_below(s, own, s.len() as int))[i];
            let b = by_handle(entries_below(s, own, s.len() as int))[j];
            let x = a.cited_handle;
            let y = b.cited_handle;
            &&& !out_of_order(a.observation_id, b.observation_id)
            &&& a.observation_id == b.observation_id ==> {
                &&& !out_of_order(text(x.target_record_id), text(y.target_record_id))
                &&& text(x.target_record_id) == text(y.target_record_id) ==> {
                    &&& !out_of_order(text(x.repo_relative_path), text(y.repo_relative_path))
                    &&& text(x.repo_relative_path) == text(y.repo_relative_path) ==> {
                        &&& !out_of_order(x.relation, y.relation)
                        &&& x.relation == y.relation ==> !out_of_order(
                            text(x.anchor_commit),
                            text(y.anchor_commit),
                        )
                    }
                }
            }
        }),
{
    lemma_entry_order();
    let v = entries_below(s, own, s.len() as int);
    let lt = |a: VerdictEntryView, b: VerdictEntryView| entry_before(a, b);
    lemma_sorted_by(v, lt);
    let all = by_handle(v);
    assert(!lt(all[j], all[i]));
}

/// Where only what is stale is asked for, what is kept is every entry that drifted or does not
/// resolve, and no other.
pub proof fn law_what_is_stale_is_kept(v: Seq<FreshnessVerdictEntry>, e: FreshnessVerdictEntry)
    ensures
        stale_entries(v).contains(e) <==> v.contains(e) && (e.verdict == FreshnessVerdict::Drifted
            || e.verdict == FreshnessVerdict::Unresolved),
    decreases v.len(),
{
    if v.len() > 0 {
        let rest = v.drop_last();
        law_what_is_stale_is_kept(rest, e);
        let all = stale_entries(v);
        let before = stale_entries(rest);
        assert(v[v.len() - 1] == v.last());
        if rest.contains(e) {
            let k = choose|k: int| 0 <= k < rest.len() && rest[k] == e;
            assert(v[k] == e);
        }
        if v.contains(e) {
            let k = choose|k: int| 0 <= k < v.len() && v[k] == e;
            if k < rest.len() {
                assert(rest[k] == e);
            }
        }
        if before.contains(e) {
            let k = choose|k: int| 0 <= k < before.len() && before[k] == e;
            assert(all[k] == e);
        }
        if all.contains(e) {
            let k = choose|k: int| 0 <= k < all.len() && all[k] == e;
            if k < before.len() {
                assert(before[k] == e);
            }
        }
        if v.last().verdict == FreshnessVerdict::Drifted || v.last().verdict
            == FreshnessVerdict::Unresolved {
            assert(all[all.len() - 1] == v.last());
        }
    }
}

/// Entries are counted under the verdict that they have: one more of that verdict makes one more
/// in its count and changes no other.
pub proof fn law_entries_are_counted_by_verdict(
    v: Seq<FreshnessVerdictEntry>,
    e: FreshnessVerdictEntry,
    x: FreshnessVerdict,
)
    ensures
        count_verdict(Seq::empty(), x) == 0,
        e.verdict == x ==> count_verdict(v.push(e), x) == count_verdict(v, x) + 1,
        e.verdict != x ==> count_verdict(v.push(e), x) == count_verdict(v, x),
{
    assert(v.push(e).drop_last() =~= v);
}

} // verus!
