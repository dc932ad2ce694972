//! What is live in the store, and which package a file belongs to, said of the records.

use vstd::prelude::*;

use crate::crate_attribution::{
    attribution, decides, dir_at, directory_segments, fact_lt, stamped, stops_at, FactView,
    OutcomeView,
};
use crate::ir::{
    CrateAttributionReason, CrateAttributionStatus, EdgeLabel, GraphRecord, NodeKind, NodeView,
    RecordView,
};
use crate::liveness::{
    deleted, last_edge, last_event, last_node, least, linked, live, live_edge_at,
};
use crate::text::{lex_lt, lex_le};

verus! {

/// Whether the record writes or retracts the identifier.
pub open spec fn speaks_of(r: GraphRecord, id: Seq<char>) -> bool {
    ||| r is Node && r->Node_0.id@ == id
    ||| r is Edge && r->Edge_0.id@ == id
    ||| r is Tombstone && r->Tombstone_0.deleted_id@ == id
}

proof fn lemma_last(s: Seq<GraphRecord>, id: Seq<char>, i: int)
    requires
        0 <= i < s.len(),
        speaks_of(s[i], id),
        forall|k: int| i < k < s.len() ==> !speaks_of(#[trigger] s[k], id),
    ensures
        last_event(s, id) == Some(i),
    decreases s.len(),
{
    if i < s.len() - 1 {
        assert(!speaks_of(s[s.len() - 1], id));
        let t = s.drop_last();
        assert forall|k: int| i < k < t.len() implies !speaks_of(#[trigger] t[k], id) by {
            assert(t[k] == s[k]);
        }
        lemma_last(t, id, i);
    }
}

proof fn lemma_silent(s: Seq<GraphRecord>, id: Seq<char>)
    requires
        forall|k: int| 0 <= k < s.len() ==> !speaks_of(#[trigger] s[k], id),
    ensures
        last_event(s, id) is None,
        last_node(s, id) is None,
        last_edge(s, id) is None,
    decreases s.len(),
{
    if s.len() > 0 {
        assert(!speaks_of(s[s.len() - 1], id));
        let t = s.drop_last();
        assert forall|k: int| 0 <= k < t.len() implies !speaks_of(#[trigger] t[k], id) by {
            assert(t[k] == s[k]);
        }
        lemma_silent(t, id);
    }
}

/// The last record that speaks of an identifier decides whether it is retracted: it is exactly
/// where that is a tombstone. What nothing speaks of is not retracted, and not there.
pub proof fn law_the_last_word_decides(s: Seq<GraphRecord>, id: Seq<char>, i: int)
    requires
        0 <= i < s.len() ==> speaks_of(s[i], id) && forall|k: int|
            i < k < s.len() ==> !speaks_of(#[trigger] s[k], id),
        !(0 <= i < s.len()) ==> forall|k: int|
            0 <= k < s.len() ==> !speaks_of(#[trigger] s[k], id),
    ensures
        0 <= i < s.len() ==> (deleted(s, id) <==> s[i] is Tombstone),
        0 <= i < s.len() && s[i] is Tombstone ==> live(s, id) is None,
        !(0 <= i < s.len()) ==> !deleted(s, id) && live(s, id) is None,
{
    if 0 <= i < s.len() {
        lemma_last(s, id, i);
    } else {
        lemma_silent(s, id);
    }
}

proof fn lemma_last_node_at(s: Seq<GraphRecord>, id: Seq<char>, i: int)
    requires
        0 <= i < s.len(),
        s[i] is Node && s[i]->Node_0.id@ == id,
        forall|k: int| i < k < s.len() ==> !((#[trigger] s[k]) is Node && s[k]->Node_0.id@ == id),
    ensures
        last_node(s, id) == Some(i),
    decreases s.len(),
{
    if i < s.len() - 1 {
        assert(!(s[s.len() - 1] is Node && s[s.len() - 1]->Node_0.id@ == id));
        let t = s.drop_last();
        assert forall|k: int| i < k < t.len() implies !((#[trigger] t[k]) is Node
            && t[k]->Node_0.id@ == id) by {
            assert(t[k] == s[k]);
        }
        lemma_last_node_at(t, id, i);
    }
}

proof fn lemma_last_edge_at(s: Seq<GraphRecord>, id: Seq<char>, i: int)
    requires
        0 <= i < s.len(),
        s[i] is Edge && s[i]->Edge_0.id@ == id,
        forall|k: int| i < k < s.len() ==> !((#[trigger] s[k]) is Edge && s[k]->Edge_0.id@ == id),
    ensures
        last_edge(s, id) == Some(i),
    decreases s.len(),
{
    if i < s.len() - 1 {
        assert(!(s[s.len() - 1] is Edge && s[s.len() - 1]->Edge_0.id@ == id));
        let t = s.drop_last();
        assert forall|k: int| i < k < t.len() implies !((#[trigger] t[k]) is Edge
            && t[k]->Edge_0.id@ == id) by {
            assert(t[k] == s[k]);
        }
        lemma_last_edge_at(t, id, i);
    }
}

proof fn lemma_spoken(s: Seq<GraphRecord>, id: Seq<char>)
    ensures
        match last_event(s, id) {
            Some(k) => 0 <= k < s.len() && speaks_of(s[k], id) && forall|j: int|
                k < j < s.len() ==> !speaks_of(#[trigger] s[j], id),
            None => forall|j: int| 0 <= j < s.len() ==> !speaks_of(#[trigger] s[j], id),
        },
    decreases s.len(),
{
    if s.len() > 0 {
        let t = s.drop_last();
        lemma_spoken(t, id);
        assert forall|j: int| 0 <= j < t.len() implies t[j] == #[trigger] s[j] by {}
    }
}

/// A node is live in its last version where no tombstone follows that; a tombstone that something
/// follows which writes the identifier again retracts nothing.
pub proof fn law_last_version_is_live(s: Seq<GraphRecord>, id: Seq<char>, i: int)
    requires
        0 <= i < s.len(),
        s[i] is Node,
        s[i]->Node_0.id@ == id,
        forall|k: int|
            i < k < s.len() ==> !((#[trigger] s[k]) is Node && s[k]->Node_0.id@ == id)
                && !(s[k] is Tombstone && s[k]->Tombstone_0.deleted_id@ == id),
    ensures
        live(s, id) == Some(s[i]->Node_0),
        !deleted(s, id),
{
    lemma_last_node_at(s, id, i);
    lemma_spoken(s, id);
    assert(speaks_of(s[i], id));
}

/// A live node is one that the store holds under the identifier, and that no later record
/// replaces.
pub proof fn law_what_is_live_is_held(s: Seq<GraphRecord>, id: Seq<char>)
    requires
        live(s, id) is Some,
    ensures
        live(s, id)->0.id@ == id,
        exists|i: int|
            0 <= i < s.len() && #[trigger] s[i] == GraphRecord::Node(live(s, id)->0) && forall|k: int|
                i < k < s.len() ==> !((#[trigger] s[k]) is Node && s[k]->Node_0.id@ == id),
{
    crate::liveness::lemma_last_node(s, id);
    let i = last_node(s, id)->0;
    lemma_after_last_node(s, id);
    assert(s[i] == GraphRecord::Node(live(s, id)->0));
}

proof fn lemma_after_last_node(s: Seq<GraphRecord>, id: Seq<char>)
    ensures
        match last_node(s, id) {
            Some(i) => 0 <= i < s.len() && s[i] is Node && s[i]->Node_0.id@ == id && forall|k: int|
                i < k < s.len() ==> !((#[trigger] s[k]) is Node && s[k]->Node_0.id@ == id),
            None => true,
        },
    decreases s.len(),
{
    if s.len() > 0 {
        let t = s.drop_last();
        lemma_after_last_node(t, id);
        assert forall|j: int| 0 <= j < t.len() implies t[j] == #[trigger] s[j] by {}
    }
}

/// Two records are linked where the last version of some edge says so and no tombstone of the edge
/// follows, and only where some edge with that label, source and target is not retracted.
pub proof fn law_when_records_are_linked(
    s: Seq<GraphRecord>,
    label: EdgeLabel,
    source: Seq<char>,
    target: Seq<char>,
    i: int,
)
    ensures
        0 <= i < s.len() && s[i] is Edge && s[i]->Edge_0.label == label && s[i]->Edge_0.source@
            == source && s[i]->Edge_0.target@ == target && (forall|k: int|
            i < k < s.len() ==> !speaks_of(#[trigger] s[k], s[i]->Edge_0.id@)) ==> linked(
            s,
            label,
            source,
            target,
        ),
        linked(s, label, source, target) ==> exists|j: int|
            0 <= j < s.len() && (#[trigger] s[j]) is Edge && s[j]->Edge_0.label == label
                && s[j]->Edge_0.source@ == source && s[j]->Edge_0.target@ == target && !deleted(
                s,
                s[j]->Edge_0.id@,
            ),
{
    if 0 <= i < s.len() && s[i] is Edge && s[i]->Edge_0.label == label && s[i]->Edge_0.source@
        == source && s[i]->Edge_0.target@ == target && (forall|k: int|
        i < k < s.len() ==> !speaks_of(#[trigger] s[k], s[i]->Edge_0.id@)) {
        let id = s[i]->Edge_0.id@;
        assert(speaks_of(s[i], id));
        lemma_last(s, id, i);
        assert forall|k: int| i < k < s.len() implies !((#[trigger] s[k]) is Edge
            && s[k]->Edge_0.id@ == id) by {
            assert(!speaks_of(s[k], id));
        }
        lemma_last_edge_at(s, id, i);
        assert(live_edge_at(s, i));
    }
    if linked(s, label, source, target) {
        let j = choose|j: int| #[trigger]
            live_edge_at(s, j) && crate::liveness::edge_is(s[j]->Edge_0, label, source, target);
        assert(s[j] is Edge);
    }
}

/// The least of some strings is one of them, and none comes before it, where there is a least.
pub proof fn law_least_comes_first(p: spec_fn(Seq<char>) -> bool, t: Seq<char>)
    requires
        p(t),
        forall|u: Seq<char>| #[trigger] p(u) ==> lex_le(t, u),
    ensures
        least(p) == Some(t),
{
    let c = choose|c: Seq<char>| #[trigger]
        p(c) && forall|u: Seq<char>| #[trigger] p(u) ==> lex_le(c, u);
    assert(lex_le(t, c) && lex_le(c, t));
    if c != t {
        crate::text::lemma_lex_asymmetric(t, c);
    }
}

// ---------------------------------------------------------------------------
// Packages
// ---------------------------------------------------------------------------

/// The nearest manifest that is not virtual says which package a file belongs to: the one that it
/// names, and that manifest; where it names none, or cannot be parsed or read, none, for that
/// reason.
pub proof fn law_package_is_the_nearest_named(
    m: Map<Seq<char>, FactView>,
    path: Seq<char>,
    n: int,
)
    requires
        stops_at(m, path, n),
    ensures
        ({
            let f = m[dir_at(directory_segments(path), n)];
            let r = attribution(m, path);
            &&& f.outcome matches OutcomeView::Package(name) ==> r.status
                == CrateAttributionStatus::Attributed && r.package_name == Some(name)
                && r.manifest_repo_relative_path == Some(f.path) && r.unattributed_reason is None
            &&& f.outcome is UnnamedPackage ==> r.unattributed_reason == Some(
                CrateAttributionReason::UnnamedPackage,
            )
            &&& f.outcome is Unparseable ==> r.unattributed_reason == Some(
                CrateAttributionReason::UnparseableManifest,
            )
            &&& f.outcome is Unreadable ==> r.unattributed_reason == Some(
                CrateAttributionReason::ManifestUnreadable,
            )
            &&& !(f.outcome is Package) ==> r.status == CrateAttributionStatus::Unattributed
                && r.package_name is None && r.manifest_repo_relative_path is None
        }),
{
    crate::crate_attribution::law_nearest_manifest_decides(m, path, n);
}

proof fn lemma_walk_out(
    m: Map<Seq<char>, FactView>,
    segments: Seq<Seq<char>>,
    n: int,
    saw: bool,
)
    requires
        -1 <= n <= segments.len(),
        forall|k: int| 0 <= k <= n ==> !m.dom().contains(#[trigger] dir_at(segments, k))
            || m[dir_at(segments, k)].outcome is Virtual,
    ensures
        crate::crate_attribution::walk(m, segments, n, saw).status
            == CrateAttributionStatus::Unattributed,
        crate::crate_attribution::walk(m, segments, n, saw).unattributed_reason == Some(
            if saw || exists|k: int|
                0 <= k <= n && m.dom().contains(#[trigger] dir_at(segments, k)) {
                CrateAttributionReason::VirtualManifestOnly
            } else {
                CrateAttributionReason::NoEnclosingManifest
            },
        ),
    decreases n + 1,
{
    if n >= 0 {
        let d = dir_at(segments, n);
        lemma_walk_out(m, segments, n - 1, saw || m.dom().contains(d));
        assert(m.dom().contains(d) || !m.dom().contains(d));
    }
}

/// A file that only virtual manifests enclose belongs to no package for that reason, and one that
/// no manifest encloses for the other.
pub proof fn law_files_without_a_package(m: Map<Seq<char>, FactView>, path: Seq<char>)
    requires
        forall|k: int|
            0 <= k <= directory_segments(path).len() ==> !m.dom().contains(
                #[trigger] dir_at(directory_segments(path), k),
            ) || m[dir_at(directory_segments(path), k)].outcome is Virtual,
    ensures
        attribution(m, path).status == CrateAttributionStatus::Unattributed,
        attribution(m, path).unattributed_reason == Some(
            if exists|k: int|
                0 <= k <= directory_segments(path).len() && m.dom().contains(
                    #[trigger] dir_at(directory_segments(path), k),
                ) {
                CrateAttributionReason::VirtualManifestOnly
            } else {
                CrateAttributionReason::NoEnclosingManifest
            },
        ),
{
    let segments = directory_segments(path);
    lemma_walk_out(m, segments, segments.len() as int, false);
}

/// Of two manifests of one directory the one with the smaller path decides, and of two readings of
/// one manifest the one that says more: a named package before an unnamed one, that before a
/// virtual one, that before one that does not parse, and that before one that cannot be read.
pub proof fn law_which_manifest_decides(facts: Seq<FactView>, dir: Seq<char>, f: FactView, g: FactView)
    requires
        decides(facts, dir, f),
        facts.contains(g),
        crate::crate_attribution::directory_of(g.path) == Some(dir),
    ensures
        !lex_lt(g.path, f.path),
        f.path == g.path && g.outcome is Package ==> f.outcome is Package && !lex_lt(
            g.outcome->Package_0,
            f.outcome->Package_0,
        ),
        f.path == g.path && g.outcome is UnnamedPackage ==> f.outcome is Package
            || f.outcome is UnnamedPackage,
        f.path == g.path && g.outcome is Virtual ==> f.outcome is Package
            || f.outcome is UnnamedPackage || f.outcome is Virtual,
        f.path == g.path && g.outcome is Unparseable ==> !(f.outcome is Unreadable),
{
    crate::text::lemma_lex_irreflexive(f.path);
    if f != g {
        assert(fact_lt(f, g));
        if lex_lt(f.path, g.path) {
            crate::text::lemma_lex_asymmetric(f.path, g.path);
        }
    }
    if g.outcome is Package && f.outcome is Package {
        crate::text::lemma_lex_irreflexive(f.outcome->Package_0);
        if lex_lt(f.outcome->Package_0, g.outcome->Package_0) {
            crate::text::lemma_lex_asymmetric(f.outcome->Package_0, g.outcome->Package_0);
        }
    }
}

/// What lies in a file carries the package of the file, and nothing else of it changes; records of
/// other kinds, and those without a path, are left as they are.
pub proof fn law_code_carries_its_package(n: NodeView, m: Map<Seq<char>, FactView>)
    ensures
        ({
            let r = stamped(RecordView::Node(n), m);
            let code = n.kind == NodeKind::File || n.kind == NodeKind::Module || n.kind
                == NodeKind::Symbol || n.kind == NodeKind::Import || n.kind == NodeKind::Diagnostic
                || n.kind == NodeKind::PanicRiskSite || n.kind == NodeKind::DebtMarker || n.kind
                == NodeKind::UnsafeSite || n.kind == NodeKind::DependencyDeclaration;
            &&& r is Node
            &&& code && n.repo_relative_path is Some ==> r->Node_0.crate_attribution == Some(
                attribution(m, n.repo_relative_path->0),
            )
            &&& !code || n.repo_relative_path is None ==> r->Node_0 == n
            &&& NodeView { crate_attribution: n.crate_attribution, ..r->Node_0 } == n
        }),
{
}

} // verus!
