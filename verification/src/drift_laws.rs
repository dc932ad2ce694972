//! When cited code has drifted, said of the versions that the store holds.

use vstd::prelude::*;
use vstd::utf8::encode_utf8;

use crate::evidence_freshness::{
    after_anchor, anchor_commit, anchor_time, anchor_version, chosen_change, chosen_drift, cited,
    classify, drift_of, drift_trigger, drifts_from, drifts_with_edges, later_version, live_handle,
    lost_on_lineage, superseded, version_at, versions_of, FreshnessVerdict,
};
use crate::history::{commit_of, descends, in_dag, is_child, parents_of, reaches};
use crate::ir::{EvidenceLinkView, GraphRecord, NodeKind, NodeRecord};
use crate::liveness::deleted;
use crate::outside::{blake3_hex_of, rfc3339_instant_of};
use crate::text::views;

verus! {

/// Whether the `i`-th record is a version of the code `id`: a file, a symbol, a module or an
/// import with that identifier.
pub open spec fn code_version(s: Seq<GraphRecord>, i: int, id: Seq<char>) -> bool {
    &&& 0 <= i < s.len()
    &&& s[i] is Node && s[i]->Node_0.id@ == id
    &&& s[i]->Node_0.kind == NodeKind::File || s[i]->Node_0.kind == NodeKind::Symbol
        || s[i]->Node_0.kind == NodeKind::Module || s[i]->Node_0.kind == NodeKind::Import
}

/// Whether the `i`-th record was made at the commit.
pub open spec fn made_at(s: Seq<GraphRecord>, i: int, c: Seq<char>) -> bool {
    s[i] is Node && s[i]->Node_0.temporal is Some && s[i]->Node_0.temporal->0.git_commit@ == c
}

/// Whether two versions have other contents: another summary, or where both carry a signature of
/// their content another hash of summary and signature together.
pub open spec fn other_content(a: NodeRecord, b: NodeRecord) -> bool {
    if a.content_signature is Some && b.content_signature is Some {
        blake3_hex_of(encode_utf8(a.summary@) + encode_utf8(a.content_signature->0@))
            != blake3_hex_of(encode_utf8(b.summary@) + encode_utf8(b.content_signature->0@))
    } else {
        a.summary@ != b.summary@
    }
}

/// Whether the link cites the code `id` as it was at the commit.
pub open spec fn cites_at(l: EvidenceLinkView, id: Seq<char>, c: Seq<char>) -> bool {
    &&& l.target_record_id == Some(id) && id.len() > 0
    &&& c.len() > 0
    &&& l.as_of_commit == Some(c) || ((l.as_of_commit is None || l.as_of_commit->0.len() == 0)
        && l.target_git_commit == Some(c))
}

/// Whether the `i`-th record is the first version of the code that was made at the commit.
pub open spec fn first_at(s: Seq<GraphRecord>, i: int, id: Seq<char>, c: Seq<char>) -> bool {
    &&& code_version(s, i, id) && made_at(s, i, c)
    &&& forall|k: int| 0 <= k < i && #[trigger] code_version(s, k, id) ==> !made_at(s, k, c)
}

/// Whether the `j`-th record is a version of the code from a commit after `c`.
pub open spec fn made_after(s: Seq<GraphRecord>, j: int, id: Seq<char>, c: Seq<char>) -> bool {
    &&& code_version(s, j, id)
    &&& s[j]->Node_0.temporal is Some
    &&& descends(s, c, s[j]->Node_0.temporal->0.git_commit@)
}

pub proof fn lemma_listed(s: Seq<GraphRecord>, id: Seq<char>)
    ensures
        forall|k: int|
            0 <= k < versions_of(s, id).len() ==> code_version(s, #[trigger] versions_of(s, id)[k], id),
        forall|k: int, m: int|
            0 <= k < m < versions_of(s, id).len() ==> (#[trigger] versions_of(s, id)[k])
                < #[trigger] versions_of(s, id)[m],
        forall|i: int| #[trigger] code_version(s, i, id) ==> versions_of(s, id).contains(i),
    decreases s.len(),
{
    if s.len() > 0 {
        let t = s.drop_last();
        lemma_listed(t, id);
        let vs = versions_of(s, id);
        let vt = versions_of(t, id);
        assert forall|k: int| 0 <= k < vs.len() implies code_version(s, #[trigger] vs[k], id) by {
            if k < vt.len() {
                assert(vs[k] == vt[k]);
                assert(code_version(t, vt[k], id));
                assert(s[vt[k]] == t[vt[k]]);
            }
        }
        assert forall|k: int, m: int| 0 <= k < m < vs.len() implies (#[trigger] vs[k])
            < #[trigger] vs[m] by {
            assert(vs[k] == vt[k]);
            assert(code_version(t, vt[k], id));
        }
        assert forall|i: int| #[trigger] code_version(s, i, id) implies vs.contains(i) by {
            if i < t.len() {
                assert(s[i] == t[i]);
                assert(code_version(t, i, id));
                let k = choose|k: int| 0 <= k < vt.len() && vt[k] == i;
                assert(vs[k] == i);
            } else {
                assert(vs[vs.len() - 1] == i);
            }
        }
    }
}

proof fn lemma_at(s: Seq<GraphRecord>, vs: Seq<int>, c: Seq<char>, k: int)
    requires
        0 <= k < vs.len(),
        commit_of(s[vs[k]]) == Some(c),
        forall|m: int| 0 <= m < k ==> commit_of(s[#[trigger] vs[m]]) != Some(c),
    ensures
        version_at(s, vs, c) == Some(vs[k]),
    decreases vs.len(),
{
    if k > 0 {
        let rest = vs.drop_first();
        assert(commit_of(s[vs[0]]) != Some(c));
        assert(rest[k - 1] == vs[k]);
        assert forall|m: int| 0 <= m < k - 1 implies commit_of(s[#[trigger] rest[m]]) != Some(c) by {
            assert(rest[m] == vs[m + 1]);
        }
        lemma_at(s, rest, c, k - 1);
    }
}

pub proof fn lemma_first_at(s: Seq<GraphRecord>, i: int, id: Seq<char>, c: Seq<char>)
    requires
        first_at(s, i, id, c),
    ensures
        version_at(s, versions_of(s, id), c) == Some(i),
{
    lemma_listed(s, id);
    let vs = versions_of(s, id);
    assert(vs.contains(i));
    let k = choose|k: int| 0 <= k < vs.len() && vs[k] == i;
    assert forall|m: int| 0 <= m < k implies commit_of(s[#[trigger] vs[m]]) != Some(c) by {
        assert(vs[m] < vs[k]);
        assert(code_version(s, vs[m], id));
        assert(!made_at(s, vs[m], c));
    }
    lemma_at(s, vs, c, k);
}

pub proof fn lemma_chosen(
    s: Seq<GraphRecord>,
    vs: Seq<int>,
    from: int,
    anchor: Option<Seq<char>>,
    time: Seq<char>,
)
    requires
        s[from] is Node,
        forall|k: int| 0 <= k < vs.len() ==> s[#[trigger] vs[k]] is Node,
    ensures
        chosen_change(s, vs, from, anchor, time) is Some <==> exists|k: int|
            0 <= k < vs.len() && later_version(s, s[#[trigger] vs[k]], anchor, time)
                && other_content(s[from]->Node_0, s[vs[k]]->Node_0),
        chosen_change(s, vs, from, anchor, time) is Some ==> vs.contains(
            chosen_change(s, vs, from, anchor, time)->0,
        ),
    decreases vs.len(),
{
    if vs.len() > 0 {
        let rest = vs.drop_last();
        assert forall|k: int| 0 <= k < rest.len() implies s[#[trigger] rest[k]] is Node by {
            assert(rest[k] == vs[k]);
        }
        lemma_chosen(s, rest, from, anchor, time);
        let i = vs.last();
        assert(vs[vs.len() - 1] == i);
        let a = s[from]->Node_0;
        let b = s[i]->Node_0;
        lemma_hash_texts(a, b);
        if exists|k: int|
            0 <= k < rest.len() && later_version(s, s[#[trigger] rest[k]], anchor, time)
                && other_content(s[from]->Node_0, s[rest[k]]->Node_0) {
            let k = choose|k: int|
                0 <= k < rest.len() && later_version(s, s[#[trigger] rest[k]], anchor, time)
                    && other_content(s[from]->Node_0, s[rest[k]]->Node_0);
            assert(vs[k] == rest[k]);
        }
        if exists|k: int|
            0 <= k < vs.len() && later_version(s, s[#[trigger] vs[k]], anchor, time)
                && other_content(s[from]->Node_0, s[vs[k]]->Node_0) {
            let k = choose|k: int|
                0 <= k < vs.len() && later_version(s, s[#[trigger] vs[k]], anchor, time)
                    && other_content(s[from]->Node_0, s[vs[k]]->Node_0);
            if k < rest.len() {
                assert(rest[k] == vs[k]);
            }
        }
        let best = chosen_change(s, rest, from, anchor, time);
        if best is Some {
            let k = choose|k: int| 0 <= k < rest.len() && rest[k] == best->0;
            assert(vs[k] == best->0);
        }
    }
}

pub proof fn lemma_hash_texts(a: NodeRecord, b: NodeRecord)
    ensures
        crate::evidence_freshness::content_differs(a, b) == other_content(a, b),
{
    let x = crate::evidence_freshness::content_bytes(a);
    let y = crate::evidence_freshness::content_bytes(b);
    let p = "blake3:"@;
    if p + blake3_hex_of(x) == p + blake3_hex_of(y) {
        assert((p + blake3_hex_of(x)).skip(p.len() as int) =~= blake3_hex_of(x));
        assert((p + blake3_hex_of(y)).skip(p.len() as int) =~= blake3_hex_of(y));
    }
}

pub proof fn lemma_ancestor_in_dag(s: Seq<GraphRecord>, a: Seq<char>, c: Seq<char>, n: nat)
    requires
        reaches(s, a, c, n),
    ensures
        in_dag(s, a),
    decreases n,
{
    if n == 1 {
        let i = choose|i: int|
            0 <= i < s.len() && commit_of(#[trigger] s[i]) == Some(c) && parents_of(
                s[i],
            ).contains(a);
        assert(parents_of(s[i]).len() > 0);
    } else {
        let m = choose|m: Seq<char>| #[trigger]
            is_child(s, m, c) && reaches(s, a, m, (n - 1) as nat);
        lemma_ancestor_in_dag(s, a, m, (n - 1) as nat);
    }
}

pub proof fn lemma_anchored(
    s: Seq<GraphRecord>,
    own: Map<Seq<char>, Seq<char>>,
    n: NodeRecord,
    l: EvidenceLinkView,
    id: Seq<char>,
    c: Seq<char>,
    i: int,
)
    requires
        cites_at(l, id, c),
        live_handle(s, own, id),
        !lost_on_lineage(s, own, id, c),
        first_at(s, i, id, c),
    ensures
        ({
            let vs = versions_of(s, id);
            let t = s[i]->Node_0.temporal->0.valid_time@;
            &&& anchor_commit(l) == Some(c)
            &&& cited(s, own, l) == Some(id)
            &&& anchor_time(s, vs, n, l) == Some(t)
            &&& anchor_version(s, vs, Some(c), t) == Some(i)
            &&& classify(s, own, n, l).verdict == (if drift_trigger(s, id, Some(c), Some(t)) is Some
                || chosen_change(s, vs, i, Some(c), t) is Some {
                FreshnessVerdict::Drifted
            } else {
                FreshnessVerdict::Current
            })
        }),
{
    lemma_first_at(s, i, id, c);
    reveal(classify);
    let vs = versions_of(s, id);
    let t = s[i]->Node_0.temporal->0.valid_time@;
    assert(anchor_commit(l) == Some(c));
    assert(cited(s, own, l) == Some(id));
    assert(anchor_time(s, vs, n, l) == Some(t));
}

/// Where the ancestry of the anchor is recorded, a citation of code that is still there has
/// drifted if a version from a later commit has another content than the version at the anchor:
/// another summary, whether or not one of the two carries a signature, or where both do another
/// hash of the two together.
pub proof fn law_changed_code_has_drifted(
    s: Seq<GraphRecord>,
    own: Map<Seq<char>, Seq<char>>,
    n: NodeRecord,
    l: EvidenceLinkView,
    id: Seq<char>,
    c: Seq<char>,
    i: int,
    j: int,
)
    requires
        cites_at(l, id, c),
        live_handle(s, own, id),
        !lost_on_lineage(s, own, id, c),
        first_at(s, i, id, c),
        made_after(s, j, id, c),
        s[i]->Node_0.content_signature is None || s[j]->Node_0.content_signature is None
            ==> s[i]->Node_0.summary@ != s[j]->Node_0.summary@,
        s[i]->Node_0.content_signature is Some && s[j]->Node_0.content_signature is Some
            ==> blake3_hex_of(
            encode_utf8(s[i]->Node_0.summary@) + encode_utf8(
                s[i]->Node_0.content_signature->0@,
            ),
        ) != blake3_hex_of(
            encode_utf8(s[j]->Node_0.summary@) + encode_utf8(
                s[j]->Node_0.content_signature->0@,
            ),
        ),
    ensures
        classify(s, own, n, l).verdict == FreshnessVerdict::Drifted,
{
    lemma_anchored(s, own, n, l, id, c, i);
    lemma_listed(s, id);
    let vs = versions_of(s, id);
    let t = s[i]->Node_0.temporal->0.valid_time@;
    let d = s[j]->Node_0.temporal->0.git_commit@;
    let steps = choose|steps: nat| #[trigger] reaches(s, c, d, steps);
    lemma_ancestor_in_dag(s, c, d, steps);
    assert forall|k: int| 0 <= k < vs.len() implies s[#[trigger] vs[k]] is Node by {
        assert(code_version(s, vs[k], id));
    }
    lemma_chosen(s, vs, i, Some(c), t);
    assert(vs.contains(j));
    let k = choose|k: int| 0 <= k < vs.len() && vs[k] == j;
    assert(later_version(s, s[vs[k]], Some(c), t));
    assert(other_content(s[i]->Node_0, s[vs[k]]->Node_0));
}

/// Where the ancestry of the anchor is recorded and no drift record speaks against it, a citation
/// of code that is still there is current exactly where every version from a later commit has the
/// content of the version at the anchor.
pub proof fn law_unchanged_code_is_current(
    s: Seq<GraphRecord>,
    own: Map<Seq<char>, Seq<char>>,
    n: NodeRecord,
    l: EvidenceLinkView,
    id: Seq<char>,
    c: Seq<char>,
    i: int,
)
    requires
        cites_at(l, id, c),
        live_handle(s, own, id),
        !lost_on_lineage(s, own, id, c),
        in_dag(s, c),
        first_at(s, i, id, c),
        drift_trigger(s, id, Some(c), Some(s[i]->Node_0.temporal->0.valid_time@)) is None,
    ensures
        classify(s, own, n, l).verdict == FreshnessVerdict::Current <==> forall|j: int|
            #[trigger] made_after(s, j, id, c) ==> !other_content(s[i]->Node_0, s[j]->Node_0),
        classify(s, own, n, l).verdict == FreshnessVerdict::Current
            || classify(s, own, n, l).verdict == FreshnessVerdict::Drifted,
{
    lemma_anchored(s, own, n, l, id, c, i);
    lemma_listed(s, id);
    let vs = versions_of(s, id);
    let t = s[i]->Node_0.temporal->0.valid_time@;
    assert forall|k: int| 0 <= k < vs.len() implies s[#[trigger] vs[k]] is Node by {
        assert(code_version(s, vs[k], id));
    }
    lemma_chosen(s, vs, i, Some(c), t);
    if chosen_change(s, vs, i, Some(c), t) is Some {
        let k = choose|k: int|
            0 <= k < vs.len() && later_version(s, s[#[trigger] vs[k]], Some(c), t)
                && other_content(s[i]->Node_0, s[vs[k]]->Node_0);
        assert(code_version(s, vs[k], id));
        assert(made_after(s, vs[k], id, c));
    } else {
        assert forall|j: int| #[trigger] made_after(s, j, id, c) implies !other_content(
            s[i]->Node_0,
            s[j]->Node_0,
        ) by {
            assert(vs.contains(j));
            let k = choose|k: int| 0 <= k < vs.len() && vs[k] == j;
            assert(later_version(s, s[vs[k]], Some(c), t));
        }
    }
}

/// Where no ancestry of the anchor is recorded, time decides: a version that begins to hold after
/// the one at the anchor and has another content shows a drift.
pub proof fn law_changed_code_has_drifted_in_time(
    s: Seq<GraphRecord>,
    own: Map<Seq<char>, Seq<char>>,
    n: NodeRecord,
    l: EvidenceLinkView,
    id: Seq<char>,
    c: Seq<char>,
    i: int,
    j: int,
    x: (i64, u32),
    y: (i64, u32),
)
    requires
        cites_at(l, id, c),
        live_handle(s, own, id),
        !in_dag(s, c),
        first_at(s, i, id, c),
        code_version(s, j, id),
        s[j]->Node_0.temporal is Some,
        rfc3339_instant_of(s[i]->Node_0.temporal->0.valid_time@) == Some(x),
        rfc3339_instant_of(s[j]->Node_0.temporal->0.valid_time@) == Some(y),
        x.0 < y.0 || (x.0 == y.0 && x.1 < y.1),
        other_content(s[i]->Node_0, s[j]->Node_0),
    ensures
        classify(s, own, n, l).verdict == FreshnessVerdict::Drifted,
{
    lemma_anchored(s, own, n, l, id, c, i);
    lemma_listed(s, id);
    let vs = versions_of(s, id);
    let t = s[i]->Node_0.temporal->0.valid_time@;
    assert forall|k: int| 0 <= k < vs.len() implies s[#[trigger] vs[k]] is Node by {
        assert(code_version(s, vs[k], id));
    }
    lemma_chosen(s, vs, i, Some(c), t);
    assert(vs.contains(j));
    let k = choose|k: int| 0 <= k < vs.len() && vs[k] == j;
    assert(later_version(s, s[vs[k]], Some(c), t));
}

/// Where no ancestry of the anchor is recorded, what holds no later than the anchor shows no
/// drift: without a drift record the citation is current where no version of the code begins to
/// hold after the one at the anchor.
pub proof fn law_earlier_versions_show_no_drift(
    s: Seq<GraphRecord>,
    own: Map<Seq<char>, Seq<char>>,
    n: NodeRecord,
    l: EvidenceLinkView,
    id: Seq<char>,
    c: Seq<char>,
    i: int,
    x: (i64, u32),
)
    requires
        cites_at(l, id, c),
        live_handle(s, own, id),
        !in_dag(s, c),
        first_at(s, i, id, c),
        rfc3339_instant_of(s[i]->Node_0.temporal->0.valid_time@) == Some(x),
        drift_trigger(s, id, Some(c), Some(s[i]->Node_0.temporal->0.valid_time@)) is None,
        forall|j: int| #[trigger]
            code_version(s, j, id) ==> s[j]->Node_0.temporal is Some && ({
                let t = rfc3339_instant_of(s[j]->Node_0.temporal->0.valid_time@);
                let y = t->0;
                t is Some && (y.0 < x.0 || (y.0 == x.0 && y.1 <= x.1))
            }),
    ensures
        classify(s, own, n, l).verdict == FreshnessVerdict::Current,
{
    lemma_anchored(s, own, n, l, id, c, i);
    lemma_listed(s, id);
    let vs = versions_of(s, id);
    let t = s[i]->Node_0.temporal->0.valid_time@;
    assert forall|k: int| 0 <= k < vs.len() implies s[#[trigger] vs[k]] is Node by {
        assert(code_version(s, vs[k], id));
    }
    lemma_chosen(s, vs, i, Some(c), t);
    if chosen_change(s, vs, i, Some(c), t) is Some {
        let k = choose|k: int|
            0 <= k < vs.len() && later_version(s, s[#[trigger] vs[k]], Some(c), t)
                && other_content(s[i]->Node_0, s[vs[k]]->Node_0);
        assert(code_version(s, vs[k], id));
    }
}

// ---------------------------------------------------------------------------
// Drift records
// ---------------------------------------------------------------------------

/// Whether the `k`-th record is a drift record in effect that measures from the code `id`.
pub open spec fn measures_from(s: Seq<GraphRecord>, k: int, id: Seq<char>) -> bool {
    &&& 0 <= k < s.len()
    &&& s[k] is Node && s[k]->Node_0.kind == NodeKind::SemanticDrift
    &&& s[k]->Node_0.semantic_drift is Some
    &&& s[k]->Node_0.semantic_drift->0.prior_record_id@ == id
    &&& !deleted(s, s[k]->Node_0.id@) && !superseded(s, s[k]->Node_0.id@)
}

proof fn lemma_measured(s: Seq<GraphRecord>, n: int, id: Seq<char>, k: int)
    requires
        0 <= k < n <= s.len(),
        measures_from(s, k, id),
    ensures
        drifts_from(s, n, id).contains(k),
    decreases n,
{
    let all = drifts_from(s, n, id);
    if k == n - 1 {
        assert(all[all.len() - 1] == k);
    } else {
        lemma_measured(s, n - 1, id, k);
        let rest = drifts_from(s, n - 1, id);
        let m = choose|m: int| 0 <= m < rest.len() && rest[m] == k;
        assert(all[m] == k);
    }
}

pub proof fn lemma_measured_with_edges(s: Seq<GraphRecord>, n: int, id: Seq<char>, k: int)
    requires
        0 <= n <= s.len(),
        measures_from(s, k, id),
    ensures
        drifts_with_edges(s, n, id).contains(k),
    decreases n,
{
    if n == 0 {
        lemma_measured(s, s.len() as int, id, k);
    } else {
        lemma_measured_with_edges(s, n - 1, id, k);
        let rest = drifts_with_edges(s, n - 1, id);
        let all = drifts_with_edges(s, n, id);
        let m = choose|m: int| 0 <= m < rest.len() && rest[m] == k;
        assert(all[m] == k);
    }
}

proof fn lemma_drift_chosen(
    s: Seq<GraphRecord>,
    at: Seq<int>,
    anchor: Option<Seq<char>>,
    time: Option<Seq<char>>,
    m: int,
)
    requires
        0 <= m < at.len(),
        after_anchor(s, s[at[m]]->Node_0.semantic_drift->0, anchor, time),
    ensures
        chosen_drift(s, at, anchor, time) is Some,
    decreases at.len(),
{
    if m < at.len() - 1 {
        assert(at.drop_last()[m] == at[m]);
        lemma_drift_chosen(s, at.drop_last(), anchor, time, m);
    }
}

/// A drift record that measures from the cited code, from the anchor or a commit after it to a
/// commit after it, shows a drift.
pub proof fn law_measured_drift_shows(
    s: Seq<GraphRecord>,
    own: Map<Seq<char>, Seq<char>>,
    n: NodeRecord,
    l: EvidenceLinkView,
    id: Seq<char>,
    c: Seq<char>,
    i: int,
    k: int,
)
    requires
        cites_at(l, id, c),
        live_handle(s, own, id),
        !lost_on_lineage(s, own, id, c),
        first_at(s, i, id, c),
        measures_from(s, k, id),
        ({
            let d = s[k]->Node_0.semantic_drift->0;
            &&& d.before_git_commit@ == c || descends(s, c, d.before_git_commit@)
            &&& descends(s, c, d.after_git_commit@)
        }),
    ensures
        classify(s, own, n, l).verdict == FreshnessVerdict::Drifted,
        classify(s, own, n, l).triggering_handle is Some,
        classify(s, own, n, l).triggering_handle->0 is DriftRecord,
{
    lemma_anchored(s, own, n, l, id, c, i);
    let t = s[i]->Node_0.temporal->0.valid_time@;
    let d = s[k]->Node_0.semantic_drift->0;
    let steps = choose|steps: nat| #[trigger] reaches(s, c, d.after_git_commit@, steps);
    lemma_ancestor_in_dag(s, c, d.after_git_commit@, steps);
    lemma_measured_with_edges(s, s.len() as int, id, k);
    let at = drifts_with_edges(s, s.len() as int, id);
    let m = choose|m: int| 0 <= m < at.len() && at[m] == k;
    lemma_drift_chosen(s, at, Some(c), Some(t), m);
    reveal(classify);
}

proof fn lemma_nothing_chosen(
    s: Seq<GraphRecord>,
    at: Seq<int>,
    anchor: Option<Seq<char>>,
    time: Option<Seq<char>>,
)
    requires
        forall|m: int|
            0 <= m < at.len() ==> !after_anchor(
                s,
                s[#[trigger] at[m]]->Node_0.semantic_drift->0,
                anchor,
                time,
            ),
    ensures
        chosen_drift(s, at, anchor, time) is None,
    decreases at.len(),
{
    if at.len() > 0 {
        let rest = at.drop_last();
        assert forall|m: int| 0 <= m < rest.len() implies !after_anchor(
            s,
            s[#[trigger] rest[m]]->Node_0.semantic_drift->0,
            anchor,
            time,
        ) by {
            assert(rest[m] == at[m]);
        }
        lemma_nothing_chosen(s, rest, anchor, time);
        assert(at[at.len() - 1] == at.last());
    }
}

proof fn lemma_no_drift_records(s: Seq<GraphRecord>, n: int, id: Seq<char>)
    requires
        0 <= n <= s.len(),
        forall|k: int|
            0 <= k < s.len() ==> !((#[trigger] s[k]) is Node && s[k]->Node_0.kind
                == NodeKind::SemanticDrift),
    ensures
        drifts_from(s, n, id).len() == 0,
        drifts_with_edges(s, n, id).len() == 0,
        crate::evidence_freshness::drift_named(s, n, id) is None,
    decreases n,
{
    if n > 0 {
        lemma_no_drift_records(s, n - 1, id);
        assert(drift_of(s, s[n - 1]) is None);
        if s[n - 1] is Edge {
            lemma_no_drift_named(s, s.len() as int, s[n - 1]->Edge_0.source@);
        }
    } else {
        lemma_no_drift_from(s, s.len() as int, id);
    }
}

proof fn lemma_no_drift_from(s: Seq<GraphRecord>, n: int, id: Seq<char>)
    requires
        0 <= n <= s.len(),
        forall|k: int|
            0 <= k < s.len() ==> !((#[trigger] s[k]) is Node && s[k]->Node_0.kind
                == NodeKind::SemanticDrift),
    ensures
        drifts_from(s, n, id).len() == 0,
    decreases n,
{
    if n > 0 {
        lemma_no_drift_from(s, n - 1, id);
        assert(drift_of(s, s[n - 1]) is None);
    }
}

proof fn lemma_no_drift_named(s: Seq<GraphRecord>, n: int, id: Seq<char>)
    requires
        0 <= n <= s.len(),
        forall|k: int|
            0 <= k < s.len() ==> !((#[trigger] s[k]) is Node && s[k]->Node_0.kind
                == NodeKind::SemanticDrift),
    ensures
        crate::evidence_freshness::drift_named(s, n, id) is None,
    decreases n,
{
    if n > 0 {
        lemma_no_drift_named(s, n - 1, id);
        assert(drift_of(s, s[n - 1]) is None);
    }
}

/// A store without drift records has none that speaks against a citation.
pub proof fn law_without_drift_records_nothing_is_measured(
    s: Seq<GraphRecord>,
    id: Seq<char>,
    anchor: Option<Seq<char>>,
    time: Option<Seq<char>>,
)
    requires
        forall|k: int|
            0 <= k < s.len() ==> !((#[trigger] s[k]) is Node && s[k]->Node_0.kind
                == NodeKind::SemanticDrift),
    ensures
        drift_trigger(s, id, anchor, time) is None,
{
    lemma_no_drift_records(s, s.len() as int, id);
    lemma_nothing_chosen(s, drifts_with_edges(s, s.len() as int, id), anchor, time);
}

// ---------------------------------------------------------------------------
// Descent
// ---------------------------------------------------------------------------

/// A commit descends from those that it names as its parents, and from what they descend from.
pub proof fn law_children_descend_from_their_parents(
    s: Seq<GraphRecord>,
    i: int,
    k: int,
    a: Seq<char>,
)
    requires
        0 <= i < s.len(),
        s[i] is Node,
        s[i]->Node_0.temporal is Some,
        0 <= k < s[i]->Node_0.temporal->0.git_parent_commits@.len(),
    ensures
        ({
            let t = s[i]->Node_0.temporal->0;
            let p = t.git_parent_commits@[k]@;
            &&& descends(s, p, t.git_commit@)
            &&& descends(s, a, p) ==> descends(s, a, t.git_commit@)
            &&& in_dag(s, p) && in_dag(s, t.git_commit@)
        }),
{
    let t = s[i]->Node_0.temporal->0;
    let p = t.git_parent_commits@[k]@;
    assert(views(t.git_parent_commits@)[k] == p);
    assert(parents_of(s[i]).contains(p));
    assert(commit_of(s[i]) == Some(t.git_commit@));
    assert(is_child(s, p, t.git_commit@));
    assert(reaches(s, p, t.git_commit@, 1));
    if descends(s, a, p) {
        crate::history::law_descent_is_transitive(s, a, p, t.git_commit@);
    }
}

/// What descends from a commit names it as a parent, or names one that descends from it.
pub proof fn law_descendants_have_a_parent_on_the_line(
    s: Seq<GraphRecord>,
    a: Seq<char>,
    c: Seq<char>,
)
    requires
        descends(s, a, c),
    ensures
        exists|i: int, k: int|
            0 <= i < s.len() && (#[trigger] s[i]) is Node && s[i]->Node_0.temporal is Some
                && s[i]->Node_0.temporal->0.git_commit@ == c && 0 <= k
                < s[i]->Node_0.temporal->0.git_parent_commits@.len() && ({
                let p = (#[trigger] s[i]->Node_0.temporal->0.git_parent_commits@[k])@;
                p == a || descends(s, a, p)
            }),
{
    let n = choose|n: nat| #[trigger] reaches(s, a, c, n);
    let m = if n == 1 {
        a
    } else {
        choose|m: Seq<char>| #[trigger] is_child(s, m, c) && reaches(s, a, m, (n - 1) as nat)
    };
    assert(is_child(s, m, c));
    assert(m == a || descends(s, a, m));
    let i = choose|i: int|
        0 <= i < s.len() && commit_of(#[trigger] s[i]) == Some(c) && parents_of(s[i]).contains(m);
    let ps = s[i]->Node_0.temporal->0.git_parent_commits@;
    let k = choose|k: int| 0 <= k < parents_of(s[i]).len() && parents_of(s[i])[k] == m;
    assert(views(ps)[k] == ps[k]@);
    assert(s[i] is Node && ps[k]@ == m);
}

} // verus!
