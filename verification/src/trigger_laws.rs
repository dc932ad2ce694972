//! What a verdict on a citation rests on: the version cited, and what first speaks against it.

use vstd::prelude::*;
use vstd::utf8::encode_utf8;

use crate::citation_laws::{names, sooner, unanchored};
use crate::drift_laws::{
    cites_at, code_version, first_at, lemma_ancestor_in_dag, lemma_anchored, lemma_hash_texts,
    lemma_listed, lemma_measured_with_edges, made_after, measures_from, other_content,
};
use crate::evidence_freshness::{
    after_anchor, anchor_time, anchor_version, chosen_change, chosen_drift, cited, classify,
    drift_trigger, drifts_with_edges, later_version, live_handle, lost_on_lineage, version_before,
    versions_of, FreshnessVerdict, TriggerView,
};
use crate::history::{descends, in_dag, reaches, valid_of};
use crate::ir::{EvidenceLinkView, GraphRecord, NodeRecord};
use crate::outside::{blake3_hex_of, rfc3339_instant_of};
use crate::text::opt_view;

verus! {

/// The text of the time from which the `i`-th record holds: that of its commit, else its own.
pub open spec fn time_text(s: Seq<GraphRecord>, i: int) -> Seq<char> {
    if s[i]->Node_0.temporal is Some {
        s[i]->Node_0.temporal->0.valid_time@
    } else {
        s[i]->Node_0.valid_time->0@
    }
}

/// Whether the `i`-th record has a time that can be read.
pub open spec fn timed(s: Seq<GraphRecord>, i: int) -> bool {
    &&& s[i]->Node_0.temporal is Some || (s[i]->Node_0.valid_time is Some
        && s[i]->Node_0.valid_time->0@.len() > 0)
    &&& rfc3339_instant_of(time_text(s, i)) is Some
}

/// The instant from which the `i`-th record holds.
pub open spec fn instant(s: Seq<GraphRecord>, i: int) -> (i64, u32) {
    rfc3339_instant_of(time_text(s, i))->0
}

proof fn lemma_timed(s: Seq<GraphRecord>, i: int)
    requires
        s[i] is Node,
        timed(s, i),
    ensures
        valid_of(s[i]) == Some(time_text(s, i)),
{
}

// ---------------------------------------------------------------------------
// The version cited
// ---------------------------------------------------------------------------

proof fn lemma_before(s: Seq<GraphRecord>, vs: Seq<int>, t: Seq<char>, x: (i64, u32))
    requires
        rfc3339_instant_of(t) == Some(x),
        forall|m: int| 0 <= m < vs.len() ==> s[#[trigger] vs[m]] is Node && timed(s, vs[m]),
    ensures
        version_before(s, vs, t) is Some ==> vs.contains(version_before(s, vs, t)->0) && !sooner(
            x,
            instant(s, version_before(s, vs, t)->0),
        ),
    decreases vs.len(),
{
    if vs.len() > 0 {
        let rest = vs.drop_last();
        assert forall|m: int| 0 <= m < rest.len() implies s[#[trigger] rest[m]] is Node && timed(
            s,
            rest[m],
        ) by {
            assert(rest[m] == vs[m]);
        }
        lemma_before(s, rest, t, x);
        let i = vs.last();
        assert(vs[vs.len() - 1] == i);
        lemma_timed(s, i);
        let best = version_before(s, rest, t);
        if best is Some {
            let k = choose|k: int| 0 <= k < rest.len() && rest[k] == best->0;
            assert(vs[k] == best->0);
        }
    }
}

proof fn lemma_version_before(
    s: Seq<GraphRecord>,
    vs: Seq<int>,
    t: Seq<char>,
    x: (i64, u32),
    k: int,
)
    requires
        rfc3339_instant_of(t) == Some(x),
        forall|m: int| 0 <= m < vs.len() ==> s[#[trigger] vs[m]] is Node && timed(s, vs[m]),
        0 <= k < vs.len(),
        !sooner(x, instant(s, vs[k])),
        forall|m: int|
            0 <= m < vs.len() && m != k ==> sooner(x, instant(s, #[trigger] vs[m])) || sooner(
                instant(s, vs[m]),
                instant(s, vs[k]),
            ) || (instant(s, vs[m]) == instant(s, vs[k]) && m < k),
    ensures
        version_before(s, vs, t) == Some(vs[k]),
    decreases vs.len(),
{
    let rest = vs.drop_last();
    assert forall|m: int| 0 <= m < rest.len() implies s[#[trigger] rest[m]] is Node && timed(
        s,
        rest[m],
    ) by {
        assert(rest[m] == vs[m]);
    }
    let i = vs.last();
    assert(vs[vs.len() - 1] == i);
    lemma_timed(s, i);
    lemma_before(s, rest, t, x);
    let best = version_before(s, rest, t);
    if k == vs.len() - 1 {
        if best is Some {
            let m = choose|m: int| 0 <= m < rest.len() && rest[m] == best->0;
            assert(vs[m] == best->0);
            lemma_timed(s, vs[m]);
        }
    } else {
        assert(rest[k] == vs[k]);
        assert forall|m: int| 0 <= m < rest.len() && m != k implies sooner(
            x,
            instant(s, #[trigger] rest[m]),
        ) || sooner(instant(s, rest[m]), instant(s, rest[k])) || (instant(s, rest[m]) == instant(
            s,
            rest[k],
        ) && m < k) by {
            assert(rest[m] == vs[m]);
        }
        lemma_version_before(s, rest, t, x, k);
        lemma_timed(s, vs[k]);
        assert(sooner(x, instant(s, vs[vs.len() - 1])) || sooner(
            instant(s, vs[vs.len() - 1]),
            instant(s, vs[k]),
        ));
    }
}

/// Whether the `i`-th record is the version of the code that held at the instant: the last of those
/// that hold from no later.
pub open spec fn held_at(s: Seq<GraphRecord>, i: int, id: Seq<char>, x: (i64, u32)) -> bool {
    &&& code_version(s, i, id) && !sooner(x, instant(s, i))
    &&& forall|k: int| #[trigger]
        code_version(s, k, id) && k != i ==> sooner(x, instant(s, k)) || sooner(
            instant(s, k),
            instant(s, i),
        ) || (instant(s, k) == instant(s, i) && k < i)
}

/// A citation without a commit is held against the version of the code that held when it was made:
/// without a drift record it has drifted exactly where a version that holds from later has another
/// content.
pub proof fn law_citations_are_held_against_their_time(
    s: Seq<GraphRecord>,
    own: Map<Seq<char>, Seq<char>>,
    n: NodeRecord,
    l: EvidenceLinkView,
    id: Seq<char>,
    i: int,
    x: (i64, u32),
)
    requires
        names(l, id),
        unanchored(l),
        live_handle(s, own, id),
        n.valid_time is Some && n.valid_time->0@.len() > 0,
        rfc3339_instant_of(n.valid_time->0@) == Some(x),
        forall|k: int| #[trigger] code_version(s, k, id) ==> timed(s, k),
        held_at(s, i, id, x),
        drift_trigger(s, id, None, Some(n.valid_time->0@)) is None,
    ensures
        classify(s, own, n, l).verdict == FreshnessVerdict::Drifted <==> exists|j: int| #[trigger]
            code_version(s, j, id) && sooner(x, instant(s, j)) && other_content(
                s[i]->Node_0,
                s[j]->Node_0,
            ),
        classify(s, own, n, l).verdict == FreshnessVerdict::Drifted || classify(
            s,
            own,
            n,
            l,
        ).verdict == FreshnessVerdict::Current,
{
    let t = n.valid_time->0@;
    let vs = versions_of(s, id);
    lemma_listed(s, id);
    assert forall|m: int| 0 <= m < vs.len() implies s[#[trigger] vs[m]] is Node && timed(s, vs[m]) by {
        assert(code_version(s, vs[m], id));
    }
    assert(vs.contains(i));
    let k = choose|k: int| 0 <= k < vs.len() && vs[k] == i;
    assert forall|m: int| 0 <= m < vs.len() && m != k implies sooner(
        x,
        instant(s, #[trigger] vs[m]),
    ) || sooner(instant(s, vs[m]), instant(s, vs[k])) || (instant(s, vs[m]) == instant(s, vs[k])
        && m < k) by {
        assert(code_version(s, vs[m], id));
        if m < k {
            assert(vs[m] < vs[k]);
        } else {
            assert(vs[k] < vs[m]);
        }
    }
    lemma_version_before(s, vs, t, x, k);
    reveal(classify);
    assert(cited(s, own, l) == Some(id));
    assert(anchor_time(s, vs, n, l) == Some(t));
    assert(anchor_version(s, vs, None, t) == Some(i));
    crate::drift_laws::lemma_chosen(s, vs, i, None, t);
    if exists|j: int| #[trigger]
        code_version(s, j, id) && sooner(x, instant(s, j)) && other_content(
            s[i]->Node_0,
            s[j]->Node_0,
        ) {
        let j = choose|j: int| #[trigger]
            code_version(s, j, id) && sooner(x, instant(s, j)) && other_content(
                s[i]->Node_0,
                s[j]->Node_0,
            );
        assert(vs.contains(j));
        let m = choose|m: int| 0 <= m < vs.len() && vs[m] == j;
        lemma_timed(s, vs[m]);
        assert(later_version(s, s[vs[m]], None, t));
    }
    if chosen_change(s, vs, i, None, t) is Some {
        let m = choose|m: int|
            0 <= m < vs.len() && later_version(s, s[#[trigger] vs[m]], None, t) && other_content(
                s[i]->Node_0,
                s[vs[m]]->Node_0,
            );
        assert(code_version(s, vs[m], id));
        lemma_timed(s, vs[m]);
    }
}

/// Where the link does not say where the code lies, the entry shows where the version at its commit
/// lay, and the time of that.
pub proof fn law_entries_show_where_the_code_lay(
    s: Seq<GraphRecord>,
    own: Map<Seq<char>, Seq<char>>,
    n: NodeRecord,
    l: EvidenceLinkView,
    id: Seq<char>,
    c: Seq<char>,
    i: int,
)
    requires
        cites_at(l, id, c),
        live_handle(s, own, id),
        !lost_on_lineage(s, own, id, c),
        first_at(s, i, id, c),
    ensures
        ({
            let h = classify(s, own, n, l).cited_handle;
            &&& l.target_repo_relative_path is None ==> h.repo_relative_path == opt_view(
                s[i]->Node_0.repo_relative_path,
            )
            &&& l.target_span is None ==> h.span == s[i]->Node_0.span
            &&& h.anchor_valid_time == Some(s[i]->Node_0.temporal->0.valid_time@)
            &&& h.anchor_commit == Some(c)
        }),
{
    lemma_anchored(s, own, n, l, id, c, i);
    crate::drift_laws::lemma_first_at(s, i, id, c);
    reveal(classify);
}

// ---------------------------------------------------------------------------
// What first speaks against it
// ---------------------------------------------------------------------------

proof fn lemma_chosen_first(
    s: Seq<GraphRecord>,
    vs: Seq<int>,
    from: int,
    anchor: Option<Seq<char>>,
    time: Seq<char>,
)
    requires
        s[from] is Node,
        forall|m: int| 0 <= m < vs.len() ==> s[#[trigger] vs[m]] is Node && timed(s, vs[m]),
    ensures
        chosen_change(s, vs, from, anchor, time) is Some ==> {
            let c = chosen_change(s, vs, from, anchor, time)->0;
            &&& vs.contains(c) && later_version(s, s[c], anchor, time) && other_content(
                s[from]->Node_0,
                s[c]->Node_0,
            )
            &&& forall|m: int|
                0 <= m < vs.len() && later_version(s, s[#[trigger] vs[m]], anchor, time)
                    && other_content(s[from]->Node_0, s[vs[m]]->Node_0) ==> !sooner(
                    instant(s, vs[m]),
                    instant(s, c),
                )
        },
    decreases vs.len(),
{
    if vs.len() > 0 {
        let rest = vs.drop_last();
        assert forall|m: int| 0 <= m < rest.len() implies s[#[trigger] rest[m]] is Node && timed(
            s,
            rest[m],
        ) by {
            assert(rest[m] == vs[m]);
        }
        lemma_chosen_first(s, rest, from, anchor, time);
        crate::drift_laws::lemma_chosen(s, rest, from, anchor, time);
        let i = vs.last();
        assert(vs[vs.len() - 1] == i);
        lemma_timed(s, i);
        lemma_hash_texts(s[from]->Node_0, s[i]->Node_0);
        let best = chosen_change(s, rest, from, anchor, time);
        if best is Some {
            let k = choose|k: int| 0 <= k < rest.len() && rest[k] == best->0;
            assert(vs[k] == best->0);
            lemma_timed(s, vs[k]);
        }
        if chosen_change(s, vs, from, anchor, time) is Some {
            let c = chosen_change(s, vs, from, anchor, time)->0;
            assert forall|m: int|
                0 <= m < vs.len() && later_version(s, s[#[trigger] vs[m]], anchor, time)
                    && other_content(s[from]->Node_0, s[vs[m]]->Node_0) implies !sooner(
                instant(s, vs[m]),
                instant(s, c),
            ) by {
                if m < rest.len() {
                    assert(rest[m] == vs[m]);
                    assert(later_version(s, s[rest[m]], anchor, time));
                }
            }
        }
    }
}

/// The hash of what a version holds: of its summary, and of its signature where it has one.
pub open spec fn hash_of_content(n: NodeRecord) -> Seq<char> {
    if n.content_signature is Some {
        "blake3:"@ + blake3_hex_of(
            encode_utf8(n.summary@) + encode_utf8(n.content_signature->0@),
        )
    } else {
        "blake3:"@ + blake3_hex_of(encode_utf8(n.summary@))
    }
}

/// Whether the trigger names the change at the `j`-th record: its commit, its time and the hash of
/// its content.
pub open spec fn names_change(t: Option<TriggerView>, s: Seq<GraphRecord>, j: int) -> bool {
    t == Some(
        TriggerView::ContentChange(
            s[j]->Node_0.temporal->0.git_commit@,
            s[j]->Node_0.temporal->0.valid_time@,
            hash_of_content(s[j]->Node_0),
        ),
    )
}

/// A drift without a drift record names the first change: a later version with another content,
/// before which no such version holds.
pub proof fn law_the_first_change_is_named(
    s: Seq<GraphRecord>,
    own: Map<Seq<char>, Seq<char>>,
    n: NodeRecord,
    l: EvidenceLinkView,
    id: Seq<char>,
    c: Seq<char>,
    i: int,
)
    requires
        cites_at(l, id, c),
        live_handle(s, own, id),
        !lost_on_lineage(s, own, id, c),
        in_dag(s, c),
        first_at(s, i, id, c),
        forall|k: int| #[trigger] code_version(s, k, id) ==> timed(s, k),
        drift_trigger(s, id, Some(c), Some(s[i]->Node_0.temporal->0.valid_time@)) is None,
        classify(s, own, n, l).verdict == FreshnessVerdict::Drifted,
    ensures
        exists|j: int| #[trigger]
            made_after(s, j, id, c) && other_content(s[i]->Node_0, s[j]->Node_0) && names_change(
                classify(s, own, n, l).triggering_handle,
                s,
                j,
            ) && forall|k: int| #[trigger]
                made_after(s, k, id, c) && other_content(s[i]->Node_0, s[k]->Node_0) ==> !sooner(
                    instant(s, k),
                    instant(s, j),
                ),
{
    lemma_anchored(s, own, n, l, id, c, i);
    lemma_listed(s, id);
    let vs = versions_of(s, id);
    let t = s[i]->Node_0.temporal->0.valid_time@;
    assert forall|m: int| 0 <= m < vs.len() implies s[#[trigger] vs[m]] is Node && timed(s, vs[m]) by {
        assert(code_version(s, vs[m], id));
    }
    lemma_chosen_first(s, vs, i, Some(c), t);
    reveal(classify);
    let j = chosen_change(s, vs, i, Some(c), t)->0;
    let m = choose|m: int| 0 <= m < vs.len() && vs[m] == j;
    assert(code_version(s, vs[m], id));
    assert(made_after(s, j, id, c));
    assert(names_change(classify(s, own, n, l).triggering_handle, s, j));
    assert forall|k: int| #[trigger]
        made_after(s, k, id, c) && other_content(s[i]->Node_0, s[k]->Node_0) implies !sooner(
        instant(s, k),
        instant(s, j),
    ) by {
        assert(vs.contains(k));
        let p = choose|p: int| 0 <= p < vs.len() && vs[p] == k;
        assert(later_version(s, s[vs[p]], Some(c), t));
    }
}

proof fn lemma_drift_first(
    s: Seq<GraphRecord>,
    at: Seq<int>,
    anchor: Option<Seq<char>>,
    time: Option<Seq<char>>,
    m: int,
)
    requires
        forall|k: int|
            0 <= k < at.len() ==> rfc3339_instant_of(
                s[#[trigger] at[k]]->Node_0.semantic_drift->0.after_valid_time@,
            ) is Some,
        0 <= m < at.len(),
        after_anchor(s, s[at[m]]->Node_0.semantic_drift->0, anchor, time),
    ensures
        chosen_drift(s, at, anchor, time) is Some,
        at.contains(chosen_drift(s, at, anchor, time)->0),
        !sooner(
            rfc3339_instant_of(s[at[m]]->Node_0.semantic_drift->0.after_valid_time@)->0,
            rfc3339_instant_of(
                s[chosen_drift(s, at, anchor, time)->0]->Node_0.semantic_drift->0.after_valid_time@,
            )->0,
        ),
    decreases at.len(),
{
    let rest = at.drop_last();
    assert forall|k: int| 0 <= k < rest.len() implies rfc3339_instant_of(
        s[#[trigger] rest[k]]->Node_0.semantic_drift->0.after_valid_time@,
    ) is Some by {
        assert(rest[k] == at[k]);
    }
    let i = at.last();
    assert(at[at.len() - 1] == i);
    let best = chosen_drift(s, rest, anchor, time);
    if best is Some {
        lemma_drift_member(s, rest, anchor, time);
        let k = choose|k: int| 0 <= k < rest.len() && rest[k] == best->0;
        assert(at[k] == best->0);
    }
    if m < at.len() - 1 {
        assert(rest[m] == at[m]);
        lemma_drift_first(s, rest, anchor, time, m);
    }
}

proof fn lemma_drift_member(
    s: Seq<GraphRecord>,
    at: Seq<int>,
    anchor: Option<Seq<char>>,
    time: Option<Seq<char>>,
)
    ensures
        chosen_drift(s, at, anchor, time) is Some ==> at.contains(
            chosen_drift(s, at, anchor, time)->0,
        ),
    decreases at.len(),
{
    if at.len() > 0 {
        let rest = at.drop_last();
        lemma_drift_member(s, rest, anchor, time);
        assert(at[at.len() - 1] == at.last());
        let best = chosen_drift(s, rest, anchor, time);
        if best is Some {
            let k = choose|k: int| 0 <= k < rest.len() && rest[k] == best->0;
            assert(at[k] == best->0);
        }
    }
}

/// Where drift records speak against a citation, the verdict names one that no other of them was
/// measured before.
pub proof fn law_the_first_drift_record_is_named(
    s: Seq<GraphRecord>,
    own: Map<Seq<char>, Seq<char>>,
    n: NodeRecord,
    l: EvidenceLinkView,
    id: Seq<char>,
    c: Seq<char>,
    i: int,
    k: int,
)
    requires
        cites_at(l, id, c),
        live_handle(s, own, id),
        !lost_on_lineage(s, own, id, c),
        first_at(s, i, id, c),
        measures_from(s, k, id),
        forall|m: int|
            0 <= m < drifts_with_edges(s, s.len() as int, id).len() ==> rfc3339_instant_of(
                s[#[trigger] drifts_with_edges(
                    s,
                    s.len() as int,
                    id,
                )[m]]->Node_0.semantic_drift->0.after_valid_time@,
            ) is Some,
        ({
            let d = s[k]->Node_0.semantic_drift->0;
            &&& d.before_git_commit@ == c || descends(s, c, d.before_git_commit@)
            &&& descends(s, c, d.after_git_commit@)
        }),
    ensures
        ({
            let t = classify(s, own, n, l).triggering_handle;
            let mine = rfc3339_instant_of(s[k]->Node_0.semantic_drift->0.after_valid_time@);
            &&& t is Some && t->0 is DriftRecord
            &&& mine is Some && rfc3339_instant_of(t->0->DriftRecord_2) is Some && !sooner(
                mine->0,
                rfc3339_instant_of(t->0->DriftRecord_2)->0,
            )
        }),
{
    lemma_anchored(s, own, n, l, id, c, i);
    let t = s[i]->Node_0.temporal->0.valid_time@;
    let d = s[k]->Node_0.semantic_drift->0;
    let steps = choose|steps: nat| #[trigger] reaches(s, c, d.after_git_commit@, steps);
    lemma_ancestor_in_dag(s, c, d.after_git_commit@, steps);
    lemma_measured_with_edges(s, s.len() as int, id, k);
    let at = drifts_with_edges(s, s.len() as int, id);
    let m = choose|m: int| 0 <= m < at.len() && at[m] == k;
    lemma_drift_first(s, at, Some(c), Some(t), m);
    reveal(classify);
    let best = chosen_drift(s, at, Some(c), Some(t))->0;
    let b = choose|b: int| 0 <= b < at.len() && at[b] == best;
    assert(rfc3339_instant_of(s[at[b]]->Node_0.semantic_drift->0.after_valid_time@) is Some);
}

} // verus!
