//! What becomes of citations of code, said of the records of the store.

use vstd::prelude::*;

use crate::drift_laws::{code_version, lemma_listed};
use crate::evidence_freshness::{
    at_tips, cited, classify, frontier, handle_times, in_order, is_handle_version, lay_at, latest,
    live_handle, marked_superseded, record_supersedes, repository_times, scan_times, some_version,
    superseded, versions_of, FreshnessVerdict, TriggerView, FRESHNESS_LEAD,
};
use crate::history::{any_tip, commit_of, has_commit, has_parent, has_tip, tip, tip_of};
use crate::ir::{EdgeLabel, EvidenceLinkView, GraphRecord, NodeKind, NodeRecord, SourceSpan};
use crate::liveness::{deleted, last_node};
use crate::outside::rfc3339_instant_of;
use crate::repository::owner;
use crate::store_laws::{law_the_last_word_decides, speaks_of};
use crate::collections::sorted_strict;
use crate::text::{lemma_lex_three, lex_lt};

verus! {

/// Whether the `i`-th record is a tombstone of the identifier and the last that speaks of it.
pub open spec fn retracted_at(s: Seq<GraphRecord>, id: Seq<char>, i: int) -> bool {
    &&& 0 <= i < s.len()
    &&& s[i] is Tombstone && s[i]->Tombstone_0.deleted_id@ == id
    &&& forall|k: int| i < k < s.len() ==> !speaks_of(#[trigger] s[k], id)
}

/// Whether the last record that speaks of the identifier is a tombstone.
pub open spec fn retracted(s: Seq<GraphRecord>, id: Seq<char>) -> bool {
    exists|i: int| #[trigger] retracted_at(s, id, i)
}

/// Whether the `i`-th record is the last node with the identifier.
pub open spec fn newest_node(s: Seq<GraphRecord>, id: Seq<char>, i: int) -> bool {
    &&& 0 <= i < s.len()
    &&& s[i] is Node && s[i]->Node_0.id@ == id
    &&& forall|k: int| i < k < s.len() ==> !((#[trigger] s[k]) is Node && s[k]->Node_0.id@ == id)
}

/// Whether the `i`-th record, being in effect, says that `id` is replaced: an edge to it that
/// replaces, from a source that is not retracted, or a node with such a link.
pub open spec fn replaces(s: Seq<GraphRecord>, i: int, id: Seq<char>) -> bool {
    match s[i] {
        GraphRecord::Node(n) => {
            &&& !retracted(s, n.id@)
            &&& n.evidence_links is Some
            &&& id.len() > 0
            &&& exists|k: int|
                #![trigger n.evidence_links->0@[k]]
                0 <= k < n.evidence_links->0@.len() && n.evidence_links->0@[k].relation@
                    == "SUPERSEDES"@ && n.evidence_links->0@[k].target_record_id is Some
                    && n.evidence_links->0@[k].target_record_id->0@ == id
        },
        GraphRecord::Edge(e) => {
            &&& e.label == EdgeLabel::Supersedes && e.target@ == id
            &&& !retracted(s, e.id@)
            &&& !retracted(s, e.source@)
        },
        GraphRecord::Tombstone(_) => false,
    }
}

/// Whether `id` is replaced, by another record's account or by that of its own last version.
pub open spec fn replaced(s: Seq<GraphRecord>, id: Seq<char>) -> bool {
    ||| exists|i: int| 0 <= i < s.len() && #[trigger] replaces(s, i, id)
    ||| exists|i: int| #[trigger]
        newest_node(s, id, i) && s[i]->Node_0.superseded_by is Some
            && s[i]->Node_0.superseded_by->0@.len() > 0
}

proof fn lemma_last_word(s: Seq<GraphRecord>, id: Seq<char>) -> (i: int)
    ensures
        0 <= i < s.len() ==> speaks_of(s[i], id) && forall|k: int|
            i < k < s.len() ==> !speaks_of(#[trigger] s[k], id),
        !(0 <= i < s.len()) ==> forall|k: int|
            0 <= k < s.len() ==> !speaks_of(#[trigger] s[k], id),
    decreases s.len(),
{
    if s.len() == 0 {
        -1
    } else if speaks_of(s.last(), id) {
        s.len() - 1
    } else {
        let t = s.drop_last();
        let i = lemma_last_word(t, id);
        assert forall|k: int| 0 <= k < t.len() implies #[trigger] s[k] == t[k] by {}
        if 0 <= i < t.len() {
            assert(s[i] == t[i]);
            i
        } else {
            -1
        }
    }
}

/// What is retracted is what a tombstone speaks of last.
pub proof fn law_what_is_retracted(s: Seq<GraphRecord>, id: Seq<char>)
    ensures
        deleted(s, id) <==> retracted(s, id),
{
    let i = lemma_last_word(s, id);
    law_the_last_word_decides(s, id, i);
    if 0 <= i < s.len() && s[i] is Tombstone {
        assert(retracted_at(s, id, i));
    }
    if retracted(s, id) {
        let j = choose|j: int| #[trigger] retracted_at(s, id, j);
        assert(speaks_of(s[j], id));
        assert(i >= j);
        assert(i == j);
    }
}

pub proof fn lemma_newest(s: Seq<GraphRecord>, id: Seq<char>)
    ensures
        last_node(s, id) is Some ==> newest_node(s, id, last_node(s, id)->0),
        forall|i: int| #[trigger] newest_node(s, id, i) ==> last_node(s, id) == Some(i),
    decreases s.len(),
{
    if s.len() > 0 {
        let t = s.drop_last();
        lemma_newest(t, id);
        let own = s.last() is Node && s.last()->Node_0.id@ == id;
        if !own {
            if last_node(t, id) is Some {
                let i = last_node(t, id)->0;
                assert(newest_node(t, id, i));
                assert forall|k: int| i < k < s.len() implies !((#[trigger] s[k]) is Node
                    && s[k]->Node_0.id@ == id) by {
                    if k < t.len() {
                        assert(t[k] == s[k]);
                    }
                }
            }
            assert forall|i: int| #[trigger] newest_node(s, id, i) implies last_node(s, id) == Some(
                i,
            ) by {
                assert(i < t.len());
                assert forall|k: int| i < k < t.len() implies !((#[trigger] t[k]) is Node
                    && t[k]->Node_0.id@ == id) by {
                    assert(t[k] == s[k]);
                }
                assert(newest_node(t, id, i));
            }
        } else {
            assert forall|i: int| #[trigger] newest_node(s, id, i) implies last_node(s, id) == Some(
                i,
            ) by {
                if i < s.len() - 1 {
                    assert(s[s.len() - 1] is Node);
                }
            }
        }
    }
}

/// What is replaced is what a record in effect, or its own last version, says to be replaced.
pub proof fn law_what_is_replaced(s: Seq<GraphRecord>, id: Seq<char>)
    ensures
        superseded(s, id) <==> replaced(s, id),
{
    lemma_newest(s, id);
    assert forall|i: int| 0 <= i < s.len() implies record_supersedes(s, #[trigger] s[i], id)
        == replaces(s, i, id) by {
        match s[i] {
            GraphRecord::Node(n) => {
                law_what_is_retracted(s, n.id@);
                if n.evidence_links is Some {
                    let v = n.evidence_links->0@;
                    if record_supersedes(s, s[i], id) {
                        let k = choose|k: int|
                            0 <= k < v.len() && #[trigger]
                                crate::evidence_freshness::link_supersedes(v[k], id);
                        assert(v[k].relation@ == "SUPERSEDES"@);
                    }
                    if replaces(s, i, id) {
                        let k = choose|k: int|
                            #![trigger v[k]]
                            0 <= k < v.len() && v[k].relation@ == "SUPERSEDES"@
                                && v[k].target_record_id is Some && v[k].target_record_id->0@ == id;
                        assert(crate::evidence_freshness::link_supersedes(v[k], id));
                    }
                }
            },
            GraphRecord::Edge(e) => {
                law_what_is_retracted(s, e.id@);
                law_what_is_retracted(s, e.source@);
            },
            GraphRecord::Tombstone(_) => {},
        }
    }
    if superseded(s, id) {
        if marked_superseded(s, id) {
            assert(newest_node(s, id, last_node(s, id)->0));
        } else {
            let i = choose|i: int| 0 <= i < s.len() && record_supersedes(s, #[trigger] s[i], id);
            assert(replaces(s, i, id));
        }
    }
    if replaced(s, id) {
        if exists|i: int| 0 <= i < s.len() && #[trigger] replaces(s, i, id) {
            let i = choose|i: int| 0 <= i < s.len() && #[trigger] replaces(s, i, id);
            assert(record_supersedes(s, s[i], id));
        }
    }
}

/// Whether the link names the record.
pub open spec fn names(l: EvidenceLinkView, id: Seq<char>) -> bool {
    l.target_record_id == Some(id) && id.len() > 0
}

/// A citation of code that the store does not hold, or that was retracted or replaced, is
/// unresolved: where a tombstone took it away it is named, else the code is said to be absent.
pub proof fn law_code_that_is_gone(
    s: Seq<GraphRecord>,
    own: Map<Seq<char>, Seq<char>>,
    n: NodeRecord,
    l: EvidenceLinkView,
    id: Seq<char>,
)
    requires
        names(l, id),
        retracted(s, id) || replaced(s, id) || forall|i: int| !#[trigger] code_version(s, i, id),
    ensures
        classify(s, own, n, l).verdict == FreshnessVerdict::Unresolved,
        forall|i: int| #[trigger]
            retracted_at(s, id, i) ==> classify(s, own, n, l).triggering_handle == Some(
                TriggerView::HandleRemoved(s[i]->Tombstone_0.id@),
            ),
        !retracted(s, id) ==> classify(s, own, n, l).triggering_handle == Some(
            TriggerView::HandleAbsent,
        ),
{
    law_what_is_retracted(s, id);
    law_what_is_replaced(s, id);
    reveal(classify);
    assert(cited(s, own, l) == Some(id));
    if exists|i: int| 0 <= i < s.len() && is_handle_version(#[trigger] s[i], id) {
        let i = choose|i: int| 0 <= i < s.len() && is_handle_version(#[trigger] s[i], id);
        assert(code_version(s, i, id));
    }
    assert(!live_handle(s, own, id));
    assert forall|i: int| #[trigger] retracted_at(s, id, i) implies classify(
        s,
        own,
        n,
        l,
    ).triggering_handle == Some(TriggerView::HandleRemoved(s[i]->Tombstone_0.id@)) by {
        assert(retracted(s, id));
        let j = lemma_last_word(s, id);
        assert(speaks_of(s[i], id));
        assert(i == j);
        lemma_last_event(s, id, i);
    }
}

proof fn lemma_last_event(s: Seq<GraphRecord>, id: Seq<char>, i: int)
    requires
        retracted_at(s, id, i),
    ensures
        crate::liveness::last_event(s, id) == Some(i),
    decreases s.len(),
{
    if i < s.len() - 1 {
        let t = s.drop_last();
        assert(!speaks_of(s[s.len() - 1], id));
        assert forall|k: int| i < k < t.len() implies !speaks_of(#[trigger] t[k], id) by {
            assert(t[k] == s[k]);
        }
        assert(retracted_at(t, id, i));
        lemma_last_event(t, id, i);
    }
}

// ---------------------------------------------------------------------------
// Code that is still there
// ---------------------------------------------------------------------------

/// Whether the `i`-th record is a node of the repository, at a commit.
pub open spec fn committed_in(
    s: Seq<GraphRecord>,
    own: Map<Seq<char>, Seq<char>>,
    repo: Option<Seq<char>>,
    i: int,
) -> bool {
    &&& 0 <= i < s.len()
    &&& s[i] is Node && s[i]->Node_0.temporal is Some
    &&& own.dom().contains(s[i]->Node_0.id@) == (repo is Some)
    &&& repo is Some ==> own[s[i]->Node_0.id@] == repo->0
}

/// Whether the `i`-th record names the commit as a parent of its own.
pub open spec fn follows(s: Seq<GraphRecord>, i: int, c: Seq<char>) -> bool {
    exists|k: int|
        #![trigger s[i]->Node_0.temporal->0.git_parent_commits@[k]]
        0 <= k < s[i]->Node_0.temporal->0.git_parent_commits@.len()
            && s[i]->Node_0.temporal->0.git_parent_commits@[k]@ == c
}

/// Whether the commit is a newest one of the repository: a node of it was made there, and no node
/// of it has the commit as a parent.
pub open spec fn newest_commit(
    s: Seq<GraphRecord>,
    own: Map<Seq<char>, Seq<char>>,
    repo: Option<Seq<char>>,
    c: Seq<char>,
) -> bool {
    &&& exists|i: int| #[trigger]
        committed_in(s, own, repo, i) && s[i]->Node_0.temporal->0.git_commit@ == c
    &&& forall|i: int| #[trigger] committed_in(s, own, repo, i) ==> !follows(s, i, c)
}

proof fn lemma_newest_commit(
    s: Seq<GraphRecord>,
    own: Map<Seq<char>, Seq<char>>,
    repo: Option<Seq<char>>,
    c: Seq<char>,
)
    ensures
        newest_commit(s, own, repo, c) <==> tip_of(s, own, repo, c),
{
    assert forall|i: int| 0 <= i < s.len() && s[i] is Node && s[i]->Node_0.temporal is Some implies (
    crate::history::parents_of(#[trigger] s[i]).contains(c) <==> follows(s, i, c)) by {
        let ps = s[i]->Node_0.temporal->0.git_parent_commits@;
        if crate::history::parents_of(s[i]).contains(c) {
            let k = choose|k: int|
                0 <= k < crate::history::parents_of(s[i]).len() && crate::history::parents_of(
                    s[i],
                )[k] == c;
            assert(ps[k]@ == c);
        }
        if follows(s, i, c) {
            let k = choose|k: int| #![trigger ps[k]] 0 <= k < ps.len() && ps[k]@ == c;
            assert(crate::history::parents_of(s[i])[k] == c);
        }
    }
    if newest_commit(s, own, repo, c) {
        let i = choose|i: int| #[trigger]
            committed_in(s, own, repo, i) && s[i]->Node_0.temporal->0.git_commit@ == c;
        assert(commit_of(s[i]) == Some(c));
        assert(has_commit(s, own, repo, c));
        if has_parent(s, own, repo, c) {
            let j = choose|j: int|
                0 <= j < s.len() && crate::history::parents_of(#[trigger] s[j]).contains(c)
                    && crate::history::repo_of(own, s[j]) == repo;
            assert(committed_in(s, own, repo, j));
        }
    }
    if tip_of(s, own, repo, c) {
        let i = choose|i: int|
            0 <= i < s.len() && commit_of(#[trigger] s[i]) == Some(c)
                && crate::history::repo_of(own, s[i]) == repo;
        assert(committed_in(s, own, repo, i));
        assert forall|j: int| #[trigger] committed_in(s, own, repo, j) implies !follows(s, j, c) by {
            assert(crate::history::repo_of(own, s[j]) == repo);
            assert(crate::history::parents_of(s[j]).contains(c) <==> follows(s, j, c));
        }
    }
}

/// Code of which every version has a commit is still there where a version stands at a newest
/// commit of its repository, and it was neither retracted nor replaced.
pub proof fn law_code_at_a_newest_commit_is_there(
    s: Seq<GraphRecord>,
    own: Map<Seq<char>, Seq<char>>,
    id: Seq<char>,
    i: int,
)
    requires
        !retracted(s, id),
        !replaced(s, id),
        forall|k: int| #[trigger] code_version(s, k, id) ==> s[k]->Node_0.temporal is Some,
        code_version(s, i, id),
        newest_commit(s, own, owner(own, id), s[i]->Node_0.temporal->0.git_commit@),
    ensures
        live_handle(s, own, id),
{
    law_what_is_retracted(s, id);
    law_what_is_replaced(s, id);
    lemma_listed(s, id);
    let c = s[i]->Node_0.temporal->0.git_commit@;
    lemma_newest_commit(s, own, owner(own, id), c);
    let vs = versions_of(s, id);
    assert(vs.contains(i));
    let k = choose|k: int| 0 <= k < vs.len() && vs[k] == i;
    assert(has_tip(s, own, owner(own, id)));
    assert(is_handle_version(s[i], id));
    assert(commit_of(s[vs[k]]) is Some);
    assert(some_version(s, vs, |r: GraphRecord| commit_of(r) is Some));
    assert(crate::evidence_freshness::at_tip_or_current(s, own, id, s[vs[k]]));
    assert(some_version(
        s,
        vs,
        |r: GraphRecord| crate::evidence_freshness::at_tip_or_current(s, own, id, r),
    ));
    let scanned = |r: GraphRecord| commit_of(r) is None;
    if some_version(s, vs, scanned) {
        let m = choose|m: int| 0 <= m < vs.len() && scanned(s[#[trigger] vs[m]]);
        assert(code_version(s, vs[m], id));
    }
}

/// Code of which every version has a commit that is none of the newest of its repository, where
/// there are such, was left behind: its citations are unresolved.
pub proof fn law_code_left_behind(
    s: Seq<GraphRecord>,
    own: Map<Seq<char>, Seq<char>>,
    n: NodeRecord,
    l: EvidenceLinkView,
    id: Seq<char>,
    c: Seq<char>,
)
    requires
        names(l, id),
        newest_commit(s, own, owner(own, id), c),
        forall|k: int| #[trigger]
            code_version(s, k, id) ==> s[k]->Node_0.temporal is Some && !newest_commit(
                s,
                own,
                owner(own, id),
                s[k]->Node_0.temporal->0.git_commit@,
            ),
    ensures
        !live_handle(s, own, id),
        classify(s, own, n, l).verdict == FreshnessVerdict::Unresolved,
        !retracted(s, id) ==> classify(s, own, n, l).triggering_handle == Some(
            TriggerView::HandleAbsent,
        ),
{
    law_what_is_retracted(s, id);
    lemma_listed(s, id);
    lemma_newest_commit(s, own, owner(own, id), c);
    assert(has_tip(s, own, owner(own, id)));
    assert(tip(s, own, c));
    assert(any_tip(s, own));
    let vs = versions_of(s, id);
    let there = |r: GraphRecord| crate::evidence_freshness::at_tip_or_current(s, own, id, r);
    if some_version(s, vs, there) {
        let m = choose|m: int| 0 <= m < vs.len() && there(s[#[trigger] vs[m]]);
        assert(code_version(s, vs[m], id));
        lemma_newest_commit(s, own, owner(own, id), s[vs[m]]->Node_0.temporal->0.git_commit@);
    }
    assert(!at_tips(s, own, id));
    assert(cited(s, own, l) == Some(id));
    reveal(classify);
}

/// Whether the store holds scans only: no node of it has a commit.
pub open spec fn scans_only(s: Seq<GraphRecord>) -> bool {
    forall|i: int| 0 <= i < s.len() && (#[trigger] s[i]) is Node ==> s[i]->Node_0.temporal is None
}

/// Whether the `i`-th record is a node with a time of its own that stands for the instant.
pub open spec fn scanned_on(s: Seq<GraphRecord>, i: int, x: (i64, u32)) -> bool {
    &&& 0 <= i < s.len()
    &&& s[i] is Node && s[i]->Node_0.valid_time is Some && s[i]->Node_0.valid_time->0@.len() > 0
    &&& rfc3339_instant_of(s[i]->Node_0.valid_time->0@) == Some(x)
}

/// Whether the first instant is before the second.
pub open spec fn sooner(x: (i64, u32), y: (i64, u32)) -> bool {
    x.0 < y.0 || (x.0 == y.0 && x.1 < y.1)
}

spec fn bounded(times: Seq<Seq<char>>, x: (i64, u32)) -> bool {
    forall|k: int|
        0 <= k < times.len() ==> rfc3339_instant_of(#[trigger] times[k]) is Some && !sooner(
            x,
            rfc3339_instant_of(times[k])->0,
        )
}

spec fn readable(times: Seq<Seq<char>>) -> bool {
    forall|k: int| 0 <= k < times.len() ==> rfc3339_instant_of(#[trigger] times[k]) is Some
}

proof fn lemma_latest(times: Seq<Seq<char>>)
    requires
        readable(times),
    ensures
        times.len() > 0 ==> latest(times) is Some && times.contains(latest(times)->0),
        latest(times) is Some ==> rfc3339_instant_of(latest(times)->0) is Some && forall|k: int|
            0 <= k < times.len() ==> !sooner(
                rfc3339_instant_of(latest(times)->0)->0,
                rfc3339_instant_of(#[trigger] times[k])->0,
            ),
    decreases times.len(),
{
    if times.len() > 0 {
        let rest = times.drop_last();
        assert forall|k: int| 0 <= k < rest.len() implies rfc3339_instant_of(
            #[trigger] rest[k],
        ) is Some by {
            assert(rest[k] == times[k]);
        }
        lemma_latest(rest);
        assert(times[times.len() - 1] == times.last());
        if rest.len() > 0 {
            let c = latest(rest)->0;
            let k = choose|k: int| 0 <= k < rest.len() && rest[k] == c;
            assert(times[k] == c);
            assert forall|m: int| 0 <= m < times.len() implies !sooner(
                rfc3339_instant_of(latest(times)->0)->0,
                rfc3339_instant_of(#[trigger] times[m])->0,
            ) by {
                if m < rest.len() {
                    assert(rest[m] == times[m]);
                }
            }
        }
    }
}

proof fn lemma_scan_times(s: Seq<GraphRecord>, id: Seq<char>, vs: Seq<int>, x: (i64, u32))
    requires
        forall|k: int| 0 <= k < vs.len() ==> code_version(s, #[trigger] vs[k], id),
        scans_only(s),
        forall|i: int|
            0 <= i < s.len() && (#[trigger] s[i]) is Node && s[i]->Node_0.valid_time is Some
                && s[i]->Node_0.valid_time->0@.len() > 0 ==> rfc3339_instant_of(
                s[i]->Node_0.valid_time->0@,
            ) is Some && !sooner(x, rfc3339_instant_of(s[i]->Node_0.valid_time->0@)->0),
    ensures
        bounded(scan_times(s, vs), x),
    decreases vs.len(),
{
    if vs.len() > 0 {
        let rest = vs.drop_last();
        assert forall|k: int| 0 <= k < rest.len() implies code_version(s, #[trigger] rest[k], id) by {
            assert(rest[k] == vs[k]);
        }
        lemma_scan_times(s, id, rest, x);
        assert(code_version(s, vs[vs.len() - 1], id));
    }
}

proof fn lemma_handle_times(
    s: Seq<GraphRecord>,
    own: Map<Seq<char>, Seq<char>>,
    ids: Seq<Seq<char>>,
    repo: Option<Seq<char>>,
    x: (i64, u32),
)
    requires
        scans_only(s),
        forall|i: int|
            0 <= i < s.len() && (#[trigger] s[i]) is Node && s[i]->Node_0.valid_time is Some
                && s[i]->Node_0.valid_time->0@.len() > 0 ==> rfc3339_instant_of(
                s[i]->Node_0.valid_time->0@,
            ) is Some && !sooner(x, rfc3339_instant_of(s[i]->Node_0.valid_time->0@)->0),
    ensures
        bounded(handle_times(s, own, ids, repo), x),
    decreases ids.len(),
{
    if ids.len() > 0 {
        lemma_handle_times(s, own, ids.drop_last(), repo, x);
        lemma_listed(s, ids.last());
        lemma_scan_times(s, ids.last(), versions_of(s, ids.last()), x);
    }
}

proof fn lemma_repository_times(
    s: Seq<GraphRecord>,
    own: Map<Seq<char>, Seq<char>>,
    repo: Option<Seq<char>>,
    x: (i64, u32),
)
    requires
        scans_only(s),
        forall|i: int|
            0 <= i < s.len() && (#[trigger] s[i]) is Node && s[i]->Node_0.valid_time is Some
                && s[i]->Node_0.valid_time->0@.len() > 0 ==> rfc3339_instant_of(
                s[i]->Node_0.valid_time->0@,
            ) is Some && !sooner(x, rfc3339_instant_of(s[i]->Node_0.valid_time->0@)->0),
    ensures
        bounded(repository_times(s, own, repo), x),
        forall|i: int|
            0 <= i < s.len() && (#[trigger] s[i]) is Node && s[i]->Node_0.kind
                == NodeKind::Repository && s[i]->Node_0.valid_time is Some
                && s[i]->Node_0.valid_time->0@.len() > 0 && owner(own, s[i]->Node_0.id@) == repo
                ==> repository_times(s, own, repo).contains(s[i]->Node_0.valid_time->0@),
    decreases s.len(),
{
    if s.len() > 0 {
        let t = s.drop_last();
        assert forall|i: int| 0 <= i < t.len() implies #[trigger] t[i] == s[i] by {}
        lemma_repository_times(t, own, repo, x);
        let all = repository_times(s, own, repo);
        let rest = repository_times(t, own, repo);
        assert(s[s.len() - 1] == s.last());
        assert forall|i: int|
            0 <= i < s.len() && (#[trigger] s[i]) is Node && s[i]->Node_0.kind
                == NodeKind::Repository && s[i]->Node_0.valid_time is Some
                && s[i]->Node_0.valid_time->0@.len() > 0 && owner(own, s[i]->Node_0.id@)
                == repo implies all.contains(s[i]->Node_0.valid_time->0@) by {
            if i < t.len() {
                assert(t[i] == s[i]);
                let k = choose|k: int|
                    0 <= k < rest.len() && rest[k] == s[i]->Node_0.valid_time->0@;
                assert(all[k] == rest[k]);
            } else {
                assert(all[all.len() - 1] == s[i]->Node_0.valid_time->0@);
            }
        }
    }
}

proof fn lemma_no_commits(s: Seq<GraphRecord>, own: Map<Seq<char>, Seq<char>>)
    requires
        scans_only(s),
    ensures
        !any_tip(s, own),
{
    if any_tip(s, own) {
        let c = choose|c: Seq<char>| #[trigger] tip(s, own, c);
        let repo = choose|repo: Option<Seq<char>>| #[trigger] tip_of(s, own, repo, c);
        let i = choose|i: int|
            0 <= i < s.len() && commit_of(#[trigger] s[i]) == Some(c) && crate::history::repo_of(
                own,
                s[i],
            ) == repo;
        assert(s[i] is Node);
    }
}

/// In a store of scans, whose times can all be read, code is still there where a scan no older
/// than any other shows it and it was neither retracted nor replaced.
pub proof fn law_code_of_the_newest_scan_is_there(
    s: Seq<GraphRecord>,
    own: Map<Seq<char>, Seq<char>>,
    id: Seq<char>,
    i: int,
    x: (i64, u32),
)
    requires
        scans_only(s),
        !retracted(s, id),
        !replaced(s, id),
        code_version(s, i, id),
        scanned_on(s, i, x),
        forall|k: int|
            0 <= k < s.len() && (#[trigger] s[k]) is Node && s[k]->Node_0.valid_time is Some
                && s[k]->Node_0.valid_time->0@.len() > 0 ==> rfc3339_instant_of(
                s[k]->Node_0.valid_time->0@,
            ) is Some && !sooner(x, rfc3339_instant_of(s[k]->Node_0.valid_time->0@)->0),
    ensures
        live_handle(s, own, id),
{
    law_what_is_retracted(s, id);
    law_what_is_replaced(s, id);
    lemma_no_commits(s, own);
    lemma_listed(s, id);
    let vs = versions_of(s, id);
    assert(vs.contains(i));
    let k = choose|k: int| 0 <= k < vs.len() && vs[k] == i;
    assert(is_handle_version(s[i], id));
    assert(at_tips(s, own, id));
    let repo = owner(own, id);
    let ids = in_order(|y: Seq<char>| at_tips(s, own, y));
    let a = handle_times(s, own, ids, repo);
    let b = repository_times(s, own, repo);
    lemma_handle_times(s, own, ids, repo, x);
    lemma_repository_times(s, own, repo, x);
    let times = a + b;
    assert forall|m: int| 0 <= m < times.len() implies rfc3339_instant_of(
        #[trigger] times[m],
    ) is Some && !sooner(x, rfc3339_instant_of(times[m])->0) by {
        if m < a.len() {
            assert(times[m] == a[m]);
        } else {
            assert(times[m] == b[m - a.len()]);
        }
    }
    lemma_latest(times);
    assert(frontier(s, own, repo) == latest(times));
    if latest(times) is Some {
        let f = latest(times)->0;
        lemma_listed_time(s, own, ids, id, repo, i);
        let at = choose|m: int| 0 <= m < a.len() && a[m] == s[i]->Node_0.valid_time->0@;
        assert(times[at] == a[at]);
        assert(crate::evidence_freshness::scanned_at(s[vs[k]], f));
        assert(some_version(
            s,
            vs,
            |r: GraphRecord| crate::evidence_freshness::scanned_at(r, f),
        ));
    }
}

pub proof fn lemma_insert_sorted(q: Seq<Seq<char>>, x: Seq<char>) -> (r: Seq<Seq<char>>)
    requires
        sorted_strict(q),
        !q.contains(x),
    ensures
        sorted_strict(r),
        forall|y: Seq<char>| #[trigger] r.contains(y) <==> q.contains(y) || y == x,
    decreases q.len(),
{
    if q.len() == 0 {
        let r = seq![x];
        assert(r[0] == x);
        r
    } else {
        let last = q.last();
        let rest = q.drop_last();
        lemma_lex_three(last, x, last);
        assert(q[q.len() - 1] == last);
        assert forall|y: Seq<char>| q.contains(y) <==> rest.contains(y) || y == last by {
            if q.contains(y) {
                let k = choose|k: int| 0 <= k < q.len() && q[k] == y;
                if k < rest.len() {
                    assert(rest[k] == y);
                }
            }
            if rest.contains(y) {
                let k = choose|k: int| 0 <= k < rest.len() && rest[k] == y;
                assert(q[k] == y);
            }
        }
        if lex_lt(last, x) {
            let r = q.push(x);
            assert forall|i: int, j: int| 0 <= i < j < r.len() implies lex_lt(
                #[trigger] r[i],
                #[trigger] r[j],
            ) by {
                if j == q.len() {
                    if i < q.len() - 1 {
                        assert(lex_lt(q[i], q[q.len() - 1]));
                    }
                    lemma_lex_three(q[i], last, x);
                }
            }
            assert forall|y: Seq<char>| #[trigger] r.contains(y) <==> q.contains(y) || y == x by {
                if q.contains(y) {
                    let k = choose|k: int| 0 <= k < q.len() && q[k] == y;
                    assert(r[k] == y);
                }
                assert(r[q.len() as int] == x);
            }
            r
        } else {
            let p = lemma_insert_sorted(rest, x);
            let r = p.push(last);
            assert forall|i: int, j: int| 0 <= i < j < r.len() implies lex_lt(
                #[trigger] r[i],
                #[trigger] r[j],
            ) by {
                if j == p.len() {
                    assert(p.contains(p[i]));
                    if p[i] != x {
                        let k = choose|k: int| 0 <= k < rest.len() && rest[k] == p[i];
                        assert(lex_lt(q[k], q[q.len() - 1]));
                    }
                }
            }
            assert forall|y: Seq<char>| #[trigger] r.contains(y) <==> q.contains(y) || y == x by {
                if r.contains(y) {
                    let k = choose|k: int| 0 <= k < r.len() && r[k] == y;
                    if k < p.len() {
                        assert(p[k] == y);
                        assert(p.contains(y));
                    }
                }
                if q.contains(y) || y == x {
                    if y == last {
                        assert(r[p.len() as int] == y);
                    } else {
                        assert(p.contains(y));
                        let k = choose|k: int| 0 <= k < p.len() && p[k] == y;
                        assert(r[k] == y);
                    }
                }
            }
            r
        }
    }
}

proof fn lemma_ids(s: Seq<GraphRecord>, p: spec_fn(Seq<char>) -> bool, n: int) -> (q: Seq<Seq<char>>)
    requires
        0 <= n <= s.len(),
    ensures
        sorted_strict(q),
        forall|x: Seq<char>| #[trigger]
            q.contains(x) <==> p(x) && exists|i: int|
                0 <= i < n && (#[trigger] s[i]) is Node && s[i]->Node_0.id@ == x,
    decreases n,
{
    if n == 0 {
        Seq::empty()
    } else {
        let q = lemma_ids(s, p, n - 1);
        let r = s[n - 1];
        if r is Node && p(r->Node_0.id@) && !q.contains(r->Node_0.id@) {
            lemma_insert_sorted(q, r->Node_0.id@)
        } else {
            q
        }
    }
}

proof fn lemma_listed_time(
    s: Seq<GraphRecord>,
    own: Map<Seq<char>, Seq<char>>,
    ids: Seq<Seq<char>>,
    id: Seq<char>,
    repo: Option<Seq<char>>,
    i: int,
)
    requires
        scans_only(s),
        ids == in_order(|y: Seq<char>| at_tips(s, own, y)),
        at_tips(s, own, id),
        owner(own, id) == repo,
        code_version(s, i, id),
        s[i]->Node_0.valid_time is Some,
        s[i]->Node_0.valid_time->0@.len() > 0,
    ensures
        handle_times(s, own, ids, repo).contains(s[i]->Node_0.valid_time->0@),
{
    let p = |y: Seq<char>| at_tips(s, own, y);
    let q = lemma_ids(s, p, s.len() as int);
    assert forall|x: Seq<char>| #[trigger] q.contains(x) <==> p(x) by {
        if p(x) {
            let k = choose|k: int| 0 <= k < s.len() && is_handle_version(#[trigger] s[k], x);
            assert(s[k] is Node);
        }
    }
    assert(sorted_strict(q) && forall|x: Seq<char>| #[trigger] q.contains(x) <==> p(x));
    assert(ids.contains(id) <==> p(id));
    assert(ids.contains(id));
    let k = choose|k: int| 0 <= k < ids.len() && ids[k] == id;
    lemma_time_of_one(s, own, ids, id, repo, i, k);
}

proof fn lemma_scanned(s: Seq<GraphRecord>, vs: Seq<int>, k: int)
    requires
        0 <= k < vs.len(),
        s[vs[k]] is Node,
        s[vs[k]]->Node_0.temporal is None,
        s[vs[k]]->Node_0.valid_time is Some,
        s[vs[k]]->Node_0.valid_time->0@.len() > 0,
    ensures
        scan_times(s, vs).contains(s[vs[k]]->Node_0.valid_time->0@),
    decreases vs.len(),
{
    let all = scan_times(s, vs);
    let t = s[vs[k]]->Node_0.valid_time->0@;
    if k == vs.len() - 1 {
        assert(all[all.len() - 1] == t);
    } else {
        let rest = vs.drop_last();
        assert(rest[k] == vs[k]);
        lemma_scanned(s, rest, k);
        let before = scan_times(s, rest);
        let m = choose|m: int| 0 <= m < before.len() && before[m] == t;
        assert(all[m] == t);
    }
}

proof fn lemma_time_of_one(
    s: Seq<GraphRecord>,
    own: Map<Seq<char>, Seq<char>>,
    ids: Seq<Seq<char>>,
    id: Seq<char>,
    repo: Option<Seq<char>>,
    i: int,
    k: int,
)
    requires
        scans_only(s),
        0 <= k < ids.len(),
        ids[k] == id,
        owner(own, id) == repo,
        code_version(s, i, id),
        s[i]->Node_0.valid_time is Some,
        s[i]->Node_0.valid_time->0@.len() > 0,
    ensures
        handle_times(s, own, ids, repo).contains(s[i]->Node_0.valid_time->0@),
    decreases ids.len(),
{
    let all = handle_times(s, own, ids, repo);
    let rest = ids.drop_last();
    let before = handle_times(s, own, rest, repo);
    let t = s[i]->Node_0.valid_time->0@;
    if k == ids.len() - 1 {
        lemma_listed(s, id);
        let vs = versions_of(s, id);
        assert(vs.contains(i));
        let m = choose|m: int| 0 <= m < vs.len() && vs[m] == i;
        lemma_scanned(s, vs, m);
        let these = scan_times(s, vs);
        let j = choose|j: int| 0 <= j < these.len() && these[j] == t;
        assert(all[before.len() + j] == t);
    } else {
        assert(rest[k] == ids[k]);
        lemma_time_of_one(s, own, rest, id, repo, i, k);
        let j = choose|j: int| 0 <= j < before.len() && before[j] == t;
        assert(all[j] == t);
    }
}

/// In a store of scans, whose times can all be read, code that was last scanned before its
/// repository was scanned again is no more: its citations are unresolved.
pub proof fn law_code_missing_from_the_newest_scan(
    s: Seq<GraphRecord>,
    own: Map<Seq<char>, Seq<char>>,
    n: NodeRecord,
    l: EvidenceLinkView,
    id: Seq<char>,
    r: int,
    x: (i64, u32),
)
    requires
        names(l, id),
        scans_only(s),
        scanned_on(s, r, x),
        s[r]->Node_0.kind == NodeKind::Repository,
        owner(own, s[r]->Node_0.id@) == owner(own, id),
        forall|k: int|
            0 <= k < s.len() && (#[trigger] s[k]) is Node && s[k]->Node_0.valid_time is Some
                && s[k]->Node_0.valid_time->0@.len() > 0 ==> rfc3339_instant_of(
                s[k]->Node_0.valid_time->0@,
            ) is Some && !sooner(x, rfc3339_instant_of(s[k]->Node_0.valid_time->0@)->0),
        forall|k: int| #[trigger] code_version(s, k, id) ==> !scanned_on(s, k, x),
    ensures
        !live_handle(s, own, id),
        classify(s, own, n, l).verdict == FreshnessVerdict::Unresolved,
{
    lemma_no_commits(s, own);
    lemma_listed(s, id);
    let vs = versions_of(s, id);
    let repo = owner(own, id);
    let ids = in_order(|y: Seq<char>| at_tips(s, own, y));
    let a = handle_times(s, own, ids, repo);
    let b = repository_times(s, own, repo);
    lemma_handle_times(s, own, ids, repo, x);
    lemma_repository_times(s, own, repo, x);
    let times = a + b;
    assert forall|m: int| 0 <= m < times.len() implies rfc3339_instant_of(
        #[trigger] times[m],
    ) is Some && !sooner(x, rfc3339_instant_of(times[m])->0) by {
        if m < a.len() {
            assert(times[m] == a[m]);
        } else {
            assert(times[m] == b[m - a.len()]);
        }
    }
    lemma_latest(times);
    assert(frontier(s, own, repo) == latest(times));
    assert(s[r] is Node);
    let at = choose|m: int| 0 <= m < b.len() && b[m] == s[r]->Node_0.valid_time->0@;
    assert(times[a.len() + at] == b[at]);
    let f = latest(times)->0;
    assert(times.contains(f));
    let has = |q: GraphRecord| commit_of(q) is Some;
    if some_version(s, vs, has) {
        let m = choose|m: int| 0 <= m < vs.len() && has(s[#[trigger] vs[m]]);
        assert(code_version(s, vs[m], id));
    }
    let seen = |q: GraphRecord| crate::evidence_freshness::scanned_at(q, f);
    if some_version(s, vs, seen) {
        let m = choose|m: int| 0 <= m < vs.len() && seen(s[#[trigger] vs[m]]);
        assert(code_version(s, vs[m], id));
        assert(s[vs[m]] is Node);
        assert(scanned_on(s, vs[m], x));
    }
    assert(cited(s, own, l) == Some(id));
    reveal(classify);
}

// ---------------------------------------------------------------------------
// Citations by place
// ---------------------------------------------------------------------------

/// Whether a version of the code lay at the place at the commit: at the path and, where a span is
/// given, exactly there; where none is, it is the file.
pub open spec fn was_at(
    s: Seq<GraphRecord>,
    i: int,
    id: Seq<char>,
    path: Seq<char>,
    span: Option<SourceSpan>,
    c: Seq<char>,
) -> bool {
    &&& code_version(s, i, id)
    &&& s[i]->Node_0.temporal is Some && s[i]->Node_0.temporal->0.git_commit@ == c
    &&& s[i]->Node_0.repo_relative_path is Some && s[i]->Node_0.repo_relative_path->0@ == path
    &&& if span is Some {
        s[i]->Node_0.span == span
    } else {
        s[i]->Node_0.kind == NodeKind::File
    }
}

/// Whether the link names no record but a place at a commit.
pub open spec fn places(l: EvidenceLinkView, path: Seq<char>, c: Seq<char>) -> bool {
    &&& l.target_record_id is None || l.target_record_id->0.len() == 0
    &&& l.target_repo_relative_path == Some(path)
    &&& c.len() > 0
    &&& l.target_git_commit == Some(c) || ((l.target_git_commit is None
        || l.target_git_commit->0.len() == 0) && l.as_of_commit == Some(c))
}

/// A citation of a place at a commit is one of the code that lay there, where only one did: the
/// verdict is that on the citation which names the code.
pub proof fn law_place_stands_for_the_code_there(
    s: Seq<GraphRecord>,
    own: Map<Seq<char>, Seq<char>>,
    n: NodeRecord,
    l: EvidenceLinkView,
    id: Seq<char>,
    i: int,
    path: Seq<char>,
    c: Seq<char>,
)
    requires
        places(l, path, c),
        was_at(s, i, id, path, l.target_span, c),
        id.len() > 0,
        forall|k: int, other: Seq<char>| #[trigger]
            was_at(s, k, other, path, l.target_span, c) ==> other == id,
    ensures
        ({
            let named = EvidenceLinkView { target_record_id: Some(id), ..l };
            &&& classify(s, own, n, l).verdict == classify(s, own, n, named).verdict
            &&& classify(s, own, n, l).triggering_handle == classify(
                s,
                own,
                n,
                named,
            ).triggering_handle
        }),
{
    let lay = |x: Seq<char>| lay_at(s, path, l.target_span, c, x);
    assert(is_handle_version(s[i], id));
    assert(lay_at(s, path, l.target_span, c, id));
    assert(lay(id));
    assert forall|y: Seq<char>| #[trigger] lay(y) implies y == id by {
        let k = choose|k: int|
            0 <= k < s.len() && is_handle_version(#[trigger] s[k], y) && commit_of(s[k]) == Some(c)
                && crate::evidence_freshness::lies_at(s[k]->Node_0, path, l.target_span);
        assert(was_at(s, k, y, path, l.target_span, c));
    }
    assert(exists|x: Seq<char>| #[trigger] lay(x) && forall|y: Seq<char>| #[trigger]
        lay(y) ==> y == x);
    assert(cited(s, own, l) == Some(id));
    let named = EvidenceLinkView { target_record_id: Some(id), ..l };
    assert(cited(s, own, named) == Some(id));
    reveal(classify);
}

/// A citation of a place at which two pieces of code lay at the commit does not resolve.
pub proof fn law_shared_place_does_not_resolve(
    s: Seq<GraphRecord>,
    own: Map<Seq<char>, Seq<char>>,
    n: NodeRecord,
    l: EvidenceLinkView,
    a: Seq<char>,
    b: Seq<char>,
    i: int,
    j: int,
    path: Seq<char>,
    c: Seq<char>,
)
    requires
        places(l, path, c),
        was_at(s, i, a, path, l.target_span, c),
        was_at(s, j, b, path, l.target_span, c),
        a != b,
    ensures
        classify(s, own, n, l).verdict == FreshnessVerdict::Unresolved,
        classify(s, own, n, l).triggering_handle == Some(TriggerView::HandleAbsent),
{
    let lay = |x: Seq<char>| lay_at(s, path, l.target_span, c, x);
    assert(is_handle_version(s[i], a));
    assert(is_handle_version(s[j], b));
    assert(lay_at(s, path, l.target_span, c, a));
    assert(lay(a));
    assert(lay(b));
    assert(cited(s, own, l) is None);
    reveal(classify);
}

/// A citation that names neither a record nor a path does not resolve.
pub proof fn law_citation_of_nothing_does_not_resolve(
    s: Seq<GraphRecord>,
    own: Map<Seq<char>, Seq<char>>,
    n: NodeRecord,
    l: EvidenceLinkView,
)
    requires
        l.target_record_id is None || l.target_record_id->0.len() == 0,
        l.target_repo_relative_path is None,
    ensures
        classify(s, own, n, l).verdict == FreshnessVerdict::Unresolved,
        classify(s, own, n, l).triggering_handle == Some(TriggerView::HandleAbsent),
{
    reveal(classify);
}

// ---------------------------------------------------------------------------
// What an entry tells
// ---------------------------------------------------------------------------

/// An entry tells of its observation and of the link as they are, and warns of what is stale and
/// of nothing else.
pub proof fn law_entry_tells_of_its_citation(
    s: Seq<GraphRecord>,
    own: Map<Seq<char>, Seq<char>>,
    n: NodeRecord,
    l: EvidenceLinkView,
)
    ensures
        ({
            let e = classify(s, own, n, l);
            &&& e.observation_id == n.id@
            &&& n.kind == NodeKind::Observation ==> e.kind == "Observation"@
            &&& n.kind == NodeKind::Decision ==> e.kind == "Decision"@
            &&& (e.provenance.agent_id is Some <==> n.agent_id is Some)
            &&& (n.agent_id is Some ==> e.provenance.agent_id->0 == n.agent_id->0@)
            &&& (e.provenance.session_id is Some <==> n.session_id is Some)
            &&& (n.session_id is Some ==> e.provenance.session_id->0 == n.session_id->0@)
            &&& (e.provenance.observed_at is Some <==> n.observed_at is Some)
            &&& (n.observed_at is Some ==> e.provenance.observed_at->0 == n.observed_at->0@)
            &&& (e.provenance.confidence is Some <==> n.confidence is Some)
            &&& (n.confidence is Some ==> e.provenance.confidence->0 == n.confidence->0@)
            &&& (e.provenance.redaction_policy_version is Some <==> n.redaction_policy_version
                is Some)
            &&& (n.redaction_policy_version is Some
                ==> e.provenance.redaction_policy_version->0 == n.redaction_policy_version->0@)
            &&& e.cited_handle.relation == l.relation
            &&& e.cited_handle.target_domain == l.target_domain
            &&& (l.target_record_id is Some && l.target_record_id->0.len() > 0
                ==> e.cited_handle.target_record_id == l.target_record_id)
            &&& (l.target_repo_relative_path is Some ==> e.cited_handle.repo_relative_path
                == l.target_repo_relative_path)
            &&& (l.target_span is Some ==> e.cited_handle.span == l.target_span)
            &&& (l.as_of_commit is Some && l.as_of_commit->0.len() > 0
                ==> e.cited_handle.anchor_commit == l.as_of_commit)
            &&& ((l.as_of_commit is None || l.as_of_commit->0.len() == 0)
                && l.target_git_commit is Some && l.target_git_commit->0.len() > 0
                ==> e.cited_handle.anchor_commit == l.target_git_commit)
            &&& (e.verdict == FreshnessVerdict::Drifted || e.verdict
                == FreshnessVerdict::Unresolved ==> e.freshness_lead == Some(FRESHNESS_LEAD@)
                && e.triggering_handle is Some)
            &&& (e.verdict == FreshnessVerdict::Current || e.verdict
                == FreshnessVerdict::Untemporal ==> e.freshness_lead is None
                && e.triggering_handle is None)
        }),
{
    reveal(classify);
}

/// Whether the text says nothing.
pub open spec fn blank(t: Option<String>) -> bool {
    t is None || t->0@.len() == 0
}

/// Whether the link is anchored at no commit.
pub open spec fn unanchored(l: EvidenceLinkView) -> bool {
    &&& l.as_of_commit is None || l.as_of_commit->0.len() == 0
    &&& l.target_git_commit is None || l.target_git_commit->0.len() == 0
}

/// A citation of code that is there, without a commit, is judged by the time of the observation:
/// the time for which it holds, else the time at which it was made, else that at which it was
/// recorded. Without any of these nothing can be said.
pub proof fn law_time_of_a_citation(
    s: Seq<GraphRecord>,
    own: Map<Seq<char>, Seq<char>>,
    n: NodeRecord,
    l: EvidenceLinkView,
    id: Seq<char>,
)
    requires
        names(l, id),
        unanchored(l),
        live_handle(s, own, id),
    ensures
        ({
            let e = classify(s, own, n, l);
            let t = e.cited_handle.anchor_valid_time;
            &&& !blank(n.valid_time) ==> t == Some(n.valid_time->0@)
            &&& blank(n.valid_time) && !blank(n.observed_at) ==> t == Some(n.observed_at->0@)
            &&& blank(n.valid_time) && blank(n.observed_at) && !blank(n.ingested_at) ==> t == Some(
                n.ingested_at->0@,
            )
            &&& blank(n.valid_time) && blank(n.observed_at) && blank(n.ingested_at) <==> e.verdict
                == FreshnessVerdict::Untemporal
        }),
{
    reveal(classify);
    assert(cited(s, own, l) == Some(id));
}

} // verus!
