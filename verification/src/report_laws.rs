//! What the reports tell, said of the records that they are made from.

use vstd::prelude::*;

use crate::commit_view::{begins_with, beginning_with, last_before, records_without};
use crate::freshness_query::{
    belongs, code_item, counts_of, lies_under, scope_failure, scope_of, told, CitationVerdict,
    CitationView, ScopeView, VerdictCounts,
};
use crate::inventories::{counts_panics, counts_unsafe, PanicCounts, SiteRowView, UnsafeCounts};
use crate::ir::{GraphRecord, NodeKind, NodeRecord};
use crate::outside::lowercase_of;
use crate::reach::{
    chain_text, corpus_mode_name, diagnostic_before, lead_row, narrowed, target_of, unresolved_row,
    ConstructorRow, CorpusMode, DiagnosticView, HandleFailureView, HandleKind, LeadRowView,
    NarrowedView, PathStepView, ReachedRecord, TargetView, UnresolvedEdge, Verb,
};
use crate::reach_report::{direction_of, labels_of, tells_site, ConstructionSite};
use crate::repository::owner;
use crate::subsystem::{drift_row, prefix_failure, topology_row, FoundDrift, PrefixOutcome};
use crate::symbol_results::{
    asked_for, in_question, path_before, picked, result_row, PickView, QuestionView,
    SymbolResultView,
};
use crate::text::{has_prefix, lex_lt, opt_view};

verus! {

// ---------------------------------------------------------------------------
// Reach
// ---------------------------------------------------------------------------

/// Only a symbol is followed, and only where one is meant: a file, a task and a source are refused,
/// what is not found is stale or no match, and what may be more than one is ambiguous.
pub proof fn law_what_is_followed(
    verb: Verb,
    kind: HandleKind,
    anchors: Seq<Seq<char>>,
    stale: bool,
)
    ensures
        ({
            let t = target_of(verb, kind, anchors, stale, None);
            &&& kind != HandleKind::Symbol ==> t is Failed && t->Failed_0 is Unsupported
            &&& kind == HandleKind::Symbol && anchors.len() == 1 ==> t == TargetView::Anchor(
                anchors[0],
            )
            &&& kind == HandleKind::Symbol && anchors.len() == 0 && stale ==> t
                == TargetView::Failed(HandleFailureView::StaleHandle)
            &&& kind == HandleKind::Symbol && anchors.len() == 0 && !stale ==> t
                == TargetView::Failed(HandleFailureView::NoMatch)
            &&& kind == HandleKind::Symbol && anchors.len() > 1 ==> t == TargetView::Failed(
                HandleFailureView::Ambiguous(anchors),
            )
        }),
{
}

/// A row of what was reached tells of the record: what it is, where it lies, when and at which
/// commit it was seen, and how far off it is.
pub proof fn law_rows_tell_of_what_was_reached(r: ReachedRecord, n: NodeRecord)
    requires
        r.record == GraphRecord::Node(n),
    ensures
        ({
            let row = lead_row(r);
            &&& row is Some
            &&& row->0.record_id == n.id@ && row->0.name == opt_view(n.name)
            &&& row->0.repo_relative_path == opt_view(n.repo_relative_path) && row->0.span == n.span
            &&& n.valid_time is Some ==> row->0.valid_time == Some(n.valid_time->0@)
            &&& n.valid_time is None && n.temporal is Some ==> row->0.valid_time == Some(
                n.temporal->0.valid_time@,
            )
            &&& n.temporal is Some ==> row->0.git_commit == Some(n.temporal->0.git_commit@)
            &&& n.temporal is None ==> row->0.git_commit is None
            &&& row->0.hop == r.hop && row->0.path_resolution == opt_view(r.path_resolution)
            &&& row->0.path.len() == r.path@.len()
        }),
{
}

/// A row of what could not be followed tells of the edge, and of the marker where there is one.
pub proof fn law_rows_tell_of_what_was_not_followed(e: UnresolvedEdge, n: NodeRecord)
    ensures
        ({
            let row = unresolved_row(e);
            &&& row.relation == e.relation@ && row.reason == e.reason@
            &&& row.source_record_id == e.source_id@ && row.target_record_id == e.target_id@
            &&& row.edge_record_id == e.edge_id@ && row.source_hop == e.source_hop
            &&& row.resolution == opt_view(e.resolution)
            &&& e.marker == Some(GraphRecord::Node(n)) ==> row.record_id == Some(n.id@) && row.name
                == opt_view(n.name) && row.repo_relative_path == opt_view(n.repo_relative_path)
                && row.span == n.span
            &&& e.marker is None ==> row.record_id is None && row.name is None && row.span is None
        }),
{
}

/// Callers are followed against the edges and callees along them, each over its own labels.
pub proof fn law_each_walk_has_its_direction()
    ensures
        direction_of(Verb::TransitiveCallers) == "inbound"@,
        direction_of(Verb::TransitiveCallees) == "outbound"@,
        direction_of(Verb::WhoConstructs) == "inbound"@,
        labels_of(Verb::TransitiveCallers).contains("CALLS"@),
        labels_of(Verb::TransitiveCallees).contains("CALLS"@),
        labels_of(Verb::TransitiveCallers).contains("REFERENCES"@),
        labels_of(Verb::TransitiveCallees).contains("REFERENCES"@),
        labels_of(Verb::TransitiveCallees).contains("IMPLEMENTS"@),
        labels_of(Verb::TransitiveCallees).contains("IMPORTS"@),
        labels_of(Verb::WhoConstructs) == seq!["CONSTRUCTS"@],
        labels_of(Verb::TransitiveCallers).len() == 2,
        labels_of(Verb::TransitiveCallees).len() == 4,
{
    assert(labels_of(Verb::TransitiveCallers)[0] == "CALLS"@);
    assert(labels_of(Verb::TransitiveCallers)[1] == "REFERENCES"@);
    assert(labels_of(Verb::TransitiveCallees)[0] == "CALLS"@);
    assert(labels_of(Verb::TransitiveCallees)[1] == "IMPLEMENTS"@);
    assert(labels_of(Verb::TransitiveCallees)[2] == "IMPORTS"@);
    assert(labels_of(Verb::TransitiveCallees)[3] == "REFERENCES"@);
}

/// A way of one step is told in the direction of the edge: towards the target where callers are
/// asked for, from the target where callees are.
pub proof fn law_ways_are_told_along_the_edges(
    target: Seq<char>,
    name: Seq<char>,
    row: LeadRowView,
    step: PathStepView,
)
    requires
        row.record_id != target,
        row.name is Some,
    ensures
        step.source_record_id == row.record_id && step.target_record_id == target ==> chain_text(
            Verb::TransitiveCallers,
            target,
            Some(name),
            seq![row],
            seq![step],
        ) == ""@ + row.name->0 + " -"@ + step.edge_label + "-> "@ + name,
        step.source_record_id == target && step.target_record_id == row.record_id ==> chain_text(
            Verb::TransitiveCallees,
            target,
            Some(name),
            seq![row],
            seq![step],
        ) == name + " -"@ + step.edge_label + "-> "@ + row.name->0,
{
    reveal_with_fuel(crate::reach::chain_in, 2);
    reveal_with_fuel(crate::reach::chain_out, 2);
    reveal_with_fuel(crate::reach::name_shown, 2);
    assert(seq![row][0] == row);
    assert(seq![step][0] == step);
}

/// Diagnostics go by their code, then by the record, by the handle and by the relation.
pub proof fn law_order_of_diagnostics(a: DiagnosticView, b: DiagnosticView)
    ensures
        lex_lt(a.code, b.code) ==> diagnostic_before(a, b),
        a.code == b.code && lex_lt(a.source_record_id, b.source_record_id) ==> diagnostic_before(
            a,
            b,
        ),
        a.code == b.code && a.source_record_id == b.source_record_id && lex_lt(
            a.target_handle,
            b.target_handle,
        ) ==> diagnostic_before(a, b),
        a.code == b.code && a.source_record_id == b.source_record_id && a.target_handle
            == b.target_handle ==> (diagnostic_before(a, b) <==> lex_lt(a.relation, b.relation)),
{
    crate::text::lemma_lex_irreflexive(a.code);
    crate::text::lemma_lex_irreflexive(a.source_record_id);
    crate::text::lemma_lex_irreflexive(a.target_handle);
}

/// A construction is at risk exactly where it is not known to leave fields out.
pub proof fn law_constructions_at_risk(row: ConstructorRow, s: ConstructionSite)
    requires
        tells_site(row, s),
    ensures
        row.e0063_risk <==> s.is_exhaustive is None || s.is_exhaustive == Some(true),
        row.is_exhaustive == s.is_exhaustive,
        row.record_id@ == s.record_id@,
        row.edge_record_id@ == s.edge_id@,
{
    if s.is_exhaustive is Some {
        let all = s.is_exhaustive->0;
        assert(all || !all);
        assert(s.is_exhaustive == Some(all));
    }
}

// ---------------------------------------------------------------------------
// Commits
// ---------------------------------------------------------------------------

/// The commit that is taken for an instant is not after it, and no other that is not after it is
/// later.
pub proof fn law_latest_commit_is_taken(
    times: Seq<Option<(i64, u32)>>,
    at: (i64, u32),
    n: int,
    j: int,
    u: (i64, u32),
)
    requires
        0 <= n <= times.len(),
        0 <= j < n,
        times[j] == Some(u),
        u.0 < at.0 || (u.0 == at.0 && u.1 <= at.1),
    ensures
        last_before(times, at, n) is Some,
        ({
            let k = last_before(times, at, n)->0;
            let t = times[k]->0;
            &&& 0 <= k < n
            &&& times[k] is Some
            &&& t.0 < at.0 || (t.0 == at.0 && t.1 <= at.1)
            &&& u.0 < t.0 || (u.0 == t.0 && u.1 <= t.1)
            &&& u == t ==> k <= j
        }),
    decreases n,
{
    if j < n - 1 {
        law_latest_commit_is_taken(times, at, n - 1, j, u);
    } else {
        lemma_taken(times, at, n - 1);
    }
}

proof fn lemma_taken(times: Seq<Option<(i64, u32)>>, at: (i64, u32), n: int)
    requires
        0 <= n <= times.len(),
    ensures
        match last_before(times, at, n) {
            Some(k) => 0 <= k < n && times[k] is Some && ({
                let t = times[k]->0;
                t.0 < at.0 || (t.0 == at.0 && t.1 <= at.1)
            }),
            None => true,
        },
    decreases n,
{
    if n > 0 {
        lemma_taken(times, at, n - 1);
    }
}

/// A prefix stands for the commits that begin with it, whatever the case of the letters.
pub proof fn law_prefix_stands_for_its_commits(commits: Seq<Seq<char>>, prefix: Seq<char>, n: int, j: int)
    requires
        0 <= j < n <= commits.len(),
    ensures
        has_prefix(lowercase_of(commits[j]), lowercase_of(prefix)) ==> beginning_with(
            commits,
            prefix,
            n,
        ).contains(commits[j]),
        forall|k: int|
            0 <= k < beginning_with(commits, prefix, n).len() ==> has_prefix(
                lowercase_of(#[trigger] beginning_with(commits, prefix, n)[k]),
                lowercase_of(prefix),
            ) && commits.contains(beginning_with(commits, prefix, n)[k]),
    decreases n,
{
    let all = beginning_with(commits, prefix, n);
    let rest = beginning_with(commits, prefix, n - 1);
    if n - 1 > 0 {
        law_prefix_stands_for_its_commits(commits, prefix, n - 1, if j < n - 1 {
            j
        } else {
            0
        });
    }
    if j < n - 1 && has_prefix(lowercase_of(commits[j]), lowercase_of(prefix)) {
        let m = choose|m: int| 0 <= m < rest.len() && rest[m] == commits[j];
        assert(all[m] == commits[j]);
    }
    if begins_with(commits[n - 1], prefix) {
        assert(all[rest.len() as int] == commits[n - 1]);
    }
    assert forall|k: int| 0 <= k < all.len() implies has_prefix(
        lowercase_of(#[trigger] all[k]),
        lowercase_of(prefix),
    ) && commits.contains(all[k]) by {
        if k < rest.len() {
            assert(all[k] == rest[k]);
        } else {
            assert(commits[n - 1] == all[k]);
        }
    }
}

proof fn lemma_without(s: Seq<GraphRecord>, ids: Seq<Seq<char>>, i: int)
    requires
        0 <= i < s.len(),
        !ids.contains(crate::ir::record_id(s[i])),
    ensures
        records_without(s, ids).contains(s[i]@),
    decreases s.len(),
{
    let t = s.drop_last();
    let all = records_without(s, ids);
    let rest = records_without(t, ids);
    if i < s.len() - 1 {
        assert(t[i] == s[i]);
        lemma_without(t, ids, i);
        let m = choose|m: int| 0 <= m < rest.len() && rest[m] == s[i]@;
        assert(all[m] == s[i]@);
    } else {
        assert(all[rest.len() as int] == s[i]@);
    }
}

/// Without a pin the whole store is looked at; anchored at the head it is looked at without what is
/// not there any more.
pub proof fn law_which_records_are_looked_at(
    s: Seq<GraphRecord>,
    own: Map<Seq<char>, Seq<char>>,
    scope: Option<Seq<char>>,
    gone: Seq<Seq<char>>,
    i: int,
)
    requires
        0 <= i < s.len(),
    ensures
        narrowed(s, CorpusMode::Union, own, scope, None, gone) == NarrowedView::Records(
            None,
            crate::ir::record_views(s),
        ),
        narrowed(s, CorpusMode::SingleSnapshot, own, scope, None, gone) == NarrowedView::Records(
            None,
            crate::ir::record_views(s),
        ),
        narrowed(s, CorpusMode::HeadAnchored, own, scope, None, gone) is Records,
        !gone.contains(crate::ir::record_id(s[i])) ==> narrowed(
            s,
            CorpusMode::HeadAnchored,
            own,
            scope,
            None,
            gone,
        )->Records_1.contains(s[i]@),
        corpus_mode_name(CorpusMode::HeadAnchored) == "head_anchored"@,
        corpus_mode_name(CorpusMode::Union) == "union"@,
        corpus_mode_name(CorpusMode::CommitPinned) == "commit_pinned"@,
        corpus_mode_name(CorpusMode::SingleSnapshot) == "single_snapshot"@,
{
    if !gone.contains(crate::ir::record_id(s[i])) {
        lemma_without(s, gone, i);
    }
}

// ---------------------------------------------------------------------------
// Symbols
// ---------------------------------------------------------------------------

/// A symbol is found exactly where it has a name that is asked for, lies in the repository that is
/// asked for where one is, and is not retracted unless its version carries a commit.
pub proof fn law_which_symbols_are_found(
    n: NodeRecord,
    name: Seq<char>,
    deleted: Seq<Seq<char>>,
    own: Map<Seq<char>, Seq<char>>,
    repo: Seq<char>,
)
    ensures
        in_question(GraphRecord::Node(n), QuestionView::Exactly(name), deleted, own, None)
            <==> n.kind == NodeKind::Symbol && n.name is Some && n.name->0@ == name && (n.temporal
            is Some || !deleted.contains(n.id@)),
        in_question(GraphRecord::Node(n), QuestionView::Exactly(name), deleted, own, Some(repo))
            <==> in_question(
            GraphRecord::Node(n),
            QuestionView::Exactly(name),
            deleted,
            own,
            None,
        ) && own.dom().contains(n.id@) && own[n.id@] == repo,
        asked_for(QuestionView::OneOf(seq![name]), Some(name)),
        !asked_for(QuestionView::Exactly(name), None),
{
    assert(seq![name][0] == name);
}

/// The row of a symbol tells of the symbol.
pub proof fn law_results_tell_of_their_symbol(
    n: NodeRecord,
    own: Map<Seq<char>, Seq<char>>,
    displays: Map<Seq<char>, Seq<char>>,
    table: Seq<(Seq<char>, Seq<char>)>,
)
    ensures
        ({
            let r = result_row(n, own, displays, table);
            &&& r.record_id == n.id@ && r.repo_relative_path == opt_view(n.repo_relative_path)
            &&& n.name is Some ==> r.name == n.name->0@
            &&& r.span == n.span && r.visibility == opt_view(n.visibility)
            &&& r.signature == opt_view(n.signature) && r.doc == opt_view(n.doc)
            &&& n.temporal is Some ==> r.git_commit == Some(n.temporal->0.git_commit@)
            &&& own.dom().contains(n.id@) ==> r.repository_id == Some(own[n.id@])
            &&& own.dom().contains(n.id@) && displays.dom().contains(own[n.id@]) ==> r.repository
                == Some(displays[own[n.id@]])
            &&& !own.dom().contains(n.id@) ==> r.repository_id is None && r.repository is None
        }),
{
}

/// Results go by path, then by line, those without a place first, then by identifier.
pub proof fn law_order_of_results(a: SymbolResultView, b: SymbolResultView)
    ensures
        a.repo_relative_path is Some && b.repo_relative_path is Some && lex_lt(
            a.repo_relative_path->0,
            b.repo_relative_path->0,
        ) ==> path_before(a, b),
        a.repo_relative_path is None && b.repo_relative_path is Some ==> path_before(a, b)
            && !path_before(b, a),
        a.repo_relative_path == b.repo_relative_path && a.span is Some && b.span is Some
            && a.span->0.start_line < b.span->0.start_line ==> path_before(a, b),
        a.repo_relative_path == b.repo_relative_path && a.span is None && b.span is Some
            ==> path_before(a, b) && !path_before(b, a),
        a.repo_relative_path == b.repo_relative_path && a.span == b.span ==> (path_before(a, b)
            <==> lex_lt(a.record_id, b.record_id)),
{
    if a.repo_relative_path is Some {
        crate::text::lemma_lex_irreflexive(a.repo_relative_path->0);
    }
}

/// The first of what is found is taken where all of it is of one repository; of more than one it is
/// not guessed; where a repository is asked for, the first that it owns is taken.
pub proof fn law_which_find_is_taken(
    ids: Seq<Seq<char>>,
    own: Map<Seq<char>, Seq<char>>,
    repo: Seq<char>,
    i: int,
)
    requires
        0 <= i < ids.len(),
    ensures
        owner(own, ids[i]) != owner(own, ids[0]) ==> picked(ids, own, None)
            == PickView::AmbiguousRepository,
        (forall|k: int| 0 <= k < ids.len() ==> owner(own, #[trigger] ids[k]) == owner(own, ids[0]))
            ==> picked(ids, own, None) == PickView::Found(0),
        owner(own, ids[i]) == Some(repo) && (forall|k: int|
            0 <= k < i ==> owner(own, #[trigger] ids[k]) != Some(repo)) ==> picked(
            ids,
            own,
            Some(repo),
        ) == PickView::Found(i),
        (forall|k: int| 0 <= k < ids.len() ==> owner(own, #[trigger] ids[k]) != Some(repo))
            ==> picked(ids, own, Some(repo)) == PickView::Nothing,
{
    if owner(own, ids[i]) == Some(repo) && (forall|k: int|
        0 <= k < i ==> owner(own, #[trigger] ids[k]) != Some(repo)) {
        lemma_first_owned(ids, own, repo, 0, i);
    }
    if forall|k: int| 0 <= k < ids.len() ==> owner(own, #[trigger] ids[k]) != Some(repo) {
        lemma_none_owned(ids, own, repo, 0);
    }
}

proof fn lemma_first_owned(
    ids: Seq<Seq<char>>,
    own: Map<Seq<char>, Seq<char>>,
    repo: Seq<char>,
    n: int,
    i: int,
)
    requires
        0 <= n <= i < ids.len(),
        owner(own, ids[i]) == Some(repo),
        forall|k: int| 0 <= k < i ==> owner(own, #[trigger] ids[k]) != Some(repo),
    ensures
        crate::symbol_results::first_owned(ids, own, repo, n) == Some(i),
    decreases i - n,
{
    if n < i {
        assert(owner(own, ids[n]) != Some(repo));
        lemma_first_owned(ids, own, repo, n + 1, i);
    }
}

proof fn lemma_none_owned(
    ids: Seq<Seq<char>>,
    own: Map<Seq<char>, Seq<char>>,
    repo: Seq<char>,
    n: int,
)
    requires
        0 <= n <= ids.len(),
        forall|k: int| 0 <= k < ids.len() ==> owner(own, #[trigger] ids[k]) != Some(repo),
    ensures
        crate::symbol_results::first_owned(ids, own, repo, n) is None,
    decreases ids.len() - n,
{
    if n < ids.len() {
        assert(owner(own, ids[n]) != Some(repo));
        lemma_none_owned(ids, own, repo, n + 1);
    }
}

// ---------------------------------------------------------------------------
// Freshness of verifications
// ---------------------------------------------------------------------------

/// How many citations have the verdict.
pub open spec fn with_verdict(es: Seq<CitationView>, v: CitationVerdict) -> nat {
    es.filter(|e: CitationView| e.verdict == v).len()
}

proof fn lemma_often(es: Seq<CitationView>, v: CitationVerdict, n: int)
    requires
        0 <= n <= es.len(),
    ensures
        crate::freshness_query::how_often(es, v, n) == with_verdict(es.take(n), v),
    decreases n,
{
    reveal(Seq::filter);
    let p = |e: CitationView| e.verdict == v;
    if n > 0 {
        lemma_often(es, v, n - 1);
        assert(es.take(n).drop_last() =~= es.take(n - 1));
        assert(es.take(n).last() == es[n - 1]);
        assert(es.take(n - 1).filter(p).len() == with_verdict(es.take(n - 1), v));
    } else {
        assert(es.take(0) =~= Seq::<CitationView>::empty());
        assert(es.take(0).filter(p).len() == 0);
    }
}

/// Each citation is counted under its verdict; where only what needs attention is asked for, that is
/// what is stale or unresolved, and nothing else.
pub proof fn law_citations_are_counted_by_verdict(es: Seq<CitationView>, c: VerdictCounts)
    requires
        counts_of(es, c),
    ensures
        c.current == with_verdict(es, CitationVerdict::Current),
        c.stale == with_verdict(es, CitationVerdict::Stale),
        c.unresolved == with_verdict(es, CitationVerdict::Unresolved),
        c.unanchored == with_verdict(es, CitationVerdict::Unanchored),
        told(es, false) == es,
        told(es, true) == es.filter(
            |e: CitationView|
                e.verdict == CitationVerdict::Stale || e.verdict == CitationVerdict::Unresolved,
        ),
{
    assert(es.take(es.len() as int) =~= es);
    lemma_often(es, CitationVerdict::Current, es.len() as int);
    lemma_often(es, CitationVerdict::Stale, es.len() as int);
    lemma_often(es, CitationVerdict::Unresolved, es.len() as int);
    lemma_often(es, CitationVerdict::Unanchored, es.len() as int);
    let p = |e: CitationView| crate::freshness_query::needs_attention(e.verdict);
    let q = |e: CitationView|
        e.verdict == CitationVerdict::Stale || e.verdict == CitationVerdict::Unresolved;
    assert(p =~= q);
}

/// What lies under a path is the path itself and what follows it behind a slash; what only begins
/// with the same letters does not.
pub proof fn law_what_lies_under_a_path(path: Seq<char>, dir: Seq<char>, rest: Seq<char>)
    requires
        dir.len() > 0,
        dir.last() != '/',
    ensures
        lies_under(dir, dir),
        lies_under(dir + "/"@ + rest, dir),
        rest.len() > 0 && rest[0] != '/' ==> !lies_under(dir + rest, dir),
        lies_under(path, dir) ==> path == dir || has_prefix(path, dir + "/"@),
{
    reveal_strlit("/");
    let whole = dir + "/"@ + rest;
    assert(whole.take((dir + "/"@).len() as int) =~= dir + "/"@);
    if rest.len() > 0 && rest[0] != '/' {
        let w = dir + rest;
        assert(w.len() > dir.len());
        assert(w[dir.len() as int] == rest[0]);
        if has_prefix(w, dir + "/"@) {
            assert(w.take((dir + "/"@).len() as int)[dir.len() as int] == '/');
        }
    }
}

/// A citation belongs to a repository where the verification and what it cites are of it, as far as
/// either is of one.
pub proof fn law_whose_a_citation_is(
    es: Seq<CitationView>,
    own: Map<Seq<char>, Seq<char>>,
    repo: Seq<char>,
    e: CitationView,
)
    ensures
        own.dom().contains(e.verification_record_id) && own[e.verification_record_id] != repo
            ==> !belongs(es, own, repo, e),
        own.dom().contains(e.verification_record_id) && own[e.verification_record_id] == repo
            && e.target_record_id is None ==> belongs(es, own, repo, e),
        e.target_record_id is Some && own.dom().contains(e.target_record_id->0)
            && own[e.target_record_id->0] != repo ==> !belongs(es, own, repo, e),
        e.target_record_id is Some && own.dom().contains(e.target_record_id->0)
            && own[e.target_record_id->0] == repo && !own.dom().contains(e.verification_record_id)
            ==> belongs(es, own, repo, e),
{
}

/// An identifier of a symbol or of a file means that alone, before any name or path; without a
/// scope everything is meant. A scope that fails ends with its own code.
pub proof fn law_what_a_scope_means(
    s: Seq<GraphRecord>,
    own: Map<Seq<char>, Seq<char>>,
    live: Seq<Seq<char>>,
    x: Seq<char>,
    i: int,
)
    requires
        0 <= i < s.len(),
        s[i] is Node,
        s[i]->Node_0.kind == NodeKind::Symbol || s[i]->Node_0.kind == NodeKind::File,
        s[i]->Node_0.id@ == x,
    ensures
        scope_of(s, own, None, live, Some(x)) == (ScopeView::Matched {
            ids: seq![x],
            path_prefix: None,
        }),
        scope_of(s, own, None, live, None) == ScopeView::All,
        scope_failure(ScopeView::NotFoundPath) == Some(("scope_not_found"@, 2u8)),
        scope_failure(ScopeView::NoMatch) == Some(("no_match"@, 2u8)),
        scope_failure(ScopeView::Ambiguous { candidates: live }) == Some(("ambiguous_scope"@, 1u8)),
        scope_failure(ScopeView::All) is None,
{
    assert(code_item(s[i], own, None));
}

// ---------------------------------------------------------------------------
// Inventories
// ---------------------------------------------------------------------------

/// How many rows are of the category.
pub open spec fn in_category(rows: Seq<SiteRowView>, c: Seq<char>) -> nat {
    rows.filter(|r: SiteRowView| r.category == c).len()
}

/// How many rows are of the context.
pub open spec fn in_context(rows: Seq<SiteRowView>, c: Seq<char>) -> nat {
    rows.filter(|r: SiteRowView| r.context == Some(c)).len()
}

proof fn lemma_category(rows: Seq<SiteRowView>, c: Seq<char>, n: int)
    requires
        0 <= n <= rows.len(),
    ensures
        crate::inventories::of_category(rows, c, n) == in_category(rows.take(n), c),
        crate::inventories::of_context(rows, c, n) == in_context(rows.take(n), c),
    decreases n,
{
    reveal(Seq::filter);
    let p = |r: SiteRowView| r.category == c;
    let q = |r: SiteRowView| r.context == Some(c);
    if n > 0 {
        lemma_category(rows, c, n - 1);
        assert(rows.take(n).drop_last() =~= rows.take(n - 1));
        assert(rows.take(n).last() == rows[n - 1]);
        assert(rows.take(n - 1).filter(p).len() == in_category(rows.take(n - 1), c));
        assert(rows.take(n - 1).filter(q).len() == in_context(rows.take(n - 1), c));
    } else {
        assert(rows.take(0) =~= Seq::<SiteRowView>::empty());
        assert(rows.take(0).filter(p).len() == 0);
        assert(rows.take(0).filter(q).len() == 0);
    }
}

/// Each site is counted under its category, and each that may panic under its context too.
pub proof fn law_sites_are_counted_by_category(
    rows: Seq<SiteRowView>,
    u: UnsafeCounts,
    p: PanicCounts,
)
    requires
        counts_unsafe(rows, u),
        counts_panics(rows, p),
    ensures
        u.total == rows.len() && p.total == rows.len(),
        u.block == in_category(rows, "block"@),
        u.function == in_category(rows, "fn"@),
        u.implementation == in_category(rows, "impl"@),
        p.unwrap == in_category(rows, "unwrap"@),
        p.expect == in_category(rows, "expect"@),
        p.production == in_context(rows, "production"@),
        p.test == in_context(rows, "test"@),
{
    assert(rows.take(rows.len() as int) =~= rows);
    lemma_category(rows, "block"@, rows.len() as int);
    lemma_category(rows, "fn"@, rows.len() as int);
    lemma_category(rows, "impl"@, rows.len() as int);
    lemma_category(rows, "unwrap"@, rows.len() as int);
    lemma_category(rows, "expect"@, rows.len() as int);
    lemma_category(rows, "production"@, rows.len() as int);
    lemma_category(rows, "test"@, rows.len() as int);
}

// ---------------------------------------------------------------------------
// Subsystems
// ---------------------------------------------------------------------------

/// A row of the structure tells of its edge, from source to target; one of a drift of its
/// measurement.
pub proof fn law_subsystem_rows(e: crate::ir::EdgeRecord, d: FoundDrift, n: NodeRecord)
    ensures
        topology_row(e).record_id == e.id@,
        topology_row(e).source_id == e.source@,
        topology_row(e).target_id == e.target@,
        topology_row(e).summary == e.summary@,
        e.temporal is Some ==> topology_row(e).git_commit == Some(e.temporal->0.git_commit@)
            && topology_row(e).valid_time == Some(e.temporal->0.valid_time@),
        e.temporal is None ==> topology_row(e).git_commit is None && topology_row(e).valid_time
            is None,
        d.record == GraphRecord::Node(n) && n.semantic_drift is Some ==> drift_row(d) is Some
            && drift_row(d)->0.record_id == n.id@ && drift_row(d)->0.score
            == n.semantic_drift->0.score@ && drift_row(d)->0.after_git_commit
            == n.semantic_drift->0.after_git_commit@ && drift_row(d)->0.target_repo_relative_path
            == opt_view(d.path) && drift_row(d)->0.target_span == d.span,
        d.record == GraphRecord::Node(n) && n.semantic_drift is None ==> drift_row(d) is None,
{
}

/// A prefix without anything is malformed and ends with one, one under which nothing lies ends with
/// two.
pub proof fn law_failed_prefixes(p: String, asked: Seq<char>)
    ensures
        prefix_failure(PrefixOutcome::Found, asked) is None,
        prefix_failure(PrefixOutcome::NoMatch, asked) is Some,
        prefix_failure(PrefixOutcome::NoMatch, asked)->0.code == "no_match"@,
        prefix_failure(PrefixOutcome::NoMatch, asked)->0.exit_code == 2,
        prefix_failure(PrefixOutcome::Malformed(p), asked) is Some,
        prefix_failure(PrefixOutcome::Malformed(p), asked)->0.code == "malformed_prefix"@,
        prefix_failure(PrefixOutcome::Malformed(p), asked)->0.exit_code == 1,
{
}

} // verus!
