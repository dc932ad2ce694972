//! What is listed where a commit, a scope or a lane is asked for, said of the records.

use vstd::prelude::*;

use crate::citation_laws::lemma_insert_sorted;
use crate::collections::sorted_strict;
use crate::coverage_query::{commits_beginning, state_at};
use crate::evidence_freshness::in_order;
use crate::freshness_query::{
    belongs, freshness_note_views, lies_under, repo_admits, scope_admits, scope_of,
    tells_freshness, verification_freshness_entry_views, CitationVerdict, CitationView,
    FreshnessReport, ScopeView,
};
use crate::ingest_laws::named;
use crate::inventories::{site_row, tells_inventory, FoundSite, Inventory, InventoryReport, SiteLane};
use crate::ir::{GraphRecord, NodeKind};
use crate::reach_report::Corpus;
use crate::text::{has_prefix, opt_view, views};
use crate::view_laws::made_at_commit;

verus! {

proof fn lemma_gathered(f: spec_fn(int) -> Option<Seq<char>>, n: int) -> (q: Seq<Seq<char>>)
    requires
        0 <= n,
    ensures
        sorted_strict(q),
        forall|x: Seq<char>| #[trigger]
            q.contains(x) <==> exists|i: int| 0 <= i < n && #[trigger] f(i) == Some(x),
    decreases n,
{
    if n == 0 {
        Seq::empty()
    } else {
        let q = lemma_gathered(f, n - 1);
        let here = f(n - 1);
        if here is Some && !q.contains(here->0) {
            lemma_insert_sorted(q, here->0)
        } else {
            q
        }
    }
}

pub proof fn lemma_in_order_of(
    p: spec_fn(Seq<char>) -> bool,
    f: spec_fn(int) -> Option<Seq<char>>,
    n: int,
)
    requires
        0 <= n,
        forall|x: Seq<char>| #[trigger]
            p(x) <==> exists|i: int| 0 <= i < n && #[trigger] f(i) == Some(x),
    ensures
        sorted_strict(in_order(p)),
        forall|x: Seq<char>| #[trigger] in_order(p).contains(x) <==> p(x),
{
    let q = lemma_gathered(f, n);
    assert forall|x: Seq<char>| #[trigger] q.contains(x) <==> p(x) by {}
    assert(sorted_strict(q) && forall|x: Seq<char>| #[trigger] q.contains(x) <==> p(x));
}

// ---------------------------------------------------------------------------
// The state at a commit
// ---------------------------------------------------------------------------

/// Whether the record is of the repository, where one is asked for: a node that it owns, or an edge
/// from or to such a one.
pub open spec fn of_repo(
    r: GraphRecord,
    own: Map<Seq<char>, Seq<char>>,
    repo: Option<Seq<char>>,
) -> bool {
    repo is None || match r {
        GraphRecord::Node(n) => own.dom().contains(n.id@) && own[n.id@] == repo->0,
        GraphRecord::Edge(e) => (own.dom().contains(e.source@) && own[e.source@] == repo->0) || (
        own.dom().contains(e.target@) && own[e.target@] == repo->0),
        GraphRecord::Tombstone(_) => false,
    }
}

/// Whether the `i`-th record is of the repository and was made at the commit.
pub open spec fn made_in(
    s: Seq<GraphRecord>,
    own: Map<Seq<char>, Seq<char>>,
    repo: Option<Seq<char>>,
    i: int,
    sha: Seq<char>,
) -> bool {
    0 <= i < s.len() && of_repo(s[i], own, repo) && made_at_commit(s[i]@) == Some(sha)
}

proof fn lemma_commit(r: GraphRecord)
    ensures
        crate::coverage_query::commit_of(r) == made_at_commit(r@),
{
    reveal(crate::ir::shown);
}

/// A selector stands for the commits that begin with it and that a record of the repository was
/// made at.
pub proof fn law_selectors_stand_for_commits(
    s: Seq<GraphRecord>,
    own: Map<Seq<char>, Seq<char>>,
    repo: Option<Seq<char>>,
    selector: Seq<char>,
    sha: Seq<char>,
)
    ensures
        sorted_strict(commits_beginning(s, own, repo, selector)),
        commits_beginning(s, own, repo, selector).contains(sha) <==> has_prefix(sha, selector) && (
        exists|i: int| #[trigger] made_in(s, own, repo, i, sha)),
{
    let n = s.len() as int;
    let p = |x: Seq<char>| crate::coverage_query::commit_begins(s, own, repo, selector, n, x);
    let f = |i: int|
        {
            let c = made_at_commit(s[i]@);
            if of_repo(s[i], own, repo) && c is Some && has_prefix(c->0, selector) {
                c
            } else {
                None
            }
        };
    assert forall|i: int| 0 <= i < n implies {
        &&& crate::coverage_query::commit_of(#[trigger] s[i]) == made_at_commit(s[i]@)
        &&& crate::coverage_query::of_repository(s[i], own, repo) == of_repo(s[i], own, repo)
    } by {
        lemma_commit(s[i]);
    }
    assert forall|x: Seq<char>| #[trigger]
        p(x) <==> exists|i: int| 0 <= i < n && #[trigger] f(i) == Some(x) by {
        if p(x) {
            let i = choose|i: int|
                0 <= i < n && crate::coverage_query::of_repository(#[trigger] s[i], own, repo)
                    && crate::coverage_query::commit_of(s[i]) == Some(x);
            assert(f(i) == Some(x));
        }
        if exists|i: int| 0 <= i < n && #[trigger] f(i) == Some(x) {
            let i = choose|i: int| 0 <= i < n && #[trigger] f(i) == Some(x);
            assert(crate::coverage_query::of_repository(s[i], own, repo));
        }
    }
    lemma_in_order_of(p, f, n);
    assert(in_order(p).contains(sha) <==> p(sha));
    if p(sha) {
        let i = choose|i: int|
            0 <= i < n && crate::coverage_query::of_repository(#[trigger] s[i], own, repo)
                && crate::coverage_query::commit_of(s[i]) == Some(sha);
        assert(made_in(s, own, repo, i, sha));
    }
    if exists|i: int| #[trigger] made_in(s, own, repo, i, sha) {
        let i = choose|i: int| #[trigger] made_in(s, own, repo, i, sha);
        assert(crate::coverage_query::of_repository(s[i], own, repo));
    }
}

/// Whether a tombstone of the store deletes the identifier.
pub open spec fn has_tombstone(s: Seq<GraphRecord>, id: Seq<char>) -> bool {
    exists|i: int|
        0 <= i < s.len() && (#[trigger] s[i]) is Tombstone && s[i]->Tombstone_0.deleted_id@ == id
}

proof fn lemma_state(s: Seq<GraphRecord>, sha: Seq<char>, n: int, r: GraphRecord)
    requires
        0 <= n <= s.len(),
    ensures
        state_at(s, sha, n).contains(r) <==> exists|i: int|
            0 <= i < n && #[trigger] s[i] == r && crate::coverage_query::stands_at(s, sha, r),
    decreases n,
{
    if n > 0 {
        lemma_state(s, sha, n - 1, r);
        let all = state_at(s, sha, n);
        let before = state_at(s, sha, n - 1);
        if before.contains(r) {
            let k = choose|k: int| 0 <= k < before.len() && before[k] == r;
            assert(all[k] == r);
        }
        if all.contains(r) {
            let k = choose|k: int| 0 <= k < all.len() && all[k] == r;
            if k < before.len() {
                assert(before[k] == r);
                assert(before.contains(r));
            }
        }
        if s[n - 1] == r && crate::coverage_query::stands_at(s, sha, r) {
            assert(all[all.len() - 1] == r);
        }
    }
}

/// The state at a commit holds the nodes and edges that were made at it, and those of no commit
/// that were not deleted.
pub proof fn law_what_the_state_at_a_commit_holds(
    s: Seq<GraphRecord>,
    sha: Seq<char>,
    r: GraphRecord,
)
    ensures
        state_at(s, sha, s.len() as int).contains(r) <==> s.contains(r) && !(r is Tombstone) && (
        made_at_commit(r@) == Some(sha) || (made_at_commit(r@) is None && !has_tombstone(
            s,
            named(r),
        ))),
{
    lemma_state(s, sha, s.len() as int, r);
    lemma_commit(r);
    assert(crate::ir::record_id(r) == named(r));
    assert(crate::queries::tombstoned(s, named(r)) == has_tombstone(s, named(r)));
    if s.contains(r) {
        let i = choose|i: int| 0 <= i < s.len() && s[i] == r;
        assert(s[i] == r);
    }
}

// ---------------------------------------------------------------------------
// Scopes
// ---------------------------------------------------------------------------

/// Whether the `i`-th record is a symbol or a file of the repository, where one is asked for.
pub open spec fn is_item(
    s: Seq<GraphRecord>,
    own: Map<Seq<char>, Seq<char>>,
    repo: Option<Seq<char>>,
    i: int,
) -> bool {
    &&& 0 <= i < s.len()
    &&& s[i] is Node
    &&& s[i]->Node_0.kind == NodeKind::Symbol || s[i]->Node_0.kind == NodeKind::File
    &&& repo is Some ==> own.dom().contains(s[i]->Node_0.id@) && own[s[i]->Node_0.id@] == repo->0
}

/// Whether the text is the identifier of an item.
pub open spec fn item_id(
    s: Seq<GraphRecord>,
    own: Map<Seq<char>, Seq<char>>,
    repo: Option<Seq<char>>,
    x: Seq<char>,
) -> bool {
    exists|i: int| #[trigger] is_item(s, own, repo, i) && s[i]->Node_0.id@ == x
}

/// Whether the item under the identifier is live and has the name.
pub open spec fn called(
    s: Seq<GraphRecord>,
    own: Map<Seq<char>, Seq<char>>,
    repo: Option<Seq<char>>,
    live: Seq<Seq<char>>,
    x: Seq<char>,
    id: Seq<char>,
) -> bool {
    live.contains(id) && exists|i: int| #[trigger]
        is_item(s, own, repo, i) && s[i]->Node_0.id@ == id && s[i]->Node_0.name is Some
            && s[i]->Node_0.name->0@ == x
}

/// Whether the item under the identifier lies under the path.
pub open spec fn found_under(
    s: Seq<GraphRecord>,
    own: Map<Seq<char>, Seq<char>>,
    repo: Option<Seq<char>>,
    x: Seq<char>,
    id: Seq<char>,
) -> bool {
    exists|i: int| #[trigger]
        is_item(s, own, repo, i) && s[i]->Node_0.id@ == id && s[i]->Node_0.repo_relative_path is Some
            && lies_under(s[i]->Node_0.repo_relative_path->0@, x)
}

proof fn lemma_item(
    s: Seq<GraphRecord>,
    own: Map<Seq<char>, Seq<char>>,
    repo: Option<Seq<char>>,
)
    ensures
        forall|i: int|
            0 <= i < s.len() ==> crate::freshness_query::code_item(#[trigger] s[i], own, repo)
                == is_item(s, own, repo, i),
{
    assert forall|i: int| 0 <= i < s.len() implies crate::freshness_query::code_item(
        #[trigger] s[i],
        own,
        repo,
    ) == is_item(s, own, repo, i) by {
        if s[i] is Node && repo is Some {
            let id = s[i]->Node_0.id@;
            assert(crate::repository::owner(own, id) == Some(repo->0) <==> (own.dom().contains(id)
                && own[id] == repo->0));
        }
    }
}

proof fn lemma_scopes(
    s: Seq<GraphRecord>,
    own: Map<Seq<char>, Seq<char>>,
    repo: Option<Seq<char>>,
    live: Seq<Seq<char>>,
    x: Seq<char>,
)
    ensures
        ({
            let n = s.len() as int;
            let p = |id: Seq<char>|
                crate::freshness_query::item_named(s, own, repo, live, n, x, id);
            let q = |id: Seq<char>| crate::freshness_query::item_under(s, own, repo, n, x, id);
            &&& crate::freshness_query::has_item(s, own, repo, n, x) <==> item_id(s, own, repo, x)
            &&& sorted_strict(in_order(p)) && sorted_strict(in_order(q))
            &&& forall|id: Seq<char>| #[trigger]
                in_order(p).contains(id) <==> called(s, own, repo, live, x, id)
            &&& forall|id: Seq<char>| #[trigger]
                in_order(q).contains(id) <==> found_under(s, own, repo, x, id)
        }),
{
    let n = s.len() as int;
    lemma_item(s, own, repo);
    let p = |id: Seq<char>| crate::freshness_query::item_named(s, own, repo, live, n, x, id);
    let q = |id: Seq<char>| crate::freshness_query::item_under(s, own, repo, n, x, id);
    let f = |i: int|
        {
            let m = s[i]->Node_0;
            if is_item(s, own, repo, i) && live.contains(m.id@) && m.name is Some && m.name->0@ == x {
                Some(m.id@)
            } else {
                None
            }
        };
    let g = |i: int|
        {
            let m = s[i]->Node_0;
            if is_item(s, own, repo, i) && m.repo_relative_path is Some && lies_under(
                m.repo_relative_path->0@,
                x,
            ) {
                Some(m.id@)
            } else {
                None
            }
        };
    assert forall|id: Seq<char>| #[trigger]
        p(id) <==> exists|i: int| 0 <= i < n && #[trigger] f(i) == Some(id) by {
        if p(id) {
            let i = choose|i: int|
                0 <= i < n && crate::freshness_query::code_item(#[trigger] s[i], own, repo)
                    && s[i]->Node_0.id@ == id && opt_view(s[i]->Node_0.name) == Some(x);
            assert(f(i) == Some(id));
        }
        if exists|i: int| 0 <= i < n && #[trigger] f(i) == Some(id) {
            let i = choose|i: int| 0 <= i < n && #[trigger] f(i) == Some(id);
            assert(crate::freshness_query::code_item(s[i], own, repo));
        }
    }
    assert forall|id: Seq<char>| #[trigger]
        q(id) <==> exists|i: int| 0 <= i < n && #[trigger] g(i) == Some(id) by {
        if q(id) {
            let i = choose|i: int|
                0 <= i < n && crate::freshness_query::code_item(#[trigger] s[i], own, repo)
                    && s[i]->Node_0.id@ == id && s[i]->Node_0.repo_relative_path is Some
                    && lies_under(s[i]->Node_0.repo_relative_path->0@, x);
            assert(g(i) == Some(id));
        }
        if exists|i: int| 0 <= i < n && #[trigger] g(i) == Some(id) {
            let i = choose|i: int| 0 <= i < n && #[trigger] g(i) == Some(id);
            assert(crate::freshness_query::code_item(s[i], own, repo));
        }
    }
    lemma_in_order_of(p, f, n);
    lemma_in_order_of(q, g, n);
    assert forall|id: Seq<char>| #[trigger] in_order(p).contains(id) <==> called(
        s,
        own,
        repo,
        live,
        x,
        id,
    ) by {
        assert(in_order(p).contains(id) <==> p(id));
        if p(id) {
            let i = choose|i: int|
                0 <= i < n && crate::freshness_query::code_item(#[trigger] s[i], own, repo)
                    && s[i]->Node_0.id@ == id && opt_view(s[i]->Node_0.name) == Some(x);
            assert(is_item(s, own, repo, i));
        }
        if called(s, own, repo, live, x, id) {
            let i = choose|i: int| #[trigger]
                is_item(s, own, repo, i) && s[i]->Node_0.id@ == id && s[i]->Node_0.name is Some
                    && s[i]->Node_0.name->0@ == x;
            assert(crate::freshness_query::code_item(s[i], own, repo));
        }
    }
    assert forall|id: Seq<char>| #[trigger] in_order(q).contains(id) <==> found_under(
        s,
        own,
        repo,
        x,
        id,
    ) by {
        assert(in_order(q).contains(id) <==> q(id));
        if q(id) {
            let i = choose|i: int|
                0 <= i < n && crate::freshness_query::code_item(#[trigger] s[i], own, repo)
                    && s[i]->Node_0.id@ == id && s[i]->Node_0.repo_relative_path is Some
                    && lies_under(s[i]->Node_0.repo_relative_path->0@, x);
            assert(is_item(s, own, repo, i));
        }
        if found_under(s, own, repo, x, id) {
            let i = choose|i: int| #[trigger]
                is_item(s, own, repo, i) && s[i]->Node_0.id@ == id
                    && s[i]->Node_0.repo_relative_path is Some && lies_under(
                    s[i]->Node_0.repo_relative_path->0@,
                    x,
                );
            assert(crate::freshness_query::code_item(s[i], own, repo));
        }
    }
    if crate::freshness_query::has_item(s, own, repo, n, x) {
        let i = choose|i: int|
            0 <= i < n && crate::freshness_query::code_item(#[trigger] s[i], own, repo)
                && s[i]->Node_0.id@ == x;
        assert(is_item(s, own, repo, i));
    }
    if item_id(s, own, repo, x) {
        let i = choose|i: int| #[trigger] is_item(s, own, repo, i) && s[i]->Node_0.id@ == x;
        assert(crate::freshness_query::code_item(s[i], own, repo));
    }
}

/// A scope that is no identifier of an item means the live item with that name, where there is only
/// one; it is ambiguous where there are two, and both are then told.
pub proof fn law_scopes_by_name(
    s: Seq<GraphRecord>,
    own: Map<Seq<char>, Seq<char>>,
    repo: Option<Seq<char>>,
    live: Seq<Seq<char>>,
    x: Seq<char>,
    a: Seq<char>,
    b: Seq<char>,
)
    requires
        !item_id(s, own, repo, x),
        called(s, own, repo, live, x, a),
    ensures
        (forall|id: Seq<char>| #[trigger] called(s, own, repo, live, x, id) ==> id == a)
            ==> scope_of(s, own, repo, live, Some(x)) == (ScopeView::Matched {
            ids: seq![a],
            path_prefix: None,
        }),
        b != a && called(s, own, repo, live, x, b) ==> {
            let r = scope_of(s, own, repo, live, Some(x));
            &&& r is Ambiguous
            &&& r->candidates.contains(a) && r->candidates.contains(b)
            &&& forall|id: Seq<char>| #[trigger]
                r->candidates.contains(id) ==> called(s, own, repo, live, x, id)
        },
{
    lemma_scopes(s, own, repo, live, x);
    let n = s.len() as int;
    let p = |id: Seq<char>| crate::freshness_query::item_named(s, own, repo, live, n, x, id);
    let v = in_order(p);
    assert(v.contains(a));
    let k = choose|k: int| 0 <= k < v.len() && v[k] == a;
    if forall|id: Seq<char>| #[trigger] called(s, own, repo, live, x, id) ==> id == a {
        if v.len() > 1 {
            assert(v.contains(v[0]));
            assert(v.contains(v[1]));
            assert(called(s, own, repo, live, x, v[0]));
            assert(called(s, own, repo, live, x, v[1]));
            assert(crate::text::lex_lt(v[0], v[1]));
            crate::text::lemma_lex_three(v[0], v[1], v[0]);
        }
        assert(v =~= seq![a]);
    }
    if b != a && called(s, own, repo, live, x, b) {
        assert(v.contains(b));
        let m = choose|m: int| 0 <= m < v.len() && v[m] == b;
        assert(v.len() > 1);
    }
}

/// A scope that is neither an identifier nor a name means what lies under it as a path; where
/// nothing does it is not found, as a path where it has a slash and as a name else.
pub proof fn law_scopes_by_path(
    s: Seq<GraphRecord>,
    own: Map<Seq<char>, Seq<char>>,
    repo: Option<Seq<char>>,
    live: Seq<Seq<char>>,
    x: Seq<char>,
    a: Seq<char>,
)
    requires
        !item_id(s, own, repo, x),
        forall|id: Seq<char>| !#[trigger] called(s, own, repo, live, x, id),
    ensures
        found_under(s, own, repo, x, a) ==> {
            let r = scope_of(s, own, repo, live, Some(x));
            &&& r is Matched && r->path_prefix == Some(x) && r->ids.contains(a)
            &&& forall|id: Seq<char>| #[trigger]
                r->ids.contains(id) ==> found_under(s, own, repo, x, id)
        },
        (forall|id: Seq<char>| !#[trigger] found_under(s, own, repo, x, id)) ==> scope_of(
            s,
            own,
            repo,
            live,
            Some(x),
        ) == (if x.contains('/') {
            ScopeView::NotFoundPath
        } else {
            ScopeView::NoMatch
        }),
{
    lemma_scopes(s, own, repo, live, x);
    let n = s.len() as int;
    let p = |id: Seq<char>| crate::freshness_query::item_named(s, own, repo, live, n, x, id);
    let q = |id: Seq<char>| crate::freshness_query::item_under(s, own, repo, n, x, id);
    let v = in_order(p);
    let w = in_order(q);
    if v.len() > 0 {
        assert(v.contains(v[0]));
        assert(called(s, own, repo, live, x, v[0]));
    }
    if found_under(s, own, repo, x, a) {
        assert(w.contains(a));
    }
    if forall|id: Seq<char>| !#[trigger] found_under(s, own, repo, x, id) {
        if w.len() > 0 {
            assert(w.contains(w[0]));
            assert(found_under(s, own, repo, x, w[0]));
        }
    }
}

/// A scope admits the citations of what it means, and those of what lies under its path.
pub proof fn law_what_a_scope_admits(
    ids: Seq<Seq<char>>,
    path: Seq<char>,
    e: CitationView,
)
    ensures
        scope_admits(ScopeView::All, e),
        scope_admits(ScopeView::Matched { ids, path_prefix: None }, e) <==> e.target_record_id
            is Some && ids.contains(e.target_record_id->0),
        scope_admits(ScopeView::Matched { ids, path_prefix: Some(path) }, e) <==> (
        e.target_record_id is Some && ids.contains(e.target_record_id->0)) || (
        e.repo_relative_path is Some && lies_under(e.repo_relative_path->0, path)),
{
}

/// Whether the citation is one of the verification, of code that the repository owns.
pub open spec fn cites_in(
    es: Seq<CitationView>,
    own: Map<Seq<char>, Seq<char>>,
    j: int,
    verification: Seq<char>,
    repo: Seq<char>,
) -> bool {
    &&& 0 <= j < es.len() && es[j].verification_record_id == verification
    &&& es[j].target_record_id is Some && own.dom().contains(es[j].target_record_id->0)
    &&& own[es[j].target_record_id->0] == repo
}

/// A citation of which neither the verification nor the code has an owner belongs to the repository
/// whose code the verification cites elsewhere, where that is the only one.
pub proof fn law_citations_without_an_owner(
    es: Seq<CitationView>,
    own: Map<Seq<char>, Seq<char>>,
    repo: Seq<char>,
    e: CitationView,
)
    requires
        !own.dom().contains(e.verification_record_id),
        e.target_record_id is None || !own.dom().contains(e.target_record_id->0),
    ensures
        belongs(es, own, repo, e) <==> (exists|j: int| #[trigger]
            cites_in(es, own, j, e.verification_record_id, repo)) && (forall|j: int, r: Seq<char>|
            #[trigger] cites_in(es, own, j, e.verification_record_id, r) ==> r == repo),
        repo_admits(es, own, Some(repo), e) == belongs(es, own, repo, e),
        repo_admits(es, own, None, e),
{
    let v = e.verification_record_id;
    if belongs(es, own, repo, e) {
        let j = choose|j: int|
            0 <= j < es.len() && (#[trigger] es[j]).verification_record_id == v
                && crate::freshness_query::cited_owner(own, es[j]) == Some(repo);
        assert(cites_in(es, own, j, v, repo));
        assert forall|j: int, r: Seq<char>| #[trigger] cites_in(es, own, j, v, r) implies r
            == repo by {
            assert(es[j].verification_record_id == v);
            assert(crate::freshness_query::cited_owner(own, es[j]) == Some(r));
        }
    }
    if (exists|j: int| #[trigger] cites_in(es, own, j, v, repo)) && (forall|j: int, r: Seq<char>|
        #[trigger] cites_in(es, own, j, v, r) ==> r == repo) {
        let j = choose|j: int| #[trigger] cites_in(es, own, j, v, repo);
        assert(crate::freshness_query::cited_owner(own, es[j]) == Some(repo));
        assert forall|k: int|
            0 <= k < es.len() && (#[trigger] es[k]).verification_record_id == v
                && crate::freshness_query::cited_owner(own, es[k]) is Some implies
            crate::freshness_query::cited_owner(own, es[k]) == Some(repo) by {
            let r = crate::freshness_query::cited_owner(own, es[k])->0;
            assert(cites_in(es, own, k, v, r));
        }
    }
}

/// The report shows as many of the citations as the limit allows, from the first on, and says where
/// it left some out; its last note says what there was to judge.
pub proof fn law_report_shows_up_to_the_limit(
    r: FreshnessReport,
    all: Seq<CitationView>,
    attention_only: bool,
    limit: usize,
    has_records: bool,
)
    requires
        tells_freshness(r, all, attention_only, limit, has_records),
    ensures
        ({
            let found = if attention_only {
                all.filter(
                    |e: CitationView|
                        e.verdict == CitationVerdict::Stale || e.verdict
                            == CitationVerdict::Unresolved,
                )
            } else {
                all
            };
            let shown = verification_freshness_entry_views(r.verdicts@);
            let notes = freshness_note_views(r.notes@);
            &&& found.len() <= limit ==> shown == found && !r.truncated
            &&& found.len() > limit ==> shown == found.take(limit as int) && r.truncated
                && notes.len() == 2 && notes[0].code == "results_truncated"@
            &&& notes.len() > 0
            &&& !has_records ==> notes.last().code == "no_verification_records"@
            &&& has_records && all.len() == 0 ==> notes.last().code
                == "no_verification_code_citations"@
            &&& has_records && all.len() > 0 && attention_only && shown.len() == 0
                ==> notes.last().code == "no_stale_verification_records"@
            &&& has_records && all.len() > 0 && attention_only && shown.len() > 0
                ==> notes.last().code == "stale_verification_records_present"@
            &&& has_records && all.len() > 0 && !attention_only ==> notes.last().code
                == "verification_freshness_verdicts"@
        }),
{
    let p = |e: CitationView| crate::freshness_query::needs_attention(e.verdict);
    let q = |e: CitationView|
        e.verdict == CitationVerdict::Stale || e.verdict == CitationVerdict::Unresolved;
    assert(p =~= q);
}

// ---------------------------------------------------------------------------
// Inventories
// ---------------------------------------------------------------------------

/// The row of a site tells of its record: where it lies, when it was seen, what it is in and whose
/// it is. Sites are facts of the source.
pub proof fn law_rows_of_sites(
    lane: SiteLane,
    x: FoundSite,
    own: Map<Seq<char>, Seq<char>>,
    displays: Map<Seq<char>, Seq<char>>,
)
    requires
        x.record is Node,
    ensures
        ({
            let n = x.record->Node_0;
            let r = site_row(lane, x, own, displays)->0;
            let e = x.enclosing_symbol->0->Node_0;
            &&& site_row(lane, x, own, displays) is Some
            &&& r.record_id == n.id@ && r.schema_version == n.schema_version
            &&& lane == SiteLane::UnsafeSites ==> r.kind == "UnsafeSite"@
            &&& lane == SiteLane::UnwrapExpect ==> r.kind == "PanicRiskSite"@
            &&& r.category == x.category@ && r.span == n.span && r.trust == "source_fact"@
            &&& r.context is Some <==> x.context is Some
            &&& x.context is Some ==> r.context->0 == x.context->0@
            &&& r.repo_relative_path is Some <==> n.repo_relative_path is Some
            &&& n.repo_relative_path is Some ==> r.repo_relative_path->0
                == n.repo_relative_path->0@
            &&& r.language == opt_view(n.language)
            &&& n.temporal is Some ==> r.valid_time == Some(n.temporal->0.valid_time@)
                && r.git_commit == Some(n.temporal->0.git_commit@)
            &&& n.temporal is None ==> r.valid_time == opt_view(n.valid_time) && r.git_commit
                is None
            &&& own.dom().contains(n.id@) ==> r.repository_id == Some(own[n.id@])
            &&& !own.dom().contains(n.id@) ==> r.repository_id is None && r.repository is None
            &&& own.dom().contains(n.id@) && displays.dom().contains(own[n.id@]) ==> r.repository
                == Some(displays[own[n.id@]])
            &&& x.enclosing_symbol is Some && x.enclosing_symbol->0 is Node
                ==> r.enclosing_symbol is Some && r.enclosing_symbol->0.record_id == e.id@
                && r.enclosing_symbol->0.name == opt_view(e.name) && r.enclosing_symbol->0.span
                == e.span
            &&& x.enclosing_symbol is None ==> r.enclosing_symbol is None
        }),
{
}

/// An inventory is of its lane: it names the categories of that, and says where it is empty.
pub proof fn law_inventories_are_of_their_lane(
    r: InventoryReport,
    lane: SiteLane,
    prefix: Option<Seq<char>>,
    found: Inventory,
    own: Map<Seq<char>, Seq<char>>,
    displays: Map<Seq<char>, Seq<char>>,
    corpus: Corpus,
)
    requires
        tells_inventory(r, lane, prefix, found, own, displays, corpus),
    ensures
        lane == SiteLane::UnsafeSites ==> views(r.categories@) == seq!["block"@, "fn"@, "impl"@],
        lane == SiteLane::UnwrapExpect ==> views(r.categories@) == seq!["expect"@, "unwrap"@],
        r.returned == r.sites@.len(),
        r.empty_reason is Some <==> r.sites@.len() == 0,
        r.empty_reason is Some ==> r.empty_reason->0@ == "no_sites_in_scope"@,
        opt_view(r.path_prefix) == prefix,
        opt_view(r.at_commit) == opt_view(found.at_commit),
{
    assert(crate::inventories::site_row_views(r.sites@).len() == r.sites@.len());
}

} // verus!
