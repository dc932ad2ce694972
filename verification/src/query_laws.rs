//! What the queries tell of the store, said of the records themselves.

use vstd::prelude::*;

use crate::api_error::ErrorCode;
use crate::collections::{in_order_by, lemma_same_members};
use crate::evidence_edges::{first_with_id, id_matches_domain};
use crate::ir::{record_id, EdgeLabel, GraphRecord, NodeKind, NodeRecord};
use crate::outside::rfc3339_instant_of;
use crate::queries::{
    admits_symbols, budget_limit, budget_timeout, capped, current_by, defined_by, defined_now,
    drift_edge_target, drift_row, has_file_by, has_live_file, ids_in_domain, in_places, known_by,
    lists_in_order, live_file, preferred, query_outcome, reserved_error, same_symbol,
    symbol_before, symbol_named, symbol_rows, verb_outcome, QueryAsOfView, QueryBudget, QueryVerb,
    QueryVerbRequest, SymbolRowView, DEFAULT_QUERY_MAX_RESULTS, DEFAULT_QUERY_TIMEOUT_MS,
};
use crate::text::{has_prefix, lemma_lex_three, lex_lt, opt_view};

verus! {

/// Whether a node version begins to hold at the instant: the one that its commit names, or
/// where it has no commit the one that it names itself.
pub open spec fn begins_at(n: NodeRecord, t: (i64, u32)) -> bool {
    if n.temporal is Some {
        rfc3339_instant_of(n.temporal->0.valid_time@) == Some(t)
    } else {
        n.valid_time is Some && rfc3339_instant_of(n.valid_time->0@) == Some(t)
    }
}

/// Whether the `i`-th record is a version of a named symbol of the file.
pub open spec fn version_in(s: Seq<GraphRecord>, path: Seq<char>, i: int) -> bool {
    &&& 0 <= i < s.len()
    &&& s[i] is Node
    &&& s[i]->Node_0.kind == NodeKind::Symbol
    &&& s[i]->Node_0.repo_relative_path is Some && s[i]->Node_0.repo_relative_path->0@ == path
    &&& s[i]->Node_0.name is Some
}

/// Whether two versions are of one symbol: they have the same name, and either both have a
/// place in the file or neither has one and they have the same identifier.
pub open spec fn of_one_symbol(a: NodeRecord, b: NodeRecord) -> bool {
    &&& a.name is Some && b.name is Some && a.name->0@ == b.name->0@
    &&& (a.span is Some && b.span is Some) || (a.span is None && b.span is None && a.id@ == b.id@)
}

/// The version that is told of a symbol at an instant holds by then, and no other version of
/// the symbol that holds by then is later. Of those that are as late, none has a smaller
/// identifier.
pub proof fn law_latest_version_is_told(
    s: Seq<GraphRecord>,
    path: Seq<char>,
    at: (i64, u32),
    i: int,
    x: (i64, u32),
    j: int,
    y: (i64, u32),
)
    requires
        current_by(s, path, at, i),
        begins_at(s[i]->Node_0, x),
        version_in(s, path, j),
        of_one_symbol(s[i]->Node_0, s[j]->Node_0),
        begins_at(s[j]->Node_0, y),
        y.0 < at.0 || (y.0 == at.0 && y.1 <= at.1),
    ensures
        version_in(s, path, i),
        x.0 < at.0 || (x.0 == at.0 && x.1 <= at.1),
        y.0 < x.0 || (y.0 == x.0 && y.1 <= x.1),
        x == y ==> !lex_lt(s[j]->Node_0.id@, s[i]->Node_0.id@),
{
    assert(defined_by(s, path, at, j));
    lemma_lex_three(s[i]->Node_0.id@, s[j]->Node_0.id@, s[i]->Node_0.id@);
    if i != j {
        assert(same_symbol(s[i]->Node_0, s[j]->Node_0));
        assert(preferred(s, i, j));
    }
}

/// A version that is told of a symbol has a time, so that something can be said of it.
pub proof fn law_told_versions_have_a_time(
    s: Seq<GraphRecord>,
    path: Seq<char>,
    at: (i64, u32),
    i: int,
)
    requires
        current_by(s, path, at, i),
    ensures
        exists|x: (i64, u32)| #[trigger] begins_at(s[i]->Node_0, x),
{
    let x = crate::queries::valid_instant(s[i]->Node_0)->0;
    assert(begins_at(s[i]->Node_0, x));
}

spec fn best_of(s: Seq<GraphRecord>, path: Seq<char>, at: (i64, u32), j: int, n: int, i: int) -> bool {
    &&& defined_by(s, path, at, i)
    &&& same_symbol(s[j]->Node_0, s[i]->Node_0)
    &&& forall|k: int|
        0 <= k < n && #[trigger] defined_by(s, path, at, k) && same_symbol(
            s[j]->Node_0,
            s[k]->Node_0,
        ) && k != i ==> preferred(s, i, k)
}

proof fn lemma_best(s: Seq<GraphRecord>, path: Seq<char>, at: (i64, u32), j: int, n: int) -> (i: int)
    requires
        defined_by(s, path, at, j),
        0 <= n <= s.len(),
    ensures
        best_of(s, path, at, j, n, i),
    decreases n,
{
    if n == 0 {
        j
    } else {
        let i = lemma_best(s, path, at, j, n - 1);
        let m = n - 1;
        if defined_by(s, path, at, m) && same_symbol(s[j]->Node_0, s[m]->Node_0) && m != i
            && !preferred(s, i, m) {
            lemma_lex_three(s[i]->Node_0.id@, s[m]->Node_0.id@, s[i]->Node_0.id@);
            assert(preferred(s, m, i));
            assert forall|k: int|
                0 <= k < n && #[trigger] defined_by(s, path, at, k) && same_symbol(
                    s[j]->Node_0,
                    s[k]->Node_0,
                ) && k != m implies preferred(s, m, k) by {
                if k != i {
                    assert(preferred(s, i, k));
                    lemma_lex_three(s[m]->Node_0.id@, s[i]->Node_0.id@, s[k]->Node_0.id@);
                }
            }
            m
        } else {
            i
        }
    }
}

/// Every symbol of the file of which a version holds by the instant is told, in one of its
/// versions.
pub proof fn law_every_symbol_is_told(
    s: Seq<GraphRecord>,
    path: Seq<char>,
    at: (i64, u32),
    j: int,
    y: (i64, u32),
)
    requires
        version_in(s, path, j),
        begins_at(s[j]->Node_0, y),
        y.0 < at.0 || (y.0 == at.0 && y.1 <= at.1),
    ensures
        exists|i: int| #[trigger]
            current_by(s, path, at, i) && of_one_symbol(s[j]->Node_0, s[i]->Node_0),
{
    assert(defined_by(s, path, at, j));
    let i = lemma_best(s, path, at, j, s.len() as int);
    assert(current_by(s, path, at, i)) by {
        assert forall|k: int| #[trigger]
            defined_by(s, path, at, k) && k != i && same_symbol(
                s[i]->Node_0,
                s[k]->Node_0,
            ) implies preferred(s, i, k) by {
            assert(same_symbol(s[j]->Node_0, s[k]->Node_0));
        }
    }
}

/// A file is there at an instant exactly where some version of a file at the path begins to
/// hold by then; it is there now where a version without a commit is not retracted.
pub proof fn law_when_a_file_is_there(s: Seq<GraphRecord>, path: Seq<char>, at: (i64, u32))
    ensures
        has_file_by(s, path, at) <==> exists|i: int, x: (i64, u32)|
            0 <= i < s.len() && (#[trigger] s[i]) is Node && s[i]->Node_0.kind == NodeKind::File
                && opt_view(s[i]->Node_0.repo_relative_path) == Some(path) && (#[trigger] begins_at(
                s[i]->Node_0,
                x,
            )) && (x.0 < at.0 || (x.0 == at.0 && x.1 <= at.1)),
        has_live_file(s, path) <==> exists|i: int|
            0 <= i < s.len() && (#[trigger] s[i]) is Node && s[i]->Node_0.kind == NodeKind::File
                && opt_view(s[i]->Node_0.repo_relative_path) == Some(path)
                && s[i]->Node_0.temporal is None && forall|k: int|
                0 <= k < s.len() ==> !((#[trigger] s[k]) is Tombstone
                    && s[k]->Tombstone_0.deleted_id@ == s[i]->Node_0.id@),
{
    if has_file_by(s, path, at) {
        let i = choose|i: int|
            0 <= i < s.len() && (#[trigger] s[i]) is Node && s[i]->Node_0.kind == NodeKind::File
                && opt_view(s[i]->Node_0.repo_relative_path) == Some(path)
                && crate::queries::holds_by(s[i]->Node_0, at);
        let x = crate::queries::valid_instant(s[i]->Node_0)->0;
        assert(begins_at(s[i]->Node_0, x));
    }
    if exists|i: int, x: (i64, u32)|
        0 <= i < s.len() && (#[trigger] s[i]) is Node && s[i]->Node_0.kind == NodeKind::File
            && opt_view(s[i]->Node_0.repo_relative_path) == Some(path) && (#[trigger] begins_at(
            s[i]->Node_0,
            x,
        )) && (x.0 < at.0 || (x.0 == at.0 && x.1 <= at.1)) {
        let (i, x) = choose|i: int, x: (i64, u32)|
            0 <= i < s.len() && (#[trigger] s[i]) is Node && s[i]->Node_0.kind == NodeKind::File
                && opt_view(s[i]->Node_0.repo_relative_path) == Some(path) && (#[trigger] begins_at(
                s[i]->Node_0,
                x,
            )) && (x.0 < at.0 || (x.0 == at.0 && x.1 <= at.1));
        assert(crate::queries::holds_by(s[i]->Node_0, at));
    }
    if has_live_file(s, path) {
        let i = choose|i: int| 0 <= i < s.len() && live_file(s, path, #[trigger] s[i]);
        assert(s[i] is Node);
    }
    if exists|i: int|
        0 <= i < s.len() && (#[trigger] s[i]) is Node && s[i]->Node_0.kind == NodeKind::File
            && opt_view(s[i]->Node_0.repo_relative_path) == Some(path) && s[i]->Node_0.temporal
            is None && forall|k: int|
            0 <= k < s.len() ==> !((#[trigger] s[k]) is Tombstone && s[k]->Tombstone_0.deleted_id@
                == s[i]->Node_0.id@) {
        let i = choose|i: int|
            0 <= i < s.len() && (#[trigger] s[i]) is Node && s[i]->Node_0.kind == NodeKind::File
                && opt_view(s[i]->Node_0.repo_relative_path) == Some(path)
                && s[i]->Node_0.temporal is None && forall|k: int|
                0 <= k < s.len() ==> !((#[trigger] s[k]) is Tombstone
                    && s[k]->Tombstone_0.deleted_id@ == s[i]->Node_0.id@);
        assert(live_file(s, path, s[i]));
    }
}

/// A retraction hides a symbol now, unless the version carries a commit; a symbol is found
/// under its own name and listed under its own path.
pub proof fn law_retracted_symbols_are_hidden(
    s: Seq<GraphRecord>,
    path: Seq<char>,
    name: Seq<char>,
    i: int,
    k: int,
)
    requires
        0 <= i < s.len(),
        0 <= k < s.len(),
        s[i] is Node,
        s[k] is Tombstone,
        s[k]->Tombstone_0.deleted_id@ == s[i]->Node_0.id@,
        s[i]->Node_0.temporal is None,
    ensures
        !defined_now(s, path, i),
        !symbol_named(s, name, i),
{
}

/// What is listed now are symbols, under the path or the name that is asked for, and every
/// such symbol that nothing retracts is.
pub proof fn law_live_symbols_are_listed(
    s: Seq<GraphRecord>,
    path: Seq<char>,
    name: Seq<char>,
    i: int,
)
    requires
        0 <= i < s.len(),
        s[i] is Node,
        s[i]->Node_0.temporal is Some || forall|k: int|
            0 <= k < s.len() ==> !((#[trigger] s[k]) is Tombstone && s[k]->Tombstone_0.deleted_id@
                == s[i]->Node_0.id@),
    ensures
        defined_now(s, path, i) <==> s[i]->Node_0.kind == NodeKind::Symbol
            && s[i]->Node_0.repo_relative_path is Some && s[i]->Node_0.repo_relative_path->0@ == path,
        symbol_named(s, name, i) <==> s[i]->Node_0.kind == NodeKind::Symbol && s[i]->Node_0.name
            is Some && s[i]->Node_0.name->0@ == name,
{
}

/// Whether a row tells of the node: its identifier, name, path, place and commit.
pub open spec fn tells_of(row: SymbolRowView, n: NodeRecord) -> bool {
    &&& row.record_id == n.id@
    &&& n.name is Some ==> row.name == n.name->0@
    &&& row.repo_relative_path == opt_view(n.repo_relative_path)
    &&& row.span == n.span
    &&& n.temporal is Some ==> row.git_commit == Some(n.temporal->0.git_commit@)
    &&& n.temporal is None ==> row.git_commit is None
}

/// Every record that is picked has a row that tells of it, and every row tells of one.
pub proof fn law_rows_tell_of_their_records(
    s: Seq<GraphRecord>,
    p: spec_fn(int) -> bool,
    k: int,
)
    requires
        0 <= k <= s.len(),
    ensures
        forall|m: int|
            0 <= m < symbol_rows(s, p, k).len() ==> exists|i: int|
                0 <= i < k && #[trigger] p(i) && tells_of(
                    #[trigger] symbol_rows(s, p, k)[m],
                    s[i]->Node_0,
                ),
        forall|i: int|
            0 <= i < k && #[trigger] p(i) ==> exists|m: int|
                0 <= m < symbol_rows(s, p, k).len() && tells_of(
                    #[trigger] symbol_rows(s, p, k)[m],
                    s[i]->Node_0,
                ),
    decreases k,
{
    if k > 0 {
        law_rows_tell_of_their_records(s, p, k - 1);
        let rest = symbol_rows(s, p, k - 1);
        let all = symbol_rows(s, p, k);
        if p(k - 1) {
            assert(all.last() == crate::queries::symbol_row(s[k - 1]->Node_0));
            assert(tells_of(all[rest.len() as int], s[k - 1]->Node_0));
        }
        assert forall|m: int| 0 <= m < all.len() implies exists|i: int|
            0 <= i < k && #[trigger] p(i) && tells_of(#[trigger] all[m], s[i]->Node_0) by {
            if m < rest.len() {
                assert(all[m] == rest[m]);
                let i = choose|i: int|
                    0 <= i < k - 1 && #[trigger] p(i) && tells_of(rest[m], s[i]->Node_0);
                assert(p(i));
            } else {
                assert(p(k - 1));
            }
        }
        assert forall|i: int| 0 <= i < k && #[trigger] p(i) implies exists|m: int|
            0 <= m < all.len() && tells_of(#[trigger] all[m], s[i]->Node_0) by {
            if i < k - 1 {
                let m = choose|m: int|
                    0 <= m < rest.len() && tells_of(#[trigger] rest[m], s[i]->Node_0);
                assert(tells_of(all[m], s[i]->Node_0));
            } else {
                assert(tells_of(all[rest.len() as int], s[k - 1]->Node_0));
            }
        }
    }
}

/// Rows go by the line on which the symbol starts, those without a place first, and on one
/// line by identifier. No more are given than the limit allows, and none is kept back while
/// it allows more.
pub proof fn law_rows_go_by_line(
    r: Seq<SymbolRowView>,
    rows: Seq<SymbolRowView>,
    limit: usize,
    a: int,
    b: int,
)
    requires
        lists_in_order(r, rows, limit),
        0 <= a < b < r.len(),
    ensures
        r.len() <= limit,
        r.len() == rows.len() || r.len() == limit,
        rows.contains(r[a]),
        r[a].span is Some ==> r[b].span is Some && r[a].span->0.start_line
            <= r[b].span->0.start_line,
        r[a].span is Some && r[b].span is Some && r[a].span->0.start_line
            == r[b].span->0.start_line ==> !lex_lt(r[b].record_id, r[a].record_id),
        r[a].span is None && r[b].span is None ==> !lex_lt(r[b].record_id, r[a].record_id),
{
    broadcast use vstd::seq_lib::group_to_multiset_ensures;

    let all = choose|all: Seq<SymbolRowView>| #[trigger]
        in_places(all, rows) && r == capped(all, limit);
    lemma_same_members(all, rows);
    let lt = |x: SymbolRowView, y: SymbolRowView| symbol_before(x, y);
    assert(in_order_by(all, lt));
    assert(all[a] == r[a] && all[b] == r[b]);
    assert(!lt(all[b], all[a]));
    assert(all.contains(all[a]));
    assert(all.len() == rows.len()) by {
        assert(all.to_multiset().len() == rows.to_multiset().len());
    }
}

/// What was known at an instant are the nodes and edges that begin to hold by then, and every
/// retraction; nothing without a time.
pub proof fn law_what_was_known(r: GraphRecord, at: (i64, u32))
    ensures
        r is Node ==> (known_by(r, at) <==> exists|x: (i64, u32)|
            (#[trigger] begins_at(r->Node_0, x)) && (x.0 < at.0 || (x.0 == at.0 && x.1 <= at.1))),
        r is Edge && r->Edge_0.temporal is None ==> !known_by(r, at),
        r is Edge && r->Edge_0.temporal is Some ==> (known_by(r, at) <==> ({
            let t = rfc3339_instant_of(r->Edge_0.temporal->0.valid_time@);
            let x = t->0;
            t is Some && (x.0 < at.0 || (x.0 == at.0 && x.1 <= at.1))
        })),
        r is Tombstone ==> known_by(r, at),
{
    if r is Node && known_by(r, at) {
        assert(begins_at(r->Node_0, crate::queries::valid_instant(r->Node_0)->0));
    }
}

/// Each verb is asked for by its own name, and no other text asks for one. Two names are
/// reserved.
pub proof fn law_verbs_have_their_own_names(verb: Seq<char>)
    ensures
        verb_outcome(verb) == Ok::<QueryVerb, crate::api_error::ErrorView>(QueryVerb::GetRecords)
            <==> verb == "get_records"@,
        verb_outcome(verb) == Ok::<QueryVerb, crate::api_error::ErrorView>(QueryVerb::SymbolByName)
            <==> verb == "symbol_by_name"@,
        verb_outcome(verb) == Ok::<QueryVerb, crate::api_error::ErrorView>(
            QueryVerb::SymbolAtCommit,
        ) <==> verb == "symbol_at_commit"@,
        verb_outcome(verb) == Ok::<QueryVerb, crate::api_error::ErrorView>(QueryVerb::FileDefines)
            <==> verb == "file_defines"@,
        verb_outcome(verb) == Ok::<QueryVerb, crate::api_error::ErrorView>(QueryVerb::DriftTopN)
            <==> verb == "drift_top_n"@,
        verb == "observations_for_symbol"@ || verb == "agent_sessions_for_repo"@
            ==> verb_outcome(verb) is Err && verb_outcome(verb)->Err_0.code
            == ErrorCode::NotImplemented,
        verb_outcome(verb) is Err && verb != "observations_for_symbol"@ && verb
            != "agent_sessions_for_repo"@ ==> verb_outcome(verb)->Err_0.code
            == ErrorCode::BadRequest && verb_outcome(verb)->Err_0.field == Some("verb"@),
{
    reveal_strlit("get_records");
    reveal_strlit("symbol_by_name");
    reveal_strlit("symbol_at_commit");
    reveal_strlit("file_defines");
    reveal_strlit("drift_top_n");
    reveal_strlit("observations_for_symbol");
    reveal_strlit("agent_sessions_for_repo");
    assert("get_records"@.len() == 11);
    assert("symbol_by_name"@.len() == 14);
    assert("symbol_at_commit"@.len() == 16);
    assert("file_defines"@.len() == 12);
    assert("drift_top_n"@.len() == 11);
    assert("get_records"@[0] == 'g');
    assert("drift_top_n"@[0] == 'd');
    assert("observations_for_symbol"@.len() == 23);
    assert("agent_sessions_for_repo"@.len() == 23);
}

/// A budget gives what it asks for, up to the most that any query gives; where it asks for
/// nothing it gives the most. It takes the time that it names.
pub proof fn law_budgets_give_what_they_ask_for(b: QueryBudget, n: usize, t: u64)
    ensures
        b.max_results == Some(n) && n <= DEFAULT_QUERY_MAX_RESULTS ==> budget_limit(Some(b)) == n,
        b.max_results == Some(n) && n > DEFAULT_QUERY_MAX_RESULTS ==> budget_limit(Some(b))
            == DEFAULT_QUERY_MAX_RESULTS,
        b.max_results is None ==> budget_limit(Some(b)) == budget_limit(None),
        b.timeout_ms == Some(t) ==> budget_timeout(Some(b)) == t,
        b.timeout_ms is None ==> budget_timeout(Some(b)) == DEFAULT_QUERY_TIMEOUT_MS,
        budget_timeout(None) == DEFAULT_QUERY_TIMEOUT_MS,
        budget_limit(None) == DEFAULT_QUERY_MAX_RESULTS,
{
}

/// What a refused query is answered: the identifier of the request and the error.
pub open spec fn refusal(q: QueryVerbRequest) -> (Option<Seq<char>>, crate::api_error::ErrorView) {
    query_outcome(q)->Err_0
}

/// A query without an identifier is refused for that; one that asks for what is reserved, or
/// that allows itself no time, is refused whatever else it says.
pub proof fn law_refused_queries(q: QueryVerbRequest)
    ensures
        q.request_id is None ==> query_outcome(q) is Err && refusal(q).1.code
            == ErrorCode::MissingField && refusal(q).1.field == Some("request_id"@),
        q.as_of is Some && q.as_of->0.transaction_time is Some ==> query_outcome(q) is Err,
        q.as_of is Some && q.as_of->0.since is Some ==> query_outcome(q) is Err,
        q.budget is Some && q.budget->0.timeout_ms == Some(0u64) ==> query_outcome(q) is Err,
        q.verb is None ==> query_outcome(q) is Err,
        q.params == crate::queries::ParamsShape::Other ==> query_outcome(q) is Err,
        query_outcome(q) is Err && refusal(q).0 is Some ==> refusal(q).0
            == opt_view(q.request_id),
{
}

/// The time selector is refused for what it asks of the transaction time, else for a range,
/// and for nothing else.
pub proof fn law_reserved_times(a: QueryAsOfView)
    ensures
        reserved_error(Some(a)) is Some <==> a.transaction_time is Some || a.since is Some,
        reserved_error(Some(a)) is Some ==> reserved_error(Some(a))->0.code
            == ErrorCode::NotImplemented,
        reserved_error(None) is None,
{
}

/// A kind filter lets symbols through exactly where it names none or names them.
pub proof fn law_kind_filter(kind: Seq<char>)
    ensures
        admits_symbols(None),
        admits_symbols(Some(kind)) <==> kind == "Symbol"@,
{
}

/// An identifier of a domain begins with the name of the domain; a domain that is not named
/// keeps every identifier.
pub proof fn law_domains_keep_their_identifiers(id: Seq<char>)
    ensures
        id_matches_domain(id, "codegraph"@) <==> has_prefix(id, "codegraph:"@),
        id_matches_domain(id, "agent_memory"@) <==> has_prefix(id, "agent_memory:v1:"@),
        id_matches_domain(id, "verification"@) <==> has_prefix(id, "verification:v1:"@),
        id_matches_domain(id, "artifact"@) <==> has_prefix(id, "artifact:v1:"@),
{
    reveal_strlit("codegraph");
    reveal_strlit("agent_memory");
    reveal_strlit("verification");
    reveal_strlit("artifact");
    assert("codegraph"@.len() == 9);
    assert("agent_memory"@.len() == 12);
    assert("verification"@.len() == 12);
    assert("artifact"@.len() == 8);
    assert("agent_memory"@[0] == 'a');
    assert("verification"@[0] == 'v');
}

/// A query by identifier reads the identifiers of the domain that are asked for, as they are
/// asked for.
pub proof fn law_asked_identifiers_are_read(ids: Seq<Seq<char>>, domain: Seq<char>, id: Seq<char>)
    ensures
        ids_in_domain(ids, domain).contains(id) <==> ids.contains(id) && id_matches_domain(
            id,
            domain,
        ),
        (forall|i: int| 0 <= i < ids.len() ==> id_matches_domain(#[trigger] ids[i], domain))
            ==> ids_in_domain(ids, domain) == ids,
    decreases ids.len(),
{
    if ids.len() > 0 {
        law_asked_identifiers_are_read(ids.drop_last(), domain, id);
        let rest = ids_in_domain(ids.drop_last(), domain);
        let all = ids_in_domain(ids, domain);
        if all.contains(id) {
            let m = choose|m: int| 0 <= m < all.len() && all[m] == id;
            if m < rest.len() {
                assert(rest[m] == id);
                assert(rest.contains(id));
                let k = choose|k: int| 0 <= k < ids.len() - 1 && ids.drop_last()[k] == id;
                assert(ids[k] == id);
            } else {
                assert(ids[ids.len() - 1] == id);
            }
        }
        if ids.contains(id) && id_matches_domain(id, domain) {
            let k = choose|k: int| 0 <= k < ids.len() && ids[k] == id;
            if k < ids.len() - 1 {
                assert(ids.drop_last()[k] == id);
                assert(rest.contains(id));
                let m = choose|m: int| 0 <= m < rest.len() && rest[m] == id;
                assert(all[m] == id);
            } else {
                assert(all[rest.len() as int] == id);
            }
        }
        if forall|i: int| 0 <= i < ids.len() ==> id_matches_domain(#[trigger] ids[i], domain) {
            assert forall|i: int| 0 <= i < ids.drop_last().len() implies id_matches_domain(
                #[trigger] ids.drop_last()[i],
                domain,
            ) by {
                assert(ids.drop_last()[i] == ids[i]);
            }
            assert(all =~= ids);
        }
    } else {
        assert(ids_in_domain(ids, domain) =~= ids);
    }
}

proof fn lemma_drift_edge(s: Seq<GraphRecord>, id: Seq<char>, k: int)
    requires
        0 <= k < s.len(),
        s[k] is Edge,
        s[k]->Edge_0.label == EdgeLabel::DriftsFrom,
        s[k]->Edge_0.source@ == id,
        forall|j: int|
            0 <= j < k ==> !((#[trigger] s[j]) is Edge && s[j]->Edge_0.label
                == EdgeLabel::DriftsFrom && s[j]->Edge_0.source@ == id),
    ensures
        drift_edge_target(s, id) == Some(s[k]->Edge_0.target@),
    decreases s.len(),
{
    if k > 0 {
        let rest = s.drop_first();
        assert(!(s[0] is Edge && s[0]->Edge_0.label == EdgeLabel::DriftsFrom
            && s[0]->Edge_0.source@ == id));
        assert(rest[k - 1] == s[k]);
        assert forall|j: int| 0 <= j < k - 1 implies !((#[trigger] rest[j]) is Edge
            && rest[j]->Edge_0.label == EdgeLabel::DriftsFrom && rest[j]->Edge_0.source@ == id) by {
            assert(rest[j] == s[j + 1]);
        }
        lemma_drift_edge(rest, id, k - 1);
    }
}

proof fn lemma_first_record(s: Seq<GraphRecord>, id: Seq<char>, k: int)
    requires
        0 <= k < s.len(),
        record_id(s[k]) == id,
        forall|j: int| 0 <= j < k ==> record_id(#[trigger] s[j]) != id,
    ensures
        first_with_id(s, id) == Some(s[k]),
    decreases s.len(),
{
    if k > 0 {
        let rest = s.drop_first();
        assert(record_id(s[0]) != id);
        assert(rest[k - 1] == s[k]);
        assert forall|j: int| 0 <= j < k - 1 implies record_id(#[trigger] rest[j]) != id by {
            assert(rest[j] == s[j + 1]);
        }
        lemma_first_record(rest, id, k - 1);
    }
}

/// The row of a drift names its record, the commits before and after and the score, and the
/// path and the name of what its drift edge leads to.
pub proof fn law_drift_rows_name_what_drifted(
    s: Seq<GraphRecord>,
    n: NodeRecord,
    k: int,
    j: int,
)
    requires
        n.semantic_drift is Some,
        0 <= k < s.len(),
        s[k] is Edge,
        s[k]->Edge_0.label == EdgeLabel::DriftsFrom,
        s[k]->Edge_0.source@ == n.id@,
        forall|i: int|
            0 <= i < k ==> !((#[trigger] s[i]) is Edge && s[i]->Edge_0.label
                == EdgeLabel::DriftsFrom && s[i]->Edge_0.source@ == n.id@),
        0 <= j < s.len(),
        s[j] is Node,
        s[j]->Node_0.id@ == s[k]->Edge_0.target@,
        forall|i: int| 0 <= i < j ==> record_id(#[trigger] s[i]) != s[k]->Edge_0.target@,
    ensures
        ({
            let row = drift_row(s, n);
            let t = s[j]->Node_0;
            let d = n.semantic_drift->0;
            &&& row.record_id == n.id@
            &&& row.before_commit == d.before_git_commit@
            &&& row.after_commit == d.after_git_commit@
            &&& row.score == d.score@
            &&& t.repo_relative_path is Some ==> row.repo_relative_path == Some(
                t.repo_relative_path->0@,
            )
            &&& t.repo_relative_path is None ==> row.repo_relative_path == opt_view(
                n.repo_relative_path,
            )
            &&& t.name is Some ==> row.name == Some(t.name->0@)
            &&& t.name is None ==> row.name == opt_view(n.name)
        }),
{
    lemma_drift_edge(s, n.id@, k);
    lemma_first_record(s, s[k]->Edge_0.target@, j);
}

} // verus!
