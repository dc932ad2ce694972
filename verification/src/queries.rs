//! Queries to the daemon.

use vstd::prelude::*;
use vstd::string::*;

use crate::api_error::{bad, error_of, missing, plain_error, ApiError, ErrorCode, ErrorView};
use crate::collections::{
    in_order_by, lemma_ranked_views, lemma_sorted_by, sort_ranked, sorted_by, weak_order, Ranked,
    StrSet,
};
use crate::evidence_edges::{
    find_first, first_with_id, how_many, id_matches_domain, record_id_matches_domain,
};
use crate::ir::{record_id, record_views, EdgeLabel, GraphRecord, NodeKind, NodeRecord, SourceSpan};
use crate::outside::rfc3339_instant_of;
use crate::requests::{invalid_domain_error, is_known_domain, known_domain, Rejection};
use crate::scan::{non_blank, non_empty};
use crate::text::{
    as_opt_str, concat3, concat5, decimal, decimal_seq, has_prefix, lemma_lex_three, lex_lt,
    opt_clone, opt_is, opt_str_view, opt_view, starts_with, str_eq, str_lt, views,
};
use crate::time::{compare_instants, instant_before, instant_of};

verus! {

/// The most results of a query, and how many it gives where nothing is said.
pub const DEFAULT_QUERY_MAX_RESULTS: usize = 5000;

/// How many milliseconds a query may take where nothing is said.
pub const DEFAULT_QUERY_TIMEOUT_MS: u64 = 5000;

/// How many drifts are given where nothing is said.
pub const DRIFT_TOP_N_DEFAULT: usize = 10;

/// The most drifts that are given.
pub const DRIFT_TOP_N_MAX: usize = 100;

// ---------------------------------------------------------------------------
// Planning a query
// ---------------------------------------------------------------------------

/// When a query looks at the store.
#[derive(Clone, Debug, PartialEq, Eq)]
pub struct QueryAsOf {
    pub valid_time: Option<String>,
    pub transaction_time: Option<String>,
    pub since: Option<String>,
}

/// The view of a [`QueryAsOf`].
#[verifier::ext_equal]
pub struct QueryAsOfView {
    pub valid_time: Option<Seq<char>>,
    pub transaction_time: Option<Seq<char>>,
    pub since: Option<Seq<char>>,
}

impl View for QueryAsOf {
    type V = QueryAsOfView;

    open spec fn view(&self) -> QueryAsOfView {
        QueryAsOfView {
            valid_time: opt_view(self.valid_time),
            transaction_time: opt_view(self.transaction_time),
            since: opt_view(self.since),
        }
    }
}

/// The limits of a query.
pub struct QueryBudget {
    pub max_results: Option<usize>,
    pub timeout_ms: Option<u64>,
}

/// What the parameters of a query are.
#[derive(Debug, Clone, Copy, PartialEq, Eq, Structural)]
pub enum ParamsShape {
    /// None were given.
    Absent,
    /// An object.
    Object,
    /// Something else.
    Other,
}

/// A query as it was received.
pub struct QueryVerbRequest {
    pub request_id: Option<String>,
    pub verb: Option<String>,
    pub params: ParamsShape,
    pub as_of: Option<QueryAsOf>,
    pub budget: Option<QueryBudget>,
    pub domain: Option<String>,
}

/// What a query asks for.
#[derive(Debug, Clone, Copy, PartialEq, Eq, Structural)]
pub enum QueryVerb {
    GetRecords,
    SymbolByName,
    SymbolAtCommit,
    FileDefines,
    DriftTopN,
}

/// An accepted query.
pub struct QueryPlan {
    /// The identifier of the request.
    pub request_id: String,
    /// What is asked for.
    pub verb: QueryVerb,
    /// The domain that is looked at.
    pub domain: String,
    /// The instant that is looked at.
    pub valid_time: Option<String>,
    /// The most results.
    pub limit: usize,
    /// How long the query may take.
    pub timeout_ms: u64,
}

/// What is reserved in the time selector of a query.
pub open spec fn reserved_error(a: Option<QueryAsOfView>) -> Option<ErrorView> {
    match a {
        Some(x) => if x.transaction_time is Some {
            Some(
                plain_error(
                    ErrorCode::NotImplemented,
                    "as_of.transaction_time is reserved; transaction-time axis is not yet wired up"@,
                ),
            )
        } else if x.since is Some {
            Some(
                plain_error(
                    ErrorCode::NotImplemented,
                    "as_of.since is reserved; range queries are not yet implemented"@,
                ),
            )
        } else {
            None
        },
        None => None,
    }
}

/// The verb of a name.
pub open spec fn verb_outcome(verb: Seq<char>) -> Result<QueryVerb, ErrorView> {
    if verb == "get_records"@ {
        Ok(QueryVerb::GetRecords)
    } else if verb == "symbol_by_name"@ {
        Ok(QueryVerb::SymbolByName)
    } else if verb == "symbol_at_commit"@ {
        Ok(QueryVerb::SymbolAtCommit)
    } else if verb == "file_defines"@ {
        Ok(QueryVerb::FileDefines)
    } else if verb == "drift_top_n"@ {
        Ok(QueryVerb::DriftTopN)
    } else if verb == "observations_for_symbol"@ || verb == "agent_sessions_for_repo"@ {
        Err(
            plain_error(
                ErrorCode::NotImplemented,
                "verb '"@ + verb + "' is reserved and not yet implemented"@,
            ),
        )
    } else {
        Err(
            ErrorView {
                field: Some("verb"@),
                ..bad("unknown verb '"@ + verb + "'"@)
            },
        )
    }
}

/// The most results that a budget allows.
pub open spec fn budget_limit(b: Option<QueryBudget>) -> usize {
    match b {
        Some(x) => match x.max_results {
            Some(n) => if n < DEFAULT_QUERY_MAX_RESULTS {
                n
            } else {
                DEFAULT_QUERY_MAX_RESULTS
            },
            None => DEFAULT_QUERY_MAX_RESULTS,
        },
        None => DEFAULT_QUERY_MAX_RESULTS,
    }
}

/// How long a query may take by its budget.
pub open spec fn budget_timeout(b: Option<QueryBudget>) -> u64 {
    match b {
        Some(x) => match x.timeout_ms {
            Some(n) => n,
            None => DEFAULT_QUERY_TIMEOUT_MS,
        },
        None => DEFAULT_QUERY_TIMEOUT_MS,
    }
}

/// The error of a query that takes too long.
pub open spec fn timeout_error() -> ErrorView {
    ErrorView {
        partial_result: Some(false),
        ..plain_error(ErrorCode::QueryTimeout, "query budget expired"@)
    }
}

/// The view of a time selector.
pub open spec fn as_of_view(a: Option<QueryAsOf>) -> Option<QueryAsOfView> {
    match a {
        Some(x) => Some(x@),
        None => None,
    }
}

/// What is wrong with a query that has an identifier, its verb aside.
pub open spec fn query_error(q: QueryVerbRequest) -> Option<ErrorView> {
    if reserved_error(as_of_view(q.as_of)) is Some {
        reserved_error(as_of_view(q.as_of))
    } else if non_blank(opt_view(q.domain)) is Some && !known_domain(q.domain->0@) {
        Some(invalid_domain_error())
    } else if budget_timeout(q.budget) == 0 {
        Some(timeout_error())
    } else if non_blank(opt_view(q.verb)) is None {
        Some(missing("verb"@))
    } else if q.params == ParamsShape::Other {
        Some(bad("params must be a JSON object"@))
    } else {
        None
    }
}

/// What becomes of a query: its verb, or the error with the identifier of the request.
pub open spec fn query_outcome(q: QueryVerbRequest) -> Result<
    QueryVerb,
    (Option<Seq<char>>, ErrorView),
> {
    if non_blank(opt_view(q.request_id)) is None {
        Err((None, missing("request_id"@)))
    } else if query_error(q) is Some {
        Err((opt_view(q.request_id), query_error(q)->0))
    } else {
        match verb_outcome(q.verb->0@) {
            Ok(v) => Ok(v),
            Err(e) => Err((opt_view(q.request_id), e)),
        }
    }
}

fn check_reserved(a: &Option<QueryAsOf>) -> (r: Result<(), ApiError>)
    ensures
        error_of(r) == reserved_error(as_of_view(*a)),
{
    match a {
        Some(x) => {
            if x.transaction_time.is_some() {
                return Err(
                    ApiError::new(
                        ErrorCode::NotImplemented,
                        "as_of.transaction_time is reserved; transaction-time axis is not yet wired up".to_owned(),
                    ),
                );
            }
            if x.since.is_some() {
                return Err(
                    ApiError::new(
                        ErrorCode::NotImplemented,
                        "as_of.since is reserved; range queries are not yet implemented".to_owned(),
                    ),
                );
            }
            Ok(())
        },
        None => Ok(()),
    }
}

fn find_verb(verb: &str) -> (r: Result<QueryVerb, ApiError>)
    ensures
        match (r, verb_outcome(verb@)) {
            (Ok(a), Ok(b)) => a == b,
            (Err(e), Err(f)) => e@ == f,
            _ => false,
        },
{
    if str_eq(verb, "get_records") {
        Ok(QueryVerb::GetRecords)
    } else if str_eq(verb, "symbol_by_name") {
        Ok(QueryVerb::SymbolByName)
    } else if str_eq(verb, "symbol_at_commit") {
        Ok(QueryVerb::SymbolAtCommit)
    } else if str_eq(verb, "file_defines") {
        Ok(QueryVerb::FileDefines)
    } else if str_eq(verb, "drift_top_n") {
        Ok(QueryVerb::DriftTopN)
    } else if str_eq(verb, "observations_for_symbol") || str_eq(verb, "agent_sessions_for_repo") {
        Err(
            ApiError::new(
                ErrorCode::NotImplemented,
                concat3("verb '", verb, "' is reserved and not yet implemented"),
            ),
        )
    } else {
        Err(
            ApiError::bad_request_field(concat3("unknown verb '", verb, "'").as_str(), "verb"),
        )
    }
}

/// Accepts a query, or says why not. The budget caps what is given; a budget of no
/// time expires at once.
pub fn plan_query(q: &QueryVerbRequest) -> (r: Result<QueryPlan, Rejection>)
    ensures
        match (r, query_outcome(*q)) {
            (Ok(p), Ok(v)) => {
                &&& Some(p.request_id@) == opt_view(q.request_id)
                &&& p.verb == v
                &&& p.domain@ == (match non_blank(opt_view(q.domain)) {
                    Some(d) => d,
                    None => "codegraph"@,
                })
                &&& opt_view(p.valid_time) == (match q.as_of {
                    Some(a) => opt_view(a.valid_time),
                    None => None,
                })
                &&& p.limit == budget_limit(q.budget)
                &&& p.timeout_ms == budget_timeout(q.budget)
            },
            (Err(x), Err(y)) => x@ == y,
            _ => false,
        },
{
    let request_id = match non_empty(&q.request_id) {
        None => {
            return Err(
                Rejection { request_id: None, error: ApiError::missing_field("request_id") },
            );
        },
        Some(id) => id.to_owned(),
    };
    match check_reserved(&q.as_of) {
        Err(e) => {
            return Err(Rejection { request_id: Some(request_id), error: e });
        },
        Ok(_) => {},
    }
    let domain = match non_empty(&q.domain) {
        Some(d) => {
            if !is_known_domain(d) {
                return Err(
                    Rejection { request_id: Some(request_id), error: ApiError::invalid_domain() },
                );
            }
            d.to_owned()
        },
        None => "codegraph".to_owned(),
    };
    let (limit, timeout_ms): (usize, u64) = match &q.budget {
        Some(b) => (
            match b.max_results {
                Some(n) => if n < DEFAULT_QUERY_MAX_RESULTS {
                    n
                } else {
                    DEFAULT_QUERY_MAX_RESULTS
                },
                None => DEFAULT_QUERY_MAX_RESULTS,
            },
            match b.timeout_ms {
                Some(n) => n,
                None => DEFAULT_QUERY_TIMEOUT_MS,
            },
        ),
        None => (DEFAULT_QUERY_MAX_RESULTS, DEFAULT_QUERY_TIMEOUT_MS),
    };
    if timeout_ms == 0 {
        return Err(Rejection { request_id: Some(request_id), error: ApiError::query_timeout() });
    }
    let verb = match non_empty(&q.verb) {
        None => {
            return Err(
                Rejection { request_id: Some(request_id), error: ApiError::missing_field("verb") },
            );
        },
        Some(v) => v,
    };
    if q.params == ParamsShape::Other {
        return Err(
            Rejection {
                request_id: Some(request_id),
                error: ApiError::bad_request("params must be a JSON object".to_owned()),
            },
        );
    }
    let verb = match find_verb(verb) {
        Err(e) => {
            return Err(Rejection { request_id: Some(request_id), error: e });
        },
        Ok(v) => v,
    };
    let valid_time = match &q.as_of {
        Some(a) => opt_clone(&a.valid_time),
        None => None,
    };
    Ok(QueryPlan { request_id, verb, domain, valid_time, limit, timeout_ms })
}

/// No query gives more results than the default, whatever its budget says.
pub proof fn law_results_are_capped(b: Option<QueryBudget>)
    ensures
        budget_limit(b) <= DEFAULT_QUERY_MAX_RESULTS,
{
}

/// Checks that a query is within its time.
pub fn check_query_budget(elapsed_nanos: u128, timeout_ms: u64) -> (r: Result<(), ApiError>)
    ensures
        error_of(r) == (if elapsed_nanos >= timeout_ms * 1000000 {
            Some(timeout_error())
        } else {
            None
        }),
{
    let budget: u128 = (timeout_ms as u128) * 1000000;
    if elapsed_nanos >= budget {
        return Err(ApiError::query_timeout());
    }
    Ok(())
}

// ---------------------------------------------------------------------------
// Records by identifier
// ---------------------------------------------------------------------------

/// What the parameter `record_ids` holds.
pub enum IdsParam {
    /// Nothing.
    Absent,
    /// Something other than a list.
    NotArray,
    /// A list of something other than texts.
    NotStrings,
    /// Identifiers.
    Ids(Vec<String>),
}

/// The identifiers of the domain.
pub open spec fn ids_in_domain(ids: Seq<Seq<char>>, domain: Seq<char>) -> Seq<Seq<char>>
    decreases ids.len(),
{
    if ids.len() == 0 {
        Seq::empty()
    } else {
        let rest = ids_in_domain(ids.drop_last(), domain);
        if id_matches_domain(ids.last(), domain) {
            rest.push(ids.last())
        } else {
            rest
        }
    }
}

/// At most so many of the first elements.
pub open spec fn capped<T>(s: Seq<T>, limit: usize) -> Seq<T> {
    if s.len() <= limit {
        s
    } else {
        s.take(limit as int)
    }
}

/// The identifiers that a query by identifier reads: those of the domain, as many as
/// the limit allows.
pub fn ids_to_read(p: &IdsParam, domain: &str, limit: usize) -> (r: Result<Vec<String>, ApiError>)
    ensures
        match (*p, r) {
            (IdsParam::Absent, Ok(v)) => v@.len() == 0,
            (IdsParam::NotArray, Err(e)) => e@ == bad("params.record_ids must be an array"@),
            (IdsParam::NotStrings, Err(e)) => e@ == bad(
                "params.record_ids must be an array of strings"@,
            ),
            (IdsParam::Ids(ids), Ok(v)) => views(v@) == capped(
                ids_in_domain(views(ids@), domain@),
                limit,
            ),
            _ => false,
        },
{
    let ids = match p {
        IdsParam::Absent => {
            return Ok(Vec::new());
        },
        IdsParam::NotArray => {
            return Err(ApiError::bad_request("params.record_ids must be an array".to_owned()));
        },
        IdsParam::NotStrings => {
            return Err(
                ApiError::bad_request("params.record_ids must be an array of strings".to_owned()),
            );
        },
        IdsParam::Ids(ids) => ids,
    };
    let ghost s = views(ids@);
    let mut out: Vec<String> = Vec::new();
    let mut i: usize = 0;
    assert(s.take(0) =~= Seq::<Seq<char>>::empty());
    assert(views(out@) =~= Seq::<Seq<char>>::empty());
    while i < ids.len()
        invariant
            i <= ids@.len(),
            s == views(ids@),
            views(out@) == ids_in_domain(s.take(i as int), domain@),
        decreases ids@.len() - i,
    {
        proof {
            assert(s.take(i + 1).drop_last() =~= s.take(i as int));
            assert(s.take(i + 1).last() == ids@[i as int]@);
        }
        if record_id_matches_domain(ids[i].as_str(), domain) {
            let ghost before = out@;
            out.push(ids[i].clone());
            assert(views(out@) =~= views(before).push(ids@[i as int]@));
        }
        i = i + 1;
    }
    assert(s.take(i as int) =~= s);
    let ghost all = out@;
    assert(views(all).len() == all.len());
    out.truncate(limit);
    proof {
        if all.len() > limit {
            assert(views(out@) =~= views(all).take(limit as int));
        } else {
            assert(out@ =~= all);
        }
    }
    Ok(out)
}

/// The records of the domain, in order.
pub open spec fn domain_records(s: Seq<GraphRecord>, domain: Seq<char>) -> Seq<GraphRecord> {
    s.filter(|r: GraphRecord| id_matches_domain(record_id(r), domain))
}

/// Keeps the records of the domain, in order.
pub fn records_of_domain(records: Vec<GraphRecord>, domain: &str) -> (r: Vec<GraphRecord>)
    ensures
        record_views(r@) == record_views(domain_records(records@, domain@)),
{
    let ghost s = records@;
    let ghost p = |r: GraphRecord| id_matches_domain(record_id(r), domain@);
    let mut out: Vec<GraphRecord> = Vec::new();
    let mut i: usize = 0;
    proof {
        reveal(Seq::filter);
        assert(s.take(0) =~= Seq::<GraphRecord>::empty());
        assert(record_views(out@) =~= record_views(s.take(0).filter(p)));
    }
    while i < records.len()
        invariant
            i <= records@.len(),
            s == records@,
            p == |r: GraphRecord| id_matches_domain(record_id(r), domain@),
            record_views(out@) == record_views(s.take(i as int).filter(p)),
        decreases records@.len() - i,
    {
        proof {
            reveal(Seq::filter);
            assert(s.take(i + 1).drop_last() =~= s.take(i as int));
            assert(s.take(i + 1).last() == s[i as int]);
        }
        let ghost before = out@;
        let ghost kept = s.take(i as int).filter(p);
        if record_id_matches_domain(records[i].id(), domain) {
            out.push(records[i].copy());
            assert(record_views(out@) =~= record_views(before).push(s[i as int]@));
            assert(record_views(kept.push(s[i as int])) =~= record_views(kept).push(s[i as int]@));
        }
        i = i + 1;
    }
    assert(s.take(i as int) =~= s);
    out
}

// ---------------------------------------------------------------------------
// Symbols
// ---------------------------------------------------------------------------

/// A symbol that a query found.
#[derive(Clone, Debug, PartialEq, Eq)]
pub struct SymbolRow {
    pub record_id: String,
    pub name: String,
    pub repo_relative_path: Option<String>,
    pub span: Option<SourceSpan>,
    pub git_commit: Option<String>,
}

/// The view of a [`SymbolRow`].
#[verifier::ext_equal]
pub struct SymbolRowView {
    pub record_id: Seq<char>,
    pub name: Seq<char>,
    pub repo_relative_path: Option<Seq<char>>,
    pub span: Option<SourceSpan>,
    pub git_commit: Option<Seq<char>>,
}

impl View for SymbolRow {
    type V = SymbolRowView;

    open spec fn view(&self) -> SymbolRowView {
        SymbolRowView {
            record_id: self.record_id@,
            name: self.name@,
            repo_relative_path: opt_view(self.repo_relative_path),
            span: self.span,
            git_commit: opt_view(self.git_commit),
        }
    }
}

/// The views of symbol rows.
pub open spec fn symbol_row_views(s: Seq<SymbolRow>) -> Seq<SymbolRowView> {
    s.map_values(|x: SymbolRow| x@)
}

/// The first line of a span.
pub open spec fn start_line(span: Option<SourceSpan>) -> Option<u64> {
    match span {
        Some(s) => Some(s.start_line),
        None => None,
    }
}

/// Whether one row comes before another: by line, those without one first, then by
/// identifier.
pub open spec fn symbol_before(a: SymbolRowView, b: SymbolRowView) -> bool {
    match (start_line(a.span), start_line(b.span)) {
        (None, Some(_)) => true,
        (Some(_), None) => false,
        (Some(x), Some(y)) => x < y || (x == y && lex_lt(a.record_id, b.record_id)),
        (None, None) => lex_lt(a.record_id, b.record_id),
    }
}

impl Ranked for SymbolRow {
    open spec fn before(self, other: Self) -> bool {
        symbol_before(self@, other@)
    }

    fn is_before(&self, other: &Self) -> (r: bool) {
        let smaller_id = str_lt(self.record_id.as_str(), other.record_id.as_str());
        match (self.span, other.span) {
            (None, Some(_)) => true,
            (Some(_), None) => false,
            (Some(x), Some(y)) => x.start_line < y.start_line || (x.start_line == y.start_line
                && smaller_id),
            (None, None) => smaller_id,
        }
    }
}

/// A row that is sorted by the name of its symbol.
pub struct NamedSymbol {
    pub row: SymbolRow,
}

impl Ranked for NamedSymbol {
    open spec fn before(self, other: Self) -> bool {
        name_before(self.row@, other.row@)
    }

    fn is_before(&self, other: &Self) -> (r: bool) {
        str_lt(self.row.name.as_str(), other.row.name.as_str())
    }
}

/// Whether one row comes before another by name.
pub open spec fn name_before(a: SymbolRowView, b: SymbolRowView) -> bool {
    lex_lt(a.name, b.name)
}

/// The rows in the order of their names.
pub open spec fn by_name(s: Seq<SymbolRowView>) -> Seq<SymbolRowView> {
    sorted_by(s, |a: SymbolRowView, b: SymbolRowView| name_before(a, b))
}

/// The row of a symbol.
pub open spec fn symbol_row(n: NodeRecord) -> SymbolRowView {
    SymbolRowView {
        record_id: n.id@,
        name: match n.name {
            Some(x) => x@,
            None => ""@,
        },
        repo_relative_path: opt_view(n.repo_relative_path),
        span: n.span,
        git_commit: match n.temporal {
            Some(t) => Some(t.git_commit@),
            None => None,
        },
    }
}

fn make_symbol_row(n: &NodeRecord) -> (r: SymbolRow)
    ensures
        r@ == symbol_row(*n),
{
    SymbolRow {
        record_id: n.id.clone(),
        name: match &n.name {
            Some(x) => x.clone(),
            None => "".to_owned(),
        },
        repo_relative_path: opt_clone(&n.repo_relative_path),
        span: n.span,
        git_commit: match &n.temporal {
            Some(t) => Some(t.git_commit.clone()),
            None => None,
        },
    }
}

/// The row of a record, where it is a symbol.
pub fn symbol_node_to_row(r: &GraphRecord) -> (row: Option<SymbolRow>)
    ensures
        match row {
            Some(x) => r is Node && r->Node_0.kind == NodeKind::Symbol && x@ == symbol_row(
                r->Node_0,
            ),
            None => !(r is Node && r->Node_0.kind == NodeKind::Symbol),
        },
{
    match r {
        GraphRecord::Node(n) => if n.kind == NodeKind::Symbol {
            Some(make_symbol_row(n))
        } else {
            None
        },
        _ => None,
    }
}

/// Whether some record retracts the identifier.
pub open spec fn tombstoned(s: Seq<GraphRecord>, id: Seq<char>) -> bool {
    exists|i: int|
        0 <= i < s.len() && (#[trigger] s[i]) is Tombstone && s[i]->Tombstone_0.deleted_id@ == id
}

/// Collects the identifiers that some record retracts.
pub fn tombstoned_ids_in(records: &Vec<GraphRecord>) -> (r: StrSet)
    ensures
        r.wf(),
        forall|id: Seq<char>| #[trigger] r.has(id) <==> tombstoned(records@, id),
{
    let ghost s = records@;
    let mut set = StrSet::new();
    let mut i: usize = 0;
    while i < records.len()
        invariant
            i <= records@.len(),
            s == records@,
            set.wf(),
            forall|id: Seq<char>| #[trigger]
                set.has(id) <==> tombstoned(s.take(i as int), id),
        decreases records@.len() - i,
    {
        let ghost set0 = set;
        match &records[i] {
            GraphRecord::Tombstone(t) => {
                set.insert(t.deleted_id.as_str());
            },
            _ => {},
        }
        proof {
            let a = s.take(i as int);
            let b = s.take(i + 1);
            assert forall|id: Seq<char>| #[trigger] set.has(id) <==> tombstoned(b, id) by {
                assert(set0.has(id) <==> tombstoned(a, id));
                if tombstoned(a, id) {
                    let k = choose|k: int|
                        0 <= k < a.len() && (#[trigger] a[k]) is Tombstone
                            && a[k]->Tombstone_0.deleted_id@ == id;
                    assert(b[k] == a[k]);
                }
                if tombstoned(b, id) && !tombstoned(a, id) {
                    let k = choose|k: int|
                        0 <= k < b.len() && (#[trigger] b[k]) is Tombstone
                            && b[k]->Tombstone_0.deleted_id@ == id;
                    if k < i {
                        assert(a[k] == b[k]);
                    }
                }
                if s[i as int] is Tombstone {
                    assert(b[i as int] == s[i as int]);
                }
            }
        }
        i = i + 1;
    }
    assert(s.take(i as int) =~= s);
    set
}

/// The rows of the symbols among the records that satisfy `p`, in the order of the
/// records.
pub open spec fn symbol_rows(s: Seq<GraphRecord>, p: spec_fn(int) -> bool, k: int) -> Seq<
    SymbolRowView,
>
    decreases k,
{
    if k <= 0 {
        Seq::empty()
    } else {
        let rest = symbol_rows(s, p, k - 1);
        if p(k - 1) {
            rest.push(symbol_row(s[k - 1]->Node_0))
        } else {
            rest
        }
    }
}

/// Rows by line and identifier, as many as the limit allows.
pub open spec fn by_place(rows: Seq<SymbolRowView>, limit: usize) -> Seq<SymbolRowView> {
    capped(
        sorted_by(rows, |a: SymbolRowView, b: SymbolRowView| symbol_before(a, b)),
        limit,
    )
}

/// Coming before another row by line and identifier is a strict weak order.
pub proof fn lemma_symbol_order()
    ensures
        weak_order(|a: SymbolRowView, b: SymbolRowView| symbol_before(a, b)),
{
    let lt = |a: SymbolRowView, b: SymbolRowView| symbol_before(a, b);
    assert forall|a: SymbolRowView, b: SymbolRowView| #[trigger] lt(a, b) implies !lt(b, a) by {
        lemma_lex_three(a.record_id, b.record_id, a.record_id);
    }
    assert forall|a: SymbolRowView, b: SymbolRowView, c: SymbolRowView|
        !(#[trigger] lt(a, b)) && !(#[trigger] lt(b, c)) implies !lt(a, c) by {
        lemma_lex_three(a.record_id, b.record_id, c.record_id);
    }
}

/// Coming before another row by name is a strict weak order.
pub proof fn lemma_name_order()
    ensures
        weak_order(|a: SymbolRowView, b: SymbolRowView| name_before(a, b)),
{
    let lt = |a: SymbolRowView, b: SymbolRowView| name_before(a, b);
    assert forall|a: SymbolRowView, b: SymbolRowView| #[trigger] lt(a, b) implies !lt(b, a) by {
        lemma_lex_three(a.name, b.name, a.name);
    }
    assert forall|a: SymbolRowView, b: SymbolRowView, c: SymbolRowView|
        !(#[trigger] lt(a, b)) && !(#[trigger] lt(b, c)) implies !lt(a, c) by {
        lemma_lex_three(a.name, b.name, c.name);
    }
}

/// Whether `all` holds the rows, in the order of their places.
pub open spec fn in_places(all: Seq<SymbolRowView>, rows: Seq<SymbolRowView>) -> bool {
    &&& all.to_multiset() == rows.to_multiset()
    &&& in_order_by(all, |a: SymbolRowView, b: SymbolRowView| symbol_before(a, b))
}

/// Whether the rows are in order, and the first of all of them, as many as the limit
/// allows.
pub open spec fn lists_in_order(r: Seq<SymbolRowView>, rows: Seq<SymbolRowView>, limit: usize) -> bool {
    exists|all: Seq<SymbolRowView>| #[trigger] in_places(all, rows) && r == capped(all, limit)
}

/// Rows by place are in order, and the first of all of them.
pub proof fn lemma_by_place(rows: Seq<SymbolRowView>, limit: usize)
    ensures
        lists_in_order(by_place(rows, limit), rows, limit),
        lists_in_order(by_place(by_name(rows), limit), rows, limit),
{
    let lt = |a: SymbolRowView, b: SymbolRowView| symbol_before(a, b);
    lemma_symbol_order();
    lemma_name_order();
    lemma_sorted_by(rows, lt);
    lemma_sorted_by(rows, |a: SymbolRowView, b: SymbolRowView| name_before(a, b));
    lemma_sorted_by(by_name(rows), lt);
    assert(in_places(sorted_by(rows, lt), rows));
    assert(in_places(sorted_by(by_name(rows), lt), rows));
}

/// The rows of the records that satisfy `p`, in order, as many as the limit allows.
pub open spec fn listed_symbols(s: Seq<GraphRecord>, p: spec_fn(int) -> bool, limit: usize) -> Seq<
    SymbolRowView,
> {
    by_place(symbol_rows(s, p, s.len() as int), limit)
}

fn sort_by_name(rows: Vec<SymbolRow>) -> (r: Vec<SymbolRow>)
    ensures
        symbol_row_views(r@) == by_name(symbol_row_views(rows@)),
{
    let ghost before = rows@;
    let ghost lt = |a: SymbolRowView, b: SymbolRowView| name_before(a, b);
    let ghost f = |x: NamedSymbol| x.row@;
    let mut named: Vec<NamedSymbol> = Vec::new();
    for row in it: rows
        invariant
            it.seq() == before,
            named@.len() == it.index(),
            forall|k: int| 0 <= k < named@.len() ==> (#[trigger] named@[k]).row == before[k],
    {
        named.push(NamedSymbol { row });
    }
    let ghost mid = named@;
    let sorted = sort_ranked(named);
    let ghost all = sorted@;
    proof {
        lemma_ranked_views(mid, f, lt);
        assert(symbol_row_views(before) =~= mid.map_values(f));
    }
    let mut out: Vec<SymbolRow> = Vec::new();
    for x in it: sorted
        invariant
            it.seq() == all,
            out@.len() == it.index(),
            forall|k: int| 0 <= k < out@.len() ==> (#[trigger] out@[k]) == all[k].row,
    {
        out.push(x.row);
    }
    assert(symbol_row_views(out@) =~= all.map_values(f));
    out
}

fn sort_and_truncate_symbol_results(rows: Vec<SymbolRow>, limit: usize) -> (r: Vec<SymbolRow>)
    ensures
        symbol_row_views(r@) == by_place(symbol_row_views(rows@), limit),
{
    let ghost before = rows@;
    let ghost lt = |a: SymbolRowView, b: SymbolRowView| symbol_before(a, b);
    let ghost f = |x: SymbolRow| x@;
    let mut out = sort_ranked(rows);
    let ghost all = out@;
    proof {
        lemma_ranked_views(before, f, lt);
        assert(symbol_row_views(before) =~= before.map_values(f));
        assert(symbol_row_views(all) =~= all.map_values(f));
    }
    out.truncate(limit);
    proof {
        if all.len() > limit {
            assert(symbol_row_views(out@) =~= symbol_row_views(all).take(limit as int));
        } else {
            assert(out@ =~= all);
        }
    }
    out
}

/// Whether the `i`-th record is a live symbol with the name. A version with a commit
/// stays after a retraction.
pub open spec fn symbol_named(s: Seq<GraphRecord>, name: Seq<char>, i: int) -> bool {
    0 <= i < s.len() && s[i] is Node && s[i]->Node_0.kind == NodeKind::Symbol && opt_view(
        s[i]->Node_0.name,
    ) == Some(name) && (s[i]->Node_0.temporal is Some || !tombstoned(s, s[i]->Node_0.id@))
}

/// Whether a kind filter lets symbols through.
pub open spec fn admits_symbols(kind: Option<Seq<char>>) -> bool {
    kind is None || kind == Some("Symbol"@)
}

fn admits(kind: Option<&str>) -> (r: bool)
    ensures
        r == admits_symbols(opt_str_view(kind)),
{
    match kind {
        Some(k) => str_eq(k, "Symbol"),
        None => true,
    }
}

/// The symbols with the name that are in the store now.
pub fn symbols_by_name(records: &Vec<GraphRecord>, name: &str, kind: Option<&str>, limit: usize) -> (r:
    Vec<SymbolRow>)
    ensures
        symbol_row_views(r@) == (if admits_symbols(opt_str_view(kind)) {
            listed_symbols(records@, |i: int| symbol_named(records@, name@, i), limit)
        } else {
            Seq::empty()
        }),
        admits_symbols(opt_str_view(kind)) ==> lists_in_order(
            symbol_row_views(r@),
            symbol_rows(
                records@,
                |i: int| symbol_named(records@, name@, i),
                records@.len() as int,
            ),
            limit,
        ),
{
    let mut rows: Vec<SymbolRow> = Vec::new();
    assert(symbol_row_views(rows@) =~= Seq::<SymbolRowView>::empty());
    if !admits(kind) {
        return rows;
    }
    let deleted = tombstoned_ids_in(records);
    let ghost s = records@;
    let ghost p = |i: int| symbol_named(s, name@, i);
    let mut i: usize = 0;
    while i < records.len()
        invariant
            i <= records@.len(),
            s == records@,
            p == |i: int| symbol_named(s, name@, i),
            deleted.wf(),
            forall|id: Seq<char>| #[trigger] deleted.has(id) <==> tombstoned(s, id),
            symbol_row_views(rows@) == symbol_rows(s, p, i as int),
        decreases records@.len() - i,
    {
        match &records[i] {
            GraphRecord::Node(n) => {
                assert(deleted.has(n.id@) <==> tombstoned(s, n.id@));
                if n.kind == NodeKind::Symbol && opt_is(&n.name, name) && (n.temporal.is_some()
                    || !deleted.contains(n.id.as_str())) {
                    let ghost before = rows@;
                    rows.push(make_symbol_row(n));
                    assert(symbol_row_views(rows@) =~= symbol_row_views(before).push(
                        symbol_row(*n),
                    ));
                }
            },
            _ => {},
        }
        i = i + 1;
    }
    proof {
        lemma_by_place(symbol_row_views(rows@), limit);
    }
    sort_and_truncate_symbol_results(rows, limit)
}

/// The answer of a query for a symbol at an instant, given the symbol that was found:
/// a filter for another kind, or a limit of nothing, leaves nothing.
pub fn symbol_found(found: Option<&GraphRecord>, kind: Option<&str>, limit: usize) -> (r: Vec<SymbolRow>)
    ensures
        symbol_row_views(r@) == (if found is Some && found->0 is Node && found->0->Node_0.kind
            == NodeKind::Symbol && admits_symbols(opt_str_view(kind)) && limit > 0 {
            seq![symbol_row(found->0->Node_0)]
        } else {
            Seq::empty()
        }),
{
    let mut rows: Vec<SymbolRow> = Vec::new();
    assert(symbol_row_views(rows@) =~= Seq::<SymbolRowView>::empty());
    if limit == 0 || !admits(kind) {
        return rows;
    }
    match found {
        Some(rec) => match symbol_node_to_row(rec) {
            Some(row) => {
                let ghost rv = row@;
                rows.push(row);
                assert(symbol_row_views(rows@) =~= seq![rv]);
            },
            None => {},
        },
        None => {},
    }
    rows
}

/// Whether some version carries a commit that begins with the prefix, and which.
pub open spec fn commit_with_prefix(s: Seq<GraphRecord>, prefix: Seq<char>, c: Seq<char>) -> bool {
    exists|i: int|
        0 <= i < s.len() && crate::history::commit_of(#[trigger] s[i]) == Some(c) && has_prefix(
            c,
            prefix,
        )
}

/// What is wrong with a commit prefix: it stands for more than one commit.
pub open spec fn prefix_error(s: Seq<GraphRecord>, prefix: Seq<char>) -> Option<ErrorView> {
    let n = how_many(|c: Seq<char>| commit_with_prefix(s, prefix, c));
    if n > 1 {
        Some(
            plain_error(
                ErrorCode::AmbiguousCommitPrefix,
                "ambiguous commit prefix '"@ + prefix + "' matches "@ + decimal_seq(n)
                    + " distinct commits"@,
            ),
        )
    } else {
        None
    }
}

spec fn commit_below(s: Seq<GraphRecord>, prefix: Seq<char>, c: Seq<char>, n: int) -> bool {
    exists|i: int|
        0 <= i < n && i < s.len() && crate::history::commit_of(#[trigger] s[i]) == Some(c)
            && has_prefix(c, prefix)
}

/// Checks that a commit prefix stands for one commit at most.
pub fn check_commit_prefix(records: &Vec<GraphRecord>, prefix: &str) -> (r: Result<(), ApiError>)
    ensures
        error_of(r) == prefix_error(records@, prefix@),
{
    let ghost s = records@;
    let mut set = StrSet::new();
    let mut i: usize = 0;
    while i < records.len()
        invariant
            i <= records@.len(),
            s == records@,
            set.wf(),
            forall|c: Seq<char>| #[trigger]
                set.has(c) <==> commit_below(s, prefix@, c, i as int),
        decreases records@.len() - i,
    {
        let ghost set0 = set;
        match crate::history::version_commit(&records[i]) {
            Some(c) => {
                if starts_with(c, prefix) {
                    set.insert(c);
                }
            },
            None => {},
        }
        proof {
            assert forall|c: Seq<char>| #[trigger]
                set.has(c) <==> commit_below(s, prefix@, c, i + 1) by {
                assert(set0.has(c) <==> commit_below(s, prefix@, c, i as int));
                if commit_below(s, prefix@, c, i + 1) && !commit_below(s, prefix@, c, i as int) {
                    let k = choose|k: int|
                        0 <= k < i + 1 && k < s.len() && crate::history::commit_of(#[trigger] s[k])
                            == Some(c) && has_prefix(c, prefix@);
                    assert(k == i);
                }
                if crate::history::commit_of(s[i as int]) == Some(c) && has_prefix(c, prefix@) {
                    assert(commit_below(s, prefix@, c, i + 1));
                }
            }
        }
        i = i + 1;
    }
    let n: usize = set.len();
    proof {
        let p = |c: Seq<char>| commit_with_prefix(s, prefix@, c);
        assert forall|c: Seq<char>| #[trigger] set.has(c) <==> p(c) by {
            assert(set.has(c) <==> commit_below(s, prefix@, c, i as int));
        }
        crate::evidence_freshness::lemma_in_order(p, set);
    }
    if n > 1 {
        return Err(
            ApiError::new(
                ErrorCode::AmbiguousCommitPrefix,
                concat5(
                    "ambiguous commit prefix '",
                    prefix,
                    "' matches ",
                    decimal(n as u64).as_str(),
                    " distinct commits",
                ),
            ),
        );
    }
    Ok(())
}

// ---------------------------------------------------------------------------
// What a file defines
// ---------------------------------------------------------------------------

/// Whether the record is a live file at the path, without a commit.
pub open spec fn live_file(s: Seq<GraphRecord>, path: Seq<char>, r: GraphRecord) -> bool {
    r is Node && r->Node_0.kind == NodeKind::File && opt_view(r->Node_0.repo_relative_path) == Some(
        path,
    ) && r->Node_0.temporal is None && !tombstoned(s, r->Node_0.id@)
}

/// Whether there is a live file at the path.
pub open spec fn has_live_file(s: Seq<GraphRecord>, path: Seq<char>) -> bool {
    exists|i: int| 0 <= i < s.len() && live_file(s, path, #[trigger] s[i])
}

/// Whether there is a live file at the path.
pub fn live_file_node_exists(records: &Vec<GraphRecord>, path: &str) -> (r: bool)
    ensures
        r == has_live_file(records@, path@),
{
    let deleted = tombstoned_ids_in(records);
    let mut i: usize = 0;
    while i < records.len()
        invariant
            i <= records@.len(),
            deleted.wf(),
            forall|id: Seq<char>| #[trigger] deleted.has(id) <==> tombstoned(records@, id),
            forall|k: int| 0 <= k < i ==> !live_file(records@, path@, #[trigger] records@[k]),
        decreases records@.len() - i,
    {
        match &records[i] {
            GraphRecord::Node(n) => {
                assert(deleted.has(n.id@) <==> tombstoned(records@, n.id@));
                if n.kind == NodeKind::File && opt_is(&n.repo_relative_path, path)
                    && n.temporal.is_none() && !deleted.contains(n.id.as_str()) {
                    return true;
                }
            },
            _ => {},
        }
        i = i + 1;
    }
    false
}

/// The instant at which a node version begins to hold: that of its commit, or its own.
pub open spec fn valid_instant(n: NodeRecord) -> Option<(i64, u32)> {
    match n.temporal {
        Some(t) => rfc3339_instant_of(t.valid_time@),
        None => match n.valid_time {
            Some(v) => rfc3339_instant_of(v@),
            None => None,
        },
    }
}

fn read_valid_instant(n: &NodeRecord) -> (r: Option<(i64, u32)>)
    ensures
        r == valid_instant(*n),
{
    match &n.temporal {
        Some(t) => instant_of(t.valid_time.as_str()),
        None => match &n.valid_time {
            Some(v) => instant_of(v.as_str()),
            None => None,
        },
    }
}

/// Whether a node version holds at the instant.
pub open spec fn holds_by(n: NodeRecord, at: (i64, u32)) -> bool {
    valid_instant(n) is Some && !instant_before(at, valid_instant(n)->0)
}

fn does_hold_by(n: &NodeRecord, at: (i64, u32)) -> (r: bool)
    ensures
        r == holds_by(*n, at),
{
    match read_valid_instant(n) {
        Some(t) => match compare_instants(at, t) {
            crate::text::Order::Less => false,
            _ => true,
        },
        None => false,
    }
}

/// Whether there is a file at the path that holds at the instant.
pub open spec fn has_file_by(s: Seq<GraphRecord>, path: Seq<char>, at: (i64, u32)) -> bool {
    exists|i: int|
        0 <= i < s.len() && (#[trigger] s[i]) is Node && s[i]->Node_0.kind == NodeKind::File
            && opt_view(s[i]->Node_0.repo_relative_path) == Some(path) && holds_by(
            s[i]->Node_0,
            at,
        )
}

/// Whether there is a file at the path that holds at the instant.
pub fn file_node_exists_as_of(records: &Vec<GraphRecord>, path: &str, at: (i64, u32)) -> (r: bool)
    ensures
        r == has_file_by(records@, path@, at),
{
    let mut i: usize = 0;
    while i < records.len()
        invariant
            i <= records@.len(),
            forall|k: int|
                0 <= k < i ==> !((#[trigger] records@[k]) is Node && records@[k]->Node_0.kind
                    == NodeKind::File && opt_view(records@[k]->Node_0.repo_relative_path) == Some(
                    path@,
                ) && holds_by(records@[k]->Node_0, at)),
        decreases records@.len() - i,
    {
        match &records[i] {
            GraphRecord::Node(n) => {
                if n.kind == NodeKind::File && opt_is(&n.repo_relative_path, path) && does_hold_by(
                    n,
                    at,
                ) {
                    return true;
                }
            },
            _ => {},
        }
        i = i + 1;
    }
    false
}

/// Whether the `i`-th record is a symbol of the path that is there now.
pub open spec fn defined_now(s: Seq<GraphRecord>, path: Seq<char>, i: int) -> bool {
    0 <= i < s.len() && s[i] is Node && s[i]->Node_0.kind == NodeKind::Symbol && opt_view(
        s[i]->Node_0.repo_relative_path,
    ) == Some(path) && (s[i]->Node_0.temporal is Some || !tombstoned(s, s[i]->Node_0.id@))
}

/// The symbols that a file defines now; none where there is no live file.
pub fn file_defines_current(records: &Vec<GraphRecord>, path: &str, limit: usize) -> (r: Vec<SymbolRow>)
    ensures
        symbol_row_views(r@) == (if has_live_file(records@, path@) {
            listed_symbols(records@, |i: int| defined_now(records@, path@, i), limit)
        } else {
            Seq::empty()
        }),
        has_live_file(records@, path@) ==> lists_in_order(
            symbol_row_views(r@),
            symbol_rows(
                records@,
                |i: int| defined_now(records@, path@, i),
                records@.len() as int,
            ),
            limit,
        ),
{
    let mut rows: Vec<SymbolRow> = Vec::new();
    assert(symbol_row_views(rows@) =~= Seq::<SymbolRowView>::empty());
    if !live_file_node_exists(records, path) {
        return rows;
    }
    let deleted = tombstoned_ids_in(records);
    let ghost s = records@;
    let ghost p = |i: int| defined_now(s, path@, i);
    let mut i: usize = 0;
    while i < records.len()
        invariant
            i <= records@.len(),
            s == records@,
            p == |i: int| defined_now(s, path@, i),
            deleted.wf(),
            forall|id: Seq<char>| #[trigger] deleted.has(id) <==> tombstoned(s, id),
            symbol_row_views(rows@) == symbol_rows(s, p, i as int),
        decreases records@.len() - i,
    {
        match &records[i] {
            GraphRecord::Node(n) => {
                assert(deleted.has(n.id@) <==> tombstoned(s, n.id@));
                if n.kind == NodeKind::Symbol && opt_is(&n.repo_relative_path, path) && (
                n.temporal.is_some() || !deleted.contains(n.id.as_str())) {
                    let ghost before = rows@;
                    rows.push(make_symbol_row(n));
                    assert(symbol_row_views(rows@) =~= symbol_row_views(before).push(
                        symbol_row(*n),
                    ));
                }
            },
            _ => {},
        }
        i = i + 1;
    }
    proof {
        lemma_by_place(symbol_row_views(rows@), limit);
    }
    sort_and_truncate_symbol_results(rows, limit)
}

/// Whether the `i`-th record is a named symbol of the path that holds at the instant.
pub open spec fn defined_by(s: Seq<GraphRecord>, path: Seq<char>, at: (i64, u32), i: int) -> bool {
    0 <= i < s.len() && s[i] is Node && s[i]->Node_0.kind == NodeKind::Symbol && opt_view(
        s[i]->Node_0.repo_relative_path,
    ) == Some(path) && s[i]->Node_0.name is Some && holds_by(s[i]->Node_0, at)
}

/// Whether two symbol versions are versions of one symbol: they have the same name,
/// and both have a place in the file or both are the same record.
pub open spec fn same_symbol(a: NodeRecord, b: NodeRecord) -> bool {
    opt_view(a.name) == opt_view(b.name) && ((a.span is Some && b.span is Some) || (a.span is None
        && b.span is None && a.id@ == b.id@))
}

/// Whether the `i`-th version is preferred to the `j`-th: the later one is, then the
/// one with the smaller identifier, then the first.
pub open spec fn preferred(s: Seq<GraphRecord>, i: int, j: int) -> bool {
    let a = s[i]->Node_0;
    let b = s[j]->Node_0;
    let x = valid_instant(a)->0;
    let y = valid_instant(b)->0;
    instant_before(y, x) || (x == y && (lex_lt(a.id@, b.id@) || (a.id@ == b.id@ && i < j)))
}

/// Whether the `i`-th record is the version of its symbol that holds at the instant.
pub open spec fn current_by(s: Seq<GraphRecord>, path: Seq<char>, at: (i64, u32), i: int) -> bool {
    defined_by(s, path, at, i) && forall|j: int|
        #[trigger] defined_by(s, path, at, j) && j != i && same_symbol(s[i]->Node_0, s[j]->Node_0)
            ==> preferred(s, i, j)
}

fn is_defined_by(r: &GraphRecord, path: &str, at: (i64, u32)) -> (b: bool)
    ensures
        b == (r is Node && r->Node_0.kind == NodeKind::Symbol && opt_view(
            r->Node_0.repo_relative_path,
        ) == Some(path@) && r->Node_0.name is Some && holds_by(r->Node_0, at)),
{
    match r {
        GraphRecord::Node(n) => n.kind == NodeKind::Symbol && opt_is(&n.repo_relative_path, path)
            && n.name.is_some() && does_hold_by(n, at),
        _ => false,
    }
}

fn is_same_symbol(a: &NodeRecord, b: &NodeRecord) -> (r: bool)
    ensures
        r == same_symbol(*a, *b),
{
    crate::text::opt_str_eq(as_opt_str(&a.name), as_opt_str(&b.name)) && ((a.span.is_some()
        && b.span.is_some()) || (a.span.is_none() && b.span.is_none() && str_eq(
        a.id.as_str(),
        b.id.as_str(),
    )))
}

fn is_preferred(records: &Vec<GraphRecord>, i: usize, j: usize) -> (r: bool)
    requires
        i < records@.len(),
        j < records@.len(),
        records@[i as int] is Node,
        records@[j as int] is Node,
        valid_instant(records@[i as int]->Node_0) is Some,
        valid_instant(records@[j as int]->Node_0) is Some,
    ensures
        r == preferred(records@, i as int, j as int),
{
    match (&records[i], &records[j]) {
        (GraphRecord::Node(a), GraphRecord::Node(b)) => match (
            read_valid_instant(a),
            read_valid_instant(b),
        ) {
            (Some(x), Some(y)) => match compare_instants(y, x) {
                crate::text::Order::Less => true,
                crate::text::Order::Greater => false,
                crate::text::Order::Equal => str_lt(a.id.as_str(), b.id.as_str()) || (str_eq(
                    a.id.as_str(),
                    b.id.as_str(),
                ) && i < j),
            },
            _ => false,
        },
        _ => false,
    }
}

fn is_current_by(records: &Vec<GraphRecord>, path: &str, at: (i64, u32), i: usize) -> (r: bool)
    requires
        i < records@.len(),
    ensures
        r == current_by(records@, path@, at, i as int),
{
    let ghost s = records@;
    if !is_defined_by(&records[i], path, at) {
        return false;
    }
    let mut j: usize = 0;
    while j < records.len()
        invariant
            j <= records@.len(),
            i < records@.len(),
            s == records@,
            defined_by(s, path@, at, i as int),
            forall|k: int|
                0 <= k < j && #[trigger] defined_by(s, path@, at, k) && k != i && same_symbol(
                    s[i as int]->Node_0,
                    s[k]->Node_0,
                ) ==> preferred(s, i as int, k),
        decreases records@.len() - j,
    {
        if j != i && is_defined_by(&records[j], path, at) {
            assert(defined_by(s, path@, at, j as int));
            match (&records[i], &records[j]) {
                (GraphRecord::Node(a), GraphRecord::Node(b)) => {
                    if is_same_symbol(a, b) && !is_preferred(records, i, j) {
                        return false;
                    }
                },
                _ => {},
            }
        }
        j = j + 1;
    }
    true
}

/// The symbols that a file defined at an instant, each in the version that held then;
/// none where the file was not there.
pub fn file_defines_as_of(records: &Vec<GraphRecord>, path: &str, at: (i64, u32), limit: usize) -> (r:
    Vec<SymbolRow>)
    ensures
        symbol_row_views(r@) == (if has_file_by(records@, path@, at) {
            by_place(
                by_name(
                    symbol_rows(
                        records@,
                        |i: int| current_by(records@, path@, at, i),
                        records@.len() as int,
                    ),
                ),
                limit,
            )
        } else {
            Seq::empty()
        }),
        has_file_by(records@, path@, at) ==> lists_in_order(
            symbol_row_views(r@),
            symbol_rows(
                records@,
                |i: int| current_by(records@, path@, at, i),
                records@.len() as int,
            ),
            limit,
        ),
{
    let mut rows: Vec<SymbolRow> = Vec::new();
    assert(symbol_row_views(rows@) =~= Seq::<SymbolRowView>::empty());
    if !file_node_exists_as_of(records, path, at) {
        return rows;
    }
    let ghost s = records@;
    let ghost p = |i: int| current_by(s, path@, at, i);
    let mut i: usize = 0;
    while i < records.len()
        invariant
            i <= records@.len(),
            s == records@,
            p == |i: int| current_by(s, path@, at, i),
            symbol_row_views(rows@) == symbol_rows(s, p, i as int),
        decreases records@.len() - i,
    {
        if is_current_by(records, path, at, i) {
            match &records[i] {
                GraphRecord::Node(n) => {
                    let ghost before = rows@;
                    rows.push(make_symbol_row(n));
                    assert(symbol_row_views(rows@) =~= symbol_row_views(before).push(
                        symbol_row(*n),
                    ));
                },
                _ => {},
            }
        }
        i = i + 1;
    }
    proof {
        lemma_by_place(symbol_row_views(rows@), limit);
    }
    sort_and_truncate_symbol_results(sort_by_name(rows), limit)
}

/// At an instant a file defines a symbol in one version only.
pub proof fn law_one_version_per_symbol(
    s: Seq<GraphRecord>,
    path: Seq<char>,
    at: (i64, u32),
    i: int,
    j: int,
)
    requires
        current_by(s, path, at, i),
        current_by(s, path, at, j),
        same_symbol(s[i]->Node_0, s[j]->Node_0),
    ensures
        i == j,
{
    if i != j {
        assert(preferred(s, i, j));
        assert(preferred(s, j, i));
        crate::text::lemma_lex_irreflexive(s[i]->Node_0.id@);
        if lex_lt(s[i]->Node_0.id@, s[j]->Node_0.id@) {
            crate::text::lemma_lex_asymmetric(s[i]->Node_0.id@, s[j]->Node_0.id@);
        }
    }
}

// ---------------------------------------------------------------------------
// Drift
// ---------------------------------------------------------------------------

/// A drift that a query found.
#[derive(Clone, Debug, PartialEq, Eq)]
pub struct DriftRow {
    pub record_id: String,
    pub before_commit: String,
    pub after_commit: String,
    pub score: String,
    pub repo_relative_path: Option<String>,
    pub name: Option<String>,
}

/// The view of a [`DriftRow`].
#[verifier::ext_equal]
pub struct DriftRowView {
    pub record_id: Seq<char>,
    pub before_commit: Seq<char>,
    pub after_commit: Seq<char>,
    pub score: Seq<char>,
    pub repo_relative_path: Option<Seq<char>>,
    pub name: Option<Seq<char>>,
}

impl View for DriftRow {
    type V = DriftRowView;

    open spec fn view(&self) -> DriftRowView {
        DriftRowView {
            record_id: self.record_id@,
            before_commit: self.before_commit@,
            after_commit: self.after_commit@,
            score: self.score@,
            repo_relative_path: opt_view(self.repo_relative_path),
            name: opt_view(self.name),
        }
    }
}

/// What the parameter `limit` of a drift query holds.
#[derive(Debug, Clone, Copy, PartialEq, Eq, Structural)]
pub enum DriftLimit {
    /// Nothing.
    Absent,
    /// A number.
    Number(u64),
    /// Something else.
    Invalid,
}

/// How many drifts are given: the number asked for, not above the most, nor above what
/// the budget allows.
pub fn drift_limit(p: DriftLimit, budget_limit: usize) -> (r: Result<usize, ApiError>)
    ensures
        match (p, r) {
            (DriftLimit::Invalid, Err(e)) => e@ == bad(
                "params.limit must be a non-negative integer"@,
            ),
            (DriftLimit::Absent, Ok(n)) => n == smaller(DRIFT_TOP_N_DEFAULT as int, budget_limit as int),
            (DriftLimit::Number(k), Ok(n)) => n == smaller(
                smaller(k as int, DRIFT_TOP_N_MAX as int),
                budget_limit as int,
            ),
            _ => false,
        },
{
    let asked: usize = match p {
        DriftLimit::Invalid => {
            return Err(
                ApiError::bad_request("params.limit must be a non-negative integer".to_owned()),
            );
        },
        DriftLimit::Absent => DRIFT_TOP_N_DEFAULT,
        DriftLimit::Number(k) => if k < DRIFT_TOP_N_MAX as u64 {
            k as usize
        } else {
            DRIFT_TOP_N_MAX
        },
    };
    if asked < budget_limit {
        Ok(asked)
    } else {
        Ok(budget_limit)
    }
}

/// The smaller of two numbers.
pub open spec fn smaller(a: int, b: int) -> int {
    if a < b {
        a
    } else {
        b
    }
}

/// Whether a record belongs to what was known at an instant. Records without a time do
/// not; retractions do.
pub open spec fn known_by(r: GraphRecord, at: (i64, u32)) -> bool {
    match r {
        GraphRecord::Node(n) => holds_by(n, at),
        GraphRecord::Edge(e) => match e.temporal {
            Some(t) => rfc3339_instant_of(t.valid_time@) is Some && !instant_before(
                at,
                rfc3339_instant_of(t.valid_time@)->0,
            ),
            None => false,
        },
        GraphRecord::Tombstone(_) => true,
    }
}

fn is_known_by(r: &GraphRecord, at: (i64, u32)) -> (b: bool)
    ensures
        b == known_by(*r, at),
{
    match r {
        GraphRecord::Node(n) => does_hold_by(n, at),
        GraphRecord::Edge(e) => match &e.temporal {
            Some(t) => match instant_of(t.valid_time.as_str()) {
                Some(x) => match compare_instants(at, x) {
                    crate::text::Order::Less => false,
                    _ => true,
                },
                None => false,
            },
            None => false,
        },
        GraphRecord::Tombstone(_) => true,
    }
}

/// The records that were known at an instant, in order.
pub open spec fn snapshot_by(s: Seq<GraphRecord>, at: (i64, u32)) -> Seq<GraphRecord> {
    s.filter(|r: GraphRecord| known_by(r, at))
}

/// Keeps the records that were known at an instant, in order.
pub fn records_known_by(records: &Vec<GraphRecord>, at: (i64, u32)) -> (r: Vec<GraphRecord>)
    ensures
        record_views(r@) == record_views(snapshot_by(records@, at)),
{
    let ghost s = records@;
    let ghost p = |r: GraphRecord| known_by(r, at);
    let mut out: Vec<GraphRecord> = Vec::new();
    let mut i: usize = 0;
    proof {
        reveal(Seq::filter);
        assert(s.take(0) =~= Seq::<GraphRecord>::empty());
        assert(record_views(out@) =~= record_views(s.take(0).filter(p)));
    }
    while i < records.len()
        invariant
            i <= records@.len(),
            s == records@,
            p == |r: GraphRecord| known_by(r, at),
            record_views(out@) == record_views(s.take(i as int).filter(p)),
        decreases records@.len() - i,
    {
        proof {
            reveal(Seq::filter);
            assert(s.take(i + 1).drop_last() =~= s.take(i as int));
            assert(s.take(i + 1).last() == s[i as int]);
        }
        let ghost before = out@;
        let ghost kept = s.take(i as int).filter(p);
        if is_known_by(&records[i], at) {
            out.push(records[i].copy());
            assert(record_views(out@) =~= record_views(before).push(s[i as int]@));
            assert(record_views(kept.push(s[i as int])) =~= record_views(kept).push(s[i as int]@));
        }
        i = i + 1;
    }
    assert(s.take(i as int) =~= s);
    out
}

/// The target of the first drift edge from the record.
pub open spec fn drift_edge_target(s: Seq<GraphRecord>, id: Seq<char>) -> Option<Seq<char>>
    decreases s.len(),
{
    if s.len() == 0 {
        None
    } else if s[0] is Edge && s[0]->Edge_0.label == EdgeLabel::DriftsFrom && s[0]->Edge_0.source@
        == id {
        Some(s[0]->Edge_0.target@)
    } else {
        drift_edge_target(s.drop_first(), id)
    }
}

/// The first of two texts that is there.
pub open spec fn first_of(a: Option<Seq<char>>, b: Option<Seq<char>>) -> Option<Seq<char>> {
    if a is Some {
        a
    } else {
        b
    }
}

/// The path and the name of what drifted: those of the target of the drift edge, else
/// of the target that the drift itself names, else its own.
pub open spec fn drift_place(s: Seq<GraphRecord>, n: NodeRecord) -> (
    Option<Seq<char>>,
    Option<Seq<char>>,
) {
    let target = match drift_edge_target(s, n.id@) {
        Some(t) => t,
        None => n.semantic_drift->0.target_record_id@,
    };
    match first_with_id(s, target) {
        Some(GraphRecord::Node(t)) => (
            first_of(opt_view(t.repo_relative_path), opt_view(n.repo_relative_path)),
            first_of(opt_view(t.name), opt_view(n.name)),
        ),
        _ => (opt_view(n.repo_relative_path), opt_view(n.name)),
    }
}

/// The row of a drift.
pub open spec fn drift_row(s: Seq<GraphRecord>, n: NodeRecord) -> DriftRowView {
    DriftRowView {
        record_id: n.id@,
        before_commit: n.semantic_drift->0.before_git_commit@,
        after_commit: n.semantic_drift->0.after_git_commit@,
        score: n.semantic_drift->0.score@,
        repo_relative_path: drift_place(s, n).0,
        name: drift_place(s, n).1,
    }
}

fn find_drift_edge<'a>(records: &'a Vec<GraphRecord>, id: &str) -> (r: Option<&'a str>)
    ensures
        opt_str_view(r) == drift_edge_target(records@, id@),
{
    let ghost s = records@;
    let mut i: usize = 0;
    assert(s.skip(0) =~= s);
    while i < records.len()
        invariant
            i <= records@.len(),
            s == records@,
            drift_edge_target(s, id@) == drift_edge_target(s.skip(i as int), id@),
        decreases records@.len() - i,
    {
        proof {
            assert(s.skip(i as int)[0] == s[i as int]);
            assert(s.skip(i as int).drop_first() =~= s.skip(i + 1));
        }
        match &records[i] {
            GraphRecord::Edge(e) => {
                if e.label == EdgeLabel::DriftsFrom && str_eq(e.source.as_str(), id) {
                    return Some(e.target.as_str());
                }
            },
            _ => {},
        }
        i = i + 1;
    }
    None
}

fn clone_first(a: &Option<String>, b: &Option<String>) -> (r: Option<String>)
    ensures
        opt_view(r) == first_of(opt_view(*a), opt_view(*b)),
{
    match a {
        Some(x) => Some(x.clone()),
        None => opt_clone(b),
    }
}

/// The row of a record, where it is a drift measurement.
pub fn drift_node_to_row(r: &GraphRecord, records: &Vec<GraphRecord>) -> (row: Option<DriftRow>)
    ensures
        match row {
            Some(x) => r is Node && r->Node_0.kind == NodeKind::SemanticDrift
                && r->Node_0.semantic_drift is Some && x@ == drift_row(records@, r->Node_0),
            None => !(r is Node && r->Node_0.kind == NodeKind::SemanticDrift
                && r->Node_0.semantic_drift is Some),
        },
{
    let n = match r {
        GraphRecord::Node(n) => n,
        _ => {
            return None;
        },
    };
    if n.kind != NodeKind::SemanticDrift {
        return None;
    }
    let drift = match &n.semantic_drift {
        Some(d) => d,
        None => {
            return None;
        },
    };
    let target = match find_drift_edge(records, n.id.as_str()) {
        Some(t) => t,
        None => drift.target_record_id.as_str(),
    };
    let (path, name) = match find_first(records, target) {
        Some(GraphRecord::Node(t)) => (
            clone_first(&t.repo_relative_path, &n.repo_relative_path),
            clone_first(&t.name, &n.name),
        ),
        _ => (opt_clone(&n.repo_relative_path), opt_clone(&n.name)),
    };
    Some(
        DriftRow {
            record_id: n.id.clone(),
            before_commit: drift.before_git_commit.clone(),
            after_commit: drift.after_git_commit.clone(),
            score: drift.score.clone(),
            repo_relative_path: path,
            name,
        },
    )
}

} // verus!
