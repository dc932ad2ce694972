//! Evidence links: which ones are accepted, and the edges that they become.
//!
//! A batch of records is checked against the store before it is written. Every
//! link must resolve to a node, and its relation must suit the nodes that it joins.
//! Each accepted link becomes an edge.

use vstd::prelude::*;
use vstd::string::*;

use crate::api_error::{bad, error_of, missing, plain_error, ApiError, ErrorCode, ErrorView};
use crate::collections::{contains_string, StrMap, StrSet};
use crate::evidence_rules::{
    edge_domain_error, endpoint_error, kind_name, kind_text, validate_agent_memory_edge_endpoints,
    validate_evidence_endpoint_constraints,
};
use crate::ir::{
    cites_evidence, code_topology, edge_label_name, node_kind_name, record_id,
    AGENT_MEMORY_SCHEMA_VERSION, EdgeLabel, EdgeRecord, EdgeView, EvidenceLink, EvidenceLinkView,
    GraphRecord, NodeKind, NodeRecord, NodeView,
};
use crate::outside::rfc3339_instant_of;
use crate::text::{
    concat3, concat4, concat5, concat7, decimal, decimal_seq, has_prefix, join, join_seq, opt_is,
    opt_str_view, opt_view, starts_with, str_eq, views,
};
use crate::time::is_rfc3339;

verus! {

// ---------------------------------------------------------------------------
// What the store holds
// ---------------------------------------------------------------------------

/// What is known of the store while a batch is checked.
pub struct StoreSnapshot {
    /// Every version of every record.
    pub all: Vec<GraphRecord>,
    /// What reading an identifier back gives: the first record with it.
    pub current: Vec<GraphRecord>,
    /// The kind of agent that is named by its product, where one is configured.
    pub product_kind: Option<String>,
}

/// The first record with the identifier.
pub open spec fn first_with_id(s: Seq<GraphRecord>, id: Seq<char>) -> Option<GraphRecord>
    decreases s.len(),
{
    if s.len() == 0 {
        None
    } else if record_id(s[0]) == id {
        Some(s[0])
    } else {
        first_with_id(s.drop_first(), id)
    }
}

/// How a confidence text reads as a number.
#[derive(Debug, Clone, Copy, PartialEq, Eq, Structural)]
pub enum ConfidenceGrade {
    /// Not a number.
    NotNumeric,
    /// A number outside `[0.0, 1.0]`.
    OutOfRange,
    /// A number in `[0.0, 1.0]`.
    InRange,
}

/// How the confidence texts of a batch read as numbers.
pub struct ConfidenceTable {
    grades: StrMap<ConfidenceGrade>,
}

/// The grade of a text: not a number where none is known.
pub open spec fn grade_of(m: Map<Seq<char>, ConfidenceGrade>, text: Seq<char>) -> ConfidenceGrade {
    if m.dom().contains(text) {
        m[text]
    } else {
        ConfidenceGrade::NotNumeric
    }
}

impl ConfidenceTable {
    #[verifier::type_invariant]
    spec fn inv(self) -> bool {
        self.grades.wf()
    }

    /// The known grades.
    pub closed spec fn grades(&self) -> Map<Seq<char>, ConfidenceGrade> {
        self.grades.map()
    }

    /// A table that knows no text.
    pub fn new() -> (r: ConfidenceTable)
        ensures
            r.grades() == Map::<Seq<char>, ConfidenceGrade>::empty(),
    {
        ConfidenceTable { grades: StrMap::new() }
    }

    /// The table that also knows this text.
    pub fn with(self, text: &str, grade: ConfidenceGrade) -> (r: ConfidenceTable)
        ensures
            r.grades() == self.grades().insert(text@, grade),
    {
        proof {
            use_type_invariant(&self);
        }
        let ConfidenceTable { mut grades } = self;
        grades.insert(text, grade);
        ConfidenceTable { grades }
    }

    /// The grade of a text.
    pub fn grade(&self, text: &str) -> (r: ConfidenceGrade)
        ensures
            r == grade_of(self.grades(), text@),
    {
        proof {
            use_type_invariant(self);
        }
        match self.grades.get(text) {
            Some(g) => *g,
            None => ConfidenceGrade::NotNumeric,
        }
    }
}

/// Finds the first record with the identifier.
pub fn find_first<'a>(records: &'a Vec<GraphRecord>, id: &str) -> (r: Option<&'a GraphRecord>)
    ensures
        match r {
            Some(x) => first_with_id(records@, id@) == Some(*x),
            None => first_with_id(records@, id@) is None,
        },
{
    let ghost s = records@;
    let mut i: usize = 0;
    assert(s.skip(0) =~= s);
    while i < records.len()
        invariant
            i <= records@.len(),
            s == records@,
            first_with_id(s, id@) == first_with_id(s.skip(i as int), id@),
        decreases records@.len() - i,
    {
        proof {
            assert(s.skip(i as int)[0] == s[i as int]);
            assert(s.skip(i as int).drop_first() =~= s.skip(i + 1));
        }
        if str_eq(records[i].id(), id) {
            return Some(&records[i]);
        }
        i = i + 1;
    }
    None
}

// ---------------------------------------------------------------------------
// Domains
// ---------------------------------------------------------------------------

/// Whether the identifier has the prefix that the domain asks for.
pub open spec fn id_matches_domain(id: Seq<char>, domain: Seq<char>) -> bool {
    if domain == "codegraph"@ {
        has_prefix(id, "codegraph:"@)
    } else if domain == "agent_memory"@ {
        has_prefix(id, "agent_memory:v1:"@)
    } else if domain == "verification"@ {
        has_prefix(id, "verification:v1:"@)
    } else if domain == "artifact"@ {
        has_prefix(id, "artifact:v1:"@)
    } else {
        true
    }
}

/// Whether the identifier has the prefix that the domain asks for.
pub fn record_id_matches_domain(id: &str, domain: &str) -> (r: bool)
    ensures
        r == id_matches_domain(id@, domain@),
{
    if str_eq(domain, "codegraph") {
        starts_with(id, "codegraph:")
    } else if str_eq(domain, "agent_memory") {
        starts_with(id, "agent_memory:v1:")
    } else if str_eq(domain, "verification") {
        starts_with(id, "verification:v1:")
    } else if str_eq(domain, "artifact") {
        starts_with(id, "artifact:v1:")
    } else {
        true
    }
}

/// The prefix that the target of a link must have, when its domain asks for one.
pub open spec fn target_prefix(domain: Seq<char>) -> Option<Seq<char>> {
    if domain == "codegraph"@ {
        Some("codegraph:"@)
    } else if domain == "agent_memory"@ {
        Some("agent_memory:v1:"@)
    } else if domain == "verification"@ {
        Some("verification:v1:"@)
    } else {
        None
    }
}

/// What is wrong with a target that does not lie in the declared domain.
pub open spec fn target_domain_error(id: Seq<char>, domain: Seq<char>) -> Option<ErrorView> {
    match target_prefix(domain) {
        Some(p) => if has_prefix(id, p) {
            None
        } else {
            Some(
                bad(
                    "evidence link declares target_domain '"@ + domain + "' but target '"@ + id
                        + "' does not have the expected '"@ + p + "' prefix"@,
                ),
            )
        },
        None => None,
    }
}

/// Checks that the target of a link lies in the declared domain.
pub fn validate_evidence_target_domain(id: &str, domain: &str) -> (r: Result<(), ApiError>)
    ensures
        error_of(r) == target_domain_error(id@, domain@),
{
    let prefix = if str_eq(domain, "codegraph") {
        "codegraph:"
    } else if str_eq(domain, "agent_memory") {
        "agent_memory:v1:"
    } else if str_eq(domain, "verification") {
        "verification:v1:"
    } else {
        return Ok(());
    };
    if starts_with(id, prefix) {
        return Ok(());
    }
    Err(
        ApiError::bad_request(
            concat7(
                "evidence link declares target_domain '",
                domain,
                "' but target '",
                id,
                "' does not have the expected '",
                prefix,
                "' prefix",
            ),
        ),
    )
}

// ---------------------------------------------------------------------------
// Resolving the target of a link
// ---------------------------------------------------------------------------

/// Whether the record is a version of the node `id` at the commit.
pub open spec fn observed_at_commit(r: GraphRecord, id: Seq<char>, commit: Seq<char>) -> bool {
    r is Node && r->Node_0.id@ == id && r->Node_0.temporal is Some && r->Node_0.temporal->0.git_commit@
        == commit
}

/// Whether some record of either list is a version of the node at the commit.
pub open spec fn has_observation(
    a: Seq<GraphRecord>,
    b: Seq<GraphRecord>,
    id: Seq<char>,
    commit: Seq<char>,
) -> bool {
    (exists|i: int| 0 <= i < a.len() && observed_at_commit(#[trigger] a[i], id, commit)) || (
    exists|i: int| 0 <= i < b.len() && observed_at_commit(#[trigger] b[i], id, commit))
}

/// The number of strings that satisfy `p`.
pub open spec fn how_many(p: spec_fn(Seq<char>) -> bool) -> nat {
    crate::evidence_freshness::in_order(p).len()
}

/// Whether the record lies at the path, the span and the commit of the link.
pub open spec fn matches_triple(r: GraphRecord, l: EvidenceLinkView) -> bool {
    r is Node && opt_view(r->Node_0.repo_relative_path) == l.target_repo_relative_path
        && r->Node_0.temporal is Some && Some(r->Node_0.temporal->0.git_commit@)
        == l.target_git_commit && r->Node_0.span == l.target_span
}

/// The first record that lies at the path, the span and the commit of the link.
pub open spec fn first_triple(s: Seq<GraphRecord>, l: EvidenceLinkView) -> Option<Seq<char>>
    decreases s.len(),
{
    if s.len() == 0 {
        None
    } else if matches_triple(s[0], l) {
        Some(s[0]->Node_0.id@)
    } else {
        first_triple(s.drop_first(), l)
    }
}

/// Whether the batch has a node with the identifier.
pub open spec fn batch_has_node(b: Seq<GraphRecord>, id: Seq<char>) -> bool {
    exists|i: int| 0 <= i < b.len() && record_id(#[trigger] b[i]) == id && b[i] is Node
}

/// Whether the batch has an edge or a tombstone with the identifier.
pub open spec fn batch_has_other(b: Seq<GraphRecord>, id: Seq<char>) -> bool {
    exists|i: int| 0 <= i < b.len() && record_id(#[trigger] b[i]) == id && b[i] !is Node
}

/// The target of a link that names a record.
pub open spec fn named_target(
    b: Seq<GraphRecord>,
    all: Seq<GraphRecord>,
    current: Seq<GraphRecord>,
    id: Seq<char>,
    l: EvidenceLinkView,
) -> Result<(Seq<char>, Option<Seq<char>>), ErrorView> {
    let stored = first_with_id(current, id);
    if stored is Some && stored->0 !is Node {
        Err(
            bad(
                "evidence link target '"@ + id
                    + "' is not a node record; only node records may be evidence targets"@,
            ),
        )
    } else if batch_has_other(b, id) && !batch_has_node(b, id) {
        Err(
            bad("evidence link target '"@ + id + "' in the current batch is not a node record"@),
        )
    } else if stored is None && !batch_has_node(b, id) {
        Err(
            plain_error(
                ErrorCode::UnresolvedEvidenceTarget,
                "evidence link target '"@ + id + "' not found in store or batch"@,
            ),
        )
    } else if target_domain_error(id, l.target_domain) is Some {
        Err(target_domain_error(id, l.target_domain)->0)
    } else {
        match l.as_of_commit {
            Some(c) => if has_observation(all, b, id, c) {
                Ok((id, Some(c)))
            } else {
                Err(
                    plain_error(
                        ErrorCode::UnresolvedEvidenceTarget,
                        "evidence link target '"@ + id
                            + "' has no temporal observation at commit '"@ + c + "'"@,
                    ),
                )
            },
            None => {
                let n = how_many(|c: Seq<char>| has_observation(all, b, id, c));
                if n > 1 {
                    Err(
                        bad(
                            "evidence link to '"@ + id + "' is ambiguous: the target has "@
                                + decimal_seq(n)
                                + " temporal observations; supply as_of_commit to select a specific observation"@,
                        ),
                    )
                } else {
                    Ok((id, None))
                }
            },
        }
    }
}

/// The field that a link lacks which names neither a record nor a path.
pub open spec fn missing_target_field() -> Seq<char> {
    "evidence_links[].target_record_id or (target_repo_relative_path, target_git_commit, target_span)"@
}

/// The field that a link by path lacks which has no span.
pub open spec fn missing_span_field() -> Seq<char> {
    "evidence_links[].target_span (required for triple evidence target lookup to avoid ambiguity)"@
}

/// The target of a link that names a path, a span and a commit.
pub open spec fn placed_target(
    b: Seq<GraphRecord>,
    all: Seq<GraphRecord>,
    l: EvidenceLinkView,
) -> Result<(Seq<char>, Option<Seq<char>>), ErrorView> {
    if l.target_repo_relative_path is None {
        Err(missing(missing_target_field()))
    } else if l.target_git_commit is None {
        Err(missing("evidence_links[].target_git_commit"@))
    } else if l.target_span is None {
        Err(missing(missing_span_field()))
    } else {
        match first_triple(all + b, l) {
            None => Err(
                plain_error(
                    ErrorCode::UnresolvedEvidenceTarget,
                    "evidence link target not found by triple (path="@
                        + l.target_repo_relative_path->0 + ", commit="@ + l.target_git_commit->0
                        + ")"@,
                ),
            ),
            Some(id) => if target_domain_error(id, l.target_domain) is Some {
                Err(target_domain_error(id, l.target_domain)->0)
            } else if l.as_of_commit is Some && l.as_of_commit != l.target_git_commit {
                Err(
                    bad(
                        "evidence link triple resolved to commit '"@ + l.target_git_commit->0
                            + "' but as_of_commit '"@ + l.as_of_commit->0
                            + "' conflicts; omit as_of_commit or set it to the same value as target_git_commit"@,
                    ),
                )
            } else {
                Ok((id, l.target_git_commit))
            },
        }
    }
}

/// The target of a link and the commit by which its edge is routed.
pub open spec fn link_target(
    b: Seq<GraphRecord>,
    all: Seq<GraphRecord>,
    current: Seq<GraphRecord>,
    l: EvidenceLinkView,
) -> Result<(Seq<char>, Option<Seq<char>>), ErrorView> {
    match l.target_record_id {
        Some(id) => named_target(b, all, current, id, l),
        None => placed_target(b, all, l),
    }
}

/// What a resolved target says, compared with a specification.
pub open spec fn target_matches(
    r: Result<(String, Option<String>), ApiError>,
    t: Result<(Seq<char>, Option<Seq<char>>), ErrorView>,
) -> bool {
    match (r, t) {
        (Ok((id, c)), Ok((i, d))) => id@ == i && opt_view(c) == d,
        (Err(e), Err(f)) => e@ == f,
        _ => false,
    }
}

fn is_observation(r: &GraphRecord, id: &str, commit: &str) -> (b: bool)
    ensures
        b == observed_at_commit(*r, id@, commit@),
{
    match r {
        GraphRecord::Node(n) => str_eq(n.id.as_str(), id) && match &n.temporal {
            Some(t) => str_eq(t.git_commit.as_str(), commit),
            None => false,
        },
        _ => false,
    }
}

fn any_observation(records: &Vec<GraphRecord>, id: &str, commit: &str) -> (b: bool)
    ensures
        b == exists|i: int|
            0 <= i < records@.len() && observed_at_commit(#[trigger] records@[i], id@, commit@),
{
    let mut i: usize = 0;
    while i < records.len()
        invariant
            i <= records@.len(),
            forall|k: int| 0 <= k < i ==> !observed_at_commit(#[trigger] records@[k], id@, commit@),
        decreases records@.len() - i,
    {
        if is_observation(&records[i], id, commit) {
            return true;
        }
        i = i + 1;
    }
    false
}

spec fn observed_below(s: Seq<GraphRecord>, id: Seq<char>, c: Seq<char>, n: int) -> bool {
    exists|i: int| 0 <= i < n && i < s.len() && observed_at_commit(#[trigger] s[i], id, c)
}

fn add_observed_commits(records: &Vec<GraphRecord>, id: &str, set: &mut StrSet)
    requires
        old(set).wf(),
    ensures
        final(set).wf(),
        forall|c: Seq<char>| #[trigger]
            final(set).has(c) <==> (old(set).has(c) || exists|i: int|
                0 <= i < records@.len() && observed_at_commit(#[trigger] records@[i], id@, c)),
{
    let ghost s = records@;
    let mut i: usize = 0;
    while i < records.len()
        invariant
            i <= records@.len(),
            s == records@,
            set.wf(),
            forall|c: Seq<char>| #[trigger]
                set.has(c) <==> (old(set).has(c) || observed_below(s, id@, c, i as int)),
        decreases records@.len() - i,
    {
        let ghost set0 = *set;
        match &records[i] {
            GraphRecord::Node(n) => {
                if str_eq(n.id.as_str(), id) {
                    match &n.temporal {
                        Some(t) => {
                            set.insert(t.git_commit.as_str());
                        },
                        None => {},
                    }
                }
            },
            _ => {},
        }
        proof {
            assert forall|c: Seq<char>| #[trigger]
                set.has(c) <==> (old(set).has(c) || observed_below(s, id@, c, i + 1)) by {
                assert(set0.has(c) <==> (old(set).has(c) || observed_below(s, id@, c, i as int)));
                if observed_below(s, id@, c, i + 1) && !observed_below(s, id@, c, i as int) {
                    let k = choose|k: int|
                        0 <= k < i + 1 && k < s.len() && observed_at_commit(
                            #[trigger] s[k],
                            id@,
                            c,
                        );
                    assert(k == i);
                }
                if observed_at_commit(s[i as int], id@, c) {
                    assert(observed_below(s, id@, c, i + 1));
                }
            }
        }
        i = i + 1;
    }
    proof {
        assert forall|c: Seq<char>| #[trigger]
            set.has(c) <==> (old(set).has(c) || exists|i: int|
                0 <= i < s.len() && observed_at_commit(#[trigger] s[i], id@, c)) by {
            assert(set.has(c) <==> (old(set).has(c) || observed_below(s, id@, c, s.len() as int)));
        }
    }
}

fn find_triple(records: &Vec<GraphRecord>, l: &EvidenceLink) -> (r: Option<String>)
    requires
        l@.target_repo_relative_path is Some,
        l@.target_git_commit is Some,
        l@.target_span is Some,
    ensures
        opt_view(r) == first_triple(records@, l@),
{
    let ghost s = records@;
    let mut i: usize = 0;
    assert(s.skip(0) =~= s);
    while i < records.len()
        invariant
            i <= records@.len(),
            s == records@,
            l@.target_repo_relative_path is Some,
            l@.target_git_commit is Some,
            l@.target_span is Some,
            first_triple(s, l@) == first_triple(s.skip(i as int), l@),
        decreases records@.len() - i,
    {
        proof {
            assert(s.skip(i as int)[0] == s[i as int]);
            assert(s.skip(i as int).drop_first() =~= s.skip(i + 1));
        }
        match &records[i] {
            GraphRecord::Node(n) => {
                let here = match (&l.target_repo_relative_path, &l.target_git_commit, &n.temporal) {
                    (Some(p), Some(c), Some(t)) => opt_is(&n.repo_relative_path, p.as_str())
                        && str_eq(t.git_commit.as_str(), c.as_str()),
                    _ => false,
                };
                let span = match (n.span, l.target_span) {
                    (Some(a), Some(b)) => a == b,
                    _ => false,
                };
                if here && span {
                    return Some(n.id.clone());
                }
            },
            _ => {},
        }
        i = i + 1;
    }
    None
}

proof fn lemma_first_triple_concat(a: Seq<GraphRecord>, b: Seq<GraphRecord>, l: EvidenceLinkView)
    ensures
        first_triple(a + b, l) == (match first_triple(a, l) {
            Some(id) => Some(id),
            None => first_triple(b, l),
        }),
    decreases a.len(),
{
    if a.len() == 0 {
        assert(a + b =~= b);
    } else {
        assert((a + b)[0] == a[0]);
        assert((a + b).drop_first() =~= a.drop_first() + b);
        lemma_first_triple_concat(a.drop_first(), b, l);
    }
}

fn batch_nodes(b: &Vec<GraphRecord>, id: &str) -> (r: (bool, bool))
    ensures
        r.0 == batch_has_node(b@, id@),
        r.1 == batch_has_other(b@, id@),
{
    let mut node = false;
    let mut other = false;
    let mut i: usize = 0;
    while i < b.len()
        invariant
            i <= b@.len(),
            node <==> exists|k: int|
                0 <= k < i && record_id(#[trigger] b@[k]) == id@ && b@[k] is Node,
            other <==> exists|k: int|
                0 <= k < i && record_id(#[trigger] b@[k]) == id@ && b@[k] !is Node,
        decreases b@.len() - i,
    {
        if str_eq(b[i].id(), id) {
            match &b[i] {
                GraphRecord::Node(_) => {
                    node = true;
                },
                _ => {
                    other = true;
                },
            }
        }
        i = i + 1;
    }
    (node, other)
}

fn resolve_named(
    b: &Vec<GraphRecord>,
    store: &StoreSnapshot,
    id: &str,
    l: &EvidenceLink,
) -> (r: Result<(String, Option<String>), ApiError>)
    ensures
        target_matches(r, named_target(b@, store.all@, store.current@, id@, l@)),
{
    let stored = find_first(&store.current, id);
    match stored {
        Some(GraphRecord::Node(_)) => {},
        Some(_) => {
            return Err(
                ApiError::bad_request(
                    concat3(
                        "evidence link target '",
                        id,
                        "' is not a node record; only node records may be evidence targets",
                    ),
                ),
            );
        },
        None => {},
    }
    let (node, other) = batch_nodes(b, id);
    if other && !node {
        return Err(
            ApiError::bad_request(
                concat3(
                    "evidence link target '",
                    id,
                    "' in the current batch is not a node record",
                ),
            ),
        );
    }
    if stored.is_none() && !node {
        return Err(
            ApiError::new(
                ErrorCode::UnresolvedEvidenceTarget,
                concat3("evidence link target '", id, "' not found in store or batch"),
            ),
        );
    }
    match validate_evidence_target_domain(id, l.target_domain.as_str()) {
        Err(e) => {
            return Err(e);
        },
        Ok(_) => {},
    }
    match &l.as_of_commit {
        Some(c) => {
            if any_observation(&store.all, id, c.as_str()) || any_observation(b, id, c.as_str()) {
                Ok((id.to_owned(), Some(c.clone())))
            } else {
                Err(
                    ApiError::new(
                        ErrorCode::UnresolvedEvidenceTarget,
                        concat5(
                            "evidence link target '",
                            id,
                            "' has no temporal observation at commit '",
                            c.as_str(),
                            "'",
                        ),
                    ),
                )
            }
        },
        None => {
            let mut commits = StrSet::new();
            add_observed_commits(&store.all, id, &mut commits);
            add_observed_commits(b, id, &mut commits);
            proof {
                let p = |c: Seq<char>| has_observation(store.all@, b@, id@, c);
                assert forall|c: Seq<char>| #[trigger] commits.has(c) <==> p(c) by {}
                crate::evidence_freshness::lemma_in_order(p, commits);
            }
            let n: usize = commits.len();
            if n > 1 {
                Err(
                    ApiError::bad_request(
                        concat5(
                            "evidence link to '",
                            id,
                            "' is ambiguous: the target has ",
                            decimal(n as u64).as_str(),
                            " temporal observations; supply as_of_commit to select a specific observation",
                        ),
                    ),
                )
            } else {
                Ok((id.to_owned(), None))
            }
        },
    }
}

fn resolve_placed(b: &Vec<GraphRecord>, store: &StoreSnapshot, l: &EvidenceLink) -> (r: Result<
    (String, Option<String>),
    ApiError,
>)
    ensures
        target_matches(r, placed_target(b@, store.all@, l@)),
{
    let path = match &l.target_repo_relative_path {
        Some(p) => p,
        None => {
            return Err(
                ApiError::missing_field(
                    "evidence_links[].target_record_id or (target_repo_relative_path, target_git_commit, target_span)",
                ),
            );
        },
    };
    let commit = match &l.target_git_commit {
        Some(c) => c,
        None => {
            return Err(ApiError::missing_field("evidence_links[].target_git_commit"));
        },
    };
    if l.target_span.is_none() {
        return Err(
            ApiError::missing_field(
                "evidence_links[].target_span (required for triple evidence target lookup to avoid ambiguity)",
            ),
        );
    }
    proof {
        lemma_first_triple_concat(store.all@, b@, l@);
    }
    let found = match find_triple(&store.all, l) {
        Some(id) => Some(id),
        None => find_triple(b, l),
    };
    match found {
        None => Err(
            ApiError::new(
                ErrorCode::UnresolvedEvidenceTarget,
                concat5(
                    "evidence link target not found by triple (path=",
                    path.as_str(),
                    ", commit=",
                    commit.as_str(),
                    ")",
                ),
            ),
        ),
        Some(id) => {
            match validate_evidence_target_domain(id.as_str(), l.target_domain.as_str()) {
                Err(e) => {
                    return Err(e);
                },
                Ok(_) => {},
            }
            match &l.as_of_commit {
                Some(a) => {
                    if !str_eq(a.as_str(), commit.as_str()) {
                        return Err(
                            ApiError::bad_request(
                                concat5(
                                    "evidence link triple resolved to commit '",
                                    commit.as_str(),
                                    "' but as_of_commit '",
                                    a.as_str(),
                                    "' conflicts; omit as_of_commit or set it to the same value as target_git_commit",
                                ),
                            ),
                        );
                    }
                },
                None => {},
            }
            Ok((id, Some(commit.clone())))
        },
    }
}

/// Resolves the target of a link and the commit by which its edge is routed. A
/// target may stand in the store or in the batch itself.
pub fn resolve_evidence_target(
    l: &EvidenceLink,
    store: &StoreSnapshot,
    b: &Vec<GraphRecord>,
) -> (r: Result<(String, Option<String>), ApiError>)
    ensures
        target_matches(r, link_target(b@, store.all@, store.current@, l@)),
{
    match &l.target_record_id {
        Some(id) => resolve_named(b, store, id.as_str(), l),
        None => resolve_placed(b, store, l),
    }
}

/// The kind of a node, from the batch where it is there, else from the store.
pub open spec fn known_kind(
    b: Seq<GraphRecord>,
    current: Seq<GraphRecord>,
    id: Seq<char>,
) -> Option<NodeKind> {
    let r = match first_with_id(b, id) {
        Some(r) => Some(r),
        None => first_with_id(current, id),
    };
    match r {
        Some(GraphRecord::Node(n)) => Some(n.kind),
        _ => None,
    }
}

/// Looks up the kind of a node.
pub fn lookup_node_kind(id: &str, b: &Vec<GraphRecord>, store: &StoreSnapshot) -> (r: Option<
    NodeKind,
>)
    ensures
        r == known_kind(b@, store.current@, id@),
{
    match find_first(b, id) {
        Some(GraphRecord::Node(n)) => Some(n.kind),
        Some(_) => None,
        None => match find_first(&store.current, id) {
            Some(GraphRecord::Node(n)) => Some(n.kind),
            _ => None,
        },
    }
}

// ---------------------------------------------------------------------------
// Submitted edges
// ---------------------------------------------------------------------------

/// Whether an edge with the label must state how sure it is.
pub open spec fn needs_confidence(label: EdgeLabel) -> bool {
    label == EdgeLabel::Observes || label == EdgeLabel::MentionsSymbol || label
        == EdgeLabel::ExplainsChange || label == EdgeLabel::Contradicts
}

/// What is wrong with the kinds of the ends of a submitted edge.
pub open spec fn edge_kind_error(
    b: Seq<GraphRecord>,
    current: Seq<GraphRecord>,
    e: EdgeView,
) -> Option<ErrorView> {
    let source = known_kind(b, current, e.source);
    let target = known_kind(b, current, e.target);
    if e.label == EdgeLabel::SessionOf {
        if source != Some(NodeKind::AgentSession) {
            Some(
                bad(
                    "agent-memory edge '"@ + e.id
                        + "' SESSION_OF requires an AgentSession source; got "@ + kind_text(source),
                ),
            )
        } else if target != Some(NodeKind::Agent) {
            Some(
                bad(
                    "agent-memory edge '"@ + e.id + "' SESSION_OF requires an Agent target; got "@
                        + kind_text(target),
                ),
            )
        } else {
            None
        }
    } else if e.label == EdgeLabel::AuthoredBy {
        if target != Some(NodeKind::AgentSession) {
            Some(
                bad(
                    "agent-memory edge '"@ + e.id
                        + "' AUTHORED_BY requires an AgentSession target; got "@ + kind_text(target),
                ),
            )
        } else {
            None
        }
    } else if cites_evidence(e.label) {
        endpoint_error(source, e.label, target, e.target)
    } else {
        None
    }
}

/// What is wrong with a submitted edge.
pub open spec fn edge_error(
    b: Seq<GraphRecord>,
    current: Seq<GraphRecord>,
    g: Map<Seq<char>, ConfidenceGrade>,
    e: EdgeView,
) -> Option<ErrorView> {
    if !has_prefix(e.id, "agent_memory:v1:"@) {
        if cites_evidence(e.label) {
            Some(
                bad(
                    "edge '"@ + e.id + "' uses evidence-link label '"@ + edge_label_name(e.label)
                        + "' but is not an agent_memory:v1: edge; evidence relations are only permitted on agent-memory edges"@,
                ),
            )
        } else {
            None
        }
    } else if code_topology(e.label) {
        Some(
            bad(
                "agent-memory edge '"@ + e.id + "' uses codegraph-topology label '"@
                    + edge_label_name(e.label)
                    + "'; only evidence-link and agent-memory structural labels are permitted for agent-memory edges"@,
            ),
        )
    } else if e.schema_version != AGENT_MEMORY_SCHEMA_VERSION {
        Some(
            bad(
                "agent-memory edge '"@ + e.id + "' has schema_version "@ + decimal_seq(
                    e.schema_version as nat,
                ) + " but only version "@ + decimal_seq(AGENT_MEMORY_SCHEMA_VERSION as nat)
                    + " is accepted"@,
            ),
        )
    } else if needs_confidence(e.label) && !(e.confidence is Some && grade_of(g, e.confidence->0)
        == ConfidenceGrade::InRange) {
        Some(
            bad(
                "agent-memory edge '"@ + e.id + "' label '"@ + edge_label_name(e.label)
                    + "' requires a numeric confidence in [0.0, 1.0]"@,
            ),
        )
    } else if edge_domain_error(e.id, e.label, e.source, e.target) is Some {
        edge_domain_error(e.id, e.label, e.source, e.target)
    } else {
        edge_kind_error(b, current, e)
    }
}

fn check_edge_kinds(e: &EdgeRecord, b: &Vec<GraphRecord>, store: &StoreSnapshot) -> (r: Result<
    (),
    ApiError,
>)
    ensures
        error_of(r) == edge_kind_error(b@, store.current@, e@),
{
    let id = e.id.as_str();
    let source = lookup_node_kind(e.source.as_str(), b, store);
    let target = lookup_node_kind(e.target.as_str(), b, store);
    if e.label == EdgeLabel::SessionOf {
        match source {
            Some(NodeKind::AgentSession) => {},
            _ => {
                return Err(
                    ApiError::bad_request(
                        concat4(
                            "agent-memory edge '",
                            id,
                            "' SESSION_OF requires an AgentSession source; got ",
                            kind_name(source),
                        ),
                    ),
                );
            },
        }
        match target {
            Some(NodeKind::Agent) => {},
            _ => {
                return Err(
                    ApiError::bad_request(
                        concat4(
                            "agent-memory edge '",
                            id,
                            "' SESSION_OF requires an Agent target; got ",
                            kind_name(target),
                        ),
                    ),
                );
            },
        }
        return Ok(());
    }
    if e.label == EdgeLabel::AuthoredBy {
        match target {
            Some(NodeKind::AgentSession) => {},
            _ => {
                return Err(
                    ApiError::bad_request(
                        concat4(
                            "agent-memory edge '",
                            id,
                            "' AUTHORED_BY requires an AgentSession target; got ",
                            kind_name(target),
                        ),
                    ),
                );
            },
        }
        return Ok(());
    }
    if e.label.is_evidence_link_label() {
        return validate_evidence_endpoint_constraints(source, e.label, target, e.target.as_str());
    }
    Ok(())
}

/// Checks a submitted edge.
pub fn validate_submitted_edge(
    e: &EdgeRecord,
    b: &Vec<GraphRecord>,
    store: &StoreSnapshot,
    grades: &ConfidenceTable,
) -> (r: Result<(), ApiError>)
    ensures
        error_of(r) == edge_error(b@, store.current@, grades.grades(), e@),
{
    let id = e.id.as_str();
    let name = e.label.as_str();
    if !starts_with(id, "agent_memory:v1:") {
        if e.label.is_evidence_link_label() {
            return Err(
                ApiError::bad_request(
                    concat5(
                        "edge '",
                        id,
                        "' uses evidence-link label '",
                        name,
                        "' but is not an agent_memory:v1: edge; evidence relations are only permitted on agent-memory edges",
                    ),
                ),
            );
        }
        return Ok(());
    }
    if e.label.is_codegraph_topology_label() {
        return Err(
            ApiError::bad_request(
                concat5(
                    "agent-memory edge '",
                    id,
                    "' uses codegraph-topology label '",
                    name,
                    "'; only evidence-link and agent-memory structural labels are permitted for agent-memory edges",
                ),
            ),
        );
    }
    if e.schema_version != AGENT_MEMORY_SCHEMA_VERSION {
        return Err(
            ApiError::bad_request(
                concat7(
                    "agent-memory edge '",
                    id,
                    "' has schema_version ",
                    decimal(e.schema_version as u64).as_str(),
                    " but only version ",
                    decimal(AGENT_MEMORY_SCHEMA_VERSION as u64).as_str(),
                    " is accepted",
                ),
            ),
        );
    }
    let sure = match &e.confidence {
        Some(c) => grades.grade(c.as_str()) == ConfidenceGrade::InRange,
        None => false,
    };
    if !sure && (e.label == EdgeLabel::Observes || e.label == EdgeLabel::MentionsSymbol || e.label
        == EdgeLabel::ExplainsChange || e.label == EdgeLabel::Contradicts) {
        return Err(
            ApiError::bad_request(
                concat5(
                    "agent-memory edge '",
                    id,
                    "' label '",
                    name,
                    "' requires a numeric confidence in [0.0, 1.0]",
                ),
            ),
        );
    }
    match validate_agent_memory_edge_endpoints(id, e.label, e.source.as_str(), e.target.as_str()) {
        Err(x) => {
            return Err(x);
        },
        Ok(_) => {},
    }
    check_edge_kinds(e, b, store)
}

// ---------------------------------------------------------------------------
// Submitted nodes
// ---------------------------------------------------------------------------

/// Whether an optional text is there and not empty.
pub open spec fn filled(o: Option<Seq<char>>) -> bool {
    o is Some && o->0.len() > 0
}

/// Whether an optional text is there and not empty.
pub fn is_filled(o: &Option<String>) -> (r: bool)
    ensures
        r == filled(opt_view(*o)),
{
    match o {
        Some(s) => !s.as_str().is_empty(),
        None => false,
    }
}

/// Whether nodes of the kind belong to the agent memory.
pub open spec fn memory_kind(kind: NodeKind) -> bool {
    kind == NodeKind::Agent || kind == NodeKind::AgentSession || kind == NodeKind::Observation
        || kind == NodeKind::Task || kind == NodeKind::CommandEvidence || kind == NodeKind::AgentRun
        || kind == NodeKind::AgentTurn || kind == NodeKind::ToolCall || kind == NodeKind::FileEdit
        || kind == NodeKind::Failure || kind == NodeKind::Decision
}

fn is_memory_kind(kind: NodeKind) -> (r: bool)
    ensures
        r == memory_kind(kind),
{
    match kind {
        NodeKind::Agent
        | NodeKind::AgentSession
        | NodeKind::Observation
        | NodeKind::Task
        | NodeKind::CommandEvidence
        | NodeKind::AgentRun
        | NodeKind::AgentTurn
        | NodeKind::ToolCall
        | NodeKind::FileEdit
        | NodeKind::Failure
        | NodeKind::Decision => true,
        _ => false,
    }
}

/// What is said of a text that names no kind of agent.
pub open spec fn unknown_kind_error(product: Option<Seq<char>>, s: Seq<char>) -> ErrorView {
    bad(
        "agent_kind '"@ + s + "' is not a recognized value; expected one of: "@ + join_seq(
            agent_kinds(product),
            ", "@,
        ),
    )
}

/// The kinds of agent that the schema of the agent memory publishes. The second of them is
/// the name of a product, where one is configured.
pub open spec fn agent_kinds(product: Option<Seq<char>>) -> Seq<Seq<char>> {
    match product {
        Some(p) => seq!["codex"@, p, "vantage"@, "rust-swe-agent"@, "human"@, "other"@],
        None => seq!["codex"@, "vantage"@, "rust-swe-agent"@, "human"@, "other"@],
    }
}

/// The kinds of agent that the schema of the agent memory publishes. The second of them is
/// the name of a product, where one is configured.
pub fn published_agent_kinds(product: &Option<String>) -> (r: Vec<String>)
    ensures
        views(r@) == agent_kinds(opt_view(*product)),
{
    let mut r: Vec<String> = Vec::new();
    r.push("codex".to_owned());
    if let Some(p) = product {
        r.push(p.clone());
    }
    r.push("vantage".to_owned());
    r.push("rust-swe-agent".to_owned());
    r.push("human".to_owned());
    r.push("other".to_owned());
    assert(views(r@) =~= agent_kinds(opt_view(*product)));
    r
}

/// Checks that a text names one of the kinds of agent.
pub fn check_agent_kind(product: &Option<String>, s: &str) -> (r: Result<(), ApiError>)
    ensures
        error_of(r) == (if agent_kinds(opt_view(*product)).contains(s@) {
            None
        } else {
            Some(unknown_kind_error(opt_view(*product), s@))
        }),
{
    let kinds = published_agent_kinds(product);
    if contains_string(&kinds, s) {
        return Ok(());
    }
    Err(
        ApiError::bad_request(
            concat4(
                "agent_kind '",
                s,
                "' is not a recognized value; expected one of: ",
                join(&kinds, ", ").as_str(),
            ),
        ),
    )
}

/// The first field of provenance that an agent-memory node lacks. An agent belongs to
/// no session.
pub open spec fn unset_provenance(n: NodeView) -> Option<Seq<char>> {
    if !filled(n.agent_id) {
        Some("agent_id"@)
    } else if !filled(n.agent_kind) {
        Some("agent_kind"@)
    } else if n.kind == NodeKind::Agent {
        None
    } else if !filled(n.session_id) {
        Some("session_id"@)
    } else if !filled(n.observed_at) {
        Some("observed_at"@)
    } else if !filled(n.ingested_at) {
        Some("ingested_at"@)
    } else {
        None
    }
}

fn find_unset_provenance(n: &NodeRecord) -> (r: Option<&'static str>)
    ensures
        opt_str_view(r) == unset_provenance(n@),
{
    if !is_filled(&n.agent_id) {
        Some("agent_id")
    } else if !is_filled(&n.agent_kind) {
        Some("agent_kind")
    } else if n.kind == NodeKind::Agent {
        None
    } else if !is_filled(&n.session_id) {
        Some("session_id")
    } else if !is_filled(&n.observed_at) {
        Some("observed_at")
    } else if !is_filled(&n.ingested_at) {
        Some("ingested_at")
    } else {
        None
    }
}

/// What is wrong with a time field: it is filled, but not with a time.
pub open spec fn time_error(field: Seq<char>, value: Option<Seq<char>>) -> Option<ErrorView> {
    if filled(value) && rfc3339_instant_of(value->0) is None {
        Some(bad(field + " '"@ + value->0 + "' is not a valid RFC 3339 timestamp"@))
    } else {
        None
    }
}

fn check_time(field: &str, value: &Option<String>) -> (r: Result<(), ApiError>)
    ensures
        error_of(r) == time_error(field@, opt_view(*value)),
{
    match value {
        Some(v) => {
            if !v.as_str().is_empty() && !is_rfc3339(v.as_str()) {
                return Err(
                    ApiError::bad_request(
                        concat4(
                            field,
                            " '",
                            v.as_str(),
                            "' is not a valid RFC 3339 timestamp",
                        ),
                    ),
                );
            }
            Ok(())
        },
        None => Ok(()),
    }
}

/// What is wrong with the confidence of a node.
pub open spec fn node_confidence_error(
    n: NodeView,
    g: Map<Seq<char>, ConfidenceGrade>,
) -> Option<ErrorView> {
    if !filled(n.confidence) {
        if n.kind == NodeKind::Observation {
            Some(missing("confidence (required for Observation nodes)"@))
        } else {
            None
        }
    } else {
        match grade_of(g, n.confidence->0) {
            ConfidenceGrade::NotNumeric => Some(
                bad("confidence '"@ + n.confidence->0 + "' must be a numeric float string"@),
            ),
            ConfidenceGrade::OutOfRange => Some(
                bad("confidence '"@ + n.confidence->0 + "' must be in the range [0.0, 1.0]"@),
            ),
            ConfidenceGrade::InRange => None,
        }
    }
}

fn check_node_confidence(n: &NodeRecord, grades: &ConfidenceTable) -> (r: Result<(), ApiError>)
    ensures
        error_of(r) == node_confidence_error(n@, grades.grades()),
{
    match &n.confidence {
        Some(c) => {
            if !c.as_str().is_empty() {
                return match grades.grade(c.as_str()) {
                    ConfidenceGrade::NotNumeric => Err(
                        ApiError::bad_request(
                            concat3("confidence '", c.as_str(), "' must be a numeric float string"),
                        ),
                    ),
                    ConfidenceGrade::OutOfRange => Err(
                        ApiError::bad_request(
                            concat3(
                                "confidence '",
                                c.as_str(),
                                "' must be in the range [0.0, 1.0]",
                            ),
                        ),
                    ),
                    ConfidenceGrade::InRange => Ok(()),
                };
            }
        },
        None => {},
    }
    if n.kind == NodeKind::Observation {
        return Err(ApiError::missing_field("confidence (required for Observation nodes)"));
    }
    Ok(())
}

/// The links of a node.
pub open spec fn links_of(n: NodeView) -> Seq<EvidenceLinkView> {
    match n.evidence_links {
        Some(s) => s,
        None => Seq::empty(),
    }
}

/// What is wrong with a node of the agent memory, its links aside.
pub open spec fn memory_node_error(
    n: NodeView,
    g: Map<Seq<char>, ConfidenceGrade>,
    product: Option<Seq<char>>,
) -> Option<ErrorView> {
    let kind = node_kind_name(n.kind);
    if !memory_kind(n.kind) {
        Some(
            bad(
                "node kind '"@ + kind
                    + "' is not permitted under the agent_memory:v1: namespace; use codegraph: IDs for code-graph nodes"@,
            ),
        )
    } else if n.schema_version != AGENT_MEMORY_SCHEMA_VERSION {
        Some(
            bad(
                "agent-memory node '"@ + n.id + "' has schema_version "@ + decimal_seq(
                    n.schema_version as nat,
                ) + " but only version "@ + decimal_seq(AGENT_MEMORY_SCHEMA_VERSION as nat)
                    + " is accepted"@,
            ),
        )
    } else if n.kind == NodeKind::Observation && links_of(n).len() == 0 {
        Some(missing("evidence_links (Observation requires at least one evidence link)"@))
    } else if unset_provenance(n) is Some {
        Some(
            missing(
                unset_provenance(n)->0 + " (required for agent-memory "@ + kind + " nodes)"@,
            ),
        )
    } else if !agent_kinds(product).contains(n.agent_kind->0) {
        Some(unknown_kind_error(product, n.agent_kind->0))
    } else if time_error("observed_at"@, n.observed_at) is Some {
        time_error("observed_at"@, n.observed_at)
    } else if time_error("ingested_at"@, n.ingested_at) is Some {
        time_error("ingested_at"@, n.ingested_at)
    } else if node_confidence_error(n, g) is Some {
        node_confidence_error(n, g)
    } else if n.kind == NodeKind::Observation && !filled(n.text) {
        Some(missing("text (required for Observation nodes)"@))
    } else if (n.kind == NodeKind::Agent || n.kind == NodeKind::AgentSession) && !filled(n.name) {
        Some(missing("name (required for "@ + kind + " nodes)"@))
    } else {
        None
    }
}

/// What is wrong with a submitted node, its links aside.
pub open spec fn node_error(
    n: NodeView,
    g: Map<Seq<char>, ConfidenceGrade>,
    product: Option<Seq<char>>,
) -> Option<ErrorView> {
    if links_of(n).len() > 0 && !has_prefix(n.id, "agent_memory:v1:"@) && !has_prefix(
        n.id,
        "verification:v1:"@,
    ) {
        Some(
            bad(
                "node '"@ + n.id
                    + "' has evidence_links but is not an agent-memory or verification record; evidence links are only supported for agent_memory:v1: and verification:v1: nodes"@,
            ),
        )
    } else if has_prefix(n.id, "agent_memory:v1:"@) {
        memory_node_error(n, g, product)
    } else {
        None
    }
}

fn link_count(n: &NodeRecord) -> (r: usize)
    ensures
        r == links_of(n@).len(),
{
    match &n.evidence_links {
        Some(v) => v.len(),
        None => 0,
    }
}

fn check_memory_node(
    n: &NodeRecord,
    grades: &ConfidenceTable,
    product: &Option<String>,
) -> (r: Result<(), ApiError>)
    ensures
        error_of(r) == memory_node_error(n@, grades.grades(), opt_view(*product)),
{
    let kind = n.kind.as_str();
    if !is_memory_kind(n.kind) {
        return Err(
            ApiError::bad_request(
                concat3(
                    "node kind '",
                    kind,
                    "' is not permitted under the agent_memory:v1: namespace; use codegraph: IDs for code-graph nodes",
                ),
            ),
        );
    }
    if n.schema_version != AGENT_MEMORY_SCHEMA_VERSION {
        return Err(
            ApiError::bad_request(
                concat7(
                    "agent-memory node '",
                    n.id.as_str(),
                    "' has schema_version ",
                    decimal(n.schema_version as u64).as_str(),
                    " but only version ",
                    decimal(AGENT_MEMORY_SCHEMA_VERSION as u64).as_str(),
                    " is accepted",
                ),
            ),
        );
    }
    if n.kind == NodeKind::Observation && link_count(n) == 0 {
        return Err(
            ApiError::missing_field(
                "evidence_links (Observation requires at least one evidence link)",
            ),
        );
    }
    match find_unset_provenance(n) {
        Some(f) => {
            return Err(
                ApiError::missing_field(
                    concat4(f, " (required for agent-memory ", kind, " nodes)").as_str(),
                ),
            );
        },
        None => {},
    }
    match &n.agent_kind {
        Some(k) => {
            match check_agent_kind(product, k.as_str()) {
                Err(x) => {
                    return Err(x);
                },
                Ok(_) => {},
            }
        },
        None => {},
    }
    match check_time("observed_at", &n.observed_at) {
        Err(x) => {
            return Err(x);
        },
        Ok(_) => {},
    }
    match check_time("ingested_at", &n.ingested_at) {
        Err(x) => {
            return Err(x);
        },
        Ok(_) => {},
    }
    match check_node_confidence(n, grades) {
        Err(x) => {
            return Err(x);
        },
        Ok(_) => {},
    }
    if n.kind == NodeKind::Observation && !is_filled(&n.text) {
        return Err(ApiError::missing_field("text (required for Observation nodes)"));
    }
    if (n.kind == NodeKind::Agent || n.kind == NodeKind::AgentSession) && !is_filled(&n.name) {
        return Err(
            ApiError::missing_field(concat3("name (required for ", kind, " nodes)").as_str()),
        );
    }
    Ok(())
}

/// Checks a submitted node, its links aside.
pub fn validate_submitted_node(
    n: &NodeRecord,
    grades: &ConfidenceTable,
    product: &Option<String>,
) -> (r: Result<(), ApiError>)
    ensures
        error_of(r) == node_error(n@, grades.grades(), opt_view(*product)),
{
    let memory = starts_with(n.id.as_str(), "agent_memory:v1:");
    if link_count(n) > 0 && !memory && !starts_with(n.id.as_str(), "verification:v1:") {
        return Err(
            ApiError::bad_request(
                concat3(
                    "node '",
                    n.id.as_str(),
                    "' has evidence_links but is not an agent-memory or verification record; evidence links are only supported for agent_memory:v1: and verification:v1: nodes",
                ),
            ),
        );
    }
    if memory {
        check_memory_node(n, grades, product)
    } else {
        Ok(())
    }
}

} // verus!
