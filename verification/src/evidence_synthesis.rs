//! The edges that accepted evidence links become.

use vstd::prelude::*;
use vstd::string::*;

use crate::api_error::{bad, error_of, missing, ApiError, ErrorView};
use crate::evidence_edges::{
    edge_error, grade_of, known_kind, link_target, links_of, lookup_node_kind, node_error,
    resolve_evidence_target, validate_submitted_edge, validate_submitted_node, ConfidenceGrade,
    ConfidenceTable, StoreSnapshot,
};
use crate::evidence_rules::{
    declared_domain_error, endpoint_error, validate_declared_domain,
    validate_evidence_endpoint_constraints,
};
use crate::identity::{stable_id, stable_id_of};
use crate::ir::{
    cites_evidence, edge_label_name, label_named, AGENT_MEMORY_SCHEMA_VERSION, EdgeLabel,
    EdgeRecord, EdgeView, EvidenceLink, EvidenceLinkView, GraphRecord, NodeKind, NodeRecord,
    NodeView, TemporalMetadata, TemporalView,
};
use crate::text::{
    as_opt_str, concat3, concat4, has_prefix, opt_str_eq, opt_view, str_eq, str_views, views,
};

verus! {

// ---------------------------------------------------------------------------
// One link
// ---------------------------------------------------------------------------

/// What a batch is checked against: the batch itself, every stored version, what
/// reading an identifier back gives, the grades of the confidence texts, and the kind of
/// agent that is named by its product.
pub struct EvidenceBasis {
    pub batch: Seq<GraphRecord>,
    pub all: Seq<GraphRecord>,
    pub current: Seq<GraphRecord>,
    pub grades: Map<Seq<char>, ConfidenceGrade>,
    pub product: Option<Seq<char>>,
}

/// The basis that a batch, a snapshot and a table of grades make.
pub open spec fn basis(
    batch: Seq<GraphRecord>,
    store: StoreSnapshot,
    grades: ConfidenceTable,
) -> EvidenceBasis {
    EvidenceBasis {
        batch,
        all: store.all@,
        current: store.current@,
        grades: grades.grades(),
        product: opt_view(store.product_kind),
    }
}

/// A link that has been accepted.
pub struct ResolvedLink {
    /// The node that carries the link.
    pub node_id: String,
    /// Where the link stands among the links of its node.
    pub link_index: usize,
    /// The node that the link cites.
    pub target_id: String,
    /// The relation.
    pub edge_label: EdgeLabel,
    /// How sure the link is.
    pub confidence: String,
    /// The commit by which the edge is routed.
    pub routing_commit: Option<String>,
    /// Whether the target was found by path, span and commit.
    pub was_triple_resolved: bool,
}

/// The view of a [`ResolvedLink`].
#[verifier::ext_equal]
pub struct ResolvedView {
    pub node_id: Seq<char>,
    pub link_index: int,
    pub target_id: Seq<char>,
    pub edge_label: EdgeLabel,
    pub confidence: Seq<char>,
    pub routing_commit: Option<Seq<char>>,
    pub was_triple_resolved: bool,
}

impl View for ResolvedLink {
    type V = ResolvedView;

    open spec fn view(&self) -> ResolvedView {
        ResolvedView {
            node_id: self.node_id@,
            link_index: self.link_index as int,
            target_id: self.target_id@,
            edge_label: self.edge_label,
            confidence: self.confidence@,
            routing_commit: opt_view(self.routing_commit),
            was_triple_resolved: self.was_triple_resolved,
        }
    }
}

/// The views of resolved links.
pub open spec fn resolved_views(s: Seq<ResolvedLink>) -> Seq<ResolvedView> {
    s.map_values(|x: ResolvedLink| x@)
}

/// What is wrong with the confidence of a link.
pub open spec fn link_confidence_error(
    g: Map<Seq<char>, ConfidenceGrade>,
    confidence: Seq<char>,
) -> Option<ErrorView> {
    if confidence.len() == 0 {
        Some(missing("evidence_links[].confidence"@))
    } else {
        match grade_of(g, confidence) {
            ConfidenceGrade::NotNumeric => Some(
                bad(
                    "evidence_links[].confidence '"@ + confidence
                        + "' must be a numeric float string"@,
                ),
            ),
            ConfidenceGrade::OutOfRange => Some(
                bad(
                    "evidence_links[].confidence '"@ + confidence
                        + "' must be in the range [0.0, 1.0]"@,
                ),
            ),
            ConfidenceGrade::InRange => None,
        }
    }
}

/// The label of the relation of a link, which must cite evidence and suit the domain
/// that the link declares.
pub open spec fn link_label(l: EvidenceLinkView) -> Result<EdgeLabel, ErrorView> {
    match label_named(l.relation) {
        None => Err(bad("unknown evidence link relation '"@ + l.relation + "'"@)),
        Some(label) => if !cites_evidence(label) {
            Err(
                bad(
                    "evidence link relation '"@ + l.relation
                        + "' is a codegraph-internal label and may not be used in evidence links"@,
                ),
            )
        } else {
            match declared_domain_error(label, l.target_domain) {
                Some(e) => Err(e),
                None => Ok(label),
            }
        },
    }
}

/// What becomes of one link of a node.
#[verifier::opaque]
pub open spec fn link_outcome(
    x: EvidenceBasis,
    node_id: Seq<char>,
    kind: NodeKind,
    index: int,
    l: EvidenceLinkView,
) -> Result<ResolvedView, ErrorView> {
    match link_target(x.batch, x.all, x.current, l) {
        Err(e) => Err(e),
        Ok((target, commit)) => match link_confidence_error(x.grades, l.confidence) {
            Some(e) => Err(e),
            None => match link_label(l) {
                Err(e) => Err(e),
                Ok(label) => match endpoint_error(
                    Some(kind),
                    label,
                    known_kind(x.batch, x.current, target),
                    target,
                ) {
                    Some(e) => Err(e),
                    None => Ok(
                        ResolvedView {
                            node_id,
                            link_index: index,
                            target_id: target,
                            edge_label: label,
                            confidence: l.confidence,
                            routing_commit: commit,
                            was_triple_resolved: l.target_record_id is None,
                        },
                    ),
                },
            },
        },
    }
}

/// Whether an outcome is the one that the specification gives.
pub open spec fn link_matches(
    r: Result<ResolvedLink, ApiError>,
    o: Result<ResolvedView, ErrorView>,
) -> bool {
    match (r, o) {
        (Ok(l), Ok(v)) => l@ == v,
        (Err(e), Err(f)) => e@ == f,
        _ => false,
    }
}

fn check_link_confidence(confidence: &str, grades: &ConfidenceTable) -> (r: Result<(), ApiError>)
    ensures
        error_of(r) == link_confidence_error(grades.grades(), confidence@),
{
    if confidence.is_empty() {
        return Err(ApiError::missing_field("evidence_links[].confidence"));
    }
    match grades.grade(confidence) {
        ConfidenceGrade::NotNumeric => Err(
            ApiError::bad_request(
                concat3(
                    "evidence_links[].confidence '",
                    confidence,
                    "' must be a numeric float string",
                ),
            ),
        ),
        ConfidenceGrade::OutOfRange => Err(
            ApiError::bad_request(
                concat3(
                    "evidence_links[].confidence '",
                    confidence,
                    "' must be in the range [0.0, 1.0]",
                ),
            ),
        ),
        ConfidenceGrade::InRange => Ok(()),
    }
}

fn resolve_link_label(l: &EvidenceLink) -> (r: Result<EdgeLabel, ApiError>)
    ensures
        match (r, link_label(l@)) {
            (Ok(a), Ok(b)) => a == b,
            (Err(e), Err(f)) => e@ == f,
            _ => false,
        },
{
    match EdgeLabel::from_relation(l.relation.as_str()) {
        None => Err(
            ApiError::bad_request(
                concat3("unknown evidence link relation '", l.relation.as_str(), "'"),
            ),
        ),
        Some(label) => {
            if !label.is_evidence_link_label() {
                return Err(
                    ApiError::bad_request(
                        concat3(
                            "evidence link relation '",
                            l.relation.as_str(),
                            "' is a codegraph-internal label and may not be used in evidence links",
                        ),
                    ),
                );
            }
            match validate_declared_domain(label, l.target_domain.as_str()) {
                Err(e) => Err(e),
                Ok(_) => Ok(label),
            }
        },
    }
}

/// Checks one link of a node and finds its target.
pub fn resolve_link(
    n: &NodeRecord,
    index: usize,
    l: &EvidenceLink,
    b: &Vec<GraphRecord>,
    store: &StoreSnapshot,
    grades: &ConfidenceTable,
) -> (r: Result<ResolvedLink, ApiError>)
    ensures
        link_matches(r, link_outcome(basis(b@, *store, *grades), n.id@, n.kind, index as int, l@)),
{
    proof {
        reveal(link_outcome);
    }
    let (target, commit) = match resolve_evidence_target(l, store, b) {
        Err(e) => {
            return Err(e);
        },
        Ok(t) => t,
    };
    match check_link_confidence(l.confidence.as_str(), grades) {
        Err(e) => {
            return Err(e);
        },
        Ok(_) => {},
    }
    let label = match resolve_link_label(l) {
        Err(e) => {
            return Err(e);
        },
        Ok(label) => label,
    };
    let kind = lookup_node_kind(target.as_str(), b, store);
    match validate_evidence_endpoint_constraints(Some(n.kind), label, kind, target.as_str()) {
        Err(e) => {
            return Err(e);
        },
        Ok(_) => {},
    }
    Ok(
        ResolvedLink {
            node_id: n.id.clone(),
            link_index: index,
            target_id: target,
            edge_label: label,
            confidence: l.confidence.clone(),
            routing_commit: commit,
            was_triple_resolved: l.target_record_id.is_none(),
        },
    )
}

// ---------------------------------------------------------------------------
// All links of a batch
// ---------------------------------------------------------------------------

/// What becomes of the first `k` links of a node, after those of earlier records.
pub open spec fn links_outcome(
    x: EvidenceBasis,
    n: NodeView,
    k: int,
    before: Seq<ResolvedView>,
) -> Result<Seq<ResolvedView>, ErrorView>
    decreases k,
{
    if k <= 0 {
        Ok(before)
    } else {
        match links_outcome(x, n, k - 1, before) {
            Err(e) => Err(e),
            Ok(s) => match link_outcome(x, n.id, n.kind, k - 1, links_of(n)[k - 1]) {
                Err(e) => Err(e),
                Ok(r) => Ok(s.push(r)),
            },
        }
    }
}

/// What becomes of one record, after the links of earlier ones.
pub open spec fn record_outcome(
    x: EvidenceBasis,
    r: GraphRecord,
    before: Seq<ResolvedView>,
) -> Result<Seq<ResolvedView>, ErrorView> {
    match r {
        GraphRecord::Edge(e) => match edge_error(x.batch, x.current, x.grades, e@) {
            Some(e) => Err(e),
            None => Ok(before),
        },
        GraphRecord::Node(n) => match node_error(n@, x.grades, x.product) {
            Some(e) => Err(e),
            None => links_outcome(x, n@, links_of(n@).len() as int, before),
        },
        GraphRecord::Tombstone(_) => Ok(before),
    }
}

/// What becomes of the first `k` records of a batch: the accepted links in order, or
/// the first error.
pub open spec fn batch_outcome(x: EvidenceBasis, k: int) -> Result<Seq<ResolvedView>, ErrorView>
    decreases k,
{
    if k <= 0 {
        Ok(Seq::empty())
    } else {
        match batch_outcome(x, k - 1) {
            Err(e) => Err(e),
            Ok(s) => record_outcome(x, x.batch[k - 1], s),
        }
    }
}

/// An error stays: what follows a record in error changes nothing.
proof fn lemma_batch_error_stays(x: EvidenceBasis, j: int, k: int)
    requires
        0 <= j <= k,
        batch_outcome(x, j) is Err,
    ensures
        batch_outcome(x, k) == batch_outcome(x, j),
    decreases k,
{
    if j < k {
        lemma_batch_error_stays(x, j, k - 1);
    }
}

proof fn lemma_links_error_stays(x: EvidenceBasis, n: NodeView, j: int, k: int, s: Seq<ResolvedView>)
    requires
        0 <= j <= k,
        links_outcome(x, n, j, s) is Err,
    ensures
        links_outcome(x, n, k, s) == links_outcome(x, n, j, s),
    decreases k,
{
    if j < k {
        lemma_links_error_stays(x, n, j, k - 1, s);
    }
}

fn resolve_links(
    n: &NodeRecord,
    b: &Vec<GraphRecord>,
    store: &StoreSnapshot,
    grades: &ConfidenceTable,
    resolved: &mut Vec<ResolvedLink>,
) -> (r: Result<(), ApiError>)
    ensures
        match (
            r,
            links_outcome(
                basis(b@, *store, *grades),
                n@,
                links_of(n@).len() as int,
                resolved_views(old(resolved)@),
            ),
        ) {
            (Ok(_), Ok(s)) => resolved_views(final(resolved)@) == s,
            (Err(e), Err(f)) => e@ == f,
            _ => false,
        },
{
    let ghost x = basis(b@, *store, *grades);
    let ghost before = resolved_views(resolved@);
    match &n.evidence_links {
        None => Ok(()),
        Some(links) => {
            let mut i: usize = 0;
            while i < links.len()
                invariant
                    i <= links@.len(),
                    n.evidence_links == Some(*links),
                    before == resolved_views(old(resolved)@),
                    x == basis(b@, *store, *grades),
                    links_outcome(x, n@, i as int, before) == Ok::<Seq<ResolvedView>, ErrorView>(
                        resolved_views(resolved@),
                    ),
                decreases links@.len() - i,
            {
                let ghost rs = resolved@;
                assert(links_of(n@)[i as int] == links@[i as int]@);
                match resolve_link(n, i, &links[i], b, store, grades) {
                    Err(e) => {
                        proof {
                            lemma_links_error_stays(
                                x,
                                n@,
                                i + 1,
                                links_of(n@).len() as int,
                                before,
                            );
                        }
                        return Err(e);
                    },
                    Ok(r) => {
                        let ghost rv = r@;
                        resolved.push(r);
                        assert(resolved_views(resolved@) =~= resolved_views(rs).push(rv));
                    },
                }
                i = i + 1;
            }
            Ok(())
        },
    }
}

/// Checks a batch and finds the targets of its links, in order.
pub fn resolve_batch(
    b: &Vec<GraphRecord>,
    store: &StoreSnapshot,
    grades: &ConfidenceTable,
) -> (r: Result<Vec<ResolvedLink>, ApiError>)
    ensures
        match (r, batch_outcome(basis(b@, *store, *grades), b@.len() as int)) {
            (Ok(v), Ok(s)) => resolved_views(v@) == s,
            (Err(e), Err(f)) => e@ == f,
            _ => false,
        },
{
    let ghost x = basis(b@, *store, *grades);
    let mut resolved: Vec<ResolvedLink> = Vec::new();
    let mut i: usize = 0;
    assert(resolved_views(resolved@) =~= Seq::<ResolvedView>::empty());
    while i < b.len()
        invariant
            i <= b@.len(),
            x == basis(b@, *store, *grades),
            batch_outcome(x, i as int) == Ok::<Seq<ResolvedView>, ErrorView>(
                resolved_views(resolved@),
            ),
        decreases b@.len() - i,
    {
        match &b[i] {
            GraphRecord::Edge(e) => {
                match validate_submitted_edge(e, b, store, grades) {
                    Err(e) => {
                        proof {
                            lemma_batch_error_stays(x, i + 1, b@.len() as int);
                        }
                        return Err(e);
                    },
                    Ok(_) => {},
                }
            },
            GraphRecord::Node(n) => {
                match validate_submitted_node(n, grades, &store.product_kind) {
                    Err(e) => {
                        proof {
                            lemma_batch_error_stays(x, i + 1, b@.len() as int);
                        }
                        return Err(e);
                    },
                    Ok(_) => {},
                }
                match resolve_links(n, b, store, grades, &mut resolved) {
                    Err(e) => {
                        proof {
                            lemma_batch_error_stays(x, i + 1, b@.len() as int);
                        }
                        return Err(e);
                    },
                    Ok(_) => {},
                }
            },
            GraphRecord::Tombstone(_) => {},
        }
        i = i + 1;
    }
    Ok(resolved)
}

// ---------------------------------------------------------------------------
// Edges
// ---------------------------------------------------------------------------

/// The identifier of the edge that a link becomes.
pub open spec fn edge_id_of(r: ResolvedView) -> Seq<char> {
    memory_edge_id(r.edge_label, r.node_id, r.target_id)
}

/// The identifier of an agent-memory edge.
pub open spec fn memory_edge_id(label: EdgeLabel, source: Seq<char>, target: Seq<char>) -> Seq<char> {
    stable_id_of(
        "agent_memory"@,
        AGENT_MEMORY_SCHEMA_VERSION as nat,
        seq!["edge"@, edge_label_name(label), source, target],
    )
}

/// The identifier of an agent-memory edge.
pub fn agent_memory_edge_id(label: EdgeLabel, source: &str, target: &str) -> (r: String)
    ensures
        r@ == memory_edge_id(label, source@, target@),
{
    let mut parts: Vec<&str> = Vec::new();
    parts.push("edge");
    parts.push(label.as_str());
    parts.push(source);
    parts.push(target);
    proof {
        assert(str_views(parts@) =~= seq!["edge"@, edge_label_name(label), source@, target@]);
    }
    stable_id("agent_memory", AGENT_MEMORY_SCHEMA_VERSION, &parts)
}

/// The metadata by which an edge is routed to an observation: only the commit says
/// anything.
pub open spec fn routing_metadata(commit: Option<Seq<char>>) -> Option<TemporalView> {
    match commit {
        Some(c) => Some(
            TemporalView {
                git_commit: c,
                git_parent_commits: Seq::empty(),
                valid_time: "1970-01-01T00:00:00Z"@,
                observed_at: "1970-01-01T00:00:00Z"@,
                author_time: None,
                valid_time_source: None,
            },
        ),
        None => None,
    }
}

/// The edge that a link becomes.
pub open spec fn edge_of(r: ResolvedView) -> EdgeView {
    EdgeView {
        rest: None,
        id: edge_id_of(r),
        schema_version: AGENT_MEMORY_SCHEMA_VERSION,
        label: r.edge_label,
        source: r.node_id,
        target: r.target_id,
        confidence: Some(r.confidence),
        resolution: None,
        temporal: routing_metadata(r.routing_commit),
        summary: r.node_id + " "@ + edge_label_name(r.edge_label) + " (from evidence link)"@,
    }
}

/// The first of the links that becomes the edge.
pub open spec fn first_with_edge(s: Seq<ResolvedView>, id: Seq<char>) -> Option<ResolvedView>
    decreases s.len(),
{
    if s.len() == 0 {
        None
    } else if edge_id_of(s[0]) == id {
        Some(s[0])
    } else {
        first_with_edge(s.drop_first(), id)
    }
}

/// The edges of a list of links. A link that repeats an earlier one adds nothing; one
/// that becomes the same edge with another commit or confidence is a conflict.
pub open spec fn edges_outcome(s: Seq<ResolvedView>) -> Result<Seq<EdgeView>, ErrorView>
    decreases s.len(),
{
    if s.len() == 0 {
        Ok(Seq::empty())
    } else {
        match edges_outcome(s.drop_last()) {
            Err(e) => Err(e),
            Ok(es) => match first_with_edge(s.drop_last(), edge_id_of(s.last())) {
                None => Ok(es.push(edge_of(s.last()))),
                Some(p) => if p.routing_commit != s.last().routing_commit {
                    Err(
                        bad(
                            "evidence links for edge '"@ + edge_id_of(s.last())
                                + "' have conflicting as_of_commit values"@,
                        ),
                    )
                } else if p.confidence != s.last().confidence {
                    Err(
                        bad(
                            "evidence links for edge '"@ + edge_id_of(s.last())
                                + "' have conflicting confidence values"@,
                        ),
                    )
                } else {
                    Ok(es)
                },
            },
        }
    }
}

proof fn lemma_edges_error_stays(s: Seq<ResolvedView>, j: int, k: int)
    requires
        0 <= j <= k <= s.len(),
        edges_outcome(s.take(j)) is Err,
    ensures
        edges_outcome(s.take(k)) == edges_outcome(s.take(j)),
    decreases k,
{
    if j < k {
        lemma_edges_error_stays(s, j, k - 1);
        assert(s.take(k).drop_last() =~= s.take(k - 1));
    }
}

/// The views of edges.
pub open spec fn edge_views(s: Seq<EdgeRecord>) -> Seq<EdgeView> {
    s.map_values(|e: EdgeRecord| e@)
}

/// The views of nodes.
pub open spec fn node_views(s: Seq<NodeRecord>) -> Seq<NodeView> {
    s.map_values(|n: NodeRecord| n@)
}

fn make_edge(r: &ResolvedLink) -> (e: EdgeRecord)
    ensures
        e@ == edge_of(r@),
{
    let temporal = match &r.routing_commit {
        Some(c) => {
            let parents: Vec<String> = Vec::new();
            assert(views(parents@) =~= Seq::<Seq<char>>::empty());
            Some(
                TemporalMetadata {
                    git_commit: c.clone(),
                    git_parent_commits: parents,
                    valid_time: "1970-01-01T00:00:00Z".to_owned(),
                    observed_at: "1970-01-01T00:00:00Z".to_owned(),
                    author_time: None,
                    valid_time_source: None,
                },
            )
        },
        None => None,
    };
    EdgeRecord {
        rest: None,
        id: agent_memory_edge_id(r.edge_label, r.node_id.as_str(), r.target_id.as_str()),
        schema_version: AGENT_MEMORY_SCHEMA_VERSION,
        label: r.edge_label,
        source: r.node_id.clone(),
        target: r.target_id.clone(),
        confidence: Some(r.confidence.clone()),
        resolution: None,
        temporal,
        summary: concat4(
            r.node_id.as_str(),
            " ",
            r.edge_label.as_str(),
            " (from evidence link)",
        ),
    }
}

fn find_first_with_edge(resolved: &Vec<ResolvedLink>, ids: &Vec<String>, n: usize, id: &str) -> (r:
    Option<usize>)
    requires
        n <= resolved@.len(),
        n <= ids@.len(),
        forall|k: int| 0 <= k < n ==> (#[trigger] ids@[k])@ == edge_id_of(resolved@[k]@),
    ensures
        match r {
            Some(i) => i < n && first_with_edge(resolved_views(resolved@).take(n as int), id@)
                == Some(resolved@[i as int]@),
            None => first_with_edge(resolved_views(resolved@).take(n as int), id@) is None,
        },
{
    let ghost s = resolved_views(resolved@).take(n as int);
    let mut i: usize = 0;
    assert(s.skip(0) =~= s);
    while i < n
        invariant
            i <= n,
            n <= resolved@.len(),
            n <= ids@.len(),
            s == resolved_views(resolved@).take(n as int),
            forall|k: int| 0 <= k < n ==> (#[trigger] ids@[k])@ == edge_id_of(resolved@[k]@),
            first_with_edge(s, id@) == first_with_edge(s.skip(i as int), id@),
        decreases n - i,
    {
        proof {
            assert(s.skip(i as int)[0] == resolved@[i as int]@);
            assert(s.skip(i as int).drop_first() =~= s.skip(i + 1));
        }
        if str_eq(ids[i].as_str(), id) {
            return Some(i);
        }
        i = i + 1;
    }
    None
}

/// Turns accepted links into edges.
pub fn synthesize_edges(resolved: &Vec<ResolvedLink>) -> (r: Result<Vec<EdgeRecord>, ApiError>)
    ensures
        match (r, edges_outcome(resolved_views(resolved@))) {
            (Ok(v), Ok(s)) => edge_views(v@) == s,
            (Err(e), Err(f)) => e@ == f,
            _ => false,
        },
{
    let ghost s = resolved_views(resolved@);
    let mut edges: Vec<EdgeRecord> = Vec::new();
    let mut ids: Vec<String> = Vec::new();
    let mut i: usize = 0;
    assert(s.take(0) =~= Seq::<ResolvedView>::empty());
    assert(edge_views(edges@) =~= Seq::<EdgeView>::empty());
    while i < resolved.len()
        invariant
            i <= resolved@.len(),
            s == resolved_views(resolved@),
            ids@.len() == i,
            forall|k: int| 0 <= k < i ==> (#[trigger] ids@[k])@ == edge_id_of(resolved@[k]@),
            edges_outcome(s.take(i as int)) == Ok::<Seq<EdgeView>, ErrorView>(edge_views(edges@)),
        decreases resolved@.len() - i,
    {
        let edge = make_edge(&resolved[i]);
        let id = edge.id.clone();
        proof {
            assert(s.take(i + 1).drop_last() =~= s.take(i as int));
            assert(s.take(i + 1).last() == resolved@[i as int]@);
        }
        match find_first_with_edge(resolved, &ids, i, id.as_str()) {
            None => {
                let ghost es = edges@;
                let ghost ev = edge@;
                edges.push(edge);
                assert(edge_views(edges@) =~= edge_views(es).push(ev));
            },
            Some(j) => {
                if !opt_str_eq(
                    as_opt_str(&resolved[j].routing_commit),
                    as_opt_str(&resolved[i].routing_commit),
                ) {
                    proof {
                        lemma_edges_error_stays(s, i + 1, s.len() as int);
                        assert(s.take(s.len() as int) =~= s);
                    }
                    return Err(
                        ApiError::bad_request(
                            concat3(
                                "evidence links for edge '",
                                id.as_str(),
                                "' have conflicting as_of_commit values",
                            ),
                        ),
                    );
                }
                if !str_eq(resolved[j].confidence.as_str(), resolved[i].confidence.as_str()) {
                    proof {
                        lemma_edges_error_stays(s, i + 1, s.len() as int);
                        assert(s.take(s.len() as int) =~= s);
                    }
                    return Err(
                        ApiError::bad_request(
                            concat3(
                                "evidence links for edge '",
                                id.as_str(),
                                "' have conflicting confidence values",
                            ),
                        ),
                    );
                }
            },
        }
        ids.push(id);
        i = i + 1;
    }
    assert(s.take(s.len() as int) =~= s);
    Ok(edges)
}

// ---------------------------------------------------------------------------
// Canonical nodes
// ---------------------------------------------------------------------------

/// Whether the link stands at the position of the node and was found by place.
pub open spec fn placed_at(r: ResolvedView, id: Seq<char>, i: int) -> bool {
    r.was_triple_resolved && r.node_id == id && r.link_index == i
}

/// The target that was found by place for the link at the position of the node.
pub open spec fn resolution_at(s: Seq<ResolvedView>, id: Seq<char>, i: int) -> Option<Seq<char>>
    decreases s.len(),
{
    if s.len() == 0 {
        None
    } else if placed_at(s.last(), id, i) {
        Some(s.last().target_id)
    } else {
        resolution_at(s.drop_last(), id, i)
    }
}

/// Whether some link of the node was found by place.
pub open spec fn has_resolution(s: Seq<ResolvedView>, id: Seq<char>) -> bool {
    exists|k: int|
        0 <= k < s.len() && (#[trigger] s[k]).was_triple_resolved && s[k].node_id == id
}

/// The link with its target filled in, where it was found by place.
pub open spec fn canonical_link(l: EvidenceLinkView, target: Option<Seq<char>>) -> EvidenceLinkView {
    match target {
        Some(t) => EvidenceLinkView { target_record_id: Some(t), ..l },
        None => l,
    }
}

/// The links of a node with their targets filled in.
pub open spec fn canonical_links(
    s: Seq<ResolvedView>,
    id: Seq<char>,
    links: Seq<EvidenceLinkView>,
) -> Seq<EvidenceLinkView> {
    Seq::new(links.len(), |i: int| canonical_link(links[i], resolution_at(s, id, i)))
}

/// The node with the targets of its links filled in.
pub open spec fn canonical_node(s: Seq<ResolvedView>, n: NodeView) -> NodeView {
    NodeView { evidence_links: Some(canonical_links(s, n.id, links_of(n))), ..n }
}

/// The nodes of a batch of which some link was found by place, with the targets filled
/// in.
pub open spec fn canonical_nodes(s: Seq<ResolvedView>, b: Seq<GraphRecord>) -> Seq<NodeView>
    decreases b.len(),
{
    if b.len() == 0 {
        Seq::empty()
    } else {
        let rest = canonical_nodes(s, b.drop_last());
        match b.last() {
            GraphRecord::Node(n) => if n.evidence_links is Some && has_resolution(s, n.id@) {
                rest.push(canonical_node(s, n@))
            } else {
                rest
            },
            _ => rest,
        }
    }
}

fn find_resolution<'a>(resolved: &'a Vec<ResolvedLink>, id: &str, i: usize) -> (r: Option<&'a str>)
    ensures
        crate::text::opt_str_view(r) == resolution_at(resolved_views(resolved@), id@, i as int),
{
    let ghost s = resolved_views(resolved@);
    let mut k: usize = resolved.len();
    assert(s.take(k as int) =~= s);
    while k > 0
        invariant
            k <= resolved@.len(),
            s == resolved_views(resolved@),
            resolution_at(s, id@, i as int) == resolution_at(s.take(k as int), id@, i as int),
        decreases k,
    {
        proof {
            assert(s.take(k as int).last() == resolved@[k - 1]@);
            assert(s.take(k as int).drop_last() =~= s.take(k - 1));
        }
        k = k - 1;
        let r = &resolved[k];
        if r.was_triple_resolved && r.link_index == i && str_eq(r.node_id.as_str(), id) {
            return Some(r.target_id.as_str());
        }
    }
    None
}

fn any_resolution(resolved: &Vec<ResolvedLink>, id: &str) -> (b: bool)
    ensures
        b == has_resolution(resolved_views(resolved@), id@),
{
    let ghost s = resolved_views(resolved@);
    let mut k: usize = 0;
    while k < resolved.len()
        invariant
            k <= resolved@.len(),
            s == resolved_views(resolved@),
            forall|j: int|
                0 <= j < k ==> !((#[trigger] s[j]).was_triple_resolved && s[j].node_id == id@),
        decreases resolved@.len() - k,
    {
        assert(s[k as int] == resolved@[k as int]@);
        if resolved[k].was_triple_resolved && str_eq(resolved[k].node_id.as_str(), id) {
            return true;
        }
        k = k + 1;
    }
    false
}

fn make_canonical(resolved: &Vec<ResolvedLink>, n: &NodeRecord, links: &Vec<EvidenceLink>) -> (r:
    NodeRecord)
    requires
        n.evidence_links == Some(*links),
    ensures
        r@ == canonical_node(resolved_views(resolved@), n@),
{
    let ghost s = resolved_views(resolved@);
    let mut out: Vec<EvidenceLink> = Vec::new();
    let mut i: usize = 0;
    while i < links.len()
        invariant
            i <= links@.len(),
            out@.len() == i,
            s == resolved_views(resolved@),
            forall|k: int|
                0 <= k < i ==> (#[trigger] out@[k])@ == canonical_link(
                    links@[k]@,
                    resolution_at(s, n.id@, k),
                ),
        decreases links@.len() - i,
    {
        let mut l = links[i].copy();
        match find_resolution(resolved, n.id.as_str(), i) {
            Some(t) => {
                l.target_record_id = Some(t.to_owned());
            },
            None => {},
        }
        out.push(l);
        i = i + 1;
    }
    let mut c = n.copy();
    proof {
        assert(out@.map_values(|x: EvidenceLink| x@) =~= canonical_links(s, n.id@, links_of(n@)));
    }
    c.evidence_links = Some(out);
    c
}

/// The nodes of a batch of which some link was found by place, with the targets filled
/// in.
pub fn fill_canonical_nodes(resolved: &Vec<ResolvedLink>, b: &Vec<GraphRecord>) -> (r: Vec<NodeRecord>)
    ensures
        node_views(r@) == canonical_nodes(resolved_views(resolved@), b@),
{
    let ghost s = resolved_views(resolved@);
    let mut out: Vec<NodeRecord> = Vec::new();
    let mut i: usize = 0;
    assert(b@.take(0) =~= Seq::<GraphRecord>::empty());
    assert(node_views(out@) =~= Seq::<NodeView>::empty());
    while i < b.len()
        invariant
            i <= b@.len(),
            s == resolved_views(resolved@),
            node_views(out@) == canonical_nodes(s, b@.take(i as int)),
        decreases b@.len() - i,
    {
        proof {
            assert(b@.take(i + 1).last() == b@[i as int]);
            assert(b@.take(i + 1).drop_last() =~= b@.take(i as int));
        }
        match &b[i] {
            GraphRecord::Node(n) => {
                match &n.evidence_links {
                    Some(links) => {
                        if any_resolution(resolved, n.id.as_str()) {
                            let ghost before = out@;
                            let c = make_canonical(resolved, n, links);
                            let ghost cv = c@;
                            out.push(c);
                            assert(node_views(out@) =~= node_views(before).push(cv));
                        }
                    },
                    None => {},
                }
            },
            _ => {},
        }
        i = i + 1;
    }
    assert(b@.take(i as int) =~= b@);
    out
}

/// What checking the links of a batch gives: the edges that they become and the nodes
/// with filled-in targets, or the first error.
pub open spec fn evidence_outcome(x: EvidenceBasis) -> Result<
    (Seq<EdgeView>, Seq<NodeView>),
    ErrorView,
> {
    match batch_outcome(x, x.batch.len() as int) {
        Err(e) => Err(e),
        Ok(s) => match edges_outcome(s) {
            Err(e) => Err(e),
            Ok(es) => Ok((es, canonical_nodes(s, x.batch))),
        },
    }
}

/// Checks the links of a batch and turns them into edges. Nodes of which a link was
/// found by place come back with the target filled in.
pub fn validate_and_synthesize_evidence_edges(
    records: &Vec<GraphRecord>,
    store: &StoreSnapshot,
    grades: &ConfidenceTable,
) -> (r: Result<(Vec<EdgeRecord>, Vec<NodeRecord>), ApiError>)
    ensures
        match (r, evidence_outcome(basis(records@, *store, *grades))) {
            (Ok((es, ns)), Ok((x, y))) => edge_views(es@) == x && node_views(ns@) == y,
            (Err(e), Err(f)) => e@ == f,
            _ => false,
        },
{
    let resolved = match resolve_batch(records, store, grades) {
        Err(e) => {
            return Err(e);
        },
        Ok(v) => v,
    };
    let edges = match synthesize_edges(&resolved) {
        Err(e) => {
            return Err(e);
        },
        Ok(v) => v,
    };
    let nodes = fill_canonical_nodes(&resolved, records);
    Ok((edges, nodes))
}

// ---------------------------------------------------------------------------
// Laws
// ---------------------------------------------------------------------------

/// Whether an accepted link keeps the rules of its relation.
pub open spec fn keeps_rules(x: EvidenceBasis, r: ResolvedView) -> bool {
    &&& cites_evidence(r.edge_label)
    &&& has_prefix(r.node_id, "agent_memory:v1:"@) || has_prefix(r.node_id, "verification:v1:"@)
    &&& grade_of(x.grades, r.confidence) == ConfidenceGrade::InRange
    &&& exists|kind: NodeKind| #[trigger]
        endpoint_error(
            Some(kind),
            r.edge_label,
            known_kind(x.batch, x.current, r.target_id),
            r.target_id,
        ) is None
}

proof fn lemma_links_keep_rules(x: EvidenceBasis, n: NodeView, k: int, before: Seq<ResolvedView>, j: int)
    requires
        0 <= k <= links_of(n).len(),
        node_error(n, x.grades, x.product) is None,
        links_outcome(x, n, k, before) is Ok,
        0 <= j < links_outcome(x, n, k, before)->Ok_0.len(),
        forall|i: int| 0 <= i < before.len() ==> #[trigger] keeps_rules(x, before[i]),
    ensures
        keeps_rules(x, links_outcome(x, n, k, before)->Ok_0[j]),
    decreases k,
{
    if k > 0 {
        let s = links_outcome(x, n, k - 1, before)->Ok_0;
        if j < s.len() {
            lemma_links_keep_rules(x, n, k - 1, before, j);
        } else {
            reveal(link_outcome);
        }
    } else {
        assert(keeps_rules(x, before[j]));
    }
}

proof fn lemma_batch_keeps_rules(x: EvidenceBasis, k: int, j: int)
    requires
        0 <= k <= x.batch.len(),
        batch_outcome(x, k) is Ok,
        0 <= j < batch_outcome(x, k)->Ok_0.len(),
    ensures
        keeps_rules(x, batch_outcome(x, k)->Ok_0[j]),
    decreases k,
{
    if k > 0 {
        let s = batch_outcome(x, k - 1)->Ok_0;
        assert forall|i: int| 0 <= i < s.len() implies #[trigger] keeps_rules(x, s[i]) by {
            lemma_batch_keeps_rules(x, k - 1, i);
        }
        match x.batch[k - 1] {
            GraphRecord::Node(n) => {
                lemma_links_keep_rules(x, n@, links_of(n@).len() as int, s, j);
            },
            _ => {
                assert(keeps_rules(x, s[j]));
            },
        }
    }
}

proof fn lemma_edge_has_link(s: Seq<ResolvedView>, j: int) -> (k: int)
    requires
        edges_outcome(s) is Ok,
        0 <= j < edges_outcome(s)->Ok_0.len(),
    ensures
        0 <= k < s.len(),
        edges_outcome(s)->Ok_0[j] == edge_of(s[k]),
    decreases s.len(),
{
    let es = edges_outcome(s.drop_last())->Ok_0;
    if j < es.len() {
        lemma_edge_has_link(s.drop_last(), j)
    } else {
        s.len() - 1
    }
}

/// Every edge that comes out of a batch cites evidence, starts at a node of the agent
/// memory or of the verification domain, states a confidence between zero and one, and
/// ends at a node of a kind that its relation allows.
pub proof fn law_evidence_edges_keep_the_rules(x: EvidenceBasis, j: int)
    requires
        evidence_outcome(x) is Ok,
        0 <= j < evidence_outcome(x)->Ok_0.0.len(),
    ensures
        ({
            let e = evidence_outcome(x)->Ok_0.0[j];
            &&& cites_evidence(e.label)
            &&& has_prefix(e.source, "agent_memory:v1:"@) || has_prefix(
                e.source,
                "verification:v1:"@,
            )
            &&& e.confidence is Some && grade_of(x.grades, e.confidence->0)
                == ConfidenceGrade::InRange
            &&& exists|kind: NodeKind| #[trigger]
                endpoint_error(
                    Some(kind),
                    e.label,
                    known_kind(x.batch, x.current, e.target),
                    e.target,
                ) is None
        }),
{
    let s = batch_outcome(x, x.batch.len() as int)->Ok_0;
    let k = lemma_edge_has_link(s, j);
    lemma_batch_keeps_rules(x, x.batch.len() as int, k);
}

proof fn lemma_first_with_edge(s: Seq<ResolvedView>, k: int)
    requires
        0 <= k < s.len(),
    ensures
        first_with_edge(s, edge_id_of(s[k])) is Some,
    decreases s.len(),
{
    if k > 0 && edge_id_of(s[0]) != edge_id_of(s[k]) {
        assert(s.drop_first()[k - 1] == s[k]);
        lemma_first_with_edge(s.drop_first(), k - 1);
    }
}

/// No two edges that come out of a list of links have the same identifier.
pub proof fn law_evidence_edges_are_distinct(s: Seq<ResolvedView>, i: int, j: int)
    requires
        edges_outcome(s) is Ok,
        0 <= i < j < edges_outcome(s)->Ok_0.len(),
    ensures
        edges_outcome(s)->Ok_0[i].id != edges_outcome(s)->Ok_0[j].id,
    decreases s.len(),
{
    let t = s.drop_last();
    let es = edges_outcome(t)->Ok_0;
    if j < es.len() {
        law_evidence_edges_are_distinct(t, i, j);
    } else {
        let k = lemma_edge_has_link(t, i);
        lemma_first_with_edge(t, k);
    }
}

/// Repeating an accepted link at the end of a list changes neither the edges nor
/// whether there is a conflict.
pub proof fn law_repeated_link_adds_nothing(s: Seq<ResolvedView>, r: ResolvedView)
    requires
        first_with_edge(s, edge_id_of(r)) == Some(r),
    ensures
        edges_outcome(s.push(r)) == edges_outcome(s),
{
    assert(s.push(r).drop_last() =~= s);
}

/// A link that was found by place gets, in the canonical node, the target of the edge
/// that it became, unless a later record repeats its node and position.
pub proof fn law_canonical_link_agrees_with_edge(s: Seq<ResolvedView>, k: int)
    requires
        0 <= k < s.len(),
        s[k].was_triple_resolved,
        forall|j: int| k < j < s.len() ==> !placed_at(#[trigger] s[j], s[k].node_id, s[k].link_index),
    ensures
        resolution_at(s, s[k].node_id, s[k].link_index) == Some(edge_of(s[k]).target),
    decreases s.len(),
{
    let t = s.drop_last();
    if k < s.len() - 1 {
        assert(s.last() == s[s.len() - 1]);
        assert forall|j: int| k < j < t.len() implies !placed_at(
            #[trigger] t[j],
            t[k].node_id,
            t[k].link_index,
        ) by {
            assert(t[j] == s[j]);
        }
        law_canonical_link_agrees_with_edge(t, k);
    }
}

} // verus!
