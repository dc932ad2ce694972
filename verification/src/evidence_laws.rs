//! What evidence may be cited, and what becomes of a citation, said of the records.

use vstd::prelude::*;

use crate::evidence_edges::{edge_error, links_of, node_error, ConfidenceGrade};
use crate::evidence_rules::{declared_domain_error, edge_domain_error, endpoint_error};
use crate::evidence_synthesis::{
    batch_outcome, edge_id_of, edge_of, edges_outcome, evidence_outcome, first_with_edge,
    link_outcome, links_outcome, EvidenceBasis, ResolvedView,
};
use crate::ingest_rules::{key_of, recovery_key_error};
use crate::ir::{
    EdgeLabel, EdgeView, EvidenceLinkView, GraphRecord, NodeKind, NodeView,
    AGENT_MEMORY_SCHEMA_VERSION,
};
use crate::name_laws::law_relations_are_names_of_labels;
use crate::outside::rfc3339_instant_of;
use crate::text::has_prefix;

verus! {

/// Whether the kind is one of a check that was run: a verification, a test run, a status of
/// continuous integration, a benchmark, a coverage report or a proof.
pub open spec fn check_kind(k: NodeKind) -> bool {
    k == NodeKind::Verification || k == NodeKind::TestRun || k == NodeKind::CIStatus || k
        == NodeKind::BenchmarkRun || k == NodeKind::CoverageReport || k == NodeKind::ProofResult
}

/// What each relation joins: an observation observes, explains a change and is validated by a check;
/// edits and turns produce patches; calls produce evidence; edits, calls and runs touch files; what
/// fails fails on a symbol or a file; only a symbol is mentioned and only a task referred to.
pub proof fn law_what_each_relation_joins(source: NodeKind, target: NodeKind, id: Seq<char>)
    ensures
        ({
            let s = Some(source);
            let t = Some(target);
            &&& endpoint_error(s, EdgeLabel::Observes, t, id) is None <==> source
                == NodeKind::Observation
            &&& endpoint_error(s, EdgeLabel::ExplainsChange, t, id) is None <==> source
                == NodeKind::Observation && (target == NodeKind::Commit || target
                == NodeKind::Change)
            &&& endpoint_error(s, EdgeLabel::ValidatedBy, t, id) is None <==> source
                == NodeKind::Observation && check_kind(target)
            &&& endpoint_error(s, EdgeLabel::ProducedPatch, t, id) is None <==> (source
                == NodeKind::FileEdit || source == NodeKind::AgentTurn) && target
                == NodeKind::PatchArtifact
            &&& endpoint_error(s, EdgeLabel::ProducedEvidence, t, id) is None <==> source
                == NodeKind::ToolCall && (target == NodeKind::CommandRun || target
                == NodeKind::TestRun)
            &&& endpoint_error(s, EdgeLabel::TouchedFile, t, id) is None <==> (source
                == NodeKind::FileEdit || source == NodeKind::ToolCall || source
                == NodeKind::CommandRun) && target == NodeKind::File
            &&& endpoint_error(s, EdgeLabel::FailedOn, t, id) is None <==> (source
                == NodeKind::TestRun || source == NodeKind::CIStatus || source
                == NodeKind::Failure) && (target == NodeKind::Symbol || target == NodeKind::File)
            &&& endpoint_error(s, EdgeLabel::MentionsSymbol, t, id) is None <==> target
                == NodeKind::Symbol
            &&& endpoint_error(s, EdgeLabel::ReferencesTask, t, id) is None <==> target
                == NodeKind::Task
            &&& endpoint_error(s, EdgeLabel::HasEvidence, t, id) is None <==> check_kind(target)
                || target == NodeKind::CommandEvidence
            &&& endpoint_error(s, EdgeLabel::RelatesTo, t, id) is None
            &&& endpoint_error(s, EdgeLabel::Supersedes, t, id) is None
            &&& endpoint_error(s, EdgeLabel::Contradicts, t, id) is None
        }),
{
}

/// Whether the identifier is one of the memory of agents.
pub open spec fn of_memory(id: Seq<char>) -> bool {
    has_prefix(id, "agent_memory:v1:"@)
}

/// Whether the identifier is one of a verification.
pub open spec fn of_verification(id: Seq<char>) -> bool {
    has_prefix(id, "verification:v1:"@)
}

/// Whether the identifier is one of code.
pub open spec fn of_code(id: Seq<char>) -> bool {
    has_prefix(id, "codegraph:"@)
}

/// Which domains each relation joins, by the identifiers of its two ends.
pub proof fn law_which_domains_each_relation_joins(id: Seq<char>, a: Seq<char>, b: Seq<char>)
    ensures
        edge_domain_error(id, EdgeLabel::Observes, a, b) is None <==> of_memory(a) && of_code(b),
        edge_domain_error(id, EdgeLabel::ExplainsChange, a, b) is None <==> of_memory(a)
            && of_code(b),
        edge_domain_error(id, EdgeLabel::MentionsSymbol, a, b) is None <==> (of_memory(a)
            || of_verification(a)) && of_code(b),
        edge_domain_error(id, EdgeLabel::TouchedFile, a, b) is None <==> (of_memory(a)
            || of_verification(a)) && of_code(b),
        edge_domain_error(id, EdgeLabel::FailedOn, a, b) is None <==> (of_memory(a)
            || of_verification(a)) && of_code(b),
        edge_domain_error(id, EdgeLabel::ValidatedBy, a, b) is None <==> of_memory(a) && (of_memory(
            b,
        ) || of_verification(b)),
        edge_domain_error(id, EdgeLabel::HasEvidence, a, b) is None <==> of_memory(b)
            || of_verification(b),
        edge_domain_error(id, EdgeLabel::SessionOf, a, b) is None <==> of_memory(a) && of_memory(b),
        edge_domain_error(id, EdgeLabel::AuthoredBy, a, b) is None <==> of_memory(b),
        edge_domain_error(id, EdgeLabel::ReferencesTask, a, b) is None <==> of_memory(a)
            && of_memory(b),
        edge_domain_error(id, EdgeLabel::Supersedes, a, b) is None <==> of_memory(a)
            && of_memory(b),
        edge_domain_error(id, EdgeLabel::Contradicts, a, b) is None <==> of_memory(a)
            || of_verification(a),
        edge_domain_error(id, EdgeLabel::ProducedPatch, a, b) is None <==> of_memory(a)
            && has_prefix(b, "artifact:v1:"@),
        edge_domain_error(id, EdgeLabel::ProducedEvidence, a, b) is None <==> of_memory(a)
            && of_verification(b),
{
}

/// Which domain a link of each relation may declare for its target.
pub proof fn law_which_domain_a_link_declares(d: Seq<char>)
    ensures
        declared_domain_error(EdgeLabel::Observes, d) is None <==> d == "codegraph"@,
        declared_domain_error(EdgeLabel::MentionsSymbol, d) is None <==> d == "codegraph"@,
        declared_domain_error(EdgeLabel::TouchedFile, d) is None <==> d == "codegraph"@,
        declared_domain_error(EdgeLabel::FailedOn, d) is None <==> d == "codegraph"@,
        declared_domain_error(EdgeLabel::ExplainsChange, d) is None <==> d == "codegraph"@,
        declared_domain_error(EdgeLabel::ValidatedBy, d) is None <==> d == "agent_memory"@ || d
            == "verification"@,
        declared_domain_error(EdgeLabel::HasEvidence, d) is None <==> d == "agent_memory"@ || d
            == "verification"@,
        declared_domain_error(EdgeLabel::Supersedes, d) is None <==> d == "agent_memory"@,
        declared_domain_error(EdgeLabel::ReferencesTask, d) is None <==> d == "project"@ || d
            == "agent_memory"@,
        declared_domain_error(EdgeLabel::ProducedPatch, d) is None <==> d == "artifact"@,
        declared_domain_error(EdgeLabel::ProducedEvidence, d) is None <==> d == "verification"@,
        declared_domain_error(EdgeLabel::RelatesTo, d) is None,
        declared_domain_error(EdgeLabel::Contradicts, d) is None,
{
}

/// An edge of memory is accepted only with the version of memory, never with a label of the
/// structure of code, and where it observes, mentions, explains or contradicts only with a
/// confidence that is a number in range.
pub proof fn law_accepted_edges(
    b: Seq<GraphRecord>,
    current: Seq<GraphRecord>,
    g: Map<Seq<char>, ConfidenceGrade>,
    e: EdgeView,
)
    requires
        edge_error(b, current, g, e) is None,
    ensures
        of_memory(e.id) ==> e.schema_version == AGENT_MEMORY_SCHEMA_VERSION,
        of_memory(e.id) ==> e.label != EdgeLabel::Contains && e.label != EdgeLabel::Defines
            && e.label != EdgeLabel::Calls && e.label != EdgeLabel::References && e.label
            != EdgeLabel::Imports && e.label != EdgeLabel::Implements && e.label
            != EdgeLabel::Constructs && e.label != EdgeLabel::ChangedIn,
        of_memory(e.id) && (e.label == EdgeLabel::Observes || e.label == EdgeLabel::MentionsSymbol
            || e.label == EdgeLabel::ExplainsChange || e.label == EdgeLabel::Contradicts)
            ==> e.confidence is Some && g.dom().contains(e.confidence->0) && g[e.confidence->0]
            == ConfidenceGrade::InRange,
        !of_memory(e.id) ==> e.label != EdgeLabel::Observes && e.label != EdgeLabel::MentionsSymbol
            && e.label != EdgeLabel::TouchedFile && e.label != EdgeLabel::FailedOn && e.label
            != EdgeLabel::ExplainsChange && e.label != EdgeLabel::ValidatedBy && e.label
            != EdgeLabel::HasEvidence && e.label != EdgeLabel::Supersedes && e.label
            != EdgeLabel::Contradicts && e.label != EdgeLabel::ReferencesTask && e.label
            != EdgeLabel::RelatesTo && e.label != EdgeLabel::ProducedPatch && e.label
            != EdgeLabel::ProducedEvidence,
        of_memory(e.id) ==> edge_domain_error(e.id, e.label, e.source, e.target) is None,
{
}

/// Whether a text is given and not empty.
pub open spec fn given(t: Option<Seq<char>>) -> bool {
    t is Some && t->0.len() > 0
}

/// A node of memory is accepted only with the version of memory and with who it is from; but for an
/// agent also with the session and the times, which must be times. An observation needs its text, a
/// confidence and evidence; an agent and a session a name. Nothing outside memory and verification
/// cites evidence.
pub proof fn law_accepted_nodes(
    n: NodeView,
    g: Map<Seq<char>, ConfidenceGrade>,
    product: Option<Seq<char>>,
)
    requires
        node_error(n, g, product) is None,
    ensures
        links_of(n).len() > 0 ==> of_memory(n.id) || of_verification(n.id),
        of_memory(n.id) ==> n.schema_version == AGENT_MEMORY_SCHEMA_VERSION && given(n.agent_id)
            && given(n.agent_kind),
        of_memory(n.id) && n.kind != NodeKind::Agent ==> given(n.session_id) && given(n.observed_at)
            && given(n.ingested_at) && rfc3339_instant_of(n.observed_at->0) is Some
            && rfc3339_instant_of(n.ingested_at->0) is Some,
        of_memory(n.id) && n.kind == NodeKind::Observation ==> n.evidence_links is Some
            && n.evidence_links->0.len() > 0 && given(n.text) && given(n.confidence)
            && g.dom().contains(n.confidence->0) && g[n.confidence->0] == ConfidenceGrade::InRange,
        of_memory(n.id) && given(n.confidence) ==> g.dom().contains(n.confidence->0)
            && g[n.confidence->0] == ConfidenceGrade::InRange,
        of_memory(n.id) && (n.kind == NodeKind::Agent || n.kind == NodeKind::AgentSession)
            ==> given(n.name),
        of_memory(n.id) ==> n.kind == NodeKind::Agent || n.kind == NodeKind::AgentSession || n.kind
            == NodeKind::Observation || n.kind == NodeKind::Task || n.kind
            == NodeKind::CommandEvidence || n.kind == NodeKind::AgentRun || n.kind
            == NodeKind::AgentTurn || n.kind == NodeKind::ToolCall || n.kind == NodeKind::FileEdit
            || n.kind == NodeKind::Failure || n.kind == NodeKind::Decision,
        of_memory(n.id) ==> n.agent_kind == Some("codex"@) || n.agent_kind == Some("vantage"@)
            || n.agent_kind == Some("rust-swe-agent"@) || n.agent_kind == Some("human"@)
            || n.agent_kind == Some("other"@) || (product is Some && n.agent_kind == product),
{
    let kinds = crate::evidence_edges::agent_kinds(product);
    if of_memory(n.id) {
        assert(kinds.contains(n.agent_kind->0));
        let i = choose|i: int| 0 <= i < kinds.len() && kinds[i] == n.agent_kind->0;
        assert(kinds.len() <= 6);
    }
}

/// A node outside memory that cites nothing is accepted as it is.
pub proof fn law_other_nodes_are_accepted(
    n: NodeView,
    g: Map<Seq<char>, ConfidenceGrade>,
    product: Option<Seq<char>>,
)
    requires
        !of_memory(n.id),
        n.evidence_links is None || n.evidence_links->0.len() == 0 || of_verification(n.id),
    ensures
        node_error(n, g, product) is None,
{
}

/// A link that is accepted becomes what it says: from its node, under its relation, with its
/// confidence, to the record that it names; at the commit that it names, where it names one.
pub proof fn law_accepted_links_become_what_they_say(
    x: EvidenceBasis,
    node_id: Seq<char>,
    kind: NodeKind,
    index: int,
    l: EvidenceLinkView,
)
    requires
        link_outcome(x, node_id, kind, index, l) is Ok,
    ensures
        ({
            let r = link_outcome(x, node_id, kind, index, l)->Ok_0;
            let e = edge_of(r);
            &&& r.node_id == node_id && r.link_index == index
            &&& l.target_record_id is Some ==> r.target_id == l.target_record_id->0
                && !r.was_triple_resolved
            &&& l.target_record_id is None ==> r.was_triple_resolved && r.routing_commit
                == l.target_git_commit
            &&& l.as_of_commit is Some ==> r.routing_commit == l.as_of_commit
            &&& l.target_record_id is Some && l.as_of_commit is None ==> r.routing_commit is None
            &&& r.confidence == l.confidence && l.confidence.len() > 0 && x.grades.dom().contains(
                l.confidence,
            ) && x.grades[l.confidence] == ConfidenceGrade::InRange
            &&& e.label == r.edge_label && e.source == node_id && e.target == r.target_id
                && e.confidence == Some(l.confidence)
            &&& r.routing_commit is Some ==> e.temporal is Some && e.temporal->0.git_commit
                == r.routing_commit->0
            &&& r.routing_commit is None ==> e.temporal is None
            &&& endpoint_error(
                Some(kind),
                e.label,
                crate::evidence_edges::known_kind(x.batch, x.current, e.target),
                e.target,
            ) is None
            &&& declared_domain_error(e.label, l.target_domain) is None
        }),
{
    reveal(link_outcome);
}

proof fn lemma_first_of_batch(s: Seq<GraphRecord>, l: EvidenceLinkView)
    ensures
        match crate::evidence_edges::first_triple(s, l) {
            Some(id) => exists|i: int|
                0 <= i < s.len() && (#[trigger] s[i]) is Node && s[i]->Node_0.id@ == id
                    && crate::text::opt_view(s[i]->Node_0.repo_relative_path)
                    == l.target_repo_relative_path && s[i]->Node_0.temporal is Some && Some(
                    s[i]->Node_0.temporal->0.git_commit@,
                ) == l.target_git_commit && s[i]->Node_0.span == l.target_span,
            None => true,
        },
    decreases s.len(),
{
    if s.len() > 0 {
        let rest = s.drop_first();
        lemma_first_of_batch(rest, l);
        if crate::evidence_edges::matches_triple(s[0], l) {
            assert(s[0] is Node);
        } else if crate::evidence_edges::first_triple(rest, l) is Some {
            let id = crate::evidence_edges::first_triple(rest, l)->0;
            let i = choose|i: int|
                0 <= i < rest.len() && (#[trigger] rest[i]) is Node && rest[i]->Node_0.id@ == id
                    && crate::text::opt_view(rest[i]->Node_0.repo_relative_path)
                    == l.target_repo_relative_path && rest[i]->Node_0.temporal is Some && Some(
                    rest[i]->Node_0.temporal->0.git_commit@,
                ) == l.target_git_commit && rest[i]->Node_0.span == l.target_span;
            assert(s[i + 1] == rest[i]);
        }
    }
}

/// A link by place is resolved to a node at that path, span and commit, of the store or of the
/// batch.
pub proof fn law_placed_links_lead_to_their_place(
    x: EvidenceBasis,
    node_id: Seq<char>,
    kind: NodeKind,
    index: int,
    l: EvidenceLinkView,
)
    requires
        link_outcome(x, node_id, kind, index, l) is Ok,
        l.target_record_id is None,
    ensures
        l.target_repo_relative_path is Some,
        l.target_git_commit is Some,
        l.target_span is Some,
        exists|i: int|
            0 <= i < (x.all + x.batch).len() && (#[trigger] (x.all + x.batch)[i]) is Node && (x.all
                + x.batch)[i]->Node_0.id@ == link_outcome(
                x,
                node_id,
                kind,
                index,
                l,
            )->Ok_0.target_id && (x.all + x.batch)[i]->Node_0.span == l.target_span && (x.all
                + x.batch)[i]->Node_0.temporal is Some && (x.all
                + x.batch)[i]->Node_0.temporal->0.git_commit@ == l.target_git_commit->0
                && crate::text::opt_view((x.all + x.batch)[i]->Node_0.repo_relative_path)
                == l.target_repo_relative_path,
{
    reveal(link_outcome);
    lemma_first_of_batch(x.all + x.batch, l);
}

/// A batch that brings one node twice without a commit, or twice at one commit, or one retraction
/// twice, cannot be taken up again and is refused.
pub proof fn law_repeated_records_are_refused(
    s: Seq<GraphRecord>,
    payloads: Seq<Vec<u8>>,
    i: int,
    j: int,
)
    requires
        0 <= i < j < s.len(),
        ({
            ||| s[i] is Node && s[j] is Node && s[i]->Node_0.id@ == s[j]->Node_0.id@
                && s[i]->Node_0.temporal is None && s[j]->Node_0.temporal is None
            ||| s[i] is Node && s[j] is Node && s[i]->Node_0.id@ == s[j]->Node_0.id@
                && s[i]->Node_0.temporal is Some && s[j]->Node_0.temporal is Some
                && s[i]->Node_0.temporal->0.git_commit@ == s[j]->Node_0.temporal->0.git_commit@
            ||| s[i] is Tombstone && s[j] is Tombstone && s[i]->Tombstone_0.id@
                == s[j]->Tombstone_0.id@
        }),
    ensures
        recovery_key_error(s, payloads) is Some,
        recovery_key_error(s, payloads)->0.code == crate::api_error::ErrorCode::IdempotencyConflict,
{
    assert(key_of(s, payloads, i) == key_of(s, payloads, j));
}

/// A batch of nodes without commits that all have identifiers of their own is taken.
pub proof fn law_distinct_nodes_are_taken(s: Seq<GraphRecord>, payloads: Seq<Vec<u8>>)
    requires
        forall|i: int|
            0 <= i < s.len() ==> (#[trigger] s[i]) is Node && s[i]->Node_0.temporal is None,
        forall|i: int, j: int|
            0 <= i < j < s.len() ==> (#[trigger] s[i])->Node_0.id@
                != (#[trigger] s[j])->Node_0.id@,
    ensures
        recovery_key_error(s, payloads) is None,
{
    assert forall|i: int, j: int| 0 <= i < j < s.len() implies #[trigger] key_of(s, payloads, i)
        != #[trigger] key_of(s, payloads, j) by {
        assert(s[i] is Node && s[j] is Node);
        assert(s[i]->Node_0.id@ != s[j]->Node_0.id@);
    }
}

/// A link without a confidence, or with one that is no number from nil to one, is refused; so is one
/// under a relation that no label has, or that is not one of evidence.
pub proof fn law_refused_links(
    x: EvidenceBasis,
    node_id: Seq<char>,
    kind: NodeKind,
    index: int,
    l: EvidenceLinkView,
)
    ensures
        l.confidence.len() == 0 ==> link_outcome(x, node_id, kind, index, l) is Err,
        !(x.grades.dom().contains(l.confidence) && x.grades[l.confidence]
            == ConfidenceGrade::InRange) ==> link_outcome(x, node_id, kind, index, l) is Err,
        l.relation == "CONTAINS"@ || l.relation == "CALLS"@ || l.relation == "AUTHORED_BY"@
            ==> link_outcome(x, node_id, kind, index, l) is Err,
        link_outcome(x, node_id, kind, index, l) is Ok ==> crate::ir::edge_label_name(
            link_outcome(x, node_id, kind, index, l)->Ok_0.edge_label,
        ) == l.relation,
{
    reveal(link_outcome);
    law_relations_are_names_of_labels(l.relation);
    crate::ir::law_label_names_round_trip(EdgeLabel::Contains);
    crate::ir::law_label_names_round_trip(EdgeLabel::Calls);
    crate::ir::law_label_names_round_trip(EdgeLabel::AuthoredBy);
}

proof fn lemma_links_kept(x: EvidenceBasis, n: NodeView, k: int, before: Seq<ResolvedView>, j: int)
    requires
        links_outcome(x, n, k, before) is Ok,
        0 <= j < k,
    ensures
        link_outcome(x, n.id, n.kind, j, links_of(n)[j]) is Ok,
        links_outcome(x, n, k, before)->Ok_0.contains(
            link_outcome(x, n.id, n.kind, j, links_of(n)[j])->Ok_0,
        ),
    decreases k,
{
    let all = links_outcome(x, n, k, before)->Ok_0;
    let rest = links_outcome(x, n, k - 1, before)->Ok_0;
    let r = link_outcome(x, n.id, n.kind, j, links_of(n)[j])->Ok_0;
    if j == k - 1 {
        assert(all[all.len() - 1] == r);
    } else {
        lemma_links_kept(x, n, k - 1, before, j);
        let m = choose|m: int| 0 <= m < rest.len() && rest[m] == r;
        assert(all[m] == r);
    }
}

proof fn lemma_links_only_add(
    x: EvidenceBasis,
    n: NodeView,
    k: int,
    before: Seq<ResolvedView>,
    r: ResolvedView,
)
    requires
        links_outcome(x, n, k, before) is Ok,
        before.contains(r),
    ensures
        links_outcome(x, n, k, before)->Ok_0.contains(r),
    decreases k,
{
    if k > 0 {
        lemma_links_only_add(x, n, k - 1, before, r);
        let all = links_outcome(x, n, k, before)->Ok_0;
        let rest = links_outcome(x, n, k - 1, before)->Ok_0;
        let m = choose|m: int| 0 <= m < rest.len() && rest[m] == r;
        assert(all[m] == r);
    }
}

proof fn lemma_batch_kept(x: EvidenceBasis, n: int, i: int, k: int)
    requires
        batch_outcome(x, n) is Ok,
        0 <= i < n <= x.batch.len(),
        x.batch[i] is Node,
        0 <= k < links_of(x.batch[i]->Node_0@).len(),
    ensures
        ({
            let m = x.batch[i]->Node_0@;
            &&& link_outcome(x, m.id, m.kind, k, links_of(m)[k]) is Ok
            &&& batch_outcome(x, n)->Ok_0.contains(
                link_outcome(x, m.id, m.kind, k, links_of(m)[k])->Ok_0,
            )
        }),
    decreases n,
{
    let before = batch_outcome(x, n - 1)->Ok_0;
    let m = x.batch[i]->Node_0@;
    if i == n - 1 {
        lemma_links_kept(x, m, links_of(m).len() as int, before, k);
    } else {
        lemma_batch_kept(x, n - 1, i, k);
        let r = link_outcome(x, m.id, m.kind, k, links_of(m)[k])->Ok_0;
        if x.batch[n - 1] is Node {
            let o = x.batch[n - 1]->Node_0@;
            lemma_links_only_add(x, o, links_of(o).len() as int, before, r);
        }
    }
}

proof fn lemma_has_edge(s: Seq<ResolvedView>, k: int) -> (j: int)
    requires
        edges_outcome(s) is Ok,
        0 <= k < s.len(),
    ensures
        0 <= j < edges_outcome(s)->Ok_0.len(),
        edges_outcome(s)->Ok_0[j].id == edge_id_of(s[k]),
    decreases s.len(),
{
    let t = s.drop_last();
    if k < s.len() - 1 {
        assert(t[k] == s[k]);
        lemma_has_edge(t, k)
    } else {
        match first_with_edge(t, edge_id_of(s.last())) {
            None => edges_outcome(s)->Ok_0.len() - 1,
            Some(p) => {
                let m = lemma_first_is_one(t, edge_id_of(s.last()));
                lemma_has_edge(t, m)
            },
        }
    }
}

proof fn lemma_first_is_one(s: Seq<ResolvedView>, id: Seq<char>) -> (m: int)
    requires
        first_with_edge(s, id) is Some,
    ensures
        0 <= m < s.len(),
        s[m] == first_with_edge(s, id)->0,
        edge_id_of(s[m]) == id,
    decreases s.len(),
{
    if edge_id_of(s[0]) == id {
        0
    } else {
        let m = lemma_first_is_one(s.drop_first(), id);
        assert(s.drop_first()[m] == s[m + 1]);
        m + 1
    }
}

/// Every link of a batch that is accepted becomes an edge: one under the identifier of its relation,
/// its node and its target.
pub proof fn law_every_link_becomes_an_edge(x: EvidenceBasis, i: int, k: int)
    requires
        evidence_outcome(x) is Ok,
        0 <= i < x.batch.len(),
        x.batch[i] is Node,
        0 <= k < links_of(x.batch[i]->Node_0@).len(),
    ensures
        ({
            let n = x.batch[i]->Node_0@;
            let l = links_of(n)[k];
            let es = evidence_outcome(x)->Ok_0;
            let r = link_outcome(x, n.id, n.kind, k, l)->Ok_0;
            &&& link_outcome(x, n.id, n.kind, k, l) is Ok
            &&& exists|j: int|
                0 <= j < es.0.len() && (#[trigger] es.0[j]).id == crate::identity::stable_id_of(
                    "agent_memory"@,
                    AGENT_MEMORY_SCHEMA_VERSION as nat,
                    seq!["edge"@, l.relation, n.id, r.target_id],
                )
        }),
{
    let n = x.batch[i]->Node_0@;
    let l = links_of(n)[k];
    let s = batch_outcome(x, x.batch.len() as int)->Ok_0;
    lemma_batch_kept(x, x.batch.len() as int, i, k);
    let r = link_outcome(x, n.id, n.kind, k, l)->Ok_0;
    let m = choose|m: int| 0 <= m < s.len() && s[m] == r;
    let j = lemma_has_edge(s, m);
    law_refused_links(x, n.id, n.kind, k, l);
    law_accepted_links_become_what_they_say(x, n.id, n.kind, k, l);
    assert(evidence_outcome(x)->Ok_0.0[j].id == edge_id_of(r));
}

/// Where two links of a batch would become one edge, they must agree on the commit and on the
/// confidence, or the batch is refused.
pub proof fn law_links_of_one_edge_agree(s: Seq<ResolvedView>, a: int, b: int)
    requires
        0 <= a < b < s.len(),
        edge_id_of(s[a]) == edge_id_of(s[b]),
        edges_outcome(s) is Ok,
    ensures
        s[a].routing_commit == s[b].routing_commit,
        s[a].confidence == s[b].confidence,
    decreases s.len(),
{
    let t = s.drop_last();
    if b < s.len() - 1 {
        assert(t[a] == s[a] && t[b] == s[b]);
        law_links_of_one_edge_agree(t, a, b);
    } else {
        let id = edge_id_of(s[b]);
        assert(t[a] == s[a]);
        lemma_first_found(t, a);
        let m = lemma_first_is_one(t, id);
        if m < a {
            law_links_of_one_edge_agree(t, m, a);
        } else if a < m {
            law_links_of_one_edge_agree(t, a, m);
        }
    }
}

proof fn lemma_first_found(s: Seq<ResolvedView>, k: int)
    requires
        0 <= k < s.len(),
    ensures
        first_with_edge(s, edge_id_of(s[k])) is Some,
    decreases s.len(),
{
    if k > 0 && edge_id_of(s[0]) != edge_id_of(s[k]) {
        assert(s.drop_first()[k - 1] == s[k]);
        lemma_first_found(s.drop_first(), k - 1);
    }
}

} // verus!
