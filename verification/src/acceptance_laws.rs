//! What is accepted, said of the records: what is complete is not refused.

use vstd::prelude::*;

use crate::api_error::ErrorCode;
use crate::decide::{decide_error, DecideView};
use crate::decide_laws::candidate_at;
use crate::evidence_edges::{
    edge_error, known_kind, link_target, node_error, ConfidenceGrade,
};
use crate::evidence_freshness::in_order;
use crate::evidence_laws::{given, of_memory};
use crate::evidence_rules::{edge_domain_error, endpoint_error};
use crate::ingest_laws::named;
use crate::ir::{
    EdgeLabel, EdgeView, EvidenceLinkView, GraphRecord, NodeKind, NodeView,
    AGENT_MEMORY_SCHEMA_VERSION, ARTIFACT_SCHEMA_VERSION, VERIFICATION_SCHEMA_VERSION,
};
use crate::listing_laws::lemma_in_order_of;
use crate::outside::rfc3339_instant_of;
use crate::record_rules::{
    artifact_error, inline_bytes, output_handle_error, verification_error, INLINE_PAYLOAD_CEILING,
};
use crate::scan::char_is_whitespace;
use crate::text::has_prefix;

verus! {

/// Whether the kind is one of the memory of agents.
pub open spec fn kept_in_memory(k: NodeKind) -> bool {
    ||| k == NodeKind::Agent
    ||| k == NodeKind::AgentSession
    ||| k == NodeKind::Observation
    ||| k == NodeKind::Task
    ||| k == NodeKind::CommandEvidence
    ||| k == NodeKind::AgentRun
    ||| k == NodeKind::AgentTurn
    ||| k == NodeKind::ToolCall
    ||| k == NodeKind::FileEdit
    ||| k == NodeKind::Failure
    ||| k == NodeKind::Decision
}

/// Whether the agent is of a kind that is known.
pub open spec fn known_agent(k: Option<Seq<char>>, product: Option<Seq<char>>) -> bool {
    ||| k == Some("codex"@)
    ||| k == Some("vantage"@)
    ||| k == Some("rust-swe-agent"@)
    ||| k == Some("human"@)
    ||| k == Some("other"@)
    ||| product is Some && k == product
}

/// Whether the text, where it is given, can be read as a time.
pub open spec fn time_if_given(t: Option<Seq<char>>) -> bool {
    given(t) ==> rfc3339_instant_of(t->0) is Some
}

/// Whether the confidence is a number in range.
pub open spec fn graded(g: Map<Seq<char>, ConfidenceGrade>, c: Option<Seq<char>>) -> bool {
    c is Some && g.dom().contains(c->0) && g[c->0] == ConfidenceGrade::InRange
}

/// A node of memory that is of a kind of memory and says all that it must is accepted.
pub proof fn law_complete_nodes_are_accepted(
    n: NodeView,
    g: Map<Seq<char>, ConfidenceGrade>,
    product: Option<Seq<char>>,
)
    requires
        of_memory(n.id),
        kept_in_memory(n.kind),
        n.schema_version == AGENT_MEMORY_SCHEMA_VERSION,
        given(n.agent_id),
        given(n.agent_kind) && known_agent(n.agent_kind, product),
        n.kind != NodeKind::Agent ==> given(n.session_id) && given(n.observed_at) && given(
            n.ingested_at,
        ),
        time_if_given(n.observed_at) && time_if_given(n.ingested_at),
        given(n.confidence) ==> graded(g, n.confidence),
        n.kind == NodeKind::Observation ==> given(n.confidence) && given(n.text)
            && n.evidence_links is Some && n.evidence_links->0.len() > 0,
        n.kind == NodeKind::Agent || n.kind == NodeKind::AgentSession ==> given(n.name),
    ensures
        node_error(n, g, product) is None,
{
    let kinds = crate::evidence_edges::agent_kinds(product);
    let k = n.agent_kind->0;
    if product is Some {
        assert(kinds[0] == "codex"@ && kinds[1] == product->0 && kinds[2] == "vantage"@);
        assert(kinds[3] == "rust-swe-agent"@ && kinds[4] == "human"@ && kinds[5] == "other"@);
    } else {
        assert(kinds[0] == "codex"@ && kinds[1] == "vantage"@ && kinds[2] == "rust-swe-agent"@);
        assert(kinds[3] == "human"@ && kinds[4] == "other"@);
    }
    assert(kinds.contains(k));
}

/// A record of verification that is a check, in its version, with evidence and sound outputs, is
/// accepted.
pub proof fn law_complete_verifications_are_accepted(n: NodeView)
    requires
        n.schema_version == VERIFICATION_SCHEMA_VERSION,
        n.kind == NodeKind::CommandRun || n.kind == NodeKind::Verification || n.kind
            == NodeKind::TestRun || n.kind == NodeKind::CIStatus || n.kind == NodeKind::BenchmarkRun
            || n.kind == NodeKind::CoverageReport || n.kind == NodeKind::ProofResult,
        n.executed_at is Some ==> rfc3339_instant_of(n.executed_at->0) is Some,
        given(n.source_artifact_hash) || given(n.source_artifact_path) || (n.stdout_handle is Some
            && n.stdout_handle->0.hash.len() > 0),
        n.stdout_handle is Some ==> output_handle_error(
            "stdout_handle"@,
            n.stdout_handle->0,
        ) is None,
        n.stderr_handle is Some ==> output_handle_error(
            "stderr_handle"@,
            n.stderr_handle->0,
        ) is None,
    ensures
        verification_error(n) is None,
{
}

/// What is not of the domain of verifications, nor of that of artifacts, is not held to their rules.
pub proof fn law_other_domains_are_not_held_to_the_rules(n: NodeView)
    ensures
        !has_prefix(n.id, "verification:v1:"@) && n.domain != Some("verification"@)
            ==> verification_error(n) is None,
        !has_prefix(n.id, "artifact:v1:"@) && n.domain != Some("artifact"@) ==> artifact_error(n)
            is None,
{
}

/// A patch that says all that it must is accepted.
pub proof fn law_complete_patches_are_accepted(n: NodeView)
    requires
        n.schema_version == ARTIFACT_SCHEMA_VERSION,
        n.kind == NodeKind::PatchArtifact,
        n.domain == Some("artifact"@),
        n.patch_status == Some("applied_clean"@) || n.patch_status == Some(
            "applied_with_conflicts"@,
        ) || n.patch_status == Some("invalid_syntax"@) || n.patch_status == Some(
            "invalid_no_base"@,
        ) || n.patch_status == Some("rejected_validation"@) || n.patch_status == Some(
            "unverified"@,
        ) || n.patch_status == Some("superseded"@),
        given(n.base_commit) || n.unknown_base_reason == Some("unknown_base"@),
        n.target_files is Some,
        given(n.patch_bytes_hash),
        n.patch_bytes_size is Some,
        n.patch_handle is Some && n.patch_handle->0.path.len() > 0,
        n.patch_handle->0.inline is Some ==> inline_bytes(n.patch_handle->0.inline)
            <= n.patch_bytes_size->0 && n.patch_bytes_size->0 <= INLINE_PAYLOAD_CEILING,
        given(n.validation_summary) && given(n.source_artifact_path) && given(
            n.source_artifact_hash,
        ) && given(n.producer_session_id),
        given(n.valid_time) && rfc3339_instant_of(n.valid_time->0) is Some,
        n.valid_time_source == Some("produced_at"@),
        given(n.ingested_at) && rfc3339_instant_of(n.ingested_at->0) is Some,
    ensures
        artifact_error(n) is None,
{
    reveal_strlit("applied_clean");
    reveal_strlit("applied_with_conflicts");
    reveal_strlit("invalid_syntax");
    reveal_strlit("invalid_no_base");
    reveal_strlit("rejected_validation");
    reveal_strlit("unverified");
    reveal_strlit("superseded");
    assert(n.patch_status->0.len() > 0);
}

// ---------------------------------------------------------------------------
// Edges
// ---------------------------------------------------------------------------

/// Whether the `i`-th record of the list is the first with the identifier.
pub open spec fn first_named(s: Seq<GraphRecord>, id: Seq<char>, i: int) -> bool {
    &&& 0 <= i < s.len() && named(s[i]) == id
    &&& forall|k: int| 0 <= k < i ==> named(#[trigger] s[k]) != id
}

/// Whether no record of the list has the identifier.
pub open spec fn unnamed(s: Seq<GraphRecord>, id: Seq<char>) -> bool {
    forall|k: int| 0 <= k < s.len() ==> named(#[trigger] s[k]) != id
}

proof fn lemma_first(s: Seq<GraphRecord>, id: Seq<char>, i: int)
    ensures
        first_named(s, id, i) ==> crate::evidence_edges::first_with_id(s, id) == Some(s[i]),
        unnamed(s, id) ==> crate::evidence_edges::first_with_id(s, id) is None,
    decreases s.len(),
{
    if s.len() > 0 {
        assert(crate::ir::record_id(s[0]) == named(s[0]));
        let t = s.drop_first();
        lemma_first(t, id, i - 1);
        if first_named(s, id, i) && i > 0 {
            assert(named(s[0]) != id);
            assert(t[i - 1] == s[i]);
            assert forall|k: int| 0 <= k < i - 1 implies named(#[trigger] t[k]) != id by {
                assert(t[k] == s[k + 1]);
            }
        }
        if unnamed(s, id) {
            assert forall|k: int| 0 <= k < t.len() implies named(#[trigger] t[k]) != id by {
                assert(t[k] == s[k + 1]);
            }
        }
    }
}

/// The kind of an end of an edge is that of the first record with its identifier in the batch, or
/// where the batch has none in the store; an identifier that stands for no node has none.
pub proof fn law_kinds_are_looked_up_in_the_batch_first(
    b: Seq<GraphRecord>,
    current: Seq<GraphRecord>,
    id: Seq<char>,
    i: int,
)
    ensures
        first_named(b, id, i) && b[i] is Node ==> known_kind(b, current, id) == Some(
            b[i]->Node_0.kind,
        ),
        first_named(b, id, i) && !(b[i] is Node) ==> known_kind(b, current, id) is None,
        unnamed(b, id) && first_named(current, id, i) && current[i] is Node ==> known_kind(
            b,
            current,
            id,
        ) == Some(current[i]->Node_0.kind),
        unnamed(b, id) && unnamed(current, id) ==> known_kind(b, current, id) is None,
{
    lemma_first(b, id, i);
    lemma_first(current, id, i);
}

/// Whether an edge of memory says what it must: its version, a label that is not of the structure
/// of code, a confidence where the label needs one, and ends of the right domains.
pub open spec fn sound_edge(e: EdgeView, g: Map<Seq<char>, ConfidenceGrade>) -> bool {
    &&& of_memory(e.id) && e.schema_version == AGENT_MEMORY_SCHEMA_VERSION
    &&& !(e.label == EdgeLabel::Contains || e.label == EdgeLabel::Defines || e.label
        == EdgeLabel::Calls || e.label == EdgeLabel::References || e.label == EdgeLabel::Imports
        || e.label == EdgeLabel::Implements || e.label == EdgeLabel::Constructs || e.label
        == EdgeLabel::ChangedIn)
    &&& (e.label == EdgeLabel::Observes || e.label == EdgeLabel::MentionsSymbol || e.label
        == EdgeLabel::ExplainsChange || e.label == EdgeLabel::Contradicts) ==> graded(
        g,
        e.confidence,
    )
    &&& edge_domain_error(e.id, e.label, e.source, e.target) is None
}

/// A sound edge of memory is accepted where its ends are of the kinds that it joins: a session is of
/// an agent, what was authored of a session, and evidence joins what its relation does.
pub proof fn law_sound_edges_are_accepted(
    b: Seq<GraphRecord>,
    current: Seq<GraphRecord>,
    g: Map<Seq<char>, ConfidenceGrade>,
    e: EdgeView,
)
    requires
        sound_edge(e, g),
    ensures
        ({
            let s = known_kind(b, current, e.source);
            let t = known_kind(b, current, e.target);
            let evidence = e.label == EdgeLabel::Observes || e.label == EdgeLabel::MentionsSymbol
                || e.label == EdgeLabel::TouchedFile || e.label == EdgeLabel::FailedOn || e.label
                == EdgeLabel::ExplainsChange || e.label == EdgeLabel::ValidatedBy || e.label
                == EdgeLabel::HasEvidence || e.label == EdgeLabel::Supersedes || e.label
                == EdgeLabel::Contradicts || e.label == EdgeLabel::ReferencesTask || e.label
                == EdgeLabel::RelatesTo || e.label == EdgeLabel::ProducedPatch || e.label
                == EdgeLabel::ProducedEvidence;
            &&& e.label == EdgeLabel::SessionOf ==> (edge_error(b, current, g, e) is None <==> s
                == Some(NodeKind::AgentSession) && t == Some(NodeKind::Agent))
            &&& e.label == EdgeLabel::AuthoredBy ==> (edge_error(b, current, g, e) is None <==> t
                == Some(NodeKind::AgentSession))
            &&& evidence ==> (edge_error(b, current, g, e) is None <==> endpoint_error(
                s,
                e.label,
                t,
                e.target,
            ) is None)
            &&& !evidence && e.label != EdgeLabel::SessionOf && e.label != EdgeLabel::AuthoredBy
                ==> edge_error(b, current, g, e) is None
        }),
{
}

// ---------------------------------------------------------------------------
// Targets of links
// ---------------------------------------------------------------------------

/// Whether the identifier is one of the domain, as far as the domain says how its identifiers begin.
pub open spec fn fits_domain(id: Seq<char>, domain: Seq<char>) -> bool {
    &&& domain == "codegraph"@ ==> has_prefix(id, "codegraph:"@)
    &&& domain == "agent_memory"@ ==> has_prefix(id, "agent_memory:v1:"@)
    &&& domain == "verification"@ ==> has_prefix(id, "verification:v1:"@)
}

/// Whether the `i`-th record is a version of the node at the commit.
pub open spec fn version_at_commit(
    s: Seq<GraphRecord>,
    i: int,
    id: Seq<char>,
    c: Seq<char>,
) -> bool {
    &&& 0 <= i < s.len() && s[i] is Node && s[i]->Node_0.id@ == id
    &&& s[i]->Node_0.temporal is Some && s[i]->Node_0.temporal->0.git_commit@ == c
}

/// Whether the store or the batch has a version of the node at the commit.
pub open spec fn seen_at(
    all: Seq<GraphRecord>,
    b: Seq<GraphRecord>,
    id: Seq<char>,
    c: Seq<char>,
) -> bool {
    (exists|i: int| #[trigger] version_at_commit(all, i, id, c)) || (exists|i: int| #[trigger]
        version_at_commit(b, i, id, c))
}

proof fn lemma_seen(all: Seq<GraphRecord>, b: Seq<GraphRecord>, id: Seq<char>, c: Seq<char>)
    ensures
        crate::evidence_edges::has_observation(all, b, id, c) <==> seen_at(all, b, id, c),
{
    if exists|i: int|
        0 <= i < all.len() && crate::evidence_edges::observed_at_commit(#[trigger] all[i], id, c) {
        let i = choose|i: int|
            0 <= i < all.len() && crate::evidence_edges::observed_at_commit(
                #[trigger] all[i],
                id,
                c,
            );
        assert(version_at_commit(all, i, id, c));
    }
    if exists|i: int|
        0 <= i < b.len() && crate::evidence_edges::observed_at_commit(#[trigger] b[i], id, c) {
        let i = choose|i: int|
            0 <= i < b.len() && crate::evidence_edges::observed_at_commit(#[trigger] b[i], id, c);
        assert(version_at_commit(b, i, id, c));
    }
    if exists|i: int| #[trigger] version_at_commit(all, i, id, c) {
        let i = choose|i: int| #[trigger] version_at_commit(all, i, id, c);
        assert(crate::evidence_edges::observed_at_commit(all[i], id, c));
    }
    if exists|i: int| #[trigger] version_at_commit(b, i, id, c) {
        let i = choose|i: int| #[trigger] version_at_commit(b, i, id, c);
        assert(crate::evidence_edges::observed_at_commit(b[i], id, c));
    }
}

proof fn lemma_how_many(all: Seq<GraphRecord>, b: Seq<GraphRecord>, id: Seq<char>)
    ensures
        ({
            let p = |c: Seq<char>| crate::evidence_edges::has_observation(all, b, id, c);
            crate::evidence_edges::how_many(p) > 1 <==> exists|c: Seq<char>, d: Seq<char>|
                #[trigger] seen_at(all, b, id, c) && #[trigger] seen_at(all, b, id, d) && c != d
        }),
{
    let p = |c: Seq<char>| crate::evidence_edges::has_observation(all, b, id, c);
    let s = all + b;
    let n = s.len() as int;
    let f = |i: int|
        {
            let m = s[i]->Node_0;
            if s[i] is Node && m.id@ == id && m.temporal is Some {
                Some(m.temporal->0.git_commit@)
            } else {
                None
            }
        };
    assert forall|c: Seq<char>| #[trigger]
        p(c) <==> exists|i: int| 0 <= i < n && #[trigger] f(i) == Some(c) by {
        lemma_seen(all, b, id, c);
        if p(c) {
            if exists|i: int| #[trigger] version_at_commit(all, i, id, c) {
                let i = choose|i: int| #[trigger] version_at_commit(all, i, id, c);
                assert(s[i] == all[i]);
                assert(f(i) == Some(c));
            } else {
                let i = choose|i: int| #[trigger] version_at_commit(b, i, id, c);
                assert(s[all.len() + i] == b[i]);
                assert(f(all.len() + i) == Some(c));
            }
        }
        if exists|i: int| 0 <= i < n && #[trigger] f(i) == Some(c) {
            let i = choose|i: int| 0 <= i < n && #[trigger] f(i) == Some(c);
            if i < all.len() {
                assert(s[i] == all[i]);
                assert(version_at_commit(all, i, id, c));
            } else {
                assert(s[i] == b[i - all.len()]);
                assert(version_at_commit(b, i - all.len(), id, c));
            }
        }
    }
    lemma_in_order_of(p, f, n);
    let v = in_order(p);
    if v.len() > 1 {
        assert(v.contains(v[0]) && v.contains(v[1]));
        assert(p(v[0]) && p(v[1]));
        lemma_seen(all, b, id, v[0]);
        lemma_seen(all, b, id, v[1]);
        assert(crate::text::lex_lt(v[0], v[1]));
        crate::text::lemma_lex_three(v[0], v[1], v[0]);
    }
    if exists|c: Seq<char>, d: Seq<char>|
        #[trigger] seen_at(all, b, id, c) && #[trigger] seen_at(all, b, id, d) && c != d {
        let (c, d) = choose|c: Seq<char>, d: Seq<char>|
            #[trigger] seen_at(all, b, id, c) && #[trigger] seen_at(all, b, id, d) && c != d;
        lemma_seen(all, b, id, c);
        lemma_seen(all, b, id, d);
        assert(p(c) && p(d));
        assert(v.contains(c) && v.contains(d));
        let i = choose|i: int| 0 <= i < v.len() && v[i] == c;
        let j = choose|j: int| 0 <= j < v.len() && v[j] == d;
        assert(i != j);
    }
}

/// A link to a node that the store holds, and that no other record of the batch shares its name
/// with, leads there exactly where the identifier fits the domain and the version is clear: at the
/// commit where one is named and the node was seen at it, and without one where the node was not
/// seen at two.
pub proof fn law_where_a_named_link_leads(
    b: Seq<GraphRecord>,
    all: Seq<GraphRecord>,
    current: Seq<GraphRecord>,
    l: EvidenceLinkView,
    id: Seq<char>,
    i: int,
)
    requires
        l.target_record_id == Some(id),
        first_named(current, id, i),
        current[i] is Node,
        unnamed(b, id),
    ensures
        ({
            let r = link_target(b, all, current, l);
            &&& !fits_domain(id, l.target_domain) ==> r is Err
            &&& fits_domain(id, l.target_domain) && l.as_of_commit is Some ==> (r is Ok
                <==> seen_at(all, b, id, l.as_of_commit->0))
            &&& fits_domain(id, l.target_domain) && l.as_of_commit is None ==> (r is Err <==> exists|
                c: Seq<char>,
                d: Seq<char>,
            | #[trigger]
                seen_at(all, b, id, c) && #[trigger] seen_at(all, b, id, d) && c != d)
            &&& r is Ok ==> r->Ok_0.0 == id && r->Ok_0.1 == l.as_of_commit
        }),
{
    lemma_first(current, id, i);
    assert forall|k: int| 0 <= k < b.len() implies crate::ir::record_id(#[trigger] b[k]) != id by {
        assert(named(b[k]) != id);
    }
    lemma_how_many(all, b, id);
    if l.as_of_commit is Some {
        lemma_seen(all, b, id, l.as_of_commit->0);
    }
    reveal_strlit("codegraph");
    reveal_strlit("agent_memory");
    reveal_strlit("verification");
    assert("codegraph"@.len() == 9 && "agent_memory"@.len() == 12 && "verification"@.len() == 12);
    assert("agent_memory"@[0] == 'a' && "verification"@[0] == 'v');
}

/// A link to what neither the store nor the batch holds is refused as unresolved; so is one by place
/// without a path, a commit or a span, and one that names another commit than its place.
pub proof fn law_links_that_lead_nowhere(
    b: Seq<GraphRecord>,
    all: Seq<GraphRecord>,
    current: Seq<GraphRecord>,
    l: EvidenceLinkView,
    id: Seq<char>,
)
    ensures
        l.target_record_id == Some(id) && unnamed(b, id) && unnamed(current, id) ==> link_target(
            b,
            all,
            current,
            l,
        ) is Err && link_target(b, all, current, l)->Err_0.code
            == ErrorCode::UnresolvedEvidenceTarget,
        l.target_record_id is None && (l.target_repo_relative_path is None || l.target_git_commit
            is None || l.target_span is None) ==> link_target(b, all, current, l) is Err
            && link_target(b, all, current, l)->Err_0.code == ErrorCode::MissingField,
        l.target_record_id is None && l.as_of_commit is Some && l.target_git_commit is Some
            && l.as_of_commit != l.target_git_commit ==> link_target(b, all, current, l) is Err,
        l.target_record_id is None && link_target(b, all, current, l) is Ok ==> link_target(
            b,
            all,
            current,
            l,
        )->Ok_0.1 == l.target_git_commit && fits_domain(
            link_target(b, all, current, l)->Ok_0.0,
            l.target_domain,
        ),
{
    lemma_first(current, id, 0);
    if unnamed(b, id) {
        assert forall|k: int| 0 <= k < b.len() implies crate::ir::record_id(#[trigger] b[k])
            != id by {
            assert(named(b[k]) != id);
        }
    }
    reveal_strlit("codegraph");
    reveal_strlit("agent_memory");
    reveal_strlit("verification");
    assert("codegraph"@.len() == 9 && "agent_memory"@.len() == 12 && "verification"@.len() == 12);
    assert("agent_memory"@[0] == 'a' && "verification"@[0] == 'v');
}

// ---------------------------------------------------------------------------
// Workflow rules
// ---------------------------------------------------------------------------

/// Whether the text holds a character that is no white space.
pub open spec fn worded(t: Seq<char>) -> bool {
    exists|i: int| 0 <= i < t.len() && !char_is_whitespace(#[trigger] t[i])
}

/// A workflow rule with a text is approved exactly where it has triggers, none of them blank, and a
/// summary of what it does that is not blank.
pub proof fn law_which_workflow_rules_are_approved(
    records: Seq<GraphRecord>,
    k: int,
    q: DecideView,
)
    requires
        candidate_at(records, q.candidate_id, k),
        records[k]->Node_0.kind == NodeKind::PromoteCandidate,
        records[k]->Node_0@.user_context.proposed_rule_kind == Some("workflow_rule"@),
        records[k]->Node_0@.user_context.proposed_rule_text is Some,
        q.outcome == "approved"@,
    ensures
        ({
            let c = records[k]->Node_0@.user_context;
            decide_error(records, q) is None <==> c.triggers is Some && c.triggers->0.len() > 0 && (
            forall|i: int| 0 <= i < c.triggers->0.len() ==> worded(#[trigger] c.triggers->0[i]))
                && c.action_summary is Some && worded(c.action_summary->0)
        }),
{
    crate::decide_laws::lemma_first(records, q.candidate_id, k);
    crate::decide_laws::lemma_rule_kinds();
    reveal(crate::decide::request_error);
    reveal(crate::decide::approval_error);
    let c = records[k]->Node_0@.user_context;
    assert forall|t: Seq<char>| #[trigger] crate::scan::blank(t) <==> !worded(t) by {}
    if c.triggers is Some {
        if forall|i: int| 0 <= i < c.triggers->0.len() ==> worded(#[trigger] c.triggers->0[i]) {
            assert forall|i: int| 0 <= i < c.triggers->0.len() implies !crate::scan::blank(
                #[trigger] c.triggers->0[i],
            ) by {
                assert(worded(c.triggers->0[i]));
            }
        }
        if forall|i: int|
            0 <= i < c.triggers->0.len() ==> !crate::scan::blank(#[trigger] c.triggers->0[i]) {
            assert forall|i: int| 0 <= i < c.triggers->0.len() implies worded(
                #[trigger] c.triggers->0[i],
            ) by {
                assert(!crate::scan::blank(c.triggers->0[i]));
            }
        }
    }
}

} // verus!
