//! Which nodes a relation may join.

use vstd::prelude::*;
use vstd::string::*;

use crate::api_error::{bad, error_of, ApiError, ErrorView};
use crate::ir::{edge_label_name, node_kind_name, EdgeLabel, NodeKind};
use crate::text::{concat4, concat5, concat6, concat7, has_prefix, starts_with, str_eq};

verus! {

/// Whether a node of the kind may be the source of the relation.
pub open spec fn source_suits(label: EdgeLabel, kind: NodeKind) -> bool {
    match label {
        EdgeLabel::Observes | EdgeLabel::ExplainsChange | EdgeLabel::ValidatedBy => kind == NodeKind::Observation,
        EdgeLabel::ProducedPatch => kind == NodeKind::FileEdit || kind == NodeKind::AgentTurn,
        EdgeLabel::ProducedEvidence => kind == NodeKind::ToolCall,
        EdgeLabel::TouchedFile => kind == NodeKind::FileEdit || kind == NodeKind::ToolCall || kind == NodeKind::CommandRun,
        EdgeLabel::FailedOn => kind == NodeKind::TestRun || kind == NodeKind::CIStatus || kind == NodeKind::Failure,
        _ => true,
    }
}

/// What the relation demands, as its error says it.
pub open spec fn source_suits_demand(label: EdgeLabel) -> Seq<char> {
    match label {
        EdgeLabel::Observes | EdgeLabel::ExplainsChange | EdgeLabel::ValidatedBy => "' requires an Observation source node, not "@,
        EdgeLabel::ProducedPatch => "' requires a FileEdit or AgentTurn source node, not "@,
        EdgeLabel::ProducedEvidence => "' requires a ToolCall source node, not "@,
        EdgeLabel::TouchedFile => "' requires a FileEdit, ToolCall, or CommandRun source node, not "@,
        EdgeLabel::FailedOn => "' requires a TestRun, CIStatus, or Failure source node; got source kind "@,
        _ => ""@,
    }
}

fn source_suits_is(label: EdgeLabel, kind: NodeKind) -> (r: bool)
    ensures
        r == source_suits(label, kind),
{
    match label {
        EdgeLabel::Observes | EdgeLabel::ExplainsChange | EdgeLabel::ValidatedBy => match kind {
            NodeKind::Observation => true,
            _ => false,
        },
        EdgeLabel::ProducedPatch => match kind {
            NodeKind::FileEdit | NodeKind::AgentTurn => true,
            _ => false,
        },
        EdgeLabel::ProducedEvidence => match kind {
            NodeKind::ToolCall => true,
            _ => false,
        },
        EdgeLabel::TouchedFile => match kind {
            NodeKind::FileEdit | NodeKind::ToolCall | NodeKind::CommandRun => true,
            _ => false,
        },
        EdgeLabel::FailedOn => match kind {
            NodeKind::TestRun | NodeKind::CIStatus | NodeKind::Failure => true,
            _ => false,
        },
        _ => true,
    }
}

fn source_suits_text(label: EdgeLabel) -> (r: &'static str)
    ensures
        r@ == source_suits_demand(label),
{
    match label {
        EdgeLabel::Observes | EdgeLabel::ExplainsChange | EdgeLabel::ValidatedBy => "' requires an Observation source node, not ",
        EdgeLabel::ProducedPatch => "' requires a FileEdit or AgentTurn source node, not ",
        EdgeLabel::ProducedEvidence => "' requires a ToolCall source node, not ",
        EdgeLabel::TouchedFile => "' requires a FileEdit, ToolCall, or CommandRun source node, not ",
        EdgeLabel::FailedOn => "' requires a TestRun, CIStatus, or Failure source node; got source kind ",
        _ => "",
    }
}

/// Whether a node of the kind may be the target of the relation.
pub open spec fn target_suits(label: EdgeLabel, kind: Option<NodeKind>) -> bool {
    match label {
        EdgeLabel::MentionsSymbol => kind == Some(NodeKind::Symbol),
        EdgeLabel::TouchedFile => kind == Some(NodeKind::File),
        EdgeLabel::ReferencesTask => kind == Some(NodeKind::Task),
        EdgeLabel::HasEvidence => kind == Some(NodeKind::Verification) || kind == Some(NodeKind::TestRun) || kind == Some(NodeKind::CIStatus) || kind == Some(NodeKind::BenchmarkRun) || kind == Some(NodeKind::CoverageReport) || kind == Some(NodeKind::ProofResult) || kind == Some(NodeKind::CommandEvidence),
        EdgeLabel::ValidatedBy => kind == Some(NodeKind::Verification) || kind == Some(NodeKind::TestRun) || kind == Some(NodeKind::CIStatus) || kind == Some(NodeKind::BenchmarkRun) || kind == Some(NodeKind::CoverageReport) || kind == Some(NodeKind::ProofResult),
        EdgeLabel::ExplainsChange => kind == Some(NodeKind::Commit) || kind == Some(NodeKind::Change),
        EdgeLabel::FailedOn => kind == Some(NodeKind::Symbol) || kind == Some(NodeKind::File),
        EdgeLabel::ProducedPatch => kind == Some(NodeKind::PatchArtifact),
        EdgeLabel::ProducedEvidence => kind == Some(NodeKind::CommandRun) || kind == Some(NodeKind::TestRun),
        _ => true,
    }
}

/// What the relation demands, as its error says it.
pub open spec fn target_suits_demand(label: EdgeLabel) -> Seq<char> {
    match label {
        EdgeLabel::MentionsSymbol => "' requires a Symbol target; target '"@,
        EdgeLabel::TouchedFile => "' requires a File target; target '"@,
        EdgeLabel::ReferencesTask => "' requires a Task target; target '"@,
        EdgeLabel::HasEvidence => "' requires a verification-evidence or CommandEvidence target; target '"@,
        EdgeLabel::ValidatedBy => "' requires a verification-evidence target; target '"@,
        EdgeLabel::ExplainsChange => "' requires a Commit or Change target; target '"@,
        EdgeLabel::FailedOn => "' requires a Symbol or File target; target '"@,
        EdgeLabel::ProducedPatch => "' requires a PatchArtifact target; target '"@,
        EdgeLabel::ProducedEvidence => "' requires a CommandRun or TestRun target; target '"@,
        _ => ""@,
    }
}

fn target_suits_is(label: EdgeLabel, kind: Option<NodeKind>) -> (r: bool)
    ensures
        r == target_suits(label, kind),
{
    match label {
        EdgeLabel::MentionsSymbol => match kind {
            Some(NodeKind::Symbol) => true,
            _ => false,
        },
        EdgeLabel::TouchedFile => match kind {
            Some(NodeKind::File) => true,
            _ => false,
        },
        EdgeLabel::ReferencesTask => match kind {
            Some(NodeKind::Task) => true,
            _ => false,
        },
        EdgeLabel::HasEvidence => match kind {
            Some(NodeKind::Verification) | Some(NodeKind::TestRun) | Some(NodeKind::CIStatus) | Some(NodeKind::BenchmarkRun) | Some(NodeKind::CoverageReport) | Some(NodeKind::ProofResult) | Some(NodeKind::CommandEvidence) => true,
            _ => false,
        },
        EdgeLabel::ValidatedBy => match kind {
            Some(NodeKind::Verification) | Some(NodeKind::TestRun) | Some(NodeKind::CIStatus) | Some(NodeKind::BenchmarkRun) | Some(NodeKind::CoverageReport) | Some(NodeKind::ProofResult) => true,
            _ => false,
        },
        EdgeLabel::ExplainsChange => match kind {
            Some(NodeKind::Commit) | Some(NodeKind::Change) => true,
            _ => false,
        },
        EdgeLabel::FailedOn => match kind {
            Some(NodeKind::Symbol) | Some(NodeKind::File) => true,
            _ => false,
        },
        EdgeLabel::ProducedPatch => match kind {
            Some(NodeKind::PatchArtifact) => true,
            _ => false,
        },
        EdgeLabel::ProducedEvidence => match kind {
            Some(NodeKind::CommandRun) | Some(NodeKind::TestRun) => true,
            _ => false,
        },
        _ => true,
    }
}

fn target_suits_text(label: EdgeLabel) -> (r: &'static str)
    ensures
        r@ == target_suits_demand(label),
{
    match label {
        EdgeLabel::MentionsSymbol => "' requires a Symbol target; target '",
        EdgeLabel::TouchedFile => "' requires a File target; target '",
        EdgeLabel::ReferencesTask => "' requires a Task target; target '",
        EdgeLabel::HasEvidence => "' requires a verification-evidence or CommandEvidence target; target '",
        EdgeLabel::ValidatedBy => "' requires a verification-evidence target; target '",
        EdgeLabel::ExplainsChange => "' requires a Commit or Change target; target '",
        EdgeLabel::FailedOn => "' requires a Symbol or File target; target '",
        EdgeLabel::ProducedPatch => "' requires a PatchArtifact target; target '",
        EdgeLabel::ProducedEvidence => "' requires a CommandRun or TestRun target; target '",
        _ => "",
    }
}

/// Whether the identifier may be the source of an edge with the label.
pub open spec fn source_domain_suits(label: EdgeLabel, id: Seq<char>) -> bool {
    match label {
        EdgeLabel::SessionOf | EdgeLabel::Observes | EdgeLabel::ProducedPatch | EdgeLabel::ProducedEvidence | EdgeLabel::ValidatedBy | EdgeLabel::ExplainsChange | EdgeLabel::ReferencesTask | EdgeLabel::Supersedes => has_prefix(id, "agent_memory:v1:"@),
        EdgeLabel::MentionsSymbol | EdgeLabel::TouchedFile | EdgeLabel::FailedOn | EdgeLabel::Contradicts => has_prefix(id, "agent_memory:v1:"@) || has_prefix(id, "verification:v1:"@),
        _ => true,
    }
}

/// What the relation demands, as its error says it.
pub open spec fn source_domain_suits_demand(label: EdgeLabel) -> Seq<char> {
    match label {
        EdgeLabel::SessionOf | EdgeLabel::Observes | EdgeLabel::ProducedPatch | EdgeLabel::ProducedEvidence | EdgeLabel::ValidatedBy | EdgeLabel::ExplainsChange | EdgeLabel::ReferencesTask | EdgeLabel::Supersedes => "' requires an agent_memory:v1: source; got source '"@,
        EdgeLabel::MentionsSymbol | EdgeLabel::TouchedFile | EdgeLabel::FailedOn | EdgeLabel::Contradicts => "' requires an agent_memory:v1: or verification:v1: source; got source '"@,
        _ => ""@,
    }
}

fn source_domain_suits_is(label: EdgeLabel, id: &str) -> (r: bool)
    ensures
        r == source_domain_suits(label, id@),
{
    match label {
        EdgeLabel::SessionOf | EdgeLabel::Observes | EdgeLabel::ProducedPatch | EdgeLabel::ProducedEvidence | EdgeLabel::ValidatedBy | EdgeLabel::ExplainsChange | EdgeLabel::ReferencesTask | EdgeLabel::Supersedes => starts_with(id, "agent_memory:v1:"),
        EdgeLabel::MentionsSymbol | EdgeLabel::TouchedFile | EdgeLabel::FailedOn | EdgeLabel::Contradicts => starts_with(id, "agent_memory:v1:") || starts_with(id, "verification:v1:"),
        _ => true,
    }
}

fn source_domain_suits_text(label: EdgeLabel) -> (r: &'static str)
    ensures
        r@ == source_domain_suits_demand(label),
{
    match label {
        EdgeLabel::SessionOf | EdgeLabel::Observes | EdgeLabel::ProducedPatch | EdgeLabel::ProducedEvidence | EdgeLabel::ValidatedBy | EdgeLabel::ExplainsChange | EdgeLabel::ReferencesTask | EdgeLabel::Supersedes => "' requires an agent_memory:v1: source; got source '",
        EdgeLabel::MentionsSymbol | EdgeLabel::TouchedFile | EdgeLabel::FailedOn | EdgeLabel::Contradicts => "' requires an agent_memory:v1: or verification:v1: source; got source '",
        _ => "",
    }
}

/// Whether the identifier may be the target of an edge with the label.
pub open spec fn target_domain_suits(label: EdgeLabel, id: Seq<char>) -> bool {
    match label {
        EdgeLabel::SessionOf | EdgeLabel::AuthoredBy | EdgeLabel::ReferencesTask | EdgeLabel::Supersedes => has_prefix(id, "agent_memory:v1:"@),
        EdgeLabel::ValidatedBy | EdgeLabel::HasEvidence => has_prefix(id, "agent_memory:v1:"@) || has_prefix(id, "verification:v1:"@),
        EdgeLabel::Observes | EdgeLabel::MentionsSymbol | EdgeLabel::TouchedFile | EdgeLabel::FailedOn | EdgeLabel::ExplainsChange => has_prefix(id, "codegraph:"@),
        EdgeLabel::ProducedPatch => has_prefix(id, "artifact:v1:"@),
        EdgeLabel::ProducedEvidence => has_prefix(id, "verification:v1:"@),
        _ => true,
    }
}

/// What the relation demands, as its error says it.
pub open spec fn target_domain_suits_demand(label: EdgeLabel) -> Seq<char> {
    match label {
        EdgeLabel::SessionOf | EdgeLabel::AuthoredBy | EdgeLabel::ReferencesTask | EdgeLabel::Supersedes => "' requires an agent_memory:v1: target; got target '"@,
        EdgeLabel::ValidatedBy | EdgeLabel::HasEvidence => "' requires an agent_memory:v1: or verification:v1: target; got target '"@,
        EdgeLabel::Observes | EdgeLabel::MentionsSymbol | EdgeLabel::TouchedFile | EdgeLabel::FailedOn | EdgeLabel::ExplainsChange => "' requires a codegraph: target; got target '"@,
        EdgeLabel::ProducedPatch => "' requires an artifact:v1: target; got target '"@,
        EdgeLabel::ProducedEvidence => "' requires a verification:v1: target; got target '"@,
        _ => ""@,
    }
}

fn target_domain_suits_is(label: EdgeLabel, id: &str) -> (r: bool)
    ensures
        r == target_domain_suits(label, id@),
{
    match label {
        EdgeLabel::SessionOf | EdgeLabel::AuthoredBy | EdgeLabel::ReferencesTask | EdgeLabel::Supersedes => starts_with(id, "agent_memory:v1:"),
        EdgeLabel::ValidatedBy | EdgeLabel::HasEvidence => starts_with(id, "agent_memory:v1:") || starts_with(id, "verification:v1:"),
        EdgeLabel::Observes | EdgeLabel::MentionsSymbol | EdgeLabel::TouchedFile | EdgeLabel::FailedOn | EdgeLabel::ExplainsChange => starts_with(id, "codegraph:"),
        EdgeLabel::ProducedPatch => starts_with(id, "artifact:v1:"),
        EdgeLabel::ProducedEvidence => starts_with(id, "verification:v1:"),
        _ => true,
    }
}

fn target_domain_suits_text(label: EdgeLabel) -> (r: &'static str)
    ensures
        r@ == target_domain_suits_demand(label),
{
    match label {
        EdgeLabel::SessionOf | EdgeLabel::AuthoredBy | EdgeLabel::ReferencesTask | EdgeLabel::Supersedes => "' requires an agent_memory:v1: target; got target '",
        EdgeLabel::ValidatedBy | EdgeLabel::HasEvidence => "' requires an agent_memory:v1: or verification:v1: target; got target '",
        EdgeLabel::Observes | EdgeLabel::MentionsSymbol | EdgeLabel::TouchedFile | EdgeLabel::FailedOn | EdgeLabel::ExplainsChange => "' requires a codegraph: target; got target '",
        EdgeLabel::ProducedPatch => "' requires an artifact:v1: target; got target '",
        EdgeLabel::ProducedEvidence => "' requires a verification:v1: target; got target '",
        _ => "",
    }
}

/// Whether a link with the relation may declare the target domain.
pub open spec fn domain_suits(label: EdgeLabel, domain: Seq<char>) -> bool {
    match label {
        EdgeLabel::Observes | EdgeLabel::MentionsSymbol | EdgeLabel::TouchedFile | EdgeLabel::FailedOn | EdgeLabel::ExplainsChange => domain == "codegraph"@,
        EdgeLabel::ValidatedBy | EdgeLabel::HasEvidence => domain == "agent_memory"@ || domain == "verification"@,
        EdgeLabel::Supersedes => domain == "agent_memory"@,
        EdgeLabel::ReferencesTask => domain == "project"@ || domain == "agent_memory"@,
        EdgeLabel::ProducedPatch => domain == "artifact"@,
        EdgeLabel::ProducedEvidence => domain == "verification"@,
        _ => true,
    }
}

/// What the relation demands, as its error says it.
pub open spec fn domain_suits_demand(label: EdgeLabel) -> Seq<char> {
    match label {
        EdgeLabel::Observes | EdgeLabel::MentionsSymbol | EdgeLabel::TouchedFile | EdgeLabel::FailedOn | EdgeLabel::ExplainsChange => "' requires target_domain 'codegraph'; got '"@,
        EdgeLabel::ValidatedBy | EdgeLabel::HasEvidence => "' requires target_domain 'agent_memory' or 'verification'; got '"@,
        EdgeLabel::Supersedes => "' requires target_domain 'agent_memory'; got '"@,
        EdgeLabel::ReferencesTask => "' requires target_domain 'project' or 'agent_memory'; got '"@,
        EdgeLabel::ProducedPatch => "' requires target_domain 'artifact'; got '"@,
        EdgeLabel::ProducedEvidence => "' requires target_domain 'verification'; got '"@,
        _ => ""@,
    }
}

fn domain_suits_is(label: EdgeLabel, domain: &str) -> (r: bool)
    ensures
        r == domain_suits(label, domain@),
{
    match label {
        EdgeLabel::Observes | EdgeLabel::MentionsSymbol | EdgeLabel::TouchedFile | EdgeLabel::FailedOn | EdgeLabel::ExplainsChange => str_eq(domain, "codegraph"),
        EdgeLabel::ValidatedBy | EdgeLabel::HasEvidence => str_eq(domain, "agent_memory") || str_eq(domain, "verification"),
        EdgeLabel::Supersedes => str_eq(domain, "agent_memory"),
        EdgeLabel::ReferencesTask => str_eq(domain, "project") || str_eq(domain, "agent_memory"),
        EdgeLabel::ProducedPatch => str_eq(domain, "artifact"),
        EdgeLabel::ProducedEvidence => str_eq(domain, "verification"),
        _ => true,
    }
}

fn domain_suits_text(label: EdgeLabel) -> (r: &'static str)
    ensures
        r@ == domain_suits_demand(label),
{
    match label {
        EdgeLabel::Observes | EdgeLabel::MentionsSymbol | EdgeLabel::TouchedFile | EdgeLabel::FailedOn | EdgeLabel::ExplainsChange => "' requires target_domain 'codegraph'; got '",
        EdgeLabel::ValidatedBy | EdgeLabel::HasEvidence => "' requires target_domain 'agent_memory' or 'verification'; got '",
        EdgeLabel::Supersedes => "' requires target_domain 'agent_memory'; got '",
        EdgeLabel::ReferencesTask => "' requires target_domain 'project' or 'agent_memory'; got '",
        EdgeLabel::ProducedPatch => "' requires target_domain 'artifact'; got '",
        EdgeLabel::ProducedEvidence => "' requires target_domain 'verification'; got '",
        _ => "",
    }
}

/// The name of a kind, or `unknown`.
pub open spec fn kind_text(kind: Option<NodeKind>) -> Seq<char> {
    match kind {
        Some(k) => node_kind_name(k),
        None => "unknown"@,
    }
}

/// The name of a kind, or `unknown`.
pub fn kind_name(kind: Option<NodeKind>) -> (r: &'static str)
    ensures
        r@ == kind_text(kind),
{
    match kind {
        Some(k) => k.as_str(),
        None => "unknown",
    }
}

/// What is wrong with the kinds of the nodes that a relation joins. A source of
/// unknown kind is not held to anything.
pub open spec fn endpoint_error(
    source_kind: Option<NodeKind>,
    label: EdgeLabel,
    target_kind: Option<NodeKind>,
    target_id: Seq<char>,
) -> Option<ErrorView> {
    if source_kind is Some && !source_suits(label, source_kind->0) {
        Some(
            bad(
                "evidence link relation '"@ + edge_label_name(label) + source_suits_demand(label)
                    + node_kind_name(source_kind->0),
            ),
        )
    } else if !target_suits(label, target_kind) {
        Some(
            bad(
                "evidence link relation '"@ + edge_label_name(label) + target_suits_demand(label)
                    + target_id + "' has kind "@ + kind_text(target_kind),
            ),
        )
    } else {
        None
    }
}

/// Checks the kinds of the nodes that a relation joins.
pub fn validate_evidence_endpoint_constraints(
    source_kind: Option<NodeKind>,
    label: EdgeLabel,
    target_kind: Option<NodeKind>,
    target_id: &str,
) -> (r: Result<(), ApiError>)
    ensures
        error_of(r) == endpoint_error(source_kind, label, target_kind, target_id@),
{
    match source_kind {
        Some(k) => {
            if !source_suits_is(label, k) {
                return Err(
                    ApiError::bad_request(
                        concat4(
                            "evidence link relation '",
                            label.as_str(),
                            source_suits_text(label),
                            k.as_str(),
                        ),
                    ),
                );
            }
        },
        None => {},
    }
    if !target_suits_is(label, target_kind) {
        return Err(
            ApiError::bad_request(
                concat6(
                    "evidence link relation '",
                    label.as_str(),
                    target_suits_text(label),
                    target_id,
                    "' has kind ",
                    kind_name(target_kind),
                ),
            ),
        );
    }
    Ok(())
}

/// What is wrong with the domains of the ends of a submitted edge.
pub open spec fn edge_domain_error(
    id: Seq<char>,
    label: EdgeLabel,
    source: Seq<char>,
    target: Seq<char>,
) -> Option<ErrorView> {
    if !source_domain_suits(label, source) {
        Some(
            bad(
                "agent-memory edge '"@ + id + "' label '"@ + edge_label_name(label)
                    + source_domain_suits_demand(label) + source + "'"@,
            ),
        )
    } else if !target_domain_suits(label, target) {
        Some(
            bad(
                "agent-memory edge '"@ + id + "' label '"@ + edge_label_name(label)
                    + target_domain_suits_demand(label) + target + "'"@,
            ),
        )
    } else {
        None
    }
}

/// Checks the domains of the ends of a submitted edge.
pub fn validate_agent_memory_edge_endpoints(
    id: &str,
    label: EdgeLabel,
    source: &str,
    target: &str,
) -> (r: Result<(), ApiError>)
    ensures
        error_of(r) == edge_domain_error(id@, label, source@, target@),
{
    if !source_domain_suits_is(label, source) {
        return Err(
            ApiError::bad_request(
                concat7(
                    "agent-memory edge '",
                    id,
                    "' label '",
                    label.as_str(),
                    source_domain_suits_text(label),
                    source,
                    "'",
                ),
            ),
        );
    }
    if !target_domain_suits_is(label, target) {
        return Err(
            ApiError::bad_request(
                concat7(
                    "agent-memory edge '",
                    id,
                    "' label '",
                    label.as_str(),
                    target_domain_suits_text(label),
                    target,
                    "'",
                ),
            ),
        );
    }
    Ok(())
}

/// What is wrong with the target domain that a link declares.
pub open spec fn declared_domain_error(label: EdgeLabel, domain: Seq<char>) -> Option<ErrorView> {
    if domain_suits(label, domain) {
        None
    } else {
        Some(
            bad(
                "evidence link relation '"@ + edge_label_name(label) + domain_suits_demand(label)
                    + domain + "'"@,
            ),
        )
    }
}

/// Checks the target domain that a link declares.
pub fn validate_declared_domain(label: EdgeLabel, domain: &str) -> (r: Result<(), ApiError>)
    ensures
        error_of(r) == declared_domain_error(label, domain@),
{
    if domain_suits_is(label, domain) {
        return Ok(());
    }
    Err(
        ApiError::bad_request(
            concat5(
                "evidence link relation '",
                label.as_str(),
                domain_suits_text(label),
                domain,
                "'",
            ),
        ),
    )
}

} // verus!
