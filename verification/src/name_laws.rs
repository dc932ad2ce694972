//! The names under which kinds, labels and verdicts are stored and told.

use vstd::prelude::*;

use crate::api_error::{code_name, ErrorCode};
use crate::criteria_coverage::{resolution_name, LinkResolution};
use crate::evidence_freshness::{verdict_name, FreshnessVerdict};
use crate::freshness_query::{citation_verdict_name, CitationVerdict};
use crate::inventories::{lane_name, SiteLane};
use crate::ir::{cites_evidence, code_topology, edge_label_name, label_named, node_kind_name, EdgeLabel, NodeKind};
use crate::reach::{corpus_mode_name, handle_kind_name, verb_name, CorpusMode, HandleKind, Verb};

verus! {

/// An error is told under a name of its own, by which a client knows what was wrong.
pub proof fn law_names_of_errors(e: ErrorCode)
    ensures
        e == ErrorCode::Unauthorized ==> code_name(e) == "unauthorized"@,
        e == ErrorCode::BadRequest ==> code_name(e) == "bad_request"@,
        e == ErrorCode::MissingField ==> code_name(e) == "missing_field"@,
        e == ErrorCode::InvalidDomain ==> code_name(e) == "invalid_domain"@,
        e == ErrorCode::IdempotencyConflict ==> code_name(e) == "idempotency_conflict"@,
        e == ErrorCode::NotFound ==> code_name(e) == "not_found"@,
        e == ErrorCode::PayloadTooLarge ==> code_name(e) == "payload_too_large"@,
        e == ErrorCode::QueueFull ==> code_name(e) == "queue_full"@,
        e == ErrorCode::QueryTimeout ==> code_name(e) == "query_timeout"@,
        e == ErrorCode::InternalError ==> code_name(e) == "internal_error"@,
        e == ErrorCode::NotImplemented ==> code_name(e) == "not_implemented"@,
        e == ErrorCode::ShutdownInProgress ==> code_name(e) == "shutdown_in_progress"@,
        e == ErrorCode::RedactionRequired ==> code_name(e) == "redaction_required"@,
        e == ErrorCode::UnresolvedEvidenceTarget ==> code_name(e) == "unresolved_evidence_target"@,
        e == ErrorCode::LocalPathIdentityUnsupported ==> code_name(e) == "local_path_identity_unsupported"@,
        e == ErrorCode::AmbiguousCommitPrefix ==> code_name(e) == "ambiguous_commit_prefix"@,
        e == ErrorCode::MissingEvidenceHandle ==> code_name(e) == "missing_evidence_handle"@,
        e == ErrorCode::PatchStatusPinned ==> code_name(e) == "patch_status_pinned"@,
        e == ErrorCode::InlinePayloadExceedsCeiling ==> code_name(e) == "inline_payload_exceeds_ceiling"@,
{
}

/// What a closing link leads to is told by name.
pub proof fn law_names_of_resolutions(l: LinkResolution)
    ensures
        l == LinkResolution::Passing ==> resolution_name(l) == "passing"@,
        l == LinkResolution::Failing ==> resolution_name(l) == "failing"@,
        l == LinkResolution::Inconclusive ==> resolution_name(l) == "inconclusive"@,
        l == LinkResolution::NonVerificationDomain ==> resolution_name(l) == "non_verification_domain"@,
        l == LinkResolution::Unresolved ==> resolution_name(l) == "unresolved"@,
{
}

/// What became of a citation is told by name.
pub proof fn law_names_of_verdicts(f: FreshnessVerdict)
    ensures
        f == FreshnessVerdict::Current ==> verdict_name(f) == "current"@,
        f == FreshnessVerdict::Drifted ==> verdict_name(f) == "drifted"@,
        f == FreshnessVerdict::Unresolved ==> verdict_name(f) == "unresolved"@,
        f == FreshnessVerdict::Untemporal ==> verdict_name(f) == "untemporal"@,
{
}

/// What became of what a verification cites is told by name.
pub proof fn law_names_of_citation_verdicts(c: CitationVerdict)
    ensures
        c == CitationVerdict::Current ==> citation_verdict_name(c) == "current"@,
        c == CitationVerdict::Stale ==> citation_verdict_name(c) == "stale"@,
        c == CitationVerdict::Unresolved ==> citation_verdict_name(c) == "unresolved"@,
        c == CitationVerdict::Unanchored ==> citation_verdict_name(c) == "unanchored"@,
{
}

/// An inventory is told by the name of its lane.
pub proof fn law_names_of_lanes(s: SiteLane)
    ensures
        s == SiteLane::UnsafeSites ==> lane_name(s) == "unsafe_sites"@,
        s == SiteLane::UnwrapExpect ==> lane_name(s) == "unwrap_expect"@,
{
}

/// The kind of a node is stored under its own name; a store that was written before is read by it.
pub proof fn law_names_of_kinds(n: NodeKind)
    ensures
        n == NodeKind::Repository ==> node_kind_name(n) == "Repository"@,
        n == NodeKind::File ==> node_kind_name(n) == "File"@,
        n == NodeKind::Module ==> node_kind_name(n) == "Module"@,
        n == NodeKind::Symbol ==> node_kind_name(n) == "Symbol"@,
        n == NodeKind::Import ==> node_kind_name(n) == "Import"@,
        n == NodeKind::Diagnostic ==> node_kind_name(n) == "Diagnostic"@,
        n == NodeKind::PanicRiskSite ==> node_kind_name(n) == "PanicRiskSite"@,
        n == NodeKind::DebtMarker ==> node_kind_name(n) == "DebtMarker"@,
        n == NodeKind::UnsafeSite ==> node_kind_name(n) == "UnsafeSite"@,
        n == NodeKind::DependencyDeclaration ==> node_kind_name(n) == "DependencyDeclaration"@,
        n == NodeKind::Commit ==> node_kind_name(n) == "Commit"@,
        n == NodeKind::Change ==> node_kind_name(n) == "Change"@,
        n == NodeKind::ScanCoverage ==> node_kind_name(n) == "ScanCoverage"@,
        n == NodeKind::SemanticDrift ==> node_kind_name(n) == "SemanticDrift"@,
        n == NodeKind::EmbeddingModel ==> node_kind_name(n) == "EmbeddingModel"@,
        n == NodeKind::EmbeddingVector ==> node_kind_name(n) == "EmbeddingVector"@,
        n == NodeKind::Agent ==> node_kind_name(n) == "Agent"@,
        n == NodeKind::AgentSession ==> node_kind_name(n) == "AgentSession"@,
        n == NodeKind::Observation ==> node_kind_name(n) == "Observation"@,
        n == NodeKind::Task ==> node_kind_name(n) == "Task"@,
        n == NodeKind::AcceptanceCriterion ==> node_kind_name(n) == "AcceptanceCriterion"@,
        n == NodeKind::ExternalLink ==> node_kind_name(n) == "ExternalLink"@,
        n == NodeKind::Product ==> node_kind_name(n) == "Product"@,
        n == NodeKind::Project ==> node_kind_name(n) == "Project"@,
        n == NodeKind::Plan ==> node_kind_name(n) == "Plan"@,
        n == NodeKind::GitHubIssue ==> node_kind_name(n) == "GitHubIssue"@,
        n == NodeKind::PR ==> node_kind_name(n) == "PR"@,
        n == NodeKind::Review ==> node_kind_name(n) == "Review"@,
        n == NodeKind::ExternalIdentity ==> node_kind_name(n) == "ExternalIdentity"@,
        n == NodeKind::ReviewStateTransition ==> node_kind_name(n) == "ReviewStateTransition"@,
        n == NodeKind::LocalTask ==> node_kind_name(n) == "LocalTask"@,
        n == NodeKind::Artifact ==> node_kind_name(n) == "Artifact"@,
        n == NodeKind::Verification ==> node_kind_name(n) == "Verification"@,
        n == NodeKind::CommandEvidence ==> node_kind_name(n) == "CommandEvidence"@,
        n == NodeKind::AgentRun ==> node_kind_name(n) == "AgentRun"@,
        n == NodeKind::AgentTurn ==> node_kind_name(n) == "AgentTurn"@,
        n == NodeKind::ToolCall ==> node_kind_name(n) == "ToolCall"@,
        n == NodeKind::CommandRun ==> node_kind_name(n) == "CommandRun"@,
        n == NodeKind::FileEdit ==> node_kind_name(n) == "FileEdit"@,
        n == NodeKind::PatchArtifact ==> node_kind_name(n) == "PatchArtifact"@,
        n == NodeKind::Failure ==> node_kind_name(n) == "Failure"@,
        n == NodeKind::Decision ==> node_kind_name(n) == "Decision"@,
        n == NodeKind::TestRun ==> node_kind_name(n) == "TestRun"@,
        n == NodeKind::CIStatus ==> node_kind_name(n) == "CIStatus"@,
        n == NodeKind::BenchmarkRun ==> node_kind_name(n) == "BenchmarkRun"@,
        n == NodeKind::CoverageReport ==> node_kind_name(n) == "CoverageReport"@,
        n == NodeKind::ProofResult ==> node_kind_name(n) == "ProofResult"@,
        n == NodeKind::PromoteCandidate ==> node_kind_name(n) == "PromoteCandidate"@,
        n == NodeKind::PromotionPrompt ==> node_kind_name(n) == "PromotionPrompt"@,
        n == NodeKind::PromotionDecision ==> node_kind_name(n) == "PromotionDecision"@,
        n == NodeKind::Preference ==> node_kind_name(n) == "Preference"@,
        n == NodeKind::WorkflowRule ==> node_kind_name(n) == "WorkflowRule"@,
        n == NodeKind::NamingDecision ==> node_kind_name(n) == "NamingDecision"@,
        n == NodeKind::Constraint ==> node_kind_name(n) == "Constraint"@,
        n == NodeKind::CostUsage ==> node_kind_name(n) == "CostUsage"@,
        n == NodeKind::Retraction ==> node_kind_name(n) == "Retraction"@,
        n == NodeKind::LogSource ==> node_kind_name(n) == "LogSource"@,
        n == NodeKind::ErrorSignature ==> node_kind_name(n) == "ErrorSignature"@,
        n == NodeKind::LogEvent ==> node_kind_name(n) == "LogEvent"@,
        n == NodeKind::LogOccurrenceBucket ==> node_kind_name(n) == "LogOccurrenceBucket"@,
{
}

/// The label of an edge is stored in capitals; a store that was written before is read by it.
pub proof fn law_names_of_labels(e: EdgeLabel)
    ensures
        e == EdgeLabel::Contains ==> edge_label_name(e) == "CONTAINS"@,
        e == EdgeLabel::Defines ==> edge_label_name(e) == "DEFINES"@,
        e == EdgeLabel::Calls ==> edge_label_name(e) == "CALLS"@,
        e == EdgeLabel::References ==> edge_label_name(e) == "REFERENCES"@,
        e == EdgeLabel::Imports ==> edge_label_name(e) == "IMPORTS"@,
        e == EdgeLabel::Implements ==> edge_label_name(e) == "IMPLEMENTS"@,
        e == EdgeLabel::Constructs ==> edge_label_name(e) == "CONSTRUCTS"@,
        e == EdgeLabel::AuthoredBy ==> edge_label_name(e) == "AUTHORED_BY"@,
        e == EdgeLabel::FailedOn ==> edge_label_name(e) == "FAILED_ON"@,
        e == EdgeLabel::ExplainsChange ==> edge_label_name(e) == "EXPLAINS_CHANGE"@,
        e == EdgeLabel::ValidatedBy ==> edge_label_name(e) == "VALIDATED_BY"@,
        e == EdgeLabel::TouchedFile ==> edge_label_name(e) == "TOUCHED_FILE"@,
        e == EdgeLabel::TouchesFile ==> edge_label_name(e) == "TOUCHES_FILE"@,
        e == EdgeLabel::ProducedPatch ==> edge_label_name(e) == "PRODUCED_PATCH"@,
        e == EdgeLabel::MentionsSymbol ==> edge_label_name(e) == "MENTIONS_SYMBOL"@,
        e == EdgeLabel::Supersedes ==> edge_label_name(e) == "SUPERSEDES"@,
        e == EdgeLabel::SessionOf ==> edge_label_name(e) == "SESSION_OF"@,
        e == EdgeLabel::ProducedEvidence ==> edge_label_name(e) == "PRODUCED_EVIDENCE"@,
        e == EdgeLabel::Observes ==> edge_label_name(e) == "OBSERVES"@,
        e == EdgeLabel::ReferencesTask ==> edge_label_name(e) == "REFERENCES_TASK"@,
        e == EdgeLabel::RelatesTo ==> edge_label_name(e) == "RELATES_TO"@,
        e == EdgeLabel::HasEvidence ==> edge_label_name(e) == "HAS_EVIDENCE"@,
        e == EdgeLabel::OwnedByTask ==> edge_label_name(e) == "OWNED_BY_TASK"@,
        e == EdgeLabel::DriftsPrior ==> edge_label_name(e) == "DRIFTS_PRIOR"@,
        e == EdgeLabel::DriftsFrom ==> edge_label_name(e) == "DRIFTS_FROM"@,
        e == EdgeLabel::Contradicts ==> edge_label_name(e) == "CONTRADICTS"@,
        e == EdgeLabel::ClosesAcceptanceCriterion ==> edge_label_name(e) == "CLOSES_ACCEPTANCE_CRITERION"@,
        e == EdgeLabel::RevokedBy ==> edge_label_name(e) == "REVOKED_BY"@,
        e == EdgeLabel::PromptedFor ==> edge_label_name(e) == "PROMPTED_FOR"@,
        e == EdgeLabel::MaterializedAs ==> edge_label_name(e) == "MATERIALIZED_AS"@,
        e == EdgeLabel::ExternalHandle ==> edge_label_name(e) == "EXTERNAL_HANDLE"@,
        e == EdgeLabel::DecidedOn ==> edge_label_name(e) == "DECIDED_ON"@,
        e == EdgeLabel::ChangedIn ==> edge_label_name(e) == "CHANGED_IN"@,
{
}

/// Which records were asked is told by name.
pub proof fn law_names_of_corpora(c: CorpusMode)
    ensures
        c == CorpusMode::HeadAnchored ==> corpus_mode_name(c) == "head_anchored"@,
        c == CorpusMode::Union ==> corpus_mode_name(c) == "union"@,
        c == CorpusMode::CommitPinned ==> corpus_mode_name(c) == "commit_pinned"@,
        c == CorpusMode::SingleSnapshot ==> corpus_mode_name(c) == "single_snapshot"@,
{
}

/// What a handle names is told by name.
pub proof fn law_names_of_handles(h: HandleKind)
    ensures
        h == HandleKind::Symbol ==> handle_kind_name(h) == "symbol"@,
        h == HandleKind::File ==> handle_kind_name(h) == "file"@,
        h == HandleKind::Task ==> handle_kind_name(h) == "task"@,
        h == HandleKind::Source ==> handle_kind_name(h) == "source"@,
{
}

/// What is asked is told by name.
pub proof fn law_names_of_questions(v: Verb)
    ensures
        v == Verb::TransitiveCallers ==> verb_name(v) == "transitive-callers"@,
        v == Verb::TransitiveCallees ==> verb_name(v) == "transitive-callees"@,
        v == Verb::WhoConstructs ==> verb_name(v) == "who-constructs"@,
{
}

/// What cites evidence is what an observation, a call or a session says of other records; the
/// structure of code, and what tells who made or owns a record, cites nothing. No label is both of
/// evidence and of structure.
pub proof fn law_what_cites_evidence(e: EdgeLabel)
    ensures
        !(cites_evidence(e) && code_topology(e)),
        e == EdgeLabel::Contains ==> !cites_evidence(e) && code_topology(e),
        e == EdgeLabel::Defines ==> !cites_evidence(e) && code_topology(e),
        e == EdgeLabel::Calls ==> !cites_evidence(e) && code_topology(e),
        e == EdgeLabel::References ==> !cites_evidence(e) && code_topology(e),
        e == EdgeLabel::Imports ==> !cites_evidence(e) && code_topology(e),
        e == EdgeLabel::Implements ==> !cites_evidence(e) && code_topology(e),
        e == EdgeLabel::Constructs ==> !cites_evidence(e) && code_topology(e),
        e == EdgeLabel::AuthoredBy ==> !cites_evidence(e) && !code_topology(e),
        e == EdgeLabel::FailedOn ==> cites_evidence(e) && !code_topology(e),
        e == EdgeLabel::ExplainsChange ==> cites_evidence(e) && !code_topology(e),
        e == EdgeLabel::ValidatedBy ==> cites_evidence(e) && !code_topology(e),
        e == EdgeLabel::TouchedFile ==> cites_evidence(e) && !code_topology(e),
        e == EdgeLabel::TouchesFile ==> !cites_evidence(e) && !code_topology(e),
        e == EdgeLabel::ProducedPatch ==> cites_evidence(e) && !code_topology(e),
        e == EdgeLabel::MentionsSymbol ==> cites_evidence(e) && !code_topology(e),
        e == EdgeLabel::Supersedes ==> cites_evidence(e) && !code_topology(e),
        e == EdgeLabel::SessionOf ==> !cites_evidence(e) && !code_topology(e),
        e == EdgeLabel::ProducedEvidence ==> cites_evidence(e) && !code_topology(e),
        e == EdgeLabel::Observes ==> cites_evidence(e) && !code_topology(e),
        e == EdgeLabel::ReferencesTask ==> cites_evidence(e) && !code_topology(e),
        e == EdgeLabel::RelatesTo ==> cites_evidence(e) && !code_topology(e),
        e == EdgeLabel::HasEvidence ==> cites_evidence(e) && !code_topology(e),
        e == EdgeLabel::OwnedByTask ==> !cites_evidence(e) && !code_topology(e),
        e == EdgeLabel::DriftsPrior ==> !cites_evidence(e) && !code_topology(e),
        e == EdgeLabel::DriftsFrom ==> !cites_evidence(e) && !code_topology(e),
        e == EdgeLabel::Contradicts ==> cites_evidence(e) && !code_topology(e),
        e == EdgeLabel::ClosesAcceptanceCriterion ==> !cites_evidence(e) && !code_topology(e),
        e == EdgeLabel::RevokedBy ==> !cites_evidence(e) && !code_topology(e),
        e == EdgeLabel::PromptedFor ==> !cites_evidence(e) && !code_topology(e),
        e == EdgeLabel::MaterializedAs ==> !cites_evidence(e) && !code_topology(e),
        e == EdgeLabel::ExternalHandle ==> !cites_evidence(e) && !code_topology(e),
        e == EdgeLabel::DecidedOn ==> !cites_evidence(e) && !code_topology(e),
        e == EdgeLabel::ChangedIn ==> !cites_evidence(e) && code_topology(e),
{
}

/// A relation stands for a label only where it is the name of that.
pub proof fn law_relations_are_names_of_labels(relation: Seq<char>)
    ensures
        label_named(relation) is Some ==> crate::ir::edge_label_name(label_named(relation)->0)
            == relation,
{
}

} // verus!
