//! The record model of the graph store.
//!
//! A store is an append-only sequence of [`GraphRecord`]s: node versions, edge
//! versions, and tombstones that retract an identifier. Records that the library
//! builds are specified by their views ([`NodeView`], [`EdgeView`]), in which every
//! string is a sequence of characters.

use vstd::prelude::*;

use crate::text::{opt_view, str_eq};

verus! {

/// Schema version of agent-memory records.
pub const AGENT_MEMORY_SCHEMA_VERSION: u32 = 1;

/// Schema version of user-context records.
pub const USER_CONTEXT_SCHEMA_VERSION: u32 = 1;

/// Schema version of verification records.
pub const VERIFICATION_SCHEMA_VERSION: u32 = 1;

/// Schema version of project records.
pub const PROJECT_SCHEMA_VERSION: u32 = 1;

/// Schema version of semantic records.
pub const SEMANTIC_SCHEMA_VERSION: u32 = 1;

/// Schema version of artifact records.
pub const ARTIFACT_SCHEMA_VERSION: u32 = 1;

/// What a node describes.
#[derive(Clone, Copy, Debug, PartialEq, Eq, PartialOrd, Ord, Hash, Structural)]
pub enum NodeKind {
    Repository,
    File,
    Module,
    Symbol,
    Import,
    Diagnostic,
    PanicRiskSite,
    DebtMarker,
    UnsafeSite,
    DependencyDeclaration,
    Commit,
    Change,
    ScanCoverage,
    SemanticDrift,
    EmbeddingModel,
    EmbeddingVector,
    Agent,
    AgentSession,
    Observation,
    Task,
    AcceptanceCriterion,
    ExternalLink,
    Product,
    Project,
    Plan,
    GitHubIssue,
    PR,
    Review,
    ExternalIdentity,
    ReviewStateTransition,
    LocalTask,
    Artifact,
    Verification,
    CommandEvidence,
    AgentRun,
    AgentTurn,
    ToolCall,
    CommandRun,
    FileEdit,
    PatchArtifact,
    Failure,
    Decision,
    TestRun,
    CIStatus,
    BenchmarkRun,
    CoverageReport,
    ProofResult,
    PromoteCandidate,
    PromotionPrompt,
    PromotionDecision,
    Preference,
    WorkflowRule,
    NamingDecision,
    Constraint,
    CostUsage,
    Retraction,
    LogSource,
    ErrorSignature,
    LogEvent,
    LogOccurrenceBucket,
}

/// The stable name of a node kind.
pub open spec fn node_kind_name(kind: NodeKind) -> Seq<char> {
    match kind {
        NodeKind::Repository => "Repository"@,
        NodeKind::File => "File"@,
        NodeKind::Module => "Module"@,
        NodeKind::Symbol => "Symbol"@,
        NodeKind::Import => "Import"@,
        NodeKind::Diagnostic => "Diagnostic"@,
        NodeKind::PanicRiskSite => "PanicRiskSite"@,
        NodeKind::DebtMarker => "DebtMarker"@,
        NodeKind::UnsafeSite => "UnsafeSite"@,
        NodeKind::DependencyDeclaration => "DependencyDeclaration"@,
        NodeKind::Commit => "Commit"@,
        NodeKind::Change => "Change"@,
        NodeKind::ScanCoverage => "ScanCoverage"@,
        NodeKind::SemanticDrift => "SemanticDrift"@,
        NodeKind::EmbeddingModel => "EmbeddingModel"@,
        NodeKind::EmbeddingVector => "EmbeddingVector"@,
        NodeKind::Agent => "Agent"@,
        NodeKind::AgentSession => "AgentSession"@,
        NodeKind::Observation => "Observation"@,
        NodeKind::Task => "Task"@,
        NodeKind::AcceptanceCriterion => "AcceptanceCriterion"@,
        NodeKind::ExternalLink => "ExternalLink"@,
        NodeKind::Product => "Product"@,
        NodeKind::Project => "Project"@,
        NodeKind::Plan => "Plan"@,
        NodeKind::GitHubIssue => "GitHubIssue"@,
        NodeKind::PR => "PR"@,
        NodeKind::Review => "Review"@,
        NodeKind::ExternalIdentity => "ExternalIdentity"@,
        NodeKind::ReviewStateTransition => "ReviewStateTransition"@,
        NodeKind::LocalTask => "LocalTask"@,
        NodeKind::Artifact => "Artifact"@,
        NodeKind::Verification => "Verification"@,
        NodeKind::CommandEvidence => "CommandEvidence"@,
        NodeKind::AgentRun => "AgentRun"@,
        NodeKind::AgentTurn => "AgentTurn"@,
        NodeKind::ToolCall => "ToolCall"@,
        NodeKind::CommandRun => "CommandRun"@,
        NodeKind::FileEdit => "FileEdit"@,
        NodeKind::PatchArtifact => "PatchArtifact"@,
        NodeKind::Failure => "Failure"@,
        NodeKind::Decision => "Decision"@,
        NodeKind::TestRun => "TestRun"@,
        NodeKind::CIStatus => "CIStatus"@,
        NodeKind::BenchmarkRun => "BenchmarkRun"@,
        NodeKind::CoverageReport => "CoverageReport"@,
        NodeKind::ProofResult => "ProofResult"@,
        NodeKind::PromoteCandidate => "PromoteCandidate"@,
        NodeKind::PromotionPrompt => "PromotionPrompt"@,
        NodeKind::PromotionDecision => "PromotionDecision"@,
        NodeKind::Preference => "Preference"@,
        NodeKind::WorkflowRule => "WorkflowRule"@,
        NodeKind::NamingDecision => "NamingDecision"@,
        NodeKind::Constraint => "Constraint"@,
        NodeKind::CostUsage => "CostUsage"@,
        NodeKind::Retraction => "Retraction"@,
        NodeKind::LogSource => "LogSource"@,
        NodeKind::ErrorSignature => "ErrorSignature"@,
        NodeKind::LogEvent => "LogEvent"@,
        NodeKind::LogOccurrenceBucket => "LogOccurrenceBucket"@,
    }
}

impl NodeKind {
    /// The stable name of the kind.
    pub fn as_str(self) -> (r: &'static str)
        ensures
            r@ == node_kind_name(self),
    {
        match self {
            NodeKind::Repository => "Repository",
            NodeKind::File => "File",
            NodeKind::Module => "Module",
            NodeKind::Symbol => "Symbol",
            NodeKind::Import => "Import",
            NodeKind::Diagnostic => "Diagnostic",
            NodeKind::PanicRiskSite => "PanicRiskSite",
            NodeKind::DebtMarker => "DebtMarker",
            NodeKind::UnsafeSite => "UnsafeSite",
            NodeKind::DependencyDeclaration => "DependencyDeclaration",
            NodeKind::Commit => "Commit",
            NodeKind::Change => "Change",
            NodeKind::ScanCoverage => "ScanCoverage",
            NodeKind::SemanticDrift => "SemanticDrift",
            NodeKind::EmbeddingModel => "EmbeddingModel",
            NodeKind::EmbeddingVector => "EmbeddingVector",
            NodeKind::Agent => "Agent",
            NodeKind::AgentSession => "AgentSession",
            NodeKind::Observation => "Observation",
            NodeKind::Task => "Task",
            NodeKind::AcceptanceCriterion => "AcceptanceCriterion",
            NodeKind::ExternalLink => "ExternalLink",
            NodeKind::Product => "Product",
            NodeKind::Project => "Project",
            NodeKind::Plan => "Plan",
            NodeKind::GitHubIssue => "GitHubIssue",
            NodeKind::PR => "PR",
            NodeKind::Review => "Review",
            NodeKind::ExternalIdentity => "ExternalIdentity",
            NodeKind::ReviewStateTransition => "ReviewStateTransition",
            NodeKind::LocalTask => "LocalTask",
            NodeKind::Artifact => "Artifact",
            NodeKind::Verification => "Verification",
            NodeKind::CommandEvidence => "CommandEvidence",
            NodeKind::AgentRun => "AgentRun",
            NodeKind::AgentTurn => "AgentTurn",
            NodeKind::ToolCall => "ToolCall",
            NodeKind::CommandRun => "CommandRun",
            NodeKind::FileEdit => "FileEdit",
            NodeKind::PatchArtifact => "PatchArtifact",
            NodeKind::Failure => "Failure",
            NodeKind::Decision => "Decision",
            NodeKind::TestRun => "TestRun",
            NodeKind::CIStatus => "CIStatus",
            NodeKind::BenchmarkRun => "BenchmarkRun",
            NodeKind::CoverageReport => "CoverageReport",
            NodeKind::ProofResult => "ProofResult",
            NodeKind::PromoteCandidate => "PromoteCandidate",
            NodeKind::PromotionPrompt => "PromotionPrompt",
            NodeKind::PromotionDecision => "PromotionDecision",
            NodeKind::Preference => "Preference",
            NodeKind::WorkflowRule => "WorkflowRule",
            NodeKind::NamingDecision => "NamingDecision",
            NodeKind::Constraint => "Constraint",
            NodeKind::CostUsage => "CostUsage",
            NodeKind::Retraction => "Retraction",
            NodeKind::LogSource => "LogSource",
            NodeKind::ErrorSignature => "ErrorSignature",
            NodeKind::LogEvent => "LogEvent",
            NodeKind::LogOccurrenceBucket => "LogOccurrenceBucket",
        }
    }
}

/// How an edge relates its ends.
#[derive(Clone, Copy, Debug, PartialEq, Eq, PartialOrd, Ord, Hash, Structural)]
pub enum EdgeLabel {
    Contains,
    Defines,
    Calls,
    References,
    Imports,
    Implements,
    Constructs,
    AuthoredBy,
    FailedOn,
    ExplainsChange,
    ValidatedBy,
    TouchedFile,
    TouchesFile,
    ProducedPatch,
    MentionsSymbol,
    Supersedes,
    SessionOf,
    ProducedEvidence,
    Observes,
    ReferencesTask,
    RelatesTo,
    HasEvidence,
    OwnedByTask,
    DriftsPrior,
    DriftsFrom,
    Contradicts,
    ClosesAcceptanceCriterion,
    RevokedBy,
    PromptedFor,
    MaterializedAs,
    ExternalHandle,
    DecidedOn,
    ChangedIn,
}

/// The wire name of an edge label.
pub open spec fn edge_label_name(label: EdgeLabel) -> Seq<char> {
    match label {
        EdgeLabel::Contains => "CONTAINS"@,
        EdgeLabel::Defines => "DEFINES"@,
        EdgeLabel::Calls => "CALLS"@,
        EdgeLabel::References => "REFERENCES"@,
        EdgeLabel::Imports => "IMPORTS"@,
        EdgeLabel::Implements => "IMPLEMENTS"@,
        EdgeLabel::Constructs => "CONSTRUCTS"@,
        EdgeLabel::AuthoredBy => "AUTHORED_BY"@,
        EdgeLabel::FailedOn => "FAILED_ON"@,
        EdgeLabel::ExplainsChange => "EXPLAINS_CHANGE"@,
        EdgeLabel::ValidatedBy => "VALIDATED_BY"@,
        EdgeLabel::TouchedFile => "TOUCHED_FILE"@,
        EdgeLabel::TouchesFile => "TOUCHES_FILE"@,
        EdgeLabel::ProducedPatch => "PRODUCED_PATCH"@,
        EdgeLabel::MentionsSymbol => "MENTIONS_SYMBOL"@,
        EdgeLabel::Supersedes => "SUPERSEDES"@,
        EdgeLabel::SessionOf => "SESSION_OF"@,
        EdgeLabel::ProducedEvidence => "PRODUCED_EVIDENCE"@,
        EdgeLabel::Observes => "OBSERVES"@,
        EdgeLabel::ReferencesTask => "REFERENCES_TASK"@,
        EdgeLabel::RelatesTo => "RELATES_TO"@,
        EdgeLabel::HasEvidence => "HAS_EVIDENCE"@,
        EdgeLabel::OwnedByTask => "OWNED_BY_TASK"@,
        EdgeLabel::DriftsPrior => "DRIFTS_PRIOR"@,
        EdgeLabel::DriftsFrom => "DRIFTS_FROM"@,
        EdgeLabel::Contradicts => "CONTRADICTS"@,
        EdgeLabel::ClosesAcceptanceCriterion => "CLOSES_ACCEPTANCE_CRITERION"@,
        EdgeLabel::RevokedBy => "REVOKED_BY"@,
        EdgeLabel::PromptedFor => "PROMPTED_FOR"@,
        EdgeLabel::MaterializedAs => "MATERIALIZED_AS"@,
        EdgeLabel::ExternalHandle => "EXTERNAL_HANDLE"@,
        EdgeLabel::DecidedOn => "DECIDED_ON"@,
        EdgeLabel::ChangedIn => "CHANGED_IN"@,
    }
}

impl EdgeLabel {
    /// The wire name of the label.
    pub fn as_str(self) -> (r: &'static str)
        ensures
            r@ == edge_label_name(self),
    {
        match self {
            EdgeLabel::Contains => "CONTAINS",
            EdgeLabel::Defines => "DEFINES",
            EdgeLabel::Calls => "CALLS",
            EdgeLabel::References => "REFERENCES",
            EdgeLabel::Imports => "IMPORTS",
            EdgeLabel::Implements => "IMPLEMENTS",
            EdgeLabel::Constructs => "CONSTRUCTS",
            EdgeLabel::AuthoredBy => "AUTHORED_BY",
            EdgeLabel::FailedOn => "FAILED_ON",
            EdgeLabel::ExplainsChange => "EXPLAINS_CHANGE",
            EdgeLabel::ValidatedBy => "VALIDATED_BY",
            EdgeLabel::TouchedFile => "TOUCHED_FILE",
            EdgeLabel::TouchesFile => "TOUCHES_FILE",
            EdgeLabel::ProducedPatch => "PRODUCED_PATCH",
            EdgeLabel::MentionsSymbol => "MENTIONS_SYMBOL",
            EdgeLabel::Supersedes => "SUPERSEDES",
            EdgeLabel::SessionOf => "SESSION_OF",
            EdgeLabel::ProducedEvidence => "PRODUCED_EVIDENCE",
            EdgeLabel::Observes => "OBSERVES",
            EdgeLabel::ReferencesTask => "REFERENCES_TASK",
            EdgeLabel::RelatesTo => "RELATES_TO",
            EdgeLabel::HasEvidence => "HAS_EVIDENCE",
            EdgeLabel::OwnedByTask => "OWNED_BY_TASK",
            EdgeLabel::DriftsPrior => "DRIFTS_PRIOR",
            EdgeLabel::DriftsFrom => "DRIFTS_FROM",
            EdgeLabel::Contradicts => "CONTRADICTS",
            EdgeLabel::ClosesAcceptanceCriterion => "CLOSES_ACCEPTANCE_CRITERION",
            EdgeLabel::RevokedBy => "REVOKED_BY",
            EdgeLabel::PromptedFor => "PROMPTED_FOR",
            EdgeLabel::MaterializedAs => "MATERIALIZED_AS",
            EdgeLabel::ExternalHandle => "EXTERNAL_HANDLE",
            EdgeLabel::DecidedOn => "DECIDED_ON",
            EdgeLabel::ChangedIn => "CHANGED_IN",
        }
    }
}

/// Whether the label cites evidence.
pub open spec fn cites_evidence(label: EdgeLabel) -> bool {
    label == EdgeLabel::Observes || label == EdgeLabel::MentionsSymbol || label == EdgeLabel::TouchedFile || label == EdgeLabel::FailedOn || label == EdgeLabel::ExplainsChange || label == EdgeLabel::ValidatedBy || label == EdgeLabel::HasEvidence || label == EdgeLabel::Supersedes || label == EdgeLabel::Contradicts || label == EdgeLabel::ReferencesTask || label == EdgeLabel::RelatesTo || label == EdgeLabel::ProducedPatch || label == EdgeLabel::ProducedEvidence
}

/// Whether the label belongs to the structure of code.
pub open spec fn code_topology(label: EdgeLabel) -> bool {
    label == EdgeLabel::Contains || label == EdgeLabel::Defines || label == EdgeLabel::Calls || label == EdgeLabel::References || label == EdgeLabel::Imports || label == EdgeLabel::Implements || label == EdgeLabel::Constructs || label == EdgeLabel::ChangedIn
}

impl EdgeLabel {
    /// Whether the label cites evidence.
    pub fn is_evidence_link_label(self) -> (r: bool)
        ensures
            r == cites_evidence(self),
    {
        match self {
            EdgeLabel::Observes
            | EdgeLabel::MentionsSymbol
            | EdgeLabel::TouchedFile
            | EdgeLabel::FailedOn
            | EdgeLabel::ExplainsChange
            | EdgeLabel::ValidatedBy
            | EdgeLabel::HasEvidence
            | EdgeLabel::Supersedes
            | EdgeLabel::Contradicts
            | EdgeLabel::ReferencesTask
            | EdgeLabel::RelatesTo
            | EdgeLabel::ProducedPatch
            | EdgeLabel::ProducedEvidence => true,
            _ => false,
        }
    }

    /// Whether the label belongs to the structure of code.
    pub fn is_codegraph_topology_label(self) -> (r: bool)
        ensures
            r == code_topology(self),
    {
        match self {
            EdgeLabel::Contains
            | EdgeLabel::Defines
            | EdgeLabel::Calls
            | EdgeLabel::References
            | EdgeLabel::Imports
            | EdgeLabel::Implements
            | EdgeLabel::Constructs
            | EdgeLabel::ChangedIn => true,
            _ => false,
        }
    }

    /// The label with this wire name.
    pub fn from_relation(relation: &str) -> (r: Option<EdgeLabel>)
        ensures
            r == label_named(relation@),
    {
        if str_eq(relation, "CONTAINS") {
            Some(EdgeLabel::Contains)
        } else if str_eq(relation, "DEFINES") {
            Some(EdgeLabel::Defines)
        } else if str_eq(relation, "CALLS") {
            Some(EdgeLabel::Calls)
        } else if str_eq(relation, "REFERENCES") {
            Some(EdgeLabel::References)
        } else if str_eq(relation, "IMPORTS") {
            Some(EdgeLabel::Imports)
        } else if str_eq(relation, "IMPLEMENTS") {
            Some(EdgeLabel::Implements)
        } else if str_eq(relation, "CONSTRUCTS") {
            Some(EdgeLabel::Constructs)
        } else if str_eq(relation, "AUTHORED_BY") {
            Some(EdgeLabel::AuthoredBy)
        } else if str_eq(relation, "FAILED_ON") {
            Some(EdgeLabel::FailedOn)
        } else if str_eq(relation, "EXPLAINS_CHANGE") {
            Some(EdgeLabel::ExplainsChange)
        } else if str_eq(relation, "VALIDATED_BY") {
            Some(EdgeLabel::ValidatedBy)
        } else if str_eq(relation, "TOUCHED_FILE") {
            Some(EdgeLabel::TouchedFile)
        } else if str_eq(relation, "TOUCHES_FILE") {
            Some(EdgeLabel::TouchesFile)
        } else if str_eq(relation, "PRODUCED_PATCH") {
            Some(EdgeLabel::ProducedPatch)
        } else if str_eq(relation, "MENTIONS_SYMBOL") {
            Some(EdgeLabel::MentionsSymbol)
        } else if str_eq(relation, "SUPERSEDES") {
            Some(EdgeLabel::Supersedes)
        } else if str_eq(relation, "SESSION_OF") {
            Some(EdgeLabel::SessionOf)
        } else if str_eq(relation, "PRODUCED_EVIDENCE") {
            Some(EdgeLabel::ProducedEvidence)
        } else if str_eq(relation, "OBSERVES") {
            Some(EdgeLabel::Observes)
        } else if str_eq(relation, "REFERENCES_TASK") {
            Some(EdgeLabel::ReferencesTask)
        } else if str_eq(relation, "RELATES_TO") {
            Some(EdgeLabel::RelatesTo)
        } else if str_eq(relation, "HAS_EVIDENCE") {
            Some(EdgeLabel::HasEvidence)
        } else if str_eq(relation, "OWNED_BY_TASK") {
            Some(EdgeLabel::OwnedByTask)
        } else if str_eq(relation, "DRIFTS_PRIOR") {
            Some(EdgeLabel::DriftsPrior)
        } else if str_eq(relation, "DRIFTS_FROM") {
            Some(EdgeLabel::DriftsFrom)
        } else if str_eq(relation, "CONTRADICTS") {
            Some(EdgeLabel::Contradicts)
        } else if str_eq(relation, "CLOSES_ACCEPTANCE_CRITERION") {
            Some(EdgeLabel::ClosesAcceptanceCriterion)
        } else if str_eq(relation, "REVOKED_BY") {
            Some(EdgeLabel::RevokedBy)
        } else if str_eq(relation, "PROMPTED_FOR") {
            Some(EdgeLabel::PromptedFor)
        } else if str_eq(relation, "MATERIALIZED_AS") {
            Some(EdgeLabel::MaterializedAs)
        } else if str_eq(relation, "EXTERNAL_HANDLE") {
            Some(EdgeLabel::ExternalHandle)
        } else if str_eq(relation, "DECIDED_ON") {
            Some(EdgeLabel::DecidedOn)
        } else if str_eq(relation, "CHANGED_IN") {
            Some(EdgeLabel::ChangedIn)
        } else {
            None
        }
    }
}

/// The label with this wire name, if there is one.
pub open spec fn label_named(relation: Seq<char>) -> Option<EdgeLabel> {
    if relation == "CONTAINS"@ {
        Some(EdgeLabel::Contains)
    } else if relation == "DEFINES"@ {
        Some(EdgeLabel::Defines)
    } else if relation == "CALLS"@ {
        Some(EdgeLabel::Calls)
    } else if relation == "REFERENCES"@ {
        Some(EdgeLabel::References)
    } else if relation == "IMPORTS"@ {
        Some(EdgeLabel::Imports)
    } else if relation == "IMPLEMENTS"@ {
        Some(EdgeLabel::Implements)
    } else if relation == "CONSTRUCTS"@ {
        Some(EdgeLabel::Constructs)
    } else if relation == "AUTHORED_BY"@ {
        Some(EdgeLabel::AuthoredBy)
    } else if relation == "FAILED_ON"@ {
        Some(EdgeLabel::FailedOn)
    } else if relation == "EXPLAINS_CHANGE"@ {
        Some(EdgeLabel::ExplainsChange)
    } else if relation == "VALIDATED_BY"@ {
        Some(EdgeLabel::ValidatedBy)
    } else if relation == "TOUCHED_FILE"@ {
        Some(EdgeLabel::TouchedFile)
    } else if relation == "TOUCHES_FILE"@ {
        Some(EdgeLabel::TouchesFile)
    } else if relation == "PRODUCED_PATCH"@ {
        Some(EdgeLabel::ProducedPatch)
    } else if relation == "MENTIONS_SYMBOL"@ {
        Some(EdgeLabel::MentionsSymbol)
    } else if relation == "SUPERSEDES"@ {
        Some(EdgeLabel::Supersedes)
    } else if relation == "SESSION_OF"@ {
        Some(EdgeLabel::SessionOf)
    } else if relation == "PRODUCED_EVIDENCE"@ {
        Some(EdgeLabel::ProducedEvidence)
    } else if relation == "OBSERVES"@ {
        Some(EdgeLabel::Observes)
    } else if relation == "REFERENCES_TASK"@ {
        Some(EdgeLabel::ReferencesTask)
    } else if relation == "RELATES_TO"@ {
        Some(EdgeLabel::RelatesTo)
    } else if relation == "HAS_EVIDENCE"@ {
        Some(EdgeLabel::HasEvidence)
    } else if relation == "OWNED_BY_TASK"@ {
        Some(EdgeLabel::OwnedByTask)
    } else if relation == "DRIFTS_PRIOR"@ {
        Some(EdgeLabel::DriftsPrior)
    } else if relation == "DRIFTS_FROM"@ {
        Some(EdgeLabel::DriftsFrom)
    } else if relation == "CONTRADICTS"@ {
        Some(EdgeLabel::Contradicts)
    } else if relation == "CLOSES_ACCEPTANCE_CRITERION"@ {
        Some(EdgeLabel::ClosesAcceptanceCriterion)
    } else if relation == "REVOKED_BY"@ {
        Some(EdgeLabel::RevokedBy)
    } else if relation == "PROMPTED_FOR"@ {
        Some(EdgeLabel::PromptedFor)
    } else if relation == "MATERIALIZED_AS"@ {
        Some(EdgeLabel::MaterializedAs)
    } else if relation == "EXTERNAL_HANDLE"@ {
        Some(EdgeLabel::ExternalHandle)
    } else if relation == "DECIDED_ON"@ {
        Some(EdgeLabel::DecidedOn)
    } else if relation == "CHANGED_IN"@ {
        Some(EdgeLabel::ChangedIn)
    } else {
        None
    }
}

/// A label is found again by its wire name, and nothing else is found under it.
pub proof fn law_label_names_round_trip(label: EdgeLabel)
    ensures
        label_named(edge_label_name(label)) == Some(label),
{
    reveal_strlit("CONTAINS");
    assert("CONTAINS"@.len() == 8);
    reveal_strlit("DEFINES");
    assert("DEFINES"@.len() == 7);
    reveal_strlit("CALLS");
    assert("CALLS"@.len() == 5);
    reveal_strlit("REFERENCES");
    assert("REFERENCES"@.len() == 10);
    reveal_strlit("IMPORTS");
    assert("IMPORTS"@.len() == 7);
    reveal_strlit("IMPLEMENTS");
    assert("IMPLEMENTS"@.len() == 10);
    reveal_strlit("CONSTRUCTS");
    assert("CONSTRUCTS"@.len() == 10);
    reveal_strlit("AUTHORED_BY");
    assert("AUTHORED_BY"@.len() == 11);
    reveal_strlit("FAILED_ON");
    assert("FAILED_ON"@.len() == 9);
    reveal_strlit("EXPLAINS_CHANGE");
    assert("EXPLAINS_CHANGE"@.len() == 15);
    reveal_strlit("VALIDATED_BY");
    assert("VALIDATED_BY"@.len() == 12);
    reveal_strlit("TOUCHED_FILE");
    assert("TOUCHED_FILE"@.len() == 12);
    reveal_strlit("TOUCHES_FILE");
    assert("TOUCHES_FILE"@.len() == 12);
    reveal_strlit("PRODUCED_PATCH");
    assert("PRODUCED_PATCH"@.len() == 14);
    reveal_strlit("MENTIONS_SYMBOL");
    assert("MENTIONS_SYMBOL"@.len() == 15);
    reveal_strlit("SUPERSEDES");
    assert("SUPERSEDES"@.len() == 10);
    reveal_strlit("SESSION_OF");
    assert("SESSION_OF"@.len() == 10);
    reveal_strlit("PRODUCED_EVIDENCE");
    assert("PRODUCED_EVIDENCE"@.len() == 17);
    reveal_strlit("OBSERVES");
    assert("OBSERVES"@.len() == 8);
    reveal_strlit("REFERENCES_TASK");
    assert("REFERENCES_TASK"@.len() == 15);
    reveal_strlit("RELATES_TO");
    assert("RELATES_TO"@.len() == 10);
    reveal_strlit("HAS_EVIDENCE");
    assert("HAS_EVIDENCE"@.len() == 12);
    reveal_strlit("OWNED_BY_TASK");
    assert("OWNED_BY_TASK"@.len() == 13);
    reveal_strlit("DRIFTS_PRIOR");
    assert("DRIFTS_PRIOR"@.len() == 12);
    reveal_strlit("DRIFTS_FROM");
    assert("DRIFTS_FROM"@.len() == 11);
    reveal_strlit("CONTRADICTS");
    assert("CONTRADICTS"@.len() == 11);
    reveal_strlit("CLOSES_ACCEPTANCE_CRITERION");
    assert("CLOSES_ACCEPTANCE_CRITERION"@.len() == 27);
    reveal_strlit("REVOKED_BY");
    assert("REVOKED_BY"@.len() == 10);
    reveal_strlit("PROMPTED_FOR");
    assert("PROMPTED_FOR"@.len() == 12);
    reveal_strlit("MATERIALIZED_AS");
    assert("MATERIALIZED_AS"@.len() == 15);
    reveal_strlit("EXTERNAL_HANDLE");
    assert("EXTERNAL_HANDLE"@.len() == 15);
    reveal_strlit("DECIDED_ON");
    assert("DECIDED_ON"@.len() == 10);
    reveal_strlit("CHANGED_IN");
    assert("CHANGED_IN"@.len() == 10);
    assert("AUTHORED_BY"@[0] == 'A');
    assert("CHANGED_IN"@[0] == 'C');
    assert("CHANGED_IN"@[1] == 'H');
    assert("CONSTRUCTS"@[0] == 'C');
    assert("CONSTRUCTS"@[1] == 'O');
    assert("CONTAINS"@[0] == 'C');
    assert("CONTRADICTS"@[0] == 'C');
    assert("DECIDED_ON"@[0] == 'D');
    assert("DEFINES"@[0] == 'D');
    assert("DRIFTS_FROM"@[0] == 'D');
    assert("DRIFTS_PRIOR"@[0] == 'D');
    assert("EXPLAINS_CHANGE"@[0] == 'E');
    assert("EXPLAINS_CHANGE"@[2] == 'P');
    assert("EXTERNAL_HANDLE"@[0] == 'E');
    assert("EXTERNAL_HANDLE"@[2] == 'T');
    assert("HAS_EVIDENCE"@[0] == 'H');
    assert("IMPLEMENTS"@[0] == 'I');
    assert("IMPORTS"@[0] == 'I');
    assert("MATERIALIZED_AS"@[0] == 'M');
    assert("MATERIALIZED_AS"@[1] == 'A');
    assert("MENTIONS_SYMBOL"@[0] == 'M');
    assert("MENTIONS_SYMBOL"@[1] == 'E');
    assert("OBSERVES"@[0] == 'O');
    assert("PROMPTED_FOR"@[0] == 'P');
    assert("REFERENCES"@[0] == 'R');
    assert("REFERENCES"@[2] == 'F');
    assert("REFERENCES_TASK"@[0] == 'R');
    assert("RELATES_TO"@[0] == 'R');
    assert("RELATES_TO"@[2] == 'L');
    assert("REVOKED_BY"@[0] == 'R');
    assert("REVOKED_BY"@[2] == 'V');
    assert("SESSION_OF"@[0] == 'S');
    assert("SESSION_OF"@[1] == 'E');
    assert("SUPERSEDES"@[0] == 'S');
    assert("SUPERSEDES"@[1] == 'U');
    assert("TOUCHED_FILE"@[0] == 'T');
    assert("TOUCHED_FILE"@[6] == 'D');
    assert("TOUCHES_FILE"@[0] == 'T');
    assert("TOUCHES_FILE"@[6] == 'S');
    assert("VALIDATED_BY"@[0] == 'V');
}

/// A region of a source file.
#[derive(Clone, Copy, Debug, PartialEq, Eq, PartialOrd, Ord, Hash, Structural)]
pub struct SourceSpan {
    pub start_byte: u64,
    pub end_byte: u64,
    pub start_line: u64,
    pub end_line: u64,
}

/// Whether a file could be attributed to a package.
#[derive(Clone, Copy, Debug, PartialEq, Eq, PartialOrd, Ord, Structural)]
pub enum CrateAttributionStatus {
    Attributed,
    Unattributed,
}

/// Why a file could not be attributed to a package.
#[derive(Clone, Copy, Debug, PartialEq, Eq, PartialOrd, Ord, Structural)]
pub enum CrateAttributionReason {
    /// No enclosing directory holds a manifest.
    NoEnclosingManifest,
    /// Only virtual manifests enclose the file.
    VirtualManifestOnly,
    /// The nearest manifest declares a package without a usable name.
    UnnamedPackage,
    /// The nearest manifest is not valid TOML.
    UnparseableManifest,
    /// The nearest manifest could not be read.
    ManifestUnreadable,
}

/// Whether two optional strings are the same.
pub fn opt_same(a: &Option<String>, b: &Option<String>) -> (r: bool)
    ensures
        r == (opt_view(*a) == opt_view(*b)),
{
    match (a, b) {
        (Some(x), Some(y)) => str_eq(x.as_str(), y.as_str()),
        (None, None) => true,
        _ => false,
    }
}

/// Whether two lists hold the same strings.
pub fn same_strings(a: &Vec<String>, b: &Vec<String>) -> (r: bool)
    ensures
        r == (crate::text::views(a@) == crate::text::views(b@)),
{
    let ghost x = crate::text::views(a@);
    let ghost y = crate::text::views(b@);
    assert(x.len() == a@.len() && y.len() == b@.len());
    if a.len() != b.len() {
        return false;
    }
    let mut i: usize = 0;
    while i < a.len()
        invariant
            i <= a@.len(),
            a@.len() == b@.len(),
            x == crate::text::views(a@),
            y == crate::text::views(b@),
            forall|k: int| 0 <= k < i ==> x[k] == y[k],
        decreases a@.len() - i,
    {
        assert(x[i as int] == a@[i as int]@ && y[i as int] == b@[i as int]@);
        if !str_eq(a[i].as_str(), b[i].as_str()) {
            return false;
        }
        i = i + 1;
    }
    assert(x =~= y);
    true
}

/// Whether two optional lists hold the same strings.
pub fn opt_same_strings(a: &Option<Vec<String>>, b: &Option<Vec<String>>) -> (r: bool)
    ensures
        r == (opt_views(*a) == opt_views(*b)),
{
    match (a, b) {
        (Some(x), Some(y)) => same_strings(x, y),
        (None, None) => true,
        _ => false,
    }
}

/// The view of an optional list of strings.
pub open spec fn opt_views(o: Option<Vec<String>>) -> Option<Seq<Seq<char>>> {
    match o {
        Some(v) => Some(crate::text::views(v@)),
        None => None,
    }
}

/// Which package owns a file, or why none does.
#[derive(Clone, Debug, PartialEq, Eq)]
pub struct CrateAttribution {
    pub status: CrateAttributionStatus,
    pub package_name: Option<String>,
    pub manifest_repo_relative_path: Option<String>,
    pub unattributed_reason: Option<CrateAttributionReason>,
}

/// The view of a [`CrateAttribution`].
#[verifier::ext_equal]
pub struct CrateAttributionView {
    pub status: CrateAttributionStatus,
    pub package_name: Option<Seq<char>>,
    pub manifest_repo_relative_path: Option<Seq<char>>,
    pub unattributed_reason: Option<CrateAttributionReason>,
}

impl View for CrateAttribution {
    type V = CrateAttributionView;

    open spec fn view(&self) -> CrateAttributionView {
        CrateAttributionView {
            status: self.status,
            package_name: opt_view(self.package_name),
            manifest_repo_relative_path: opt_view(self.manifest_repo_relative_path),
            unattributed_reason: self.unattributed_reason,
        }
    }
}

impl CrateAttribution {
    /// A copy with the same view.
    pub fn copy(&self) -> (r: CrateAttribution)
        ensures
            r@ == self@,
    {
        CrateAttribution {
            status: self.status,
            package_name: crate::text::opt_clone(&self.package_name),
            manifest_repo_relative_path: crate::text::opt_clone(&self.manifest_repo_relative_path),
            unattributed_reason: self.unattributed_reason,
        }
    }

    /// Whether the views are the same.
    pub fn same(&self, other: &CrateAttribution) -> (r: bool)
        ensures
            r == (self@ == other@),
    {
        if !(self.status == other.status) {
            return false;
        }
        if !(opt_same(&self.package_name, &other.package_name)) {
            return false;
        }
        if !(opt_same(&self.manifest_repo_relative_path, &other.manifest_repo_relative_path)) {
            return false;
        }
        match (&self.unattributed_reason, &other.unattributed_reason) {
            (Some(x), Some(y)) => {
                if !(*x == *y) {
                    return false;
                }
            },
            (None, None) => {},
            _ => {
                return false;
            },
        }
        true
    }
}

/// The commit that a record version belongs to.
#[derive(Clone, Debug, PartialEq, Eq)]
pub struct TemporalMetadata {
    pub git_commit: String,
    pub git_parent_commits: Vec<String>,
    pub valid_time: String,
    pub observed_at: String,
    pub author_time: Option<String>,
    pub valid_time_source: Option<String>,
}

/// The view of a [`TemporalMetadata`].
#[verifier::ext_equal]
pub struct TemporalView {
    pub git_commit: Seq<char>,
    pub git_parent_commits: Seq<Seq<char>>,
    pub valid_time: Seq<char>,
    pub observed_at: Seq<char>,
    pub author_time: Option<Seq<char>>,
    pub valid_time_source: Option<Seq<char>>,
}

impl View for TemporalMetadata {
    type V = TemporalView;

    open spec fn view(&self) -> TemporalView {
        TemporalView {
            git_commit: self.git_commit@,
            git_parent_commits: crate::text::views(self.git_parent_commits@),
            valid_time: self.valid_time@,
            observed_at: self.observed_at@,
            author_time: opt_view(self.author_time),
            valid_time_source: opt_view(self.valid_time_source),
        }
    }
}

impl TemporalMetadata {
    /// A copy with the same view.
    pub fn copy(&self) -> (r: TemporalMetadata)
        ensures
            r@ == self@,
    {
        TemporalMetadata {
            git_commit: self.git_commit.clone(),
            git_parent_commits: crate::text::copy_strings(&self.git_parent_commits),
            valid_time: self.valid_time.clone(),
            observed_at: self.observed_at.clone(),
            author_time: crate::text::opt_clone(&self.author_time),
            valid_time_source: crate::text::opt_clone(&self.valid_time_source),
        }
    }

    /// Whether the views are the same.
    pub fn same(&self, other: &TemporalMetadata) -> (r: bool)
        ensures
            r == (self@ == other@),
    {
        if !(str_eq(self.git_commit.as_str(), other.git_commit.as_str())) {
            return false;
        }
        if !(same_strings(&self.git_parent_commits, &other.git_parent_commits)) {
            return false;
        }
        if !(str_eq(self.valid_time.as_str(), other.valid_time.as_str())) {
            return false;
        }
        if !(str_eq(self.observed_at.as_str(), other.observed_at.as_str())) {
            return false;
        }
        if !(opt_same(&self.author_time, &other.author_time)) {
            return false;
        }
        if !(opt_same(&self.valid_time_source, &other.valid_time_source)) {
            return false;
        }
        true
    }
}

/// The model that made vectors.
#[derive(Clone, Debug, PartialEq, Eq)]
pub struct EmbeddingModel {
    pub provider: String,
    pub name: String,
    pub version: String,
    pub dim: u32,
    pub content_hash: String,
}

/// The view of an [`EmbeddingModel`].
#[verifier::ext_equal]
pub struct EmbeddingModelView {
    pub provider: Seq<char>,
    pub name: Seq<char>,
    pub version: Seq<char>,
    pub dim: u32,
    pub content_hash: Seq<char>,
}

impl View for EmbeddingModel {
    type V = EmbeddingModelView;

    open spec fn view(&self) -> EmbeddingModelView {
        EmbeddingModelView {
            provider: self.provider@,
            name: self.name@,
            version: self.version@,
            dim: self.dim,
            content_hash: self.content_hash@,
        }
    }
}

impl EmbeddingModel {
    /// A copy with the same view.
    pub fn copy(&self) -> (r: EmbeddingModel)
        ensures
            r@ == self@,
    {
        EmbeddingModel {
            provider: self.provider.clone(),
            name: self.name.clone(),
            version: self.version.clone(),
            dim: self.dim,
            content_hash: self.content_hash.clone(),
        }
    }

    /// Whether the views are the same.
    pub fn same(&self, other: &EmbeddingModel) -> (r: bool)
        ensures
            r == (self@ == other@),
    {
        if !(str_eq(self.provider.as_str(), other.provider.as_str())) {
            return false;
        }
        if !(str_eq(self.name.as_str(), other.name.as_str())) {
            return false;
        }
        if !(str_eq(self.version.as_str(), other.version.as_str())) {
            return false;
        }
        if !(self.dim == other.dim) {
            return false;
        }
        if !(str_eq(self.content_hash.as_str(), other.content_hash.as_str())) {
            return false;
        }
        true
    }
}

/// How the distance of two vectors is measured.
#[derive(Clone, Copy, Debug, PartialEq, Eq, Structural)]
pub enum MetricKind {
    /// One less the cosine of the angle.
    CosineDistance,
}

impl MetricKind {
    /// The wire name of the measure.
    pub fn as_str(self) -> (r: &'static str)
        ensures
            r@ == metric_name(self),
    {
        match self {
            MetricKind::CosineDistance => "cosine_distance",
        }
    }
}

/// The wire name of a measure.
pub open spec fn metric_name(m: MetricKind) -> Seq<char> {
    match m {
        MetricKind::CosineDistance => "cosine_distance"@,
    }
}

/// Why a measurement was kept.
#[derive(Clone, Copy, Debug, PartialEq, Eq, Structural)]
pub enum SelectionBasis {
    /// Its score reached the threshold.
    ThresholdOnly,
}

/// What a drift measurement compares, and what it found. The score and the threshold
/// are held as they are written.
#[derive(Clone, Debug, PartialEq, Eq)]
pub struct SemanticDriftMetadata {
    pub embedding_model: EmbeddingModel,
    pub target_record_id: String,
    pub prior_record_id: String,
    pub before_git_commit: String,
    pub after_git_commit: String,
    pub before_valid_time: String,
    pub after_valid_time: String,
    pub metric_kind: MetricKind,
    pub score: String,
    pub selection_threshold: String,
    pub selection_basis: SelectionBasis,
}

/// The view of a [`SemanticDriftMetadata`].
#[verifier::ext_equal]
pub struct SemanticDriftView {
    pub embedding_model: EmbeddingModelView,
    pub target_record_id: Seq<char>,
    pub prior_record_id: Seq<char>,
    pub before_git_commit: Seq<char>,
    pub after_git_commit: Seq<char>,
    pub before_valid_time: Seq<char>,
    pub after_valid_time: Seq<char>,
    pub metric_kind: MetricKind,
    pub score: Seq<char>,
    pub selection_threshold: Seq<char>,
    pub selection_basis: SelectionBasis,
}

impl View for SemanticDriftMetadata {
    type V = SemanticDriftView;

    open spec fn view(&self) -> SemanticDriftView {
        SemanticDriftView {
            embedding_model: self.embedding_model@,
            target_record_id: self.target_record_id@,
            prior_record_id: self.prior_record_id@,
            before_git_commit: self.before_git_commit@,
            after_git_commit: self.after_git_commit@,
            before_valid_time: self.before_valid_time@,
            after_valid_time: self.after_valid_time@,
            metric_kind: self.metric_kind,
            score: self.score@,
            selection_threshold: self.selection_threshold@,
            selection_basis: self.selection_basis,
        }
    }
}

impl SemanticDriftMetadata {
    /// A copy with the same view.
    pub fn copy(&self) -> (r: SemanticDriftMetadata)
        ensures
            r@ == self@,
    {
        SemanticDriftMetadata {
            embedding_model: self.embedding_model.copy(),
            target_record_id: self.target_record_id.clone(),
            prior_record_id: self.prior_record_id.clone(),
            before_git_commit: self.before_git_commit.clone(),
            after_git_commit: self.after_git_commit.clone(),
            before_valid_time: self.before_valid_time.clone(),
            after_valid_time: self.after_valid_time.clone(),
            metric_kind: self.metric_kind,
            score: self.score.clone(),
            selection_threshold: self.selection_threshold.clone(),
            selection_basis: self.selection_basis,
        }
    }

    /// Whether the views are the same.
    pub fn same(&self, other: &SemanticDriftMetadata) -> (r: bool)
        ensures
            r == (self@ == other@),
    {
        if !(self.embedding_model.same(&other.embedding_model)) {
            return false;
        }
        if !(str_eq(self.target_record_id.as_str(), other.target_record_id.as_str())) {
            return false;
        }
        if !(str_eq(self.prior_record_id.as_str(), other.prior_record_id.as_str())) {
            return false;
        }
        if !(str_eq(self.before_git_commit.as_str(), other.before_git_commit.as_str())) {
            return false;
        }
        if !(str_eq(self.after_git_commit.as_str(), other.after_git_commit.as_str())) {
            return false;
        }
        if !(str_eq(self.before_valid_time.as_str(), other.before_valid_time.as_str())) {
            return false;
        }
        if !(str_eq(self.after_valid_time.as_str(), other.after_valid_time.as_str())) {
            return false;
        }
        if !(self.metric_kind == other.metric_kind) {
            return false;
        }
        if !(str_eq(self.score.as_str(), other.score.as_str())) {
            return false;
        }
        if !(str_eq(self.selection_threshold.as_str(), other.selection_threshold.as_str())) {
            return false;
        }
        if !(self.selection_basis == other.selection_basis) {
            return false;
        }
        true
    }
}

/// A citation carried by a record.
#[derive(Clone, Debug, PartialEq, Eq)]
pub struct EvidenceLink {
    pub target_record_id: Option<String>,
    pub target_domain: String,
    pub relation: String,
    pub confidence: String,
    pub as_of_commit: Option<String>,
    pub target_repo_relative_path: Option<String>,
    pub target_span: Option<SourceSpan>,
    pub target_git_commit: Option<String>,
}

/// The view of an [`EvidenceLink`].
#[verifier::ext_equal]
pub struct EvidenceLinkView {
    pub target_record_id: Option<Seq<char>>,
    pub target_domain: Seq<char>,
    pub relation: Seq<char>,
    pub confidence: Seq<char>,
    pub as_of_commit: Option<Seq<char>>,
    pub target_repo_relative_path: Option<Seq<char>>,
    pub target_span: Option<SourceSpan>,
    pub target_git_commit: Option<Seq<char>>,
}

impl View for EvidenceLink {
    type V = EvidenceLinkView;

    open spec fn view(&self) -> EvidenceLinkView {
        EvidenceLinkView {
            target_record_id: opt_view(self.target_record_id),
            target_domain: self.target_domain@,
            relation: self.relation@,
            confidence: self.confidence@,
            as_of_commit: opt_view(self.as_of_commit),
            target_repo_relative_path: opt_view(self.target_repo_relative_path),
            target_span: self.target_span,
            target_git_commit: opt_view(self.target_git_commit),
        }
    }
}

impl EvidenceLink {
    /// A copy with the same view.
    pub fn copy(&self) -> (r: EvidenceLink)
        ensures
            r@ == self@,
    {
        EvidenceLink {
            target_record_id: crate::text::opt_clone(&self.target_record_id),
            target_domain: self.target_domain.clone(),
            relation: self.relation.clone(),
            confidence: self.confidence.clone(),
            as_of_commit: crate::text::opt_clone(&self.as_of_commit),
            target_repo_relative_path: crate::text::opt_clone(&self.target_repo_relative_path),
            target_span: self.target_span,
            target_git_commit: crate::text::opt_clone(&self.target_git_commit),
        }
    }

    /// Whether the views are the same.
    pub fn same(&self, other: &EvidenceLink) -> (r: bool)
        ensures
            r == (self@ == other@),
    {
        if !(opt_same(&self.target_record_id, &other.target_record_id)) {
            return false;
        }
        if !(str_eq(self.target_domain.as_str(), other.target_domain.as_str())) {
            return false;
        }
        if !(str_eq(self.relation.as_str(), other.relation.as_str())) {
            return false;
        }
        if !(str_eq(self.confidence.as_str(), other.confidence.as_str())) {
            return false;
        }
        if !(opt_same(&self.as_of_commit, &other.as_of_commit)) {
            return false;
        }
        if !(opt_same(&self.target_repo_relative_path, &other.target_repo_relative_path)) {
            return false;
        }
        match (&self.target_span, &other.target_span) {
            (Some(x), Some(y)) => {
                if !(*x == *y) {
                    return false;
                }
            },
            (None, None) => {},
            _ => {
                return false;
            },
        }
        if !(opt_same(&self.target_git_commit, &other.target_git_commit)) {
            return false;
        }
        true
    }
}

/// A copy of a list, with the same views.
pub fn copy_evidence_links(v: &Vec<EvidenceLink>) -> (r: Vec<EvidenceLink>)
    ensures
        r@.map_values(|x: EvidenceLink| x@) == v@.map_values(|x: EvidenceLink| x@),
        r@.len() == v@.len(),
{
    let mut r: Vec<EvidenceLink> = Vec::new();
    let mut i: usize = 0;
    while i < v.len()
        invariant
            i <= v@.len(),
            r@.len() == i,
            forall|k: int| 0 <= k < i ==> (#[trigger] r@[k])@ == v@[k]@,
        decreases v@.len() - i,
    {
        r.push(v[i].copy());
        i = i + 1;
    }
    assert(r@.map_values(|x: EvidenceLink| x@) =~= v@.map_values(|x: EvidenceLink| x@));
    r
}

/// Whether two optional lists have the same views.
pub fn opt_same_evidence_links(a: &Option<Vec<EvidenceLink>>, b: &Option<Vec<EvidenceLink>>) -> (r: bool)
    ensures
        r == ((match *a {
            Some(x) => Some(x@.map_values(|y: EvidenceLink| y@)),
            None => None,
        }) == (match *b {
            Some(x) => Some(x@.map_values(|y: EvidenceLink| y@)),
            None => None,
        })),
{
    match (a, b) {
        (Some(x), Some(y)) => {
            let ghost xs = x@.map_values(|z: EvidenceLink| z@);
            let ghost ys = y@.map_values(|z: EvidenceLink| z@);
            assert(xs.len() == x@.len() && ys.len() == y@.len());
            if x.len() != y.len() {
                return false;
            }
            let mut i: usize = 0;
            while i < x.len()
                invariant
                    i <= x@.len(),
                    x@.len() == y@.len(),
                    *a == Some(*x),
                    *b == Some(*y),
                    xs == x@.map_values(|z: EvidenceLink| z@),
                    ys == y@.map_values(|z: EvidenceLink| z@),
                    forall|k: int| 0 <= k < i ==> xs[k] == ys[k],
                decreases x@.len() - i,
            {
                assert(xs[i as int] == x@[i as int]@ && ys[i as int] == y@[i as int]@);
                if !x[i].same(&y[i]) {
                    return false;
                }
                i = i + 1;
            }
            assert(xs =~= ys);
            true
        },
        (None, None) => true,
        _ => false,
    }
}

/// Captured output, in line when it is short.
#[derive(Clone, Debug, PartialEq, Eq)]
pub struct OutputHandle {
    pub inline: Option<String>,
    pub hash: String,
    pub bytes: u64,
}

/// The view of an [`OutputHandle`].
#[verifier::ext_equal]
pub struct OutputHandleView {
    pub inline: Option<Seq<char>>,
    pub hash: Seq<char>,
    pub bytes: u64,
}

impl View for OutputHandle {
    type V = OutputHandleView;

    open spec fn view(&self) -> OutputHandleView {
        OutputHandleView {
            inline: opt_view(self.inline),
            hash: self.hash@,
            bytes: self.bytes,
        }
    }
}

impl OutputHandle {
    /// A copy with the same view.
    pub fn copy(&self) -> (r: OutputHandle)
        ensures
            r@ == self@,
    {
        OutputHandle {
            inline: crate::text::opt_clone(&self.inline),
            hash: self.hash.clone(),
            bytes: self.bytes,
        }
    }

    /// Whether the views are the same.
    pub fn same(&self, other: &OutputHandle) -> (r: bool)
        ensures
            r == (self@ == other@),
    {
        if !(opt_same(&self.inline, &other.inline)) {
            return false;
        }
        if !(str_eq(self.hash.as_str(), other.hash.as_str())) {
            return false;
        }
        if !(self.bytes == other.bytes) {
            return false;
        }
        true
    }
}

/// Where the bytes of a patch are kept, in line when they are few.
#[derive(Clone, Debug, PartialEq, Eq)]
pub struct PatchHandle {
    pub path: String,
    pub inline: Option<String>,
}

/// The view of a [`PatchHandle`].
#[verifier::ext_equal]
pub struct PatchHandleView {
    pub path: Seq<char>,
    pub inline: Option<Seq<char>>,
}

impl View for PatchHandle {
    type V = PatchHandleView;

    open spec fn view(&self) -> PatchHandleView {
        PatchHandleView {
            path: self.path@,
            inline: opt_view(self.inline),
        }
    }
}

impl PatchHandle {
    /// A copy with the same view.
    pub fn copy(&self) -> (r: PatchHandle)
        ensures
            r@ == self@,
    {
        PatchHandle {
            path: self.path.clone(),
            inline: crate::text::opt_clone(&self.inline),
        }
    }

    /// Whether the views are the same.
    pub fn same(&self, other: &PatchHandle) -> (r: bool)
        ensures
            r == (self@ == other@),
    {
        if !(str_eq(self.path.as_str(), other.path.as_str())) {
            return false;
        }
        if !(opt_same(&self.inline, &other.inline)) {
            return false;
        }
        true
    }
}

/// What the identity of a repository rests on.
#[derive(Clone, Copy, Debug, PartialEq, Eq, Structural)]
pub enum IdentitySource {
    /// A remote.
    Remote,
    /// The root commit.
    LocalRootCommit,
    /// A path on this machine.
    LocalPath,
    /// An identity that the operator set.
    OperatorOverride,
}

/// The declared identity of a repository.
#[derive(Clone, Debug, PartialEq, Eq)]
pub struct RepositoryIdentityPayload {
    pub identity_source: IdentitySource,
    pub remote_url: Option<String>,
    pub root_commit_sha: Option<String>,
}

/// The view of a [`RepositoryIdentityPayload`].
#[verifier::ext_equal]
pub struct RepositoryIdentityView {
    pub identity_source: IdentitySource,
    pub remote_url: Option<Seq<char>>,
    pub root_commit_sha: Option<Seq<char>>,
}

impl View for RepositoryIdentityPayload {
    type V = RepositoryIdentityView;

    open spec fn view(&self) -> RepositoryIdentityView {
        RepositoryIdentityView {
            identity_source: self.identity_source,
            remote_url: opt_view(self.remote_url),
            root_commit_sha: opt_view(self.root_commit_sha),
        }
    }
}

impl RepositoryIdentityPayload {
    /// A copy with the same view.
    pub fn copy(&self) -> (r: RepositoryIdentityPayload)
        ensures
            r@ == self@,
    {
        RepositoryIdentityPayload {
            identity_source: self.identity_source,
            remote_url: crate::text::opt_clone(&self.remote_url),
            root_commit_sha: crate::text::opt_clone(&self.root_commit_sha),
        }
    }

    /// Whether the views are the same.
    pub fn same(&self, other: &RepositoryIdentityPayload) -> (r: bool)
        ensures
            r == (self@ == other@),
    {
        if !(self.identity_source == other.identity_source) {
            return false;
        }
        if !(opt_same(&self.remote_url, &other.remote_url)) {
            return false;
        }
        if !(opt_same(&self.root_commit_sha, &other.root_commit_sha)) {
            return false;
        }
        true
    }
}

/// Where a user-context rule applies.
#[derive(Clone, Debug, PartialEq, Eq)]
pub struct UserContextScope {
    pub repo: Option<String>,
    pub path_glob: Option<String>,
    pub language: Option<String>,
    pub lifecycle_phase: Option<String>,
}

/// The view of a [`UserContextScope`].
#[verifier::ext_equal]
pub struct UserContextScopeView {
    pub repo: Option<Seq<char>>,
    pub path_glob: Option<Seq<char>>,
    pub language: Option<Seq<char>>,
    pub lifecycle_phase: Option<Seq<char>>,
}

impl View for UserContextScope {
    type V = UserContextScopeView;

    open spec fn view(&self) -> UserContextScopeView {
        UserContextScopeView {
            repo: opt_view(self.repo),
            path_glob: opt_view(self.path_glob),
            language: opt_view(self.language),
            lifecycle_phase: opt_view(self.lifecycle_phase),
        }
    }
}

impl UserContextScope {
    /// A copy with the same view.
    pub fn copy(&self) -> (r: UserContextScope)
        ensures
            r@ == self@,
    {
        UserContextScope {
            repo: crate::text::opt_clone(&self.repo),
            path_glob: crate::text::opt_clone(&self.path_glob),
            language: crate::text::opt_clone(&self.language),
            lifecycle_phase: crate::text::opt_clone(&self.lifecycle_phase),
        }
    }

    /// Whether the views are the same.
    pub fn same(&self, other: &UserContextScope) -> (r: bool)
        ensures
            r == (self@ == other@),
    {
        if !(opt_same(&self.repo, &other.repo)) {
            return false;
        }
        if !(opt_same(&self.path_glob, &other.path_glob)) {
            return false;
        }
        if !(opt_same(&self.language, &other.language)) {
            return false;
        }
        if !(opt_same(&self.lifecycle_phase, &other.lifecycle_phase)) {
            return false;
        }
        true
    }
}

/// The fields of user-context records.
#[derive(Clone, Debug, PartialEq, Eq)]
pub struct UserContextFields {
    pub candidate_id: Option<String>,
    pub prompt_surface: Option<String>,
    pub prompt_text: Option<String>,
    pub prompted_at: Option<String>,
    pub prompted_to: Option<String>,
    pub prompt_id: Option<String>,
    pub outcome: Option<String>,
    pub decided_at: Option<String>,
    pub decided_by: Option<String>,
    pub decision_rationale: Option<String>,
    pub edited_rule_text: Option<String>,
    pub materialized_record_id: Option<String>,
    pub proposed_rule_kind: Option<String>,
    pub proposed_rule_text: Option<String>,
    pub scope: Option<UserContextScope>,
    pub approval_decision_id: Option<String>,
    pub active_from: Option<String>,
    pub active_to: Option<String>,
    pub rule_text: Option<String>,
    pub triggers: Option<Vec<String>>,
    pub action_summary: Option<String>,
    pub entity_kind: Option<String>,
    pub canonical_name: Option<String>,
    pub alternatives_rejected: Option<Vec<String>>,
    pub constraint_text: Option<String>,
    pub enforcement_level: Option<String>,
    pub supporting_evidence: Option<Vec<EvidenceLink>>,
    pub contradicting_evidence: Option<Vec<EvidenceLink>>,
}

/// The view of a [`UserContextFields`].
#[verifier::ext_equal]
pub struct UserContextView {
    pub candidate_id: Option<Seq<char>>,
    pub prompt_surface: Option<Seq<char>>,
    pub prompt_text: Option<Seq<char>>,
    pub prompted_at: Option<Seq<char>>,
    pub prompted_to: Option<Seq<char>>,
    pub prompt_id: Option<Seq<char>>,
    pub outcome: Option<Seq<char>>,
    pub decided_at: Option<Seq<char>>,
    pub decided_by: Option<Seq<char>>,
    pub decision_rationale: Option<Seq<char>>,
    pub edited_rule_text: Option<Seq<char>>,
    pub materialized_record_id: Option<Seq<char>>,
    pub proposed_rule_kind: Option<Seq<char>>,
    pub proposed_rule_text: Option<Seq<char>>,
    pub scope: Option<UserContextScopeView>,
    pub approval_decision_id: Option<Seq<char>>,
    pub active_from: Option<Seq<char>>,
    pub active_to: Option<Seq<char>>,
    pub rule_text: Option<Seq<char>>,
    pub triggers: Option<Seq<Seq<char>>>,
    pub action_summary: Option<Seq<char>>,
    pub entity_kind: Option<Seq<char>>,
    pub canonical_name: Option<Seq<char>>,
    pub alternatives_rejected: Option<Seq<Seq<char>>>,
    pub constraint_text: Option<Seq<char>>,
    pub enforcement_level: Option<Seq<char>>,
    pub supporting_evidence: Option<Seq<EvidenceLinkView>>,
    pub contradicting_evidence: Option<Seq<EvidenceLinkView>>,
}

impl View for UserContextFields {
    type V = UserContextView;

    open spec fn view(&self) -> UserContextView {
        UserContextView {
            candidate_id: opt_view(self.candidate_id),
            prompt_surface: opt_view(self.prompt_surface),
            prompt_text: opt_view(self.prompt_text),
            prompted_at: opt_view(self.prompted_at),
            prompted_to: opt_view(self.prompted_to),
            prompt_id: opt_view(self.prompt_id),
            outcome: opt_view(self.outcome),
            decided_at: opt_view(self.decided_at),
            decided_by: opt_view(self.decided_by),
            decision_rationale: opt_view(self.decision_rationale),
            edited_rule_text: opt_view(self.edited_rule_text),
            materialized_record_id: opt_view(self.materialized_record_id),
            proposed_rule_kind: opt_view(self.proposed_rule_kind),
            proposed_rule_text: opt_view(self.proposed_rule_text),
            scope: match self.scope {
                Some(x) => Some(x@),
                None => None,
            },
            approval_decision_id: opt_view(self.approval_decision_id),
            active_from: opt_view(self.active_from),
            active_to: opt_view(self.active_to),
            rule_text: opt_view(self.rule_text),
            triggers: opt_views(self.triggers),
            action_summary: opt_view(self.action_summary),
            entity_kind: opt_view(self.entity_kind),
            canonical_name: opt_view(self.canonical_name),
            alternatives_rejected: opt_views(self.alternatives_rejected),
            constraint_text: opt_view(self.constraint_text),
            enforcement_level: opt_view(self.enforcement_level),
            supporting_evidence: match self.supporting_evidence {
                Some(x) => Some(x@.map_values(|y: EvidenceLink| y@)),
                None => None,
            },
            contradicting_evidence: match self.contradicting_evidence {
                Some(x) => Some(x@.map_values(|y: EvidenceLink| y@)),
                None => None,
            },
        }
    }
}

impl UserContextFields {
    /// A copy with the same view.
    pub fn copy(&self) -> (r: UserContextFields)
        ensures
            r@ == self@,
    {
        UserContextFields {
            candidate_id: crate::text::opt_clone(&self.candidate_id),
            prompt_surface: crate::text::opt_clone(&self.prompt_surface),
            prompt_text: crate::text::opt_clone(&self.prompt_text),
            prompted_at: crate::text::opt_clone(&self.prompted_at),
            prompted_to: crate::text::opt_clone(&self.prompted_to),
            prompt_id: crate::text::opt_clone(&self.prompt_id),
            outcome: crate::text::opt_clone(&self.outcome),
            decided_at: crate::text::opt_clone(&self.decided_at),
            decided_by: crate::text::opt_clone(&self.decided_by),
            decision_rationale: crate::text::opt_clone(&self.decision_rationale),
            edited_rule_text: crate::text::opt_clone(&self.edited_rule_text),
            materialized_record_id: crate::text::opt_clone(&self.materialized_record_id),
            proposed_rule_kind: crate::text::opt_clone(&self.proposed_rule_kind),
            proposed_rule_text: crate::text::opt_clone(&self.proposed_rule_text),
            scope: match &self.scope {
                Some(x) => Some(x.copy()),
                None => None,
            },
            approval_decision_id: crate::text::opt_clone(&self.approval_decision_id),
            active_from: crate::text::opt_clone(&self.active_from),
            active_to: crate::text::opt_clone(&self.active_to),
            rule_text: crate::text::opt_clone(&self.rule_text),
            triggers: crate::text::opt_copy_strings(&self.triggers),
            action_summary: crate::text::opt_clone(&self.action_summary),
            entity_kind: crate::text::opt_clone(&self.entity_kind),
            canonical_name: crate::text::opt_clone(&self.canonical_name),
            alternatives_rejected: crate::text::opt_copy_strings(&self.alternatives_rejected),
            constraint_text: crate::text::opt_clone(&self.constraint_text),
            enforcement_level: crate::text::opt_clone(&self.enforcement_level),
            supporting_evidence: match &self.supporting_evidence {
                Some(x) => Some(copy_evidence_links(x)),
                None => None,
            },
            contradicting_evidence: match &self.contradicting_evidence {
                Some(x) => Some(copy_evidence_links(x)),
                None => None,
            },
        }
    }

    fn same_0(&self, other: &UserContextFields) -> (r: bool)
        ensures
            r == (self@.candidate_id == other@.candidate_id && self@.prompt_surface == other@.prompt_surface && self@.prompt_text == other@.prompt_text && self@.prompted_at == other@.prompted_at && self@.prompted_to == other@.prompted_to && self@.prompt_id == other@.prompt_id && self@.outcome == other@.outcome && self@.decided_at == other@.decided_at && self@.decided_by == other@.decided_by && self@.decision_rationale == other@.decision_rationale),
    {
        if !(opt_same(&self.candidate_id, &other.candidate_id)) {
            return false;
        }
        if !(opt_same(&self.prompt_surface, &other.prompt_surface)) {
            return false;
        }
        if !(opt_same(&self.prompt_text, &other.prompt_text)) {
            return false;
        }
        if !(opt_same(&self.prompted_at, &other.prompted_at)) {
            return false;
        }
        if !(opt_same(&self.prompted_to, &other.prompted_to)) {
            return false;
        }
        if !(opt_same(&self.prompt_id, &other.prompt_id)) {
            return false;
        }
        if !(opt_same(&self.outcome, &other.outcome)) {
            return false;
        }
        if !(opt_same(&self.decided_at, &other.decided_at)) {
            return false;
        }
        if !(opt_same(&self.decided_by, &other.decided_by)) {
            return false;
        }
        if !(opt_same(&self.decision_rationale, &other.decision_rationale)) {
            return false;
        }
        true
    }

    fn same_1(&self, other: &UserContextFields) -> (r: bool)
        ensures
            r == (self@.edited_rule_text == other@.edited_rule_text && self@.materialized_record_id == other@.materialized_record_id && self@.proposed_rule_kind == other@.proposed_rule_kind && self@.proposed_rule_text == other@.proposed_rule_text && self@.scope == other@.scope && self@.approval_decision_id == other@.approval_decision_id && self@.active_from == other@.active_from && self@.active_to == other@.active_to && self@.rule_text == other@.rule_text && self@.triggers == other@.triggers),
    {
        if !(opt_same(&self.edited_rule_text, &other.edited_rule_text)) {
            return false;
        }
        if !(opt_same(&self.materialized_record_id, &other.materialized_record_id)) {
            return false;
        }
        if !(opt_same(&self.proposed_rule_kind, &other.proposed_rule_kind)) {
            return false;
        }
        if !(opt_same(&self.proposed_rule_text, &other.proposed_rule_text)) {
            return false;
        }
        match (&self.scope, &other.scope) {
            (Some(x), Some(y)) => {
                if !(x.same(y)) {
                    return false;
                }
            },
            (None, None) => {},
            _ => {
                return false;
            },
        }
        if !(opt_same(&self.approval_decision_id, &other.approval_decision_id)) {
            return false;
        }
        if !(opt_same(&self.active_from, &other.active_from)) {
            return false;
        }
        if !(opt_same(&self.active_to, &other.active_to)) {
            return false;
        }
        if !(opt_same(&self.rule_text, &other.rule_text)) {
            return false;
        }
        if !(opt_same_strings(&self.triggers, &other.triggers)) {
            return false;
        }
        true
    }

    fn same_2(&self, other: &UserContextFields) -> (r: bool)
        ensures
            r == (self@.action_summary == other@.action_summary && self@.entity_kind == other@.entity_kind && self@.canonical_name == other@.canonical_name && self@.alternatives_rejected == other@.alternatives_rejected && self@.constraint_text == other@.constraint_text && self@.enforcement_level == other@.enforcement_level && self@.supporting_evidence == other@.supporting_evidence && self@.contradicting_evidence == other@.contradicting_evidence),
    {
        if !(opt_same(&self.action_summary, &other.action_summary)) {
            return false;
        }
        if !(opt_same(&self.entity_kind, &other.entity_kind)) {
            return false;
        }
        if !(opt_same(&self.canonical_name, &other.canonical_name)) {
            return false;
        }
        if !(opt_same_strings(&self.alternatives_rejected, &other.alternatives_rejected)) {
            return false;
        }
        if !(opt_same(&self.constraint_text, &other.constraint_text)) {
            return false;
        }
        if !(opt_same(&self.enforcement_level, &other.enforcement_level)) {
            return false;
        }
        if !(opt_same_evidence_links(&self.supporting_evidence, &other.supporting_evidence)) {
            return false;
        }
        if !(opt_same_evidence_links(&self.contradicting_evidence, &other.contradicting_evidence)) {
            return false;
        }
        true
    }

    /// Whether the views are the same.
    pub fn same(&self, other: &UserContextFields) -> (r: bool)
        ensures
            r == (self@ == other@),
    {
        let r = self.same_0(other) && self.same_1(other) && self.same_2(other);
        r
    }
}

/// One version of a node.
#[derive(Clone, Debug, PartialEq, Eq)]
pub struct NodeRecord {
    pub id: String,
    pub kind: NodeKind,
    pub schema_version: u32,
    pub summary: String,
    pub name: Option<String>,
    pub repo_relative_path: Option<String>,
    pub language: Option<String>,
    pub symbol_kind: Option<String>,
    pub visibility: Option<String>,
    pub signature: Option<String>,
    pub doc: Option<String>,
    pub content_signature: Option<String>,
    pub text: Option<String>,
    pub superseded_by: Option<String>,
    pub agent_id: Option<String>,
    pub agent_kind: Option<String>,
    pub session_id: Option<String>,
    pub observed_at: Option<String>,
    pub ingested_at: Option<String>,
    pub confidence: Option<String>,
    pub source_handle: Option<String>,
    pub redaction_policy_version: Option<String>,
    pub domain: Option<String>,
    pub importer_id: Option<String>,
    pub importer_version: Option<String>,
    pub source_artifact_path: Option<String>,
    pub source_artifact_hash: Option<String>,
    pub patch_status: Option<String>,
    pub base_commit: Option<String>,
    pub unknown_base_reason: Option<String>,
    pub patch_bytes_hash: Option<String>,
    pub validation_summary: Option<String>,
    pub producer_session_id: Option<String>,
    pub edit_kind: Option<String>,
    pub before_hash: Option<String>,
    pub after_hash: Option<String>,
    pub linked_turn_id: Option<String>,
    pub tool_name: Option<String>,
    pub tool_kind: Option<String>,
    pub arguments_summary: Option<String>,
    pub started_at: Option<String>,
    pub finished_at: Option<String>,
    pub failure_kind: Option<String>,
    pub valid_time: Option<String>,
    pub valid_time_source: Option<String>,
    pub parent_task_id: Option<String>,
    pub verification_link_id: Option<String>,
    pub verification_kind: Option<String>,
    pub status: Option<String>,
    pub executed_at: Option<String>,
    pub evidence_quality: Option<String>,
    /// What else the record says, as the text of a JSON object. Nothing here reads it.
    pub rest: Option<String>,
    pub span: Option<SourceSpan>,
    pub temporal: Option<TemporalMetadata>,
    pub semantic_drift: Option<SemanticDriftMetadata>,
    pub crate_attribution: Option<CrateAttribution>,
    pub evidence_links: Option<Vec<EvidenceLink>>,
    pub target_files: Option<Vec<String>>,
    pub patch_bytes_size: Option<u64>,
    pub patch_handle: Option<PatchHandle>,
    pub repository_identity: Option<RepositoryIdentityPayload>,
    pub arguments_handle: Option<OutputHandle>,
    pub stdout_handle: Option<OutputHandle>,
    pub stderr_handle: Option<OutputHandle>,
    pub exit_code: Option<i64>,
    pub hunk_count: Option<u32>,
    pub turn_index: Option<u64>,
    pub ordinal: Option<u32>,
    pub user_context: UserContextFields,
}

/// The view of a [`NodeRecord`].
#[verifier::ext_equal]
pub struct NodeView {
    pub id: Seq<char>,
    pub kind: NodeKind,
    pub schema_version: u32,
    pub summary: Seq<char>,
    pub name: Option<Seq<char>>,
    pub repo_relative_path: Option<Seq<char>>,
    pub language: Option<Seq<char>>,
    pub symbol_kind: Option<Seq<char>>,
    pub visibility: Option<Seq<char>>,
    pub signature: Option<Seq<char>>,
    pub doc: Option<Seq<char>>,
    pub content_signature: Option<Seq<char>>,
    pub text: Option<Seq<char>>,
    pub superseded_by: Option<Seq<char>>,
    pub agent_id: Option<Seq<char>>,
    pub agent_kind: Option<Seq<char>>,
    pub session_id: Option<Seq<char>>,
    pub observed_at: Option<Seq<char>>,
    pub ingested_at: Option<Seq<char>>,
    pub confidence: Option<Seq<char>>,
    pub source_handle: Option<Seq<char>>,
    pub redaction_policy_version: Option<Seq<char>>,
    pub domain: Option<Seq<char>>,
    pub importer_id: Option<Seq<char>>,
    pub importer_version: Option<Seq<char>>,
    pub source_artifact_path: Option<Seq<char>>,
    pub source_artifact_hash: Option<Seq<char>>,
    pub patch_status: Option<Seq<char>>,
    pub base_commit: Option<Seq<char>>,
    pub unknown_base_reason: Option<Seq<char>>,
    pub patch_bytes_hash: Option<Seq<char>>,
    pub validation_summary: Option<Seq<char>>,
    pub producer_session_id: Option<Seq<char>>,
    pub edit_kind: Option<Seq<char>>,
    pub before_hash: Option<Seq<char>>,
    pub after_hash: Option<Seq<char>>,
    pub linked_turn_id: Option<Seq<char>>,
    pub tool_name: Option<Seq<char>>,
    pub tool_kind: Option<Seq<char>>,
    pub arguments_summary: Option<Seq<char>>,
    pub started_at: Option<Seq<char>>,
    pub finished_at: Option<Seq<char>>,
    pub failure_kind: Option<Seq<char>>,
    pub valid_time: Option<Seq<char>>,
    pub valid_time_source: Option<Seq<char>>,
    pub parent_task_id: Option<Seq<char>>,
    pub verification_link_id: Option<Seq<char>>,
    pub verification_kind: Option<Seq<char>>,
    pub status: Option<Seq<char>>,
    pub executed_at: Option<Seq<char>>,
    pub evidence_quality: Option<Seq<char>>,
    pub rest: Option<Seq<char>>,
    pub span: Option<SourceSpan>,
    pub temporal: Option<TemporalView>,
    pub semantic_drift: Option<SemanticDriftView>,
    pub crate_attribution: Option<CrateAttributionView>,
    pub evidence_links: Option<Seq<EvidenceLinkView>>,
    pub target_files: Option<Seq<Seq<char>>>,
    pub patch_bytes_size: Option<u64>,
    pub patch_handle: Option<PatchHandleView>,
    pub repository_identity: Option<RepositoryIdentityView>,
    pub arguments_handle: Option<OutputHandleView>,
    pub stdout_handle: Option<OutputHandleView>,
    pub stderr_handle: Option<OutputHandleView>,
    pub exit_code: Option<i64>,
    pub hunk_count: Option<u32>,
    pub turn_index: Option<u64>,
    pub ordinal: Option<u32>,
    pub user_context: UserContextView,
}

impl View for NodeRecord {
    type V = NodeView;

    open spec fn view(&self) -> NodeView {
        NodeView {
            id: self.id@,
            kind: self.kind,
            schema_version: self.schema_version,
            summary: self.summary@,
            name: opt_view(self.name),
            repo_relative_path: opt_view(self.repo_relative_path),
            language: opt_view(self.language),
            symbol_kind: opt_view(self.symbol_kind),
            visibility: opt_view(self.visibility),
            signature: opt_view(self.signature),
            doc: opt_view(self.doc),
            content_signature: opt_view(self.content_signature),
            text: opt_view(self.text),
            superseded_by: opt_view(self.superseded_by),
            agent_id: opt_view(self.agent_id),
            agent_kind: opt_view(self.agent_kind),
            session_id: opt_view(self.session_id),
            observed_at: opt_view(self.observed_at),
            ingested_at: opt_view(self.ingested_at),
            confidence: opt_view(self.confidence),
            source_handle: opt_view(self.source_handle),
            redaction_policy_version: opt_view(self.redaction_policy_version),
            domain: opt_view(self.domain),
            importer_id: opt_view(self.importer_id),
            importer_version: opt_view(self.importer_version),
            source_artifact_path: opt_view(self.source_artifact_path),
            source_artifact_hash: opt_view(self.source_artifact_hash),
            patch_status: opt_view(self.patch_status),
            base_commit: opt_view(self.base_commit),
            unknown_base_reason: opt_view(self.unknown_base_reason),
            patch_bytes_hash: opt_view(self.patch_bytes_hash),
            validation_summary: opt_view(self.validation_summary),
            producer_session_id: opt_view(self.producer_session_id),
            edit_kind: opt_view(self.edit_kind),
            before_hash: opt_view(self.before_hash),
            after_hash: opt_view(self.after_hash),
            linked_turn_id: opt_view(self.linked_turn_id),
            tool_name: opt_view(self.tool_name),
            tool_kind: opt_view(self.tool_kind),
            arguments_summary: opt_view(self.arguments_summary),
            started_at: opt_view(self.started_at),
            finished_at: opt_view(self.finished_at),
            failure_kind: opt_view(self.failure_kind),
            valid_time: opt_view(self.valid_time),
            valid_time_source: opt_view(self.valid_time_source),
            parent_task_id: opt_view(self.parent_task_id),
            verification_link_id: opt_view(self.verification_link_id),
            verification_kind: opt_view(self.verification_kind),
            status: opt_view(self.status),
            executed_at: opt_view(self.executed_at),
            evidence_quality: opt_view(self.evidence_quality),
            rest: opt_view(self.rest),
            span: self.span,
            temporal: match self.temporal {
                Some(x) => Some(x@),
                None => None,
            },
            semantic_drift: match self.semantic_drift {
                Some(x) => Some(x@),
                None => None,
            },
            crate_attribution: match self.crate_attribution {
                Some(x) => Some(x@),
                None => None,
            },
            evidence_links: match self.evidence_links {
                Some(x) => Some(x@.map_values(|y: EvidenceLink| y@)),
                None => None,
            },
            target_files: opt_views(self.target_files),
            patch_bytes_size: self.patch_bytes_size,
            patch_handle: match self.patch_handle {
                Some(x) => Some(x@),
                None => None,
            },
            repository_identity: match self.repository_identity {
                Some(x) => Some(x@),
                None => None,
            },
            arguments_handle: match self.arguments_handle {
                Some(x) => Some(x@),
                None => None,
            },
            stdout_handle: match self.stdout_handle {
                Some(x) => Some(x@),
                None => None,
            },
            stderr_handle: match self.stderr_handle {
                Some(x) => Some(x@),
                None => None,
            },
            exit_code: self.exit_code,
            hunk_count: self.hunk_count,
            turn_index: self.turn_index,
            ordinal: self.ordinal,
            user_context: self.user_context@,
        }
    }
}

impl NodeRecord {
    /// A copy with the same view.
    pub fn copy(&self) -> (r: NodeRecord)
        ensures
            r@ == self@,
    {
        NodeRecord {
            id: self.id.clone(),
            kind: self.kind,
            schema_version: self.schema_version,
            summary: self.summary.clone(),
            name: crate::text::opt_clone(&self.name),
            repo_relative_path: crate::text::opt_clone(&self.repo_relative_path),
            language: crate::text::opt_clone(&self.language),
            symbol_kind: crate::text::opt_clone(&self.symbol_kind),
            visibility: crate::text::opt_clone(&self.visibility),
            signature: crate::text::opt_clone(&self.signature),
            doc: crate::text::opt_clone(&self.doc),
            content_signature: crate::text::opt_clone(&self.content_signature),
            text: crate::text::opt_clone(&self.text),
            superseded_by: crate::text::opt_clone(&self.superseded_by),
            agent_id: crate::text::opt_clone(&self.agent_id),
            agent_kind: crate::text::opt_clone(&self.agent_kind),
            session_id: crate::text::opt_clone(&self.session_id),
            observed_at: crate::text::opt_clone(&self.observed_at),
            ingested_at: crate::text::opt_clone(&self.ingested_at),
            confidence: crate::text::opt_clone(&self.confidence),
            source_handle: crate::text::opt_clone(&self.source_handle),
            redaction_policy_version: crate::text::opt_clone(&self.redaction_policy_version),
            domain: crate::text::opt_clone(&self.domain),
            importer_id: crate::text::opt_clone(&self.importer_id),
            importer_version: crate::text::opt_clone(&self.importer_version),
            source_artifact_path: crate::text::opt_clone(&self.source_artifact_path),
            source_artifact_hash: crate::text::opt_clone(&self.source_artifact_hash),
            patch_status: crate::text::opt_clone(&self.patch_status),
            base_commit: crate::text::opt_clone(&self.base_commit),
            unknown_base_reason: crate::text::opt_clone(&self.unknown_base_reason),
            patch_bytes_hash: crate::text::opt_clone(&self.patch_bytes_hash),
            validation_summary: crate::text::opt_clone(&self.validation_summary),
            producer_session_id: crate::text::opt_clone(&self.producer_session_id),
            edit_kind: crate::text::opt_clone(&self.edit_kind),
            before_hash: crate::text::opt_clone(&self.before_hash),
            after_hash: crate::text::opt_clone(&self.after_hash),
            linked_turn_id: crate::text::opt_clone(&self.linked_turn_id),
            tool_name: crate::text::opt_clone(&self.tool_name),
            tool_kind: crate::text::opt_clone(&self.tool_kind),
            arguments_summary: crate::text::opt_clone(&self.arguments_summary),
            started_at: crate::text::opt_clone(&self.started_at),
            finished_at: crate::text::opt_clone(&self.finished_at),
            failure_kind: crate::text::opt_clone(&self.failure_kind),
            valid_time: crate::text::opt_clone(&self.valid_time),
            valid_time_source: crate::text::opt_clone(&self.valid_time_source),
            parent_task_id: crate::text::opt_clone(&self.parent_task_id),
            verification_link_id: crate::text::opt_clone(&self.verification_link_id),
            verification_kind: crate::text::opt_clone(&self.verification_kind),
            status: crate::text::opt_clone(&self.status),
            executed_at: crate::text::opt_clone(&self.executed_at),
            evidence_quality: crate::text::opt_clone(&self.evidence_quality),
            rest: crate::text::opt_clone(&self.rest),
            span: self.span,
            temporal: match &self.temporal {
                Some(x) => Some(x.copy()),
                None => None,
            },
            semantic_drift: match &self.semantic_drift {
                Some(x) => Some(x.copy()),
                None => None,
            },
            crate_attribution: match &self.crate_attribution {
                Some(x) => Some(x.copy()),
                None => None,
            },
            evidence_links: match &self.evidence_links {
                Some(x) => Some(copy_evidence_links(x)),
                None => None,
            },
            target_files: crate::text::opt_copy_strings(&self.target_files),
            patch_bytes_size: self.patch_bytes_size,
            patch_handle: match &self.patch_handle {
                Some(x) => Some(x.copy()),
                None => None,
            },
            repository_identity: match &self.repository_identity {
                Some(x) => Some(x.copy()),
                None => None,
            },
            arguments_handle: match &self.arguments_handle {
                Some(x) => Some(x.copy()),
                None => None,
            },
            stdout_handle: match &self.stdout_handle {
                Some(x) => Some(x.copy()),
                None => None,
            },
            stderr_handle: match &self.stderr_handle {
                Some(x) => Some(x.copy()),
                None => None,
            },
            exit_code: self.exit_code,
            hunk_count: self.hunk_count,
            turn_index: self.turn_index,
            ordinal: self.ordinal,
            user_context: self.user_context.copy(),
        }
    }

    fn same_0(&self, other: &NodeRecord) -> (r: bool)
        ensures
            r == (self@.id == other@.id && self@.kind == other@.kind && self@.schema_version == other@.schema_version && self@.summary == other@.summary && self@.name == other@.name && self@.repo_relative_path == other@.repo_relative_path && self@.language == other@.language && self@.symbol_kind == other@.symbol_kind && self@.visibility == other@.visibility && self@.signature == other@.signature),
    {
        if !(str_eq(self.id.as_str(), other.id.as_str())) {
            return false;
        }
        if !(self.kind == other.kind) {
            return false;
        }
        if !(self.schema_version == other.schema_version) {
            return false;
        }
        if !(str_eq(self.summary.as_str(), other.summary.as_str())) {
            return false;
        }
        if !(opt_same(&self.name, &other.name)) {
            return false;
        }
        if !(opt_same(&self.repo_relative_path, &other.repo_relative_path)) {
            return false;
        }
        if !(opt_same(&self.language, &other.language)) {
            return false;
        }
        if !(opt_same(&self.symbol_kind, &other.symbol_kind)) {
            return false;
        }
        if !(opt_same(&self.visibility, &other.visibility)) {
            return false;
        }
        if !(opt_same(&self.signature, &other.signature)) {
            return false;
        }
        true
    }

    fn same_1(&self, other: &NodeRecord) -> (r: bool)
        ensures
            r == (self@.doc == other@.doc && self@.content_signature == other@.content_signature && self@.text == other@.text && self@.superseded_by == other@.superseded_by && self@.agent_id == other@.agent_id && self@.agent_kind == other@.agent_kind && self@.session_id == other@.session_id && self@.observed_at == other@.observed_at && self@.ingested_at == other@.ingested_at && self@.confidence == other@.confidence),
    {
        if !(opt_same(&self.doc, &other.doc)) {
            return false;
        }
        if !(opt_same(&self.content_signature, &other.content_signature)) {
            return false;
        }
        if !(opt_same(&self.text, &other.text)) {
            return false;
        }
        if !(opt_same(&self.superseded_by, &other.superseded_by)) {
            return false;
        }
        if !(opt_same(&self.agent_id, &other.agent_id)) {
            return false;
        }
        if !(opt_same(&self.agent_kind, &other.agent_kind)) {
            return false;
        }
        if !(opt_same(&self.session_id, &other.session_id)) {
            return false;
        }
        if !(opt_same(&self.observed_at, &other.observed_at)) {
            return false;
        }
        if !(opt_same(&self.ingested_at, &other.ingested_at)) {
            return false;
        }
        if !(opt_same(&self.confidence, &other.confidence)) {
            return false;
        }
        true
    }

    fn same_2(&self, other: &NodeRecord) -> (r: bool)
        ensures
            r == (self@.source_handle == other@.source_handle && self@.redaction_policy_version == other@.redaction_policy_version && self@.domain == other@.domain && self@.importer_id == other@.importer_id && self@.importer_version == other@.importer_version && self@.source_artifact_path == other@.source_artifact_path && self@.source_artifact_hash == other@.source_artifact_hash && self@.patch_status == other@.patch_status && self@.base_commit == other@.base_commit && self@.unknown_base_reason == other@.unknown_base_reason),
    {
        if !(opt_same(&self.source_handle, &other.source_handle)) {
            return false;
        }
        if !(opt_same(&self.redaction_policy_version, &other.redaction_policy_version)) {
            return false;
        }
        if !(opt_same(&self.domain, &other.domain)) {
            return false;
        }
        if !(opt_same(&self.importer_id, &other.importer_id)) {
            return false;
        }
        if !(opt_same(&self.importer_version, &other.importer_version)) {
            return false;
        }
        if !(opt_same(&self.source_artifact_path, &other.source_artifact_path)) {
            return false;
        }
        if !(opt_same(&self.source_artifact_hash, &other.source_artifact_hash)) {
            return false;
        }
        if !(opt_same(&self.patch_status, &other.patch_status)) {
            return false;
        }
        if !(opt_same(&self.base_commit, &other.base_commit)) {
            return false;
        }
        if !(opt_same(&self.unknown_base_reason, &other.unknown_base_reason)) {
            return false;
        }
        true
    }

    fn same_3(&self, other: &NodeRecord) -> (r: bool)
        ensures
            r == (self@.patch_bytes_hash == other@.patch_bytes_hash && self@.validation_summary == other@.validation_summary && self@.producer_session_id == other@.producer_session_id && self@.edit_kind == other@.edit_kind && self@.before_hash == other@.before_hash && self@.after_hash == other@.after_hash && self@.linked_turn_id == other@.linked_turn_id && self@.tool_name == other@.tool_name && self@.tool_kind == other@.tool_kind && self@.arguments_summary == other@.arguments_summary),
    {
        if !(opt_same(&self.patch_bytes_hash, &other.patch_bytes_hash)) {
            return false;
        }
        if !(opt_same(&self.validation_summary, &other.validation_summary)) {
            return false;
        }
        if !(opt_same(&self.producer_session_id, &other.producer_session_id)) {
            return false;
        }
        if !(opt_same(&self.edit_kind, &other.edit_kind)) {
            return false;
        }
        if !(opt_same(&self.before_hash, &other.before_hash)) {
            return false;
        }
        if !(opt_same(&self.after_hash, &other.after_hash)) {
            return false;
        }
        if !(opt_same(&self.linked_turn_id, &other.linked_turn_id)) {
            return false;
        }
        if !(opt_same(&self.tool_name, &other.tool_name)) {
            return false;
        }
        if !(opt_same(&self.tool_kind, &other.tool_kind)) {
            return false;
        }
        if !(opt_same(&self.arguments_summary, &other.arguments_summary)) {
            return false;
        }
        true
    }

    fn same_4(&self, other: &NodeRecord) -> (r: bool)
        ensures
            r == (self@.started_at == other@.started_at && self@.finished_at == other@.finished_at && self@.failure_kind == other@.failure_kind && self@.valid_time == other@.valid_time && self@.valid_time_source == other@.valid_time_source && self@.parent_task_id == other@.parent_task_id && self@.verification_link_id == other@.verification_link_id && self@.verification_kind == other@.verification_kind && self@.status == other@.status && self@.executed_at == other@.executed_at),
    {
        if !(opt_same(&self.started_at, &other.started_at)) {
            return false;
        }
        if !(opt_same(&self.finished_at, &other.finished_at)) {
            return false;
        }
        if !(opt_same(&self.failure_kind, &other.failure_kind)) {
            return false;
        }
        if !(opt_same(&self.valid_time, &other.valid_time)) {
            return false;
        }
        if !(opt_same(&self.valid_time_source, &other.valid_time_source)) {
            return false;
        }
        if !(opt_same(&self.parent_task_id, &other.parent_task_id)) {
            return false;
        }
        if !(opt_same(&self.verification_link_id, &other.verification_link_id)) {
            return false;
        }
        if !(opt_same(&self.verification_kind, &other.verification_kind)) {
            return false;
        }
        if !(opt_same(&self.status, &other.status)) {
            return false;
        }
        if !(opt_same(&self.executed_at, &other.executed_at)) {
            return false;
        }
        true
    }

    fn same_5(&self, other: &NodeRecord) -> (r: bool)
        ensures
            r == (self@.evidence_quality == other@.evidence_quality && self@.rest == other@.rest && self@.span == other@.span && self@.temporal == other@.temporal && self@.semantic_drift == other@.semantic_drift && self@.crate_attribution == other@.crate_attribution && self@.evidence_links == other@.evidence_links && self@.target_files == other@.target_files && self@.patch_bytes_size == other@.patch_bytes_size && self@.patch_handle == other@.patch_handle && self@.repository_identity == other@.repository_identity),
    {
        if !(opt_same(&self.evidence_quality, &other.evidence_quality)) {
            return false;
        }
        if !(opt_same(&self.rest, &other.rest)) {
            return false;
        }
        match (&self.span, &other.span) {
            (Some(x), Some(y)) => {
                if !(*x == *y) {
                    return false;
                }
            },
            (None, None) => {},
            _ => {
                return false;
            },
        }
        match (&self.temporal, &other.temporal) {
            (Some(x), Some(y)) => {
                if !(x.same(y)) {
                    return false;
                }
            },
            (None, None) => {},
            _ => {
                return false;
            },
        }
        match (&self.semantic_drift, &other.semantic_drift) {
            (Some(x), Some(y)) => {
                if !(x.same(y)) {
                    return false;
                }
            },
            (None, None) => {},
            _ => {
                return false;
            },
        }
        match (&self.crate_attribution, &other.crate_attribution) {
            (Some(x), Some(y)) => {
                if !(x.same(y)) {
                    return false;
                }
            },
            (None, None) => {},
            _ => {
                return false;
            },
        }
        if !(opt_same_evidence_links(&self.evidence_links, &other.evidence_links)) {
            return false;
        }
        if !(opt_same_strings(&self.target_files, &other.target_files)) {
            return false;
        }
        match (&self.patch_bytes_size, &other.patch_bytes_size) {
            (Some(x), Some(y)) => {
                if !(*x == *y) {
                    return false;
                }
            },
            (None, None) => {},
            _ => {
                return false;
            },
        }
        match (&self.patch_handle, &other.patch_handle) {
            (Some(x), Some(y)) => {
                if !(x.same(y)) {
                    return false;
                }
            },
            (None, None) => {},
            _ => {
                return false;
            },
        }
        match (&self.repository_identity, &other.repository_identity) {
            (Some(x), Some(y)) => {
                if !(x.same(y)) {
                    return false;
                }
            },
            (None, None) => {},
            _ => {
                return false;
            },
        }
        true
    }

    fn same_6(&self, other: &NodeRecord) -> (r: bool)
        ensures
            r == (self@.arguments_handle == other@.arguments_handle && self@.stdout_handle == other@.stdout_handle && self@.stderr_handle == other@.stderr_handle && self@.exit_code == other@.exit_code && self@.hunk_count == other@.hunk_count && self@.turn_index == other@.turn_index && self@.ordinal == other@.ordinal && self@.user_context == other@.user_context),
    {
        match (&self.arguments_handle, &other.arguments_handle) {
            (Some(x), Some(y)) => {
                if !(x.same(y)) {
                    return false;
                }
            },
            (None, None) => {},
            _ => {
                return false;
            },
        }
        match (&self.stdout_handle, &other.stdout_handle) {
            (Some(x), Some(y)) => {
                if !(x.same(y)) {
                    return false;
                }
            },
            (None, None) => {},
            _ => {
                return false;
            },
        }
        match (&self.stderr_handle, &other.stderr_handle) {
            (Some(x), Some(y)) => {
                if !(x.same(y)) {
                    return false;
                }
            },
            (None, None) => {},
            _ => {
                return false;
            },
        }
        match (&self.exit_code, &other.exit_code) {
            (Some(x), Some(y)) => {
                if !(*x == *y) {
                    return false;
                }
            },
            (None, None) => {},
            _ => {
                return false;
            },
        }
        match (&self.hunk_count, &other.hunk_count) {
            (Some(x), Some(y)) => {
                if !(*x == *y) {
                    return false;
                }
            },
            (None, None) => {},
            _ => {
                return false;
            },
        }
        match (&self.turn_index, &other.turn_index) {
            (Some(x), Some(y)) => {
                if !(*x == *y) {
                    return false;
                }
            },
            (None, None) => {},
            _ => {
                return false;
            },
        }
        match (&self.ordinal, &other.ordinal) {
            (Some(x), Some(y)) => {
                if !(*x == *y) {
                    return false;
                }
            },
            (None, None) => {},
            _ => {
                return false;
            },
        }
        if !(self.user_context.same(&other.user_context)) {
            return false;
        }
        true
    }

    /// Whether the views are the same.
    pub fn same(&self, other: &NodeRecord) -> (r: bool)
        ensures
            r == (self@ == other@),
    {
        let r = self.same_0(other) && self.same_1(other) && self.same_2(other) && self.same_3(other) && self.same_4(other) && self.same_5(other) && self.same_6(other);
        r
    }
}

/// One version of an edge.
#[derive(Clone, Debug, PartialEq, Eq)]
pub struct EdgeRecord {
    pub id: String,
    pub schema_version: u32,
    pub label: EdgeLabel,
    pub source: String,
    pub target: String,
    pub confidence: Option<String>,
    pub resolution: Option<String>,
    pub temporal: Option<TemporalMetadata>,
    pub summary: String,
    /// What else the record says, as the text of a JSON object. Nothing here reads it.
    pub rest: Option<String>,
}

/// The view of an [`EdgeRecord`].
#[verifier::ext_equal]
pub struct EdgeView {
    pub id: Seq<char>,
    pub schema_version: u32,
    pub label: EdgeLabel,
    pub source: Seq<char>,
    pub target: Seq<char>,
    pub confidence: Option<Seq<char>>,
    pub resolution: Option<Seq<char>>,
    pub temporal: Option<TemporalView>,
    pub summary: Seq<char>,
    pub rest: Option<Seq<char>>,
}

impl View for EdgeRecord {
    type V = EdgeView;

    open spec fn view(&self) -> EdgeView {
        EdgeView {
            id: self.id@,
            schema_version: self.schema_version,
            label: self.label,
            source: self.source@,
            target: self.target@,
            confidence: opt_view(self.confidence),
            resolution: opt_view(self.resolution),
            temporal: match self.temporal {
                Some(x) => Some(x@),
                None => None,
            },
            summary: self.summary@,
            rest: opt_view(self.rest),
        }
    }
}

impl EdgeRecord {
    /// A copy with the same view.
    pub fn copy(&self) -> (r: EdgeRecord)
        ensures
            r@ == self@,
    {
        EdgeRecord {
            id: self.id.clone(),
            schema_version: self.schema_version,
            label: self.label,
            source: self.source.clone(),
            target: self.target.clone(),
            confidence: crate::text::opt_clone(&self.confidence),
            resolution: crate::text::opt_clone(&self.resolution),
            temporal: match &self.temporal {
                Some(x) => Some(x.copy()),
                None => None,
            },
            summary: self.summary.clone(),
            rest: crate::text::opt_clone(&self.rest),
        }
    }

    /// Whether the views are the same.
    pub fn same(&self, other: &EdgeRecord) -> (r: bool)
        ensures
            r == (self@ == other@),
    {
        if !(str_eq(self.id.as_str(), other.id.as_str())) {
            return false;
        }
        if !(self.schema_version == other.schema_version) {
            return false;
        }
        if !(self.label == other.label) {
            return false;
        }
        if !(str_eq(self.source.as_str(), other.source.as_str())) {
            return false;
        }
        if !(str_eq(self.target.as_str(), other.target.as_str())) {
            return false;
        }
        if !(opt_same(&self.confidence, &other.confidence)) {
            return false;
        }
        if !(opt_same(&self.resolution, &other.resolution)) {
            return false;
        }
        match (&self.temporal, &other.temporal) {
            (Some(x), Some(y)) => {
                if !(x.same(y)) {
                    return false;
                }
            },
            (None, None) => {},
            _ => {
                return false;
            },
        }
        if !(str_eq(self.summary.as_str(), other.summary.as_str())) {
            return false;
        }
        if !(opt_same(&self.rest, &other.rest)) {
            return false;
        }
        true
    }
}

/// A retraction of an identifier.
#[derive(Clone, Debug, PartialEq, Eq)]
pub struct TombstoneRecord {
    pub id: String,
    pub deleted_id: String,
    /// What else the record says, as the text of a JSON object. Nothing here reads it.
    pub rest: Option<String>,
}

/// The view of a [`TombstoneRecord`].
#[verifier::ext_equal]
pub struct TombstoneView {
    pub id: Seq<char>,
    pub deleted_id: Seq<char>,
    pub rest: Option<Seq<char>>,
}

impl View for TombstoneRecord {
    type V = TombstoneView;

    open spec fn view(&self) -> TombstoneView {
        TombstoneView {
            id: self.id@,
            deleted_id: self.deleted_id@,
            rest: opt_view(self.rest),
        }
    }
}

impl TombstoneRecord {
    /// A copy with the same view.
    pub fn copy(&self) -> (r: TombstoneRecord)
        ensures
            r@ == self@,
    {
        TombstoneRecord {
            id: self.id.clone(),
            deleted_id: self.deleted_id.clone(),
            rest: crate::text::opt_clone(&self.rest),
        }
    }

    /// Whether the views are the same.
    pub fn same(&self, other: &TombstoneRecord) -> (r: bool)
        ensures
            r == (self@ == other@),
    {
        if !(str_eq(self.id.as_str(), other.id.as_str())) {
            return false;
        }
        if !(str_eq(self.deleted_id.as_str(), other.deleted_id.as_str())) {
            return false;
        }
        if !(opt_same(&self.rest, &other.rest)) {
            return false;
        }
        true
    }
}

/// One entry of the store.
#[derive(Clone, Debug, PartialEq, Eq)]
pub enum GraphRecord {
    Node(NodeRecord),
    Edge(EdgeRecord),
    Tombstone(TombstoneRecord),
}

/// The view of a [`GraphRecord`].
#[verifier::ext_equal]
pub enum RecordView {
    Node(NodeView),
    Edge(EdgeView),
    Tombstone(TombstoneView),
}

impl View for GraphRecord {
    type V = RecordView;

    open spec fn view(&self) -> RecordView {
        match self {
            GraphRecord::Node(n) => RecordView::Node(n@),
            GraphRecord::Edge(e) => RecordView::Edge(e@),
            GraphRecord::Tombstone(t) => RecordView::Tombstone(t@),
        }
    }
}

/// The views of the records of a sequence.
pub open spec fn record_views(s: Seq<GraphRecord>) -> Seq<RecordView> {
    s.map_values(|r: GraphRecord| r@)
}

/// The identifier of a record.
pub open spec fn record_id(r: GraphRecord) -> Seq<char> {
    match r {
        GraphRecord::Node(n) => n.id@,
        GraphRecord::Edge(e) => e.id@,
        GraphRecord::Tombstone(t) => t.id@,
    }
}

impl GraphRecord {
    /// A copy with the same view.
    pub fn copy(&self) -> (r: GraphRecord)
        ensures
            r@ == self@,
    {
        match self {
            GraphRecord::Node(n) => GraphRecord::Node(n.copy()),
            GraphRecord::Edge(e) => GraphRecord::Edge(e.copy()),
            GraphRecord::Tombstone(t) => GraphRecord::Tombstone(t.copy()),
        }
    }

    /// Whether the views are the same.
    pub fn same(&self, other: &GraphRecord) -> (r: bool)
        ensures
            r == (self@ == other@),
    {
        match (self, other) {
            (GraphRecord::Node(a), GraphRecord::Node(b)) => a.same(b),
            (GraphRecord::Edge(a), GraphRecord::Edge(b)) => a.same(b),
            (GraphRecord::Tombstone(a), GraphRecord::Tombstone(b)) => a.same(b),
            _ => false,
        }
    }

    /// The identifier of the record.
    pub fn id(&self) -> (r: &str)
        ensures
            r@ == record_id(*self),
    {
        match self {
            GraphRecord::Node(n) => n.id.as_str(),
            GraphRecord::Edge(e) => e.id.as_str(),
            GraphRecord::Tombstone(t) => t.id.as_str(),
        }
    }
}

/// User-context fields with nothing set.
pub open spec fn blank_user_context() -> UserContextView {
    UserContextView {
        candidate_id: None,
        prompt_surface: None,
        prompt_text: None,
        prompted_at: None,
        prompted_to: None,
        prompt_id: None,
        outcome: None,
        decided_at: None,
        decided_by: None,
        decision_rationale: None,
        edited_rule_text: None,
        materialized_record_id: None,
        proposed_rule_kind: None,
        proposed_rule_text: None,
        scope: None,
        approval_decision_id: None,
        active_from: None,
        active_to: None,
        rule_text: None,
        triggers: None,
        action_summary: None,
        entity_kind: None,
        canonical_name: None,
        alternatives_rejected: None,
        constraint_text: None,
        enforcement_level: None,
        supporting_evidence: None,
        contradicting_evidence: None,
    }
}

impl UserContextFields {
    /// Fields with nothing set.
    pub fn empty() -> (r: UserContextFields)
        ensures
            r@ == blank_user_context(),
    {
        UserContextFields {
            candidate_id: None,
            prompt_surface: None,
            prompt_text: None,
            prompted_at: None,
            prompted_to: None,
            prompt_id: None,
            outcome: None,
            decided_at: None,
            decided_by: None,
            decision_rationale: None,
            edited_rule_text: None,
            materialized_record_id: None,
            proposed_rule_kind: None,
            proposed_rule_text: None,
            scope: None,
            approval_decision_id: None,
            active_from: None,
            active_to: None,
            rule_text: None,
            triggers: None,
            action_summary: None,
            entity_kind: None,
            canonical_name: None,
            alternatives_rejected: None,
            constraint_text: None,
            enforcement_level: None,
            supporting_evidence: None,
            contradicting_evidence: None,
        }
    }
}

/// A node of which only the identifier, the kind, the schema version and the
/// summary are set.
pub open spec fn blank_node(
    id: Seq<char>,
    kind: NodeKind,
    schema_version: u32,
    summary: Seq<char>,
) -> NodeView {
    NodeView {
        id,
        kind,
        schema_version,
        summary,
        name: None,
        repo_relative_path: None,
        language: None,
        symbol_kind: None,
        visibility: None,
        signature: None,
        doc: None,
        content_signature: None,
        text: None,
        superseded_by: None,
        agent_id: None,
        agent_kind: None,
        session_id: None,
        observed_at: None,
        ingested_at: None,
        confidence: None,
        source_handle: None,
        redaction_policy_version: None,
        domain: None,
        importer_id: None,
        importer_version: None,
        source_artifact_path: None,
        source_artifact_hash: None,
        patch_status: None,
        base_commit: None,
        unknown_base_reason: None,
        patch_bytes_hash: None,
        validation_summary: None,
        producer_session_id: None,
        edit_kind: None,
        before_hash: None,
        after_hash: None,
        linked_turn_id: None,
        tool_name: None,
        tool_kind: None,
        arguments_summary: None,
        started_at: None,
        finished_at: None,
        failure_kind: None,
        valid_time: None,
        valid_time_source: None,
        parent_task_id: None,
        verification_link_id: None,
        verification_kind: None,
        status: None,
        executed_at: None,
        evidence_quality: None,
        rest: None,
        span: None,
        temporal: None,
        semantic_drift: None,
        crate_attribution: None,
        evidence_links: None,
        target_files: None,
        patch_bytes_size: None,
        patch_handle: None,
        repository_identity: None,
        arguments_handle: None,
        stdout_handle: None,
        stderr_handle: None,
        exit_code: None,
        hunk_count: None,
        turn_index: None,
        ordinal: None,
        user_context: blank_user_context(),
    }
}

impl NodeRecord {
    /// A node of which only the identifier, the kind, the schema version and the
    /// summary are set.
    pub fn blank(id: String, kind: NodeKind, schema_version: u32, summary: String) -> (r: NodeRecord)
        ensures
            r@ == blank_node(id@, kind, schema_version, summary@),
            r.id@ == id@,
    {
        NodeRecord {
            id,
            kind,
            schema_version,
            summary,
            name: None,
            repo_relative_path: None,
            language: None,
            symbol_kind: None,
            visibility: None,
            signature: None,
            doc: None,
            content_signature: None,
            text: None,
            superseded_by: None,
            agent_id: None,
            agent_kind: None,
            session_id: None,
            observed_at: None,
            ingested_at: None,
            confidence: None,
            source_handle: None,
            redaction_policy_version: None,
            domain: None,
            importer_id: None,
            importer_version: None,
            source_artifact_path: None,
            source_artifact_hash: None,
            patch_status: None,
            base_commit: None,
            unknown_base_reason: None,
            patch_bytes_hash: None,
            validation_summary: None,
            producer_session_id: None,
            edit_kind: None,
            before_hash: None,
            after_hash: None,
            linked_turn_id: None,
            tool_name: None,
            tool_kind: None,
            arguments_summary: None,
            started_at: None,
            finished_at: None,
            failure_kind: None,
            valid_time: None,
            valid_time_source: None,
            parent_task_id: None,
            verification_link_id: None,
            verification_kind: None,
            status: None,
            executed_at: None,
            evidence_quality: None,
            rest: None,
            span: None,
            temporal: None,
            semantic_drift: None,
            crate_attribution: None,
            evidence_links: None,
            target_files: None,
            patch_bytes_size: None,
            patch_handle: None,
            repository_identity: None,
            arguments_handle: None,
            stdout_handle: None,
            stderr_handle: None,
            exit_code: None,
            hunk_count: None,
            turn_index: None,
            ordinal: None,
            user_context: UserContextFields::empty(),
        }
    }
}

/// The view of a record, as one thing.
#[verifier::opaque]
pub open spec fn shown(r: GraphRecord) -> RecordView {
    r@
}

/// A record that is added to a list is shown after the others.
pub proof fn lemma_shown_push(s: Seq<GraphRecord>, r: GraphRecord)
    ensures
        record_views(s.push(r)) == record_views(s).push(shown(r)),
{
    reveal(shown);
    assert(record_views(s.push(r)) =~= record_views(s).push(r@));
}

/// Of no records nothing is shown.
pub proof fn lemma_shown_none()
    ensures
        record_views(Seq::<GraphRecord>::empty()) == Seq::<RecordView>::empty(),
{
    assert(record_views(Seq::<GraphRecord>::empty()) =~= Seq::<RecordView>::empty());
}

} // verus!
