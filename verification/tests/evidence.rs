//! Evidence: what is accepted, how fresh it is, and what is decided on it.

use egregore::api_error::ErrorCode;
use egregore::decide::{canonical_scope, decide_candidate, decision_texts, DecideRequest};
use egregore::evidence_edges::{
    check_agent_kind, published_agent_kinds, record_id_matches_domain, validate_submitted_edge,
    validate_submitted_node, ConfidenceGrade, ConfidenceTable, StoreSnapshot,
};
use egregore::evidence_freshness::{
    evidence_link_freshness, is_superseded, stale_only, verdict_counts, FreshnessVerdict,
    TriggeringHandle,
};
use egregore::evidence_rules::{
    validate_agent_memory_edge_endpoints, validate_declared_domain,
    validate_evidence_endpoint_constraints,
};
use egregore::evidence_synthesis::{
    agent_memory_edge_id, resolve_batch, validate_and_synthesize_evidence_edges,
};
use egregore::ingest_rules::{
    has_ambiguous_recovery_keys, has_duplicate_recovery_keys, recovery_key,
    validate_no_local_path_identity_in_shared_store, validate_unique_recovery_keys, IdentityFacts,
    StoredRepositories,
};
use egregore::ir::{
    EdgeLabel, EdgeRecord, EvidenceLink, GraphRecord, IdentitySource, NodeKind, NodeRecord,
    OutputHandle, PatchHandle, RepositoryIdentityPayload, TemporalMetadata, TombstoneRecord,
    UserContextScope,
};
use egregore::liveness::{
    find_last_event, find_live, is_deleted, is_live_edge, live_ids_of_kind, targets_of,
};
use egregore::record_rules::{
    required_str, validate_artifact_domain_records, validate_verification_domain_records,
    validate_verification_output_handle, INLINE_PAYLOAD_CEILING,
};
use egregore::repository::RepositoryIndex;
use egregore::write::plan_write;

fn text(s: &str) -> Option<String> {
    Some(s.to_owned())
}

fn blank(id: &str, kind: NodeKind, version: u32) -> NodeRecord {
    NodeRecord::blank(id.to_owned(), kind, version, "a node".to_owned())
}

fn tombstone(id: &str) -> GraphRecord {
    GraphRecord::Tombstone(TombstoneRecord {
        rest: None,
        id: format!("t-{id}"),
        deleted_id: id.to_owned(),
    })
}

fn edge(id: &str, label: EdgeLabel, source: &str, target: &str) -> EdgeRecord {
    EdgeRecord {
        rest: None,
        id: id.to_owned(),
        schema_version: 1,
        label,
        source: source.to_owned(),
        target: target.to_owned(),
        confidence: text("0.9"),
        resolution: None,
        temporal: None,
        summary: "an edge".to_owned(),
    }
}

fn link(target: &str, relation: &str, confidence: &str) -> EvidenceLink {
    EvidenceLink {
        target_record_id: text(target),
        target_domain: "codegraph".to_owned(),
        relation: relation.to_owned(),
        confidence: confidence.to_owned(),
        as_of_commit: None,
        target_repo_relative_path: None,
        target_span: None,
        target_git_commit: None,
    }
}

fn observation(id: &str, links: Vec<EvidenceLink>) -> NodeRecord {
    let mut n = blank(id, NodeKind::Observation, 1);
    n.agent_id = text("a");
    n.agent_kind = text("codex");
    n.session_id = text("s");
    n.observed_at = text("2024-01-01T00:00:00Z");
    n.ingested_at = text("2024-01-01T00:00:00Z");
    n.confidence = text("0.9");
    n.text = text("seen");
    n.evidence_links = Some(links);
    n
}

fn symbol(id: &str, commit: &str, time: &str, signature: &str) -> GraphRecord {
    let mut n = blank(id, NodeKind::Symbol, 3);
    n.name = text("f");
    n.repo_relative_path = text("a.rs");
    n.signature = text(signature);
    n.content_signature = text(signature);
    n.temporal = Some(TemporalMetadata {
        git_commit: commit.to_owned(),
        git_parent_commits: if commit == "c1" { vec![] } else { vec!["c1".to_owned()] },
        valid_time: time.to_owned(),
        observed_at: time.to_owned(),
        author_time: None,
        valid_time_source: None,
    });
    GraphRecord::Node(n)
}

fn store(all: Vec<GraphRecord>) -> StoreSnapshot {
    StoreSnapshot {
        current: all.iter().map(|r| r.copy()).collect(),
        product_kind: None,
        all,
    }
}

fn grades() -> ConfidenceTable {
    ConfidenceTable::new()
        .with("0.9", ConfidenceGrade::InRange)
        .with("7", ConfidenceGrade::OutOfRange)
        .with("high", ConfidenceGrade::NotNumeric)
}

const F: &str = "codegraph:v3:f";
const O: &str = "agent_memory:v1:o";

fn code() -> StoreSnapshot {
    store(vec![symbol(F, "c1", "2024-01-01T00:00:00Z", "fn f()")])
}

// Links

#[test]
fn an_accepted_link_becomes_an_edge() {
    let batch = vec![GraphRecord::Node(observation(O, vec![link(F, "OBSERVES", "0.9")]))];
    match validate_and_synthesize_evidence_edges(&batch, &code(), &grades()) {
        Ok((edges, _)) => {
            assert_eq!(edges.len(), 1);
            assert_eq!((edges[0].source.as_str(), edges[0].target.as_str()), (O, F));
            assert_eq!(edges[0].label, EdgeLabel::Observes);
            assert_eq!(edges[0].id, agent_memory_edge_id(EdgeLabel::Observes, O, F));
            assert_eq!(edges[0].confidence.as_deref(), Some("0.9"));
        }
        Err(e) => panic!("{}", e.message),
    }
}

#[test]
fn a_repeated_link_adds_nothing() {
    let twice = vec![link(F, "OBSERVES", "0.9"), link(F, "OBSERVES", "0.9")];
    let batch = vec![GraphRecord::Node(observation(O, twice))];
    let edges = validate_and_synthesize_evidence_edges(&batch, &code(), &grades())
        .map(|r| r.0.len())
        .map_err(|e| e.message);
    assert_eq!(edges, Ok(1));
}

#[test]
fn links_that_do_not_hold_are_refused() {
    let refuse = |l: EvidenceLink| {
        let batch = vec![GraphRecord::Node(observation(O, vec![l]))];
        resolve_batch(&batch, &code(), &grades())
            .map(|r| r.len())
            .map_err(|e| e.code)
    };
    assert_eq!(refuse(link(F, "OBSERVES", "0.9")), Ok(1));
    assert_eq!(
        refuse(link("codegraph:v3:gone", "OBSERVES", "0.9")),
        Err(ErrorCode::UnresolvedEvidenceTarget)
    );
    assert!(refuse(link(F, "OBSERVES", "7")).is_err());
    assert!(refuse(link(F, "OBSERVES", "high")).is_err());
    assert!(refuse(link(F, "NO_SUCH_RELATION", "0.9")).is_err());
    assert!(refuse(link(F, "PRODUCED_PATCH", "0.9")).is_err());
    let mut foreign = link(F, "OBSERVES", "0.9");
    foreign.target_domain = "verification".to_owned();
    assert!(refuse(foreign).is_err());
}

#[test]
fn nodes_of_the_agent_memory_say_where_they_come_from() {
    let check = |n: &NodeRecord| {
        validate_submitted_node(n, &grades(), &text("product")).map_err(|e| (e.code, e.message))
    };
    let good = observation(O, vec![link(F, "OBSERVES", "0.9")]);
    assert_eq!(check(&good), Ok(()));
    for drop in ["agent_id", "agent_kind", "session_id", "observed_at", "ingested_at"] {
        let mut n = good.copy();
        match drop {
            "agent_id" => n.agent_id = None,
            "agent_kind" => n.agent_kind = None,
            "session_id" => n.session_id = None,
            "observed_at" => n.observed_at = None,
            _ => n.ingested_at = None,
        }
        match check(&n) {
            Err((code, message)) => {
                assert_eq!(code, ErrorCode::MissingField);
                assert!(message.contains(drop), "{message}");
            }
            Ok(()) => panic!("{drop} was not asked for"),
        }
    }
    let mut n = good.copy();
    n.agent_kind = text("robot");
    assert_eq!(
        check(&n).map_err(|e| e.1),
        Err(
            "agent_kind 'robot' is not a recognized value; expected one of: codex, product, vantage, rust-swe-agent, human, other"
                .to_owned()
        )
    );
    let product = text("product");
    assert_eq!(
        published_agent_kinds(&product),
        vec!["codex", "product", "vantage", "rust-swe-agent", "human", "other"]
    );
    assert_eq!(published_agent_kinds(&None).len(), 5);
    assert!(published_agent_kinds(&product).iter().all(|k| check_agent_kind(&product, k).is_ok()));
    assert!(check_agent_kind(&None, "product").is_err());
    let mut n = good.copy();
    n.evidence_links = None;
    assert!(check(&n).is_err());
    let mut n = good.copy();
    n.schema_version = 2;
    assert!(check(&n).is_err());
    let mut n = good.copy();
    n.kind = NodeKind::Symbol;
    assert!(check(&n).is_err());
    let mut n = good.copy();
    n.id = "codegraph:v3:x".to_owned();
    assert!(check(&n).is_err());
}

#[test]
fn submitted_edges_suit_their_ends() {
    let batch = vec![GraphRecord::Node(observation(O, vec![link(F, "OBSERVES", "0.9")]))];
    let check = |e: &EdgeRecord| validate_submitted_edge(e, &batch, &code(), &grades()).is_ok();
    assert!(check(&edge("agent_memory:v1:e", EdgeLabel::Observes, O, F)));
    assert!(!check(&edge("codegraph:v3:e", EdgeLabel::Observes, O, F)));
    assert!(!check(&edge("agent_memory:v1:e", EdgeLabel::Calls, O, F)));
    let mut e = edge("agent_memory:v1:e", EdgeLabel::Observes, O, F);
    e.schema_version = 9;
    assert!(!check(&e));
    let mut e = edge("agent_memory:v1:e", EdgeLabel::Observes, O, F);
    e.confidence = None;
    assert!(!check(&e));
    assert!(check(&edge("codegraph:v3:e", EdgeLabel::Calls, "a", "b")));
}

#[test]
fn relations_suit_the_kinds_they_join() {
    let joins = |s: NodeKind, l: EdgeLabel, t: Option<NodeKind>| {
        validate_evidence_endpoint_constraints(Some(s), l, t, "codegraph:v3:x").is_ok()
    };
    assert!(joins(NodeKind::Observation, EdgeLabel::Observes, Some(NodeKind::Symbol)));
    assert!(!joins(NodeKind::Agent, EdgeLabel::Observes, Some(NodeKind::Symbol)));
    assert!(!joins(NodeKind::Observation, EdgeLabel::ProducedEvidence, Some(NodeKind::Symbol)));
    assert!(validate_agent_memory_edge_endpoints("e", EdgeLabel::Observes, O, F).is_ok());
    assert!(validate_declared_domain(EdgeLabel::Observes, "codegraph").is_ok());
    assert!(record_id_matches_domain(F, "codegraph"));
    assert!(!record_id_matches_domain(F, "agent_memory"));
}

#[test]
fn labels_are_read_back_from_their_names() {
    for label in [EdgeLabel::Observes, EdgeLabel::FailedOn, EdgeLabel::Supersedes] {
        assert_eq!(EdgeLabel::from_relation(label.as_str()), Some(label));
        assert!(label.is_evidence_link_label());
    }
    assert_eq!(EdgeLabel::from_relation("NO_SUCH_RELATION"), None);
    assert!(EdgeLabel::Calls.is_codegraph_topology_label());
    assert_eq!(NodeKind::PatchArtifact.as_str(), "PatchArtifact");
}

// Batches

fn facts() -> IdentityFacts {
    IdentityFacts {
        local_urls: vec![],
        unmatched: vec![],
    }
}

fn repository(id: &str, source: IdentitySource) -> GraphRecord {
    let mut n = blank(id, NodeKind::Repository, 3);
    n.repository_identity = Some(RepositoryIdentityPayload {
        identity_source: source,
        remote_url: text("https://example.org/r"),
        root_commit_sha: text("c1"),
    });
    GraphRecord::Node(n)
}

fn stored(ids: &[&str], local: &[&str]) -> StoredRepositories {
    let list = |v: &[&str]| v.iter().map(|s| (*s).to_owned()).collect();
    StoredRepositories {
        ids: list(ids),
        local_path_ids: list(local),
        multi_domain: false,
    }
}

#[test]
fn a_local_path_repository_stays_alone() {
    let check = |s: &Vec<GraphRecord>, stored: &StoredRepositories| {
        validate_no_local_path_identity_in_shared_store(s, &facts(), stored).map_err(|e| e.code)
    };
    let local = vec![repository("codegraph:v3:l", IdentitySource::LocalPath)];
    let remote = vec![repository("codegraph:v3:r", IdentitySource::Remote)];
    let refused = Err(ErrorCode::LocalPathIdentityUnsupported);
    assert_eq!(check(&local, &stored(&[], &[])), Ok(()));
    assert_eq!(check(&local, &stored(&["codegraph:v3:r"], &[])), refused);
    assert_eq!(check(&remote, &stored(&["codegraph:v3:l"], &["codegraph:v3:l"])), refused);
    assert_eq!(check(&remote, &stored(&["codegraph:v3:x"], &[])), Ok(()));
    let two = vec![
        repository("codegraph:v3:l", IdentitySource::LocalPath),
        repository("codegraph:v3:m", IdentitySource::LocalPath),
    ];
    assert_eq!(check(&two, &stored(&[], &[])), refused);
}

#[test]
fn keys_of_recovery_tell_records_apart() {
    let records = vec![
        symbol(F, "c1", "2024-01-01T00:00:00Z", "a"),
        symbol(F, "c2", "2024-01-02T00:00:00Z", "b"),
    ];
    let payloads = vec![b"1".to_vec(), b"2".to_vec()];
    assert_ne!(
        recovery_key(&records[0], &payloads[0]),
        recovery_key(&records[1], &payloads[1])
    );
    assert!(!has_duplicate_recovery_keys(&records, &payloads));
    assert!(!has_ambiguous_recovery_keys(&records, &payloads));
    assert!(validate_unique_recovery_keys(&records, &payloads).is_ok());
    let same = vec![records[0].copy(), records[0].copy()];
    let twice = vec![b"1".to_vec(), b"1".to_vec()];
    assert!(has_duplicate_recovery_keys(&same, &twice));
}

#[test]
fn a_plan_holds_the_batch_and_its_edges() {
    let batch = vec![GraphRecord::Node(observation(O, vec![link(F, "OBSERVES", "0.9")]))];
    let command = egregore::write::WriteCommand {
        idempotency_key: "k".to_owned(),
        payload_hash: "h".to_owned(),
        records: batch,
        payloads: vec![b"1".to_vec()],
        grades: grades(),
        identities: facts(),
    };
    match plan_write(&command, &code(), &stored(&[], &[])) {
        Ok(records) => {
            assert_eq!(records.len(), 2);
            assert_eq!(records[0].id(), O);
            assert_eq!(records[1].id(), agent_memory_edge_id(EdgeLabel::Observes, O, F));
        }
        Err(e) => panic!("{}", e.message),
    }
}

#[test]
fn verification_records_have_evidence() {
    let run = || {
        let mut n = blank("verification:v1:r", NodeKind::TestRun, 1);
        n.domain = text("verification");
        n.executed_at = text("2024-01-01T00:00:00Z");
        n.source_artifact_hash = text("h");
        n
    };
    let check = |n: NodeRecord| {
        validate_verification_domain_records(&vec![GraphRecord::Node(n)]).map_err(|e| e.code)
    };
    assert_eq!(check(run()), Ok(()));
    let mut n = run();
    n.source_artifact_hash = None;
    assert_eq!(check(n), Err(ErrorCode::MissingEvidenceHandle));
    let handle = || {
        Some(OutputHandle {
            inline: None,
            hash: "h".to_owned(),
            bytes: 1,
        })
    };
    let mut n = run();
    n.source_artifact_hash = None;
    n.stderr_handle = handle();
    assert_eq!(check(n), Err(ErrorCode::MissingEvidenceHandle));
    let mut n = run();
    n.source_artifact_hash = None;
    n.stdout_handle = handle();
    assert_eq!(check(n), Ok(()));
    let mut n = run();
    n.executed_at = text("noon");
    assert_eq!(check(n), Err(ErrorCode::BadRequest));
    let mut n = run();
    n.kind = NodeKind::Symbol;
    assert_eq!(check(n), Err(ErrorCode::BadRequest));
    let mut n = run();
    n.schema_version = 2;
    assert_eq!(check(n), Err(ErrorCode::BadRequest));
    let mut n = run();
    n.stdout_handle = Some(OutputHandle {
        inline: text("abc"),
        hash: "h".to_owned(),
        bytes: INLINE_PAYLOAD_CEILING + 1,
    });
    assert_eq!(check(n), Err(ErrorCode::InlinePayloadExceedsCeiling));
    let short = OutputHandle {
        inline: text("abc"),
        hash: "h".to_owned(),
        bytes: 2,
    };
    assert!(validate_verification_output_handle("stdout_handle", &short).is_err());
}

fn patch(status: &str) -> NodeRecord {
    let mut n = blank("artifact:v1:p", NodeKind::PatchArtifact, 1);
    n.domain = text("artifact");
    n.patch_status = text(status);
    n.base_commit = text("c1");
    n.target_files = Some(vec!["a.rs".to_owned()]);
    n.patch_bytes_hash = text("h");
    n.patch_bytes_size = Some(3);
    n.patch_handle = Some(PatchHandle {
        path: "p".to_owned(),
        inline: text("abc"),
    });
    n.validation_summary = text("ok");
    n.source_artifact_path = text("p");
    n.source_artifact_hash = text("h");
    n.producer_session_id = text("s");
    n.valid_time = text("2024-01-01T00:00:00Z");
    n.valid_time_source = text("produced_at");
    n.ingested_at = text("2024-01-01T00:00:00Z");
    n
}

#[test]
fn the_status_of_a_patch_stays() {
    let check = |n: NodeRecord, current: Vec<GraphRecord>| {
        validate_artifact_domain_records(&vec![GraphRecord::Node(n)], &current).map_err(|e| e.code)
    };
    assert_eq!(check(patch("applied_clean"), vec![]), Ok(()));
    let before = || vec![GraphRecord::Node(patch("applied_clean"))];
    assert_eq!(check(patch("applied_clean"), before()), Ok(()));
    assert_eq!(check(patch("superseded"), before()), Err(ErrorCode::PatchStatusPinned));
    assert_eq!(check(patch("odd"), vec![]), Err(ErrorCode::BadRequest));
    let mut n = patch("applied_clean");
    n.base_commit = None;
    assert_eq!(check(n, vec![]), Err(ErrorCode::MissingField));
    let mut n = patch("applied_clean");
    n.patch_bytes_size = Some(2);
    assert_eq!(check(n, vec![]), Err(ErrorCode::BadRequest));
    let mut n = patch("applied_clean");
    n.valid_time_source = None;
    assert_eq!(check(n, vec![]), Err(ErrorCode::BadRequest));
    assert_eq!(required_str(Some("x"), "f").map_err(|e| e.code), Ok("x"));
    assert_eq!(required_str(Some(""), "f").map_err(|e| e.code), Err(ErrorCode::MissingField));
}

// Liveness

#[test]
fn the_last_event_decides_what_is_live() {
    let records = vec![
        symbol(F, "c1", "2024-01-01T00:00:00Z", "a"),
        tombstone(F),
        symbol(F, "c2", "2024-01-02T00:00:00Z", "b"),
        tombstone("gone"),
        GraphRecord::Edge(edge("e", EdgeLabel::Calls, F, "g")),
    ];
    assert_eq!(find_last_event(&records, F), Some(2));
    assert!(!is_deleted(&records, F) && is_deleted(&records, "gone"));
    assert_eq!(find_live(&records, F).and_then(|n| n.signature.as_deref()), Some("b"));
    assert!(is_live_edge(&records, 4));
    assert_eq!(targets_of(&records, EdgeLabel::Calls, F).into_vec(), vec!["g"]);
    assert_eq!(live_ids_of_kind(&records, NodeKind::Symbol).into_vec(), vec![F]);
    assert!(find_live(&records[..2].to_vec(), F).is_none());
}

// Freshness

fn cited_at(commit: &str, records: Vec<GraphRecord>) -> Vec<(FreshnessVerdict, Option<TriggeringHandle>)> {
    let mut l = link(F, "OBSERVES", "0.9");
    l.as_of_commit = text(commit);
    let mut all = records;
    all.push(GraphRecord::Node(observation(O, vec![l])));
    evidence_link_freshness(&all, &RepositoryIndex::new())
        .into_iter()
        .map(|e| (e.verdict, e.triggering_handle))
        .collect()
}

#[test]
fn unchanged_evidence_is_current() {
    let found = cited_at("c1", vec![symbol(F, "c1", "2024-01-01T00:00:00Z", "fn f()")]);
    assert_eq!(found.len(), 1);
    assert_eq!(found[0].0, FreshnessVerdict::Current);
}

#[test]
fn changed_evidence_has_drifted() {
    let found = cited_at(
        "c1",
        vec![
            symbol(F, "c1", "2024-01-01T00:00:00Z", "fn f()"),
            symbol(F, "c2", "2024-02-01T00:00:00Z", "fn f(a)"),
        ],
    );
    assert_eq!(found[0].0, FreshnessVerdict::Drifted);
    assert!(matches!(found[0].1, Some(TriggeringHandle::ContentChange { .. })));
}

#[test]
fn removed_evidence_does_not_resolve() {
    let found = cited_at(
        "c1",
        vec![symbol(F, "c1", "2024-01-01T00:00:00Z", "fn f()"), tombstone(F)],
    );
    assert_eq!(found[0].0, FreshnessVerdict::Unresolved);
    let absent = cited_at("c1", vec![]);
    assert_eq!(absent[0].0, FreshnessVerdict::Unresolved);
    assert_eq!(FreshnessVerdict::Unresolved.as_str(), "unresolved");
    assert!(FreshnessVerdict::Unresolved.is_stale() && !FreshnessVerdict::Current.is_stale());
}

#[test]
fn verdicts_are_counted() {
    let mut l = link(F, "OBSERVES", "0.9");
    l.as_of_commit = text("c1");
    let records = vec![
        symbol(F, "c1", "2024-01-01T00:00:00Z", "fn f()"),
        GraphRecord::Node(observation(O, vec![l, link("codegraph:v3:no", "OBSERVES", "0.9")])),
    ];
    let entries = evidence_link_freshness(&records, &RepositoryIndex::new());
    let counts = verdict_counts(&entries);
    assert_eq!(
        counts.current + counts.drifted + counts.unresolved + counts.untemporal,
        entries.len()
    );
    assert!(stale_only(entries).iter().all(|e| e.verdict.is_stale()));
    assert!(!is_superseded(&records, O));
}

#[test]
fn recording_an_observation_again_changes_no_verdict() {
    let mut l = link(F, "OBSERVES", "0.9");
    l.as_of_commit = text("c1");
    let other = "agent_memory:v1:p";
    let mut records = vec![
        symbol(F, "c1", "2024-01-01T00:00:00Z", "fn f()"),
        GraphRecord::Node(observation(O, vec![l.copy(), link("codegraph:v3:no", "OBSERVES", "0.9")])),
        symbol(F, "c2", "2024-02-01T00:00:00Z", "fn f(a)"),
        GraphRecord::Node(observation(other, vec![l])),
    ];
    let owners = RepositoryIndex::new();
    let before = evidence_link_freshness(&records, &owners);
    assert_eq!(before.len(), 3);
    let again = records[1].copy();
    records.push(again);
    assert_eq!(evidence_link_freshness(&records, &owners), before);
    records.pop();
    records.push(tombstone(O));
    let left = evidence_link_freshness(&records, &owners);
    let others: Vec<_> = before.into_iter().filter(|e| e.observation_id != O).collect();
    assert_eq!(left, others);
    assert_eq!(left.len(), 1);
}

// Decisions

fn candidate(rule_kind: &str) -> GraphRecord {
    let mut n = blank("user_context:v1:c", NodeKind::PromoteCandidate, 1);
    n.user_context.proposed_rule_kind = text(rule_kind);
    n.user_context.proposed_rule_text = text("use tabs");
    n.user_context.scope = Some(UserContextScope {
        repo: text("r"),
        path_glob: None,
        language: None,
        lifecycle_phase: None,
    });
    GraphRecord::Node(n)
}

fn decision(outcome: &str) -> DecideRequest {
    DecideRequest {
        candidate_id: "user_context:v1:c".to_owned(),
        outcome: outcome.to_owned(),
        edited_rule_text: None,
        rationale: None,
        decided_by: "ada".to_owned(),
        prompt_surface: "cli".to_owned(),
        prompted_to: "ada".to_owned(),
        transaction_time: None,
    }
}

fn decide(records: &Vec<GraphRecord>, q: &DecideRequest) -> Result<Vec<GraphRecord>, String> {
    let texts = decision_texts(records, q)?;
    decide_candidate(records, q, "2024-01-01T00:00:00Z", &texts)
}

fn kinds(records: &[GraphRecord]) -> Vec<NodeKind> {
    records
        .iter()
        .filter_map(|r| match r {
            GraphRecord::Node(n) => Some(n.kind),
            _ => None,
        })
        .collect()
}

#[test]
fn only_approval_makes_a_rule() {
    let records = vec![candidate("preference")];
    let approved = decide(&records, &decision("approved")).unwrap_or_else(|e| panic!("{e}"));
    assert!(kinds(&approved).contains(&NodeKind::Preference));
    for outcome in ["rejected", "deferred", "expired"] {
        let made = decide(&records, &decision(outcome)).unwrap_or_else(|e| panic!("{e}"));
        assert!(!kinds(&made).contains(&NodeKind::Preference));
        assert!(!made.is_empty());
    }
}

#[test]
fn decisions_that_cannot_be_made_are_refused() {
    let records = vec![candidate("preference")];
    let refuse = |records: &Vec<GraphRecord>, q: &DecideRequest| match decide(records, q) {
        Err(e) => e,
        Ok(_) => panic!("decided"),
    };
    assert_eq!(
        refuse(&vec![], &decision("approved")),
        "PromoteCandidate 'user_context:v1:c' not found"
    );
    assert!(refuse(&records, &decision("maybe")).starts_with("Invalid outcome 'maybe'."));
    assert_eq!(
        refuse(&records, &decision("edited_then_approved")),
        "edited_rule_text is required when outcome is edited_then_approved"
    );
    assert_eq!(
        refuse(&vec![candidate("workflow_rule")], &decision("approved")),
        "Approved workflow_rule candidate must carry triggers and an action_summary"
    );
    assert_eq!(
        refuse(&vec![candidate("revocation")], &decision("approved")),
        "Revocation candidate does not specify target record to revoke"
    );
    assert_eq!(
        refuse(&vec![candidate("odd")], &decision("approved")),
        "Unsupported proposed rule kind 'odd'"
    );
}

#[test]
fn an_edited_rule_says_the_edited_text() {
    let mut q = decision("edited_then_approved");
    q.edited_rule_text = text("use spaces");
    let made = decide(&vec![candidate("preference")], &q).unwrap_or_else(|e| panic!("{e}"));
    assert!(made.iter().any(|r| matches!(
        r,
        GraphRecord::Node(n) if n.user_context.rule_text.as_deref() == Some("use spaces")
    )));
    let scope = UserContextScope {
        repo: text("r"),
        path_glob: None,
        language: text("rust"),
        lifecycle_phase: None,
    };
    let written = canonical_scope(&scope);
    assert!(written.contains('r') && written.contains("rust"));
}
