//! Whole answers, as they are told.

use egregore::coverage_query::{
    coverage_answer, CoverageCounts, CoverageEvidence, CoverageItem, CoverageReport, ScopeOutcome,
    UndocumentedCounts, UndocumentedItem, UndocumentedReport,
};
use egregore::freshness_query::{
    freshness_answer, CitationVerdict, FreshnessNote, VerificationFreshnessEntry,
};
use egregore::inventories::{
    inventory_answer, FoundSite, Inventory, SiteCounts, SiteLane, SiteScopeError,
};
use egregore::ir::{
    EdgeLabel, EdgeRecord, EmbeddingModel, GraphRecord, MetricKind, NodeKind, NodeRecord,
    SelectionBasis, SemanticDriftMetadata, SourceSpan,
};
use egregore::reach::{
    AuditDiagnostic, CorpusMode, HandleFailure, HandleKind, PathStep, ReachedRecord,
    ResolvedHandle, UnresolvedEdge, Verb,
};
use egregore::reach_report::{
    constructors_answer, reach_answer, ConstructionSite, Constructors, Corpus, CorpusModeSource,
    DroppedDepth, ReachFailure, Walk, WalkTruncation,
};
use egregore::repository::RepositoryIndex;
use egregore::subsystem::{
    subsystem_answer, FoundDrift, FoundSubsystem, LinkedRows, LogFrame, LogSignature,
    PrefixOutcome, UnresolvedLink,
};

fn text(s: &str) -> Option<String> {
    Some(s.to_owned())
}

fn lines_at(start: u64, end: u64) -> Option<SourceSpan> {
    Some(SourceSpan {
        start_byte: 0,
        end_byte: 1,
        start_line: start,
        end_line: end,
    })
}

fn node(id: &str, name: &str, path: &str, line: u64) -> GraphRecord {
    let mut n = NodeRecord::blank(id.to_owned(), NodeKind::Symbol, 3, "a node".to_owned());
    n.name = text(name);
    n.repo_relative_path = text(path);
    n.span = lines_at(line, line + 1);
    GraphRecord::Node(n)
}

fn read(mode: CorpusMode, source: CorpusModeSource) -> Corpus {
    Corpus {
        mode,
        source,
        disclaimer: "what was read".to_owned(),
    }
}

fn link(id: &str, source: &str, target: &str) -> GraphRecord {
    GraphRecord::Edge(EdgeRecord {
        rest: None,
        id: id.to_owned(),
        schema_version: 3,
        label: EdgeLabel::Calls,
        source: source.to_owned(),
        target: target.to_owned(),
        confidence: None,
        resolution: None,
        temporal: None,
        summary: "a call".to_owned(),
    })
}

fn resolved(kind: HandleKind, anchors: &[&str]) -> Result<ResolvedHandle, HandleFailure> {
    Ok(ResolvedHandle {
        kind,
        anchor_ids: anchors.iter().map(|s| (*s).to_owned()).collect(),
        stale: false,
        other_kind: None,
    })
}

fn note(code: &str) -> AuditDiagnostic {
    AuditDiagnostic {
        code: code.to_owned(),
        source_record_id: "s".to_owned(),
        target_handle: "t".to_owned(),
        relation: "r".to_owned(),
        target_domain: "d".to_owned(),
    }
}

fn walk(anchor: GraphRecord) -> Walk {
    Walk {
        anchor,
        max_depth: 2,
        rows: vec![
            ReachedRecord {
                record: node("c", "caller", "a.rs", 4),
                hop: 1,
                path_resolution: text("exact"),
                path: vec![PathStep {
                    source_record_id: "c".to_owned(),
                    edge_record_id: "e1".to_owned(),
                    edge_label: "CALLS".to_owned(),
                    resolution: None,
                    target_record_id: "t".to_owned(),
                }],
            },
            ReachedRecord {
                record: link("e9", "a", "b"),
                hop: 1,
                path_resolution: None,
                path: vec![],
            },
        ],
        unresolved: vec![],
        truncation: Some(WalkTruncation {
            max_depth: 2,
            dropped_frontier: vec![DroppedDepth { depth: 3, count: 5 }],
            dropped_total: 5,
        }),
        diagnostics: vec![note("b"), note("a"), note("b")],
    }
}

#[test]
fn what_reaches_a_symbol_is_answered() {
    let corpus = Some(read(CorpusMode::HeadAnchored, CorpusModeSource::Default));
    let report = match reach_answer(
        Verb::TransitiveCallers,
        "target",
        resolved(HandleKind::Symbol, &["t"]),
        Some(walk(node("t", "target", "t.rs", 1))),
        vec![note("c"), note("a")],
        None,
        text("2024-01-01T00:00:00Z"),
        corpus,
    ) {
        Ok(r) => r,
        Err(e) => panic!("{e:?}"),
    };
    assert_eq!(report.target.record_id, "t");
    assert_eq!(report.target.kind, "Symbol");
    assert_eq!(report.direction, "inbound");
    assert_eq!(report.edge_labels, vec!["CALLS", "REFERENCES"]);
    assert_eq!((report.total_reachable, report.total_unresolved), (1, 0));
    assert_eq!(report.as_of.as_deref(), Some("2024-01-01T00:00:00Z"));
    let codes: Vec<&str> = report.diagnostics.iter().map(|d| d.code.as_str()).collect();
    assert_eq!(codes, vec!["a", "b", "c"]);
    assert_eq!(report.corpus.as_ref().map(|c| c.disclaimer.as_str()), Some("what was read"));
    assert!(report.disclaimer.starts_with("Rows are reachability LEADS: a call path"));
    assert_eq!(
        report.lines(),
        vec![
            "transitive callers of target (t) max_depth=2 total=1 \u{2014} reachability leads, not proof of breakage",
            "caller a.rs:4 hop=1 via caller -CALLS-> target [resolution=exact]",
            "truncated at max_depth=2: 5 reachable node(s) beyond the bound",
        ]
    );
    assert_eq!(CorpusMode::SingleSnapshot.as_str(), "single_snapshot");
    assert_eq!(CorpusModeSource::ExplicitFlag.as_str(), "explicit_flag");
}

#[test]
fn what_a_symbol_reaches_is_answered() {
    let mut w = walk(node("t", "target", "t.rs", 1));
    w.rows[0].path[0].source_record_id = "t".to_owned();
    w.rows[0].path[0].target_record_id = "c".to_owned();
    w.truncation = None;
    w.unresolved.push(UnresolvedEdge {
        relation: "IMPORTS".to_owned(),
        reason: "external".to_owned(),
        marker: None,
        target_id: "ghost".to_owned(),
        source_id: "t".to_owned(),
        source_hop: 0,
        resolution: None,
        edge_id: "e2".to_owned(),
    });
    let report = match reach_answer(
        Verb::TransitiveCallees,
        "target",
        resolved(HandleKind::Symbol, &["t"]),
        Some(w),
        vec![],
        text("abc1"),
        None,
        None,
    ) {
        Ok(r) => r,
        Err(e) => panic!("{e:?}"),
    };
    assert_eq!(report.direction, "outbound");
    assert_eq!(report.edge_labels.len(), 4);
    assert_eq!(report.at_commit.as_deref(), Some("abc1"));
    assert_eq!(
        report.lines(),
        vec![
            "transitive callees of target (t) max_depth=2 total=1 unresolved=1 \u{2014} reachability leads, not proof of breakage",
            "caller a.rs:4 hop=1 via target -CALLS-> caller [resolution=exact]",
            "unresolved IMPORTS ghost (external)",
        ]
    );
}

#[test]
fn a_question_after_reach_is_refused_in_order() {
    let ask = |h: Result<ResolvedHandle, HandleFailure>, w: Option<Walk>| match reach_answer(
        Verb::TransitiveCallers,
        "target",
        h,
        w,
        vec![],
        None,
        None,
        None,
    ) {
        Ok(_) => panic!("answered"),
        Err(e) => (e.code(), e.exit_code(), e.message()),
    };
    assert_eq!(ask(Err(HandleFailure::NoMatch), None), (Some("no_match"), 2, None));
    let (code, exit, message) = ask(resolved(HandleKind::File, &["f"]), None);
    assert_eq!((code, exit), (Some("unsupported"), 1));
    assert!(message.unwrap_or_default().starts_with("handle resolved to a file; transitive-callers"));
    let (code, exit, _) = ask(resolved(HandleKind::Symbol, &["a", "b"]), None);
    assert_eq!((code, exit), (Some("ambiguous"), 1));
    assert_eq!(ask(resolved(HandleKind::Symbol, &["t"]), None).0, Some("no_match"));
    assert_eq!(
        ask(resolved(HandleKind::Symbol, &["t"]), Some(walk(link("e", "a", "b")))),
        (None, 1, text("resolved anchor is not a node record"))
    );
}

fn construction(is_exhaustive: Option<bool>) -> ConstructionSite {
    ConstructionSite {
        record_id: "m".to_owned(),
        schema_version: 3,
        name: text("make"),
        kind: "Symbol".to_owned(),
        repo_relative_path: text("a.rs"),
        span: lines_at(7, 8),
        edge_id: "e".to_owned(),
        is_exhaustive,
    }
}

#[test]
fn constructors_are_answered() {
    let ask = |handle: &str, sites: Option<Vec<ConstructionSite>>| {
        constructors_answer(
            handle,
            resolved(HandleKind::Symbol, &["w"]),
            sites.map(|sites| Constructors {
                anchor: node("w", "Widget", "w.rs", 1),
                sites,
            }),
            None,
            None,
            read(CorpusMode::Union, CorpusModeSource::ExplicitFlag),
        )
    };
    let failed = |r: Result<_, ReachFailure>| match r {
        Ok(_) => panic!("answered"),
        Err(e) => (e.code(), e.exit_code(), e.message().unwrap_or_default()),
    };
    assert_eq!(
        failed(ask(" \t", None).map(|_| ())),
        (
            Some("malformed_type_handle"),
            1,
            "type handle must be a non-empty type name or canonical record ID".to_owned()
        )
    );
    assert_eq!(failed(ask("Widget", None).map(|_| ())).0, Some("no_match"));
    assert_eq!(
        failed(ask("Widget", Some(vec![])).map(|_| ())),
        (
            Some("no_match"),
            2,
            "the type resolved but no live symbol constructs it".to_owned()
        )
    );
    let sites = vec![
        construction(Some(true)),
        construction(Some(false)),
        construction(None),
    ];
    let report = match ask("Widget", Some(sites)) {
        Ok(r) => r,
        Err(e) => panic!("{e:?}"),
    };
    let risks: Vec<bool> = report.rows.iter().map(|r| r.e0063_risk).collect();
    assert_eq!(risks, vec![true, false, true]);
    assert_eq!(report.total_constructors, 3);
    assert_eq!(report.edge_labels, vec!["CONSTRUCTS"]);
    assert_eq!(report.lines()[2], "  make a.rs:7  [fru_safe]");
}

// Freshness

fn citation(id: &str, verdict: CitationVerdict, target: &str) -> VerificationFreshnessEntry {
    VerificationFreshnessEntry {
        verification_record_id: id.to_owned(),
        verification_kind: "TestRun".to_owned(),
        status: None,
        verdict,
        relation: "TOUCHED_FILE".to_owned(),
        target_record_id: text(target),
        repo_relative_path: text("a.rs"),
    }
}

#[test]
fn freshness_is_answered_in_the_scope() {
    let records = vec![
        node("s1", "f", "src/a.rs", 1),
        node("s2", "g", "src/b.rs", 1),
        node("s3", "g", "lib/c.rs", 1),
    ];
    let live = vec!["s1".to_owned(), "s2".to_owned(), "s3".to_owned()];
    let es = vec![
        citation("v1", CitationVerdict::Stale, "s1"),
        citation("v2", CitationVerdict::Current, "s1"),
        citation("v3", CitationVerdict::Stale, "s2"),
    ];
    let index = RepositoryIndex::new();
    let ask = |scope: &str| {
        freshness_answer(&records, &index, None, &live, Some(scope), &es, true, 10, true)
    };
    match ask("f") {
        Ok(report) => assert_eq!(
            report.lines(),
            vec![
                "Verification-freshness verdicts (freshness leads only -- never a re-judgment of pass/fail).",
                "- v1 [TestRun] status=? verdict=stale <- TOUCHED_FILE(a.rs)",
                "counts: current=1 stale=1 unresolved=0 unanchored=0",
                "diagnostic: stale_verification_records_present: 1 stale/unresolved of 2 evaluated citation(s)",
            ]
        ),
        Err(e) => panic!("{e:?}"),
    }
    match ask("g") {
        Ok(_) => panic!("answered"),
        Err(e) => {
            assert_eq!((e.code, e.exit_code), ("ambiguous_scope", 1));
            assert_eq!(e.candidates, vec!["s2", "s3"]);
        }
    }
    match ask("no/where") {
        Ok(_) => panic!("answered"),
        Err(e) => {
            assert_eq!((e.code, e.exit_code), ("scope_not_found", 2));
            assert_eq!(
                e.message,
                "no code item in the selected store slice matches this scope handle"
            );
        }
    }
}

// Coverage

fn covered(verification: Vec<CoverageEvidence>) -> CoverageItem {
    CoverageItem {
        record_id: "s".to_owned(),
        kind: "fn".to_owned(),
        path: "m::f".to_owned(),
        repo_relative_path: text("a.rs"),
        span: lines_at(3, 5),
        schema_version: 3,
        valid_time: None,
        git_commit: None,
        verification,
    }
}

fn coverage(scope_outcome: ScopeOutcome, capability_present: bool) -> CoverageReport {
    CoverageReport {
        scope_outcome,
        capability_present,
        covered: vec![covered(vec![CoverageEvidence {
            record_id: "v".to_owned(),
            verification_kind: "TestRun".to_owned(),
            edge_label: "VALIDATED_BY".to_owned(),
            link_level: "symbol".to_owned(),
        }])],
        uncovered: vec![covered(vec![])],
        counts: CoverageCounts {
            symbols_in_scope: 2,
            covered: 1,
            uncovered: 1,
            verification_records_in_store: 4,
            verification_code_links_in_store: 3,
            covered_truncated: false,
            uncovered_truncated: false,
        },
        diagnostics: vec![FreshnessNote {
            code: "note".to_owned(),
            detail: "something".to_owned(),
        }],
    }
}

#[test]
fn coverage_is_answered() {
    match coverage_answer(coverage(ScopeOutcome::Matched, true)) {
        Ok(report) => assert_eq!(
            report.lines(),
            vec![
                "Verification coverage of the public API surface (recorded evidence only \u{2014} never proof of correctness). Capability: verification_links_recorded.",
                "covered:",
                "- m::f [fn] @ a.rs:3-5 via VALIDATED_BY(symbol) <- v [TestRun]",
                "uncovered:",
                "- m::f [fn] @ a.rs:3-5 (s)",
                "counts: symbols_in_scope=2 covered=1 uncovered=1 verification_records_in_store=4 verification_code_links_in_store=3",
                "diagnostic: note: something",
            ]
        ),
        Err(e) => panic!("{e:?}"),
    }
    let bare = coverage(ScopeOutcome::NoScope, false).lines();
    assert!(bare[1].starts_with("# capability verification_facts_unavailable: no verification\u{2192}code links recorded;"));
    match coverage_answer(coverage(ScopeOutcome::NotFoundPath, true)) {
        Ok(_) => panic!("answered"),
        Err(e) => assert_eq!((e.code, e.exit_code), ("scope_not_found", 2)),
    }
}

#[test]
fn undocumented_symbols_are_answered() {
    let report = UndocumentedReport {
        capability_absent: false,
        items: vec![UndocumentedItem {
            record_id: "s".to_owned(),
            kind: "fn".to_owned(),
            path: "m::f".to_owned(),
            visibility: "public".to_owned(),
            repo_relative_path: text("a.rs"),
            span: None,
            signature: None,
            evidence: vec!["doc_comment_absent".to_owned(), "externally_reachable".to_owned()],
            via_reexport: true,
            target: text("m::g"),
            target_record_id: None,
        }],
        counts: UndocumentedCounts {
            considered: 7,
            documented: 6,
            undocumented: 1,
            reexports: 1,
            modules_excluded: 0,
            reexports_unresolved: 0,
            doc_capture_missing: 0,
        },
        diagnostics: vec![],
        corpus: read(CorpusMode::HeadAnchored, CorpusModeSource::Default),
    };
    assert_eq!(
        report.lines(),
        vec![
            "Undocumented public API symbols (doc-comment presence only \u{2014} never doc quality). Capability: doc_facts_recorded.",
            "- m::f [fn] public via pub use m::g @ a.rs evidence=doc_comment_absent,externally_reachable (s)",
            "counts: considered=7 documented=6 undocumented=1 reexports=1 modules_excluded=0 reexports_unresolved=0 doc_capture_missing=0",
            "corpus: head_anchored",
        ]
    );
}

// Inventories

#[test]
fn inventories_are_answered() {
    let index = RepositoryIndex::new();
    let ask = |lane: SiteLane, found: Result<Inventory, SiteScopeError>| {
        let corpus = read(CorpusMode::CommitPinned, CorpusModeSource::Selector);
        inventory_answer(lane, text("src"), found, &index, corpus)
    };
    let one = Inventory {
        sites: vec![FoundSite {
            record: node("u", "site", "src/a.rs", 8),
            category: "block".to_owned(),
            context: None,
            enclosing_symbol: None,
        }],
        at_commit: text("abc1"),
    };
    match ask(SiteLane::UnsafeSites, Ok(one)) {
        Ok(r) => {
            assert_eq!(r.lane.as_str(), "unsafe_sites");
            assert_eq!(r.categories, vec!["block", "fn", "impl"]);
            assert_eq!(r.at_commit.as_deref(), Some("abc1"));
            assert_eq!((r.returned, r.empty_reason), (1, None));
            assert_eq!(r.sites[0].trust, "source_fact");
            assert_eq!(r.corpus, read(CorpusMode::CommitPinned, CorpusModeSource::Selector));
            assert!(matches!(r.counts, SiteCounts::Unsafe(c) if c.total == 1 && c.block == 1));
            assert_eq!(r.lines(), vec!["unsafe block @ src/a.rs:8 in (top-level)"]);
        }
        Err(e) => panic!("{e:?}"),
    }
    let nothing = Inventory {
        sites: vec![],
        at_commit: None,
    };
    match ask(SiteLane::UnwrapExpect, Ok(nothing)) {
        Ok(r) => {
            assert_eq!(r.empty_reason, Some("no_sites_in_scope"));
            assert!(r.disclaimer.contains("panic-risk triage leads"));
            assert_eq!(
                r.lines(),
                vec!["# no_sites_in_scope: scope contains zero unwrap/expect sites"]
            );
        }
        Err(e) => panic!("{e:?}"),
    }
    match ask(
        SiteLane::UnwrapExpect,
        Err(SiteScopeError::AmbiguousCommit("ab".to_owned(), 2)),
    ) {
        Ok(_) => panic!("answered"),
        Err(e) => assert_eq!(e.message, "commit prefix `ab` matches 2 commits"),
    }
}

// Subsystems

#[test]
fn subsystems_are_answered() {
    let mut moved = NodeRecord::blank("d".to_owned(), NodeKind::SemanticDrift, 3, "d".to_owned());
    moved.semantic_drift = Some(SemanticDriftMetadata {
        embedding_model: EmbeddingModel {
            provider: "p".to_owned(),
            name: "m".to_owned(),
            version: "1".to_owned(),
            dim: 384,
            content_hash: "h".to_owned(),
        },
        target_record_id: "s".to_owned(),
        prior_record_id: "s".to_owned(),
        before_git_commit: "c1".to_owned(),
        after_git_commit: "c2".to_owned(),
        before_valid_time: "t".to_owned(),
        after_valid_time: "u".to_owned(),
        metric_kind: MetricKind::CosineDistance,
        score: "0.4".to_owned(),
        selection_threshold: "0.2".to_owned(),
        selection_basis: SelectionBasis::ThresholdOnly,
    });
    let drifted = GraphRecord::Node(moved);
    let found = || FoundSubsystem {
        prefix: "src".to_owned(),
        topology_edges: vec![link("e", "a", "b"), node("s", "f", "a.rs", 1)],
        semantic_drift: vec![
            FoundDrift {
                record: node("s", "f", "a.rs", 1),
                trust: "source_derived".to_owned(),
                path: None,
                span: None,
            },
            FoundDrift {
                record: drifted.copy(),
                trust: "source_derived".to_owned(),
                path: text("a.rs"),
                span: None,
            },
        ],
        unresolved: vec![UnresolvedLink {
            source_record_id: "o".to_owned(),
            target_handle: "ghost".to_owned(),
            relation: "OBSERVES".to_owned(),
            target_domain: "codegraph".to_owned(),
        }],
        linked: LinkedRows {
            source_facts: vec!["fact"],
            observations: vec!["seen", "noted"],
            project_state: vec![],
            artifacts: vec![],
            verification_evidence: vec!["run"],
            excluded: vec!["old"],
        },
        log_signatures: vec![LogSignature {
            record_id: "g".to_owned(),
            schema_version: 1,
            severity: text("error"),
            occurrence_count: 2,
            template_excerpt: "boom".to_owned(),
            first_seen: String::new(),
            last_seen: "2024".to_owned(),
            in_prefix_frames: vec![LogFrame {
                frame_index: 4,
                frame_resolution: "exact".to_owned(),
                target_repo_relative_path: text("src/a.rs"),
                target_span: None,
            }],
        }],
    };
    let ask = |o: PrefixOutcome| {
        let corpus = read(CorpusMode::Union, CorpusModeSource::ExplicitFlag);
        subsystem_answer(o, "src/", &vec![], &vec![], found(), corpus)
    };
    match ask(PrefixOutcome::Found) {
        Ok(r) => {
            assert_eq!(r.prefix, "src");
            assert_eq!(r.topology_edges.len(), 1);
            assert_eq!(r.topology_edges[0].label, "CALLS");
            assert_eq!(r.semantic_drift.len(), 1);
            assert_eq!(r.semantic_drift[0].trust_class, "source_fact");
            assert_eq!(r.log_signatures[0].kind, "ErrorSignature");
            assert_eq!(r.log_signatures[0].trust_class, "runtime_observation");
            assert_eq!(r.log_signatures[0].first_seen_valid_time, None);
            assert_eq!(r.unresolved[0].target_handle, "ghost");
            assert_eq!(r.unresolved[0].verification_status, "unresolved");
            assert_eq!(r.linked.observations, vec!["seen", "noted"]);
            assert_eq!(r.linked.excluded, vec!["old"]);
            assert_eq!(r.corpus.mode, CorpusMode::Union);
            assert_eq!(r.log_signatures[0].resolved_frames[0].frame_index, 4);
            assert_eq!(r.log_signatures[0].trust, "source_derived");
        }
        Err(e) => panic!("{e:?}"),
    }
    match ask(PrefixOutcome::NoMatch) {
        Ok(_) => panic!("answered"),
        Err(e) => assert_eq!((e.code, e.prefix.as_str(), e.exit_code), ("no_match", "src/", 2)),
    }
    match ask(PrefixOutcome::Malformed("//".to_owned())) {
        Ok(_) => panic!("answered"),
        Err(e) => assert_eq!((e.code, e.prefix.as_str(), e.exit_code), ("malformed_prefix", "//", 1)),
    }
}
