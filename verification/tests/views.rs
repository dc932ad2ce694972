//! Questions to the graph and what is told in answer.

use egregore::commit_view::{
    commit_records, drop_records, record_in_scope, resolve_transitive_commit_view, CommitSelector,
    CommitViewError,
};
use egregore::coverage_query::{
    citation, covered_report, covered_text, doc_capability_name, scope_outcome_code,
    uncovered_text, undocumented_text, verification_capability_name,
    verification_coverage_snapshot_at_commit, CoverageEvidence, CoverageItem, ScopeOutcome,
    SnapshotError, UndocumentedItem,
};
use egregore::embeddings::{
    candidate_from_record, drift_pair_records, drift_pairs, drift_records, embedding_candidates,
    DriftBasis, EmbeddingVectorKey, ScoredPair,
};
use egregore::freshness_query::{
    citation_text, counts_text, freshness_report, path_is_under_prefix, resolve_scope,
    scope_error, stale_only, verdict_counts, CitationVerdict, ScopeResolution,
    VerificationFreshnessEntry,
};
use egregore::history::{all_tips, descendants_of, has_ancestry, is_parent_in, tips_for, tips_of};
use egregore::inventories::{
    count_panics, count_unsafe, inventory_text, report_scope_error, site_rows, FoundSite, SiteLane,
    SiteScopeError,
};
use egregore::ir::{
    EdgeLabel, EdgeRecord, EmbeddingModel, GraphRecord, MetricKind, NodeKind, NodeRecord,
    SelectionBasis, SemanticDriftMetadata, SourceSpan, TemporalMetadata, TombstoneRecord,
};
use egregore::maintenance::{
    check_watch, validation_exit, validation_text, watch_dir, watch_warning, ValidationCounts,
    WatchDir,
};
use egregore::queries::{
    check_commit_prefix, drift_node_to_row, records_known_by, symbol_found,
};
use egregore::reach::{
    breaks_on_new_field, callees_mode, check_target, check_type_handle, constructors_text,
    narrow_callees, narrow_records, report_text, sort_diagnostics, transitive_callee_unresolved_rows, transitive_rows,
    AuditDiagnostic, ConstructorRow, CorpusMode, HandleFailure, HandleKind, PathStep,
    ReachedRecord, ResolvedHandle, Truncation, UnresolvedEdge, Verb,
};
use egregore::repository::RepositoryIndex;
use egregore::subsystem::{
    make_drift_row, make_signature_row, prefix_error, topology_rows, FoundDrift, LogSignature,
    PrefixOutcome,
};
use egregore::symbol_results::{
    pick_at_commit, query_symbol_all, query_symbols_matching, Pick, WhoResult,
};

fn text(s: &str) -> Option<String> {
    Some(s.to_owned())
}

fn span(start: u64, end: u64) -> Option<SourceSpan> {
    Some(SourceSpan {
        start_byte: 0,
        end_byte: 9,
        start_line: start,
        end_line: end,
    })
}

fn at(commit: &str, parents: &[&str], time: &str) -> Option<TemporalMetadata> {
    Some(TemporalMetadata {
        git_commit: commit.to_owned(),
        git_parent_commits: parents.iter().map(|s| (*s).to_owned()).collect(),
        valid_time: time.to_owned(),
        observed_at: time.to_owned(),
        author_time: None,
        valid_time_source: None,
    })
}

fn blank(id: &str, kind: NodeKind, name: &str) -> NodeRecord {
    let mut n = NodeRecord::blank(id.to_owned(), kind, 3, "a node".to_owned());
    n.name = text(name);
    n
}

fn symbol(id: &str, name: &str, path: &str, line: u64, commit: &str) -> GraphRecord {
    let mut n = blank(id, NodeKind::Symbol, name);
    n.repo_relative_path = text(path);
    n.span = span(line, line + 2);
    if !commit.is_empty() {
        n.temporal = at(commit, &[], "2024-01-01T00:00:00Z");
    }
    GraphRecord::Node(n)
}

fn commit(sha: &str, parents: &[&str], time: &str) -> GraphRecord {
    let mut n = blank(&format!("codegraph:v3:commit-{sha}"), NodeKind::Commit, sha);
    n.temporal = at(sha, parents, time);
    GraphRecord::Node(n)
}

fn edge(id: &str, label: EdgeLabel, source: &str, target: &str) -> GraphRecord {
    GraphRecord::Edge(EdgeRecord {
        rest: None,
        id: id.to_owned(),
        schema_version: 3,
        label,
        source: source.to_owned(),
        target: target.to_owned(),
        confidence: None,
        resolution: None,
        temporal: None,
        summary: "an edge".to_owned(),
    })
}

fn history() -> Vec<GraphRecord> {
    vec![
        commit("abc1", &[], "2024-01-01T00:00:00Z"),
        commit("abd2", &["abc1"], "2024-01-02T00:00:00Z"),
        commit("fff3", &["abd2"], "2024-01-03T00:00:00Z"),
    ]
}

fn ids(records: &[GraphRecord]) -> Vec<&str> {
    records.iter().map(|r| r.id()).collect()
}

// Commits

#[test]
fn a_commit_is_selected_by_prefix_in_any_case() {
    let index = RepositoryIndex::new();
    let select = |s: CommitSelector| resolve_transitive_commit_view(&history(), &index, None, s);
    assert_eq!(select(CommitSelector::At("FFF")), Ok("fff3".to_owned()));
    assert_eq!(select(CommitSelector::At("abc1")), Ok("abc1".to_owned()));
    assert_eq!(select(CommitSelector::At("e")), Err(CommitViewError::MissingCommit));
    assert_eq!(
        select(CommitSelector::At("ab")),
        Err(CommitViewError::AmbiguousPrefix(vec![
            "abc1".to_owned(),
            "abd2".to_owned()
        ]))
    );
}

#[test]
fn a_commit_is_selected_by_time() {
    let index = RepositoryIndex::new();
    let select = |t: &str| {
        resolve_transitive_commit_view(&history(), &index, None, CommitSelector::AsOf(t))
    };
    assert_eq!(select("2024-01-02T12:00:00Z"), Ok("abd2".to_owned()));
    assert_eq!(select("2030-01-01T00:00:00Z"), Ok("fff3".to_owned()));
    assert_eq!(select("2000-01-01T00:00:00Z"), Err(CommitViewError::NoCommitAtOrBefore));
    assert_eq!(select("now"), Err(CommitViewError::InvalidAsOf));
    let nothing = resolve_transitive_commit_view(
        &Vec::new(),
        &index,
        None,
        CommitSelector::At("a"),
    );
    assert_eq!(nothing, Err(CommitViewError::EmptyHistory));
    assert_eq!(CommitViewError::EmptyHistory.code(), "empty_history");
    assert_eq!(CommitViewError::InvalidAsOf.exit_code(), 1);
}

#[test]
fn a_state_holds_one_commit() {
    let records = vec![
        symbol("s1", "f", "a.rs", 1, "c1"),
        symbol("s2", "f", "a.rs", 1, "c2"),
        symbol("s3", "g", "b.rs", 1, ""),
    ];
    assert!(ids(&commit_records(&records, "c1")).contains(&"s1"));
    assert!(!ids(&commit_records(&records, "c1")).contains(&"s2"));
    assert_eq!(ids(&drop_records(&records, &vec!["s1".to_owned()])), vec!["s2", "s3"]);
    let index = RepositoryIndex::new().attribute("s1", "r");
    assert!(record_in_scope(&index, None, "s2"));
    assert!(record_in_scope(&index, Some("r"), "s1"));
    assert!(!record_in_scope(&index, Some("r"), "s2"));
}

#[test]
fn history_runs_from_parents_to_children() {
    let index = RepositoryIndex::new();
    let records = history();
    assert_eq!(all_tips(&records, &index).into_vec(), vec!["fff3"]);
    assert_eq!(tips_of(&records, &index, None).into_vec(), vec!["fff3"]);
    assert_eq!(tips_for(&records, &index, "x").into_vec(), vec!["fff3"]);
    assert!(is_parent_in(&records, &index, None, "abc1"));
    assert!(!is_parent_in(&records, &index, None, "fff3"));
    assert!(has_ancestry(&records, "abd2"));
    let below = descendants_of(&records, "abc1").into_vec();
    assert!(below.contains(&"abd2".to_owned()) && below.contains(&"fff3".to_owned()));
    assert!(!descendants_of(&records, "fff3").into_vec().contains(&"abc1".to_owned()));
}

#[test]
fn an_ambiguous_commit_prefix_is_refused() {
    let records = vec![
        symbol("s1", "f", "a.rs", 1, "abc1"),
        symbol("s2", "f", "a.rs", 1, "abd2"),
    ];
    assert!(check_commit_prefix(&records, "abc").is_ok());
    assert_eq!(
        check_commit_prefix(&records, "ab").map_err(|e| e.message),
        Err("ambiguous commit prefix 'ab' matches 2 distinct commits".to_owned())
    );
}

// Reach

fn handle(kind: HandleKind, anchors: &[&str], stale: bool) -> ResolvedHandle {
    ResolvedHandle {
        kind,
        anchor_ids: anchors.iter().map(|s| (*s).to_owned()).collect(),
        stale,
        other_kind: None,
    }
}

#[test]
fn only_one_symbol_is_asked_about() {
    let ask = |h: ResolvedHandle| check_target(Verb::TransitiveCallers, &h);
    assert_eq!(ask(handle(HandleKind::Symbol, &["s"], false)), Ok("s".to_owned()));
    assert_eq!(ask(handle(HandleKind::Symbol, &[], false)), Err(HandleFailure::NoMatch));
    assert_eq!(
        ask(handle(HandleKind::Symbol, &["a", "b"], false)),
        Err(HandleFailure::Ambiguous(vec!["a".to_owned(), "b".to_owned()]))
    );
    assert!(matches!(
        ask(handle(HandleKind::File, &["f"], false)),
        Err(HandleFailure::Unsupported(_))
    ));
    assert_eq!(
        ask(handle(HandleKind::Symbol, &[], true)),
        Err(HandleFailure::StaleHandle)
    );
    assert!(check_type_handle("Widget").is_ok());
    assert!(check_type_handle("").is_err());
    assert_ne!(HandleFailure::NoMatch.code(), HandleFailure::Malformed.code());
}

#[test]
fn what_reaches_a_symbol_is_told_line_by_line() {
    let reached = vec![
        ReachedRecord {
            record: symbol("s1", "caller", "a.rs", 4, "c1"),
            hop: 1,
            path_resolution: text("exact"),
            path: vec![PathStep {
                source_record_id: "s1".to_owned(),
                edge_record_id: "e1".to_owned(),
                edge_label: "CALLS".to_owned(),
                resolution: None,
                target_record_id: "t".to_owned(),
            }],
        },
        ReachedRecord {
            record: edge("e", EdgeLabel::Calls, "a", "b"),
            hop: 1,
            path_resolution: None,
            path: vec![],
        },
    ];
    let rows = transitive_rows(&reached);
    assert_eq!(rows.len(), 1);
    assert_eq!((rows[0].record_id.as_str(), rows[0].hop), ("s1", 1));
    let name = text("target");
    let lines = report_text(
        Verb::TransitiveCallers,
        "t",
        &name,
        3,
        &rows,
        &Vec::new(),
        Some(Truncation {
            max_depth: 3,
            dropped_total: 2,
        }),
    );
    assert_eq!(
        lines[0],
        "transitive callers of target (t) max_depth=3 total=1 \u{2014} reachability leads, not proof of breakage"
    );
    assert!(lines[1].contains("caller") && lines[1].contains("a.rs:4"), "{}", lines[1]);
    assert_eq!(
        lines[2],
        "truncated at max_depth=3: 2 reachable node(s) beyond the bound"
    );
}

#[test]
fn unresolved_ends_are_told() {
    let edges = vec![UnresolvedEdge {
        relation: "CALLS".to_owned(),
        reason: "external".to_owned(),
        marker: None,
        target_id: "ghost".to_owned(),
        source_id: "s".to_owned(),
        source_hop: 0,
        resolution: None,
        edge_id: "e".to_owned(),
    }];
    let rows = transitive_callee_unresolved_rows(&edges);
    let name = None;
    let lines = report_text(Verb::TransitiveCallees, "s", &name, 1, &Vec::new(), &rows, None);
    assert!(lines[0].contains(" total=0 unresolved=1 "), "{}", lines[0]);
    assert_eq!(lines[1], "unresolved CALLS ghost (external)");
}

#[test]
fn diagnostics_are_sorted_and_told_once() {
    let d = |code: &str, source: &str| AuditDiagnostic {
        code: code.to_owned(),
        source_record_id: source.to_owned(),
        target_handle: "t".to_owned(),
        relation: "r".to_owned(),
        target_domain: "d".to_owned(),
    };
    let sorted = sort_diagnostics(vec![d("b", "1"), d("a", "2"), d("b", "1"), d("a", "1")]);
    let codes: Vec<(&str, &str)> = sorted
        .iter()
        .map(|x| (x.code.as_str(), x.source_record_id.as_str()))
        .collect();
    assert_eq!(codes, vec![("a", "1"), ("a", "2"), ("b", "1")]);
}

#[test]
fn constructors_are_told_with_their_risk() {
    let rows = vec![ConstructorRow {
        record_id: "m".to_owned(),
        schema_version: 3,
        name: text("make"),
        kind: "Symbol".to_owned(),
        repo_relative_path: text("a.rs"),
        span: span(7, 9),
        edge_record_id: "e".to_owned(),
        e0063_risk: true,
        is_exhaustive: None,
    }];
    let name = text("Widget");
    let lines = constructors_text("w", &name, &rows);
    assert_eq!(
        lines[0],
        "constructors of Widget (w): 1 \u{2014} construction-site leads, not proof a field addition breaks"
    );
    assert_eq!(lines[1], "  make a.rs:7  [e0063_risk]");
    assert!(breaks_on_new_field(Some(true)));
    assert!(!breaks_on_new_field(Some(false)));
}

#[test]
fn the_corpus_is_narrowed_by_its_mode() {
    let mut records = history();
    records.push(symbol("s1", "f", "a.rs", 1, "abc1"));
    records.push(symbol("s2", "f", "a.rs", 1, "fff3"));
    let index = RepositoryIndex::new();
    let stale = vec!["s1".to_owned()];
    let narrow = |mode, selector| narrow_records(&records, mode, &index, None, selector, &stale);
    let (sha, kept) = narrow(CorpusMode::CommitPinned, Some(CommitSelector::At("abc1")))
        .unwrap_or_else(|e| panic!("{}", e.code()));
    assert_eq!(sha.as_deref(), Some("abc1"));
    assert!(ids(&kept).contains(&"s1") && !ids(&kept).contains(&"s2"));
    let (_, kept) = narrow(CorpusMode::HeadAnchored, None).unwrap_or_else(|e| panic!("{}", e.code()));
    assert!(!ids(&kept).contains(&"s1") && ids(&kept).contains(&"s2"));
    let (_, kept) = narrow(CorpusMode::Union, None).unwrap_or_else(|e| panic!("{}", e.code()));
    assert_eq!(kept.len(), records.len());
}

#[test]
fn callees_are_asked_of_one_commit_or_of_all_records() {
    assert_eq!(callees_mode(true), CorpusMode::CommitPinned);
    assert_eq!(callees_mode(false), CorpusMode::Union);
    let mut records = history();
    records.push(symbol("s1", "f", "a.rs", 1, "abc1"));
    records.push(symbol("s2", "f", "a.rs", 1, "fff3"));
    let index = RepositoryIndex::new();
    let narrow = |selector| {
        narrow_callees(&records, &index, None, selector).unwrap_or_else(|e| panic!("{}", e.code()))
    };
    let (sha, kept) = narrow(Some(CommitSelector::At("abc1")));
    assert_eq!(sha.as_deref(), Some("abc1"));
    assert!(ids(&kept).contains(&"s1") && !ids(&kept).contains(&"s2"));
    let (sha, kept) = narrow(None);
    assert_eq!((sha, kept.len()), (None, records.len()));
}

// Freshness of verification

fn cited(id: &str, verdict: CitationVerdict, path: &str) -> VerificationFreshnessEntry {
    VerificationFreshnessEntry {
        verification_record_id: id.to_owned(),
        verification_kind: "TestRun".to_owned(),
        status: text("pass"),
        verdict,
        relation: "MENTIONS_SYMBOL".to_owned(),
        target_record_id: text("s1"),
        repo_relative_path: text(path),
    }
}

#[test]
fn citations_are_counted_and_told() {
    let es = vec![
        cited("v1", CitationVerdict::Current, "a.rs"),
        cited("v2", CitationVerdict::Stale, "a.rs"),
        cited("v3", CitationVerdict::Unresolved, "b.rs"),
        cited("v4", CitationVerdict::Unanchored, "b.rs"),
    ];
    let counts = verdict_counts(&es);
    assert_eq!(
        counts_text(counts),
        "counts: current=1 stale=1 unresolved=1 unanchored=1"
    );
    assert_eq!(
        citation_text(&es[1]),
        "- v2 [TestRun] status=pass verdict=stale <- MENTIONS_SYMBOL(a.rs)"
    );
    let index = RepositoryIndex::new();
    let report = freshness_report(&es, &index, None, &ScopeResolution::All, true, 1, true);
    assert!(report.truncated);
    assert_eq!(report.verdicts.len(), 1);
    assert_eq!(report.notes[0].code, "results_truncated");
    let bare = freshness_report(&Vec::new(), &index, None, &ScopeResolution::All, false, 9, false);
    assert_eq!(bare.notes[0].code, "no_verification_records");
    let kept = stale_only(es);
    assert!(kept.iter().all(|e| e.verdict != CitationVerdict::Current));
}

#[test]
fn scopes_are_resolved_by_identifier_name_or_path() {
    let records = vec![
        symbol("s1", "f", "src/a.rs", 1, ""),
        symbol("s2", "g", "src/b.rs", 1, ""),
        symbol("s3", "g", "lib/c.rs", 1, ""),
    ];
    let index = RepositoryIndex::new();
    let live = vec!["s1".to_owned(), "s2".to_owned(), "s3".to_owned()];
    let resolve = |s: Option<&str>| resolve_scope(&records, &index, None, &live, s);
    assert_eq!(resolve(None), ScopeResolution::All);
    assert!(matches!(resolve(Some("s1")), ScopeResolution::Matched { ids, .. } if ids == ["s1"]));
    assert!(matches!(resolve(Some("f")), ScopeResolution::Matched { ids, .. } if ids == ["s1"]));
    assert!(matches!(resolve(Some("g")), ScopeResolution::Ambiguous { candidates } if candidates.len() == 2));
    assert!(matches!(resolve(Some("src")), ScopeResolution::Matched { path_prefix: Some(p), .. } if p == "src"));
    assert_eq!(scope_error(&resolve(Some("x/y"))), Some(("scope_not_found", 2)));
    assert_eq!(scope_error(&resolve(Some("zzz"))), Some(("no_match", 2)));
    assert_eq!(scope_error(&resolve(Some("g"))), Some(("ambiguous_scope", 1)));
    assert_eq!(scope_error(&resolve(None)), None);
    assert!(path_is_under_prefix("src/a.rs", "src/"));
    assert!(!path_is_under_prefix("srcs/a.rs", "src"));
}

// Coverage

#[test]
fn a_snapshot_is_of_one_commit() {
    let records = || {
        vec![
            symbol("s1", "f", "a.rs", 1, "abc1"),
            symbol("s2", "f", "a.rs", 1, "abd2"),
            symbol("s3", "f", "a.rs", 1, ""),
        ]
    };
    let index = RepositoryIndex::new();
    let snapshot = |s: &str| verification_coverage_snapshot_at_commit(records(), s, &index, None);
    match snapshot("abc") {
        Ok(kept) => assert_eq!(ids(&kept), vec!["s1", "s3"]),
        Err(e) => panic!("{}", e.code()),
    }
    assert_eq!(snapshot("ab").map(|k| k.len()), Err(SnapshotError::AmbiguousCommit(2)));
    assert_eq!(snapshot("e").map(|k| k.len()), Err(SnapshotError::UnknownCommit));
    assert_eq!(SnapshotError::UnknownCommit.code(), "unknown_commit");
}

#[test]
fn coverage_is_told_line_by_line() {
    let evidence = CoverageEvidence {
        record_id: "v".to_owned(),
        verification_kind: "TestRun".to_owned(),
        edge_label: "VALIDATED_BY".to_owned(),
        link_level: "symbol".to_owned(),
    };
    let item = CoverageItem {
        record_id: "s".to_owned(),
        kind: "fn".to_owned(),
        path: "m::f".to_owned(),
        repo_relative_path: text("a.rs"),
        span: span(3, 5),
        schema_version: 3,
        valid_time: None,
        git_commit: None,
        verification: vec![evidence.clone(), evidence.clone()],
    };
    assert_eq!(
        covered_text(&item, &evidence),
        "- m::f [fn] @ a.rs:3-5 via VALIDATED_BY(symbol) <- v [TestRun]"
    );
    assert_eq!(uncovered_text(&item), "- m::f [fn] @ a.rs:3-5 (s)");
    assert_eq!(covered_report(&vec![item]).len(), 2);
    assert_eq!(citation(&text("a.rs"), &None), " @ a.rs");
    assert_eq!(citation(&None, &span(1, 2)), "");
    assert_eq!(verification_capability_name(false), "verification_facts_unavailable");
    assert_eq!(doc_capability_name(true), "doc_facts_unavailable");
    assert_eq!(scope_outcome_code(ScopeOutcome::Matched), None);
    assert!(scope_outcome_code(ScopeOutcome::NoMatch).is_some());
    let bare = UndocumentedItem {
        record_id: "s".to_owned(),
        kind: "fn".to_owned(),
        path: "m::f".to_owned(),
        visibility: "pub".to_owned(),
        repo_relative_path: None,
        span: None,
        signature: None,
        evidence: vec![],
        via_reexport: false,
        target: None,
        target_record_id: None,
    };
    assert!(undocumented_text(&bare).contains("m::f"));
}

// Inventories

fn site(id: &str, category: &str, context: Option<&str>) -> FoundSite {
    FoundSite {
        record: symbol(id, "site", "a.rs", 8, ""),
        category: category.to_owned(),
        context: context.map(str::to_owned),
        enclosing_symbol: Some(symbol("outer", "run", "a.rs", 1, "")),
    }
}

#[test]
fn sites_are_counted_by_kind() {
    let index = RepositoryIndex::new().attribute("u1", "r").name_repository("r", "the repo");
    let unsafe_sites = vec![site("u1", "block", None), site("u2", "fn", None), site("u3", "impl", None)];
    let rows = site_rows(SiteLane::UnsafeSites, &unsafe_sites, &index);
    let c = count_unsafe(&rows);
    assert_eq!((c.total, c.block, c.function, c.implementation), (3, 1, 1, 1));
    assert_eq!(rows[0].repository.as_deref(), Some("the repo"));
    let panics = vec![
        site("p1", "unwrap", Some("production")),
        site("p2", "expect", Some("test")),
    ];
    let rows = site_rows(SiteLane::UnwrapExpect, &panics, &index);
    let c = count_panics(&rows);
    assert_eq!((c.total, c.unwrap, c.expect, c.production, c.test), (2, 1, 1, 1, 1));
    let lines = inventory_text(SiteLane::UnwrapExpect, &rows);
    assert!(lines.iter().any(|l| l.contains(" @ a.rs:8 in run")), "{lines:?}");
}

#[test]
fn scopes_without_an_answer_are_told() {
    let code = |e: SiteScopeError| {
        let r = report_scope_error(&e);
        (r.code, r.selector, r.exit_code)
    };
    assert_eq!(
        code(SiteScopeError::MalformedPrefix("/".to_owned())),
        ("malformed_prefix".to_owned(), "prefix".to_owned(), 1)
    );
    assert_eq!(code(SiteScopeError::ScopeNotFound("x".to_owned())).2, 2);
    assert_eq!(code(SiteScopeError::UnknownCommit("x".to_owned())).0, "unknown_commit");
    assert_eq!(
        code(SiteScopeError::AmbiguousCommit("x".to_owned(), 2)).0,
        "ambiguous_commit"
    );
}

// Symbols

#[test]
fn symbols_are_found_by_name() {
    let records = vec![
        symbol("s1", "f", "b.rs", 1, ""),
        symbol("s2", "f", "a.rs", 1, ""),
        symbol("s3", "g", "a.rs", 9, ""),
        symbol("s4", "f", "c.rs", 1, ""),
    ];
    let index = RepositoryIndex::new();
    let table = vec![("a.rs".to_owned(), "partial".to_owned())];
    let deleted = vec!["s4".to_owned()];
    let found = query_symbol_all(&records, "f", &deleted, &index, None, &table);
    assert!(found.iter().all(|r| r.name == "f" && r.record_id != "s4"));
    assert_eq!(found.len(), 2);
    let partial: Vec<&str> = found
        .iter()
        .filter(|r| r.extraction_completeness == "partial")
        .map(|r| r.record_id.as_str())
        .collect();
    assert_eq!(partial, vec!["s2"]);
    let names = vec!["f".to_owned(), "g".to_owned()];
    let all = query_symbols_matching(&records, &names, &deleted, &index, None, &table);
    assert_eq!(all.len(), 3);
    assert!(found[0].as_text().starts_with('f'), "{}", found[0].as_text());
}

#[test]
fn no_repository_is_guessed() {
    let index = RepositoryIndex::new().attribute("a", "r1").attribute("b", "r2");
    let both = vec!["a".to_owned(), "b".to_owned()];
    assert_eq!(pick_at_commit(&both, &index, None), Pick::AmbiguousRepository);
    assert_eq!(pick_at_commit(&both, &index, Some("r2")), Pick::Found(1));
    assert_eq!(pick_at_commit(&Vec::new(), &index, None), Pick::Nothing);
}

#[test]
fn who_changed_a_symbol_is_told() {
    let who = WhoResult {
        symbol_name: "f".to_owned(),
        author_name: text("Ada"),
        author_email: text("ada@x"),
        commit_sha: "c1".to_owned(),
        valid_time: "t".to_owned(),
        repo_relative_path: None,
        freshness: None,
        corpus_mode: "union".to_owned(),
    };
    assert_eq!(
        who.as_text(),
        "f last changed by Ada <ada@x> in commit c1 @ t ((unknown))\ncorpus: union"
    );
}

#[test]
fn records_are_known_from_their_time_on() {
    let records = vec![symbol("s1", "f", "a.rs", 1, "c1"), symbol("s2", "g", "a.rs", 1, "")];
    let early = records_known_by(&records, (0, 0));
    assert!(!ids(&early).contains(&"s1"));
    assert!(ids(&records_known_by(&records, (4_000_000_000, 0))).contains(&"s1"));
    assert_eq!(symbol_found(Some(&records[0]), None, 5).len(), 1);
    assert!(symbol_found(None, None, 5).is_empty());
    assert!(symbol_found(Some(&records[0]), None, 0).is_empty());
}

// Drift

fn versions() -> Vec<GraphRecord> {
    let version = |commit: &str, time: &str, content: &str| {
        let mut n = blank("codegraph:v3:s", NodeKind::Symbol, "f");
        n.repo_relative_path = text("a.rs");
        n.signature = text(content);
        n.temporal = at(commit, &[], time);
        GraphRecord::Node(n)
    };
    vec![
        version("c2", "2024-01-02T00:00:00Z", "fn f(a)"),
        version("c1", "2024-01-01T00:00:00Z", "fn f()"),
    ]
}

#[test]
fn versions_are_paired_in_time() {
    let records = versions();
    let candidates = embedding_candidates(&records);
    assert_eq!(candidates.len(), 2);
    let pairs = drift_pairs(&candidates);
    assert_eq!(pairs.len(), 1);
    let (a, b) = pairs[0];
    let commit_at = |i: usize| {
        candidates[i]
            .temporal
            .as_ref()
            .map(|t| t.git_commit.clone())
            .unwrap_or_default()
    };
    assert_eq!((commit_at(a), commit_at(b)), ("c1".to_owned(), "c2".to_owned()));
    let basis = DriftBasis {
        model_name: "m".to_owned(),
        model_version: "1".to_owned(),
        threshold: "0.2".to_owned(),
    };
    let pair = ScoredPair {
        before: candidates[a].clone(),
        after: candidates[b].clone(),
        score: "0.5".to_owned(),
    };
    let one = drift_pair_records(&pair, &basis);
    assert!(one.iter().any(|r| matches!(r, GraphRecord::Node(n) if n.kind == NodeKind::SemanticDrift)));
    let all = drift_records(&vec![pair], &basis);
    assert_eq!(all.len(), one.len());
    let drift = one
        .iter()
        .find(|r| matches!(r, GraphRecord::Node(_)))
        .and_then(|r| drift_node_to_row(r, &records));
    assert_eq!(drift.map(|d| d.score), text("0.5"));
}

#[test]
fn each_observation_has_a_key_of_its_own() {
    let records = versions();
    let keys: Vec<Option<EmbeddingVectorKey>> =
        records.iter().map(EmbeddingVectorKey::from_record).collect();
    assert!(keys[0].is_some() && keys[0] != keys[1]);
    let candidate = candidate_from_record(&records[0]).expect("a candidate");
    assert_eq!(Some(EmbeddingVectorKey::from_candidate(&candidate)), keys[0]);
    assert!(EmbeddingVectorKey::from_record(&edge("e", EdgeLabel::Calls, "a", "b")).is_none());
}

// A part of the tree

#[test]
fn a_part_of_the_tree_is_told() {
    let mut records = vec![edge("e1", EdgeLabel::Calls, "a", "b")];
    records.push(symbol("s", "f", "a.rs", 1, ""));
    let rows = topology_rows(&records);
    assert_eq!(rows.len(), 1);
    assert_eq!((rows[0].label.as_str(), rows[0].source_id.as_str()), (EdgeLabel::Calls.as_str(), "a"));
    assert_eq!(prefix_error(PrefixOutcome::Found, "src/"), None);
    let failed = |o: PrefixOutcome| prefix_error(o, "src/").map(|e| (e.code, e.prefix, e.exit_code));
    assert_eq!(
        failed(PrefixOutcome::Malformed("//".to_owned())),
        Some(("malformed_prefix", "//".to_owned(), 1))
    );
    assert_eq!(failed(PrefixOutcome::NoMatch), Some(("no_match", "src/".to_owned(), 2)));
    let mut n = blank("d", NodeKind::SemanticDrift, "d");
    n.semantic_drift = Some(SemanticDriftMetadata {
        embedding_model: EmbeddingModel {
            provider: "p".to_owned(),
            name: "m".to_owned(),
            version: "1".to_owned(),
            dim: 384,
            content_hash: "h".to_owned(),
        },
        target_record_id: "s".to_owned(),
        prior_record_id: "s".to_owned(),
        before_git_commit: "c1".to_owned(),
        after_git_commit: "c2".to_owned(),
        before_valid_time: "t".to_owned(),
        after_valid_time: "u".to_owned(),
        metric_kind: MetricKind::CosineDistance,
        score: "0.4".to_owned(),
        selection_threshold: "0.2".to_owned(),
        selection_basis: SelectionBasis::ThresholdOnly,
    });
    let found = FoundDrift {
        record: GraphRecord::Node(n),
        trust: "source_derived".to_owned(),
        path: text("a.rs"),
        span: None,
    };
    assert_eq!(make_drift_row(&found).map(|d| (d.score, d.after_git_commit)), Some(("0.4".to_owned(), "c2".to_owned())));
    let signature = LogSignature {
        record_id: "g".to_owned(),
        schema_version: 1,
        severity: None,
        occurrence_count: 2,
        template_excerpt: "boom".to_owned(),
        first_seen: String::new(),
        last_seen: "2024".to_owned(),
        in_prefix_frames: vec![],
    };
    let labels = vec![("g".to_owned(), "agent_authored".to_owned())];
    let row = make_signature_row(&records, &labels, &signature);
    assert_eq!(row.trust, "source_derived");
    assert_eq!(row.first_seen_valid_time, None);
    assert_eq!(row.last_seen_valid_time.as_deref(), Some("2024"));
    records.push(GraphRecord::Node(blank("g", NodeKind::ErrorSignature, "g")));
    assert_eq!(make_signature_row(&records, &labels, &signature).trust, "agent_authored");
}

// Maintenance

#[test]
fn a_validation_is_told() {
    let counts = |defects: usize| ValidationCounts {
        records: 6,
        nodes: 3,
        edges: 2,
        tombstones: 1,
        defects,
    };
    assert_eq!(
        validation_text(counts(1)),
        "validated 6 records (3 nodes, 2 edges, 1 tombstones): 1 defect"
    );
    assert!(validation_text(counts(0)).ends_with(": 0 defects"));
    assert_eq!(validation_exit(counts(0)), 0);
    assert_ne!(validation_exit(counts(2)), 0);
}

#[test]
fn only_present_directories_are_watched() {
    let here = WatchDir { path: "/a", exists: true };
    let gone = WatchDir { path: "/b", exists: false };
    assert_eq!(watch_dir(Some(here), Some(gone)), Some("/a"));
    assert_eq!(watch_dir(Some(gone), Some(here)), None);
    assert_eq!(watch_dir(None, Some(here)), Some("/a"));
    assert_eq!(
        watch_warning("Codex", Some(gone)).as_deref(),
        Some("[Watcher Warning] Specified Codex directory does not exist: /b")
    );
    assert_eq!(watch_warning("Codex", Some(here)), None);
    assert!(check_watch(None, None, None).is_err());
    assert!(check_watch(None, Some("/a"), None).is_ok());
}

#[test]
fn a_deleted_record_is_not_read_at_a_commit() {
    let records = vec![
        symbol("s3", "f", "a.rs", 1, ""),
        symbol("s1", "f", "a.rs", 1, "abc1"),
        GraphRecord::Tombstone(TombstoneRecord {
            rest: None,
            id: "x".to_owned(),
            deleted_id: "s3".to_owned(),
        }),
    ];
    let index = RepositoryIndex::new();
    match verification_coverage_snapshot_at_commit(records, "abc1", &index, None) {
        Ok(kept) => assert_eq!(ids(&kept), vec!["s1"]),
        Err(e) => panic!("{}", e.code()),
    }
}
