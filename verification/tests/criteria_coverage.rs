//! The criteria coverage report.

use egregore::criteria_coverage::{
    bucket_for, coverage_report, criteria_census, is_verification_domain_id, proven_count,
    resolve_handle, truncate_rows, verification_outcome, CriteriaCoverageConfig,
    CriteriaCoverageReport, CriterionBucket, CriterionRowJson, LinkResolution, ProvenRatioGate,
    Ratio, VerificationOutcome, CRITERIA_COVERAGE_DEFAULT_LIMIT,
};
use egregore::evidence_synthesis::agent_memory_edge_id;
use egregore::ir::{
    EdgeLabel, EdgeRecord, GraphRecord, NodeKind, NodeRecord, TombstoneRecord,
    AGENT_MEMORY_SCHEMA_VERSION, PROJECT_SCHEMA_VERSION, VERIFICATION_SCHEMA_VERSION,
};

fn domain_node(id: &str, kind: NodeKind, summary: &str, domain: &str, version: u32) -> NodeRecord {
    let mut n = NodeRecord::blank(id.to_owned(), kind, version, summary.to_owned());
    n.domain = Some(domain.to_owned());
    n
}

fn task(id: &str, status: &str) -> GraphRecord {
    // A secret title that must never escape into the report.
    let mut n = domain_node(id, NodeKind::Task, "SECRET-TASK-TITLE", "project", PROJECT_SCHEMA_VERSION);
    n.status = Some(status.to_owned());
    GraphRecord::Node(n)
}

fn criterion(id: &str, parent: &str, ordinal: u32, status: &str) -> GraphRecord {
    let mut n = domain_node(
        id,
        NodeKind::AcceptanceCriterion,
        "criterion",
        "project",
        PROJECT_SCHEMA_VERSION,
    );
    n.parent_task_id = Some(parent.to_owned());
    n.ordinal = Some(ordinal);
    n.status = Some(status.to_owned());
    // Verbatim falsifiable claim: must never escape into the report.
    n.text = Some("SECRET-CRITERION-TEXT".to_owned());
    GraphRecord::Node(n)
}

fn with_link_field(mut r: GraphRecord, target: &str) -> GraphRecord {
    if let GraphRecord::Node(n) = &mut r {
        n.verification_link_id = Some(target.to_owned());
    }
    r
}

fn verification(id: &str, kind: NodeKind, status: Option<&str>, code: Option<i64>) -> GraphRecord {
    let mut n = domain_node(id, kind, "run", "verification", VERIFICATION_SCHEMA_VERSION);
    n.status = status.map(ToOwned::to_owned);
    n.exit_code = code;
    n.text = Some("SECRET-COMMAND-OUTPUT".to_owned());
    GraphRecord::Node(n)
}

/// A verification-SHAPED node minted in the agent-memory domain: an agent's own claim about itself.
fn agent_minted_evidence(id: &str) -> GraphRecord {
    let mut n = domain_node(
        id,
        NodeKind::CommandEvidence,
        "self-signed",
        "agent_memory",
        AGENT_MEMORY_SCHEMA_VERSION,
    );
    n.status = Some("pass".to_owned());
    n.exit_code = Some(0);
    GraphRecord::Node(n)
}

fn edge(label: EdgeLabel, source: &str, target: &str, summary: &str) -> GraphRecord {
    GraphRecord::Edge(EdgeRecord {
        rest: None,
        id: agent_memory_edge_id(label, source, target),
        schema_version: PROJECT_SCHEMA_VERSION,
        label,
        source: source.to_owned(),
        target: target.to_owned(),
        confidence: None,
        resolution: None,
        temporal: None,
        summary: summary.to_owned(),
    })
}

fn closes(ac: &str, verification_id: &str) -> GraphRecord {
    edge(EdgeLabel::ClosesAcceptanceCriterion, ac, verification_id, "closes")
}

fn owned_by(ac: &str, task_id: &str) -> GraphRecord {
    edge(EdgeLabel::OwnedByTask, ac, task_id, "owned by")
}

fn tombstone(deleted_id: &str) -> GraphRecord {
    GraphRecord::Tombstone(TombstoneRecord {
        rest: None,
        id: format!("project:v{PROJECT_SCHEMA_VERSION}:tomb-{deleted_id}"),
        deleted_id: deleted_id.to_owned(),
    })
}

fn quotient(r: &Ratio) -> Option<f64> {
    if r.denominator == 0 {
        None
    } else {
        Some(r.numerator as f64 / r.denominator as f64)
    }
}

/// The census and its report, with the share of proven criteria held against a minimum.
fn run(
    records: &Vec<GraphRecord>,
    min_proven_ratio: f64,
    config: &CriteriaCoverageConfig,
) -> CriteriaCoverageReport {
    let census = criteria_census(records);
    let share = quotient(&Ratio {
        numerator: proven_count(&census),
        denominator: census.rows.len(),
    });
    let gate = match share {
        Some(observed) if observed < min_proven_ratio => ProvenRatioGate::Missed {
            observed: format!("{observed:.4}"),
            bound: format!("{min_proven_ratio:.4}"),
        },
        _ => ProvenRatioGate::Met,
    };
    coverage_report(census, gate, config)
}

fn run_default(records: &Vec<GraphRecord>) -> CriteriaCoverageReport {
    run(records, 1.0, &CriteriaCoverageConfig::default())
}

/// Everything that a report says, as text.
fn rendered(report: &CriteriaCoverageReport) -> String {
    format!(
        "{:?}|{:?}|{:?}|{:?}|{:?}|{:?}|{:?}|{:?}|{:?}|{:?}|{:?}|{:?}|{:?}|{:?}|{:?}|{:?}|{:?}|{}",
        report.ok,
        report.total_criteria,
        report.proven,
        report.unverified,
        report.failed_evidence,
        report.dangling_evidence,
        report.non_verification_evidence,
        report.inconclusive_evidence,
        report.proof_gap,
        report.bucket_counts,
        report.done_task_statuses,
        report.claimed_done_unproven_count,
        report.claimed_done_unproven,
        report.criteria,
        report.max_claimed_done_unproven,
        report.breaches,
        report.diagnostics,
        report.disclaimer
    )
}

const AC_P1: &str = "project:v1:ac-p1";
const AC_P2: &str = "project:v1:ac-p2";
const AC_U1: &str = "project:v1:ac-u1";
const AC_U2: &str = "project:v1:ac-u2";
const AC_F1: &str = "project:v1:ac-f1";
const AC_D1: &str = "project:v1:ac-d1";
const AC_D2: &str = "project:v1:ac-d2";
const AC_N1: &str = "project:v1:ac-n1";
const AC_I1: &str = "project:v1:ac-i1";
const AC_X1: &str = "project:v1:ac-x1";

const TASK_DONE: &str = "project:v1:task-done";
const TASK_OPEN: &str = "project:v1:task-open";
const TASK_DROPPED: &str = "project:v1:task-dropped";

const VER_PASS_1: &str = "verification:v1:pass1";
const VER_PASS_2: &str = "verification:v1:pass2";
const VER_FAIL_1: &str = "verification:v1:fail1";
const VER_GHOST: &str = "verification:v1:ghost";
const VER_TOMBED: &str = "verification:v1:tombed";
const VER_INCON: &str = "verification:v1:incon";
const AGENT_EVIDENCE: &str = "agent_memory:v1:selfsigned";

/// The labeled fixture: 10 live criteria across three tasks, one per case.
///
/// | criterion | task | expected bucket |
/// |---|---|---|
/// | `ac-p1` | done | `proven` (edge → passing `TestRun`) |
/// | `ac-p2` | open | `proven` (field → passing `CommandRun`) |
/// | `ac-u1` | done | `unverified` (no links) |
/// | `ac-u2` | open | `unverified` (no links, but `status: verified`) |
/// | `ac-f1` | done | `failed_evidence` |
/// | `ac-d1` | open | `dangling_evidence` (absent target) |
/// | `ac-d2` | done | `dangling_evidence` (tombstoned target) |
/// | `ac-n1` | open | `non_verification_evidence` (agent-minted) |
/// | `ac-i1` | open | `inconclusive_evidence` |
/// | `ac-x1` | dropped | `unverified`, NOT claimed-done |
fn planted() -> Vec<GraphRecord> {
    vec![
        task(TASK_DONE, "closed_completed"),
        task(TASK_OPEN, "open"),
        task(TASK_DROPPED, "closed_dropped"),
        verification(VER_PASS_1, NodeKind::TestRun, Some("pass"), None),
        verification(VER_PASS_2, NodeKind::CommandRun, None, Some(0)),
        verification(VER_FAIL_1, NodeKind::TestRun, Some("fail"), None),
        verification(VER_TOMBED, NodeKind::TestRun, Some("pass"), None),
        verification(
            VER_INCON,
            NodeKind::Verification,
            Some("inconclusive"),
            None,
        ),
        agent_minted_evidence(AGENT_EVIDENCE),
        tombstone(VER_TOMBED),
        criterion(AC_P1, TASK_DONE, 0, "verified"),
        closes(AC_P1, VER_PASS_1),
        owned_by(AC_P1, TASK_DONE),
        with_link_field(criterion(AC_P2, TASK_OPEN, 0, "verified"), VER_PASS_2),
        owned_by(AC_P2, TASK_OPEN),
        criterion(AC_U1, TASK_DONE, 1, "unverified"),
        owned_by(AC_U1, TASK_DONE),
        // The lie test: recorded `verified` with no closing evidence at all.
        criterion(AC_U2, TASK_OPEN, 1, "verified"),
        owned_by(AC_U2, TASK_OPEN),
        criterion(AC_F1, TASK_DONE, 2, "failed"),
        closes(AC_F1, VER_FAIL_1),
        owned_by(AC_F1, TASK_DONE),
        criterion(AC_D1, TASK_OPEN, 2, "verified"),
        closes(AC_D1, VER_GHOST),
        owned_by(AC_D1, TASK_OPEN),
        criterion(AC_D2, TASK_DONE, 3, "verified"),
        closes(AC_D2, VER_TOMBED),
        owned_by(AC_D2, TASK_DONE),
        criterion(AC_N1, TASK_OPEN, 3, "verified"),
        closes(AC_N1, AGENT_EVIDENCE),
        owned_by(AC_N1, TASK_OPEN),
        criterion(AC_I1, TASK_OPEN, 4, "unknown"),
        closes(AC_I1, VER_INCON),
        owned_by(AC_I1, TASK_OPEN),
        criterion(AC_X1, TASK_DROPPED, 0, "unverified"),
        owned_by(AC_X1, TASK_DROPPED),
    ]
}

fn report() -> CriteriaCoverageReport {
    run_default(&planted())
}

fn row<'a>(report: &'a CriteriaCoverageReport, id: &str) -> &'a CriterionRowJson {
    report
        .criteria
        .iter()
        .find(|r| r.record_id == id)
        .unwrap_or_else(|| panic!("row for {id} present"))
}

#[test]
fn every_criterion_lands_in_its_labeled_bucket() {
    let report = report();
    assert_eq!(report.total_criteria, 10);
    for (id, expected) in [
        (AC_P1, "proven"),
        (AC_P2, "proven"),
        (AC_U1, "unverified"),
        (AC_U2, "unverified"),
        (AC_F1, "failed_evidence"),
        (AC_D1, "dangling_evidence"),
        (AC_D2, "dangling_evidence"),
        (AC_N1, "non_verification_evidence"),
        (AC_I1, "inconclusive_evidence"),
        (AC_X1, "unverified"),
    ] {
        assert_eq!(row(&report, id).bucket, expected, "bucket for {id}");
    }
}

#[test]
fn buckets_are_mutually_exclusive_and_partition_the_census() {
    let report = report();
    let sum: usize = report.bucket_counts.iter().map(|c| c.1).sum();
    assert_eq!(sum, report.total_criteria, "buckets must partition");
    // Every bucket is present in the tally even at zero.
    for bucket in CriterionBucket::ALL {
        assert!(
            report.bucket_counts.iter().any(|c| c.0 == bucket.as_wire()),
            "bucket {} missing from tally",
            bucket.as_wire()
        );
    }
    assert_eq!(report.criteria.len(), report.total_criteria);
}

#[test]
fn ratios_carry_numerator_and_denominator() {
    let report = report();
    assert_eq!(report.proven.numerator, 2);
    assert_eq!(report.proven.denominator, 10);
    assert!((quotient(&report.proven).expect("ratio") - 0.2).abs() < 1e-9);
    assert_eq!(report.unverified.numerator, 3);
    assert_eq!(report.failed_evidence.numerator, 1);
    assert_eq!(report.dangling_evidence.numerator, 2);
    assert_eq!(report.non_verification_evidence.numerator, 1);
    assert_eq!(report.inconclusive_evidence.numerator, 1);
    assert_eq!(report.proof_gap.numerator, 8);
    assert_eq!(report.proof_gap.denominator, 10);
}

#[test]
fn zero_denominator_is_a_stable_diagnostic_never_a_divide_by_zero() {
    let report = run_default(&Vec::new());
    assert_eq!(report.total_criteria, 0);
    assert!(quotient(&report.proven).is_none(), "ratio must be null, not NaN");
    assert!(quotient(&report.proof_gap).is_none());
    assert!(
        report
            .diagnostics
            .iter()
            .any(|d| d.code == "no_acceptance_criteria"),
        "empty store must carry the stable diagnostic"
    );
    assert!(
        report.ok,
        "an empty store is a vacuous pass, never a breach"
    );
}

#[test]
fn claimed_done_unproven_names_exactly_the_closed_task_gap() {
    let report = report();
    let ids: Vec<&str> = report
        .claimed_done_unproven
        .iter()
        .map(|r| r.record_id.as_str())
        .collect();
    assert_eq!(ids, vec![AC_D2, AC_F1, AC_U1], "sorted by record ID");
    assert_eq!(report.claimed_done_unproven_count, 3);
    // A proven criterion under a done task is NOT in the set.
    assert!(!ids.contains(&AC_P1));
    // A criterion under a DROPPED task claims no completion.
    assert!(!ids.contains(&AC_X1));
    assert_eq!(report.done_task_statuses, vec!["closed_completed"]);
}

#[test]
fn claimed_done_rows_cite_criterion_task_and_verification_handles() {
    let report = report();
    for r in &report.claimed_done_unproven {
        assert!(!r.record_id.is_empty(), "criterion record ID cited");
        assert_eq!(
            r.parent_task_id.as_deref(),
            Some(TASK_DONE),
            "parent task record ID cited"
        );
        assert!(r.claimed_done_unproven);
    }
    // Where a closing verification record exists, it is cited.
    let failed = report
        .claimed_done_unproven
        .iter()
        .find(|r| r.record_id == AC_F1)
        .expect("failed row");
    assert_eq!(
        failed
            .closing_links
            .iter()
            .map(|l| l.handle.as_str())
            .collect::<Vec<_>>(),
        vec![VER_FAIL_1]
    );
    // A dangling row keeps the ORIGINAL handle.
    let dangling = report
        .claimed_done_unproven
        .iter()
        .find(|r| r.record_id == AC_D2)
        .expect("dangling row");
    assert_eq!(dangling.closing_links[0].handle, VER_TOMBED);
    assert_eq!(dangling.closing_links[0].resolution, "unresolved");
}

#[test]
fn recorded_criterion_status_never_confers_proof() {
    // `ac-u2` records `status: verified` with NO closing evidence. Reading
    // the status field would report it proven; only edges may.
    let report = report();
    assert_eq!(row(&report, AC_U2).bucket, "unverified");
    assert_eq!(
        row(&report, AC_U2).criterion_status.as_deref(),
        Some("verified"),
        "the recorded status is echoed for citation, but never drives the bucket"
    );
}

#[test]
fn agent_minted_evidence_cannot_self_certify_a_criterion() {
    // An `agent_memory:v1:` CommandEvidence claiming `pass`/exit 0 must not
    // prove a criterion: an agent-authored claim is never evidence for itself.
    let report = report();
    assert_eq!(row(&report, AC_N1).bucket, "non_verification_evidence");
    assert_eq!(
        row(&report, AC_N1).closing_links[0].resolution,
        "non_verification_domain"
    );
    assert!(row(&report, AC_N1).proving_verification_id.is_none());
}

#[test]
fn closed_task_status_never_confers_proof() {
    // Every criterion under the done task that lacks passing evidence stays
    // in a non-proven bucket regardless of `Task.status: closed_completed`.
    let report = report();
    for id in [AC_U1, AC_F1, AC_D2] {
        assert_ne!(row(&report, id).bucket, "proven", "{id} proven from status");
    }
}

#[test]
fn failing_evidence_dominates_a_co_present_passing_link() {
    // Fail-closed precedence: a criterion carrying BOTH a passing and a
    // failing closing link is never reported proven.
    let mut records = planted();
    records.push(closes(AC_P1, VER_FAIL_1));
    let report = run_default(&records);
    assert_eq!(row(&report, AC_P1).bucket, "failed_evidence");
    assert_eq!(row(&report, AC_P1).closing_links.len(), 2);
}

#[test]
fn dangling_edges_are_their_own_bucket_with_original_handles() {
    let report = report();
    for (id, handle) in [(AC_D1, VER_GHOST), (AC_D2, VER_TOMBED)] {
        let r = row(&report, id);
        assert_eq!(r.bucket, "dangling_evidence");
        assert_eq!(r.closing_links[0].handle, handle);
        assert_eq!(r.closing_links[0].resolution, "unresolved");
    }
    // Never merged into unverified, never counted proven.
    assert_eq!(report.unverified.numerator, 3);
    assert_eq!(report.proven.numerator, 2);
}

#[test]
fn every_row_carries_a_citable_record_id() {
    let report = report();
    for r in &report.criteria {
        assert!(r.record_id.starts_with("project:v"), "{}", r.record_id);
        assert!(r.parent_task_id.is_some(), "{} parent", r.record_id);
    }
}

#[test]
fn ownership_resolves_from_the_edge_when_the_field_is_absent() {
    // `OWNED_BY_TASK` alone must establish ownership (the schema keeps the
    // edge and the denormalized field in sync; either is sufficient).
    let mut records = planted();
    for r in &mut records {
        if let GraphRecord::Node(n) = r {
            if n.id == AC_U1 {
                n.parent_task_id = None;
            }
        }
    }
    let report = run_default(&records);
    assert_eq!(
        row(&report, AC_U1).parent_task_id.as_deref(),
        Some(TASK_DONE)
    );
    assert!(row(&report, AC_U1).claimed_done_unproven);
}

#[test]
fn gate_trips_on_the_planted_proof_gap_naming_metric_and_value() {
    let report = report();
    assert!(!report.ok, "a store over the proof-gap line is never ready");
    let metrics: Vec<&str> = report.breaches.iter().map(|b| b.metric.as_str()).collect();
    assert!(metrics.contains(&"proven_ratio"), "{metrics:?}");
    assert!(metrics.contains(&"claimed_done_unproven"), "{metrics:?}");
    let proven = report
        .breaches
        .iter()
        .find(|b| b.metric == "proven_ratio")
        .expect("proven breach");
    assert!(proven.observed.contains("0.2"), "{}", proven.observed);
    assert!(
        report
            .diagnostics
            .iter()
            .any(|d| d.code == "below_proven_ratio_threshold")
    );
    assert!(
        report
            .diagnostics
            .iter()
            .any(|d| d.code == "above_claimed_done_unproven_threshold")
    );
}

#[test]
fn gate_passes_under_relaxed_bounds() {
    let config = CriteriaCoverageConfig {
        max_claimed_done_unproven: 5,
        limit: CRITERIA_COVERAGE_DEFAULT_LIMIT,
    };
    let report = run(&planted(), 0.1, &config);
    assert!(report.ok, "breaches={:?}", report.breaches);
    assert!(report.breaches.is_empty());
}

#[test]
fn gate_passes_on_a_fully_proven_store() {
    let records = vec![
        task(TASK_DONE, "closed_completed"),
        verification(VER_PASS_1, NodeKind::TestRun, Some("passed"), None),
        criterion(AC_P1, TASK_DONE, 0, "verified"),
        closes(AC_P1, VER_PASS_1),
        owned_by(AC_P1, TASK_DONE),
    ];
    let report = run_default(&records);
    assert!(report.ok, "breaches={:?}", report.breaches);
    assert_eq!(report.proven.numerator, 1);
    assert!((quotient(&report.proven).expect("ratio") - 1.0).abs() < 1e-9);
    assert_eq!(report.claimed_done_unproven_count, 0);
}

#[test]
fn output_never_leaks_prose_bodies() {
    let json = rendered(&report());
    for secret in [
        "SECRET-CRITERION-TEXT",
        "SECRET-TASK-TITLE",
        "SECRET-COMMAND-OUTPUT",
    ] {
        assert!(!json.contains(secret), "report leaked {secret}");
    }
}

#[test]
fn output_is_byte_identical_across_five_runs() {
    let records = planted();
    let first = rendered(&run_default(&records));
    for _ in 0..5 {
        let again = rendered(&run_default(&records));
        assert_eq!(
            first, again,
            "criteria-coverage output must be byte-identical"
        );
    }
}

#[test]
fn record_order_does_not_change_the_answer() {
    // Append ORDER is deliberately meaningful for one thing only: a tombstone
    // versus a later re-write of the same id (latest-write-wins liveness). So
    // this scrambles every node and edge while keeping tombstones after their
    // targets — the report must be identical, proving nothing else in the
    // derivation depends on iteration order.
    let forward = run_default(&planted());
    let (tombstones, mut rest): (Vec<_>, Vec<_>) = planted()
        .into_iter()
        .partition(|r| matches!(r, GraphRecord::Tombstone(_)));
    rest.reverse();
    rest.extend(tombstones);
    let scrambled = run_default(&rest);
    assert_eq!(
        rendered(&forward),
        rendered(&scrambled),
        "ordering of input records must not change the report"
    );
}

#[test]
fn tombstoned_criteria_leave_the_census() {
    let mut records = planted();
    records.push(tombstone(AC_U1));
    let report = run_default(&records);
    assert_eq!(report.total_criteria, 9);
    assert!(report.criteria.iter().all(|r| r.record_id != AC_U1));
}

#[test]
fn a_criterion_reingested_after_its_tombstone_is_live_again() {
    let mut records = planted();
    records.push(tombstone(AC_U1));
    records.push(criterion(AC_U1, TASK_DONE, 1, "unverified"));
    let report = run_default(&records);
    assert_eq!(report.total_criteria, 10);
}

#[test]
fn a_retracted_closing_edge_stops_proving() {
    let mut records = planted();
    let edge_id = closes(AC_P1, VER_PASS_1).id().to_owned();
    records.push(tombstone(&edge_id));
    let report = run_default(&records);
    assert_eq!(
        row(&report, AC_P1).bucket,
        "unverified",
        "a retracted closing edge withdraws the proof"
    );
}

#[test]
fn duplicate_criterion_versions_are_counted_once() {
    let mut records = planted();
    records.push(criterion(AC_U1, TASK_DONE, 1, "unverified"));
    let report = run_default(&records);
    assert_eq!(
        report.total_criteria, 10,
        "an append-only rewrite is one criterion"
    );
}

#[test]
fn limit_truncates_with_a_diagnostic_that_keeps_the_true_count() {
    let config = CriteriaCoverageConfig {
        limit: 2,
        ..CriteriaCoverageConfig::default()
    };
    let report = run(&planted(), 1.0, &config);
    assert_eq!(report.total_criteria, 10, "counts are pre-truncation");
    assert_eq!(report.criteria.len(), 2);
    assert_eq!(report.claimed_done_unproven_count, 3);
    assert_eq!(report.claimed_done_unproven.len(), 2);
    assert!(
        report
            .diagnostics
            .iter()
            .any(|d| d.code == "results_truncated")
    );
}

#[test]
fn bucket_wire_names_are_unique_and_stable() {
    let mut seen = std::collections::BTreeSet::new();
    for bucket in CriterionBucket::ALL {
        assert!(
            seen.insert(bucket.as_wire()),
            "duplicate {}",
            bucket.as_wire()
        );
    }
    assert_eq!(seen.len(), CriterionBucket::ALL.len());
}

#[test]
fn ratio_breach_is_told_in_full() {
    let report = report();
    assert_eq!(report.breaches[1].metric, "proven_ratio");
    assert_eq!(report.breaches[1].observed, "0.2000");
    assert_eq!(report.breaches[1].bound, "1.0000");
    assert_eq!(
        report.breaches[1].message,
        "proven ratio 0.2000 (2/10) is below the required minimum 1.0000"
    );
    assert_eq!(report.breaches[0].metric, "claimed_done_unproven");
    assert_eq!(report.breaches[0].observed, "3");
    assert_eq!(report.breaches[0].bound, "0");
}

#[test]
fn only_identifiers_of_the_verification_domain_are_taken() {
    assert!(is_verification_domain_id("verification:v1:abc"));
    assert!(is_verification_domain_id("verification:v12:"));
    assert!(!is_verification_domain_id("verification:v:abc"));
    assert!(!is_verification_domain_id("verification:v1x:abc"));
    assert!(!is_verification_domain_id("verification:v1"));
    assert!(!is_verification_domain_id("agent_memory:v1:abc"));
}

#[test]
fn each_resolution_is_told() {
    let records = planted();
    for (handle, expected) in [
        (VER_PASS_1, LinkResolution::Passing),
        (VER_PASS_2, LinkResolution::Passing),
        (VER_FAIL_1, LinkResolution::Failing),
        (VER_INCON, LinkResolution::Inconclusive),
        (AGENT_EVIDENCE, LinkResolution::NonVerificationDomain),
        (VER_GHOST, LinkResolution::Unresolved),
        (VER_TOMBED, LinkResolution::Unresolved),
    ] {
        assert_eq!(resolve_handle(&records, handle).0, expected, "{handle}");
    }
    assert_eq!(LinkResolution::Passing.as_wire(), "passing");
    assert_eq!(LinkResolution::Failing.as_wire(), "failing");
    assert_eq!(LinkResolution::Inconclusive.as_wire(), "inconclusive");
}

#[test]
fn bucket_precedence_is_fail_closed() {
    let (passing, failing, inconclusive, foreign, unresolved) = (
        LinkResolution::Passing,
        LinkResolution::Failing,
        LinkResolution::Inconclusive,
        LinkResolution::NonVerificationDomain,
        LinkResolution::Unresolved,
    );
    assert_eq!(bucket_for(&vec![]), CriterionBucket::Unverified);
    assert_eq!(bucket_for(&vec![passing]), CriterionBucket::Proven);
    assert_eq!(
        bucket_for(&vec![passing, inconclusive, foreign, unresolved, failing]),
        CriterionBucket::FailedEvidence
    );
    assert_eq!(
        bucket_for(&vec![passing, inconclusive, foreign, unresolved]),
        CriterionBucket::DanglingEvidence
    );
}

#[test]
fn status_decides_before_the_exit_code() {
    let outcome = |status: Option<&str>, code: Option<i64>| {
        match verification("verification:v1:x", NodeKind::TestRun, status, code) {
            GraphRecord::Node(n) => verification_outcome(&n),
            _ => unreachable!(),
        }
    };
    assert_eq!(outcome(Some("pass"), None), VerificationOutcome::Passing);
    assert_eq!(outcome(Some("fail"), None), VerificationOutcome::Failing);
    assert_eq!(outcome(None, Some(0)), VerificationOutcome::Passing);
    assert_eq!(outcome(None, Some(2)), VerificationOutcome::Failing);
    assert_eq!(outcome(None, None), VerificationOutcome::Inconclusive);
}

#[test]
fn cut_rows_tell_how_many_there_were() {
    let mut rows = criteria_census(&planted()).rows;
    assert_eq!(truncate_rows(&mut rows, 10), None);
    assert_eq!(rows.len(), 10);
    assert_eq!(truncate_rows(&mut rows, 4), Some(10));
    assert_eq!(rows.len(), 4);
}

#[test]
fn disagreeing_owners_are_reported() {
    let records = vec![
        task(TASK_DONE, "closed_completed"),
        task(TASK_OPEN, "open"),
        criterion(AC_U1, TASK_OPEN, 0, "unverified"),
        owned_by(AC_U1, TASK_DONE),
    ];
    let report = run_default(&records);
    let codes: Vec<&str> = report.diagnostics.iter().map(|d| d.code.as_str()).collect();
    assert!(codes.contains(&"criterion_parent_task_conflict"), "{codes:?}");
    assert_eq!(row(&report, AC_U1).parent_task_id.as_deref(), Some(TASK_OPEN));
    let orphan = vec![criterion(AC_U1, TASK_OPEN, 0, "unverified")];
    let report = run_default(&orphan);
    assert!(report
        .diagnostics
        .iter()
        .any(|d| d.code == "criterion_parent_task_unresolved" && d.record_ids == [AC_U1]));
}

#[test]
fn without_criteria_no_share_is_missed() {
    let missed = ProvenRatioGate::Missed {
        observed: "0.0000".to_owned(),
        bound: "0.9000".to_owned(),
    };
    let config = CriteriaCoverageConfig {
        limit: CRITERIA_COVERAGE_DEFAULT_LIMIT,
        max_claimed_done_unproven: 0,
    };
    let report = coverage_report(criteria_census(&vec![]), missed, &config);
    assert!(report.ok);
    assert!(report.breaches.is_empty());
}

#[test]
fn prose_does_not_reach_the_report() {
    let records = planted();
    let mut told = planted();
    for r in &mut told {
        if let GraphRecord::Node(n) = r {
            if matches!(n.kind, NodeKind::Task | NodeKind::AcceptanceCriterion) {
                n.text = Some("another text".to_owned());
                n.rest = Some("{\"title\":\"another title\"}".to_owned());
            }
        }
    }
    assert_eq!(rendered(&run_default(&records)), rendered(&run_default(&told)));
}

#[test]
fn no_status_of_a_task_or_a_criterion_moves_a_bucket() {
    let before = report();
    let mut records = planted();
    for r in &mut records {
        if let GraphRecord::Node(n) = r {
            if matches!(n.kind, NodeKind::Task | NodeKind::AcceptanceCriterion) {
                n.status = Some("verified".to_owned());
            }
        }
    }
    let after = run_default(&records);
    let buckets = |r: &CriteriaCoverageReport| -> Vec<(String, String)> {
        r.criteria.iter().map(|c| (c.record_id.clone(), c.bucket.clone())).collect()
    };
    assert_eq!(buckets(&before), buckets(&after));
}
