//! The census of acceptance criteria.
//!
//! Every live criterion lands in exactly one bucket. It is `proven` only by live
//! links to records of the verification domain whose recorded outcome is passing:
//! never by the status of its task, by its own recorded status, or by what an
//! agent says of itself. The buckets fail closed: one failing link outweighs any
//! number of passing ones.
//!
//! | Closing links                                  | Bucket                      |
//! |------------------------------------------------|-----------------------------|
//! | none                                           | `unverified`                |
//! | one is failing                                 | `failed_evidence`           |
//! | else one names no live record                  | `dangling_evidence`         |
//! | else one lies outside the verification domain  | `non_verification_evidence` |
//! | else one has no recognizable outcome           | `inconclusive_evidence`     |
//! | else                                           | `proven`                    |

use vstd::prelude::*;
use vstd::string::*;

use crate::collections::{lemma_same_members, lemma_sorted_unique, sorted_strict, StrSet};
use crate::ir::{
    node_kind_name, EdgeLabel, GraphRecord, NodeKind, NodeRecord, NodeView, RecordView, SourceSpan,
};
use crate::liveness::{
    find_live, least, lemma_last_node, lemma_least_of_set, lemma_order_is_free, lemma_same_places,
    linked, live, live_ids_of_kind, live_node, same_place, settled, targets_of,
};
use crate::text::{
    chars_of, copy_strings, decimal, decimal_seq, has_prefix, lex_lt, opt_clone, opt_is, opt_view,
    str_eq, views,
};

verus! {

/// The disclaimer of every report.
pub const CRITERIA_COVERAGE_DISCLAIMER: &'static str =
    "measures whether each recorded acceptance criterion resolves to a passing verification record; a poor coverage number is a reason to REVIEW/VERIFY, never proof that any one task is wrong; absence of closing evidence means no imported proof, not that the work is broken; never an auditor opinion";

/// The default cap on the rows of a list.
pub const CRITERIA_COVERAGE_DEFAULT_LIMIT: usize = 500;

/// The largest cap that is accepted.
pub const CRITERIA_COVERAGE_MAX_LIMIT: usize = 1000;

/// A count and the population that it was taken from.
#[derive(Clone, Copy, Debug, PartialEq, Eq, Structural)]
pub struct Ratio {
    /// The count.
    pub numerator: usize,
    /// The population.
    pub denominator: usize,
}

/// The buckets, which partition the live criteria.
#[derive(Debug, Clone, Copy, PartialEq, Eq, PartialOrd, Ord, Structural)]
pub enum CriterionBucket {
    /// Closed by passing verification records.
    Proven,
    /// A closing link resolves to a failing verification record.
    FailedEvidence,
    /// A closing handle names no live record.
    DanglingEvidence,
    /// A closing link resolves outside the verification domain.
    NonVerificationEvidence,
    /// A closing link resolves to a verification record without a recognizable outcome.
    InconclusiveEvidence,
    /// There is no closing evidence.
    Unverified,
}

/// The wire name of a bucket.
pub open spec fn bucket_name(b: CriterionBucket) -> Seq<char> {
    match b {
        CriterionBucket::Proven => "proven"@,
        CriterionBucket::FailedEvidence => "failed_evidence"@,
        CriterionBucket::DanglingEvidence => "dangling_evidence"@,
        CriterionBucket::NonVerificationEvidence => "non_verification_evidence"@,
        CriterionBucket::InconclusiveEvidence => "inconclusive_evidence"@,
        CriterionBucket::Unverified => "unverified"@,
    }
}

impl CriterionBucket {
    /// Every bucket.
    pub const ALL: [CriterionBucket; 6] = [
        CriterionBucket::Proven,
        CriterionBucket::FailedEvidence,
        CriterionBucket::DanglingEvidence,
        CriterionBucket::NonVerificationEvidence,
        CriterionBucket::InconclusiveEvidence,
        CriterionBucket::Unverified,
    ];

    /// The stable wire name.
    pub fn as_wire(self) -> (r: &'static str)
        ensures
            r@ == bucket_name(self),
    {
        match self {
            CriterionBucket::Proven => "proven",
            CriterionBucket::FailedEvidence => "failed_evidence",
            CriterionBucket::DanglingEvidence => "dangling_evidence",
            CriterionBucket::NonVerificationEvidence => "non_verification_evidence",
            CriterionBucket::InconclusiveEvidence => "inconclusive_evidence",
            CriterionBucket::Unverified => "unverified",
        }
    }
}

/// No two buckets share a wire name.
pub proof fn law_bucket_names_are_distinct(a: CriterionBucket, b: CriterionBucket)
    requires
        bucket_name(a) == bucket_name(b),
    ensures
        a == b,
{
    reveal_strlit("proven");
    reveal_strlit("failed_evidence");
    reveal_strlit("dangling_evidence");
    reveal_strlit("non_verification_evidence");
    reveal_strlit("inconclusive_evidence");
    reveal_strlit("unverified");
    assert("proven"@.len() == 6);
    assert("failed_evidence"@.len() == 15);
    assert("dangling_evidence"@.len() == 17);
    assert("non_verification_evidence"@.len() == 25);
    assert("inconclusive_evidence"@.len() == 21);
    assert("unverified"@.len() == 10);
}

/// How one closing handle resolved.
#[derive(Debug, Clone, Copy, PartialEq, Eq, PartialOrd, Ord, Structural)]
pub enum LinkResolution {
    /// A live verification record with a passing outcome.
    Passing,
    /// A live verification record with a failing outcome.
    Failing,
    /// A live verification record with neither outcome.
    Inconclusive,
    /// A live record outside the verification domain.
    NonVerificationDomain,
    /// No live record.
    Unresolved,
}

/// The wire name of a resolution.
pub open spec fn resolution_name(r: LinkResolution) -> Seq<char> {
    match r {
        LinkResolution::Passing => "passing"@,
        LinkResolution::Failing => "failing"@,
        LinkResolution::Inconclusive => "inconclusive"@,
        LinkResolution::NonVerificationDomain => "non_verification_domain"@,
        LinkResolution::Unresolved => "unresolved"@,
    }
}

impl LinkResolution {
    /// The stable wire name.
    pub fn as_wire(self) -> (r: &'static str)
        ensures
            r@ == resolution_name(self),
    {
        match self {
            LinkResolution::Passing => "passing",
            LinkResolution::Failing => "failing",
            LinkResolution::Inconclusive => "inconclusive",
            LinkResolution::NonVerificationDomain => "non_verification_domain",
            LinkResolution::Unresolved => "unresolved",
        }
    }
}

/// The recorded outcome of a verification.
#[derive(Debug, Clone, Copy, PartialEq, Eq, Structural)]
pub enum VerificationOutcome {
    Passing,
    Failing,
    Inconclusive,
}

/// One closing handle of a criterion, with how it resolved.
#[derive(Clone, Debug, PartialEq, Eq)]
pub struct ClosingLinkJson {
    /// The handle as recorded.
    pub handle: String,
    /// Where the handle came from: `closes_edge`, `verification_link_id` or both.
    pub origins: Vec<String>,
    /// The wire name of the resolution.
    pub resolution: String,
    /// The target's verification kind, when it resolved.
    pub verification_kind: Option<String>,
    /// The target's status, when it resolved and has one.
    pub status: Option<String>,
    /// The target's exit code, when it resolved and has one.
    pub exit_code: Option<i64>,
}

/// The view of a [`ClosingLinkJson`].
#[verifier::ext_equal]
pub struct ClosingLinkView {
    pub handle: Seq<char>,
    pub origins: Seq<Seq<char>>,
    pub resolution: Seq<char>,
    pub verification_kind: Option<Seq<char>>,
    pub status: Option<Seq<char>>,
    pub exit_code: Option<i64>,
}

impl View for ClosingLinkJson {
    type V = ClosingLinkView;

    open spec fn view(&self) -> ClosingLinkView {
        ClosingLinkView {
            handle: self.handle@,
            origins: views(self.origins@),
            resolution: self.resolution@,
            verification_kind: opt_view(self.verification_kind),
            status: opt_view(self.status),
            exit_code: self.exit_code,
        }
    }
}

impl ClosingLinkJson {
    /// A copy with the same view.
    pub fn copy(&self) -> (r: ClosingLinkJson)
        ensures
            r@ == self@,
    {
        ClosingLinkJson {
            handle: self.handle.clone(),
            origins: copy_strings(&self.origins),
            resolution: self.resolution.clone(),
            verification_kind: opt_clone(&self.verification_kind),
            status: opt_clone(&self.status),
            exit_code: self.exit_code,
        }
    }
}

/// The views of a list.
pub open spec fn closing_link_json_views(s: Seq<ClosingLinkJson>) -> Seq<ClosingLinkView> {
    s.map_values(|x: ClosingLinkJson| x@)
}

/// A copy of a list, with the same views.
pub fn copy_closing_link_jsons(v: &Vec<ClosingLinkJson>) -> (r: Vec<ClosingLinkJson>)
    ensures
        closing_link_json_views(r@) == closing_link_json_views(v@),
        r@.len() == v@.len(),
{
    let mut r: Vec<ClosingLinkJson> = Vec::new();
    let mut i: usize = 0;
    while i < v.len()
        invariant
            i <= v@.len(),
            r@.len() == i,
            forall|k: int| 0 <= k < i ==> (#[trigger] r@[k])@ == v@[k]@,
        decreases v@.len() - i,
    {
        r.push(v[i].copy());
        i = i + 1;
    }
    assert(closing_link_json_views(r@) =~= closing_link_json_views(v@));
    r
}

/// One acceptance criterion, classified.
#[derive(Clone, Debug, PartialEq, Eq)]
pub struct CriterionRowJson {
    /// The identifier of the criterion.
    pub record_id: String,
    /// The owning task, when derivable.
    pub parent_task_id: Option<String>,
    /// The status of the owning task, when it resolves.
    pub parent_task_status: Option<String>,
    /// The recorded status of the criterion; it never decides the bucket.
    pub criterion_status: Option<String>,
    /// The position within the criteria of the task.
    pub ordinal: Option<u32>,
    /// The wire name of the bucket.
    pub bucket: String,
    /// Every closing handle, sorted by handle.
    pub closing_links: Vec<ClosingLinkJson>,
    /// The passing record that decides, on a proven row.
    pub proving_verification_id: Option<String>,
    /// Where the criterion is declared, when recorded.
    pub repo_relative_path: Option<String>,
    /// The span of the declaration, when recorded.
    pub span: Option<SourceSpan>,
    /// The handle in the source system, when recorded.
    pub source_handle: Option<String>,
    /// The link that carries the handle, when recorded.
    pub external_link_id: Option<String>,
    /// Whether the owning task is done while this criterion is not proven.
    pub claimed_done_unproven: bool,
}

/// The view of a [`CriterionRowJson`].
#[verifier::ext_equal]
pub struct CriterionRowView {
    pub record_id: Seq<char>,
    pub parent_task_id: Option<Seq<char>>,
    pub parent_task_status: Option<Seq<char>>,
    pub criterion_status: Option<Seq<char>>,
    pub ordinal: Option<u32>,
    pub bucket: Seq<char>,
    pub closing_links: Seq<ClosingLinkView>,
    pub proving_verification_id: Option<Seq<char>>,
    pub repo_relative_path: Option<Seq<char>>,
    pub span: Option<SourceSpan>,
    pub source_handle: Option<Seq<char>>,
    pub external_link_id: Option<Seq<char>>,
    pub claimed_done_unproven: bool,
}

impl View for CriterionRowJson {
    type V = CriterionRowView;

    open spec fn view(&self) -> CriterionRowView {
        CriterionRowView {
            record_id: self.record_id@,
            parent_task_id: opt_view(self.parent_task_id),
            parent_task_status: opt_view(self.parent_task_status),
            criterion_status: opt_view(self.criterion_status),
            ordinal: self.ordinal,
            bucket: self.bucket@,
            closing_links: closing_link_json_views(self.closing_links@),
            proving_verification_id: opt_view(self.proving_verification_id),
            repo_relative_path: opt_view(self.repo_relative_path),
            span: self.span,
            source_handle: opt_view(self.source_handle),
            external_link_id: opt_view(self.external_link_id),
            claimed_done_unproven: self.claimed_done_unproven,
        }
    }
}

impl CriterionRowJson {
    /// A copy with the same view.
    pub fn copy(&self) -> (r: CriterionRowJson)
        ensures
            r@ == self@,
    {
        CriterionRowJson {
            record_id: self.record_id.clone(),
            parent_task_id: opt_clone(&self.parent_task_id),
            parent_task_status: opt_clone(&self.parent_task_status),
            criterion_status: opt_clone(&self.criterion_status),
            ordinal: self.ordinal,
            bucket: self.bucket.clone(),
            closing_links: copy_closing_link_jsons(&self.closing_links),
            proving_verification_id: opt_clone(&self.proving_verification_id),
            repo_relative_path: opt_clone(&self.repo_relative_path),
            span: self.span,
            source_handle: opt_clone(&self.source_handle),
            external_link_id: opt_clone(&self.external_link_id),
            claimed_done_unproven: self.claimed_done_unproven,
        }
    }
}

/// The views of a list.
pub open spec fn criterion_row_json_views(s: Seq<CriterionRowJson>) -> Seq<CriterionRowView> {
    s.map_values(|x: CriterionRowJson| x@)
}

/// One threshold that was not met.
#[derive(Clone, Debug, PartialEq, Eq)]
pub struct CriteriaCoverageBreach {
    /// The metric.
    pub metric: String,
    /// The observed value.
    pub observed: String,
    /// The configured bound.
    pub bound: String,
    /// The detail.
    pub message: String,
}

/// The view of a [`CriteriaCoverageBreach`].
#[verifier::ext_equal]
pub struct BreachView {
    pub metric: Seq<char>,
    pub observed: Seq<char>,
    pub bound: Seq<char>,
    pub message: Seq<char>,
}

impl View for CriteriaCoverageBreach {
    type V = BreachView;

    open spec fn view(&self) -> BreachView {
        BreachView {
            metric: self.metric@,
            observed: self.observed@,
            bound: self.bound@,
            message: self.message@,
        }
    }
}

/// A stable diagnostic of the report.
#[derive(Clone, Debug, PartialEq, Eq)]
pub struct CriteriaCoverageDiagnostic {
    /// The code.
    pub code: String,
    /// The records that it derives from, sorted.
    pub record_ids: Vec<String>,
    /// The detail.
    pub detail: String,
}

/// The view of a [`CriteriaCoverageDiagnostic`].
#[verifier::ext_equal]
pub struct DiagnosticView {
    pub code: Seq<char>,
    pub record_ids: Seq<Seq<char>>,
    pub detail: Seq<char>,
}

impl View for CriteriaCoverageDiagnostic {
    type V = DiagnosticView;

    open spec fn view(&self) -> DiagnosticView {
        DiagnosticView {
            code: self.code@,
            record_ids: views(self.record_ids@),
            detail: self.detail@,
        }
    }
}
/// The thresholds that need no ratio, and the cap on the rows.
#[derive(Clone, Copy, Debug, PartialEq, Eq, Structural)]
pub struct CriteriaCoverageConfig {
    /// How many criteria may be claimed done without proof.
    pub max_claimed_done_unproven: usize,
    /// The cap on the rows of each list.
    pub limit: usize,
}

impl Default for CriteriaCoverageConfig {
    fn default() -> (r: Self)
        ensures
            r.max_claimed_done_unproven == 0,
            r.limit == CRITERIA_COVERAGE_DEFAULT_LIMIT,
    {
        CriteriaCoverageConfig {
            max_claimed_done_unproven: 0,
            limit: CRITERIA_COVERAGE_DEFAULT_LIMIT,
        }
    }
}

/// Whether the share of proven criteria meets its minimum. The comparison of the
/// ratio is made by the caller, which also renders the two numbers.
#[derive(Clone, Debug, PartialEq, Eq)]
pub enum ProvenRatioGate {
    /// The minimum is met, or there are no criteria.
    Met,
    /// The minimum is not met.
    Missed {
        /// The observed ratio, rendered.
        observed: String,
        /// The minimum, rendered.
        bound: String,
    },
}

/// The classified criteria of a store.
pub struct CriteriaCensus {
    /// One row for each live criterion, sorted by identifier.
    pub rows: Vec<CriterionRowJson>,
    /// The criteria with a handle that names no live record.
    pub dangling_ids: Vec<String>,
    /// The criteria whose owning edges and owning field disagree.
    pub parent_conflict_ids: Vec<String>,
    /// The criteria whose owning task does not resolve.
    pub parent_unresolved_ids: Vec<String>,
}

/// The report of the census.
pub struct CriteriaCoverageReport {
    /// Whether every threshold was met.
    pub ok: bool,
    /// The number of live criteria.
    pub total_criteria: usize,
    /// Closed by passing verification records.
    pub proven: Ratio,
    /// Without closing evidence.
    pub unverified: Ratio,
    /// With a failing closing link.
    pub failed_evidence: Ratio,
    /// With a handle that does not resolve.
    pub dangling_evidence: Ratio,
    /// With a link outside the verification domain.
    pub non_verification_evidence: Ratio,
    /// With a link without a recognizable outcome.
    pub inconclusive_evidence: Ratio,
    /// Everything that is not proven.
    pub proof_gap: Ratio,
    /// The count of every bucket, by wire name in order.
    pub bucket_counts: Vec<(String, usize)>,
    /// The task statuses that count as done.
    pub done_task_statuses: Vec<String>,
    /// How many criteria are claimed done without proof.
    pub claimed_done_unproven_count: usize,
    /// Those criteria, up to the cap.
    pub claimed_done_unproven: Vec<CriterionRowJson>,
    /// All criteria, up to the cap.
    pub criteria: Vec<CriterionRowJson>,
    /// The bound on the criteria that are claimed done without proof.
    pub max_claimed_done_unproven: usize,
    /// The thresholds that were not met, by metric.
    pub breaches: Vec<CriteriaCoverageBreach>,
    /// The diagnostics, by code.
    pub diagnostics: Vec<CriteriaCoverageDiagnostic>,
    /// The disclaimer.
    pub disclaimer: String,
}

// ---------------------------------------------------------------------------
// What the census says
// ---------------------------------------------------------------------------

/// Whether the characters from `i` on are one or more digits and a colon.
pub open spec fn digits_then_colon(s: Seq<char>, i: int, seen: bool) -> bool
    decreases s.len() - i,
{
    if i < 0 || i >= s.len() {
        false
    } else if '0' <= s[i] <= '9' {
        digits_then_colon(s, i + 1, true)
    } else {
        seen && s[i] == ':'
    }
}

/// Whether the identifier is one that the verification domain mints:
/// `verification:v<N>:` and then anything.
pub open spec fn is_verification_id(id: Seq<char>) -> bool {
    has_prefix(id, "verification:v"@) && digits_then_colon(id, 14, false)
}

/// The recorded outcome: the status where it is a known one, else the exit code.
pub open spec fn outcome_of(n: NodeRecord) -> VerificationOutcome {
    if opt_view(n.status) == Some("pass"@) || opt_view(n.status) == Some("passed"@) {
        VerificationOutcome::Passing
    } else if opt_view(n.status) == Some("fail"@) || opt_view(n.status) == Some("failed"@) {
        VerificationOutcome::Failing
    } else {
        match n.exit_code {
            Some(c) => if c == 0 {
                VerificationOutcome::Passing
            } else {
                VerificationOutcome::Failing
            },
            None => VerificationOutcome::Inconclusive,
        }
    }
}

/// How a handle resolves in the store.
pub open spec fn resolution(s: Seq<GraphRecord>, handle: Seq<char>) -> LinkResolution {
    match live(s, handle) {
        None => LinkResolution::Unresolved,
        Some(n) => if !is_verification_id(n.id@) {
            LinkResolution::NonVerificationDomain
        } else {
            match outcome_of(n) {
                VerificationOutcome::Passing => LinkResolution::Passing,
                VerificationOutcome::Failing => LinkResolution::Failing,
                VerificationOutcome::Inconclusive => LinkResolution::Inconclusive,
            }
        },
    }
}

/// The kind that is reported of a closing record.
pub open spec fn reported_kind(n: NodeRecord) -> Seq<char> {
    match n.verification_kind {
        Some(k) => k@,
        None => node_kind_name(n.kind),
    }
}

/// Whether `handle` closes the criterion, by an edge or by its own field.
pub open spec fn closes(s: Seq<GraphRecord>, n: NodeRecord, handle: Seq<char>) -> bool {
    linked(s, EdgeLabel::ClosesAcceptanceCriterion, n.id@, handle) || opt_view(
        n.verification_link_id,
    ) == Some(handle)
}

/// Whether some closing handle of the criterion resolves this way.
pub open spec fn closes_with(s: Seq<GraphRecord>, n: NodeRecord, r: LinkResolution) -> bool {
    exists|h: Seq<char>| #[trigger] closes(s, n, h) && resolution(s, h) == r
}

/// Whether the criterion has a closing handle.
pub open spec fn has_closing(s: Seq<GraphRecord>, n: NodeRecord) -> bool {
    exists|h: Seq<char>| #[trigger] closes(s, n, h)
}

/// The bucket of the criterion.
pub open spec fn bucket_of(s: Seq<GraphRecord>, n: NodeRecord) -> CriterionBucket {
    if !has_closing(s, n) {
        CriterionBucket::Unverified
    } else if closes_with(s, n, LinkResolution::Failing) {
        CriterionBucket::FailedEvidence
    } else if closes_with(s, n, LinkResolution::Unresolved) {
        CriterionBucket::DanglingEvidence
    } else if closes_with(s, n, LinkResolution::NonVerificationDomain) {
        CriterionBucket::NonVerificationEvidence
    } else if closes_with(s, n, LinkResolution::Inconclusive) {
        CriterionBucket::InconclusiveEvidence
    } else {
        CriterionBucket::Proven
    }
}

/// Where a closing handle of the criterion came from.
pub open spec fn origins_of(s: Seq<GraphRecord>, n: NodeRecord, handle: Seq<char>) -> Seq<Seq<char>> {
    let by_edge = linked(s, EdgeLabel::ClosesAcceptanceCriterion, n.id@, handle);
    let by_field = opt_view(n.verification_link_id) == Some(handle);
    if by_edge && by_field {
        seq!["closes_edge"@, "verification_link_id"@]
    } else if by_edge {
        seq!["closes_edge"@]
    } else {
        seq!["verification_link_id"@]
    }
}

/// The closing link that is reported for a handle of the criterion.
pub open spec fn link_of(s: Seq<GraphRecord>, n: NodeRecord, handle: Seq<char>) -> ClosingLinkView {
    ClosingLinkView {
        handle,
        origins: origins_of(s, n, handle),
        resolution: resolution_name(resolution(s, handle)),
        verification_kind: match live(s, handle) {
            Some(t) => Some(reported_kind(t)),
            None => None,
        },
        status: match live(s, handle) {
            Some(t) => opt_view(t.status),
            None => None,
        },
        exit_code: match live(s, handle) {
            Some(t) => t.exit_code,
            None => None,
        },
    }
}

/// The handles of the links.
pub open spec fn link_handles(links: Seq<ClosingLinkView>) -> Seq<Seq<char>> {
    links.map_values(|l: ClosingLinkView| l.handle)
}

/// Whether the links are those of the criterion: one for each closing handle, in
/// order.
pub open spec fn links_match(
    s: Seq<GraphRecord>,
    n: NodeRecord,
    links: Seq<ClosingLinkView>,
) -> bool {
    &&& sorted_strict(link_handles(links))
    &&& forall|h: Seq<char>| #[trigger] link_handles(links).contains(h) <==> closes(s, n, h)
    &&& forall|k: int| 0 <= k < links.len() ==> #[trigger] links[k] == link_of(s, n, links[k].handle)
}

/// The owning task: the field of the criterion, else the first owning edge.
pub open spec fn parent_of(s: Seq<GraphRecord>, n: NodeRecord) -> Option<Seq<char>> {
    match n.parent_task_id {
        Some(p) => Some(p@),
        None => least(|t: Seq<char>| linked(s, EdgeLabel::OwnedByTask, n.id@, t)),
    }
}

/// The live task that owns the criterion.
pub open spec fn owning_task(s: Seq<GraphRecord>, n: NodeRecord) -> Option<NodeRecord> {
    match parent_of(s, n) {
        Some(p) => match live(s, p) {
            Some(t) => if t.kind == NodeKind::Task {
                Some(t)
            } else {
                None
            },
            None => None,
        },
        None => None,
    }
}

/// The status of the live task that owns the criterion.
pub open spec fn task_status(s: Seq<GraphRecord>, n: NodeRecord) -> Option<Seq<char>> {
    match owning_task(s, n) {
        Some(t) => opt_view(t.status),
        None => None,
    }
}

/// Whether the field and the owning edges of the criterion name different tasks.
pub open spec fn parent_conflict(s: Seq<GraphRecord>, n: NodeRecord) -> bool {
    &&& n.parent_task_id is Some
    &&& (exists|t: Seq<char>| #[trigger] linked(s, EdgeLabel::OwnedByTask, n.id@, t))
    &&& !linked(s, EdgeLabel::OwnedByTask, n.id@, n.parent_task_id->0@)
}

/// Whether the criterion is claimed done while it is not proven.
pub open spec fn claimed_done(s: Seq<GraphRecord>, n: NodeRecord) -> bool {
    task_status(s, n) == Some("closed_completed"@) && bucket_of(s, n) != CriterionBucket::Proven
}

/// The record that proves the criterion.
pub open spec fn proving_of(s: Seq<GraphRecord>, n: NodeRecord) -> Option<Seq<char>> {
    if bucket_of(s, n) == CriterionBucket::Proven {
        least(|h: Seq<char>| closes(s, n, h))
    } else {
        None
    }
}

/// Whether the row is that of the criterion.
pub open spec fn row_matches(s: Seq<GraphRecord>, n: NodeRecord, row: CriterionRowView) -> bool {
    &&& row.record_id == n.id@
    &&& row.parent_task_id == parent_of(s, n)
    &&& row.parent_task_status == task_status(s, n)
    &&& row.criterion_status == opt_view(n.status)
    &&& row.ordinal == n.ordinal
    &&& row.bucket == bucket_name(bucket_of(s, n))
    &&& links_match(s, n, row.closing_links)
    &&& row.proving_verification_id == proving_of(s, n)
    &&& row.repo_relative_path == opt_view(n.repo_relative_path)
    &&& row.span == n.span
    &&& row.source_handle == opt_view(n.source_handle)
    &&& row.external_link_id == least(
        |t: Seq<char>| linked(s, EdgeLabel::ExternalHandle, n.id@, t),
    )
    &&& row.claimed_done_unproven == claimed_done(s, n)
}

/// The identifiers of the rows.
pub open spec fn row_ids(rows: Seq<CriterionRowView>) -> Seq<Seq<char>> {
    rows.map_values(|r: CriterionRowView| r.record_id)
}

/// Whether `id` names a live criterion.
pub open spec fn is_criterion(s: Seq<GraphRecord>, id: Seq<char>) -> bool {
    live(s, id) matches Some(n) && n.kind == NodeKind::AcceptanceCriterion
}

/// The identifiers whose live node satisfies `p`, in order.
pub open spec fn keep(
    s: Seq<GraphRecord>,
    ids: Seq<Seq<char>>,
    p: spec_fn(NodeRecord) -> bool,
) -> Seq<Seq<char>>
    decreases ids.len(),
{
    if ids.len() == 0 {
        ids
    } else {
        let before = keep(s, ids.drop_last(), p);
        if p(live(s, ids.last())->0) {
            before.push(ids.last())
        } else {
            before
        }
    }
}

/// Whether the census is that of the store.
pub open spec fn census_matches(s: Seq<GraphRecord>, c: CriteriaCensus) -> bool {
    let rows = criterion_row_json_views(c.rows@);
    let ids = row_ids(rows);
    &&& sorted_strict(ids)
    &&& forall|id: Seq<char>| #[trigger] ids.contains(id) <==> is_criterion(s, id)
    &&& forall|k: int| 0 <= k < rows.len() ==> row_matches(s, live(s, ids[k])->0, #[trigger] rows[k])
    &&& views(c.dangling_ids@) == keep(
        s,
        ids,
        |n: NodeRecord| bucket_of(s, n) == CriterionBucket::DanglingEvidence,
    )
    &&& views(c.parent_conflict_ids@) == keep(s, ids, |n: NodeRecord| parent_conflict(s, n))
    &&& views(c.parent_unresolved_ids@) == keep(s, ids, |n: NodeRecord| owning_task(s, n) is None)
}

// ---------------------------------------------------------------------------
// Laws
// ---------------------------------------------------------------------------

/// A criterion is proven only by passing records of the verification domain: it
/// has a closing handle, and every one of them resolves to such a record.
pub proof fn law_proven_needs_passing_verification(s: Seq<GraphRecord>, n: NodeRecord)
    requires
        bucket_of(s, n) == CriterionBucket::Proven,
    ensures
        exists|h: Seq<char>| #[trigger] closes(s, n, h),
        forall|h: Seq<char>| #[trigger]
            closes(s, n, h) ==> live(s, h) is Some && is_verification_id(live(s, h)->0.id@)
                && outcome_of(live(s, h)->0) == VerificationOutcome::Passing,
{
    assert forall|h: Seq<char>| #[trigger] closes(s, n, h) implies live(s, h) is Some
        && is_verification_id(live(s, h)->0.id@) && outcome_of(live(s, h)->0)
        == VerificationOutcome::Passing by {
        assert(!closes_with(s, n, LinkResolution::Failing));
        assert(!closes_with(s, n, LinkResolution::Unresolved));
        assert(!closes_with(s, n, LinkResolution::NonVerificationDomain));
        assert(!closes_with(s, n, LinkResolution::Inconclusive));
    }
}

/// A failing link outweighs every other one.
pub proof fn law_failing_evidence_dominates(s: Seq<GraphRecord>, n: NodeRecord, h: Seq<char>)
    requires
        closes(s, n, h),
        resolution(s, h) == LinkResolution::Failing,
    ensures
        bucket_of(s, n) == CriterionBucket::FailedEvidence,
{
    assert(has_closing(s, n));
}

/// Whether two nodes agree in all that the census reads of a node, but for the status.
pub open spec fn read_alike(n: NodeRecord, m: NodeRecord) -> bool {
    &&& n.id@ == m.id@
    &&& n.kind == m.kind
    &&& n.exit_code == m.exit_code
    &&& opt_view(n.verification_kind) == opt_view(m.verification_kind)
    &&& opt_view(n.verification_link_id) == opt_view(m.verification_link_id)
    &&& opt_view(n.parent_task_id) == opt_view(m.parent_task_id)
    &&& n.ordinal == m.ordinal
    &&& opt_view(n.repo_relative_path) == opt_view(m.repo_relative_path)
    &&& n.span == m.span
    &&& opt_view(n.source_handle) == opt_view(m.source_handle)
}

/// Whether two stores have the same edges in effect, and nodes in effect under the same
/// identifiers that are read alike and agree on the status where `p` says so.
spec fn stores_agree(
    s: Seq<GraphRecord>,
    t: Seq<GraphRecord>,
    p: spec_fn(Seq<char>) -> bool,
) -> bool {
    &&& forall|label: EdgeLabel, a: Seq<char>, b: Seq<char>| #[trigger]
        linked(s, label, a, b) <==> linked(t, label, a, b)
    &&& forall|id: Seq<char>|
        (#[trigger] live(s, id) is Some) == (live(t, id) is Some)
    &&& forall|id: Seq<char>| #[trigger]
        live(s, id) is Some ==> {
            &&& read_alike(live(s, id)->0, live(t, id)->0)
            &&& live(s, id)->0.id@ == id
            &&& p(id) ==> opt_view(live(s, id)->0.status) == opt_view(live(t, id)->0.status)
        }
}

proof fn lemma_resolution_agrees(
    s: Seq<GraphRecord>,
    t: Seq<GraphRecord>,
    p: spec_fn(Seq<char>) -> bool,
    h: Seq<char>,
)
    requires
        stores_agree(s, t, p),
        forall|id: Seq<char>| is_verification_id(id) ==> #[trigger] p(id),
    ensures
        resolution(s, h) == resolution(t, h),
{
    if live(s, h) is Some {
        if is_verification_id(h) {
            assert(p(h));
        }
    }
}

proof fn lemma_bucket_agrees(
    s: Seq<GraphRecord>,
    t: Seq<GraphRecord>,
    p: spec_fn(Seq<char>) -> bool,
    n: NodeRecord,
    m: NodeRecord,
)
    requires
        stores_agree(s, t, p),
        forall|id: Seq<char>| is_verification_id(id) ==> #[trigger] p(id),
        read_alike(n, m),
    ensures
        forall|h: Seq<char>| #[trigger] closes(s, n, h) <==> closes(t, m, h),
        bucket_of(s, n) == bucket_of(t, m),
{
    assert forall|h: Seq<char>| #[trigger] closes(s, n, h) <==> closes(t, m, h) by {
        assert(linked(s, EdgeLabel::ClosesAcceptanceCriterion, n.id@, h) <==> linked(
            t,
            EdgeLabel::ClosesAcceptanceCriterion,
            n.id@,
            h,
        ));
    }
    assert(has_closing(s, n) <==> has_closing(t, m)) by {
        if has_closing(s, n) {
            let h = choose|h: Seq<char>| #[trigger] closes(s, n, h);
            assert(closes(t, m, h));
        }
        if has_closing(t, m) {
            let h = choose|h: Seq<char>| #[trigger] closes(t, m, h);
            assert(closes(s, n, h));
        }
    }
    assert forall|r: LinkResolution| #[trigger] closes_with(s, n, r) <==> closes_with(t, m, r) by {
        if closes_with(s, n, r) {
            let h = choose|h: Seq<char>| #[trigger] closes(s, n, h) && resolution(s, h) == r;
            lemma_resolution_agrees(s, t, p, h);
            assert(closes(t, m, h));
        }
        if closes_with(t, m, r) {
            let h = choose|h: Seq<char>| #[trigger] closes(t, m, h) && resolution(t, h) == r;
            lemma_resolution_agrees(s, t, p, h);
            assert(closes(s, n, h));
        }
    }
}

proof fn lemma_row_agrees(
    s: Seq<GraphRecord>,
    t: Seq<GraphRecord>,
    n: NodeRecord,
    m: NodeRecord,
    row: CriterionRowView,
)
    requires
        stores_agree(s, t, |id: Seq<char>| true),
        read_alike(n, m),
        opt_view(n.status) == opt_view(m.status),
        row_matches(s, n, row),
    ensures
        row_matches(t, m, row),
        parent_conflict(s, n) == parent_conflict(t, m),
        (owning_task(s, n) is None) == (owning_task(t, m) is None),
{
    let p = |id: Seq<char>| true;
    lemma_bucket_agrees(s, t, p, n, m);
    let f = |x: Seq<char>| linked(s, EdgeLabel::OwnedByTask, n.id@, x);
    let g = |x: Seq<char>| linked(t, EdgeLabel::OwnedByTask, m.id@, x);
    assert(f =~= g);
    assert(parent_of(s, n) == parent_of(t, m));
    let f2 = |x: Seq<char>| linked(s, EdgeLabel::ExternalHandle, n.id@, x);
    let g2 = |x: Seq<char>| linked(t, EdgeLabel::ExternalHandle, m.id@, x);
    assert(f2 =~= g2);
    let f3 = |h: Seq<char>| closes(s, n, h);
    let g3 = |h: Seq<char>| closes(t, m, h);
    assert(f3 =~= g3);
    match parent_of(s, n) {
        Some(x) => {
            assert((live(s, x) is Some) == (live(t, x) is Some));
            if live(s, x) is Some {
                assert(p(x));
                assert(read_alike(live(s, x)->0, live(t, x)->0));
            }
        },
        None => {},
    }
    assert forall|k: int| 0 <= k < row.closing_links.len() implies #[trigger] row.closing_links[k]
        == link_of(t, m, row.closing_links[k].handle) by {
        let h = row.closing_links[k].handle;
        assert(row.closing_links[k] == link_of(s, n, h));
        lemma_resolution_agrees(s, t, p, h);
        assert((live(s, h) is Some) == (live(t, h) is Some));
        if live(s, h) is Some {
            assert(p(h));
            assert(read_alike(live(s, h)->0, live(t, h)->0));
            assert(live(s, h)->0.verification_kind is Some == live(t, h)->0.verification_kind is Some);
        }
        assert(linked(s, EdgeLabel::ClosesAcceptanceCriterion, n.id@, h) <==> linked(
            t,
            EdgeLabel::ClosesAcceptanceCriterion,
            n.id@,
            h,
        ));
    }
    assert forall|h: Seq<char>| #[trigger]
        link_handles(row.closing_links).contains(h) <==> closes(t, m, h) by {
        assert(closes(s, n, h) <==> closes(t, m, h));
    }
    if n.parent_task_id is Some {
        assert(opt_view(n.parent_task_id) == opt_view(m.parent_task_id));
        assert(m.parent_task_id is Some);
        let x = n.parent_task_id->0@;
        assert(linked(s, EdgeLabel::OwnedByTask, n.id@, x) <==> linked(
            t,
            EdgeLabel::OwnedByTask,
            m.id@,
            x,
        ));
        if exists|x: Seq<char>| #[trigger] linked(s, EdgeLabel::OwnedByTask, n.id@, x) {
            let x = choose|x: Seq<char>| #[trigger] linked(s, EdgeLabel::OwnedByTask, n.id@, x);
            assert(linked(t, EdgeLabel::OwnedByTask, m.id@, x));
        }
        if exists|x: Seq<char>| #[trigger] linked(t, EdgeLabel::OwnedByTask, m.id@, x) {
            let x = choose|x: Seq<char>| #[trigger] linked(t, EdgeLabel::OwnedByTask, m.id@, x);
            assert(linked(s, EdgeLabel::OwnedByTask, n.id@, x));
        }
    } else {
        assert(opt_view(n.parent_task_id) is None);
        assert(m.parent_task_id is None);
    }
}

proof fn lemma_keep_agrees(
    s: Seq<GraphRecord>,
    t: Seq<GraphRecord>,
    ids: Seq<Seq<char>>,
    p: spec_fn(NodeRecord) -> bool,
    q: spec_fn(NodeRecord) -> bool,
)
    requires
        forall|k: int|
            0 <= k < ids.len() ==> p(live(s, #[trigger] ids[k])->0) == q(live(t, ids[k])->0),
    ensures
        keep(s, ids, p) == keep(t, ids, q),
    decreases ids.len(),
{
    if ids.len() > 0 {
        assert forall|k: int| 0 <= k < ids.drop_last().len() implies p(
            live(s, #[trigger] ids.drop_last()[k])->0,
        ) == q(live(t, ids.drop_last()[k])->0) by {
            assert(ids.drop_last()[k] == ids[k]);
        }
        lemma_keep_agrees(s, t, ids.drop_last(), p, q);
        assert(ids.last() == ids[ids.len() - 1]);
    }
}

proof fn lemma_census_agrees(s: Seq<GraphRecord>, t: Seq<GraphRecord>, c: CriteriaCensus)
    requires
        stores_agree(s, t, |id: Seq<char>| true),
        census_matches(s, c),
    ensures
        census_matches(t, c),
{
    let p = |id: Seq<char>| true;
    let rows = criterion_row_json_views(c.rows@);
    let ids = row_ids(rows);
    assert forall|id: Seq<char>| #[trigger] ids.contains(id) <==> is_criterion(t, id) by {
        assert(ids.contains(id) <==> is_criterion(s, id));
        assert((live(s, id) is Some) == (live(t, id) is Some));
    }
    assert forall|k: int| 0 <= k < rows.len() implies {
        &&& row_matches(t, live(t, ids[k])->0, #[trigger] rows[k])
        &&& bucket_of(s, live(s, ids[k])->0) == bucket_of(t, live(t, ids[k])->0)
        &&& parent_conflict(s, live(s, ids[k])->0) == parent_conflict(t, live(t, ids[k])->0)
        &&& (owning_task(s, live(s, ids[k])->0) is None) == (owning_task(
            t,
            live(t, ids[k])->0,
        ) is None)
    } by {
        assert(ids.contains(ids[k]));
        assert(is_criterion(s, ids[k]));
        let n = live(s, ids[k])->0;
        let m = live(t, ids[k])->0;
        assert(p(ids[k]));
        assert(read_alike(n, m));
        lemma_row_agrees(s, t, n, m, rows[k]);
        lemma_bucket_agrees(s, t, p, n, m);
    }
    assert(ids.len() == rows.len());
    assert forall|k: int| 0 <= k < ids.len() implies {
        &&& bucket_of(s, live(s, #[trigger] ids[k])->0) == bucket_of(t, live(t, ids[k])->0)
        &&& parent_conflict(s, live(s, ids[k])->0) == parent_conflict(t, live(t, ids[k])->0)
        &&& (owning_task(s, live(s, ids[k])->0) is None) == (owning_task(
            t,
            live(t, ids[k])->0,
        ) is None)
    } by {
        assert(row_matches(t, live(t, ids[k])->0, rows[k]));
    }
    lemma_keep_agrees(
        s,
        t,
        ids,
        |n: NodeRecord| bucket_of(s, n) == CriterionBucket::DanglingEvidence,
        |n: NodeRecord| bucket_of(t, n) == CriterionBucket::DanglingEvidence,
    );
    lemma_keep_agrees(
        s,
        t,
        ids,
        |n: NodeRecord| parent_conflict(s, n),
        |n: NodeRecord| parent_conflict(t, n),
    );
    lemma_keep_agrees(
        s,
        t,
        ids,
        |n: NodeRecord| owning_task(s, n) is None,
        |n: NodeRecord| owning_task(t, n) is None,
    );
}

/// Whether a report is one of the store.
pub open spec fn reports(
    r: CriteriaCoverageReport,
    s: Seq<GraphRecord>,
    gate: ProvenRatioGate,
    config: CriteriaCoverageConfig,
) -> bool {
    exists|c: CriteriaCensus| #[trigger] census_matches(s, c) && tells_census(r, c, gate, config)
}

proof fn lemma_reports_agree(
    s: Seq<GraphRecord>,
    t: Seq<GraphRecord>,
    r: CriteriaCoverageReport,
    gate: ProvenRatioGate,
    config: CriteriaCoverageConfig,
)
    requires
        stores_agree(s, t, |id: Seq<char>| true),
        reports(r, s, gate, config),
    ensures
        reports(r, t, gate, config),
{
    let c = choose|c: CriteriaCensus| #[trigger]
        census_matches(s, c) && tells_census(r, c, gate, config);
    lemma_census_agrees(s, t, c);
}

/// Whether a node is a task or a criterion.
pub open spec fn is_planned(n: NodeView) -> bool {
    n.kind == NodeKind::Task || n.kind == NodeKind::AcceptanceCriterion
}

/// Whether two stores differ in nothing but what tasks and criteria say in prose: their
/// texts, their summaries, and what nothing reads of them, among it their titles.
pub open spec fn differ_in_prose(s: Seq<GraphRecord>, t: Seq<GraphRecord>) -> bool {
    &&& s.len() == t.len()
    &&& forall|i: int|
        0 <= i < s.len() ==> match (#[trigger] s[i], t[i]) {
            (GraphRecord::Node(a), GraphRecord::Node(b)) => a@ == b@ || (is_planned(a@) && a@
                == (NodeView { text: a@.text, summary: a@.summary, rest: a@.rest, ..b@ })),
            (a, b) => a@ == b@,
        }
}

proof fn lemma_node_views(n: NodeRecord, m: NodeRecord)
    requires
        n@ == (NodeView {
            text: n@.text,
            summary: n@.summary,
            rest: n@.rest,
            status: n@.status,
            ..m@
        }),
    ensures
        read_alike(n, m),
{
}

proof fn lemma_prose_agrees(s: Seq<GraphRecord>, t: Seq<GraphRecord>)
    requires
        differ_in_prose(s, t),
    ensures
        stores_agree(s, t, |id: Seq<char>| true),
{
    assert forall|i: int| 0 <= i < s.len() implies same_place(#[trigger] s[i], t[i]) by {
        lemma_same_place_views(s[i], t[i]);
    }
    lemma_same_places(s, t);
    assert forall|id: Seq<char>| (#[trigger] live(s, id) is Some) == (live(t, id) is Some) by {
        assert(live_node(s, id) == live_node(t, id));
    }
    assert forall|id: Seq<char>| #[trigger] live(s, id) is Some implies {
        &&& read_alike(live(s, id)->0, live(t, id)->0)
        &&& live(s, id)->0.id@ == id
        &&& opt_view(live(s, id)->0.status) == opt_view(live(t, id)->0.status)
    } by {
        assert(live_node(s, id) == live_node(t, id));
        lemma_last_node(s, id);
        let i = live_node(s, id)->0;
        assert(same_place(s[i], t[i]));
        let n = s[i]->Node_0;
        let m = t[i]->Node_0;
        assert(n@.status == m@.status);
        lemma_node_views(n, m);
    }
}

proof fn lemma_same_place_views(a: GraphRecord, b: GraphRecord)
    requires
        match (a, b) {
            (GraphRecord::Node(x), GraphRecord::Node(y)) => x@.id == y@.id,
            (a, b) => a@ == b@,
        },
    ensures
        same_place(a, b),
{
    match a {
        GraphRecord::Node(x) => {
            assert(a@ == RecordView::Node(x@));
        },
        GraphRecord::Edge(x) => {
            assert(a@ == RecordView::Edge(x@));
            assert(b@ is Edge);
            assert(x@ == b->Edge_0@);
            assert(x@.id == b->Edge_0@.id);
        },
        GraphRecord::Tombstone(x) => {
            assert(a@ == RecordView::Tombstone(x@));
            assert(b@ is Tombstone);
            assert(x@.deleted_id == b->Tombstone_0@.deleted_id);
        },
    }
}

/// No prose reaches the report: stores that differ in nothing but the texts, summaries
/// and titles of tasks and criteria have the same censuses and the same reports.
pub proof fn law_prose_does_not_reach_the_report(
    s: Seq<GraphRecord>,
    t: Seq<GraphRecord>,
    c: CriteriaCensus,
    r: CriteriaCoverageReport,
    gate: ProvenRatioGate,
    config: CriteriaCoverageConfig,
)
    requires
        differ_in_prose(s, t),
    ensures
        census_matches(s, c) <==> census_matches(t, c),
        reports(r, s, gate, config) <==> reports(r, t, gate, config),
{
    lemma_prose_agrees(s, t);
    assert(differ_in_prose(t, s)) by {
        assert forall|i: int| 0 <= i < t.len() implies match (#[trigger] t[i], s[i]) {
            (GraphRecord::Node(a), GraphRecord::Node(b)) => a@ == b@ || (is_planned(a@) && a@
                == (NodeView { text: a@.text, summary: a@.summary, rest: a@.rest, ..b@ })),
            (a, b) => a@ == b@,
        } by {
            assert(match (s[i], t[i]) {
                (GraphRecord::Node(a), GraphRecord::Node(b)) => a@ == b@ || (is_planned(a@) && a@
                    == (NodeView { text: a@.text, summary: a@.summary, rest: a@.rest, ..b@ })),
                (a, b) => a@ == b@,
            });
        }
    }
    lemma_prose_agrees(t, s);
    if census_matches(s, c) {
        lemma_census_agrees(s, t, c);
    }
    if census_matches(t, c) {
        lemma_census_agrees(t, s, c);
    }
    if reports(r, s, gate, config) {
        lemma_reports_agree(s, t, r, gate, config);
    }
    if reports(r, t, gate, config) {
        lemma_reports_agree(t, s, r, gate, config);
    }
}

proof fn lemma_order_agrees(s: Seq<GraphRecord>, t: Seq<GraphRecord>)
    requires
        settled(s),
        settled(t),
        s.to_multiset() == t.to_multiset(),
    ensures
        stores_agree(s, t, |id: Seq<char>| true),
{
    lemma_same_members(s, t);
    lemma_order_is_free(s, t);
    assert forall|id: Seq<char>| #[trigger] live(s, id) is Some implies live(s, id)->0.id@ == id by {
        lemma_last_node(s, id);
    }
}

/// The order of the records does not change the answer: where no two nodes or edges share
/// an identifier and every tombstone comes after what it deletes, a store and its
/// permutation have the same censuses and the same reports.
pub proof fn law_record_order_does_not_change_the_answer(
    s: Seq<GraphRecord>,
    t: Seq<GraphRecord>,
    c: CriteriaCensus,
    r: CriteriaCoverageReport,
    gate: ProvenRatioGate,
    config: CriteriaCoverageConfig,
)
    requires
        settled(s),
        settled(t),
        s.to_multiset() == t.to_multiset(),
    ensures
        census_matches(s, c) <==> census_matches(t, c),
        reports(r, s, gate, config) <==> reports(r, t, gate, config),
{
    lemma_order_agrees(s, t);
    lemma_order_agrees(t, s);
    if census_matches(s, c) {
        lemma_census_agrees(s, t, c);
    }
    if census_matches(t, c) {
        lemma_census_agrees(t, s, c);
    }
    if reports(r, s, gate, config) {
        lemma_reports_agree(s, t, r, gate, config);
    }
    if reports(r, t, gate, config) {
        lemma_reports_agree(t, s, r, gate, config);
    }
}

/// Whether two stores differ in nothing but the status of tasks and criteria that are no
/// records of the verification domain.
pub open spec fn differ_in_status(s: Seq<GraphRecord>, t: Seq<GraphRecord>) -> bool {
    &&& s.len() == t.len()
    &&& forall|i: int|
        0 <= i < s.len() ==> match (#[trigger] s[i], t[i]) {
            (GraphRecord::Node(a), GraphRecord::Node(b)) => a@ == b@ || (is_planned(a@)
                && !is_verification_id(a@.id) && a@ == (NodeView { status: a@.status, ..b@ })),
            (a, b) => a@ == b@,
        }
}

proof fn lemma_status_agrees(s: Seq<GraphRecord>, t: Seq<GraphRecord>)
    requires
        differ_in_status(s, t),
    ensures
        stores_agree(s, t, |id: Seq<char>| is_verification_id(id)),
{
    assert forall|i: int| 0 <= i < s.len() implies same_place(#[trigger] s[i], t[i]) by {
        lemma_same_place_views(s[i], t[i]);
    }
    lemma_same_places(s, t);
    assert forall|id: Seq<char>| (#[trigger] live(s, id) is Some) == (live(t, id) is Some) by {
        assert(live_node(s, id) == live_node(t, id));
    }
    assert forall|id: Seq<char>| #[trigger] live(s, id) is Some implies {
        &&& read_alike(live(s, id)->0, live(t, id)->0)
        &&& live(s, id)->0.id@ == id
        &&& is_verification_id(id) ==> opt_view(live(s, id)->0.status) == opt_view(
            live(t, id)->0.status,
        )
    } by {
        assert(live_node(s, id) == live_node(t, id));
        lemma_last_node(s, id);
        let i = live_node(s, id)->0;
        assert(same_place(s[i], t[i]));
        let n = s[i]->Node_0;
        let m = t[i]->Node_0;
        if is_verification_id(id) {
            assert(n@.status == m@.status);
        }
        lemma_node_views(n, m);
    }
}

proof fn lemma_count_agrees(
    a: Seq<CriterionRowView>,
    b: Seq<CriterionRowView>,
    bucket: CriterionBucket,
)
    requires
        a.len() == b.len(),
        forall|k: int| 0 <= k < a.len() ==> (#[trigger] a[k]).bucket == b[k].bucket,
    ensures
        count_in(a, bucket) == count_in(b, bucket),
    decreases a.len(),
{
    if a.len() > 0 {
        assert(a[a.len() - 1].bucket == b[b.len() - 1].bucket);
        assert forall|k: int| 0 <= k < a.drop_last().len() implies (#[trigger] a.drop_last()[k]).bucket
            == b.drop_last()[k].bucket by {
            assert(a[k].bucket == b[k].bucket);
        }
        lemma_count_agrees(a.drop_last(), b.drop_last(), bucket);
    }
}

/// Recorded status moves no criterion: stores that differ in nothing but the status of
/// tasks and criteria have the same criteria, each in the same bucket, and so the same
/// count of every bucket.
pub proof fn law_recorded_status_moves_no_criterion(
    s: Seq<GraphRecord>,
    t: Seq<GraphRecord>,
    a: CriteriaCensus,
    b: CriteriaCensus,
    bucket: CriterionBucket,
)
    requires
        differ_in_status(s, t),
        census_matches(s, a),
        census_matches(t, b),
    ensures
        ({
            let x = criterion_row_json_views(a.rows@);
            let y = criterion_row_json_views(b.rows@);
            &&& row_ids(x) == row_ids(y)
            &&& forall|k: int| 0 <= k < x.len() ==> (#[trigger] x[k]).bucket == y[k].bucket
            &&& count_in(x, bucket) == count_in(y, bucket)
        }),
{
    let p = |id: Seq<char>| is_verification_id(id);
    lemma_status_agrees(s, t);
    let x = criterion_row_json_views(a.rows@);
    let y = criterion_row_json_views(b.rows@);
    assert forall|id: Seq<char>| #[trigger] row_ids(x).contains(id) <==> row_ids(y).contains(id) by {
        assert(row_ids(x).contains(id) <==> is_criterion(s, id));
        assert(row_ids(y).contains(id) <==> is_criterion(t, id));
        assert((live(s, id) is Some) == (live(t, id) is Some));
    }
    lemma_sorted_unique(row_ids(x), row_ids(y));
    assert(row_ids(x).len() == x.len() && row_ids(y).len() == y.len());
    assert forall|k: int| 0 <= k < x.len() implies (#[trigger] x[k]).bucket == y[k].bucket by {
        let id = row_ids(x)[k];
        assert(row_ids(x).contains(id));
        assert(is_criterion(s, id));
        assert(row_ids(y)[k] == id);
        assert(row_matches(s, live(s, id)->0, x[k]));
        assert(row_matches(t, live(t, id)->0, y[k]));
        lemma_bucket_agrees(s, t, p, live(s, id)->0, live(t, id)->0);
    }
    lemma_count_agrees(x, y, bucket);
}

/// Censuses with the same criteria in the same buckets are told alike.
proof fn lemma_told_alike(
    r: CriteriaCoverageReport,
    q: CriteriaCoverageReport,
    a: CriteriaCensus,
    b: CriteriaCensus,
    gate_r: ProvenRatioGate,
    gate_q: ProvenRatioGate,
    config: CriteriaCoverageConfig,
)
    requires
        tells_census(r, a, gate_r, config),
        tells_census(q, b, gate_q, config),
        row_ids(criterion_row_json_views(a.rows@)) == row_ids(criterion_row_json_views(b.rows@)),
        forall|k: int|
            0 <= k < a.rows@.len() ==> (#[trigger] criterion_row_json_views(a.rows@)[k]).bucket
                == criterion_row_json_views(b.rows@)[k].bucket,
    ensures
        told_alike(r, q),
{
    let x = criterion_row_json_views(a.rows@);
    let y = criterion_row_json_views(b.rows@);
    assert(row_ids(x).len() == x.len() && row_ids(y).len() == y.len());
    lemma_count_agrees(x, y, CriterionBucket::Proven);
    lemma_count_agrees(x, y, CriterionBucket::Unverified);
    lemma_count_agrees(x, y, CriterionBucket::FailedEvidence);
    lemma_count_agrees(x, y, CriterionBucket::DanglingEvidence);
    lemma_count_agrees(x, y, CriterionBucket::NonVerificationEvidence);
    lemma_count_agrees(x, y, CriterionBucket::InconclusiveEvidence);
    let u = criterion_row_json_views(r.criteria@);
    let v = criterion_row_json_views(q.criteria@);
    assert(u.len() == r.criteria@.len() && v.len() == q.criteria@.len());
    assert forall|k: int| 0 <= k < r.criteria@.len() implies (#[trigger] r.criteria@[k])@.record_id
        == q.criteria@[k]@.record_id && r.criteria@[k]@.bucket == q.criteria@[k]@.bucket by {
        assert(u[k] == x[k] && v[k] == y[k]);
        assert(row_ids(x)[k] == row_ids(y)[k]);
        assert(x[k].bucket == y[k].bucket);
    }
}

/// Whether two reports list the same criteria in the same buckets, and agree on the count
/// of every bucket and on its share.
pub open spec fn told_alike(r: CriteriaCoverageReport, q: CriteriaCoverageReport) -> bool {
    &&& r.total_criteria == q.total_criteria
    &&& r.proven == q.proven
    &&& r.unverified == q.unverified
    &&& r.failed_evidence == q.failed_evidence
    &&& r.dangling_evidence == q.dangling_evidence
    &&& r.non_verification_evidence == q.non_verification_evidence
    &&& r.inconclusive_evidence == q.inconclusive_evidence
    &&& r.proof_gap == q.proof_gap
    &&& r.bucket_counts@.len() == q.bucket_counts@.len()
    &&& forall|k: int|
        0 <= k < r.bucket_counts@.len() ==> (#[trigger] r.bucket_counts@[k]).0@
            == q.bucket_counts@[k].0@ && r.bucket_counts@[k].1 == q.bucket_counts@[k].1
    &&& r.criteria@.len() == q.criteria@.len()
    &&& forall|k: int|
        0 <= k < r.criteria@.len() ==> (#[trigger] r.criteria@[k])@.record_id
            == q.criteria@[k]@.record_id && r.criteria@[k]@.bucket == q.criteria@[k]@.bucket
}

/// Recorded status never confers or removes proof: the reports of stores that differ in
/// nothing but the status of tasks and criteria list the same criteria in the same buckets,
/// and agree on the count of every bucket and on the share that is proven.
pub proof fn law_recorded_status_never_confers_proof(
    s: Seq<GraphRecord>,
    t: Seq<GraphRecord>,
    r: CriteriaCoverageReport,
    q: CriteriaCoverageReport,
    gate_r: ProvenRatioGate,
    gate_q: ProvenRatioGate,
    config: CriteriaCoverageConfig,
)
    requires
        differ_in_status(s, t),
        reports(r, s, gate_r, config),
        reports(q, t, gate_q, config),
    ensures
        told_alike(r, q),
{
    let a = choose|c: CriteriaCensus| #[trigger]
        census_matches(s, c) && tells_census(r, c, gate_r, config);
    let b = choose|c: CriteriaCensus| #[trigger]
        census_matches(t, c) && tells_census(q, c, gate_q, config);
    law_recorded_status_moves_no_criterion(s, t, a, b, CriterionBucket::Proven);
    lemma_told_alike(r, q, a, b, gate_r, gate_q, config);
}

/// The census of a store is determined by the store: two censuses of it have the
/// same rows.
pub proof fn law_census_is_determined(s: Seq<GraphRecord>, a: CriteriaCensus, b: CriteriaCensus)
    requires
        census_matches(s, a),
        census_matches(s, b),
    ensures
        criterion_row_json_views(a.rows@) == criterion_row_json_views(b.rows@),
        views(a.dangling_ids@) == views(b.dangling_ids@),
        views(a.parent_conflict_ids@) == views(b.parent_conflict_ids@),
        views(a.parent_unresolved_ids@) == views(b.parent_unresolved_ids@),
{
    let x = criterion_row_json_views(a.rows@);
    let y = criterion_row_json_views(b.rows@);
    assert forall|id: Seq<char>| #[trigger] row_ids(x).contains(id) <==> row_ids(y).contains(id) by {
        assert(row_ids(x).contains(id) <==> is_criterion(s, id));
        assert(row_ids(y).contains(id) <==> is_criterion(s, id));
    }
    lemma_sorted_unique(row_ids(x), row_ids(y));
    assert forall|k: int| 0 <= k < x.len() implies x[k] == y[k] by {
        let n = live(s, row_ids(x)[k])->0;
        assert(row_ids(x)[k] == row_ids(y)[k]);
        assert(row_matches(s, n, x[k]));
        assert(row_matches(s, n, y[k]));
        lemma_links_unique(s, n, x[k].closing_links, y[k].closing_links);
    }
    assert(row_ids(x).len() == x.len() && row_ids(y).len() == y.len());
    assert(x =~= y);
}

proof fn lemma_links_unique(
    s: Seq<GraphRecord>,
    n: NodeRecord,
    a: Seq<ClosingLinkView>,
    b: Seq<ClosingLinkView>,
)
    requires
        links_match(s, n, a),
        links_match(s, n, b),
    ensures
        a == b,
{
    assert forall|h: Seq<char>| #[trigger] link_handles(a).contains(h) <==> link_handles(b).contains(h) by {
        assert(link_handles(a).contains(h) <==> closes(s, n, h));
        assert(link_handles(b).contains(h) <==> closes(s, n, h));
    }
    lemma_sorted_unique(link_handles(a), link_handles(b));
    assert forall|k: int| 0 <= k < a.len() implies a[k] == b[k] by {
        assert(link_handles(a)[k] == link_handles(b)[k]);
    }
    assert(link_handles(a).len() == a.len() && link_handles(b).len() == b.len());
    assert(a =~= b);
}

// ---------------------------------------------------------------------------
// Classification
// ---------------------------------------------------------------------------

/// Whether the identifier is one that the verification domain mints.
pub fn is_verification_domain_id(id: &str) -> (r: bool)
    ensures
        r == is_verification_id(id@),
{
    if !crate::text::starts_with(id, "verification:v") {
        return false;
    }
    proof {
        reveal_strlit("verification:v");
    }
    let v = chars_of(id);
    let mut i: usize = 14;
    let mut seen = false;
    while i < v.len()
        invariant
            14 <= i <= v@.len(),
            v@ == id@,
            digits_then_colon(id@, 14, false) == digits_then_colon(id@, i as int, seen),
            has_prefix(id@, "verification:v"@),
        decreases v@.len() - i,
    {
        let c = v[i];
        if '0' <= c && c <= '9' {
            seen = true;
        } else {
            return seen && c == ':';
        }
        i = i + 1;
    }
    false
}

/// The recorded outcome of a verification.
pub fn verification_outcome(n: &NodeRecord) -> (r: VerificationOutcome)
    ensures
        r == outcome_of(*n),
{
    if opt_is(&n.status, "pass") || opt_is(&n.status, "passed") {
        return VerificationOutcome::Passing;
    }
    if opt_is(&n.status, "fail") || opt_is(&n.status, "failed") {
        return VerificationOutcome::Failing;
    }
    match n.exit_code {
        Some(c) => if c == 0 {
            VerificationOutcome::Passing
        } else {
            VerificationOutcome::Failing
        },
        None => VerificationOutcome::Inconclusive,
    }
}

/// Resolves one closing handle: how it resolves and, where it names a live record,
/// the kind, the status and the exit code that are reported of it.
pub fn resolve_handle(records: &Vec<GraphRecord>, handle: &str) -> (r: (
    LinkResolution,
    Option<String>,
    Option<String>,
    Option<i64>,
))
    ensures
        r.0 == resolution(records@, handle@),
        match live(records@, handle@) {
            Some(t) => opt_view(r.1) == Some(reported_kind(t)) && opt_view(r.2) == opt_view(t.status)
                && r.3 == t.exit_code,
            None => r.1 is None && r.2 is None && r.3 is None,
        },
{
    match find_live(records, handle) {
        None => (LinkResolution::Unresolved, None, None, None),
        Some(n) => {
            let kind = match &n.verification_kind {
                Some(k) => k.clone(),
                None => n.kind.as_str().to_owned(),
            };
            let status = opt_clone(&n.status);
            let resolved = if !is_verification_domain_id(n.id.as_str()) {
                LinkResolution::NonVerificationDomain
            } else {
                match verification_outcome(n) {
                    VerificationOutcome::Passing => LinkResolution::Passing,
                    VerificationOutcome::Failing => LinkResolution::Failing,
                    VerificationOutcome::Inconclusive => LinkResolution::Inconclusive,
                }
            };
            (resolved, Some(kind), status, n.exit_code)
        },
    }
}

fn has_resolution(resolutions: &Vec<LinkResolution>, wanted: LinkResolution) -> (r: bool)
    ensures
        r == resolutions@.contains(wanted),
{
    let mut i: usize = 0;
    while i < resolutions.len()
        invariant
            i <= resolutions@.len(),
            forall|k: int| 0 <= k < i ==> resolutions@[k] != wanted,
        decreases resolutions@.len() - i,
    {
        if resolutions[i] == wanted {
            return true;
        }
        i = i + 1;
    }
    false
}

/// The bucket that the resolutions of the closing links give.
pub fn bucket_for(resolutions: &Vec<LinkResolution>) -> (r: CriterionBucket)
    ensures
        r == (if resolutions@.len() == 0 {
            CriterionBucket::Unverified
        } else if resolutions@.contains(LinkResolution::Failing) {
            CriterionBucket::FailedEvidence
        } else if resolutions@.contains(LinkResolution::Unresolved) {
            CriterionBucket::DanglingEvidence
        } else if resolutions@.contains(LinkResolution::NonVerificationDomain) {
            CriterionBucket::NonVerificationEvidence
        } else if resolutions@.contains(LinkResolution::Inconclusive) {
            CriterionBucket::InconclusiveEvidence
        } else {
            CriterionBucket::Proven
        }),
{
    if resolutions.len() == 0 {
        CriterionBucket::Unverified
    } else if has_resolution(resolutions, LinkResolution::Failing) {
        CriterionBucket::FailedEvidence
    } else if has_resolution(resolutions, LinkResolution::Unresolved) {
        CriterionBucket::DanglingEvidence
    } else if has_resolution(resolutions, LinkResolution::NonVerificationDomain) {
        CriterionBucket::NonVerificationEvidence
    } else if has_resolution(resolutions, LinkResolution::Inconclusive) {
        CriterionBucket::InconclusiveEvidence
    } else {
        CriterionBucket::Proven
    }
}

/// The closing links of a criterion and its bucket.
fn closing_links(records: &Vec<GraphRecord>, n: &NodeRecord) -> (r: (
    Vec<ClosingLinkJson>,
    CriterionBucket,
))
    ensures
        links_match(records@, *n, closing_link_json_views(r.0@)),
        r.1 == bucket_of(records@, *n),
{
    let ghost s = records@;
    let by_edge = targets_of(records, EdgeLabel::ClosesAcceptanceCriterion, n.id.as_str());
    let mut handles = targets_of(records, EdgeLabel::ClosesAcceptanceCriterion, n.id.as_str());
    match &n.verification_link_id {
        Some(h) => {
            handles.insert(h.as_str());
        },
        None => {},
    }
    assert forall|h: Seq<char>| #[trigger] handles.has(h) <==> closes(s, *n, h) by {}
    let mut links: Vec<ClosingLinkJson> = Vec::new();
    let mut resolutions: Vec<LinkResolution> = Vec::new();
    let mut i: usize = 0;
    while i < handles.items.len()
        invariant
            i <= handles.items@.len(),
            s == records@,
            by_edge.wf(),
            forall|t: Seq<char>| #[trigger]
                by_edge.has(t) <==> linked(s, EdgeLabel::ClosesAcceptanceCriterion, n.id@, t),
            forall|h: Seq<char>| #[trigger] handles.has(h) <==> closes(s, *n, h),
            links@.len() == i,
            resolutions@.len() == i,
            forall|k: int|
                0 <= k < i ==> (#[trigger] links@[k])@ == link_of(s, *n, handles.items@[k]@),
            forall|k: int|
                0 <= k < i ==> #[trigger] resolutions@[k] == resolution(s, handles.items@[k]@),
        decreases handles.items@.len() - i,
    {
        let handle = handles.items[i].as_str();
        assert(handles.seq()[i as int] == handle@);
        assert(handles.has(handle@));
        assert(closes(s, *n, handle@));
        let edge = by_edge.contains(handle);
        let field = opt_is(&n.verification_link_id, handle);
        let mut origins: Vec<String> = Vec::new();
        if edge {
            origins.push("closes_edge".to_owned());
        }
        if field {
            origins.push("verification_link_id".to_owned());
        }
        assert(views(origins@) =~= origins_of(s, *n, handle@));
        let (resolved, kind, status, exit_code) = resolve_handle(records, handle);
        resolutions.push(resolved);
        let link = ClosingLinkJson {
            handle: handle.to_owned(),
            origins,
            resolution: resolved.as_wire().to_owned(),
            verification_kind: kind,
            status,
            exit_code,
        };
        assert(link@ =~= link_of(s, *n, handle@));
        links.push(link);
        i = i + 1;
    }
    let bucket = bucket_for(&resolutions);
    proof {
        let lv = closing_link_json_views(links@);
        assert(link_handles(lv) =~= handles.seq());
        assert forall|h: Seq<char>| #[trigger] link_handles(lv).contains(h) <==> closes(s, *n, h) by {
            assert(handles.has(h) <==> closes(s, *n, h));
        }
        assert forall|r: LinkResolution| #[trigger] resolutions@.contains(r) <==> closes_with(s, *n, r) by {
            if resolutions@.contains(r) {
                let k = choose|k: int| 0 <= k < resolutions@.len() && resolutions@[k] == r;
                let h = handles.items@[k]@;
                assert(handles.seq()[k] == h);
                assert(handles.has(h));
                assert(closes(s, *n, h));
            }
            if closes_with(s, *n, r) {
                let h = choose|h: Seq<char>| #[trigger] closes(s, *n, h) && resolution(s, h) == r;
                assert(handles.has(h));
                let k = choose|k: int| 0 <= k < handles.seq().len() && handles.seq()[k] == h;
                assert(resolutions@[k] == r);
            }
        }
        if handles.seq().len() > 0 {
            assert(handles.has(handles.seq()[0]));
            assert(closes(s, *n, handles.seq()[0]));
        } else if has_closing(s, *n) {
            let h = choose|h: Seq<char>| #[trigger] closes(s, *n, h);
            assert(handles.has(h));
        }
    }
    (links, bucket)
}

fn first_of(set: &StrSet) -> (r: Option<String>)
    ensures
        opt_view(r) == (if set.seq().len() == 0 {
            None
        } else {
            Some(set.seq()[0])
        }),
{
    if set.items.len() == 0 {
        None
    } else {
        Some(set.items[0].clone())
    }
}

/// What is known of the owner of a criterion.
struct Ownership {
    parent: Option<String>,
    status: Option<String>,
    conflict: bool,
    missing: bool,
}

fn ownership(records: &Vec<GraphRecord>, n: &NodeRecord) -> (r: Ownership)
    ensures
        opt_view(r.parent) == parent_of(records@, *n),
        opt_view(r.status) == task_status(records@, *n),
        r.conflict == parent_conflict(records@, *n),
        r.missing == (owning_task(records@, *n) is None),
{
    let ghost s = records@;
    let owners = targets_of(records, EdgeLabel::OwnedByTask, n.id.as_str());
    proof {
        lemma_least_of_set(|t: Seq<char>| linked(s, EdgeLabel::OwnedByTask, n.id@, t), &owners);
    }
    let parent: Option<String> = match &n.parent_task_id {
        Some(p) => Some(p.clone()),
        None => first_of(&owners),
    };
    let conflict = match &n.parent_task_id {
        Some(p) => owners.items.len() > 0 && !owners.contains(p.as_str()),
        None => false,
    };
    proof {
        if owners.items@.len() > 0 {
            assert(owners.has(owners.seq()[0]));
        } else if exists|t: Seq<char>| #[trigger] linked(s, EdgeLabel::OwnedByTask, n.id@, t) {
            let t = choose|t: Seq<char>| #[trigger] linked(s, EdgeLabel::OwnedByTask, n.id@, t);
            assert(owners.has(t));
        }
    }
    let mut status: Option<String> = None;
    let mut missing = true;
    match &parent {
        Some(p) => match find_live(records, p.as_str()) {
            Some(t) => {
                if t.kind == NodeKind::Task {
                    status = opt_clone(&t.status);
                    missing = false;
                }
            },
            None => {},
        },
        None => {},
    }
    Ownership { parent, status, conflict, missing }
}

proof fn lemma_proving(s: Seq<GraphRecord>, n: NodeRecord, links: Seq<ClosingLinkView>)
    requires
        links_match(s, n, links),
        bucket_of(s, n) == CriterionBucket::Proven,
    ensures
        links.len() > 0,
        proving_of(s, n) == Some(links[0].handle),
{
    let handles = link_handles(links);
    let p = |h: Seq<char>| closes(s, n, h);
    assert forall|h: Seq<char>| #[trigger] p(h) <==> handles.contains(h) by {}
    lemma_least_of_seq(p, handles);
    assert(has_closing(s, n));
    let h = choose|h: Seq<char>| #[trigger] closes(s, n, h);
    assert(handles.contains(h));
}

/// The row of one criterion, and whether its owners conflict and its task is
/// missing.
fn criterion_row(records: &Vec<GraphRecord>, n: &NodeRecord) -> (r: (
    CriterionRowJson,
    CriterionBucket,
    bool,
    bool,
))
    ensures
        row_matches(records@, *n, r.0@),
        r.1 == bucket_of(records@, *n),
        r.2 == parent_conflict(records@, *n),
        r.3 == (owning_task(records@, *n) is None),
{
    let ghost s = records@;
    let (links, bucket) = closing_links(records, n);
    let owner = ownership(records, n);
    let externals = targets_of(records, EdgeLabel::ExternalHandle, n.id.as_str());
    proof {
        lemma_least_of_set(
            |t: Seq<char>| linked(s, EdgeLabel::ExternalHandle, n.id@, t),
            &externals,
        );
        if bucket == CriterionBucket::Proven {
            lemma_proving(s, *n, closing_link_json_views(links@));
        }
    }
    let claimed = opt_is(&owner.status, "closed_completed") && bucket != CriterionBucket::Proven;
    let proving: Option<String> = if bucket == CriterionBucket::Proven {
        Some(links[0].handle.clone())
    } else {
        None
    };
    let row = CriterionRowJson {
        record_id: n.id.clone(),
        parent_task_id: owner.parent,
        parent_task_status: owner.status,
        criterion_status: opt_clone(&n.status),
        ordinal: n.ordinal,
        bucket: bucket.as_wire().to_owned(),
        closing_links: links,
        proving_verification_id: proving,
        repo_relative_path: opt_clone(&n.repo_relative_path),
        span: n.span,
        source_handle: opt_clone(&n.source_handle),
        external_link_id: first_of(&externals),
        claimed_done_unproven: claimed,
    };
    (row, bucket, owner.conflict, owner.missing)
}

proof fn lemma_least_of_seq(p: spec_fn(Seq<char>) -> bool, q: Seq<Seq<char>>)
    requires
        sorted_strict(q),
        forall|t: Seq<char>| #[trigger] p(t) <==> q.contains(t),
    ensures
        least(p) == (if q.len() == 0 {
            None
        } else {
            Some(q[0])
        }),
{
    if q.len() == 0 {
        if exists|t: Seq<char>| #[trigger] p(t) {
            let t = choose|t: Seq<char>| #[trigger] p(t);
            assert(q.contains(t));
        }
    } else {
        assert(q.contains(q[0]));
        assert(p(q[0]));
        assert forall|u: Seq<char>| #[trigger] p(u) implies crate::text::lex_le(q[0], u) by {
            let k = choose|k: int| 0 <= k < q.len() && q[k] == u;
            if k > 0 {
                assert(lex_lt(q[0], q[k]));
            }
        }
        let t = choose|t: Seq<char>| #[trigger]
            p(t) && forall|u: Seq<char>| #[trigger] p(u) ==> crate::text::lex_le(t, u);
        assert(p(t) && crate::text::lex_le(t, q[0]) && crate::text::lex_le(q[0], t));
        if t != q[0] {
            crate::text::lemma_lex_asymmetric(t, q[0]);
        }
    }
}

/// Classifies every live criterion of the store.
pub fn criteria_census(records: &Vec<GraphRecord>) -> (c: CriteriaCensus)
    ensures
        census_matches(records@, c),
{
    let ghost s = records@;
    let ids = live_ids_of_kind(records, NodeKind::AcceptanceCriterion);
    let ghost all = ids.seq();
    let ghost dangling_p = |n: NodeRecord| bucket_of(s, n) == CriterionBucket::DanglingEvidence;
    let ghost conflict_p = |n: NodeRecord| parent_conflict(s, n);
    let ghost missing_p = |n: NodeRecord| owning_task(s, n) is None;
    let mut rows: Vec<CriterionRowJson> = Vec::new();
    let mut dangling_ids: Vec<String> = Vec::new();
    let mut parent_conflict_ids: Vec<String> = Vec::new();
    let mut parent_unresolved_ids: Vec<String> = Vec::new();
    let mut i: usize = 0;
    proof {
        assert(all.take(0) =~= Seq::<Seq<char>>::empty());
        assert(views(dangling_ids@) =~= Seq::<Seq<char>>::empty());
        assert(views(parent_conflict_ids@) =~= Seq::<Seq<char>>::empty());
        assert(views(parent_unresolved_ids@) =~= Seq::<Seq<char>>::empty());
    }
    while i < ids.items.len()
        invariant
            i <= ids.items@.len(),
            s == records@,
            all == ids.seq(),
            ids.wf(),
            forall|id: Seq<char>| #[trigger] ids.has(id) <==> is_criterion(s, id),
            dangling_p == (|n: NodeRecord| bucket_of(s, n) == CriterionBucket::DanglingEvidence),
            conflict_p == (|n: NodeRecord| parent_conflict(s, n)),
            missing_p == (|n: NodeRecord| owning_task(s, n) is None),
            rows@.len() == i,
            forall|k: int|
                0 <= k < i ==> (#[trigger] rows@[k])@.record_id == all[k] && row_matches(
                    s,
                    live(s, all[k])->0,
                    rows@[k]@,
                ),
            views(dangling_ids@) == keep(s, all.take(i as int), dangling_p),
            views(parent_conflict_ids@) == keep(s, all.take(i as int), conflict_p),
            views(parent_unresolved_ids@) == keep(s, all.take(i as int), missing_p),
        decreases ids.items@.len() - i,
    {
        let id = ids.items[i].as_str();
        assert(all[i as int] == id@);
        assert(ids.has(id@));
        proof {
            let upto = all.take(i + 1);
            assert(upto.drop_last() =~= all.take(i as int));
            assert(upto.last() == id@);
        }
        match find_live(records, id) {
            Some(n) => {
                let (row, bucket, conflict, missing) = criterion_row(records, n);
                if bucket == CriterionBucket::DanglingEvidence {
                    let ghost before = views(dangling_ids@);
                    dangling_ids.push(n.id.clone());
                    assert(views(dangling_ids@) =~= before.push(id@));
                }
                if conflict {
                    let ghost before = views(parent_conflict_ids@);
                    parent_conflict_ids.push(n.id.clone());
                    assert(views(parent_conflict_ids@) =~= before.push(id@));
                }
                if missing {
                    let ghost before = views(parent_unresolved_ids@);
                    parent_unresolved_ids.push(n.id.clone());
                    assert(views(parent_unresolved_ids@) =~= before.push(id@));
                }
                rows.push(row);
            },
            None => {
                assert(false);
            },
        }
        i = i + 1;
    }
    proof {
        let rv = criterion_row_json_views(rows@);
        assert(row_ids(rv) =~= all);
        assert(all.take(i as int) =~= all);
        assert forall|id: Seq<char>| #[trigger] row_ids(rv).contains(id) <==> is_criterion(s, id) by {
            assert(ids.has(id) <==> is_criterion(s, id));
        }
    }
    CriteriaCensus { rows, dangling_ids, parent_conflict_ids, parent_unresolved_ids }
}

// ---------------------------------------------------------------------------
// The report
// ---------------------------------------------------------------------------

/// How many rows are in the bucket.
pub open spec fn count_in(rows: Seq<CriterionRowView>, bucket: CriterionBucket) -> nat
    decreases rows.len(),
{
    if rows.len() == 0 {
        0
    } else {
        count_in(rows.drop_last(), bucket) + (if rows.last().bucket == bucket_name(bucket) {
            1nat
        } else {
            0nat
        })
    }
}

/// The rows that are claimed done without proof, in order.
pub open spec fn claimed_rows(rows: Seq<CriterionRowView>) -> Seq<CriterionRowView>
    decreases rows.len(),
{
    if rows.len() == 0 {
        rows
    } else if rows.last().claimed_done_unproven {
        claimed_rows(rows.drop_last()).push(rows.last())
    } else {
        claimed_rows(rows.drop_last())
    }
}

/// At most the first `limit` rows.
pub open spec fn capped(rows: Seq<CriterionRowView>, limit: nat) -> Seq<CriterionRowView> {
    if rows.len() > limit {
        rows.take(limit as int)
    } else {
        rows
    }
}

/// A diagnostic where the condition holds.
pub open spec fn diagnostic_if(
    condition: bool,
    code: Seq<char>,
    record_ids: Seq<Seq<char>>,
    detail: Seq<char>,
) -> Seq<DiagnosticView> {
    if condition {
        seq![DiagnosticView { code, record_ids, detail }]
    } else {
        Seq::empty()
    }
}

/// The detail of a list that was cut off.
pub open spec fn truncated_detail(limit: nat, total: nat, noun: Seq<char>) -> Seq<char> {
    "showing "@ + decimal_seq(limit) + " of "@ + decimal_seq(total) + " "@ + noun
        + " rows; raise --limit to see the rest"@
}

/// The detail of a share of proven criteria below its minimum.
pub open spec fn ratio_detail(
    observed: Seq<char>,
    proven: nat,
    total: nat,
    bound: Seq<char>,
) -> Seq<char> {
    "proven ratio "@ + observed + " ("@ + decimal_seq(proven) + "/"@ + decimal_seq(total)
        + ") is below the required minimum "@ + bound
}

/// The message of too many criteria that are claimed done without proof.
pub open spec fn claimed_message(count: nat, bound: nat) -> Seq<char> {
    decimal_seq(count)
        + " criterion(s) are owned by a closed/done task yet carry no passing verification evidence; the allowed maximum is "@
        + decimal_seq(bound)
}

/// The detail of too many criteria that are claimed done without proof.
pub open spec fn claimed_detail(count: nat, bound: nat) -> Seq<char> {
    decimal_seq(count)
        + " claimed-done-but-unproven criterion(s) exceed the allowed maximum "@ + decimal_seq(bound)
}

/// The thresholds that were not met.
pub open spec fn breaches_of(
    rows: Seq<CriterionRowView>,
    gate: ProvenRatioGate,
    bound: nat,
) -> Seq<BreachView> {
    let count = claimed_rows(rows).len();
    let claimed = if count > bound {
        seq![
            BreachView {
                metric: "claimed_done_unproven"@,
                observed: decimal_seq(count),
                bound: decimal_seq(bound),
                message: claimed_message(count, bound),
            },
        ]
    } else {
        Seq::empty()
    };
    let ratio = match gate {
        ProvenRatioGate::Met => Seq::empty(),
        ProvenRatioGate::Missed { observed, bound: minimum } => seq![
            BreachView {
                metric: "proven_ratio"@,
                observed: observed@,
                bound: minimum@,
                message: ratio_detail(
                    observed@,
                    count_in(rows, CriterionBucket::Proven),
                    rows.len(),
                    minimum@,
                ),
            },
        ],
    };
    claimed + ratio
}

/// The diagnostics of the report, in the order of their codes.
pub open spec fn diagnostics_of(
    rows: Seq<CriterionRowView>,
    dangling: Seq<Seq<char>>,
    conflict: Seq<Seq<char>>,
    unresolved: Seq<Seq<char>>,
    gate: ProvenRatioGate,
    bound: nat,
    limit: nat,
) -> Seq<DiagnosticView> {
    let claimed = claimed_rows(rows);
    diagnostic_if(
        claimed.len() > bound,
        "above_claimed_done_unproven_threshold"@,
        row_ids(claimed),
        claimed_detail(claimed.len(), bound),
    ) + diagnostic_if(
        gate is Missed,
        "below_proven_ratio_threshold"@,
        Seq::empty(),
        ratio_detail(
            gate->observed@,
            count_in(rows, CriterionBucket::Proven),
            rows.len(),
            gate->bound@,
        ),
    ) + diagnostic_if(
        conflict.len() > 0,
        "criterion_parent_task_conflict"@,
        conflict,
        "criterion(s) whose OWNED_BY_TASK edge target differs from parent_task_id; the recorded field wins and the conflict is reported"@,
    ) + diagnostic_if(
        unresolved.len() > 0,
        "criterion_parent_task_unresolved"@,
        unresolved,
        "criterion(s) whose owning Task does not resolve to a live Task record; they are still counted in the census but can never enter the claimed-done-but-unproven set"@,
    ) + diagnostic_if(
        dangling.len() > 0,
        "dangling_closing_evidence"@,
        dangling,
        "criterion(s) carry a closing verification handle that resolves to no live record; reported in their own bucket with the original handles, never counted proven and never merged into unverified"@,
    ) + diagnostic_if(
        rows.len() == 0,
        "no_acceptance_criteria"@,
        Seq::empty(),
        "the store records no live acceptance criteria; coverage ratios have a zero denominator and are reported as null. This is not a failure \u{2014} it means no criteria were imported, not that none exist"@,
    ) + diagnostic_if(
        rows.len() > limit,
        "results_truncated"@,
        Seq::empty(),
        truncated_detail(limit, rows.len(), "criteria"@),
    ) + diagnostic_if(
        claimed.len() > limit,
        "results_truncated"@,
        Seq::empty(),
        truncated_detail(limit, claimed.len(), "claimed_done_unproven"@),
    )
}

/// The count of a bucket out of all rows.
pub open spec fn ratio_of(rows: Seq<CriterionRowView>, bucket: CriterionBucket, r: Ratio) -> bool {
    r.numerator == count_in(rows, bucket) && r.denominator == rows.len()
}

/// A bucket and its count.
pub open spec fn tally(entry: (String, usize), rows: Seq<CriterionRowView>, b: CriterionBucket) -> bool {
    entry.0@ == bucket_name(b) && entry.1 == count_in(rows, b)
}

fn count_rows(rows: &Vec<CriterionRowJson>, bucket: CriterionBucket) -> (n: usize)
    ensures
        n == count_in(criterion_row_json_views(rows@), bucket),
        n <= rows@.len(),
{
    let ghost all = criterion_row_json_views(rows@);
    let name = bucket.as_wire();
    let mut n: usize = 0;
    let mut i: usize = 0;
    while i < rows.len()
        invariant
            i <= rows@.len(),
            all == criterion_row_json_views(rows@),
            name@ == bucket_name(bucket),
            n <= i,
            n == count_in(all.take(i as int), bucket),
        decreases rows@.len() - i,
    {
        proof {
            let upto = all.take(i + 1);
            assert(upto.drop_last() =~= all.take(i as int));
            assert(upto.last() == rows@[i as int]@);
        }
        if str_eq(rows[i].bucket.as_str(), name) {
            n = n + 1;
        }
        i = i + 1;
    }
    assert(all.take(i as int) =~= all);
    n
}

fn select_claimed(rows: &Vec<CriterionRowJson>) -> (r: (Vec<CriterionRowJson>, Vec<String>))
    ensures
        criterion_row_json_views(r.0@) == claimed_rows(criterion_row_json_views(rows@)),
        views(r.1@) == row_ids(claimed_rows(criterion_row_json_views(rows@))),
        r.0@.len() == r.1@.len(),
{
    let ghost all = criterion_row_json_views(rows@);
    let mut out: Vec<CriterionRowJson> = Vec::new();
    let mut ids: Vec<String> = Vec::new();
    let mut i: usize = 0;
    proof {
        assert(all.take(0) =~= Seq::<CriterionRowView>::empty());
        assert(criterion_row_json_views(out@) =~= claimed_rows(all.take(0)));
        assert(views(ids@) =~= row_ids(claimed_rows(all.take(0))));
    }
    while i < rows.len()
        invariant
            i <= rows@.len(),
            all == criterion_row_json_views(rows@),
            criterion_row_json_views(out@) == claimed_rows(all.take(i as int)),
            views(ids@) == row_ids(claimed_rows(all.take(i as int))),
            out@.len() == ids@.len(),
        decreases rows@.len() - i,
    {
        let ghost before = claimed_rows(all.take(i as int));
        proof {
            let upto = all.take(i + 1);
            assert(upto.drop_last() =~= all.take(i as int));
            assert(upto.last() == rows@[i as int]@);
        }
        if rows[i].claimed_done_unproven {
            out.push(rows[i].copy());
            ids.push(rows[i].record_id.clone());
            proof {
                assert(criterion_row_json_views(out@) =~= before.push(rows@[i as int]@));
                assert(row_ids(before.push(rows@[i as int]@)) =~= row_ids(before).push(
                    rows@[i as int]@.record_id,
                ));
                assert(views(ids@) =~= row_ids(before).push(rows@[i as int]@.record_id));
            }
        }
        i = i + 1;
    }
    assert(all.take(i as int) =~= all);
    (out, ids)
}

/// Cuts a list of rows off at `limit`; tells how many there were if some went.
pub fn truncate_rows(rows: &mut Vec<CriterionRowJson>, limit: usize) -> (cut: Option<usize>)
    ensures
        criterion_row_json_views(final(rows)@) == capped(
            criterion_row_json_views(old(rows)@),
            limit as nat,
        ),
        cut == (if old(rows)@.len() > limit {
            Some(old(rows)@.len() as usize)
        } else {
            None
        }),
{
    let total: usize = rows.len();
    if total > limit {
        rows.truncate(limit);
        assert(criterion_row_json_views(rows@) =~= criterion_row_json_views(old(rows)@).take(
            limit as int,
        ));
        Some(total)
    } else {
        None
    }
}

fn push_diagnostic(
    out: &mut Vec<CriteriaCoverageDiagnostic>,
    condition: bool,
    code: &str,
    record_ids: Vec<String>,
    detail: String,
)
    ensures
        diagnostic_views(final(out)@) == diagnostic_views(old(out)@) + diagnostic_if(
            condition,
            code@,
            views(record_ids@),
            detail@,
        ),
{
    if condition {
        out.push(CriteriaCoverageDiagnostic { code: code.to_owned(), record_ids, detail });
    }
    assert(diagnostic_views(out@) =~= diagnostic_views(old(out)@) + diagnostic_if(
        condition,
        code@,
        views(record_ids@),
        detail@,
    ));
}

/// The views of a list of diagnostics.
pub open spec fn diagnostic_views(s: Seq<CriteriaCoverageDiagnostic>) -> Seq<DiagnosticView> {
    s.map_values(|d: CriteriaCoverageDiagnostic| d@)
}

/// The views of a list of breaches.
pub open spec fn breach_views(s: Seq<CriteriaCoverageBreach>) -> Seq<BreachView> {
    s.map_values(|b: CriteriaCoverageBreach| b@)
}

fn truncated_text(limit: usize, total: usize, noun: &str) -> (r: String)
    ensures
        r@ == truncated_detail(limit as nat, total as nat, noun@),
{
    let mut s = "showing ".to_owned();
    s.append(decimal(limit as u64).as_str());
    s.append(" of ");
    s.append(decimal(total as u64).as_str());
    s.append(" ");
    s.append(noun);
    s.append(" rows; raise --limit to see the rest");
    s
}

fn ratio_text(observed: &str, proven: usize, total: usize, bound: &str) -> (r: String)
    ensures
        r@ == ratio_detail(observed@, proven as nat, total as nat, bound@),
{
    let mut s = "proven ratio ".to_owned();
    s.append(observed);
    s.append(" (");
    s.append(decimal(proven as u64).as_str());
    s.append("/");
    s.append(decimal(total as u64).as_str());
    s.append(") is below the required minimum ");
    s.append(bound);
    s
}

fn claimed_texts(count: usize, bound: usize) -> (r: (String, String))
    ensures
        r.0@ == claimed_message(count as nat, bound as nat),
        r.1@ == claimed_detail(count as nat, bound as nat),
{
    let n = decimal(count as u64);
    let b = decimal(bound as u64);
    let mut message = n.clone();
    message.append(
        " criterion(s) are owned by a closed/done task yet carry no passing verification evidence; the allowed maximum is ",
    );
    message.append(b.as_str());
    let mut detail = n;
    detail.append(" claimed-done-but-unproven criterion(s) exceed the allowed maximum ");
    detail.append(b.as_str());
    (message, detail)
}

fn report_breaches(
    gate: &ProvenRatioGate,
    proven: usize,
    total: usize,
    claimed: usize,
    bound: usize,
    Ghost(rows): Ghost<Seq<CriterionRowView>>,
) -> (r: Vec<CriteriaCoverageBreach>)
    requires
        proven == count_in(rows, CriterionBucket::Proven),
        total == rows.len(),
        claimed == claimed_rows(rows).len(),
    ensures
        breach_views(r@) == breaches_of(rows, *gate, bound as nat),
{
    let mut out: Vec<CriteriaCoverageBreach> = Vec::new();
    if claimed > bound {
        let (message, _) = claimed_texts(claimed, bound);
        out.push(
            CriteriaCoverageBreach {
                metric: "claimed_done_unproven".to_owned(),
                observed: decimal(claimed as u64),
                bound: decimal(bound as u64),
                message,
            },
        );
    }
    match gate {
        ProvenRatioGate::Met => {},
        ProvenRatioGate::Missed { observed, bound: minimum } => {
            out.push(
                CriteriaCoverageBreach {
                    metric: "proven_ratio".to_owned(),
                    observed: observed.clone(),
                    bound: minimum.clone(),
                    message: ratio_text(observed.as_str(), proven, total, minimum.as_str()),
                },
            );
        },
    }
    assert(breach_views(out@) =~= breaches_of(rows, *gate, bound as nat));
    out
}

/// How the share stands: where there are no criteria, there is none that could be too low.
pub open spec fn applied(gate: ProvenRatioGate, rows: Seq<CriterionRowView>) -> ProvenRatioGate {
    if rows.len() == 0 {
        ProvenRatioGate::Met
    } else {
        gate
    }
}

/// Whether a report tells the census, held against the thresholds.
pub open spec fn tells_census(
    report: CriteriaCoverageReport,
    census: CriteriaCensus,
    gate: ProvenRatioGate,
    config: CriteriaCoverageConfig,
) -> bool {
    let rows = criterion_row_json_views(census.rows@);
    let claimed = claimed_rows(rows);
    let bound = config.max_claimed_done_unproven as nat;
    &&& report.ok == (applied(gate, rows) is Met && claimed.len() <= bound)
    &&& report.total_criteria == rows.len()
    &&& ratio_of(rows, CriterionBucket::Proven, report.proven)
    &&& ratio_of(rows, CriterionBucket::Unverified, report.unverified)
    &&& ratio_of(rows, CriterionBucket::FailedEvidence, report.failed_evidence)
    &&& ratio_of(rows, CriterionBucket::DanglingEvidence, report.dangling_evidence)
    &&& ratio_of(
        rows,
        CriterionBucket::NonVerificationEvidence,
        report.non_verification_evidence,
    )
    &&& ratio_of(rows, CriterionBucket::InconclusiveEvidence, report.inconclusive_evidence)
    &&& report.proof_gap.numerator == rows.len() - report.proven.numerator
    &&& report.proof_gap.denominator == rows.len()
    &&& report.bucket_counts@.len() == 6
    &&& tally(report.bucket_counts@[0], rows, CriterionBucket::DanglingEvidence)
    &&& tally(report.bucket_counts@[1], rows, CriterionBucket::FailedEvidence)
    &&& tally(report.bucket_counts@[2], rows, CriterionBucket::InconclusiveEvidence)
    &&& tally(report.bucket_counts@[3], rows, CriterionBucket::NonVerificationEvidence)
    &&& tally(report.bucket_counts@[4], rows, CriterionBucket::Proven)
    &&& tally(report.bucket_counts@[5], rows, CriterionBucket::Unverified)
    &&& views(report.done_task_statuses@) == seq!["closed_completed"@]
    &&& report.claimed_done_unproven_count == claimed.len()
    &&& criterion_row_json_views(report.claimed_done_unproven@) == capped(
        claimed,
        config.limit as nat,
    )
    &&& criterion_row_json_views(report.criteria@) == capped(rows, config.limit as nat)
    &&& report.max_claimed_done_unproven == config.max_claimed_done_unproven
    &&& breach_views(report.breaches@) == breaches_of(
        rows,
        applied(gate, rows),
        bound,
    )
    &&& diagnostic_views(report.diagnostics@) == diagnostics_of(
        rows,
        views(census.dangling_ids@),
        views(census.parent_conflict_ids@),
        views(census.parent_unresolved_ids@),
        applied(gate, rows),
        bound,
        config.limit as nat,
    )
    &&& report.disclaimer@ == CRITERIA_COVERAGE_DISCLAIMER@
}

/// The report of a census under the thresholds. The share of proven criteria is
/// compared by the caller, from the count of the census.
pub fn coverage_report(
    census: CriteriaCensus,
    gate: ProvenRatioGate,
    config: &CriteriaCoverageConfig,
) -> (report: CriteriaCoverageReport)
    ensures
        tells_census(report, census, gate, *config),
{
    let ghost rows = criterion_row_json_views(census.rows@);
    let total: usize = census.rows.len();
    let gate = if total == 0 {
        ProvenRatioGate::Met
    } else {
        gate
    };
    let bound: usize = config.max_claimed_done_unproven;
    let proven = count_rows(&census.rows, CriterionBucket::Proven);
    let unverified = count_rows(&census.rows, CriterionBucket::Unverified);
    let failed = count_rows(&census.rows, CriterionBucket::FailedEvidence);
    let dangling = count_rows(&census.rows, CriterionBucket::DanglingEvidence);
    let outside = count_rows(&census.rows, CriterionBucket::NonVerificationEvidence);
    let inconclusive = count_rows(&census.rows, CriterionBucket::InconclusiveEvidence);
    let (mut claimed, claimed_ids) = select_claimed(&census.rows);
    let claimed_count: usize = claimed.len();
    assert(criterion_row_json_views(claimed@).len() == claimed@.len());
    let breaches = report_breaches(&gate, proven, total, claimed_count, bound, Ghost(rows));
    let ok = breaches.len() == 0;
    assert(breach_views(breaches@).len() == breaches@.len());

    let mut diagnostics: Vec<CriteriaCoverageDiagnostic> = Vec::new();
    let (_, detail) = claimed_texts(claimed_count, bound);
    push_diagnostic(
        &mut diagnostics,
        claimed_count > bound,
        "above_claimed_done_unproven_threshold",
        claimed_ids,
        detail,
    );
    match &gate {
        ProvenRatioGate::Met => {},
        ProvenRatioGate::Missed { observed, bound: minimum } => {
            push_diagnostic(
                &mut diagnostics,
                true,
                "below_proven_ratio_threshold",
                Vec::new(),
                ratio_text(observed.as_str(), proven, total, minimum.as_str()),
            );
        },
    }
    let has_conflict = census.parent_conflict_ids.len() > 0;
    let has_unresolved = census.parent_unresolved_ids.len() > 0;
    let has_dangling = census.dangling_ids.len() > 0;
    push_diagnostic(
        &mut diagnostics,
        has_conflict,
        "criterion_parent_task_conflict",
        census.parent_conflict_ids,
        "criterion(s) whose OWNED_BY_TASK edge target differs from parent_task_id; the recorded field wins and the conflict is reported".to_owned(),
    );
    push_diagnostic(
        &mut diagnostics,
        has_unresolved,
        "criterion_parent_task_unresolved",
        census.parent_unresolved_ids,
        "criterion(s) whose owning Task does not resolve to a live Task record; they are still counted in the census but can never enter the claimed-done-but-unproven set".to_owned(),
    );
    push_diagnostic(
        &mut diagnostics,
        has_dangling,
        "dangling_closing_evidence",
        census.dangling_ids,
        "criterion(s) carry a closing verification handle that resolves to no live record; reported in their own bucket with the original handles, never counted proven and never merged into unverified".to_owned(),
    );
    push_diagnostic(
        &mut diagnostics,
        total == 0,
        "no_acceptance_criteria",
        Vec::new(),
        "the store records no live acceptance criteria; coverage ratios have a zero denominator and are reported as null. This is not a failure \u{2014} it means no criteria were imported, not that none exist".to_owned(),
    );
    let mut criteria = census.rows;
    let _ = truncate_rows(&mut criteria, config.limit);
    let _ = truncate_rows(&mut claimed, config.limit);
    push_diagnostic(
        &mut diagnostics,
        total > config.limit,
        "results_truncated",
        Vec::new(),
        truncated_text(config.limit, total, "criteria"),
    );
    push_diagnostic(
        &mut diagnostics,
        claimed_count > config.limit,
        "results_truncated",
        Vec::new(),
        truncated_text(config.limit, claimed_count, "claimed_done_unproven"),
    );
    proof {
        assert(views(Seq::<String>::empty()) =~= Seq::<Seq<char>>::empty());
        assert(diagnostic_views(diagnostics@) =~= diagnostics_of(
            rows,
            views(census.dangling_ids@),
            views(census.parent_conflict_ids@),
            views(census.parent_unresolved_ids@),
            gate,
            bound as nat,
            config.limit as nat,
        ));
    }
    let mut bucket_counts: Vec<(String, usize)> = Vec::new();
    bucket_counts.push((CriterionBucket::DanglingEvidence.as_wire().to_owned(), dangling));
    bucket_counts.push((CriterionBucket::FailedEvidence.as_wire().to_owned(), failed));
    bucket_counts.push((CriterionBucket::InconclusiveEvidence.as_wire().to_owned(), inconclusive));
    bucket_counts.push((CriterionBucket::NonVerificationEvidence.as_wire().to_owned(), outside));
    bucket_counts.push((CriterionBucket::Proven.as_wire().to_owned(), proven));
    bucket_counts.push((CriterionBucket::Unverified.as_wire().to_owned(), unverified));
    let mut done_task_statuses: Vec<String> = Vec::new();
    done_task_statuses.push("closed_completed".to_owned());
    assert(views(done_task_statuses@) =~= seq!["closed_completed"@]);
    CriteriaCoverageReport {
        ok,
        total_criteria: total,
        proven: Ratio { numerator: proven, denominator: total },
        unverified: Ratio { numerator: unverified, denominator: total },
        failed_evidence: Ratio { numerator: failed, denominator: total },
        dangling_evidence: Ratio { numerator: dangling, denominator: total },
        non_verification_evidence: Ratio { numerator: outside, denominator: total },
        inconclusive_evidence: Ratio { numerator: inconclusive, denominator: total },
        proof_gap: Ratio { numerator: total - proven, denominator: total },
        bucket_counts,
        done_task_statuses,
        claimed_done_unproven_count: claimed_count,
        claimed_done_unproven: claimed,
        criteria,
        max_claimed_done_unproven: bound,
        breaches,
        diagnostics,
        disclaimer: CRITERIA_COVERAGE_DISCLAIMER.to_owned(),
    }
}

/// How many criteria of a census are proven.
pub fn proven_count(census: &CriteriaCensus) -> (n: usize)
    ensures
        n == count_in(criterion_row_json_views(census.rows@), CriterionBucket::Proven),
{
    count_rows(&census.rows, CriterionBucket::Proven)
}

/// The buckets partition the criteria of a store.
pub proof fn law_buckets_partition_the_census(s: Seq<GraphRecord>, c: CriteriaCensus)
    requires
        census_matches(s, c),
    ensures
        ({
            let rows = criterion_row_json_views(c.rows@);
            count_in(rows, CriterionBucket::Proven) + count_in(rows, CriterionBucket::FailedEvidence)
                + count_in(rows, CriterionBucket::DanglingEvidence) + count_in(
                rows,
                CriterionBucket::NonVerificationEvidence,
            ) + count_in(rows, CriterionBucket::InconclusiveEvidence) + count_in(
                rows,
                CriterionBucket::Unverified,
            ) == rows.len()
        }),
{
    let rows = criterion_row_json_views(c.rows@);
    assert forall|k: int| 0 <= k < rows.len() implies exists|b: CriterionBucket|
        (#[trigger] rows[k]).bucket == bucket_name(b) by {
        let n = live(s, row_ids(rows)[k])->0;
        assert(row_matches(s, n, rows[k]));
        assert(rows[k].bucket == bucket_name(bucket_of(s, n)));
    }
    lemma_partition(rows);
}

proof fn lemma_partition(rows: Seq<CriterionRowView>)
    requires
        forall|k: int|
            0 <= k < rows.len() ==> exists|b: CriterionBucket|
                (#[trigger] rows[k]).bucket == bucket_name(b),
    ensures
        count_in(rows, CriterionBucket::Proven) + count_in(rows, CriterionBucket::FailedEvidence)
            + count_in(rows, CriterionBucket::DanglingEvidence) + count_in(
            rows,
            CriterionBucket::NonVerificationEvidence,
        ) + count_in(rows, CriterionBucket::InconclusiveEvidence) + count_in(
            rows,
            CriterionBucket::Unverified,
        ) == rows.len(),
    decreases rows.len(),
{
    if rows.len() > 0 {
        let init = rows.drop_last();
        assert forall|k: int| 0 <= k < init.len() implies exists|b: CriterionBucket|
            (#[trigger] init[k]).bucket == bucket_name(b) by {
            assert(init[k] == rows[k]);
        }
        lemma_partition(init);
        let last = rows[rows.len() - 1];
        let b = choose|b: CriterionBucket| last.bucket == bucket_name(b);
        assert forall|a: CriterionBucket| #[trigger] bucket_name(a) == bucket_name(b) implies a == b by {
            law_bucket_names_are_distinct(a, b);
        }
    }
}

} // verus!
