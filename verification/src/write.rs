//! Writing a batch: the decisions between the store and the idempotency record.
//!
//! A write is a conversation. [`begin_write`] and [`step_write`] decide what to do
//! next, and the caller does it and reports what came of it. Nothing is written before
//! a pending entry is saved, and no success is answered before the committed entry is.

use vstd::prelude::*;
use vstd::string::*;

use crate::api_error::{plain_error, ApiError, ErrorCode, ErrorView};
use crate::evidence_edges::{ConfidenceTable, StoreSnapshot};
use crate::evidence_synthesis::{
    basis, edge_views, evidence_outcome, node_views, validate_and_synthesize_evidence_edges,
};
use crate::ingest_rules::{
    ambiguous_keys, duplicate_keys, has_ambiguous_recovery_keys, has_duplicate_recovery_keys,
    local_path_error, recovery_key_error, validate_no_local_path_identity_in_shared_store,
    validate_unique_recovery_keys, IdentityFacts, StoredRepositories,
};
use crate::ir::{
    record_id, record_views, EdgeRecord, EdgeView, GraphRecord, NodeRecord, NodeView, RecordView,
};
use crate::record_rules::{
    artifact_domain_error, validate_artifact_domain_records, validate_verification_domain_records,
    verification_errors,
};
use crate::text::{concat3, copy_strings, str_eq, views};

verus! {

// ---------------------------------------------------------------------------
// What is answered and remembered
// ---------------------------------------------------------------------------

/// A record that was not written.
#[derive(Clone, Debug, PartialEq, Eq)]
pub struct DaemonIngestFailure {
    /// The record.
    pub record_id: String,
    /// What went wrong.
    pub message: String,
}

/// The view of a [`DaemonIngestFailure`].
#[verifier::ext_equal]
pub struct IngestFailureView {
    pub record_id: Seq<char>,
    pub message: Seq<char>,
}

impl View for DaemonIngestFailure {
    type V = IngestFailureView;

    open spec fn view(&self) -> IngestFailureView {
        IngestFailureView {
            record_id: self.record_id@,
            message: self.message@,
        }
    }
}

impl DaemonIngestFailure {
    /// A copy with the same view.
    pub fn copy(&self) -> (r: DaemonIngestFailure)
        ensures
            r@ == self@,
    {
        DaemonIngestFailure {
            record_id: self.record_id.clone(),
            message: self.message.clone(),
        }
    }
}

/// The views of a list.
pub open spec fn daemon_ingest_failure_views(s: Seq<DaemonIngestFailure>) -> Seq<IngestFailureView> {
    s.map_values(|x: DaemonIngestFailure| x@)
}

/// A copy of a list, with the same views.
pub fn copy_daemon_ingest_failures(v: &Vec<DaemonIngestFailure>) -> (r: Vec<DaemonIngestFailure>)
    ensures
        daemon_ingest_failure_views(r@) == daemon_ingest_failure_views(v@),
        r@.len() == v@.len(),
{
    let mut r: Vec<DaemonIngestFailure> = Vec::new();
    let mut i: usize = 0;
    while i < v.len()
        invariant
            i <= v@.len(),
            r@.len() == i,
            forall|k: int| 0 <= k < i ==> (#[trigger] r@[k])@ == v@[k]@,
        decreases v@.len() - i,
    {
        r.push(v[i].copy());
        i = i + 1;
    }
    assert(daemon_ingest_failure_views(r@) =~= daemon_ingest_failure_views(v@));
    r
}

/// What became of a batch.
#[derive(Clone, Debug, PartialEq, Eq)]
pub struct DaemonIngestResponse {
    /// How many records were attempted.
    pub attempted: usize,
    /// How many were written and read back.
    pub succeeded: usize,
    /// How many failed.
    pub failed: usize,
    /// The failures.
    pub failures: Vec<DaemonIngestFailure>,
    /// The records of the batch.
    pub record_ids: Vec<String>,
    /// Whether the answer repeats an earlier one.
    pub idempotent: bool,
}

/// The view of a [`DaemonIngestResponse`].
#[verifier::ext_equal]
pub struct IngestResponseView {
    pub attempted: usize,
    pub succeeded: usize,
    pub failed: usize,
    pub failures: Seq<IngestFailureView>,
    pub record_ids: Seq<Seq<char>>,
    pub idempotent: bool,
}

impl View for DaemonIngestResponse {
    type V = IngestResponseView;

    open spec fn view(&self) -> IngestResponseView {
        IngestResponseView {
            attempted: self.attempted,
            succeeded: self.succeeded,
            failed: self.failed,
            failures: daemon_ingest_failure_views(self.failures@),
            record_ids: views(self.record_ids@),
            idempotent: self.idempotent,
        }
    }
}

impl DaemonIngestResponse {
    /// A copy with the same view.
    pub fn copy(&self) -> (r: DaemonIngestResponse)
        ensures
            r@ == self@,
    {
        DaemonIngestResponse {
            attempted: self.attempted,
            succeeded: self.succeeded,
            failed: self.failed,
            failures: copy_daemon_ingest_failures(&self.failures),
            record_ids: copy_strings(&self.record_ids),
            idempotent: self.idempotent,
        }
    }
}

/// What the store reports of a batch.
#[derive(Clone, Debug, PartialEq, Eq)]
pub struct IngestReport {
    /// How many records were attempted.
    pub attempted: usize,
    /// How many were written and read back.
    pub succeeded: usize,
    /// How many failed.
    pub failed: usize,
    /// The failures.
    pub failures: Vec<DaemonIngestFailure>,
}

/// The view of a [`IngestReport`].
#[verifier::ext_equal]
pub struct IngestReportView {
    pub attempted: usize,
    pub succeeded: usize,
    pub failed: usize,
    pub failures: Seq<IngestFailureView>,
}

impl View for IngestReport {
    type V = IngestReportView;

    open spec fn view(&self) -> IngestReportView {
        IngestReportView {
            attempted: self.attempted,
            succeeded: self.succeeded,
            failed: self.failed,
            failures: daemon_ingest_failure_views(self.failures@),
        }
    }
}

impl DaemonIngestResponse {
    /// The answer to a report of the store.
    pub fn from_report(report: IngestReport, record_ids: Vec<String>, idempotent: bool) -> (r: Self)
        ensures
            r@ == report_answer(report@, views(record_ids@), idempotent),
    {
        DaemonIngestResponse {
            attempted: report.attempted,
            succeeded: report.succeeded,
            failed: report.failed,
            failures: report.failures,
            record_ids,
            idempotent,
        }
    }
}

/// The answer to a report of the store.
pub open spec fn report_answer(
    report: IngestReportView,
    record_ids: Seq<Seq<char>>,
    idempotent: bool,
) -> IngestResponseView {
    IngestResponseView {
        attempted: report.attempted,
        succeeded: report.succeeded,
        failed: report.failed,
        failures: report.failures,
        record_ids,
        idempotent,
    }
}

/// The answer of a batch that was written without a failure.
pub open spec fn full_answer(record_ids: Seq<Seq<char>>, n: usize, idempotent: bool) -> IngestResponseView {
    IngestResponseView {
        attempted: n,
        succeeded: n,
        failed: 0,
        failures: Seq::empty(),
        record_ids,
        idempotent,
    }
}

fn make_full_answer(record_ids: Vec<String>, idempotent: bool) -> (r: DaemonIngestResponse)
    ensures
        r@ == full_answer(views(record_ids@), record_ids@.len() as usize, idempotent),
{
    let n: usize = record_ids.len();
    let failures: Vec<DaemonIngestFailure> = Vec::new();
    assert(daemon_ingest_failure_views(failures@) =~= Seq::<IngestFailureView>::empty());
    DaemonIngestResponse { attempted: n, succeeded: n, failed: 0, failures, record_ids, idempotent }
}

/// What is remembered of a write under its key.
pub enum IdempotencyEntry {
    /// The write was begun.
    Pending { payload_hash: String, record_ids: Vec<String>, records: Vec<GraphRecord> },
    /// The write was answered.
    Committed { payload_hash: String, response: DaemonIngestResponse },
}

/// The view of an [`IdempotencyEntry`].
#[verifier::ext_equal]
pub enum EntryView {
    Pending {
        payload_hash: Seq<char>,
        record_ids: Seq<Seq<char>>,
        records: Seq<RecordView>,
    },
    Committed { payload_hash: Seq<char>, response: IngestResponseView },
}

impl View for IdempotencyEntry {
    type V = EntryView;

    open spec fn view(&self) -> EntryView {
        match self {
            IdempotencyEntry::Pending { payload_hash, record_ids, records } => EntryView::Pending {
                payload_hash: payload_hash@,
                record_ids: views(record_ids@),
                records: record_views(records@),
            },
            IdempotencyEntry::Committed { payload_hash, response } => EntryView::Committed {
                payload_hash: payload_hash@,
                response: response@,
            },
        }
    }
}

/// The hash of the payload that an entry remembers.
pub open spec fn entry_hash(e: EntryView) -> Seq<char> {
    match e {
        EntryView::Pending { payload_hash, .. } => payload_hash,
        EntryView::Committed { payload_hash, .. } => payload_hash,
    }
}

impl IdempotencyEntry {
    /// The hash of the payload that the entry remembers.
    pub fn payload_hash(&self) -> (r: &str)
        ensures
            r@ == entry_hash(self@),
    {
        match self {
            IdempotencyEntry::Pending { payload_hash, .. } => payload_hash.as_str(),
            IdempotencyEntry::Committed { payload_hash, .. } => payload_hash.as_str(),
        }
    }
}

/// A copy of records, with the same views.
pub fn copy_records(records: &Vec<GraphRecord>) -> (r: Vec<GraphRecord>)
    ensures
        record_views(r@) == record_views(records@),
        r@.len() == records@.len(),
{
    let mut out: Vec<GraphRecord> = Vec::new();
    let mut i: usize = 0;
    while i < records.len()
        invariant
            i <= records@.len(),
            out@.len() == i,
            forall|k: int| 0 <= k < i ==> (#[trigger] out@[k])@ == records@[k]@,
        decreases records@.len() - i,
    {
        out.push(records[i].copy());
        i = i + 1;
    }
    assert(record_views(out@) =~= record_views(records@));
    out
}

/// The identifier of a record.
pub open spec fn view_id(v: RecordView) -> Seq<char> {
    match v {
        RecordView::Node(n) => n.id,
        RecordView::Edge(e) => e.id,
        RecordView::Tombstone(t) => t.id,
    }
}

/// The identifiers of records.
pub open spec fn view_ids(s: Seq<RecordView>) -> Seq<Seq<char>> {
    s.map_values(|v: RecordView| view_id(v))
}

/// The identifiers of records.
pub fn ids_of(records: &Vec<GraphRecord>) -> (r: Vec<String>)
    ensures
        views(r@) == view_ids(record_views(records@)),
        r@.len() == records@.len(),
{
    let mut out: Vec<String> = Vec::new();
    let mut i: usize = 0;
    while i < records.len()
        invariant
            i <= records@.len(),
            out@.len() == i,
            forall|k: int| 0 <= k < i ==> (#[trigger] out@[k])@ == record_id(records@[k]),
        decreases records@.len() - i,
    {
        out.push(records[i].id().to_owned());
        i = i + 1;
    }
    assert(views(out@) =~= view_ids(record_views(records@)));
    out
}

// ---------------------------------------------------------------------------
// The records that a batch becomes
// ---------------------------------------------------------------------------

/// A request to write a batch.
pub struct WriteCommand {
    /// The key under which the write is remembered.
    pub idempotency_key: String,
    /// The hash of the batch.
    pub payload_hash: String,
    /// The batch.
    pub records: Vec<GraphRecord>,
    /// The bytes of each record of the batch.
    pub payloads: Vec<Vec<u8>>,
    /// How the confidence texts of the batch read as numbers.
    pub grades: ConfidenceTable,
    /// What is known of the repository identities of the batch.
    pub identities: IdentityFacts,
}

/// Whether the batch has a record with the identifier.
pub open spec fn submitted(s: Seq<GraphRecord>, id: Seq<char>) -> bool {
    exists|i: int| 0 <= i < s.len() && record_id(#[trigger] s[i]) == id
}

/// The identifier of the first edge that a record of the batch already has.
pub open spec fn first_clash(s: Seq<GraphRecord>, es: Seq<EdgeView>) -> Option<Seq<char>>
    decreases es.len(),
{
    if es.len() == 0 {
        None
    } else if submitted(s, es[0].id) {
        Some(es[0].id)
    } else {
        first_clash(s, es.drop_first())
    }
}

/// The last of the nodes with the identifier.
pub open spec fn canonical_for(ns: Seq<NodeView>, id: Seq<char>) -> Option<NodeView>
    decreases ns.len(),
{
    if ns.len() == 0 {
        None
    } else if ns.last().id == id {
        Some(ns.last())
    } else {
        canonical_for(ns.drop_last(), id)
    }
}

/// The record, or the canonical node that stands for it.
pub open spec fn replaced(ns: Seq<NodeView>, r: RecordView) -> RecordView {
    match canonical_for(ns, view_id(r)) {
        Some(n) => RecordView::Node(n),
        None => r,
    }
}

/// The records that are written for a batch: its own, with canonical nodes in place,
/// and then the edges.
pub open spec fn planned(s: Seq<RecordView>, ns: Seq<NodeView>, es: Seq<EdgeView>) -> Seq<RecordView> {
    s.map_values(|r: RecordView| replaced(ns, r)) + es.map_values(|e: EdgeView| RecordView::Edge(e))
}

/// What a batch becomes: the records that are written for it, or the first error.
pub open spec fn plan_outcome(
    c: WriteCommand,
    store: StoreSnapshot,
    stored: StoredRepositories,
) -> Result<Seq<RecordView>, ErrorView> {
    let s = c.records@;
    if local_path_error(s, c.identities, stored) is Some {
        Err(local_path_error(s, c.identities, stored)->0)
    } else if verification_errors(s) is Some {
        Err(verification_errors(s)->0)
    } else if artifact_domain_error(s, store.current@) is Some {
        Err(artifact_domain_error(s, store.current@)->0)
    } else {
        match evidence_outcome(basis(s, store, c.grades)) {
            Err(e) => Err(e),
            Ok((es, ns)) => match first_clash(s, es) {
                Some(id) => Err(
                    plain_error(
                        ErrorCode::IdempotencyConflict,
                        "synthesized evidence-edge ID '"@ + id
                            + "' conflicts with a submitted record"@,
                    ),
                ),
                None => Ok(planned(record_views(s), ns, es)),
            },
        }
    }
}

fn is_submitted(s: &Vec<GraphRecord>, id: &str) -> (r: bool)
    ensures
        r == submitted(s@, id@),
{
    let mut i: usize = 0;
    while i < s.len()
        invariant
            i <= s@.len(),
            forall|k: int| 0 <= k < i ==> record_id(#[trigger] s@[k]) != id@,
        decreases s@.len() - i,
    {
        if str_eq(s[i].id(), id) {
            return true;
        }
        i = i + 1;
    }
    false
}

fn find_clash<'a>(s: &Vec<GraphRecord>, es: &'a Vec<EdgeRecord>) -> (r: Option<&'a str>)
    ensures
        crate::text::opt_str_view(r) == first_clash(s@, edge_views(es@)),
{
    let ghost x = edge_views(es@);
    let mut i: usize = 0;
    assert(x.skip(0) =~= x);
    while i < es.len()
        invariant
            i <= es@.len(),
            x == edge_views(es@),
            first_clash(s@, x) == first_clash(s@, x.skip(i as int)),
        decreases es@.len() - i,
    {
        proof {
            assert(x.skip(i as int)[0] == es@[i as int]@);
            assert(x.skip(i as int).drop_first() =~= x.skip(i + 1));
        }
        if is_submitted(s, es[i].id.as_str()) {
            return Some(es[i].id.as_str());
        }
        i = i + 1;
    }
    None
}

fn find_canonical<'a>(ns: &'a Vec<NodeRecord>, id: &str) -> (r: Option<&'a NodeRecord>)
    ensures
        match r {
            Some(n) => canonical_for(node_views(ns@), id@) == Some(n@),
            None => canonical_for(node_views(ns@), id@) is None,
        },
{
    let ghost x = node_views(ns@);
    let mut k: usize = ns.len();
    assert(x.take(k as int) =~= x);
    while k > 0
        invariant
            k <= ns@.len(),
            x == node_views(ns@),
            canonical_for(x, id@) == canonical_for(x.take(k as int), id@),
        decreases k,
    {
        proof {
            assert(x.take(k as int).last() == ns@[k - 1]@);
            assert(x.take(k as int).drop_last() =~= x.take(k - 1));
        }
        k = k - 1;
        if str_eq(ns[k].id.as_str(), id) {
            return Some(&ns[k]);
        }
    }
    None
}

fn assemble(s: &Vec<GraphRecord>, ns: &Vec<NodeRecord>, es: Vec<EdgeRecord>) -> (r: Vec<GraphRecord>)
    ensures
        record_views(r@) == planned(record_views(s@), node_views(ns@), edge_views(es@)),
{
    let ghost sv = record_views(s@);
    let ghost nv = node_views(ns@);
    let ghost ev = edge_views(es@);
    let mut out: Vec<GraphRecord> = Vec::new();
    let mut i: usize = 0;
    while i < s.len()
        invariant
            i <= s@.len(),
            out@.len() == i,
            nv == node_views(ns@),
            forall|k: int| 0 <= k < i ==> (#[trigger] out@[k])@ == replaced(nv, s@[k]@),
        decreases s@.len() - i,
    {
        assert(view_id(s@[i as int]@) == record_id(s@[i as int]));
        match find_canonical(ns, s[i].id()) {
            Some(n) => {
                out.push(GraphRecord::Node(n.copy()));
            },
            None => {
                out.push(s[i].copy());
            },
        }
        i = i + 1;
    }
    let ghost first = out@;
    let mut k: usize = 0;
    while k < es.len()
        invariant
            k <= es@.len(),
            first.len() == s@.len(),
            out@.len() == s@.len() + k,
            forall|j: int| 0 <= j < s@.len() ==> (#[trigger] out@[j]) == first[j],
            forall|j: int|
                s@.len() <= j < s@.len() + k ==> (#[trigger] out@[j])@ == RecordView::Edge(
                    es@[j - s@.len()]@,
                ),
        decreases es@.len() - k,
    {
        out.push(GraphRecord::Edge(es[k].copy()));
        k = k + 1;
    }
    proof {
        let want = planned(sv, nv, ev);
        let got = record_views(out@);
        assert forall|j: int| 0 <= j < want.len() implies got[j] == want[j] by {
            if j < s@.len() {
                assert(out@[j] == first[j]);
                assert(first[j]@ == replaced(nv, s@[j]@));
            } else {
                assert(out@[j]@ == RecordView::Edge(es@[j - s@.len()]@));
            }
        }
        assert(got =~= want);
    }
    out
}

/// Checks a batch against the store and gives the records that are written for it.
pub fn plan_write(c: &WriteCommand, store: &StoreSnapshot, stored: &StoredRepositories) -> (r: Result<
    Vec<GraphRecord>,
    ApiError,
>)
    ensures
        match (r, plan_outcome(*c, *store, *stored)) {
            (Ok(v), Ok(s)) => record_views(v@) == s,
            (Err(e), Err(f)) => e@ == f,
            _ => false,
        },
{
    match validate_no_local_path_identity_in_shared_store(&c.records, &c.identities, stored) {
        Err(e) => {
            return Err(e);
        },
        Ok(_) => {},
    }
    match validate_verification_domain_records(&c.records) {
        Err(e) => {
            return Err(e);
        },
        Ok(_) => {},
    }
    match validate_artifact_domain_records(&c.records, &store.current) {
        Err(e) => {
            return Err(e);
        },
        Ok(_) => {},
    }
    let (edges, nodes) = match validate_and_synthesize_evidence_edges(
        &c.records,
        store,
        &c.grades,
    ) {
        Err(e) => {
            return Err(e);
        },
        Ok(x) => x,
    };
    match find_clash(&c.records, &edges) {
        Some(id) => {
            return Err(
                ApiError::conflict(
                    concat3(
                        "synthesized evidence-edge ID '",
                        id,
                        "' conflicts with a submitted record",
                    ),
                ),
            );
        },
        None => {},
    }
    Ok(assemble(&c.records, &nodes, edges))
}

// ---------------------------------------------------------------------------
// Recovery
// ---------------------------------------------------------------------------

/// How a record of a batch compares with what the store has.
pub enum RecordState {
    /// The store has the record.
    Matched,
    /// The store has another record in its place.
    Mismatched,
    /// The store has nothing.
    Missing,
    /// The store could not be read.
    Failed(String),
}

/// The first failure among the states.
pub open spec fn first_failure(states: Seq<RecordState>) -> Option<Seq<char>>
    decreases states.len(),
{
    if states.len() == 0 {
        None
    } else {
        match states[0] {
            RecordState::Failed(m) => Some(m@),
            _ => first_failure(states.drop_first()),
        }
    }
}

/// The number of states that match.
pub open spec fn matched_count(states: Seq<RecordState>) -> nat
    decreases states.len(),
{
    if states.len() == 0 {
        0
    } else {
        matched_count(states.drop_last()) + (if states.last() is Matched {
            1nat
        } else {
            0nat
        })
    }
}

/// Whether some state does not match.
pub open spec fn any_mismatch(states: Seq<RecordState>) -> bool {
    exists|i: int| 0 <= i < states.len() && (#[trigger] states[i]) is Mismatched
}

/// A conflict of a key.
pub open spec fn conflict_error(message: Seq<char>) -> ErrorView {
    plain_error(ErrorCode::IdempotencyConflict, message)
}

/// What the store shows of a write that was begun earlier: whether all of it was
/// written or nothing; anything else needs a repair by hand.
pub open spec fn recovery_outcome(
    records: Seq<GraphRecord>,
    payloads: Seq<Vec<u8>>,
    states: Seq<RecordState>,
) -> Result<bool, ErrorView> {
    if duplicate_keys(records, payloads) || ambiguous_keys(records, payloads) {
        Err(
            conflict_error(
                "idempotency key has duplicate record IDs in pending recovery; manual repair is required"@,
            ),
        )
    } else if first_failure(states) is Some {
        Err(plain_error(ErrorCode::InternalError, first_failure(states)->0))
    } else if any_mismatch(states) {
        Err(
            conflict_error(
                "idempotency key has conflicting committed records; manual repair is required"@,
            ),
        )
    } else if matched_count(states) == 0 {
        Ok(false)
    } else if matched_count(states) != records.len() {
        Err(
            conflict_error(
                "idempotency key has a partial committed write; manual repair is required"@,
            ),
        )
    } else {
        Ok(true)
    }
}

fn find_failure<'a>(states: &'a Vec<RecordState>) -> (r: Option<&'a str>)
    ensures
        crate::text::opt_str_view(r) == first_failure(states@),
{
    let ghost s = states@;
    let mut i: usize = 0;
    assert(s.skip(0) =~= s);
    while i < states.len()
        invariant
            i <= states@.len(),
            s == states@,
            first_failure(s) == first_failure(s.skip(i as int)),
        decreases states@.len() - i,
    {
        proof {
            assert(s.skip(i as int)[0] == s[i as int]);
            assert(s.skip(i as int).drop_first() =~= s.skip(i + 1));
        }
        match &states[i] {
            RecordState::Failed(m) => {
                return Some(m.as_str());
            },
            _ => {},
        }
        i = i + 1;
    }
    None
}

fn count_states(states: &Vec<RecordState>) -> (r: (usize, bool))
    ensures
        r.0 == matched_count(states@),
        r.1 == any_mismatch(states@),
{
    let ghost s = states@;
    let mut matched: usize = 0;
    let mut mismatched = false;
    let mut i: usize = 0;
    assert(s.take(0) =~= Seq::<RecordState>::empty());
    while i < states.len()
        invariant
            i <= states@.len(),
            s == states@,
            matched <= i,
            matched == matched_count(s.take(i as int)),
            mismatched <==> exists|k: int| 0 <= k < i && (#[trigger] s[k]) is Mismatched,
        decreases states@.len() - i,
    {
        proof {
            assert(s.take(i + 1).drop_last() =~= s.take(i as int));
            assert(s.take(i + 1).last() == s[i as int]);
        }
        match &states[i] {
            RecordState::Matched => {
                matched = matched + 1;
            },
            RecordState::Mismatched => {
                mismatched = true;
            },
            _ => {},
        }
        i = i + 1;
    }
    assert(s.take(i as int) =~= s);
    (matched, mismatched)
}

/// Decides from the states of its records what became of a write that was begun
/// earlier: `true` where all of it is in the store, `false` where nothing is.
pub fn recover_pending_write(
    records: &Vec<GraphRecord>,
    payloads: &Vec<Vec<u8>>,
    states: &Vec<RecordState>,
) -> (r: Result<bool, ApiError>)
    ensures
        match (r, recovery_outcome(records@, payloads@, states@)) {
            (Ok(a), Ok(b)) => a == b,
            (Err(e), Err(f)) => e@ == f,
            _ => false,
        },
{
    if has_duplicate_recovery_keys(records, payloads) || has_ambiguous_recovery_keys(
        records,
        payloads,
    ) {
        return Err(
            ApiError::conflict(
                "idempotency key has duplicate record IDs in pending recovery; manual repair is required".to_owned(),
            ),
        );
    }
    match find_failure(states) {
        Some(m) => {
            return Err(ApiError::internal(m.to_owned()));
        },
        None => {},
    }
    let (matched, mismatched) = count_states(states);
    if mismatched {
        return Err(
            ApiError::conflict(
                "idempotency key has conflicting committed records; manual repair is required".to_owned(),
            ),
        );
    }
    if matched == 0 {
        return Ok(false);
    }
    if matched != records.len() {
        return Err(
            ApiError::conflict(
                "idempotency key has a partial committed write; manual repair is required".to_owned(),
            ),
        );
    }
    Ok(true)
}

/// The identifiers that are not those of records of the batch.
pub open spec fn foreign_ids(s: Seq<GraphRecord>, ids: Seq<Seq<char>>) -> Seq<Seq<char>>
    decreases ids.len(),
{
    if ids.len() == 0 {
        Seq::empty()
    } else {
        let rest = foreign_ids(s, ids.drop_last());
        if submitted(s, ids.last()) {
            rest
        } else {
            rest.push(ids.last())
        }
    }
}

fn find_foreign_ids(s: &Vec<GraphRecord>, ids: &Vec<String>) -> (r: Vec<String>)
    ensures
        views(r@) == foreign_ids(s@, views(ids@)),
{
    let ghost v = views(ids@);
    let mut out: Vec<String> = Vec::new();
    let mut i: usize = 0;
    assert(v.take(0) =~= Seq::<Seq<char>>::empty());
    assert(views(out@) =~= Seq::<Seq<char>>::empty());
    while i < ids.len()
        invariant
            i <= ids@.len(),
            v == views(ids@),
            views(out@) == foreign_ids(s@, v.take(i as int)),
        decreases ids@.len() - i,
    {
        proof {
            assert(v.take(i + 1).drop_last() =~= v.take(i as int));
            assert(v.take(i + 1).last() == ids@[i as int]@);
        }
        if !is_submitted(s, ids[i].as_str()) {
            let ghost before = out@;
            out.push(ids[i].clone());
            assert(views(out@) =~= views(before).push(ids@[i as int]@));
        }
        i = i + 1;
    }
    assert(v.take(i as int) =~= v);
    out
}

/// Whether the store has a whole write that was begun earlier: every record of the
/// batch, and every other record that was to be written with it.
pub open spec fn wholly_written(
    c: WriteCommand,
    pending_ids: Seq<Seq<char>>,
    states: Seq<RecordState>,
    present: Seq<bool>,
) -> bool {
    &&& states.len() == c.records@.len()
    &&& forall|i: int| 0 <= i < states.len() ==> (#[trigger] states[i]) is Matched
    &&& present.len() == foreign_ids(c.records@, pending_ids).len()
    &&& forall|i: int| 0 <= i < present.len() ==> #[trigger] present[i]
}

fn is_wholly_written(
    c: &WriteCommand,
    pending_ids: &Vec<String>,
    states: &Vec<RecordState>,
    present: &Vec<bool>,
) -> (r: bool)
    ensures
        r == wholly_written(*c, views(pending_ids@), states@, present@),
{
    let foreign = find_foreign_ids(&c.records, pending_ids);
    assert(views(foreign@).len() == foreign@.len());
    if states.len() != c.records.len() || present.len() != foreign.len() {
        return false;
    }
    let mut i: usize = 0;
    while i < states.len()
        invariant
            i <= states@.len(),
            forall|k: int| 0 <= k < i ==> (#[trigger] states@[k]) is Matched,
        decreases states@.len() - i,
    {
        match &states[i] {
            RecordState::Matched => {},
            _ => {
                return false;
            },
        }
        i = i + 1;
    }
    let mut k: usize = 0;
    while k < present.len()
        invariant
            k <= present@.len(),
            forall|j: int| 0 <= j < k ==> #[trigger] present@[j],
        decreases present@.len() - k,
    {
        if !present[k] {
            return false;
        }
        k = k + 1;
    }
    true
}

// ---------------------------------------------------------------------------
// The conversation
// ---------------------------------------------------------------------------

/// Where a write stands.
pub enum WriteState {
    /// A write that was begun earlier is compared with the store.
    Recovering { pending_ids: Vec<String> },
    /// The store is read.
    Reading { pending: bool },
    /// The pending entry is saved.
    Saving { records: Vec<GraphRecord> },
    /// The records of a write that was begun earlier are compared with the store.
    Comparing { records: Vec<GraphRecord> },
    /// The records are written.
    Writing { records: Vec<GraphRecord> },
    /// The committed entry is saved.
    Completing { answer: DaemonIngestResponse },
    /// The write was answered.
    Answered,
}

/// The view of a [`WriteState`].
#[verifier::ext_equal]
pub enum StateView {
    Recovering { pending_ids: Seq<Seq<char>> },
    Reading { pending: bool },
    Saving { records: Seq<RecordView> },
    Comparing { records: Seq<RecordView> },
    Writing { records: Seq<RecordView> },
    Completing { answer: IngestResponseView },
    Answered,
}

impl View for WriteState {
    type V = StateView;

    open spec fn view(&self) -> StateView {
        match self {
            WriteState::Recovering { pending_ids } => StateView::Recovering {
                pending_ids: views(pending_ids@),
            },
            WriteState::Reading { pending } => StateView::Reading { pending: *pending },
            WriteState::Saving { records } => StateView::Saving { records: record_views(records@) },
            WriteState::Comparing { records } => StateView::Comparing {
                records: record_views(records@),
            },
            WriteState::Writing { records } => StateView::Writing {
                records: record_views(records@),
            },
            WriteState::Completing { answer } => StateView::Completing { answer: answer@ },
            WriteState::Answered => StateView::Answered,
        }
    }
}

/// What to do next.
pub enum WriteAction {
    /// Compare the records of the batch with the store, and read these identifiers
    /// back.
    CompareBatch { read_back: Vec<String> },
    /// Read the store.
    ReadStore,
    /// Save the entry under the key of the write.
    Save(IdempotencyEntry),
    /// Compare the records with the store.
    CompareRecords { records: Vec<GraphRecord> },
    /// Write the records.
    Write { records: Vec<GraphRecord> },
    /// Answer.
    Answer(Result<DaemonIngestResponse, ApiError>),
}

/// The view of a [`WriteAction`].
#[verifier::ext_equal]
pub enum ActionView {
    CompareBatch { read_back: Seq<Seq<char>> },
    ReadStore,
    Save(EntryView),
    CompareRecords { records: Seq<RecordView> },
    Write { records: Seq<RecordView> },
    Succeed(IngestResponseView),
    Refuse(ErrorView),
}

impl View for WriteAction {
    type V = ActionView;

    open spec fn view(&self) -> ActionView {
        match self {
            WriteAction::CompareBatch { read_back } => ActionView::CompareBatch {
                read_back: views(read_back@),
            },
            WriteAction::ReadStore => ActionView::ReadStore,
            WriteAction::Save(e) => ActionView::Save(e@),
            WriteAction::CompareRecords { records } => ActionView::CompareRecords {
                records: record_views(records@),
            },
            WriteAction::Write { records } => ActionView::Write { records: record_views(records@) },
            WriteAction::Answer(Ok(r)) => ActionView::Succeed(r@),
            WriteAction::Answer(Err(e)) => ActionView::Refuse(e@),
        }
    }
}

/// What came of an action.
pub enum WriteEvent {
    /// The records of the batch were compared, and the identifiers read back.
    BatchCompared { states: Vec<RecordState>, present: Vec<bool> },
    /// The store was read.
    StoreRead { store: StoreSnapshot, repositories: StoredRepositories },
    /// The entry was saved, or could not be.
    Saved { failure: Option<String> },
    /// The records were compared; their bytes are given too.
    RecordsCompared { states: Vec<RecordState>, payloads: Vec<Vec<u8>> },
    /// The records were written, or the store failed.
    Written { report: Result<IngestReport, String> },
}

/// The answer of an error.
pub open spec fn refusal(e: ErrorView) -> (StateView, ActionView) {
    (StateView::Answered, ActionView::Refuse(e))
}

/// How a write begins, given what is remembered under its key.
pub open spec fn begin_outcome(c: WriteCommand, entry: Option<EntryView>) -> (StateView, ActionView) {
    if recovery_key_error(c.records@, c.payloads@) is Some {
        refusal(recovery_key_error(c.records@, c.payloads@)->0)
    } else {
        match entry {
            None => (StateView::Reading { pending: false }, ActionView::ReadStore),
            Some(e) => if entry_hash(e) != c.payload_hash@ {
                refusal(conflict_error("idempotency key reused with different payload"@))
            } else {
                match e {
                    EntryView::Committed { response, .. } => (
                        StateView::Answered,
                        ActionView::Succeed(IngestResponseView { idempotent: true, ..response }),
                    ),
                    EntryView::Pending { record_ids, .. } => (
                        StateView::Recovering { pending_ids: record_ids },
                        ActionView::CompareBatch {
                            read_back: foreign_ids(c.records@, record_ids),
                        },
                    ),
                }
            },
        }
    }
}

/// The entry that remembers an answer.
pub open spec fn committed(c: WriteCommand, response: IngestResponseView) -> EntryView {
    EntryView::Committed { payload_hash: c.payload_hash@, response }
}

/// How a write goes on after the store was read.
pub open spec fn after_reading(
    c: WriteCommand,
    pending: bool,
    store: StoreSnapshot,
    repositories: StoredRepositories,
) -> (StateView, ActionView) {
    match plan_outcome(c, store, repositories) {
        Err(e) => refusal(e),
        Ok(records) => if pending {
            (StateView::Comparing { records }, ActionView::CompareRecords { records })
        } else {
            (
                StateView::Saving { records },
                ActionView::Save(
                    EntryView::Pending {
                        payload_hash: c.payload_hash@,
                        record_ids: view_ids(records),
                        records: record_views(c.records@),
                    },
                ),
            )
        },
    }
}

/// How a write goes on after an event; nothing where the event does not answer the
/// last action.
pub open spec fn step_outcome(c: WriteCommand, state: WriteState, event: WriteEvent) -> Option<
    (StateView, ActionView),
> {
    match (state, event) {
        (
            WriteState::Recovering { pending_ids },
            WriteEvent::BatchCompared { states, present },
        ) => {
            let ids = views(pending_ids@);
            if wholly_written(c, ids, states@, present@) {
                let answer = full_answer(ids, pending_ids@.len() as usize, true);
                Some(
                    (
                        StateView::Completing { answer },
                        ActionView::Save(committed(c, answer)),
                    ),
                )
            } else {
                Some((StateView::Reading { pending: true }, ActionView::ReadStore))
            }
        },
        (
            WriteState::Reading { pending },
            WriteEvent::StoreRead { store, repositories },
        ) => Some(after_reading(c, pending, store, repositories)),
        (WriteState::Saving { records }, WriteEvent::Saved { failure }) => match failure {
            None => Some(
                (
                    StateView::Writing { records: record_views(records@) },
                    ActionView::Write { records: record_views(records@) },
                ),
            ),
            Some(m) => Some(refusal(plain_error(ErrorCode::InternalError, m@))),
        },
        (
            WriteState::Comparing { records },
            WriteEvent::RecordsCompared { states, payloads },
        ) => match recovery_outcome(records@, payloads@, states@) {
            Err(e) => Some(refusal(e)),
            Ok(false) => Some(
                (
                    StateView::Writing { records: record_views(records@) },
                    ActionView::Write { records: record_views(records@) },
                ),
            ),
            Ok(true) => {
                let ids = view_ids(record_views(records@));
                let n = records@.len() as usize;
                Some(
                    (
                        StateView::Completing { answer: full_answer(ids, n, true) },
                        ActionView::Save(committed(c, full_answer(ids, n, false))),
                    ),
                )
            },
        },
        (WriteState::Writing { records }, WriteEvent::Written { report }) => match report {
            Err(m) => Some(refusal(plain_error(ErrorCode::InternalError, m@))),
            Ok(report) => {
                let answer = report_answer(report@, view_ids(record_views(records@)), false);
                Some(
                    (
                        StateView::Completing { answer },
                        ActionView::Save(committed(c, answer)),
                    ),
                )
            },
        },
        (WriteState::Completing { answer }, WriteEvent::Saved { failure }) => match failure {
            None => Some((StateView::Answered, ActionView::Succeed(answer@))),
            Some(m) => Some(refusal(plain_error(ErrorCode::InternalError, m@))),
        },
        _ => None,
    }
}

fn refuse(e: ApiError) -> (r: (WriteState, WriteAction))
    ensures
        (r.0@, r.1@) == refusal(e@),
{
    (WriteState::Answered, WriteAction::Answer(Err(e)))
}

fn save_committed(c: &WriteCommand, answer: DaemonIngestResponse, saved: DaemonIngestResponse) -> (r: (
    WriteState,
    WriteAction,
))
    ensures
        r.0@ == (StateView::Completing { answer: answer@ }),
        r.1@ == ActionView::Save(committed(*c, saved@)),
{
    (
        WriteState::Completing { answer },
        WriteAction::Save(
            IdempotencyEntry::Committed { payload_hash: c.payload_hash.clone(), response: saved },
        ),
    )
}

/// Begins a write. What is remembered under its key decides before anything is
/// checked against the store: a committed write is answered from memory.
pub fn begin_write(c: &WriteCommand, entry: Option<&IdempotencyEntry>) -> (r: (
    WriteState,
    WriteAction,
))
    ensures
        (r.0@, r.1@) == begin_outcome(
            *c,
            match entry {
                Some(e) => Some(e@),
                None => None,
            },
        ),
{
    match validate_unique_recovery_keys(&c.records, &c.payloads) {
        Err(e) => {
            return refuse(e);
        },
        Ok(_) => {},
    }
    let e = match entry {
        None => {
            return (WriteState::Reading { pending: false }, WriteAction::ReadStore);
        },
        Some(e) => e,
    };
    if !str_eq(e.payload_hash(), c.payload_hash.as_str()) {
        return refuse(
            ApiError::conflict("idempotency key reused with different payload".to_owned()),
        );
    }
    match e {
        IdempotencyEntry::Committed { response, .. } => {
            let mut answer = response.copy();
            answer.idempotent = true;
            (WriteState::Answered, WriteAction::Answer(Ok(answer)))
        },
        IdempotencyEntry::Pending { record_ids, .. } => {
            let read_back = find_foreign_ids(&c.records, record_ids);
            (
                WriteState::Recovering { pending_ids: copy_strings(record_ids) },
                WriteAction::CompareBatch { read_back },
            )
        },
    }
}

fn read_step(
    c: &WriteCommand,
    pending: bool,
    store: &StoreSnapshot,
    repositories: &StoredRepositories,
) -> (r: (WriteState, WriteAction))
    ensures
        (r.0@, r.1@) == after_reading(*c, pending, *store, *repositories),
{
    let records = match plan_write(c, store, repositories) {
        Err(e) => {
            return refuse(e);
        },
        Ok(v) => v,
    };
    let copy = copy_records(&records);
    if pending {
        (WriteState::Comparing { records }, WriteAction::CompareRecords { records: copy })
    } else {
        let record_ids = ids_of(&records);
        (
            WriteState::Saving { records },
            WriteAction::Save(
                IdempotencyEntry::Pending {
                    payload_hash: c.payload_hash.clone(),
                    record_ids,
                    records: copy_records(&c.records),
                },
            ),
        )
    }
}

fn compared_step(
    c: &WriteCommand,
    records: Vec<GraphRecord>,
    states: &Vec<RecordState>,
    payloads: &Vec<Vec<u8>>,
) -> (r: (WriteState, WriteAction))
    ensures
        match recovery_outcome(records@, payloads@, states@) {
            Err(e) => (r.0@, r.1@) == refusal(e),
            Ok(false) => (r.0@, r.1@) == (
                StateView::Writing { records: record_views(records@) },
                ActionView::Write { records: record_views(records@) },
            ),
            Ok(true) => r.0@ == (StateView::Completing {
                answer: full_answer(
                    view_ids(record_views(records@)),
                    records@.len() as usize,
                    true,
                ),
            }) && r.1@ == ActionView::Save(
                committed(
                    *c,
                    full_answer(view_ids(record_views(records@)), records@.len() as usize, false),
                ),
            ),
        },
{
    match recover_pending_write(&records, payloads, states) {
        Err(e) => refuse(e),
        Ok(whole) => {
            if whole {
                let answer = make_full_answer(ids_of(&records), true);
                let saved = make_full_answer(ids_of(&records), false);
                save_committed(c, answer, saved)
            } else {
                let copy = copy_records(&records);
                (WriteState::Writing { records }, WriteAction::Write { records: copy })
            }
        },
    }
}

/// Goes on with a write after an event. Gives nothing where the event does not answer
/// the last action.
pub fn step_write(c: &WriteCommand, state: WriteState, event: WriteEvent) -> (r: Option<
    (WriteState, WriteAction),
>)
    ensures
        (match r {
            Some(x) => Some((x.0@, x.1@)),
            None => None,
        }) == step_outcome(*c, state, event),
{
    match (state, event) {
        (
            WriteState::Recovering { pending_ids },
            WriteEvent::BatchCompared { states, present },
        ) => {
            if is_wholly_written(c, &pending_ids, &states, &present) {
                let answer = make_full_answer(copy_strings(&pending_ids), true);
                let saved = make_full_answer(pending_ids, true);
                Some(save_committed(c, answer, saved))
            } else {
                Some((WriteState::Reading { pending: true }, WriteAction::ReadStore))
            }
        },
        (
            WriteState::Reading { pending },
            WriteEvent::StoreRead { store, repositories },
        ) => Some(read_step(c, pending, &store, &repositories)),
        (WriteState::Saving { records }, WriteEvent::Saved { failure }) => match failure {
            None => {
                let copy = copy_records(&records);
                Some((WriteState::Writing { records }, WriteAction::Write { records: copy }))
            },
            Some(m) => Some(refuse(ApiError::internal(m))),
        },
        (
            WriteState::Comparing { records },
            WriteEvent::RecordsCompared { states, payloads },
        ) => Some(compared_step(c, records, &states, &payloads)),
        (WriteState::Writing { records }, WriteEvent::Written { report }) => match report {
            Err(m) => Some(refuse(ApiError::internal(m))),
            Ok(report) => {
                let answer = DaemonIngestResponse::from_report(report, ids_of(&records), false);
                let saved = answer.copy();
                Some(save_committed(c, answer, saved))
            },
        },
        (WriteState::Completing { answer }, WriteEvent::Saved { failure }) => match failure {
            None => Some((WriteState::Answered, WriteAction::Answer(Ok(answer)))),
            Some(m) => Some(refuse(ApiError::internal(m))),
        },
        _ => None,
    }
}

// ---------------------------------------------------------------------------
// Laws
// ---------------------------------------------------------------------------

/// A write that was answered is answered again with the same report, marked as a
/// repetition, and the store is not touched.
pub proof fn law_committed_write_is_replayed(c: WriteCommand, response: IngestResponseView)
    requires
        recovery_key_error(c.records@, c.payloads@) is None,
    ensures
        begin_outcome(c, Some(committed(c, response))) == (
            StateView::Answered,
            ActionView::Succeed(IngestResponseView { idempotent: true, ..response }),
        ),
{
}

/// A key that was used for another payload is refused, whatever became of that write.
pub proof fn law_reused_key_is_refused(c: WriteCommand, entry: EntryView)
    requires
        recovery_key_error(c.records@, c.payloads@) is None,
        entry_hash(entry) != c.payload_hash@,
    ensures
        begin_outcome(c, Some(entry)) == refusal(
            conflict_error("idempotency key reused with different payload"@),
        ),
{
}

/// Nothing is written before a pending entry was saved: records are written only after
/// a save that succeeded, or for a write that was begun earlier and of which the store
/// has nothing.
pub proof fn law_nothing_is_written_unremembered(c: WriteCommand, state: WriteState, event: WriteEvent)
    requires
        step_outcome(c, state, event) matches Some((_, ActionView::Write { .. })),
    ensures
        match (state, event) {
            (WriteState::Saving { .. }, WriteEvent::Saved { failure }) => failure is None,
            (WriteState::Comparing { .. }, WriteEvent::RecordsCompared { states, .. }) => matched_count(
                states@,
            ) == 0,
            _ => false,
        },
{
}

/// After the first step success is answered only once the committed entry was saved.
pub proof fn law_success_is_remembered(c: WriteCommand, state: WriteState, event: WriteEvent)
    requires
        step_outcome(c, state, event) matches Some((_, ActionView::Succeed(_))),
    ensures
        state is Completing,
        event is Saved && event->failure is None,
{
}

/// What a write saves as committed is answered with the same counts and records.
pub proof fn law_saved_answer_is_given(c: WriteCommand, state: WriteState, event: WriteEvent)
    requires
        step_outcome(c, state, event) matches Some((StateView::Completing { .. }, _)),
    ensures
        ({
            let (s, a) = step_outcome(c, state, event)->0;
            a == ActionView::Save(committed(c, s->answer)) || a == ActionView::Save(
                committed(c, IngestResponseView { idempotent: false, ..s->answer }),
            )
        }),
{
}

} // verus!
