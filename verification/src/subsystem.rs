//! A subsystem, by the prefix of its paths: what is told of it.

use vstd::prelude::*;
use vstd::string::*;

use crate::reach_report::Corpus;
use crate::ir::{edge_label_name, EdgeRecord, GraphRecord, NodeKind, SourceSpan};
use crate::text::{opt_clone, opt_view, str_eq};

verus! {

/// An edge of the structure of code.
#[derive(Clone, Debug, PartialEq, Eq)]
pub struct TopologyRow {
    pub record_id: String,
    pub label: String,
    pub source_id: String,
    pub target_id: String,
    pub summary: String,
    pub git_commit: Option<String>,
    pub valid_time: Option<String>,
}

/// The view of a [`TopologyRow`].
#[verifier::ext_equal]
pub struct TopologyRowView {
    pub record_id: Seq<char>,
    pub label: Seq<char>,
    pub source_id: Seq<char>,
    pub target_id: Seq<char>,
    pub summary: Seq<char>,
    pub git_commit: Option<Seq<char>>,
    pub valid_time: Option<Seq<char>>,
}

impl View for TopologyRow {
    type V = TopologyRowView;

    open spec fn view(&self) -> TopologyRowView {
        TopologyRowView {
            record_id: self.record_id@,
            label: self.label@,
            source_id: self.source_id@,
            target_id: self.target_id@,
            summary: self.summary@,
            git_commit: opt_view(self.git_commit),
            valid_time: opt_view(self.valid_time),
        }
    }
}

/// How far a meaning has moved.
#[derive(Clone, Debug, PartialEq, Eq)]
pub struct SubsystemDrift {
    pub record_id: String,
    /// What it is evidence of.
    pub trust_class: &'static str,
    /// How far it is to be trusted.
    pub trust: String,
    pub score: String,
    pub target_repo_relative_path: Option<String>,
    pub target_span: Option<SourceSpan>,
    pub after_git_commit: String,
}

/// The view of a [`SubsystemDrift`].
#[verifier::ext_equal]
pub struct SubsystemDriftView {
    pub record_id: Seq<char>,
    pub trust_class: Seq<char>,
    pub trust: Seq<char>,
    pub score: Seq<char>,
    pub target_repo_relative_path: Option<Seq<char>>,
    pub target_span: Option<SourceSpan>,
    pub after_git_commit: Seq<char>,
}

impl View for SubsystemDrift {
    type V = SubsystemDriftView;

    open spec fn view(&self) -> SubsystemDriftView {
        SubsystemDriftView {
            record_id: self.record_id@,
            trust_class: self.trust_class@,
            trust: self.trust@,
            score: self.score@,
            target_repo_relative_path: opt_view(self.target_repo_relative_path),
            target_span: self.target_span,
            after_git_commit: self.after_git_commit@,
        }
    }
}

/// A frame of the trace of an error that lies in the subsystem.
#[derive(Clone, Debug, PartialEq, Eq)]
pub struct LogFrame {
    pub frame_index: u32,
    pub frame_resolution: String,
    pub target_repo_relative_path: Option<String>,
    pub target_span: Option<SourceSpan>,
}

/// The view of a [`LogFrame`].
#[verifier::ext_equal]
pub struct LogFrameView {
    pub frame_index: u32,
    pub frame_resolution: Seq<char>,
    pub target_repo_relative_path: Option<Seq<char>>,
    pub target_span: Option<SourceSpan>,
}

impl View for LogFrame {
    type V = LogFrameView;

    open spec fn view(&self) -> LogFrameView {
        LogFrameView {
            frame_index: self.frame_index,
            frame_resolution: self.frame_resolution@,
            target_repo_relative_path: opt_view(self.target_repo_relative_path),
            target_span: self.target_span,
        }
    }
}

impl LogFrame {
    /// A copy with the same view.
    pub fn copy(&self) -> (r: LogFrame)
        ensures
            r@ == self@,
    {
        LogFrame {
            frame_index: self.frame_index,
            frame_resolution: self.frame_resolution.clone(),
            target_repo_relative_path: opt_clone(&self.target_repo_relative_path),
            target_span: self.target_span,
        }
    }
}

/// The views of a list.
pub open spec fn log_frame_views(s: Seq<LogFrame>) -> Seq<LogFrameView> {
    s.map_values(|x: LogFrame| x@)
}

/// A copy of a list, with the same views.
pub fn copy_log_frames(v: &Vec<LogFrame>) -> (r: Vec<LogFrame>)
    ensures
        log_frame_views(r@) == log_frame_views(v@),
        r@.len() == v@.len(),
{
    let mut r: Vec<LogFrame> = Vec::new();
    let mut i: usize = 0;
    while i < v.len()
        invariant
            i <= v@.len(),
            r@.len() == i,
            forall|k: int| 0 <= k < i ==> (#[trigger] r@[k])@ == v@[k]@,
        decreases v@.len() - i,
    {
        r.push(v[i].copy());
        i = i + 1;
    }
    assert(log_frame_views(r@) =~= log_frame_views(v@));
    r
}

/// A kind of error that was logged.
#[derive(Clone, Debug, PartialEq, Eq)]
pub struct LogSignature {
    pub record_id: String,
    pub schema_version: u32,
    pub severity: Option<String>,
    pub occurrence_count: u64,
    pub template_excerpt: String,
    /// When it was first seen; nothing where that is not known.
    pub first_seen: String,
    /// When it was last seen; nothing where that is not known.
    pub last_seen: String,
    /// The frames that lie in the subsystem.
    pub in_prefix_frames: Vec<LogFrame>,
}

/// The view of a [`LogSignature`].
#[verifier::ext_equal]
pub struct LogSignatureView {
    pub record_id: Seq<char>,
    pub schema_version: u32,
    pub severity: Option<Seq<char>>,
    pub occurrence_count: u64,
    pub template_excerpt: Seq<char>,
    pub first_seen: Seq<char>,
    pub last_seen: Seq<char>,
    pub in_prefix_frames: Seq<LogFrameView>,
}

impl View for LogSignature {
    type V = LogSignatureView;

    open spec fn view(&self) -> LogSignatureView {
        LogSignatureView {
            record_id: self.record_id@,
            schema_version: self.schema_version,
            severity: opt_view(self.severity),
            occurrence_count: self.occurrence_count,
            template_excerpt: self.template_excerpt@,
            first_seen: self.first_seen@,
            last_seen: self.last_seen@,
            in_prefix_frames: log_frame_views(self.in_prefix_frames@),
        }
    }
}

/// What is told of a kind of error that was logged.
#[derive(Clone, Debug, PartialEq, Eq)]
pub struct LogSignatureRow {
    pub record_id: String,
    /// The kind of its node.
    pub kind: &'static str,
    /// What it is evidence of.
    pub trust_class: &'static str,
    /// How far it is to be trusted.
    pub trust: String,
    pub schema_version: u32,
    pub severity: Option<String>,
    pub occurrence_count: u64,
    pub template_excerpt: String,
    pub first_seen_valid_time: Option<String>,
    pub last_seen_valid_time: Option<String>,
    /// The frames that lie in the subsystem.
    pub resolved_frames: Vec<LogFrame>,
}

/// The view of a [`LogSignatureRow`].
#[verifier::ext_equal]
pub struct LogSignatureRowView {
    pub record_id: Seq<char>,
    pub kind: Seq<char>,
    pub trust_class: Seq<char>,
    pub trust: Seq<char>,
    pub schema_version: u32,
    pub severity: Option<Seq<char>>,
    pub occurrence_count: u64,
    pub template_excerpt: Seq<char>,
    pub first_seen_valid_time: Option<Seq<char>>,
    pub last_seen_valid_time: Option<Seq<char>>,
    pub resolved_frames: Seq<LogFrameView>,
}

impl View for LogSignatureRow {
    type V = LogSignatureRowView;

    open spec fn view(&self) -> LogSignatureRowView {
        LogSignatureRowView {
            record_id: self.record_id@,
            kind: self.kind@,
            trust_class: self.trust_class@,
            trust: self.trust@,
            schema_version: self.schema_version,
            severity: opt_view(self.severity),
            occurrence_count: self.occurrence_count,
            template_excerpt: self.template_excerpt@,
            first_seen_valid_time: opt_view(self.first_seen_valid_time),
            last_seen_valid_time: opt_view(self.last_seen_valid_time),
            resolved_frames: log_frame_views(self.resolved_frames@),
        }
    }
}

/// What became of the prefix.
#[derive(Clone, Debug, PartialEq, Eq)]
pub enum PrefixOutcome {
    /// It is empty; this is what is left of it.
    Malformed(String),
    /// Nothing lies under it.
    NoMatch,
    /// Something lies under it.
    Found,
}

/// Why a question after a subsystem was not answered.
#[derive(Clone, Debug, PartialEq, Eq)]
pub struct PrefixFailure {
    pub code: &'static str,
    pub prefix: String,
    pub message: &'static str,
    pub exit_code: u8,
}

/// The view of a [`PrefixFailure`].
#[verifier::ext_equal]
pub struct PrefixFailureView {
    pub code: Seq<char>,
    pub prefix: Seq<char>,
    pub message: Seq<char>,
    pub exit_code: u8,
}

impl View for PrefixFailure {
    type V = PrefixFailureView;

    open spec fn view(&self) -> PrefixFailureView {
        PrefixFailureView {
            code: self.code@,
            prefix: self.prefix@,
            message: self.message@,
            exit_code: self.exit_code,
        }
    }
}

/// Why a prefix is not answered, where it is not.
pub open spec fn prefix_failure(o: PrefixOutcome, asked: Seq<char>) -> Option<PrefixFailureView> {
    match o {
        PrefixOutcome::Malformed(p) => Some(
            PrefixFailureView {
                code: "malformed_prefix"@,
                prefix: p@,
                message: "prefix must be non-empty after stripping trailing slashes"@,
                exit_code: 1,
            },
        ),
        PrefixOutcome::NoMatch => Some(
            PrefixFailureView {
                code: "no_match"@,
                prefix: asked,
                message: "no records found under the given prefix"@,
                exit_code: 2,
            },
        ),
        PrefixOutcome::Found => None,
    }
}

/// Why a prefix is not answered, where it is not.
pub fn prefix_error(o: PrefixOutcome, asked: &str) -> (r: Option<PrefixFailure>)
    ensures
        (match r {
            Some(x) => Some(x@),
            None => None,
        }) == prefix_failure(o, asked@),
{
    match o {
        PrefixOutcome::Malformed(prefix) => Some(
            PrefixFailure {
                code: "malformed_prefix",
                prefix,
                message: "prefix must be non-empty after stripping trailing slashes",
                exit_code: 1,
            },
        ),
        PrefixOutcome::NoMatch => Some(
            PrefixFailure {
                code: "no_match",
                prefix: asked.to_owned(),
                message: "no records found under the given prefix",
                exit_code: 2,
            },
        ),
        PrefixOutcome::Found => None,
    }
}

// ---------------------------------------------------------------------------
// Edges
// ---------------------------------------------------------------------------

/// The row of an edge.
pub open spec fn topology_row(e: EdgeRecord) -> TopologyRowView {
    TopologyRowView {
        record_id: e.id@,
        label: edge_label_name(e.label),
        source_id: e.source@,
        target_id: e.target@,
        summary: e.summary@,
        git_commit: match e.temporal {
            Some(t) => Some(t.git_commit@),
            None => None,
        },
        valid_time: match e.temporal {
            Some(t) => Some(t.valid_time@),
            None => None,
        },
    }
}

/// The rows of the edges among the first `n` records.
pub open spec fn topology_upto(s: Seq<GraphRecord>, n: int) -> Seq<TopologyRowView>
    decreases n,
{
    if n <= 0 {
        Seq::empty()
    } else {
        match s[n - 1] {
            GraphRecord::Edge(e) => topology_upto(s, n - 1).push(topology_row(e)),
            _ => topology_upto(s, n - 1),
        }
    }
}

/// The views of rows.
pub open spec fn topology_views(s: Seq<TopologyRow>) -> Seq<TopologyRowView> {
    s.map_values(|x: TopologyRow| x@)
}

fn make_topology_row(e: &EdgeRecord) -> (r: TopologyRow)
    ensures
        r@ == topology_row(*e),
{
    TopologyRow {
        record_id: e.id.clone(),
        label: e.label.as_str().to_owned(),
        source_id: e.source.clone(),
        target_id: e.target.clone(),
        summary: e.summary.clone(),
        git_commit: match &e.temporal {
            Some(t) => Some(t.git_commit.clone()),
            None => None,
        },
        valid_time: match &e.temporal {
            Some(t) => Some(t.valid_time.clone()),
            None => None,
        },
    }
}

/// The rows of the edges among the records.
pub fn topology_rows(records: &Vec<GraphRecord>) -> (r: Vec<TopologyRow>)
    ensures
        topology_views(r@) == topology_upto(records@, records@.len() as int),
{
    let mut r: Vec<TopologyRow> = Vec::new();
    let mut i: usize = 0;
    assert(topology_views(r@) =~= Seq::empty());
    while i < records.len()
        invariant
            i <= records@.len(),
            topology_views(r@) == topology_upto(records@, i as int),
        decreases records@.len() - i,
    {
        if let GraphRecord::Edge(e) = &records[i] {
            let ghost before = r@;
            let x = make_topology_row(e);
            r.push(x);
            assert(topology_views(r@) =~= topology_views(before).push(x@));
        }
        i = i + 1;
    }
    r
}

// ---------------------------------------------------------------------------
// Drifts
// ---------------------------------------------------------------------------

/// A measurement that was found: its record, how far it is to be trusted, and where what
/// it measures lies.
pub struct FoundDrift {
    pub record: GraphRecord,
    pub trust: String,
    pub path: Option<String>,
    pub span: Option<SourceSpan>,
}

/// The row of a measurement, where the record holds one.
pub open spec fn drift_row(d: FoundDrift) -> Option<SubsystemDriftView> {
    match d.record {
        GraphRecord::Node(n) => match n.semantic_drift {
            Some(m) => Some(
                SubsystemDriftView {
                    record_id: n.id@,
                    trust_class: "source_fact"@,
                    trust: d.trust@,
                    score: m.score@,
                    target_repo_relative_path: opt_view(d.path),
                    target_span: d.span,
                    after_git_commit: m.after_git_commit@,
                },
            ),
            None => None,
        },
        _ => None,
    }
}

/// The row of a measurement.
pub fn make_drift_row(d: &FoundDrift) -> (r: Option<SubsystemDrift>)
    ensures
        (match r {
            Some(x) => Some(x@),
            None => None,
        }) == drift_row(*d),
{
    match &d.record {
        GraphRecord::Node(n) => match &n.semantic_drift {
            Some(m) => {
                let r = SubsystemDrift {
                    record_id: n.id.clone(),
                    trust_class: "source_fact",
                    trust: d.trust.clone(),
                    score: m.score.clone(),
                    target_repo_relative_path: opt_clone(&d.path),
                    target_span: d.span,
                    after_git_commit: m.after_git_commit.clone(),
                };
                Some(r)
            },
            None => None,
        },
        _ => None,
    }
}

// ---------------------------------------------------------------------------
// Logs
// ---------------------------------------------------------------------------

/// How far the records are to be trusted: their identifiers, and what is said of each.
pub type TrustLabels = Vec<(String, String)>;

/// The views of labels.
pub open spec fn label_views(s: Seq<(String, String)>) -> Seq<(Seq<char>, Seq<char>)> {
    s.map_values(|x: (String, String)| (x.0@, x.1@))
}

/// Whether one of the first `n` records is the node of a kind of error with this
/// identifier.
pub open spec fn has_signature(s: Seq<GraphRecord>, n: int, id: Seq<char>) -> bool {
    exists|i: int|
        0 <= i < n && (#[trigger] s[i]) is Node && s[i]->Node_0.kind == NodeKind::ErrorSignature
            && s[i]->Node_0.id@ == id
}

/// What the first label from the `i`-th on that is of the record says.
pub open spec fn label_from(
    labels: Seq<(Seq<char>, Seq<char>)>,
    id: Seq<char>,
    i: int,
) -> Seq<char>
    decreases labels.len() - i,
{
    if i < 0 || i >= labels.len() {
        "source_derived"@
    } else if labels[i].0 == id {
        labels[i].1
    } else {
        label_from(labels, id, i + 1)
    }
}

/// How far a kind of error is to be trusted: as its node is, or, where it has none, as
/// what is read from the source.
pub open spec fn signature_trust(
    s: Seq<GraphRecord>,
    labels: Seq<(Seq<char>, Seq<char>)>,
    id: Seq<char>,
) -> Seq<char> {
    if has_signature(s, s.len() as int, id) {
        label_from(labels, id, 0)
    } else {
        "source_derived"@
    }
}

fn has_signature_node(records: &Vec<GraphRecord>, id: &str) -> (r: bool)
    ensures
        r == has_signature(records@, records@.len() as int, id@),
{
    let mut i: usize = 0;
    while i < records.len()
        invariant
            i <= records@.len(),
            forall|k: int|
                0 <= k < i ==> !((#[trigger] records@[k]) is Node && records@[k]->Node_0.kind
                    == NodeKind::ErrorSignature && records@[k]->Node_0.id@ == id@),
        decreases records@.len() - i,
    {
        if let GraphRecord::Node(n) = &records[i] {
            if n.kind == NodeKind::ErrorSignature && str_eq(n.id.as_str(), id) {
                assert(records@[i as int] is Node);
                return true;
            }
        }
        i = i + 1;
    }
    false
}

fn find_label(labels: &TrustLabels, id: &str) -> (r: String)
    ensures
        r@ == label_from(label_views(labels@), id@, 0),
{
    let ghost t = label_views(labels@);
    let mut i: usize = 0;
    while i < labels.len()
        invariant
            i <= labels@.len(),
            t == label_views(labels@),
            label_from(t, id@, 0) == label_from(t, id@, i as int),
        decreases labels@.len() - i,
    {
        assert(t[i as int] == (labels@[i as int].0@, labels@[i as int].1@));
        if str_eq(labels[i].0.as_str(), id) {
            return labels[i].1.clone();
        }
        i = i + 1;
    }
    assert(t.len() == labels@.len());
    "source_derived".to_owned()
}

/// A time, where it is known.
pub open spec fn known_time(t: Seq<char>) -> Option<Seq<char>> {
    if t.len() == 0 {
        None
    } else {
        Some(t)
    }
}

fn time_if_known(t: &str) -> (r: Option<String>)
    ensures
        opt_view(r) == known_time(t@),
{
    proof {
        reveal_strlit("");
        if t@.len() == 0 {
            assert(t@ =~= ""@);
        }
    }
    if str_eq(t, "") {
        None
    } else {
        Some(t.to_owned())
    }
}

/// What is told of a kind of error that was logged.
pub open spec fn signature_row(
    s: Seq<GraphRecord>,
    labels: Seq<(Seq<char>, Seq<char>)>,
    g: LogSignatureView,
) -> LogSignatureRowView {
    LogSignatureRowView {
        record_id: g.record_id,
        kind: "ErrorSignature"@,
        trust_class: "runtime_observation"@,
        trust: signature_trust(s, labels, g.record_id),
        schema_version: g.schema_version,
        severity: g.severity,
        occurrence_count: g.occurrence_count,
        template_excerpt: g.template_excerpt,
        first_seen_valid_time: known_time(g.first_seen),
        last_seen_valid_time: known_time(g.last_seen),
        resolved_frames: g.in_prefix_frames,
    }
}

/// What is told of a kind of error that was logged.
pub fn make_signature_row(records: &Vec<GraphRecord>, labels: &TrustLabels, g: &LogSignature) -> (r:
    LogSignatureRow)
    ensures
        r@ == signature_row(records@, label_views(labels@), g@),
{
    let trust = if has_signature_node(records, g.record_id.as_str()) {
        find_label(labels, g.record_id.as_str())
    } else {
        "source_derived".to_owned()
    };
    LogSignatureRow {
        record_id: g.record_id.clone(),
        kind: "ErrorSignature",
        trust_class: "runtime_observation",
        trust,
        schema_version: g.schema_version,
        severity: opt_clone(&g.severity),
        occurrence_count: g.occurrence_count,
        template_excerpt: g.template_excerpt.clone(),
        first_seen_valid_time: time_if_known(g.first_seen.as_str()),
        last_seen_valid_time: time_if_known(g.last_seen.as_str()),
        resolved_frames: copy_log_frames(&g.in_prefix_frames),
    }
}

// ---------------------------------------------------------------------------
// Answers
// ---------------------------------------------------------------------------

/// The rows of the first `n` measurements.
pub open spec fn drift_rows(s: Seq<FoundDrift>, n: int) -> Seq<SubsystemDriftView>
    decreases n,
{
    if n <= 0 {
        Seq::empty()
    } else {
        match drift_row(s[n - 1]) {
            Some(x) => drift_rows(s, n - 1).push(x),
            None => drift_rows(s, n - 1),
        }
    }
}

/// The views of rows.
pub open spec fn drift_views(s: Seq<SubsystemDrift>) -> Seq<SubsystemDriftView> {
    s.map_values(|x: SubsystemDrift| x@)
}

fn make_drift_rows(s: &Vec<FoundDrift>) -> (r: Vec<SubsystemDrift>)
    ensures
        drift_views(r@) == drift_rows(s@, s@.len() as int),
{
    let mut r: Vec<SubsystemDrift> = Vec::new();
    let mut i: usize = 0;
    assert(drift_views(r@) =~= Seq::empty());
    while i < s.len()
        invariant
            i <= s@.len(),
            drift_views(r@) == drift_rows(s@, i as int),
        decreases s@.len() - i,
    {
        if let Some(x) = make_drift_row(&s[i]) {
            let ghost before = r@;
            r.push(x);
            assert(drift_views(r@) =~= drift_views(before).push(x@));
        }
        i = i + 1;
    }
    r
}

/// The views of rows.
pub open spec fn signature_row_views(s: Seq<LogSignatureRow>) -> Seq<LogSignatureRowView> {
    s.map_values(|x: LogSignatureRow| x@)
}

/// What is told of the kinds of errors that were logged.
pub open spec fn signature_rows(
    s: Seq<GraphRecord>,
    labels: Seq<(Seq<char>, Seq<char>)>,
    gs: Seq<LogSignature>,
) -> Seq<LogSignatureRowView> {
    gs.map_values(|g: LogSignature| signature_row(s, labels, g@))
}

fn make_signature_rows(
    records: &Vec<GraphRecord>,
    labels: &TrustLabels,
    gs: &Vec<LogSignature>,
) -> (r: Vec<LogSignatureRow>)
    ensures
        signature_row_views(r@) == signature_rows(records@, label_views(labels@), gs@),
{
    let ghost all = signature_rows(records@, label_views(labels@), gs@);
    let mut r: Vec<LogSignatureRow> = Vec::new();
    let mut i: usize = 0;
    assert(signature_row_views(r@) =~= all.take(0));
    while i < gs.len()
        invariant
            i <= gs@.len(),
            all == signature_rows(records@, label_views(labels@), gs@),
            signature_row_views(r@) == all.take(i as int),
        decreases gs@.len() - i,
    {
        let x = make_signature_row(records, labels, &gs[i]);
        let ghost before = r@;
        r.push(x);
        proof {
            assert(signature_row_views(r@) =~= signature_row_views(before).push(x@));
            assert(all.take(i + 1) =~= all.take(i as int).push(x@));
        }
        i = i + 1;
    }
    assert(all.take(i as int) =~= all);
    r
}

/// A link whose target is not in the graph.
#[derive(Clone, Debug, PartialEq, Eq)]
pub struct UnresolvedLink {
    pub source_record_id: String,
    pub target_handle: String,
    pub relation: String,
    pub target_domain: String,
}

/// What is told of a link whose target is not in the graph.
#[derive(Clone, Debug, PartialEq, Eq)]
pub struct UnresolvedLinkRow {
    pub source_record_id: String,
    pub target_handle: String,
    pub relation: String,
    pub target_domain: String,
    pub verification_status: &'static str,
}

/// The view of an [`UnresolvedLinkRow`].
#[verifier::ext_equal]
pub struct UnresolvedLinkRowView {
    pub source_record_id: Seq<char>,
    pub target_handle: Seq<char>,
    pub relation: Seq<char>,
    pub target_domain: Seq<char>,
    pub verification_status: Seq<char>,
}

impl View for UnresolvedLinkRow {
    type V = UnresolvedLinkRowView;

    open spec fn view(&self) -> UnresolvedLinkRowView {
        UnresolvedLinkRowView {
            source_record_id: self.source_record_id@,
            target_handle: self.target_handle@,
            relation: self.relation@,
            target_domain: self.target_domain@,
            verification_status: self.verification_status@,
        }
    }
}

/// What is told of a link whose target is not in the graph.
pub open spec fn unresolved_link_row(l: UnresolvedLink) -> UnresolvedLinkRowView {
    UnresolvedLinkRowView {
        source_record_id: l.source_record_id@,
        target_handle: l.target_handle@,
        relation: l.relation@,
        target_domain: l.target_domain@,
        verification_status: "unresolved"@,
    }
}

/// The views of rows.
pub open spec fn unresolved_link_views(s: Seq<UnresolvedLinkRow>) -> Seq<UnresolvedLinkRowView> {
    s.map_values(|x: UnresolvedLinkRow| x@)
}

fn unresolved_link_rows(links: &Vec<UnresolvedLink>) -> (r: Vec<UnresolvedLinkRow>)
    ensures
        unresolved_link_views(r@) == links@.map_values(|l: UnresolvedLink| unresolved_link_row(l)),
{
    let mut r: Vec<UnresolvedLinkRow> = Vec::new();
    let mut i: usize = 0;
    while i < links.len()
        invariant
            i <= links@.len(),
            r@.len() == i,
            forall|k: int| 0 <= k < i ==> (#[trigger] r@[k])@ == unresolved_link_row(links@[k]),
        decreases links@.len() - i,
    {
        let l = &links[i];
        r.push(
            UnresolvedLinkRow {
                source_record_id: l.source_record_id.clone(),
                target_handle: l.target_handle.clone(),
                relation: l.relation.clone(),
                target_domain: l.target_domain.clone(),
                verification_status: "unresolved",
            },
        );
        i = i + 1;
    }
    assert(unresolved_link_views(r@) =~= links@.map_values(
        |l: UnresolvedLink| unresolved_link_row(l),
    ));
    r
}

/// The rows of what is linked to a subsystem, as they are told.
pub struct LinkedRows<T> {
    pub source_facts: Vec<T>,
    /// The observations that are not replaced, or all where that was asked for.
    pub observations: Vec<T>,
    pub project_state: Vec<T>,
    pub artifacts: Vec<T>,
    pub verification_evidence: Vec<T>,
    /// The observations that were left out as replaced.
    pub excluded: Vec<T>,
}

/// What was found under a prefix.
pub struct FoundSubsystem<T> {
    /// The prefix, without the slashes at its end.
    pub prefix: String,
    pub topology_edges: Vec<GraphRecord>,
    pub semantic_drift: Vec<FoundDrift>,
    pub log_signatures: Vec<LogSignature>,
    pub unresolved: Vec<UnresolvedLink>,
    pub linked: LinkedRows<T>,
}

/// What is told of a subsystem.
pub struct SubsystemReport<T> {
    pub prefix: String,
    pub topology_edges: Vec<TopologyRow>,
    pub semantic_drift: Vec<SubsystemDrift>,
    pub log_signatures: Vec<LogSignatureRow>,
    pub unresolved: Vec<UnresolvedLinkRow>,
    pub linked: LinkedRows<T>,
    /// Which records were read.
    pub corpus: Corpus,
}

/// Whether a report tells what was found under a prefix.
pub open spec fn tells_subsystem<T>(
    r: SubsystemReport<T>,
    records: Seq<GraphRecord>,
    labels: Seq<(Seq<char>, Seq<char>)>,
    found: FoundSubsystem<T>,
    corpus: Corpus,
) -> bool {
    &&& r.prefix@ == found.prefix@
    &&& topology_views(r.topology_edges@) == topology_upto(
        found.topology_edges@,
        found.topology_edges@.len() as int,
    )
    &&& drift_views(r.semantic_drift@) == drift_rows(
        found.semantic_drift@,
        found.semantic_drift@.len() as int,
    )
    &&& signature_row_views(r.log_signatures@) == signature_rows(
        records,
        labels,
        found.log_signatures@,
    )
    &&& unresolved_link_views(r.unresolved@) == found.unresolved@.map_values(
        |l: UnresolvedLink| unresolved_link_row(l),
    )
    &&& r.linked == found.linked
    &&& r.corpus == corpus
}

/// Answers a question after a subsystem: tells what was found, or why the prefix was not
/// answered.
pub fn subsystem_answer<T>(
    outcome: PrefixOutcome,
    asked: &str,
    records: &Vec<GraphRecord>,
    labels: &TrustLabels,
    found: FoundSubsystem<T>,
    corpus: Corpus,
) -> (r: Result<SubsystemReport<T>, PrefixFailure>)
    ensures
        match prefix_failure(outcome, asked@) {
            Some(f) => r is Err && r->Err_0@ == f,
            None => r is Ok && tells_subsystem(
                r->Ok_0,
                records@,
                label_views(labels@),
                found,
                corpus,
            ),
        },
{
    match prefix_error(outcome, asked) {
        Some(f) => Err(f),
        None => Ok(
            SubsystemReport {
                prefix: found.prefix,
                topology_edges: topology_rows(&found.topology_edges),
                semantic_drift: make_drift_rows(&found.semantic_drift),
                log_signatures: make_signature_rows(records, labels, &found.log_signatures),
                unresolved: unresolved_link_rows(&found.unresolved),
                linked: found.linked,
                corpus,
            },
        ),
    }
}

} // verus!
