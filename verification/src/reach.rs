//! Which symbols reach, or are reached from, a symbol: what is asked, and what is told.

use vstd::prelude::*;
use vstd::string::*;

use crate::collections::{
    in_order_by, lemma_ranked_views, lemma_same_members, lemma_sorted_by, sort_ranked, sorted_by,
    weak_order, Ranked,
};
use crate::commit_view::{
    commit_records, drop_records, records_at, records_without, resolve_transitive_commit_view,
    selection, CommitSelector, CommitViewError, SelectionView, SelectorView,
};
use crate::ir::{node_kind_name, record_views, GraphRecord, NodeRecord, RecordView, SourceSpan};
use crate::repository::RepositoryIndex;
use crate::scan::{blank, is_blank};
use crate::text::{
    concat2, concat3, concat4, concat5, concat6, concat7, decimal, decimal_seq, lemma_lex_three,
    lemma_lex_two, lex_lt, lex_order, opt_clone, opt_str_view, opt_view, str_eq, str_lt, str_order,
    views, Order,
};

verus! {

/// One step of a path through the graph.
#[derive(Clone, Debug, PartialEq, Eq)]
pub struct PathStep {
    /// Where the step begins.
    pub source_record_id: String,
    /// The edge.
    pub edge_record_id: String,
    /// The label of the edge.
    pub edge_label: String,
    /// How sure the edge is, where that is known.
    pub resolution: Option<String>,
    /// Where the step ends.
    pub target_record_id: String,
}

/// The view of a [`PathStep`].
#[verifier::ext_equal]
pub struct PathStepView {
    pub source_record_id: Seq<char>,
    pub edge_record_id: Seq<char>,
    pub edge_label: Seq<char>,
    pub resolution: Option<Seq<char>>,
    pub target_record_id: Seq<char>,
}

impl View for PathStep {
    type V = PathStepView;

    open spec fn view(&self) -> PathStepView {
        PathStepView {
            source_record_id: self.source_record_id@,
            edge_record_id: self.edge_record_id@,
            edge_label: self.edge_label@,
            resolution: opt_view(self.resolution),
            target_record_id: self.target_record_id@,
        }
    }
}

impl PathStep {
    /// A copy with the same view.
    pub fn copy(&self) -> (r: PathStep)
        ensures
            r@ == self@,
    {
        PathStep {
            source_record_id: self.source_record_id.clone(),
            edge_record_id: self.edge_record_id.clone(),
            edge_label: self.edge_label.clone(),
            resolution: opt_clone(&self.resolution),
            target_record_id: self.target_record_id.clone(),
        }
    }
}

/// The views of a list.
pub open spec fn path_step_views(s: Seq<PathStep>) -> Seq<PathStepView> {
    s.map_values(|x: PathStep| x@)
}

/// A copy of a list, with the same views.
pub fn copy_path_steps(v: &Vec<PathStep>) -> (r: Vec<PathStep>)
    ensures
        path_step_views(r@) == path_step_views(v@),
        r@.len() == v@.len(),
{
    let mut r: Vec<PathStep> = Vec::new();
    let mut i: usize = 0;
    while i < v.len()
        invariant
            i <= v@.len(),
            r@.len() == i,
            forall|k: int| 0 <= k < i ==> (#[trigger] r@[k])@ == v@[k]@,
        decreases v@.len() - i,
    {
        r.push(v[i].copy());
        i = i + 1;
    }
    assert(path_step_views(r@) =~= path_step_views(v@));
    r
}

/// A symbol on a path: a lead, no proof.
#[derive(Clone, Debug, PartialEq, Eq)]
pub struct LeadRow {
    pub record_id: String,
    pub schema_version: u32,
    pub name: Option<String>,
    pub kind: String,
    pub repo_relative_path: Option<String>,
    pub span: Option<SourceSpan>,
    pub valid_time: Option<String>,
    pub git_commit: Option<String>,
    /// How many steps away it is.
    pub hop: usize,
    /// How sure the path is, where that is known.
    pub path_resolution: Option<String>,
    /// The path.
    pub path: Vec<PathStep>,
}

/// The view of a [`LeadRow`].
#[verifier::ext_equal]
pub struct LeadRowView {
    pub record_id: Seq<char>,
    pub schema_version: u32,
    pub name: Option<Seq<char>>,
    pub kind: Seq<char>,
    pub repo_relative_path: Option<Seq<char>>,
    pub span: Option<SourceSpan>,
    pub valid_time: Option<Seq<char>>,
    pub git_commit: Option<Seq<char>>,
    pub hop: usize,
    pub path_resolution: Option<Seq<char>>,
    pub path: Seq<PathStepView>,
}

impl View for LeadRow {
    type V = LeadRowView;

    open spec fn view(&self) -> LeadRowView {
        LeadRowView {
            record_id: self.record_id@,
            schema_version: self.schema_version,
            name: opt_view(self.name),
            kind: self.kind@,
            repo_relative_path: opt_view(self.repo_relative_path),
            span: self.span,
            valid_time: opt_view(self.valid_time),
            git_commit: opt_view(self.git_commit),
            hop: self.hop,
            path_resolution: opt_view(self.path_resolution),
            path: path_step_views(self.path@),
        }
    }
}

impl LeadRow {
    /// A copy with the same view.
    pub fn copy(&self) -> (r: LeadRow)
        ensures
            r@ == self@,
    {
        LeadRow {
            record_id: self.record_id.clone(),
            schema_version: self.schema_version,
            name: opt_clone(&self.name),
            kind: self.kind.clone(),
            repo_relative_path: opt_clone(&self.repo_relative_path),
            span: self.span,
            valid_time: opt_clone(&self.valid_time),
            git_commit: opt_clone(&self.git_commit),
            hop: self.hop,
            path_resolution: opt_clone(&self.path_resolution),
            path: copy_path_steps(&self.path),
        }
    }
}

/// The views of a list.
pub open spec fn lead_row_views(s: Seq<LeadRow>) -> Seq<LeadRowView> {
    s.map_values(|x: LeadRow| x@)
}

/// An edge whose end is not in the graph.
#[derive(Clone, Debug, PartialEq, Eq)]
pub struct UnresolvedRow {
    pub relation: String,
    pub reason: String,
    pub record_id: Option<String>,
    pub name: Option<String>,
    pub kind: Option<String>,
    pub repo_relative_path: Option<String>,
    pub span: Option<SourceSpan>,
    pub target_record_id: String,
    pub source_record_id: String,
    pub source_hop: usize,
    pub resolution: Option<String>,
    pub edge_record_id: String,
}

/// The view of a [`UnresolvedRow`].
#[verifier::ext_equal]
pub struct UnresolvedRowView {
    pub relation: Seq<char>,
    pub reason: Seq<char>,
    pub record_id: Option<Seq<char>>,
    pub name: Option<Seq<char>>,
    pub kind: Option<Seq<char>>,
    pub repo_relative_path: Option<Seq<char>>,
    pub span: Option<SourceSpan>,
    pub target_record_id: Seq<char>,
    pub source_record_id: Seq<char>,
    pub source_hop: usize,
    pub resolution: Option<Seq<char>>,
    pub edge_record_id: Seq<char>,
}

impl View for UnresolvedRow {
    type V = UnresolvedRowView;

    open spec fn view(&self) -> UnresolvedRowView {
        UnresolvedRowView {
            relation: self.relation@,
            reason: self.reason@,
            record_id: opt_view(self.record_id),
            name: opt_view(self.name),
            kind: opt_view(self.kind),
            repo_relative_path: opt_view(self.repo_relative_path),
            span: self.span,
            target_record_id: self.target_record_id@,
            source_record_id: self.source_record_id@,
            source_hop: self.source_hop,
            resolution: opt_view(self.resolution),
            edge_record_id: self.edge_record_id@,
        }
    }
}

impl UnresolvedRow {
    /// A copy with the same view.
    pub fn copy(&self) -> (r: UnresolvedRow)
        ensures
            r@ == self@,
    {
        UnresolvedRow {
            relation: self.relation.clone(),
            reason: self.reason.clone(),
            record_id: opt_clone(&self.record_id),
            name: opt_clone(&self.name),
            kind: opt_clone(&self.kind),
            repo_relative_path: opt_clone(&self.repo_relative_path),
            span: self.span,
            target_record_id: self.target_record_id.clone(),
            source_record_id: self.source_record_id.clone(),
            source_hop: self.source_hop,
            resolution: opt_clone(&self.resolution),
            edge_record_id: self.edge_record_id.clone(),
        }
    }
}

/// The views of a list.
pub open spec fn unresolved_row_views(s: Seq<UnresolvedRow>) -> Seq<UnresolvedRowView> {
    s.map_values(|x: UnresolvedRow| x@)
}

/// Something that is told beside the rows.
#[derive(Clone, Debug, PartialEq, Eq)]
pub struct AuditDiagnostic {
    pub code: String,
    pub source_record_id: String,
    pub target_handle: String,
    pub relation: String,
    pub target_domain: String,
}

/// The view of a [`AuditDiagnostic`].
#[verifier::ext_equal]
pub struct DiagnosticView {
    pub code: Seq<char>,
    pub source_record_id: Seq<char>,
    pub target_handle: Seq<char>,
    pub relation: Seq<char>,
    pub target_domain: Seq<char>,
}

impl View for AuditDiagnostic {
    type V = DiagnosticView;

    open spec fn view(&self) -> DiagnosticView {
        DiagnosticView {
            code: self.code@,
            source_record_id: self.source_record_id@,
            target_handle: self.target_handle@,
            relation: self.relation@,
            target_domain: self.target_domain@,
        }
    }
}

impl AuditDiagnostic {
    /// A copy with the same view.
    pub fn copy(&self) -> (r: AuditDiagnostic)
        ensures
            r@ == self@,
    {
        AuditDiagnostic {
            code: self.code.clone(),
            source_record_id: self.source_record_id.clone(),
            target_handle: self.target_handle.clone(),
            relation: self.relation.clone(),
            target_domain: self.target_domain.clone(),
        }
    }
}

/// The views of a list.
pub open spec fn audit_diagnostic_views(s: Seq<AuditDiagnostic>) -> Seq<DiagnosticView> {
    s.map_values(|x: AuditDiagnostic| x@)
}

// ---------------------------------------------------------------------------
// What is read
// ---------------------------------------------------------------------------

/// Which records a question about the present reads.
#[derive(Clone, Copy, Debug, PartialEq, Eq, Structural)]
pub enum CorpusMode {
    /// Those that stand at the head of their repository.
    HeadAnchored,
    /// Those of all commits.
    Union,
    /// Those of one commit.
    CommitPinned,
    /// Those of the only snapshot.
    SingleSnapshot,
}

/// The name of a choice of records.
pub open spec fn corpus_mode_name(m: CorpusMode) -> Seq<char> {
    match m {
        CorpusMode::HeadAnchored => "head_anchored"@,
        CorpusMode::Union => "union"@,
        CorpusMode::CommitPinned => "commit_pinned"@,
        CorpusMode::SingleSnapshot => "single_snapshot"@,
    }
}

impl CorpusMode {
    /// The name of the choice.
    pub fn as_str(self) -> (r: &'static str)
        ensures
            r@ == corpus_mode_name(self),
    {
        match self {
            CorpusMode::HeadAnchored => "head_anchored",
            CorpusMode::Union => "union",
            CorpusMode::CommitPinned => "commit_pinned",
            CorpusMode::SingleSnapshot => "single_snapshot",
        }
    }
}

/// What narrowing the records gives: the commit that was selected, if one was, and the
/// records; or why no commit was selected.
pub enum NarrowedView {
    Records(Option<Seq<char>>, Seq<RecordView>),
    Failed(SelectionView),
}

/// The records that a question reads: those of the selected commit, those that stand at
/// the head, or all.
pub open spec fn narrowed(
    s: Seq<GraphRecord>,
    mode: CorpusMode,
    own: Map<Seq<char>, Seq<char>>,
    scope: Option<Seq<char>>,
    selector: Option<SelectorView>,
    not_at_head: Seq<Seq<char>>,
) -> NarrowedView {
    match mode {
        CorpusMode::CommitPinned => match selector {
            Some(x) => match selection(s, own, scope, x) {
                SelectionView::Found(sha) => NarrowedView::Records(
                    Some(sha),
                    records_at(record_views(s), sha),
                ),
                e => NarrowedView::Failed(e),
            },
            None => NarrowedView::Records(None, record_views(s)),
        },
        CorpusMode::HeadAnchored => NarrowedView::Records(None, records_without(s, not_at_head)),
        _ => NarrowedView::Records(None, record_views(s)),
    }
}

/// What a result of narrowing gives.
pub open spec fn narrowed_of(
    r: Result<(Option<String>, Vec<GraphRecord>), CommitViewError>,
) -> NarrowedView {
    match r {
        Ok(x) => NarrowedView::Records(opt_view(x.0), record_views(x.1@)),
        Err(e) => NarrowedView::Failed(crate::commit_view::selection_of(Err(e))),
    }
}

/// The records that a question reads, and the commit where one was selected.
pub fn narrow_records(
    records: &Vec<GraphRecord>,
    mode: CorpusMode,
    index: &RepositoryIndex,
    repo_scope: Option<&str>,
    selector: Option<CommitSelector<'_>>,
    not_at_head: &Vec<String>,
) -> (r: Result<(Option<String>, Vec<GraphRecord>), CommitViewError>)
    ensures
        narrowed_of(r) == narrowed(
            records@,
            mode,
            index.owners(),
            opt_str_view(repo_scope),
            (match selector {
                Some(x) => Some(x@),
                None => None,
            }),
            views(not_at_head@),
        ),
{
    match mode {
        CorpusMode::CommitPinned => match selector {
            Some(x) => match resolve_transitive_commit_view(records, index, repo_scope, x) {
                Ok(sha) => {
                    let view = commit_records(records, sha.as_str());
                    Ok((Some(sha), view))
                },
                Err(e) => Err(e),
            },
            None => Ok((None, crate::write::copy_records(records))),
        },
        CorpusMode::HeadAnchored => Ok((None, drop_records(records, not_at_head))),
        _ => Ok((None, crate::write::copy_records(records))),
    }
}

/// Which records a question after what a symbol reaches is put to: those of one commit
/// where one is selected, else all. They are never narrowed to the head.
pub fn callees_mode(pinned: bool) -> (m: CorpusMode)
    ensures
        m == (if pinned {
            CorpusMode::CommitPinned
        } else {
            CorpusMode::Union
        }),
{
    if pinned {
        CorpusMode::CommitPinned
    } else {
        CorpusMode::Union
    }
}

/// What of the records a question after what a symbol reaches is put to.
pub open spec fn callees_narrowed(
    s: Seq<GraphRecord>,
    own: Map<Seq<char>, Seq<char>>,
    scope: Option<Seq<char>>,
    selector: Option<SelectorView>,
) -> NarrowedView {
    match selector {
        Some(x) => match selection(s, own, scope, x) {
            SelectionView::Found(sha) => NarrowedView::Records(
                Some(sha),
                records_at(record_views(s), sha),
            ),
            e => NarrowedView::Failed(e),
        },
        None => NarrowedView::Records(None, record_views(s)),
    }
}

/// The records that a question after what a symbol reaches is put to, and the commit where
/// one was selected.
pub fn narrow_callees(
    records: &Vec<GraphRecord>,
    index: &RepositoryIndex,
    repo_scope: Option<&str>,
    selector: Option<CommitSelector<'_>>,
) -> (r: Result<(Option<String>, Vec<GraphRecord>), CommitViewError>)
    ensures
        narrowed_of(r) == callees_narrowed(
            records@,
            index.owners(),
            opt_str_view(repo_scope),
            (match selector {
                Some(x) => Some(x@),
                None => None,
            }),
        ),
{
    let none: Vec<String> = Vec::new();
    narrow_records(records, callees_mode(selector.is_some()), index, repo_scope, selector, &none)
}

// ---------------------------------------------------------------------------
// Handles
// ---------------------------------------------------------------------------

/// What is asked of a symbol.
#[derive(Clone, Copy, Debug, PartialEq, Eq, Structural)]
pub enum Verb {
    /// What reaches it.
    TransitiveCallers,
    /// What it reaches.
    TransitiveCallees,
    /// What builds values of it.
    WhoConstructs,
}

/// What a handle names.
#[derive(Clone, Copy, Debug, PartialEq, Eq, Structural)]
pub enum HandleKind {
    Symbol,
    File,
    Task,
    Source,
}

/// The name of what a handle names.
pub open spec fn handle_kind_name(k: HandleKind) -> Seq<char> {
    match k {
        HandleKind::Symbol => "symbol"@,
        HandleKind::File => "file"@,
        HandleKind::Task => "task"@,
        HandleKind::Source => "source"@,
    }
}

impl HandleKind {
    /// The name of what a handle names.
    pub fn as_str(self) -> (r: &'static str)
        ensures
            r@ == handle_kind_name(self),
    {
        match self {
            HandleKind::Symbol => "symbol",
            HandleKind::File => "file",
            HandleKind::Task => "task",
            HandleKind::Source => "source",
        }
    }
}

/// What a handle was resolved to.
#[derive(Clone, Debug, PartialEq, Eq)]
pub struct ResolvedHandle {
    /// What it names.
    pub kind: HandleKind,
    /// The live records that it names, in order.
    pub anchor_ids: Vec<String>,
    /// Whether it names records that are no longer live.
    pub stale: bool,
    /// The kind of the record that it names, where that is no symbol.
    pub other_kind: Option<String>,
}

/// Why a question was not answered.
#[derive(Clone, Debug, PartialEq, Eq)]
pub enum HandleFailure {
    /// The handle is blank.
    Malformed,
    /// The handle names something else than a symbol.
    Unsupported(String),
    /// What the handle names is gone.
    StaleHandle,
    /// The handle names nothing.
    NoMatch,
    /// The handle names more than one thing.
    Ambiguous(Vec<String>),
}

/// The view of a [`HandleFailure`].
#[verifier::ext_equal]
pub enum HandleFailureView {
    Malformed,
    Unsupported(Seq<char>),
    StaleHandle,
    NoMatch,
    Ambiguous(Seq<Seq<char>>),
}

impl View for HandleFailure {
    type V = HandleFailureView;

    open spec fn view(&self) -> HandleFailureView {
        match self {
            HandleFailure::Malformed => HandleFailureView::Malformed,
            HandleFailure::Unsupported(s) => HandleFailureView::Unsupported(s@),
            HandleFailure::StaleHandle => HandleFailureView::StaleHandle,
            HandleFailure::NoMatch => HandleFailureView::NoMatch,
            HandleFailure::Ambiguous(v) => HandleFailureView::Ambiguous(views(v@)),
        }
    }
}

/// The code of a failure.
pub open spec fn failure_code(f: HandleFailureView) -> Seq<char> {
    match f {
        HandleFailureView::Malformed => "malformed_type_handle"@,
        HandleFailureView::Unsupported(_) => "unsupported"@,
        HandleFailureView::StaleHandle => "stale_handle"@,
        HandleFailureView::NoMatch => "no_match"@,
        HandleFailureView::Ambiguous(_) => "ambiguous"@,
    }
}

impl HandleFailure {
    /// The code of the failure.
    pub fn code(&self) -> (r: &'static str)
        ensures
            r@ == failure_code(self@),
    {
        match self {
            HandleFailure::Malformed => "malformed_type_handle",
            HandleFailure::Unsupported(_) => "unsupported",
            HandleFailure::StaleHandle => "stale_handle",
            HandleFailure::NoMatch => "no_match",
            HandleFailure::Ambiguous(_) => "ambiguous",
        }
    }

    /// The exit code: 2 where the question has no answer, else 1.
    pub fn exit_code(&self) -> (r: u8)
        ensures
            r == (if *self is StaleHandle || *self is NoMatch {
                2u8
            } else {
                1u8
            }),
    {
        match self {
            HandleFailure::StaleHandle | HandleFailure::NoMatch => 2,
            _ => 1,
        }
    }
}

/// The name of a question.
pub open spec fn verb_name(v: Verb) -> Seq<char> {
    match v {
        Verb::TransitiveCallers => "transitive-callers"@,
        Verb::TransitiveCallees => "transitive-callees"@,
        Verb::WhoConstructs => "who-constructs"@,
    }
}

impl Verb {
    /// The name of the question.
    pub fn as_str(self) -> (r: &'static str)
        ensures
            r@ == verb_name(self),
    {
        match self {
            Verb::TransitiveCallers => "transitive-callers",
            Verb::TransitiveCallees => "transitive-callees",
            Verb::WhoConstructs => "who-constructs",
        }
    }
}

/// Why a question does not take what the handle names, if it does not.
pub open spec fn unsupported(
    verb: Verb,
    kind: HandleKind,
    other_kind: Option<Seq<char>>,
) -> Option<Seq<char>> {
    if verb == Verb::WhoConstructs {
        if kind == HandleKind::Symbol {
            None
        } else {
            Some(
                "handle resolved to a "@ + handle_kind_name(kind)
                    + " target; who-constructs accepts only a type name or canonical record ID (the struct/enum definition symbol)"@,
            )
        }
    } else if kind == HandleKind::Task || kind == HandleKind::Source {
        Some(
            "handle resolved to a "@ + handle_kind_name(kind) + " target; "@ + verb_name(verb)
                + " accepts only symbol handles"@,
        )
    } else if kind == HandleKind::File {
        Some(
            "handle resolved to a file; "@ + verb_name(verb)
                + " accepts only symbol handles (use `eg query change-impact` for file-level blast radius)"@,
        )
    } else {
        match other_kind {
            Some(k) => Some(
                "handle resolved to a "@ + k + " node; "@ + verb_name(verb)
                    + " accepts only symbol handles"@,
            ),
            None => None,
        }
    }
}

/// What a question does with what a handle names: the one symbol that it names, or why
/// there is none.
pub enum TargetView {
    Anchor(Seq<char>),
    Failed(HandleFailureView),
}

/// What a question does with what a handle names: it must be a symbol, be live, and be
/// one.
pub open spec fn target_of(
    verb: Verb,
    kind: HandleKind,
    anchors: Seq<Seq<char>>,
    stale: bool,
    other_kind: Option<Seq<char>>,
) -> TargetView {
    match unsupported(verb, kind, other_kind) {
        Some(m) => TargetView::Failed(HandleFailureView::Unsupported(m)),
        None => if anchors.len() == 0 {
            if stale {
                TargetView::Failed(HandleFailureView::StaleHandle)
            } else {
                TargetView::Failed(HandleFailureView::NoMatch)
            }
        } else if anchors.len() > 1 {
            TargetView::Failed(HandleFailureView::Ambiguous(anchors))
        } else {
            TargetView::Anchor(anchors[0])
        },
    }
}

/// What a result of a check gives.
pub open spec fn target_result(r: Result<String, HandleFailure>) -> TargetView {
    match r {
        Ok(s) => TargetView::Anchor(s@),
        Err(e) => TargetView::Failed(e@),
    }
}

fn unsupported_message(verb: Verb, h: &ResolvedHandle) -> (r: Option<String>)
    ensures
        opt_view(r) == unsupported(verb, h.kind, opt_view(h.other_kind)),
{
    if verb == Verb::WhoConstructs {
        if h.kind == HandleKind::Symbol {
            None
        } else {
            Some(
                concat3(
                    "handle resolved to a ",
                    h.kind.as_str(),
                    " target; who-constructs accepts only a type name or canonical record ID (the struct/enum definition symbol)",
                ),
            )
        }
    } else if h.kind == HandleKind::Task || h.kind == HandleKind::Source {
        Some(
            concat5(
                "handle resolved to a ",
                h.kind.as_str(),
                " target; ",
                verb.as_str(),
                " accepts only symbol handles",
            ),
        )
    } else if h.kind == HandleKind::File {
        Some(
            concat3(
                "handle resolved to a file; ",
                verb.as_str(),
                " accepts only symbol handles (use `eg query change-impact` for file-level blast radius)",
            ),
        )
    } else {
        match &h.other_kind {
            Some(k) => Some(
                concat5(
                    "handle resolved to a ",
                    k.as_str(),
                    " node; ",
                    verb.as_str(),
                    " accepts only symbol handles",
                ),
            ),
            None => None,
        }
    }
}

/// The one symbol that a handle names, or why a question is not answered.
pub fn check_target(verb: Verb, h: &ResolvedHandle) -> (r: Result<String, HandleFailure>)
    ensures
        target_result(r) == target_of(
            verb,
            h.kind,
            views(h.anchor_ids@),
            h.stale,
            opt_view(h.other_kind),
        ),
{
    if let Some(m) = unsupported_message(verb, h) {
        return Err(HandleFailure::Unsupported(m));
    }
    assert(views(h.anchor_ids@).len() == h.anchor_ids@.len());
    if h.anchor_ids.len() == 0 {
        if h.stale {
            Err(HandleFailure::StaleHandle)
        } else {
            Err(HandleFailure::NoMatch)
        }
    } else if h.anchor_ids.len() > 1 {
        Err(HandleFailure::Ambiguous(crate::text::copy_strings(&h.anchor_ids)))
    } else {
        assert(views(h.anchor_ids@)[0] == h.anchor_ids@[0]@);
        Ok(h.anchor_ids[0].clone())
    }
}

/// Checks that the handle of a type is not blank.
pub fn check_type_handle(handle: &str) -> (r: Result<(), HandleFailure>)
    ensures
        r is Err <==> blank(handle@),
        r is Err ==> r->Err_0 is Malformed,
{
    if is_blank(handle) {
        Err(HandleFailure::Malformed)
    } else {
        Ok(())
    }
}

// ---------------------------------------------------------------------------
// Rows
// ---------------------------------------------------------------------------

/// A record that was reached.
pub struct ReachedRecord {
    pub record: GraphRecord,
    pub hop: usize,
    pub path_resolution: Option<String>,
    pub path: Vec<PathStep>,
}

/// The time of a node: its own, or else that of its commit.
pub open spec fn node_time(n: NodeRecord) -> Option<Seq<char>> {
    match opt_view(n.valid_time) {
        Some(t) => Some(t),
        None => match n.temporal {
            Some(t) => Some(t.valid_time@),
            None => None,
        },
    }
}

/// The commit of a node.
pub open spec fn node_commit(n: NodeRecord) -> Option<Seq<char>> {
    match n.temporal {
        Some(t) => Some(t.git_commit@),
        None => None,
    }
}

fn time_of_node(n: &NodeRecord) -> (r: Option<String>)
    ensures
        opt_view(r) == node_time(*n),
{
    match &n.valid_time {
        Some(t) => Some(t.clone()),
        None => match &n.temporal {
            Some(t) => Some(t.valid_time.clone()),
            None => None,
        },
    }
}

fn commit_of_node(n: &NodeRecord) -> (r: Option<String>)
    ensures
        opt_view(r) == node_commit(*n),
{
    match &n.temporal {
        Some(t) => Some(t.git_commit.clone()),
        None => None,
    }
}

/// The row of a record that was reached, where it is a node.
pub open spec fn lead_row(r: ReachedRecord) -> Option<LeadRowView> {
    match r.record {
        GraphRecord::Node(n) => Some(
            LeadRowView {
                record_id: n.id@,
                schema_version: n.schema_version,
                name: opt_view(n.name),
                kind: node_kind_name(n.kind),
                repo_relative_path: opt_view(n.repo_relative_path),
                span: n.span,
                valid_time: node_time(n),
                git_commit: node_commit(n),
                hop: r.hop,
                path_resolution: opt_view(r.path_resolution),
                path: path_step_views(r.path@),
            },
        ),
        _ => None,
    }
}

/// The row of a record that was reached.
pub fn transitive_row(r: &ReachedRecord) -> (row: Option<LeadRow>)
    ensures
        (match row {
            Some(x) => Some(x@),
            None => None,
        }) == lead_row(*r),
{
    match &r.record {
        GraphRecord::Node(n) => {
            let row = LeadRow {
                record_id: n.id.clone(),
                schema_version: n.schema_version,
                name: opt_clone(&n.name),
                kind: n.kind.as_str().to_owned(),
                repo_relative_path: opt_clone(&n.repo_relative_path),
                span: n.span,
                valid_time: time_of_node(n),
                git_commit: commit_of_node(n),
                hop: r.hop,
                path_resolution: opt_clone(&r.path_resolution),
                path: copy_path_steps(&r.path),
            };
            Some(row)
        },
        _ => None,
    }
}

/// The rows of the first `n` records that were reached.
pub open spec fn lead_rows(s: Seq<ReachedRecord>, n: int) -> Seq<LeadRowView>
    decreases n,
{
    if n <= 0 {
        Seq::empty()
    } else {
        match lead_row(s[n - 1]) {
            Some(x) => lead_rows(s, n - 1).push(x),
            None => lead_rows(s, n - 1),
        }
    }
}

/// The rows of the records that were reached.
pub fn transitive_rows(s: &Vec<ReachedRecord>) -> (r: Vec<LeadRow>)
    ensures
        lead_row_views(r@) == lead_rows(s@, s@.len() as int),
{
    let mut r: Vec<LeadRow> = Vec::new();
    let mut i: usize = 0;
    assert(lead_row_views(r@) =~= Seq::empty());
    while i < s.len()
        invariant
            i <= s@.len(),
            lead_row_views(r@) == lead_rows(s@, i as int),
        decreases s@.len() - i,
    {
        if let Some(x) = transitive_row(&s[i]) {
            let ghost before = r@;
            r.push(x);
            assert(lead_row_views(r@) =~= lead_row_views(before).push(x@));
        }
        i = i + 1;
    }
    r
}

/// An edge whose end is not in the graph.
pub struct UnresolvedEdge {
    pub relation: String,
    pub reason: String,
    pub marker: Option<GraphRecord>,
    pub target_id: String,
    pub source_id: String,
    pub source_hop: usize,
    pub resolution: Option<String>,
    pub edge_id: String,
}

/// The node that marks the end of an edge, where there is one.
pub open spec fn marker_of(e: UnresolvedEdge) -> Option<NodeRecord> {
    match e.marker {
        Some(GraphRecord::Node(n)) => Some(n),
        _ => None,
    }
}

/// The row of an edge whose end is not in the graph.
pub open spec fn unresolved_row(e: UnresolvedEdge) -> UnresolvedRowView {
    let m = marker_of(e);
    UnresolvedRowView {
        relation: e.relation@,
        reason: e.reason@,
        record_id: match m {
            Some(n) => Some(n.id@),
            None => None,
        },
        name: match m {
            Some(n) => opt_view(n.name),
            None => None,
        },
        kind: match m {
            Some(n) => Some(node_kind_name(n.kind)),
            None => None,
        },
        repo_relative_path: match m {
            Some(n) => opt_view(n.repo_relative_path),
            None => None,
        },
        span: match m {
            Some(n) => n.span,
            None => None,
        },
        target_record_id: e.target_id@,
        source_record_id: e.source_id@,
        source_hop: e.source_hop,
        resolution: opt_view(e.resolution),
        edge_record_id: e.edge_id@,
    }
}

/// The row of an edge whose end is not in the graph.
pub fn transitive_callee_unresolved_row(e: &UnresolvedEdge) -> (r: UnresolvedRow)
    ensures
        r@ == unresolved_row(*e),
{
    let mut row = UnresolvedRow {
        relation: e.relation.clone(),
        reason: e.reason.clone(),
        record_id: None,
        name: None,
        kind: None,
        repo_relative_path: None,
        span: None,
        target_record_id: e.target_id.clone(),
        source_record_id: e.source_id.clone(),
        source_hop: e.source_hop,
        resolution: opt_clone(&e.resolution),
        edge_record_id: e.edge_id.clone(),
    };
    match &e.marker {
        Some(GraphRecord::Node(n)) => {
            row.record_id = Some(n.id.clone());
            row.name = opt_clone(&n.name);
            row.kind = Some(n.kind.as_str().to_owned());
            row.repo_relative_path = opt_clone(&n.repo_relative_path);
            row.span = n.span;
        },
        _ => {},
    }
    row
}

/// The rows of edges whose ends are not in the graph.
pub open spec fn unresolved_rows(s: Seq<UnresolvedEdge>) -> Seq<UnresolvedRowView> {
    s.map_values(|e: UnresolvedEdge| unresolved_row(e))
}

/// The rows of the edges whose ends are not in the graph.
pub fn transitive_callee_unresolved_rows(s: &Vec<UnresolvedEdge>) -> (r: Vec<UnresolvedRow>)
    ensures
        unresolved_row_views(r@) == unresolved_rows(s@),
{
    let mut r: Vec<UnresolvedRow> = Vec::new();
    let mut i: usize = 0;
    while i < s.len()
        invariant
            i <= s@.len(),
            r@.len() == i,
            forall|k: int| 0 <= k < i ==> (#[trigger] r@[k])@ == unresolved_row(s@[k]),
        decreases s@.len() - i,
    {
        r.push(transitive_callee_unresolved_row(&s[i]));
        i = i + 1;
    }
    assert(unresolved_row_views(r@) =~= unresolved_rows(s@));
    r
}

// ---------------------------------------------------------------------------
// Diagnostics
// ---------------------------------------------------------------------------

/// Whether one diagnostic comes before another: by code, source, target and relation.
pub open spec fn diagnostic_before(a: DiagnosticView, b: DiagnosticView) -> bool {
    match lex_order(a.code, b.code) {
        Order::Less => true,
        Order::Greater => false,
        Order::Equal => match lex_order(a.source_record_id, b.source_record_id) {
            Order::Less => true,
            Order::Greater => false,
            Order::Equal => match lex_order(a.target_handle, b.target_handle) {
                Order::Less => true,
                Order::Greater => false,
                Order::Equal => lex_lt(a.relation, b.relation),
            },
        },
    }
}

/// Whether two diagnostics tell the same.
pub open spec fn same_diagnostic(a: DiagnosticView, b: DiagnosticView) -> bool {
    a.code == b.code && a.source_record_id == b.source_record_id && a.target_handle
        == b.target_handle && a.relation == b.relation
}

impl Ranked for AuditDiagnostic {
    open spec fn before(self, other: Self) -> bool {
        diagnostic_before(self@, other@)
    }

    fn is_before(&self, other: &Self) -> (r: bool) {
        match str_order(self.code.as_str(), other.code.as_str()) {
            Order::Less => return true,
            Order::Greater => return false,
            Order::Equal => {},
        }
        match str_order(self.source_record_id.as_str(), other.source_record_id.as_str()) {
            Order::Less => return true,
            Order::Greater => return false,
            Order::Equal => {},
        }
        match str_order(self.target_handle.as_str(), other.target_handle.as_str()) {
            Order::Less => return true,
            Order::Greater => return false,
            Order::Equal => {},
        }
        str_lt(self.relation.as_str(), other.relation.as_str())
    }
}

/// The first `n` diagnostics, of neighbours that tell the same only the first.
pub open spec fn each_once(s: Seq<DiagnosticView>, n: int) -> Seq<DiagnosticView>
    decreases n,
{
    if n <= 0 {
        Seq::empty()
    } else {
        let rest = each_once(s, n - 1);
        if rest.len() > 0 && same_diagnostic(rest.last(), s[n - 1]) {
            rest
        } else {
            rest.push(s[n - 1])
        }
    }
}

/// Diagnostics in order, each once.
pub open spec fn orderly(s: Seq<DiagnosticView>) -> Seq<DiagnosticView> {
    let t = sorted_by(s, |a: DiagnosticView, b: DiagnosticView| diagnostic_before(a, b));
    each_once(t, t.len() as int)
}

/// Coming before another diagnostic is a strict weak order.
pub proof fn lemma_diagnostic_order()
    ensures
        weak_order(|a: DiagnosticView, b: DiagnosticView| diagnostic_before(a, b)),
{
    let lt = |a: DiagnosticView, b: DiagnosticView| diagnostic_before(a, b);
    assert forall|a: DiagnosticView, b: DiagnosticView| #[trigger] lt(a, b) implies !lt(b, a) by {
        lemma_lex_three(a.code, b.code, a.code);
        lemma_lex_three(a.source_record_id, b.source_record_id, a.source_record_id);
        lemma_lex_three(a.target_handle, b.target_handle, a.target_handle);
        lemma_lex_three(a.relation, b.relation, a.relation);
    }
    assert forall|a: DiagnosticView, b: DiagnosticView, c: DiagnosticView|
        !(#[trigger] lt(a, b)) && !(#[trigger] lt(b, c)) implies !lt(a, c) by {
        lemma_lex_three(a.code, b.code, c.code);
        lemma_lex_three(a.source_record_id, b.source_record_id, c.source_record_id);
        lemma_lex_three(a.target_handle, b.target_handle, c.target_handle);
        lemma_lex_three(a.relation, b.relation, c.relation);
    }
}

proof fn lemma_diagnostic_transitive(a: DiagnosticView, b: DiagnosticView, c: DiagnosticView)
    requires
        diagnostic_before(a, b),
        diagnostic_before(b, c),
    ensures
        diagnostic_before(a, c),
{
    lemma_lex_three(a.code, b.code, c.code);
    lemma_lex_three(a.source_record_id, b.source_record_id, c.source_record_id);
    lemma_lex_three(a.target_handle, b.target_handle, c.target_handle);
    lemma_lex_three(a.relation, b.relation, c.relation);
}

proof fn lemma_each_once(s: Seq<DiagnosticView>, n: int)
    requires
        0 <= n <= s.len(),
        in_order_by(s, |a: DiagnosticView, b: DiagnosticView| diagnostic_before(a, b)),
    ensures
        n > 0 ==> each_once(s, n).len() > 0 && same_diagnostic(each_once(s, n).last(), s[n - 1]),
        told_in_order(each_once(s, n)),
        forall|k: int| 0 <= k < each_once(s, n).len() ==> s.contains(#[trigger] each_once(s, n)[k]),
        forall|k: int|
            0 <= k < n ==> exists|i: int|
                0 <= i < each_once(s, n).len() && same_diagnostic(
                    #[trigger] each_once(s, n)[i],
                    #[trigger] s[k],
                ),
    decreases n,
{
    if n > 0 {
        let lt = |a: DiagnosticView, b: DiagnosticView| diagnostic_before(a, b);
        let rest = each_once(s, n - 1);
        let now = each_once(s, n);
        let x = s[n - 1];
        lemma_each_once(s, n - 1);
        assert(s.contains(x));
        if n > 1 {
            assert(!lt(s[n - 1], s[n - 2]));
            let l = rest.last();
            lemma_lex_two(l.code, x.code);
            lemma_lex_two(l.source_record_id, x.source_record_id);
            lemma_lex_two(l.target_handle, x.target_handle);
            lemma_lex_two(l.relation, x.relation);
        }
        if !(rest.len() > 0 && same_diagnostic(rest.last(), x)) {
            assert forall|i: int, j: int| 0 <= i < j < now.len() implies diagnostic_before(
                #[trigger] now[i],
                #[trigger] now[j],
            ) by {
                if j == rest.len() {
                    assert(diagnostic_before(rest.last(), x));
                    if i < rest.len() - 1 {
                        assert(diagnostic_before(rest[i], rest[rest.len() - 1]));
                        lemma_diagnostic_transitive(rest[i], rest.last(), x);
                    }
                } else {
                    assert(diagnostic_before(rest[i], rest[j]));
                }
            }
        }
        assert forall|k: int| 0 <= k < n implies exists|i: int|
            0 <= i < now.len() && same_diagnostic(#[trigger] now[i], #[trigger] s[k]) by {
            if k < n - 1 {
                let i = choose|i: int|
                    0 <= i < rest.len() && same_diagnostic(#[trigger] rest[i], s[k]);
                assert(now[i] == rest[i]);
            } else {
                assert(same_diagnostic(now[now.len() - 1], s[k]));
            }
        }
    }
}

/// Whether each diagnostic comes before all that follow it, so that none is told twice.
pub open spec fn told_in_order(s: Seq<DiagnosticView>) -> bool {
    forall|i: int, j: int|
        0 <= i < j < s.len() ==> diagnostic_before(#[trigger] s[i], #[trigger] s[j])
}

/// Whether the diagnostics of `r` are those of `s`, in order, each once.
pub open spec fn tells_each_once(r: Seq<DiagnosticView>, s: Seq<DiagnosticView>) -> bool {
    &&& told_in_order(r)
    &&& forall|k: int| 0 <= k < r.len() ==> s.contains(#[trigger] r[k])
    &&& forall|k: int|
        0 <= k < s.len() ==> exists|i: int|
            0 <= i < r.len() && same_diagnostic(#[trigger] r[i], #[trigger] s[k])
}

/// Of the diagnostics each is told once, in order, and nothing else is.
pub proof fn law_diagnostics_are_told_once(s: Seq<DiagnosticView>)
    ensures
        tells_each_once(orderly(s), s),
{
    let lt = |a: DiagnosticView, b: DiagnosticView| diagnostic_before(a, b);
    let t = sorted_by(s, lt);
    let r = orderly(s);
    lemma_diagnostic_order();
    lemma_sorted_by(s, lt);
    lemma_each_once(t, t.len() as int);
    lemma_same_members(t, s);
    assert forall|k: int| 0 <= k < s.len() implies exists|i: int|
        0 <= i < r.len() && same_diagnostic(#[trigger] r[i], #[trigger] s[k]) by {
        assert(s.contains(s[k]));
        let m = choose|m: int| 0 <= m < t.len() && t[m] == s[k];
        let i = choose|i: int| 0 <= i < r.len() && same_diagnostic(#[trigger] r[i], t[m]);
        assert(same_diagnostic(r[i], s[k]));
    }
}

/// Puts diagnostics in order and tells each once.
pub fn sort_diagnostics(s: Vec<AuditDiagnostic>) -> (r: Vec<AuditDiagnostic>)
    ensures
        audit_diagnostic_views(r@) == orderly(audit_diagnostic_views(s@)),
        tells_each_once(audit_diagnostic_views(r@), audit_diagnostic_views(s@)),
{
    let ghost before = s@;
    let ghost f = |x: AuditDiagnostic| x@;
    let ghost lt = |a: DiagnosticView, b: DiagnosticView| diagnostic_before(a, b);
    proof {
        law_diagnostics_are_told_once(audit_diagnostic_views(s@));
    }
    let t = sort_ranked(s);
    let ghost tv = audit_diagnostic_views(t@);
    proof {
        lemma_ranked_views(before, f, lt);
        assert(audit_diagnostic_views(before) =~= before.map_values(f));
        assert(tv =~= t@.map_values(f));
    }
    let ghost all = t@;
    let mut r: Vec<AuditDiagnostic> = Vec::new();
    assert(audit_diagnostic_views(r@) =~= Seq::empty());
    for x in it: t
        invariant
            it.seq() == all,
            tv == audit_diagnostic_views(all),
            audit_diagnostic_views(r@) == each_once(tv, it.index() as int),
    {
        assert(tv[it.index() as int] == x@);
        let n = r.len();
        let told = if n > 0 {
            assert(audit_diagnostic_views(r@).last() == r@[n - 1]@);
            str_eq(r[n - 1].code.as_str(), x.code.as_str()) && str_eq(
                r[n - 1].source_record_id.as_str(),
                x.source_record_id.as_str(),
            ) && str_eq(r[n - 1].target_handle.as_str(), x.target_handle.as_str()) && str_eq(
                r[n - 1].relation.as_str(),
                x.relation.as_str(),
            )
        } else {
            false
        };
        assert(audit_diagnostic_views(r@).len() == n);
        if !told {
            let ghost b = r@;
            r.push(x);
            assert(audit_diagnostic_views(r@) =~= audit_diagnostic_views(b).push(x@));
        }
    }
    r
}

// ---------------------------------------------------------------------------
// Text
// ---------------------------------------------------------------------------

/// A name, or a question mark.
pub open spec fn name_or(name: Option<Seq<char>>) -> Seq<char> {
    match name {
        Some(x) => x,
        None => "?"@,
    }
}

fn str_or_mark(name: &Option<String>) -> (r: &str)
    ensures
        r@ == name_or(opt_view(*name)),
{
    match name {
        Some(x) => x.as_str(),
        None => "?",
    }
}

/// The name that is shown for a record: that of the last of the first `n` rows that has
/// one, or else that of the target, or a question mark.
pub open spec fn name_shown(
    target_id: Seq<char>,
    target_name: Option<Seq<char>>,
    rows: Seq<LeadRowView>,
    n: int,
    id: Seq<char>,
) -> Seq<char>
    decreases n,
{
    if n <= 0 {
        if id == target_id {
            name_or(target_name)
        } else {
            "?"@
        }
    } else if rows[n - 1].record_id == id && rows[n - 1].name is Some {
        rows[n - 1].name->0
    } else {
        name_shown(target_id, target_name, rows, n - 1, id)
    }
}

fn find_name<'a>(
    target_id: &str,
    target_name: &'a Option<String>,
    rows: &'a Vec<LeadRow>,
    id: &str,
) -> (r: &'a str)
    ensures
        r@ == name_shown(
            target_id@,
            opt_view(*target_name),
            lead_row_views(rows@),
            rows@.len() as int,
            id@,
        ),
{
    let ghost v = lead_row_views(rows@);
    let mut n: usize = rows.len();
    while n > 0
        invariant
            n <= rows@.len(),
            v == lead_row_views(rows@),
            name_shown(target_id@, opt_view(*target_name), v, rows@.len() as int, id@)
                == name_shown(target_id@, opt_view(*target_name), v, n as int, id@),
        decreases n,
    {
        assert(v[n - 1] == rows@[n - 1]@);
        if str_eq(rows[n - 1].record_id.as_str(), id) {
            if let Some(x) = &rows[n - 1].name {
                return x.as_str();
            }
        }
        n = n - 1;
    }
    if str_eq(id, target_id) {
        str_or_mark(target_name)
    } else {
        "?"
    }
}

/// Where something lies, behind a blank.
pub open spec fn location_text(path: Option<Seq<char>>, span: Option<SourceSpan>) -> Seq<char> {
    match (path, span) {
        (Some(p), Some(s)) => " "@ + p + ":"@ + decimal_seq(s.start_line as nat),
        (Some(p), None) => " "@ + p,
        (None, _) => ""@,
    }
}

/// Where something lies, behind a blank.
pub fn location(path: &Option<String>, span: &Option<SourceSpan>) -> (r: String)
    ensures
        r@ == location_text(opt_view(*path), *span),
{
    match (path, span) {
        (Some(p), Some(s)) => concat4(" ", p.as_str(), ":", decimal(s.start_line).as_str()),
        (Some(p), None) => concat2(" ", p.as_str()),
        (None, _) => "".to_owned(),
    }
}

/// The names on a path and the labels between them, up to the `n`-th step, for a
/// question after what reaches the target: each step begins at a name.
pub open spec fn chain_in(
    target_id: Seq<char>,
    target_name: Option<Seq<char>>,
    rows: Seq<LeadRowView>,
    path: Seq<PathStepView>,
    n: int,
) -> Seq<char>
    decreases n,
{
    if n <= 0 {
        ""@
    } else {
        chain_in(target_id, target_name, rows, path, n - 1) + name_shown(
            target_id,
            target_name,
            rows,
            rows.len() as int,
            path[n - 1].source_record_id,
        ) + " -"@ + path[n - 1].edge_label + "-> "@
    }
}

/// The same for a question after what the target reaches: each step ends at a name.
pub open spec fn chain_out(
    target_id: Seq<char>,
    target_name: Option<Seq<char>>,
    rows: Seq<LeadRowView>,
    path: Seq<PathStepView>,
    n: int,
) -> Seq<char>
    decreases n,
{
    if n <= 0 {
        name_shown(target_id, target_name, rows, rows.len() as int, target_id)
    } else {
        chain_out(target_id, target_name, rows, path, n - 1) + " -"@ + path[n - 1].edge_label
            + "-> "@ + name_shown(
            target_id,
            target_name,
            rows,
            rows.len() as int,
            path[n - 1].target_record_id,
        )
    }
}

/// The whole path of a row, in words.
pub open spec fn chain_text(
    verb: Verb,
    target_id: Seq<char>,
    target_name: Option<Seq<char>>,
    rows: Seq<LeadRowView>,
    path: Seq<PathStepView>,
) -> Seq<char> {
    if verb == Verb::TransitiveCallees {
        chain_out(target_id, target_name, rows, path, path.len() as int)
    } else {
        chain_in(target_id, target_name, rows, path, path.len() as int) + name_shown(
            target_id,
            target_name,
            rows,
            rows.len() as int,
            target_id,
        )
    }
}

fn make_chain(
    verb: Verb,
    target_id: &str,
    target_name: &Option<String>,
    rows: &Vec<LeadRow>,
    path: &Vec<PathStep>,
) -> (r: String)
    ensures
        r@ == chain_text(
            verb,
            target_id@,
            opt_view(*target_name),
            lead_row_views(rows@),
            path_step_views(path@),
        ),
{
    let ghost v = lead_row_views(rows@);
    let ghost pv = path_step_views(path@);
    let ghost tn = opt_view(*target_name);
    let outward = match verb {
        Verb::TransitiveCallees => true,
        _ => false,
    };
    let own = find_name(target_id, target_name, rows, target_id);
    let mut s = if outward {
        own.to_owned()
    } else {
        "".to_owned()
    };
    let mut i: usize = 0;
    while i < path.len()
        invariant
            i <= path@.len(),
            v == lead_row_views(rows@),
            pv == path_step_views(path@),
            tn == opt_view(*target_name),
            s@ == (if outward {
                chain_out(target_id@, tn, v, pv, i as int)
            } else {
                chain_in(target_id@, tn, v, pv, i as int)
            }),
        decreases path@.len() - i,
    {
        assert(pv[i as int] == path@[i as int]@);
        assert(v.len() == rows@.len());
        let step = &path[i];
        s = if outward {
            let to = find_name(target_id, target_name, rows, step.target_record_id.as_str());
            concat5(s.as_str(), " -", step.edge_label.as_str(), "-> ", to)
        } else {
            let from = find_name(target_id, target_name, rows, step.source_record_id.as_str());
            concat5(s.as_str(), from, " -", step.edge_label.as_str(), "-> ")
        };
        i = i + 1;
    }
    assert(v.len() == rows@.len());
    assert(pv.len() == path@.len());
    if outward {
        s
    } else {
        concat2(s.as_str(), own)
    }
}

/// How sure a path is, in words.
pub open spec fn resolution_text(r: Option<Seq<char>>) -> Seq<char> {
    match r {
        Some(x) => " [resolution="@ + x + "]"@,
        None => ""@,
    }
}

fn make_resolution(r: &Option<String>) -> (s: String)
    ensures
        s@ == resolution_text(opt_view(*r)),
{
    match r {
        Some(x) => concat3(" [resolution=", x.as_str(), "]"),
        None => "".to_owned(),
    }
}

/// The line of a row.
pub open spec fn row_line(
    verb: Verb,
    target_id: Seq<char>,
    target_name: Option<Seq<char>>,
    rows: Seq<LeadRowView>,
    row: LeadRowView,
) -> Seq<char> {
    name_or(row.name) + location_text(row.repo_relative_path, row.span) + " hop="@ + decimal_seq(
        row.hop as nat,
    ) + " via "@ + chain_text(verb, target_id, target_name, rows, row.path) + resolution_text(
        row.path_resolution,
    )
}

fn make_row_line(
    verb: Verb,
    target_id: &str,
    target_name: &Option<String>,
    rows: &Vec<LeadRow>,
    row: &LeadRow,
) -> (r: String)
    ensures
        r@ == row_line(
            verb,
            target_id@,
            opt_view(*target_name),
            lead_row_views(rows@),
            row@,
        ),
{
    let place = location(&row.repo_relative_path, &row.span);
    let chain = make_chain(verb, target_id, target_name, rows, &row.path);
    let sure = make_resolution(&row.path_resolution);
    let hop = decimal(row.hop as u64);
    concat7(
        str_or_mark(&row.name),
        place.as_str(),
        " hop=",
        hop.as_str(),
        " via ",
        chain.as_str(),
        sure.as_str(),
    )
}

/// The line of an edge whose end is not in the graph.
pub open spec fn unresolved_line(row: UnresolvedRowView) -> Seq<char> {
    "unresolved "@ + row.relation + " "@ + (match row.name {
        Some(x) => x,
        None => row.target_record_id,
    }) + location_text(row.repo_relative_path, row.span) + " ("@ + row.reason + ")"@
}

fn make_unresolved_line(row: &UnresolvedRow) -> (r: String)
    ensures
        r@ == unresolved_line(row@),
{
    let name = match &row.name {
        Some(x) => x.as_str(),
        None => row.target_record_id.as_str(),
    };
    let place = location(&row.repo_relative_path, &row.span);
    let head = concat5("unresolved ", row.relation.as_str(), " ", name, place.as_str());
    let r = concat4(head.as_str(), " (", row.reason.as_str(), ")");
    assert(r@ =~= unresolved_line(row@));
    r
}

/// What lies beyond the bound: how deep it is, and how much that is.
#[derive(Clone, Copy, Debug, PartialEq, Eq, Structural)]
pub struct Truncation {
    pub max_depth: usize,
    pub dropped_total: usize,
}

/// The line of what lies beyond the bound.
pub open spec fn truncation_line(t: Truncation) -> Seq<char> {
    "truncated at max_depth="@ + decimal_seq(t.max_depth as nat) + ": "@ + decimal_seq(
        t.dropped_total as nat,
    ) + " reachable node(s) beyond the bound"@
}

/// The first line.
pub open spec fn head_line(
    verb: Verb,
    target_id: Seq<char>,
    target_name: Option<Seq<char>>,
    max_depth: usize,
    total: nat,
    unresolved: nat,
) -> Seq<char> {
    if verb == Verb::TransitiveCallees {
        "transitive callees of "@ + name_or(target_name) + " ("@ + target_id + ") max_depth="@
            + decimal_seq(max_depth as nat) + " total="@ + decimal_seq(total) + " unresolved="@
            + decimal_seq(unresolved) + " — reachability leads, not proof of breakage"@
    } else {
        "transitive callers of "@ + name_or(target_name) + " ("@ + target_id + ") max_depth="@
            + decimal_seq(max_depth as nat) + " total="@ + decimal_seq(total)
            + " — reachability leads, not proof of breakage"@
    }
}

fn make_head_line(
    verb: Verb,
    target_id: &str,
    target_name: &Option<String>,
    max_depth: usize,
    total: usize,
    unresolved: usize,
) -> (r: String)
    ensures
        r@ == head_line(
            verb,
            target_id@,
            opt_view(*target_name),
            max_depth,
            total as nat,
            unresolved as nat,
        ),
{
    let depth = decimal(max_depth as u64);
    let n = decimal(total as u64);
    let name = str_or_mark(target_name);
    match verb {
        Verb::TransitiveCallees => {
            let u = decimal(unresolved as u64);
            let head = concat7(
                "transitive callees of ",
                name,
                " (",
                target_id,
                ") max_depth=",
                depth.as_str(),
                " total=",
            );
            let r = concat5(
                head.as_str(),
                n.as_str(),
                " unresolved=",
                u.as_str(),
                " — reachability leads, not proof of breakage",
            );
            assert(r@ =~= head_line(
                verb,
                target_id@,
                opt_view(*target_name),
                max_depth,
                total as nat,
                unresolved as nat,
            ));
            r
        },
        _ => {
            let head = concat7(
                "transitive callers of ",
                name,
                " (",
                target_id,
                ") max_depth=",
                depth.as_str(),
                " total=",
            );
            let r = concat3(
                head.as_str(),
                n.as_str(),
                " — reachability leads, not proof of breakage",
            );
            assert(r@ =~= head_line(
                verb,
                target_id@,
                opt_view(*target_name),
                max_depth,
                total as nat,
                unresolved as nat,
            ));
            r
        },
    }
}

/// The lines of the first `n` rows.
pub open spec fn row_lines(
    verb: Verb,
    target_id: Seq<char>,
    target_name: Option<Seq<char>>,
    rows: Seq<LeadRowView>,
    n: int,
) -> Seq<Seq<char>>
    decreases n,
{
    if n <= 0 {
        Seq::empty()
    } else {
        row_lines(verb, target_id, target_name, rows, n - 1).push(
            row_line(verb, target_id, target_name, rows, rows[n - 1]),
        )
    }
}

/// The lines of the first `n` edges whose ends are not in the graph.
pub open spec fn unresolved_lines(rows: Seq<UnresolvedRowView>, n: int) -> Seq<Seq<char>>
    decreases n,
{
    if n <= 0 {
        Seq::empty()
    } else {
        unresolved_lines(rows, n - 1).push(unresolved_line(rows[n - 1]))
    }
}

/// What is told of a question, line by line: the head, the rows, the edges whose ends
/// are not in the graph, and what lies beyond the bound.
pub open spec fn report_lines(
    verb: Verb,
    target_id: Seq<char>,
    target_name: Option<Seq<char>>,
    max_depth: usize,
    rows: Seq<LeadRowView>,
    unresolved: Seq<UnresolvedRowView>,
    truncation: Option<Truncation>,
) -> Seq<Seq<char>> {
    let head = seq![
        head_line(verb, target_id, target_name, max_depth, rows.len(), unresolved.len()),
    ];
    let all = head + row_lines(verb, target_id, target_name, rows, rows.len() as int)
        + unresolved_lines(unresolved, unresolved.len() as int);
    match truncation {
        Some(t) => all.push(truncation_line(t)),
        None => all,
    }
}

/// What is told of a question, line by line.
pub fn report_text(
    verb: Verb,
    target_id: &str,
    target_name: &Option<String>,
    max_depth: usize,
    rows: &Vec<LeadRow>,
    unresolved: &Vec<UnresolvedRow>,
    truncation: Option<Truncation>,
) -> (r: Vec<String>)
    ensures
        views(r@) == report_lines(
            verb,
            target_id@,
            opt_view(*target_name),
            max_depth,
            lead_row_views(rows@),
            unresolved_row_views(unresolved@),
            truncation,
        ),
{
    let ghost v = lead_row_views(rows@);
    let ghost uv = unresolved_row_views(unresolved@);
    let ghost tn = opt_view(*target_name);
    assert(v.len() == rows@.len());
    assert(uv.len() == unresolved@.len());
    let head = make_head_line(
        verb,
        target_id,
        target_name,
        max_depth,
        rows.len(),
        unresolved.len(),
    );
    let ghost first = seq![head@];
    let mut r: Vec<String> = Vec::new();
    r.push(head);
    let mut i: usize = 0;
    assert(views(r@) =~= first + row_lines(verb, target_id@, tn, v, 0));
    while i < rows.len()
        invariant
            i <= rows@.len(),
            v == lead_row_views(rows@),
            tn == opt_view(*target_name),
            views(r@) == first + row_lines(verb, target_id@, tn, v, i as int),
        decreases rows@.len() - i,
    {
        assert(v[i as int] == rows@[i as int]@);
        let line = make_row_line(verb, target_id, target_name, rows, &rows[i]);
        let ghost before = r@;
        r.push(line);
        proof {
            assert(views(r@) =~= views(before).push(line@));
            assert(views(r@) =~= first + row_lines(verb, target_id@, tn, v, i + 1));
        }
        i = i + 1;
    }
    let ghost second = views(r@);
    let mut j: usize = 0;
    assert(second + unresolved_lines(uv, 0) =~= second);
    while j < unresolved.len()
        invariant
            j <= unresolved@.len(),
            uv == unresolved_row_views(unresolved@),
            views(r@) == second + unresolved_lines(uv, j as int),
        decreases unresolved@.len() - j,
    {
        assert(uv[j as int] == unresolved@[j as int]@);
        let line = make_unresolved_line(&unresolved[j]);
        let ghost before = r@;
        r.push(line);
        proof {
            assert(views(r@) =~= views(before).push(line@));
            assert(views(r@) =~= second + unresolved_lines(uv, j + 1));
        }
        j = j + 1;
    }
    if let Some(t) = truncation {
        let line = concat5(
            "truncated at max_depth=",
            decimal(t.max_depth as u64).as_str(),
            ": ",
            decimal(t.dropped_total as u64).as_str(),
            " reachable node(s) beyond the bound",
        );
        let ghost before = r@;
        r.push(line);
        assert(views(r@) =~= views(before).push(line@));
    }
    r
}

// ---------------------------------------------------------------------------
// Constructors
// ---------------------------------------------------------------------------

/// A symbol that builds values of a type.
#[derive(Clone, Debug, PartialEq, Eq)]
pub struct ConstructorRow {
    pub record_id: String,
    pub schema_version: u32,
    pub name: Option<String>,
    pub kind: String,
    pub repo_relative_path: Option<String>,
    pub span: Option<SourceSpan>,
    /// The edge that says so.
    pub edge_record_id: String,
    /// Whether a new field breaks the symbol.
    pub e0063_risk: bool,
    /// Whether all fields are listed, where that is known.
    pub is_exhaustive: Option<bool>,
}

/// Whether a new field breaks a place that builds a value: it does where the place lists
/// all fields, and where it is not known whether it does.
pub fn breaks_on_new_field(is_exhaustive: Option<bool>) -> (r: bool)
    ensures
        r == (is_exhaustive != Some(false)),
{
    match is_exhaustive {
        Some(x) => x,
        None => true,
    }
}

/// The line of a symbol that builds values of a type.
pub open spec fn constructor_line(row: ConstructorRow) -> Seq<char> {
    "  "@ + name_or(opt_view(row.name)) + location_text(opt_view(row.repo_relative_path), row.span)
        + "  ["@ + (if row.e0063_risk {
        "e0063_risk"@
    } else {
        "fru_safe"@
    }) + "]"@
}

/// What is told of the symbols that build values of a type, line by line.
pub open spec fn constructor_lines(
    target_id: Seq<char>,
    target_name: Option<Seq<char>>,
    rows: Seq<ConstructorRow>,
    n: int,
) -> Seq<Seq<char>>
    decreases n,
{
    if n <= 0 {
        seq![
            "constructors of "@ + name_or(target_name) + " ("@ + target_id + "): "@ + decimal_seq(
                rows.len(),
            ) + " — construction-site leads, not proof a field addition breaks"@,
        ]
    } else {
        constructor_lines(target_id, target_name, rows, n - 1).push(constructor_line(rows[n - 1]))
    }
}

/// What is told of the symbols that build values of a type, line by line.
pub fn constructors_text(
    target_id: &str,
    target_name: &Option<String>,
    rows: &Vec<ConstructorRow>,
) -> (r: Vec<String>)
    ensures
        views(r@) == constructor_lines(
            target_id@,
            opt_view(*target_name),
            rows@,
            rows@.len() as int,
        ),
{
    let n = decimal(rows.len() as u64);
    let head = concat7(
        "constructors of ",
        str_or_mark(target_name),
        " (",
        target_id,
        "): ",
        n.as_str(),
        " — construction-site leads, not proof a field addition breaks",
    );
    let mut r: Vec<String> = Vec::new();
    r.push(head);
    let mut i: usize = 0;
    assert(views(r@) =~= constructor_lines(target_id@, opt_view(*target_name), rows@, 0));
    while i < rows.len()
        invariant
            i <= rows@.len(),
            views(r@) == constructor_lines(
                target_id@,
                opt_view(*target_name),
                rows@,
                i as int,
            ),
        decreases rows@.len() - i,
    {
        let place = location(&rows[i].repo_relative_path, &rows[i].span);
        let risk = if rows[i].e0063_risk {
            "e0063_risk"
        } else {
            "fru_safe"
        };
        let line = concat6("  ", str_or_mark(&rows[i].name), place.as_str(), "  [", risk, "]");
        let ghost before = r@;
        r.push(line);
        proof {
            assert(line@ =~= constructor_line(rows@[i as int]));
            assert(views(r@) =~= views(before).push(line@));
        }
        i = i + 1;
    }
    r
}

// ---------------------------------------------------------------------------
// Laws
// ---------------------------------------------------------------------------

/// A question is answered of one live symbol only.
pub proof fn law_only_one_symbol_is_asked_about(
    verb: Verb,
    kind: HandleKind,
    anchors: Seq<Seq<char>>,
    stale: bool,
    other_kind: Option<Seq<char>>,
)
    ensures
        target_of(verb, kind, anchors, stale, other_kind) is Anchor ==> anchors.len() == 1 && kind
            == HandleKind::Symbol,
{
}

} // verus!
