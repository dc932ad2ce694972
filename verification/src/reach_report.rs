//! Whole answers: what reaches a symbol, what it reaches, and what builds values of it.

use vstd::prelude::*;
use vstd::string::*;

use crate::ir::{node_kind_name, GraphRecord, NodeRecord, SourceSpan};
use crate::reach::{
    audit_diagnostic_views, breaks_on_new_field, check_target, check_type_handle,
    constructor_lines, constructors_text, failure_code, lead_row, lead_row_views, lead_rows,
    orderly, report_lines, report_text, sort_diagnostics, target_of,
    transitive_callee_unresolved_rows, transitive_rows, unresolved_row_views, unresolved_rows,
    AuditDiagnostic, ConstructorRow, CorpusMode, HandleFailure, HandleFailureView, LeadRow,
    ReachedRecord, ResolvedHandle, TargetView, Truncation, UnresolvedEdge, UnresolvedRow, Verb,
};
use crate::scan::blank;
use crate::text::{opt_clone, opt_str_view, opt_view, views};

verus! {

/// The symbol that was asked about.
#[derive(Clone, Debug, PartialEq, Eq)]
pub struct SymbolTarget {
    pub record_id: String,
    pub schema_version: u32,
    pub name: Option<String>,
    pub kind: String,
    pub repo_relative_path: Option<String>,
    pub span: Option<SourceSpan>,
}

/// The view of a [`SymbolTarget`].
#[verifier::ext_equal]
pub struct SymbolTargetView {
    pub record_id: Seq<char>,
    pub schema_version: u32,
    pub name: Option<Seq<char>>,
    pub kind: Seq<char>,
    pub repo_relative_path: Option<Seq<char>>,
    pub span: Option<SourceSpan>,
}

impl View for SymbolTarget {
    type V = SymbolTargetView;

    open spec fn view(&self) -> SymbolTargetView {
        SymbolTargetView {
            record_id: self.record_id@,
            schema_version: self.schema_version,
            name: opt_view(self.name),
            kind: self.kind@,
            repo_relative_path: opt_view(self.repo_relative_path),
            span: self.span,
        }
    }
}

/// How much lies at a depth beyond the bound.
#[derive(Clone, Copy, Debug, PartialEq, Eq, Structural)]
pub struct DroppedDepth {
    pub depth: usize,
    pub count: usize,
}

/// What lies beyond the bound.
#[derive(Clone, Debug, PartialEq, Eq)]
pub struct WalkTruncation {
    pub max_depth: usize,
    /// How much lies at each depth.
    pub dropped_frontier: Vec<DroppedDepth>,
    pub dropped_total: usize,
}

/// What a walk through the graph found.
pub struct Walk {
    /// Where it began.
    pub anchor: GraphRecord,
    /// How deep it went.
    pub max_depth: usize,
    /// What it reached.
    pub rows: Vec<ReachedRecord>,
    /// The edges whose ends are not in the graph.
    pub unresolved: Vec<UnresolvedEdge>,
    /// What lies beyond the bound, where something does.
    pub truncation: Option<WalkTruncation>,
    /// What is to be told of the way, in any order. Of the payloads of what it reached
    /// nothing is told here.
    pub diagnostics: Vec<AuditDiagnostic>,
}

/// Why a question was not answered.
#[derive(Clone, Debug, PartialEq, Eq)]
pub enum ReachFailure {
    /// The handle does not do.
    Handle(HandleFailure),
    /// The type is there, and nothing builds values of it.
    NoConstructors,
    /// What the handle names is not a node.
    NotANode,
}

/// The view of a [`ReachFailure`].
#[verifier::ext_equal]
pub enum ReachFailureView {
    Handle(HandleFailureView),
    NoConstructors,
    NotANode,
}

impl View for ReachFailure {
    type V = ReachFailureView;

    open spec fn view(&self) -> ReachFailureView {
        match self {
            ReachFailure::Handle(f) => ReachFailureView::Handle(f@),
            ReachFailure::NoConstructors => ReachFailureView::NoConstructors,
            ReachFailure::NotANode => ReachFailureView::NotANode,
        }
    }
}

impl ReachFailure {
    /// The code of the failure, where it has one.
    pub fn code(&self) -> (r: Option<&'static str>)
        ensures
            opt_str_view(r) == (match self@ {
                ReachFailureView::Handle(f) => Some(failure_code(f)),
                ReachFailureView::NoConstructors => Some("no_match"@),
                ReachFailureView::NotANode => None,
            }),
    {
        match self {
            ReachFailure::Handle(f) => Some(f.code()),
            ReachFailure::NoConstructors => Some("no_match"),
            ReachFailure::NotANode => None,
        }
    }

    /// The exit code: 2 where the question has no answer, else 1.
    pub fn exit_code(&self) -> (r: u8)
        ensures
            r == (match *self {
                ReachFailure::Handle(f) => if f is StaleHandle || f is NoMatch {
                    2u8
                } else {
                    1u8
                },
                ReachFailure::NoConstructors => 2u8,
                ReachFailure::NotANode => 1u8,
            }),
    {
        match self {
            ReachFailure::Handle(f) => f.exit_code(),
            ReachFailure::NoConstructors => 2,
            ReachFailure::NotANode => 1,
        }
    }

    /// What is said of the failure, beyond its code.
    pub fn message(&self) -> (r: Option<String>)
        ensures
            opt_view(r) == (match *self {
                ReachFailure::Handle(HandleFailure::Malformed) => Some(
                    "type handle must be a non-empty type name or canonical record ID"@,
                ),
                ReachFailure::Handle(HandleFailure::Unsupported(m)) => Some(m@),
                ReachFailure::Handle(_) => None,
                ReachFailure::NoConstructors => Some(
                    "the type resolved but no live symbol constructs it"@,
                ),
                ReachFailure::NotANode => Some("resolved anchor is not a node record"@),
            }),
    {
        match self {
            ReachFailure::Handle(HandleFailure::Malformed) => Some(
                "type handle must be a non-empty type name or canonical record ID".to_owned(),
            ),
            ReachFailure::Handle(HandleFailure::Unsupported(m)) => Some(m.clone()),
            ReachFailure::Handle(_) => None,
            ReachFailure::NoConstructors => Some(
                "the type resolved but no live symbol constructs it".to_owned(),
            ),
            ReachFailure::NotANode => Some("resolved anchor is not a node record".to_owned()),
        }
    }
}

/// How it was chosen which records are read.
#[derive(Clone, Copy, Debug, PartialEq, Eq, Structural)]
pub enum CorpusModeSource {
    /// Nothing was asked for.
    Default,
    /// A flag asked for it.
    ExplicitFlag,
    /// A commit or an instant was selected.
    Selector,
}

/// Which records were read, and how that was chosen.
#[derive(Clone, Debug, PartialEq, Eq)]
pub struct Corpus {
    pub mode: CorpusMode,
    pub source: CorpusModeSource,
    /// What is said of the choice, in a line.
    pub disclaimer: String,
}

impl CorpusModeSource {
    /// The name of the way.
    pub fn as_str(self) -> (r: &'static str)
        ensures
            r@ == (match self {
                CorpusModeSource::Default => "default"@,
                CorpusModeSource::ExplicitFlag => "explicit_flag"@,
                CorpusModeSource::Selector => "selector"@,
            }),
    {
        match self {
            CorpusModeSource::Default => "default",
            CorpusModeSource::ExplicitFlag => "explicit_flag",
            CorpusModeSource::Selector => "selector",
        }
    }
}

/// Which way a question follows the edges.
pub open spec fn direction_of(verb: Verb) -> Seq<char> {
    match verb {
        Verb::TransitiveCallees => "outbound"@,
        _ => "inbound"@,
    }
}

/// Which edges a question follows.
pub open spec fn labels_of(verb: Verb) -> Seq<Seq<char>> {
    match verb {
        Verb::TransitiveCallers => seq!["CALLS"@, "REFERENCES"@],
        Verb::TransitiveCallees => seq!["CALLS"@, "IMPLEMENTS"@, "IMPORTS"@, "REFERENCES"@],
        Verb::WhoConstructs => seq!["CONSTRUCTS"@],
    }
}

/// What an answer does not claim.
pub open spec fn disclaimer_of(verb: Verb) -> Seq<char> {
    match verb {
        Verb::TransitiveCallers => TRANSITIVE_CALLERS_DISCLAIMER@,
        Verb::TransitiveCallees => TRANSITIVE_CALLEES_DISCLAIMER@,
        Verb::WhoConstructs => WHO_CONSTRUCTS_DISCLAIMER@,
    }
}

/// What an answer after what reaches a symbol does not claim.
pub const TRANSITIVE_CALLERS_DISCLAIMER: &'static str =
    "Rows are reachability LEADS: a call path exists in the graph. They are not proof that any reachable symbol will break, that a test will fail, or that the edit is unsafe; absence of a path is not proof of unreachability.";

/// What an answer after what a symbol reaches does not claim.
pub const TRANSITIVE_CALLEES_DISCLAIMER: &'static str =
    "Rows are reachability LEADS: an outbound dependency path exists in the graph. They are not proof that a reachable symbol is exercised at runtime, that a change will break it, or that the list is complete; dynamic dispatch, macro-generated calls, FFI, and cross-crate targets are outside the extraction contract, and absence of a path is not proof of independence.";

/// What an answer after what builds values of a type does not claim.
pub const WHO_CONSTRUCTS_DISCLAIMER: &'static str =
    "Rows are the symbols whose bodies build a `Type { … }` literal of the queried type, from the extractor-minted CONSTRUCTS edges (a provably-resolved struct/enum construction site). Construction is a caller-granularity relation: per-site spans collapse to the constructing symbol, exactly as CALLS does. `e0063_risk: true` means at least one collapsed site uses the exhaustive, non-`..base` form that fails to compile (rustc E0063) when a required field is added; `false` means every site used struct-update `..base` (FRU), which stays valid. Rows are construction-site LEADS and the `e0063_risk` flag an actionable signal, never proof a specific field addition breaks.";

impl Verb {
    /// Which way the question follows the edges.
    pub fn direction(self) -> (r: &'static str)
        ensures
            r@ == direction_of(self),
    {
        match self {
            Verb::TransitiveCallees => "outbound",
            _ => "inbound",
        }
    }

    /// Which edges the question follows.
    pub fn edge_labels(self) -> (r: Vec<String>)
        ensures
            views(r@) == labels_of(self),
    {
        let mut r: Vec<String> = Vec::new();
        match self {
            Verb::TransitiveCallers => {
                r.push("CALLS".to_owned());
                r.push("REFERENCES".to_owned());
            },
            Verb::TransitiveCallees => {
                r.push("CALLS".to_owned());
                r.push("IMPLEMENTS".to_owned());
                r.push("IMPORTS".to_owned());
                r.push("REFERENCES".to_owned());
            },
            Verb::WhoConstructs => {
                r.push("CONSTRUCTS".to_owned());
            },
        }
        assert(views(r@) =~= labels_of(self));
        r
    }

    /// What an answer does not claim.
    pub fn disclaimer(self) -> (r: &'static str)
        ensures
            r@ == disclaimer_of(self),
    {
        match self {
            Verb::TransitiveCallers => TRANSITIVE_CALLERS_DISCLAIMER,
            Verb::TransitiveCallees => TRANSITIVE_CALLEES_DISCLAIMER,
            Verb::WhoConstructs => WHO_CONSTRUCTS_DISCLAIMER,
        }
    }
}

/// Why a question does not take what a handle was resolved to, if it does not.
pub open spec fn handle_refusal(
    verb: Verb,
    resolved: Result<ResolvedHandle, HandleFailure>,
) -> Option<HandleFailureView> {
    match resolved {
        Err(e) => Some(e@),
        Ok(h) => match target_of(
            verb,
            h.kind,
            views(h.anchor_ids@),
            h.stale,
            opt_view(h.other_kind),
        ) {
            TargetView::Failed(e) => Some(e),
            TargetView::Anchor(_) => None,
        },
    }
}

fn check_handle(verb: Verb, resolved: Result<ResolvedHandle, HandleFailure>) -> (r: Result<
    (),
    HandleFailure,
>)
    ensures
        match r {
            Ok(_) => handle_refusal(verb, resolved) is None,
            Err(e) => handle_refusal(verb, resolved) == Some(e@),
        },
{
    match resolved {
        Err(e) => Err(e),
        Ok(h) => match check_target(verb, &h) {
            Err(e) => Err(e),
            Ok(_) => Ok(()),
        },
    }
}

/// The symbol of a node.
pub open spec fn symbol_target(n: NodeRecord) -> SymbolTargetView {
    SymbolTargetView {
        record_id: n.id@,
        schema_version: n.schema_version,
        name: opt_view(n.name),
        kind: node_kind_name(n.kind),
        repo_relative_path: opt_view(n.repo_relative_path),
        span: n.span,
    }
}

fn make_target(n: &NodeRecord) -> (r: SymbolTarget)
    ensures
        r@ == symbol_target(*n),
{
    SymbolTarget {
        record_id: n.id.clone(),
        schema_version: n.schema_version,
        name: opt_clone(&n.name),
        kind: n.kind.as_str().to_owned(),
        repo_relative_path: opt_clone(&n.repo_relative_path),
        span: n.span,
    }
}

// ---------------------------------------------------------------------------
// What reaches a symbol, and what it reaches
// ---------------------------------------------------------------------------

/// The answer to a question after what reaches a symbol, or what it reaches.
pub struct ReachReport {
    /// What was asked.
    pub verb: Verb,
    /// The handle that was given.
    pub handle: String,
    pub target: SymbolTarget,
    pub direction: &'static str,
    pub edge_labels: Vec<String>,
    pub max_depth: usize,
    /// The commit whose state was read, where one was.
    pub at_commit: Option<String>,
    /// The instant that was given, where one was.
    pub as_of: Option<String>,
    /// Which records were read, where there was a choice.
    pub corpus: Option<Corpus>,
    pub total_reachable: usize,
    pub total_unresolved: usize,
    pub disclaimer: &'static str,
    pub truncation: Option<WalkTruncation>,
    /// In order, each once.
    pub diagnostics: Vec<AuditDiagnostic>,
    pub rows: Vec<LeadRow>,
    pub unresolved: Vec<UnresolvedRow>,
}

/// Whether a report tells what a walk from a node found.
pub open spec fn tells_walk(
    r: ReachReport,
    verb: Verb,
    handle: Seq<char>,
    n: NodeRecord,
    walk: Walk,
    payload: Seq<AuditDiagnostic>,
    at_commit: Option<Seq<char>>,
    as_of: Option<Seq<char>>,
    corpus: Option<Corpus>,
) -> bool {
    let rows = lead_rows(walk.rows@, walk.rows@.len() as int);
    let unresolved = unresolved_rows(walk.unresolved@);
    &&& r.verb == verb
    &&& r.handle@ == handle
    &&& r.target@ == symbol_target(n)
    &&& r.direction@ == direction_of(verb)
    &&& views(r.edge_labels@) == labels_of(verb)
    &&& r.max_depth == walk.max_depth
    &&& opt_view(r.at_commit) == at_commit
    &&& opt_view(r.as_of) == as_of
    &&& r.corpus == corpus
    &&& r.total_reachable == rows.len()
    &&& r.total_unresolved == unresolved.len()
    &&& r.disclaimer@ == disclaimer_of(verb)
    &&& r.truncation == walk.truncation
    &&& audit_diagnostic_views(r.diagnostics@) == orderly(
        audit_diagnostic_views(walk.diagnostics@) + audit_diagnostic_views(payload),
    )
    &&& lead_row_views(r.rows@) == rows
    &&& unresolved_row_views(r.unresolved@) == unresolved
}

/// Answers a question after what reaches a symbol, or what it reaches: the handle must
/// name one live symbol, the walk must have found it, and it must be a node. `payload` is
/// what the check of protected payloads says of the records that are told.
pub fn reach_answer(
    verb: Verb,
    handle: &str,
    resolved: Result<ResolvedHandle, HandleFailure>,
    walk: Option<Walk>,
    payload: Vec<AuditDiagnostic>,
    at_commit: Option<String>,
    as_of: Option<String>,
    corpus: Option<Corpus>,
) -> (r: Result<ReachReport, ReachFailure>)
    ensures
        match handle_refusal(verb, resolved) {
            Some(f) => r is Err && r->Err_0@ == ReachFailureView::Handle(f),
            None => match walk {
                None => r is Err && r->Err_0@ == ReachFailureView::Handle(
                    HandleFailureView::NoMatch,
                ),
                Some(w) => match w.anchor {
                    GraphRecord::Node(n) => r is Ok && tells_walk(
                        r->Ok_0,
                        verb,
                        handle@,
                        n,
                        w,
                        payload@,
                        opt_view(at_commit),
                        opt_view(as_of),
                        corpus,
                    ),
                    _ => r is Err && r->Err_0@ == ReachFailureView::NotANode,
                },
            },
        },
{
    if let Err(e) = check_handle(verb, resolved) {
        return Err(ReachFailure::Handle(e));
    }
    let w = match walk {
        Some(w) => w,
        None => {
            return Err(ReachFailure::Handle(HandleFailure::NoMatch));
        },
    };
    let target = match &w.anchor {
        GraphRecord::Node(n) => make_target(n),
        _ => {
            return Err(ReachFailure::NotANode);
        },
    };
    let rows = transitive_rows(&w.rows);
    let unresolved = transitive_callee_unresolved_rows(&w.unresolved);
    let mut all = w.diagnostics;
    let mut more = payload;
    let ghost walked = all@;
    let ghost checked = more@;
    all.append(&mut more);
    assert(audit_diagnostic_views(all@) =~= audit_diagnostic_views(walked)
        + audit_diagnostic_views(checked));
    let diagnostics = sort_diagnostics(all);
    assert(lead_row_views(rows@).len() == rows@.len());
    assert(unresolved_row_views(unresolved@).len() == unresolved@.len());
    Ok(
        ReachReport {
            verb,
            handle: handle.to_owned(),
            target,
            direction: verb.direction(),
            edge_labels: verb.edge_labels(),
            max_depth: w.max_depth,
            at_commit,
            as_of,
            corpus,
            total_reachable: rows.len(),
            total_unresolved: unresolved.len(),
            disclaimer: verb.disclaimer(),
            truncation: w.truncation,
            diagnostics,
            rows,
            unresolved,
        },
    )
}

/// What of the truncation is told in a line.
pub open spec fn told_truncation(t: Option<WalkTruncation>) -> Option<Truncation> {
    match t {
        Some(t) => Some(
            Truncation { max_depth: t.max_depth, dropped_total: t.dropped_total },
        ),
        None => None,
    }
}

impl ReachReport {
    /// The answer, line by line.
    pub fn lines(&self) -> (r: Vec<String>)
        ensures
            views(r@) == report_lines(
                self.verb,
                self.target@.record_id,
                self.target@.name,
                self.max_depth,
                lead_row_views(self.rows@),
                unresolved_row_views(self.unresolved@),
                told_truncation(self.truncation),
            ),
    {
        let truncation = match &self.truncation {
            Some(t) => Some(
                Truncation { max_depth: t.max_depth, dropped_total: t.dropped_total },
            ),
            None => None,
        };
        report_text(
            self.verb,
            self.target.record_id.as_str(),
            &self.target.name,
            self.max_depth,
            &self.rows,
            &self.unresolved,
            truncation,
        )
    }
}

// ---------------------------------------------------------------------------
// What builds values of a type
// ---------------------------------------------------------------------------

/// A place that builds a value of a type.
pub struct ConstructionSite {
    pub record_id: String,
    pub schema_version: u32,
    pub name: Option<String>,
    pub kind: String,
    pub repo_relative_path: Option<String>,
    pub span: Option<SourceSpan>,
    pub edge_id: String,
    /// Whether all fields are listed, where that is known.
    pub is_exhaustive: Option<bool>,
}

/// Whether a row tells of a place that builds a value.
pub open spec fn tells_site(row: ConstructorRow, s: ConstructionSite) -> bool {
    &&& row.record_id@ == s.record_id@
    &&& row.schema_version == s.schema_version
    &&& opt_view(row.name) == opt_view(s.name)
    &&& row.kind@ == s.kind@
    &&& opt_view(row.repo_relative_path) == opt_view(s.repo_relative_path)
    &&& row.span == s.span
    &&& row.edge_record_id@ == s.edge_id@
    &&& row.e0063_risk == (s.is_exhaustive != Some(false))
    &&& row.is_exhaustive == s.is_exhaustive
}

/// What builds values of a type.
pub struct Constructors {
    /// The type.
    pub anchor: GraphRecord,
    /// The places.
    pub sites: Vec<ConstructionSite>,
}

/// The answer to a question after what builds values of a type.
pub struct ConstructorsReport {
    /// The handle that was given.
    pub handle: String,
    pub target: SymbolTarget,
    pub direction: &'static str,
    pub edge_labels: Vec<String>,
    /// The commit whose state was read, where one was.
    pub at_commit: Option<String>,
    /// The instant that was given, where one was.
    pub as_of: Option<String>,
    /// Which records were read.
    pub corpus: Corpus,
    pub total_constructors: usize,
    pub disclaimer: &'static str,
    pub rows: Vec<ConstructorRow>,
}

/// Whether a report tells what builds values of the type of a node.
pub open spec fn tells_constructors(
    r: ConstructorsReport,
    handle: Seq<char>,
    n: NodeRecord,
    sites: Seq<ConstructionSite>,
    at_commit: Option<Seq<char>>,
    as_of: Option<Seq<char>>,
    corpus: Corpus,
) -> bool {
    &&& r.handle@ == handle
    &&& r.target@ == symbol_target(n)
    &&& r.direction@ == direction_of(Verb::WhoConstructs)
    &&& views(r.edge_labels@) == labels_of(Verb::WhoConstructs)
    &&& opt_view(r.at_commit) == at_commit
    &&& opt_view(r.as_of) == as_of
    &&& r.corpus == corpus
    &&& r.total_constructors == sites.len()
    &&& r.disclaimer@ == disclaimer_of(Verb::WhoConstructs)
    &&& r.rows@.len() == sites.len()
    &&& forall|i: int| 0 <= i < sites.len() ==> tells_site(#[trigger] r.rows@[i], sites[i])
}

fn constructor_rows(sites: &Vec<ConstructionSite>) -> (r: Vec<ConstructorRow>)
    ensures
        r@.len() == sites@.len(),
        forall|i: int| 0 <= i < sites@.len() ==> tells_site(#[trigger] r@[i], sites@[i]),
{
    let mut r: Vec<ConstructorRow> = Vec::new();
    let mut i: usize = 0;
    while i < sites.len()
        invariant
            i <= sites@.len(),
            r@.len() == i,
            forall|k: int| 0 <= k < i ==> tells_site(#[trigger] r@[k], sites@[k]),
        decreases sites@.len() - i,
    {
        let s = &sites[i];
        r.push(
            ConstructorRow {
                record_id: s.record_id.clone(),
                schema_version: s.schema_version,
                name: opt_clone(&s.name),
                kind: s.kind.clone(),
                repo_relative_path: opt_clone(&s.repo_relative_path),
                span: s.span,
                edge_record_id: s.edge_id.clone(),
                e0063_risk: breaks_on_new_field(s.is_exhaustive),
                is_exhaustive: s.is_exhaustive,
            },
        );
        i = i + 1;
    }
    r
}

/// Answers a question after what builds values of a type: the handle must not be blank
/// and must name one live symbol, something must build values of it, and it must be a
/// node.
pub fn constructors_answer(
    handle: &str,
    resolved: Result<ResolvedHandle, HandleFailure>,
    found: Option<Constructors>,
    at_commit: Option<String>,
    as_of: Option<String>,
    corpus: Corpus,
) -> (r: Result<ConstructorsReport, ReachFailure>)
    ensures
        if blank(handle@) {
            r is Err && r->Err_0@ == ReachFailureView::Handle(HandleFailureView::Malformed)
        } else {
            match handle_refusal(Verb::WhoConstructs, resolved) {
                Some(f) => r is Err && r->Err_0@ == ReachFailureView::Handle(f),
                None => match found {
                    None => r is Err && r->Err_0@ == ReachFailureView::Handle(
                        HandleFailureView::NoMatch,
                    ),
                    Some(c) => if c.sites@.len() == 0 {
                        r is Err && r->Err_0@ == ReachFailureView::NoConstructors
                    } else {
                        match c.anchor {
                            GraphRecord::Node(n) => r is Ok && tells_constructors(
                                r->Ok_0,
                                handle@,
                                n,
                                c.sites@,
                                opt_view(at_commit),
                                opt_view(as_of),
                                corpus,
                            ),
                            _ => r is Err && r->Err_0@ == ReachFailureView::NotANode,
                        }
                    },
                },
            }
        },
{
    if let Err(e) = check_type_handle(handle) {
        return Err(ReachFailure::Handle(e));
    }
    if let Err(e) = check_handle(Verb::WhoConstructs, resolved) {
        return Err(ReachFailure::Handle(e));
    }
    let c = match found {
        Some(c) => c,
        None => {
            return Err(ReachFailure::Handle(HandleFailure::NoMatch));
        },
    };
    if c.sites.len() == 0 {
        return Err(ReachFailure::NoConstructors);
    }
    let target = match &c.anchor {
        GraphRecord::Node(n) => make_target(n),
        _ => {
            return Err(ReachFailure::NotANode);
        },
    };
    let rows = constructor_rows(&c.sites);
    Ok(
        ConstructorsReport {
            handle: handle.to_owned(),
            target,
            direction: Verb::WhoConstructs.direction(),
            edge_labels: Verb::WhoConstructs.edge_labels(),
            at_commit,
            as_of,
            corpus,
            total_constructors: rows.len(),
            disclaimer: Verb::WhoConstructs.disclaimer(),
            rows,
        },
    )
}

impl ConstructorsReport {
    /// The answer, line by line.
    pub fn lines(&self) -> (r: Vec<String>)
        ensures
            views(r@) == constructor_lines(
                self.target@.record_id,
                self.target@.name,
                self.rows@,
                self.rows@.len() as int,
            ),
    {
        constructors_text(self.target.record_id.as_str(), &self.target.name, &self.rows)
    }
}

// ---------------------------------------------------------------------------
// Laws
// ---------------------------------------------------------------------------

/// No row is made up: every row stands for a record that the walk reached.
pub proof fn law_rows_are_what_was_reached(s: Seq<ReachedRecord>, n: int)
    requires
        0 <= n <= s.len(),
    ensures
        lead_rows(s, n).len() <= n,
        forall|k: int|
            0 <= k < lead_rows(s, n).len() ==> exists|i: int|
                0 <= i < n && lead_row(#[trigger] s[i]) == Some(
                    #[trigger] lead_rows(s, n)[k],
                ),
    decreases n,
{
    if n > 0 {
        law_rows_are_what_was_reached(s, n - 1);
        let before = lead_rows(s, n - 1);
        let now = lead_rows(s, n);
        assert forall|k: int| 0 <= k < now.len() implies exists|i: int|
            0 <= i < n && lead_row(#[trigger] s[i]) == Some(#[trigger] now[k]) by {
            if k < before.len() {
                assert(now[k] == before[k]);
                let i = choose|i: int|
                    0 <= i < n - 1 && lead_row(#[trigger] s[i]) == Some(before[k]);
                assert(lead_row(s[i]) == Some(now[k]));
            } else {
                assert(lead_row(s[n - 1]) == Some(now[k]));
            }
        }
    }
}

} // verus!
