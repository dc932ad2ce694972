//! Inventories of places in code: what is unsafe, and what may panic.

use vstd::prelude::*;
use vstd::string::*;

use crate::reach_report::Corpus;
use crate::ir::{GraphRecord, NodeRecord, SourceSpan};
use crate::reach::node_commit;
use crate::repository::{owner, RepositoryIndex};
use crate::text::{
    concat3, concat4, concat5, decimal, decimal_seq, opt_clone, opt_is, opt_str_view, opt_view,
    push_line, str_eq, views,
};

verus! {

/// What is listed.
#[derive(Clone, Copy, Debug, PartialEq, Eq, Structural)]
pub enum SiteLane {
    /// What is unsafe.
    UnsafeSites,
    /// What unwraps or expects.
    UnwrapExpect,
}

/// The symbol that encloses a place.
#[derive(Clone, Debug, PartialEq, Eq)]
pub struct SiteSymbol {
    pub record_id: String,
    pub name: Option<String>,
    pub symbol_kind: Option<String>,
    pub span: Option<SourceSpan>,
}

/// The view of a [`SiteSymbol`].
#[verifier::ext_equal]
pub struct SiteSymbolView {
    pub record_id: Seq<char>,
    pub name: Option<Seq<char>>,
    pub symbol_kind: Option<Seq<char>>,
    pub span: Option<SourceSpan>,
}

impl View for SiteSymbol {
    type V = SiteSymbolView;

    open spec fn view(&self) -> SiteSymbolView {
        SiteSymbolView {
            record_id: self.record_id@,
            name: opt_view(self.name),
            symbol_kind: opt_view(self.symbol_kind),
            span: self.span,
        }
    }
}

impl SiteSymbol {
    /// A copy with the same view.
    pub fn copy(&self) -> (r: SiteSymbol)
        ensures
            r@ == self@,
    {
        SiteSymbol {
            record_id: self.record_id.clone(),
            name: opt_clone(&self.name),
            symbol_kind: opt_clone(&self.symbol_kind),
            span: self.span,
        }
    }
}

/// A place.
#[derive(Clone, Debug, PartialEq, Eq)]
pub struct SiteRow {
    pub record_id: String,
    /// The kind of its node.
    pub kind: String,
    pub schema_version: u32,
    /// What is there: `block`, `fn` or `impl`; or `unwrap` or `expect`.
    pub category: String,
    /// Whether it lies in `production` code or in a `test`, where that is told.
    pub context: Option<String>,
    pub repo_relative_path: Option<String>,
    pub span: Option<SourceSpan>,
    pub language: Option<String>,
    pub valid_time: Option<String>,
    pub git_commit: Option<String>,
    pub enclosing_symbol: Option<SiteSymbol>,
    pub repository_id: Option<String>,
    pub repository: Option<String>,
    /// How far it is to be trusted.
    pub trust: &'static str,
}

/// The view of a [`SiteRow`].
#[verifier::ext_equal]
pub struct SiteRowView {
    pub record_id: Seq<char>,
    pub kind: Seq<char>,
    pub schema_version: u32,
    pub category: Seq<char>,
    pub context: Option<Seq<char>>,
    pub repo_relative_path: Option<Seq<char>>,
    pub span: Option<SourceSpan>,
    pub language: Option<Seq<char>>,
    pub valid_time: Option<Seq<char>>,
    pub git_commit: Option<Seq<char>>,
    pub enclosing_symbol: Option<SiteSymbolView>,
    pub repository_id: Option<Seq<char>>,
    pub repository: Option<Seq<char>>,
    pub trust: Seq<char>,
}

impl View for SiteRow {
    type V = SiteRowView;

    open spec fn view(&self) -> SiteRowView {
        SiteRowView {
            record_id: self.record_id@,
            kind: self.kind@,
            schema_version: self.schema_version,
            category: self.category@,
            context: opt_view(self.context),
            repo_relative_path: opt_view(self.repo_relative_path),
            span: self.span,
            language: opt_view(self.language),
            valid_time: opt_view(self.valid_time),
            git_commit: opt_view(self.git_commit),
            enclosing_symbol: match self.enclosing_symbol {
                Some(x) => Some(x@),
                None => None,
            },
            repository_id: opt_view(self.repository_id),
            repository: opt_view(self.repository),
            trust: self.trust@,
        }
    }
}

impl SiteRow {
    /// A copy with the same view.
    pub fn copy(&self) -> (r: SiteRow)
        ensures
            r@ == self@,
    {
        SiteRow {
            record_id: self.record_id.clone(),
            kind: self.kind.clone(),
            schema_version: self.schema_version,
            category: self.category.clone(),
            context: opt_clone(&self.context),
            repo_relative_path: opt_clone(&self.repo_relative_path),
            span: self.span,
            language: opt_clone(&self.language),
            valid_time: opt_clone(&self.valid_time),
            git_commit: opt_clone(&self.git_commit),
            enclosing_symbol: match &self.enclosing_symbol {
                Some(x) => Some(x.copy()),
                None => None,
            },
            repository_id: opt_clone(&self.repository_id),
            repository: opt_clone(&self.repository),
            trust: self.trust,
        }
    }
}

/// The views of a list.
pub open spec fn site_row_views(s: Seq<SiteRow>) -> Seq<SiteRowView> {
    s.map_values(|x: SiteRow| x@)
}

// ---------------------------------------------------------------------------
// Scopes
// ---------------------------------------------------------------------------

/// Why a scope was not answered.
#[derive(Clone, Debug, PartialEq, Eq)]
pub enum SiteScopeError {
    /// The prefix is empty.
    MalformedPrefix(String),
    /// No file lies under the prefix.
    ScopeNotFound(String),
    /// No record is of the commit.
    UnknownCommit(String),
    /// More than one commit begins so.
    AmbiguousCommit(String, usize),
}

/// What is told of a scope that was not answered.
#[derive(Clone, Debug, PartialEq, Eq)]
pub struct ScopeReport {
    pub code: String,
    /// What the scope was given by: `prefix` or `commit`.
    pub selector: String,
    pub value: String,
    pub message: String,
    pub exit_code: u8,
}

/// The view of a [`ScopeReport`].
#[verifier::ext_equal]
pub struct ScopeReportView {
    pub code: Seq<char>,
    pub selector: Seq<char>,
    pub value: Seq<char>,
    pub message: Seq<char>,
    pub exit_code: u8,
}

impl View for ScopeReport {
    type V = ScopeReportView;

    open spec fn view(&self) -> ScopeReportView {
        ScopeReportView {
            code: self.code@,
            selector: self.selector@,
            value: self.value@,
            message: self.message@,
            exit_code: self.exit_code,
        }
    }
}

/// What is told of a scope that was not answered: the exit code is 1 where the question
/// is wrong and 2 where it has no answer.
pub open spec fn scope_report(e: SiteScopeError) -> ScopeReportView {
    match e {
        SiteScopeError::MalformedPrefix(p) => ScopeReportView {
            code: "malformed_prefix"@,
            selector: "prefix"@,
            value: p@,
            message: "prefix must be non-empty after stripping trailing slashes"@,
            exit_code: 1,
        },
        SiteScopeError::ScopeNotFound(p) => ScopeReportView {
            code: "scope_not_found"@,
            selector: "prefix"@,
            value: p@,
            message: "no file in the selected store slice lies under `"@ + p@ + "`"@,
            exit_code: 2,
        },
        SiteScopeError::UnknownCommit(c) => ScopeReportView {
            code: "unknown_commit"@,
            selector: "commit"@,
            value: c@,
            message: "no record in the selected store slice carries commit `"@ + c@ + "`"@,
            exit_code: 2,
        },
        SiteScopeError::AmbiguousCommit(c, n) => ScopeReportView {
            code: "ambiguous_commit"@,
            selector: "commit"@,
            value: c@,
            message: "commit prefix `"@ + c@ + "` matches "@ + decimal_seq(n as nat) + " commits"@,
            exit_code: 1,
        },
    }
}

/// What is told of a scope that was not answered.
pub fn report_scope_error(e: &SiteScopeError) -> (r: ScopeReport)
    ensures
        r@ == scope_report(*e),
{
    match e {
        SiteScopeError::MalformedPrefix(p) => ScopeReport {
            code: "malformed_prefix".to_owned(),
            selector: "prefix".to_owned(),
            value: p.clone(),
            message: "prefix must be non-empty after stripping trailing slashes".to_owned(),
            exit_code: 1,
        },
        SiteScopeError::ScopeNotFound(p) => ScopeReport {
            code: "scope_not_found".to_owned(),
            selector: "prefix".to_owned(),
            value: p.clone(),
            message: concat3(
                "no file in the selected store slice lies under `",
                p.as_str(),
                "`",
            ),
            exit_code: 2,
        },
        SiteScopeError::UnknownCommit(c) => ScopeReport {
            code: "unknown_commit".to_owned(),
            selector: "commit".to_owned(),
            value: c.clone(),
            message: concat3(
                "no record in the selected store slice carries commit `",
                c.as_str(),
                "`",
            ),
            exit_code: 2,
        },
        SiteScopeError::AmbiguousCommit(c, n) => ScopeReport {
            code: "ambiguous_commit".to_owned(),
            selector: "commit".to_owned(),
            value: c.clone(),
            message: concat5(
                "commit prefix `",
                c.as_str(),
                "` matches ",
                decimal(*n as u64).as_str(),
                " commits",
            ),
            exit_code: 1,
        },
    }
}

// ---------------------------------------------------------------------------
// Rows
// ---------------------------------------------------------------------------

/// A place that was found.
pub struct FoundSite {
    pub record: GraphRecord,
    pub category: String,
    pub context: Option<String>,
    pub enclosing_symbol: Option<GraphRecord>,
}

/// The time of a place: that of its commit, or else its own.
pub open spec fn site_time(n: NodeRecord) -> Option<Seq<char>> {
    match n.temporal {
        Some(t) => Some(t.valid_time@),
        None => opt_view(n.valid_time),
    }
}

/// The symbol that encloses a place, where a node stands for it.
pub open spec fn enclosing_of(s: Option<GraphRecord>) -> Option<SiteSymbolView> {
    match s {
        Some(GraphRecord::Node(n)) => Some(
            SiteSymbolView {
                record_id: n.id@,
                name: opt_view(n.name),
                symbol_kind: opt_view(n.symbol_kind),
                span: n.span,
            },
        ),
        _ => None,
    }
}

/// The kind of the nodes of a lane.
pub open spec fn lane_kind(lane: SiteLane) -> Seq<char> {
    match lane {
        SiteLane::UnsafeSites => "UnsafeSite"@,
        SiteLane::UnwrapExpect => "PanicRiskSite"@,
    }
}

/// The name of a repository, where both are known.
pub open spec fn display_name(
    displays: Map<Seq<char>, Seq<char>>,
    repository: Option<Seq<char>>,
) -> Option<Seq<char>> {
    match repository {
        Some(x) => owner(displays, x),
        None => None,
    }
}

/// The row of a place, where a node stands for it.
pub open spec fn site_row(
    lane: SiteLane,
    s: FoundSite,
    own: Map<Seq<char>, Seq<char>>,
    displays: Map<Seq<char>, Seq<char>>,
) -> Option<SiteRowView> {
    match s.record {
        GraphRecord::Node(n) => Some(
            SiteRowView {
                record_id: n.id@,
                kind: lane_kind(lane),
                schema_version: n.schema_version,
                category: s.category@,
                context: opt_view(s.context),
                repo_relative_path: opt_view(n.repo_relative_path),
                span: n.span,
                language: opt_view(n.language),
                valid_time: site_time(n),
                git_commit: node_commit(n),
                enclosing_symbol: enclosing_of(s.enclosing_symbol),
                repository_id: owner(own, n.id@),
                repository: display_name(displays, owner(own, n.id@)),
                trust: "source_fact"@,
            },
        ),
        _ => None,
    }
}

fn make_enclosing(s: &Option<GraphRecord>) -> (r: Option<SiteSymbol>)
    ensures
        (match r {
            Some(x) => Some(x@),
            None => None,
        }) == enclosing_of(*s),
{
    match s {
        Some(GraphRecord::Node(n)) => {
            let r = SiteSymbol {
                record_id: n.id.clone(),
                name: opt_clone(&n.name),
                symbol_kind: opt_clone(&n.symbol_kind),
                span: n.span,
            };
            Some(r)
        },
        _ => None,
    }
}

fn opt_owned(s: Option<&str>) -> (r: Option<String>)
    ensures
        opt_view(r) == opt_str_view(s),
{
    match s {
        Some(x) => Some(x.to_owned()),
        None => None,
    }
}

/// The row of a place.
pub fn make_site_row(lane: SiteLane, s: &FoundSite, index: &RepositoryIndex) -> (r: Option<SiteRow>)
    ensures
        (match r {
            Some(x) => Some(x@),
            None => None,
        }) == site_row(lane, *s, index.owners(), index.displays()),
{
    let n = match &s.record {
        GraphRecord::Node(n) => n,
        _ => {
            return None;
        },
    };
    let repository_id = index.owner_of(n.id.as_str());
    let repository = match repository_id {
        Some(x) => index.display_of(x),
        None => None,
    };
    let row = SiteRow {
        record_id: n.id.clone(),
        kind: match lane {
            SiteLane::UnsafeSites => "UnsafeSite".to_owned(),
            SiteLane::UnwrapExpect => "PanicRiskSite".to_owned(),
        },
        schema_version: n.schema_version,
        category: s.category.clone(),
        context: opt_clone(&s.context),
        repo_relative_path: opt_clone(&n.repo_relative_path),
        span: n.span,
        language: opt_clone(&n.language),
        valid_time: match &n.temporal {
            Some(t) => Some(t.valid_time.clone()),
            None => opt_clone(&n.valid_time),
        },
        git_commit: match &n.temporal {
            Some(t) => Some(t.git_commit.clone()),
            None => None,
        },
        enclosing_symbol: make_enclosing(&s.enclosing_symbol),
        repository_id: opt_owned(repository_id),
        repository: opt_owned(repository),
        trust: "source_fact",
    };
    Some(row)
}

/// The rows of the first `n` places.
pub open spec fn site_rows_upto(
    lane: SiteLane,
    s: Seq<FoundSite>,
    own: Map<Seq<char>, Seq<char>>,
    displays: Map<Seq<char>, Seq<char>>,
    n: int,
) -> Seq<SiteRowView>
    decreases n,
{
    if n <= 0 {
        Seq::empty()
    } else {
        match site_row(lane, s[n - 1], own, displays) {
            Some(x) => site_rows_upto(lane, s, own, displays, n - 1).push(x),
            None => site_rows_upto(lane, s, own, displays, n - 1),
        }
    }
}

/// The rows of the places.
pub fn site_rows(lane: SiteLane, s: &Vec<FoundSite>, index: &RepositoryIndex) -> (r: Vec<SiteRow>)
    ensures
        site_row_views(r@) == site_rows_upto(
            lane,
            s@,
            index.owners(),
            index.displays(),
            s@.len() as int,
        ),
{
    let mut r: Vec<SiteRow> = Vec::new();
    let mut i: usize = 0;
    assert(site_row_views(r@) =~= Seq::empty());
    while i < s.len()
        invariant
            i <= s@.len(),
            site_row_views(r@) == site_rows_upto(
                lane,
                s@,
                index.owners(),
                index.displays(),
                i as int,
            ),
        decreases s@.len() - i,
    {
        if let Some(x) = make_site_row(lane, &s[i], index) {
            let ghost before = r@;
            r.push(x);
            assert(site_row_views(r@) =~= site_row_views(before).push(x@));
        }
        i = i + 1;
    }
    r
}

// ---------------------------------------------------------------------------
// Counts
// ---------------------------------------------------------------------------

/// How many of the first `n` rows have the category.
pub open spec fn of_category(rows: Seq<SiteRowView>, category: Seq<char>, n: int) -> nat
    decreases n,
{
    if n <= 0 {
        0
    } else {
        of_category(rows, category, n - 1) + (if rows[n - 1].category == category {
            1nat
        } else {
            0nat
        })
    }
}

/// How many of the first `n` rows have the context.
pub open spec fn of_context(rows: Seq<SiteRowView>, context: Seq<char>, n: int) -> nat
    decreases n,
{
    if n <= 0 {
        0
    } else {
        of_context(rows, context, n - 1) + (if rows[n - 1].context == Some(context) {
            1nat
        } else {
            0nat
        })
    }
}

/// How many rows have the category.
pub fn count_category(rows: &Vec<SiteRow>, category: &str) -> (r: usize)
    ensures
        r == of_category(site_row_views(rows@), category@, rows@.len() as int),
        r <= rows@.len(),
{
    let ghost v = site_row_views(rows@);
    let mut r: usize = 0;
    let mut i: usize = 0;
    while i < rows.len()
        invariant
            i <= rows@.len(),
            v == site_row_views(rows@),
            r == of_category(v, category@, i as int),
            r <= i,
        decreases rows@.len() - i,
    {
        assert(v[i as int] == rows@[i as int]@);
        if str_eq(rows[i].category.as_str(), category) {
            r = r + 1;
        }
        i = i + 1;
    }
    r
}

/// How many rows have the context.
pub fn count_context(rows: &Vec<SiteRow>, context: &str) -> (r: usize)
    ensures
        r == of_context(site_row_views(rows@), context@, rows@.len() as int),
        r <= rows@.len(),
{
    let ghost v = site_row_views(rows@);
    let mut r: usize = 0;
    let mut i: usize = 0;
    while i < rows.len()
        invariant
            i <= rows@.len(),
            v == site_row_views(rows@),
            r == of_context(v, context@, i as int),
            r <= i,
        decreases rows@.len() - i,
    {
        assert(v[i as int] == rows@[i as int]@);
        if opt_is(&rows[i].context, context) {
            r = r + 1;
        }
        i = i + 1;
    }
    r
}

/// How many places are unsafe, in all and of each kind.
#[derive(Clone, Copy, Debug, PartialEq, Eq, Structural)]
pub struct UnsafeCounts {
    pub total: usize,
    pub block: usize,
    pub function: usize,
    pub implementation: usize,
}

/// Whether these are the counts of unsafe places.
pub open spec fn counts_unsafe(v: Seq<SiteRowView>, c: UnsafeCounts) -> bool {
    let n = v.len() as int;
    &&& c.total == n
    &&& c.block == of_category(v, "block"@, n)
    &&& c.function == of_category(v, "fn"@, n)
    &&& c.implementation == of_category(v, "impl"@, n)
}

/// How many places are unsafe, in all and of each kind.
pub fn count_unsafe(rows: &Vec<SiteRow>) -> (c: UnsafeCounts)
    ensures
        counts_unsafe(site_row_views(rows@), c),
{
    UnsafeCounts {
        total: rows.len(),
        block: count_category(rows, "block"),
        function: count_category(rows, "fn"),
        implementation: count_category(rows, "impl"),
    }
}

/// How many places may panic, in all, of each method and in each context.
#[derive(Clone, Copy, Debug, PartialEq, Eq, Structural)]
pub struct PanicCounts {
    pub total: usize,
    pub unwrap: usize,
    pub expect: usize,
    pub production: usize,
    pub test: usize,
}

/// Whether these are the counts of places that may panic.
pub open spec fn counts_panics(v: Seq<SiteRowView>, c: PanicCounts) -> bool {
    let n = v.len() as int;
    &&& c.total == n
    &&& c.unwrap == of_category(v, "unwrap"@, n)
    &&& c.expect == of_category(v, "expect"@, n)
    &&& c.production == of_context(v, "production"@, n)
    &&& c.test == of_context(v, "test"@, n)
}

/// How many places may panic, in all, of each method and in each context.
pub fn count_panics(rows: &Vec<SiteRow>) -> (c: PanicCounts)
    ensures
        counts_panics(site_row_views(rows@), c),
{
    PanicCounts {
        total: rows.len(),
        unwrap: count_category(rows, "unwrap"),
        expect: count_category(rows, "expect"),
        production: count_context(rows, "production"),
        test: count_context(rows, "test"),
    }
}

// ---------------------------------------------------------------------------
// Text
// ---------------------------------------------------------------------------

/// Where a place lies, and what encloses it.
pub open spec fn place_text(row: SiteRowView) -> Seq<char> {
    " @ "@ + (match row.repo_relative_path {
        Some(p) => p,
        None => "(unknown)"@,
    }) + ":"@ + decimal_seq(
        (match row.span {
            Some(s) => s.start_line as nat,
            None => 0nat,
        }),
    ) + " in "@ + (match row.enclosing_symbol {
        Some(s) => match s.name {
            Some(x) => x,
            None => "(top-level)"@,
        },
        None => "(top-level)"@,
    })
}

fn make_place_text(row: &SiteRow) -> (r: String)
    ensures
        r@ == place_text(row@),
{
    let path = match &row.repo_relative_path {
        Some(p) => p.as_str(),
        None => "(unknown)",
    };
    let line: u64 = match &row.span {
        Some(s) => s.start_line,
        None => 0,
    };
    let within = match &row.enclosing_symbol {
        Some(s) => match &s.name {
            Some(x) => x.as_str(),
            None => "(top-level)",
        },
        None => "(top-level)",
    };
    let n = decimal(line);
    let head = concat4(" @ ", path, ":", n.as_str());
    let r = concat3(head.as_str(), " in ", within);
    assert(r@ =~= place_text(row@));
    r
}

/// The line of a place.
pub open spec fn site_line(lane: SiteLane, row: SiteRowView) -> Seq<char> {
    match lane {
        SiteLane::UnsafeSites => "unsafe "@ + row.category + place_text(row),
        SiteLane::UnwrapExpect => row.category + " ("@ + (match row.context {
            Some(c) => c,
            None => ""@,
        }) + ")"@ + place_text(row),
    }
}

fn make_site_line(lane: SiteLane, row: &SiteRow) -> (r: String)
    ensures
        r@ == site_line(lane, row@),
{
    let place = make_place_text(row);
    match lane {
        SiteLane::UnsafeSites => concat3("unsafe ", row.category.as_str(), place.as_str()),
        SiteLane::UnwrapExpect => {
            let context = match &row.context {
                Some(c) => c.as_str(),
                None => "",
            };
            concat5(row.category.as_str(), " (", context, ")", place.as_str())
        },
    }
}

/// The line that says that there are no places.
pub open spec fn empty_line(lane: SiteLane) -> Seq<char> {
    match lane {
        SiteLane::UnsafeSites => "# no_sites_in_scope: scope contains zero unsafe sites"@,
        SiteLane::UnwrapExpect => "# no_sites_in_scope: scope contains zero unwrap/expect sites"@,
    }
}

/// The lines of the first `n` places.
pub open spec fn site_lines(lane: SiteLane, rows: Seq<SiteRowView>, n: int) -> Seq<Seq<char>>
    decreases n,
{
    if n <= 0 {
        Seq::empty()
    } else {
        site_lines(lane, rows, n - 1).push(site_line(lane, rows[n - 1]))
    }
}

/// What is told of the places, line by line.
pub open spec fn inventory_lines(lane: SiteLane, rows: Seq<SiteRowView>) -> Seq<Seq<char>> {
    if rows.len() == 0 {
        seq![empty_line(lane)]
    } else {
        site_lines(lane, rows, rows.len() as int)
    }
}

/// What is told of the places, line by line.
pub fn inventory_text(lane: SiteLane, rows: &Vec<SiteRow>) -> (r: Vec<String>)
    ensures
        views(r@) == inventory_lines(lane, site_row_views(rows@)),
{
    let ghost v = site_row_views(rows@);
    let mut r: Vec<String> = Vec::new();
    if rows.len() == 0 {
        let line = match lane {
            SiteLane::UnsafeSites => "# no_sites_in_scope: scope contains zero unsafe sites",
            SiteLane::UnwrapExpect => "# no_sites_in_scope: scope contains zero unwrap/expect sites",
        };
        r.push(line.to_owned());
        assert(views(r@) =~= seq![empty_line(lane)]);
        return r;
    }
    let mut i: usize = 0;
    assert(views(r@) =~= Seq::empty());
    while i < rows.len()
        invariant
            i <= rows@.len(),
            v == site_row_views(rows@),
            views(r@) == site_lines(lane, v, i as int),
        decreases rows@.len() - i,
    {
        assert(v[i as int] == rows@[i as int]@);
        let line = make_site_line(lane, &rows[i]);
        let ghost before = r@;
        r.push(line);
        assert(views(r@) =~= views(before).push(line@));
        i = i + 1;
    }
    r
}

// ---------------------------------------------------------------------------
// Answers
// ---------------------------------------------------------------------------

/// What an inventory of unsafe places does not claim.
pub const UNSAFE_SITES_DISCLAIMER: &'static str =
    "Rows are an advisory unsafe-surface inventory derived solely from deterministic extractor facts. Each row asserts only that an unsafe site of this kind exists at this span — never that the code is sound or unsound. A zero count is not a safety guarantee: macro-expanded, build-script, and dependency unsafe are out of this slice.";

/// What an inventory of places that may panic does not claim.
pub const UNWRAP_EXPECT_DISCLAIMER: &'static str =
    "Rows are advisory panic-risk triage leads derived solely from deterministic extractor facts. Each row asserts only that an unwrap/expect call exists at this span in this context — never a verdict on whether it is justified.";

/// The name of a lane.
pub open spec fn lane_name(lane: SiteLane) -> Seq<char> {
    match lane {
        SiteLane::UnsafeSites => "unsafe_sites"@,
        SiteLane::UnwrapExpect => "unwrap_expect"@,
    }
}

/// The categories of a lane.
pub open spec fn lane_categories(lane: SiteLane) -> Seq<Seq<char>> {
    match lane {
        SiteLane::UnsafeSites => seq!["block"@, "fn"@, "impl"@],
        SiteLane::UnwrapExpect => seq!["expect"@, "unwrap"@],
    }
}

/// What an inventory does not claim.
pub open spec fn lane_disclaimer(lane: SiteLane) -> Seq<char> {
    match lane {
        SiteLane::UnsafeSites => UNSAFE_SITES_DISCLAIMER@,
        SiteLane::UnwrapExpect => UNWRAP_EXPECT_DISCLAIMER@,
    }
}

impl SiteLane {
    /// The name of the lane.
    pub fn as_str(self) -> (r: &'static str)
        ensures
            r@ == lane_name(self),
    {
        match self {
            SiteLane::UnsafeSites => "unsafe_sites",
            SiteLane::UnwrapExpect => "unwrap_expect",
        }
    }

    /// The categories of the lane.
    pub fn categories(self) -> (r: Vec<String>)
        ensures
            views(r@) == lane_categories(self),
    {
        let mut r: Vec<String> = Vec::new();
        match self {
            SiteLane::UnsafeSites => {
                push_line(&mut r, "block".to_owned());
                push_line(&mut r, "fn".to_owned());
                push_line(&mut r, "impl".to_owned());
            },
            SiteLane::UnwrapExpect => {
                push_line(&mut r, "expect".to_owned());
                push_line(&mut r, "unwrap".to_owned());
            },
        }
        assert(views(r@) =~= lane_categories(self));
        r
    }

    /// What an inventory does not claim.
    pub fn disclaimer(self) -> (r: &'static str)
        ensures
            r@ == lane_disclaimer(self),
    {
        match self {
            SiteLane::UnsafeSites => UNSAFE_SITES_DISCLAIMER,
            SiteLane::UnwrapExpect => UNWRAP_EXPECT_DISCLAIMER,
        }
    }
}

/// How many places there are.
#[derive(Clone, Copy, Debug, PartialEq, Eq, Structural)]
pub enum SiteCounts {
    Unsafe(UnsafeCounts),
    Panics(PanicCounts),
}

/// What was found in a scope.
pub struct Inventory {
    pub sites: Vec<FoundSite>,
    /// The commit whose state was read, where one was.
    pub at_commit: Option<String>,
}

/// The answer to a question after places.
pub struct InventoryReport {
    pub lane: SiteLane,
    pub categories: Vec<String>,
    pub path_prefix: Option<String>,
    /// The commit whose state was read, where one was.
    pub at_commit: Option<String>,
    pub disclaimer: &'static str,
    pub sites: Vec<SiteRow>,
    pub counts: SiteCounts,
    /// Why there are no places, where there are none.
    pub empty_reason: Option<&'static str>,
    /// How many places are told.
    pub returned: usize,
    /// Which records were read.
    pub corpus: Corpus,
}

/// Whether a report tells what was found.
pub open spec fn tells_inventory(
    r: InventoryReport,
    lane: SiteLane,
    path_prefix: Option<Seq<char>>,
    found: Inventory,
    own: Map<Seq<char>, Seq<char>>,
    displays: Map<Seq<char>, Seq<char>>,
    corpus: Corpus,
) -> bool {
    let rows = site_rows_upto(lane, found.sites@, own, displays, found.sites@.len() as int);
    &&& r.lane == lane
    &&& views(r.categories@) == lane_categories(lane)
    &&& opt_view(r.path_prefix) == path_prefix
    &&& opt_view(r.at_commit) == opt_view(found.at_commit)
    &&& r.disclaimer@ == lane_disclaimer(lane)
    &&& site_row_views(r.sites@) == rows
    &&& match (lane, r.counts) {
        (SiteLane::UnsafeSites, SiteCounts::Unsafe(c)) => counts_unsafe(rows, c),
        (SiteLane::UnwrapExpect, SiteCounts::Panics(c)) => counts_panics(rows, c),
        _ => false,
    }
    &&& opt_str_view(r.empty_reason) == (if rows.len() == 0 {
        Some("no_sites_in_scope"@)
    } else {
        None
    })
    &&& r.returned == rows.len()
    &&& r.corpus == corpus
}

/// Answers a question after places: tells what was found, or why the scope was not
/// answered.
pub fn inventory_answer(
    lane: SiteLane,
    path_prefix: Option<String>,
    found: Result<Inventory, SiteScopeError>,
    index: &RepositoryIndex,
    corpus: Corpus,
) -> (r: Result<InventoryReport, ScopeReport>)
    ensures
        match found {
            Err(e) => r is Err && r->Err_0@ == scope_report(e),
            Ok(x) => r is Ok && tells_inventory(
                r->Ok_0,
                lane,
                opt_view(path_prefix),
                x,
                index.owners(),
                index.displays(),
                corpus,
            ),
        },
{
    let x = match found {
        Ok(x) => x,
        Err(e) => {
            return Err(report_scope_error(&e));
        },
    };
    let sites = site_rows(lane, &x.sites, index);
    assert(site_row_views(sites@).len() == sites@.len());
    let counts = match lane {
        SiteLane::UnsafeSites => SiteCounts::Unsafe(count_unsafe(&sites)),
        SiteLane::UnwrapExpect => SiteCounts::Panics(count_panics(&sites)),
    };
    let empty_reason = if sites.len() == 0 {
        Some("no_sites_in_scope")
    } else {
        None
    };
    let returned = sites.len();
    Ok(
        InventoryReport {
            lane,
            categories: lane.categories(),
            path_prefix,
            at_commit: x.at_commit,
            disclaimer: lane.disclaimer(),
            sites,
            counts,
            empty_reason,
            returned,
            corpus,
        },
    )
}

impl InventoryReport {
    /// The answer, line by line.
    pub fn lines(&self) -> (r: Vec<String>)
        ensures
            views(r@) == inventory_lines(self.lane, site_row_views(self.sites@)),
    {
        inventory_text(self.lane, &self.sites)
    }
}

// ---------------------------------------------------------------------------
// Laws
// ---------------------------------------------------------------------------

/// Where every place has one of the three kinds, the counts of the kinds come to the
/// total.
pub proof fn law_kinds_come_to_the_total(rows: Seq<SiteRowView>, n: int)
    requires
        0 <= n <= rows.len(),
        forall|i: int|
            0 <= i < rows.len() ==> (#[trigger] rows[i]).category == "block"@ || rows[i].category
                == "fn"@ || rows[i].category == "impl"@,
    ensures
        of_category(rows, "block"@, n) + of_category(rows, "fn"@, n) + of_category(
            rows,
            "impl"@,
            n,
        ) == n,
    decreases n,
{
    reveal_strlit("block");
    reveal_strlit("fn");
    reveal_strlit("impl");
    assert("block"@.len() == 5);
    assert("fn"@.len() == 2);
    assert("impl"@.len() == 4);
    if n > 0 {
        law_kinds_come_to_the_total(rows, n - 1);
        assert(rows[n - 1].category == "block"@ || rows[n - 1].category == "fn"@ || rows[n
            - 1].category == "impl"@);
    }
}

} // verus!
