//! Which of the public code is verified, and which is documented: what is read, and what
//! is told.

use vstd::prelude::*;
use vstd::string::*;

use crate::collections::StrSet;
use crate::evidence_freshness::{in_order, lemma_in_order};
use crate::freshness_query::{freshness_note_views, note_lines, note_texts, FreshnessNote};
use crate::ir::{record_id, GraphRecord, SourceSpan};
use crate::queries::{tombstoned, tombstoned_ids_in};
use crate::reach::corpus_mode_name;
use crate::reach_report::Corpus;
use crate::repository::{owner, RepositoryIndex};
use crate::text::{
    append_lines, concat2, concat3, concat4, concat5, concat6, concat7, decimal, decimal_seq,
    has_prefix, join, join_seq, opt_str_view, opt_view, push_line, starts_with, str_eq, views,
};

verus! {

// ---------------------------------------------------------------------------
// The state at a commit
// ---------------------------------------------------------------------------

/// Whether a record belongs to the repository asked for, where one is; an edge does where
/// one of its ends does.
pub open spec fn of_repository(
    r: GraphRecord,
    own: Map<Seq<char>, Seq<char>>,
    repo: Option<Seq<char>>,
) -> bool {
    match repo {
        None => true,
        Some(x) => match r {
            GraphRecord::Node(n) => owner(own, n.id@) == Some(x),
            GraphRecord::Edge(e) => owner(own, e.source@) == Some(x) || owner(own, e.target@)
                == Some(x),
            GraphRecord::Tombstone(_) => false,
        },
    }
}

fn is_of_repository(r: &GraphRecord, index: &RepositoryIndex, repo: Option<&str>) -> (b: bool)
    ensures
        b == of_repository(*r, index.owners(), opt_str_view(repo)),
{
    let x = match repo {
        Some(x) => x,
        None => {
            return true;
        },
    };
    match r {
        GraphRecord::Node(n) => owned_by(index, n.id.as_str(), x),
        GraphRecord::Edge(e) => owned_by(index, e.source.as_str(), x) || owned_by(
            index,
            e.target.as_str(),
            x,
        ),
        GraphRecord::Tombstone(_) => false,
    }
}

fn owned_by(index: &RepositoryIndex, id: &str, repo: &str) -> (b: bool)
    ensures
        b == (owner(index.owners(), id@) == Some(repo@)),
{
    match index.owner_of(id) {
        Some(o) => str_eq(o, repo),
        None => false,
    }
}

/// The commit of a node or an edge, where it has one.
pub open spec fn commit_of(r: GraphRecord) -> Option<Seq<char>> {
    match r {
        GraphRecord::Node(n) => match n.temporal {
            Some(t) => Some(t.git_commit@),
            None => None,
        },
        GraphRecord::Edge(e) => match e.temporal {
            Some(t) => Some(t.git_commit@),
            None => None,
        },
        GraphRecord::Tombstone(_) => None,
    }
}

fn version_commit(r: &GraphRecord) -> (c: Option<&str>)
    ensures
        opt_str_view(c) == commit_of(*r),
{
    match r {
        GraphRecord::Node(n) => match &n.temporal {
            Some(t) => Some(t.git_commit.as_str()),
            None => None,
        },
        GraphRecord::Edge(e) => match &e.temporal {
            Some(t) => Some(t.git_commit.as_str()),
            None => None,
        },
        GraphRecord::Tombstone(_) => None,
    }
}

/// Whether a commit of the repository among the first `n` records begins so.
pub open spec fn commit_begins(
    s: Seq<GraphRecord>,
    own: Map<Seq<char>, Seq<char>>,
    repo: Option<Seq<char>>,
    selector: Seq<char>,
    n: int,
    sha: Seq<char>,
) -> bool {
    has_prefix(sha, selector) && exists|i: int|
        0 <= i < n && of_repository(#[trigger] s[i], own, repo) && commit_of(s[i]) == Some(sha)
}

/// The commits of the repository that begin so, in order.
pub open spec fn commits_beginning(
    s: Seq<GraphRecord>,
    own: Map<Seq<char>, Seq<char>>,
    repo: Option<Seq<char>>,
    selector: Seq<char>,
) -> Seq<Seq<char>> {
    in_order(|x: Seq<char>| commit_begins(s, own, repo, selector, s.len() as int, x))
}

/// Why there is no state at a commit.
#[derive(Clone, Copy, Debug, PartialEq, Eq, Structural)]
pub enum SnapshotError {
    /// No record is of such a commit.
    UnknownCommit,
    /// So many commits begin so.
    AmbiguousCommit(usize),
}

/// The code of an error.
pub open spec fn snapshot_code(e: SnapshotError) -> Seq<char> {
    match e {
        SnapshotError::UnknownCommit => "unknown_commit"@,
        SnapshotError::AmbiguousCommit(_) => "ambiguous_commit"@,
    }
}

impl SnapshotError {
    /// The code of the error.
    pub fn code(self) -> (r: &'static str)
        ensures
            r@ == snapshot_code(self),
    {
        match self {
            SnapshotError::UnknownCommit => "unknown_commit",
            SnapshotError::AmbiguousCommit(_) => "ambiguous_commit",
        }
    }
}

/// Whether a record belongs to the state at a commit: it is of the commit, or it is of
/// none and was not deleted.
pub open spec fn stands_at(s: Seq<GraphRecord>, sha: Seq<char>, r: GraphRecord) -> bool {
    match r {
        GraphRecord::Tombstone(_) => false,
        _ => match commit_of(r) {
            Some(c) => c == sha,
            None => !tombstoned(s, record_id(r)),
        },
    }
}

/// Those of the first `n` records that belong to the state at a commit.
pub open spec fn state_at(s: Seq<GraphRecord>, sha: Seq<char>, n: int) -> Seq<GraphRecord>
    decreases n,
{
    if n <= 0 {
        Seq::empty()
    } else if stands_at(s, sha, s[n - 1]) {
        state_at(s, sha, n - 1).push(s[n - 1])
    } else {
        state_at(s, sha, n - 1)
    }
}

fn commits_that_begin(
    records: &Vec<GraphRecord>,
    index: &RepositoryIndex,
    repo: Option<&str>,
    selector: &str,
) -> (set: StrSet)
    ensures
        set.wf(),
        set.seq() == commits_beginning(
            records@,
            index.owners(),
            opt_str_view(repo),
            selector@,
        ),
{
    let ghost s = records@;
    let ghost own = index.owners();
    let ghost re = opt_str_view(repo);
    let mut set = StrSet::new();
    let mut i: usize = 0;
    while i < records.len()
        invariant
            i <= records@.len(),
            s == records@,
            own == index.owners(),
            re == opt_str_view(repo),
            set.wf(),
            forall|x: Seq<char>| #[trigger]
                set.has(x) <==> commit_begins(s, own, re, selector@, i as int, x),
        decreases records@.len() - i,
    {
        let ghost before = set;
        if is_of_repository(&records[i], index, repo) {
            if let Some(c) = version_commit(&records[i]) {
                if starts_with(c, selector) {
                    set.insert(c);
                }
            }
        }
        proof {
            assert forall|x: Seq<char>| #[trigger]
                set.has(x) <==> commit_begins(s, own, re, selector@, i + 1, x) by {
                assert(before.has(x) <==> commit_begins(s, own, re, selector@, i as int, x));
                if commit_begins(s, own, re, selector@, i as int, x) {
                    let k = choose|k: int|
                        0 <= k < i && of_repository(#[trigger] s[k], own, re) && commit_of(s[k])
                            == Some(x);
                    assert(of_repository(s[k], own, re));
                }
            }
        }
        i = i + 1;
    }
    proof {
        let p = |x: Seq<char>| commit_begins(s, own, re, selector@, s.len() as int, x);
        assert forall|x: Seq<char>| #[trigger] set.has(x) <==> p(x) by {
            assert(set.has(x) <==> commit_begins(s, own, re, selector@, s.len() as int, x));
        }
        lemma_in_order(p, set);
    }
    set
}

/// The state at the one commit that begins so: the records of the commit, and those of no
/// commit that were not deleted.
pub fn verification_coverage_snapshot_at_commit(
    records: Vec<GraphRecord>,
    selector: &str,
    index: &RepositoryIndex,
    repo: Option<&str>,
) -> (r: Result<Vec<GraphRecord>, SnapshotError>)
    ensures
        ({
            let found = commits_beginning(
                records@,
                index.owners(),
                opt_str_view(repo),
                selector@,
            );
            match r {
                Ok(v) => found.len() == 1 && v@ == state_at(
                    records@,
                    found[0],
                    records@.len() as int,
                ),
                Err(SnapshotError::UnknownCommit) => found.len() == 0,
                Err(SnapshotError::AmbiguousCommit(n)) => found.len() > 1 && n == found.len(),
            }
        }),
{
    let found = commits_that_begin(&records, index, repo, selector);
    assert(found.seq().len() == found.items@.len());
    if found.items.len() == 0 {
        return Err(SnapshotError::UnknownCommit);
    }
    if found.items.len() > 1 {
        return Err(SnapshotError::AmbiguousCommit(found.items.len()));
    }
    assert(found.seq()[0] == found.items@[0]@);
    let sha = found.items[0].clone();
    let deleted = tombstoned_ids_in(&records);
    let ghost s = records@;
    let mut out: Vec<GraphRecord> = Vec::new();
    for x in it: records
        invariant
            it.seq() == s,
            deleted.wf(),
            forall|id: Seq<char>| #[trigger] deleted.has(id) <==> tombstoned(s, id),
            out@ == state_at(s, sha@, it.index() as int),
    {
        assert(x == s[it.index() as int]);
        let keep = match &x {
            GraphRecord::Tombstone(_) => false,
            _ => match version_commit(&x) {
                Some(c) => str_eq(c, sha.as_str()),
                None => !deleted.contains(x.id()),
            },
        };
        proof {
            assert(deleted.has(record_id(x)) <==> tombstoned(s, record_id(x)));
        }
        if keep {
            out.push(x);
        }
    }
    Ok(out)
}

// ---------------------------------------------------------------------------
// Scopes and capabilities
// ---------------------------------------------------------------------------

/// What became of the scope of a question.
#[derive(Clone, Copy, Debug, PartialEq, Eq, Structural)]
pub enum ScopeOutcome {
    /// None was given.
    NoScope,
    /// It names public code.
    Matched,
    /// No public code lies there.
    NotFoundPath,
    /// No public code is named so.
    NoMatch,
}

/// The code of a scope that was not answered, if it was not.
pub open spec fn scope_failure_code(o: ScopeOutcome) -> Option<Seq<char>> {
    match o {
        ScopeOutcome::NotFoundPath => Some("scope_not_found"@),
        ScopeOutcome::NoMatch => Some("no_match"@),
        _ => None,
    }
}

/// The code of a scope that was not answered, if it was not.
pub fn scope_outcome_code(o: ScopeOutcome) -> (r: Option<&'static str>)
    ensures
        opt_str_view(r) == scope_failure_code(o),
{
    match o {
        ScopeOutcome::NotFoundPath => Some("scope_not_found"),
        ScopeOutcome::NoMatch => Some("no_match"),
        _ => None,
    }
}

/// Whether the store can answer which code is verified.
pub open spec fn verification_capability(present: bool) -> Seq<char> {
    if present {
        "verification_links_recorded"@
    } else {
        "verification_facts_unavailable"@
    }
}

/// Whether the store can answer which code is verified.
pub fn verification_capability_name(present: bool) -> (r: &'static str)
    ensures
        r@ == verification_capability(present),
{
    if present {
        "verification_links_recorded"
    } else {
        "verification_facts_unavailable"
    }
}

/// Whether the store can answer which code is documented.
pub open spec fn doc_capability(absent: bool) -> Seq<char> {
    if absent {
        "doc_facts_unavailable"@
    } else {
        "doc_facts_recorded"@
    }
}

/// Whether the store can answer which code is documented.
pub fn doc_capability_name(absent: bool) -> (r: &'static str)
    ensures
        r@ == doc_capability(absent),
{
    if absent {
        "doc_facts_unavailable"
    } else {
        "doc_facts_recorded"
    }
}

// ---------------------------------------------------------------------------
// Text
// ---------------------------------------------------------------------------

/// Where something lies, from its first to its last line.
pub open spec fn citation_text(path: Option<Seq<char>>, span: Option<SourceSpan>) -> Seq<char> {
    match (path, span) {
        (Some(p), Some(s)) => " @ "@ + p + ":"@ + decimal_seq(s.start_line as nat) + "-"@
            + decimal_seq(s.end_line as nat),
        (Some(p), None) => " @ "@ + p,
        (None, _) => ""@,
    }
}

/// Where something lies, from its first to its last line.
pub fn citation(path: &Option<String>, span: &Option<SourceSpan>) -> (r: String)
    ensures
        r@ == citation_text(opt_view(*path), *span),
{
    match (path, span) {
        (Some(p), Some(s)) => concat6(
            " @ ",
            p.as_str(),
            ":",
            decimal(s.start_line).as_str(),
            "-",
            decimal(s.end_line).as_str(),
        ),
        (Some(p), None) => concat2(" @ ", p.as_str()),
        (None, _) => "".to_owned(),
    }
}

/// What verifies a symbol.
#[derive(Clone, Debug, PartialEq, Eq)]
pub struct CoverageEvidence {
    pub record_id: String,
    pub verification_kind: String,
    pub edge_label: String,
    /// Whether the symbol or its file is cited: `symbol` or `file`.
    pub link_level: String,
}

/// A symbol, and what verifies it.
#[derive(Clone, Debug, PartialEq, Eq)]
pub struct CoverageItem {
    pub record_id: String,
    pub kind: String,
    pub path: String,
    pub repo_relative_path: Option<String>,
    pub span: Option<SourceSpan>,
    pub schema_version: u32,
    pub valid_time: Option<String>,
    pub git_commit: Option<String>,
    pub verification: Vec<CoverageEvidence>,
}

/// A symbol and where it lies.
pub open spec fn item_text(i: CoverageItem) -> Seq<char> {
    "- "@ + i.path@ + " ["@ + i.kind@ + "]"@ + citation_text(
        opt_view(i.repo_relative_path),
        i.span,
    )
}

/// The line of what verifies a symbol.
pub open spec fn covered_line(i: CoverageItem, e: CoverageEvidence) -> Seq<char> {
    item_text(i) + (" via "@ + e.edge_label@ + "("@ + e.link_level@ + ") <- "@) + (e.record_id@
        + " ["@ + e.verification_kind@ + "]"@)
}

/// The line of a symbol that nothing verifies.
pub open spec fn uncovered_line(i: CoverageItem) -> Seq<char> {
    item_text(i) + " ("@ + i.record_id@ + ")"@
}

fn make_item_text(i: &CoverageItem) -> (r: String)
    ensures
        r@ == item_text(*i),
{
    let place = citation(&i.repo_relative_path, &i.span);
    concat6("- ", i.path.as_str(), " [", i.kind.as_str(), "]", place.as_str())
}

/// The line of what verifies a symbol.
pub fn covered_text(i: &CoverageItem, e: &CoverageEvidence) -> (r: String)
    ensures
        r@ == covered_line(*i, *e),
{
    let head = make_item_text(i);
    let mid = concat5(" via ", e.edge_label.as_str(), "(", e.link_level.as_str(), ") <- ");
    let tail = concat4(e.record_id.as_str(), " [", e.verification_kind.as_str(), "]");
    concat3(head.as_str(), mid.as_str(), tail.as_str())
}

/// The line of a symbol that nothing verifies.
pub fn uncovered_text(i: &CoverageItem) -> (r: String)
    ensures
        r@ == uncovered_line(*i),
{
    let head = make_item_text(i);
    concat4(head.as_str(), " (", i.record_id.as_str(), ")")
}

/// The lines of what verifies a symbol.
pub open spec fn evidence_lines(i: CoverageItem, n: int) -> Seq<Seq<char>>
    decreases n,
{
    if n <= 0 {
        Seq::empty()
    } else {
        evidence_lines(i, n - 1).push(covered_line(i, i.verification@[n - 1]))
    }
}

/// The lines of the first `n` symbols that something verifies.
pub open spec fn covered_lines(items: Seq<CoverageItem>, n: int) -> Seq<Seq<char>>
    decreases n,
{
    if n <= 0 {
        Seq::empty()
    } else {
        covered_lines(items, n - 1) + evidence_lines(
            items[n - 1],
            items[n - 1].verification@.len() as int,
        )
    }
}

/// The lines of the symbols that something verifies, one for each verification.
pub fn covered_report(items: &Vec<CoverageItem>) -> (r: Vec<String>)
    ensures
        views(r@) == covered_lines(items@, items@.len() as int),
{
    let mut r: Vec<String> = Vec::new();
    let mut i: usize = 0;
    assert(views(r@) =~= Seq::empty());
    while i < items.len()
        invariant
            i <= items@.len(),
            views(r@) == covered_lines(items@, i as int),
        decreases items@.len() - i,
    {
        let ghost base = views(r@);
        let item = &items[i];
        let mut k: usize = 0;
        assert(base + evidence_lines(*item, 0) =~= base);
        while k < item.verification.len()
            invariant
                k <= item.verification@.len(),
                views(r@) == base + evidence_lines(*item, k as int),
            decreases item.verification@.len() - k,
        {
            let line = covered_text(item, &item.verification[k]);
            let ghost before = r@;
            r.push(line);
            proof {
                assert(views(r@) =~= views(before).push(line@));
                assert(views(r@) =~= base + evidence_lines(*item, k + 1));
            }
            k = k + 1;
        }
        i = i + 1;
    }
    r
}

/// A public symbol without documentation.
#[derive(Clone, Debug, PartialEq, Eq)]
pub struct UndocumentedItem {
    pub record_id: String,
    pub kind: String,
    pub path: String,
    pub visibility: String,
    pub repo_relative_path: Option<String>,
    pub span: Option<SourceSpan>,
    pub signature: Option<String>,
    pub evidence: Vec<String>,
    /// Whether it exports something again.
    pub via_reexport: bool,
    /// What it exports again, where it does.
    pub target: Option<String>,
    /// The record of what it exports again, where it is known.
    pub target_record_id: Option<String>,
}

/// The line of a public symbol without documentation.
pub open spec fn undocumented_line(i: UndocumentedItem) -> Seq<char> {
    "- "@ + i.path@ + " ["@ + i.kind@ + "] "@ + i.visibility@ + (match opt_view(i.target) {
        Some(t) => " via pub use "@ + t,
        None => ""@,
    }) + citation_text(opt_view(i.repo_relative_path), i.span) + " evidence="@ + join_seq(
        views(i.evidence@),
        ","@,
    ) + " ("@ + i.record_id@ + ")"@
}

/// The line of a public symbol without documentation.
pub fn undocumented_text(i: &UndocumentedItem) -> (r: String)
    ensures
        r@ == undocumented_line(*i),
{
    let again = match &i.target {
        Some(t) => concat2(" via pub use ", t.as_str()),
        None => "".to_owned(),
    };
    let place = citation(&i.repo_relative_path, &i.span);
    let evidence = join(&i.evidence, ",");
    let head = concat7(
        "- ",
        i.path.as_str(),
        " [",
        i.kind.as_str(),
        "] ",
        i.visibility.as_str(),
        again.as_str(),
    );
    let tail = concat6(
        place.as_str(),
        " evidence=",
        evidence.as_str(),
        " (",
        i.record_id.as_str(),
        ")",
    );
    let r = concat2(head.as_str(), tail.as_str());
    assert(r@ =~= undocumented_line(*i));
    r
}

// ---------------------------------------------------------------------------
// Answers
// ---------------------------------------------------------------------------

/// What an answer after verifications does not claim.
pub const VERIFICATION_COVERAGE_DISCLAIMER: &'static str =
    "Rows report presence or absence of recorded verification evidence in this store only. Absence is a prioritization signal, never proof that code is untested, unverified in reality, unsafe, or broken; presence is a recorded link, never proof of correctness or that a test or proof passed.";

/// What an answer after documentation does not claim.
pub const UNDOCUMENTED_DISCLAIMER: &'static str =
    "Asserts the presence or absence of a recorded doc comment (///, /** */, or #[doc = \"...\"]) on externally-reachable public symbols. Never a claim about doc quality, accuracy, or completeness.";

/// How much public code is verified.
#[derive(Clone, Copy, Debug, PartialEq, Eq, Structural)]
pub struct CoverageCounts {
    pub symbols_in_scope: usize,
    pub covered: usize,
    pub uncovered: usize,
    pub verification_records_in_store: usize,
    pub verification_code_links_in_store: usize,
    pub covered_truncated: bool,
    pub uncovered_truncated: bool,
}

/// Which public code is verified.
pub struct CoverageReport {
    pub scope_outcome: ScopeOutcome,
    /// Whether the store records what verifies code at all.
    pub capability_present: bool,
    pub covered: Vec<CoverageItem>,
    pub uncovered: Vec<CoverageItem>,
    pub counts: CoverageCounts,
    pub diagnostics: Vec<FreshnessNote>,
}

/// Why a question was not answered, and with which exit code.
#[derive(Clone, Debug, PartialEq, Eq)]
pub struct CoverageFailure {
    pub code: &'static str,
    pub message: &'static str,
    pub exit_code: u8,
}

/// Answers a question after verifications: a scope that names no public code is refused.
pub fn coverage_answer(report: CoverageReport) -> (r: Result<CoverageReport, CoverageFailure>)
    ensures
        match scope_failure_code(report.scope_outcome) {
            Some(code) => r is Err && r->Err_0.code@ == code && r->Err_0.exit_code == 2
                && r->Err_0.message@
                == "no public code item in the selected store slice matches this scope handle"@,
            None => r == Ok::<CoverageReport, CoverageFailure>(report),
        },
{
    match scope_outcome_code(report.scope_outcome) {
        Some(code) => Err(
            CoverageFailure {
                code,
                message: "no public code item in the selected store slice matches this scope handle",
                exit_code: 2,
            },
        ),
        None => Ok(report),
    }
}

/// The lines of symbols that nothing verifies.
pub open spec fn uncovered_lines(items: Seq<CoverageItem>) -> Seq<Seq<char>> {
    items.map_values(|i: CoverageItem| uncovered_line(i))
}

fn uncovered_report(items: &Vec<CoverageItem>) -> (r: Vec<String>)
    ensures
        views(r@) == uncovered_lines(items@),
{
    let ghost all = uncovered_lines(items@);
    let mut r: Vec<String> = Vec::new();
    assert(views(r@) =~= all.take(0));
    let mut i: usize = 0;
    while i < items.len()
        invariant
            i <= items@.len(),
            all == uncovered_lines(items@),
            views(r@) == all.take(i as int),
        decreases items@.len() - i,
    {
        let line = uncovered_text(&items[i]);
        assert(all.take(i + 1) =~= all.take(i as int).push(line@));
        push_line(&mut r, line);
        i = i + 1;
    }
    assert(all.take(i as int) =~= all);
    r
}

/// The line of the counts.
pub open spec fn coverage_counts_line(c: CoverageCounts) -> Seq<char> {
    "counts: symbols_in_scope="@ + decimal_seq(c.symbols_in_scope as nat) + " covered="@
        + decimal_seq(c.covered as nat) + " uncovered="@ + decimal_seq(c.uncovered as nat)
        + " verification_records_in_store="@ + decimal_seq(
        c.verification_records_in_store as nat,
    ) + " verification_code_links_in_store="@ + decimal_seq(
        c.verification_code_links_in_store as nat,
    )
}

fn coverage_counts_text(c: CoverageCounts) -> (r: String)
    ensures
        r@ == coverage_counts_line(c),
{
    let head = concat6(
        "counts: symbols_in_scope=",
        decimal(c.symbols_in_scope as u64).as_str(),
        " covered=",
        decimal(c.covered as u64).as_str(),
        " uncovered=",
        decimal(c.uncovered as u64).as_str(),
    );
    let tail = concat4(
        " verification_records_in_store=",
        decimal(c.verification_records_in_store as u64).as_str(),
        " verification_code_links_in_store=",
        decimal(c.verification_code_links_in_store as u64).as_str(),
    );
    let r = concat2(head.as_str(), tail.as_str());
    assert(r@ =~= coverage_counts_line(c));
    r
}

/// The answer, line by line: what it is, what is verified, what is not, the counts, and
/// what is told beside them.
pub open spec fn coverage_lines(r: CoverageReport) -> Seq<Seq<char>> {
    let capability = verification_capability(r.capability_present);
    seq![
        "Verification coverage of the public API surface (recorded evidence only — never proof of correctness). Capability: "@
            + capability + "."@,
    ] + (if r.capability_present {
        Seq::empty()
    } else {
        seq![
            "# capability "@ + capability
                + ": no verification→code links recorded; the covered/uncovered partition is unavailable (absence is a prioritization signal, not proof code is untested or unsafe)."@,
        ]
    }) + seq!["covered:"@] + covered_lines(r.covered@, r.covered@.len() as int) + seq![
        "uncovered:"@,
    ] + uncovered_lines(r.uncovered@) + seq![coverage_counts_line(r.counts)] + note_lines(
        freshness_note_views(r.diagnostics@),
    )
}

impl CoverageReport {
    /// The answer, line by line.
    pub fn lines(&self) -> (r: Vec<String>)
        ensures
            views(r@) == coverage_lines(*self),
    {
        let capability = verification_capability_name(self.capability_present);
        let mut r: Vec<String> = Vec::new();
        push_line(
            &mut r,
            concat3(
                "Verification coverage of the public API surface (recorded evidence only — never proof of correctness). Capability: ",
                capability,
                ".",
            ),
        );
        if !self.capability_present {
            push_line(
                &mut r,
                concat3(
                    "# capability ",
                    capability,
                    ": no verification→code links recorded; the covered/uncovered partition is unavailable (absence is a prioritization signal, not proof code is untested or unsafe).",
                ),
            );
        }
        push_line(&mut r, "covered:".to_owned());
        append_lines(&mut r, covered_report(&self.covered));
        push_line(&mut r, "uncovered:".to_owned());
        append_lines(&mut r, uncovered_report(&self.uncovered));
        push_line(&mut r, coverage_counts_text(self.counts));
        append_lines(&mut r, note_texts(&self.diagnostics));
        assert(views(r@) =~= coverage_lines(*self));
        r
    }
}

/// How much public code is documented.
#[derive(Clone, Copy, Debug, PartialEq, Eq, Structural)]
pub struct UndocumentedCounts {
    pub considered: usize,
    pub documented: usize,
    pub undocumented: usize,
    pub reexports: usize,
    pub modules_excluded: usize,
    pub reexports_unresolved: usize,
    pub doc_capture_missing: usize,
}

/// Which public code is not documented.
pub struct UndocumentedReport {
    /// Whether the store records no documentation at all.
    pub capability_absent: bool,
    pub items: Vec<UndocumentedItem>,
    pub counts: UndocumentedCounts,
    pub diagnostics: Vec<FreshnessNote>,
    /// Which records were read.
    pub corpus: Corpus,
}

/// The line of the counts.
pub open spec fn undocumented_counts_line(c: UndocumentedCounts) -> Seq<char> {
    "counts: considered="@ + decimal_seq(c.considered as nat) + " documented="@ + decimal_seq(
        c.documented as nat,
    ) + " undocumented="@ + decimal_seq(c.undocumented as nat) + " reexports="@ + decimal_seq(
        c.reexports as nat,
    ) + " modules_excluded="@ + decimal_seq(c.modules_excluded as nat) + " reexports_unresolved="@
        + decimal_seq(c.reexports_unresolved as nat) + " doc_capture_missing="@ + decimal_seq(
        c.doc_capture_missing as nat,
    )
}

fn undocumented_counts_text(c: UndocumentedCounts) -> (r: String)
    ensures
        r@ == undocumented_counts_line(c),
{
    let head = concat6(
        "counts: considered=",
        decimal(c.considered as u64).as_str(),
        " documented=",
        decimal(c.documented as u64).as_str(),
        " undocumented=",
        decimal(c.undocumented as u64).as_str(),
    );
    let mid = concat4(
        " reexports=",
        decimal(c.reexports as u64).as_str(),
        " modules_excluded=",
        decimal(c.modules_excluded as u64).as_str(),
    );
    let tail = concat4(
        " reexports_unresolved=",
        decimal(c.reexports_unresolved as u64).as_str(),
        " doc_capture_missing=",
        decimal(c.doc_capture_missing as u64).as_str(),
    );
    let r = concat3(head.as_str(), mid.as_str(), tail.as_str());
    assert(r@ =~= undocumented_counts_line(c));
    r
}

/// The lines of public symbols without documentation.
pub open spec fn undocumented_item_lines(items: Seq<UndocumentedItem>) -> Seq<Seq<char>> {
    items.map_values(|i: UndocumentedItem| undocumented_line(i))
}

fn undocumented_item_texts(items: &Vec<UndocumentedItem>) -> (r: Vec<String>)
    ensures
        views(r@) == undocumented_item_lines(items@),
{
    let ghost all = undocumented_item_lines(items@);
    let mut r: Vec<String> = Vec::new();
    assert(views(r@) =~= all.take(0));
    let mut i: usize = 0;
    while i < items.len()
        invariant
            i <= items@.len(),
            all == undocumented_item_lines(items@),
            views(r@) == all.take(i as int),
        decreases items@.len() - i,
    {
        let line = undocumented_text(&items[i]);
        assert(all.take(i + 1) =~= all.take(i as int).push(line@));
        push_line(&mut r, line);
        i = i + 1;
    }
    assert(all.take(i as int) =~= all);
    r
}

/// The answer, line by line: what it is, the symbols, the counts, what is told beside
/// them, and which records were read.
pub open spec fn undocumented_lines(r: UndocumentedReport) -> Seq<Seq<char>> {
    seq![
        "Undocumented public API symbols (doc-comment presence only — never doc quality). Capability: "@
            + doc_capability(r.capability_absent) + "."@,
    ] + undocumented_item_lines(r.items@) + seq![undocumented_counts_line(r.counts)] + note_lines(
        freshness_note_views(r.diagnostics@),
    ) + seq!["corpus: "@ + corpus_mode_name(r.corpus.mode)]
}

impl UndocumentedReport {
    /// The answer, line by line.
    pub fn lines(&self) -> (r: Vec<String>)
        ensures
            views(r@) == undocumented_lines(*self),
    {
        let mut r: Vec<String> = Vec::new();
        push_line(
            &mut r,
            concat3(
                "Undocumented public API symbols (doc-comment presence only — never doc quality). Capability: ",
                doc_capability_name(self.capability_absent),
                ".",
            ),
        );
        append_lines(&mut r, undocumented_item_texts(&self.items));
        push_line(&mut r, undocumented_counts_text(self.counts));
        append_lines(&mut r, note_texts(&self.diagnostics));
        push_line(&mut r, concat2("corpus: ", self.corpus.mode.as_str()));
        assert(views(r@) =~= undocumented_lines(*self));
        r
    }
}

// ---------------------------------------------------------------------------
// Laws
// ---------------------------------------------------------------------------

/// The state at a commit holds nothing of another commit, nothing that was deleted and
/// has no commit, and no tombstone.
pub proof fn law_state_is_of_the_commit(s: Seq<GraphRecord>, sha: Seq<char>, n: int, i: int)
    requires
        0 <= n <= s.len(),
        0 <= i < state_at(s, sha, n).len(),
    ensures
        stands_at(s, sha, state_at(s, sha, n)[i]),
        !(state_at(s, sha, n)[i] is Tombstone),
        commit_of(state_at(s, sha, n)[i]) is Some ==> commit_of(state_at(s, sha, n)[i]) == Some(sha),
    decreases n,
{
    if n > 0 {
        if i < state_at(s, sha, n - 1).len() {
            law_state_is_of_the_commit(s, sha, n - 1, i);
        }
    }
}

} // verus!
