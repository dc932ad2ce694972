//! Symbols by name: what is found, and what is told.

use vstd::prelude::*;
use vstd::string::*;

use crate::collections::{
    arranges, contains_string, lemma_ranked_views, lemma_sorted_by, sort_ranked, sorted_by,
    weak_order, Ranked,
};
use crate::inventories::display_name;
use crate::ir::{GraphRecord, NodeKind, NodeRecord, SourceSpan};
use crate::reach::node_commit;
use crate::repository::{owner, RepositoryIndex};
use crate::text::{
    as_opt_str, concat2, concat3, concat4, concat6, concat7, decimal, decimal_seq, lemma_lex_three,
    lemma_opt_lex_three, lex_lt, opt_clone, opt_lex_order, opt_str_eq, opt_str_order, opt_str_view,
    opt_view, str_eq, str_lt, views, Order,
};

verus! {

/// A symbol that was found.
#[derive(Clone, Debug, PartialEq, Eq)]
pub struct SymbolResult {
    pub record_id: String,
    pub schema_version: u32,
    pub name: String,
    pub repo_relative_path: Option<String>,
    pub span: Option<SourceSpan>,
    pub visibility: Option<String>,
    pub signature: Option<String>,
    pub doc: Option<String>,
    pub git_commit: Option<String>,
    pub repository_id: Option<String>,
    pub repository: Option<String>,
    /// How fresh the store is, where that is told.
    pub freshness: Option<String>,
    /// Whether its file was read completely.
    pub extraction_completeness: String,
}

/// The view of a [`SymbolResult`].
#[verifier::ext_equal]
pub struct SymbolResultView {
    pub record_id: Seq<char>,
    pub schema_version: u32,
    pub name: Seq<char>,
    pub repo_relative_path: Option<Seq<char>>,
    pub span: Option<SourceSpan>,
    pub visibility: Option<Seq<char>>,
    pub signature: Option<Seq<char>>,
    pub doc: Option<Seq<char>>,
    pub git_commit: Option<Seq<char>>,
    pub repository_id: Option<Seq<char>>,
    pub repository: Option<Seq<char>>,
    pub freshness: Option<Seq<char>>,
    pub extraction_completeness: Seq<char>,
}

impl View for SymbolResult {
    type V = SymbolResultView;

    open spec fn view(&self) -> SymbolResultView {
        SymbolResultView {
            record_id: self.record_id@,
            schema_version: self.schema_version,
            name: self.name@,
            repo_relative_path: opt_view(self.repo_relative_path),
            span: self.span,
            visibility: opt_view(self.visibility),
            signature: opt_view(self.signature),
            doc: opt_view(self.doc),
            git_commit: opt_view(self.git_commit),
            repository_id: opt_view(self.repository_id),
            repository: opt_view(self.repository),
            freshness: opt_view(self.freshness),
            extraction_completeness: self.extraction_completeness@,
        }
    }
}

impl SymbolResult {
    /// A copy with the same view.
    pub fn copy(&self) -> (r: SymbolResult)
        ensures
            r@ == self@,
    {
        SymbolResult {
            record_id: self.record_id.clone(),
            schema_version: self.schema_version,
            name: self.name.clone(),
            repo_relative_path: opt_clone(&self.repo_relative_path),
            span: self.span,
            visibility: opt_clone(&self.visibility),
            signature: opt_clone(&self.signature),
            doc: opt_clone(&self.doc),
            git_commit: opt_clone(&self.git_commit),
            repository_id: opt_clone(&self.repository_id),
            repository: opt_clone(&self.repository),
            freshness: opt_clone(&self.freshness),
            extraction_completeness: self.extraction_completeness.clone(),
        }
    }
}

/// The views of a list.
pub open spec fn symbol_result_views(s: Seq<SymbolResult>) -> Seq<SymbolResultView> {
    s.map_values(|x: SymbolResult| x@)
}

// ---------------------------------------------------------------------------
// Rows
// ---------------------------------------------------------------------------

/// How completely the files were read: the paths of those that were not, and what is said
/// of each.
pub type Completeness = Vec<(String, String)>;

/// The views of what is said of files.
pub open spec fn completeness_views(s: Seq<(String, String)>) -> Seq<(Seq<char>, Seq<char>)> {
    s.map_values(|x: (String, String)| (x.0@, x.1@))
}

/// What is said of a file: what the first entry from the `i`-th on that lists it says, or
/// that it was read completely.
pub open spec fn completeness_from(
    table: Seq<(Seq<char>, Seq<char>)>,
    path: Seq<char>,
    i: int,
) -> Seq<char>
    decreases table.len() - i,
{
    if i < 0 || i >= table.len() {
        "complete"@
    } else if table[i].0 == path {
        table[i].1
    } else {
        completeness_from(table, path, i + 1)
    }
}

/// What is said of a file.
pub open spec fn completeness_of(
    table: Seq<(Seq<char>, Seq<char>)>,
    path: Option<Seq<char>>,
) -> Seq<char> {
    match path {
        Some(p) => completeness_from(table, p, 0),
        None => "complete"@,
    }
}

fn find_completeness(table: &Completeness, path: &Option<String>) -> (r: String)
    ensures
        r@ == completeness_of(completeness_views(table@), opt_view(*path)),
{
    let p = match path {
        Some(p) => p.as_str(),
        None => {
            return "complete".to_owned();
        },
    };
    let ghost t = completeness_views(table@);
    let mut i: usize = 0;
    while i < table.len()
        invariant
            i <= table@.len(),
            t == completeness_views(table@),
            opt_view(*path) == Some(p@),
            completeness_from(t, p@, 0) == completeness_from(t, p@, i as int),
        decreases table@.len() - i,
    {
        assert(t[i as int] == (table@[i as int].0@, table@[i as int].1@));
        if str_eq(table[i].0.as_str(), p) {
            return table[i].1.clone();
        }
        i = i + 1;
    }
    assert(t.len() == table@.len());
    "complete".to_owned()
}

/// A name, or nothing.
pub open spec fn name_or_none(name: Option<Seq<char>>) -> Seq<char> {
    match name {
        Some(x) => x,
        None => ""@,
    }
}

/// The row of a symbol.
pub open spec fn result_row(
    n: NodeRecord,
    own: Map<Seq<char>, Seq<char>>,
    displays: Map<Seq<char>, Seq<char>>,
    table: Seq<(Seq<char>, Seq<char>)>,
) -> SymbolResultView {
    SymbolResultView {
        record_id: n.id@,
        schema_version: n.schema_version,
        name: name_or_none(opt_view(n.name)),
        repo_relative_path: opt_view(n.repo_relative_path),
        span: n.span,
        visibility: opt_view(n.visibility),
        signature: opt_view(n.signature),
        doc: opt_view(n.doc),
        git_commit: node_commit(n),
        repository_id: owner(own, n.id@),
        repository: display_name(displays, owner(own, n.id@)),
        freshness: None,
        extraction_completeness: completeness_of(table, opt_view(n.repo_relative_path)),
    }
}

fn opt_owned(s: Option<&str>) -> (r: Option<String>)
    ensures
        opt_view(r) == opt_str_view(s),
{
    match s {
        Some(x) => Some(x.to_owned()),
        None => None,
    }
}

fn make_row(n: &NodeRecord, index: &RepositoryIndex, table: &Completeness) -> (r: SymbolResult)
    ensures
        r@ == result_row(*n, index.owners(), index.displays(), completeness_views(table@)),
{
    let repository_id = index.owner_of(n.id.as_str());
    let repository = match repository_id {
        Some(x) => index.display_of(x),
        None => None,
    };
    SymbolResult {
        record_id: n.id.clone(),
        schema_version: n.schema_version,
        name: match &n.name {
            Some(x) => x.clone(),
            None => "".to_owned(),
        },
        repo_relative_path: opt_clone(&n.repo_relative_path),
        span: n.span,
        visibility: opt_clone(&n.visibility),
        signature: opt_clone(&n.signature),
        doc: opt_clone(&n.doc),
        git_commit: match &n.temporal {
            Some(t) => Some(t.git_commit.clone()),
            None => None,
        },
        repository_id: opt_owned(repository_id),
        repository: opt_owned(repository),
        freshness: None,
        extraction_completeness: find_completeness(table, &n.repo_relative_path),
    }
}

/// The row of a record, where it is a symbol.
pub fn symbol_row(r: &GraphRecord, index: &RepositoryIndex, table: &Completeness) -> (row: Option<
    SymbolResult,
>)
    ensures
        match row {
            Some(x) => r is Node && r->Node_0.kind == NodeKind::Symbol && x@ == result_row(
                r->Node_0,
                index.owners(),
                index.displays(),
                completeness_views(table@),
            ),
            None => !(r is Node && r->Node_0.kind == NodeKind::Symbol),
        },
{
    match r {
        GraphRecord::Node(n) => if n.kind == NodeKind::Symbol {
            Some(make_row(n, index, table))
        } else {
            None
        },
        _ => None,
    }
}

/// Whether a symbol is looked at: it is of a commit, or was not deleted.
pub open spec fn looked_at(n: NodeRecord, deleted: Seq<Seq<char>>) -> bool {
    n.kind == NodeKind::Symbol && (n.temporal is Some || !deleted.contains(n.id@))
}

/// Whether the repository of a symbol is the one asked for, where one is.
pub open spec fn of_selected(
    own: Map<Seq<char>, Seq<char>>,
    selected: Option<Seq<char>>,
    id: Seq<char>,
) -> bool {
    match selected {
        Some(x) => owner(own, id) == Some(x),
        None => true,
    }
}

/// Which names are asked for.
pub enum NameQuestion<'a> {
    /// This name.
    Exactly(&'a str),
    /// One of these names.
    OneOf(&'a Vec<String>),
}

/// The view of a [`NameQuestion`].
pub enum QuestionView {
    Exactly(Seq<char>),
    OneOf(Seq<Seq<char>>),
}

impl<'a> View for NameQuestion<'a> {
    type V = QuestionView;

    open spec fn view(&self) -> QuestionView {
        match self {
            NameQuestion::Exactly(s) => QuestionView::Exactly(s@),
            NameQuestion::OneOf(v) => QuestionView::OneOf(views(v@)),
        }
    }
}

/// Whether a name is asked for.
pub open spec fn asked_for(q: QuestionView, name: Option<Seq<char>>) -> bool {
    match name {
        Some(x) => match q {
            QuestionView::Exactly(y) => x == y,
            QuestionView::OneOf(ys) => ys.contains(x),
        },
        None => false,
    }
}

fn is_asked_for(q: &NameQuestion<'_>, name: &Option<String>) -> (r: bool)
    ensures
        r == asked_for(q@, opt_view(*name)),
{
    match name {
        Some(x) => match q {
            NameQuestion::Exactly(y) => str_eq(x.as_str(), y),
            NameQuestion::OneOf(ys) => contains_string(ys, x.as_str()),
        },
        None => false,
    }
}

/// Whether a record is a symbol in question.
pub open spec fn in_question(
    r: GraphRecord,
    q: QuestionView,
    deleted: Seq<Seq<char>>,
    own: Map<Seq<char>, Seq<char>>,
    selected: Option<Seq<char>>,
) -> bool {
    match r {
        GraphRecord::Node(n) => looked_at(n, deleted) && asked_for(q, opt_view(n.name))
            && of_selected(own, selected, n.id@),
        _ => false,
    }
}

/// The rows of the symbols in question among the first `n` records.
pub open spec fn rows_upto(
    s: Seq<GraphRecord>,
    q: QuestionView,
    deleted: Seq<Seq<char>>,
    own: Map<Seq<char>, Seq<char>>,
    displays: Map<Seq<char>, Seq<char>>,
    selected: Option<Seq<char>>,
    table: Seq<(Seq<char>, Seq<char>)>,
    n: int,
) -> Seq<SymbolResultView>
    decreases n,
{
    if n <= 0 {
        Seq::empty()
    } else {
        let rest = rows_upto(s, q, deleted, own, displays, selected, table, n - 1);
        if in_question(s[n - 1], q, deleted, own, selected) {
            rest.push(result_row(s[n - 1]->Node_0, own, displays, table))
        } else {
            rest
        }
    }
}

fn is_in_question(
    r: &GraphRecord,
    q: &NameQuestion<'_>,
    deleted: &Vec<String>,
    index: &RepositoryIndex,
    selected: Option<&str>,
) -> (b: bool)
    ensures
        b == in_question(*r, q@, views(deleted@), index.owners(), opt_str_view(selected)),
{
    match r {
        GraphRecord::Node(n) => {
            n.kind == NodeKind::Symbol && is_asked_for(q, &n.name) && (n.temporal.is_some()
                || !contains_string(deleted, n.id.as_str())) && match selected {
                Some(_) => opt_str_eq(index.owner_of(n.id.as_str()), selected),
                None => true,
            }
        },
        _ => false,
    }
}

fn collect_rows(
    records: &Vec<GraphRecord>,
    q: &NameQuestion<'_>,
    deleted: &Vec<String>,
    index: &RepositoryIndex,
    selected: Option<&str>,
    table: &Completeness,
) -> (r: Vec<SymbolResult>)
    ensures
        symbol_result_views(r@) == rows_upto(
            records@,
            q@,
            views(deleted@),
            index.owners(),
            index.displays(),
            opt_str_view(selected),
            completeness_views(table@),
            records@.len() as int,
        ),
{
    let mut r: Vec<SymbolResult> = Vec::new();
    let mut i: usize = 0;
    assert(symbol_result_views(r@) =~= Seq::empty());
    while i < records.len()
        invariant
            i <= records@.len(),
            symbol_result_views(r@) == rows_upto(
                records@,
                q@,
                views(deleted@),
                index.owners(),
                index.displays(),
                opt_str_view(selected),
                completeness_views(table@),
                i as int,
            ),
        decreases records@.len() - i,
    {
        if is_in_question(&records[i], q, deleted, index, selected) {
            if let Some(x) = symbol_row(&records[i], index, table) {
                let ghost before = r@;
                r.push(x);
                assert(symbol_result_views(r@) =~= symbol_result_views(before).push(x@));
            }
        }
        i = i + 1;
    }
    r
}

// ---------------------------------------------------------------------------
// Order
// ---------------------------------------------------------------------------

/// The line on which a row begins.
pub open spec fn line_of(r: SymbolResultView) -> Option<u64> {
    match r.span {
        Some(s) => Some(s.start_line),
        None => None,
    }
}

/// Whether one row comes before another: by line, what has none first, then by
/// identifier.
pub open spec fn line_before(a: SymbolResultView, b: SymbolResultView) -> bool {
    match (line_of(a), line_of(b)) {
        (None, Some(_)) => true,
        (Some(_), None) => false,
        (Some(x), Some(y)) => x < y || (x == y && lex_lt(a.record_id, b.record_id)),
        (None, None) => lex_lt(a.record_id, b.record_id),
    }
}

/// Whether one row comes before another: by path, what has none first, then by line and
/// by identifier.
pub open spec fn path_before(a: SymbolResultView, b: SymbolResultView) -> bool {
    match opt_lex_order(a.repo_relative_path, b.repo_relative_path) {
        Order::Less => true,
        Order::Greater => false,
        Order::Equal => line_before(a, b),
    }
}

fn comes_by_line(a: &SymbolResult, b: &SymbolResult) -> (r: bool)
    ensures
        r == line_before(a@, b@),
{
    let smaller = str_lt(a.record_id.as_str(), b.record_id.as_str());
    match (a.span, b.span) {
        (None, Some(_)) => true,
        (Some(_), None) => false,
        (Some(x), Some(y)) => x.start_line < y.start_line || (x.start_line == y.start_line
            && smaller),
        (None, None) => smaller,
    }
}

/// Coming before another row by line and identifier is a strict weak order.
pub proof fn lemma_line_order()
    ensures
        weak_order(|a: SymbolResultView, b: SymbolResultView| line_before(a, b)),
{
    let lt = |a: SymbolResultView, b: SymbolResultView| line_before(a, b);
    assert forall|a: SymbolResultView, b: SymbolResultView| #[trigger] lt(a, b) implies !lt(b, a) by {
        lemma_lex_three(a.record_id, b.record_id, a.record_id);
    }
    assert forall|a: SymbolResultView, b: SymbolResultView, c: SymbolResultView|
        !(#[trigger] lt(a, b)) && !(#[trigger] lt(b, c)) implies !lt(a, c) by {
        lemma_lex_three(a.record_id, b.record_id, c.record_id);
    }
}

/// Coming before another row by path, line and identifier is a strict weak order.
pub proof fn lemma_path_order()
    ensures
        weak_order(|a: SymbolResultView, b: SymbolResultView| path_before(a, b)),
{
    let lt = |a: SymbolResultView, b: SymbolResultView| path_before(a, b);
    assert forall|a: SymbolResultView, b: SymbolResultView| #[trigger] lt(a, b) implies !lt(b, a) by {
        lemma_lex_three(a.record_id, b.record_id, a.record_id);
        lemma_opt_lex_three(a.repo_relative_path, b.repo_relative_path, a.repo_relative_path);
    }
    assert forall|a: SymbolResultView, b: SymbolResultView, c: SymbolResultView|
        !(#[trigger] lt(a, b)) && !(#[trigger] lt(b, c)) implies !lt(a, c) by {
        lemma_lex_three(a.record_id, b.record_id, c.record_id);
        lemma_opt_lex_three(a.repo_relative_path, b.repo_relative_path, c.repo_relative_path);
    }
}

impl Ranked for SymbolResult {
    open spec fn before(self, other: Self) -> bool {
        line_before(self@, other@)
    }

    fn is_before(&self, other: &Self) -> (r: bool) {
        comes_by_line(self, other)
    }
}

/// A row that is sorted by its path.
pub struct PathOrdered {
    pub row: SymbolResult,
}

impl Ranked for PathOrdered {
    open spec fn before(self, other: Self) -> bool {
        path_before(self.row@, other.row@)
    }

    fn is_before(&self, other: &Self) -> (r: bool) {
        match opt_str_order(
            as_opt_str(&self.row.repo_relative_path),
            as_opt_str(&other.row.repo_relative_path),
        ) {
            Order::Less => true,
            Order::Greater => false,
            Order::Equal => comes_by_line(&self.row, &other.row),
        }
    }
}

/// The symbols with the name, in the order of their lines.
pub fn query_symbol_all(
    records: &Vec<GraphRecord>,
    name: &str,
    deleted: &Vec<String>,
    index: &RepositoryIndex,
    selected: Option<&str>,
    table: &Completeness,
) -> (r: Vec<SymbolResult>)
    ensures
        symbol_result_views(r@) == sorted_by(
            rows_upto(
                records@,
                QuestionView::Exactly(name@),
                views(deleted@),
                index.owners(),
                index.displays(),
                opt_str_view(selected),
                completeness_views(table@),
                records@.len() as int,
            ),
            |a: SymbolResultView, b: SymbolResultView| line_before(a, b),
        ),
        arranges(
            symbol_result_views(r@),
            rows_upto(
                records@,
                QuestionView::Exactly(name@),
                views(deleted@),
                index.owners(),
                index.displays(),
                opt_str_view(selected),
                completeness_views(table@),
                records@.len() as int,
            ),
            |a: SymbolResultView, b: SymbolResultView| line_before(a, b),
        ),
{
    let q = NameQuestion::Exactly(name);
    let all = collect_rows(records, &q, deleted, index, selected, table);
    let ghost before = all@;
    let ghost f = |x: SymbolResult| x@;
    let ghost lt = |a: SymbolResultView, b: SymbolResultView| line_before(a, b);
    let r = sort_ranked(all);
    proof {
        lemma_ranked_views(before, f, lt);
        assert(symbol_result_views(before) =~= before.map_values(f));
        assert(symbol_result_views(r@) =~= r@.map_values(f));
        lemma_line_order();
        lemma_sorted_by(symbol_result_views(before), lt);
    }
    r
}

/// The symbols with one of the names, in the order of their paths and lines.
pub fn query_symbols_matching(
    records: &Vec<GraphRecord>,
    names: &Vec<String>,
    deleted: &Vec<String>,
    index: &RepositoryIndex,
    selected: Option<&str>,
    table: &Completeness,
) -> (r: Vec<SymbolResult>)
    ensures
        symbol_result_views(r@) == sorted_by(
            rows_upto(
                records@,
                QuestionView::OneOf(views(names@)),
                views(deleted@),
                index.owners(),
                index.displays(),
                opt_str_view(selected),
                completeness_views(table@),
                records@.len() as int,
            ),
            |a: SymbolResultView, b: SymbolResultView| path_before(a, b),
        ),
        arranges(
            symbol_result_views(r@),
            rows_upto(
                records@,
                QuestionView::OneOf(views(names@)),
                views(deleted@),
                index.owners(),
                index.displays(),
                opt_str_view(selected),
                completeness_views(table@),
                records@.len() as int,
            ),
            |a: SymbolResultView, b: SymbolResultView| path_before(a, b),
        ),
{
    let q = NameQuestion::OneOf(names);
    let all = collect_rows(records, &q, deleted, index, selected, table);
    let ghost before = all@;
    let ghost f = |x: PathOrdered| x.row@;
    let ghost lt = |a: SymbolResultView, b: SymbolResultView| path_before(a, b);
    let mut ordered: Vec<PathOrdered> = Vec::new();
    for row in it: all
        invariant
            it.seq() == before,
            ordered@.len() == it.index(),
            forall|k: int| 0 <= k < ordered@.len() ==> (#[trigger] ordered@[k]).row == before[k],
    {
        ordered.push(PathOrdered { row });
    }
    let ghost mid = ordered@;
    let sorted = sort_ranked(ordered);
    let ghost done = sorted@;
    proof {
        lemma_ranked_views(mid, f, lt);
        assert(symbol_result_views(before) =~= mid.map_values(f));
        lemma_path_order();
        lemma_sorted_by(symbol_result_views(before), lt);
    }
    let mut r: Vec<SymbolResult> = Vec::new();
    for x in it: sorted
        invariant
            it.seq() == done,
            r@.len() == it.index(),
            forall|k: int| 0 <= k < r@.len() ==> (#[trigger] r@[k]) == done[k].row,
    {
        r.push(x.row);
    }
    assert(symbol_result_views(r@) =~= done.map_values(f));
    r
}

// ---------------------------------------------------------------------------
// At a commit
// ---------------------------------------------------------------------------

/// What is picked of the records that were found at a commit.
pub enum PickView {
    Found(int),
    Nothing,
    AmbiguousRepository,
}

/// The place of the first record of the repository among those from the `i`-th on.
pub open spec fn first_owned(
    ids: Seq<Seq<char>>,
    own: Map<Seq<char>, Seq<char>>,
    repo: Seq<char>,
    i: int,
) -> Option<int>
    decreases ids.len() - i,
{
    if i < 0 || i >= ids.len() {
        None
    } else if owner(own, ids[i]) == Some(repo) {
        Some(i)
    } else {
        first_owned(ids, own, repo, i + 1)
    }
}

/// What is picked of the records that were found at a commit: the first of the repository
/// asked for; where none is, the first of all, unless they belong to more than one.
pub open spec fn picked(
    ids: Seq<Seq<char>>,
    own: Map<Seq<char>, Seq<char>>,
    selected: Option<Seq<char>>,
) -> PickView {
    match selected {
        Some(x) => match first_owned(ids, own, x, 0) {
            Some(i) => PickView::Found(i),
            None => PickView::Nothing,
        },
        None => if ids.len() == 0 {
            PickView::Nothing
        } else if exists|i: int|
            0 <= i < ids.len() && owner(own, #[trigger] ids[i]) != owner(own, ids[0]) {
            PickView::AmbiguousRepository
        } else {
            PickView::Found(0)
        },
    }
}

/// What is picked of the records that were found at a commit.
#[derive(Clone, Copy, Debug, PartialEq, Eq, Structural)]
pub enum Pick {
    /// The record at this place.
    Found(usize),
    /// None.
    Nothing,
    /// None, since they belong to more than one repository.
    AmbiguousRepository,
}

/// What a pick shows.
pub open spec fn pick_view(p: Pick) -> PickView {
    match p {
        Pick::Found(i) => PickView::Found(i as int),
        Pick::Nothing => PickView::Nothing,
        Pick::AmbiguousRepository => PickView::AmbiguousRepository,
    }
}

/// Picks one of the records that were found at a commit.
pub fn pick_at_commit(ids: &Vec<String>, index: &RepositoryIndex, selected: Option<&str>) -> (r:
    Pick)
    ensures
        pick_view(r) == picked(views(ids@), index.owners(), opt_str_view(selected)),
{
    let ghost v = views(ids@);
    let ghost own = index.owners();
    assert(v.len() == ids@.len());
    match selected {
        Some(x) => {
            let mut i: usize = 0;
            while i < ids.len()
                invariant
                    i <= ids@.len(),
                    v == views(ids@),
                    own == index.owners(),
                    opt_str_view(selected) == Some(x@),
                    first_owned(v, own, x@, 0) == first_owned(v, own, x@, i as int),
                decreases ids@.len() - i,
            {
                assert(v[i as int] == ids@[i as int]@);
                if opt_str_eq(index.owner_of(ids[i].as_str()), Some(x)) {
                    return Pick::Found(i);
                }
                i = i + 1;
            }
            Pick::Nothing
        },
        None => {
            if ids.len() == 0 {
                return Pick::Nothing;
            }
            let first = index.owner_of(ids[0].as_str());
            assert(v[0] == ids@[0]@);
            let mut i: usize = 0;
            while i < ids.len()
                invariant
                    i <= ids@.len(),
                    ids@.len() > 0,
                    v == views(ids@),
                    own == index.owners(),
                    selected is None,
                    opt_str_view(first) == owner(own, v[0]),
                    forall|k: int| 0 <= k < i ==> owner(own, #[trigger] v[k]) == owner(own, v[0]),
                decreases ids@.len() - i,
            {
                assert(v[i as int] == ids@[i as int]@);
                if !opt_str_eq(index.owner_of(ids[i].as_str()), first) {
                    return Pick::AmbiguousRepository;
                }
                i = i + 1;
            }
            Pick::Found(0)
        },
    }
}

// ---------------------------------------------------------------------------
// Text
// ---------------------------------------------------------------------------

/// What is said of freshness.
pub open spec fn freshness_text(f: Option<Seq<char>>) -> Seq<char> {
    match f {
        Some(x) => " (freshness: "@ + x + ")"@,
        None => ""@,
    }
}

fn make_freshness(f: &Option<String>) -> (r: String)
    ensures
        r@ == freshness_text(opt_view(*f)),
{
    match f {
        Some(x) => concat3(" (freshness: ", x.as_str(), ")"),
        None => "".to_owned(),
    }
}

/// A line that is there where there is something to say.
pub open spec fn detail_line(label: Seq<char>, s: Option<Seq<char>>) -> Seq<char> {
    match s {
        Some(x) => label + x,
        None => ""@,
    }
}

fn make_detail(label: &str, s: &Option<String>) -> (r: String)
    ensures
        r@ == detail_line(label@, opt_view(*s)),
{
    match s {
        Some(x) => concat2(label, x.as_str()),
        None => "".to_owned(),
    }
}

/// The first line of a symbol.
pub open spec fn symbol_head(r: SymbolResultView) -> Seq<char> {
    r.name + " (Symbol) @ "@ + (match r.repo_relative_path {
        Some(p) => p,
        None => "(unknown)"@,
    }) + ":"@ + decimal_seq(
        (match r.span {
            Some(s) => s.start_line as nat,
            None => 0nat,
        }),
    ) + (match r.git_commit {
        Some(c) => " ["@ + c + "]"@,
        None => ""@,
    }) + freshness_text(r.freshness) + " (extraction: "@ + r.extraction_completeness + ")"@
}

/// What is told of a symbol.
pub open spec fn symbol_text(r: SymbolResultView) -> Seq<char> {
    symbol_head(r) + detail_line("\n  visibility: "@, r.visibility) + detail_line(
        "\n  signature: "@,
        r.signature,
    ) + detail_line("\n  doc: "@, r.doc)
}

impl SymbolResult {
    /// What is told of the symbol.
    pub fn as_text(&self) -> (r: String)
        ensures
            r@ == symbol_text(self@),
    {
        let path = match &self.repo_relative_path {
            Some(p) => p.as_str(),
            None => "(unknown)",
        };
        let line: u64 = match &self.span {
            Some(s) => s.start_line,
            None => 0,
        };
        let n = decimal(line);
        let commit = match &self.git_commit {
            Some(c) => concat3(" [", c.as_str(), "]"),
            None => "".to_owned(),
        };
        let fresh = make_freshness(&self.freshness);
        let head = concat7(
            self.name.as_str(),
            " (Symbol) @ ",
            path,
            ":",
            n.as_str(),
            commit.as_str(),
            fresh.as_str(),
        );
        let head = concat4(
            head.as_str(),
            " (extraction: ",
            self.extraction_completeness.as_str(),
            ")",
        );
        proof {
            assert(head@ =~= symbol_head(self@));
        }
        let visibility = make_detail("\n  visibility: ", &self.visibility);
        let signature = make_detail("\n  signature: ", &self.signature);
        let doc = make_detail("\n  doc: ", &self.doc);
        concat4(head.as_str(), visibility.as_str(), signature.as_str(), doc.as_str())
    }
}

/// Who changed a symbol last.
#[derive(Clone, Debug, PartialEq, Eq)]
pub struct WhoResult {
    pub symbol_name: String,
    pub author_name: Option<String>,
    pub author_email: Option<String>,
    pub commit_sha: String,
    pub valid_time: String,
    pub repo_relative_path: Option<String>,
    pub freshness: Option<String>,
    pub corpus_mode: String,
}

/// An author, by name and address as far as they are known.
pub open spec fn author_text(name: Option<Seq<char>>, email: Option<Seq<char>>) -> Seq<char> {
    match (name, email) {
        (Some(n), Some(e)) => n + " <"@ + e + ">"@,
        (Some(n), None) => n,
        (None, Some(e)) => "<"@ + e + ">"@,
        (None, None) => "unknown"@,
    }
}

/// What is told of who changed a symbol last.
pub open spec fn who_text(w: WhoResult) -> Seq<char> {
    w.symbol_name@ + " last changed by "@ + author_text(
        opt_view(w.author_name),
        opt_view(w.author_email),
    ) + " in commit "@ + w.commit_sha@ + " @ "@ + w.valid_time@ + " ("@ + (match opt_view(
        w.repo_relative_path,
    ) {
        Some(p) => p,
        None => "(unknown)"@,
    }) + ")"@ + freshness_text(opt_view(w.freshness)) + "\ncorpus: "@ + w.corpus_mode@
}

impl WhoResult {
    /// What is told of who changed a symbol last.
    pub fn as_text(&self) -> (r: String)
        ensures
            r@ == who_text(*self),
    {
        let author = match (&self.author_name, &self.author_email) {
            (Some(n), Some(e)) => concat4(n.as_str(), " <", e.as_str(), ">"),
            (Some(n), None) => n.clone(),
            (None, Some(e)) => concat3("<", e.as_str(), ">"),
            (None, None) => "unknown".to_owned(),
        };
        let path = match &self.repo_relative_path {
            Some(p) => p.as_str(),
            None => "(unknown)",
        };
        let fresh = make_freshness(&self.freshness);
        let head = concat7(
            self.symbol_name.as_str(),
            " last changed by ",
            author.as_str(),
            " in commit ",
            self.commit_sha.as_str(),
            " @ ",
            self.valid_time.as_str(),
        );
        let tail = concat6(
            " (",
            path,
            ")",
            fresh.as_str(),
            "\ncorpus: ",
            self.corpus_mode.as_str(),
        );
        let r = concat2(head.as_str(), tail.as_str());
        assert(r@ =~= who_text(*self));
        r
    }
}

// ---------------------------------------------------------------------------
// Laws
// ---------------------------------------------------------------------------

/// Every symbol that is told has a name that was asked for, and belongs to the repository
/// that was asked for, where one was.
pub proof fn law_only_what_is_asked_for_is_found(
    s: Seq<GraphRecord>,
    q: QuestionView,
    deleted: Seq<Seq<char>>,
    own: Map<Seq<char>, Seq<char>>,
    displays: Map<Seq<char>, Seq<char>>,
    selected: Option<Seq<char>>,
    table: Seq<(Seq<char>, Seq<char>)>,
    n: int,
    i: int,
)
    requires
        0 <= n <= s.len(),
        0 <= i < rows_upto(s, q, deleted, own, displays, selected, table, n).len(),
    ensures
        ({
            let row = rows_upto(s, q, deleted, own, displays, selected, table, n)[i];
            &&& asked_for(q, Some(row.name))
            &&& selected is Some ==> row.repository_id == selected
            &&& row.git_commit is None ==> !deleted.contains(row.record_id)
        }),
    decreases n,
{
    if n > 0 {
        let rest = rows_upto(s, q, deleted, own, displays, selected, table, n - 1);
        if i < rest.len() {
            law_only_what_is_asked_for_is_found(
                s,
                q,
                deleted,
                own,
                displays,
                selected,
                table,
                n - 1,
                i,
            );
        }
    }
}

/// Without a repository, a symbol at a commit is picked only where all that were found
/// belong to one repository, or none of them to any.
pub proof fn law_no_repository_is_guessed(
    ids: Seq<Seq<char>>,
    own: Map<Seq<char>, Seq<char>>,
    i: int,
    j: int,
)
    requires
        picked(ids, own, None) is Found,
        0 <= i < ids.len(),
        0 <= j < ids.len(),
    ensures
        owner(own, ids[i]) == owner(own, ids[j]),
{
}

} // verus!
