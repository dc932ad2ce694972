//! How fresh the verifications of code are: what is asked, and what is told.

use vstd::prelude::*;
use vstd::string::*;

use crate::collections::{contains_string, StrSet};
use crate::commit_view::{in_scope, record_in_scope};
use crate::evidence_freshness::{in_order, lemma_in_order};
use crate::ir::{GraphRecord, NodeKind, NodeRecord};
use crate::repository::{owner, RepositoryIndex};
use crate::text::{
    append_lines, concat2, concat4, concat5, concat6, concat7, contains_char, decimal, decimal_seq,
    has_prefix, opt_clone, opt_is, opt_str_view, opt_view, push_line, starts_with, str_eq, views,
};

verus! {

/// The verdict on one citation.
#[derive(Clone, Copy, Debug, PartialEq, Eq, Structural)]
pub enum CitationVerdict {
    /// What is cited is as it was.
    Current,
    /// What is cited has changed.
    Stale,
    /// What is cited is gone.
    Unresolved,
    /// There is nothing to compare with.
    Unanchored,
}

/// The wire name of a verdict.
pub open spec fn citation_verdict_name(v: CitationVerdict) -> Seq<char> {
    match v {
        CitationVerdict::Current => "current"@,
        CitationVerdict::Stale => "stale"@,
        CitationVerdict::Unresolved => "unresolved"@,
        CitationVerdict::Unanchored => "unanchored"@,
    }
}

impl CitationVerdict {
    /// The wire name of the verdict.
    pub fn as_str(self) -> (r: &'static str)
        ensures
            r@ == citation_verdict_name(self),
    {
        match self {
            CitationVerdict::Current => "current",
            CitationVerdict::Stale => "stale",
            CitationVerdict::Unresolved => "unresolved",
            CitationVerdict::Unanchored => "unanchored",
        }
    }
}

/// A citation of code by a verification, and the verdict on it.
#[derive(Clone, Debug, PartialEq, Eq)]
pub struct VerificationFreshnessEntry {
    pub verification_record_id: String,
    pub verification_kind: String,
    pub status: Option<String>,
    pub verdict: CitationVerdict,
    pub relation: String,
    pub target_record_id: Option<String>,
    pub repo_relative_path: Option<String>,
}

/// The view of a [`VerificationFreshnessEntry`].
#[verifier::ext_equal]
pub struct CitationView {
    pub verification_record_id: Seq<char>,
    pub verification_kind: Seq<char>,
    pub status: Option<Seq<char>>,
    pub verdict: CitationVerdict,
    pub relation: Seq<char>,
    pub target_record_id: Option<Seq<char>>,
    pub repo_relative_path: Option<Seq<char>>,
}

impl View for VerificationFreshnessEntry {
    type V = CitationView;

    open spec fn view(&self) -> CitationView {
        CitationView {
            verification_record_id: self.verification_record_id@,
            verification_kind: self.verification_kind@,
            status: opt_view(self.status),
            verdict: self.verdict,
            relation: self.relation@,
            target_record_id: opt_view(self.target_record_id),
            repo_relative_path: opt_view(self.repo_relative_path),
        }
    }
}

impl VerificationFreshnessEntry {
    /// A copy with the same view.
    pub fn copy(&self) -> (r: VerificationFreshnessEntry)
        ensures
            r@ == self@,
    {
        VerificationFreshnessEntry {
            verification_record_id: self.verification_record_id.clone(),
            verification_kind: self.verification_kind.clone(),
            status: opt_clone(&self.status),
            verdict: self.verdict,
            relation: self.relation.clone(),
            target_record_id: opt_clone(&self.target_record_id),
            repo_relative_path: opt_clone(&self.repo_relative_path),
        }
    }
}

/// The views of a list.
pub open spec fn verification_freshness_entry_views(s: Seq<VerificationFreshnessEntry>) -> Seq<CitationView> {
    s.map_values(|x: VerificationFreshnessEntry| x@)
}

/// Something that is told beside the verdicts.
#[derive(Clone, Debug, PartialEq, Eq)]
pub struct FreshnessNote {
    pub code: String,
    pub detail: String,
}

/// The view of a [`FreshnessNote`].
#[verifier::ext_equal]
pub struct NoteView {
    pub code: Seq<char>,
    pub detail: Seq<char>,
}

impl View for FreshnessNote {
    type V = NoteView;

    open spec fn view(&self) -> NoteView {
        NoteView {
            code: self.code@,
            detail: self.detail@,
        }
    }
}

impl FreshnessNote {
    /// A copy with the same view.
    pub fn copy(&self) -> (r: FreshnessNote)
        ensures
            r@ == self@,
    {
        FreshnessNote {
            code: self.code.clone(),
            detail: self.detail.clone(),
        }
    }
}

/// The views of a list.
pub open spec fn freshness_note_views(s: Seq<FreshnessNote>) -> Seq<NoteView> {
    s.map_values(|x: FreshnessNote| x@)
}

// ---------------------------------------------------------------------------
// Paths
// ---------------------------------------------------------------------------

/// A path without the slashes at its end.
pub open spec fn without_slashes(s: Seq<char>) -> Seq<char>
    decreases s.len(),
{
    if s.len() > 0 && s.last() == '/' {
        without_slashes(s.drop_last())
    } else {
        s
    }
}

/// Whether a path is the prefix, or lies in the directory that the prefix names.
pub open spec fn lies_under(path: Seq<char>, prefix: Seq<char>) -> bool {
    let p = without_slashes(prefix);
    path == p || has_prefix(path, p + "/"@)
}

/// Whether a path is the prefix, or lies in the directory that the prefix names.
pub fn path_is_under_prefix(path: &str, prefix: &str) -> (r: bool)
    ensures
        r == lies_under(path@, prefix@),
{
    let p = strip_slashes(prefix);
    let dir = concat2(p.as_str(), "/");
    str_eq(path, p.as_str()) || starts_with(path, dir.as_str())
}

fn strip_slashes(s: &str) -> (r: String)
    ensures
        r@ == without_slashes(s@),
{
    let v = crate::text::chars_of(s);
    let mut n: usize = v.len();
    assert(s@.take(n as int) =~= s@);
    while n > 0 && v[n - 1] == '/'
        invariant
            n <= v@.len(),
            v@ == s@,
            without_slashes(s@) == without_slashes(s@.take(n as int)),
        decreases n,
    {
        assert(s@.take(n as int).last() == '/');
        assert(s@.take(n as int).drop_last() =~= s@.take(n - 1));
        n = n - 1;
    }
    proof {
        if n > 0 {
            assert(s@.take(n as int).last() == v@[n - 1]);
        }
    }
    let r = crate::text::string_of(&v, 0, n);
    assert(r@ =~= s@.take(n as int));
    r
}

// ---------------------------------------------------------------------------
// Scopes
// ---------------------------------------------------------------------------

/// What a scope was resolved to.
#[derive(Clone, Debug, PartialEq, Eq)]
pub enum ScopeResolution {
    /// No scope was given.
    All,
    /// These code items; and, where the scope is a path, what lies under it.
    Matched {
        ids: Vec<String>,
        path_prefix: Option<String>,
    },
    /// The name names more than one live code item.
    Ambiguous { candidates: Vec<String> },
    /// No code item lies there.
    NotFoundPath,
    /// No code item is named so.
    NoMatch,
}

/// The view of a [`ScopeResolution`].
#[verifier::ext_equal]
pub enum ScopeView {
    All,
    Matched { ids: Seq<Seq<char>>, path_prefix: Option<Seq<char>> },
    Ambiguous { candidates: Seq<Seq<char>> },
    NotFoundPath,
    NoMatch,
}

impl View for ScopeResolution {
    type V = ScopeView;

    open spec fn view(&self) -> ScopeView {
        match self {
            ScopeResolution::All => ScopeView::All,
            ScopeResolution::Matched { ids, path_prefix } => ScopeView::Matched {
                ids: views(ids@),
                path_prefix: opt_view(*path_prefix),
            },
            ScopeResolution::Ambiguous { candidates } => ScopeView::Ambiguous {
                candidates: views(candidates@),
            },
            ScopeResolution::NotFoundPath => ScopeView::NotFoundPath,
            ScopeResolution::NoMatch => ScopeView::NoMatch,
        }
    }
}

/// Whether a record is a file or a symbol of the repository asked for, where one is.
pub open spec fn code_item(
    r: GraphRecord,
    own: Map<Seq<char>, Seq<char>>,
    repo: Option<Seq<char>>,
) -> bool {
    match r {
        GraphRecord::Node(n) => (n.kind == NodeKind::Symbol || n.kind == NodeKind::File)
            && in_scope(own, repo, n.id@),
        _ => false,
    }
}

/// Whether a code item among the first `n` records has the identifier.
pub open spec fn has_item(
    s: Seq<GraphRecord>,
    own: Map<Seq<char>, Seq<char>>,
    repo: Option<Seq<char>>,
    n: int,
    id: Seq<char>,
) -> bool {
    exists|i: int|
        0 <= i < n && code_item(#[trigger] s[i], own, repo) && s[i]->Node_0.id@ == id
}

/// Whether a live code item among the first `n` records has the identifier and the name.
pub open spec fn item_named(
    s: Seq<GraphRecord>,
    own: Map<Seq<char>, Seq<char>>,
    repo: Option<Seq<char>>,
    live: Seq<Seq<char>>,
    n: int,
    name: Seq<char>,
    id: Seq<char>,
) -> bool {
    live.contains(id) && exists|i: int|
        0 <= i < n && code_item(#[trigger] s[i], own, repo) && s[i]->Node_0.id@ == id && opt_view(
            s[i]->Node_0.name,
        ) == Some(name)
}

/// Whether a code item among the first `n` records has the identifier and lies under the
/// path.
pub open spec fn item_under(
    s: Seq<GraphRecord>,
    own: Map<Seq<char>, Seq<char>>,
    repo: Option<Seq<char>>,
    n: int,
    path: Seq<char>,
    id: Seq<char>,
) -> bool {
    exists|i: int|
        0 <= i < n && code_item(#[trigger] s[i], own, repo) && s[i]->Node_0.id@ == id
            && s[i]->Node_0.repo_relative_path is Some && lies_under(
            s[i]->Node_0.repo_relative_path->0@,
            path,
        )
}

/// What a scope is resolved to: the code item with this identifier, else the one live
/// code item with this name, else the code items under this path.
pub open spec fn scope_of(
    s: Seq<GraphRecord>,
    own: Map<Seq<char>, Seq<char>>,
    repo: Option<Seq<char>>,
    live: Seq<Seq<char>>,
    scope: Option<Seq<char>>,
) -> ScopeView {
    let n = s.len() as int;
    match scope {
        None => ScopeView::All,
        Some(x) => {
            let named = in_order(|id: Seq<char>| item_named(s, own, repo, live, n, x, id));
            let under = in_order(|id: Seq<char>| item_under(s, own, repo, n, x, id));
            if has_item(s, own, repo, n, x) {
                ScopeView::Matched { ids: seq![x], path_prefix: None }
            } else if named.len() > 1 {
                ScopeView::Ambiguous { candidates: named }
            } else if named.len() == 1 {
                ScopeView::Matched { ids: named, path_prefix: None }
            } else if under.len() > 0 {
                ScopeView::Matched { ids: under, path_prefix: Some(x) }
            } else if x.contains('/') {
                ScopeView::NotFoundPath
            } else {
                ScopeView::NoMatch
            }
        },
    }
}

fn as_code_item<'a>(r: &'a GraphRecord, index: &RepositoryIndex, repo: Option<&str>) -> (n: Option<
    &'a NodeRecord,
>)
    ensures
        n is Some <==> code_item(*r, index.owners(), opt_str_view(repo)),
        n is Some ==> *n->0 == r->Node_0,
{
    match r {
        GraphRecord::Node(n) => {
            if (n.kind == NodeKind::Symbol || n.kind == NodeKind::File) && record_in_scope(
                index,
                repo,
                n.id.as_str(),
            ) {
                Some(n)
            } else {
                None
            }
        },
        _ => None,
    }
}

/// Resolves a scope. An identifier and a path also find what is no longer live, so that
/// the verdict on a citation of it can be told; a name finds live items only.
pub fn resolve_scope(
    records: &Vec<GraphRecord>,
    index: &RepositoryIndex,
    repo: Option<&str>,
    live: &Vec<String>,
    scope: Option<&str>,
) -> (r: ScopeResolution)
    ensures
        r@ == scope_of(
            records@,
            index.owners(),
            opt_str_view(repo),
            views(live@),
            opt_str_view(scope),
        ),
{
    let scope = match scope {
        Some(x) => x,
        None => {
            return ScopeResolution::All;
        },
    };
    let ghost s = records@;
    let ghost own = index.owners();
    let ghost re = opt_str_view(repo);
    let ghost lv = views(live@);
    let ghost x = scope@;
    let mut by_id = false;
    let mut by_name = StrSet::new();
    let mut by_path = StrSet::new();
    let mut i: usize = 0;
    while i < records.len()
        invariant
            i <= records@.len(),
            s == records@,
            own == index.owners(),
            re == opt_str_view(repo),
            lv == views(live@),
            x == scope@,
            by_name.wf(),
            by_path.wf(),
            by_id == has_item(s, own, re, i as int, x),
            forall|id: Seq<char>| #[trigger]
                by_name.has(id) <==> item_named(s, own, re, lv, i as int, x, id),
            forall|id: Seq<char>| #[trigger]
                by_path.has(id) <==> item_under(s, own, re, i as int, x, id),
        decreases records@.len() - i,
    {
        let ghost names = by_name;
        let ghost paths = by_path;
        let ghost id0 = by_id;
        if let Some(n) = as_code_item(&records[i], index, repo) {
            if str_eq(n.id.as_str(), scope) {
                by_id = true;
            }
            if opt_is(&n.name, scope) && contains_string(live, n.id.as_str()) {
                by_name.insert(n.id.as_str());
            }
            if let Some(p) = &n.repo_relative_path {
                if path_is_under_prefix(p.as_str(), scope) {
                    by_path.insert(n.id.as_str());
                }
            }
        }
        proof {
            lemma_item_step(s, own, re, i as int, x);
            assert forall|id: Seq<char>| #[trigger]
                by_name.has(id) <==> item_named(s, own, re, lv, i + 1, x, id) by {
                assert(names.has(id) <==> item_named(s, own, re, lv, i as int, x, id));
                lemma_named_step(s, own, re, lv, i as int, x, id);
            }
            assert forall|id: Seq<char>| #[trigger]
                by_path.has(id) <==> item_under(s, own, re, i + 1, x, id) by {
                assert(paths.has(id) <==> item_under(s, own, re, i as int, x, id));
                lemma_under_step(s, own, re, i as int, x, id);
            }
        }
        i = i + 1;
    }
    proof {
        let n = s.len() as int;
        let p = |id: Seq<char>| item_named(s, own, re, lv, n, x, id);
        let q = |id: Seq<char>| item_under(s, own, re, n, x, id);
        assert forall|id: Seq<char>| #[trigger] by_name.has(id) <==> p(id) by {
            assert(by_name.has(id) <==> item_named(s, own, re, lv, n, x, id));
        }
        assert forall|id: Seq<char>| #[trigger] by_path.has(id) <==> q(id) by {
            assert(by_path.has(id) <==> item_under(s, own, re, n, x, id));
        }
        lemma_in_order(p, by_name);
        lemma_in_order(q, by_path);
        assert(by_name.seq().len() == by_name.items@.len());
        assert(by_path.seq().len() == by_path.items@.len());
    }
    if by_id {
        let mut ids: Vec<String> = Vec::new();
        ids.push(scope.to_owned());
        assert(views(ids@) =~= seq![x]);
        return ScopeResolution::Matched { ids, path_prefix: None };
    }
    if by_name.len() > 1 {
        return ScopeResolution::Ambiguous { candidates: by_name.into_vec() };
    }
    if by_name.len() == 1 {
        return ScopeResolution::Matched { ids: by_name.into_vec(), path_prefix: None };
    }
    if by_path.len() > 0 {
        return ScopeResolution::Matched {
            ids: by_path.into_vec(),
            path_prefix: Some(scope.to_owned()),
        };
    }
    if contains_char(scope, '/') {
        ScopeResolution::NotFoundPath
    } else {
        ScopeResolution::NoMatch
    }
}

proof fn lemma_item_step(
    s: Seq<GraphRecord>,
    own: Map<Seq<char>, Seq<char>>,
    repo: Option<Seq<char>>,
    i: int,
    id: Seq<char>,
)
    requires
        0 <= i < s.len(),
    ensures
        has_item(s, own, repo, i + 1, id) <==> (has_item(s, own, repo, i, id) || (code_item(
            s[i],
            own,
            repo,
        ) && s[i]->Node_0.id@ == id)),
{
    if has_item(s, own, repo, i, id) {
        let k = choose|k: int|
            0 <= k < i && code_item(#[trigger] s[k], own, repo) && s[k]->Node_0.id@ == id;
        assert(code_item(s[k], own, repo));
    }
}

proof fn lemma_named_step(
    s: Seq<GraphRecord>,
    own: Map<Seq<char>, Seq<char>>,
    repo: Option<Seq<char>>,
    live: Seq<Seq<char>>,
    i: int,
    name: Seq<char>,
    id: Seq<char>,
)
    requires
        0 <= i < s.len(),
    ensures
        item_named(s, own, repo, live, i + 1, name, id) <==> (item_named(
            s,
            own,
            repo,
            live,
            i,
            name,
            id,
        ) || (live.contains(id) && code_item(s[i], own, repo) && s[i]->Node_0.id@ == id && opt_view(
            s[i]->Node_0.name,
        ) == Some(name))),
{
    if item_named(s, own, repo, live, i, name, id) {
        let k = choose|k: int|
            0 <= k < i && code_item(#[trigger] s[k], own, repo) && s[k]->Node_0.id@ == id
                && opt_view(s[k]->Node_0.name) == Some(name);
        assert(code_item(s[k], own, repo));
    }
}

proof fn lemma_under_step(
    s: Seq<GraphRecord>,
    own: Map<Seq<char>, Seq<char>>,
    repo: Option<Seq<char>>,
    i: int,
    path: Seq<char>,
    id: Seq<char>,
)
    requires
        0 <= i < s.len(),
    ensures
        item_under(s, own, repo, i + 1, path, id) <==> (item_under(s, own, repo, i, path, id) || (
        code_item(s[i], own, repo) && s[i]->Node_0.id@ == id && s[i]->Node_0.repo_relative_path
            is Some && lies_under(s[i]->Node_0.repo_relative_path->0@, path))),
{
    if item_under(s, own, repo, i, path, id) {
        let k = choose|k: int|
            0 <= k < i && code_item(#[trigger] s[k], own, repo) && s[k]->Node_0.id@ == id
                && s[k]->Node_0.repo_relative_path is Some && lies_under(
                s[k]->Node_0.repo_relative_path->0@,
                path,
            );
        assert(code_item(s[k], own, repo));
    }
}

/// The code and the exit code of a scope that is not answered, if it is not.
pub open spec fn scope_failure(r: ScopeView) -> Option<(Seq<char>, u8)> {
    match r {
        ScopeView::NotFoundPath => Some(("scope_not_found"@, 2u8)),
        ScopeView::NoMatch => Some(("no_match"@, 2u8)),
        ScopeView::Ambiguous { .. } => Some(("ambiguous_scope"@, 1u8)),
        _ => None,
    }
}

/// The code and the exit code of a scope that is not answered.
pub fn scope_error(r: &ScopeResolution) -> (e: Option<(&'static str, u8)>)
    ensures
        (match e {
            Some(x) => Some((x.0@, x.1)),
            None => None,
        }) == scope_failure(r@),
{
    match r {
        ScopeResolution::NotFoundPath => Some(("scope_not_found", 2)),
        ScopeResolution::NoMatch => Some(("no_match", 2)),
        ScopeResolution::Ambiguous { .. } => Some(("ambiguous_scope", 1)),
        _ => None,
    }
}

// ---------------------------------------------------------------------------
// Repositories
// ---------------------------------------------------------------------------

/// The repository of what a citation cites, where that is known.
pub open spec fn cited_owner(own: Map<Seq<char>, Seq<char>>, e: CitationView) -> Option<Seq<char>> {
    match e.target_record_id {
        Some(t) => owner(own, t),
        None => None,
    }
}

/// Whether all that a verification cites, as far as that is known, belongs to the
/// repository, and something does.
pub open spec fn cites_only(
    es: Seq<CitationView>,
    own: Map<Seq<char>, Seq<char>>,
    verification: Seq<char>,
    repo: Seq<char>,
) -> bool {
    &&& exists|j: int|
        0 <= j < es.len() && (#[trigger] es[j]).verification_record_id == verification
            && cited_owner(own, es[j]) == Some(repo)
    &&& forall|j: int|
        0 <= j < es.len() && (#[trigger] es[j]).verification_record_id == verification
            && cited_owner(own, es[j]) is Some ==> cited_owner(own, es[j]) == Some(repo)
}

/// Whether a citation belongs to a repository: the verification belongs to no other, and
/// what is cited belongs to it; where that is not known, the verification must belong to
/// it or cite nothing else.
pub open spec fn belongs(
    es: Seq<CitationView>,
    own: Map<Seq<char>, Seq<char>>,
    repo: Seq<char>,
    e: CitationView,
) -> bool {
    match owner(own, e.verification_record_id) {
        Some(o) => o == repo && match cited_owner(own, e) {
            Some(t) => t == repo,
            None => true,
        },
        None => match cited_owner(own, e) {
            Some(t) => t == repo,
            None => cites_only(es, own, e.verification_record_id, repo),
        },
    }
}

/// Whether a citation belongs to the repository asked for, where one is.
pub open spec fn repo_admits(
    es: Seq<CitationView>,
    own: Map<Seq<char>, Seq<char>>,
    repo: Option<Seq<char>>,
    e: CitationView,
) -> bool {
    match repo {
        Some(x) => belongs(es, own, x, e),
        None => true,
    }
}

fn owner_of_cited<'a>(index: &'a RepositoryIndex, e: &VerificationFreshnessEntry) -> (r: Option<
    &'a str,
>)
    ensures
        opt_str_view(r) == cited_owner(index.owners(), e@),
{
    match &e.target_record_id {
        Some(t) => index.owner_of(t.as_str()),
        None => None,
    }
}

fn cites_one_repository(
    es: &Vec<VerificationFreshnessEntry>,
    index: &RepositoryIndex,
    verification: &str,
    repo: &str,
) -> (r: bool)
    ensures
        r == cites_only(
            verification_freshness_entry_views(es@),
            index.owners(),
            verification@,
            repo@,
        ),
{
    let ghost v = verification_freshness_entry_views(es@);
    let ghost own = index.owners();
    let mut found = false;
    let mut i: usize = 0;
    while i < es.len()
        invariant
            i <= es@.len(),
            v == verification_freshness_entry_views(es@),
            own == index.owners(),
            found ==> exists|j: int|
                0 <= j < i && (#[trigger] v[j]).verification_record_id == verification@
                    && cited_owner(own, v[j]) == Some(repo@),
            !found ==> forall|j: int|
                0 <= j < i && (#[trigger] v[j]).verification_record_id == verification@
                    ==> cited_owner(own, v[j]) != Some(repo@),
            forall|j: int|
                0 <= j < i && (#[trigger] v[j]).verification_record_id == verification@
                    && cited_owner(own, v[j]) is Some ==> cited_owner(own, v[j]) == Some(repo@),
        decreases es@.len() - i,
    {
        assert(v[i as int] == es@[i as int]@);
        if str_eq(es[i].verification_record_id.as_str(), verification) {
            if let Some(o) = owner_of_cited(index, &es[i]) {
                if str_eq(o, repo) {
                    found = true;
                } else {
                    return false;
                }
            }
        }
        i = i + 1;
    }
    assert(v.len() == es@.len());
    found
}

fn is_of_repository(
    es: &Vec<VerificationFreshnessEntry>,
    index: &RepositoryIndex,
    repo: Option<&str>,
    e: &VerificationFreshnessEntry,
) -> (r: bool)
    ensures
        r == repo_admits(
            verification_freshness_entry_views(es@),
            index.owners(),
            opt_str_view(repo),
            e@,
        ),
{
    let repo = match repo {
        Some(x) => x,
        None => {
            return true;
        },
    };
    let cited = owner_of_cited(index, e);
    match index.owner_of(e.verification_record_id.as_str()) {
        Some(o) => str_eq(o, repo) && match cited {
            Some(t) => str_eq(t, repo),
            None => true,
        },
        None => match cited {
            Some(t) => str_eq(t, repo),
            None => cites_one_repository(es, index, e.verification_record_id.as_str(), repo),
        },
    }
}

// ---------------------------------------------------------------------------
// Reports
// ---------------------------------------------------------------------------

/// Whether a citation lies in the scope.
pub open spec fn scope_admits(scope: ScopeView, e: CitationView) -> bool {
    match scope {
        ScopeView::Matched { ids, path_prefix } => {
            ||| (e.target_record_id is Some && ids.contains(e.target_record_id->0))
            ||| (path_prefix is Some && e.repo_relative_path is Some && lies_under(
                e.repo_relative_path->0,
                path_prefix->0,
            ))
        },
        _ => true,
    }
}

fn is_in_scope(scope: &ScopeResolution, e: &VerificationFreshnessEntry) -> (r: bool)
    ensures
        r == scope_admits(scope@, e@),
{
    match scope {
        ScopeResolution::Matched { ids, path_prefix } => {
            let by_id = match &e.target_record_id {
                Some(t) => contains_string(ids, t.as_str()),
                None => false,
            };
            if by_id {
                return true;
            }
            match (path_prefix, &e.repo_relative_path) {
                (Some(p), Some(q)) => path_is_under_prefix(q.as_str(), p.as_str()),
                _ => false,
            }
        },
        _ => true,
    }
}

/// Whether a verdict asks for attention.
pub open spec fn needs_attention(v: CitationVerdict) -> bool {
    v == CitationVerdict::Stale || v == CitationVerdict::Unresolved
}

/// The citations in question, in order.
pub open spec fn in_question(
    es: Seq<CitationView>,
    own: Map<Seq<char>, Seq<char>>,
    repo: Option<Seq<char>>,
    scope: ScopeView,
) -> Seq<CitationView> {
    es.filter(|e: CitationView| repo_admits(es, own, repo, e) && scope_admits(scope, e))
}

fn select_citations(
    es: &Vec<VerificationFreshnessEntry>,
    index: &RepositoryIndex,
    repo: Option<&str>,
    scope: &ScopeResolution,
) -> (r: Vec<VerificationFreshnessEntry>)
    ensures
        verification_freshness_entry_views(r@) == in_question(
            verification_freshness_entry_views(es@),
            index.owners(),
            opt_str_view(repo),
            scope@,
        ),
{
    let ghost v = verification_freshness_entry_views(es@);
    let ghost own = index.owners();
    let ghost re = opt_str_view(repo);
    let ghost p = |e: CitationView| repo_admits(v, own, re, e) && scope_admits(scope@, e);
    let mut r: Vec<VerificationFreshnessEntry> = Vec::new();
    let mut i: usize = 0;
    proof {
        reveal(Seq::filter);
        assert(v.take(0) =~= Seq::empty());
        assert(verification_freshness_entry_views(r@) =~= v.take(0).filter(p));
    }
    while i < es.len()
        invariant
            i <= es@.len(),
            v == verification_freshness_entry_views(es@),
            own == index.owners(),
            re == opt_str_view(repo),
            p == (|e: CitationView| repo_admits(v, own, re, e) && scope_admits(scope@, e)),
            verification_freshness_entry_views(r@) == v.take(i as int).filter(p),
        decreases es@.len() - i,
    {
        proof {
            reveal(Seq::filter);
            assert(v.take(i + 1).drop_last() =~= v.take(i as int));
            assert(v.take(i + 1).last() == es@[i as int]@);
        }
        if is_of_repository(es, index, repo, &es[i]) && is_in_scope(scope, &es[i]) {
            let ghost before = r@;
            let c = es[i].copy();
            r.push(c);
            assert(verification_freshness_entry_views(r@) =~= verification_freshness_entry_views(
                before,
            ).push(c@));
        }
        i = i + 1;
    }
    assert(v.take(i as int) =~= v);
    r
}

/// How many of the first `n` citations have the verdict.
pub open spec fn how_often(es: Seq<CitationView>, v: CitationVerdict, n: int) -> nat
    decreases n,
{
    if n <= 0 {
        0
    } else {
        how_often(es, v, n - 1) + (if es[n - 1].verdict == v {
            1nat
        } else {
            0nat
        })
    }
}

/// How often each verdict occurs.
#[derive(Clone, Copy, Debug, PartialEq, Eq, Structural)]
pub struct VerdictCounts {
    pub current: usize,
    pub stale: usize,
    pub unresolved: usize,
    pub unanchored: usize,
}

/// Whether these are the counts of the verdicts.
pub open spec fn counts_of(es: Seq<CitationView>, c: VerdictCounts) -> bool {
    let n = es.len() as int;
    &&& c.current == how_often(es, CitationVerdict::Current, n)
    &&& c.stale == how_often(es, CitationVerdict::Stale, n)
    &&& c.unresolved == how_often(es, CitationVerdict::Unresolved, n)
    &&& c.unanchored == how_often(es, CitationVerdict::Unanchored, n)
}

proof fn lemma_counts_total(es: Seq<CitationView>, n: int)
    requires
        0 <= n <= es.len(),
    ensures
        how_often(es, CitationVerdict::Current, n) + how_often(es, CitationVerdict::Stale, n)
            + how_often(es, CitationVerdict::Unresolved, n) + how_often(
            es,
            CitationVerdict::Unanchored,
            n,
        ) == n,
    decreases n,
{
    if n > 0 {
        lemma_counts_total(es, n - 1);
    }
}

/// Counts the verdicts.
pub fn verdict_counts(es: &Vec<VerificationFreshnessEntry>) -> (c: VerdictCounts)
    ensures
        counts_of(verification_freshness_entry_views(es@), c),
        c.current + c.stale + c.unresolved + c.unanchored == es@.len(),
{
    let ghost v = verification_freshness_entry_views(es@);
    let mut c = VerdictCounts { current: 0, stale: 0, unresolved: 0, unanchored: 0 };
    let mut i: usize = 0;
    while i < es.len()
        invariant
            i <= es@.len(),
            v == verification_freshness_entry_views(es@),
            v.len() == es@.len(),
            c.current == how_often(v, CitationVerdict::Current, i as int),
            c.stale == how_often(v, CitationVerdict::Stale, i as int),
            c.unresolved == how_often(v, CitationVerdict::Unresolved, i as int),
            c.unanchored == how_often(v, CitationVerdict::Unanchored, i as int),
        decreases es@.len() - i,
    {
        proof {
            lemma_counts_total(v, i as int);
            assert(v[i as int] == es@[i as int]@);
        }
        match es[i].verdict {
            CitationVerdict::Current => {
                c.current = c.current + 1;
            },
            CitationVerdict::Stale => {
                c.stale = c.stale + 1;
            },
            CitationVerdict::Unresolved => {
                c.unresolved = c.unresolved + 1;
            },
            CitationVerdict::Unanchored => {
                c.unanchored = c.unanchored + 1;
            },
        }
        i = i + 1;
    }
    proof {
        lemma_counts_total(v, v.len() as int);
    }
    c
}

/// The citations that are told: all of those in question, or those that ask for
/// attention.
pub open spec fn told(es: Seq<CitationView>, stale_only: bool) -> Seq<CitationView> {
    if stale_only {
        es.filter(|e: CitationView| needs_attention(e.verdict))
    } else {
        es
    }
}

/// Keeps the citations that ask for attention.
pub fn stale_only(es: Vec<VerificationFreshnessEntry>) -> (r: Vec<VerificationFreshnessEntry>)
    ensures
        verification_freshness_entry_views(r@) == told(
            verification_freshness_entry_views(es@),
            true,
        ),
{
    let ghost all = es@;
    let ghost v = verification_freshness_entry_views(all);
    let ghost p = |e: CitationView| needs_attention(e.verdict);
    let mut r: Vec<VerificationFreshnessEntry> = Vec::new();
    proof {
        reveal(Seq::filter);
        assert(v.take(0) =~= Seq::empty());
        assert(verification_freshness_entry_views(r@) =~= v.take(0).filter(p));
    }
    for x in it: es
        invariant
            it.seq() == all,
            v == verification_freshness_entry_views(all),
            p == (|e: CitationView| needs_attention(e.verdict)),
            verification_freshness_entry_views(r@) == v.take(it.index() as int).filter(p),
    {
        proof {
            reveal(Seq::filter);
            let i = it.index() as int;
            assert(v.take(i + 1).drop_last() =~= v.take(i));
            assert(v.take(i + 1).last() == x@);
        }
        let attention = match x.verdict {
            CitationVerdict::Stale | CitationVerdict::Unresolved => true,
            _ => false,
        };
        if attention {
            let ghost before = r@;
            r.push(x);
            assert(verification_freshness_entry_views(r@) =~= verification_freshness_entry_views(
                before,
            ).push(x@));
        }
    }
    assert(v.take(all.len() as int) =~= v);
    r
}

/// The first so many.
pub open spec fn capped(es: Seq<CitationView>, limit: usize) -> Seq<CitationView> {
    if es.len() > limit {
        es.take(limit as int)
    } else {
        es
    }
}

/// What is told beside the verdicts: that not all are shown, and what they come to.
pub open spec fn notes_of(
    has_records: bool,
    evaluated: nat,
    found: nat,
    shown: nat,
    limit: usize,
    stale_only: bool,
) -> Seq<NoteView> {
    let first = if found > limit {
        seq![
            NoteView {
                code: "results_truncated"@,
                detail: "showing "@ + decimal_seq(limit as nat) + " of "@ + decimal_seq(found)
                    + " rows; raise --limit to see the rest"@,
            },
        ]
    } else {
        Seq::empty()
    };
    let last = if !has_records {
        NoteView {
            code: "no_verification_records"@,
            detail: "the store records no TestRun/CIStatus/BenchmarkRun/CoverageReport/ProofResult nodes; verification freshness cannot be assessed"@,
        }
    } else if evaluated == 0 {
        NoteView {
            code: "no_verification_code_citations"@,
            detail: "verification records exist but none cite a code handle via FAILED_ON/MENTIONS_SYMBOL/TOUCHED_FILE, and no --repo-path artifact citation applied"@,
        }
    } else if stale_only {
        NoteView {
            code: if shown == 0 {
                "no_stale_verification_records"@
            } else {
                "stale_verification_records_present"@
            },
            detail: decimal_seq(shown) + " stale/unresolved of "@ + decimal_seq(evaluated)
                + " evaluated citation(s)"@,
        }
    } else {
        NoteView {
            code: "verification_freshness_verdicts"@,
            detail: decimal_seq(shown) + " citation(s) evaluated"@,
        }
    };
    first.push(last)
}

fn make_notes(
    has_records: bool,
    evaluated: usize,
    found: usize,
    shown: usize,
    limit: usize,
    stale_only: bool,
) -> (r: Vec<FreshnessNote>)
    ensures
        freshness_note_views(r@) == notes_of(
            has_records,
            evaluated as nat,
            found as nat,
            shown as nat,
            limit,
            stale_only,
        ),
{
    let mut r: Vec<FreshnessNote> = Vec::new();
    if found > limit {
        r.push(
            FreshnessNote {
                code: "results_truncated".to_owned(),
                detail: concat5(
                    "showing ",
                    decimal(limit as u64).as_str(),
                    " of ",
                    decimal(found as u64).as_str(),
                    " rows; raise --limit to see the rest",
                ),
            },
        );
    }
    let n = decimal(shown as u64);
    let last = if !has_records {
        FreshnessNote {
            code: "no_verification_records".to_owned(),
            detail: "the store records no TestRun/CIStatus/BenchmarkRun/CoverageReport/ProofResult nodes; verification freshness cannot be assessed".to_owned(),
        }
    } else if evaluated == 0 {
        FreshnessNote {
            code: "no_verification_code_citations".to_owned(),
            detail: "verification records exist but none cite a code handle via FAILED_ON/MENTIONS_SYMBOL/TOUCHED_FILE, and no --repo-path artifact citation applied".to_owned(),
        }
    } else if stale_only {
        FreshnessNote {
            code: if shown == 0 {
                "no_stale_verification_records".to_owned()
            } else {
                "stale_verification_records_present".to_owned()
            },
            detail: concat4(
                n.as_str(),
                " stale/unresolved of ",
                decimal(evaluated as u64).as_str(),
                " evaluated citation(s)",
            ),
        }
    } else {
        FreshnessNote {
            code: "verification_freshness_verdicts".to_owned(),
            detail: concat2(n.as_str(), " citation(s) evaluated"),
        }
    };
    let ghost before = r@;
    r.push(last);
    proof {
        assert(freshness_note_views(r@) =~= notes_of(
            has_records,
            evaluated as nat,
            found as nat,
            shown as nat,
            limit,
            stale_only,
        ));
    }
    r
}

/// What is told of the freshness of verifications.
pub struct FreshnessReport {
    pub counts: VerdictCounts,
    pub truncated: bool,
    pub notes: Vec<FreshnessNote>,
    pub verdicts: Vec<VerificationFreshnessEntry>,
}

/// Whether a report tells of the citations in question.
pub open spec fn tells_freshness(
    r: FreshnessReport,
    all: Seq<CitationView>,
    attention_only: bool,
    limit: usize,
    has_records: bool,
) -> bool {
    let found = told(all, attention_only);
    &&& counts_of(all, r.counts)
    &&& r.truncated == (found.len() > limit)
    &&& verification_freshness_entry_views(r.verdicts@) == capped(found, limit)
    &&& freshness_note_views(r.notes@) == notes_of(
        has_records,
        all.len(),
        found.len(),
        capped(found, limit).len(),
        limit,
        attention_only,
    )
}

/// Tells how fresh the verifications are that belong to the repository and lie in the
/// scope. The counts are of all of them; what is shown are those that ask for attention,
/// where only they are asked for, and no more than the limit.
pub fn freshness_report(
    es: &Vec<VerificationFreshnessEntry>,
    index: &RepositoryIndex,
    repo: Option<&str>,
    scope: &ScopeResolution,
    attention_only: bool,
    limit: usize,
    has_records: bool,
) -> (r: FreshnessReport)
    ensures
        tells_freshness(
            r,
            in_question(
                verification_freshness_entry_views(es@),
                index.owners(),
                opt_str_view(repo),
                scope@,
            ),
            attention_only,
            limit,
            has_records,
        ),
{
    let all = select_citations(es, index, repo, scope);
    let counts = verdict_counts(&all);
    let evaluated = all.len();
    let ghost av = verification_freshness_entry_views(all@);
    assert(av.len() == evaluated);
    let mut shown = if attention_only {
        stale_only(all)
    } else {
        all
    };
    let ghost fv = verification_freshness_entry_views(shown@);
    let found = shown.len();
    assert(fv.len() == found);
    let truncated = found > limit;
    let ghost full = shown@;
    if truncated {
        shown.truncate(limit);
    }
    proof {
        if truncated {
            assert(verification_freshness_entry_views(shown@) =~= fv.take(limit as int));
        }
        assert(verification_freshness_entry_views(shown@).len() == shown@.len());
    }
    let notes = make_notes(has_records, evaluated, found, shown.len(), limit, attention_only);
    FreshnessReport { counts, truncated, notes, verdicts: shown }
}

/// Why a question after freshness was not answered.
#[derive(Clone, Debug, PartialEq, Eq)]
pub struct ScopeFailure {
    pub code: &'static str,
    pub exit_code: u8,
    /// The code items that the name names, where it names more than one.
    pub candidates: Vec<String>,
    pub message: &'static str,
}

/// Whether a failure tells why the scope does not do.
pub open spec fn tells_failure(f: ScopeFailure, scope: ScopeView) -> bool {
    &&& scope_failure(scope) == Some((f.code@, f.exit_code))
    &&& views(f.candidates@) == (match scope {
        ScopeView::Ambiguous { candidates } => candidates,
        _ => Seq::empty(),
    })
    &&& f.message@ == (if scope is Ambiguous {
        "scope name matches more than one live code item"@
    } else {
        "no code item in the selected store slice matches this scope handle"@
    })
}

/// Answers a question after the freshness of verifications: the scope must name code
/// items, and not more than one by a name; the report is then of the citations of the
/// repository that lie in it.
pub fn freshness_answer(
    records: &Vec<GraphRecord>,
    index: &RepositoryIndex,
    repo: Option<&str>,
    live: &Vec<String>,
    scope: Option<&str>,
    es: &Vec<VerificationFreshnessEntry>,
    attention_only: bool,
    limit: usize,
    has_records: bool,
) -> (r: Result<FreshnessReport, ScopeFailure>)
    ensures
        ({
            let resolved = scope_of(
                records@,
                index.owners(),
                opt_str_view(repo),
                views(live@),
                opt_str_view(scope),
            );
            match scope_failure(resolved) {
                Some(_) => r is Err && tells_failure(r->Err_0, resolved),
                None => r is Ok && tells_freshness(
                    r->Ok_0,
                    in_question(
                        verification_freshness_entry_views(es@),
                        index.owners(),
                        opt_str_view(repo),
                        resolved,
                    ),
                    attention_only,
                    limit,
                    has_records,
                ),
            }
        }),
{
    let resolved = resolve_scope(records, index, repo, live, scope);
    match scope_error(&resolved) {
        Some((code, exit_code)) => {
            let (candidates, message) = match resolved {
                ScopeResolution::Ambiguous { candidates } => (
                    candidates,
                    "scope name matches more than one live code item",
                ),
                _ => (
                    Vec::new(),
                    "no code item in the selected store slice matches this scope handle",
                ),
            };
            proof {
                assert(candidates@.len() == 0 ==> views(candidates@) =~= Seq::empty());
            }
            Err(ScopeFailure { code, exit_code, candidates, message })
        },
        None => Ok(
            freshness_report(es, index, repo, &resolved, attention_only, limit, has_records),
        ),
    }
}

// ---------------------------------------------------------------------------
// Text
// ---------------------------------------------------------------------------

/// A text, or a question mark.
pub open spec fn or_mark(s: Option<Seq<char>>) -> Seq<char> {
    match s {
        Some(x) => x,
        None => "?"@,
    }
}

fn str_or_mark(s: &Option<String>) -> (r: &str)
    ensures
        r@ == or_mark(opt_view(*s)),
{
    match s {
        Some(x) => x.as_str(),
        None => "?",
    }
}

/// The line of a citation.
pub open spec fn citation_line(e: CitationView) -> Seq<char> {
    "- "@ + e.verification_record_id + " ["@ + e.verification_kind + "] status="@ + or_mark(
        e.status,
    ) + " verdict="@ + citation_verdict_name(e.verdict) + " <- "@ + e.relation + "("@ + or_mark(
        e.repo_relative_path,
    ) + ")"@
}

/// The line of a citation.
pub fn citation_text(e: &VerificationFreshnessEntry) -> (r: String)
    ensures
        r@ == citation_line(e@),
{
    let head = concat7(
        "- ",
        e.verification_record_id.as_str(),
        " [",
        e.verification_kind.as_str(),
        "] status=",
        str_or_mark(&e.status),
        " verdict=",
    );
    let tail = concat6(
        e.verdict.as_str(),
        " <- ",
        e.relation.as_str(),
        "(",
        str_or_mark(&e.repo_relative_path),
        ")",
    );
    let r = concat2(head.as_str(), tail.as_str());
    proof {
        assert(r@ =~= citation_line(e@));
    }
    r
}

/// The line of the counts.
pub open spec fn counts_line(c: VerdictCounts) -> Seq<char> {
    "counts: current="@ + decimal_seq(c.current as nat) + " stale="@ + decimal_seq(c.stale as nat)
        + " unresolved="@ + decimal_seq(c.unresolved as nat) + " unanchored="@ + decimal_seq(
        c.unanchored as nat,
    )
}

/// The line of the counts.
pub fn counts_text(c: VerdictCounts) -> (r: String)
    ensures
        r@ == counts_line(c),
{
    let a = decimal(c.current as u64);
    let b = decimal(c.stale as u64);
    let d = decimal(c.unresolved as u64);
    let e = decimal(c.unanchored as u64);
    let head = concat5("counts: current=", a.as_str(), " stale=", b.as_str(), " unresolved=");
    let r = concat4(head.as_str(), d.as_str(), " unanchored=", e.as_str());
    assert(r@ =~= counts_line(c));
    r
}

/// The line of something told beside the verdicts.
pub open spec fn note_line(n: NoteView) -> Seq<char> {
    "diagnostic: "@ + n.code + ": "@ + n.detail
}

/// The answer, line by line: what it is, the citations, the counts, and what is told
/// beside them.
pub open spec fn freshness_lines(
    verdicts: Seq<CitationView>,
    c: VerdictCounts,
    notes: Seq<NoteView>,
) -> Seq<Seq<char>> {
    seq![
        "Verification-freshness verdicts (freshness leads only -- never a re-judgment of pass/fail)."@,
    ] + citation_lines(verdicts) + seq![counts_line(c)] + note_lines(notes)
}

/// The lines of what is told beside an answer.
pub open spec fn note_lines(notes: Seq<NoteView>) -> Seq<Seq<char>> {
    notes.map_values(|n: NoteView| note_line(n))
}

/// The lines of what is told beside an answer.
pub fn note_texts(notes: &Vec<FreshnessNote>) -> (r: Vec<String>)
    ensures
        views(r@) == note_lines(freshness_note_views(notes@)),
{
    let ghost all = note_lines(freshness_note_views(notes@));
    let mut r: Vec<String> = Vec::new();
    assert(views(r@) =~= all.take(0));
    let mut i: usize = 0;
    while i < notes.len()
        invariant
            i <= notes@.len(),
            all == note_lines(freshness_note_views(notes@)),
            views(r@) == all.take(i as int),
        decreases notes@.len() - i,
    {
        let line = concat4(
            "diagnostic: ",
            notes[i].code.as_str(),
            ": ",
            notes[i].detail.as_str(),
        );
        assert(all.take(i + 1) =~= all.take(i as int).push(line@));
        push_line(&mut r, line);
        i = i + 1;
    }
    assert(all.take(i as int) =~= all);
    r
}

/// The lines of citations.
pub open spec fn citation_lines(es: Seq<CitationView>) -> Seq<Seq<char>> {
    es.map_values(|e: CitationView| citation_line(e))
}

fn citation_texts(es: &Vec<VerificationFreshnessEntry>) -> (r: Vec<String>)
    ensures
        views(r@) == citation_lines(verification_freshness_entry_views(es@)),
{
    let ghost all = citation_lines(verification_freshness_entry_views(es@));
    let mut r: Vec<String> = Vec::new();
    assert(views(r@) =~= all.take(0));
    let mut i: usize = 0;
    while i < es.len()
        invariant
            i <= es@.len(),
            all == citation_lines(verification_freshness_entry_views(es@)),
            views(r@) == all.take(i as int),
        decreases es@.len() - i,
    {
        let line = citation_text(&es[i]);
        assert(all.take(i + 1) =~= all.take(i as int).push(line@));
        push_line(&mut r, line);
        i = i + 1;
    }
    assert(all.take(i as int) =~= all);
    r
}

impl FreshnessReport {
    /// The answer, line by line.
    pub fn lines(&self) -> (r: Vec<String>)
        ensures
            views(r@) == freshness_lines(
                verification_freshness_entry_views(self.verdicts@),
                self.counts,
                freshness_note_views(self.notes@),
            ),
    {
        let mut r: Vec<String> = Vec::new();
        push_line(
            &mut r,
            "Verification-freshness verdicts (freshness leads only -- never a re-judgment of pass/fail).".to_owned(),
        );
        append_lines(&mut r, citation_texts(&self.verdicts));
        push_line(&mut r, counts_text(self.counts));
        append_lines(&mut r, note_texts(&self.notes));
        assert(views(r@) =~= freshness_lines(
            verification_freshness_entry_views(self.verdicts@),
            self.counts,
            freshness_note_views(self.notes@),
        ));
        r
    }
}

// ---------------------------------------------------------------------------
// Laws
// ---------------------------------------------------------------------------

/// Every citation in question is judged once, so the counts come to their number.
pub proof fn law_counts_come_to_the_total(es: Seq<CitationView>, c: VerdictCounts)
    requires
        counts_of(es, c),
    ensures
        c.current + c.stale + c.unresolved + c.unanchored == es.len(),
{
    lemma_counts_total(es, es.len() as int);
}

/// No citation of another repository is told: what is cited by a citation that belongs to
/// a repository is owned by no other.
pub proof fn law_other_repositories_are_not_told(
    es: Seq<CitationView>,
    own: Map<Seq<char>, Seq<char>>,
    repo: Seq<char>,
    e: CitationView,
)
    requires
        repo_admits(es, own, Some(repo), e),
    ensures
        cited_owner(own, e) is Some ==> cited_owner(own, e) == Some(repo),
        owner(own, e.verification_record_id) is Some ==> owner(own, e.verification_record_id)
            == Some(repo),
{
}

} // verus!
