//! Which Cargo package owns a file.
//!
//! Given the manifests of a tree, the owner of a path is decided by its nearest
//! enclosing manifest. The walk visits the directories that enclose the path from
//! its own directory outwards:
//!
//! | Manifest of the directory            | Result                 | Walk      |
//! |--------------------------------------|------------------------|-----------|
//! | a usable package name                | attributed to it       | stops     |
//! | a `[package]` without a usable name  | `UnnamedPackage`       | stops     |
//! | not valid TOML                       | `UnparseableManifest`  | stops     |
//! | unreadable                           | `ManifestUnreadable`   | stops     |
//! | virtual                              |                        | continues |
//! | none                                 |                        | continues |
//!
//! A walk that reaches the root without a stop gives `VirtualManifestOnly` when it
//! passed a virtual manifest and `NoEnclosingManifest` otherwise. Attribution is
//! containment in a directory, never proof that the file is compiled into the
//! package.

use vstd::prelude::*;

use crate::collections::{sorted_strict, StrMap};
use crate::ir::{
    CrateAttribution, CrateAttributionReason, CrateAttributionStatus, CrateAttributionView,
    GraphRecord, NodeKind, NodeView, RecordView,
};
use crate::text::{
    contains_char, join_prefix, join_seq, lex_lt, split, split_seq, str_order, str_views, views,
    Order,
};
use crate::text::{
    lemma_lex_asymmetric, lemma_lex_irreflexive, lemma_lex_total, lemma_lex_transitive,
    lemma_split_nonempty,
};

verus! {

/// What one manifest says about the package that it declares.
#[derive(Debug, Clone, PartialEq, Eq, PartialOrd, Ord)]
pub enum ManifestParseOutcome {
    /// Declares a package with a usable name.
    Package {
        /// The declared name, exactly as written.
        name: String,
    },
    /// Declares a package without a usable name.
    UnnamedPackage,
    /// Declares no package: a virtual workspace root.
    Virtual,
    /// Not valid TOML.
    Unparseable,
    /// Could not be read, or is not valid UTF-8.
    Unreadable,
}

/// The view of a [`ManifestParseOutcome`].
pub enum OutcomeView {
    Package(Seq<char>),
    UnnamedPackage,
    Virtual,
    Unparseable,
    Unreadable,
}

impl View for ManifestParseOutcome {
    type V = OutcomeView;

    open spec fn view(&self) -> OutcomeView {
        match self {
            ManifestParseOutcome::Package { name } => OutcomeView::Package(name@),
            ManifestParseOutcome::UnnamedPackage => OutcomeView::UnnamedPackage,
            ManifestParseOutcome::Virtual => OutcomeView::Virtual,
            ManifestParseOutcome::Unparseable => OutcomeView::Unparseable,
            ManifestParseOutcome::Unreadable => OutcomeView::Unreadable,
        }
    }
}

/// One manifest of the tree and what it declares.
#[derive(Debug, Clone, PartialEq, Eq, PartialOrd, Ord)]
pub struct ManifestPackageFact {
    /// Path of the manifest from the root of the repository.
    pub manifest_repo_relative_path: String,
    /// What parsing the manifest yielded.
    pub outcome: ManifestParseOutcome,
}

/// The view of a [`ManifestPackageFact`].
pub struct FactView {
    pub path: Seq<char>,
    pub outcome: OutcomeView,
}

impl View for ManifestPackageFact {
    type V = FactView;

    open spec fn view(&self) -> FactView {
        FactView { path: self.manifest_repo_relative_path@, outcome: self.outcome@ }
    }
}

/// The views of a sequence of facts.
pub open spec fn fact_views(s: Seq<ManifestPackageFact>) -> Seq<FactView> {
    s.map_values(|f: ManifestPackageFact| f@)
}

/// Whether a path names a manifest inside the repository: not empty, not
/// absolute, separated by `/`, without `.` and `..` segments.
pub open spec fn usable_path(path: Seq<char>) -> bool {
    &&& path.len() > 0
    &&& path[0] != '/'
    &&& !path.contains('\\')
    &&& !split_seq(path, '/').contains("."@)
    &&& !split_seq(path, '/').contains(".."@)
}

/// The directory of a manifest; `None` where the path is not usable.
pub open spec fn directory_of(path: Seq<char>) -> Option<Seq<char>> {
    if usable_path(path) {
        Some(join_seq(split_seq(path, '/').drop_last(), "/"@))
    } else {
        None
    }
}

/// The rank of an outcome among the kinds of outcome.
pub open spec fn outcome_rank(o: OutcomeView) -> int {
    match o {
        OutcomeView::Package(_) => 0,
        OutcomeView::UnnamedPackage => 1,
        OutcomeView::Virtual => 2,
        OutcomeView::Unparseable => 3,
        OutcomeView::Unreadable => 4,
    }
}

/// The order of outcomes: by kind, packages by their names.
pub open spec fn outcome_lt(a: OutcomeView, b: OutcomeView) -> bool {
    match (a, b) {
        (OutcomeView::Package(x), OutcomeView::Package(y)) => lex_lt(x, y),
        _ => outcome_rank(a) < outcome_rank(b),
    }
}

/// The order of facts: by path, then by outcome.
pub open spec fn fact_lt(a: FactView, b: FactView) -> bool {
    lex_lt(a.path, b.path) || (a.path == b.path && outcome_lt(a.outcome, b.outcome))
}

/// Whether `f` is the fact that decides for the directory `dir`: the smallest of
/// those that lie in it.
pub open spec fn decides(facts: Seq<FactView>, dir: Seq<char>, f: FactView) -> bool {
    &&& facts.contains(f)
    &&& directory_of(f.path) == Some(dir)
    &&& forall|g: FactView| #[trigger]
        facts.contains(g) && directory_of(g.path) == Some(dir) ==> f == g || fact_lt(f, g)
}

/// Whether `m` maps each directory that holds a manifest to the deciding fact,
/// and no other directory.
pub open spec fn indexes(m: Map<Seq<char>, FactView>, facts: Seq<FactView>) -> bool {
    &&& forall|dir: Seq<char>| #[trigger] m.dom().contains(dir) ==> decides(facts, dir, m[dir])
    &&& forall|g: FactView| #[trigger]
        facts.contains(g) && directory_of(g.path) is Some ==> m.dom().contains(
            directory_of(g.path)->0,
        )
}

/// The segments of the directory that holds the file `path`.
pub open spec fn directory_segments(path: Seq<char>) -> Seq<Seq<char>> {
    let segments = nonempty(split_seq(path, '/'));
    if segments.len() == 0 {
        segments
    } else {
        segments.drop_last()
    }
}

/// The pieces that are not empty.
pub open spec fn nonempty(parts: Seq<Seq<char>>) -> Seq<Seq<char>>
    decreases parts.len(),
{
    if parts.len() == 0 {
        parts
    } else if parts.last().len() == 0 {
        nonempty(parts.drop_last())
    } else {
        nonempty(parts.drop_last()).push(parts.last())
    }
}

/// The directory named by the first `n` segments.
pub open spec fn dir_at(segments: Seq<Seq<char>>, n: int) -> Seq<char> {
    join_seq(segments.take(n), "/"@)
}

/// The directories that enclose a file, nearest first, down to the root.
pub open spec fn enclosing_dirs(segments: Seq<Seq<char>>) -> Seq<Seq<char>> {
    Seq::new(segments.len() + 1, |i: int| dir_at(segments, segments.len() - i))
}

/// An attribution to a package.
pub open spec fn attributed_view(name: Seq<char>, manifest: Seq<char>) -> CrateAttributionView {
    CrateAttributionView {
        status: CrateAttributionStatus::Attributed,
        package_name: Some(name),
        manifest_repo_relative_path: Some(manifest),
        unattributed_reason: None,
    }
}

/// The lack of an attribution, and why.
pub open spec fn unattributed_view(reason: CrateAttributionReason) -> CrateAttributionView {
    CrateAttributionView {
        status: CrateAttributionStatus::Unattributed,
        package_name: None,
        manifest_repo_relative_path: None,
        unattributed_reason: Some(reason),
    }
}

/// Whether the manifest of the directory, if any, lets the walk go on outwards.
pub open spec fn passes(m: Map<Seq<char>, FactView>, dir: Seq<char>) -> bool {
    m.dom().contains(dir) ==> m[dir].outcome == OutcomeView::Virtual
}

/// What the manifest of a directory at which the walk stops says.
pub open spec fn stop_result(f: FactView) -> CrateAttributionView {
    match f.outcome {
        OutcomeView::Package(name) => attributed_view(name, f.path),
        OutcomeView::UnnamedPackage => unattributed_view(CrateAttributionReason::UnnamedPackage),
        OutcomeView::Unparseable => unattributed_view(CrateAttributionReason::UnparseableManifest),
        OutcomeView::Unreadable => unattributed_view(CrateAttributionReason::ManifestUnreadable),
        OutcomeView::Virtual => unattributed_view(CrateAttributionReason::VirtualManifestOnly),
    }
}

/// The result of the walk outwards from the directory of the first `n` segments.
pub open spec fn walk(
    m: Map<Seq<char>, FactView>,
    segments: Seq<Seq<char>>,
    n: int,
    saw_virtual: bool,
) -> CrateAttributionView
    decreases n + 1,
{
    if n < 0 {
        unattributed_view(
            if saw_virtual {
                CrateAttributionReason::VirtualManifestOnly
            } else {
                CrateAttributionReason::NoEnclosingManifest
            },
        )
    } else {
        let dir = dir_at(segments, n);
        if passes(m, dir) {
            walk(m, segments, n - 1, saw_virtual || m.dom().contains(dir))
        } else {
            stop_result(m[dir])
        }
    }
}

/// The owner of the file `path`.
pub open spec fn attribution(m: Map<Seq<char>, FactView>, path: Seq<char>) -> CrateAttributionView {
    let segments = directory_segments(path);
    walk(m, segments, segments.len() as int, false)
}

/// Whether nodes of the kind carry an attribution.
pub open spec fn carries(kind: NodeKind) -> bool {
    kind == NodeKind::File || kind == NodeKind::Module || kind == NodeKind::Symbol || kind
        == NodeKind::Import || kind == NodeKind::Diagnostic || kind == NodeKind::PanicRiskSite
        || kind == NodeKind::DebtMarker || kind == NodeKind::UnsafeSite || kind
        == NodeKind::DependencyDeclaration
}

/// The record with the attribution that the index gives to it.
pub open spec fn stamped(r: RecordView, m: Map<Seq<char>, FactView>) -> RecordView {
    match r {
        RecordView::Node(n) => if carries(n.kind) && n.repo_relative_path is Some {
            RecordView::Node(
                NodeView {
                    crate_attribution: Some(attribution(m, n.repo_relative_path->0)),
                    ..n
                },
            )
        } else {
            r
        },
        _ => r,
    }
}

// ---------------------------------------------------------------------------
// Laws
// ---------------------------------------------------------------------------

proof fn lemma_fact_total(a: FactView, b: FactView)
    ensures
        a == b || fact_lt(a, b) || fact_lt(b, a),
{
    lemma_lex_total(a.path, b.path);
    match (a.outcome, b.outcome) {
        (OutcomeView::Package(x), OutcomeView::Package(y)) => {
            lemma_lex_total(x, y);
        },
        _ => {},
    }
}

proof fn lemma_fact_asymmetric(a: FactView, b: FactView)
    requires
        fact_lt(a, b),
    ensures
        !fact_lt(b, a),
{
    lemma_lex_irreflexive(a.path);
    if lex_lt(a.path, b.path) {
        lemma_lex_asymmetric(a.path, b.path);
    }
    match (a.outcome, b.outcome) {
        (OutcomeView::Package(x), OutcomeView::Package(y)) => {
            if lex_lt(x, y) {
                lemma_lex_asymmetric(x, y);
            }
        },
        _ => {},
    }
}

proof fn lemma_fact_transitive(a: FactView, b: FactView, c: FactView)
    requires
        fact_lt(a, b),
        fact_lt(b, c),
    ensures
        fact_lt(a, c),
{
    if lex_lt(a.path, b.path) && lex_lt(b.path, c.path) {
        lemma_lex_transitive(a.path, b.path, c.path);
    }
    match (a.outcome, b.outcome, c.outcome) {
        (OutcomeView::Package(x), OutcomeView::Package(y), OutcomeView::Package(z)) => {
            if lex_lt(x, y) && lex_lt(y, z) {
                lemma_lex_transitive(x, y, z);
            }
        },
        _ => {},
    }
}

/// The index does not depend on the order, nor on the repetition, of the facts.
pub proof fn law_index_is_order_independent(
    m1: Map<Seq<char>, FactView>,
    facts1: Seq<FactView>,
    m2: Map<Seq<char>, FactView>,
    facts2: Seq<FactView>,
)
    requires
        indexes(m1, facts1),
        indexes(m2, facts2),
        forall|f: FactView| facts1.contains(f) <==> facts2.contains(f),
    ensures
        m1 == m2,
{
    assert forall|dir: Seq<char>| #[trigger] m1.dom().contains(dir) implies m2.dom().contains(dir)
        && m1[dir] == m2[dir] by {
        let f = m1[dir];
        assert(decides(facts1, dir, f));
        assert(facts2.contains(f));
        let g = m2[dir];
        assert(decides(facts2, dir, g));
        assert(facts1.contains(g));
        if f != g {
            lemma_fact_asymmetric(f, g);
        }
    }
    assert forall|dir: Seq<char>| #[trigger] m2.dom().contains(dir) implies m1.dom().contains(dir) by {
        let g = m2[dir];
        assert(decides(facts2, dir, g));
        assert(facts1.contains(g));
    }
    assert(m1 =~= m2);
}

/// Either a package and its manifest are given, or a reason why there is none,
/// never both and never neither.
pub proof fn law_attributed_iff_named(m: Map<Seq<char>, FactView>, path: Seq<char>)
    ensures
        ({
            let a = attribution(m, path);
            &&& a.status == CrateAttributionStatus::Attributed <==> a.package_name is Some
            &&& a.status == CrateAttributionStatus::Attributed
                <==> a.manifest_repo_relative_path is Some
            &&& a.status == CrateAttributionStatus::Unattributed <==> a.unattributed_reason is Some
        }),
{
    lemma_walk_shape(m, directory_segments(path), directory_segments(path).len() as int, false);
}

proof fn lemma_walk_shape(
    m: Map<Seq<char>, FactView>,
    segments: Seq<Seq<char>>,
    n: int,
    saw_virtual: bool,
)
    ensures
        ({
            let a = walk(m, segments, n, saw_virtual);
            &&& a.status == CrateAttributionStatus::Attributed <==> a.package_name is Some
            &&& a.status == CrateAttributionStatus::Attributed
                <==> a.manifest_repo_relative_path is Some
            &&& a.status == CrateAttributionStatus::Unattributed <==> a.unattributed_reason is Some
        }),
    decreases n + 1,
{
    if n >= 0 {
        let dir = dir_at(segments, n);
        if passes(m, dir) {
            lemma_walk_shape(m, segments, n - 1, saw_virtual || m.dom().contains(dir));
        }
    }
}

/// Whether the walk from the file `path` stops at the directory of its first `n`
/// segments.
pub open spec fn stops_at(m: Map<Seq<char>, FactView>, path: Seq<char>, n: int) -> bool {
    let segments = directory_segments(path);
    &&& 0 <= n <= segments.len()
    &&& !passes(m, dir_at(segments, n))
    &&& forall|k: int| n < k <= segments.len() ==> passes(m, #[trigger] dir_at(segments, k))
}

/// The nearest manifest that is not virtual decides alone: whatever lies further
/// out is not consulted, and a manifest that cannot be used is never passed over.
pub proof fn law_nearest_manifest_decides(m: Map<Seq<char>, FactView>, path: Seq<char>, n: int)
    requires
        stops_at(m, path, n),
    ensures
        attribution(m, path) == stop_result(m[dir_at(directory_segments(path), n)]),
{
    let segments = directory_segments(path);
    lemma_walk_to(m, segments, segments.len() as int, n, false);
}

proof fn lemma_walk_to(
    m: Map<Seq<char>, FactView>,
    segments: Seq<Seq<char>>,
    from: int,
    n: int,
    saw_virtual: bool,
)
    requires
        0 <= n <= from,
        !passes(m, dir_at(segments, n)),
        forall|k: int| n < k <= from ==> passes(m, #[trigger] dir_at(segments, k)),
    ensures
        walk(m, segments, from, saw_virtual) == stop_result(m[dir_at(segments, n)]),
    decreases from - n,
{
    if from > n {
        let dir = dir_at(segments, from);
        assert(passes(m, dir));
        lemma_walk_to(m, segments, from - 1, n, saw_virtual || m.dom().contains(dir));
    }
}

/// A package that owns a file is one that a manifest declares in a directory that
/// encloses the file, by whole segments, with no deciding manifest in between.
pub proof fn law_owner_encloses_by_segments(
    m: Map<Seq<char>, FactView>,
    facts: Seq<FactView>,
    path: Seq<char>,
)
    requires
        indexes(m, facts),
        attribution(m, path).package_name is Some,
    ensures
        exists|n: int, f: FactView|
            #![trigger stops_at(m, path, n), facts.contains(f)]
            stops_at(m, path, n) && facts.contains(f) && directory_of(f.path) == Some(
                dir_at(directory_segments(path), n),
            ) && f.outcome == OutcomeView::Package(attribution(m, path).package_name->0)
                && attribution(m, path).manifest_repo_relative_path == Some(f.path),
{
    let segments = directory_segments(path);
    let n = lemma_walk_stop(m, segments, segments.len() as int, false);
    law_nearest_manifest_decides(m, path, n);
    let dir = dir_at(segments, n);
    assert(decides(facts, dir, m[dir]));
    assert(stops_at(m, path, n) && facts.contains(m[dir]));
}

proof fn lemma_walk_stop(
    m: Map<Seq<char>, FactView>,
    segments: Seq<Seq<char>>,
    from: int,
    saw_virtual: bool,
) -> (n: int)
    requires
        from <= segments.len(),
        walk(m, segments, from, saw_virtual).package_name is Some,
    ensures
        0 <= n <= from,
        !passes(m, dir_at(segments, n)),
        forall|k: int| n < k <= from ==> passes(m, #[trigger] dir_at(segments, k)),
    decreases from + 1,
{
    if passes(m, dir_at(segments, from)) {
        let n = lemma_walk_stop(
            m,
            segments,
            from - 1,
            saw_virtual || m.dom().contains(dir_at(segments, from)),
        );
        n
    } else {
        from
    }
}

/// A manifest outside the directories that enclose a file changes nothing for it.
pub proof fn law_other_manifests_do_not_matter(
    m1: Map<Seq<char>, FactView>,
    m2: Map<Seq<char>, FactView>,
    path: Seq<char>,
)
    requires
        forall|k: int|
            0 <= k <= directory_segments(path).len() ==> {
                let dir = #[trigger] dir_at(directory_segments(path), k);
                &&& m1.dom().contains(dir) <==> m2.dom().contains(dir)
                &&& m1.dom().contains(dir) ==> m1[dir] == m2[dir]
            },
    ensures
        attribution(m1, path) == attribution(m2, path),
{
    let segments = directory_segments(path);
    lemma_walk_agrees(m1, m2, segments, segments.len() as int, false);
}

proof fn lemma_walk_agrees(
    m1: Map<Seq<char>, FactView>,
    m2: Map<Seq<char>, FactView>,
    segments: Seq<Seq<char>>,
    n: int,
    saw_virtual: bool,
)
    requires
        forall|k: int|
            0 <= k <= n ==> {
                let dir = #[trigger] dir_at(segments, k);
                &&& m1.dom().contains(dir) <==> m2.dom().contains(dir)
                &&& m1.dom().contains(dir) ==> m1[dir] == m2[dir]
            },
    ensures
        walk(m1, segments, n, saw_virtual) == walk(m2, segments, n, saw_virtual),
    decreases n + 1,
{
    if n >= 0 {
        let dir = dir_at(segments, n);
        lemma_walk_agrees(m1, m2, segments, n - 1, saw_virtual || m1.dom().contains(dir));
    }
}

/// A manifest further out than the one that decides never changes the answer.
pub proof fn law_shallower_manifest_changes_nothing(
    m1: Map<Seq<char>, FactView>,
    m2: Map<Seq<char>, FactView>,
    path: Seq<char>,
    n: int,
)
    requires
        stops_at(m1, path, n),
        forall|k: int|
            n <= k <= directory_segments(path).len() ==> {
                let dir = #[trigger] dir_at(directory_segments(path), k);
                &&& m1.dom().contains(dir) <==> m2.dom().contains(dir)
                &&& m1.dom().contains(dir) ==> m1[dir] == m2[dir]
            },
    ensures
        attribution(m2, path) == attribution(m1, path),
{
    let segments = directory_segments(path);
    assert(passes(m1, dir_at(segments, n)) == passes(m2, dir_at(segments, n)));
    assert forall|k: int| n < k <= segments.len() implies passes(m2, #[trigger] dir_at(segments, k)) by {
        assert(passes(m1, dir_at(segments, k)));
    }
    law_nearest_manifest_decides(m1, path, n);
    law_nearest_manifest_decides(m2, path, n);
}

// ---------------------------------------------------------------------------
// The index
// ---------------------------------------------------------------------------

impl ManifestPackageFact {
    /// A fact about the manifest at a path.
    pub fn new(manifest_repo_relative_path: &str, outcome: ManifestParseOutcome) -> (r: Self)
        ensures
            r@ == (FactView { path: manifest_repo_relative_path@, outcome: outcome@ }),
    {
        ManifestPackageFact {
            manifest_repo_relative_path: manifest_repo_relative_path.to_owned(),
            outcome,
        }
    }

    /// The directory of the manifest: empty for the root of the repository, and
    /// `None` where the path is not usable.
    pub fn directory_key(&self) -> (r: Option<String>)
        ensures
            crate::text::opt_view(r) == directory_of(self@.path),
    {
        let path = self.manifest_repo_relative_path.as_str();
        if path.is_empty() {
            return None;
        }
        let parts = split(path, '/');
        proof {
            lemma_split_head(path@);
        }
        if contains_char(path, '\\') || parts[0].as_str().is_empty() || crate::collections::contains_string(
            &parts,
            ".",
        ) || crate::collections::contains_string(&parts, "..") {
            return None;
        }
        let n: usize = parts.len() - 1;
        let s = join_prefix(&parts, n, "/");
        proof {
            assert(views(parts@).take(n as int) =~= split_seq(path@, '/').drop_last());
        }
        Some(s)
    }

    /// Whether the fact comes before another one.
    pub fn precedes(&self, other: &Self) -> (r: bool)
        ensures
            r == fact_lt(self@, other@),
    {
        proof {
            lemma_lex_irreflexive(self@.path);
        }
        match str_order(
            self.manifest_repo_relative_path.as_str(),
            other.manifest_repo_relative_path.as_str(),
        ) {
            Order::Less => true,
            Order::Greater => false,
            Order::Equal => {
                match (&self.outcome, &other.outcome) {
                    (
                        ManifestParseOutcome::Package { name: x },
                        ManifestParseOutcome::Package { name: y },
                    ) => crate::text::str_lt(x.as_str(), y.as_str()),
                    (a, b) => rank(a) < rank(b),
                }
            },
        }
    }
}

fn rank(o: &ManifestParseOutcome) -> (r: u8)
    ensures
        r == outcome_rank(o@),
{
    match o {
        ManifestParseOutcome::Package { .. } => 0,
        ManifestParseOutcome::UnnamedPackage => 1,
        ManifestParseOutcome::Virtual => 2,
        ManifestParseOutcome::Unparseable => 3,
        ManifestParseOutcome::Unreadable => 4,
    }
}

/// The first piece of a split is empty just where the string is empty or starts
/// with the separator.
proof fn lemma_split_head(s: Seq<char>)
    ensures
        split_seq(s, '/').len() > 0,
        split_seq(s, '/')[0].len() == 0 <==> s.len() == 0 || s[0] == '/',
        s.len() > 0 && s[0] == '/' ==> split_seq(s, '/').len() >= 2,
    decreases s.len(),
{
    if s.len() > 0 {
        lemma_split_head(s.drop_last());
        lemma_split_nonempty(s.drop_last(), '/');
    }
}

/// The manifests of a tree by the directories that hold them.
pub struct CrateAttributionIndex {
    by_dir: StrMap<ManifestPackageFact>,
}

impl View for CrateAttributionIndex {
    type V = Map<Seq<char>, FactView>;

    closed spec fn view(&self) -> Map<Seq<char>, FactView> {
        self.by_dir.map().map_values(|f: ManifestPackageFact| f@)
    }
}

impl CrateAttributionIndex {
    /// The index is in order.
    #[verifier::type_invariant]
    spec fn inv(self) -> bool {
        self.by_dir.wf()
    }

    /// The index of the facts. Of two facts for one directory the smaller one
    /// decides; facts whose path is not usable are dropped.
    pub fn from_facts(facts: Vec<ManifestPackageFact>) -> (r: Self)
        ensures
            indexes(r@, fact_views(facts@)),
    {
        let mut by_dir: StrMap<ManifestPackageFact> = StrMap::new();
        let ghost all = fact_views(facts@);
        let mut i: usize = 0;
        let ghost mut m: Map<Seq<char>, FactView> = Map::empty();
        proof {
            assert(by_dir.map().map_values(|f: ManifestPackageFact| f@) =~= m);
        }
        while i < facts.len()
            invariant
                i <= facts@.len(),
                all == fact_views(facts@),
                by_dir.wf(),
                m == by_dir.map().map_values(|f: ManifestPackageFact| f@),
                indexes(m, all.take(i as int)),
            decreases facts@.len() - i,
        {
            let fact = &facts[i];
            let ghost f = fact@;
            let ghost before = all.take(i as int);
            let ghost upto = all.take(i + 1);
            proof {
                assert(f == all[i as int]);
                assert(upto =~= before.push(f));
                lemma_contains_push(before, f);
            }
            match fact.directory_key() {
                None => {
                    proof {
                        lemma_index_same(m, before, f);
                    }
                },
                Some(dir) => {
                    let take = match by_dir.get(dir.as_str()) {
                        None => true,
                        Some(current) => fact.precedes(current),
                    };
                    if take {
                        let ghost old_map = by_dir.map();
                        let owned = clone_fact(fact);
                        let ghost o = owned;
                        by_dir.insert(dir.as_str(), owned);
                        proof {
                            let m2 = m.insert(dir@, f);
                            assert(by_dir.map().map_values(|f: ManifestPackageFact| f@) =~= m2);
                            lemma_index_insert(m, before, f, dir@);
                            m = m2;
                        }
                    } else {
                        proof {
                            lemma_index_keep(m, before, f, dir@);
                        }
                    }
                },
            }
            i = i + 1;
        }
        proof {
            assert(all.take(i as int) =~= all);
        }
        CrateAttributionIndex { by_dir }
    }

    /// The owner of a file.
    pub fn attribution_for(&self, repo_relative_path: &str) -> (r: CrateAttribution)
        ensures
            r@ == attribution(self@, repo_relative_path@),
    {
        proof {
            use_type_invariant(self);
        }
        let dirs = ancestor_dirs(repo_relative_path);
        let ghost segments = directory_segments(repo_relative_path@);
        let ghost top = segments.len() as int;
        let mut saw_virtual = false;
        let mut i: usize = 0;
        while i < dirs.len()
            invariant
                i <= dirs@.len(),
                dirs@.len() == top + 1,
                top == segments.len(),
                segments == directory_segments(repo_relative_path@),
                views(dirs@) == enclosing_dirs(segments),
                self.by_dir.wf(),
                walk(self@, segments, top, false) == walk(self@, segments, top - i, saw_virtual),
            decreases dirs@.len() - i,
        {
            let ghost dir = dir_at(segments, top - i);
            assert(views(dirs@)[i as int] == dir);
            match self.by_dir.get(dirs[i].as_str()) {
                None => {
                    assert(!self@.dom().contains(dir));
                },
                Some(fact) => {
                    assert(self@.dom().contains(dir) && self@[dir] == fact@);
                    match &fact.outcome {
                        ManifestParseOutcome::Package { name } => {
                            return attributed(name, &fact.manifest_repo_relative_path);
                        },
                        ManifestParseOutcome::UnnamedPackage => {
                            return unattributed(CrateAttributionReason::UnnamedPackage);
                        },
                        ManifestParseOutcome::Unparseable => {
                            return unattributed(CrateAttributionReason::UnparseableManifest);
                        },
                        ManifestParseOutcome::Unreadable => {
                            return unattributed(CrateAttributionReason::ManifestUnreadable);
                        },
                        ManifestParseOutcome::Virtual => {
                            saw_virtual = true;
                        },
                    }
                },
            }
            i = i + 1;
        }
        if saw_virtual {
            unattributed(CrateAttributionReason::VirtualManifestOnly)
        } else {
            unattributed(CrateAttributionReason::NoEnclosingManifest)
        }
    }

    /// The names of the packages that files can be attributed to, in order and
    /// without repetition.
    pub fn package_names(&self) -> (names: Vec<&str>)
        ensures
            sorted_strict(str_views(names@)),
            forall|name: Seq<char>| #[trigger]
                str_views(names@).contains(name) <==> declares(self@, name),
    {
        proof {
            use_type_invariant(self);
        }
        let mut names: Vec<&str> = Vec::new();
        let ghost keys = self.by_dir.keys.seq();
        let ghost vals = self.by_dir.vals@;
        let mut i: usize = 0;
        while i < self.by_dir.vals.len()
            invariant
                i <= self.by_dir.vals@.len(),
                vals == self.by_dir.vals@,
                sorted_strict(str_views(names@)),
                forall|name: Seq<char>| #[trigger]
                    str_views(names@).contains(name) <==> declared_upto(vals, i as int, name),
            decreases self.by_dir.vals@.len() - i,
        {
            let ghost names0 = str_views(names@);
            match &self.by_dir.vals[i].outcome {
                ManifestParseOutcome::Package { name } => {
                    insert_name(&mut names, name.as_str());
                    proof {
                        assert forall|x: Seq<char>| #[trigger]
                            str_views(names@).contains(x) <==> declared_upto(vals, i + 1, x) by {
                            lemma_declared_step(vals, i as int, x);
                        }
                    }
                },
                _ => {
                    assert forall|x: Seq<char>| #[trigger]
                        str_views(names@).contains(x) <==> declared_upto(vals, i + 1, x) by {
                        lemma_declared_step(vals, i as int, x);
                    }
                },
            }
            i = i + 1;
        }
        proof {
            assert forall|name: Seq<char>| #[trigger]
                str_views(names@).contains(name) <==> declares(self@, name) by {
                if declared_upto(vals, i as int, name) {
                    let k = choose|k: int|
                        0 <= k < i && (#[trigger] vals[k])@.outcome == OutcomeView::Package(name);
                    crate::collections::lemma_key_at(keys, k);
                    assert(self@.dom().contains(keys[k]));
                    assert(self@[keys[k]].outcome == OutcomeView::Package(name));
                }
                if declares(self@, name) {
                    let dir = choose|dir: Seq<char>| #[trigger]
                        self@.dom().contains(dir) && self@[dir].outcome == OutcomeView::Package(
                            name,
                        );
                    let k = crate::collections::key_at(keys, dir);
                    assert(keys.contains(dir));
                    assert(0 <= k < keys.len() && keys[k] == dir);
                    assert(vals[k]@.outcome == OutcomeView::Package(name));
                }
            }
        }
        names
    }

    /// Whether the tree has no usable manifest.
    pub fn is_empty(&self) -> (r: bool)
        ensures
            r == (self@ == Map::<Seq<char>, FactView>::empty()),
    {
        proof {
            use_type_invariant(self);
            if self.by_dir.vals@.len() > 0 {
                crate::collections::lemma_key_at(self.by_dir.keys.seq(), 0);
                assert(self@.dom().contains(self.by_dir.keys.seq()[0]));
            } else {
                assert(self@ =~= Map::<Seq<char>, FactView>::empty());
            }
        }
        self.by_dir.len() == 0
    }
}

/// Whether some manifest of the index declares the package `name`.
pub open spec fn declares(m: Map<Seq<char>, FactView>, name: Seq<char>) -> bool {
    exists|dir: Seq<char>| #[trigger]
        m.dom().contains(dir) && m[dir].outcome == OutcomeView::Package(name)
}

spec fn declared_upto(vals: Seq<ManifestPackageFact>, i: int, name: Seq<char>) -> bool {
    exists|k: int| 0 <= k < i && (#[trigger] vals[k])@.outcome == OutcomeView::Package(name)
}

proof fn lemma_declared_step(vals: Seq<ManifestPackageFact>, i: int, name: Seq<char>)
    requires
        0 <= i < vals.len(),
    ensures
        declared_upto(vals, i + 1, name) <==> (declared_upto(vals, i, name) || vals[i]@.outcome
            == OutcomeView::Package(name)),
{
    if declared_upto(vals, i + 1, name) && !declared_upto(vals, i, name) {
        let k = choose|k: int|
            0 <= k < i + 1 && (#[trigger] vals[k])@.outcome == OutcomeView::Package(name);
        assert(k == i);
    }
    if vals[i]@.outcome == OutcomeView::Package(name) {
        assert(declared_upto(vals, i + 1, name));
    }
}

fn insert_name<'a>(names: &mut Vec<&'a str>, name: &'a str)
    requires
        sorted_strict(str_views(old(names)@)),
    ensures
        sorted_strict(str_views(final(names)@)),
        forall|x: Seq<char>| #[trigger]
            str_views(final(names)@).contains(x) <==> (str_views(old(names)@).contains(x) || x
                == name@),
{
    let ghost t = str_views(names@);
    let mut p: usize = 0;
    while p < names.len()
        invariant
            p <= names@.len(),
            names@ == old(names)@,
            t == str_views(names@),
            sorted_strict(t),
            forall|k: int| 0 <= k < p ==> lex_lt(#[trigger] t[k], name@),
        decreases names@.len() - p,
    {
        assert(t[p as int] == names@[p as int]@);
        match str_order(names[p], name) {
            Order::Less => {
                p = p + 1;
            },
            Order::Equal => {
                assert(t[p as int] == name@);
                return ;
            },
            Order::Greater => {
                proof {
                    lemma_lex_total(t[p as int], name@);
                    assert(lex_lt(name@, t[p as int]));
                    assert forall|k: int| p <= k < t.len() implies lex_lt(name@, #[trigger] t[k]) by {
                        if k > p {
                            lemma_lex_transitive(name@, t[p as int], t[k]);
                        }
                    }
                }
                names.insert(p, name);
                proof {
                    lemma_inserted(t, str_views(names@), p as int, name@);
                }
                return ;
            },
        }
    }
    names.insert(p, name);
    proof {
        lemma_inserted(t, str_views(names@), p as int, name@);
    }
}

proof fn lemma_inserted(t: Seq<Seq<char>>, r: Seq<Seq<char>>, p: int, x: Seq<char>)
    requires
        sorted_strict(t),
        0 <= p <= t.len(),
        r =~= t.insert(p, x),
        forall|k: int| 0 <= k < p ==> lex_lt(#[trigger] t[k], x),
        forall|k: int| p <= k < t.len() ==> lex_lt(x, #[trigger] t[k]),
    ensures
        sorted_strict(r),
        forall|y: Seq<char>| r.contains(y) <==> (t.contains(y) || y == x),
{
    assert forall|y: Seq<char>| r.contains(y) <==> (t.contains(y) || y == x) by {
        if t.contains(y) {
            let k = choose|k: int| 0 <= k < t.len() && t[k] == y;
            if k < p {
                assert(r[k] == y);
            } else {
                assert(r[k + 1] == y);
            }
        }
        if y == x {
            assert(r[p] == y);
        }
        if r.contains(y) {
            let k = choose|k: int| 0 <= k < r.len() && r[k] == y;
            if k < p {
                assert(t[k] == y);
            } else if k > p {
                assert(t[k - 1] == y);
            }
        }
    }
}

fn clone_fact(f: &ManifestPackageFact) -> (r: ManifestPackageFact)
    ensures
        r@ == f@,
{
    let outcome = match &f.outcome {
        ManifestParseOutcome::Package { name } => ManifestParseOutcome::Package {
            name: name.clone(),
        },
        ManifestParseOutcome::UnnamedPackage => ManifestParseOutcome::UnnamedPackage,
        ManifestParseOutcome::Virtual => ManifestParseOutcome::Virtual,
        ManifestParseOutcome::Unparseable => ManifestParseOutcome::Unparseable,
        ManifestParseOutcome::Unreadable => ManifestParseOutcome::Unreadable,
    };
    ManifestPackageFact {
        manifest_repo_relative_path: f.manifest_repo_relative_path.clone(),
        outcome,
    }
}

fn attributed(name: &String, manifest: &String) -> (r: CrateAttribution)
    ensures
        r@ == attributed_view(name@, manifest@),
{
    CrateAttribution {
        status: CrateAttributionStatus::Attributed,
        package_name: Some(name.clone()),
        manifest_repo_relative_path: Some(manifest.clone()),
        unattributed_reason: None,
    }
}

fn unattributed(reason: CrateAttributionReason) -> (r: CrateAttribution)
    ensures
        r@ == unattributed_view(reason),
{
    CrateAttribution {
        status: CrateAttributionStatus::Unattributed,
        package_name: None,
        manifest_repo_relative_path: None,
        unattributed_reason: Some(reason),
    }
}

proof fn lemma_contains_push(s: Seq<FactView>, f: FactView)
    ensures
        forall|g: FactView| #[trigger] s.push(f).contains(g) <==> (s.contains(g) || g == f),
{
    assert forall|g: FactView| #[trigger] s.push(f).contains(g) <==> (s.contains(g) || g == f) by {
        if s.contains(g) {
            let k = choose|k: int| 0 <= k < s.len() && s[k] == g;
            assert(s.push(f)[k] == g);
        }
        if g == f {
            assert(s.push(f)[s.len() as int] == g);
        }
        if s.push(f).contains(g) {
            let k = choose|k: int| 0 <= k < s.push(f).len() && s.push(f)[k] == g;
            if k < s.len() {
                assert(s[k] == g);
            }
        }
    }
}

proof fn lemma_index_same(m: Map<Seq<char>, FactView>, facts: Seq<FactView>, f: FactView)
    requires
        indexes(m, facts),
        directory_of(f.path) is None,
    ensures
        indexes(m, facts.push(f)),
{
    lemma_contains_push(facts, f);
    assert forall|dir: Seq<char>| #[trigger] m.dom().contains(dir) implies decides(
        facts.push(f),
        dir,
        m[dir],
    ) by {
        assert(decides(facts, dir, m[dir]));
    }
}

proof fn lemma_index_insert(
    m: Map<Seq<char>, FactView>,
    facts: Seq<FactView>,
    f: FactView,
    dir: Seq<char>,
)
    requires
        indexes(m, facts),
        directory_of(f.path) == Some(dir),
        m.dom().contains(dir) ==> fact_lt(f, m[dir]),
    ensures
        indexes(m.insert(dir, f), facts.push(f)),
{
    lemma_contains_push(facts, f);
    let m2 = m.insert(dir, f);
    assert forall|d: Seq<char>| #[trigger] m2.dom().contains(d) implies decides(
        facts.push(f),
        d,
        m2[d],
    ) by {
        if d == dir {
            assert forall|g: FactView| #[trigger]
                facts.push(f).contains(g) && directory_of(g.path) == Some(dir) implies f == g
                || fact_lt(f, g) by {
                if facts.contains(g) {
                    assert(m.dom().contains(dir));
                    assert(decides(facts, dir, m[dir]));
                    if m[dir] != g {
                        lemma_fact_transitive(f, m[dir], g);
                    }
                }
            }
        } else {
            assert(decides(facts, d, m[d]));
        }
    }
}

proof fn lemma_index_keep(
    m: Map<Seq<char>, FactView>,
    facts: Seq<FactView>,
    f: FactView,
    dir: Seq<char>,
)
    requires
        indexes(m, facts),
        directory_of(f.path) == Some(dir),
        m.dom().contains(dir),
        !fact_lt(f, m[dir]),
    ensures
        indexes(m, facts.push(f)),
{
    lemma_contains_push(facts, f);
    assert forall|d: Seq<char>| #[trigger] m.dom().contains(d) implies decides(
        facts.push(f),
        d,
        m[d],
    ) by {
        assert(decides(facts, d, m[d]));
        if d == dir {
            lemma_fact_total(f, m[dir]);
        }
    }
}

/// The directories that enclose a file, nearest first, down to the root.
pub fn ancestor_dirs(repo_relative_path: &str) -> (dirs: Vec<String>)
    ensures
        views(dirs@) == enclosing_dirs(directory_segments(repo_relative_path@)),
        dirs@.len() == directory_segments(repo_relative_path@).len() + 1,
{
    let parts = split(repo_relative_path, '/');
    let mut kept: Vec<String> = Vec::new();
    let mut i: usize = 0;
    proof {
        assert(views(parts@).take(0) =~= Seq::<Seq<char>>::empty());
        assert(views(kept@) =~= nonempty(views(parts@).take(0)));
    }
    while i < parts.len()
        invariant
            i <= parts@.len(),
            views(kept@) == nonempty(views(parts@).take(i as int)),
        decreases parts@.len() - i,
    {
        let ghost upto = views(parts@).take(i + 1);
        proof {
            assert(upto.drop_last() =~= views(parts@).take(i as int));
            assert(upto.last() == parts@[i as int]@);
        }
        if !parts[i].as_str().is_empty() {
            kept.push(parts[i].clone());
            assert(views(kept@) =~= nonempty(upto));
        }
        i = i + 1;
    }
    assert(views(parts@).take(i as int) =~= views(parts@));
    let ghost all = views(kept@);
    let _ = kept.pop();
    let ghost segments = directory_segments(repo_relative_path@);
    assert(views(kept@) =~= segments);
    let mut dirs: Vec<String> = Vec::new();
    let mut n: usize = kept.len();
    loop
        invariant
            n <= kept@.len(),
            segments == directory_segments(repo_relative_path@),
            views(kept@) == segments,
            kept@.len() == segments.len(),
            dirs@.len() == segments.len() - n,
            forall|k: int| 0 <= k < dirs@.len() ==> (#[trigger] dirs@[k])@ == dir_at(
                segments,
                segments.len() - k,
            ),
        decreases n,
    {
        dirs.push(join_prefix(&kept, n, "/"));
        if n == 0 {
            assert(views(dirs@) =~= enclosing_dirs(segments));
            return dirs;
        }
        n = n - 1;
    }
}

/// Whether nodes of the kind carry an attribution.
pub fn carries_crate_attribution(kind: NodeKind) -> (r: bool)
    ensures
        r == carries(kind),
{
    match kind {
        NodeKind::File
        | NodeKind::Module
        | NodeKind::Symbol
        | NodeKind::Import
        | NodeKind::Diagnostic
        | NodeKind::PanicRiskSite
        | NodeKind::DebtMarker
        | NodeKind::UnsafeSite
        | NodeKind::DependencyDeclaration => true,
        _ => false,
    }
}

/// Stamps every node that carries an attribution and has a path. Identifiers and
/// all else stay as they were.
pub fn apply_crate_attribution(records: &mut Vec<GraphRecord>, index: &CrateAttributionIndex)
    ensures
        final(records)@.len() == old(records)@.len(),
        forall|i: int|
            0 <= i < old(records)@.len() ==> (#[trigger] final(records)@[i])@ == stamped(
                old(records)@[i]@,
                index@,
            ),
{
    let mut i: usize = 0;
    while i < records.len()
        invariant
            i <= records@.len(),
            records@.len() == old(records)@.len(),
            forall|k: int|
                0 <= k < i ==> (#[trigger] records@[k])@ == stamped(old(records)@[k]@, index@),
            forall|k: int| i <= k < records@.len() ==> #[trigger] records@[k] == old(records)@[k],
        decreases records@.len() - i,
    {
        let stamp = match &records[i] {
            GraphRecord::Node(n) => {
                if carries_crate_attribution(n.kind) {
                    match &n.repo_relative_path {
                        Some(path) => Some(index.attribution_for(path.as_str())),
                        None => None,
                    }
                } else {
                    None
                }
            },
            _ => None,
        };
        if stamp.is_some() {
            match &mut records[i] {
                GraphRecord::Node(n) => {
                    n.crate_attribution = stamp;
                },
                _ => {},
            }
        }
        i = i + 1;
    }
}

} // verus!
