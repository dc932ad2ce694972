//! What is embedded for search by meaning, and how far a meaning has moved.

use vstd::prelude::*;
use vstd::string::*;

use crate::collections::{
    arranges, lemma_ranked_views, lemma_sorted_by, sort_ranked, sorted_by, sorted_strict,
    weak_order, Ranked, StrSet,
};
use crate::identity::{stable_id, stable_id_of};
use crate::ir::{
    blank_node, edge_label_name, lemma_shown_none, lemma_shown_push, metric_name, record_id,
    record_views, shown, EdgeLabel, EdgeRecord, EdgeView, EmbeddingModel, EmbeddingModelView,
    GraphRecord, MetricKind, NodeKind, NodeRecord, NodeView, RecordView, SEMANTIC_SCHEMA_VERSION,
    SelectionBasis, SemanticDriftMetadata, SemanticDriftView, TemporalMetadata, TemporalView,
};
use crate::scan::{trim, trim_seq};
use crate::text::{
    as_opt_str, concat2, concat5, concat7, join, join_seq, lemma_lex_three, lemma_opt_lex_three,
    lex_lt, lex_order, opt_clone, opt_lex_order, opt_str_order, opt_view, str_lt, str_order,
    str_views, views, Order,
};

verus! {

/// The model that is used where none is named.
pub const DEFAULT_EMBEDDING_MODEL_NAME: &'static str = "sentence-transformers/all-MiniLM-L6-v2";

/// Who provides the model.
pub const DEFAULT_EMBEDDING_MODEL_PROVIDER: &'static str = "aletheiadb_re_export";

/// The hash of a model whose bytes are not at hand.
pub const DEFAULT_EMBEDDING_MODEL_CONTENT_HASH: &'static str = "unknown";

/// The architecture of the model.
pub const DEFAULT_EMBEDDING_MODEL_ARCHITECTURE: &'static str = "bert";

/// How many dimensions a vector of the model has.
pub const DEFAULT_EMBEDDING_MODEL_DIMENSIONS: usize = 384;

/// How many dimensions a vector of the model has, as a record says it.
pub const DIMENSIONS: u32 = 384;

/// A text that is embedded.
#[derive(Clone, Debug, PartialEq, Eq)]
pub struct EmbeddingCandidate {
    /// The record it stands for.
    pub record_id: String,
    /// What it stands for: `file`, `symbol`, `observation`, `decision` or `failure`.
    pub target: String,
    /// The text.
    pub text: String,
    /// The path, where there is one.
    pub repo_relative_path: Option<String>,
    /// The name, where there is one.
    pub name: Option<String>,
    /// Where in history it stands, where it comes from history.
    pub temporal: Option<TemporalMetadata>,
}

/// The view of a [`EmbeddingCandidate`].
#[verifier::ext_equal]
pub struct CandidateView {
    pub record_id: Seq<char>,
    pub target: Seq<char>,
    pub text: Seq<char>,
    pub repo_relative_path: Option<Seq<char>>,
    pub name: Option<Seq<char>>,
    pub temporal: Option<TemporalView>,
}

impl View for EmbeddingCandidate {
    type V = CandidateView;

    open spec fn view(&self) -> CandidateView {
        CandidateView {
            record_id: self.record_id@,
            target: self.target@,
            text: self.text@,
            repo_relative_path: opt_view(self.repo_relative_path),
            name: opt_view(self.name),
            temporal: match self.temporal {
                Some(x) => Some(x@),
                None => None,
            },
        }
    }
}

impl EmbeddingCandidate {
    /// A copy with the same view.
    pub fn copy(&self) -> (r: EmbeddingCandidate)
        ensures
            r@ == self@,
    {
        EmbeddingCandidate {
            record_id: self.record_id.clone(),
            target: self.target.clone(),
            text: self.text.clone(),
            repo_relative_path: opt_clone(&self.repo_relative_path),
            name: opt_clone(&self.name),
            temporal: match &self.temporal {
                Some(x) => Some(x.copy()),
                None => None,
            },
        }
    }
}

/// The views of a list.
pub open spec fn embedding_candidate_views(s: Seq<EmbeddingCandidate>) -> Seq<CandidateView> {
    s.map_values(|x: EmbeddingCandidate| x@)
}

// ---------------------------------------------------------------------------
// Keys
// ---------------------------------------------------------------------------

/// What a vector is stored under: the record, and where in history it stands, so that
/// two observations of one record keep vectors of their own.
#[derive(Clone, Debug, PartialEq, Eq, PartialOrd, Ord)]
pub struct EmbeddingVectorKey {
    record_id: String,
    git_commit: Option<String>,
    valid_time: Option<String>,
    observed_at: Option<String>,
}

/// The view of an [`EmbeddingVectorKey`].
#[verifier::ext_equal]
pub struct VectorKeyView {
    pub record_id: Seq<char>,
    pub git_commit: Option<Seq<char>>,
    pub valid_time: Option<Seq<char>>,
    pub observed_at: Option<Seq<char>>,
}

impl View for EmbeddingVectorKey {
    type V = VectorKeyView;

    closed spec fn view(&self) -> VectorKeyView {
        VectorKeyView {
            record_id: self.record_id@,
            git_commit: opt_view(self.git_commit),
            valid_time: opt_view(self.valid_time),
            observed_at: opt_view(self.observed_at),
        }
    }
}

/// The key of an observation of a record.
pub open spec fn vector_key(record_id: Seq<char>, temporal: Option<TemporalView>) -> VectorKeyView {
    match temporal {
        Some(t) => VectorKeyView {
            record_id,
            git_commit: Some(t.git_commit),
            valid_time: Some(t.valid_time),
            observed_at: Some(t.observed_at),
        },
        None => VectorKeyView { record_id, git_commit: None, valid_time: None, observed_at: None },
    }
}

/// The view of what may be known of history.
pub open spec fn opt_temporal(t: Option<TemporalMetadata>) -> Option<TemporalView> {
    match t {
        Some(x) => Some(x@),
        None => None,
    }
}

impl EmbeddingVectorKey {
    /// The key of a node; other records have none.
    pub fn from_record(record: &GraphRecord) -> (r: Option<EmbeddingVectorKey>)
        ensures
            match *record {
                GraphRecord::Node(n) => r is Some && r->0@ == vector_key(
                    n.id@,
                    opt_temporal(n.temporal),
                ),
                _ => r is None,
            },
    {
        match record {
            GraphRecord::Node(n) => Some(
                EmbeddingVectorKey::from_parts(n.id.as_str(), &n.temporal),
            ),
            _ => None,
        }
    }

    /// The key of a candidate.
    pub fn from_candidate(candidate: &EmbeddingCandidate) -> (r: EmbeddingVectorKey)
        ensures
            r@ == vector_key(candidate@.record_id, candidate@.temporal),
    {
        EmbeddingVectorKey::from_parts(candidate.record_id.as_str(), &candidate.temporal)
    }

    fn from_parts(record_id: &str, temporal: &Option<TemporalMetadata>) -> (r: EmbeddingVectorKey)
        ensures
            r@ == vector_key(record_id@, opt_temporal(*temporal)),
    {
        match temporal {
            Some(t) => EmbeddingVectorKey {
                record_id: record_id.to_string(),
                git_commit: Some(t.git_commit.clone()),
                valid_time: Some(t.valid_time.clone()),
                observed_at: Some(t.observed_at.clone()),
            },
            None => EmbeddingVectorKey {
                record_id: record_id.to_string(),
                git_commit: None,
                valid_time: None,
                observed_at: None,
            },
        }
    }

    fn precedes(&self, other: &EmbeddingVectorKey) -> (r: bool)
        ensures
            r == key_before(self@, other@),
    {
        match str_order(self.record_id.as_str(), other.record_id.as_str()) {
            Order::Less => return true,
            Order::Greater => return false,
            Order::Equal => {},
        }
        match opt_str_order(as_opt_str(&self.git_commit), as_opt_str(&other.git_commit)) {
            Order::Less => return true,
            Order::Greater => return false,
            Order::Equal => {},
        }
        match opt_str_order(as_opt_str(&self.valid_time), as_opt_str(&other.valid_time)) {
            Order::Less => return true,
            Order::Greater => return false,
            Order::Equal => {},
        }
        match opt_str_order(as_opt_str(&self.observed_at), as_opt_str(&other.observed_at)) {
            Order::Less => true,
            Order::Greater => false,
            Order::Equal => false,
        }
    }
}

/// Whether the first of two comparisons that tells them apart says that the one comes
/// before the other.
pub open spec fn less_by(first: Order, rest: bool) -> bool {
    match first {
        Order::Less => true,
        Order::Greater => false,
        Order::Equal => rest,
    }
}

/// Whether one key comes before another: by record, then by commit, by time and by
/// when it was observed; what is missing comes first.
pub open spec fn key_before(a: VectorKeyView, b: VectorKeyView) -> bool {
    less_by(
        lex_order(a.record_id, b.record_id),
        less_by(
            opt_lex_order(a.git_commit, b.git_commit),
            less_by(
                opt_lex_order(a.valid_time, b.valid_time),
                opt_lex_order(a.observed_at, b.observed_at) == Order::Less,
            ),
        ),
    )
}

/// The key of a candidate.
pub open spec fn key_of(c: CandidateView) -> VectorKeyView {
    vector_key(c.record_id, c.temporal)
}

// ---------------------------------------------------------------------------
// Candidates
// ---------------------------------------------------------------------------

/// What a node of the memory of an agent stands for.
pub open spec fn memory_class(kind: NodeKind) -> Option<Seq<char>> {
    match kind {
        NodeKind::Observation => Some("observation"@),
        NodeKind::Decision => Some("decision"@),
        NodeKind::Failure => Some("failure"@),
        _ => None,
    }
}

fn memory_target(kind: NodeKind) -> (r: Option<&'static str>)
    ensures
        crate::text::opt_str_view(r) == memory_class(kind),
{
    match kind {
        NodeKind::Observation => Some("observation"),
        NodeKind::Decision => Some("decision"),
        NodeKind::Failure => Some("failure"),
        _ => None,
    }
}

/// What a node of code stands for.
pub open spec fn code_class(kind: NodeKind) -> Option<Seq<char>> {
    match kind {
        NodeKind::File => Some("file"@),
        NodeKind::Symbol => Some("symbol"@),
        _ => None,
    }
}

fn code_target(kind: NodeKind) -> (r: Option<&'static str>)
    ensures
        crate::text::opt_str_view(r) == code_class(kind),
{
    match kind {
        NodeKind::File => Some("file"),
        NodeKind::Symbol => Some("symbol"),
        _ => None,
    }
}

/// The lines of the text of a file or a symbol.
pub open spec fn text_lines(
    summary: Seq<char>,
    path: Option<Seq<char>>,
    name: Option<Seq<char>>,
) -> Seq<Seq<char>> {
    let first = match path {
        Some(p) => seq![summary, "path: "@ + p],
        None => seq![summary],
    };
    match name {
        Some(n) => first.push("name: "@ + n),
        None => first,
    }
}

fn candidate_text(summary: &str, path: &Option<String>, name: &Option<String>) -> (r: String)
    ensures
        r@ == join_seq(text_lines(summary@, opt_view(*path), opt_view(*name)), "\n"@),
{
    let mut parts: Vec<String> = Vec::new();
    parts.push(summary.to_string());
    if let Some(p) = path {
        parts.push(concat2("path: ", p.as_str()));
    }
    if let Some(n) = name {
        parts.push(concat2("name: ", n.as_str()));
    }
    assert(views(parts@) =~= text_lines(summary@, opt_view(*path), opt_view(*name)));
    join(&parts, "\n")
}

/// What is embedded of a node: of a memory the text without the blanks around it, and
/// nothing where that is empty; of a file or a symbol its summary, path and name.
pub open spec fn embedded_text(n: NodeRecord) -> Option<(Seq<char>, Seq<char>)> {
    match (memory_class(n.kind), code_class(n.kind)) {
        (Some(target), _) => {
            let body = match n.text {
                Some(t) => trim_seq(t@),
                None => Seq::empty(),
            };
            if body.len() == 0 {
                None
            } else {
                Some((target, body))
            }
        },
        (None, Some(target)) => Some(
            (
                target,
                join_seq(
                    text_lines(n.summary@, opt_view(n.repo_relative_path), opt_view(n.name)),
                    "\n"@,
                ),
            ),
        ),
        (None, None) => None,
    }
}

/// The candidate of a record, where it has one.
pub open spec fn candidate_of(r: GraphRecord) -> Option<CandidateView> {
    match r {
        GraphRecord::Node(n) => match embedded_text(n) {
            Some(x) => Some(
                CandidateView {
                    record_id: n.id@,
                    target: x.0,
                    text: x.1,
                    repo_relative_path: opt_view(n.repo_relative_path),
                    name: opt_view(n.name),
                    temporal: opt_temporal(n.temporal),
                },
            ),
            None => None,
        },
        _ => None,
    }
}

fn make_candidate(n: &NodeRecord, target: &str, text: String) -> (r: EmbeddingCandidate)
    ensures
        r@ == (CandidateView {
            record_id: n.id@,
            target: target@,
            text: text@,
            repo_relative_path: opt_view(n.repo_relative_path),
            name: opt_view(n.name),
            temporal: opt_temporal(n.temporal),
        }),
{
    EmbeddingCandidate {
        record_id: n.id.clone(),
        target: target.to_string(),
        text,
        repo_relative_path: opt_clone(&n.repo_relative_path),
        name: opt_clone(&n.name),
        temporal: match &n.temporal {
            Some(t) => Some(t.copy()),
            None => None,
        },
    }
}

/// The candidate of a record, where it has one.
pub fn candidate_from_record(record: &GraphRecord) -> (r: Option<EmbeddingCandidate>)
    ensures
        (match r {
            Some(c) => Some(c@),
            None => None,
        }) == candidate_of(*record),
{
    match record {
        GraphRecord::Node(n) => {
            if let Some(target) = memory_target(n.kind) {
                let body = match &n.text {
                    Some(t) => trim(t.as_str()),
                    None => "".to_string(),
                };
                proof {
                    reveal_strlit("");
                    assert(n.text is None ==> body@ =~= Seq::<char>::empty());
                    if body@.len() == 0 {
                        assert(body@ =~= ""@);
                    }
                }
                if crate::text::str_eq(body.as_str(), "") {
                    return None;
                }
                return Some(make_candidate(n, target, body));
            }
            match code_target(n.kind) {
                Some(target) => {
                    let text = candidate_text(n.summary.as_str(), &n.repo_relative_path, &n.name);
                    Some(make_candidate(n, target, text))
                },
                None => None,
            }
        },
        _ => None,
    }
}

/// The candidates of the first `n` records.
pub open spec fn candidates_upto(records: Seq<GraphRecord>, n: int) -> Seq<CandidateView>
    decreases n,
{
    if n <= 0 {
        Seq::empty()
    } else {
        match candidate_of(records[n - 1]) {
            Some(c) => candidates_upto(records, n - 1).push(c),
            None => candidates_upto(records, n - 1),
        }
    }
}

/// Candidates in the order of their keys; those with one key stay as they stand.
pub open spec fn by_key(s: Seq<CandidateView>) -> Seq<CandidateView> {
    sorted_by(s, |a: CandidateView, b: CandidateView| key_before(key_of(a), key_of(b)))
}

/// Coming before another candidate by key is a strict weak order.
pub proof fn lemma_key_order()
    ensures
        weak_order(|a: CandidateView, b: CandidateView| key_before(key_of(a), key_of(b))),
{
    let lt = |a: CandidateView, b: CandidateView| key_before(key_of(a), key_of(b));
    assert forall|a: CandidateView, b: CandidateView| #[trigger] lt(a, b) implies !lt(b, a) by {
        lemma_lex_three(key_of(a).record_id, key_of(b).record_id, key_of(a).record_id);
        lemma_opt_lex_three(key_of(a).git_commit, key_of(b).git_commit, key_of(a).git_commit);
        lemma_opt_lex_three(key_of(a).valid_time, key_of(b).valid_time, key_of(a).valid_time);
        lemma_opt_lex_three(key_of(a).observed_at, key_of(b).observed_at, key_of(a).observed_at);
    }
    assert forall|a: CandidateView, b: CandidateView, c: CandidateView|
        !(#[trigger] lt(a, b)) && !(#[trigger] lt(b, c)) implies !lt(a, c) by {
        lemma_lex_three(key_of(a).record_id, key_of(b).record_id, key_of(c).record_id);
        lemma_opt_lex_three(key_of(a).git_commit, key_of(b).git_commit, key_of(c).git_commit);
        lemma_opt_lex_three(key_of(a).valid_time, key_of(b).valid_time, key_of(c).valid_time);
        lemma_opt_lex_three(key_of(a).observed_at, key_of(b).observed_at, key_of(c).observed_at);
    }
}

impl Ranked for EmbeddingCandidate {
    open spec fn before(self, other: Self) -> bool {
        key_before(key_of(self@), key_of(other@))
    }

    fn is_before(&self, other: &Self) -> (r: bool) {
        let a = EmbeddingVectorKey::from_candidate(self);
        let b = EmbeddingVectorKey::from_candidate(other);
        a.precedes(&b)
    }
}

/// The texts to embed of the records, in the order of their keys.
pub fn embedding_candidates(records: &Vec<GraphRecord>) -> (r: Vec<EmbeddingCandidate>)
    ensures
        embedding_candidate_views(r@) == by_key(candidates_upto(records@, records@.len() as int)),
        arranges(
            embedding_candidate_views(r@),
            candidates_upto(records@, records@.len() as int),
            |a: CandidateView, b: CandidateView| key_before(key_of(a), key_of(b)),
        ),
{
    let mut all: Vec<EmbeddingCandidate> = Vec::new();
    let mut i: usize = 0;
    assert(embedding_candidate_views(all@) =~= Seq::empty());
    while i < records.len()
        invariant
            i <= records@.len(),
            embedding_candidate_views(all@) == candidates_upto(records@, i as int),
        decreases records@.len() - i,
    {
        if let Some(c) = candidate_from_record(&records[i]) {
            let ghost before = all@;
            all.push(c);
            assert(embedding_candidate_views(all@) =~= embedding_candidate_views(before).push(c@));
        }
        i = i + 1;
    }
    let ghost before = all@;
    let ghost f = |x: EmbeddingCandidate| x@;
    let ghost lt = |a: CandidateView, b: CandidateView| key_before(key_of(a), key_of(b));
    let out = sort_ranked(all);
    proof {
        lemma_ranked_views(before, f, lt);
        assert(embedding_candidate_views(before) =~= before.map_values(f));
        assert(embedding_candidate_views(out@) =~= out@.map_values(f));
        lemma_key_order();
        lemma_sorted_by(embedding_candidate_views(before), lt);
    }
    out
}

// ---------------------------------------------------------------------------
// Drift
// ---------------------------------------------------------------------------

/// What makes two candidates observations of one thing: what they stand for, the path
/// and the name.
pub open spec fn entity_of(c: CandidateView) -> Seq<char> {
    c.target + "\0"@ + text_or_none(c.repo_relative_path) + "\0"@ + text_or_none(c.name)
}

/// A text, or nothing.
pub open spec fn text_or_none(s: Option<Seq<char>>) -> Seq<char> {
    match s {
        Some(x) => x,
        None => ""@,
    }
}

fn str_or_none(s: &Option<String>) -> (r: &str)
    ensures
        r@ == text_or_none(opt_view(*s)),
{
    match s {
        Some(x) => x.as_str(),
        None => "",
    }
}

fn entity_key(c: &EmbeddingCandidate) -> (r: String)
    ensures
        r@ == entity_of(c@),
{
    concat5(
        c.target.as_str(),
        "\0",
        str_or_none(&c.repo_relative_path),
        "\0",
        str_or_none(&c.name),
    )
}

/// An observation, by its place in the list and in history.
pub struct Observed {
    pub index: usize,
    pub valid_time: String,
    pub git_commit: String,
}

/// The view of an [`Observed`].
#[verifier::ext_equal]
pub struct ObservedView {
    pub index: usize,
    pub valid_time: Seq<char>,
    pub git_commit: Seq<char>,
}

impl View for Observed {
    type V = ObservedView;

    open spec fn view(&self) -> ObservedView {
        ObservedView {
            index: self.index,
            valid_time: self.valid_time@,
            git_commit: self.git_commit@,
        }
    }
}

/// The views of observations.
pub open spec fn observed_views(s: Seq<Observed>) -> Seq<ObservedView> {
    s.map_values(|x: Observed| x@)
}

/// Whether one observation comes before another: by time, then by commit.
pub open spec fn observed_before(a: ObservedView, b: ObservedView) -> bool {
    less_by(lex_order(a.valid_time, b.valid_time), lex_lt(a.git_commit, b.git_commit))
}

/// Coming before another observation in history is a strict weak order.
pub proof fn lemma_observed_order()
    ensures
        weak_order(|a: ObservedView, b: ObservedView| observed_before(a, b)),
{
    let lt = |a: ObservedView, b: ObservedView| observed_before(a, b);
    assert forall|a: ObservedView, b: ObservedView| #[trigger] lt(a, b) implies !lt(b, a) by {
        lemma_lex_three(a.valid_time, b.valid_time, a.valid_time);
        lemma_lex_three(a.git_commit, b.git_commit, a.git_commit);
    }
    assert forall|a: ObservedView, b: ObservedView, c: ObservedView|
        !(#[trigger] lt(a, b)) && !(#[trigger] lt(b, c)) implies !lt(a, c) by {
        lemma_lex_three(a.valid_time, b.valid_time, c.valid_time);
        lemma_lex_three(a.git_commit, b.git_commit, c.git_commit);
    }
}

impl Ranked for Observed {
    open spec fn before(self, other: Self) -> bool {
        observed_before(self@, other@)
    }

    fn is_before(&self, other: &Self) -> (r: bool) {
        match str_order(self.valid_time.as_str(), other.valid_time.as_str()) {
            Order::Less => true,
            Order::Greater => false,
            Order::Equal => str_lt(self.git_commit.as_str(), other.git_commit.as_str()),
        }
    }
}

/// The observations of an entity among the first `n` candidates.
pub open spec fn observations(cs: Seq<CandidateView>, entity: Seq<char>, n: int) -> Seq<
    ObservedView,
>
    decreases n,
{
    if n <= 0 {
        Seq::empty()
    } else {
        let rest = observations(cs, entity, n - 1);
        match cs[n - 1].temporal {
            Some(t) => if entity_of(cs[n - 1]) == entity {
                rest.push(
                    ObservedView {
                        index: (n - 1) as usize,
                        valid_time: t.valid_time,
                        git_commit: t.git_commit,
                    },
                )
            } else {
                rest
            },
            None => rest,
        }
    }
}

/// The observations of an entity in the order of history.
pub open spec fn in_time(cs: Seq<CandidateView>, entity: Seq<char>) -> Seq<ObservedView> {
    sorted_by(
        observations(cs, entity, cs.len() as int),
        |a: ObservedView, b: ObservedView| observed_before(a, b),
    )
}

/// The neighbours among the first `n` observations.
pub open spec fn neighbours(s: Seq<ObservedView>, n: int) -> Seq<(usize, usize)>
    decreases n,
{
    if n <= 1 {
        Seq::empty()
    } else {
        neighbours(s, n - 1).push((s[n - 2].index, s[n - 1].index))
    }
}

/// The neighbours of the first `n` entities.
pub open spec fn pairs_upto(cs: Seq<CandidateView>, entities: Seq<Seq<char>>, n: int) -> Seq<
    (usize, usize),
>
    decreases n,
{
    if n <= 0 {
        Seq::empty()
    } else {
        let s = in_time(cs, entities[n - 1]);
        pairs_upto(cs, entities, n - 1) + neighbours(s, s.len() as int)
    }
}

/// Whether an entity is observed in history.
pub open spec fn observed_entity(cs: Seq<CandidateView>, n: int, entity: Seq<char>) -> bool {
    exists|i: int|
        0 <= i < n && (#[trigger] cs[i]).temporal is Some && entity_of(cs[i]) == entity
}

/// Whether these are the entities that are observed in history, in order and each once.
pub open spec fn entities_of(cs: Seq<CandidateView>, entities: Seq<Seq<char>>) -> bool {
    sorted_strict(entities) && forall|x: Seq<char>| #[trigger]
        entities.contains(x) <==> observed_entity(cs, cs.len() as int, x)
}

fn observed_entities(cs: &Vec<EmbeddingCandidate>) -> (r: Vec<String>)
    ensures
        entities_of(embedding_candidate_views(cs@), views(r@)),
{
    let ghost v = embedding_candidate_views(cs@);
    let mut set = StrSet::new();
    let mut i: usize = 0;
    while i < cs.len()
        invariant
            i <= cs@.len(),
            v == embedding_candidate_views(cs@),
            set.wf(),
            forall|x: Seq<char>| #[trigger] set.has(x) <==> observed_entity(v, i as int, x),
        decreases cs@.len() - i,
    {
        assert(v[i as int] == cs@[i as int]@);
        let ghost before = set;
        if cs[i].temporal.is_some() {
            let k = entity_key(&cs[i]);
            set.insert(k.as_str());
        }
        proof {
            assert forall|x: Seq<char>| #[trigger] set.has(x) <==> observed_entity(v, i + 1, x) by {
                assert(before.has(x) <==> observed_entity(v, i as int, x));
                if observed_entity(v, i as int, x) {
                    let k = choose|k: int|
                        0 <= k < i && (#[trigger] v[k]).temporal is Some && entity_of(v[k]) == x;
                    assert(v[k].temporal is Some);
                }
            }
        }
        i = i + 1;
    }
    let ghost done = set;
    let r = set.into_vec();
    proof {
        assert forall|x: Seq<char>| #[trigger] views(r@).contains(x) <==> observed_entity(
            v,
            v.len() as int,
            x,
        ) by {
            assert(done.has(x) <==> observed_entity(v, v.len() as int, x));
        }
    }
    r
}

fn observations_of(cs: &Vec<EmbeddingCandidate>, entity: &str) -> (r: Vec<Observed>)
    ensures
        observed_views(r@) == in_time(embedding_candidate_views(cs@), entity@),
        arranges(
            observed_views(r@),
            observations(embedding_candidate_views(cs@), entity@, cs@.len() as int),
            |a: ObservedView, b: ObservedView| observed_before(a, b),
        ),
{
    let ghost v = embedding_candidate_views(cs@);
    let mut all: Vec<Observed> = Vec::new();
    let mut i: usize = 0;
    assert(observed_views(all@) =~= Seq::empty());
    while i < cs.len()
        invariant
            i <= cs@.len(),
            v == embedding_candidate_views(cs@),
            observed_views(all@) == observations(v, entity@, i as int),
        decreases cs@.len() - i,
    {
        assert(v[i as int] == cs@[i as int]@);
        if let Some(t) = &cs[i].temporal {
            let k = entity_key(&cs[i]);
            if crate::text::str_eq(k.as_str(), entity) {
                let ghost before = all@;
                let x = Observed {
                    index: i,
                    valid_time: t.valid_time.clone(),
                    git_commit: t.git_commit.clone(),
                };
                all.push(x);
                assert(observed_views(all@) =~= observed_views(before).push(x@));
            }
        }
        i = i + 1;
    }
    let ghost before = all@;
    let ghost f = |x: Observed| x@;
    let ghost lt = |a: ObservedView, b: ObservedView| observed_before(a, b);
    let out = sort_ranked(all);
    proof {
        lemma_ranked_views(before, f, lt);
        assert(observed_views(before) =~= before.map_values(f));
        assert(observed_views(out@) =~= out@.map_values(f));
        lemma_observed_order();
        lemma_sorted_by(observed_views(before), lt);
        assert(v.len() == cs@.len());
    }
    out
}

/// The pairs of candidates whose vectors are compared: for each file or symbol, in the
/// order of what it stands for, its path and its name, each observation with the next
/// one in history.
pub fn drift_pairs(cs: &Vec<EmbeddingCandidate>) -> (r: Vec<(usize, usize)>)
    ensures
        exists|entities: Seq<Seq<char>>| #[trigger]
            entities_of(embedding_candidate_views(cs@), entities) && r@ == pairs_upto(
                embedding_candidate_views(cs@),
                entities,
                entities.len() as int,
            ),
{
    let ghost v = embedding_candidate_views(cs@);
    let entities = observed_entities(cs);
    let mut r: Vec<(usize, usize)> = Vec::new();
    let mut i: usize = 0;
    while i < entities.len()
        invariant
            i <= entities@.len(),
            v == embedding_candidate_views(cs@),
            r@ == pairs_upto(v, views(entities@), i as int),
        decreases entities@.len() - i,
    {
        assert(views(entities@)[i as int] == entities@[i as int]@);
        let s = observations_of(cs, entities[i].as_str());
        let ghost sv = observed_views(s@);
        let ghost before = r@;
        let mut k: usize = 1;
        while k < s.len()
            invariant
                1 <= k,
                sv == observed_views(s@),
                k <= s@.len() || k == 1,
                r@ == before + neighbours(sv, k as int),
            decreases s@.len() - k,
        {
            assert(sv[k - 1] == s@[k - 1]@);
            assert(sv[k as int] == s@[k as int]@);
            let ghost t = r@;
            r.push((s[k - 1].index, s[k].index));
            assert(r@ =~= before + neighbours(sv, k + 1));
            k = k + 1;
        }
        proof {
            assert(sv.len() == s@.len());
            if sv.len() <= 1 {
                assert(neighbours(sv, sv.len() as int) =~= neighbours(sv, k as int));
            }
        }
        i = i + 1;
    }
    assert(views(entities@).len() == entities@.len());
    assert(entities_of(v, views(entities@)));
    r
}

/// A pair whose distance reached the threshold: the earlier and the later candidate,
/// and the distance as it is written.
pub struct ScoredPair {
    pub before: EmbeddingCandidate,
    pub after: EmbeddingCandidate,
    pub score: String,
}

/// The identifier of a record of meaning.
pub open spec fn semantic_id(parts: Seq<Seq<char>>) -> Seq<char> {
    stable_id_of("semantic"@, SEMANTIC_SCHEMA_VERSION as nat, parts)
}

/// The identifier of a record of meaning.
pub fn semantic_stable_id(parts: &Vec<&str>) -> (r: String)
    ensures
        r@ == semantic_id(str_views(parts@)),
{
    stable_id("semantic", SEMANTIC_SCHEMA_VERSION, parts)
}

/// The model of a measurement.
pub open spec fn drift_model(name: Seq<char>, version: Seq<char>) -> EmbeddingModelView {
    EmbeddingModelView {
        provider: DEFAULT_EMBEDDING_MODEL_PROVIDER@,
        name,
        version,
        dim: DIMENSIONS,
        content_hash: DEFAULT_EMBEDDING_MODEL_CONTENT_HASH@,
    }
}

/// What a measurement was made with: the model, its version, and the threshold as it is
/// written.
pub struct DriftBasis {
    pub model_name: String,
    pub model_version: String,
    pub threshold: String,
}

/// The identifier of a measurement.
pub open spec fn drift_id(
    before: CandidateView,
    after: CandidateView,
    b: TemporalView,
    a: TemporalView,
    basis: DriftBasis,
) -> Seq<char> {
    semantic_id(
        seq![
            "semantic"@,
            "semantic_drift"@,
            DEFAULT_EMBEDDING_MODEL_PROVIDER@,
            basis.model_name@,
            basis.model_version@,
            DEFAULT_EMBEDDING_MODEL_CONTENT_HASH@,
            metric_name(MetricKind::CosineDistance),
            basis.threshold@,
            before.record_id,
            after.record_id,
            b.git_commit,
            a.git_commit,
        ],
    )
}

/// The node of a measurement.
#[verifier::opaque]
pub open spec fn drift_node(
    before: CandidateView,
    after: CandidateView,
    b: TemporalView,
    a: TemporalView,
    score: Seq<char>,
    basis: DriftBasis,
) -> NodeView {
    NodeView {
        repo_relative_path: after.repo_relative_path,
        name: match after.name {
            Some(x) => Some(x),
            None => after.repo_relative_path,
        },
        temporal: Some(a),
        domain: Some("semantic"@),
        valid_time: Some(a.valid_time),
        valid_time_source: Some("after_valid_time"@),
        observed_at: Some(a.observed_at),
        semantic_drift: Some(
            SemanticDriftView {
                embedding_model: drift_model(basis.model_name@, basis.model_version@),
                target_record_id: after.record_id,
                prior_record_id: before.record_id,
                before_git_commit: b.git_commit,
                after_git_commit: a.git_commit,
                before_valid_time: b.valid_time,
                after_valid_time: a.valid_time,
                metric_kind: MetricKind::CosineDistance,
                score,
                selection_threshold: basis.threshold@,
                selection_basis: SelectionBasis::ThresholdOnly,
            },
        ),
        ..blank_node(
            drift_id(before, after, b, a, basis),
            NodeKind::SemanticDrift,
            SEMANTIC_SCHEMA_VERSION,
            "Semantic drift for "@ + after.record_id + " from "@ + b.git_commit + " to "@
                + a.git_commit + " scored "@ + score,
        )
    }
}

/// An edge of a measurement.
#[verifier::opaque]
pub open spec fn drift_edge(
    label: EdgeLabel,
    source: Seq<char>,
    target: Seq<char>,
    summary: Seq<char>,
    temporal: TemporalView,
) -> EdgeView {
    EdgeView {
        rest: None,
        id: semantic_id(seq!["edge"@, edge_label_name(label), source, target]),
        schema_version: SEMANTIC_SCHEMA_VERSION,
        label,
        source,
        target,
        confidence: Some("1.0"@),
        resolution: None,
        temporal: Some(temporal),
        summary,
    }
}

/// The records of a measurement: what it found, and the two observations that it
/// compares; nothing where one of them has no place in history.
pub open spec fn drift_pair_view(
    before: CandidateView,
    after: CandidateView,
    score: Seq<char>,
    basis: DriftBasis,
) -> Seq<RecordView> {
    match (before.temporal, after.temporal) {
        (Some(b), Some(a)) => seq![
            RecordView::Node(drift_node(before, after, b, a, score, basis)),
            RecordView::Edge(
                drift_edge(
                    EdgeLabel::DriftsFrom,
                    drift_id(before, after, b, a, basis),
                    after.record_id,
                    "Semantic drift measurement target"@,
                    a,
                ),
            ),
            RecordView::Edge(
                drift_edge(
                    EdgeLabel::DriftsPrior,
                    drift_id(before, after, b, a, basis),
                    before.record_id,
                    "Semantic drift prior measurement target"@,
                    b,
                ),
            ),
        ],
        _ => Seq::empty(),
    }
}

fn make_drift_id(
    p: &ScoredPair,
    b: &TemporalMetadata,
    a: &TemporalMetadata,
    basis: &DriftBasis,
) -> (r: String)
    ensures
        r@ == drift_id(p.before@, p.after@, b@, a@, *basis),
{
    let mut parts: Vec<&str> = Vec::new();
    parts.push("semantic");
    parts.push("semantic_drift");
    parts.push(DEFAULT_EMBEDDING_MODEL_PROVIDER);
    parts.push(basis.model_name.as_str());
    parts.push(basis.model_version.as_str());
    parts.push(DEFAULT_EMBEDDING_MODEL_CONTENT_HASH);
    parts.push(MetricKind::CosineDistance.as_str());
    parts.push(basis.threshold.as_str());
    parts.push(p.before.record_id.as_str());
    parts.push(p.after.record_id.as_str());
    parts.push(b.git_commit.as_str());
    parts.push(a.git_commit.as_str());
    assert(str_views(parts@) =~= seq![
        "semantic"@,
        "semantic_drift"@,
        DEFAULT_EMBEDDING_MODEL_PROVIDER@,
        basis.model_name@,
        basis.model_version@,
        DEFAULT_EMBEDDING_MODEL_CONTENT_HASH@,
        metric_name(MetricKind::CosineDistance),
        basis.threshold@,
        p.before@.record_id,
        p.after@.record_id,
        b@.git_commit,
        a@.git_commit,
    ]);
    semantic_stable_id(&parts)
}

fn make_drift_edge(
    label: EdgeLabel,
    source: &str,
    target: &str,
    summary: &str,
    temporal: &TemporalMetadata,
) -> (r: GraphRecord)
    ensures
        shown(r) == RecordView::Edge(
            drift_edge(label, source@, target@, summary@, temporal@),
        ),
{
    let mut parts: Vec<&str> = Vec::new();
    parts.push("edge");
    parts.push(label.as_str());
    parts.push(source);
    parts.push(target);
    assert(str_views(parts@) =~= seq!["edge"@, edge_label_name(label), source@, target@]);
    let e = EdgeRecord {
        rest: None,
        id: semantic_stable_id(&parts),
        schema_version: SEMANTIC_SCHEMA_VERSION,
        label,
        source: source.to_string(),
        target: target.to_string(),
        confidence: Some("1.0".to_string()),
        resolution: None,
        temporal: Some(temporal.copy()),
        summary: summary.to_string(),
    };
    proof {
        reveal(drift_edge);
        reveal(shown);
        assert(e@ =~= drift_edge(label, source@, target@, summary@, temporal@));
    }
    GraphRecord::Edge(e)
}

fn make_drift_node(
    p: &ScoredPair,
    b: &TemporalMetadata,
    a: &TemporalMetadata,
    id: &str,
    basis: &DriftBasis,
) -> (r: GraphRecord)
    requires
        id@ == drift_id(p.before@, p.after@, b@, a@, *basis),
    ensures
        shown(r) == RecordView::Node(
            drift_node(p.before@, p.after@, b@, a@, p.score@, *basis),
        ),
{
    let head = concat7(
        "Semantic drift for ",
        p.after.record_id.as_str(),
        " from ",
        b.git_commit.as_str(),
        " to ",
        a.git_commit.as_str(),
        " scored ",
    );
    let summary = concat2(head.as_str(), p.score.as_str());
    proof {
        assert(summary@ =~= "Semantic drift for "@ + p.after@.record_id + " from "@
            + b@.git_commit + " to "@ + a@.git_commit + " scored "@ + p.score@);
    }
    let mut n = NodeRecord::blank(
        id.to_string(),
        NodeKind::SemanticDrift,
        SEMANTIC_SCHEMA_VERSION,
        summary,
    );
    n.repo_relative_path = opt_clone(&p.after.repo_relative_path);
    n.name = match &p.after.name {
        Some(x) => Some(x.clone()),
        None => opt_clone(&p.after.repo_relative_path),
    };
    n.temporal = Some(a.copy());
    n.domain = Some("semantic".to_string());
    n.valid_time = Some(a.valid_time.clone());
    n.valid_time_source = Some("after_valid_time".to_string());
    n.observed_at = Some(a.observed_at.clone());
    n.semantic_drift = Some(
        SemanticDriftMetadata {
            embedding_model: EmbeddingModel {
                provider: DEFAULT_EMBEDDING_MODEL_PROVIDER.to_string(),
                name: basis.model_name.clone(),
                version: basis.model_version.clone(),
                dim: DIMENSIONS,
                content_hash: DEFAULT_EMBEDDING_MODEL_CONTENT_HASH.to_string(),
            },
            target_record_id: p.after.record_id.clone(),
            prior_record_id: p.before.record_id.clone(),
            before_git_commit: b.git_commit.clone(),
            after_git_commit: a.git_commit.clone(),
            before_valid_time: b.valid_time.clone(),
            after_valid_time: a.valid_time.clone(),
            metric_kind: MetricKind::CosineDistance,
            score: p.score.clone(),
            selection_threshold: basis.threshold.clone(),
            selection_basis: SelectionBasis::ThresholdOnly,
        },
    );
    proof {
        reveal(drift_node);
        reveal(shown);
        assert(n@ =~= drift_node(p.before@, p.after@, b@, a@, p.score@, *basis));
    }
    GraphRecord::Node(n)
}

proof fn lemma_three_more<V>(base: Seq<V>, a: V, b: V, c: V)
    ensures
        base.push(a).push(b).push(c) == base + seq![a, b, c],
{
    assert(base.push(a).push(b).push(c) =~= base + seq![a, b, c]);
}

proof fn lemma_none_more<V>(base: Seq<V>)
    ensures
        base + Seq::<V>::empty() == base,
{
    assert(base + Seq::<V>::empty() =~= base);
}

fn push_drift_pair(out: &mut Vec<GraphRecord>, p: &ScoredPair, basis: &DriftBasis)
    ensures
        record_views(final(out)@) == record_views(old(out)@) + drift_pair_view(
            p.before@,
            p.after@,
            p.score@,
            *basis,
        ),
{
    match (&p.before.temporal, &p.after.temporal) {
        (Some(b), Some(a)) => {
            let id = make_drift_id(p, b, a, basis);
            let node = make_drift_node(p, b, a, id.as_str(), basis);
            let target = make_drift_edge(
                EdgeLabel::DriftsFrom,
                id.as_str(),
                p.after.record_id.as_str(),
                "Semantic drift measurement target",
                a,
            );
            let prior = make_drift_edge(
                EdgeLabel::DriftsPrior,
                id.as_str(),
                p.before.record_id.as_str(),
                "Semantic drift prior measurement target",
                b,
            );
            proof {
                lemma_shown_push(out@, node);
                lemma_shown_push(out@.push(node), target);
                lemma_shown_push(out@.push(node).push(target), prior);
                lemma_three_more(record_views(out@), shown(node), shown(target), shown(prior));
            }
            out.push(node);
            out.push(target);
            out.push(prior);
        },
        _ => {
            proof {
                lemma_none_more(record_views(out@));
            }
        },
    }
}

/// The records of one measurement.
pub fn drift_pair_records(p: &ScoredPair, basis: &DriftBasis) -> (r: Vec<GraphRecord>)
    ensures
        record_views(r@) == drift_pair_view(p.before@, p.after@, p.score@, *basis),
{
    let mut out: Vec<GraphRecord> = Vec::new();
    push_drift_pair(&mut out, p, basis);
    proof {
        lemma_shown_none();
        lemma_none_first(drift_pair_view(p.before@, p.after@, p.score@, *basis));
    }
    out
}

proof fn lemma_none_first<V>(s: Seq<V>)
    ensures
        Seq::<V>::empty() + s == s,
{
    assert(Seq::<V>::empty() + s =~= s);
}

/// The identifier that a view shows.
pub open spec fn shown_id(v: RecordView) -> Seq<char> {
    match v {
        RecordView::Node(n) => n.id,
        RecordView::Edge(e) => e.id,
        RecordView::Tombstone(t) => t.id,
    }
}

/// The records of the first `n` measurements.
pub open spec fn measured(pairs: Seq<ScoredPair>, basis: DriftBasis, n: int) -> Seq<RecordView>
    decreases n,
{
    if n <= 0 {
        Seq::empty()
    } else {
        let p = pairs[n - 1];
        measured(pairs, basis, n - 1) + drift_pair_view(p.before@, p.after@, p.score@, basis)
    }
}

/// Records in the order of their identifiers; those with one identifier stay as they
/// stand.
pub open spec fn by_id(s: Seq<RecordView>) -> Seq<RecordView> {
    sorted_by(s, |a: RecordView, b: RecordView| lex_lt(shown_id(a), shown_id(b)))
}

/// Coming before another record by identifier is a strict weak order.
pub proof fn lemma_id_order()
    ensures
        weak_order(|a: RecordView, b: RecordView| lex_lt(shown_id(a), shown_id(b))),
{
    let lt = |a: RecordView, b: RecordView| lex_lt(shown_id(a), shown_id(b));
    assert forall|a: RecordView, b: RecordView| #[trigger] lt(a, b) implies !lt(b, a) by {
        lemma_lex_three(shown_id(a), shown_id(b), shown_id(a));
    }
    assert forall|a: RecordView, b: RecordView, c: RecordView|
        !(#[trigger] lt(a, b)) && !(#[trigger] lt(b, c)) implies !lt(a, c) by {
        lemma_lex_three(shown_id(a), shown_id(b), shown_id(c));
    }
}

impl Ranked for GraphRecord {
    open spec fn before(self, other: Self) -> bool {
        lex_lt(record_id(self), record_id(other))
    }

    fn is_before(&self, other: &Self) -> (r: bool) {
        str_lt(self.id(), other.id())
    }
}

fn sort_records(records: Vec<GraphRecord>) -> (r: Vec<GraphRecord>)
    ensures
        record_views(r@) == by_id(record_views(records@)),
        arranges(
            record_views(r@),
            record_views(records@),
            |a: RecordView, b: RecordView| lex_lt(shown_id(a), shown_id(b)),
        ),
{
    let ghost before = records@;
    let ghost f = |x: GraphRecord| x@;
    let ghost lt = |a: RecordView, b: RecordView| lex_lt(shown_id(a), shown_id(b));
    let out = sort_ranked(records);
    proof {
        lemma_ranked_views(before, f, lt);
        assert(record_views(before) =~= before.map_values(f));
        assert(record_views(out@) =~= out@.map_values(f));
        lemma_id_order();
        lemma_sorted_by(record_views(before), lt);
    }
    out
}

/// The records of the measurements, in the order of their identifiers.
pub fn drift_records(pairs: &Vec<ScoredPair>, basis: &DriftBasis) -> (r: Vec<GraphRecord>)
    ensures
        record_views(r@) == by_id(measured(pairs@, *basis, pairs@.len() as int)),
        arranges(
            record_views(r@),
            measured(pairs@, *basis, pairs@.len() as int),
            |a: RecordView, b: RecordView| lex_lt(shown_id(a), shown_id(b)),
        ),
{
    let mut out: Vec<GraphRecord> = Vec::new();
    let mut i: usize = 0;
    proof {
        lemma_shown_none();
    }
    while i < pairs.len()
        invariant
            i <= pairs@.len(),
            record_views(out@) == measured(pairs@, *basis, i as int),
        decreases pairs@.len() - i,
    {
        push_drift_pair(&mut out, &pairs[i], basis);
        i = i + 1;
    }
    sort_records(out)
}

// ---------------------------------------------------------------------------
// Laws
// ---------------------------------------------------------------------------

/// The observations of an entity that are compared with their neighbours stand in the
/// order of history, and each stands there as often as it was made.
pub proof fn law_observations_are_in_time(cs: Seq<CandidateView>, entity: Seq<char>)
    ensures
        arranges(
            in_time(cs, entity),
            observations(cs, entity, cs.len() as int),
            |a: ObservedView, b: ObservedView| observed_before(a, b),
        ),
{
    lemma_observed_order();
    lemma_sorted_by(
        observations(cs, entity, cs.len() as int),
        |a: ObservedView, b: ObservedView| observed_before(a, b),
    );
}

/// Two observations of one record at different commits keep vectors of their own.
pub proof fn law_observations_have_keys_of_their_own(
    record_id: Seq<char>,
    a: TemporalView,
    b: TemporalView,
)
    ensures
        vector_key(record_id, Some(a)) == vector_key(record_id, Some(b)) <==> (a.git_commit
            == b.git_commit && a.valid_time == b.valid_time && a.observed_at == b.observed_at),
{
    if vector_key(record_id, Some(a)) == vector_key(record_id, Some(b)) {
        assert(vector_key(record_id, Some(a)).git_commit == Some(a.git_commit));
        assert(vector_key(record_id, Some(a)).valid_time == Some(a.valid_time));
        assert(vector_key(record_id, Some(a)).observed_at == Some(a.observed_at));
    }
}

/// A candidate has the key of the record that it was made from.
pub proof fn law_candidate_keeps_the_key(n: NodeRecord)
    requires
        candidate_of(GraphRecord::Node(n)) is Some,
    ensures
        key_of(candidate_of(GraphRecord::Node(n))->0) == vector_key(
            n.id@,
            opt_temporal(n.temporal),
        ),
{
}

} // verus!
