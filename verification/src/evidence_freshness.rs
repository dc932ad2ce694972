//! Whether the code that an observation cites has moved since.
//!
//! A verdict is a lead, never a claim about truth: `drifted` and `unresolved` say
//! only that the basis of the evidence moved.
//!
//! - `current`: the cited code is unchanged since the anchor of the observation;
//! - `drifted`: the cited symbol or file changed after the anchor;
//! - `unresolved`: the cited handle no longer resolves;
//! - `untemporal`: there is no commit and no time to compare with.

use vstd::prelude::*;
use vstd::string::*;
use vstd::utf8::encode_utf8;

use crate::collections::{
    arranges, lemma_ranked_views, lemma_sorted_by, sort_ranked, sorted_by, sorted_strict,
    weak_order, Ranked, StrSet,
};
use crate::history::{
    all_tips, any_tip, commit_of, descendants_of, descends, has_ancestry, in_dag, tip, tip_for,
    tips_for, valid_of, version_commit, version_valid,
};
use crate::ir::{
    cites_evidence, edge_label_name, node_kind_name, EdgeLabel, EvidenceLink, EvidenceLinkView,
    GraphRecord, NodeKind, NodeRecord, SemanticDriftMetadata, SourceSpan,
};
use crate::liveness::{deleted, find_last_event, find_last_node, is_deleted, last_event, last_node};
use crate::outside::{blake3_hex, blake3_hex_of};
use crate::repository::{owner, RepositoryIndex};
use crate::text::{
    lemma_lex_three, lex_lt, lex_order, opt_clone, opt_is, opt_str_eq, opt_str_view, opt_view,
    str_eq, str_lt, str_order, Order,
};
use crate::time::{compare_times, time_order};

verus! {

/// The verdict on one evidence link.
#[derive(Debug, Clone, Copy, PartialEq, Eq, PartialOrd, Ord, Structural)]
pub enum FreshnessVerdict {
    /// The cited code is unchanged since the anchor.
    Current,
    /// The cited code changed after the anchor.
    Drifted,
    /// The cited handle no longer resolves.
    Unresolved,
    /// There is no anchor to compare with.
    Untemporal,
}

/// The wire name of a verdict.
pub open spec fn verdict_name(v: FreshnessVerdict) -> Seq<char> {
    match v {
        FreshnessVerdict::Current => "current"@,
        FreshnessVerdict::Drifted => "drifted"@,
        FreshnessVerdict::Unresolved => "unresolved"@,
        FreshnessVerdict::Untemporal => "untemporal"@,
    }
}

/// Whether the verdict is a stale one.
pub open spec fn stale(v: FreshnessVerdict) -> bool {
    v == FreshnessVerdict::Drifted || v == FreshnessVerdict::Unresolved
}

impl FreshnessVerdict {
    /// The wire name.
    pub fn as_str(self) -> (r: &'static str)
        ensures
            r@ == verdict_name(self),
    {
        match self {
            FreshnessVerdict::Current => "current",
            FreshnessVerdict::Drifted => "drifted",
            FreshnessVerdict::Unresolved => "unresolved",
            FreshnessVerdict::Untemporal => "untemporal",
        }
    }

    /// Whether the verdict is a stale one.
    pub fn is_stale(self) -> (r: bool)
        ensures
            r == stale(self),
    {
        match self {
            FreshnessVerdict::Drifted | FreshnessVerdict::Unresolved => true,
            _ => false,
        }
    }
}

/// The text on every stale verdict.
pub const FRESHNESS_LEAD: &'static str =
    "evidence basis moved since the observation's anchor; a reason to re-verify, not proof the note is wrong";

/// The diagnostic where nothing is stale.
pub const NO_STALE_DIAGNOSTIC: &'static str = "no_stale_observations";

/// The diagnostic where something is stale.
pub const STALE_PRESENT_DIAGNOSTIC: &'static str = "stale_observations_present";

/// Where an observation comes from. Never its text.
#[derive(Clone, Debug, PartialEq, Eq)]
pub struct VerdictProvenance {
    pub agent_id: Option<String>,
    pub session_id: Option<String>,
    pub observed_at: Option<String>,
    pub confidence: Option<String>,
    pub redaction_policy_version: Option<String>,
}

/// The view of a [`VerdictProvenance`].
#[verifier::ext_equal]
pub struct ProvenanceView {
    pub agent_id: Option<Seq<char>>,
    pub session_id: Option<Seq<char>>,
    pub observed_at: Option<Seq<char>>,
    pub confidence: Option<Seq<char>>,
    pub redaction_policy_version: Option<Seq<char>>,
}

impl View for VerdictProvenance {
    type V = ProvenanceView;

    open spec fn view(&self) -> ProvenanceView {
        ProvenanceView {
            agent_id: opt_view(self.agent_id),
            session_id: opt_view(self.session_id),
            observed_at: opt_view(self.observed_at),
            confidence: opt_view(self.confidence),
            redaction_policy_version: opt_view(self.redaction_policy_version),
        }
    }
}

impl VerdictProvenance {
    /// A copy with the same view.
    pub fn copy(&self) -> (r: VerdictProvenance)
        ensures
            r@ == self@,
    {
        VerdictProvenance {
            agent_id: opt_clone(&self.agent_id),
            session_id: opt_clone(&self.session_id),
            observed_at: opt_clone(&self.observed_at),
            confidence: opt_clone(&self.confidence),
            redaction_policy_version: opt_clone(&self.redaction_policy_version),
        }
    }
}

/// The cited code and its anchor.
#[derive(Clone, Debug, PartialEq, Eq)]
pub struct CitedHandle {
    /// The cited record, when the link names one.
    pub target_record_id: Option<String>,
    /// The path of the cited code, when known.
    pub repo_relative_path: Option<String>,
    /// The span of the cited code, when known.
    pub span: Option<SourceSpan>,
    /// The commit that the citation was recorded against.
    pub anchor_commit: Option<String>,
    /// The time that the citation was recorded against.
    pub anchor_valid_time: Option<String>,
    /// The label of the evidence link.
    pub relation: String,
    /// The domain of the cited record.
    pub target_domain: String,
}

/// The view of a [`CitedHandle`].
#[verifier::ext_equal]
pub struct CitedHandleView {
    pub target_record_id: Option<Seq<char>>,
    pub repo_relative_path: Option<Seq<char>>,
    pub span: Option<SourceSpan>,
    pub anchor_commit: Option<Seq<char>>,
    pub anchor_valid_time: Option<Seq<char>>,
    pub relation: Seq<char>,
    pub target_domain: Seq<char>,
}

impl View for CitedHandle {
    type V = CitedHandleView;

    open spec fn view(&self) -> CitedHandleView {
        CitedHandleView {
            target_record_id: opt_view(self.target_record_id),
            repo_relative_path: opt_view(self.repo_relative_path),
            span: self.span,
            anchor_commit: opt_view(self.anchor_commit),
            anchor_valid_time: opt_view(self.anchor_valid_time),
            relation: self.relation@,
            target_domain: self.target_domain@,
        }
    }
}

impl CitedHandle {
    /// A copy with the same view.
    pub fn copy(&self) -> (r: CitedHandle)
        ensures
            r@ == self@,
    {
        CitedHandle {
            target_record_id: opt_clone(&self.target_record_id),
            repo_relative_path: opt_clone(&self.repo_relative_path),
            span: self.span,
            anchor_commit: opt_clone(&self.anchor_commit),
            anchor_valid_time: opt_clone(&self.anchor_valid_time),
            relation: self.relation.clone(),
            target_domain: self.target_domain.clone(),
        }
    }
}
/// What shows that the cited code moved.
#[derive(Debug, Clone, PartialEq, Eq)]
pub enum TriggeringHandle {
    /// A drift record that measured change from the cited code.
    DriftRecord {
        /// The drift record.
        drift_record_id: String,
        /// The commit of the later measurement.
        after_git_commit: String,
        /// The time of the later measurement.
        after_valid_time: String,
    },
    /// A later version of the same code with other content.
    ContentChange {
        /// The commit of the later version.
        after_git_commit: String,
        /// The time of the later version.
        after_valid_time: String,
        /// The content hash of the later version.
        content_hash: String,
    },
    /// The cited code survives only as a tombstone.
    HandleRemoved {
        /// The tombstone.
        tombstone_id: String,
    },
    /// The cited code resolves to nothing.
    HandleAbsent,
}

/// The view of a [`TriggeringHandle`].
pub enum TriggerView {
    DriftRecord(Seq<char>, Seq<char>, Seq<char>),
    ContentChange(Seq<char>, Seq<char>, Seq<char>),
    HandleRemoved(Seq<char>),
    HandleAbsent,
}

impl View for TriggeringHandle {
    type V = TriggerView;

    open spec fn view(&self) -> TriggerView {
        match self {
            TriggeringHandle::DriftRecord { drift_record_id, after_git_commit, after_valid_time } => {
                TriggerView::DriftRecord(drift_record_id@, after_git_commit@, after_valid_time@)
            },
            TriggeringHandle::ContentChange { after_git_commit, after_valid_time, content_hash } => {
                TriggerView::ContentChange(after_git_commit@, after_valid_time@, content_hash@)
            },
            TriggeringHandle::HandleRemoved { tombstone_id } => TriggerView::HandleRemoved(
                tombstone_id@,
            ),
            TriggeringHandle::HandleAbsent => TriggerView::HandleAbsent,
        }
    }
}

/// The verdict on one evidence link.
#[derive(Clone, Debug, PartialEq, Eq)]
pub struct FreshnessVerdictEntry {
    /// The observation.
    pub observation_id: String,
    /// The kind of the observation.
    pub kind: String,
    /// The verdict.
    pub verdict: FreshnessVerdict,
    /// A fixed text on stale verdicts.
    pub freshness_lead: Option<&'static str>,
    /// Where the observation comes from.
    pub provenance: VerdictProvenance,
    /// The cited code.
    pub cited_handle: CitedHandle,
    /// What shows that the cited code moved.
    pub triggering_handle: Option<TriggeringHandle>,
}

/// The view of a [`FreshnessVerdictEntry`].
#[verifier::ext_equal]
pub struct VerdictEntryView {
    pub observation_id: Seq<char>,
    pub kind: Seq<char>,
    pub verdict: FreshnessVerdict,
    pub freshness_lead: Option<Seq<char>>,
    pub provenance: ProvenanceView,
    pub cited_handle: CitedHandleView,
    pub triggering_handle: Option<TriggerView>,
}

impl View for FreshnessVerdictEntry {
    type V = VerdictEntryView;

    open spec fn view(&self) -> VerdictEntryView {
        VerdictEntryView {
            observation_id: self.observation_id@,
            kind: self.kind@,
            verdict: self.verdict,
            freshness_lead: opt_str_view(self.freshness_lead),
            provenance: self.provenance@,
            cited_handle: self.cited_handle@,
            triggering_handle: match self.triggering_handle {
                Some(x) => Some(x@),
                None => None,
            },
        }
    }
}
// ---------------------------------------------------------------------------
// Handles of code and what replaces them
// ---------------------------------------------------------------------------

/// Whether nodes of the kind can be cited as code.
pub open spec fn handle_kind(kind: NodeKind) -> bool {
    kind == NodeKind::File || kind == NodeKind::Symbol || kind == NodeKind::Module || kind
        == NodeKind::Import
}

/// Whether nodes of the kind are observations.
pub open spec fn observation_kind(kind: NodeKind) -> bool {
    kind == NodeKind::Observation || kind == NodeKind::Decision
}

/// Whether the link declares that its source replaces `id`.
pub open spec fn link_supersedes(l: EvidenceLink, id: Seq<char>) -> bool {
    l.relation@ == edge_label_name(EdgeLabel::Supersedes) && opt_view(l.target_record_id) == Some(id)
        && id.len() > 0
}

/// Whether one of the links declares that its source replaces `id`.
pub open spec fn links_supersede(links: Option<Vec<EvidenceLink>>, id: Seq<char>) -> bool {
    match links {
        Some(v) => exists|k: int| 0 <= k < v@.len() && #[trigger] link_supersedes(v@[k], id),
        None => false,
    }
}

/// Whether the record, not being retracted, declares that `id` is replaced.
pub open spec fn record_supersedes(s: Seq<GraphRecord>, r: GraphRecord, id: Seq<char>) -> bool {
    match r {
        GraphRecord::Node(n) => !deleted(s, n.id@) && links_supersede(n.evidence_links, id),
        GraphRecord::Edge(e) => e.label == EdgeLabel::Supersedes && e.target@ == id && !deleted(
            s,
            e.id@,
        ) && !deleted(s, e.source@),
        GraphRecord::Tombstone(_) => false,
    }
}

/// Whether the latest version of the node says that it is replaced.
pub open spec fn marked_superseded(s: Seq<GraphRecord>, id: Seq<char>) -> bool {
    match last_node(s, id) {
        Some(i) => match s[i]->Node_0.superseded_by {
            Some(x) => x@.len() > 0,
            None => false,
        },
        None => false,
    }
}

/// Whether the record `id` is replaced by another.
pub open spec fn superseded(s: Seq<GraphRecord>, id: Seq<char>) -> bool {
    marked_superseded(s, id) || exists|i: int|
        0 <= i < s.len() && record_supersedes(s, #[trigger] s[i], id)
}

/// The kind of the latest version of the node.
pub open spec fn kind_of(s: Seq<GraphRecord>, id: Seq<char>) -> Option<NodeKind> {
    match last_node(s, id) {
        Some(i) => Some(s[i]->Node_0.kind),
        None => None,
    }
}

/// Whether the record is a version of the code handle `id`.
pub open spec fn is_handle_version(r: GraphRecord, id: Seq<char>) -> bool {
    r is Node && r->Node_0.id@ == id && handle_kind(r->Node_0.kind)
}

/// The positions of the versions of the code handle, in order.
pub open spec fn versions_of(s: Seq<GraphRecord>, id: Seq<char>) -> Seq<int>
    decreases s.len(),
{
    if s.len() == 0 {
        Seq::empty()
    } else if is_handle_version(s.last(), id) {
        versions_of(s.drop_last(), id).push(s.len() - 1)
    } else {
        versions_of(s.drop_last(), id)
    }
}

/// Whether `id` is a code handle that is neither retracted nor replaced.
pub open spec fn standing(s: Seq<GraphRecord>, id: Seq<char>) -> bool {
    &&& exists|i: int| 0 <= i < s.len() && is_handle_version(#[trigger] s[i], id)
    &&& !deleted(s, id)
    &&& !superseded(s, id)
}

/// Whether some of the versions satisfies `p`.
pub open spec fn some_version(
    s: Seq<GraphRecord>,
    vs: Seq<int>,
    p: spec_fn(GraphRecord) -> bool,
) -> bool {
    exists|k: int| 0 <= k < vs.len() && p(s[#[trigger] vs[k]])
}

/// Whether a version is without a commit or at a tip that counts for the handle.
pub open spec fn at_tip_or_current(
    s: Seq<GraphRecord>,
    own: Map<Seq<char>, Seq<char>>,
    id: Seq<char>,
    r: GraphRecord,
) -> bool {
    match commit_of(r) {
        Some(c) => tip_for(s, own, id, c),
        None => true,
    }
}

/// Whether a standing handle is still there at the tips of its history.
pub open spec fn at_tips(
    s: Seq<GraphRecord>,
    own: Map<Seq<char>, Seq<char>>,
    id: Seq<char>,
) -> bool {
    standing(s, id) && (any_tip(s, own) ==> some_version(
        s,
        versions_of(s, id),
        |r: GraphRecord| at_tip_or_current(s, own, id, r),
    ))
}

/// The strings that satisfy `p`, in order.
pub open spec fn in_order(p: spec_fn(Seq<char>) -> bool) -> Seq<Seq<char>> {
    choose|q: Seq<Seq<char>>|
        sorted_strict(q) && forall|x: Seq<char>| #[trigger] q.contains(x) <==> p(x)
}

/// A set that holds what satisfies `p` lists it in order.
pub proof fn lemma_in_order(p: spec_fn(Seq<char>) -> bool, set: StrSet)
    requires
        set.wf(),
        forall|x: Seq<char>| #[trigger] set.has(x) <==> p(x),
    ensures
        in_order(p) == set.seq(),
{
    assert(sorted_strict(set.seq()) && forall|x: Seq<char>| #[trigger]
        set.seq().contains(x) <==> p(x)) by {
        assert forall|x: Seq<char>| #[trigger] set.seq().contains(x) <==> p(x) by {
            assert(set.has(x) <==> p(x));
        }
    }
    let q = in_order(p);
    assert(sorted_strict(q) && forall|x: Seq<char>| #[trigger] q.contains(x) <==> p(x));
    assert forall|x: Seq<char>| q.contains(x) <==> set.seq().contains(x) by {
        assert(set.has(x) <==> p(x));
    }
    crate::collections::lemma_sorted_unique(q, set.seq());
}

/// The times of the versions that have no commit.
pub open spec fn scan_times(s: Seq<GraphRecord>, vs: Seq<int>) -> Seq<Seq<char>>
    decreases vs.len(),
{
    if vs.len() == 0 {
        Seq::empty()
    } else {
        let before = scan_times(s, vs.drop_last());
        let r = s[vs.last()];
        if commit_of(r) is None && valid_of(r) is Some {
            before.push(valid_of(r)->0)
        } else {
            before
        }
    }
}

/// The times at which the handles of a repository were scanned.
pub open spec fn handle_times(
    s: Seq<GraphRecord>,
    own: Map<Seq<char>, Seq<char>>,
    ids: Seq<Seq<char>>,
    repo: Option<Seq<char>>,
) -> Seq<Seq<char>>
    decreases ids.len(),
{
    if ids.len() == 0 {
        Seq::empty()
    } else {
        let before = handle_times(s, own, ids.drop_last(), repo);
        if owner(own, ids.last()) == repo {
            before + scan_times(s, versions_of(s, ids.last()))
        } else {
            before
        }
    }
}

/// The times at which the repository itself was scanned.
pub open spec fn repository_times(
    s: Seq<GraphRecord>,
    own: Map<Seq<char>, Seq<char>>,
    repo: Option<Seq<char>>,
) -> Seq<Seq<char>>
    decreases s.len(),
{
    if s.len() == 0 {
        Seq::empty()
    } else {
        let before = repository_times(s.drop_last(), own, repo);
        let r = s.last();
        if r is Node && r->Node_0.kind == NodeKind::Repository && valid_of(r) is Some && owner(
            own,
            r->Node_0.id@,
        ) == repo {
            before.push(valid_of(r)->0)
        } else {
            before
        }
    }
}

/// The first of the latest times.
pub open spec fn latest(times: Seq<Seq<char>>) -> Option<Seq<char>>
    decreases times.len(),
{
    if times.len() == 0 {
        None
    } else {
        match latest(times.drop_last()) {
            None => Some(times.last()),
            Some(c) => if time_order(times.last(), c) == Order::Greater {
                Some(times.last())
            } else {
                Some(c)
            },
        }
    }
}

/// The newest scan of the repository.
pub open spec fn frontier(
    s: Seq<GraphRecord>,
    own: Map<Seq<char>, Seq<char>>,
    repo: Option<Seq<char>>,
) -> Option<Seq<char>> {
    let ids = in_order(|id: Seq<char>| at_tips(s, own, id));
    latest(handle_times(s, own, ids, repo) + repository_times(s, own, repo))
}

/// Whether a version has no commit and the time `f`.
pub open spec fn scanned_at(r: GraphRecord, f: Seq<char>) -> bool {
    commit_of(r) is None && valid_of(r) is Some && time_order(valid_of(r)->0, f) == Order::Equal
}

/// Whether a version is at a tip that counts for the handle.
pub open spec fn committed_at_tip(
    s: Seq<GraphRecord>,
    own: Map<Seq<char>, Seq<char>>,
    id: Seq<char>,
    r: GraphRecord,
) -> bool {
    commit_of(r) is Some && tip_for(s, own, id, commit_of(r)->0)
}

/// Whether the handle is live: standing, and in the newest state of its history or
/// of the scans of its repository.
pub open spec fn live_handle(
    s: Seq<GraphRecord>,
    own: Map<Seq<char>, Seq<char>>,
    id: Seq<char>,
) -> bool {
    let vs = versions_of(s, id);
    let has_commits = some_version(s, vs, |r: GraphRecord| commit_of(r) is Some);
    let has_scans = some_version(s, vs, |r: GraphRecord| commit_of(r) is None);
    &&& at_tips(s, own, id)
    &&& (has_commits && !has_scans) || match frontier(s, own, owner(own, id)) {
        None => true,
        Some(f) => some_version(s, vs, |r: GraphRecord| scanned_at(r, f)) || (has_commits
            && some_version(s, vs, |r: GraphRecord| committed_at_tip(s, own, id, r))),
    }
}

fn is_handle_kind(kind: NodeKind) -> (r: bool)
    ensures
        r == handle_kind(kind),
{
    match kind {
        NodeKind::File | NodeKind::Symbol | NodeKind::Module | NodeKind::Import => true,
        _ => false,
    }
}

fn is_observation(kind: NodeKind) -> (r: bool)
    ensures
        r == observation_kind(kind),
{
    match kind {
        NodeKind::Observation | NodeKind::Decision => true,
        _ => false,
    }
}

proof fn lemma_versions(s: Seq<GraphRecord>, id: Seq<char>)
    ensures
        forall|k: int|
            0 <= k < versions_of(s, id).len() ==> 0 <= #[trigger] versions_of(s, id)[k] < s.len()
                && is_handle_version(s[versions_of(s, id)[k]], id),
        forall|i: int|
            0 <= i < s.len() && is_handle_version(#[trigger] s[i], id) ==> versions_of(
                s,
                id,
            ).contains(i),
    decreases s.len(),
{
    if s.len() > 0 {
        let t = s.drop_last();
        lemma_versions(t, id);
        let vs = versions_of(s, id);
        let vt = versions_of(t, id);
        assert forall|k: int| 0 <= k < vs.len() implies 0 <= #[trigger] vs[k] < s.len()
            && is_handle_version(s[vs[k]], id) by {
            if k < vt.len() {
                assert(vs[k] == vt[k]);
                assert(s[vt[k]] == t[vt[k]]);
            }
        }
        assert forall|i: int| 0 <= i < s.len() && is_handle_version(#[trigger] s[i], id) implies vs.contains(
            i,
        ) by {
            if i < t.len() {
                assert(s[i] == t[i]);
                assert(vt.contains(i));
                let k = choose|k: int| 0 <= k < vt.len() && vt[k] == i;
                assert(vs[k] == i);
            } else {
                assert(vs[vs.len() - 1] == i);
            }
        }
    }
}

/// The positions as a sequence of mathematical integers.
pub open spec fn as_ints(v: Seq<usize>) -> Seq<int> {
    v.map_values(|x: usize| x as int)
}

fn versions(records: &Vec<GraphRecord>, id: &str) -> (v: Vec<usize>)
    ensures
        as_ints(v@) == versions_of(records@, id@),
        forall|k: int|
            0 <= k < v@.len() ==> (#[trigger] v@[k]) < records@.len() && is_handle_version(
                records@[v@[k] as int],
                id@,
            ),
{
    let ghost s = records@;
    let mut v: Vec<usize> = Vec::new();
    let mut i: usize = 0;
    proof {
        assert(s.take(0) =~= Seq::<GraphRecord>::empty());
        assert(as_ints(v@) =~= versions_of(s.take(0), id@));
    }
    while i < records.len()
        invariant
            i <= records@.len(),
            s == records@,
            as_ints(v@) == versions_of(s.take(i as int), id@),
        decreases records@.len() - i,
    {
        let ghost before = v@;
        proof {
            let upto = s.take(i + 1);
            assert(upto.drop_last() =~= s.take(i as int));
            assert(upto.last() == s[i as int]);
        }
        match &records[i] {
            GraphRecord::Node(n) => {
                if is_handle_kind(n.kind) && str_eq(n.id.as_str(), id) {
                    v.push(i);
                    assert(as_ints(v@) =~= as_ints(before).push(i as int));
                }
            },
            _ => {},
        }
        i = i + 1;
    }
    proof {
        assert(s.take(i as int) =~= s);
        lemma_versions(s, id@);
        assert forall|k: int| 0 <= k < v@.len() implies (#[trigger] v@[k]) < records@.len()
            && is_handle_version(records@[v@[k] as int], id@) by {
            assert(as_ints(v@)[k] == v@[k]);
        }
    }
    v
}

fn links_replace(links: &Option<Vec<EvidenceLink>>, id: &str) -> (r: bool)
    ensures
        r == links_supersede(*links, id@),
{
    match links {
        Some(v) => {
            let mut k: usize = 0;
            while k < v.len()
                invariant
                    k <= v@.len(),
                    *links is Some,
                    links->0 == *v,
                    forall|j: int| 0 <= j < k ==> !#[trigger] link_supersedes(v@[j], id@),
                decreases v@.len() - k,
            {
                if !id.is_empty() && str_eq(
                    v[k].relation.as_str(),
                    EdgeLabel::Supersedes.as_str(),
                ) && opt_is(&v[k].target_record_id, id) {
                    assert(link_supersedes(v@[k as int], id@));
                    return true;
                }
                k = k + 1;
            }
            false
        },
        None => false,
    }
}

/// Whether the record `id` is replaced by another.
pub fn is_superseded(records: &Vec<GraphRecord>, id: &str) -> (r: bool)
    ensures
        r == superseded(records@, id@),
{
    match find_last_node(records, id) {
        Some(i) => match &records[i] {
            GraphRecord::Node(n) => match &n.superseded_by {
                Some(x) => if !x.as_str().is_empty() {
                    return true;
                },
                None => {},
            },
            _ => {},
        },
        None => {},
    }
    let ghost s = records@;
    let mut i: usize = 0;
    while i < records.len()
        invariant
            i <= records@.len(),
            s == records@,
            !marked_superseded(s, id@),
            forall|k: int| 0 <= k < i ==> !record_supersedes(s, #[trigger] s[k], id@),
        decreases records@.len() - i,
    {
        let hit = match &records[i] {
            GraphRecord::Node(n) => links_replace(&n.evidence_links, id) && !is_deleted(
                records,
                n.id.as_str(),
            ),
            GraphRecord::Edge(e) => e.label == EdgeLabel::Supersedes && str_eq(
                e.target.as_str(),
                id,
            ) && !is_deleted(records, e.id.as_str()) && !is_deleted(records, e.source.as_str()),
            GraphRecord::Tombstone(_) => false,
        };
        if hit {
            assert(record_supersedes(s, s[i as int], id@));
            return true;
        }
        i = i + 1;
    }
    false
}

fn kind_by_id(records: &Vec<GraphRecord>, id: &str) -> (r: Option<NodeKind>)
    ensures
        r == kind_of(records@, id@),
{
    match find_last_node(records, id) {
        Some(i) => match &records[i] {
            GraphRecord::Node(n) => Some(n.kind),
            _ => None,
        },
        None => None,
    }
}

fn some_at_tip_or_current(
    records: &Vec<GraphRecord>,
    vs: &Vec<usize>,
    tips: &StrSet,
    Ghost(own): Ghost<Map<Seq<char>, Seq<char>>>,
    Ghost(id): Ghost<Seq<char>>,
) -> (r: bool)
    requires
        forall|k: int| 0 <= k < vs@.len() ==> (#[trigger] vs@[k]) < records@.len(),
        forall|c: Seq<char>| #[trigger] tips.has(c) <==> tip_for(records@, own, id, c),
    ensures
        r == some_version(
            records@,
            as_ints(vs@),
            |r: GraphRecord| at_tip_or_current(records@, own, id, r),
        ),
{
    let ghost p = |r: GraphRecord| at_tip_or_current(records@, own, id, r);
    let mut k: usize = 0;
    while k < vs.len()
        invariant
            k <= vs@.len(),
            p == (|r: GraphRecord| at_tip_or_current(records@, own, id, r)),
            forall|k: int| 0 <= k < vs@.len() ==> (#[trigger] vs@[k]) < records@.len(),
            forall|c: Seq<char>| #[trigger] tips.has(c) <==> tip_for(records@, own, id, c),
            forall|j: int| 0 <= j < k ==> !p(records@[#[trigger] as_ints(vs@)[j]]),
        decreases vs@.len() - k,
    {
        let hit = match version_commit(&records[vs[k]]) {
            Some(c) => tips.contains(c),
            None => true,
        };
        assert(as_ints(vs@)[k as int] == vs@[k as int]);
        if hit {
            assert(p(records@[as_ints(vs@)[k as int]]));
            return true;
        }
        k = k + 1;
    }
    false
}

fn is_at_tips(records: &Vec<GraphRecord>, owners: &RepositoryIndex, tipped: bool, id: &str) -> (r: bool)
    requires
        tipped == any_tip(records@, owners.owners()),
        exists|i: int| 0 <= i < records@.len() && is_handle_version(#[trigger] records@[i], id@),
    ensures
        r == at_tips(records@, owners.owners(), id@),
{
    if is_deleted(records, id) || is_superseded(records, id) {
        return false;
    }
    if !tipped {
        return true;
    }
    let vs = versions(records, id);
    let tips = tips_for(records, owners, id);
    some_at_tip_or_current(records, &vs, &tips, Ghost(owners.owners()), Ghost(id@))
}

/// The standing handles that are still there at the tips of their histories.
fn handles_at_tips(records: &Vec<GraphRecord>, owners: &RepositoryIndex) -> (set: StrSet)
    ensures
        set.wf(),
        forall|id: Seq<char>| #[trigger] set.has(id) <==> at_tips(records@, owners.owners(), id),
{
    let ghost s = records@;
    let ghost own = owners.owners();
    let tips = all_tips(records, owners);
    let tipped = tips.len() > 0;
    proof {
        if tipped {
            assert(tips.has(tips.seq()[0]));
            assert(tip(s, own, tips.seq()[0]));
        } else if any_tip(s, own) {
            let c = choose|c: Seq<char>| #[trigger] tip(s, own, c);
            assert(tips.has(c));
        }
    }
    let mut set = StrSet::new();
    let mut i: usize = 0;
    while i < records.len()
        invariant
            i <= records@.len(),
            s == records@,
            own == owners.owners(),
            tipped == any_tip(s, own),
            set.wf(),
            forall|id: Seq<char>| #[trigger]
                set.has(id) <==> (at_tips(s, own, id) && handle_before(s, id, i as int)),
        decreases records@.len() - i,
    {
        let ghost set0 = set;
        match &records[i] {
            GraphRecord::Node(n) => {
                if is_handle_kind(n.kind) {
                    assert(is_handle_version(s[i as int], n.id@));
                    if is_at_tips(records, owners, tipped, n.id.as_str()) {
                        set.insert(n.id.as_str());
                    }
                }
            },
            _ => {},
        }
        proof {
            assert forall|id: Seq<char>| #[trigger]
                set.has(id) <==> (at_tips(s, own, id) && handle_before(s, id, i + 1)) by {
                assert(set0.has(id) <==> (at_tips(s, own, id) && handle_before(s, id, i as int)));
                if handle_before(s, id, i + 1) && !handle_before(s, id, i as int) {
                    let k = choose|k: int|
                        0 <= k < i + 1 && k < s.len() && is_handle_version(#[trigger] s[k], id);
                    assert(k == i);
                }
                if is_handle_version(s[i as int], id) {
                    assert(handle_before(s, id, i + 1));
                }
            }
        }
        i = i + 1;
    }
    proof {
        assert forall|id: Seq<char>| #[trigger] set.has(id) <==> at_tips(s, own, id) by {
            if at_tips(s, own, id) {
                let k = choose|k: int| 0 <= k < s.len() && is_handle_version(#[trigger] s[k], id);
                assert(handle_before(s, id, s.len() as int));
            }
        }
    }
    set
}

spec fn handle_before(s: Seq<GraphRecord>, id: Seq<char>, n: int) -> bool {
    exists|k: int| 0 <= k < n && k < s.len() && is_handle_version(#[trigger] s[k], id)
}

fn later_of(current: Option<String>, time: &str, Ghost(times): Ghost<Seq<Seq<char>>>) -> (r: Option<String>)
    requires
        opt_view(current) == latest(times),
    ensures
        opt_view(r) == latest(times.push(time@)),
{
    proof {
        assert(times.push(time@).drop_last() =~= times);
    }
    match current {
        None => Some(time.to_owned()),
        Some(c) => {
            match compare_times(time, c.as_str()) {
                Order::Greater => Some(time.to_owned()),
                _ => Some(c),
            }
        },
    }
}

/// The newest scan of the repository, among the handles at the tips.
fn newest_scan(
    records: &Vec<GraphRecord>,
    owners: &RepositoryIndex,
    ids: &StrSet,
    repo: Option<&str>,
) -> (r: Option<String>)
    requires
        ids.wf(),
        forall|id: Seq<char>| #[trigger] ids.has(id) <==> at_tips(records@, owners.owners(), id),
    ensures
        opt_view(r) == frontier(records@, owners.owners(), opt_str_view(repo)),
{
    let ghost s = records@;
    let ghost own = owners.owners();
    let ghost o = opt_str_view(repo);
    let ghost all = ids.seq();
    let mut current: Option<String> = None;
    let ghost mut times: Seq<Seq<char>> = Seq::empty();
    proof {
        lemma_in_order(|id: Seq<char>| at_tips(s, own, id), *ids);
        assert(all.take(0) =~= Seq::<Seq<char>>::empty());
    }
    let mut i: usize = 0;
    while i < ids.items.len()
        invariant
            i <= ids.items@.len(),
            s == records@,
            own == owners.owners(),
            o == opt_str_view(repo),
            all == ids.seq(),
            times == handle_times(s, own, all.take(i as int), o),
            opt_view(current) == latest(times),
        decreases ids.items@.len() - i,
    {
        let id = ids.items[i].as_str();
        proof {
            let upto = all.take(i + 1);
            assert(upto.drop_last() =~= all.take(i as int));
            assert(upto.last() == id@);
        }
        if opt_str_eq(owners.owner_of(id), repo) {
            let vs = versions(records, id);
            let ghost before = times;
            let ghost vall = versions_of(s, id@);
            let mut k: usize = 0;
            proof {
                assert(vall.take(0) =~= Seq::<int>::empty());
                assert(before + scan_times(s, vall.take(0)) =~= times);
            }
            while k < vs.len()
                invariant
                    k <= vs@.len(),
                    s == records@,
                    as_ints(vs@) == vall,
                    forall|j: int| 0 <= j < vs@.len() ==> (#[trigger] vs@[j]) < records@.len(),
                    times == before + scan_times(s, vall.take(k as int)),
                    opt_view(current) == latest(times),
                decreases vs@.len() - k,
            {
                let r = &records[vs[k]];
                proof {
                    let upto = vall.take(k + 1);
                    assert(upto.drop_last() =~= vall.take(k as int));
                    assert(as_ints(vs@)[k as int] == vs@[k as int]);
                    assert(upto.last() == vs@[k as int]);
                }
                if version_commit(r).is_none() {
                    match version_valid(r) {
                        Some(t) => {
                            current = later_of(current, t, Ghost(times));
                            proof {
                                let sc = scan_times(s, vall.take(k as int));
                                assert((before + sc).push(t@) =~= before + sc.push(t@));
                                times = times.push(t@);
                            }
                        },
                        None => {},
                    }
                }
                k = k + 1;
            }
            assert(vall.take(k as int) =~= vall);
        }
        i = i + 1;
    }
    assert(all.take(i as int) =~= all);
    let ghost before = times;
    let mut j: usize = 0;
    proof {
        assert(s.take(0) =~= Seq::<GraphRecord>::empty());
        assert(before + repository_times(s.take(0), own, o) =~= times);
    }
    while j < records.len()
        invariant
            j <= records@.len(),
            s == records@,
            own == owners.owners(),
            o == opt_str_view(repo),
            times == before + repository_times(s.take(j as int), own, o),
            opt_view(current) == latest(times),
        decreases records@.len() - j,
    {
        proof {
            let upto = s.take(j + 1);
            assert(upto.drop_last() =~= s.take(j as int));
            assert(upto.last() == s[j as int]);
        }
        match &records[j] {
            GraphRecord::Node(n) => {
                if n.kind == NodeKind::Repository && opt_str_eq(
                    owners.owner_of(n.id.as_str()),
                    repo,
                ) {
                    match version_valid(&records[j]) {
                        Some(t) => {
                            current = later_of(current, t, Ghost(times));
                            proof {
                                let rt = repository_times(s.take(j as int), own, o);
                                assert((before + rt).push(t@) =~= before + rt.push(t@));
                                times = times.push(t@);
                            }
                        },
                        None => {},
                    }
                }
            },
            _ => {},
        }
        j = j + 1;
    }
    assert(s.take(j as int) =~= s);
    current
}

fn any_with_commit(records: &Vec<GraphRecord>, vs: &Vec<usize>, wanted: bool) -> (r: bool)
    requires
        forall|k: int| 0 <= k < vs@.len() ==> (#[trigger] vs@[k]) < records@.len(),
    ensures
        wanted ==> r == some_version(
            records@,
            as_ints(vs@),
            |r: GraphRecord| commit_of(r) is Some,
        ),
        !wanted ==> r == some_version(
            records@,
            as_ints(vs@),
            |r: GraphRecord| commit_of(r) is None,
        ),
{
    let ghost p = |r: GraphRecord| commit_of(r) is Some;
    let ghost q = |r: GraphRecord| commit_of(r) is None;
    let mut k: usize = 0;
    while k < vs.len()
        invariant
            k <= vs@.len(),
            p == (|r: GraphRecord| commit_of(r) is Some),
            q == (|r: GraphRecord| commit_of(r) is None),
            forall|k: int| 0 <= k < vs@.len() ==> (#[trigger] vs@[k]) < records@.len(),
            wanted ==> forall|j: int| 0 <= j < k ==> !p(records@[#[trigger] as_ints(vs@)[j]]),
            !wanted ==> forall|j: int| 0 <= j < k ==> !q(records@[#[trigger] as_ints(vs@)[j]]),
        decreases vs@.len() - k,
    {
        assert(as_ints(vs@)[k as int] == vs@[k as int]);
        let c = version_commit(&records[vs[k]]);
        if c.is_some() == wanted {
            proof {
                if wanted {
                    assert(p(records@[as_ints(vs@)[k as int]]));
                } else {
                    assert(q(records@[as_ints(vs@)[k as int]]));
                }
            }
            return true;
        }
        k = k + 1;
    }
    false
}

fn any_scanned_at(records: &Vec<GraphRecord>, vs: &Vec<usize>, f: &str) -> (r: bool)
    requires
        forall|k: int| 0 <= k < vs@.len() ==> (#[trigger] vs@[k]) < records@.len(),
    ensures
        r == some_version(records@, as_ints(vs@), |r: GraphRecord| scanned_at(r, f@)),
{
    let ghost p = |r: GraphRecord| scanned_at(r, f@);
    let mut k: usize = 0;
    while k < vs.len()
        invariant
            k <= vs@.len(),
            p == (|r: GraphRecord| scanned_at(r, f@)),
            forall|k: int| 0 <= k < vs@.len() ==> (#[trigger] vs@[k]) < records@.len(),
            forall|j: int| 0 <= j < k ==> !p(records@[#[trigger] as_ints(vs@)[j]]),
        decreases vs@.len() - k,
    {
        assert(as_ints(vs@)[k as int] == vs@[k as int]);
        if is_scanned_at(&records[vs[k]], f) {
            assert(p(records@[as_ints(vs@)[k as int]]));
            return true;
        }
        k = k + 1;
    }
    false
}

fn is_scanned_at(r: &GraphRecord, f: &str) -> (b: bool)
    ensures
        b == scanned_at(*r, f@),
{
    if version_commit(r).is_some() {
        return false;
    }
    match version_valid(r) {
        Some(t) => match compare_times(t, f) {
            Order::Equal => true,
            _ => false,
        },
        None => false,
    }
}

fn any_committed_at_tip(
    records: &Vec<GraphRecord>,
    owners: &RepositoryIndex,
    vs: &Vec<usize>,
    id: &str,
) -> (r: bool)
    requires
        forall|k: int| 0 <= k < vs@.len() ==> (#[trigger] vs@[k]) < records@.len(),
    ensures
        r == some_version(
            records@,
            as_ints(vs@),
            |r: GraphRecord| committed_at_tip(records@, owners.owners(), id@, r),
        ),
{
    let ghost p = |r: GraphRecord| committed_at_tip(records@, owners.owners(), id@, r);
    let tips = tips_for(records, owners, id);
    let mut k: usize = 0;
    while k < vs.len()
        invariant
            k <= vs@.len(),
            p == (|r: GraphRecord| committed_at_tip(records@, owners.owners(), id@, r)),
            forall|c: Seq<char>| #[trigger]
                tips.has(c) <==> tip_for(records@, owners.owners(), id@, c),
            forall|k: int| 0 <= k < vs@.len() ==> (#[trigger] vs@[k]) < records@.len(),
            forall|j: int| 0 <= j < k ==> !p(records@[#[trigger] as_ints(vs@)[j]]),
        decreases vs@.len() - k,
    {
        assert(as_ints(vs@)[k as int] == vs@[k as int]);
        match version_commit(&records[vs[k]]) {
            Some(c) => {
                if tips.contains(c) {
                    assert(p(records@[as_ints(vs@)[k as int]]));
                    return true;
                }
            },
            None => {},
        }
        k = k + 1;
    }
    false
}

/// The live handles of a store, by identifier, and what resolving a citation
/// needs to know of the store.
pub struct FreshnessIndex<'a> {
    records: &'a Vec<GraphRecord>,
    owners: &'a RepositoryIndex,
    at_tips: StrSet,
    live: StrSet,
}

impl<'a> FreshnessIndex<'a> {
    /// The records of the store.
    pub closed spec fn store(&self) -> Seq<GraphRecord> {
        self.records@
    }

    /// The owners of the records.
    pub closed spec fn own(&self) -> Map<Seq<char>, Seq<char>> {
        self.owners.owners()
    }

    #[verifier::type_invariant]
    spec fn inv(self) -> bool {
        &&& self.at_tips.wf()
        &&& self.live.wf()
        &&& forall|id: Seq<char>| #[trigger]
            self.at_tips.has(id) <==> at_tips(self.store(), self.own(), id)
        &&& forall|id: Seq<char>| #[trigger]
            self.live.has(id) <==> live_handle(self.store(), self.own(), id)
    }

    /// The identifiers of the live handles, in order.
    pub closed spec fn live_ids(&self) -> Seq<Seq<char>> {
        self.live.seq()
    }

    /// Builds the index: the live handles are those that are neither retracted nor
    /// replaced and that are in the newest state of their history or of the scans
    /// of their repository.
    pub fn build(records: &'a Vec<GraphRecord>, owners: &'a RepositoryIndex) -> (index: Self)
        ensures
            index.store() == records@,
            index.own() == owners.owners(),
            sorted_strict(index.live_ids()),
            forall|id: Seq<char>| #[trigger]
                index.live_ids().contains(id) <==> live_handle(records@, owners.owners(), id),
    {
        let ghost s = records@;
        let ghost own = owners.owners();
        let at_tips_set = handles_at_tips(records, owners);
        let mut live = StrSet::new();
        let mut i: usize = 0;
        while i < at_tips_set.items.len()
            invariant
                i <= at_tips_set.items@.len(),
                s == records@,
                own == owners.owners(),
                at_tips_set.wf(),
                forall|id: Seq<char>| #[trigger] at_tips_set.has(id) <==> at_tips(s, own, id),
                live.wf(),
                forall|id: Seq<char>| #[trigger]
                    live.has(id) <==> (live_handle(s, own, id) && exists|k: int|
                        0 <= k < i && #[trigger] at_tips_set.seq()[k] == id),
            decreases at_tips_set.items@.len() - i,
        {
            let id = at_tips_set.items[i].as_str();
            let ghost live0 = live;
            assert(at_tips_set.seq()[i as int] == id@);
            assert(at_tips_set.has(id@));
            let keep = is_live(records, owners, &at_tips_set, id);
            if keep {
                live.insert(id);
            }
            proof {
                assert forall|x: Seq<char>| #[trigger]
                    live.has(x) <==> (live_handle(s, own, x) && exists|k: int|
                        0 <= k < i + 1 && #[trigger] at_tips_set.seq()[k] == x) by {
                    assert(live0.has(x) <==> (live_handle(s, own, x) && exists|k: int|
                        0 <= k < i && #[trigger] at_tips_set.seq()[k] == x));
                    if x == id@ {
                        assert(at_tips_set.seq()[i as int] == x);
                    }
                }
            }
            i = i + 1;
        }
        proof {
            assert forall|id: Seq<char>| #[trigger] live.has(id) <==> live_handle(s, own, id) by {
                if live_handle(s, own, id) {
                    assert(at_tips_set.has(id));
                    let k = choose|k: int|
                        0 <= k < at_tips_set.seq().len() && at_tips_set.seq()[k] == id;
                    assert(at_tips_set.seq()[k] == id);
                }
            }
        }
        let index = FreshnessIndex { records, owners, at_tips: at_tips_set, live };
        proof {
            assert forall|id: Seq<char>| #[trigger]
                index.live_ids().contains(id) <==> live_handle(s, own, id) by {
                assert(live.has(id) <==> live_handle(s, own, id));
            }
        }
        index
    }
}

fn is_live(
    records: &Vec<GraphRecord>,
    owners: &RepositoryIndex,
    ids: &StrSet,
    id: &str,
) -> (r: bool)
    requires
        ids.wf(),
        forall|id: Seq<char>| #[trigger] ids.has(id) <==> at_tips(records@, owners.owners(), id),
        at_tips(records@, owners.owners(), id@),
    ensures
        r == live_handle(records@, owners.owners(), id@),
{
    let vs = versions(records, id);
    let has_commits = any_with_commit(records, &vs, true);
    let has_scans = any_with_commit(records, &vs, false);
    if has_commits && !has_scans {
        return true;
    }
    match newest_scan(records, owners, ids, owners.owner_of(id)) {
        None => true,
        Some(f) => {
            if any_scanned_at(records, &vs, f.as_str()) {
                return true;
            }
            has_commits && any_committed_at_tip(records, owners, &vs, id)
        },
    }
}

// ---------------------------------------------------------------------------
// Resolving a citation
// ---------------------------------------------------------------------------

/// The text where it is not empty.
pub open spec fn nonempty(o: Option<Seq<char>>) -> Option<Seq<char>> {
    match o {
        Some(s) => if s.len() > 0 {
            Some(s)
        } else {
            None
        },
        None => None,
    }
}

/// The first of two that is present.
pub open spec fn first_some(a: Option<Seq<char>>, b: Option<Seq<char>>) -> Option<Seq<char>> {
    match a {
        Some(_) => a,
        None => b,
    }
}

/// The text, empty where it is absent.
pub open spec fn or_empty(o: Option<Seq<char>>) -> Seq<char> {
    match o {
        Some(s) => s,
        None => Seq::empty(),
    }
}

/// The commit that the citation was recorded against.
pub open spec fn anchor_commit(l: EvidenceLinkView) -> Option<Seq<char>> {
    first_some(nonempty(l.as_of_commit), nonempty(l.target_git_commit))
}

/// The commit at which the cited code is looked up.
pub open spec fn identity_commit(l: EvidenceLinkView) -> Option<Seq<char>> {
    first_some(nonempty(l.target_git_commit), anchor_commit(l))
}

/// The only string that satisfies `p`.
pub open spec fn the_only(p: spec_fn(Seq<char>) -> bool) -> Option<Seq<char>> {
    if exists|x: Seq<char>| #[trigger] p(x) && forall|y: Seq<char>| #[trigger] p(y) ==> y == x {
        Some(choose|x: Seq<char>| #[trigger] p(x))
    } else {
        None
    }
}

/// Whether a version of a handle is in the newest state of its repository.
pub open spec fn at_frontier(
    s: Seq<GraphRecord>,
    own: Map<Seq<char>, Seq<char>>,
    id: Seq<char>,
    r: GraphRecord,
) -> bool {
    match commit_of(r) {
        Some(c) => (forall|x: Seq<char>| !#[trigger] tip_for(s, own, id, x)) || tip_for(
            s,
            own,
            id,
            c,
        ),
        None => match frontier(s, own, owner(own, id)) {
            None => true,
            Some(f) => valid_of(r) is Some && time_order(valid_of(r)->0, f) == Order::Equal,
        },
    }
}

/// Whether a node lies at the path and, with a span, exactly there; without one it
/// must be the file.
pub open spec fn lies_at(n: NodeRecord, path: Seq<char>, span: Option<SourceSpan>) -> bool {
    opt_view(n.repo_relative_path) == Some(path) && match span {
        Some(_) => n.span == span,
        None => n.kind == NodeKind::File,
    }
}

/// Whether the live handle lies at the path and span in its newest state.
pub open spec fn lies_live(
    s: Seq<GraphRecord>,
    own: Map<Seq<char>, Seq<char>>,
    path: Seq<char>,
    span: Option<SourceSpan>,
    id: Seq<char>,
) -> bool {
    live_handle(s, own, id) && some_version(
        s,
        versions_of(s, id),
        |r: GraphRecord| lies_at(r->Node_0, path, span) && at_frontier(s, own, id, r),
    )
}

/// Whether the handle lay at the path and span at the commit.
pub open spec fn lay_at(
    s: Seq<GraphRecord>,
    path: Seq<char>,
    span: Option<SourceSpan>,
    commit: Seq<char>,
    id: Seq<char>,
) -> bool {
    exists|i: int|
        0 <= i < s.len() && is_handle_version(#[trigger] s[i], id) && commit_of(s[i]) == Some(
            commit,
        ) && lies_at(s[i]->Node_0, path, span)
}

/// The cited code: the record that the link names, else what lay at its path and
/// span at its commit, else what lies there now. What is not unique does not
/// resolve, nor does it fall back.
pub open spec fn cited(
    s: Seq<GraphRecord>,
    own: Map<Seq<char>, Seq<char>>,
    l: EvidenceLinkView,
) -> Option<Seq<char>> {
    match nonempty(l.target_record_id) {
        Some(id) => Some(id),
        None => match l.target_repo_relative_path {
            None => None,
            Some(path) => {
                let now = the_only(|id: Seq<char>| lies_live(s, own, path, l.target_span, id));
                match identity_commit(l) {
                    None => now,
                    Some(c) => if exists|id: Seq<char>| #[trigger]
                        lay_at(s, path, l.target_span, c, id) {
                        the_only(|id: Seq<char>| lay_at(s, path, l.target_span, c, id))
                    } else {
                        now
                    },
                }
            },
        },
    }
}

/// A set of at most one string tells whether it is the only one.
proof fn lemma_the_only(p: spec_fn(Seq<char>) -> bool, set: StrSet)
    requires
        set.wf(),
        forall|x: Seq<char>| #[trigger] set.has(x) <==> p(x),
    ensures
        the_only(p) == (if set.seq().len() == 1 {
            Some(set.seq()[0])
        } else {
            None
        }),
        set.seq().len() == 0 <==> forall|x: Seq<char>| !#[trigger] p(x),
{
    let q = set.seq();
    if q.len() == 1 {
        let a = q[0];
        assert(set.has(a));
        assert(p(a));
        assert forall|y: Seq<char>| #[trigger] p(y) implies y == a by {
            assert(set.has(y));
        }
        let x = choose|x: Seq<char>| #[trigger] p(x);
        assert(p(x));
        assert(x == a);
    } else {
        if exists|x: Seq<char>| #[trigger] p(x) && forall|y: Seq<char>| #[trigger] p(y) ==> y == x {
            let x = choose|x: Seq<char>| #[trigger]
                p(x) && forall|y: Seq<char>| #[trigger] p(y) ==> y == x;
            assert(set.has(x));
            assert(q.len() >= 2);
            assert(set.has(q[0]) && set.has(q[1]));
            assert(p(q[0]) && p(q[1]));
            assert(lex_lt(q[0], q[1]));
            crate::text::lemma_lex_asymmetric(q[0], q[1]);
        }
    }
    if q.len() > 0 {
        assert(set.has(q[0]));
        assert(p(q[0]));
    } else {
        assert forall|x: Seq<char>| !#[trigger] p(x) by {
            if p(x) {
                assert(set.has(x));
            }
        }
    }
}

fn keep_nonempty(o: &Option<String>) -> (r: Option<&str>)
    ensures
        opt_str_view(r) == nonempty(opt_view(*o)),
{
    match o {
        Some(s) => if s.as_str().is_empty() {
            None
        } else {
            Some(s.as_str())
        },
        None => None,
    }
}

fn link_anchor(l: &EvidenceLink) -> (r: Option<&str>)
    ensures
        opt_str_view(r) == anchor_commit(l@),
{
    match keep_nonempty(&l.as_of_commit) {
        Some(c) => Some(c),
        None => keep_nonempty(&l.target_git_commit),
    }
}

fn link_identity(l: &EvidenceLink) -> (r: Option<&str>)
    ensures
        opt_str_view(r) == identity_commit(l@),
{
    match keep_nonempty(&l.target_git_commit) {
        Some(c) => Some(c),
        None => link_anchor(l),
    }
}

fn node_lies_at(n: &NodeRecord, path: &str, span: Option<SourceSpan>) -> (r: bool)
    ensures
        r == lies_at(*n, path@, span),
{
    if !opt_is(&n.repo_relative_path, path) {
        return false;
    }
    match span {
        Some(a) => match n.span {
            Some(b) => a == b,
            None => false,
        },
        None => n.kind == NodeKind::File,
    }
}

impl<'a> FreshnessIndex<'a> {
    /// Whether the handle is live.
    pub fn is_live_handle(&self, id: &str) -> (r: bool)
        ensures
            r == live_handle(self.store(), self.own(), id@),
    {
        proof {
            use_type_invariant(self);
        }
        self.live.contains(id)
    }

    /// The newest scan of the repository of a record.
    pub fn repo_frontier_for(&self, id: &str) -> (r: Option<String>)
        ensures
            opt_view(r) == frontier(self.store(), self.own(), owner(self.own(), id@)),
    {
        proof {
            use_type_invariant(self);
        }
        newest_scan(self.records, self.owners, &self.at_tips, self.owners.owner_of(id))
    }

    fn version_at_frontier(&self, id: &str, i: usize, tips: &StrSet, scan: &Option<String>) -> (r: bool)
        requires
            i < self.store().len(),
            forall|c: Seq<char>| #[trigger]
                tips.has(c) <==> tip_for(self.store(), self.own(), id@, c),
            opt_view(*scan) == frontier(self.store(), self.own(), owner(self.own(), id@)),
        ensures
            r == at_frontier(self.store(), self.own(), id@, self.store()[i as int]),
    {
        let r = &self.records[i];
        match version_commit(r) {
            Some(c) => {
                proof {
                    if tips.seq().len() > 0 {
                        assert(tips.has(tips.seq()[0]));
                    }
                }
                let empty = tips.len() == 0;
                assert(empty ==> forall|x: Seq<char>|
                    !#[trigger] tip_for(self.store(), self.own(), id@, x)) by {
                    assert forall|x: Seq<char>| empty implies !#[trigger] tip_for(
                        self.store(),
                        self.own(),
                        id@,
                        x,
                    ) by {
                        assert(!tips.has(x));
                    }
                }
                empty || tips.contains(c)
            },
            None => match scan {
                None => true,
                Some(f) => match version_valid(r) {
                    Some(t) => match compare_times(t, f.as_str()) {
                        Order::Equal => true,
                        _ => false,
                    },
                    None => false,
                },
            },
        }
    }

    fn handle_lies_live(&self, path: &str, span: Option<SourceSpan>, id: &str) -> (r: bool)
        requires
            live_handle(self.store(), self.own(), id@),
        ensures
            r == lies_live(self.store(), self.own(), path@, span, id@),
    {
        let ghost s = self.store();
        let ghost own = self.own();
        let ghost p = |r: GraphRecord|
            lies_at(r->Node_0, path@, span) && at_frontier(s, own, id@, r);
        let vs = versions(self.records, id);
        let tips = tips_for(self.records, self.owners, id);
        let scan = self.repo_frontier_for(id);
        let mut k: usize = 0;
        while k < vs.len()
            invariant
                k <= vs@.len(),
                s == self.store(),
                own == self.own(),
                live_handle(s, own, id@),
                p == (|r: GraphRecord|
                    lies_at(r->Node_0, path@, span) && at_frontier(s, own, id@, r)),
                as_ints(vs@) == versions_of(s, id@),
                forall|j: int|
                    0 <= j < vs@.len() ==> (#[trigger] vs@[j]) < s.len() && is_handle_version(
                        s[vs@[j] as int],
                        id@,
                    ),
                forall|c: Seq<char>| #[trigger] tips.has(c) <==> tip_for(s, own, id@, c),
                opt_view(scan) == frontier(s, own, owner(own, id@)),
                forall|j: int| 0 <= j < k ==> !p(s[#[trigger] as_ints(vs@)[j]]),
            decreases vs@.len() - k,
        {
            assert(as_ints(vs@)[k as int] == vs@[k as int]);
            match &self.records[vs[k]] {
                GraphRecord::Node(n) => {
                    if node_lies_at(n, path, span) && self.version_at_frontier(
                        id,
                        vs[k],
                        &tips,
                        &scan,
                    ) {
                        assert(p(s[as_ints(vs@)[k as int]]));
                        return true;
                    }
                },
                _ => {},
            }
            k = k + 1;
        }
        false
    }

    /// The only live handle that lies at the path and span in its newest state.
    pub fn resolve_triple(&self, path: &str, span: Option<SourceSpan>) -> (r: Option<String>)
        ensures
            opt_view(r) == the_only(
                |id: Seq<char>| lies_live(self.store(), self.own(), path@, span, id),
            ),
    {
        proof {
            use_type_invariant(self);
        }
        let ghost s = self.store();
        let ghost own = self.own();
        let mut found = StrSet::new();
        let mut i: usize = 0;
        while i < self.live.items.len()
            invariant
                i <= self.live.items@.len(),
                s == self.store(),
                own == self.own(),
                found.wf(),
                forall|id: Seq<char>| #[trigger] self.live.has(id) <==> live_handle(s, own, id),
                forall|id: Seq<char>| #[trigger]
                    found.has(id) <==> (lies_live(s, own, path@, span, id) && exists|k: int|
                        0 <= k < i && #[trigger] self.live.seq()[k] == id),
            decreases self.live.items@.len() - i,
        {
            let id = self.live.items[i].as_str();
            let ghost found0 = found;
            assert(self.live.seq()[i as int] == id@);
            assert(self.live.has(id@));
            if self.handle_lies_live(path, span, id) {
                found.insert(id);
            }
            proof {
                assert forall|x: Seq<char>| #[trigger]
                    found.has(x) <==> (lies_live(s, own, path@, span, x) && exists|k: int|
                        0 <= k < i + 1 && #[trigger] self.live.seq()[k] == x) by {
                    assert(found0.has(x) <==> (lies_live(s, own, path@, span, x) && exists|k: int|
                        0 <= k < i && #[trigger] self.live.seq()[k] == x));
                    if x == id@ {
                        assert(self.live.seq()[i as int] == x);
                    }
                }
            }
            i = i + 1;
        }
        proof {
            let p = |id: Seq<char>| lies_live(s, own, path@, span, id);
            assert forall|id: Seq<char>| #[trigger] found.has(id) <==> p(id) by {
                if p(id) {
                    assert(self.live.has(id));
                    let k = choose|k: int|
                        0 <= k < self.live.seq().len() && self.live.seq()[k] == id;
                    assert(self.live.seq()[k] == id);
                }
            }
            lemma_the_only(p, found);
        }
        if found.len() == 1 {
            Some(found.items[0].clone())
        } else {
            None
        }
    }

    /// The handles that lay at the path and span at the commit.
    pub fn resolve_triple_at_commit(
        &self,
        path: &str,
        span: Option<SourceSpan>,
        commit: &str,
    ) -> (found: StrSet)
        ensures
            found.wf(),
            forall|id: Seq<char>| #[trigger]
                found.has(id) <==> lay_at(self.store(), path@, span, commit@, id),
    {
        let ghost s = self.store();
        let mut found = StrSet::new();
        let mut i: usize = 0;
        while i < self.records.len()
            invariant
                i <= s.len(),
                s == self.store(),
                s == self.records@,
                found.wf(),
                forall|id: Seq<char>| #[trigger]
                    found.has(id) <==> lay_before(s, path@, span, commit@, id, i as int),
            decreases s.len() - i,
        {
            let ghost found0 = found;
            match &self.records[i] {
                GraphRecord::Node(n) => {
                    if is_handle_kind(n.kind) && opt_str_eq(
                        version_commit(&self.records[i]),
                        Some(commit),
                    ) && node_lies_at(n, path, span) {
                        found.insert(n.id.as_str());
                    }
                },
                _ => {},
            }
            proof {
                assert forall|id: Seq<char>| #[trigger]
                    found.has(id) <==> lay_before(s, path@, span, commit@, id, i + 1) by {
                    assert(found0.has(id) <==> lay_before(s, path@, span, commit@, id, i as int));
                    if lay_before(s, path@, span, commit@, id, i + 1) && !lay_before(
                        s,
                        path@,
                        span,
                        commit@,
                        id,
                        i as int,
                    ) {
                        let k = choose|k: int|
                            0 <= k < i + 1 && k < s.len() && is_handle_version(#[trigger] s[k], id)
                                && commit_of(s[k]) == Some(commit@) && lies_at(
                                s[k]->Node_0,
                                path@,
                                span,
                            );
                        assert(k == i);
                    }
                    if is_handle_version(s[i as int], id) && commit_of(s[i as int]) == Some(commit@)
                        && lies_at(s[i as int]->Node_0, path@, span) {
                        assert(lay_before(s, path@, span, commit@, id, i + 1));
                    }
                }
            }
            i = i + 1;
        }
        found
    }

    /// The cited code of a link.
    pub fn resolve_cited_id(&self, l: &EvidenceLink) -> (r: Option<String>)
        ensures
            opt_view(r) == cited(self.store(), self.own(), l@),
    {
        match keep_nonempty(&l.target_record_id) {
            Some(id) => {
                return Some(id.to_owned());
            },
            None => {},
        }
        match &l.target_repo_relative_path {
            None => None,
            Some(path) => {
                match link_identity(l) {
                    None => self.resolve_triple(path.as_str(), l.target_span),
                    Some(c) => {
                        let found = self.resolve_triple_at_commit(path.as_str(), l.target_span, c);
                        proof {
                            lemma_the_only(
                                |id: Seq<char>|
                                    lay_at(self.store(), path@, l.target_span, c@, id),
                                found,
                            );
                        }
                        if found.len() == 0 {
                            proof {
                                assert forall|id: Seq<char>|
                                    !#[trigger] lay_at(
                                        self.store(),
                                        path@,
                                        l.target_span,
                                        c@,
                                        id,
                                    ) by {
                                    assert(!found.has(id));
                                }
                            }
                            self.resolve_triple(path.as_str(), l.target_span)
                        } else {
                            proof {
                                assert(found.has(found.seq()[0]));
                            }
                            if found.len() == 1 {
                                Some(found.items[0].clone())
                            } else {
                                None
                            }
                        }
                    },
                }
            },
        }
    }
}

spec fn lay_before(
    s: Seq<GraphRecord>,
    path: Seq<char>,
    span: Option<SourceSpan>,
    commit: Seq<char>,
    id: Seq<char>,
    n: int,
) -> bool {
    exists|k: int|
        0 <= k < n && k < s.len() && is_handle_version(#[trigger] s[k], id) && commit_of(s[k])
            == Some(commit) && lies_at(s[k]->Node_0, path, span)
}

// ---------------------------------------------------------------------------
// Drift
// ---------------------------------------------------------------------------

/// The measurement of a drift record in effect.
pub open spec fn drift_of(s: Seq<GraphRecord>, r: GraphRecord) -> Option<SemanticDriftMetadata> {
    match r {
        GraphRecord::Node(n) => if n.kind == NodeKind::SemanticDrift && !deleted(s, n.id@)
            && !superseded(s, n.id@) {
            n.semantic_drift
        } else {
            None
        },
        _ => None,
    }
}

/// The positions, below `n`, of the drift records that measure from `prior`.
pub open spec fn drifts_from(s: Seq<GraphRecord>, n: int, prior: Seq<char>) -> Seq<int>
    decreases n,
{
    if n <= 0 || n > s.len() {
        Seq::empty()
    } else {
        let before = drifts_from(s, n - 1, prior);
        match drift_of(s, s[n - 1]) {
            Some(d) => if d.prior_record_id@ == prior {
                before.push(n - 1)
            } else {
                before
            },
            None => before,
        }
    }
}

/// The latest position, below `n`, of the drift record `id` in effect.
pub open spec fn drift_named(s: Seq<GraphRecord>, n: int, id: Seq<char>) -> Option<int>
    decreases n,
{
    if n <= 0 || n > s.len() {
        None
    } else if drift_of(s, s[n - 1]) is Some && s[n - 1]->Node_0.id@ == id {
        Some(n - 1)
    } else {
        drift_named(s, n - 1, id)
    }
}

/// Whether the drift record `id` is among the positions.
pub open spec fn names_drift(s: Seq<GraphRecord>, at: Seq<int>, id: Seq<char>) -> bool {
    exists|k: int| 0 <= k < at.len() && s[#[trigger] at[k]]->Node_0.id@ == id
}

/// The drift records that measure from `prior`, by their own account or by an edge
/// in effect below `n` that says so.
pub open spec fn drifts_with_edges(s: Seq<GraphRecord>, n: int, prior: Seq<char>) -> Seq<int>
    decreases n,
{
    if n <= 0 || n > s.len() {
        drifts_from(s, s.len() as int, prior)
    } else {
        let before = drifts_with_edges(s, n - 1, prior);
        match s[n - 1] {
            GraphRecord::Edge(e) => if e.label == EdgeLabel::DriftsPrior && e.target@ == prior
                && !deleted(s, e.id@) {
                match drift_named(s, s.len() as int, e.source@) {
                    Some(j) => if names_drift(s, before, e.source@) {
                        before
                    } else {
                        before.push(j)
                    },
                    None => before,
                }
            } else {
                before
            },
            _ => before,
        }
    }
}

/// Whether a measurement was made after the anchor. With ancestry both of its
/// commits must lie on the line of the anchor; without, it must start at the
/// anchor or be later in time.
pub open spec fn after_anchor(
    s: Seq<GraphRecord>,
    d: SemanticDriftMetadata,
    anchor: Option<Seq<char>>,
    time: Option<Seq<char>>,
) -> bool {
    if anchor is Some && in_dag(s, anchor->0) {
        (d.before_git_commit@ == anchor->0 || descends(s, anchor->0, d.before_git_commit@))
            && descends(s, anchor->0, d.after_git_commit@)
    } else if anchor == Some(d.before_git_commit@) {
        true
    } else {
        match time {
            Some(t) => time_order(d.after_valid_time@, t) == Order::Greater,
            None => false,
        }
    }
}

/// Whether one drift record is chosen before another: the earlier measurement,
/// then the smaller identifier.
pub open spec fn drift_before(s: Seq<GraphRecord>, a: int, b: int) -> bool {
    let x = s[a]->Node_0;
    let y = s[b]->Node_0;
    let o = time_order(
        x.semantic_drift->0.after_valid_time@,
        y.semantic_drift->0.after_valid_time@,
    );
    o == Order::Less || (o == Order::Equal && lex_lt(x.id@, y.id@))
}

/// The chosen one of the drift records that were made after the anchor.
pub open spec fn chosen_drift(
    s: Seq<GraphRecord>,
    at: Seq<int>,
    anchor: Option<Seq<char>>,
    time: Option<Seq<char>>,
) -> Option<int>
    decreases at.len(),
{
    if at.len() == 0 {
        None
    } else {
        let best = chosen_drift(s, at.drop_last(), anchor, time);
        let i = at.last();
        if !after_anchor(s, s[i]->Node_0.semantic_drift->0, anchor, time) {
            best
        } else {
            match best {
                None => Some(i),
                Some(b) => if drift_before(s, i, b) {
                    Some(i)
                } else {
                    Some(b)
                },
            }
        }
    }
}

/// The drift record that shows that the cited code moved.
pub open spec fn drift_trigger(
    s: Seq<GraphRecord>,
    id: Seq<char>,
    anchor: Option<Seq<char>>,
    time: Option<Seq<char>>,
) -> Option<TriggerView> {
    match chosen_drift(s, drifts_with_edges(s, s.len() as int, id), anchor, time) {
        Some(i) => Some(
            TriggerView::DriftRecord(
                s[i]->Node_0.id@,
                s[i]->Node_0.semantic_drift->0.after_git_commit@,
                s[i]->Node_0.semantic_drift->0.after_valid_time@,
            ),
        ),
        None => None,
    }
}

fn effective_drift<'a>(records: &'a Vec<GraphRecord>, i: usize) -> (r: Option<(
    &'a NodeRecord,
    &'a SemanticDriftMetadata,
)>)
    requires
        i < records@.len(),
    ensures
        match r {
            Some((n, d)) => drift_of(records@, records@[i as int]) == Some(*d)
                && records@[i as int] == GraphRecord::Node(*n),
            None => drift_of(records@, records@[i as int]) is None,
        },
{
    match &records[i] {
        GraphRecord::Node(n) => {
            if n.kind != NodeKind::SemanticDrift {
                return None;
            }
            match &n.semantic_drift {
                Some(d) => {
                    if is_deleted(records, n.id.as_str()) || is_superseded(records, n.id.as_str()) {
                        None
                    } else {
                        Some((n, d))
                    }
                },
                None => None,
            }
        },
        _ => None,
    }
}

fn find_drift_named(records: &Vec<GraphRecord>, id: &str) -> (r: Option<usize>)
    ensures
        match r {
            Some(i) => drift_named(records@, records@.len() as int, id@) == Some(i as int) && i
                < records@.len() && drift_of(records@, records@[i as int]) is Some,
            None => drift_named(records@, records@.len() as int, id@) is None,
        },
{
    let ghost s = records@;
    let mut i: usize = records.len();
    while i > 0
        invariant
            i <= records@.len(),
            s == records@,
            drift_named(s, s.len() as int, id@) == drift_named(s, i as int, id@),
        decreases i,
    {
        i = i - 1;
        match effective_drift(records, i) {
            Some((n, _)) => {
                if str_eq(n.id.as_str(), id) {
                    return Some(i);
                }
            },
            None => {},
        }
    }
    None
}

/// The positions of the drift records that measure from `prior`.
fn drift_candidates(records: &Vec<GraphRecord>, prior: &str) -> (v: Vec<usize>)
    ensures
        as_ints(v@) == drifts_with_edges(records@, records@.len() as int, prior@),
        forall|k: int|
            0 <= k < v@.len() ==> (#[trigger] v@[k]) < records@.len() && drift_of(
                records@,
                records@[v@[k] as int],
            ) is Some,
{
    let ghost s = records@;
    let mut v: Vec<usize> = Vec::new();
    let mut i: usize = 0;
    assert(as_ints(v@) =~= drifts_from(s, 0, prior@));
    while i < records.len()
        invariant
            i <= records@.len(),
            s == records@,
            as_ints(v@) == drifts_from(s, i as int, prior@),
            forall|k: int|
                0 <= k < v@.len() ==> (#[trigger] v@[k]) < s.len() && drift_of(
                    s,
                    s[v@[k] as int],
                ) is Some,
        decreases records@.len() - i,
    {
        let ghost before = v@;
        match effective_drift(records, i) {
            Some((_, d)) => {
                if str_eq(d.prior_record_id.as_str(), prior) {
                    v.push(i);
                    assert(as_ints(v@) =~= as_ints(before).push(i as int));
                }
            },
            None => {},
        }
        i = i + 1;
    }
    let mut j: usize = 0;
    while j < records.len()
        invariant
            j <= records@.len(),
            s == records@,
            as_ints(v@) == drifts_with_edges(s, j as int, prior@),
            forall|k: int|
                0 <= k < v@.len() ==> (#[trigger] v@[k]) < s.len() && drift_of(
                    s,
                    s[v@[k] as int],
                ) is Some,
        decreases records@.len() - j,
    {
        let ghost before = v@;
        match &records[j] {
            GraphRecord::Edge(e) => {
                if e.label == EdgeLabel::DriftsPrior && str_eq(e.target.as_str(), prior)
                    && !is_deleted(records, e.id.as_str()) {
                    match find_drift_named(records, e.source.as_str()) {
                        Some(m) => {
                            if !is_named(records, &v, e.source.as_str()) {
                                v.push(m);
                                assert(as_ints(v@) =~= as_ints(before).push(m as int));
                            }
                        },
                        None => {},
                    }
                }
            },
            _ => {},
        }
        j = j + 1;
    }
    v
}

fn is_named(records: &Vec<GraphRecord>, at: &Vec<usize>, id: &str) -> (r: bool)
    requires
        forall|k: int|
            0 <= k < at@.len() ==> (#[trigger] at@[k]) < records@.len() && drift_of(
                records@,
                records@[at@[k] as int],
            ) is Some,
    ensures
        r == names_drift(records@, as_ints(at@), id@),
{
    let ghost s = records@;
    let mut k: usize = 0;
    while k < at.len()
        invariant
            k <= at@.len(),
            s == records@,
            forall|k: int|
                0 <= k < at@.len() ==> (#[trigger] at@[k]) < s.len() && drift_of(
                    s,
                    s[at@[k] as int],
                ) is Some,
            forall|j: int| 0 <= j < k ==> s[#[trigger] as_ints(at@)[j]]->Node_0.id@ != id@,
        decreases at@.len() - k,
    {
        assert(as_ints(at@)[k as int] == at@[k as int]);
        match &records[at[k]] {
            GraphRecord::Node(n) => {
                if str_eq(n.id.as_str(), id) {
                    return true;
                }
            },
            _ => {},
        }
        k = k + 1;
    }
    false
}

/// Whether a measurement was made after the anchor.
fn measured_after(
    records: &Vec<GraphRecord>,
    d: &SemanticDriftMetadata,
    anchor: Option<&str>,
    time: Option<&str>,
    descendants: &StrSet,
    ancestry: bool,
) -> (r: bool)
    requires
        match anchor {
            Some(a) => ancestry == in_dag(records@, a@) && forall|c: Seq<char>| #[trigger]
                descendants.has(c) <==> descends(records@, a@, c),
            None => !ancestry,
        },
    ensures
        r == after_anchor(records@, *d, opt_str_view(anchor), opt_str_view(time)),
{
    match anchor {
        Some(a) => {
            if ancestry {
                let on_line = str_eq(d.before_git_commit.as_str(), a) || descendants.contains(
                    d.before_git_commit.as_str(),
                );
                return on_line && descendants.contains(d.after_git_commit.as_str());
            }
            if str_eq(d.before_git_commit.as_str(), a) {
                return true;
            }
        },
        None => {},
    }
    match time {
        Some(t) => match compare_times(d.after_valid_time.as_str(), t) {
            Order::Greater => true,
            _ => false,
        },
        None => false,
    }
}

fn drift_precedes(
    x: &NodeRecord,
    dx: &SemanticDriftMetadata,
    y: &NodeRecord,
    dy: &SemanticDriftMetadata,
) -> (r: bool)
    ensures
        r == ({
            let o = time_order(dx.after_valid_time@, dy.after_valid_time@);
            o == Order::Less || (o == Order::Equal && lex_lt(x.id@, y.id@))
        }),
{
    match compare_times(dx.after_valid_time.as_str(), dy.after_valid_time.as_str()) {
        Order::Less => true,
        Order::Equal => str_lt(x.id.as_str(), y.id.as_str()),
        Order::Greater => false,
    }
}

/// The drift record that shows that the cited code moved.
fn drift_record_trigger(
    records: &Vec<GraphRecord>,
    id: &str,
    anchor: Option<&str>,
    time: Option<&str>,
    descendants: &StrSet,
    ancestry: bool,
) -> (r: Option<TriggeringHandle>)
    requires
        match anchor {
            Some(a) => ancestry == in_dag(records@, a@) && forall|c: Seq<char>| #[trigger]
                descendants.has(c) <==> descends(records@, a@, c),
            None => !ancestry,
        },
    ensures
        opt_trigger(r) == drift_trigger(records@, id@, opt_str_view(anchor), opt_str_view(time)),
{
    let ghost s = records@;
    let ghost av = opt_str_view(anchor);
    let ghost tv = opt_str_view(time);
    let at = drift_candidates(records, id);
    let ghost all = as_ints(at@);
    let mut best: Option<(&NodeRecord, &SemanticDriftMetadata)> = None;
    let ghost mut best_at: int = 0;
    let mut k: usize = 0;
    assert(all.take(0) =~= Seq::<int>::empty());
    while k < at.len()
        invariant
            k <= at@.len(),
            s == records@,
            all == as_ints(at@),
            av == opt_str_view(anchor),
            tv == opt_str_view(time),
            match anchor {
                Some(a) => ancestry == in_dag(records@, a@) && forall|c: Seq<char>| #[trigger]
                    descendants.has(c) <==> descends(records@, a@, c),
                None => !ancestry,
            },
            forall|k: int|
                0 <= k < at@.len() ==> (#[trigger] at@[k]) < s.len() && drift_of(
                    s,
                    s[at@[k] as int],
                ) is Some,
            match best {
                Some((n, d)) => chosen_drift(s, all.take(k as int), av, tv) == Some(best_at)
                    && s[best_at] == GraphRecord::Node(*n) && n.semantic_drift == Some(*d),
                None => chosen_drift(s, all.take(k as int), av, tv) is None,
            },
        decreases at@.len() - k,
    {
        proof {
            let upto = all.take(k + 1);
            assert(upto.drop_last() =~= all.take(k as int));
            assert(as_ints(at@)[k as int] == at@[k as int]);
            assert(upto.last() == at@[k as int]);
        }
        match effective_drift(records, at[k]) {
            Some((n, d)) => {
                assert(n.semantic_drift == Some(*d));
                if measured_after(records, d, anchor, time, descendants, ancestry) {
                    let take = match best {
                        None => true,
                        Some((m, e)) => drift_precedes(n, d, m, e),
                    };
                    if take {
                        best = Some((n, d));
                        proof {
                            best_at = at@[k as int] as int;
                        }
                    }
                }
            },
            None => {},
        }
        k = k + 1;
    }
    assert(all.take(k as int) =~= all);
    match best {
        Some((n, d)) => Some(
            TriggeringHandle::DriftRecord {
                drift_record_id: n.id.clone(),
                after_git_commit: d.after_git_commit.clone(),
                after_valid_time: d.after_valid_time.clone(),
            },
        ),
        None => None,
    }
}

/// The view of an optional trigger.
pub open spec fn opt_trigger(o: Option<TriggeringHandle>) -> Option<TriggerView> {
    match o {
        Some(t) => Some(t@),
        None => None,
    }
}

// ---------------------------------------------------------------------------
// Change of content
// ---------------------------------------------------------------------------

/// The bytes that the content hash of a version covers.
pub open spec fn content_bytes(n: NodeRecord) -> Seq<u8> {
    match n.content_signature {
        Some(x) => encode_utf8(n.summary@) + encode_utf8(x@),
        None => encode_utf8(n.summary@),
    }
}

/// The content hash of a version.
pub open spec fn content_hash_of(n: NodeRecord) -> Seq<char> {
    "blake3:"@ + blake3_hex_of(content_bytes(n))
}

/// Whether the content of two versions differs. A signature that only one of them
/// has says nothing.
pub open spec fn content_differs(a: NodeRecord, b: NodeRecord) -> bool {
    if a.content_signature is Some && b.content_signature is Some {
        content_hash_of(a) != content_hash_of(b)
    } else {
        a.summary@ != b.summary@
    }
}

/// The first of the versions at the commit.
pub open spec fn version_at(s: Seq<GraphRecord>, vs: Seq<int>, commit: Seq<char>) -> Option<int>
    decreases vs.len(),
{
    if vs.len() == 0 {
        None
    } else if commit_of(s[vs[0]]) == Some(commit) {
        Some(vs[0])
    } else {
        version_at(s, vs.drop_first(), commit)
    }
}

/// The last of the latest versions that are not after the time.
pub open spec fn version_before(s: Seq<GraphRecord>, vs: Seq<int>, time: Seq<char>) -> Option<int>
    decreases vs.len(),
{
    if vs.len() == 0 {
        None
    } else {
        let best = version_before(s, vs.drop_last(), time);
        let i = vs.last();
        if valid_of(s[i]) is None || time_order(valid_of(s[i])->0, time) == Order::Greater {
            best
        } else {
            match best {
                None => Some(i),
                Some(b) => if time_order(valid_of(s[b])->0, valid_of(s[i])->0) == Order::Greater {
                    Some(b)
                } else {
                    Some(i)
                },
            }
        }
    }
}

/// The version that the citation was recorded against.
pub open spec fn anchor_version(
    s: Seq<GraphRecord>,
    vs: Seq<int>,
    anchor: Option<Seq<char>>,
    time: Seq<char>,
) -> Option<int> {
    let exact = match anchor {
        Some(c) => version_at(s, vs, c),
        None => None,
    };
    match exact {
        Some(i) => Some(i),
        None => version_before(s, vs, time),
    }
}

/// Whether a version is later than the anchor: a descendant of its commit where
/// there is ancestry, else later in time.
pub open spec fn later_version(
    s: Seq<GraphRecord>,
    r: GraphRecord,
    anchor: Option<Seq<char>>,
    time: Seq<char>,
) -> bool {
    if anchor is Some && in_dag(s, anchor->0) {
        commit_of(r) is Some && descends(s, anchor->0, commit_of(r)->0)
    } else {
        valid_of(r) is Some && time_order(valid_of(r)->0, time) == Order::Greater
    }
}

/// Whether one version is chosen before another: by time, then by commit, then by
/// content hash.
pub open spec fn version_precedes(a: GraphRecord, b: GraphRecord) -> bool {
    let t = time_order(or_empty(valid_of(a)), or_empty(valid_of(b)));
    let c = lex_order(or_empty(commit_of(a)), or_empty(commit_of(b)));
    t == Order::Less || (t == Order::Equal && (c == Order::Less || (c == Order::Equal && lex_lt(
        content_hash_of(a->Node_0),
        content_hash_of(b->Node_0),
    ))))
}

/// The chosen one of the later versions whose content differs from the anchor.
pub open spec fn chosen_change(
    s: Seq<GraphRecord>,
    vs: Seq<int>,
    from: int,
    anchor: Option<Seq<char>>,
    time: Seq<char>,
) -> Option<int>
    decreases vs.len(),
{
    if vs.len() == 0 {
        None
    } else {
        let best = chosen_change(s, vs.drop_last(), from, anchor, time);
        let i = vs.last();
        if !later_version(s, s[i], anchor, time) || !content_differs(s[from]->Node_0, s[i]->Node_0) {
            best
        } else {
            match best {
                None => Some(i),
                Some(b) => if version_precedes(s[i], s[b]) {
                    Some(i)
                } else {
                    Some(b)
                },
            }
        }
    }
}

/// The version that shows that the content of the cited code changed.
pub open spec fn content_trigger(
    s: Seq<GraphRecord>,
    vs: Seq<int>,
    anchor: Option<Seq<char>>,
    time: Option<Seq<char>>,
) -> Option<TriggerView> {
    match time {
        None => None,
        Some(t) => match anchor_version(s, vs, anchor, t) {
            None => None,
            Some(from) => match chosen_change(s, vs, from, anchor, t) {
                None => None,
                Some(i) => Some(
                    TriggerView::ContentChange(
                        or_empty(commit_of(s[i])),
                        or_empty(valid_of(s[i])),
                        content_hash_of(s[i]->Node_0),
                    ),
                ),
            },
        },
    }
}

fn content_hash(n: &NodeRecord) -> (r: String)
    ensures
        r@ == content_hash_of(*n),
{
    let mut bytes: Vec<u8> = Vec::new();
    push_bytes(&mut bytes, n.summary.as_str());
    match &n.content_signature {
        Some(x) => {
            push_bytes(&mut bytes, x.as_str());
        },
        None => {},
    }
    assert(bytes@ =~= content_bytes(*n));
    crate::text::concat2("blake3:", blake3_hex(&bytes).as_str())
}

/// Appends the bytes of a string.
pub fn push_bytes(bytes: &mut Vec<u8>, s: &str)
    ensures
        final(bytes)@ == old(bytes)@ + encode_utf8(s@),
{
    let b = s.as_bytes();
    let mut i: usize = 0;
    assert(bytes@ =~= old(bytes)@ + b@.take(0));
    while i < b.len()
        invariant
            i <= b@.len(),
            b@ == encode_utf8(s@),
            bytes@ == old(bytes)@ + b@.take(i as int),
        decreases b@.len() - i,
    {
        bytes.push(b[i]);
        i = i + 1;
        assert(bytes@ =~= old(bytes)@ + b@.take(i as int));
    }
    assert(b@.take(i as int) =~= b@);
}

fn differs(a: &NodeRecord, b: &NodeRecord) -> (r: bool)
    ensures
        r == content_differs(*a, *b),
{
    if a.content_signature.is_some() && b.content_signature.is_some() {
        !str_eq(content_hash(a).as_str(), content_hash(b).as_str())
    } else {
        !str_eq(a.summary.as_str(), b.summary.as_str())
    }
}

fn find_version_at(records: &Vec<GraphRecord>, vs: &Vec<usize>, commit: &str) -> (r: Option<usize>)
    requires
        forall|k: int| 0 <= k < vs@.len() ==> (#[trigger] vs@[k]) < records@.len(),
    ensures
        match r {
            Some(i) => version_at(records@, as_ints(vs@), commit@) == Some(i as int) && i
                < records@.len() && as_ints(vs@).contains(i as int),
            None => version_at(records@, as_ints(vs@), commit@) is None,
        },
{
    let ghost s = records@;
    let ghost all = as_ints(vs@);
    let mut k: usize = 0;
    assert(all.skip(0) =~= all);
    while k < vs.len()
        invariant
            k <= vs@.len(),
            s == records@,
            all == as_ints(vs@),
            forall|k: int| 0 <= k < vs@.len() ==> (#[trigger] vs@[k]) < records@.len(),
            version_at(s, all, commit@) == version_at(s, all.skip(k as int), commit@),
        decreases vs@.len() - k,
    {
        proof {
            assert(all[k as int] == vs@[k as int]);
            assert(all.skip(k as int)[0] == vs@[k as int]);
            assert(all.skip(k as int).drop_first() =~= all.skip(k + 1));
        }
        if opt_str_eq(version_commit(&records[vs[k]]), Some(commit)) {
            return Some(vs[k]);
        }
        k = k + 1;
    }
    None
}

fn find_version_before(records: &Vec<GraphRecord>, vs: &Vec<usize>, time: &str) -> (r: Option<usize>)
    requires
        forall|k: int| 0 <= k < vs@.len() ==> (#[trigger] vs@[k]) < records@.len(),
    ensures
        match r {
            Some(i) => version_before(records@, as_ints(vs@), time@) == Some(i as int) && i
                < records@.len() && as_ints(vs@).contains(i as int),
            None => version_before(records@, as_ints(vs@), time@) is None,
        },
{
    let ghost s = records@;
    let ghost all = as_ints(vs@);
    let mut best: Option<usize> = None;
    let mut k: usize = 0;
    assert(all.take(0) =~= Seq::<int>::empty());
    while k < vs.len()
        invariant
            k <= vs@.len(),
            s == records@,
            all == as_ints(vs@),
            forall|k: int| 0 <= k < vs@.len() ==> (#[trigger] vs@[k]) < records@.len(),
            match best {
                Some(b) => version_before(s, all.take(k as int), time@) == Some(b as int) && b
                    < s.len() && all.contains(b as int) && valid_of(s[b as int]) is Some,
                None => version_before(s, all.take(k as int), time@) is None,
            },
        decreases vs@.len() - k,
    {
        let i: usize = vs[k];
        proof {
            let upto = all.take(k + 1);
            assert(upto.drop_last() =~= all.take(k as int));
            assert(all[k as int] == i);
            assert(upto.last() == i);
        }
        match version_valid(&records[i]) {
            Some(t) => {
                let late = match compare_times(t, time) {
                    Order::Greater => true,
                    _ => false,
                };
                if !late {
                    match best {
                        None => {
                            best = Some(i);
                        },
                        Some(b) => {
                            match version_valid(&records[b]) {
                                Some(u) => match compare_times(u, t) {
                                    Order::Greater => {},
                                    _ => {
                                        best = Some(i);
                                    },
                                },
                                None => {},
                            }
                        },
                    }
                }
            },
            None => {},
        }
        k = k + 1;
    }
    assert(all.take(k as int) =~= all);
    best
}

fn is_later(
    records: &Vec<GraphRecord>,
    r: &GraphRecord,
    anchor: Option<&str>,
    time: &str,
    descendants: &StrSet,
    ancestry: bool,
) -> (b: bool)
    requires
        match anchor {
            Some(a) => ancestry == in_dag(records@, a@) && forall|c: Seq<char>| #[trigger]
                descendants.has(c) <==> descends(records@, a@, c),
            None => !ancestry,
        },
    ensures
        b == later_version(records@, *r, opt_str_view(anchor), time@),
{
    if ancestry {
        match version_commit(r) {
            Some(c) => descendants.contains(c),
            None => false,
        }
    } else {
        match version_valid(r) {
            Some(t) => match compare_times(t, time) {
                Order::Greater => true,
                _ => false,
            },
            None => false,
        }
    }
}

fn precedes(a: &GraphRecord, x: &NodeRecord, b: &GraphRecord, y: &NodeRecord) -> (r: bool)
    requires
        *a == GraphRecord::Node(*x),
        *b == GraphRecord::Node(*y),
    ensures
        r == version_precedes(*a, *b),
{
    let ta = match version_valid(a) {
        Some(t) => t,
        None => "",
    };
    let tb = match version_valid(b) {
        Some(t) => t,
        None => "",
    };
    let ca = match version_commit(a) {
        Some(t) => t,
        None => "",
    };
    let cb = match version_commit(b) {
        Some(t) => t,
        None => "",
    };
    proof {
        reveal_strlit("");
        assert(""@ =~= Seq::<char>::empty());
    }
    match compare_times(ta, tb) {
        Order::Less => true,
        Order::Greater => false,
        Order::Equal => match str_order(ca, cb) {
            Order::Less => true,
            Order::Greater => false,
            Order::Equal => str_lt(content_hash(x).as_str(), content_hash(y).as_str()),
        },
    }
}

/// The version that shows that the content of the cited code changed.
fn content_change_trigger(
    records: &Vec<GraphRecord>,
    vs: &Vec<usize>,
    anchor: Option<&str>,
    time: Option<&str>,
    descendants: &StrSet,
    ancestry: bool,
) -> (r: Option<TriggeringHandle>)
    requires
        forall|k: int|
            0 <= k < vs@.len() ==> (#[trigger] vs@[k]) < records@.len() && records@[vs@[k] as int] is Node,
        match anchor {
            Some(a) => ancestry == in_dag(records@, a@) && forall|c: Seq<char>| #[trigger]
                descendants.has(c) <==> descends(records@, a@, c),
            None => !ancestry,
        },
    ensures
        opt_trigger(r) == content_trigger(
            records@,
            as_ints(vs@),
            opt_str_view(anchor),
            opt_str_view(time),
        ),
{
    let t = match time {
        Some(t) => t,
        None => {
            return None;
        },
    };
    let ghost s = records@;
    let ghost all = as_ints(vs@);
    let ghost av = opt_str_view(anchor);
    let exact = match anchor {
        Some(c) => find_version_at(records, vs, c),
        None => None,
    };
    let from: usize = match exact {
        Some(i) => i,
        None => match find_version_before(records, vs, t) {
            Some(i) => i,
            None => {
                return None;
            },
        },
    };
    assert(anchor_version(s, all, av, t@) == Some(from as int));
    proof {
        let k = choose|k: int| 0 <= k < all.len() && all[k] == from as int;
        assert(vs@[k] == from);
    }
    let base = match &records[from] {
        GraphRecord::Node(n) => n,
        _ => {
            return None;
        },
    };
    let mut best: Option<(&GraphRecord, &NodeRecord)> = None;
    let ghost mut best_at: int = 0;
    let mut k: usize = 0;
    assert(all.take(0) =~= Seq::<int>::empty());
    while k < vs.len()
        invariant
            k <= vs@.len(),
            s == records@,
            all == as_ints(vs@),
            av == opt_str_view(anchor),
            s[from as int] == GraphRecord::Node(*base),
            forall|k: int|
                0 <= k < vs@.len() ==> (#[trigger] vs@[k]) < records@.len()
                    && records@[vs@[k] as int] is Node,
            match anchor {
                Some(a) => ancestry == in_dag(records@, a@) && forall|c: Seq<char>| #[trigger]
                    descendants.has(c) <==> descends(records@, a@, c),
                None => !ancestry,
            },
            match best {
                Some((r, n)) => chosen_change(s, all.take(k as int), from as int, av, t@) == Some(
                    best_at,
                ) && s[best_at] == *r && *r == GraphRecord::Node(*n),
                None => chosen_change(s, all.take(k as int), from as int, av, t@) is None,
            },
        decreases vs@.len() - k,
    {
        let i: usize = vs[k];
        proof {
            let upto = all.take(k + 1);
            assert(upto.drop_last() =~= all.take(k as int));
            assert(all[k as int] == i);
            assert(upto.last() == i);
        }
        match &records[i] {
            GraphRecord::Node(n) => {
                if is_later(records, &records[i], anchor, t, descendants, ancestry) && differs(
                    base,
                    n,
                ) {
                    let take = match best {
                        None => true,
                        Some((r, m)) => precedes(&records[i], n, r, m),
                    };
                    if take {
                        best = Some((&records[i], n));
                        proof {
                            best_at = i as int;
                        }
                    }
                }
            },
            _ => {},
        }
        k = k + 1;
    }
    assert(all.take(k as int) =~= all);
    match best {
        Some((r, n)) => {
            let commit = match version_commit(r) {
                Some(c) => c.to_owned(),
                None => String::new(),
            };
            let valid = match version_valid(r) {
                Some(v) => v.to_owned(),
                None => String::new(),
            };
            Some(
                TriggeringHandle::ContentChange {
                    after_git_commit: commit,
                    after_valid_time: valid,
                    content_hash: content_hash(n),
                },
            )
        },
        None => None,
    }
}

// ---------------------------------------------------------------------------
// The verdict
// ---------------------------------------------------------------------------

/// Whether the commit is a tip for the handle on the line of the anchor.
pub open spec fn on_lineage(
    s: Seq<GraphRecord>,
    own: Map<Seq<char>, Seq<char>>,
    id: Seq<char>,
    anchor: Seq<char>,
    c: Seq<char>,
) -> bool {
    tip_for(s, own, id, c) && (c == anchor || descends(s, anchor, c))
}

/// Whether the line of the anchor goes on to a tip at which the handle is no more.
pub open spec fn lost_on_lineage(
    s: Seq<GraphRecord>,
    own: Map<Seq<char>, Seq<char>>,
    id: Seq<char>,
    anchor: Seq<char>,
) -> bool {
    &&& in_dag(s, anchor)
    &&& exists|c: Seq<char>| #[trigger] on_lineage(s, own, id, anchor, c)
    &&& !some_version(
        s,
        versions_of(s, id),
        |r: GraphRecord| commit_of(r) is Some && on_lineage(s, own, id, anchor, commit_of(r)->0),
    )
}

/// When an observation was made: its own time, else when it was recorded.
pub open spec fn observed_time(n: NodeRecord) -> Option<Seq<char>> {
    first_some(
        nonempty(opt_view(n.valid_time)),
        first_some(nonempty(opt_view(n.observed_at)), nonempty(opt_view(n.ingested_at))),
    )
}

/// The version that the report describes: the one at the anchor, else the first.
pub open spec fn reference_version(
    s: Seq<GraphRecord>,
    vs: Seq<int>,
    anchor: Option<Seq<char>>,
) -> Option<int> {
    let exact = match anchor {
        Some(c) => version_at(s, vs, c),
        None => None,
    };
    match exact {
        Some(i) => Some(i),
        None => if vs.len() > 0 {
            Some(vs[0])
        } else {
            None
        },
    }
}

/// The cited handle that the report describes.
pub open spec fn handle_view(
    s: Seq<GraphRecord>,
    vs: Seq<int>,
    l: EvidenceLinkView,
    time: Option<Seq<char>>,
) -> CitedHandleView {
    let r = reference_version(s, vs, anchor_commit(l));
    CitedHandleView {
        target_record_id: nonempty(l.target_record_id),
        repo_relative_path: match l.target_repo_relative_path {
            Some(p) => Some(p),
            None => match r {
                Some(i) => opt_view(s[i]->Node_0.repo_relative_path),
                None => None,
            },
        },
        span: match l.target_span {
            Some(x) => Some(x),
            None => match r {
                Some(i) => s[i]->Node_0.span,
                None => None,
            },
        },
        anchor_commit: anchor_commit(l),
        anchor_valid_time: time,
        relation: l.relation,
        target_domain: l.target_domain,
    }
}

/// The entry with this verdict.
pub open spec fn entry_view(
    n: NodeRecord,
    verdict: FreshnessVerdict,
    trigger: Option<TriggerView>,
    handle: CitedHandleView,
) -> VerdictEntryView {
    VerdictEntryView {
        observation_id: n.id@,
        kind: node_kind_name(n.kind),
        verdict,
        freshness_lead: if stale(verdict) {
            Some(FRESHNESS_LEAD@)
        } else {
            None
        },
        provenance: ProvenanceView {
            agent_id: opt_view(n.agent_id),
            session_id: opt_view(n.session_id),
            observed_at: opt_view(n.observed_at),
            confidence: opt_view(n.confidence),
            redaction_policy_version: opt_view(n.redaction_policy_version),
        },
        cited_handle: handle,
        triggering_handle: trigger,
    }
}

/// The time that the citation was recorded against: that of the cited version at
/// the anchor, else that of the observation.
pub open spec fn anchor_time(
    s: Seq<GraphRecord>,
    vs: Seq<int>,
    n: NodeRecord,
    l: EvidenceLinkView,
) -> Option<Seq<char>> {
    let exact = match anchor_commit(l) {
        Some(c) => match version_at(s, vs, c) {
            Some(i) => valid_of(s[i]),
            None => None,
        },
        None => None,
    };
    first_some(exact, observed_time(n))
}

/// What shows that the resolved code moved after the anchor.
pub open spec fn moved(
    s: Seq<GraphRecord>,
    id: Seq<char>,
    n: NodeRecord,
    l: EvidenceLinkView,
) -> Option<TriggerView> {
    let vs = versions_of(s, id);
    let time = anchor_time(s, vs, n, l);
    match drift_trigger(s, id, anchor_commit(l), time) {
        Some(t) => Some(t),
        None => content_trigger(s, vs, anchor_commit(l), time),
    }
}

/// The verdict on one link of an observation.
#[verifier::opaque]
pub open spec fn classify(
    s: Seq<GraphRecord>,
    own: Map<Seq<char>, Seq<char>>,
    n: NodeRecord,
    l: EvidenceLinkView,
) -> VerdictEntryView {
    let target = cited(s, own, l);
    if target is None || !live_handle(s, own, target->0) {
        let trigger = if target is Some && deleted(s, target->0) {
            TriggerView::HandleRemoved(s[last_event(s, target->0)->0]->Tombstone_0.id@)
        } else {
            TriggerView::HandleAbsent
        };
        entry_view(
            n,
            FreshnessVerdict::Unresolved,
            Some(trigger),
            handle_view(s, Seq::empty(), l, None),
        )
    } else {
        let id = target->0;
        let vs = versions_of(s, id);
        if anchor_commit(l) is Some && lost_on_lineage(s, own, id, anchor_commit(l)->0) {
            entry_view(
                n,
                FreshnessVerdict::Unresolved,
                Some(TriggerView::HandleAbsent),
                handle_view(s, vs, l, None),
            )
        } else if anchor_commit(l) is None && anchor_time(s, vs, n, l) is None {
            entry_view(n, FreshnessVerdict::Untemporal, None, handle_view(s, vs, l, None))
        } else {
            let handle = handle_view(s, vs, l, anchor_time(s, vs, n, l));
            match moved(s, id, n, l) {
                Some(t) => entry_view(n, FreshnessVerdict::Drifted, Some(t), handle),
                None => entry_view(n, FreshnessVerdict::Current, None, handle),
            }
        }
    }
}

/// A handle that does not resolve to a live one is unresolved, whatever its anchor
/// is.
pub proof fn law_dead_handle_is_unresolved(
    s: Seq<GraphRecord>,
    own: Map<Seq<char>, Seq<char>>,
    n: NodeRecord,
    l: EvidenceLinkView,
)
    requires
        cited(s, own, l) is None || !live_handle(s, own, cited(s, own, l)->0),
    ensures
        classify(s, own, n, l).verdict == FreshnessVerdict::Unresolved,
{
    reveal(classify);
}

/// A stale verdict names what shows it and carries the fixed text; no other
/// verdict does.
pub proof fn law_stale_iff_triggered(
    s: Seq<GraphRecord>,
    own: Map<Seq<char>, Seq<char>>,
    n: NodeRecord,
    l: EvidenceLinkView,
)
    ensures
        stale(classify(s, own, n, l).verdict) <==> classify(s, own, n, l).triggering_handle is Some,
        stale(classify(s, own, n, l).verdict) <==> classify(s, own, n, l).freshness_lead is Some,
{
    reveal(classify);
}

/// The drift of other code never flags a citation: every drift record that is
/// taken as a trigger measures from the cited record, by its own account or by an
/// edge.
pub proof fn law_only_own_drift_triggers(s: Seq<GraphRecord>, n: int, id: Seq<char>, k: int)
    requires
        0 <= n <= s.len(),
        0 <= k < drifts_with_edges(s, n, id).len(),
    ensures
        ({
            let i = drifts_with_edges(s, n, id)[k];
            (drift_of(s, s[i]) is Some && drift_of(s, s[i])->0.prior_record_id@ == id) || exists|j: int|
                0 <= j < s.len() && (#[trigger] s[j]) is Edge && s[j]->Edge_0.label
                    == EdgeLabel::DriftsPrior && s[j]->Edge_0.target@ == id && drift_named(
                    s,
                    s.len() as int,
                    s[j]->Edge_0.source@,
                ) == Some(i)
        }),
    decreases n,
{
    if n == 0 {
        lemma_drifts_from(s, s.len() as int, id, k);
    } else {
        let before = drifts_with_edges(s, n - 1, id);
        if k < before.len() {
            assert(drifts_with_edges(s, n, id)[k] == before[k]);
            law_only_own_drift_triggers(s, n - 1, id, k);
        } else {
            assert(s[n - 1] is Edge);
        }
    }
}

proof fn lemma_drifts_from(s: Seq<GraphRecord>, n: int, id: Seq<char>, k: int)
    requires
        0 <= n <= s.len(),
        0 <= k < drifts_from(s, n, id).len(),
    ensures
        ({
            let i = drifts_from(s, n, id)[k];
            drift_of(s, s[i]) is Some && drift_of(s, s[i])->0.prior_record_id@ == id
        }),
    decreases n,
{
    if n > 0 {
        let before = drifts_from(s, n - 1, id);
        if k < before.len() {
            assert(drifts_from(s, n, id)[k] == before[k]);
            lemma_drifts_from(s, n - 1, id, k);
        }
    }
}

fn make_entry(
    n: &NodeRecord,
    verdict: FreshnessVerdict,
    trigger: Option<TriggeringHandle>,
    handle: CitedHandle,
) -> (r: FreshnessVerdictEntry)
    ensures
        r@ == entry_view(*n, verdict, opt_trigger(trigger), handle@),
{
    FreshnessVerdictEntry {
        observation_id: n.id.clone(),
        kind: n.kind.as_str().to_owned(),
        verdict,
        freshness_lead: if verdict.is_stale() {
            Some(FRESHNESS_LEAD)
        } else {
            None
        },
        provenance: VerdictProvenance {
            agent_id: opt_clone(&n.agent_id),
            session_id: opt_clone(&n.session_id),
            observed_at: opt_clone(&n.observed_at),
            confidence: opt_clone(&n.confidence),
            redaction_policy_version: opt_clone(&n.redaction_policy_version),
        },
        cited_handle: handle,
        triggering_handle: trigger,
    }
}

fn make_handle(
    records: &Vec<GraphRecord>,
    vs: &Vec<usize>,
    l: &EvidenceLink,
    time: Option<String>,
) -> (r: CitedHandle)
    requires
        forall|k: int|
            0 <= k < vs@.len() ==> (#[trigger] vs@[k]) < records@.len() && records@[vs@[k] as int] is Node,
    ensures
        r@ == handle_view(records@, as_ints(vs@), l@, opt_view(time)),
{
    let ghost all = as_ints(vs@);
    let exact = match link_anchor(l) {
        Some(c) => find_version_at(records, vs, c),
        None => None,
    };
    let reference: Option<usize> = match exact {
        Some(i) => {
            proof {
                let k = choose|k: int| 0 <= k < all.len() && all[k] == i as int;
                assert(vs@[k] == i);
            }
            Some(i)
        },
        None => if vs.len() > 0 {
            assert(all[0] == vs@[0]);
            Some(vs[0])
        } else {
            None
        },
    };
    let mut path = opt_clone(&l.target_repo_relative_path);
    let mut span = l.target_span;
    match reference {
        Some(i) => match &records[i] {
            GraphRecord::Node(n) => {
                if path.is_none() {
                    path = opt_clone(&n.repo_relative_path);
                }
                if span.is_none() {
                    span = n.span;
                }
            },
            _ => {},
        },
        None => {},
    }
    let id = match keep_nonempty(&l.target_record_id) {
        Some(x) => Some(x.to_owned()),
        None => None,
    };
    let anchor = match link_anchor(l) {
        Some(x) => Some(x.to_owned()),
        None => None,
    };
    CitedHandle {
        target_record_id: id,
        repo_relative_path: path,
        span,
        anchor_commit: anchor,
        anchor_valid_time: time,
        relation: l.relation.clone(),
        target_domain: l.target_domain.clone(),
    }
}

fn observation_time(n: &NodeRecord) -> (r: Option<&str>)
    ensures
        opt_str_view(r) == observed_time(*n),
{
    match keep_nonempty(&n.valid_time) {
        Some(t) => Some(t),
        None => match keep_nonempty(&n.observed_at) {
            Some(t) => Some(t),
            None => keep_nonempty(&n.ingested_at),
        },
    }
}

impl<'a> FreshnessIndex<'a> {
    fn is_lost(&self, id: &str, anchor: &str, descendants: &StrSet, ancestry: bool) -> (r: bool)
        requires
            ancestry == in_dag(self.store(), anchor@),
            forall|c: Seq<char>| #[trigger]
                descendants.has(c) <==> descends(self.store(), anchor@, c),
        ensures
            r == lost_on_lineage(self.store(), self.own(), id@, anchor@),
    {
        if !ancestry {
            return false;
        }
        let ghost s = self.store();
        let ghost own = self.own();
        let ghost p = |r: GraphRecord|
            commit_of(r) is Some && on_lineage(s, own, id@, anchor@, commit_of(r)->0);
        let tips = tips_for(self.records, self.owners, id);
        let mut frontier_found = false;
        let mut i: usize = 0;
        while i < tips.items.len()
            invariant
                i <= tips.items@.len(),
                s == self.store(),
                own == self.own(),
                forall|c: Seq<char>| #[trigger] tips.has(c) <==> tip_for(s, own, id@, c),
                forall|c: Seq<char>| #[trigger] descendants.has(c) <==> descends(s, anchor@, c),
                frontier_found <==> exists|k: int|
                    0 <= k < i && on_lineage(s, own, id@, anchor@, #[trigger] tips.seq()[k]),
            decreases tips.items@.len() - i,
        {
            let c = tips.items[i].as_str();
            assert(tips.seq()[i as int] == c@);
            assert(tips.has(c@));
            if str_eq(c, anchor) || descendants.contains(c) {
                frontier_found = true;
            }
            i = i + 1;
        }
        proof {
            if exists|c: Seq<char>| #[trigger] on_lineage(s, own, id@, anchor@, c) {
                let c = choose|c: Seq<char>| #[trigger] on_lineage(s, own, id@, anchor@, c);
                assert(tips.has(c));
                let k = choose|k: int| 0 <= k < tips.seq().len() && tips.seq()[k] == c;
                assert(on_lineage(s, own, id@, anchor@, tips.seq()[k]));
            }
        }
        if !frontier_found {
            return false;
        }
        let vs = versions(self.records, id);
        let mut k: usize = 0;
        while k < vs.len()
            invariant
                k <= vs@.len(),
                s == self.store(),
                own == self.own(),
                p == (|r: GraphRecord|
                    commit_of(r) is Some && on_lineage(s, own, id@, anchor@, commit_of(r)->0)),
                as_ints(vs@) == versions_of(s, id@),
                forall|j: int| 0 <= j < vs@.len() ==> (#[trigger] vs@[j]) < s.len(),
                forall|c: Seq<char>| #[trigger] tips.has(c) <==> tip_for(s, own, id@, c),
                forall|c: Seq<char>| #[trigger] descendants.has(c) <==> descends(s, anchor@, c),
                forall|j: int| 0 <= j < k ==> !p(s[#[trigger] as_ints(vs@)[j]]),
            decreases vs@.len() - k,
        {
            assert(as_ints(vs@)[k as int] == vs@[k as int]);
            match version_commit(&self.records[vs[k]]) {
                Some(c) => {
                    if tips.contains(c) && (str_eq(c, anchor) || descendants.contains(c)) {
                        assert(p(s[as_ints(vs@)[k as int]]));
                        return false;
                    }
                },
                None => {},
            }
            k = k + 1;
        }
        true
    }

    /// The verdict on one link of an observation.
    pub fn classify_link(&self, n: &NodeRecord, l: &EvidenceLink) -> (r: FreshnessVerdictEntry)
        ensures
            r@ == classify(self.store(), self.own(), *n, l@),
    {
        let ghost s = self.store();
        reveal(classify);
        let target = self.resolve_cited_id(l);
        let id = match target {
            None => {
                let none: Vec<usize> = Vec::new();
                assert(as_ints(none@) =~= Seq::<int>::empty());
                let handle = make_handle(self.records, &none, l, None);
                return make_entry(
                    n,
                    FreshnessVerdict::Unresolved,
                    Some(TriggeringHandle::HandleAbsent),
                    handle,
                );
            },
            Some(id) => id,
        };
        if !self.is_live_handle(id.as_str()) {
            let none: Vec<usize> = Vec::new();
            assert(as_ints(none@) =~= Seq::<int>::empty());
            let handle = make_handle(self.records, &none, l, None);
            let mut trigger = TriggeringHandle::HandleAbsent;
            match find_last_event(self.records, id.as_str()) {
                Some(i) => match &self.records[i] {
                    GraphRecord::Tombstone(t) => {
                        trigger = TriggeringHandle::HandleRemoved { tombstone_id: t.id.clone() };
                    },
                    _ => {},
                },
                None => {},
            }
            return make_entry(n, FreshnessVerdict::Unresolved, Some(trigger), handle);
        }
        let vs = versions(self.records, id.as_str());
        let anchor = link_anchor(l);
        let mut descendants = StrSet::new();
        let mut ancestry = false;
        match anchor {
            Some(a) => {
                descendants = descendants_of(self.records, a);
                ancestry = has_ancestry(self.records, a);
                if self.is_lost(id.as_str(), a, &descendants, ancestry) {
                    let handle = make_handle(self.records, &vs, l, None);
                    return make_entry(
                        n,
                        FreshnessVerdict::Unresolved,
                        Some(TriggeringHandle::HandleAbsent),
                        handle,
                    );
                }
            },
            None => {},
        }
        let mut time: Option<&str> = None;
        match anchor {
            Some(a) => match find_version_at(self.records, &vs, a) {
                Some(i) => {
                    time = version_valid(&self.records[i]);
                },
                None => {},
            },
            None => {},
        }
        if time.is_none() {
            time = observation_time(n);
        }
        assert(opt_str_view(time) == anchor_time(s, versions_of(s, id@), *n, l@));
        if anchor.is_none() && time.is_none() {
            let handle = make_handle(self.records, &vs, l, None);
            return make_entry(n, FreshnessVerdict::Untemporal, None, handle);
        }
        let owned = match time {
            Some(t) => Some(t.to_owned()),
            None => None,
        };
        let handle = make_handle(self.records, &vs, l, owned);
        let drift = drift_record_trigger(
            self.records,
            id.as_str(),
            anchor,
            time,
            &descendants,
            ancestry,
        );
        let trigger = match drift {
            Some(t) => Some(t),
            None => content_change_trigger(self.records, &vs, anchor, time, &descendants, ancestry),
        };
        match trigger {
            Some(t) => make_entry(n, FreshnessVerdict::Drifted, Some(t), handle),
            None => make_entry(n, FreshnessVerdict::Current, None, handle),
        }
    }
}

// ---------------------------------------------------------------------------
// The verdicts of a store
// ---------------------------------------------------------------------------

/// Whether the label cites code even where its target is unknown.
pub open spec fn code_relation(label: EdgeLabel) -> bool {
    label == EdgeLabel::MentionsSymbol || label == EdgeLabel::TouchedFile || label
        == EdgeLabel::TouchesFile
}

/// Whether the edge, being in effect, cites code.
pub open spec fn edge_cites_code(
    s: Seq<GraphRecord>,
    e: crate::ir::EdgeRecord,
) -> bool {
    &&& cites_evidence(e.label)
    &&& !deleted(s, e.id@)
    &&& !superseded(s, e.id@)
    &&& match kind_of(s, e.target@) {
        Some(k) => handle_kind(k),
        None => code_relation(e.label),
    }
}

/// The citation that an edge makes.
pub open spec fn edge_link(e: crate::ir::EdgeRecord) -> EvidenceLinkView {
    EvidenceLinkView {
        target_record_id: Some(e.target@),
        target_domain: "codegraph"@,
        relation: edge_label_name(e.label),
        confidence: or_empty(opt_view(e.confidence)),
        as_of_commit: match e.temporal {
            Some(t) => nonempty(Some(t.git_commit@)),
            None => None,
        },
        target_repo_relative_path: None,
        target_span: None,
        target_git_commit: None,
    }
}

/// The citations that the edges below `n` make for the observation `id`.
pub open spec fn edge_links(s: Seq<GraphRecord>, n: int, id: Seq<char>) -> Seq<EvidenceLinkView>
    decreases n,
{
    if n <= 0 || n > s.len() {
        Seq::empty()
    } else {
        let before = edge_links(s, n - 1, id);
        match s[n - 1] {
            GraphRecord::Edge(e) => if e.source@ == id && edge_cites_code(s, e) {
                before.push(edge_link(e))
            } else {
                before
            },
            _ => before,
        }
    }
}

/// The citations that an observation carries itself.
pub open spec fn inline_links(n: NodeRecord) -> Seq<EvidenceLinkView> {
    match n.evidence_links {
        Some(v) => v@.map_values(|l: EvidenceLink| l@),
        None => Seq::empty(),
    }
}

/// Whether the citation is one of code: not of another domain, and not of a commit
/// or a change.
pub open spec fn classifiable(s: Seq<GraphRecord>, l: EvidenceLinkView) -> bool {
    &&& l.target_domain == "codegraph"@
    &&& l.relation != edge_label_name(EdgeLabel::ExplainsChange)
    &&& l.relation != edge_label_name(EdgeLabel::ChangedIn)
    &&& match nonempty(l.target_record_id) {
        Some(id) => match kind_of(s, id) {
            Some(k) => handle_kind(k),
            None => true,
        },
        None => true,
    }
}

/// What identifies a citation: the resolved record, the relation and the anchor.
pub open spec fn citation_key(
    s: Seq<GraphRecord>,
    own: Map<Seq<char>, Seq<char>>,
    l: EvidenceLinkView,
) -> Option<(Seq<char>, Seq<char>, Seq<char>)> {
    match cited(s, own, l) {
        Some(id) => Some(
            (id, l.relation, or_empty(first_some(l.as_of_commit, l.target_git_commit))),
        ),
        None => None,
    }
}

/// Whether one of the first `n` citations of code has this key.
pub open spec fn keyed_before(
    s: Seq<GraphRecord>,
    own: Map<Seq<char>, Seq<char>>,
    links: Seq<EvidenceLinkView>,
    n: int,
    key: (Seq<char>, Seq<char>, Seq<char>),
) -> bool {
    exists|k: int|
        0 <= k < n && k < links.len() && classifiable(s, #[trigger] links[k]) && citation_key(
            s,
            own,
            links[k],
        ) == Some(key)
}

/// Whether the citation by the edge at `j` is not already made by a link or by an
/// earlier edge.
pub open spec fn edge_kept(
    s: Seq<GraphRecord>,
    own: Map<Seq<char>, Seq<char>>,
    inline: Seq<EvidenceLinkView>,
    edges: Seq<EvidenceLinkView>,
    j: int,
) -> bool {
    classifiable(s, edges[j]) && match citation_key(s, own, edges[j]) {
        Some(key) => !keyed_before(s, own, inline, inline.len() as int, key) && !keyed_before(
            s,
            own,
            edges,
            j,
            key,
        ),
        None => true,
    }
}

/// The verdicts on the first `n` links that an observation carries.
pub open spec fn inline_entries(
    s: Seq<GraphRecord>,
    own: Map<Seq<char>, Seq<char>>,
    obs: NodeRecord,
    links: Seq<EvidenceLinkView>,
    n: int,
) -> Seq<VerdictEntryView>
    decreases n,
{
    if n <= 0 || n > links.len() {
        Seq::empty()
    } else {
        let before = inline_entries(s, own, obs, links, n - 1);
        if classifiable(s, links[n - 1]) {
            before.push(classify(s, own, obs, links[n - 1]))
        } else {
            before
        }
    }
}

/// The verdicts on the first `n` citations by edges that no link makes.
pub open spec fn edge_entries(
    s: Seq<GraphRecord>,
    own: Map<Seq<char>, Seq<char>>,
    obs: NodeRecord,
    inline: Seq<EvidenceLinkView>,
    edges: Seq<EvidenceLinkView>,
    n: int,
) -> Seq<VerdictEntryView>
    decreases n,
{
    if n <= 0 || n > edges.len() {
        Seq::empty()
    } else {
        let before = edge_entries(s, own, obs, inline, edges, n - 1);
        if edge_kept(s, own, inline, edges, n - 1) {
            before.push(classify(s, own, obs, edges[n - 1]))
        } else {
            before
        }
    }
}

/// The verdicts on the citations of one observation.
pub open spec fn observation_entries(
    s: Seq<GraphRecord>,
    own: Map<Seq<char>, Seq<char>>,
    obs: NodeRecord,
) -> Seq<VerdictEntryView> {
    let inline = inline_links(obs);
    let edges = edge_links(s, s.len() as int, obs.id@);
    inline_entries(s, own, obs, inline, inline.len() as int) + edge_entries(
        s,
        own,
        obs,
        inline,
        edges,
        edges.len() as int,
    )
}

/// Whether the record is an observation with citations.
pub open spec fn citing(s: Seq<GraphRecord>, r: GraphRecord) -> bool {
    r is Node && observation_kind(r->Node_0.kind) && (inline_links(r->Node_0).len() > 0
        || edge_links(s, s.len() as int, r->Node_0.id@).len() > 0)
}

/// Whether the record at `i` is the first version of an observation in effect with
/// citations.
pub open spec fn reported(s: Seq<GraphRecord>, i: int) -> bool {
    &&& citing(s, s[i])
    &&& !deleted(s, s[i]->Node_0.id@)
    &&& !superseded(s, s[i]->Node_0.id@)
    &&& forall|j: int|
        0 <= j < i ==> !(citing(s, #[trigger] s[j]) && s[j]->Node_0.id@ == s[i]->Node_0.id@)
}

/// The verdicts on the observations below `n`, in the order of the store.
pub open spec fn entries_below(
    s: Seq<GraphRecord>,
    own: Map<Seq<char>, Seq<char>>,
    n: int,
) -> Seq<VerdictEntryView>
    decreases n,
{
    if n <= 0 || n > s.len() {
        Seq::empty()
    } else {
        let before = entries_below(s, own, n - 1);
        if reported(s, n - 1) {
            before + observation_entries(s, own, s[n - 1]->Node_0)
        } else {
            before
        }
    }
}

/// The views of a list of entries.
pub open spec fn entry_views(v: Seq<FreshnessVerdictEntry>) -> Seq<VerdictEntryView> {
    v.map_values(|e: FreshnessVerdictEntry| e@)
}

/// The order of entries: by observation, then by the cited record, its path, the
/// relation and the anchor.
pub open spec fn entry_before(a: VerdictEntryView, b: VerdictEntryView) -> bool {
    let x = a.cited_handle;
    let y = b.cited_handle;
    then_lt(
        a.observation_id,
        b.observation_id,
        then_lt(
            or_empty(x.target_record_id),
            or_empty(y.target_record_id),
            then_lt(
                or_empty(x.repo_relative_path),
                or_empty(y.repo_relative_path),
                then_lt(
                    x.relation,
                    y.relation,
                    lex_lt(or_empty(x.anchor_commit), or_empty(y.anchor_commit)),
                ),
            ),
        ),
    )
}

/// Whether `a` comes before `b`, decided by `rest` where they are equal.
pub open spec fn then_lt(a: Seq<char>, b: Seq<char>, rest: bool) -> bool {
    lex_lt(a, b) || (a == b && rest)
}

fn opt_or_empty(o: &Option<String>) -> (r: &str)
    ensures
        r@ == or_empty(opt_view(*o)),
{
    match o {
        Some(s) => s.as_str(),
        None => {
            proof {
                reveal_strlit("");
                assert(""@ =~= Seq::<char>::empty());
            }
            ""
        },
    }
}

/// Coming before another entry is a strict weak order.
pub proof fn lemma_entry_order()
    ensures
        weak_order(|a: VerdictEntryView, b: VerdictEntryView| entry_before(a, b)),
{
    let lt = |a: VerdictEntryView, b: VerdictEntryView| entry_before(a, b);
    assert forall|a: VerdictEntryView, b: VerdictEntryView| #[trigger] lt(a, b) implies !lt(b, a) by {
        lemma_lex_three(a.observation_id, b.observation_id, a.observation_id);
        lemma_lex_three(or_empty(a.cited_handle.target_record_id), or_empty(b.cited_handle.target_record_id), or_empty(a.cited_handle.target_record_id));
        lemma_lex_three(or_empty(a.cited_handle.repo_relative_path), or_empty(b.cited_handle.repo_relative_path), or_empty(a.cited_handle.repo_relative_path));
        lemma_lex_three(a.cited_handle.relation, b.cited_handle.relation, a.cited_handle.relation);
        lemma_lex_three(or_empty(a.cited_handle.anchor_commit), or_empty(b.cited_handle.anchor_commit), or_empty(a.cited_handle.anchor_commit));
    }
    assert forall|a: VerdictEntryView, b: VerdictEntryView, c: VerdictEntryView|
        !(#[trigger] lt(a, b)) && !(#[trigger] lt(b, c)) implies !lt(a, c) by {
        lemma_lex_three(a.observation_id, b.observation_id, c.observation_id);
        lemma_lex_three(or_empty(a.cited_handle.target_record_id), or_empty(b.cited_handle.target_record_id), or_empty(c.cited_handle.target_record_id));
        lemma_lex_three(or_empty(a.cited_handle.repo_relative_path), or_empty(b.cited_handle.repo_relative_path), or_empty(c.cited_handle.repo_relative_path));
        lemma_lex_three(a.cited_handle.relation, b.cited_handle.relation, c.cited_handle.relation);
        lemma_lex_three(or_empty(a.cited_handle.anchor_commit), or_empty(b.cited_handle.anchor_commit), or_empty(c.cited_handle.anchor_commit));
    }
}

/// Entries in the order of observation and cited handle; those that tie stay as they
/// stand.
pub open spec fn by_handle(s: Seq<VerdictEntryView>) -> Seq<VerdictEntryView> {
    sorted_by(s, |a: VerdictEntryView, b: VerdictEntryView| entry_before(a, b))
}

impl Ranked for FreshnessVerdictEntry {
    open spec fn before(self, other: Self) -> bool {
        entry_before(self@, other@)
    }

    fn is_before(&self, other: &Self) -> (r: bool) {
        proof {
            crate::text::lemma_lex_irreflexive(self@.observation_id);
            crate::text::lemma_lex_irreflexive(or_empty(self@.cited_handle.target_record_id));
            crate::text::lemma_lex_irreflexive(or_empty(self@.cited_handle.repo_relative_path));
            crate::text::lemma_lex_irreflexive(self@.cited_handle.relation);
        }
        let x = &self.cited_handle;
        let y = &other.cited_handle;
        match str_order(self.observation_id.as_str(), other.observation_id.as_str()) {
            Order::Less => true,
            Order::Greater => false,
            Order::Equal => match str_order(
                opt_or_empty(&x.target_record_id),
                opt_or_empty(&y.target_record_id),
            ) {
                Order::Less => true,
                Order::Greater => false,
                Order::Equal => match str_order(
                    opt_or_empty(&x.repo_relative_path),
                    opt_or_empty(&y.repo_relative_path),
                ) {
                    Order::Less => true,
                    Order::Greater => false,
                    Order::Equal => match str_order(x.relation.as_str(), y.relation.as_str()) {
                        Order::Less => true,
                        Order::Greater => false,
                        Order::Equal => str_lt(
                            opt_or_empty(&x.anchor_commit),
                            opt_or_empty(&y.anchor_commit),
                        ),
                    },
                },
            },
        }
    }
}

struct CitationKey {
    id: String,
    relation: String,
    anchor: String,
}

impl CitationKey {
    spec fn triple(&self) -> (Seq<char>, Seq<char>, Seq<char>) {
        (self.id@, self.relation@, self.anchor@)
    }
}

fn has_key(keys: &Vec<CitationKey>, key: &CitationKey) -> (r: bool)
    ensures
        r == exists|k: int| 0 <= k < keys@.len() && (#[trigger] keys@[k]).triple() == key.triple(),
{
    let mut k: usize = 0;
    while k < keys.len()
        invariant
            k <= keys@.len(),
            forall|j: int| 0 <= j < k ==> (#[trigger] keys@[j]).triple() != key.triple(),
        decreases keys@.len() - k,
    {
        if str_eq(keys[k].id.as_str(), key.id.as_str()) && str_eq(
            keys[k].relation.as_str(),
            key.relation.as_str(),
        ) && str_eq(keys[k].anchor.as_str(), key.anchor.as_str()) {
            return true;
        }
        k = k + 1;
    }
    false
}

fn is_code_relation(label: EdgeLabel) -> (r: bool)
    ensures
        r == code_relation(label),
{
    match label {
        EdgeLabel::MentionsSymbol | EdgeLabel::TouchedFile | EdgeLabel::TouchesFile => true,
        _ => false,
    }
}

/// The views of a list of links.
pub open spec fn link_views(v: Seq<EvidenceLink>) -> Seq<EvidenceLinkView> {
    v.map_values(|l: EvidenceLink| l@)
}

/// The citations that edges make for an observation.
pub fn edge_code_citations(records: &Vec<GraphRecord>, id: &str) -> (v: Vec<EvidenceLink>)
    ensures
        link_views(v@) == edge_links(records@, records@.len() as int, id@),
{
    let ghost s = records@;
    let mut v: Vec<EvidenceLink> = Vec::new();
    let mut i: usize = 0;
    assert(link_views(v@) =~= edge_links(s, 0, id@));
    while i < records.len()
        invariant
            i <= records@.len(),
            s == records@,
            link_views(v@) == edge_links(s, i as int, id@),
        decreases records@.len() - i,
    {
        let ghost before = v@;
        match &records[i] {
            GraphRecord::Edge(e) => {
                if e.label.is_evidence_link_label() && str_eq(e.source.as_str(), id) && !is_deleted(
                    records,
                    e.id.as_str(),
                ) && !is_superseded(records, e.id.as_str()) {
                    let code = match kind_by_id(records, e.target.as_str()) {
                        Some(k) => is_handle_kind(k),
                        None => is_code_relation(e.label),
                    };
                    if code {
                        let commit = match &e.temporal {
                            Some(t) => if t.git_commit.as_str().is_empty() {
                                None
                            } else {
                                Some(t.git_commit.clone())
                            },
                            None => None,
                        };
                        let link = EvidenceLink {
                            target_record_id: Some(e.target.clone()),
                            target_domain: "codegraph".to_owned(),
                            relation: e.label.as_str().to_owned(),
                            confidence: opt_or_empty(&e.confidence).to_owned(),
                            as_of_commit: commit,
                            target_repo_relative_path: None,
                            target_span: None,
                            target_git_commit: None,
                        };
                        assert(link@ =~= edge_link(*e));
                        v.push(link);
                        assert(link_views(v@) =~= link_views(before).push(edge_link(*e)));
                    }
                }
            },
            _ => {},
        }
        i = i + 1;
    }
    v
}

fn is_classifiable(records: &Vec<GraphRecord>, l: &EvidenceLink) -> (r: bool)
    ensures
        r == classifiable(records@, l@),
{
    if !str_eq(l.target_domain.as_str(), "codegraph") {
        return false;
    }
    if str_eq(l.relation.as_str(), EdgeLabel::ExplainsChange.as_str()) || str_eq(
        l.relation.as_str(),
        EdgeLabel::ChangedIn.as_str(),
    ) {
        return false;
    }
    match keep_nonempty(&l.target_record_id) {
        Some(id) => match kind_by_id(records, id) {
            Some(k) => is_handle_kind(k),
            None => true,
        },
        None => true,
    }
}

impl<'a> FreshnessIndex<'a> {
    fn covered_key(&self, l: &EvidenceLink) -> (r: Option<CitationKey>)
        ensures
            match r {
                Some(k) => citation_key(self.store(), self.own(), l@) == Some(k.triple()),
                None => citation_key(self.store(), self.own(), l@) is None,
            },
    {
        match self.resolve_cited_id(l) {
            Some(id) => {
                let anchor = match &l.as_of_commit {
                    Some(c) => c.clone(),
                    None => opt_or_empty(&l.target_git_commit).to_owned(),
                };
                Some(CitationKey { id, relation: l.relation.clone(), anchor })
            },
            None => None,
        }
    }

    /// The verdicts on the citations of one observation.
    pub fn observation_verdicts(&self, n: &NodeRecord) -> (out: Vec<FreshnessVerdictEntry>)
        ensures
            entry_views(out@) == observation_entries(self.store(), self.own(), *n),
    {
        let edges = edge_code_citations(self.records, n.id.as_str());
        let none: Vec<EvidenceLink> = Vec::new();
        let inline: &Vec<EvidenceLink> = match &n.evidence_links {
            Some(v) => v,
            None => &none,
        };
        let ghost s = self.store();
        let ghost own = self.own();
        let ghost iv = inline_links(*n);
        let ghost ev = edge_links(s, s.len() as int, n.id@);
        assert(link_views(inline@) =~= iv);
        let mut out: Vec<FreshnessVerdictEntry> = Vec::new();
        let mut keys: Vec<CitationKey> = Vec::new();
        let mut i: usize = 0;
        assert(entry_views(out@) =~= inline_entries(s, own, *n, iv, 0));
        while i < inline.len()
            invariant
                i <= inline@.len(),
                s == self.store(),
                own == self.own(),
                s == self.records@,
                iv == link_views(inline@),
                entry_views(out@) == inline_entries(s, own, *n, iv, i as int),
                forall|t: (Seq<char>, Seq<char>, Seq<char>)| #[trigger]
                    keyed_before(s, own, iv, i as int, t) <==> key_held(keys@, t),
            decreases inline@.len() - i,
        {
            let l = &inline[i];
            assert(iv[i as int] == l@);
            let ghost keys0 = keys@;
            let ghost out0 = out@;
            if is_classifiable(self.records, l) {
                match self.covered_key(l) {
                    Some(k) => {
                        keys.push(k);
                        assert(keys@.drop_last() =~= keys0);
                    },
                    None => {},
                }
                out.push(self.classify_link(n, l));
                assert(entry_views(out@) =~= entry_views(out0).push(classify(s, own, *n, l@)));
            }
            proof {
                assert forall|t: (Seq<char>, Seq<char>, Seq<char>)| #[trigger]
                    keyed_before(s, own, iv, i + 1, t) <==> key_held(keys@, t) by {
                    lemma_keyed_step(s, own, iv, i as int, t);
                    assert(keyed_before(s, own, iv, i as int, t) <==> key_held(keys0, t));
                    lemma_key_push(keys0, keys@, t);
                }
            }
            i = i + 1;
        }
        let ghost inline_out = entry_views(out@);
        let ghost inline_keys = keys@;
        let mut j: usize = 0;
        assert(entry_views(out@) =~= inline_out + edge_entries(s, own, *n, iv, ev, 0));
        while j < edges.len()
            invariant
                j <= edges@.len(),
                s == self.store(),
                own == self.own(),
                s == self.records@,
                ev == link_views(edges@),
                inline_out == inline_entries(s, own, *n, iv, iv.len() as int),
                entry_views(out@) == inline_out + edge_entries(s, own, *n, iv, ev, j as int),
                forall|t: (Seq<char>, Seq<char>, Seq<char>)| #[trigger]
                    key_held(keys@, t) <==> (keyed_before(s, own, iv, iv.len() as int, t)
                        || keyed_before(s, own, ev, j as int, t)),
            decreases edges@.len() - j,
        {
            let l = &edges[j];
            assert(ev[j as int] == l@);
            let ghost keys0 = keys@;
            let ghost out0 = out@;
            if is_classifiable(self.records, l) {
                let mut fresh = true;
                match self.covered_key(l) {
                    Some(k) => {
                        proof {
                            assert(key_held(keys@, k.triple()) <==> exists|m: int|
                                0 <= m < keys@.len() && (#[trigger] keys@[m]).triple()
                                    == k.triple());
                        }
                        if has_key(&keys, &k) {
                            fresh = false;
                        } else {
                            keys.push(k);
                            assert(keys@.drop_last() =~= keys0);
                        }
                    },
                    None => {},
                }
                assert(fresh == edge_kept(s, own, iv, ev, j as int));
                if fresh {
                    out.push(self.classify_link(n, l));
                    proof {
                        let before = edge_entries(s, own, *n, iv, ev, j as int);
                        let e = classify(s, own, *n, l@);
                        assert(entry_views(out@) =~= entry_views(out0).push(e));
                        assert((inline_out + before).push(e) =~= inline_out + before.push(e));
                    }
                }
            }
            proof {
                assert forall|t: (Seq<char>, Seq<char>, Seq<char>)| #[trigger]
                    key_held(keys@, t) <==> (keyed_before(s, own, iv, iv.len() as int, t)
                        || keyed_before(s, own, ev, j + 1, t)) by {
                    lemma_keyed_step(s, own, ev, j as int, t);
                    assert(key_held(keys0, t) <==> (keyed_before(s, own, iv, iv.len() as int, t)
                        || keyed_before(s, own, ev, j as int, t)));
                    lemma_key_push(keys0, keys@, t);
                }
            }
            j = j + 1;
        }
        out
    }
}

spec fn key_held(keys: Seq<CitationKey>, t: (Seq<char>, Seq<char>, Seq<char>)) -> bool {
    exists|k: int| 0 <= k < keys.len() && (#[trigger] keys[k]).triple() == t
}

proof fn lemma_key_push(
    a: Seq<CitationKey>,
    b: Seq<CitationKey>,
    t: (Seq<char>, Seq<char>, Seq<char>),
)
    requires
        a == b || (b.len() == a.len() + 1 && b.drop_last() == a),
    ensures
        key_held(b, t) <==> (key_held(a, t) || (b.len() == a.len() + 1 && b.last().triple() == t)),
{
    if b.len() == a.len() + 1 {
        if key_held(a, t) {
            let k = choose|k: int| 0 <= k < a.len() && (#[trigger] a[k]).triple() == t;
            assert(b.drop_last()[k] == b[k]);
            assert(b[k].triple() == t);
        }
        if key_held(b, t) {
            let k = choose|k: int| 0 <= k < b.len() && (#[trigger] b[k]).triple() == t;
            if k < a.len() {
                assert(b.drop_last()[k] == b[k]);
                assert(a[k].triple() == t);
            }
        }
        if b.last().triple() == t {
            assert(b[b.len() - 1].triple() == t);
        }
    }
}

proof fn lemma_keyed_step(
    s: Seq<GraphRecord>,
    own: Map<Seq<char>, Seq<char>>,
    links: Seq<EvidenceLinkView>,
    i: int,
    t: (Seq<char>, Seq<char>, Seq<char>),
)
    requires
        0 <= i < links.len(),
    ensures
        keyed_before(s, own, links, i + 1, t) <==> (keyed_before(s, own, links, i, t) || (
        classifiable(s, links[i]) && citation_key(s, own, links[i]) == Some(t))),
{
    if keyed_before(s, own, links, i + 1, t) && !keyed_before(s, own, links, i, t) {
        let k = choose|k: int|
            0 <= k < i + 1 && k < links.len() && classifiable(s, #[trigger] links[k])
                && citation_key(s, own, links[k]) == Some(t);
        assert(k == i);
    }
    if classifiable(s, links[i]) && citation_key(s, own, links[i]) == Some(t) {
        assert(keyed_before(s, own, links, i + 1, t));
    }
}

fn cites_something(records: &Vec<GraphRecord>, n: &NodeRecord) -> (r: bool)
    ensures
        r == (inline_links(*n).len() > 0 || edge_links(
            records@,
            records@.len() as int,
            n.id@,
        ).len() > 0),
{
    match &n.evidence_links {
        Some(v) => if v.len() > 0 {
            return true;
        },
        None => {},
    }
    let edges = edge_code_citations(records, n.id.as_str());
    assert(link_views(edges@).len() == edges@.len());
    edges.len() > 0
}

/// The verdict on every citation of code by an observation of the store, sorted by
/// observation and cited handle. The records are only read.
pub fn evidence_link_freshness(
    records: &Vec<GraphRecord>,
    owners: &RepositoryIndex,
) -> (out: Vec<FreshnessVerdictEntry>)
    ensures
        entry_views(out@) == by_handle(
            entries_below(records@, owners.owners(), records@.len() as int),
        ),
        arranges(
            entry_views(out@),
            entries_below(records@, owners.owners(), records@.len() as int),
            |a: VerdictEntryView, b: VerdictEntryView| entry_before(a, b),
        ),
{
    let index = FreshnessIndex::build(records, owners);
    let ghost s = records@;
    let ghost own = owners.owners();
    let mut entries: Vec<FreshnessVerdictEntry> = Vec::new();
    let mut seen = StrSet::new();
    let mut i: usize = 0;
    assert(entry_views(entries@) =~= entries_below(s, own, 0));
    while i < records.len()
        invariant
            i <= records@.len(),
            s == records@,
            own == owners.owners(),
            index.store() == s,
            index.own() == own,
            seen.wf(),
            forall|id: Seq<char>| #[trigger]
                seen.has(id) <==> (!deleted(s, id) && !superseded(s, id) && cited_before(
                    s,
                    id,
                    i as int,
                )),
            entry_views(entries@) == entries_below(s, own, i as int),
        decreases records@.len() - i,
    {
        let ghost seen0 = seen;
        let ghost entries0 = entries@;
        match &records[i] {
            GraphRecord::Node(n) => {
                if is_observation(n.kind) && cites_something(records, n) {
                    assert(citing(s, s[i as int]));
                    if !is_deleted(records, n.id.as_str()) && !is_superseded(
                        records,
                        n.id.as_str(),
                    ) {
                        let fresh = seen.insert(n.id.as_str());
                        proof {
                            if cited_before(s, n.id@, i as int) {
                                let k = choose|k: int|
                                    0 <= k < i && k < s.len() && citing(s, #[trigger] s[k])
                                        && s[k]->Node_0.id@ == n.id@;
                                assert(!reported(s, i as int));
                            } else {
                                assert forall|j: int| 0 <= j < i implies !(citing(
                                    s,
                                    #[trigger] s[j],
                                ) && s[j]->Node_0.id@ == n.id@) by {
                                    if citing(s, s[j]) && s[j]->Node_0.id@ == n.id@ {
                                        assert(cited_before(s, n.id@, i as int));
                                    }
                                }
                                assert(reported(s, i as int));
                            }
                        }
                        if fresh {
                            let mut more = index.observation_verdicts(n);
                            let ghost m = more@;
                            entries.append(&mut more);
                            assert(entry_views(entries@) =~= entry_views(entries0) + entry_views(
                                m,
                            ));
                        }
                    }
                }
            },
            _ => {},
        }
        proof {
            assert forall|id: Seq<char>| #[trigger]
                seen.has(id) <==> (!deleted(s, id) && !superseded(s, id) && cited_before(
                    s,
                    id,
                    i + 1,
                )) by {
                assert(seen0.has(id) <==> (!deleted(s, id) && !superseded(s, id) && cited_before(
                    s,
                    id,
                    i as int,
                )));
                if cited_before(s, id, i + 1) && !cited_before(s, id, i as int) {
                    let k = choose|k: int|
                        0 <= k < i + 1 && k < s.len() && citing(s, #[trigger] s[k])
                            && s[k]->Node_0.id@ == id;
                    assert(k == i);
                }
                if citing(s, s[i as int]) && s[i as int]->Node_0.id@ == id {
                    assert(cited_before(s, id, i + 1));
                }
            }
        }
        i = i + 1;
    }
    let ghost v = entries@;
    let out = sort_ranked(entries);
    proof {
        let f = |x: FreshnessVerdictEntry| x@;
        let lt = |a: VerdictEntryView, b: VerdictEntryView| entry_before(a, b);
        lemma_ranked_views(v, f, lt);
        assert(entry_views(v) =~= v.map_values(f));
        assert(entry_views(out@) =~= out@.map_values(f));
        lemma_entry_order();
        lemma_sorted_by(entry_views(v), lt);
    }
    out
}

spec fn cited_before(s: Seq<GraphRecord>, id: Seq<char>, n: int) -> bool {
    exists|k: int|
        0 <= k < n && k < s.len() && citing(s, #[trigger] s[k]) && s[k]->Node_0.id@ == id
}

/// The stale ones of the entries, in order.
pub open spec fn stale_entries(v: Seq<FreshnessVerdictEntry>) -> Seq<FreshnessVerdictEntry>
    decreases v.len(),
{
    if v.len() == 0 {
        v
    } else if stale(v.last().verdict) {
        stale_entries(v.drop_last()).push(v.last())
    } else {
        stale_entries(v.drop_last())
    }
}

/// How many entries have the verdict.
pub open spec fn count_verdict(v: Seq<FreshnessVerdictEntry>, verdict: FreshnessVerdict) -> nat
    decreases v.len(),
{
    if v.len() == 0 {
        0
    } else {
        count_verdict(v.drop_last(), verdict) + (if v.last().verdict == verdict {
            1nat
        } else {
            0nat
        })
    }
}

/// Keeps the stale entries.
pub fn stale_only(entries: Vec<FreshnessVerdictEntry>) -> (out: Vec<FreshnessVerdictEntry>)
    ensures
        out@ == stale_entries(entries@),
{
    let ghost all = entries@;
    let mut rest = entries;
    let mut i: usize = 0;
    assert(stale_entries(all.take(0)) + all.skip(0) =~= all);
    while i < rest.len()
        invariant
            i <= rest@.len(),
            rest@.len() <= all.len(),
            rest@.take(i as int) == stale_entries(all.take(all.len() - rest@.len() + i)),
            rest@.skip(i as int) == all.skip(all.len() - rest@.len() + i),
        decreases rest@.len() - i,
    {
        let ghost k = all.len() - rest@.len() + i;
        let ghost before = rest@;
        proof {
            assert(rest@.skip(i as int)[0] == rest@[i as int]);
            assert(all.skip(k)[0] == all[k]);
            assert(all.take(k + 1).drop_last() =~= all.take(k));
            assert(all.take(k + 1).last() == all[k]);
        }
        if rest[i].verdict.is_stale() {
            proof {
                assert(rest@.take(i + 1) =~= rest@.take(i as int).push(rest@[i as int]));
                assert(rest@.skip(i + 1) =~= rest@.skip(i as int).drop_first());
                assert(all.skip(k + 1) =~= all.skip(k).drop_first());
            }
            i = i + 1;
        } else {
            let _ = rest.remove(i);
            proof {
                assert(rest@.take(i as int) =~= before.take(i as int));
                assert(rest@.skip(i as int) =~= before.skip(i as int).drop_first());
                assert(all.skip(k + 1) =~= all.skip(k).drop_first());
            }
        }
    }
    proof {
        assert(rest@.take(i as int) =~= rest@);
        assert(all.take(all.len() as int) =~= all);
    }
    rest
}

/// How many entries there are of each verdict.
#[derive(Clone, Copy, Debug, PartialEq, Eq, Structural)]
pub struct VerdictCounts {
    pub current: usize,
    pub drifted: usize,
    pub unresolved: usize,
    pub untemporal: usize,
}

fn count(entries: &Vec<FreshnessVerdictEntry>, verdict: FreshnessVerdict) -> (n: usize)
    ensures
        n == count_verdict(entries@, verdict),
{
    let ghost all = entries@;
    let mut n: usize = 0;
    let mut i: usize = 0;
    while i < entries.len()
        invariant
            i <= entries@.len(),
            all == entries@,
            n <= i,
            n == count_verdict(all.take(i as int), verdict),
        decreases entries@.len() - i,
    {
        proof {
            assert(all.take(i + 1).drop_last() =~= all.take(i as int));
        }
        if entries[i].verdict == verdict {
            n = n + 1;
        }
        i = i + 1;
    }
    assert(all.take(i as int) =~= all);
    n
}

/// Tallies the entries by verdict.
pub fn verdict_counts(entries: &Vec<FreshnessVerdictEntry>) -> (r: VerdictCounts)
    ensures
        r.current == count_verdict(entries@, FreshnessVerdict::Current),
        r.drifted == count_verdict(entries@, FreshnessVerdict::Drifted),
        r.unresolved == count_verdict(entries@, FreshnessVerdict::Unresolved),
        r.untemporal == count_verdict(entries@, FreshnessVerdict::Untemporal),
        r.current + r.drifted + r.unresolved + r.untemporal == entries@.len(),
{
    proof {
        lemma_counts(entries@);
    }
    VerdictCounts {
        current: count(entries, FreshnessVerdict::Current),
        drifted: count(entries, FreshnessVerdict::Drifted),
        unresolved: count(entries, FreshnessVerdict::Unresolved),
        untemporal: count(entries, FreshnessVerdict::Untemporal),
    }
}

proof fn lemma_counts(v: Seq<FreshnessVerdictEntry>)
    ensures
        count_verdict(v, FreshnessVerdict::Current) + count_verdict(v, FreshnessVerdict::Drifted)
            + count_verdict(v, FreshnessVerdict::Unresolved) + count_verdict(
            v,
            FreshnessVerdict::Untemporal,
        ) == v.len(),
    decreases v.len(),
{
    if v.len() > 0 {
        lemma_counts(v.drop_last());
    }
}

/// Every stale entry and no other is kept by the filter, and counted as drifted or
/// unresolved.
pub proof fn law_stale_filter_matches_counts(v: Seq<FreshnessVerdictEntry>)
    ensures
        stale_entries(v).len() == count_verdict(v, FreshnessVerdict::Drifted) + count_verdict(
            v,
            FreshnessVerdict::Unresolved,
        ),
        forall|k: int|
            0 <= k < stale_entries(v).len() ==> stale(#[trigger] stale_entries(v)[k].verdict),
    decreases v.len(),
{
    if v.len() > 0 {
        law_stale_filter_matches_counts(v.drop_last());
    }
}

} // verus!
