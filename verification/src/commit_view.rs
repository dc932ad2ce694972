//! The state of a store at one commit.

use vstd::prelude::*;
use vstd::string::*;

use crate::collections::{StrMap, StrSet};
use crate::evidence_freshness::{in_order, lemma_in_order};
use crate::ir::{record_id, record_views, GraphRecord, NodeKind, RecordView};
use crate::outside::{lowercase, lowercase_of, rfc3339_instant_of};
use crate::repository::{owner, RepositoryIndex};
use crate::text::{
    has_prefix, opt_str_eq, opt_str_view, opt_view, starts_with, str_eq, views, Order,
};
use crate::time::{compare_instants, instant_before, instant_of};

verus! {

// ---------------------------------------------------------------------------
// Commits
// ---------------------------------------------------------------------------

/// Whether a repository is the one asked for, where one is.
pub open spec fn in_scope(
    own: Map<Seq<char>, Seq<char>>,
    scope: Option<Seq<char>>,
    id: Seq<char>,
) -> bool {
    match scope {
        Some(x) => owner(own, id) == Some(x),
        None => true,
    }
}

/// Whether a record lies in the repository asked for, where one is.
pub fn record_in_scope(index: &RepositoryIndex, scope: Option<&str>, id: &str) -> (r: bool)
    ensures
        r == in_scope(index.owners(), opt_str_view(scope), id@),
{
    match scope {
        Some(_) => opt_str_eq(index.owner_of(id), scope),
        None => true,
    }
}

/// The commit that a record stands for, where it is the node of a commit in the scope.
pub open spec fn commit_named(
    r: GraphRecord,
    own: Map<Seq<char>, Seq<char>>,
    scope: Option<Seq<char>>,
) -> Option<Seq<char>> {
    match r {
        GraphRecord::Node(n) => if n.kind == NodeKind::Commit && in_scope(own, scope, n.id@) {
            opt_view(n.name)
        } else {
            None
        },
        _ => None,
    }
}

/// The time of the node of a commit.
pub open spec fn commit_time(r: GraphRecord) -> Option<Seq<char>> {
    match r {
        GraphRecord::Node(n) => match n.temporal {
            Some(t) => Some(t.valid_time@),
            None => None,
        },
        _ => None,
    }
}

/// Whether the commit has a node among the first `n` records.
pub open spec fn known_commit(
    s: Seq<GraphRecord>,
    own: Map<Seq<char>, Seq<char>>,
    scope: Option<Seq<char>>,
    n: int,
    sha: Seq<char>,
) -> bool {
    exists|i: int| 0 <= i < n && commit_named(#[trigger] s[i], own, scope) == Some(sha)
}

/// The time of a commit: that of its first node among the first `n` records.
pub open spec fn time_of(
    s: Seq<GraphRecord>,
    own: Map<Seq<char>, Seq<char>>,
    scope: Option<Seq<char>>,
    n: int,
    sha: Seq<char>,
) -> Option<Seq<char>>
    decreases n,
{
    if n <= 0 {
        None
    } else if known_commit(s, own, scope, n - 1, sha) {
        time_of(s, own, scope, n - 1, sha)
    } else if commit_named(s[n - 1], own, scope) == Some(sha) {
        commit_time(s[n - 1])
    } else {
        None
    }
}

/// The commits of a store, in order.
pub open spec fn commits_of(
    s: Seq<GraphRecord>,
    own: Map<Seq<char>, Seq<char>>,
    scope: Option<Seq<char>>,
) -> Seq<Seq<char>> {
    in_order(|x: Seq<char>| known_commit(s, own, scope, s.len() as int, x))
}

fn name_of_commit<'a>(r: &'a GraphRecord, index: &RepositoryIndex, scope: Option<&str>) -> (c:
    Option<&'a str>)
    ensures
        opt_str_view(c) == commit_named(*r, index.owners(), opt_str_view(scope)),
{
    match r {
        GraphRecord::Node(n) => {
            if n.kind == NodeKind::Commit && record_in_scope(index, scope, n.id.as_str()) {
                match &n.name {
                    Some(x) => Some(x.as_str()),
                    None => None,
                }
            } else {
                None
            }
        },
        _ => None,
    }
}

fn time_of_record(r: &GraphRecord) -> (t: Option<String>)
    ensures
        opt_view(t) == commit_time(*r),
{
    match r {
        GraphRecord::Node(n) => match &n.temporal {
            Some(t) => Some(t.valid_time.clone()),
            None => None,
        },
        _ => None,
    }
}

fn collect_commits(records: &Vec<GraphRecord>, index: &RepositoryIndex, scope: Option<&str>) -> (m:
    StrMap<Option<String>>)
    ensures
        m.wf(),
        m.keys.seq() == commits_of(records@, index.owners(), opt_str_view(scope)),
        forall|i: int|
            0 <= i < m.vals@.len() ==> opt_view(#[trigger] m.vals@[i]) == time_of(
                records@,
                index.owners(),
                opt_str_view(scope),
                records@.len() as int,
                m.keys.seq()[i],
            ),
{
    let ghost own = index.owners();
    let ghost sc = opt_str_view(scope);
    let ghost s = records@;
    let mut m: StrMap<Option<String>> = StrMap::new();
    let mut i: usize = 0;
    while i < records.len()
        invariant
            i <= records@.len(),
            s == records@,
            own == index.owners(),
            sc == opt_str_view(scope),
            m.wf(),
            forall|x: Seq<char>| #[trigger]
                m.map().dom().contains(x) <==> known_commit(s, own, sc, i as int, x),
            forall|x: Seq<char>|
                m.map().dom().contains(x) ==> opt_view(#[trigger] m.map()[x]) == time_of(
                    s,
                    own,
                    sc,
                    i as int,
                    x,
                ),
        decreases records@.len() - i,
    {
        let ghost before = m.map();
        let name = name_of_commit(&records[i], index, scope);
        if let Some(sha) = name {
            if !m.contains_key(sha) {
                m.insert(sha, time_of_record(&records[i]));
            }
        }
        proof {
            assert forall|x: Seq<char>| #[trigger]
                m.map().dom().contains(x) <==> known_commit(s, own, sc, i + 1, x) by {
                assert(before.dom().contains(x) <==> known_commit(s, own, sc, i as int, x));
                if known_commit(s, own, sc, i as int, x) {
                    let k = choose|k: int|
                        0 <= k < i && commit_named(#[trigger] s[k], own, sc) == Some(x);
                    assert(commit_named(s[k], own, sc) == Some(x));
                }
                if commit_named(s[i as int], own, sc) == Some(x) {
                    assert(known_commit(s, own, sc, i + 1, x));
                }
            }
            assert forall|x: Seq<char>| m.map().dom().contains(x) implies opt_view(
                #[trigger] m.map()[x],
            ) == time_of(s, own, sc, i + 1, x) by {
                assert(before.dom().contains(x) <==> known_commit(s, own, sc, i as int, x));
                if before.dom().contains(x) {
                    assert(opt_view(before[x]) == time_of(s, own, sc, i as int, x));
                    assert(m.map()[x] == before[x]);
                }
            }
        }
        i = i + 1;
    }
    proof {
        let p = |x: Seq<char>| known_commit(s, own, sc, s.len() as int, x);
        assert forall|x: Seq<char>| #[trigger] m.keys.has(x) <==> p(x) by {
            assert(m.map().dom().contains(x) <==> known_commit(s, own, sc, s.len() as int, x));
        }
        lemma_in_order(p, m.keys);
        assert forall|k: int| 0 <= k < m.vals@.len() implies opt_view(#[trigger] m.vals@[k])
            == time_of(s, own, sc, s.len() as int, m.keys.seq()[k]) by {
            crate::collections::lemma_key_at(m.keys.seq(), k);
            let x = m.keys.seq()[k];
            assert(m.keys.has(x));
            assert(m.map().dom().contains(x));
            assert(m.map()[x] == m.vals@[k]);
        }
    }
    m
}

// ---------------------------------------------------------------------------
// Selection
// ---------------------------------------------------------------------------

/// How the commit is selected.
#[derive(Clone, Copy, Debug, PartialEq, Eq)]
pub enum CommitSelector<'a> {
    /// By a beginning of its hash.
    At(&'a str),
    /// As the last one at or before an instant.
    AsOf(&'a str),
}

/// The view of a [`CommitSelector`].
pub enum SelectorView {
    At(Seq<char>),
    AsOf(Seq<char>),
}

impl<'a> View for CommitSelector<'a> {
    type V = SelectorView;

    open spec fn view(&self) -> SelectorView {
        match self {
            CommitSelector::At(s) => SelectorView::At(s@),
            CommitSelector::AsOf(s) => SelectorView::AsOf(s@),
        }
    }
}

/// Why no commit was selected.
#[derive(Clone, Debug, PartialEq, Eq)]
pub enum CommitViewError {
    /// The store has no commits.
    EmptyHistory,
    /// No commit begins so.
    MissingCommit,
    /// More than one commit begins so.
    AmbiguousPrefix(Vec<String>),
    /// The instant is not valid.
    InvalidAsOf,
    /// No commit stands at or before the instant.
    NoCommitAtOrBefore,
}

/// What a selection gives.
#[verifier::ext_equal]
pub enum SelectionView {
    Found(Seq<char>),
    EmptyHistory,
    MissingCommit,
    AmbiguousPrefix(Seq<Seq<char>>),
    InvalidAsOf,
    NoCommitAtOrBefore,
}

/// What a result of a selection gives.
pub open spec fn selection_of(r: Result<String, CommitViewError>) -> SelectionView {
    match r {
        Ok(s) => SelectionView::Found(s@),
        Err(CommitViewError::EmptyHistory) => SelectionView::EmptyHistory,
        Err(CommitViewError::MissingCommit) => SelectionView::MissingCommit,
        Err(CommitViewError::AmbiguousPrefix(v)) => SelectionView::AmbiguousPrefix(views(v@)),
        Err(CommitViewError::InvalidAsOf) => SelectionView::InvalidAsOf,
        Err(CommitViewError::NoCommitAtOrBefore) => SelectionView::NoCommitAtOrBefore,
    }
}

/// The code of an error.
pub open spec fn error_code(e: CommitViewError) -> Seq<char> {
    match e {
        CommitViewError::EmptyHistory => "empty_history"@,
        CommitViewError::MissingCommit => "missing_commit"@,
        CommitViewError::AmbiguousPrefix(_) => "ambiguous_commit_prefix"@,
        CommitViewError::InvalidAsOf => "invalid_as_of_timestamp"@,
        CommitViewError::NoCommitAtOrBefore => "no_commit_at_or_before"@,
    }
}

impl CommitViewError {
    /// The code of the error.
    pub fn code(&self) -> (r: &'static str)
        ensures
            r@ == error_code(*self),
    {
        match self {
            CommitViewError::EmptyHistory => "empty_history",
            CommitViewError::MissingCommit => "missing_commit",
            CommitViewError::AmbiguousPrefix(_) => "ambiguous_commit_prefix",
            CommitViewError::InvalidAsOf => "invalid_as_of_timestamp",
            CommitViewError::NoCommitAtOrBefore => "no_commit_at_or_before",
        }
    }

    /// The exit code: 1 where the question is wrong, 2 where it has no answer.
    pub fn exit_code(&self) -> (r: u8)
        ensures
            r == (match *self {
                CommitViewError::AmbiguousPrefix(_) | CommitViewError::InvalidAsOf => 1u8,
                _ => 2u8,
            }),
    {
        match self {
            CommitViewError::AmbiguousPrefix(_) | CommitViewError::InvalidAsOf => 1,
            _ => 2,
        }
    }
}

/// Whether the hash begins with the prefix, whatever the case of the letters.
pub open spec fn begins_with(sha: Seq<char>, prefix: Seq<char>) -> bool {
    has_prefix(lowercase_of(sha), lowercase_of(prefix))
}

/// Those of the first `n` commits that begin with the prefix.
pub open spec fn beginning_with(commits: Seq<Seq<char>>, prefix: Seq<char>, n: int) -> Seq<Seq<char>>
    decreases n,
{
    if n <= 0 {
        Seq::empty()
    } else if begins_with(commits[n - 1], prefix) {
        beginning_with(commits, prefix, n - 1).push(commits[n - 1])
    } else {
        beginning_with(commits, prefix, n - 1)
    }
}

/// The instant of a commit, where it has a valid time.
pub open spec fn commit_instant(
    s: Seq<GraphRecord>,
    own: Map<Seq<char>, Seq<char>>,
    scope: Option<Seq<char>>,
    sha: Seq<char>,
) -> Option<(i64, u32)> {
    match time_of(s, own, scope, s.len() as int, sha) {
        Some(t) => rfc3339_instant_of(t),
        None => None,
    }
}

/// The place of the last of the first `n` commits at or before an instant; of those at
/// one instant the first.
pub open spec fn last_before(
    times: Seq<Option<(i64, u32)>>,
    at: (i64, u32),
    n: int,
) -> Option<int>
    decreases n,
{
    if n <= 0 {
        None
    } else {
        let rest = last_before(times, at, n - 1);
        match times[n - 1] {
            Some(t) => if instant_before(at, t) {
                rest
            } else {
                match rest {
                    Some(k) => if instant_before(times[k]->0, t) {
                        Some(n - 1)
                    } else {
                        rest
                    },
                    None => Some(n - 1),
                }
            },
            None => rest,
        }
    }
}

/// The instants of commits.
pub open spec fn commit_instants(
    s: Seq<GraphRecord>,
    own: Map<Seq<char>, Seq<char>>,
    scope: Option<Seq<char>>,
) -> Seq<Option<(i64, u32)>> {
    commits_of(s, own, scope).map_values(|x: Seq<char>| commit_instant(s, own, scope, x))
}

/// The commit that is selected: the only one that begins with the prefix, or the last
/// one at or before the instant.
pub open spec fn selection(
    s: Seq<GraphRecord>,
    own: Map<Seq<char>, Seq<char>>,
    scope: Option<Seq<char>>,
    selector: SelectorView,
) -> SelectionView {
    let commits = commits_of(s, own, scope);
    if commits.len() == 0 {
        SelectionView::EmptyHistory
    } else {
        match selector {
            SelectorView::At(prefix) => {
                let found = beginning_with(commits, prefix, commits.len() as int);
                if found.len() == 0 {
                    SelectionView::MissingCommit
                } else if found.len() == 1 {
                    SelectionView::Found(found[0])
                } else {
                    SelectionView::AmbiguousPrefix(found)
                }
            },
            SelectorView::AsOf(time) => match rfc3339_instant_of(time) {
                None => SelectionView::InvalidAsOf,
                Some(at) => match last_before(
                    commit_instants(s, own, scope),
                    at,
                    commits.len() as int,
                ) {
                    Some(k) => SelectionView::Found(commits[k]),
                    None => SelectionView::NoCommitAtOrBefore,
                },
            },
        }
    }
}

fn find_beginning(commits: &StrSet, prefix: &str) -> (r: Vec<String>)
    requires
        commits.wf(),
    ensures
        views(r@) == beginning_with(commits.seq(), prefix@, commits.seq().len() as int),
{
    let needle = lowercase(prefix);
    let mut r: Vec<String> = Vec::new();
    let mut i: usize = 0;
    assert(views(r@) =~= Seq::empty());
    while i < commits.items.len()
        invariant
            i <= commits.items@.len(),
            needle@ == lowercase_of(prefix@),
            views(r@) == beginning_with(commits.seq(), prefix@, i as int),
        decreases commits.items@.len() - i,
    {
        assert(commits.seq()[i as int] == commits.items@[i as int]@);
        let low = lowercase(commits.items[i].as_str());
        if starts_with(low.as_str(), needle.as_str()) {
            let ghost before = r@;
            let c = commits.items[i].clone();
            r.push(c);
            assert(views(r@) =~= views(before).push(c@));
        }
        i = i + 1;
    }
    assert(commits.seq().len() == commits.items@.len());
    r
}

fn find_last(times: &Vec<Option<(i64, u32)>>, at: (i64, u32)) -> (r: Option<usize>)
    ensures
        (match r {
            Some(k) => Some(k as int),
            None => None,
        }) == last_before(times@, at, times@.len() as int),
        match r {
            Some(k) => k < times@.len(),
            None => true,
        },
{
    let mut best: Option<usize> = None;
    let mut i: usize = 0;
    while i < times.len()
        invariant
            i <= times@.len(),
            (match best {
                Some(k) => Some(k as int),
                None => None,
            }) == last_before(times@, at, i as int),
            match best {
                Some(k) => k < i && times@[k as int] is Some,
                None => true,
            },
        decreases times@.len() - i,
    {
        if let Some(t) = times[i] {
            let late = match compare_instants(at, t) {
                Order::Less => true,
                _ => false,
            };
            if !late {
                best = match best {
                    Some(k) => {
                        let later = match times[k] {
                            Some(b) => match compare_instants(b, t) {
                                Order::Less => true,
                                _ => false,
                            },
                            None => false,
                        };
                        if later {
                            Some(i)
                        } else {
                            Some(k)
                        }
                    },
                    None => Some(i),
                };
            }
        }
        i = i + 1;
    }
    best
}

fn read_instants(vals: &Vec<Option<String>>) -> (r: Vec<Option<(i64, u32)>>)
    ensures
        r@.len() == vals@.len(),
        forall|i: int|
            0 <= i < r@.len() ==> (#[trigger] r@[i]) == (match opt_view(vals@[i]) {
                Some(t) => rfc3339_instant_of(t),
                None => None,
            }),
{
    let mut r: Vec<Option<(i64, u32)>> = Vec::new();
    let mut i: usize = 0;
    while i < vals.len()
        invariant
            i <= vals@.len(),
            r@.len() == i,
            forall|k: int|
                0 <= k < i ==> (#[trigger] r@[k]) == (match opt_view(vals@[k]) {
                    Some(t) => rfc3339_instant_of(t),
                    None => None,
                }),
        decreases vals@.len() - i,
    {
        let t = match &vals[i] {
            Some(x) => instant_of(x.as_str()),
            None => None,
        };
        r.push(t);
        i = i + 1;
    }
    r
}

/// Selects the commit whose state is looked at, among those of one repository where one
/// is asked for.
pub fn resolve_transitive_commit_view(
    records: &Vec<GraphRecord>,
    index: &RepositoryIndex,
    repo_scope: Option<&str>,
    selector: CommitSelector<'_>,
) -> (r: Result<String, CommitViewError>)
    ensures
        selection_of(r) == selection(
            records@,
            index.owners(),
            opt_str_view(repo_scope),
            selector@,
        ),
{
    let ghost own = index.owners();
    let ghost sc = opt_str_view(repo_scope);
    let commits = collect_commits(records, index, repo_scope);
    assert(commits.keys.seq().len() == commits.keys.items@.len());
    if commits.keys.items.len() == 0 {
        return Err(CommitViewError::EmptyHistory);
    }
    match selector {
        CommitSelector::At(prefix) => {
            let found = find_beginning(&commits.keys, prefix);
            assert(views(found@).len() == found@.len());
            if found.len() == 0 {
                Err(CommitViewError::MissingCommit)
            } else if found.len() == 1 {
                assert(views(found@)[0] == found@[0]@);
                Ok(found[0].clone())
            } else {
                Err(CommitViewError::AmbiguousPrefix(found))
            }
        },
        CommitSelector::AsOf(time) => {
            let at = match instant_of(time) {
                Some(x) => x,
                None => {
                    return Err(CommitViewError::InvalidAsOf);
                },
            };
            let times = read_instants(&commits.vals);
            proof {
                assert(times@ =~= commit_instants(records@, own, sc));
            }
            match find_last(&times, at) {
                Some(k) => {
                    assert(commits.keys.seq()[k as int] == commits.keys.items@[k as int]@);
                    Ok(commits.keys.items[k].clone())
                },
                None => Err(CommitViewError::NoCommitAtOrBefore),
            }
        },
    }
}

// ---------------------------------------------------------------------------
// Views
// ---------------------------------------------------------------------------

/// The commit of a record, where it has one.
pub open spec fn temporal_commit(v: RecordView) -> Option<Seq<char>> {
    match v {
        RecordView::Node(n) => match n.temporal {
            Some(t) => Some(t.git_commit),
            None => None,
        },
        RecordView::Edge(e) => match e.temporal {
            Some(t) => Some(t.git_commit),
            None => None,
        },
        RecordView::Tombstone(_) => None,
    }
}

/// The records of a commit, in order.
pub open spec fn records_at(s: Seq<RecordView>, sha: Seq<char>) -> Seq<RecordView>
    decreases s.len(),
{
    if s.len() == 0 {
        Seq::empty()
    } else if temporal_commit(s.last()) == Some(sha) {
        records_at(s.drop_last(), sha).push(s.last())
    } else {
        records_at(s.drop_last(), sha)
    }
}

fn is_at(r: &GraphRecord, sha: &str) -> (b: bool)
    ensures
        b == (temporal_commit(r@) == Some(sha@)),
{
    match r {
        GraphRecord::Node(n) => match &n.temporal {
            Some(t) => str_eq(t.git_commit.as_str(), sha),
            None => false,
        },
        GraphRecord::Edge(e) => match &e.temporal {
            Some(t) => str_eq(t.git_commit.as_str(), sha),
            None => false,
        },
        GraphRecord::Tombstone(_) => false,
    }
}

/// The records of a commit.
pub fn commit_records(records: &Vec<GraphRecord>, sha: &str) -> (r: Vec<GraphRecord>)
    ensures
        record_views(r@) == records_at(record_views(records@), sha@),
{
    let ghost v = record_views(records@);
    let mut r: Vec<GraphRecord> = Vec::new();
    let mut i: usize = 0;
    assert(v.take(0) =~= Seq::empty());
    assert(record_views(r@) =~= Seq::empty());
    while i < records.len()
        invariant
            i <= records@.len(),
            v == record_views(records@),
            record_views(r@) == records_at(v.take(i as int), sha@),
        decreases records@.len() - i,
    {
        proof {
            assert(v.take(i + 1).drop_last() =~= v.take(i as int));
            assert(v.take(i + 1).last() == records@[i as int]@);
        }
        if is_at(&records[i], sha) {
            let ghost before = r@;
            let c = records[i].copy();
            r.push(c);
            assert(record_views(r@) =~= record_views(before).push(c@));
        }
        i = i + 1;
    }
    assert(v.take(i as int) =~= v);
    r
}

/// The records without those whose identifiers are listed, in order.
pub open spec fn records_without(s: Seq<GraphRecord>, ids: Seq<Seq<char>>) -> Seq<RecordView>
    decreases s.len(),
{
    if s.len() == 0 {
        Seq::empty()
    } else if ids.contains(record_id(s.last())) {
        records_without(s.drop_last(), ids)
    } else {
        records_without(s.drop_last(), ids).push(s.last()@)
    }
}

/// The records without those whose identifiers are listed.
pub fn drop_records(records: &Vec<GraphRecord>, ids: &Vec<String>) -> (r: Vec<GraphRecord>)
    ensures
        record_views(r@) == records_without(records@, views(ids@)),
{
    let ghost s = records@;
    let mut r: Vec<GraphRecord> = Vec::new();
    let mut i: usize = 0;
    assert(s.take(0) =~= Seq::empty());
    assert(record_views(r@) =~= Seq::empty());
    while i < records.len()
        invariant
            i <= records@.len(),
            s == records@,
            record_views(r@) == records_without(s.take(i as int), views(ids@)),
        decreases records@.len() - i,
    {
        proof {
            assert(s.take(i + 1).drop_last() =~= s.take(i as int));
            assert(s.take(i + 1).last() == s[i as int]);
        }
        if !crate::collections::contains_string(ids, records[i].id()) {
            let ghost before = r@;
            let c = records[i].copy();
            r.push(c);
            assert(record_views(r@) =~= record_views(before).push(c@));
        }
        i = i + 1;
    }
    assert(s.take(i as int) =~= s);
    r
}

// ---------------------------------------------------------------------------
// Laws
// ---------------------------------------------------------------------------

proof fn lemma_last_before(times: Seq<Option<(i64, u32)>>, at: (i64, u32), n: int)
    requires
        0 <= n <= times.len(),
    ensures
        match last_before(times, at, n) {
            Some(k) => {
                &&& 0 <= k < n
                &&& times[k] is Some
                &&& !instant_before(at, times[k]->0)
                &&& forall|j: int| #![trigger times[j]]
                    0 <= j < n && times[j] is Some && !instant_before(at, times[j]->0)
                        ==> !instant_before(times[k]->0, times[j]->0) && (j < k
                        ==> instant_before(times[j]->0, times[k]->0))
            },
            None => forall|j: int| #![trigger times[j]]
                0 <= j < n && times[j] is Some ==> instant_before(at, times[j]->0),
        },
    decreases n,
{
    if n > 0 {
        lemma_last_before(times, at, n - 1);
    }
}

/// The commit as of an instant stands at or before it; no other commit that does is
/// later, and of those that are as late it is the smallest.
pub proof fn law_as_of_selects_the_last_commit(
    s: Seq<GraphRecord>,
    own: Map<Seq<char>, Seq<char>>,
    scope: Option<Seq<char>>,
    time: Seq<char>,
    k: int,
    j: int,
)
    requires
        0 <= k < commits_of(s, own, scope).len(),
        0 <= j < commits_of(s, own, scope).len(),
        rfc3339_instant_of(time) is Some,
        last_before(
            commit_instants(s, own, scope),
            rfc3339_instant_of(time)->0,
            commits_of(s, own, scope).len() as int,
        ) == Some(k),
    ensures
        selection(s, own, scope, SelectorView::AsOf(time)) == SelectionView::Found(
            commits_of(s, own, scope)[k],
        ),
        commit_instant(s, own, scope, commits_of(s, own, scope)[k]) is Some,
        !instant_before(
            rfc3339_instant_of(time)->0,
            commit_instant(s, own, scope, commits_of(s, own, scope)[k])->0,
        ),
        ({
            let a = commit_instant(s, own, scope, commits_of(s, own, scope)[j]);
            let b = commit_instant(s, own, scope, commits_of(s, own, scope)[k]);
            a is Some && !instant_before(rfc3339_instant_of(time)->0, a->0) ==> !instant_before(
                b->0,
                a->0,
            ) && (j < k ==> instant_before(a->0, b->0))
        }),
{
    let times = commit_instants(s, own, scope);
    let at = rfc3339_instant_of(time)->0;
    lemma_last_before(times, at, times.len() as int);
    assert(times[k] == commit_instant(s, own, scope, commits_of(s, own, scope)[k]));
    assert(times[j] == commit_instant(s, own, scope, commits_of(s, own, scope)[j]));
}

/// The state at a commit holds nothing of another commit.
pub proof fn law_state_holds_one_commit(s: Seq<RecordView>, sha: Seq<char>, i: int)
    requires
        0 <= i < records_at(s, sha).len(),
    ensures
        temporal_commit(records_at(s, sha)[i]) == Some(sha),
    decreases s.len(),
{
    if s.len() > 0 {
        if i < records_at(s.drop_last(), sha).len() {
            law_state_holds_one_commit(s.drop_last(), sha, i);
        }
    }
}

} // verus!
