//! Versions of nodes along the commits of their repositories.

use vstd::prelude::*;

use crate::collections::{contains_string, StrSet};
use crate::ir::GraphRecord;
use crate::repository::{owner, RepositoryIndex};
use crate::text::{opt_str_eq, opt_str_view, views};

verus! {

/// The commit of a node version, when it has one.
pub open spec fn commit_of(r: GraphRecord) -> Option<Seq<char>> {
    match r {
        GraphRecord::Node(n) => match n.temporal {
            Some(t) => Some(t.git_commit@),
            None => None,
        },
        _ => None,
    }
}

/// When a node version became valid: the time of its commit, else its own.
pub open spec fn valid_of(r: GraphRecord) -> Option<Seq<char>> {
    match r {
        GraphRecord::Node(n) => match n.temporal {
            Some(t) => Some(t.valid_time@),
            None => match n.valid_time {
                Some(v) => if v@.len() > 0 {
                    Some(v@)
                } else {
                    None
                },
                None => None,
            },
        },
        _ => None,
    }
}

/// The parents of the commit of a node version.
pub open spec fn parents_of(r: GraphRecord) -> Seq<Seq<char>> {
    match r {
        GraphRecord::Node(n) => match n.temporal {
            Some(t) => views(t.git_parent_commits@),
            None => Seq::empty(),
        },
        _ => Seq::empty(),
    }
}

/// The repository of a record.
pub open spec fn repo_of(own: Map<Seq<char>, Seq<char>>, r: GraphRecord) -> Option<Seq<char>> {
    match r {
        GraphRecord::Node(n) => owner(own, n.id@),
        _ => None,
    }
}

/// Whether the repository has the commit.
pub open spec fn has_commit(
    s: Seq<GraphRecord>,
    own: Map<Seq<char>, Seq<char>>,
    repo: Option<Seq<char>>,
    c: Seq<char>,
) -> bool {
    exists|i: int|
        0 <= i < s.len() && commit_of(#[trigger] s[i]) == Some(c) && repo_of(own, s[i]) == repo
}

/// Whether the commit is a parent of a commit of the repository.
pub open spec fn has_parent(
    s: Seq<GraphRecord>,
    own: Map<Seq<char>, Seq<char>>,
    repo: Option<Seq<char>>,
    c: Seq<char>,
) -> bool {
    exists|i: int|
        0 <= i < s.len() && parents_of(#[trigger] s[i]).contains(c) && repo_of(own, s[i]) == repo
}

/// Whether the commit is a tip of the repository: one of its commits and no
/// parent of another.
pub open spec fn tip_of(
    s: Seq<GraphRecord>,
    own: Map<Seq<char>, Seq<char>>,
    repo: Option<Seq<char>>,
    c: Seq<char>,
) -> bool {
    has_commit(s, own, repo, c) && !has_parent(s, own, repo, c)
}

/// Whether the commit is a tip of some repository.
pub open spec fn tip(s: Seq<GraphRecord>, own: Map<Seq<char>, Seq<char>>, c: Seq<char>) -> bool {
    exists|repo: Option<Seq<char>>| #[trigger] tip_of(s, own, repo, c)
}

/// Whether the repository has a tip.
pub open spec fn has_tip(
    s: Seq<GraphRecord>,
    own: Map<Seq<char>, Seq<char>>,
    repo: Option<Seq<char>>,
) -> bool {
    exists|c: Seq<char>| #[trigger] tip_of(s, own, repo, c)
}

/// Whether the commit is a tip for the record: of its own repository, or of any
/// where that has none.
pub open spec fn tip_for(
    s: Seq<GraphRecord>,
    own: Map<Seq<char>, Seq<char>>,
    id: Seq<char>,
    c: Seq<char>,
) -> bool {
    if has_tip(s, own, owner(own, id)) {
        tip_of(s, own, owner(own, id), c)
    } else {
        tip(s, own, c)
    }
}

/// Whether the store has a tip at all.
pub open spec fn any_tip(s: Seq<GraphRecord>, own: Map<Seq<char>, Seq<char>>) -> bool {
    exists|c: Seq<char>| #[trigger] tip(s, own, c)
}

/// Whether `c` is recorded as a child of the commit `p`.
pub open spec fn is_child(s: Seq<GraphRecord>, p: Seq<char>, c: Seq<char>) -> bool {
    exists|i: int|
        0 <= i < s.len() && commit_of(#[trigger] s[i]) == Some(c) && parents_of(s[i]).contains(p)
}

/// Whether `c` is reached from `a` by `n` steps from parent to child.
pub open spec fn reaches(s: Seq<GraphRecord>, a: Seq<char>, c: Seq<char>, n: nat) -> bool
    decreases n,
{
    if n == 0 {
        false
    } else if n == 1 {
        is_child(s, a, c)
    } else {
        exists|m: Seq<char>| #[trigger] is_child(s, m, c) && reaches(s, a, m, (n - 1) as nat)
    }
}

/// Whether `c` is a descendant of the commit `a`.
pub open spec fn descends(s: Seq<GraphRecord>, a: Seq<char>, c: Seq<char>) -> bool {
    exists|n: nat| #[trigger] reaches(s, a, c, n)
}

/// Whether the commit takes part in a recorded relation of parent and child.
pub open spec fn in_dag(s: Seq<GraphRecord>, c: Seq<char>) -> bool {
    exists|i: int|
        0 <= i < s.len() && parents_of(#[trigger] s[i]).len() > 0 && (commit_of(s[i]) == Some(c)
            || parents_of(s[i]).contains(c))
}

/// The commit of a node version.
pub fn version_commit(r: &GraphRecord) -> (c: Option<&str>)
    ensures
        opt_str_view(c) == commit_of(*r),
{
    match r {
        GraphRecord::Node(n) => match &n.temporal {
            Some(t) => Some(t.git_commit.as_str()),
            None => None,
        },
        _ => None,
    }
}

/// When a node version became valid.
pub fn version_valid(r: &GraphRecord) -> (v: Option<&str>)
    ensures
        opt_str_view(v) == valid_of(*r),
{
    match r {
        GraphRecord::Node(n) => match &n.temporal {
            Some(t) => Some(t.valid_time.as_str()),
            None => match &n.valid_time {
                Some(v) => if !v.as_str().is_empty() {
                    Some(v.as_str())
                } else {
                    None
                },
                None => None,
            },
        },
        _ => None,
    }
}

/// The parents of the commit of a node version; `None` where it has no commit.
pub fn version_parents(r: &GraphRecord) -> (p: Option<&Vec<String>>)
    ensures
        match p {
            Some(v) => views(v@) == parents_of(*r) && commit_of(*r) is Some,
            None => parents_of(*r).len() == 0 && commit_of(*r) is None,
        },
{
    match r {
        GraphRecord::Node(n) => match &n.temporal {
            Some(t) => Some(&t.git_parent_commits),
            None => None,
        },
        _ => None,
    }
}

fn record_repo<'a>(index: &'a RepositoryIndex, r: &GraphRecord) -> (o: Option<&'a str>)
    ensures
        opt_str_view(o) == repo_of(index.owners(), *r),
{
    match r {
        GraphRecord::Node(n) => index.owner_of(n.id.as_str()),
        _ => None,
    }
}

/// Whether the commit is a parent of a commit of the repository.
pub fn is_parent_in(
    records: &Vec<GraphRecord>,
    index: &RepositoryIndex,
    repo: Option<&str>,
    c: &str,
) -> (r: bool)
    ensures
        r == has_parent(records@, index.owners(), opt_str_view(repo), c@),
{
    let mut i: usize = 0;
    while i < records.len()
        invariant
            i <= records@.len(),
            forall|k: int|
                0 <= k < i ==> !(parents_of(#[trigger] records@[k]).contains(c@) && repo_of(
                    index.owners(),
                    records@[k],
                ) == opt_str_view(repo)),
        decreases records@.len() - i,
    {
        match version_parents(&records[i]) {
            Some(parents) => {
                if contains_string(parents, c) && opt_str_eq(record_repo(index, &records[i]), repo) {
                    assert(parents_of(records@[i as int]).contains(c@));
                    return true;
                }
            },
            None => {},
        }
        i = i + 1;
    }
    false
}

/// The tips of a repository.
pub fn tips_of(records: &Vec<GraphRecord>, index: &RepositoryIndex, repo: Option<&str>) -> (set: StrSet)
    ensures
        set.wf(),
        forall|c: Seq<char>| #[trigger]
            set.has(c) <==> tip_of(records@, index.owners(), opt_str_view(repo), c),
{
    let ghost s = records@;
    let ghost own = index.owners();
    let ghost o = opt_str_view(repo);
    let mut set = StrSet::new();
    let mut i: usize = 0;
    proof {
        assert(s.take(0) =~= Seq::<GraphRecord>::empty());
    }
    while i < records.len()
        invariant
            i <= records@.len(),
            s == records@,
            own == index.owners(),
            o == opt_str_view(repo),
            set.wf(),
            forall|c: Seq<char>| #[trigger]
                set.has(c) <==> (has_commit(s.take(i as int), own, o, c) && !has_parent(
                    s,
                    own,
                    o,
                    c,
                )),
        decreases records@.len() - i,
    {
        let ghost set0 = set;
        match version_commit(&records[i]) {
            Some(c) => {
                if opt_str_eq(record_repo(index, &records[i]), repo) && !is_parent_in(
                    records,
                    index,
                    repo,
                    c,
                ) {
                    set.insert(c);
                }
            },
            None => {},
        }
        proof {
            assert forall|c: Seq<char>| #[trigger]
                set.has(c) <==> (has_commit(s.take(i + 1), own, o, c) && !has_parent(
                    s,
                    own,
                    o,
                    c,
                )) by {
                assert(set0.has(c) <==> (has_commit(s.take(i as int), own, o, c) && !has_parent(
                    s,
                    own,
                    o,
                    c,
                )));
                lemma_has_commit_step(s, own, o, c, i as int);
            }
        }
        i = i + 1;
    }
    proof {
        assert(s.take(i as int) =~= s);
        assert forall|c: Seq<char>| #[trigger] set.has(c) <==> tip_of(s, own, o, c) by {}
    }
    set
}

proof fn lemma_has_commit_step(
    s: Seq<GraphRecord>,
    own: Map<Seq<char>, Seq<char>>,
    o: Option<Seq<char>>,
    c: Seq<char>,
    i: int,
)
    requires
        0 <= i < s.len(),
    ensures
        has_commit(s.take(i + 1), own, o, c) <==> (has_commit(s.take(i), own, o, c) || (commit_of(
            s[i],
        ) == Some(c) && repo_of(own, s[i]) == o)),
{
    let a = s.take(i);
    let b = s.take(i + 1);
    if has_commit(a, own, o, c) {
        let k = choose|k: int|
            0 <= k < a.len() && commit_of(#[trigger] a[k]) == Some(c) && repo_of(own, a[k]) == o;
        assert(b[k] == a[k]);
    }
    if has_commit(b, own, o, c) {
        let k = choose|k: int|
            0 <= k < b.len() && commit_of(#[trigger] b[k]) == Some(c) && repo_of(own, b[k]) == o;
        if k < i {
            assert(a[k] == b[k]);
        }
    }
    assert(b[i] == s[i]);
}

/// The tips of all repositories.
pub fn all_tips(records: &Vec<GraphRecord>, index: &RepositoryIndex) -> (set: StrSet)
    ensures
        set.wf(),
        forall|c: Seq<char>| #[trigger] set.has(c) <==> tip(records@, index.owners(), c),
{
    let ghost s = records@;
    let ghost own = index.owners();
    let mut set = StrSet::new();
    let mut i: usize = 0;
    while i < records.len()
        invariant
            i <= records@.len(),
            s == records@,
            own == index.owners(),
            set.wf(),
            forall|c: Seq<char>| #[trigger] set.has(c) <==> tip_before(s, own, c, i as int),
        decreases records@.len() - i,
    {
        let ghost set0 = set;
        match version_commit(&records[i]) {
            Some(c) => {
                if !is_parent_in(records, index, record_repo(index, &records[i]), c) {
                    set.insert(c);
                }
            },
            None => {},
        }
        proof {
            assert forall|c: Seq<char>| #[trigger]
                set.has(c) <==> tip_before(s, own, c, i + 1) by {
                assert(set0.has(c) <==> tip_before(s, own, c, i as int));
                if tip_before(s, own, c, i + 1) && !tip_before(s, own, c, i as int) {
                    let k = choose|k: int|
                        0 <= k < i + 1 && k < s.len() && commit_of(#[trigger] s[k]) == Some(c)
                            && !has_parent(s, own, repo_of(own, s[k]), c);
                    assert(k == i);
                }
                if commit_of(s[i as int]) == Some(c) && !has_parent(
                    s,
                    own,
                    repo_of(own, s[i as int]),
                    c,
                ) {
                    assert(tip_before(s, own, c, i + 1));
                }
            }
        }
        i = i + 1;
    }
    proof {
        assert forall|c: Seq<char>| #[trigger] set.has(c) <==> tip(s, own, c) by {
            if tip_before(s, own, c, s.len() as int) {
                let k = choose|k: int|
                    0 <= k < s.len() && k < s.len() && commit_of(#[trigger] s[k]) == Some(c)
                        && !has_parent(s, own, repo_of(own, s[k]), c);
                assert(tip_of(s, own, repo_of(own, s[k]), c));
            }
            if tip(s, own, c) {
                let o = choose|o: Option<Seq<char>>| #[trigger] tip_of(s, own, o, c);
                let k = choose|k: int|
                    0 <= k < s.len() && commit_of(#[trigger] s[k]) == Some(c) && repo_of(own, s[k])
                        == o;
                assert(tip_before(s, own, c, s.len() as int));
            }
        }
    }
    set
}

spec fn tip_before(
    s: Seq<GraphRecord>,
    own: Map<Seq<char>, Seq<char>>,
    c: Seq<char>,
    n: int,
) -> bool {
    exists|k: int|
        0 <= k < n && k < s.len() && commit_of(#[trigger] s[k]) == Some(c) && !has_parent(
            s,
            own,
            repo_of(own, s[k]),
            c,
        )
}

/// The tips that count for a record.
pub fn tips_for(records: &Vec<GraphRecord>, index: &RepositoryIndex, id: &str) -> (set: StrSet)
    ensures
        set.wf(),
        forall|c: Seq<char>| #[trigger]
            set.has(c) <==> tip_for(records@, index.owners(), id@, c),
{
    let ghost s = records@;
    let ghost own = index.owners();
    let repo = index.owner_of(id);
    let set = tips_of(records, index, repo);
    if set.len() > 0 {
        proof {
            let c = set.seq()[0];
            assert(set.has(c));
            assert(tip_of(s, own, owner(own, id@), c));
            assert forall|c: Seq<char>| #[trigger] set.has(c) <==> tip_for(s, own, id@, c) by {}
        }
        return set;
    }
    let all = all_tips(records, index);
    proof {
        if has_tip(s, own, owner(own, id@)) {
            let c = choose|c: Seq<char>| #[trigger] tip_of(s, own, owner(own, id@), c);
            assert(set.has(c));
        }
        assert forall|c: Seq<char>| #[trigger] all.has(c) <==> tip_for(s, own, id@, c) by {}
    }
    all
}

/// Whether the commit takes part in a recorded relation of parent and child.
pub fn has_ancestry(records: &Vec<GraphRecord>, c: &str) -> (r: bool)
    ensures
        r == in_dag(records@, c@),
{
    let mut i: usize = 0;
    while i < records.len()
        invariant
            i <= records@.len(),
            forall|k: int|
                0 <= k < i ==> !(parents_of(#[trigger] records@[k]).len() > 0 && (commit_of(
                    records@[k],
                ) == Some(c@) || parents_of(records@[k]).contains(c@))),
        decreases records@.len() - i,
    {
        match version_parents(&records[i]) {
            Some(parents) => {
                if parents.len() > 0 && (opt_str_eq(version_commit(&records[i]), Some(c))
                    || contains_string(parents, c)) {
                    assert(parents_of(records@[i as int]).len() > 0);
                    return true;
                }
            },
            None => {},
        }
        i = i + 1;
    }
    false
}

spec fn commits(s: Seq<GraphRecord>) -> Set<Seq<char>> {
    s.map_values(|r: GraphRecord| commit_of(r).unwrap_or(Seq::empty())).to_set()
}

proof fn lemma_commit_count(s: Seq<GraphRecord>, seen: Seq<Seq<char>>)
    requires
        crate::collections::sorted_strict(seen),
        forall|c: Seq<char>| #[trigger] seen.contains(c) ==> exists|i: int|
            0 <= i < s.len() && commit_of(#[trigger] s[i]) == Some(c),
    ensures
        seen.len() <= s.len(),
{
    let names = s.map_values(|r: GraphRecord| commit_of(r).unwrap_or(Seq::empty()));
    assert(seen.no_duplicates()) by {
        assert forall|i: int, j: int| 0 <= i < seen.len() && 0 <= j < seen.len() && i != j implies seen[i]
            != seen[j] by {
            if i < j {
                crate::text::lemma_lex_asymmetric(seen[i], seen[j]);
            } else {
                crate::text::lemma_lex_asymmetric(seen[j], seen[i]);
            }
        }
    }
    seen.unique_seq_to_set();
    names.lemma_cardinality_of_set();
    assert(seen.to_set().subset_of(names.to_set())) by {
        assert forall|c: Seq<char>| #[trigger] seen.to_set().contains(c) implies names.to_set().contains(
            c,
        ) by {
            assert(seen.contains(c));
            let i = choose|i: int| 0 <= i < s.len() && commit_of(#[trigger] s[i]) == Some(c);
            assert(names[i] == c);
        }
    }
    vstd::set_lib::lemma_len_subset(seen.to_set(), names.to_set());
}

/// One pass over the records: adds the children of the commit and of those that
/// were found before.
fn add_children(records: &Vec<GraphRecord>, commit: &str, seen: &mut StrSet) -> (grew: bool)
    requires
        old(seen).wf(),
        forall|c: Seq<char>| #[trigger] old(seen).has(c) ==> descends(records@, commit@, c),
    ensures
        final(seen).wf(),
        forall|c: Seq<char>| #[trigger] final(seen).has(c) ==> descends(records@, commit@, c),
        forall|c: Seq<char>| #[trigger] old(seen).has(c) ==> final(seen).has(c),
        grew ==> final(seen).items@.len() > old(seen).items@.len(),
        !grew ==> final(seen).items@ == old(seen).items@ && forall|i: int, p: Seq<char>|
            #![trigger parents_of(records@[i]).contains(p)]
            0 <= i < records@.len() && parents_of(records@[i]).contains(p) && (p == commit@
                || final(seen).has(p)) ==> final(seen).has(commit_of(records@[i])->0),
{
    let ghost s = records@;
    let mut grew = false;
    let mut i: usize = 0;
    while i < records.len()
        invariant
            i <= records@.len(),
            s == records@,
            seen.wf(),
            forall|c: Seq<char>| #[trigger] seen.has(c) ==> descends(s, commit@, c),
            forall|c: Seq<char>| #[trigger] old(seen).has(c) ==> seen.has(c),
            grew ==> seen.items@.len() > old(seen).items@.len(),
            !grew ==> seen.items@ == old(seen).items@ && forall|k: int, p: Seq<char>|
                #![trigger parents_of(s[k]).contains(p)]
                0 <= k < i && parents_of(s[k]).contains(p) && (p == commit@ || seen.has(p))
                    ==> seen.has(commit_of(s[k])->0),
        decreases records@.len() - i,
    {
        match version_commit(&records[i]) {
            Some(c) => {
                match version_parents(&records[i]) {
                    Some(parents) => {
                        let hit = contains_string(parents, commit) || shares(parents, seen);
                        if hit && !seen.contains(c) {
                            proof {
                                if parents_of(s[i as int]).contains(commit@) {
                                    assert(is_child(s, commit@, c@));
                                    assert(reaches(s, commit@, c@, 1));
                                } else {
                                    let p = choose|p: Seq<char>|
                                        parents_of(s[i as int]).contains(p) && seen.has(p);
                                    assert(descends(s, commit@, p));
                                    let n = choose|n: nat| #[trigger] reaches(s, commit@, p, n);
                                    assert(is_child(s, p, c@));
                                    assert(reaches(s, commit@, c@, n + 1));
                                }
                            }
                            let ghost before = *seen;
                            seen.insert(c);
                            grew = true;
                        }
                    },
                    None => {},
                }
            },
            None => {},
        }
        i = i + 1;
    }
    grew
}

fn shares(names: &Vec<String>, set: &StrSet) -> (r: bool)
    ensures
        r == exists|p: Seq<char>| views(names@).contains(p) && set.has(p),
{
    let mut i: usize = 0;
    while i < names.len()
        invariant
            i <= names@.len(),
            forall|k: int| 0 <= k < i ==> !set.has(#[trigger] views(names@)[k]),
        decreases names@.len() - i,
    {
        assert(views(names@)[i as int] == names@[i as int]@);
        if set.contains(names[i].as_str()) {
            assert(views(names@).contains(names@[i as int]@));
            return true;
        }
        i = i + 1;
    }
    false
}

/// The descendants of a commit.
pub fn descendants_of(records: &Vec<GraphRecord>, commit: &str) -> (seen: StrSet)
    ensures
        seen.wf(),
        forall|c: Seq<char>| #[trigger] seen.has(c) <==> descends(records@, commit@, c),
{
    let ghost s = records@;
    let mut seen = StrSet::new();
    loop
        invariant
            s == records@,
            seen.wf(),
            forall|c: Seq<char>| #[trigger] seen.has(c) ==> descends(s, commit@, c),
        decreases s.len() - seen.items@.len(),
    {
        let ghost before = seen;
        let grew = add_children(records, commit, &mut seen);
        proof {
            lemma_descendant_count(s, commit@, seen);
        }
        if !grew {
            proof {
                assert forall|c: Seq<char>| #[trigger] descends(s, commit@, c) implies seen.has(c) by {
                    let n = choose|n: nat| #[trigger] reaches(s, commit@, c, n);
                    lemma_closed(s, commit@, seen, c, n);
                }
            }
            return seen;
        }
    }
}

proof fn lemma_descendant_count(s: Seq<GraphRecord>, a: Seq<char>, seen: StrSet)
    requires
        seen.wf(),
        forall|c: Seq<char>| #[trigger] seen.has(c) ==> descends(s, a, c),
    ensures
        seen.items@.len() <= s.len(),
{
    assert forall|c: Seq<char>| #[trigger] seen.seq().contains(c) implies exists|i: int|
        0 <= i < s.len() && commit_of(#[trigger] s[i]) == Some(c) by {
        assert(seen.has(c));
        let n = choose|n: nat| #[trigger] reaches(s, a, c, n);
        if n == 1 {
            assert(is_child(s, a, c));
        } else {
            let m = choose|m: Seq<char>| #[trigger] is_child(s, m, c) && reaches(s, a, m, (n - 1) as nat);
            assert(is_child(s, m, c));
        }
    }
    lemma_commit_count(s, seen.seq());
}

proof fn lemma_closed(s: Seq<GraphRecord>, a: Seq<char>, seen: StrSet, c: Seq<char>, n: nat)
    requires
        reaches(s, a, c, n),
        forall|i: int, p: Seq<char>|
            #![trigger parents_of(s[i]).contains(p)]
            0 <= i < s.len() && parents_of(s[i]).contains(p) && (p == a || seen.has(p))
                ==> seen.has(commit_of(s[i])->0),
    ensures
        seen.has(c),
    decreases n,
{
    let p = if n == 1 {
        a
    } else {
        let m = choose|m: Seq<char>| #[trigger] is_child(s, m, c) && reaches(s, a, m, (n - 1) as nat);
        lemma_closed(s, a, seen, m, (n - 1) as nat);
        m
    };
    assert(is_child(s, p, c));
    let i = choose|i: int|
        0 <= i < s.len() && commit_of(#[trigger] s[i]) == Some(c) && parents_of(s[i]).contains(p);
    assert(parents_of(s[i]).contains(p));
}

/// A descendant of a descendant is a descendant.
pub proof fn law_descent_is_transitive(
    s: Seq<GraphRecord>,
    a: Seq<char>,
    b: Seq<char>,
    c: Seq<char>,
)
    requires
        descends(s, a, b),
        descends(s, b, c),
    ensures
        descends(s, a, c),
{
    let n = choose|n: nat| #[trigger] reaches(s, a, b, n);
    let m = choose|m: nat| #[trigger] reaches(s, b, c, m);
    lemma_reaches_join(s, a, b, c, n, m);
}

proof fn lemma_reaches_join(
    s: Seq<GraphRecord>,
    a: Seq<char>,
    b: Seq<char>,
    c: Seq<char>,
    n: nat,
    m: nat,
)
    requires
        reaches(s, a, b, n),
        reaches(s, b, c, m),
    ensures
        reaches(s, a, c, n + m),
    decreases m,
{
    if m == 1 {
        assert(reaches(s, a, b, n) && is_child(s, b, c));
        assert((n + m - 1) as nat == n);
    } else {
        let x = choose|x: Seq<char>| #[trigger] is_child(s, x, c) && reaches(s, b, x, (m - 1) as nat);
        lemma_reaches_join(s, a, b, x, n, (m - 1) as nat);
        assert((n + m - 1) as nat == n + (m - 1) as nat);
        assert(reaches(s, a, x, (n + m - 1) as nat) && is_child(s, x, c));
    }
}

} // verus!
