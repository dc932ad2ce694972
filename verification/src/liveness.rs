//! Which records of an append-only store are in effect.
//!
//! The latest event of an identifier decides: a tombstone retracts it, a later
//! version of the node or edge restores it.

use vstd::prelude::*;

use crate::collections::StrSet;
use crate::ir::{EdgeLabel, EdgeRecord, GraphRecord, NodeKind, NodeRecord};
use crate::text::{lex_le, lex_lt, str_eq};

verus! {

/// Whether the record writes or retracts the identifier.
pub open spec fn is_event(r: GraphRecord, id: Seq<char>) -> bool {
    match r {
        GraphRecord::Node(n) => n.id@ == id,
        GraphRecord::Edge(e) => e.id@ == id,
        GraphRecord::Tombstone(t) => t.deleted_id@ == id,
    }
}

/// Whether the record is a version of the node `id`.
pub open spec fn is_node_version(r: GraphRecord, id: Seq<char>) -> bool {
    r is Node && r->Node_0.id@ == id
}

/// Whether the record is a version of the edge `id`.
pub open spec fn is_edge_version(r: GraphRecord, id: Seq<char>) -> bool {
    r is Edge && r->Edge_0.id@ == id
}

/// The position of the latest event of the identifier.
pub open spec fn last_event(s: Seq<GraphRecord>, id: Seq<char>) -> Option<int>
    decreases s.len(),
{
    if s.len() == 0 {
        None
    } else if is_event(s.last(), id) {
        Some(s.len() - 1)
    } else {
        last_event(s.drop_last(), id)
    }
}

/// The position of the latest version of the node.
pub open spec fn last_node(s: Seq<GraphRecord>, id: Seq<char>) -> Option<int>
    decreases s.len(),
{
    if s.len() == 0 {
        None
    } else if is_node_version(s.last(), id) {
        Some(s.len() - 1)
    } else {
        last_node(s.drop_last(), id)
    }
}

/// The position of the latest version of the edge.
pub open spec fn last_edge(s: Seq<GraphRecord>, id: Seq<char>) -> Option<int>
    decreases s.len(),
{
    if s.len() == 0 {
        None
    } else if is_edge_version(s.last(), id) {
        Some(s.len() - 1)
    } else {
        last_edge(s.drop_last(), id)
    }
}

/// Whether the latest event of the identifier is a tombstone.
pub open spec fn deleted(s: Seq<GraphRecord>, id: Seq<char>) -> bool {
    match last_event(s, id) {
        Some(i) => s[i] is Tombstone,
        None => false,
    }
}

/// The position of the version of a node that is in effect.
pub open spec fn live_node(s: Seq<GraphRecord>, id: Seq<char>) -> Option<int> {
    if deleted(s, id) {
        None
    } else {
        last_node(s, id)
    }
}

/// The version of a node that is in effect.
pub open spec fn live(s: Seq<GraphRecord>, id: Seq<char>) -> Option<NodeRecord> {
    match live_node(s, id) {
        Some(i) => Some(s[i]->Node_0),
        None => None,
    }
}

/// Whether the record at `i` is an edge in effect: its latest version, not
/// retracted.
pub open spec fn live_edge_at(s: Seq<GraphRecord>, i: int) -> bool {
    &&& 0 <= i < s.len()
    &&& s[i] is Edge
    &&& !deleted(s, s[i]->Edge_0.id@)
    &&& last_edge(s, s[i]->Edge_0.id@) == Some(i)
}

/// Whether an edge in effect leads from `source` to `target` by the label.
pub open spec fn linked(
    s: Seq<GraphRecord>,
    label: EdgeLabel,
    source: Seq<char>,
    target: Seq<char>,
) -> bool {
    exists|i: int| #[trigger]
        live_edge_at(s, i) && edge_is(s[i]->Edge_0, label, source, target)
}

/// Whether the edge has this label and these ends.
pub open spec fn edge_is(
    e: EdgeRecord,
    label: EdgeLabel,
    source: Seq<char>,
    target: Seq<char>,
) -> bool {
    e.label == label && e.source@ == source && e.target@ == target
}

/// The least string that satisfies `p`.
pub open spec fn least(p: spec_fn(Seq<char>) -> bool) -> Option<Seq<char>> {
    if exists|t: Seq<char>| #[trigger] p(t) {
        Some(choose|t: Seq<char>| #[trigger] p(t) && forall|u: Seq<char>| #[trigger] p(u) ==> lex_le(t, u))
    } else {
        None
    }
}

/// The first string of a set is the least of those that it holds.
pub proof fn lemma_least_of_set(p: spec_fn(Seq<char>) -> bool, set: &StrSet)
    requires
        set.wf(),
        forall|t: Seq<char>| #[trigger] set.has(t) <==> p(t),
    ensures
        least(p) == (if set.seq().len() == 0 {
            None
        } else {
            Some(set.seq()[0])
        }),
{
    let q = set.seq();
    if q.len() == 0 {
        if exists|t: Seq<char>| #[trigger] p(t) {
            let t = choose|t: Seq<char>| #[trigger] p(t);
            assert(set.has(t));
        }
    } else {
        let f = q[0];
        assert(set.has(f));
        assert(p(f));
        assert forall|u: Seq<char>| #[trigger] p(u) implies lex_le(f, u) by {
            assert(set.has(u));
            let k = choose|k: int| 0 <= k < q.len() && q[k] == u;
            if k > 0 {
                assert(lex_lt(q[0], q[k]));
            }
        }
        let t = choose|t: Seq<char>| #[trigger] p(t) && forall|u: Seq<char>| #[trigger] p(u) ==> lex_le(t, u);
        assert(p(t) && lex_le(t, f) && lex_le(f, t));
        if t != f {
            crate::text::lemma_lex_asymmetric(t, f);
        }
    }
}

/// The latest version of a node is a version of it.
pub proof fn lemma_last_node(s: Seq<GraphRecord>, id: Seq<char>)
    ensures
        match last_node(s, id) {
            Some(i) => 0 <= i < s.len() && is_node_version(s[i], id) && forall|j: int|
                i < j < s.len() ==> !is_node_version(#[trigger] s[j], id),
            None => forall|j: int| 0 <= j < s.len() ==> !is_node_version(#[trigger] s[j], id),
        },
    decreases s.len(),
{
    if s.len() > 0 && !is_node_version(s.last(), id) {
        let t = s.drop_last();
        lemma_last_node(t, id);
        assert forall|j: int|
            0 <= j < s.len() && match last_node(s, id) {
                Some(i) => i < j,
                None => true,
            } implies !is_node_version(#[trigger] s[j], id) by {
            if j < t.len() {
                assert(s[j] == t[j]);
            }
        }
    }
}

/// Finds the latest event of the identifier.
pub fn find_last_event(records: &Vec<GraphRecord>, id: &str) -> (r: Option<usize>)
    ensures
        match r {
            Some(i) => i < records@.len() && last_event(records@, id@) == Some(i as int),
            None => last_event(records@, id@) is None,
        },
{
    let mut i: usize = records.len();
    proof {
        assert(records@.take(records@.len() as int) =~= records@);
    }
    while i > 0
        invariant
            i <= records@.len(),
            last_event(records@, id@) == last_event(records@.take(i as int), id@),
        decreases i,
    {
        let ghost t = records@.take(i as int);
        assert(t.last() == records@[i - 1]);
        assert(t.drop_last() =~= records@.take(i - 1));
        let hit = match &records[i - 1] {
            GraphRecord::Node(n) => str_eq(n.id.as_str(), id),
            GraphRecord::Edge(e) => str_eq(e.id.as_str(), id),
            GraphRecord::Tombstone(t) => str_eq(t.deleted_id.as_str(), id),
        };
        i = i - 1;
        if hit {
            return Some(i);
        }
    }
    None
}

/// Whether the identifier is retracted.
pub fn is_deleted(records: &Vec<GraphRecord>, id: &str) -> (r: bool)
    ensures
        r == deleted(records@, id@),
{
    match find_last_event(records, id) {
        Some(i) => match &records[i] {
            GraphRecord::Tombstone(_) => true,
            _ => false,
        },
        None => false,
    }
}

/// Finds the latest version of the node.
pub fn find_last_node(records: &Vec<GraphRecord>, id: &str) -> (r: Option<usize>)
    ensures
        match r {
            Some(i) => i < records@.len() && last_node(records@, id@) == Some(i as int)
                && is_node_version(records@[i as int], id@),
            None => last_node(records@, id@) is None,
        },
{
    let mut i: usize = records.len();
    proof {
        assert(records@.take(records@.len() as int) =~= records@);
    }
    while i > 0
        invariant
            i <= records@.len(),
            last_node(records@, id@) == last_node(records@.take(i as int), id@),
        decreases i,
    {
        let ghost t = records@.take(i as int);
        assert(t.last() == records@[i - 1]);
        assert(t.drop_last() =~= records@.take(i - 1));
        let hit = match &records[i - 1] {
            GraphRecord::Node(n) => str_eq(n.id.as_str(), id),
            _ => false,
        };
        i = i - 1;
        if hit {
            return Some(i);
        }
    }
    None
}

/// Finds the latest version of the edge.
pub fn find_last_edge(records: &Vec<GraphRecord>, id: &str) -> (r: Option<usize>)
    ensures
        match r {
            Some(i) => i < records@.len() && last_edge(records@, id@) == Some(i as int),
            None => last_edge(records@, id@) is None,
        },
{
    let mut i: usize = records.len();
    proof {
        assert(records@.take(records@.len() as int) =~= records@);
    }
    while i > 0
        invariant
            i <= records@.len(),
            last_edge(records@, id@) == last_edge(records@.take(i as int), id@),
        decreases i,
    {
        let ghost t = records@.take(i as int);
        assert(t.last() == records@[i - 1]);
        assert(t.drop_last() =~= records@.take(i - 1));
        let hit = match &records[i - 1] {
            GraphRecord::Edge(e) => str_eq(e.id.as_str(), id),
            _ => false,
        };
        i = i - 1;
        if hit {
            return Some(i);
        }
    }
    None
}

/// The version of a node that is in effect.
pub fn find_live<'a>(records: &'a Vec<GraphRecord>, id: &str) -> (r: Option<&'a NodeRecord>)
    ensures
        match r {
            Some(n) => live(records@, id@) == Some(*n) && n.id@ == id@,
            None => live(records@, id@) is None,
        },
{
    if is_deleted(records, id) {
        return None;
    }
    match find_last_node(records, id) {
        Some(i) => match &records[i] {
            GraphRecord::Node(n) => Some(n),
            _ => None,
        },
        None => None,
    }
}

/// Whether the record at `i` is an edge in effect.
pub fn is_live_edge(records: &Vec<GraphRecord>, i: usize) -> (r: bool)
    requires
        i < records@.len(),
    ensures
        r == live_edge_at(records@, i as int),
{
    match &records[i] {
        GraphRecord::Edge(e) => {
            if is_deleted(records, e.id.as_str()) {
                return false;
            }
            match find_last_edge(records, e.id.as_str()) {
                Some(j) => i == j,
                None => false,
            }
        },
        _ => false,
    }
}

/// The targets of the edges in effect that leave `source` by the label.
pub fn targets_of(records: &Vec<GraphRecord>, label: EdgeLabel, source: &str) -> (r: StrSet)
    ensures
        r.wf(),
        forall|t: Seq<char>| #[trigger] r.has(t) <==> linked(records@, label, source@, t),
{
    let mut set = StrSet::new();
    let ghost s = records@;
    let mut i: usize = 0;
    while i < records.len()
        invariant
            i <= records@.len(),
            s == records@,
            set.wf(),
            forall|t: Seq<char>| #[trigger]
                set.has(t) <==> linked_before(s, label, source@, t, i as int),
        decreases records@.len() - i,
    {
        let ghost set0 = set;
        let mut hit = false;
        match &records[i] {
            GraphRecord::Edge(e) => {
                if e.label == label && str_eq(e.source.as_str(), source) && is_live_edge(
                    records,
                    i,
                ) {
                    set.insert(e.target.as_str());
                    hit = true;
                }
            },
            _ => {},
        }
        proof {
            assert forall|t: Seq<char>| #[trigger]
                set.has(t) <==> linked_before(s, label, source@, t, i + 1) by {
                assert(set0.has(t) <==> linked_before(s, label, source@, t, i as int));
                lemma_linked_step(s, label, source@, t, i as int);
            }
        }
        i = i + 1;
    }
    proof {
        assert forall|t: Seq<char>| #[trigger]
            set.has(t) <==> linked(s, label, source@, t) by {
            assert(linked(s, label, source@, t) <==> linked_before(
                s,
                label,
                source@,
                t,
                s.len() as int,
            )) by {
                if linked(s, label, source@, t) {
                    let k = choose|k: int| #[trigger]
                        live_edge_at(s, k) && edge_is(s[k]->Edge_0, label, source@, t);
                    assert(live_edge_at(s, k));
                }
            }
        }
    }
    set
}

spec fn linked_before(
    s: Seq<GraphRecord>,
    label: EdgeLabel,
    source: Seq<char>,
    target: Seq<char>,
    n: int,
) -> bool {
    exists|i: int|
        i < n && #[trigger] live_edge_at(s, i) && edge_is(s[i]->Edge_0, label, source, target)
}

proof fn lemma_linked_step(
    s: Seq<GraphRecord>,
    label: EdgeLabel,
    source: Seq<char>,
    target: Seq<char>,
    i: int,
)
    ensures
        linked_before(s, label, source, target, i + 1) <==> (linked_before(
            s,
            label,
            source,
            target,
            i,
        ) || (live_edge_at(s, i) && edge_is(s[i]->Edge_0, label, source, target))),
{
    if linked_before(s, label, source, target, i + 1) && !linked_before(
        s,
        label,
        source,
        target,
        i,
    ) {
        let k = choose|k: int|
            k < i + 1 && #[trigger] live_edge_at(s, k) && edge_is(
                s[k]->Edge_0,
                label,
                source,
                target,
            );
        assert(k == i);
    }
    if linked_before(s, label, source, target, i) {
        let k = choose|k: int|
            k < i && #[trigger] live_edge_at(s, k) && edge_is(s[k]->Edge_0, label, source, target);
        assert(live_edge_at(s, k));
    }
}

/// The identifiers of the nodes of a kind that are in effect.
pub fn live_ids_of_kind(records: &Vec<GraphRecord>, kind: NodeKind) -> (r: StrSet)
    ensures
        r.wf(),
        forall|id: Seq<char>| #[trigger]
            r.has(id) <==> (live(records@, id) matches Some(n) && n.kind == kind),
{
    let mut set = StrSet::new();
    let ghost s = records@;
    let mut i: usize = 0;
    while i < records.len()
        invariant
            i <= records@.len(),
            s == records@,
            set.wf(),
            forall|id: Seq<char>| #[trigger]
                set.has(id) <==> ((live(s, id) matches Some(n) && n.kind == kind) && has_node_before(
                    s,
                    id,
                    i as int,
                )),
        decreases records@.len() - i,
    {
        let ghost set0 = set;
        match &records[i] {
            GraphRecord::Node(n) => {
                match find_live(records, n.id.as_str()) {
                    Some(m) => {
                        if m.kind == kind {
                            set.insert(n.id.as_str());
                        }
                    },
                    None => {},
                }
            },
            _ => {},
        }
        proof {
            assert forall|id: Seq<char>| #[trigger]
                set.has(id) <==> ((live(s, id) matches Some(n) && n.kind == kind)
                    && has_node_before(s, id, i + 1)) by {
                assert(set0.has(id) <==> ((live(s, id) matches Some(n) && n.kind == kind)
                    && has_node_before(s, id, i as int)));
                if has_node_before(s, id, i + 1) && !has_node_before(s, id, i as int) {
                    let k = choose|k: int|
                        0 <= k < i + 1 && k < s.len() && is_node_version(#[trigger] s[k], id);
                    assert(k == i);
                }
                if is_node_version(s[i as int], id) {
                    assert(has_node_before(s, id, i + 1));
                }
            }
        }
        i = i + 1;
    }
    proof {
        assert forall|id: Seq<char>| #[trigger]
            set.has(id) <==> (live(s, id) matches Some(n) && n.kind == kind) by {
            if live(s, id) is Some {
                lemma_last_node(s, id);
                let k = last_node(s, id)->0;
                assert(is_node_version(s[k], id));
            }
        }
    }
    set
}

spec fn has_node_before(s: Seq<GraphRecord>, id: Seq<char>, n: int) -> bool {
    exists|k: int| 0 <= k < n && k < s.len() && is_node_version(#[trigger] s[k], id)
}

// ---------------------------------------------------------------------------
// What the order and the rest of the records do not change
// ---------------------------------------------------------------------------

/// The latest event is one of the identifier, and none follows it.
pub proof fn lemma_last_event(s: Seq<GraphRecord>, id: Seq<char>)
    ensures
        match last_event(s, id) {
            Some(i) => 0 <= i < s.len() && is_event(s[i], id) && forall|j: int|
                i < j < s.len() ==> !is_event(#[trigger] s[j], id),
            None => forall|j: int| 0 <= j < s.len() ==> !is_event(#[trigger] s[j], id),
        },
    decreases s.len(),
{
    if s.len() > 0 && !is_event(s.last(), id) {
        let r = s.drop_last();
        lemma_last_event(r, id);
        assert forall|j: int| 0 <= j < s.len() && (match last_event(s, id) {
            Some(i) => i < j,
            None => true,
        }) implies !is_event(#[trigger] s[j], id) by {
            if j < r.len() {
                assert(s[j] == r[j]);
            }
        }
        match last_event(s, id) {
            Some(i) => {
                assert(s[i] == r[i]);
            },
            None => {},
        }
    }
}

/// The latest version of an edge is one, and none follows it.
pub proof fn lemma_latest_edge(s: Seq<GraphRecord>, id: Seq<char>)
    ensures
        match last_edge(s, id) {
            Some(i) => 0 <= i < s.len() && is_edge_version(s[i], id) && forall|j: int|
                i < j < s.len() ==> !is_edge_version(#[trigger] s[j], id),
            None => forall|j: int| 0 <= j < s.len() ==> !is_edge_version(#[trigger] s[j], id),
        },
    decreases s.len(),
{
    if s.len() > 0 && !is_edge_version(s.last(), id) {
        let r = s.drop_last();
        lemma_latest_edge(r, id);
        assert forall|j: int| 0 <= j < s.len() && (match last_edge(s, id) {
            Some(i) => i < j,
            None => true,
        }) implies !is_edge_version(#[trigger] s[j], id) by {
            if j < r.len() {
                assert(s[j] == r[j]);
            }
        }
        match last_edge(s, id) {
            Some(i) => {
                assert(s[i] == r[i]);
            },
            None => {},
        }
    }
}

/// Whether the records are nodes with one identifier, edges that agree on identifier,
/// label and ends, or tombstones of one identifier.
pub open spec fn same_place(a: GraphRecord, b: GraphRecord) -> bool {
    match (a, b) {
        (GraphRecord::Node(x), GraphRecord::Node(y)) => x.id@ == y.id@,
        (GraphRecord::Edge(x), GraphRecord::Edge(y)) => x.id@ == y.id@ && x.label == y.label
            && x.source@ == y.source@ && x.target@ == y.target@,
        (GraphRecord::Tombstone(x), GraphRecord::Tombstone(y)) => x.deleted_id@ == y.deleted_id@,
        _ => false,
    }
}

/// Whether the stores agree, record by record, on identifiers, labels and ends.
pub open spec fn same_places(s: Seq<GraphRecord>, t: Seq<GraphRecord>) -> bool {
    &&& s.len() == t.len()
    &&& forall|i: int| 0 <= i < s.len() ==> same_place(#[trigger] s[i], t[i])
}

proof fn lemma_same_places_at(s: Seq<GraphRecord>, t: Seq<GraphRecord>, id: Seq<char>)
    requires
        same_places(s, t),
    ensures
        last_event(s, id) == last_event(t, id),
        last_node(s, id) == last_node(t, id),
        last_edge(s, id) == last_edge(t, id),
    decreases s.len(),
{
    if s.len() > 0 {
        assert(same_place(s[s.len() - 1], t[t.len() - 1]));
        assert forall|i: int| 0 <= i < s.drop_last().len() implies same_place(
            #[trigger] s.drop_last()[i],
            t.drop_last()[i],
        ) by {
            assert(same_place(s[i], t[i]));
        }
        lemma_same_places_at(s.drop_last(), t.drop_last(), id);
    }
}

/// What is in effect, and which edges are, depends on identifiers, labels and ends alone.
pub proof fn lemma_same_places(s: Seq<GraphRecord>, t: Seq<GraphRecord>)
    requires
        same_places(s, t),
    ensures
        forall|id: Seq<char>| #[trigger] live_node(s, id) == live_node(t, id),
        forall|label: EdgeLabel, a: Seq<char>, b: Seq<char>| #[trigger]
            linked(s, label, a, b) <==> linked(t, label, a, b),
{
    assert forall|id: Seq<char>| #[trigger] live_node(s, id) == live_node(t, id) by {
        lemma_same_places_at(s, t, id);
        lemma_last_event(s, id);
        match last_event(s, id) {
            Some(i) => {
                assert(same_place(s[i], t[i]));
            },
            None => {},
        }
    }
    assert forall|i: int| #[trigger] live_edge_at(s, i) <==> live_edge_at(t, i) by {
        if 0 <= i < s.len() {
            assert(same_place(s[i], t[i]));
            if s[i] is Edge {
                let id = s[i]->Edge_0.id@;
                lemma_same_places_at(s, t, id);
                lemma_last_event(s, id);
                match last_event(s, id) {
                    Some(k) => {
                        assert(same_place(s[k], t[k]));
                    },
                    None => {},
                }
            }
        }
    }
    assert forall|label: EdgeLabel, a: Seq<char>, b: Seq<char>| #[trigger]
        linked(s, label, a, b) <==> linked(t, label, a, b) by {
        if linked(s, label, a, b) {
            let i = choose|i: int| #[trigger]
                live_edge_at(s, i) && edge_is(s[i]->Edge_0, label, a, b);
            assert(same_place(s[i], t[i]));
            assert(live_edge_at(t, i) && edge_is(t[i]->Edge_0, label, a, b));
        }
        if linked(t, label, a, b) {
            let i = choose|i: int| #[trigger]
                live_edge_at(t, i) && edge_is(t[i]->Edge_0, label, a, b);
            assert(live_edge_at(s, i));
            assert(same_place(s[i], t[i]));
            assert(live_edge_at(s, i) && edge_is(s[i]->Edge_0, label, a, b));
        }
    }
}

/// The identifier that a node or an edge has, or that a tombstone deletes.
pub open spec fn event_id(r: GraphRecord) -> Seq<char> {
    match r {
        GraphRecord::Node(n) => n.id@,
        GraphRecord::Edge(e) => e.id@,
        GraphRecord::Tombstone(t) => t.deleted_id@,
    }
}

/// Whether no two nodes or edges share an identifier, and every tombstone comes after what
/// it deletes.
pub open spec fn settled(s: Seq<GraphRecord>) -> bool {
    &&& forall|i: int, j: int|
        0 <= i < j < s.len() && !(#[trigger] s[i] is Tombstone) && !(#[trigger] s[j] is Tombstone)
            ==> event_id(s[i]) != event_id(s[j])
    &&& forall|i: int, j: int|
        0 <= i < j < s.len() && #[trigger] s[i] is Tombstone && !(#[trigger] s[j] is Tombstone)
            ==> event_id(s[i]) != event_id(s[j])
}

/// Whether a tombstone deletes the identifier.
pub open spec fn entombed(s: Seq<GraphRecord>, id: Seq<char>) -> bool {
    exists|i: int| 0 <= i < s.len() && (#[trigger] s[i]) is Tombstone && event_id(s[i]) == id
}

proof fn lemma_settled_deleted(s: Seq<GraphRecord>, id: Seq<char>)
    requires
        settled(s),
    ensures
        deleted(s, id) <==> entombed(s, id),
{
    lemma_last_event(s, id);
    if entombed(s, id) {
        let i = choose|i: int|
            0 <= i < s.len() && (#[trigger] s[i]) is Tombstone && event_id(s[i]) == id;
        assert(is_event(s[i], id));
        let k = last_event(s, id)->0;
        assert(i <= k);
        assert(event_id(s[k]) == id);
    }
    if deleted(s, id) {
        let k = last_event(s, id)->0;
        assert(s[k] is Tombstone && event_id(s[k]) == id);
    }
}

proof fn lemma_settled_live(s: Seq<GraphRecord>, id: Seq<char>, n: NodeRecord)
    requires
        settled(s),
    ensures
        live(s, id) == Some(n) <==> (s.contains(GraphRecord::Node(n)) && n.id@ == id && !entombed(
            s,
            id,
        )),
{
    lemma_settled_deleted(s, id);
    lemma_last_node(s, id);
    if s.contains(GraphRecord::Node(n)) && n.id@ == id && !entombed(s, id) {
        let i = choose|i: int| 0 <= i < s.len() && s[i] == GraphRecord::Node(n);
        assert(is_node_version(s[i], id));
        let k = last_node(s, id)->0;
        if i < k {
            assert(event_id(s[i]) != event_id(s[k]));
        }
        assert(i == k);
    }
    if live(s, id) == Some(n) {
        let k = last_node(s, id)->0;
        assert(s[k] == GraphRecord::Node(n));
    }
}

proof fn lemma_settled_edge(s: Seq<GraphRecord>, i: int)
    requires
        settled(s),
        0 <= i < s.len(),
        s[i] is Edge,
    ensures
        live_edge_at(s, i) <==> !entombed(s, event_id(s[i])),
{
    let id = s[i]->Edge_0.id@;
    lemma_settled_deleted(s, id);
    lemma_latest_edge(s, id);
    assert(is_edge_version(s[i], id));
    let k = last_edge(s, id)->0;
    if i < k {
        assert(event_id(s[i]) != event_id(s[k]));
    }
}

proof fn lemma_settled_linked(
    s: Seq<GraphRecord>,
    t: Seq<GraphRecord>,
    label: EdgeLabel,
    a: Seq<char>,
    b: Seq<char>,
)
    requires
        settled(s),
        settled(t),
        forall|r: GraphRecord| #[trigger] s.contains(r) ==> t.contains(r),
        forall|id: Seq<char>| #[trigger] entombed(s, id) <==> entombed(t, id),
        linked(s, label, a, b),
    ensures
        linked(t, label, a, b),
{
    let i = choose|i: int| #[trigger] live_edge_at(s, i) && edge_is(s[i]->Edge_0, label, a, b);
    lemma_settled_edge(s, i);
    assert(s.contains(s[i]));
    let k = choose|k: int| 0 <= k < t.len() && t[k] == s[i];
    assert(entombed(s, event_id(s[i])) <==> entombed(t, event_id(s[i])));
    lemma_settled_edge(t, k);
    assert(live_edge_at(t, k) && edge_is(t[k]->Edge_0, label, a, b));
}

/// The order of the records does not change what is in effect, where no two nodes or edges
/// share an identifier and every tombstone comes after what it deletes.
pub proof fn lemma_order_is_free(s: Seq<GraphRecord>, t: Seq<GraphRecord>)
    requires
        settled(s),
        settled(t),
        forall|r: GraphRecord| #[trigger] s.contains(r) <==> t.contains(r),
    ensures
        forall|id: Seq<char>| #[trigger] live(s, id) == live(t, id),
        forall|label: EdgeLabel, a: Seq<char>, b: Seq<char>| #[trigger]
            linked(s, label, a, b) <==> linked(t, label, a, b),
{
    assert forall|id: Seq<char>| #[trigger] entombed(s, id) <==> entombed(t, id) by {
        if entombed(s, id) {
            let i = choose|i: int|
                0 <= i < s.len() && (#[trigger] s[i]) is Tombstone && event_id(s[i]) == id;
            assert(s.contains(s[i]));
            let k = choose|k: int| 0 <= k < t.len() && t[k] == s[i];
            assert(t[k] is Tombstone && event_id(t[k]) == id);
        }
        if entombed(t, id) {
            let i = choose|i: int|
                0 <= i < t.len() && (#[trigger] t[i]) is Tombstone && event_id(t[i]) == id;
            assert(t.contains(t[i]));
            assert(s.contains(t[i]));
            let k = choose|k: int| 0 <= k < s.len() && s[k] == t[i];
            assert(s[k] is Tombstone && event_id(s[k]) == id);
        }
    }
    assert forall|id: Seq<char>| #[trigger] live(s, id) == live(t, id) by {
        match live(s, id) {
            Some(n) => {
                lemma_settled_live(s, id, n);
                lemma_settled_live(t, id, n);
            },
            None => {
                match live(t, id) {
                    Some(n) => {
                        lemma_settled_live(s, id, n);
                        lemma_settled_live(t, id, n);
                    },
                    None => {},
                }
            },
        }
    }
    assert forall|label: EdgeLabel, a: Seq<char>, b: Seq<char>| #[trigger]
        linked(s, label, a, b) <==> linked(t, label, a, b) by {
        if linked(s, label, a, b) {
            lemma_settled_linked(s, t, label, a, b);
        }
        if linked(t, label, a, b) {
            lemma_settled_linked(t, s, label, a, b);
        }
    }
}

} // verus!
