//! What a view of a store shows, said of its records.

use vstd::prelude::*;

use crate::citation_laws::lemma_insert_sorted;
use crate::collections::sorted_strict;
use crate::commit_view::{
    commit_named, commits_of, known_commit, records_at, records_without, time_of,
};
use crate::evidence_freshness::in_order;
use crate::ir::{GraphRecord, NodeKind, RecordView};
use crate::repository::owner;
use crate::subsystem::{signature_row, topology_row, topology_upto, LogSignatureView};
use crate::symbol_results::{
    author_text, completeness_of, symbol_text, who_text, SymbolResultView, WhoResult,
};
use crate::text::{decimal_seq, opt_view};

verus! {

// ---------------------------------------------------------------------------
// Commits
// ---------------------------------------------------------------------------

/// Whether the `i`-th record is a node of the commit, in the repository where one is asked for.
pub open spec fn tells_commit(
    s: Seq<GraphRecord>,
    own: Map<Seq<char>, Seq<char>>,
    scope: Option<Seq<char>>,
    i: int,
    sha: Seq<char>,
) -> bool {
    &&& 0 <= i < s.len()
    &&& s[i] is Node && s[i]->Node_0.kind == NodeKind::Commit
    &&& s[i]->Node_0.name is Some && s[i]->Node_0.name->0@ == sha
    &&& scope is Some ==> own.dom().contains(s[i]->Node_0.id@) && own[s[i]->Node_0.id@] == scope->0
}

proof fn lemma_tells(
    s: Seq<GraphRecord>,
    own: Map<Seq<char>, Seq<char>>,
    scope: Option<Seq<char>>,
    i: int,
    sha: Seq<char>,
)
    requires
        0 <= i < s.len(),
    ensures
        commit_named(s[i], own, scope) == Some(sha) <==> tells_commit(s, own, scope, i, sha),
{
    if s[i] is Node {
        assert(scope is Some ==> (owner(own, s[i]->Node_0.id@) == Some(scope->0) <==> (
        own.dom().contains(s[i]->Node_0.id@) && own[s[i]->Node_0.id@] == scope->0)));
    }
}

proof fn lemma_shas(
    s: Seq<GraphRecord>,
    own: Map<Seq<char>, Seq<char>>,
    scope: Option<Seq<char>>,
    n: int,
) -> (q: Seq<Seq<char>>)
    requires
        0 <= n <= s.len(),
    ensures
        sorted_strict(q),
        forall|x: Seq<char>| #[trigger] q.contains(x) <==> known_commit(s, own, scope, n, x),
    decreases n,
{
    if n == 0 {
        Seq::empty()
    } else {
        let q = lemma_shas(s, own, scope, n - 1);
        let named = commit_named(s[n - 1], own, scope);
        assert forall|x: Seq<char>| known_commit(s, own, scope, n, x) <==> known_commit(
            s,
            own,
            scope,
            n - 1,
            x,
        ) || named == Some(x) by {
            if known_commit(s, own, scope, n - 1, x) {
                let i = choose|i: int|
                    0 <= i < n - 1 && commit_named(#[trigger] s[i], own, scope) == Some(x);
                assert(commit_named(s[i], own, scope) == Some(x));
            }
        }
        if named is Some && !q.contains(named->0) {
            lemma_insert_sorted(q, named->0)
        } else {
            q
        }
    }
}

/// The commits of a store are those that its nodes of commits name, each once and in order.
pub proof fn law_commits_are_those_told(
    s: Seq<GraphRecord>,
    own: Map<Seq<char>, Seq<char>>,
    scope: Option<Seq<char>>,
    sha: Seq<char>,
)
    ensures
        sorted_strict(commits_of(s, own, scope)),
        commits_of(s, own, scope).contains(sha) <==> exists|i: int| #[trigger]
            tells_commit(s, own, scope, i, sha),
{
    let p = |x: Seq<char>| known_commit(s, own, scope, s.len() as int, x);
    let q = lemma_shas(s, own, scope, s.len() as int);
    assert(sorted_strict(q) && forall|x: Seq<char>| #[trigger] q.contains(x) <==> p(x));
    let all = in_order(p);
    assert(sorted_strict(all) && forall|x: Seq<char>| #[trigger] all.contains(x) <==> p(x));
    assert(all.contains(sha) <==> p(sha));
    if p(sha) {
        let i = choose|i: int|
            0 <= i < s.len() && commit_named(#[trigger] s[i], own, scope) == Some(sha);
        lemma_tells(s, own, scope, i, sha);
        assert(tells_commit(s, own, scope, i, sha));
    }
    if exists|i: int| #[trigger] tells_commit(s, own, scope, i, sha) {
        let i = choose|i: int| #[trigger] tells_commit(s, own, scope, i, sha);
        lemma_tells(s, own, scope, i, sha);
        assert(commit_named(s[i], own, scope) == Some(sha));
    }
}

/// The time of a commit is that of the first node that tells of it.
pub proof fn law_first_telling_dates_a_commit(
    s: Seq<GraphRecord>,
    own: Map<Seq<char>, Seq<char>>,
    scope: Option<Seq<char>>,
    n: int,
    i: int,
    sha: Seq<char>,
)
    requires
        0 <= i < n <= s.len(),
        tells_commit(s, own, scope, i, sha),
        forall|k: int| 0 <= k < i ==> !#[trigger] tells_commit(s, own, scope, k, sha),
    ensures
        s[i]->Node_0.temporal is Some ==> time_of(s, own, scope, n, sha) == Some(
            s[i]->Node_0.temporal->0.valid_time@,
        ),
        s[i]->Node_0.temporal is None ==> time_of(s, own, scope, n, sha) is None,
    decreases n,
{
    lemma_tells(s, own, scope, i, sha);
    if i < n - 1 {
        law_first_telling_dates_a_commit(s, own, scope, n - 1, i, sha);
        assert(commit_named(s[i], own, scope) == Some(sha));
        assert(known_commit(s, own, scope, n - 1, sha));
    } else {
        if known_commit(s, own, scope, n - 1, sha) {
            let k = choose|k: int|
                0 <= k < n - 1 && commit_named(#[trigger] s[k], own, scope) == Some(sha);
            lemma_tells(s, own, scope, k, sha);
            assert(tells_commit(s, own, scope, k, sha));
        }
    }
}

/// The commit that a record was made at.
pub open spec fn made_at_commit(r: RecordView) -> Option<Seq<char>> {
    match r {
        RecordView::Node(n) => if n.temporal is Some {
            Some(n.temporal->0.git_commit)
        } else {
            None
        },
        RecordView::Edge(e) => if e.temporal is Some {
            Some(e.temporal->0.git_commit)
        } else {
            None
        },
        RecordView::Tombstone(_) => None,
    }
}

/// The state at a commit holds the records that were made at it, each and no other.
pub proof fn law_state_at_a_commit(s: Seq<RecordView>, sha: Seq<char>, r: RecordView)
    ensures
        records_at(s, sha).contains(r) <==> s.contains(r) && made_at_commit(r) == Some(sha),
    decreases s.len(),
{
    if s.len() > 0 {
        let t = s.drop_last();
        law_state_at_a_commit(t, sha, r);
        let all = records_at(s, sha);
        let before = records_at(t, sha);
        assert(s[s.len() - 1] == s.last());
        if t.contains(r) {
            let k = choose|k: int| 0 <= k < t.len() && t[k] == r;
            assert(s[k] == r);
        }
        if s.contains(r) {
            let k = choose|k: int| 0 <= k < s.len() && s[k] == r;
            if k < t.len() {
                assert(t[k] == r);
            }
        }
        if before.contains(r) {
            let k = choose|k: int| 0 <= k < before.len() && before[k] == r;
            assert(all[k] == r);
        }
        if all.contains(r) {
            let k = choose|k: int| 0 <= k < all.len() && all[k] == r;
            if k < before.len() {
                assert(before[k] == r);
            }
        }
        if made_at_commit(s.last()) == Some(sha) {
            assert(all[all.len() - 1] == s.last());
        }
    }
}

/// What is left without some identifiers is every record under another one, and no other.
pub proof fn law_what_is_left_out(s: Seq<GraphRecord>, ids: Seq<Seq<char>>, r: RecordView)
    ensures
        records_without(s, ids).contains(r) <==> exists|i: int|
            0 <= i < s.len() && (#[trigger] s[i])@ == r && !ids.contains(
                crate::ingest_laws::named(s[i]),
            ),
    decreases s.len(),
{
    if s.len() > 0 {
        let t = s.drop_last();
        law_what_is_left_out(t, ids, r);
        let all = records_without(s, ids);
        let before = records_without(t, ids);
        let x = s.last();
        assert(s[s.len() - 1] == x);
        assert(crate::ir::record_id(x) == crate::ingest_laws::named(x));
        if before.contains(r) {
            let i = choose|i: int|
                0 <= i < t.len() && (#[trigger] t[i])@ == r && !ids.contains(
                    crate::ingest_laws::named(t[i]),
                );
            assert(s[i] == t[i]);
            let k = choose|k: int| 0 <= k < before.len() && before[k] == r;
            assert(all[k] == r);
        }
        if all.contains(r) {
            let k = choose|k: int| 0 <= k < all.len() && all[k] == r;
            if k < before.len() {
                assert(before[k] == r);
                assert(before.contains(r));
            }
        }
        if exists|i: int|
            0 <= i < s.len() && (#[trigger] s[i])@ == r && !ids.contains(
                crate::ingest_laws::named(s[i]),
            ) {
            let i = choose|i: int|
                0 <= i < s.len() && (#[trigger] s[i])@ == r && !ids.contains(
                    crate::ingest_laws::named(s[i]),
                );
            if i < t.len() {
                assert(t[i] == s[i]);
            } else {
                assert(all[all.len() - 1] == r);
            }
        }
    }
}

// ---------------------------------------------------------------------------
// Symbols
// ---------------------------------------------------------------------------

proof fn lemma_completeness(
    table: Seq<(Seq<char>, Seq<char>)>,
    path: Seq<char>,
    n: int,
    i: int,
)
    requires
        0 <= n <= table.len(),
        0 <= i < table.len() ==> n <= i && table[i].0 == path && forall|k: int|
            0 <= k < i ==> (#[trigger] table[k]).0 != path,
        !(0 <= i < table.len()) ==> forall|k: int|
            0 <= k < table.len() ==> (#[trigger] table[k]).0 != path,
    ensures
        0 <= i < table.len() ==> crate::symbol_results::completeness_from(table, path, n)
            == table[i].1,
        !(0 <= i < table.len()) ==> crate::symbol_results::completeness_from(table, path, n)
            == "complete"@,
    decreases table.len() - n,
{
    if n < table.len() && n != i {
        assert(table[n].0 != path);
        lemma_completeness(table, path, n + 1, i);
    }
}

/// How completely a file was read is what the first entry of the table for its path says; a file
/// without an entry, and what lies in no file, was read completely.
pub proof fn law_how_completely_a_file_was_read(
    table: Seq<(Seq<char>, Seq<char>)>,
    path: Seq<char>,
    i: int,
)
    requires
        0 <= i < table.len() ==> table[i].0 == path && forall|k: int|
            0 <= k < i ==> (#[trigger] table[k]).0 != path,
        !(0 <= i < table.len()) ==> forall|k: int|
            0 <= k < table.len() ==> (#[trigger] table[k]).0 != path,
    ensures
        0 <= i < table.len() ==> completeness_of(table, Some(path)) == table[i].1,
        !(0 <= i < table.len()) ==> completeness_of(table, Some(path)) == "complete"@,
        completeness_of(table, None) == "complete"@,
{
    lemma_completeness(table, path, 0, i);
}

/// The text of a symbol names it, where it lies and how it was read, and then on lines of their own
/// what is known of it.
pub proof fn law_text_of_a_symbol(r: SymbolResultView)
    requires
        r.repo_relative_path is Some,
        r.span is Some,
        r.freshness is None,
    ensures
        ({
            let head = r.name + " (Symbol) @ "@ + r.repo_relative_path->0 + ":"@ + decimal_seq(
                r.span->0.start_line as nat,
            );
            let read = " (extraction: "@ + r.extraction_completeness + ")"@;
            &&& r.git_commit is None && r.visibility is None && r.signature is None && r.doc is None
                ==> symbol_text(r) == head + read
            &&& r.git_commit is Some && r.visibility is Some && r.signature is Some && r.doc is Some
                ==> symbol_text(r) == head + " ["@ + r.git_commit->0 + "]"@ + read
                + "\n  visibility: "@ + r.visibility->0 + "\n  signature: "@ + r.signature->0
                + "\n  doc: "@ + r.doc->0
        }),
{
    reveal_strlit("");
    assert(""@ =~= Seq::<char>::empty());
    let head = r.name + " (Symbol) @ "@ + r.repo_relative_path->0 + ":"@ + decimal_seq(
        r.span->0.start_line as nat,
    );
    let read = " (extraction: "@ + r.extraction_completeness + ")"@;
    if r.git_commit is None && r.visibility is None && r.signature is None && r.doc is None {
        assert(symbol_text(r) =~= head + read);
    }
    if r.git_commit is Some && r.visibility is Some && r.signature is Some && r.doc is Some {
        assert(symbol_text(r) =~= head + " ["@ + r.git_commit->0 + "]"@ + read
            + "\n  visibility: "@ + r.visibility->0 + "\n  signature: "@ + r.signature->0
            + "\n  doc: "@ + r.doc->0);
    }
}

/// The text on who changed a symbol names the symbol, the author, the commit and its time.
pub proof fn law_text_of_who_changed_it(w: WhoResult)
    requires
        w.repo_relative_path is Some,
        w.freshness is None,
    ensures
        ({
            let tail = " in commit "@ + w.commit_sha@ + " @ "@ + w.valid_time@ + " ("@
                + w.repo_relative_path->0@ + ")"@ + "\ncorpus: "@ + w.corpus_mode@;
            let head = w.symbol_name@ + " last changed by "@;
            &&& w.author_name is Some && w.author_email is Some ==> who_text(w) == head
                + w.author_name->0@ + " <"@ + w.author_email->0@ + ">"@ + tail
            &&& w.author_name is Some && w.author_email is None ==> who_text(w) == head
                + w.author_name->0@ + tail
            &&& w.author_name is None && w.author_email is Some ==> who_text(w) == head + "<"@
                + w.author_email->0@ + ">"@ + tail
            &&& w.author_name is None && w.author_email is None ==> who_text(w) == head
                + "unknown"@ + tail
        }),
{
    reveal_strlit("");
    assert(""@ =~= Seq::<char>::empty());
    let tail = " in commit "@ + w.commit_sha@ + " @ "@ + w.valid_time@ + " ("@
        + w.repo_relative_path->0@ + ")"@ + "\ncorpus: "@ + w.corpus_mode@;
    let head = w.symbol_name@ + " last changed by "@;
    let who = author_text(opt_view(w.author_name), opt_view(w.author_email));
    assert(who_text(w) =~= head + who + tail);
    if w.author_name is Some && w.author_email is Some {
        assert(head + who + tail =~= head + w.author_name->0@ + " <"@ + w.author_email->0@ + ">"@
            + tail);
    }
    if w.author_name is None && w.author_email is Some {
        assert(head + who + tail =~= head + "<"@ + w.author_email->0@ + ">"@ + tail);
    }
}

// ---------------------------------------------------------------------------
// Subsystems
// ---------------------------------------------------------------------------

proof fn lemma_label(
    labels: Seq<(Seq<char>, Seq<char>)>,
    id: Seq<char>,
    n: int,
    i: int,
)
    requires
        0 <= n <= labels.len(),
        0 <= i < labels.len() ==> n <= i && labels[i].0 == id && forall|k: int|
            0 <= k < i ==> (#[trigger] labels[k]).0 != id,
        !(0 <= i < labels.len()) ==> forall|k: int|
            0 <= k < labels.len() ==> (#[trigger] labels[k]).0 != id,
    ensures
        0 <= i < labels.len() ==> crate::subsystem::label_from(labels, id, n) == labels[i].1,
        !(0 <= i < labels.len()) ==> crate::subsystem::label_from(labels, id, n)
            == "source_derived"@,
    decreases labels.len() - n,
{
    if n < labels.len() && n != i {
        assert(labels[n].0 != id);
        lemma_label(labels, id, n + 1, i);
    }
}

/// Whether the `k`-th record is the signature of an error under the identifier.
pub open spec fn is_signature(s: Seq<GraphRecord>, k: int, id: Seq<char>) -> bool {
    &&& 0 <= k < s.len()
    &&& s[k] is Node && s[k]->Node_0.kind == NodeKind::ErrorSignature && s[k]->Node_0.id@ == id
}

/// A signature of an error that the store holds is trusted as the first label for it says; any
/// other as derived from the source. Its row tells of it, and of times only where they are known.
pub proof fn law_rows_of_signatures(
    s: Seq<GraphRecord>,
    labels: Seq<(Seq<char>, Seq<char>)>,
    g: LogSignatureView,
    i: int,
)
    requires
        0 <= i < labels.len() ==> labels[i].0 == g.record_id && forall|k: int|
            0 <= k < i ==> (#[trigger] labels[k]).0 != g.record_id,
        !(0 <= i < labels.len()) ==> forall|k: int|
            0 <= k < labels.len() ==> (#[trigger] labels[k]).0 != g.record_id,
    ensures
        ({
            let row = signature_row(s, labels, g);
            let held = exists|k: int| #[trigger] is_signature(s, k, g.record_id);
            &&& held && 0 <= i < labels.len() ==> row.trust == labels[i].1
            &&& !held || !(0 <= i < labels.len()) ==> row.trust == "source_derived"@
            &&& row.record_id == g.record_id && row.kind == "ErrorSignature"@
            &&& row.trust_class == "runtime_observation"@
            &&& row.severity == g.severity && row.occurrence_count == g.occurrence_count
            &&& row.template_excerpt == g.template_excerpt
            &&& row.schema_version == g.schema_version
            &&& row.resolved_frames == g.in_prefix_frames
            &&& g.first_seen.len() > 0 ==> row.first_seen_valid_time == Some(g.first_seen)
            &&& g.first_seen.len() == 0 ==> row.first_seen_valid_time is None
            &&& g.last_seen.len() > 0 ==> row.last_seen_valid_time == Some(g.last_seen)
            &&& g.last_seen.len() == 0 ==> row.last_seen_valid_time is None
        }),
{
    lemma_label(labels, g.record_id, 0, i);
    if crate::subsystem::has_signature(s, s.len() as int, g.record_id) {
        let k = choose|k: int|
            0 <= k < s.len() && (#[trigger] s[k]) is Node && s[k]->Node_0.kind
                == NodeKind::ErrorSignature && s[k]->Node_0.id@ == g.record_id;
        assert(is_signature(s, k, g.record_id));
    }
    if exists|k: int| #[trigger] is_signature(s, k, g.record_id) {
        let k = choose|k: int| #[trigger] is_signature(s, k, g.record_id);
        assert(s[k] is Node);
        assert(crate::subsystem::has_signature(s, s.len() as int, g.record_id));
    }
}

/// The topology of a subsystem has one row for each of its edges, in their order, and no other.
pub proof fn law_one_row_for_each_edge(s: Seq<GraphRecord>, n: int)
    requires
        0 <= n < s.len(),
    ensures
        topology_upto(s, 0).len() == 0,
        s[n] is Edge ==> topology_upto(s, n + 1) == topology_upto(s, n).push(
            topology_row(s[n]->Edge_0),
        ),
        !(s[n] is Edge) ==> topology_upto(s, n + 1) == topology_upto(s, n),
{
}

} // verus!
