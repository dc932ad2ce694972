//! What a write compares, refuses and answers, and what a query and a session keep, said of what
//! goes in.

use vstd::prelude::*;

use crate::codex_events::{
    grouping_step, CodexEvent, CodexFunctionCallOutput, CodexInterrupted, GroupingView,
};
use crate::collections::lemma_sorted_by;
use crate::ingest_laws::named;
use crate::ir::{EdgeView, GraphRecord};
use crate::outside::{json_str_of, json_valid_of};
use crate::queries::{
    by_name, domain_records, lemma_name_order, name_before, query_outcome, ParamsShape,
    QueryVerbRequest, SymbolRowView,
};
use crate::scan::{blank, char_is_whitespace};
use crate::text::{has_prefix, lex_lt};
use crate::write::{
    begin_outcome, first_clash, foreign_ids, step_outcome, EntryView, RecordState, WriteCommand,
    WriteEvent, WriteState,
};

verus! {

// ---------------------------------------------------------------------------
// Writes
// ---------------------------------------------------------------------------

/// Whether a record of the batch has the identifier.
pub open spec fn brought(s: Seq<GraphRecord>, id: Seq<char>) -> bool {
    exists|i: int| 0 <= i < s.len() && named(#[trigger] s[i]) == id
}

proof fn lemma_brought(s: Seq<GraphRecord>, id: Seq<char>)
    ensures
        crate::write::submitted(s, id) <==> brought(s, id),
{
    if crate::write::submitted(s, id) {
        let i = choose|i: int| 0 <= i < s.len() && crate::ir::record_id(#[trigger] s[i]) == id;
        assert(named(s[i]) == id);
    }
    if brought(s, id) {
        let i = choose|i: int| 0 <= i < s.len() && named(#[trigger] s[i]) == id;
        assert(crate::ir::record_id(s[i]) == id);
    }
}

proof fn lemma_foreign(s: Seq<GraphRecord>, ids: Seq<Seq<char>>, id: Seq<char>)
    ensures
        foreign_ids(s, ids).contains(id) <==> ids.contains(id) && !brought(s, id),
    decreases ids.len(),
{
    if ids.len() > 0 {
        let t = ids.drop_last();
        lemma_foreign(s, t, id);
        lemma_brought(s, ids.last());
        let all = foreign_ids(s, ids);
        let before = foreign_ids(s, t);
        assert(ids[ids.len() - 1] == ids.last());
        if t.contains(id) {
            let k = choose|k: int| 0 <= k < t.len() && t[k] == id;
            assert(ids[k] == id);
        }
        if ids.contains(id) {
            let k = choose|k: int| 0 <= k < ids.len() && ids[k] == id;
            if k < t.len() {
                assert(t[k] == id);
            }
        }
        if before.contains(id) {
            let k = choose|k: int| 0 <= k < before.len() && before[k] == id;
            assert(all[k] == id);
        }
        if all.contains(id) {
            let k = choose|k: int| 0 <= k < all.len() && all[k] == id;
            if k < before.len() {
                assert(before[k] == id);
            }
        }
        if !brought(s, ids.last()) {
            assert(all[all.len() - 1] == ids.last());
        }
    }
}

/// A write that was begun before is compared first; what the write was to leave beyond the records
/// of the batch is read back, and nothing else.
pub proof fn law_what_is_read_back(c: WriteCommand, e: EntryView, id: Seq<char>)
    requires
        crate::ingest_rules::recovery_key_error(c.records@, c.payloads@) is None,
        e is Pending,
        e->Pending_payload_hash == c.payload_hash@,
    ensures
        ({
            let a = begin_outcome(c, Some(e)).1;
            &&& a is CompareBatch
            &&& a->read_back.contains(id) <==> e->Pending_record_ids.contains(id) && !brought(
                c.records@,
                id,
            )
        }),
{
    lemma_foreign(c.records@, e->Pending_record_ids, id);
}

/// An edge that was made from a link clashes where a record of the batch has its identifier; the
/// first that does is named.
pub proof fn law_which_edge_clashes(s: Seq<GraphRecord>, es: Seq<EdgeView>, i: int)
    ensures
        first_clash(s, es) is Some <==> exists|k: int|
            0 <= k < es.len() && brought(s, (#[trigger] es[k]).id),
        0 <= i < es.len() && brought(s, es[i].id) && (forall|k: int|
            0 <= k < i ==> !brought(s, (#[trigger] es[k]).id)) ==> first_clash(s, es) == Some(
            es[i].id,
        ),
    decreases es.len(),
{
    if es.len() > 0 {
        let t = es.drop_first();
        lemma_brought(s, es[0].id);
        law_which_edge_clashes(s, t, i - 1);
        if exists|k: int| 0 <= k < t.len() && brought(s, (#[trigger] t[k]).id) {
            let k = choose|k: int| 0 <= k < t.len() && brought(s, (#[trigger] t[k]).id);
            assert(es[k + 1] == t[k]);
        }
        if exists|k: int| 0 <= k < es.len() && brought(s, (#[trigger] es[k]).id) {
            let k = choose|k: int| 0 <= k < es.len() && brought(s, (#[trigger] es[k]).id);
            if k > 0 {
                assert(t[k - 1] == es[k]);
            }
        }
        if 0 < i < es.len() && brought(s, es[i].id) && (forall|k: int|
            0 <= k < i ==> !brought(s, (#[trigger] es[k]).id)) {
            assert(t[i - 1] == es[i]);
            assert(!brought(s, es[0].id));
            assert forall|k: int| 0 <= k < i - 1 implies !brought(s, (#[trigger] t[k]).id) by {
                assert(t[k] == es[k + 1]);
            }
        }
    }
}

/// A write that the store is found to hold whole is answered as one that succeeded in full: with
/// every identifier, as many as were attempted, and no failure.
pub proof fn law_whole_writes_succeeded(
    c: WriteCommand,
    pending: Vec<String>,
    states: Vec<RecordState>,
    present: Vec<bool>,
)
    requires
        states@.len() == c.records@.len(),
        forall|i: int| 0 <= i < states@.len() ==> (#[trigger] states@[i]) is Matched,
        present@.len() == foreign_ids(c.records@, crate::text::views(pending@)).len(),
        forall|i: int| 0 <= i < present@.len() ==> #[trigger] present@[i],
        pending@.len() <= usize::MAX,
    ensures
        ({
            let r = step_outcome(
                c,
                WriteState::Recovering { pending_ids: pending },
                WriteEvent::BatchCompared { states, present },
            );
            let s = r->0;
            let a = s.0->Completing_answer;
            &&& r is Some && s.0 is Completing && s.1 is Save
            &&& a.attempted == pending@.len() && a.succeeded == pending@.len() && a.failed == 0
            &&& a.failures.len() == 0 && a.idempotent
            &&& a.record_ids == crate::text::views(pending@)
        }),
{
}

// ---------------------------------------------------------------------------
// Queries
// ---------------------------------------------------------------------------

/// Whether the field is given and holds more than white space.
pub open spec fn said(f: Option<String>) -> bool {
    f is Some && exists|i: int| 0 <= i < f->0@.len() && !char_is_whitespace(#[trigger] f->0@[i])
}

/// A query is refused without an identifier or a verb, where either is blank too; so is one whose
/// parameters are no object. One that says both, and asks for nothing special, is not.
pub proof fn law_queries_must_say_what_they_ask(q: QueryVerbRequest)
    ensures
        !said(q.request_id) ==> query_outcome(q) is Err,
        !said(q.verb) ==> query_outcome(q) is Err,
        q.params == ParamsShape::Other ==> query_outcome(q) is Err,
        said(q.request_id) && said(q.verb) && q.as_of is None && q.domain is None && q.budget is None
            && q.params != ParamsShape::Other && crate::queries::verb_outcome(q.verb->0@) is Ok
            ==> query_outcome(q) is Ok,
{
    assert(q.verb is Some ==> (blank(q.verb->0@) <==> !said(q.verb)));
    assert(q.request_id is Some ==> (blank(q.request_id->0@) <==> !said(q.request_id)));
}

/// A query of a domain reads the records whose identifiers begin as those of the domain do, and no
/// others.
pub proof fn law_records_of_a_domain(s: Seq<GraphRecord>, r: GraphRecord)
    ensures
        domain_records(s, "codegraph"@).contains(r) <==> s.contains(r) && has_prefix(
            named(r),
            "codegraph:"@,
        ),
        domain_records(s, "agent_memory"@).contains(r) <==> s.contains(r) && has_prefix(
            named(r),
            "agent_memory:v1:"@,
        ),
        domain_records(s, "verification"@).contains(r) <==> s.contains(r) && has_prefix(
            named(r),
            "verification:v1:"@,
        ),
{
    crate::query_laws::law_domains_keep_their_identifiers(named(r));
    assert(crate::ir::record_id(r) == named(r));
    lemma_domain(s, "codegraph"@, r);
    lemma_domain(s, "agent_memory"@, r);
    lemma_domain(s, "verification"@, r);
}

proof fn lemma_domain(s: Seq<GraphRecord>, d: Seq<char>, r: GraphRecord)
    ensures
        domain_records(s, d).contains(r) <==> s.contains(r)
            && crate::evidence_edges::id_matches_domain(crate::ir::record_id(r), d),
    decreases s.len(),
{
    reveal(Seq::filter);
    let p = |x: GraphRecord| crate::evidence_edges::id_matches_domain(crate::ir::record_id(x), d);
    if s.len() > 0 {
        let t = s.drop_last();
        lemma_domain(t, d, r);
        let all = s.filter(p);
        let before = t.filter(p);
        assert(domain_records(t, d) == before);
        assert(domain_records(s, d) == all);
        assert(s[s.len() - 1] == s.last());
        if t.contains(r) {
            let k = choose|k: int| 0 <= k < t.len() && t[k] == r;
            assert(s[k] == r);
        }
        if s.contains(r) {
            let k = choose|k: int| 0 <= k < s.len() && s[k] == r;
            if k < t.len() {
                assert(t[k] == r);
            }
        }
        if before.contains(r) {
            let k = choose|k: int| 0 <= k < before.len() && before[k] == r;
            assert(all[k] == r);
        }
        if all.contains(r) {
            let k = choose|k: int| 0 <= k < all.len() && all[k] == r;
            if k < before.len() {
                assert(before[k] == r);
            }
        }
        if p(s.last()) {
            assert(all[all.len() - 1] == s.last());
        }
    }
}

/// Rows by name go by their names.
pub proof fn law_rows_go_by_name(rows: Seq<SymbolRowView>, i: int, j: int)
    requires
        0 <= i < j < by_name(rows).len(),
    ensures
        !lex_lt(by_name(rows)[j].name, by_name(rows)[i].name),
{
    let lt = |a: SymbolRowView, b: SymbolRowView| name_before(a, b);
    lemma_name_order();
    lemma_sorted_by(rows, lt);
    let all = by_name(rows);
    assert(!lt(all[j], all[i]));
}

// ---------------------------------------------------------------------------
// Sessions
// ---------------------------------------------------------------------------

/// An interruption is kept behind those before it; what is no event that is known is noted by its
/// line, and an output that no call is open for too.
pub proof fn law_what_else_a_session_keeps(
    g: GroupingView,
    line: usize,
    i: CodexInterrupted,
    o: CodexFunctionCallOutput,
)
    ensures
        ({
            let after = grouping_step(g, line, CodexEvent::Interrupted(i));
            &&& after.done.interruptions == g.done.interruptions.push(i)
            &&& after.done.turns == g.done.turns && after.current == g.current && after.pending
                == g.pending
        }),
        ({
            let after = grouping_step(g, line, CodexEvent::Unknown);
            &&& after.done.unknown_indices == g.done.unknown_indices.push(line)
            &&& after.done.turns == g.done.turns && after.current == g.current
        }),
        g.pending is None ==> {
            let after = grouping_step(g, line, CodexEvent::FunctionCallOutput(o));
            &&& after.done.unknown_indices == g.done.unknown_indices.push(line)
            &&& after.done.turns == g.done.turns && after.current == g.current
        },
{
}

/// A call wrote to an output only what is not empty.
pub proof fn law_empty_outputs_are_none(raw: Seq<char>)
    requires
        json_valid_of(raw),
    ensures
        ({
            let p = crate::codex_events::parsed_output(raw);
            let o = json_str_of(raw, "stdout"@);
            let e = json_str_of(raw, "stderr"@);
            &&& o is None || o->0.len() == 0 ==> p.stdout is None
            &&& e is None || e->0.len() == 0 ==> p.stderr is None
            &&& o is Some && o->0.len() > 0 ==> p.stdout == o
            &&& e is Some && e->0.len() > 0 ==> p.stderr == e
        }),
{
}

} // verus!
