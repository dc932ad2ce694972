//! What the lines and bodies of answers say, said of what they are made from.

use vstd::prelude::*;

use crate::api_error::{ErrorCode, ErrorView};
use crate::coverage_query::{
    covered_line, doc_capability, uncovered_line, verification_capability, CoverageEvidence,
    CoverageItem,
};
use crate::freshness_query::{
    citation_line, counts_line, freshness_lines, note_line, CitationVerdict, CitationView,
    NoteView, VerdictCounts,
};
use crate::inventories::{inventory_lines, site_line, SiteLane, SiteRowView};
use crate::maintenance::{validation_line, ValidationCounts};
use crate::outside::json_text_of;
use crate::reach::{
    constructor_line, head_line, report_lines, row_line, unresolved_line, ConstructorRow,
    LeadRowView, Truncation, UnresolvedRowView, Verb,
};
use crate::responses::{
    error_body, health_body, query_result, queued_result, status_body, success_body,
};
use crate::text::decimal_seq;

verus! {

// ---------------------------------------------------------------------------
// Reach
// ---------------------------------------------------------------------------

/// The line of what was reached names it, where it lies, how far off it is and the way to it; that
/// of what was not followed the relation, what it leads to and why.
pub proof fn law_lines_of_reach(
    verb: Verb,
    target: Seq<char>,
    name: Option<Seq<char>>,
    rows: Seq<LeadRowView>,
    row: LeadRowView,
    u: UnresolvedRowView,
)
    ensures
        ({
            let way = " hop="@ + decimal_seq(row.hop as nat) + " via "@ + crate::reach::chain_text(
                verb,
                target,
                name,
                rows,
                row.path,
            );
            let line = row_line(verb, target, name, rows, row);
            let no = unresolved_line(u);
            &&& row.name is Some && row.repo_relative_path is Some && row.span is Some
                && row.path_resolution is Some ==> line == row.name->0 + " "@
                + row.repo_relative_path->0 + ":"@ + decimal_seq(row.span->0.start_line as nat)
                + way + " [resolution="@ + row.path_resolution->0 + "]"@
            &&& row.name is None && row.repo_relative_path is None && row.path_resolution is None
                ==> line == "?"@ + way
            &&& u.name is Some && u.repo_relative_path is Some && u.span is Some ==> no
                == "unresolved "@ + u.relation + " "@ + u.name->0 + " "@ + u.repo_relative_path->0
                + ":"@ + decimal_seq(u.span->0.start_line as nat) + " ("@ + u.reason + ")"@
            &&& u.name is None && u.repo_relative_path is None ==> no == "unresolved "@ + u.relation
                + " "@ + u.target_record_id + " ("@ + u.reason + ")"@
        }),
{
    reveal_strlit("");
    assert(""@ =~= Seq::<char>::empty());
    let way = " hop="@ + decimal_seq(row.hop as nat) + " via "@ + crate::reach::chain_text(
        verb,
        target,
        name,
        rows,
        row.path,
    );
    let line = row_line(verb, target, name, rows, row);
    let no = unresolved_line(u);
    if row.name is Some && row.repo_relative_path is Some && row.span is Some
        && row.path_resolution is Some {
        assert(line =~= row.name->0 + " "@ + row.repo_relative_path->0 + ":"@ + decimal_seq(
            row.span->0.start_line as nat,
        ) + way + " [resolution="@ + row.path_resolution->0 + "]"@);
    }
    if row.name is None && row.repo_relative_path is None && row.path_resolution is None {
        assert(line =~= "?"@ + way);
    }
    if u.name is Some && u.repo_relative_path is Some && u.span is Some {
        assert(no =~= "unresolved "@ + u.relation + " "@ + u.name->0 + " "@
            + u.repo_relative_path->0 + ":"@ + decimal_seq(u.span->0.start_line as nat) + " ("@
            + u.reason + ")"@);
    }
    if u.name is None && u.repo_relative_path is None {
        assert(no =~= "unresolved "@ + u.relation + " "@ + u.target_record_id + " ("@ + u.reason
            + ")"@);
    }
}

/// A report of reach has a line at its head, one for each row, one for each that was not followed,
/// in that order, and one at its end where it was cut short.
pub proof fn law_report_has_a_line_for_each(
    verb: Verb,
    target: Seq<char>,
    name: Option<Seq<char>>,
    depth: usize,
    rows: Seq<LeadRowView>,
    un: Seq<UnresolvedRowView>,
    cut: Option<Truncation>,
    i: int,
)
    ensures
        ({
            let all = report_lines(verb, target, name, depth, rows, un, cut);
            let end = if cut is Some {
                1int
            } else {
                0int
            };
            &&& all.len() == 1 + rows.len() + un.len() + end
            &&& all[0] == head_line(verb, target, name, depth, rows.len(), un.len())
            &&& 0 <= i < rows.len() ==> all[1 + i] == row_line(verb, target, name, rows, rows[i])
            &&& 0 <= i < un.len() ==> all[1 + rows.len() + i] == unresolved_line(un[i])
            &&& cut is Some ==> all.last() == "truncated at max_depth="@ + decimal_seq(
                cut->0.max_depth as nat,
            ) + ": "@ + decimal_seq(cut->0.dropped_total as nat)
                + " reachable node(s) beyond the bound"@
        }),
{
    lemma_rows(verb, target, name, rows, rows.len() as int);
    lemma_unresolved(un, un.len() as int);
    let a = crate::reach::row_lines(verb, target, name, rows, rows.len() as int);
    let b = crate::reach::unresolved_lines(un, un.len() as int);
    let all = report_lines(verb, target, name, depth, rows, un, cut);
    if 0 <= i < rows.len() {
        assert(all[1 + i] == a[i]);
    }
    if 0 <= i < un.len() {
        assert(all[1 + rows.len() + i] == b[i]);
    }
}

proof fn lemma_rows(
    verb: Verb,
    target: Seq<char>,
    name: Option<Seq<char>>,
    rows: Seq<LeadRowView>,
    n: int,
)
    requires
        0 <= n <= rows.len(),
    ensures
        crate::reach::row_lines(verb, target, name, rows, n).len() == n,
        forall|i: int|
            0 <= i < n ==> #[trigger] crate::reach::row_lines(verb, target, name, rows, n)[i]
                == row_line(verb, target, name, rows, rows[i]),
    decreases n,
{
    if n > 0 {
        lemma_rows(verb, target, name, rows, n - 1);
    }
}

proof fn lemma_unresolved(un: Seq<UnresolvedRowView>, n: int)
    requires
        0 <= n <= un.len(),
    ensures
        crate::reach::unresolved_lines(un, n).len() == n,
        forall|i: int|
            0 <= i < n ==> #[trigger] crate::reach::unresolved_lines(un, n)[i] == unresolved_line(
                un[i],
            ),
    decreases n,
{
    if n > 0 {
        lemma_unresolved(un, n - 1);
    }
}

/// The line at the head says whose callers or callees are told, how far they were followed and how
/// many there are.
pub proof fn law_head_of_a_report(
    target: Seq<char>,
    name: Seq<char>,
    depth: usize,
    total: nat,
    unresolved: nat,
)
    ensures
        head_line(Verb::TransitiveCallers, target, Some(name), depth, total, unresolved)
            == "transitive callers of "@ + name + " ("@ + target + ") max_depth="@ + decimal_seq(
            depth as nat,
        ) + " total="@ + decimal_seq(total) + " — reachability leads, not proof of breakage"@,
        head_line(Verb::TransitiveCallees, target, Some(name), depth, total, unresolved)
            == "transitive callees of "@ + name + " ("@ + target + ") max_depth="@ + decimal_seq(
            depth as nat,
        ) + " total="@ + decimal_seq(total) + " unresolved="@ + decimal_seq(unresolved)
            + " — reachability leads, not proof of breakage"@,
{
}

/// The line of a construction says where it is and whether a new field would break it.
pub proof fn law_line_of_a_construction(row: ConstructorRow)
    requires
        row.name is Some,
        row.repo_relative_path is Some,
        row.span is Some,
    ensures
        ({
            let place = "  "@ + row.name->0@ + " "@ + row.repo_relative_path->0@ + ":"@
                + decimal_seq(row.span->0.start_line as nat);
            &&& row.e0063_risk ==> constructor_line(row) == place + "  [e0063_risk]"@
            &&& !row.e0063_risk ==> constructor_line(row) == place + "  [fru_safe]"@
        }),
{
    reveal_strlit("  [");
    reveal_strlit("]");
    reveal_strlit("e0063_risk");
    reveal_strlit("fru_safe");
    reveal_strlit("  [e0063_risk]");
    reveal_strlit("  [fru_safe]");
    let place = "  "@ + row.name->0@ + " "@ + row.repo_relative_path->0@ + ":"@ + decimal_seq(
        row.span->0.start_line as nat,
    );
    assert("  [e0063_risk]"@ =~= "  ["@ + "e0063_risk"@ + "]"@);
    assert("  [fru_safe]"@ =~= "  ["@ + "fru_safe"@ + "]"@);
    if row.e0063_risk {
        assert(constructor_line(row) =~= place + ("  ["@ + "e0063_risk"@ + "]"@));
    } else {
        assert(constructor_line(row) =~= place + ("  ["@ + "fru_safe"@ + "]"@));
    }
}

// ---------------------------------------------------------------------------
// Inventories, coverage and freshness
// ---------------------------------------------------------------------------

/// The line of a site names its category, where it lies and what it is in; what lies in no symbol
/// is at the top level.
pub proof fn law_lines_of_sites(row: SiteRowView)
    requires
        row.repo_relative_path is Some,
        row.span is Some,
    ensures
        ({
            let place = " @ "@ + row.repo_relative_path->0 + ":"@ + decimal_seq(
                row.span->0.start_line as nat,
            ) + " in "@;
            &&& row.enclosing_symbol is None ==> site_line(SiteLane::UnsafeSites, row) == "unsafe "@
                + row.category + place + "(top-level)"@
            &&& row.enclosing_symbol is Some && row.enclosing_symbol->0.name is Some ==> site_line(
                SiteLane::UnsafeSites,
                row,
            ) == "unsafe "@ + row.category + place + row.enclosing_symbol->0.name->0
            &&& row.context is Some && row.enclosing_symbol is None ==> site_line(
                SiteLane::UnwrapExpect,
                row,
            ) == row.category + " ("@ + row.context->0 + ")"@ + place + "(top-level)"@
        }),
{
    let place = " @ "@ + row.repo_relative_path->0 + ":"@ + decimal_seq(
        row.span->0.start_line as nat,
    ) + " in "@;
    if row.enclosing_symbol is None {
        assert(site_line(SiteLane::UnsafeSites, row) =~= "unsafe "@ + row.category + place
            + "(top-level)"@);
        if row.context is Some {
            assert(site_line(SiteLane::UnwrapExpect, row) =~= row.category + " ("@ + row.context->0
                + ")"@ + place + "(top-level)"@);
        }
    } else if row.enclosing_symbol->0.name is Some {
        assert(site_line(SiteLane::UnsafeSites, row) =~= "unsafe "@ + row.category + place
            + row.enclosing_symbol->0.name->0);
    }
}

/// An inventory has one line for each of its sites, in their order, and one that says so where there
/// are none.
pub proof fn law_inventory_has_a_line_for_each(lane: SiteLane, rows: Seq<SiteRowView>, i: int)
    ensures
        rows.len() == 0 ==> inventory_lines(lane, rows).len() == 1,
        rows.len() > 0 ==> inventory_lines(lane, rows).len() == rows.len(),
        0 <= i < rows.len() ==> inventory_lines(lane, rows)[i] == site_line(lane, rows[i]),
{
    lemma_sites(lane, rows, rows.len() as int);
}

proof fn lemma_sites(lane: SiteLane, rows: Seq<SiteRowView>, n: int)
    requires
        0 <= n <= rows.len(),
    ensures
        crate::inventories::site_lines(lane, rows, n).len() == n,
        forall|i: int|
            0 <= i < n ==> #[trigger] crate::inventories::site_lines(lane, rows, n)[i] == site_line(
                lane,
                rows[i],
            ),
    decreases n,
{
    if n > 0 {
        lemma_sites(lane, rows, n - 1);
    }
}

/// The line of an item that is covered names the evidence; that of one that is not names its record.
pub proof fn law_lines_of_coverage(x: CoverageItem, e: CoverageEvidence)
    requires
        x.repo_relative_path is Some,
        x.span is Some,
    ensures
        ({
            let item = "- "@ + x.path@ + " ["@ + x.kind@ + "]"@ + " @ "@
                + x.repo_relative_path->0@ + ":"@ + decimal_seq(x.span->0.start_line as nat) + "-"@
                + decimal_seq(x.span->0.end_line as nat);
            &&& covered_line(x, e) == item + " via "@ + e.edge_label@ + "("@ + e.link_level@
                + ") <- "@ + e.record_id@ + " ["@ + e.verification_kind@ + "]"@
            &&& uncovered_line(x) == item + " ("@ + x.record_id@ + ")"@
        }),
        verification_capability(true) == "verification_links_recorded"@,
        verification_capability(false) == "verification_facts_unavailable"@,
        doc_capability(true) == "doc_facts_unavailable"@,
        doc_capability(false) == "doc_facts_recorded"@,
{
    let item = "- "@ + x.path@ + " ["@ + x.kind@ + "]"@ + " @ "@ + x.repo_relative_path->0@ + ":"@
        + decimal_seq(x.span->0.start_line as nat) + "-"@ + decimal_seq(
        x.span->0.end_line as nat,
    );
    assert(covered_line(x, e) =~= item + " via "@ + e.edge_label@ + "("@ + e.link_level@ + ") <- "@
        + e.record_id@ + " ["@ + e.verification_kind@ + "]"@);
    assert(uncovered_line(x) =~= item + " ("@ + x.record_id@ + ")"@);
}

/// The line of a citation names the verification, its kind and status, the verdict and what it
/// cites; the counts are told each under its verdict.
pub proof fn law_lines_of_freshness(e: CitationView, c: VerdictCounts, n: NoteView)
    ensures
        e.status is Some && e.repo_relative_path is Some && e.verdict == CitationVerdict::Stale
            ==> citation_line(e) == "- "@ + e.verification_record_id + " ["@ + e.verification_kind
            + "] status="@ + e.status->0 + " verdict="@ + "stale"@ + " <- "@ + e.relation + "("@
            + e.repo_relative_path->0 + ")"@,
        e.status is None && e.repo_relative_path is None && e.verdict == CitationVerdict::Current
            ==> citation_line(e) == "- "@ + e.verification_record_id + " ["@ + e.verification_kind
            + "] status="@ + "?"@ + " verdict="@ + "current"@ + " <- "@ + e.relation + "("@ + "?"@
            + ")"@,
        counts_line(c) == "counts: current="@ + decimal_seq(c.current as nat) + " stale="@
            + decimal_seq(c.stale as nat) + " unresolved="@ + decimal_seq(c.unresolved as nat)
            + " unanchored="@ + decimal_seq(c.unanchored as nat),
        note_line(n) == "diagnostic: "@ + n.code + ": "@ + n.detail,
{
}

/// A report on freshness has a line at its head, one for each citation, one with the counts and one
/// for each note.
pub proof fn law_freshness_has_a_line_for_each(
    es: Seq<CitationView>,
    c: VerdictCounts,
    notes: Seq<NoteView>,
    i: int,
)
    ensures
        ({
            let all = freshness_lines(es, c, notes);
            &&& all.len() == es.len() + notes.len() + 2
            &&& 0 <= i < es.len() ==> all[1 + i] == citation_line(es[i])
            &&& all[1 + es.len() as int] == counts_line(c)
            &&& 0 <= i < notes.len() ==> all[2 + es.len() + i] == note_line(notes[i])
        }),
{
}

/// The line of a validation tells how many records there are of each kind and how many defects,
/// one in the singular.
pub proof fn law_line_of_a_validation(c: ValidationCounts)
    ensures
        ({
            let head = "validated "@ + decimal_seq(c.records as nat) + " records ("@ + decimal_seq(
                c.nodes as nat,
            ) + " nodes, "@ + decimal_seq(c.edges as nat) + " edges, "@ + decimal_seq(
                c.tombstones as nat,
            ) + " tombstones): "@ + decimal_seq(c.defects as nat);
            &&& c.defects == 1 ==> validation_line(c) == head + " defect"@
            &&& c.defects != 1 ==> validation_line(c) == head + " defects"@
        }),
{
    reveal_strlit("");
    reveal_strlit("s");
    reveal_strlit(" defect");
    reveal_strlit(" defects");
    let head = "validated "@ + decimal_seq(c.records as nat) + " records ("@ + decimal_seq(
        c.nodes as nat,
    ) + " nodes, "@ + decimal_seq(c.edges as nat) + " edges, "@ + decimal_seq(c.tombstones as nat)
        + " tombstones): "@ + decimal_seq(c.defects as nat);
    assert(" defects"@ =~= " defect"@ + "s"@);
    if c.defects == 1 {
        assert(validation_line(c) =~= head + " defect"@);
    } else {
        assert(validation_line(c) =~= head + (" defect"@ + "s"@));
    }
}

// ---------------------------------------------------------------------------
// Bodies
// ---------------------------------------------------------------------------

/// The body of an answer says whether it is one of success, names the request, and holds the result
/// or the error: the code and the message, and the field, the partial result and the time to wait
/// where there are such.
pub proof fn law_bodies_of_answers(request: Seq<char>, result: Seq<char>, e: ErrorView)
    ensures
        success_body(Some(request), result) == "{\"ok\":true,\"request_id\":"@ + json_text_of(
            request,
        ) + ",\"result\":"@ + result + "}"@,
        success_body(None, result) == "{\"ok\":true,\"request_id\":"@ + "null"@ + ",\"result\":"@
            + result + "}"@,
        e.code == ErrorCode::NotFound && e.field is None && e.partial_result is None
            && e.retry_after_ms is None ==> error_body(Some(request), e) == "{\"error\":"@
            + "{\"code\":"@ + json_text_of("not_found"@) + ",\"message\":"@ + json_text_of(
            e.message,
        ) + "}"@ + ",\"ok\":false,\"request_id\":"@ + json_text_of(request) + "}"@,
        e.code == ErrorCode::QueueFull && e.field is Some && e.partial_result == Some(false)
            && e.retry_after_ms is Some ==> error_body(None, e) == "{\"error\":"@ + "{\"code\":"@
            + json_text_of("queue_full"@) + ",\"field\":"@ + json_text_of(e.field->0)
            + ",\"message\":"@ + json_text_of(e.message) + ",\"partial_result\":false"@
            + ",\"retry_after_ms\":"@ + decimal_seq(e.retry_after_ms->0 as nat) + "}"@
            + ",\"ok\":false,\"request_id\":"@ + "null"@ + "}"@,
{
    reveal_strlit("");
    assert(""@ =~= Seq::<char>::empty());
    if e.code == ErrorCode::NotFound && e.field is None && e.partial_result is None
        && e.retry_after_ms is None {
        assert(error_body(Some(request), e) =~= "{\"error\":"@ + "{\"code\":"@ + json_text_of(
            "not_found"@,
        ) + ",\"message\":"@ + json_text_of(e.message) + "}"@ + ",\"ok\":false,\"request_id\":"@
            + json_text_of(request) + "}"@);
    }
    if e.code == ErrorCode::QueueFull && e.field is Some && e.partial_result == Some(false)
        && e.retry_after_ms is Some {
        assert(error_body(None, e) =~= "{\"error\":"@ + "{\"code\":"@ + json_text_of("queue_full"@)
            + ",\"field\":"@ + json_text_of(e.field->0) + ",\"message\":"@ + json_text_of(
            e.message,
        ) + ",\"partial_result\":false"@ + ",\"retry_after_ms\":"@ + decimal_seq(
            e.retry_after_ms->0 as nat,
        ) + "}"@ + ",\"ok\":false,\"request_id\":"@ + "null"@ + "}"@);
    }
}

/// What the daemon tells of itself: its version and its store, how many jobs, sessions and keys it
/// remembers, which job was queued, and what a query found.
pub proof fn law_bodies_of_results(
    version: Seq<char>,
    store: Seq<char>,
    jobs: nat,
    agents: nat,
    remembered: nat,
    job: Seq<char>,
)
    ensures
        health_body(version, store) == "{\"api_version\":\"v1\",\"data_dir\":"@ + json_text_of(store)
            + ",\"status\":\"ok\",\"version\":"@ + json_text_of(version) + "}"@,
        status_body(jobs, agents, remembered) == "{\"agents\":"@ + decimal_seq(agents)
            + ",\"api_version\":\"v1\",\"idempotency_store_size\":"@ + decimal_seq(remembered)
            + ",\"jobs\":"@ + decimal_seq(jobs) + ",\"status\":\"running\"}"@,
        queued_result(job) == "{\"job_id\":"@ + json_text_of(job) + ",\"status\":\"queued\"}"@,
        query_result(version, store, job, jobs)
            == "{\"page\":{\"cursor\":null,\"has_more\":false,\"returned\":"@ + decimal_seq(jobs)
            + "},\"records\":"@ + job + ",\"snapshot\":"@ + json_text_of(store) + ",\"verb\":"@
            + json_text_of(version) + "}"@,
{
}

} // verus!
