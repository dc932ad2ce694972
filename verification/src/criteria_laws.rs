//! What proves a criterion, said of the records that close it.

use vstd::prelude::*;

use crate::criteria_coverage::{
    breach_views, bucket_of, census_matches, claimed_rows, count_in, criterion_row_json_views, is_verification_id,
    outcome_of, resolution, row_matches, tells_census, CriteriaCensus, CriteriaCoverageConfig,
    CriteriaCoverageReport, CriterionBucket, CriterionRowView, DiagnosticView, LinkResolution, ProvenRatioGate,
    VerificationOutcome,
};
use crate::ir::{EdgeLabel, GraphRecord, NodeKind, NodeRecord};
use crate::liveness::{linked, live};
use crate::store_laws::law_least_comes_first;
use crate::text::{has_prefix, lex_le, lex_lt, opt_view, views};

verus! {

/// Whether the record says that what it stands for passed: by its status, or where that says
/// neither that it passed nor that it failed by the exit code nil.
pub open spec fn says_passed(n: NodeRecord) -> bool {
    let status = opt_view(n.status);
    ||| status == Some("pass"@)
    ||| status == Some("passed"@)
    ||| status != Some("fail"@) && status != Some("failed"@) && n.exit_code == Some(0i64)
}

/// Whether the record says that what it stands for failed: by its status, or where that says
/// neither by another exit code than nil.
pub open spec fn says_failed(n: NodeRecord) -> bool {
    let status = opt_view(n.status);
    ||| status == Some("fail"@)
    ||| status == Some("failed"@)
    ||| status != Some("pass"@) && status != Some("passed"@) && n.exit_code is Some && n.exit_code
        != Some(0i64)
}

/// Whether the criterion names the handle as closing it: by an edge, or in its own field.
pub open spec fn names_closing(s: Seq<GraphRecord>, n: NodeRecord, h: Seq<char>) -> bool {
    linked(s, EdgeLabel::ClosesAcceptanceCriterion, n.id@, h) || (n.verification_link_id is Some
        && n.verification_link_id->0@ == h)
}

/// Whether the handle leads to a verification that is there and passed.
pub open spec fn passing_evidence(s: Seq<GraphRecord>, h: Seq<char>) -> bool {
    live(s, h) is Some && is_verification_id(live(s, h)->0.id@) && says_passed(live(s, h)->0)
}

/// Whether the handle leads to a verification that is there and failed.
pub open spec fn failing_evidence(s: Seq<GraphRecord>, h: Seq<char>) -> bool {
    live(s, h) is Some && is_verification_id(live(s, h)->0.id@) && says_failed(live(s, h)->0)
}

proof fn lemma_names()
    ensures
        "proven"@ != "failed_evidence"@,
        "proven"@ != "dangling_evidence"@,
        "proven"@ != "non_verification_evidence"@,
        "proven"@ != "inconclusive_evidence"@,
        "proven"@ != "unverified"@,
        "failed_evidence"@ != "dangling_evidence"@,
        "failed_evidence"@ != "non_verification_evidence"@,
        "failed_evidence"@ != "inconclusive_evidence"@,
        "failed_evidence"@ != "unverified"@,
        "dangling_evidence"@ != "non_verification_evidence"@,
        "dangling_evidence"@ != "inconclusive_evidence"@,
        "dangling_evidence"@ != "unverified"@,
        "non_verification_evidence"@ != "inconclusive_evidence"@,
        "non_verification_evidence"@ != "unverified"@,
        "inconclusive_evidence"@ != "unverified"@,
        "pass"@ != "fail"@,
        "pass"@ != "failed"@,
        "passed"@ != "fail"@,
        "passed"@ != "failed"@,
{
    reveal_strlit("proven");
    reveal_strlit("failed_evidence");
    reveal_strlit("dangling_evidence");
    reveal_strlit("non_verification_evidence");
    reveal_strlit("inconclusive_evidence");
    reveal_strlit("unverified");
    reveal_strlit("pass");
    reveal_strlit("passed");
    reveal_strlit("fail");
    reveal_strlit("failed");
    assert("proven"@[0] == 'p');
    assert("failed_evidence"@[0] == 'f');
    assert("dangling_evidence"@[0] == 'd');
    assert("non_verification_evidence"@[0] == 'n');
    assert("inconclusive_evidence"@[0] == 'i');
    assert("unverified"@[0] == 'u');
    assert("pass"@[0] == 'p');
    assert("passed"@[0] == 'p');
    assert("fail"@[0] == 'f');
    assert("failed"@[0] == 'f');
}

/// A criterion is proven exactly where something closes it and all that does is a verification
/// that is there and passed; it has failed evidence where some of that failed, whatever else
/// there is; and it is unverified where nothing closes it.
pub proof fn law_what_proves_a_criterion(
    s: Seq<GraphRecord>,
    n: NodeRecord,
    row: CriterionRowView,
)
    requires
        row_matches(s, n, row),
    ensures
        row.bucket == "proven"@ <==> (exists|h: Seq<char>| #[trigger] names_closing(s, n, h)) && (
        forall|h: Seq<char>| #[trigger] names_closing(s, n, h) ==> passing_evidence(s, h)),
        row.bucket == "failed_evidence"@ <==> exists|h: Seq<char>| #[trigger]
            names_closing(s, n, h) && failing_evidence(s, h),
        row.bucket == "unverified"@ <==> forall|h: Seq<char>| !#[trigger] names_closing(s, n, h),
        row.bucket == "dangling_evidence"@ <==> (exists|h: Seq<char>| #[trigger]
            names_closing(s, n, h) && live(s, h) is None) && (forall|h: Seq<char>| #[trigger]
            names_closing(s, n, h) ==> !failing_evidence(s, h)),
{
    lemma_names();
    assert forall|h: Seq<char>| #[trigger]
        names_closing(s, n, h) <==> crate::criteria_coverage::closes(s, n, h) by {}
    assert forall|h: Seq<char>| #[trigger] crate::criteria_coverage::closes(s, n, h) implies {
        &&& resolution(s, h) == LinkResolution::Failing <==> failing_evidence(s, h)
        &&& resolution(s, h) == LinkResolution::Passing <==> passing_evidence(s, h)
        &&& resolution(s, h) == LinkResolution::Unresolved <==> live(s, h) is None
    } by {
        assert(names_closing(s, n, h));
    }
    if crate::criteria_coverage::has_closing(s, n) {
        let h = choose|h: Seq<char>| #[trigger] crate::criteria_coverage::closes(s, n, h);
        assert(names_closing(s, n, h));
    }
    let fails = crate::criteria_coverage::closes_with(s, n, LinkResolution::Failing);
    let dangles = crate::criteria_coverage::closes_with(s, n, LinkResolution::Unresolved);
    if fails {
        let h = choose|h: Seq<char>| #[trigger]
            crate::criteria_coverage::closes(s, n, h) && resolution(s, h) == LinkResolution::Failing;
        assert(names_closing(s, n, h) && failing_evidence(s, h));
    }
    if dangles {
        let h = choose|h: Seq<char>| #[trigger]
            crate::criteria_coverage::closes(s, n, h) && resolution(s, h)
                == LinkResolution::Unresolved;
        assert(names_closing(s, n, h) && live(s, h) is None);
    }
    if exists|h: Seq<char>| #[trigger] names_closing(s, n, h) && !passing_evidence(s, h) {
        let h = choose|h: Seq<char>| #[trigger] names_closing(s, n, h) && !passing_evidence(s, h);
        assert(crate::criteria_coverage::closes(s, n, h));
        assert(bucket_of(s, n) != CriterionBucket::Proven);
    }
    if exists|h: Seq<char>| #[trigger] names_closing(s, n, h) && failing_evidence(s, h) {
        let h = choose|h: Seq<char>| #[trigger] names_closing(s, n, h) && failing_evidence(s, h);
        assert(crate::criteria_coverage::closes(s, n, h));
        assert(fails);
    }
    if exists|h: Seq<char>| #[trigger] names_closing(s, n, h) && live(s, h) is None {
        let h = choose|h: Seq<char>| #[trigger] names_closing(s, n, h) && live(s, h) is None;
        assert(crate::criteria_coverage::closes(s, n, h));
        assert(dangles);
    }
    if forall|h: Seq<char>| #[trigger] names_closing(s, n, h) ==> passing_evidence(s, h) {
        assert forall|h: Seq<char>| #[trigger] crate::criteria_coverage::closes(s, n, h) implies
            resolution(s, h) == LinkResolution::Passing by {
            assert(names_closing(s, n, h));
        }
    }
}

/// What a verification says is read from its status, and only where that says nothing from its
/// exit code; without both it is inconclusive.
pub proof fn law_what_a_verification_says(n: NodeRecord)
    ensures
        outcome_of(n) == VerificationOutcome::Passing <==> says_passed(n),
        outcome_of(n) == VerificationOutcome::Failing <==> says_failed(n),
        !(says_passed(n) && says_failed(n)),
        n.status is None && n.exit_code is None ==> outcome_of(n)
            == VerificationOutcome::Inconclusive,
{
    lemma_names();
}

/// The row of a criterion tells of the criterion: its identifier, where it lies, its place and
/// status; the task is the one that it names; what closes it is listed in order, and what proves
/// it is one of those.
pub proof fn law_rows_tell_of_their_criterion(
    s: Seq<GraphRecord>,
    n: NodeRecord,
    row: CriterionRowView,
)
    requires
        row_matches(s, n, row),
    ensures
        row.record_id == n.id@,
        row.criterion_status == opt_view(n.status),
        row.ordinal == n.ordinal,
        row.repo_relative_path == opt_view(n.repo_relative_path),
        row.span == n.span,
        n.parent_task_id is Some ==> row.parent_task_id == Some(n.parent_task_id->0@),
        forall|k: int|
            0 <= k < row.closing_links.len() ==> names_closing(
                s,
                n,
                (#[trigger] row.closing_links[k]).handle,
            ),
        forall|k: int, m: int|
            0 <= k < m < row.closing_links.len() ==> lex_lt(
                (#[trigger] row.closing_links[k]).handle,
                (#[trigger] row.closing_links[m]).handle,
            ),
        forall|k: int|
            0 <= k < row.closing_links.len() && live(s, (#[trigger] row.closing_links[k]).handle)
                is None ==> row.closing_links[k].resolution == "unresolved"@
                && row.closing_links[k].status is None,
        forall|k: int|
            0 <= k < row.closing_links.len() && passing_evidence(
                s,
                (#[trigger] row.closing_links[k]).handle,
            ) ==> row.closing_links[k].resolution == "passing"@,
        forall|k: int|
            0 <= k < row.closing_links.len() && failing_evidence(
                s,
                (#[trigger] row.closing_links[k]).handle,
            ) ==> row.closing_links[k].resolution == "failing"@,
{
    lemma_names();
    let hs = crate::criteria_coverage::link_handles(row.closing_links);
    assert forall|k: int| 0 <= k < row.closing_links.len() implies names_closing(
        s,
        n,
        (#[trigger] row.closing_links[k]).handle,
    ) by {
        assert(hs[k] == row.closing_links[k].handle);
        assert(hs.contains(hs[k]));
    }
    assert forall|k: int, m: int| 0 <= k < m < row.closing_links.len() implies lex_lt(
        (#[trigger] row.closing_links[k]).handle,
        (#[trigger] row.closing_links[m]).handle,
    ) by {
        assert(hs[k] == row.closing_links[k].handle && hs[m] == row.closing_links[m].handle);
        assert(lex_lt(hs[k], hs[m]));
    }
}

/// A criterion is claimed to be done without proof exactly where its task is there, is closed as
/// completed, and the criterion is not proven.
pub proof fn law_claims_without_proof(
    s: Seq<GraphRecord>,
    n: NodeRecord,
    row: CriterionRowView,
    task: Seq<char>,
)
    requires
        row_matches(s, n, row),
        n.parent_task_id is Some,
        n.parent_task_id->0@ == task,
    ensures
        row.claimed_done_unproven <==> live(s, task) is Some && live(s, task)->0.kind
            == NodeKind::Task && opt_view(live(s, task)->0.status) == Some("closed_completed"@)
            && row.bucket != "proven"@,
        row.parent_task_status is Some ==> live(s, task) is Some && row.parent_task_status
            == opt_view(live(s, task)->0.status),
{
    lemma_names();
}

/// How many of the rows stand in the bucket of that name.
pub open spec fn rows_named(rows: Seq<CriterionRowView>, name: Seq<char>) -> nat {
    rows.filter(|r: CriterionRowView| r.bucket == name).len()
}

proof fn lemma_count(rows: Seq<CriterionRowView>, b: CriterionBucket, name: Seq<char>)
    requires
        name == crate::criteria_coverage::bucket_name(b),
    ensures
        count_in(rows, b) == rows_named(rows, name),
    decreases rows.len(),
{
    reveal(Seq::filter);
    let p = |r: CriterionRowView| r.bucket == name;
    if rows.len() > 0 {
        lemma_count(rows.drop_last(), b, name);
        assert(rows.drop_last().filter(p).len() == rows_named(rows.drop_last(), name));
    }
}

/// The report counts each criterion under the name of its bucket, and nowhere else; what is not
/// proven is the gap.
pub proof fn law_report_counts_by_bucket(
    r: CriteriaCoverageReport,
    c: CriteriaCensus,
    gate: ProvenRatioGate,
    config: CriteriaCoverageConfig,
)
    requires
        tells_census(r, c, gate, config),
    ensures
        ({
            let rows = criterion_row_json_views(c.rows@);
            &&& r.total_criteria == rows.len()
            &&& r.proven.numerator == rows_named(rows, "proven"@)
            &&& r.unverified.numerator == rows_named(rows, "unverified"@)
            &&& r.failed_evidence.numerator == rows_named(rows, "failed_evidence"@)
            &&& r.dangling_evidence.numerator == rows_named(rows, "dangling_evidence"@)
            &&& r.non_verification_evidence.numerator == rows_named(
                rows,
                "non_verification_evidence"@,
            )
            &&& r.inconclusive_evidence.numerator == rows_named(rows, "inconclusive_evidence"@)
            &&& r.proven.denominator == rows.len() && r.unverified.denominator == rows.len()
            &&& r.proof_gap.numerator + rows_named(rows, "proven"@) == rows.len()
            &&& forall|k: int|
                0 <= k < r.bucket_counts@.len() ==> (#[trigger] r.bucket_counts@[k]).1
                    == rows_named(rows, r.bucket_counts@[k].0@)
        }),
{
    let rows = criterion_row_json_views(c.rows@);
    lemma_count(rows, CriterionBucket::Proven, "proven"@);
    lemma_count(rows, CriterionBucket::Unverified, "unverified"@);
    lemma_count(rows, CriterionBucket::FailedEvidence, "failed_evidence"@);
    lemma_count(rows, CriterionBucket::DanglingEvidence, "dangling_evidence"@);
    lemma_count(rows, CriterionBucket::NonVerificationEvidence, "non_verification_evidence"@);
    lemma_count(rows, CriterionBucket::InconclusiveEvidence, "inconclusive_evidence"@);
}

proof fn lemma_claimed(rows: Seq<CriterionRowView>)
    ensures
        claimed_rows(rows) == rows.filter(|r: CriterionRowView| r.claimed_done_unproven),
    decreases rows.len(),
{
    reveal(Seq::filter);
    if rows.len() > 0 {
        lemma_claimed(rows.drop_last());
    }
}

/// The report is in order exactly where no more criteria are claimed to be done without proof than
/// are allowed, and the ratio of the proven ones suffices or there are none. Each of the two is
/// told as a breach where it is one. What is claimed is counted in full, and shown as far as the
/// limit allows.
pub proof fn law_report_is_in_order(
    r: CriteriaCoverageReport,
    c: CriteriaCensus,
    gate: ProvenRatioGate,
    config: CriteriaCoverageConfig,
)
    requires
        tells_census(r, c, gate, config),
    ensures
        ({
            let rows = criterion_row_json_views(c.rows@);
            let claimed = rows.filter(|x: CriterionRowView| x.claimed_done_unproven);
            let over = claimed.len() > config.max_claimed_done_unproven;
            let missed = gate is Missed && rows.len() > 0;
            let told = breach_views(r.breaches@);
            &&& r.ok <==> !over && !missed
            &&& r.claimed_done_unproven_count == claimed.len()
            &&& r.claimed_done_unproven@.len() <= config.limit
            &&& r.criteria@.len() <= config.limit
            &&& claimed.len() <= config.limit ==> r.claimed_done_unproven@.len() == claimed.len()
            &&& rows.len() <= config.limit ==> r.criteria@.len() == rows.len()
            &&& over ==> told.len() > 0 && told[0].metric == "claimed_done_unproven"@
            &&& missed && !over ==> told.len() == 1 && told[0].metric == "proven_ratio"@
            &&& missed && over ==> told.len() == 2 && told[1].metric == "proven_ratio"@
            &&& !missed && !over ==> told.len() == 0
        }),
{
    let rows = criterion_row_json_views(c.rows@);
    lemma_claimed(rows);
    assert(criterion_row_json_views(r.claimed_done_unproven@).len()
        == r.claimed_done_unproven@.len());
    assert(criterion_row_json_views(r.criteria@).len() == r.criteria@.len());
}

/// The identifier of a verification names its domain and a version in digits.
pub proof fn law_verification_identifiers(id: Seq<char>)
    ensures
        is_verification_id(id) ==> has_prefix(id, "verification:v"@) && id.len() > 15 && '0'
            <= id[14] <= '9' && id.contains(':'),
        has_prefix(id, "verification:v1:"@) ==> is_verification_id(id),
{
    reveal_strlit("verification:v");
    reveal_strlit("verification:v1:");
    if is_verification_id(id) {
        assert("verification:v"@.len() == 14);
        lemma_digits(id, 14, false);
        assert("verification:v"@[12] == ':');
        assert(id.take(14)[12] == ':');
        assert(id[12] == ':');
    }
    if has_prefix(id, "verification:v1:"@) {
        assert("verification:v1:"@.len() == 16);
        assert("verification:v1:"@.take(14) =~= "verification:v"@);
        assert(id.take(14) =~= id.take(16).take(14));
        assert(id.take(16)[14] == '1' && id.take(16)[15] == ':');
        assert(id[14] == '1' && id[15] == ':');
        reveal_with_fuel(crate::criteria_coverage::digits_then_colon, 3);
    }
}

proof fn lemma_digits(s: Seq<char>, i: int, seen: bool)
    requires
        0 <= i,
        crate::criteria_coverage::digits_then_colon(s, i, seen),
    ensures
        i < s.len(),
        !seen ==> '0' <= s[i] <= '9' && i + 1 < s.len(),
    decreases s.len() - i,
{
    if '0' <= s[i] <= '9' {
        lemma_digits(s, i + 1, true);
    }
}

/// Whether the handle leads to a record that is there and is no verification.
pub open spec fn other_evidence(s: Seq<GraphRecord>, h: Seq<char>) -> bool {
    live(s, h) is Some && !is_verification_id(live(s, h)->0.id@)
}

/// Where nothing that closes a criterion failed or is missing, it rests on other evidence where
/// some of that is no verification, and else on inconclusive evidence where some of that does not
/// say how it ended.
pub proof fn law_lesser_evidence(s: Seq<GraphRecord>, n: NodeRecord, row: CriterionRowView)
    requires
        row_matches(s, n, row),
        forall|h: Seq<char>| #[trigger]
            names_closing(s, n, h) ==> live(s, h) is Some && !failing_evidence(s, h),
    ensures
        row.bucket == "non_verification_evidence"@ <==> exists|h: Seq<char>| #[trigger]
            names_closing(s, n, h) && other_evidence(s, h),
        row.bucket == "inconclusive_evidence"@ <==> (exists|h: Seq<char>| #[trigger]
            names_closing(s, n, h) && !passing_evidence(s, h)) && (forall|h: Seq<char>| #[trigger]
            names_closing(s, n, h) ==> !other_evidence(s, h)),
{
    lemma_names();
    assert forall|h: Seq<char>| #[trigger]
        names_closing(s, n, h) <==> crate::criteria_coverage::closes(s, n, h) by {}
    assert forall|h: Seq<char>| #[trigger] crate::criteria_coverage::closes(s, n, h) implies {
        &&& resolution(s, h) != LinkResolution::Failing
        &&& resolution(s, h) != LinkResolution::Unresolved
        &&& resolution(s, h) == LinkResolution::NonVerificationDomain <==> other_evidence(s, h)
        &&& resolution(s, h) == LinkResolution::Passing <==> passing_evidence(s, h)
    } by {
        assert(names_closing(s, n, h));
    }
    let other = crate::criteria_coverage::closes_with(s, n, LinkResolution::NonVerificationDomain);
    let open = crate::criteria_coverage::closes_with(s, n, LinkResolution::Inconclusive);
    if other {
        let h = choose|h: Seq<char>| #[trigger]
            crate::criteria_coverage::closes(s, n, h) && resolution(s, h)
                == LinkResolution::NonVerificationDomain;
        assert(names_closing(s, n, h) && other_evidence(s, h));
    }
    if open {
        let h = choose|h: Seq<char>| #[trigger]
            crate::criteria_coverage::closes(s, n, h) && resolution(s, h)
                == LinkResolution::Inconclusive;
        assert(names_closing(s, n, h) && !passing_evidence(s, h));
    }
    if exists|h: Seq<char>| #[trigger] names_closing(s, n, h) && other_evidence(s, h) {
        let h = choose|h: Seq<char>| #[trigger] names_closing(s, n, h) && other_evidence(s, h);
        assert(crate::criteria_coverage::closes(s, n, h));
        assert(other);
    }
    if exists|h: Seq<char>| #[trigger] names_closing(s, n, h) && !passing_evidence(s, h) {
        let h = choose|h: Seq<char>| #[trigger] names_closing(s, n, h) && !passing_evidence(s, h);
        assert(crate::criteria_coverage::closes(s, n, h));
        assert(other || open);
    }
}

/// A link of a row says how the criterion names it, and tells of the record that it leads to.
pub proof fn law_links_say_how_they_are_named(
    s: Seq<GraphRecord>,
    n: NodeRecord,
    row: CriterionRowView,
    k: int,
)
    requires
        row_matches(s, n, row),
        0 <= k < row.closing_links.len(),
    ensures
        ({
            let l = row.closing_links[k];
            let t = live(s, l.handle)->0;
            &&& l.origins.contains("closes_edge"@) <==> linked(
                s,
                EdgeLabel::ClosesAcceptanceCriterion,
                n.id@,
                l.handle,
            )
            &&& l.origins.contains("verification_link_id"@) <==> n.verification_link_id is Some
                && n.verification_link_id->0@ == l.handle
            &&& live(s, l.handle) is Some ==> l.status == opt_view(t.status) && l.exit_code
                == t.exit_code && (t.verification_kind is Some ==> l.verification_kind == Some(
                t.verification_kind->0@,
            ))
            &&& live(s, l.handle) is None ==> l.exit_code is None && l.verification_kind is None
        }),
{
    reveal_strlit("closes_edge");
    reveal_strlit("verification_link_id");
    assert("closes_edge"@.len() != "verification_link_id"@.len());
    let l = row.closing_links[k];
    let hs = crate::criteria_coverage::link_handles(row.closing_links);
    assert(hs[k] == l.handle);
    assert(hs.contains(l.handle));
    let e = linked(s, EdgeLabel::ClosesAcceptanceCriterion, n.id@, l.handle);
    let f = opt_view(n.verification_link_id) == Some(l.handle);
    assert(e || f);
    if e {
        assert(l.origins[0] == "closes_edge"@);
    }
    if e && f {
        assert(l.origins[1] == "verification_link_id"@);
    }
    if !e && f {
        assert(l.origins[0] == "verification_link_id"@);
    }
}

/// What proves a proven criterion is the least of what closes it; nothing proves any other. A
/// criterion that names no task belongs to the least of those that an edge gives it to.
pub proof fn law_the_least_is_named(
    s: Seq<GraphRecord>,
    n: NodeRecord,
    row: CriterionRowView,
    h: Seq<char>,
    task: Seq<char>,
)
    requires
        row_matches(s, n, row),
    ensures
        row.bucket == "proven"@ && names_closing(s, n, h) && (forall|o: Seq<char>| #[trigger]
            names_closing(s, n, o) ==> lex_le(h, o)) ==> row.proving_verification_id == Some(h),
        row.bucket != "proven"@ ==> row.proving_verification_id is None,
        n.parent_task_id is None && linked(s, EdgeLabel::OwnedByTask, n.id@, task) && (forall|
            o: Seq<char>,
        | #[trigger]
            linked(s, EdgeLabel::OwnedByTask, n.id@, o) ==> lex_le(task, o))
            ==> row.parent_task_id == Some(task),
        n.parent_task_id is None && (forall|o: Seq<char>| !#[trigger]
            linked(s, EdgeLabel::OwnedByTask, n.id@, o)) ==> row.parent_task_id is None,
{
    lemma_names();
    let p = |x: Seq<char>| crate::criteria_coverage::closes(s, n, x);
    if row.bucket == "proven"@ && names_closing(s, n, h) && (forall|o: Seq<char>| #[trigger]
        names_closing(s, n, o) ==> lex_le(h, o)) {
        assert(p(h));
        assert forall|o: Seq<char>| #[trigger] p(o) implies lex_le(h, o) by {
            assert(names_closing(s, n, o));
        }
        law_least_comes_first(p, h);
    }
    let q = |x: Seq<char>| linked(s, EdgeLabel::OwnedByTask, n.id@, x);
    if linked(s, EdgeLabel::OwnedByTask, n.id@, task) && (forall|o: Seq<char>| #[trigger]
        linked(s, EdgeLabel::OwnedByTask, n.id@, o) ==> lex_le(task, o)) {
        assert(q(task));
        assert forall|o: Seq<char>| #[trigger] q(o) implies lex_le(task, o) by {}
        law_least_comes_first(q, task);
    }
    if exists|x: Seq<char>| #[trigger] q(x) {
        let x = choose|x: Seq<char>| #[trigger] q(x);
        assert(linked(s, EdgeLabel::OwnedByTask, n.id@, x));
    }
}

proof fn lemma_keep(
    s: Seq<GraphRecord>,
    ids: Seq<Seq<char>>,
    p: spec_fn(NodeRecord) -> bool,
    id: Seq<char>,
)
    ensures
        crate::criteria_coverage::keep(s, ids, p).contains(id) <==> ids.contains(id) && p(
            live(s, id)->0,
        ),
    decreases ids.len(),
{
    if ids.len() > 0 {
        let rest = ids.drop_last();
        lemma_keep(s, rest, p, id);
        let before = crate::criteria_coverage::keep(s, rest, p);
        let all = crate::criteria_coverage::keep(s, ids, p);
        assert(ids[ids.len() - 1] == ids.last());
        if rest.contains(id) {
            let k = choose|k: int| 0 <= k < rest.len() && rest[k] == id;
            assert(ids[k] == id);
        }
        if ids.contains(id) {
            let k = choose|k: int| 0 <= k < ids.len() && ids[k] == id;
            if k < rest.len() {
                assert(rest[k] == id);
            }
        }
        if before.contains(id) {
            let k = choose|k: int| 0 <= k < before.len() && before[k] == id;
            assert(all[k] == id);
        }
        if all.contains(id) {
            let k = choose|k: int| 0 <= k < all.len() && all[k] == id;
            if k < before.len() {
                assert(before[k] == id);
            }
        }
        if p(live(s, ids.last())->0) {
            assert(all[all.len() - 1] == ids.last());
        }
    }
}

/// The census holds the criteria that are there, each once and in order; it names those of which
/// evidence is missing, those whose named task is not the one that an edge gives them to, and those
/// that name no task at all that is there.
pub proof fn law_census_names_what_is_amiss(
    s: Seq<GraphRecord>,
    c: CriteriaCensus,
    id: Seq<char>,
    k: int,
)
    requires
        census_matches(s, c),
    ensures
        (exists|i: int|
            0 <= i < c.rows@.len() && (#[trigger] c.rows@[i])@.record_id == id) <==> live(s, id)
            is Some && live(s, id)->0.kind == NodeKind::AcceptanceCriterion,
        0 <= k < c.rows@.len() ==> {
            let row = c.rows@[k]@;
            let n = live(s, row.record_id)->0;
            &&& live(s, row.record_id) is Some && row_matches(s, n, row)
            &&& views(c.dangling_ids@).contains(row.record_id) <==> row.bucket
                == "dangling_evidence"@
            &&& n.parent_task_id is Some ==> (views(c.parent_conflict_ids@).contains(row.record_id)
                <==> (exists|t: Seq<char>| #[trigger]
                linked(s, EdgeLabel::OwnedByTask, n.id@, t)) && !linked(
                s,
                EdgeLabel::OwnedByTask,
                n.id@,
                n.parent_task_id->0@,
            ))
            &&& n.parent_task_id is None ==> !views(c.parent_conflict_ids@).contains(row.record_id)
            &&& n.parent_task_id is Some ==> (views(c.parent_unresolved_ids@).contains(
                row.record_id,
            ) <==> live(s, n.parent_task_id->0@) is None || live(s, n.parent_task_id->0@)->0.kind
                != NodeKind::Task)
        },
{
    lemma_names();
    let rows = criterion_row_json_views(c.rows@);
    let ids = crate::criteria_coverage::row_ids(rows);
    assert forall|i: int| 0 <= i < c.rows@.len() implies #[trigger] ids[i] == c.rows@[i]@.record_id by {
        assert(rows[i] == c.rows@[i]@);
    }
    if exists|i: int| 0 <= i < c.rows@.len() && (#[trigger] c.rows@[i])@.record_id == id {
        let i = choose|i: int| 0 <= i < c.rows@.len() && (#[trigger] c.rows@[i])@.record_id == id;
        assert(ids[i] == id);
        assert(ids.contains(id));
    }
    if crate::criteria_coverage::is_criterion(s, id) {
        assert(ids.contains(id));
        let i = choose|i: int| 0 <= i < ids.len() && ids[i] == id;
        assert(c.rows@[i]@.record_id == id);
    }
    if 0 <= k < c.rows@.len() {
        let row = c.rows@[k]@;
        assert(rows[k] == row);
        assert(ids[k] == row.record_id);
        assert(ids.contains(row.record_id));
        lemma_keep(
            s,
            ids,
            |n: NodeRecord| bucket_of(s, n) == CriterionBucket::DanglingEvidence,
            row.record_id,
        );
        lemma_keep(
            s,
            ids,
            |n: NodeRecord| crate::criteria_coverage::parent_conflict(s, n),
            row.record_id,
        );
        lemma_keep(
            s,
            ids,
            |n: NodeRecord| crate::criteria_coverage::owning_task(s, n) is None,
            row.record_id,
        );
    }
}

/// Whether the report holds a diagnostic of the code.
pub open spec fn diagnosed(r: CriteriaCoverageReport, code: Seq<char>) -> bool {
    exists|i: int| 0 <= i < r.diagnostics@.len() && (#[trigger] r.diagnostics@[i])@.code == code
}

spec fn has_code(v: Seq<DiagnosticView>, code: Seq<char>) -> bool {
    exists|i: int| 0 <= i < v.len() && (#[trigger] v[i]).code == code
}

proof fn lemma_has_code(
    a: Seq<DiagnosticView>,
    cond: bool,
    code: Seq<char>,
    ids: Seq<Seq<char>>,
    detail: Seq<char>,
    x: Seq<char>,
)
    ensures
        has_code(a + crate::criteria_coverage::diagnostic_if(cond, code, ids, detail), x)
            <==> has_code(a, x) || (cond && code == x),
{
    let b = crate::criteria_coverage::diagnostic_if(cond, code, ids, detail);
    let all = a + b;
    if has_code(a, x) {
        let i = choose|i: int| 0 <= i < a.len() && (#[trigger] a[i]).code == x;
        assert(all[i].code == x);
    }
    if cond && code == x {
        assert(all[a.len() as int].code == x);
    }
    if has_code(all, x) {
        let i = choose|i: int| 0 <= i < all.len() && (#[trigger] all[i]).code == x;
        if i < a.len() {
            assert(a[i].code == x);
        } else {
            assert(b[i - a.len()].code == x);
        }
    }
}

proof fn lemma_codes(
    r: CriteriaCoverageReport,
    c: CriteriaCensus,
    gate: ProvenRatioGate,
    config: CriteriaCoverageConfig,
    x: Seq<char>,
)
    requires
        tells_census(r, c, gate, config),
    ensures
        diagnosed(r, x) <==> {
            let rows = criterion_row_json_views(c.rows@);
            let claimed = claimed_rows(rows).len();
            let g = crate::criteria_coverage::applied(gate, rows);
            ||| claimed > config.max_claimed_done_unproven && x
                == "above_claimed_done_unproven_threshold"@
            ||| g is Missed && x == "below_proven_ratio_threshold"@
            ||| c.parent_conflict_ids@.len() > 0 && x == "criterion_parent_task_conflict"@
            ||| c.parent_unresolved_ids@.len() > 0 && x == "criterion_parent_task_unresolved"@
            ||| c.dangling_ids@.len() > 0 && x == "dangling_closing_evidence"@
            ||| rows.len() == 0 && x == "no_acceptance_criteria"@
            ||| (rows.len() > config.limit || claimed > config.limit) && x == "results_truncated"@
        },
{
    let rows = criterion_row_json_views(c.rows@);
    let claimed = claimed_rows(rows);
    let g = crate::criteria_coverage::applied(gate, rows);
    let bound = config.max_claimed_done_unproven as nat;
    let limit = config.limit as nat;
    let told = crate::criteria_coverage::diagnostic_views(r.diagnostics@);
    let conflict = views(c.parent_conflict_ids@);
    let unresolved = views(c.parent_unresolved_ids@);
    let dangling = views(c.dangling_ids@);
    let a0 = Seq::<DiagnosticView>::empty();
    let t1 = crate::criteria_coverage::claimed_detail(claimed.len(), bound);
    let i1 = crate::criteria_coverage::row_ids(claimed);
    let n1 = "above_claimed_done_unproven_threshold"@;
    let a1 = crate::criteria_coverage::diagnostic_if(claimed.len() > bound, n1, i1, t1);
    assert(a0 + a1 =~= a1);
    lemma_has_code(a0, claimed.len() > bound, n1, i1, t1, x);
    let t2 = crate::criteria_coverage::ratio_detail(
        g->observed@,
        count_in(rows, CriterionBucket::Proven),
        rows.len(),
        g->bound@,
    );
    let n2 = "below_proven_ratio_threshold"@;
    let none = Seq::<Seq<char>>::empty();
    let a2 = a1 + crate::criteria_coverage::diagnostic_if(g is Missed, n2, none, t2);
    lemma_has_code(a1, g is Missed, n2, none, t2, x);
    let t3 =
        "criterion(s) whose OWNED_BY_TASK edge target differs from parent_task_id; the recorded field wins and the conflict is reported"@;
    let n3 = "criterion_parent_task_conflict"@;
    let a3 = a2 + crate::criteria_coverage::diagnostic_if(conflict.len() > 0, n3, conflict, t3);
    lemma_has_code(a2, conflict.len() > 0, n3, conflict, t3, x);
    let t4 =
        "criterion(s) whose owning Task does not resolve to a live Task record; they are still counted in the census but can never enter the claimed-done-but-unproven set"@;
    let n4 = "criterion_parent_task_unresolved"@;
    let a4 = a3 + crate::criteria_coverage::diagnostic_if(
        unresolved.len() > 0,
        n4,
        unresolved,
        t4,
    );
    lemma_has_code(a3, unresolved.len() > 0, n4, unresolved, t4, x);
    let t5 =
        "criterion(s) carry a closing verification handle that resolves to no live record; reported in their own bucket with the original handles, never counted proven and never merged into unverified"@;
    let n5 = "dangling_closing_evidence"@;
    let a5 = a4 + crate::criteria_coverage::diagnostic_if(dangling.len() > 0, n5, dangling, t5);
    lemma_has_code(a4, dangling.len() > 0, n5, dangling, t5, x);
    let t6 =
        "the store records no live acceptance criteria; coverage ratios have a zero denominator and are reported as null. This is not a failure \u{2014} it means no criteria were imported, not that none exist"@;
    let n6 = "no_acceptance_criteria"@;
    let a6 = a5 + crate::criteria_coverage::diagnostic_if(rows.len() == 0, n6, none, t6);
    lemma_has_code(a5, rows.len() == 0, n6, none, t6, x);
    let t7 = crate::criteria_coverage::truncated_detail(limit, rows.len(), "criteria"@);
    let n7 = "results_truncated"@;
    let a7 = a6 + crate::criteria_coverage::diagnostic_if(rows.len() > limit, n7, none, t7);
    lemma_has_code(a6, rows.len() > limit, n7, none, t7, x);
    let t8 = crate::criteria_coverage::truncated_detail(
        limit,
        claimed.len(),
        "claimed_done_unproven"@,
    );
    lemma_has_code(a7, claimed.len() > limit, n7, none, t8, x);
    assert(told == a7 + crate::criteria_coverage::diagnostic_if(
        claimed.len() > limit,
        n7,
        none,
        t8,
    ));
    assert forall|i: int| 0 <= i < told.len() implies #[trigger] told[i] == r.diagnostics@[i]@ by {}
    if diagnosed(r, x) {
        let i = choose|i: int|
            0 <= i < r.diagnostics@.len() && (#[trigger] r.diagnostics@[i])@.code == x;
        assert(told[i].code == x);
    }
    if has_code(told, x) {
        let i = choose|i: int| 0 <= i < told.len() && (#[trigger] told[i]).code == x;
        assert(r.diagnostics@[i]@.code == x);
    }
}

/// The report warns of what is amiss, and of nothing else: too many claims, too few proofs,
/// conflicting or missing tasks, missing evidence, no criteria at all, and rows left out.
pub proof fn law_report_warns_of_what_is_amiss(
    r: CriteriaCoverageReport,
    c: CriteriaCensus,
    gate: ProvenRatioGate,
    config: CriteriaCoverageConfig,
)
    requires
        tells_census(r, c, gate, config),
    ensures
        ({
            let rows = criterion_row_json_views(c.rows@);
            let claimed = rows.filter(|x: CriterionRowView| x.claimed_done_unproven).len();
            &&& diagnosed(r, "above_claimed_done_unproven_threshold"@) <==> claimed
                > config.max_claimed_done_unproven
            &&& diagnosed(r, "below_proven_ratio_threshold"@) <==> gate is Missed && rows.len() > 0
            &&& diagnosed(r, "criterion_parent_task_conflict"@) <==> c.parent_conflict_ids@.len()
                > 0
            &&& diagnosed(r, "criterion_parent_task_unresolved"@)
                <==> c.parent_unresolved_ids@.len() > 0
            &&& diagnosed(r, "dangling_closing_evidence"@) <==> c.dangling_ids@.len() > 0
            &&& diagnosed(r, "no_acceptance_criteria"@) <==> rows.len() == 0
            &&& diagnosed(r, "results_truncated"@) <==> rows.len() > config.limit || claimed
                > config.limit
        }),
{
    reveal_strlit("above_claimed_done_unproven_threshold");
    reveal_strlit("below_proven_ratio_threshold");
    reveal_strlit("criterion_parent_task_conflict");
    reveal_strlit("criterion_parent_task_unresolved");
    reveal_strlit("dangling_closing_evidence");
    reveal_strlit("no_acceptance_criteria");
    reveal_strlit("results_truncated");
    lemma_claimed(criterion_row_json_views(c.rows@));
    assert("above_claimed_done_unproven_threshold"@.len() == 37);
    assert("below_proven_ratio_threshold"@.len() == 28);
    assert("criterion_parent_task_conflict"@.len() == 30);
    assert("criterion_parent_task_unresolved"@.len() == 32);
    assert("dangling_closing_evidence"@.len() == 25);
    assert("no_acceptance_criteria"@.len() == 22);
    assert("results_truncated"@.len() == 17);
    lemma_codes(r, c, gate, config, "above_claimed_done_unproven_threshold"@);
    lemma_codes(r, c, gate, config, "below_proven_ratio_threshold"@);
    lemma_codes(r, c, gate, config, "criterion_parent_task_conflict"@);
    lemma_codes(r, c, gate, config, "criterion_parent_task_unresolved"@);
    lemma_codes(r, c, gate, config, "dangling_closing_evidence"@);
    lemma_codes(r, c, gate, config, "no_acceptance_criteria"@);
    lemma_codes(r, c, gate, config, "results_truncated"@);
}

} // verus!
