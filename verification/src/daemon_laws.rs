//! What the daemon accepts, runs and answers, said of requests and answers.

use vstd::prelude::*;

use crate::api_error::{code_status, ErrorCode};
use crate::daemon::{health_error, query_failure, start_error, stop_step, HealthView};
use crate::http::{authorized, headers_of, status_words};
use crate::ir::{EdgeLabel, GraphRecord, NodeKind, NodeView, RecordView};
use crate::jobs::{job_ended, job_outcome, JobRun, JobView};
use crate::outside::rfc3339_instant_of;
use crate::record_rules::{artifact_error, inline_bytes, output_handle_error, verification_error};
use crate::requests::{
    heartbeat_outcome, registered, registration_outcome, registration_records, route_of, seen,
    write_request_error, AgentRegisterView, AgentStatusView, EnvelopeView, PayloadReading,
};
use crate::scan::{blank, lower_seq, split_once_seq, trim_seq};
use crate::text::has_prefix;
use crate::write::{
    begin_outcome, first_failure, matched_count, planned, recovery_outcome, replaced, step_outcome,
    view_id, ActionView, EntryView, IngestResponseView, RecordState, StateView, WriteCommand,
    WriteEvent, WriteState,
};

verus! {

/// Whether a field is there and not blank.
pub open spec fn present(f: Option<Seq<char>>) -> bool {
    f is Some && !blank(f->0)
}

// ---------------------------------------------------------------------------
// Requests
// ---------------------------------------------------------------------------

/// A write is accepted exactly where it says who writes in which session and under which key, into
/// one of the four domains and when, and brings records of that domain.
pub proof fn law_what_a_write_must_say(e: EnvelopeView, p: PayloadReading)
    ensures
        write_request_error(e, p) is None ==> present(e.request_id) && present(e.agent_id)
            && present(e.session_id) && present(e.idempotency_key) && present(e.domain) && present(
            e.created_at,
        ) && rfc3339_instant_of(e.created_at->0) is Some && p is Records && (e.domain->0
            == "codegraph"@ || e.domain->0 == "agent_memory"@ || e.domain->0 == "verification"@
            || e.domain->0 == "artifact"@),
        present(e.request_id) && present(e.agent_id) && present(e.session_id) && present(
            e.idempotency_key,
        ) && present(e.domain) && (e.domain->0 == "codegraph"@ || e.domain->0 == "agent_memory"@
            || e.domain->0 == "verification"@ || e.domain->0 == "artifact"@) && present(
            e.created_at,
        ) && rfc3339_instant_of(e.created_at->0) is Some && p is Records && p->Records_0@.len() == 0
            ==> write_request_error(e, p) is None,
{
}

/// Whether the answer is that the field is missing.
pub open spec fn asks_for(
    r: Option<(Option<Seq<char>>, crate::api_error::ErrorView)>,
    field: Seq<char>,
) -> bool {
    match r {
        Some(x) => x.1.code == ErrorCode::MissingField && x.1.field == Some(field) && x.1.status
            == 400,
        None => false,
    }
}

/// The first thing that a write lacks is what it is refused for, and the refusal carries the
/// identifier of the request where there is one.
pub proof fn law_what_a_write_lacks_is_said(e: EnvelopeView, p: PayloadReading)
    ensures
        ({
            let r = write_request_error(e, p);
            &&& !present(e.request_id) ==> asks_for(r, "request_id"@)
            &&& present(e.request_id) && !present(e.agent_id) ==> asks_for(r, "agent_id"@)
            &&& present(e.request_id) && present(e.agent_id) && !present(e.session_id) ==> asks_for(
                r,
                "session_id"@,
            )
            &&& present(e.request_id) && present(e.agent_id) && present(e.session_id) && !present(
                e.idempotency_key,
            ) ==> asks_for(r, "idempotency_key"@)
            &&& present(e.request_id) && present(e.agent_id) && present(e.session_id) && present(
                e.idempotency_key,
            ) && !present(e.domain) ==> asks_for(r, "domain"@)
            &&& match r {
                Some(x) => present(e.request_id) ==> x.0 == e.request_id,
                None => true,
            }
        }),
{
}

/// Every request has its own path and method; of the others nothing comes. Without the token only
/// the health of the daemon is told.
pub proof fn law_routes_have_their_own_paths(method: Seq<char>, path: Seq<char>)
    ensures
        ({
            let r = route_of(method, path, true, false);
            &&& method == "GET"@ && path == "/v1/health"@ ==> r is Health
            &&& method == "GET"@ && path == "/v1/status"@ ==> r is Status
            &&& method == "POST"@ && path == "/v1/admin/shutdown"@ ==> r is Shutdown
            &&& method == "POST"@ && path == "/v1/records/ingest"@ ==> r is Ingest
            &&& method == "POST"@ && path == "/v1/query"@ ==> r is Query
            &&& method == "POST"@ && path == "/v1/agents/register"@ ==> r is RegisterAgent
            &&& method == "POST"@ && path == "/v1/agents/heartbeat"@ ==> r is Heartbeat
            &&& method == "POST"@ && path == "/v1/jobs/ingest"@ ==> r is IngestJob
            &&& method == "POST"@ && path == "/v1/admin/checkpoint"@ ==> r is Checkpoint
            &&& r is Ingest ==> method == "POST"@ && path == "/v1/records/ingest"@
            &&& r is Query ==> method == "POST"@ && path == "/v1/query"@
            &&& r is Shutdown ==> method == "POST"@ && path == "/v1/admin/shutdown"@
            &&& r is Checkpoint ==> method == "POST"@ && path == "/v1/admin/checkpoint"@
            &&& r is Record ==> method == "GET"@ && has_prefix(path, "/v1/records/"@)
            &&& r is Job ==> method == "GET"@ && has_prefix(path, "/v1/jobs/"@)
            &&& method == "GET"@ && has_prefix(path, "/v1/jobs/"@) ==> r is Job
            &&& method == "GET"@ && has_prefix(path, "/v1/records/"@) ==> r is Record
            &&& method != "GET"@ && method != "POST"@ ==> r is Unknown
        }),
        route_of(method, path, false, false) is Health || route_of(method, path, false, false)
            is Unauthorized,
        route_of(method, path, false, true) is Health || route_of(method, path, false, true)
            is Unauthorized,
{
    reveal_strlit("GET");
    reveal_strlit("POST");
    reveal_strlit("/v1/health");
    reveal_strlit("/v1/status");
    reveal_strlit("/v1/admin/shutdown");
    reveal_strlit("/v1/records/ingest");
    reveal_strlit("/v1/query");
    reveal_strlit("/v1/agents/register");
    reveal_strlit("/v1/agents/heartbeat");
    reveal_strlit("/v1/jobs/ingest");
    reveal_strlit("/v1/admin/checkpoint");
    reveal_strlit("/v1/records/");
    reveal_strlit("/v1/jobs/");
    assert("GET"@.len() == 3 && "POST"@.len() == 4);
    assert("/v1/health"@.len() == 10 && "/v1/status"@.len() == 10);
    assert("/v1/health"@[4] == 'h' && "/v1/status"@[4] == 's');
    assert("/v1/records/"@.len() == 12 && "/v1/jobs/"@.len() == 9);
    assert("/v1/records/"@[4] == 'r' && "/v1/jobs/"@[4] == 'j');
    if has_prefix(path, "/v1/records/"@) {
        assert(path.take(12)[4] == 'r');
        assert(path[4] == 'r');
    }
    if has_prefix(path, "/v1/jobs/"@) {
        assert(path.take(9)[4] == 'j');
        assert(path[4] == 'j');
    }
    assert("/v1/admin/shutdown"@.len() == 18 && "/v1/records/ingest"@.len() == 18);
    assert("/v1/admin/shutdown"@[4] == 'a' && "/v1/records/ingest"@[4] == 'r');
    assert("/v1/query"@.len() == 9 && "/v1/agents/register"@.len() == 19);
    assert("/v1/agents/heartbeat"@.len() == 20 && "/v1/jobs/ingest"@.len() == 15);
    assert("/v1/admin/checkpoint"@.len() == 20);
    assert("/v1/admin/checkpoint"@[5] == 'd' && "/v1/agents/heartbeat"@[5] == 'g');
}

/// A registration that is accepted is of whom it says, of the kind that it says, for the project
/// and from the time that it says; its records are the agent, the session and that the one is of
/// the other.
pub proof fn law_registrations_say_who(e: AgentRegisterView, product: Option<Seq<char>>)
    requires
        registration_outcome(e, product) is Ok,
    ensures
        ({
            let a = registration_outcome(e, product)->Ok_0;
            let out = registration_records(a);
            &&& e.agent_id == Some(a.agent_id) && e.session_id == Some(a.session_id)
            &&& e.agent_kind == Some(a.agent_kind) && e.project_scope == Some(a.project_scope)
            &&& e.created_at == Some(a.registered_at) && rfc3339_instant_of(a.registered_at) is Some
            &&& out.len() == 3
            &&& out[0] is Node && out[0]->Node_0.kind == NodeKind::Agent && out[0]->Node_0.agent_id
                == Some(a.agent_id) && out[0]->Node_0.agent_kind == Some(a.agent_kind)
                && out[0]->Node_0.name == Some(a.agent_id)
            &&& out[1] is Node && out[1]->Node_0.kind == NodeKind::AgentSession
                && out[1]->Node_0.agent_id == Some(a.agent_id) && out[1]->Node_0.session_id == Some(
                a.session_id,
            ) && out[1]->Node_0.observed_at == Some(a.registered_at)
            &&& out[2] is Edge && out[2]->Edge_0.label == EdgeLabel::SessionOf
                && out[2]->Edge_0.source == out[1]->Node_0.id && out[2]->Edge_0.target
                == out[0]->Node_0.id
        }),
{
}

/// Registering a session that is there puts the new status in its place and leaves the others; one
/// that is not there comes behind them. A heartbeat moves the time of its own session alone.
pub proof fn law_registry_knows_each_session_once(
    s: Seq<AgentStatusView>,
    new: AgentStatusView,
    i: int,
    now: u128,
)
    requires
        0 <= i < s.len(),
    ensures
        s[i].agent_id == new.agent_id && s[i].session_id == new.session_id ==> registered(
            s,
            new,
        ).len() == s.len() && registered(s, new)[i] == new,
        s[i].agent_id != new.agent_id || s[i].session_id != new.session_id ==> registered(
            s,
            new,
        )[i] == s[i],
        (forall|k: int|
            0 <= k < s.len() ==> (#[trigger] s[k]).agent_id != new.agent_id || s[k].session_id
                != new.session_id) ==> registered(s, new) == s.push(new),
        seen(s, new.agent_id, new.session_id, now).len() == s.len(),
        ({
            let t = seen(s, new.agent_id, new.session_id, now)[i];
            &&& t.agent_id == s[i].agent_id && t.session_id == s[i].session_id && t.agent_kind
                == s[i].agent_kind && t.project_scope == s[i].project_scope
            &&& t.last_seen_unix_ms == (if s[i].agent_id == new.agent_id && s[i].session_id
                == new.session_id {
                now
            } else {
                s[i].last_seen_unix_ms
            })
        }),
{
}

/// A heartbeat is of the agent and the session that it names, and names both.
pub proof fn law_heartbeats_name_their_session(
    r: Option<Seq<char>>,
    a: Option<Seq<char>>,
    b: Option<Seq<char>>,
)
    ensures
        heartbeat_outcome(r, a, b) is Ok <==> present(r) && present(a) && present(b),
        heartbeat_outcome(r, a, b) is Ok ==> ({
            let x = heartbeat_outcome(r, a, b)->Ok_0;
            a == Some(x.0) && b == Some(x.1)
        }),
{
}

// ---------------------------------------------------------------------------
// Writes
// ---------------------------------------------------------------------------

proof fn lemma_states(states: Seq<RecordState>)
    ensures
        matched_count(states) <= states.len(),
        matched_count(states) == states.len() <==> forall|i: int|
            0 <= i < states.len() ==> (#[trigger] states[i]) is Matched,
        matched_count(states) == 0 <==> forall|i: int|
            0 <= i < states.len() ==> !((#[trigger] states[i]) is Matched),
    decreases states.len(),
{
    if states.len() > 0 {
        let t = states.drop_last();
        lemma_states(t);
        assert forall|i: int| 0 <= i < t.len() implies t[i] == #[trigger] states[i] by {}
        assert(states[states.len() - 1] == states.last());
        if forall|i: int| 0 <= i < states.len() ==> (#[trigger] states[i]) is Matched {
            assert forall|i: int| 0 <= i < t.len() implies (#[trigger] t[i]) is Matched by {
                assert(states[i] is Matched);
            }
        }
        if forall|i: int| 0 <= i < states.len() ==> !((#[trigger] states[i]) is Matched) {
            assert forall|i: int| 0 <= i < t.len() implies !((#[trigger] t[i]) is Matched) by {
                assert(!(states[i] is Matched));
            }
        }
    }
}

proof fn lemma_no_failure(states: Seq<RecordState>)
    requires
        forall|i: int| 0 <= i < states.len() ==> !((#[trigger] states[i]) is Failed),
    ensures
        first_failure(states) is None,
    decreases states.len(),
{
    if states.len() > 0 {
        assert(!(states[0] is Failed));
        let t = states.drop_first();
        assert forall|i: int| 0 <= i < t.len() implies !((#[trigger] t[i]) is Failed) by {
            assert(t[i] == states[i + 1]);
        }
        lemma_no_failure(t);
    }
}

/// A write that was begun is found to be whole where the store has every record, and not begun
/// where it has none; where it has some but not all, or another record in the place of one, it is
/// refused. The bytes are taken for granted to tell the records apart.
pub proof fn law_what_an_interrupted_write_left(
    records: Seq<GraphRecord>,
    payloads: Seq<Vec<u8>>,
    states: Seq<RecordState>,
)
    requires
        states.len() == records.len(),
        records.len() > 0,
        crate::ingest_rules::recovery_key_error(records, payloads) is None,
        forall|i: int| 0 <= i < states.len() ==> !((#[trigger] states[i]) is Failed),
    ensures
        ({
            let r = recovery_outcome(records, payloads, states);
            let whole = forall|i: int| 0 <= i < states.len() ==> (#[trigger] states[i]) is Matched;
            let none = forall|i: int| 0 <= i < states.len() ==> (#[trigger] states[i]) is Missing;
            &&& whole ==> r == Ok::<bool, crate::api_error::ErrorView>(true)
            &&& none ==> r == Ok::<bool, crate::api_error::ErrorView>(false)
            &&& !whole && !none ==> r is Err && r->Err_0.code == ErrorCode::IdempotencyConflict
        }),
{
    lemma_states(states);
    lemma_no_failure(states);
    assert(states[0] is Matched || !(states[0] is Matched));
    if !(forall|i: int| 0 <= i < states.len() ==> (#[trigger] states[i]) is Missing)
        && matched_count(states) == 0 {
        let i = choose|i: int| 0 <= i < states.len() && !((#[trigger] states[i]) is Missing);
        assert(!(states[i] is Matched) && !(states[i] is Failed));
        assert(states[i] is Mismatched);
    }
}

/// What is written is what was submitted, each record in its place or the same node with its links
/// completed, and behind them the edges of the evidence.
pub proof fn law_what_is_planned(
    s: Seq<RecordView>,
    ns: Seq<NodeView>,
    es: Seq<crate::ir::EdgeView>,
    i: int,
)
    ensures
        planned(s, ns, es).len() == s.len() + es.len(),
        0 <= i < s.len() && (forall|k: int|
            0 <= k < ns.len() ==> (#[trigger] ns[k]).id != view_id(s[i])) ==> planned(s, ns, es)[i]
            == s[i],
        0 <= i < s.len() ==> view_id(planned(s, ns, es)[i]) == view_id(s[i]),
        0 <= i < es.len() ==> planned(s, ns, es)[s.len() + i] == RecordView::Edge(es[i]),
{
    if 0 <= i < s.len() {
        lemma_canonical(ns, view_id(s[i]));
        assert(planned(s, ns, es)[i] == replaced(ns, s[i]));
    }
}

proof fn lemma_canonical(ns: Seq<NodeView>, id: Seq<char>)
    ensures
        match crate::write::canonical_for(ns, id) {
            Some(n) => n.id == id && ns.contains(n),
            None => true,
        },
    decreases ns.len(),
{
    if ns.len() > 0 {
        let t = ns.drop_last();
        lemma_canonical(t, id);
        if ns.last().id == id {
            assert(ns[ns.len() - 1] == ns.last());
        } else if crate::write::canonical_for(t, id) is Some {
            let n = crate::write::canonical_for(t, id)->0;
            let k = choose|k: int| 0 <= k < t.len() && t[k] == n;
            assert(ns[k] == n);
        }
    }
}

/// A write that nothing is remembered of reads the store first; what the store reports of the
/// records is what is remembered and answered, number by number.
pub proof fn law_the_report_is_the_answer(
    c: WriteCommand,
    state: WriteState,
    records: Vec<GraphRecord>,
    event: WriteEvent,
    report: crate::write::IngestReport,
)
    requires
        crate::ingest_rules::recovery_key_error(c.records@, c.payloads@) is None,
        state == (WriteState::Writing { records }),
        event == (WriteEvent::Written { report: Ok(report) }),
    ensures
        begin_outcome(c, None) == (StateView::Reading { pending: false }, ActionView::ReadStore),
        ({
            let next = step_outcome(c, state, event);
            let done = next->0;
            &&& next is Some
            &&& done.0 is Completing && done.1 is Save
            &&& ({
                let a = done.0->answer;
                &&& a.attempted == report@.attempted && a.succeeded == report@.succeeded
                    && a.failed == report@.failed && a.failures == report@.failures
                &&& !a.idempotent
                &&& a.record_ids.len() == records@.len()
                &&& done.1->Save_0 == (EntryView::Committed {
                    payload_hash: c.payload_hash@,
                    response: a,
                })
            })
        }),
{
    assert(crate::ir::record_views(records@).len() == records@.len());
}

// ---------------------------------------------------------------------------
// Jobs
// ---------------------------------------------------------------------------

/// A new job is accepted, queued and run; one that was accepted under the same key for the same
/// payload is told again and not run; under another payload it is refused.
pub proof fn law_when_a_job_is_run(
    jobs: Map<Seq<char>, JobView>,
    job_id: Seq<char>,
    hash: Seq<char>,
)
    ensures
        ({
            let (after, r) = job_outcome(jobs, job_id, hash, None);
            &&& !jobs.dom().contains(job_id) ==> r is Ok && r->Ok_0.http_status == 202
                && r->Ok_0.run == JobRun::Submitted && after.dom().contains(job_id)
                && after[job_id].status == "queued"@ && after[job_id].events == seq!["queued"@]
                && after[job_id].payload_hash == hash && after[job_id].report is None
            &&& jobs.dom().contains(job_id) && jobs[job_id].payload_hash == hash ==> r is Ok
                && r->Ok_0.http_status == 200 && r->Ok_0.run == JobRun::Nothing && after == jobs
            &&& jobs.dom().contains(job_id) && jobs[job_id].payload_hash != hash ==> r is Err
                && r->Err_0.code == ErrorCode::IdempotencyConflict && r->Err_0.status == 409
                && after == jobs
        }),
{
}

/// A job whose write is remembered is done, and one whose write was begun is run again from what is
/// remembered.
pub proof fn law_remembered_jobs(
    jobs: Map<Seq<char>, JobView>,
    job_id: Seq<char>,
    hash: Seq<char>,
    response: IngestResponseView,
    ids: Seq<Seq<char>>,
    records: Seq<RecordView>,
)
    requires
        !jobs.dom().contains(job_id),
    ensures
        ({
            let e = EntryView::Committed { payload_hash: hash, response };
            let (after, r) = job_outcome(jobs, job_id, hash, Some(e));
            &&& r is Ok && r->Ok_0.http_status == 200 && r->Ok_0.run == JobRun::Nothing
            &&& after.dom().contains(job_id) && after[job_id].status == "completed"@
                && after[job_id].report == Some(response)
        }),
        ({
            let e = EntryView::Pending { payload_hash: hash, record_ids: ids, records };
            let (after, r) = job_outcome(jobs, job_id, hash, Some(e));
            &&& r is Ok && r->Ok_0.http_status == 200 && r->Ok_0.run == JobRun::Recovered
            &&& after.dom().contains(job_id) && after[job_id].status == "queued"@
        }),
{
}

/// A job that ended says how: completed with the report, or failed with one that says why; its
/// history is longer by that.
pub proof fn law_how_a_job_ends(
    jobs: Map<Seq<char>, JobView>,
    job_id: Seq<char>,
    report: IngestResponseView,
    e: crate::api_error::ErrorView,
)
    requires
        jobs.dom().contains(job_id),
    ensures
        ({
            let j = job_ended(jobs, job_id, Ok(report))[job_id];
            &&& j.status == "completed"@ && j.report == Some(report)
            &&& j.events == jobs[job_id].events.push("completed"@)
            &&& j.payload_hash == jobs[job_id].payload_hash
        }),
        ({
            let j = job_ended(jobs, job_id, Err(e))[job_id];
            &&& j.status == "failed"@ && j.report is Some
            &&& j.events == jobs[job_id].events.push("failed"@)
            &&& j.report->0.attempted == 0 && j.report->0.succeeded == 0 && j.report->0.failed == 1
            &&& j.report->0.failures.len() == 1 && j.report->0.failures[0].message == e.message
                && j.report->0.failures[0].record_id == job_id
        }),
{
}

// ---------------------------------------------------------------------------
// HTTP
// ---------------------------------------------------------------------------

/// A request is authorized exactly by the token behind `Bearer`, and by no other.
pub proof fn law_the_token_authorizes(m: Map<Seq<char>, Seq<char>>, token: Seq<char>, other: Seq<char>)
    ensures
        m.dom().contains("authorization"@) && m["authorization"@] == "Bearer "@ + token
            ==> authorized(m, token),
        !m.dom().contains("authorization"@) ==> !authorized(m, token),
        authorized(m, token) && authorized(m, other) ==> token == other,
{
    if authorized(m, token) && authorized(m, other) {
        let n = "Bearer "@.len() as int;
        assert(("Bearer "@ + token).skip(n) =~= token);
        assert(("Bearer "@ + other).skip(n) =~= other);
    }
}

/// A header is read under its name in small letters, without the blanks round it; of two of one
/// name the last is taken, and a line without a colon says nothing.
pub proof fn law_last_header_is_taken(
    lines: Seq<Seq<char>>,
    line: Seq<char>,
    n: Seq<char>,
    v: Seq<char>,
    other: Seq<char>,
)
    ensures
        split_once_seq(line, ":"@) == Some((n, v)) ==> headers_of(lines.push(line)).dom().contains(
            lower_seq(trim_seq(n)),
        ) && headers_of(lines.push(line))[lower_seq(trim_seq(n))] == trim_seq(v),
        split_once_seq(line, ":"@) == Some((n, v)) && other != lower_seq(trim_seq(n)) ==> (
        headers_of(lines.push(line)).dom().contains(other) <==> headers_of(lines).dom().contains(
            other,
        )) && headers_of(lines.push(line))[other] == headers_of(lines)[other],
        split_once_seq(line, ":"@) is None ==> headers_of(lines.push(line)) == headers_of(lines),
{
    assert(lines.push(line).drop_last() =~= lines);
}

/// Each status that the daemon answers with has its own words.
pub proof fn law_status_words()
    ensures
        status_words(200) == "OK"@,
        status_words(202) == "Accepted"@,
        status_words(400) == "Bad Request"@,
        status_words(401) == "Unauthorized"@,
        status_words(404) == "Not Found"@,
        status_words(408) == "Request Timeout"@,
        status_words(409) == "Conflict"@,
        status_words(422) == "Unprocessable Entity"@,
        status_words(429) == "Too Many Requests"@,
        status_words(500) == "Internal Server Error"@,
{
}

/// What is wrong with the request is answered in the four hundreds, and only what is wrong with the
/// daemon in the five hundreds.
pub proof fn law_whose_fault_an_error_is(code: ErrorCode)
    ensures
        500 <= code_status(code) <= 503 <==> code == ErrorCode::InternalError || code
            == ErrorCode::NotImplemented || code == ErrorCode::ShutdownInProgress,
        400 <= code_status(code) < 500 <==> !(500 <= code_status(code) <= 503),
        code_status(code) == 401 <==> code == ErrorCode::Unauthorized,
        code_status(code) == 404 <==> code == ErrorCode::NotFound,
        code_status(code) == 408 <==> code == ErrorCode::QueryTimeout,
        code_status(code) == 409 <==> code == ErrorCode::IdempotencyConflict,
        code_status(code) == 413 <==> code == ErrorCode::PayloadTooLarge,
        code_status(code) == 429 <==> code == ErrorCode::QueueFull,
        code_status(code) == 422 <==> code == ErrorCode::RedactionRequired || code
            == ErrorCode::UnresolvedEvidenceTarget || code
            == ErrorCode::LocalPathIdentityUnsupported || code == ErrorCode::MissingEvidenceHandle
            || code == ErrorCode::PatchStatusPinned,
        code_status(ErrorCode::InternalError) == 500,
        code_status(ErrorCode::NotImplemented) == 501,
        code_status(ErrorCode::ShutdownInProgress) == 503,
{
}

// ---------------------------------------------------------------------------
// The daemon of a store
// ---------------------------------------------------------------------------

/// A daemon is healthy exactly where it answers with success, says that it is, and is of this
/// version and of this store.
pub proof fn law_healthy_daemons(
    status: u16,
    body: Seq<char>,
    h: HealthView,
    version: Seq<char>,
    store: Seq<char>,
)
    ensures
        health_error(status, body, Some(h), version, store) is None <==> status == 200 && h.status
            == Some("ok"@) && h.version == Some(version) && h.data_dir == Some(store),
        health_error(status, body, None, version, store) is Some,
{
}

/// A daemon may start exactly where none runs and the store is free.
pub proof fn law_when_a_daemon_may_start(
    running_at: Option<Seq<char>>,
    metadata_exists: bool,
    lease_free: bool,
    data_dir: Seq<char>,
)
    ensures
        start_error(running_at, metadata_exists, lease_free, data_dir) is None <==> running_at
            is None && lease_free,
{
}

/// A daemon that took the request to stop is waited for; where it did not, stopping fails, and its
/// traces are cleared only where it no longer answers and the store is free.
pub proof fn law_when_traces_are_cleared(
    refused: Option<Seq<char>>,
    answers: bool,
    lease_free: bool,
    data_dir: Seq<char>,
)
    ensures
        stop_step(refused, answers, lease_free, data_dir) is Wait <==> refused is None,
        refused is Some ==> (stop_step(refused, answers, lease_free, data_dir)->clear <==> !answers
            && lease_free),
{
}

/// A query failed exactly where the answer is not success; it says the code and the message that
/// the answer holds.
pub proof fn law_failed_queries_say_why(
    status: u16,
    body: Seq<char>,
    json: bool,
    code: Seq<char>,
    message: Seq<char>,
)
    ensures
        query_failure(status, body, json, Some(code), Some(message)) is None <==> status == 200,
        status != 200 && json ==> query_failure(status, body, json, Some(code), Some(message))
            == Some("daemon query error ("@ + code + "): "@ + message),
        status != 200 && !json ==> query_failure(status, body, json, Some(code), Some(message))
            == Some("daemon query error (parse_error): "@ + body),
{
}

// ---------------------------------------------------------------------------
// Records of verification and of artifacts
// ---------------------------------------------------------------------------

/// Whether a text is given and not empty.
pub open spec fn given(t: Option<Seq<char>>) -> bool {
    t is Some && t->0.len() > 0
}

/// A record of verification is accepted only with its version, as a check that was run, with a time
/// that is one where it gives one, and with a handle of its evidence.
pub proof fn law_accepted_verifications(n: NodeView)
    requires
        has_prefix(n.id, "verification:v1:"@) || n.domain == Some("verification"@),
        verification_error(n) is None,
    ensures
        n.schema_version == crate::ir::VERIFICATION_SCHEMA_VERSION,
        n.kind == NodeKind::CommandRun || n.kind == NodeKind::Verification || n.kind
            == NodeKind::TestRun || n.kind == NodeKind::CIStatus || n.kind == NodeKind::BenchmarkRun
            || n.kind == NodeKind::CoverageReport || n.kind == NodeKind::ProofResult,
        n.executed_at is Some ==> rfc3339_instant_of(n.executed_at->0) is Some,
        given(n.source_artifact_hash) || given(n.source_artifact_path) || (n.stdout_handle is Some
            && n.stdout_handle->0.hash.len() > 0),
        n.stdout_handle is Some ==> output_handle_error(
            "stdout_handle"@,
            n.stdout_handle->0,
        ) is None,
        n.stderr_handle is Some ==> output_handle_error(
            "stderr_handle"@,
            n.stderr_handle->0,
        ) is None,
{
}

/// An output is accepted exactly with its hash, with a length not below what it holds, and where it
/// holds something within the ceiling.
pub proof fn law_accepted_outputs(field: Seq<char>, h: crate::ir::OutputHandleView)
    ensures
        output_handle_error(field, h) is None <==> h.hash.len() > 0 && (h.inline is Some
            ==> inline_bytes(h.inline) <= h.bytes && h.bytes
            <= crate::record_rules::INLINE_PAYLOAD_CEILING),
{
}

/// A patch is accepted only with its version, a status of the seven, a base or that it is not
/// known, the files, the hash, the size and the place of its bytes, and where and when it was made.
pub proof fn law_accepted_patches(n: NodeView)
    requires
        has_prefix(n.id, "artifact:v1:"@) || n.domain == Some("artifact"@),
        artifact_error(n) is None,
    ensures
        n.kind == NodeKind::PatchArtifact,
        n.domain == Some("artifact"@),
        n.patch_status == Some("applied_clean"@) || n.patch_status == Some(
            "applied_with_conflicts"@,
        ) || n.patch_status == Some("invalid_syntax"@) || n.patch_status == Some(
            "invalid_no_base"@,
        ) || n.patch_status == Some("rejected_validation"@) || n.patch_status == Some(
            "unverified"@,
        ) || n.patch_status == Some("superseded"@),
        given(n.base_commit) || n.unknown_base_reason == Some("unknown_base"@),
        n.target_files is Some,
        given(n.patch_bytes_hash),
        n.patch_bytes_size is Some,
        n.patch_handle is Some && n.patch_handle->0.path.len() > 0,
        n.patch_handle->0.inline is Some ==> inline_bytes(n.patch_handle->0.inline)
            <= n.patch_bytes_size->0 && n.patch_bytes_size->0
            <= crate::record_rules::INLINE_PAYLOAD_CEILING,
        given(n.validation_summary) && given(n.source_artifact_path) && given(
            n.source_artifact_hash,
        ) && given(n.producer_session_id),
        given(n.valid_time) && rfc3339_instant_of(n.valid_time->0) is Some,
        n.valid_time_source == Some("produced_at"@),
        given(n.ingested_at) && rfc3339_instant_of(n.ingested_at->0) is Some,
{
}

} // verus!
