//! What goes over the wire and comes in from files, said of the texts themselves.

use vstd::prelude::*;
use vstd::utf8::encode_utf8;

use crate::acceptance_laws::known_agent;
use crate::api_error::ErrorCode;
use crate::codex_events::{lacking, lines_upto};
use crate::crate_attribution::directory_of;
use crate::daemon::{
    active, health_reading, ingest_failure, is_healthy, run_arguments, runtime_name_of,
    shutdown_request, Answer, ClientView, DaemonConfigView, DaemonMetadataView,
};
use crate::daemon_laws::present;
use crate::decide::{decision_time, DecideView};
use crate::evidence_freshness::in_order;
use crate::http::{declared_length, first_line, head_ends_at, request_message};
use crate::identity::stable_id_of;
use crate::ir::{GraphRecord, AGENT_MEMORY_SCHEMA_VERSION};
use crate::listing_laws::lemma_in_order_of;
use crate::outside::{json_str_of, json_valid_of, rfc3339_instant_of};
use crate::queries::prefix_error;
use crate::requests::{
    job_of_path, open_route, registration_outcome, registration_records, AgentRegisterView,
    AgentRegistrationView, RouteView,
};
use crate::scan::{char_is_whitespace, find_from};
use crate::text::{decimal_seq, has_prefix, has_suffix, split_seq};
use crate::text_laws::{
    law_prefixes_are_stripped, law_the_first_place_is_found, law_written_numbers_are_read,
    piece_at,
};

verus! {

// ---------------------------------------------------------------------------
// Requests
// ---------------------------------------------------------------------------

/// The path of a job names it, and with `/events` behind it asks for what happened; that of a record
/// names the record.
pub proof fn law_paths_name_what_they_ask_for(id: Seq<char>)
    requires
        id.len() > 0,
        !piece_at(id, "/v1/jobs/"@, 0),
        !piece_at(id + "/events"@, "/v1/jobs/"@, 0),
        !piece_at(id, "/v1/records/"@, 0),
        !has_suffix(id, "/events"@),
    ensures
        job_of_path("/v1/jobs/"@ + id) == (id, false),
        job_of_path("/v1/jobs/"@ + (id + "/events"@)) == (id, true),
        open_route("GET"@, "/v1/records/"@ + id) == RouteView::Record(id),
        open_route("GET"@, "/v1/jobs/"@ + id) == RouteView::Job("/v1/jobs/"@ + id),
{
    reveal_strlit("/v1/jobs/");
    reveal_strlit("/v1/records/");
    reveal_strlit("/v1/status");
    reveal_strlit("/events");
    law_prefixes_are_stripped(id, "/v1/jobs/"@);
    law_prefixes_are_stripped(id + "/events"@, "/v1/jobs/"@);
    law_prefixes_are_stripped(id, "/v1/records/"@);
    let e = id + "/events"@;
    assert(e.skip(e.len() - "/events"@.len()) =~= "/events"@);
    assert(e.take(e.len() - "/events"@.len()) =~= id);
    let r = "/v1/records/"@ + id;
    let j = "/v1/jobs/"@ + id;
    assert(r.take("/v1/records/"@.len() as int) =~= "/v1/records/"@);
    assert(j.take("/v1/jobs/"@.len() as int) =~= "/v1/jobs/"@);
    assert("/v1/status"@.len() == 10 && "/v1/status"@[4] == 's');
    assert(r[4] == 'r' && j[4] == 'j');
    if has_prefix(j, "/v1/records/"@) {
        assert(j.take("/v1/records/"@.len() as int)[4] == 'j');
        assert("/v1/records/"@[4] == 'r');
    }
}

/// The records of a registration hang on who is registered: the agent on its identifier, its kind
/// and its project, and the edge on the session and the agent that it joins.
pub proof fn law_registrations_are_told_apart(a: AgentRegistrationView)
    ensures
        ({
            let out = registration_records(a);
            &&& out.len() == 3 && out[0] is Node && out[1] is Node && out[2] is Edge
            &&& out[0]->Node_0.id == stable_id_of(
                "agent_memory"@,
                AGENT_MEMORY_SCHEMA_VERSION as nat,
                seq!["node"@, "agent"@, a.agent_id, a.agent_kind, a.project_scope],
            )
            &&& out[2]->Edge_0.id == stable_id_of(
                "agent_memory"@,
                AGENT_MEMORY_SCHEMA_VERSION as nat,
                seq!["edge"@, "SESSION_OF"@, out[1]->Node_0.id, out[0]->Node_0.id],
            )
            &&& out[1]->Node_0.id == stable_id_of(
                "agent_memory"@,
                AGENT_MEMORY_SCHEMA_VERSION as nat,
                seq!["node"@, "agent_session"@, a.agent_id, a.session_id],
            )
            &&& out[1]->Node_0.name == Some(a.session_id)
            &&& out[1]->Node_0.agent_kind == Some(a.agent_kind)
            &&& out[1]->Node_0.ingested_at == Some(a.registered_at)
        }),
{
}

/// A registration is accepted exactly where it names the request, the agent, the session, a kind of
/// agent that is known, the project and a time that can be read.
pub proof fn law_which_registrations_are_accepted(
    e: AgentRegisterView,
    product: Option<Seq<char>>,
)
    ensures
        registration_outcome(e, product) is Ok <==> present(e.request_id) && present(e.agent_id)
            && present(e.session_id) && present(e.agent_kind) && known_agent(e.agent_kind, product)
            && present(e.project_scope) && present(e.created_at) && rfc3339_instant_of(
            e.created_at->0,
        ) is Some,
{
    let kinds = crate::evidence_edges::agent_kinds(product);
    if product is Some {
        assert(kinds[0] == "codex"@ && kinds[1] == product->0 && kinds[2] == "vantage"@);
        assert(kinds[3] == "rust-swe-agent"@ && kinds[4] == "human"@ && kinds[5] == "other"@);
        assert(kinds.len() == 6);
    } else {
        assert(kinds[0] == "codex"@ && kinds[1] == "vantage"@ && kinds[2] == "rust-swe-agent"@);
        assert(kinds[3] == "human"@ && kinds[4] == "other"@);
        assert(kinds.len() == 5);
    }
    if e.agent_kind is Some {
        let k = e.agent_kind->0;
        if kinds.contains(k) {
            let i = choose|i: int| 0 <= i < kinds.len() && kinds[i] == k;
            assert(known_agent(e.agent_kind, product));
        }
        if known_agent(e.agent_kind, product) {
            assert(kinds.contains(k));
        }
    }
}

/// A request says its method and path, how many bytes its body has, and the body; the token goes
/// with it where there is one, and nothing of the kind where there is none.
pub proof fn law_requests_say_what_they_carry(
    method: Seq<char>,
    path: Seq<char>,
    token: Seq<char>,
    body: Seq<char>,
)
    ensures
        ({
            let head = method + " "@ + path + " HTTP/1.1\r\nHost: egregore\r\n"@;
            let tail = "Content-Type: application/json\r\nContent-Length: "@ + decimal_seq(
                encode_utf8(body).len(),
            ) + "\r\nConnection: close\r\n\r\n"@ + body;
            &&& request_message(method, path, Some(token), body) == head
                + "Authorization: Bearer "@ + token + "\r\n"@ + tail
            &&& request_message(method, path, None, body) == head + tail
        }),
{
    reveal_strlit("");
    assert(""@ =~= Seq::<char>::empty());
    let head = method + " "@ + path + " HTTP/1.1\r\nHost: egregore\r\n"@;
    let tail = "Content-Type: application/json\r\nContent-Length: "@ + decimal_seq(
        encode_utf8(body).len(),
    ) + "\r\nConnection: close\r\n\r\n"@ + body;
    assert(request_message(method, path, Some(token), body) =~= head + "Authorization: Bearer "@
        + token + "\r\n"@ + tail);
    assert(request_message(method, path, None, body) =~= head + tail);
}

/// The length that a request declares is the number in its header; without the header, or where
/// that holds no number, it is nil. What a request was sent with is what is read.
pub proof fn law_declared_lengths(m: Map<Seq<char>, Seq<char>>, n: nat)
    ensures
        !m.dom().contains("content-length"@) ==> declared_length(m) == 0,
        n <= usize::MAX && m.dom().contains("content-length"@) && m["content-length"@]
            == decimal_seq(n) ==> declared_length(m) == n,
        m.dom().contains("content-length"@) && m["content-length"@].len() == 0 ==> declared_length(
            m,
        ) == 0,
{
    law_written_numbers_are_read(n, usize::MAX as nat, Seq::empty(), 0);
    if m.dom().contains("content-length"@) && m["content-length"@].len() == 0 {
        assert(m["content-length"@] =~= Seq::<char>::empty());
    }
}

/// The head of a message ends at the first empty line: at a return and a line feed that another
/// return and line feed follow.
pub proof fn law_where_a_head_ends(b: Seq<u8>, i: int)
    requires
        0 <= i,
    ensures
        head_ends_at(b, i) <==> i + 4 <= b.len() && b.subrange(i, i + 4) == seq![
            13u8,
            10u8,
            13u8,
            10u8,
        ],
{
    if i + 4 <= b.len() {
        let t = b.subrange(i, i + 4);
        assert(t[0] == b[i] && t[1] == b[i + 1] && t[2] == b[i + 2] && t[3] == b[i + 3]);
        if head_ends_at(b, i) {
            assert(t =~= seq![13u8, 10u8, 13u8, 10u8]);
        }
        if t == seq![13u8, 10u8, 13u8, 10u8] {
            assert(seq![13u8, 10u8, 13u8, 10u8][0] == 13);
            assert(seq![13u8, 10u8, 13u8, 10u8][1] == 10);
            assert(seq![13u8, 10u8, 13u8, 10u8][2] == 13);
            assert(seq![13u8, 10u8, 13u8, 10u8][3] == 10);
        }
    }
}

/// The first line of a text is what stands before its first line feed, and the whole where it has
/// none.
pub proof fn law_first_lines(line: Seq<char>, rest: Seq<char>)
    requires
        !line.contains('\n'),
    ensures
        first_line(line + "\n"@ + rest) == line,
        first_line(line) == line,
{
    reveal_strlit("\n");
    let s = line + "\n"@ + rest;
    law_the_first_place_is_found(s, "\n"@, 0);
    law_the_first_place_is_found(line, "\n"@, 0);
    let n = line.len() as int;
    assert("\n"@.len() == 1 && "\n"@[0] == '\n');
    assert(s[n] == '\n');
    assert(piece_at(s, "\n"@, n));
    if find_from(s, "\n"@, 0) is Some {
        let i = find_from(s, "\n"@, 0)->0;
        assert("\n"@[0] == s[i + 0]);
        if i < n {
            assert(line[i] == '\n');
            assert(line.contains('\n'));
        }
        assert(s.take(n) =~= line);
    }
    if find_from(line, "\n"@, 0) is Some {
        let i = find_from(line, "\n"@, 0)->0;
        assert("\n"@[0] == line[i + 0]);
        assert(line.contains('\n'));
    }
}

// ---------------------------------------------------------------------------
// The daemon
// ---------------------------------------------------------------------------

/// A daemon is started with what it was configured with, each behind its flag.
pub proof fn law_daemon_is_started_as_configured(c: DaemonConfigView)
    ensures
        ({
            let a = run_arguments(c);
            &&& a.len() == 10 && a[0] == "daemon"@ && a[1] == "run"@
            &&& a[2] == "--data-dir"@ && a[3] == c.data_dir
            &&& a[4] == "--host"@ && a[5] == c.host
            &&& a[6] == "--port"@ && a[7] == decimal_seq(c.port as nat)
            &&& a[8] == "--write-queue-capacity"@ && a[9] == decimal_seq(
                c.write_queue_capacity as nat,
            )
        }),
{
}

/// The directory of a running daemon is named after the store; without a name it is the bare suffix.
pub proof fn law_running_daemons_have_their_directory(name: Seq<char>)
    ensures
        runtime_name_of(Some(name)) == name + ".egregore-runtime"@,
        runtime_name_of(None) == ".egregore-runtime"@,
{
}

/// A daemon that left its traces runs exactly where it answers as a healthy one; it is then the one
/// that left them.
pub proof fn law_which_daemon_runs(
    m: DaemonMetadataView,
    answer: Answer,
    store: Seq<char>,
    version: Seq<char>,
)
    ensures
        active(None, answer, store, version) is None,
        active(Some(m), answer, store, version) is Some <==> is_healthy(
            ClientView { metadata: m, store },
            answer,
            version,
        ),
        active(Some(m), answer, store, version) is Some ==> active(Some(m), answer, store, version)
            == Some(m),
{
}

/// What a daemon says of itself is read from its JSON; what is no JSON says nothing. A daemon is
/// stopped with its token, and an answer to a write is a failure unless it is that of success.
pub proof fn law_talking_with_a_daemon(body: Seq<char>, c: ClientView, status: u16)
    ensures
        health_reading(body) is Some <==> json_valid_of(body),
        json_valid_of(body) ==> {
            let h = health_reading(body)->0;
            &&& h.status == json_str_of(body, "status"@)
            &&& h.version == json_str_of(body, "version"@)
            &&& h.data_dir == json_str_of(body, "data_dir"@)
        },
        shutdown_request(c) == request_message(
            "POST"@,
            "/v1/admin/shutdown"@,
            Some(c.metadata.token),
            Seq::empty(),
        ),
        ingest_failure(status, body) is None <==> status == 200,
        status != 200 ==> ingest_failure(status, body)->0
            == "daemon ingest failed with HTTP "@ + decimal_seq(status as nat) + ": "@ + body,
{
    reveal_strlit("");
    assert(""@ =~= Seq::<char>::empty());
}

// ---------------------------------------------------------------------------
// Sessions
// ---------------------------------------------------------------------------

/// The line without the return that may stand at its end.
pub open spec fn without_return(line: Seq<char>) -> Seq<char> {
    if line.len() > 0 && line[line.len() - 1] == '\r' {
        line.take(line.len() - 1)
    } else {
        line
    }
}

/// Whether the line holds more than white space.
pub open spec fn says_a_thing(line: Seq<char>) -> bool {
    exists|i: int| 0 <= i < line.len() && !char_is_whitespace(#[trigger] line[i])
}

proof fn lemma_lines(parts: Seq<Seq<char>>, n: int)
    requires
        0 <= n <= parts.len(),
        parts.len() <= usize::MAX,
    ensures
        forall|i: int|
            #![trigger parts[i]]
            0 <= i < n && i + 1 < parts.len() && says_a_thing(without_return(parts[i]))
                ==> lines_upto(parts, n).contains((i as usize, without_return(parts[i]))),
        forall|k: int|
            0 <= k < lines_upto(parts, n).len() ==> 0 <= (#[trigger] lines_upto(parts, n)[k]).0 < n
                && says_a_thing(lines_upto(parts, n)[k].1),
        forall|k: int, m: int|
            0 <= k < m < lines_upto(parts, n).len() ==> (#[trigger] lines_upto(parts, n)[k]).0
                < (#[trigger] lines_upto(parts, n)[m]).0,
    decreases n,
{
    if n > 0 {
        lemma_lines(parts, n - 1);
        let before = lines_upto(parts, n - 1);
        let all = lines_upto(parts, n);
        let x = crate::codex_events::line_at(parts, n - 1);
        assert(crate::scan::blank(x) <==> !says_a_thing(x));
        if n < parts.len() {
            assert(x =~= without_return(parts[n - 1]));
        }
        if says_a_thing(x) {
            assert(all[all.len() - 1] == ((n - 1) as usize, x));
        }
        assert forall|i: int|
            #![trigger parts[i]]
            0 <= i < n && i + 1 < parts.len() && says_a_thing(
                without_return(parts[i]),
            ) implies all.contains((i as usize, without_return(parts[i]))) by {
            if i < n - 1 {
                let k = choose|k: int|
                    0 <= k < before.len() && before[k] == (i as usize, without_return(parts[i]));
                assert(all[k] == before[k]);
            }
        }
    }
}

/// The lines of a session are those of its text that hold more than white space, without the return
/// at their ends, each with its number and in their order.
pub proof fn law_lines_of_a_session(text: Seq<char>, i: int, k: int, m: int)
    requires
        split_seq(text, '\n').len() <= usize::MAX,
    ensures
        ({
            let parts = split_seq(text, '\n');
            let all = lines_upto(parts, parts.len() as int);
            &&& 0 <= i < parts.len() - 1 && says_a_thing(without_return(parts[i])) ==> all.contains(
                (i as usize, without_return(parts[i])),
            )
            &&& 0 <= k < all.len() ==> says_a_thing(all[k].1)
            &&& 0 <= k < m < all.len() ==> all[k].0 < all[m].0
        }),
{
    let parts = split_seq(text, '\n');
    lemma_lines(parts, parts.len() as int);
    if 0 <= i < parts.len() {
        let p = parts[i];
    }
}

/// A line of a session lacks the type where it has none; a message lacks the role, a call and an
/// output the identifier of the call, and a call the name, where it has none. What is no JSON lacks
/// nothing.
pub proof fn law_what_a_line_lacks(line: Seq<char>)
    ensures
        ({
            let t = json_str_of(line, "type"@);
            let valid = json_valid_of(line);
            &&& !valid ==> lacking(line) is None
            &&& valid && t is None ==> lacking(line) == Some("type"@)
            &&& valid && t == Some("message"@) && json_str_of(line, "role"@) is None ==> lacking(
                line,
            ) == Some("role"@)
            &&& valid && t == Some("message"@) && json_str_of(line, "role"@) is Some ==> lacking(
                line,
            ) is None
            &&& valid && t == Some("function_call"@) && json_str_of(line, "call_id"@) is None
                ==> lacking(line) == Some("call_id"@)
            &&& valid && t == Some("function_call_output"@) && json_str_of(line, "call_id"@) is None
                ==> lacking(line) == Some("call_id"@)
            &&& valid && t == Some("function_call"@) && json_str_of(line, "call_id"@) is Some
                && json_str_of(line, "name"@) is None ==> lacking(line) == Some("name"@)
            &&& valid && t == Some("function_call"@) && json_str_of(line, "call_id"@) is Some
                && json_str_of(line, "name"@) is Some ==> lacking(line) is None
            &&& valid && t == Some("function_call_output"@) && json_str_of(line, "call_id"@) is Some
                ==> lacking(line) is None
        }),
{
    reveal_strlit("message");
    reveal_strlit("function_call");
    reveal_strlit("function_call_output");
    assert("message"@.len() == 7 && "function_call"@.len() == 13);
    assert("function_call_output"@.len() == 20);
}

// ---------------------------------------------------------------------------
// Paths, prefixes and times
// ---------------------------------------------------------------------------

/// A path that is empty or absolute, that holds a backslash, or that goes up or stays where it is,
/// has no directory that a manifest could be in.
pub proof fn law_paths_without_a_directory(path: Seq<char>)
    ensures
        path.len() == 0 ==> directory_of(path) is None,
        path.len() > 0 && path[0] == '/' ==> directory_of(path) is None,
        path.contains('\\') ==> directory_of(path) is None,
        split_seq(path, '/').contains(".."@) ==> directory_of(path) is None,
        split_seq(path, '/').contains("."@) ==> directory_of(path) is None,
        path.len() > 0 && path[0] != '/' && !path.contains('\\') && !split_seq(path, '/').contains(
            ".."@,
        ) && !split_seq(path, '/').contains("."@) ==> directory_of(path) is Some,
{
}

/// Whether the `i`-th record is a node that was made at the commit.
pub open spec fn node_made_at(s: Seq<GraphRecord>, i: int, c: Seq<char>) -> bool {
    &&& 0 <= i < s.len() && s[i] is Node
    &&& s[i]->Node_0.temporal is Some && s[i]->Node_0.temporal->0.git_commit@ == c
}

/// Whether the commit begins with the prefix, and a node was made at it.
pub open spec fn meant(s: Seq<GraphRecord>, prefix: Seq<char>, c: Seq<char>) -> bool {
    has_prefix(c, prefix) && exists|i: int| #[trigger] node_made_at(s, i, c)
}

/// The prefix of a commit is ambiguous exactly where two commits of the store begin with it.
pub proof fn law_ambiguous_prefixes(s: Seq<GraphRecord>, prefix: Seq<char>)
    ensures
        prefix_error(s, prefix) is Some <==> exists|c: Seq<char>, d: Seq<char>|
            #[trigger] meant(s, prefix, c) && #[trigger] meant(s, prefix, d) && c != d,
        prefix_error(s, prefix) is Some ==> prefix_error(s, prefix)->0.code
            == ErrorCode::AmbiguousCommitPrefix,
{
    let p = |c: Seq<char>| crate::queries::commit_with_prefix(s, prefix, c);
    let n = s.len() as int;
    let f = |i: int|
        {
            let c = crate::history::commit_of(s[i]);
            if c is Some && has_prefix(c->0, prefix) {
                c
            } else {
                None
            }
        };
    assert forall|c: Seq<char>| #[trigger]
        p(c) <==> exists|i: int| 0 <= i < n && #[trigger] f(i) == Some(c) by {
        if p(c) {
            let i = choose|i: int|
                0 <= i < n && crate::history::commit_of(#[trigger] s[i]) == Some(c) && has_prefix(
                    c,
                    prefix,
                );
            assert(f(i) == Some(c));
        }
        if exists|i: int| 0 <= i < n && #[trigger] f(i) == Some(c) {
            let i = choose|i: int| 0 <= i < n && #[trigger] f(i) == Some(c);
            assert(crate::history::commit_of(s[i]) == Some(c));
        }
    }
    assert forall|c: Seq<char>| #[trigger] p(c) <==> meant(s, prefix, c) by {
        if p(c) {
            let i = choose|i: int|
                0 <= i < n && crate::history::commit_of(#[trigger] s[i]) == Some(c) && has_prefix(
                    c,
                    prefix,
                );
            assert(node_made_at(s, i, c));
        }
        if meant(s, prefix, c) {
            let i = choose|i: int| #[trigger] node_made_at(s, i, c);
            assert(crate::history::commit_of(s[i]) == Some(c));
        }
    }
    lemma_in_order_of(p, f, n);
    let v = in_order(p);
    if v.len() > 1 {
        assert(v.contains(v[0]) && v.contains(v[1]));
        assert(p(v[0]) && p(v[1]));
        assert(meant(s, prefix, v[0]) && meant(s, prefix, v[1]));
        assert(crate::text::lex_lt(v[0], v[1]));
        crate::text::lemma_lex_three(v[0], v[1], v[0]);
    }
    if exists|c: Seq<char>, d: Seq<char>|
        #[trigger] meant(s, prefix, c) && #[trigger] meant(s, prefix, d) && c != d {
        let (c, d) = choose|c: Seq<char>, d: Seq<char>|
            #[trigger] meant(s, prefix, c) && #[trigger] meant(s, prefix, d) && c != d;
        assert(p(c) && p(d));
        assert(v.contains(c) && v.contains(d));
        let i = choose|i: int| 0 <= i < v.len() && v[i] == c;
        let j = choose|j: int| 0 <= j < v.len() && v[j] == d;
        assert(i != j);
    }
}

/// A decision is of the time that it names, and of now where it names none.
pub proof fn law_time_of_a_decision(q: DecideView, now: Seq<char>)
    ensures
        q.transaction_time is Some ==> decision_time(q, now) == q.transaction_time->0,
        q.transaction_time is None ==> decision_time(q, now) == now,
{
}

} // verus!
