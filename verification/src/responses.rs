//! What the daemon answers.

use vstd::prelude::*;
use vstd::string::*;

use crate::api_error::{code_name, ApiError, ErrorView};
use crate::outside::{json_text_of, quote_json};
use crate::text::{concat2, concat3, concat5, concat7, decimal, decimal_seq, opt_str_view};

verus! {

/// An answer: its status, and its body in JSON.
#[derive(Clone, Debug, PartialEq, Eq)]
pub struct HttpResponse {
    pub status: u16,
    pub body: String,
}

/// A text in JSON, or `null`.
pub open spec fn json_or_null(s: Option<Seq<char>>) -> Seq<char> {
    match s {
        Some(x) => json_text_of(x),
        None => "null"@,
    }
}

fn quote_or_null(s: Option<&str>) -> (r: String)
    ensures
        r@ == json_or_null(opt_str_view(s)),
{
    match s {
        Some(x) => quote_json(x),
        None => "null".to_owned(),
    }
}

/// The body of an answer that succeeds: `result` is JSON.
pub open spec fn success_body(request_id: Option<Seq<char>>, result: Seq<char>) -> Seq<char> {
    "{\"ok\":true,\"request_id\":"@ + json_or_null(request_id) + ",\"result\":"@ + result + "}"@
}

/// The field of an error, where it names one.
pub open spec fn field_part(field: Option<Seq<char>>) -> Seq<char> {
    match field {
        Some(f) => ",\"field\":"@ + json_text_of(f),
        None => ""@,
    }
}

/// Whether a part of the result is there, where an error says so.
pub open spec fn partial_part(partial: Option<bool>) -> Seq<char> {
    match partial {
        Some(p) => if p {
            ",\"partial_result\":true"@
        } else {
            ",\"partial_result\":false"@
        },
        None => ""@,
    }
}

/// When to try again, where an error says so.
pub open spec fn retry_part(ms: Option<u64>) -> Seq<char> {
    match ms {
        Some(n) => ",\"retry_after_ms\":"@ + decimal_seq(n as nat),
        None => ""@,
    }
}

/// What is said of an error.
pub open spec fn error_object(e: ErrorView) -> Seq<char> {
    "{\"code\":"@ + json_text_of(code_name(e.code)) + field_part(e.field) + ",\"message\":"@
        + json_text_of(e.message) + partial_part(e.partial_result) + retry_part(e.retry_after_ms)
        + "}"@
}

/// The body of an answer that fails.
pub open spec fn error_body(request_id: Option<Seq<char>>, e: ErrorView) -> Seq<char> {
    "{\"error\":"@ + error_object(e) + ",\"ok\":false,\"request_id\":"@ + json_or_null(request_id)
        + "}"@
}

fn make_error_object(e: &ApiError) -> (r: String)
    ensures
        r@ == error_object(e@),
{
    let field = match &e.field {
        Some(f) => concat2(",\"field\":", quote_json(f.as_str()).as_str()),
        None => "".to_owned(),
    };
    let partial = match e.partial_result {
        Some(p) => if p {
            ",\"partial_result\":true"
        } else {
            ",\"partial_result\":false"
        },
        None => "",
    };
    let retry = match e.retry_after_ms {
        Some(n) => concat2(",\"retry_after_ms\":", decimal(n).as_str()),
        None => "".to_owned(),
    };
    let code = quote_json(e.code.as_str());
    let message = quote_json(e.message.as_str());
    let head = concat5(
        "{\"code\":",
        code.as_str(),
        field.as_str(),
        ",\"message\":",
        message.as_str(),
    );
    let tail = concat3(partial, retry.as_str(), "}");
    let r = concat2(head.as_str(), tail.as_str());
    proof {
        assert(r@ =~= error_object(e@));
    }
    r
}

/// The body of an answer that fails.
pub fn build_error_envelope(request_id: Option<&str>, error: &ApiError) -> (r: String)
    ensures
        r@ == error_body(opt_str_view(request_id), error@),
{
    let object = make_error_object(error);
    let id = quote_or_null(request_id);
    concat5(
        "{\"error\":",
        object.as_str(),
        ",\"ok\":false,\"request_id\":",
        id.as_str(),
        "}",
    )
}

/// The body that says that the daemon is well.
pub open spec fn health_body(version: Seq<char>, store_identity: Seq<char>) -> Seq<char> {
    "{\"api_version\":\"v1\",\"data_dir\":"@ + json_text_of(store_identity)
        + ",\"status\":\"ok\",\"version\":"@ + json_text_of(version) + "}"@
}

/// The body that says what the daemon holds.
pub open spec fn status_body(jobs: nat, agents: nat, remembered: nat) -> Seq<char> {
    "{\"agents\":"@ + decimal_seq(agents)
        + ",\"api_version\":\"v1\",\"idempotency_store_size\":"@ + decimal_seq(remembered)
        + ",\"jobs\":"@ + decimal_seq(jobs) + ",\"status\":\"running\"}"@
}

/// What is said of a job that was accepted.
pub open spec fn queued_result(job_id: Seq<char>) -> Seq<char> {
    "{\"job_id\":"@ + json_text_of(job_id) + ",\"status\":\"queued\"}"@
}

/// What is said of a query: `records` is a list in JSON with so many items.
pub open spec fn query_result(
    verb: Seq<char>,
    snapshot: Seq<char>,
    records: Seq<char>,
    returned: nat,
) -> Seq<char> {
    "{\"page\":{\"cursor\":null,\"has_more\":false,\"returned\":"@ + decimal_seq(returned)
        + "},\"records\":"@ + records + ",\"snapshot\":"@ + json_text_of(snapshot) + ",\"verb\":"@
        + json_text_of(verb) + "}"@
}

impl HttpResponse {
    /// An answer that succeeds: `result` is JSON. The identifier of the request is given
    /// back where it was read.
    pub fn success(request_id: Option<&str>, status: u16, result: &str) -> (r: HttpResponse)
        ensures
            r.status == status,
            r.body@ == success_body(opt_str_view(request_id), result@),
    {
        let id = quote_or_null(request_id);
        HttpResponse {
            status,
            body: concat5(
                "{\"ok\":true,\"request_id\":",
                id.as_str(),
                ",\"result\":",
                result,
                "}",
            ),
        }
    }

    /// An answer that fails before the identifier of the request was read.
    pub fn error(error: &ApiError) -> (r: HttpResponse)
        ensures
            r.status == error.status,
            r.body@ == error_body(None, error@),
    {
        HttpResponse { status: error.status, body: build_error_envelope(None, error) }
    }

    /// An answer that fails.
    pub fn error_with_id(request_id: &str, error: &ApiError) -> (r: HttpResponse)
        ensures
            r.status == error.status,
            r.body@ == error_body(Some(request_id@), error@),
    {
        HttpResponse { status: error.status, body: build_error_envelope(Some(request_id), error) }
    }

    /// The answer that says that the daemon is well.
    pub fn health(version: &str, store_identity: &str) -> (r: HttpResponse)
        ensures
            r.status == 200,
            r.body@ == health_body(version@, store_identity@),
    {
        let dir = quote_json(store_identity);
        let v = quote_json(version);
        HttpResponse {
            status: 200,
            body: concat5(
                "{\"api_version\":\"v1\",\"data_dir\":",
                dir.as_str(),
                ",\"status\":\"ok\",\"version\":",
                v.as_str(),
                "}",
            ),
        }
    }

    /// The answer that says what the daemon holds.
    pub fn running(jobs: usize, agents: usize, remembered: usize) -> (r: HttpResponse)
        ensures
            r.status == 200,
            r.body@ == status_body(jobs as nat, agents as nat, remembered as nat),
    {
        let a = decimal(agents as u64);
        let n = decimal(remembered as u64);
        let j = decimal(jobs as u64);
        HttpResponse {
            status: 200,
            body: concat7(
                "{\"agents\":",
                a.as_str(),
                ",\"api_version\":\"v1\",\"idempotency_store_size\":",
                n.as_str(),
                ",\"jobs\":",
                j.as_str(),
                ",\"status\":\"running\"}",
            ),
        }
    }

    /// The answer to a job: with 202 where it was new, else with 200.
    pub fn job_queued(request_id: &str, job_id: &str, new: bool) -> (r: HttpResponse)
        ensures
            r.status == (if new {
                202u16
            } else {
                200u16
            }),
            r.body@ == success_body(Some(request_id@), queued_result(job_id@)),
    {
        let id = quote_json(job_id);
        let result = concat3("{\"job_id\":", id.as_str(), ",\"status\":\"queued\"}");
        let status: u16 = if new {
            202
        } else {
            200
        };
        HttpResponse::success(Some(request_id), status, result.as_str())
    }
}

/// What is said of a query: `records` is a list in JSON with so many items.
pub fn verb_success_result(verb: &str, snapshot: &str, records: &str, returned: usize) -> (r:
    String)
    ensures
        r@ == query_result(verb@, snapshot@, records@, returned as nat),
{
    let n = decimal(returned as u64);
    let s = quote_json(snapshot);
    let v = quote_json(verb);
    let head = concat5(
        "{\"page\":{\"cursor\":null,\"has_more\":false,\"returned\":",
        n.as_str(),
        "},\"records\":",
        records,
        ",\"snapshot\":",
    );
    let r = concat5(head.as_str(), s.as_str(), ",\"verb\":", v.as_str(), "}");
    proof {
        assert(r@ =~= query_result(verb@, snapshot@, records@, returned as nat));
    }
    r
}

/// No answer that succeeds reads like a refusal.
pub proof fn law_answers_tell_success_from_refusal(
    request_id: Option<Seq<char>>,
    other: Option<Seq<char>>,
    result: Seq<char>,
    e: ErrorView,
)
    ensures
        success_body(request_id, result) != error_body(other, e),
{
    let a = success_body(request_id, result);
    let b = error_body(other, e);
    reveal_strlit("{\"ok\":true,\"request_id\":");
    reveal_strlit("{\"error\":");
    assert(a[2] == 'o');
    assert(b[2] == 'e');
}

} // verus!
