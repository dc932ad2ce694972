//! Requests to the daemon: which are accepted, and where they go.

use vstd::prelude::*;
use vstd::string::*;

use crate::api_error::{bad, error_of, missing, plain_error, ApiError, ErrorCode, ErrorView};
use crate::evidence_edges::{
    agent_kinds, check_agent_kind, id_matches_domain, record_id_matches_domain, unknown_kind_error,
};
use crate::evidence_synthesis::{agent_memory_edge_id, memory_edge_id};
use crate::identity::{stable_id, stable_id_of};
use crate::ir::{
    blank_node, record_id, record_views, AGENT_MEMORY_SCHEMA_VERSION, EdgeLabel, EdgeRecord,
    EdgeView, GraphRecord, NodeKind, NodeRecord, NodeView, RecordView,
};
use crate::keys::{pair_key, scoped_idempotency_key, scoped_key, stable_pair_key};
use crate::outside::rfc3339_instant_of;
use crate::scan::{non_blank, non_empty, strip_prefixes, trim_start_matches};
use crate::text::{
    concat5, ends_with, has_prefix, has_suffix, opt_str_view, opt_view, starts_with, str_eq,
    str_views,
};
use crate::time::is_rfc3339;

verus! {

// ---------------------------------------------------------------------------
// Envelopes
// ---------------------------------------------------------------------------

/// The envelope of a write request.
#[derive(Clone, Debug, PartialEq, Eq)]
pub struct RequestEnvelope {
    pub request_id: Option<String>,
    pub agent_id: Option<String>,
    pub session_id: Option<String>,
    pub idempotency_key: Option<String>,
    pub domain: Option<String>,
    pub created_at: Option<String>,
}

/// The view of a [`RequestEnvelope`].
#[verifier::ext_equal]
pub struct EnvelopeView {
    pub request_id: Option<Seq<char>>,
    pub agent_id: Option<Seq<char>>,
    pub session_id: Option<Seq<char>>,
    pub idempotency_key: Option<Seq<char>>,
    pub domain: Option<Seq<char>>,
    pub created_at: Option<Seq<char>>,
}

impl View for RequestEnvelope {
    type V = EnvelopeView;

    open spec fn view(&self) -> EnvelopeView {
        EnvelopeView {
            request_id: opt_view(self.request_id),
            agent_id: opt_view(self.agent_id),
            session_id: opt_view(self.session_id),
            idempotency_key: opt_view(self.idempotency_key),
            domain: opt_view(self.domain),
            created_at: opt_view(self.created_at),
        }
    }
}

/// What the payload of a write request holds.
pub enum PayloadReading {
    /// Nothing.
    Null,
    /// Something other than records; the text says what is wrong.
    Invalid(String),
    /// Records.
    Records(Vec<GraphRecord>),
}

/// A refused request: the identifier of the request, where it is known, and the error.
pub struct Rejection {
    pub request_id: Option<String>,
    pub error: ApiError,
}

impl View for Rejection {
    type V = (Option<Seq<char>>, ErrorView);

    open spec fn view(&self) -> (Option<Seq<char>>, ErrorView) {
        (opt_view(self.request_id), self.error@)
    }
}

fn reject(request_id: &str, error: ApiError) -> (r: Rejection)
    ensures
        r@ == (Some(request_id@), error@),
{
    Rejection { request_id: Some(request_id.to_owned()), error }
}

/// An accepted write request.
pub struct AcceptedWrite {
    /// The identifier of the request.
    pub request_id: String,
    /// The key under which the write is remembered.
    pub scoped_key: String,
    /// The records.
    pub records: Vec<GraphRecord>,
}

/// Whether the text names a domain that records may be in.
pub open spec fn known_domain(d: Seq<char>) -> bool {
    d == "codegraph"@ || d == "agent_memory"@ || d == "verification"@ || d == "artifact"@
}

/// Whether the text names a domain that records may be in.
pub fn is_known_domain(d: &str) -> (r: bool)
    ensures
        r == known_domain(d@),
{
    str_eq(d, "codegraph") || str_eq(d, "agent_memory") || str_eq(d, "verification") || str_eq(
        d,
        "artifact",
    )
}

/// The error of an unknown domain.
pub open spec fn invalid_domain_error() -> ErrorView {
    plain_error(ErrorCode::InvalidDomain, crate::api_error::invalid_domain_text())
}

/// What is wrong with a required time.
pub open spec fn created_at_error(t: Option<Seq<char>>) -> Option<ErrorView> {
    match non_blank(t) {
        None => Some(missing("created_at"@)),
        Some(x) => if rfc3339_instant_of(x) is None {
            Some(bad("created_at must be RFC 3339"@))
        } else {
            None
        },
    }
}

fn check_created_at(t: &Option<String>) -> (r: Result<(), ApiError>)
    ensures
        error_of(r) == created_at_error(opt_view(*t)),
{
    match non_empty(t) {
        None => Err(ApiError::missing_field("created_at")),
        Some(x) => if is_rfc3339(x) {
            Ok(())
        } else {
            Err(ApiError::bad_request("created_at must be RFC 3339".to_owned()))
        },
    }
}

/// What is wrong with an envelope that has an identifier.
pub open spec fn envelope_error(e: EnvelopeView) -> Option<ErrorView> {
    if non_blank(e.agent_id) is None {
        Some(missing("agent_id"@))
    } else if non_blank(e.session_id) is None {
        Some(missing("session_id"@))
    } else if non_blank(e.idempotency_key) is None {
        Some(missing("idempotency_key"@))
    } else if non_blank(e.domain) is None {
        Some(missing("domain"@))
    } else if !known_domain(e.domain->0) {
        Some(invalid_domain_error())
    } else {
        created_at_error(e.created_at)
    }
}

/// The identifier of the first record that does not belong to the domain.
pub open spec fn first_stranger(s: Seq<GraphRecord>, domain: Seq<char>) -> Option<Seq<char>>
    decreases s.len(),
{
    if s.len() == 0 {
        None
    } else if !id_matches_domain(record_id(s[0]), domain) {
        Some(record_id(s[0]))
    } else {
        first_stranger(s.drop_first(), domain)
    }
}

/// What is wrong with the payload of a request.
pub open spec fn payload_error(p: PayloadReading, domain: Seq<char>) -> Option<ErrorView> {
    match p {
        PayloadReading::Null => Some(missing("payload"@)),
        PayloadReading::Invalid(m) => Some(bad(m@)),
        PayloadReading::Records(v) => match first_stranger(v@, domain) {
            Some(id) => Some(
                bad(
                    "record '"@ + id + "' has ID inconsistent with domain '"@ + domain + "'"@,
                ),
            ),
            None => None,
        },
    }
}

/// What is wrong with a write request.
pub open spec fn write_request_error(e: EnvelopeView, p: PayloadReading) -> Option<
    (Option<Seq<char>>, ErrorView),
> {
    if non_blank(e.request_id) is None {
        Some((None, missing("request_id"@)))
    } else if envelope_error(e) is Some {
        Some((e.request_id, envelope_error(e)->0))
    } else if payload_error(p, e.domain->0) is Some {
        Some((e.request_id, payload_error(p, e.domain->0)->0))
    } else {
        None
    }
}

fn check_envelope(e: &RequestEnvelope) -> (r: Result<(), ApiError>)
    ensures
        error_of(r) == envelope_error(e@),
{
    if non_empty(&e.agent_id).is_none() {
        return Err(ApiError::missing_field("agent_id"));
    }
    if non_empty(&e.session_id).is_none() {
        return Err(ApiError::missing_field("session_id"));
    }
    if non_empty(&e.idempotency_key).is_none() {
        return Err(ApiError::missing_field("idempotency_key"));
    }
    match non_empty(&e.domain) {
        None => {
            return Err(ApiError::missing_field("domain"));
        },
        Some(d) => {
            if !is_known_domain(d) {
                return Err(ApiError::invalid_domain());
            }
        },
    }
    check_created_at(&e.created_at)
}

fn find_stranger<'a>(s: &'a Vec<GraphRecord>, domain: &str) -> (r: Option<&'a str>)
    ensures
        opt_str_view(r) == first_stranger(s@, domain@),
{
    let ghost x = s@;
    let mut i: usize = 0;
    assert(x.skip(0) =~= x);
    while i < s.len()
        invariant
            i <= s@.len(),
            x == s@,
            first_stranger(x, domain@) == first_stranger(x.skip(i as int), domain@),
        decreases s@.len() - i,
    {
        proof {
            assert(x.skip(i as int)[0] == x[i as int]);
            assert(x.skip(i as int).drop_first() =~= x.skip(i + 1));
        }
        if !record_id_matches_domain(s[i].id(), domain) {
            return Some(s[i].id());
        }
        i = i + 1;
    }
    None
}

/// Accepts a write request that comes by a route, or says why not.
pub fn accept_write(e: &RequestEnvelope, p: PayloadReading, route: &str) -> (r: Result<
    AcceptedWrite,
    Rejection,
>)
    ensures
        match (r, write_request_error(e@, p)) {
            (Ok(a), None) => e@.request_id == Some(a.request_id@) && a.scoped_key@ == scoped_key(
                e@.agent_id->0,
                route@,
                e@.idempotency_key->0,
            ) && p == PayloadReading::Records(a.records),
            (Err(x), Some(y)) => x@ == y,
            _ => false,
        },
{
    let request_id = match non_empty(&e.request_id) {
        None => {
            return Err(
                Rejection { request_id: None, error: ApiError::missing_field("request_id") },
            );
        },
        Some(id) => id,
    };
    match check_envelope(e) {
        Err(x) => {
            return Err(reject(request_id, x));
        },
        Ok(_) => {},
    }
    match (&e.agent_id, &e.idempotency_key, &e.domain) {
        (Some(agent), Some(key), Some(domain)) => {
            let records = match p {
                PayloadReading::Null => {
                    return Err(reject(request_id, ApiError::missing_field("payload")));
                },
                PayloadReading::Invalid(m) => {
                    return Err(reject(request_id, ApiError::bad_request(m)));
                },
                PayloadReading::Records(v) => v,
            };
            match find_stranger(&records, domain.as_str()) {
                Some(id) => {
                    return Err(
                        reject(
                            request_id,
                            ApiError::bad_request(
                                concat5(
                                    "record '",
                                    id,
                                    "' has ID inconsistent with domain '",
                                    domain.as_str(),
                                    "'",
                                ),
                            ),
                        ),
                    );
                },
                None => {},
            }
            Ok(
                AcceptedWrite {
                    request_id: request_id.to_owned(),
                    scoped_key: scoped_idempotency_key(agent.as_str(), route, key.as_str()),
                    records,
                },
            )
        },
        _ => Err(reject(request_id, ApiError::missing_field("agent_id"))),
    }
}

/// Every record of an accepted write belongs to the domain that the request names.
pub proof fn law_accepted_records_belong_to_their_domain(
    e: EnvelopeView,
    records: Vec<GraphRecord>,
    i: int,
)
    requires
        write_request_error(e, PayloadReading::Records(records)) is None,
        0 <= i < records@.len(),
    ensures
        id_matches_domain(record_id(records@[i]), e.domain->0),
{
    lemma_no_stranger(records@, e.domain->0, i);
}

proof fn lemma_no_stranger(s: Seq<GraphRecord>, domain: Seq<char>, i: int)
    requires
        first_stranger(s, domain) is None,
        0 <= i < s.len(),
    ensures
        id_matches_domain(record_id(s[i]), domain),
    decreases s.len(),
{
    if i > 0 {
        assert(s.drop_first()[i - 1] == s[i]);
        lemma_no_stranger(s.drop_first(), domain, i - 1);
    }
}

// ---------------------------------------------------------------------------
// Routes
// ---------------------------------------------------------------------------

/// Where a request goes.
pub enum Route {
    Health,
    Unauthorized,
    Shutdown,
    ShuttingDown,
    Status,
    Ingest,
    Query,
    RegisterAgent,
    Heartbeat,
    IngestJob,
    Checkpoint,
    Record(String),
    Job(String),
    Unknown,
}

/// The view of a [`Route`].
#[verifier::ext_equal]
pub enum RouteView {
    Health,
    Unauthorized,
    Shutdown,
    ShuttingDown,
    Status,
    Ingest,
    Query,
    RegisterAgent,
    Heartbeat,
    IngestJob,
    Checkpoint,
    Record(Seq<char>),
    Job(Seq<char>),
    Unknown,
}

impl View for Route {
    type V = RouteView;

    open spec fn view(&self) -> RouteView {
        match self {
            Route::Health => RouteView::Health,
            Route::Unauthorized => RouteView::Unauthorized,
            Route::Shutdown => RouteView::Shutdown,
            Route::ShuttingDown => RouteView::ShuttingDown,
            Route::Status => RouteView::Status,
            Route::Ingest => RouteView::Ingest,
            Route::Query => RouteView::Query,
            Route::RegisterAgent => RouteView::RegisterAgent,
            Route::Heartbeat => RouteView::Heartbeat,
            Route::IngestJob => RouteView::IngestJob,
            Route::Checkpoint => RouteView::Checkpoint,
            Route::Record(s) => RouteView::Record(s@),
            Route::Job(s) => RouteView::Job(s@),
            Route::Unknown => RouteView::Unknown,
        }
    }
}

/// Where an authorized request goes while the daemon runs.
pub open spec fn open_route(method: Seq<char>, path: Seq<char>) -> RouteView {
    if method == "GET"@ {
        if path == "/v1/status"@ {
            RouteView::Status
        } else if has_prefix(path, "/v1/records/"@) {
            RouteView::Record(strip_prefixes(path, "/v1/records/"@))
        } else if has_prefix(path, "/v1/jobs/"@) {
            RouteView::Job(path)
        } else {
            RouteView::Unknown
        }
    } else if method == "POST"@ {
        if path == "/v1/records/ingest"@ {
            RouteView::Ingest
        } else if path == "/v1/query"@ {
            RouteView::Query
        } else if path == "/v1/agents/register"@ {
            RouteView::RegisterAgent
        } else if path == "/v1/agents/heartbeat"@ {
            RouteView::Heartbeat
        } else if path == "/v1/jobs/ingest"@ {
            RouteView::IngestJob
        } else if path == "/v1/admin/checkpoint"@ {
            RouteView::Checkpoint
        } else {
            RouteView::Unknown
        }
    } else {
        RouteView::Unknown
    }
}

/// Where a request goes. Health is answered to anyone; a shutdown is accepted even
/// while one is in progress; nothing else is then.
pub open spec fn route_of(
    method: Seq<char>,
    path: Seq<char>,
    authorized: bool,
    stopping: bool,
) -> RouteView {
    if method == "GET"@ && path == "/v1/health"@ {
        RouteView::Health
    } else if !authorized {
        RouteView::Unauthorized
    } else if method == "POST"@ && path == "/v1/admin/shutdown"@ {
        RouteView::Shutdown
    } else if stopping {
        RouteView::ShuttingDown
    } else {
        open_route(method, path)
    }
}

fn find_open_route(method: &str, path: &str) -> (r: Route)
    ensures
        r@ == open_route(method@, path@),
{
    if str_eq(method, "GET") {
        if str_eq(path, "/v1/status") {
            Route::Status
        } else if starts_with(path, "/v1/records/") {
            proof {
                reveal_strlit("/v1/records/");
                assert("/v1/records/"@.len() == 12);
            }
            Route::Record(trim_start_matches(path, "/v1/records/"))
        } else if starts_with(path, "/v1/jobs/") {
            Route::Job(path.to_owned())
        } else {
            Route::Unknown
        }
    } else if str_eq(method, "POST") {
        if str_eq(path, "/v1/records/ingest") {
            Route::Ingest
        } else if str_eq(path, "/v1/query") {
            Route::Query
        } else if str_eq(path, "/v1/agents/register") {
            Route::RegisterAgent
        } else if str_eq(path, "/v1/agents/heartbeat") {
            Route::Heartbeat
        } else if str_eq(path, "/v1/jobs/ingest") {
            Route::IngestJob
        } else if str_eq(path, "/v1/admin/checkpoint") {
            Route::Checkpoint
        } else {
            Route::Unknown
        }
    } else {
        Route::Unknown
    }
}

/// Finds where a request goes.
pub fn route_request(method: &str, path: &str, authorized: bool, stopping: bool) -> (r: Route)
    ensures
        r@ == route_of(method@, path@, authorized, stopping),
{
    if str_eq(method, "GET") && str_eq(path, "/v1/health") {
        Route::Health
    } else if !authorized {
        Route::Unauthorized
    } else if str_eq(method, "POST") && str_eq(path, "/v1/admin/shutdown") {
        Route::Shutdown
    } else if stopping {
        Route::ShuttingDown
    } else {
        find_open_route(method, path)
    }
}

/// A request without the token reaches nothing but the health of the daemon.
pub proof fn law_unauthorized_requests_reach_nothing(
    method: Seq<char>,
    path: Seq<char>,
    stopping: bool,
)
    ensures
        route_of(method, path, false, stopping) == RouteView::Health || route_of(
            method,
            path,
            false,
            stopping,
        ) == RouteView::Unauthorized,
{
}

/// While the daemon stops, an authorized request reaches only its health and the
/// shutdown, which may be repeated.
pub proof fn law_stopping_daemon_accepts_only_shutdown(method: Seq<char>, path: Seq<char>)
    ensures
        ({
            let r = route_of(method, path, true, true);
            r == RouteView::Health || r == RouteView::Shutdown || r == RouteView::ShuttingDown
        }),
        route_of("POST"@, "/v1/admin/shutdown"@, true, true) == RouteView::Shutdown,
{
    reveal_strlit("POST");
    reveal_strlit("GET");
    assert("POST"@.len() == 4);
    assert("GET"@.len() == 3);
}

/// The job that a path asks for, and whether only its events are asked for.
pub open spec fn job_of_path(path: Seq<char>) -> (Seq<char>, bool) {
    let suffix = strip_prefixes(path, "/v1/jobs/"@);
    if has_suffix(suffix, "/events"@) {
        (suffix.take(suffix.len() - "/events"@.len()), true)
    } else {
        (suffix, false)
    }
}

/// Reads the job that a path asks for, and whether only its events are asked for.
pub fn parse_job_path(path: &str) -> (r: (String, bool))
    ensures
        (r.0@, r.1) == job_of_path(path@),
{
    proof {
        reveal_strlit("/v1/jobs/");
        assert("/v1/jobs/"@.len() == 9);
        reveal_strlit("/events");
        assert("/events"@.len() == 7);
    }
    let suffix = trim_start_matches(path, "/v1/jobs/");
    if ends_with(suffix.as_str(), "/events") {
        let v = crate::text::chars_of(suffix.as_str());
        let id = crate::text::string_of(&v, 0, v.len() - 7);
        assert(id@ =~= suffix@.take(suffix@.len() - 7));
        (id, true)
    } else {
        (suffix, false)
    }
}

// ---------------------------------------------------------------------------
// Agents
// ---------------------------------------------------------------------------

/// A request to register an agent.
#[derive(Clone, Debug, PartialEq, Eq)]
pub struct AgentRegisterRequest {
    pub request_id: Option<String>,
    pub agent_id: Option<String>,
    pub session_id: Option<String>,
    pub agent_kind: Option<String>,
    pub project_scope: Option<String>,
    pub created_at: Option<String>,
}

/// The view of a [`AgentRegisterRequest`].
#[verifier::ext_equal]
pub struct AgentRegisterView {
    pub request_id: Option<Seq<char>>,
    pub agent_id: Option<Seq<char>>,
    pub session_id: Option<Seq<char>>,
    pub agent_kind: Option<Seq<char>>,
    pub project_scope: Option<Seq<char>>,
    pub created_at: Option<Seq<char>>,
}

impl View for AgentRegisterRequest {
    type V = AgentRegisterView;

    open spec fn view(&self) -> AgentRegisterView {
        AgentRegisterView {
            request_id: opt_view(self.request_id),
            agent_id: opt_view(self.agent_id),
            session_id: opt_view(self.session_id),
            agent_kind: opt_view(self.agent_kind),
            project_scope: opt_view(self.project_scope),
            created_at: opt_view(self.created_at),
        }
    }
}

/// An accepted registration.
#[derive(Clone, Debug, PartialEq, Eq)]
pub struct AgentRegisterFull {
    pub agent_id: String,
    pub session_id: String,
    pub agent_kind: String,
    pub project_scope: String,
    pub registered_at: String,
}

/// The view of a [`AgentRegisterFull`].
#[verifier::ext_equal]
pub struct AgentRegistrationView {
    pub agent_id: Seq<char>,
    pub session_id: Seq<char>,
    pub agent_kind: Seq<char>,
    pub project_scope: Seq<char>,
    pub registered_at: Seq<char>,
}

impl View for AgentRegisterFull {
    type V = AgentRegistrationView;

    open spec fn view(&self) -> AgentRegistrationView {
        AgentRegistrationView {
            agent_id: self.agent_id@,
            session_id: self.session_id@,
            agent_kind: self.agent_kind@,
            project_scope: self.project_scope@,
            registered_at: self.registered_at@,
        }
    }
}

/// What is wrong with a registration that has an identifier.
pub open spec fn registration_error(
    e: AgentRegisterView,
    product: Option<Seq<char>>,
) -> Option<ErrorView> {
    if non_blank(e.agent_id) is None {
        Some(missing("agent_id"@))
    } else if non_blank(e.session_id) is None {
        Some(missing("session_id"@))
    } else if non_blank(e.agent_kind) is None {
        Some(missing("agent_kind"@))
    } else if !agent_kinds(product).contains(e.agent_kind->0) {
        Some(unknown_kind_error(product, e.agent_kind->0))
    } else if non_blank(e.project_scope) is None {
        Some(missing("project_scope"@))
    } else {
        created_at_error(e.created_at)
    }
}

/// What becomes of a request to register an agent.
pub open spec fn registration_outcome(
    e: AgentRegisterView,
    product: Option<Seq<char>>,
) -> Result<
    AgentRegistrationView,
    (Option<Seq<char>>, ErrorView),
> {
    if non_blank(e.request_id) is None {
        Err((None, missing("request_id"@)))
    } else if registration_error(e, product) is Some {
        Err((e.request_id, registration_error(e, product)->0))
    } else {
        Ok(
            AgentRegistrationView {
                agent_id: e.agent_id->0,
                session_id: e.session_id->0,
                agent_kind: e.agent_kind->0,
                project_scope: e.project_scope->0,
                registered_at: e.created_at->0,
            },
        )
    }
}

fn check_registration(e: &AgentRegisterRequest, product: &Option<String>) -> (r: Result<
    AgentRegisterFull,
    ApiError,
>)
    ensures
        match (r, registration_error(e@, opt_view(*product))) {
            (Ok(a), None) => e@.agent_id == Some(a@.agent_id) && e@.session_id == Some(
                a@.session_id,
            ) && e@.agent_kind == Some(a@.agent_kind) && e@.project_scope == Some(a@.project_scope)
                && e@.created_at == Some(a@.registered_at),
            (Err(x), Some(y)) => x@ == y,
            _ => false,
        },
{
    let agent_id = match non_empty(&e.agent_id) {
        None => {
            return Err(ApiError::missing_field("agent_id"));
        },
        Some(s) => s.to_owned(),
    };
    let session_id = match non_empty(&e.session_id) {
        None => {
            return Err(ApiError::missing_field("session_id"));
        },
        Some(s) => s.to_owned(),
    };
    let agent_kind = match non_empty(&e.agent_kind) {
        None => {
            return Err(ApiError::missing_field("agent_kind"));
        },
        Some(s) => s.to_owned(),
    };
    match check_agent_kind(product, agent_kind.as_str()) {
        Err(x) => {
            return Err(x);
        },
        Ok(_) => {},
    }
    let project_scope = match non_empty(&e.project_scope) {
        None => {
            return Err(ApiError::missing_field("project_scope"));
        },
        Some(s) => s.to_owned(),
    };
    match check_created_at(&e.created_at) {
        Err(x) => {
            return Err(x);
        },
        Ok(_) => {},
    }
    let registered_at = match &e.created_at {
        Some(s) => s.clone(),
        None => String::new(),
    };
    Ok(AgentRegisterFull { agent_id, session_id, agent_kind, project_scope, registered_at })
}

/// Accepts a request to register an agent of one of the published kinds, or says why not.
pub fn accept_registration(e: &AgentRegisterRequest, product: &Option<String>) -> (r: Result<
    AgentRegisterFull,
    Rejection,
>)
    ensures
        match (r, registration_outcome(e@, opt_view(*product))) {
            (Ok(a), Ok(b)) => a@ == b,
            (Err(x), Err(y)) => x@ == y,
            _ => false,
        },
{
    let request_id = match non_empty(&e.request_id) {
        None => {
            return Err(
                Rejection { request_id: None, error: ApiError::missing_field("request_id") },
            );
        },
        Some(id) => id,
    };
    match check_registration(e, product) {
        Err(x) => Err(reject(request_id, x)),
        Ok(a) => Ok(a),
    }
}

/// What becomes of a heartbeat: the agent and the session that it is for.
pub open spec fn heartbeat_outcome(
    request_id: Option<Seq<char>>,
    agent_id: Option<Seq<char>>,
    session_id: Option<Seq<char>>,
) -> Result<(Seq<char>, Seq<char>), (Option<Seq<char>>, ErrorView)> {
    if non_blank(request_id) is None {
        Err((None, missing("request_id"@)))
    } else if non_blank(agent_id) is None {
        Err((request_id, missing("agent_id"@)))
    } else if non_blank(session_id) is None {
        Err((request_id, missing("session_id"@)))
    } else {
        Ok((agent_id->0, session_id->0))
    }
}

/// Accepts a heartbeat, or says why not.
pub fn accept_heartbeat(
    request_id: &Option<String>,
    agent_id: &Option<String>,
    session_id: &Option<String>,
) -> (r: Result<(String, String), Rejection>)
    ensures
        match (
            r,
            heartbeat_outcome(opt_view(*request_id), opt_view(*agent_id), opt_view(*session_id)),
        ) {
            (Ok((a, s)), Ok((x, y))) => a@ == x && s@ == y,
            (Err(x), Err(y)) => x@ == y,
            _ => false,
        },
{
    let id = match non_empty(request_id) {
        None => {
            return Err(
                Rejection { request_id: None, error: ApiError::missing_field("request_id") },
            );
        },
        Some(id) => id,
    };
    let agent = match non_empty(agent_id) {
        None => {
            return Err(reject(id, ApiError::missing_field("agent_id")));
        },
        Some(a) => a,
    };
    match non_empty(session_id) {
        None => Err(reject(id, ApiError::missing_field("session_id"))),
        Some(s) => Ok((agent.to_owned(), s.to_owned())),
    }
}

/// The identifier of an agent-memory record.
pub open spec fn memory_id(parts: Seq<Seq<char>>) -> Seq<char> {
    stable_id_of("agent_memory"@, AGENT_MEMORY_SCHEMA_VERSION as nat, parts)
}

/// The identifier of an agent-memory record.
pub fn agent_memory_stable_id(parts: &Vec<&str>) -> (r: String)
    ensures
        r@ == memory_id(str_views(parts@)),
{
    stable_id("agent_memory", AGENT_MEMORY_SCHEMA_VERSION, parts)
}

/// The identifier of the node of an agent.
pub open spec fn agent_node_id(a: AgentRegistrationView) -> Seq<char> {
    memory_id(seq!["node"@, "agent"@, a.agent_id, a.agent_kind, a.project_scope])
}

/// The identifier of the node of a session.
pub open spec fn session_node_id(a: AgentRegistrationView) -> Seq<char> {
    memory_id(seq!["node"@, "agent_session"@, a.agent_id, a.session_id])
}

/// The node of an agent. It says nothing of the session, so that it is the same on
/// every registration of the agent.
pub open spec fn agent_node(a: AgentRegistrationView) -> NodeView {
    NodeView {
        name: Some(a.agent_id),
        agent_id: Some(a.agent_id),
        agent_kind: Some(a.agent_kind),
        confidence: Some("1.0"@),
        ..blank_node(
            agent_node_id(a),
            NodeKind::Agent,
            AGENT_MEMORY_SCHEMA_VERSION,
            "Agent "@ + a.agent_id + " ("@ + a.agent_kind + ") scoped to "@ + a.project_scope,
        )
    }
}

/// The node of a session.
pub open spec fn session_node(a: AgentRegistrationView) -> NodeView {
    NodeView {
        name: Some(a.session_id),
        agent_id: Some(a.agent_id),
        agent_kind: Some(a.agent_kind),
        session_id: Some(a.session_id),
        confidence: Some("1.0"@),
        observed_at: Some(a.registered_at),
        ingested_at: Some(a.registered_at),
        ..blank_node(
            session_node_id(a),
            NodeKind::AgentSession,
            AGENT_MEMORY_SCHEMA_VERSION,
            "Session "@ + a.session_id + " for agent "@ + a.agent_id,
        )
    }
}

/// The edge from a session to its agent.
pub open spec fn session_edge(a: AgentRegistrationView) -> EdgeView {
    EdgeView {
        rest: None,
        id: memory_edge_id(EdgeLabel::SessionOf, session_node_id(a), agent_node_id(a)),
        schema_version: AGENT_MEMORY_SCHEMA_VERSION,
        label: EdgeLabel::SessionOf,
        source: session_node_id(a),
        target: agent_node_id(a),
        confidence: Some("explicit"@),
        resolution: None,
        temporal: None,
        summary: "Agent session belongs to agent"@,
    }
}

/// The records of a registration.
pub open spec fn registration_records(a: AgentRegistrationView) -> Seq<RecordView> {
    seq![
        RecordView::Node(agent_node(a)),
        RecordView::Node(session_node(a)),
        RecordView::Edge(session_edge(a)),
    ]
}

/// The records of a registration: the agent, the session, and the edge between them.
pub fn agent_registration_records(a: &AgentRegisterFull) -> (r: Vec<GraphRecord>)
    ensures
        record_views(r@) == registration_records(a@),
{
    let mut parts: Vec<&str> = Vec::new();
    parts.push("node");
    parts.push("agent");
    parts.push(a.agent_id.as_str());
    parts.push(a.agent_kind.as_str());
    parts.push(a.project_scope.as_str());
    assert(str_views(parts@) =~= seq![
        "node"@,
        "agent"@,
        a@.agent_id,
        a@.agent_kind,
        a@.project_scope,
    ]);
    let agent_id = agent_memory_stable_id(&parts);
    let mut parts2: Vec<&str> = Vec::new();
    parts2.push("node");
    parts2.push("agent_session");
    parts2.push(a.agent_id.as_str());
    parts2.push(a.session_id.as_str());
    assert(str_views(parts2@) =~= seq!["node"@, "agent_session"@, a@.agent_id, a@.session_id]);
    let session_id = agent_memory_stable_id(&parts2);
    let mut agent = NodeRecord::blank(
        agent_id.clone(),
        NodeKind::Agent,
        AGENT_MEMORY_SCHEMA_VERSION,
        crate::text::concat6(
            "Agent ",
            a.agent_id.as_str(),
            " (",
            a.agent_kind.as_str(),
            ") scoped to ",
            a.project_scope.as_str(),
        ),
    );
    agent.name = Some(a.agent_id.clone());
    agent.agent_id = Some(a.agent_id.clone());
    agent.agent_kind = Some(a.agent_kind.clone());
    agent.confidence = Some("1.0".to_owned());
    let mut session = NodeRecord::blank(
        session_id.clone(),
        NodeKind::AgentSession,
        AGENT_MEMORY_SCHEMA_VERSION,
        crate::text::concat4(
            "Session ",
            a.session_id.as_str(),
            " for agent ",
            a.agent_id.as_str(),
        ),
    );
    session.name = Some(a.session_id.clone());
    session.agent_id = Some(a.agent_id.clone());
    session.agent_kind = Some(a.agent_kind.clone());
    session.session_id = Some(a.session_id.clone());
    session.confidence = Some("1.0".to_owned());
    session.observed_at = Some(a.registered_at.clone());
    session.ingested_at = Some(a.registered_at.clone());
    let edge = EdgeRecord {
        rest: None,
        id: agent_memory_edge_id(EdgeLabel::SessionOf, session_id.as_str(), agent_id.as_str()),
        schema_version: AGENT_MEMORY_SCHEMA_VERSION,
        label: EdgeLabel::SessionOf,
        source: session_id,
        target: agent_id,
        confidence: Some("explicit".to_owned()),
        resolution: None,
        temporal: None,
        summary: "Agent session belongs to agent".to_owned(),
    };
    proof {
        assert(agent@ =~= agent_node(a@));
        assert(session@ =~= session_node(a@));
        assert(edge@ =~= session_edge(a@));
    }
    let mut r: Vec<GraphRecord> = Vec::new();
    r.push(GraphRecord::Node(agent));
    r.push(GraphRecord::Node(session));
    r.push(GraphRecord::Edge(edge));
    assert(record_views(r@) =~= registration_records(a@));
    r
}

/// The key under which a registration is remembered.
pub fn registration_key(a: &AgentRegisterFull) -> (r: String)
    ensures
        r@ == pair_key("agent-register"@, a@.agent_id, a@.session_id),
{
    stable_pair_key("agent-register", a.agent_id.as_str(), a.session_id.as_str())
}

/// Registering an agent again, in another session or at another time, gives the same
/// agent node.
pub proof fn law_agent_node_is_stable(a: AgentRegistrationView, b: AgentRegistrationView)
    requires
        a.agent_id == b.agent_id,
        a.agent_kind == b.agent_kind,
        a.project_scope == b.project_scope,
    ensures
        registration_records(a)[0] == registration_records(b)[0],
{
}

/// The last sign of life of an agent in a session.
pub struct AgentStatus {
    pub agent_id: String,
    pub session_id: String,
    pub agent_kind: String,
    pub project_scope: String,
    pub last_seen_unix_ms: u128,
}

/// The agents that are registered, each session once.
pub struct AgentRegistry {
    agents: Vec<AgentStatus>,
}

/// What is known of a registered agent.
#[verifier::ext_equal]
pub struct AgentStatusView {
    pub agent_id: Seq<char>,
    pub session_id: Seq<char>,
    pub agent_kind: Seq<char>,
    pub project_scope: Seq<char>,
    pub last_seen_unix_ms: u128,
}

impl View for AgentStatus {
    type V = AgentStatusView;

    open spec fn view(&self) -> AgentStatusView {
        AgentStatusView {
            agent_id: self.agent_id@,
            session_id: self.session_id@,
            agent_kind: self.agent_kind@,
            project_scope: self.project_scope@,
            last_seen_unix_ms: self.last_seen_unix_ms,
        }
    }
}

impl AgentRegistry {
    #[verifier::type_invariant]
    spec fn inv(self) -> bool {
        distinct_sessions(self.agents@)
    }

    /// The registered agents, in the order of their first registration.
    pub closed spec fn agents(&self) -> Seq<AgentStatusView> {
        self.agents@.map_values(|a: AgentStatus| a@)
    }

    /// A registry without agents.
    pub fn new() -> (r: AgentRegistry)
        ensures
            r.agents() == Seq::<AgentStatusView>::empty(),
    {
        let agents: Vec<AgentStatus> = Vec::new();
        let r = AgentRegistry { agents };
        assert(r.agents() =~= Seq::<AgentStatusView>::empty());
        r
    }

    /// The number of registered sessions.
    pub fn len(&self) -> (n: usize)
        ensures
            n == self.agents().len(),
    {
        self.agents.len()
    }

    fn position(&self, agent_id: &str, session_id: &str) -> (r: Option<usize>)
        ensures
            match r {
                Some(i) => i < self.agents@.len() && is_session(
                    self.agents()[i as int],
                    agent_id@,
                    session_id@,
                ),
                None => forall|i: int|
                    0 <= i < self.agents().len() ==> !#[trigger] is_session(
                        self.agents()[i],
                        agent_id@,
                        session_id@,
                    ),
            },
    {
        let mut i: usize = 0;
        while i < self.agents.len()
            invariant
                i <= self.agents@.len(),
                forall|k: int|
                    0 <= k < i ==> !#[trigger] is_session(
                        self.agents()[k],
                        agent_id@,
                        session_id@,
                    ),
            decreases self.agents@.len() - i,
        {
            assert(self.agents()[i as int] == self.agents@[i as int]@);
            if str_eq(self.agents[i].agent_id.as_str(), agent_id) && str_eq(
                self.agents[i].session_id.as_str(),
                session_id,
            ) {
                return Some(i);
            }
            i = i + 1;
        }
        None
    }

    /// Registers an agent in a session; a session that is registered already is
    /// replaced.
    pub fn register(self, status: AgentStatus) -> (r: AgentRegistry)
        ensures
            r.agents() == registered(self.agents(), status@),
    {
        proof {
            use_type_invariant(&self);
        }
        let ghost before = self.agents();
        match self.position(status.agent_id.as_str(), status.session_id.as_str()) {
            Some(i) => {
                let AgentRegistry { mut agents } = self;
                let ghost old_agents = agents@;
                let ghost new = status@;
                proof {
                    assert(before[i as int] == old_agents[i as int]@);
                    assert forall|a: int, b: int|
                        0 <= a < b < old_agents.len() implies !same_session(
                        old_agents.update(i as int, status)[a]@,
                        old_agents.update(i as int, status)[b]@,
                    ) by {
                        assert(!same_session(old_agents[a]@, old_agents[b]@));
                    }
                    assert forall|k: int|
                        0 <= k < before.len() && k != i implies !#[trigger] same_session(
                        before[k],
                        new,
                    ) by {
                        assert(before[k] == old_agents[k]@);
                        if k < i {
                            assert(!same_session(old_agents[k]@, old_agents[i as int]@));
                        } else {
                            assert(!same_session(old_agents[i as int]@, old_agents[k]@));
                        }
                    }
                    lemma_registered_at(before, new, i as int);
                }
                agents.set(i, status);
                let r = AgentRegistry { agents };
                assert(r.agents() =~= before.update(i as int, new));
                r
            },
            None => {
                let AgentRegistry { mut agents } = self;
                let ghost old_agents = agents@;
                let ghost new = status@;
                agents.push(status);
                proof {
                    assert forall|a: int, b: int| 0 <= a < b < agents@.len() implies !same_session(
                        #[trigger] agents@[a]@,
                        #[trigger] agents@[b]@,
                    ) by {
                        if b < old_agents.len() {
                            assert(!same_session(old_agents[a]@, old_agents[b]@));
                        } else {
                            assert(!is_session(before[a], new.agent_id, new.session_id));
                            assert(before[a] == old_agents[a]@);
                        }
                    }
                    lemma_registered_none(before, new);
                }
                let r = AgentRegistry { agents };
                assert(r.agents() =~= before.push(new));
                r
            },
        }
    }

    /// Notes a sign of life of an agent in a session. One that is not registered is
    /// not noted.
    pub fn heartbeat(self, agent_id: &str, session_id: &str, now_unix_ms: u128) -> (r: AgentRegistry)
        ensures
            r.agents() == seen(self.agents(), agent_id@, session_id@, now_unix_ms),
    {
        proof {
            use_type_invariant(&self);
        }
        let ghost before = self.agents();
        match self.position(agent_id, session_id) {
            Some(i) => {
                let AgentRegistry { mut agents } = self;
                let ghost old_agents = agents@;
                assert(before[i as int] == old_agents[i as int]@);
                let status = AgentStatus {
                    agent_id: agents[i].agent_id.clone(),
                    session_id: agents[i].session_id.clone(),
                    agent_kind: agents[i].agent_kind.clone(),
                    project_scope: agents[i].project_scope.clone(),
                    last_seen_unix_ms: now_unix_ms,
                };
                let ghost new = status@;
                proof {
                    assert forall|a: int, b: int|
                        0 <= a < b < old_agents.len() implies !same_session(
                        old_agents.update(i as int, status)[a]@,
                        old_agents.update(i as int, status)[b]@,
                    ) by {
                        assert(!same_session(old_agents[a]@, old_agents[b]@));
                    }
                }
                agents.set(i, status);
                let r = AgentRegistry { agents };
                proof {
                    assert forall|k: int| 0 <= k < before.len() implies r.agents()[k] == seen(
                        before,
                        agent_id@,
                        session_id@,
                        now_unix_ms,
                    )[k] by {
                        if k != i {
                            assert(before[k] == old_agents[k]@);
                            if k < i {
                                assert(!same_session(old_agents[k]@, old_agents[i as int]@));
                            } else {
                                assert(!same_session(old_agents[i as int]@, old_agents[k]@));
                            }
                        }
                    }
                    assert(r.agents() =~= seen(before, agent_id@, session_id@, now_unix_ms));
                }
                r
            },
            None => {
                proof {
                    assert forall|k: int| 0 <= k < before.len() implies before[k] == seen(
                        before,
                        agent_id@,
                        session_id@,
                        now_unix_ms,
                    )[k] by {
                        assert(!is_session(before[k], agent_id@, session_id@));
                    }
                    assert(before =~= seen(before, agent_id@, session_id@, now_unix_ms));
                }
                self
            },
        }
    }
}

/// Whether two entries are of the same session.
pub open spec fn same_session(a: AgentStatusView, b: AgentStatusView) -> bool {
    a.agent_id == b.agent_id && a.session_id == b.session_id
}

/// Whether the entry is of the session.
pub open spec fn is_session(a: AgentStatusView, agent_id: Seq<char>, session_id: Seq<char>) -> bool {
    a.agent_id == agent_id && a.session_id == session_id
}

spec fn distinct_sessions(s: Seq<AgentStatus>) -> bool {
    forall|a: int, b: int|
        0 <= a < b < s.len() ==> !same_session(#[trigger] s[a]@, #[trigger] s[b]@)
}

/// The agents after a registration: the entry of the session is replaced where it is,
/// or added at the end.
pub open spec fn registered(s: Seq<AgentStatusView>, new: AgentStatusView) -> Seq<AgentStatusView> {
    if exists|i: int| 0 <= i < s.len() && same_session(#[trigger] s[i], new) {
        s.map_values(
            |a: AgentStatusView|
                if same_session(a, new) {
                    new
                } else {
                    a
                },
        )
    } else {
        s.push(new)
    }
}

/// The agents after a sign of life.
pub open spec fn seen(
    s: Seq<AgentStatusView>,
    agent_id: Seq<char>,
    session_id: Seq<char>,
    now: u128,
) -> Seq<AgentStatusView> {
    s.map_values(
        |a: AgentStatusView|
            if is_session(a, agent_id, session_id) {
                AgentStatusView { last_seen_unix_ms: now, ..a }
            } else {
                a
            },
    )
}

proof fn lemma_registered_at(s: Seq<AgentStatusView>, new: AgentStatusView, i: int)
    requires
        0 <= i < s.len(),
        same_session(s[i], new),
        forall|k: int| 0 <= k < s.len() && k != i ==> !#[trigger] same_session(s[k], new),
    ensures
        registered(s, new) == s.update(i, new),
{
    assert(registered(s, new) =~= s.update(i, new));
}

proof fn lemma_registered_none(s: Seq<AgentStatusView>, new: AgentStatusView)
    requires
        forall|i: int|
            0 <= i < s.len() ==> !#[trigger] is_session(s[i], new.agent_id, new.session_id),
    ensures
        registered(s, new) == s.push(new),
{
    assert forall|i: int| 0 <= i < s.len() implies !same_session(#[trigger] s[i], new) by {
        assert(!is_session(s[i], new.agent_id, new.session_id));
    }
}

} // verus!
