//! The daemon: requests, jobs, writes, queries, and its client.

use egregore::api_error::ErrorCode;
use egregore::daemon::{
    active_metadata, check_health, check_ingest_reply, check_query_reply, check_start,
    runtime_name, start_arguments, stop, wait_step, Answer, ClientStep, DaemonClient,
    DaemonConfig, DaemonMetadata, HealthReading, StopStep, WaitStep, START_TIMEOUT_MS,
};
use egregore::evidence_edges::{published_agent_kinds, ConfidenceTable, StoreSnapshot};
use egregore::ingest_rules::{IdentityFacts, StoredRepositories};
use egregore::ir::{EdgeLabel, EdgeRecord, GraphRecord, NodeKind, NodeRecord};
use egregore::jobs::{JobRun, JobTable};
use egregore::keys::records_hash;
use egregore::queries::{
    check_query_budget, drift_limit, file_defines_as_of,
    file_defines_current, ids_to_read, live_file_node_exists, plan_query, records_of_domain,
    symbols_by_name, DriftLimit, IdsParam, ParamsShape, QueryAsOf, QueryBudget, QueryVerb,
    QueryVerbRequest,
};
use egregore::requests::{
    accept_heartbeat, accept_registration, accept_write, agent_registration_records,
    is_known_domain, parse_job_path, registration_key, route_request, AgentRegisterFull,
    AgentRegisterRequest, AgentRegistry, AgentStatus, PayloadReading, RequestEnvelope, Route,
};
use egregore::write::{
    begin_write, recover_pending_write, step_write, DaemonIngestResponse, IdempotencyEntry,
    IngestReport, RecordState, WriteAction, WriteCommand, WriteEvent,
};

fn text(s: &str) -> Option<String> {
    Some(s.to_owned())
}

fn node(id: &str, kind: NodeKind, path: Option<&str>, name: &str, summary: &str) -> GraphRecord {
    let mut n = NodeRecord::blank(id.to_owned(), kind, 1, summary.to_owned());
    n.repo_relative_path = path.map(str::to_owned);
    n.name = text(name);
    GraphRecord::Node(n)
}

fn edge(label: EdgeLabel, source: &str, target: &str) -> GraphRecord {
    GraphRecord::Edge(EdgeRecord {
        rest: None,
        id: format!("codegraph:v3:{source}-{target}"),
        schema_version: 1,
        label,
        source: source.to_owned(),
        target: target.to_owned(),
        confidence: text("1.0"),
        resolution: None,
        temporal: None,
        summary: "an edge".to_owned(),
    })
}

// Requests

fn envelope() -> RequestEnvelope {
    RequestEnvelope {
        request_id: text("r1"),
        agent_id: text("agent"),
        session_id: text("session"),
        idempotency_key: text("key"),
        domain: text("codegraph"),
        created_at: text("2024-01-01T00:00:00Z"),
    }
}

fn repository() -> GraphRecord {
    node("codegraph:v3:repo", NodeKind::Repository, None, "repo", "a repository")
}

#[test]
fn a_complete_write_request_is_accepted() {
    match accept_write(&envelope(), PayloadReading::Records(vec![repository()]), "/v1/records/ingest") {
        Ok(w) => {
            assert_eq!(w.request_id, "r1");
            assert_eq!(w.scoped_key, "idempotency:5:18:3:agent/v1/records/ingestkey");
            assert_eq!(w.records.len(), 1);
        }
        Err(r) => panic!("{}", r.error.message),
    }
}

#[test]
fn each_lack_of_a_write_request_is_named() {
    let cases: Vec<(&str, fn(&mut RequestEnvelope))> = vec![
        ("request_id", |e| e.request_id = None),
        ("agent_id", |e| e.agent_id = text(" ")),
        ("session_id", |e| e.session_id = None),
        ("idempotency_key", |e| e.idempotency_key = text("")),
        ("domain", |e| e.domain = None),
        ("created_at", |e| e.created_at = None),
    ];
    for (field, drop) in cases {
        let mut e = envelope();
        drop(&mut e);
        match accept_write(&e, PayloadReading::Records(vec![]), "r") {
            Err(r) => {
                assert_eq!(r.error.code, ErrorCode::MissingField);
                assert_eq!(r.error.field.as_deref(), Some(field));
                assert_eq!(r.request_id.is_none(), field == "request_id");
            }
            Ok(_) => panic!("{field} was not asked for"),
        }
    }
}

#[test]
fn payloads_that_do_not_belong_are_refused() {
    let refuse = |e: RequestEnvelope, p: PayloadReading| match accept_write(&e, p, "r") {
        Err(r) => r.error,
        Ok(_) => panic!("accepted"),
    };
    let mut e = envelope();
    e.domain = text("elsewhere");
    assert_eq!(refuse(e, PayloadReading::Null).code, ErrorCode::InvalidDomain);
    let mut e = envelope();
    e.created_at = text("soon");
    assert_eq!(refuse(e, PayloadReading::Null).message, "created_at must be RFC 3339");
    assert_eq!(refuse(envelope(), PayloadReading::Null).field.as_deref(), Some("payload"));
    assert_eq!(
        refuse(envelope(), PayloadReading::Invalid("bad payload".to_owned())).message,
        "bad payload"
    );
    let stranger = node("agent_memory:v1:x", NodeKind::Observation, None, "x", "x");
    assert_eq!(
        refuse(envelope(), PayloadReading::Records(vec![stranger])).message,
        "record 'agent_memory:v1:x' has ID inconsistent with domain 'codegraph'"
    );
    assert!(is_known_domain("artifact") && !is_known_domain("project"));
}

#[test]
fn routes_are_told_apart() {
    let route = |m: &str, p: &str| route_request(m, p, true, false);
    assert!(matches!(route("GET", "/v1/health"), Route::Health));
    assert!(matches!(route("GET", "/v1/status"), Route::Status));
    assert!(matches!(route("POST", "/v1/records/ingest"), Route::Ingest));
    assert!(matches!(route("POST", "/v1/query"), Route::Query));
    assert!(matches!(route("GET", "/v1/records/abc"), Route::Record(id) if id == "abc"));
    assert!(matches!(route("GET", "/v1/jobs/j"), Route::Job(p) if p == "/v1/jobs/j"));
    assert!(matches!(route("PUT", "/v1/query"), Route::Unknown));
    assert!(matches!(route("POST", "/v1/admin/shutdown"), Route::Shutdown));
}

#[test]
fn strangers_reach_nothing_but_health() {
    for p in ["/v1/status", "/v1/query", "/v1/admin/shutdown", "/x"] {
        for m in ["GET", "POST"] {
            assert!(matches!(route_request(m, p, false, false), Route::Unauthorized));
        }
    }
    assert!(matches!(route_request("GET", "/v1/health", false, true), Route::Health));
    assert!(matches!(route_request("POST", "/v1/query", true, true), Route::ShuttingDown));
    assert!(matches!(
        route_request("POST", "/v1/admin/shutdown", true, true),
        Route::Shutdown
    ));
}

#[test]
fn job_paths_ask_for_a_job_or_its_events() {
    assert_eq!(parse_job_path("/v1/jobs/j1"), ("j1".to_owned(), false));
    assert_eq!(parse_job_path("/v1/jobs/j1/events"), ("j1".to_owned(), true));
}

fn registration() -> AgentRegisterRequest {
    AgentRegisterRequest {
        request_id: text("r"),
        agent_id: text("a"),
        session_id: text("s"),
        agent_kind: text("codex"),
        project_scope: text("p"),
        created_at: text("2024-01-01T00:00:00Z"),
    }
}

#[test]
fn agents_of_known_kinds_are_registered() {
    let product = text("product");
    for kind in published_agent_kinds(&product) {
        let mut request = registration();
        request.agent_kind = Some(kind.clone());
        match accept_registration(&request, &product) {
            Ok(a) => assert_eq!((a.agent_id.as_str(), a.agent_kind), ("a", kind)),
            Err(r) => panic!("{}", r.error.message),
        }
    }
    let mut odd = registration();
    odd.agent_kind = text("robot");
    match accept_registration(&odd, &product) {
        Err(r) => assert_eq!(
            r.error.message,
            "agent_kind 'robot' is not a recognized value; expected one of: codex, product, vantage, rust-swe-agent, human, other"
        ),
        Ok(_) => panic!("accepted"),
    }
}

fn full(session: &str) -> AgentRegisterFull {
    AgentRegisterFull {
        agent_id: "a".to_owned(),
        session_id: session.to_owned(),
        agent_kind: "codex".to_owned(),
        project_scope: "p".to_owned(),
        registered_at: "2024-01-01T00:00:00Z".to_owned(),
    }
}

#[test]
fn the_node_of_an_agent_is_stable() {
    let one = agent_registration_records(&full("s1"));
    let two = agent_registration_records(&full("s2"));
    assert_eq!(one[0].id(), two[0].id());
    assert!(one[0].same(&two[0]));
    assert_ne!(one[1].id(), two[1].id());
    assert_ne!(registration_key(&full("s1")), registration_key(&full("s2")));
}

#[test]
fn heartbeats_are_kept_by_agent_and_session() {
    assert_eq!(
        accept_heartbeat(&text("r"), &text("a"), &text("s")).map_err(|r| r.error.message),
        Ok(("a".to_owned(), "s".to_owned()))
    );
    assert_eq!(
        accept_heartbeat(&text("r"), &None, &text("s"))
            .map_err(|r| r.error.field.unwrap_or_default()),
        Err("agent_id".to_owned())
    );
    let status = |session: &str| AgentStatus {
        agent_id: "a".to_owned(),
        session_id: session.to_owned(),
        agent_kind: "codex".to_owned(),
        project_scope: "p".to_owned(),
        last_seen_unix_ms: 1,
    };
    let agents = AgentRegistry::new().register(status("s")).register(status("s"));
    assert_eq!(agents.len(), 1);
    let agents = agents.register(status("t")).heartbeat("a", "s", 5);
    assert_eq!(agents.len(), 2);
}

// Jobs

fn answer(n: usize) -> DaemonIngestResponse {
    DaemonIngestResponse {
        attempted: n,
        succeeded: n,
        failed: 0,
        failures: vec![],
        record_ids: vec![],
        idempotent: false,
    }
}

#[test]
fn a_job_is_run_once() {
    let (jobs, first) = JobTable::new().accept("j", "h", None);
    let first = first.unwrap_or_else(|e| panic!("{}", e.message));
    assert_eq!((first.http_status, first.run), (202, JobRun::Submitted));
    let (jobs, again) = jobs.accept("j", "h", None);
    let again = again.unwrap_or_else(|e| panic!("{}", e.message));
    assert_eq!((again.http_status, again.run), (200, JobRun::Nothing));
    let (jobs, other) = jobs.accept("j", "other", None);
    assert_eq!(other.map_err(|e| e.code), Err(ErrorCode::IdempotencyConflict));
    assert_eq!(jobs.len(), 1);
}

#[test]
fn a_job_tells_its_history() {
    let (jobs, _) = JobTable::new().accept("j", "h", None);
    let jobs = jobs.start("j").finish("j", Ok(answer(2)));
    match jobs.get("j") {
        Some(j) => {
            assert_eq!(j.status, "completed");
            assert_eq!(j.events, vec!["queued", "started", "completed"]);
            assert_eq!(j.report.as_ref().map(|r| r.succeeded), Some(2));
        }
        None => panic!("the job is gone"),
    }
    assert!(jobs.get("k").is_none());
}

#[test]
fn remembered_writes_decide_their_jobs() {
    let done = IdempotencyEntry::Committed {
        payload_hash: "h".to_owned(),
        response: answer(1),
    };
    let (jobs, reply) = JobTable::new().accept("j", "h", Some(&done));
    assert_eq!(reply.map(|a| a.run).map_err(|e| e.code), Ok(JobRun::Nothing));
    assert_eq!(jobs.get("j").map(|j| j.status.as_str()), Some("completed"));
    let begun = IdempotencyEntry::Pending {
        payload_hash: "h".to_owned(),
        record_ids: vec![],
        records: vec![],
    };
    let (_, reply) = JobTable::new().accept("j", "h", Some(&begun));
    assert_eq!(reply.map(|a| a.run).map_err(|e| e.code), Ok(JobRun::Recovered));
    let (_, reply) = JobTable::new().accept("j", "x", Some(&begun));
    assert_eq!(reply.map(|a| a.run).map_err(|e| e.code), Err(ErrorCode::IdempotencyConflict));
}

#[test]
fn a_failed_job_says_why() {
    let (jobs, _) = JobTable::new().accept("j", "h", None);
    let error = egregore::api_error::ApiError::internal("disk full".to_owned());
    let jobs = jobs.finish("j", Err(error));
    match jobs.get("j") {
        Some(j) => {
            assert_eq!(j.status, "failed");
            let failures = &j.report.as_ref().expect("a report").failures;
            assert_eq!(failures[0].message, "disk full");
        }
        None => panic!("the job is gone"),
    }
}

// Writes

/// A store that keeps one observation of what is written to it twice unchanged.
struct Store {
    records: Vec<GraphRecord>,
    entries: Vec<(String, IdempotencyEntry)>,
    writes: usize,
}

impl Store {
    fn new() -> Store {
        Store {
            records: Vec::new(),
            entries: Vec::new(),
            writes: 0,
        }
    }

    fn snapshot(&self) -> StoreSnapshot {
        StoreSnapshot {
            all: self.records.iter().map(|r| r.copy()).collect(),
            current: self.records.iter().map(|r| r.copy()).collect(),
            product_kind: None,
        }
    }

    fn state(&self, record: &GraphRecord) -> RecordState {
        match self.records.iter().find(|r| r.id() == record.id()) {
            Some(r) if r.same(record) => RecordState::Matched,
            Some(_) => RecordState::Mismatched,
            None => RecordState::Missing,
        }
    }

    fn states(&self, records: &[GraphRecord]) -> Vec<RecordState> {
        records.iter().map(|r| self.state(r)).collect()
    }

    fn run(&mut self, c: &WriteCommand) -> Result<DaemonIngestResponse, ErrorCode> {
        let known = self.entries.iter().find(|e| e.0 == c.idempotency_key);
        let (mut state, mut action) = begin_write(c, known.map(|e| &e.1));
        loop {
            let event = match action {
                WriteAction::CompareBatch { read_back } => WriteEvent::BatchCompared {
                    states: self.states(&c.records),
                    present: read_back
                        .iter()
                        .map(|id| self.records.iter().any(|r| r.id() == id))
                        .collect(),
                },
                WriteAction::ReadStore => WriteEvent::StoreRead {
                    store: self.snapshot(),
                    repositories: StoredRepositories {
                        ids: vec![],
                        local_path_ids: vec![],
                        multi_domain: false,
                    },
                },
                WriteAction::Save(entry) => {
                    self.entries.retain(|e| e.0 != c.idempotency_key);
                    self.entries.push((c.idempotency_key.clone(), entry));
                    WriteEvent::Saved { failure: None }
                }
                WriteAction::CompareRecords { records } => WriteEvent::RecordsCompared {
                    states: self.states(&records),
                    payloads: records.iter().map(bytes).collect(),
                },
                WriteAction::Write { records } => {
                    self.writes += 1;
                    let n = records.len();
                    for r in records {
                        if !matches!(self.state(&r), RecordState::Matched) {
                            self.records.push(r);
                        }
                    }
                    WriteEvent::Written {
                        report: Ok(IngestReport {
                            attempted: n,
                            succeeded: n,
                            failed: 0,
                            failures: vec![],
                        }),
                    }
                }
                WriteAction::Answer(r) => return r.map_err(|e| e.code),
            };
            match step_write(c, state, event) {
                Some((s, a)) => {
                    state = s;
                    action = a;
                }
                None => panic!("the event does not suit the state"),
            }
        }
    }
}

fn bytes(r: &GraphRecord) -> Vec<u8> {
    format!("{r:?}").into_bytes()
}

fn command(key: &str, records: Vec<GraphRecord>) -> WriteCommand {
    let payloads: Vec<Vec<u8>> = records.iter().map(bytes).collect();
    WriteCommand {
        idempotency_key: key.to_owned(),
        payload_hash: records_hash(&payloads.concat()),
        records,
        payloads,
        grades: ConfidenceTable::new(),
        identities: IdentityFacts {
            local_urls: vec![],
            unmatched: vec![],
        },
    }
}

fn file_batch() -> Vec<GraphRecord> {
    vec![
        node("codegraph:v3:f", NodeKind::File, Some("src/lib.rs"), "src/lib.rs", "file endpoint"),
        node("codegraph:v3:s", NodeKind::Symbol, Some("src/lib.rs"), "stable", "symbol endpoint"),
        edge(EdgeLabel::Defines, "codegraph:v3:f", "codegraph:v3:s"),
    ]
}

#[test]
fn a_batch_under_two_keys_is_answered_twice_and_kept_once() {
    for batch in [vec![repository()], file_batch()] {
        let n = batch.len();
        let mut store = Store::new();
        for key in ["first-key", "second-key"] {
            let copies = batch.iter().map(|r| r.copy()).collect();
            let reply = store.run(&command(key, copies));
            assert_eq!(reply.map(|a| a.succeeded), Ok(n));
        }
        assert_eq!(store.records.len(), n);
    }
}

#[test]
fn a_committed_write_is_replayed() {
    let mut store = Store::new();
    let first = store.run(&command("k", vec![repository()]));
    assert_eq!(first.as_ref().map(|a| a.idempotent), Ok(false));
    let again = store.run(&command("k", vec![repository()]));
    assert_eq!(again.as_ref().map(|a| a.idempotent), Ok(true));
    assert_eq!(store.writes, 1);
    assert_eq!(again.map(|a| a.record_ids), Ok(vec!["codegraph:v3:repo".to_owned()]));
}

#[test]
fn a_key_is_not_reused_for_another_payload() {
    let mut store = Store::new();
    assert!(store.run(&command("k", vec![repository()])).is_ok());
    assert_eq!(
        store.run(&command("k", file_batch())),
        Err(ErrorCode::IdempotencyConflict)
    );
    assert_eq!(store.records.len(), 1);
}

#[test]
fn a_write_that_was_broken_off_is_finished() {
    for already_written in [false, true] {
        let mut store = Store::new();
        let c = command("k", vec![repository()]);
        let begun = IdempotencyEntry::Pending {
            payload_hash: c.payload_hash.clone(),
            record_ids: vec!["codegraph:v3:repo".to_owned()],
            records: vec![repository()],
        };
        store.entries.push(("k".to_owned(), begun));
        if already_written {
            store.records.push(repository());
        }
        assert_eq!(store.run(&c).map(|a| a.succeeded), Ok(1));
        assert_eq!(store.records.len(), 1);
        assert_eq!(store.writes, usize::from(!already_written));
        assert!(matches!(&store.entries[0].1, IdempotencyEntry::Committed { .. }));
    }
}

#[test]
fn recovery_tells_what_the_store_holds() {
    let batch = vec![repository()];
    let payloads: Vec<Vec<u8>> = batch.iter().map(bytes).collect();
    let recover = |s: RecordState| {
        recover_pending_write(&batch, &payloads, &vec![s]).map_err(|e| e.code)
    };
    assert_eq!(recover(RecordState::Matched), Ok(true));
    assert_eq!(recover(RecordState::Missing), Ok(false));
    assert_eq!(
        recover(RecordState::Failed("x".to_owned())),
        Err(ErrorCode::InternalError)
    );
}

#[test]
fn one_record_twice_in_a_batch_is_refused() {
    let mut store = Store::new();
    assert!(store.run(&command("k", vec![repository(), repository()])).is_err());
    assert!(store.records.is_empty());
}

#[test]
fn an_event_that_does_not_suit_the_state_does_nothing() {
    let c = command("k", vec![repository()]);
    let (state, _) = begin_write(&c, None);
    assert!(step_write(&c, state, WriteEvent::Saved { failure: None }).is_none());
}

// Queries

fn query(verb: &str) -> QueryVerbRequest {
    QueryVerbRequest {
        request_id: text("q"),
        verb: text(verb),
        params: ParamsShape::Object,
        as_of: None,
        budget: None,
        domain: None,
    }
}

#[test]
fn verbs_are_known_reserved_or_unknown() {
    let verb = |v: &str| plan_query(&query(v)).map(|p| p.verb).map_err(|r| r.error.code);
    assert_eq!(verb("get_records"), Ok(QueryVerb::GetRecords));
    assert_eq!(verb("symbol_by_name"), Ok(QueryVerb::SymbolByName));
    assert_eq!(verb("symbol_at_commit"), Ok(QueryVerb::SymbolAtCommit));
    assert_eq!(verb("file_defines"), Ok(QueryVerb::FileDefines));
    assert_eq!(verb("drift_top_n"), Ok(QueryVerb::DriftTopN));
    assert_eq!(verb("observations_for_symbol"), Err(ErrorCode::NotImplemented));
    assert_eq!(verb("drop"), Err(ErrorCode::BadRequest));
    assert_eq!(verb(""), Err(ErrorCode::MissingField));
}

#[test]
fn budgets_only_narrow_a_query() {
    let plan = |max: Option<usize>, timeout: Option<u64>| {
        let mut q = query("get_records");
        q.budget = Some(QueryBudget {
            max_results: max,
            timeout_ms: timeout,
        });
        plan_query(&q)
            .map(|p| (p.limit, p.timeout_ms))
            .map_err(|r| r.error.code)
    };
    assert_eq!(plan(Some(3), Some(9)), Ok((3, 9)));
    assert_eq!(plan(Some(1_000_000), None), Ok((5000, 5000)));
    assert_eq!(plan(None, Some(0)), Err(ErrorCode::QueryTimeout));
    assert!(check_query_budget(999_999, 1).is_ok());
    assert_eq!(
        check_query_budget(1_000_000, 1).map_err(|e| e.partial_result),
        Err(Some(false))
    );
}

#[test]
fn reserved_selectors_are_refused() {
    let mut q = query("get_records");
    q.as_of = Some(QueryAsOf {
        valid_time: None,
        transaction_time: text("2024-01-01T00:00:00Z"),
        since: None,
    });
    assert_eq!(
        plan_query(&q).map(|p| p.limit).map_err(|r| r.error.code),
        Err(ErrorCode::NotImplemented)
    );
    let mut q = query("get_records");
    q.params = ParamsShape::Other;
    assert_eq!(
        plan_query(&q).map(|p| p.limit).map_err(|r| r.error.message),
        Err("params must be a JSON object".to_owned())
    );
    let mut q = query("get_records");
    q.domain = text("elsewhere");
    assert_eq!(
        plan_query(&q).map(|p| p.limit).map_err(|r| r.error.code),
        Err(ErrorCode::InvalidDomain)
    );
}

#[test]
fn identifiers_are_read_within_their_domain() {
    let ids = IdsParam::Ids(vec![
        "codegraph:v3:a".to_owned(),
        "agent_memory:v1:b".to_owned(),
        "codegraph:v3:c".to_owned(),
        "codegraph:v3:d".to_owned(),
    ]);
    assert_eq!(
        ids_to_read(&ids, "codegraph", 2).map_err(|e| e.code),
        Ok(vec!["codegraph:v3:a".to_owned(), "codegraph:v3:c".to_owned()])
    );
    assert!(ids_to_read(&IdsParam::NotArray, "codegraph", 2).is_err());
    assert!(ids_to_read(&IdsParam::NotStrings, "codegraph", 2).is_err());
    assert_eq!(
        ids_to_read(&IdsParam::Absent, "codegraph", 2).map_err(|e| e.code),
        Ok(vec![])
    );
    let kept = records_of_domain(
        vec![repository(), node("agent_memory:v1:x", NodeKind::Agent, None, "x", "x")],
        "codegraph",
    );
    assert_eq!(kept.len(), 1);
}

#[test]
fn symbols_are_found_by_name_and_by_file() {
    let records = file_batch();
    let found = symbols_by_name(&records, "stable", None, 10);
    assert_eq!(found.len(), 1);
    assert_eq!(found[0].record_id, "codegraph:v3:s");
    assert!(symbols_by_name(&records, "other", None, 10).is_empty());
    assert!(symbols_by_name(&records, "stable", None, 0).is_empty());
    assert!(live_file_node_exists(&records, "src/lib.rs"));
    assert!(!live_file_node_exists(&records, "src/main.rs"));
    assert_eq!(file_defines_current(&records, "src/lib.rs", 10).len(), 1);
    assert!(file_defines_as_of(&records, "src/lib.rs", (0, 0), 10).is_empty());
}

#[test]
fn drift_limits_are_capped() {
    let limit = |p: DriftLimit| drift_limit(p, 50).map_err(|e| e.code);
    assert_eq!(limit(DriftLimit::Absent), Ok(10));
    assert_eq!(limit(DriftLimit::Number(7)), Ok(7));
    assert_eq!(limit(DriftLimit::Number(500)), Ok(50));
    assert_eq!(drift_limit(DriftLimit::Number(500), 5000).map_err(|e| e.code), Ok(100));
    assert_eq!(limit(DriftLimit::Invalid), Err(ErrorCode::BadRequest));
}

// The client

fn metadata() -> DaemonMetadata {
    DaemonMetadata {
        pid: 1,
        address: "127.0.0.1:9".to_owned(),
        token: "tok".to_owned(),
        data_dir: "/d".to_owned(),
        version: "0.1".to_owned(),
        started_at_unix_ms: 0,
    }
}

fn well() -> Answer {
    Ok((
        200,
        r#"{"status":"ok","version":"0.1","data_dir":"/d"}"#.to_owned(),
    ))
}

#[test]
fn a_daemon_is_started_with_its_configuration() {
    let mut config = DaemonConfig::new("/d".to_owned());
    assert_eq!((config.host.as_str(), config.port), ("127.0.0.1", 37383));
    config.port = 1;
    assert_eq!(
        start_arguments(&config).join(" "),
        "daemon run --data-dir /d --host 127.0.0.1 --port 1 --write-queue-capacity 64"
    );
    assert_eq!(runtime_name(Some("data")), "data.egregore-runtime");
    assert_eq!(runtime_name(None), ".egregore-runtime");
}

#[test]
fn health_must_come_from_the_right_daemon() {
    let client = DaemonClient::new(metadata(), "/d".to_owned());
    assert_eq!(client.address(), "127.0.0.1:9");
    assert!(client.healthy(&well(), "0.1"));
    assert!(!client.healthy(&well(), "0.2"));
    assert!(!client.healthy(&Err("refused".to_owned()), "0.1"));
    assert_eq!(
        client.health(500, "x", "0.1"),
        Err("daemon health failed with HTTP 500: x".to_owned())
    );
    assert_eq!(
        client.health(200, "x", "0.1"),
        Err("failed to parse daemon health response".to_owned())
    );
    let other = DaemonClient::new(metadata(), "/e".to_owned());
    assert!(!other.healthy(&well(), "0.1"));
    let reading = HealthReading {
        status: text("ok"),
        version: text("0.1"),
        data_dir: text("/d"),
    };
    assert!(check_health(200, "", Some(reading), "0.1", "/d").is_ok());
    assert!(!client.health_question().contains("tok"));
    assert!(client.authorized_request("POST", "/v1/query", "{}").contains("Bearer tok"));
}

#[test]
fn only_the_right_daemon_is_stopped() {
    let client = DaemonClient::new(metadata(), "/d".to_owned());
    assert_eq!(
        client.shutdown("0.1", &None, &None),
        ClientStep::Send(client.health_question())
    );
    assert_eq!(
        client.shutdown("0.2", &Some(well()), &None),
        ClientStep::Fail("daemon health validation failed before shutdown".to_owned())
    );
    match client.shutdown("0.1", &Some(well()), &None) {
        ClientStep::Send(m) => assert!(m.starts_with("POST /v1/admin/shutdown ")),
        other => panic!("{other:?}"),
    }
    let ok: Answer = Ok((200, String::new()));
    assert_eq!(client.shutdown("0.1", &Some(well()), &Some(ok)), ClientStep::Done);
    let bad: Answer = Ok((500, "no".to_owned()));
    assert_eq!(
        client.shutdown("0.1", &Some(well()), &Some(bad)),
        ClientStep::Fail("daemon shutdown failed with HTTP 500: no".to_owned())
    );
    assert!(DaemonClient::from_data_dir(Err("none".to_owned()), "/d".to_owned()).is_err());
    assert!(active_metadata(Some(metadata()), &well(), "/d", "0.1").is_some());
    assert!(active_metadata(Some(metadata()), &well(), "/x", "0.1").is_none());
    assert!(active_metadata(None, &well(), "/d", "0.1").is_none());
}

#[test]
fn replies_are_checked() {
    assert!(check_ingest_reply(200, "").is_ok());
    assert_eq!(
        check_ingest_reply(409, "b"),
        Err("daemon ingest failed with HTTP 409: b".to_owned())
    );
    assert!(check_query_reply(200, "").is_ok());
    assert_eq!(
        check_query_reply(400, r#"{"error":{"code":"bad_request","message":"m"}}"#),
        Err("daemon query error (bad_request): m".to_owned())
    );
    assert_eq!(
        check_query_reply(400, "{}"),
        Err("daemon query error (unknown): unknown error".to_owned())
    );
    assert_eq!(
        check_query_reply(400, "oops"),
        Err("daemon query error (parse_error): oops".to_owned())
    );
}

#[test]
fn one_daemon_holds_a_store() {
    assert!(check_start(None, false, true, "/d").is_ok());
    assert!(check_start(Some("127.0.0.1:9"), true, true, "/d").is_err());
    assert!(check_start(None, true, false, "/d").is_err());
    assert_eq!(stop(None, true, false, "/d"), StopStep::Wait);
    let failed = |answers, lease_free| match stop(Some("no"), answers, lease_free, "/d") {
        StopStep::Fail { message, clear } => (message, clear),
        StopStep::Wait => panic!("waits"),
    };
    assert_eq!(failed(true, false), ("no".to_owned(), false));
    assert_eq!(failed(false, true), ("no".to_owned(), true));
    assert_eq!(
        failed(false, false),
        (
            "daemon is unresponsive but store lease is still held for /d; refusing to remove metadata: no".to_owned(),
            false
        )
    );
    assert_eq!(wait_step(true, 0), WaitStep::Done);
    assert_eq!(wait_step(false, START_TIMEOUT_MS), WaitStep::Again);
    assert_eq!(wait_step(false, START_TIMEOUT_MS + 1), WaitStep::TimedOut);
}
