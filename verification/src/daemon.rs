//! The daemon as a whole: how it is configured, found, started and stopped.

use vstd::prelude::*;
use vstd::string::*;

use crate::http::{request_message, request_text};
use crate::outside::{
    json_inner_at, json_inner_of, json_is_valid, json_str_at, json_str_of, json_valid_of,
};
use crate::text::{concat2, concat4, decimal, decimal_seq, opt_is, opt_str_view, opt_view, views};

verus! {

/// What the runtime directory of a store is named by.
pub const RUNTIME_DIR_SUFFIX: &'static str = ".egregore-runtime";

/// Where the daemon listens where nothing else is said.
pub const DEFAULT_HOST: &'static str = "127.0.0.1";

/// The port where nothing else is said.
pub const DEFAULT_PORT: u16 = 37383;

/// How many writes may wait where nothing else is said.
pub const DEFAULT_QUEUE_CAPACITY: usize = 64;

/// How long a start or a stop may take, in milliseconds.
pub const START_TIMEOUT_MS: u64 = 10000;

/// How a daemon is launched.
#[derive(Clone, Debug, PartialEq, Eq)]
pub struct DaemonConfig {
    /// The directory of the store.
    pub data_dir: String,
    /// Where it listens.
    pub host: String,
    /// The port; with nil the system chooses one.
    pub port: u16,
    /// How many writes may wait.
    pub write_queue_capacity: usize,
}

/// The view of a [`DaemonConfig`].
#[verifier::ext_equal]
pub struct DaemonConfigView {
    pub data_dir: Seq<char>,
    pub host: Seq<char>,
    pub port: u16,
    pub write_queue_capacity: usize,
}

impl View for DaemonConfig {
    type V = DaemonConfigView;

    open spec fn view(&self) -> DaemonConfigView {
        DaemonConfigView {
            data_dir: self.data_dir@,
            host: self.host@,
            port: self.port,
            write_queue_capacity: self.write_queue_capacity,
        }
    }
}

/// What a running daemon writes down of itself.
#[derive(Clone, Debug, PartialEq, Eq)]
pub struct DaemonMetadata {
    /// The process.
    pub pid: u32,
    /// Where it listens.
    pub address: String,
    /// What its clients show.
    pub token: String,
    /// The directory of the store.
    pub data_dir: String,
    /// Its version.
    pub version: String,
    /// When it started, in milliseconds since the epoch.
    pub started_at_unix_ms: u128,
}

/// The view of a [`DaemonMetadata`].
#[verifier::ext_equal]
pub struct DaemonMetadataView {
    pub pid: u32,
    pub address: Seq<char>,
    pub token: Seq<char>,
    pub data_dir: Seq<char>,
    pub version: Seq<char>,
    pub started_at_unix_ms: u128,
}

impl View for DaemonMetadata {
    type V = DaemonMetadataView;

    open spec fn view(&self) -> DaemonMetadataView {
        DaemonMetadataView {
            pid: self.pid,
            address: self.address@,
            token: self.token@,
            data_dir: self.data_dir@,
            version: self.version@,
            started_at_unix_ms: self.started_at_unix_ms,
        }
    }
}

impl DaemonMetadata {
    /// A copy with the same view.
    pub fn copy(&self) -> (r: DaemonMetadata)
        ensures
            r@ == self@,
    {
        DaemonMetadata {
            pid: self.pid,
            address: self.address.clone(),
            token: self.token.clone(),
            data_dir: self.data_dir.clone(),
            version: self.version.clone(),
            started_at_unix_ms: self.started_at_unix_ms,
        }
    }
}

impl DaemonConfig {
    /// The configuration of a store where nothing else is said.
    pub fn new(data_dir: String) -> (r: DaemonConfig)
        ensures
            r@ == (DaemonConfigView {
                data_dir: data_dir@,
                host: DEFAULT_HOST@,
                port: DEFAULT_PORT,
                write_queue_capacity: DEFAULT_QUEUE_CAPACITY,
            }),
    {
        DaemonConfig {
            data_dir,
            host: DEFAULT_HOST.to_owned(),
            port: DEFAULT_PORT,
            write_queue_capacity: DEFAULT_QUEUE_CAPACITY,
        }
    }
}

/// The arguments by which a process runs a daemon.
pub open spec fn run_arguments(c: DaemonConfigView) -> Seq<Seq<char>> {
    seq![
        "daemon"@,
        "run"@,
        "--data-dir"@,
        c.data_dir,
        "--host"@,
        c.host,
        "--port"@,
        decimal_seq(c.port as nat),
        "--write-queue-capacity"@,
        decimal_seq(c.write_queue_capacity as nat),
    ]
}

/// The arguments by which a process runs a daemon.
pub fn start_arguments(config: &DaemonConfig) -> (r: Vec<String>)
    ensures
        views(r@) == run_arguments(config@),
{
    let mut r: Vec<String> = Vec::new();
    r.push("daemon".to_owned());
    r.push("run".to_owned());
    r.push("--data-dir".to_owned());
    r.push(config.data_dir.clone());
    r.push("--host".to_owned());
    r.push(config.host.clone());
    r.push("--port".to_owned());
    r.push(decimal(config.port as u64));
    r.push("--write-queue-capacity".to_owned());
    r.push(decimal(config.write_queue_capacity as u64));
    assert(views(r@) =~= run_arguments(config@));
    r
}

/// The name of the runtime directory of a store whose directory has the name, where it
/// has one.
pub open spec fn runtime_name_of(file_name: Option<Seq<char>>) -> Seq<char> {
    match file_name {
        Some(x) => x + RUNTIME_DIR_SUFFIX@,
        None => RUNTIME_DIR_SUFFIX@,
    }
}

/// The name of the runtime directory of a store: beside the directory of the store, or,
/// where that has no name, in it.
pub fn runtime_name(file_name: Option<&str>) -> (r: String)
    ensures
        r@ == runtime_name_of(opt_str_view(file_name)),
{
    match file_name {
        Some(x) => concat2(x, RUNTIME_DIR_SUFFIX),
        None => RUNTIME_DIR_SUFFIX.to_owned(),
    }
}

// ---------------------------------------------------------------------------
// Health
// ---------------------------------------------------------------------------

/// What a daemon says of its health, where its answer is JSON.
#[derive(Clone, Debug, PartialEq, Eq)]
pub struct HealthReading {
    pub status: Option<String>,
    pub version: Option<String>,
    pub data_dir: Option<String>,
}

/// The view of a [`HealthReading`].
#[verifier::ext_equal]
pub struct HealthView {
    pub status: Option<Seq<char>>,
    pub version: Option<Seq<char>>,
    pub data_dir: Option<Seq<char>>,
}

impl View for HealthReading {
    type V = HealthView;

    open spec fn view(&self) -> HealthView {
        HealthView {
            status: opt_view(self.status),
            version: opt_view(self.version),
            data_dir: opt_view(self.data_dir),
        }
    }
}

/// The reading of an answer.
pub open spec fn health_reading(body: Seq<char>) -> Option<HealthView> {
    if json_valid_of(body) {
        Some(
            HealthView {
                status: json_str_of(body, "status"@),
                version: json_str_of(body, "version"@),
                data_dir: json_str_of(body, "data_dir"@),
            },
        )
    } else {
        None
    }
}

/// What is wrong with an answer to the question for health, if anything: it must have
/// succeeded, be JSON, and come from a daemon of this version for this store.
pub open spec fn health_error(
    status: u16,
    body: Seq<char>,
    reading: Option<HealthView>,
    version: Seq<char>,
    store: Seq<char>,
) -> Option<Seq<char>> {
    if status != 200 {
        Some("daemon health failed with HTTP "@ + decimal_seq(status as nat) + ": "@ + body)
    } else {
        match reading {
            None => Some("failed to parse daemon health response"@),
            Some(h) => if h.status == Some("ok"@) && h.version == Some(version) && h.data_dir
                == Some(store) {
                None
            } else {
                Some("daemon health response did not match egregore"@)
            },
        }
    }
}

/// The error of a result, if it is one.
pub open spec fn failure_of(r: Result<(), String>) -> Option<Seq<char>> {
    match r {
        Ok(_) => None,
        Err(e) => Some(e@),
    }
}

/// The view of a reading that may be missing.
pub open spec fn opt_health(h: Option<HealthReading>) -> Option<HealthView> {
    match h {
        Some(x) => Some(x@),
        None => None,
    }
}

/// Checks an answer to the question for health, given what was read from it.
pub fn check_health(
    status: u16,
    body: &str,
    reading: Option<HealthReading>,
    version: &str,
    store: &str,
) -> (r: Result<(), String>)
    ensures
        failure_of(r) == health_error(status, body@, opt_health(reading), version@, store@),
{
    if status != 200 {
        return Err(
            concat4(
                "daemon health failed with HTTP ",
                decimal(status as u64).as_str(),
                ": ",
                body,
            ),
        );
    }
    match reading {
        None => Err("failed to parse daemon health response".to_owned()),
        Some(h) => if opt_is(&h.status, "ok") && opt_is(&h.version, version) && opt_is(
            &h.data_dir,
            store,
        ) {
            Ok(())
        } else {
            Err("daemon health response did not match egregore".to_owned())
        },
    }
}

fn read_health(body: &str) -> (r: Option<HealthReading>)
    ensures
        opt_health(r) == health_reading(body@),
{
    if json_is_valid(body) {
        let r = HealthReading {
            status: json_str_at(body, "status"),
            version: json_str_at(body, "version"),
            data_dir: json_str_at(body, "data_dir"),
        };
        Some(r)
    } else {
        None
    }
}

// ---------------------------------------------------------------------------
// Client
// ---------------------------------------------------------------------------

/// What came of a request: a status and a body, or why there is none.
pub type Answer = Result<(u16, String), String>;

/// A client of a daemon.
#[derive(Clone, Debug, PartialEq, Eq)]
pub struct DaemonClient {
    metadata: DaemonMetadata,
    expected_store_identity: String,
}

/// The view of a [`DaemonClient`].
#[verifier::ext_equal]
pub struct ClientView {
    pub metadata: DaemonMetadataView,
    pub store: Seq<char>,
}

impl View for DaemonClient {
    type V = ClientView;

    closed spec fn view(&self) -> ClientView {
        ClientView { metadata: self.metadata@, store: self.expected_store_identity@ }
    }
}

/// What a client does next.
#[derive(Clone, Debug, PartialEq, Eq)]
pub enum ClientStep {
    /// It sends a request and waits for the answer.
    Send(String),
    /// It is done.
    Done,
    /// It gives up.
    Fail(String),
}

/// The view of a [`ClientStep`].
pub enum ClientStepView {
    Send(Seq<char>),
    Done,
    Fail(Seq<char>),
}

impl View for ClientStep {
    type V = ClientStepView;

    open spec fn view(&self) -> ClientStepView {
        match self {
            ClientStep::Send(s) => ClientStepView::Send(s@),
            ClientStep::Done => ClientStepView::Done,
            ClientStep::Fail(s) => ClientStepView::Fail(s@),
        }
    }
}

/// The question for health: it needs no token.
pub open spec fn health_request() -> Seq<char> {
    request_message("GET"@, "/v1/health"@, None, ""@)
}

/// The request to stop.
pub open spec fn shutdown_request(c: ClientView) -> Seq<char> {
    request_message("POST"@, "/v1/admin/shutdown"@, Some(c.metadata.token), ""@)
}

/// Whether an answer shows that the right daemon is well.
pub open spec fn is_healthy(c: ClientView, a: Answer, version: Seq<char>) -> bool {
    match a {
        Ok(x) => health_error(x.0, x.1@, health_reading(x.1@), version, c.store) is None,
        Err(_) => false,
    }
}

/// What a client does to stop the daemon: it asks for its health, and asks it to stop
/// only where the right daemon is well.
pub open spec fn shutdown_step(
    c: ClientView,
    version: Seq<char>,
    health: Option<Answer>,
    reply: Option<Answer>,
) -> ClientStepView {
    match health {
        None => ClientStepView::Send(health_request()),
        Some(h) => if !is_healthy(c, h, version) {
            ClientStepView::Fail("daemon health validation failed before shutdown"@)
        } else {
            match reply {
                None => ClientStepView::Send(shutdown_request(c)),
                Some(Err(e)) => ClientStepView::Fail(e@),
                Some(Ok(x)) => if x.0 == 200 {
                    ClientStepView::Done
                } else {
                    ClientStepView::Fail(
                        "daemon shutdown failed with HTTP "@ + decimal_seq(x.0 as nat) + ": "@
                            + x.1@,
                    )
                },
            }
        },
    }
}

impl DaemonClient {
    /// A client of the daemon with this metadata, for the store with this identity.
    pub fn new(metadata: DaemonMetadata, store_identity: String) -> (r: DaemonClient)
        ensures
            r@ == (ClientView { metadata: metadata@, store: store_identity@ }),
    {
        DaemonClient { metadata, expected_store_identity: store_identity }
    }

    /// A client of the daemon whose metadata was read for the store, or why it was not.
    pub fn from_data_dir(read: Result<DaemonMetadata, String>, store_identity: String) -> (r: Result<
        DaemonClient,
        String,
    >)
        ensures
            match (read, r) {
                (Ok(m), Ok(c)) => c@ == (ClientView { metadata: m@, store: store_identity@ }),
                (Err(e), Err(x)) => x@ == e@,
                _ => false,
            },
    {
        match read {
            Ok(m) => Ok(DaemonClient::new(m, store_identity)),
            Err(e) => Err(e),
        }
    }

    /// Where the daemon listens.
    pub fn address(&self) -> (r: &str)
        ensures
            r@ == self@.metadata.address,
    {
        self.metadata.address.as_str()
    }

    /// The question for health.
    pub fn health_question(&self) -> (r: String)
        ensures
            r@ == health_request(),
    {
        request_text("GET", "/v1/health", None, "")
    }

    /// A request that shows the token.
    pub fn authorized_request(&self, method: &str, path: &str, body: &str) -> (r: String)
        ensures
            r@ == request_message(method@, path@, Some(self@.metadata.token), body@),
    {
        request_text(method, path, Some(self.metadata.token.as_str()), body)
    }

    /// Checks the answer to the question for health.
    pub fn health(&self, status: u16, body: &str, version: &str) -> (r: Result<(), String>)
        ensures
            failure_of(r) == health_error(
                status,
                body@,
                health_reading(body@),
                version@,
                self@.store,
            ),
    {
        let reading = read_health(body);
        check_health(status, body, reading, version, self.expected_store_identity.as_str())
    }

    /// Whether an answer shows that the right daemon is well.
    pub fn healthy(&self, answer: &Answer, version: &str) -> (r: bool)
        ensures
            r == is_healthy(self@, *answer, version@),
    {
        match answer {
            Ok(x) => match self.health(x.0, x.1.as_str(), version) {
                Ok(_) => true,
                Err(_) => false,
            },
            Err(_) => false,
        }
    }

    /// What a client does next to stop the daemon, with the answers that came so far.
    pub fn shutdown(&self, version: &str, health: &Option<Answer>, reply: &Option<Answer>) -> (r:
        ClientStep)
        ensures
            r@ == shutdown_step(self@, version@, *health, *reply),
    {
        match health {
            None => ClientStep::Send(self.health_question()),
            Some(h) => if !self.healthy(h, version) {
                ClientStep::Fail("daemon health validation failed before shutdown".to_owned())
            } else {
                match reply {
                    None => ClientStep::Send(
                        self.authorized_request("POST", "/v1/admin/shutdown", ""),
                    ),
                    Some(Err(e)) => ClientStep::Fail(e.clone()),
                    Some(Ok(x)) => if x.0 == 200 {
                        ClientStep::Done
                    } else {
                        ClientStep::Fail(
                            concat4(
                                "daemon shutdown failed with HTTP ",
                                decimal(x.0 as u64).as_str(),
                                ": ",
                                x.1.as_str(),
                            ),
                        )
                    },
                }
            },
        }
    }
}

/// What is wrong with the answer to an ingestion, if anything.
pub open spec fn ingest_failure(status: u16, body: Seq<char>) -> Option<Seq<char>> {
    if status == 200 {
        None
    } else {
        Some("daemon ingest failed with HTTP "@ + decimal_seq(status as nat) + ": "@ + body)
    }
}

/// Checks the answer to an ingestion.
pub fn check_ingest_reply(status: u16, body: &str) -> (r: Result<(), String>)
    ensures
        failure_of(r) == ingest_failure(status, body@),
{
    if status == 200 {
        Ok(())
    } else {
        Err(
            concat4(
                "daemon ingest failed with HTTP ",
                decimal(status as u64).as_str(),
                ": ",
                body,
            ),
        )
    }
}

/// A text, or another where there is none.
pub open spec fn or_text(a: Option<Seq<char>>, b: Seq<char>) -> Seq<char> {
    match a {
        Some(x) => x,
        None => b,
    }
}

fn or_string(a: Option<String>, b: &str) -> (r: String)
    ensures
        r@ == or_text(opt_view(a), b@),
{
    match a {
        Some(x) => x,
        None => b.to_owned(),
    }
}

/// What is wrong with the answer to a query, if anything: the code and the message are
/// those that the answer gives, where it is JSON.
pub open spec fn query_failure(
    status: u16,
    body: Seq<char>,
    json: bool,
    code: Option<Seq<char>>,
    message: Option<Seq<char>>,
) -> Option<Seq<char>> {
    if status == 200 {
        None
    } else if json {
        Some(
            "daemon query error ("@ + or_text(code, "unknown"@) + "): "@ + or_text(
                message,
                "unknown error"@,
            ),
        )
    } else {
        Some("daemon query error (parse_error): "@ + body)
    }
}

/// Checks the answer to a query, given what was read from it.
pub fn check_query(
    status: u16,
    body: &str,
    json: bool,
    code: Option<String>,
    message: Option<String>,
) -> (r: Result<(), String>)
    ensures
        failure_of(r) == query_failure(status, body@, json, opt_view(code), opt_view(message)),
{
    if status == 200 {
        Ok(())
    } else if json {
        let c = or_string(code, "unknown");
        let m = or_string(message, "unknown error");
        Err(concat4("daemon query error (", c.as_str(), "): ", m.as_str()))
    } else {
        Err(concat2("daemon query error (parse_error): ", body))
    }
}

/// Checks the answer to a query.
pub fn check_query_reply(status: u16, body: &str) -> (r: Result<(), String>)
    ensures
        failure_of(r) == query_failure(
            status,
            body@,
            json_valid_of(body@),
            json_inner_of(body@, "error"@, "code"@),
            json_inner_of(body@, "error"@, "message"@),
        ),
{
    check_query(
        status,
        body,
        json_is_valid(body),
        json_inner_at(body, "error", "code"),
        json_inner_at(body, "error", "message"),
    )
}

// ---------------------------------------------------------------------------
// Starting and stopping
// ---------------------------------------------------------------------------

/// The view of metadata that may be missing.
pub open spec fn opt_metadata(m: Option<DaemonMetadata>) -> Option<DaemonMetadataView> {
    match m {
        Some(x) => Some(x@),
        None => None,
    }
}

/// The metadata of the daemon that runs for a store: that which was read, where the
/// daemon that it names answers that it is well and serves this store.
pub open spec fn active(
    read: Option<DaemonMetadataView>,
    answer: Answer,
    store: Seq<char>,
    version: Seq<char>,
) -> Option<DaemonMetadataView> {
    match read {
        Some(m) => if is_healthy(ClientView { metadata: m, store }, answer, version) {
            Some(m)
        } else {
            None
        },
        None => None,
    }
}

/// The metadata of the daemon that runs for a store.
pub fn active_metadata(
    read: Option<DaemonMetadata>,
    answer: &Answer,
    store_identity: &str,
    version: &str,
) -> (r: Option<DaemonMetadata>)
    ensures
        opt_metadata(r) == active(opt_metadata(read), *answer, store_identity@, version@),
{
    match read {
        Some(m) => {
            let client = DaemonClient::new(m.copy(), store_identity.to_owned());
            if client.healthy(answer, version) {
                Some(m)
            } else {
                None
            }
        },
        None => None,
    }
}

/// Why a daemon may not be started, if anything: one runs, or the store is held.
pub open spec fn start_error(
    running_at: Option<Seq<char>>,
    metadata_exists: bool,
    lease_free: bool,
    data_dir: Seq<char>,
) -> Option<Seq<char>> {
    match running_at {
        Some(a) => Some("daemon already running at "@ + a),
        None => if lease_free {
            None
        } else if metadata_exists {
            Some(
                "daemon metadata is unresponsive but store lease is still held for "@ + data_dir,
            )
        } else {
            Some("embedded store lease is still held for "@ + data_dir)
        },
    }
}

/// Whether a daemon may be started: `running_at` is where one answers, if one does, and
/// `lease_free` whether nobody holds the store.
pub fn check_start(
    running_at: Option<&str>,
    metadata_exists: bool,
    lease_free: bool,
    data_dir: &str,
) -> (r: Result<(), String>)
    ensures
        failure_of(r) == start_error(
            opt_str_view(running_at),
            metadata_exists,
            lease_free,
            data_dir@,
        ),
{
    match running_at {
        Some(a) => Err(concat2("daemon already running at ", a)),
        None => if lease_free {
            Ok(())
        } else if metadata_exists {
            Err(
                concat2(
                    "daemon metadata is unresponsive but store lease is still held for ",
                    data_dir,
                ),
            )
        } else {
            Err(concat2("embedded store lease is still held for ", data_dir))
        },
    }
}

/// What is done once a daemon was asked to stop.
#[derive(Clone, Debug, PartialEq, Eq)]
pub enum StopStep {
    /// It is waited for.
    Wait,
    /// It could not be stopped. Where it is gone and nobody holds the store, what it left
    /// behind is cleared.
    Fail { message: String, clear: bool },
}

/// The view of a [`StopStep`].
pub enum StopView {
    Wait,
    Fail { message: Seq<char>, clear: bool },
}

impl View for StopStep {
    type V = StopView;

    open spec fn view(&self) -> StopView {
        match self {
            StopStep::Wait => StopView::Wait,
            StopStep::Fail { message, clear } => StopView::Fail {
                message: message@,
                clear: *clear,
            },
        }
    }
}

/// What is done once a daemon was asked to stop: one that agreed is waited for, and one
/// that did not is a failure. The traces of one that does not answer are removed where
/// nobody holds the store, and only there.
pub open spec fn stop_step(
    refused: Option<Seq<char>>,
    answers: bool,
    lease_free: bool,
    data_dir: Seq<char>,
) -> StopView {
    match refused {
        None => StopView::Wait,
        Some(e) => if answers || lease_free {
            StopView::Fail { message: e, clear: !answers }
        } else {
            StopView::Fail {
                message: "daemon is unresponsive but store lease is still held for "@ + data_dir
                    + "; refusing to remove metadata: "@ + e,
                clear: false,
            }
        },
    }
}

/// What is done once a daemon was asked to stop: `refused` is why it did not agree,
/// `answers` whether it still answers, and `lease_free` whether nobody holds the store.
pub fn stop(refused: Option<&str>, answers: bool, lease_free: bool, data_dir: &str) -> (r: StopStep)
    ensures
        r@ == stop_step(opt_str_view(refused), answers, lease_free, data_dir@),
{
    match refused {
        None => StopStep::Wait,
        Some(e) => if answers || lease_free {
            StopStep::Fail { message: e.to_owned(), clear: !answers }
        } else {
            StopStep::Fail {
                message: concat4(
                    "daemon is unresponsive but store lease is still held for ",
                    data_dir,
                    "; refusing to remove metadata: ",
                    e,
                ),
                clear: false,
            }
        },
    }
}

/// What is done while a start or a stop is waited for.
#[derive(Clone, Copy, Debug, PartialEq, Eq, Structural)]
pub enum WaitStep {
    /// It has come.
    Done,
    /// It took too long.
    TimedOut,
    /// It is looked for again.
    Again,
}

/// What is done while a start or a stop is waited for: nothing more once it has come,
/// and nothing more once it took longer than the timeout.
pub fn wait_step(arrived: bool, elapsed_ms: u64) -> (r: WaitStep)
    ensures
        r == (if arrived {
            WaitStep::Done
        } else if elapsed_ms > START_TIMEOUT_MS {
            WaitStep::TimedOut
        } else {
            WaitStep::Again
        }),
{
    if arrived {
        WaitStep::Done
    } else if elapsed_ms > START_TIMEOUT_MS {
        WaitStep::TimedOut
    } else {
        WaitStep::Again
    }
}

// ---------------------------------------------------------------------------
// Laws
// ---------------------------------------------------------------------------

/// A daemon is asked to stop only once it has shown that it is the right one: a request
/// that holds the token goes to no other.
pub proof fn law_token_is_shown_to_the_right_daemon_only(
    c: ClientView,
    version: Seq<char>,
    health: Option<Answer>,
    reply: Option<Answer>,
)
    requires
        match health {
            Some(h) => !is_healthy(c, h, version),
            None => true,
        },
    ensures
        shutdown_step(c, version, health, reply) == ClientStepView::Send(health_request())
            || shutdown_step(c, version, health, reply) is Fail,
{
}

/// While one daemon answers for a store, or the store is held, no other is started.
pub proof fn law_one_daemon_per_store(
    running_at: Option<Seq<char>>,
    metadata_exists: bool,
    lease_free: bool,
    data_dir: Seq<char>,
)
    ensures
        start_error(running_at, metadata_exists, lease_free, data_dir) is None <==> (running_at
            is None && lease_free),
{
}

/// A daemon that was asked to stop and did not agree is a failure, whatever became of it.
pub proof fn law_refused_stop_fails(
    refused: Option<Seq<char>>,
    answers: bool,
    lease_free: bool,
    data_dir: Seq<char>,
)
    ensures
        stop_step(refused, answers, lease_free, data_dir) is Fail <==> refused is Some,
{
}

/// The traces of a daemon are removed at once only where nobody holds the store and the
/// daemon no longer answers.
pub proof fn law_held_store_keeps_its_traces(
    refused: Option<Seq<char>>,
    answers: bool,
    lease_free: bool,
    data_dir: Seq<char>,
)
    requires
        stop_step(refused, answers, lease_free, data_dir) matches StopView::Fail { clear, .. }
            && clear,
    ensures
        lease_free,
        !answers,
        refused is Some,
{
}

} // verus!
