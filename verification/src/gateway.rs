//! The gateway's decisions: which route a request takes, what a command
//! request is answered with, how events are framed for a stream, and
//! what status a failure gets.  Transport is not its business.

use vstd::prelude::*;
use crate::broker::{
    spec_publish,
    spec_publish_all,
    BrokerError,
    EventBroker,
    Polled,
};
use crate::clock::now_rfc3339;
use crate::config::ApiConfig;
use crate::decimal::{decimal_digits, parse_number, render_decimal_wide, spec_number};
use crate::events::{event_views, Event, EventKind, EventKindView, EventView};
use crate::json::{
    json_array,
    json_object,
    member_views,
    raw_member,
    spec_array,
    spec_object,
    text_member,
    text_pair,
    Member,
};
use crate::parser::grammar::spec_parse;
use crate::runtime::{
    executed,
    extends,
    lemma_processed_extends,
    processed,
    unhooked,
    Runtime,
    RuntimeError,
};
use crate::text::{chars_of, concat, concat3, same_chars, same_text, string_of, texts};

verus! {

/// What the gateway can fail a request with.
#[derive(Debug)]
pub enum ApiError {
    /// The command could not be processed.
    CommandProcessingError(String),
    /// The request does not hold a command.
    InvalidCommandFormat(String),
    /// Something failed inside the server.
    InternalError(String),
}

impl ApiError {
    /// The message of the error.
    pub open spec fn spec_message(self) -> Seq<char> {
        match self {
            ApiError::CommandProcessingError(d) => "Erro ao processar comando: "@ + d@,
            ApiError::InvalidCommandFormat(d) => "Formato de comando inválido: "@ + d@,
            ApiError::InternalError(d) => "Erro interno: "@ + d@,
        }
    }

    pub fn message(&self) -> (s: String)
        ensures
            s@ == self.spec_message(),
    {
        match self {
            ApiError::CommandProcessingError(d) => concat("Erro ao processar comando: ", d.as_str()),
            ApiError::InvalidCommandFormat(d) => concat("Formato de comando inválido: ", d.as_str()),
            ApiError::InternalError(d) => concat("Erro interno: ", d.as_str()),
        }
    }
}

/// The body of an answer that reports a failure.
#[derive(Debug)]
pub struct ErrorResponse {
    pub status: u16,
    pub message: String,
    /// When the answer was made, as RFC 3339 text.
    pub timestamp: String,
}

/// Why a request was turned away.
#[derive(Debug)]
pub enum Rejection {
    /// No route matches the request.
    NotFound,
    /// A handler failed.
    Api(ApiError),
    /// The body of the request could not be read as JSON; the text says
    /// why.
    InvalidBody(String),
    /// Anything else.
    Other,
}

/// The status that a rejection is answered with.
pub open spec fn spec_status(rejection: Rejection) -> u16 {
    match rejection {
        Rejection::NotFound => 404,
        Rejection::Api(ApiError::CommandProcessingError(_)) => 400,
        Rejection::Api(ApiError::InvalidCommandFormat(_)) => 400,
        Rejection::Api(ApiError::InternalError(_)) => 500,
        Rejection::InvalidBody(_) => 400,
        Rejection::Other => 500,
    }
}

/// The message that a rejection is answered with.
pub open spec fn spec_rejection_message(rejection: Rejection) -> Seq<char> {
    match rejection {
        Rejection::NotFound => "Recurso não encontrado"@,
        Rejection::Api(ApiError::CommandProcessingError(d)) => "Erro ao processar comando: "@ + d@,
        Rejection::Api(ApiError::InvalidCommandFormat(d)) => "Formato de comando inválido: "@
            + d@,
        Rejection::Api(ApiError::InternalError(d)) => "Erro interno do servidor: "@ + d@,
        Rejection::InvalidBody(d) => "Corpo da requisição inválido: "@ + d@,
        Rejection::Other => "Erro interno não especificado"@,
    }
}

/// Answers a rejection: the status and the message that go with its
/// cause, and the time of the answer.
pub fn handle_rejection(rejection: &Rejection) -> (response: ErrorResponse)
    ensures
        response.status == spec_status(*rejection),
        response.message@ == spec_rejection_message(*rejection),
{
    let (status, message): (u16, String) = match rejection {
        Rejection::NotFound => (404, "Recurso não encontrado".to_owned()),
        Rejection::Api(ApiError::CommandProcessingError(d)) => (
            400,
            concat("Erro ao processar comando: ", d.as_str()),
        ),
        Rejection::Api(ApiError::InvalidCommandFormat(d)) => (
            400,
            concat("Formato de comando inválido: ", d.as_str()),
        ),
        Rejection::Api(ApiError::InternalError(d)) => (
            500,
            concat("Erro interno do servidor: ", d.as_str()),
        ),
        Rejection::InvalidBody(d) => (400, concat("Corpo da requisição inválido: ", d.as_str())),
        Rejection::Other => (500, "Erro interno não especificado".to_owned()),
    };
    ErrorResponse { status, message, timestamp: now_rfc3339() }
}

impl ErrorResponse {
    /// The response as a JSON object with the members `status`, `message`
    /// and `timestamp`.
    pub fn to_json(&self) -> (s: String)
        ensures
            s@ == spec_object(
                seq![
                    ("status"@, decimal_digits(self.status as nat)),
                    text_pair("message"@, self.message@),
                    text_pair("timestamp"@, self.timestamp@),
                ],
            ),
    {
        let mut list: Vec<Member> = Vec::new();
        list.push(raw_member("status", render_decimal_wide(self.status as u128)));
        list.push(text_member("message", self.message.as_str()));
        list.push(text_member("timestamp", self.timestamp.as_str()));
        assert(member_views(list@) =~= seq![
            ("status"@, decimal_digits(self.status as nat)),
            text_pair("message"@, self.message@),
            text_pair("timestamp"@, self.timestamp@),
        ]);
        json_object(&list)
    }
}

/// The methods that the gateway tells apart.
#[derive(Debug, Clone, Copy, PartialEq, Eq, Structural)]
pub enum Method {
    Get,
    Post,
    Options,
    Other,
}

/// The routes of the gateway.
#[derive(Debug, Clone, Copy, PartialEq, Eq, Structural)]
pub enum Route {
    /// `POST /{prefix}/dsl`
    Dsl,
    /// `GET /{prefix}/stream`
    Stream,
    /// `GET /{prefix}/health`
    Health,
    /// `GET /{prefix}/ready`
    Ready,
    /// `GET /{prefix}/healthz/db`
    DbHealth,
    /// Anything else.
    NotFound,
}

/// The route that a request takes.
pub open spec fn spec_route(prefix: Seq<char>, method: Method, path: Seq<char>) -> Route {
    let base = "/"@ + prefix;
    if method == Method::Post && path == base + "/dsl"@ {
        Route::Dsl
    } else if method == Method::Get && path == base + "/stream"@ {
        Route::Stream
    } else if method == Method::Get && path == base + "/health"@ {
        Route::Health
    } else if method == Method::Get && path == base + "/ready"@ {
        Route::Ready
    } else if method == Method::Get && path == base + "/healthz/db"@ {
        Route::DbHealth
    } else {
        Route::NotFound
    }
}

/// Decides which route a request takes, by its method and its path
/// without the query.
pub fn setup_routes(config: &ApiConfig, method: Method, path: &str) -> (route: Route)
    ensures
        route == spec_route(config.api_prefix@, method, path@),
{
    let base = concat("/", config.api_prefix.as_str());
    let is_get = match method {
        Method::Get => true,
        _ => false,
    };
    let is_post = match method {
        Method::Post => true,
        _ => false,
    };
    if is_post && same_text(path, concat(base.as_str(), "/dsl").as_str()) {
        Route::Dsl
    } else if is_get && same_text(path, concat(base.as_str(), "/stream").as_str()) {
        Route::Stream
    } else if is_get && same_text(path, concat(base.as_str(), "/health").as_str()) {
        Route::Health
    } else if is_get && same_text(path, concat(base.as_str(), "/ready").as_str()) {
        Route::Ready
    } else if is_get && same_text(path, concat(base.as_str(), "/healthz/db").as_str()) {
        Route::DbHealth
    } else {
        Route::NotFound
    }
}

/// What cross-origin requests are allowed.
#[derive(Debug)]
pub struct CorsPolicy {
    pub allowed_origin: String,
    pub allowed_methods: Vec<String>,
    pub allowed_headers: Vec<String>,
}

/// The cross-origin policy of a configuration: none without a configured
/// origin; otherwise that origin, the methods `GET`, `POST` and
/// `OPTIONS`, and the headers `Content-Type` and `Last-Event-ID`.
pub fn cors_policy(config: &ApiConfig) -> (policy: Option<CorsPolicy>)
    ensures
        match policy {
            Some(p) => config.cors_allowed_origin matches Some(origin) && p.allowed_origin@
                == origin@ && texts(p.allowed_methods@) == seq!["GET"@, "POST"@, "OPTIONS"@]
                && texts(p.allowed_headers@) == seq!["Content-Type"@, "Last-Event-ID"@],
            None => config.cors_allowed_origin is None,
        },
{
    match &config.cors_allowed_origin {
        Some(origin) => {
            let mut allowed_methods: Vec<String> = Vec::new();
            allowed_methods.push("GET".to_owned());
            allowed_methods.push("POST".to_owned());
            allowed_methods.push("OPTIONS".to_owned());
            let mut allowed_headers: Vec<String> = Vec::new();
            allowed_headers.push("Content-Type".to_owned());
            allowed_headers.push("Last-Event-ID".to_owned());
            assert(texts(allowed_methods@) =~= seq!["GET"@, "POST"@, "OPTIONS"@]);
            assert(texts(allowed_headers@) =~= seq!["Content-Type"@, "Last-Event-ID"@]);
            Some(CorsPolicy { allowed_origin: origin.clone(), allowed_methods, allowed_headers })
        },
        None => None,
    }
}

/// The answer of the health endpoint.
#[derive(Debug)]
pub struct HealthResponse {
    pub status: String,
    pub timestamp: String,
    pub version: String,
    pub product: String,
}

/// Answers the health endpoint: the server is up.
pub fn handle_health() -> (response: HealthResponse)
    ensures
        response.status@ == "UP"@,
        response.version@ == crate::VERSION@,
        response.product@ == crate::PRODUCT_NAME@,
{
    HealthResponse {
        status: "UP".to_owned(),
        timestamp: now_rfc3339(),
        version: crate::VERSION.to_owned(),
        product: crate::PRODUCT_NAME.to_owned(),
    }
}

/// Which parts of the server are ready.
#[derive(Debug, Clone, Copy)]
pub struct ReadinessChecks {
    pub parser: bool,
    pub runtime: bool,
    pub database: bool,
    pub streaming: bool,
}

/// The answer of the readiness endpoint.
#[derive(Debug)]
pub struct ReadinessResponse {
    /// 200 where every check passes, 503 otherwise.
    pub code: u16,
    /// `READY` or `NOT_READY`.
    pub status: String,
    pub timestamp: String,
    pub checks: ReadinessChecks,
}

/// Answers the readiness endpoint from the state of the checks.
pub fn handle_readiness(checks: ReadinessChecks) -> (response: ReadinessResponse)
    ensures
        response.checks == checks,
        checks.parser && checks.runtime && checks.database && checks.streaming ==> response.code
            == 200 && response.status@ == "READY"@,
        !(checks.parser && checks.runtime && checks.database && checks.streaming)
            ==> response.code == 503 && response.status@ == "NOT_READY"@,
{
    let ready = checks.parser && checks.runtime && checks.database && checks.streaming;
    ReadinessResponse {
        code: if ready {
            200
        } else {
            503
        },
        status: if ready {
            "READY".to_owned()
        } else {
            "NOT_READY".to_owned()
        },
        timestamp: now_rfc3339(),
        checks,
    }
}

/// The answer of the database health endpoint.
#[derive(Debug)]
pub struct DbHealthResponse {
    /// 200 where the database can be reached, 503 otherwise.
    pub code: u16,
    /// `UP` or `DOWN`.
    pub database: String,
    pub latency_ms: u64,
    pub timestamp: String,
}

/// Answers the database health endpoint from what a probe found.
pub fn handle_db_health(reachable: bool, latency_ms: u64) -> (response: DbHealthResponse)
    ensures
        response.latency_ms == latency_ms,
        reachable ==> response.code == 200 && response.database@ == "UP"@,
        !reachable ==> response.code == 503 && response.database@ == "DOWN"@,
{
    DbHealthResponse {
        code: if reachable {
            200
        } else {
            503
        },
        database: if reachable {
            "UP".to_owned()
        } else {
            "DOWN".to_owned()
        },
        latency_ms,
        timestamp: now_rfc3339(),
    }
}

/// The answer to a command that was carried out.
#[derive(Debug)]
pub struct DslResponse {
    /// What the runtime said was done.
    pub result: String,
    /// The events of the timeline after the command, each as a JSON
    /// object.
    pub events: Vec<String>,
    /// When the answer was made, as RFC 3339 text.
    pub timestamp: String,
}

/// The JSON text of an answer to a command.
pub open spec fn spec_dsl_json(response: DslResponse) -> Seq<char> {
    spec_object(
        seq![
            text_pair("result"@, response.result@),
            ("events"@, spec_array(texts(response.events@))),
            text_pair("timestamp"@, response.timestamp@),
        ],
    )
}

impl DslResponse {
    /// The answer as a JSON object with the members `result`, `events`
    /// and `timestamp`.
    pub fn to_json(&self) -> (s: String)
        ensures
            s@ == spec_dsl_json(*self),
    {
        let mut list: Vec<Member> = Vec::new();
        list.push(text_member("result", self.result.as_str()));
        list.push(raw_member("events", json_array(&self.events)));
        list.push(text_member("timestamp", self.timestamp.as_str()));
        assert(member_views(list@) =~= seq![
            text_pair("result"@, self.result@),
            ("events"@, spec_array(texts(self.events@))),
            text_pair("timestamp"@, self.timestamp@),
        ]);
        json_object(&list)
    }
}

/// The JSON objects of the kinds of a sequence of events.
pub open spec fn kind_documents(events: Seq<EventView>) -> Seq<Seq<char>> {
    events.map_values(|e: EventView| spec_object(e.kind.members()))
}

/// Whether the gateway's answer renders the runtime's outcome: the text
/// of what was done, or the failure as a command-processing error with
/// the failure's message.
pub open spec fn answers(
    outcome: Result<String, RuntimeError>,
    r: Result<DslResponse, ApiError>,
) -> bool {
    match outcome {
        Ok(text) => r matches Ok(response) && response.result@ == text@,
        Err(e) => r matches Err(ApiError::CommandProcessingError(m)) && m@ == e.spec_message(),
    }
}

/// Whether an event is the one that announces an answered command: it
/// carries the answer and goes to the channels `commands` and `default`.
pub open spec fn announces(event: EventView, response: DslResponse) -> bool {
    event.kind == (EventKindView::CommandExecuted { payload: spec_dsl_json(response) })
        && event.channels == seq!["commands"@, "default"@]
}

/// Answers a command request.
///
/// The command is processed by the runtime.  Every event that this added
/// to the timeline is then published, in order; an event is in the
/// timeline before it is published.  Where the command was carried out,
/// the answer holds what was done and the timeline's events, and is
/// itself published on the channels `commands` and `default`.  A failure
/// to publish fails nothing.
pub fn handle_dsl(runtime: &mut Runtime, broker: &mut EventBroker, command: &str) -> (r: Result<
    DslResponse,
    ApiError,
>)
    requires
        old(runtime).wf(),
        old(broker).wf(),
    ensures
        final(runtime).wf(),
        final(broker).wf(),
        extends(old(runtime).timeline, final(runtime).timeline),
        exists|outcome: Result<String, RuntimeError>|
            #![auto]
            processed(*old(runtime), *final(runtime), command@, outcome) && answers(outcome, r),
        unhooked(*old(runtime)) ==> match spec_parse(command@) {
            Ok(kind) => exists|outcome: Result<String, RuntimeError>|
                #![auto]
                executed(*old(runtime), *final(runtime), kind, outcome) && answers(outcome, r),
            Err(_) => true,
        },
        match r {
            Ok(response) => texts(response.events@) == kind_documents(
                final(runtime).timeline.view(),
            ) && exists|event: EventView|
                #![auto]
                announces(event, response) && final(broker).view() == spec_publish(
                    spec_publish_all(
                        old(broker).view(),
                        final(runtime).timeline.view().subrange(
                            old(runtime).timeline.view().len() as int,
                            final(runtime).timeline.view().len() as int,
                        ),
                    ),
                    event,
                ),
            Err(_) => final(broker).view() == spec_publish_all(
                old(broker).view(),
                final(runtime).timeline.view().subrange(
                    old(runtime).timeline.view().len() as int,
                    final(runtime).timeline.view().len() as int,
                ),
            ),
        },
{
    let start = runtime.timeline.events.len();
    let outcome = runtime.process_command(command);
    proof {
        lemma_processed_extends(*old(runtime), *runtime, command@, outcome);
    }
    let ghost after = *runtime;
    let ghost witness = outcome;
    let ghost log = runtime.timeline.view();
    let mut i: usize = start;
    assert(log.subrange(start as int, start as int) =~= Seq::<EventView>::empty());
    while i < runtime.timeline.events.len()
        invariant
            start <= i <= runtime.timeline.events@.len(),
            *runtime == after,
            log == runtime.timeline.view(),
            broker.wf(),
            broker.view() == spec_publish_all(old(broker).view(), log.subrange(start as int, i as int)),
        decreases runtime.timeline.events@.len() - i,
    {
        let ghost next = log.subrange(start as int, i as int + 1);
        assert(next.drop_last() =~= log.subrange(start as int, i as int));
        assert(next.last() == runtime.timeline.events@[i as int]@);
        let _ = broker.publish(runtime.timeline.events[i].duplicate());
        i = i + 1;
    }
    let result = match outcome {
        Ok(text) => text,
        Err(e) => {
            let r = Err(ApiError::CommandProcessingError(e.message()));
            assert(processed(*old(runtime), *runtime, command@, witness) && answers(witness, r));
            proof {
                if unhooked(*old(runtime)) && spec_parse(command@) is Ok {
                    assert(executed(*old(runtime), *runtime, spec_parse(command@)->Ok_0, witness)
                        && answers(witness, r));
                }
            }
            return r;
        },
    };
    let listed = runtime.timeline.list_events();
    let mut events: Vec<String> = Vec::new();
    let mut k: usize = 0;
    while k < listed.len()
        invariant
            k <= listed@.len(),
            event_views(listed@) == log,
            texts(events@) == kind_documents(log).subrange(0, k as int),
        decreases listed@.len() - k,
    {
        let ghost before = texts(events@);
        events.push(listed[k].kind.to_json());
        assert(log[k as int] == listed@[k as int]@);
        assert(texts(events@) =~= before.push(kind_documents(log)[k as int]));
        assert(kind_documents(log).subrange(0, k as int + 1) =~= kind_documents(log).subrange(
            0,
            k as int,
        ).push(kind_documents(log)[k as int]));
        k = k + 1;
    }
    assert(kind_documents(log).subrange(0, listed@.len() as int) =~= kind_documents(log));
    let response = DslResponse { result, events, timestamp: now_rfc3339() };
    let mut channels: Vec<String> = Vec::new();
    channels.push("commands".to_owned());
    channels.push("default".to_owned());
    let announcement = Event::new(EventKind::CommandExecuted { payload: response.to_json() })
        .with_channels(channels);
    proof {
        assert(announcement@.channels =~= seq!["commands"@, "default"@]);
        assert(announces(announcement@, response));
    }
    let _ = broker.publish(announcement);
    let r = Ok(response);
    assert(processed(*old(runtime), *runtime, command@, witness) && answers(witness, r));
    proof {
        if unhooked(*old(runtime)) && spec_parse(command@) is Ok {
            assert(executed(*old(runtime), *runtime, spec_parse(command@)->Ok_0, witness)
                && answers(witness, r));
        }
    }
    r
}

} // verus!
