use logline::broker::{EventBroker, Polled, DEFAULT_QUEUE_CAPACITY, DEFAULT_RETENTION};
use logline::config::{init_metrics, load_config, ApiConfig, Environment};
use logline::events::EventKind;
use logline::gateway::{
    cors_policy, handle_db_health, handle_dsl, handle_health, handle_readiness, handle_rejection,
    setup_routes, ApiError, Method, ReadinessChecks, Rejection, Route,
};
use logline::runtime::Runtime;
use logline::stream::{
    handle_stream, heartbeat_frame, last_event_id, next_frame, sse_frame, stream_channels,
    stream_headers, StreamStep,
};

fn empty_environment() -> Environment {
    Environment {
        bind_address: None,
        api_prefix: None,
        cors_allowed_origin: None,
        enable_plugins: None,
        plugin_directory: None,
        plugin_refresh_interval: None,
        stream_buffer_size: None,
        enable_metrics: None,
        metrics_port: None,
    }
}

fn config() -> ApiConfig {
    load_config(&empty_environment()).unwrap()
}

fn server() -> (Runtime, EventBroker) {
    (Runtime::new("./plugins", 2), EventBroker::new(DEFAULT_RETENTION, DEFAULT_QUEUE_CAPACITY))
}

#[test]
fn test_config_defaults() {
    let config = config();
    assert_eq!(config.bind_address, "127.0.0.1:3000");
    assert_eq!(config.api_prefix, "api");
    assert_eq!(config.cors_allowed_origin, None);
    assert!(config.enable_plugins);
    assert_eq!(config.plugin_directory, "./plugins");
    assert_eq!(config.plugin_refresh_interval, 30);
    assert_eq!(config.stream_buffer_size, 1000);
    assert!(config.enable_metrics);
    assert_eq!(config.metrics_port, 9090);
    assert_eq!(init_metrics(&config), Some(9090));
}

#[test]
fn test_config_from_environment() {
    let mut environment = empty_environment();
    environment.bind_address = Some("0.0.0.0:8080".to_string());
    environment.api_prefix = Some("v1".to_string());
    environment.cors_allowed_origin = Some("https://example.org".to_string());
    environment.enable_plugins = Some("FALSE".to_string());
    environment.plugin_directory = Some("/opt/plugins".to_string());
    environment.plugin_refresh_interval = Some("5".to_string());
    environment.stream_buffer_size = Some("64".to_string());
    environment.enable_metrics = Some("True".to_string());
    environment.metrics_port = Some("65535".to_string());
    let config = load_config(&environment).unwrap();
    assert_eq!(config.bind_address, "0.0.0.0:8080");
    assert_eq!(config.api_prefix, "v1");
    assert_eq!(config.cors_allowed_origin, Some("https://example.org".to_string()));
    assert!(!config.enable_plugins);
    assert_eq!(config.plugin_directory, "/opt/plugins");
    assert_eq!(config.plugin_refresh_interval, 5);
    assert_eq!(config.stream_buffer_size, 64);
    assert!(config.enable_metrics);
    assert_eq!(config.metrics_port, 65535);
}

#[test]
fn test_config_falls_back_on_bad_values() {
    let mut environment = empty_environment();
    environment.enable_plugins = Some("yes".to_string());
    environment.enable_metrics = Some("".to_string());
    environment.plugin_refresh_interval = Some("soon".to_string());
    environment.stream_buffer_size = Some("-1".to_string());
    environment.metrics_port = Some("65536".to_string());
    let config = load_config(&environment).unwrap();
    assert!(!config.enable_plugins);
    assert!(!config.enable_metrics);
    assert_eq!(config.plugin_refresh_interval, 30);
    assert_eq!(config.stream_buffer_size, 1000);
    assert_eq!(config.metrics_port, 9090);
    assert_eq!(init_metrics(&config), None);
    environment.plugin_refresh_interval = Some("".to_string());
    environment.metrics_port = Some(" 80".to_string());
    let config = load_config(&environment).unwrap();
    assert_eq!(config.plugin_refresh_interval, 30);
    assert_eq!(config.metrics_port, 9090);
}

#[test]
fn test_config_numbers_may_carry_a_plus_sign() {
    let mut environment = empty_environment();
    environment.metrics_port = Some("+9100".to_string());
    environment.plugin_refresh_interval = Some("+0".to_string());
    environment.stream_buffer_size = Some("+007".to_string());
    let config = load_config(&environment).unwrap();
    assert_eq!(config.metrics_port, 9100);
    assert_eq!(config.plugin_refresh_interval, 0);
    assert_eq!(config.stream_buffer_size, 7);
    environment.metrics_port = Some("+".to_string());
    environment.plugin_refresh_interval = Some("++5".to_string());
    environment.stream_buffer_size = Some("+-5".to_string());
    let config = load_config(&environment).unwrap();
    assert_eq!(config.metrics_port, 9090);
    assert_eq!(config.plugin_refresh_interval, 30);
    assert_eq!(config.stream_buffer_size, 1000);
    environment.metrics_port = Some("+65536".to_string());
    environment.plugin_refresh_interval = Some("5+".to_string());
    let config = load_config(&environment).unwrap();
    assert_eq!(config.metrics_port, 9090);
    assert_eq!(config.plugin_refresh_interval, 30);
}

#[test]
fn test_routes() {
    let config = config();
    assert_eq!(setup_routes(&config, Method::Post, "/api/dsl"), Route::Dsl);
    assert_eq!(setup_routes(&config, Method::Get, "/api/dsl"), Route::NotFound);
    assert_eq!(setup_routes(&config, Method::Get, "/api/stream"), Route::Stream);
    assert_eq!(setup_routes(&config, Method::Post, "/api/stream"), Route::NotFound);
    assert_eq!(setup_routes(&config, Method::Get, "/api/health"), Route::Health);
    assert_eq!(setup_routes(&config, Method::Get, "/api/ready"), Route::Ready);
    assert_eq!(setup_routes(&config, Method::Get, "/api/healthz/db"), Route::DbHealth);
    assert_eq!(setup_routes(&config, Method::Get, "/api/healthz"), Route::NotFound);
    assert_eq!(setup_routes(&config, Method::Get, "/health"), Route::NotFound);
    assert_eq!(setup_routes(&config, Method::Get, "/other/health"), Route::NotFound);
    assert_eq!(setup_routes(&config, Method::Options, "/api/dsl"), Route::NotFound);
    assert_eq!(setup_routes(&config, Method::Other, "/api/health"), Route::NotFound);
    let mut environment = empty_environment();
    environment.api_prefix = Some("v2".to_string());
    let other = load_config(&environment).unwrap();
    assert_eq!(setup_routes(&other, Method::Post, "/v2/dsl"), Route::Dsl);
    assert_eq!(setup_routes(&other, Method::Post, "/api/dsl"), Route::NotFound);
}

#[test]
fn test_rejections() {
    let cases = vec![
        (Rejection::NotFound, 404, "Recurso não encontrado".to_string()),
        (
            Rejection::Api(ApiError::CommandProcessingError("x".to_string())),
            400,
            "Erro ao processar comando: x".to_string(),
        ),
        (
            Rejection::Api(ApiError::InvalidCommandFormat("x".to_string())),
            400,
            "Formato de comando inválido: x".to_string(),
        ),
        (
            Rejection::Api(ApiError::InternalError("x".to_string())),
            500,
            "Erro interno do servidor: x".to_string(),
        ),
        (Rejection::InvalidBody("x".to_string()), 400, "Corpo da requisição inválido: x".to_string()),
        (Rejection::Other, 500, "Erro interno não especificado".to_string()),
    ];
    for (rejection, status, message) in cases {
        let response = handle_rejection(&rejection);
        assert_eq!(response.status, status);
        assert_eq!(response.message, message);
        assert!(chrono::DateTime::parse_from_rfc3339(&response.timestamp).is_ok());
        let value: serde_json::Value = serde_json::from_str(&response.to_json()).unwrap();
        assert_eq!(value.get("status").unwrap().as_u64().unwrap(), status as u64);
        assert_eq!(value.get("message").unwrap().as_str().unwrap(), message);
        assert_eq!(value.get("timestamp").unwrap().as_str().unwrap(), response.timestamp);
    }
    assert_eq!(ApiError::InternalError("x".to_string()).message(), "Erro interno: x");
}

#[test]
fn test_cors_policy() {
    assert!(cors_policy(&config()).is_none());
    let mut environment = empty_environment();
    environment.cors_allowed_origin = Some("https://example.org".to_string());
    let policy = cors_policy(&load_config(&environment).unwrap()).unwrap();
    assert_eq!(policy.allowed_origin, "https://example.org");
    assert_eq!(policy.allowed_methods, vec!["GET", "POST", "OPTIONS"]);
    assert_eq!(policy.allowed_headers, vec!["Content-Type", "Last-Event-ID"]);
}

#[test]
fn test_health_endpoints() {
    let health = handle_health();
    assert_eq!(health.status, "UP");
    assert_eq!(health.version, "1.0.0");
    assert_eq!(health.product, "LogLine Motor");
    let all = ReadinessChecks { parser: true, runtime: true, database: true, streaming: true };
    let ready = handle_readiness(all);
    assert_eq!(ready.code, 200);
    assert_eq!(ready.status, "READY");
    for failing in 0..4 {
        let mut checks = all;
        match failing {
            0 => checks.parser = false,
            1 => checks.runtime = false,
            2 => checks.database = false,
            _ => checks.streaming = false,
        }
        let response = handle_readiness(checks);
        assert_eq!(response.code, 503);
        assert_eq!(response.status, "NOT_READY");
    }
    let up = handle_db_health(true, 15);
    assert_eq!((up.code, up.database.as_str(), up.latency_ms), (200, "UP", 15));
    let down = handle_db_health(false, 500);
    assert_eq!((down.code, down.database.as_str(), down.latency_ms), (503, "DOWN", 500));
}

#[test]
fn test_dsl_define_idea() {
    let (mut runtime, mut broker) = server();
    let commands = broker.subscribe(vec!["commands".to_string()], None).unwrap();
    let default = broker.subscribe(vec!["default".to_string()], None).unwrap();
    let response = handle_dsl(&mut runtime, &mut broker, "DEFINE IDEA id001 \"Minha ideia de teste\"").unwrap();
    assert_eq!(response.result, "Ideia registrada: id001");
    assert_eq!(
        response.events,
        vec![
            "{\"kind\":\"IdeaRegistered\",\"id\":\"id001\"}".to_string(),
            "{\"kind\":\"ImperativeExecuted\",\"imperative\":\"DefineIdea\"}".to_string(),
        ]
    );
    assert!(chrono::DateTime::parse_from_rfc3339(&response.timestamp).is_ok());
    let found = runtime.timeline.find_events_by_kind("IdeaRegistered");
    assert_eq!(found.len(), 1);
    assert!(matches!(&found[0].kind, EventKind::IdeaRegistered { id } if id == "id001"));
    let body: serde_json::Value = serde_json::from_str(&response.to_json()).unwrap();
    assert_eq!(body.get("result").unwrap().as_str().unwrap(), "Ideia registrada: id001");
    assert_eq!(body.get("events").unwrap().as_array().unwrap().len(), 2);
    assert_eq!(
        body.get("events").unwrap().as_array().unwrap()[0].get("id").unwrap().as_str().unwrap(),
        "id001"
    );
    match broker.poll(commands) {
        Polled::Event(event) => {
            assert_eq!(event.id, 3);
            assert_eq!(event.kind.name(), "command_executed");
            match event.kind {
                EventKind::CommandExecuted { payload } => assert_eq!(payload, response.to_json()),
                _ => panic!("wrong kind"),
            }
        }
        other => panic!("{:?}", other),
    }
    assert!(matches!(broker.poll(commands), Polled::Idle));
    let mut names = Vec::new();
    while let Polled::Event(event) = broker.poll(default) {
        names.push((event.id, event.kind.name()));
    }
    assert_eq!(
        names,
        vec![
            (1, "IdeaRegistered".to_string()),
            (2, "ImperativeExecuted".to_string()),
            (3, "command_executed".to_string()),
        ]
    );
}

#[test]
fn test_dsl_invalid_command() {
    let (mut runtime, mut broker) = server();
    let default = broker.subscribe(vec!["default".to_string()], None).unwrap();
    let error = handle_dsl(&mut runtime, &mut broker, "INVALID COMMAND").unwrap_err();
    let response = handle_rejection(&Rejection::Api(error));
    assert_eq!(response.status, 400);
    assert!(
        response.message.starts_with("Erro ao processar comando")
            || response.message.starts_with("Formato de comando inválido")
    );
    let errors = runtime.timeline.find_events_by_kind("ErrorOccurred");
    assert_eq!(errors.len(), 1);
    assert!(matches!(&errors[0].kind, EventKind::ErrorOccurred { context, .. } if context == "parsing"));
    match broker.poll(default) {
        Polled::Event(event) => assert_eq!(event.kind.name(), "ErrorOccurred"),
        other => panic!("{:?}", other),
    }
    assert!(matches!(broker.poll(default), Polled::Idle));
}

#[test]
fn test_dsl_duplicate_contract() {
    let (mut runtime, mut broker) = server();
    assert!(handle_dsl(&mut runtime, &mut broker, "DEFINE CONTRACT c1 clause1, clause2").is_ok());
    let error = handle_dsl(&mut runtime, &mut broker, "DEFINE CONTRACT c1 clause1, clause2").unwrap_err();
    let response = handle_rejection(&Rejection::Api(error));
    assert_eq!(response.status, 400);
    assert!(response.message.contains("já existe"));
    let registered = runtime.timeline.find_events_by_kind("ContractRegistered");
    assert_eq!(registered.len(), 1);
    assert!(matches!(&registered[0].kind, EventKind::ContractRegistered { id } if id == "c1"));
}

#[test]
fn test_two_streams_get_both_commands_in_order() {
    let (mut runtime, mut broker) = server();
    let first = handle_stream(&mut broker, "channel=commands", None).unwrap();
    let second = handle_stream(&mut broker, "channel=commands", None).unwrap();
    handle_dsl(&mut runtime, &mut broker, "DEFINE IDEA a \"x\"").unwrap();
    handle_dsl(&mut runtime, &mut broker, "DEFINE IDEA b \"y\"").unwrap();
    for subscriber in [first, second] {
        let mut ids = Vec::new();
        for expected in ["Ideia registrada: a", "Ideia registrada: b"] {
            match next_frame(&mut broker, subscriber, 0, 30000) {
                StreamStep::Frame(frame) => {
                    let mut lines = frame.lines();
                    let id: u128 = lines.next().unwrap().strip_prefix("id: ").unwrap().parse().unwrap();
                    assert_eq!(lines.next().unwrap(), "event: command_executed");
                    let data = lines.next().unwrap().strip_prefix("data: ").unwrap();
                    let value: serde_json::Value = serde_json::from_str(data).unwrap();
                    assert_eq!(
                        value.get("payload").unwrap().get("result").unwrap().as_str().unwrap(),
                        expected
                    );
                    assert!(frame.ends_with("\n\n"));
                    ids.push(id);
                }
                other => panic!("{:?}", other),
            }
        }
        assert!(ids[0] < ids[1]);
        assert!(matches!(next_frame(&mut broker, subscriber, 0, 30000), StreamStep::Wait));
    }
}

#[test]
fn test_stream_resumes_after_last_event_id() {
    let (mut runtime, mut broker) = server();
    handle_dsl(&mut runtime, &mut broker, "DEFINE IDEA a \"x\"").unwrap();
    handle_dsl(&mut runtime, &mut broker, "DEFINE IDEA b \"y\"").unwrap();
    let resumed = handle_stream(&mut broker, "", Some("3")).unwrap();
    let mut ids = Vec::new();
    loop {
        match next_frame(&mut broker, resumed, 0, 30000) {
            StreamStep::Frame(frame) => {
                let id: u128 = frame.lines().next().unwrap().strip_prefix("id: ").unwrap().parse().unwrap();
                ids.push(id);
            }
            StreamStep::Wait => break,
            other => panic!("{:?}", other),
        }
    }
    assert_eq!(ids, vec![4, 5, 6]);
}

#[test]
fn test_stream_channels_from_query() {
    let list = |q: &str| stream_channels(q);
    assert_eq!(list(""), vec!["default"]);
    assert_eq!(list("channel=A&channel=B"), vec!["A", "B"]);
    assert_eq!(list("x=1&channel=commands&y=2"), vec!["commands"]);
    assert_eq!(list("channel"), vec!["default"]);
    assert_eq!(list("channel="), vec![""]);
    assert_eq!(list("channel=a=b"), vec!["a"]);
    assert_eq!(list("Channel=a"), vec!["default"]);
    assert_eq!(list("channels=a"), vec!["default"]);
    assert_eq!(list("&&channel=a&"), vec!["a"]);
    assert_eq!(list("channel=a%20b"), vec!["a%20b"]);
}

#[test]
fn test_last_event_id_header() {
    assert_eq!(last_event_id(None), None);
    assert_eq!(last_event_id(Some("42")), Some(42));
    assert_eq!(last_event_id(Some("0")), Some(0));
    assert_eq!(last_event_id(Some("")), None);
    assert_eq!(last_event_id(Some("abc")), None);
    assert_eq!(last_event_id(Some("-1")), None);
    assert_eq!(last_event_id(Some("4 ")), None);
    assert_eq!(
        last_event_id(Some("21267647932558653966460912964485513215")),
        Some(0x0fff_ffff_ffff_ffff_ffff_ffff_ffff_ffff)
    );
    assert_eq!(last_event_id(Some("21267647932558653966460912964485513216")), None);
    assert_eq!(last_event_id(Some("340282366920938463463374607431768211455")), None);
}

#[test]
fn test_frames() {
    let event = logline::events::Event {
        id: 17,
        timestamp: 0,
        kind: EventKind::IdeaRegistered { id: "a".to_string() },
        channels: vec!["default".to_string()],
    };
    assert_eq!(
        sse_frame(&event),
        "id: 17\nevent: IdeaRegistered\ndata: {\"kind\":\"IdeaRegistered\",\"id\":\"a\"}\n\n"
    );
    assert_eq!(heartbeat_frame(), "event: heartbeat\ndata: {}\n\n");
    let headers: Vec<(String, String)> = stream_headers().into_iter().map(|h| (h.name, h.value)).collect();
    assert_eq!(
        headers,
        vec![
            ("Content-Type".to_string(), "text/event-stream".to_string()),
            ("Cache-Control".to_string(), "no-cache".to_string()),
            ("Connection".to_string(), "keep-alive".to_string()),
        ]
    );
}

#[test]
fn test_stream_steps() {
    let mut broker = EventBroker::new(10, 1);
    let subscriber = handle_stream(&mut broker, "channel=a", None).unwrap();
    assert!(matches!(next_frame(&mut broker, subscriber, 29999, 30000), StreamStep::Wait));
    match next_frame(&mut broker, subscriber, 30000, 30000) {
        StreamStep::Heartbeat(frame) => assert_eq!(frame, "event: heartbeat\ndata: {}\n\n"),
        other => panic!("{:?}", other),
    }
    let event = |id: &str| {
        logline::events::Event::new(EventKind::IdeaRegistered { id: id.to_string() })
            .with_channels(vec!["a".to_string()])
    };
    broker.publish(event("one")).unwrap();
    broker.publish(event("two")).unwrap();
    match next_frame(&mut broker, subscriber, 0, 30000) {
        StreamStep::End(frame) => assert_eq!(frame, "event: heartbeat\ndata: {}\n\n"),
        other => panic!("{:?}", other),
    }
    assert!(matches!(next_frame(&mut broker, subscriber, 0, 30000), StreamStep::Gone));
    broker.next_subscriber = u64::MAX;
    match handle_stream(&mut broker, "", None) {
        Err(ApiError::InternalError(_)) => {}
        other => panic!("{:?}", other),
    }
}
