use logpipe::config::{HandlerConfig, HandlerParams, LogConfig};
use logpipe::level::LogLevel;
use logpipe::logger::{Logger, LoggerError, Metadata, SinkTask};
use logpipe::metrics::MetricsManager;

fn params_none() -> Option<HandlerParams> {
    None
}

fn memory_config(capacity: u64) -> HandlerConfig {
    HandlerConfig {
        type_: "memory".to_string(),
        level: None,
        config: Some(HandlerParams {
            file_path: None,
            max_size: None,
            address: None,
            port: None,
            retries: None,
            capacity: Some(capacity),
        }),
    }
}

fn remote_config() -> HandlerConfig {
    HandlerConfig {
        type_: "remote".to_string(),
        level: None,
        config: params_none(),
    }
}

fn file_config(max_size: u64) -> HandlerConfig {
    HandlerConfig {
        type_: "file".to_string(),
        level: None,
        config: Some(HandlerParams {
            file_path: Some("test.log".to_string()),
            max_size: Some(max_size),
            address: None,
            port: None,
            retries: None,
            capacity: None,
        }),
    }
}

fn config_with(handlers: Vec<HandlerConfig>) -> LogConfig {
    LogConfig {
        level: "DEBUG".to_string(),
        filters: None,
        handlers,
        formatter: Some("text".to_string()),
        plugins: None,
    }
}

#[test]
fn engine_rejects_short_key() {
    let config = config_with(vec![memory_config(4)]);
    let r = Logger::new(&config, b"too short");
    assert!(matches!(r, Err(LoggerError::SecurityError(_))));
}

#[test]
fn engine_accepts_full_key() {
    let config = config_with(vec![memory_config(4)]);
    let r = Logger::new(&config, b"anexampleverysecurekey123456789012");
    assert!(r.is_ok());
}

#[test]
fn unknown_handler_kinds_are_skipped() {
    let config = config_with(vec![
        memory_config(4),
        HandlerConfig {
            type_: "carrier-pigeon".to_string(),
            level: None,
            config: params_none(),
        },
    ]);
    let logger = Logger::new(&config, b"anexampleverysecurekey123456789012").unwrap();
    assert_eq!(logger.handler_count(), 1);
}

#[test]
fn batch_processing_counts_events_and_resets_gauge() {
    let config = config_with(vec![memory_config(16)]);
    let mut logger = Logger::new(&config, b"anexampleverysecurekey123456789012").unwrap();
    let mut md = Metadata::new();
    md.add("user".to_string(), "test_user".to_string());
    logger.info("Application started", Some(md));
    logger.debug("Debugging mode enabled", None);
    logger.warn("Low disk space", None);
    let batch = logger.drain_batch();
    assert_eq!(batch.len(), 3);
    assert_eq!(batch[0].level, LogLevel::INFO);
    assert_eq!(batch[0].message, "Application started");
    for msg in &batch {
        let line = logger.render_event(msg).unwrap();
        let n = logger.handler_count();
        for i in 0..n {
            match logger.sink_begin(i, &line) {
                SinkTask::Done { ok } => assert!(ok),
                _ => panic!("a memory sink needs no outside work"),
            }
        }
        logger.event_done();
    }
    logger.batch_done();
    assert_eq!(logger.metrics.logs_processed, 3);
    assert_eq!(logger.metrics.errors, 0);
    assert_eq!(logger.metrics.queue_size, 0);
    assert_eq!(logger.memory_logs(0).len(), 3);
}

#[test]
fn failing_sink_is_isolated_and_counted_once() {
    let config = config_with(vec![remote_config(), memory_config(8)]);
    let mut logger = Logger::new(&config, b"anexampleverysecurekey123456789012").unwrap();
    logger.error("Failed to connect to database", None);
    let batch = logger.drain_batch();
    assert_eq!(batch.len(), 1);
    let line = logger.render_event(&batch[0]).unwrap();
    match logger.sink_begin(0, &line) {
        SinkTask::RemoteIo {
            address,
            port,
            retries,
            line: payload,
        } => {
            assert_eq!(address, "127.0.0.1");
            assert_eq!(port, 9000);
            assert_eq!(retries, 3);
            assert_eq!(payload, line);
        }
        _ => panic!("a remote sink hands its send to the runner"),
    }
    // The endpoint is unreachable: the runner reports the failure.
    logger.sink_finish(0, false, false, 0);
    match logger.sink_begin(1, &line) {
        SinkTask::Done { ok } => assert!(ok),
        _ => panic!("a memory sink needs no outside work"),
    }
    logger.event_done();
    logger.batch_done();
    // The failure incremented the error counter exactly once, and the event
    // still reached the memory sink.
    assert_eq!(logger.metrics.errors, 1);
    assert_eq!(logger.metrics.logs_processed, 1);
    let kept = logger.memory_logs(1);
    assert_eq!(kept, vec![line]);
}

#[test]
fn file_sink_requests_rotation_after_threshold() {
    let config = config_with(vec![file_config(10)]);
    let mut logger = Logger::new(&config, b"anexampleverysecurekey123456789012").unwrap();
    logger.info("first", None);
    let batch = logger.drain_batch();
    let line = logger.render_event(&batch[0]).unwrap();
    match logger.sink_begin(0, &line) {
        SinkTask::FileIo { path, rotate, .. } => {
            assert_eq!(path, "test.log");
            assert!(rotate.is_none());
        }
        _ => panic!("a file sink hands its write to the runner"),
    }
    logger.sink_finish(0, true, false, 20);
    // 21 bytes landed since the last rotation: the next write must rotate.
    match logger.sink_begin(0, &line) {
        SinkTask::FileIo { rotate, .. } => {
            let plan = rotate.expect("the threshold was crossed");
            assert!(plan.rotated_name.starts_with("test.log."));
            assert!(plan.compressed_name.ends_with(".gz"));
        }
        _ => panic!("a file sink hands its write to the runner"),
    }
    logger.sink_finish(0, true, true, 4);
    // The counter reflects only the post-rotation write: 4+1 < 10.
    match logger.sink_begin(0, &line) {
        SinkTask::FileIo { rotate, .. } => assert!(rotate.is_none()),
        _ => panic!("a file sink hands its write to the runner"),
    }
}

#[test]
fn metadata_renders_as_json_object() {
    let mut md = Metadata::new();
    assert_eq!(md.render(), "{}");
    md.add("disk".to_string(), "C:".to_string());
    md.add("free_space".to_string(), "500MB".to_string());
    assert_eq!(md.render(), "{\"disk\":\"C:\",\"free_space\":\"500MB\"}");
}

#[test]
fn metadata_escapes_control_characters_in_values() {
    let mut md = Metadata::new();
    md.add("note".to_string(), "a\nb".to_string());
    assert_eq!(md.render(), "{\"note\":\"a\\u000ab\"}");
}

#[test]
fn test_metrics_initialization() {
    let mut metrics = MetricsManager::new();
    metrics.increment_log_count();
    metrics.increment_error();
    metrics.set_queue_size(5);
    assert_eq!(metrics.logs_processed, 1);
    assert_eq!(metrics.errors, 1);
    assert_eq!(metrics.queue_size, 5);
}

#[test]
fn metrics_render_exact_body_and_answer_requests() {
    let mut metrics = MetricsManager::new();
    metrics.increment_log_count();
    metrics.increment_log_count();
    metrics.set_queue_size(7);
    assert_eq!(
        metrics.render_metrics(),
        "logs_processed 2\nerrors 0\nqueue_size 7\n"
    );
    let reply = metrics.handle_request("GET /metrics HTTP/1.1").unwrap();
    assert_eq!(
        reply,
        "HTTP/1.1 200 OK\r\nContent-Type: text/plain\r\n\r\nlogs_processed 2\nerrors 0\nqueue_size 7\n"
    );
    assert!(metrics.handle_request("POST /metrics HTTP/1.1").is_none());
    assert!(metrics.handle_request("GET /health HTTP/1.1").is_none());
}

#[test]
fn levels_parse_ignoring_case_and_print_canonically() {
    assert_eq!(LogLevel::from_str("DEBUG"), Some(LogLevel::DEBUG));
    assert_eq!(LogLevel::from_str("debug"), Some(LogLevel::DEBUG));
    assert_eq!(LogLevel::from_str("Fatal"), Some(LogLevel::FATAL));
    assert_eq!(LogLevel::from_str("nonsense"), None);
    assert_eq!(LogLevel::INFO.as_str(), "INFO");
    assert_eq!(LogLevel::TRACE.as_str(), "TRACE");
}
