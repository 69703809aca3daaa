use logpipe::handlers::console_handler::ConsoleHandler;
use logpipe::handlers::file_handler::FileHandler;
use logpipe::handlers::memory_handler::MemoryHandler;
use logpipe::handlers::remote_handler::{RemoteHandler, RemoteHandlerError};

#[test]
fn test_console_handler() {
    let handler = ConsoleHandler::new();
    let result = handler.emit("TEST [INFO] - Test message - {}");
    assert!(result.is_ok());
}

#[test]
fn colorize_wraps_known_levels() {
    assert_eq!(
        ConsoleHandler::colorize("x [INFO] y"),
        "\x1b[34mx [INFO] y\x1b[0m"
    );
    assert_eq!(
        ConsoleHandler::colorize("x [ERROR] y"),
        "\x1b[31mx [ERROR] y\x1b[0m"
    );
    assert_eq!(ConsoleHandler::colorize("no brackets"), "no brackets");
    assert_eq!(ConsoleHandler::colorize("a [WHAT] b"), "a [WHAT] b");
}

#[test]
fn memory_ring_evicts_oldest_first() {
    let mut handler = MemoryHandler::new(2);
    handler.emit("a").unwrap();
    handler.emit("b").unwrap();
    handler.emit("c").unwrap();
    assert_eq!(handler.get_logs(), vec!["b".to_string(), "c".to_string()]);
}

#[test]
fn memory_ring_keeps_everything_under_capacity() {
    let mut handler = MemoryHandler::new(3);
    handler.emit("a").unwrap();
    assert_eq!(handler.get_logs(), vec!["a".to_string()]);
}

#[test]
fn file_sink_rotates_at_threshold_and_resets() {
    let mut handler = FileHandler::new("app.log".to_string(), 10);
    assert!(!handler.needs_rotation());
    handler.note_appended(5);
    assert!(!handler.needs_rotation());
    handler.note_appended(5);
    // 5+1 + 5+1 = 12 bytes since the last rotation: the threshold is crossed.
    assert!(handler.needs_rotation());
    handler.note_rotated();
    assert!(!handler.needs_rotation());
    handler.note_appended(3);
    assert!(!handler.needs_rotation());
}

#[test]
fn rotation_plan_names_are_timestamp_suffixed() {
    let handler = FileHandler::new("logs/app.log".to_string(), 10);
    let plan = handler.rotation_plan("20240101120000");
    assert_eq!(plan.rotated_name, "logs/app.log.20240101120000");
    assert_eq!(plan.compressed_name, "logs/app.log.20240101120000.gz");
}

#[test]
fn compress_yields_gzip_stream() {
    let handler = FileHandler::new("app.log".to_string(), 10);
    let data = b"hello hello hello hello";
    let compressed = handler.compress(data).unwrap();
    assert_eq!(&compressed[0..2], &[0x1f, 0x8b]);
    assert_ne!(compressed, data.to_vec());
}

#[test]
fn remote_defaults_to_three_retries() {
    let handler = RemoteHandler::new("127.0.0.1".to_string(), 9000, None);
    assert_eq!(handler.retries(), 3);
    let handler2 = RemoteHandler::new("127.0.0.1".to_string(), 9000, Some(5));
    assert_eq!(handler2.retries(), 5);
}

#[test]
fn remote_backoff_is_linear_and_budget_bounded() {
    let handler = RemoteHandler::new("10.255.255.1".to_string(), 9, None);
    assert_eq!(handler.backoff_after(1), 100);
    assert_eq!(handler.backoff_after(2), 200);
    assert_eq!(handler.backoff_after(3), 300);
    assert!(!handler.give_up_after(1));
    assert!(!handler.give_up_after(2));
    assert!(handler.give_up_after(3));
    assert!(matches!(
        handler.exhausted_error(),
        RemoteHandlerError::SendError(_)
    ));
}
