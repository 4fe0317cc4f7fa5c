use memory_mcp_rs::logging::{init_logging, LogSinks, TransportMode};

#[test]
fn stdio_without_a_file_logs_nothing() {
    assert!(matches!(init_logging(TransportMode::Stdio, None), LogSinks::Silent));
}

#[test]
fn stdio_with_a_file_logs_to_the_file_only() {
    match init_logging(TransportMode::Stdio, Some("server.log".to_string())) {
        LogSinks::File(name) => assert_eq!(name, "server.log"),
        other => panic!("{:?}", other),
    }
}

#[test]
fn stream_without_a_file_logs_to_the_console() {
    assert!(matches!(init_logging(TransportMode::Stream, None), LogSinks::Console));
}

#[test]
fn stream_with_a_file_logs_to_both() {
    match init_logging(TransportMode::Stream, Some("server.log".to_string())) {
        LogSinks::ConsoleAndFile(name) => assert_eq!(name, "server.log"),
        other => panic!("{:?}", other),
    }
}
