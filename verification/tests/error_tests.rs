use champ::error::ChampError;

#[test]
fn test_error_display() {
    let err = ChampError::ServiceNotFound("test-service".to_string());
    assert_eq!(err.to_string(), "Service not found: test-service");

    let err = ChampError::PortInUse(8080);
    assert!(err.to_string().contains("8080"));
    assert!(err.to_string().contains("already in use"));
}

#[test]
fn test_process_failed_with_log() {
    let err = ChampError::ProcessFailed {
        service: "MySQL".to_string(),
        reason: "Port conflict".to_string(),
        log_path: Some("/path/to/mysql.log".to_string()),
    };
    let msg = err.to_string();
    assert!(msg.contains("MySQL"));
    assert!(msg.contains("Port conflict"));
    assert!(msg.contains("/path/to/mysql.log"));
}

#[test]
fn test_invalid_state() {
    let err = ChampError::InvalidState {
        service: "Caddy".to_string(),
        current_state: "stopped".to_string(),
        expected_state: "running".to_string(),
    };
    let msg = err.to_string();
    assert!(msg.contains("Caddy"));
    assert!(msg.contains("stopped"));
    assert!(msg.contains("running"));
}

#[test]
fn test_io_error_conversion() {
    let io_err = std::io::Error::new(std::io::ErrorKind::NotFound, "file not found");
    let champ_err: ChampError = io_err.into();
    assert!(matches!(champ_err, ChampError::IoError(_)));
}

#[test]
fn test_string_conversion() {
    let err = ChampError::ConfigError("test error".to_string());
    let s: String = err.into();
    assert_eq!(s, "Configuration error: test error");
}

#[test]
fn every_message_has_its_exact_text() {
    assert_eq!(
        ChampError::PortInUse(3306).to_string(),
        "Port 3306 is already in use. Please stop the conflicting process or change the port in Settings."
    );
    assert_eq!(
        ChampError::InvalidPort(0).to_string(),
        "Invalid port number: 0. Port must be between 1 and 65535."
    );
    assert_eq!(ChampError::RuntimeError("x".to_string()).to_string(), "Runtime error: x");
    assert_eq!(ChampError::DatabaseError("x".to_string()).to_string(), "Database error: x");
    assert_eq!(ChampError::DownloadError("x".to_string()).to_string(), "Download error: x");
    let no_log = ChampError::ProcessFailed {
        service: "PHP".to_string(),
        reason: "crashed".to_string(),
        log_path: None,
    };
    assert_eq!(no_log.to_string(), "PHP process failed: crashed");
    let io = ChampError::IoError(std::io::Error::new(std::io::ErrorKind::Other, "disk full"));
    assert_eq!(io.to_string(), "IO error: disk full");
}

#[test]
fn json_errors_become_configuration_errors() {
    let e = serde_json::from_str::<u32>("not json").unwrap_err();
    let c: ChampError = e.into();
    match c {
        ChampError::ConfigError(m) => assert!(m.starts_with("JSON error: ")),
        _ => panic!("expected a configuration error"),
    }
}
