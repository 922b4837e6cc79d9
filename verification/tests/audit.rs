use smartcard_core::audit::AuditEventType;
use smartcard_core::audit::AuditLogEntry;
use smartcard_core::audit::AuditLogger;
use smartcard_core::audit::AuditSeverity;

const IP: u128 = 0x7F000001;

#[test]
fn test_severity_ordering() {
    assert!(AuditSeverity::Info < AuditSeverity::Warning);
    assert!(AuditSeverity::Warning < AuditSeverity::Error);
    assert!(AuditSeverity::Error < AuditSeverity::Critical);
}

#[test]
fn test_severity_ranks() {
    assert_eq!(AuditSeverity::Info.rank(), 0);
    assert_eq!(AuditSeverity::Warning.rank(), 1);
    assert_eq!(AuditSeverity::Error.rank(), 2);
    assert_eq!(AuditSeverity::Critical.rank(), 3);
}

#[test]
fn test_audit_log_entry_creation() {
    let entry = AuditLogEntry::new(
        AuditEventType::Authentication,
        AuditSeverity::Info,
        IP,
        "test_action",
        "test message".to_string(),
        42,
    );

    assert_eq!(entry.event_type, AuditEventType::Authentication);
    assert_eq!(entry.severity, AuditSeverity::Info);
    assert_eq!(entry.client_ip, IP);
    assert_eq!(entry.action, "test_action");
    assert_eq!(entry.message, "test message");
    assert_eq!(entry.timestamp_ms, 42);
}

#[test]
fn test_audit_logger_disabled() {
    let logger = AuditLogger::new(false);
    let ip: u128 = 0x0A000001;

    // A disabled logger builds nothing.
    assert!(logger.log_auth_success(ip, Some("test"), 1000).is_none());
    assert!(logger.log_auth_failure(ip, "test", 1000).is_none());
    assert!(logger.log_rate_limit(ip, "request", 1000).is_none());
    assert!(logger.log_connection_open(ip, 1000).is_none());
    assert!(logger.log_connection_close(ip, Some(1000), 1000).is_none());
    assert!(logger
        .log_validation_failure(None, "f", "Format", "d", false, 1000)
        .is_none());
}

#[test]
fn test_auth_events() {
    let logger = AuditLogger::new(true);
    let ok = logger.log_auth_success(IP, Some("abcd"), 7).unwrap();
    assert_eq!(ok.event_type, AuditEventType::Authentication);
    assert_eq!(ok.severity, AuditSeverity::Info);
    assert_eq!(ok.action, "auth_success");
    assert_eq!(ok.message, "Authentication successful (key: abcd...)");
    assert_eq!(ok.timestamp_ms, 7);

    let plain = logger.log_auth_success(IP, None, 7).unwrap();
    assert_eq!(plain.message, "Authentication successful");

    let bad = logger.log_auth_failure(IP, "Invalid API key", 8).unwrap();
    assert_eq!(bad.severity, AuditSeverity::Warning);
    assert_eq!(bad.action, "auth_failure");
    assert_eq!(bad.message, "Authentication failed: Invalid API key");
}

#[test]
fn test_rate_limit_event() {
    let logger = AuditLogger::new(true);
    let e = logger.log_rate_limit(IP, "connection", 9).unwrap();
    assert_eq!(e.event_type, AuditEventType::RateLimit);
    assert_eq!(e.severity, AuditSeverity::Warning);
    assert_eq!(e.action, "rate_limit_exceeded");
    assert_eq!(e.message, "connection rate limit exceeded");
}

#[test]
fn test_connection_events() {
    let logger = AuditLogger::new(true);
    let open = logger.log_connection_open(IP, 10).unwrap();
    assert_eq!(open.event_type, AuditEventType::Connection);
    assert_eq!(open.message, "WebSocket connection established");

    let close = logger.log_connection_close(IP, Some(15230), 11).unwrap();
    assert_eq!(close.action, "connection_close");
    assert_eq!(close.message, "WebSocket connection closed (duration: 15230ms)");

    let close_unknown = logger.log_connection_close(IP, None, 11).unwrap();
    assert_eq!(close_unknown.message, "WebSocket connection closed");
}

#[test]
fn test_validation_events() {
    let logger = AuditLogger::new(true);
    let sec = logger
        .log_validation_failure(None, "Thai name", "Security", "contains suspicious characters", true, 12)
        .unwrap();
    assert_eq!(sec.event_type, AuditEventType::SecurityError);
    assert_eq!(sec.severity, AuditSeverity::Error);
    assert_eq!(sec.client_ip, IP); // the loopback default
    assert_eq!(
        sec.message,
        "Security threat detected in field 'Thai name': contains suspicious characters"
    );

    let fmt = logger
        .log_validation_failure(Some(5), "Gender", "Format", "invalid gender code", false, 13)
        .unwrap();
    assert_eq!(fmt.event_type, AuditEventType::Validation);
    assert_eq!(fmt.severity, AuditSeverity::Warning);
    assert_eq!(fmt.client_ip, 5);
    assert_eq!(
        fmt.message,
        "Validation failed for field 'Gender': Format - invalid gender code"
    );
}
