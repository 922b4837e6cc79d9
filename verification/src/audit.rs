//! Structured audit events for authentication attempts, rate-limit
//! rejections, connection open/close and validation findings.
//!
//! The logger builds the entry to emit, or nothing when audit logging is
//! disabled; handing the entry to a log sink is an I/O concern outside
//! the library. Timestamps enter as explicit millisecond clock values,
//! and source addresses as integers.

use vstd::prelude::*;
use crate::text::dec_str;
use crate::text::u64_to_string;

verus! {

/// Audit event classification.
#[derive(Debug, Clone, Copy, PartialEq, Eq, Structural)]
pub enum AuditEventType {
    /// Authentication attempt.
    Authentication,
    /// Rate limit violation.
    RateLimit,
    /// Subscriber connection event.
    Connection,
    /// Card read operation.
    CardRead,
    /// Configuration change.
    Configuration,
    /// Security-related error.
    SecurityError,
    /// Data validation error.
    Validation,
}

/// Audit event severity, ordered Info < Warning < Error < Critical.
#[derive(Debug, Clone, Copy, PartialEq, Eq, PartialOrd, Ord, Structural)]
pub enum AuditSeverity {
    /// Informational event.
    Info,
    /// Warning event.
    Warning,
    /// Error event.
    Error,
    /// Critical event requiring immediate attention.
    Critical,
}

/// The rank of a severity in the linear order.
pub open spec fn severity_rank(s: AuditSeverity) -> int {
    match s {
        AuditSeverity::Info => 0,
        AuditSeverity::Warning => 1,
        AuditSeverity::Error => 2,
        AuditSeverity::Critical => 3,
    }
}

impl AuditSeverity {
    /// The severity's position in the linear order
    /// Info < Warning < Error < Critical.
    pub fn rank(&self) -> (r: u8)
        ensures
            r == severity_rank(*self),
    {
        match self {
            AuditSeverity::Info => 0,
            AuditSeverity::Warning => 1,
            AuditSeverity::Error => 2,
            AuditSeverity::Critical => 3,
        }
    }
}

/// The loopback source used when a validation finding has no client.
pub open spec fn local_source() -> u128 {
    0x7F000001
}

/// One write-once audit record. An entry carries no free-form metadata
/// slot: everything it states is in the fields below.
#[derive(Debug, Clone)]
pub struct AuditLogEntry {
    /// Milliseconds since the epoch.
    pub timestamp_ms: u64,
    /// Event classification.
    pub event_type: AuditEventType,
    /// Severity level.
    pub severity: AuditSeverity,
    /// Client source address.
    pub client_ip: u128,
    /// Event action code, such as `auth_success`.
    pub action: String,
    /// Detailed event message.
    pub message: String,
}

impl AuditLogEntry {
    /// A new audit record with the given fields.
    pub fn new(
        event_type: AuditEventType,
        severity: AuditSeverity,
        client_ip: u128,
        action: &str,
        message: String,
        timestamp_ms: u64,
    ) -> (r: Self)
        ensures
            r.event_type == event_type,
            r.severity == severity,
            r.client_ip == client_ip,
            r.action@ == action@,
            r.message == message,
            r.timestamp_ms == timestamp_ms,
    {
        AuditLogEntry {
            timestamp_ms,
            event_type,
            severity,
            client_ip,
            action: action.to_owned(),
            message,
        }
    }
}

/// Audit logger: builds security events, or nothing when disabled.
pub struct AuditLogger {
    enabled: bool,
}

/// The message of an authentication-success event: the key hint, when
/// one is given, is quoted in the message.
pub open spec fn auth_success_message(hint: Option<Seq<char>>) -> Seq<char> {
    match hint {
        Option::Some(h) => "Authentication successful (key: "@ + h + "...)"@,
        Option::None => "Authentication successful"@,
    }
}

/// The message of a connection-close event, with the duration when known.
pub open spec fn connection_close_message(duration_ms: Option<u64>) -> Seq<char> {
    match duration_ms {
        Option::Some(ms) => "WebSocket connection closed (duration: "@ + dec_str(ms as int)
            + "ms)"@,
        Option::None => "WebSocket connection closed"@,
    }
}

/// The message of a validation-failure event: a security threat names
/// the field and the details; any other finding also names its kind.
pub open spec fn validation_failure_message(
    field: Seq<char>,
    error_type: Seq<char>,
    details: Seq<char>,
    is_security_threat: bool,
) -> Seq<char> {
    if is_security_threat {
        "Security threat detected in field '"@ + field + "': "@ + details
    } else {
        "Validation failed for field '"@ + field + "': "@ + error_type + " - "@ + details
    }
}

impl AuditLogger {
    /// Whether audit logging is on.
    pub closed spec fn is_enabled(self) -> bool {
        self.enabled
    }

    /// A new audit logger; when disabled, every call builds nothing.
    pub fn new(enabled: bool) -> (r: Self)
        ensures
            r.is_enabled() == enabled,
    {
        AuditLogger { enabled }
    }

    /// An authentication success: informational, with a key hint when
    /// one is given. Nothing when disabled.
    pub fn log_auth_success(&self, client_ip: u128, api_key_hint: Option<&str>, now_ms: u64) -> (r:
        Option<AuditLogEntry>)
        ensures
            r is Some <==> self.is_enabled(),
            r matches Some(e) ==> (e.event_type == AuditEventType::Authentication && e.severity
                == AuditSeverity::Info && e.client_ip == client_ip && e.action@ == "auth_success"@
                && e.timestamp_ms == now_ms && e.message@ == auth_success_message(
                match api_key_hint {
                    Option::Some(h) => Option::Some(h@),
                    Option::None => Option::None,
                },
            )),
    {
        if !self.enabled {
            return None;
        }
        let message = match api_key_hint {
            Some(hint) => {
                let mut m = String::from_str("Authentication successful (key: ");
                m.append(hint);
                m.append("...)");
                m
            },
            None => String::from_str("Authentication successful"),
        };
        Some(
            AuditLogEntry::new(
                AuditEventType::Authentication,
                AuditSeverity::Info,
                client_ip,
                "auth_success",
                message,
                now_ms,
            ),
        )
    }

    /// An authentication failure: a warning naming the reason. Nothing
    /// when disabled.
    pub fn log_auth_failure(&self, client_ip: u128, reason: &str, now_ms: u64) -> (r: Option<
        AuditLogEntry,
    >)
        ensures
            r is Some <==> self.is_enabled(),
            r matches Some(e) ==> (e.event_type == AuditEventType::Authentication && e.severity
                == AuditSeverity::Warning && e.client_ip == client_ip && e.action@
                == "auth_failure"@ && e.timestamp_ms == now_ms && e.message@
                == "Authentication failed: "@ + reason@),
    {
        if !self.enabled {
            return None;
        }
        let mut message = String::from_str("Authentication failed: ");
        message.append(reason);
        Some(
            AuditLogEntry::new(
                AuditEventType::Authentication,
                AuditSeverity::Warning,
                client_ip,
                "auth_failure",
                message,
                now_ms,
            ),
        )
    }

    /// A rate-limit rejection: a warning naming which limit was hit.
    /// Nothing when disabled.
    pub fn log_rate_limit(&self, client_ip: u128, limit_type: &str, now_ms: u64) -> (r: Option<
        AuditLogEntry,
    >)
        ensures
            r is Some <==> self.is_enabled(),
            r matches Some(e) ==> (e.event_type == AuditEventType::RateLimit && e.severity
                == AuditSeverity::Warning && e.client_ip == client_ip && e.action@
                == "rate_limit_exceeded"@ && e.timestamp_ms == now_ms && e.message@ == limit_type@
                + " rate limit exceeded"@),
    {
        if !self.enabled {
            return None;
        }
        let mut message = limit_type.to_owned();
        message.append(" rate limit exceeded");
        Some(
            AuditLogEntry::new(
                AuditEventType::RateLimit,
                AuditSeverity::Warning,
                client_ip,
                "rate_limit_exceeded",
                message,
                now_ms,
            ),
        )
    }

    /// A connection opened: informational. Nothing when disabled.
    pub fn log_connection_open(&self, client_ip: u128, now_ms: u64) -> (r: Option<AuditLogEntry>)
        ensures
            r is Some <==> self.is_enabled(),
            r matches Some(e) ==> (e.event_type == AuditEventType::Connection && e.severity
                == AuditSeverity::Info && e.client_ip == client_ip && e.action@
                == "connection_open"@ && e.timestamp_ms == now_ms && e.message@
                == "WebSocket connection established"@),
    {
        if !self.enabled {
            return None;
        }
        Some(
            AuditLogEntry::new(
                AuditEventType::Connection,
                AuditSeverity::Info,
                client_ip,
                "connection_open",
                String::from_str("WebSocket connection established"),
                now_ms,
            ),
        )
    }

    /// A connection closed: informational, with the elapsed duration
    /// when known. Nothing when disabled.
    pub fn log_connection_close(
        &self,
        client_ip: u128,
        duration_ms: Option<u64>,
        now_ms: u64,
    ) -> (r: Option<AuditLogEntry>)
        ensures
            r is Some <==> self.is_enabled(),
            r matches Some(e) ==> (e.event_type == AuditEventType::Connection && e.severity
                == AuditSeverity::Info && e.client_ip == client_ip && e.action@
                == "connection_close"@ && e.timestamp_ms == now_ms && e.message@
                == connection_close_message(duration_ms)),
    {
        if !self.enabled {
            return None;
        }
        let message = match duration_ms {
            Some(ms) => {
                let mut m = String::from_str("WebSocket connection closed (duration: ");
                let d = u64_to_string(ms);
                m.append(d.as_str());
                m.append("ms)");
                m
            },
            None => String::from_str("WebSocket connection closed"),
        };
        Some(
            AuditLogEntry::new(
                AuditEventType::Connection,
                AuditSeverity::Info,
                client_ip,
                "connection_close",
                message,
                now_ms,
            ),
        )
    }

    /// A validation finding: a security threat is a `SecurityError` at
    /// severity `Error`; any other finding is a `Validation` warning. A
    /// finding without a client is attributed to the loopback source.
    /// Nothing when disabled.
    pub fn log_validation_failure(
        &self,
        client_ip: Option<u128>,
        field: &str,
        error_type: &str,
        details: &str,
        is_security_threat: bool,
        now_ms: u64,
    ) -> (r: Option<AuditLogEntry>)
        ensures
            r is Some <==> self.is_enabled(),
            r matches Some(e) ==> (e.event_type == (if is_security_threat {
                AuditEventType::SecurityError
            } else {
                AuditEventType::Validation
            }) && e.severity == (if is_security_threat {
                AuditSeverity::Error
            } else {
                AuditSeverity::Warning
            }) && e.client_ip == (match client_ip {
                Option::Some(ip) => ip,
                Option::None => local_source(),
            }) && e.action@ == "validation_failure"@ && e.timestamp_ms == now_ms && e.message@
                == validation_failure_message(field@, error_type@, details@, is_security_threat)),
    {
        if !self.enabled {
            return None;
        }
        let ip: u128 = match client_ip {
            Some(ip) => ip,
            None => 0x7F000001,
        };
        let severity = if is_security_threat {
            AuditSeverity::Error
        } else {
            AuditSeverity::Warning
        };
        let event_type = if is_security_threat {
            AuditEventType::SecurityError
        } else {
            AuditEventType::Validation
        };
        let message = if is_security_threat {
            let mut m = String::from_str("Security threat detected in field '");
            m.append(field);
            m.append("': ");
            m.append(details);
            m
        } else {
            let mut m = String::from_str("Validation failed for field '");
            m.append(field);
            m.append("': ");
            m.append(error_type);
            m.append(" - ");
            m.append(details);
            m
        };
        Some(AuditLogEntry::new(event_type, severity, ip, "validation_failure", message, now_ms))
    }
}

} // verus!
