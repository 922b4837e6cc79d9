use smartcard_core::audit::AuditEventType;
use smartcard_core::audit::AuditLogger;
use smartcard_core::config::OutputConfig;
use smartcard_core::config::SecurityConfig;
use smartcard_core::crypto::CryptoService;
use smartcard_core::decoder::ThaiIDData;
use smartcard_core::gate::AdmissionDecision;
use smartcard_core::gate::evaluate_admission;
use smartcard_core::gate::process_inserted;
use smartcard_core::rate_limiter::RateLimitConfig;
use smartcard_core::rate_limiter::RateLimiter;

const SRC: u128 = 0x0A000007;

fn sample_record() -> ThaiIDData {
    ThaiIDData {
        citizen_id: "1234567890121".to_string(),
        th_prefix: "นาย".to_string(),
        th_firstname: "สมชาย".to_string(),
        th_middlename: "".to_string(),
        th_lastname: "ใจดี".to_string(),
        en_prefix: "Mr.".to_string(),
        en_firstname: "John".to_string(),
        en_middlename: "".to_string(),
        en_lastname: "Doe".to_string(),
        full_name_en: "Mr. John Doe".to_string(),
        birthday: "19900115".to_string(),
        sex: "1".to_string(),
        card_issuer: "กรมการปกครอง".to_string(),
        issue_date: "20200101".to_string(),
        expire_date: "20301231".to_string(),
        address: "99/1 หมู่สี่ ถนนหลัก ตำบลหนึ่ง".to_string(),
        addr_house_no: "99/1".to_string(),
        addr_village_no: "หมู่สี่".to_string(),
        addr_road: "ถนนหลัก".to_string(),
        addr_lane: "".to_string(),
        addr_tambol: "ตำบลหนึ่ง".to_string(),
        addr_amphur: "อำเภอสอง".to_string(),
        addr_province: "จังหวัดสาม".to_string(),
        photo: "AQIDBA==".to_string(),
    }
}

#[test]
fn test_admission_all_disabled() {
    let sec = SecurityConfig::default();
    let audit = AuditLogger::new(false);
    let mut limiter = RateLimiter::default_config();
    let (decision, entries) = evaluate_admission(&sec, &audit, &mut limiter, SRC, 0, None);
    assert_eq!(decision, AdmissionDecision::Granted);
    assert!(entries.is_empty());
}

#[test]
fn test_admission_request_rate_limited() {
    let mut sec = SecurityConfig::default();
    sec.enable_rate_limiting = true;
    let audit = AuditLogger::new(true);
    let mut limiter = RateLimiter::new(RateLimitConfig {
        max_requests: 1,
        window_ms: 60_000,
        max_connections: 10,
    });
    let (first, _) = evaluate_admission(&sec, &audit, &mut limiter, SRC, 0, None);
    assert_eq!(first, AdmissionDecision::Granted);
    let (second, entries) = evaluate_admission(&sec, &audit, &mut limiter, SRC, 1, None);
    assert_eq!(second, AdmissionDecision::TooManyRequests);
    assert_eq!(entries.len(), 1);
    assert_eq!(entries[0].event_type, AuditEventType::RateLimit);
    assert_eq!(entries[0].message, "request rate limit exceeded");
}

#[test]
fn test_admission_connection_limited() {
    let mut sec = SecurityConfig::default();
    sec.enable_rate_limiting = true;
    let audit = AuditLogger::new(true);
    let mut limiter = RateLimiter::new(RateLimitConfig {
        max_requests: 100,
        window_ms: 60_000,
        max_connections: 1,
    });
    let (first, _) = evaluate_admission(&sec, &audit, &mut limiter, SRC, 0, None);
    assert_eq!(first, AdmissionDecision::Granted);
    let (second, entries) = evaluate_admission(&sec, &audit, &mut limiter, SRC, 1, None);
    assert_eq!(second, AdmissionDecision::TooManyConnections);
    assert_eq!(entries[0].message, "connection rate limit exceeded");
}

#[test]
fn test_admission_authentication() {
    let mut sec = SecurityConfig::default();
    sec.enable_authentication = true;
    sec.api_keys = vec!["test-key-1234".to_string()];
    let audit = AuditLogger::new(true);
    let mut limiter = RateLimiter::default_config();

    let (no_key, entries) = evaluate_admission(&sec, &audit, &mut limiter, SRC, 0, None);
    assert_eq!(no_key, AdmissionDecision::Unauthorized);
    assert_eq!(entries[0].message, "Authentication failed: No API key provided");

    let (bad_key, entries) =
        evaluate_admission(&sec, &audit, &mut limiter, SRC, 0, Some("wrong"));
    assert_eq!(bad_key, AdmissionDecision::Unauthorized);
    assert_eq!(entries[0].message, "Authentication failed: Invalid API key");

    let (good, entries) =
        evaluate_admission(&sec, &audit, &mut limiter, SRC, 0, Some("test-key-1234"));
    assert_eq!(good, AdmissionDecision::Granted);
    assert_eq!(entries.len(), 2);
    assert_eq!(entries[0].event_type, AuditEventType::Authentication);
    assert_eq!(entries[1].action, "connection_open");
}

#[test]
fn test_record_with_injection_is_rejected() {
    let mut data = sample_record();
    data.th_firstname = "<script>alert()</script>".to_string();
    let output = OutputConfig::default();
    let sec = SecurityConfig::default();
    let audit = AuditLogger::new(true);
    let (payload, entries) = process_inserted(&data, &output, &sec, None, &audit, 77);
    // The record is dropped: nothing reaches the broadcast channel.
    assert!(payload.is_none());
    // A security audit entry is emitted for it.
    assert!(entries
        .iter()
        .any(|e| e.event_type == AuditEventType::SecurityError));
}

#[test]
fn test_clean_record_is_broadcast() {
    let data = sample_record();
    let output = OutputConfig::default();
    let sec = SecurityConfig::default();
    let audit = AuditLogger::new(true);
    let (payload, entries) = process_inserted(&data, &output, &sec, None, &audit, 77);
    assert!(entries.is_empty());
    let pairs = payload.unwrap();
    assert_eq!(pairs.len(), 17); // 16 fields plus the photo
    assert_eq!(pairs[0], ("Citizenid".to_string(), "1234567890121".to_string()));
    assert_eq!(pairs[16], ("PhotoRaw".to_string(), "AQIDBA==".to_string()));
}

#[test]
fn test_field_mapping_and_selection() {
    let data = sample_record();
    let mut output = OutputConfig::default();
    output.enabled_fields = vec!["Citizenid".to_string(), "Sex".to_string()];
    output
        .field_mapping
        .push(("Citizenid".to_string(), "nationalId".to_string()));
    output.include_photo = false;
    let sec = SecurityConfig::default();
    let audit = AuditLogger::new(false);
    let (payload, _) = process_inserted(&data, &output, &sec, None, &audit, 0);
    let pairs = payload.unwrap();
    assert_eq!(
        pairs,
        vec![
            ("nationalId".to_string(), "1234567890121".to_string()),
            ("Sex".to_string(), "1".to_string()),
        ]
    );
}

#[test]
fn test_selected_fields_are_encrypted() {
    let data = sample_record();
    let output = OutputConfig::default();
    let mut sec = SecurityConfig::default();
    sec.enable_encryption = true;
    sec.encrypted_fields = vec!["Citizenid".to_string()];
    let key: Vec<u8> = (100u8..132u8).collect();
    let crypto = CryptoService::new(&key).unwrap();
    let audit = AuditLogger::new(false);
    let (payload, _) = process_inserted(&data, &output, &sec, Some(&crypto), &audit, 0);
    let pairs = payload.unwrap();
    let citizen = pairs.iter().find(|(n, _)| n == "Citizenid").unwrap();
    // The value is no longer the plaintext, and decrypts back to it.
    assert_ne!(citizen.1, "1234567890121");
    assert_eq!(crypto.decrypt_from_base64(&citizen.1).unwrap(), "1234567890121");
    // An unselected field passes through unchanged.
    let sex = pairs.iter().find(|(n, _)| n == "Sex").unwrap();
    assert_eq!(sex.1, "1");
}

#[test]
fn test_validation_findings_are_logged_but_not_fatal() {
    let mut data = sample_record();
    // A slash-formatted date is a format finding, not a security threat.
    data.birthday = "2530/01/01".to_string();
    let output = OutputConfig::default();
    let sec = SecurityConfig::default();
    let audit = AuditLogger::new(true);
    let (payload, entries) = process_inserted(&data, &output, &sec, None, &audit, 0);
    assert!(payload.is_some());
    assert_eq!(entries.len(), 1);
    assert_eq!(entries[0].event_type, AuditEventType::Validation);
}

#[test]
fn test_record_with_long_injection_is_rejected() {
    // Even when the injected field is over the length limit, the
    // security classification wins and the record is dropped.
    let mut data = sample_record();
    data.th_firstname = format!("{}<script>alert()</script>", "a".repeat(300));
    let output = OutputConfig::default();
    let sec = SecurityConfig::default();
    let audit = AuditLogger::new(true);
    let (payload, entries) = process_inserted(&data, &output, &sec, None, &audit, 77);
    assert!(payload.is_none());
    assert!(entries
        .iter()
        .any(|e| e.event_type == AuditEventType::SecurityError));
}

#[test]
fn test_unauthorized_releases_connection_slot() {
    // A refused authentication gives the counted connection slot back,
    // so repeated bad keys cannot exhaust the ceiling.
    let mut sec = SecurityConfig::default();
    sec.enable_rate_limiting = true;
    sec.enable_authentication = true;
    sec.api_keys = vec!["test-key-1234".to_string()];
    let audit = AuditLogger::new(false);
    let mut limiter = RateLimiter::new(RateLimitConfig {
        max_requests: 100,
        window_ms: 60_000,
        max_connections: 1,
    });
    for _ in 0..5 {
        let (d, _) = evaluate_admission(&sec, &audit, &mut limiter, SRC, 0, Some("wrong"));
        assert_eq!(d, AdmissionDecision::Unauthorized);
    }
    let (good, _) =
        evaluate_admission(&sec, &audit, &mut limiter, SRC, 0, Some("test-key-1234"));
    assert_eq!(good, AdmissionDecision::Granted);
}
