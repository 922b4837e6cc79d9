use smartcard_core::validation::AddressValidator;
use smartcard_core::validation::CardDataValidator;
use smartcard_core::validation::DateValidator;
use smartcard_core::validation::FindingClass;
use smartcard_core::validation::GenderValidator;
use smartcard_core::validation::NameValidator;
use smartcard_core::validation::ThaiCitizenIdValidator;
use smartcard_core::validation::ValidationError;

#[test]
fn test_valid_citizen_id() {
    // Valid test ID with correct checksum
    assert!(ThaiCitizenIdValidator::validate("1234567890123").is_err()); // Invalid checksum
                                                                         // Note: Real valid IDs should be tested separately
}

#[test]
fn test_invalid_citizen_id_length() {
    assert!(ThaiCitizenIdValidator::validate("123456789012").is_err());
    assert!(ThaiCitizenIdValidator::validate("12345678901234").is_err());
}

#[test]
fn test_invalid_citizen_id_non_digit() {
    assert!(ThaiCitizenIdValidator::validate("123456789012a").is_err());
    assert!(ThaiCitizenIdValidator::validate("1-2345-67890-12").is_err());
}

#[test]
fn test_valid_dates() {
    assert!(DateValidator::validate("19900115").is_ok());
    assert!(DateValidator::validate("1990-01-15").is_ok());
}

#[test]
fn test_invalid_dates() {
    assert!(DateValidator::validate("19901315").is_err()); // Invalid month
    assert!(DateValidator::validate("19900132").is_err()); // Invalid day
    assert!(DateValidator::validate("20501301").is_err()); // Invalid month
}

#[test]
fn test_name_validation() {
    assert!(NameValidator::validate("นายทดสอบ ระบบ").is_ok());
    assert!(NameValidator::validate("Test User").is_ok());
    assert!(matches!(
        NameValidator::validate(""),
        Err(ValidationError::Format(_))
    )); // Empty
    assert!(matches!(
        NameValidator::validate("<script>alert()</script>"),
        Err(ValidationError::Security(_))
    )); // Injection
}

#[test]
fn test_gender_validation() {
    assert!(GenderValidator::validate("1").is_ok());
    assert!(GenderValidator::validate("2").is_ok());
    assert!(GenderValidator::validate("0").is_err());
    assert!(GenderValidator::validate("3").is_err());
    assert!(GenderValidator::validate("M").is_err());
}

#[test]
fn test_address_validation() {
    assert!(AddressValidator::validate("123 ถนนสุขุมวิท").is_ok());
    assert!(matches!(
        AddressValidator::validate(""),
        Err(ValidationError::Format(_))
    )); // Empty
    assert!(matches!(
        AddressValidator::validate("123<script>"),
        Err(ValidationError::Security(_))
    )); // Injection
}

// The weighted mod-11 check: for "123456789012" the weighted sum is
// 1*13 + 2*12 + ... + 2*2 = 352, 352 mod 11 = 0, so the check digit is
// (11 - 0) mod 10 = 1 and only "1234567890121" is accepted.
#[test]
fn test_checksum_exact_digit() {
    assert!(ThaiCitizenIdValidator::validate_checksum("1234567890121"));
    assert!(ThaiCitizenIdValidator::validate("1234567890121").is_ok());
    for d in ["0", "2", "3", "4", "5", "6", "7", "8", "9"] {
        let id = format!("123456789012{}", d);
        assert!(!ThaiCitizenIdValidator::validate_checksum(&id));
        assert!(matches!(
            ThaiCitizenIdValidator::validate(&id),
            Err(ValidationError::Integrity(_))
        ));
    }
}

#[test]
fn test_checksum_rejects_wrong_shape() {
    assert!(!ThaiCitizenIdValidator::validate_checksum("123456789012"));
    assert!(!ThaiCitizenIdValidator::validate_checksum("12345678901211"));
    assert!(!ThaiCitizenIdValidator::validate_checksum("123456789012a"));
    assert!(!ThaiCitizenIdValidator::validate_checksum(""));
}

#[test]
fn test_citizen_id_trimmed() {
    assert!(ThaiCitizenIdValidator::validate("  1234567890121  ").is_ok());
}

#[test]
fn test_date_shapes() {
    assert!(DateValidator::validate("1990-0115").is_ok());
    assert!(DateValidator::validate("199001-15").is_ok());
    assert!(DateValidator::validate("1899-01-15").is_err()); // year below range
    assert!(DateValidator::validate("2101-01-15").is_err()); // year above range
    assert!(DateValidator::validate("19900015").is_err()); // month zero
    assert!(DateValidator::validate("19900100").is_err()); // day zero
    assert!(DateValidator::validate("1990/01/15").is_err());
    assert!(DateValidator::validate("199001150").is_err());
}

#[test]
fn test_name_too_long() {
    let long = "a".repeat(201);
    assert!(matches!(
        NameValidator::validate(&long),
        Err(ValidationError::Format(_))
    ));
    let ok = "a".repeat(200);
    assert!(NameValidator::validate(&ok).is_ok());
}

#[test]
fn test_address_too_long() {
    let long = "a".repeat(501);
    assert!(matches!(
        AddressValidator::validate(&long),
        Err(ValidationError::Format(_))
    ));
    let ok = "a".repeat(500);
    assert!(AddressValidator::validate(&ok).is_ok());
}

#[test]
fn test_validate_all_labels_in_order() {
    let errors = CardDataValidator::validate_all(
        Some("123"),                // Format
        Some("19900115"),           // ok
        Some("bad"),                // Format
        Some("19900115"),           // ok
        Some("3"),                  // Format
        Some("<script>"),           // Security
        Some("Test User"),          // ok
        Some("123 Main"),           // ok
    );
    let labels: Vec<&str> = errors.iter().map(|(l, _)| l.as_str()).collect();
    assert_eq!(labels, vec!["Citizen ID", "Issue date", "Gender", "Thai name"]);
    assert_eq!(errors[3].1.classification(), FindingClass::Security);
}

#[test]
fn test_validate_all_clean_record() {
    let errors = CardDataValidator::validate_all(
        Some("1234567890121"),
        Some("19900115"),
        Some("2020-01-01"),
        Some("20301231"),
        Some("1"),
        Some("นายทดสอบ ระบบ"),
        Some("Mr. Test System"),
        Some("99 หมู่ 4"),
    );
    assert!(errors.is_empty());
}

#[test]
fn test_validate_all_skips_absent_fields() {
    let errors = CardDataValidator::validate_all(None, None, None, None, None, None, None, None);
    assert!(errors.is_empty());
}

#[test]
fn test_long_injection_is_still_security() {
    // A denylisted character outranks the length limit: an over-long
    // field with an injection payload is a security finding, not merely
    // a format one.
    let long_name = format!("{}<script>alert()</script>", "a".repeat(300));
    assert!(matches!(
        NameValidator::validate(&long_name),
        Err(ValidationError::Security(_))
    ));
    let long_address = format!("{}<script>", "a".repeat(600));
    assert!(matches!(
        AddressValidator::validate(&long_address),
        Err(ValidationError::Security(_))
    ));
}

#[test]
fn test_no_break_space_is_trimmed() {
    // The code page maps byte 0xA0 to a no-break space; trimming treats
    // it as whitespace.
    assert!(ThaiCitizenIdValidator::validate("\u{00A0}1234567890121\u{00A0}").is_ok());
    assert!(GenderValidator::validate("\u{00A0}1 ").is_ok());
}
