use smartcard_core::config::ApduCommand;
use smartcard_core::config::CardConfig;
use smartcard_core::config::OutputConfig;
use smartcard_core::config::OutputFormat;
use smartcard_core::config::SecurityConfig;
use smartcard_core::config::hex_to_bytes;

#[test]
fn test_output_field_enabled() {
    let mut config = OutputConfig::default();
    assert!(config.is_field_enabled("citizen_id"));

    config.enabled_fields = vec!["citizen_id".to_string()];
    assert!(config.is_field_enabled("citizen_id"));
    assert!(!config.is_field_enabled("photo"));
}

#[test]
fn test_output_field_mapping() {
    let mut config = OutputConfig::default();
    assert_eq!(config.get_field_name("citizen_id"), "citizen_id");

    config
        .field_mapping
        .push(("citizen_id".to_string(), "nationalId".to_string()));
    assert_eq!(config.get_field_name("citizen_id"), "nationalId");
}

#[test]
fn test_output_format_display() {
    assert_eq!(OutputFormat::Standard.to_string(), "standard");
    assert_eq!(OutputFormat::Minimal.to_string(), "minimal");
    assert_eq!(OutputFormat::Full.to_string(), "full");
}

#[test]
fn test_hex_to_bytes_plain() {
    assert_eq!(hex_to_bytes("80B0000402000D"), vec![0x80, 0xB0, 0x00, 0x04, 0x02, 0x00, 0x0D]);
    assert_eq!(hex_to_bytes("00 A4 04 00"), vec![0x00, 0xA4, 0x04, 0x00]);
    assert_eq!(hex_to_bytes(""), Vec::<u8>::new());
}

#[test]
fn test_hex_to_bytes_tolerates_bad_input() {
    // A pair with a non-hex character is skipped; a trailing lone
    // character is ignored.
    assert_eq!(hex_to_bytes("80ZZB0"), vec![0x80, 0xB0]);
    assert_eq!(hex_to_bytes("80B"), vec![0x80]);
    assert_eq!(hex_to_bytes("aAfF09"), vec![0xAA, 0xFF, 0x09]);
}

#[test]
fn test_apdu_command_to_bytes() {
    let cmd = ApduCommand {
        name: "citizen_id".to_string(),
        apdu: "80B0000402000D".to_string(),
        required: true,
    };
    assert_eq!(cmd.to_bytes(), vec![0x80, 0xB0, 0x00, 0x04, 0x02, 0x00, 0x0D]);
}

#[test]
fn test_card_config_defaults() {
    let config = CardConfig::default();
    assert_eq!(
        config.select_apdu_bytes(),
        vec![0x00, 0xA4, 0x04, 0x00, 0x08, 0xA0, 0x00, 0x00, 0x00, 0x54, 0x48, 0x00, 0x01]
    );
    assert_eq!(config.photo_chunk_bytes().len(), 20);
    assert_eq!(config.retry_attempts, 3);
    let field = config.get_field("citizen_id").unwrap();
    assert_eq!(field.apdu, "80B0000402000D");
    assert!(config.get_field("no_such_field").is_none());
}

#[test]
fn test_security_key_validation() {
    let mut sec = SecurityConfig::default();
    // Authentication off: everything is accepted.
    assert!(sec.is_valid_key("anything"));

    sec.enable_authentication = true;
    // No keys configured: nothing is accepted.
    assert!(!sec.is_valid_key("anything"));

    sec.api_keys = vec!["test-key-1234".to_string()];
    assert!(sec.is_valid_key("test-key-1234"));
    assert!(!sec.is_valid_key("wrong"));
}

#[test]
fn test_should_encrypt_field() {
    let mut sec = SecurityConfig::default();
    // Encryption off: nothing is encrypted.
    assert!(!sec.should_encrypt_field("Citizenid"));

    sec.enable_encryption = true;
    // The default list selects the sensitive fields.
    assert!(sec.should_encrypt_field("Citizenid"));
    assert!(!sec.should_encrypt_field("Birthday"));

    // An empty list selects every field.
    sec.encrypted_fields = Vec::new();
    assert!(sec.should_encrypt_field("Birthday"));
}

#[test]
fn test_field_mapping_first_entry_wins() {
    let mut config = OutputConfig::default();
    config
        .field_mapping
        .push(("citizen_id".to_string(), "first".to_string()));
    config
        .field_mapping
        .push(("citizen_id".to_string(), "second".to_string()));
    assert_eq!(config.get_field_name("citizen_id"), "first");
}
