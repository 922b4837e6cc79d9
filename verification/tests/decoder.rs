use smartcard_core::decoder::build_identity_record;
use smartcard_core::decoder::combine_photo_chunks;
use smartcard_core::decoder::decode_tis620;
use smartcard_core::decoder::format_date_slash;
use smartcard_core::decoder::format_thai_date;
use smartcard_core::decoder::mask_address;
use smartcard_core::decoder::mask_citizen_id;
use smartcard_core::decoder::normalize_expire;
use smartcard_core::decoder::address_parts;
use smartcard_core::decoder::select_address_components;
use smartcard_core::decoder::split_tis620;
use smartcard_core::decoder::strip_garbage;

/// Encodes a string to the card's single-byte code page: ASCII maps to
/// itself, the Thai block U+0E01..U+0E5B maps to 0xA1..0xFB.
fn tis620(s: &str) -> Vec<u8> {
    s.chars()
        .map(|c| {
            let cp = c as u32;
            if cp < 0x80 {
                cp as u8
            } else {
                assert!((0x0E01..=0x0E5B).contains(&cp), "not encodable: {c}");
                (cp - 0x0E00 + 0xA0) as u8
            }
        })
        .collect()
}

#[test]
fn test_decode_tis620_thai_text() {
    assert_eq!(decode_tis620(&tis620("กข")), "กข");
    // The delimiter byte becomes a space; whitespace is collapsed.
    assert_eq!(decode_tis620(&tis620("กข#คง")), "กข คง");
    assert_eq!(decode_tis620(&tis620("  Mr.  Smith ")), "Mr. Smith");
    assert_eq!(decode_tis620(&[]), "");
}

#[test]
fn test_split_tis620_name_parts() {
    let parts = split_tis620(&tis620("นาย#สมชาย##ใจดี"), 4);
    assert_eq!(parts, vec!["นาย", "สมชาย", "", "ใจดี"]);
}

#[test]
fn test_split_tis620_pads_missing_parts() {
    let parts = split_tis620(&tis620("นาย#สมชาย"), 4);
    assert_eq!(parts, vec!["นาย", "สมชาย", "", ""]);
}

#[test]
fn test_split_tis620_last_part_keeps_delimiters() {
    let parts = split_tis620(&tis620("a#b#c#d#e"), 4);
    assert_eq!(parts, vec!["a", "b", "c", "d#e"]);
}

#[test]
fn test_strip_garbage_filters_artifacts() {
    // Non-Thai characters are dropped, then single-character words.
    assert_eq!(strip_garbage("กข1 ค"), "กข");
    assert_eq!(strip_garbage("ตำบลหนึ่ง"), "ตำบลหนึ่ง");
    assert_eq!(strip_garbage("123!"), "");
    assert_eq!(strip_garbage(""), "");
}

#[test]
fn test_address_variant_eight_parts() {
    // A cleaned 8-part address with an empty element at index 4: the
    // administrative divisions are read from indices 5/6/7.
    let parts: Vec<String> = vec![
        "99".to_string(),
        "หมู่สี่".to_string(),
        "".to_string(),
        "ถนนหลัก".to_string(),
        "".to_string(),
        "ตำบลหนึ่ง".to_string(),
        "อำเภอสอง".to_string(),
        "จังหวัดสาม".to_string(),
    ];
    let (tambol, amphur, province) = select_address_components(&parts);
    assert_eq!(tambol, "ตำบลหนึ่ง");
    assert_eq!(amphur, "อำเภอสอง");
    assert_eq!(province, "จังหวัดสาม");
}

#[test]
fn test_address_variant_seven_parts() {
    // A non-empty element at index 4: the divisions sit at 4/5/6.
    let parts: Vec<String> = vec![
        "99".to_string(),
        "หมู่สี่".to_string(),
        "".to_string(),
        "ถนนหลัก".to_string(),
        "ตำบลหนึ่ง".to_string(),
        "อำเภอสอง".to_string(),
        "จังหวัดสาม".to_string(),
    ];
    let (tambol, amphur, province) = select_address_components(&parts);
    assert_eq!(tambol, "ตำบลหนึ่ง");
    assert_eq!(amphur, "อำเภอสอง");
    assert_eq!(province, "จังหวัดสาม");
}

#[test]
fn test_address_parts_truncates_padding() {
    let mut raw = tis620("99/1#หมู่สี่#ตำบลหนึ่ง");
    // The card pads unused capacity with out-of-range bytes.
    raw.extend_from_slice(&[0x00, 0x8F, 0xFF, 0x00]);
    let parts = address_parts(&raw);
    assert_eq!(parts, vec!["99/1", "หมู่สี่", "ตำบลหนึ่ง"]);
}

#[test]
fn test_combine_photo_chunks_order_and_encoding() {
    assert_eq!(combine_photo_chunks(vec![vec![1, 2, 3]]), "AQID");
    assert_eq!(combine_photo_chunks(vec![vec![1, 2, 3], vec![4]]), "AQIDBA==");
    assert_eq!(combine_photo_chunks(Vec::new()), "");
}

#[test]
fn test_mask_citizen_id_values() {
    assert_eq!(mask_citizen_id("3100600123456"), "**********3456");
    assert_eq!(mask_citizen_id("1234"), "****");
    assert_eq!(mask_citizen_id(""), "");
    assert_eq!(mask_citizen_id("12345"), "**2345");
}

#[test]
fn test_mask_address_values() {
    assert_eq!(mask_address(""), "[masked address]");
    assert_eq!(mask_address("จังหวัดสาม"), "[hidden] จังหวัดสาม");
}

#[test]
fn test_format_thai_date_values() {
    assert_eq!(format_thai_date("25300115"), "15 ม.ค. 2530");
    assert_eq!(format_thai_date("25301201"), "1 ธ.ค. 2530");
    assert_eq!(format_thai_date("25301301"), "25301301"); // month out of range
    assert_eq!(format_thai_date("2530011"), "2530011"); // wrong length
}

#[test]
fn test_format_date_slash_values() {
    assert_eq!(format_date_slash("25300115"), "2530/01/15");
    assert_eq!(format_date_slash("not-a-date"), "not-a-date");
}

#[test]
fn test_normalize_expire_values() {
    assert_eq!(normalize_expire("99999999"), "29991231");
    assert_eq!(normalize_expire("25701231"), "25701231");
}

#[test]
fn test_build_identity_record() {
    let mut addr = tis620("99/1#หมู่สี่##ถนนหลัก#ตำบลหนึ่ง#อำเภอสอง#จังหวัดสาม");
    addr.extend_from_slice(&[0x00, 0x8F]); // trailing padding
    let record = build_identity_record(
        &tis620("1234567890121"),
        &tis620("นาย#สมชาย##ใจดี"),
        &tis620("Mr.#John##Doe"),
        &tis620("25300101"),
        &tis620("1"),
        &tis620("กรมการปกครอง"),
        &tis620("25600101"),
        &tis620("99999999"),
        &addr,
        vec![vec![1, 2, 3], vec![4]],
    );
    assert_eq!(record.citizen_id, "1234567890121");
    assert_eq!(record.th_prefix, "นาย");
    assert_eq!(record.th_firstname, "สมชาย");
    assert_eq!(record.th_middlename, "");
    assert_eq!(record.th_lastname, "ใจดี");
    assert_eq!(record.en_prefix, "Mr.");
    assert_eq!(record.en_firstname, "John");
    assert_eq!(record.en_middlename, "");
    assert_eq!(record.en_lastname, "Doe");
    assert_eq!(record.full_name_en, "Mr. John Doe");
    assert_eq!(record.birthday, "2530/01/01");
    assert_eq!(record.sex, "1");
    assert_eq!(record.card_issuer, "กรมการปกครอง");
    assert_eq!(record.issue_date, "2560/01/01");
    // The all-nines expiry maps to the far-future date.
    assert_eq!(record.expire_date, "2999/12/31");
    assert_eq!(record.addr_house_no, "99/1");
    assert_eq!(record.addr_village_no, "หมู่สี่");
    assert_eq!(record.addr_lane, "");
    assert_eq!(record.addr_road, "ถนนหลัก");
    // Index 4 is non-empty: the 7-part layout is detected.
    assert_eq!(record.addr_tambol, "ตำบลหนึ่ง");
    assert_eq!(record.addr_amphur, "อำเภอสอง");
    assert_eq!(record.addr_province, "จังหวัดสาม");
    assert_eq!(
        record.address,
        "99/1 หมู่สี่ ถนนหลัก  ตำบลหนึ่ง อำเภอสอง จังหวัดสาม"
    );
    assert_eq!(record.photo, "AQIDBA==");
}

#[test]
fn test_no_break_space_collapses() {
    // Byte 0xA0 decodes to a no-break space, which collapses like any
    // other whitespace.
    let mut bytes = tis620("ก");
    bytes.push(0xA0);
    bytes.push(0xA0);
    bytes.extend_from_slice(&tis620("ข"));
    assert_eq!(decode_tis620(&bytes), "ก ข");
}
