use smartcard_core::apdu::ApduError;
use smartcard_core::apdu::ChainStep;
use smartcard_core::apdu::get_response_apdu;
use smartcard_core::apdu::inspect_response;
use smartcard_core::apdu::interpret_sw;
use smartcard_core::apdu::reassemble_chain;

#[test]
fn test_chained_response_reconstruction() {
    // A `61 05` announcement followed by five bytes and `90 00` must
    // yield exactly those five bytes.
    let responses = vec![vec![0x61, 0x05], vec![0xDE, 0xAD, 0xBE, 0xEF, 0x42, 0x90, 0x00]];
    assert_eq!(reassemble_chain(&responses).unwrap(), vec![0xDE, 0xAD, 0xBE, 0xEF, 0x42]);
}

#[test]
fn test_multi_link_chain() {
    let responses = vec![
        vec![0x01, 0x02, 0x61, 0x03],
        vec![0x03, 0x04, 0x61, 0x01],
        vec![0x05, 0x90, 0x00],
    ];
    assert_eq!(reassemble_chain(&responses).unwrap(), vec![1, 2, 3, 4, 5]);
}

#[test]
fn test_single_success_response() {
    let responses = vec![vec![0x0A, 0x0B, 0x90, 0x00]];
    assert_eq!(reassemble_chain(&responses).unwrap(), vec![0x0A, 0x0B]);
}

#[test]
fn test_chain_error_statuses() {
    assert_eq!(
        reassemble_chain(&vec![vec![0x6A, 0x82]]),
        Err(ApduError::Status(0x6A, 0x82))
    );
    assert_eq!(reassemble_chain(&vec![vec![0x90]]), Err(ApduError::TooShort));
    assert_eq!(reassemble_chain(&vec![vec![0x61, 0x05]]), Err(ApduError::Incomplete));
    assert_eq!(reassemble_chain(&Vec::new()), Err(ApduError::Incomplete));
}

#[test]
fn test_inspect_response_steps() {
    match inspect_response(&vec![0x01, 0x61, 0x10]).unwrap() {
        ChainStep::More(data, len) => {
            assert_eq!(data, vec![0x01]);
            assert_eq!(len, 0x10);
        }
        _ => panic!("expected more-data step"),
    }
    match inspect_response(&vec![0x01, 0x90, 0x00]).unwrap() {
        ChainStep::Done(data) => assert_eq!(data, vec![0x01]),
        _ => panic!("expected terminal step"),
    }
    assert_eq!(inspect_response(&vec![0x69, 0x82]), Err(ApduError::Status(0x69, 0x82)));
    assert_eq!(inspect_response(&vec![0x42]), Err(ApduError::TooShort));
}

#[test]
fn test_get_response_apdu_shape() {
    assert_eq!(get_response_apdu(0x10), vec![0x00, 0xC0, 0x00, 0x00, 0x10]);
    assert_eq!(get_response_apdu(0xFF), vec![0x00, 0xC0, 0x00, 0x00, 0xFF]);
}

#[test]
fn test_interpret_sw_table() {
    assert_eq!(interpret_sw(0x90, 0x00), "Success");
    assert_eq!(interpret_sw(0x61, 0x23), "More data available");
    assert_eq!(interpret_sw(0x69, 0x82), "Security status not satisfied");
    assert_eq!(interpret_sw(0x6A, 0x82), "File not found");
    assert_eq!(interpret_sw(0x6B, 0x00), "Wrong parameters P1-P2");
    assert_eq!(interpret_sw(0x6E, 0x00), "Class not supported");
    assert_eq!(interpret_sw(0x63, 0xC7), "Counter verification");
    assert_eq!(interpret_sw(0x6C, 0x77), "Wrong Le field");
    assert_eq!(interpret_sw(0x12, 0x34), "Unknown error");
}
