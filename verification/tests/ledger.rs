use lumio_executor::ledger::apdu::{
    after_sign_chunk, app_name_request, batch_range, derivation_path, key_answer_is_complete,
    nothing_to_sign, parse_app_name, parse_public_key, parse_version, public_key_request,
    sign_requests, signature_answer_is_complete, status_failure, transport_failure,
    try_public_key_request, version_request, SignProgress, APDU_CODE_SUCCESS,
};
use lumio_executor::ledger::path::{
    parse_number, serialize_bip32, split, try_serialize_bip32, validate_derivation_path,
};
use lumio_executor::ledger::status::{LumioLedgerError, LumioLedgerStatusCode, Version};

const ALL_CODES: [(u16, LumioLedgerStatusCode, &str); 18] = [
    (0x6985, LumioLedgerStatusCode::Deny, "Request rejected by user"),
    (0x6A86, LumioLedgerStatusCode::WrongPip2, "Wrong P1 or P2"),
    (0x6A87, LumioLedgerStatusCode::WrongDataLength, "Wrong data length"),
    (0x6D00, LumioLedgerStatusCode::InsNotSupported, "Ins(Instruction) not supported"),
    (0x6E00, LumioLedgerStatusCode::ClaNotSupported, "Cla not supported"),
    (0xB000, LumioLedgerStatusCode::WrongResponseLength, "Wrong response length"),
    (0xB001, LumioLedgerStatusCode::DisplayBip32PathFail, "BIP32 path conversion to string failed"),
    (0xB002, LumioLedgerStatusCode::DisplayAddressFail, "Address conversion to string failed"),
    (0xB003, LumioLedgerStatusCode::DisplayAmountFail, "Amount conversion to string failed"),
    (0xB004, LumioLedgerStatusCode::WrongTxnLength, "Wrong raw transaction length"),
    (0xB005, LumioLedgerStatusCode::TxnParsingFail, "Failed to parse raw transaction"),
    (0xB006, LumioLedgerStatusCode::TxnHashFail, "Failed to compute hash digest of raw transaction"),
    (0xB007, LumioLedgerStatusCode::BadState, "Security issue with bad state"),
    (0xB008, LumioLedgerStatusCode::SignatureFail, "Signature of raw transaction failed"),
    (0x9000, LumioLedgerStatusCode::Success, "Success"),
    (0x5515, LumioLedgerStatusCode::LedgerLocked, "Ledger device is locked"),
    (0x6E01, LumioLedgerStatusCode::AppNotOpen, "Lumio ledger app is not opened"),
    (0x0000, LumioLedgerStatusCode::Unknown, "Unknown status code"),
];

#[test]
fn every_status_code_maps_to_its_number_and_back() {
    for (number, code, description) in ALL_CODES {
        assert_eq!(LumioLedgerStatusCode::map_status_code(number), code);
        assert_eq!(code.code(), number);
        assert_eq!(code.description(), description);
    }
}

#[test]
fn an_unlisted_number_is_unknown() {
    for number in [1u16, 0x6984, 0x6986, 0x8fff, 0x9001, 0xB009, 0xffff] {
        assert_eq!(LumioLedgerStatusCode::map_status_code(number), LumioLedgerStatusCode::Unknown);
    }
    let mut listed = 0;
    for number in 0..=u16::MAX {
        let code = LumioLedgerStatusCode::map_status_code(number);
        if code != LumioLedgerStatusCode::Unknown {
            assert_eq!(code.code(), number);
            listed += 1;
        }
    }
    assert_eq!(listed, 17);
}

#[test]
fn a_status_code_is_shown_with_its_number_in_hexadecimal() {
    assert_eq!(LumioLedgerStatusCode::Deny.to_text(), "Request rejected by user (0x6985)");
    assert_eq!(LumioLedgerStatusCode::WrongResponseLength.to_text(), "Wrong response length (0xb000)");
    assert_eq!(LumioLedgerStatusCode::Unknown.to_text(), "Unknown status code (0x0)");
    assert_eq!(LumioLedgerStatusCode::LedgerLocked.to_text(), "Ledger device is locked (0x5515)");
}

#[test]
fn a_version_is_shown_with_dots() {
    assert_eq!(Version { major: 1, minor: 2, patch: 3 }.to_text(), "1.2.3");
    assert_eq!(Version { major: 0, minor: 0, patch: 0 }.to_text(), "0.0.0");
    assert_eq!(Version { major: 255, minor: 10, patch: 109 }.to_text(), "255.10.109");
}

#[test]
fn errors_are_shown_as_text() {
    assert_eq!(LumioLedgerError::DeviceNotFound.to_text(), "Device not found");
    assert_eq!(
        LumioLedgerError::LumioError(LumioLedgerStatusCode::AppNotOpen).to_text(),
        "Error - Lumio ledger app is not opened (0x6e01)"
    );
    assert_eq!(
        LumioLedgerError::UnexpectedError("broken pipe".to_string(), None).to_text(),
        "Unexpected Error: broken pipe (StatusCode None)"
    );
    assert_eq!(
        LumioLedgerError::UnexpectedError("bad key".to_string(), Some(36864)).to_text(),
        "Unexpected Error: bad key (StatusCode Some(36864))"
    );
}

#[test]
fn derivation_paths_of_the_wallet_are_valid() {
    for path in [
        "m/44'/637'/0'/0'/0'",
        "m/44'/637'/1'/0'/0'",
        "m/44'/637'/4294967295'/12'/0007'",
        "m/44'/637'/+5'/0'/0'",
        "m/44'/637'/5''/0'/0''",
    ] {
        assert!(validate_derivation_path(path), "{}", path);
    }
}

#[test]
fn other_paths_are_not_valid() {
    for path in [
        "",
        "m",
        "m/44'/637'/",
        "m/44'/637'",
        "m/44'/637'/0'",
        "m/44'/637'/0'/0'",
        "m/44'/637'/0'/0'/0",
        "m/44'/637'/0'/0'/0'/0'",
        "m/44'/637'/0/0'/0'",
        "m/44'/637'/0'/0/0'",
        "m/44'/637'/4294967296'/0'/0'",
        "m/44'/637'/-1'/0'/0'",
        "m/44'/637'/a'/0'/0'",
        "m/44'/637'/'/0'/0'",
        "m/44'/637'/+'/0'/0'",
        "m/44'/637'/ 1'/0'/0'",
        "m/44'/637'//0'/0'",
        "m/44'/638'/0'/0'/0'",
        "M/44'/637'/0'/0'/0'",
        "x/44'/637'/0'/0'/0'",
        "m/44'/637'/0'/0'/0'/",
        "m/44'/637'/\u{661}'/0'/0'",
    ] {
        assert!(!validate_derivation_path(path), "{}", path);
    }
}

#[test]
fn a_text_is_split_at_its_slashes() {
    let text = b"ab//c/";
    assert_eq!(split(text, 0), vec![(0, 2), (3, 3), (4, 5), (6, 6)]);
    assert_eq!(split(text, 3), vec![(3, 3), (4, 5), (6, 6)]);
    assert_eq!(split(b"", 0), vec![(0, 0)]);
    assert_eq!(split(b"abc", 0), vec![(0, 3)]);
    assert_eq!(split(b"abc", 3), vec![(3, 3)]);
}

#[test]
fn numbers_are_read_as_the_standard_library_reads_them() {
    for text in ["0", "7", "007", "+7", "4294967295", "4294967296", "", "+", "-7", "7 ", "1e3", "99999999999999999999999", "++1", "1+"] {
        assert_eq!(parse_number(text.as_bytes(), 0, text.len()), text.parse::<u32>().ok(), "{:?}", text);
    }
    assert_eq!(parse_number(b"xx123yy", 2, 5), Some(123));
    assert_eq!(parse_number(b"xx123yy", 2, 6), None);
}

#[test]
fn a_path_is_put_on_the_wire_section_by_section() {
    assert_eq!(
        serialize_bip32("m/44'/637'/0'/0'/0'"),
        vec![
            5, 0x80, 0, 0, 44, 0x80, 0, 0x02, 0x7d, 0x80, 0, 0, 0, 0x80, 0, 0, 0, 0x80, 0, 0, 0
        ]
    );
    assert_eq!(serialize_bip32("m/1/258'"), vec![2, 0, 0, 0, 1, 0x80, 0, 1, 2]);
    assert_eq!(serialize_bip32("m/4294967295"), vec![1, 0xff, 0xff, 0xff, 0xff]);
    assert_eq!(serialize_bip32("m/2147483647'"), vec![1, 0xff, 0xff, 0xff, 0xff]);
    assert_eq!(serialize_bip32("anything"), vec![0]);
    assert_eq!(serialize_bip32(""), vec![0]);
    assert_eq!(try_serialize_bip32("m/7"), Some(vec![1, 0, 0, 0, 7]));
}

#[test]
fn a_path_with_a_section_that_is_no_number_is_not_put_on_the_wire() {
    for path in ["m/", "m/x", "m/1//2", "m/2147483648'", "m/4294967296", "m/1''", "m/'", "/"] {
        assert_eq!(try_serialize_bip32(path), None, "{}", path);
        assert!(try_public_key_request(path, false).is_none());
        assert!(sign_requests(path, b"message").is_none());
    }
}

#[test]
fn the_count_of_sections_wraps_around_at_256() {
    let mut path = String::from("m");
    for _ in 0..257 {
        path.push_str("/1");
    }
    let bytes = serialize_bip32(&path);
    assert_eq!(bytes.len(), 1 + 4 * 257);
    assert_eq!(bytes[0], 1);
}

#[test]
fn requests_are_framed() {
    let version = version_request();
    assert_eq!((version.cla, version.ins, version.p1, version.p2), (0x5B, 0x03, 0, 0));
    assert!(version.data.is_empty());
    let name = app_name_request();
    assert_eq!((name.cla, name.ins, name.p1, name.p2), (0x5B, 0x04, 0, 0));
    assert!(name.data.is_empty());
    let shown = public_key_request("m/44'/637'/1'/0'/0'", true);
    assert_eq!((shown.cla, shown.ins, shown.p1, shown.p2), (0x5B, 0x05, 1, 0));
    assert_eq!(shown.data, serialize_bip32("m/44'/637'/1'/0'/0'"));
    let silent = try_public_key_request("m/44'/637'/1'/0'/0'", false).unwrap();
    assert_eq!(silent.p1, 0);
}

#[test]
fn the_derivation_path_of_an_account_holds_its_index() {
    assert_eq!(derivation_path(0), "m/44'/637'/0'/0'/0'");
    assert_eq!(derivation_path(9), "m/44'/637'/9'/0'/0'");
    assert_eq!(derivation_path(10), "m/44'/637'/10'/0'/0'");
    assert_eq!(derivation_path(4294967295), "m/44'/637'/4294967295'/0'/0'");
    assert!(validate_derivation_path(&derivation_path(123456)));
    assert_eq!(
        serialize_bip32(&derivation_path(3)),
        vec![5, 0x80, 0, 0, 44, 0x80, 0, 0x02, 0x7d, 0x80, 0, 0, 3, 0x80, 0, 0, 0, 0x80, 0, 0, 0]
    );
}

#[test]
fn a_batch_covers_ten_accounts_at_most() {
    assert_eq!(batch_range(None).unwrap(), (0, 10));
    assert_eq!(batch_range(Some((5, 15))).unwrap(), (5, 15));
    assert_eq!(batch_range(Some((7, 7))).unwrap(), (7, 7));
    match batch_range(Some((5, 16))) {
        Err(LumioLedgerError::UnexpectedError(message, None)) => {
            assert_eq!(message, "Unexpected Error: Make sure the range is less than or equal to 10");
        },
        other => panic!("unexpected result {:?}", other),
    }
}

#[test]
fn the_version_is_read_from_the_first_three_bytes() {
    assert_eq!(
        parse_version(APDU_CODE_SUCCESS, &[1, 2, 3, 9]).unwrap(),
        Version { major: 1, minor: 2, patch: 3 }
    );
    assert!(matches!(
        parse_version(0x6E01, &[]),
        Err(LumioLedgerError::LumioError(LumioLedgerStatusCode::AppNotOpen))
    ));
    assert!(matches!(
        parse_version(0x1234, &[1, 2, 3]),
        Err(LumioLedgerError::LumioError(LumioLedgerStatusCode::Unknown))
    ));
}

#[test]
fn the_name_of_the_application_is_read_as_utf8() {
    assert_eq!(parse_app_name(APDU_CODE_SUCCESS, b"Lumio").unwrap(), "Lumio");
    assert_eq!(parse_app_name(APDU_CODE_SUCCESS, "Lümio".as_bytes()).unwrap(), "Lümio");
    assert_eq!(parse_app_name(APDU_CODE_SUCCESS, b"").unwrap(), "");
    assert!(matches!(
        parse_app_name(APDU_CODE_SUCCESS, &[0xff, 0xfe]),
        Err(LumioLedgerError::UnexpectedError(_, None))
    ));
    assert!(matches!(
        parse_app_name(0x5515, b"Lumio"),
        Err(LumioLedgerError::LumioError(LumioLedgerStatusCode::LedgerLocked))
    ));
}

#[test]
fn the_public_key_is_read_in_hexadecimal() {
    let answer = [4u8, 0x04, 0x00, 0x0f, 0xab, 0x77];
    assert!(key_answer_is_complete(&answer));
    assert_eq!(parse_public_key(APDU_CODE_SUCCESS, &answer).unwrap(), "000fab");
    let longer = [3u8, 0x04, 0xde, 0xad, 0xbe, 0xef];
    assert_eq!(parse_public_key(APDU_CODE_SUCCESS, &longer).unwrap(), "dead");
    let empty_key = [1u8, 0x04];
    assert_eq!(parse_public_key(APDU_CODE_SUCCESS, &empty_key).unwrap(), "");
    assert!(matches!(
        parse_public_key(0x6985, &[]),
        Err(LumioLedgerError::LumioError(LumioLedgerStatusCode::Deny))
    ));
    assert!(!key_answer_is_complete(&[]));
    assert!(!key_answer_is_complete(&[0, 4, 1]));
    assert!(!key_answer_is_complete(&[4, 4, 1, 2]));
    assert!(!key_answer_is_complete(&[1]));
    assert!(key_answer_is_complete(&[1, 4]));
}

#[test]
fn a_message_is_sent_in_chunks_of_255_bytes() {
    let path = "m/44'/637'/0'/0'/0'";
    let message: Vec<u8> = (0..600u32).map(|i| (i % 251) as u8).collect();
    let frames = sign_requests(path, &message).unwrap();
    assert_eq!(frames.len(), 4);
    assert_eq!((frames[0].cla, frames[0].ins, frames[0].p1, frames[0].p2), (0x5B, 0x06, 0x00, 0x80));
    assert_eq!(frames[0].data, serialize_bip32(path));
    assert_eq!((frames[1].p1, frames[1].p2), (1, 0x80));
    assert_eq!(frames[1].data, message[0..255].to_vec());
    assert_eq!((frames[2].p1, frames[2].p2), (2, 0x80));
    assert_eq!(frames[2].data, message[255..510].to_vec());
    assert_eq!((frames[3].p1, frames[3].p2), (3, 0x00));
    assert_eq!(frames[3].data, message[510..600].to_vec());

    let exact = sign_requests(path, &message[..510]).unwrap();
    assert_eq!(exact.len(), 3);
    assert_eq!((exact[2].p1, exact[2].p2), (2, 0x00));
    assert_eq!(exact[2].data.len(), 255);

    let short = sign_requests(path, &[7]).unwrap();
    assert_eq!(short.len(), 2);
    assert_eq!((short[1].p1, short[1].p2), (1, 0x00));
    assert_eq!(short[1].data, vec![7]);

    let none = sign_requests(path, &[]).unwrap();
    assert_eq!(none.len(), 1);
}

#[test]
fn the_number_of_a_chunk_wraps_around_at_256() {
    let message = vec![1u8; 255 * 256 + 1];
    let frames = sign_requests("m/0", &message).unwrap();
    assert_eq!(frames.len(), 258);
    assert_eq!(frames[255].p1, 255);
    assert_eq!(frames[256].p1, 0);
    assert_eq!(frames[257].p1, 1);
    assert_eq!(frames[257].p2, 0x00);
    assert_eq!(frames[256].p2, 0x80);
}

#[test]
fn answers_to_chunks_drive_the_signing_exchange() {
    assert!(matches!(after_sign_chunk(false, APDU_CODE_SUCCESS, &[]), SignProgress::Continue));
    match after_sign_chunk(true, APDU_CODE_SUCCESS, &[3, 9, 8, 7, 6]) {
        SignProgress::Done(signature) => assert_eq!(signature, vec![9, 8, 7]),
        other => panic!("unexpected progress {:?}", other),
    }
    match after_sign_chunk(true, APDU_CODE_SUCCESS, &[0]) {
        SignProgress::Done(signature) => assert!(signature.is_empty()),
        other => panic!("unexpected progress {:?}", other),
    }
    assert!(matches!(
        after_sign_chunk(false, 0x6985, &[]),
        SignProgress::Failed(LumioLedgerError::LumioError(LumioLedgerStatusCode::Deny))
    ));
    assert!(matches!(
        after_sign_chunk(true, 0xB008, &[1, 2]),
        SignProgress::Failed(LumioLedgerError::LumioError(LumioLedgerStatusCode::SignatureFail))
    ));
    assert!(signature_answer_is_complete(&[2, 1, 1]));
    assert!(!signature_answer_is_complete(&[2, 1]));
    assert!(!signature_answer_is_complete(&[]));
    match nothing_to_sign() {
        LumioLedgerError::UnexpectedError(message, None) => {
            assert_eq!(message, "Unable to process request")
        },
        other => panic!("unexpected error {:?}", other),
    }
    match transport_failure("timeout".to_string()) {
        LumioLedgerError::UnexpectedError(message, None) => assert_eq!(message, "timeout"),
        other => panic!("unexpected error {:?}", other),
    }
    assert!(matches!(
        status_failure(0x6D00),
        LumioLedgerError::LumioError(LumioLedgerStatusCode::InsNotSupported)
    ));
}
