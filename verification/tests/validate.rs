use validate_pgp_server::text::str_contains;
use validate_pgp_server::validate::{
    split_client_msg, ProtocolError, ValidationHelper, ValidationHelperRoutines, CLIENT_HEADER,
    END_OF_PGP_MSG, START_OF_PGP_MSG,
};

fn helper() -> ValidationHelper {
    ValidationHelper::new("10.0.0.1:5555", CLIENT_HEADER, START_OF_PGP_MSG, END_OF_PGP_MSG).unwrap()
}

#[test]
fn new_helper_holds_tokens() {
    let h = helper();
    assert_eq!(h.client_header, "PGP_CHK_REQ");
    assert_eq!(h.start_of_pgp_msg, "-----BEGIN PGP MESSAGE-----");
    assert_eq!(h.end_of_pgp_msg, "-----END PGP MESSAGE-----");
    assert_eq!(h.peer_address, "10.0.0.1:5555");
    assert!(h.outbox.is_empty());
    assert_eq!(h.describe(), "(PGP_CHK_REQ)");
}

#[test]
fn parse_splits_header_and_data() {
    let mut h = helper();
    let msg = b"PGP_CHK_REQ;-----BEGIN PGP MESSAGE-----\nabc\n-----END PGP MESSAGE-----\r\n\r\n";
    let (hdr, data) = h.parse_client_msg(msg).unwrap();
    assert_eq!(hdr, "PGP_CHK_REQ");
    assert_eq!(data, "-----BEGIN PGP MESSAGE-----\nabc\n-----END PGP MESSAGE-----");
    assert!(h.validate_client_header(&hdr));
    assert!(h.validate_stream_data(&data));
    assert!(h.outbox.is_empty());
}

#[test]
fn parse_takes_second_field_and_trims_all_terminators() {
    let mut h = helper();
    let (hdr, data) = h.parse_client_msg(b"a;b\r\n\r\n\r\n\r\n;c;d").unwrap();
    assert_eq!(hdr, "a");
    assert_eq!(data, "b");
    let (hdr, data) = h.parse_client_msg(b"x;\r\n\r\n").unwrap();
    assert_eq!(hdr, "x");
    assert_eq!(data, "");
    let (hdr, data) = h.parse_client_msg(b";y\r\n").unwrap();
    assert_eq!(hdr, "");
    assert_eq!(data, "y\r\n");
}

#[test]
fn parse_without_separator_is_an_error() {
    let mut h = helper();
    assert_eq!(h.parse_client_msg(b"PGP_CHK_REQ only"), Err(ProtocolError::MissingSeparator));
    assert_eq!(h.parse_client_msg(b""), Err(ProtocolError::MissingSeparator));
}

#[test]
fn parse_replaces_invalid_utf8() {
    let mut h = helper();
    let (hdr, data) = h.parse_client_msg(&[0x48, 0xff, b';', 0xc3, 0xa9]).unwrap();
    assert_eq!(hdr, "H\u{FFFD}");
    assert_eq!(data, "\u{e9}");
}

#[test]
fn split_client_msg_on_text() {
    let (hdr, data) = split_client_msg("hdr;payload\r\n\r\n");
    assert_eq!(hdr, "hdr");
    assert_eq!(data, "payload");
}

#[test]
fn header_and_stream_checks() {
    let mut h = helper();
    assert!(h.validate_client_header(&"xxPGP_CHK_REQyy".to_string()));
    assert!(!h.validate_client_header(&"PGP_CHK".to_string()));
    assert!(!h.validate_stream_data(&"-----BEGIN PGP MESSAGE----- only".to_string()));
    assert!(!h.validate_stream_data(&"-----END PGP MESSAGE-----".to_string()));
    assert!(h.validate_stream_data(&"-----END PGP MESSAGE----------BEGIN PGP MESSAGE-----".to_string()));
}

#[test]
fn substring_search() {
    assert!(str_contains("abc", ""));
    assert!(str_contains("abc", "bc"));
    assert!(!str_contains("abc", "abcd"));
    assert!(!str_contains("", "a"));
}

#[test]
fn accepted_document_is_echoed_compactly() {
    let mut h = helper();
    let doc = br#"{ "org": "acme", "license": { "org_key": "k1", "client_key": "k2" } }"#.to_vec();
    assert!(h.validate_decrypted_data(doc));
    assert_eq!(
        String::from_utf8(h.outbox.clone()).unwrap(),
        r#"{"license":{"client_key":"k2","org_key":"k1"},"org":"acme"}"#
    );
}

#[test]
fn document_missing_a_key_is_refused() {
    let mut h = helper();
    let doc = br#"{ "org": "acme", "license": { "org_key": "k1" } }"#.to_vec();
    assert!(!h.validate_decrypted_data(doc));
    assert_eq!(h.outbox, b"unknown request\r\n\r\n".to_vec());
}

#[test]
fn non_json_and_null_get_no_reply() {
    let mut h = helper();
    assert!(!h.validate_decrypted_data(b"not json".to_vec()));
    assert!(!h.validate_decrypted_data(b"null".to_vec()));
    assert!(h.outbox.is_empty());
}

#[test]
fn send_ok_and_fail_queue_bytes() {
    let mut h = helper();
    assert!(h.send_client_ok(b"hi"));
    h.send_client_fail();
    h.exit(&"bye".to_string());
    assert_eq!(h.outbox, b"hiunknown request\r\n\r\n".to_vec());
}

#[test]
fn only_key_presence_counts() {
    let mut h = helper();
    let doc = br#"{"org": null, "license": {"org_key": 0, "client_key": [], "extra": 1}, "x": {}}"#.to_vec();
    assert!(h.validate_decrypted_data(doc));
}

#[test]
fn non_json_is_logged_with_peer_address() {
    let mut h = helper();
    assert!(!h.validate_decrypted_data(b"{oops".to_vec()));
    assert_eq!(h.log.len(), 1);
    let parser_message = serde_json::from_slice::<serde_json::Value>(b"{oops")
        .unwrap_err()
        .to_string();
    assert_eq!(
        h.log[0],
        format!("10.0.0.1:5555 Error: json transform '{}'", parser_message)
    );
    assert!(!h.validate_decrypted_data(b"null".to_vec()));
    assert_eq!(h.log.len(), 1);
}

#[test]
fn request_steps() {
    let mut h = helper();
    assert!(!h.check_request(&"BAD".to_string(), &"-----BEGIN PGP MESSAGE----------END PGP MESSAGE-----".to_string()));
    assert_eq!(h.outbox, b"unknown request\r\n\r\n".to_vec());
    let mut h = helper();
    assert!(h.check_request(
        &"PGP_CHK_REQ".to_string(),
        &"-----BEGIN PGP MESSAGE-----\nx\n-----END PGP MESSAGE-----".to_string()
    ));
    assert!(h.outbox.is_empty());
    assert!(!h.answer_decrypted(None));
    assert_eq!(h.outbox, b"unknown request\r\n\r\n".to_vec());
    let mut h = helper();
    assert!(h.answer_decrypted(Some(br#"{"org":1,"license":{"org_key":2,"client_key":3}}"#.to_vec())));
    assert_eq!(h.outbox, br#"{"license":{"client_key":3,"org_key":2},"org":1}"#.to_vec());
}
