use print_bridge::error::BridgeError;
use print_bridge::json::{elements_of, Json};
use print_bridge::text;

#[test]
fn a_value_is_kept_as_its_compact_text() {
    let v = Json::parse(" { \"b\" : [ 1 , null ] , \"a\" : \"x\" } ").expect("json");
    assert_eq!(v.text(), r#"{"a":"x","b":[1,null]}"#);
    assert!(Json::parse("{").is_none());
    assert_eq!(v.member("a").and_then(|m| m.as_string()).as_deref(), Some("x"));
    assert!(v.member("c").is_none());
    let items = v.member("b").and_then(|m| m.elements()).expect("elements");
    assert_eq!(items.len(), 2);
    assert_eq!(items[0].as_u64(), Some(1));
    assert_eq!(items[1], Json::null());
    assert!(items[1].as_string().is_none());
    assert!(items[1].as_u64().is_none());
    assert!(v.elements().is_none());
    assert!(elements_of("nope").is_none());
}

#[test]
fn strings_are_escaped_and_read_back() {
    let odd = "quote \" slash \\ line\nbell\u{7} ñ ☃";
    let v = Json::string(odd);
    assert_eq!(v.text(), "\"quote \\\" slash \\\\ line\\nbell\\u0007 ñ ☃\"");
    assert_eq!(v.as_string().as_deref(), Some(odd));
    assert_eq!(Json::string("plain").text(), "\"plain\"");
    assert_eq!(Json::string_or_null(&None).text(), "null");
    assert_eq!(Json::string_or_null(&Some("x".into())).text(), "\"x\"");
}

#[test]
fn values_are_built_member_by_member() {
    let members = vec![
        ("n".to_string(), Json::number(42)),
        ("t".to_string(), Json::boolean(true)),
        ("f".to_string(), Json::boolean(false)),
        ("l".to_string(), Json::array(&vec![Json::number(1), Json::string("a")])),
        ("e".to_string(), Json::array(&vec![])),
    ];
    assert_eq!(
        Json::object(&members).text(),
        r#"{"n":42,"t":true,"f":false,"l":[1,"a"],"e":[]}"#
    );
    assert_eq!(Json::object(&vec![]).text(), "{}");
}

#[test]
fn numbers_are_written_in_decimal() {
    assert_eq!(text::number(0), "0");
    assert_eq!(text::number(10), "10");
    assert_eq!(text::number(u64::MAX), "18446744073709551615");
}

#[test]
fn bytes_that_are_no_text_are_told_apart() {
    assert_eq!(text::decoded(&"señal".as_bytes().to_vec()).as_deref(), Some("señal"));
    assert_eq!(text::decoded(&vec![0xff, 0xfe]), None);
}

#[test]
fn every_error_has_its_sentence() {
    let cases = vec![
        (
            BridgeError::PrinterNotFound("POS".into()),
            "printer 'POS' not found on this system",
        ),
        (BridgeError::SpoolerFailed("x".into()), "print spooler call failed: x"),
        (BridgeError::BadRequest("x".into()), "invalid request: x"),
        (
            BridgeError::PayloadTooLarge(12, 10),
            "payload exceeds limit (12 bytes, max 10)",
        ),
        (BridgeError::Base64("x".into()), "base64 decode failed: x"),
        (BridgeError::Io("x".into()), "i/o error: x"),
        (BridgeError::Tls("x".into()), "tls configuration: x"),
        (BridgeError::Config("x".into()), "configuración: x"),
        (BridgeError::Pairing("x".into()), "x"),
        (BridgeError::Relay("x".into()), "relay: x"),
        (BridgeError::AlreadyRunning("x".into()), "x"),
    ];
    for (error, sentence) in cases {
        assert_eq!(error.message(), sentence);
    }
}
