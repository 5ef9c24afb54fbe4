use print_bridge::engineio::{
    accepted, connect_packet, describe, disconnect_packet, event, event_packet, parse, parse_socketio, pong,
    refused, split_namespace, strip_ack_id, websocket_url, Incoming, OpenPayload,
};
use print_bridge::json::Json;

fn value(text: &str) -> Json {
    Json::parse(text).expect("json")
}

#[test]
fn parses_the_open_packet_the_api_sends() {
    let frame = r#"0{"sid":"I6oMfzGZMVERukDXAAAU","upgrades":[],"pingInterval":25000,"pingTimeout":20000,"maxPayload":1000000}"#;
    match parse(frame) {
        Incoming::Open(open) => {
            assert_eq!(open.sid, "I6oMfzGZMVERukDXAAAU");
            assert_eq!(open.ping_interval, 25_000);
            assert_eq!(open.ping_timeout, 20_000);
        }
        other => panic!("expected Open, got {other:?}"),
    }
}

#[test]
fn parses_the_namespace_connect_ack() {
    assert_eq!(
        parse(r#"40/print,{"sid":"2M_9LF8A05nSMhiiAAAF"}"#),
        Incoming::Connected {
            namespace: "/print".into(),
            sid: "2M_9LF8A05nSMhiiAAAF".into()
        }
    );
}

#[test]
fn parses_the_connect_error_for_a_revoked_token() {
    assert_eq!(
        parse(r#"44/print,{"message":"Station auth error: token invalid or revoked"}"#),
        Incoming::ConnectError {
            namespace: "/print".into(),
            message: "Station auth error: token invalid or revoked".into()
        }
    );
}

#[test]
fn parses_a_print_job_event() {
    let frame = r#"42/print,["print-job",{"jobId":"abc","copies":1,"escposBase64":"G0A="}]"#;
    match parse(frame) {
        Incoming::Event {
            namespace,
            name,
            args,
        } => {
            assert_eq!(namespace, "/print");
            assert_eq!(name, "print-job");
            assert_eq!(args.len(), 1);
            let id = args[0].member("jobId").expect("jobId");
            assert_eq!(id.as_string().as_deref(), Some("abc"));
        }
        other => panic!("expected Event, got {other:?}"),
    }
}

#[test]
fn heartbeats_and_close_are_not_confused_with_messages() {
    assert_eq!(parse("2"), Incoming::Ping);
    assert_eq!(parse("3"), Incoming::Pong);
    assert_eq!(parse("1"), Incoming::Close);
    assert_eq!(
        parse("41/print,"),
        Incoming::Disconnected {
            namespace: "/print".into()
        }
    );
}

#[test]
fn an_event_carrying_an_ack_id_still_parses() {
    match parse(r#"42/print,17["print-job",{"jobId":"x"}]"#) {
        Incoming::Event { name, args, .. } => {
            assert_eq!(name, "print-job");
            let id = args[0].member("jobId").expect("jobId");
            assert_eq!(id.as_string().as_deref(), Some("x"));
        }
        other => panic!("expected Event, got {other:?}"),
    }
}

#[test]
fn a_frame_we_do_not_understand_is_ignored_not_fatal() {
    assert!(matches!(parse("46/print,[]"), Incoming::Other(_)));
    assert!(matches!(parse(""), Incoming::Other(_)));
    assert!(matches!(parse("9"), Incoming::Other(_)));
    // A truncated OPEN must not be mistaken for a good one.
    assert!(matches!(parse("0{not json"), Incoming::Other(_)));
}

#[test]
fn the_default_namespace_has_no_prefix_on_the_wire() {
    assert_eq!(
        parse(r#"42["hello",{}]"#),
        Incoming::Event {
            namespace: "/".into(),
            name: "hello".into(),
            args: vec![value("{}")]
        }
    );
}

#[test]
fn encodes_exactly_what_the_capture_shows() {
    assert_eq!(
        connect_packet("/print", &value(r#"{"stationToken": "tok"}"#)),
        r#"40/print,{"stationToken":"tok"}"#
    );
    assert_eq!(
        event_packet("/print", "print-result", &value(r#"{"jobId":"a","ok":true}"#)),
        r#"42/print,["print-result",{"jobId":"a","ok":true}]"#
    );
    assert_eq!(disconnect_packet("/print"), "41/print,");
    assert_eq!(pong(), "3");
}

#[test]
fn builds_the_websocket_url_for_either_scheme() {
    assert_eq!(
        websocket_url("http://localhost:4000"),
        "ws://localhost:4000/socket.io/?EIO=4&transport=websocket"
    );
    assert_eq!(
        websocket_url("https://api-gourmelyhub.busticco.com/"),
        "wss://api-gourmelyhub.busticco.com/socket.io/?EIO=4&transport=websocket"
    );
    // No scheme must never downgrade to plaintext: the station token is a
    // bearer credential.
    assert!(websocket_url("api.example.com").starts_with("wss://"));
}

#[test]
fn an_open_packet_has_defaults_but_not_for_a_wrong_type() {
    let open = OpenPayload::from_fields(Some("s".into()), None, None).expect("defaults");
    assert_eq!((open.ping_interval, open.ping_timeout), (25_000, 20_000));
    assert!(OpenPayload::from_fields(None, None, None).is_none());
    assert!(OpenPayload::from_fields(Some("s".into()), Some(None), None).is_none());

    assert!(matches!(parse(r#"0{"sid":"s"}"#), Incoming::Open(_)));
    assert!(matches!(parse(r#"0{"sid":"s","pingInterval":"soon"}"#), Incoming::Other(_)));
    assert!(matches!(parse(r#"0{"sid":"s","pingTimeout":-1}"#), Incoming::Other(_)));
    assert!(matches!(parse(r#"0{"pingInterval":1}"#), Incoming::Other(_)));
    match parse(r#"0["s",1,2]"#) {
        Incoming::Open(open) => assert_eq!((open.ping_interval, open.ping_timeout), (1, 2)),
        other => panic!("{other:?}"),
    }
    assert!(matches!(parse(r#"0["s",1,2,3]"#), Incoming::Other(_)));
}

#[test]
fn a_namespace_is_read_back_as_it_was_written() {
    assert_eq!(split_namespace("/print,{}"), ("/print".to_string(), "{}"));
    assert_eq!(split_namespace("/print"), ("/print".to_string(), ""));
    assert_eq!(split_namespace("[1,2]"), ("/".to_string(), "[1,2]"));
    assert_eq!(split_namespace("/a,b,c"), ("/a".to_string(), "b,c"));
    assert_eq!(strip_ack_id("17[1]"), "[1]");
    assert_eq!(strip_ack_id("[1]"), "[1]");
    assert_eq!(
        parse(&disconnect_packet("/otro")),
        Incoming::Disconnected { namespace: "/otro".into() }
    );
}

#[test]
fn an_event_packet_is_read_back_as_the_event() {
    let arg = value(r#"{"a":[1,"dos",null]}"#);
    assert_eq!(
        parse(&event_packet("/print", "ho\"la", &arg)),
        Incoming::Event {
            namespace: "/print".into(),
            name: "ho\"la".into(),
            args: vec![arg]
        }
    );
}

#[test]
fn an_ack_id_changes_nothing() {
    let plain = parse(r#"42/print,["x",1]"#);
    assert_eq!(parse(r#"42/print,9["x",1]"#), plain);
    assert_eq!(parse(r#"42/print,123456["x",1]"#), plain);
}

#[test]
fn a_refusal_without_a_message_keeps_the_payload() {
    assert_eq!(
        parse(r#"44/print,{"code":4}"#),
        Incoming::ConnectError {
            namespace: "/print".into(),
            message: r#"{"code":4}"#.into()
        }
    );
    assert_eq!(
        refused("/print".into(), None, "x"),
        Incoming::ConnectError { namespace: "/print".into(), message: "x".into() }
    );
    assert_eq!(
        accepted("/print".into(), None),
        Incoming::Connected { namespace: "/print".into(), sid: String::new() }
    );
}

#[test]
fn an_event_whose_name_is_no_string_is_named_by_its_text() {
    assert_eq!(
        parse("42[7,8]"),
        Incoming::Event { namespace: "/".into(), name: "7".into(), args: vec![value("8")] }
    );
    assert_eq!(
        event("/".into(), value("7"), None, vec![]),
        Incoming::Event { namespace: "/".into(), name: "7".into(), args: vec![] }
    );
    assert_eq!(parse("42[]"), Incoming::Other("42[]".into()));
    assert_eq!(parse("42{}"), Incoming::Other("42{}".into()));
    assert_eq!(parse_socketio("", "4"), Incoming::Other("4".into()));
}

#[test]
fn a_plain_address_is_the_only_one_that_is_dialled_in_plain() {
    assert!(websocket_url("  http://h/  ").starts_with("ws://h/socket.io/"));
    assert!(websocket_url("HTTP://h").starts_with("wss://HTTP://h"));
    assert!(websocket_url("ftp://h").starts_with("wss://ftp://h"));
    assert!(websocket_url("").starts_with("wss:///socket.io/"));
}

#[test]
fn a_frame_can_be_put_in_words() {
    assert_eq!(describe("2"), "Ping");
    assert_eq!(describe("3"), "Pong");
    assert_eq!(describe("1"), "Close");
    assert_eq!(describe("<html>\""), r#"Other("<html>\"")"#);
    assert_eq!(
        describe("41/print,"),
        r#"Disconnected { namespace: "/print" }"#
    );
    assert_eq!(
        describe(r#"40/print,{"sid":"s"}"#),
        r#"Connected { namespace: "/print", sid: "s" }"#
    );
    assert_eq!(
        describe(r#"44/print,{"message":"no"}"#),
        r#"ConnectError { namespace: "/print", message: "no" }"#
    );
    assert_eq!(
        describe(r#"42["x",1,{"a":"b"}]"#),
        r#"Event { namespace: "/", name: "x", args: [Number(1), Object {"a": String("b")}] }"#
    );
    assert_eq!(
        describe(r#"0{"sid":"s"}"#),
        r#"Open(OpenPayloadOwned { sid: "s", ping_interval: 25000, ping_timeout: 20000 })"#
    );
}

#[test]
fn an_event_is_read_back_whatever_it_carries() {
    let mut deep = Json::parse("-7").expect("json");
    for _ in 0..99 {
        deep = Json::array(&vec![deep]);
    }
    let args = vec![
        deep,
        Json::null(),
        Json::boolean(true),
        Json::number(u64::MAX),
        Json::string("a \"quote\", a [bracket and a \n"),
        Json::parse(r#"{"a":[1,{"b":null}],"ñ":"x","z":-9223372036854775808}"#).expect("json"),
    ];
    for arg in args {
        for name in ["print-result", "", "7", "x\",\"y"] {
            match parse(&event_packet("/print", name, &arg)) {
                Incoming::Event { namespace, name: read, args } => {
                    assert_eq!((namespace.as_str(), read.as_str()), ("/print", name));
                    assert_eq!(args, vec![arg.clone()]);
                }
                other => panic!("{other:?}"),
            }
        }
    }
    assert_eq!(parse(pong()), Incoming::Pong);
}

#[test]
fn an_event_with_a_reserved_key_is_put_in_words_whole() {
    assert_eq!(
        describe(r#"42/print,7["x",{"a":1,"$serde_json::private::RawValue":2},[]]"#),
        r#"Event { namespace: "/print", name: "x", args: [Object {"$serde_json::private::RawValue": Number(2), "a": Number(1)}, Array []] }"#
    );
    assert_eq!(describe(r#"42["x"]"#), r#"Event { namespace: "/", name: "x", args: [] }"#);
}

#[test]
fn an_open_packet_says_each_thing_once() {
    let open = |json: &str| OpenPayload::from_json(json).map(|o| (o.sid, o.ping_interval));
    let expected = Some(("s".to_string(), 7));
    assert_eq!(open(r#" { "sid" : "s" , "x" : [ 1e999 , { } ] , "pingInterval" : 7 } "#), expected);
    assert_eq!(open(r#"{"x":1,"x":2,"s\u0069d":"s","pingInterval":7}"#), expected);
    assert_eq!(open(r#"["s",7]"#), expected);
    for refused in [
        r#"{"sid":"s","sid":"s"}"#,
        r#"{"sid":"s","pingTimeout":1,"pingTimeout":1}"#,
        r#"{"sid":"s",}"#,
        r#"{"sid":"s"}}"#,
        r#"{"sid":"s" "x":1}"#,
        r#"{"sid" "s"}"#,
        r#"{sid:"s"}"#,
        r#"{1:2,"sid":"s"}"#,
        r#"{"sid":"s","x":tru}"#,
        r#"{"sid":"s","x":1x}"#,
        r#"{"sid":"s","\ud800":1}"#,
        r#"{"sid":"s""#,
        r#"{}"#,
        r#"{"#,
        r#"["s",{"$serde_json::private::RawValue":"7"}]"#,
    ] {
        assert!(open(refused).is_none(), "{refused}");
    }
}
