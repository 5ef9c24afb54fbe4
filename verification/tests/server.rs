use print_bridge::config::{LocalAuth, Settings, SettingsStore, ALLOWED_ORIGINS, MAX_PRINT_BYTES};
use print_bridge::error::BridgeError;
use print_bridge::instance_lock::held_by;
use print_bridge::json::Json;
use print_bridge::printer::test_ticket_bytes;
use print_bridge::relay::{RelayHandle, RelayState, RelayStatus};
use print_bridge::server::{
    error_json, guard, handle_text, health, print_decoded, printers, secret_matches, AuthQuery,
    Headers, ServerState, WsRequest, WsResponse,
};

fn headers(origin: Option<&str>) -> Headers {
    let mut h = Headers::none();
    h.origin = origin.map(|o| o.as_bytes().to_vec());
    h
}

fn state(local_auth: LocalAuth) -> ServerState {
    ServerState {
        started_at: 100,
        version: "test",
        settings: SettingsStore::in_memory(Settings {
            local_auth,
            local_secret: Some("s3cr3t".into()),
            ..Default::default()
        }),
    }
}

fn token(t: &str) -> AuthQuery {
    AuthQuery { token: Some(t.into()) }
}

#[test]
fn a_random_page_on_the_till_cannot_print() {
    let denied = guard(
        &state(LocalAuth::OriginOrSecret),
        &headers(Some("https://cupones-gratis.example")),
        &AuthQuery::default(),
    );
    assert!(denied.is_err());
    assert_eq!(
        denied,
        Err("origen no autorizado y sin token local: esta página no puede imprimir".to_string())
    );
}

#[test]
fn the_pos_keeps_printing_without_changing_a_line() {
    for origin in ALLOWED_ORIGINS {
        assert!(
            guard(
                &state(LocalAuth::OriginOrSecret),
                &headers(Some(origin)),
                &AuthQuery::default()
            )
            .is_ok(),
            "{origin} should be allowed"
        );
    }
}

#[test]
fn a_caller_with_no_origin_needs_the_secret() {
    assert!(guard(
        &state(LocalAuth::OriginOrSecret),
        &headers(None),
        &AuthQuery::default()
    )
    .is_err());
    assert!(guard(
        &state(LocalAuth::OriginOrSecret),
        &headers(None),
        &AuthQuery {
            token: Some("s3cr3t".into())
        }
    )
    .is_ok());
}

#[test]
fn secret_mode_ignores_the_origin() {
    assert!(guard(
        &state(LocalAuth::Secret),
        &headers(Some(ALLOWED_ORIGINS[0])),
        &AuthQuery::default()
    )
    .is_err());
    assert!(guard(
        &state(LocalAuth::Secret),
        &headers(Some(ALLOWED_ORIGINS[0])),
        &AuthQuery {
            token: Some("s3cr3t".into())
        }
    )
    .is_ok());
}

#[test]
fn off_is_the_old_behaviour_and_lets_everything_through() {
    assert!(guard(
        &state(LocalAuth::Off),
        &headers(Some("https://cualquier-cosa.example")),
        &AuthQuery::default()
    )
    .is_ok());
}

#[test]
fn the_secret_travels_in_three_shapes() {
    let expected = AuthQuery {
        token: Some("s3cr3t".into()),
    };
    assert!(guard(&state(LocalAuth::Secret), &headers(None), &expected).is_ok());

    let mut bearer = Headers::none();
    bearer.authorization = Some(b"Bearer s3cr3t".to_vec());
    assert!(guard(&state(LocalAuth::Secret), &bearer, &AuthQuery::default()).is_ok());

    let mut custom = Headers::none();
    custom.token = Some(b"s3cr3t".to_vec());
    assert!(guard(&state(LocalAuth::Secret), &custom, &AuthQuery::default()).is_ok());
}

#[test]
fn a_wrong_secret_is_a_wrong_secret() {
    assert!(guard(
        &state(LocalAuth::Secret),
        &headers(None),
        &AuthQuery {
            token: Some("s3cr3".into())
        }
    )
    .is_err());
    assert!(guard(
        &state(LocalAuth::Secret),
        &headers(None),
        &AuthQuery {
            token: Some("s3cr3tt".into())
        }
    )
    .is_err());
}

#[test]
fn a_native_caller_needs_the_secret_and_needs_it_right() {
    let guarded = ServerState {
        started_at: 0,
        version: "test",
        settings: SettingsStore::in_memory(Settings {
            local_auth: LocalAuth::OriginOrSecret,
            local_secret: Some("el-secreto-local".into()),
            ..Default::default()
        }),
    };
    assert!(guard(&guarded, &headers(None), &token("el-secreto-local")).is_ok());
    assert!(guard(&guarded, &headers(None), &token("casi-el-secreto")).is_err());
    assert!(guard(&guarded, &headers(None), &AuthQuery::default()).is_err());
}

#[test]
fn secrets_are_compared_byte_for_byte() {
    assert!(secret_matches("", ""));
    assert!(secret_matches("ñ", "ñ"));
    assert!(!secret_matches("abc", "abd"));
    assert!(!secret_matches("abc", "ab"));
    assert!(!secret_matches("ab", "ba"));
}

#[test]
fn an_empty_token_falls_through_to_the_next_shape() {
    let mut both = Headers::none();
    both.token = Some(Vec::new());
    both.authorization = Some(b"Bearer s3cr3t".to_vec());
    assert!(guard(&state(LocalAuth::Secret), &both, &token("")).is_ok());
    // The first shape that is there decides, even when it is wrong.
    assert!(guard(&state(LocalAuth::Secret), &both, &token("no")).is_err());

    let mut basic = Headers::none();
    basic.authorization = Some(b"Basic s3cr3t".to_vec());
    assert!(guard(&state(LocalAuth::Secret), &basic, &AuthQuery::default()).is_err());
}

#[test]
fn a_header_that_is_no_visible_text_counts_as_absent() {
    let mut odd = Headers::none();
    odd.token = Some(vec![b's', 0xff]);
    odd.authorization = Some(b"Bearer s3cr3t".to_vec());
    assert!(guard(&state(LocalAuth::Secret), &odd, &AuthQuery::default()).is_ok());
    let mut origin = headers(Some(ALLOWED_ORIGINS[0]));
    if let Some(bytes) = &mut origin.origin {
        bytes.push(0x7f);
    }
    assert!(guard(&state(LocalAuth::OriginOrSecret), &origin, &AuthQuery::default()).is_err());
}

#[test]
fn an_install_without_a_secret_cannot_be_opened_by_presenting_one() {
    let bare = ServerState {
        started_at: 0,
        version: "test",
        settings: SettingsStore::in_memory(Settings {
            local_auth: LocalAuth::Secret,
            ..Default::default()
        }),
    };
    assert_eq!(
        guard(&bare, &headers(None), &token("")),
        Err("esta impresión necesita el token local del bridge (localAuth=secret)".to_string())
    );
    assert!(guard(&bare, &headers(None), &token("x")).is_err());
}

fn member(body: &Json, key: &str) -> Json {
    body.member(key).expect(key)
}

#[test]
fn health_returns_ok_with_metadata() {
    let listed = Ok(vec!["a".to_string(), "b".to_string()]);
    let body = health(&state(LocalAuth::Off), 160, &listed, &None);
    assert_eq!(member(&body, "ok"), Json::boolean(true));
    assert_eq!(member(&body, "version").as_string().as_deref(), Some("test"));
    assert_eq!(member(&body, "uptime_seconds").as_u64(), Some(60));
    assert_eq!(member(&body, "printer_count").as_u64(), Some(2));
    let failed = health(&state(LocalAuth::Off), 0, &Err(BridgeError::Io("x".into())), &None);
    assert_eq!(member(&failed, "printer_count").as_u64(), Some(0));
    assert_eq!(member(&failed, "uptime_seconds").as_u64(), Some(0));
}

#[test]
fn a_bridge_without_a_relay_says_unknown_not_ok() {
    let body = health(&state(LocalAuth::Off), 100, &Ok(vec![]), &None);
    let relay = member(&body, "relay");
    assert_eq!(member(&relay, "state").as_string().as_deref(), Some("unknown"));
    assert_eq!(member(&relay, "ok"), Json::boolean(false));
}

#[test]
fn a_relay_standing_down_is_visible_from_the_pos() {
    let settings = Settings {
        server_url: Some("http://127.0.0.1:1".into()),
        station_token: Some("station-token-under-test".into()),
        label: Some("Caja Principal".into()),
        ..Default::default()
    };
    let mut handle = RelayHandle::new();
    handle.fail(RelayState::Standby, held_by(&None));
    let status = Some(handle.status(&settings));
    let body = health(&state(LocalAuth::Off), 100, &Ok(vec![]), &status);
    assert_eq!(member(&body, "ok"), Json::boolean(true));
    let relay = member(&body, "relay");
    assert_eq!(member(&relay, "state").as_string().as_deref(), Some("standby"));
    assert_eq!(member(&relay, "ok"), Json::boolean(false));
    assert_eq!(member(&relay, "needs_attention"), Json::boolean(true));
    assert_eq!(member(&relay, "paired"), Json::boolean(true));
    assert_eq!(member(&relay, "connected"), Json::boolean(false));
    let detail = member(&relay, "detail").as_string().unwrap_or_default();
    assert!(detail.contains("ya está abierto"), "{detail}");
}

#[test]
fn a_connected_relay_is_ok_and_asks_for_nothing() {
    let status = RelayStatus {
        state: RelayState::Connected,
        paired: true,
        connected: true,
        ..Default::default()
    };
    let body = health(&state(LocalAuth::Off), 100, &Ok(vec![]), &Some(status));
    let relay = member(&body, "relay");
    assert_eq!(member(&relay, "ok"), Json::boolean(true));
    assert_eq!(member(&relay, "needs_attention"), Json::boolean(false));
}

#[test]
fn printers_returns_array_of_names() {
    let (status, body) = printers(Ok(vec!["POS-58".into(), "Cocina".into()]));
    assert_eq!(status, 200);
    assert_eq!(body.text(), r#"{"ok":true,"printers":["POS-58","Cocina"]}"#);
    let (status, body) = printers(Err(BridgeError::SpoolerFailed("x".into())));
    assert_eq!(status, 500);
    assert_eq!(body.text(), r#"{"error":"print spooler call failed: x","ok":false}"#);
    assert_eq!(error_json("no").text(), r#"{"error":"no","ok":false}"#);
}

fn no_list() -> Result<Vec<String>, BridgeError> {
    panic!("nothing to list")
}

#[test]
fn a_list_request_lists() {
    let request = Ok(WsRequest::List { id: "1".into() });
    let answer = handle_text(
        request,
        || Ok(vec!["POS-58".to_string()]),
        |_: &str, _: &Vec<u8>| unreachable!("nothing to print"),
    );
    assert_eq!(answer.json().text(), r#"{"id":"1","ok":true,"printers":["POS-58"]}"#);
    let failed = handle_text(
        Ok(WsRequest::List { id: "1".into() }),
        || Err(BridgeError::SpoolerFailed("rpc".into())),
        |_: &str, _: &Vec<u8>| unreachable!("nothing to print"),
    );
    assert_eq!(
        failed.json().text(),
        r#"{"id":"1","ok":false,"error":"print spooler call failed: rpc"}"#
    );
}

#[test]
fn a_print_request_reaches_the_spooler_decoded() {
    let request = Ok(WsRequest::Print {
        id: "2".into(),
        printer: "POS-58".into(),
        data: "G0AaVGVzdAo=".into(),
    });
    let answer = handle_text(request, no_list, |name: &str, bytes: &Vec<u8>| {
        assert_eq!(name, "POS-58");
        assert_eq!(bytes.as_slice(), b"\x1b@\x1aTest\n");
        Ok(7)
    });
    assert_eq!(answer.json().text(), r#"{"id":"2","ok":true,"jobId":7}"#);
}

#[test]
fn a_print_request_that_is_no_base64_never_reaches_the_spooler() {
    let request = Ok(WsRequest::Print {
        id: "3".into(),
        printer: "POS-58".into(),
        data: "G0A".into(),
    });
    let answer = handle_text(request, no_list, |_: &str, _: &Vec<u8>| {
        unreachable!("nothing to print")
    });
    match answer {
        WsResponse::Failed { id, ok, error } => {
            assert_eq!((id.as_str(), ok), ("3", false));
            assert_eq!(error, "bad base64: Invalid padding");
        }
        other => panic!("{other:?}"),
    }
}

#[test]
fn a_payload_over_the_limit_never_reaches_the_spooler() {
    let answer = print_decoded(
        "4".into(),
        "POS-58".into(),
        Ok(vec![0u8; MAX_PRINT_BYTES + 1]),
        |_: &str, _: &Vec<u8>| unreachable!("nothing to print"),
    );
    assert_eq!(
        answer.json().text(),
        r#"{"id":"4","ok":false,"error":"payload 1048577 > max 1048576"}"#
    );
    let largest = print_decoded(
        "5".into(),
        "POS-58".into(),
        Ok(vec![0u8; MAX_PRINT_BYTES]),
        |_: &str, bytes: &Vec<u8>| {
            assert_eq!(bytes.len(), MAX_PRINT_BYTES);
            Ok(0)
        },
    );
    assert_eq!(largest.json().text(), r#"{"id":"5","ok":true,"jobId":0}"#);
}

#[test]
fn a_test_request_prints_the_test_ticket() {
    let request = Ok(WsRequest::Test { id: "6".into(), printer: "POS-58".into() });
    let answer = handle_text(request, no_list, |name: &str, bytes: &Vec<u8>| {
        assert_eq!(name, "POS-58");
        assert_eq!(*bytes, test_ticket_bytes());
        Err(BridgeError::PrinterNotFound("POS-58".into()))
    });
    assert_eq!(
        answer.json().text(),
        r#"{"id":"6","ok":false,"error":"printer 'POS-58' not found on this system"}"#
    );
}

#[test]
fn what_is_no_request_is_answered_without_an_id() {
    let answer = handle_text(
        Err("EOF while parsing".to_string()),
        no_list,
        |_: &str, _: &Vec<u8>| unreachable!("nothing to print"),
    );
    assert_eq!(
        answer.json().text(),
        r#"{"id":"","ok":false,"error":"invalid json: EOF while parsing"}"#
    );
    assert_eq!(
        WsResponse::binary_refused().json().text(),
        r#"{"id":"","ok":false,"error":"binary frames not supported; send JSON text"}"#
    );
}
