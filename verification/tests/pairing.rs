use print_bridge::config::{LocalAuth, Settings, SettingsStore, DEFAULT_SERVER_URL};
use print_bridge::error::BridgeError;
use print_bridge::pairing::{
    begin_pair, clean_code, forget, normalize_code, pair, pair_request, pairing_url, plan_pairing,
    PairReply, PairResult,
};

fn result() -> PairResult {
    PairResult {
        station_token: "tok".into(),
        station_id: "st".into(),
        tenant_id: "te".into(),
        branch_id: "br".into(),
        label: "Caja Principal".into(),
        roles: vec!["receipt".into(), "kitchen".into()],
    }
}

fn granted() -> PairReply {
    PairReply::Envelope { status: 200, success: true, data: Some(result()), message: None }
}

/// A store with a file that holds these settings.
fn on_disk(settings: Settings) -> SettingsStore {
    SettingsStore::load(&Some(settings.text().into_bytes()), |_: &str| Ok(()))
}

fn pairing_message(reply: PairReply) -> String {
    let mut store = on_disk(Settings::default());
    let refused = pair(&mut store, "https://h", reply, |_: &str| {
        unreachable!("nothing may be written")
    });
    assert!(!store.snapshot().is_paired());
    match refused {
        Err(BridgeError::Pairing(m)) => m,
        other => panic!("{other:?}"),
    }
}

#[test]
fn normalises_what_a_human_types() {
    assert_eq!(normalize_code("fjtx-35ah"), "FJTX-35AH");
    assert_eq!(normalize_code("FJTX35AH"), "FJTX-35AH");
    assert_eq!(normalize_code(" fjtx 35 ah "), "FJTX-35AH");
    assert_eq!(normalize_code("FJTX–35AH"), "FJTX-35AH"); // en dash
}

#[test]
fn leaves_a_wrong_length_alone_instead_of_inventing_a_dash() {
    assert_eq!(normalize_code("FJTX"), "FJTX");
    assert_eq!(normalize_code("FJTX-35AHZZ"), "FJTX35AHZZ");
}

#[test]
fn an_incomplete_code_never_reaches_the_server() {
    let err = begin_pair("http://127.0.0.1:1", "AB").expect_err("should refuse");
    assert!(matches!(err, BridgeError::Pairing(_)));
    assert!(err.message().contains("8 caracteres"));
}

#[test]
fn normalising_twice_changes_nothing() {
    for raw in ["fjtx-35ah", "FJTX", "", "ñandú 12", "a-b-c-d-e-f-g-h", "straße12"] {
        let once = normalize_code(raw);
        assert_eq!(normalize_code(&once), once, "{raw}");
        assert_eq!(clean_code(&once), once, "{raw}");
    }
    // A letter that becomes two in upper case.
    assert_eq!(normalize_code("straße1"), "STRA-SSE1");
}

#[test]
fn separators_and_letter_case_make_no_difference() {
    for separator in [' ', '-', '.', '_', '/', '\t', '~', '#', '–', '—', '·', '字'] {
        for at in 0..=8 {
            let mut raw = "FJTX35AH".to_string();
            raw.insert(at, separator);
            assert_eq!(normalize_code(&raw), "FJTX-35AH", "{raw}");
            assert_eq!(normalize_code(&raw.to_ascii_lowercase()), "FJTX-35AH", "{raw}");
        }
    }
}

#[test]
fn a_store_in_memory_is_paired_and_forgotten_without_a_write() {
    let mut store = SettingsStore::in_memory(Settings::default());
    pair(&mut store, "https://h", granted(), |_: &str| unreachable!("nothing is written"))
        .expect("paired");
    assert!(store.snapshot().is_paired());
    forget(&mut store, |_: &str| unreachable!("nothing is written")).expect("forgotten");
    assert!(!store.snapshot().is_paired());
}

#[test]
fn the_request_goes_to_the_address_without_its_slashes() {
    let plan = begin_pair(" https://api.example.com// ", "fjtx35ah").expect("plan");
    assert_eq!(plan.base, "https://api.example.com");
    assert_eq!(plan.url, "https://api.example.com/v1/print-relay/pair");
    assert_eq!(plan.code, "FJTX-35AH");
    let missing = plan_pairing(" / ", "FJTX-35AH".into()).expect_err("no server");
    assert_eq!(missing.message(), "Falta la dirección del servidor de GourmelyHub.");
    assert!(plan_pairing("https://h", "ABCD".into()).is_ok());
    assert!(plan_pairing("https://h", "ABC".into()).is_err());
}

#[test]
fn the_request_carries_what_the_server_shows() {
    assert_eq!(
        pair_request("FJTX-35AH", "linux x86_64", "caja", "1.0", &vec!["POS".to_string()]).text(),
        r#"{"code":"FJTX-35AH","machineInfo":{"os":"linux x86_64","hostname":"caja","bridgeVersion":"1.0","printers":["POS"]}}"#
    );
}

#[test]
fn a_typed_address_wins_over_the_settings() {
    let settings = Settings { server_url: Some("https://s".into()), ..Settings::default() };
    assert_eq!(pairing_url(Some(" https://t/ ".into()), &settings), "https://t");
    assert_eq!(pairing_url(Some(" / ".into()), &settings), "https://s");
    assert_eq!(pairing_url(None, &settings), "https://s");
    assert_eq!(pairing_url(None, &Settings::default()), DEFAULT_SERVER_URL);
}

#[test]
fn a_pairing_is_remembered_whole() {
    let mut store = on_disk(Settings {
        default_printer: Some("POS".into()),
        local_auth: LocalAuth::Secret,
        ..Settings::default()
    });
    let mut saved = false;
    let got = pair(&mut store, "https://h", granted(), |file: &str| {
        saved = file.contains("\"stationToken\": \"tok\"");
        Ok(())
    })
    .expect("paired");
    assert!(saved);
    assert_eq!(got.station_id, "st");
    let s = store.snapshot();
    assert_eq!(s.server_url.as_deref(), Some("https://h"));
    assert_eq!(s.station_token.as_deref(), Some("tok"));
    assert_eq!(s.tenant_id.as_deref(), Some("te"));
    assert_eq!(s.branch_id.as_deref(), Some("br"));
    assert_eq!(s.label.as_deref(), Some("Caja Principal"));
    assert_eq!(s.roles, vec!["receipt".to_string(), "kitchen".to_string()]);
    assert_eq!(s.default_printer.as_deref(), Some("POS"));
    assert_eq!(s.local_auth, LocalAuth::Secret);
}

#[test]
fn a_pairing_that_cannot_be_written_is_a_hard_error() {
    let mut store = on_disk(Settings::default());
    let refused = pair(&mut store, "https://h", granted(), |_: &str| {
        Err(BridgeError::Io("disk full".into()))
    });
    assert!(matches!(refused, Err(BridgeError::Io(_))));
    assert!(!store.snapshot().is_paired());
}

#[test]
fn every_refusal_has_its_sentence() {
    assert_eq!(
        pairing_message(PairReply::NotPrepared("x".into())),
        "no se pudo preparar la conexión: x"
    );
    assert_eq!(
        pairing_message(PairReply::Unreachable("x".into())),
        "No se pudo contactar a https://h. Revisa la conexión a internet. (x)"
    );
    assert_eq!(
        pairing_message(PairReply::Unreadable("x".into())),
        "respuesta ilegible del servidor: x"
    );
    assert_eq!(
        pairing_message(PairReply::Foreign { status: 502 }),
        "El servidor respondió algo que no es de GourmelyHub (HTTP 502). \
         Comprueba la dirección del servidor."
    );
    assert_eq!(
        pairing_message(PairReply::Envelope {
            status: 404,
            success: false,
            data: None,
            message: Some("Código caducado".into())
        }),
        "Código caducado"
    );
    assert_eq!(
        pairing_message(PairReply::Envelope {
            status: 200,
            success: true,
            data: None,
            message: None
        }),
        "La vinculación falló (HTTP 200)."
    );
    assert_eq!(
        pairing_message(PairReply::Envelope {
            status: 409,
            success: false,
            data: Some(result()),
            message: None
        }),
        "La vinculación falló (HTTP 409)."
    );
}

#[test]
fn forgetting_undoes_a_pairing() {
    let mut store = on_disk(Settings {
        local_secret: Some("s3cr3t".into()),
        ..Settings::default()
    });
    pair(&mut store, "https://h", granted(), |_: &str| Ok(())).expect("paired");
    assert!(forget(&mut store, |_: &str| Err(BridgeError::Io("x".into()))).is_err());
    assert!(store.snapshot().is_paired());
    forget(&mut store, |_: &str| Ok(())).expect("forgotten");
    let s = store.snapshot();
    assert!(!s.is_paired());
    assert!(s.station_id.is_none() && s.tenant_id.is_none() && s.branch_id.is_none());
    assert!(s.label.is_none() && s.roles.is_empty());
    assert_eq!(s.local_secret.as_deref(), Some("s3cr3t"));
    assert_eq!(s.server_url.as_deref(), Some("https://h"));
}

#[test]
fn an_answer_is_read_from_its_body() {
    let body = r#"{"success":true,"data":{"stationToken":"tok","stationId":"st","tenantId":"te","branchId":"br","label":"Caja","extra":1}}"#;
    match PairReply::read(200, body) {
        PairReply::Envelope { status, success, data, message } => {
            assert_eq!((status, success), (200, true));
            let data = data.expect("data");
            assert_eq!(data.station_token, "tok");
            assert_eq!(data.label, "Caja");
            assert!(data.roles.is_empty());
            assert!(message.is_none());
        }
        other => panic!("{other:?}"),
    }
    let refused = r#"{"success":false,"error":{"code":"EXPIRED","message":"Código caducado"}}"#;
    match PairReply::read(404, refused) {
        PairReply::Envelope { success, data, message, .. } => {
            assert!(!success && data.is_none());
            assert_eq!(message.as_deref(), Some("Código caducado"));
        }
        other => panic!("{other:?}"),
    }
    match PairReply::read(500, "{}") {
        PairReply::Envelope { success, data, message, .. } => {
            assert!(!success && data.is_none() && message.is_none());
        }
        other => panic!("{other:?}"),
    }
}

#[test]
fn a_body_that_is_no_envelope_came_from_somebody_else() {
    for body in [
        "<html>login</html>",
        "",
        "5",
        "[]",
        r#"{"success":"yes"}"#,
        r#"{"success":true,"data":{"stationToken":"tok"}}"#,
        r#"{"success":false,"error":"no"}"#,
        r#"{"success":false,"error":{"message":7}}"#,
    ] {
        assert!(
            matches!(PairReply::read(502, body), PairReply::Foreign { status: 502 }),
            "{body}"
        );
    }
    assert!(matches!(
        PairReply::read(200, r#"[true,["t","s","e","b","l"],null]"#),
        PairReply::Envelope { data: Some(_), .. }
    ));
    assert!(PairResult::from_fields(None, None, None, None, None, None).is_none());
    assert!(matches!(
        PairReply::from_fields(200, Some(None), Some(None), Some(None)),
        PairReply::Foreign { status: 200 }
    ));
}

#[test]
fn a_separator_makes_no_difference_to_a_code_in_upper_case() {
    for separator in ['–', '—', ' ', 'ñ', 'x', '字'] {
        for text in ["FJTX35AH", "ÑFJTX35AHß", "字"] {
            let n = text.chars().count();
            for at in 0..=n {
                let mut chars: Vec<char> = text.chars().collect();
                chars.insert(at, separator);
                let with: String = chars.into_iter().collect();
                assert_eq!(clean_code(&with), clean_code(text), "{with}");
            }
        }
    }
}

#[test]
fn an_answer_says_each_thing_once() {
    for body in [
        r#"{"success":true,"success":true}"#,
        r#"{"success":false,"error":{"code":"a","code":"a"}}"#,
        r#"{"success":true,"data":{"stationToken":"a","stationToken":"a","stationId":"s","tenantId":"e","branchId":"b","label":"l"}}"#,
    ] {
        assert!(matches!(PairReply::read(200, body), PairReply::Foreign { .. }), "{body}");
    }
    // What nobody reads is not looked into.
    let body = r#"[true,{"stationToken":"t","stationId":"s","tenantId":"e","branchId":"b","label":"l","x":1e999},null]"#;
    assert!(matches!(PairReply::read(200, body), PairReply::Envelope { data: Some(_), .. }));
}
