use print_bridge::config::{
    chosen_printer, generate_secret, secret_from_bytes, LocalAuth, Settings, SettingsStore,
    DEFAULT_SERVER_URL,
};
use print_bridge::error::BridgeError;

#[test]
fn server_url_falls_back_and_trims() {
    let mut s = Settings::default();
    assert_eq!(s.server_url(), DEFAULT_SERVER_URL);
    s.server_url = Some("  https://api.example.com/  ".into());
    assert_eq!(s.server_url(), "https://api.example.com");
    s.server_url = Some("   ".into());
    assert_eq!(s.server_url(), DEFAULT_SERVER_URL);
}

#[test]
fn local_auth_defaults_to_the_safe_value() {
    // A fresh install is not permissive.
    assert_eq!(Settings::default().local_auth, LocalAuth::OriginOrSecret);
}

#[test]
fn generated_secrets_are_unique_and_long() {
    let a = generate_secret().expect("csprng");
    let b = generate_secret().expect("csprng");
    assert_ne!(a, b);
    assert!(a.len() >= 40, "32 bytes base64url should be 43 chars");
}

#[test]
fn a_secret_is_the_base64url_of_its_bytes() {
    let mut bytes = [0u8; 32];
    bytes[0] = 0xfb;
    bytes[1] = 0xff;
    let secret = secret_from_bytes(Ok(bytes)).expect("secret");
    assert_eq!(secret.len(), 43);
    // 0xfbff.. needs both characters that differ from the standard alphabet.
    assert!(secret.starts_with("-_8AAAA"), "{secret}");
    let zeros = secret_from_bytes(Ok([0u8; 32])).expect("secret");
    assert_eq!(zeros, "A".repeat(43));
}

#[test]
fn a_generator_that_fails_is_not_papered_over() {
    match secret_from_bytes(Err("no entropy".to_string())) {
        Err(BridgeError::Config(m)) => {
            assert_eq!(m, "el CSPRNG del sistema falló: no entropy")
        }
        other => panic!("{other:?}"),
    }
}

#[test]
fn trailing_slashes_are_gone_however_many_there_were() {
    let s = Settings {
        server_url: Some("\thttps://api.example.com///\n".into()),
        ..Settings::default()
    };
    assert_eq!(s.server_url(), "https://api.example.com");
}

#[test]
fn a_store_that_loads_without_a_secret_makes_and_saves_one() {
    let mut saved = String::new();
    let store = SettingsStore::load(&None, |file: &str| {
        saved = file.to_string();
        Ok(())
    });
    let secret = store.snapshot().local_secret.expect("a secret");
    assert_eq!(secret.len(), 43);
    assert!(saved.contains(&format!("\"localSecret\": \"{secret}\"")), "{saved}");
    assert!(!store.snapshot().is_paired());

    // The next boot finds it and has nothing to write.
    let again = SettingsStore::load(&Some(saved.into_bytes()), |_: &str| {
        unreachable!("nothing to save")
    });
    assert_eq!(again.snapshot().local_secret, Some(secret));
}

#[test]
fn a_secret_that_cannot_be_saved_is_kept_in_memory() {
    let store = SettingsStore::load(&None, |_: &str| Err(BridgeError::Io("disk".into())));
    assert!(store.snapshot().local_secret.is_some());
    let without = SettingsStore::load_with(
        Settings::default(),
        Err(BridgeError::Config("x".into())),
        |_: &str| unreachable!("nothing to save"),
    );
    assert!(without.snapshot().local_secret.is_none());
}

#[test]
fn a_secret_that_exists_is_left_alone() {
    let found = Settings {
        local_secret: Some("s3cr3t".into()),
        station_token: Some("tok".into()),
        ..Settings::default()
    };
    let store = SettingsStore::load(&Some(found.text().into_bytes()), |_: &str| {
        unreachable!("nothing to save")
    });
    let snapshot = store.snapshot();
    assert_eq!(snapshot.local_secret.as_deref(), Some("s3cr3t"));
    assert!(snapshot.is_paired());
}

#[test]
fn an_update_counts_only_once_it_is_on_disk() {
    let mut store = SettingsStore::load(&None, |_: &str| Ok(()));
    let rename = |mut s: Settings| {
        s.label = Some("Caja".into());
        s
    };
    match store.update(rename, |_: &str| Err(BridgeError::Io("disk full".into()))) {
        Err(BridgeError::Io(m)) => assert_eq!(m, "disk full"),
        other => panic!("{other:?}"),
    }
    assert!(store.snapshot().label.is_none());

    let next = store.update(rename, |_: &str| Ok(())).expect("update");
    assert_eq!(next.label.as_deref(), Some("Caja"));
    assert_eq!(store.snapshot().label.as_deref(), Some("Caja"));
}

#[test]
fn a_store_in_memory_never_touches_the_disk() {
    let mut store = SettingsStore::in_memory(Settings::default());
    let next = store
        .update(
            |mut s: Settings| {
                s.label = Some("Caja".into());
                s
            },
            |_: &str| unreachable!("nothing is written"),
        )
        .expect("update");
    assert_eq!(next.label.as_deref(), Some("Caja"));
    assert_eq!(store.snapshot().label.as_deref(), Some("Caja"));
}

#[test]
fn a_file_with_an_odd_member_keeps_its_token() {
    for odd in [r#""$serde_json::private::RawValue":"1""#, r#""future":1e999"#] {
        let file = format!("{{{odd},\"stationToken\":\"tok\",\"roles\":[\"a\"]}}");
        let parsed = Settings::parse(&file).expect("parse");
        assert_eq!(parsed.station_token.as_deref(), Some("tok"));
        assert_eq!(parsed.roles, vec!["a".to_string()]);
    }
}

#[test]
fn a_blank_printer_is_no_choice() {
    assert_eq!(chosen_printer(Some("  ".into())), None);
    assert_eq!(chosen_printer(None), None);
    assert_eq!(chosen_printer(Some(" POS-58 ".into())), Some(" POS-58 ".to_string()));
}

#[test]
fn unknown_fields_do_not_wipe_the_station_token() {
    // A config written by a newer bridge must still load on an older one.
    let json = r#"{"stationToken":"tok","somethingFromTheFuture":42}"#;
    let parsed = Settings::parse(json).expect("parse");
    assert_eq!(parsed.station_token.as_deref(), Some("tok"));
    assert!(parsed.is_paired());
}

#[test]
fn the_file_has_the_shape_it_always_had() {
    let settings = Settings {
        server_url: Some("https://h".into()),
        label: Some("Caja \"1\"".into()),
        roles: vec!["receipt".into(), "kitchen".into()],
        local_auth: LocalAuth::Secret,
        ..Settings::default()
    };
    let file = settings.text();
    assert_eq!(
        file,
        r#"{
  "serverUrl": "https://h",
  "stationToken": null,
  "stationId": null,
  "tenantId": null,
  "branchId": null,
  "label": "Caja \"1\"",
  "roles": [
    "receipt",
    "kitchen"
  ],
  "defaultPrinter": null,
  "localAuth": "secret",
  "localSecret": null
}"#
    );
    assert!(Settings::default().text().contains("\"roles\": [],\n"));
    let back = Settings::parse(&file).expect("read back");
    assert_eq!(back.label, settings.label);
    assert_eq!(back.roles, settings.roles);
    assert_eq!(back.local_auth, LocalAuth::Secret);
    assert_eq!(back.text(), file);
}

#[test]
fn a_file_of_another_shape_is_no_settings() {
    assert!(Settings::parse("").is_none());
    assert!(Settings::parse("5").is_none());
    assert!(Settings::parse(r#"{"roles":null}"#).is_none());
    assert!(Settings::parse(r#"{"roles":["a",1]}"#).is_none());
    assert!(Settings::parse(r#"{"localAuth":"open"}"#).is_none());
    assert!(Settings::parse(r#"{"label":7}"#).is_none());
    let bare = Settings::parse("{}").expect("all of it may be absent");
    assert_eq!(bare.text(), Settings::default().text());
    let listed = Settings::parse(r#"["https://h",null,"st"]"#).expect("array form");
    assert_eq!(listed.station_id.as_deref(), Some("st"));
    assert!(Settings::parse("[1,2,3,4,5,6,7,8,9,10,11]").is_none());
    assert_eq!(LocalAuth::named("off"), Some(LocalAuth::Off));
}

#[test]
fn a_corrupt_file_never_stops_the_bridge() {
    for file in [b"{ not json".to_vec(), vec![0xff, 0xfe], Vec::new()] {
        let store = SettingsStore::load(&Some(file), |_: &str| Ok(()));
        assert_eq!(store.snapshot().server_url(), DEFAULT_SERVER_URL);
        assert_eq!(store.snapshot().local_auth, LocalAuth::OriginOrSecret);
        assert!(store.snapshot().local_secret.is_some());
    }
}

#[test]
fn a_file_that_repeats_a_setting_is_no_settings() {
    assert!(Settings::parse(r#"{"stationToken":"a","stationToken":"b"}"#).is_none());
    let parsed = Settings::parse(r#"{"x":1,"stationToken":"a","x":2}"#).expect("parse");
    assert_eq!(parsed.station_token.as_deref(), Some("a"));
}

#[test]
fn a_mode_may_be_written_as_an_object() {
    let mode = |json: &str| Settings::parse(json).map(|s| s.local_auth);
    assert_eq!(mode(r#"{"localAuth":{"off":null}}"#), Some(LocalAuth::Off));
    assert_eq!(mode(r#"{"localAuth":{"origin-or-secret":null}}"#), Some(LocalAuth::OriginOrSecret));
    assert_eq!(
        mode(r#"[null,null,null,null,null,null,[],null,{ "secret" : null }]"#),
        Some(LocalAuth::Secret)
    );
    assert_eq!(mode(r#"{"localAuth":{"off":{}}}"#), None);
    assert_eq!(mode(r#"{"localAuth":{"off":null,"off":null}}"#), None);
}

#[test]
fn what_is_passed_over_need_not_be_text() {
    let file = |key: &[u8], value: &[u8]| -> Vec<u8> {
        [b"{\"stationToken\":\"tok\",\"".as_slice(), key, b"\":\"", value, b"\"}"].concat()
    };
    let token = |file: Vec<u8>| Settings::parse_file(&file).and_then(|s| s.station_token);
    assert_eq!(token(file(b"future", b"\xff")).as_deref(), Some("tok"));
    assert_eq!(token(file(b"label", b"\xff")), None);
    assert_eq!(token(file(b"\xff", b"")), None);
    let store = SettingsStore::load(&Some(file(b"future", b"\xff")), |_: &str| Ok(()));
    assert!(store.snapshot().is_paired());
}

#[test]
fn an_element_is_read_as_it_stands() {
    assert!(Settings::parse(r#"[{"$serde_json::private::RawValue":"\"u\""}]"#).is_none());
    assert!(Settings::parse(r#"{"roles":[{"$serde_json::private::RawValue":"\"a\""}]}"#).is_none());
    let listed = Settings::parse("[ \"u\" , null ]").expect("array form");
    assert_eq!(listed.server_url.as_deref(), Some("u"));
}
