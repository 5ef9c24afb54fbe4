use std::cell::RefCell;
use std::time::Duration;

use print_bridge::config::{Settings, MAX_PRINT_BYTES};
use print_bridge::error::{BridgeError, BridgeResult};
use print_bridge::instance_lock::held_by;
use print_bridge::job_ledger::JobLedger;
use print_bridge::json::Json;
use print_bridge::relay::connection::{Action, Arrival, Connection, Ended, Phase};
use print_bridge::relay::supervisor::{LedgerStep, LedgerWait, Next, Supervisor};
use print_bridge::relay::worker::{
    ack_frame, deliver, delivery, hello_frame, print_copies, printers_or_last_known, target, PrintWorker,
    PrinterBeat, Taken,
};
use print_bridge::relay::{
    backoff, backoff_at, backoff_to, clock, nanos_or_zero, spread, PrintJob, RelayHandle, RelayState, RelayStatus,
    BASE_BACKOFF, EV_PRINT_RESULT, HEALTHY_AFTER, LEDGER_RETRY_MAX, MAX_BACKOFF, NAMESPACE,
    REVOKED_BACKOFF,
};
use print_bridge::{engineio, tray};

fn millis(n: u64) -> Duration {
    Duration::from_millis(n)
}

#[test]
fn backoff_grows_and_is_capped() {
    assert!(millis(backoff(0)) >= millis(BASE_BACKOFF));
    assert!(millis(backoff(0)) < Duration::from_secs(2));
    assert!(millis(backoff(3)) >= Duration::from_secs(8));
    // Capped, plus at most 20% jitter.
    for attempt in [6u32, 10, 30, 1000] {
        assert!(
            millis(backoff(attempt)) <= millis(MAX_BACKOFF) + millis(MAX_BACKOFF) / 5,
            "attempt {attempt} blew past the cap"
        );
    }
}

#[test]
fn the_ledger_wait_is_capped_shorter_than_the_network_one() {
    // Somebody is standing at the till waiting for this one.
    for attempt in [0u32, 3, 6, 50, 1000] {
        assert!(
            millis(backoff_to(attempt, LEDGER_RETRY_MAX))
                <= millis(LEDGER_RETRY_MAX) + millis(LEDGER_RETRY_MAX) / 5,
            "attempt {attempt} blew past the ledger cap"
        );
    }
    assert!(millis(LEDGER_RETRY_MAX) < millis(MAX_BACKOFF));
    assert!(millis(backoff(0)) >= millis(BASE_BACKOFF));
    assert!(millis(backoff(10)) <= millis(MAX_BACKOFF) + millis(MAX_BACKOFF) / 5);
}

#[test]
fn the_wait_is_exactly_the_exponential_plus_the_jitter() {
    assert_eq!(backoff_at(0, MAX_BACKOFF, 0), 1_000);
    assert_eq!(backoff_at(1, MAX_BACKOFF, 0), 2_000);
    assert_eq!(backoff_at(5, MAX_BACKOFF, 0), 32_000);
    assert_eq!(backoff_at(6, MAX_BACKOFF, 0), 60_000);
    assert_eq!(backoff_at(1_000, MAX_BACKOFF, 12_345), 60_000 + 345);
    assert_eq!(backoff_at(0, MAX_BACKOFF, 999), 1_000 + 199);
    assert_eq!(backoff_at(4, LEDGER_RETRY_MAX, 0), 15_000);
    assert_eq!(backoff_at(3, 0, 7), 0);
    assert_eq!(spread(0, 5), 0);
    assert_eq!(spread(7, 15), 1);
}

#[test]
fn a_clock_that_cannot_be_read_costs_only_the_jitter() {
    assert_eq!(nanos_or_zero(Some(12_345)), 12_345);
    assert_eq!(nanos_or_zero(None), 0);
    assert_eq!(backoff_at(2, MAX_BACKOFF, nanos_or_zero(None)), 4_000);
    assert!(clock() < 1_000_000_000);
}

#[test]
fn parses_the_servers_print_job_payload_verbatim() {
    let raw = Json::parse(
        r#"{
            "jobId": "0f1a5b7c-1111-2222-3333-444455556666",
            "role": "receipt",
            "kind": "receipt",
            "osPrinterName": "GourmelyFake",
            "escposBase64": "G0AaVGVzdAo=",
            "copies": 2,
            "stationId": "68f8c6fe-cb2a-4e97-b648-b0c12491df17",
            "orderId": null,
            "createdAt": "2026-08-13T01:52:06.905Z"
        }"#,
    )
    .expect("json");
    let job = PrintJob::from_json(&raw).expect("parse");
    assert_eq!(job.job_id, "0f1a5b7c-1111-2222-3333-444455556666");
    assert_eq!(job.os_printer_name.as_deref(), Some("GourmelyFake"));
    assert_eq!(job.copies, 2);
    assert!(job.order_id.is_none());
    assert_eq!((job.role.as_str(), job.kind.as_str()), ("receipt", "receipt"));
}

fn job_from(text: &str) -> Option<PrintJob> {
    PrintJob::from_json(&Json::parse(text).expect("json"))
}

#[test]
fn a_job_without_a_printer_name_is_still_a_valid_job() {
    let job = job_from(
        r#"{
            "jobId": "abc",
            "escposBase64": "",
            "osPrinterName": null
        }"#,
    )
    .expect("parse");
    assert!(job.os_printer_name.is_none());
    assert_eq!(job.copies, 1, "copies defaults to one, never zero");
}

#[test]
fn a_job_of_the_wrong_shape_is_no_job() {
    assert!(job_from(r#"{"escposBase64":""}"#).is_none());
    assert!(job_from(r#"{"jobId":"a"}"#).is_none());
    assert!(job_from(r#"{"jobId":1,"escposBase64":""}"#).is_none());
    assert!(job_from(r#"{"jobId":"a","escposBase64":"","role":null}"#).is_none());
    assert!(job_from(r#"{"jobId":"a","escposBase64":"","osPrinterName":3}"#).is_none());
    assert!(job_from(r#"{"jobId":"a","escposBase64":"","copies":4294967296}"#).is_none());
    assert!(job_from(r#"{"jobId":"a","escposBase64":"","copies":"2"}"#).is_none());
    let most = job_from(r#"{"jobId":"a","escposBase64":"","copies":4294967295}"#).expect("job");
    assert_eq!(most.copies, u32::MAX);
    let listed = job_from(r#"["a","r","k",null,"G0A="]"#).expect("array form");
    assert_eq!((listed.copies, listed.escpos_base64.as_str()), (1, "G0A="));
    assert!(job_from(r#"["a","r","k",null]"#).is_none());
    assert!(PrintJob::from_fields(None, None, None, None, None, None, None).is_none());
}

#[test]
fn the_ack_frame_is_exactly_what_the_server_listens_for() {
    let frame = engineio::event_packet(
        NAMESPACE,
        EV_PRINT_RESULT,
        &Json::parse(r#"{ "jobId": "j1", "ok": true, "error": null }"#).expect("json"),
    );
    assert_eq!(
        frame,
        r#"42/print,["print-result",{"error":null,"jobId":"j1","ok":true}]"#
    );
    assert_eq!(ack_frame("j1", true, &None), frame);
    assert_eq!(
        ack_frame("j2", false, &Some("sin papel".into())),
        r#"42/print,["print-result",{"error":"sin papel","jobId":"j2","ok":false}]"#
    );
}

// ── The presence beat ───────────────────────────────────────────────────

#[test]
fn a_failing_enumeration_keeps_the_previous_list() {
    let previous = vec!["Caja".to_string()];
    let printers = printers_or_last_known(
        previous.clone(),
        Err(BridgeError::SpoolerFailed("RPC_S_SERVER_UNAVAILABLE".into())),
    );
    assert_eq!(printers, previous);
}

#[test]
fn the_last_known_printer_list_survives_a_new_beat_task() {
    let mut beat = PrinterBeat::new();
    assert!(beat.snapshot().is_empty());
    assert_eq!(
        beat.refresh(Ok(vec!["Caja".to_string()])),
        vec!["Caja".to_string()],
        "the first beat reads the spooler"
    );
    let late = || Err(BridgeError::SpoolerFailed("no answer".into()));
    assert_eq!(
        beat.refresh(late()),
        vec!["Caja".to_string()],
        "the reconnect wiped the last known list; this station now reports no printers"
    );
    assert_eq!(beat.refresh(late()), vec!["Caja".to_string()]);
    assert_eq!(beat.snapshot(), vec!["Caja".to_string()]);
}

#[test]
fn the_station_hello_keeps_announcing_printers_after_a_reconnect() {
    let mut beat = PrinterBeat::new();
    let first = hello_frame("1.2.3", "linux x86_64", &beat.refresh(Ok(vec!["Caja".into()])));
    assert_eq!(
        first,
        r#"42/print,["station-hello",{"bridgeVersion":"1.2.3","os":"linux x86_64","printers":["Caja"]}]"#
    );
    let silent = beat.refresh(Err(BridgeError::SpoolerFailed("no answer".into())));
    assert_eq!(hello_frame("1.2.3", "linux x86_64", &silent), first);
}

// ── The state and the status ────────────────────────────────────────────

#[test]
fn the_state_reads_the_same_on_both_wires() {
    for state in RelayState::ALL {
        let status = RelayStatus { state, ..Default::default() };
        let shown = status.json().member("state").and_then(|s| s.as_string());
        assert_eq!(shown.as_deref(), Some(state.as_str()));
    }
    let status = RelayStatus {
        state: RelayState::LedgerUnavailable,
        ..Default::default()
    };
    let shown = status.json().member("state").and_then(|s| s.as_string());
    assert_eq!(shown.as_deref(), Some("ledger-unavailable"));
}

#[test]
fn the_settings_window_gets_the_field_names_it_reads() {
    let read_by_the_ui = [
        "state",
        "paired",
        "connected",
        "serverUrl",
        "label",
        "roles",
        "lastError",
        "tokenRejected",
        "blockedByAnotherInstance",
        "ledgerRecovered",
        "jobsPrinted",
        "jobsFailed",
    ];
    let status = RelayStatus {
        state: RelayState::Standby,
        paired: true,
        blocked_by_another_instance: true,
        ..Default::default()
    };
    let json = status.json();
    for field in read_by_the_ui {
        assert!(json.member(field).is_some(), "`{field}` is not on the wire");
    }
    assert_eq!(json.member("blockedByAnotherInstance"), Some(Json::boolean(true)));
}

#[test]
fn every_state_has_a_label_in_the_settings_window() {
    let labelled = [
        "unpaired",
        "connecting",
        "connected",
        "rejected",
        "standby",
        "ledger-unavailable",
    ];
    for state in RelayState::ALL {
        assert!(labelled.contains(&state.as_str()), "{state:?}");
    }
    assert_eq!(labelled.len(), RelayState::ALL.len());
}

#[test]
fn the_station_token_is_not_in_there() {
    let settings = Settings {
        station_token: Some("the-credential".into()),
        local_secret: Some("the-local-one".into()),
        ..Default::default()
    };
    let json = RelayHandle::new().status(&settings).json();
    for leak in ["token\"", "stationToken", "secret", "the-credential", "the-local-one"] {
        assert!(!json.text().contains(leak), "`{leak}` reached the window: {}", json.text());
    }
}

#[test]
fn the_legacy_booleans_are_derived_and_cannot_contradict_the_state() {
    let settings = Settings { station_token: Some("t".into()), ..Default::default() };
    for (state, connected, rejected, blocked) in [
        (RelayState::Connected, true, false, false),
        (RelayState::Rejected, false, true, false),
        (RelayState::Standby, false, false, true),
        (RelayState::LedgerUnavailable, false, false, false),
        (RelayState::Connecting, false, false, false),
        (RelayState::Unpaired, false, false, false),
    ] {
        let mut handle = RelayHandle::new();
        handle.set_state(state);
        let status = handle.status(&settings);
        assert_eq!(status.connected, connected, "{state:?}");
        assert_eq!(status.token_rejected, rejected, "{state:?}");
        assert_eq!(status.blocked_by_another_instance, blocked, "{state:?}");
        assert!(status.paired);
    }
}

#[test]
fn only_connected_serves_and_an_outage_needs_nobody() {
    for state in RelayState::ALL {
        assert_eq!(state.is_serving(), state == RelayState::Connected);
        assert_eq!(
            state.needs_a_human(),
            matches!(
                state,
                RelayState::Rejected | RelayState::Standby | RelayState::LedgerUnavailable
            )
        );
    }
}

#[test]
fn every_state_has_its_sentence() {
    let sentence = |state: RelayState, label: Option<&str>, error: Option<&str>| {
        RelayStatus {
            state,
            label: label.map(|s| s.to_string()),
            last_error: error.map(|s| s.to_string()),
            ..Default::default()
        }
        .detail()
    };
    assert_eq!(
        sentence(RelayState::Connected, Some("Caja"), None),
        "Conectado a GourmelyHub como «Caja»."
    );
    assert_eq!(sentence(RelayState::Connected, None, Some("x")), "Conectado a GourmelyHub.");
    assert_eq!(
        sentence(RelayState::Unpaired, None, Some("x")),
        "Esta caja no está vinculada a ninguna estación (Ajustes → Estación)."
    );
    assert_eq!(
        sentence(RelayState::Connecting, None, None),
        "Sin conexión con GourmelyHub; reintentando."
    );
    assert_eq!(sentence(RelayState::Connecting, None, Some("x")), "x");
    assert_eq!(
        sentence(RelayState::Standby, None, None),
        "El bridge no puede recibir impresiones remotas."
    );
    assert_eq!(sentence(RelayState::Rejected, None, Some("y")), "y");
}

// ── Taking the ledger ───────────────────────────────────────────────────

#[test]
fn a_bridge_that_cannot_take_the_ledger_says_so_and_keeps_trying() {
    let settings = Settings {
        server_url: Some("http://127.0.0.1:1".into()),
        station_token: Some("station-token-under-test".into()),
        ..Default::default()
    };
    let mut handle = RelayHandle::new();
    let mut wait = LedgerWait::new();
    let refused = || Err(BridgeError::AlreadyRunning(held_by(&None)));
    let mut last = 0;
    for attempt in 0..45u32 {
        match wait.attempted(&mut handle, refused(), "print-jobs.jsonl", 0) {
            LedgerStep::Retry { delay, log } => {
                assert!(delay >= last && delay <= LEDGER_RETRY_MAX);
                assert_eq!(log, attempt % 20 == 0);
                last = delay;
            }
            LedgerStep::Taken => panic!("took a ledger that another bridge holds"),
        }
    }
    let status = handle.status(&settings);
    assert!(status.blocked_by_another_instance);
    assert!(!status.connected, "it connected anyway");
    assert!(!status.token_rejected);
    let reason = status.last_error.clone().unwrap_or_default();
    assert!(reason.contains("ya está abierto"), "{reason:?}");

    assert_eq!(
        wait.attempted(&mut handle, Ok(None), "print-jobs.jsonl", 0),
        LedgerStep::Taken
    );
    let back = handle.status(&settings);
    assert!(!back.blocked_by_another_instance);
    assert_eq!(back.state, RelayState::Unpaired);
    assert!(back.last_error.is_none());
}

#[test]
fn a_ledger_that_will_not_open_is_not_reported_as_a_network_problem() {
    let settings = Settings { station_token: Some("t".into()), ..Default::default() };
    let mut handle = RelayHandle::new();
    let mut wait = LedgerWait::new();
    wait.attempted(
        &mut handle,
        Err(BridgeError::Io("not a directory".into())),
        "/data/print-jobs.jsonl",
        0,
    );
    let status = handle.status(&settings);
    assert_eq!(status.state, RelayState::LedgerUnavailable);
    assert!(status.state.needs_a_human(), "shown as a condition that fixes itself");
    assert!(!status.connected);
    assert!(!status.blocked_by_another_instance);
    assert!(!status.token_rejected);
    assert_ne!(
        tray::tooltip_for(&status),
        tray::tooltip_for(&RelayStatus {
            state: RelayState::Connecting,
            paired: true,
            ..Default::default()
        }),
        "byte-identical to «Reconectando…» — the tooltip a dead internet link shows"
    );
    assert_eq!(
        status.detail(),
        "El bridge no puede abrir su registro de impresiones en /data/print-jobs.jsonl: \
         i/o error: not a directory. No imprimirá pedidos remotos hasta que se resuelva en \
         este equipo (espacio en disco, permisos o antivirus). Lo seguirá intentando."
    );
}

#[test]
fn damage_that_was_worked_around_stays_on_screen() {
    let mut handle = RelayHandle::new();
    let mut wait = LedgerWait::new();
    wait.attempted(&mut handle, Ok(Some("dañado".into())), "p", 0);
    handle.joined();
    let status = handle.status(&Settings::default());
    assert_eq!(status.ledger_recovered.as_deref(), Some("dañado"));
    assert!(status.connected);
}

// ── Dialling ────────────────────────────────────────────────────────────

fn paired() -> Settings {
    Settings {
        server_url: Some("http://hub:4000/".into()),
        station_token: Some("tok".into()),
        ..Default::default()
    }
}

#[test]
fn an_unpaired_bridge_parks_and_a_paired_one_dials() {
    let supervisor = Supervisor::new();
    let mut handle = RelayHandle::new();
    handle.fail(RelayState::Rejected, "x".into());
    assert!(matches!(supervisor.next(&Settings::default(), &mut handle), Next::Park));
    let status = handle.status(&Settings::default());
    assert_eq!(status.state, RelayState::Unpaired);
    assert!(status.last_error.is_none());
    match supervisor.next(&paired(), &mut handle) {
        Next::Dial { url, token } => {
            assert_eq!(url, "ws://hub:4000/socket.io/?EIO=4&transport=websocket");
            assert_eq!(token, "tok");
        }
        Next::Park => panic!("a paired bridge must dial"),
    }
    assert_eq!(handle.status(&paired()).state, RelayState::Connecting);
}

#[test]
fn a_crash_loop_does_not_reset_the_backoff() {
    let mut supervisor = Supervisor::new();
    let mut handle = RelayHandle::new();
    let mut delays = Vec::new();
    for _ in 0..8 {
        let ended = Ended::Transport("la conexión se cerró".into());
        delays.push(supervisor.ended(&mut handle, ended, HEALTHY_AFTER - 1, 0));
    }
    assert_eq!(
        delays,
        vec![1_000, 2_000, 4_000, 8_000, 16_000, 32_000, 60_000, 60_000]
    );
    let status = handle.status(&paired());
    assert_eq!(status.state, RelayState::Connecting);
    assert_eq!(status.last_error.as_deref(), Some("la conexión se cerró"));
    // A connection that held starts over.
    let held = Ended::Transport("x".into());
    assert_eq!(supervisor.ended(&mut handle, held, HEALTHY_AFTER, 0), 1_000);
    assert_eq!(supervisor.ended(&mut handle, Ended::Transport("x".into()), 0, 0), 2_000);
    // So does a new pairing.
    supervisor.woken();
    assert_eq!(supervisor.ended(&mut handle, Ended::Transport("x".into()), 0, 0), 1_000);
}

#[test]
fn a_refused_token_waits_longer_and_says_so() {
    let mut supervisor = Supervisor::new();
    let mut handle = RelayHandle::new();
    let delay = supervisor.ended(&mut handle, Ended::Rejected("revoked".into()), 0, 5);
    assert_eq!(delay, REVOKED_BACKOFF);
    let status = handle.status(&paired());
    assert!(status.token_rejected && !status.connected);
    assert!(status.detail().contains("vuelve a vincularla"));
    // It does not count against the next dropped connection.
    assert_eq!(supervisor.ended(&mut handle, Ended::Transport("x".into()), 0, 0), 1_000);
}

// ── One connection ──────────────────────────────────────────────────────

const OPEN: &str = r#"0{"sid":"spy","upgrades":[],"pingInterval":300000,"pingTimeout":200000,"maxPayload":1000000}"#;

fn frame(text: &str) -> Arrival {
    Arrival::Frame(text.to_string())
}

fn live() -> Connection {
    let mut c = Connection::new("tok".into());
    assert!(c.step(Arrival::Dialed, 0).is_empty());
    match c.step(frame(OPEN), 1_000).as_slice() {
        [Action::Greet(f)] => assert_eq!(f, r#"40/print,{"stationToken":"tok"}"#),
        other => panic!("{other:?}"),
    }
    assert!(c.step(Arrival::GreetingSent, 1_500).is_empty());
    match c.step(frame(r#"40/print,{"sid":"spy-print"}"#), 2_000).as_slice() {
        [Action::Join] => {}
        other => panic!("{other:?}"),
    }
    c
}

fn ended(actions: &[Action]) -> (bool, String) {
    match actions {
        [Action::End(Ended::Transport(m))] => (false, m.clone()),
        [Action::End(Ended::Rejected(m))] => (true, m.clone()),
        [Action::Leave(f), Action::End(e)] => {
            assert_eq!(f, "41/print,");
            match e {
                Ended::Transport(m) => (false, m.clone()),
                Ended::Rejected(m) => (true, m.clone()),
            }
        }
        other => panic!("{other:?}"),
    }
}

#[test]
fn a_connection_goes_from_dialling_to_the_room() {
    let mut c = Connection::new("tok".into());
    assert_eq!(c.phase(), Phase::Dialing);
    c.step(Arrival::Dialed, 0);
    assert_eq!(c.phase(), Phase::AwaitOpen);
    assert_eq!(c.limit(7), 20_000);
    c.step(frame(OPEN), 1_000);
    assert_eq!(c.phase(), Phase::Greeting { silence_limit: 500_000 });
    // The time to answer runs from the moment the greeting is sent.
    assert!(c.step(Arrival::GreetingSent, 3_000).is_empty());
    assert_eq!(
        c.phase(),
        Phase::AwaitJoin { silence_limit: 500_000, deadline: 23_000 }
    );
    assert_eq!(c.limit(8_000), 15_000);
    assert_eq!(c.limit(30_000), 0);
    let c = live();
    assert_eq!(c.phase(), Phase::Live { silence_limit: 500_000 });
    assert_eq!(c.limit(0), 500_000);
}

#[test]
fn nothing_is_sent_before_the_namespace_acked() {
    let mut c = Connection::new("tok".into());
    c.step(Arrival::Dialed, 0);
    c.step(frame(OPEN), 0);
    c.step(Arrival::GreetingSent, 0);
    // An event, another namespace and a frame of the future are all ignored.
    assert!(c.step(frame(r#"42/print,["print-job",{"jobId":"a","escposBase64":""}]"#), 0).is_empty());
    assert!(c.step(frame(r#"40/other,{"sid":"x"}"#), 0).is_empty());
    assert!(c.step(frame("46/print,[]"), 0).is_empty());
    match c.step(frame("2"), 0).as_slice() {
        [Action::Pong(f)] => assert_eq!(f, "3"),
        other => panic!("{other:?}"),
    }
    assert!(matches!(c.phase(), Phase::AwaitJoin { .. }));
}

#[test]
fn every_job_of_an_event_is_queued_in_order() {
    let mut c = live();
    let actions = c.step(
        frame(r#"42/print,["print-job",{"jobId":"a","escposBase64":"G0A="},{"bad":1},{"jobId":"b","escposBase64":""}]"#),
        0,
    );
    let ids: Vec<String> = actions
        .iter()
        .map(|a| match a {
            Action::Queue(job) => job.job_id.clone(),
            other => panic!("{other:?}"),
        })
        .collect();
    assert_eq!(ids, vec!["a".to_string(), "b".to_string()]);
    assert!(c.step(frame(r#"42/other,["print-job",{"jobId":"a","escposBase64":""}]"#), 0).is_empty());
    assert!(c.step(frame(r#"42/print,["other",{"jobId":"a","escposBase64":""}]"#), 0).is_empty());
    assert!(matches!(c.step(frame("2"), 0).as_slice(), [Action::Pong(_)]));
}

#[test]
fn every_way_to_fail_before_the_room_has_its_sentence() {
    let opening = |arrival: Arrival| {
        let mut c = Connection::new("tok".into());
        c.step(Arrival::Dialed, 0);
        let actions = c.step(arrival, 0);
        assert_eq!(c.phase(), Phase::Over);
        ended(&actions)
    };
    let mut c = Connection::new("tok".into());
    assert_eq!(
        ended(&c.step(Arrival::DialFailed("dns".into()), 0)),
        (false, "no se pudo conectar: dns".to_string())
    );
    assert_eq!(
        opening(frame("<html>")),
        (false, "el servidor no abrió una sesión Engine.IO (recibido: Other(\"<html>\"))".to_string())
    );
    assert_eq!(opening(Arrival::Closed), (false, "el servidor cerró antes del saludo".to_string()));
    assert_eq!(
        opening(Arrival::NetworkError("reset".into())),
        (false, "error de red: reset".to_string())
    );
    assert_eq!(
        opening(Arrival::Silent { waited: 20_000 }),
        (false, "sin señal del servidor durante 20 s".to_string())
    );

    let joining = |arrival: Arrival| {
        let mut c = Connection::new("tok".into());
        c.step(Arrival::Dialed, 0);
        c.step(frame(OPEN), 0);
        if !matches!(arrival, Arrival::GreetingNotSent(_)) {
            c.step(Arrival::GreetingSent, 0);
        }
        let actions = c.step(arrival, 0);
        assert_eq!(c.phase(), Phase::Over);
        ended(&actions)
    };
    assert_eq!(
        joining(frame(r#"44/print,{"message":"Station auth error: token invalid or revoked"}"#)),
        (true, "Station auth error: token invalid or revoked".to_string())
    );
    assert_eq!(joining(frame("1")), (false, "el servidor cerró durante el saludo".to_string()));
    assert_eq!(
        joining(Arrival::Closed),
        (false, "el servidor cerró la conexión sin aceptar la estación".to_string())
    );
    assert_eq!(
        joining(Arrival::GreetingNotSent("pipe".into())),
        (false, "no se pudo enviar el saludo: pipe".to_string())
    );
    assert_eq!(
        joining(Arrival::HeartbeatNotSent("pipe".into())),
        (false, "no se pudo responder al latido: pipe".to_string())
    );
    assert_eq!(
        joining(Arrival::Silent { waited: 1_999 }),
        (false, "sin señal del servidor durante 1 s".to_string())
    );
}

#[test]
fn a_live_connection_leaves_before_it_ends() {
    let ending = |arrival: Arrival| {
        let mut c = live();
        let actions = c.step(arrival, 0);
        assert_eq!(actions.len(), 2);
        assert_eq!(c.phase(), Phase::Over);
        assert!(c.step(frame("2"), 0).is_empty(), "it is over");
        ended(&actions)
    };
    assert_eq!(ending(Arrival::Closed), (false, "la conexión se cerró".to_string()));
    assert_eq!(ending(frame("1")), (false, "el servidor cerró la conexión".to_string()));
    assert_eq!(
        ending(frame("41/print,")),
        (false, "el servidor desvinculó la estación".to_string())
    );
    assert_eq!(ending(frame(r#"44/print,{"message":"no"}"#)), (true, "no".to_string()));
    assert_eq!(
        ending(Arrival::NetworkError("reset".into())),
        (false, "error de red: reset".to_string())
    );
    assert_eq!(
        ending(Arrival::Silent { waited: 500_000 }),
        (false, "sin señal del servidor durante 500 s".to_string())
    );
    assert_eq!(
        ending(Arrival::HeartbeatNotSent("x".into())),
        (false, "el escritor del socket se cerró".to_string())
    );
}

// ── The worker ──────────────────────────────────────────────────────────

const NOW: u64 = 1_800_000_000;

struct Disk {
    content: RefCell<String>,
    broken: bool,
}

impl Disk {
    fn new() -> Disk {
        Disk { content: RefCell::new(String::new()), broken: false }
    }

    fn write(&self, text: &str, append: bool) -> BridgeResult<()> {
        if self.broken {
            return Err(BridgeError::Io("disk full".into()));
        }
        let mut content = self.content.borrow_mut();
        if !append {
            content.clear();
        }
        content.push_str(text);
        Ok(())
    }

    fn open(&self) -> JobLedger {
        let content = self.content.borrow().as_bytes().to_vec();
        JobLedger::open(&content, NOW, || Ok(()), |b: &str| self.write(b, false)).expect("open")
    }

    fn take(&self, ledger: &mut JobLedger, job: &PrintJob, default: Option<&str>) -> Taken {
        PrintWorker::new().take(
            ledger,
            job,
            &default.map(|s| s.to_string()),
            NOW,
            |l: &str| self.write(l, true),
            |b: &str| self.write(b, false),
        )
    }
}

fn job(id: &str) -> PrintJob {
    PrintJob {
        job_id: id.into(),
        role: String::new(),
        kind: String::new(),
        os_printer_name: Some(" GourmelyFake ".into()),
        escpos_base64: "G0AaVGVzdAo=".into(),
        copies: 2,
        order_id: None,
    }
}

#[test]
fn a_job_prints_once_and_is_acked_every_time() {
    let disk = Disk::new();
    let mut ledger = disk.open();
    let mut relay = RelayHandle::new();
    let mut worker = PrintWorker::new();
    match disk.take(&mut ledger, &job("j1"), None) {
        Taken::Print(d) => {
            assert_eq!(d.job_id, "j1");
            assert_eq!(d.printer, "GourmelyFake");
            assert_eq!(d.bytes.as_slice(), b"\x1b@\x1aTest\n");
            assert_eq!(d.copies, 2);
        }
        other => panic!("{other:?}"),
    }
    assert!(disk.content.borrow().contains("\"claimed\""), "claimed before it prints");
    let ack = worker.complete(
        &mut ledger,
        "j1",
        Ok(()),
        NOW,
        |l: &str| disk.write(l, true),
        |b: &str| disk.write(b, false),
    );
    assert_eq!(ack, ack_frame("j1", true, &None));
    worker.report(&mut relay);
    assert_eq!(relay.status(&Settings::default()).jobs_printed, 1);

    // The server replays it, before and after a restart.
    for _ in 0..2 {
        match disk.take(&mut ledger, &job("j1"), None) {
            Taken::Ack(f) => assert_eq!(f, ack),
            other => panic!("printed twice: {other:?}"),
        }
        ledger = disk.open();
    }
}

#[test]
fn a_job_that_a_crash_interrupted_is_not_reprinted() {
    let disk = Disk::new();
    let mut ledger = disk.open();
    assert!(matches!(disk.take(&mut ledger, &job("j"), None), Taken::Print(_)));
    let mut reborn = disk.open();
    match disk.take(&mut reborn, &job("j"), None) {
        Taken::Ack(f) => {
            assert!(f.contains("\"ok\":false") && f.contains("El bridge se reinició"), "{f}")
        }
        other => panic!("printed twice: {other:?}"),
    }
}

#[test]
fn a_job_that_cannot_be_recorded_is_not_printed() {
    let mut disk = Disk::new();
    let mut ledger = disk.open();
    disk.broken = true;
    match disk.take(&mut ledger, &job("j"), None) {
        Taken::Ack(f) => assert_eq!(
            f,
            ack_frame(
                "j",
                false,
                &Some(
                    "El bridge no pudo registrar el trabajo antes de imprimirlo \
                     (i/o error: disk full); no se imprimió para evitar duplicados."
                        .into()
                )
            )
        ),
        other => panic!("{other:?}"),
    }
}

#[test]
fn a_failure_is_recorded_counted_and_acked() {
    let disk = Disk::new();
    let mut ledger = disk.open();
    let mut relay = RelayHandle::new();
    let mut worker = PrintWorker::new();
    let mut nameless = job("j");
    nameless.os_printer_name = Some("  ".into());
    match disk.take(&mut ledger, &nameless, None) {
        Taken::Refuse { job_id, reason } => {
            assert_eq!(job_id, "j");
            let ack = worker.complete(
                &mut ledger,
                &job_id,
                Err(reason.clone()),
                NOW,
                |l: &str| disk.write(l, true),
                |b: &str| disk.write(b, false),
            );
            assert_eq!(ack, ack_frame("j", false, &Some(reason)));
        }
        other => panic!("{other:?}"),
    }
    worker.report(&mut relay);
    let status = relay.status(&Settings::default());
    assert_eq!((status.jobs_printed, status.jobs_failed), (0, 1));
    match disk.take(&mut ledger, &nameless, Some("POS")) {
        Taken::Ack(f) => assert!(f.contains("no trae nombre de impresora"), "{f}"),
        other => panic!("printed twice: {other:?}"),
    }
}

#[test]
fn every_way_not_to_deliver_has_its_sentence() {
    let mut j = job("j");
    j.os_printer_name = None;
    assert_eq!(
        deliver(&j, &None).err().as_deref(),
        Some("El trabajo no trae nombre de impresora y esta estación no tiene una por defecto.")
    );
    assert_eq!(deliver(&j, &Some("POS".into())).expect("default").printer, "POS");
    j.escpos_base64 = "!".into();
    assert_eq!(
        deliver(&j, &Some("POS".into())).err().as_deref(),
        Some("los bytes del ticket no son base64 válido: Invalid symbol 33, offset 0.")
    );
    assert_eq!(
        delivery(&j, &Some("POS".into()), Ok(vec![0; MAX_PRINT_BYTES + 1])).err().as_deref(),
        Some("el ticket pesa 1048577 bytes, por encima del máximo de 1048576")
    );
    for (asked, printed) in [(0u32, 1u32), (1, 1), (10, 10), (11, 10), (u32::MAX, 10)] {
        j.copies = asked;
        let d = delivery(&j, &Some("POS".into()), Ok(vec![1])).expect("delivery");
        assert_eq!((d.copies, d.bytes), (printed, vec![1]));
    }
    assert_eq!(target(&Some(" a ".into()), &Some("b".into())).as_deref(), Some("a"));
    assert_eq!(target(&Some("".into()), &Some(" b ".into())).as_deref(), Some(" b "));
}

#[test]
fn every_copy_reaches_the_spooler_until_one_fails() {
    let mut j = job("j");
    j.copies = 3;
    let d = deliver(&j, &None).expect("delivery");
    let made = RefCell::new(0);
    let spooler = |copy: u32, bad: u32| {
        let made = &made;
        move |name: &str, bytes: &Vec<u8>| {
            assert_eq!((name, bytes.as_slice()), ("GourmelyFake", b"\x1b@\x1aTest\n".as_slice()));
            *made.borrow_mut() += 1;
            if copy == bad {
                Err(BridgeError::SpoolerFailed("paper".into()))
            } else {
                Ok(copy)
            }
        }
    };
    let all_well = (0..d.copies).map(|copy| spooler(copy, 9)).collect();
    assert_eq!(print_copies(&d, all_well), Ok(()));
    assert_eq!(*made.borrow(), 3);

    *made.borrow_mut() = 0;
    let second_fails = (0..d.copies).map(|copy| spooler(copy, 1)).collect();
    assert_eq!(
        print_copies(&d, second_fails),
        Err("print spooler call failed: paper".to_string())
    );
    assert_eq!(*made.borrow(), 2);
}

#[test]
fn a_full_queue_is_said_and_leaves_the_state_alone() {
    let mut handle = RelayHandle::new();
    handle.joined();
    handle.queue_full();
    let status = handle.status(&paired());
    assert!(status.connected);
    assert_eq!(
        status.last_error.as_deref(),
        Some("La cola de impresión está llena. Revisa que la impresora responda.")
    );
    assert_eq!(status.server_url, "http://hub:4000");
}

#[test]
fn whatever_happens_a_connection_does_things_in_order() {
    let arrival = |n: usize| match n {
        0 => Arrival::Dialed,
        1 => frame(OPEN),
        2 => frame(r#"40/print,{"sid":"s"}"#),
        3 => frame(r#"42/print,["print-job",{"jobId":"a","escposBase64":""}]"#),
        4 => frame("2"),
        5 => Arrival::Closed,
        _ => Arrival::GreetingSent,
    };
    for code in 0..7usize.pow(6) {
        let mut connection = Connection::new("tok".into());
        let (mut joined, mut over, mut rest) = (false, false, code);
        for moment in 0..6u64 {
            for action in connection.step(arrival(rest % 7), moment) {
                assert!(!over, "something was done after the end");
                match action {
                    Action::Join => {
                        assert!(!joined, "joined twice");
                        joined = true;
                    }
                    Action::Queue(_) | Action::Leave(_) => assert!(joined, "not in the room"),
                    Action::End(_) => over = true,
                    Action::Greet(_) | Action::Pong(_) => {}
                }
            }
            rest /= 7;
        }
        assert_eq!(connection.phase() == Phase::Over, over);
    }
}
