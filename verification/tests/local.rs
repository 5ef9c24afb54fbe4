use print_bridge::error::BridgeError;
use print_bridge::instance_lock::{held_by, owner_note};
use print_bridge::printer::{find_printer, sink_file_name, test_ticket_bytes};
use print_bridge::relay::{RelayState, RelayStatus};
use print_bridge::tls_material::{pem_pair_parses, resolve, select, Override};
use print_bridge::tray::{menu_action, tooltip_for, MenuAction};

fn pem(label: &str) -> Vec<u8> {
    format!("-----BEGIN {label}-----\nAAECAwQ=\n-----END {label}-----\n").into_bytes()
}

fn cert() -> Vec<u8> {
    pem("CERTIFICATE")
}

fn key() -> Vec<u8> {
    pem("PRIVATE KEY")
}

fn both(cert: &[u8], key: &[u8]) -> Option<Override> {
    Some(Override { cert: Some(cert.to_vec()), key: Some(key.to_vec()) })
}

#[test]
fn rejects_garbage_and_swapped_pairs() {
    assert!(pem_pair_parses(&cert(), &key()));
    assert!(!pem_pair_parses(&b"not a pem at all".to_vec(), &key()));
    assert!(!pem_pair_parses(&cert(), &b"".to_vec()));
    // Cert where the key is expected, and vice versa.
    assert!(!pem_pair_parses(&key(), &cert()));
    // A truncated download.
    let mut torn = cert();
    torn.truncate(torn.len() - 10);
    assert!(!pem_pair_parses(&torn, &key()));
}

#[test]
fn falls_back_to_embedded_when_nothing_on_disk() {
    let material = resolve(&cert(), &key(), None);
    assert_eq!(material.source, "embedded");
    assert_eq!(material.cert, cert());
}

#[test]
fn prefers_a_valid_pair_on_disk() {
    let material = resolve(&b"ignored".to_vec(), &b"ignored".to_vec(), both(&cert(), &key()));
    assert_eq!(material.source, "disk");
    assert_eq!(material.cert, cert());
}

#[test]
fn a_corrupt_file_on_disk_does_not_take_printing_offline() {
    let material = resolve(&cert(), &key(), both(b"<html>404</html>", &key()));
    assert_eq!(material.source, "embedded");
}

#[test]
fn half_a_pair_is_ignored() {
    let half = Some(Override { cert: Some(cert()), key: None });
    let material = resolve(&cert(), &key(), half);
    assert_eq!(material.source, "embedded");
    let other_half = Some(Override { cert: None, key: Some(key()) });
    assert_eq!(resolve(&cert(), &key(), other_half).source, "embedded");
}

#[test]
fn the_parsed_pair_is_served_whole_or_not_at_all() {
    let mine = (b"c".to_vec(), b"k".to_vec());
    let served = select(&mine.0, &mine.1, both(b"C", b"K"), true);
    assert_eq!((served.cert, served.key, served.source), (b"C".to_vec(), b"K".to_vec(), "disk"));
    let kept = select(&mine.0, &mine.1, both(b"C", b"K"), false);
    assert_eq!((kept.cert, kept.key, kept.source), (b"c".to_vec(), b"k".to_vec(), "embedded"));
}

#[test]
fn the_refusal_says_that_the_bridge_is_open_already() {
    let msg = held_by(&None);
    assert!(
        msg.contains("ya está abierto"),
        "the message must tell the operator what happened: {msg}"
    );
}

#[test]
fn the_message_names_the_process_that_has_it() {
    let note = owner_note(4242, 1_800_000_000);
    assert_eq!(note, "4242 1800000000\n");
    let msg = held_by(&Some(note));
    assert_eq!(
        msg,
        "GourmelyPrint Bridge ya está abierto en este equipo (proceso 4242). \
         Esta copia no va a imprimir: dos bridges en la misma caja sacan cada ticket dos veces. \
         Usa el que ya está funcionando desde el icono junto al reloj."
    );
}

#[test]
fn a_note_that_names_no_process_leaves_the_process_out() {
    let plain = held_by(&None);
    assert!(plain.starts_with("GourmelyPrint Bridge ya está abierto en este equipo. Esta copia"));
    // A note that names no process is no note.
    assert_eq!(held_by(&Some(String::new())), plain);
    assert_eq!(held_by(&Some("  \n".into())), plain);
    assert_eq!(held_by(&Some("-1 5".into())), plain);
    assert_eq!(held_by(&Some("12a 5".into())), plain);
    assert!(held_by(&Some(" 12\t5".into())).contains("(proceso 12)"));
}

#[test]
fn the_test_ticket_is_byte_for_byte_the_known_one() {
    let mut expected: Vec<u8> = Vec::new();
    expected.extend_from_slice(b"\x1b@\x1ba\x01\x1b!\x30");
    expected.extend_from_slice("GOURMELYPRINT\n".as_bytes());
    expected.extend_from_slice(b"\x1b!\x00");
    expected.extend_from_slice("Test desde el bridge\n\n".as_bytes());
    expected.extend_from_slice(b"\x0a\x0a\x0a\x0a\x1dV\x01");
    assert_eq!(test_ticket_bytes(), expected);
}

#[test]
fn a_printer_name_is_made_safe_for_a_file() {
    assert_eq!(sink_file_name("POS-58 ñ/x", 42), "POS_58___x-42.escpos");
    assert_eq!(sink_file_name("", 0), "-0.escpos");
}

#[test]
fn a_printer_is_found_by_its_exact_name() {
    let names = vec!["a".to_string(), "b".to_string(), "b".to_string()];
    assert!(matches!(find_printer(&names, "b"), Ok(1)));
    match find_printer(&names, "B") {
        Err(BridgeError::PrinterNotFound(n)) => assert_eq!(n, "B"),
        other => panic!("{other:?}"),
    }
}

#[test]
fn the_tray_has_different_words_for_each_state() {
    let words: Vec<String> = RelayState::ALL
        .iter()
        .map(|state| tooltip_for(&RelayStatus { state: *state, ..Default::default() }))
        .collect();
    for (i, a) in words.iter().enumerate() {
        for b in words.iter().skip(i + 1) {
            assert_ne!(a, b);
        }
    }
    assert_eq!(words[1], "GourmelyPrint Bridge — Reconectando…");
}

#[test]
fn the_menu_knows_its_items() {
    assert_eq!(menu_action("open"), Some(MenuAction::Open));
    assert_eq!(menu_action("pair"), Some(MenuAction::Pair));
    assert_eq!(menu_action("test"), Some(MenuAction::Test));
    assert_eq!(menu_action("quit"), Some(MenuAction::Quit));
    assert_eq!(menu_action("header"), None);
}
