//! What can go wrong, and the sentence for it.

use vstd::prelude::*;
use vstd::string::*;

use crate::text;
use crate::text::decimal;

verus! {

#[derive(Debug, Clone)]
pub enum BridgeError {
    PrinterNotFound(String),
    SpoolerFailed(String),
    BadRequest(String),
    /// The size of the payload and the limit it is over.
    PayloadTooLarge(usize, usize),
    Base64(String),
    Io(String),
    Tls(String),
    /// Reading or writing `config.json`, or anything else about the persisted
    /// settings. Separate from `Io` because the operator-facing message is
    /// different: this one is "the bridge cannot remember its pairing".
    Config(String),
    /// Exchanging the pairing code for a station token failed. The message is
    /// the server's own: it is written for the person standing at the till.
    Pairing(String),
    /// The relay could not talk to the server (network, DNS, TLS, protocol).
    Relay(String),
    /// Another copy of the bridge already holds the print ledger.
    ///
    /// Its own variant rather than a `Config` string because the two need
    /// opposite answers: a broken config file is something to fix, a second
    /// instance is something to close. The message is already the operator's
    /// sentence, so it is passed through untouched.
    AlreadyRunning(String),
}

pub type BridgeResult<T> = Result<T, BridgeError>;

/// The sentence that an error is shown as.
pub open spec fn error_text(e: BridgeError) -> Seq<char> {
    match e {
        BridgeError::PrinterNotFound(name) => "printer '"@ + name@ + "' not found on this system"@,
        BridgeError::SpoolerFailed(m) => "print spooler call failed: "@ + m@,
        BridgeError::BadRequest(m) => "invalid request: "@ + m@,
        BridgeError::PayloadTooLarge(size, max) => "payload exceeds limit ("@ + decimal(size as nat)
            + " bytes, max "@ + decimal(max as nat) + ")"@,
        BridgeError::Base64(m) => "base64 decode failed: "@ + m@,
        BridgeError::Io(m) => "i/o error: "@ + m@,
        BridgeError::Tls(m) => "tls configuration: "@ + m@,
        BridgeError::Config(m) => "configuración: "@ + m@,
        BridgeError::Pairing(m) => m@,
        BridgeError::Relay(m) => "relay: "@ + m@,
        BridgeError::AlreadyRunning(m) => m@,
    }
}

/// `head` and `tail`, one after the other.
pub(crate) fn joined(head: &str, tail: &str) -> (r: String)
    ensures
        r@ == head@ + tail@,
{
    let mut out = head.to_string();
    out.append(tail);
    out
}

impl BridgeError {
    /// The sentence for whoever has to read it.
    pub fn message(&self) -> (r: String)
        ensures
            r@ == error_text(*self),
    {
        match self {
            BridgeError::PrinterNotFound(name) => {
                let mut out = joined("printer '", name.as_str());
                out.append("' not found on this system");
                out
            },
            BridgeError::SpoolerFailed(m) => joined("print spooler call failed: ", m.as_str()),
            BridgeError::BadRequest(m) => joined("invalid request: ", m.as_str()),
            BridgeError::PayloadTooLarge(size, max) => {
                let mut out = joined("payload exceeds limit (", text::number(*size as u64).as_str());
                out.append(" bytes, max ");
                out.append(text::number(*max as u64).as_str());
                out.append(")");
                out
            },
            BridgeError::Base64(m) => joined("base64 decode failed: ", m.as_str()),
            BridgeError::Io(m) => joined("i/o error: ", m.as_str()),
            BridgeError::Tls(m) => joined("tls configuration: ", m.as_str()),
            BridgeError::Config(m) => joined("configuración: ", m.as_str()),
            BridgeError::Pairing(m) => m.clone(),
            BridgeError::Relay(m) => joined("relay: ", m.as_str()),
            BridgeError::AlreadyRunning(m) => m.clone(),
        }
    }
}

/// An error keeps the words that it was given: what the operator is meant to read as
/// it stands is passed on as it stands, and of everything else nothing is lost.
pub proof fn law_an_error_keeps_its_words(e: BridgeError)
    ensures
        match e {
            BridgeError::Pairing(m) => error_text(e) == m@,
            BridgeError::AlreadyRunning(m) => error_text(e) == m@,
            BridgeError::PrinterNotFound(m) => exists|head: Seq<char>, end: Seq<char>|
                error_text(e) == #[trigger] (head + m@ + end),
            BridgeError::PayloadTooLarge(size, max) => exists|
                head: Seq<char>,
                mid: Seq<char>,
                end: Seq<char>,
            |
                error_text(e) == #[trigger] (head + decimal(size as nat) + mid + decimal(max as nat)
                    + end),
            BridgeError::SpoolerFailed(m) => exists|head: Seq<char>|
                error_text(e) == #[trigger] (head + m@),
            BridgeError::BadRequest(m) => exists|head: Seq<char>|
                error_text(e) == #[trigger] (head + m@),
            BridgeError::Base64(m) => exists|head: Seq<char>|
                error_text(e) == #[trigger] (head + m@),
            BridgeError::Io(m) => exists|head: Seq<char>| error_text(e) == #[trigger] (head + m@),
            BridgeError::Tls(m) => exists|head: Seq<char>| error_text(e) == #[trigger] (head + m@),
            BridgeError::Config(m) => exists|head: Seq<char>|
                error_text(e) == #[trigger] (head + m@),
            BridgeError::Relay(m) => exists|head: Seq<char>| error_text(e) == #[trigger] (head + m@),
        },
{
    match e {
        BridgeError::PayloadTooLarge(size, max) => {
            let head = "payload exceeds limit ("@;
            let mid = " bytes, max "@;
            let end = ")"@;
            assert(error_text(e) == head + decimal(size as nat) + mid + decimal(max as nat) + end);
        },
        BridgeError::PrinterNotFound(m) => {
            let head = "printer '"@;
            let end = "' not found on this system"@;
            assert(error_text(e) == head + m@ + end);
        },
        BridgeError::SpoolerFailed(m) => {
            assert(error_text(e) == "print spooler call failed: "@ + m@);
        },
        BridgeError::BadRequest(m) => {
            assert(error_text(e) == "invalid request: "@ + m@);
        },
        BridgeError::Base64(m) => {
            assert(error_text(e) == "base64 decode failed: "@ + m@);
        },
        BridgeError::Io(m) => {
            assert(error_text(e) == "i/o error: "@ + m@);
        },
        BridgeError::Tls(m) => {
            assert(error_text(e) == "tls configuration: "@ + m@);
        },
        BridgeError::Config(m) => {
            assert(error_text(e) == "configuración: "@ + m@);
        },
        BridgeError::Relay(m) => {
            assert(error_text(e) == "relay: "@ + m@);
        },
        _ => {},
    }
}

} // verus!
