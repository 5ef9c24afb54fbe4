//! The outbound relay: the bridge's permanent connection to the server.
//!
//! The till dials *out* and keeps the socket open, so there is no port to
//! forward and no static address to buy. The server pushes print jobs down it.
//!
//! * handshake `auth: { stationToken }`;
//! * `station-hello { bridgeVersion, os, printers }`: presence, sent on connect
//!   and every minute;
//! * `print-job { jobId, role, kind, osPrinterName, escposBase64, copies,
//!   orderId, … }`: inbound work;
//! * `print-result { jobId, ok, error }`: the ack.
//!
//! This module holds what is decided: what state the relay is in, how long to
//! wait, what a frame leads to, whether a job prints. Sockets, timers and the
//! spooler are the caller's.

use vstd::prelude::*;
use vstd::string::*;
use vstd::utf8::encode_utf8;

use crate::config::{server_url_of, Settings, SettingsView};
use crate::error::joined;
use crate::json::{
    element, found_under, json_items, json_quoted, json_string, json_u64, lemma_found_at,
    lemma_texts_tree, nth, nullable_field,
    nullable_text, object_text, read_items, read_nullable_field, read_string_field,
    read_u64_field, record_member, record_text, string_field, strings_json, text_tree, texts_tree,
    tree_members, tree_text, u64_field, Json, Plain, Tree,
};
use crate::record::{
    distinct, found_text, has_text, lemma_written_member_text, may_have_null, may_have_text, member,
    names_of, read_record, record_in, text_under, Member,
};
use crate::text;
use crate::text::{decimal, text_opt, texts};

pub mod connection;
pub mod supervisor;
pub mod worker;

verus! {

/// The namespace the server mounts the relay on.
pub const NAMESPACE: &'static str = "/print";

/// First retry delay, and the unit the exponential grows from. Milliseconds,
/// as every duration of the relay.
pub const BASE_BACKOFF: u64 = 1_000;

/// Cap. Short enough that a shop coming back after a night's outage prints
/// within the minute; long enough not to be a packet storm against the server.
pub const MAX_BACKOFF: u64 = 60_000;

/// Applied when the server says the token is invalid or revoked.
pub const REVOKED_BACKOFF: u64 = 300_000;

/// Cap on the wait between attempts to take the print ledger. Shorter than
/// [`MAX_BACKOFF`] because somebody is standing at the till waiting for it.
pub const LEDGER_RETRY_MAX: u64 = 15_000;

/// How many ledger attempts between the reminders in the log.
pub const LEDGER_LOG_EVERY: u32 = 20;

/// How long a connection must hold before the backoff resets.
pub const HEALTHY_AFTER: u64 = 30_000;

/// Presence beat. The server expires presence at three minutes.
pub const HELLO_EVERY: u64 = 60_000;

/// How long the beat waits for the spooler to list the printers.
pub const PRINTER_LIST_TIMEOUT: u64 = 10_000;

/// How long to wait for the namespace ack before giving up on the handshake.
pub const HANDSHAKE_TIMEOUT: u64 = 20_000;

/// Depth of the print queue.
pub const PRINT_QUEUE_DEPTH: usize = 256;

pub const EV_PRINT_JOB: &'static str = "print-job";

pub const EV_PRINT_RESULT: &'static str = "print-result";

pub const EV_STATION_HELLO: &'static str = "station-hello";

// ── A job ───────────────────────────────────────────────────────────────

/// A job as it comes off the wire.
#[derive(Debug, Clone)]
pub struct PrintJob {
    pub job_id: String,
    pub role: String,
    pub kind: String,
    pub os_printer_name: Option<String>,
    pub escpos_base64: String,
    pub copies: u32,
    pub order_id: Option<String>,
}

/// What a job says.
pub struct PrintJobView {
    pub id: Seq<char>,
    pub role: Seq<char>,
    pub kind: Seq<char>,
    pub printer: Option<Seq<char>>,
    pub escpos: Seq<char>,
    pub copies: u32,
    pub order: Option<Seq<char>>,
}

impl View for PrintJob {
    type V = PrintJobView;

    open spec fn view(&self) -> PrintJobView {
        PrintJobView {
            id: self.job_id@,
            role: self.role@,
            kind: self.kind@,
            printer: text_opt(self.os_printer_name),
            escpos: self.escpos_base64@,
            copies: self.copies,
            order: text_opt(self.order_id),
        }
    }
}

/// A string that is empty when the field is absent: `None` when the field is
/// there and no string.
pub open spec fn text_or_empty(field: Option<Seq<char>>) -> Option<Seq<char>> {
    match field {
        Some(t) => json_string(t),
        None => Some(Seq::empty()),
    }
}

/// The number of copies: one when the field is absent, `None` when it is no
/// number of 32 bits.
pub open spec fn copies_of(field: Option<Option<u64>>) -> Option<u32> {
    match field {
        None => Some(1),
        Some(Some(n)) => if n <= u32::MAX {
            Some(n as u32)
        } else {
            None
        },
        Some(None) => None,
    }
}

/// The job that seven fields make up. The id and the bytes have to be there;
/// the others have defaults, but not for a value of the wrong type.
pub open spec fn job_from_fields(
    id: Option<Seq<char>>,
    role: Option<Seq<char>>,
    kind: Option<Seq<char>>,
    printer: Option<Option<Seq<char>>>,
    escpos: Option<Seq<char>>,
    copies: Option<Option<u64>>,
    order: Option<Option<Seq<char>>>,
) -> Option<PrintJobView> {
    match (id, role, kind, printer, escpos, copies_of(copies), order) {
        (
            Some(id),
            Some(role),
            Some(kind),
            Some(printer),
            Some(escpos),
            Some(copies),
            Some(order),
        ) => Some(PrintJobView { id, role, kind, printer, escpos, copies, order }),
        _ => None,
    }
}

/// The job that a JSON value describes: an object with the server's member
/// names, or the values in an array, in order, as far as the bytes at least.
pub open spec fn job_of(payload: Seq<char>) -> Option<PrintJobView> {
    match json_items(payload) {
        Some(items) => if 5 <= items.len() <= 7 {
            job_from_fields(
                string_field(element(items, 0)),
                text_or_empty(element(items, 1)),
                text_or_empty(element(items, 2)),
                nullable_field(element(items, 3)),
                string_field(element(items, 4)),
                u64_field(element(items, 5)),
                nullable_field(element(items, 6)),
            )
        } else {
            None
        },
        None => match record_in(encode_utf8(payload), job_names()) {
            Some(m) => job_from_fields(
                string_field(member(m, "jobId"@)),
                text_or_empty(member(m, "role"@)),
                text_or_empty(member(m, "kind"@)),
                nullable_field(member(m, "osPrinterName"@)),
                string_field(member(m, "escposBase64"@)),
                u64_field(member(m, "copies"@)),
                nullable_field(member(m, "orderId"@)),
            ),
            None => None,
        },
    }
}

/// The names of the members of a job.
pub open spec fn job_names() -> Seq<Seq<char>> {
    seq!["jobId"@, "role"@, "kind"@, "osPrinterName"@, "escposBase64"@, "copies"@, "orderId"@]
}

/// The view of a job that may be absent.
pub open spec fn job_opt(job: Option<PrintJob>) -> Option<PrintJobView> {
    match job {
        Some(j) => Some(j@),
        None => None,
    }
}

/// The number of copies when a job does not say.
fn one() -> (r: u32)
    ensures
        r == 1,
{
    1
}

fn read_text_or_empty(field: Option<String>) -> (r: Option<String>)
    ensures
        text_opt(r) == text_or_empty(text_opt(field)),
        forall|s: Seq<char>|
            text_opt(field) == Some(#[trigger] json_quoted(s)) ==> text_opt(r) == Some(s),
{
    match field {
        Some(t) => read_string_field(Some(t)),
        None => Some(String::new()),
    }
}

fn copies_or_one(field: Option<Option<u64>>) -> (r: Option<u32>)
    ensures
        r == copies_of(field),
{
    match field {
        None => Some(one()),
        Some(Some(n)) => {
            if n <= u32::MAX as u64 {
                Some(n as u32)
            } else {
                None
            }
        },
        Some(None) => None,
    }
}

impl PrintJob {
    /// The job that seven fields make up.
    pub fn from_fields(
        id: Option<String>,
        role: Option<String>,
        kind: Option<String>,
        printer: Option<Option<String>>,
        escpos: Option<String>,
        copies: Option<Option<u64>>,
        order: Option<Option<String>>,
    ) -> (r: Option<PrintJob>)
        ensures
            job_opt(r) == job_from_fields(
                text_opt(id),
                text_opt(role),
                text_opt(kind),
                nullable_text(printer),
                text_opt(escpos),
                copies,
                nullable_text(order),
            ),
    {
        match (id, role, kind, printer, escpos, copies_or_one(copies), order) {
            (
                Some(job_id),
                Some(role),
                Some(kind),
                Some(os_printer_name),
                Some(escpos_base64),
                Some(copies),
                Some(order_id),
            ) => Some(
                PrintJob { job_id, role, kind, os_printer_name, escpos_base64, copies, order_id },
            ),
            _ => None,
        }
    }

    /// The job that a JSON value describes. The object that a job is written as
    /// describes that job, each member its own field, whatever stands beside them;
    /// and where it does not say, a job prints once, and the rest is left empty.
    pub fn from_json(payload: &Json) -> (r: Option<PrintJob>)
        ensures
            job_opt(r) == job_of(payload@),
            forall|members: Seq<(Seq<char>, Plain)>|
                payload@ == #[trigger] record_text(members) && members.len() > 0 && distinct(members)
                    && has_text(members, "jobId"@) && has_text(members, "escposBase64"@)
                    && may_have_text(members, "role"@) && may_have_text(members, "kind"@)
                    && may_have_null(members, "osPrinterName"@) && may_have_null(
                    members,
                    "orderId"@,
                ) && (record_member(members, "copies"@) matches Some(n) ==> n matches Plain::Number(
                    c,
                ) && c <= u32::MAX) ==> {
                    &&& r matches Some(job)
                    &&& text_under(members, "jobId"@) == Some(job.job_id@)
                    &&& text_under(members, "escposBase64"@) == Some(job.escpos_base64@)
                    &&& text_under(members, "osPrinterName"@) == text_opt(job.os_printer_name)
                    &&& text_under(members, "orderId"@) == text_opt(job.order_id)
                    &&& match text_under(members, "role"@) {
                        Some(role) => job.role@ == role,
                        None => job.role@.len() == 0,
                    }
                    &&& match text_under(members, "kind"@) {
                        Some(kind) => job.kind@ == kind,
                        None => job.kind@.len() == 0,
                    }
                    &&& match record_member(members, "copies"@) {
                        Some(Plain::Number(c)) => job.copies == c,
                        _ => job.copies == 1,
                    }
                },
    {
        match read_items(payload.text()) {
            Some(items) => {
                if 5 <= items.len() && items.len() <= 7 {
                    PrintJob::from_fields(
                        read_string_field(nth(&items, 0)),
                        read_text_or_empty(nth(&items, 1)),
                        read_text_or_empty(nth(&items, 2)),
                        read_nullable_field(nth(&items, 3)),
                        read_string_field(nth(&items, 4)),
                        read_u64_field(nth(&items, 5)),
                        read_nullable_field(nth(&items, 6)),
                    )
                } else {
                    None
                }
            },
            None => PrintJob::from_object(payload.text()),
        }
    }

    fn from_object(payload: &str) -> (r: Option<PrintJob>)
        requires
            json_items(payload@) is None,
        ensures
            job_opt(r) == job_of(payload@),
            forall|members: Seq<(Seq<char>, Plain)>|
                payload@ == #[trigger] record_text(members) && members.len() > 0 && distinct(members)
                    && has_text(members, "jobId"@) && has_text(members, "escposBase64"@)
                    && may_have_text(members, "role"@) && may_have_text(members, "kind"@)
                    && may_have_null(members, "osPrinterName"@) && may_have_null(
                    members,
                    "orderId"@,
                ) && (record_member(members, "copies"@) matches Some(n) ==> n matches Plain::Number(
                    c,
                ) && c <= u32::MAX) ==> {
                    &&& r matches Some(job)
                    &&& text_under(members, "jobId"@) == Some(job.job_id@)
                    &&& text_under(members, "escposBase64"@) == Some(job.escpos_base64@)
                    &&& text_under(members, "osPrinterName"@) == text_opt(job.os_printer_name)
                    &&& text_under(members, "orderId"@) == text_opt(job.order_id)
                    &&& match text_under(members, "role"@) {
                        Some(role) => job.role@ == role,
                        None => job.role@.len() == 0,
                    }
                    &&& match text_under(members, "kind"@) {
                        Some(kind) => job.kind@ == kind,
                        None => job.kind@.len() == 0,
                    }
                    &&& match record_member(members, "copies"@) {
                        Some(Plain::Number(c)) => job.copies == c,
                        _ => job.copies == 1,
                    }
                },
    {
        let names: Vec<&'static str> = vec![
            "jobId",
            "role",
            "kind",
            "osPrinterName",
            "escposBase64",
            "copies",
            "orderId",
        ];
        assert(names_of(names@) =~= job_names());
        match read_record(payload.as_bytes(), &names) {
            Some(m) => {
                let id = m.get("jobId");
                let role = m.get("role");
                let kind = m.get("kind");
                let printer = m.get("osPrinterName");
                let escpos = m.get("escposBase64");
                let copies = m.get("copies");
                let order = m.get("orderId");
                proof {
                    assert forall|members: Seq<(Seq<char>, Plain)>|
                        payload@ == #[trigger] record_text(members) && members.len() > 0
                            && distinct(members) implies text_opt(id) == found_text(members, "jobId"@)
                        && text_opt(role) == found_text(members, "role"@) && text_opt(kind)
                        == found_text(members, "kind"@) && text_opt(printer) == found_text(
                        members,
                        "osPrinterName"@,
                    ) && text_opt(escpos) == found_text(members, "escposBase64"@) && text_opt(copies)
                        == found_text(members, "copies"@) && text_opt(order) == found_text(
                        members,
                        "orderId"@,
                    ) by {
                        lemma_written_member_text(members, false, "jobId"@);
                        lemma_written_member_text(members, false, "role"@);
                        lemma_written_member_text(members, false, "kind"@);
                        lemma_written_member_text(members, false, "osPrinterName"@);
                        lemma_written_member_text(members, false, "escposBase64"@);
                        lemma_written_member_text(members, false, "copies"@);
                        lemma_written_member_text(members, false, "orderId"@);
                    }
                }
                PrintJob::from_fields(
                    read_string_field(id),
                    read_text_or_empty(role),
                    read_text_or_empty(kind),
                    read_nullable_field(printer),
                    read_string_field(escpos),
                    read_u64_field(copies),
                    read_nullable_field(order),
                )
            },
            None => None,
        }
    }
}

// ── The state ───────────────────────────────────────────────────────────

/// Where the relay is, as one value.
#[derive(Debug, Clone, Copy, PartialEq, Eq, Structural)]
pub enum RelayState {
    /// No station paired on this till yet. Nothing is wrong.
    Unpaired,
    /// Dialling, or waiting out a backoff. The only one of these that fixes
    /// itself.
    Connecting,
    /// In the room, receiving jobs.
    Connected,
    /// The server refused the station token. Fixed from the server's panel.
    Rejected,
    /// Another copy of the bridge on this machine holds the print ledger, so
    /// this one stands down. Fixed by closing that copy.
    Standby,
    /// The print ledger cannot be opened at all. **Nothing prints through the
    /// relay and waiting will not change it.**
    LedgerUnavailable,
}

impl Default for RelayState {
    fn default() -> (r: RelayState)
        ensures
            r == RelayState::Unpaired,
    {
        RelayState::Unpaired
    }
}

/// The name of a state on the wire.
pub open spec fn relay_state_name(state: RelayState) -> Seq<char> {
    match state {
        RelayState::Unpaired => "unpaired"@,
        RelayState::Connecting => "connecting"@,
        RelayState::Connected => "connected"@,
        RelayState::Rejected => "rejected"@,
        RelayState::Standby => "standby"@,
        RelayState::LedgerUnavailable => "ledger-unavailable"@,
    }
}

impl RelayState {
    /// Every variant, so a surface that has to enumerate them cannot miss one.
    pub const ALL: [RelayState; 6] = [
        RelayState::Unpaired,
        RelayState::Connecting,
        RelayState::Connected,
        RelayState::Rejected,
        RelayState::Standby,
        RelayState::LedgerUnavailable,
    ];

    /// The name on the wire.
    pub fn as_str(self) -> (r: &'static str)
        ensures
            r@ == relay_state_name(self),
    {
        match self {
            RelayState::Unpaired => "unpaired",
            RelayState::Connecting => "connecting",
            RelayState::Connected => "connected",
            RelayState::Rejected => "rejected",
            RelayState::Standby => "standby",
            RelayState::LedgerUnavailable => "ledger-unavailable",
        }
    }

    /// Can the server route a ticket here right now?
    pub fn is_serving(self) -> (r: bool)
        ensures
            r == (self is Connected),
    {
        matches!(self, RelayState::Connected)
    }

    /// True while the bridge will not recover on its own.
    pub fn needs_a_human(self) -> (r: bool)
        ensures
            r == (self is Rejected || self is Standby || self is LedgerUnavailable),
    {
        matches!(self, RelayState::Rejected | RelayState::Standby | RelayState::LedgerUnavailable)
    }
}

// ── The status ──────────────────────────────────────────────────────────

/// What the settings window shows. The station token is not among it.
#[derive(Debug)]
pub struct RelayStatus {
    /// The single source of truth. `connected`, `token_rejected` and
    /// `blocked_by_another_instance` are computed from it.
    pub state: RelayState,
    pub paired: bool,
    pub connected: bool,
    pub server_url: String,
    pub label: Option<String>,
    pub roles: Vec<String>,
    /// Last transport or auth error, in the words the operator needs.
    pub last_error: Option<String>,
    /// True when the server rejected the token.
    pub token_rejected: bool,
    /// True while another copy of the bridge on this machine holds the print
    /// ledger, so this one is deliberately standing down.
    pub blocked_by_another_instance: bool,
    /// Set once, when the print ledger only opened because damage was worked
    /// around.
    pub ledger_recovered: Option<String>,
    pub jobs_printed: u64,
    pub jobs_failed: u64,
}

/// What a status says.
#[verifier::ext_equal]
pub struct RelayStatusView {
    pub state: RelayState,
    pub paired: bool,
    pub connected: bool,
    pub server_url: Seq<char>,
    pub label: Option<Seq<char>>,
    pub roles: Seq<Seq<char>>,
    pub last_error: Option<Seq<char>>,
    pub token_rejected: bool,
    pub blocked_by_another_instance: bool,
    pub ledger_recovered: Option<Seq<char>>,
    pub jobs_printed: u64,
    pub jobs_failed: u64,
}

impl View for RelayStatus {
    type V = RelayStatusView;

    open spec fn view(&self) -> RelayStatusView {
        RelayStatusView {
            state: self.state,
            paired: self.paired,
            connected: self.connected,
            server_url: self.server_url@,
            label: text_opt(self.label),
            roles: texts(self.roles@),
            last_error: text_opt(self.last_error),
            token_rejected: self.token_rejected,
            blocked_by_another_instance: self.blocked_by_another_instance,
            ledger_recovered: text_opt(self.ledger_recovered),
            jobs_printed: self.jobs_printed,
            jobs_failed: self.jobs_failed,
        }
    }
}

/// The status of a relay that has done nothing yet.
pub open spec fn default_status() -> RelayStatusView {
    RelayStatusView {
        state: RelayState::Unpaired,
        paired: false,
        connected: false,
        server_url: Seq::empty(),
        label: None,
        roles: Seq::empty(),
        last_error: None,
        token_rejected: false,
        blocked_by_another_instance: false,
        ledger_recovered: None,
        jobs_printed: 0,
        jobs_failed: 0,
    }
}

impl Default for RelayStatus {
    fn default() -> (r: RelayStatus)
        ensures
            r@ == default_status(),
    {
        let r = RelayStatus {
            state: RelayState::default(),
            paired: false,
            connected: false,
            server_url: String::new(),
            label: None,
            roles: Vec::new(),
            last_error: None,
            token_rejected: false,
            blocked_by_another_instance: false,
            ledger_recovered: None,
            jobs_printed: 0,
            jobs_failed: 0,
        };
        assert(r@ =~= default_status());
        r
    }
}

impl Clone for RelayStatus {
    fn clone(&self) -> (r: RelayStatus)
        ensures
            r@ == self@,
    {
        RelayStatus {
            state: self.state,
            paired: self.paired,
            connected: self.connected,
            server_url: self.server_url.clone(),
            label: text::copy_opt(&self.label),
            roles: text::copy_list(&self.roles),
            last_error: text::copy_opt(&self.last_error),
            token_rejected: self.token_rejected,
            blocked_by_another_instance: self.blocked_by_another_instance,
            ledger_recovered: text::copy_opt(&self.ledger_recovered),
            jobs_printed: self.jobs_printed,
            jobs_failed: self.jobs_failed,
        }
    }
}

/// The last error, or the sentence for when there is none.
pub open spec fn error_or(last_error: Option<Seq<char>>, otherwise: Seq<char>) -> Seq<char> {
    match last_error {
        Some(e) => e,
        None => otherwise,
    }
}

/// One sentence for whoever is looking at the till.
pub open spec fn detail_text(status: RelayStatusView) -> Seq<char> {
    match status.state {
        RelayState::Connected => match status.label {
            Some(label) => "Conectado a GourmelyHub como «"@ + label + "»."@,
            None => "Conectado a GourmelyHub."@,
        },
        RelayState::Unpaired =>
            "Esta caja no está vinculada a ninguna estación (Ajustes → Estación)."@,
        RelayState::Connecting => error_or(
            status.last_error,
            "Sin conexión con GourmelyHub; reintentando."@,
        ),
        RelayState::Rejected
        | RelayState::Standby
        | RelayState::LedgerUnavailable => error_or(
            status.last_error,
            "El bridge no puede recibir impresiones remotas."@,
        ),
    }
}

/// The JSON text of a string that may be absent.
pub open spec fn nullable_json(s: Option<Seq<char>>) -> Seq<char> {
    match s {
        Some(t) => json_quoted(t),
        None => "null"@,
    }
}

/// The JSON text of a boolean.
pub open spec fn bool_json(b: bool) -> Seq<char> {
    if b {
        "true"@
    } else {
        "false"@
    }
}

/// The members of the JSON object that a status is shown as.
pub open spec fn status_members(s: RelayStatusView) -> Seq<(Seq<char>, Seq<char>)> {
    seq![
        ("state"@, json_quoted(relay_state_name(s.state))),
        ("paired"@, bool_json(s.paired)),
        ("connected"@, bool_json(s.connected)),
        ("serverUrl"@, json_quoted(s.server_url)),
        ("label"@, nullable_json(s.label)),
        ("roles"@, strings_json(s.roles)),
        ("lastError"@, nullable_json(s.last_error)),
        ("tokenRejected"@, bool_json(s.token_rejected)),
        ("blockedByAnotherInstance"@, bool_json(s.blocked_by_another_instance)),
        ("ledgerRecovered"@, nullable_json(s.ledger_recovered)),
        ("jobsPrinted"@, decimal(s.jobs_printed as nat)),
        ("jobsFailed"@, decimal(s.jobs_failed as nat)),
    ]
}

fn or_else(last_error: &Option<String>, otherwise: &str) -> (r: String)
    ensures
        r@ == error_or(text_opt(*last_error), otherwise@),
{
    match last_error {
        Some(e) => e.clone(),
        None => otherwise.to_string(),
    }
}

impl RelayStatus {
    /// One sentence for whoever is looking at the till. The tray, the settings
    /// window and `/health` all render *this*, so the three cannot disagree.
    pub fn detail(&self) -> (r: String)
        ensures
            r@ == detail_text(self@),
    {
        match self.state {
            RelayState::Connected => match &self.label {
                Some(label) => {
                    let mut out = joined("Conectado a GourmelyHub como «", label.as_str());
                    out.append("».");
                    out
                },
                None => "Conectado a GourmelyHub.".to_string(),
            },
            RelayState::Unpaired =>
                "Esta caja no está vinculada a ninguna estación (Ajustes → Estación).".to_string(),
            RelayState::Connecting => or_else(
                &self.last_error,
                "Sin conexión con GourmelyHub; reintentando.",
            ),
            RelayState::Rejected
            | RelayState::Standby
            | RelayState::LedgerUnavailable => or_else(
                &self.last_error,
                "El bridge no puede recibir impresiones remotas.",
            ),
        }
    }

    /// The object the settings window reads.
    pub fn json(&self) -> (r: Json)
        ensures
            r@ == object_text(status_members(self@)),
    {
        let mut members: Vec<(String, Json)> = Vec::new();
        members.push(("state".to_string(), Json::string(self.state.as_str())));
        members.push(("paired".to_string(), Json::boolean(self.paired)));
        members.push(("connected".to_string(), Json::boolean(self.connected)));
        members.push(("serverUrl".to_string(), Json::string(self.server_url.as_str())));
        members.push(("label".to_string(), Json::string_or_null(&self.label)));
        members.push(("roles".to_string(), Json::strings(&self.roles)));
        members.push(("lastError".to_string(), Json::string_or_null(&self.last_error)));
        members.push(("tokenRejected".to_string(), Json::boolean(self.token_rejected)));
        members.push(
            (
                "blockedByAnotherInstance".to_string(),
                Json::boolean(self.blocked_by_another_instance),
            ),
        );
        members.push(("ledgerRecovered".to_string(), Json::string_or_null(&self.ledger_recovered)));
        members.push(("jobsPrinted".to_string(), Json::number(self.jobs_printed)));
        members.push(("jobsFailed".to_string(), Json::number(self.jobs_failed)));
        assert(members@.map_values(|m: (String, Json)| (m.0@, m.1@)) =~= status_members(self@));
        Json::object(&members)
    }
}

// ── The handle ──────────────────────────────────────────────────────────

/// What the relay reports of itself.
pub struct RelayHandle {
    status: RelayStatus,
}

impl View for RelayHandle {
    type V = RelayStatusView;

    closed spec fn view(&self) -> RelayStatusView {
        self.status@
    }
}

/// The status that is shown: what the relay reported, with what the settings
/// say, and with the three booleans that follow from the state.
pub open spec fn shown_status(kept: RelayStatusView, settings: SettingsView) -> RelayStatusView {
    RelayStatusView {
        paired: settings.station_token is Some,
        server_url: server_url_of(settings.server_url),
        label: settings.label,
        roles: settings.roles,
        connected: kept.state is Connected,
        token_rejected: kept.state is Rejected,
        blocked_by_another_instance: kept.state is Standby,
        ..kept
    }
}

/// The status after the ledger has been taken at the attempt `attempt`.
pub open spec fn ledger_taken_status(
    before: RelayStatusView,
    attempt: u32,
    recovered: Option<Seq<char>>,
) -> RelayStatusView {
    RelayStatusView {
        state: match before.state {
            RelayState::Rejected
            | RelayState::Standby
            | RelayState::LedgerUnavailable => RelayState::Unpaired,
            other => other,
        },
        last_error: if attempt > 0 {
            None
        } else {
            before.last_error
        },
        ledger_recovered: match recovered {
            Some(m) => Some(m),
            None => before.ledger_recovered,
        },
        ..before
    }
}

impl RelayHandle {
    /// The handle of a relay that has done nothing yet.
    pub fn new() -> (r: RelayHandle)
        ensures
            r@ == default_status(),
    {
        RelayHandle { status: RelayStatus::default() }
    }

    /// The status as everything outside sees it, under these settings.
    ///
    /// The three booleans are written **here and nowhere else**, from `state`.
    pub fn status(&self, settings: &Settings) -> (r: RelayStatus)
        ensures
            r@ == shown_status(self@, settings@),
    {
        let mut snapshot: RelayStatus = self.status.clone();
        snapshot.paired = settings.is_paired();
        snapshot.server_url = settings.server_url();
        snapshot.label = text::copy_opt(&settings.label);
        snapshot.roles = text::copy_list(&settings.roles);
        snapshot.connected = snapshot.state == RelayState::Connected;
        snapshot.token_rejected = snapshot.state == RelayState::Rejected;
        snapshot.blocked_by_another_instance = snapshot.state == RelayState::Standby;
        snapshot
    }

    /// Moves to `state`, leaving the last message alone.
    pub fn set_state(&mut self, state: RelayState)
        ensures
            final(self)@ == (RelayStatusView { state, ..old(self)@ }),
    {
        self.status.state = state;
    }

    /// Moves to `state` and says why, in the words the operator needs.
    pub fn fail(&mut self, state: RelayState, message: String)
        ensures
            final(self)@ == (RelayStatusView {
                state,
                last_error: Some(message@),
                ..old(self)@
            }),
    {
        self.status.state = state;
        self.status.last_error = Some(message);
    }

    /// In the room. Nothing to explain any more.
    pub fn joined(&mut self)
        ensures
            final(self)@ == (RelayStatusView {
                state: RelayState::Connected,
                last_error: None,
                ..old(self)@
            }),
    {
        self.status.state = RelayState::Connected;
        self.status.last_error = None;
    }

    /// No station is paired on this till.
    pub fn unpaired(&mut self)
        ensures
            final(self)@ == (RelayStatusView {
                state: RelayState::Unpaired,
                last_error: None,
                ..old(self)@
            }),
    {
        self.status.state = RelayState::Unpaired;
        self.status.last_error = None;
    }

    /// A job came in and the print queue had no room for it. The server will
    /// replay it.
    pub fn queue_full(&mut self)
        ensures
            final(self)@ == (RelayStatusView {
                last_error: Some(
                    "La cola de impresión está llena. Revisa que la impresora responda."@,
                ),
                ..old(self)@
            }),
    {
        self.status.last_error = Some(
            "La cola de impresión está llena. Revisa que la impresora responda.".to_string(),
        );
    }

    /// The print ledger was taken, at the attempt `attempt`.
    ///
    /// Deliberately not `Connecting`: whether there is a token to dial with is
    /// decided next. A message is cleared only where the wait for the ledger put
    /// it there; damage that was worked around stays on screen.
    pub fn ledger_taken(&mut self, attempt: u32, recovered: Option<String>)
        ensures
            final(self)@ == ledger_taken_status(old(self)@, attempt, text_opt(recovered)),
    {
        if self.status.state.needs_a_human() {
            self.status.state = RelayState::Unpaired;
        }
        if attempt > 0 {
            self.status.last_error = None;
        }
        if recovered.is_some() {
            self.status.ledger_recovered = recovered;
        }
    }

    /// How many jobs were printed, and how many failed.
    pub fn count(&mut self, printed: u64, failed: u64)
        ensures
            final(self)@ == (RelayStatusView {
                jobs_printed: printed,
                jobs_failed: failed,
                ..old(self)@
            }),
    {
        self.status.jobs_printed = printed;
        self.status.jobs_failed = failed;
    }
}

// ── Waiting ─────────────────────────────────────────────────────────────

/// `SystemTime::elapsed` of the Unix epoch.
///
/// Claims nothing of the moment. There is none when the clock is before the
/// epoch.
#[verifier::external_body]
fn since_epoch() -> (r: Option<core::time::Duration>) {
    std::time::UNIX_EPOCH.elapsed().ok()
}

/// `Duration::subsec_nanos`: the part of a duration that is less than a second,
/// in nanoseconds.
pub assume_specification[ core::time::Duration::subsec_nanos ](d: &core::time::Duration) -> (r: u32)
    ensures
        r < 1_000_000_000,
;

/// `2^n`.
pub open spec fn power_of_two(n: nat) -> nat
    decreases n,
{
    if n == 0 {
        1
    } else {
        2 * power_of_two((n - 1) as nat)
    }
}

/// `BASE_BACKOFF * 2^attempt`, which stops growing after six attempts, and at
/// most `cap`.
pub open spec fn exponential(attempt: u32, cap: u64) -> u64 {
    let n = if attempt < 6 {
        attempt as nat
    } else {
        6
    };
    let grown = BASE_BACKOFF * power_of_two(n);
    if grown < cap {
        grown as u64
    } else {
        cap
    }
}

/// The range that the jitter is taken from: a fifth of the wait, and never
/// empty.
pub open spec fn jitter_bound(exp: u64) -> u64 {
    if exp / 5 > 1 {
        exp / 5
    } else {
        1
    }
}

/// The wait before the next attempt, when the clock shows `nanos`.
pub open spec fn wait_at(attempt: u32, cap: u64, nanos: u32) -> int {
    let exp = exponential(attempt, cap);
    exp + (nanos as int) % (jitter_bound(exp) as int)
}

/// The wait before the next attempt: exponential up to `cap`, plus up to 20% of
/// jitter so a shop with several tills does not reconnect them all on the same
/// tick.
pub fn backoff_at(attempt: u32, cap: u64, nanos: u32) -> (r: u64)
    ensures
        r == wait_at(attempt, cap, nanos),
        r >= exponential(attempt, cap),
        cap >= 5 ==> r <= cap + cap / 5,
{
    let n: u32 = if attempt < 6 {
        attempt
    } else {
        6
    };
    let mut factor: u64 = 1;
    let mut i: u32 = 0;
    proof {
        reveal_with_fuel(power_of_two, 7);
    }
    while i < n
        invariant
            i <= n <= 6,
            factor == power_of_two(i as nat),
            factor <= 64,
        decreases n - i,
    {
        proof {
            reveal_with_fuel(power_of_two, 7);
        }
        factor = factor * 2;
        i += 1;
    }
    let grown: u64 = BASE_BACKOFF * factor;
    let exp: u64 = if grown < cap {
        grown
    } else {
        cap
    };
    let bound: u64 = if exp / 5 > 1 {
        exp / 5
    } else {
        1
    };
    exp + spread(bound, nanos)
}

/// A number below `bound`, out of the nanoseconds of the clock. Deliberately not
/// a random generator: this decides when to retry, nothing more.
pub fn spread(bound: u64, nanos: u32) -> (r: u64)
    ensures
        r == (if bound == 0 {
            0
        } else {
            (nanos as int) % (bound as int)
        }),
{
    if bound == 0 {
        return 0;
    }
    (nanos as u64) % bound
}

/// The nanoseconds that the clock shows, or zero when it shows none.
pub fn clock() -> (r: u32)
    ensures
        r < 1_000_000_000,
{
    match since_epoch() {
        Some(d) => nanos_or_zero(Some(d.subsec_nanos())),
        None => nanos_or_zero(None),
    }
}

/// The nanoseconds of a reading of the clock, or zero where there is no reading:
/// a clock that is set before the epoch costs the jitter, never the wait.
pub fn nanos_or_zero(reading: Option<u32>) -> (r: u32)
    ensures
        r == (match reading {
            Some(nanos) => nanos,
            None => 0,
        }),
{
    match reading {
        Some(nanos) => nanos,
        None => 0,
    }
}

/// [`backoff_at`] by the clock of this machine.
pub fn backoff_to(attempt: u32, cap: u64) -> (r: u64)
    ensures
        exists|nanos: u32| nanos < 1_000_000_000 && r == #[trigger] wait_at(attempt, cap, nanos),
        r >= exponential(attempt, cap),
        cap >= 5 ==> r <= cap + cap / 5,
{
    let nanos: u32 = clock();
    backoff_at(attempt, cap, nanos)
}

/// The wait before dialling the server again.
pub fn backoff(attempt: u32) -> (r: u64)
    ensures
        exists|nanos: u32|
            nanos < 1_000_000_000 && r == #[trigger] wait_at(attempt, MAX_BACKOFF, nanos),
        r >= exponential(attempt, MAX_BACKOFF),
        r <= MAX_BACKOFF + MAX_BACKOFF / 5,
{
    backoff_to(attempt, MAX_BACKOFF)
}

// ── Laws ────────────────────────────────────────────────────────────────

/// The wait never shrinks from one attempt to a later one, jitter aside.
pub proof fn law_the_wait_grows(earlier: u32, later: u32, cap: u64)
    requires
        earlier <= later,
    ensures
        exponential(earlier, cap) <= exponential(later, cap),
{
    reveal_with_fuel(power_of_two, 7);
}

/// Jitter included, a wait is never below its exponential part and at most a
/// fifth above the cap.
pub proof fn law_the_wait_is_capped(attempt: u32, cap: u64, nanos: u32)
    requires
        cap >= 5,
    ensures
        exponential(attempt, cap) <= wait_at(attempt, cap, nanos) <= cap + cap / 5,
{
    let exp = exponential(attempt, cap);
    assert(0 <= (nanos as int) % (jitter_bound(exp) as int) < jitter_bound(exp)) by (nonlinear_arith)
        requires
            jitter_bound(exp) >= 1,
    ;
}

/// Waiting for the ledger is never longer than waiting for the server after as
/// many attempts, jitter aside.
pub proof fn law_the_ledger_wait_is_the_shorter_one(attempt: u32)
    ensures
        exponential(attempt, LEDGER_RETRY_MAX) <= exponential(attempt, MAX_BACKOFF),
{
    reveal_with_fuel(power_of_two, 7);
}

/// No two states have the same name on the wire.
pub proof fn law_state_names_are_distinct(a: RelayState, b: RelayState)
    ensures
        relay_state_name(a) == relay_state_name(b) ==> a == b,
{
    reveal_strlit("unpaired");
    reveal_strlit("connecting");
    reveal_strlit("connected");
    reveal_strlit("rejected");
    reveal_strlit("standby");
    reveal_strlit("ledger-unavailable");
    assert("unpaired"@.len() == 8 && "unpaired"@[0] == 'u');
    assert("connecting"@.len() == 10);
    assert("connected"@.len() == 9);
    assert("rejected"@.len() == 8 && "rejected"@[0] == 'r');
    assert("standby"@.len() == 7);
    assert("ledger-unavailable"@.len() == 18);
}

/// The booleans of a status that is shown follow from its state, whatever was
/// kept: at most one of them is set, and it is the one of that state.
pub proof fn law_the_booleans_follow_the_state(kept: RelayStatusView, settings: SettingsView)
    ensures
        ({
            let s = shown_status(kept, settings);
            &&& s.state == kept.state
            &&& s.connected == (s.state is Connected)
            &&& s.token_rejected == (s.state is Rejected)
            &&& s.blocked_by_another_instance == (s.state is Standby)
            &&& !(s.connected && s.token_rejected)
            &&& !(s.connected && s.blocked_by_another_instance)
            &&& !(s.token_rejected && s.blocked_by_another_instance)
        }),
{
}

/// The status gives nothing of the credentials away: settings that differ in the
/// station token and in the local secret alone, both paired, show the same.
pub proof fn law_the_status_gives_no_credential_away(
    kept: RelayStatusView,
    settings: SettingsView,
    other: SettingsView,
)
    requires
        settings.station_token is Some,
        other.station_token is Some,
        other == (SettingsView {
            station_token: other.station_token,
            local_secret: other.local_secret,
            ..settings
        }),
    ensures
        shown_status(kept, settings) == shown_status(kept, other),
{
}

/// Each wait is twice the one before it, until the cap; the first is a second, and
/// after six attempts it stays as it is. Jitter aside, which the clock's zero
/// leaves out.
pub proof fn law_the_wait_doubles(attempt: u32, cap: u64, nanos: u32)
    ensures
        exponential(0, cap) == (if cap > 1_000 {
            1_000
        } else {
            cap
        }),
        attempt < 6 ==> exponential((attempt + 1) as u32, cap) == (if 2 * exponential(attempt, cap)
            < cap {
            2 * exponential(attempt, cap)
        } else {
            cap as int
        }),
        attempt >= 6 ==> exponential(attempt, cap) == exponential(6, cap),
        wait_at(attempt, cap, 0) == exponential(attempt, cap),
{
    reveal_with_fuel(power_of_two, 8);
}

/// The jitter is below a fifth of the wait, and there is some of it whenever the
/// clock shows less than that.
pub proof fn law_the_jitter_is_a_fifth(attempt: u32, cap: u64, nanos: u32)
    ensures
        exponential(attempt, cap) <= wait_at(attempt, cap, nanos),
        exponential(attempt, cap) >= 10 ==> wait_at(attempt, cap, nanos) < exponential(attempt, cap)
            + exponential(attempt, cap) / 5,
        nanos < exponential(attempt, cap) / 5 ==> wait_at(attempt, cap, nanos) == exponential(
            attempt,
            cap,
        ) + nanos,
{
    let exp = exponential(attempt, cap);
    let bound = jitter_bound(exp) as int;
    let n = nanos as int;
    assert(0 <= n % bound < bound) by (nonlinear_arith)
        requires
            bound >= 1,
    ;
    if n < bound {
        assert(n % bound == n) by (nonlinear_arith)
            requires
                0 <= n < bound,
        ;
    }
}

/// A job says what the members of its object hold, each field what stands under
/// its own name.
pub proof fn law_a_job_is_what_its_members_hold(
    payload: Seq<char>,
    members: Seq<Member>,
    job: PrintJobView,
)
    requires
        json_items(payload) is None,
        record_in(
            encode_utf8(payload),
            seq!["jobId"@, "role"@, "kind"@, "osPrinterName"@, "escposBase64"@, "copies"@, "orderId"@],
        ) == Some(members),
        job_of(payload) == Some(job),
    ensures
        member(members, "jobId"@) matches Some(t) && json_string(t) == Some(job.id),
        member(members, "escposBase64"@) matches Some(t) && json_string(t) == Some(job.escpos),
        match member(members, "role"@) {
            Some(t) => json_string(t) == Some(job.role),
            None => job.role.len() == 0,
        },
        match member(members, "kind"@) {
            Some(t) => json_string(t) == Some(job.kind),
            None => job.kind.len() == 0,
        },
        match member(members, "osPrinterName"@) {
            Some(t) => json_string(t) == job.printer && (job.printer is None ==> t == "null"@),
            None => job.printer is None,
        },
        match member(members, "orderId"@) {
            Some(t) => json_string(t) == job.order && (job.order is None ==> t == "null"@),
            None => job.order is None,
        },
        match member(members, "copies"@) {
            Some(t) => json_u64(t) == Some(job.copies as u64),
            None => job.copies == 1,
        },
{
}

/// A job that comes as an array says what its elements hold, each in its place.
pub proof fn law_a_job_is_what_its_elements_hold(
    payload: Seq<char>,
    items: Seq<Seq<char>>,
    job: PrintJobView,
)
    requires
        json_items(payload) == Some(items),
        job_of(payload) == Some(job),
    ensures
        5 <= items.len() <= 7,
        json_string(items[0]) == Some(job.id),
        json_string(items[1]) == Some(job.role),
        json_string(items[2]) == Some(job.kind),
        json_string(items[3]) == job.printer,
        json_string(items[4]) == Some(job.escpos),
        items.len() > 5 ==> json_u64(items[5]) == Some(job.copies as u64),
        items.len() <= 5 ==> job.copies == 1,
        items.len() > 6 ==> json_string(items[6]) == job.order,
        items.len() <= 6 ==> job.order is None,
{
}

/// A job means what it holds, field by field.
pub proof fn law_a_job_means_what_it_holds(job: PrintJob)
    ensures
        job@.id == job.job_id@ && job@.role == job.role@ && job@.kind == job.kind@,
        job@.escpos == job.escpos_base64@ && job@.copies == job.copies,
        job@.printer == (match job.os_printer_name {
            Some(s) => Some(s@),
            None => None,
        }),
        job@.order == (match job.order_id {
            Some(s) => Some(s@),
            None => None,
        }),
{
}

/// The status that is shown has what the settings say of the station and what the
/// relay reported of itself, each in its place.
pub proof fn law_the_status_shows_the_station(kept: RelayStatusView, settings: SettingsView)
    ensures
        ({
            let s = shown_status(kept, settings);
            &&& s.paired <==> settings.station_token is Some
            &&& s.label == settings.label
            &&& s.roles == settings.roles
            &&& s.server_url == server_url_of(settings.server_url)
            &&& s.last_error == kept.last_error
            &&& s.ledger_recovered == kept.ledger_recovered
            &&& s.jobs_printed == kept.jobs_printed
            &&& s.jobs_failed == kept.jobs_failed
        }),
{
}

/// What a reader finds in the status as it is shown: every field under its name.
pub proof fn law_the_status_is_read_as_it_is(s: RelayStatusView)
    ensures
        exists|members: Seq<(Seq<char>, Tree)>|
            {
                &&& members.len() == 12
                &&& found_under(members, "state"@) == Some(Tree::Text(relay_state_name(s.state)))
                &&& found_under(members, "paired"@) == Some(Tree::Boolean(s.paired))
                &&& found_under(members, "connected"@) == Some(Tree::Boolean(s.connected))
                &&& found_under(members, "serverUrl"@) == Some(Tree::Text(s.server_url))
                &&& found_under(members, "label"@) == Some(text_tree(s.label))
                &&& found_under(members, "roles"@) == Some(texts_tree(s.roles))
                &&& found_under(members, "lastError"@) == Some(text_tree(s.last_error))
                &&& found_under(members, "tokenRejected"@) == Some(Tree::Boolean(s.token_rejected))
                &&& found_under(members, "blockedByAnotherInstance"@) == Some(
                    Tree::Boolean(s.blocked_by_another_instance),
                )
                &&& found_under(members, "ledgerRecovered"@) == Some(text_tree(s.ledger_recovered))
                &&& found_under(members, "jobsPrinted"@) == Some(
                    Tree::Integer(s.jobs_printed as int),
                )
                &&& found_under(members, "jobsFailed"@) == Some(Tree::Integer(s.jobs_failed as int))
                &&& object_text(status_members(s)) == #[trigger] tree_text(Tree::Record(members))
            },
{
    let m = seq![
        ("state"@, Tree::Text(relay_state_name(s.state))),
        ("paired"@, Tree::Boolean(s.paired)),
        ("connected"@, Tree::Boolean(s.connected)),
        ("serverUrl"@, Tree::Text(s.server_url)),
        ("label"@, text_tree(s.label)),
        ("roles"@, texts_tree(s.roles)),
        ("lastError"@, text_tree(s.last_error)),
        ("tokenRejected"@, Tree::Boolean(s.token_rejected)),
        ("blockedByAnotherInstance"@, Tree::Boolean(s.blocked_by_another_instance)),
        ("ledgerRecovered"@, text_tree(s.ledger_recovered)),
        ("jobsPrinted"@, Tree::Integer(s.jobs_printed as int)),
        ("jobsFailed"@, Tree::Integer(s.jobs_failed as int)),
    ];
    lemma_status_names();
    lemma_texts_tree(s.roles);
    assert(tree_members(m) =~= status_members(s));
    lemma_found_at(m, 0);
    lemma_found_at(m, 1);
    lemma_found_at(m, 2);
    lemma_found_at(m, 3);
    lemma_found_at(m, 4);
    lemma_found_at(m, 5);
    lemma_found_at(m, 6);
    lemma_found_at(m, 7);
    lemma_found_at(m, 8);
    lemma_found_at(m, 9);
    lemma_found_at(m, 10);
    lemma_found_at(m, 11);
    assert(object_text(status_members(s)) == tree_text(Tree::Record(m)));
}

proof fn lemma_status_names()
    ensures
        "state"@.len() == 5 && "state"@[0] == 's',
        "paired"@.len() == 6,
        "connected"@.len() == 9 && "connected"@[0] == 'c',
        "serverUrl"@.len() == 9 && "serverUrl"@[0] == 's',
        "label"@.len() == 5 && "label"@[0] == 'l',
        "roles"@.len() == 5 && "roles"@[0] == 'r',
        "lastError"@.len() == 9 && "lastError"@[0] == 'l',
        "tokenRejected"@.len() == 13,
        "blockedByAnotherInstance"@.len() == 24,
        "ledgerRecovered"@.len() == 15,
        "jobsPrinted"@.len() == 11,
        "jobsFailed"@.len() == 10,
{
    reveal_strlit("state");
    reveal_strlit("paired");
    reveal_strlit("connected");
    reveal_strlit("serverUrl");
    reveal_strlit("label");
    reveal_strlit("roles");
    reveal_strlit("lastError");
    reveal_strlit("tokenRejected");
    reveal_strlit("blockedByAnotherInstance");
    reveal_strlit("ledgerRecovered");
    reveal_strlit("jobsPrinted");
    reveal_strlit("jobsFailed");
}

/// What the operator reads: the trouble itself where there is some and the relay
/// is not serving, and the name of the station where it is.
pub proof fn law_the_detail_says_what_is_wrong(status: RelayStatusView)
    ensures
        !(status.state is Connected || status.state is Unpaired) ==> (status.last_error matches Some(
            e,
        ) ==> detail_text(status) == e),
        status.state is Connected ==> (status.label matches Some(label) ==> exists|
            head: Seq<char>,
            end: Seq<char>,
        | detail_text(status) == #[trigger] (head + label + end)),
        status.state is Connected || status.state is Unpaired ==> detail_text(status)
            == detail_text(RelayStatusView { last_error: None, ..status }),
{
    if status.state is Connected && status.label is Some {
        let head = "Conectado a GourmelyHub como «"@;
        let end = "»."@;
        assert(detail_text(status) == head + status.label->Some_0 + end);
    }
}

/// Each state has the name that a reader of the wire knows it by.
pub proof fn law_a_state_is_known_by_its_name(state: RelayState)
    ensures
        relay_state_name(state) == "unpaired"@ <==> state is Unpaired,
        relay_state_name(state) == "connecting"@ <==> state is Connecting,
        relay_state_name(state) == "connected"@ <==> state is Connected,
        relay_state_name(state) == "rejected"@ <==> state is Rejected,
        relay_state_name(state) == "standby"@ <==> state is Standby,
        relay_state_name(state) == "ledger-unavailable"@ <==> state is LedgerUnavailable,
{
    law_state_names_are_distinct(state, RelayState::Unpaired);
    law_state_names_are_distinct(state, RelayState::Connecting);
    law_state_names_are_distinct(state, RelayState::Connected);
    law_state_names_are_distinct(state, RelayState::Rejected);
    law_state_names_are_distinct(state, RelayState::Standby);
    law_state_names_are_distinct(state, RelayState::LedgerUnavailable);
}

/// The jitter goes round: a clock that shows one more round of it gives the same wait.
pub proof fn law_the_jitter_goes_round(attempt: u32, cap: u64, nanos: u32, later: u32)
    requires
        exponential(attempt, cap) >= 10,
        later == nanos + exponential(attempt, cap) / 5,
    ensures
        wait_at(attempt, cap, later) == wait_at(attempt, cap, nanos),
{
    let bound = (exponential(attempt, cap) / 5) as int;
    let n = nanos as int;
    assert((n + bound) % bound == n % bound) by (nonlinear_arith)
        requires
            bound >= 1,
    ;
}

/// A status means what it holds, field by field.
pub proof fn law_a_status_means_what_it_holds(s: RelayStatus)
    ensures
        ({
            let text = |o: Option<String>|
                match o {
                    Some(t) => Some(t@),
                    None => None,
                };
            &&& s@.state == s.state && s@.paired == s.paired && s@.connected == s.connected
            &&& s@.server_url == s.server_url@ && s@.label == text(s.label)
            &&& s@.last_error == text(s.last_error) && s@.ledger_recovered == text(
                s.ledger_recovered,
            )
            &&& s@.token_rejected == s.token_rejected && s@.blocked_by_another_instance
                == s.blocked_by_another_instance
            &&& s@.jobs_printed == s.jobs_printed && s@.jobs_failed == s.jobs_failed
            &&& s@.roles.len() == s.roles@.len() && forall|i: int|
                0 <= i < s.roles@.len() ==> (#[trigger] s@.roles[i]) == s.roles@[i]@
        }),
{
}

/// A relay that has done nothing yet shows nothing.
pub proof fn law_a_new_relay_shows_nothing()
    ensures
        default_status().state is Unpaired,
        !default_status().connected && !default_status().paired,
        default_status().last_error is None && default_status().ledger_recovered is None,
        default_status().jobs_printed == 0 && default_status().jobs_failed == 0,
{
}

/// A job is taken wherever it says what it has to, in the right shape: as an object,
/// whatever else it says, or as an array.
pub proof fn law_a_job_in_shape_is_taken(payload: Seq<char>)
    ensures
        json_items(payload) is None ==> (record_in(
            encode_utf8(payload),
            seq!["jobId"@, "role"@, "kind"@, "osPrinterName"@, "escposBase64"@, "copies"@, "orderId"@],
        ) matches Some(m) ==> (member(m, "jobId"@) matches Some(t) && json_string(t) is Some) && (
        member(m, "escposBase64"@) matches Some(t) && json_string(t) is Some) && (member(
            m,
            "role"@,
        ) matches Some(t) ==> json_string(t) is Some) && (member(m, "kind"@) matches Some(t)
            ==> json_string(t) is Some) && (member(m, "osPrinterName"@) matches Some(t)
            ==> json_string(t) is Some || t == "null"@) && (member(m, "orderId"@) matches Some(t)
            ==> json_string(t) is Some || t == "null"@) && (member(m, "copies"@) matches Some(t)
            ==> json_u64(t) matches Some(n) && n <= u32::MAX) ==> job_of(payload) is Some),
        json_items(payload) matches Some(items) ==> 5 <= items.len() <= 7 && json_string(
            items[0],
        ) is Some && json_string(items[1]) is Some && json_string(items[2]) is Some && (json_string(
            items[3],
        ) is Some || items[3] == "null"@) && json_string(items[4]) is Some && (items.len() > 5 ==> (
        json_u64(items[5]) matches Some(n) && n <= u32::MAX)) && (items.len() > 6 ==> json_string(
            items[6],
        ) is Some || items[6] == "null"@) ==> job_of(payload) is Some,
{
}

} // verus!
