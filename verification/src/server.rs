//! The local socket: who may print through it, and what is answered.
//!
//! Routes:
//!   - `GET  /health`    → bridge metadata for the status badge
//!   - `GET  /printers`  → list of printer names
//!   - `WS   /print`     → JSON messages, one per text frame
//!
//! A browser cannot forge `Origin`, so an allowlist of origins shuts out the
//! other pages open on the till. A shared secret, presented as `?token=`,
//! `Authorization: Bearer …` or the `x-gourmelyprint-token` header, covers the
//! callers that are not browsers. [`LocalAuth`] decides how the two combine.

use vstd::prelude::*;
use vstd::slice::slice_index_get;
use vstd::string::*;

use crate::codec::{base64_bytes, decode_base64};
use crate::config::{LocalAuth, SettingsStore, ALLOWED_ORIGINS, MAX_PRINT_BYTES};
use crate::error::{error_text, joined, BridgeResult};
use crate::json::{
    found_under, json_quoted, lemma_found_at, lemma_texts_tree, object_text, strings_json,
    texts_tree, tree_members, tree_text, Json, Tree,
};
use crate::printer::{test_ticket, test_ticket_bytes};
use crate::relay::worker::decoded_view;
use crate::relay::{
    bool_json, detail_text, relay_state_name, RelayStatus,
    RelayStatusView,
};
use crate::text;
use crate::text::{after_prefix, decimal, text_opt, texts};

verus! {

/// What every request handler shares.
pub struct ServerState {
    /// When the server came up, in seconds.
    pub started_at: u64,
    pub version: &'static str,
    pub settings: SettingsStore,
}

// ── Who may print ───────────────────────────────────────────────────────

/// `?token=…` on the upgrade URL. A browser cannot set headers on a WebSocket,
/// so the query string is the only place a page can put the secret.
#[derive(Debug)]
pub struct AuthQuery {
    pub token: Option<String>,
}

impl Default for AuthQuery {
    fn default() -> (r: AuthQuery)
        ensures
            r.token is None,
    {
        AuthQuery { token: None }
    }
}

/// The headers the guard reads, as the bytes of their values: the first value
/// of each, if it was sent.
#[derive(Debug)]
pub struct Headers {
    pub origin: Option<Vec<u8>>,
    /// `x-gourmelyprint-token`.
    pub token: Option<Vec<u8>>,
    pub authorization: Option<Vec<u8>>,
}

impl Headers {
    /// No headers at all.
    pub fn none() -> (r: Headers)
        ensures
            r.origin is None,
            r.token is None,
            r.authorization is None,
    {
        Headers { origin: None, token: None, authorization: None }
    }
}

/// A byte that stands for itself in the text of a header: visible ASCII, the
/// space and the tab.
pub open spec fn header_byte(b: u8) -> bool {
    (0x20 <= b && b < 0x7f) || b == 0x09
}

/// The text of a header value, if each of its bytes stands for itself.
pub open spec fn header_text(value: Option<Vec<u8>>) -> Option<Seq<char>> {
    match value {
        Some(bytes) => if forall|i: int| 0 <= i < bytes@.len() ==> header_byte(#[trigger] bytes@[i]) {
            Some(bytes@.map_values(|b: u8| b as char))
        } else {
            None
        },
        None => None,
    }
}

fn read_header(value: &Option<Vec<u8>>) -> (r: Option<String>)
    ensures
        text_opt(r) == header_text(*value),
{
    match value {
        Some(bytes) => {
            let mut out = String::new();
            let mut i: usize = 0;
            let ghost chars = bytes@.map_values(|b: u8| b as char);
            assert(out@ =~= chars.take(0));
            while i < bytes.len()
                invariant
                    i <= bytes.len(),
                    *value == Some(*bytes),
                    chars == bytes@.map_values(|b: u8| b as char),
                    out@ == chars.take(i as int),
                    forall|j: int| 0 <= j < i ==> header_byte(#[trigger] bytes@[j]),
                decreases bytes.len() - i,
            {
                let b: u8 = bytes[i];
                if !((0x20 <= b && b < 0x7f) || b == 0x09) {
                    assert(!header_byte(bytes@[i as int]));
                    return None;
                }
                out.push(b as char);
                assert(out@ =~= chars.take(i + 1));
                i += 1;
            }
            assert(chars.take(i as int) =~= chars);
            Some(out)
        },
        None => None,
    }
}

/// Compares two secrets without stopping at the first difference.
pub fn secret_matches(expected: &str, presented: &str) -> (r: bool)
    ensures
        r == (expected@ == presented@),
{
    let a: &[u8] = expected.as_bytes();
    let b: &[u8] = presented.as_bytes();
    proof {
        text::lemma_same_bytes(expected@, presented@);
    }
    if a.len() != b.len() {
        return false;
    }
    let mut acc: u8 = 0;
    let mut i: usize = 0;
    while i < a.len()
        invariant
            i <= a.len(),
            a.len() == b.len(),
            acc == 0 <==> forall|j: int| 0 <= j < i ==> a@[j] == b@[j],
        decreases a.len() - i,
    {
        let x: u8 = *slice_index_get(a, i);
        let y: u8 = *slice_index_get(b, i);
        let ghost before = acc;
        assert(((before | (x ^ y)) == 0) <==> (before == 0 && x == y)) by (bit_vector);
        acc = acc | (x ^ y);
        i += 1;
    }
    proof {
        if acc == 0 {
            assert(a@ =~= b@);
        }
    }
    acc == 0
}

/// The origin is on the allowlist.
pub open spec fn allowed_origin(origin: Option<Seq<char>>) -> bool {
    match origin {
        Some(o) => exists|i: int| 0 <= i < 7 && (#[trigger] ALLOWED_ORIGINS@[i])@ == o,
        None => false,
    }
}

/// Whether the request comes from an origin on the allowlist.
pub fn origin_allowed(headers: &Headers) -> (r: bool)
    ensures
        r == allowed_origin(header_text(headers.origin)),
{
    match read_header(&headers.origin) {
        Some(origin) => {
            let list = ALLOWED_ORIGINS;
            let mut i: usize = 0;
            while i < 7
                invariant
                    i <= 7,
                    list == ALLOWED_ORIGINS,
                    header_text(headers.origin) == Some(origin@),
                    forall|j: int| 0 <= j < i ==> (#[trigger] ALLOWED_ORIGINS@[j])@ != origin@,
                decreases 7 - i,
            {
                if text::same(list[i], origin.as_str()) {
                    assert(ALLOWED_ORIGINS@[i as int]@ == origin@);
                    return true;
                }
                i += 1;
            }
            false
        },
        None => false,
    }
}

/// A text that is not empty.
pub open spec fn not_empty(s: Option<Seq<char>>) -> Option<Seq<char>> {
    match s {
        Some(t) => if t.len() > 0 {
            Some(t)
        } else {
            None
        },
        None => None,
    }
}

/// The secret that a request presents: in the query, in its own header, or as a
/// bearer token, whichever of them is there first.
pub open spec fn presented(headers: Headers, query: AuthQuery) -> Option<Seq<char>> {
    match not_empty(text_opt(query.token)) {
        Some(t) => Some(t),
        None => match not_empty(header_text(headers.token)) {
            Some(t) => Some(t),
            None => match header_text(headers.authorization) {
                Some(a) => not_empty(after_prefix(a, "Bearer "@)),
                None => None,
            },
        },
    }
}

/// The secret that a request presents.
pub fn presented_secret(headers: &Headers, query: &AuthQuery) -> (r: Option<String>)
    ensures
        text_opt(r) == presented(*headers, *query),
{
    match &query.token {
        Some(t) => {
            if t.as_str().unicode_len() > 0 {
                return Some(t.clone());
            }
        },
        None => {},
    }
    match read_header(&headers.token) {
        Some(t) => {
            if t.as_str().unicode_len() > 0 {
                return Some(t);
            }
        },
        None => {},
    }
    match read_header(&headers.authorization) {
        Some(a) => match text::strip_prefix(a.as_str(), "Bearer ") {
            Some(t) => {
                if t.unicode_len() > 0 {
                    Some(t.to_string())
                } else {
                    None
                }
            },
            None => None,
        },
        None => None,
    }
}

/// The sentence for a caller that needed the secret.
pub open spec fn secret_needed() -> Seq<char> {
    "esta impresión necesita el token local del bridge (localAuth=secret)"@
}

/// The sentence for a page that is not on the allowlist.
pub open spec fn origin_refused() -> Seq<char> {
    "origen no autorizado y sin token local: esta página no puede imprimir"@
}

/// Why a request may not print, or `None` where it may.
pub open spec fn refusal(
    auth: LocalAuth,
    secret: Option<Seq<char>>,
    presented: Option<Seq<char>>,
    origin: Option<Seq<char>>,
) -> Option<Seq<char>> {
    if secret is Some && presented == secret {
        None
    } else {
        match auth {
            LocalAuth::Off => None,
            LocalAuth::Secret => Some(secret_needed()),
            LocalAuth::OriginOrSecret => if allowed_origin(origin) {
                None
            } else {
                Some(origin_refused())
            },
        }
    }
}

/// Decides whether this caller may drive the printer: `Ok`, or the reason that
/// the 403 carries, which says which of the two doors it missed.
pub fn guard(state: &ServerState, headers: &Headers, query: &AuthQuery) -> (r: Result<(), String>)
    ensures
        match refusal(
            state.settings@.local_auth,
            state.settings@.local_secret,
            presented(*headers, *query),
            header_text(headers.origin),
        ) {
            None => r is Ok,
            Some(reason) => r matches Err(m) && m@ == reason,
        },
{
    let settings = state.settings.snapshot();
    let mode: LocalAuth = settings.local_auth;
    if mode == LocalAuth::Off {
        return Ok(());
    }
    let secret_ok: bool = match (&settings.local_secret, presented_secret(headers, query)) {
        (Some(expected), Some(presented)) => secret_matches(expected.as_str(), presented.as_str()),
        _ => false,
    };
    if secret_ok {
        return Ok(());
    }
    match mode {
        LocalAuth::Off => Ok(()),
        LocalAuth::Secret => Err(
            "esta impresión necesita el token local del bridge (localAuth=secret)".to_string(),
        ),
        LocalAuth::OriginOrSecret => {
            if origin_allowed(headers) {
                Ok(())
            } else {
                Err(
                    "origen no autorizado y sin token local: esta página no puede imprimir".to_string(),
                )
            }
        },
    }
}

// ── Answers ─────────────────────────────────────────────────────────────

/// The body of an answer that is an error.
pub open spec fn error_body(reason: Seq<char>) -> Seq<char> {
    object_text(seq![("error"@, json_quoted(reason)), ("ok"@, "false"@)])
}

/// The body of an answer that is an error.
pub fn error_json(reason: &str) -> (r: Json)
    ensures
        r@ == error_body(reason@),
{
    let mut members: Vec<(String, Json)> = Vec::new();
    members.push(("error".to_string(), Json::string(reason)));
    members.push(("ok".to_string(), Json::boolean(false)));
    assert(members@.map_values(|m: (String, Json)| (m.0@, m.1@)) =~= seq![
        ("error"@, json_quoted(reason@)),
        ("ok"@, "false"@),
    ]);
    Json::object(&members)
}

/// What `/health` says of the relay.
pub open spec fn relay_health(relay: Option<RelayStatusView>) -> Seq<(Seq<char>, Seq<char>)> {
    match relay {
        Some(s) => seq![
            ("state"@, json_quoted(relay_state_name(s.state))),
            ("ok"@, bool_json(s.state is Connected)),
            (
                "needs_attention"@,
                bool_json(
                    s.state is Rejected || s.state is Standby || s.state is LedgerUnavailable,
                ),
            ),
            ("paired"@, bool_json(s.paired)),
            ("connected"@, bool_json(s.connected)),
            ("detail"@, json_quoted(detail_text(s))),
        ],
        None => seq![
            ("state"@, json_quoted("unknown"@)),
            ("ok"@, "false"@),
            ("needs_attention"@, "false"@),
            ("paired"@, "false"@),
            ("connected"@, "false"@),
            ("detail"@, json_quoted("Este proceso no tiene relay."@)),
        ],
    }
}

/// How long the server has been up at the moment `now`.
pub open spec fn uptime(started_at: u64, now: u64) -> nat {
    if now > started_at {
        (now - started_at) as nat
    } else {
        0
    }
}

/// The body of the answer to `/health`.
pub open spec fn health_body(
    version: Seq<char>,
    uptime: nat,
    printer_count: nat,
    relay: Option<RelayStatusView>,
) -> Seq<char> {
    object_text(
        seq![
            ("ok"@, "true"@),
            ("version"@, json_quoted(version)),
            ("uptime_seconds"@, decimal(uptime)),
            ("printer_count"@, decimal(printer_count)),
            ("relay"@, object_text(relay_health(relay))),
        ],
    )
}

/// The view of a status that may be absent.
pub open spec fn status_opt(status: Option<RelayStatus>) -> Option<RelayStatusView> {
    match status {
        Some(s) => Some(s@),
        None => None,
    }
}

/// How many printers there are: none when they could not be listed.
pub open spec fn count_of(listed: BridgeResult<Vec<String>>) -> nat {
    match listed {
        Ok(printers) => printers@.len(),
        Err(_) => 0,
    }
}

fn relay_json(relay: &Option<RelayStatus>) -> (r: Json)
    ensures
        r@ == object_text(relay_health(status_opt(*relay))),
{
    let mut members: Vec<(String, Json)> = Vec::new();
    match relay {
        Some(s) => {
            members.push(("state".to_string(), Json::string(s.state.as_str())));
            members.push(("ok".to_string(), Json::boolean(s.state.is_serving())));
            members.push(("needs_attention".to_string(), Json::boolean(s.state.needs_a_human())));
            members.push(("paired".to_string(), Json::boolean(s.paired)));
            members.push(("connected".to_string(), Json::boolean(s.connected)));
            members.push(("detail".to_string(), Json::string(s.detail().as_str())));
        },
        None => {
            members.push(("state".to_string(), Json::string("unknown")));
            members.push(("ok".to_string(), Json::boolean(false)));
            members.push(("needs_attention".to_string(), Json::boolean(false)));
            members.push(("paired".to_string(), Json::boolean(false)));
            members.push(("connected".to_string(), Json::boolean(false)));
            members.push(("detail".to_string(), Json::string("Este proceso no tiene relay.")));
        },
    }
    assert(members@.map_values(|m: (String, Json)| (m.0@, m.1@)) =~= relay_health(
        status_opt(*relay),
    ));
    Json::object(&members)
}

/// The answer to `/health`. `ok` is the local print path, which is fine whatever
/// the relay does; what the relay does stands beside it. A process without a
/// relay says so rather than look connected.
pub fn health(
    state: &ServerState,
    now: u64,
    listed: &BridgeResult<Vec<String>>,
    relay: &Option<RelayStatus>,
) -> (r: Json)
    ensures
        r@ == health_body(
            state.version@,
            uptime(state.started_at, now),
            count_of(*listed),
            status_opt(*relay),
        ),
{
    let count: usize = match listed {
        Ok(printers) => printers.len(),
        Err(_) => 0,
    };
    let relay_value: Json = relay_json(relay);
    let ghost relay_text = relay_value@;
    let mut members: Vec<(String, Json)> = Vec::new();
    members.push(("ok".to_string(), Json::boolean(true)));
    members.push(("version".to_string(), Json::string(state.version)));
    members.push(
        ("uptime_seconds".to_string(), Json::number(now.saturating_sub(state.started_at))),
    );
    members.push(("printer_count".to_string(), Json::number(count as u64)));
    members.push(("relay".to_string(), relay_value));
    assert(members@.map_values(|m: (String, Json)| (m.0@, m.1@)) =~= seq![
        ("ok"@, "true"@),
        ("version"@, json_quoted(state.version@)),
        ("uptime_seconds"@, decimal(uptime(state.started_at, now))),
        ("printer_count"@, decimal(count_of(*listed))),
        ("relay"@, relay_text),
    ]);
    Json::object(&members)
}

/// The answer to `/printers`: the status and the body.
pub fn printers(listed: BridgeResult<Vec<String>>) -> (r: (u16, Json))
    ensures
        match listed {
            Ok(names) => r.0 == 200 && r.1@ == object_text(
                seq![("ok"@, "true"@), ("printers"@, strings_json(texts(names@)))],
            ),
            Err(e) => r.0 == 500 && r.1@ == error_body(error_text(e)),
        },
{
    match listed {
        Ok(names) => {
            let mut members: Vec<(String, Json)> = Vec::new();
            members.push(("ok".to_string(), Json::boolean(true)));
            members.push(("printers".to_string(), Json::strings(&names)));
            assert(members@.map_values(|m: (String, Json)| (m.0@, m.1@)) =~= seq![
                ("ok"@, "true"@),
                ("printers"@, strings_json(texts(names@))),
            ]);
            (200, Json::object(&members))
        },
        Err(e) => (500, error_json(e.message().as_str())),
    }
}

// ── The socket ──────────────────────────────────────────────────────────

/// What a client can ask for on the socket.
#[derive(Debug)]
pub enum WsRequest {
    /// List all printers known to the system.
    List { id: String },
    /// Print raw bytes, in base64, to the named printer.
    Print { id: String, printer: String, data: String },
    /// Print a small test ticket.
    Test { id: String, printer: String },
}

/// What a client is answered on the socket.
#[derive(Debug)]
pub enum WsResponse {
    PrintersOk { id: String, ok: bool, printers: Vec<String> },
    PrintOk { id: String, ok: bool, job_id: u32 },
    Failed { id: String, ok: bool, error: String },
}

/// What a client is answered on the socket.
pub enum WsResponseView {
    PrintersOk { id: Seq<char>, ok: bool, printers: Seq<Seq<char>> },
    PrintOk { id: Seq<char>, ok: bool, job_id: u32 },
    Failed { id: Seq<char>, ok: bool, error: Seq<char> },
}

impl View for WsResponse {
    type V = WsResponseView;

    open spec fn view(&self) -> WsResponseView {
        match *self {
            WsResponse::PrintersOk { id, ok, printers } => WsResponseView::PrintersOk {
                id: id@,
                ok,
                printers: texts(printers@),
            },
            WsResponse::PrintOk { id, ok, job_id } => WsResponseView::PrintOk { id: id@, ok, job_id },
            WsResponse::Failed { id, ok, error } => WsResponseView::Failed { id: id@, ok, error: error@ },
        }
    }
}

/// The answer that is an error.
pub open spec fn err_view(id: Seq<char>, error: Seq<char>) -> WsResponseView {
    WsResponseView::Failed { id, ok: false, error }
}

/// The answer to a request that was handed to the spooler.
pub open spec fn printed_view(id: Seq<char>, outcome: BridgeResult<u32>) -> WsResponseView {
    match outcome {
        Ok(job_id) => WsResponseView::PrintOk { id, ok: true, job_id },
        Err(e) => err_view(id, error_text(e)),
    }
}

/// The answer to a request for the printers.
pub open spec fn listed_view(id: Seq<char>, outcome: BridgeResult<Vec<String>>) -> WsResponseView {
    match outcome {
        Ok(printers) => WsResponseView::PrintersOk { id, ok: true, printers: texts(printers@) },
        Err(e) => err_view(id, error_text(e)),
    }
}

/// The text that an answer goes out as.
pub open spec fn response_text(r: WsResponseView) -> Seq<char> {
    match r {
        WsResponseView::PrintersOk { id, ok, printers } => object_text(
            seq![
                ("id"@, json_quoted(id)),
                ("ok"@, bool_json(ok)),
                ("printers"@, strings_json(printers)),
            ],
        ),
        WsResponseView::PrintOk { id, ok, job_id } => object_text(
            seq![
                ("id"@, json_quoted(id)),
                ("ok"@, bool_json(ok)),
                ("jobId"@, decimal(job_id as nat)),
            ],
        ),
        WsResponseView::Failed { id, ok, error } => object_text(
            seq![
                ("id"@, json_quoted(id)),
                ("ok"@, bool_json(ok)),
                ("error"@, json_quoted(error)),
            ],
        ),
    }
}

impl WsResponse {
    /// An answer that is an error.
    pub fn err(id: String, error: String) -> (r: WsResponse)
        ensures
            r@ == err_view(id@, error@),
    {
        WsResponse::Failed { id, ok: false, error }
    }

    /// The answer to a binary frame.
    pub fn binary_refused() -> (r: WsResponse)
        ensures
            r@ == err_view(Seq::empty(), "binary frames not supported; send JSON text"@),
    {
        WsResponse::err(
            String::new(),
            "binary frames not supported; send JSON text".to_string(),
        )
    }

    /// The text that the answer goes out as.
    pub fn json(&self) -> (r: Json)
        ensures
            r@ == response_text(self@),
    {
        let mut members: Vec<(String, Json)> = Vec::new();
        match self {
            WsResponse::PrintersOk { id, ok, printers } => {
                members.push(("id".to_string(), Json::string(id.as_str())));
                members.push(("ok".to_string(), Json::boolean(*ok)));
                members.push(("printers".to_string(), Json::strings(printers)));
                assert(members@.map_values(|m: (String, Json)| (m.0@, m.1@)) =~= seq![
                    ("id"@, json_quoted(id@)),
                    ("ok"@, bool_json(*ok)),
                    ("printers"@, strings_json(texts(printers@))),
                ]);
            },
            WsResponse::PrintOk { id, ok, job_id } => {
                members.push(("id".to_string(), Json::string(id.as_str())));
                members.push(("ok".to_string(), Json::boolean(*ok)));
                members.push(("jobId".to_string(), Json::number(*job_id as u64)));
                assert(members@.map_values(|m: (String, Json)| (m.0@, m.1@)) =~= seq![
                    ("id"@, json_quoted(id@)),
                    ("ok"@, bool_json(*ok)),
                    ("jobId"@, decimal(*job_id as nat)),
                ]);
            },
            WsResponse::Failed { id, ok, error } => {
                members.push(("id".to_string(), Json::string(id.as_str())));
                members.push(("ok".to_string(), Json::boolean(*ok)));
                members.push(("error".to_string(), Json::string(error.as_str())));
                assert(members@.map_values(|m: (String, Json)| (m.0@, m.1@)) =~= seq![
                    ("id"@, json_quoted(id@)),
                    ("ok"@, bool_json(*ok)),
                    ("error"@, json_quoted(error@)),
                ]);
            },
        }
        Json::object(&members)
    }
}

/// The spooler was handed these bytes for this printer, and answered `outcome`.
pub open spec fn spooled<P: FnOnce(&str, &Vec<u8>) -> BridgeResult<u32>>(
    print: P,
    printer: Seq<char>,
    bytes: Seq<u8>,
    outcome: BridgeResult<u32>,
) -> bool {
    exists|p: &str, b: &Vec<u8>|
        p@ == printer && b@ == bytes && #[trigger] print.ensures((p, b), outcome)
}

/// The spooler may be handed these bytes for this printer.
pub open spec fn may_spool<P: FnOnce(&str, &Vec<u8>) -> BridgeResult<u32>>(
    print: P,
    printer: Seq<char>,
    bytes: Seq<u8>,
) -> bool {
    forall|p: &str, b: &Vec<u8>|
        p@ == printer && b@ == bytes ==> #[trigger] print.requires((p, b))
}

/// What a request lets the spooler be handed: the bytes that its data stands
/// for, where they are not too many, or the test ticket; and nothing else.
pub open spec fn may_print(request: WsRequest, printer: Seq<char>, bytes: Seq<u8>) -> bool {
    match request {
        WsRequest::List { .. } => false,
        WsRequest::Print { printer: p, data, .. } => {
            &&& printer == p@
            &&& base64_bytes(data@) == Ok::<Seq<u8>, Seq<char>>(bytes)
            &&& bytes.len() <= MAX_PRINT_BYTES
        },
        WsRequest::Test { printer: p, .. } => printer == p@ && bytes == test_ticket(),
    }
}

fn print_bytes(
    id: String,
    printer: String,
    bytes: Vec<u8>,
    print: impl FnOnce(&str, &Vec<u8>) -> BridgeResult<u32>,
) -> (r: WsResponse)
    requires
        may_spool(print, printer@, bytes@),
    ensures
        exists|outcome: BridgeResult<u32>| #[trigger]
            spooled(print, printer@, bytes@, outcome) && r@ == printed_view(id@, outcome),
{
    let outcome = print(printer.as_str(), &bytes);
    assert(spooled(print, printer@, bytes@, outcome));
    match outcome {
        Ok(job_id) => WsResponse::PrintOk { id, ok: true, job_id },
        Err(e) => WsResponse::err(id, e.message()),
    }
}

/// How a request to print ends, once its bytes have been decoded.
pub open spec fn print_answered<P: FnOnce(&str, &Vec<u8>) -> BridgeResult<u32>>(
    r: WsResponseView,
    id: Seq<char>,
    printer: Seq<char>,
    decoded: Result<Seq<u8>, Seq<char>>,
    print: P,
) -> bool {
    match decoded {
        Err(e) => r == err_view(id, "bad base64: "@ + e),
        Ok(bytes) => if bytes.len() > MAX_PRINT_BYTES {
            r == err_view(
                id,
                "payload "@ + decimal(bytes.len()) + " > max "@ + decimal(MAX_PRINT_BYTES as nat),
            )
        } else {
            exists|outcome: BridgeResult<u32>| #[trigger]
                spooled(print, printer, bytes, outcome) && r == printed_view(id, outcome)
        },
    }
}

/// Answers a request to print, once its bytes have been decoded. What is too
/// large, or was no base64, never reaches the spooler.
pub fn print_decoded(
    id: String,
    printer: String,
    decoded: Result<Vec<u8>, String>,
    print: impl FnOnce(&str, &Vec<u8>) -> BridgeResult<u32>,
) -> (r: WsResponse)
    requires
        decoded matches Ok(bytes) ==> bytes.len() <= MAX_PRINT_BYTES ==> may_spool(
            print,
            printer@,
            bytes@,
        ),
    ensures
        print_answered(r@, id@, printer@, decoded_view(decoded), print),
{
    match decoded {
        Err(e) => WsResponse::err(id, joined("bad base64: ", e.as_str())),
        Ok(bytes) => {
            if bytes.len() > MAX_PRINT_BYTES {
                let mut m = joined("payload ", text::number(bytes.len() as u64).as_str());
                m.append(" > max ");
                m.append(text::number(MAX_PRINT_BYTES as u64).as_str());
                WsResponse::err(id, m)
            } else {
                print_bytes(id, printer, bytes, print)
            }
        },
    }
}

/// Answers one text frame: the request it was read as, or the words for why it
/// is none.
///
/// Data that is no base64, or too large, never reaches the spooler, nor does a
/// frame that is no request; and the printers are only listed when asked for.
pub fn handle_text(
    request: Result<WsRequest, String>,
    list: impl FnOnce() -> BridgeResult<Vec<String>>,
    print: impl FnOnce(&str, &Vec<u8>) -> BridgeResult<u32>,
) -> (r: WsResponse)
    requires
        request matches Ok(WsRequest::List { .. }) ==> list.requires(()),
        request matches Ok(asked) ==> forall|p: &str, b: &Vec<u8>|
            may_print(asked, p@, b@) ==> #[trigger] print.requires((p, b)),
    ensures
        match request {
            Err(e) => r@ == err_view(Seq::empty(), "invalid json: "@ + e@),
            Ok(WsRequest::List { id }) => exists|outcome: BridgeResult<Vec<String>>| #[trigger]
                list.ensures((), outcome) && r@ == listed_view(id@, outcome),
            Ok(WsRequest::Print { id, printer, data }) => print_answered(
                r@,
                id@,
                printer@,
                base64_bytes(data@),
                print,
            ),
            Ok(WsRequest::Test { id, printer }) => exists|outcome: BridgeResult<u32>| #[trigger]
                spooled(print, printer@, test_ticket(), outcome) && r@ == printed_view(id@, outcome),
        },
        request matches Ok(WsRequest::List { id }) ==> exists|outcome: BridgeResult<Vec<String>>|
            #[trigger] list.ensures((), outcome) && (match outcome {
                Ok(names) => r matches WsResponse::PrintersOk { id: i, ok, printers } && ok && i@
                    == id@ && printers@.len() == names@.len() && forall|k: int|
                    0 <= k < names@.len() ==> (#[trigger] printers@[k])@ == names@[k]@,
                Err(e) => r matches WsResponse::Failed { id: i, ok, error } && !ok && i@ == id@
                    && error@ == error_text(e),
            }),
        request matches Ok(WsRequest::Test { id, printer }) ==> exists|outcome: BridgeResult<u32>|
            #[trigger] spooled(print, printer@, test_ticket(), outcome) && (match outcome {
                Ok(job) => r matches WsResponse::PrintOk { id: i, ok, job_id } && ok && i@ == id@
                    && job_id == job,
                Err(e) => r matches WsResponse::Failed { id: i, ok, error } && !ok && i@ == id@
                    && error@ == error_text(e),
            }),
        request matches Ok(WsRequest::Print { id, printer, data }) ==> match base64_bytes(data@) {
            Ok(bytes) => if bytes.len() <= 1_048_576 {
                exists|outcome: BridgeResult<u32>| #[trigger]
                    spooled(print, printer@, bytes, outcome) && (match outcome {
                        Ok(job) => r matches WsResponse::PrintOk { id: i, ok, job_id } && ok && i@
                            == id@ && job_id == job,
                        Err(e) => r matches WsResponse::Failed { id: i, ok, error } && !ok && i@
                            == id@ && error@ == error_text(e),
                    })
            } else {
                r matches WsResponse::Failed { id: i, ok, .. } && !ok && i@ == id@
            },
            Err(_) => r matches WsResponse::Failed { id: i, ok, .. } && !ok && i@ == id@,
        },
        request is Err ==> (r matches WsResponse::Failed { id, ok, .. } && !ok && id@.len() == 0),
{
    match request {
        Err(e) => WsResponse::err(String::new(), joined("invalid json: ", e.as_str())),
        Ok(WsRequest::List { id }) => {
            let outcome = list();
            assert(list.ensures((), outcome));
            match outcome {
                Ok(printers) => WsResponse::PrintersOk { id, ok: true, printers },
                Err(e) => WsResponse::err(id, e.message()),
            }
        },
        Ok(WsRequest::Print { id, printer, data }) => print_decoded(
            id,
            printer,
            decode_base64(data.as_str()),
            print,
        ),
        Ok(WsRequest::Test { id, printer }) => print_bytes(id, printer, test_ticket_bytes(), print),
    }
}

// ── Laws ────────────────────────────────────────────────────────────────

/// The right secret opens the door in every mode, from any origin or none.
pub proof fn law_the_right_secret_always_passes(
    auth: LocalAuth,
    secret: Seq<char>,
    origin: Option<Seq<char>>,
)
    ensures
        refusal(auth, Some(secret), Some(secret), origin) is None,
{
}

/// Where the secret is mandatory the origin opens nothing: a caller passes
/// exactly when there is a secret and it presents that one.
pub proof fn law_secret_mode_ignores_the_origin(
    secret: Option<Seq<char>>,
    presented: Option<Seq<char>>,
    origin: Option<Seq<char>>,
)
    ensures
        refusal(LocalAuth::Secret, secret, presented, origin) is None <==> secret is Some && presented
            == secret,
{
}

/// Under the default, a page that is not on the allowlist and a caller without
/// an origin are refused unless they present the secret; and a page that is on
/// the allowlist passes without it.
pub proof fn law_a_random_page_cannot_print(
    secret: Option<Seq<char>>,
    presented: Option<Seq<char>>,
    origin: Option<Seq<char>>,
)
    ensures
        refusal(LocalAuth::OriginOrSecret, secret, presented, origin) is None <==> (secret is Some
            && presented == secret) || allowed_origin(origin),
        !allowed_origin(None),
{
}

/// An install without a secret cannot be opened by presenting one.
pub proof fn law_no_secret_matches_an_absent_one(presented: Option<Seq<char>>)
    ensures
        refusal(LocalAuth::Secret, None, presented, None) is Some,
        refusal(LocalAuth::OriginOrSecret, None, presented, None) is Some,
{
}

/// What `/health` says of the relay agrees with its state: it can take tickets
/// only while it is connected, and then it does not ask for attention.
pub proof fn law_health_is_honest_about_the_relay(status: RelayStatusView)
    ensures
        relay_health(Some(status))[1].1 == bool_json(status.state is Connected),
        status.state is Connected ==> relay_health(Some(status))[2].1 == "false"@,
        relay_health(None)[1].1 == "false"@,
{
}

/// The answer to a request for the printers lists every printer, in the order in
/// which they were listed and under its name; and where they could not be listed,
/// it is the error.
pub proof fn law_every_printer_is_listed(id: Seq<char>, outcome: BridgeResult<Vec<String>>)
    ensures
        match outcome {
            Ok(list) => {
                &&& listed_view(id, outcome) matches WsResponseView::PrintersOk {
                    id: answered,
                    ok,
                    printers,
                }
                &&& answered == id && ok
                &&& printers.len() == list@.len()
                &&& forall|i: int| 0 <= i < list@.len() ==> (#[trigger] printers[i]) == list@[i]@
            },
            Err(e) => listed_view(id, outcome) matches WsResponseView::Failed {
                id: answered,
                ok,
                error,
            } && answered == id && !ok && error == error_text(e),
        },
{
}

/// A print is answered with what came of it: the number the spooler gave it, or the
/// spooler's error, always under the id of the request.
pub proof fn law_a_print_is_answered_with_what_came_of_it(id: Seq<char>, outcome: BridgeResult<u32>)
    ensures
        match outcome {
            Ok(job) => printed_view(id, outcome) matches WsResponseView::PrintOk {
                id: answered,
                ok,
                job_id,
            } && answered == id && ok && job_id == job,
            Err(e) => printed_view(id, outcome) matches WsResponseView::Failed {
                id: answered,
                ok,
                error,
            } && answered == id && !ok && error == error_text(e),
        },
{
}

/// Data that cannot be printed is answered with a failure that says why, under the
/// id of the request; all other data is answered with what the spooler said to
/// exactly these bytes.
pub proof fn law_a_print_request_is_answered_for_its_data<
    P: FnOnce(&str, &Vec<u8>) -> BridgeResult<u32>,
>(
    r: WsResponseView,
    id: Seq<char>,
    printer: Seq<char>,
    decoded: Result<Seq<u8>, Seq<char>>,
    print: P,
)
    requires
        print_answered(r, id, printer, decoded, print),
    ensures
        match decoded {
            Err(e) => r matches WsResponseView::Failed { id: answered, ok, error } && answered == id
                && !ok && exists|head: Seq<char>| error == #[trigger] (head + e),
            Ok(bytes) => if bytes.len() > 1_048_576 {
                r matches WsResponseView::Failed { id: answered, ok, error } && answered == id && !ok
                    && exists|head: Seq<char>, mid: Seq<char>|
                    error == #[trigger] (head + decimal(bytes.len()) + mid + decimal(1_048_576))
            } else {
                exists|outcome: BridgeResult<u32>| #[trigger]
                    spooled(print, printer, bytes, outcome) && (outcome is Ok <==> r is PrintOk)
            },
        },
{
    match decoded {
        Err(e) => {
            let head = "bad base64: "@;
            assert(head + e == head + e);
        },
        Ok(bytes) => {
            if bytes.len() > MAX_PRINT_BYTES {
                let head = "payload "@;
                let mid = " > max "@;
                assert(r->Failed_error == head + decimal(bytes.len()) + mid + decimal(1_048_576));
            } else {
                let outcome = choose|outcome: BridgeResult<u32>| #[trigger]
                    spooled(print, printer, bytes, outcome) && r == printed_view(id, outcome);
                assert(spooled(print, printer, bytes, outcome));
            }
        },
    }
}

/// An answer means what it holds, field by field.
pub proof fn law_an_answer_means_what_it_holds(r: WsResponse)
    ensures
        match r {
            WsResponse::PrintersOk { id, ok, printers } => r@ matches WsResponseView::PrintersOk {
                id: i,
                ok: o,
                printers: p,
            } && i == id@ && o == ok && p.len() == printers@.len() && forall|k: int|
                0 <= k < p.len() ==> (#[trigger] p[k]) == printers@[k]@,
            WsResponse::PrintOk { id, ok, job_id } => r@ matches WsResponseView::PrintOk {
                id: i,
                ok: o,
                job_id: j,
            } && i == id@ && o == ok && j == job_id,
            WsResponse::Failed { id, ok, error } => r@ matches WsResponseView::Failed {
                id: i,
                ok: o,
                error: e,
            } && i == id@ && o == ok && e == error@,
        },
{
}

/// What a reader finds in an answer: the id of the request, whether it went well,
/// and the printers, the number of the job, or the error.
pub proof fn law_an_answer_is_read_as_it_is(r: WsResponseView)
    ensures
        exists|members: Seq<(Seq<char>, Tree)>|
            {
                &&& members.len() == 3
                &&& response_text(r) == #[trigger] tree_text(Tree::Record(members))
                &&& match r {
                    WsResponseView::PrintersOk { id, ok, printers } => {
                        &&& found_under(members, "id"@) == Some(Tree::Text(id))
                        &&& found_under(members, "ok"@) == Some(Tree::Boolean(ok))
                        &&& found_under(members, "printers"@) == Some(texts_tree(printers))
                    },
                    WsResponseView::PrintOk { id, ok, job_id } => {
                        &&& found_under(members, "id"@) == Some(Tree::Text(id))
                        &&& found_under(members, "ok"@) == Some(Tree::Boolean(ok))
                        &&& found_under(members, "jobId"@) == Some(Tree::Integer(job_id as int))
                    },
                    WsResponseView::Failed { id, ok, error } => {
                        &&& found_under(members, "id"@) == Some(Tree::Text(id))
                        &&& found_under(members, "ok"@) == Some(Tree::Boolean(ok))
                        &&& found_under(members, "error"@) == Some(Tree::Text(error))
                    },
                }
            },
{
    reveal_strlit("id");
    reveal_strlit("ok");
    reveal_strlit("printers");
    reveal_strlit("jobId");
    reveal_strlit("error");
    assert("id"@.len() == 2 && "id"@[0] == 'i');
    assert("ok"@.len() == 2 && "ok"@[0] == 'o');
    assert("printers"@.len() == 8 && "jobId"@.len() == 5 && "error"@.len() == 5);
    let members = match r {
        WsResponseView::PrintersOk { id, ok, printers } => seq![
            ("id"@, Tree::Text(id)),
            ("ok"@, Tree::Boolean(ok)),
            ("printers"@, texts_tree(printers)),
        ],
        WsResponseView::PrintOk { id, ok, job_id } => seq![
            ("id"@, Tree::Text(id)),
            ("ok"@, Tree::Boolean(ok)),
            ("jobId"@, Tree::Integer(job_id as int)),
        ],
        WsResponseView::Failed { id, ok, error } => seq![
            ("id"@, Tree::Text(id)),
            ("ok"@, Tree::Boolean(ok)),
            ("error"@, Tree::Text(error)),
        ],
    };
    lemma_found_at(members, 0);
    lemma_found_at(members, 1);
    lemma_found_at(members, 2);
    match r {
        WsResponseView::PrintersOk { id, ok, printers } => {
            lemma_texts_tree(printers);
            assert(tree_members(members) =~= seq![
                ("id"@, json_quoted(id)),
                ("ok"@, bool_json(ok)),
                ("printers"@, strings_json(printers)),
            ]);
        },
        WsResponseView::PrintOk { id, ok, job_id } => {
            assert(tree_members(members) =~= seq![
                ("id"@, json_quoted(id)),
                ("ok"@, bool_json(ok)),
                ("jobId"@, decimal(job_id as nat)),
            ]);
        },
        WsResponseView::Failed { id, ok, error } => {
            assert(tree_members(members) =~= seq![
                ("id"@, json_quoted(id)),
                ("ok"@, bool_json(ok)),
                ("error"@, json_quoted(error)),
            ]);
        },
    }
    assert(response_text(r) == tree_text(Tree::Record(members)));
}

/// What a reader finds in the body of an error: that it is one, and why.
pub proof fn law_an_error_is_read_as_it_is(reason: Seq<char>)
    ensures
        exists|members: Seq<(Seq<char>, Tree)>|
            {
                &&& members.len() == 2
                &&& found_under(members, "error"@) == Some(Tree::Text(reason))
                &&& found_under(members, "ok"@) == Some(Tree::Boolean(false))
                &&& error_body(reason) == #[trigger] tree_text(Tree::Record(members))
            },
{
    reveal_strlit("error");
    reveal_strlit("ok");
    assert("error"@.len() == 5 && "ok"@.len() == 2);
    let members = seq![("error"@, Tree::Text(reason)), ("ok"@, Tree::Boolean(false))];
    lemma_found_at(members, 0);
    lemma_found_at(members, 1);
    assert(tree_members(members) =~= seq![("error"@, json_quoted(reason)), ("ok"@, "false"@)]);
    assert(error_body(reason) == tree_text(Tree::Record(members)));
}

/// What a reader finds in `/health`: that the local path is up, the version, how
/// long it has been up and how many printers there are, and beside it the relay, as
/// honest about itself as its state is.
pub proof fn law_health_is_read_as_it_is(
    version: Seq<char>,
    uptime: nat,
    count: nat,
    relay: Option<RelayStatusView>,
)
    ensures
        exists|members: Seq<(Seq<char>, Tree)>, inner: Seq<(Seq<char>, Tree)>|
            {
                &&& members.len() == 5
                &&& inner.len() == 6
                &&& found_under(members, "ok"@) == Some(Tree::Boolean(true))
                &&& found_under(members, "version"@) == Some(Tree::Text(version))
                &&& found_under(members, "uptime_seconds"@) == Some(Tree::Integer(uptime as int))
                &&& found_under(members, "printer_count"@) == Some(Tree::Integer(count as int))
                &&& found_under(members, "relay"@) == Some(Tree::Record(inner))
                &&& health_body(version, uptime, count, relay) == #[trigger] tree_text(
                    Tree::Record(members),
                )
                &&& #[trigger] tree_text(Tree::Record(inner)) == tree_text(Tree::Record(inner))
                &&& match relay {
                    Some(s) => {
                        &&& found_under(inner, "state"@) == Some(
                            Tree::Text(relay_state_name(s.state)),
                        )
                        &&& found_under(inner, "ok"@) == Some(Tree::Boolean(s.state is Connected))
                        &&& found_under(inner, "needs_attention"@) == Some(
                            Tree::Boolean(
                                !(s.state is Unpaired || s.state is Connecting
                                    || s.state is Connected),
                            ),
                        )
                        &&& found_under(inner, "paired"@) == Some(Tree::Boolean(s.paired))
                        &&& found_under(inner, "connected"@) == Some(Tree::Boolean(s.connected))
                        &&& found_under(inner, "detail"@) == Some(Tree::Text(detail_text(s)))
                    },
                    None => {
                        &&& found_under(inner, "state"@) == Some(Tree::Text("unknown"@))
                        &&& found_under(inner, "ok"@) == Some(Tree::Boolean(false))
                        &&& found_under(inner, "needs_attention"@) == Some(Tree::Boolean(false))
                        &&& found_under(inner, "paired"@) == Some(Tree::Boolean(false))
                        &&& found_under(inner, "connected"@) == Some(Tree::Boolean(false))
                    },
                }
            },
{
    reveal_strlit("ok");
    reveal_strlit("version");
    reveal_strlit("uptime_seconds");
    reveal_strlit("printer_count");
    reveal_strlit("relay");
    reveal_strlit("state");
    reveal_strlit("needs_attention");
    reveal_strlit("paired");
    reveal_strlit("connected");
    reveal_strlit("detail");
    assert("ok"@.len() == 2 && "version"@.len() == 7 && "uptime_seconds"@.len() == 14);
    assert("printer_count"@.len() == 13 && "relay"@.len() == 5 && "state"@.len() == 5);
    assert("needs_attention"@.len() == 15 && "connected"@.len() == 9);
    assert("paired"@.len() == 6 && "paired"@[0] == 'p');
    assert("detail"@.len() == 6 && "detail"@[0] == 'd');
    let inner = match relay {
        Some(s) => seq![
            ("state"@, Tree::Text(relay_state_name(s.state))),
            ("ok"@, Tree::Boolean(s.state is Connected)),
            (
                "needs_attention"@,
                Tree::Boolean(
                    !(s.state is Unpaired || s.state is Connecting || s.state is Connected),
                ),
            ),
            ("paired"@, Tree::Boolean(s.paired)),
            ("connected"@, Tree::Boolean(s.connected)),
            ("detail"@, Tree::Text(detail_text(s))),
        ],
        None => seq![
            ("state"@, Tree::Text("unknown"@)),
            ("ok"@, Tree::Boolean(false)),
            ("needs_attention"@, Tree::Boolean(false)),
            ("paired"@, Tree::Boolean(false)),
            ("connected"@, Tree::Boolean(false)),
            ("detail"@, Tree::Text("Este proceso no tiene relay."@)),
        ],
    };
    let members = seq![
        ("ok"@, Tree::Boolean(true)),
        ("version"@, Tree::Text(version)),
        ("uptime_seconds"@, Tree::Integer(uptime as int)),
        ("printer_count"@, Tree::Integer(count as int)),
        ("relay"@, Tree::Record(inner)),
    ];
    lemma_found_at(inner, 0);
    lemma_found_at(inner, 1);
    lemma_found_at(inner, 2);
    lemma_found_at(inner, 3);
    lemma_found_at(inner, 4);
    lemma_found_at(inner, 5);
    lemma_found_at(members, 0);
    lemma_found_at(members, 1);
    lemma_found_at(members, 2);
    lemma_found_at(members, 3);
    lemma_found_at(members, 4);
    assert(tree_members(inner) =~= relay_health(relay));
    assert(tree_text(Tree::Record(inner)) == object_text(tree_members(inner)));
    assert(tree_members(members) =~= seq![
        ("ok"@, "true"@),
        ("version"@, json_quoted(version)),
        ("uptime_seconds"@, decimal(uptime)),
        ("printer_count"@, decimal(count)),
        ("relay"@, tree_text(Tree::Record(inner))),
    ]);
    assert(health_body(version, uptime, count, relay) == tree_text(Tree::Record(members)));
}

/// What `/printers` answers is what the socket answers: the same list, name by name.
pub proof fn law_both_ways_list_the_same_printers(id: Seq<char>, names: Vec<String>)
    ensures
        exists|members: Seq<(Seq<char>, Tree)>|
            {
                &&& members.len() == 2
                &&& found_under(members, "ok"@) == Some(Tree::Boolean(true))
                &&& listed_view(id, Ok(names)) matches WsResponseView::PrintersOk { printers, .. }
                &&& found_under(members, "printers"@) == Some(texts_tree(printers))
                &&& object_text(seq![("ok"@, "true"@), ("printers"@, strings_json(texts(names@)))])
                    == #[trigger] tree_text(Tree::Record(members))
            },
{
    reveal_strlit("ok");
    reveal_strlit("printers");
    assert("ok"@.len() == 2 && "printers"@.len() == 8);
    let members = seq![
        ("ok"@, Tree::Boolean(true)),
        ("printers"@, texts_tree(texts(names@))),
    ];
    lemma_texts_tree(texts(names@));
    lemma_found_at(members, 0);
    lemma_found_at(members, 1);
    assert(tree_members(members) =~= seq![
        ("ok"@, "true"@),
        ("printers"@, strings_json(texts(names@))),
    ]);
    assert(object_text(seq![("ok"@, "true"@), ("printers"@, strings_json(texts(names@)))])
        == tree_text(Tree::Record(members)));
}

/// Where the door is open nobody is turned away; and where nobody may pass without
/// the secret or a known page, the refusal says which it was.
pub proof fn law_each_mode_has_its_door(
    secret: Option<Seq<char>>,
    presented: Option<Seq<char>>,
    origin: Option<Seq<char>>,
)
    ensures
        refusal(LocalAuth::Off, secret, presented, origin) is None,
        secret is None || presented != secret ==> refusal(
            LocalAuth::Secret,
            secret,
            presented,
            origin,
        ) == Some(secret_needed()),
        (secret is None || presented != secret) && !allowed_origin(origin) ==> refusal(
            LocalAuth::OriginOrSecret,
            secret,
            presented,
            origin,
        ) == Some(origin_refused()),
{
}

/// The allowlist is the list: each origin on it passes, and no other does.
pub proof fn law_the_allowlist_is_the_list(origin: Seq<char>)
    ensures
        forall|i: int| 0 <= i < 7 ==> allowed_origin(Some((#[trigger] ALLOWED_ORIGINS@[i])@)),
        allowed_origin(Some(origin)) ==> exists|i: int|
            0 <= i < ALLOWED_ORIGINS@.len() && (#[trigger] ALLOWED_ORIGINS@[i])@ == origin,
{
}

/// The secret is taken from the query where it stands there, then from its own
/// header, then from the bearer token; an empty one is none.
pub proof fn law_the_secret_is_taken_from_where_it_stands(headers: Headers, query: AuthQuery)
    ensures
        presented(headers, query) matches Some(t) ==> t.len() > 0,
        query.token matches Some(t) ==> t@.len() > 0 ==> presented(headers, query) == Some(t@),
        (query.token matches Some(t) ==> t@.len() == 0) ==> (header_text(headers.token) matches Some(
            t,
        ) ==> t.len() > 0 ==> presented(headers, query) == Some(t)),
        (query.token matches Some(t) ==> t@.len() == 0) && (header_text(headers.token) matches Some(
            t,
        ) ==> t.len() == 0) ==> (presented(headers, query) matches Some(t) ==> header_text(
            headers.authorization,
        ) == Some("Bearer "@ + t)),
        (query.token matches Some(t) ==> t@.len() == 0) && (header_text(headers.token) matches Some(
            t,
        ) ==> t.len() == 0) ==> forall|t: Seq<char>|
            header_text(headers.authorization) == Some(#[trigger] ("Bearer "@ + t)) && t.len() > 0
                ==> presented(headers, query) == Some(t),
{
    if let Some(a) = header_text(headers.authorization) {
        if "Bearer "@.is_prefix_of(a) {
            assert(a =~= "Bearer "@ + a.skip("Bearer "@.len() as int));
        }
        assert forall|t: Seq<char>| a == #[trigger] ("Bearer "@ + t) implies after_prefix(
            a,
            "Bearer "@,
        ) == Some(t) by {
            assert(a.subrange(0, "Bearer "@.len() as int) =~= "Bearer "@);
            assert(a.skip("Bearer "@.len() as int) =~= t);
        }
    }
}

/// The time up is counted from the start.
pub proof fn law_the_time_up_is_counted_from_the_start(started_at: u64, now: u64)
    ensures
        now >= started_at ==> started_at + uptime(started_at, now) == now,
        now < started_at ==> uptime(started_at, now) == 0,
{
}

/// The printers are counted, all of them.
pub proof fn law_every_printer_counts(listed: BridgeResult<Vec<String>>)
    ensures
        listed matches Ok(names) ==> count_of(listed) == names@.len(),
        listed is Err ==> count_of(listed) == 0,
{
}

/// The text of a header is its bytes, each as the character it stands for; and it is
/// text exactly where every byte is visible, a space or a tab.
pub proof fn law_a_header_is_its_bytes(value: Vec<u8>)
    ensures
        header_text(Some(value)) is Some <==> forall|i: int|
            0 <= i < value@.len() ==> (0x20 <= #[trigger] value@[i] <= 0x7e || value@[i] == 9),
        header_text(Some(value)) matches Some(t) ==> t.len() == value@.len() && forall|i: int|
            0 <= i < t.len() ==> #[trigger] t[i] as u32 == value@[i] as u32,
        header_text(None) is None,
{
    assert(forall|i: int| 0 <= i < value@.len() ==> (header_byte(#[trigger] value@[i]) <==> (0x20
        <= value@[i] <= 0x7e || value@[i] == 9)));
}

/// What a request may hand to the spooler is what it asks for: nothing for a list, the
/// bytes of its data or the test ticket for the printer that it names.
pub proof fn law_only_what_is_asked_for_is_printed(
    request: WsRequest,
    printer: Seq<char>,
    bytes: Seq<u8>,
)
    requires
        may_print(request, printer, bytes),
    ensures
        match request {
            WsRequest::List { .. } => false,
            WsRequest::Print { printer: p, data, .. } => p@ == printer && base64_bytes(data@)
                == Ok::<Seq<u8>, Seq<char>>(bytes) && bytes.len() <= 1_048_576,
            WsRequest::Test { printer: p, .. } => p@ == printer && bytes == test_ticket(),
        },
{
}

/// Only the shop's own pages, the bridge's own window and the two addresses of a
/// developer's machine are on the allowlist: no page from anywhere else may print
/// without the secret.
pub proof fn law_no_other_page_is_on_the_allowlist(origin: Seq<char>)
    requires
        allowed_origin(Some(origin)),
    ensures
        origin == "https://app-gourmelyhub.busticco.com"@ || origin
            == "https://gourmelyhub.busticco.com"@ || origin == "http://tauri.localhost"@ || origin
            == "https://tauri.localhost"@ || origin == "tauri://localhost"@ || origin
            == "http://localhost:3000"@ || origin == "http://localhost:1420"@,
{
    let i = choose|i: int| 0 <= i < 7 && (#[trigger] ALLOWED_ORIGINS@[i])@ == origin;
    assert(ALLOWED_ORIGINS@[i]@ == origin);
    if i == 0 {
    } else if i == 1 {
    } else if i == 2 {
    } else if i == 3 {
    } else if i == 4 {
    } else if i == 5 {
    } else {
    }
}

} // verus!
