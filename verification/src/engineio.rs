//! Engine.IO v4 / Socket.IO v5 text frames.
//!
//! # The grammar
//!
//! A text frame is `<engine.io digit><rest>`:
//!
//! | digit | meaning | who sends it |
//! |-------|---------|--------------|
//! | `0`   | OPEN, with the session JSON | server |
//! | `1`   | CLOSE | either |
//! | `2`   | PING  | server |
//! | `3`   | PONG  | client |
//! | `4`   | MESSAGE: a Socket.IO packet follows | either |
//!
//! Inside a MESSAGE: `<socket.io digit>[<namespace>,][<ack id>][<json>]`, with
//! `0` CONNECT, `1` DISCONNECT, `2` EVENT, `3` ACK, `4` CONNECT_ERROR. The
//! namespace is present only when it is not `/`, and it runs up to the first
//! comma.

use vstd::prelude::*;
use vstd::string::*;
use vstd::utf8::encode_utf8;

use crate::error::joined;
use crate::json::{
    array_text, element, elements_of, join, json_elements, json_items, json_quoted, json_string,
    json_texts, json_u64, json_value_member, list_opt, nth, read_items, read_string_field,
    read_u64_field, read_value_member, readable, record_member, record_text, separated,
    string_field, tree_text, tree_texts, u64_field, Json, Plain, Tree,
};
use crate::record::{
    distinct, found_text, has_text, lemma_written_member_text, member, names_of, read_record,
    record_in, text_under, Member,
};
use crate::text;
use crate::text::{
    after_prefix, decimal, digit, first_index, leading_digits, text_opt, texts, trim, trim_end_char,
};

verus! {

/// Query string the server expects on the upgrade.
pub const HANDSHAKE_QUERY: &'static str = "EIO=4&transport=websocket";

// ── The OPEN packet ─────────────────────────────────────────────────────

/// Session parameters from the OPEN packet.
#[derive(Debug, Clone)]
pub struct OpenPayload {
    pub sid: String,
    pub ping_interval: u64,
    pub ping_timeout: u64,
}

/// The session parameters as [`Incoming::Open`] carries them.
#[derive(Debug, Clone, PartialEq)]
pub struct OpenPayloadOwned {
    pub sid: String,
    pub ping_interval: u64,
    pub ping_timeout: u64,
}

/// What an OPEN packet says.
pub struct OpenView {
    pub sid: Seq<char>,
    pub ping_interval: u64,
    pub ping_timeout: u64,
}

impl View for OpenPayload {
    type V = OpenView;

    open spec fn view(&self) -> OpenView {
        OpenView {
            sid: self.sid@,
            ping_interval: self.ping_interval,
            ping_timeout: self.ping_timeout,
        }
    }
}

impl View for OpenPayloadOwned {
    type V = OpenView;

    open spec fn view(&self) -> OpenView {
        OpenView {
            sid: self.sid@,
            ping_interval: self.ping_interval,
            ping_timeout: self.ping_timeout,
        }
    }
}

/// Heartbeat period when the server does not say.
pub fn default_ping_interval() -> (r: u64)
    ensures
        r == 25_000,
{
    25_000
}

/// Heartbeat grace when the server does not say.
pub fn default_ping_timeout() -> (r: u64)
    ensures
        r == 20_000,
{
    20_000
}

/// A field that may be absent: `None` when it is present and no number.
pub open spec fn number_field(field: Option<Option<u64>>, default: u64) -> Option<u64> {
    match field {
        None => Some(default),
        Some(n) => n,
    }
}

/// The session that the three fields of an OPEN packet describe. The session
/// id has to be there; the other two have defaults, but not for a value of
/// the wrong type.
pub open spec fn open_from_fields(
    sid: Option<Seq<char>>,
    interval: Option<Option<u64>>,
    timeout: Option<Option<u64>>,
) -> Option<OpenView> {
    match (sid, number_field(interval, 25_000), number_field(timeout, 20_000)) {
        (Some(sid), Some(ping_interval), Some(ping_timeout)) => Some(
            OpenView { sid, ping_interval, ping_timeout },
        ),
        _ => None,
    }
}

/// The session that the JSON text of an OPEN packet describes: an object with
/// the members `sid`, `pingInterval` and `pingTimeout`, or the three values in
/// an array.
pub open spec fn open_of(payload: Seq<char>) -> Option<OpenView> {
    match json_items(payload) {
        Some(items) => if items.len() <= 3 {
            open_from_fields(
                string_field(element(items, 0)),
                u64_field(element(items, 1)),
                u64_field(element(items, 2)),
            )
        } else {
            None
        },
        None => match record_in(encode_utf8(payload), open_names()) {
            Some(m) => open_from_fields(
                string_field(member(m, "sid"@)),
                u64_field(member(m, "pingInterval"@)),
                u64_field(member(m, "pingTimeout"@)),
            ),
            None => None,
        },
    }
}

/// The names of the members of an OPEN packet.
pub open spec fn open_names() -> Seq<Seq<char>> {
    seq!["sid"@, "pingInterval"@, "pingTimeout"@]
}

fn or_default(field: Option<Option<u64>>, default: u64) -> (r: Option<u64>)
    ensures
        r == number_field(field, default),
{
    match field {
        None => Some(default),
        Some(n) => n,
    }
}

impl OpenPayload {
    /// The session that three fields describe.
    pub fn from_fields(
        sid: Option<String>,
        interval: Option<Option<u64>>,
        timeout: Option<Option<u64>>,
    ) -> (r: Option<OpenPayload>)
        ensures
            match r {
                Some(open) => open_from_fields(text_opt(sid), interval, timeout) == Some(open@),
                None => open_from_fields(text_opt(sid), interval, timeout) is None,
            },
    {
        match (
            sid,
            or_default(interval, default_ping_interval()),
            or_default(timeout, default_ping_timeout()),
        ) {
            (Some(sid), Some(ping_interval), Some(ping_timeout)) => Some(
                OpenPayload { sid, ping_interval, ping_timeout },
            ),
            _ => None,
        }
    }

    /// The session that the JSON text of an OPEN packet describes. The object that
    /// a session is written as describes that session, each member its own field,
    /// whatever stands beside them.
    pub fn from_json(payload: &str) -> (r: Option<OpenPayload>)
        ensures
            match r {
                Some(open) => open_of(payload@) == Some(open@),
                None => open_of(payload@) is None,
            },
            forall|members: Seq<(Seq<char>, Plain)>|
                payload@ == #[trigger] record_text(members) && members.len() > 0 && distinct(members)
                    && has_text(members, "sid"@) && (record_member(
                    members,
                    "pingInterval"@,
                ) matches Some(n) ==> n is Number) && (record_member(
                    members,
                    "pingTimeout"@,
                ) matches Some(n) ==> n is Number) ==> {
                    &&& r matches Some(open)
                    &&& text_under(members, "sid"@) == Some(open.sid@)
                    &&& match record_member(members, "pingInterval"@) {
                        Some(Plain::Number(n)) => open.ping_interval == n,
                        _ => open.ping_interval == 25_000,
                    }
                    &&& match record_member(members, "pingTimeout"@) {
                        Some(Plain::Number(n)) => open.ping_timeout == n,
                        _ => open.ping_timeout == 20_000,
                    }
                },
    {
        match read_items(payload) {
            Some(items) => {
                if items.len() <= 3 {
                    OpenPayload::from_fields(
                        read_string_field(nth(&items, 0)),
                        read_u64_field(nth(&items, 1)),
                        read_u64_field(nth(&items, 2)),
                    )
                } else {
                    None
                }
            },
            None => {
                let names: Vec<&'static str> = vec!["sid", "pingInterval", "pingTimeout"];
                assert(names_of(names@) =~= open_names());
                match read_record(payload.as_bytes(), &names) {
                    Some(m) => {
                        let sid = m.get("sid");
                        let interval = m.get("pingInterval");
                        let timeout = m.get("pingTimeout");
                        proof {
                            assert forall|members: Seq<(Seq<char>, Plain)>|
                                payload@ == #[trigger] record_text(members) && members.len() > 0
                                    && distinct(members) implies text_opt(sid) == found_text(
                                members,
                                "sid"@,
                            ) && text_opt(interval) == found_text(members, "pingInterval"@)
                                && text_opt(timeout) == found_text(members, "pingTimeout"@) by {
                                lemma_written_member_text(members, false, "sid"@);
                                lemma_written_member_text(members, false, "pingInterval"@);
                                lemma_written_member_text(members, false, "pingTimeout"@);
                            }
                        }
                        OpenPayload::from_fields(
                            read_string_field(sid),
                            read_u64_field(interval),
                            read_u64_field(timeout),
                        )
                    },
                    None => None,
                }
            },
        }
    }

    /// The same parameters, as [`Incoming::Open`] carries them.
    pub fn into_owned(self) -> (r: OpenPayloadOwned)
        ensures
            r@ == self@,
    {
        OpenPayloadOwned {
            sid: self.sid,
            ping_interval: self.ping_interval,
            ping_timeout: self.ping_timeout,
        }
    }
}

// ── A frame from the server ─────────────────────────────────────────────

/// A frame from the server, already classified.
#[derive(Debug, Clone, PartialEq)]
pub enum Incoming {
    Open(Box<OpenPayloadOwned>),
    /// Server heartbeat. Must be answered with [`pong`] or it hangs up.
    Ping,
    Pong,
    /// Engine.IO close.
    Close,
    /// The namespace accepted us. Everything before this is not yet a
    /// connection.
    Connected { namespace: String, sid: String },
    /// The namespace refused us: bad or revoked station token.
    ConnectError { namespace: String, message: String },
    Event { namespace: String, name: String, args: Vec<Json> },
    Disconnected { namespace: String },
    /// Anything else: acks we do not use, binary announcements, future types.
    /// Ignored rather than fatal.
    Other(String),
}

/// What a frame says.
pub enum IncomingView {
    Open(OpenView),
    Ping,
    Pong,
    Close,
    Connected { namespace: Seq<char>, sid: Seq<char> },
    ConnectError { namespace: Seq<char>, message: Seq<char> },
    Event { namespace: Seq<char>, name: Seq<char>, args: Seq<Seq<char>> },
    Disconnected { namespace: Seq<char> },
    Other(Seq<char>),
}

impl View for Incoming {
    type V = IncomingView;

    open spec fn view(&self) -> IncomingView {
        match *self {
            Incoming::Open(open) => IncomingView::Open((*open)@),
            Incoming::Ping => IncomingView::Ping,
            Incoming::Pong => IncomingView::Pong,
            Incoming::Close => IncomingView::Close,
            Incoming::Connected { namespace, sid } => IncomingView::Connected {
                namespace: namespace@,
                sid: sid@,
            },
            Incoming::ConnectError { namespace, message } => IncomingView::ConnectError {
                namespace: namespace@,
                message: message@,
            },
            Incoming::Event { namespace, name, args } => IncomingView::Event {
                namespace: namespace@,
                name: name@,
                args: json_texts(args@),
            },
            Incoming::Disconnected { namespace } => IncomingView::Disconnected {
                namespace: namespace@,
            },
            Incoming::Other(frame) => IncomingView::Other(frame@),
        }
    }
}

// ── What is written as `{:?}` writes it ─────────────────────────────────

/// A string as Rust's `{:?}` writes it.
pub uninterp spec fn debug_text(s: Seq<char>) -> Seq<char>;

/// The elements of the JSON array that `text` encodes, read as values, as `{:?}`
/// writes them.
pub uninterp spec fn json_debug(text: Seq<char>) -> Option<Seq<Seq<char>>>;

/// `format!` with `{:?}` on a `str`.
///
/// Claims that the outcome depends on the string alone.
#[verifier::external_body]
fn write_debug(s: &str) -> (r: String)
    ensures
        r@ == debug_text(s@),
{
    format!("{:?}", s)
}

/// `serde_json::from_str` to a `Vec` of `Value`, then the `Debug` text of each.
///
/// Claims that the outcome depends on the text alone.
#[verifier::external_body]
fn read_debug(text: &str) -> (r: Option<Vec<String>>)
    ensures
        list_opt(r) == json_debug(text@),
{
    let items = serde_json::from_str::<Vec<serde_json::Value>>(text).ok()?;
    Some(items.iter().map(|v| format!("{:?}", v)).collect())
}

// ── Namespace and ack id ────────────────────────────────────────────────

/// The namespace and the payload of a packet body. The namespace is on the
/// wire only when it is not the default one, and it ends at the first comma,
/// or at the end of the body when there is no comma.
pub open spec fn namespace_and_payload(body: Seq<char>) -> (Seq<char>, Seq<char>) {
    if body.len() > 0 && body[0] == '/' {
        match first_index(body, ',') {
            Some(i) => (body.take(i), body.skip(i + 1)),
            None => (body, Seq::empty()),
        }
    } else {
        (seq!['/'], body)
    }
}

/// A payload without the numeric ack id that can stand before it.
pub open spec fn after_ack_id(payload: Seq<char>) -> Seq<char> {
    payload.skip(leading_digits(payload) as int)
}

/// Splits `<namespace>,<payload>` out of a Socket.IO packet body.
pub fn split_namespace<'a>(rest: &'a str) -> (r: (String, &'a str))
    ensures
        (r.0@, r.1@) == namespace_and_payload(rest@),
{
    let n: usize = rest.unicode_len();
    if n > 0 && rest.get_char(0) == '/' {
        match text::find(rest, ',') {
            Some(i) => {
                proof {
                    assert(rest@.take(i as int) =~= rest@.subrange(0, i as int));
                    assert(rest@.skip(i + 1) =~= rest@.subrange(i + 1, n as int));
                }
                (rest.substring_char(0, i).to_string(), rest.substring_char(i + 1, n))
            },
            None => {
                assert(rest@.subrange(n as int, n as int) =~= Seq::<char>::empty());
                (rest.to_string(), rest.substring_char(n, n))
            },
        }
    } else {
        let mut root = String::new();
        root.push('/');
        assert(root@ =~= seq!['/']);
        (root, rest)
    }
}

/// Strips the optional numeric ack id that can sit between the namespace and
/// the payload.
pub fn strip_ack_id<'a>(payload: &'a str) -> (r: &'a str)
    ensures
        r@ == after_ack_id(payload@),
{
    text::skip_digits(payload)
}

// ── Classification ──────────────────────────────────────────────────────

/// A namespace that took us in. The id is empty when the packet gives none.
pub open spec fn accepted_view(namespace: Seq<char>, sid: Option<Seq<char>>) -> IncomingView {
    IncomingView::Connected {
        namespace,
        sid: match sid {
            Some(s) => s,
            None => Seq::empty(),
        },
    }
}

/// A namespace that refused us, in the server's words; the payload as it came
/// when there are none.
pub open spec fn refused_view(
    namespace: Seq<char>,
    message: Option<Seq<char>>,
    payload: Seq<char>,
) -> IncomingView {
    IncomingView::ConnectError {
        namespace,
        message: match message {
            Some(m) => m,
            None => payload,
        },
    }
}

/// The name of an event: the string its first element holds, or that element
/// as it stands.
pub open spec fn event_name(first: Seq<char>, string: Option<Seq<char>>) -> Seq<char> {
    match string {
        Some(s) => s,
        None => first,
    }
}

/// An event whose payload is an array with at least its name in it.
pub open spec fn event_view(
    namespace: Seq<char>,
    elements: Option<Seq<Seq<char>>>,
    whole: Seq<char>,
) -> IncomingView {
    match elements {
        Some(items) => if items.len() > 0 {
            IncomingView::Event {
                namespace,
                name: event_name(items[0], json_string(items[0])),
                args: items.skip(1),
            }
        } else {
            IncomingView::Other(whole)
        },
        None => IncomingView::Other(whole),
    }
}

/// What the Socket.IO packet `packet` says; `whole` is the frame it came in.
pub open spec fn packet_view(packet: Seq<char>, whole: Seq<char>) -> IncomingView {
    if packet.len() == 0 {
        IncomingView::Other(whole)
    } else {
        let kind = packet[0];
        let (namespace, body) = namespace_and_payload(packet.skip(1));
        let payload = after_ack_id(body);
        if kind == '0' {
            accepted_view(namespace, string_field(json_value_member(payload, "sid"@)))
        } else if kind == '1' {
            IncomingView::Disconnected { namespace }
        } else if kind == '2' {
            event_view(namespace, json_elements(payload), whole)
        } else if kind == '4' {
            refused_view(namespace, string_field(json_value_member(payload, "message"@)), payload)
        } else {
            IncomingView::Other(whole)
        }
    }
}

/// What the text frame `frame` says.
pub open spec fn frame_view(frame: Seq<char>) -> IncomingView {
    if frame.len() == 0 {
        IncomingView::Other(frame)
    } else {
        let kind = frame[0];
        let rest = frame.skip(1);
        if kind == '0' {
            match open_of(rest) {
                Some(open) => IncomingView::Open(open),
                None => IncomingView::Other(frame),
            }
        } else if kind == '1' {
            IncomingView::Close
        } else if kind == '2' {
            IncomingView::Ping
        } else if kind == '3' {
            IncomingView::Pong
        } else if kind == '4' {
            packet_view(rest, frame)
        } else {
            IncomingView::Other(frame)
        }
    }
}

// ── A frame in words ────────────────────────────────────────────────────

/// The payload of an event frame: what stands behind its two digits, its
/// namespace and its ack id.
pub open spec fn event_payload(frame: Seq<char>) -> Seq<char> {
    after_ack_id(namespace_and_payload(frame.skip(1).skip(1)).1)
}

/// The arguments of an event, in words, from the payload that holds its name
/// first.
pub open spec fn argument_words(payload: Seq<char>) -> Seq<char> {
    match json_debug(payload) {
        Some(items) => if items.len() > 0 {
            separated(items.skip(1), ", "@)
        } else {
            Seq::empty()
        },
        None => Seq::empty(),
    }
}

/// A frame in words, for the message about one that was not expected.
pub open spec fn frame_words(frame: Seq<char>) -> Seq<char> {
    match frame_view(frame) {
        IncomingView::Open(open) => "Open(OpenPayloadOwned { sid: "@ + debug_text(open.sid)
            + ", ping_interval: "@ + decimal(open.ping_interval as nat) + ", ping_timeout: "@
            + decimal(open.ping_timeout as nat) + " })"@,
        IncomingView::Ping => "Ping"@,
        IncomingView::Pong => "Pong"@,
        IncomingView::Close => "Close"@,
        IncomingView::Connected { namespace, sid } => "Connected { namespace: "@ + debug_text(
            namespace,
        ) + ", sid: "@ + debug_text(sid) + " }"@,
        IncomingView::ConnectError { namespace, message } => "ConnectError { namespace: "@
            + debug_text(namespace) + ", message: "@ + debug_text(message) + " }"@,
        IncomingView::Event { namespace, name, .. } => "Event { namespace: "@ + debug_text(
            namespace,
        ) + ", name: "@ + debug_text(name) + ", args: ["@ + argument_words(event_payload(frame))
            + "] }"@,
        IncomingView::Disconnected { namespace } => "Disconnected { namespace: "@ + debug_text(
            namespace,
        ) + " }"@,
        IncomingView::Other(whole) => "Other("@ + debug_text(whole) + ")"@,
    }
}

/// The arguments of an event, in words, from what was read of its payload.
fn write_arguments(read: Option<Vec<String>>) -> (r: String)
    ensures
        r@ == (match list_opt(read) {
            Some(items) => if items.len() > 0 {
                separated(items.skip(1), ", "@)
            } else {
                Seq::empty()
            },
            None => Seq::empty(),
        }),
{
    match read {
        Some(items) => {
            let mut args: Vec<String> = items;
            if args.len() == 0 {
                return String::new();
            }
            let ghost all = texts(args@);
            args.remove(0);
            assert(texts(args@) =~= all.skip(1));
            join(&args, ", ")
        },
        None => String::new(),
    }
}

/// The arguments of an event frame, in words.
fn describe_arguments(frame: &str) -> (r: String)
    requires
        frame@.len() >= 2,
    ensures
        r@ == argument_words(event_payload(frame@)),
{
    let n: usize = frame.unicode_len();
    let body: &str = frame.substring_char(2, n);
    assert(body@ =~= frame@.skip(1).skip(1));
    let (_, payload) = split_namespace(body);
    write_arguments(read_debug(strip_ack_id(payload)))
}

/// The frame in words, for the message about one that was not expected.
pub fn describe(frame: &str) -> (r: String)
    ensures
        r@ == frame_words(frame@),
{
    match parse(frame) {
        Incoming::Open(open) => {
            let mut out = joined(
                "Open(OpenPayloadOwned { sid: ",
                write_debug(open.sid.as_str()).as_str(),
            );
            out.append(", ping_interval: ");
            out.append(text::number(open.ping_interval).as_str());
            out.append(", ping_timeout: ");
            out.append(text::number(open.ping_timeout).as_str());
            out.append(" })");
            out
        },
        Incoming::Ping => "Ping".to_string(),
        Incoming::Pong => "Pong".to_string(),
        Incoming::Close => "Close".to_string(),
        Incoming::Connected { namespace, sid } => {
            let mut out = joined(
                "Connected { namespace: ",
                write_debug(namespace.as_str()).as_str(),
            );
            out.append(", sid: ");
            out.append(write_debug(sid.as_str()).as_str());
            out.append(" }");
            out
        },
        Incoming::ConnectError { namespace, message } => {
            let mut out = joined(
                "ConnectError { namespace: ",
                write_debug(namespace.as_str()).as_str(),
            );
            out.append(", message: ");
            out.append(write_debug(message.as_str()).as_str());
            out.append(" }");
            out
        },
        Incoming::Event { namespace, name, .. } => {
            let mut out = joined(
                "Event { namespace: ",
                write_debug(namespace.as_str()).as_str(),
            );
            out.append(", name: ");
            out.append(write_debug(name.as_str()).as_str());
            out.append(", args: [");
            out.append(describe_arguments(frame).as_str());
            out.append("] }");
            out
        },
        Incoming::Disconnected { namespace } => {
            let mut out = joined(
                "Disconnected { namespace: ",
                write_debug(namespace.as_str()).as_str(),
            );
            out.append(" }");
            out
        },
        Incoming::Other(whole) => {
            let mut out = joined("Other(", write_debug(whole.as_str()).as_str());
            out.append(")");
            out
        },
    }
}

/// The namespace took us in.
pub fn accepted(namespace: String, sid: Option<String>) -> (r: Incoming)
    ensures
        r@ == accepted_view(namespace@, text_opt(sid)),
{
    match sid {
        Some(sid) => Incoming::Connected { namespace, sid },
        None => Incoming::Connected { namespace, sid: String::new() },
    }
}

/// The namespace refused us.
pub fn refused(namespace: String, message: Option<String>, payload: &str) -> (r: Incoming)
    ensures
        r@ == refused_view(namespace@, text_opt(message), payload@),
{
    match message {
        Some(message) => Incoming::ConnectError { namespace, message },
        None => Incoming::ConnectError { namespace, message: payload.to_string() },
    }
}

/// An event, from the element that names it, the string that element holds,
/// and the elements after it.
pub fn event(namespace: String, first: Json, name: Option<String>, args: Vec<Json>) -> (r: Incoming)
    ensures
        r@ == (IncomingView::Event {
            namespace: namespace@,
            name: event_name(first@, text_opt(name)),
            args: json_texts(args@),
        }),
{
    match name {
        Some(name) => Incoming::Event { namespace, name, args },
        None => Incoming::Event { namespace, name: first.text().to_string(), args },
    }
}

/// Classifies one text frame. Never fails: an unparseable frame becomes
/// [`Incoming::Other`].
///
/// An event packet is read back as the event it was written from, whatever the
/// name of the event and its argument, so long as that has no fractions and is
/// nested less than 100 deep.
pub fn parse(frame: &str) -> (r: Incoming)
    ensures
        r@ == frame_view(frame@),
        forall|namespace: Seq<char>, event: Seq<char>, arg: Tree|
            proper_namespace(namespace) && readable(arg, 99) && frame@
                == #[trigger] event_packet_text(namespace, event, tree_text(arg)) ==> r@ == (
            IncomingView::Event { namespace, name: event, args: seq![tree_text(arg)] }),
{
    let n: usize = frame.unicode_len();
    if n == 0 {
        assert(frame@ =~= Seq::<char>::empty());
        return Incoming::Other(String::new());
    }
    let kind: char = frame.get_char(0);
    let rest: &str = frame.substring_char(1, n);
    assert(rest@ =~= frame@.skip(1));
    proof {
        assert forall|namespace: Seq<char>, event: Seq<char>, arg: Tree|
            proper_namespace(namespace) && frame@ == #[trigger] event_packet_text(
                namespace,
                event,
                tree_text(arg),
            ) implies kind == '4' && is_event(rest@, namespace, event, tree_text(arg)) by {
            lemma_event_packet(namespace, event, tree_text(arg));
        }
    }
    if kind == '0' {
        match OpenPayload::from_json(rest) {
            Some(open) => Incoming::Open(Box::new(open.into_owned())),
            None => Incoming::Other(frame.to_string()),
        }
    } else if kind == '1' {
        Incoming::Close
    } else if kind == '2' {
        Incoming::Ping
    } else if kind == '3' {
        Incoming::Pong
    } else if kind == '4' {
        parse_socketio(rest, frame)
    } else {
        Incoming::Other(frame.to_string())
    }
}

/// Classifies the Socket.IO packet of a MESSAGE frame.
pub fn parse_socketio(rest: &str, whole: &str) -> (r: Incoming)
    ensures
        r@ == packet_view(rest@, whole@),
        forall|namespace: Seq<char>, event: Seq<char>, arg: Tree|
            readable(arg, 99) && #[trigger] is_event(rest@, namespace, event, tree_text(arg))
                ==> r@ == (IncomingView::Event {
                namespace,
                name: event,
                args: seq![tree_text(arg)],
            }),
{
    let n: usize = rest.unicode_len();
    if n == 0 {
        return Incoming::Other(whole.to_string());
    }
    let kind: char = rest.get_char(0);
    let body: &str = rest.substring_char(1, n);
    assert(body@ =~= rest@.skip(1));
    let (namespace, payload) = split_namespace(body);
    let payload = strip_ack_id(payload);

    if kind == '0' {
        accepted(namespace, read_string_field(read_value_member(payload, "sid")))
    } else if kind == '1' {
        Incoming::Disconnected { namespace }
    } else if kind == '2' {
        let read = elements_of(payload);
        proof {
            assert forall|namespace: Seq<char>, event: Seq<char>, arg: Tree|
                readable(arg, 99) && #[trigger] is_event(
                    rest@,
                    namespace,
                    event,
                    tree_text(arg),
                ) implies json_elements(payload@) == Some(
                seq![json_quoted(event), tree_text(arg)],
            ) by {
                let items = seq![Tree::Text(event), arg];
                assert(tree_texts(items) =~= seq![json_quoted(event), tree_text(arg)]);
                reveal_with_fuel(readable, 2);
                assert(readable(Tree::Text(event), 99));
                assert(readable(Tree::List(items), 100));
            }
        }
        match read {
            Some(items) => {
                let mut args: Vec<Json> = items;
                if args.len() > 0 {
                    let ghost all = args@;
                    let first: Json = args.remove(0);
                    let name: Option<String> = first.as_string();
                    proof {
                        assert(json_texts(args@) =~= json_texts(all).skip(1));
                        assert forall|namespace: Seq<char>, event: Seq<char>, arg: Tree|
                            readable(arg, 99) && #[trigger] is_event(
                                rest@,
                                namespace,
                                event,
                                tree_text(arg),
                            ) implies text_opt(name) == Some(event) && json_texts(args@) == seq![
                            tree_text(arg),
                        ] by {
                            assert(json_texts(all)[0] == json_quoted(event));
                            assert(json_texts(args@) =~= seq![tree_text(arg)]);
                        }
                    }
                    event(namespace, first, name, args)
                } else {
                    Incoming::Other(whole.to_string())
                }
            },
            None => Incoming::Other(whole.to_string()),
        }
    } else if kind == '4' {
        refused(namespace, read_string_field(read_value_member(payload, "message")), payload)
    } else {
        Incoming::Other(whole.to_string())
    }
}

// ── Frames to the server ────────────────────────────────────────────────

/// `40<ns>,<auth json>`: the handshake.
pub fn connect_packet(namespace: &str, auth: &Json) -> (r: String)
    ensures
        r@ == "40"@ + namespace@ + ","@ + auth@,
{
    let mut out = "40".to_string();
    out.append(namespace);
    out.append(",");
    out.append(auth.text());
    out
}

/// The body of an event packet: the event's name and its argument.
pub open spec fn event_body(event: Seq<char>, arg: Seq<char>) -> Seq<char> {
    array_text(seq![json_quoted(event), arg])
}

/// The text of an event packet.
pub open spec fn event_packet_text(
    namespace: Seq<char>,
    event: Seq<char>,
    arg: Seq<char>,
) -> Seq<char> {
    "42"@ + namespace + ","@ + event_body(event, arg)
}

/// The Socket.IO packet is this event of this namespace.
pub open spec fn is_event(
    packet: Seq<char>,
    namespace: Seq<char>,
    event: Seq<char>,
    arg: Seq<char>,
) -> bool {
    &&& packet.len() > 0 && packet[0] == '2'
    &&& namespace_and_payload(packet.skip(1)) == (namespace, event_body(event, arg))
    &&& after_ack_id(event_body(event, arg)) == event_body(event, arg)
}

/// A namespace that can be told from the payload behind it.
pub open spec fn proper_namespace(namespace: Seq<char>) -> bool {
    &&& namespace.len() > 0
    &&& namespace[0] == '/'
    &&& forall|i: int| 0 <= i < namespace.len() ==> namespace[i] != ','
}

/// `42<ns>,["<event>",<arg>]`.
///
/// **Never send this before the server's CONNECT ack.** Socket.IO closes the
/// whole connection when an event names a namespace it has not finished
/// joining.
///
/// [`parse`] reads it back as the event.
pub fn event_packet(namespace: &str, event: &str, arg: &Json) -> (r: String)
    ensures
        r@ == event_packet_text(namespace@, event@, arg@),
{
    let name: Json = Json::string(event);
    let mut items: Vec<Json> = Vec::new();
    items.push(name);
    items.push(Json::of_text(arg.text().to_string()));
    assert(json_texts(items@) =~= seq![json_quoted(event@), arg@]);
    let body: Json = Json::array(&items);
    let mut out = "42".to_string();
    out.append(namespace);
    out.append(",");
    out.append(body.text());
    assert(out@ =~= event_packet_text(namespace@, event@, arg@));
    out
}

/// `41<ns>,`: leave the namespace politely before closing the socket.
pub fn disconnect_packet(namespace: &str) -> (r: String)
    ensures
        r@ == "41"@ + namespace@ + ","@,
{
    let mut out = "41".to_string();
    out.append(namespace);
    out.append(",");
    out
}

/// Engine.IO PONG.
pub fn pong() -> (r: &'static str)
    ensures
        r@ == "3"@,
{
    "3"
}

/// The WebSocket base of a server base without trailing slashes. Without a
/// scheme it is taken to speak TLS: the station token must not travel in the
/// clear because somebody left out eight characters.
pub open spec fn websocket_base(base: Seq<char>) -> Seq<char> {
    match after_prefix(base, "https://"@) {
        Some(rest) => "wss://"@ + rest,
        None => match after_prefix(base, "http://"@) {
            Some(rest) => "ws://"@ + rest,
            None => "wss://"@ + base,
        },
    }
}

/// The WebSocket address for the handshake with `server_url`.
pub open spec fn websocket_url_text(server_url: Seq<char>) -> Seq<char> {
    websocket_base(trim_end_char(trim(server_url), '/')) + "/socket.io/?"@ + HANDSHAKE_QUERY@
}

/// Turns `https://api.example.com` into the WebSocket URL for the handshake.
pub fn websocket_url(server_url: &str) -> (r: String)
    ensures
        r@ == websocket_url_text(server_url@),
{
    let base: &str = text::trimmed_end_char(text::trimmed(server_url), '/');
    let mut out = match text::strip_prefix(base, "https://") {
        Some(rest) => {
            let mut s = "wss://".to_string();
            s.append(rest);
            s
        },
        None => match text::strip_prefix(base, "http://") {
            Some(rest) => {
                let mut s = "ws://".to_string();
                s.append(rest);
                s
            },
            None => {
                let mut s = "wss://".to_string();
                s.append(base);
                s
            },
        },
    };
    out.append("/socket.io/?");
    out.append(HANDSHAKE_QUERY);
    out
}

// ── Laws ────────────────────────────────────────────────────────────────

/// A namespace is read back from the wire as it was written, with the payload
/// behind it, whatever the payload holds; and a body that is a namespace alone
/// has an empty payload.
pub proof fn law_namespace_is_read_back(namespace: Seq<char>, payload: Seq<char>)
    requires
        proper_namespace(namespace),
    ensures
        namespace_and_payload(namespace + ","@ + payload) == (namespace, payload),
        namespace_and_payload(namespace) == (namespace, Seq::<char>::empty()),
{
    reveal_strlit(",");
    let body = namespace + ","@ + payload;
    let n = namespace.len() as int;
    assert(body[n] == ',');
    assert forall|j: int| 0 <= j < n implies body[j] != ',' by {
        assert(body[j] == namespace[j]);
    }
    text::lemma_first_index_is(body, ',', n);
    assert(body[0] == namespace[0]);
    assert(body.take(n) =~= namespace);
    assert(body.skip(n + 1) =~= payload);
    text::lemma_first_index(namespace, ',');
}

/// The packet that leaves a namespace is read as having left that namespace.
pub proof fn law_disconnect_is_read_back(namespace: Seq<char>)
    requires
        proper_namespace(namespace),
    ensures
        frame_view("41"@ + namespace + ","@) == (IncomingView::Disconnected { namespace }),
{
    reveal_strlit("41");
    let frame = "41"@ + namespace + ","@;
    law_namespace_is_read_back(namespace, Seq::empty());
    assert(frame.skip(1).skip(1) =~= namespace + ","@ + Seq::<char>::empty());
}

/// The answer to a heartbeat is read as one.
pub proof fn law_pong_is_read_back()
    ensures
        frame_view("3"@) is Pong,
{
    reveal_strlit("3");
}

/// A numbered event says what the same event says without the number.
pub proof fn law_ack_id_changes_nothing(namespace: Seq<char>, id: Seq<char>, payload: Seq<char>)
    requires
        proper_namespace(namespace),
        text::all_digits(id),
        payload.len() > 0 ==> !digit(payload[0]),
    ensures
        ({
            let plain = frame_view("42"@ + namespace + ","@ + payload);
            let numbered = frame_view("42"@ + namespace + ","@ + id + payload);
            (plain is Other && numbered is Other) || plain == numbered
        }),
{
    reveal_strlit("42");
    let plain = "42"@ + namespace + ","@ + payload;
    let numbered = "42"@ + namespace + ","@ + id + payload;
    law_namespace_is_read_back(namespace, payload);
    law_namespace_is_read_back(namespace, id + payload);
    assert(plain.skip(1).skip(1) =~= namespace + ","@ + payload);
    assert(numbered.skip(1).skip(1) =~= namespace + ","@ + (id + payload));
    lemma_leading_digits(id, payload);
    lemma_leading_digits(Seq::empty(), payload);
    assert((id + payload).skip(id.len() as int) =~= payload);
    assert(Seq::<char>::empty() + payload =~= payload);
    assert(payload.skip(0) =~= payload);
}

/// The address to dial starts with `ws://`, the plain scheme, only when the
/// server address says `http://`; in every other case it starts with `wss://`.
pub proof fn law_no_silent_downgrade(server_url: Seq<char>)
    ensures
        "ws://"@.is_prefix_of(websocket_url_text(server_url)) ==> "http://"@.is_prefix_of(
            trim(server_url),
        ),
        !"http://"@.is_prefix_of(trim(server_url)) ==> "wss://"@.is_prefix_of(
            websocket_url_text(server_url),
        ),
{
    reveal_strlit("ws://");
    reveal_strlit("wss://");
    reveal_strlit("http://");
    reveal_strlit("https://");
    let trimmed = trim(server_url);
    let base = trim_end_char(trimmed, '/');
    let out = websocket_url_text(server_url);
    lemma_trim_end_char_prefix(trimmed, '/');
    if "http://"@.is_prefix_of(base) {
        assert("http://"@ =~= trimmed.subrange(0, 7)) by {
            assert(base.subrange(0, 7) =~= trimmed.subrange(0, 7));
        }
    } else {
        assert(out.subrange(0, 6) =~= "wss://"@);
        assert(out[2] == 's');
        assert(out[1] == 's');
        if "ws://"@.is_prefix_of(out) {
            assert(out.subrange(0, 5)[2] == "ws://"@[2]);
        }
    }
}

proof fn lemma_trim_end_char_prefix(s: Seq<char>, c: char)
    ensures
        trim_end_char(s, c).len() <= s.len(),
        trim_end_char(s, c) == s.take(trim_end_char(s, c).len() as int),
    decreases s.len(),
{
    if s.len() > 0 && s.last() == c {
        lemma_trim_end_char_prefix(s.drop_last(), c);
        let k = trim_end_char(s, c).len() as int;
        assert(s.drop_last().take(k) =~= s.take(k));
    } else {
        assert(s.take(s.len() as int) =~= s);
    }
}

proof fn lemma_leading_digits(id: Seq<char>, payload: Seq<char>)
    requires
        text::all_digits(id),
        payload.len() > 0 ==> !digit(payload[0]),
    ensures
        leading_digits(id + payload) == id.len(),
    decreases id.len(),
{
    let all = id + payload;
    if id.len() == 0 {
        assert(all =~= payload);
    } else {
        assert(digit(id[0]));
        assert(all[0] == id[0]);
        assert(all.drop_first() =~= id.drop_first() + payload);
        lemma_leading_digits(id.drop_first(), payload);
    }
}

proof fn lemma_event_packet(namespace: Seq<char>, event: Seq<char>, arg: Seq<char>)
    requires
        proper_namespace(namespace),
    ensures
        event_packet_text(namespace, event, arg).len() > 0,
        event_packet_text(namespace, event, arg)[0] == '4',
        is_event(event_packet_text(namespace, event, arg).skip(1), namespace, event, arg),
{
    reveal_strlit("42");
    let body = event_body(event, arg);
    let frame = event_packet_text(namespace, event, arg);
    law_namespace_is_read_back(namespace, body);
    assert(frame.skip(1)[0] == '2');
    assert(frame.skip(1).skip(1) =~= namespace + ","@ + body);
    assert(body[0] == '[');
    assert(leading_digits(body) == 0);
    assert(body.skip(0) =~= body);
}

/// The ack of a namespace is read as that namespace taking us in, with the session
/// that its payload names, or none where it names none.
pub proof fn law_an_accepted_namespace_is_read(namespace: Seq<char>, payload: Seq<char>)
    requires
        proper_namespace(namespace),
        payload.len() > 0 ==> !digit(payload[0]),
    ensures
        frame_view("40"@ + namespace + ","@ + payload) matches IncomingView::Connected {
            namespace: n,
            sid,
        } && n == namespace && match json_value_member(payload, "sid"@) {
            Some(t) => match json_string(t) {
                Some(s) => sid == s,
                None => sid.len() == 0,
            },
            None => sid.len() == 0,
        },
{
    reveal_strlit("40");
    let frame = "40"@ + namespace + ","@ + payload;
    law_namespace_is_read_back(namespace, payload);
    assert(frame.skip(1).skip(1) =~= namespace + ","@ + payload);
    lemma_leading_digits(Seq::empty(), payload);
    assert(Seq::<char>::empty() + payload =~= payload);
    assert(payload.skip(0) =~= payload);
}

/// The refusal of a namespace is read as that namespace refusing us, in the words
/// of its payload, or the payload itself where it has none.
pub proof fn law_a_refused_namespace_is_read(namespace: Seq<char>, payload: Seq<char>)
    requires
        proper_namespace(namespace),
        payload.len() > 0 ==> !digit(payload[0]),
    ensures
        frame_view("44"@ + namespace + ","@ + payload) matches IncomingView::ConnectError {
            namespace: n,
            message,
        } && n == namespace && match json_value_member(payload, "message"@) {
            Some(t) => match json_string(t) {
                Some(s) => message == s,
                None => message == payload,
            },
            None => message == payload,
        },
{
    reveal_strlit("44");
    let frame = "44"@ + namespace + ","@ + payload;
    law_namespace_is_read_back(namespace, payload);
    assert(frame.skip(1).skip(1) =~= namespace + ","@ + payload);
    lemma_leading_digits(Seq::empty(), payload);
    assert(Seq::<char>::empty() + payload =~= payload);
    assert(payload.skip(0) =~= payload);
}

/// An event is read as its namespace, its name and its arguments: the first element
/// of its payload, and the others in their order.
pub proof fn law_an_event_is_read(namespace: Seq<char>, payload: Seq<char>, items: Seq<Seq<char>>)
    requires
        proper_namespace(namespace),
        payload.len() > 0 ==> !digit(payload[0]),
        json_elements(payload) == Some(items),
        items.len() > 0,
    ensures
        frame_view("42"@ + namespace + ","@ + payload) matches IncomingView::Event {
            namespace: n,
            name,
            args,
        } && n == namespace && args.len() == items.len() - 1 && (forall|i: int|
            0 <= i < args.len() ==> (#[trigger] args[i]) == items[i + 1]) && match json_string(
            items[0],
        ) {
            Some(s) => name == s,
            None => name == items[0],
        },
{
    reveal_strlit("42");
    let frame = "42"@ + namespace + ","@ + payload;
    law_namespace_is_read_back(namespace, payload);
    assert(frame.skip(1).skip(1) =~= namespace + ","@ + payload);
    lemma_leading_digits(Seq::empty(), payload);
    assert(Seq::<char>::empty() + payload =~= payload);
    assert(payload.skip(0) =~= payload);
}

/// The first digit of a frame says what it is: a close, a heartbeat or the answer to
/// one, whatever follows; and an empty frame is nothing that is known.
pub proof fn law_the_first_digit_says_what_a_frame_is(rest: Seq<char>)
    ensures
        frame_view(seq!['1'] + rest) is Close,
        frame_view(seq!['2'] + rest) is Ping,
        frame_view(seq!['3'] + rest) is Pong,
        frame_view(Seq::<char>::empty()) is Other,
        frame_view(seq!['0'] + rest) == (match open_of(rest) {
            Some(open) => IncomingView::Open(open),
            None => IncomingView::Other(seq!['0'] + rest),
        }),
        forall|c: char|
            !('0' <= c <= '4') ==> (#[trigger] frame_view(seq![c] + rest)) == IncomingView::Other(
                seq![c] + rest,
            ),
{
    assert((seq!['0'] + rest).skip(1) =~= rest);
}

/// A session says what the members of its packet hold, and has the defaults where
/// they hold nothing.
pub proof fn law_a_session_is_what_its_members_hold(
    payload: Seq<char>,
    members: Seq<Member>,
    open: OpenView,
)
    requires
        json_items(payload) is None,
        record_in(encode_utf8(payload), seq!["sid"@, "pingInterval"@, "pingTimeout"@]) == Some(
            members,
        ),
        open_of(payload) == Some(open),
    ensures
        member(members, "sid"@) matches Some(t) && json_string(t) == Some(open.sid),
        match member(members, "pingInterval"@) {
            Some(t) => json_u64(t) == Some(open.ping_interval),
            None => open.ping_interval == 25_000,
        },
        match member(members, "pingTimeout"@) {
            Some(t) => json_u64(t) == Some(open.ping_timeout),
            None => open.ping_timeout == 20_000,
        },
{
}

/// The address to dial is the server's, over TLS or not as it says, with the path
/// and the query of the handshake behind it.
pub proof fn law_the_address_is_the_servers(server_url: Seq<char>)
    ensures
        ({
            let base = trim_end_char(trim(server_url), '/');
            let end = "/socket.io/?EIO=4&transport=websocket"@;
            &&& forall|host: Seq<char>|
                base == #[trigger] ("https://"@ + host) ==> websocket_url_text(server_url) == "wss://"@
                    + host + end
            &&& forall|host: Seq<char>|
                base == #[trigger] ("http://"@ + host) ==> websocket_url_text(server_url) == "ws://"@
                    + host + end
            &&& !"https://"@.is_prefix_of(base) && !"http://"@.is_prefix_of(base)
                ==> websocket_url_text(server_url) == "wss://"@ + base + end
        }),
{
    reveal_strlit("https://");
    reveal_strlit("http://");
    reveal_strlit("/socket.io/?EIO=4&transport=websocket");
    reveal_strlit("/socket.io/?");
    reveal_strlit("EIO=4&transport=websocket");
    let base = trim_end_char(trim(server_url), '/');
    let end = "/socket.io/?EIO=4&transport=websocket"@;
    assert("/socket.io/?"@ + HANDSHAKE_QUERY@ =~= end);
    let url = websocket_url_text(server_url);
    assert(url =~= websocket_base(base) + end);
    assert forall|host: Seq<char>| base == #[trigger] ("https://"@ + host) implies url == "wss://"@
        + host + end by {
        assert(base.subrange(0, 8) =~= "https://"@);
        assert(base.skip(8) =~= host);
    }
    assert forall|host: Seq<char>| base == #[trigger] ("http://"@ + host) implies url == "ws://"@
        + host + end by {
        assert(base.subrange(0, 7) =~= "http://"@);
        assert(base[4] == ':');
        if "https://"@.is_prefix_of(base) {
            assert(base.subrange(0, 8)[4] == "https://"@[4]);
        }
        assert(base.skip(7) =~= host);
    }
}

/// A body without a namespace is of the default one, all of it payload.
pub proof fn law_a_body_without_a_namespace_is_all_payload(body: Seq<char>)
    requires
        body.len() > 0 ==> body[0] != '/',
    ensures
        namespace_and_payload(body) == (seq!['/'], body),
{
}

/// An event without a name is nothing that is known, and so is a packet of another
/// kind; nothing of either is lost.
pub proof fn law_what_is_not_known_is_kept_whole(namespace: Seq<char>, payload: Seq<char>)
    requires
        proper_namespace(namespace),
        payload.len() > 0 ==> !digit(payload[0]),
    ensures
        ({
            let frame = "42"@ + namespace + ","@ + payload;
            (json_elements(payload) matches Some(items) ==> items.len() == 0) ==> frame_view(frame)
                == IncomingView::Other(frame)
        }),
        forall|other: Seq<char>|
            other.len() >= 2 && other[0] == '4' && other[1] != '0' && other[1] != '1' && other[1]
                != '2' && other[1] != '4' ==> (#[trigger] frame_view(other)) == IncomingView::Other(
                other,
            ),
{
    reveal_strlit("42");
    let frame = "42"@ + namespace + ","@ + payload;
    law_namespace_is_read_back(namespace, payload);
    assert(frame.skip(1).skip(1) =~= namespace + ","@ + payload);
    lemma_leading_digits(Seq::empty(), payload);
    assert(Seq::<char>::empty() + payload =~= payload);
    assert(payload.skip(0) =~= payload);
    assert forall|other: Seq<char>|
        other.len() >= 2 && other[0] == '4' && other[1] != '0' && other[1] != '1' && other[1] != '2'
            && other[1] != '4' implies (#[trigger] frame_view(other)) == IncomingView::Other(
        other,
    ) by {
        assert(other.skip(1)[0] == other[1]);
    }
}

/// A frame means what it holds, field by field.
pub proof fn law_a_frame_means_what_it_holds(
    frame: Incoming,
    open: OpenPayload,
    owned: OpenPayloadOwned,
)
    ensures
        open@.sid == open.sid@ && open@.ping_interval == open.ping_interval && open@.ping_timeout
            == open.ping_timeout,
        owned@.sid == owned.sid@ && owned@.ping_interval == owned.ping_interval
            && owned@.ping_timeout == owned.ping_timeout,
        match frame {
            Incoming::Open(o) => frame@ == IncomingView::Open((*o)@),
            Incoming::Ping => frame@ is Ping,
            Incoming::Pong => frame@ is Pong,
            Incoming::Close => frame@ is Close,
            Incoming::Connected { namespace, sid } => frame@ == (IncomingView::Connected {
                namespace: namespace@,
                sid: sid@,
            }),
            Incoming::ConnectError { namespace, message } => frame@ == (
            IncomingView::ConnectError { namespace: namespace@, message: message@ }),
            Incoming::Event { namespace, name, args } => frame@ matches IncomingView::Event {
                namespace: n,
                name: m,
                args: a,
            } && n == namespace@ && m == name@ && a.len() == args@.len() && forall|i: int|
                0 <= i < a.len() ==> (#[trigger] a[i]) == args@[i]@,
            Incoming::Disconnected { namespace } => frame@ == (IncomingView::Disconnected {
                namespace: namespace@,
            }),
            Incoming::Other(f) => frame@ == IncomingView::Other(f@),
        },
{
}

/// A session is taken wherever it is named and its times, where it says them, are
/// numbers.
pub proof fn law_a_session_in_shape_is_taken(payload: Seq<char>, members: Seq<Member>)
    requires
        json_items(payload) is None,
        record_in(encode_utf8(payload), seq!["sid"@, "pingInterval"@, "pingTimeout"@]) == Some(
            members,
        ),
        member(members, "sid"@) matches Some(t) && json_string(t) is Some,
        member(members, "pingInterval"@) matches Some(t) ==> json_u64(t) is Some,
        member(members, "pingTimeout"@) matches Some(t) ==> json_u64(t) is Some,
    ensures
        open_of(payload) is Some,
{
}

} // verus!
