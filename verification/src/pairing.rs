//! Pairing: turning a code the owner reads off the screen into a station token.
//!
//! Someone at the till types an eight-character code (`FJTX-35AH`) into the
//! bridge, which exchanges it, once, for the opaque station token.
//!
//! * **A code is never retried on a transport error.** If the request reached
//!   the server the code is already burnt.
//! * **The token is returned exactly once.** Failing to persist it means the
//!   station is paired on the server and mute here, so a write failure is a hard
//!   error.

use vstd::prelude::*;
use vstd::string::*;
use vstd::utf8::encode_utf8;

use crate::config::{may_save, saved, server_url_of, Settings, SettingsStore, SettingsView};
use crate::error::{joined, BridgeError, BridgeResult};
use crate::json::{
    bool_field, element, found_under, json_items, json_quoted, json_string, law_a_list_is_read_whole,
    lemma_all_strings, lemma_found_at, lemma_texts_tree, list_opt, nth, nullable_field, nullable_text, object_text,
    read_bool_field, read_items, read_nullable_field, read_string_field, read_strings_field,
    record_member, record_text, string_field, strings_field, strings_json, texts_tree, tree_members,
    tree_text, Json, Plain, Tree,
};
use crate::record::{
    distinct, found_text, has_text, lemma_written_member_text, member, names_of, read_record,
    record_in, text_under, Member,
};
use crate::text;
use crate::text::{decimal, digit, lower, text_opt, texts, trim, trim_end_char, upper};

verus! {

/// How long the server has to answer, in seconds.
pub const PAIR_TIMEOUT: u64 = 20;

// ── The code ────────────────────────────────────────────────────────────

/// The text in upper case.
pub uninterp spec fn upper_case(s: Seq<char>) -> Seq<char>;

/// The character in upper case, where it is a letter of ASCII.
pub open spec fn ascii_upper(c: char) -> char {
    if lower(c) {
        (c as u32 - 32) as char
    } else {
        c
    }
}

/// A character of ASCII.
pub open spec fn ascii(c: char) -> bool {
    c as u32 <= 0x7f
}

/// All of ASCII.
pub open spec fn all_ascii(s: Seq<char>) -> bool {
    forall|i: int| 0 <= i < s.len() ==> ascii(#[trigger] s[i])
}

/// `str::to_uppercase`.
///
/// Claims that the outcome depends on the text alone, and that in a text of
/// ASCII each letter is put in upper case and the rest is left as it is.
/// Nothing is claimed of how a text with other characters in it is put together.
#[verifier::external_body]
fn to_upper_case(s: &str) -> (r: String)
    ensures
        r@ == upper_case(s@),
        all_ascii(s@) ==> r@ == s@.map_values(|c: char| ascii_upper(c)),
{
    s.to_uppercase()
}

/// A character that a code is made of.
pub open spec fn code_char(c: char) -> bool {
    digit(c) || upper(c)
}

/// The characters that a code is made of, in order.
pub open spec fn code_chars(s: Seq<char>) -> Seq<char>
    decreases s.len(),
{
    if s.len() == 0 {
        Seq::empty()
    } else if code_char(s.last()) {
        code_chars(s.drop_last()).push(s.last())
    } else {
        code_chars(s.drop_last())
    }
}

/// The code in a text that is in upper case already: what is no digit and no
/// letter is dropped, and eight characters get their dash back. Any other length
/// is left alone.
pub open spec fn code_of(s: Seq<char>) -> Seq<char> {
    let clean = code_chars(s);
    if clean.len() == 8 {
        clean.take(4) + seq!['-'] + clean.skip(4)
    } else {
        clean
    }
}

/// The code in a text that is in upper case already.
pub fn clean_code(s: &str) -> (r: String)
    ensures
        r@ == code_of(s@),
{
    let chars: Vec<char> = text::chars_of(s);
    let mut clean: Vec<char> = Vec::new();
    let mut i: usize = 0;
    assert(chars@.take(0) =~= Seq::<char>::empty());
    while i < chars.len()
        invariant
            i <= chars.len(),
            chars@ == s@,
            clean@ == code_chars(chars@.take(i as int)),
        decreases chars.len() - i,
    {
        proof {
            assert(chars@.take(i + 1).drop_last() =~= chars@.take(i as int));
            assert(chars@.take(i + 1).last() == chars@[i as int]);
        }
        let c: char = chars[i];
        if text::is_digit(c) || text::is_upper(c) {
            clean.push(c);
        }
        i += 1;
    }
    assert(chars@.take(i as int) =~= s@);
    let mut out = String::new();
    let mut j: usize = 0;
    while j < clean.len()
        invariant
            j <= clean.len(),
            clean@ == code_chars(s@),
            out@ == (if clean.len() == 8 && j > 4 {
                clean@.take(4) + seq!['-'] + clean@.subrange(4, j as int)
            } else {
                clean@.take(j as int)
            }),
        decreases clean.len() - j,
    {
        if clean.len() == 8 && j == 4 {
            out.push('-');
        }
        out.push(clean[j]);
        proof {
            if clean.len() == 8 && j >= 4 {
                assert(out@ =~= clean@.take(4) + seq!['-'] + clean@.subrange(4, j + 1));
            } else {
                assert(out@ =~= clean@.take(j + 1));
            }
        }
        j += 1;
    }
    proof {
        if clean.len() == 8 {
            assert(clean@.subrange(4, 8) =~= clean@.skip(4));
        } else {
            assert(clean@.take(j as int) =~= clean@);
        }
    }
    out
}

/// Normalises what the operator typed the same way the server does, so an
/// obviously malformed code never spends an attempt: upper case, nothing that is
/// not `[0-9A-Z]`, and the dash back in its place.
pub fn normalize_code(raw: &str) -> (r: String)
    ensures
        r@ == code_of(upper_case(raw@)),
        all_ascii(raw@) ==> r@ == code_of(raw@.map_values(|c: char| ascii_upper(c))),
{
    clean_code(to_upper_case(raw).as_str())
}

// ── The request ─────────────────────────────────────────────────────────

/// What to ask, and where.
#[derive(Debug)]
pub struct PairPlan {
    pub code: String,
    pub base: String,
    pub url: String,
}

/// The sentence for a code that is too short to be one.
pub open spec fn incomplete_text() -> Seq<char> {
    "El código de vinculación está incompleto. Son 8 caracteres, como FJTX-35AH."@
}

/// The sentence for a server that is not given.
pub open spec fn no_server_text() -> Seq<char> {
    "Falta la dirección del servidor de GourmelyHub."@
}

/// Whether to ask the server, and what: a code that is too short never reaches
/// it.
pub open spec fn planned(server_url: Seq<char>, code: Seq<char>, r: BridgeResult<PairPlan>) -> bool {
    let base = trim_end_char(trim(server_url), '/');
    if code.len() < 4 {
        r matches Err(BridgeError::Pairing(m)) && m@ == incomplete_text()
    } else if base.len() == 0 {
        r matches Err(BridgeError::Pairing(m)) && m@ == no_server_text()
    } else {
        r matches Ok(p) && p.code@ == code && p.base@ == base && p.url@ == base
            + "/v1/print-relay/pair"@
    }
}

/// The plan for a code that is normalised already.
pub fn plan_pairing(server_url: &str, code: String) -> (r: BridgeResult<PairPlan>)
    ensures
        planned(server_url@, code@, r),
{
    if code.as_str().unicode_len() < 4 {
        return Err(
            BridgeError::Pairing(
                "El código de vinculación está incompleto. Son 8 caracteres, como FJTX-35AH.".to_string(),
            ),
        );
    }
    let base: &str = text::trimmed_end_char(text::trimmed(server_url), '/');
    if base.unicode_len() == 0 {
        return Err(
            BridgeError::Pairing("Falta la dirección del servidor de GourmelyHub.".to_string()),
        );
    }
    Ok(PairPlan { code, base: base.to_string(), url: joined(base, "/v1/print-relay/pair") })
}

/// The plan for what the operator typed.
pub fn begin_pair(server_url: &str, code: &str) -> (r: BridgeResult<PairPlan>)
    ensures
        planned(server_url@, code_of(upper_case(code@)), r),
        all_ascii(code@) ==> planned(
            server_url@,
            code_of(code@.map_values(|c: char| ascii_upper(c))),
            r,
        ),
{
    plan_pairing(server_url, normalize_code(code))
}

/// The address to pair with: the one the operator typed, or the one in the
/// settings where they typed none.
pub open spec fn pairing_url_of(typed: Option<Seq<char>>, settings: SettingsView) -> Seq<char> {
    match typed {
        Some(t) => if trim_end_char(trim(t), '/').len() > 0 {
            trim_end_char(trim(t), '/')
        } else {
            server_url_of(settings.server_url)
        },
        None => server_url_of(settings.server_url),
    }
}

/// The address to pair with.
pub fn pairing_url(typed: Option<String>, settings: &Settings) -> (r: String)
    ensures
        r@ == pairing_url_of(text_opt(typed), settings@),
{
    match typed {
        Some(t) => {
            let base: &str = text::trimmed_end_char(text::trimmed(t.as_str()), '/');
            if base.unicode_len() > 0 {
                base.to_string()
            } else {
                settings.server_url()
            }
        },
        None => settings.server_url(),
    }
}

/// The body of the request.
pub open spec fn pair_request_text(
    code: Seq<char>,
    os: Seq<char>,
    hostname: Seq<char>,
    version: Seq<char>,
    printers: Seq<Seq<char>>,
) -> Seq<char> {
    object_text(
        seq![
            ("code"@, json_quoted(code)),
            (
                "machineInfo"@,
                object_text(
                    seq![
                        ("os"@, json_quoted(os)),
                        ("hostname"@, json_quoted(hostname)),
                        ("bridgeVersion"@, json_quoted(version)),
                        ("printers"@, strings_json(printers)),
                    ],
                ),
            ),
        ],
    )
}

/// The body of the request.
pub fn pair_request(
    code: &str,
    os: &str,
    hostname: &str,
    version: &str,
    printers: &Vec<String>,
) -> (r: Json)
    ensures
        r@ == pair_request_text(code@, os@, hostname@, version@, texts(printers@)),
{
    let mut info: Vec<(String, Json)> = Vec::new();
    info.push(("os".to_string(), Json::string(os)));
    info.push(("hostname".to_string(), Json::string(hostname)));
    info.push(("bridgeVersion".to_string(), Json::string(version)));
    info.push(("printers".to_string(), Json::strings(printers)));
    assert(info@.map_values(|m: (String, Json)| (m.0@, m.1@)) =~= seq![
        ("os"@, json_quoted(os@)),
        ("hostname"@, json_quoted(hostname@)),
        ("bridgeVersion"@, json_quoted(version@)),
        ("printers"@, strings_json(texts(printers@))),
    ]);
    let machine: Json = Json::object(&info);
    let ghost machine_text = machine@;
    let mut members: Vec<(String, Json)> = Vec::new();
    members.push(("code".to_string(), Json::string(code)));
    members.push(("machineInfo".to_string(), machine));
    assert(members@.map_values(|m: (String, Json)| (m.0@, m.1@)) =~= seq![
        ("code"@, json_quoted(code@)),
        ("machineInfo"@, machine_text),
    ]);
    Json::object(&members)
}

// ── The reply ───────────────────────────────────────────────────────────

/// What the server hands out for a code.
#[derive(Debug)]
pub struct PairResult {
    pub station_token: String,
    pub station_id: String,
    pub tenant_id: String,
    pub branch_id: String,
    pub label: String,
    pub roles: Vec<String>,
}

/// What the server handed out for a code.
pub struct PairResultView {
    pub station_token: Seq<char>,
    pub station_id: Seq<char>,
    pub tenant_id: Seq<char>,
    pub branch_id: Seq<char>,
    pub label: Seq<char>,
    pub roles: Seq<Seq<char>>,
}

impl View for PairResult {
    type V = PairResultView;

    open spec fn view(&self) -> PairResultView {
        PairResultView {
            station_token: self.station_token@,
            station_id: self.station_id@,
            tenant_id: self.tenant_id@,
            branch_id: self.branch_id@,
            label: self.label@,
            roles: texts(self.roles@),
        }
    }
}

/// What came of the request.
#[derive(Debug)]
pub enum PairReply {
    /// The request could not be prepared.
    NotPrepared(String),
    /// The server could not be reached, or did not answer in time.
    Unreachable(String),
    /// The body of the answer could not be read.
    Unreadable(String),
    /// The body is not what the server answers: a proxy, a captive portal or the
    /// wrong address.
    Foreign { status: u16 },
    /// The server's envelope.
    Envelope { status: u16, success: bool, data: Option<PairResult>, message: Option<String> },
}

/// The result that six fields make up: the roles may be absent.
pub open spec fn result_from_fields(
    station_token: Option<Seq<char>>,
    station_id: Option<Seq<char>>,
    tenant_id: Option<Seq<char>>,
    branch_id: Option<Seq<char>>,
    label: Option<Seq<char>>,
    roles: Option<Seq<Seq<char>>>,
) -> Option<PairResultView> {
    match (station_token, station_id, tenant_id, branch_id, label, roles) {
        (
            Some(station_token),
            Some(station_id),
            Some(tenant_id),
            Some(branch_id),
            Some(label),
            Some(roles),
        ) => Some(
            PairResultView { station_token, station_id, tenant_id, branch_id, label, roles },
        ),
        _ => None,
    }
}

/// The result that a JSON text describes: an object, or the values in an array.
pub open spec fn result_of(text: Seq<char>) -> Option<PairResultView> {
    match json_items(text) {
        Some(items) => if 5 <= items.len() <= 6 {
            result_from_fields(
                string_field(element(items, 0)),
                string_field(element(items, 1)),
                string_field(element(items, 2)),
                string_field(element(items, 3)),
                string_field(element(items, 4)),
                strings_field(element(items, 5)),
            )
        } else {
            None
        },
        None => match record_in(encode_utf8(text), result_names()) {
            Some(m) => result_from_fields(
                string_field(member(m, "stationToken"@)),
                string_field(member(m, "stationId"@)),
                string_field(member(m, "tenantId"@)),
                string_field(member(m, "branchId"@)),
                string_field(member(m, "label"@)),
                strings_field(member(m, "roles"@)),
            ),
            None => None,
        },
    }
}

/// The names of the members of a result.
pub open spec fn result_names() -> Seq<Seq<char>> {
    seq!["stationToken"@, "stationId"@, "tenantId"@, "branchId"@, "label"@, "roles"@]
}

/// The view of a result that may be absent.
pub open spec fn result_opt(r: Option<PairResult>) -> Option<PairResultView> {
    match r {
        Some(r) => Some(r@),
        None => None,
    }
}

/// The message of the error that a JSON text describes: `None` where it
/// describes no error, `Some(None)` where the error carries no message.
pub open spec fn error_message_of(text: Seq<char>) -> Option<Option<Seq<char>>> {
    match json_items(text) {
        Some(items) => if items.len() == 2 && nullable_field(element(items, 0)) is Some {
            nullable_field(element(items, 1))
        } else {
            None
        },
        None => match record_in(encode_utf8(text), seq!["code"@, "message"@]) {
            Some(m) => if nullable_field(member(m, "code"@)) is Some {
                nullable_field(member(m, "message"@))
            } else {
                None
            },
            None => None,
        },
    }
}

/// What an envelope says: whether it is a success, what was handed out, and the
/// message of its error.
pub struct EnvelopeView {
    pub success: bool,
    pub data: Option<PairResultView>,
    pub message: Option<Seq<char>>,
}

/// The envelope that three fields make up. Each may be absent, and the last two
/// null, but none may be of another shape than its own.
pub open spec fn envelope_from_fields(
    success: Option<Option<bool>>,
    data: Option<Option<PairResultView>>,
    message: Option<Option<Seq<char>>>,
) -> Option<EnvelopeView> {
    match (success, data, message) {
        (Some(None), _, _) => None,
        (Some(Some(success)), Some(data), Some(message)) => Some(
            EnvelopeView { success, data, message },
        ),
        (None, Some(data), Some(message)) => Some(EnvelopeView { success: false, data, message }),
        _ => None,
    }
}

/// What a field of an envelope hands out: nothing when it is absent or null.
pub open spec fn data_field(field: Option<Seq<char>>) -> Option<Option<PairResultView>> {
    match field {
        Some(t) => if t == "null"@ {
            Some(None)
        } else {
            match result_of(t) {
                Some(r) => Some(Some(r)),
                None => None,
            }
        },
        None => Some(None),
    }
}

/// The message that the error field of an envelope carries: none when it is
/// absent or null.
pub open spec fn error_field(field: Option<Seq<char>>) -> Option<Option<Seq<char>>> {
    match field {
        Some(t) => if t == "null"@ {
            Some(None)
        } else {
            error_message_of(t)
        },
        None => Some(None),
    }
}

/// The envelope that the body of an answer holds:
/// `{success, data, error: {code, message}}`, or the values in arrays.
pub open spec fn envelope_of(body: Seq<char>) -> Option<EnvelopeView> {
    match json_items(body) {
        Some(items) => if items.len() == 3 {
            envelope_from_fields(
                bool_field(element(items, 0)),
                data_field(element(items, 1)),
                error_field(element(items, 2)),
            )
        } else {
            None
        },
        None => match record_in(encode_utf8(body), seq!["success"@, "data"@, "error"@]) {
            Some(m) => envelope_from_fields(
                bool_field(member(m, "success"@)),
                data_field(member(m, "data"@)),
                error_field(member(m, "error"@)),
            ),
            None => None,
        },
    }
}

impl PairResult {
    /// The result that six fields make up.
    pub fn from_fields(
        station_token: Option<String>,
        station_id: Option<String>,
        tenant_id: Option<String>,
        branch_id: Option<String>,
        label: Option<String>,
        roles: Option<Vec<String>>,
    ) -> (r: Option<PairResult>)
        ensures
            result_opt(r) == result_from_fields(
                text_opt(station_token),
                text_opt(station_id),
                text_opt(tenant_id),
                text_opt(branch_id),
                text_opt(label),
                list_opt(roles),
            ),
    {
        match (station_token, station_id, tenant_id, branch_id, label, roles) {
            (
                Some(station_token),
                Some(station_id),
                Some(tenant_id),
                Some(branch_id),
                Some(label),
                Some(roles),
            ) => Some(PairResult { station_token, station_id, tenant_id, branch_id, label, roles }),
            _ => None,
        }
    }

    /// The result that a JSON text describes. The object that a result is written
    /// as describes that result, each member its own field, whatever stands beside
    /// them; only the roles may be left out.
    pub fn parse(text: &str) -> (r: Option<PairResult>)
        ensures
            result_opt(r) == result_of(text@),
            forall|members: Seq<(Seq<char>, Plain)>|
                text@ == #[trigger] record_text(members) && members.len() > 0 && distinct(members)
                    && has_text(members, "stationToken"@) && has_text(members, "stationId"@)
                    && has_text(members, "tenantId"@) && has_text(members, "branchId"@) && has_text(
                    members,
                    "label"@,
                ) && (record_member(members, "roles"@) matches Some(roles) ==> roles is Texts) ==> {
                    &&& r matches Some(result)
                    &&& text_under(members, "stationToken"@) == Some(result.station_token@)
                    &&& text_under(members, "stationId"@) == Some(result.station_id@)
                    &&& text_under(members, "tenantId"@) == Some(result.tenant_id@)
                    &&& text_under(members, "branchId"@) == Some(result.branch_id@)
                    &&& text_under(members, "label"@) == Some(result.label@)
                    &&& match record_member(members, "roles"@) {
                        Some(Plain::Texts(roles)) => texts(result.roles@) == roles,
                        _ => result.roles@.len() == 0,
                    }
                },
    {
        match read_items(text) {
            Some(items) => {
                if 5 <= items.len() && items.len() <= 6 {
                    PairResult::from_fields(
                        read_string_field(nth(&items, 0)),
                        read_string_field(nth(&items, 1)),
                        read_string_field(nth(&items, 2)),
                        read_string_field(nth(&items, 3)),
                        read_string_field(nth(&items, 4)),
                        read_strings_field(nth(&items, 5)),
                    )
                } else {
                    None
                }
            },
            None => PairResult::parse_object(text),
        }
    }

    fn parse_object(text: &str) -> (r: Option<PairResult>)
        requires
            json_items(text@) is None,
        ensures
            result_opt(r) == result_of(text@),
            forall|members: Seq<(Seq<char>, Plain)>|
                text@ == #[trigger] record_text(members) && members.len() > 0 && distinct(members)
                    && has_text(members, "stationToken"@) && has_text(members, "stationId"@)
                    && has_text(members, "tenantId"@) && has_text(members, "branchId"@) && has_text(
                    members,
                    "label"@,
                ) && (record_member(members, "roles"@) matches Some(roles) ==> roles is Texts) ==> {
                    &&& r matches Some(result)
                    &&& text_under(members, "stationToken"@) == Some(result.station_token@)
                    &&& text_under(members, "stationId"@) == Some(result.station_id@)
                    &&& text_under(members, "tenantId"@) == Some(result.tenant_id@)
                    &&& text_under(members, "branchId"@) == Some(result.branch_id@)
                    &&& text_under(members, "label"@) == Some(result.label@)
                    &&& match record_member(members, "roles"@) {
                        Some(Plain::Texts(roles)) => texts(result.roles@) == roles,
                        _ => result.roles@.len() == 0,
                    }
                },
    {
        let names: Vec<&'static str> = vec![
            "stationToken",
            "stationId",
            "tenantId",
            "branchId",
            "label",
            "roles",
        ];
        assert(names_of(names@) =~= result_names());
        match read_record(text.as_bytes(), &names) {
            Some(m) => {
                let token = m.get("stationToken");
                let station = m.get("stationId");
                let tenant = m.get("tenantId");
                let branch = m.get("branchId");
                let label = m.get("label");
                let roles = m.get("roles");
                proof {
                    assert forall|members: Seq<(Seq<char>, Plain)>|
                        text@ == #[trigger] record_text(members) && members.len() > 0 && distinct(
                            members,
                        ) implies text_opt(token) == found_text(members, "stationToken"@)
                        && text_opt(station) == found_text(members, "stationId"@) && text_opt(tenant)
                        == found_text(members, "tenantId"@) && text_opt(branch) == found_text(
                        members,
                        "branchId"@,
                    ) && text_opt(label) == found_text(members, "label"@) && text_opt(roles)
                        == found_text(members, "roles"@) by {
                        lemma_written_member_text(members, false, "stationToken"@);
                        lemma_written_member_text(members, false, "stationId"@);
                        lemma_written_member_text(members, false, "tenantId"@);
                        lemma_written_member_text(members, false, "branchId"@);
                        lemma_written_member_text(members, false, "label"@);
                        lemma_written_member_text(members, false, "roles"@);
                    }
                }
                let r = PairResult::from_fields(
                    read_string_field(token),
                    read_string_field(station),
                    read_string_field(tenant),
                    read_string_field(branch),
                    read_string_field(label),
                    read_strings_field(roles),
                );
                proof {
                    if roles is None {
                        assert(r matches Some(result) ==> texts(result.roles@).len() == 0);
                    }
                }
                r
            },
            None => None,
        }
    }
}

fn parse_error(text: &str) -> (r: Option<Option<String>>)
    ensures
        nullable_text(r) == error_message_of(text@),
{
    match read_items(text) {
        Some(items) => {
            if items.len() == 2 && read_nullable_field(nth(&items, 0)).is_some() {
                read_nullable_field(nth(&items, 1))
            } else {
                None
            }
        },
        None => {
            let names: Vec<&'static str> = vec!["code", "message"];
            assert(names_of(names@) =~= seq!["code"@, "message"@]);
            match read_record(text.as_bytes(), &names) {
                Some(m) => {
                    if read_nullable_field(m.get("code")).is_some() {
                        read_nullable_field(m.get("message"))
                    } else {
                        None
                    }
                },
                None => None,
            }
        },
    }
}

/// The view of a result that may be absent, under a reading that may fail.
pub open spec fn nullable_result(r: Option<Option<PairResult>>) -> Option<Option<PairResultView>> {
    match r {
        Some(inner) => Some(result_opt(inner)),
        None => None,
    }
}

fn read_data(field: Option<String>) -> (r: Option<Option<PairResult>>)
    ensures
        nullable_result(r) == data_field(text_opt(field)),
{
    match field {
        Some(t) => {
            if text::same(t.as_str(), "null") {
                Some(None)
            } else {
                match PairResult::parse(t.as_str()) {
                    Some(r) => Some(Some(r)),
                    None => None,
                }
            }
        },
        None => Some(None),
    }
}

fn read_error(field: Option<String>) -> (r: Option<Option<String>>)
    ensures
        nullable_text(r) == error_field(text_opt(field)),
{
    match field {
        Some(t) => {
            if text::same(t.as_str(), "null") {
                Some(None)
            } else {
                parse_error(t.as_str())
            }
        },
        None => Some(None),
    }
}

/// What an answer with this envelope, or with none, comes to.
pub open spec fn is_reply(reply: PairReply, status: u16, envelope: Option<EnvelopeView>) -> bool {
    match envelope {
        Some(e) => reply matches PairReply::Envelope { status: s, success, data, message } && s
            == status && success == e.success && result_opt(data) == e.data && text_opt(message)
            == e.message,
        None => reply == (PairReply::Foreign { status }),
    }
}

impl PairReply {
    /// The answer whose envelope has these three fields.
    pub fn from_fields(
        status: u16,
        success: Option<Option<bool>>,
        data: Option<Option<PairResult>>,
        message: Option<Option<String>>,
    ) -> (r: PairReply)
        ensures
            is_reply(
                r,
                status,
                envelope_from_fields(success, nullable_result(data), nullable_text(message)),
            ),
    {
        match (success, data, message) {
            (Some(None), _, _) => PairReply::Foreign { status },
            (Some(Some(success)), Some(data), Some(message)) => PairReply::Envelope {
                status,
                success,
                data,
                message,
            },
            (None, Some(data), Some(message)) => PairReply::Envelope {
                status,
                success: false,
                data,
                message,
            },
            _ => PairReply::Foreign { status },
        }
    }

    /// The answer with this status and this body. A body that is no envelope
    /// came from somebody else than the server.
    pub fn read(status: u16, body: &str) -> (r: PairReply)
        ensures
            is_reply(r, status, envelope_of(body@)),
    {
        match read_items(body) {
            Some(items) => {
                if items.len() == 3 {
                    PairReply::from_fields(
                        status,
                        read_bool_field(nth(&items, 0)),
                        read_data(nth(&items, 1)),
                        read_error(nth(&items, 2)),
                    )
                } else {
                    PairReply::Foreign { status }
                }
            },
            None => {
                let names: Vec<&'static str> = vec!["success", "data", "error"];
                assert(names_of(names@) =~= seq!["success"@, "data"@, "error"@]);
                match read_record(body.as_bytes(), &names) {
                    Some(m) => PairReply::from_fields(
                        status,
                        read_bool_field(m.get("success")),
                        read_data(m.get("data")),
                        read_error(m.get("error")),
                    ),
                    None => PairReply::Foreign { status },
                }
            },
        }
    }
}

/// The sentence for a request that failed, or `None` for one that succeeded.
pub open spec fn pair_failure(base: Seq<char>, reply: PairReply) -> Option<Seq<char>> {
    match reply {
        PairReply::NotPrepared(e) => Some("no se pudo preparar la conexión: "@ + e@),
        PairReply::Unreachable(e) => Some(
            "No se pudo contactar a "@ + base + ". Revisa la conexión a internet. ("@ + e@ + ")"@,
        ),
        PairReply::Unreadable(e) => Some("respuesta ilegible del servidor: "@ + e@),
        PairReply::Foreign { status } => Some(
            "El servidor respondió algo que no es de GourmelyHub (HTTP "@ + decimal(status as nat)
                + "). Comprueba la dirección del servidor."@,
        ),
        PairReply::Envelope { status, success, data, message } => if success && data is Some {
            None
        } else {
            Some(
                match message {
                    Some(m) => m@,
                    None => "La vinculación falló (HTTP "@ + decimal(status as nat) + ")."@,
                },
            )
        },
    }
}

/// What the request came to: the server's result, or the sentence for the
/// operator.
pub fn pair_outcome(base: &str, reply: PairReply) -> (r: BridgeResult<PairResult>)
    ensures
        match pair_failure(base@, reply) {
            Some(sentence) => r matches Err(BridgeError::Pairing(m)) && m@ == sentence,
            None => r matches Ok(result) && reply->data == Some(result),
        },
{
    match reply {
        PairReply::NotPrepared(e) => Err(
            BridgeError::Pairing(joined("no se pudo preparar la conexión: ", e.as_str())),
        ),
        PairReply::Unreachable(e) => {
            let mut m = joined("No se pudo contactar a ", base);
            m.append(". Revisa la conexión a internet. (");
            m.append(e.as_str());
            m.append(")");
            Err(BridgeError::Pairing(m))
        },
        PairReply::Unreadable(e) => Err(
            BridgeError::Pairing(joined("respuesta ilegible del servidor: ", e.as_str())),
        ),
        PairReply::Foreign { status } => {
            let mut m = joined(
                "El servidor respondió algo que no es de GourmelyHub (HTTP ",
                text::number(status as u64).as_str(),
            );
            m.append("). Comprueba la dirección del servidor.");
            Err(BridgeError::Pairing(m))
        },
        PairReply::Envelope { status, success, data, message } => {
            match (success, data) {
                (true, Some(result)) => Ok(result),
                _ => {
                    let m: String = match message {
                        Some(m) => m,
                        None => {
                            let mut m = joined(
                                "La vinculación falló (HTTP ",
                                text::number(status as u64).as_str(),
                            );
                            m.append(").");
                            m
                        },
                    };
                    Err(BridgeError::Pairing(m))
                },
            }
        },
    }
}

// ── What is remembered ──────────────────────────────────────────────────

/// The settings once a station is paired.
pub open spec fn paired_settings(
    before: SettingsView,
    base: Seq<char>,
    result: PairResultView,
) -> SettingsView {
    SettingsView {
        server_url: Some(base),
        station_token: Some(result.station_token),
        station_id: Some(result.station_id),
        tenant_id: Some(result.tenant_id),
        branch_id: Some(result.branch_id),
        label: Some(result.label),
        roles: result.roles,
        ..before
    }
}

/// The settings once a pairing is forgotten.
pub open spec fn forgotten_settings(before: SettingsView) -> SettingsView {
    SettingsView {
        station_token: None,
        station_id: None,
        tenant_id: None,
        branch_id: None,
        label: None,
        roles: Seq::empty(),
        ..before
    }
}

/// Takes the reply to a request that went to `base`, and remembers the station
/// it hands out.
///
/// On failure nothing is written and nothing is kept: a half-applied pairing
/// would be worse than none.
pub fn pair(
    settings: &mut SettingsStore,
    base: &str,
    reply: PairReply,
    save: impl FnOnce(&str) -> BridgeResult<()>,
) -> (r: BridgeResult<PairResult>)
    requires
        !old(settings).is_in_memory() && pair_failure(base@, reply) is None ==> may_save(
            save,
            paired_settings(old(settings)@, base@, (reply->data)->Some_0@),
        ),
    ensures
        final(settings).is_in_memory() == old(settings).is_in_memory(),
        match pair_failure(base@, reply) {
            Some(sentence) => {
                &&& r matches Err(BridgeError::Pairing(m)) && m@ == sentence
                &&& final(settings)@ == old(settings)@
            },
            None => {
                let next = paired_settings(old(settings)@, base@, (reply->data)->Some_0@);
                if old(settings).is_in_memory() {
                    final(settings)@ == next && (r matches Ok(result) && reply->data == Some(
                        result,
                    ))
                } else {
                    exists|w: BridgeResult<()>|
                        {
                            &&& #[trigger] saved(save, next, w)
                            &&& match w {
                                Ok(_) => final(settings)@ == next && (r matches Ok(result)
                                    && reply->data == Some(result)),
                                Err(e) => final(settings)@ == old(settings)@ && r == Err::<
                                    PairResult,
                                    BridgeError,
                                >(e),
                            }
                        }
                }
            },
        },
{
    let result: PairResult = match pair_outcome(base, reply) {
        Ok(result) => result,
        Err(e) => {
            return Err(e);
        },
    };
    let apply = |s: Settings| -> (next: Settings)
        ensures
            next@ == paired_settings(s@, base@, result@),
        {
            let mut next: Settings = s;
            next.server_url = Some(base.to_string());
            next.station_token = Some(result.station_token.clone());
            next.station_id = Some(result.station_id.clone());
            next.tenant_id = Some(result.tenant_id.clone());
            next.branch_id = Some(result.branch_id.clone());
            next.label = Some(result.label.clone());
            next.roles = text::copy_list(&result.roles);
            next
        };
    match settings.update(apply, save) {
        Ok(_) => Ok(result),
        Err(e) => Err(e),
    }
}

/// Forgets the pairing on this machine. Does **not** revoke it on the server.
pub fn forget(
    settings: &mut SettingsStore,
    save: impl FnOnce(&str) -> BridgeResult<()>,
) -> (r: BridgeResult<()>)
    requires
        !old(settings).is_in_memory() ==> may_save(save, forgotten_settings(old(settings)@)),
    ensures
        final(settings).is_in_memory() == old(settings).is_in_memory(),
        old(settings).is_in_memory() ==> final(settings)@ == forgotten_settings(old(settings)@)
            && r is Ok,
        !old(settings).is_in_memory() ==> exists|w: BridgeResult<()>|
            {
                &&& #[trigger] saved(save, forgotten_settings(old(settings)@), w)
                &&& match w {
                    Ok(_) => final(settings)@ == forgotten_settings(old(settings)@) && r is Ok,
                    Err(e) => final(settings)@ == old(settings)@ && r == Err::<(), BridgeError>(e),
                }
            },
{
    let apply = |s: Settings| -> (next: Settings)
        ensures
            next@ == forgotten_settings(s@),
        {
            let mut next: Settings = s;
            next.station_token = None;
            next.station_id = None;
            next.tenant_id = None;
            next.branch_id = None;
            next.label = None;
            next.roles = Vec::new();
            assert(texts(next.roles@) =~= Seq::<Seq<char>>::empty());
            next
        };
    match settings.update(apply, save) {
        Ok(_) => Ok(()),
        Err(e) => Err(e),
    }
}

// ── Laws ────────────────────────────────────────────────────────────────

/// Normalising a code again changes nothing.
pub proof fn law_a_code_is_normalised_once(s: Seq<char>)
    ensures
        code_of(code_of(s)) == code_of(s),
        code_of(s).map_values(|c: char| ascii_upper(c)) == code_of(s),
        all_ascii(code_of(s)),
{
    let clean = code_chars(s);
    lemma_code_chars(s);
    lemma_code_chars_id(clean);
    if clean.len() == 8 {
        let dashed = clean.take(4) + seq!['-'] + clean.skip(4);
        lemma_code_chars_concat(clean.take(4) + seq!['-'], clean.skip(4));
        lemma_code_chars_concat(clean.take(4), seq!['-']);
        lemma_code_chars_id(clean.take(4));
        lemma_code_chars_id(clean.skip(4));
        assert(seq!['-'].drop_last() =~= Seq::<char>::empty());
        assert(code_chars(seq!['-'].drop_last()) =~= Seq::<char>::empty());
        assert(code_chars(seq!['-']) =~= Seq::<char>::empty());
        assert(code_chars(dashed) =~= clean);
    }
    assert(code_of(s).map_values(|c: char| ascii_upper(c)) =~= code_of(s));
}

/// The character in lower case, where it is a letter of ASCII.
pub open spec fn ascii_lower(c: char) -> char {
    if upper(c) {
        (c as u32 + 32) as char
    } else {
        c
    }
}

/// What stands between the characters of a code in upper case makes no
/// difference to it: any character that is no letter and no digit of ASCII, a dash
/// of whatever length among them, may stand anywhere in the text, whatever else
/// the text holds.
pub proof fn law_separators_make_no_difference(a: Seq<char>, c: char, b: Seq<char>)
    requires
        !code_char(c),
    ensures
        code_of(a + seq![c] + b) == code_of(a + b),
{
    lemma_code_chars_concat(a + seq![c], b);
    lemma_code_chars_concat(a, seq![c]);
    lemma_code_chars_concat(a, b);
    assert(seq![c].drop_last() =~= Seq::<char>::empty());
    assert(code_chars(seq![c]) =~= code_chars(seq![c].drop_last()));
    assert(code_chars(a) + code_chars(seq![c]) =~= code_chars(a));
}

/// What an operator types between the characters of a code makes no difference
/// to it: in a text of ASCII, a character that is no letter and no digit may stand
/// anywhere.
pub proof fn law_typed_separators_make_no_difference(a: Seq<char>, c: char, b: Seq<char>)
    requires
        all_ascii(a),
        ascii(c),
        all_ascii(b),
        !digit(c) && !upper(c) && !lower(c),
    ensures
        all_ascii(a + seq![c] + b) && all_ascii(a + b),
        code_of((a + seq![c] + b).map_values(|c: char| ascii_upper(c))) == code_of(
            (a + b).map_values(|c: char| ascii_upper(c)),
        ),
{
    let big = |c: char| ascii_upper(c);
    let (x, y) = (a.map_values(big), b.map_values(big));
    assert((a + seq![c] + b).map_values(big) =~= x + seq![c] + y);
    assert((a + b).map_values(big) =~= x + y);
    law_separators_make_no_difference(x, c, y);
}

/// The case of the letters of ASCII makes no difference to a code.
pub proof fn law_letter_case_makes_no_difference(raw: Seq<char>)
    ensures
        all_ascii(raw) ==> all_ascii(raw.map_values(|c: char| ascii_lower(c))),
        code_of(
            raw.map_values(|c: char| ascii_lower(c)).map_values(|c: char| ascii_upper(c)),
        ) == code_of(raw.map_values(|c: char| ascii_upper(c))),
{
    let small = raw.map_values(|c: char| ascii_lower(c));
    assert forall|i: int|
        all_ascii(raw) && 0 <= i < small.len() implies ascii(#[trigger] small[i]) by {
        assert(ascii(raw[i]));
    }
    assert(small.map_values(|c: char| ascii_upper(c)) =~= raw.map_values(
        |c: char| ascii_upper(c),
    ));
}

/// What was paired and then forgotten leaves the settings as unpaired as they
/// can be, and touches neither the local secret nor the printer.
pub proof fn law_forgetting_undoes_pairing(
    before: SettingsView,
    base: Seq<char>,
    result: PairResultView,
)
    ensures
        forgotten_settings(paired_settings(before, base, result)) == (SettingsView {
            server_url: Some(base),
            ..forgotten_settings(before)
        }),
        forgotten_settings(before).station_token is None,
        forgotten_settings(before).local_secret == before.local_secret,
        forgotten_settings(before).default_printer == before.default_printer,
        forgotten_settings(before).local_auth == before.local_auth,
{
}

proof fn lemma_code_chars(s: Seq<char>)
    ensures
        forall|i: int| 0 <= i < code_chars(s).len() ==> code_char(#[trigger] code_chars(s)[i]),
    decreases s.len(),
{
    if s.len() > 0 {
        let rest = code_chars(s.drop_last());
        lemma_code_chars(s.drop_last());
        assert forall|i: int| 0 <= i < code_chars(s).len() implies code_char(
            #[trigger] code_chars(s)[i],
        ) by {
            if i < rest.len() {
                assert(code_chars(s)[i] == rest[i]);
            }
        }
    }
}

proof fn lemma_code_chars_id(s: Seq<char>)
    requires
        forall|i: int| 0 <= i < s.len() ==> code_char(#[trigger] s[i]),
    ensures
        code_chars(s) == s,
    decreases s.len(),
{
    if s.len() > 0 {
        assert(code_char(s[s.len() - 1]));
        assert forall|i: int| 0 <= i < s.drop_last().len() implies code_char(
            #[trigger] s.drop_last()[i],
        ) by {
            assert(code_char(s[i]));
        }
        lemma_code_chars_id(s.drop_last());
        assert(s.drop_last().push(s.last()) =~= s);
    } else {
        assert(code_chars(s) =~= s);
    }
}

proof fn lemma_code_chars_concat(a: Seq<char>, b: Seq<char>)
    ensures
        code_chars(a + b) == code_chars(a) + code_chars(b),
    decreases b.len(),
{
    if b.len() == 0 {
        assert(a + b =~= a);
        assert(code_chars(a) + code_chars(b) =~= code_chars(a));
    } else {
        assert((a + b).drop_last() =~= a + b.drop_last());
        lemma_code_chars_concat(a, b.drop_last());
        assert(code_chars(a + b) =~= code_chars(a) + code_chars(b));
    }
}

/// A result says what the members of its object hold, each field what stands under
/// its own name.
pub proof fn law_a_result_is_what_its_members_hold(
    text: Seq<char>,
    members: Seq<Member>,
    result: PairResultView,
)
    requires
        json_items(text) is None,
        record_in(
            encode_utf8(text),
            seq!["stationToken"@, "stationId"@, "tenantId"@, "branchId"@, "label"@, "roles"@],
        ) == Some(members),
        result_of(text) == Some(result),
    ensures
        member(members, "stationToken"@) matches Some(t) && json_string(t) == Some(
            result.station_token,
        ),
        member(members, "stationId"@) matches Some(t) && json_string(t) == Some(result.station_id),
        member(members, "tenantId"@) matches Some(t) && json_string(t) == Some(result.tenant_id),
        member(members, "branchId"@) matches Some(t) && json_string(t) == Some(result.branch_id),
        member(members, "label"@) matches Some(t) && json_string(t) == Some(result.label),
        member(members, "roles"@) is None ==> result.roles.len() == 0,
        member(members, "roles"@) matches Some(t) ==> json_items(t) matches Some(items)
            && items.len() == result.roles.len() && forall|i: int|
            0 <= i < items.len() ==> json_string(#[trigger] items[i]) == Some(result.roles[i]),
{
    if let Some(t) = member(members, "roles"@) {
        lemma_all_strings(json_items(t)->Some_0);
    }
}

/// A result that comes as an array says what its elements hold, each in its place.
pub proof fn law_a_result_is_what_its_elements_hold(
    text: Seq<char>,
    items: Seq<Seq<char>>,
    result: PairResultView,
)
    requires
        json_items(text) == Some(items),
        result_of(text) == Some(result),
    ensures
        5 <= items.len() <= 6,
        json_string(items[0]) == Some(result.station_token),
        json_string(items[1]) == Some(result.station_id),
        json_string(items[2]) == Some(result.tenant_id),
        json_string(items[3]) == Some(result.branch_id),
        json_string(items[4]) == Some(result.label),
        items.len() == 5 ==> result.roles.len() == 0,
{
}

/// An envelope says what its members hold: whether it is a success, where it says
/// so, what it hands out, and the message of its error.
pub proof fn law_an_envelope_is_what_its_members_hold(
    body: Seq<char>,
    members: Seq<Member>,
    envelope: EnvelopeView,
)
    requires
        json_items(body) is None,
        record_in(encode_utf8(body), seq!["success"@, "data"@, "error"@]) == Some(members),
        envelope_of(body) == Some(envelope),
    ensures
        envelope.success <==> member(members, "success"@) == Some("true"@),
        member(members, "success"@) matches Some(t) ==> t == "true"@ || t == "false"@,
        match member(members, "data"@) {
            Some(t) => if t == "null"@ {
                envelope.data is None
            } else {
                envelope.data is Some && result_of(t) == envelope.data
            },
            None => envelope.data is None,
        },
        match member(members, "error"@) {
            Some(t) => if t == "null"@ {
                envelope.message is None
            } else {
                error_message_of(t) == Some(envelope.message)
            },
            None => envelope.message is None,
        },
{
    reveal_strlit("true");
    reveal_strlit("false");
    assert("true"@.len() == 4 && "false"@.len() == 5);
}

/// The message of an error is what stands under its name in the error object.
pub proof fn law_an_error_carries_its_message(
    text: Seq<char>,
    members: Seq<Member>,
    message: Option<Seq<char>>,
)
    requires
        json_items(text) is None,
        record_in(encode_utf8(text), seq!["code"@, "message"@]) == Some(members),
        error_message_of(text) == Some(message),
    ensures
        match member(members, "message"@) {
            Some(t) => json_string(t) == message && (message is None ==> t == "null"@),
            None => message is None,
        },
{
}

/// An answer with an envelope is that envelope, with the status that it came
/// with; an answer without one is from somebody else.
pub proof fn law_an_answer_is_its_envelope(reply: PairReply, status: u16, body: Seq<char>)
    requires
        is_reply(reply, status, envelope_of(body)),
    ensures
        match reply {
            PairReply::Envelope { status: s, success, data, message } => {
                &&& s == status
                &&& envelope_of(body) matches Some(e)
                &&& e.success == success
                &&& match data {
                    Some(d) => e.data is Some && e.data->Some_0.station_token == d.station_token@
                        && e.data->Some_0.station_id == d.station_id@ && e.data->Some_0.tenant_id
                        == d.tenant_id@ && e.data->Some_0.branch_id == d.branch_id@
                        && e.data->Some_0.label == d.label@ && e.data->Some_0.roles == texts(
                        d.roles@,
                    ),
                    None => e.data is None,
                }
                &&& match message {
                    Some(m) => e.message == Some(m@),
                    None => e.message is None,
                }
            },
            PairReply::Foreign { status: s } => s == status && envelope_of(body) is None,
            _ => false,
        },
{
}

/// A pairing succeeds exactly where the server says that it did and hands out a
/// station.
pub proof fn law_a_pairing_succeeds_exactly_when_the_server_says_so(base: Seq<char>, reply: PairReply)
    ensures
        pair_failure(base, reply) is None <==> (reply matches PairReply::Envelope {
            success,
            data,
            ..
        } && success && data is Some),
{
}

/// A pairing that fails says why: in the server's own words where it has some,
/// otherwise with what was wrong, and with the address that could not be reached.
pub proof fn law_a_refused_pairing_says_why(base: Seq<char>, reply: PairReply)
    ensures
        match reply {
            PairReply::Envelope { success, data, message, status } => !(success && data is Some) ==> {
                match message {
                    Some(m) => pair_failure(base, reply) == Some(m@),
                    None => exists|head: Seq<char>, end: Seq<char>|
                        pair_failure(base, reply) == Some(
                            #[trigger] (head + decimal(status as nat) + end),
                        ),
                }
            },
            PairReply::Foreign { status } => exists|head: Seq<char>, end: Seq<char>|
                pair_failure(base, reply) == Some(#[trigger] (head + decimal(status as nat) + end)),
            PairReply::Unreachable(e) => exists|head: Seq<char>, mid: Seq<char>, end: Seq<char>|
                pair_failure(base, reply) == Some(#[trigger] (head + base + mid + e@ + end)),
            PairReply::NotPrepared(e) => exists|head: Seq<char>|
                pair_failure(base, reply) == Some(#[trigger] (head + e@)),
            PairReply::Unreadable(e) => exists|head: Seq<char>|
                pair_failure(base, reply) == Some(#[trigger] (head + e@)),
        },
{
    match reply {
        PairReply::Envelope { success, data, message, status } => {
            let head = "La vinculación falló (HTTP "@;
            let end = ")."@;
            assert(head + decimal(status as nat) + end == head + decimal(status as nat) + end);
        },
        PairReply::Foreign { status } => {
            let head = "El servidor respondió algo que no es de GourmelyHub (HTTP "@;
            let end = "). Comprueba la dirección del servidor."@;
            assert(head + decimal(status as nat) + end == head + decimal(status as nat) + end);
        },
        PairReply::Unreachable(e) => {
            let head = "No se pudo contactar a "@;
            let mid = ". Revisa la conexión a internet. ("@;
            let end = ")"@;
            assert(pair_failure(base, reply) == Some(head + base + mid + e@ + end));
        },
        PairReply::NotPrepared(e) => {
            let head = "no se pudo preparar la conexión: "@;
            assert(pair_failure(base, reply) == Some(head + e@));
        },
        PairReply::Unreadable(e) => {
            let head = "respuesta ilegible del servidor: "@;
            assert(pair_failure(base, reply) == Some(head + e@));
        },
    }
}

/// What is remembered of a pairing is what the server handed out, each thing in
/// its place, and the address it came from; what the pairing does not concern
/// stays.
pub proof fn law_a_pairing_is_remembered_as_it_was_handed_out(
    before: SettingsView,
    base: Seq<char>,
    result: PairResult,
)
    ensures
        ({
            let after = paired_settings(before, base, result@);
            &&& after.server_url == Some(base)
            &&& after.station_token == Some(result.station_token@)
            &&& after.station_id == Some(result.station_id@)
            &&& after.tenant_id == Some(result.tenant_id@)
            &&& after.branch_id == Some(result.branch_id@)
            &&& after.label == Some(result.label@)
            &&& after.roles.len() == result.roles@.len()
            &&& forall|i: int|
                0 <= i < result.roles@.len() ==> (#[trigger] after.roles[i]) == result.roles@[i]@
            &&& after.default_printer == before.default_printer
            &&& after.local_auth == before.local_auth
            &&& after.local_secret == before.local_secret
        }),
{
}

/// Forgetting a pairing leaves nothing of the station, and everything else as it
/// was.
pub proof fn law_forgetting_leaves_nothing_of_the_station(before: SettingsView)
    ensures
        ({
            let after = forgotten_settings(before);
            &&& after.station_token is None && after.station_id is None && after.tenant_id is None
            &&& after.branch_id is None && after.label is None && after.roles.len() == 0
            &&& after.server_url == before.server_url
            &&& after.default_printer == before.default_printer
            &&& after.local_auth == before.local_auth
            &&& after.local_secret == before.local_secret
        }),
{
}

/// A plan asks the server that was given, without the slashes at its end, for the
/// code that was given; and there is none only for a code that is too short, or
/// where no server is given.
pub proof fn law_a_plan_asks_what_was_given(
    server_url: Seq<char>,
    code: Seq<char>,
    r: BridgeResult<PairPlan>,
)
    requires
        planned(server_url, code, r),
    ensures
        r is Ok <==> code.len() >= 4 && trim_end_char(trim(server_url), '/').len() > 0,
        match r {
            Ok(plan) => {
                &&& plan.code@ == code
                &&& plan.base@ == trim_end_char(trim(server_url), '/')
                &&& plan.base@.last() != '/'
                &&& plan.url@ == plan.base@ + "/v1/print-relay/pair"@
            },
            Err(e) => e is Pairing,
        },
{
    text::lemma_trim_end_char_last(trim(server_url), '/');
}

/// The address that was typed wins over the one in the settings, and only where
/// there is nothing to it does the other count.
pub proof fn law_a_typed_address_wins(typed: Option<Seq<char>>, settings: SettingsView)
    ensures
        typed matches Some(t) ==> trim_end_char(trim(t), '/').len() > 0 ==> pairing_url_of(
            typed,
            settings,
        ) == trim_end_char(trim(t), '/'),
        (typed matches Some(t) ==> trim_end_char(trim(t), '/').len() == 0) ==> pairing_url_of(
            typed,
            settings,
        ) == server_url_of(settings.server_url),
{
}

/// What a reader finds in the request: the code, and of the machine its system, its
/// name, the version of the bridge and each of its printers.
pub proof fn law_a_request_says_who_asks(
    code: Seq<char>,
    os: Seq<char>,
    hostname: Seq<char>,
    version: Seq<char>,
    printers: Seq<Seq<char>>,
)
    ensures
        exists|members: Seq<(Seq<char>, Tree)>, info: Seq<(Seq<char>, Tree)>|
            {
                &&& members.len() == 2
                &&& info.len() == 4
                &&& found_under(members, "code"@) == Some(Tree::Text(code))
                &&& found_under(members, "machineInfo"@) == Some(Tree::Record(info))
                &&& found_under(info, "os"@) == Some(Tree::Text(os))
                &&& found_under(info, "hostname"@) == Some(Tree::Text(hostname))
                &&& found_under(info, "bridgeVersion"@) == Some(Tree::Text(version))
                &&& found_under(info, "printers"@) == Some(texts_tree(printers))
                &&& pair_request_text(code, os, hostname, version, printers)
                    == #[trigger] tree_text(Tree::Record(members))
                &&& #[trigger] tree_text(Tree::Record(info)) == tree_text(Tree::Record(info))
            },
{
    reveal_strlit("code");
    reveal_strlit("machineInfo");
    reveal_strlit("os");
    reveal_strlit("hostname");
    reveal_strlit("bridgeVersion");
    reveal_strlit("printers");
    assert("code"@.len() == 4 && "machineInfo"@.len() == 11);
    assert("os"@.len() == 2 && "bridgeVersion"@.len() == 13);
    assert("hostname"@.len() == 8 && "hostname"@[0] == 'h');
    assert("printers"@.len() == 8 && "printers"@[0] == 'p');
    let info = seq![
        ("os"@, Tree::Text(os)),
        ("hostname"@, Tree::Text(hostname)),
        ("bridgeVersion"@, Tree::Text(version)),
        ("printers"@, texts_tree(printers)),
    ];
    let members = seq![("code"@, Tree::Text(code)), ("machineInfo"@, Tree::Record(info))];
    lemma_texts_tree(printers);
    lemma_found_at(info, 0);
    lemma_found_at(info, 1);
    lemma_found_at(info, 2);
    lemma_found_at(info, 3);
    lemma_found_at(members, 0);
    lemma_found_at(members, 1);
    assert(tree_members(info) =~= seq![
        ("os"@, json_quoted(os)),
        ("hostname"@, json_quoted(hostname)),
        ("bridgeVersion"@, json_quoted(version)),
        ("printers"@, strings_json(printers)),
    ]);
    assert(tree_text(Tree::Record(info)) == object_text(tree_members(info)));
    assert(tree_members(members) =~= seq![
        ("code"@, json_quoted(code)),
        ("machineInfo"@, tree_text(Tree::Record(info))),
    ]);
    assert(pair_request_text(code, os, hostname, version, printers) == tree_text(
        Tree::Record(members),
    ));
}

/// A code that is made of nothing but its characters is kept, all of it and in its
/// order, with a dash in the middle of eight of them.
pub proof fn law_a_code_keeps_its_characters(s: Seq<char>)
    requires
        forall|i: int| 0 <= i < s.len() ==> ('0' <= #[trigger] s[i] <= '9' || 'A' <= s[i] <= 'Z'),
    ensures
        s.len() != 8 ==> code_of(s) == s,
        s.len() == 8 ==> code_of(s).len() == 9 && code_of(s)[4] == '-' && forall|i: int|
            0 <= i < 8 ==> #[trigger] s[i] == code_of(s)[if i < 4 {
                i
            } else {
                i + 1
            }],
{
    assert forall|i: int| 0 <= i < s.len() implies code_char(#[trigger] s[i]) by {}
    lemma_code_chars_id(s);
}

/// A letter of ASCII in lower case has the same place in the alphabet as the letter
/// it is put in upper case as; everything else stays what it is.
pub proof fn law_upper_case_is_the_same_letter(c: char)
    ensures
        'a' <= c <= 'z' ==> 'A' <= ascii_upper(c) <= 'Z' && ascii_upper(c) as u32 - 'A' as u32 == c as
            u32 - 'a' as u32,
        !('a' <= c <= 'z') ==> ascii_upper(c) == c,
{
}

/// A result is taken wherever it says what it has to, in the right shape.
pub proof fn law_a_result_in_shape_is_taken(text: Seq<char>)
    ensures
        json_items(text) is None ==> (record_in(
            encode_utf8(text),
            seq!["stationToken"@, "stationId"@, "tenantId"@, "branchId"@, "label"@, "roles"@],
        ) matches Some(m) ==> (member(m, "stationToken"@) matches Some(t) && json_string(t) is Some)
            && (member(m, "stationId"@) matches Some(t) && json_string(t) is Some) && (member(
            m,
            "tenantId"@,
        ) matches Some(t) && json_string(t) is Some) && (member(m, "branchId"@) matches Some(t)
            && json_string(t) is Some) && (member(m, "label"@) matches Some(t) && json_string(
            t,
        ) is Some) && (member(m, "roles"@) matches Some(t) ==> json_items(t) matches Some(items)
            && forall|i: int|
            0 <= i < items.len() ==> json_string(#[trigger] items[i]) is Some) ==> result_of(
            text,
        ) is Some),
        json_items(text) matches Some(items) ==> items.len() == 5 && (forall|i: int|
            0 <= i < 5 ==> json_string(#[trigger] items[i]) is Some) ==> result_of(text) is Some,
{
    if let Some(m) = record_in(encode_utf8(text), result_names()) {
        if let Some(t) = member(m, "roles"@) {
            if let Some(items) = json_items(t) {
                law_a_list_is_read_whole(items);
            }
        }
    }
}

/// An envelope is taken wherever each thing that it says has its shape, and it need
/// not say any of them.
pub proof fn law_an_envelope_in_shape_is_taken(body: Seq<char>, members: Seq<Member>)
    requires
        json_items(body) is None,
        record_in(encode_utf8(body), seq!["success"@, "data"@, "error"@]) == Some(members),
        member(members, "success"@) matches Some(t) ==> t == "true"@ || t == "false"@,
        member(members, "data"@) matches Some(t) ==> t == "null"@ || result_of(t) is Some,
        member(members, "error"@) matches Some(t) ==> t == "null"@ || error_message_of(t) is Some,
    ensures
        envelope_of(body) is Some,
{
}

/// An error is taken wherever its code and its message are strings or nothing.
pub proof fn law_an_error_in_shape_is_taken(text: Seq<char>, members: Seq<Member>)
    requires
        json_items(text) is None,
        record_in(encode_utf8(text), seq!["code"@, "message"@]) == Some(members),
        member(members, "code"@) matches Some(t) ==> t == "null"@ || json_string(t) is Some,
        member(members, "message"@) matches Some(t) ==> t == "null"@ || json_string(t) is Some,
    ensures
        error_message_of(text) is Some,
{
}

} // verus!
