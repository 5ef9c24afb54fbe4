//! Build-time constants and the settings the bridge remembers between restarts.
//!
//! The settings live in `config.json`, next to the certificates. Opening that
//! file is the caller's: this module holds what it says, what the settings mean,
//! and the rule that what the process believes and what survives a restart
//! cannot drift apart.

use vstd::prelude::*;
use vstd::slice::slice_to_vec;
use vstd::string::*;
use vstd::utf8::encode_utf8;

use crate::codec::{base64_url, encode_base64_url, url_safe};
use crate::error::{joined, BridgeError, BridgeResult};
use crate::json::{
    element, json_items, json_string, law_a_list_is_read_whole, lemma_all_strings, list_opt, nth, nullable_field,
    nullable_text, plain_members, plain_opt,
    plain_text, pretty_object, pretty_strings, pretty_text, read_items, read_nullable_field,
    read_strings_field, record_member, record_text, strings_field, Plain, PlainValue,
};
use crate::record::{
    distinct, found_text, lemma_written_member_text, may_have_null, member, names_of, read_record,
    read_variant, record_in, text_under, variant_of, written_members, Member,
};
use crate::text;
use crate::text::{blank, text_opt, texts, trim, trim_end_char, utf8_text};

verus! {

/// The HTTPS port the bridge listens on.
pub const BIND_PORT: u16 = 8181;

/// The DNS name the certificate is issued for.
pub const BRIDGE_HOST: &'static str = "localhost.gourmelyhub.busticco.com";

/// Browser origins that may open a WebSocket to the bridge.
pub const ALLOWED_ORIGINS: [&'static str; 7] = [
    "https://app-gourmelyhub.busticco.com",
    "https://gourmelyhub.busticco.com",
    // The bridge's own settings window fetches /health for the status badge.
    "http://tauri.localhost",
    "https://tauri.localhost",
    "tauri://localhost",
    // Development origins.
    "http://localhost:3000",
    "http://localhost:1420",
];

/// Maximum size of a single print payload in bytes, after base64 decoding.
pub const MAX_PRINT_BYTES: usize = 1_048_576;

/// Where the relay points when nobody has said otherwise.
pub const DEFAULT_SERVER_URL: &'static str = "https://api-gourmelyhub.busticco.com";

/// How the local socket decides whether a caller may print.
///
/// * [`LocalAuth::OriginOrSecret`]: the default and the safe value for a new
///   install. A caller passes if it presents the shared secret **or** if it
///   arrives with an allowlisted `Origin`.
/// * [`LocalAuth::Secret`]: the secret is mandatory for everyone.
/// * [`LocalAuth::Off`]: escape hatch for support. Never the default.
#[derive(Debug, Clone, Copy, PartialEq, Eq, Structural)]
pub enum LocalAuth {
    Off,
    OriginOrSecret,
    Secret,
}

impl Default for LocalAuth {
    fn default() -> (r: LocalAuth)
        ensures
            r == LocalAuth::OriginOrSecret,
    {
        LocalAuth::OriginOrSecret
    }
}

/// Everything the bridge remembers between restarts.
///
/// `station_token` is the credential the relay authenticates with, so the file
/// these are kept in is as sensitive as a password.
#[derive(Debug)]
pub struct Settings {
    /// Base URL of the API this till reports to.
    pub server_url: Option<String>,
    /// Opaque station credential handed out when the till is paired.
    pub station_token: Option<String>,
    pub station_id: Option<String>,
    pub tenant_id: Option<String>,
    pub branch_id: Option<String>,
    /// Human name of the station.
    pub label: Option<String>,
    pub roles: Vec<String>,
    /// Printer to use when a job arrives without an explicit printer name.
    pub default_printer: Option<String>,
    pub local_auth: LocalAuth,
    /// Shared secret for the local socket. Generated on first run.
    pub local_secret: Option<String>,
}

/// What the settings say.
#[verifier::ext_equal]
pub struct SettingsView {
    pub server_url: Option<Seq<char>>,
    pub station_token: Option<Seq<char>>,
    pub station_id: Option<Seq<char>>,
    pub tenant_id: Option<Seq<char>>,
    pub branch_id: Option<Seq<char>>,
    pub label: Option<Seq<char>>,
    pub roles: Seq<Seq<char>>,
    pub default_printer: Option<Seq<char>>,
    pub local_auth: LocalAuth,
    pub local_secret: Option<Seq<char>>,
}

impl View for Settings {
    type V = SettingsView;

    open spec fn view(&self) -> SettingsView {
        SettingsView {
            server_url: text_opt(self.server_url),
            station_token: text_opt(self.station_token),
            station_id: text_opt(self.station_id),
            tenant_id: text_opt(self.tenant_id),
            branch_id: text_opt(self.branch_id),
            label: text_opt(self.label),
            roles: texts(self.roles@),
            default_printer: text_opt(self.default_printer),
            local_auth: self.local_auth,
            local_secret: text_opt(self.local_secret),
        }
    }
}

/// The settings of a new install.
pub open spec fn default_settings() -> SettingsView {
    SettingsView {
        server_url: None,
        station_token: None,
        station_id: None,
        tenant_id: None,
        branch_id: None,
        label: None,
        roles: Seq::empty(),
        default_printer: None,
        local_auth: LocalAuth::OriginOrSecret,
        local_secret: None,
    }
}

/// Where settings that name the server `server_url` connect: that address
/// without the white space around it and without trailing slashes, or the
/// default when it is blank or absent.
pub open spec fn server_url_of(server_url: Option<Seq<char>>) -> Seq<char> {
    let raw = match server_url {
        Some(s) => if blank(s) {
            DEFAULT_SERVER_URL@
        } else {
            s
        },
        None => DEFAULT_SERVER_URL@,
    };
    trim_end_char(trim(raw), '/')
}

impl Default for Settings {
    fn default() -> (r: Settings)
        ensures
            r@ == default_settings(),
    {
        let r = Settings {
            server_url: None,
            station_token: None,
            station_id: None,
            tenant_id: None,
            branch_id: None,
            label: None,
            roles: Vec::new(),
            default_printer: None,
            local_auth: LocalAuth::default(),
            local_secret: None,
        };
        assert(texts(r.roles@) =~= Seq::<Seq<char>>::empty());
        r
    }
}

impl Clone for Settings {
    fn clone(&self) -> (r: Settings)
        ensures
            r@ == self@,
    {
        Settings {
            server_url: text::copy_opt(&self.server_url),
            station_token: text::copy_opt(&self.station_token),
            station_id: text::copy_opt(&self.station_id),
            tenant_id: text::copy_opt(&self.tenant_id),
            branch_id: text::copy_opt(&self.branch_id),
            label: text::copy_opt(&self.label),
            roles: text::copy_list(&self.roles),
            default_printer: text::copy_opt(&self.default_printer),
            local_auth: self.local_auth,
            local_secret: text::copy_opt(&self.local_secret),
        }
    }
}

impl Settings {
    pub fn is_paired(&self) -> (r: bool)
        ensures
            r == (self@.station_token is Some),
    {
        self.station_token.is_some()
    }

    /// Where the relay connects. Trailing slashes are trimmed so callers can
    /// concatenate paths without doubling the separator.
    pub fn server_url(&self) -> (r: String)
        ensures
            r@ == server_url_of(self@.server_url),
    {
        let raw: &str = match &self.server_url {
            Some(s) => {
                if text::is_blank(s.as_str()) {
                    DEFAULT_SERVER_URL
                } else {
                    s.as_str()
                }
            },
            None => DEFAULT_SERVER_URL,
        };
        text::trimmed_end_char(text::trimmed(raw), '/').to_string()
    }
}

/// The printer an operator picked: none when the name is blank.
pub open spec fn chosen_printer_of(name: Option<Seq<char>>) -> Option<Seq<char>> {
    match name {
        Some(n) => if blank(n) {
            None
        } else {
            Some(n)
        },
        None => None,
    }
}

/// The default printer to remember when the operator picks `name`.
pub fn chosen_printer(name: Option<String>) -> (r: Option<String>)
    ensures
        text_opt(r) == chosen_printer_of(text_opt(name)),
{
    match name {
        Some(n) => {
            if text::is_blank(n.as_str()) {
                None
            } else {
                Some(n)
            }
        },
        None => None,
    }
}

// ── The file ────────────────────────────────────────────────────────────

/// The name of a mode in the file.
pub open spec fn local_auth_name(mode: LocalAuth) -> Seq<char> {
    match mode {
        LocalAuth::Off => "off"@,
        LocalAuth::OriginOrSecret => "origin-or-secret"@,
        LocalAuth::Secret => "secret"@,
    }
}

/// The mode that a name stands for.
pub open spec fn local_auth_of(name: Seq<char>) -> Option<LocalAuth> {
    if name == "off"@ {
        Some(LocalAuth::Off)
    } else if name == "origin-or-secret"@ {
        Some(LocalAuth::OriginOrSecret)
    } else if name == "secret"@ {
        Some(LocalAuth::Secret)
    } else {
        None
    }
}

/// The mode that a field holds: the default when the field is absent, `None`
/// when it is there and no mode.
pub open spec fn local_auth_field(field: Option<Seq<char>>) -> Option<LocalAuth> {
    match field {
        Some(t) => match variant_of(t) {
            Some(name) => local_auth_of(name),
            None => None,
        },
        None => Some(LocalAuth::OriginOrSecret),
    }
}

/// The members of the file, in order.
pub open spec fn settings_members(s: SettingsView) -> Seq<(Seq<char>, Plain)> {
    seq![
        ("serverUrl"@, plain_opt(s.server_url)),
        ("stationToken"@, plain_opt(s.station_token)),
        ("stationId"@, plain_opt(s.station_id)),
        ("tenantId"@, plain_opt(s.tenant_id)),
        ("branchId"@, plain_opt(s.branch_id)),
        ("label"@, plain_opt(s.label)),
        ("roles"@, Plain::Texts(s.roles)),
        ("defaultPrinter"@, plain_opt(s.default_printer)),
        ("localAuth"@, Plain::Text(local_auth_name(s.local_auth))),
        ("localSecret"@, plain_opt(s.local_secret)),
    ]
}

/// The text of the file.
pub open spec fn settings_text(s: SettingsView) -> Seq<char> {
    pretty_text(settings_members(s))
}

/// The settings that ten fields make up. Each of them may be absent, but not of
/// another type than its own.
pub open spec fn settings_from_fields(
    server_url: Option<Option<Seq<char>>>,
    station_token: Option<Option<Seq<char>>>,
    station_id: Option<Option<Seq<char>>>,
    tenant_id: Option<Option<Seq<char>>>,
    branch_id: Option<Option<Seq<char>>>,
    label: Option<Option<Seq<char>>>,
    roles: Option<Seq<Seq<char>>>,
    default_printer: Option<Option<Seq<char>>>,
    local_auth: Option<LocalAuth>,
    local_secret: Option<Option<Seq<char>>>,
) -> Option<SettingsView> {
    match (
        server_url,
        station_token,
        station_id,
        tenant_id,
        branch_id,
        label,
        roles,
        default_printer,
        local_auth,
        local_secret,
    ) {
        (
            Some(server_url),
            Some(station_token),
            Some(station_id),
            Some(tenant_id),
            Some(branch_id),
            Some(label),
            Some(roles),
            Some(default_printer),
            Some(local_auth),
            Some(local_secret),
        ) => Some(
            SettingsView {
                server_url,
                station_token,
                station_id,
                tenant_id,
                branch_id,
                label,
                roles,
                default_printer,
                local_auth,
                local_secret,
            },
        ),
        _ => None,
    }
}

/// The names of the members of the file.
pub open spec fn setting_names() -> Seq<Seq<char>> {
    seq![
        "serverUrl"@,
        "stationToken"@,
        "stationId"@,
        "tenantId"@,
        "branchId"@,
        "label"@,
        "roles"@,
        "defaultPrinter"@,
        "localAuth"@,
        "localSecret"@,
    ]
}

/// The settings that the content of a file describes: an object, of which
/// members with other names are passed over, or the values in an array, in order.
pub open spec fn settings_of(file: Seq<u8>) -> Option<SettingsView> {
    match items_in(file) {
        Some(items) => if items.len() <= 10 {
            settings_from_fields(
                nullable_field(element(items, 0)),
                nullable_field(element(items, 1)),
                nullable_field(element(items, 2)),
                nullable_field(element(items, 3)),
                nullable_field(element(items, 4)),
                nullable_field(element(items, 5)),
                strings_field(element(items, 6)),
                nullable_field(element(items, 7)),
                local_auth_field(element(items, 8)),
                nullable_field(element(items, 9)),
            )
        } else {
            None
        },
        None => match record_in(file, setting_names()) {
            Some(m) => settings_from_fields(
                nullable_field(member(m, "serverUrl"@)),
                nullable_field(member(m, "stationToken"@)),
                nullable_field(member(m, "stationId"@)),
                nullable_field(member(m, "tenantId"@)),
                nullable_field(member(m, "branchId"@)),
                nullable_field(member(m, "label"@)),
                strings_field(member(m, "roles"@)),
                nullable_field(member(m, "defaultPrinter"@)),
                local_auth_field(member(m, "localAuth"@)),
                nullable_field(member(m, "localSecret"@)),
            ),
            None => None,
        },
    }
}

/// The texts of the elements of the JSON array that the content of a file
/// encodes.
pub open spec fn items_in(file: Seq<u8>) -> Option<Seq<Seq<char>>> {
    match utf8_text(file) {
        Some(text) => json_items(text),
        None => None,
    }
}

proof fn lemma_local_auth_names()
    ensures
        forall|mode: LocalAuth| local_auth_of(#[trigger] local_auth_name(mode)) == Some(mode),
{
    reveal_strlit("off");
    reveal_strlit("origin-or-secret");
    reveal_strlit("secret");
    assert("off"@.len() == 3);
    assert("origin-or-secret"@.len() == 16);
    assert("secret"@.len() == 6);
}

proof fn lemma_settings_members(s: SettingsView)
    ensures
        ({
            let m = settings_members(s);
            &&& distinct(m)
            &&& record_member(m, "serverUrl"@) == Some(plain_opt(s.server_url))
            &&& record_member(m, "stationToken"@) == Some(plain_opt(s.station_token))
            &&& record_member(m, "stationId"@) == Some(plain_opt(s.station_id))
            &&& record_member(m, "tenantId"@) == Some(plain_opt(s.tenant_id))
            &&& record_member(m, "branchId"@) == Some(plain_opt(s.branch_id))
            &&& record_member(m, "label"@) == Some(plain_opt(s.label))
            &&& record_member(m, "roles"@) == Some(Plain::Texts(s.roles))
            &&& record_member(m, "defaultPrinter"@) == Some(plain_opt(s.default_printer))
            &&& record_member(m, "localAuth"@) == Some(
                Plain::Text(local_auth_name(s.local_auth)),
            )
            &&& record_member(m, "localSecret"@) == Some(plain_opt(s.local_secret))
        }),
{
    let m = settings_members(s);
    lemma_setting_names();
    lemma_record_member_at(m, 0);
    lemma_record_member_at(m, 1);
    lemma_record_member_at(m, 2);
    lemma_record_member_at(m, 3);
    lemma_record_member_at(m, 4);
    lemma_record_member_at(m, 5);
    lemma_record_member_at(m, 6);
    lemma_record_member_at(m, 7);
    lemma_record_member_at(m, 8);
    lemma_record_member_at(m, 9);
}

proof fn lemma_read_settings(s: SettingsView, m: Seq<Member>)
    requires
        m == written_members(settings_members(s), true),
    ensures
        member(m, "serverUrl"@) == Some(plain_text(plain_opt(s.server_url))),
        member(m, "stationToken"@) == Some(plain_text(plain_opt(s.station_token))),
        member(m, "stationId"@) == Some(plain_text(plain_opt(s.station_id))),
        member(m, "tenantId"@) == Some(plain_text(plain_opt(s.tenant_id))),
        member(m, "branchId"@) == Some(plain_text(plain_opt(s.branch_id))),
        member(m, "label"@) == Some(plain_text(plain_opt(s.label))),
        member(m, "roles"@) == Some(pretty_strings(s.roles)),
        member(m, "defaultPrinter"@) == Some(plain_text(plain_opt(s.default_printer))),
        member(m, "localAuth"@) == Some(plain_text(Plain::Text(local_auth_name(s.local_auth)))),
        member(m, "localSecret"@) == Some(plain_text(plain_opt(s.local_secret))),
{
    let w = settings_members(s);
    lemma_settings_members(s);
    lemma_written_member_text(w, true, "serverUrl"@);
    lemma_written_member_text(w, true, "stationToken"@);
    lemma_written_member_text(w, true, "stationId"@);
    lemma_written_member_text(w, true, "tenantId"@);
    lemma_written_member_text(w, true, "branchId"@);
    lemma_written_member_text(w, true, "label"@);
    lemma_written_member_text(w, true, "roles"@);
    lemma_written_member_text(w, true, "defaultPrinter"@);
    lemma_written_member_text(w, true, "localAuth"@);
    lemma_written_member_text(w, true, "localSecret"@);
}

/// The names of the members are told apart by their length and two of their
/// characters.
proof fn lemma_setting_names()
    ensures
        "serverUrl"@.len() == 9 && "serverUrl"@[0] == 's' && "serverUrl"@[1] == 'e',
        "stationToken"@.len() == 12,
        "stationId"@.len() == 9 && "stationId"@[0] == 's' && "stationId"@[1] == 't',
        "tenantId"@.len() == 8 && "tenantId"@[0] == 't',
        "branchId"@.len() == 8 && "branchId"@[0] == 'b',
        "label"@.len() == 5 && "label"@[0] == 'l',
        "roles"@.len() == 5 && "roles"@[0] == 'r',
        "defaultPrinter"@.len() == 14,
        "localAuth"@.len() == 9 && "localAuth"@[0] == 'l',
        "localSecret"@.len() == 11,
{
    reveal_strlit("serverUrl");
    reveal_strlit("stationToken");
    reveal_strlit("stationId");
    reveal_strlit("tenantId");
    reveal_strlit("branchId");
    reveal_strlit("label");
    reveal_strlit("roles");
    reveal_strlit("defaultPrinter");
    reveal_strlit("localAuth");
    reveal_strlit("localSecret");
}

proof fn lemma_record_member_at(members: Seq<(Seq<char>, Plain)>, i: int)
    requires
        0 <= i < members.len(),
        forall|j: int| i < j < members.len() ==> (#[trigger] members[j]).0 != members[i].0,
    ensures
        record_member(members, members[i].0) == Some(members[i].1),
    decreases members.len(),
{
    if i < members.len() - 1 {
        assert(members[members.len() - 1].0 != members[i].0);
        let rest = members.drop_last();
        assert forall|j: int| i < j < rest.len() implies (#[trigger] rest[j]).0 != rest[i].0 by {
            assert(members[j].0 != members[i].0);
        }
        lemma_record_member_at(rest, i);
    }
}

/// The view of settings that may be absent.
pub open spec fn settings_opt(s: Option<Settings>) -> Option<SettingsView> {
    match s {
        Some(s) => Some(s@),
        None => None,
    }
}

impl LocalAuth {
    /// The name of the mode in the file.
    pub fn name(self) -> (r: &'static str)
        ensures
            r@ == local_auth_name(self),
    {
        match self {
            LocalAuth::Off => "off",
            LocalAuth::OriginOrSecret => "origin-or-secret",
            LocalAuth::Secret => "secret",
        }
    }

    /// The mode that a name in the file stands for.
    pub fn named(name: &str) -> (r: Option<LocalAuth>)
        ensures
            r == local_auth_of(name@),
    {
        if text::same(name, "off") {
            Some(LocalAuth::Off)
        } else if text::same(name, "origin-or-secret") {
            Some(LocalAuth::OriginOrSecret)
        } else if text::same(name, "secret") {
            Some(LocalAuth::Secret)
        } else {
            None
        }
    }
}

fn read_local_auth(field: Option<String>) -> (r: Option<LocalAuth>)
    ensures
        r == local_auth_field(text_opt(field)),
        forall|mode: LocalAuth|
            text_opt(field) == Some(plain_text(Plain::Text(#[trigger] local_auth_name(mode))))
                ==> r == Some(mode),
{
    proof {
        lemma_local_auth_names();
    }
    match field {
        Some(t) => match read_variant(t.as_str()) {
            Some(name) => LocalAuth::named(name.as_str()),
            None => None,
        },
        None => Some(LocalAuth::default()),
    }
}

impl Settings {
    /// The settings that ten fields make up.
    pub fn from_fields(
        server_url: Option<Option<String>>,
        station_token: Option<Option<String>>,
        station_id: Option<Option<String>>,
        tenant_id: Option<Option<String>>,
        branch_id: Option<Option<String>>,
        label: Option<Option<String>>,
        roles: Option<Vec<String>>,
        default_printer: Option<Option<String>>,
        local_auth: Option<LocalAuth>,
        local_secret: Option<Option<String>>,
    ) -> (r: Option<Settings>)
        ensures
            settings_opt(r) == settings_from_fields(
                nullable_text(server_url),
                nullable_text(station_token),
                nullable_text(station_id),
                nullable_text(tenant_id),
                nullable_text(branch_id),
                nullable_text(label),
                list_opt(roles),
                nullable_text(default_printer),
                local_auth,
                nullable_text(local_secret),
            ),
    {
        match (
            server_url,
            station_token,
            station_id,
            tenant_id,
            branch_id,
            label,
            roles,
            default_printer,
            local_auth,
            local_secret,
        ) {
            (
                Some(server_url),
                Some(station_token),
                Some(station_id),
                Some(tenant_id),
                Some(branch_id),
                Some(label),
                Some(roles),
                Some(default_printer),
                Some(local_auth),
                Some(local_secret),
            ) => Some(
                Settings {
                    server_url,
                    station_token,
                    station_id,
                    tenant_id,
                    branch_id,
                    label,
                    roles,
                    default_printer,
                    local_auth,
                    local_secret,
                },
            ),
            _ => None,
        }
    }

    /// The settings that the text of a file describes. A member with another
    /// name, as a newer bridge may write, is passed over. The text that settings
    /// were written as describes those settings.
    pub fn parse(file: &str) -> (r: Option<Settings>)
        ensures
            settings_opt(r) == settings_of(encode_utf8(file@)),
            forall|s: SettingsView| #[trigger]
                settings_text(s) == file@ ==> settings_opt(r) == Some(s),
    {
        Settings::parse_file(file.as_bytes())
    }

    /// The settings that the content of a file describes. What is passed over
    /// need not even be text.
    pub fn parse_file(file: &[u8]) -> (r: Option<Settings>)
        ensures
            settings_opt(r) == settings_of(file@),
            forall|s: SettingsView|
                encode_utf8(#[trigger] settings_text(s)) == file@ ==> settings_opt(r) == Some(s),
            forall|members: Seq<(Seq<char>, Plain)>|
                file@ == encode_utf8(#[trigger] record_text(members)) && members.len() > 0 && distinct(
                    members,
                ) && may_have_null(members, "serverUrl"@) && may_have_null(members, "stationToken"@)
                    && may_have_null(members, "stationId"@) && may_have_null(members, "tenantId"@)
                    && may_have_null(members, "branchId"@) && may_have_null(members, "label"@)
                    && may_have_null(members, "defaultPrinter"@) && may_have_null(
                    members,
                    "localSecret"@,
                ) && (record_member(members, "roles"@) matches Some(roles) ==> roles is Texts) && (
                record_member(members, "localAuth"@) is None || text_under(members, "localAuth"@)
                    == Some("off"@) || text_under(members, "localAuth"@) == Some(
                    "origin-or-secret"@,
                ) || text_under(members, "localAuth"@) == Some("secret"@)) ==> {
                    &&& r matches Some(s)
                    &&& text_opt(s.server_url) == text_under(members, "serverUrl"@)
                    &&& text_opt(s.station_token) == text_under(members, "stationToken"@)
                    &&& text_opt(s.station_id) == text_under(members, "stationId"@)
                    &&& text_opt(s.tenant_id) == text_under(members, "tenantId"@)
                    &&& text_opt(s.branch_id) == text_under(members, "branchId"@)
                    &&& text_opt(s.label) == text_under(members, "label"@)
                    &&& text_opt(s.default_printer) == text_under(members, "defaultPrinter"@)
                    &&& text_opt(s.local_secret) == text_under(members, "localSecret"@)
                    &&& match record_member(members, "roles"@) {
                        Some(Plain::Texts(roles)) => texts(s.roles@) == roles,
                        _ => texts(s.roles@).len() == 0,
                    }
                    &&& text_under(members, "localAuth"@) == Some(
                        match s.local_auth {
                            LocalAuth::Off => "off"@,
                            LocalAuth::OriginOrSecret => "origin-or-secret"@,
                            LocalAuth::Secret => "secret"@,
                        },
                    ) || (text_under(members, "localAuth"@) is None && s.local_auth
                        is OriginOrSecret)
                },
    {
        let whole = Settings::items(file);
        let ghost reading = list_opt(whole);
        let r = match whole {
            Some(items) => {
                if items.len() <= 10 {
                    Settings::from_fields(
                        read_nullable_field(nth(&items, 0)),
                        read_nullable_field(nth(&items, 1)),
                        read_nullable_field(nth(&items, 2)),
                        read_nullable_field(nth(&items, 3)),
                        read_nullable_field(nth(&items, 4)),
                        read_nullable_field(nth(&items, 5)),
                        read_strings_field(nth(&items, 6)),
                        read_nullable_field(nth(&items, 7)),
                        read_local_auth(nth(&items, 8)),
                        read_nullable_field(nth(&items, 9)),
                    )
                } else {
                    None
                }
            },
            None => Settings::parse_object(file),
        };
        proof {
            assert forall|s: SettingsView|
                encode_utf8(#[trigger] settings_text(s)) == file@ implies settings_opt(r) == Some(
                s,
            ) by {
                assert(reading is None);
            }
        }
        r
    }

    fn items(file: &[u8]) -> (r: Option<Vec<String>>)
        ensures
            list_opt(r) == items_in(file@),
            forall|s: SettingsView|
                encode_utf8(#[trigger] settings_text(s)) == file@ ==> r is None,
            forall|members: Seq<(Seq<char>, Plain)>|
                encode_utf8(#[trigger] record_text(members)) == file@ ==> r is None,
    {
        match text::decoded(&slice_to_vec(file)) {
            Some(content) => {
                let r = read_items(content.as_str());
                proof {
                    assert forall|s: SettingsView|
                        encode_utf8(#[trigger] settings_text(s)) == file@ implies r is None by {
                        text::lemma_utf8_text(settings_text(s));
                        assert(pretty_text(settings_members(s)) == content@);
                    }
                    assert forall|members: Seq<(Seq<char>, Plain)>|
                        encode_utf8(#[trigger] record_text(members)) == file@ implies r is None by {
                        text::lemma_utf8_text(record_text(members));
                        assert(record_text(members) == content@);
                    }
                }
                r
            },
            None => None,
        }
    }

    fn parse_object(file: &[u8]) -> (r: Option<Settings>)
        requires
            items_in(file@) is None,
        ensures
            settings_opt(r) == settings_of(file@),
            forall|s: SettingsView|
                encode_utf8(#[trigger] settings_text(s)) == file@ ==> settings_opt(r) == Some(s),
            forall|members: Seq<(Seq<char>, Plain)>|
                file@ == encode_utf8(#[trigger] record_text(members)) && members.len() > 0 && distinct(
                    members,
                ) && may_have_null(members, "serverUrl"@) && may_have_null(members, "stationToken"@)
                    && may_have_null(members, "stationId"@) && may_have_null(members, "tenantId"@)
                    && may_have_null(members, "branchId"@) && may_have_null(members, "label"@)
                    && may_have_null(members, "defaultPrinter"@) && may_have_null(
                    members,
                    "localSecret"@,
                ) && (record_member(members, "roles"@) matches Some(roles) ==> roles is Texts) && (
                record_member(members, "localAuth"@) is None || text_under(members, "localAuth"@)
                    == Some("off"@) || text_under(members, "localAuth"@) == Some(
                    "origin-or-secret"@,
                ) || text_under(members, "localAuth"@) == Some("secret"@)) ==> {
                    &&& r matches Some(s)
                    &&& text_opt(s.server_url) == text_under(members, "serverUrl"@)
                    &&& text_opt(s.station_token) == text_under(members, "stationToken"@)
                    &&& text_opt(s.station_id) == text_under(members, "stationId"@)
                    &&& text_opt(s.tenant_id) == text_under(members, "tenantId"@)
                    &&& text_opt(s.branch_id) == text_under(members, "branchId"@)
                    &&& text_opt(s.label) == text_under(members, "label"@)
                    &&& text_opt(s.default_printer) == text_under(members, "defaultPrinter"@)
                    &&& text_opt(s.local_secret) == text_under(members, "localSecret"@)
                    &&& match record_member(members, "roles"@) {
                        Some(Plain::Texts(roles)) => texts(s.roles@) == roles,
                        _ => texts(s.roles@).len() == 0,
                    }
                    &&& text_under(members, "localAuth"@) == Some(
                        match s.local_auth {
                            LocalAuth::Off => "off"@,
                            LocalAuth::OriginOrSecret => "origin-or-secret"@,
                            LocalAuth::Secret => "secret"@,
                        },
                    ) || (text_under(members, "localAuth"@) is None && s.local_auth
                        is OriginOrSecret)
                },
    {
        let names: Vec<&'static str> = vec![
            "serverUrl",
            "stationToken",
            "stationId",
            "tenantId",
            "branchId",
            "label",
            "roles",
            "defaultPrinter",
            "localAuth",
            "localSecret",
        ];
        assert(names_of(names@) =~= setting_names());
        let m = match read_record(file, &names) {
            Some(m) => m,
            None => {
                proof {
                    assert forall|s: SettingsView|
                        encode_utf8(#[trigger] settings_text(s)) == file@ implies false by {
                        lemma_settings_members(s);
                        assert(encode_utf8(pretty_text(settings_members(s))) == file@);
                    }
                }
                return None;
            },
        };
        let server_url = m.get("serverUrl");
        let station_token = m.get("stationToken");
        let station_id = m.get("stationId");
        let tenant_id = m.get("tenantId");
        let branch_id = m.get("branchId");
        let label = m.get("label");
        let roles = m.get("roles");
        let default_printer = m.get("defaultPrinter");
        let local_auth = m.get("localAuth");
        let local_secret = m.get("localSecret");
        proof {
            assert forall|s: SettingsView|
                encode_utf8(#[trigger] settings_text(s)) == file@ implies text_opt(server_url)
                == Some(plain_text(plain_opt(s.server_url))) && text_opt(station_token) == Some(
                plain_text(plain_opt(s.station_token)),
            ) && text_opt(station_id) == Some(plain_text(plain_opt(s.station_id))) && text_opt(
                tenant_id,
            ) == Some(plain_text(plain_opt(s.tenant_id))) && text_opt(branch_id) == Some(
                plain_text(plain_opt(s.branch_id)),
            ) && text_opt(label) == Some(plain_text(plain_opt(s.label))) && text_opt(roles) == Some(
                pretty_strings(s.roles),
            ) && text_opt(default_printer) == Some(plain_text(plain_opt(s.default_printer)))
                && text_opt(local_auth) == Some(
                plain_text(Plain::Text(local_auth_name(s.local_auth))),
            ) && text_opt(local_secret) == Some(plain_text(plain_opt(s.local_secret))) by {
                lemma_settings_members(s);
                assert(encode_utf8(pretty_text(settings_members(s))) == file@);
                lemma_read_settings(s, m@);
            }
            lemma_local_auth_names();
            assert(local_auth_name(LocalAuth::Off) == "off"@);
            assert(local_auth_name(LocalAuth::OriginOrSecret) == "origin-or-secret"@);
            assert(local_auth_name(LocalAuth::Secret) == "secret"@);
            assert forall|members: Seq<(Seq<char>, Plain)>|
                file@ == encode_utf8(#[trigger] record_text(members)) && members.len() > 0 && distinct(
                    members,
                ) implies text_opt(server_url) == found_text(members, "serverUrl"@) && text_opt(
                station_token,
            ) == found_text(members, "stationToken"@) && text_opt(station_id) == found_text(
                members,
                "stationId"@,
            ) && text_opt(tenant_id) == found_text(members, "tenantId"@) && text_opt(branch_id)
                == found_text(members, "branchId"@) && text_opt(label) == found_text(
                members,
                "label"@,
            ) && text_opt(roles) == found_text(members, "roles"@) && text_opt(default_printer)
                == found_text(members, "defaultPrinter"@) && text_opt(local_auth) == found_text(
                members,
                "localAuth"@,
            ) && text_opt(local_secret) == found_text(members, "localSecret"@) by {
                lemma_written_member_text(members, false, "serverUrl"@);
                lemma_written_member_text(members, false, "stationToken"@);
                lemma_written_member_text(members, false, "stationId"@);
                lemma_written_member_text(members, false, "tenantId"@);
                lemma_written_member_text(members, false, "branchId"@);
                lemma_written_member_text(members, false, "label"@);
                lemma_written_member_text(members, false, "roles"@);
                lemma_written_member_text(members, false, "defaultPrinter"@);
                lemma_written_member_text(members, false, "localAuth"@);
                lemma_written_member_text(members, false, "localSecret"@);
            }
        }
        Settings::from_fields(
            read_nullable_field(server_url),
            read_nullable_field(station_token),
            read_nullable_field(station_id),
            read_nullable_field(tenant_id),
            read_nullable_field(branch_id),
            read_nullable_field(label),
            read_strings_field(roles),
            read_nullable_field(default_printer),
            read_local_auth(local_auth),
            read_nullable_field(local_secret),
        )
    }

    /// The text of the file.
    pub fn text(&self) -> (r: String)
        ensures
            r@ == settings_text(self@),
    {
        let mut members: Vec<(String, PlainValue)> = Vec::new();
        members.push(("serverUrl".to_string(), PlainValue::of(&self.server_url)));
        members.push(("stationToken".to_string(), PlainValue::of(&self.station_token)));
        members.push(("stationId".to_string(), PlainValue::of(&self.station_id)));
        members.push(("tenantId".to_string(), PlainValue::of(&self.tenant_id)));
        members.push(("branchId".to_string(), PlainValue::of(&self.branch_id)));
        members.push(("label".to_string(), PlainValue::of(&self.label)));
        members.push(("roles".to_string(), PlainValue::Texts(text::copy_list(&self.roles))));
        members.push(("defaultPrinter".to_string(), PlainValue::of(&self.default_printer)));
        members.push(
            ("localAuth".to_string(), PlainValue::Text(self.local_auth.name().to_string())),
        );
        members.push(("localSecret".to_string(), PlainValue::of(&self.local_secret)));
        assert(plain_members(members@) =~= settings_members(self@));
        pretty_object(&members)
    }
}

// ── The local secret ────────────────────────────────────────────────────

/// `getrandom::fill` on 32 bytes, and the `Display` text of its error.
///
/// Claims nothing of the bytes: they are random.
#[verifier::external_body]
fn random_bytes() -> (r: Result<[u8; 32], String>) {
    let mut bytes = [0u8; 32];
    getrandom::fill(&mut bytes).map(|_| bytes).map_err(|e| e.to_string())
}

/// The shape of a generated secret.
pub open spec fn secret_shaped(s: Seq<char>) -> bool {
    &&& s.len() == 43
    &&& forall|i: int| 0 <= i < s.len() ==> url_safe(#[trigger] s[i])
}

/// What is said where the system has no random bytes to give.
pub open spec fn no_secret_text(reason: Seq<char>) -> Seq<char> {
    "el CSPRNG del sistema falló: "@ + reason
}

/// The secret that 32 random bytes make, or the error for why there are none.
///
/// Fails loudly rather than falling back to a weaker source: a predictable
/// secret is worse than none, because it looks like protection.
pub fn secret_from_bytes(drawn: Result<[u8; 32], String>) -> (r: BridgeResult<String>)
    ensures
        match drawn {
            Ok(bytes) => r matches Ok(s) && s@ == base64_url(bytes@) && secret_shaped(s@)
                && forall|other: Seq<u8>|
                other.len() == 32 && #[trigger] base64_url(other) == s@ ==> other == bytes@,
            Err(e) => r matches Err(BridgeError::Config(m)) && m@ == no_secret_text(e@),
        },
{
    match drawn {
        Ok(bytes) => Ok(encode_base64_url(&bytes)),
        Err(e) => Err(BridgeError::Config(joined("el CSPRNG del sistema falló: ", e.as_str()))),
    }
}

/// 32 bytes from the system's random generator, as a text that is safe in a
/// URL.
pub fn generate_secret() -> (r: BridgeResult<String>)
    ensures
        match r {
            Ok(s) => secret_shaped(s@) && exists|bytes: Seq<u8>|
                bytes.len() == 32 && s@ == #[trigger] base64_url(bytes),
            Err(e) => e matches BridgeError::Config(m) && exists|reason: Seq<char>|
                m@ == #[trigger] no_secret_text(reason),
        },
{
    let drawn = random_bytes();
    let ghost taken = drawn;
    let r = secret_from_bytes(drawn);
    proof {
        match taken {
            Ok(bytes) => {
                assert(bytes@.len() == 32 && r->Ok_0@ == base64_url(bytes@));
            },
            Err(reason) => {},
        }
    }
    r
}

// ── The store ───────────────────────────────────────────────────────────

/// The settings of this process.
pub struct SettingsStore {
    settings: Settings,
    in_memory: bool,
}

impl View for SettingsStore {
    type V = SettingsView;

    closed spec fn view(&self) -> SettingsView {
        self.settings@
    }
}

/// The settings that a bridge comes up with: those that its file describes, or
/// those of a new install where there is no file or it describes none.
pub open spec fn found_settings(file: Option<Vec<u8>>) -> SettingsView {
    match file {
        Some(bytes) => match settings_of(bytes@) {
            Some(s) => s,
            None => default_settings(),
        },
        None => default_settings(),
    }
}

/// `save` was called on the text of these settings and came back with `w`.
pub open spec fn saved<F: FnOnce(&str) -> BridgeResult<()>>(
    save: F,
    settings: SettingsView,
    w: BridgeResult<()>,
) -> bool {
    exists|file: &str| file@ == settings_text(settings) && #[trigger] save.ensures((file,), w)
}

/// `save` may be called on the text of these settings.
pub open spec fn may_save<F: FnOnce(&str) -> BridgeResult<()>>(
    save: F,
    settings: SettingsView,
) -> bool {
    forall|file: &str| file@ == settings_text(settings) ==> #[trigger] save.requires((file,))
}

/// These settings, with a local secret.
pub open spec fn with_secret(settings: SettingsView, secret: Seq<char>) -> SettingsView {
    SettingsView { local_secret: Some(secret), ..settings }
}

impl SettingsStore {
    /// The store has no file: what it holds is neither read from disk nor
    /// written there.
    pub closed spec fn is_in_memory(&self) -> bool {
        self.in_memory
    }

    /// Comes up with the settings that the file describes, and makes sure a
    /// local secret exists.
    ///
    /// A corrupt file must never stop the bridge: the till would lose printing
    /// over a typo. Generating the secret at boot, not at first use, is what
    /// makes the secure default real: an install that has never been configured
    /// still comes up with a secret. A secret that could not be written is kept
    /// in memory; one that could not be generated is left out.
    ///
    /// Where the file has a secret nothing is written; where it has none, `save`
    /// is only called on the settings found, with a secret added.
    ///
    /// The file that settings were written to brings those settings back.
    pub fn load(
        file: &Option<Vec<u8>>,
        save: impl FnOnce(&str) -> BridgeResult<()>,
    ) -> (r: SettingsStore)
        requires
            found_settings(*file).local_secret is None ==> forall|secret: Seq<char>|
                secret_shaped(secret) ==> #[trigger] may_save(
                    save,
                    with_secret(found_settings(*file), secret),
                ),
        ensures
            !r.is_in_memory(),
            found_settings(*file).local_secret is Some ==> r@ == found_settings(*file),
            r@ == (SettingsView { local_secret: r@.local_secret, ..found_settings(*file) }),
            found_settings(*file).local_secret is None && r@.local_secret is Some ==> {
                &&& secret_shaped(r@.local_secret->Some_0)
                &&& exists|w: BridgeResult<()>| #[trigger] saved(save, r@, w)
            },
            forall|s: SettingsView|
                *file is Some && (*file)->Some_0@ == encode_utf8(#[trigger] settings_text(s))
                    ==> found_settings(*file) == s,
    {
        let settings: Settings = SettingsStore::read(file);
        if settings.local_secret.is_none() {
            SettingsStore::load_with(settings, generate_secret(), save)
        } else {
            SettingsStore { settings, in_memory: false }
        }
    }

    fn read(file: &Option<Vec<u8>>) -> (r: Settings)
        ensures
            r@ == found_settings(*file),
            forall|s: SettingsView|
                *file is Some && (*file)->Some_0@ == encode_utf8(#[trigger] settings_text(s)) ==> r@
                    == s,
    {
        match file {
            Some(bytes) => match Settings::parse_file(bytes.as_slice()) {
                Some(settings) => settings,
                None => Settings::default(),
            },
            None => Settings::default(),
        }
    }

    /// [`SettingsStore::load`] for settings without a secret, once the attempt
    /// to generate one has been made. Without a secret nothing is written.
    pub fn load_with(
        settings: Settings,
        generated: BridgeResult<String>,
        save: impl FnOnce(&str) -> BridgeResult<()>,
    ) -> (r: SettingsStore)
        requires
            generated matches Ok(secret) ==> may_save(save, with_secret(settings@, secret@)),
        ensures
            !r.is_in_memory(),
            match generated {
                Ok(secret) => {
                    &&& r@ == with_secret(settings@, secret@)
                    &&& exists|w: BridgeResult<()>| #[trigger] saved(save, r@, w)
                },
                Err(_) => r@ == settings@,
            },
    {
        match generated {
            Ok(secret) => {
                let mut next: Settings = settings;
                next.local_secret = Some(secret);
                let w = save(next.text().as_str());
                assert(saved(save, next@, w));
                SettingsStore { settings: next, in_memory: false }
            },
            Err(_) => SettingsStore { settings, in_memory: false },
        }
    }

    /// A store over settings at hand. Nothing is read from disk or written to
    /// it, then or later.
    pub fn in_memory(settings: Settings) -> (r: SettingsStore)
        ensures
            r@ == settings@,
            r.is_in_memory(),
    {
        SettingsStore { settings, in_memory: true }
    }

    /// A copy of the settings.
    pub fn snapshot(&self) -> (r: Settings)
        ensures
            r@ == self@,
    {
        self.settings.clone()
    }

    /// Changes and persists in one step. The copy in memory is only replaced
    /// when the write succeeded. A store in memory has nothing to write: there
    /// `save` is not called, and the change always succeeds.
    pub fn update(
        &mut self,
        f: impl FnOnce(Settings) -> Settings,
        save: impl FnOnce(&str) -> BridgeResult<()>,
    ) -> (r: BridgeResult<Settings>)
        requires
            forall|s: Settings| s@ == old(self)@ ==> #[trigger] f.requires((s,)),
            !old(self).is_in_memory() ==> forall|before: Settings, next: Settings|
                before@ == old(self)@ && #[trigger] f.ensures((before,), next) ==> may_save(
                    save,
                    next@,
                ),
        ensures
            final(self).is_in_memory() == old(self).is_in_memory(),
            old(self).is_in_memory() ==> exists|before: Settings, next: Settings|
                {
                    &&& before@ == old(self)@
                    &&& #[trigger] f.ensures((before,), next)
                    &&& final(self)@ == next@
                    &&& r matches Ok(s) && s@ == next@
                },
            !old(self).is_in_memory() ==> exists|
                before: Settings,
                next: Settings,
                w: BridgeResult<()>,
            |
                {
                    &&& before@ == old(self)@
                    &&& #[trigger] f.ensures((before,), next)
                    &&& #[trigger] saved(save, next@, w)
                    &&& match w {
                        Ok(_) => final(self)@ == next@ && (r matches Ok(s) && s@ == next@),
                        Err(e) => final(self)@ == old(self)@ && r == Err::<Settings, BridgeError>(e),
                    }
                },
    {
        let before: Settings = self.settings.clone();
        let ghost taken = before;
        let next: Settings = f(before);
        assert(f.ensures((taken,), next));
        if self.in_memory {
            let copy: Settings = next.clone();
            self.settings = next;
            return Ok(copy);
        }
        assert(may_save(save, next@));
        let w = save(next.text().as_str());
        assert(saved(save, next@, w));
        match w {
            Ok(_) => {
                let copy: Settings = next.clone();
                self.settings = next;
                Ok(copy)
            },
            Err(e) => Err(e),
        }
    }
}

// ── Laws ────────────────────────────────────────────────────────────────

/// The address a till connects to has no slash at its end, whatever was
/// configured.
pub proof fn law_server_url_has_no_trailing_slash(server_url: Option<Seq<char>>)
    ensures
        server_url_of(server_url).len() > 0 ==> server_url_of(server_url).last() != '/',
{
    let raw = match server_url {
        Some(s) => if blank(s) {
            DEFAULT_SERVER_URL@
        } else {
            s
        },
        None => DEFAULT_SERVER_URL@,
    };
    text::lemma_trim_end_char_last(trim(raw), '/');
}

/// Settings mean what they hold, field by field.
pub proof fn law_settings_mean_what_they_hold(s: Settings)
    ensures
        ({
            let text = |o: Option<String>|
                match o {
                    Some(t) => Some(t@),
                    None => None,
                };
            &&& s@.server_url == text(s.server_url)
            &&& s@.station_token == text(s.station_token)
            &&& s@.station_id == text(s.station_id)
            &&& s@.tenant_id == text(s.tenant_id)
            &&& s@.branch_id == text(s.branch_id)
            &&& s@.label == text(s.label)
            &&& s@.default_printer == text(s.default_printer)
            &&& s@.local_secret == text(s.local_secret)
            &&& s@.local_auth == s.local_auth
            &&& s@.roles.len() == s.roles@.len()
            &&& forall|i: int|
                0 <= i < s.roles@.len() ==> (#[trigger] s@.roles[i]) == s.roles@[i]@
        }),
{
}

/// The file names each setting: what stands under a name is the setting of that
/// name.
pub proof fn law_the_file_names_each_setting(s: SettingsView)
    ensures
        settings_text(s) == pretty_text(settings_members(s)),
        ({
            let m = settings_members(s);
            let shown = |o: Option<Seq<char>>|
                match o {
                    Some(t) => Plain::Text(t),
                    None => Plain::Null,
                };
            &&& m.len() == 10
            &&& record_member(m, "serverUrl"@) == Some(shown(s.server_url))
            &&& record_member(m, "stationToken"@) == Some(shown(s.station_token))
            &&& record_member(m, "stationId"@) == Some(shown(s.station_id))
            &&& record_member(m, "tenantId"@) == Some(shown(s.tenant_id))
            &&& record_member(m, "branchId"@) == Some(shown(s.branch_id))
            &&& record_member(m, "label"@) == Some(shown(s.label))
            &&& record_member(m, "roles"@) == Some(Plain::Texts(s.roles))
            &&& record_member(m, "defaultPrinter"@) == Some(shown(s.default_printer))
            &&& record_member(m, "localSecret"@) == Some(shown(s.local_secret))
            &&& record_member(m, "localAuth"@) == Some(
                Plain::Text(
                    match s.local_auth {
                        LocalAuth::Off => "off"@,
                        LocalAuth::OriginOrSecret => "origin-or-secret"@,
                        LocalAuth::Secret => "secret"@,
                    },
                ),
            )
        }),
{
    lemma_settings_members(s);
}

/// Settings say what the members of their file hold, each field what stands under
/// its own name.
pub proof fn law_settings_are_what_their_members_hold(
    file: Seq<u8>,
    members: Seq<Member>,
    s: SettingsView,
)
    requires
        items_in(file) is None,
        record_in(
            file,
            seq![
                "serverUrl"@,
                "stationToken"@,
                "stationId"@,
                "tenantId"@,
                "branchId"@,
                "label"@,
                "roles"@,
                "defaultPrinter"@,
                "localAuth"@,
                "localSecret"@,
            ],
        ) == Some(members),
        settings_of(file) == Some(s),
    ensures
        ({
            let text = |name: Seq<char>|
                match member(members, name) {
                    Some(t) => json_string(t),
                    None => None,
                };
            &&& s.server_url == text("serverUrl"@)
            &&& s.station_token == text("stationToken"@)
            &&& s.station_id == text("stationId"@)
            &&& s.tenant_id == text("tenantId"@)
            &&& s.branch_id == text("branchId"@)
            &&& s.label == text("label"@)
            &&& s.default_printer == text("defaultPrinter"@)
            &&& s.local_secret == text("localSecret"@)
            &&& member(members, "localAuth"@) is None ==> s.local_auth == LocalAuth::OriginOrSecret
            &&& member(members, "localAuth"@) matches Some(t) ==> (json_string(t) matches Some(name)
                ==> name == local_auth_name(s.local_auth))
            &&& member(members, "roles"@) is None ==> s.roles.len() == 0
            &&& member(members, "roles"@) matches Some(t) ==> json_items(t) matches Some(items)
                && items.len() == s.roles.len() && forall|i: int|
                0 <= i < items.len() ==> json_string(#[trigger] items[i]) == Some(s.roles[i])
        }),
{
    lemma_local_auth_names();
    if let Some(t) = member(members, "roles"@) {
        lemma_all_strings(json_items(t)->Some_0);
    }
}

/// Each mode has its name in the file.
pub proof fn law_a_mode_is_known_by_its_name(mode: LocalAuth, name: Seq<char>)
    ensures
        local_auth_name(mode) == "off"@ <==> mode is Off,
        local_auth_name(mode) == "origin-or-secret"@ <==> mode is OriginOrSecret,
        local_auth_name(mode) == "secret"@ <==> mode is Secret,
        local_auth_of(name) == Some(mode) <==> name == local_auth_name(mode),
{
    lemma_local_auth_names();
    reveal_strlit("off");
    reveal_strlit("origin-or-secret");
    reveal_strlit("secret");
    assert("off"@.len() == 3);
    assert("origin-or-secret"@.len() == 16);
    assert("secret"@.len() == 6);
}

/// The bridge connects where it was told to, without the white space around the
/// address and without slashes at its end; and where it was told nothing, to the
/// default.
pub proof fn law_the_bridge_connects_where_it_was_told(server_url: Option<Seq<char>>)
    ensures
        server_url matches Some(s) ==> !blank(s) ==> server_url_of(server_url) == trim_end_char(
            trim(s),
            '/',
        ),
        server_url is None || blank(server_url->Some_0) ==> server_url_of(server_url)
            == "https://api-gourmelyhub.busticco.com"@,
{
    reveal_strlit("https://api-gourmelyhub.busticco.com");
    let fallback = "https://api-gourmelyhub.busticco.com"@;
    assert(fallback[0] == 'h' && fallback.last() == 'm');
    assert(text::trim_start(fallback) == fallback);
    assert(text::trim_end(fallback) == fallback);
    assert(trim_end_char(fallback, '/') == fallback);
}

/// A printer that is picked is remembered as it was picked, and a blank name is no
/// pick.
pub proof fn law_a_picked_printer_is_remembered(name: Seq<char>)
    ensures
        !blank(name) ==> chosen_printer_of(Some(name)) == Some(name),
        blank(name) ==> chosen_printer_of(Some(name)) is None,
        chosen_printer_of(None) is None,
{
}

/// A new install is not paired, and is not open to everybody.
pub proof fn law_a_new_install_is_closed()
    ensures
        default_settings().station_token is None,
        default_settings().local_secret is None,
        !(default_settings().local_auth is Off),
        default_settings().local_auth is OriginOrSecret,
{
}

/// What a bridge comes up with is what its file describes, where it describes
/// something, and otherwise what a new install has.
pub proof fn law_a_bridge_comes_up_with_its_file(file: Option<Vec<u8>>)
    ensures
        file matches Some(bytes) ==> match settings_of(bytes@) {
            Some(s) => found_settings(file) == s,
            None => found_settings(file) == default_settings(),
        },
        file is None ==> found_settings(file) == default_settings(),
{
}

/// Adding a secret adds the secret and changes nothing else.
pub proof fn law_a_secret_changes_nothing_else(s: SettingsView, secret: Seq<char>)
    ensures
        with_secret(s, secret).local_secret == Some(secret),
        (SettingsView { local_secret: s.local_secret, ..with_secret(s, secret) }) == s,
{
}

/// A file describes settings wherever each thing that it says has its shape; it need
/// not say any of them, and may say more.
pub proof fn law_a_file_in_shape_is_taken(file: Seq<u8>, members: Seq<Member>)
    requires
        items_in(file) is None,
        record_in(
            file,
            seq![
                "serverUrl"@,
                "stationToken"@,
                "stationId"@,
                "tenantId"@,
                "branchId"@,
                "label"@,
                "roles"@,
                "defaultPrinter"@,
                "localAuth"@,
                "localSecret"@,
            ],
        ) == Some(members),
        forall|name: Seq<char>|
            name == "serverUrl"@ || name == "stationToken"@ || name == "stationId"@ || name
                == "tenantId"@ || name == "branchId"@ || name == "label"@ || name
                == "defaultPrinter"@ || name == "localSecret"@ ==> ((#[trigger] member(
                members,
                name,
            )) matches Some(t) ==> json_string(t) is Some || t == "null"@),
        member(members, "roles"@) matches Some(t) ==> json_items(t) matches Some(items)
            && forall|i: int| 0 <= i < items.len() ==> json_string(#[trigger] items[i]) is Some,
        member(members, "localAuth"@) matches Some(t) ==> json_string(t) == Some("off"@)
            || json_string(t) == Some("origin-or-secret"@) || json_string(t) == Some("secret"@),
    ensures
        settings_of(file) is Some,
{
    lemma_setting_names();
    if let Some(t) = member(members, "roles"@) {
        law_a_list_is_read_whole(json_items(t)->Some_0);
    }
}

} // verus!
