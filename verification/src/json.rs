//! JSON values, carried as their text.
//!
//! The bridge never computes with a JSON value: it reads a handful of members
//! out of the ones it receives and writes a handful of small objects. So a
//! value is its compact text, and reading and quoting are left to `serde_json`.
//! The members of an object are taken apart in [`crate::record`].

use vstd::prelude::*;
use vstd::string::*;

use crate::text::{decimal, text_opt, texts};

verus! {

// ── What serde_json makes of a text ─────────────────────────────────────

/// The compact text of the JSON value that `text` encodes, if it encodes one.
pub uninterp spec fn json_compact(text: Seq<char>) -> Option<Seq<char>>;

/// The compact text of the member `key` of the value that `serde_json` reads
/// `text` as.
pub uninterp spec fn json_value_member(text: Seq<char>, key: Seq<char>) -> Option<Seq<char>>;

/// The compact texts of the elements of the JSON array that `text` encodes, read
/// as values.
pub uninterp spec fn json_elements(text: Seq<char>) -> Option<Seq<Seq<char>>>;

/// The texts of the elements of the JSON array that `text` encodes, as they stand
/// there.
pub uninterp spec fn json_items(text: Seq<char>) -> Option<Seq<Seq<char>>>;

/// The string that `text` encodes, if it encodes a JSON string.
pub uninterp spec fn json_string(text: Seq<char>) -> Option<Seq<char>>;

/// The number that `text` encodes, if it encodes an integer of 64 bits without
/// sign.
pub uninterp spec fn json_u64(text: Seq<char>) -> Option<u64>;

/// The JSON text of the string `s`, quotes and escapes included.
pub uninterp spec fn json_quoted(s: Seq<char>) -> Seq<char>;

/// No character of `s` is escaped inside a JSON string.
pub open spec fn needs_no_escape(s: Seq<char>) -> bool {
    forall|i: int| 0 <= i < s.len() ==> #[trigger] s[i] != '"' && s[i] != '\\' && s[i] as u32 >= 0x20
}

/// No character of `s` is a control character below the space.
pub open spec fn no_controls(s: Seq<char>) -> bool {
    forall|i: int| 0 <= i < s.len() ==> #[trigger] s[i] as u32 >= 0x20
}

/// The value of a member of a flat object.
pub enum Plain {
    Null,
    Text(Seq<char>),
    Number(u64),
    Texts(Seq<Seq<char>>),
}

/// The JSON text of a flat value.
pub open spec fn plain_text(value: Plain) -> Seq<char> {
    match value {
        Plain::Null => "null"@,
        Plain::Text(s) => json_quoted(s),
        Plain::Number(n) => decimal(n as nat),
        Plain::Texts(list) => strings_json(list),
    }
}

/// The JSON texts of these strings.
pub open spec fn quoted_texts(list: Seq<Seq<char>>) -> Seq<Seq<char>> {
    list.map_values(|s: Seq<char>| json_quoted(s))
}

/// The JSON text of a list of strings.
pub open spec fn strings_json(list: Seq<Seq<char>>) -> Seq<char> {
    array_text(quoted_texts(list))
}

/// The JSON text of a flat object.
pub open spec fn record_text(members: Seq<(Seq<char>, Plain)>) -> Seq<char> {
    object_text(members.map_values(|m: (Seq<char>, Plain)| (m.0, plain_text(m.1))))
}

/// The JSON text of a list of strings in an object that is laid out over lines.
pub open spec fn pretty_strings(list: Seq<Seq<char>>) -> Seq<char> {
    if list.len() == 0 {
        "[]"@
    } else {
        "[\n    "@ + separated(quoted_texts(list), ",\n    "@) + "\n  ]"@
    }
}

/// The JSON text of a value of a flat object that is laid out over lines.
pub open spec fn pretty_plain_text(value: Plain) -> Seq<char> {
    match value {
        Plain::Texts(list) => pretty_strings(list),
        other => plain_text(other),
    }
}

/// The JSON text of one member of an object that is laid out over lines.
pub open spec fn pretty_member_text(m: (Seq<char>, Plain)) -> Seq<char> {
    json_quoted(m.0) + ": "@ + pretty_plain_text(m.1)
}

/// The JSON text of a flat object laid out over lines: two spaces for each
/// level, one member and one element to a line.
pub open spec fn pretty_text(members: Seq<(Seq<char>, Plain)>) -> Seq<char> {
    if members.len() == 0 {
        "{}"@
    } else {
        "{\n  "@ + separated(
            members.map_values(|m: (Seq<char>, Plain)| pretty_member_text(m)),
            ",\n  "@,
        ) + "\n}"@
    }
}

/// The member `key` of a flat object; the last one, where the key is repeated.
pub open spec fn record_member(members: Seq<(Seq<char>, Plain)>, key: Seq<char>) -> Option<Plain>
    decreases members.len(),
{
    if members.len() == 0 {
        None
    } else if members.last().0 == key {
        Some(members.last().1)
    } else {
        record_member(members.drop_last(), key)
    }
}

/// A JSON value without fractions.
pub enum Tree {
    Null,
    Boolean(bool),
    Integer(int),
    Text(Seq<char>),
    List(Seq<Tree>),
    Record(Seq<(Seq<char>, Tree)>),
}

/// The JSON text of an integer.
pub open spec fn integer_text(n: int) -> Seq<char> {
    if n < 0 {
        seq!['-'] + decimal((-n) as nat)
    } else {
        decimal(n as nat)
    }
}

/// The compact text of a value.
pub open spec fn tree_text(t: Tree) -> Seq<char>
    decreases t,
{
    match t {
        Tree::Null => "null"@,
        Tree::Boolean(b) => if b {
            "true"@
        } else {
            "false"@
        },
        Tree::Integer(n) => integer_text(n),
        Tree::Text(s) => json_quoted(s),
        Tree::List(items) => array_text(tree_texts(items)),
        Tree::Record(members) => object_text(tree_members(members)),
    }
}

/// The compact texts of these values.
pub open spec fn tree_texts(items: Seq<Tree>) -> Seq<Seq<char>>
    decreases items,
{
    Seq::new(
        items.len(),
        |i: int|
            if 0 <= i < items.len() {
                tree_text(items[i])
            } else {
                Seq::empty()
            },
    )
}

/// These members, with the compact texts of their values.
pub open spec fn tree_members(members: Seq<(Seq<char>, Tree)>) -> Seq<(Seq<char>, Seq<char>)>
    decreases members,
{
    Seq::new(
        members.len(),
        |i: int|
            if 0 <= i < members.len() {
                (members[i].0, tree_text(members[i].1))
            } else {
                (Seq::empty(), Seq::empty())
            },
    )
}

/// `a` comes before `b` in the order of their characters.
pub open spec fn ascends(a: Seq<char>, b: Seq<char>) -> bool
    decreases a.len(),
{
    if a.len() == 0 || b.len() == 0 {
        a.len() == 0 && b.len() > 0
    } else if a[0] == b[0] {
        ascends(a.skip(1), b.skip(1))
    } else {
        (a[0] as u32) < (b[0] as u32)
    }
}

/// A value that `serde_json` can hold: no more than `depth` arrays and objects
/// deep, its integers within 64 bits, the keys of its objects in order, each
/// once, and none of them the one that `serde_json` keeps for itself.
pub open spec fn readable(t: Tree, depth: nat) -> bool
    decreases t,
{
    match t {
        Tree::Integer(n) => i64::MIN <= n <= u64::MAX,
        Tree::List(items) => depth > 0 && forall|i: int|
            0 <= i < items.len() ==> #[trigger] readable(items[i], (depth - 1) as nat),
        Tree::Record(members) => {
            &&& depth > 0
            &&& forall|i: int|
                0 <= i < members.len() ==> #[trigger] readable(members[i].1, (depth - 1) as nat)
            &&& forall|i: int, j: int|
                0 <= i < j < members.len() ==> ascends(
                    (#[trigger] members[i]).0,
                    (#[trigger] members[j]).0,
                )
            &&& forall|i: int|
                0 <= i < members.len() ==> (#[trigger] members[i]).0
                    != "$serde_json::private::RawValue"@
        },
        _ => true,
    }
}

/// `serde_json::from_str` to a `Value`, then `Value::to_string`.
///
/// Claims that the outcome depends on the text alone.
#[verifier::external_body]
fn read_value(text: &str) -> (r: Option<String>)
    ensures
        text_opt(r) == json_compact(text@),
{
    serde_json::from_str::<serde_json::Value>(text).ok().map(|v| v.to_string())
}

/// `serde_json::from_str` to a `Value`, then `Value::get` with a key, then
/// `Value::to_string`.
///
/// Claims that the outcome depends on the text and the key alone.
#[verifier::external_body]
pub(crate) fn read_value_member(text: &str, key: &str) -> (r: Option<String>)
    ensures
        text_opt(r) == json_value_member(text@, key@),
{
    serde_json::from_str::<serde_json::Value>(text).ok()?.get(key).map(|v| v.to_string())
}

/// `serde_json::from_str` to a `Vec` of `Value`, then `Value::to_string` on
/// each.
///
/// Claims that the outcome depends on the text alone, and that the elements of
/// an array are read back as they were written, where they have no fractions and
/// are nested far from the depth at which `serde_json` gives up.
#[verifier::external_body]
pub(crate) fn read_elements(text: &str) -> (r: Option<Vec<String>>)
    ensures
        list_opt(r) == json_elements(text@),
        forall|items: Seq<Tree>|
            readable(Tree::List(items), 100) && #[trigger] array_text(tree_texts(items)) == text@
                ==> list_opt(r) == Some(tree_texts(items)),
{
    let items = serde_json::from_str::<Vec<serde_json::Value>>(text).ok()?;
    Some(items.iter().map(|v| v.to_string()).collect())
}

/// `serde_json::from_str` to a `Vec` of `RawValue`, then `RawValue::get` on each.
///
/// Claims that the outcome depends on the text alone, that a flat object is not
/// taken for an array, and that the elements of an array of strings are read
/// back as they were written, on one line or over several.
#[verifier::external_body]
pub(crate) fn read_items(text: &str) -> (r: Option<Vec<String>>)
    ensures
        list_opt(r) == json_items(text@),
        forall|members: Seq<(Seq<char>, Plain)>| #[trigger]
            record_text(members) == text@ ==> r is None,
        forall|members: Seq<(Seq<char>, Plain)>| #[trigger]
            pretty_text(members) == text@ ==> r is None,
        forall|list: Seq<Seq<char>>| #[trigger]
            strings_json(list) == text@ ==> list_opt(r) == Some(quoted_texts(list)),
        forall|list: Seq<Seq<char>>| #[trigger]
            pretty_strings(list) == text@ ==> list_opt(r) == Some(quoted_texts(list)),
{
    let items = serde_json::from_str::<Vec<Box<serde_json::value::RawValue>>>(text).ok()?;
    Some(items.iter().map(|v| v.get().to_string()).collect())
}

/// `serde_json::from_str` to a `String`.
///
/// Claims that the outcome depends on the text alone, that a quoted string is
/// read back as it was, and that null is no string.
#[verifier::external_body]
pub(crate) fn read_string(text: &str) -> (r: Option<String>)
    ensures
        text_opt(r) == json_string(text@),
        forall|s: Seq<char>| #[trigger] json_quoted(s) == text@ ==> text_opt(r) == Some(s),
        text@ == "null"@ ==> r is None,
{
    serde_json::from_str::<String>(text).ok()
}

/// `serde_json::from_str` to a `u64`.
///
/// Claims that the outcome depends on the text alone, and that a number written
/// in decimal digits is read back as it was.
#[verifier::external_body]
pub(crate) fn read_u64(text: &str) -> (r: Option<u64>)
    ensures
        r == json_u64(text@),
        forall|n: u64| #[trigger] decimal(n as nat) == text@ ==> r == Some(n),
{
    serde_json::from_str::<u64>(text).ok()
}

/// `Value::String`, then `Value::to_string`.
///
/// Claims that the outcome depends on the string alone, that reading it back
/// gives the string, that no control character is left in it, and that a string
/// with nothing to escape is only put between quotes.
#[verifier::external_body]
pub(crate) fn quote(s: &str) -> (r: String)
    ensures
        r@ == json_quoted(s@),
        json_string(r@) == Some(s@),
        no_controls(r@),
        needs_no_escape(s@) ==> r@ == seq!['"'] + s@ + seq!['"'],
{
    serde_json::Value::String(s.to_string()).to_string()
}

// ── The fields of a record ──────────────────────────────────────────────

/// The string that a field holds.
pub open spec fn string_field(field: Option<Seq<char>>) -> Option<Seq<char>> {
    match field {
        Some(t) => json_string(t),
        None => None,
    }
}

/// The number that a field holds: absent, present and no number, or a number.
pub open spec fn u64_field(field: Option<Seq<char>>) -> Option<Option<u64>> {
    match field {
        Some(t) => Some(json_u64(t)),
        None => None,
    }
}

/// The string that a field may hold: `None` when it is present and neither a
/// string nor null.
pub open spec fn nullable_field(field: Option<Seq<char>>) -> Option<Option<Seq<char>>> {
    match field {
        Some(t) => match json_string(t) {
            Some(s) => Some(Some(s)),
            None => if t == "null"@ {
                Some(None)
            } else {
                None
            },
        },
        None => Some(None),
    }
}

/// The boolean that a field holds: absent, present and no boolean, or a boolean.
pub open spec fn bool_field(field: Option<Seq<char>>) -> Option<Option<bool>> {
    match field {
        Some(t) => Some(
            if t == "true"@ {
                Some(true)
            } else if t == "false"@ {
                Some(false)
            } else {
                None
            },
        ),
        None => None,
    }
}

/// The strings that a list of JSON texts holds, if all of them are strings.
pub open spec fn all_strings(items: Seq<Seq<char>>) -> Option<Seq<Seq<char>>>
    decreases items.len(),
{
    if items.len() == 0 {
        Some(Seq::empty())
    } else {
        match (all_strings(items.drop_last()), json_string(items.last())) {
            (Some(list), Some(s)) => Some(list.push(s)),
            _ => None,
        }
    }
}

/// The list of strings that a field holds: empty when the field is absent,
/// `None` when it is there and no list of strings.
pub open spec fn strings_field(field: Option<Seq<char>>) -> Option<Seq<Seq<char>>> {
    match field {
        Some(t) => match json_items(t) {
            Some(items) => all_strings(items),
            None => None,
        },
        None => Some(Seq::empty()),
    }
}

/// The element `i` of a list, if it has one.
pub open spec fn element(items: Seq<Seq<char>>, i: int) -> Option<Seq<char>> {
    if 0 <= i < items.len() {
        Some(items[i])
    } else {
        None
    }
}

pub(crate) fn read_string_field(field: Option<String>) -> (r: Option<String>)
    ensures
        text_opt(r) == string_field(text_opt(field)),
        forall|s: Seq<char>|
            text_opt(field) == Some(#[trigger] json_quoted(s)) ==> text_opt(r) == Some(s),
{
    match field {
        Some(t) => read_string(t.as_str()),
        None => None,
    }
}

pub(crate) fn read_u64_field(field: Option<String>) -> (r: Option<Option<u64>>)
    ensures
        r == u64_field(text_opt(field)),
        forall|n: u64|
            text_opt(field) == Some(#[trigger] decimal(n as nat)) ==> r == Some(Some(n)),
{
    match field {
        Some(t) => Some(read_u64(t.as_str())),
        None => None,
    }
}

/// The view of a string that may be absent, under a reading that may fail.
pub open spec fn nullable_text(s: Option<Option<String>>) -> Option<Option<Seq<char>>> {
    match s {
        Some(inner) => Some(text_opt(inner)),
        None => None,
    }
}

pub(crate) fn read_nullable_field(field: Option<String>) -> (r: Option<Option<String>>)
    ensures
        nullable_text(r) == nullable_field(text_opt(field)),
        forall|s: Seq<char>|
            text_opt(field) == Some(#[trigger] json_quoted(s)) ==> nullable_text(r) == Some(
                Some(s),
            ),
        text_opt(field) == Some("null"@) ==> nullable_text(r) == Some(None::<Seq<char>>),
{
    match field {
        Some(t) => match read_string(t.as_str()) {
            Some(s) => Some(Some(s)),
            None => {
                if crate::text::same(t.as_str(), "null") {
                    Some(None)
                } else {
                    None
                }
            },
        },
        None => Some(None),
    }
}

pub(crate) fn read_bool_field(field: Option<String>) -> (r: Option<Option<bool>>)
    ensures
        r == bool_field(text_opt(field)),
{
    match field {
        Some(t) => {
            if crate::text::same(t.as_str(), "true") {
                Some(Some(true))
            } else if crate::text::same(t.as_str(), "false") {
                Some(Some(false))
            } else {
                Some(None)
            }
        },
        None => None,
    }
}

/// The view of a list of strings that may be absent.
pub open spec fn list_opt(list: Option<Vec<String>>) -> Option<Seq<Seq<char>>> {
    match list {
        Some(v) => Some(texts(v@)),
        None => None,
    }
}

pub(crate) fn read_strings_field(field: Option<String>) -> (r: Option<Vec<String>>)
    ensures
        list_opt(r) == strings_field(text_opt(field)),
        forall|list: Seq<Seq<char>>|
            text_opt(field) == Some(#[trigger] strings_json(list)) ==> list_opt(r) == Some(list),
        forall|list: Seq<Seq<char>>|
            text_opt(field) == Some(#[trigger] pretty_strings(list)) ==> list_opt(r) == Some(list),
{
    let text: String = match field {
        Some(t) => t,
        None => {
            let none: Vec<String> = Vec::new();
            assert(texts(none@) =~= Seq::<Seq<char>>::empty());
            return Some(none);
        },
    };
    let items: Vec<String> = match read_items(text.as_str()) {
        Some(items) => items,
        None => {
            return None;
        },
    };
    let ghost all = texts(items@);
    let mut out: Vec<String> = Vec::new();
    let mut i: usize = 0;
    proof {
        assert(texts(out@) =~= Seq::<Seq<char>>::empty());
        assert(all.take(0) =~= Seq::<Seq<char>>::empty());
    }
    while i < items.len()
        invariant
            i <= items.len(),
            all == texts(items@),
            all_strings(all.take(i as int)) == Some(texts(out@)),
            json_items(text@) == Some(all),
            text_opt(field) == Some(text@),
            out.len() == i,
            forall|k: int, s: Seq<char>|
                0 <= k < i && #[trigger] all[k] == #[trigger] json_quoted(s) ==> out@[k]@ == s,
            forall|list: Seq<Seq<char>>| #[trigger]
                strings_json(list) == text@ ==> all == quoted_texts(list),
            forall|list: Seq<Seq<char>>| #[trigger]
                pretty_strings(list) == text@ ==> all == quoted_texts(list),
        decreases items.len() - i,
    {
        let ghost before = texts(out@);
        proof {
            assert(all.take(i + 1).drop_last() =~= all.take(i as int));
            assert(all.take(i + 1).last() == items@[i as int]@);
        }
        match read_string(items[i].as_str()) {
            Some(s) => {
                out.push(s);
                assert(texts(out@) =~= before.push(s@));
            },
            None => {
                proof {
                    lemma_not_all_strings(all, i as int);
                    assert forall|list: Seq<Seq<char>>| #[trigger]
                        strings_json(list) == text@ implies false by {
                        assert(all[i as int] == json_quoted(list[i as int]));
                    }
                    assert forall|list: Seq<Seq<char>>| #[trigger]
                        pretty_strings(list) == text@ implies false by {
                        assert(all[i as int] == json_quoted(list[i as int]));
                    }
                }
                return None;
            },
        }
        i += 1;
    }
    proof {
        assert(all.take(i as int) =~= all);
        assert forall|list: Seq<Seq<char>>| #[trigger]
            quoted_texts(list) == all implies texts(out@) == list by {
            assert forall|k: int| 0 <= k < list.len() implies texts(out@)[k] == list[k] by {
                assert(all[k] == json_quoted(list[k]));
            }
            assert(texts(out@) =~= list);
        }
    }
    Some(out)
}

/// The strings of a list are those of its elements, in their order.
pub proof fn lemma_all_strings(items: Seq<Seq<char>>)
    ensures
        all_strings(items) matches Some(list) ==> list.len() == items.len() && forall|i: int|
            0 <= i < items.len() ==> json_string(#[trigger] items[i]) == Some(list[i]),
    decreases items.len(),
{
    if items.len() > 0 {
        lemma_all_strings(items.drop_last());
        if let Some(list) = all_strings(items) {
            assert forall|i: int| 0 <= i < items.len() implies json_string(#[trigger] items[i])
                == Some(list[i]) by {
                if i < items.len() - 1 {
                    assert(items.drop_last()[i] == items[i]);
                }
            }
        }
    }
}

proof fn lemma_not_all_strings(items: Seq<Seq<char>>, i: int)
    requires
        0 <= i < items.len(),
        json_string(items[i]) is None,
    ensures
        all_strings(items) is None,
    decreases items.len(),
{
    if i < items.len() - 1 {
        assert(items.drop_last()[i] == items[i]);
        lemma_not_all_strings(items.drop_last(), i);
    }
}

pub(crate) fn nth(items: &Vec<String>, i: usize) -> (r: Option<String>)
    ensures
        text_opt(r) == element(texts(items@), i as int),
{
    if i < items.len() {
        Some(items[i].clone())
    } else {
        None
    }
}

// ── A value ─────────────────────────────────────────────────────────────

/// A JSON value. Its view is its text.
#[derive(Debug, Clone, PartialEq, Eq)]
pub struct Json {
    text: String,
}

impl View for Json {
    type V = Seq<char>;

    closed spec fn view(&self) -> Seq<char> {
        self.text@
    }
}

/// The texts of a list of values.
pub open spec fn json_texts(list: Seq<Json>) -> Seq<Seq<char>> {
    list.map_values(|v: Json| v@)
}

/// The items in order, with `separator` between each two.
pub open spec fn separated(items: Seq<Seq<char>>, separator: Seq<char>) -> Seq<char>
    decreases items.len(),
{
    if items.len() == 0 {
        Seq::empty()
    } else if items.len() == 1 {
        items[0]
    } else {
        separated(items.drop_last(), separator) + separator + items.last()
    }
}

/// The text of an array whose elements have the texts `items`.
pub open spec fn array_text(items: Seq<Seq<char>>) -> Seq<char> {
    seq!['['] + separated(items, ","@) + seq![']']
}

/// The text of one member of an object.
pub open spec fn member_text(key: Seq<char>, value: Seq<char>) -> Seq<char> {
    json_quoted(key) + seq![':'] + value
}

/// The text of an object with these members, in this order.
pub open spec fn object_text(members: Seq<(Seq<char>, Seq<char>)>) -> Seq<char> {
    seq!['{'] + separated(
        members.map_values(|m: (Seq<char>, Seq<char>)| member_text(m.0, m.1)),
        ","@,
    ) + seq!['}']
}

proof fn lemma_separated_no_controls(items: Seq<Seq<char>>, separator: Seq<char>)
    requires
        forall|i: int| 0 <= i < items.len() ==> no_controls(#[trigger] items[i]),
        no_controls(separator),
    ensures
        no_controls(separated(items, separator)),
    decreases items.len(),
{
    if items.len() == 1 {
        assert(no_controls(items[0]));
    } else if items.len() > 1 {
        assert forall|i: int| 0 <= i < items.drop_last().len() implies no_controls(
            #[trigger] items.drop_last()[i],
        ) by {
            assert(no_controls(items[i]));
        }
        lemma_separated_no_controls(items.drop_last(), separator);
        assert(no_controls(items[items.len() - 1]));
    }
}

pub(crate) fn join(items: &Vec<String>, separator: &str) -> (r: String)
    ensures
        r@ == separated(texts(items@), separator@),
{
    let mut out = String::new();
    let mut i: usize = 0;
    let ghost all = texts(items@);
    assert(all.take(0) =~= Seq::<Seq<char>>::empty());
    while i < items.len()
        invariant
            i <= items.len(),
            all == texts(items@),
            out@ == separated(all.take(i as int), separator@),
        decreases items.len() - i,
    {
        proof {
            assert(all.take(i + 1).drop_last() =~= all.take(i as int));
            assert(all.take(i + 1).last() == items@[i as int]@);
        }
        if i > 0 {
            out.append(separator);
        }
        out.append(items[i].as_str());
        proof {
            if i == 0 {
                assert(out@ =~= all.take(1)[0]);
            }
        }
        i += 1;
    }
    assert(all.take(i as int) =~= all);
    out
}

/// The texts of these strings, quoted.
fn quoted_list(list: &Vec<String>) -> (r: Vec<String>)
    ensures
        texts(r@) == quoted_texts(texts(list@)),
{
    let mut out: Vec<String> = Vec::new();
    let mut i: usize = 0;
    while i < list.len()
        invariant
            i <= list.len(),
            out.len() == i,
            forall|j: int| 0 <= j < i ==> #[trigger] out@[j]@ == json_quoted(list@[j]@),
        decreases list.len() - i,
    {
        out.push(quote(list[i].as_str()));
        i += 1;
    }
    assert(texts(out@) =~= quoted_texts(texts(list@)));
    out
}

/// A flat value laid out over lines.
pub enum PlainValue {
    Null,
    Text(String),
    Texts(Vec<String>),
}

impl View for PlainValue {
    type V = Plain;

    open spec fn view(&self) -> Plain {
        match *self {
            PlainValue::Null => Plain::Null,
            PlainValue::Text(s) => Plain::Text(s@),
            PlainValue::Texts(list) => Plain::Texts(texts(list@)),
        }
    }
}

/// A string that may be absent, as a flat value.
pub open spec fn plain_opt(s: Option<Seq<char>>) -> Plain {
    match s {
        Some(t) => Plain::Text(t),
        None => Plain::Null,
    }
}

impl PlainValue {
    pub fn of(s: &Option<String>) -> (r: PlainValue)
        ensures
            r@ == plain_opt(text_opt(*s)),
    {
        match s {
            Some(t) => PlainValue::Text(t.clone()),
            None => PlainValue::Null,
        }
    }

    fn pretty(&self) -> (r: String)
        ensures
            r@ == pretty_plain_text(self@),
    {
        match self {
            PlainValue::Null => "null".to_string(),
            PlainValue::Text(s) => quote(s.as_str()),
            PlainValue::Texts(list) => {
                if list.len() == 0 {
                    "[]".to_string()
                } else {
                    let mut out = "[\n    ".to_string();
                    out.append(join(&quoted_list(list), ",\n    ").as_str());
                    out.append("\n  ]");
                    out
                }
            },
        }
    }
}

/// What the members of a flat object say.
pub open spec fn plain_members(members: Seq<(String, PlainValue)>) -> Seq<(Seq<char>, Plain)> {
    members.map_values(|m: (String, PlainValue)| (m.0@, m.1@))
}

/// A flat object laid out over lines.
pub fn pretty_object(members: &Vec<(String, PlainValue)>) -> (r: String)
    ensures
        r@ == pretty_text(plain_members(members@)),
{
    if members.len() == 0 {
        return "{}".to_string();
    }
    let ghost lines = plain_members(members@).map_values(
        |m: (Seq<char>, Plain)| pretty_member_text(m),
    );
    let mut parts: Vec<String> = Vec::new();
    let mut i: usize = 0;
    while i < members.len()
        invariant
            i <= members.len(),
            lines == plain_members(members@).map_values(
                |m: (Seq<char>, Plain)| pretty_member_text(m),
            ),
            parts.len() == i,
            forall|j: int| 0 <= j < i ==> #[trigger] parts@[j]@ == lines[j],
        decreases members.len() - i,
    {
        let mut part = quote(members[i].0.as_str());
        part.append(": ");
        part.append(members[i].1.pretty().as_str());
        assert(part@ == lines[i as int]);
        parts.push(part);
        i += 1;
    }
    assert(texts(parts@) =~= lines);
    let mut out = "{\n  ".to_string();
    out.append(join(&parts, ",\n  ").as_str());
    out.append("\n}");
    out
}

impl Json {
    /// The value that `text` encodes.
    pub fn parse(text: &str) -> (r: Option<Json>)
        ensures
            match r {
                Some(v) => json_compact(text@) == Some(v@),
                None => json_compact(text@) is None,
            },
    {
        match read_value(text) {
            Some(text) => Some(Json { text }),
            None => None,
        }
    }

    /// A value whose compact text is already at hand.
    pub(crate) fn of_text(text: String) -> (r: Json)
        ensures
            r@ == text@,
    {
        Json { text }
    }

    pub fn null() -> (r: Json)
        ensures
            r@ == "null"@,
    {
        Json { text: "null".to_string() }
    }

    pub fn boolean(b: bool) -> (r: Json)
        ensures
            r@ == (if b {
                "true"@
            } else {
                "false"@
            }),
    {
        if b {
            Json { text: "true".to_string() }
        } else {
            Json { text: "false".to_string() }
        }
    }

    pub fn string(s: &str) -> (r: Json)
        ensures
            r@ == json_quoted(s@),
            json_string(r@) == Some(s@),
            no_controls(r@),
            needs_no_escape(s@) ==> r@ == seq!['"'] + s@ + seq!['"'],
    {
        Json { text: quote(s) }
    }

    pub fn number(n: u64) -> (r: Json)
        ensures
            r@ == decimal(n as nat),
    {
        Json { text: crate::text::number(n) }
    }

    /// The string, or null when there is none.
    pub fn string_or_null(s: &Option<String>) -> (r: Json)
        ensures
            r@ == (match *s {
                Some(t) => json_quoted(t@),
                None => "null"@,
            }),
    {
        match s {
            Some(t) => Json::string(t.as_str()),
            None => Json::null(),
        }
    }

    pub fn array(items: &Vec<Json>) -> (r: Json)
        ensures
            r@ == array_text(json_texts(items@)),
    {
        let mut parts: Vec<String> = Vec::new();
        let mut i: usize = 0;
        while i < items.len()
            invariant
                i <= items.len(),
                parts.len() == i,
                forall|j: int| 0 <= j < i ==> parts@[j]@ == items@[j]@,
            decreases items.len() - i,
        {
            parts.push(items[i].text.clone());
            i += 1;
        }
        assert(texts(parts@) =~= json_texts(items@));
        let mut out = String::new();
        out.push('[');
        out.append(join(&parts, ",").as_str());
        out.push(']');
        assert(out@ =~= array_text(json_texts(items@)));
        Json { text: out }
    }

    /// An array of strings.
    pub fn strings(list: &Vec<String>) -> (r: Json)
        ensures
            r@ == strings_json(texts(list@)),
    {
        let mut out = String::new();
        out.push('[');
        out.append(join(&quoted_list(list), ",").as_str());
        out.push(']');
        assert(out@ =~= strings_json(texts(list@)));
        Json { text: out }
    }

    /// An object with these members, in this order.
    pub fn object(members: &Vec<(String, Json)>) -> (r: Json)
        ensures
            r@ == object_text(members@.map_values(|m: (String, Json)| (m.0@, m.1@))),
            (forall|i: int| 0 <= i < members@.len() ==> no_controls(#[trigger] members@[i].1@))
                ==> no_controls(r@),
    {
        let ghost pairs = members@.map_values(|m: (String, Json)| (m.0@, m.1@));
        let ghost lines = pairs.map_values(
            |m: (Seq<char>, Seq<char>)| member_text(m.0, m.1),
        );
        let mut parts: Vec<String> = Vec::new();
        let mut i: usize = 0;
        while i < members.len()
            invariant
                i <= members.len(),
                pairs == members@.map_values(|m: (String, Json)| (m.0@, m.1@)),
                lines == pairs.map_values(|m: (Seq<char>, Seq<char>)| member_text(m.0, m.1)),
                parts.len() == i,
                forall|j: int| 0 <= j < i ==> #[trigger] parts@[j]@ == lines[j],
                forall|j: int|
                    0 <= j < i && no_controls(#[trigger] members@[j].1@) ==> no_controls(lines[j]),
            decreases members.len() - i,
        {
            let mut part = quote(members[i].0.as_str());
            part.push(':');
            part.append(members[i].1.text.as_str());
            assert(part@ =~= member_text(members@[i as int].0@, members@[i as int].1@));
            parts.push(part);
            i += 1;
        }
        assert(texts(parts@) =~= lines);
        let mut out = String::new();
        out.push('{');
        out.append(join(&parts, ",").as_str());
        out.push('}');
        assert(out@ =~= object_text(pairs));
        proof {
            if forall|i: int| 0 <= i < members@.len() ==> no_controls(#[trigger] members@[i].1@) {
                assert forall|i: int| 0 <= i < lines.len() implies no_controls(#[trigger] lines[i]) by {
                    assert(no_controls(members@[i].1@));
                }
                reveal_strlit(",");
                lemma_separated_no_controls(lines, ","@);
            }
        }
        Json { text: out }
    }

    pub fn text(&self) -> (r: &str)
        ensures
            r@ == self@,
    {
        self.text.as_str()
    }

    /// The member `key`, if the value is an object that has it.
    pub fn member(&self, key: &str) -> (r: Option<Json>)
        ensures
            match r {
                Some(v) => json_value_member(self@, key@) == Some(v@),
                None => json_value_member(self@, key@) is None,
            },
    {
        match read_value_member(self.text.as_str(), key) {
            Some(text) => Some(Json { text }),
            None => None,
        }
    }

    /// The elements, if the value is an array.
    pub fn elements(&self) -> (r: Option<Vec<Json>>)
        ensures
            match r {
                Some(items) => json_elements(self@) == Some(json_texts(items@)),
                None => json_elements(self@) is None,
            },
    {
        elements_of(self.text.as_str())
    }

    /// The string, if the value is one.
    pub fn as_string(&self) -> (r: Option<String>)
        ensures
            text_opt(r) == json_string(self@),
            forall|s: Seq<char>| #[trigger] json_quoted(s) == self@ ==> text_opt(r) == Some(s),
    {
        read_string(self.text.as_str())
    }

    /// The number, if the value is an integer of 64 bits without sign.
    pub fn as_u64(&self) -> (r: Option<u64>)
        ensures
            r == json_u64(self@),
    {
        read_u64(self.text.as_str())
    }
}

/// The elements of the array that `text` encodes.
pub fn elements_of(text: &str) -> (r: Option<Vec<Json>>)
    ensures
        forall|items: Seq<Tree>|
            readable(Tree::List(items), 100) && #[trigger] array_text(tree_texts(items)) == text@
                ==> json_elements(text@) == Some(tree_texts(items)),
        match r {
            Some(items) => json_elements(text@) == Some(json_texts(items@)),
            None => json_elements(text@) is None,
        },
{
    match read_elements(text) {
        Some(items) => {
            let mut out: Vec<Json> = Vec::new();
            let mut i: usize = 0;
            while i < items.len()
                invariant
                    i <= items.len(),
                    out.len() == i,
                    forall|j: int| 0 <= j < i ==> out@[j]@ == items@[j]@,
                decreases items.len() - i,
            {
                out.push(Json { text: items[i].clone() });
                i += 1;
            }
            assert(json_texts(out@) =~= texts(items@));
            Some(out)
        },
        None => None,
    }
}

// ── What a reader finds ─────────────────────────────────────────────────

/// What a reader finds under `key` among the members of an object: the last of
/// them with that key.
pub open spec fn found_under(members: Seq<(Seq<char>, Tree)>, key: Seq<char>) -> Option<Tree>
    decreases members.len(),
{
    if members.len() == 0 {
        None
    } else if members.last().0 == key {
        Some(members.last().1)
    } else {
        found_under(members.drop_last(), key)
    }
}

/// A string that may be absent, as a value.
pub open spec fn text_tree(s: Option<Seq<char>>) -> Tree {
    match s {
        Some(t) => Tree::Text(t),
        None => Tree::Null,
    }
}

/// A list of strings, as a value.
pub open spec fn texts_tree(list: Seq<Seq<char>>) -> Tree {
    Tree::List(list.map_values(|s: Seq<char>| Tree::Text(s)))
}

/// Where no later member has its key, a member is what a reader finds under it.
pub proof fn lemma_found_at(members: Seq<(Seq<char>, Tree)>, i: int)
    requires
        0 <= i < members.len(),
        forall|j: int| i < j < members.len() ==> (#[trigger] members[j]).0 != members[i].0,
    ensures
        found_under(members, members[i].0) == Some(members[i].1),
    decreases members.len(),
{
    if i < members.len() - 1 {
        assert(members[members.len() - 1].0 != members[i].0);
        let rest = members.drop_last();
        assert forall|j: int| i < j < rest.len() implies (#[trigger] rest[j]).0 != rest[i].0 by {
            assert(members[j].0 != members[i].0);
        }
        lemma_found_at(rest, i);
    }
}

pub proof fn lemma_texts_tree(list: Seq<Seq<char>>)
    ensures
        tree_text(texts_tree(list)) == strings_json(list),
        forall|depth: nat| depth > 0 ==> #[trigger] readable(texts_tree(list), depth),
{
    reveal_with_fuel(readable, 3);
    let items = list.map_values(|s: Seq<char>| Tree::Text(s));
    assert(tree_texts(items) =~= quoted_texts(list));
}

// ── Laws ────────────────────────────────────────────────────────────────

/// A field is read as what it holds: a string as that string, null as nothing, an
/// absent one as nothing, and anything else is refused.
pub proof fn law_a_field_is_read_as_what_it_holds(field: Option<Seq<char>>)
    ensures
        nullable_field(None) == Some(None::<Seq<char>>),
        field matches Some(t) ==> (json_string(t) matches Some(s) ==> nullable_field(field) == Some(
            Some(s),
        ) && string_field(field) == Some(s)),
        field matches Some(t) ==> json_string(t) is None ==> string_field(field) is None && (
        nullable_field(field) is Some <==> t == "null"@),
        string_field(None) is None,
        field matches Some(t) ==> u64_field(field) == Some(json_u64(t)),
        u64_field(None) is None,
        bool_field(Some("true"@)) == Some(Some(true)),
        bool_field(Some("false"@)) == Some(Some(false)),
        field matches Some(t) ==> t != "true"@ && t != "false"@ ==> bool_field(field) == Some(
            None::<bool>,
        ),
        bool_field(None) is None,
{
    reveal_strlit("true");
    reveal_strlit("false");
    assert("true"@.len() == 4 && "false"@.len() == 5);
}

/// A list is read as all of its strings, each in its place, or not at all.
pub proof fn law_a_list_is_read_whole(items: Seq<Seq<char>>)
    ensures
        all_strings(items) matches Some(list) ==> list.len() == items.len() && forall|i: int|
            0 <= i < items.len() ==> json_string(#[trigger] items[i]) == Some(list[i]),
        all_strings(items) is Some <==> forall|i: int|
            0 <= i < items.len() ==> json_string(#[trigger] items[i]) is Some,
        strings_field(None) == Some(Seq::<Seq<char>>::empty()),
    decreases items.len(),
{
    lemma_all_strings(items);
    if items.len() > 0 {
        law_a_list_is_read_whole(items.drop_last());
        if forall|i: int| 0 <= i < items.len() ==> json_string(#[trigger] items[i]) is Some {
            assert forall|i: int| 0 <= i < items.drop_last().len() implies json_string(
                #[trigger] items.drop_last()[i],
            ) is Some by {
                assert(json_string(items[i]) is Some);
            }
            assert(json_string(items[items.len() - 1]) is Some);
        } else {
            let i = choose|i: int|
                0 <= i < items.len() && json_string(#[trigger] items[i]) is None;
            lemma_not_all_strings(items, i);
        }
    }
}

/// What is separated holds each item whole and in its order, with the separator
/// between each two and nowhere else.
pub proof fn law_items_are_separated(a: Seq<Seq<char>>, b: Seq<Seq<char>>, separator: Seq<char>)
    ensures
        a.len() > 0 && b.len() > 0 ==> separated(a + b, separator) == separated(a, separator)
            + separator + separated(b, separator),
        a.len() == 1 ==> separated(a, separator) == a[0],
        separated(Seq::<Seq<char>>::empty(), separator) == Seq::<char>::empty(),
    decreases b.len(),
{
    if a.len() > 0 && b.len() == 1 {
        assert((a + b).drop_last() =~= a);
    } else if a.len() > 0 && b.len() > 1 {
        law_items_are_separated(a, b.drop_last(), separator);
        assert((a + b).drop_last() =~= a + b.drop_last());
        let (x, y) = (separated(a, separator), separated(b.drop_last(), separator));
        assert(x + separator + y + separator + b.last() =~= x + separator + (y + separator
            + b.last()));
    }
}

/// An object and an array hold each of their parts whole and in its order: what two
/// of them hold together is what one of them holds.
pub proof fn law_an_object_holds_each_member(
    a: Seq<(Seq<char>, Seq<char>)>,
    b: Seq<(Seq<char>, Seq<char>)>,
)
    ensures
        a.len() > 0 && b.len() > 0 ==> object_text(a + b) == object_text(a).drop_last() + ","@
            + object_text(b).drop_first(),
        a.len() == 1 ==> object_text(a) == seq!['{'] + json_quoted(a[0].0) + seq![':'] + a[0].1
            + seq!['}'],
        a.len() == 0 ==> object_text(a) == seq!['{', '}'],
{
    let f = |m: (Seq<char>, Seq<char>)| member_text(m.0, m.1);
    law_items_are_separated(a.map_values(f), b.map_values(f), ","@);
    assert((a + b).map_values(f) =~= a.map_values(f) + b.map_values(f));
    let (x, y) = (separated(a.map_values(f), ","@), separated(b.map_values(f), ","@));
    assert(object_text(a).drop_last() =~= seq!['{'] + x);
    assert(object_text(b).drop_first() =~= y + seq!['}']);
    if a.len() > 0 && b.len() > 0 {
        assert(object_text(a + b) =~= object_text(a).drop_last() + ","@ + object_text(
            b,
        ).drop_first());
    }
    if a.len() == 1 {
        assert(x == member_text(a[0].0, a[0].1));
        assert(object_text(a) =~= seq!['{'] + json_quoted(a[0].0) + seq![':'] + a[0].1 + seq!['}']);
    }
    if a.len() == 0 {
        assert(a.map_values(f) =~= Seq::<Seq<char>>::empty());
        assert(object_text(a) =~= seq!['{', '}']);
    }
}

/// An array holds each of its elements whole and in its order.
pub proof fn law_an_array_holds_each_element(a: Seq<Seq<char>>, b: Seq<Seq<char>>)
    ensures
        a.len() > 0 && b.len() > 0 ==> array_text(a + b) == array_text(a).drop_last() + ","@
            + array_text(b).drop_first(),
        a.len() == 1 ==> array_text(a) == seq!['['] + a[0] + seq![']'],
        a.len() == 0 ==> array_text(a) == seq!['[', ']'],
{
    law_items_are_separated(a, b, ","@);
    let (x, y) = (separated(a, ","@), separated(b, ","@));
    assert(array_text(a).drop_last() =~= seq!['['] + x);
    assert(array_text(b).drop_first() =~= y + seq![']']);
    if a.len() > 0 && b.len() > 0 {
        assert(array_text(a + b) =~= array_text(a).drop_last() + ","@ + array_text(
            b,
        ).drop_first());
    }
    if a.len() == 0 {
        assert(a =~= Seq::<Seq<char>>::empty());
        assert(array_text(a) =~= seq!['[', ']']);
    }
}

} // verus!
