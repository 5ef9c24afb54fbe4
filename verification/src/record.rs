//! JSON objects, member by member.
//!
//! A record knows the names of its members. One that it does not know is passed
//! over without a look at its value; one that it knows may stand there only
//! once. `serde_json` finds where each key and each value ends, and reads them;
//! what stands between them is read here.

use vstd::prelude::*;
use vstd::slice::{slice_index_get, slice_subrange};
use vstd::string::*;
use vstd::utf8::{encode_utf8, is_ascii_chars_encode_utf8};

use crate::json::{
    json_quoted, json_string, member_text, object_text, plain_text, pretty_member_text,
    pretty_plain_text, pretty_text, read_string, record_member, record_text, separated, Plain,
};
use crate::text;
use crate::text::{text_opt, utf8_text};

verus! {

// ── Where a value ends ──────────────────────────────────────────────────

/// The white space of JSON.
pub open spec fn space(b: u8) -> bool {
    b == 0x20 || b == 0x0a || b == 0x0d || b == 0x09
}

/// White space and nothing else.
pub open spec fn all_space(bytes: Seq<u8>) -> bool {
    forall|i: int| 0 <= i < bytes.len() ==> space(#[trigger] bytes[i])
}

/// The bytes without the white space they begin with.
pub open spec fn after_space(bytes: Seq<u8>) -> Seq<u8>
    decreases bytes.len(),
{
    if bytes.len() > 0 && space(bytes[0]) {
        after_space(bytes.drop_first())
    } else {
        bytes
    }
}

/// How many of these bytes the first JSON value takes, with the white space
/// before it, if they begin with one.
pub uninterp spec fn json_end(bytes: Seq<u8>) -> Option<usize>;

/// The value that takes `end` bytes, without the white space before it, and what
/// follows it.
pub open spec fn split_value(bytes: Seq<u8>, end: Option<usize>) -> Option<(Seq<u8>, Seq<u8>)> {
    match end {
        Some(n) => if n <= bytes.len() {
            Some((after_space(bytes.take(n as int)), bytes.skip(n as int)))
        } else {
            None
        },
        None => None,
    }
}

/// The JSON text of a flat value in an object, on one line or laid out over
/// lines.
pub open spec fn written(value: Plain, pretty: bool) -> Seq<char> {
    if pretty {
        pretty_plain_text(value)
    } else {
        plain_text(value)
    }
}

/// What may follow a value or a key in an object: a comma, a colon, the end of
/// the object, or white space.
pub open spec fn closes(rest: Seq<u8>) -> bool {
    rest.len() > 0 && (rest[0] == 0x2c || rest[0] == 0x3a || rest[0] == 0x7d || space(rest[0]))
}

/// `serde_json::Deserializer::from_slice`, its stream of `IgnoredAny`, and the
/// `byte_offset` after the first item.
///
/// Claims that the outcome depends on the bytes alone; that a value has at least
/// one byte, and does not begin like the end of an object; and that a flat value
/// is found as it was written, whatever white space stands before it, where
/// something follows that can follow a value.
#[verifier::external_body]
fn value_end(bytes: &[u8]) -> (r: Option<usize>)
    ensures
        r == json_end(bytes@),
        r matches Some(n) ==> 0 < n <= bytes@.len() && after_space(bytes@.take(n as int)).len() > 0
            && after_space(bytes@.take(n as int))[0] != 0x7d,
        forall|gap: Seq<u8>, value: Plain, pretty: bool, rest: Seq<u8>|
            all_space(gap) && closes(rest) && bytes@ == #[trigger] (gap + encode_utf8(
                written(value, pretty),
            ) + rest) ==> split_value(bytes@, r) == Some(
                (encode_utf8(written(value, pretty)), rest),
            ),
{
    let mut values = serde_json::Deserializer::from_slice(bytes).into_iter::<serde::de::IgnoredAny>();
    values.next()?.ok()?;
    Some(values.byte_offset())
}

/// The first value in these bytes, without the white space before it, and what
/// follows it.
pub open spec fn value_at(bytes: Seq<u8>) -> Option<(Seq<u8>, Seq<u8>)> {
    split_value(bytes, json_end(bytes))
}

// ── The members of an object ────────────────────────────────────────────

/// A member of an object: its key, and the text of its value, if that is text.
pub type Member = (Seq<char>, Option<Seq<char>>);

/// The key that these bytes stand for, if they are a JSON string.
pub open spec fn key_of(bytes: Seq<u8>) -> Option<Seq<char>> {
    match utf8_text(bytes) {
        Some(t) => json_string(t),
        None => None,
    }
}

/// The member that these bytes begin with, and what follows it: a key, a colon,
/// and a value.
pub open spec fn member_at(bytes: Seq<u8>) -> Option<(Member, Seq<u8>)> {
    match value_at(bytes) {
        Some((k, after)) => match (key_of(k), first_is(after_space(after), 0x3a)) {
            (Some(key), true) => match value_at(after_space(after).drop_first()) {
                Some((value, rest)) => Some(((key, utf8_text(value)), rest)),
                None => None,
            },
            _ => None,
        },
        None => None,
    }
}

/// The bytes begin with this one.
pub open spec fn first_is(bytes: Seq<u8>, b: u8) -> bool {
    bytes.len() > 0 && bytes[0] == b
}

/// The members in these bytes, which hold at least one: after each there is a
/// comma and another, or the end of the object, with nothing behind it.
pub open spec fn members_from(bytes: Seq<u8>) -> Option<Seq<Member>>
    decreases bytes.len(),
{
    match member_at(bytes) {
        Some((member, rest)) => {
            let after = after_space(rest);
            if first_is(after, 0x7d) {
                if after_space(after.drop_first()).len() == 0 {
                    Some(seq![member])
                } else {
                    None
                }
            } else if first_is(after, 0x2c) && after.len() <= bytes.len() {
                match members_from(after.drop_first()) {
                    Some(more) => Some(seq![member] + more),
                    None => None,
                }
            } else {
                None
            }
        },
        None => None,
    }
}

/// The members of the JSON object that these bytes encode, in order.
pub open spec fn object_members(bytes: Seq<u8>) -> Option<Seq<Member>> {
    let object = after_space(bytes);
    if first_is(object, 0x7b) {
        let inside = after_space(object.drop_first());
        if first_is(inside, 0x7d) {
            if after_space(inside.drop_first()).len() == 0 {
                Some(Seq::empty())
            } else {
                None
            }
        } else {
            members_from(object.drop_first())
        }
    } else {
        None
    }
}

/// The record in these bytes: an object in which no member with one of these
/// names stands twice, and whose members with these names are text.
pub open spec fn record_in(bytes: Seq<u8>, names: Seq<Seq<char>>) -> Option<Seq<Member>> {
    match object_members(bytes) {
        Some(members) => if sound(members, names) {
            Some(members)
        } else {
            None
        },
        None => None,
    }
}

/// No member with one of these names stands twice, and each is text.
pub open spec fn sound(members: Seq<Member>, names: Seq<Seq<char>>) -> bool {
    forall|i: int|
        0 <= i < members.len() && names.contains((#[trigger] members[i]).0) ==> members[i].1 is Some
            && single(members, i)
}

/// No member before this one has its name.
pub open spec fn single(members: Seq<Member>, i: int) -> bool {
    forall|j: int| 0 <= j < i ==> (#[trigger] members[j]).0 != members[i].0
}

/// The text of the member with this name.
pub open spec fn member(members: Seq<Member>, name: Seq<char>) -> Option<Seq<char>>
    decreases members.len(),
{
    if members.len() == 0 {
        None
    } else if members.last().0 == name {
        members.last().1
    } else {
        member(members.drop_last(), name)
    }
}

/// The name that a text stands for where one of a few names is expected: a JSON
/// string, or an object whose only member has that name and is null.
pub open spec fn variant_of(text: Seq<char>) -> Option<Seq<char>> {
    match json_string(text) {
        Some(name) => Some(name),
        None => match object_members(encode_utf8(text)) {
            Some(members) => if members.len() == 1 && members[0].1 == Some("null"@) {
                Some(members[0].0)
            } else {
                None
            },
            None => None,
        },
    }
}

/// The name that a field holds.
pub open spec fn variant_field(field: Option<Seq<char>>) -> Option<Seq<char>> {
    match field {
        Some(t) => variant_of(t),
        None => None,
    }
}

// ── Reading ─────────────────────────────────────────────────────────────

/// A JSON object, as its members.
#[derive(Debug)]
pub struct Record {
    members: Vec<(String, Option<String>)>,
}

/// What the members of a record say.
pub open spec fn member_views(members: Seq<(String, Option<String>)>) -> Seq<Member> {
    members.map_values(|m: (String, Option<String>)| (m.0@, text_opt(m.1)))
}

impl View for Record {
    type V = Seq<Member>;

    closed spec fn view(&self) -> Seq<Member> {
        member_views(self.members@)
    }
}

/// The view of a record that may be absent.
pub open spec fn record_opt(r: Option<Record>) -> Option<Seq<Member>> {
    match r {
        Some(record) => Some(record@),
        None => None,
    }
}

/// What is known of a stretch of bytes once its first value has been looked for.
spec fn heard(bytes: Seq<u8>) -> bool {
    &&& json_end(bytes) matches Some(n) ==> 0 < n <= bytes.len() && after_space(
        bytes.take(n as int),
    ).len() > 0 && after_space(bytes.take(n as int))[0] != 0x7d
    &&& forall|gap: Seq<u8>, value: Plain, pretty: bool, rest: Seq<u8>|
        all_space(gap) && closes(rest) && bytes == #[trigger] (gap + encode_utf8(
            written(value, pretty),
        ) + rest) ==> value_at(bytes) == Some((encode_utf8(written(value, pretty)), rest))
}

/// What is known of a text once it has been read as a string.
spec fn spelled(text: Seq<char>) -> bool {
    forall|s: Seq<char>| #[trigger] json_quoted(s) == text ==> json_string(text) == Some(s)
}

/// What is known of the first member in these bytes once it has been looked for.
spec fn heard_member(bytes: Seq<u8>) -> bool {
    &&& heard(bytes)
    &&& value_at(bytes) matches Some((k, after)) ==> {
        &&& utf8_text(k) matches Some(t) ==> spelled(t)
        &&& key_of(k) is Some && first_is(after_space(after), 0x3a) ==> heard(
            after_space(after).drop_first(),
        )
    }
}

/// What is known of all members in these bytes once they have been read.
spec fn heard_members(bytes: Seq<u8>) -> bool
    decreases bytes.len(),
{
    &&& heard_member(bytes)
    &&& member_at(bytes) matches Some((member, rest)) ==> {
        let after = after_space(rest);
        first_is(after, 0x2c) && after.len() <= bytes.len() ==> heard_members(after.drop_first())
    }
}

proof fn lemma_after_space_len(bytes: Seq<u8>)
    ensures
        after_space(bytes).len() <= bytes.len(),
        after_space(bytes) == bytes.skip(bytes.len() - after_space(bytes).len()),
    decreases bytes.len(),
{
    if bytes.len() > 0 && space(bytes[0]) {
        lemma_after_space_len(bytes.drop_first());
        let rest = bytes.drop_first();
        assert(rest.skip(rest.len() - after_space(rest).len()) =~= bytes.skip(
            bytes.len() - after_space(rest).len(),
        ));
    } else {
        assert(bytes.skip(0) =~= bytes);
    }
}

proof fn lemma_after_space_prefix(bytes: Seq<u8>, n: int)
    requires
        0 <= n <= bytes.len(),
        after_space(bytes.take(n)).len() > 0,
    ensures
        after_space(bytes) == after_space(bytes.take(n)) + bytes.skip(n),
    decreases n,
{
    let head = bytes.take(n);
    if space(head[0]) {
        assert(head.drop_first() =~= bytes.drop_first().take(n - 1));
        lemma_after_space_prefix(bytes.drop_first(), n - 1);
        assert(bytes.drop_first().skip(n - 1) =~= bytes.skip(n));
    } else {
        assert(head + bytes.skip(n) =~= bytes);
    }
}

proof fn lemma_after_gap(gap: Seq<u8>, rest: Seq<u8>)
    requires
        all_space(gap),
    ensures
        after_space(gap + rest) == after_space(rest),
    decreases gap.len(),
{
    if gap.len() == 0 {
        assert(gap + rest =~= rest);
    } else {
        assert(space(gap[0]));
        assert((gap + rest).drop_first() =~= gap.drop_first() + rest);
        assert forall|i: int| 0 <= i < gap.drop_first().len() implies space(
            #[trigger] gap.drop_first()[i],
        ) by {
            assert(space(gap[i + 1]));
        }
        lemma_after_gap(gap.drop_first(), rest);
    }
}

fn skip_space(bytes: &[u8], from: usize) -> (r: usize)
    requires
        from <= bytes@.len(),
    ensures
        from <= r <= bytes@.len(),
        after_space(bytes@.skip(from as int)) == bytes@.skip(r as int),
{
    let mut at: usize = from;
    while at < bytes.len()
        invariant_except_break
            from <= at <= bytes@.len(),
            after_space(bytes@.skip(from as int)) == after_space(bytes@.skip(at as int)),
        ensures
            from <= at <= bytes@.len(),
            after_space(bytes@.skip(from as int)) == bytes@.skip(at as int),
        decreases bytes.len() - at,
    {
        let b: u8 = *slice_index_get(bytes, at);
        assert(bytes@.skip(at as int)[0] == b);
        if !(b == 0x20 || b == 0x0a || b == 0x0d || b == 0x09) {
            break;
        }
        assert(bytes@.skip(at as int).drop_first() =~= bytes@.skip(at + 1));
        at += 1;
    }
    at
}

fn begins(bytes: &[u8], at: usize, b: u8) -> (r: bool)
    requires
        at <= bytes@.len(),
    ensures
        r == first_is(bytes@.skip(at as int), b),
        r ==> at < bytes@.len() <= usize::MAX && bytes@.skip(at as int).drop_first() == bytes@.skip(
            at + 1,
        ),
{
    if at < bytes.len() {
        assert(bytes@.skip(at as int)[0] == bytes@[at as int]);
        assert(bytes@.skip(at as int).drop_first() =~= bytes@.skip(at + 1));
        *slice_index_get(bytes, at) == b
    } else {
        false
    }
}

/// The place of the first value from `from` on: where it begins and where it
/// ends.
fn find_value(bytes: &[u8], from: usize) -> (r: Option<(usize, usize)>)
    requires
        from <= bytes@.len(),
    ensures
        heard(bytes@.skip(from as int)),
        match r {
            Some((start, end)) => {
                &&& from <= start < end <= bytes@.len()
                &&& value_at(bytes@.skip(from as int)) == Some(
                    (bytes@.subrange(start as int, end as int), bytes@.skip(end as int)),
                )
            },
            None => value_at(bytes@.skip(from as int)) is None,
        },
{
    let left: &[u8] = slice_subrange(bytes, from, bytes.len());
    assert(left@ =~= bytes@.skip(from as int));
    match value_end(left) {
        Some(n) => {
            let start: usize = skip_space(bytes, from);
            let end: usize = from + n;
            proof {
                let value = after_space(left@.take(n as int));
                lemma_after_space_prefix(left@, n as int);
                assert(left@.skip(n as int) =~= bytes@.skip(end as int));
                let whole = value + left@.skip(n as int);
                assert(whole == bytes@.skip(start as int));
                assert(whole.take(value.len() as int) =~= value);
                assert(whole.len() == value.len() + (bytes@.len() - end));
                assert(bytes@.skip(start as int).take(value.len() as int) =~= bytes@.subrange(
                    start as int,
                    end as int,
                ));
            }
            Some((start, end))
        },
        None => None,
    }
}

/// The text between two places.
fn text_between(bytes: &[u8], start: usize, end: usize) -> (r: Option<String>)
    requires
        start <= end <= bytes@.len(),
    ensures
        text_opt(r) == utf8_text(bytes@.subrange(start as int, end as int)),
{
    let mut copy: Vec<u8> = Vec::new();
    let mut i: usize = start;
    assert(copy@ =~= bytes@.subrange(start as int, start as int));
    while i < end
        invariant
            start <= i <= end <= bytes@.len(),
            copy@ == bytes@.subrange(start as int, i as int),
        decreases end - i,
    {
        copy.push(*slice_index_get(bytes, i));
        assert(copy@ =~= bytes@.subrange(start as int, i + 1));
        i += 1;
    }
    text::decoded(&copy)
}

/// The member that begins at `from`, and the place behind it.
fn find_member(bytes: &[u8], from: usize) -> (r: Option<((String, Option<String>), usize)>)
    requires
        from <= bytes@.len(),
    ensures
        heard_member(bytes@.skip(from as int)),
        match r {
            Some((m, end)) => {
                &&& from < end <= bytes@.len()
                &&& member_at(bytes@.skip(from as int)) == Some(
                    ((m.0@, text_opt(m.1)), bytes@.skip(end as int)),
                )
            },
            None => member_at(bytes@.skip(from as int)) is None,
        },
{
    let (key_start, key_end): (usize, usize) = match find_value(bytes, from) {
        Some(place) => place,
        None => {
            return None;
        },
    };
    let key: String = match text_between(bytes, key_start, key_end) {
        Some(quoted) => match read_string(quoted.as_str()) {
            Some(key) => key,
            None => {
                return None;
            },
        },
        None => {
            return None;
        },
    };
    let colon: usize = skip_space(bytes, key_end);
    if !begins(bytes, colon, 0x3a) {
        return None;
    }
    match find_value(bytes, colon + 1) {
        Some((start, end)) => Some(((key, text_between(bytes, start, end)), end)),
        None => None,
    }
}

/// These members, and more of them.
spec fn prefixed(done: Seq<Member>, more: Option<Seq<Member>>) -> Option<Seq<Member>> {
    match more {
        Some(m) => Some(done + m),
        None => None,
    }
}

/// The members from `from` on.
fn find_members(bytes: &[u8], from: usize) -> (r: Option<Record>)
    requires
        from <= bytes@.len(),
    ensures
        record_opt(r) == members_from(bytes@.skip(from as int)),
        heard_members(bytes@.skip(from as int)),
{
    let ghost all = bytes@.skip(from as int);
    let mut members: Vec<(String, Option<String>)> = Vec::new();
    let mut at: usize = from;
    proof {
        assert(member_views(members@) =~= Seq::<Member>::empty());
        assert(prefixed(member_views(members@), members_from(all)) =~= members_from(all)) by {
            if let Some(m) = members_from(all) {
                assert(Seq::<Member>::empty() + m =~= m);
            }
        }
    }
    loop
        invariant
            from <= at <= bytes@.len(),
            all == bytes@.skip(from as int),
            prefixed(member_views(members@), members_from(bytes@.skip(at as int))) == members_from(all),
            heard_members(bytes@.skip(at as int)) ==> heard_members(all),
        decreases bytes@.len() - at,
    {
        let ghost here = bytes@.skip(at as int);
        let ghost done = member_views(members@);
        let (found, end): ((String, Option<String>), usize) = match find_member(bytes, at) {
            Some(found) => found,
            None => {
                return None;
            },
        };
        let ghost one = (found.0@, text_opt(found.1));
        members.push(found);
        assert(member_views(members@) =~= done.push(one));
        let next: usize = skip_space(bytes, end);
        if begins(bytes, next, 0x7d) {
            let last: usize = skip_space(bytes, next + 1);
            if last < bytes.len() {
                return None;
            }
            assert(done + seq![one] =~= member_views(members@));
            return Some(Record { members });
        }
        if !begins(bytes, next, 0x2c) {
            return None;
        }
        proof {
            let more = members_from(bytes@.skip(next + 1));
            assert(members_from(here) == prefixed(seq![one], more));
            if let Some(m) = more {
                assert(done + (seq![one] + m) =~= member_views(members@) + m);
            }
        }
        at = next + 1;
    }
}

/// What is known of an object once its members have been read.
spec fn heard_object(bytes: Seq<u8>) -> bool {
    let object = after_space(bytes);
    first_is(object, 0x7b) ==> {
        &&& heard(object.drop_first())
        &&& value_at(object.drop_first()) is Some ==> heard_members(object.drop_first())
    }
}

proof fn lemma_no_end_before_a_value(inner: Seq<u8>)
    requires
        heard(inner),
        value_at(inner) is Some,
    ensures
        !first_is(after_space(inner), 0x7d),
{
    let n = json_end(inner)->Some_0 as int;
    lemma_after_space_prefix(inner, n);
    assert(after_space(inner)[0] == after_space(inner.take(n))[0]);
}

fn find_object(bytes: &[u8]) -> (r: Option<Record>)
    ensures
        record_opt(r) == object_members(bytes@),
        heard_object(bytes@),
{
    let open: usize = skip_space(bytes, 0);
    assert(bytes@.skip(0) =~= bytes@);
    if !begins(bytes, open, 0x7b) {
        return None;
    }
    if find_value(bytes, open + 1).is_some() {
        proof {
            lemma_no_end_before_a_value(bytes@.skip(open + 1));
        }
        return find_members(bytes, open + 1);
    }
    let inside: usize = skip_space(bytes, open + 1);
    if !begins(bytes, inside, 0x7d) {
        return None;
    }
    let last: usize = skip_space(bytes, inside + 1);
    if last < bytes.len() {
        return None;
    }
    let members: Vec<(String, Option<String>)> = Vec::new();
    assert(member_views(members@) =~= Seq::<Member>::empty());
    Some(Record { members })
}

/// The members of an object that was written flat, on one line or over several.
pub open spec fn written_members(members: Seq<(Seq<char>, Plain)>, pretty: bool) -> Seq<Member> {
    members.map_values(|m: (Seq<char>, Plain)| (m.0, Some(written(m.1, pretty))))
}

/// The members of the JSON object that these bytes encode. An object that was
/// written flat has the members it was written from.
pub fn members_of(bytes: &[u8]) -> (r: Option<Record>)
    ensures
        record_opt(r) == object_members(bytes@),
        forall|members: Seq<(Seq<char>, Plain)>|
            members.len() > 0 && bytes@ == encode_utf8(#[trigger] record_text(members))
                ==> record_opt(r) == Some(written_members(members, false)),
        forall|members: Seq<(Seq<char>, Plain)>|
            members.len() > 0 && bytes@ == encode_utf8(#[trigger] pretty_text(members))
                ==> record_opt(r) == Some(written_members(members, true)),
{
    let r = find_object(bytes);
    proof {
        assert forall|members: Seq<(Seq<char>, Plain)>|
            members.len() > 0 && bytes@ == encode_utf8(
                #[trigger] record_text(members),
            ) implies record_opt(r) == Some(written_members(members, false)) by {
            lemma_record_text(members);
            lemma_written_object(bytes@, members, false);
        }
        assert forall|members: Seq<(Seq<char>, Plain)>|
            members.len() > 0 && bytes@ == encode_utf8(
                #[trigger] pretty_text(members),
            ) implies record_opt(r) == Some(written_members(members, true)) by {
            lemma_pretty_text(members);
            lemma_written_object(bytes@, members, true);
        }
    }
    r
}

/// The names of the members that a record knows.
pub open spec fn names_of(names: Seq<&'static str>) -> Seq<Seq<char>> {
    names.map_values(|name: &'static str| name@)
}

/// No two of these members have the same name.
pub open spec fn distinct(members: Seq<(Seq<char>, Plain)>) -> bool {
    forall|i: int, j: int|
        0 <= i < j < members.len() ==> (#[trigger] members[i]).0 != (#[trigger] members[j]).0
}

impl Record {
    /// No member with one of these names stands twice, and each is text.
    fn is_sound(&self, names: &Vec<&'static str>) -> (r: bool)
        ensures
            r == sound(self@, names_of(names@)),
    {
        let ghost known = names_of(names@);
        let mut i: usize = 0;
        while i < self.members.len()
            invariant
                i <= self.members.len(),
                known == names_of(names@),
                forall|k: int|
                    0 <= k < i && known.contains((#[trigger] self@[k]).0) ==> self@[k].1 is Some
                        && single(self@, k),
            decreases self.members.len() - i,
        {
            assert(self@[i as int] == (self.members@[i as int].0@, text_opt(
                self.members@[i as int].1,
            )));
            if is_among(self.members[i].0.as_str(), names) {
                if self.members[i].1.is_none() || self.stands_before(i) {
                    assert(known.contains(self@[i as int].0));
                    return false;
                }
            }
            i += 1;
        }
        true
    }

    /// A member before this one has its name.
    fn stands_before(&self, i: usize) -> (r: bool)
        requires
            i < self@.len(),
        ensures
            r == !single(self@, i as int),
    {
        let mut j: usize = 0;
        while j < i
            invariant
                j <= i < self.members@.len(),
                self@ == member_views(self.members@),
                forall|k: int| 0 <= k < j ==> (#[trigger] self@[k]).0 != self@[i as int].0,
            decreases i - j,
        {
            if text::same(self.members[j].0.as_str(), self.members[i].0.as_str()) {
                assert(self@[j as int].0 == self@[i as int].0);
                return true;
            }
            j += 1;
        }
        false
    }

    /// The text of the member with this name.
    pub fn get(&self, name: &str) -> (r: Option<String>)
        ensures
            text_opt(r) == member(self@, name@),
    {
        let mut left: usize = self.members.len();
        assert(self@.take(left as int) =~= self@);
        while left > 0
            invariant
                left <= self.members@.len(),
                self@ == member_views(self.members@),
                member(self@, name@) == member(self@.take(left as int), name@),
            decreases left,
        {
            proof {
                let head = self@.take(left as int);
                assert(head.last() == self@[left - 1]);
                assert(head.drop_last() =~= self@.take(left - 1));
            }
            if text::same(self.members[left - 1].0.as_str(), name) {
                return text::copy_opt(&self.members[left - 1].1);
            }
            left -= 1;
        }
        None
    }
}

fn is_among(name: &str, names: &Vec<&'static str>) -> (r: bool)
    ensures
        r == names_of(names@).contains(name@),
{
    let ghost known = names_of(names@);
    let mut i: usize = 0;
    while i < names.len()
        invariant
            i <= names.len(),
            known == names_of(names@),
            forall|k: int| 0 <= k < i ==> #[trigger] known[k] != name@,
        decreases names.len() - i,
    {
        if text::same(names[i], name) {
            assert(known[i as int] == name@);
            return true;
        }
        i += 1;
    }
    false
}

/// The record in these bytes, which knows members with these names. A record
/// that was written flat has the members it was written from.
pub fn read_record(bytes: &[u8], names: &Vec<&'static str>) -> (r: Option<Record>)
    ensures
        record_opt(r) == record_in(bytes@, names_of(names@)),
        forall|members: Seq<(Seq<char>, Plain)>|
            members.len() > 0 && distinct(members) && bytes@ == encode_utf8(
                #[trigger] record_text(members),
            ) ==> record_opt(r) == Some(written_members(members, false)),
        forall|members: Seq<(Seq<char>, Plain)>|
            members.len() > 0 && distinct(members) && bytes@ == encode_utf8(
                #[trigger] pretty_text(members),
            ) ==> record_opt(r) == Some(written_members(members, true)),
{
    let found = members_of(bytes);
    let ghost read = record_opt(found);
    let r: Option<Record> = match found {
        Some(record) => {
            if record.is_sound(names) {
                Some(record)
            } else {
                None
            }
        },
        None => None,
    };
    proof {
        assert forall|members: Seq<(Seq<char>, Plain)>, pretty: bool|
            distinct(members) && read == Some(
                #[trigger] written_members(members, pretty),
            ) implies record_opt(r) == read by {
            let views = written_members(members, pretty);
            assert forall|i: int| 0 <= i < views.len() implies single(views, i) && (
            #[trigger] views[i]).1 is Some by {
                assert forall|j: int| 0 <= j < i implies (#[trigger] views[j]).0 != views[i].0 by {
                    assert(members[j].0 != members[i].0);
                }
            }
        }
    }
    r
}

/// The name that a text stands for where one of a few names is expected.
pub(crate) fn read_variant(text: &str) -> (r: Option<String>)
    ensures
        text_opt(r) == variant_of(text@),
        forall|s: Seq<char>| #[trigger] json_quoted(s) == text@ ==> text_opt(r) == Some(s),
{
    match read_string(text) {
        Some(name) => Some(name),
        None => match members_of(text.as_bytes()) {
            Some(record) => record.only_null(),
            None => None,
        },
    }
}

pub(crate) fn read_variant_field(field: Option<String>) -> (r: Option<String>)
    ensures
        text_opt(r) == variant_field(text_opt(field)),
        forall|s: Seq<char>|
            text_opt(field) == Some(#[trigger] json_quoted(s)) ==> text_opt(r) == Some(s),
{
    match field {
        Some(t) => read_variant(t.as_str()),
        None => None,
    }
}

impl Record {
    /// The name of the only member, if there is but one and it is null.
    fn only_null(self) -> (r: Option<String>)
        ensures
            text_opt(r) == (if self@.len() == 1 && self@[0].1 == Some("null"@) {
                Some(self@[0].0)
            } else {
                None
            }),
    {
        let mut members: Vec<(String, Option<String>)> = self.members;
        if members.len() != 1 {
            return None;
        }
        let (name, value): (String, Option<String>) = members.remove(0);
        match value {
            Some(t) => {
                if text::same(t.as_str(), "null") {
                    Some(name)
                } else {
                    None
                }
            },
            None => None,
        }
    }
}

/// The member of a record that was written flat is the one it was written from.
pub proof fn lemma_written_member_text(
    members: Seq<(Seq<char>, Plain)>,
    pretty: bool,
    name: Seq<char>,
)
    ensures
        member(written_members(members, pretty), name) == (match record_member(members, name) {
            Some(value) => Some(written(value, pretty)),
            None => None,
        }),
    decreases members.len(),
{
    if members.len() > 0 {
        lemma_written_member_text(members.drop_last(), pretty, name);
        assert(written_members(members, pretty).drop_last() =~= written_members(
            members.drop_last(),
            pretty,
        ));
    }
}

/// The text of the member with this name in a flat object on one line.
pub open spec fn found_text(members: Seq<(Seq<char>, Plain)>, name: Seq<char>) -> Option<Seq<char>> {
    match record_member(members, name) {
        Some(value) => Some(plain_text(value)),
        None => None,
    }
}

/// There is a member with this name, and it is a string.
pub open spec fn has_text(members: Seq<(Seq<char>, Plain)>, name: Seq<char>) -> bool {
    record_member(members, name) matches Some(Plain::Text(_))
}

/// Where there is a member with this name, it is a string.
pub open spec fn may_have_text(members: Seq<(Seq<char>, Plain)>, name: Seq<char>) -> bool {
    record_member(members, name) is None || has_text(members, name)
}

/// Where there is a member with this name, it is a string or null.
pub open spec fn may_have_null(members: Seq<(Seq<char>, Plain)>, name: Seq<char>) -> bool {
    may_have_text(members, name) || record_member(members, name) == Some(Plain::Null)
}

/// The string that a member with this name holds, if it holds one.
pub open spec fn text_under(members: Seq<(Seq<char>, Plain)>, name: Seq<char>) -> Option<Seq<char>> {
    match record_member(members, name) {
        Some(Plain::Text(t)) => Some(t),
        _ => None,
    }
}

// ── What was written ────────────────────────────────────────────────────

/// What stands before each key.
spec fn key_gap(pretty: bool) -> Seq<char> {
    if pretty {
        "\n  "@
    } else {
        Seq::empty()
    }
}

/// What stands between a colon and its value.
spec fn value_gap(pretty: bool) -> Seq<char> {
    if pretty {
        " "@
    } else {
        Seq::empty()
    }
}

/// What stands before the end of an object.
spec fn end_gap(pretty: bool) -> Seq<char> {
    if pretty {
        "\n"@
    } else {
        Seq::empty()
    }
}

/// A member of a flat object, without what stands before it.
spec fn flat_member(m: (Seq<char>, Plain), pretty: bool) -> Seq<char> {
    json_quoted(m.0) + seq![':'] + value_gap(pretty) + written(m.1, pretty)
}

/// What follows the first member of a flat object.
spec fn flat_rest(members: Seq<(Seq<char>, Plain)>, pretty: bool) -> Seq<char>
    decreases members.len(), 0int,
{
    if members.len() <= 1 {
        end_gap(pretty) + seq!['}']
    } else {
        seq![','] + flat_text(members.drop_first(), pretty)
    }
}

/// A flat object, without the brace it begins with.
spec fn flat_text(members: Seq<(Seq<char>, Plain)>, pretty: bool) -> Seq<char>
    decreases members.len(), 1int,
{
    if members.len() == 0 {
        Seq::empty()
    } else {
        key_gap(pretty) + flat_member(members[0], pretty) + flat_rest(members, pretty)
    }
}

spec fn flat_members(members: Seq<(Seq<char>, Plain)>, pretty: bool) -> Seq<Seq<char>> {
    members.map_values(|m: (Seq<char>, Plain)| flat_member(m, pretty))
}

proof fn lemma_separated_first(items: Seq<Seq<char>>, separator: Seq<char>)
    requires
        items.len() > 1,
    ensures
        separated(items, separator) == items[0] + separator + separated(
            items.drop_first(),
            separator,
        ),
    decreases items.len(),
{
    let rest = items.drop_first();
    if items.len() == 2 {
        assert(items.drop_last()[0] == items[0]);
        assert(separated(items.drop_last(), separator) == items[0]);
        assert(separated(rest, separator) == items[1]);
    } else {
        lemma_separated_first(items.drop_last(), separator);
        assert(items.drop_last().drop_first() =~= rest.drop_last());
        assert(items.drop_last()[0] == items[0]);
        let middle = separated(rest.drop_last(), separator);
        assert(items[0] + separator + middle + separator + items.last() =~= items[0] + separator + (
        middle + separator + items.last()));
    }
}

proof fn lemma_flat_text(members: Seq<(Seq<char>, Plain)>, pretty: bool)
    requires
        members.len() > 0,
    ensures
        flat_text(members, pretty) == key_gap(pretty) + separated(
            flat_members(members, pretty),
            seq![','] + key_gap(pretty),
        ) + end_gap(pretty) + seq!['}'],
    decreases members.len(),
{
    let items = flat_members(members, pretty);
    let separator = seq![','] + key_gap(pretty);
    if members.len() == 1 {
        assert(separated(items, separator) == items[0]);
        assert(flat_text(members, pretty) =~= key_gap(pretty) + items[0] + end_gap(pretty) + seq![
            '}',
        ]);
    } else {
        let rest = members.drop_first();
        lemma_flat_text(rest, pretty);
        lemma_separated_first(items, separator);
        assert(items.drop_first() =~= flat_members(rest, pretty));
        assert(flat_text(members, pretty) =~= key_gap(pretty) + separated(items, separator)
            + end_gap(pretty) + seq!['}']);
    }
}

proof fn lemma_record_text(members: Seq<(Seq<char>, Plain)>)
    requires
        members.len() > 0,
    ensures
        record_text(members) == seq!['{'] + flat_text(members, false),
{
    lemma_flat_text(members, false);
    reveal_strlit(",");
    let values = members.map_values(|m: (Seq<char>, Plain)| (m.0, plain_text(m.1)));
    let items = values.map_values(|m: (Seq<char>, Seq<char>)| member_text(m.0, m.1));
    assert forall|i: int| 0 <= i < members.len() implies items[i] == flat_members(
        members,
        false,
    )[i] by {
        assert(flat_member(members[i], false) =~= member_text(
            members[i].0,
            plain_text(members[i].1),
        ));
    }
    assert(items =~= flat_members(members, false));
    assert(seq![','] + key_gap(false) =~= ","@);
    assert(object_text(values) =~= seq!['{'] + flat_text(members, false));
}

proof fn lemma_pretty_text(members: Seq<(Seq<char>, Plain)>)
    requires
        members.len() > 0,
    ensures
        pretty_text(members) == seq!['{'] + flat_text(members, true),
{
    lemma_flat_text(members, true);
    reveal_strlit("{\n  ");
    reveal_strlit(",\n  ");
    reveal_strlit("\n}");
    reveal_strlit("\n  ");
    reveal_strlit("\n");
    reveal_strlit(": ");
    reveal_strlit(" ");
    let items = members.map_values(|m: (Seq<char>, Plain)| pretty_member_text(m));
    assert forall|i: int| 0 <= i < members.len() implies items[i] == flat_members(
        members,
        true,
    )[i] by {
        assert(flat_member(members[i], true) =~= pretty_member_text(members[i]));
    }
    assert(items =~= flat_members(members, true));
    assert(seq![','] + key_gap(true) =~= ",\n  "@);
    assert("{\n  "@ =~= seq!['{'] + key_gap(true));
    assert("\n}"@ =~= end_gap(true) + seq!['}']);
    assert(pretty_text(members) =~= seq!['{'] + flat_text(members, true));
}

proof fn lemma_gaps(pretty: bool)
    ensures
        all_space(encode_utf8(key_gap(pretty))),
        all_space(encode_utf8(value_gap(pretty))),
        all_space(encode_utf8(end_gap(pretty))),
{
    reveal_strlit("\n  ");
    reveal_strlit(" ");
    reveal_strlit("\n");
    is_ascii_chars_encode_utf8(key_gap(pretty));
    is_ascii_chars_encode_utf8(value_gap(pretty));
    is_ascii_chars_encode_utf8(end_gap(pretty));
}

proof fn lemma_mark(c: char, b: u8)
    requires
        c as u32 == b,
        b < 0x80,
    ensures
        encode_utf8(seq![c]) == seq![b],
{
    is_ascii_chars_encode_utf8(seq![c]);
    assert(encode_utf8(seq![c]) =~= seq![b]);
}

proof fn lemma_flat_rest(members: Seq<(Seq<char>, Plain)>, pretty: bool)
    requires
        members.len() > 0,
    ensures
        closes(encode_utf8(flat_rest(members, pretty))),
        members.len() == 1 ==> after_space(encode_utf8(flat_rest(members, pretty))) == seq![0x7du8],
        members.len() > 1 ==> after_space(encode_utf8(flat_rest(members, pretty))) == seq![0x2cu8]
            + encode_utf8(flat_text(members.drop_first(), pretty)),
{
    lemma_gaps(pretty);
    lemma_mark('}', 0x7d);
    lemma_mark(',', 0x2c);
    if members.len() == 1 {
        let gap = encode_utf8(end_gap(pretty));
        text::lemma_utf8_concat(end_gap(pretty), seq!['}']);
        lemma_after_gap(gap, seq![0x7du8]);
        if gap.len() > 0 {
            assert(space(gap[0]));
        }
    } else {
        text::lemma_utf8_concat(seq![','], flat_text(members.drop_first(), pretty));
    }
}

proof fn lemma_written_member(members: Seq<(Seq<char>, Plain)>, pretty: bool)
    requires
        members.len() > 0,
        heard_member(encode_utf8(flat_text(members, pretty))),
    ensures
        member_at(encode_utf8(flat_text(members, pretty))) == Some(
            (
                (members[0].0, Some(written(members[0].1, pretty))),
                encode_utf8(flat_rest(members, pretty)),
            ),
        ),
{
    let (key, value) = members[0];
    let bytes = encode_utf8(flat_text(members, pretty));
    let quoted = json_quoted(key);
    let text = written(value, pretty);
    let rest = flat_rest(members, pretty);
    lemma_gaps(pretty);
    lemma_mark(':', 0x3a);
    lemma_flat_rest(members, pretty);
    let second = value_gap(pretty) + text + rest;
    let first = seq![':'] + second;
    assert(flat_text(members, pretty) =~= key_gap(pretty) + quoted + first);
    text::lemma_utf8_concat(key_gap(pretty) + quoted, first);
    text::lemma_utf8_concat(key_gap(pretty), quoted);
    text::lemma_utf8_concat(seq![':'], second);
    text::lemma_utf8_concat(value_gap(pretty) + text, rest);
    text::lemma_utf8_concat(value_gap(pretty), text);
    assert(written(Plain::Text(key), pretty) == quoted);
    assert(bytes == encode_utf8(key_gap(pretty)) + encode_utf8(
        written(Plain::Text(key), pretty),
    ) + encode_utf8(first));
    assert(value_at(bytes) == Some((encode_utf8(quoted), encode_utf8(first))));
    text::lemma_utf8_text(quoted);
    assert(spelled(quoted));
    assert(key_of(encode_utf8(quoted)) == Some(key));
    assert(after_space(encode_utf8(first)) == encode_utf8(first));
    assert(encode_utf8(first).drop_first() =~= encode_utf8(second));
    assert(encode_utf8(second) == encode_utf8(value_gap(pretty)) + encode_utf8(
        written(value, pretty),
    ) + encode_utf8(rest));
    assert(value_at(encode_utf8(second)) == Some((encode_utf8(text), encode_utf8(rest))));
    text::lemma_utf8_text(text);
}

proof fn lemma_written_members(members: Seq<(Seq<char>, Plain)>, pretty: bool)
    requires
        members.len() > 0,
        heard_members(encode_utf8(flat_text(members, pretty))),
    ensures
        members_from(encode_utf8(flat_text(members, pretty))) == Some(
            written_members(members, pretty),
        ),
    decreases members.len(),
{
    let bytes = encode_utf8(flat_text(members, pretty));
    lemma_written_member(members, pretty);
    lemma_flat_rest(members, pretty);
    let first = (members[0].0, Some(written(members[0].1, pretty)));
    let after = after_space(encode_utf8(flat_rest(members, pretty)));
    if members.len() == 1 {
        assert(after.drop_first() =~= Seq::<u8>::empty());
        assert(written_members(members, pretty) =~= seq![first]);
    } else {
        let rest = members.drop_first();
        assert(after.drop_first() =~= encode_utf8(flat_text(rest, pretty)));
        assert(after.len() <= bytes.len()) by {
            let before = key_gap(pretty) + flat_member(members[0], pretty);
            text::lemma_utf8_concat(before, flat_rest(members, pretty));
            lemma_after_space_len(encode_utf8(flat_rest(members, pretty)));
        }
        lemma_written_members(rest, pretty);
        assert(written_members(members, pretty) =~= seq![first] + written_members(rest, pretty));
    }
}

proof fn lemma_written_object(bytes: Seq<u8>, members: Seq<(Seq<char>, Plain)>, pretty: bool)
    requires
        members.len() > 0,
        bytes == encode_utf8(seq!['{'] + flat_text(members, pretty)),
        heard_object(bytes),
    ensures
        object_members(bytes) == Some(written_members(members, pretty)),
{
    let inner = encode_utf8(flat_text(members, pretty));
    lemma_mark('{', 0x7b);
    text::lemma_utf8_concat(seq!['{'], flat_text(members, pretty));
    assert(bytes.drop_first() =~= inner);
    assert(after_space(bytes) == bytes);
    lemma_gaps(pretty);
    lemma_mark(':', 0x3a);
    let (key, value) = members[0];
    let after = seq![':'] + value_gap(pretty) + written(value, pretty) + flat_rest(members, pretty);
    assert(flat_text(members, pretty) =~= key_gap(pretty) + json_quoted(key) + after);
    text::lemma_utf8_concat(key_gap(pretty) + json_quoted(key), after);
    text::lemma_utf8_concat(key_gap(pretty), json_quoted(key));
    let tail = value_gap(pretty) + written(value, pretty) + flat_rest(members, pretty);
    assert(after =~= seq![':'] + tail);
    text::lemma_utf8_concat(seq![':'], tail);
    assert(inner == encode_utf8(key_gap(pretty)) + encode_utf8(
        written(Plain::Text(key), pretty),
    ) + encode_utf8(after));
    assert(value_at(inner) is Some);
    lemma_no_end_before_a_value(inner);
    lemma_written_members(members, pretty);
}

// ── Laws ────────────────────────────────────────────────────────────────

/// A record says each thing once: of the members it knows none is repeated, and each
/// is text. An object for which that holds is a record, whatever else it holds.
pub proof fn law_a_record_says_each_thing_once(bytes: Seq<u8>, names: Seq<Seq<char>>)
    ensures
        record_in(bytes, names) matches Some(members) ==> {
            &&& object_members(bytes) == Some(members)
            &&& forall|i: int, j: int|
                0 <= i < j < members.len() && (#[trigger] members[i]).0 == (#[trigger] members[j]).0
                    ==> !names.contains(members[i].0)
            &&& forall|i: int|
                0 <= i < members.len() && names.contains((#[trigger] members[i]).0)
                    ==> members[i].1 is Some
        },
        object_members(bytes) matches Some(members) ==> (forall|i: int, j: int|
            0 <= i < j < members.len() && (#[trigger] members[i]).0 == (#[trigger] members[j]).0
                ==> !names.contains(members[i].0)) ==> (forall|i: int|
            0 <= i < members.len() && names.contains((#[trigger] members[i]).0)
                ==> members[i].1 is Some) ==> record_in(bytes, names) == Some(members),
{
    if let Some(members) = object_members(bytes) {
        if record_in(bytes, names) is Some {
            assert forall|i: int, j: int|
                0 <= i < j < members.len() && (#[trigger] members[i]).0 == (
                #[trigger] members[j]).0 implies !names.contains(members[i].0) by {
                if names.contains(members[j].0) {
                    assert(single(members, j));
                }
            }
        }
        if (forall|i: int, j: int|
            0 <= i < j < members.len() && (#[trigger] members[i]).0 == (#[trigger] members[j]).0
                ==> !names.contains(members[i].0)) && (forall|i: int|
            0 <= i < members.len() && names.contains((#[trigger] members[i]).0)
                ==> members[i].1 is Some) {
            assert forall|i: int|
                0 <= i < members.len() && names.contains(
                    (#[trigger] members[i]).0,
                ) implies members[i].1 is Some && single(members, i) by {
                assert forall|j: int| 0 <= j < i implies (#[trigger] members[j]).0
                    != members[i].0 by {}
            }
        }
    }
}

/// What is found under a name is what a member of that name holds, and nothing is
/// found where there is no such member.
pub proof fn law_a_member_is_found_under_its_name(members: Seq<Member>, name: Seq<char>)
    ensures
        member(members, name) matches Some(t) ==> members.contains((name, Some(t))),
        (forall|i: int| 0 <= i < members.len() ==> (#[trigger] members[i]).0 != name) ==> member(
            members,
            name,
        ) is None,
    decreases members.len(),
{
    if members.len() > 0 {
        let last = members.len() - 1;
        let rest = members.drop_last();
        law_a_member_is_found_under_its_name(rest, name);
        if members[last].0 == name {
            if let Some(t) = members[last].1 {
                assert(members[last] == (name, Some(t)));
            }
        } else {
            if let Some(t) = member(rest, name) {
                let i = choose|i: int| 0 <= i < rest.len() && rest[i] == (name, Some(t));
                assert(members[i] == (name, Some(t)));
            }
            if forall|i: int| 0 <= i < members.len() ==> (#[trigger] members[i]).0 != name {
                assert forall|i: int| 0 <= i < rest.len() implies (#[trigger] rest[i]).0 != name by {
                    assert(members[i].0 != name);
                }
            }
        }
    }
}

/// Where a name stands once, what is found under it is what stands there.
pub proof fn law_a_single_member_is_found(members: Seq<Member>, i: int)
    requires
        0 <= i < members.len(),
        forall|j: int| i < j < members.len() ==> (#[trigger] members[j]).0 != members[i].0,
    ensures
        member(members, members[i].0) == members[i].1,
    decreases members.len(),
{
    let rest = members.drop_last();
    if i < members.len() - 1 {
        assert(members[members.len() - 1].0 != members[i].0);
        assert forall|j: int| i < j < rest.len() implies (#[trigger] rest[j]).0 != rest[i].0 by {
            assert(members[j].0 != members[i].0);
        }
        law_a_single_member_is_found(rest, i);
    }
}

/// A name may be written as a string, or as the only member of an object, holding
/// nothing; and in no other way.
pub proof fn law_a_name_is_a_string_or_an_empty_member(text: Seq<char>)
    ensures
        json_string(text) matches Some(name) ==> variant_of(text) == Some(name),
        json_string(text) is None ==> (variant_of(text) matches Some(name) ==> object_members(
            encode_utf8(text),
        ) == Some(seq![(name, Some("null"@))])),
        json_string(text) is None ==> forall|name: Seq<char>|
            object_members(encode_utf8(text)) == Some(#[trigger] seq_of(name)) ==> variant_of(text)
                == Some(name),
{
    if json_string(text) is None {
        if let Some(members) = object_members(encode_utf8(text)) {
            if let Some(name) = variant_of(text) {
                assert(members =~= seq![(name, Some("null"@))]);
            }
        }
    }
}

/// The members of an object that holds nothing under this name, and no more.
pub open spec fn seq_of(name: Seq<char>) -> Seq<Member> {
    seq![(name, Some("null"@))]
}

} // verus!
